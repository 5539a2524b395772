//! Text dataset stats: the tokens of a text column, counted. The tokenizer that
//! splits text into words, and the function that pairs words into bigrams, are
//! given by the caller.

use crate::dataset_stats::{AlphanumericTokenizer, StatsSettings, TextColumnView, TextDatasetStats};
use crate::histogram::{keys_sorted, lemma_not_before, Histogram};
use vstd::prelude::*;

verus! {

/// The number of strings of `s` whose text is `k`.
pub open spec fn text_occurrences(s: Seq<String>, k: Seq<char>) -> nat
    decreases s.len(),
{
    if s.len() == 0 {
        0
    } else {
        text_occurrences(s.drop_last(), k) + if s.last()@ == k {
            1nat
        } else {
            0nat
        }
    }
}

/// The number of characters of all the strings of `s`.
pub open spec fn text_length(s: Seq<String>) -> nat
    decreases s.len(),
{
    if s.len() == 0 {
        0
    } else {
        text_length(s.drop_last()) + s.last()@.len()
    }
}

/// Whether `unigrams` are what `tokenize` gives for the text `value`, and
/// `bigrams` what `bigrams_of` gives for those unigrams.
pub open spec fn tokenizes_to<F: Fn(&str) -> Vec<String>, B: Fn(&[String]) -> Vec<String>>(
    tokenize: F,
    bigrams_of: B,
    value: Seq<char>,
    unigrams: Seq<String>,
    bigrams: Seq<String>,
) -> bool {
    &&& exists|s: &str, r: Vec<String>| s@ == value && r@ == unigrams && #[trigger] call_ensures(tokenize, (s,), r)
    &&& exists|t: &[String], r: Vec<String>|
        t@ == unigrams && r@ == bigrams && #[trigger] call_ensures(bigrams_of, (t,), r)
}

/// The number of times `k` occurs among the unigrams of the examples, each example
/// given by its unigrams and its bigrams.
pub open spec fn unigram_occurrences(tokens: Seq<(Seq<String>, Seq<String>)>, k: Seq<char>) -> nat
    decreases tokens.len(),
{
    if tokens.len() == 0 {
        0
    } else {
        unigram_occurrences(tokens.drop_last(), k) + text_occurrences(tokens.last().0, k)
    }
}

/// The number of times `k` occurs among the bigrams of the examples.
pub open spec fn bigram_occurrences(tokens: Seq<(Seq<String>, Seq<String>)>, k: Seq<char>) -> nat
    decreases tokens.len(),
{
    if tokens.len() == 0 {
        0
    } else {
        bigram_occurrences(tokens.drop_last(), k) + text_occurrences(tokens.last().1, k)
    }
}

/// The number of examples among whose unigrams or bigrams `k` occurs.
pub open spec fn examples_with(tokens: Seq<(Seq<String>, Seq<String>)>, k: Seq<char>) -> nat
    decreases tokens.len(),
{
    if tokens.len() == 0 {
        0
    } else {
        examples_with(tokens.drop_last(), k) + if text_occurrences(tokens.last().0, k) > 0 || text_occurrences(
            tokens.last().1,
            k,
        ) > 0 {
            1nat
        } else {
            0nat
        }
    }
}

/// Whether the tokenizers give no more tokens than their input has characters or
/// unigrams, and can be called on any input.
pub open spec fn tokenizers_bounded<F: Fn(&str) -> Vec<String>, B: Fn(&[String]) -> Vec<String>>(
    tokenize: F,
    bigrams: B,
) -> bool {
    &&& forall|s: &str| call_requires(tokenize, (s,))
    &&& forall|t: &[String]| call_requires(bigrams, (t,))
    &&& forall|s: &str, r: Vec<String>| call_ensures(tokenize, (s,), r) ==> r@.len() <= s@.len()
    &&& forall|t: &[String], r: Vec<String>| call_ensures(bigrams, (t,), r) ==> r@.len() <= t@.len()
}

/// Whether `tokens` holds, for each of the values, the unigrams and bigrams that
/// the tokenizers give for it.
pub open spec fn tokens_of_values<F: Fn(&str) -> Vec<String>, B: Fn(&[String]) -> Vec<String>>(
    tokens: Seq<(Seq<String>, Seq<String>)>,
    values: Seq<String>,
    tokenize: F,
    bigrams: B,
) -> bool {
    &&& tokens.len() == values.len()
    &&& forall|i: int|
        0 <= i < tokens.len() ==> #[trigger] tokenizes_to(tokenize, bigrams, values[i]@, tokens[i].0, tokens[i].1)
}

/// Whether `s` holds the stats of the text values `values`, split into tokens by the
/// tokenizers; no count is more than the values' number of characters, and no
/// token is in more examples than there are values.
pub open spec fn is_text_stats_of_values<F: Fn(&str) -> Vec<String>, B: Fn(&[String]) -> Vec<String>>(
    s: TextDatasetStats,
    values: Seq<String>,
    tokenize: F,
    bigrams: B,
) -> bool {
    &&& exists|tokens: Seq<(Seq<String>, Seq<String>)>|
        tokens_of_values(tokens, values, tokenize, bigrams) && #[trigger] s.is_stats_of(values, tokens)
    &&& forall|k: Seq<char>| #[trigger] s.unigram_histogram.count(k) <= text_length(values)
    &&& forall|k: Seq<char>| #[trigger] s.bigram_histogram.count(k) <= text_length(values)
    &&& forall|k: Seq<char>| #[trigger] s.per_example_histogram.count(k) <= values.len()
}

/// Counting the tokens of two lists of examples together adds their counts.
pub proof fn lemma_token_counts_concat(a: Seq<(Seq<String>, Seq<String>)>, b: Seq<(Seq<String>, Seq<String>)>, k: Seq<char>)
    ensures
        unigram_occurrences(a + b, k) == unigram_occurrences(a, k) + unigram_occurrences(b, k),
        bigram_occurrences(a + b, k) == bigram_occurrences(a, k) + bigram_occurrences(b, k),
        examples_with(a + b, k) == examples_with(a, k) + examples_with(b, k),
    decreases b.len(),
{
    if b.len() == 0 {
        assert(a + b =~= a);
    } else {
        assert((a + b).drop_last() =~= a + b.drop_last());
        assert((a + b).last() == b.last());
        lemma_token_counts_concat(a, b.drop_last(), k);
    }
}

/// The number of characters of two lists of values together is the sum of theirs.
pub proof fn lemma_text_length_concat(a: Seq<String>, b: Seq<String>)
    ensures
        text_length(a + b) == text_length(a) + text_length(b),
    decreases b.len(),
{
    if b.len() == 0 {
        assert(a + b =~= a);
    } else {
        assert((a + b).drop_last() =~= a + b.drop_last());
        assert((a + b).last() == b.last());
        lemma_text_length_concat(a, b.drop_last());
    }
}

pub(crate) proof fn lemma_text_length_take(s: Seq<String>, i: int)
    requires
        0 <= i <= s.len(),
    ensures
        text_length(s.take(i)) <= text_length(s),
        i < s.len() ==> text_length(s.take(i + 1)) == text_length(s.take(i)) + s[i]@.len(),
    decreases s.len(),
{
    if i < s.len() {
        assert(s.take(i + 1).drop_last() =~= s.take(i));
        assert(s.drop_last().take(i) =~= s.take(i));
        lemma_text_length_take(s.drop_last(), i);
        if i + 1 < s.len() {
            assert(s.drop_last().take(i + 1) =~= s.take(i + 1));
            lemma_text_length_take(s.drop_last(), i + 1);
        } else {
            assert(s.take(i + 1) =~= s);
        }
    } else {
        assert(s.take(i) =~= s);
    }
}

proof fn lemma_text_occurrences_push(s: Seq<String>, j: int, k: Seq<char>)
    requires
        0 <= j < s.len(),
    ensures
        text_occurrences(s.take(j + 1), k) == text_occurrences(s.take(j), k) + if s[j]@ == k {
            1nat
        } else {
            0nat
        },
{
    assert(s.take(j + 1).drop_last() =~= s.take(j));
}

impl TextDatasetStats {
    /// Whether these are the stats of the text values `values`, whose tokens are
    /// `tokens`: for each value its unigrams and its bigrams. Each histogram has
    /// an entry for each token that occurs: the unigram and bigram histograms
    /// count its occurrences, and the per-example histogram the values it occurs in.
    pub open spec fn is_stats_of(&self, values: Seq<String>, tokens: Seq<(Seq<String>, Seq<String>)>) -> bool {
        &&& self.count == values.len()
        &&& self.unigram_histogram.wf()
        &&& self.bigram_histogram.wf()
        &&& self.per_example_histogram.wf()
        &&& forall|k: Seq<char>| #[trigger] self.unigram_histogram.count(k) == unigram_occurrences(tokens, k)
        &&& forall|k: Seq<char>| #[trigger] self.unigram_histogram.contains(k) <==> unigram_occurrences(tokens, k) > 0
        &&& forall|k: Seq<char>| #[trigger] self.bigram_histogram.count(k) == bigram_occurrences(tokens, k)
        &&& forall|k: Seq<char>| #[trigger] self.bigram_histogram.contains(k) <==> bigram_occurrences(tokens, k) > 0
        &&& forall|k: Seq<char>| #[trigger] self.per_example_histogram.count(k) == examples_with(tokens, k)
        &&& forall|k: Seq<char>| #[trigger] self.per_example_histogram.contains(k) <==> examples_with(tokens, k) > 0
    }

    /// The stats of a text column: each value is split into unigrams by `tokenize`,
    /// and `bigrams` gives the bigrams of those unigrams; the occurrences of each
    /// unigram and each bigram are counted, and so are the values each token occurs in.
    /// Neither tokenizer gives more tokens than its input has characters or unigrams.
    pub fn compute<F: Fn(&str) -> Vec<String>, B: Fn(&[String]) -> Vec<String>>(
        column: &TextColumnView,
        settings: &StatsSettings,
        tokenize: F,
        bigrams: B,
    ) -> (r: Self)
        requires
            tokenizers_bounded(tokenize, bigrams),
            text_length(column.data@) <= usize::MAX,
        ensures
            is_text_stats_of_values(r, column.data@, tokenize, bigrams),
    {
        let data = column.data;
        let mut unigram_histogram: Histogram<String> = Histogram::new();
        let mut bigram_histogram: Histogram<String> = Histogram::new();
        let mut per_example_histogram: Histogram<String> = Histogram::new();
        let ghost mut tokens: Seq<(Seq<String>, Seq<String>)> = Seq::empty();
        let mut i: usize = 0;
        while i < data.len()
            invariant
                i <= data@.len(),
                tokens.len() == i,
                forall|s: &str| call_requires(tokenize, (s,)),
                forall|t: &[String]| call_requires(bigrams, (t,)),
                forall|s: &str, r: Vec<String>| call_ensures(tokenize, (s,), r) ==> r@.len() <= s@.len(),
                forall|t: &[String], r: Vec<String>| call_ensures(bigrams, (t,), r) ==> r@.len() <= t@.len(),
                text_length(data@) <= usize::MAX,
                forall|p: int|
                    0 <= p < i ==> #[trigger] tokenizes_to(tokenize, bigrams, data@[p]@, tokens[p].0, tokens[p].1),
                unigram_histogram.wf(),
                bigram_histogram.wf(),
                per_example_histogram.wf(),
                forall|k: Seq<char>| #[trigger] unigram_histogram.count(k) == unigram_occurrences(tokens, k),
                forall|k: Seq<char>| #[trigger] unigram_histogram.contains(k) <==> unigram_occurrences(tokens, k) > 0,
                forall|k: Seq<char>| #[trigger] bigram_histogram.count(k) == bigram_occurrences(tokens, k),
                forall|k: Seq<char>| #[trigger] bigram_histogram.contains(k) <==> bigram_occurrences(tokens, k) > 0,
                forall|k: Seq<char>| #[trigger] per_example_histogram.count(k) == examples_with(tokens, k),
                forall|k: Seq<char>| #[trigger] per_example_histogram.contains(k) <==> examples_with(tokens, k) > 0,
                forall|k: Seq<char>| #[trigger] unigram_occurrences(tokens, k) <= text_length(data@.take(i as int)),
                forall|k: Seq<char>| #[trigger] bigram_occurrences(tokens, k) <= text_length(data@.take(i as int)),
                forall|k: Seq<char>| #[trigger] examples_with(tokens, k) <= i,
            decreases data@.len() - i,
        {
            proof {
                lemma_text_length_take(data@, i as int);
                lemma_text_length_take(data@, i + 1);
            }
            let value = data[i].as_str();
            let unigrams = tokenize(value);
            let slice = unigrams.as_slice();
            let bigram_tokens = bigrams(slice);
            let ghost base = text_length(data@.take(i as int));
            let mut seen: Histogram<String> = Histogram::new();
            let mut j: usize = 0;
            while j < unigrams.len()
                invariant
                    i < data@.len(),
                    j <= unigrams@.len(),
                    unigrams@.len() <= data@[i as int]@.len(),
                    base + data@[i as int]@.len() <= usize::MAX,
                    seen.wf(),
                    unigram_histogram.wf(),
                    forall|k: Seq<char>| #[trigger] seen.count(k) <= 1,
                    forall|k: Seq<char>|
                        #[trigger] seen.contains(k) <==> text_occurrences(unigrams@.take(j as int), k) > 0,
                    forall|k: Seq<char>|
                        #[trigger] unigram_histogram.count(k) == unigram_occurrences(tokens, k) + text_occurrences(
                            unigrams@.take(j as int),
                            k,
                        ),
                    forall|k: Seq<char>|
                        #[trigger] unigram_histogram.contains(k) <==> (unigram_occurrences(tokens, k)
                            + text_occurrences(unigrams@.take(j as int), k) > 0),
                    forall|k: Seq<char>|
                        unigram_occurrences(tokens, k) + #[trigger] text_occurrences(unigrams@.take(j as int), k)
                            <= base + j,
                decreases unigrams@.len() - j,
            {
                proof {
                    assert forall|k: Seq<char>| #[trigger]
                        text_occurrences(unigrams@.take(j + 1), k) == text_occurrences(unigrams@.take(j as int), k)
                            + if unigrams@[j as int]@ == k {
                            1nat
                        } else {
                            0nat
                        } by {
                        lemma_text_occurrences_push(unigrams@, j as int, k);
                    }
                }
                let token = unigrams[j].clone();
                if !seen.contains_key(&token) {
                    seen.add(token.clone(), 1);
                }
                unigram_histogram.add(token, 1);
                j = j + 1;
            }
            assert(unigrams@.take(j as int) =~= unigrams@);
            let mut j2: usize = 0;
            while j2 < bigram_tokens.len()
                invariant
                    i < data@.len(),
                    j2 <= bigram_tokens@.len(),
                    bigram_tokens@.len() <= data@[i as int]@.len(),
                    base + data@[i as int]@.len() <= usize::MAX,
                    seen.wf(),
                    bigram_histogram.wf(),
                    forall|k: Seq<char>| #[trigger] seen.count(k) <= 1,
                    forall|k: Seq<char>|
                        #[trigger] seen.contains(k) <==> (text_occurrences(unigrams@, k) > 0 || text_occurrences(
                            bigram_tokens@.take(j2 as int),
                            k,
                        ) > 0),
                    forall|k: Seq<char>|
                        #[trigger] bigram_histogram.count(k) == bigram_occurrences(tokens, k) + text_occurrences(
                            bigram_tokens@.take(j2 as int),
                            k,
                        ),
                    forall|k: Seq<char>|
                        #[trigger] bigram_histogram.contains(k) <==> (bigram_occurrences(tokens, k) + text_occurrences(
                            bigram_tokens@.take(j2 as int),
                            k,
                        ) > 0),
                    forall|k: Seq<char>|
                        bigram_occurrences(tokens, k) + #[trigger] text_occurrences(bigram_tokens@.take(j2 as int), k)
                            <= base + j2,
                decreases bigram_tokens@.len() - j2,
            {
                proof {
                    assert forall|k: Seq<char>| #[trigger]
                        text_occurrences(bigram_tokens@.take(j2 + 1), k) == text_occurrences(
                            bigram_tokens@.take(j2 as int),
                            k,
                        ) + if bigram_tokens@[j2 as int]@ == k {
                            1nat
                        } else {
                            0nat
                        } by {
                        lemma_text_occurrences_push(bigram_tokens@, j2 as int, k);
                    }
                }
                let token = bigram_tokens[j2].clone();
                if !seen.contains_key(&token) {
                    seen.add(token.clone(), 1);
                }
                bigram_histogram.add(token, 1);
                j2 = j2 + 1;
            }
            assert(bigram_tokens@.take(j2 as int) =~= bigram_tokens@);
            let keys = seen.keys();
            proof {
                seen.lemma_key_views_sorted();
            }
            let ghost q = seen.key_views();
            let mut m: usize = 0;
            while m < keys.len()
                invariant
                    m <= keys@.len(),
                    keys@.len() == q.len(),
                    forall|p: int| 0 <= p < keys@.len() ==> #[trigger] keys@[p]@ == q[p],
                    keys_sorted::<String>(q),
                    i < data@.len(),
                    i + 1 <= usize::MAX,
                    per_example_histogram.wf(),
                    forall|k: Seq<char>| #[trigger] examples_with(tokens, k) <= i,
                    forall|k: Seq<char>|
                        #[trigger] per_example_histogram.count(k) == examples_with(tokens, k) + if q.take(
                            m as int,
                        ).contains(k) {
                            1nat
                        } else {
                            0nat
                        },
                    forall|k: Seq<char>|
                        #[trigger] per_example_histogram.contains(k) <==> (examples_with(tokens, k) > 0 || q.take(
                            m as int,
                        ).contains(k)),
                decreases keys@.len() - m,
            {
                proof {
                    lemma_not_before::<String>(q, m as int);
                }
                let key = keys[m].clone();
                assert(key@ == q[m as int]);
                assert(per_example_histogram.count(key@) == examples_with(tokens, key@));
                per_example_histogram.add(key, 1);
                m = m + 1;
            }
            assert(q.take(m as int) =~= q);
            let ghost example = (unigrams@, bigram_tokens@);
            proof {
                let next = tokens.push(example);
                assert(next.drop_last() =~= tokens);
                assert(next.last() == example);
                assert forall|k: Seq<char>|
                    per_example_histogram.count(k) == #[trigger] examples_with(next, k) && (
                    per_example_histogram.contains(k) <==> examples_with(next, k) > 0) && examples_with(next, k)
                        <= i + 1 by {
                    assert(examples_with(tokens, k) <= i);
                    assert(per_example_histogram.count(k) == examples_with(tokens, k) + if q.take(m as int).contains(k) {
                        1nat
                    } else {
                        0nat
                    });
                    assert(per_example_histogram.contains(k) <==> (examples_with(tokens, k) > 0 || q.take(
                        m as int,
                    ).contains(k)));
                    assert(seen.contains(k) <==> q.contains(k));
                    assert(seen.contains(k) <==> (text_occurrences(unigrams@, k) > 0 || text_occurrences(
                        bigram_tokens@,
                        k,
                    ) > 0));
                }
                assert forall|k: Seq<char>|
                    #[trigger] unigram_histogram.count(k) == unigram_occurrences(next, k) && (
                    unigram_histogram.contains(k) <==> unigram_occurrences(next, k) > 0) && unigram_occurrences(next, k)
                        <= text_length(data@.take(i + 1)) by {
                    assert(text_occurrences(unigrams@.take(unigrams@.len() as int), k) == text_occurrences(unigrams@, k));
                }
                assert forall|k: Seq<char>|
                    #[trigger] bigram_histogram.count(k) == bigram_occurrences(next, k) && (
                    bigram_histogram.contains(k) <==> bigram_occurrences(next, k) > 0) && bigram_occurrences(next, k)
                        <= text_length(data@.take(i + 1)) by {
                    assert(text_occurrences(bigram_tokens@.take(bigram_tokens@.len() as int), k) == text_occurrences(
                        bigram_tokens@,
                        k,
                    ));
                }
                assert(tokenizes_to(tokenize, bigrams, data@[i as int]@, example.0, example.1));
                assert forall|p: int| 0 <= p < i + 1 implies #[trigger] tokenizes_to(
                    tokenize,
                    bigrams,
                    data@[p]@,
                    next[p].0,
                    next[p].1,
                ) by {
                    if p < i {
                        assert(next[p] == tokens[p]);
                    }
                }
                tokens = next;
            }
            i = i + 1;
        }
        assert(data@.take(i as int) =~= data@);
        let r = TextDatasetStats {
            count: data.len(),
            tokenizer: AlphanumericTokenizer,
            unigram_histogram,
            bigram_histogram,
            per_example_histogram,
        };
        assert(r.is_stats_of(data@, tokens));
        assert(tokens_of_values(tokens, data@, tokenize, bigrams));
        r
    }

}

} // verus!
