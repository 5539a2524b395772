//! Fitting a bag of words feature group to a text column: its most frequent
//! tokens, each with its inverse document frequency. The tokenizer that splits
//! text into words is given by the caller.

use crate::features::{
    duplicate_token, BagOfWordsFeatureGroup, BagOfWordsFeatureGroupToken, BagOfWordsFeatureGroupTokenizer,
    BagOfWordsFeatureGroupTokensEntry, FitBagOfWordsFeatureGroupSettings,
};
use crate::dataframe::DataFrameColumnView;
use crate::histogram::{keys_sorted, lemma_not_before, Histogram, HistogramKey, KeyOrder};
use crate::sorting::{sort_by_count_descending, token_words};
use crate::text_stats::{lemma_text_length_take, text_length};
use vstd::prelude::*;

verus! {

/// A token is seen as its words.
impl View for BagOfWordsFeatureGroupToken {
    type V = Seq<Seq<char>>;

    open spec fn view(&self) -> Seq<Seq<char>> {
        token_words(*self)
    }
}

/// Lexicographic order on sequences of words, each word in byte order.
pub open spec fn words_lex_lt(a: Seq<Seq<char>>, b: Seq<Seq<char>>) -> bool
    decreases a.len(),
{
    if a.len() == 0 || b.len() == 0 {
        false
    } else if String::key_lt(a[0], b[0]) {
        true
    } else if a[0] == b[0] {
        words_lex_lt(a.drop_first(), b.drop_first())
    } else {
        false
    }
}

/// The order of tokens: fewer words first, then lexicographically. It orders
/// unigrams before bigrams, as `Ord` on tokens does.
pub open spec fn words_lt(a: Seq<Seq<char>>, b: Seq<Seq<char>>) -> bool {
    a.len() < b.len() || (a.len() == b.len() && words_lex_lt(a, b))
}

proof fn lemma_words_lex_irreflexive(a: Seq<Seq<char>>)
    ensures
        !words_lex_lt(a, a),
    decreases a.len(),
{
    if a.len() > 0 {
        String::lemma_key_lt_irreflexive(a[0]);
        lemma_words_lex_irreflexive(a.drop_first());
    }
}

proof fn lemma_words_lex_transitive(a: Seq<Seq<char>>, b: Seq<Seq<char>>, c: Seq<Seq<char>>)
    requires
        words_lex_lt(a, b),
        words_lex_lt(b, c),
    ensures
        words_lex_lt(a, c),
    decreases a.len(),
{
    if String::key_lt(a[0], b[0]) && String::key_lt(b[0], c[0]) {
        String::lemma_key_lt_transitive(a[0], b[0], c[0]);
    } else if a[0] == b[0] && b[0] == c[0] {
        lemma_words_lex_transitive(a.drop_first(), b.drop_first(), c.drop_first());
    }
}

proof fn lemma_words_lex_total(a: Seq<Seq<char>>, b: Seq<Seq<char>>)
    requires
        a.len() == b.len(),
    ensures
        words_lex_lt(a, b) || words_lex_lt(b, a) || a == b,
    decreases a.len(),
{
    if a.len() == 0 {
        assert(a =~= b);
    } else {
        String::lemma_key_lt_total(a[0], b[0]);
        if a[0] == b[0] {
            lemma_words_lex_total(a.drop_first(), b.drop_first());
            if a.drop_first() == b.drop_first() {
                assert(a =~= seq![a[0]] + a.drop_first());
                assert(b =~= seq![b[0]] + b.drop_first());
            }
        }
    }
}

/// Tokens are counted in histograms in the order of their words.
impl HistogramKey for BagOfWordsFeatureGroupToken {
    open spec fn key_lt(a: Seq<Seq<char>>, b: Seq<Seq<char>>) -> bool {
        words_lt(a, b)
    }

    proof fn lemma_key_lt_transitive(a: Seq<Seq<char>>, b: Seq<Seq<char>>, c: Seq<Seq<char>>) {
        if a.len() == b.len() && b.len() == c.len() {
            lemma_words_lex_transitive(a, b, c);
        }
    }

    proof fn lemma_key_lt_irreflexive(a: Seq<Seq<char>>) {
        lemma_words_lex_irreflexive(a);
    }

    proof fn lemma_key_lt_total(a: Seq<Seq<char>>, b: Seq<Seq<char>>) {
        if a.len() == b.len() {
            lemma_words_lex_total(a, b);
        }
    }

    fn compare_keys(&self, other: &Self) -> (r: KeyOrder) {
        match (self, other) {
            (BagOfWordsFeatureGroupToken::Unigram(x), BagOfWordsFeatureGroupToken::Unigram(y)) => {
                let r = x.compare_keys(y);
                proof {
                    reveal_with_fuel(words_lex_lt, 2);
                    let a = self@;
                    let b = other@;
                    assert(a[0] == x@ && b[0] == y@);
                    assert(a.drop_first().len() == 0);
                    String::lemma_key_lt_irreflexive(x@);
                    String::lemma_key_lt_total(x@, y@);
                    if String::key_lt(x@, y@) && String::key_lt(y@, x@) {
                        String::lemma_key_lt_transitive(x@, y@, x@);
                    }
                    if x@ != y@ {
                        assert(a[0] != b[0]);
                    } else {
                        assert(a =~= b);
                    }
                }
                r
            },
            (BagOfWordsFeatureGroupToken::Unigram(_), BagOfWordsFeatureGroupToken::Bigram(_, _)) => {
                assert(self@.len() < other@.len());
                KeyOrder::Less
            },
            (BagOfWordsFeatureGroupToken::Bigram(_, _), BagOfWordsFeatureGroupToken::Unigram(_)) => {
                assert(other@.len() < self@.len());
                KeyOrder::Greater
            },
            (BagOfWordsFeatureGroupToken::Bigram(x1, x2), BagOfWordsFeatureGroupToken::Bigram(y1, y2)) => {
                let first = x1.compare_keys(y1);
                let r = match first {
                    KeyOrder::Equal => x2.compare_keys(y2),
                    _ => first,
                };
                proof {
                    reveal_with_fuel(words_lex_lt, 3);
                    let a = self@;
                    let b = other@;
                    assert(a[0] == x1@ && a[1] == x2@ && b[0] == y1@ && b[1] == y2@);
                    assert(a.drop_first()[0] == x2@ && b.drop_first()[0] == y2@);
                    assert(a.drop_first().drop_first().len() == 0);
                    String::lemma_key_lt_irreflexive(x1@);
                    String::lemma_key_lt_irreflexive(x2@);
                    String::lemma_key_lt_total(x1@, y1@);
                    String::lemma_key_lt_total(x2@, y2@);
                    if String::key_lt(x1@, y1@) && String::key_lt(y1@, x1@) {
                        String::lemma_key_lt_transitive(x1@, y1@, x1@);
                    }
                    if String::key_lt(x2@, y2@) && String::key_lt(y2@, x2@) {
                        String::lemma_key_lt_transitive(x2@, y2@, x2@);
                    }
                    if x1@ != y1@ {
                        assert(a[0] != b[0]);
                    } else if x2@ != y2@ {
                        assert(a[1] != b[1]);
                    } else {
                        assert(a =~= b);
                    }
                }
                r
            },
        }
    }

    fn duplicate(&self) -> (r: Self) {
        duplicate_token(self)
    }
}

/// The number of two-words-in-a-row among `n` words.
pub open spec fn pair_count(n: nat) -> nat {
    if n == 0 {
        0
    } else {
        (n - 1) as nat
    }
}

/// The tokens of a text given by its words: each word as a unigram, then each two
/// words in a row as a bigram.
pub open spec fn bag_tokens(words: Seq<String>) -> Seq<Seq<Seq<char>>> {
    Seq::new(words.len(), |i: int| seq![words[i]@]) + Seq::new(
        pair_count(words.len()),
        |i: int| seq![words[i]@, words[i + 1]@],
    )
}

/// The number of times the token `k` is among `s`.
pub open spec fn count_token(s: Seq<Seq<Seq<char>>>, k: Seq<Seq<char>>) -> nat
    decreases s.len(),
{
    if s.len() == 0 {
        0
    } else {
        count_token(s.drop_last(), k) + if s.last() == k {
            1nat
        } else {
            0nat
        }
    }
}

/// The number of times the token `k` occurs in the examples, each given by its words.
pub open spec fn token_occurrences(examples: Seq<Seq<String>>, k: Seq<Seq<char>>) -> nat
    decreases examples.len(),
{
    if examples.len() == 0 {
        0
    } else {
        token_occurrences(examples.drop_last(), k) + count_token(bag_tokens(examples.last()), k)
    }
}

/// The number of examples the token `k` occurs in.
pub open spec fn token_examples(examples: Seq<Seq<String>>, k: Seq<Seq<char>>) -> nat
    decreases examples.len(),
{
    if examples.len() == 0 {
        0
    } else {
        token_examples(examples.drop_last(), k) + if count_token(bag_tokens(examples.last()), k) > 0 {
            1nat
        } else {
            0nat
        }
    }
}

/// Whether `words` are what `tokenize` gives for the text `value`.
pub open spec fn splits_into<F: Fn(&str) -> Vec<String>>(tokenize: F, value: Seq<char>, words: Seq<String>) -> bool {
    exists|s: &str, r: Vec<String>| s@ == value && r@ == words && #[trigger] call_ensures(tokenize, (s,), r)
}

/// Whether `examples` holds the words that `tokenize` gives for each of the values.
pub open spec fn words_of_values<F: Fn(&str) -> Vec<String>>(
    examples: Seq<Seq<String>>,
    values: Seq<String>,
    tokenize: F,
) -> bool {
    &&& examples.len() == values.len()
    &&& forall|i: int| 0 <= i < examples.len() ==> #[trigger] splits_into(tokenize, values[i]@, examples[i])
}

/// Whether `ranked` holds each token that occurs in the examples once, with its
/// number of occurrences, the most frequent first.
pub open spec fn ranks_token_occurrences(
    ranked: Seq<(BagOfWordsFeatureGroupToken, usize)>,
    examples: Seq<Seq<String>>,
) -> bool {
    &&& forall|i: int|
        #![trigger ranked[i]]
        0 <= i < ranked.len() ==> ranked[i].1 == token_occurrences(examples, ranked[i].0@) && ranked[i].1 > 0
    &&& forall|k: Seq<Seq<char>>|
        #[trigger] token_occurrences(examples, k) > 0 ==> exists|i: int| 0 <= i < ranked.len() && ranked[i].0@ == k
    &&& forall|i: int, j: int| 0 <= i < j < ranked.len() ==> #[trigger] ranked[i].0@ != #[trigger] ranked[j].0@
    &&& forall|i: int, j: int| 0 <= i < j < ranked.len() ==> #[trigger] ranked[j].1 <= #[trigger] ranked[i].1
}

/// Whether `g` is the bag of words feature group of the named text column whose
/// values have the words `examples`: its tokens are the first
/// `settings.top_tokens_count` of a ranking of the tokens by occurrences, each with
/// what `idf` gives for the number of values and the number of values the token
/// occurs in.
pub open spec fn is_bag_of_words_fit<T, I: Fn(usize, usize) -> T>(
    g: BagOfWordsFeatureGroup<T>,
    name: Seq<char>,
    examples: Seq<Seq<String>>,
    settings: FitBagOfWordsFeatureGroupSettings,
    idf: I,
) -> bool {
    &&& g.source_column_name@ == name
    &&& g.tokenizer == BagOfWordsFeatureGroupTokenizer::Alphanumeric
    &&& is_tokens_map_of(g.tokens_map, g.tokens@)
    &&& exists|ranked: Seq<(BagOfWordsFeatureGroupToken, usize)>|
        #[trigger] ranks_token_occurrences(ranked, examples) && g.tokens@.len() == if ranked.len()
            < settings.top_tokens_count {
            ranked.len()
        } else {
            settings.top_tokens_count as nat
        } && forall|i: int|
            #![trigger g.tokens@[i]]
            0 <= i < g.tokens@.len() ==> g.tokens@[i].token == ranked[i].0 && call_ensures(
                idf,
                (examples.len() as usize, token_examples(examples, ranked[i].0@) as usize),
                g.tokens@[i].idf,
            )
}

proof fn lemma_count_token_push(s: Seq<Seq<Seq<char>>>, j: int, k: Seq<Seq<char>>)
    requires
        0 <= j < s.len(),
    ensures
        count_token(s.take(j + 1), k) == count_token(s.take(j), k) + if s[j] == k {
            1nat
        } else {
            0nat
        },
{
    assert(s.take(j + 1).drop_last() =~= s.take(j));
}

proof fn lemma_count_token_bounded_upto(s: Seq<Seq<Seq<char>>>, k: Seq<Seq<char>>)
    ensures
        count_token(s, k) <= s.len(),
    decreases s.len(),
{
    if s.len() > 0 {
        lemma_count_token_bounded_upto(s.drop_last(), k);
    }
}

/// An example of `n` words has at most `2 * n` tokens.
proof fn lemma_count_token_bounded(words: Seq<String>, k: Seq<Seq<char>>)
    ensures
        count_token(bag_tokens(words), k) <= 2 * words.len(),
{
    lemma_count_token_bounded_upto(bag_tokens(words), k);
}

/// The elements of two sequences with the same multiset are the same.
proof fn lemma_same_elements<A>(a: Seq<A>, b: Seq<A>)
    requires
        a.to_multiset() == b.to_multiset(),
    ensures
        forall|i: int| #![trigger a[i]] 0 <= i < a.len() ==> b.contains(a[i]),
{
    broadcast use vstd::seq_lib::group_to_multiset_ensures;

    assert forall|i: int| #![trigger a[i]] 0 <= i < a.len() implies b.contains(a[i]) by {
        assert(a.contains(a[i]));
        assert(a.to_multiset().count(a[i]) > 0);
    }
}

/// A sequence with the same multiset as one without duplicates has none either.
proof fn lemma_no_duplicates_kept<A>(a: Seq<A>, b: Seq<A>)
    requires
        a.to_multiset() == b.to_multiset(),
        b.no_duplicates(),
    ensures
        a.no_duplicates(),
{
    broadcast use vstd::seq_lib::group_to_multiset_ensures;

    b.lemma_multiset_has_no_duplicates();
    assert forall|i: int, j: int| 0 <= i < a.len() && 0 <= j < a.len() && i != j implies a[i] != a[j] by {
        if a[i] == a[j] {
            let rest = a.remove(j);
            let k = if i < j {
                i
            } else {
                i - 1
            };
            assert(rest[k] == a[i]);
            assert(rest.contains(a[i]));
            assert(rest.to_multiset().count(a[i]) > 0);
            assert(rest.to_multiset() =~= a.to_multiset().remove(a[j]));
            assert(a.to_multiset().count(a[i]) >= 2);
            assert(b.to_multiset().contains(a[i]));
        }
    }
}

/// A reordering of the entries of a well-formed histogram holds each entry once:
/// each of its elements is an entry, each entry is among them, and no two of them
/// have the same key.
proof fn lemma_reordered_entries<K: HistogramKey>(h: Histogram<K>, order: Seq<(K, usize)>)
    requires
        h.wf(),
        order.to_multiset() == h.spec_entries().to_multiset(),
    ensures
        forall|i: int| #![trigger order[i]] 0 <= i < order.len() ==> h.spec_entries().contains(order[i]),
        forall|p: int|
            #![trigger h.spec_entries()[p]]
            0 <= p < h.spec_entries().len() ==> order.contains(h.spec_entries()[p]),
        forall|i: int, j: int| 0 <= i < j < order.len() ==> #[trigger] order[i].0@ != #[trigger] order[j].0@,
{
    let e = h.spec_entries();
    h.lemma_entry_counts();
    lemma_same_elements(order, e);
    lemma_same_elements(e, order);
    assert(e.no_duplicates()) by {
        assert forall|p: int, q: int| 0 <= p < e.len() && 0 <= q < e.len() && p != q implies e[p] != e[q] by {
            if p < q {
                assert(e[p].0@ != e[q].0@);
            } else {
                assert(e[q].0@ != e[p].0@);
            }
        }
    }
    lemma_no_duplicates_kept(order, e);
    assert forall|i: int, j: int| 0 <= i < j < order.len() implies #[trigger] order[i].0@ != #[trigger] order[j].0@ by {
        let p = choose|p: int| #![trigger e[p]] 0 <= p < e.len() && e[p] == order[i];
        let q = choose|q: int| #![trigger e[q]] 0 <= q < e.len() && e[q] == order[j];
        if p < q {
            assert(e[p].0@ != e[q].0@);
        } else if q < p {
            assert(e[q].0@ != e[p].0@);
        }
    }
}

/// Counts the tokens of one example, given by its words: each token's number of
/// occurrences grows by its occurrences in the example, and each token that occurs
/// in it is counted in one more example.
fn count_example_tokens(
    words: &Vec<String>,
    occurrences: &mut Histogram<BagOfWordsFeatureGroupToken>,
    examples_with: &mut Histogram<BagOfWordsFeatureGroupToken>,
)
    requires
        old(occurrences).wf(),
        old(examples_with).wf(),
        forall|k: Seq<Seq<char>>| #[trigger] old(occurrences).count(k) + 2 * words@.len() <= usize::MAX,
        forall|k: Seq<Seq<char>>| #[trigger] old(examples_with).count(k) < usize::MAX,
    ensures
        final(occurrences).wf(),
        final(examples_with).wf(),
        forall|k: Seq<Seq<char>>|
            #[trigger] final(occurrences).count(k) == old(occurrences).count(k) + count_token(bag_tokens(words@), k),
        forall|k: Seq<Seq<char>>|
            #[trigger] final(occurrences).contains(k) <==> (old(occurrences).contains(k) || count_token(
                bag_tokens(words@),
                k,
            ) > 0),
        forall|k: Seq<Seq<char>>|
            #[trigger] final(examples_with).count(k) == old(examples_with).count(k) + if count_token(
                bag_tokens(words@),
                k,
            ) > 0 {
                1nat
            } else {
                0nat
            },
{
    let ghost tokens = bag_tokens(words@);
    let ghost occ0 = *occurrences;
    let mut seen: Histogram<BagOfWordsFeatureGroupToken> = Histogram::new();
    let mut j: usize = 0;
    while j < words.len()
        invariant
            j <= words@.len(),
            tokens == bag_tokens(words@),
            seen.wf(),
            occurrences.wf(),
            occ0.wf(),
            forall|k: Seq<Seq<char>>| #[trigger] occ0.count(k) + 2 * words@.len() <= usize::MAX,
            forall|k: Seq<Seq<char>>| #[trigger] seen.count(k) <= 1,
            forall|k: Seq<Seq<char>>| #[trigger] seen.contains(k) <==> count_token(tokens.take(j as int), k) > 0,
            forall|k: Seq<Seq<char>>|
                #[trigger] occurrences.count(k) == occ0.count(k) + count_token(tokens.take(j as int), k),
            forall|k: Seq<Seq<char>>|
                #[trigger] occurrences.contains(k) <==> (occ0.contains(k) || count_token(tokens.take(j as int), k) > 0),
            forall|k: Seq<Seq<char>>| #[trigger] count_token(tokens.take(j as int), k) <= j,
        decreases words@.len() - j,
    {
        let token = BagOfWordsFeatureGroupToken::Unigram(words[j].clone());
        proof {
            assert(tokens[j as int] == seq![words@[j as int]@]);
            assert(token@ == tokens[j as int]);
            assert forall|k: Seq<Seq<char>>| #[trigger]
                count_token(tokens.take(j + 1), k) == count_token(tokens.take(j as int), k) + if tokens[j as int] == k {
                    1nat
                } else {
                    0nat
                } by {
                lemma_count_token_push(tokens, j as int, k);
            }
        }
        if !seen.contains_key(&token) {
            seen.add(duplicate_token(&token), 1);
        }
        occurrences.add(token, 1);
        j = j + 1;
    }
    let n = words.len();
    let mut j2: usize = 0;
    while j2 + 1 < n
        invariant
            n == words@.len(),
            j2 <= pair_count(words@.len()),
            words@.len() > 0 ==> j2 + 1 <= words@.len(),
            words@.len() == 0 ==> j2 == 0,
            tokens == bag_tokens(words@),
            seen.wf(),
            occurrences.wf(),
            occ0.wf(),
            forall|k: Seq<Seq<char>>| #[trigger] occ0.count(k) + 2 * words@.len() <= usize::MAX,
            forall|k: Seq<Seq<char>>| #[trigger] seen.count(k) <= 1,
            forall|k: Seq<Seq<char>>|
                #[trigger] seen.contains(k) <==> count_token(tokens.take(words@.len() + j2), k) > 0,
            forall|k: Seq<Seq<char>>|
                #[trigger] occurrences.count(k) == occ0.count(k) + count_token(tokens.take(words@.len() + j2), k),
            forall|k: Seq<Seq<char>>|
                #[trigger] occurrences.contains(k) <==> (occ0.contains(k) || count_token(
                    tokens.take(words@.len() + j2),
                    k,
                ) > 0),
            forall|k: Seq<Seq<char>>| #[trigger] count_token(tokens.take(words@.len() + j2), k) <= words@.len() + j2,
        decreases words@.len() - j2,
    {
        let token = BagOfWordsFeatureGroupToken::Bigram(words[j2].clone(), words[j2 + 1].clone());
        let ghost at = words@.len() + j2;
        proof {
            assert(tokens[at] == seq![words@[j2 as int]@, words@[j2 + 1]@]);
            assert(token@ == tokens[at]);
            assert forall|k: Seq<Seq<char>>| #[trigger]
                count_token(tokens.take(at + 1), k) == count_token(tokens.take(at), k) + if tokens[at] == k {
                    1nat
                } else {
                    0nat
                } by {
                lemma_count_token_push(tokens, at, k);
            }
        }
        if !seen.contains_key(&token) {
            seen.add(duplicate_token(&token), 1);
        }
        occurrences.add(token, 1);
        j2 = j2 + 1;
        assert(tokens.take(words@.len() + j2) == tokens.take(at + 1));
    }
    assert(tokens.take(words@.len() + j2) =~= tokens);
    let keys = seen.keys();
    proof {
        seen.lemma_key_views_sorted();
    }
    let ghost q = seen.key_views();
    let ghost ex0 = *examples_with;
    let mut m: usize = 0;
    while m < keys.len()
        invariant
            m <= keys@.len(),
            keys@.len() == q.len(),
            forall|p: int| 0 <= p < keys@.len() ==> #[trigger] keys@[p]@ == q[p],
            keys_sorted::<BagOfWordsFeatureGroupToken>(q),
            examples_with.wf(),
            forall|k: Seq<Seq<char>>| #[trigger] ex0.count(k) < usize::MAX,
            forall|k: Seq<Seq<char>>|
                #[trigger] examples_with.count(k) == ex0.count(k) + if q.take(m as int).contains(k) {
                    1nat
                } else {
                    0nat
                },
        decreases keys@.len() - m,
    {
        proof {
            lemma_not_before::<BagOfWordsFeatureGroupToken>(q, m as int);
        }
        let key = duplicate_token(&keys[m]);
        assert(key@ == q[m as int]);
        assert(examples_with.count(key@) == ex0.count(key@));
        examples_with.add(key, 1);
        m = m + 1;
    }
    assert(q.take(m as int) =~= q);
    assert forall|k: Seq<Seq<char>>|
        #[trigger] examples_with.count(k) == ex0.count(k) + if count_token(tokens, k) > 0 {
            1nat
        } else {
            0nat
        } by {
        assert(seen.contains(k) <==> q.contains(k));
    }
}

/// The entries of a histogram of tokens, the most frequent first: each entry once.
#[verifier::rlimit(40)]
fn rank_tokens(occurrences: &Histogram<BagOfWordsFeatureGroupToken>) -> (r: Vec<(BagOfWordsFeatureGroupToken, usize)>)
    requires
        occurrences.wf(),
    ensures
        forall|i: int|
            #![trigger r@[i]]
            0 <= i < r@.len() ==> occurrences.count(r@[i].0@) == r@[i].1 && occurrences.contains(r@[i].0@),
        forall|k: Seq<Seq<char>>|
            #[trigger] occurrences.contains(k) ==> exists|i: int| 0 <= i < r@.len() && r@[i].0@ == k,
        forall|i: int, j: int| 0 <= i < j < r@.len() ==> #[trigger] r@[i].0@ != #[trigger] r@[j].0@,
        forall|i: int, j: int| 0 <= i < j < r@.len() ==> #[trigger] r@[j].1 <= #[trigger] r@[i].1,
{
    let entries = occurrences.entries();
    let mut ranked: Vec<(BagOfWordsFeatureGroupToken, usize)> = Vec::new();
    let mut e: usize = 0;
    while e < entries.len()
        invariant
            e <= entries@.len(),
            ranked@ == entries@.take(e as int),
        decreases entries@.len() - e,
    {
        ranked.push((duplicate_token(&entries[e].0), entries[e].1));
        assert(entries@.take(e + 1) =~= entries@.take(e as int).push(entries@[e as int]));
        e = e + 1;
    }
    assert(entries@.take(e as int) =~= entries@);
    sort_by_count_descending(&mut ranked);
    let ghost order = ranked@;
    proof {
        lemma_reordered_entries(*occurrences, order);
        occurrences.lemma_entry_counts();
        let es = occurrences.spec_entries();
        assert forall|x: int| #![trigger order[x]] 0 <= x < order.len() implies occurrences.count(order[x].0@)
            == order[x].1 && occurrences.contains(order[x].0@) by {
            assert(es.contains(order[x]));
            let p = choose|p: int| 0 <= p < es.len() && es[p] == order[x];
            assert(occurrences.count(es[p].0@) == es[p].1);
            assert(es[p].0@ == order[x].0@);
        }
        assert forall|k: Seq<Seq<char>>| #[trigger] occurrences.contains(k) implies exists|x: int|
            0 <= x < order.len() && order[x].0@ == k by {
            let p = choose|p: int| #![trigger es[p]] 0 <= p < es.len() && es[p].0@ == k;
            assert(order.contains(es[p]));
            let x = choose|x: int| 0 <= x < order.len() && order[x] == es[p];
            assert(order[x].0@ == k);
        }
    }
    ranked
}

impl<T> BagOfWordsFeatureGroup<T> {
    /// Fits a bag of words feature group to a named text column. Each value is
    /// split into words by `tokenize`; its tokens are its words and each two of its
    /// words in a row. The tokens are ranked by how often they occur, and the first
    /// `settings.top_tokens_count` are kept, each with the inverse document
    /// frequency that `idf` computes from the number of values and the number of
    /// values the token occurs in. Which of two tokens that occur as often ranks
    /// first is left open. `tokenize` gives no more words than its input has
    /// characters, and twice the column's number of characters fits in a `usize`.
    pub fn fit<N, F: Fn(&str) -> Vec<String>, I: Fn(usize, usize) -> T>(
        column: DataFrameColumnView<N>,
        settings: FitBagOfWordsFeatureGroupSettings,
        tokenize: F,
        idf: I,
    ) -> (r: Self)
        requires
            column matches DataFrameColumnView::Text(c) && c.name is Some && 2 * text_length(c.data@) <= usize::MAX,
            forall|s: &str| call_requires(tokenize, (s,)),
            forall|s: &str, w: Vec<String>| call_ensures(tokenize, (s,), w) ==> w@.len() <= s@.len(),
            forall|n: usize, d: usize| call_requires(idf, (n, d)),
        ensures
            column matches DataFrameColumnView::Text(c) && exists|examples: Seq<Seq<String>>|
                words_of_values(examples, c.data@, tokenize) && #[trigger] is_bag_of_words_fit(
                    r,
                    c.name->0@,
                    examples,
                    settings,
                    idf,
                ),
    {
        let c = match column {
            DataFrameColumnView::Text(c) => c,
            _ => {
                assert(false);
                return BagOfWordsFeatureGroup {
                    source_column_name: String::new(),
                    tokenizer: BagOfWordsFeatureGroupTokenizer::Alphanumeric,
                    tokens: Vec::new(),
                    tokens_map: Histogram::new(),
                };
            },
        };
        let name = c.name.unwrap();
        let data = c.data;
        let mut occurrences: Histogram<BagOfWordsFeatureGroupToken> = Histogram::new();
        let mut examples_with: Histogram<BagOfWordsFeatureGroupToken> = Histogram::new();
        let ghost mut examples: Seq<Seq<String>> = Seq::empty();
        let mut i: usize = 0;
        while i < data.len()
            invariant
                i <= data@.len(),
                examples.len() == i,
                forall|s: &str| call_requires(tokenize, (s,)),
                forall|s: &str, w: Vec<String>| call_ensures(tokenize, (s,), w) ==> w@.len() <= s@.len(),
                2 * text_length(data@) <= usize::MAX,
                forall|p: int| 0 <= p < i ==> #[trigger] splits_into(tokenize, data@[p]@, examples[p]),
                occurrences.wf(),
                examples_with.wf(),
                forall|k: Seq<Seq<char>>| #[trigger] occurrences.count(k) == token_occurrences(examples, k),
                forall|k: Seq<Seq<char>>| #[trigger] occurrences.contains(k) <==> token_occurrences(examples, k) > 0,
                forall|k: Seq<Seq<char>>| #[trigger] examples_with.count(k) == token_examples(examples, k),
                forall|k: Seq<Seq<char>>| #[trigger] token_occurrences(examples, k) <= 2 * text_length(data@.take(i as int)),
                forall|k: Seq<Seq<char>>| #[trigger] token_examples(examples, k) <= i,
            decreases data@.len() - i,
        {
            proof {
                lemma_text_length_take(data@, i as int);
                lemma_text_length_take(data@, i + 1);
            }
            let value = data[i].as_str();
            let words = tokenize(value);
            count_example_tokens(&words, &mut occurrences, &mut examples_with);
            proof {
                let next = examples.push(words@);
                assert(next.drop_last() =~= examples);
                assert(next.last() == words@);
                assert(splits_into(tokenize, data@[i as int]@, words@));
                assert forall|p: int| 0 <= p < i + 1 implies #[trigger] splits_into(tokenize, data@[p]@, next[p]) by {
                    if p < i {
                        assert(next[p] == examples[p]);
                    }
                }
                assert forall|k: Seq<Seq<char>>| #[trigger] token_examples(next, k) <= i + 1 by {
                    assert(token_examples(examples, k) <= i);
                }
                assert forall|k: Seq<Seq<char>>| #[trigger] token_occurrences(next, k) <= 2 * text_length(
                    data@.take(i + 1),
                ) by {
                    assert(token_occurrences(examples, k) <= 2 * text_length(data@.take(i as int)));
                    lemma_count_token_bounded(words@, k);
                }
                examples = next;
            }
            i = i + 1;
        }
        let ranked = rank_tokens(&occurrences);
        let ghost order = ranked@;
        proof {
            assert forall|x: int|
                #![trigger order[x]]
                0 <= x < order.len() implies order[x].1 == token_occurrences(examples, order[x].0@) && order[x].1 > 0 by {
                assert(occurrences.count(order[x].0@) == order[x].1);
                assert(occurrences.contains(order[x].0@));
            }
            assert forall|k: Seq<Seq<char>>| #[trigger] token_occurrences(examples, k) > 0 implies exists|x: int|
                0 <= x < order.len() && order[x].0@ == k by {
                assert(occurrences.contains(k));
            }
        }
        assert(ranks_token_occurrences(order, examples));
        let n: usize = if ranked.len() < settings.top_tokens_count {
            ranked.len()
        } else {
            settings.top_tokens_count
        };
        let mut tokens: Vec<BagOfWordsFeatureGroupTokensEntry<T>> = Vec::new();
        let mut t: usize = 0;
        while t < n
            invariant
                t <= n,
                n <= order.len(),
                ranked@ == order,
                examples.len() == data@.len(),
                examples_with.wf(),
                forall|k: Seq<Seq<char>>| #[trigger] examples_with.count(k) == token_examples(examples, k),
                forall|a: usize, d: usize| call_requires(idf, (a, d)),
                tokens@.len() == t,
                forall|x: int|
                    #![trigger tokens@[x]]
                    0 <= x < t ==> tokens@[x].token == order[x].0 && call_ensures(
                        idf,
                        (examples.len() as usize, token_examples(examples, order[x].0@) as usize),
                        tokens@[x].idf,
                    ),
            decreases n - t,
        {
            let examples_count = examples_with.get(&ranked[t].0);
            let value = idf(data.len(), examples_count);
            tokens.push(BagOfWordsFeatureGroupTokensEntry { token: duplicate_token(&ranked[t].0), idf: value });
            t = t + 1;
        }
        let tokens_map = tokens_map_of(&tokens);
        let r = BagOfWordsFeatureGroup {
            source_column_name: name.to_owned(),
            tokenizer: BagOfWordsFeatureGroupTokenizer::Alphanumeric,
            tokens,
            tokens_map,
        };
        assert(words_of_values(examples, data@, tokenize));
        assert(is_bag_of_words_fit(r, name@, examples, settings, idf));
        r
    }
}

/// Whether position `p` of `tokens` is the last that holds the token `k`.
pub open spec fn is_last_position<T>(tokens: Seq<BagOfWordsFeatureGroupTokensEntry<T>>, k: Seq<Seq<char>>, p: int) -> bool {
    &&& 0 <= p < tokens.len()
    &&& tokens[p].token@ == k
    &&& forall|j: int| p < j < tokens.len() ==> #[trigger] tokens[j].token@ != k
}

/// Whether `map` holds the tokens of `tokens`, and no others, each with its position
/// there (the last one, for a token given more than once).
pub open spec fn is_tokens_map_of<T>(
    map: Histogram<BagOfWordsFeatureGroupToken>,
    tokens: Seq<BagOfWordsFeatureGroupTokensEntry<T>>,
) -> bool {
    &&& map.wf()
    &&& forall|k: Seq<Seq<char>>|
        #[trigger] map.contains(k) <==> exists|i: int| 0 <= i < tokens.len() && #[trigger] tokens[i].token@ == k
    &&& forall|k: Seq<Seq<char>>| #[trigger] map.contains(k) ==> is_last_position(tokens, k, map.count(k) as int)
}

/// The map from each token of `tokens` to its position there.
pub fn tokens_map_of<T>(tokens: &Vec<BagOfWordsFeatureGroupTokensEntry<T>>) -> (r: Histogram<BagOfWordsFeatureGroupToken>)
    ensures
        is_tokens_map_of(r, tokens@),
{
    let mut map: Histogram<BagOfWordsFeatureGroupToken> = Histogram::new();
    let mut i: usize = tokens.len();
    while i > 0
        invariant
            i <= tokens@.len(),
            map.wf(),
            forall|k: Seq<Seq<char>>|
                #[trigger] map.contains(k) <==> exists|j: int| i <= j < tokens@.len() && #[trigger] tokens@[j].token@ == k,
            forall|k: Seq<Seq<char>>| #[trigger] map.contains(k) ==> is_last_position(tokens@, k, map.count(k) as int),
        decreases i,
    {
        i = i - 1;
        let token = &tokens[i].token;
        if !map.contains_key(token) {
            proof {
                assert forall|j: int| i < j < tokens@.len() implies #[trigger] tokens@[j].token@ != token@ by {
                    if tokens@[j].token@ == token@ {
                        assert(map.contains(token@));
                    }
                }
            }
            map.add(duplicate_token(token), i);
        }
        proof {
            assert(tokens@[i as int].token@ == token@);
        }
    }
    map
}

} // verus!
