//! Sorting the strings and tokens that feature groups are built from, in the
//! order that `Ord` gives them: strings by their bytes, tokens unigrams first;
//! and ranking the tokens of a text column by how often they occur.

use crate::features::{BagOfWordsFeatureGroupToken, BagOfWordsFeatureGroupTokensEntry};
use crate::histogram::{HistogramKey, KeyOrder};
use crate::infer::string_views;
use std::cmp::Ordering;
use vstd::prelude::*;

verus! {

/// Byte order on strings, as `Ord` orders `String`s: `a` comes before `b` or is `b`.
pub open spec fn string_le() -> spec_fn(Seq<char>, Seq<char>) -> bool {
    |a: Seq<char>, b: Seq<char>| !String::key_lt(b, a)
}

/// `slice::sort_unstable` on strings: afterwards they are in increasing byte order,
/// the same strings as before. Strings that compare equal are the same text, so
/// the sorted order of their texts is the one that byte order gives.
#[verifier::external_body]
pub(crate) fn sort_strings(v: &mut Vec<String>)
    ensures
        string_views(final(v)@) == string_views(old(v)@).sort_by(string_le()),
{
    v.sort_unstable();
}

/// The order of tokens, as `Ord` orders them: unigrams before bigrams; unigrams by
/// their word, bigrams by their first word and then their second, in byte order.
pub open spec fn token_lt(a: BagOfWordsFeatureGroupToken, b: BagOfWordsFeatureGroupToken) -> bool {
    match (a, b) {
        (BagOfWordsFeatureGroupToken::Unigram(x), BagOfWordsFeatureGroupToken::Unigram(y)) => String::key_lt(x@, y@),
        (BagOfWordsFeatureGroupToken::Unigram(_), BagOfWordsFeatureGroupToken::Bigram(_, _)) => true,
        (BagOfWordsFeatureGroupToken::Bigram(_, _), BagOfWordsFeatureGroupToken::Unigram(_)) => false,
        (BagOfWordsFeatureGroupToken::Bigram(x1, x2), BagOfWordsFeatureGroupToken::Bigram(y1, y2)) => String::key_lt(
            x1@,
            y1@,
        ) || (x1@ == y1@ && String::key_lt(x2@, y2@)),
    }
}

/// The words of a token.
pub open spec fn token_words(t: BagOfWordsFeatureGroupToken) -> Seq<Seq<char>> {
    match t {
        BagOfWordsFeatureGroupToken::Unigram(x) => seq![x@],
        BagOfWordsFeatureGroupToken::Bigram(x, y) => seq![x@, y@],
    }
}

/// Compares two tokens in token order.
pub fn compare_tokens(a: &BagOfWordsFeatureGroupToken, b: &BagOfWordsFeatureGroupToken) -> (r: Ordering)
    ensures
        r == Ordering::Less <==> token_lt(*a, *b),
        r == Ordering::Greater <==> token_lt(*b, *a),
        r == Ordering::Equal <==> token_words(*a) == token_words(*b),
{
    match (a, b) {
        (BagOfWordsFeatureGroupToken::Unigram(x), BagOfWordsFeatureGroupToken::Unigram(y)) => {
            proof {
                String::lemma_key_lt_irreflexive(x@);
                String::lemma_key_lt_total(x@, y@);
                if String::key_lt(x@, y@) && String::key_lt(y@, x@) {
                    String::lemma_key_lt_transitive(x@, y@, x@);
                }
                if x@ != y@ {
                    assert(token_words(*a)[0] != token_words(*b)[0]);
                }
            }
            match x.compare_keys(y) {
                KeyOrder::Less => Ordering::Less,
                KeyOrder::Equal => Ordering::Equal,
                KeyOrder::Greater => Ordering::Greater,
            }
        },
        (BagOfWordsFeatureGroupToken::Unigram(_), BagOfWordsFeatureGroupToken::Bigram(_, _)) => {
            assert(token_words(*a).len() != token_words(*b).len());
            Ordering::Less
        },
        (BagOfWordsFeatureGroupToken::Bigram(_, _), BagOfWordsFeatureGroupToken::Unigram(_)) => {
            assert(token_words(*a).len() != token_words(*b).len());
            Ordering::Greater
        },
        (BagOfWordsFeatureGroupToken::Bigram(x1, x2), BagOfWordsFeatureGroupToken::Bigram(y1, y2)) => {
            proof {
                String::lemma_key_lt_irreflexive(x1@);
                String::lemma_key_lt_irreflexive(x2@);
                String::lemma_key_lt_total(x1@, y1@);
                String::lemma_key_lt_total(x2@, y2@);
                if String::key_lt(x1@, y1@) && String::key_lt(y1@, x1@) {
                    String::lemma_key_lt_transitive(x1@, y1@, x1@);
                }
                if String::key_lt(x2@, y2@) && String::key_lt(y2@, x2@) {
                    String::lemma_key_lt_transitive(x2@, y2@, x2@);
                }
                if x1@ != y1@ {
                    assert(token_words(*a)[0] != token_words(*b)[0]);
                }
                if x2@ != y2@ {
                    assert(token_words(*a)[1] != token_words(*b)[1]);
                }
            }
            match x1.compare_keys(y1) {
                KeyOrder::Less => Ordering::Less,
                KeyOrder::Greater => Ordering::Greater,
                KeyOrder::Equal => match x2.compare_keys(y2) {
                    KeyOrder::Less => Ordering::Less,
                    KeyOrder::Equal => Ordering::Equal,
                    KeyOrder::Greater => Ordering::Greater,
                },
            }
        },
    }
}

/// `slice::sort_by` on token entries, comparing their tokens with `compare_tokens`,
/// which orders tokens totally: afterwards the entries are in token order, and they
/// are the same entries as before.
#[verifier::external_body]
pub(crate) fn sort_token_entries<T>(v: &mut Vec<BagOfWordsFeatureGroupTokensEntry<T>>)
    ensures
        final(v)@.to_multiset() == old(v)@.to_multiset(),
        forall|i: int, j: int|
            0 <= i < j < final(v)@.len() ==> !token_lt(#[trigger] final(v)@[j].token, #[trigger] final(v)@[i].token),
{
    v.sort_by(|a, b| compare_tokens(&a.token, &b.token));
}

/// Compares two token counts so that the larger comes first.
pub fn compare_counts_descending<K>(a: &(K, usize), b: &(K, usize)) -> (r: Ordering)
    ensures
        r == Ordering::Less <==> a.1 > b.1,
        r == Ordering::Greater <==> a.1 < b.1,
        r == Ordering::Equal <==> a.1 == b.1,
{
    if a.1 > b.1 {
        Ordering::Less
    } else if a.1 < b.1 {
        Ordering::Greater
    } else {
        Ordering::Equal
    }
}

/// `slice::sort_by` on keys with their counts, comparing them with
/// `compare_counts_descending`, a total order on the counts: afterwards the counts
/// do not increase along the vector, and the entries are the same as before.
/// Which of two entries with equal counts comes first is left unsaid.
#[verifier::external_body]
pub(crate) fn sort_by_count_descending<K>(v: &mut Vec<(K, usize)>)
    ensures
        final(v)@.to_multiset() == old(v)@.to_multiset(),
        forall|i: int, j: int| 0 <= i < j < final(v)@.len() ==> #[trigger] final(v)@[j].1 <= #[trigger] final(v)@[i].1,
{
    v.sort_by(|a, b| compare_counts_descending(a, b));
}

} // verus!
