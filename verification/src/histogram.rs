//! Histograms: counts per distinct key, kept as a vector of entries sorted by key,
//! which is how an ordered map of counts is walked.

use vstd::prelude::*;

verus! {

/// The outcome of comparing two keys.
#[derive(Clone, Copy, Debug, PartialEq, Eq, Structural)]
pub enum KeyOrder {
    Less,
    Equal,
    Greater,
}

/// A key of a histogram: a strict total order on its view, decided by `compare_keys`.
pub trait HistogramKey: View + Sized {
    spec fn key_lt(a: Self::V, b: Self::V) -> bool;

    proof fn lemma_key_lt_transitive(a: Self::V, b: Self::V, c: Self::V)
        requires
            Self::key_lt(a, b),
            Self::key_lt(b, c),
        ensures
            Self::key_lt(a, c),
    ;

    proof fn lemma_key_lt_irreflexive(a: Self::V)
        ensures
            !Self::key_lt(a, a),
    ;

    proof fn lemma_key_lt_total(a: Self::V, b: Self::V)
        ensures
            Self::key_lt(a, b) || Self::key_lt(b, a) || a == b,
    ;

    fn compare_keys(&self, other: &Self) -> (r: KeyOrder)
        ensures
            r == KeyOrder::Less <==> Self::key_lt(self@, other@),
            r == KeyOrder::Equal <==> self@ == other@,
            r == KeyOrder::Greater <==> Self::key_lt(other@, self@),
    ;

    fn duplicate(&self) -> (r: Self)
        ensures
            r@ == self@,
    ;
}

/// Lexicographic order on byte strings.
pub open spec fn bytes_lt(x: Seq<u8>, y: Seq<u8>) -> bool
    decreases x.len(),
{
    if y.len() == 0 {
        false
    } else if x.len() == 0 {
        true
    } else if x[0] < y[0] {
        true
    } else if x[0] > y[0] {
        false
    } else {
        bytes_lt(x.drop_first(), y.drop_first())
    }
}

proof fn lemma_bytes_lt_transitive(x: Seq<u8>, y: Seq<u8>, z: Seq<u8>)
    requires
        bytes_lt(x, y),
        bytes_lt(y, z),
    ensures
        bytes_lt(x, z),
    decreases x.len(),
{
    if x.len() > 0 && y.len() > 0 && z.len() > 0 && x[0] == y[0] && y[0] == z[0] {
        lemma_bytes_lt_transitive(x.drop_first(), y.drop_first(), z.drop_first());
    }
}

proof fn lemma_bytes_lt_irreflexive(x: Seq<u8>)
    ensures
        !bytes_lt(x, x),
    decreases x.len(),
{
    if x.len() > 0 {
        lemma_bytes_lt_irreflexive(x.drop_first());
    }
}

proof fn lemma_bytes_lt_total(x: Seq<u8>, y: Seq<u8>)
    ensures
        bytes_lt(x, y) || bytes_lt(y, x) || x == y,
    decreases x.len(),
{
    if x.len() > 0 && y.len() > 0 && x[0] == y[0] {
        lemma_bytes_lt_total(x.drop_first(), y.drop_first());
        if x.drop_first() == y.drop_first() {
            assert(x =~= seq![x[0]] + x.drop_first());
            assert(y =~= seq![y[0]] + y.drop_first());
        }
    } else if x.len() == 0 && y.len() == 0 {
        assert(x =~= y);
    }
}

proof fn lemma_bytes_lt_skip(x: Seq<u8>, y: Seq<u8>, i: int)
    requires
        0 <= i <= x.len(),
        i <= y.len(),
        x.subrange(0, i) == y.subrange(0, i),
    ensures
        bytes_lt(x, y) == bytes_lt(x.subrange(i, x.len() as int), y.subrange(i, y.len() as int)),
    decreases i,
{
    if i > 0 {
        assert(x[0] == x.subrange(0, i)[0]);
        assert(y[0] == y.subrange(0, i)[0]);
        assert(x.drop_first().subrange(0, i - 1) =~= x.subrange(0, i).drop_first());
        assert(y.drop_first().subrange(0, i - 1) =~= y.subrange(0, i).drop_first());
        lemma_bytes_lt_skip(x.drop_first(), y.drop_first(), i - 1);
        assert(x.drop_first().subrange(i - 1, x.len() - 1) =~= x.subrange(i, x.len() as int));
        assert(y.drop_first().subrange(i - 1, y.len() - 1) =~= y.subrange(i, y.len() as int));
    } else {
        assert(x.subrange(0, x.len() as int) =~= x);
        assert(y.subrange(0, y.len() as int) =~= y);
    }
}

/// Compares two byte strings lexicographically.
pub fn compare_bytes(x: &[u8], y: &[u8]) -> (r: KeyOrder)
    ensures
        r == KeyOrder::Less <==> bytes_lt(x@, y@),
        r == KeyOrder::Equal <==> x@ == y@,
        r == KeyOrder::Greater <==> bytes_lt(y@, x@),
{
    proof {
        lemma_bytes_lt_irreflexive(x@);
        lemma_bytes_lt_total(x@, y@);
        if bytes_lt(x@, y@) && bytes_lt(y@, x@) {
            lemma_bytes_lt_transitive(x@, y@, x@);
        }
    }
    let mut i: usize = 0;
    while i < x.len() && i < y.len()
        invariant
            i <= x@.len(),
            i <= y@.len(),
            x@.subrange(0, i as int) == y@.subrange(0, i as int),
        decreases x@.len() - i,
    {
        if x[i] < y[i] {
            proof {
                lemma_bytes_lt_skip(x@, y@, i as int);
                lemma_bytes_lt_skip(y@, x@, i as int);
            }
            return KeyOrder::Less;
        } else if x[i] > y[i] {
            proof {
                lemma_bytes_lt_skip(x@, y@, i as int);
                lemma_bytes_lt_skip(y@, x@, i as int);
            }
            return KeyOrder::Greater;
        }
        assert(x@.subrange(0, i + 1) =~= x@.subrange(0, i as int).push(x@[i as int]));
        assert(y@.subrange(0, i + 1) =~= y@.subrange(0, i as int).push(y@[i as int]));
        i = i + 1;
    }
    proof {
        lemma_bytes_lt_skip(x@, y@, i as int);
        lemma_bytes_lt_skip(y@, x@, i as int);
    }
    if i < y.len() {
        KeyOrder::Less
    } else if i < x.len() {
        KeyOrder::Greater
    } else {
        assert(x@ =~= x@.subrange(0, i as int));
        assert(y@ =~= y@.subrange(0, i as int));
        KeyOrder::Equal
    }
}

/// Strings are ordered as their UTF-8 encodings are, byte by byte.
impl HistogramKey for String {
    open spec fn key_lt(a: Seq<char>, b: Seq<char>) -> bool {
        bytes_lt(vstd::utf8::encode_utf8(a), vstd::utf8::encode_utf8(b))
    }

    proof fn lemma_key_lt_transitive(a: Seq<char>, b: Seq<char>, c: Seq<char>) {
        lemma_bytes_lt_transitive(
            vstd::utf8::encode_utf8(a),
            vstd::utf8::encode_utf8(b),
            vstd::utf8::encode_utf8(c),
        );
    }

    proof fn lemma_key_lt_irreflexive(a: Seq<char>) {
        lemma_bytes_lt_irreflexive(vstd::utf8::encode_utf8(a));
    }

    proof fn lemma_key_lt_total(a: Seq<char>, b: Seq<char>) {
        lemma_bytes_lt_total(vstd::utf8::encode_utf8(a), vstd::utf8::encode_utf8(b));
        vstd::utf8::encode_utf8_decode_utf8(a);
        vstd::utf8::encode_utf8_decode_utf8(b);
    }

    fn compare_keys(&self, other: &Self) -> (r: KeyOrder) {
        let x = self.as_str().as_bytes();
        let y = other.as_str().as_bytes();
        let r = compare_bytes(x, y);
        proof {
            vstd::utf8::encode_utf8_decode_utf8(self@);
            vstd::utf8::encode_utf8_decode_utf8(other@);
        }
        r
    }

    fn duplicate(&self) -> (r: Self) {
        self.clone()
    }
}

/// Integer keys are ordered as integers.
impl HistogramKey for u32 {
    open spec fn key_lt(a: u32, b: u32) -> bool {
        a < b
    }

    proof fn lemma_key_lt_transitive(a: u32, b: u32, c: u32) {
    }

    proof fn lemma_key_lt_irreflexive(a: u32) {
    }

    proof fn lemma_key_lt_total(a: u32, b: u32) {
    }

    fn compare_keys(&self, other: &Self) -> (r: KeyOrder) {
        if *self < *other {
            KeyOrder::Less
        } else if *self == *other {
            KeyOrder::Equal
        } else {
            KeyOrder::Greater
        }
    }

    fn duplicate(&self) -> (r: Self) {
        *self
    }
}

/// Whether the entries are sorted by key, with no key twice.
pub open spec fn entries_sorted<K: HistogramKey>(s: Seq<(K, usize)>) -> bool {
    forall|i: int, j: int| 0 <= i < j < s.len() ==> K::key_lt(#[trigger] s[i].0@, #[trigger] s[j].0@)
}

/// Whether some entry has the key `k`.
pub open spec fn entries_have<K: HistogramKey>(s: Seq<(K, usize)>, k: K::V) -> bool {
    exists|p: int| 0 <= p < s.len() && #[trigger] s[p].0@ == k
}

/// The count of the key `k`: that of the last entry with that key, 0 when there is none.
pub open spec fn entries_count<K: HistogramKey>(s: Seq<(K, usize)>, k: K::V) -> nat
    decreases s.len(),
{
    if s.len() == 0 {
        0
    } else if s.last().0@ == k {
        s.last().1 as nat
    } else {
        entries_count(s.drop_last(), k)
    }
}

/// The sum of all the counts.
pub open spec fn entries_total<K: HistogramKey>(s: Seq<(K, usize)>) -> nat
    decreases s.len(),
{
    if s.len() == 0 {
        0
    } else {
        entries_total(s.drop_last()) + s.last().1 as nat
    }
}

proof fn lemma_count_absent<K: HistogramKey>(s: Seq<(K, usize)>, k: K::V)
    requires
        !entries_have(s, k),
    ensures
        entries_count(s, k) == 0,
    decreases s.len(),
{
    if s.len() > 0 {
        assert(s.last() == s[s.len() - 1]);
        assert forall|p: int| 0 <= p < s.drop_last().len() implies #[trigger] s.drop_last()[p].0@ != k by {
            assert(s.drop_last()[p] == s[p]);
        }
        lemma_count_absent(s.drop_last(), k);
    }
}

proof fn lemma_count_bounded<K: HistogramKey>(s: Seq<(K, usize)>, k: K::V)
    ensures
        entries_count(s, k) <= usize::MAX,
    decreases s.len(),
{
    if s.len() > 0 {
        lemma_count_bounded(s.drop_last(), k);
    }
}

proof fn lemma_count_at<K: HistogramKey>(s: Seq<(K, usize)>, i: int)
    requires
        entries_sorted(s),
        0 <= i < s.len(),
    ensures
        entries_count(s, s[i].0@) == s[i].1,
    decreases s.len(),
{
    if i < s.len() - 1 {
        assert(K::key_lt(s[i].0@, s[s.len() - 1].0@));
        K::lemma_key_lt_irreflexive(s[i].0@);
        assert(s.drop_last()[i] == s[i]);
        lemma_count_at(s.drop_last(), i);
    }
}

proof fn lemma_take_push<K: HistogramKey>(s: Seq<(K, usize)>, i: int)
    requires
        0 <= i < s.len(),
    ensures
        s.take(i + 1).drop_last() == s.take(i),
        s.take(i + 1).last() == s[i],
        s.take(i + 1).len() == i + 1,
        s.take(i).len() == i,
{
    assert(s.take(i + 1).drop_last() =~= s.take(i));
}

/// Counts per distinct key, sorted by key.
#[derive(Clone, Debug)]
pub struct Histogram<K> {
    entries: Vec<(K, usize)>,
}

impl<K: HistogramKey> Histogram<K> {
    /// The entries, sorted by key.
    pub closed spec fn spec_entries(&self) -> Seq<(K, usize)> {
        self.entries@
    }

    /// Whether the entries are sorted by key with no key twice.
    pub open spec fn wf(&self) -> bool {
        entries_sorted(self.spec_entries())
    }

    /// The count of the key `k` (0 when absent).
    pub open spec fn count(&self, k: K::V) -> nat {
        entries_count(self.spec_entries(), k)
    }

    /// Whether the key `k` has an entry.
    pub open spec fn contains(&self, k: K::V) -> bool {
        entries_have(self.spec_entries(), k)
    }

    /// The sum of all the counts.
    pub open spec fn total(&self) -> nat {
        entries_total(self.spec_entries())
    }

    /// An empty histogram.
    pub fn new() -> (r: Self)
        ensures
            r.wf(),
            r.spec_entries().len() == 0,
            forall|k: K::V| !r.contains(k) && r.count(k) == 0,
    {
        Histogram { entries: Vec::new() }
    }

    /// The number of distinct keys.
    pub fn len(&self) -> (r: usize)
        ensures
            r == self.spec_entries().len(),
    {
        self.entries.len()
    }

    /// The entries, sorted by key.
    pub fn entries(&self) -> (r: &Vec<(K, usize)>)
        ensures
            r@ == self.spec_entries(),
    {
        &self.entries
    }

    /// The keys of the entries, in order.
    pub open spec fn key_views(&self) -> Seq<K::V> {
        self.spec_entries().map_values(|e: (K, usize)| e.0@)
    }

    /// Whether the key has an entry.
    pub fn contains_key(&self, key: &K) -> (r: bool)
        ensures
            r == self.contains(key@),
            !r ==> self.count(key@) == 0,
    {
        let mut i: usize = 0;
        while i < self.entries.len()
            invariant
                i <= self.entries@.len(),
                forall|p: int| 0 <= p < i ==> #[trigger] self.entries@[p].0@ != key@,
            decreases self.entries@.len() - i,
        {
            if self.entries[i].0.compare_keys(key) == KeyOrder::Equal {
                assert(self.entries@[i as int].0@ == key@);
                return true;
            }
            i = i + 1;
        }
        proof {
            lemma_count_absent(self.entries@, key@);
        }
        false
    }

    /// Copies of the keys of the entries, in order.
    pub fn keys(&self) -> (r: Vec<K>)
        ensures
            r@.len() == self.spec_entries().len(),
            forall|i: int| #![trigger r@[i]] 0 <= i < r@.len() ==> r@[i]@ == self.key_views()[i],
    {
        let mut r: Vec<K> = Vec::new();
        let mut i: usize = 0;
        while i < self.entries.len()
            invariant
                i <= self.entries@.len(),
                r@.len() == i,
                forall|p: int| 0 <= p < i ==> #[trigger] r@[p]@ == self.entries@[p].0@,
            decreases self.entries@.len() - i,
        {
            r.push(self.entries[i].0.duplicate());
            i = i + 1;
        }
        r
    }

    /// The count of a key, 0 when it has no entry.
    pub fn get(&self, key: &K) -> (r: usize)
        requires
            self.wf(),
        ensures
            r == self.count(key@),
    {
        let mut lo: usize = 0;
        let mut hi: usize = self.entries.len();
        while lo < hi
            invariant
                lo <= hi <= self.entries@.len(),
                entries_sorted(self.entries@),
                forall|p: int| 0 <= p < lo ==> K::key_lt(#[trigger] self.entries@[p].0@, key@),
                forall|p: int| hi <= p < self.entries@.len() ==> K::key_lt(key@, #[trigger] self.entries@[p].0@),
            decreases hi - lo,
        {
            let mid = lo + (hi - lo) / 2;
            match self.entries[mid].0.compare_keys(key) {
                KeyOrder::Equal => {
                    proof {
                        assert(self.entries@[mid as int].0@ == key@);
                        lemma_count_at(self.entries@, mid as int);
                    }
                    return self.entries[mid].1;
                },
                KeyOrder::Less => {
                    proof {
                        assert forall|p: int| 0 <= p < mid + 1 implies K::key_lt(#[trigger] self.entries@[p].0@, key@) by {
                            if p < mid {
                                K::lemma_key_lt_transitive(self.entries@[p].0@, self.entries@[mid as int].0@, key@);
                            }
                        }
                    }
                    lo = mid + 1;
                },
                KeyOrder::Greater => {
                    proof {
                        assert forall|p: int| mid <= p < self.entries@.len() implies K::key_lt(key@, #[trigger] self.entries@[p].0@) by {
                            if p > mid {
                                K::lemma_key_lt_transitive(key@, self.entries@[mid as int].0@, self.entries@[p].0@);
                            }
                        }
                    }
                    hi = mid;
                },
            }
        }
        proof {
            assert forall|p: int| 0 <= p < self.entries@.len() implies #[trigger] self.entries@[p].0@ != key@ by {
                K::lemma_key_lt_irreflexive(key@);
            }
            lemma_count_absent(self.entries@, key@);
        }
        0
    }

    /// Adds `amount` to the count of `key`, creating its entry, in its place in
    /// the order, when it has none.
    pub fn add(&mut self, key: K, amount: usize)
        requires
            old(self).wf(),
            old(self).count(key@) + amount <= usize::MAX,
        ensures
            final(self).wf(),
            final(self).count(key@) == old(self).count(key@) + amount,
            forall|k: K::V| k != key@ ==> #[trigger] final(self).count(k) == old(self).count(k),
            forall|k: K::V| #[trigger] final(self).contains(k) <==> (old(self).contains(k) || k == key@),
            final(self).spec_entries().len() == old(self).spec_entries().len() + if old(self).contains(key@) {
                0int
            } else {
                1int
            },
    {
        let ghost old_entries = self.entries@;
        let mut p: usize = 0;
        let n = self.entries.len();
        let mut found = false;
        while p < n
            invariant_except_break
                !found,
            invariant
                n == self.entries@.len(),
                self.entries@ == old_entries,
                p <= n,
                entries_sorted(old_entries),
                forall|q: int| 0 <= q < p ==> K::key_lt(#[trigger] old_entries[q].0@, key@),
            ensures
                p <= n,
                forall|q: int| 0 <= q < p ==> K::key_lt(#[trigger] old_entries[q].0@, key@),
                found ==> p < n && old_entries[p as int].0@ == key@,
                !found ==> (p == n || K::key_lt(key@, old_entries[p as int].0@)),
            decreases n - p,
        {
            let order = self.entries[p].0.compare_keys(&key);
            if order == KeyOrder::Equal {
                found = true;
                break;
            } else if order == KeyOrder::Greater {
                break;
            }
            p = p + 1;
        }
        proof {
            lemma_count_bounded(old_entries, key@);
        }
        if p < n && found {
            proof {
                lemma_count_at(old_entries, p as int);
            }
            let c = self.entries[p].1;
            self.entries.set(p, (key, c + amount));
            proof {
                let e = self.entries@;
                assert(e =~= old_entries.update(p as int, e[p as int]));
                assert forall|a: int, b: int| 0 <= a < b < e.len() implies K::key_lt(#[trigger] e[a].0@, #[trigger] e[b].0@) by {
                    assert(e[a].0@ == old_entries[a].0@);
                    assert(e[b].0@ == old_entries[b].0@);
                }
                lemma_count_at(e, p as int);
                assert forall|k: K::V| k != key@ implies #[trigger] entries_count(e, k) == entries_count(old_entries, k) by {
                    if entries_have(old_entries, k) {
                        let q = choose|q: int| 0 <= q < old_entries.len() && #[trigger] old_entries[q].0@ == k;
                        lemma_count_at(old_entries, q);
                        assert(e[q] == old_entries[q]);
                        lemma_count_at(e, q);
                    } else {
                        lemma_count_absent(old_entries, k);
                        assert forall|q: int| 0 <= q < e.len() implies #[trigger] e[q].0@ != k by {
                            assert(e[q].0@ == old_entries[q].0@);
                        }
                        lemma_count_absent(e, k);
                    }
                }
                assert forall|k: K::V| #[trigger] entries_have(e, k) <==> (entries_have(old_entries, k) || k == key@) by {
                    if entries_have(e, k) {
                        let q = choose|q: int| 0 <= q < e.len() && #[trigger] e[q].0@ == k;
                        assert(old_entries[q].0@ == k);
                    }
                    if entries_have(old_entries, k) {
                        let q = choose|q: int| 0 <= q < old_entries.len() && #[trigger] old_entries[q].0@ == k;
                        assert(e[q].0@ == k);
                    }
                    if k == key@ {
                        assert(e[p as int].0@ == k);
                    }
                }
                assert(entries_have(old_entries, key@));
            }
        } else {
            proof {
                if p < n {
                    K::lemma_key_lt_total(old_entries[p as int].0@, key@);
                }
                // every entry from p on has a key above the new one
                assert forall|q: int| p <= q < n implies K::key_lt(key@, #[trigger] old_entries[q].0@) by {
                    if q > p {
                        assert(K::key_lt(old_entries[p as int].0@, old_entries[q].0@));
                        K::lemma_key_lt_transitive(key@, old_entries[p as int].0@, old_entries[q].0@);
                    }
                }
                assert forall|q: int| 0 <= q < n implies #[trigger] old_entries[q].0@ != key@ by {
                    if q < p {
                        K::lemma_key_lt_irreflexive(key@);
                    } else {
                        K::lemma_key_lt_irreflexive(key@);
                    }
                }
                lemma_count_absent(old_entries, key@);
            }
            self.entries.insert(p, (key, amount));
            proof {
                let e = self.entries@;
                assert(e =~= old_entries.insert(p as int, e[p as int]));
                assert forall|q: int| 0 <= q < e.len() && q != p implies #[trigger] e[q] == (if q < p {
                    old_entries[q]
                } else {
                    old_entries[q - 1]
                }) by {
                }
                assert forall|a: int, b: int| 0 <= a < b < e.len() implies K::key_lt(#[trigger] e[a].0@, #[trigger] e[b].0@) by {
                    if a < p && b < p {
                    } else if a < p && b == p {
                    } else if a < p {
                        K::lemma_key_lt_transitive(e[a].0@, key@, e[b].0@);
                    } else if a == p {
                    } else {
                        assert(e[a] == old_entries[a - 1] && e[b] == old_entries[b - 1]);
                    }
                }
                lemma_count_at(e, p as int);
                assert forall|k: K::V| k != key@ implies #[trigger] entries_count(e, k) == entries_count(old_entries, k) by {
                    if entries_have(old_entries, k) {
                        let q = choose|q: int| 0 <= q < old_entries.len() && #[trigger] old_entries[q].0@ == k;
                        lemma_count_at(old_entries, q);
                        if q < p {
                            assert(e[q] == old_entries[q]);
                            lemma_count_at(e, q);
                        } else {
                            assert(e[q + 1] == old_entries[q]);
                            lemma_count_at(e, q + 1);
                        }
                    } else {
                        lemma_count_absent(old_entries, k);
                        assert forall|q: int| 0 <= q < e.len() implies #[trigger] e[q].0@ != k by {
                            if q < p {
                                assert(e[q] == old_entries[q]);
                            } else if q > p {
                                assert(e[q] == old_entries[q - 1]);
                            }
                        }
                        lemma_count_absent(e, k);
                    }
                }
                assert forall|k: K::V| #[trigger] entries_have(e, k) <==> (entries_have(old_entries, k) || k == key@) by {
                    if entries_have(e, k) {
                        let q = choose|q: int| 0 <= q < e.len() && #[trigger] e[q].0@ == k;
                        if q < p {
                            assert(old_entries[q].0@ == k);
                        } else if q > p {
                            assert(old_entries[q - 1].0@ == k);
                        }
                    }
                    if entries_have(old_entries, k) {
                        let q = choose|q: int| 0 <= q < old_entries.len() && #[trigger] old_entries[q].0@ == k;
                        if q < p {
                            assert(e[q].0@ == k);
                        } else {
                            assert(e[q + 1].0@ == k);
                        }
                    }
                    if k == key@ {
                        assert(e[p as int].0@ == k);
                    }
                }
                assert(!entries_have(old_entries, key@));
            }
        }
    }

    /// The histogram whose counts are the sums of the counts of the two histograms.
    pub fn merge(&self, other: &Self) -> (r: Self)
        requires
            self.wf(),
            other.wf(),
            forall|k: K::V| #[trigger] self.count(k) + #[trigger] other.count(k) <= usize::MAX,
        ensures
            r.wf(),
            forall|k: K::V| #[trigger] r.count(k) == self.count(k) + other.count(k),
            forall|k: K::V| #[trigger] r.contains(k) <==> (self.contains(k) || other.contains(k)),
    {
        let a = &self.entries;
        let b = &other.entries;
        let mut out: Vec<(K, usize)> = Vec::new();
        assert forall|k: K::V| #[trigger] entries_count(a@, k) + #[trigger] entries_count(b@, k) <= usize::MAX by {
            assert(self.count(k) + other.count(k) <= usize::MAX);
        }
        let mut i: usize = 0;
        let mut j: usize = 0;
        while i < a.len() || j < b.len()
            invariant
                i <= a@.len(),
                j <= b@.len(),
                entries_sorted(a@),
                entries_sorted(b@),
                entries_sorted(out@),
                forall|k: K::V| #[trigger] entries_count(a@, k) + #[trigger] entries_count(b@, k) <= usize::MAX,
                forall|k: K::V|
                    #[trigger] entries_count(out@, k) == entries_count(a@.take(i as int), k)
                        + entries_count(b@.take(j as int), k),
                forall|k: K::V|
                    #[trigger] entries_have(out@, k) <==> (entries_have(a@.take(i as int), k)
                        || entries_have(b@.take(j as int), k)),
                i < a@.len() ==> forall|p: int|
                    0 <= p < out@.len() ==> K::key_lt(#[trigger] out@[p].0@, a@[i as int].0@),
                j < b@.len() ==> forall|p: int|
                    0 <= p < out@.len() ==> K::key_lt(#[trigger] out@[p].0@, b@[j as int].0@),
            decreases a@.len() - i + b@.len() - j,
        {
            let ghost old_out = out@;
            let ghost ai = a@.take(i as int);
            let ghost bj = b@.take(j as int);
            let order = if i >= a.len() {
                KeyOrder::Greater
            } else if j >= b.len() {
                KeyOrder::Less
            } else {
                a[i].0.compare_keys(&b[j].0)
            };
            if order == KeyOrder::Less {
                let key = a[i].0.duplicate();
                let ghost x = a@[i as int];
                out.push((key, a[i].1));
                proof {
                    lemma_take_push(a@, i as int);
                    assert(out@.drop_last() =~= old_out);
                    // the new key is absent from what the other side has given so far
                    if entries_have(bj, x.0@) {
                        assert(entries_have(old_out, x.0@));
                        let p = choose|p: int| 0 <= p < old_out.len() && #[trigger] old_out[p].0@ == x.0@;
                        K::lemma_key_lt_irreflexive(x.0@);
                        assert(false);
                    }
                    lemma_count_absent(bj, x.0@);
                    assert forall|k: K::V| #[trigger] entries_count(out@, k) == entries_count(a@.take(i + 1), k)
                        + entries_count(bj, k) by {
                        assert(out@.last().0@ == x.0@);
                        assert(out@.last().1 == x.1);
                        assert(a@.take(i + 1).last() == x);
                        if k == x.0@ {
                            assert(entries_count(out@, k) == x.1);
                            assert(entries_count(a@.take(i + 1), k) == x.1);
                            assert(entries_count(bj, k) == 0);
                        } else {
                            assert(entries_count(out@, k) == entries_count(old_out, k));
                            assert(entries_count(a@.take(i + 1), k) == entries_count(ai, k));
                            assert(entries_count(old_out, k) == entries_count(ai, k) + entries_count(bj, k));
                        }
                    }
                    assert forall|k: K::V| #[trigger] entries_have(out@, k) <==> (entries_have(
                        a@.take(i + 1),
                        k,
                    ) || entries_have(bj, k)) by {
                        if entries_have(bj, k) {
                            assert(entries_have(old_out, k));
                            let q = choose|q: int| 0 <= q < old_out.len() && #[trigger] old_out[q].0@ == k;
                            assert(out@[q] == old_out[q]);
                        }
                        if entries_have(a@.take(i + 1), k) {
                            let p = choose|p: int| 0 <= p < i + 1 && #[trigger] a@.take(i + 1)[p].0@ == k;
                            if p == i {
                                assert(out@[old_out.len() as int].0@ == k);
                            } else {
                                assert(ai[p] == a@.take(i + 1)[p]);
                                assert(entries_have(ai, k));
                                assert(entries_have(old_out, k));
                                let q = choose|q: int| 0 <= q < old_out.len() && #[trigger] old_out[q].0@ == k;
                                assert(out@[q] == old_out[q]);
                            }
                        }
                        if entries_have(out@, k) {
                            let q = choose|q: int| 0 <= q < out@.len() && #[trigger] out@[q].0@ == k;
                            if q == old_out.len() {
                                assert(a@.take(i + 1)[i as int].0@ == k);
                            } else {
                                assert(old_out[q] == out@[q]);
                                assert(entries_have(old_out, k));
                                if entries_have(ai, k) {
                                    let p = choose|p: int| 0 <= p < i && #[trigger] ai[p].0@ == k;
                                    assert(a@.take(i + 1)[p] == ai[p]);
                                }
                            }
                        }
                    }
                    assert forall|p: int, q: int| 0 <= p < q < out@.len() implies K::key_lt(
                        #[trigger] out@[p].0@,
                        #[trigger] out@[q].0@,
                    ) by {
                        if q < old_out.len() {
                            assert(out@[p] == old_out[p] && out@[q] == old_out[q]);
                        } else {
                            assert(out@[p] == old_out[p]);
                        }
                    }
                    if i + 1 < a@.len() {
                        assert forall|p: int| 0 <= p < out@.len() implies K::key_lt(
                            #[trigger] out@[p].0@,
                            a@[i + 1].0@,
                        ) by {
                            assert(K::key_lt(a@[i as int].0@, a@[i + 1].0@));
                            if p < old_out.len() {
                                assert(out@[p] == old_out[p]);
                                K::lemma_key_lt_transitive(out@[p].0@, a@[i as int].0@, a@[i + 1].0@);
                            }
                        }
                    }
                    if j < b@.len() {
                        assert forall|p: int| 0 <= p < out@.len() implies K::key_lt(
                            #[trigger] out@[p].0@,
                            b@[j as int].0@,
                        ) by {
                            if p < old_out.len() {
                                assert(out@[p] == old_out[p]);
                            }
                        }
                    }
                }
                i = i + 1;
            } else if order == KeyOrder::Greater {
                let key = b[j].0.duplicate();
                let ghost x = b@[j as int];
                out.push((key, b[j].1));
                proof {
                    lemma_take_push(b@, j as int);
                    assert(out@.drop_last() =~= old_out);
                    if entries_have(ai, x.0@) {
                        assert(entries_have(old_out, x.0@));
                        let p = choose|p: int| 0 <= p < old_out.len() && #[trigger] old_out[p].0@ == x.0@;
                        K::lemma_key_lt_irreflexive(x.0@);
                        assert(false);
                    }
                    lemma_count_absent(ai, x.0@);
                    assert forall|k: K::V| #[trigger] entries_count(out@, k) == entries_count(ai, k)
                        + entries_count(b@.take(j + 1), k) by {
                        assert(out@.last().0@ == x.0@);
                        assert(out@.last().1 == x.1);
                        assert(b@.take(j + 1).last() == x);
                        if k == x.0@ {
                            assert(entries_count(out@, k) == x.1);
                            assert(entries_count(b@.take(j + 1), k) == x.1);
                            assert(entries_count(ai, k) == 0);
                        } else {
                            assert(entries_count(out@, k) == entries_count(old_out, k));
                            assert(entries_count(b@.take(j + 1), k) == entries_count(bj, k));
                            assert(entries_count(old_out, k) == entries_count(ai, k) + entries_count(bj, k));
                        }
                    }
                    assert forall|k: K::V| #[trigger] entries_have(out@, k) <==> (entries_have(ai, k)
                        || entries_have(b@.take(j + 1), k)) by {
                        if entries_have(ai, k) {
                            assert(entries_have(old_out, k));
                            let q = choose|q: int| 0 <= q < old_out.len() && #[trigger] old_out[q].0@ == k;
                            assert(out@[q] == old_out[q]);
                        }
                        if entries_have(b@.take(j + 1), k) {
                            let p = choose|p: int| 0 <= p < j + 1 && #[trigger] b@.take(j + 1)[p].0@ == k;
                            if p == j {
                                assert(out@[old_out.len() as int].0@ == k);
                            } else {
                                assert(bj[p] == b@.take(j + 1)[p]);
                                assert(entries_have(bj, k));
                                assert(entries_have(old_out, k));
                                let q = choose|q: int| 0 <= q < old_out.len() && #[trigger] old_out[q].0@ == k;
                                assert(out@[q] == old_out[q]);
                            }
                        }
                        if entries_have(out@, k) {
                            let q = choose|q: int| 0 <= q < out@.len() && #[trigger] out@[q].0@ == k;
                            if q == old_out.len() {
                                assert(b@.take(j + 1)[j as int].0@ == k);
                            } else {
                                assert(old_out[q] == out@[q]);
                                assert(entries_have(old_out, k));
                                if entries_have(bj, k) {
                                    let p = choose|p: int| 0 <= p < j && #[trigger] bj[p].0@ == k;
                                    assert(b@.take(j + 1)[p] == bj[p]);
                                }
                            }
                        }
                    }
                    assert forall|p: int, q: int| 0 <= p < q < out@.len() implies K::key_lt(
                        #[trigger] out@[p].0@,
                        #[trigger] out@[q].0@,
                    ) by {
                        if q < old_out.len() {
                            assert(out@[p] == old_out[p] && out@[q] == old_out[q]);
                        } else {
                            assert(out@[p] == old_out[p]);
                        }
                    }
                    if j + 1 < b@.len() {
                        assert forall|p: int| 0 <= p < out@.len() implies K::key_lt(
                            #[trigger] out@[p].0@,
                            b@[j + 1].0@,
                        ) by {
                            assert(K::key_lt(b@[j as int].0@, b@[j + 1].0@));
                            if p < old_out.len() {
                                assert(out@[p] == old_out[p]);
                                K::lemma_key_lt_transitive(out@[p].0@, b@[j as int].0@, b@[j + 1].0@);
                            }
                        }
                    }
                    if i < a@.len() {
                        assert forall|p: int| 0 <= p < out@.len() implies K::key_lt(
                            #[trigger] out@[p].0@,
                            a@[i as int].0@,
                        ) by {
                            if p < old_out.len() {
                                assert(out@[p] == old_out[p]);
                            }
                        }
                    }
                }
                j = j + 1;
            } else {
                let key = a[i].0.duplicate();
                let ghost x = a@[i as int];
                let ghost y = b@[j as int];
                proof {
                    lemma_count_at(a@, i as int);
                    lemma_count_at(b@, j as int);
                    assert(entries_count(a@, x.0@) + entries_count(b@, x.0@) <= usize::MAX);
                }
                let sum = a[i].1 + b[j].1;
                out.push((key, sum));
                proof {
                    lemma_take_push(a@, i as int);
                    lemma_take_push(b@, j as int);
                    assert(out@.drop_last() =~= old_out);
                    assert forall|k: K::V| #[trigger] entries_count(out@, k) == entries_count(a@.take(i + 1), k)
                        + entries_count(b@.take(j + 1), k) by {
                        assert(out@.last().0@ == x.0@);
                        assert(out@.last().1 == x.1 + y.1);
                        assert(a@.take(i + 1).last() == x);
                        assert(b@.take(j + 1).last() == y);
                        assert(y.0@ == x.0@);
                        if k == x.0@ {
                            assert(entries_count(out@, k) == x.1 + y.1);
                            assert(entries_count(a@.take(i + 1), k) == x.1);
                            assert(entries_count(b@.take(j + 1), k) == y.1);
                        } else {
                            assert(entries_count(out@, k) == entries_count(old_out, k));
                            assert(entries_count(a@.take(i + 1), k) == entries_count(ai, k));
                            assert(entries_count(b@.take(j + 1), k) == entries_count(bj, k));
                            assert(entries_count(old_out, k) == entries_count(ai, k) + entries_count(bj, k));
                        }
                    }
                    assert forall|k: K::V| #[trigger] entries_have(out@, k) <==> (entries_have(
                        a@.take(i + 1),
                        k,
                    ) || entries_have(b@.take(j + 1), k)) by {
                        if entries_have(a@.take(i + 1), k) {
                            let p = choose|p: int| 0 <= p < i + 1 && #[trigger] a@.take(i + 1)[p].0@ == k;
                            if p == i {
                                assert(out@[old_out.len() as int].0@ == k);
                            } else {
                                assert(ai[p] == a@.take(i + 1)[p]);
                                assert(entries_have(ai, k));
                                assert(entries_have(old_out, k));
                                let q = choose|q: int| 0 <= q < old_out.len() && #[trigger] old_out[q].0@ == k;
                                assert(out@[q] == old_out[q]);
                            }
                        }
                        if entries_have(b@.take(j + 1), k) {
                            let p = choose|p: int| 0 <= p < j + 1 && #[trigger] b@.take(j + 1)[p].0@ == k;
                            if p == j {
                                assert(out@[old_out.len() as int].0@ == k);
                            } else {
                                assert(bj[p] == b@.take(j + 1)[p]);
                                assert(entries_have(bj, k));
                                assert(entries_have(old_out, k));
                                let q = choose|q: int| 0 <= q < old_out.len() && #[trigger] old_out[q].0@ == k;
                                assert(out@[q] == old_out[q]);
                            }
                        }
                        if entries_have(out@, k) {
                            let q = choose|q: int| 0 <= q < out@.len() && #[trigger] out@[q].0@ == k;
                            if q == old_out.len() {
                                assert(a@.take(i + 1)[i as int].0@ == k);
                            } else {
                                assert(old_out[q] == out@[q]);
                                assert(entries_have(old_out, k));
                                if entries_have(ai, k) {
                                    let p = choose|p: int| 0 <= p < i && #[trigger] ai[p].0@ == k;
                                    assert(a@.take(i + 1)[p] == ai[p]);
                                } else {
                                    let p = choose|p: int| 0 <= p < j && #[trigger] bj[p].0@ == k;
                                    assert(b@.take(j + 1)[p] == bj[p]);
                                }
                            }
                        }
                    }
                    assert forall|p: int, q: int| 0 <= p < q < out@.len() implies K::key_lt(
                        #[trigger] out@[p].0@,
                        #[trigger] out@[q].0@,
                    ) by {
                        if q < old_out.len() {
                            assert(out@[p] == old_out[p] && out@[q] == old_out[q]);
                        } else {
                            assert(out@[p] == old_out[p]);
                        }
                    }
                    if i + 1 < a@.len() {
                        assert forall|p: int| 0 <= p < out@.len() implies K::key_lt(
                            #[trigger] out@[p].0@,
                            a@[i + 1].0@,
                        ) by {
                            assert(K::key_lt(a@[i as int].0@, a@[i + 1].0@));
                            if p < old_out.len() {
                                assert(out@[p] == old_out[p]);
                                K::lemma_key_lt_transitive(out@[p].0@, a@[i as int].0@, a@[i + 1].0@);
                            }
                        }
                    }
                    if j + 1 < b@.len() {
                        assert forall|p: int| 0 <= p < out@.len() implies K::key_lt(
                            #[trigger] out@[p].0@,
                            b@[j + 1].0@,
                        ) by {
                            assert(K::key_lt(b@[j as int].0@, b@[j + 1].0@));
                            if p < old_out.len() {
                                assert(out@[p] == old_out[p]);
                                K::lemma_key_lt_transitive(out@[p].0@, b@[j as int].0@, b@[j + 1].0@);
                            }
                        }
                    }
                }
                i = i + 1;
                j = j + 1;
            }
        }
        proof {
            assert(a@.take(a@.len() as int) =~= a@);
            assert(b@.take(b@.len() as int) =~= b@);
        }
        Histogram { entries: out }
    }
}

/// Whether the keys are in strictly increasing order.
pub open spec fn keys_sorted<K: HistogramKey>(q: Seq<K::V>) -> bool {
    forall|i: int, j: int| 0 <= i < j < q.len() ==> K::key_lt(#[trigger] q[i], #[trigger] q[j])
}

/// The keys after the first of a strictly increasing sequence are its keys other than the first.
proof fn lemma_sorted_drop_first<K: HistogramKey>(a: Seq<K::V>, k: K::V)
    requires
        keys_sorted::<K>(a),
        a.len() > 0,
    ensures
        a.drop_first().contains(k) <==> (a.contains(k) && k != a[0]),
{
    if a.drop_first().contains(k) {
        let p = choose|p: int| 0 <= p < a.drop_first().len() && a.drop_first()[p] == k;
        assert(a[p + 1] == k);
        assert(K::key_lt(a[0], a[p + 1]));
        K::lemma_key_lt_irreflexive(a[0]);
    }
    if a.contains(k) && k != a[0] {
        let p = choose|p: int| 0 <= p < a.len() && a[p] == k;
        assert(a.drop_first()[p - 1] == k);
    }
}

/// Two strictly increasing sequences of keys that hold the same keys are equal.
pub proof fn lemma_sorted_keys_unique<K: HistogramKey>(a: Seq<K::V>, b: Seq<K::V>)
    requires
        keys_sorted::<K>(a),
        keys_sorted::<K>(b),
        forall|k: K::V| a.contains(k) <==> b.contains(k),
    ensures
        a == b,
    decreases a.len(),
{
    if a.len() == 0 {
        if b.len() > 0 {
            assert(b.contains(b[0]));
        }
        assert(a =~= b);
    } else {
        assert(a.contains(a[0]));
        assert(b.contains(a[0]));
        assert(b.contains(b[0]));
        assert(a.contains(b[0]));
        let i = choose|i: int| 0 <= i < a.len() && a[i] == b[0];
        let j = choose|j: int| 0 <= j < b.len() && b[j] == a[0];
        if i > 0 {
            assert(K::key_lt(a[0], a[i]));
            if j > 0 {
                assert(K::key_lt(b[0], b[j]));
                K::lemma_key_lt_transitive(a[0], b[0], a[0]);
            }
            K::lemma_key_lt_irreflexive(a[0]);
        }
        assert(a[0] == b[0]);
        assert forall|k: K::V| a.drop_first().contains(k) <==> b.drop_first().contains(k) by {
            lemma_sorted_drop_first::<K>(a, k);
            lemma_sorted_drop_first::<K>(b, k);
        }
        assert(keys_sorted::<K>(a.drop_first())) by {
            assert forall|p: int, q: int| 0 <= p < q < a.drop_first().len() implies K::key_lt(
                #[trigger] a.drop_first()[p],
                #[trigger] a.drop_first()[q],
            ) by {
                assert(a.drop_first()[p] == a[p + 1] && a.drop_first()[q] == a[q + 1]);
            }
        }
        assert(keys_sorted::<K>(b.drop_first())) by {
            assert forall|p: int, q: int| 0 <= p < q < b.drop_first().len() implies K::key_lt(
                #[trigger] b.drop_first()[p],
                #[trigger] b.drop_first()[q],
            ) by {
                assert(b.drop_first()[p] == b[p + 1] && b.drop_first()[q] == b[q + 1]);
            }
        }
        lemma_sorted_keys_unique::<K>(a.drop_first(), b.drop_first());
        assert(a =~= seq![a[0]] + a.drop_first());
        assert(b =~= seq![b[0]] + b.drop_first());
    }
}

/// In a strictly increasing sequence of keys, a key is not among those before it,
/// and the keys up to it are those before it and itself.
pub(crate) proof fn lemma_not_before<K: HistogramKey>(q: Seq<K::V>, m: int)
    requires
        keys_sorted::<K>(q),
        0 <= m < q.len(),
    ensures
        !q.take(m).contains(q[m]),
        forall|k: K::V| #[trigger] q.take(m + 1).contains(k) <==> (q.take(m).contains(k) || k == q[m]),
{
    let before = q.take(m);
    let after = q.take(m + 1);
    if before.contains(q[m]) {
        let p = choose|p: int| 0 <= p < before.len() && before[p] == q[m];
        assert(q[p] == before[p]);
        assert(K::key_lt(q[p], q[m]));
        K::lemma_key_lt_irreflexive(q[m]);
    }
    assert forall|k: K::V| #[trigger] after.contains(k) <==> (before.contains(k) || k == q[m]) by {
        if after.contains(k) {
            let p = choose|p: int| 0 <= p < after.len() && after[p] == k;
            if p < m {
                assert(before[p] == k);
            }
        }
        if before.contains(k) {
            let p = choose|p: int| 0 <= p < before.len() && before[p] == k;
            assert(after[p] == k);
        }
        if k == q[m] {
            assert(after[m] == k);
        }
    }
}

impl<K: HistogramKey> Histogram<K> {
    /// In a well-formed histogram each entry holds the count of its key, and no two
    /// entries have the same key.
    pub proof fn lemma_entry_counts(&self)
        requires
            self.wf(),
        ensures
            forall|p: int|
                0 <= p < self.spec_entries().len() ==> #[trigger] self.count(self.spec_entries()[p].0@)
                    == self.spec_entries()[p].1,
            forall|p: int, q: int|
                0 <= p < q < self.spec_entries().len() ==> #[trigger] self.spec_entries()[p].0@
                    != #[trigger] self.spec_entries()[q].0@,
    {
        let e = self.spec_entries();
        assert forall|p: int| 0 <= p < e.len() implies #[trigger] self.count(e[p].0@) == e[p].1 by {
            lemma_count_at(e, p);
        }
        assert forall|p: int, q: int| 0 <= p < q < e.len() implies #[trigger] e[p].0@ != #[trigger] e[q].0@ by {
            K::lemma_key_lt_irreflexive(e[p].0@);
        }
    }

    /// The keys of a well-formed histogram are strictly increasing, and they are
    /// the keys it contains.
    pub proof fn lemma_key_views_sorted(&self)
        requires
            self.wf(),
        ensures
            keys_sorted::<K>(self.key_views()),
            self.key_views().len() == self.spec_entries().len(),
            forall|k: K::V| #[trigger] self.contains(k) <==> self.key_views().contains(k),
    {
        let e = self.spec_entries();
        let q = self.key_views();
        assert forall|i: int, j: int| 0 <= i < j < q.len() implies K::key_lt(#[trigger] q[i], #[trigger] q[j]) by {
            assert(q[i] == e[i].0@ && q[j] == e[j].0@);
        }
        assert forall|k: K::V| #[trigger] self.contains(k) <==> q.contains(k) by {
            if self.contains(k) {
                let p = choose|p: int| 0 <= p < e.len() && #[trigger] e[p].0@ == k;
                assert(q[p] == k);
            }
            if q.contains(k) {
                let p = choose|p: int| 0 <= p < q.len() && q[p] == k;
                assert(e[p].0@ == k);
            }
        }
    }
}

} // verus!
