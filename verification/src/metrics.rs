//! The common interface of the metrics that evaluate models, and the counting
//! behind the ROC curve of a binary classifier. Probabilities are given by order
//! keys: keys order as the probabilities do, and equal probabilities share a key.

use crate::histogram::Histogram;
use vstd::prelude::*;

verus! {

/// A metric: a value that takes in `Input`s one at a time with `update`, can be
/// merged with another value of the same metric, and gives an `Output` once every
/// input has been taken in. The metrics that models are evaluated with compute on
/// floating-point numbers and implement this trait outside this library.
pub trait Metric<'a>: Sized {
    type Input;
    type Output;

    /// Takes in one more input.
    fn update(&mut self, input: Self::Input);

    /// Merges in a value of the same metric, computed on other inputs.
    fn merge(&mut self, other: Self);

    /// The output for all the inputs taken in.
    fn finalize(self) -> Self::Output;
}

/// The examples whose probability is one threshold: how many are positive
/// (label 2) and how many negative (label 1).
#[derive(Debug, Clone, Copy, PartialEq, Eq, Structural)]
pub struct TpsFpsPoint {
    pub threshold: u32,
    pub true_positives: usize,
    pub false_positives: usize,
}

/// The number of the first `n` examples whose probability key is `k` and whose
/// label is `label`.
pub open spec fn label_count(keys: Seq<u32>, labels: Seq<usize>, n: nat, k: u32, label: usize) -> nat
    decreases n,
{
    if n == 0 {
        0
    } else {
        label_count(keys, labels, (n - 1) as nat, k, label) + if keys[n - 1] == k && labels[n - 1] == label {
            1nat
        } else {
            0nat
        }
    }
}

/// Whether one of the points has the threshold `k`.
pub open spec fn has_threshold(points: Seq<TpsFpsPoint>, k: u32) -> bool {
    exists|p: int| 0 <= p < points.len() && #[trigger] points[p].threshold == k
}

/// For each distinct probability of the examples, from the highest down, how
/// many examples with that probability are positive and how many negative. Only
/// as many examples as there are both probabilities and labels are counted; each
/// of their labels is 1 (negative) or 2 (positive).
pub fn compute_tps_fps_by_threshold(probabilities: &[u32], labels: &[usize]) -> (r: Vec<TpsFpsPoint>)
    requires
        forall|i: int|
            0 <= i < probabilities@.len() && i < labels@.len() ==> #[trigger] labels@[i] == 1 || labels@[i] == 2,
    ensures
        forall|p: int, q: int| 0 <= p < q < r@.len() ==> #[trigger] r@[q].threshold < #[trigger] r@[p].threshold,
        forall|p: int|
            #![trigger r@[p]]
            0 <= p < r@.len() ==> {
                let n = vstd::math::min(probabilities@.len() as int, labels@.len() as int) as nat;
                &&& r@[p].true_positives == label_count(probabilities@, labels@, n, r@[p].threshold, 2)
                &&& r@[p].false_positives == label_count(probabilities@, labels@, n, r@[p].threshold, 1)
                &&& r@[p].true_positives + r@[p].false_positives > 0
            },
        forall|i: int|
            0 <= i < probabilities@.len() && i < labels@.len() ==> #[trigger] has_threshold(r@, probabilities@[i]),
{
    let n: usize = if probabilities.len() < labels.len() {
        probabilities.len()
    } else {
        labels.len()
    };
    let mut positives: Histogram<u32> = Histogram::new();
    let mut negatives: Histogram<u32> = Histogram::new();
    let mut seen: Histogram<u32> = Histogram::new();
    let mut i: usize = 0;
    while i < n
        invariant
            i <= n,
            n <= probabilities@.len(),
            n <= labels@.len(),
            forall|j: int| 0 <= j < n ==> #[trigger] labels@[j] == 1 || labels@[j] == 2,
            positives.wf(),
            negatives.wf(),
            seen.wf(),
            forall|k: u32| #[trigger] positives.count(k) == label_count(probabilities@, labels@, i as nat, k, 2),
            forall|k: u32| #[trigger] negatives.count(k) == label_count(probabilities@, labels@, i as nat, k, 1),
            forall|k: u32| #[trigger] positives.count(k) <= i,
            forall|k: u32| #[trigger] negatives.count(k) <= i,
            forall|k: u32|
                #[trigger] seen.contains(k) <==> label_count(probabilities@, labels@, i as nat, k, 1) + label_count(
                    probabilities@,
                    labels@,
                    i as nat,
                    k,
                    2,
                ) > 0,
            forall|j: int| 0 <= j < i ==> #[trigger] seen.contains(probabilities@[j]),
            forall|k: u32| #[trigger] seen.count(k) <= i,
        decreases n - i,
    {
        let k = probabilities[i];
        if labels[i] == 2 {
            positives.add(k, 1);
        } else {
            negatives.add(k, 1);
        }
        seen.add(k, 1);
        i = i + 1;
    }
    let keys = seen.keys();
    proof {
        seen.lemma_key_views_sorted();
    }
    let mut r: Vec<TpsFpsPoint> = Vec::new();
    let mut m: usize = keys.len();
    while m > 0
        invariant
            m <= keys@.len(),
            keys@.len() == seen.key_views().len(),
            forall|p: int| #![trigger keys@[p]] 0 <= p < keys@.len() ==> keys@[p] == seen.key_views()[p],
            crate::histogram::keys_sorted::<u32>(seen.key_views()),
            forall|k: u32| #[trigger] seen.contains(k) <==> seen.key_views().contains(k),
            positives.wf(),
            negatives.wf(),
            r@.len() == keys@.len() - m,
            forall|p: int| 0 <= p < r@.len() ==> #[trigger] r@[p].threshold == keys@[keys@.len() - 1 - p],
            forall|p: int|
                0 <= p < r@.len() ==> #[trigger] r@[p].true_positives == positives.count(r@[p].threshold)
                    && r@[p].false_positives == negatives.count(r@[p].threshold),
        decreases m,
    {
        m = m - 1;
        let k = keys[m];
        let tp = positives.get(&k);
        let fp = negatives.get(&k);
        r.push(TpsFpsPoint { threshold: k, true_positives: tp, false_positives: fp });
    }
    proof {
        let q = seen.key_views();
        assert forall|p: int, s: int| 0 <= p < s < r@.len() implies #[trigger] r@[s].threshold < #[trigger] r@[p].threshold by {
            assert(r@[s].threshold == q[q.len() - 1 - s]);
            assert(r@[p].threshold == q[q.len() - 1 - p]);
        }
        assert forall|p: int| #![trigger r@[p]] 0 <= p < r@.len() implies r@[p].true_positives + r@[p].false_positives > 0 by {
            let k = r@[p].threshold;
            assert(q[q.len() - 1 - p] == k);
            assert(q.contains(k));
            assert(seen.contains(k));
        }
        assert forall|j: int| 0 <= j < probabilities@.len() && j < labels@.len() implies #[trigger] has_threshold(
            r@,
            probabilities@[j],
        ) by {
            assert(seen.contains(probabilities@[j]));
            assert(q.contains(probabilities@[j]));
            let x = choose|x: int| 0 <= x < q.len() && q[x] == probabilities@[j];
            let p = q.len() - 1 - x;
            assert(r@[p].threshold == probabilities@[j]);
        }
    }
    r
}

/// The sum of the true positives of the first `n` points.
pub open spec fn tps_total(points: Seq<TpsFpsPoint>, n: nat) -> nat
    decreases n,
{
    if n == 0 {
        0
    } else {
        tps_total(points, (n - 1) as nat) + points[n - 1].true_positives as nat
    }
}

/// The sum of the false positives of the first `n` points.
pub open spec fn fps_total(points: Seq<TpsFpsPoint>, n: nat) -> nat
    decreases n,
{
    if n == 0 {
        0
    } else {
        fps_total(points, (n - 1) as nat) + points[n - 1].false_positives as nat
    }
}

proof fn lemma_totals_monotonic(points: Seq<TpsFpsPoint>, m: nat, n: nat)
    requires
        m <= n,
    ensures
        tps_total(points, m) <= tps_total(points, n),
        fps_total(points, m) <= fps_total(points, n),
    decreases n - m,
{
    if m < n {
        lemma_totals_monotonic(points, m, (n - 1) as nat);
    }
}

/// Turns the counts of each threshold into running totals: afterwards each point
/// counts the examples of its threshold and of all the higher thresholds before it.
pub fn accumulate_tps_fps(points: &mut Vec<TpsFpsPoint>)
    requires
        tps_total(old(points)@, old(points)@.len()) <= usize::MAX,
        fps_total(old(points)@, old(points)@.len()) <= usize::MAX,
    ensures
        final(points)@.len() == old(points)@.len(),
        forall|p: int|
            #![trigger final(points)@[p]]
            0 <= p < final(points)@.len() ==> {
                &&& final(points)@[p].threshold == old(points)@[p].threshold
                &&& final(points)@[p].true_positives == tps_total(old(points)@, (p + 1) as nat)
                &&& final(points)@[p].false_positives == fps_total(old(points)@, (p + 1) as nat)
            },
{
    let ghost initial = points@;
    let n = points.len();
    if n == 0 {
        return;
    }
    assert(tps_total(initial, 1) == initial[0].true_positives) by {
        reveal_with_fuel(tps_total, 2);
    }
    assert(fps_total(initial, 1) == initial[0].false_positives) by {
        reveal_with_fuel(fps_total, 2);
    }
    let mut i: usize = 1;
    while i < n
        invariant
            1 <= i <= n,
            n == initial.len(),
            points@.len() == n,
            tps_total(initial, n as nat) <= usize::MAX,
            fps_total(initial, n as nat) <= usize::MAX,
            forall|p: int|
                #![trigger points@[p]]
                0 <= p < i ==> {
                    &&& points@[p].threshold == initial[p].threshold
                    &&& points@[p].true_positives == tps_total(initial, (p + 1) as nat)
                    &&& points@[p].false_positives == fps_total(initial, (p + 1) as nat)
                },
            forall|p: int| #![trigger points@[p]] i <= p < n ==> points@[p] == initial[p],
        decreases n - i,
    {
        proof {
            lemma_totals_monotonic(initial, (i + 1) as nat, n as nat);
        }
        let previous = points[i - 1];
        let current = points[i];
        points.set(
            i,
            TpsFpsPoint {
                threshold: current.threshold,
                true_positives: current.true_positives + previous.true_positives,
                false_positives: current.false_positives + previous.false_positives,
            },
        );
        i = i + 1;
    }
}

/// The number of positive examples: the sum of each label less one.
pub open spec fn positives_total(labels: Seq<usize>) -> nat
    decreases labels.len(),
{
    if labels.len() == 0 {
        0
    } else {
        positives_total(labels.drop_last()) + (labels.last() - 1) as nat
    }
}

/// The number of positive examples of a binary classification, whose labels are
/// 1 (negative) and 2 (positive): the sum of each label less one.
pub fn count_positives(labels: &[usize]) -> (r: usize)
    requires
        forall|i: int| 0 <= i < labels@.len() ==> #[trigger] labels@[i] >= 1,
        positives_total(labels@) <= usize::MAX,
    ensures
        r == positives_total(labels@),
{
    let mut r: usize = 0;
    let mut i: usize = 0;
    while i < labels.len()
        invariant
            i <= labels@.len(),
            forall|j: int| 0 <= j < labels@.len() ==> #[trigger] labels@[j] >= 1,
            positives_total(labels@) <= usize::MAX,
            r == positives_total(labels@.take(i as int)),
        decreases labels@.len() - i,
    {
        proof {
            assert(labels@.take(i + 1).drop_last() =~= labels@.take(i as int));
            lemma_positives_prefix(labels@, i + 1);
        }
        r = r + (labels[i] - 1);
        i = i + 1;
    }
    assert(labels@.take(i as int) =~= labels@);
    r
}

proof fn lemma_positives_prefix(labels: Seq<usize>, n: int)
    requires
        0 <= n <= labels.len(),
        forall|i: int| 0 <= i < labels.len() ==> #[trigger] labels[i] >= 1,
    ensures
        positives_total(labels.take(n)) <= positives_total(labels),
    decreases labels.len(),
{
    if n < labels.len() {
        assert(labels.drop_last().take(n) =~= labels.take(n));
        lemma_positives_prefix(labels.drop_last(), n);
    } else {
        assert(labels.take(n) =~= labels);
    }
}


/// The number of labels equal to `v`.
pub open spec fn labels_equal(labels: Seq<usize>, v: usize) -> nat {
    labels.filter(|l: usize| l == v).len()
}

/// With labels 1 (negative) and 2 (positive), the positives are the labels equal
/// to 2, and with the negatives, those equal to 1, they are all the labels.
pub proof fn lemma_positives_are_labels_two(labels: Seq<usize>)
    requires
        forall|i: int| 0 <= i < labels.len() ==> #[trigger] labels[i] == 1 || labels[i] == 2,
    ensures
        positives_total(labels) == labels_equal(labels, 2),
        positives_total(labels) + labels_equal(labels, 1) == labels.len(),
    decreases labels.len(),
{
    if labels.len() > 0 {
        let p = labels.drop_last();
        assert forall|i: int| 0 <= i < p.len() implies #[trigger] p[i] == 1 || p[i] == 2 by {
            assert(p[i] == labels[i]);
        }
        lemma_positives_are_labels_two(p);
        let x = labels.last();
        assert(labels == p + seq![x]);
        Seq::filter_distributes_over_add(p, seq![x], |l: usize| l == 2);
        Seq::filter_distributes_over_add(p, seq![x], |l: usize| l == 1);
        reveal_with_fuel(Seq::filter, 2);
        assert(labels[labels.len() - 1] == 1 || labels[labels.len() - 1] == 2);
    }
}

} // verus!
