//! Time spent in the phases of training a tree model, accumulated from any thread.

use num_traits::ToPrimitive;
use std::sync::atomic::{AtomicU64, Ordering};
use std::time::Duration;
use vstd::prelude::*;

verus! {

/// The time spent in each phase of training.
#[derive(Debug)]
pub struct Timing {
    pub binning: BinningTiming,
    pub bin_stats: BinStatsTiming,
    pub find_split: TimingDuration,
    pub rearrange_examples_index: TimingDuration,
    pub predict: TimingDuration,
    pub compute_feature_importances: TimingDuration,
    pub sum_gradients_hessians: TimingDuration,
    pub allocations: TimingDuration,
}

/// A total of nanoseconds that several threads can add to.
#[derive(Debug)]
pub struct TimingDuration(AtomicU64);

#[derive(Debug)]
pub struct BinningTiming {
    pub compute_bin_info: TimingDuration,
    pub compute_binned_features: TimingDuration,
}

#[derive(Debug)]
pub struct BinStatsTiming {
    pub compute_bin_stats: TimingDuration,
    pub compute_bin_stats_subtraction: TimingDuration,
    pub compute_bin_stats_root: TimingDuration,
}

impl Timing {
    /// All totals at zero.
    pub fn new() -> (r: Self) {
        Timing {
            binning: BinningTiming {
                compute_bin_info: TimingDuration::new(),
                compute_binned_features: TimingDuration::new(),
            },
            bin_stats: BinStatsTiming {
                compute_bin_stats: TimingDuration::new(),
                compute_bin_stats_subtraction: TimingDuration::new(),
                compute_bin_stats_root: TimingDuration::new(),
            },
            sum_gradients_hessians: TimingDuration::new(),
            find_split: TimingDuration::new(),
            rearrange_examples_index: TimingDuration::new(),
            predict: TimingDuration::new(),
            compute_feature_importances: TimingDuration::new(),
            allocations: TimingDuration::new(),
        }
    }
}

impl TimingDuration {
    /// A total of zero.
    pub fn new() -> (r: Self) {
        TimingDuration(AtomicU64::new(0))
    }

    /// The total so far.
    pub fn get(&self) -> (r: Duration) {
        duration_from_nanos(self.0.load(Ordering::Relaxed))
    }

    /// Adds a duration to the total, wrapping past `u64::MAX`, and returns the total
    /// before, in nanoseconds. The duration's nanoseconds must fit in a `u64`.
    pub fn inc(&self, value: Duration) -> (r: u64)
        requires
            duration_nanos(value) <= u64::MAX,
    {
        let nanos = u128_to_u64(duration_as_nanos(&value)).unwrap();
        self.0.fetch_add(nanos, Ordering::Relaxed)
    }

    /// Adds a duration to the total, as `inc` does, when its nanoseconds fit in a
    /// `u64`, and returns the total before; otherwise adds nothing and returns `None`.
    pub fn try_inc(&self, value: Duration) -> (r: Option<u64>)
        ensures
            r is None <==> duration_nanos(value) > u64::MAX,
    {
        match u128_to_u64(duration_as_nanos(&value)) {
            Some(nanos) => Some(self.0.fetch_add(nanos, Ordering::Relaxed)),
            None => None,
        }
    }
}

/// `<u128 as num_traits::ToPrimitive>::to_u64`: the value when it fits in a `u64`, else `None`.
#[verifier::external_body]
fn u128_to_u64(x: u128) -> (r: Option<u64>)
    ensures
        x <= u64::MAX ==> r == Some(x as u64),
        x > u64::MAX ==> r is None,
{
    x.to_u64()
}

/// `std::time::Duration::from_nanos`: nothing is stated of the duration, whose contents Verus does not see.
#[verifier::external_body]
fn duration_from_nanos(nanos: u64) -> (r: Duration) {
    Duration::from_nanos(nanos)
}

/// The number of whole nanoseconds in a duration, as `Duration::as_nanos` gives it.
pub uninterp spec fn duration_nanos(d: Duration) -> u128;

/// `std::time::Duration::as_nanos`: the duration's whole nanoseconds, which depend on
/// the duration alone; their value is named, not stated.
#[verifier::external_body]
fn duration_as_nanos(d: &Duration) -> (r: u128)
    ensures
        r == duration_nanos(*d),
{
    d.as_nanos()
}

} // verus!
