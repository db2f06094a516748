//! What the profiler measured of one shape.

use crate::cache::interp::Metrics4;
use crate::cache::scalar::{wide_at_most, Scalar, Wide};
use vstd::prelude::*;

verus! {

/// One measurement. Compute rows carry a compute and a memory rate, communication rows
/// the two link rates.
#[derive(Clone, Copy, Debug, PartialEq)]
pub struct KernelMetrics<W> {
    pub time_ms: W,
    pub tflops: Option<W>,
    pub memory_bandwidth_gbps: Option<W>,
    pub algbw_gbps: Option<W>,
    pub busbw_gbps: Option<W>,
    pub energy_j: W,
}

/// Whether a number is finite and not negative.
pub open spec fn is_measured<W: Wide>(value: W) -> bool {
    value.finite() && wide_at_most(W::count_value(0), value)
}

fn finite_non_negative<W: Wide>(value: W) -> (r: bool)
    ensures
        r == is_measured(value),
{
    value.is_finite() && W::from_count(0).at_most(value)
}

pub open spec fn measured_if_any<W: Wide>(value: Option<W>) -> bool {
    match value {
        Some(value) => is_measured(value),
        None => true,
    }
}

fn finite_if_any<W: Wide>(value: Option<W>) -> (r: bool)
    ensures
        r == measured_if_any(value),
{
    match value {
        Some(value) => finite_non_negative(value),
        None => true,
    }
}

/// A rate over a time in milliseconds, in units of `scale`; zero where that is no
/// number.
pub open spec fn amount<W: Wide>(rate: W, time_ms: W, scale: u64) -> u64 {
    let value = rate.product(time_ms.quotient(W::count_value(1000))).product(W::count_value(scale));
    if is_measured(value) {
        value.count_part()
    } else {
        0
    }
}

fn amount_of<W: Wide>(rate: W, time_ms: W, scale: u64) -> (r: u64)
    ensures
        r == amount(rate, time_ms, scale),
{
    let value: W = rate.times(time_ms.over(W::from_count(1000))).times(W::from_count(scale));
    if finite_non_negative(value) {
        value.as_count()
    } else {
        0
    }
}

impl<W: Wide> KernelMetrics<W> {
    /// Whether the time, the energy and every rate that is there are finite and not
    /// negative.
    pub open spec fn all_measured(&self) -> bool {
        &&& is_measured(self.time_ms)
        &&& is_measured(self.energy_j)
        &&& measured_if_any(self.tflops)
        &&& measured_if_any(self.memory_bandwidth_gbps)
        &&& measured_if_any(self.algbw_gbps)
        &&& measured_if_any(self.busbw_gbps)
    }

    /// Whether the time, the energy and every rate that is there are finite and not
    /// negative.
    pub fn is_finite(&self) -> (r: bool)
        ensures
            r == self.all_measured(),
    {
        finite_non_negative(self.time_ms) && finite_non_negative(self.energy_j) && finite_if_any(
            self.tflops,
        ) && finite_if_any(self.memory_bandwidth_gbps) && finite_if_any(self.algbw_gbps)
            && finite_if_any(self.busbw_gbps)
    }

    /// The operations: the compute rate over the time, zero without one.
    pub open spec fn operations(&self) -> u64 {
        match self.tflops {
            Some(rate) => amount(rate, self.time_ms, 1000000000000),
            None => 0,
        }
    }

    /// The operations: the compute rate over the time, zero without one.
    pub fn flops(&self) -> (r: u64)
        ensures
            r == self.operations(),
    {
        match self.tflops {
            Some(rate) => amount_of(rate, self.time_ms, 1000000000000),
            None => 0,
        }
    }

    /// The bytes moved: the memory rate over the time, or else the link rate over the
    /// time, zero without either.
    pub open spec fn traffic(&self) -> u64 {
        match (self.memory_bandwidth_gbps, self.busbw_gbps) {
            (Some(rate), _) => amount(rate, self.time_ms, 1000000000),
            (None, Some(rate)) => amount(rate, self.time_ms, 1000000000),
            (None, None) => 0,
        }
    }

    /// The bytes moved: the memory rate over the time, or else the link rate over the
    /// time, zero without either.
    pub fn bytes(&self) -> (r: u64)
        ensures
            r == self.traffic(),
    {
        if let Some(rate) = self.memory_bandwidth_gbps {
            return amount_of(rate, self.time_ms, 1000000000);
        }
        if let Some(rate) = self.busbw_gbps {
            return amount_of(rate, self.time_ms, 1000000000);
        }
        0
    }
}

impl<S: Scalar> Metrics4<S> {
    /// A measurement in the form that tables hold.
    pub open spec fn of_sample(sample: KernelMetrics<S::Wide>) -> Self {
        Metrics4 {
            time_ms: S::narrowed(sample.time_ms),
            flops: S::count_value(sample.operations()),
            bytes: S::count_value(sample.traffic()),
            energy_j: S::narrowed(sample.energy_j),
        }
    }

    /// A measurement in the form that tables hold.
    pub fn from_sample(sample: &KernelMetrics<S::Wide>) -> (r: Self)
        ensures
            r == Self::of_sample(*sample),
    {
        Metrics4 {
            time_ms: S::narrow(sample.time_ms),
            flops: S::from_count(sample.flops()),
            bytes: S::from_count(sample.bytes()),
            energy_j: S::narrow(sample.energy_j),
        }
    }

    /// A measurement that a table can hold; nothing where it has to be dropped.
    pub open spec fn kept_sample(sample: KernelMetrics<S::Wide>) -> Option<Self> {
        if sample.all_measured() {
            Some(Self::of_sample(sample))
        } else {
            None
        }
    }

    /// A measurement that a table can hold; nothing where it has to be dropped.
    pub fn keep_sample(sample: &KernelMetrics<S::Wide>) -> (r: Option<Self>)
        ensures
            r == Self::kept_sample(*sample),
    {
        if sample.is_finite() {
            Some(Self::from_sample(sample))
        } else {
            None
        }
    }
}

} // verus!
