//! GPU operation counts for deterministic workload observability.
//!
//! A host-paced loop is dominated by the number of GPU operations that it submits, not by the cost
//! of any single one. These counters make that volume observable, so that an optimization can be
//! judged by whether it removed launches, copies or synchronizations.

use vstd::prelude::*;

verus! {

/// Snapshot of GPU operation counts, or the counters themselves.
#[derive(Clone, Copy, Debug, PartialEq, Eq, Structural)]
pub struct OpMetrics {
    /// Kernels submitted to a device stream.
    pub kernel_launches: u64,
    /// Host-to-device copies submitted.
    pub h2d_copies: u64,
    /// Bytes submitted host-to-device.
    pub h2d_bytes: u64,
    /// Device-to-host copies submitted.
    pub d2h_copies: u64,
    /// Bytes submitted device-to-host.
    pub d2h_bytes: u64,
    /// Stream synchronizations (host waits on device).
    pub synchronizations: u64,
}

impl Default for OpMetrics {
    fn default() -> (metrics: Self)
        ensures
            metrics == OpMetrics::zero(),
    {
        OpMetrics {
            kernel_launches: 0,
            h2d_copies: 0,
            h2d_bytes: 0,
            d2h_copies: 0,
            d2h_bytes: 0,
            synchronizations: 0,
        }
    }
}

impl OpMetrics {
    /// Nothing was counted.
    pub open spec fn zero() -> Self {
        OpMetrics {
            kernel_launches: 0,
            h2d_copies: 0,
            h2d_bytes: 0,
            d2h_copies: 0,
            d2h_bytes: 0,
            synchronizations: 0,
        }
    }

    /// The delta from an earlier snapshot: each counter on its own, and never below zero.
    pub open spec fn delta_spec(self, earlier: Self) -> Self {
        OpMetrics {
            kernel_launches: self.kernel_launches.saturating_sub(earlier.kernel_launches),
            h2d_copies: self.h2d_copies.saturating_sub(earlier.h2d_copies),
            h2d_bytes: self.h2d_bytes.saturating_sub(earlier.h2d_bytes),
            d2h_copies: self.d2h_copies.saturating_sub(earlier.d2h_copies),
            d2h_bytes: self.d2h_bytes.saturating_sub(earlier.d2h_bytes),
            synchronizations: self.synchronizations.saturating_sub(earlier.synchronizations),
        }
    }

    /// Returns the non-negative counter delta from an earlier snapshot.
    pub fn delta(self, earlier: Self) -> (delta: Self)
        ensures
            delta == self.delta_spec(earlier),
    {
        OpMetrics {
            kernel_launches: self.kernel_launches.saturating_sub(earlier.kernel_launches),
            h2d_copies: self.h2d_copies.saturating_sub(earlier.h2d_copies),
            h2d_bytes: self.h2d_bytes.saturating_sub(earlier.h2d_bytes),
            d2h_copies: self.d2h_copies.saturating_sub(earlier.d2h_copies),
            d2h_bytes: self.d2h_bytes.saturating_sub(earlier.d2h_bytes),
            synchronizations: self.synchronizations.saturating_sub(earlier.synchronizations),
        }
    }
}

/// Returns the current GPU operation counts.
pub fn op_metrics(counters: &OpMetrics) -> (metrics: OpMetrics)
    ensures
        metrics == *counters,
{
    *counters
}

/// Records one kernel launch submitted to a device stream.
pub fn record_kernel_launch(counters: &mut OpMetrics)
    ensures
        *final(counters) == (OpMetrics {
            kernel_launches: old(counters).kernel_launches.wrapping_add(1),
            ..*old(counters)
        }),
{
    counters.kernel_launches = counters.kernel_launches.wrapping_add(1);
}

/// Records one host-to-device copy of `bytes` bytes.
pub fn record_h2d_copy(counters: &mut OpMetrics, bytes: u64)
    ensures
        *final(counters) == (OpMetrics {
            h2d_copies: old(counters).h2d_copies.wrapping_add(1),
            h2d_bytes: old(counters).h2d_bytes.wrapping_add(bytes),
            ..*old(counters)
        }),
{
    counters.h2d_copies = counters.h2d_copies.wrapping_add(1);
    counters.h2d_bytes = counters.h2d_bytes.wrapping_add(bytes);
}

/// Records one device-to-host copy of `bytes` bytes.
pub fn record_d2h_copy(counters: &mut OpMetrics, bytes: u64)
    ensures
        *final(counters) == (OpMetrics {
            d2h_copies: old(counters).d2h_copies.wrapping_add(1),
            d2h_bytes: old(counters).d2h_bytes.wrapping_add(bytes),
            ..*old(counters)
        }),
{
    counters.d2h_copies = counters.d2h_copies.wrapping_add(1);
    counters.d2h_bytes = counters.d2h_bytes.wrapping_add(bytes);
}

/// Records one stream synchronization (a host wait on device work).
pub fn record_synchronization(counters: &mut OpMetrics)
    ensures
        *final(counters) == (OpMetrics {
            synchronizations: old(counters).synchronizations.wrapping_add(1),
            ..*old(counters)
        }),
{
    counters.synchronizations = counters.synchronizations.wrapping_add(1);
}

/// The delta of a snapshot from itself shows no operation, and the delta from before anything was
/// counted shows all of them.
pub proof fn law_delta_bounds(metrics: OpMetrics)
    ensures
        metrics.delta_spec(metrics) == OpMetrics::zero(),
        metrics.delta_spec(OpMetrics::zero()) == metrics,
{
}

/// The deltas of consecutive spans add up, as long as the counters only grow.
pub proof fn law_deltas_add_up(first: OpMetrics, second: OpMetrics, third: OpMetrics)
    requires
        first.kernel_launches <= second.kernel_launches <= third.kernel_launches,
        first.h2d_copies <= second.h2d_copies <= third.h2d_copies,
        first.h2d_bytes <= second.h2d_bytes <= third.h2d_bytes,
        first.d2h_copies <= second.d2h_copies <= third.d2h_copies,
        first.d2h_bytes <= second.d2h_bytes <= third.d2h_bytes,
        first.synchronizations <= second.synchronizations <= third.synchronizations,
    ensures
        ({
            let a = second.delta_spec(first);
            let b = third.delta_spec(second);
            let whole = third.delta_spec(first);
            &&& whole.kernel_launches == a.kernel_launches + b.kernel_launches
            &&& whole.h2d_copies == a.h2d_copies + b.h2d_copies
            &&& whole.h2d_bytes == a.h2d_bytes + b.h2d_bytes
            &&& whole.d2h_copies == a.d2h_copies + b.d2h_copies
            &&& whole.d2h_bytes == a.d2h_bytes + b.d2h_bytes
            &&& whole.synchronizations == a.synchronizations + b.synchronizations
        }),
{
}

/// A delta is never below zero: a counter that is less than it was shows as no operation, whatever
/// the others show.
pub proof fn law_delta_is_never_negative(earlier: OpMetrics, later: OpMetrics)
    ensures
        ({
            let delta = later.delta_spec(earlier);
            &&& later.kernel_launches <= earlier.kernel_launches ==> delta.kernel_launches == 0
            &&& later.kernel_launches > earlier.kernel_launches
                ==> delta.kernel_launches == later.kernel_launches - earlier.kernel_launches
            &&& later.h2d_copies <= earlier.h2d_copies ==> delta.h2d_copies == 0
            &&& later.h2d_copies > earlier.h2d_copies
                ==> delta.h2d_copies == later.h2d_copies - earlier.h2d_copies
            &&& later.h2d_bytes <= earlier.h2d_bytes ==> delta.h2d_bytes == 0
            &&& later.h2d_bytes > earlier.h2d_bytes
                ==> delta.h2d_bytes == later.h2d_bytes - earlier.h2d_bytes
            &&& later.d2h_copies <= earlier.d2h_copies ==> delta.d2h_copies == 0
            &&& later.d2h_copies > earlier.d2h_copies
                ==> delta.d2h_copies == later.d2h_copies - earlier.d2h_copies
            &&& later.d2h_bytes <= earlier.d2h_bytes ==> delta.d2h_bytes == 0
            &&& later.d2h_bytes > earlier.d2h_bytes
                ==> delta.d2h_bytes == later.d2h_bytes - earlier.d2h_bytes
            &&& later.synchronizations <= earlier.synchronizations ==> delta.synchronizations == 0
            &&& later.synchronizations > earlier.synchronizations
                ==> delta.synchronizations == later.synchronizations - earlier.synchronizations
        }),
{
}

} // verus!
