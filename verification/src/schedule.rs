//! When the background threads collect: each naps in steps of 100 ms and
//! collects once its interval has passed, at once on a forced refresh, and
//! stops on shutdown.

use vstd::prelude::*;

verus! {

/// Naps of 100 ms in one second.
pub const NAPS_PER_SEC: u64 = 10;

/// Seconds between two readings of the extended memory figures, which are
/// slow to query.
pub const EXTENDED_MEMORY_REFRESH_SECS: u64 = 10;

/// What a collector thread does next.
#[derive(Debug, Clone, Copy, PartialEq, Eq, Structural)]
pub enum CollectorAction {
    /// Leave the loop: the monitor is shutting down.
    Stop,
    /// Collect now and start counting naps again.
    Collect,
    /// Sleep 100 ms more.
    Nap,
}

/// The action after `naps_done` naps of a thread that collects every
/// `interval_secs` seconds, with the force-refresh flag that follows it:
/// shutdown stops the thread; a forced refresh, or a full interval of naps,
/// makes it collect; else it naps. The flag is cleared when a forced
/// refresh cuts the naps short.
pub open spec fn next_collector_step(naps_done: u64, interval_secs: u64, shutdown: bool, force_refresh: bool) -> (CollectorAction, bool) {
    if shutdown {
        (CollectorAction::Stop, force_refresh)
    } else if naps_done >= interval_secs * NAPS_PER_SEC {
        (CollectorAction::Collect, force_refresh)
    } else if force_refresh {
        (CollectorAction::Collect, false)
    } else {
        (CollectorAction::Nap, false)
    }
}

/// The next action of a collector thread (see `next_collector_step`).
pub fn collector_step(naps_done: u64, interval_secs: u64, shutdown: bool, force_refresh: bool) -> (a: (CollectorAction, bool))
    ensures
        a == next_collector_step(naps_done, interval_secs, shutdown, force_refresh),
        shutdown ==> a.0 == CollectorAction::Stop,
        !shutdown && (force_refresh || naps_done >= interval_secs * NAPS_PER_SEC) ==> a.0
            == CollectorAction::Collect,
        !shutdown && !force_refresh && naps_done < interval_secs * NAPS_PER_SEC ==> a.0
            == CollectorAction::Nap,
        a.1 == (force_refresh && (shutdown || naps_done >= interval_secs * NAPS_PER_SEC)),
{
    if shutdown {
        (CollectorAction::Stop, force_refresh)
    } else if naps_done / NAPS_PER_SEC >= interval_secs {
        (CollectorAction::Collect, force_refresh)
    } else if force_refresh {
        (CollectorAction::Collect, false)
    } else {
        (CollectorAction::Nap, false)
    }
}

/// Whether the display takes in new data: once `interval_secs` seconds
/// have passed since it last did, `elapsed_ms` milliseconds ago.
pub fn update_due(elapsed_ms: u128, interval_secs: u64) -> (b: bool)
    ensures
        b == (elapsed_ms >= interval_secs * 1000),
{
    elapsed_ms >= (interval_secs as u128) * 1000
}

} // verus!
