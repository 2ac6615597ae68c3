//! The change monitor: when a rescan is due. The monitor holds the
//! modification time of the package registry that it last saw and the
//! triggers that wait to be served. Whoever runs it reads the clock and the
//! file, performs the rescans, and sleeps between ticks.

use vstd::prelude::*;

verus! {

/// The baseline that stands for "no modification time seen yet".
pub const UNKNOWN_MTIME: u64 = 0;

/// Seconds between two ticks of the monitor.
pub const MONITOR_INTERVAL_SECS: u64 = 2;

/// The state of the monitor.
#[derive(Clone, Copy, Debug, PartialEq, Eq, Structural)]
pub struct PackagesMonitor {
    /// The modification time last seen, or `UNKNOWN_MTIME`.
    pub last_mtime: u64,
    /// The number of triggers that wait to be served.
    pub pending: u64,
}

/// How a tick begins.
#[derive(Clone, Copy, Debug, PartialEq, Eq, Structural)]
pub enum TickStart {
    /// A trigger was waiting: rescan now, whatever the registry's time is,
    /// and go to the next tick without reading it.
    ManualRescan,
    /// No trigger was waiting: read the registry's modification time.
    CheckMtime,
}

/// What follows from a reading of the registry's modification time.
#[derive(Clone, Copy, Debug, PartialEq, Eq, Structural)]
pub enum MtimeDecision {
    /// The time differs from a known baseline: rescan.
    Rescan,
    /// No baseline was known: the time is taken as the baseline, and nothing
    /// else happens.
    Adopted,
    /// The time is the baseline: nothing happens.
    Unchanged,
    /// The time could not be read: the baseline stays, and nothing else
    /// happens.
    Unreadable,
}

/// Why a trigger was not taken.
#[derive(Clone, Copy, Debug, PartialEq, Eq, Structural)]
pub enum MonitorError {
    /// No further trigger can wait.
    TriggerNotSent,
}

/// The monitor after one more trigger was sent to `monitor`.
pub open spec fn after_trigger(monitor: PackagesMonitor) -> PackagesMonitor {
    if monitor.pending < u64::MAX {
        PackagesMonitor { last_mtime: monitor.last_mtime, pending: (monitor.pending + 1) as u64 }
    } else {
        monitor
    }
}

/// How the next tick of `monitor` begins.
pub open spec fn tick_start(monitor: PackagesMonitor) -> TickStart {
    if monitor.pending > 0 {
        TickStart::ManualRescan
    } else {
        TickStart::CheckMtime
    }
}

/// The monitor after its tick has begun: one waiting trigger is gone.
pub open spec fn after_tick_start(monitor: PackagesMonitor) -> PackagesMonitor {
    if monitor.pending > 0 {
        PackagesMonitor { last_mtime: monitor.last_mtime, pending: (monitor.pending - 1) as u64 }
    } else {
        monitor
    }
}

/// What follows when a monitor with the baseline `baseline` reads `reading`.
pub open spec fn decide(baseline: u64, reading: Option<u64>) -> MtimeDecision {
    match reading {
        None => MtimeDecision::Unreadable,
        Some(current) => if baseline == UNKNOWN_MTIME {
            MtimeDecision::Adopted
        } else if current != baseline {
            MtimeDecision::Rescan
        } else {
            MtimeDecision::Unchanged
        },
    }
}

/// The baseline after a monitor with the baseline `baseline` read `reading`:
/// a time that was read becomes the baseline, a failed reading changes
/// nothing.
pub open spec fn advance(baseline: u64, reading: Option<u64>) -> u64 {
    match reading {
        None => baseline,
        Some(current) => current,
    }
}

/// Seconds to wait once a tick that began with `begun` is over: none after a
/// manual rescan, the monitor's interval after the registry's time was read.
pub open spec fn pause_secs(begun: TickStart) -> u64 {
    match begun {
        TickStart::ManualRescan => 0,
        TickStart::CheckMtime => MONITOR_INTERVAL_SECS,
    }
}

/// Seconds to wait before the next tick begins.
pub fn pause_after(begun: TickStart) -> (secs: u64)
    ensures
        secs == pause_secs(begun),
{
    match begun {
        TickStart::ManualRescan => 0,
        TickStart::CheckMtime => MONITOR_INTERVAL_SECS,
    }
}

/// The modification time that stands for `seconds` since the epoch: the same
/// 64 bits read as an unsigned number.
pub fn mtime_stamp(seconds: i64) -> (stamp: u64)
    ensures
        stamp == seconds as u64,
{
    seconds as u64
}

impl PackagesMonitor {
    /// A monitor with no trigger waiting. Its baseline is `initial`, or
    /// unknown where the registry's time could not be read.
    pub fn start(initial: Option<u64>) -> (monitor: Self)
        ensures
            monitor.pending == 0,
            monitor.last_mtime == advance(UNKNOWN_MTIME, initial),
    {
        let last_mtime: u64 = match initial {
            Some(seen) => seen,
            None => UNKNOWN_MTIME,
        };
        PackagesMonitor { last_mtime, pending: 0 }
    }

    /// Sends one trigger, which the next tick will serve. Fails, and changes
    /// nothing, only where as many triggers wait as can be counted.
    pub fn trigger_rescan(&mut self) -> (sent: Result<(), MonitorError>)
        ensures
            *final(self) == after_trigger(*old(self)),
            sent == (if old(self).pending < u64::MAX {
                Ok::<(), MonitorError>(())
            } else {
                Err::<(), MonitorError>(MonitorError::TriggerNotSent)
            }),
    {
        if self.pending == u64::MAX {
            return Err(MonitorError::TriggerNotSent);
        }
        self.pending = self.pending + 1;
        Ok(())
    }

    /// Begins a tick: takes at most one waiting trigger and says whether the
    /// tick is a manual rescan or goes on to read the registry's time.
    pub fn begin_tick(&mut self) -> (begun: TickStart)
        ensures
            begun == tick_start(*old(self)),
            *final(self) == after_tick_start(*old(self)),
    {
        if self.pending > 0 {
            self.pending = self.pending - 1;
            TickStart::ManualRescan
        } else {
            TickStart::CheckMtime
        }
    }

    /// Takes a reading of the registry's modification time, `None` where it
    /// could not be read, and says what follows from it.
    pub fn observe_mtime(&mut self, reading: Option<u64>) -> (decision: MtimeDecision)
        ensures
            decision == decide(old(self).last_mtime, reading),
            final(self).last_mtime == advance(old(self).last_mtime, reading),
            final(self).pending == old(self).pending,
    {
        match reading {
            None => MtimeDecision::Unreadable,
            Some(current) => {
                if current != self.last_mtime && self.last_mtime != UNKNOWN_MTIME {
                    self.last_mtime = current;
                    MtimeDecision::Rescan
                } else if self.last_mtime == UNKNOWN_MTIME {
                    self.last_mtime = current;
                    MtimeDecision::Adopted
                } else {
                    MtimeDecision::Unchanged
                }
            },
        }
    }
}

/// The first time that a monitor without a baseline sees calls for no
/// rescan. A different time seen on a later tick calls for one, and seeing
/// that time again calls for none.
pub proof fn lemma_first_observation_then_change(first: u64, second: u64)
    requires
        first != UNKNOWN_MTIME,
        second != first,
    ensures
        decide(UNKNOWN_MTIME, Some(first)) == MtimeDecision::Adopted,
        advance(UNKNOWN_MTIME, Some(first)) == first,
        decide(first, Some(second)) == MtimeDecision::Rescan,
        advance(first, Some(second)) == second,
        decide(second, Some(second)) != MtimeDecision::Rescan,
{
}

/// A reading that fails never calls for a rescan and leaves the baseline as
/// it was.
pub proof fn lemma_unreadable_changes_nothing(baseline: u64)
    ensures
        decide(baseline, None) == MtimeDecision::Unreadable,
        advance(baseline, None) == baseline,
{
}

/// Once a trigger was sent, the next tick is a manual rescan, whatever the
/// registry's modification time is, and it leaves the baseline as it was.
pub proof fn lemma_trigger_forces_rescan(monitor: PackagesMonitor)
    ensures
        tick_start(after_trigger(monitor)) == TickStart::ManualRescan,
        after_tick_start(after_trigger(monitor)).last_mtime == monitor.last_mtime,
        monitor.pending < u64::MAX ==> after_tick_start(after_trigger(monitor)) == monitor,
{
}

} // verus!
