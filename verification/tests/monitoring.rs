use uid_sync::monitor::{
    mtime_stamp, pause_after, MonitorError, MtimeDecision, PackagesMonitor, TickStart, MONITOR_INTERVAL_SECS,
    UNKNOWN_MTIME,
};

#[test]
fn start_takes_the_first_reading_as_baseline() {
    let monitor = PackagesMonitor::start(Some(1700000000));
    assert_eq!(monitor.last_mtime, 1700000000);
    assert_eq!(monitor.pending, 0);
}

#[test]
fn start_without_a_reading_has_no_baseline() {
    let monitor = PackagesMonitor::start(None);
    assert_eq!(monitor.last_mtime, UNKNOWN_MTIME);
    assert_eq!(monitor.last_mtime, 0);
    assert_eq!(monitor.pending, 0);
    assert_eq!(MONITOR_INTERVAL_SECS, 2);
}

#[test]
fn first_observation_triggers_no_rescan_and_a_change_triggers_one() {
    let mut monitor = PackagesMonitor::start(None);
    assert_eq!(monitor.begin_tick(), TickStart::CheckMtime);
    assert_eq!(monitor.observe_mtime(Some(100)), MtimeDecision::Adopted);
    assert_eq!(monitor.last_mtime, 100);
    assert_eq!(monitor.begin_tick(), TickStart::CheckMtime);
    assert_eq!(monitor.observe_mtime(Some(100)), MtimeDecision::Unchanged);
    assert_eq!(monitor.begin_tick(), TickStart::CheckMtime);
    assert_eq!(monitor.observe_mtime(Some(250)), MtimeDecision::Rescan);
    assert_eq!(monitor.last_mtime, 250);
    assert_eq!(monitor.begin_tick(), TickStart::CheckMtime);
    assert_eq!(monitor.observe_mtime(Some(250)), MtimeDecision::Unchanged);
    assert_eq!(monitor.last_mtime, 250);
}

#[test]
fn an_earlier_time_is_a_change_too() {
    let mut monitor = PackagesMonitor::start(Some(500));
    assert_eq!(monitor.observe_mtime(Some(499)), MtimeDecision::Rescan);
    assert_eq!(monitor.last_mtime, 499);
}

#[test]
fn failed_reading_keeps_the_baseline() {
    let mut monitor = PackagesMonitor::start(Some(500));
    assert_eq!(monitor.observe_mtime(None), MtimeDecision::Unreadable);
    assert_eq!(monitor.last_mtime, 500);
    let mut unknown = PackagesMonitor::start(None);
    assert_eq!(unknown.observe_mtime(None), MtimeDecision::Unreadable);
    assert_eq!(unknown.last_mtime, 0);
}

#[test]
fn a_reading_of_zero_leaves_the_baseline_unknown() {
    let mut monitor = PackagesMonitor::start(None);
    assert_eq!(monitor.observe_mtime(Some(0)), MtimeDecision::Adopted);
    assert_eq!(monitor.last_mtime, 0);
    assert_eq!(monitor.observe_mtime(Some(77)), MtimeDecision::Adopted);
    assert_eq!(monitor.last_mtime, 77);
}

#[test]
fn trigger_causes_a_manual_rescan_on_the_next_tick() {
    let mut monitor = PackagesMonitor::start(Some(42));
    assert_eq!(monitor.trigger_rescan(), Ok(()));
    assert_eq!(monitor.pending, 1);
    assert_eq!(monitor.begin_tick(), TickStart::ManualRescan);
    assert_eq!(monitor.pending, 0);
    assert_eq!(monitor.last_mtime, 42);
    assert_eq!(monitor.begin_tick(), TickStart::CheckMtime);
    assert_eq!(monitor.observe_mtime(Some(42)), MtimeDecision::Unchanged);
}

#[test]
fn each_tick_serves_one_trigger() {
    let mut monitor = PackagesMonitor::start(None);
    assert_eq!(monitor.trigger_rescan(), Ok(()));
    assert_eq!(monitor.trigger_rescan(), Ok(()));
    assert_eq!(monitor.pending, 2);
    assert_eq!(monitor.begin_tick(), TickStart::ManualRescan);
    assert_eq!(monitor.begin_tick(), TickStart::ManualRescan);
    assert_eq!(monitor.begin_tick(), TickStart::CheckMtime);
    assert_eq!(monitor.pending, 0);
}

#[test]
fn trigger_fails_only_when_no_more_can_wait() {
    let mut monitor = PackagesMonitor { last_mtime: 9, pending: u64::MAX - 1 };
    assert_eq!(monitor.trigger_rescan(), Ok(()));
    assert_eq!(monitor.pending, u64::MAX);
    assert_eq!(monitor.trigger_rescan(), Err(MonitorError::TriggerNotSent));
    assert_eq!(monitor.pending, u64::MAX);
    assert_eq!(monitor.last_mtime, 9);
}

#[test]
fn stamp_reads_the_seconds_as_unsigned() {
    assert_eq!(mtime_stamp(0), 0);
    assert_eq!(mtime_stamp(1700000000), 1700000000);
    assert_eq!(mtime_stamp(-1), u64::MAX);
    assert_eq!(mtime_stamp(i64::MIN), 1u64 << 63);
}

#[test]
fn only_a_time_check_is_followed_by_a_pause() {
    assert_eq!(pause_after(TickStart::ManualRescan), 0);
    assert_eq!(pause_after(TickStart::CheckMtime), 2);
}
