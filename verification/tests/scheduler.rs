//! The scheduler's single-instance and loop decisions.

use tmz::daemon::{
    due_event, is_running, launchd_plist, log_file_path, pid_file_path, scheduler_step,
    start_decision, stop_decision, systemd_unit, SchedulerAction, SchedulerEvent, StartDecision,
    StopDecision, SYNC_INTERVAL_SECS, SYNC_MESSAGES_PER_CHAT, SYNC_TOP_CHATS,
    TOKEN_REFRESH_INTERVAL_SECS,
};

#[test]
fn start_refuses_while_a_live_marker_exists() {
    assert_eq!(start_decision(Some(4242), true), StartDecision::AlreadyRunning(4242));
}

#[test]
fn start_cleans_a_stale_marker_and_proceeds() {
    assert_eq!(start_decision(Some(4242), false), StartDecision::CleanStaleAndStart(4242));
    assert_eq!(start_decision(None, false), StartDecision::Start);
}

#[test]
fn stop_distinguishes_live_stale_and_absent() {
    assert_eq!(stop_decision(Some(7), true), StopDecision::SignalAndWait(7));
    assert_eq!(stop_decision(Some(7), false), StopDecision::CleanStale(7));
    assert_eq!(stop_decision(None, true), StopDecision::NotRunning);
}

#[test]
fn running_needs_marker_and_liveness() {
    assert!(is_running(Some(1), true));
    assert!(!is_running(Some(1), false));
    assert!(!is_running(None, true));
}

#[test]
fn loop_runs_one_task_per_event_and_stops_on_shutdown() {
    assert_eq!(scheduler_step(true, SchedulerEvent::RefreshDue), (true, SchedulerAction::RunRefresh));
    assert_eq!(scheduler_step(true, SchedulerEvent::SyncDue), (true, SchedulerAction::RunSync));
    let (running, action) = scheduler_step(true, SchedulerEvent::Shutdown);
    assert!(!running);
    assert_eq!(action, SchedulerAction::RemoveMarkerAndExit);
    // No timer fires after shutdown.
    assert_eq!(scheduler_step(false, SchedulerEvent::RefreshDue), (false, SchedulerAction::Ignore));
    assert_eq!(scheduler_step(false, SchedulerEvent::SyncDue), (false, SchedulerAction::Ignore));
}

#[test]
fn event_selection_orders_shutdown_refresh_sync() {
    let now: i64 = 100_000;
    // Shutdown wins over any due timer.
    assert_eq!(due_event(true, now, 0, 0), Some(SchedulerEvent::Shutdown));
    // The refresh timer wins over the sync timer.
    assert_eq!(due_event(false, now, 0, 0), Some(SchedulerEvent::RefreshDue));
    // Only the sync timer due.
    assert_eq!(
        due_event(false, now, now - 100, now - SYNC_INTERVAL_SECS as i64),
        Some(SchedulerEvent::SyncDue)
    );
    // Nothing due.
    assert_eq!(due_event(false, now, now - 100, now - 100), None);
}

#[test]
fn cadence_sits_inside_the_credential_lifetime() {
    assert_eq!(TOKEN_REFRESH_INTERVAL_SECS, 3000);
    assert_eq!(SYNC_INTERVAL_SECS, 300);
    assert_eq!(SYNC_TOP_CHATS, 30);
    assert_eq!(SYNC_MESSAGES_PER_CHAT, 50);
}

#[test]
fn state_paths_join_the_state_directory() {
    assert_eq!(pid_file_path("/home/alex/.local/state/tmz"), "/home/alex/.local/state/tmz/tmz.pid");
    assert_eq!(log_file_path("/x"), "/x/tmz.log");
}

#[test]
fn service_files_embed_the_binary_path() {
    let plist = launchd_plist("/usr/local/bin/tmz");
    assert!(plist.contains("<string>/usr/local/bin/tmz</string>"));
    assert!(plist.contains("<string>service</string>"));
    let unit = systemd_unit("/usr/local/bin/tmz");
    assert!(unit.contains("ExecStart=/usr/local/bin/tmz service run"));
    assert!(unit.contains("WantedBy=default.target"));
}
