//! The background scheduler's decisions: single-instance enforcement
//! through a liveness marker, the periodic cadence, and graceful shutdown.
//!
//! The scheduler owns one long-lived process recorded in a marker file.
//! Reading the marker, probing process liveness, sleeping and signalling
//! are the caller's concern; what to do with what it found is decided
//! here, as plain functions from observations to actions, and proved. The
//! loop itself is the state machine [`scheduler_step`]: one task runs to
//! completion per selected event, and no timer fires once shutdown has
//! been requested.

use vstd::prelude::*;

verus! {

/// Interval between credential refreshes: fifty minutes, safely inside a
/// typical sixty-minute credential lifetime.
pub const TOKEN_REFRESH_INTERVAL_SECS: u64 = 3000;

/// Interval between cache sync passes: five minutes.
pub const SYNC_INTERVAL_SECS: u64 = 300;

/// How many of the most recently active conversations a sync pass fetches
/// messages for.
pub const SYNC_TOP_CHATS: usize = 30;

/// How many messages per conversation a sync pass fetches.
pub const SYNC_MESSAGES_PER_CHAT: usize = 50;

/// The marker file path under the state directory.
pub fn pid_file_path(state_dir: &str) -> (r: String)
    ensures
        r@ == state_dir@ + "/tmz.pid"@,
{
    String::from_str(state_dir).concat("/tmz.pid")
}

/// The log file path under the state directory.
pub fn log_file_path(state_dir: &str) -> (r: String)
    ensures
        r@ == state_dir@ + "/tmz.log"@,
{
    String::from_str(state_dir).concat("/tmz.log")
}

/// Whether the scheduler is running: a marker exists and the process it
/// names is alive.
pub fn is_running(marker: Option<u32>, alive: bool) -> (r: bool)
    ensures
        r == (marker is Some && alive),
{
    match marker {
        Option::Some(_) => alive,
        Option::None => false,
    }
}

/// What `start` decides from the marker and the liveness probe.
#[derive(Debug, Clone, Copy, PartialEq, Eq, Structural)]
pub enum StartDecision {
    /// A live instance exists: refuse to start and report its identifier.
    AlreadyRunning(u32),
    /// The marker names a dead process: remove the stale marker, then
    /// start.
    CleanStaleAndStart(u32),
    /// No marker exists: start.
    Start,
}

/// Decide whether to start: refuse while a live marker exists, clean up a
/// stale one, start otherwise.
pub fn start_decision(marker: Option<u32>, alive: bool) -> (r: StartDecision)
    ensures
        match marker {
            Option::Some(pid) => r == (if alive {
                StartDecision::AlreadyRunning(pid)
            } else {
                StartDecision::CleanStaleAndStart(pid)
            }),
            Option::None => r == StartDecision::Start,
        },
{
    match marker {
        Option::Some(pid) => {
            if alive {
                StartDecision::AlreadyRunning(pid)
            } else {
                StartDecision::CleanStaleAndStart(pid)
            }
        },
        Option::None => StartDecision::Start,
    }
}

/// What `stop` decides from the marker and the liveness probe.
#[derive(Debug, Clone, Copy, PartialEq, Eq, Structural)]
pub enum StopDecision {
    /// No marker exists: nothing to stop.
    NotRunning,
    /// The marker names a dead process: remove the stale marker and
    /// report that nothing was running.
    CleanStale(u32),
    /// A live instance exists: signal it for graceful termination, poll
    /// for exit, escalate to forced termination if needed, then remove the
    /// marker.
    SignalAndWait(u32),
}

/// Decide how to stop: signal a live instance, clean up a stale marker,
/// report when nothing runs.
pub fn stop_decision(marker: Option<u32>, alive: bool) -> (r: StopDecision)
    ensures
        match marker {
            Option::Some(pid) => r == (if alive {
                StopDecision::SignalAndWait(pid)
            } else {
                StopDecision::CleanStale(pid)
            }),
            Option::None => r == StopDecision::NotRunning,
        },
{
    match marker {
        Option::Some(pid) => {
            if alive {
                StopDecision::SignalAndWait(pid)
            } else {
                StopDecision::CleanStale(pid)
            }
        },
        Option::None => StopDecision::NotRunning,
    }
}

/// The wait-conditions the scheduler's loop selects among.
#[derive(Debug, Clone, Copy, PartialEq, Eq, Structural)]
pub enum SchedulerEvent {
    /// The credential-refresh timer is due.
    RefreshDue,
    /// The cache-sync timer is due.
    SyncDue,
    /// Shutdown was requested.
    Shutdown,
}

/// The task the loop performs for one selected event.
#[derive(Debug, Clone, Copy, PartialEq, Eq, Structural)]
pub enum SchedulerAction {
    /// Run a credential-refresh pass to completion.
    RunRefresh,
    /// Run a cache-sync pass to completion.
    RunSync,
    /// Remove the marker and exit the loop.
    RemoveMarkerAndExit,
    /// Do nothing: the loop has already shut down.
    Ignore,
}

/// One step of the scheduler's loop: from the running flag and the
/// selected event to the next running flag and the task to perform. Once
/// shutdown has been requested no timer event produces a task.
pub fn scheduler_step(running: bool, event: SchedulerEvent) -> (r: (bool, SchedulerAction))
    ensures
        !running ==> r == (false, SchedulerAction::Ignore),
        running ==> r == (match event {
            SchedulerEvent::RefreshDue => (true, SchedulerAction::RunRefresh),
            SchedulerEvent::SyncDue => (true, SchedulerAction::RunSync),
            SchedulerEvent::Shutdown => (false, SchedulerAction::RemoveMarkerAndExit),
        }),
{
    if !running {
        (false, SchedulerAction::Ignore)
    } else {
        match event {
            SchedulerEvent::RefreshDue => (true, SchedulerAction::RunRefresh),
            SchedulerEvent::SyncDue => (true, SchedulerAction::RunSync),
            SchedulerEvent::Shutdown => (false, SchedulerAction::RemoveMarkerAndExit),
        }
    }
}

/// Which wait-condition the loop selects next: a requested shutdown
/// first, then the credential-refresh timer, then the sync timer, else
/// nothing is due.
pub fn due_event(shutdown: bool, now: i64, last_refresh: i64, last_sync: i64) -> (r: Option<
    SchedulerEvent,
>)
    ensures
        r == (if shutdown {
            Option::Some(SchedulerEvent::Shutdown)
        } else if now - last_refresh >= TOKEN_REFRESH_INTERVAL_SECS as int {
            Option::Some(SchedulerEvent::RefreshDue)
        } else if now - last_sync >= SYNC_INTERVAL_SECS as int {
            Option::Some(SchedulerEvent::SyncDue)
        } else {
            Option::<SchedulerEvent>::None
        }),
{
    if shutdown {
        Option::Some(SchedulerEvent::Shutdown)
    } else if (now as i128) - (last_refresh as i128) >= TOKEN_REFRESH_INTERVAL_SECS as i128 {
        Option::Some(SchedulerEvent::RefreshDue)
    } else if (now as i128) - (last_sync as i128) >= SYNC_INTERVAL_SECS as i128 {
        Option::Some(SchedulerEvent::SyncDue)
    } else {
        Option::None
    }
}

/// Law: at most one live instance. While a live marker exists, `start`
/// refuses and reports the existing identifier; once the marked process
/// has died, `start` removes the stale marker and proceeds; and `stop`
/// never signals a dead process.
pub proof fn lemma_single_instance(pid: u32)
    ensures
        forall|alive: bool|
            #[trigger] start_decision_spec(Option::Some(pid), alive) == (if alive {
                StartDecision::AlreadyRunning(pid)
            } else {
                StartDecision::CleanStaleAndStart(pid)
            }),
        start_decision_spec(Option::None, true) == StartDecision::Start,
        stop_decision_spec(Option::Some(pid), false) == StopDecision::CleanStale(pid),
{
}

/// What `start_decision` returns.
pub open spec fn start_decision_spec(marker: Option<u32>, alive: bool) -> StartDecision {
    match marker {
        Option::Some(pid) => if alive {
            StartDecision::AlreadyRunning(pid)
        } else {
            StartDecision::CleanStaleAndStart(pid)
        },
        Option::None => StartDecision::Start,
    }
}

/// What `stop_decision` returns.
pub open spec fn stop_decision_spec(marker: Option<u32>, alive: bool) -> StopDecision {
    match marker {
        Option::Some(pid) => if alive {
            StopDecision::SignalAndWait(pid)
        } else {
            StopDecision::CleanStale(pid)
        },
        Option::None => StopDecision::NotRunning,
    }
}

/// Generate a launchd property list for automatic start on login.
pub fn launchd_plist(binary_path: &str) -> (r: String)
    ensures
        r@ == "<?xml version=\"1.0\" encoding=\"UTF-8\"?>\n<!DOCTYPE plist PUBLIC \"-//Apple//DTD PLIST 1.0//EN\" \"http://www.apple.com/DTDs/PropertyList-1.0.dtd\">\n<plist version=\"1.0\">\n<dict>\n    <key>Label</key>\n    <string>de.byteowlz.tmz</string>\n    <key>ProgramArguments</key>\n    <array>\n        <string>"@
            + binary_path@
            + "</string>\n        <string>service</string>\n        <string>run</string>\n    </array>\n    <key>RunAtLoad</key>\n    <true/>\n    <key>KeepAlive</key>\n    <true/>\n    <key>StandardOutPath</key>\n    <string>/tmp/tmz.out.log</string>\n    <key>StandardErrorPath</key>\n    <string>/tmp/tmz.err.log</string>\n    <key>ProcessType</key>\n    <string>Background</string>\n</dict>\n</plist>"@,
{
    String::from_str(
        "<?xml version=\"1.0\" encoding=\"UTF-8\"?>\n<!DOCTYPE plist PUBLIC \"-//Apple//DTD PLIST 1.0//EN\" \"http://www.apple.com/DTDs/PropertyList-1.0.dtd\">\n<plist version=\"1.0\">\n<dict>\n    <key>Label</key>\n    <string>de.byteowlz.tmz</string>\n    <key>ProgramArguments</key>\n    <array>\n        <string>",
    ).concat(binary_path).concat(
        "</string>\n        <string>service</string>\n        <string>run</string>\n    </array>\n    <key>RunAtLoad</key>\n    <true/>\n    <key>KeepAlive</key>\n    <true/>\n    <key>StandardOutPath</key>\n    <string>/tmp/tmz.out.log</string>\n    <key>StandardErrorPath</key>\n    <string>/tmp/tmz.err.log</string>\n    <key>ProcessType</key>\n    <string>Background</string>\n</dict>\n</plist>",
    )
}

/// Generate a systemd user unit for automatic start on login.
pub fn systemd_unit(binary_path: &str) -> (r: String)
    ensures
        r@ == "[Unit]\nDescription=tmz - chat service background daemon\nAfter=network-online.target\nWants=network-online.target\n\n[Service]\nType=simple\nExecStart="@
            + binary_path@
            + " service run\nRestart=on-failure\nRestartSec=10\n\n[Install]\nWantedBy=default.target\n"@,
{
    String::from_str(
        "[Unit]\nDescription=tmz - chat service background daemon\nAfter=network-online.target\nWants=network-online.target\n\n[Service]\nType=simple\nExecStart=",
    ).concat(binary_path).concat(
        " service run\nRestart=on-failure\nRestartSec=10\n\n[Install]\nWantedBy=default.target\n",
    )
}

} // verus!
