//! Capture scheduler lifecycle: the run/stop flag and the decisions around
//! it. The periodic loop itself (spawning, sleeping, performing a cycle) is
//! outside work; everything it decides — whether starting is a no-op, whether
//! the loop may run another cycle — is a pure transition over this state.

use vstd::prelude::*;

use crate::errors::CaptureError;
use crate::settings::CaptureSettings;

verus! {

/// Process-wide scheduler state: whether the periodic capture loop runs.
pub struct AppState {
    pub auto_capture_running: bool,
}

/// What a `start` request decided.
#[derive(Debug, Clone, Copy, PartialEq, Eq, Structural)]
pub enum StartOutcome {
    /// The loop already runs; the request is a no-op and no second loop may
    /// be launched.
    AlreadyRunning,
    /// No credential is configured; the loop is not started.
    MissingApiKey,
    /// The loop was not running and may now be launched exactly once.
    Started,
}

/// The outcome a `start` request has for a given flag state and credential.
pub open spec fn start_decision(running: bool, api_key: Seq<char>) -> StartOutcome {
    if running {
        StartOutcome::AlreadyRunning
    } else if api_key.len() == 0 {
        StartOutcome::MissingApiKey
    } else {
        StartOutcome::Started
    }
}

/// The running flag after a `start` request.
pub open spec fn start_next(running: bool, api_key: Seq<char>) -> bool {
    if running {
        true
    } else {
        api_key.len() > 0
    }
}

impl AppState {
    /// Request the periodic capture loop to start. Idempotent: while the loop
    /// already runs this is a no-op, so no duplicate background loop can be
    /// launched. Without a configured credential nothing starts.
    pub fn start_auto_capture(&mut self, api_key: &str) -> (o: StartOutcome)
        ensures
            o == start_decision(old(self).auto_capture_running, api_key@),
            final(self).auto_capture_running == start_next(
                old(self).auto_capture_running,
                api_key@,
            ),
    {
        if self.auto_capture_running {
            StartOutcome::AlreadyRunning
        } else if api_key.unicode_len() == 0 {
            StartOutcome::MissingApiKey
        } else {
            self.auto_capture_running = true;
            StartOutcome::Started
        }
    }

    /// Clear the running flag. The loop observes this at its next check point
    /// and terminates; a cycle already in progress is not interrupted.
    pub fn stop_auto_capture(&mut self)
        ensures
            !final(self).auto_capture_running,
    {
        self.auto_capture_running = false;
    }

    /// The check the loop makes before each cycle: continue exactly while the
    /// running flag is set.
    pub fn should_run_next_cycle(&self) -> (r: bool)
        ensures
            r == self.auto_capture_running,
    {
        self.auto_capture_running
    }
}

impl Default for AppState {
    /// Initial state: the loop is not running.
    fn default() -> (s: AppState)
        ensures
            !s.auto_capture_running,
    {
        AppState { auto_capture_running: false }
    }
}

/// The check a capture cycle makes before any outside work: without a
/// configured credential the cycle fails at once with `MissingApiKey`,
/// with one it may proceed.
pub fn cycle_precheck(settings: &CaptureSettings) -> (r: Result<(), CaptureError>)
    ensures
        settings.api_key@.len() == 0 ==> (r matches Err(e) && e is MissingApiKey),
        settings.api_key@.len() > 0 ==> r is Ok,
{
    if settings.api_key.unicode_len() == 0 {
        Err(CaptureError::MissingApiKey)
    } else {
        Ok(())
    }
}

/// Starting is idempotent: once a `start` request has left the loop running,
/// any further `start` request reports `AlreadyRunning` and changes nothing,
/// whatever credential it carries — so two starts in a row launch one loop.
pub proof fn lemma_start_twice_is_noop(
    running: bool,
    api_key1: Seq<char>,
    api_key2: Seq<char>,
)
    requires
        start_next(running, api_key1),
    ensures
        start_decision(start_next(running, api_key1), api_key2) == StartOutcome::AlreadyRunning,
        start_next(start_next(running, api_key1), api_key2),
{
}

} // verus!
