//! Capture gate: holds the last accepted digest and the time of the last
//! accepted capture, and decides whether a new digest is worth the expensive
//! downstream pipeline.
//!
//! Time enters as a caller-supplied reading of a monotonic clock, in seconds,
//! so the decision itself is a pure transition over the stored state.

use vstd::prelude::*;
use vstd::slice::slice_to_vec;

use crate::fingerprint::spec_change_rate;
use crate::fingerprint::calc_change_rate;

verus! {

/// Stores the last accepted thumbnail digest and the clock reading of the
/// last accepted capture.
pub struct ScreenState {
    pub last_fingerprint: Option<Vec<u8>>,
    /// Seconds on the caller's monotonic clock at the last accepted capture.
    pub last_capture_time: u64,
}

/// Mathematical model of the capture-gate state.
#[verifier::ext_equal]
pub struct GateView {
    pub last_fingerprint: Option<Seq<u8>>,
    pub last_capture_time: u64,
}

impl View for ScreenState {
    type V = GateView;

    open spec fn view(&self) -> GateView {
        GateView {
            last_fingerprint: match self.last_fingerprint {
                Some(v) => Some(v@),
                None => None,
            },
            last_capture_time: self.last_capture_time,
        }
    }
}

/// Whole minutes elapsed between the last accepted capture and `now`.
/// A clock reading older than the stored one counts as no time passed.
pub open spec fn elapsed_minutes(last: u64, now: u64) -> int {
    if now >= last {
        (now - last) / 60
    } else {
        0
    }
}

/// Whether the new digest reads as changed: with no prior digest recorded the
/// first evaluation always does; otherwise the change rate against the prior
/// digest must reach the threshold (in hundredths of a percent).
pub open spec fn gate_changed(g: GateView, fingerprint: Seq<u8>, change_threshold: u32) -> bool {
    match g.last_fingerprint {
        None => true,
        Some(prev) => spec_change_rate(prev, fingerprint) >= change_threshold,
    }
}

/// Whether the silence window is over: at least `max_silent_minutes` whole
/// minutes have passed since the last accepted capture.
pub open spec fn gate_silent_exceeded(g: GateView, now: u64, max_silent_minutes: u64) -> bool {
    elapsed_minutes(g.last_capture_time, now) >= max_silent_minutes
}

/// The capture decision: proceed on a changed digest, or force a heartbeat
/// capture once the silence window is over.
pub open spec fn gate_decide(
    g: GateView,
    fingerprint: Seq<u8>,
    now: u64,
    change_threshold: u32,
    max_silent_minutes: u64,
) -> bool {
    gate_changed(g, fingerprint, change_threshold) || gate_silent_exceeded(
        g,
        now,
        max_silent_minutes,
    )
}

/// The state after one evaluation: a proceed records the new digest and
/// resets the clock before any downstream work; a rejection leaves the state
/// untouched, so the next evaluation compares against the same baseline.
pub open spec fn gate_step(
    g: GateView,
    fingerprint: Seq<u8>,
    now: u64,
    change_threshold: u32,
    max_silent_minutes: u64,
) -> GateView {
    if gate_decide(g, fingerprint, now, change_threshold, max_silent_minutes) {
        GateView { last_fingerprint: Some(fingerprint), last_capture_time: now }
    } else {
        g
    }
}

impl ScreenState {
    /// Fresh gate state: no digest recorded yet, clock starting at `now`.
    pub fn new(now: u64) -> (s: ScreenState)
        ensures
            s@.last_fingerprint is None,
            s@.last_capture_time == now,
    {
        ScreenState { last_fingerprint: None, last_capture_time: now }
    }

    /// Determine whether the screen has changed enough to warrant a new
    /// capture, or whether a heartbeat capture is due. Returns `true` if the
    /// full capture-and-analysis pipeline should proceed; the state update
    /// happens here, before any downstream work, so an immediately following
    /// evaluation cannot double-trigger on the same change.
    pub fn should_capture(
        &mut self,
        fingerprint: &[u8],
        change_threshold: u32,
        max_silent_minutes: u64,
        now: u64,
    ) -> (proceed: bool)
        ensures
            proceed == gate_decide(
                old(self)@,
                fingerprint@,
                now,
                change_threshold,
                max_silent_minutes,
            ),
            final(self)@ =~= gate_step(
                old(self)@,
                fingerprint@,
                now,
                change_threshold,
                max_silent_minutes,
            ),
    {
        let elapsed: u64 = if now >= self.last_capture_time {
            now - self.last_capture_time
        } else {
            0
        };
        let silent_exceeded = elapsed / 60 >= max_silent_minutes;

        let changed = match &self.last_fingerprint {
            None => true,
            Some(prev) => calc_change_rate(prev.as_slice(), fingerprint) >= change_threshold,
        };

        if changed || silent_exceeded {
            self.last_fingerprint = Some(slice_to_vec(fingerprint));
            self.last_capture_time = now;
            true
        } else {
            false
        }
    }
}

/// With no prior digest recorded, the first evaluation always proceeds and
/// records the sample, whatever the threshold and silence window are.
pub proof fn lemma_first_capture_always_proceeds(
    g: GateView,
    fingerprint: Seq<u8>,
    now: u64,
    change_threshold: u32,
    max_silent_minutes: u64,
)
    requires
        g.last_fingerprint is None,
    ensures
        gate_decide(g, fingerprint, now, change_threshold, max_silent_minutes),
        gate_step(g, fingerprint, now, change_threshold, max_silent_minutes)
            == (GateView { last_fingerprint: Some(fingerprint), last_capture_time: now }),
{
}

/// A rejected sample leaves the stored baseline untouched: with an unchanged
/// digest and the silence window still open, the evaluation refuses and keeps both
/// the prior digest and the prior clock reading, so a later evaluation still
/// compares against the original baseline rather than the rejected sample.
pub proof fn lemma_rejection_keeps_baseline(
    g: GateView,
    prev: Seq<u8>,
    fingerprint: Seq<u8>,
    now: u64,
    change_threshold: u32,
    max_silent_minutes: u64,
)
    requires
        g.last_fingerprint == Some(prev),
        spec_change_rate(prev, fingerprint) < change_threshold,
        elapsed_minutes(g.last_capture_time, now) < max_silent_minutes,
    ensures
        !gate_decide(g, fingerprint, now, change_threshold, max_silent_minutes),
        gate_step(g, fingerprint, now, change_threshold, max_silent_minutes) == g,
{
}

/// The forced heartbeat fires exactly once per silence window: an unchanged
/// digest still proceeds once the window is over, that proceed resets the
/// clock to `now`, and an unchanged follow-up inside the fresh window is
/// rejected again.
pub proof fn lemma_heartbeat_once_per_window(
    g: GateView,
    prev: Seq<u8>,
    fp1: Seq<u8>,
    fp2: Seq<u8>,
    now1: u64,
    now2: u64,
    change_threshold: u32,
    max_silent_minutes: u64,
)
    requires
        g.last_fingerprint == Some(prev),
        spec_change_rate(prev, fp1) < change_threshold,
        elapsed_minutes(g.last_capture_time, now1) >= max_silent_minutes,
        spec_change_rate(fp1, fp2) < change_threshold,
        elapsed_minutes(now1, now2) < max_silent_minutes,
    ensures
        gate_decide(g, fp1, now1, change_threshold, max_silent_minutes),
        gate_step(g, fp1, now1, change_threshold, max_silent_minutes).last_capture_time == now1,
        !gate_decide(
            gate_step(g, fp1, now1, change_threshold, max_silent_minutes),
            fp2,
            now2,
            change_threshold,
            max_silent_minutes,
        ),
{
}

} // verus!
