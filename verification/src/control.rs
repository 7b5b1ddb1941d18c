//! The pre-write safety checklist and the recording backend used in dry runs.
use vstd::prelude::*;
use vstd::string::*;

use crate::text::{append_str, decimal_text, push_decimal};

verus! {

/// The conditions that must all hold before an automation pass may write.
#[derive(Debug, Clone, Copy, PartialEq, Eq, Structural)]
pub struct PrepassState {
    pub control_path_live: bool,
    pub sync_confidence_valid: bool,
    pub correct_strip_bank_verified: bool,
    pub target_lanes_verified: bool,
    pub dp_transport_state_verified: bool,
    pub undo_anchor_captured: bool,
    pub pass_plan_validated: bool,
    pub undo_path_available: bool,
}

/// The first checklist item that failed.
#[derive(Debug, Clone, Copy, PartialEq, Eq, Structural)]
pub enum PrepassFailure {
    ControlPathLive,
    SyncConfidenceValid,
    CorrectStripBankVerified,
    TargetLanesVerified,
    DpTransportStateVerified,
    UndoAnchorCaptured,
    PassPlanValidated,
    UndoPathAvailable,
}

pub open spec fn prepass_failure_text(f: PrepassFailure) -> Seq<char> {
    match f {
        PrepassFailure::ControlPathLive => "control_path_live=false"@,
        PrepassFailure::SyncConfidenceValid => "sync_confidence_valid=false"@,
        PrepassFailure::CorrectStripBankVerified => "correct_strip_bank_verified=false"@,
        PrepassFailure::TargetLanesVerified => "target_lanes_verified=false"@,
        PrepassFailure::DpTransportStateVerified => "dp_transport_state_verified=false"@,
        PrepassFailure::UndoAnchorCaptured => "undo_anchor_captured=false"@,
        PrepassFailure::PassPlanValidated => "pass_plan_validated=false"@,
        PrepassFailure::UndoPathAvailable => "undo_path_available=false"@,
    }
}

impl PrepassFailure {
    /// The error text reported for this failure.
    pub fn message(&self) -> (s: &'static str)
        ensures
            s@ == prepass_failure_text(*self),
    {
        match self {
            PrepassFailure::ControlPathLive => "control_path_live=false",
            PrepassFailure::SyncConfidenceValid => "sync_confidence_valid=false",
            PrepassFailure::CorrectStripBankVerified => "correct_strip_bank_verified=false",
            PrepassFailure::TargetLanesVerified => "target_lanes_verified=false",
            PrepassFailure::DpTransportStateVerified => "dp_transport_state_verified=false",
            PrepassFailure::UndoAnchorCaptured => "undo_anchor_captured=false",
            PrepassFailure::PassPlanValidated => "pass_plan_validated=false",
            PrepassFailure::UndoPathAvailable => "undo_path_available=false",
        }
    }
}

/// The first item of the checklist, in its fixed order, that does not hold.
pub open spec fn first_prepass_failure(s: PrepassState) -> Option<PrepassFailure> {
    if !s.control_path_live {
        Some(PrepassFailure::ControlPathLive)
    } else if !s.sync_confidence_valid {
        Some(PrepassFailure::SyncConfidenceValid)
    } else if !s.correct_strip_bank_verified {
        Some(PrepassFailure::CorrectStripBankVerified)
    } else if !s.target_lanes_verified {
        Some(PrepassFailure::TargetLanesVerified)
    } else if !s.dp_transport_state_verified {
        Some(PrepassFailure::DpTransportStateVerified)
    } else if !s.undo_anchor_captured {
        Some(PrepassFailure::UndoAnchorCaptured)
    } else if !s.pass_plan_validated {
        Some(PrepassFailure::PassPlanValidated)
    } else if !s.undo_path_available {
        Some(PrepassFailure::UndoPathAvailable)
    } else {
        None
    }
}

pub open spec fn prepass_all_clear(s: PrepassState) -> bool {
    &&& s.control_path_live
    &&& s.sync_confidence_valid
    &&& s.correct_strip_bank_verified
    &&& s.target_lanes_verified
    &&& s.dp_transport_state_verified
    &&& s.undo_anchor_captured
    &&& s.pass_plan_validated
    &&& s.undo_path_available
}

/// Accepts the checklist only when every item holds; otherwise reports the
/// first item that does not.
pub fn validate_prepass(state: &PrepassState) -> (r: Result<(), PrepassFailure>)
    ensures
        r is Ok <==> prepass_all_clear(*state),
        r matches Err(f) ==> first_prepass_failure(*state) == Some(f),
        r is Ok ==> first_prepass_failure(*state) is None,
{
    if !state.control_path_live {
        return Err(PrepassFailure::ControlPathLive);
    }
    if !state.sync_confidence_valid {
        return Err(PrepassFailure::SyncConfidenceValid);
    }
    if !state.correct_strip_bank_verified {
        return Err(PrepassFailure::CorrectStripBankVerified);
    }
    if !state.target_lanes_verified {
        return Err(PrepassFailure::TargetLanesVerified);
    }
    if !state.dp_transport_state_verified {
        return Err(PrepassFailure::DpTransportStateVerified);
    }
    if !state.undo_anchor_captured {
        return Err(PrepassFailure::UndoAnchorCaptured);
    }
    if !state.pass_plan_validated {
        return Err(PrepassFailure::PassPlanValidated);
    }
    if !state.undo_path_available {
        return Err(PrepassFailure::UndoPathAvailable);
    }
    Ok(())
}

/// Refusing any single checklist item blocks the write.
pub proof fn lemma_any_missing_item_blocks(s: PrepassState)
    ensures
        first_prepass_failure(s) is None <==> prepass_all_clear(s),
{
}

/// Why the recording backend refused an undo.
#[derive(Debug, Clone, Copy, PartialEq, Eq, Structural)]
pub enum MockError {
    PrimaryUndoFailed,
}

impl MockError {
    pub fn message(&self) -> (s: &'static str)
        ensures
            s@ == "primary_undo_failed"@,
    {
        "primary_undo_failed"
    }
}

/// A control backend that records what it is asked to do instead of sending
/// it anywhere.
#[derive(Debug, Clone)]
pub struct MockBackend {
    pub log: Vec<String>,
    pub fail_primary_undo: bool,
}

pub open spec fn log_view(log: Seq<String>) -> Seq<Seq<char>> {
    log.map_values(|s: String| s@)
}

impl Default for MockBackend {
    fn default() -> (m: MockBackend)
        ensures
            m.log@.len() == 0,
            !m.fail_primary_undo,
    {
        MockBackend { log: Vec::new(), fail_primary_undo: false }
    }
}

impl MockBackend {
    fn record(&mut self, line: String)
        ensures
            final(self).fail_primary_undo == old(self).fail_primary_undo,
            log_view(final(self).log@) == log_view(old(self).log@).push(line@),
    {
        self.log.push(line);
        assert(log_view(self.log@) =~= log_view(old(self).log@).push(line@));
    }

    /// Records `begin_touch:<target>`.
    pub fn begin_touch(&mut self, target: &str) -> (r: Result<(), MockError>)
        ensures
            r is Ok,
            final(self).fail_primary_undo == old(self).fail_primary_undo,
            log_view(final(self).log@) == log_view(old(self).log@).push("begin_touch:"@ + target@),
    {
        let mut line = String::from_str("begin_touch:");
        append_str(&mut line, target);
        self.record(line);
        Ok(())
    }

    /// Records `write:<target>:<value>:<at_ms>`, the value already formatted
    /// with three decimals.
    pub fn write_value(&mut self, target: &str, value_text: &str, at_ms: u64) -> (r: Result<
        (),
        MockError,
    >)
        ensures
            r is Ok,
            final(self).fail_primary_undo == old(self).fail_primary_undo,
            log_view(final(self).log@) == log_view(old(self).log@).push(
                "write:"@ + target@ + ":"@ + value_text@ + ":"@ + decimal_text(at_ms as nat),
            ),
    {
        let mut line = String::from_str("write:");
        append_str(&mut line, target);
        append_str(&mut line, ":");
        append_str(&mut line, value_text);
        append_str(&mut line, ":");
        push_decimal(&mut line, at_ms);
        self.record(line);
        Ok(())
    }

    /// Records `end_touch:<target>`.
    pub fn end_touch(&mut self, target: &str) -> (r: Result<(), MockError>)
        ensures
            r is Ok,
            final(self).fail_primary_undo == old(self).fail_primary_undo,
            log_view(final(self).log@) == log_view(old(self).log@).push("end_touch:"@ + target@),
    {
        let mut line = String::from_str("end_touch:");
        append_str(&mut line, target);
        self.record(line);
        Ok(())
    }

    /// Records `undo_primary`, and fails when the backend is set to refuse it.
    pub fn trigger_undo_primary(&mut self) -> (r: Result<(), MockError>)
        ensures
            r is Ok <==> !old(self).fail_primary_undo,
            r matches Err(e) ==> e == MockError::PrimaryUndoFailed,
            final(self).fail_primary_undo == old(self).fail_primary_undo,
            log_view(final(self).log@) == log_view(old(self).log@).push("undo_primary"@),
    {
        self.record(String::from_str("undo_primary"));
        if self.fail_primary_undo {
            return Err(MockError::PrimaryUndoFailed);
        }
        Ok(())
    }

    /// Records `undo_fallback`.
    pub fn trigger_undo_fallback(&mut self) -> (r: Result<(), MockError>)
        ensures
            r is Ok,
            final(self).fail_primary_undo == old(self).fail_primary_undo,
            log_view(final(self).log@) == log_view(old(self).log@).push("undo_fallback"@),
    {
        self.record(String::from_str("undo_fallback"));
        Ok(())
    }
}


/// One step of an automation pass over `lanes` targets and `points` curve
/// points: touch a target, write one point on it, or release it. Targets
/// and points are given by their positions.
#[derive(Debug, Clone, Copy, PartialEq, Eq, Structural)]
pub enum PassStep {
    Begin(usize),
    Write(usize, usize),
    End(usize),
}

/// The writes of the first `points` curve points: point by point, each on
/// every target in target order.
pub open spec fn write_rows(lanes: nat, points: nat) -> Seq<PassStep>
    decreases points,
{
    if points == 0 {
        Seq::empty()
    } else {
        write_rows(lanes, (points - 1) as nat) + Seq::new(
            lanes,
            |l: int| PassStep::Write(l as usize, (points - 1) as usize),
        )
    }
}

/// A whole pass: every target touched, then the writes, then every target
/// released.
pub open spec fn spec_pass_schedule(lanes: nat, points: nat) -> Seq<PassStep> {
    Seq::new(lanes, |l: int| PassStep::Begin(l as usize)) + write_rows(lanes, points) + Seq::new(
        lanes,
        |l: int| PassStep::End(l as usize),
    )
}

/// The order in which an automation pass touches, writes and releases its
/// targets.
pub fn pass_schedule(lanes: usize, points: usize) -> (steps: Vec<PassStep>)
    ensures
        steps@ == spec_pass_schedule(lanes as nat, points as nat),
{
    let mut steps: Vec<PassStep> = Vec::new();
    let mut l: usize = 0;
    while l < lanes
        invariant
            l <= lanes,
            steps@ == Seq::new(l as nat, |k: int| PassStep::Begin(k as usize)),
        decreases lanes - l,
    {
        steps.push(PassStep::Begin(l));
        l += 1;
        assert(steps@ =~= Seq::new(l as nat, |k: int| PassStep::Begin(k as usize)));
    }
    let ghost begins = steps@;
    let mut p: usize = 0;
    while p < points
        invariant
            p <= points,
            begins == Seq::new(lanes as nat, |k: int| PassStep::Begin(k as usize)),
            steps@ == begins + write_rows(lanes as nat, p as nat),
        decreases points - p,
    {
        let ghost row_start = steps@;
        let mut m: usize = 0;
        while m < lanes
            invariant
                m <= lanes,
                p < points,
                steps@ == row_start + Seq::new(m as nat, |k: int| PassStep::Write(k as usize, p)),
            decreases lanes - m,
        {
            steps.push(PassStep::Write(m, p));
            m += 1;
            assert(steps@ =~= row_start + Seq::new(
                m as nat,
                |k: int| PassStep::Write(k as usize, p),
            ));
        }
        assert(write_rows(lanes as nat, (p + 1) as nat) =~= write_rows(lanes as nat, p as nat)
            + Seq::new(lanes as nat, |k: int| PassStep::Write(k as usize, p)));
        p += 1;
        assert(steps@ =~= begins + write_rows(lanes as nat, p as nat));
    }
    let ghost writes_done = steps@;
    let mut e: usize = 0;
    while e < lanes
        invariant
            e <= lanes,
            steps@ == writes_done + Seq::new(e as nat, |k: int| PassStep::End(k as usize)),
        decreases lanes - e,
    {
        steps.push(PassStep::End(e));
        e += 1;
        assert(steps@ =~= writes_done + Seq::new(e as nat, |k: int| PassStep::End(k as usize)));
    }
    steps
}

proof fn lemma_write_rows_index(lanes: nat, points: nat)
    ensures
        write_rows(lanes, points).len() == lanes * points,
        forall|q: int, l: int|
            0 <= q < points && 0 <= l < lanes ==> #[trigger] write_rows(lanes, points)[q * lanes
                + l] == PassStep::Write(l as usize, q as usize),
    decreases points,
{
    if points > 0 {
        let pp = (points - 1) as nat;
        lemma_write_rows_index(lanes, pp);
        assert(lanes * points == lanes * pp + lanes) by (nonlinear_arith)
            requires
                pp == points - 1,
        ;
        let w = write_rows(lanes, points);
        let prev = write_rows(lanes, pp);
        assert(w.len() == prev.len() + lanes);
        assert(pp * lanes == lanes * pp) by (nonlinear_arith);
        assert forall|q: int, l: int|
            0 <= q < points && 0 <= l < lanes implies #[trigger] w[q * lanes + l]
            == PassStep::Write(l as usize, q as usize) by {
            if q < pp {
                assert(q * lanes + l < lanes * pp) by (nonlinear_arith)
                    requires
                        q < pp,
                        l < lanes,
                ;
                assert(w[q * lanes + l] == prev[q * lanes + l]);
            } else {
                assert(q * lanes + l == pp * lanes + l) by (nonlinear_arith)
                    requires
                        q == pp,
                ;
                assert(pp * lanes == lanes * pp) by (nonlinear_arith);
            }
        }
    } else {
        assert(lanes * points == 0) by (nonlinear_arith)
            requires
                points == 0,
        ;
    }
}

/// The pass protocol: it has a step for every touch, write and release
/// (`lanes * (points + 2)` steps); target `l` is touched at step `l`, before
/// any of its writes; point `p` is written on target `l` exactly at step
/// `lanes + p * lanes + l`; and every target is released after all writes.
pub proof fn lemma_pass_touches_before_writes_and_releases_after(lanes: nat, points: nat)
    ensures
        spec_pass_schedule(lanes, points).len() == lanes * (points + 2),
        forall|l: int|
            0 <= l < lanes ==> #[trigger] spec_pass_schedule(lanes, points)[l] == PassStep::Begin(
                l as usize,
            ),
        forall|p: int, l: int|
            0 <= p < points && 0 <= l < lanes ==> #[trigger] spec_pass_schedule(lanes, points)[lanes
                + p * lanes + l] == PassStep::Write(l as usize, p as usize),
        forall|l: int|
            0 <= l < lanes ==> #[trigger] spec_pass_schedule(lanes, points)[lanes + lanes * points
                + l] == PassStep::End(l as usize),
        forall|k: int|
            0 <= k < spec_pass_schedule(lanes, points).len() ==> (#[trigger] spec_pass_schedule(
                lanes,
                points,
            )[k] matches PassStep::Write(l, p) ==> l < lanes && p < points && l < k && k < lanes
                + lanes * points + l),
{
    lemma_write_rows_index(lanes, points);
    let s = spec_pass_schedule(lanes, points);
    let w = write_rows(lanes, points);
    assert(lanes * (points + 2) == lanes + lanes * points + lanes) by (nonlinear_arith);
    assert forall|p: int, l: int| 0 <= p < points && 0 <= l < lanes implies #[trigger] s[lanes + p
        * lanes + l] == PassStep::Write(l as usize, p as usize) by {
        assert(p * lanes + l < lanes * points) by (nonlinear_arith)
            requires
                p < points,
                l < lanes,
        ;
        assert(s[lanes + p * lanes + l] == w[p * lanes + l]);
    }
    assert forall|k: int| 0 <= k < s.len() implies (#[trigger] s[k] matches PassStep::Write(l, p)
        ==> l < lanes && p < points && l < k && k < lanes + lanes * points + l) by {
        if lanes <= k < lanes + lanes * points {
            let j = k - lanes;
            let q = j / (lanes as int);
            let r = j % (lanes as int);
            assert(lanes > 0) by (nonlinear_arith)
                requires
                    0 <= j < lanes * points,
            ;
            assert(j == q * lanes + r && 0 <= r < lanes && 0 <= q < points) by (nonlinear_arith)
                requires
                    q == j / (lanes as int),
                    r == j % (lanes as int),
                    lanes > 0,
                    0 <= j < lanes * points,
            ;
            assert(s[k] == w[q * lanes + r]);
            assert(r <= j);
        }
    }
}

} // verus!
