//! The synchronisation check: which checks between the plan and the live
//! session failed, and how much confidence each failure costs.
use vstd::prelude::*;

verus! {

/// The observations the synchronisation check is given. The drift flag says whether the
/// measured drift exceeded the tolerated 12 ms.
#[derive(Debug, Clone, Copy, PartialEq, Eq, Structural)]
pub struct SyncChecks {
    pub session_hash_matches: bool,
    pub timeline_hash_matches: bool,
    pub avb_clock_lock_valid: bool,
    pub transport_state_matches_plan: bool,
    pub drift_exceeds_threshold: bool,
}

/// A failed synchronisation check.
#[derive(Debug, Clone, Copy, PartialEq, Eq, Structural)]
pub enum SyncReason {
    SessionHashMismatch,
    TimelineHashMismatch,
    AvbClockUnlock,
    TransportStateMismatch,
    DriftExceedsThreshold,
}

pub open spec fn sync_reason_text(r: SyncReason) -> Seq<char> {
    match r {
        SyncReason::SessionHashMismatch => "session_hash_mismatch"@,
        SyncReason::TimelineHashMismatch => "timeline_hash_mismatch"@,
        SyncReason::AvbClockUnlock => "avb_clock_unlock"@,
        SyncReason::TransportStateMismatch => "transport_state_mismatch"@,
        SyncReason::DriftExceedsThreshold => "drift_exceeds_threshold"@,
    }
}

/// The confidence, in hundredths, a failed check subtracts.
pub open spec fn sync_penalty(r: SyncReason) -> u32 {
    match r {
        SyncReason::SessionHashMismatch => 35,
        SyncReason::TimelineHashMismatch => 30,
        SyncReason::AvbClockUnlock => 25,
        SyncReason::TransportStateMismatch => 20,
        SyncReason::DriftExceedsThreshold => 20,
    }
}

impl SyncReason {
    pub fn code(&self) -> (s: &'static str)
        ensures
            s@ == sync_reason_text(*self),
    {
        match self {
            SyncReason::SessionHashMismatch => "session_hash_mismatch",
            SyncReason::TimelineHashMismatch => "timeline_hash_mismatch",
            SyncReason::AvbClockUnlock => "avb_clock_unlock",
            SyncReason::TransportStateMismatch => "transport_state_mismatch",
            SyncReason::DriftExceedsThreshold => "drift_exceeds_threshold",
        }
    }

    pub fn penalty_pct(&self) -> (p: u32)
        ensures
            p == sync_penalty(*self),
    {
        match self {
            SyncReason::SessionHashMismatch => 35,
            SyncReason::TimelineHashMismatch => 30,
            SyncReason::AvbClockUnlock => 25,
            SyncReason::TransportStateMismatch => 20,
            SyncReason::DriftExceedsThreshold => 20,
        }
    }
}

/// The failed checks, in the order they are examined.
pub open spec fn spec_sync_reasons(c: SyncChecks) -> Seq<SyncReason> {
    let r1 = if !c.session_hash_matches {
        seq![SyncReason::SessionHashMismatch]
    } else {
        Seq::empty()
    };
    let r2 = if !c.timeline_hash_matches {
        r1.push(SyncReason::TimelineHashMismatch)
    } else {
        r1
    };
    let r3 = if !c.avb_clock_lock_valid {
        r2.push(SyncReason::AvbClockUnlock)
    } else {
        r2
    };
    let r4 = if !c.transport_state_matches_plan {
        r3.push(SyncReason::TransportStateMismatch)
    } else {
        r3
    };
    if c.drift_exceeds_threshold {
        r4.push(SyncReason::DriftExceedsThreshold)
    } else {
        r4
    }
}

pub fn sync_reasons(checks: &SyncChecks) -> (reasons: Vec<SyncReason>)
    ensures
        reasons@ == spec_sync_reasons(*checks),
{
    let mut reasons: Vec<SyncReason> = Vec::new();
    if !checks.session_hash_matches {
        reasons.push(SyncReason::SessionHashMismatch);
    }
    if !checks.timeline_hash_matches {
        reasons.push(SyncReason::TimelineHashMismatch);
    }
    if !checks.avb_clock_lock_valid {
        reasons.push(SyncReason::AvbClockUnlock);
    }
    if !checks.transport_state_matches_plan {
        reasons.push(SyncReason::TransportStateMismatch);
    }
    if checks.drift_exceeds_threshold {
        reasons.push(SyncReason::DriftExceedsThreshold);
    }
    assert(reasons@ =~= spec_sync_reasons(*checks));
    reasons
}

/// The synchronisation check can only pass when every check holds: each failed check leaves a
/// reason behind, and a clean session leaves none.
pub proof fn lemma_sync_reasons_empty_iff_all_hold(c: SyncChecks)
    ensures
        spec_sync_reasons(c).len() == 0 <==> (c.session_hash_matches && c.timeline_hash_matches
            && c.avb_clock_lock_valid && c.transport_state_matches_plan
            && !c.drift_exceeds_threshold),
        !c.avb_clock_lock_valid ==> spec_sync_reasons(c).contains(SyncReason::AvbClockUnlock),
{
    if !c.avb_clock_lock_valid {
        let s = spec_sync_reasons(c);
        let r1 = if !c.session_hash_matches {
            seq![SyncReason::SessionHashMismatch]
        } else {
            Seq::empty()
        };
        let r2 = if !c.timeline_hash_matches {
            r1.push(SyncReason::TimelineHashMismatch)
        } else {
            r1
        };
        let r3 = r2.push(SyncReason::AvbClockUnlock);
        assert(r3[r2.len() as int] == SyncReason::AvbClockUnlock);
        assert(s[r2.len() as int] == SyncReason::AvbClockUnlock);
    }
}

} // verus!
