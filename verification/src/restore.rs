//! Restoring the automation to the state captured before a pass: the undo
//! anchor, and the order in which the undo paths are tried and checked.
use vstd::prelude::*;
use vstd::string::*;

use crate::ids::{utc_now, uuid_v4_shape, uuid_v4_text, UtcInstant};
use crate::text::append_str;

verus! {

/// The point a pass can be undone to.
#[derive(Debug, Clone)]
pub struct UndoAnchor {
    pub anchor_id: String,
    pub captured_at: UtcInstant,
    pub command_id: String,
}

/// The steps of a restore.
#[derive(Debug, Clone, Copy, PartialEq, Eq, Structural)]
pub enum UndoStep {
    Primary,
    Fallback,
    Verify,
}

/// What undoes a pass: a primary undo path, a fallback path, and a check
/// that the undo took effect. Each reports failure with a message.
///
/// An executor that keeps a record (`keeps_record`) shows in `answers` the
/// steps it was asked so far, each with what it answered; every call adds
/// its own answer to the record. An executor that keeps none (the default,
/// as for one written outside the verified crate) promises nothing of it.
pub trait UndoExecutor {
    open spec fn keeps_record() -> bool {
        false
    }

    open spec fn answers(&self) -> Seq<(UndoStep, Result<(), Seq<char>>)> {
        Seq::empty()
    }

    fn undo_primary(&mut self) -> (r: Result<(), String>)
        ensures
            Self::keeps_record() ==> final(self).answers() == old(self).answers().push(
                (UndoStep::Primary, unit_result_view(r)),
            ),
    ;

    fn undo_fallback(&mut self) -> (r: Result<(), String>)
        ensures
            Self::keeps_record() ==> final(self).answers() == old(self).answers().push(
                (UndoStep::Fallback, unit_result_view(r)),
            ),
    ;

    fn verify_post_undo(&mut self) -> (r: Result<(), String>)
        ensures
            Self::keeps_record() ==> final(self).answers() == old(self).answers().push(
                (UndoStep::Verify, unit_result_view(r)),
            ),
    ;
}

/// Captures an anchor for a command: a fresh random id and the current time.
pub fn capture_undo_anchor(command_id: &str) -> (a: UndoAnchor)
    ensures
        a.command_id@ == command_id@,
        uuid_v4_shape(a.anchor_id@),
        a.captured_at.nanos < 1_000_000_000,
{
    let id = uuid_v4_text();
    let captured_at = utc_now();
    UndoAnchor { anchor_id: id, captured_at, command_id: String::from_str(command_id) }
}

/// Why a restore failed, with the anchor and the message of the failing
/// step.
#[derive(Debug, Clone)]
pub enum RestoreError {
    /// The primary and the fallback undo paths both failed; `cause` is the
    /// fallback's message.
    UndoFailed { anchor_id: String, cause: String },
    /// The undo ran but the check after it failed.
    VerificationFailed { anchor_id: String, cause: String },
}

pub ghost enum RestoreErrorView {
    UndoFailed { anchor_id: Seq<char>, cause: Seq<char> },
    VerificationFailed { anchor_id: Seq<char>, cause: Seq<char> },
}

impl View for RestoreError {
    type V = RestoreErrorView;

    open spec fn view(&self) -> RestoreErrorView {
        match self {
            RestoreError::UndoFailed { anchor_id, cause } => RestoreErrorView::UndoFailed {
                anchor_id: anchor_id@,
                cause: cause@,
            },
            RestoreError::VerificationFailed { anchor_id, cause } =>
                RestoreErrorView::VerificationFailed { anchor_id: anchor_id@, cause: cause@ },
        }
    }
}

pub open spec fn restore_error_text(e: RestoreErrorView) -> Seq<char> {
    match e {
        RestoreErrorView::UndoFailed { anchor_id, cause } =>
            "undo failed: primary_and_fallback_failed for anchor "@ + anchor_id + ": "@ + cause,
        RestoreErrorView::VerificationFailed { anchor_id, cause } =>
            "undo verification failed for anchor "@ + anchor_id + ": "@ + cause,
    }
}

impl RestoreError {
    pub fn message(&self) -> (m: String)
        ensures
            m@ == restore_error_text(self@),
    {
        match self {
            RestoreError::UndoFailed { anchor_id, cause } => {
                let mut m = String::from_str("undo failed: primary_and_fallback_failed for anchor ");
                append_str(&mut m, anchor_id.as_str());
                append_str(&mut m, ": ");
                append_str(&mut m, cause.as_str());
                m
            },
            RestoreError::VerificationFailed { anchor_id, cause } => {
                let mut m = String::from_str("undo verification failed for anchor ");
                append_str(&mut m, anchor_id.as_str());
                append_str(&mut m, ": ");
                append_str(&mut m, cause.as_str());
                m
            },
        }
    }
}

pub open spec fn unit_result_view(r: Result<(), String>) -> Result<(), Seq<char>> {
    match r {
        Ok(()) => Ok(()),
        Err(e) => Err(e@),
    }
}

pub open spec fn opt_result_view(r: Option<Result<(), String>>) -> Option<Result<(), Seq<char>>> {
    match r {
        Some(x) => Some(unit_result_view(x)),
        None => None,
    }
}

/// The steps a restore runs, given what the primary path answered: the
/// fallback runs exactly when the primary failed, and the check runs
/// exactly when one of the two undo paths succeeded.
pub open spec fn restore_protocol(
    primary: Result<(), Seq<char>>,
    fallback: Option<Result<(), Seq<char>>>,
    verify: Option<Result<(), Seq<char>>>,
) -> bool {
    &&& (fallback is Some <==> primary is Err)
    &&& (verify is Some <==> (primary is Ok || fallback == Some(Ok::<(), Seq<char>>(()))))
}

/// The record a restore leaves: the primary's answer, then the fallback's
/// and the check's where they ran.
pub open spec fn protocol_log(
    primary: Result<(), Seq<char>>,
    fallback: Option<Result<(), Seq<char>>>,
    verify: Option<Result<(), Seq<char>>>,
) -> Seq<(UndoStep, Result<(), Seq<char>>)> {
    seq![(UndoStep::Primary, primary)] + match fallback {
        Some(x) => seq![(UndoStep::Fallback, x)],
        None => Seq::empty(),
    } + match verify {
        Some(y) => seq![(UndoStep::Verify, y)],
        None => Seq::empty(),
    }
}

/// The outcome of a restore from what its steps answered.
pub open spec fn spec_restore_outcome(
    anchor_id: Seq<char>,
    primary: Result<(), Seq<char>>,
    fallback: Option<Result<(), Seq<char>>>,
    verify: Option<Result<(), Seq<char>>>,
) -> Result<(), RestoreErrorView> {
    match fallback {
        Some(Err(cause)) => Err(RestoreErrorView::UndoFailed { anchor_id, cause }),
        _ => match verify {
            Some(Err(cause)) => Err(RestoreErrorView::VerificationFailed { anchor_id, cause }),
            _ => Ok(()),
        },
    }
}

pub open spec fn restore_result_view(r: Result<(), RestoreError>) -> Result<(), RestoreErrorView> {
    match r {
        Ok(()) => Ok(()),
        Err(e) => Err(e@),
    }
}

/// Decides the outcome of a restore from the answers of its steps.
pub fn restore_outcome(
    anchor: &UndoAnchor,
    fallback: &Option<Result<(), String>>,
    verify: &Option<Result<(), String>>,
) -> (r: Result<(), RestoreError>)
    ensures
        forall|primary: Result<(), Seq<char>>|
            restore_result_view(r) == #[trigger] spec_restore_outcome(
                anchor.anchor_id@,
                primary,
                opt_result_view(*fallback),
                opt_result_view(*verify),
            ),
{
    match fallback {
        Some(Err(cause)) => Err(
            RestoreError::UndoFailed { anchor_id: anchor.anchor_id.clone(), cause: cause.clone() },
        ),
        _ => match verify {
            Some(Err(cause)) => Err(
                RestoreError::VerificationFailed {
                    anchor_id: anchor.anchor_id.clone(),
                    cause: cause.clone(),
                },
            ),
            _ => Ok(()),
        },
    }
}

/// Undoes a pass: tries the primary undo path, falls back to the other one
/// when it fails, then checks the result when one of them succeeded. The
/// executor is asked exactly those steps, in that order, and the outcome is
/// the one its answers decide.
pub fn restore_from_anchor<E: UndoExecutor>(executor: &mut E, anchor: &UndoAnchor) -> (r: Result<
    (),
    RestoreError,
>)
    ensures
        exists|
            primary: Result<(), Seq<char>>,
            fallback: Option<Result<(), Seq<char>>>,
            verify: Option<Result<(), Seq<char>>>,
        |
            #![trigger spec_restore_outcome(anchor.anchor_id@, primary, fallback, verify)]
            restore_protocol(primary, fallback, verify) && (E::keeps_record()
                ==> final(executor).answers() == old(executor).answers() + protocol_log(
                primary,
                fallback,
                verify,
            ))
                && restore_result_view(r) == spec_restore_outcome(
                anchor.anchor_id@,
                primary,
                fallback,
                verify,
            ),
{
    let ghost a0 = executor.answers();
    let primary = executor.undo_primary();
    let fallback = if primary.is_err() {
        Some(executor.undo_fallback())
    } else {
        None
    };
    let undone = match &fallback {
        Some(Err(_)) => false,
        _ => true,
    };
    let verify = if undone {
        Some(executor.verify_post_undo())
    } else {
        None
    };
    let r = restore_outcome(anchor, &fallback, &verify);
    proof {
        let p = unit_result_view(primary);
        let f = opt_result_view(fallback);
        let v = opt_result_view(verify);
        assert(restore_protocol(p, f, v));
        if E::keeps_record() {
            assert(executor.answers() =~= a0 + protocol_log(p, f, v));
        }
        assert(restore_result_view(r) == spec_restore_outcome(anchor.anchor_id@, p, f, v));
    }
    r
}

/// A restore succeeds exactly when one of the undo paths succeeded and the
/// check after it passed; when it fails, the error names the anchor.
pub proof fn lemma_restore_succeeds_iff_undone_and_checked(
    anchor_id: Seq<char>,
    primary: Result<(), Seq<char>>,
    fallback: Option<Result<(), Seq<char>>>,
    verify: Option<Result<(), Seq<char>>>,
)
    requires
        restore_protocol(primary, fallback, verify),
    ensures
        spec_restore_outcome(anchor_id, primary, fallback, verify) is Ok <==> ((primary is Ok
            || fallback == Some(Ok::<(), Seq<char>>(()))) && verify == Some(
            Ok::<(), Seq<char>>(()),
        )),
        spec_restore_outcome(anchor_id, primary, fallback, verify) matches Err(e) ==> (match e {
            RestoreErrorView::UndoFailed { anchor_id: a, .. } => a == anchor_id && primary is Err,
            RestoreErrorView::VerificationFailed { anchor_id: a, .. } => a == anchor_id,
        }),
{
    match fallback {
        Some(Err(_)) => {},
        Some(Ok(u)) => {
            assert(u == ());
            match verify {
                Some(Ok(w)) => assert(w == ()),
                _ => {},
            }
        },
        None => match verify {
            Some(Ok(w)) => assert(w == ()),
            _ => {},
        },
    }
}

} // verus!
