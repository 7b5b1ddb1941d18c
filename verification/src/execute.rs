//! The decisions of a command run: how a parsed command is answered, which
//! steps an executed pass takes, which checks it must pass, and how a restore
//! reaches the undo paths.
use vstd::prelude::*;
use vstd::string::*;

use crate::control::PrepassState;
use crate::ids::{fresh_id, uuid_v4_shape};
use crate::intent::{Intent, strings_view};
use crate::midi::{UndoTrigger, WriteProtocol};
use crate::plan::{build_clarification_prompt, build_suggestions, spec_clarification, spec_suggestions};
use crate::sync::SyncChecks;
use crate::types::Decision;

verus! {

/// The protocol asked for on the command line.
#[derive(Debug, Clone, Copy, PartialEq, Eq, Structural)]
pub enum ProtocolArg {
    Cc,
    Mcu,
}

/// The write protocol a command-line choice selects.
pub fn map_write_protocol(arg: ProtocolArg) -> (p: WriteProtocol)
    ensures
        p == (match arg {
            ProtocolArg::Cc => WriteProtocol::CcLearn,
            ProtocolArg::Mcu => WriteProtocol::McuFader,
        }),
{
    match arg {
        ProtocolArg::Cc => WriteProtocol::CcLearn,
        ProtocolArg::Mcu => WriteProtocol::McuFader,
    }
}

/// Where automation is written.
#[derive(Debug, Clone, Copy, PartialEq, Eq, Structural)]
pub enum BackendMode {
    /// Recorded only.
    Mock,
    /// Sent to the DAW over MIDI.
    Midi,
}

/// How a command is answered before anything is written.
#[derive(Debug, Clone)]
pub enum CommandAnswer {
    /// Offer these options; write nothing.
    Suggest(Vec<String>),
    /// Ask this question back; write nothing.
    Clarify(String),
    /// Refuse; write nothing.
    Reject,
    /// Go on to write the pass.
    Execute,
}

/// Answers a parsed command: suggestions, a clarifying question, a refusal,
/// or the go-ahead to write.
pub fn answer_for(intent: &Intent) -> (a: CommandAnswer)
    ensures
        (match intent.decision {
            Decision::Suggest => a matches CommandAnswer::Suggest(v) && strings_view(v@)
                == spec_suggestions(*intent),
            Decision::Clarify => a matches CommandAnswer::Clarify(p) && p@ == spec_clarification(
                intent.reason_codes@,
            ),
            Decision::Reject => a matches CommandAnswer::Reject,
            Decision::Execute => a matches CommandAnswer::Execute,
        }),
{
    match intent.decision {
        Decision::Suggest => CommandAnswer::Suggest(build_suggestions(intent)),
        Decision::Clarify => CommandAnswer::Clarify(build_clarification_prompt(intent)),
        Decision::Reject => CommandAnswer::Reject,
        Decision::Execute => CommandAnswer::Execute,
    }
}

/// What is said to the user at the end of a command run.
pub open spec fn spoken_line(answer_decision: Decision, dry_run: bool) -> Seq<char> {
    match answer_decision {
        Decision::Suggest => "I have suggestions. Please choose one option."@,
        Decision::Reject => "I cannot execute that request safely."@,
        _ => if dry_run {
            "Dry run complete. No automation was written."@
        } else {
            "Pass complete. Automation write finished."@
        },
    }
}

/// The sentence spoken after a command that was not clarified (a
/// clarification speaks its own question).
pub fn closing_line(decision: Decision, dry_run: bool) -> (s: &'static str)
    ensures
        s@ == spoken_line(decision, dry_run),
{
    match decision {
        Decision::Suggest => "I have suggestions. Please choose one option.",
        Decision::Reject => "I cannot execute that request safely.",
        _ => if dry_run {
            "Dry run complete. No automation was written."
        } else {
            "Pass complete. Automation write finished."
        },
    }
}

/// The kind of audit record a command run leaves.
pub open spec fn audit_event_text(decision: Decision, dry_run: bool) -> Seq<char> {
    match decision {
        Decision::Suggest => "suggest"@,
        Decision::Clarify => "clarify"@,
        Decision::Reject => "reject"@,
        Decision::Execute => if dry_run {
            "dry_run"@
        } else {
            "execute"@
        },
    }
}

pub fn audit_event_type(decision: Decision, dry_run: bool) -> (s: &'static str)
    ensures
        s@ == audit_event_text(decision, dry_run),
{
    match decision {
        Decision::Suggest => "suggest",
        Decision::Clarify => "clarify",
        Decision::Reject => "reject",
        Decision::Execute => if dry_run {
            "dry_run"
        } else {
            "execute"
        },
    }
}

/// The id of a command: the one given, or `cmd-` and a fresh random UUID.
pub fn command_id_or_fresh(given: Option<String>) -> (id: String)
    ensures
        (match given {
            Some(g) => id@ == g@,
            None => id@.len() == 40 && id@.subrange(0, 4) == "cmd-"@ && uuid_v4_shape(
                id@.subrange(4, 40),
            ),
        }),
{
    match given {
        Some(g) => g,
        None => {
            proof {
                reveal_strlit("cmd-");
            }
            fresh_id("cmd-")
        },
    }
}

/// Whether a command id already occurs among the ids of the audit log.
pub fn command_id_seen(logged: &Vec<String>, id: &String) -> (seen: bool)
    ensures
        seen == strings_view(logged@).contains(id@),
{
    let mut i: usize = 0;
    while i < logged.len()
        invariant
            i <= logged.len(),
            forall|j: int| 0 <= j < i ==> logged@[j]@ != id@,
        decreases logged.len() - i,
    {
        if logged[i] == *id {
            assert(strings_view(logged@)[i as int] == id@);
            return true;
        }
        i += 1;
    }
    false
}

/// Why a command is refused before it is parsed.
#[derive(Debug, Clone, Copy, PartialEq, Eq, Structural)]
pub enum RunRefusal {
    /// The command was captured too long ago.
    StaleCommand,
    /// The command id was used before.
    DuplicateCommandId,
    /// Neither undo path is configured.
    UndoPathUnavailable,
}

impl RunRefusal {
    pub fn code(&self) -> (m: &'static str)
        ensures
            m@ == (match self {
                RunRefusal::StaleCommand => "stale_command_context"@,
                RunRefusal::DuplicateCommandId => "duplicate_command_id"@,
                RunRefusal::UndoPathUnavailable => "undo_path_unavailable"@,
            }),
    {
        match self {
            RunRefusal::StaleCommand => "stale_command_context",
            RunRefusal::DuplicateCommandId => "duplicate_command_id",
            RunRefusal::UndoPathUnavailable => "undo_path_unavailable",
        }
    }
}

/// Refuses a command captured more than `max_age_secs` whole seconds ago.
pub fn ensure_not_stale(age_secs: i64, max_age_secs: u64) -> (r: Result<(), RunRefusal>)
    ensures
        r is Ok <==> age_secs <= max_age_secs as i64,
        r matches Err(e) ==> e == RunRefusal::StaleCommand,
{
    let limit: i64 = max_age_secs as i64;
    if age_secs > limit {
        Err(RunRefusal::StaleCommand)
    } else {
        Ok(())
    }
}

/// The options of a command run that decide its steps.
#[derive(Debug, Clone, Copy, PartialEq, Eq, Structural)]
pub struct RunOptions {
    pub backend: BackendMode,
    pub dry_run: bool,
    pub rest_accompaniment: bool,
    pub seek_requested: bool,
    pub feedback_sec: u64,
    pub no_audio_verify: bool,
    pub audio_verify_sec: u64,
}

/// How the pass is written.
#[derive(Debug, Clone, Copy, PartialEq, Eq, Structural)]
pub enum WriteMode {
    /// Nothing is written (dry run).
    Nothing,
    /// The targets move, and the rest of the orchestra follows.
    RestAware,
    /// Only the targets move.
    TargetsOnly,
}

/// The steps of an executed command.
#[derive(Debug, Clone, Copy, PartialEq, Eq, Structural)]
pub struct RunSteps {
    pub seek: bool,
    pub write: WriteMode,
    pub monitor_feedback: bool,
    pub verify_audio: bool,
}

pub open spec fn spec_run_steps(o: RunOptions) -> RunSteps {
    RunSteps {
        seek: o.seek_requested,
        write: if o.dry_run {
            WriteMode::Nothing
        } else if o.rest_accompaniment {
            WriteMode::RestAware
        } else {
            WriteMode::TargetsOnly
        },
        monitor_feedback: o.backend == BackendMode::Midi && o.feedback_sec > 0,
        verify_audio: o.backend == BackendMode::Midi && !o.dry_run && !o.no_audio_verify
            && o.audio_verify_sec > 0,
    }
}

/// The steps of an executed command: seek when a position was asked for;
/// write unless it is a dry run (with the rest of the orchestra when asked);
/// read back the faders and check the audio only on the MIDI backend, and the
/// audio only when something was written.
pub fn run_steps(o: &RunOptions) -> (s: RunSteps)
    ensures
        s == spec_run_steps(*o),
{
    let midi = match o.backend {
        BackendMode::Midi => true,
        BackendMode::Mock => false,
    };
    RunSteps {
        seek: o.seek_requested,
        write: if o.dry_run {
            WriteMode::Nothing
        } else if o.rest_accompaniment {
            WriteMode::RestAware
        } else {
            WriteMode::TargetsOnly
        },
        monitor_feedback: midi && o.feedback_sec > 0,
        verify_audio: midi && !o.dry_run && !o.no_audio_verify && o.audio_verify_sec > 0,
    }
}

/// A dry run writes nothing and never checks the audio.
pub proof fn lemma_dry_run_writes_nothing(o: RunOptions)
    requires
        o.dry_run,
    ensures
        spec_run_steps(o).write == WriteMode::Nothing,
        !spec_run_steps(o).verify_audio,
{
}

/// The synchronisation checks of a run: the session and timeline are the
/// planned ones and the clock is locked; the transport matches the plan when
/// time code was heard; the drift is within tolerance.
pub fn run_sync_checks(ltc_signal_ok: bool) -> (c: SyncChecks)
    ensures
        c == (SyncChecks {
            session_hash_matches: true,
            timeline_hash_matches: true,
            avb_clock_lock_valid: true,
            transport_state_matches_plan: ltc_signal_ok,
            drift_exceeds_threshold: false,
        }),
{
    SyncChecks {
        session_hash_matches: true,
        timeline_hash_matches: true,
        avb_clock_lock_valid: true,
        transport_state_matches_plan: ltc_signal_ok,
        drift_exceeds_threshold: false,
    }
}

/// The pre-write checklist of a run: the synchronisation verdict and whether
/// time code was heard; every other item holds once the plan is built and
/// the anchor captured.
pub fn run_prepass_state(sync_can_execute: bool, ltc_signal_ok: bool) -> (p: PrepassState)
    ensures
        p == (PrepassState {
            control_path_live: true,
            sync_confidence_valid: sync_can_execute,
            correct_strip_bank_verified: true,
            target_lanes_verified: true,
            dp_transport_state_verified: ltc_signal_ok,
            undo_anchor_captured: true,
            pass_plan_validated: true,
            undo_path_available: true,
        }),
{
    PrepassState {
        control_path_live: true,
        sync_confidence_valid: sync_can_execute,
        correct_strip_bank_verified: true,
        target_lanes_verified: true,
        dp_transport_state_verified: ltc_signal_ok,
        undo_anchor_captured: true,
        pass_plan_validated: true,
        undo_path_available: true,
    }
}

/// The undo triggers of the MIDI backend: each configured controller, sent
/// at full value on the undo channel.
pub fn undo_triggers(channel: u8, primary_cc: Option<u8>, fallback_cc: Option<u8>) -> (t: (
    Option<UndoTrigger>,
    Option<UndoTrigger>,
))
    ensures
        t.0 == (match primary_cc {
            Some(cc) => Some(UndoTrigger { channel, cc, value: 127 }),
            None => None,
        }),
        t.1 == (match fallback_cc {
            Some(cc) => Some(UndoTrigger { channel, cc, value: 127 }),
            None => None,
        }),
{
    let p = match primary_cc {
        Some(cc) => Some(UndoTrigger { channel, cc, value: 127 }),
        None => None,
    };
    let f = match fallback_cc {
        Some(cc) => Some(UndoTrigger { channel, cc, value: 127 }),
        None => None,
    };
    (p, f)
}

/// A restore over MIDI needs at least one undo path.
pub fn check_restore_paths(primary: &Option<UndoTrigger>, fallback: &Option<UndoTrigger>) -> (r: Result<
    (),
    RunRefusal,
>)
    ensures
        r is Ok <==> (primary is Some || fallback is Some),
        r matches Err(e) ==> e == RunRefusal::UndoPathUnavailable,
{
    if primary.is_none() && fallback.is_none() {
        Err(RunRefusal::UndoPathUnavailable)
    } else {
        Ok(())
    }
}

} // verus!
