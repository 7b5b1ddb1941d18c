use vstd::prelude::*;

verus! {

/// The phases the assistant's runtime moves through while handling a command.
#[derive(Debug, Clone, Copy, PartialEq, Eq, Structural)]
pub enum RuntimeState {
    Boot,
    Diagnostics,
    Ready,
    Listening,
    Transcribing,
    Normalizing,
    Parsing,
    Clarifying,
    Suggesting,
    Planning,
    PrepassSnapshot,
    Executing,
    Verifying,
    Summarizing,
    Restoring,
    SafeStop,
    Error,
}

/// Whether the runtime may move from `from` to `to`.
pub open spec fn transition_allowed(from: RuntimeState, to: RuntimeState) -> bool {
    if from == RuntimeState::Transcribing && to == RuntimeState::Executing {
        false
    } else if from == RuntimeState::Parsing && to == RuntimeState::Executing {
        false
    } else if from == RuntimeState::Executing && to == RuntimeState::SafeStop {
        true
    } else if from == RuntimeState::SafeStop && to == RuntimeState::Ready {
        true
    } else {
        from != RuntimeState::Error || to == RuntimeState::Ready
    }
}

pub fn is_transition_allowed(from: RuntimeState, to: RuntimeState) -> (allowed: bool)
    ensures
        allowed == transition_allowed(from, to),
{
    if from == RuntimeState::Transcribing && to == RuntimeState::Executing {
        return false;
    }
    if from == RuntimeState::Parsing && to == RuntimeState::Executing {
        return false;
    }
    if from == RuntimeState::Executing && to == RuntimeState::SafeStop {
        return true;
    }
    if from == RuntimeState::SafeStop && to == RuntimeState::Ready {
        return true;
    }
    from != RuntimeState::Error || to == RuntimeState::Ready
}

/// A command that is still being transcribed or parsed can never jump straight
/// to execution, and the error state can only be left towards `Ready`.
pub proof fn lemma_no_unvetted_execution(from: RuntimeState, to: RuntimeState)
    ensures
        (from == RuntimeState::Transcribing || from == RuntimeState::Parsing)
            ==> !transition_allowed(from, RuntimeState::Executing),
        from == RuntimeState::Error ==> (transition_allowed(from, to) <==> to == RuntimeState::Ready),
{
}

/// An execution can always be aborted into the safe stop, and the safe stop
/// can always be left towards `Ready`.
pub proof fn lemma_safe_stop_reachable_and_leavable()
    ensures
        transition_allowed(RuntimeState::Executing, RuntimeState::SafeStop),
        transition_allowed(RuntimeState::SafeStop, RuntimeState::Ready),
{
}

/// Every state other than `Error` may be left towards every state, apart from
/// the two forbidden shortcuts into execution.
pub proof fn lemma_only_listed_transitions_refused(from: RuntimeState, to: RuntimeState)
    ensures
        !transition_allowed(from, to) <==> (
            (from == RuntimeState::Transcribing && to == RuntimeState::Executing)
            || (from == RuntimeState::Parsing && to == RuntimeState::Executing)
            || (from == RuntimeState::Error && to != RuntimeState::Ready)
        ),
{
}

} // verus!
