use mixct::intent::{parse_utterance, range_from_capture, AliasTable, PairCapture, ReasonCode, Strength};
use mixct::state_machine::{is_transition_allowed, RuntimeState};
use mixct::types::{Decision, OperationClass, TimeRange};

#[test]
fn blocks_transcribe_to_execute() {
    assert!(!is_transition_allowed(
        RuntimeState::Transcribing,
        RuntimeState::Executing
    ));
}

#[test]
fn actionable_command_executes() {
    let mut aliases = AliasTable::new();
    aliases.insert("violins".to_string(), "STR_HI".to_string());
    let i = parse_utterance("Violins are too soft in bars 26-29", &aliases);
    assert_eq!(i.decision, Decision::Execute);
    assert_eq!(i.time_range.unwrap().start_bar, 26);
}

#[test]
fn suggest_command_routes_to_suggest() {
    let aliases = AliasTable::new();
    let i = parse_utterance("What do you suggest for bars 26-29?", &aliases);
    assert_eq!(i.decision, Decision::Suggest);
}

#[test]
fn vague_command_clarifies() {
    let aliases = AliasTable::new();
    let i = parse_utterance("Bring them up a bit there", &aliases);
    assert_eq!(i.decision, Decision::Clarify);
}

#[test]
fn intent_fields_for_actionable_command() {
    let mut aliases = AliasTable::new();
    aliases.insert("violins".to_string(), "STR_HI".to_string());
    let i = parse_utterance("Violins are too soft in bars 26-29", &aliases);
    assert_eq!(i.targets, vec!["STR_HI".to_string()]);
    assert_eq!(i.time_range, Some(TimeRange { start_bar: 26, end_bar: 29 }));
    assert_eq!(i.operation_class, Some(OperationClass::WriteNewCurve));
    assert_eq!(i.strength, Some(Strength::Medium));
    assert_eq!(i.confidence_pct, 92);
    assert!(!i.requires_confirmation);
    assert!(i.reason_codes.is_empty());
    assert_eq!(i.source_text, "Violins are too soft in bars 26-29");
}

#[test]
fn vague_command_reason_codes() {
    let aliases = AliasTable::new();
    let i = parse_utterance("Bring them up a bit there", &aliases);
    assert_eq!(
        i.reason_codes,
        vec![
            ReasonCode::MissingTimeWindow,
            ReasonCode::MissingTarget,
            ReasonCode::MissingOperation,
            ReasonCode::AmbiguousTarget
        ]
    );
    assert_eq!(i.confidence_pct, 55);
    assert_eq!(i.strength, Some(Strength::Slight));
    assert_eq!(ReasonCode::AmbiguousTarget.code(), "ambiguous_target");
}

#[test]
fn measures_and_through_are_ranges() {
    let aliases = AliasTable::new();
    let i = parse_utterance("Hold the violins flat measures 3 through 8", &aliases);
    assert_eq!(i.time_range, Some(TimeRange { start_bar: 3, end_bar: 8 }));
    assert_eq!(i.targets, vec!["STR_HI".to_string()]);
    assert_eq!(i.operation_class, Some(OperationClass::SetFlatRange));
    assert_eq!(i.decision, Decision::Execute);
}

#[test]
fn oversized_bar_number_gives_no_range() {
    let aliases = AliasTable::new();
    let i = parse_utterance("violins too soft bars 99999999999-3", &aliases);
    assert_eq!(i.time_range, None);
    assert_eq!(i.reason_codes, vec![ReasonCode::MissingTimeWindow]);
    assert_eq!(i.decision, Decision::Clarify);
}

#[test]
fn restore_previous_with_target_executes() {
    let mut aliases = AliasTable::new();
    aliases.insert("horns".to_string(), "HN".to_string());
    let i = parse_utterance("Restore the previous horns", &aliases);
    assert_eq!(i.operation_class, Some(OperationClass::TrimExistingRange));
    assert_eq!(i.decision, Decision::Execute);
    assert_eq!(i.time_range, None);
}

#[test]
fn many_targets_require_confirmation() {
    let mut aliases = AliasTable::new();
    aliases.insert("horns".to_string(), "HN".to_string());
    aliases.insert("harp".to_string(), "HARP".to_string());
    aliases.insert("timpani".to_string(), "TIMP".to_string());
    aliases.insert("horn".to_string(), "HN".to_string());
    let i = parse_utterance("horns harp and timpani too loud bars 1-2", &aliases);
    assert_eq!(i.targets, vec!["HN".to_string(), "HARP".to_string(), "TIMP".to_string()]);
    assert!(i.requires_confirmation);
    assert_eq!(i.decision, Decision::Execute);
}

#[test]
fn alias_insert_replaces_value() {
    let mut aliases = AliasTable::new();
    aliases.insert("violins".to_string(), "STR_HI".to_string());
    aliases.insert("violins".to_string(), "STR_MID".to_string());
    assert_eq!(aliases.len(), 1);
    assert_eq!(aliases.get(&"violins".to_string()), Some("STR_MID".to_string()));
    assert_eq!(aliases.get(&"cellos".to_string()), None);
}

#[test]
fn error_state_only_goes_to_ready() {
    assert!(is_transition_allowed(RuntimeState::Error, RuntimeState::Ready));
    assert!(!is_transition_allowed(RuntimeState::Error, RuntimeState::Boot));
    assert!(is_transition_allowed(RuntimeState::Executing, RuntimeState::SafeStop));
    assert!(is_transition_allowed(RuntimeState::SafeStop, RuntimeState::Ready));
    assert!(!is_transition_allowed(RuntimeState::Parsing, RuntimeState::Executing));
    assert!(is_transition_allowed(RuntimeState::Planning, RuntimeState::Executing));
}

#[test]
fn time_range_validity() {
    assert!(TimeRange { start_bar: 1, end_bar: 1 }.is_valid());
    assert!(!TimeRange { start_bar: 0, end_bar: 3 }.is_valid());
    assert!(!TimeRange { start_bar: 5, end_bar: 4 }.is_valid());
}

#[test]
fn bar_range_from_engine_report() {
    let r = range_from_capture(&PairCapture::Groups(Some("26".to_string()), Some("29".to_string())));
    assert_eq!(r, Some(Some(TimeRange { start_bar: 26, end_bar: 29 })));
    assert_eq!(range_from_capture(&PairCapture::NoMatch), None);
    assert_eq!(range_from_capture(&PairCapture::InvalidPattern), Some(None));
    let big = PairCapture::Groups(Some("99999999999".to_string()), Some("3".to_string()));
    assert_eq!(range_from_capture(&big), Some(None));
    assert_eq!(range_from_capture(&PairCapture::Groups(None, Some("3".to_string()))), Some(None));
}
