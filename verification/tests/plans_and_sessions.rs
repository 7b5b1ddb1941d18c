use mixct::audio::{
    default_virtual_groups, merge_virtual_groups, prepare_monitor, sanitize_bus_channels,
    sanitize_virtual_groups, validate_monitor_request, AudioBusMap, AudioError,
    AudioMonitorRequest, AudioVirtualGroupMap, MonitorRequestError,
};
use mixct::control::{pass_schedule, validate_prepass, MockBackend, PassStep, PrepassFailure, PrepassState};
use mixct::execute::{
    answer_for, audit_event_type, check_restore_paths, closing_line, command_id_or_fresh,
    command_id_seen, ensure_not_stale, map_write_protocol, run_prepass_state, run_steps,
    run_sync_checks, undo_triggers, BackendMode, CommandAnswer, RunRefusal, ProtocolArg, RunOptions,
    WriteMode,
};
use mixct::intent::{default_aliases, parse_utterance, AliasTable, Intent, ReasonCode, Strength};
use mixct::midi::{route_lane_write, LaneControls, LaneRoute, LaneRouteError, WriteProtocol};
use mixct::plan::{
    build_clarification_prompt, build_suggestions, curve_direction, curve_strength_tenths_db,
    derive_rest_targets, lane_for_command, lane_target_name, plan_layout, plan_strips,
    plan_targets, scale_curve_duration, target_bus_id, target_lane, wants_rest_accompaniment, PlanError,
    ResolvedTarget, TargetNameError,
};
use mixct::session::{
    build_aliases, build_audio_bus_maps, build_strip_map, default_midi_channel, parse_target_list,
    SessionBus, SessionMap, TargetListError,
};
use mixct::spec_check::{ensure_spec_ready, validate_spec, SpecFacts};
use mixct::sync::{sync_reasons, SyncChecks, SyncReason};
use mixct::types::{Decision, LaneKind, OperationClass, TimeRange};

fn bus(id: &str, aliases: &[&str], channels: &[usize], mcu: Option<u8>) -> SessionBus {
    SessionBus {
        id: id.to_string(),
        aliases: aliases.iter().map(|a| a.to_string()).collect(),
        audio_channels: channels.to_vec(),
        mcu_channel: mcu,
        channel: default_midi_channel(),
        cc: None,
    }
}

fn session() -> SessionMap {
    SessionMap {
        entity_aliases: vec![("Concertmaster".to_string(), "STR_HI".to_string())],
        buses: vec![
            bus("STR_HI", &["Fiddles"], &[3, 4], Some(2)),
            bus("WW_HI", &[], &[], None),
            bus("BR_LO", &["Tubas"], &[7], None),
        ],
    }
}

fn intent(text: &str, targets: &[&str], range: Option<TimeRange>) -> Intent {
    Intent {
        source_text: text.to_string(),
        decision: Decision::Execute,
        operation_class: None,
        targets: targets.iter().map(|t| t.to_string()).collect(),
        time_range: range,
        strength: None,
        confidence_pct: 92,
        requires_confirmation: false,
        reason_codes: Vec::new(),
    }
}

#[test]
fn default_aliases_resolve_sections() {
    let a = default_aliases();
    assert_eq!(a.len(), 8);
    assert_eq!(a.get(&"violins".to_string()), Some("STR_HI".to_string()));
    assert_eq!(a.get(&"harp".to_string()), Some("HARP".to_string()));
    assert_eq!(a.get(&"cellos".to_string()), None);
}

#[test]
fn session_aliases_extend_the_defaults() {
    let a = build_aliases(&Some(session()));
    assert_eq!(a.get(&"concertmaster".to_string()), Some("STR_HI".to_string()));
    assert_eq!(a.get(&"str_hi".to_string()), Some("STR_HI".to_string()));
    assert_eq!(a.get(&"str hi".to_string()), Some("STR_HI".to_string()));
    assert_eq!(a.get(&"fiddles".to_string()), Some("STR_HI".to_string()));
    assert_eq!(a.get(&"tubas".to_string()), Some("BR_LO".to_string()));
    assert_eq!(a.get(&"low brass".to_string()), Some("BR_LO".to_string()));
    let plain = build_aliases(&None);
    assert_eq!(plain.len(), 8);
    let i = parse_utterance("The fiddles are too soft in bars 2-3", &a);
    assert_eq!(i.targets, vec!["STR_HI".to_string()]);
}

#[test]
fn audio_bus_maps_default_to_position() {
    let maps = build_audio_bus_maps(&session());
    assert_eq!(maps.len(), 3);
    assert_eq!(maps[0].channels, vec![3, 4]);
    assert_eq!(maps[1].id, "WW_HI");
    assert_eq!(maps[1].channels, vec![2]);
    assert_eq!(maps[2].channels, vec![7]);
}

#[test]
fn strip_map_uses_own_or_position() {
    let m = build_strip_map(&Some(session()));
    assert_eq!(m.get(&2), Some(&"WW_HI".to_string()));
    assert_eq!(m.get(&3), Some(&"BR_LO".to_string()));
    assert_eq!(m.len(), 2);
    assert!(build_strip_map(&None).is_empty());
}

#[test]
fn target_lists_pick_buses() {
    let sm = session();
    assert_eq!(
        parse_target_list(Some(" str_hi, ,br_lo "), &sm).unwrap(),
        vec!["STR_HI".to_string(), "BR_LO".to_string()]
    );
    assert_eq!(parse_target_list(None, &sm).unwrap().len(), 3);
    match parse_target_list(Some("STR_HI, cello "), &sm) {
        Err(e @ TargetListError::UnknownTarget(_)) => {
            assert_eq!(e.message(), "unknown_target_in_calibration:cello")
        }
        other => panic!("unexpected {:?}", other),
    }
    match parse_target_list(Some(" , "), &sm) {
        Err(e @ TargetListError::NoTargets) => {
            assert_eq!(e.message(), "no_targets_selected_for_calibration")
        }
        other => panic!("unexpected {:?}", other),
    }
}

#[test]
fn lanes_follow_the_wording() {
    assert_eq!(lane_for_command("More presence on violins"), LaneKind::EqPresenceGain);
    assert_eq!(lane_for_command("Add AIR to the flutes"), LaneKind::EqAirGain);
    assert_eq!(lane_for_command("Too much low end"), LaneKind::EqLowGain);
    assert_eq!(lane_for_command("Violins up"), LaneKind::Volume);
}

#[test]
fn pass_layout_targets_and_strips() {
    let sm = Some(session());
    let i = intent("Lift the brass presence", &["BR_LO", "HN"], Some(TimeRange { start_bar: 4, end_bar: 6 }));
    let layout = plan_layout(&i, &sm).unwrap();
    assert_eq!(layout.operation_class, OperationClass::WriteNewCurve);
    assert_eq!(layout.time_range, TimeRange { start_bar: 4, end_bar: 6 });
    assert_eq!(layout.target_lanes.len(), 2);
    assert_eq!(layout.target_lanes[0].lane, LaneKind::EqPresenceGain);
    assert_eq!(layout.target_strips, vec![3]);
    let none = intent("x", &[], Some(TimeRange { start_bar: 1, end_bar: 1 }));
    let t = plan_targets(&none);
    assert_eq!(t.len(), 1);
    assert_eq!(t[0].canonical_name, "STR_HI");
    assert_eq!(plan_strips(&None, &t), vec![1]);
    assert_eq!(plan_strips(&sm, &t), vec![1]);
}

#[test]
fn pass_layout_needs_a_valid_range() {
    let sm = None;
    let missing = intent("x", &["STR_HI"], None);
    assert_eq!(plan_layout(&missing, &sm).err(), Some(PlanError::MissingTimeRange));
    let reversed = intent("x", &["STR_HI"], Some(TimeRange { start_bar: 5, end_bar: 2 }));
    assert_eq!(plan_layout(&reversed, &sm).err(), Some(PlanError::InvalidTimeRange));
    assert_eq!(PlanError::InvalidTimeRange.message(), "invalid time range");
}

#[test]
fn curve_direction_and_strength() {
    assert_eq!(curve_direction("The horns are too loud"), -1);
    assert_eq!(curve_direction("Please REDUCE the harp"), -1);
    assert_eq!(curve_direction("Bring out the oboe"), 1);
    assert_eq!(curve_direction("Violins are too soft"), 1);
    assert_eq!(curve_strength_tenths_db(Some(Strength::Slight)), 25);
    assert_eq!(curve_strength_tenths_db(Some(Strength::Strong)), 60);
    assert_eq!(curve_strength_tenths_db(Some(Strength::Medium)), 45);
    assert_eq!(curve_strength_tenths_db(None), 45);
}

#[test]
fn curve_duration_scaling() {
    let offs = vec![0, 120, 900, 2400];
    assert_eq!(scale_curve_duration(&offs, 1200), vec![0, 60, 450, 1200]);
    assert_eq!(scale_curve_duration(&offs, 2400), offs);
    assert_eq!(scale_curve_duration(&offs, 0), offs);
    assert_eq!(scale_curve_duration(&vec![0, 0], 500), vec![0, 0]);
    assert_eq!(scale_curve_duration(&vec![1, 3], 2), vec![1, 2]);
}

#[test]
fn rest_of_orchestra_requests() {
    assert!(wants_rest_accompaniment("Lift violins, rest of the orchestra as accompaniment"));
    assert!(wants_rest_accompaniment("violins up rest=accompaniment"));
    assert!(!wants_rest_accompaniment("rest of the orchestra down"));
    assert!(!wants_rest_accompaniment("accompaniment only"));
    let primary = vec![ResolvedTarget { canonical_name: "STR_HI".to_string(), lane: LaneKind::Volume }];
    let rest = derive_rest_targets(&Some(session()), &primary);
    let names: Vec<String> = rest.iter().map(|t| t.canonical_name.clone()).collect();
    assert_eq!(names, vec!["WW_HI".to_string(), "BR_LO".to_string()]);
    assert!(rest.iter().all(|t| t.lane == LaneKind::Volume));
    assert!(derive_rest_targets(&None, &primary).is_empty());
}

#[test]
fn control_path_names_round_trip() {
    let t = ResolvedTarget { canonical_name: "STR_HI".to_string(), lane: LaneKind::EqAirGain };
    let name = lane_target_name(&t);
    assert_eq!(name, "STR_HI::EqAirGain");
    assert_eq!(target_bus_id(&name).unwrap(), "STR_HI");
    match target_bus_id("STR_HI") {
        Err(TargetNameError::InvalidFormat(s)) => assert_eq!(s, "STR_HI"),
        other => panic!("unexpected {:?}", other),
    }
}

#[test]
fn suggestions_and_prompts() {
    let mut i = intent("What do you suggest", &["WW_HI"], Some(TimeRange { start_bar: 26, end_bar: 29 }));
    let s = build_suggestions(&i);
    assert_eq!(s[0], "Lift WW_HI by +2.0 dB in bars 26-29.");
    assert_eq!(s[1], "Reduce competing section by -2.0 dB in bars 26-29.");
    assert_eq!(s[2], "Apply +1.0 dB trim plus EQ Presence +1.0 dB to WW_HI in bars 26-29.");
    i.targets.clear();
    i.time_range = None;
    assert_eq!(build_suggestions(&i)[0], "Lift STR_HI by +2.0 dB in the selected range.");
    i.reason_codes = vec![ReasonCode::MissingTimeWindow, ReasonCode::AmbiguousTarget];
    assert_eq!(
        build_clarification_prompt(&i),
        "Please specify both section and bar range, for example: Violins bars 26-29."
    );
    i.reason_codes = vec![ReasonCode::MissingTarget];
    assert_eq!(build_clarification_prompt(&i), "Please specify the target section, for example: First violins.");
    i.reason_codes = vec![ReasonCode::MissingTimeWindow];
    assert_eq!(build_clarification_prompt(&i), "Please specify the bar range, for example: bars 26-29.");
    i.reason_codes = vec![];
    assert_eq!(build_clarification_prompt(&i), "Please restate the instruction in a more concrete way.");
}

#[test]
fn commands_are_answered_by_decision() {
    let aliases = AliasTable::new();
    let s = parse_utterance("What do you suggest for bars 26-29?", &aliases);
    match answer_for(&s) {
        CommandAnswer::Suggest(v) => assert_eq!(v.len(), 3),
        other => panic!("unexpected {:?}", other),
    }
    let c = parse_utterance("Bring them up a bit there", &aliases);
    assert!(matches!(answer_for(&c), CommandAnswer::Clarify(_)));
    assert_eq!(audit_event_type(Decision::Clarify, false), "clarify");
    assert_eq!(audit_event_type(Decision::Execute, true), "dry_run");
    assert_eq!(audit_event_type(Decision::Execute, false), "execute");
    assert_eq!(closing_line(Decision::Reject, false), "I cannot execute that request safely.");
    assert_eq!(closing_line(Decision::Execute, true), "Dry run complete. No automation was written.");
}

#[test]
fn command_ids_and_staleness() {
    assert_eq!(command_id_or_fresh(Some("c1".to_string())), "c1");
    let fresh = command_id_or_fresh(None);
    assert!(fresh.starts_with("cmd-"));
    assert_eq!(fresh.len(), 40);
    assert_eq!(fresh.as_bytes()[18], b'4');
    let logged = vec!["a".to_string(), "c1".to_string()];
    assert!(command_id_seen(&logged, &"c1".to_string()));
    assert!(!command_id_seen(&logged, &"c2".to_string()));
    assert!(ensure_not_stale(10, 10).is_ok());
    assert_eq!(ensure_not_stale(11, 10), Err(RunRefusal::StaleCommand));
    assert_eq!(RunRefusal::StaleCommand.code(), "stale_command_context");
}

#[test]
fn run_steps_follow_options() {
    let o = RunOptions {
        backend: BackendMode::Midi,
        dry_run: false,
        rest_accompaniment: true,
        seek_requested: false,
        feedback_sec: 3,
        no_audio_verify: false,
        audio_verify_sec: 5,
    };
    let s = run_steps(&o);
    assert_eq!(s.write, WriteMode::RestAware);
    assert!(s.monitor_feedback && s.verify_audio && !s.seek);
    let dry = run_steps(&RunOptions { dry_run: true, ..o });
    assert_eq!(dry.write, WriteMode::Nothing);
    assert!(!dry.verify_audio);
    let mock = run_steps(&RunOptions { backend: BackendMode::Mock, rest_accompaniment: false, ..o });
    assert_eq!(mock.write, WriteMode::TargetsOnly);
    assert!(!mock.monitor_feedback && !mock.verify_audio);
    assert_eq!(map_write_protocol(ProtocolArg::Cc), WriteProtocol::CcLearn);
    assert_eq!(map_write_protocol(ProtocolArg::Mcu), WriteProtocol::McuFader);
}

#[test]
fn run_checks_and_undo_paths() {
    let checks = run_sync_checks(false);
    assert_eq!(sync_reasons(&checks), vec![SyncReason::TransportStateMismatch]);
    assert!(sync_reasons(&run_sync_checks(true)).is_empty());
    let p = run_prepass_state(true, false);
    assert_eq!(validate_prepass(&p), Err(PrepassFailure::DpTransportStateVerified));
    assert!(validate_prepass(&run_prepass_state(true, true)).is_ok());
    let (a, b) = undo_triggers(16, Some(20), None);
    assert_eq!(a.unwrap().value, 127);
    assert!(b.is_none());
    assert!(check_restore_paths(&a, &b).is_ok());
    assert_eq!(check_restore_paths(&None, &None), Err(RunRefusal::UndoPathUnavailable));
}

#[test]
fn clock_unlock_is_a_sync_reason() {
    let r = sync_reasons(&SyncChecks {
        session_hash_matches: true,
        timeline_hash_matches: true,
        avb_clock_lock_valid: false,
        transport_state_matches_plan: true,
        drift_exceeds_threshold: false,
    });
    assert!(!r.is_empty());
    assert!(r.iter().any(|x| x.code() == "avb_clock_unlock"));
}

#[test]
fn prepass_reports_first_missing_item() {
    let mut s = run_prepass_state(true, true);
    s.undo_anchor_captured = false;
    s.control_path_live = false;
    assert_eq!(validate_prepass(&s), Err(PrepassFailure::ControlPathLive));
    let all = PrepassState { control_path_live: true, ..s };
    assert_eq!(validate_prepass(&all), Err(PrepassFailure::UndoAnchorCaptured));
}

#[test]
fn pass_schedule_touches_writes_releases() {
    let steps = pass_schedule(2, 2);
    assert_eq!(
        steps,
        vec![
            PassStep::Begin(0),
            PassStep::Begin(1),
            PassStep::Write(0, 0),
            PassStep::Write(1, 0),
            PassStep::Write(0, 1),
            PassStep::Write(1, 1),
            PassStep::End(0),
            PassStep::End(1),
        ]
    );
    assert!(pass_schedule(0, 3).is_empty());
}

#[test]
fn mock_backend_records_the_pass() {
    let mut b = MockBackend::default();
    b.begin_touch("STR_HI::Volume").unwrap();
    b.write_value("STR_HI::Volume", "1.000", 0).unwrap();
    b.end_touch("STR_HI::Volume").unwrap();
    assert_eq!(
        b.log,
        vec![
            "begin_touch:STR_HI::Volume".to_string(),
            "write:STR_HI::Volume:1.000:0".to_string(),
            "end_touch:STR_HI::Volume".to_string()
        ]
    );
    let mut failing = MockBackend { log: Vec::new(), fail_primary_undo: true };
    assert!(failing.trigger_undo_primary().is_err());
    assert!(failing.trigger_undo_fallback().is_ok());
    assert_eq!(failing.log, vec!["undo_primary".to_string(), "undo_fallback".to_string()]);
}

fn facts_ok() -> SpecFacts {
    SpecFacts {
        schema_version: Some("1.1.0".to_string()),
        manual_undo_disallowed: Some(true),
        clock_authority: Some("avb_ptp_grandmaster_motu_848".to_string()),
        forbidden_apis: vec!["cloud_stt".to_string()],
        fallback_feature_flag: Some("stt.local_fallback.enabled".to_string()),
        startup_checks: vec!["avb_ptp_clock_locked".to_string()],
        hard_refusal_cases: vec!["undo_anchor_failure".to_string()],
        undo_primary: Some("mcu_undo_command".to_string()),
        undo_fallback: Some("studio_local_agent_undo_trigger".to_string()),
    }
}

#[test]
fn spec_document_checks() {
    let ok = validate_spec(&facts_ok());
    assert!(ok.ok);
    assert!(ok.errors.is_empty());
    assert!(ensure_spec_ready(&facts_ok()).is_ok());
    let mut bad = facts_ok();
    bad.schema_version = Some("1.0.0".to_string());
    bad.forbidden_apis = vec!["cloud_stt".to_string(), "third_party_stt".to_string()];
    bad.undo_fallback = None;
    let c = validate_spec(&bad);
    assert!(!c.ok);
    assert_eq!(
        c.errors,
        vec![
            "schema_version must be 1.1.0".to_string(),
            "third_party_stt must not be in forbidden_apis".to_string(),
            "undo execution fallback path missing".to_string()
        ]
    );
    assert_eq!(
        ensure_spec_ready(&bad).unwrap_err(),
        "spec invalid: schema_version must be 1.1.0, third_party_stt must not be in forbidden_apis, undo execution fallback path missing"
    );
}

#[test]
fn spec_document_empty_fails_everything() {
    let empty = SpecFacts {
        schema_version: None,
        manual_undo_disallowed: None,
        clock_authority: None,
        forbidden_apis: vec![],
        fallback_feature_flag: None,
        startup_checks: vec![],
        hard_refusal_cases: vec![],
        undo_primary: None,
        undo_fallback: None,
    };
    assert_eq!(validate_spec(&empty).errors.len(), 9);
}

fn bus_map(id: &str, ch: &[usize]) -> AudioBusMap {
    AudioBusMap { id: id.to_string(), channels: ch.to_vec() }
}

#[test]
fn bus_channels_are_cleaned() {
    let mut buses = vec![bus_map("A", &[3, 0, 1, 3, 9]), bus_map("B", &[9]), bus_map("C", &[2])];
    sanitize_bus_channels(&mut buses, 4).unwrap();
    assert_eq!(buses.len(), 2);
    assert_eq!(buses[0].channels, vec![1, 3]);
    assert_eq!(buses[1].id, "C");
    let mut none = vec![bus_map("X", &[5])];
    assert_eq!(sanitize_bus_channels(&mut none, 4), Err(AudioError::NoValidBuses));
    assert!(none.is_empty());
}

#[test]
fn default_groups_by_family() {
    let buses = vec![bus_map("STR_HI", &[1]), bus_map("STR_LO", &[2]), bus_map("HN", &[3])];
    let g = default_virtual_groups(&buses);
    assert_eq!(g.len(), 2);
    assert_eq!(g[0].id, "STR_ALL");
    assert_eq!(g[0].members, vec!["STR_HI".to_string(), "STR_LO".to_string()]);
    assert_eq!(g[1].id, "ORCH_ALL");
    assert_eq!(g[1].members.len(), 3);
    assert!(default_virtual_groups(&vec![bus_map("HN", &[1])]).is_empty());
}

#[test]
fn groups_merge_and_clean() {
    let mut dst = vec![AudioVirtualGroupMap { id: "STR_ALL".to_string(), members: vec!["STR_LO".to_string()] }];
    let src = vec![
        AudioVirtualGroupMap { id: "STR_ALL".to_string(), members: vec![] },
        AudioVirtualGroupMap { id: "MINE".to_string(), members: vec!["HN".to_string(), "XX".to_string(), "HN".to_string(), "BR_LO".to_string()] },
    ];
    merge_virtual_groups(&mut dst, src);
    assert_eq!(dst.len(), 2);
    assert_eq!(dst[0].members, vec!["STR_LO".to_string()]);
    let buses = vec![bus_map("HN", &[1]), bus_map("BR_LO", &[2])];
    sanitize_virtual_groups(&mut dst, &buses);
    assert_eq!(dst.len(), 1);
    assert_eq!(dst[0].id, "MINE");
    assert_eq!(dst[0].members, vec!["BR_LO".to_string(), "HN".to_string()]);
}

fn request(buses: Vec<AudioBusMap>) -> AudioMonitorRequest {
    AudioMonitorRequest {
        device_hint: None,
        duration_sec: 5,
        sample_rate_hz: Some(48000),
        window_ms: 120,
        hop_ms: 24,
        calibrate_sec: 1,
        buses,
        virtual_groups: Vec::new(),
        include_default_virtual_groups: true,
        print_every_ms: 500,
        jsonl_out: None,
    }
}

#[test]
fn monitor_requests_are_checked_and_prepared() {
    let r = request(vec![]);
    assert!(validate_monitor_request(&r).is_ok());
    let mut bad = request(vec![]);
    bad.hop_ms = 200;
    assert_eq!(validate_monitor_request(&bad), Err(MonitorRequestError::HopLongerThanWindow));
    bad.window_ms = 0;
    assert_eq!(validate_monitor_request(&bad), Err(MonitorRequestError::ZeroWindowOrHop));
    bad.duration_sec = 0;
    assert_eq!(validate_monitor_request(&bad), Err(MonitorRequestError::ZeroDuration));
    let (buses, groups) = prepare_monitor(&r, 2).unwrap();
    assert_eq!(buses.len(), 1);
    assert_eq!(buses[0].id, "MASTER");
    assert_eq!(buses[0].channels, vec![1, 2]);
    assert!(groups.is_empty());
    let two = request(vec![bus_map("WW_HI", &[1]), bus_map("WW_LO", &[2]), bus_map("GONE", &[9])]);
    let (b2, g2) = prepare_monitor(&two, 2).unwrap();
    assert_eq!(b2.len(), 2);
    assert_eq!(g2.len(), 2);
    assert_eq!(g2[0].id, "WW_ALL");
    assert_eq!(g2[1].id, "ORCH_ALL");
    assert!(prepare_monitor(&request(vec![bus_map("A", &[3])]), 2).is_err());
}

#[test]
fn make_it_better_asks_for_section_and_bars() {
    let i = parse_utterance("Make it better", &default_aliases());
    assert_eq!(i.decision, Decision::Clarify);
    assert_eq!(i.confidence_pct, 55);
    assert_eq!(
        i.reason_codes,
        vec![ReasonCode::MissingTimeWindow, ReasonCode::MissingTarget, ReasonCode::MissingOperation]
    );
    match answer_for(&i) {
        CommandAnswer::Clarify(p) => assert_eq!(
            p,
            "Please specify both section and bar range, for example: Violins bars 26-29."
        ),
        other => panic!("unexpected {:?}", other),
    }
}

#[test]
fn control_path_names_give_their_lane() {
    let t = ResolvedTarget { canonical_name: "STR_HI".to_string(), lane: LaneKind::EqPresenceGain };
    assert_eq!(target_lane(&lane_target_name(&t)).unwrap(), LaneKind::EqPresenceGain);
    assert_eq!(target_lane("HN::Volume").unwrap(), LaneKind::Volume);
    match target_lane("HN::Pan") {
        Err(TargetNameError::UnknownLane(s)) => assert_eq!(s, "Pan"),
        other => panic!("unexpected {:?}", other),
    }
    assert!(matches!(target_lane("HN"), Err(TargetNameError::InvalidFormat(_))));
}

#[test]
fn eq_lanes_fail_closed_and_fall_back_to_cc() {
    let mut c = LaneControls {
        channel: 16,
        volume_cc: 90,
        volume_mcu_channel: None,
        eq_low_cc: Some(110),
        eq_presence_cc: Some(111),
        eq_air_cc: None,
        eq_low_mcu_channel: Some(3),
        eq_presence_mcu_channel: None,
        eq_air_mcu_channel: Some(4),
    };
    assert_eq!(route_lane_write(&c, LaneKind::Volume, WriteProtocol::CcLearn), Ok(LaneRoute::Cc { channel: 16, cc: 90 }));
    assert_eq!(route_lane_write(&c, LaneKind::Volume, WriteProtocol::McuFader), Err(LaneRouteError::McuChannelMissing));
    assert_eq!(LaneRouteError::McuChannelMissing.code(), "mcu_channel_missing_for_target");
    assert_eq!(route_lane_write(&c, LaneKind::EqLowGain, WriteProtocol::McuFader), Ok(LaneRoute::Fader { mcu_channel: 3 }));
    assert_eq!(route_lane_write(&c, LaneKind::EqLowGain, WriteProtocol::CcLearn), Ok(LaneRoute::Cc { channel: 16, cc: 110 }));
    assert_eq!(route_lane_write(&c, LaneKind::EqPresenceGain, WriteProtocol::McuFader), Ok(LaneRoute::Cc { channel: 16, cc: 111 }));
    assert_eq!(route_lane_write(&c, LaneKind::EqAirGain, WriteProtocol::McuFader), Err(LaneRouteError::EqLaneUnmapped(LaneKind::EqAirGain)));
    assert_eq!(LaneRouteError::EqLaneUnmapped(LaneKind::EqAirGain).code(), "eq_lane_mapping_missing");
    c.volume_mcu_channel = Some(1);
    assert_eq!(route_lane_write(&c, LaneKind::Volume, WriteProtocol::McuFader), Ok(LaneRoute::Fader { mcu_channel: 1 }));
}
