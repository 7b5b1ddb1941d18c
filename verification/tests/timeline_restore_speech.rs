use std::collections::HashMap;

use mixct::ids::{captured_at_or_now, command_age_secs, fresh_id, CapturedAtError, UtcInstant};
use mixct::monitor::{
    audio_config_index, check_ltc_channel, choose_ltc_stream_config, validate_ltc_request,
    validate_transport_monitor_request, ConfigChoice, ConfigRange, FeedbackTracker, LtcPosition,
    LtcRequestError, LtcTally, TransportMonitorError,
};
use mixct::restore::{
    capture_undo_anchor, restore_from_anchor, restore_outcome, RestoreError, UndoExecutor,
};
use mixct::speech::{
    command_output_text, fallback_command, fallback_transcript_from, trim_string,
    AppleSpeechUnavailable, CommandAppleSpeech, CommandConfigError, ConsoleTts, FallbackConfig,
    FallbackError, JsonTranscript, MockAppleSpeech, SpeechBackend, TtsRoute,
};
use mixct::tempo::{bar_beat_position, tempo_index_at, MeterEvent};
use mixct::timeline::{
    dedup_tempo_points, dedup_time_sig_points, ParsedScore, ScoreEvent, ScoreEventKind,
    ScoreTimeline, ScoreTiming, TempoPoint, TimeSigPoint, TimelineError,
};

struct MockExec {
    fail_primary: bool,
}

impl UndoExecutor for MockExec {
    fn undo_primary(&mut self) -> Result<(), String> {
        if self.fail_primary {
            return Err("primary_failed".to_string());
        }
        Ok(())
    }
    fn undo_fallback(&mut self) -> Result<(), String> {
        Ok(())
    }
    fn verify_post_undo(&mut self) -> Result<(), String> {
        Ok(())
    }
}

struct ScriptedExec {
    primary: Result<(), String>,
    fallback: Result<(), String>,
    verify: Result<(), String>,
    calls: Vec<&'static str>,
}

impl UndoExecutor for ScriptedExec {
    fn undo_primary(&mut self) -> Result<(), String> {
        self.calls.push("primary");
        self.primary.clone()
    }
    fn undo_fallback(&mut self) -> Result<(), String> {
        self.calls.push("fallback");
        self.fallback.clone()
    }
    fn verify_post_undo(&mut self) -> Result<(), String> {
        self.calls.push("verify");
        self.verify.clone()
    }
}

#[test]
fn uses_fallback_when_primary_fails() {
    let anchor = capture_undo_anchor("c1");
    let mut ex = MockExec { fail_primary: true };
    assert!(restore_from_anchor(&mut ex, &anchor).is_ok());
}

#[test]
fn restore_reports_both_undo_paths_failing() {
    let anchor = capture_undo_anchor("c2");
    assert_eq!(anchor.command_id, "c2");
    assert_eq!(anchor.anchor_id.len(), 36);
    let mut ex = ScriptedExec {
        primary: Err("p".to_string()),
        fallback: Err("f".to_string()),
        verify: Ok(()),
        calls: Vec::new(),
    };
    let e = restore_from_anchor(&mut ex, &anchor).unwrap_err();
    assert_eq!(ex.calls, vec!["primary", "fallback"]);
    assert_eq!(
        e.message(),
        format!("undo failed: primary_and_fallback_failed for anchor {}: f", anchor.anchor_id)
    );
}

#[test]
fn restore_checks_after_primary() {
    let anchor = capture_undo_anchor("c3");
    let mut ex = ScriptedExec {
        primary: Ok(()),
        fallback: Err("unused".to_string()),
        verify: Err("lanes differ".to_string()),
        calls: Vec::new(),
    };
    let e = restore_from_anchor(&mut ex, &anchor).unwrap_err();
    assert_eq!(ex.calls, vec!["primary", "verify"]);
    assert!(matches!(e, RestoreError::VerificationFailed { .. }));
    assert_eq!(
        e.message(),
        format!("undo verification failed for anchor {}: lanes differ", anchor.anchor_id)
    );
    assert!(restore_outcome(&anchor, &None, &Some(Ok(()))).is_ok());
}

#[test]
fn fresh_ids_have_prefix_and_uuid() {
    let a = fresh_id("plan-");
    let b = fresh_id("plan-");
    assert!(a.starts_with("plan-"));
    assert_eq!(a.len(), 41);
    assert_ne!(a, b);
    assert_eq!(&a[13..14], "-");
}

fn ev(delta: u32, kind: ScoreEventKind) -> ScoreEvent {
    ScoreEvent { delta, kind }
}

#[test]
fn timeline_from_parsed_tracks() {
    let parsed = ParsedScore {
        timing: ScoreTiming::Metrical(480),
        tracks: vec![
            vec![ev(0, ScoreEventKind::TimeSignature(3, 2)), ev(960, ScoreEventKind::Tempo(600_000))],
            vec![ev(480, ScoreEventKind::Other), ev(480, ScoreEventKind::Tempo(400_000)), ev(0, ScoreEventKind::Tempo(450_000))],
        ],
    };
    let t = ScoreTimeline::from_parsed(&parsed).unwrap();
    assert_eq!(t.ppq(), 480);
    assert_eq!(
        t.tempo_points(),
        vec![TempoPoint { tick: 0, us_per_quarter: 500_000 }, TempoPoint { tick: 960, us_per_quarter: 450_000 }]
    );
    assert_eq!(t.time_sig_points(), vec![TimeSigPoint { tick: 0, numerator: 3, denominator: 4 }]);
    let s = t.summary();
    assert_eq!((s.ppq, s.tempo_events, s.time_signature_events), (480, 2, 1));
    assert_eq!(t.tempo_segment_for_tick(0), 0);
    assert_eq!(t.tempo_segment_for_tick(959), 0);
    assert_eq!(t.tempo_segment_for_tick(5000), 1);
}

#[test]
fn timeline_refuses_timecode_and_bad_bytes() {
    let smpte = ParsedScore { timing: ScoreTiming::Timecode, tracks: vec![] };
    assert_eq!(ScoreTimeline::from_parsed(&smpte).err(), Some(TimelineError::SmpteTiming));
    assert_eq!(ScoreTimeline::from_midi_bytes(b"not a midi file").err(), Some(TimelineError::InvalidMidi));
}

#[test]
fn timeline_from_midi_bytes() {
    // Header: format 0, one track, 96 ticks per quarter note.
    let mut data = vec![0x4D, 0x54, 0x68, 0x64, 0, 0, 0, 6, 0, 0, 0, 1, 0, 96];
    let track = vec![
        0x00, 0xFF, 0x51, 0x03, 0x07, 0xA1, 0x20, // tempo 500000 at 0
        0x60, 0xFF, 0x58, 0x04, 0x06, 0x03, 0x18, 0x08, // 6/8 at 96
        0x00, 0xFF, 0x2F, 0x00,
    ];
    data.extend_from_slice(&[0x4D, 0x54, 0x72, 0x6B, 0, 0, 0, track.len() as u8]);
    data.extend_from_slice(&track);
    let t = ScoreTimeline::from_midi_bytes(&data).unwrap();
    assert_eq!(t.ppq(), 96);
    assert_eq!(t.tempo_points(), vec![TempoPoint { tick: 0, us_per_quarter: 500_000 }]);
    assert_eq!(
        t.time_sig_points(),
        vec![TimeSigPoint { tick: 0, numerator: 4, denominator: 4 }, TimeSigPoint { tick: 96, numerator: 6, denominator: 8 }]
    );
}

#[test]
fn dedup_keeps_last_of_each_tick() {
    let pts = vec![
        TempoPoint { tick: 0, us_per_quarter: 1 },
        TempoPoint { tick: 0, us_per_quarter: 2 },
        TempoPoint { tick: 5, us_per_quarter: 3 },
        TempoPoint { tick: 5, us_per_quarter: 4 },
        TempoPoint { tick: 7, us_per_quarter: 5 },
    ];
    assert_eq!(
        dedup_tempo_points(pts),
        vec![
            TempoPoint { tick: 0, us_per_quarter: 2 },
            TempoPoint { tick: 5, us_per_quarter: 4 },
            TempoPoint { tick: 7, us_per_quarter: 5 }
        ]
    );
    let sigs = vec![
        TimeSigPoint { tick: 3, numerator: 4, denominator: 4 },
        TimeSigPoint { tick: 3, numerator: 3, denominator: 4 },
    ];
    assert_eq!(dedup_time_sig_points(sigs), vec![TimeSigPoint { tick: 3, numerator: 3, denominator: 4 }]);
    assert!(dedup_tempo_points(vec![]).is_empty());
}

#[test]
fn converts_bar_beat_position() {
    let p = bar_beat_position(5, 0, &vec![(1, 0)], &vec![MeterEvent { bar: 1, numerator: 4, denominator: 4 }]).unwrap();
    assert_eq!(p.total_beats, 16);
    assert_eq!(p.tempo_index, Some(0));
    assert!(bar_beat_position(0, 1, &vec![], &vec![]).is_none());
    let q = bar_beat_position(3, 2, &vec![], &vec![MeterEvent { bar: 5, numerator: 7, denominator: 8 }]).unwrap();
    assert_eq!(q.total_beats, 10);
    assert_eq!(q.tempo_index, None);
}

#[test]
fn tempo_in_force_is_last_greatest() {
    let keys = vec![(1, 0), (3, 2), (3, 2), (2, 9), (9, 0)];
    assert_eq!(tempo_index_at(&keys, 4), Some(2));
    assert_eq!(tempo_index_at(&keys, 2), Some(3));
    assert_eq!(tempo_index_at(&keys, 0), None);
    let meters = vec![
        MeterEvent { bar: 1, numerator: 4, denominator: 4 },
        MeterEvent { bar: 3, numerator: 3, denominator: 4 },
    ];
    assert_eq!(bar_beat_position(4, 1, &vec![], &meters).unwrap().total_beats, 10);
}

#[test]
fn speech_backends() {
    let t = MockAppleSpeech.transcribe_push_to_talk(None).unwrap();
    assert_eq!(t.text, "mock transcript");
    assert_eq!(t.confidence_permille, 900);
    assert_eq!(t.backend, "apple_speech_mock");
    assert!(AppleSpeechUnavailable.transcribe_push_to_talk(Some("x")).unwrap_err().starts_with("speech sidecar is not attached"));
}

#[test]
fn command_recognizer_configuration() {
    assert_eq!(CommandAppleSpeech::from_env_value(None).err(), Some(CommandConfigError::NotSet));
    assert_eq!(CommandAppleSpeech::from_env_value(Some("  ")).err(), Some(CommandConfigError::Empty));
    let c = CommandAppleSpeech::from_env_value(Some("  stt --once ")).unwrap();
    assert_eq!(c.command(), "stt --once");
    assert_eq!(CommandConfigError::NotSet.code(), "MIXCT_APPLE_STT_CMD_not_set");
}

#[test]
fn recognizer_output_json_and_plain() {
    let c = CommandAppleSpeech::from_env_value(Some("stt")).unwrap();
    let json = Some(JsonTranscript { text: "  hello  ".to_string(), confidence_permille: None, backend: None });
    let t = c.transcript_from("{\"text\":\"  hello  \"}", &json).unwrap();
    assert_eq!((t.text.as_str(), t.confidence_permille, t.backend.as_str()), ("hello", 800, "apple_speech_cmd"));
    let t2 = c.transcript_from("\n  \nviolins up\nmore", &None).unwrap();
    assert_eq!((t2.text.as_str(), t2.confidence_permille), ("violins up", 780));
    let blank = Some(JsonTranscript { text: " ".to_string(), confidence_permille: Some(100), backend: None });
    assert_eq!(c.transcript_from("{}", &blank).unwrap_err(), "speech_output_text_empty");
    assert_eq!(c.transcript_from(" \n ", &None).unwrap_err(), "speech_plaintext_output_empty");
    let not_json = Some(JsonTranscript { text: "ignored".to_string(), confidence_permille: None, backend: None });
    assert_eq!(c.transcript_from("plain words", &not_json).unwrap().text, "plain words");
}

#[test]
fn command_output_status() {
    assert_eq!(
        command_output_text("MIXCT_APPLE_STT_CMD", false, "exit status: 1", "", " boom \n").unwrap_err(),
        "MIXCT_APPLE_STT_CMD_failed status=exit status: 1 stderr=boom"
    );
    assert_eq!(
        command_output_text("MIXCT_LOCAL_STT_CMD", true, "", " \n", "").unwrap_err(),
        "MIXCT_LOCAL_STT_CMD_empty_output"
    );
    assert_eq!(command_output_text("X", true, "", "  hi\n", "").unwrap(), "hi");
    assert_eq!(trim_string("\t a b \n"), "a b");
}

#[test]
fn fallback_recognizer_rules() {
    let mut cfg = FallbackConfig {
        enabled: true,
        feature_flag: "stt.local_fallback.enabled".to_string(),
        engine: "mlx_whisper_local_only".to_string(),
        command: Some("  whisper  ".to_string()),
    };
    assert_eq!(fallback_command(&cfg, Some("env")).unwrap(), "whisper");
    cfg.command = Some("   ".to_string());
    assert_eq!(fallback_command(&cfg, Some("env cmd")).unwrap(), "env cmd");
    assert_eq!(fallback_command(&cfg, None), Err(FallbackError::CommandNotConfigured));
    cfg.engine = "cloud".to_string();
    assert_eq!(fallback_command(&cfg, None), Err(FallbackError::UnsupportedEngine));
    cfg.enabled = false;
    assert_eq!(fallback_command(&cfg, None), Err(FallbackError::Disabled));
    let j = Some(JsonTranscript { text: "x".to_string(), confidence_permille: Some(1000), backend: Some("b".to_string()) });
    let t = fallback_transcript_from("{..", &j).unwrap();
    assert_eq!((t.confidence_permille, t.backend.as_str()), (1000, "b"));
    assert_eq!(fallback_transcript_from("words", &None).unwrap().confidence_permille, 720);
    assert_eq!(fallback_transcript_from("", &None).unwrap_err(), "fallback_plaintext_output_empty");
}

#[test]
fn console_speaker_route() {
    assert_eq!(ConsoleTts.route(Some("1")), TtsRoute::PrintOnly);
    assert_eq!(ConsoleTts.route(Some("0")), TtsRoute::SystemVoiceThenPrint);
    assert_eq!(ConsoleTts.route(None), TtsRoute::SystemVoiceThenPrint);
}

#[test]
fn fader_feedback_keeps_latest_per_bus() {
    let mut strips = HashMap::new();
    strips.insert(1u8, "STR_HI".to_string());
    strips.insert(2u8, "BR_LO".to_string());
    strips.insert(3u8, "STR_HI".to_string());
    let mut f = FeedbackTracker::new();
    f.apply(2, 100, &strips);
    f.apply(1, 200, &strips);
    f.apply(9, 300, &strips);
    f.apply(3, 400, &strips);
    assert_eq!(f.event_count, 4);
    assert_eq!(f.entries.len(), 2);
    let sorted = f.sorted_by_channel();
    assert_eq!(sorted[0].target, "BR_LO");
    assert_eq!(sorted[0].mcu_channel, 2);
    assert_eq!(sorted[1].target, "STR_HI");
    assert_eq!((sorted[1].mcu_channel, sorted[1].value_14bit), (3, 400));
}

#[test]
fn ltc_requests_and_tally() {
    assert_eq!(validate_ltc_request(0, 1), Err(LtcRequestError::ZeroDuration));
    assert_eq!(validate_ltc_request(5, 0), Err(LtcRequestError::InvalidChannel));
    assert_eq!(validate_ltc_request(5, 513), Err(LtcRequestError::InvalidChannel));
    assert!(validate_ltc_request(5, 512).is_ok());
    assert_eq!(check_ltc_channel(3, 2), Err(LtcRequestError::ChannelOutOfRange));
    let mut t = LtcTally::new();
    let a = LtcPosition { hour: 0, minute: 0, second: 1, frame: 2 };
    let b = LtcPosition { hour: 0, minute: 0, second: 1, frame: 3 };
    t.record(a);
    t.record(a);
    t.record(b);
    assert_eq!((t.frame_count, t.unique_positions), (3, 2));
}

#[test]
fn stream_configuration_choice() {
    let ranges = vec![
        ConfigRange { is_f32: false, channels: 8, min_rate: 44100, max_rate: 96000 },
        ConfigRange { is_f32: true, channels: 2, min_rate: 44100, max_rate: 48000 },
        ConfigRange { is_f32: true, channels: 8, min_rate: 96000, max_rate: 96000 },
    ];
    assert_eq!(choose_ltc_stream_config(&ranges, Some(48000)), Some(ConfigChoice { index: 1, rate: 48000 }));
    assert_eq!(choose_ltc_stream_config(&ranges, None), Some(ConfigChoice { index: 2, rate: 96000 }));
    assert_eq!(choose_ltc_stream_config(&ranges, Some(8000)), Some(ConfigChoice { index: 2, rate: 96000 }));
    assert_eq!(choose_ltc_stream_config(&vec![], None), None);
    assert_eq!(audio_config_index(&ranges, 96000), Some(0));
    assert_eq!(audio_config_index(&ranges, 8000), None);
}

#[test]
fn capture_times_and_command_age() {
    let t = captured_at_or_now(Some("2024-01-01T00:00:00Z")).unwrap();
    assert_eq!(t, UtcInstant { secs: 1_704_067_200, nanos: 0 });
    assert_eq!(captured_at_or_now(Some("2024-01-01T01:00:00.25+01:00")).unwrap(), UtcInstant {
        secs: 1_704_067_200,
        nanos: 250_000_000,
    });
    assert_eq!(captured_at_or_now(Some("yesterday")), Err(CapturedAtError::NotRfc3339));
    assert_eq!(CapturedAtError::NotRfc3339.message(), "captured_at must be RFC3339");
    assert!(captured_at_or_now(None).unwrap().secs > 1_704_067_200);
    let leap = captured_at_or_now(Some("2016-12-31T23:59:60Z")).unwrap();
    assert_eq!(leap, UtcInstant { secs: 1_483_228_799, nanos: 1_000_000_000 });

    let a = UtcInstant { secs: 100, nanos: 500_000_000 };
    let b = UtcInstant { secs: 110, nanos: 400_000_000 };
    assert_eq!(command_age_secs(a, b), 9);
    assert_eq!(command_age_secs(UtcInstant { secs: 110, nanos: 0 }, a), -9);
    let before_leap = UtcInstant { secs: 86_398, nanos: 0 };
    let in_leap = UtcInstant { secs: 86_399, nanos: 1_500_000_000 };
    assert_eq!(command_age_secs(before_leap, in_leap), 2);
    assert_eq!(command_age_secs(in_leap, UtcInstant { secs: 86_400, nanos: 0 }), 0);
    assert_eq!(command_age_secs(UtcInstant { secs: i64::MIN, nanos: 0 }, UtcInstant { secs: i64::MAX, nanos: 0 }), i64::MAX);
}

#[test]
fn transport_monitor_request_checks() {
    assert_eq!(validate_transport_monitor_request(0, 3), Err(TransportMonitorError::ZeroDuration));
    assert_eq!(validate_transport_monitor_request(5, 0), Err(TransportMonitorError::NoInputPorts));
    assert_eq!(validate_transport_monitor_request(5, 1), Ok(()));
    assert_eq!(TransportMonitorError::NoInputPorts.code(), "no_midi_input_ports_found");
}
