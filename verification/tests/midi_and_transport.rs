use mixct::hotkey::{
    parse_note_map_spec, plan_hotkey_seek, prepare_hotkey_bridge, route_trigger, select_port_index,
    BeatSpec, BridgeError, HotkeySeekError, NoteMapError, PortError,
};
use mixct::midi::{
    cc_message, nav_note, note_messages, parse_note_on, parse_pitch_bend, pitch_bend_message,
    sweep_values, transport_messages, undo_message, validate_sweep, HotkeyAction, McuTransportAction,
    MidiError, NavAction, SweepError, UndoSendError, UndoTrigger,
};
use mixct::mtc::{
    parse_full_frame_sysex, parse_transport_event, DisplayBasis, FrameRate, MtcSource, MtcTime,
    QfParser, TransportEvent, TransportTracker,
};

#[test]
fn hotkey_default_notes() {
    assert_eq!(HotkeyAction::Home.default_note(), 36);
    assert_eq!(HotkeyAction::BarBack.default_note(), 37);
    assert_eq!(HotkeyAction::BarForward.default_note(), 38);
    assert_eq!(HotkeyAction::BeatBack.default_note(), 39);
    assert_eq!(HotkeyAction::BeatForward.default_note(), 40);
}

#[test]
fn note_on_and_off_messages() {
    let (on, off) = note_messages(1, 60, 100).unwrap();
    assert_eq!(on, [0x90, 60, 100]);
    assert_eq!(off, [0x90, 60, 0]);
    let (on16, _) = note_messages(16, 36, 127).unwrap();
    assert_eq!(on16[0], 0x9F);
    assert!(matches!(note_messages(0, 60, 100), Err(MidiError::InvalidChannel(0))));
    assert!(matches!(note_messages(17, 60, 100), Err(MidiError::InvalidChannel(17))));
}

#[test]
fn control_change_and_pitch_bend_messages() {
    assert_eq!(cc_message(16, 90, 64).unwrap(), [0xBF, 90, 64]);
    assert_eq!(pitch_bend_message(1, 8192).unwrap(), [0xE0, 0x00, 0x40]);
    assert_eq!(pitch_bend_message(2, 20000).unwrap(), [0xE1, 0x7F, 0x7F]);
    assert!(cc_message(0, 1, 1).is_err());
}

#[test]
fn pitch_bend_parses_back() {
    let m = pitch_bend_message(3, 1234).unwrap();
    assert_eq!(parse_pitch_bend(&m), Some((3, 1234)));
    assert_eq!(parse_pitch_bend(&[0xB0, 1, 2]), None);
    assert_eq!(parse_pitch_bend(&[0xE0, 1]), None);
    assert_eq!(parse_pitch_bend(&[0xE5, 0x7F, 0x7F]), Some((6, 16383)));
}

#[test]
fn note_on_parses_back() {
    let (on, off) = note_messages(10, 37, 90).unwrap();
    assert_eq!(parse_note_on(&on), Some((10, 37, 90)));
    assert_eq!(parse_note_on(&off), None);
    assert_eq!(parse_note_on(&[0x90, 37, 0]), None);
}

#[test]
fn undo_messages_need_a_trigger() {
    let t = UndoTrigger { channel: 16, cc: 119, value: 127 };
    assert_eq!(undo_message(Some(t), true).unwrap(), [0xBF, 119, 127]);
    assert!(matches!(undo_message(None, true), Err(UndoSendError::PrimaryNotConfigured)));
    assert!(matches!(undo_message(None, false), Err(UndoSendError::FallbackNotConfigured)));
    let bad = UndoTrigger { channel: 0, cc: 1, value: 1 };
    assert!(matches!(
        undo_message(Some(bad), true),
        Err(UndoSendError::Midi(MidiError::InvalidChannel(0)))
    ));
}

#[test]
fn transport_button_messages() {
    let m = transport_messages(McuTransportAction::Play);
    assert_eq!(m.press, [0x90, 0x5E, 0x7F]);
    assert_eq!(m.release, [0x90, 0x5E, 0x00]);
    assert_eq!(m.mmc, [0xF0, 0x7F, 0x7F, 0x06, 0x02, 0xF7]);
    assert_eq!(m.label, "play");
    assert_eq!(transport_messages(McuTransportAction::Stop).mmc[4], 0x01);
    assert_eq!(nav_note(NavAction::Rewind), 0x5B);
    assert_eq!(nav_note(NavAction::FastForward), 0x5C);
}

#[test]
fn sweep_checks_and_values() {
    assert!(matches!(validate_sweep(17, 0, 127, 8), Err(SweepError::InvalidChannel(17))));
    assert!(matches!(validate_sweep(1, 10, 10, 8), Err(SweepError::MinNotBelowMax)));
    assert!(matches!(validate_sweep(1, 0, 10, 0), Err(SweepError::ZeroStep)));
    assert!(validate_sweep(1, 0, 10, 4).is_ok());
    assert_eq!(sweep_values(0, 10, 4), vec![0, 4, 8, 10, 10, 6, 2, 0]);
}

#[test]
fn note_map_default_and_custom() {
    let d = parse_note_map_spec(None).unwrap();
    assert_eq!(d.get(&36), Some(&83));
    assert_eq!(d.get(&40), Some(&85));
    assert_eq!(d.len(), 5);
    let m = parse_note_map_spec(Some(" 60:10 , ,61: 11")).unwrap();
    assert_eq!(m.len(), 2);
    assert_eq!(m.get(&60), Some(&10));
    assert_eq!(m.get(&61), Some(&11));
    match parse_note_map_spec(Some("60-10")) {
        Err(NoteMapError::InvalidPair(p)) => assert_eq!(p, "60-10"),
        other => panic!("unexpected {:?}", other),
    }
    match parse_note_map_spec(Some("300:1")) {
        Err(NoteMapError::InvalidNote(p)) => assert_eq!(p, "300:1"),
        other => panic!("unexpected {:?}", other),
    }
    match parse_note_map_spec(Some("1:x")) {
        Err(NoteMapError::InvalidKeycode(p)) => assert_eq!(p, "1:x"),
        other => panic!("unexpected {:?}", other),
    }
}

#[test]
fn bridge_setup_and_routing() {
    assert!(matches!(prepare_hotkey_bridge(Some(0), None), Err(BridgeError::InvalidChannelFilter(0))));
    assert!(matches!(prepare_hotkey_bridge(None, Some(" , ")), Err(BridgeError::EmptyNoteMap)));
    let map = prepare_hotkey_bridge(Some(2), None).unwrap();
    assert_eq!(route_trigger(Some(2), &map, 2, 36), Some(83));
    assert_eq!(route_trigger(Some(2), &map, 3, 36), None);
    assert_eq!(route_trigger(None, &map, 9, 99), None);
}

#[test]
fn hotkey_seek_plan() {
    let r = plan_hotkey_seek(1, 5, BeatSpec::Whole(3), 0, true).unwrap();
    assert!(r.home_sent);
    assert_eq!(r.bar_steps, 4);
    assert_eq!(r.beat_steps, 2);
    assert_eq!(r.target_bar, 5);
    assert!(matches!(plan_hotkey_seek(0, 5, BeatSpec::Whole(1), 0, true), Err(HotkeySeekError::InvalidChannel(0))));
    assert!(matches!(plan_hotkey_seek(1, 0, BeatSpec::Whole(1), 0, true), Err(HotkeySeekError::BarNotOneBased)));
    assert!(matches!(plan_hotkey_seek(1, 2, BeatSpec::BelowOne, 0, true), Err(HotkeySeekError::BeatBelowOne)));
    assert!(matches!(plan_hotkey_seek(1, 2, BeatSpec::Whole(1), 5, true), Err(HotkeySeekError::TickNotSupported)));
    assert!(matches!(plan_hotkey_seek(1, 2, BeatSpec::Fractional, 0, true), Err(HotkeySeekError::FractionalBeat)));
}

#[test]
fn port_selection_by_name() {
    let names = vec!["IAC Driver Bus 1".to_string(), "Network Session 1".to_string()];
    assert_eq!(select_port_index(&names, None, "network session").unwrap(), 1);
    assert_eq!(select_port_index(&names, Some("iac"), "network session").unwrap(), 0);
    assert!(matches!(select_port_index(&names, Some("nope"), "x"), Err(PortError::NotFound(h)) if h == "nope"));
    let other = vec!["A".to_string()];
    assert_eq!(select_port_index(&other, None, "network session").unwrap(), 0);
}

fn qf_bytes(h: u8, m: u8, s: u8, f: u8, rate: u8) -> Vec<u8> {
    vec![
        f & 0x0F,
        0x10 | ((f >> 4) & 0x01),
        0x20 | (s & 0x0F),
        0x30 | ((s >> 4) & 0x03),
        0x40 | (m & 0x0F),
        0x50 | ((m >> 4) & 0x03),
        0x60 | (h & 0x0F),
        0x70 | ((h >> 4) & 0x01) | (rate << 1),
    ]
}

#[test]
fn quarter_frames_give_the_position() {
    let mut p = QfParser::new();
    let bytes = qf_bytes(1, 23, 45, 17, 1);
    for (k, b) in bytes.iter().enumerate() {
        let r = p.ingest_qf(*b);
        if k < 7 {
            assert_eq!(r, None);
        } else {
            assert_eq!(
                r,
                Some(MtcTime {
                    hours: 1,
                    minutes: 23,
                    seconds: 45,
                    frames: 17,
                    rate: FrameRate::Fps25,
                    source: MtcSource::QuarterFrame
                })
            );
        }
    }
}

#[test]
fn last_quarter_frame_alone_is_not_enough() {
    let mut p = QfParser::new();
    assert_eq!(p.ingest_qf(0x70), None);
}

#[test]
fn full_frame_sysex_position() {
    let msg = [0xF0, 0x7F, 0x7F, 0x01, 0x01, 0x61, 0x02, 0x03, 0x04, 0xF7];
    let t = parse_full_frame_sysex(&msg).unwrap();
    assert_eq!(t.hours, 1);
    assert_eq!(t.rate, FrameRate::Fps30);
    assert_eq!((t.minutes, t.seconds, t.frames), (2, 3, 4));
    assert_eq!(t.source, MtcSource::FullFrame);
    assert_eq!(parse_full_frame_sysex(&msg[..9]), None);
    let mut bad = msg;
    bad[3] = 0x02;
    assert_eq!(parse_full_frame_sysex(&bad), None);
}

#[test]
fn transport_events_are_classified() {
    let mut p = QfParser::new();
    assert_eq!(parse_transport_event(&[0xFA], &mut p), Some(TransportEvent::Start));
    assert_eq!(parse_transport_event(&[0xFB], &mut p), Some(TransportEvent::Continue));
    assert_eq!(parse_transport_event(&[0xFC], &mut p), Some(TransportEvent::Stop));
    assert_eq!(parse_transport_event(&[0xF8], &mut p), Some(TransportEvent::Clock));
    assert_eq!(parse_transport_event(&[0xF2, 0x10, 0x02], &mut p), Some(TransportEvent::SongPosition(272)));
    assert_eq!(parse_transport_event(&[0xF2, 0x10], &mut p), None);
    assert_eq!(parse_transport_event(&[], &mut p), None);
    assert_eq!(parse_transport_event(&[0xF1, 0x05], &mut p), None);
}

#[test]
fn tracker_song_position_follows_clocks_while_playing() {
    let mut t = TransportTracker::new();
    t.apply(TransportEvent::SongPosition(16), 0);
    t.apply(TransportEvent::Start, 10);
    t.apply(TransportEvent::Clock, 20);
    t.apply(TransportEvent::Clock, 30);
    assert_eq!(t.display_basis(40), DisplayBasis::SongPosition { sixteenths: 16, clocks_since: 2 });
    assert!(t.shows_playing(40));
    t.apply(TransportEvent::Stop, 50);
    assert_eq!(t.display_basis(60), DisplayBasis::SongPosition { sixteenths: 16, clocks_since: 0 });
    assert!(t.shows_playing(60));
    assert!(!t.shows_playing(1000));
    assert_eq!(t.signal_events, 5);
}

#[test]
fn tracker_prefers_fresh_time_code() {
    let mut t = TransportTracker::new();
    assert_eq!(t.display_basis(0), DisplayBasis::Nothing);
    let pos = MtcTime { hours: 0, minutes: 1, seconds: 2, frames: 3, rate: FrameRate::Fps24, source: MtcSource::FullFrame };
    t.apply(TransportEvent::Position(pos), 1000);
    assert_eq!(t.display_basis(2500), DisplayBasis::TimeCode(pos));
    assert_eq!(t.display_basis(3001), DisplayBasis::Nothing);
    t.apply(TransportEvent::Clock, 3000);
    assert_eq!(t.display_basis(3500), DisplayBasis::Clocks(1));
}

#[test]
fn bridge_reports_the_bad_setting() {
    match prepare_hotkey_bridge(Some(2), Some("36")) {
        Err(BridgeError::NoteMap(NoteMapError::InvalidPair(p))) => assert_eq!(p, "36"),
        other => panic!("unexpected {:?}", other),
    }
    match prepare_hotkey_bridge(None, Some("36:x")) {
        Err(BridgeError::NoteMap(NoteMapError::InvalidKeycode(p))) => assert_eq!(p, "36:x"),
        other => panic!("unexpected {:?}", other),
    }
    assert!(matches!(prepare_hotkey_bridge(Some(17), Some("36")), Err(BridgeError::InvalidChannelFilter(17))));
    let m = prepare_hotkey_bridge(Some(16), Some("50:1")).unwrap();
    assert_eq!(m.len(), 1);
    assert_eq!(m.get(&50), Some(&1));
}
