//! MIDI message framing: channel voice messages (note, control change, pitch
//! bend), Mackie Control transport buttons with their MMC fallback, the
//! hotkey trigger notes and the control-change sweep used to teach a DAW.
use vstd::prelude::*;

use crate::types::LaneKind;

verus! {

/// A MIDI channel as users number them, 1 to 16.
pub open spec fn valid_channel(channel: u8) -> bool {
    1 <= channel <= 16
}

/// The status byte of a channel voice message of kind `kind_nibble`
/// (9 note-on, 11 control change, 14 pitch bend) on a 1-based channel.
pub open spec fn status_byte(kind_nibble: u8, channel: u8) -> u8 {
    (kind_nibble * 16 + (channel - 1)) as u8
}

/// A status byte holds the message kind in its high nibble and the
/// 0-based channel in its low nibble.
pub proof fn lemma_status_byte(kind_nibble: u8, channel: u8)
    requires
        kind_nibble == 9 || kind_nibble == 11 || kind_nibble == 14,
        valid_channel(channel),
    ensures
        status_byte(kind_nibble, channel) / 16 == kind_nibble,
        status_byte(kind_nibble, channel) % 16 == channel - 1,
{
}

/// Why a MIDI message could not be framed.
#[derive(Debug, Clone, Copy, PartialEq, Eq, Structural)]
pub enum MidiError {
    /// The channel was not in 1..=16.
    InvalidChannel(u8),
}

fn status_for(kind_nibble: u8, channel: u8) -> (r: Result<u8, MidiError>)
    requires
        kind_nibble == 9 || kind_nibble == 11 || kind_nibble == 14,
    ensures
        valid_channel(channel) ==> r == Ok::<u8, MidiError>(status_byte(kind_nibble, channel)),
        !valid_channel(channel) ==> r == Err::<u8, MidiError>(MidiError::InvalidChannel(channel)),
{
    if channel < 1 || channel > 16 {
        return Err(MidiError::InvalidChannel(channel));
    }
    let high: u8 = kind_nibble * 16;
    let c1: u8 = channel - 1;
    let s = high | (c1 & 0x0F);
    assert(s == high + c1) by (bit_vector)
        requires
            s == high | (c1 & 0x0F),
            c1 < 16,
            high == 144 || high == 176 || high == 224,
    ;
    Ok(s)
}

/// Note-on then note-off (velocity 0) for `note` on `channel`.
pub fn note_messages(channel: u8, note: u8, velocity: u8) -> (r: Result<([u8; 3], [u8; 3]), MidiError>)
    ensures
        valid_channel(channel) ==> (r matches Ok((on, off)) && on@ == seq![
            status_byte(9, channel),
            note,
            velocity,
        ] && off@ == seq![status_byte(9, channel), note, 0u8]),
        !valid_channel(channel) ==> r == Err::<([u8; 3], [u8; 3]), MidiError>(
            MidiError::InvalidChannel(channel),
        ),
{
    let status = status_for(9, channel)?;
    let on = [status, note, velocity];
    let off = [status, note, 0x00];
    assert(on@ =~= seq![status, note, velocity]);
    assert(off@ =~= seq![status, note, 0u8]);
    Ok((on, off))
}

/// A control-change message.
pub fn cc_message(channel: u8, cc: u8, value: u8) -> (r: Result<[u8; 3], MidiError>)
    ensures
        valid_channel(channel) ==> (r matches Ok(m) && m@ == seq![
            status_byte(11, channel),
            cc,
            value,
        ]),
        !valid_channel(channel) ==> r == Err::<[u8; 3], MidiError>(
            MidiError::InvalidChannel(channel),
        ),
{
    let status = status_for(11, channel)?;
    let m = [status, cc, value];
    assert(m@ =~= seq![status, cc, value]);
    Ok(m)
}

/// The largest 14-bit value.
pub open spec fn pitch_bend_max() -> u16 {
    16383
}

/// A pitch-bend message carrying `value` (clamped to 14 bits) as a 7-bit
/// low byte followed by a 7-bit high byte.
pub fn pitch_bend_message(channel: u8, value: u16) -> (r: Result<[u8; 3], MidiError>)
    ensures
        valid_channel(channel) ==> (r matches Ok(m) && ({
            let v = if value > pitch_bend_max() { pitch_bend_max() } else { value };
            m@ == seq![status_byte(14, channel), (v % 128) as u8, (v / 128) as u8]
        })),
        !valid_channel(channel) ==> r == Err::<[u8; 3], MidiError>(
            MidiError::InvalidChannel(channel),
        ),
{
    let status = status_for(14, channel)?;
    let v: u16 = if value > 16383 { 16383 } else { value };
    let lsb: u8 = (v & 0x7F) as u8;
    let msb: u8 = ((v >> 7) & 0x7F) as u8;
    assert((v & 0x7F) == v % 128 && ((v >> 7) & 0x7F) == v / 128) by (bit_vector)
        requires
            v <= 16383,
    ;
    let m = [status, lsb, msb];
    assert(m@ =~= seq![status, lsb, msb]);
    Ok(m)
}

/// A pitch-bend message read back: its 1-based channel and 14-bit value.
pub open spec fn spec_parse_pitch_bend(msg: Seq<u8>) -> Option<(u8, u16)> {
    if msg.len() < 3 || msg[0] / 16 != 14 {
        None
    } else {
        Some(((msg[0] % 16 + 1) as u8, ((msg[2] as u16) << 7u16) | (msg[1] as u16)))
    }
}

pub fn parse_pitch_bend(msg: &[u8]) -> (r: Option<(u8, u16)>)
    ensures
        r == spec_parse_pitch_bend(msg@),
{
    if msg.len() < 3 {
        return None;
    }
    let status = msg[0];
    if status & 0xF0 != 0xE0 {
        assert(status / 16 != 14) by (bit_vector)
            requires
                status & 0xF0 != 0xE0,
        ;
        return None;
    }
    assert(status / 16 == 14 && (status & 0x0F) == status % 16) by (bit_vector)
        requires
            status & 0xF0 == 0xE0,
    ;
    let channel = (status & 0x0F) + 1;
    let lsb = msg[1] as u16;
    let msb = msg[2] as u16;
    let value = (msb << 7) | lsb;
    Some((channel, value))
}

/// A note-on with non-zero velocity read back: channel, note and velocity.
pub open spec fn spec_parse_note_on(msg: Seq<u8>) -> Option<(u8, u8, u8)> {
    if msg.len() < 3 || msg[0] / 16 != 9 || msg[2] == 0 {
        None
    } else {
        Some(((msg[0] % 16 + 1) as u8, msg[1], msg[2]))
    }
}

pub fn parse_note_on(msg: &[u8]) -> (r: Option<(u8, u8, u8)>)
    ensures
        r == spec_parse_note_on(msg@),
{
    if msg.len() < 3 {
        return None;
    }
    let status = msg[0];
    if status & 0xF0 != 0x90 {
        assert(status / 16 != 9) by (bit_vector)
            requires
                status & 0xF0 != 0x90,
        ;
        return None;
    }
    assert(status / 16 == 9 && (status & 0x0F) == status % 16) by (bit_vector)
        requires
            status & 0xF0 == 0x90,
    ;
    let vel = msg[2];
    if vel == 0 {
        return None;
    }
    let ch = (status & 0x0F) + 1;
    Some((ch, msg[1], vel))
}

/// Reading back a framed pitch-bend message gives its channel and the
/// clamped value.
pub proof fn lemma_pitch_bend_round_trip(channel: u8, value: u16, m: Seq<u8>)
    requires
        valid_channel(channel),
        m == seq![
            status_byte(14, channel),
            ((if value > pitch_bend_max() { pitch_bend_max() } else { value }) % 128) as u8,
            ((if value > pitch_bend_max() { pitch_bend_max() } else { value }) / 128) as u8,
        ],
    ensures
        spec_parse_pitch_bend(m) == Some(
            (channel, if value > pitch_bend_max() { pitch_bend_max() } else { value }),
        ),
{
    let v: u16 = if value > pitch_bend_max() { pitch_bend_max() } else { value };
    let lo: u8 = (v % 128) as u8;
    let hi: u8 = (v / 128) as u8;
    assert((((hi as u16) << 7u16) | (lo as u16)) == v) by (bit_vector)
        requires
            v <= 16383,
            lo == (v % 128) as u8,
            hi == (v / 128) as u8,
    ;
}

/// Reading back a framed note-on gives its channel, note and velocity,
/// unless the velocity is zero (which MIDI treats as a note-off).
pub proof fn lemma_note_on_round_trip(channel: u8, note: u8, velocity: u8, on: Seq<u8>, off: Seq<u8>)
    requires
        valid_channel(channel),
        on == seq![status_byte(9, channel), note, velocity],
        off == seq![status_byte(9, channel), note, 0u8],
    ensures
        velocity != 0 ==> spec_parse_note_on(on) == Some((channel, note, velocity)),
        velocity == 0 ==> spec_parse_note_on(on) is None,
        spec_parse_note_on(off) is None,
{
}

/// The DAW transport functions reachable by hotkey trigger notes.
#[derive(Debug, Clone, Copy, PartialEq, Eq, Structural)]
pub enum HotkeyAction {
    Home,
    BarBack,
    BarForward,
    BeatBack,
    BeatForward,
}

pub open spec fn hotkey_note(a: HotkeyAction) -> u8 {
    match a {
        HotkeyAction::Home => 36,
        HotkeyAction::BarBack => 37,
        HotkeyAction::BarForward => 38,
        HotkeyAction::BeatBack => 39,
        HotkeyAction::BeatForward => 40,
    }
}

impl HotkeyAction {
    /// The trigger note assigned to the action (a low, non-musical range).
    pub fn default_note(self) -> (n: u8)
        ensures
            n == hotkey_note(self),
    {
        match self {
            HotkeyAction::Home => 36,
            HotkeyAction::BarBack => 37,
            HotkeyAction::BarForward => 38,
            HotkeyAction::BeatBack => 39,
            HotkeyAction::BeatForward => 40,
        }
    }
}

/// Distinct actions use distinct trigger notes.
pub proof fn lemma_hotkey_notes_distinct(a: HotkeyAction, b: HotkeyAction)
    ensures
        a != b ==> hotkey_note(a) != hotkey_note(b),
{
}

/// How automation values are written to the DAW.
#[derive(Debug, Clone, Copy, PartialEq, Eq, Structural)]
pub enum WriteProtocol {
    CcLearn,
    McuFader,
}

/// The controllers that move the lanes of one bus: its fader (a controller
/// on `channel`, and a control-surface strip where it has one) and, where
/// mapped, the controller and strip of each EQ gain.
#[derive(Debug, Clone, Copy, PartialEq, Eq, Structural)]
pub struct LaneControls {
    pub channel: u8,
    pub volume_cc: u8,
    pub volume_mcu_channel: Option<u8>,
    pub eq_low_cc: Option<u8>,
    pub eq_presence_cc: Option<u8>,
    pub eq_air_cc: Option<u8>,
    pub eq_low_mcu_channel: Option<u8>,
    pub eq_presence_mcu_channel: Option<u8>,
    pub eq_air_mcu_channel: Option<u8>,
}

/// Where a lane's values are sent.
#[derive(Debug, Clone, Copy, PartialEq, Eq, Structural)]
pub enum LaneRoute {
    /// Control changes of `cc` on `channel`.
    Cc { channel: u8, cc: u8 },
    /// Pitch bend on the control-surface strip `mcu_channel`.
    Fader { mcu_channel: u8 },
}

/// Why a lane cannot be written.
#[derive(Debug, Clone, Copy, PartialEq, Eq, Structural)]
pub enum LaneRouteError {
    /// The fader is written through the control surface but the bus has no strip.
    McuChannelMissing,
    /// The EQ lane has no controller mapped.
    EqLaneUnmapped(LaneKind),
}

impl LaneRouteError {
    pub fn code(&self) -> (m: &'static str)
        ensures
            m@ == (match self {
                LaneRouteError::McuChannelMissing => "mcu_channel_missing_for_target"@,
                LaneRouteError::EqLaneUnmapped(_) => "eq_lane_mapping_missing"@,
            }),
    {
        match self {
            LaneRouteError::McuChannelMissing => "mcu_channel_missing_for_target",
            LaneRouteError::EqLaneUnmapped(_) => "eq_lane_mapping_missing",
        }
    }
}

/// The controller and strip mapped to an EQ lane.
pub open spec fn eq_mapping(c: LaneControls, lane: LaneKind) -> (Option<u8>, Option<u8>) {
    match lane {
        LaneKind::EqLowGain => (c.eq_low_cc, c.eq_low_mcu_channel),
        LaneKind::EqPresenceGain => (c.eq_presence_cc, c.eq_presence_mcu_channel),
        LaneKind::EqAirGain => (c.eq_air_cc, c.eq_air_mcu_channel),
        LaneKind::Volume => (None, None),
    }
}

/// Where a lane is written: the fader by controller, or on its strip when
/// writing through the control surface (refused without a strip); an EQ
/// lane only where its controller is mapped (fail-closed), on its strip when
/// writing through the control surface and it has one, else by controller.
pub open spec fn spec_lane_route(c: LaneControls, lane: LaneKind, protocol: WriteProtocol) -> Result<
    LaneRoute,
    LaneRouteError,
> {
    match lane {
        LaneKind::Volume => match protocol {
            WriteProtocol::CcLearn => Ok(LaneRoute::Cc { channel: c.channel, cc: c.volume_cc }),
            WriteProtocol::McuFader => match c.volume_mcu_channel {
                Some(m) => Ok(LaneRoute::Fader { mcu_channel: m }),
                None => Err(LaneRouteError::McuChannelMissing),
            },
        },
        _ => match eq_mapping(c, lane).0 {
            None => Err(LaneRouteError::EqLaneUnmapped(lane)),
            Some(k) => match (protocol, eq_mapping(c, lane).1) {
                (WriteProtocol::McuFader, Some(m)) => Ok(LaneRoute::Fader { mcu_channel: m }),
                _ => Ok(LaneRoute::Cc { channel: c.channel, cc: k }),
            },
        },
    }
}

/// Where a value for `lane` of a bus is sent under `protocol`.
pub fn route_lane_write(c: &LaneControls, lane: LaneKind, protocol: WriteProtocol) -> (r: Result<
    LaneRoute,
    LaneRouteError,
>)
    ensures
        r == spec_lane_route(*c, lane, protocol),
{
    let (cc, mcu) = match lane {
        LaneKind::Volume => {
            return match protocol {
                WriteProtocol::CcLearn => Ok(LaneRoute::Cc { channel: c.channel, cc: c.volume_cc }),
                WriteProtocol::McuFader => match c.volume_mcu_channel {
                    Some(m) => Ok(LaneRoute::Fader { mcu_channel: m }),
                    None => Err(LaneRouteError::McuChannelMissing),
                },
            };
        },
        LaneKind::EqLowGain => (c.eq_low_cc, c.eq_low_mcu_channel),
        LaneKind::EqPresenceGain => (c.eq_presence_cc, c.eq_presence_mcu_channel),
        LaneKind::EqAirGain => (c.eq_air_cc, c.eq_air_mcu_channel),
    };
    match cc {
        None => Err(LaneRouteError::EqLaneUnmapped(lane)),
        Some(k) => match (protocol, mcu) {
            (WriteProtocol::McuFader, Some(m)) => Ok(LaneRoute::Fader { mcu_channel: m }),
            _ => Ok(LaneRoute::Cc { channel: c.channel, cc: k }),
        },
    }
}

/// A control change that triggers an undo in the DAW.
#[derive(Debug, Clone, Copy, PartialEq, Eq, Structural)]
pub struct UndoTrigger {
    pub channel: u8,
    pub cc: u8,
    pub value: u8,
}

/// Why an undo could not be sent.
#[derive(Debug, Clone, Copy, PartialEq, Eq, Structural)]
pub enum UndoSendError {
    PrimaryNotConfigured,
    FallbackNotConfigured,
    Midi(MidiError),
}

/// The message for the primary (`primary == true`) or the fallback undo trigger.
pub fn undo_message(trigger: Option<UndoTrigger>, primary: bool) -> (r: Result<[u8; 3], UndoSendError>)
    ensures
        trigger is None ==> r == Err::<[u8; 3], UndoSendError>(
            if primary {
                UndoSendError::PrimaryNotConfigured
            } else {
                UndoSendError::FallbackNotConfigured
            },
        ),
        trigger matches Some(t) ==> (valid_channel(t.channel) ==> (r matches Ok(m) && m@ == seq![
            status_byte(11, t.channel),
            t.cc,
            t.value,
        ])),
        trigger matches Some(t) ==> (!valid_channel(t.channel) ==> r == Err::<
            [u8; 3],
            UndoSendError,
        >(UndoSendError::Midi(MidiError::InvalidChannel(t.channel)))),
{
    match trigger {
        None => {
            if primary {
                Err(UndoSendError::PrimaryNotConfigured)
            } else {
                Err(UndoSendError::FallbackNotConfigured)
            }
        },
        Some(t) => match cc_message(t.channel, t.cc, t.value) {
            Ok(m) => Ok(m),
            Err(e) => Err(UndoSendError::Midi(e)),
        },
    }
}

/// Transport buttons of a Mackie Control surface.
#[derive(Debug, Clone, Copy, PartialEq, Eq, Structural)]
pub enum McuTransportAction {
    Play,
    Stop,
    Rewind,
    FastForward,
}

/// The Mackie Control button note and the MIDI Machine Control command of
/// each transport action.
pub open spec fn transport_codes(a: McuTransportAction) -> (u8, u8) {
    match a {
        McuTransportAction::Play => (0x5E, 0x02),
        McuTransportAction::Stop => (0x5D, 0x01),
        McuTransportAction::Rewind => (0x5B, 0x05),
        McuTransportAction::FastForward => (0x5C, 0x04),
    }
}

pub open spec fn transport_label(a: McuTransportAction) -> Seq<char> {
    match a {
        McuTransportAction::Play => "play"@,
        McuTransportAction::Stop => "stop"@,
        McuTransportAction::Rewind => "rewind"@,
        McuTransportAction::FastForward => "fast-forward"@,
    }
}

/// The transport codes are the standard ones: the Mackie Control button
/// notes are 0x5B rewind, 0x5C fast forward, 0x5D stop and 0x5E play, and the
/// MIDI Machine Control commands are 0x01 stop, 0x02 play, 0x04 fast
/// forward and 0x05 rewind. Different actions press different buttons and
/// send different commands, and the nudge buttons are the ones the
/// transport is nudged with.
pub proof fn lemma_transport_codes(a: McuTransportAction, b: McuTransportAction)
    ensures
        transport_codes(a).0 == (match a {
            McuTransportAction::Rewind => 0x5Bu8,
            McuTransportAction::FastForward => 0x5Cu8,
            McuTransportAction::Stop => 0x5Du8,
            McuTransportAction::Play => 0x5Eu8,
        }),
        transport_codes(a).1 == (match a {
            McuTransportAction::Stop => 0x01u8,
            McuTransportAction::Play => 0x02u8,
            McuTransportAction::FastForward => 0x04u8,
            McuTransportAction::Rewind => 0x05u8,
        }),
        a != b ==> transport_codes(a).0 != transport_codes(b).0 && transport_codes(a).1
            != transport_codes(b).1,
        transport_codes(McuTransportAction::Rewind).0 == nav_code(NavAction::Rewind),
        transport_codes(McuTransportAction::FastForward).0 == nav_code(NavAction::FastForward),
{
}

/// The messages a transport action sends: button press, button release, and
/// the universal real-time MMC command.
pub struct TransportMessages {
    pub press: [u8; 3],
    pub release: [u8; 3],
    pub mmc: [u8; 6],
    pub label: &'static str,
}

pub fn transport_messages(action: McuTransportAction) -> (m: TransportMessages)
    ensures
        m.press@ == seq![0x90u8, transport_codes(action).0, 0x7Fu8],
        m.release@ == seq![0x90u8, transport_codes(action).0, 0x00u8],
        m.mmc@ == seq![0xF0u8, 0x7Fu8, 0x7Fu8, 0x06u8, transport_codes(action).1, 0xF7u8],
        m.label@ == transport_label(action),
{
    let (note, mmc_cmd, label): (u8, u8, &'static str) = match action {
        McuTransportAction::Play => (0x5E, 0x02, "play"),
        McuTransportAction::Stop => (0x5D, 0x01, "stop"),
        McuTransportAction::Rewind => (0x5B, 0x05, "rewind"),
        McuTransportAction::FastForward => (0x5C, 0x04, "fast-forward"),
    };
    let m = TransportMessages {
        press: [0x90, note, 0x7F],
        release: [0x90, note, 0x00],
        mmc: [0xF0, 0x7F, 0x7F, 0x06, mmc_cmd, 0xF7],
        label,
    };
    assert(m.press@ =~= seq![0x90u8, note, 0x7Fu8]);
    assert(m.release@ =~= seq![0x90u8, note, 0x00u8]);
    assert(m.mmc@ =~= seq![0xF0u8, 0x7Fu8, 0x7Fu8, 0x06u8, mmc_cmd, 0xF7u8]);
    m
}

/// Directions in which the transport can be nudged.
#[derive(Debug, Clone, Copy, PartialEq, Eq, Structural)]
pub enum NavAction {
    Rewind,
    FastForward,
}

pub open spec fn nav_code(action: NavAction) -> u8 {
    match action {
        NavAction::Rewind => 0x5Bu8,
        NavAction::FastForward => 0x5Cu8,
    }
}

/// The Mackie Control button note that nudges the transport.
pub fn nav_note(action: NavAction) -> (n: u8)
    ensures
        n == nav_code(action),
{
    match action {
        NavAction::Rewind => 0x5B,
        NavAction::FastForward => 0x5C,
    }
}

/// Why a control-change sweep was refused.
#[derive(Debug, Clone, Copy, PartialEq, Eq, Structural)]
pub enum SweepError {
    InvalidChannel(u8),
    MinNotBelowMax,
    ZeroStep,
}

/// Checks the parameters of a sweep in the order the tool reports them.
pub fn validate_sweep(channel: u8, min: u8, max: u8, step: u8) -> (r: Result<(), SweepError>)
    ensures
        !valid_channel(channel) ==> r == Err::<(), SweepError>(SweepError::InvalidChannel(channel)),
        valid_channel(channel) && min >= max ==> r == Err::<(), SweepError>(
            SweepError::MinNotBelowMax,
        ),
        valid_channel(channel) && min < max && step == 0 ==> r == Err::<(), SweepError>(
            SweepError::ZeroStep,
        ),
        r is Ok <==> valid_channel(channel) && min < max && step > 0,
{
    if channel < 1 || channel > 16 {
        return Err(SweepError::InvalidChannel(channel));
    }
    if min >= max {
        return Err(SweepError::MinNotBelowMax);
    }
    if step == 0 {
        return Err(SweepError::ZeroStep);
    }
    Ok(())
}

/// The rising half of a sweep from `v`: `v`, then steps of `step` capped at `max`.
pub open spec fn sweep_up(v: int, max: int, step: int) -> Seq<int>
    decreases max - v,
{
    if v >= max || step <= 0 {
        seq![v]
    } else {
        seq![v] + sweep_up(if v + step > max { max } else { v + step }, max, step)
    }
}

/// The falling half of a sweep from `v`: `v`, then steps of `step` floored at `min`.
pub open spec fn sweep_down(v: int, min: int, step: int) -> Seq<int>
    decreases v - min,
{
    if v <= min || step <= 0 {
        seq![v]
    } else {
        seq![v] + sweep_down(if v - step < min { min } else { v - step }, min, step)
    }
}

/// The values one sweep cycle sends: up from `min` to `max`, then back down.
pub open spec fn sweep_cycle(min: int, max: int, step: int) -> Seq<int> {
    sweep_up(min, max, step) + sweep_down(max, min, step)
}

pub open spec fn bytes_as_ints(v: Seq<u8>) -> Seq<int> {
    v.map_values(|b: u8| b as int)
}

/// The control values of one sweep cycle, in sending order.
pub fn sweep_values(min: u8, max: u8, step: u8) -> (out: Vec<u8>)
    requires
        step > 0,
        min < max,
    ensures
        bytes_as_ints(out@) == sweep_cycle(min as int, max as int, step as int),
{
    let mut out: Vec<u8> = Vec::new();
    let mut v = min;
    loop
        invariant_except_break
            min <= v <= max,
            step > 0,
            bytes_as_ints(out@) + sweep_up(v as int, max as int, step as int) == sweep_up(
                min as int,
                max as int,
                step as int,
            ),
        ensures
            bytes_as_ints(out@) == sweep_up(min as int, max as int, step as int),
        decreases max - v,
    {
        let ghost before = out@;
        out.push(v);
        assert(bytes_as_ints(out@) =~= bytes_as_ints(before).push(v as int));
        if v >= max {
            assert(sweep_up(v as int, max as int, step as int) == seq![v as int]);
            assert(bytes_as_ints(out@) =~= bytes_as_ints(before) + seq![v as int]);
            break;
        }
        let next = v.saturating_add(step);
        let ghost old_v = v;
        v = if next > max { max } else { next };
        assert(sweep_up(old_v as int, max as int, step as int) =~= seq![old_v as int] + sweep_up(
            v as int,
            max as int,
            step as int,
        ));
        assert(bytes_as_ints(out@) + sweep_up(v as int, max as int, step as int) =~= bytes_as_ints(
            before,
        ) + sweep_up(old_v as int, max as int, step as int));
    }
    let mut v = max;
    assert(bytes_as_ints(out@) + sweep_down(max as int, min as int, step as int) == sweep_cycle(
        min as int,
        max as int,
        step as int,
    ));
    loop
        invariant_except_break
            min <= v <= max,
            step > 0,
            bytes_as_ints(out@) + sweep_down(v as int, min as int, step as int) == sweep_cycle(
                min as int,
                max as int,
                step as int,
            ),
        ensures
            bytes_as_ints(out@) == sweep_cycle(min as int, max as int, step as int),
        decreases v - min,
    {
        let ghost before = out@;
        out.push(v);
        assert(bytes_as_ints(out@) =~= bytes_as_ints(before).push(v as int));
        if v <= min {
            assert(sweep_down(v as int, min as int, step as int) == seq![v as int]);
            assert(bytes_as_ints(out@) =~= bytes_as_ints(before) + seq![v as int]);
            break;
        }
        let next = v.saturating_sub(step);
        let ghost old_v = v;
        v = if next < min { min } else { next };
        assert(sweep_down(old_v as int, min as int, step as int) =~= seq![old_v as int]
            + sweep_down(v as int, min as int, step as int));
        assert(bytes_as_ints(out@) + sweep_down(v as int, min as int, step as int)
            =~= bytes_as_ints(before) + sweep_down(old_v as int, min as int, step as int));
    }
    assert(bytes_as_ints(out@) =~= sweep_cycle(min as int, max as int, step as int));
    out
}

proof fn lemma_sweep_up_bounds(v: int, max: int, step: int)
    requires
        v <= max,
        step > 0,
    ensures
        sweep_up(v, max, step)[0] == v,
        sweep_up(v, max, step).last() == max,
        forall|i: int|
            0 <= i < sweep_up(v, max, step).len() ==> v <= #[trigger] sweep_up(v, max, step)[i]
                <= max,
        forall|i: int|
            0 <= i < sweep_up(v, max, step).len() - 1 ==> #[trigger] sweep_up(v, max, step)[i + 1]
                - sweep_up(v, max, step)[i] <= step,
    decreases max - v,
{
    if v < max {
        let n = if v + step > max { max } else { v + step };
        lemma_sweep_up_bounds(n, max, step);
        let s = sweep_up(v, max, step);
        let t = sweep_up(n, max, step);
        assert(s == seq![v] + t);
        assert forall|i: int| 0 <= i < s.len() implies v <= #[trigger] s[i] <= max by {
            if i > 0 {
                assert(s[i] == t[i - 1]);
            }
        }
        assert forall|i: int| 0 <= i < s.len() - 1 implies #[trigger] s[i + 1] - s[i] <= step by {
            if i > 0 {
                assert(s[i] == t[i - 1]);
                assert(s[i + 1] == t[i]);
                assert(t[(i - 1) + 1] - t[i - 1] <= step);
            } else {
                assert(s[1] == t[0]);
            }
        }
    }
}

proof fn lemma_sweep_down_bounds(v: int, min: int, step: int)
    requires
        min <= v,
        step > 0,
    ensures
        sweep_down(v, min, step)[0] == v,
        sweep_down(v, min, step).last() == min,
        forall|i: int|
            0 <= i < sweep_down(v, min, step).len() ==> min <= #[trigger] sweep_down(v, min, step)[i]
                <= v,
        forall|i: int|
            0 <= i < sweep_down(v, min, step).len() - 1 ==> #[trigger] sweep_down(v, min, step)[i]
                - sweep_down(v, min, step)[i + 1] <= step,
    decreases v - min,
{
    if v > min {
        let n = if v - step < min { min } else { v - step };
        lemma_sweep_down_bounds(n, min, step);
        let s = sweep_down(v, min, step);
        let t = sweep_down(n, min, step);
        assert(s == seq![v] + t);
        assert forall|i: int| 0 <= i < s.len() implies min <= #[trigger] s[i] <= v by {
            if i > 0 {
                assert(s[i] == t[i - 1]);
            }
        }
        assert forall|i: int| 0 <= i < s.len() - 1 implies #[trigger] s[i] - s[i + 1] <= step by {
            if i > 0 {
                assert(s[i] == t[i - 1]);
                assert(s[i + 1] == t[i]);
                assert(t[i - 1] - t[(i - 1) + 1] <= step);
            } else {
                assert(s[1] == t[0]);
            }
        }
    }
}

/// A sweep cycle starts and ends at `min`, reaches `max` at the turn, never
/// leaves `[min, max]`, and no single move is larger than `step`.
pub proof fn lemma_sweep_cycle_shape(min: int, max: int, step: int)
    requires
        0 <= min < max <= 255,
        step > 0,
    ensures
        sweep_cycle(min, max, step)[0] == min,
        sweep_cycle(min, max, step).last() == min,
        sweep_cycle(min, max, step)[sweep_up(min, max, step).len() - 1] == max,
        forall|i: int|
            0 <= i < sweep_cycle(min, max, step).len() ==> min <= #[trigger] sweep_cycle(
                min,
                max,
                step,
            )[i] <= max,
{
    lemma_sweep_up_bounds(min, max, step);
    lemma_sweep_down_bounds(max, min, step);
    let u = sweep_up(min, max, step);
    let d = sweep_down(max, min, step);
    let c = sweep_cycle(min, max, step);
    assert(c == u + d);
    assert forall|i: int| 0 <= i < c.len() implies min <= #[trigger] c[i] <= max by {
        if i < u.len() {
            assert(c[i] == u[i]);
        } else {
            assert(c[i] == d[i - u.len()]);
        }
    }
    assert(c.last() == d.last());
}

} // verus!
