//! MIDI time code and transport messages from the DAW: decoding quarter-frame
//! and full-frame time code, classifying transport messages, and keeping the
//! transport state a monitor displays.
use vstd::prelude::*;

verus! {

/// The frame rates MIDI time code can announce.
#[derive(Debug, Clone, Copy, PartialEq, Eq, Structural)]
pub enum FrameRate {
    Fps24,
    Fps25,
    Fps2997,
    Fps30,
}

pub open spec fn spec_frame_rate(code: u8) -> FrameRate {
    if code == 0 {
        FrameRate::Fps24
    } else if code == 1 {
        FrameRate::Fps25
    } else if code == 2 {
        FrameRate::Fps2997
    } else {
        FrameRate::Fps30
    }
}

/// The frames each rate shows in 100 seconds (29.97 fps drop-frame time code
/// shows 2997).
pub open spec fn frames_per_100_sec(r: FrameRate) -> int {
    match r {
        FrameRate::Fps24 => 2400,
        FrameRate::Fps25 => 2500,
        FrameRate::Fps2997 => 2997,
        FrameRate::Fps30 => 3000,
    }
}

/// The rate codes of MIDI time code: 0 is 24 fps, 1 is 25 fps, 2 is 29.97 fps
/// and 3 is 30 fps, so the four codes announce four different rates.
pub proof fn lemma_rate_codes(code: u8, other: u8)
    requires
        code < 4,
        other < 4,
    ensures
        frames_per_100_sec(spec_frame_rate(code)) == seq![2400int, 2500, 2997, 3000][code as int],
        code != other ==> spec_frame_rate(code) != spec_frame_rate(other),
{
}

/// A full-frame message announces the rate its hours byte codes in bits 5
/// and 6.
pub proof fn lemma_full_frame_rate(msg: Seq<u8>)
    ensures
        spec_full_frame(msg) matches Some(t) ==> frames_per_100_sec(t.rate) == seq![
            2400int,
            2500,
            2997,
            3000,
        ][((msg[5] >> 5u8) & 0x03u8) as int],
{
    if spec_full_frame(msg) is Some {
        let h = msg[5];
        let c = ((h >> 5u8) & 0x03u8) as u8;
        assert(((h >> 5u8) & 0x03u8) < 4) by (bit_vector);
        lemma_rate_codes(c, c);
    }
}

/// The frame rate a time-code rate code announces.
pub fn frame_rate_for_code(code: u8) -> (r: FrameRate)
    ensures
        r == spec_frame_rate(code),
{
    if code == 0 {
        FrameRate::Fps24
    } else if code == 1 {
        FrameRate::Fps25
    } else if code == 2 {
        FrameRate::Fps2997
    } else {
        FrameRate::Fps30
    }
}

/// Where a position came from.
#[derive(Debug, Clone, Copy, PartialEq, Eq, Structural)]
pub enum MtcSource {
    QuarterFrame,
    FullFrame,
}

/// A time-code position.
#[derive(Debug, Clone, Copy, PartialEq, Eq, Structural)]
pub struct MtcTime {
    pub hours: u8,
    pub minutes: u8,
    pub seconds: u8,
    pub frames: u8,
    pub rate: FrameRate,
    pub source: MtcSource,
}

/// The position the eight quarter-frame nibbles `n` spell: frames from
/// pieces 0-1, seconds from 2-3, minutes from 4-5, hours and rate from 6-7.
pub open spec fn decode_nibbles(n: Seq<u8>) -> MtcTime {
    MtcTime {
        frames: (n[0] | ((n[1] & 0x01u8) << 4u8)) as u8,
        seconds: (n[2] | ((n[3] & 0x03u8) << 4u8)) as u8,
        minutes: (n[4] | ((n[5] & 0x03u8) << 4u8)) as u8,
        hours: (n[6] | ((n[7] & 0x01u8) << 4u8)) as u8,
        rate: spec_frame_rate(((n[7] >> 1u8) & 0x03u8) as u8),
        source: MtcSource::QuarterFrame,
    }
}

/// The eight quarter-frame nibbles spell frames, seconds, minutes and hours
/// low nibble first (the high nibbles holding 1, 2, 2 and 1 bits), and the
/// rate code in bits 1-2 of the last nibble.
pub proof fn lemma_decode_nibbles(n: Seq<u8>)
    requires
        n.len() == 8,
        forall|i: int| 0 <= i < 8 ==> n[i] < 16,
    ensures
        decode_nibbles(n).frames == n[0] + 16 * (n[1] % 2),
        decode_nibbles(n).seconds == n[2] + 16 * (n[3] % 4),
        decode_nibbles(n).minutes == n[4] + 16 * (n[5] % 4),
        decode_nibbles(n).hours == n[6] + 16 * (n[7] % 2),
        frames_per_100_sec(decode_nibbles(n).rate) == seq![2400int, 2500, 2997, 3000][((n[7] / 2)
            % 4) as int],
{
    let (a, b, c, d, e, f, g, h) = (n[0], n[1], n[2], n[3], n[4], n[5], n[6], n[7]);
    assert((a | ((b & 0x01u8) << 4u8)) as u8 == a + 16 * (b % 2)) by (bit_vector)
        requires
            a < 16,
            b < 16,
    ;
    assert((c | ((d & 0x03u8) << 4u8)) as u8 == c + 16 * (d % 4)) by (bit_vector)
        requires
            c < 16,
            d < 16,
    ;
    assert((e | ((f & 0x03u8) << 4u8)) as u8 == e + 16 * (f % 4)) by (bit_vector)
        requires
            e < 16,
            f < 16,
    ;
    assert((g | ((h & 0x01u8) << 4u8)) as u8 == g + 16 * (h % 2)) by (bit_vector)
        requires
            g < 16,
            h < 16,
    ;
    assert(((h >> 1u8) & 0x03u8) == (h / 2) % 4) by (bit_vector);
    let code = ((h >> 1u8) & 0x03u8) as u8;
    assert(code < 4);
    lemma_rate_codes(code, code);
}


#[derive(Debug, Clone)]
pub struct QfParser {
    nibbles: Vec<u8>,
    seen: Vec<bool>,
}

/// The piece a quarter-frame data byte carries, and its value.
pub open spec fn qf_piece(data: u8) -> int {
    ((data >> 4u8) & 0x07u8) as int
}

pub open spec fn qf_value(data: u8) -> u8 {
    data & 0x0Fu8
}

impl QfParser {
    pub closed spec fn wf(&self) -> bool {
        self.nibbles@.len() == 8 && self.seen@.len() == 8
    }

    /// The nibble received last for each piece.
    pub closed spec fn nibbles_view(&self) -> Seq<u8> {
        self.nibbles@
    }

    /// Which pieces have been received.
    pub closed spec fn seen_view(&self) -> Seq<bool> {
        self.seen@
    }

    /// A parser that has received nothing.
    pub fn new() -> (p: QfParser)
        ensures
            p.wf(),
            p.nibbles_view() == Seq::new(8, |i: int| 0u8),
            p.seen_view() == Seq::new(8, |i: int| false),
    {
        let mut nibbles: Vec<u8> = Vec::new();
        let mut seen: Vec<bool> = Vec::new();
        let mut i: usize = 0;
        while i < 8
            invariant
                i <= 8,
                nibbles@ == Seq::new(i as nat, |k: int| 0u8),
                seen@ == Seq::new(i as nat, |k: int| false),
            decreases 8 - i,
        {
            nibbles.push(0);
            seen.push(false);
            i += 1;
            assert(nibbles@ =~= Seq::new(i as nat, |k: int| 0u8));
            assert(seen@ =~= Seq::new(i as nat, |k: int| false));
        }
        QfParser { nibbles, seen }
    }

    /// Takes the data byte of one quarter-frame message. The position is
    /// reported when the last piece (7) arrives and every piece has been
    /// received at least once.
    pub fn ingest_qf(&mut self, data: u8) -> (r: Option<MtcTime>)
        requires
            old(self).wf(),
        ensures
            final(self).wf(),
            final(self).nibbles_view() == old(self).nibbles_view().update(
                qf_piece(data),
                qf_value(data),
            ),
            final(self).seen_view() == old(self).seen_view().update(qf_piece(data), true),
            r is Some <==> (qf_piece(data) == 7 && forall|k: int|
                0 <= k < 8 ==> #[trigger] final(self).seen_view()[k]),
            r matches Some(t) ==> t == decode_nibbles(final(self).nibbles_view()),
    {
        let idx: usize = ((data >> 4) & 0x07) as usize;
        let nibble: u8 = data & 0x0F;
        assert(idx < 8) by (bit_vector)
            requires
                idx == ((data >> 4u8) & 0x07u8) as usize,
        ;
        assert(idx as int == qf_piece(data) && nibble == qf_value(data));
        self.nibbles.set(idx, nibble);
        self.seen.set(idx, true);
        if idx != 7 {
            return None;
        }
        let mut k: usize = 0;
        while k < 8
            invariant
                k <= 8,
                self.wf(),
                idx == 7,
                idx as int == qf_piece(data),
                self.nibbles_view() == old(self).nibbles_view().update(
                    qf_piece(data),
                    qf_value(data),
                ),
                self.seen_view() == old(self).seen_view().update(qf_piece(data), true),
                forall|j: int| 0 <= j < k ==> #[trigger] self.seen@[j],
            decreases 8 - k,
        {
            if !self.seen[k] {
                return None;
            }
            k += 1;
        }
        let n = &self.nibbles;
        let frames: u8 = n[0] | ((n[1] & 0x01) << 4);
        let seconds: u8 = n[2] | ((n[3] & 0x03) << 4);
        let minutes: u8 = n[4] | ((n[5] & 0x03) << 4);
        let hours: u8 = n[6] | ((n[7] & 0x01) << 4);
        let rate = frame_rate_for_code((n[7] >> 1) & 0x03);
        Some(MtcTime { hours, minutes, seconds, frames, rate, source: MtcSource::QuarterFrame })
    }
}

/// The eight quarter-frame data bytes that send a position: piece `k` in the
/// high nibble, its part of the time in the low nibble.
pub open spec fn qf_byte(t: MtcTime, rate_code: u8, k: int) -> u8 {
    let v: u8 = if k == 0 {
        t.frames & 0x0Fu8
    } else if k == 1 {
        (t.frames >> 4u8) & 0x01u8
    } else if k == 2 {
        t.seconds & 0x0Fu8
    } else if k == 3 {
        (t.seconds >> 4u8) & 0x03u8
    } else if k == 4 {
        t.minutes & 0x0Fu8
    } else if k == 5 {
        (t.minutes >> 4u8) & 0x03u8
    } else if k == 6 {
        t.hours & 0x0Fu8
    } else {
        ((t.hours >> 4u8) & 0x01u8) | ((rate_code & 0x03u8) << 1u8)
    };
    (((k as u8) << 4u8) | v) as u8
}

proof fn lemma_qf_byte_fields(t: MtcTime, rate_code: u8, k: int)
    requires
        0 <= k < 8,
    ensures
        qf_piece(qf_byte(t, rate_code, k)) == k,
        qf_value(qf_byte(t, rate_code, k)) == (if k == 0 {
            t.frames & 0x0Fu8
        } else if k == 1 {
            (t.frames >> 4u8) & 0x01u8
        } else if k == 2 {
            t.seconds & 0x0Fu8
        } else if k == 3 {
            (t.seconds >> 4u8) & 0x03u8
        } else if k == 4 {
            t.minutes & 0x0Fu8
        } else if k == 5 {
            (t.minutes >> 4u8) & 0x03u8
        } else if k == 6 {
            t.hours & 0x0Fu8
        } else {
            ((t.hours >> 4u8) & 0x01u8) | ((rate_code & 0x03u8) << 1u8)
        }),
{
    let v: u8 = if k == 0 {
        t.frames & 0x0Fu8
    } else if k == 1 {
        (t.frames >> 4u8) & 0x01u8
    } else if k == 2 {
        t.seconds & 0x0Fu8
    } else if k == 3 {
        (t.seconds >> 4u8) & 0x03u8
    } else if k == 4 {
        t.minutes & 0x0Fu8
    } else if k == 5 {
        (t.minutes >> 4u8) & 0x03u8
    } else if k == 6 {
        t.hours & 0x0Fu8
    } else {
        ((t.hours >> 4u8) & 0x01u8) | ((rate_code & 0x03u8) << 1u8)
    };
    let kk = k as u8;
    let (f, se, mi, h) = (t.frames, t.seconds, t.minutes, t.hours);
    assert(v < 16) by (bit_vector)
        requires
            v == (f & 0x0Fu8) || v == ((f >> 4u8) & 0x01u8) || v == (se & 0x0Fu8) || v == ((se
                >> 4u8) & 0x03u8) || v == (mi & 0x0Fu8) || v == ((mi >> 4u8) & 0x03u8) || v == (h
                & 0x0Fu8) || v == (((h >> 4u8) & 0x01u8) | ((rate_code & 0x03u8) << 1u8)),
    ;
    assert((((kk << 4u8) | v) >> 4u8) & 0x07u8 == kk && ((kk << 4u8) | v) & 0x0Fu8 == v)
        by (bit_vector)
        requires
            kk < 8,
            v < 16,
    ;
}

/// Sending a position as its eight quarter frames, in order, to a parser that
/// has received nothing: nothing is reported before the last one, and the
/// last one reports exactly that position (for positions that time code can
/// carry: hours below 32, minutes and seconds below 64, frames below 32).
pub proof fn lemma_quarter_frames_round_trip(t: MtcTime, rate_code: u8)
    requires
        t.hours < 32,
        t.minutes < 64,
        t.seconds < 64,
        t.frames < 32,
        rate_code < 4,
        t.rate == spec_frame_rate(rate_code),
        t.source == MtcSource::QuarterFrame,
    ensures
        ({
            let n = Seq::new(8, |k: int| qf_value(qf_byte(t, rate_code, k)));
            decode_nibbles(n) == t
        }),
        forall|k: int| 0 <= k < 8 ==> qf_piece(#[trigger] qf_byte(t, rate_code, k)) == k,
{
    let n = Seq::new(8, |k: int| qf_value(qf_byte(t, rate_code, k)));
    assert forall|k: int| 0 <= k < 8 implies qf_piece(#[trigger] qf_byte(t, rate_code, k)) == k by {
        lemma_qf_byte_fields(t, rate_code, k);
    }
    lemma_qf_byte_fields(t, rate_code, 0);
    lemma_qf_byte_fields(t, rate_code, 1);
    lemma_qf_byte_fields(t, rate_code, 2);
    lemma_qf_byte_fields(t, rate_code, 3);
    lemma_qf_byte_fields(t, rate_code, 4);
    lemma_qf_byte_fields(t, rate_code, 5);
    lemma_qf_byte_fields(t, rate_code, 6);
    lemma_qf_byte_fields(t, rate_code, 7);
    let f = t.frames;
    let s = t.seconds;
    let m = t.minutes;
    let h = t.hours;
    let rc = rate_code;
    assert(((f & 0x0Fu8) | ((((f >> 4u8) & 0x01u8) & 0x01u8) << 4u8)) == f) by (bit_vector)
        requires
            f < 32,
    ;
    assert(((s & 0x0Fu8) | ((((s >> 4u8) & 0x03u8) & 0x03u8) << 4u8)) == s) by (bit_vector)
        requires
            s < 64,
    ;
    assert(((m & 0x0Fu8) | ((((m >> 4u8) & 0x03u8) & 0x03u8) << 4u8)) == m) by (bit_vector)
        requires
            m < 64,
    ;
    assert(((h & 0x0Fu8) | (((((h >> 4u8) & 0x01u8) | ((rc & 0x03u8) << 1u8)) & 0x01u8)
        << 4u8)) == h) by (bit_vector)
        requires
            h < 32,
            rc < 4,
    ;
    assert((((((h >> 4u8) & 0x01u8) | ((rc & 0x03u8) << 1u8)) >> 1u8) & 0x03u8) == rc)
        by (bit_vector)
        requires
            h < 32,
            rc < 4,
    ;
}

// ---------------------------------------------------------------------------
// Full-frame messages and transport events.
/// The position a full-frame time-code system-exclusive message carries.
pub open spec fn spec_full_frame(msg: Seq<u8>) -> Option<MtcTime> {
    if msg.len() < 10 || msg[0] != 0xF0 || msg.last() != 0xF7 || msg[3] != 0x01 || msg[4]
        != 0x01 {
        None
    } else {
        Some(
            MtcTime {
                hours: msg[5] & 0x1Fu8,
                minutes: msg[6],
                seconds: msg[7],
                frames: msg[8],
                rate: spec_frame_rate(((msg[5] >> 5u8) & 0x03u8) as u8),
                source: MtcSource::FullFrame,
            },
        )
    }
}

/// Reads a full-frame time-code message: at least ten bytes framed by
/// `F0`..`F7`, sub-ids `01 01`, then hours with the rate code, minutes,
/// seconds and frames.
pub fn parse_full_frame_sysex(msg: &[u8]) -> (r: Option<MtcTime>)
    ensures
        r == spec_full_frame(msg@),
{
    let n = msg.len();
    if n < 10 {
        return None;
    }
    if msg[0] != 0xF0 || msg[n - 1] != 0xF7 {
        return None;
    }
    if msg[3] != 0x01 || msg[4] != 0x01 {
        return None;
    }
    let hr = msg[5];
    let rate = frame_rate_for_code((hr >> 5) & 0x03);
    Some(
        MtcTime {
            hours: hr & 0x1F,
            minutes: msg[6],
            seconds: msg[7],
            frames: msg[8],
            rate,
            source: MtcSource::FullFrame,
        },
    )
}

/// What a message from the DAW says about the transport.
#[derive(Debug, Clone, Copy, PartialEq, Eq, Structural)]
pub enum TransportEvent {
    Position(MtcTime),
    Start,
    Continue,
    Stop,
    Clock,
    /// Song position in sixteenth notes.
    SongPosition(u16),
}

/// The event a message carries, given what the quarter-frame parser
/// reported for it (`qf`, only read for quarter-frame messages).
pub open spec fn spec_transport_event(msg: Seq<u8>, qf: Option<MtcTime>) -> Option<TransportEvent> {
    if msg.len() == 0 {
        None
    } else if msg[0] == 0xF1 && msg.len() >= 2 && qf is Some {
        Some(TransportEvent::Position(qf->Some_0))
    } else if msg[0] == 0xF0 && spec_full_frame(msg) is Some {
        Some(TransportEvent::Position(spec_full_frame(msg)->Some_0))
    } else if msg[0] == 0xFA {
        Some(TransportEvent::Start)
    } else if msg[0] == 0xFB {
        Some(TransportEvent::Continue)
    } else if msg[0] == 0xFC {
        Some(TransportEvent::Stop)
    } else if msg[0] == 0xF8 {
        Some(TransportEvent::Clock)
    } else if msg[0] == 0xF2 && msg.len() >= 3 {
        Some(TransportEvent::SongPosition((((msg[2] as u16) << 7u16) | (msg[1] as u16)) as u16))
    } else {
        None
    }
}

/// The system real-time and common messages of the transport: `FA` starts,
/// `FB` continues, `FC` stops, `F8` is a clock tick, and `F2` carries a
/// song position of `lsb + 128 * msb` sixteenth notes.
pub proof fn lemma_transport_messages(msg: Seq<u8>, qf: Option<MtcTime>)
    requires
        msg.len() > 0,
    ensures
        msg[0] == 0xFA ==> spec_transport_event(msg, qf) == Some(TransportEvent::Start),
        msg[0] == 0xFB ==> spec_transport_event(msg, qf) == Some(TransportEvent::Continue),
        msg[0] == 0xFC ==> spec_transport_event(msg, qf) == Some(TransportEvent::Stop),
        msg[0] == 0xF8 ==> spec_transport_event(msg, qf) == Some(TransportEvent::Clock),
        msg[0] == 0xF2 && msg.len() >= 3 && msg[1] < 128 && msg[2] < 128 ==> spec_transport_event(
            msg,
            qf,
        ) == Some(TransportEvent::SongPosition((msg[1] + 128 * msg[2]) as u16)),
{
    if msg[0] == 0xF2 && msg.len() >= 3 && msg[1] < 128 && msg[2] < 128 {
        let lsb = msg[1];
        let msb = msg[2];
        assert((((msb as u16) << 7u16) | (lsb as u16)) as u16 == (lsb + 128 * msb) as u16)
            by (bit_vector)
            requires
                lsb < 128,
                msb < 128,
        ;
    }
}

/// Classifies a message from the DAW. Quarter-frame messages (`F1`) are fed
/// to `qf`; the parser is left alone by every other message.
pub fn parse_transport_event(msg: &[u8], qf: &mut QfParser) -> (r: Option<TransportEvent>)
    requires
        old(qf).wf(),
    ensures
        final(qf).wf(),
        msg@.len() >= 2 && msg@[0] == 0xF1 ==> exists|p: Option<MtcTime>|
            {
                &&& final(qf).nibbles_view() == old(qf).nibbles_view().update(
                    qf_piece(msg@[1]),
                    qf_value(msg@[1]),
                )
                &&& final(qf).seen_view() == old(qf).seen_view().update(qf_piece(msg@[1]), true)
                &&& (p is Some <==> (qf_piece(msg@[1]) == 7 && forall|k: int|
                    0 <= k < 8 ==> #[trigger] final(qf).seen_view()[k]))
                &&& (p matches Some(t) ==> t == decode_nibbles(final(qf).nibbles_view()))
                &&& r == spec_transport_event(msg@, p)
            },
        !(msg@.len() >= 2 && msg@[0] == 0xF1) ==> *final(qf) == *old(qf) && r
            == spec_transport_event(msg@, None),
{
    let n = msg.len();
    if n == 0 {
        return None;
    }
    let status = msg[0];
    if status == 0xF1 && n >= 2 {
        let p = qf.ingest_qf(msg[1]);
        let r = match p {
            Some(t) => Some(TransportEvent::Position(t)),
            None => None,
        };
        assert(r == spec_transport_event(msg@, p));
        return r;
    }
    if status == 0xF0 {
        match parse_full_frame_sysex(msg) {
            Some(t) => {
                return Some(TransportEvent::Position(t));
            },
            None => {},
        }
    }
    if status == 0xFA {
        Some(TransportEvent::Start)
    } else if status == 0xFB {
        Some(TransportEvent::Continue)
    } else if status == 0xFC {
        Some(TransportEvent::Stop)
    } else if status == 0xF8 {
        Some(TransportEvent::Clock)
    } else if status == 0xF2 && n >= 3 {
        let lsb: u16 = msg[1] as u16;
        let msb: u16 = msg[2] as u16;
        Some(TransportEvent::SongPosition((msb << 7) | lsb))
    } else {
        None
    }
}

// ---------------------------------------------------------------------------
// The transport state a monitor keeps.
/// What the monitor has learnt of the transport; times are milliseconds on
/// the monitor's own clock.
#[derive(Debug, Clone, Copy, PartialEq, Eq, Structural)]
pub struct TransportTracker {
    pub latest: Option<MtcTime>,
    pub latest_mtc_at_ms: Option<u64>,
    pub playing: bool,
    pub last_clock_at_ms: Option<u64>,
    pub clock_count: u64,
    pub spp_16th: Option<u32>,
    pub spp_anchor_clock_count: u64,
    pub signal_events: u64,
}

/// The state after one event received at `now_ms`.
pub open spec fn spec_track(s: TransportTracker, ev: TransportEvent, now_ms: u64) -> TransportTracker {
    let s1 = TransportTracker { signal_events: (s.signal_events + 1) as u64, ..s };
    match ev {
        TransportEvent::Position(p) => TransportTracker {
            latest: Some(p),
            latest_mtc_at_ms: Some(now_ms),
            ..s1
        },
        TransportEvent::Start | TransportEvent::Continue => if s1.spp_16th is None {
            TransportTracker {
                playing: true,
                spp_16th: Some(0),
                spp_anchor_clock_count: s1.clock_count,
                ..s1
            }
        } else {
            TransportTracker { playing: true, ..s1 }
        },
        TransportEvent::Stop => TransportTracker { playing: false, ..s1 },
        TransportEvent::Clock => TransportTracker {
            clock_count: if s1.clock_count == u64::MAX {
                u64::MAX
            } else {
                (s1.clock_count + 1) as u64
            },
            last_clock_at_ms: Some(now_ms),
            ..s1
        },
        TransportEvent::SongPosition(spp) => TransportTracker {
            spp_16th: Some(spp as u32),
            spp_anchor_clock_count: s1.clock_count,
            ..s1
        },
    }
}

/// What a monitor can display a position from.
#[derive(Debug, Clone, Copy, PartialEq, Eq, Structural)]
pub enum DisplayBasis {
    /// A time-code position received in the last two seconds.
    TimeCode(MtcTime),
    /// A song position, and the clocks counted since it while playing.
    SongPosition { sixteenths: u32, clocks_since: u64 },
    /// The clocks counted, the last one within a second.
    Clocks(u64),
    Nothing,
}

pub open spec fn elapsed_ms(now_ms: u64, at: u64) -> int {
    if now_ms >= at {
        now_ms - at
    } else {
        0
    }
}

/// Whether a time was recorded and lies at most `limit` ms before `now_ms`.
pub open spec fn recent(at: Option<u64>, now_ms: u64, limit: int) -> bool {
    match at {
        Some(t) => elapsed_ms(now_ms, t) <= limit,
        None => false,
    }
}

pub open spec fn spec_display_basis(s: TransportTracker, now_ms: u64) -> DisplayBasis {
    if s.latest is Some && recent(s.latest_mtc_at_ms, now_ms, 2000) {
        DisplayBasis::TimeCode(s.latest->Some_0)
    } else if s.spp_16th is Some {
        DisplayBasis::SongPosition {
            sixteenths: s.spp_16th->Some_0,
            clocks_since: if s.playing && s.clock_count >= s.spp_anchor_clock_count {
                (s.clock_count - s.spp_anchor_clock_count) as u64
            } else {
                0
            },
        }
    } else if recent(s.last_clock_at_ms, now_ms, 1000) {
        DisplayBasis::Clocks(s.clock_count)
    } else {
        DisplayBasis::Nothing
    }
}

impl TransportTracker {
    /// A monitor that has received nothing.
    pub fn new() -> (s: TransportTracker)
        ensures
            s.latest is None && s.latest_mtc_at_ms is None && !s.playing && s.last_clock_at_ms is None
                && s.clock_count == 0 && s.spp_16th is None && s.spp_anchor_clock_count == 0
                && s.signal_events == 0,
    {
        TransportTracker {
            latest: None,
            latest_mtc_at_ms: None,
            playing: false,
            last_clock_at_ms: None,
            clock_count: 0,
            spp_16th: None,
            spp_anchor_clock_count: 0,
            signal_events: 0,
        }
    }

    /// Takes one event, received at `now_ms`.
    pub fn apply(&mut self, ev: TransportEvent, now_ms: u64)
        requires
            old(self).signal_events < u64::MAX,
        ensures
            *final(self) == spec_track(*old(self), ev, now_ms),
    {
        self.signal_events = self.signal_events + 1;
        match ev {
            TransportEvent::Position(p) => {
                self.latest = Some(p);
                self.latest_mtc_at_ms = Some(now_ms);
            },
            TransportEvent::Start | TransportEvent::Continue => {
                self.playing = true;
                if self.spp_16th.is_none() {
                    self.spp_16th = Some(0);
                    self.spp_anchor_clock_count = self.clock_count;
                }
            },
            TransportEvent::Stop => {
                self.playing = false;
            },
            TransportEvent::Clock => {
                self.clock_count = self.clock_count.saturating_add(1);
                self.last_clock_at_ms = Some(now_ms);
            },
            TransportEvent::SongPosition(spp) => {
                self.spp_16th = Some(spp as u32);
                self.spp_anchor_clock_count = self.clock_count;
            },
        }
    }

    /// What the monitor displays a position from at `now_ms`: recent time
    /// code first, then the song position advanced by the clocks counted while
    /// playing, then a recent clock count.
    pub fn display_basis(&self, now_ms: u64) -> (b: DisplayBasis)
        ensures
            b == spec_display_basis(*self, now_ms),
    {
        let fresh_mtc = match self.latest_mtc_at_ms {
            Some(at) => now_ms.saturating_sub(at) <= 2000,
            None => false,
        };
        if self.latest.is_some() && fresh_mtc {
            return DisplayBasis::TimeCode(self.latest.unwrap());
        }
        match self.spp_16th {
            Some(spp) => {
                let clocks_since = if self.playing {
                    self.clock_count.saturating_sub(self.spp_anchor_clock_count)
                } else {
                    0
                };
                DisplayBasis::SongPosition { sixteenths: spp, clocks_since }
            },
            None => match self.last_clock_at_ms {
                Some(at) => if now_ms.saturating_sub(at) <= 1000 {
                    DisplayBasis::Clocks(self.clock_count)
                } else {
                    DisplayBasis::Nothing
                },
                None => DisplayBasis::Nothing,
            },
        }
    }

    /// Whether the transport shows as playing at `now_ms`: it was started
    /// and not stopped, or a clock arrived in the last 350 ms.
    pub fn shows_playing(&self, now_ms: u64) -> (b: bool)
        ensures
            b == (self.playing || recent(self.last_clock_at_ms, now_ms, 350)),
    {
        let moving = match self.last_clock_at_ms {
            Some(at) => now_ms.saturating_sub(at) <= 350,
            None => false,
        };
        self.playing || moving
    }
}

/// Once a song position is known, clocks counted while playing advance the
/// displayed position and clocks while stopped do not; a stop keeps the
/// song position.
pub proof fn lemma_clock_advances_song_position_only_while_playing(
    s: TransportTracker,
    now_ms: u64,
)
    requires
        s.spp_16th is Some,
        s.clock_count < u64::MAX,
        s.clock_count >= s.spp_anchor_clock_count,
        s.signal_events < u64::MAX,
        s.latest_mtc_at_ms is None,
    ensures
        ({
            let t = spec_track(s, TransportEvent::Clock, now_ms);
            match (spec_display_basis(s, now_ms), spec_display_basis(t, now_ms)) {
                (
                    DisplayBasis::SongPosition { sixteenths: a, clocks_since: x },
                    DisplayBasis::SongPosition { sixteenths: b, clocks_since: y },
                ) => a == b && (if s.playing {
                    y == x + 1
                } else {
                    y == 0 && x == 0
                }),
                _ => false,
            }
        }),
        spec_track(s, TransportEvent::Stop, now_ms).spp_16th == s.spp_16th,
{
}

} // verus!
