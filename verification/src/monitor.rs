//! The bookkeeping of the monitors that listen to the studio: fader feedback
//! from the control surface, decoded linear time code, and the choice of an
//! input stream configuration.
use vstd::prelude::*;
use std::collections::HashMap;

verus! {

broadcast use vstd::std_specs::hash::group_hash_axioms;

// ---------------------------------------------------------------------------
// Fader feedback.
/// The last fader position reported for a bus.
#[derive(Debug, Clone)]
pub struct FeedbackEntry {
    pub target: String,
    pub mcu_channel: u8,
    pub value_14bit: u16,
}

pub open spec fn entry_view(e: FeedbackEntry) -> (Seq<char>, u8, u16) {
    (e.target@, e.mcu_channel, e.value_14bit)
}

pub open spec fn entries_view(v: Seq<FeedbackEntry>) -> Seq<(Seq<char>, u8, u16)> {
    v.map_values(|e: FeedbackEntry| entry_view(e))
}

/// The position of the entry for bus `t`.
pub open spec fn entry_index(es: Seq<(Seq<char>, u8, u16)>, t: Seq<char>) -> Option<int>
    decreases es.len(),
{
    if es.len() == 0 {
        None
    } else {
        match entry_index(es.drop_last(), t) {
            Some(i) => Some(i),
            None => if es.last().0 == t {
                Some(es.len() - 1)
            } else {
                None
            },
        }
    }
}

/// The entries after a fader report on `channel`: the bus shown on that
/// strip gets the new value (its entry updated in place, or a new entry
/// appended); a report from a strip that shows no bus changes nothing.
pub open spec fn spec_feedback(
    es: Seq<(Seq<char>, u8, u16)>,
    strips: Map<u8, String>,
    channel: u8,
    value: u16,
) -> Seq<(Seq<char>, u8, u16)> {
    if strips.contains_key(channel) {
        let t = strips[channel]@;
        match entry_index(es, t) {
            Some(i) => es.update(i, (t, channel, value)),
            None => es.push((t, channel, value)),
        }
    } else {
        es
    }
}

/// What the fader monitor has seen.
#[derive(Debug, Clone)]
pub struct FeedbackTracker {
    pub entries: Vec<FeedbackEntry>,
    pub event_count: usize,
}

proof fn lemma_entry_index_scan(es: Seq<(Seq<char>, u8, u16)>, t: Seq<char>, i: int)
    requires
        0 <= i <= es.len(),
        forall|j: int| 0 <= j < i ==> es[j].0 != t,
        i < es.len() ==> es[i].0 == t,
    ensures
        entry_index(es, t) == (if i < es.len() { Some(i) } else { None::<int> }),
    decreases es.len(),
{
    if es.len() > 0 {
        if i == es.len() {
            lemma_entry_index_scan(es.drop_last(), t, i - 1);
        } else {
            lemma_entry_index_scan(es.drop_last(), t, i);
        }
    }
}

fn copy_entry(e: &FeedbackEntry) -> (r: FeedbackEntry)
    ensures
        r == *e,
{
    FeedbackEntry { target: e.target.clone(), mcu_channel: e.mcu_channel, value_14bit: e.value_14bit }
}

impl FeedbackTracker {
    pub fn new() -> (f: FeedbackTracker)
        ensures
            f.entries@.len() == 0,
            f.event_count == 0,
    {
        FeedbackTracker { entries: Vec::new(), event_count: 0 }
    }

    /// Takes one fader report: a 14-bit value from a control-surface strip.
    pub fn apply(&mut self, channel: u8, value_14bit: u16, strips: &HashMap<u8, String>)
        requires
            old(self).event_count < usize::MAX,
        ensures
            final(self).event_count == old(self).event_count + 1,
            entries_view(final(self).entries@) == spec_feedback(
                entries_view(old(self).entries@),
                strips@,
                channel,
                value_14bit,
            ),
    {
        self.event_count = self.event_count + 1;
        let ghost es = entries_view(self.entries@);
        match strips.get(&channel) {
            None => {},
            Some(target) => {
                let mut i: usize = 0;
                while i < self.entries.len() && self.entries[i].target != *target
                    invariant
                        i <= self.entries.len(),
                        es == entries_view(self.entries@),
                        forall|j: int| 0 <= j < i ==> es[j].0 != target@,
                    decreases self.entries.len() - i,
                {
                    i += 1;
                }
                proof {
                    lemma_entry_index_scan(es, target@, i as int);
                }
                let e = FeedbackEntry { target: target.clone(), mcu_channel: channel, value_14bit };
                if i < self.entries.len() {
                    self.entries.set(i, e);
                } else {
                    self.entries.push(e);
                }
                assert(entries_view(self.entries@) =~= spec_feedback(
                    es,
                    strips@,
                    channel,
                    value_14bit,
                ));
            },
        }
    }

    /// The entries in strip order (each strip shows one bus, so no two
    /// entries share a strip).
    pub fn sorted_by_channel(&self) -> (out: Vec<FeedbackEntry>)
        ensures
            forall|i: int, j: int|
                0 <= i < j < out@.len() ==> out@[i].mcu_channel <= out@[j].mcu_channel,
            entries_view(out@).to_multiset() == entries_view(self.entries@).to_multiset(),
    {
        let mut out: Vec<FeedbackEntry> = Vec::new();
        let mut i: usize = 0;
        proof {
            broadcast use vstd::seq_lib::group_to_multiset_ensures;

            assert(entries_view(self.entries@).subrange(0, 0) =~= entries_view(out@));
        }
        while i < self.entries.len()
            invariant
                i <= self.entries.len(),
                forall|a: int, b: int|
                    0 <= a < b < out@.len() ==> out@[a].mcu_channel <= out@[b].mcu_channel,
                entries_view(out@).to_multiset() == entries_view(self.entries@).subrange(
                    0,
                    i as int,
                ).to_multiset(),
            decreases self.entries.len() - i,
        {
            let e = copy_entry(&self.entries[i]);
            let mut k: usize = 0;
            while k < out.len() && out[k].mcu_channel <= e.mcu_channel
                invariant
                    k <= out.len(),
                    forall|a: int| 0 <= a < k ==> out@[a].mcu_channel <= e.mcu_channel,
                decreases out.len() - k,
            {
                k += 1;
            }
            let ghost before = out@;
            out.insert(k, copy_entry(&e));
            proof {
                assert(out@ == before.insert(k as int, e));
                assert forall|a: int, b: int|
                    0 <= a < b < out@.len() implies out@[a].mcu_channel <= out@[b].mcu_channel by {
                    if b < k {
                        assert(out@[a] == before[a] && out@[b] == before[b]);
                    } else if b == k {
                        assert(out@[a] == before[a]);
                    } else if a < k {
                        assert(out@[a] == before[a] && out@[b] == before[b - 1]);
                        assert(before[k as int].mcu_channel > e.mcu_channel);
                        if b - 1 > k {
                            assert(before[k as int].mcu_channel <= before[b - 1].mcu_channel);
                        }
                    } else if a == k {
                        assert(out@[b] == before[b - 1]);
                        assert(before[k as int].mcu_channel > e.mcu_channel);
                        if b - 1 > k {
                            assert(before[k as int].mcu_channel <= before[b - 1].mcu_channel);
                        }
                    } else {
                        assert(out@[a] == before[a - 1] && out@[b] == before[b - 1]);
                    }
                }
                assert(entries_view(out@) =~= entries_view(before).insert(
                    k as int,
                    entry_view(e),
                ));
                vstd::seq_lib::to_multiset_insert(entries_view(before), k as int, entry_view(e));
                let sv = entries_view(self.entries@);
                assert(sv.subrange(0, i as int + 1) =~= sv.subrange(0, i as int).push(
                    entry_view(e),
                ));
                vstd::seq_lib::to_multiset_build(sv.subrange(0, i as int), entry_view(e));
            }
            i += 1;
        }
        assert(entries_view(self.entries@).subrange(0, i as int) =~= entries_view(self.entries@));
        out
    }
}

// ---------------------------------------------------------------------------
// Linear time code.
/// Why a time-code monitor cannot start.
#[derive(Debug, Clone, Copy, PartialEq, Eq, Structural)]
pub enum LtcRequestError {
    ZeroDuration,
    InvalidChannel,
    ChannelOutOfRange,
}

impl LtcRequestError {
    pub fn code(&self) -> (m: &'static str)
        ensures
            m@ == (match self {
                LtcRequestError::ZeroDuration => "duration_sec_must_be_positive"@,
                LtcRequestError::InvalidChannel => "invalid_channel_1_based"@,
                LtcRequestError::ChannelOutOfRange => "requested_channel_out_of_range"@,
            }),
    {
        match self {
            LtcRequestError::ZeroDuration => "duration_sec_must_be_positive",
            LtcRequestError::InvalidChannel => "invalid_channel_1_based",
            LtcRequestError::ChannelOutOfRange => "requested_channel_out_of_range",
        }
    }
}

/// Checks a time-code monitor request: a positive duration and a 1-based
/// channel between 1 and 512.
pub fn validate_ltc_request(duration_sec: u64, channel_1_based: usize) -> (r: Result<
    (),
    LtcRequestError,
>)
    ensures
        r == (if duration_sec == 0 {
            Err(LtcRequestError::ZeroDuration)
        } else if !(1 <= channel_1_based <= 512) {
            Err(LtcRequestError::InvalidChannel)
        } else {
            Ok::<(), LtcRequestError>(())
        }),
{
    if duration_sec == 0 {
        return Err(LtcRequestError::ZeroDuration);
    }
    if !(1 <= channel_1_based && channel_1_based <= 512) {
        return Err(LtcRequestError::InvalidChannel);
    }
    Ok(())
}

/// Checks that the device has the requested channel.
pub fn check_ltc_channel(channel_1_based: usize, channels: usize) -> (r: Result<
    (),
    LtcRequestError,
>)
    ensures
        r is Ok <==> channel_1_based <= channels,
        r matches Err(e) ==> e == LtcRequestError::ChannelOutOfRange,
{
    if channel_1_based > channels {
        Err(LtcRequestError::ChannelOutOfRange)
    } else {
        Ok(())
    }
}

/// The position of a decoded time-code frame.
#[derive(Debug, Clone, Copy, PartialEq, Eq, Structural)]
pub struct LtcPosition {
    pub hour: u8,
    pub minute: u8,
    pub second: u8,
    pub frame: u8,
}

/// The count of decoded frames and of changes of position.
#[derive(Debug, Clone, Copy, PartialEq, Eq, Structural)]
pub struct LtcTally {
    pub frame_count: usize,
    pub unique_positions: usize,
    pub last: Option<LtcPosition>,
}

impl LtcTally {
    pub fn new() -> (t: LtcTally)
        ensures
            t.frame_count == 0 && t.unique_positions == 0 && t.last is None,
    {
        LtcTally { frame_count: 0, unique_positions: 0, last: None }
    }

    /// Counts one decoded frame; a frame at another position than the one
    /// before counts as a new position.
    pub fn record(&mut self, pos: LtcPosition)
        requires
            old(self).frame_count < usize::MAX,
            old(self).unique_positions < usize::MAX,
        ensures
            final(self).frame_count == old(self).frame_count + 1,
            final(self).unique_positions == old(self).unique_positions + (if old(self).last
                == Some(pos) {
                0int
            } else {
                1int
            }),
            final(self).last == Some(pos),
    {
        self.frame_count = self.frame_count + 1;
        let same = match self.last {
            Some(p) => p.hour == pos.hour && p.minute == pos.minute && p.second == pos.second
                && p.frame == pos.frame,
            None => false,
        };
        if !same {
            self.unique_positions = self.unique_positions + 1;
        }
        self.last = Some(pos);
    }
}

// ---------------------------------------------------------------------------
// The transport monitor.
/// Why a transport monitor cannot start.
#[derive(Debug, Clone, Copy, PartialEq, Eq, Structural)]
pub enum TransportMonitorError {
    ZeroDuration,
    NoInputPorts,
}

impl TransportMonitorError {
    pub fn code(&self) -> (m: &'static str)
        ensures
            m@ == (match self {
                TransportMonitorError::ZeroDuration => "duration_sec_must_be_positive"@,
                TransportMonitorError::NoInputPorts => "no_midi_input_ports_found"@,
            }),
    {
        match self {
            TransportMonitorError::ZeroDuration => "duration_sec_must_be_positive",
            TransportMonitorError::NoInputPorts => "no_midi_input_ports_found",
        }
    }
}

/// Checks a transport monitor request: a positive duration, and at least
/// one MIDI input port to listen on.
pub fn validate_transport_monitor_request(duration_sec: u64, port_count: usize) -> (r: Result<
    (),
    TransportMonitorError,
>)
    ensures
        r == (if duration_sec == 0 {
            Err(TransportMonitorError::ZeroDuration)
        } else if port_count == 0 {
            Err(TransportMonitorError::NoInputPorts)
        } else {
            Ok::<(), TransportMonitorError>(())
        }),
{
    if duration_sec == 0 {
        return Err(TransportMonitorError::ZeroDuration);
    }
    if port_count == 0 {
        return Err(TransportMonitorError::NoInputPorts);
    }
    Ok(())
}

// ---------------------------------------------------------------------------
// Input stream configurations.
/// What an input device offers: a sample format, a channel count and a
/// range of sample rates.
#[derive(Debug, Clone, Copy, PartialEq, Eq, Structural)]
pub struct ConfigRange {
    pub is_f32: bool,
    pub channels: u16,
    pub min_rate: u32,
    pub max_rate: u32,
}

/// The configuration chosen: which range, and at which sample rate.
#[derive(Debug, Clone, Copy, PartialEq, Eq, Structural)]
pub struct ConfigChoice {
    pub index: usize,
    pub rate: u32,
}

/// `a` is preferred to `b`: 32-bit float samples first, then more channels.
pub open spec fn prefers(a: ConfigRange, b: ConfigRange) -> bool {
    (a.is_f32 && !b.is_f32) || (a.is_f32 == b.is_f32 && a.channels > b.channels)
}

pub open spec fn same_rank(a: ConfigRange, b: ConfigRange) -> bool {
    a.is_f32 == b.is_f32 && a.channels == b.channels
}

pub open spec fn holds_rate(r: ConfigRange, rate: u32) -> bool {
    r.min_rate <= rate <= r.max_rate
}

/// Whether a range can be opened at the requested rate (any range, without
/// a request).
pub open spec fn admits(rate: Option<u32>, c: ConfigRange) -> bool {
    match rate {
        Some(q) => holds_rate(c, q),
        None => true,
    }
}

/// `i` comes first among the ranges `rate` admits, in order of preference
/// and, among equals, in the device's order.
pub open spec fn first_preferred(rs: Seq<ConfigRange>, rate: Option<u32>, i: int) -> bool {
    &&& 0 <= i < rs.len()
    &&& admits(rate, rs[i])
    &&& forall|j: int|
        0 <= j < rs.len() && admits(rate, #[trigger] rs[j]) ==> !prefers(rs[j], rs[i]) && (
        same_rank(rs[j], rs[i]) ==> i <= j)
}

fn best_index(rs: &Vec<ConfigRange>, rate: Option<u32>) -> (r: Option<usize>)
    ensures
        (match r {
            Some(i) => first_preferred(rs@, rate, i as int),
            None => forall|j: int| 0 <= j < rs@.len() ==> !admits(rate, #[trigger] rs@[j]),
        }),
{
    let mut best: Option<usize> = None;
    let mut i: usize = 0;
    while i < rs.len()
        invariant
            i <= rs.len(),
            match best {
                Some(b) => b < i && admits(rate, rs@[b as int]) && forall|j: int|
                    0 <= j < i && admits(rate, #[trigger] rs@[j]) ==> !prefers(rs@[j], rs@[b as int])
                        && (same_rank(rs@[j], rs@[b as int]) ==> b <= j),
                None => forall|j: int| 0 <= j < i ==> !admits(rate, #[trigger] rs@[j]),
            },
        decreases rs.len() - i,
    {
        let c = rs[i];
        let admitted = match rate {
            Some(q) => c.min_rate <= q && q <= c.max_rate,
            None => true,
        };
        if admitted {
            match best {
                None => {
                    best = Some(i);
                },
                Some(b) => {
                    let cur = rs[b];
                    let better = (c.is_f32 && !cur.is_f32) || (c.is_f32 == cur.is_f32
                        && c.channels > cur.channels);
                    if better {
                        best = Some(i);
                    }
                },
            }
        }
        i += 1;
    }
    best
}

/// The input configuration a time-code reader opens: with a requested rate,
/// the most preferred range holding it, at that rate; otherwise (or when
/// none holds it) the most preferred range at its highest rate. `None` when
/// the device offers no configuration.
pub fn choose_ltc_stream_config(ranges: &Vec<ConfigRange>, requested_rate: Option<u32>) -> (r: Option<
    ConfigChoice,
>)
    ensures
        ranges@.len() == 0 <==> r is None,
        r matches Some(c) ==> (if requested_rate is Some && exists|j: int|
            0 <= j < ranges@.len() && admits(requested_rate, #[trigger] ranges@[j]) {
            c.rate == requested_rate->Some_0 && first_preferred(
                ranges@,
                requested_rate,
                c.index as int,
            )
        } else {
            c.rate == ranges@[c.index as int].max_rate && first_preferred(
                ranges@,
                None,
                c.index as int,
            )
        }),
{
    if ranges.len() == 0 {
        return None;
    }
    match requested_rate {
        Some(q) => {
            match best_index(ranges, Some(q)) {
                Some(i) => {
                    return Some(ConfigChoice { index: i, rate: q });
                },
                None => {},
            }
        },
        None => {},
    }
    match best_index(ranges, None) {
        Some(i) => Some(ConfigChoice { index: i, rate: ranges[i].max_rate }),
        None => {
            assert(admits(None, ranges@[0]));
            None
        },
    }
}

/// The range an audio monitor opens at the requested rate: the first one
/// that holds it.
pub fn audio_config_index(ranges: &Vec<ConfigRange>, rate: u32) -> (r: Option<usize>)
    ensures
        (match r {
            Some(i) => i < ranges@.len() && holds_rate(ranges@[i as int], rate) && forall|j: int|
                0 <= j < i ==> !holds_rate(ranges@[j], rate),
            None => forall|j: int| 0 <= j < ranges@.len() ==> !holds_rate(ranges@[j], rate),
        }),
{
    let mut i: usize = 0;
    while i < ranges.len()
        invariant
            i <= ranges.len(),
            forall|j: int| 0 <= j < i ==> !holds_rate(ranges@[j], rate),
        decreases ranges.len() - i,
    {
        if ranges[i].min_rate <= rate && ranges[i].max_rate >= rate {
            return Some(i);
        }
        i += 1;
    }
    None
}

} // verus!
