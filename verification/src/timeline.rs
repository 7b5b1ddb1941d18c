//! The score timeline read from a Standard MIDI File: the pulses per quarter
//! note, and the tempo and time-signature changes by absolute tick.
use vstd::prelude::*;
use vstd::arithmetic::power2::{lemma2_to64, pow2};
use midly::{MetaMessage as Meta, Smf, Timing, TrackEventKind as Kind};

verus! {

/// A tempo change: from `tick` on, a quarter note lasts `us_per_quarter`
/// microseconds.
#[derive(Debug, Clone, Copy, PartialEq, Eq, Structural)]
pub struct TempoPoint {
    pub tick: u64,
    pub us_per_quarter: u32,
}

/// A time-signature change at `tick`.
#[derive(Debug, Clone, Copy, PartialEq, Eq, Structural)]
pub struct TimeSigPoint {
    pub tick: u64,
    pub numerator: u8,
    pub denominator: u8,
}

/// How much a timeline holds.
#[derive(Debug, Clone, Copy, PartialEq, Eq, Structural)]
pub struct ScoreTimelineSummary {
    pub ppq: u16,
    pub tempo_events: usize,
    pub time_signature_events: usize,
}

/// The events of a track that the timeline reads.
#[derive(Debug, Clone, Copy, PartialEq, Eq, Structural)]
pub enum ScoreEventKind {
    /// A tempo meta event, in microseconds per quarter note.
    Tempo(u32),
    /// A time-signature meta event: numerator and the power of two of the
    /// denominator.
    TimeSignature(u8, u8),
    Other,
}

/// A track event: its delta time in ticks and what it is.
#[derive(Debug, Clone, Copy, PartialEq, Eq, Structural)]
pub struct ScoreEvent {
    pub delta: u32,
    pub kind: ScoreEventKind,
}

/// The timing of the file's header.
#[derive(Debug, Clone, Copy, PartialEq, Eq, Structural)]
pub enum ScoreTiming {
    /// Pulses per quarter note.
    Metrical(u16),
    /// SMPTE frames.
    Timecode,
}

/// What the timeline reads of a parsed MIDI file.
#[derive(Debug, Clone)]
pub struct ParsedScore {
    pub timing: ScoreTiming,
    pub tracks: Vec<Vec<ScoreEvent>>,
}

pub ghost struct ParsedScoreView {
    pub timing: ScoreTiming,
    pub tracks: Seq<Seq<ScoreEvent>>,
}

impl View for ParsedScore {
    type V = ParsedScoreView;

    open spec fn view(&self) -> ParsedScoreView {
        ParsedScoreView {
            timing: self.timing,
            tracks: self.tracks@.map_values(|t: Vec<ScoreEvent>| t@),
        }
    }
}

/// Why no timeline could be read.
#[derive(Debug, Clone, Copy, PartialEq, Eq, Structural)]
pub enum TimelineError {
    /// The bytes are not a MIDI file the parser accepts.
    InvalidMidi,
    /// The file counts time in SMPTE frames, not in beats.
    SmpteTiming,
}

impl TimelineError {
    pub fn message(&self) -> (m: &'static str)
        ensures
            m@ == (match self {
                TimelineError::InvalidMidi => "invalid_midi"@,
                TimelineError::SmpteTiming =>
                    "unsupported_smpte_timing_in_score_midi (expected PPQ metrical timing)"@,
            }),
    {
        match self {
            TimelineError::InvalidMidi => "invalid_midi",
            TimelineError::SmpteTiming =>
                "unsupported_smpte_timing_in_score_midi (expected PPQ metrical timing)",
        }
    }
}

/// What `midly::Smf::parse` makes of the bytes `data`, as far as the
/// timeline reads it: `None` where it refuses them.
pub uninterp spec fn smf_score(data: Seq<u8>) -> Option<ParsedScoreView>;

/// Calls `midly::Smf::parse` and keeps, of each track event, its delta time
/// and whether it is a tempo or time-signature meta event (with their
/// values). The contract names the result as a function of the bytes; the
/// file format itself is not restated.
#[verifier::external_body]
fn parse_smf(data: &[u8]) -> (r: Result<ParsedScore, TimelineError>)
    ensures
        (match r {
            Ok(p) => smf_score(data@) == Some(p@),
            Err(e) => smf_score(data@) is None && e == TimelineError::InvalidMidi,
        }),
{
    let smf = match Smf::parse(data) { Ok(s) => s, Err(_) => return Err(TimelineError::InvalidMidi) };
    let timing = match smf.header.timing {
        Timing::Metrical(t) => ScoreTiming::Metrical(t.as_int()),
        _ => ScoreTiming::Timecode,
    };
    let tracks = smf.tracks.iter().map(|tr| tr.iter().map(|e| ScoreEvent {
        delta: e.delta.as_int(),
        kind: match e.kind {
            Kind::Meta(Meta::Tempo(v)) => ScoreEventKind::Tempo(v.as_int()),
            Kind::Meta(Meta::TimeSignature(n, d, _, _)) => ScoreEventKind::TimeSignature(n, d),
            _ => ScoreEventKind::Other,
        },
    }).collect()).collect();
    Ok(ParsedScore { timing, tracks })
}

// ---------------------------------------------------------------------------
// Absolute ticks of the marks in a file.
pub open spec fn sat_add_u64(a: u64, b: u32) -> u64 {
    if a + b > u64::MAX {
        u64::MAX
    } else {
        (a + b) as u64
    }
}

/// The events of a track with their absolute ticks, the deltas summed from
/// the start of the track (saturating).
pub open spec fn track_ticks(track: Seq<ScoreEvent>) -> Seq<(u64, ScoreEventKind)>
    decreases track.len(),
{
    if track.len() == 0 {
        Seq::empty()
    } else {
        let prev = track_ticks(track.drop_last());
        let acc: u64 = if prev.len() == 0 {
            0
        } else {
            prev.last().0
        };
        prev.push((sat_add_u64(acc, track.last().delta), track.last().kind))
    }
}

/// The events of every track with their absolute ticks, track after track.
pub open spec fn all_ticks(tracks: Seq<Seq<ScoreEvent>>) -> Seq<(u64, ScoreEventKind)>
    decreases tracks.len(),
{
    if tracks.len() == 0 {
        Seq::empty()
    } else {
        all_ticks(tracks.drop_last()) + track_ticks(tracks.last())
    }
}

/// `2^p`, saturating at 255.
pub open spec fn pow2_sat_u8(p: u8) -> u8 {
    if p == 0 {
        1
    } else if p == 1 {
        2
    } else if p == 2 {
        4
    } else if p == 3 {
        8
    } else if p == 4 {
        16
    } else if p == 5 {
        32
    } else if p == 6 {
        64
    } else if p == 7 {
        128
    } else {
        255
    }
}

/// A time signature's denominator is two to the power its event gives, up
/// to 2^7 = 128 (beyond that, the largest `u8` value): so each further power
/// doubles it, and power 0 gives 1.
pub proof fn lemma_denominator_is_power_of_two(p: u8)
    ensures
        p <= 7 ==> pow2_sat_u8(p) as nat == pow2(p as nat),
        p < 7 ==> pow2_sat_u8((p + 1) as u8) == 2 * pow2_sat_u8(p),
        pow2_sat_u8(0) == 1,
        p > 7 ==> pow2_sat_u8(p) == 255,
{
    lemma2_to64();
}

/// The tempo marks among the events, in event order.
pub open spec fn tempo_marks(evs: Seq<(u64, ScoreEventKind)>) -> Seq<(u64, u32)>
    decreases evs.len(),
{
    if evs.len() == 0 {
        Seq::empty()
    } else {
        let prev = tempo_marks(evs.drop_last());
        match evs.last().1 {
            ScoreEventKind::Tempo(v) => prev.push((evs.last().0, v)),
            _ => prev,
        }
    }
}

/// The time-signature marks among the events, in event order, the
/// denominator as a number of beats (`2^power`, at most 255).
pub open spec fn time_sig_marks(evs: Seq<(u64, ScoreEventKind)>) -> Seq<(u64, (u8, u8))>
    decreases evs.len(),
{
    if evs.len() == 0 {
        Seq::empty()
    } else {
        let prev = time_sig_marks(evs.drop_last());
        match evs.last().1 {
            ScoreEventKind::TimeSignature(n, d) => prev.push((evs.last().0, (n, pow2_sat_u8(d)))),
            _ => prev,
        }
    }
}

/// The value of the last mark at `tick`.
pub open spec fn last_value_at<V>(marks: Seq<(u64, V)>, tick: u64) -> Option<V>
    decreases marks.len(),
{
    if marks.len() == 0 {
        None
    } else if marks.last().0 == tick {
        Some(marks.last().1)
    } else {
        last_value_at(marks.drop_last(), tick)
    }
}

/// `pts` lists each tick that has a mark once, in increasing order, with the
/// value of the last mark at that tick.
pub open spec fn latest_by_tick<V>(marks: Seq<(u64, V)>, pts: Seq<(u64, V)>) -> bool {
    &&& forall|i: int, j: int| 0 <= i < j < pts.len() ==> pts[i].0 < pts[j].0
    &&& forall|k: int| 0 <= k < pts.len() ==> last_value_at(marks, #[trigger] pts[k].0) == Some(
        pts[k].1,
    )
    &&& forall|t: u64| #[trigger] last_value_at(marks, t) is Some ==> exists|k: int|
        0 <= k < pts.len() && pts[k].0 == t
}

fn upsert_mark<V: Copy>(pts: &mut Vec<(u64, V)>, t: u64, v: V, Ghost(marks): Ghost<
    Seq<(u64, V)>,
>)
    requires
        latest_by_tick(marks, old(pts)@),
    ensures
        latest_by_tick(marks.push((t, v)), final(pts)@),
{
    let ghost m2 = marks.push((t, v));
    assert(m2.drop_last() =~= marks);
    let mut k: usize = 0;
    while k < pts.len() && pts[k].0 < t
        invariant
            k <= pts.len(),
            pts@ == old(pts)@,
            forall|j: int| 0 <= j < k ==> pts@[j].0 < t,
        decreases pts.len() - k,
    {
        k += 1;
    }
    let ghost before = pts@;
    if k < pts.len() && pts[k].0 == t {
        pts.set(k, (t, v));
        assert forall|i: int, j: int| 0 <= i < j < pts@.len() implies pts@[i].0 < pts@[j].0 by {
            assert(pts@[i].0 == before[i].0 && pts@[j].0 == before[j].0);
        }
        assert forall|q: int| 0 <= q < pts@.len() implies last_value_at(
            m2,
            #[trigger] pts@[q].0,
        ) == Some(pts@[q].1) by {
            if q != k {
                assert(pts@[q] == before[q]);
                assert(before[q].0 != t);
            }
        }
        assert forall|x: u64| #[trigger] last_value_at(m2, x) is Some implies exists|q: int|
            0 <= q < pts@.len() && pts@[q].0 == x by {
            if x == t {
                assert(pts@[k as int].0 == t);
            } else {
                assert(last_value_at(marks, x) is Some);
                let q = choose|q: int| 0 <= q < before.len() && before[q].0 == x;
                assert(pts@[q].0 == x);
            }
        }
    } else {
        pts.insert(k, (t, v));
        assert(pts@ == before.insert(k as int, (t, v)));
        assert forall|i: int, j: int| 0 <= i < j < pts@.len() implies pts@[i].0 < pts@[j].0 by {
            if j < k {
                assert(pts@[i] == before[i] && pts@[j] == before[j]);
            } else if j == k {
                assert(pts@[i] == before[i]);
            } else if i < k {
                assert(pts@[i] == before[i] && pts@[j] == before[j - 1]);
                assert(before[k as int].0 > t);
                if j - 1 > k {
                    assert(before[k as int].0 < before[j - 1].0);
                }
            } else if i == k {
                assert(pts@[j] == before[j - 1]);
                assert(before[k as int].0 > t);
                if j - 1 > k {
                    assert(before[k as int].0 < before[j - 1].0);
                }
            } else {
                assert(pts@[i] == before[i - 1] && pts@[j] == before[j - 1]);
            }
        }
        assert forall|q: int| 0 <= q < pts@.len() implies last_value_at(
            m2,
            #[trigger] pts@[q].0,
        ) == Some(pts@[q].1) by {
            if q < k {
                assert(pts@[q] == before[q]);
                assert(before[q].0 < t);
            } else if q > k {
                assert(pts@[q] == before[q - 1]);
                assert(before[k as int].0 > t);
                if q - 1 > k {
                    assert(before[k as int].0 < before[q - 1].0);
                }
            }
        }
        assert forall|x: u64| #[trigger] last_value_at(m2, x) is Some implies exists|q: int|
            0 <= q < pts@.len() && pts@[q].0 == x by {
            if x == t {
                assert(pts@[k as int].0 == t);
            } else {
                assert(last_value_at(marks, x) is Some);
                let q = choose|q: int| 0 <= q < before.len() && before[q].0 == x;
                if q < k {
                    assert(pts@[q].0 == x);
                } else {
                    assert(pts@[q + 1].0 == x);
                }
            }
        }
    }
}

/// The marks of the whole file, first to last, with their absolute ticks,
/// folded into one point per tick.
fn collect_marks(tracks: &Vec<Vec<ScoreEvent>>) -> (r: (
    Vec<(u64, u32)>,
    Vec<(u64, (u8, u8))>,
))
    ensures
        latest_by_tick(
            tempo_marks(all_ticks(tracks@.map_values(|t: Vec<ScoreEvent>| t@))),
            r.0@,
        ),
        latest_by_tick(
            time_sig_marks(all_ticks(tracks@.map_values(|t: Vec<ScoreEvent>| t@))),
            r.1@,
        ),
{
    let ghost tv = tracks@.map_values(|t: Vec<ScoreEvent>| t@);
    let mut tp: Vec<(u64, u32)> = Vec::new();
    let mut sp: Vec<(u64, (u8, u8))> = Vec::new();
    let mut i: usize = 0;
    assert(tv.subrange(0, 0) =~= Seq::<Seq<ScoreEvent>>::empty());
    while i < tracks.len()
        invariant
            i <= tracks.len(),
            tv == tracks@.map_values(|t: Vec<ScoreEvent>| t@),
            latest_by_tick(tempo_marks(all_ticks(tv.subrange(0, i as int))), tp@),
            latest_by_tick(time_sig_marks(all_ticks(tv.subrange(0, i as int))), sp@),
        decreases tracks.len() - i,
    {
        let ghost done = all_ticks(tv.subrange(0, i as int));
        let track = &tracks[i];
        assert(tv[i as int] == track@);
        let mut acc: u64 = 0;
        let mut j: usize = 0;
        assert(track@.subrange(0, 0) =~= Seq::<ScoreEvent>::empty());
        assert(done + track_ticks(track@.subrange(0, 0)) =~= done);
        while j < track.len()
            invariant
                j <= track.len(),
                latest_by_tick(tempo_marks(done + track_ticks(track@.subrange(0, j as int))), tp@),
                latest_by_tick(
                    time_sig_marks(done + track_ticks(track@.subrange(0, j as int))),
                    sp@,
                ),
                acc == (if j == 0 {
                    0u64
                } else {
                    track_ticks(track@.subrange(0, j as int)).last().0
                }),
            decreases track.len() - j,
        {
            let ghost pre = done + track_ticks(track@.subrange(0, j as int));
            let ev = track[j];
            let tick: u64 = if acc > u64::MAX - (ev.delta as u64) {
                u64::MAX
            } else {
                acc + ev.delta as u64
            };
            proof {
                let sub = track@.subrange(0, j as int + 1);
                assert(sub.drop_last() =~= track@.subrange(0, j as int));
                assert(sub.last() == ev);
                if j == 0 {
                    assert(track_ticks(track@.subrange(0, 0)).len() == 0);
                }
                assert(track_ticks(sub) == track_ticks(track@.subrange(0, j as int)).push(
                    (tick, ev.kind),
                ));
                assert(done + track_ticks(sub) =~= pre.push((tick, ev.kind)));
                assert(pre.push((tick, ev.kind)).drop_last() =~= pre);
                assert(pre.push((tick, ev.kind)).last() == (tick, ev.kind));
            }
            match ev.kind {
                ScoreEventKind::Tempo(v) => {
                    upsert_mark(&mut tp, tick, v, Ghost(tempo_marks(pre)));
                },
                ScoreEventKind::TimeSignature(n, d) => {
                    let den: u8 = if d == 0 {
                        1
                    } else if d == 1 {
                        2
                    } else if d == 2 {
                        4
                    } else if d == 3 {
                        8
                    } else if d == 4 {
                        16
                    } else if d == 5 {
                        32
                    } else if d == 6 {
                        64
                    } else if d == 7 {
                        128
                    } else {
                        255
                    };
                    upsert_mark(&mut sp, tick, (n, den), Ghost(time_sig_marks(pre)));
                },
                ScoreEventKind::Other => {},
            }
            acc = tick;
            j += 1;
        }
        proof {
            assert(track@.subrange(0, j as int) =~= track@);
            let sub = tv.subrange(0, i as int + 1);
            assert(sub.drop_last() =~= tv.subrange(0, i as int));
            assert(sub.last() == track@);
        }
        i += 1;
    }
    assert(tv.subrange(0, i as int) =~= tv);
    (tp, sp)
}

// ---------------------------------------------------------------------------
// The timeline.
pub open spec fn tempo_pairs(pts: Seq<TempoPoint>) -> Seq<(u64, u32)> {
    pts.map_values(|p: TempoPoint| (p.tick, p.us_per_quarter))
}

pub open spec fn time_sig_pairs(pts: Seq<TimeSigPoint>) -> Seq<(u64, (u8, u8))> {
    pts.map_values(|p: TimeSigPoint| (p.tick, (p.numerator, p.denominator)))
}

/// `pts` with a point at tick 0 put first when it lacks one.
pub open spec fn with_start<V>(pts: Seq<(u64, V)>, dflt: V) -> Seq<(u64, V)> {
    if pts.len() == 0 || pts[0].0 != 0 {
        seq![(0u64, dflt)] + pts
    } else {
        pts
    }
}

/// The tempo and meter changes of a score.
#[derive(Debug, Clone)]
pub struct ScoreTimeline {
    ppq: u16,
    tempo_points: Vec<TempoPoint>,
    time_sig_points: Vec<TimeSigPoint>,
}

impl ScoreTimeline {
    pub closed spec fn ppq_of(&self) -> u16 {
        self.ppq
    }

    pub closed spec fn tempo_view(&self) -> Seq<TempoPoint> {
        self.tempo_points@
    }

    pub closed spec fn time_sig_view(&self) -> Seq<TimeSigPoint> {
        self.time_sig_points@
    }

    pub open spec fn spec_parsed_by(&self, p: ParsedScoreView) -> bool {
        timeline_of_parts(p, self.ppq_of(), self.tempo_view(), self.time_sig_view())
    }

    /// The timeline of a parsed file; a file that counts SMPTE frames has
    /// none.
    pub fn from_parsed(p: &ParsedScore) -> (r: Result<ScoreTimeline, TimelineError>)
        ensures
            (match r {
                Ok(t) => t.spec_parsed_by(p@),
                Err(e) => p.timing == ScoreTiming::Timecode && e == TimelineError::SmpteTiming,
            }),
    {
        let ppq = match p.timing {
            ScoreTiming::Metrical(q) => q,
            ScoreTiming::Timecode => {
                return Err(TimelineError::SmpteTiming);
            },
        };
        let (tp, sp) = collect_marks(&p.tracks);
        let mut tempo_points: Vec<TempoPoint> = Vec::new();
        if tp.len() == 0 || tp[0].0 != 0 {
            tempo_points.push(TempoPoint { tick: 0, us_per_quarter: 500_000 });
        }
        let ghost t0 = tempo_pairs(tempo_points@);
        let mut i: usize = 0;
        while i < tp.len()
            invariant
                i <= tp.len(),
                tempo_pairs(tempo_points@) == t0 + tp@.subrange(0, i as int),
            decreases tp.len() - i,
        {
            let ghost before = tempo_pairs(tempo_points@);
            tempo_points.push(TempoPoint { tick: tp[i].0, us_per_quarter: tp[i].1 });
            assert(tempo_pairs(tempo_points@) =~= before.push(tp@[i as int]));
            assert(tempo_pairs(tempo_points@) =~= t0 + tp@.subrange(0, i as int + 1));
            i += 1;
        }
        assert(tp@.subrange(0, i as int) =~= tp@);
        assert(tempo_pairs(tempo_points@) =~= with_start(tp@, 500_000u32));
        let mut time_sig_points: Vec<TimeSigPoint> = Vec::new();
        if sp.len() == 0 || sp[0].0 != 0 {
            time_sig_points.push(TimeSigPoint { tick: 0, numerator: 4, denominator: 4 });
        }
        let ghost s0 = time_sig_pairs(time_sig_points@);
        let mut j: usize = 0;
        while j < sp.len()
            invariant
                j <= sp.len(),
                time_sig_pairs(time_sig_points@) == s0 + sp@.subrange(0, j as int),
            decreases sp.len() - j,
        {
            let ghost before = time_sig_pairs(time_sig_points@);
            time_sig_points.push(
                TimeSigPoint { tick: sp[j].0, numerator: (sp[j].1).0, denominator: (sp[j].1).1 },
            );
            assert(time_sig_pairs(time_sig_points@) =~= before.push(sp@[j as int]));
            assert(time_sig_pairs(time_sig_points@) =~= s0 + sp@.subrange(0, j as int + 1));
            j += 1;
        }
        assert(sp@.subrange(0, j as int) =~= sp@);
        assert(time_sig_pairs(time_sig_points@) =~= with_start(sp@, (4u8, 4u8)));
        let t = ScoreTimeline { ppq, tempo_points, time_sig_points };
        proof {
            let evs = all_ticks(p@.tracks);
            assert(latest_by_tick(tempo_marks(evs), tp@) && latest_by_tick(time_sig_marks(evs), sp@));
        }
        Ok(t)
    }

    /// Reads the timeline of a MIDI file from its bytes.
    pub fn from_midi_bytes(data: &[u8]) -> (r: Result<ScoreTimeline, TimelineError>)
        ensures
            (match r {
                Ok(t) => smf_score(data@) matches Some(p) && t.spec_parsed_by(p),
                Err(TimelineError::InvalidMidi) => smf_score(data@) is None,
                Err(TimelineError::SmpteTiming) => smf_score(data@) matches Some(p) && p.timing
                    == ScoreTiming::Timecode,
            }),
    {
        let parsed = parse_smf(data)?;
        ScoreTimeline::from_parsed(&parsed)
    }

    /// How much the timeline holds.
    pub fn summary(&self) -> (s: ScoreTimelineSummary)
        ensures
            s.ppq == self.ppq_of(),
            s.tempo_events == self.tempo_view().len(),
            s.time_signature_events == self.time_sig_view().len(),
    {
        ScoreTimelineSummary {
            ppq: self.ppq,
            tempo_events: self.tempo_points.len(),
            time_signature_events: self.time_sig_points.len(),
        }
    }

    pub fn ppq(&self) -> (q: u16)
        ensures
            q == self.ppq_of(),
    {
        self.ppq
    }

    /// The tempo points, in tick order.
    pub fn tempo_points(&self) -> (v: Vec<TempoPoint>)
        ensures
            v@ == self.tempo_view(),
    {
        self.tempo_points.clone()
    }

    /// The time-signature points, in tick order.
    pub fn time_sig_points(&self) -> (v: Vec<TimeSigPoint>)
        ensures
            v@ == self.time_sig_view(),
    {
        self.time_sig_points.clone()
    }
}

/// The timeline of a parsed file: its pulses per quarter note, and one
/// tempo and one time-signature point per tick at which the file has such a
/// mark (the last mark at a tick wins), in tick order, with 120 BPM and 4/4
/// put at tick 0 where the file sets nothing there.
pub open spec fn timeline_of_parts(
    p: ParsedScoreView,
    ppq: u16,
    tempo: Seq<TempoPoint>,
    sigs: Seq<TimeSigPoint>,
) -> bool {
    let evs = all_ticks(p.tracks);
    &&& p.timing == ScoreTiming::Metrical(ppq)
    &&& exists|tp: Seq<(u64, u32)>, sp: Seq<(u64, (u8, u8))>|
        #![trigger latest_by_tick(tempo_marks(evs), tp), latest_by_tick(time_sig_marks(evs), sp)]
        latest_by_tick(tempo_marks(evs), tp) && latest_by_tick(time_sig_marks(evs), sp)
            && tempo_pairs(tempo) == with_start(tp, 500_000u32) && time_sig_pairs(sigs)
            == with_start(sp, (4u8, 4u8))
}

// ---------------------------------------------------------------------------
// Merging points that share a tick.
/// `pts` with each run of consecutive points at one tick replaced by the
/// last point of the run.
pub open spec fn dedup_last<T>(pts: Seq<T>, tick: spec_fn(T) -> u64) -> Seq<T>
    decreases pts.len(),
{
    if pts.len() == 0 {
        Seq::empty()
    } else {
        let prev = dedup_last(pts.drop_last(), tick);
        if prev.len() > 0 && tick(prev.last()) == tick(pts.last()) {
            prev.update(prev.len() - 1, pts.last())
        } else {
            prev.push(pts.last())
        }
    }
}

pub open spec fn tempo_tick(p: TempoPoint) -> u64 {
    p.tick
}

pub open spec fn time_sig_tick(p: TimeSigPoint) -> u64 {
    p.tick
}

/// Keeps, of each run of tempo points at one tick, the last.
pub fn dedup_tempo_points(points: Vec<TempoPoint>) -> (out: Vec<TempoPoint>)
    ensures
        out@ == dedup_last(points@, |p: TempoPoint| tempo_tick(p)),
{
    let ghost f = |p: TempoPoint| tempo_tick(p);
    let mut out: Vec<TempoPoint> = Vec::new();
    let mut i: usize = 0;
    assert(points@.subrange(0, 0) =~= Seq::<TempoPoint>::empty());
    while i < points.len()
        invariant
            i <= points.len(),
            f == (|p: TempoPoint| tempo_tick(p)),
            out@ == dedup_last(points@.subrange(0, i as int), f),
        decreases points.len() - i,
    {
        let p = points[i];
        let ghost sub = points@.subrange(0, i as int + 1);
        assert(sub.drop_last() =~= points@.subrange(0, i as int));
        assert(sub.last() == p);
        let n = out.len();
        if n > 0 && out[n - 1].tick == p.tick {
            out.set(n - 1, p);
        } else {
            out.push(p);
        }
        i += 1;
    }
    assert(points@.subrange(0, i as int) =~= points@);
    out
}

/// Keeps, of each run of time-signature points at one tick, the last.
pub fn dedup_time_sig_points(points: Vec<TimeSigPoint>) -> (out: Vec<TimeSigPoint>)
    ensures
        out@ == dedup_last(points@, |p: TimeSigPoint| time_sig_tick(p)),
{
    let ghost f = |p: TimeSigPoint| time_sig_tick(p);
    let mut out: Vec<TimeSigPoint> = Vec::new();
    let mut i: usize = 0;
    assert(points@.subrange(0, 0) =~= Seq::<TimeSigPoint>::empty());
    while i < points.len()
        invariant
            i <= points.len(),
            f == (|p: TimeSigPoint| time_sig_tick(p)),
            out@ == dedup_last(points@.subrange(0, i as int), f),
        decreases points.len() - i,
    {
        let p = points[i];
        let ghost sub = points@.subrange(0, i as int + 1);
        assert(sub.drop_last() =~= points@.subrange(0, i as int));
        assert(sub.last() == p);
        let n = out.len();
        if n > 0 && out[n - 1].tick == p.tick {
            out.set(n - 1, p);
        } else {
            out.push(p);
        }
        i += 1;
    }
    assert(points@.subrange(0, i as int) =~= points@);
    out
}

/// Merging the runs of a list sorted by tick leaves one point per tick: the
/// ticks become strictly increasing, and each tick of the list is kept.
pub proof fn lemma_dedup_sorted_is_strict<T>(pts: Seq<T>, tick: spec_fn(T) -> u64)
    requires
        forall|i: int, j: int| 0 <= i <= j < pts.len() ==> tick(pts[i]) <= tick(pts[j]),
    ensures
        forall|i: int, j: int|
            0 <= i < j < dedup_last(pts, tick).len() ==> tick(dedup_last(pts, tick)[i]) < tick(
                dedup_last(pts, tick)[j],
            ),
        forall|k: int|
            0 <= k < pts.len() ==> exists|m: int|
                0 <= m < dedup_last(pts, tick).len() && tick(dedup_last(pts, tick)[m]) == tick(
                    #[trigger] pts[k],
                ),
        pts.len() > 0 ==> dedup_last(pts, tick).len() > 0 && dedup_last(pts, tick).last()
            == pts.last(),
    decreases pts.len(),
{
    if pts.len() > 0 {
        let p = pts.drop_last();
        assert forall|i: int, j: int| 0 <= i <= j < p.len() implies tick(p[i]) <= tick(p[j]) by {
            assert(p[i] == pts[i] && p[j] == pts[j]);
        }
        lemma_dedup_sorted_is_strict(p, tick);
        let prev = dedup_last(p, tick);
        let d = dedup_last(pts, tick);
        if p.len() > 0 {
            assert(tick(p.last()) <= tick(pts.last()));
        }
        assert forall|k: int| 0 <= k < pts.len() implies exists|m: int|
            0 <= m < d.len() && tick(d[m]) == tick(#[trigger] pts[k]) by {
            if k == pts.len() - 1 {
                assert(tick(d[d.len() - 1]) == tick(pts[k]));
            } else {
                assert(p[k] == pts[k]);
                let m = choose|m: int| 0 <= m < prev.len() && tick(prev[m]) == tick(p[k]);
                if prev.len() > 0 && tick(prev.last()) == tick(pts.last()) && m == prev.len() - 1 {
                    assert(tick(d[m]) == tick(pts.last()));
                } else {
                    assert(d[m] == prev[m]);
                }
            }
        }
    }
}

/// The position of the tempo point in force at `tick`: the first point
/// whose span (up to the next point) holds it, else the first point.
pub open spec fn tempo_span_index(pts: Seq<TempoPoint>, tick: u64) -> int
    decreases pts.len(),
{
    tempo_span_from(pts, tick, 0)
}

pub open spec fn in_span(pts: Seq<TempoPoint>, tick: u64, i: int) -> bool {
    tick >= pts[i].tick && (i + 1 < pts.len() ==> tick < pts[i + 1].tick)
}

pub open spec fn tempo_span_from(pts: Seq<TempoPoint>, tick: u64, i: int) -> int
    decreases pts.len() - i,
{
    if i < 0 || i >= pts.len() {
        0
    } else if in_span(pts, tick, i) {
        i
    } else {
        tempo_span_from(pts, tick, i + 1)
    }
}

impl ScoreTimeline {
    /// The position of the tempo point in force at `tick`.
    pub fn tempo_segment_for_tick(&self, tick: u64) -> (i: usize)
        ensures
            i == tempo_span_index(self.tempo_view(), tick),
    {
        let pts = &self.tempo_points;
        let mut i: usize = 0;
        while i < pts.len()
            invariant
                i <= pts.len(),
                pts@ == self.tempo_view(),
                tempo_span_index(pts@, tick) == tempo_span_from(pts@, tick, i as int),
            decreases pts.len() - i,
        {
            let in_seg = tick >= pts[i].tick && (i + 1 >= pts.len() || tick < pts[i + 1].tick);
            if in_seg {
                return i;
            }
            i += 1;
        }
        0
    }
}

} // verus!
