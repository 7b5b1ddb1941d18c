//! Counting beats to a bar position on a tempo and meter map given by bar.
use vstd::prelude::*;

verus! {

/// A meter change at the start of `bar`.
#[derive(Debug, Clone, Copy, PartialEq, Eq, Structural)]
pub struct MeterEvent {
    pub bar: u32,
    pub numerator: u32,
    pub denominator: u32,
}

/// The position of the last of the greatest keys among those at or before
/// `bar` (what `max_by_key` picks); `None` when there is none.
pub open spec fn last_max_at_or_before(keys: Seq<(u32, u32)>, bar: u32) -> Option<int>
    decreases keys.len(),
{
    if keys.len() == 0 {
        None
    } else {
        let prev = last_max_at_or_before(keys.drop_last(), bar);
        let k = keys.last();
        if k.0 > bar {
            prev
        } else {
            match prev {
                None => Some(keys.len() - 1),
                Some(p) => if key_le(keys[p], k) {
                    Some(keys.len() - 1)
                } else {
                    prev
                },
            }
        }
    }
}

proof fn lemma_last_max_bounds(keys: Seq<(u32, u32)>, bar: u32)
    ensures
        last_max_at_or_before(keys, bar) matches Some(i) ==> 0 <= i < keys.len(),
    decreases keys.len(),
{
    if keys.len() > 0 {
        lemma_last_max_bounds(keys.drop_last(), bar);
    }
}

/// Lexicographic order of (bar, beat) keys.
pub open spec fn key_le(a: (u32, u32), b: (u32, u32)) -> bool {
    a.0 < b.0 || (a.0 == b.0 && a.1 <= b.1)
}

/// The tempo change in force at `bar`: the one at or before it with the
/// greatest (bar, beat), the last one among equals. `keys` are the (bar,
/// beat) positions of the tempo changes.
pub fn tempo_index_at(keys: &Vec<(u32, u32)>, bar: u32) -> (r: Option<usize>)
    ensures
        (match r {
            Some(i) => last_max_at_or_before(keys@, bar) == Some(i as int),
            None => last_max_at_or_before(keys@, bar) is None,
        }),
{
    let mut best: Option<usize> = None;
    let mut i: usize = 0;
    assert(keys@.subrange(0, 0) =~= Seq::<(u32, u32)>::empty());
    while i < keys.len()
        invariant
            i <= keys.len(),
            (match best {
                Some(b) => b < i && last_max_at_or_before(keys@.subrange(0, i as int), bar) == Some(
                    b as int,
                ),
                None => last_max_at_or_before(keys@.subrange(0, i as int), bar) is None,
            }),
        decreases keys.len() - i,
    {
        let ghost sub = keys@.subrange(0, i as int + 1);
        assert(sub.drop_last() =~= keys@.subrange(0, i as int));
        assert(sub.last() == keys@[i as int]);
        let k = keys[i];
        if k.0 <= bar {
            match best {
                None => {
                    best = Some(i);
                },
                Some(b) => {
                    let cur = keys[b];
                    assert(sub[b as int] == cur);
                    if cur.0 < k.0 || (cur.0 == k.0 && cur.1 <= k.1) {
                        best = Some(i);
                    }
                },
            }
        }
        i += 1;
    }
    assert(keys@.subrange(0, i as int) =~= keys@);
    best
}

pub open spec fn meter_keys(m: Seq<MeterEvent>) -> Seq<(u32, u32)> {
    m.map_values(|e: MeterEvent| (e.bar, 0u32))
}

/// The beats per bar at `bar`: the numerator of the last meter change with
/// the greatest bar at or before it, else four.
pub open spec fn spec_beats_per_bar(meters: Seq<MeterEvent>, bar: u32) -> u32 {
    match last_max_at_or_before(meter_keys(meters), bar) {
        Some(i) => meters[i].numerator,
        None => 4,
    }
}

/// Where a bar and beat lie on the tempo and meter maps.
#[derive(Debug, Clone, Copy, PartialEq, Eq, Structural)]
pub struct BarBeatPosition {
    /// The tempo change in force (none: the default 120 BPM).
    pub tempo_index: Option<usize>,
    /// The beats from the start of the piece.
    pub total_beats: u64,
}

/// Counts the beats to `bar` and `beat` (bars 1-based; bar 0 has no
/// position): the bars before it times the beats per bar in force there,
/// plus `beat`, with the tempo change in force at that bar.
pub fn bar_beat_position(
    bar: u32,
    beat: u32,
    tempo_keys: &Vec<(u32, u32)>,
    meters: &Vec<MeterEvent>,
) -> (r: Option<BarBeatPosition>)
    ensures
        bar == 0 <==> r is None,
        r matches Some(p) ==> (match p.tempo_index {
            Some(i) => last_max_at_or_before(tempo_keys@, bar) == Some(i as int),
            None => last_max_at_or_before(tempo_keys@, bar) is None,
        }) && p.total_beats == (bar - 1) * spec_beats_per_bar(meters@, bar) + beat,
{
    if bar == 0 {
        return None;
    }
    let tempo_index = tempo_index_at(tempo_keys, bar);
    let mut mk: Vec<(u32, u32)> = Vec::new();
    let mut i: usize = 0;
    while i < meters.len()
        invariant
            i <= meters.len(),
            mk@ == meter_keys(meters@).subrange(0, i as int),
        decreases meters.len() - i,
    {
        mk.push((meters[i].bar, 0));
        assert(mk@ =~= meter_keys(meters@).subrange(0, i as int + 1));
        i += 1;
    }
    assert(mk@ =~= meter_keys(meters@));
    proof {
        lemma_last_max_bounds(mk@, bar);
    }
    let bpb: u32 = match tempo_index_at(&mk, bar) {
        Some(j) => meters[j].numerator,
        None => 4,
    };
    let bars: u64 = (bar - 1) as u64;
    assert(bars * (bpb as u64) <= 0xffff_ffffu64 * 0xffff_ffffu64) by (nonlinear_arith)
        requires
            bars <= 0xffff_ffffu64,
            bpb <= 0xffff_ffffu32,
    ;
    let total: u64 = bars * (bpb as u64) + (beat as u64);
    Some(BarBeatPosition { tempo_index, total_beats: total })
}


/// The first of `names` equal to `name` up to ASCII case.
pub open spec fn first_named(names: Seq<Seq<char>>, name: Seq<char>) -> Option<int>
    decreases names.len(),
{
    if names.len() == 0 {
        None
    } else {
        match first_named(names.drop_last(), name) {
            Some(i) => Some(i),
            None => if crate::text::eq_ignore_ascii_case(names.last(), name) {
                Some(names.len() - 1)
            } else {
                None
            },
        }
    }
}

proof fn lemma_first_named_scan(names: Seq<Seq<char>>, name: Seq<char>, i: int)
    requires
        0 <= i <= names.len(),
        forall|j: int| 0 <= j < i ==> !crate::text::eq_ignore_ascii_case(#[trigger] names[j], name),
        i < names.len() ==> crate::text::eq_ignore_ascii_case(names[i], name),
    ensures
        first_named(names, name) == (if i < names.len() { Some(i) } else { None::<int> }),
    decreases names.len(),
{
    if names.len() > 0 {
        let p = names.drop_last();
        assert forall|j: int| 0 <= j < (if i == names.len() { i - 1 } else { i }) && j < p.len()
            implies !crate::text::eq_ignore_ascii_case(#[trigger] p[j], name) by {
            assert(p[j] == names[j]);
        }
        if i == names.len() {
            lemma_first_named_scan(p, name, i - 1);
        } else if i < names.len() - 1 {
            assert(p[i] == names[i]);
            lemma_first_named_scan(p, name, i);
        } else {
            lemma_first_named_scan(p, name, i);
        }
    }
}

/// The position of the marker called `name` (ASCII case ignored); the first
/// one where several match.
pub fn find_marker(names: &Vec<String>, name: &str) -> (r: Option<usize>)
    ensures
        (match r {
            Some(i) => first_named(crate::intent::strings_view(names@), name@) == Some(i as int),
            None => first_named(crate::intent::strings_view(names@), name@) is None,
        }),
{
    let ghost views = crate::intent::strings_view(names@);
    let target = crate::text::chars_of(name);
    let mut i: usize = 0;
    while i < names.len()
        invariant
            i <= names.len(),
            views == crate::intent::strings_view(names@),
            target@ == name@,
            forall|j: int|
                0 <= j < i ==> !crate::text::eq_ignore_ascii_case(#[trigger] views[j], name@),
        decreases names.len() - i,
    {
        let n = crate::text::chars_of(names[i].as_str());
        assert(views[i as int] == names@[i as int]@);
        if crate::text::eq_ignore_ascii_case_chars(&n, &target) {
            proof {
                lemma_first_named_scan(views, name@, i as int);
            }
            return Some(i);
        }
        i += 1;
    }
    proof {
        lemma_first_named_scan(views, name@, i as int);
    }
    None
}

} // verus!
