//! The session map: the buses of the current session with their spoken
//! names, interface channels and control-surface channels, and what is
//! derived from it (the alias table, the audio bus maps, the channel map of
//! the control surface, the selection of buses by a comma-separated list).
use vstd::prelude::*;
use vstd::string::*;
use std::collections::HashMap;

use crate::audio::{AudioBusMap, BusView, buses_view};
use crate::intent::{
    AliasTable, alias_insert, default_alias_entries, default_aliases, pairs_view, strings_view,
};
use crate::text::{
    chars_of, eq_ignore_ascii_case, eq_ignore_ascii_case_chars, lemma_trimmed_bounds, push_char,
    spec_to_lowercase, string_from_range, to_lowercase, trim, trim_range,
};

verus! {

broadcast use vstd::std_specs::hash::group_hash_axioms;

/// One bus of the session.
#[derive(Debug, Clone)]
pub struct SessionBus {
    pub id: String,
    /// Further spoken names of the bus.
    pub aliases: Vec<String>,
    /// The 1-based interface channels the bus is heard on (empty: the
    /// channel with the bus's own 1-based position).
    pub audio_channels: Vec<usize>,
    /// The control-surface strip of the bus, if it has one.
    pub mcu_channel: Option<u8>,
    /// The MIDI channel its controller is sent on.
    pub channel: u8,
    /// The controller number that moves its fader, if any.
    pub cc: Option<u8>,
}

/// The session map.
#[derive(Debug, Clone)]
pub struct SessionMap {
    /// Spoken names of entities, mapped to bus ids.
    pub entity_aliases: Vec<(String, String)>,
    pub buses: Vec<SessionBus>,
}

/// The MIDI channel a bus's controller is sent on when the map names none.
pub fn default_midi_channel() -> (c: u8)
    ensures
        c == 16,
{
    16
}

pub open spec fn session_bus_ids(buses: Seq<SessionBus>) -> Seq<Seq<char>> {
    buses.map_values(|b: SessionBus| b.id@)
}

// ---------------------------------------------------------------------------
// The alias table of a session.
/// `s` with every underscore turned into a space.
pub open spec fn underscores_to_spaces(s: Seq<char>) -> Seq<char> {
    s.map_values(|c: char|
        if c == '_' {
            ' '
        } else {
            c
        })
}

/// The names a bus is known by, each with the bus id: its id lower-cased,
/// that with spaces for underscores, then each of its aliases lower-cased.
pub open spec fn bus_alias_pairs(b: SessionBus) -> Seq<(Seq<char>, Seq<char>)> {
    let lid = spec_to_lowercase(b.id@);
    seq![(lid, b.id@), (underscores_to_spaces(lid), b.id@)] + strings_view(b.aliases@).map_values(
        |a: Seq<char>| (spec_to_lowercase(a), b.id@),
    )
}

pub open spec fn buses_alias_pairs(bs: Seq<SessionBus>) -> Seq<(Seq<char>, Seq<char>)>
    decreases bs.len(),
{
    if bs.len() == 0 {
        Seq::empty()
    } else {
        buses_alias_pairs(bs.drop_last()) + bus_alias_pairs(bs.last())
    }
}

pub open spec fn entity_alias_pairs(e: Seq<(String, String)>) -> Seq<(Seq<char>, Seq<char>)> {
    e.map_values(|p: (String, String)| (spec_to_lowercase(p.0@), p.1@))
}

/// Every name the session map adds, in the order they are bound.
pub open spec fn session_alias_pairs(sm: SessionMap) -> Seq<(Seq<char>, Seq<char>)> {
    entity_alias_pairs(sm.entity_aliases@) + buses_alias_pairs(sm.buses@)
}

/// `entries` after binding each pair of `pairs` in turn.
pub open spec fn alias_insert_all(
    entries: Seq<(Seq<char>, Seq<char>)>,
    pairs: Seq<(Seq<char>, Seq<char>)>,
) -> Seq<(Seq<char>, Seq<char>)>
    decreases pairs.len(),
{
    if pairs.len() == 0 {
        entries
    } else {
        let prev = alias_insert_all(entries, pairs.drop_last());
        alias_insert(prev, pairs.last().0, pairs.last().1)
    }
}

proof fn lemma_alias_insert_all_concat(
    e: Seq<(Seq<char>, Seq<char>)>,
    p: Seq<(Seq<char>, Seq<char>)>,
    q: Seq<(Seq<char>, Seq<char>)>,
)
    ensures
        alias_insert_all(e, p + q) == alias_insert_all(alias_insert_all(e, p), q),
    decreases q.len(),
{
    if q.len() == 0 {
        assert(p + q =~= p);
    } else {
        assert((p + q).drop_last() =~= p + q.drop_last());
        assert((p + q).last() == q.last());
        lemma_alias_insert_all_concat(e, p, q.drop_last());
    }
}

proof fn lemma_alias_insert_all_step(
    e: Seq<(Seq<char>, Seq<char>)>,
    p: Seq<(Seq<char>, Seq<char>)>,
    k: int,
)
    requires
        0 <= k < p.len(),
    ensures
        alias_insert_all(e, p.subrange(0, k + 1)) == alias_insert(
            alias_insert_all(e, p.subrange(0, k)),
            p[k].0,
            p[k].1,
        ),
{
    assert(p.subrange(0, k + 1).drop_last() =~= p.subrange(0, k));
}

fn replace_underscores(s: &String) -> (r: String)
    ensures
        r@ == underscores_to_spaces(s@),
{
    let v = chars_of(s.as_str());
    let mut r = String::new();
    let mut i: usize = 0;
    while i < v.len()
        invariant
            i <= v.len(),
            v@ == s@,
            r@ == underscores_to_spaces(v@).subrange(0, i as int),
        decreases v.len() - i,
    {
        let c = v[i];
        if c == '_' {
            push_char(&mut r, ' ');
        } else {
            push_char(&mut r, c);
        }
        assert(r@ =~= underscores_to_spaces(v@).subrange(0, i as int + 1));
        i += 1;
    }
    assert(underscores_to_spaces(v@).subrange(0, i as int) =~= underscores_to_spaces(v@));
    r
}

fn insert_bus_aliases(t: &mut AliasTable, b: &SessionBus)
    ensures
        final(t).view() == alias_insert_all(old(t).view(), bus_alias_pairs(*b)),
{
    let ghost t0 = t.view();
    let ghost pairs = bus_alias_pairs(*b);
    let lid = to_lowercase(b.id.as_str());
    let spaced = replace_underscores(&lid);
    proof {
        lemma_alias_insert_all_step(t0, pairs, 0);
        lemma_alias_insert_all_step(t0, pairs, 1);
        assert(pairs.subrange(0, 0) =~= Seq::<(Seq<char>, Seq<char>)>::empty());
    }
    t.insert(lid, b.id.clone());
    t.insert(spaced, b.id.clone());
    let mut i: usize = 0;
    while i < b.aliases.len()
        invariant
            i <= b.aliases.len(),
            pairs == bus_alias_pairs(*b),
            pairs.len() == 2 + b.aliases@.len(),
            t.view() == alias_insert_all(t0, pairs.subrange(0, i + 2)),
        decreases b.aliases.len() - i,
    {
        proof {
            lemma_alias_insert_all_step(t0, pairs, i + 2);
            assert(pairs[i + 2] == (spec_to_lowercase(b.aliases@[i as int]@), b.id@));
        }
        let la = to_lowercase(b.aliases[i].as_str());
        t.insert(la, b.id.clone());
        i += 1;
    }
    assert(pairs.subrange(0, i + 2) =~= pairs);
}

/// The alias table of a session: the built-in names, then each entity alias
/// lower-cased, then for each bus its id lower-cased, that with spaces for
/// underscores, and its aliases lower-cased; a later binding of a name
/// replaces an earlier one.
pub fn build_aliases(session_map: &Option<SessionMap>) -> (t: AliasTable)
    ensures
        t.view() == (match session_map {
            None => default_alias_entries(),
            Some(sm) => alias_insert_all(default_alias_entries(), session_alias_pairs(*sm)),
        }),
{
    let mut t = default_aliases();
    match session_map {
        None => t,
        Some(sm) => {
            let ghost d = default_alias_entries();
            let ghost ents = entity_alias_pairs(sm.entity_aliases@);
            assert(ents.subrange(0, 0) =~= Seq::<(Seq<char>, Seq<char>)>::empty());
            let mut i: usize = 0;
            while i < sm.entity_aliases.len()
                invariant
                    i <= sm.entity_aliases.len(),
                    ents == entity_alias_pairs(sm.entity_aliases@),
                    t.view() == alias_insert_all(d, ents.subrange(0, i as int)),
                decreases sm.entity_aliases.len() - i,
            {
                proof {
                    lemma_alias_insert_all_step(d, ents, i as int);
                }
                let k = to_lowercase(sm.entity_aliases[i].0.as_str());
                t.insert(k, sm.entity_aliases[i].1.clone());
                i += 1;
            }
            assert(ents.subrange(0, i as int) =~= ents);
            let ghost after_entities = t.view();
            let mut j: usize = 0;
            assert(sm.buses@.subrange(0, 0) =~= Seq::<SessionBus>::empty());
            while j < sm.buses.len()
                invariant
                    j <= sm.buses.len(),
                    after_entities == alias_insert_all(d, ents),
                    t.view() == alias_insert_all(
                        after_entities,
                        buses_alias_pairs(sm.buses@.subrange(0, j as int)),
                    ),
                decreases sm.buses.len() - j,
            {
                let ghost before = t.view();
                insert_bus_aliases(&mut t, &sm.buses[j]);
                proof {
                    let pre = sm.buses@.subrange(0, j as int);
                    let next = sm.buses@.subrange(0, j as int + 1);
                    assert(next.drop_last() =~= pre);
                    assert(next.last() == sm.buses@[j as int]);
                    lemma_alias_insert_all_concat(
                        after_entities,
                        buses_alias_pairs(pre),
                        bus_alias_pairs(sm.buses@[j as int]),
                    );
                }
                j += 1;
            }
            assert(sm.buses@.subrange(0, j as int) =~= sm.buses@);
            proof {
                lemma_alias_insert_all_concat(d, ents, buses_alias_pairs(sm.buses@));
            }
            t
        },
    }
}

// ---------------------------------------------------------------------------
// Audio bus maps.
/// The interface channels a bus at position `idx` is heard on.
pub open spec fn bus_channels(b: SessionBus, idx: int) -> Seq<usize> {
    if b.audio_channels@.len() == 0 {
        seq![(idx + 1) as usize]
    } else {
        b.audio_channels@
    }
}

pub open spec fn spec_audio_bus_maps(buses: Seq<SessionBus>) -> Seq<BusView> {
    Seq::new(buses.len(), |i: int| BusView { id: buses[i].id@, channels: bus_channels(buses[i], i) })
}

/// One audio bus map per session bus, heard on the bus's interface channels
/// or, where it lists none, on the channel of its own 1-based position.
pub fn build_audio_bus_maps(sm: &SessionMap) -> (out: Vec<AudioBusMap>)
    ensures
        buses_view(out@) == spec_audio_bus_maps(sm.buses@),
{
    let mut out: Vec<AudioBusMap> = Vec::new();
    let mut i: usize = 0;
    while i < sm.buses.len()
        invariant
            i <= sm.buses.len(),
            buses_view(out@) == spec_audio_bus_maps(sm.buses@).subrange(0, i as int),
        decreases sm.buses.len() - i,
    {
        let b = &sm.buses[i];
        let channels = if b.audio_channels.len() == 0 {
            let mut c: Vec<usize> = Vec::new();
            c.push(i + 1);
            c
        } else {
            b.audio_channels.clone()
        };
        let ghost before = buses_view(out@);
        out.push(AudioBusMap { id: b.id.clone(), channels });
        assert(buses_view(out@) =~= before.push(spec_audio_bus_maps(sm.buses@)[i as int]));
        assert(buses_view(out@) =~= spec_audio_bus_maps(sm.buses@).subrange(0, i as int + 1));
        i += 1;
    }
    assert(spec_audio_bus_maps(sm.buses@).subrange(0, i as int) =~= spec_audio_bus_maps(sm.buses@));
    out
}

// ---------------------------------------------------------------------------
// Control-surface strips.
/// The control-surface strip of the bus at position `idx`: its own, else its
/// 1-based position where that fits a byte, else the first strip.
pub open spec fn mcu_strip(b: SessionBus, idx: int) -> u8 {
    match b.mcu_channel {
        Some(c) => c,
        None => if idx + 1 <= 255 {
            (idx + 1) as u8
        } else {
            1
        },
    }
}

/// Which bus each strip shows; a later bus on the same strip wins.
pub open spec fn spec_strip_map(buses: Seq<SessionBus>) -> Map<u8, String>
    decreases buses.len(),
{
    if buses.len() == 0 {
        Map::empty()
    } else {
        spec_strip_map(buses.drop_last()).insert(
            mcu_strip(buses.last(), buses.len() - 1),
            buses.last().id,
        )
    }
}

/// The bus shown on each control-surface strip.
pub fn build_strip_map(session_map: &Option<SessionMap>) -> (m: HashMap<u8, String>)
    ensures
        m@ == (match session_map {
            None => Map::<u8, String>::empty(),
            Some(sm) => spec_strip_map(sm.buses@),
        }),
{
    let mut m: HashMap<u8, String> = HashMap::new();
    match session_map {
        None => {},
        Some(sm) => {
            let mut i: usize = 0;
            assert(sm.buses@.subrange(0, 0) =~= Seq::<SessionBus>::empty());
            while i < sm.buses.len()
                invariant
                    i <= sm.buses.len(),
                    m@ == spec_strip_map(sm.buses@.subrange(0, i as int)),
                decreases sm.buses.len() - i,
            {
                let b = &sm.buses[i];
                let ch: u8 = match b.mcu_channel {
                    Some(c) => c,
                    None => if i < 255 {
                        (i + 1) as u8
                    } else {
                        1
                    },
                };
                let ghost next = sm.buses@.subrange(0, i as int + 1);
                assert(next.drop_last() =~= sm.buses@.subrange(0, i as int));
                assert(ch == mcu_strip(next.last(), next.len() - 1));
                m.insert(ch, b.id.clone());
                i += 1;
            }
            assert(sm.buses@.subrange(0, i as int) =~= sm.buses@);
        },
    }
    m
}

// ---------------------------------------------------------------------------
// Selecting buses by a comma-separated list.
/// The pieces of `s` between the separators `sep` (`str::split`): always at
/// least one, possibly empty.
pub open spec fn split_on(s: Seq<char>, sep: char) -> Seq<Seq<char>>
    decreases s.len(),
{
    if s.len() == 0 {
        seq![Seq::<char>::empty()]
    } else {
        let prev = split_on(s.drop_last(), sep);
        if s.last() == sep {
            prev.push(Seq::<char>::empty())
        } else {
            prev.update(prev.len() - 1, prev.last().push(s.last()))
        }
    }
}

proof fn lemma_split_nonempty(s: Seq<char>, sep: char)
    ensures
        split_on(s, sep).len() >= 1,
    decreases s.len(),
{
    if s.len() > 0 {
        lemma_split_nonempty(s.drop_last(), sep);
    }
}

pub open spec fn pieces_of(v: Seq<char>, bounds: Seq<(usize, usize)>) -> Seq<Seq<char>> {
    bounds.map_values(|b: (usize, usize)| v.subrange(b.0 as int, b.1 as int))
}

pub(crate) fn split_bounds(v: &Vec<char>, sep: char) -> (bounds: Vec<(usize, usize)>)
    ensures
        pieces_of(v@, bounds@) == split_on(v@, sep),
        forall|k: int|
            #![trigger bounds@[k]] 0 <= k < bounds@.len() ==> bounds@[k].0 <= bounds@[k].1 && bounds@[k].1 <= v@.len(),
{
    let mut bounds: Vec<(usize, usize)> = Vec::new();
    let mut start: usize = 0;
    let mut i: usize = 0;
    assert(v@.subrange(0, 0) =~= Seq::<char>::empty());
    assert(pieces_of(v@, bounds@).push(v@.subrange(0, 0)) =~= seq![Seq::<char>::empty()]);
    while i < v.len()
        invariant
            start <= i <= v.len(),
            split_on(v@.subrange(0, i as int), sep) == pieces_of(v@, bounds@).push(
                v@.subrange(start as int, i as int),
            ),
            forall|k: int|
                #![trigger bounds@[k]] 0 <= k < bounds@.len() ==> bounds@[k].0 <= bounds@[k].1 && bounds@[k].1 <= v@.len(),
        decreases v.len() - i,
    {
        let ghost pre = v@.subrange(0, i as int);
        let ghost next = v@.subrange(0, i as int + 1);
        assert(next.drop_last() =~= pre);
        assert(next.last() == v@[i as int]);
        let ghost old_pieces = pieces_of(v@, bounds@);
        if v[i] == sep {
            bounds.push((start, i));
            start = i + 1;
            assert(pieces_of(v@, bounds@) =~= old_pieces.push(v@.subrange(
                bounds@.last().0 as int,
                i as int,
            )));
            assert(v@.subrange(start as int, i as int + 1) =~= Seq::<char>::empty());
            assert(split_on(next, sep) =~= pieces_of(v@, bounds@).push(
                v@.subrange(start as int, i as int + 1),
            ));
        } else {
            assert(v@.subrange(start as int, i as int + 1) =~= v@.subrange(
                start as int,
                i as int,
            ).push(v@[i as int]));
            assert(split_on(next, sep) =~= pieces_of(v@, bounds@).push(
                v@.subrange(start as int, i as int + 1),
            ));
        }
        i += 1;
    }
    let ghost before = pieces_of(v@, bounds@);
    let ghost old_bounds = bounds@;
    bounds.push((start, i));
    assert(pieces_of(v@, bounds@) =~= before.push(v@.subrange(start as int, i as int)));
    assert forall|k: int|
        #![trigger bounds@[k]] 0 <= k < bounds@.len() implies bounds@[k].0 <= bounds@[k].1 && bounds@[k].1 <= v@.len() by {
        if k < old_bounds.len() {
            assert(bounds@[k] == old_bounds[k]);
        }
    }
    assert(v@.subrange(0, i as int) =~= v@);
    assert(split_on(v@, sep) == pieces_of(v@, bounds@));
    bounds
}

/// The first bus id equal to `t` up to ASCII case.
pub open spec fn find_bus_ci(ids: Seq<Seq<char>>, t: Seq<char>) -> Option<Seq<char>>
    decreases ids.len(),
{
    if ids.len() == 0 {
        None
    } else if eq_ignore_ascii_case(ids[0], t) {
        Some(ids[0])
    } else {
        find_bus_ci(ids.drop_first(), t)
    }
}

/// The bus ids selected by the pieces `toks`: each piece trimmed, empty ones
/// skipped; the first piece that names no bus is the error.
pub open spec fn resolve_pieces(ids: Seq<Seq<char>>, toks: Seq<Seq<char>>) -> Result<
    Seq<Seq<char>>,
    Seq<char>,
>
    decreases toks.len(),
{
    if toks.len() == 0 {
        Ok(Seq::empty())
    } else {
        match resolve_pieces(ids, toks.drop_last()) {
            Err(e) => Err(e),
            Ok(prev) => {
                let t = trim(toks.last());
                if t.len() == 0 {
                    Ok(prev)
                } else {
                    match find_bus_ci(ids, t) {
                        Some(id) => Ok(prev.push(id)),
                        None => Err(t),
                    }
                }
            },
        }
    }
}

proof fn lemma_resolve_err_extends(ids: Seq<Seq<char>>, toks: Seq<Seq<char>>, m: int)
    requires
        0 <= m <= toks.len(),
        resolve_pieces(ids, toks.subrange(0, m)) is Err,
    ensures
        resolve_pieces(ids, toks) == resolve_pieces(ids, toks.subrange(0, m)),
    decreases toks.len() - m,
{
    if m < toks.len() {
        assert(toks.subrange(0, m + 1).drop_last() =~= toks.subrange(0, m));
        lemma_resolve_err_extends(ids, toks, m + 1);
    } else {
        assert(toks.subrange(0, m) =~= toks);
    }
}

/// Why a list of buses was refused.
#[derive(Debug, Clone)]
pub enum TargetListError {
    /// A listed name (trimmed) that names no bus.
    UnknownTarget(String),
    /// The list names no bus at all.
    NoTargets,
}

impl TargetListError {
    pub fn message(&self) -> (m: String)
        ensures
            m@ == (match self {
                TargetListError::UnknownTarget(t) => "unknown_target_in_calibration:"@ + t@,
                TargetListError::NoTargets => "no_targets_selected_for_calibration"@,
            }),
    {
        match self {
            TargetListError::UnknownTarget(t) => {
                let mut m = String::from_str("unknown_target_in_calibration:");
                crate::text::append_str(&mut m, t.as_str());
                m
            },
            TargetListError::NoTargets => String::from_str("no_targets_selected_for_calibration"),
        }
    }
}

fn find_bus_ci_exec(buses: &Vec<SessionBus>, t: &Vec<char>) -> (r: Option<String>)
    ensures
        (match r {
            Some(id) => find_bus_ci(session_bus_ids(buses@), t@) == Some(id@),
            None => find_bus_ci(session_bus_ids(buses@), t@) is None,
        }),
{
    let ghost ids = session_bus_ids(buses@);
    let mut i: usize = 0;
    assert(ids.subrange(0, ids.len() as int) =~= ids);
    while i < buses.len()
        invariant
            i <= buses.len(),
            ids == session_bus_ids(buses@),
            find_bus_ci(ids, t@) == find_bus_ci(ids.subrange(i as int, ids.len() as int), t@),
        decreases buses.len() - i,
    {
        let ghost rest = ids.subrange(i as int, ids.len() as int);
        assert(rest.drop_first() =~= ids.subrange(i + 1, ids.len() as int));
        assert(rest[0] == buses@[i as int].id@);
        let idc = chars_of(buses[i].id.as_str());
        if eq_ignore_ascii_case_chars(&idc, t) {
            return Some(buses[i].id.clone());
        }
        i += 1;
    }
    None
}

/// The buses a comma-separated list names, each by its canonical id: the
/// pieces between commas are trimmed, empty ones skipped, and each must equal
/// a bus id up to ASCII case. Without a list, every bus of the session.
pub fn parse_target_list(targets: Option<&str>, sm: &SessionMap) -> (r: Result<
    Vec<String>,
    TargetListError,
>)
    ensures
        (match targets {
            None => r matches Ok(v) && strings_view(v@) == session_bus_ids(sm.buses@),
            Some(raw) => match resolve_pieces(session_bus_ids(sm.buses@), split_on(raw@, ',')) {
                Ok(ids) => if ids.len() == 0 {
                    r matches Err(TargetListError::NoTargets)
                } else {
                    r matches Ok(v) && strings_view(v@) == ids
                },
                Err(t) => r matches Err(TargetListError::UnknownTarget(u)) && u@ == t,
            },
        }),
{
    let ghost ids = session_bus_ids(sm.buses@);
    match targets {
        None => {
            let mut out: Vec<String> = Vec::new();
            let mut i: usize = 0;
            while i < sm.buses.len()
                invariant
                    i <= sm.buses.len(),
                    ids == session_bus_ids(sm.buses@),
                    strings_view(out@) == ids.subrange(0, i as int),
                decreases sm.buses.len() - i,
            {
                let ghost before = strings_view(out@);
                out.push(sm.buses[i].id.clone());
                assert(strings_view(out@) =~= before.push(sm.buses@[i as int].id@));
                assert(strings_view(out@) =~= ids.subrange(0, i as int + 1));
                i += 1;
            }
            assert(ids.subrange(0, i as int) =~= ids);
            Ok(out)
        },
        Some(raw) => {
            let v = chars_of(raw);
            let bounds = split_bounds(&v, ',');
            let ghost toks = split_on(v@, ',');
            let mut out: Vec<String> = Vec::new();
            let mut k: usize = 0;
            assert(toks.subrange(0, 0) =~= Seq::<Seq<char>>::empty());
            assert(strings_view(out@) =~= Seq::<Seq<char>>::empty());
            while k < bounds.len()
                invariant
                    k <= bounds.len(),
                    targets == Some(raw),
                    v@ == raw@,
                    ids == session_bus_ids(sm.buses@),
                    toks == split_on(v@, ','),
                    pieces_of(v@, bounds@) == toks,
                    forall|j: int|
                        #![trigger bounds@[j]]
                        0 <= j < bounds@.len() ==> bounds@[j].0 <= bounds@[j].1 && bounds@[j].1
                            <= v@.len(),
                    resolve_pieces(ids, toks.subrange(0, k as int)) == Ok::<
                        Seq<Seq<char>>,
                        Seq<char>,
                    >(strings_view(out@)),
                decreases bounds.len() - k,
            {
                let (s, e) = bounds[k];
                assert(bounds@[k as int].0 <= bounds@[k as int].1 <= v@.len());
                let (a, b) = trim_range(&v, s, e);
                proof {
                    lemma_trimmed_bounds(v@, s as int, e as int, a as int, b as int);
                    let pre = toks.subrange(0, k as int);
                    let next = toks.subrange(0, k as int + 1);
                    assert(next.drop_last() =~= pre);
                    assert(next.last() == toks[k as int]);
                    assert(toks[k as int] == v@.subrange(s as int, e as int));
                }
                if a < b {
                    let mut tok: Vec<char> = Vec::new();
                    let mut q: usize = a;
                    while q < b
                        invariant
                            a <= q <= b <= v@.len(),
                            tok@ == v@.subrange(a as int, q as int),
                        decreases b - q,
                    {
                        tok.push(v[q]);
                        q += 1;
                        assert(tok@ =~= v@.subrange(a as int, q as int));
                    }
                    match find_bus_ci_exec(&sm.buses, &tok) {
                        Some(id) => {
                            let ghost before = strings_view(out@);
                            out.push(id);
                            assert(strings_view(out@) =~= before.push(id@));
                        },
                        None => {
                            let t = string_from_range(&v, a, b);
                            proof {
                                lemma_resolve_err_extends(ids, toks, k as int + 1);
                            }
                            return Err(TargetListError::UnknownTarget(t));
                        },
                    }
                } else {
                    assert(v@.subrange(a as int, b as int).len() == 0);
                }
                k += 1;
            }
            assert(toks.subrange(0, k as int) =~= toks);
            if out.len() == 0 {
                Err(TargetListError::NoTargets)
            } else {
                Ok(out)
            }
        },
    }
}

} // verus!
