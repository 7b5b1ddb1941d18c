//! Which input channels feed which bus, and which buses are listened to as
//! virtual section groups (all strings, all woodwinds, ...), before the audio
//! monitor analyses them.
use vstd::prelude::*;
use vstd::string::*;

use crate::intent::strings_view;

verus! {

/// A bus and the 1-based interface channels it is read from.
#[derive(Debug, Clone)]
pub struct AudioBusMap {
    pub id: String,
    pub channels: Vec<usize>,
}

/// A group of buses heard together.
#[derive(Debug, Clone)]
pub struct AudioVirtualGroupMap {
    pub id: String,
    pub members: Vec<String>,
}

/// What the audio monitor is asked to do.
#[derive(Debug, Clone)]
pub struct AudioMonitorRequest {
    pub device_hint: Option<String>,
    pub duration_sec: u64,
    pub sample_rate_hz: Option<u32>,
    pub window_ms: u64,
    pub hop_ms: u64,
    pub calibrate_sec: u64,
    pub buses: Vec<AudioBusMap>,
    pub virtual_groups: Vec<AudioVirtualGroupMap>,
    pub include_default_virtual_groups: bool,
    pub print_every_ms: u64,
    /// Where per-window metrics are written, one JSON object per line.
    pub jsonl_out: Option<String>,
}

pub ghost struct BusView {
    pub id: Seq<char>,
    pub channels: Seq<usize>,
}

pub ghost struct GroupView {
    pub id: Seq<char>,
    pub members: Seq<Seq<char>>,
}

impl View for AudioBusMap {
    type V = BusView;

    open spec fn view(&self) -> BusView {
        BusView { id: self.id@, channels: self.channels@ }
    }
}

impl View for AudioVirtualGroupMap {
    type V = GroupView;

    open spec fn view(&self) -> GroupView {
        GroupView { id: self.id@, members: strings_view(self.members@) }
    }
}

pub open spec fn buses_view(v: Seq<AudioBusMap>) -> Seq<BusView> {
    v.map_values(|b: AudioBusMap| b@)
}

pub open spec fn groups_view(v: Seq<AudioVirtualGroupMap>) -> Seq<GroupView> {
    v.map_values(|g: AudioVirtualGroupMap| g@)
}

/// Why the monitor has nothing to listen to.
#[derive(Debug, Clone, Copy, PartialEq, Eq, Structural)]
pub enum AudioError {
    NoValidBuses,
}

/// `s` is in strictly increasing order.
pub open spec fn strictly_increasing(s: Seq<usize>) -> bool {
    forall|i: int, j: int| 0 <= i < j < s.len() ==> s[i] < s[j]
}

pub open spec fn channel_available(c: usize, available: usize) -> bool {
    0 < c <= available
}

/// The channels of a bus that exist on the interface, sorted, each once.
pub open spec fn clean_channels_ok(chs: Seq<usize>, available: usize, out: Seq<usize>) -> bool {
    &&& strictly_increasing(out)
    &&& forall|c: usize| out.contains(c) <==> (chs.contains(c) && channel_available(c, available))
}

/// The buses once their channels are cleaned, dropping buses left without
/// any channel; bus order is kept.
pub open spec fn clean_buses_ok(old: Seq<BusView>, available: usize, new: Seq<BusView>) -> bool
    decreases old.len(),
{
    if old.len() == 0 {
        new.len() == 0
    } else {
        let b = old.last();
        if exists|c: usize| b.channels.contains(c) && channel_available(c, available) {
            new.len() > 0 && new.last().id == b.id && clean_channels_ok(
                b.channels,
                available,
                new.last().channels,
            ) && clean_buses_ok(old.drop_last(), available, new.drop_last())
        } else {
            clean_buses_ok(old.drop_last(), available, new)
        }
    }
}

fn insert_sorted_unique(out: &mut Vec<usize>, c: usize)
    requires
        strictly_increasing(old(out)@),
    ensures
        strictly_increasing(final(out)@),
        forall|x: usize| final(out)@.contains(x) <==> (old(out)@.contains(x) || x == c),
{
    let mut k: usize = 0;
    while k < out.len() && out[k] < c
        invariant
            k <= out.len(),
            out@ == old(out)@,
            strictly_increasing(out@),
            forall|j: int| 0 <= j < k ==> out@[j] < c,
        decreases out.len() - k,
    {
        k += 1;
    }
    if k < out.len() && out[k] == c {
        assert(out@.contains(c));
        return ;
    }
    let ghost before = out@;
    assert(before == old(out)@);
    out.insert(k, c);
    assert(out@ == before.insert(k as int, c));
    assert forall|i: int, j: int| 0 <= i < j < out@.len() implies out@[i] < out@[j] by {
        if j < k {
            assert(out@[i] == before[i] && out@[j] == before[j]);
        } else if j == k {
            assert(out@[i] == before[i]);
        } else if i < k {
            assert(out@[i] == before[i] && out@[j] == before[j - 1]);
            assert(before[k as int] > c);
            if j - 1 > k {
                assert(before[k as int] < before[j - 1]);
            }
        } else if i == k {
            assert(out@[j] == before[j - 1]);
            assert(before[k as int] > c);
            if j - 1 > k {
                assert(before[k as int] < before[j - 1]);
            }
        } else {
            assert(out@[i] == before[i - 1] && out@[j] == before[j - 1]);
        }
    }
    assert forall|x: usize| out@.contains(x) <==> (before.contains(x) || x == c) by {
        if out@.contains(x) {
            let i = choose|i: int| 0 <= i < out@.len() && out@[i] == x;
            if i < k {
                assert(before[i] == x);
            } else if i > k {
                assert(before[i - 1] == x);
            }
        }
        if before.contains(x) {
            let i = choose|i: int| 0 <= i < before.len() && before[i] == x;
            if i < k {
                assert(out@[i] == x);
            } else {
                assert(out@[i + 1] == x);
            }
        }
        if x == c {
            assert(out@[k as int] == c);
        }
    }
    assert(forall|x: usize| out@.contains(x) <==> (old(out)@.contains(x) || x == c));
}

fn clean_channels(chs: &Vec<usize>, available: usize) -> (out: Vec<usize>)
    ensures
        clean_channels_ok(chs@, available, out@),
{
    let mut out: Vec<usize> = Vec::new();
    let mut i: usize = 0;
    while i < chs.len()
        invariant
            i <= chs.len(),
            strictly_increasing(out@),
            forall|c: usize|
                #![trigger out@.contains(c)]
                #![trigger chs@.subrange(0, i as int).contains(c)]
                out@.contains(c) <==> (chs@.subrange(0, i as int).contains(c) && channel_available(
                    c,
                    available,
                )),
        decreases chs.len() - i,
    {
        let c = chs[i];
        let ghost prev = chs@.subrange(0, i as int);
        let ghost next = chs@.subrange(0, i as int + 1);
        assert(next =~= prev.push(c));
        assert forall|x: usize| next.contains(x) <==> (prev.contains(x) || x == c) by {
            if next.contains(x) {
                let j = choose|j: int| 0 <= j < next.len() && next[j] == x;
                if j < i {
                    assert(prev[j] == x);
                }
            }
            if prev.contains(x) {
                let j = choose|j: int| 0 <= j < prev.len() && prev[j] == x;
                assert(next[j] == x);
            }
            if x == c {
                assert(next[i as int] == c);
            }
        }
        let ghost out_before = out@;
        assert(forall|x: usize|
            out_before.contains(x) <==> (prev.contains(x) && channel_available(x, available)));
        if c > 0 && c <= available {
            insert_sorted_unique(&mut out, c);
        }
        assert forall|x: usize| out@.contains(x) <==> (next.contains(x) && channel_available(x, available)) by {
            if out@.contains(x) {
                if x != c || !channel_available(c, available) {
                    assert(out_before.contains(x));
                }
            }
            if next.contains(x) && channel_available(x, available) {
                if x != c {
                    assert(prev.contains(x));
                    assert(out_before.contains(x));
                }
            }
        }
        i += 1;
    }
    assert(chs@.subrange(0, i as int) =~= chs@);
    out
}

/// Keeps, for each bus, only the channels the interface has (sorted and
/// without repeats), drops buses left with no channel, and fails when no bus
/// is left.
pub fn sanitize_bus_channels(buses: &mut Vec<AudioBusMap>, available_channels: usize) -> (r: Result<
    (),
    AudioError,
>)
    ensures
        clean_buses_ok(buses_view(old(buses)@), available_channels, buses_view(final(buses)@)),
        r is Ok <==> final(buses)@.len() > 0,
{
    let mut kept: Vec<AudioBusMap> = Vec::new();
    let mut i: usize = 0;
    while i < buses.len()
        invariant
            i <= buses.len(),
            clean_buses_ok(
                buses_view(buses@).subrange(0, i as int),
                available_channels,
                buses_view(kept@),
            ),
        decreases buses.len() - i,
    {
        let ghost prefix = buses_view(buses@).subrange(0, i as int + 1);
        assert(prefix.drop_last() =~= buses_view(buses@).subrange(0, i as int));
        let ghost b = prefix.last();
        assert(b == buses@[i as int]@);
        let cleaned = clean_channels(&buses[i].channels, available_channels);
        if cleaned.len() > 0 {
            let ghost kept_before = buses_view(kept@);
            proof {
                let c0 = cleaned@[0];
                assert(cleaned@.contains(c0));
            }
            kept.push(AudioBusMap { id: buses[i].id.clone(), channels: cleaned });
            assert(buses_view(kept@).drop_last() =~= kept_before);
        } else {
            proof {
                if exists|c: usize| b.channels.contains(c) && channel_available(c, available_channels) {
                    let c = choose|c: usize| b.channels.contains(c) && channel_available(c, available_channels);
                    assert(cleaned@.contains(c));
                }
            }
        }
        i += 1;
    }
    assert(buses_view(buses@).subrange(0, i as int) =~= buses_view(buses@));
    *buses = kept;
    if buses.len() == 0 {
        return Err(AudioError::NoValidBuses);
    }
    Ok(())
}

/// The ids of `family` that name a bus, in family order.
pub open spec fn present_members(family: Seq<Seq<char>>, ids: Seq<Seq<char>>) -> Seq<Seq<char>>
    decreases family.len(),
{
    if family.len() == 0 {
        Seq::empty()
    } else {
        let prev = present_members(family.drop_last(), ids);
        if ids.contains(family.last()) {
            prev.push(family.last())
        } else {
            prev
        }
    }
}

pub open spec fn bus_ids(buses: Seq<BusView>) -> Seq<Seq<char>> {
    buses.map_values(|b: BusView| b.id)
}

/// The family groups heard by default, with their member ids.
pub open spec fn family_table() -> Seq<(Seq<char>, Seq<Seq<char>>)> {
    seq![
        ("STR_ALL"@, seq!["STR_HI"@, "STR_MID"@, "STR_LO"@]),
        ("WW_ALL"@, seq!["WW_HI"@, "WW_MID"@, "WW_LO"@]),
        ("BRASS_ALL"@, seq!["HN"@, "TPT"@, "BR_LO"@]),
        ("RHYTHM_ALL"@, seq!["TIMP"@, "PERC"@, "HARP"@]),
    ]
}

/// The default groups: each family with at least two buses present, then
/// the whole orchestra when there are at least two buses.
pub open spec fn spec_default_groups(buses: Seq<BusView>) -> Seq<GroupView> {
    let ids = bus_ids(buses);
    let fams = family_table();
    let g = Seq::new(
        4,
        |k: int| GroupView { id: fams[k].0, members: present_members(fams[k].1, ids) },
    ).filter(|g: GroupView| g.members.len() >= 2);
    if ids.len() >= 2 {
        g.push(GroupView { id: "ORCH_ALL"@, members: ids })
    } else {
        g
    }
}

fn contains_id(buses: &Vec<AudioBusMap>, id: &str) -> (found: bool)
    ensures
        found == bus_ids(buses_view(buses@)).contains(id@),
{
    let target = String::from_str(id);
    let mut i: usize = 0;
    while i < buses.len()
        invariant
            i <= buses.len(),
            target@ == id@,
            forall|j: int| 0 <= j < i ==> buses@[j].id@ != id@,
        decreases buses.len() - i,
    {
        if buses[i].id == target {
            assert(bus_ids(buses_view(buses@))[i as int] == id@);
            return true;
        }
        i += 1;
    }
    proof {
        let ids = bus_ids(buses_view(buses@));
        if ids.contains(id@) {
            let j = choose|j: int| 0 <= j < ids.len() && ids[j] == id@;
            assert(buses@[j].id@ == ids[j]);
        }
    }
    false
}

fn family_group(buses: &Vec<AudioBusMap>, id: &str, a: &str, b: &str, c: &str) -> (g:
    AudioVirtualGroupMap)
    ensures
        g@.id == id@,
        g@.members == present_members(seq![a@, b@, c@], bus_ids(buses_view(buses@))),
{
    let ghost ids = bus_ids(buses_view(buses@));
    let ghost fam = seq![a@, b@, c@];
    let mut members: Vec<String> = Vec::new();
    if contains_id(buses, a) {
        members.push(String::from_str(a));
    }
    assert(present_members(Seq::<Seq<char>>::empty(), ids) =~= Seq::<Seq<char>>::empty());
    assert(fam.subrange(0, 1).drop_last() =~= Seq::<Seq<char>>::empty());
    assert(fam.subrange(0, 1).last() == a@);
    assert(fam.subrange(0, 2).last() == b@);
    assert(fam.subrange(0, 3).last() == c@);
    assert(strings_view(members@) =~= present_members(fam.subrange(0, 1), ids));
    if contains_id(buses, b) {
        members.push(String::from_str(b));
    }
    assert(fam.subrange(0, 2).drop_last() =~= fam.subrange(0, 1));
    assert(strings_view(members@) =~= present_members(fam.subrange(0, 2), ids));
    if contains_id(buses, c) {
        members.push(String::from_str(c));
    }
    assert(fam.subrange(0, 3).drop_last() =~= fam.subrange(0, 2));
    assert(fam.subrange(0, 3) =~= fam);
    assert(strings_view(members@) =~= present_members(fam, ids));
    AudioVirtualGroupMap { id: String::from_str(id), members }
}

/// The section groups the monitor listens to when the request asks for the
/// default ones.
pub fn default_virtual_groups(buses: &Vec<AudioBusMap>) -> (out: Vec<AudioVirtualGroupMap>)
    ensures
        groups_view(out@) == spec_default_groups(buses_view(buses@)),
{
    let ghost ids = bus_ids(buses_view(buses@));
    let ghost fams = family_table();
    let ghost all = Seq::new(
        4,
        |k: int| GroupView { id: fams[k].0, members: present_members(fams[k].1, ids) },
    );
    let ghost pred = |g: GroupView| g.members.len() >= 2;
    let mut out: Vec<AudioVirtualGroupMap> = Vec::new();
    proof {
        reveal_strlit("STR_ALL");
        reveal_strlit("WW_ALL");
        reveal_strlit("BRASS_ALL");
        reveal_strlit("RHYTHM_ALL");
        assert(all.subrange(0, 0).filter(pred) =~= Seq::<GroupView>::empty());
    }
    let g0 = family_group(buses, "STR_ALL", "STR_HI", "STR_MID", "STR_LO");
    assert(g0@ == all[0]);
    if g0.members.len() >= 2 {
        out.push(g0);
    }
    proof {
        reveal(Seq::filter);
        assert(all.subrange(0, 1).drop_last() =~= all.subrange(0, 0));
        assert(groups_view(out@) =~= all.subrange(0, 1).filter(pred));
    }
    let g1 = family_group(buses, "WW_ALL", "WW_HI", "WW_MID", "WW_LO");
    assert(g1@ == all[1]);
    if g1.members.len() >= 2 {
        out.push(g1);
    }
    proof {
        reveal(Seq::filter);
        assert(all.subrange(0, 2).drop_last() =~= all.subrange(0, 1));
        assert(groups_view(out@) =~= all.subrange(0, 2).filter(pred));
    }
    let g2 = family_group(buses, "BRASS_ALL", "HN", "TPT", "BR_LO");
    assert(g2@ == all[2]);
    if g2.members.len() >= 2 {
        out.push(g2);
    }
    proof {
        reveal(Seq::filter);
        assert(all.subrange(0, 3).drop_last() =~= all.subrange(0, 2));
        assert(groups_view(out@) =~= all.subrange(0, 3).filter(pred));
    }
    let g3 = family_group(buses, "RHYTHM_ALL", "TIMP", "PERC", "HARP");
    assert(g3@ == all[3]);
    if g3.members.len() >= 2 {
        out.push(g3);
    }
    proof {
        reveal(Seq::filter);
        assert(all.subrange(0, 4).drop_last() =~= all.subrange(0, 3));
        assert(all.subrange(0, 4) =~= all);
        assert(groups_view(out@) =~= all.filter(pred));
    }
    let mut orch: Vec<String> = Vec::new();
    let mut i: usize = 0;
    while i < buses.len()
        invariant
            i <= buses.len(),
            strings_view(orch@) == bus_ids(buses_view(buses@)).subrange(0, i as int),
        decreases buses.len() - i,
    {
        let ghost prev = strings_view(orch@);
        orch.push(buses[i].id.clone());
        assert(strings_view(orch@) =~= prev.push(buses@[i as int].id@));
        assert(bus_ids(buses_view(buses@))[i as int] == buses@[i as int].id@);
        assert(strings_view(orch@) =~= bus_ids(buses_view(buses@)).subrange(0, i as int + 1));
        i += 1;
    }
    assert(bus_ids(buses_view(buses@)).subrange(0, i as int) =~= ids);
    if orch.len() >= 2 {
        let ghost before = groups_view(out@);
        out.push(AudioVirtualGroupMap { id: String::from_str("ORCH_ALL"), members: orch });
        assert(groups_view(out@) =~= before.push(GroupView { id: "ORCH_ALL"@, members: ids }));
    }
    out
}

pub open spec fn group_ids(groups: Seq<GroupView>) -> Seq<Seq<char>> {
    groups.map_values(|g: GroupView| g.id)
}

/// `dst` extended with the groups of `src` whose id is not taken yet.
pub open spec fn merged_groups(dst: Seq<GroupView>, src: Seq<GroupView>) -> Seq<GroupView>
    decreases src.len(),
{
    if src.len() == 0 {
        dst
    } else {
        let prev = merged_groups(dst, src.drop_last());
        if group_ids(prev).contains(src.last().id) {
            prev
        } else {
            prev.push(src.last())
        }
    }
}

fn has_group_id(groups: &Vec<AudioVirtualGroupMap>, id: &String) -> (found: bool)
    ensures
        found == group_ids(groups_view(groups@)).contains(id@),
{
    let mut i: usize = 0;
    while i < groups.len()
        invariant
            i <= groups.len(),
            forall|j: int| 0 <= j < i ==> groups@[j].id@ != id@,
        decreases groups.len() - i,
    {
        if groups[i].id == *id {
            assert(group_ids(groups_view(groups@))[i as int] == id@);
            return true;
        }
        i += 1;
    }
    proof {
        let ids = group_ids(groups_view(groups@));
        if ids.contains(id@) {
            let j = choose|j: int| 0 <= j < ids.len() && ids[j] == id@;
            assert(groups@[j].id@ == ids[j]);
        }
    }
    false
}

/// Adds the groups of `src` to `dst`, skipping any whose id `dst` already has.
pub fn merge_virtual_groups(dst: &mut Vec<AudioVirtualGroupMap>, src: Vec<AudioVirtualGroupMap>)
    ensures
        groups_view(final(dst)@) == merged_groups(groups_view(old(dst)@), groups_view(src@)),
{
    let ghost d0 = groups_view(dst@);
    let ghost sv = groups_view(src@);
    let mut i: usize = 0;
    while i < src.len()
        invariant
            i <= src.len(),
            sv == groups_view(src@),
            groups_view(dst@) == merged_groups(d0, sv.subrange(0, i as int)),
        decreases src.len() - i,
    {
        assert(sv.subrange(0, i as int + 1).drop_last() =~= sv.subrange(0, i as int));
        if !has_group_id(dst, &src[i].id) {
            let ghost before = groups_view(dst@);
            dst.push(src[i].clone_group());
            assert(groups_view(dst@) =~= before.push(sv[i as int]));
        }
        i += 1;
    }
    assert(sv.subrange(0, i as int) =~= sv);
}

impl AudioVirtualGroupMap {
    /// A copy of the group.
    pub fn clone_group(&self) -> (g: AudioVirtualGroupMap)
        ensures
            g@ == self@,
    {
        let mut members: Vec<String> = Vec::new();
        let mut i: usize = 0;
        while i < self.members.len()
            invariant
                i <= self.members.len(),
                strings_view(members@) == strings_view(self.members@).subrange(0, i as int),
            decreases self.members.len() - i,
        {
            let ghost prev = strings_view(members@);
            members.push(self.members[i].clone());
            assert(strings_view(members@) =~= prev.push(self.members@[i as int]@));
            assert(strings_view(self.members@)[i as int] == self.members@[i as int]@);
            assert(strings_view(members@) =~= strings_view(self.members@).subrange(0, i as int + 1));
            i += 1;
        }
        assert(strings_view(self.members@).subrange(0, i as int) =~= strings_view(self.members@));
        AudioVirtualGroupMap { id: self.id.clone(), members }
    }
}

/// Lexicographic order of character sequences by code point (the order of
/// `String`s).
pub open spec fn seq_lt(a: Seq<char>, b: Seq<char>) -> bool
    decreases a.len(),
{
    if a.len() == 0 {
        b.len() > 0
    } else if b.len() == 0 {
        false
    } else if a[0] != b[0] {
        a[0] < b[0]
    } else {
        seq_lt(a.drop_first(), b.drop_first())
    }
}

proof fn lemma_seq_lt_total(a: Seq<char>, b: Seq<char>)
    ensures
        a != b ==> seq_lt(a, b) || seq_lt(b, a),
        !(seq_lt(a, b) && seq_lt(b, a)),
        !seq_lt(a, a),
    decreases a.len(),
{
    if a.len() > 0 {
        lemma_seq_lt_total(a.drop_first(), a.drop_first());
    }
    if a.len() > 0 && b.len() > 0 {
        lemma_seq_lt_total(a.drop_first(), b.drop_first());
        if a[0] == b[0] && a != b {
            assert(a.drop_first() != b.drop_first()) by {
                if a.drop_first() == b.drop_first() {
                    assert(a =~= seq![a[0]] + a.drop_first());
                    assert(b =~= seq![b[0]] + b.drop_first());
                }
            }
        }
        lemma_seq_lt_total(a.drop_first(), a.drop_first());
    } else if a.len() == 0 && b.len() == 0 {
        assert(a =~= b);
    }
}

fn string_lt(a: &String, b: &String) -> (r: bool)
    ensures
        r == seq_lt(a@, b@),
{
    let av = crate::text::chars_of(a.as_str());
    let bv = crate::text::chars_of(b.as_str());
    let mut i: usize = 0;
    assert(av@.subrange(0, av.len() as int) =~= av@);
    assert(bv@.subrange(0, bv.len() as int) =~= bv@);
    while i < av.len() && i < bv.len() && av[i] == bv[i]
        invariant
            i <= av.len(),
            i <= bv.len(),
            av@.subrange(0, i as int) == bv@.subrange(0, i as int),
            seq_lt(av@, bv@) == seq_lt(av@.subrange(i as int, av.len() as int), bv@.subrange(
                i as int,
                bv.len() as int,
            )),
        decreases av.len() - i,
    {
        let ghost sa = av@.subrange(i as int, av.len() as int);
        let ghost sb = bv@.subrange(i as int, bv.len() as int);
        assert(sa.drop_first() =~= av@.subrange(i + 1, av.len() as int));
        assert(sb.drop_first() =~= bv@.subrange(i + 1, bv.len() as int));
        assert(av@.subrange(0, i + 1) =~= av@.subrange(0, i as int).push(av@[i as int]));
        assert(bv@.subrange(0, i + 1) =~= bv@.subrange(0, i as int).push(bv@[i as int]));
        i += 1;
    }
    let ghost sa = av@.subrange(i as int, av.len() as int);
    let ghost sb = bv@.subrange(i as int, bv.len() as int);
    if i == av.len() {
        i < bv.len()
    } else if i == bv.len() {
        false
    } else {
        assert(sa[0] == av@[i as int] && sb[0] == bv@[i as int]);
        av[i] < bv[i]
    }
}

/// `s` is sorted (each element before the next) and holds no repeats.
pub open spec fn sorted_unique_strings(s: Seq<Seq<char>>) -> bool {
    &&& forall|i: int| 0 <= i < s.len() - 1 ==> seq_lt(#[trigger] s[i], s[i + 1])
    &&& s.no_duplicates()
}

fn insert_sorted_string(out: &mut Vec<String>, x: String)
    requires
        sorted_unique_strings(strings_view(old(out)@)),
    ensures
        sorted_unique_strings(strings_view(final(out)@)),
        forall|y: Seq<char>|
            strings_view(final(out)@).contains(y) <==> (strings_view(old(out)@).contains(y) || y
                == x@),
{
    let ghost before = strings_view(out@);
    let mut j: usize = 0;
    while j < out.len()
        invariant
            j <= out.len(),
            out@ == old(out)@,
            before == strings_view(out@),
            sorted_unique_strings(before),
            forall|k: int| 0 <= k < j ==> before[k] != x@,
        decreases out.len() - j,
    {
        if out[j] == x {
            assert(before[j as int] == x@);
            assert(before.contains(x@));
            return ;
        }
        j += 1;
    }
    let mut k: usize = 0;
    while k < out.len() && !string_lt(&x, &out[k])
        invariant
            k <= out.len(),
            out@ == old(out)@,
            before == strings_view(out@),
            forall|m: int| 0 <= m < k ==> !seq_lt(x@, #[trigger] before[m]),
        decreases out.len() - k,
    {
        k += 1;
    }
    let ghost xv = x@;
    out.insert(k, x);
    let ghost after = strings_view(out@);
    assert(after =~= before.insert(k as int, xv));
    proof {
        assert forall|i: int| 0 <= i < after.len() - 1 implies seq_lt(#[trigger] after[i], after[i + 1]) by {
            if i + 1 < k {
                assert(after[i] == before[i] && after[i + 1] == before[i + 1]);
            } else if i + 1 == k {
                assert(after[i] == before[i] && after[i + 1] == xv);
                lemma_seq_lt_total(before[i], xv);
            } else if i == k {
                assert(after[i] == xv && after[i + 1] == before[i]);
            } else {
                assert(after[i] == before[i - 1] && after[i + 1] == before[i]);
            }
        }
        assert forall|a: int, b: int| 0 <= a < after.len() && 0 <= b < after.len() && a != b implies after[a] != after[b] by {
            if a != k && b != k {
                let a0 = if a < k { a } else { a - 1 };
                let b0 = if b < k { b } else { b - 1 };
                assert(after[a] == before[a0] && after[b] == before[b0]);
            } else if a == k {
                let b0 = if b < k { b } else { b - 1 };
                assert(after[b] == before[b0]);
            } else {
                let a0 = if a < k { a } else { a - 1 };
                assert(after[a] == before[a0]);
            }
        }
        assert forall|y: Seq<char>| after.contains(y) <==> (before.contains(y) || y == xv) by {
            if after.contains(y) {
                let i = choose|i: int| 0 <= i < after.len() && after[i] == y;
                if i < k {
                    assert(before[i] == y);
                } else if i > k {
                    assert(before[i - 1] == y);
                }
            }
            if before.contains(y) {
                let i = choose|i: int| 0 <= i < before.len() && before[i] == y;
                if i < k {
                    assert(after[i] == y);
                } else {
                    assert(after[i + 1] == y);
                }
            }
            if y == xv {
                assert(after[k as int] == xv);
            }
        }
    }
}

/// A group's members once cleaned: the member ids that name a bus, sorted,
/// each once.
pub open spec fn clean_members_ok(members: Seq<Seq<char>>, ids: Seq<Seq<char>>, out: Seq<Seq<char>>) -> bool {
    &&& sorted_unique_strings(out)
    &&& forall|y: Seq<char>| out.contains(y) <==> (members.contains(y) && ids.contains(y))
}

/// The groups once their members are cleaned, dropping groups left empty;
/// group order is kept.
pub open spec fn clean_groups_ok(old: Seq<GroupView>, ids: Seq<Seq<char>>, new: Seq<GroupView>) -> bool
    decreases old.len(),
{
    if old.len() == 0 {
        new.len() == 0
    } else {
        let g = old.last();
        if exists|y: Seq<char>| g.members.contains(y) && ids.contains(y) {
            new.len() > 0 && new.last().id == g.id && clean_members_ok(
                g.members,
                ids,
                new.last().members,
            ) && clean_groups_ok(old.drop_last(), ids, new.drop_last())
        } else {
            clean_groups_ok(old.drop_last(), ids, new)
        }
    }
}

fn clean_members(members: &Vec<String>, buses: &Vec<AudioBusMap>) -> (out: Vec<String>)
    ensures
        clean_members_ok(strings_view(members@), bus_ids(buses_view(buses@)), strings_view(out@)),
{
    let ghost ids = bus_ids(buses_view(buses@));
    let ghost mv = strings_view(members@);
    let mut out: Vec<String> = Vec::new();
    let mut i: usize = 0;
    while i < members.len()
        invariant
            i <= members.len(),
            ids == bus_ids(buses_view(buses@)),
            mv == strings_view(members@),
            sorted_unique_strings(strings_view(out@)),
            forall|y: Seq<char>|
                #![trigger strings_view(out@).contains(y)]
                #![trigger mv.subrange(0, i as int).contains(y)]
                strings_view(out@).contains(y) <==> (mv.subrange(0, i as int).contains(y)
                    && ids.contains(y)),
        decreases members.len() - i,
    {
        let ghost prev = mv.subrange(0, i as int);
        let ghost next = mv.subrange(0, i as int + 1);
        let ghost x = mv[i as int];
        assert forall|y: Seq<char>| next.contains(y) <==> (prev.contains(y) || y == x) by {
            if next.contains(y) {
                let j = choose|j: int| 0 <= j < next.len() && next[j] == y;
                if j < i {
                    assert(prev[j] == y);
                }
            }
            if prev.contains(y) {
                let j = choose|j: int| 0 <= j < prev.len() && prev[j] == y;
                assert(next[j] == y);
            }
            if y == x {
                assert(next[i as int] == x);
            }
        }
        let ghost out_before = strings_view(out@);
        assert(forall|y: Seq<char>|
            out_before.contains(y) <==> (prev.contains(y) && ids.contains(y)));
        assert(mv[i as int] == members@[i as int]@);
        if contains_id(buses, members[i].as_str()) {
            insert_sorted_string(&mut out, members[i].clone());
        }
        assert forall|y: Seq<char>| strings_view(out@).contains(y) <==> (next.contains(y) && ids.contains(y)) by {
            if strings_view(out@).contains(y) {
                if y != x || !ids.contains(x) {
                    assert(out_before.contains(y));
                }
            }
            if next.contains(y) && ids.contains(y) {
                if y != x {
                    assert(prev.contains(y));
                    assert(out_before.contains(y));
                }
            }
        }
        i += 1;
    }
    assert(mv.subrange(0, i as int) =~= mv);
    out
}

/// Keeps in each group only the members that name a bus (sorted, each once)
/// and drops groups left without members.
pub fn sanitize_virtual_groups(groups: &mut Vec<AudioVirtualGroupMap>, buses: &Vec<AudioBusMap>)
    ensures
        clean_groups_ok(
            groups_view(old(groups)@),
            bus_ids(buses_view(buses@)),
            groups_view(final(groups)@),
        ),
{
    let ghost ids = bus_ids(buses_view(buses@));
    let mut kept: Vec<AudioVirtualGroupMap> = Vec::new();
    let mut i: usize = 0;
    while i < groups.len()
        invariant
            i <= groups.len(),
            ids == bus_ids(buses_view(buses@)),
            clean_groups_ok(groups_view(groups@).subrange(0, i as int), ids, groups_view(kept@)),
        decreases groups.len() - i,
    {
        let ghost prefix = groups_view(groups@).subrange(0, i as int + 1);
        assert(prefix.drop_last() =~= groups_view(groups@).subrange(0, i as int));
        let ghost g = prefix.last();
        assert(g == groups@[i as int]@);
        let cleaned = clean_members(&groups[i].members, buses);
        if cleaned.len() > 0 {
            let ghost kept_before = groups_view(kept@);
            proof {
                let y0 = strings_view(cleaned@)[0];
                assert(strings_view(cleaned@).contains(y0));
            }
            kept.push(AudioVirtualGroupMap { id: groups[i].id.clone(), members: cleaned });
            assert(groups_view(kept@).drop_last() =~= kept_before);
        } else {
            proof {
                if exists|y: Seq<char>| g.members.contains(y) && ids.contains(y) {
                    let y = choose|y: Seq<char>| g.members.contains(y) && ids.contains(y);
                    assert(strings_view(cleaned@).contains(y));
                }
            }
        }
        i += 1;
    }
    assert(groups_view(groups@).subrange(0, i as int) =~= groups_view(groups@));
    *groups = kept;
}


/// Why an audio monitor request was refused.
#[derive(Debug, Clone, Copy, PartialEq, Eq, Structural)]
pub enum MonitorRequestError {
    ZeroDuration,
    ZeroWindowOrHop,
    HopLongerThanWindow,
}

impl MonitorRequestError {
    pub fn code(&self) -> (m: &'static str)
        ensures
            m@ == (match self {
                MonitorRequestError::ZeroDuration => "duration_sec_must_be_positive"@,
                MonitorRequestError::ZeroWindowOrHop => "window_ms_and_hop_ms_must_be_positive"@,
                MonitorRequestError::HopLongerThanWindow => "hop_ms_must_be_lte_window_ms"@,
            }),
    {
        match self {
            MonitorRequestError::ZeroDuration => "duration_sec_must_be_positive",
            MonitorRequestError::ZeroWindowOrHop => "window_ms_and_hop_ms_must_be_positive",
            MonitorRequestError::HopLongerThanWindow => "hop_ms_must_be_lte_window_ms",
        }
    }
}

/// Checks the timing of a monitor request: a positive duration, a positive
/// window and hop, and a hop no longer than the window.
pub fn validate_monitor_request(req: &AudioMonitorRequest) -> (r: Result<(), MonitorRequestError>)
    ensures
        r == (if req.duration_sec == 0 {
            Err(MonitorRequestError::ZeroDuration)
        } else if req.window_ms == 0 || req.hop_ms == 0 {
            Err(MonitorRequestError::ZeroWindowOrHop)
        } else if req.hop_ms > req.window_ms {
            Err(MonitorRequestError::HopLongerThanWindow)
        } else {
            Ok::<(), MonitorRequestError>(())
        }),
{
    if req.duration_sec == 0 {
        return Err(MonitorRequestError::ZeroDuration);
    }
    if req.window_ms == 0 || req.hop_ms == 0 {
        return Err(MonitorRequestError::ZeroWindowOrHop);
    }
    if req.hop_ms > req.window_ms {
        return Err(MonitorRequestError::HopLongerThanWindow);
    }
    Ok(())
}

/// The buses a monitor listens to when the request names none: one master
/// bus on every channel of the device.
pub open spec fn master_bus(channels: usize) -> BusView {
    BusView { id: "MASTER"@, channels: Seq::new(channels as nat, |i: int| (i + 1) as usize) }
}

/// What a monitor listens to: the requested buses (or the master bus),
/// cleaned against the device's channels; the requested groups, with the
/// default groups of the cleaned buses added where asked, cleaned against
/// those buses.
pub open spec fn monitor_setup_ok(
    req_buses: Seq<BusView>,
    req_groups: Seq<GroupView>,
    include_defaults: bool,
    channels: usize,
    buses: Seq<BusView>,
    groups: Seq<GroupView>,
) -> bool {
    let wanted = if req_buses.len() == 0 {
        seq![master_bus(channels)]
    } else {
        req_buses
    };
    let candidates = if include_defaults {
        merged_groups(req_groups, spec_default_groups(buses))
    } else {
        req_groups
    };
    clean_buses_ok(wanted, channels, buses) && buses.len() > 0 && clean_groups_ok(
        candidates,
        bus_ids(buses),
        groups,
    )
}

fn clone_buses(v: &Vec<AudioBusMap>) -> (out: Vec<AudioBusMap>)
    ensures
        buses_view(out@) == buses_view(v@),
{
    let mut out: Vec<AudioBusMap> = Vec::new();
    let mut i: usize = 0;
    while i < v.len()
        invariant
            i <= v.len(),
            buses_view(out@) == buses_view(v@).subrange(0, i as int),
        decreases v.len() - i,
    {
        let ghost before = buses_view(out@);
        out.push(AudioBusMap { id: v[i].id.clone(), channels: v[i].channels.clone() });
        assert(buses_view(out@) =~= before.push(v@[i as int]@));
        assert(buses_view(out@) =~= buses_view(v@).subrange(0, i as int + 1));
        i += 1;
    }
    assert(buses_view(v@).subrange(0, i as int) =~= buses_view(v@));
    out
}

fn clone_groups(v: &Vec<AudioVirtualGroupMap>) -> (out: Vec<AudioVirtualGroupMap>)
    ensures
        groups_view(out@) == groups_view(v@),
{
    let mut out: Vec<AudioVirtualGroupMap> = Vec::new();
    let mut i: usize = 0;
    while i < v.len()
        invariant
            i <= v.len(),
            groups_view(out@) == groups_view(v@).subrange(0, i as int),
        decreases v.len() - i,
    {
        let ghost before = groups_view(out@);
        out.push(v[i].clone_group());
        assert(groups_view(out@) =~= before.push(v@[i as int]@));
        assert(groups_view(out@) =~= groups_view(v@).subrange(0, i as int + 1));
        i += 1;
    }
    assert(groups_view(v@).subrange(0, i as int) =~= groups_view(v@));
    out
}

/// Works out which buses and groups a monitor listens to on a device with
/// `channels` input channels; fails when no bus keeps a channel.
pub fn prepare_monitor(req: &AudioMonitorRequest, channels: usize) -> (r: Result<
    (Vec<AudioBusMap>, Vec<AudioVirtualGroupMap>),
    AudioError,
>)
    ensures
        (match r {
            Ok((b, g)) => monitor_setup_ok(
                buses_view(req.buses@),
                groups_view(req.virtual_groups@),
                req.include_default_virtual_groups,
                channels,
                buses_view(b@),
                groups_view(g@),
            ),
            Err(_) => clean_buses_ok(
                if req.buses@.len() == 0 {
                    seq![master_bus(channels)]
                } else {
                    buses_view(req.buses@)
                },
                channels,
                Seq::empty(),
            ),
        }),
{
    let mut buses: Vec<AudioBusMap> = if req.buses.len() == 0 {
        let mut all: Vec<usize> = Vec::new();
        let mut c: usize = 0;
        while c < channels
            invariant
                c <= channels,
                all@ == Seq::new(c as nat, |i: int| (i + 1) as usize),
            decreases channels - c,
        {
            all.push(c + 1);
            c += 1;
            assert(all@ =~= Seq::new(c as nat, |i: int| (i + 1) as usize));
        }
        assert(all@ =~= Seq::new(channels as nat, |i: int| (i + 1) as usize));
        let mut v: Vec<AudioBusMap> = Vec::new();
        v.push(AudioBusMap { id: String::from_str("MASTER"), channels: all });
        assert(buses_view(v@) =~= seq![master_bus(channels)]);
        v
    } else {
        clone_buses(&req.buses)
    };
    let ghost wanted = buses_view(buses@);
    match sanitize_bus_channels(&mut buses, channels) {
        Ok(()) => {},
        Err(e) => {
            proof {
                assert(buses_view(buses@) =~= Seq::<BusView>::empty());
            }
            return Err(e);
        },
    }
    let mut groups = clone_groups(&req.virtual_groups);
    if req.include_default_virtual_groups {
        let defaults = default_virtual_groups(&buses);
        merge_virtual_groups(&mut groups, defaults);
    }
    sanitize_virtual_groups(&mut groups, &buses);
    Ok((buses, groups))
}

} // verus!
