//! The MIDI-to-hotkey bridge: the note-to-keycode map, routing of incoming
//! trigger notes, planning a bar/beat seek made of hotkey presses, and the
//! choice of a MIDI port by name.
use vstd::prelude::*;
use vstd::std_specs::hash::*;
use std::collections::HashMap;

use crate::intent::strings_view;
use crate::midi::{hotkey_note, valid_channel, HotkeyAction};
use crate::text::{
    append_str, decimal_text, eq_ignore_ascii_case, eq_ignore_ascii_case_chars, push_char,
    push_decimal, find_char, first_index_of, lemma_trimmed_bounds, parse_unsigned, parse_unsigned_range,
    seq_contains, spec_to_lowercase, string_from_range, to_lowercase, trim, trim_range, chars_of,
    contains_chars,
};

verus! {

broadcast use group_hash_axioms;

/// The keypad keycodes the bridge sends when no map is given: note 36 goes
/// to the start, 37/38 one bar back/forward, 39/40 one beat back/forward.
pub open spec fn default_note_map() -> Map<u8, u16> {
    map![36u8 => 83u16, 37u8 => 87u16, 38u8 => 88u16, 39u8 => 84u16, 40u8 => 85u16]
}

/// Without a note map, the bridge listens for exactly the five trigger
/// notes the hotkey actions send, and turns them into the keypad keys of
/// the DAW's transport: home on key 83, bar back/forward on 87/88, beat
/// back/forward on 84/85.
pub proof fn lemma_default_map_serves_hotkeys(a: HotkeyAction)
    ensures
        default_note_map().contains_key(hotkey_note(a)),
        default_note_map()[hotkey_note(a)] == (match a {
            HotkeyAction::Home => 83u16,
            HotkeyAction::BarBack => 87u16,
            HotkeyAction::BarForward => 88u16,
            HotkeyAction::BeatBack => 84u16,
            HotkeyAction::BeatForward => 85u16,
        }),
        forall|n: u8| #[trigger]
            default_note_map().contains_key(n) ==> exists|b: HotkeyAction| hotkey_note(b) == n,
{
    assert forall|n: u8| #[trigger] default_note_map().contains_key(n) implies exists|
        b: HotkeyAction,
    | hotkey_note(b) == n by {
        if n == 36 {
            assert(hotkey_note(HotkeyAction::Home) == n);
        } else if n == 37 {
            assert(hotkey_note(HotkeyAction::BarBack) == n);
        } else if n == 38 {
            assert(hotkey_note(HotkeyAction::BarForward) == n);
        } else if n == 39 {
            assert(hotkey_note(HotkeyAction::BeatBack) == n);
        } else {
            assert(hotkey_note(HotkeyAction::BeatForward) == n);
        }
    }
}

/// Why a note map specification was refused; each carries the offending pair.
#[derive(Debug, Clone)]
pub enum NoteMapError {
    InvalidPair(String),
    InvalidNote(String),
    InvalidKeycode(String),
}

pub ghost enum NoteMapErrorView {
    InvalidPair(Seq<char>),
    InvalidNote(Seq<char>),
    InvalidKeycode(Seq<char>),
}

impl View for NoteMapError {
    type V = NoteMapErrorView;

    open spec fn view(&self) -> NoteMapErrorView {
        match self {
            NoteMapError::InvalidPair(s) => NoteMapErrorView::InvalidPair(s@),
            NoteMapError::InvalidNote(s) => NoteMapErrorView::InvalidNote(s@),
            NoteMapError::InvalidKeycode(s) => NoteMapErrorView::InvalidKeycode(s@),
        }
    }
}

/// One trimmed, non-empty `NOTE:KEYCODE` pair added to `acc`.
pub open spec fn parse_note_pair(p: Seq<char>, acc: Map<u8, u16>) -> Result<
    Map<u8, u16>,
    NoteMapErrorView,
> {
    match first_index_of(p, ':') {
        None => Err(NoteMapErrorView::InvalidPair(p)),
        Some(j) => match parse_unsigned(trim(p.subrange(0, j)), 255) {
            None => Err(NoteMapErrorView::InvalidNote(p)),
            Some(n) => match parse_unsigned(trim(p.subrange(j + 1, p.len() as int)), 65535) {
                None => Err(NoteMapErrorView::InvalidKeycode(p)),
                Some(k) => Ok(acc.insert(n as u8, k as u16)),
            },
        },
    }
}

pub proof fn lemma_first_index_bounds(s: Seq<char>, c: char)
    ensures
        first_index_of(s, c) matches Some(i) ==> 0 <= i < s.len() && s[i] == c,
    decreases s.len(),
{
    if s.len() > 0 {
        lemma_first_index_bounds(s.drop_last(), c);
    }
}

/// The comma-separated pairs of `s` added to `acc` in order; blank pieces are
/// skipped and later pairs override earlier ones for the same note.
pub open spec fn parse_note_pieces(s: Seq<char>, acc: Map<u8, u16>) -> Result<
    Map<u8, u16>,
    NoteMapErrorView,
>
    decreases s.len(),
{
    proof {
        lemma_first_index_bounds(s, ',');
    }
    let cut = first_index_of(s, ',');
    let piece = match cut {
        Some(i) => s.subrange(0, i),
        None => s,
    };
    let p = trim(piece);
    let step = if p.len() == 0 {
        Ok(acc)
    } else {
        parse_note_pair(p, acc)
    };
    match step {
        Err(e) => Err(e),
        Ok(m) => match cut {
            Some(i) => parse_note_pieces(s.subrange(i + 1, s.len() as int), m),
            None => Ok(m),
        },
    }
}

pub open spec fn note_map_outcome(r: Result<HashMap<u8, u16>, NoteMapError>) -> Result<
    Map<u8, u16>,
    NoteMapErrorView,
> {
    match r {
        Ok(m) => Ok(m@),
        Err(e) => Err(e@),
    }
}

fn parse_pair_range(v: &Vec<char>, a: usize, b: usize, out: &mut HashMap<u8, u16>) -> (r: Result<
    (),
    NoteMapError,
>)
    requires
        a <= b <= v.len(),
    ensures
        match parse_note_pair(v@.subrange(a as int, b as int), old(out)@) {
            Ok(m) => r is Ok && final(out)@ == m,
            Err(e) => r matches Err(x) && x@ == e,
        },
{
    let ghost p = v@.subrange(a as int, b as int);
    let j = find_char(v, ':', a, b);
    if j == b {
        return Err(NoteMapError::InvalidPair(string_from_range(v, a, b)));
    }
    assert(p.subrange(0, j - a) =~= v@.subrange(a as int, j as int));
    assert(p.subrange(j - a + 1, p.len() as int) =~= v@.subrange(j + 1, b as int));
    let (na, nb) = trim_range(v, a, j);
    proof {
        lemma_trimmed_bounds(v@, a as int, j as int, na as int, nb as int);
    }
    let note = match parse_unsigned_range(v, na, nb, 255) {
        Some(n) => n,
        None => {
            return Err(NoteMapError::InvalidNote(string_from_range(v, a, b)));
        },
    };
    let (ka, kb) = trim_range(v, j + 1, b);
    proof {
        lemma_trimmed_bounds(v@, j + 1, b as int, ka as int, kb as int);
    }
    let key = match parse_unsigned_range(v, ka, kb, 65535) {
        Some(k) => k,
        None => {
            return Err(NoteMapError::InvalidKeycode(string_from_range(v, a, b)));
        },
    };
    out.insert(note as u8, key as u16);
    Ok(())
}

/// Reads a note map such as `36:83, 37:87`; without a specification the
/// default keypad map is used.
pub fn parse_note_map_spec(spec: Option<&str>) -> (r: Result<HashMap<u8, u16>, NoteMapError>)
    ensures
        spec is None ==> (r matches Ok(m) && m@ == default_note_map()),
        spec matches Some(s) ==> note_map_outcome(r) == parse_note_pieces(s@, Map::empty()),
{
    match spec {
        None => {
            let mut m: HashMap<u8, u16> = HashMap::new();
            m.insert(36, 83);
            m.insert(37, 87);
            m.insert(38, 88);
            m.insert(39, 84);
            m.insert(40, 85);
            assert(m@ =~= default_note_map());
            Ok(m)
        },
        Some(raw) => {
            let v = chars_of(raw);
            let mut out: HashMap<u8, u16> = HashMap::new();
            let mut pos: usize = 0;
            assert(v@.subrange(0, v.len() as int) =~= raw@);
            loop
                invariant
                    pos <= v.len(),
                    v@ == raw@,
                    spec == Some(raw),
                    parse_note_pieces(raw@, Map::empty()) == parse_note_pieces(
                        v@.subrange(pos as int, v.len() as int),
                        out@,
                    ),
                decreases v.len() - pos,
            {
                let ghost suffix = v@.subrange(pos as int, v.len() as int);
                let end = find_char(&v, ',', pos, v.len());
                let (a, b) = trim_range(&v, pos, end);
                proof {
                    lemma_trimmed_bounds(v@, pos as int, end as int, a as int, b as int);
                    assert(suffix.subrange(0, end - pos) =~= v@.subrange(pos as int, end as int));
                    if end < v.len() {
                        assert(suffix.subrange(end - pos + 1, suffix.len() as int) =~= v@.subrange(
                            end + 1,
                            v.len() as int,
                        ));
                    } else {
                        assert(suffix =~= v@.subrange(pos as int, end as int));
                    }
                }
                if a < b {
                    match parse_pair_range(&v, a, b, &mut out) {
                        Ok(()) => {},
                        Err(e) => {
                            return Err(e);
                        },
                    }
                }
                if end == v.len() {
                    return Ok(out);
                }
                pos = end + 1;
            }
        },
    }
}

/// Why the hotkey bridge could not start.
#[derive(Debug, Clone)]
pub enum BridgeError {
    InvalidChannelFilter(u8),
    NoteMap(NoteMapError),
    EmptyNoteMap,
}

pub ghost enum BridgeErrorView {
    InvalidChannelFilter(u8),
    NoteMap(NoteMapErrorView),
    EmptyNoteMap,
}

impl View for BridgeError {
    type V = BridgeErrorView;

    open spec fn view(&self) -> BridgeErrorView {
        match self {
            BridgeError::InvalidChannelFilter(c) => BridgeErrorView::InvalidChannelFilter(*c),
            BridgeError::NoteMap(e) => BridgeErrorView::NoteMap(e@),
            BridgeError::EmptyNoteMap => BridgeErrorView::EmptyNoteMap,
        }
    }
}

/// The bridge's note map, or why it cannot start: a channel filter outside
/// 1..=16 first; then a note map that does not parse; then one without any
/// entry. Without a specification the default keypad map is used.
pub open spec fn spec_prepare_bridge(channel_filter: Option<u8>, note_map_spec: Option<
    Seq<char>,
>) -> Result<Map<u8, u16>, BridgeErrorView> {
    let bad_channel = match channel_filter {
        Some(ch) => !valid_channel(ch),
        None => false,
    };
    if bad_channel {
        Err(BridgeErrorView::InvalidChannelFilter(channel_filter->Some_0))
    } else {
        let parsed = match note_map_spec {
            None => Ok(default_note_map()),
            Some(s) => parse_note_pieces(s, Map::empty()),
        };
        match parsed {
            Err(e) => Err(BridgeErrorView::NoteMap(e)),
            Ok(m) => if m == Map::<u8, u16>::empty() {
                Err(BridgeErrorView::EmptyNoteMap)
            } else {
                Ok(m)
            },
        }
    }
}

pub open spec fn bridge_outcome(r: Result<HashMap<u8, u16>, BridgeError>) -> Result<
    Map<u8, u16>,
    BridgeErrorView,
> {
    match r {
        Ok(m) => Ok(m@),
        Err(e) => Err(e@),
    }
}

/// Checks the bridge settings and builds its note map.
pub fn prepare_hotkey_bridge(channel_filter: Option<u8>, note_map_spec: Option<&str>) -> (r: Result<
    HashMap<u8, u16>,
    BridgeError,
>)
    ensures
        bridge_outcome(r) == spec_prepare_bridge(
            channel_filter,
            match note_map_spec {
                Some(s) => Some(s@),
                None => None,
            },
        ),
{
    if let Some(ch) = channel_filter {
        if ch < 1 || ch > 16 {
            return Err(BridgeError::InvalidChannelFilter(ch));
        }
    }
    let key_map = match parse_note_map_spec(note_map_spec) {
        Ok(m) => m,
        Err(e) => {
            return Err(BridgeError::NoteMap(e));
        },
    };
    if key_map.is_empty() {
        assert(key_map@ =~= Map::<u8, u16>::empty());
        return Err(BridgeError::EmptyNoteMap);
    }
    proof {
        if key_map@.len() == 0 {
            assert(key_map@ =~= Map::<u8, u16>::empty());
        }
        if note_map_spec is None {
            assert(default_note_map().contains_key(36u8));
        }
    }
    Ok(key_map)
}

/// The keycode an incoming trigger note fires: none when the note is on a
/// filtered-out channel or has no entry in the map.
pub fn route_trigger(channel_filter: Option<u8>, key_map: &HashMap<u8, u16>, channel: u8, note: u8) -> (r:
    Option<u16>)
    ensures
        channel_filter is Some && channel != channel_filter->0 ==> r is None,
        (channel_filter is None || channel_filter == Some(channel)) ==> (r == (if key_map@.contains_key(
            note,
        ) {
            Some(key_map@[note])
        } else {
            None::<u16>
        })),
{
    if let Some(f) = channel_filter {
        if channel != f {
            return None;
        }
    }
    match key_map.get(&note) {
        Some(k) => Some(*k),
        None => None,
    }
}

/// How the target beat of a hotkey seek compares with whole beats (the
/// caller reads this off its fractional beat value).
#[derive(Debug, Clone, Copy, PartialEq, Eq, Structural)]
pub enum BeatSpec {
    /// Below the first beat of the bar.
    BelowOne,
    /// Not a whole number of beats.
    Fractional,
    /// A whole beat number.
    Whole(u32),
}

/// What a hotkey seek sends: an optional jump to the start, then bar and beat
/// steps forward.
#[derive(Debug, Clone, Copy, PartialEq, Eq, Structural)]
pub struct HotkeySeekReport {
    pub home_sent: bool,
    pub bar_steps: u32,
    pub beat_steps: u32,
    pub target_bar: u32,
}

/// Why a hotkey seek was refused.
#[derive(Debug, Clone, Copy, PartialEq, Eq, Structural)]
pub enum HotkeySeekError {
    InvalidChannel(u8),
    BarNotOneBased,
    BeatBelowOne,
    TickNotSupported,
    FractionalBeat,
}

pub open spec fn spec_plan_hotkey_seek(
    channel: u8,
    target_bar: u32,
    beat: BeatSpec,
    target_tick: u32,
    do_home: bool,
) -> Result<HotkeySeekReport, HotkeySeekError> {
    if !valid_channel(channel) {
        Err(HotkeySeekError::InvalidChannel(channel))
    } else if target_bar == 0 {
        Err(HotkeySeekError::BarNotOneBased)
    } else if beat == BeatSpec::BelowOne {
        Err(HotkeySeekError::BeatBelowOne)
    } else if target_tick > 0 {
        Err(HotkeySeekError::TickNotSupported)
    } else if beat == BeatSpec::Fractional {
        Err(HotkeySeekError::FractionalBeat)
    } else if beat == BeatSpec::Whole(0) {
        Err(HotkeySeekError::BeatBelowOne)
    } else {
        Ok(
            HotkeySeekReport {
                home_sent: do_home,
                bar_steps: (target_bar - 1) as u32,
                beat_steps: (beat->Whole_0 - 1) as u32,
                target_bar,
            },
        )
    }
}

/// Plans a seek to bar `target_bar`, beat `beat`, made of hotkey presses
/// from the start of the piece.
pub fn plan_hotkey_seek(channel: u8, target_bar: u32, beat: BeatSpec, target_tick: u32, do_home: bool) -> (r:
    Result<HotkeySeekReport, HotkeySeekError>)
    ensures
        r == spec_plan_hotkey_seek(channel, target_bar, beat, target_tick, do_home),
{
    if channel < 1 || channel > 16 {
        return Err(HotkeySeekError::InvalidChannel(channel));
    }
    if target_bar == 0 {
        return Err(HotkeySeekError::BarNotOneBased);
    }
    if beat == BeatSpec::BelowOne {
        return Err(HotkeySeekError::BeatBelowOne);
    }
    if target_tick > 0 {
        return Err(HotkeySeekError::TickNotSupported);
    }
    let beat_int = match beat {
        BeatSpec::Whole(b) => b,
        _ => {
            return Err(HotkeySeekError::FractionalBeat);
        },
    };
    if beat_int == 0 {
        return Err(HotkeySeekError::BeatBelowOne);
    }
    Ok(
        HotkeySeekReport {
            home_sent: do_home,
            bar_steps: target_bar - 1,
            beat_steps: beat_int - 1,
            target_bar,
        },
    )
}

/// A planned seek lands on its target: from the start, `bar_steps` bar steps
/// and `beat_steps` beat steps reach bar `target_bar`, beat `b`.
pub proof fn lemma_hotkey_seek_reaches_target(
    channel: u8,
    target_bar: u32,
    b: u32,
    do_home: bool,
)
    requires
        valid_channel(channel),
        target_bar >= 1,
        b >= 1,
    ensures
        spec_plan_hotkey_seek(channel, target_bar, BeatSpec::Whole(b), 0, do_home) matches Ok(rep)
            && 1 + rep.bar_steps == target_bar && 1 + rep.beat_steps == b && rep.home_sent
            == do_home,
{
}

/// Why no MIDI port was chosen.
#[derive(Debug, Clone)]
pub enum PortError {
    /// No port name contains the requested text.
    NotFound(String),
}

pub open spec fn port_matches(names: Seq<Seq<char>>, i: int, needle: Seq<char>) -> bool {
    seq_contains(spec_to_lowercase(names[i]), needle)
}

/// The port to use: with a hint, the first port whose lower-cased name
/// contains the lower-cased hint (and an error when none does); without one,
/// the first port whose name contains `preferred`, else the first port.
pub open spec fn port_choice_ok(
    names: Seq<Seq<char>>,
    hint: Option<Seq<char>>,
    preferred: Seq<char>,
    i: int,
) -> bool {
    let needle = match hint {
        Some(h) => spec_to_lowercase(h),
        None => preferred,
    };
    if 0 <= i < names.len() && port_matches(names, i, needle) {
        forall|j: int| 0 <= j < i ==> !#[trigger] port_matches(names, j, needle)
    } else {
        hint is None && i == 0 && forall|j: int| 0 <= j < names.len() ==> !#[trigger] port_matches(names, j, needle)
    }
}

/// Chooses a MIDI port by name; `preferred` is the lower-case text looked
/// for when no hint is given.
pub fn select_port_index(names: &Vec<String>, hint: Option<&str>, preferred: &str) -> (r: Result<
    usize,
    PortError,
>)
    ensures
        r matches Ok(i) ==> port_choice_ok(
            strings_view(names@),
            match hint {
                Some(h) => Some(h@),
                None => None,
            },
            preferred@,
            i as int,
        ),
        r is Err ==> (hint matches Some(h) && forall|j: int|
            0 <= j < names.len() ==> !#[trigger] port_matches(
                strings_view(names@),
                j,
                spec_to_lowercase(h@),
            )),
{
    let ghost views = strings_view(names@);
    let needle = match hint {
        Some(h) => chars_of(to_lowercase(h).as_str()),
        None => chars_of(preferred),
    };
    let mut i: usize = 0;
    while i < names.len()
        invariant
            i <= names.len(),
            views == strings_view(names@),
            needle@ == (match hint {
                Some(h) => spec_to_lowercase(h@),
                None => preferred@,
            }),
            forall|j: int| 0 <= j < i ==> !#[trigger] port_matches(views, j, needle@),
        decreases names.len() - i,
    {
        let lower = chars_of(to_lowercase(names[i].as_str()).as_str());
        assert(views[i as int] == names@[i as int]@);
        if contains_chars(&lower, &needle) {
            return Ok(i);
        }
        i += 1;
    }
    match hint {
        Some(h) => Err(PortError::NotFound(String::from_str(h))),
        None => Ok(0),
    }
}


/// `s` with every double quote escaped by a backslash.
pub open spec fn escape_quotes(s: Seq<char>) -> Seq<char>
    decreases s.len(),
{
    if s.len() == 0 {
        Seq::empty()
    } else {
        escape_quotes(s.drop_last()) + (if s.last() == '"' {
            seq!['\\', '"']
        } else {
            seq![s.last()]
        })
    }
}

fn escape_quotes_exec(s: &str) -> (r: String)
    ensures
        r@ == escape_quotes(s@),
{
    let v = chars_of(s);
    let mut r = String::new();
    let mut i: usize = 0;
    assert(v@.subrange(0, 0) =~= Seq::<char>::empty());
    while i < v.len()
        invariant
            i <= v.len(),
            v@ == s@,
            r@ == escape_quotes(v@.subrange(0, i as int)),
        decreases v.len() - i,
    {
        let ghost sub = v@.subrange(0, i as int + 1);
        assert(sub.drop_last() =~= v@.subrange(0, i as int));
        assert(sub.last() == v@[i as int]);
        let ghost before = r@;
        if v[i] == '"' {
            push_char(&mut r, '\\');
            push_char(&mut r, '"');
            assert(r@ =~= before + seq!['\\', '"']);
        } else {
            push_char(&mut r, v[i]);
            assert(r@ =~= before + seq![v@[i as int]]);
        }
        i += 1;
    }
    assert(v@.subrange(0, i as int) =~= v@);
    r
}

/// The AppleScript that presses a key code: with a target application, only
/// when that application exists and is frontmost (reporting whether the key
/// was sent); without one, unconditionally.
pub open spec fn spec_keycode_script(keycode: u16, app: Option<Seq<char>>) -> Seq<char> {
    match app {
        Some(a) => {
            let e = escape_quotes(a);
            "set didSend to false\ntell application \"System Events\"\nif exists process \""@ + e
                + "\" then\nif frontmost of process \""@ + e + "\" then\nkey code "@
                + decimal_text(keycode as nat)
                + "\nset didSend to true\nend if\nend if\nend tell\nreturn didSend"@
        },
        None => "tell application \"System Events\" to key code "@ + decimal_text(keycode as nat)
            + "\nreturn true"@,
    }
}

/// The script that sends a DAW keyboard shortcut.
pub fn keycode_script(keycode: u16, target_app: Option<&str>) -> (s: String)
    ensures
        s@ == spec_keycode_script(
            keycode,
            match target_app {
                Some(a) => Some(a@),
                None => None,
            },
        ),
{
    match target_app {
        Some(app) => {
            let e = escape_quotes_exec(app);
            let mut s = String::from_str("set didSend to false\ntell application \"System Events\"\nif exists process \"");
            append_str(&mut s, e.as_str());
            append_str(&mut s, "\" then\nif frontmost of process \"");
            append_str(&mut s, e.as_str());
            append_str(&mut s, "\" then\nkey code ");
            push_decimal(&mut s, keycode as u64);
            append_str(&mut s, "\nset didSend to true\nend if\nend if\nend tell\nreturn didSend");
            s
        },
        None => {
            let mut s = String::from_str("tell application \"System Events\" to key code ");
            push_decimal(&mut s, keycode as u64);
            append_str(&mut s, "\nreturn true");
            s
        },
    }
}

/// Whether the script reported that the key was sent: its trimmed output is
/// `true`, in any ASCII case.
pub fn script_reported_sent(stdout: &str) -> (sent: bool)
    ensures
        sent == eq_ignore_ascii_case(trim(stdout@), "true"@),
{
    let v = chars_of(stdout);
    let (a, b) = trim_range(&v, 0, v.len());
    proof {
        lemma_trimmed_bounds(v@, 0, v@.len() as int, a as int, b as int);
        assert(v@.subrange(0, v@.len() as int) =~= v@);
    }
    let mut t: Vec<char> = Vec::new();
    let mut i: usize = a;
    while i < b
        invariant
            a <= i <= b <= v@.len(),
            t@ == v@.subrange(a as int, i as int),
        decreases b - i,
    {
        t.push(v[i]);
        i += 1;
        assert(t@ =~= v@.subrange(a as int, i as int));
    }
    let word = chars_of("true");
    eq_ignore_ascii_case_chars(&t, &word)
}


/// The note a one-off hotkey press sends: an explicit note wins over the
/// action's trigger note; with neither there is nothing to send.
pub fn hotkey_send_note(action: Option<crate::midi::HotkeyAction>, note: Option<u8>) -> (n: Option<
    u8,
>)
    ensures
        n == (match (action, note) {
            (_, Some(x)) => Some(x),
            (Some(a), None) => Some(crate::midi::hotkey_note(a)),
            (None, None) => None::<u8>,
        }),
{
    match note {
        Some(x) => Some(x),
        None => match action {
            Some(a) => Some(a.default_note()),
            None => None,
        },
    }
}

} // verus!
