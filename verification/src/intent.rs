//! Turning a spoken or typed mixing command into an intent: which sections it
//! names, which bars it covers, what kind of write it asks for, and whether it
//! can be executed, needs a clarification, or asks for a suggestion.
use vstd::prelude::*;
use vstd::string::*;

use crate::text::{
    chars_of, contains_chars, contains_str, occurs_at, parse_unsigned, parse_unsigned_range, seq_contains,
    spec_to_lowercase, string_from_chars, to_lowercase,
};
use crate::types::{Decision, OperationClass, TimeRange};

verus! {

/// Why a command could not be executed as given.
#[derive(Debug, Clone, Copy, PartialEq, Eq, Structural)]
pub enum ReasonCode {
    MissingTimeWindow,
    MissingTarget,
    MissingOperation,
    AmbiguousTarget,
}

pub open spec fn reason_code_text(r: ReasonCode) -> Seq<char> {
    match r {
        ReasonCode::MissingTimeWindow => "missing_time_window"@,
        ReasonCode::MissingTarget => "missing_target"@,
        ReasonCode::MissingOperation => "missing_operation"@,
        ReasonCode::AmbiguousTarget => "ambiguous_target"@,
    }
}

impl ReasonCode {
    /// The code as it is written to the audit log.
    pub fn code(&self) -> (s: &'static str)
        ensures
            s@ == reason_code_text(*self),
    {
        match self {
            ReasonCode::MissingTimeWindow => "missing_time_window",
            ReasonCode::MissingTarget => "missing_target",
            ReasonCode::MissingOperation => "missing_operation",
            ReasonCode::AmbiguousTarget => "ambiguous_target",
        }
    }
}

/// How strongly a command asks for a change.
#[derive(Debug, Clone, Copy, PartialEq, Eq, Structural)]
pub enum Strength {
    Slight,
    Medium,
    Strong,
}

pub open spec fn strength_text(s: Strength) -> Seq<char> {
    match s {
        Strength::Slight => "slight"@,
        Strength::Medium => "medium"@,
        Strength::Strong => "strong"@,
    }
}

impl Strength {
    pub fn as_str(&self) -> (s: &'static str)
        ensures
            s@ == strength_text(*self),
    {
        match self {
            Strength::Slight => "slight",
            Strength::Medium => "medium",
            Strength::Strong => "strong",
        }
    }
}

/// The parsed form of one command.
#[derive(Debug, Clone)]
pub struct Intent {
    pub source_text: String,
    pub decision: Decision,
    pub operation_class: Option<OperationClass>,
    pub targets: Vec<String>,
    pub time_range: Option<TimeRange>,
    pub strength: Option<Strength>,
    /// Confidence in hundredths (92 stands for 0.92).
    pub confidence_pct: u32,
    pub requires_confirmation: bool,
    pub reason_codes: Vec<ReasonCode>,
}

/// Spoken names of sections mapped to canonical bus ids. A key occurs at most
/// once; entries keep the order in which their keys were first inserted.
#[derive(Debug, Clone)]
pub struct AliasTable {
    entries: Vec<(String, String)>,
}

pub open spec fn strings_view(v: Seq<String>) -> Seq<Seq<char>> {
    v.map_values(|s: String| s@)
}

pub open spec fn pairs_view(v: Seq<(String, String)>) -> Seq<(Seq<char>, Seq<char>)> {
    v.map_values(|e: (String, String)| (e.0@, e.1@))
}

/// The position of the first entry whose key is `k`.
pub open spec fn key_index(entries: Seq<(Seq<char>, Seq<char>)>, k: Seq<char>) -> Option<int>
    decreases entries.len(),
{
    if entries.len() == 0 {
        None
    } else {
        match key_index(entries.drop_last(), k) {
            Some(i) => Some(i),
            None => if entries.last().0 == k {
                Some(entries.len() - 1)
            } else {
                None
            },
        }
    }
}

/// The value stored under `k`, if any.
pub open spec fn alias_lookup(entries: Seq<(Seq<char>, Seq<char>)>, k: Seq<char>) -> Option<
    Seq<char>,
> {
    match key_index(entries, k) {
        Some(i) => Some(entries[i].1),
        None => None,
    }
}

/// The entries after `k` is bound to `v`: the entry of `k` gets the new value
/// in place, or a new entry is appended.
pub open spec fn alias_insert(
    entries: Seq<(Seq<char>, Seq<char>)>,
    k: Seq<char>,
    v: Seq<char>,
) -> Seq<(Seq<char>, Seq<char>)> {
    match key_index(entries, k) {
        Some(i) => entries.update(i, (k, v)),
        None => entries.push((k, v)),
    }
}

proof fn lemma_key_index_bounds(entries: Seq<(Seq<char>, Seq<char>)>, k: Seq<char>)
    ensures
        key_index(entries, k) matches Some(i) ==> 0 <= i < entries.len() && entries[i].0 == k,
        key_index(entries, k) matches Some(i) ==> forall|j: int|
            0 <= j < i ==> #[trigger] entries[j].0 != k,
        key_index(entries, k) is None ==> forall|j: int|
            0 <= j < entries.len() ==> #[trigger] entries[j].0 != k,
    decreases entries.len(),
{
    if entries.len() > 0 {
        let p = entries.drop_last();
        lemma_key_index_bounds(p, k);
        match key_index(p, k) {
            Some(i) => {
                assert(key_index(entries, k) == Some(i));
                assert forall|j: int| 0 <= j < i implies #[trigger] entries[j].0 != k by {
                    assert(p[j] == entries[j]);
                }
            },
            None => {
                assert forall|j: int| 0 <= j < p.len() implies #[trigger] entries[j].0 != k by {
                    assert(p[j] == entries[j]);
                }
            },
        }
    }
}

proof fn lemma_key_index_prefix(entries: Seq<(Seq<char>, Seq<char>)>, k: Seq<char>, n: int)
    requires
        0 <= n <= entries.len(),
        forall|j: int| 0 <= j < n ==> entries[j].0 != k,
        n < entries.len() ==> entries[n].0 == k,
    ensures
        key_index(entries, k) == (if n < entries.len() { Some(n) } else { None::<int> }),
    decreases entries.len(),
{
    lemma_key_index_bounds(entries, k);
    if entries.len() > 0 {
        if n < entries.len() {
            if n < entries.len() - 1 {
                lemma_key_index_prefix(entries.drop_last(), k, n);
            } else {
                lemma_key_index_prefix(entries.drop_last(), k, n);
            }
        } else {
            lemma_key_index_prefix(entries.drop_last(), k, n - 1);
        }
    }
}

impl AliasTable {
    pub closed spec fn view(&self) -> Seq<(Seq<char>, Seq<char>)> {
        pairs_view(self.entries@)
    }

    pub fn new() -> (t: AliasTable)
        ensures
            t.view() == Seq::<(Seq<char>, Seq<char>)>::empty(),
    {
        let t = AliasTable { entries: Vec::new() };
        assert(t.view() =~= Seq::<(Seq<char>, Seq<char>)>::empty());
        t
    }

    pub fn len(&self) -> (n: usize)
        ensures
            n == self.view().len(),
    {
        self.entries.len()
    }

    /// Binds `key` to `value`, replacing the value an existing entry holds.
    pub fn insert(&mut self, key: String, value: String)
        ensures
            final(self).view() == alias_insert(old(self).view(), key@, value@),
    {
        let ghost old_view = self.view();
        let ghost k = key@;
        let ghost v = value@;
        let mut i: usize = 0;
        while i < self.entries.len() && self.entries[i].0 != key
            invariant
                i <= self.entries.len(),
                self.view() == old_view,
                k == key@,
                forall|j: int| 0 <= j < i ==> old_view[j].0 != k,
            decreases self.entries.len() - i,
        {
            i += 1;
        }
        if i < self.entries.len() {
            assert(old_view[i as int].0 == k);
            proof {
                lemma_key_index_prefix(old_view, k, i as int);
            }
            self.entries.set(i, (key, value));
        } else {
            proof {
                lemma_key_index_prefix(old_view, k, i as int);
            }
            self.entries.push((key, value));
        }
        assert(self.view() =~= alias_insert(old_view, k, v));
    }

    /// The value bound to `key`, if any.
    pub fn get(&self, key: &String) -> (r: Option<String>)
        ensures
            r matches Some(v) ==> alias_lookup(self.view(), key@) == Some(v@),
            r is None ==> alias_lookup(self.view(), key@) is None,
    {
        let mut i: usize = 0;
        while i < self.entries.len()
            invariant
                i <= self.entries.len(),
                forall|j: int| 0 <= j < i ==> self.view()[j].0 != key@,
            decreases self.entries.len() - i,
        {
            if self.entries[i].0 == *key {
                proof {
                    lemma_key_index_prefix(self.view(), key@, i as int);
                }
                return Some(self.entries[i].1.clone());
            }
            i += 1;
        }
        proof {
            lemma_key_index_prefix(self.view(), key@, i as int);
        }
        None
    }
}

/// The built-in spoken names of sections.
pub open spec fn default_alias_entries() -> Seq<(Seq<char>, Seq<char>)> {
    seq![
        ("first violins"@, "STR_HI"@),
        ("violins"@, "STR_HI"@),
        ("high ww"@, "WW_HI"@),
        ("horns"@, "HN"@),
        ("low brass"@, "BR_LO"@),
        ("timpani"@, "TIMP"@),
        ("percussion"@, "PERC"@),
        ("harp"@, "HARP"@),
    ]
}

/// The alias table every command is resolved against before a session map
/// adds its own names.
pub fn default_aliases() -> (t: AliasTable)
    ensures
        t.view() == default_alias_entries(),
{
    let mut entries: Vec<(String, String)> = Vec::new();
    entries.push((String::from_str("first violins"), String::from_str("STR_HI")));
    entries.push((String::from_str("violins"), String::from_str("STR_HI")));
    entries.push((String::from_str("high ww"), String::from_str("WW_HI")));
    entries.push((String::from_str("horns"), String::from_str("HN")));
    entries.push((String::from_str("low brass"), String::from_str("BR_LO")));
    entries.push((String::from_str("timpani"), String::from_str("TIMP")));
    entries.push((String::from_str("percussion"), String::from_str("PERC")));
    entries.push((String::from_str("harp"), String::from_str("HARP")));
    let t = AliasTable { entries };
    assert(t.view() =~= default_alias_entries());
    t
}

/// After `insert(k, v)`, looking `k` up gives `v`, and every other key keeps
/// its value.
pub proof fn lemma_alias_insert_then_lookup(
    entries: Seq<(Seq<char>, Seq<char>)>,
    k: Seq<char>,
    v: Seq<char>,
    other: Seq<char>,
)
    ensures
        alias_lookup(alias_insert(entries, k, v), k) == Some(v),
        other != k ==> alias_lookup(alias_insert(entries, k, v), other) == alias_lookup(
            entries,
            other,
        ),
{
    lemma_key_index_bounds(entries, k);
    lemma_key_index_bounds(entries, other);
    let after = alias_insert(entries, k, v);
    match key_index(entries, k) {
        Some(i) => {
            lemma_key_index_prefix(after, k, i);
            match key_index(entries, other) {
                Some(j) => {
                    if other != k {
                        lemma_key_index_prefix(after, other, j);
                    }
                },
                None => {
                    if other != k {
                        lemma_key_index_prefix(after, other, after.len() as int);
                    }
                },
            }
        },
        None => {
            lemma_key_index_prefix(after, k, entries.len() as int);
            match key_index(entries, other) {
                Some(j) => {
                    if other != k {
                        lemma_key_index_prefix(after, other, j);
                    }
                },
                None => {
                    if other != k {
                        lemma_key_index_prefix(after, other, after.len() as int);
                    }
                },
            }
        },
    }
}

/// The bus ids a command names: the value of every alias whose key occurs in
/// the lower-cased command, in table order, each id once.
pub open spec fn resolved_targets(lower: Seq<char>, entries: Seq<(Seq<char>, Seq<char>)>) -> Seq<
    Seq<char>,
>
    decreases entries.len(),
{
    if entries.len() == 0 {
        Seq::empty()
    } else {
        let prev = resolved_targets(lower, entries.drop_last());
        let e = entries.last();
        if seq_contains(lower, e.0) && !prev.contains(e.1) {
            prev.push(e.1)
        } else {
            prev
        }
    }
}

fn contains_string(v: &Vec<String>, s: &String) -> (found: bool)
    ensures
        found == strings_view(v@).contains(s@),
{
    let mut i: usize = 0;
    while i < v.len()
        invariant
            i <= v.len(),
            forall|j: int| 0 <= j < i ==> v@[j]@ != s@,
        decreases v.len() - i,
    {
        if v[i] == *s {
            assert(strings_view(v@)[i as int] == s@);
            return true;
        }
        i += 1;
    }
    false
}

/// The bus ids named by the lower-cased command `lower`.
pub fn resolve_targets(lower: &Vec<char>, aliases: &AliasTable) -> (out: Vec<String>)
    ensures
        strings_view(out@) == resolved_targets(lower@, aliases.view()),
{
    let mut out: Vec<String> = Vec::new();
    let mut i: usize = 0;
    while i < aliases.entries.len()
        invariant
            i <= aliases.entries.len(),
            strings_view(out@) == resolved_targets(
                lower@,
                aliases.view().subrange(0, i as int),
            ),
        decreases aliases.entries.len() - i,
    {
        let ghost prefix = aliases.view().subrange(0, i as int + 1);
        assert(prefix.drop_last() =~= aliases.view().subrange(0, i as int));
        assert(prefix.last() == (aliases.entries@[i as int].0@, aliases.entries@[i as int].1@));
        let key = chars_of(aliases.entries[i].0.as_str());
        if contains_chars(lower, &key) && !contains_string(&out, &aliases.entries[i].1) {
            out.push(aliases.entries[i].1.clone());
            assert(strings_view(out@) =~= resolved_targets(lower@, prefix));
        }
        i += 1;
    }
    assert(aliases.view().subrange(0, i as int) =~= aliases.view());
    out
}

pub open spec fn has(lower: Seq<char>, pat: &str) -> bool {
    seq_contains(lower, pat@)
}

/// What `parse_strength` reads from the lower-cased command.
pub open spec fn spec_strength(l: Seq<char>) -> Option<Strength> {
    if has(l, "slight") || has(l, "a bit") {
        Some(Strength::Slight)
    } else if has(l, "much") || has(l, "strong") {
        Some(Strength::Strong)
    } else if has(l, "too soft") || has(l, "not loud enough") {
        Some(Strength::Medium)
    } else {
        None
    }
}

/// How strongly a command asks: "slight" or "a bit" asks slightly; otherwise
/// "much" or "strong" asks strongly; otherwise "too soft" or "not loud
/// enough" asks a medium amount; a command with none of these words names no
/// strength.
pub proof fn lemma_strength_words(l: Seq<char>)
    ensures
        (seq_contains(l, "slight"@) || seq_contains(l, "a bit"@)) ==> spec_strength(l) == Some(
            Strength::Slight,
        ),
        !seq_contains(l, "slight"@) && !seq_contains(l, "a bit"@) && (seq_contains(l, "much"@)
            || seq_contains(l, "strong"@)) ==> spec_strength(l) == Some(Strength::Strong),
        !seq_contains(l, "slight"@) && !seq_contains(l, "a bit"@) && !seq_contains(l, "much"@)
            && !seq_contains(l, "strong"@) && (seq_contains(l, "too soft"@) || seq_contains(
            l,
            "not loud enough"@,
        )) ==> spec_strength(l) == Some(Strength::Medium),
        !seq_contains(l, "slight"@) && !seq_contains(l, "a bit"@) && !seq_contains(l, "much"@)
            && !seq_contains(l, "strong"@) && !seq_contains(l, "too soft"@) && !seq_contains(
            l,
            "not loud enough"@,
        ) ==> spec_strength(l) is None,
{
}

/// Strong is reachable: the command "much" asks strongly.
pub proof fn lemma_much_asks_strongly()
    ensures
        spec_strength("much"@) == Some(Strength::Strong),
{
    reveal_strlit("much");
    reveal_strlit("slight");
    reveal_strlit("a bit");
    let h = "much"@;
    lemma_contains_itself(h);
    assert(!seq_contains(h, "slight"@));
    assert forall|k: int| 0 <= k < h.len() implies h[k] != "a bit"@[0] by {
        assert(h[k] == 'm' || h[k] == 'u' || h[k] == 'c' || h[k] == 'h');
    }
    lemma_absent_char(h, "a bit"@, 0);
}

/// Slight is reachable: the command "slight" asks slightly.
pub proof fn lemma_slight_asks_slightly()
    ensures
        spec_strength("slight"@) == Some(Strength::Slight),
{
    lemma_contains_itself("slight"@);
}

/// Medium is reachable: the command "too soft" asks a medium amount.
pub proof fn lemma_too_soft_asks_medium()
    ensures
        spec_strength("too soft"@) == Some(Strength::Medium),
{
    reveal_strlit("too soft");
    reveal_strlit("slight");
    reveal_strlit("a bit");
    reveal_strlit("much");
    reveal_strlit("strong");
    let h = "too soft"@;
    lemma_contains_itself(h);
    assert forall|k: int| 0 <= k < h.len() implies h[k] != 'a' && h[k] != 'l' && h[k] != 'm'
        && h[k] != 'r' by {
        assert(h[k] == 't' || h[k] == 'o' || h[k] == ' ' || h[k] == 's' || h[k] == 'f');
    }
    assert("a bit"@[0] == 'a' && "slight"@[1] == 'l' && "much"@[0] == 'm' && "strong"@[2] == 'r');
    lemma_absent_char(h, "a bit"@, 0);
    lemma_absent_char(h, "slight"@, 1);
    lemma_absent_char(h, "much"@, 0);
    lemma_absent_char(h, "strong"@, 2);
}

proof fn lemma_contains_itself(p: Seq<char>)
    ensures
        seq_contains(p, p),
{
    assert(p.subrange(0, p.len() as int) =~= p);
    assert(occurs_at(p, p, 0));
}

/// A pattern with a character the text lacks does not occur in it.
proof fn lemma_absent_char(hay: Seq<char>, pat: Seq<char>, m: int)
    requires
        0 <= m < pat.len(),
        forall|k: int| 0 <= k < hay.len() ==> hay[k] != pat[m],
    ensures
        !seq_contains(hay, pat),
{
    assert forall|i: int| !occurs_at(hay, pat, i) by {
        if occurs_at(hay, pat, i) {
            assert(hay.subrange(i, i + pat.len())[m] == pat[m]);
            assert(hay[i + m] == pat[m]);
        }
    }
}

pub fn parse_strength(lower: &Vec<char>) -> (s: Option<Strength>)
    ensures
        s == spec_strength(lower@),
{
    if contains_str(lower, "slight") || contains_str(lower, "a bit") {
        Some(Strength::Slight)
    } else if contains_str(lower, "much") || contains_str(lower, "strong") {
        Some(Strength::Strong)
    } else if contains_str(lower, "too soft") || contains_str(lower, "not loud enough") {
        Some(Strength::Medium)
    } else {
        None
    }
}

/// What the regular-expression engine reports for the first match of a
/// pattern with two capture groups.
#[derive(Debug, Clone)]
pub enum PairCapture {
    InvalidPattern,
    NoMatch,
    Groups(Option<String>, Option<String>),
}

pub ghost enum PairCaptureView {
    InvalidPattern,
    NoMatch,
    Groups(Option<Seq<char>>, Option<Seq<char>>),
}

pub open spec fn opt_string_view(o: Option<String>) -> Option<Seq<char>> {
    match o {
        Some(s) => Some(s@),
        None => None,
    }
}

impl View for PairCapture {
    type V = PairCaptureView;

    open spec fn view(&self) -> PairCaptureView {
        match self {
            PairCapture::InvalidPattern => PairCaptureView::InvalidPattern,
            PairCapture::NoMatch => PairCaptureView::NoMatch,
            PairCapture::Groups(a, b) => PairCaptureView::Groups(
                opt_string_view(*a),
                opt_string_view(*b),
            ),
        }
    }
}

/// What `regex::Regex::new(pattern)` followed by `captures(text)` yields:
/// whether the pattern compiles, and the text of groups 1 and 2 of the
/// leftmost-first match.
pub uninterp spec fn spec_regex_pair(pattern: Seq<char>, text: Seq<char>) -> PairCaptureView;

/// Compiles `pattern` with `regex::Regex::new` and asks `Regex::captures` for
/// its first match in `text`, returning the text of capture groups 1 and 2.
/// The contract names the result: the matching rules of the regex crate are
/// not restated.
#[verifier::external_body]
fn regex_pair(pattern: &str, text: &str) -> (r: PairCapture)
    ensures
        r@ == spec_regex_pair(pattern@, text@),
{
    match regex::Regex::new(pattern) {
        Err(_) => PairCapture::InvalidPattern,
        Ok(re) => match re.captures(text) {
            None => PairCapture::NoMatch,
            Some(c) => PairCapture::Groups(
                c.get(1).map(|m| m.as_str().to_string()),
                c.get(2).map(|m| m.as_str().to_string()),
            ),
        },
    }
}

pub open spec fn bars_pattern() -> Seq<char> {
    "bars?\\s*(\\d+)\\s*(?:-|to|through)\\s*(\\d+)"@
}

pub open spec fn measures_pattern() -> Seq<char> {
    "measures?\\s*(\\d+)\\s*(?:-|to|through)\\s*(\\d+)"@
}

/// The outcome of one bar-range pattern from what the engine reported:
/// `None` when it does not match (the next pattern is tried), otherwise the
/// final answer, a range when both groups are numbers that fit in `u32`.
pub open spec fn range_of_capture(c: PairCaptureView) -> Option<Option<TimeRange>> {
    match c {
        PairCaptureView::InvalidPattern => Some(None),
        PairCaptureView::NoMatch => None,
        PairCaptureView::Groups(Some(a), Some(b)) => Some(
            match (parse_unsigned(a, 0xffff_ffff), parse_unsigned(b, 0xffff_ffff)) {
                (Some(x), Some(y)) => Some(TimeRange { start_bar: x as u32, end_bar: y as u32 }),
                _ => None,
            },
        ),
        PairCaptureView::Groups(_, _) => Some(None),
    }
}

/// The outcome of trying one bar-range pattern on a lower-cased command.
pub open spec fn range_by_pattern(pattern: Seq<char>, lower: Seq<char>) -> Option<
    Option<TimeRange>,
> {
    range_of_capture(spec_regex_pair(pattern, lower))
}

/// The bar range a lower-cased command names ("bars 26-29", "measure 3 to 8").
pub open spec fn spec_time_range(lower: Seq<char>) -> Option<TimeRange> {
    match range_by_pattern(bars_pattern(), lower) {
        Some(r) => r,
        None => match range_by_pattern(measures_pattern(), lower) {
            Some(r) => r,
            None => None,
        },
    }
}

/// Reads the bar range out of what the engine reported for one pattern.
pub fn range_from_capture(c: &PairCapture) -> (r: Option<Option<TimeRange>>)
    ensures
        r == range_of_capture(c@),
{
    match c {
        PairCapture::InvalidPattern => Some(None),
        PairCapture::NoMatch => None,
        PairCapture::Groups(Some(a), Some(b)) => {
            let av = chars_of(a.as_str());
            let bv = chars_of(b.as_str());
            let x = parse_unsigned_range(&av, 0, av.len(), 0xffff_ffff);
            let y = parse_unsigned_range(&bv, 0, bv.len(), 0xffff_ffff);
            assert(av@.subrange(0, av@.len() as int) =~= a@);
            assert(bv@.subrange(0, bv@.len() as int) =~= b@);
            match (x, y) {
                (Some(x), Some(y)) => Some(Some(TimeRange { start_bar: x as u32, end_bar: y as u32 })),
                _ => Some(None),
            }
        },
        PairCapture::Groups(_, _) => Some(None),
    }
}

fn range_from_pattern(pattern: &str, lower: &str) -> (r: Option<Option<TimeRange>>)
    ensures
        r == range_by_pattern(pattern@, lower@),
{
    let c = regex_pair(pattern, lower);
    range_from_capture(&c)
}

/// The bar range named by the lower-cased command.
pub fn parse_time_range(lower: &str) -> (r: Option<TimeRange>)
    ensures
        r == spec_time_range(lower@),
{
    proof {
        reveal_strlit("bars?\\s*(\\d+)\\s*(?:-|to|through)\\s*(\\d+)");
        reveal_strlit("measures?\\s*(\\d+)\\s*(?:-|to|through)\\s*(\\d+)");
    }
    match range_from_pattern("bars?\\s*(\\d+)\\s*(?:-|to|through)\\s*(\\d+)", lower) {
        Some(r) => r,
        None => match range_from_pattern("measures?\\s*(\\d+)\\s*(?:-|to|through)\\s*(\\d+)", lower) {
            Some(r) => r,
            None => None,
        },
    }
}

/// A restore command names both "restore" and "previous".
pub open spec fn restore_mode(l: Seq<char>) -> bool {
    has(l, "restore") && has(l, "previous")
}

/// A command that mentions "suggest" asks for options rather than a write.
pub open spec fn suggest_mode(l: Seq<char>) -> bool {
    has(l, "what do you suggest") || has(l, "suggest")
}

pub open spec fn spec_operation_class(l: Seq<char>) -> Option<OperationClass> {
    if restore_mode(l) {
        Some(OperationClass::TrimExistingRange)
    } else if has(l, "flat") || has(l, "hold") {
        Some(OperationClass::SetFlatRange)
    } else if has(l, "trim") {
        Some(OperationClass::TrimExistingRange)
    } else if has(l, "primary") || has(l, "secondary") || has(l, "counterpoint") || has(
        l,
        "accompaniment",
    ) || has(l, "rest of orchestra") || has(l, "rest of the orchestra") {
        Some(OperationClass::WriteNewCurve)
    } else if has(l, "soft") || has(l, "loud") || has(l, "presence") || has(l, "air") || has(
        l,
        "covered",
    ) {
        Some(OperationClass::WriteNewCurve)
    } else {
        None
    }
}

/// The operation a command asks for: a restore of the previous state trims
/// the existing range; otherwise "flat" or "hold" sets a flat range, "trim"
/// trims, and a mention of a role ("primary", "accompaniment", ...) or of a
/// level or tone ("soft", "loud", "presence", "air", "covered") writes a new
/// curve; a command with none of these words names no operation.
pub proof fn lemma_operation_words(l: Seq<char>)
    ensures
        restore_mode(l) ==> spec_operation_class(l) == Some(OperationClass::TrimExistingRange),
        !restore_mode(l) && (has(l, "flat") || has(l, "hold")) ==> spec_operation_class(l) == Some(
            OperationClass::SetFlatRange,
        ),
        !restore_mode(l) && !(has(l, "flat")) && !(has(l, "hold")) && has(l, "trim")
            ==> spec_operation_class(l) == Some(OperationClass::TrimExistingRange),
        !restore_mode(l) && !(has(l, "flat")) && !(has(l, "hold")) && !(has(l, "trim")) && (has(
            l,
            "soft",
        ) || has(l, "loud") || has(l, "accompaniment") || has(l, "primary")) ==> spec_operation_class(
            l,
        ) == Some(OperationClass::WriteNewCurve),
        spec_operation_class(l) is None <==> (!restore_mode(l) && !(has(l, "flat")) && !(has(l, "hold"))
            && !(has(l, "trim")) && !(has(l, "primary")) && !(has(l, "secondary")) && !(has(l, "counterpoint")) && !(has(l, "accompaniment")) && !(has(l, "rest of orchestra")) && !(has(l, "rest of the orchestra")) && !(has(l, "soft")) && !(has(l, "loud")) && !(has(l, "presence")) && !(has(l, "air")) && !(has(l, "covered"))),
{
}

/// The targets of a command: the aliases it names, or the first violins when
/// it names none but mentions violins.
pub open spec fn spec_targets(l: Seq<char>, entries: Seq<(Seq<char>, Seq<char>)>) -> Seq<
    Seq<char>,
> {
    let t = resolved_targets(l, entries);
    if t.len() == 0 && has(l, "violin") {
        seq!["STR_HI"@]
    } else {
        t
    }
}

pub open spec fn mentions_vague_words(l: Seq<char>) -> bool {
    has(l, "there") || has(l, "them") || has(l, "something") || has(l, "fix it") || has(
        l,
        "do something",
    )
}

/// The reasons a command cannot be executed as given, in the order they are
/// found.
pub open spec fn spec_reason_codes(l: Seq<char>, entries: Seq<(Seq<char>, Seq<char>)>) -> Seq<
    ReasonCode,
> {
    let no_targets = spec_targets(l, entries).len() == 0;
    let r1 = if spec_time_range(l) is None {
        seq![ReasonCode::MissingTimeWindow]
    } else {
        Seq::empty()
    };
    let r2 = if no_targets {
        r1.push(ReasonCode::MissingTarget)
    } else {
        r1
    };
    let r3 = if spec_operation_class(l) is None {
        r2.push(ReasonCode::MissingOperation)
    } else {
        r2
    };
    if mentions_vague_words(l) && no_targets {
        r3.push(ReasonCode::AmbiguousTarget)
    } else {
        r3
    }
}

pub open spec fn spec_decision(l: Seq<char>, entries: Seq<(Seq<char>, Seq<char>)>) -> Decision {
    if suggest_mode(l) {
        Decision::Suggest
    } else if restore_mode(l) {
        if spec_targets(l, entries).len() == 0 {
            Decision::Clarify
        } else {
            Decision::Execute
        }
    } else if spec_reason_codes(l, entries).len() > 0 {
        Decision::Clarify
    } else {
        Decision::Execute
    }
}

/// How a command is decided: a command that asks for suggestions gets them;
/// a restore of the previous state executes exactly when it names a target;
/// any other command executes exactly when it names a bar range, a target
/// and an operation, and is otherwise asked to clarify. No command is
/// rejected. The reasons given list what is missing: the bar range, the
/// target, the operation, in that order, and an ambiguous reference when a
/// vague word stands where no target is named.
pub proof fn lemma_decision_rules(l: Seq<char>, entries: Seq<(Seq<char>, Seq<char>)>)
    ensures
        suggest_mode(l) ==> spec_decision(l, entries) == Decision::Suggest,
        !suggest_mode(l) && restore_mode(l) ==> (spec_decision(l, entries) == Decision::Execute
            <==> spec_targets(l, entries).len() > 0),
        !suggest_mode(l) && !restore_mode(l) ==> (spec_decision(l, entries) == Decision::Execute
            <==> (spec_time_range(l) is Some && spec_targets(l, entries).len() > 0
            && spec_operation_class(l) is Some)),
        spec_decision(l, entries) != Decision::Reject,
        !suggest_mode(l) && spec_decision(l, entries) != Decision::Execute ==> spec_decision(
            l,
            entries,
        ) == Decision::Clarify,
        spec_reason_codes(l, entries).contains(ReasonCode::MissingTimeWindow) <==> spec_time_range(
            l,
        ) is None,
        spec_reason_codes(l, entries).contains(ReasonCode::MissingTarget) <==> spec_targets(
            l,
            entries,
        ).len() == 0,
        spec_reason_codes(l, entries).contains(ReasonCode::MissingOperation)
            <==> spec_operation_class(l) is None,
        spec_reason_codes(l, entries).contains(ReasonCode::AmbiguousTarget) <==> (
        mentions_vague_words(l) && spec_targets(l, entries).len() == 0),
{
    let no_t = spec_targets(l, entries).len() == 0;
    let r1 = if spec_time_range(l) is None {
        seq![ReasonCode::MissingTimeWindow]
    } else {
        Seq::empty()
    };
    let r2 = if no_t {
        r1.push(ReasonCode::MissingTarget)
    } else {
        r1
    };
    let r3 = if spec_operation_class(l) is None {
        r2.push(ReasonCode::MissingOperation)
    } else {
        r2
    };
    let r4 = spec_reason_codes(l, entries);
    assert(r1.contains(ReasonCode::MissingTimeWindow) <==> spec_time_range(l) is None) by {
        if spec_time_range(l) is None {
            assert(r1[0] == ReasonCode::MissingTimeWindow);
        }
    }
    assert(r2.contains(ReasonCode::MissingTarget) <==> no_t) by {
        if no_t {
            assert(r2[r2.len() - 1] == ReasonCode::MissingTarget);
        }
    }
    assert(r3.contains(ReasonCode::MissingOperation) <==> spec_operation_class(l) is None) by {
        if spec_operation_class(l) is None {
            assert(r3[r3.len() - 1] == ReasonCode::MissingOperation);
        }
    }
    assert(r4.contains(ReasonCode::AmbiguousTarget) <==> (mentions_vague_words(l) && no_t)) by {
        if mentions_vague_words(l) && no_t {
            assert(r4[r4.len() - 1] == ReasonCode::AmbiguousTarget);
        }
    }
    assert(r4.contains(ReasonCode::MissingTimeWindow) <==> r1.contains(
        ReasonCode::MissingTimeWindow,
    )) by {
        if r4.contains(ReasonCode::MissingTimeWindow) {
            let k = choose|k: int| 0 <= k < r4.len() && r4[k] == ReasonCode::MissingTimeWindow;
            assert(r1.len() <= 1);
        }
        if r1.contains(ReasonCode::MissingTimeWindow) {
            let k = choose|k: int| 0 <= k < r1.len() && r1[k] == ReasonCode::MissingTimeWindow;
            assert(r4[k] == r1[k]);
        }
    }
    assert(r4.contains(ReasonCode::MissingTarget) <==> r2.contains(ReasonCode::MissingTarget)) by {
        if r2.contains(ReasonCode::MissingTarget) {
            let k = choose|k: int| 0 <= k < r2.len() && r2[k] == ReasonCode::MissingTarget;
            assert(r4[k] == r2[k]);
        }
    }
    assert(r4.contains(ReasonCode::MissingOperation) <==> r3.contains(
        ReasonCode::MissingOperation,
    )) by {
        if r3.contains(ReasonCode::MissingOperation) {
            let k = choose|k: int| 0 <= k < r3.len() && r3[k] == ReasonCode::MissingOperation;
            assert(r4[k] == r3[k]);
        }
    }
    assert(r4.len() > 0 <==> (spec_time_range(l) is None || no_t || spec_operation_class(l) is None)) by {
        if spec_time_range(l) is None {
            assert(r1.len() == 1);
        }
    }
}

/// Confidence, in hundredths, attached to each decision.
pub open spec fn confidence_pct_for(d: Decision) -> u32 {
    match d {
        Decision::Execute => 92,
        Decision::Suggest => 90,
        Decision::Clarify => 55,
        Decision::Reject => 20,
    }
}

/// The whole intent `parse_utterance` derives from a command and an alias table.
pub open spec fn intent_matches(
    i: Intent,
    text: Seq<char>,
    entries: Seq<(Seq<char>, Seq<char>)>,
) -> bool {
    let l = spec_to_lowercase(text);
    &&& i.source_text@ == text
    &&& i.time_range == spec_time_range(l)
    &&& strings_view(i.targets@) == spec_targets(l, entries)
    &&& i.operation_class == spec_operation_class(l)
    &&& i.reason_codes@ == spec_reason_codes(l, entries)
    &&& i.decision == spec_decision(l, entries)
    &&& i.confidence_pct == confidence_pct_for(i.decision)
    &&& i.requires_confirmation == (i.decision == Decision::Suggest || i.targets.len() > 2)
    &&& i.strength == spec_strength(l)
}

fn operation_class_of(l: &Vec<char>) -> (c: Option<OperationClass>)
    ensures
        c == spec_operation_class(l@),
{
    if contains_str(l, "restore") && contains_str(l, "previous") {
        Some(OperationClass::TrimExistingRange)
    } else if contains_str(l, "flat") || contains_str(l, "hold") {
        Some(OperationClass::SetFlatRange)
    } else if contains_str(l, "trim") {
        Some(OperationClass::TrimExistingRange)
    } else if contains_str(l, "primary") || contains_str(l, "secondary") || contains_str(
        l,
        "counterpoint",
    ) || contains_str(l, "accompaniment") || contains_str(l, "rest of orchestra")
        || contains_str(l, "rest of the orchestra") {
        Some(OperationClass::WriteNewCurve)
    } else if contains_str(l, "soft") || contains_str(l, "loud") || contains_str(l, "presence")
        || contains_str(l, "air") || contains_str(l, "covered") {
        Some(OperationClass::WriteNewCurve)
    } else {
        None
    }
}

/// Parses a command against the alias table.
pub fn parse_utterance(text: &str, aliases: &AliasTable) -> (intent: Intent)
    ensures
        intent_matches(intent, text@, aliases.view()),
{
    let lower_string = to_lowercase(text);
    let lower = chars_of(lower_string.as_str());
    let ghost l = lower@;
    let mut reason_codes: Vec<ReasonCode> = Vec::new();

    let time_range = parse_time_range(lower_string.as_str());
    if time_range.is_none() {
        reason_codes.push(ReasonCode::MissingTimeWindow);
    }

    let mut targets = resolve_targets(&lower, aliases);
    if targets.len() == 0 {
        if contains_str(&lower, "violin") {
            targets.push(String::from_str("STR_HI"));
        }
    }
    assert(strings_view(targets@) =~= spec_targets(l, aliases.view()));
    if targets.len() == 0 {
        reason_codes.push(ReasonCode::MissingTarget);
    }

    let suggest = contains_str(&lower, "what do you suggest") || contains_str(&lower, "suggest");
    let restore = contains_str(&lower, "restore") && contains_str(&lower, "previous");

    let operation_class = operation_class_of(&lower);
    if operation_class.is_none() {
        reason_codes.push(ReasonCode::MissingOperation);
    }

    let vague = contains_str(&lower, "there") || contains_str(&lower, "them") || contains_str(
        &lower,
        "something",
    ) || contains_str(&lower, "fix it") || contains_str(&lower, "do something");
    if vague && targets.len() == 0 {
        reason_codes.push(ReasonCode::AmbiguousTarget);
    }
    assert(reason_codes@ =~= spec_reason_codes(l, aliases.view()));

    let decision = if suggest {
        Decision::Suggest
    } else if restore {
        if targets.len() == 0 {
            Decision::Clarify
        } else {
            Decision::Execute
        }
    } else if reason_codes.len() > 0 {
        Decision::Clarify
    } else {
        Decision::Execute
    };

    let confidence_pct: u32 = match decision {
        Decision::Execute => 92,
        Decision::Suggest => 90,
        Decision::Clarify => 55,
        Decision::Reject => 20,
    };

    let requires_confirmation = decision == Decision::Suggest || targets.len() > 2;
    let strength = parse_strength(&lower);
    let source_text = String::from_str(text);

    Intent {
        source_text,
        decision,
        operation_class,
        targets,
        time_range,
        strength,
        confidence_pct,
        requires_confirmation,
        reason_codes,
    }
}

} // verus!
