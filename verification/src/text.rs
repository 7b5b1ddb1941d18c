//! Character-level text handling shared by the command parsers: substring
//! search, whitespace trimming, ASCII case folding and decimal numbers.
use vstd::prelude::*;
use vstd::string::*;

verus! {

/// `pat` occurs in `hay` starting at position `i`.
pub open spec fn occurs_at(hay: Seq<char>, pat: Seq<char>, i: int) -> bool {
    0 <= i && i + pat.len() <= hay.len() && hay.subrange(i, i + pat.len()) == pat
}

/// `pat` occurs somewhere in `hay` as a contiguous run of characters
/// (what `str::contains` answers for a string pattern).
pub open spec fn seq_contains(hay: Seq<char>, pat: Seq<char>) -> bool {
    exists|i: int| #[trigger] occurs_at(hay, pat, i)
}

/// What `str::to_lowercase` returns for a string (Unicode lower-case mapping).
pub uninterp spec fn spec_to_lowercase(s: Seq<char>) -> Seq<char>;

/// Calls `str::to_lowercase`. The contract only names its result: the full
/// Unicode case mapping (with its context-dependent rules) is not restated.
#[verifier::external_body]
pub(crate) fn to_lowercase(s: &str) -> (lower: String)
    ensures
        lower@ == spec_to_lowercase(s@),
{
    s.to_lowercase()
}

/// Calls `String::push`, which appends one character.
#[verifier::external_body]
pub(crate) fn push_char(s: &mut String, c: char)
    ensures
        final(s)@ == old(s)@.push(c),
{
    s.push(c)
}

/// The characters of `s`, in order.
pub fn chars_of(s: &str) -> (v: Vec<char>)
    ensures
        v@ == s@,
{
    let n = s.unicode_len();
    let mut v: Vec<char> = Vec::new();
    let mut i: usize = 0;
    while i < n
        invariant
            n == s@.len(),
            i <= n,
            v@ == s@.subrange(0, i as int),
        decreases n - i,
    {
        let c = s.get_char(i);
        v.push(c);
        i += 1;
        assert(v@ =~= s@.subrange(0, i as int));
    }
    assert(v@ =~= s@);
    v
}

/// A string holding exactly the characters of `v`.
pub fn string_from_chars(v: &Vec<char>) -> (s: String)
    ensures
        s@ == v@,
{
    let mut s = String::new();
    let mut i: usize = 0;
    while i < v.len()
        invariant
            i <= v.len(),
            s@ == v@.subrange(0, i as int),
        decreases v.len() - i,
    {
        push_char(&mut s, v[i]);
        i += 1;
        assert(s@ =~= v@.subrange(0, i as int));
    }
    assert(s@ =~= v@);
    s
}

/// A string holding exactly the characters of `v[from..to]`.
pub fn string_from_range(v: &Vec<char>, from: usize, to: usize) -> (s: String)
    requires
        from <= to <= v.len(),
    ensures
        s@ == v@.subrange(from as int, to as int),
{
    let mut s = String::new();
    let mut i: usize = from;
    while i < to
        invariant
            from <= i <= to <= v.len(),
            s@ == v@.subrange(from as int, i as int),
        decreases to - i,
    {
        push_char(&mut s, v[i]);
        i += 1;
        assert(s@ =~= v@.subrange(from as int, i as int));
    }
    s
}

/// Appends a string slice to a string.
pub fn append_str(s: &mut String, t: &str)
    ensures
        final(s)@ == old(s)@ + t@,
{
    s.append(t);
}

fn matches_at(hay: &Vec<char>, pat: &Vec<char>, i: usize) -> (m: bool)
    requires
        i + pat.len() <= hay.len(),
    ensures
        m == occurs_at(hay@, pat@, i as int),
{
    let mut j: usize = 0;
    while j < pat.len()
        invariant
            j <= pat.len(),
            i + pat.len() <= hay.len(),
            forall|k: int| 0 <= k < j ==> hay@[i + k] == pat@[k],
        decreases pat.len() - j,
    {
        if hay[i + j] != pat[j] {
            assert(hay@.subrange(i as int, i + pat.len())[j as int] != pat@[j as int]);
            return false;
        }
        j += 1;
    }
    assert(hay@.subrange(i as int, i + pat.len()) =~= pat@);
    true
}

/// Whether `pat` occurs in `hay`.
pub fn contains_chars(hay: &Vec<char>, pat: &Vec<char>) -> (found: bool)
    ensures
        found == seq_contains(hay@, pat@),
{
    if pat.len() > hay.len() {
        assert forall|k: int| !#[trigger] occurs_at(hay@, pat@, k) by {}
        return false;
    }
    let last = hay.len() - pat.len();
    let mut i: usize = 0;
    loop
        invariant
            last == hay.len() - pat.len(),
            pat.len() <= hay.len(),
            i <= last,
            forall|k: int| 0 <= k < i ==> !#[trigger] occurs_at(hay@, pat@, k),
        decreases last - i,
    {
        if matches_at(hay, pat, i) {
            return true;
        }
        if i == last {
            assert forall|k: int| !#[trigger] occurs_at(hay@, pat@, k) by {
                if 0 <= k < i {
                } else if k == i {
                } else {
                }
            }
            return false;
        }
        i += 1;
    }
}

/// Whether the string slice `pat` occurs in `hay`.
pub fn contains_str(hay: &Vec<char>, pat: &str) -> (found: bool)
    ensures
        found == seq_contains(hay@, pat@),
{
    let p = chars_of(pat);
    contains_chars(hay, &p)
}

/// The Unicode `White_Space` property, which `char::is_whitespace` and
/// `str::trim` test.
pub open spec fn is_white_space(c: char) -> bool {
    ||| '\u{9}' <= c <= '\u{d}'
    ||| c == ' '
    ||| c == '\u{85}'
    ||| c == '\u{a0}'
    ||| c == '\u{1680}'
    ||| '\u{2000}' <= c <= '\u{200a}'
    ||| c == '\u{2028}'
    ||| c == '\u{2029}'
    ||| c == '\u{202f}'
    ||| c == '\u{205f}'
    ||| c == '\u{3000}'
}

pub fn is_whitespace(c: char) -> (w: bool)
    ensures
        w == is_white_space(c),
{
    ('\u{9}' <= c && c <= '\u{d}') || c == ' ' || c == '\u{85}' || c == '\u{a0}' || c
        == '\u{1680}' || ('\u{2000}' <= c && c <= '\u{200a}') || c == '\u{2028}' || c
        == '\u{2029}' || c == '\u{202f}' || c == '\u{205f}' || c == '\u{3000}'
}

/// The bounds `(a, b)` of `s[from..to]` once leading and trailing white space
/// is removed (what `str::trim` keeps).
pub open spec fn trimmed_bounds_ok(s: Seq<char>, from: int, to: int, a: int, b: int) -> bool {
    &&& from <= a <= b <= to
    &&& forall|k: int| from <= k < a ==> is_white_space(#[trigger] s[k])
    &&& forall|k: int| b <= k < to ==> is_white_space(#[trigger] s[k])
    &&& a < to ==> !is_white_space(s[a])
    &&& a < b ==> !is_white_space(s[b - 1])
}

/// Trims white space from both ends of `v[from..to]`.
pub fn trim_range(v: &Vec<char>, from: usize, to: usize) -> (r: (usize, usize))
    requires
        from <= to <= v.len(),
    ensures
        trimmed_bounds_ok(v@, from as int, to as int, r.0 as int, r.1 as int),
{
    let mut a = from;
    while a < to && is_whitespace(v[a])
        invariant
            from <= a <= to <= v.len(),
            forall|k: int| from <= k < a ==> is_white_space(#[trigger] v@[k]),
        decreases to - a,
    {
        a += 1;
    }
    let mut b = to;
    while b > a && is_whitespace(v[b - 1])
        invariant
            from <= a <= b <= to <= v.len(),
            forall|k: int| b <= k < to ==> is_white_space(#[trigger] v@[k]),
            a < to ==> !is_white_space(v@[a as int]),
        decreases b - a,
    {
        b -= 1;
    }
    (a, b)
}

/// The value of a non-empty run of ASCII decimal digits.
pub open spec fn digits_value(d: Seq<char>) -> nat
    decreases d.len(),
{
    if d.len() == 0 {
        0
    } else {
        digits_value(d.drop_last()) * 10 + ((d.last() as nat) - ('0' as nat)) as nat
    }
}

pub open spec fn all_ascii_digits(d: Seq<char>) -> bool {
    forall|k: int| 0 <= k < d.len() ==> '0' <= #[trigger] d[k] <= '9'
}

/// What `str::parse` gives for an unsigned integer type whose largest value is
/// `max`: an optional leading `+`, then one or more ASCII digits whose value
/// does not exceed `max`.
pub open spec fn parse_unsigned(s: Seq<char>, max: nat) -> Option<nat> {
    let d = if s.len() > 0 && s[0] == '+' { s.drop_first() } else { s };
    if d.len() > 0 && all_ascii_digits(d) && digits_value(d) <= max {
        Some(digits_value(d))
    } else {
        None
    }
}

proof fn lemma_digits_value_prefix(d: Seq<char>, i: int)
    requires
        0 <= i <= d.len(),
        all_ascii_digits(d),
    ensures
        digits_value(d.subrange(0, i)) <= digits_value(d),
    decreases d.len(),
{
    if i < d.len() {
        assert(d.drop_last() =~= d.subrange(0, d.len() - 1));
        if i < d.len() - 1 {
            assert(d.drop_last().subrange(0, i) =~= d.subrange(0, i));
        } else {
            assert(d.drop_last() =~= d.subrange(0, i));
        }
        assert(all_ascii_digits(d.drop_last())) by {
            assert forall|k: int| 0 <= k < d.drop_last().len() implies '0' <= #[trigger] d.drop_last()[k] <= '9' by {
                assert(d.drop_last()[k] == d[k]);
            }
        }
        lemma_digits_value_prefix(d.drop_last(), i);
    } else {
        assert(d.subrange(0, i) =~= d);
    }
}

/// Parses `v[from..to]` as an unsigned number no larger than `max`.
pub fn parse_unsigned_range(v: &Vec<char>, from: usize, to: usize, max: u64) -> (r: Option<u64>)
    requires
        from <= to <= v.len(),
        max >= 9,
    ensures
        r matches Some(x) ==> parse_unsigned(v@.subrange(from as int, to as int), max as nat)
            == Some(x as nat),
        r is None ==> parse_unsigned(v@.subrange(from as int, to as int), max as nat) is None,
{
    let ghost s = v@.subrange(from as int, to as int);
    let mut start = from;
    if start < to && v[start] == '+' {
        start += 1;
    }
    let ghost d = v@.subrange(start as int, to as int);
    assert(d =~= (if s.len() > 0 && s[0] == '+' { s.drop_first() } else { s }));
    if start >= to {
        return None;
    }
    let mut acc: u64 = 0;
    let mut i = start;
    while i < to
        invariant
            from <= start <= i <= to <= v.len(),
            start < to,
            d == v@.subrange(start as int, to as int),
            s == v@.subrange(from as int, to as int),
            d == (if s.len() > 0 && s[0] == '+' { s.drop_first() } else { s }),
            forall|k: int| start <= k < i ==> '0' <= #[trigger] v@[k] <= '9',
            acc as nat == digits_value(v@.subrange(start as int, i as int)),
            acc <= max,
            max >= 9,
        decreases to - i,
    {
        let c = v[i];
        if c < '0' || c > '9' {
            assert(d[i - start] == c);
            assert(!('0' <= d[i - start] <= '9'));
            assert(!all_ascii_digits(d));
            return None;
        }
        let digit: u64 = (c as u32 - '0' as u32) as u64;
        assert(v@.subrange(start as int, i + 1).drop_last() =~= v@.subrange(start as int, i as int));
        if acc > (max - digit) / 10 {
            proof {
                assert(acc * 10 + digit > max) by (nonlinear_arith)
                    requires
                        acc > (max - digit) / 10,
                        digit <= max,
                ;
                let p = v@.subrange(start as int, i + 1);
                assert(p.last() == c);
                assert(digits_value(p) == acc * 10 + digit);
                if all_ascii_digits(d) {
                    lemma_digits_value_prefix(d, (i + 1 - start) as int);
                    assert(d.subrange(0, i + 1 - start) =~= p);
                    assert(digits_value(d) > max);
                }
            }
            return None;
        }
        acc = acc * 10 + digit;
        i += 1;
    }
    assert(v@.subrange(start as int, i as int) =~= d);
    Some(acc)
}

} // verus!

verus! {

pub open spec fn digit_char(d: nat) -> char {
    ((d % 10) + ('0' as nat)) as char
}

/// The decimal representation of `n`, without leading zeros.
pub open spec fn decimal_text(n: nat) -> Seq<char>
    decreases n,
{
    if n < 10 {
        seq![digit_char(n)]
    } else {
        decimal_text(n / 10).push(digit_char(n % 10))
    }
}

/// Appends the decimal representation of `n` to `s`.
pub fn push_decimal(s: &mut String, n: u64)
    ensures
        final(s)@ == old(s)@ + decimal_text(n as nat),
    decreases n,
{
    if n >= 10 {
        push_decimal(s, n / 10);
    }
    let d: u32 = (n % 10) as u32;
    let c: char = if d == 0 { '0' } else if d == 1 { '1' } else if d == 2 { '2' } else if d == 3 {
        '3'
    } else if d == 4 { '4' } else if d == 5 { '5' } else if d == 6 { '6' } else if d == 7 {
        '7'
    } else if d == 8 { '8' } else { '9' };
    assert(c == digit_char(n as nat));
    push_char(s, c);
    assert(s@ =~= old(s)@ + decimal_text(n as nat)) by {
        if n >= 10 {
            assert(decimal_text(n as nat) == decimal_text((n / 10) as nat).push(digit_char((n % 10) as nat)));
        }
    }
}

} // verus!

verus! {

/// `s` without its leading white space.
pub open spec fn trim_start(s: Seq<char>) -> Seq<char>
    decreases s.len(),
{
    if s.len() > 0 && is_white_space(s[0]) {
        trim_start(s.drop_first())
    } else {
        s
    }
}

/// `s` without its trailing white space.
pub open spec fn trim_end(s: Seq<char>) -> Seq<char>
    decreases s.len(),
{
    if s.len() > 0 && is_white_space(s.last()) {
        trim_end(s.drop_last())
    } else {
        s
    }
}

/// `s` without leading and trailing white space (what `str::trim` returns).
pub open spec fn trim(s: Seq<char>) -> Seq<char> {
    trim_end(trim_start(s))
}

proof fn lemma_trim_start_skips(s: Seq<char>, a: int)
    requires
        0 <= a <= s.len(),
        forall|k: int| 0 <= k < a ==> is_white_space(#[trigger] s[k]),
        a < s.len() ==> !is_white_space(s[a]),
    ensures
        trim_start(s) == s.subrange(a, s.len() as int),
    decreases a,
{
    if a == 0 {
        assert(s.subrange(0, s.len() as int) =~= s);
    } else {
        let t = s.drop_first();
        assert forall|k: int| 0 <= k < a - 1 implies is_white_space(#[trigger] t[k]) by {
            assert(t[k] == s[k + 1]);
        }
        lemma_trim_start_skips(t, a - 1);
        assert(t.subrange(a - 1, t.len() as int) =~= s.subrange(a, s.len() as int));
    }
}

proof fn lemma_trim_end_skips(s: Seq<char>, b: int)
    requires
        0 <= b <= s.len(),
        forall|k: int| b <= k < s.len() ==> is_white_space(#[trigger] s[k]),
        b > 0 ==> !is_white_space(s[b - 1]),
    ensures
        trim_end(s) == s.subrange(0, b),
    decreases s.len() - b,
{
    if b == s.len() {
        assert(s.subrange(0, b) =~= s);
    } else {
        let t = s.drop_last();
        assert forall|k: int| b <= k < t.len() implies is_white_space(#[trigger] t[k]) by {
            assert(t[k] == s[k]);
        }
        lemma_trim_end_skips(t, b);
        assert(t.subrange(0, b) =~= s.subrange(0, b));
    }
}

/// The bounds `trim_range` finds delimit exactly the trimmed text.
pub proof fn lemma_trimmed_bounds(s: Seq<char>, from: int, to: int, a: int, b: int)
    requires
        0 <= from <= to <= s.len(),
        trimmed_bounds_ok(s, from, to, a, b),
    ensures
        s.subrange(a, b) == trim(s.subrange(from, to)),
{
    let piece = s.subrange(from, to);
    let ai = a - from;
    assert forall|k: int| 0 <= k < ai implies is_white_space(#[trigger] piece[k]) by {
        assert(piece[k] == s[from + k]);
    }
    if a < to {
        assert(piece[ai] == s[a]);
    }
    lemma_trim_start_skips(piece, ai);
    let rest = piece.subrange(ai, piece.len() as int);
    assert(rest =~= s.subrange(a, to));
    let bi = b - a;
    assert forall|k: int| bi <= k < rest.len() implies is_white_space(#[trigger] rest[k]) by {
        assert(rest[k] == s[a + k]);
    }
    if bi > 0 {
        assert(rest[bi - 1] == s[b - 1]);
    }
    lemma_trim_end_skips(rest, bi);
    assert(rest.subrange(0, bi) =~= s.subrange(a, b));
}

/// The position of the first `c` in `s`.
pub open spec fn first_index_of(s: Seq<char>, c: char) -> Option<int>
    decreases s.len(),
{
    if s.len() == 0 {
        None
    } else {
        match first_index_of(s.drop_last(), c) {
            Some(i) => Some(i),
            None => if s.last() == c {
                Some(s.len() - 1)
            } else {
                None
            },
        }
    }
}

pub proof fn lemma_first_index_of(s: Seq<char>, c: char, n: int)
    requires
        0 <= n <= s.len(),
        forall|j: int| 0 <= j < n ==> s[j] != c,
        n < s.len() ==> s[n] == c,
    ensures
        first_index_of(s, c) == (if n < s.len() { Some(n) } else { None::<int> }),
    decreases s.len(),
{
    if s.len() > 0 {
        let t = s.drop_last();
        if n < s.len() - 1 {
            assert forall|j: int| 0 <= j < n implies t[j] != c by {
                assert(t[j] == s[j]);
            }
            assert(t[n] == s[n]);
            lemma_first_index_of(t, c, n);
        } else {
            assert forall|j: int| 0 <= j < s.len() - 1 implies t[j] != c by {
                assert(t[j] == s[j]);
            }
            lemma_first_index_of(t, c, s.len() - 1);
        }
    }
}

/// The position of the first `c` in `v[from..to]`, or `to` when there is none.
pub fn find_char(v: &Vec<char>, c: char, from: usize, to: usize) -> (i: usize)
    requires
        from <= to <= v.len(),
    ensures
        from <= i <= to,
        first_index_of(v@.subrange(from as int, to as int), c) == (if i < to {
            Some(i - from)
        } else {
            None::<int>
        }),
{
    let mut i = from;
    while i < to && v[i] != c
        invariant
            from <= i <= to <= v.len(),
            forall|j: int| from <= j < i ==> v@[j] != c,
        decreases to - i,
    {
        i += 1;
    }
    proof {
        let s = v@.subrange(from as int, to as int);
        assert forall|j: int| 0 <= j < i - from implies s[j] != c by {
            assert(s[j] == v@[from + j]);
        }
        if i < to {
            assert(s[i - from] == v@[i as int]);
        }
        lemma_first_index_of(s, c, i - from);
    }
    i
}

/// `a` and `b` are equal once ASCII letters are folded to lower case (what
/// `str::eq_ignore_ascii_case` tests).
pub open spec fn ascii_fold(c: char) -> char {
    if 'A' <= c <= 'Z' {
        ((c as u32) + 32) as char
    } else {
        c
    }
}

pub open spec fn eq_ignore_ascii_case(a: Seq<char>, b: Seq<char>) -> bool {
    a.len() == b.len() && forall|k: int| 0 <= k < a.len() ==> ascii_fold(#[trigger] a[k]) == ascii_fold(b[k])
}

fn fold_char(c: char) -> (d: char)
    ensures
        d == ascii_fold(c),
{
    if 'A' <= c && c <= 'Z' {
        let u: u32 = c as u32 + 32;
        assert(u <= 0x7a);
        if u == 0x61 { 'a' } else if u == 0x62 { 'b' } else if u == 0x63 { 'c' } else if u == 0x64 {
            'd'
        } else if u == 0x65 { 'e' } else if u == 0x66 { 'f' } else if u == 0x67 { 'g' } else if u
            == 0x68 { 'h' } else if u == 0x69 { 'i' } else if u == 0x6a { 'j' } else if u == 0x6b {
            'k'
        } else if u == 0x6c { 'l' } else if u == 0x6d { 'm' } else if u == 0x6e { 'n' } else if u
            == 0x6f { 'o' } else if u == 0x70 { 'p' } else if u == 0x71 { 'q' } else if u == 0x72 {
            'r'
        } else if u == 0x73 { 's' } else if u == 0x74 { 't' } else if u == 0x75 { 'u' } else if u
            == 0x76 { 'v' } else if u == 0x77 { 'w' } else if u == 0x78 { 'x' } else if u == 0x79 {
            'y'
        } else { 'z' }
    } else {
        c
    }
}

pub fn eq_ignore_ascii_case_chars(a: &Vec<char>, b: &Vec<char>) -> (r: bool)
    ensures
        r == eq_ignore_ascii_case(a@, b@),
{
    if a.len() != b.len() {
        return false;
    }
    let mut i: usize = 0;
    while i < a.len()
        invariant
            a.len() == b.len(),
            i <= a.len(),
            forall|k: int| 0 <= k < i ==> ascii_fold(#[trigger] a@[k]) == ascii_fold(b@[k]),
        decreases a.len() - i,
    {
        if fold_char(a[i]) != fold_char(b[i]) {
            return false;
        }
        i += 1;
    }
    true
}

} // verus!
