//! Fresh identifiers and the current time, as the rest of the library
//! records them.
use vstd::prelude::*;
use vstd::string::*;

use crate::text::append_str;

verus! {

/// A lower-case hexadecimal digit.
pub open spec fn is_hex_lower(c: char) -> bool {
    ('0' <= c <= '9') || ('a' <= c <= 'f')
}

/// The text of a random (version 4) UUID in its hyphenated lower-case form:
/// 8-4-4-4-12 hex digits, the version digit `4`, the variant digit one of
/// `8`, `9`, `a`, `b`.
pub open spec fn uuid_v4_shape(s: Seq<char>) -> bool {
    &&& s.len() == 36
    &&& forall|i: int|
        0 <= i < 36 ==> (if i == 8 || i == 13 || i == 18 || i == 23 {
            #[trigger] s[i] == '-'
        } else {
            is_hex_lower(s[i])
        })
    &&& s[14] == '4'
    &&& (s[19] == '8' || s[19] == '9' || s[19] == 'a' || s[19] == 'b')
}

/// Calls `uuid::Uuid::new_v4` and formats the result with `to_string`. The
/// value is random: the contract states only the textual shape that the
/// crate's hyphenated lower-case formatting gives every version-4 UUID.
#[verifier::external_body]
pub(crate) fn uuid_v4_text() -> (s: String)
    ensures
        uuid_v4_shape(s@),
{
    uuid::Uuid::new_v4().to_string()
}

/// A fresh identifier: `prefix` followed by a random UUID.
pub fn fresh_id(prefix: &str) -> (id: String)
    ensures
        id@.len() == prefix@.len() + 36,
        id@.subrange(0, prefix@.len() as int) == prefix@,
        uuid_v4_shape(id@.subrange(prefix@.len() as int, id@.len() as int)),
{
    let u = uuid_v4_text();
    let mut id = String::from_str(prefix);
    append_str(&mut id, u.as_str());
    assert(id@.subrange(0, prefix@.len() as int) =~= prefix@);
    assert(id@.subrange(prefix@.len() as int, id@.len() as int) =~= u@);
    id
}

/// A point in time: whole seconds since the Unix epoch and the nanoseconds
/// past that second.
#[derive(Debug, Clone, Copy, PartialEq, Eq, Structural)]
pub struct UtcInstant {
    pub secs: i64,
    pub nanos: u32,
}

/// Calls `chrono::Utc::now` and reads the seconds and sub-second
/// nanoseconds of the result. The time is not predictable: the contract
/// states only that it is not before the epoch (the crate panics on a clock
/// set earlier) and that the sub-second part is below one second, as the
/// system clock source of the crate gives it.
#[verifier::external_body]
pub(crate) fn utc_now() -> (t: UtcInstant)
    ensures
        t.secs >= 0,
        t.nanos < 1_000_000_000,
{
    let now = chrono::Utc::now();
    UtcInstant { secs: now.timestamp(), nanos: now.timestamp_subsec_nanos() }
}

/// What `chrono::DateTime::parse_from_rfc3339` reads from a text, as the
/// Unix timestamp and sub-second nanoseconds of that instant in UTC (the
/// nanoseconds reach past one second on a leap second); `None` when the
/// text is not an RFC 3339 date and time.
pub uninterp spec fn spec_rfc3339(text: Seq<char>) -> Option<(i64, u32)>;

pub open spec fn instant_of(p: Option<(i64, u32)>) -> Option<UtcInstant> {
    match p {
        Some((s, n)) => Some(UtcInstant { secs: s, nanos: n }),
        None => None,
    }
}

/// Calls `chrono::DateTime::parse_from_rfc3339` and reads the timestamp and
/// sub-second nanoseconds of the result in UTC. The contract names the
/// result: the RFC 3339 grammar and the calendar arithmetic are not
/// restated.
#[verifier::external_body]
fn parse_rfc3339(text: &str) -> (r: Option<UtcInstant>)
    ensures
        r == instant_of(spec_rfc3339(text@)),
{
    match chrono::DateTime::parse_from_rfc3339(text) {
        Err(_) => None,
        Ok(d) => {
            let u = d.with_timezone(&chrono::Utc);
            Some(UtcInstant { secs: u.timestamp(), nanos: u.timestamp_subsec_nanos() })
        },
    }
}

/// Why the capture time of a command was refused.
#[derive(Debug, Clone, Copy, PartialEq, Eq, Structural)]
pub enum CapturedAtError {
    NotRfc3339,
}

impl CapturedAtError {
    pub fn message(&self) -> (m: &'static str)
        ensures
            m@ == "captured_at must be RFC3339"@,
    {
        "captured_at must be RFC3339"
    }
}

/// When a command was captured: the RFC 3339 time given with it, or the
/// current time when none is given.
pub fn captured_at_or_now(captured_at: Option<&str>) -> (r: Result<UtcInstant, CapturedAtError>)
    ensures
        (match captured_at {
            Some(t) => match instant_of(spec_rfc3339(t@)) {
                Some(i) => r == Ok::<UtcInstant, CapturedAtError>(i),
                None => r == Err::<UtcInstant, CapturedAtError>(CapturedAtError::NotRfc3339),
            },
            None => r matches Ok(i) && i.secs >= 0 && i.nanos < 1_000_000_000,
        }),
{
    match captured_at {
        Some(t) => match parse_rfc3339(t) {
            Some(i) => Ok(i),
            None => Err(CapturedAtError::NotRfc3339),
        },
        None => Ok(utc_now()),
    }
}

pub open spec fn second_of_day(secs: i64) -> int {
    secs as int % 86400
}

/// The whole seconds from `captured` to `now`, rounded toward zero. A leap
/// second (nanoseconds past one second) lies between its second and the
/// next, so the span counts it once when it is crossed within a day.
pub open spec fn spec_age_secs(captured: UtcInstant, now: UtcInstant) -> int {
    let leap: int = if second_of_day(now.secs) > second_of_day(captured.secs) && captured.nanos
        >= 1_000_000_000 {
        1
    } else if second_of_day(now.secs) < second_of_day(captured.secs) && now.nanos
        >= 1_000_000_000 {
        -1
    } else {
        0
    };
    let total: int = (now.secs - captured.secs + leap) * 1_000_000_000 + (now.nanos
        - captured.nanos);
    if total >= 0 {
        total / 1_000_000_000
    } else {
        -((-total) / 1_000_000_000)
    }
}

/// The age of a command captured at `captured`, at `now`, in whole seconds
/// (held within the range of `i64`).
pub fn command_age_secs(captured: UtcInstant, now: UtcInstant) -> (age: i64)
    ensures
        age == (if spec_age_secs(captured, now) > i64::MAX {
            i64::MAX as int
        } else if spec_age_secs(captured, now) < i64::MIN {
            i64::MIN as int
        } else {
            spec_age_secs(captured, now)
        }),
{
    let tod_now: i64 = now.secs % 86400;
    let tod_now: i64 = if tod_now < 0 { tod_now + 86400 } else { tod_now };
    let tod_cap: i64 = captured.secs % 86400;
    let tod_cap: i64 = if tod_cap < 0 { tod_cap + 86400 } else { tod_cap };
    assert(tod_now == second_of_day(now.secs) && tod_cap == second_of_day(captured.secs));
    let leap: i128 = if tod_now > tod_cap && captured.nanos >= 1_000_000_000 {
        1
    } else if tod_now < tod_cap && now.nanos >= 1_000_000_000 {
        -1
    } else {
        0
    };
    let total: i128 = (now.secs as i128 - captured.secs as i128 + leap) * 1_000_000_000
        + (now.nanos as i128 - captured.nanos as i128);
    let mag: u128 = if total >= 0 { total as u128 } else { (-total) as u128 };
    let q: u128 = mag / 1_000_000_000;
    let limit: u128 = if total >= 0 { 9_223_372_036_854_775_807 } else { 9_223_372_036_854_775_808 };
    if q > limit {
        if total >= 0 { i64::MAX } else { i64::MIN }
    } else if total >= 0 {
        q as i64
    } else if q == 9_223_372_036_854_775_808 {
        i64::MIN
    } else {
        -(q as i64)
    }
}

} // verus!
