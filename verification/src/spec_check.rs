//! The readiness check on the system specification document: the few facts
//! of the document that the assistant depends on, and the errors reported
//! when one of them does not hold.
use vstd::prelude::*;
use vstd::string::*;

use crate::intent::strings_view;
use crate::text::append_str;

verus! {

/// The facts of the specification document that are checked, each read at
/// its path in the document (`None` or empty where the path is missing or
/// holds another kind of value).
#[derive(Debug, Clone)]
pub struct SpecFacts {
    /// `document.schema_version`
    pub schema_version: Option<String>,
    /// `principles.manual_dp_undo_disallowed_during_mixct_session`
    pub manual_undo_disallowed: Option<bool>,
    /// `architecture.plane_split.audio_plane.clock_authority`
    pub clock_authority: Option<String>,
    /// the strings of `voice_system.speech_backend.forbidden_apis`
    pub forbidden_apis: Vec<String>,
    /// `voice_system.speech_backend.fallback_engine.feature_flag`
    pub fallback_feature_flag: Option<String>,
    /// the strings of `startup_diagnostics.startup_checks`
    pub startup_checks: Vec<String>,
    /// the strings of `startup_diagnostics.hard_refusal_cases`
    pub hard_refusal_cases: Vec<String>,
    /// `restoration_model.undo_execution_path.primary`
    pub undo_primary: Option<String>,
    /// `restoration_model.undo_execution_path.fallback`
    pub undo_fallback: Option<String>,
}

/// The outcome of the check: `ok` exactly when no error was found.
#[derive(Debug, Clone)]
pub struct SpecChecks {
    pub ok: bool,
    pub errors: Vec<String>,
}

pub open spec fn opt_view(o: Option<String>) -> Option<Seq<char>> {
    match o {
        Some(s) => Some(s@),
        None => None,
    }
}

/// `msg` when `failed`, nothing otherwise.
pub open spec fn issue(failed: bool, msg: Seq<char>) -> Seq<Seq<char>> {
    if failed {
        seq![msg]
    } else {
        Seq::empty()
    }
}

/// The errors of the check, in the order the checks are made.
pub open spec fn spec_errors(f: SpecFacts) -> Seq<Seq<char>> {
    let forb = strings_view(f.forbidden_apis@);
    issue(opt_view(f.schema_version) != Some("1.1.0"@), "schema_version must be 1.1.0"@)
        + issue(f.manual_undo_disallowed != Some(true), "manual dp undo guard missing"@)
        + issue(
        opt_view(f.clock_authority) != Some("avb_ptp_grandmaster_motu_848"@),
        "audio clock authority mismatch"@,
    ) + issue(!forb.contains("cloud_stt"@), "cloud_stt must remain forbidden"@) + issue(
        forb.contains("third_party_stt"@),
        "third_party_stt must not be in forbidden_apis"@,
    ) + issue(
        opt_view(f.fallback_feature_flag) != Some("stt.local_fallback.enabled"@),
        "fallback feature flag missing"@,
    ) + issue(
        !strings_view(f.startup_checks@).contains("avb_ptp_clock_locked"@),
        "startup check avb_ptp_clock_locked missing"@,
    ) + issue(
        !strings_view(f.hard_refusal_cases@).contains("undo_anchor_failure"@),
        "hard refusal undo_anchor_failure missing"@,
    ) + issue(
        opt_view(f.undo_primary) != Some("mcu_undo_command"@),
        "undo execution primary path missing"@,
    ) + issue(
        opt_view(f.undo_fallback) != Some("studio_local_agent_undo_trigger"@),
        "undo execution fallback path missing"@,
    )
}

fn opt_equals(o: &Option<String>, lit: &str) -> (r: bool)
    ensures
        r == (opt_view(*o) == Some(lit@)),
{
    match o {
        Some(s) => *s == String::from_str(lit),
        None => false,
    }
}

fn list_contains(v: &Vec<String>, lit: &str) -> (r: bool)
    ensures
        r == strings_view(v@).contains(lit@),
{
    let target = String::from_str(lit);
    let mut i: usize = 0;
    while i < v.len()
        invariant
            i <= v.len(),
            target@ == lit@,
            forall|j: int| 0 <= j < i ==> v@[j]@ != lit@,
        decreases v.len() - i,
    {
        if v[i] == target {
            assert(strings_view(v@)[i as int] == lit@);
            return true;
        }
        i += 1;
    }
    proof {
        if strings_view(v@).contains(lit@) {
            let j = choose|j: int| 0 <= j < v@.len() && strings_view(v@)[j] == lit@;
            assert(v@[j]@ == lit@);
        }
    }
    false
}

fn note_issue(errors: &mut Vec<String>, failed: bool, msg: &str)
    ensures
        strings_view(final(errors)@) == strings_view(old(errors)@) + issue(failed, msg@),
{
    let ghost before = strings_view(errors@);
    if failed {
        errors.push(String::from_str(msg));
        assert(strings_view(errors@) =~= before + issue(failed, msg@));
    } else {
        assert(strings_view(errors@) =~= before + issue(failed, msg@));
    }
}

/// Checks the facts the assistant depends on and lists what is wrong.
pub fn validate_spec(f: &SpecFacts) -> (c: SpecChecks)
    ensures
        strings_view(c.errors@) == spec_errors(*f),
        c.ok == (c.errors@.len() == 0),
{
    let mut errors: Vec<String> = Vec::new();
    let ghost e0 = strings_view(errors@);
    assert(e0 =~= Seq::<Seq<char>>::empty());
    note_issue(&mut errors, !opt_equals(&f.schema_version, "1.1.0"), "schema_version must be 1.1.0");
    let guard = match f.manual_undo_disallowed {
        Some(b) => b,
        None => false,
    };
    note_issue(&mut errors, !guard, "manual dp undo guard missing");
    note_issue(
        &mut errors,
        !opt_equals(&f.clock_authority, "avb_ptp_grandmaster_motu_848"),
        "audio clock authority mismatch",
    );
    note_issue(
        &mut errors,
        !list_contains(&f.forbidden_apis, "cloud_stt"),
        "cloud_stt must remain forbidden",
    );
    note_issue(
        &mut errors,
        list_contains(&f.forbidden_apis, "third_party_stt"),
        "third_party_stt must not be in forbidden_apis",
    );
    note_issue(
        &mut errors,
        !opt_equals(&f.fallback_feature_flag, "stt.local_fallback.enabled"),
        "fallback feature flag missing",
    );
    note_issue(
        &mut errors,
        !list_contains(&f.startup_checks, "avb_ptp_clock_locked"),
        "startup check avb_ptp_clock_locked missing",
    );
    note_issue(
        &mut errors,
        !list_contains(&f.hard_refusal_cases, "undo_anchor_failure"),
        "hard refusal undo_anchor_failure missing",
    );
    note_issue(
        &mut errors,
        !opt_equals(&f.undo_primary, "mcu_undo_command"),
        "undo execution primary path missing",
    );
    note_issue(
        &mut errors,
        !opt_equals(&f.undo_fallback, "studio_local_agent_undo_trigger"),
        "undo execution fallback path missing",
    );
    let ok = errors.len() == 0;
    SpecChecks { ok, errors }
}

/// The items of `parts` joined by `sep`.
pub open spec fn joined(parts: Seq<Seq<char>>, sep: Seq<char>) -> Seq<char>
    decreases parts.len(),
{
    if parts.len() == 0 {
        Seq::empty()
    } else if parts.len() == 1 {
        parts[0]
    } else {
        joined(parts.drop_last(), sep) + sep + parts.last()
    }
}

/// The message of a refused specification document.
pub open spec fn refusal_message(errors: Seq<Seq<char>>) -> Seq<char> {
    "spec invalid: "@ + joined(errors, ", "@)
}

fn join_strings(parts: &Vec<String>, sep: &str) -> (s: String)
    ensures
        s@ == joined(strings_view(parts@), sep@),
{
    let mut s = String::new();
    let mut i: usize = 0;
    while i < parts.len()
        invariant
            i <= parts.len(),
            s@ == joined(strings_view(parts@).subrange(0, i as int), sep@),
        decreases parts.len() - i,
    {
        let ghost prefix = strings_view(parts@).subrange(0, i as int + 1);
        assert(prefix.drop_last() =~= strings_view(parts@).subrange(0, i as int));
        assert(prefix.last() == parts@[i as int]@);
        if i > 0 {
            append_str(&mut s, sep);
        } else {
            assert(s@ =~= Seq::<char>::empty());
        }
        append_str(&mut s, parts[i].as_str());
        assert(s@ =~= joined(prefix, sep@));
        i += 1;
    }
    assert(strings_view(parts@).subrange(0, i as int) =~= strings_view(parts@));
    s
}

/// Accepts the document when every check holds; otherwise refuses it with
/// all errors, joined by commas.
pub fn ensure_spec_ready(f: &SpecFacts) -> (r: Result<(), String>)
    ensures
        r is Ok <==> spec_errors(*f).len() == 0,
        r matches Err(m) ==> m@ == refusal_message(spec_errors(*f)),
{
    let checks = validate_spec(f);
    if checks.ok {
        Ok(())
    } else {
        let mut m = String::from_str("spec invalid: ");
        let body = join_strings(&checks.errors, ", ");
        append_str(&mut m, body.as_str());
        Err(m)
    }
}

} // verus!
