//! From an executable intent to the layout of an automation pass: which lanes
//! of which buses are written, on which control-surface strips, over which
//! bars, in which direction and how strongly; plus the answers given when a
//! command is not executed (suggestions, clarification prompts).
use vstd::prelude::*;
use vstd::string::*;

use crate::intent::{has, Intent, ReasonCode, Strength, strings_view};
use crate::session::{SessionMap, session_bus_ids};
use crate::text::{append_str, chars_of, contains_str, decimal_text, push_decimal, spec_to_lowercase, to_lowercase};
use crate::types::{LaneKind, OperationClass, TimeRange};

verus! {

/// A bus and the lane of it that a pass writes.
#[derive(Debug, Clone)]
pub struct ResolvedTarget {
    pub canonical_name: String,
    pub lane: LaneKind,
}

pub ghost struct TargetView {
    pub name: Seq<char>,
    pub lane: LaneKind,
}

impl View for ResolvedTarget {
    type V = TargetView;

    open spec fn view(&self) -> TargetView {
        TargetView { name: self.canonical_name@, lane: self.lane }
    }
}

pub open spec fn targets_view(v: Seq<ResolvedTarget>) -> Seq<TargetView> {
    v.map_values(|t: ResolvedTarget| t@)
}

/// The lane a command writes, read from its lower-cased text.
pub open spec fn spec_lane_for(lower: Seq<char>) -> LaneKind {
    if has(lower, "presence") {
        LaneKind::EqPresenceGain
    } else if has(lower, "air") {
        LaneKind::EqAirGain
    } else if has(lower, "low") {
        LaneKind::EqLowGain
    } else {
        LaneKind::Volume
    }
}

/// The lane the command `source_text` writes: presence, air or low EQ gain
/// where the command mentions it, else the fader.
pub fn lane_for_command(source_text: &str) -> (lane: LaneKind)
    ensures
        lane == spec_lane_for(spec_to_lowercase(source_text@)),
{
    let lower = to_lowercase(source_text);
    let l = chars_of(lower.as_str());
    if contains_str(&l, "presence") {
        LaneKind::EqPresenceGain
    } else if contains_str(&l, "air") {
        LaneKind::EqAirGain
    } else if contains_str(&l, "low") {
        LaneKind::EqLowGain
    } else {
        LaneKind::Volume
    }
}

/// The targets of a pass: each named bus on the command's lane, or the
/// first violins' fader when the command names none.
pub open spec fn spec_plan_targets(intent: Intent) -> Seq<TargetView> {
    let lane = spec_lane_for(spec_to_lowercase(intent.source_text@));
    if intent.targets@.len() == 0 {
        seq![TargetView { name: "STR_HI"@, lane: LaneKind::Volume }]
    } else {
        strings_view(intent.targets@).map_values(|n: Seq<char>| TargetView { name: n, lane })
    }
}

/// The lane a command writes: the presence EQ gain where it mentions
/// "presence"; otherwise the air EQ gain where it mentions "air"; otherwise
/// the low EQ gain where it mentions "low"; otherwise the fader.
pub proof fn lemma_lane_words(l: Seq<char>)
    ensures
        has(l, "presence") ==> spec_lane_for(l) == LaneKind::EqPresenceGain,
        !(has(l, "presence")) && has(l, "air") ==> spec_lane_for(l) == LaneKind::EqAirGain,
        !(has(l, "presence")) && !(has(l, "air")) && has(l, "low") ==> spec_lane_for(l)
            == LaneKind::EqLowGain,
        !(has(l, "presence")) && !(has(l, "air")) && !(has(l, "low")) ==> spec_lane_for(l)
            == LaneKind::Volume,
{
}

/// A pass writes every target the command names, in order and all on one
/// lane, the command's; a command that names none writes the first
/// violins' fader.
pub proof fn lemma_plan_targets_follow_intent(intent: Intent)
    ensures
        intent.targets@.len() == 0 ==> spec_plan_targets(intent) == seq![
            TargetView { name: "STR_HI"@, lane: LaneKind::Volume },
        ],
        intent.targets@.len() > 0 ==> spec_plan_targets(intent).len() == intent.targets@.len()
            && forall|k: int|
            0 <= k < intent.targets@.len() ==> #[trigger] spec_plan_targets(intent)[k] == (
            TargetView {
                name: intent.targets@[k]@,
                lane: spec_lane_for(spec_to_lowercase(intent.source_text@)),
            }),
{
}

pub fn plan_targets(intent: &Intent) -> (out: Vec<ResolvedTarget>)
    ensures
        targets_view(out@) == spec_plan_targets(*intent),
{
    let mut out: Vec<ResolvedTarget> = Vec::new();
    if intent.targets.len() == 0 {
        out.push(ResolvedTarget { canonical_name: String::from_str("STR_HI"), lane: LaneKind::Volume });
        assert(targets_view(out@) =~= spec_plan_targets(*intent));
        return out;
    }
    let lane = lane_for_command(intent.source_text.as_str());
    let mut i: usize = 0;
    while i < intent.targets.len()
        invariant
            i <= intent.targets.len(),
            intent.targets@.len() > 0,
            lane == spec_lane_for(spec_to_lowercase(intent.source_text@)),
            targets_view(out@) == spec_plan_targets(*intent).subrange(0, i as int),
        decreases intent.targets.len() - i,
    {
        let ghost before = targets_view(out@);
        out.push(ResolvedTarget { canonical_name: intent.targets[i].clone(), lane });
        assert(targets_view(out@) =~= before.push(spec_plan_targets(*intent)[i as int]));
        assert(targets_view(out@) =~= spec_plan_targets(*intent).subrange(0, i as int + 1));
        i += 1;
    }
    assert(spec_plan_targets(*intent).subrange(0, i as int) =~= spec_plan_targets(*intent));
    out
}

/// The 1-based position of the first bus called `name`.
pub open spec fn bus_position(ids: Seq<Seq<char>>, name: Seq<char>) -> Option<int>
    decreases ids.len(),
{
    if ids.len() == 0 {
        None
    } else {
        match bus_position(ids.drop_last(), name) {
            Some(p) => Some(p),
            None => if ids.last() == name {
                Some(ids.len() as int)
            } else {
                None
            },
        }
    }
}

/// The strips of the targets that name a bus of the session, in target
/// order.
pub open spec fn mapped_strips(ids: Seq<Seq<char>>, targets: Seq<TargetView>) -> Seq<u32>
    decreases targets.len(),
{
    if targets.len() == 0 {
        Seq::empty()
    } else {
        let prev = mapped_strips(ids, targets.drop_last());
        match bus_position(ids, targets.last().name) {
            Some(p) => prev.push(p as u32),
            None => prev,
        }
    }
}

/// The strips a pass writes on: those of the targets found in the session
/// map, or the first strip when there are none.
pub open spec fn spec_plan_strips(session_map: Option<SessionMap>, targets: Seq<TargetView>) -> Seq<
    u32,
> {
    match session_map {
        Some(sm) => {
            let m = mapped_strips(session_bus_ids(sm.buses@), targets);
            if m.len() == 0 {
                seq![1u32]
            } else {
                m
            }
        },
        None => seq![1u32],
    }
}

/// A target names a bus when its name is one of the bus ids.
pub open spec fn names_a_bus(ids: Seq<Seq<char>>) -> spec_fn(TargetView) -> bool {
    |t: TargetView| ids.contains(t.name)
}

/// The 1-based position `p` is where `name` first occurs among the ids.
pub open spec fn first_position_of(ids: Seq<Seq<char>>, name: Seq<char>, p: int) -> bool {
    &&& 1 <= p <= ids.len()
    &&& ids[p - 1] == name
    &&& forall|j: int| 0 <= j < p - 1 ==> ids[j] != name
}

proof fn lemma_bus_position_first(ids: Seq<Seq<char>>, name: Seq<char>)
    ensures
        (match bus_position(ids, name) {
            Some(p) => first_position_of(ids, name, p),
            None => !ids.contains(name),
        }),
    decreases ids.len(),
{
    if ids.len() > 0 {
        let init = ids.drop_last();
        lemma_bus_position_first(init, name);
        match bus_position(init, name) {
            Some(p) => {
                assert(ids[p - 1] == init[p - 1]);
                assert forall|j: int| 0 <= j < p - 1 implies ids[j] != name by {
                    assert(ids[j] == init[j]);
                }
            },
            None => {
                if ids.last() == name {
                    assert forall|j: int| 0 <= j < ids.len() - 1 implies ids[j] != name by {
                        assert(ids[j] == init[j]);
                        assert(init.contains(init[j]));
                    }
                } else {
                    assert forall|j: int| 0 <= j < ids.len() implies ids[j] != name by {
                        if j < ids.len() - 1 {
                            assert(ids[j] == init[j]);
                            assert(init.contains(init[j]));
                        }
                    }
                }
            },
        }
    }
}

/// With a session map, the strips follow the targets that name a bus of the
/// session: one strip per such target, in target order, each the 1-based
/// position of that target's bus.
pub proof fn lemma_mapped_strips_follow_targets(ids: Seq<Seq<char>>, ts: Seq<TargetView>)
    requires
        ids.len() < u32::MAX,
    ensures
        mapped_strips(ids, ts).len() == ts.filter(names_a_bus(ids)).len(),
        forall|k: int|
            0 <= k < mapped_strips(ids, ts).len() ==> first_position_of(
                ids,
                #[trigger] ts.filter(names_a_bus(ids))[k].name,
                mapped_strips(ids, ts)[k] as int,
            ),
    decreases ts.len(),
{
    reveal(Seq::filter);
    if ts.len() > 0 {
        let init = ts.drop_last();
        lemma_mapped_strips_follow_targets(ids, init);
        lemma_bus_position_first(ids, ts.last().name);
        let hits = ts.filter(names_a_bus(ids));
        let prev_hits = init.filter(names_a_bus(ids));
        let m = mapped_strips(ids, ts);
        let pm = mapped_strips(ids, init);
        match bus_position(ids, ts.last().name) {
            Some(p) => {
                assert(ids.contains(ts.last().name));
                assert(hits == prev_hits.push(ts.last()));
                assert(m == pm.push(p as u32));
                assert forall|k: int| 0 <= k < m.len() implies first_position_of(
                    ids,
                    #[trigger] hits[k].name,
                    m[k] as int,
                ) by {
                    if k < pm.len() {
                        assert(hits[k] == prev_hits[k]);
                        assert(m[k] == pm[k]);
                    }
                }
            },
            None => {
                assert(!names_a_bus(ids)(ts.last()));
                assert(hits == prev_hits);
            },
        }
    }
}

/// The strips a pass writes on: without a session map, or when no target
/// names a bus of it, the first strip; otherwise one strip per target that
/// names a bus, in target order, at that bus's 1-based position.
pub proof fn lemma_plan_strips_follow_targets(session_map: Option<SessionMap>, ts: Seq<TargetView>)
    requires
        session_map matches Some(sm) ==> sm.buses@.len() < u32::MAX,
    ensures
        (match session_map {
            None => spec_plan_strips(session_map, ts) == seq![1u32],
            Some(sm) => {
                let ids = session_bus_ids(sm.buses@);
                let hits = ts.filter(names_a_bus(ids));
                let s = spec_plan_strips(session_map, ts);
                &&& hits.len() == 0 ==> s == seq![1u32]
                &&& hits.len() > 0 ==> s.len() == hits.len() && forall|k: int|
                    0 <= k < s.len() ==> first_position_of(ids, #[trigger] hits[k].name, s[k] as int)
            },
        }),
{
    match session_map {
        None => {},
        Some(sm) => {
            let ids = session_bus_ids(sm.buses@);
            assert(ids.len() == sm.buses@.len());
            lemma_mapped_strips_follow_targets(ids, ts);
        },
    }
}

proof fn lemma_bus_position_scan(ids: Seq<Seq<char>>, name: Seq<char>, i: int)
    requires
        0 <= i <= ids.len(),
        forall|j: int| 0 <= j < i ==> ids[j] != name,
        i < ids.len() ==> ids[i] == name,
    ensures
        bus_position(ids, name) == (if i < ids.len() { Some(i + 1) } else { None::<int> }),
    decreases ids.len(),
{
    if ids.len() > 0 {
        if i < ids.len() - 1 || i == ids.len() {
            lemma_bus_position_scan(ids.drop_last(), name, if i == ids.len() { i - 1 } else { i });
        } else {
            lemma_bus_position_scan(ids.drop_last(), name, i);
        }
    }
}

fn find_bus_position(sm: &SessionMap, name: &String) -> (r: Option<u32>)
    requires
        sm.buses@.len() < u32::MAX,
    ensures
        (match bus_position(session_bus_ids(sm.buses@), name@) {
            Some(p) => r == Some(p as u32),
            None => r is None,
        }),
{
    let ghost ids = session_bus_ids(sm.buses@);
    let mut i: usize = 0;
    while i < sm.buses.len()
        invariant
            i <= sm.buses.len() < u32::MAX,
            ids == session_bus_ids(sm.buses@),
            forall|j: int| 0 <= j < i ==> ids[j] != name@,
        decreases sm.buses.len() - i,
    {
        if sm.buses[i].id == *name {
            proof {
                lemma_bus_position_scan(ids, name@, i as int);
            }
            return Some((i as u32) + 1);
        }
        i += 1;
    }
    proof {
        lemma_bus_position_scan(ids, name@, i as int);
    }
    None
}

pub fn plan_strips(session_map: &Option<SessionMap>, targets: &Vec<ResolvedTarget>) -> (strips: Vec<
    u32,
>)
    requires
        session_map matches Some(sm) ==> sm.buses@.len() < u32::MAX,
    ensures
        strips@ == spec_plan_strips(*session_map, targets_view(targets@)),
{
    let mut one: Vec<u32> = Vec::new();
    one.push(1);
    match session_map {
        None => {
            assert(one@ =~= seq![1u32]);
            one
        },
        Some(sm) => {
            let ghost ids = session_bus_ids(sm.buses@);
            let ghost tv = targets_view(targets@);
            let mut mapped: Vec<u32> = Vec::new();
            let mut i: usize = 0;
            assert(tv.subrange(0, 0) =~= Seq::<TargetView>::empty());
            while i < targets.len()
                invariant
                    i <= targets.len(),
                    sm.buses@.len() < u32::MAX,
                    ids == session_bus_ids(sm.buses@),
                    tv == targets_view(targets@),
                    mapped@ == mapped_strips(ids, tv.subrange(0, i as int)),
                decreases targets.len() - i,
            {
                let ghost next = tv.subrange(0, i as int + 1);
                assert(next.drop_last() =~= tv.subrange(0, i as int));
                assert(next.last().name == targets@[i as int].canonical_name@);
                match find_bus_position(sm, &targets[i].canonical_name) {
                    Some(p) => mapped.push(p),
                    None => {},
                }
                i += 1;
            }
            assert(tv.subrange(0, i as int) =~= tv);
            if mapped.len() == 0 {
                assert(one@ =~= seq![1u32]);
                one
            } else {
                mapped
            }
        },
    }
}

/// Why no pass can be laid out for an intent.
#[derive(Debug, Clone, Copy, PartialEq, Eq, Structural)]
pub enum PlanError {
    MissingTimeRange,
    InvalidTimeRange,
}

impl PlanError {
    pub fn message(&self) -> (m: &'static str)
        ensures
            m@ == (match self {
                PlanError::MissingTimeRange => "missing time range"@,
                PlanError::InvalidTimeRange => "invalid time range"@,
            }),
    {
        match self {
            PlanError::MissingTimeRange => "missing time range",
            PlanError::InvalidTimeRange => "invalid time range",
        }
    }
}

/// Where and what a pass writes.
#[derive(Debug, Clone)]
pub struct PassLayout {
    pub source_text: String,
    pub operation_class: OperationClass,
    pub target_lanes: Vec<ResolvedTarget>,
    pub target_strips: Vec<u32>,
    pub time_range: TimeRange,
}

/// Lays out the pass for an intent: it needs a valid bar range; the
/// operation defaults to writing a new curve.
pub fn plan_layout(intent: &Intent, session_map: &Option<SessionMap>) -> (r: Result<
    PassLayout,
    PlanError,
>)
    requires
        session_map matches Some(sm) ==> sm.buses@.len() < u32::MAX,
    ensures
        (match intent.time_range {
            None => r == Err::<PassLayout, PlanError>(PlanError::MissingTimeRange),
            Some(tr) => if !tr.spec_is_valid() {
                r == Err::<PassLayout, PlanError>(PlanError::InvalidTimeRange)
            } else {
                r matches Ok(p) && p.time_range == tr && p.source_text@ == intent.source_text@
                    && p.operation_class == (match intent.operation_class {
                    Some(c) => c,
                    None => OperationClass::WriteNewCurve,
                }) && targets_view(p.target_lanes@) == spec_plan_targets(*intent)
                    && p.target_strips@ == spec_plan_strips(
                    *session_map,
                    spec_plan_targets(*intent),
                )
            },
        }),
{
    let tr = match intent.time_range {
        None => {
            return Err(PlanError::MissingTimeRange);
        },
        Some(tr) => tr,
    };
    if !tr.is_valid() {
        return Err(PlanError::InvalidTimeRange);
    }
    let targets = plan_targets(intent);
    let strips = plan_strips(session_map, &targets);
    let operation_class = match intent.operation_class {
        Some(c) => c,
        None => OperationClass::WriteNewCurve,
    };
    Ok(
        PassLayout {
            source_text: intent.source_text.clone(),
            operation_class,
            target_lanes: targets,
            target_strips: strips,
            time_range: tr,
        },
    )
}

// ---------------------------------------------------------------------------
// The shape of the written curve.
/// Whether the command asks to bring the level down.
pub open spec fn spec_asks_reduction(lower: Seq<char>) -> bool {
    has(lower, "too loud") || has(lower, "harsh") || has(lower, "reduce") || has(lower, "softer")
}

/// The sign of the move: -1 where the command asks to bring the level down,
/// +1 otherwise.
pub fn curve_direction(source_text: &str) -> (d: i8)
    ensures
        d == (if spec_asks_reduction(spec_to_lowercase(source_text@)) {
            -1i8
        } else {
            1i8
        }),
{
    let lower = to_lowercase(source_text);
    let l = chars_of(lower.as_str());
    if contains_str(&l, "too loud") || contains_str(&l, "harsh") || contains_str(&l, "reduce")
        || contains_str(&l, "softer") {
        -1
    } else {
        1
    }
}

/// The peak of the move in tenths of a dB: 2.5 dB for a slight change,
/// 6 dB for a strong one, 4.5 dB otherwise.
pub fn curve_strength_tenths_db(strength: Option<Strength>) -> (t: u32)
    ensures
        t == (match strength {
            Some(Strength::Slight) => 25u32,
            Some(Strength::Strong) => 60u32,
            _ => 45u32,
        }),
{
    match strength {
        Some(Strength::Slight) => 25,
        Some(Strength::Strong) => 60,
        _ => 45,
    }
}

/// `offset * target / longest`, rounded half away from zero.
pub open spec fn scaled_offset(offset: u64, target: u64, longest: u64) -> int {
    (2 * offset * target + longest) / (2 * longest)
}

pub open spec fn seq_max(s: Seq<u64>) -> u64
    decreases s.len(),
{
    if s.len() == 0 {
        0
    } else {
        let m = seq_max(s.drop_last());
        if s.last() > m {
            s.last()
        } else {
            m
        }
    }
}

/// The point offsets of a curve stretched or squeezed so that its last
/// point falls at `target_ms`; unchanged when the curve or the target is
/// empty or already of that length.
pub open spec fn spec_scaled_offsets(offsets: Seq<u64>, target_ms: u64) -> Seq<u64> {
    let longest = seq_max(offsets);
    if longest == 0 || target_ms == 0 || target_ms == longest {
        offsets
    } else {
        offsets.map_values(|o: u64| scaled_offset(o, target_ms, longest) as u64)
    }
}

proof fn lemma_seq_max_bounds(s: Seq<u64>)
    ensures
        forall|k: int| 0 <= k < s.len() ==> s[k] <= seq_max(s),
    decreases s.len(),
{
    if s.len() > 0 {
        lemma_seq_max_bounds(s.drop_last());
        assert forall|k: int| 0 <= k < s.len() implies s[k] <= seq_max(s) by {
            if k < s.len() - 1 {
                assert(s.drop_last()[k] == s[k]);
            }
        }
    }
}

/// Scales the offsets of a curve to last `target_ms`.
pub fn scale_curve_duration(offsets: &Vec<u64>, target_ms: u64) -> (out: Vec<u64>)
    ensures
        out@ == spec_scaled_offsets(offsets@, target_ms),
{
    let mut longest: u64 = 0;
    let mut i: usize = 0;
    assert(offsets@.subrange(0, 0) =~= Seq::<u64>::empty());
    while i < offsets.len()
        invariant
            i <= offsets.len(),
            longest == seq_max(offsets@.subrange(0, i as int)),
        decreases offsets.len() - i,
    {
        assert(offsets@.subrange(0, i as int + 1).drop_last() =~= offsets@.subrange(0, i as int));
        if offsets[i] > longest {
            longest = offsets[i];
        }
        i += 1;
    }
    assert(offsets@.subrange(0, i as int) =~= offsets@);
    if longest == 0 || target_ms == 0 || target_ms == longest {
        return offsets.clone();
    }
    proof {
        lemma_seq_max_bounds(offsets@);
    }
    let mut out: Vec<u64> = Vec::new();
    let mut j: usize = 0;
    while j < offsets.len()
        invariant
            j <= offsets.len(),
            longest == seq_max(offsets@),
            longest > 0,
            forall|k: int| 0 <= k < offsets@.len() ==> offsets@[k] <= longest,
            out@ == spec_scaled_offsets(offsets@, target_ms).subrange(0, j as int),
            spec_scaled_offsets(offsets@, target_ms) == offsets@.map_values(
                |o: u64| scaled_offset(o, target_ms, longest) as u64,
            ),
        decreases offsets.len() - j,
    {
        let o = offsets[j];
        let ou: u128 = o as u128;
        let tu: u128 = target_ms as u128;
        let lu: u128 = longest as u128;
        assert(ou * tu <= 0xffff_ffff_ffff_ffffu128 * 0xffff_ffff_ffff_ffffu128) by (nonlinear_arith)
            requires
                ou <= 0xffff_ffff_ffff_ffffu128,
                tu <= 0xffff_ffff_ffff_ffffu128,
        ;
        let prod: u128 = ou * tu;
        let q: u128 = prod / lu;
        let r: u128 = prod % lu;
        let w: u128 = if 2 * r >= lu {
            q + 1
        } else {
            q
        };
        assert(w == (2 * ou * tu + lu) / (2 * lu) && w <= tu) by (nonlinear_arith)
            requires
                prod == ou * tu,
                q == prod / lu,
                r == prod % lu,
                2 * r >= lu ==> w == q + 1,
                2 * r < lu ==> w == q,
                ou <= lu,
                lu > 0,
        {
            assert(prod == q * lu + r);
            assert(0 <= r < lu);
            assert(ou * tu <= lu * tu);
            assert(q <= tu);
            if q == tu {
                assert(r == 0);
            }
            assert(2 * ou * tu + lu == (2 * q + 1) * lu + 2 * r);
            if 2 * r >= lu {
                assert(2 * ou * tu + lu == (2 * q + 2) * lu + (2 * r - lu));
                assert((2 * ou * tu + lu) / (2 * lu) == q + 1);
            } else {
                assert(2 * ou * tu + lu == (2 * q) * lu + (lu + 2 * r));
                assert((2 * ou * tu + lu) / (2 * lu) == q);
            }
        }
        let v: u64 = w as u64;
        out.push(v);
        assert(out@ =~= spec_scaled_offsets(offsets@, target_ms).subrange(0, j as int + 1));
        j += 1;
    }
    assert(spec_scaled_offsets(offsets@, target_ms).subrange(0, j as int) =~= spec_scaled_offsets(
        offsets@,
        target_ms,
    ));
    out
}

// ---------------------------------------------------------------------------
// The rest of the orchestra.
/// Whether the command asks for the rest of the orchestra to accompany the
/// move (it names the rest and says accompaniment).
pub open spec fn spec_wants_rest_accompaniment(lower: Seq<char>) -> bool {
    (has(lower, "rest of orchestra") || has(lower, "rest of the orchestra") || has(
        lower,
        "the rest of orchestra",
    ) || has(lower, "the rest of the orchestra") || has(lower, " rest=")) && has(
        lower,
        "accompaniment",
    )
}

pub fn wants_rest_accompaniment(command: &str) -> (b: bool)
    ensures
        b == spec_wants_rest_accompaniment(spec_to_lowercase(command@)),
{
    let lower = to_lowercase(command);
    let l = chars_of(lower.as_str());
    let mentions_rest = contains_str(&l, "rest of orchestra") || contains_str(
        &l,
        "rest of the orchestra",
    ) || contains_str(&l, "the rest of orchestra") || contains_str(&l, "the rest of the orchestra")
        || contains_str(&l, " rest=");
    let mentions_accompaniment = contains_str(&l, "accompaniment");
    mentions_rest && mentions_accompaniment
}

pub open spec fn target_names(t: Seq<TargetView>) -> Seq<Seq<char>> {
    t.map_values(|x: TargetView| x.name)
}

/// The faders of every session bus that is not a primary target, in bus
/// order.
pub open spec fn spec_rest_targets(ids: Seq<Seq<char>>, primary: Seq<Seq<char>>) -> Seq<TargetView> {
    ids.filter(|id: Seq<char>| !primary.contains(id)).map_values(
        |id: Seq<char>| TargetView { name: id, lane: LaneKind::Volume },
    )
}

fn names_contain(targets: &Vec<ResolvedTarget>, id: &String) -> (r: bool)
    ensures
        r == target_names(targets_view(targets@)).contains(id@),
{
    let ghost names = target_names(targets_view(targets@));
    let mut i: usize = 0;
    while i < targets.len()
        invariant
            i <= targets.len(),
            names == target_names(targets_view(targets@)),
            forall|j: int| 0 <= j < i ==> names[j] != id@,
        decreases targets.len() - i,
    {
        if targets[i].canonical_name == *id {
            assert(names[i as int] == id@);
            return true;
        }
        i += 1;
    }
    false
}

/// The buses that accompany a move: every session bus that is not one of
/// the primary targets, on its fader; none without a session map.
pub fn derive_rest_targets(session_map: &Option<SessionMap>, primary_targets: &Vec<ResolvedTarget>) -> (out: Vec<
    ResolvedTarget,
>)
    ensures
        targets_view(out@) == (match session_map {
            None => Seq::<TargetView>::empty(),
            Some(sm) => spec_rest_targets(
                session_bus_ids(sm.buses@),
                target_names(targets_view(primary_targets@)),
            ),
        }),
{
    let mut out: Vec<ResolvedTarget> = Vec::new();
    match session_map {
        None => {
            assert(targets_view(out@) =~= Seq::<TargetView>::empty());
            out
        },
        Some(sm) => {
            let ghost ids = session_bus_ids(sm.buses@);
            let ghost prim = target_names(targets_view(primary_targets@));
            let ghost keep = |id: Seq<char>| !prim.contains(id);
            let mut i: usize = 0;
            assert(ids.subrange(0, 0).filter(keep) =~= Seq::<Seq<char>>::empty());
            while i < sm.buses.len()
                invariant
                    i <= sm.buses.len(),
                    ids == session_bus_ids(sm.buses@),
                    prim == target_names(targets_view(primary_targets@)),
                    keep == (|id: Seq<char>| !prim.contains(id)),
                    targets_view(out@) == ids.subrange(0, i as int).filter(keep).map_values(
                        |id: Seq<char>| TargetView { name: id, lane: LaneKind::Volume },
                    ),
                decreases sm.buses.len() - i,
            {
                let ghost pre = ids.subrange(0, i as int);
                let ghost next = ids.subrange(0, i as int + 1);
                assert(next.drop_last() =~= pre);
                assert(next.last() == sm.buses@[i as int].id@);
                let ghost before = targets_view(out@);
                proof {
                    reveal(Seq::filter);
                }
                if !names_contain(primary_targets, &sm.buses[i].id) {
                    out.push(ResolvedTarget { canonical_name: sm.buses[i].id.clone(), lane: LaneKind::Volume });
                    assert(targets_view(out@) =~= before.push(TargetView { name: sm.buses@[i as int].id@, lane: LaneKind::Volume }));
                    assert(next.filter(keep) =~= pre.filter(keep).push(next.last()));
                } else {
                    assert(next.filter(keep) =~= pre.filter(keep));
                }
                assert(targets_view(out@) =~= next.filter(keep).map_values(
                    |id: Seq<char>| TargetView { name: id, lane: LaneKind::Volume },
                ));
                i += 1;
            }
            assert(ids.subrange(0, i as int) =~= ids);
            out
        },
    }
}

// ---------------------------------------------------------------------------
// Target names on the control path.
pub open spec fn lane_text(l: LaneKind) -> Seq<char> {
    match l {
        LaneKind::Volume => "Volume"@,
        LaneKind::EqLowGain => "EqLowGain"@,
        LaneKind::EqPresenceGain => "EqPresenceGain"@,
        LaneKind::EqAirGain => "EqAirGain"@,
    }
}

/// The name of a lane on the control path.
pub fn lane_name(l: LaneKind) -> (s: &'static str)
    ensures
        s@ == lane_text(l),
{
    match l {
        LaneKind::Volume => "Volume",
        LaneKind::EqLowGain => "EqLowGain",
        LaneKind::EqPresenceGain => "EqPresenceGain",
        LaneKind::EqAirGain => "EqAirGain",
    }
}

/// The control-path name of a target: the bus, `::`, then the lane.
pub fn lane_target_name(t: &ResolvedTarget) -> (s: String)
    ensures
        s@ == t.canonical_name@ + "::"@ + lane_text(t.lane),
{
    let mut s = t.canonical_name.clone();
    append_str(&mut s, "::");
    append_str(&mut s, lane_name(t.lane));
    s
}

/// The first position at or after `i` where `::` starts.
pub open spec fn separator_from(s: Seq<char>, i: int) -> Option<int>
    decreases s.len() - i,
{
    if i < 0 || i + 1 >= s.len() {
        None
    } else if s[i] == ':' && s[i + 1] == ':' {
        Some(i)
    } else {
        separator_from(s, i + 1)
    }
}

/// Why a control-path name names no bus.
#[derive(Debug, Clone)]
pub enum TargetNameError {
    /// The name has no `::`.
    InvalidFormat(String),
    /// The text after the first `::` names no lane.
    UnknownLane(String),
}

/// The lane a lane name on the control path stands for.
pub open spec fn lane_named(t: Seq<char>) -> Option<LaneKind> {
    if t == lane_text(LaneKind::Volume) {
        Some(LaneKind::Volume)
    } else if t == lane_text(LaneKind::EqLowGain) {
        Some(LaneKind::EqLowGain)
    } else if t == lane_text(LaneKind::EqPresenceGain) {
        Some(LaneKind::EqPresenceGain)
    } else if t == lane_text(LaneKind::EqAirGain) {
        Some(LaneKind::EqAirGain)
    } else {
        None
    }
}

fn find_separator(v: &Vec<char>) -> (r: Option<usize>)
    ensures
        (match separator_from(v@, 0) {
            Some(i) => r == Some(i as usize) && 0 <= i && i + 1 < v@.len(),
            None => r is None,
        }),
{
    let mut i: usize = 0;
    while i < v.len() && i + 1 < v.len()
        invariant
            i <= v.len(),
            separator_from(v@, 0) == separator_from(v@, i as int),
        decreases v.len() - i,
    {
        if v[i] == ':' && v[i + 1] == ':' {
            return Some(i);
        }
        i += 1;
    }
    None
}

/// The lane a control-path name refers to: the text after its first `::`,
/// which must be a lane's name.
pub fn target_lane(target: &str) -> (r: Result<LaneKind, TargetNameError>)
    ensures
        (match separator_from(target@, 0) {
            None => r matches Err(TargetNameError::InvalidFormat(t)) && t@ == target@,
            Some(i) => match lane_named(target@.subrange(i + 2, target@.len() as int)) {
                Some(l) => r matches Ok(x) && x == l,
                None => r matches Err(TargetNameError::UnknownLane(t)) && t@ == target@.subrange(
                    i + 2,
                    target@.len() as int,
                ),
            },
        }),
{
    let v = chars_of(target);
    match find_separator(&v) {
        None => Err(TargetNameError::InvalidFormat(String::from_str(target))),
        Some(i) => {
            let rest = crate::text::string_from_range(&v, i + 2, v.len());
            if rest == String::from_str("Volume") {
                Ok(LaneKind::Volume)
            } else if rest == String::from_str("EqLowGain") {
                Ok(LaneKind::EqLowGain)
            } else if rest == String::from_str("EqPresenceGain") {
                Ok(LaneKind::EqPresenceGain)
            } else if rest == String::from_str("EqAirGain") {
                Ok(LaneKind::EqAirGain)
            } else {
                Err(TargetNameError::UnknownLane(rest))
            }
        },
    }
}

/// The bus a control-path name refers to: the text before its first `::`.
pub fn target_bus_id(target: &str) -> (r: Result<String, TargetNameError>)
    ensures
        (match separator_from(target@, 0) {
            Some(i) => r matches Ok(id) && id@ == target@.subrange(0, i),
            None => r matches Err(TargetNameError::InvalidFormat(t)) && t@ == target@,
        }),
{
    let v = chars_of(target);
    let mut i: usize = 0;
    while i < v.len() && i + 1 < v.len()
        invariant
            v@ == target@,
            i <= v.len(),
            separator_from(v@, 0) == separator_from(v@, i as int),
        decreases v.len() - i,
    {
        if v[i] == ':' && v[i + 1] == ':' {
            return Ok(crate::text::string_from_range(&v, 0, i));
        }
        i += 1;
    }
    Err(TargetNameError::InvalidFormat(String::from_str(target)))
}

/// Reading the bus back from a control-path name gives the target's bus,
/// for bus names without a colon.
pub proof fn lemma_target_name_round_trip(name: Seq<char>, lane: LaneKind)
    requires
        forall|k: int| 0 <= k < name.len() ==> name[k] != ':',
    ensures
        ({
            let full = name + "::"@ + lane_text(lane);
            separator_from(full, 0) == Some(name.len() as int) && full.subrange(
                0,
                name.len() as int,
            ) == name
        }),
{
    reveal_strlit("::");
    let full = name + "::"@ + lane_text(lane);
    assert(full.subrange(0, name.len() as int) =~= name);
    assert(full[name.len() as int] == ':' && full[name.len() as int + 1] == ':');
    lemma_separator_skips(full, 0, name.len() as int);
}

/// Reading the lane back from a control-path name gives the target's lane,
/// for bus names without a colon.
pub proof fn lemma_target_lane_round_trip(name: Seq<char>, lane: LaneKind)
    requires
        forall|k: int| 0 <= k < name.len() ==> name[k] != ':',
    ensures
        ({
            let full = name + "::"@ + lane_text(lane);
            separator_from(full, 0) == Some(name.len() as int) && lane_named(
                full.subrange(name.len() as int + 2, full.len() as int),
            ) == Some(lane)
        }),
{
    reveal_strlit("::");
    reveal_strlit("Volume");
    reveal_strlit("EqLowGain");
    reveal_strlit("EqPresenceGain");
    reveal_strlit("EqAirGain");
    let full = name + "::"@ + lane_text(lane);
    lemma_target_name_round_trip(name, lane);
    assert(full.subrange(name.len() as int + 2, full.len() as int) =~= lane_text(lane));
    let (v, l, p, a) = (
        lane_text(LaneKind::Volume),
        lane_text(LaneKind::EqLowGain),
        lane_text(LaneKind::EqPresenceGain),
        lane_text(LaneKind::EqAirGain),
    );
    assert(v.len() == 6 && l.len() == 9 && p.len() == 14 && a.len() == 9);
    assert(l[2] == 'L' && a[2] == 'A');
    assert(v != l && v != p && v != a && l != p && p != a);
    assert(l != a);
}

proof fn lemma_separator_skips(s: Seq<char>, i: int, n: int)
    requires
        0 <= i <= n,
        n + 1 < s.len(),
        s[n] == ':' && s[n + 1] == ':',
        forall|k: int| 0 <= k < n ==> s[k] != ':',
    ensures
        separator_from(s, i) == Some(n),
    decreases n - i,
{
    if i < n {
        lemma_separator_skips(s, i + 1, n);
    }
}

// ---------------------------------------------------------------------------
// Answers to commands that are not executed.
/// How a bar range is spoken of in a suggestion.
pub open spec fn range_phrase(tr: Option<TimeRange>) -> Seq<char> {
    match tr {
        Some(t) => "bars "@ + decimal_text(t.start_bar as nat) + "-"@ + decimal_text(
            t.end_bar as nat,
        ),
        None => "the selected range"@,
    }
}

/// The bus a suggestion is about: the first named, else the first violins.
pub open spec fn suggestion_target(targets: Seq<Seq<char>>) -> Seq<char> {
    if targets.len() > 0 {
        targets[0]
    } else {
        "STR_HI"@
    }
}

pub open spec fn spec_suggestions(intent: Intent) -> Seq<Seq<char>> {
    let tr = range_phrase(intent.time_range);
    let t = suggestion_target(strings_view(intent.targets@));
    seq![
        "Lift "@ + t + " by +2.0 dB in "@ + tr + "."@,
        "Reduce competing section by -2.0 dB in "@ + tr + "."@,
        "Apply +1.0 dB trim plus EQ Presence +1.0 dB to "@ + t + " in "@ + tr + "."@,
    ]
}

fn range_text(tr: Option<TimeRange>) -> (s: String)
    ensures
        s@ == range_phrase(tr),
{
    match tr {
        Some(t) => {
            let mut s = String::from_str("bars ");
            push_decimal(&mut s, t.start_bar as u64);
            append_str(&mut s, "-");
            push_decimal(&mut s, t.end_bar as u64);
            s
        },
        None => String::from_str("the selected range"),
    }
}

/// The three options offered when a command asks for a suggestion.
pub fn build_suggestions(intent: &Intent) -> (out: Vec<String>)
    ensures
        strings_view(out@) == spec_suggestions(*intent),
{
    let tr = range_text(intent.time_range);
    let target = if intent.targets.len() > 0 {
        intent.targets[0].clone()
    } else {
        String::from_str("STR_HI")
    };
    assert(target@ == suggestion_target(strings_view(intent.targets@)));
    let mut a = String::from_str("Lift ");
    append_str(&mut a, target.as_str());
    append_str(&mut a, " by +2.0 dB in ");
    append_str(&mut a, tr.as_str());
    append_str(&mut a, ".");
    let mut b = String::from_str("Reduce competing section by -2.0 dB in ");
    append_str(&mut b, tr.as_str());
    append_str(&mut b, ".");
    let mut c = String::from_str("Apply +1.0 dB trim plus EQ Presence +1.0 dB to ");
    append_str(&mut c, target.as_str());
    append_str(&mut c, " in ");
    append_str(&mut c, tr.as_str());
    append_str(&mut c, ".");
    let mut out: Vec<String> = Vec::new();
    out.push(a);
    out.push(b);
    out.push(c);
    assert(strings_view(out@) =~= spec_suggestions(*intent));
    out
}

pub open spec fn spec_clarification(codes: Seq<ReasonCode>) -> Seq<char> {
    let needs_target = codes.contains(ReasonCode::MissingTarget) || codes.contains(
        ReasonCode::AmbiguousTarget,
    );
    let needs_time = codes.contains(ReasonCode::MissingTimeWindow);
    if needs_target && needs_time {
        "Please specify both section and bar range, for example: Violins bars 26-29."@
    } else if needs_target {
        "Please specify the target section, for example: First violins."@
    } else if needs_time {
        "Please specify the bar range, for example: bars 26-29."@
    } else {
        "Please restate the instruction in a more concrete way."@
    }
}

fn has_code(codes: &Vec<ReasonCode>, c: ReasonCode) -> (r: bool)
    ensures
        r == codes@.contains(c),
{
    let mut i: usize = 0;
    while i < codes.len()
        invariant
            i <= codes.len(),
            forall|j: int| 0 <= j < i ==> codes@[j] != c,
        decreases codes.len() - i,
    {
        if codes[i] == c {
            return true;
        }
        i += 1;
    }
    false
}

/// The question asked back when a command needs clarifying: it asks for the
/// section, the bars, or both, after what the reason codes say is missing.
pub fn build_clarification_prompt(intent: &Intent) -> (s: String)
    ensures
        s@ == spec_clarification(intent.reason_codes@),
{
    let needs_target = has_code(&intent.reason_codes, ReasonCode::MissingTarget) || has_code(
        &intent.reason_codes,
        ReasonCode::AmbiguousTarget,
    );
    let needs_time = has_code(&intent.reason_codes, ReasonCode::MissingTimeWindow);
    if needs_target && needs_time {
        String::from_str(
            "Please specify both section and bar range, for example: Violins bars 26-29.",
        )
    } else if needs_target {
        String::from_str("Please specify the target section, for example: First violins.")
    } else if needs_time {
        String::from_str("Please specify the bar range, for example: bars 26-29.")
    } else {
        String::from_str("Please restate the instruction in a more concrete way.")
    }
}

} // verus!
