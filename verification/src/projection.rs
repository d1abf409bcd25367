//! What a reconciliation projects before it is committed: the effect on each
//! predecessor endpoint the successor maps or adds, the dispositions of the
//! shared review, evidence and coverage bindings, and the handles that bind a
//! preview to its commit.

use vstd::prelude::*;

use crate::document::{
    effect_text, normalized_effect, opt_view, spec_normalized_effect, PlanDocument, PlanReconciliation,
    ReconciliationEffect,
};
use crate::identity::{projection_handle, spec_projection_handle};
use crate::order::{text_lt, text_views, SortKey};
use crate::records::{DecompositionMappingRecord, DecompositionSharedBindingRecord};
use crate::text::{decimal, i64_decimal, str_eq};

verus! {

/// A projected endpoint effect as text: category, source id, target,
/// disposition, effect, qualification and observed handle.
pub type EffectView = (Seq<char>, i64, Option<Seq<char>>, Seq<char>, Option<Seq<char>>, Seq<char>, Seq<char>);

pub open spec fn mapping_view(r: DecompositionMappingRecord) -> EffectView {
    (
        r.category@,
        r.source_id,
        opt_view(r.target),
        r.disposition@,
        opt_view(r.effect),
        r.qualification@,
        r.observed_handle@,
    )
}

pub open spec fn mapping_view_fn() -> spec_fn(DecompositionMappingRecord) -> EffectView {
    |r: DecompositionMappingRecord| mapping_view(r)
}

pub open spec fn mapping_views(s: Seq<DecompositionMappingRecord>) -> Seq<EffectView> {
    s.map_values(mapping_view_fn())
}

pub open spec fn or_dash(o: Option<Seq<char>>) -> Seq<char> {
    match o {
        Some(s) => s,
        None => "-"@,
    }
}

/// How far a mapped endpoint's state carries over: a preserved retained
/// endpoint stays qualified, an opened or new one is open, a retired one is
/// history only.
pub open spec fn spec_effect_qualification(
    disposition: Seq<char>,
    effect: Option<ReconciliationEffect>,
) -> Seq<char> {
    if disposition == "retained"@ && spec_normalized_effect(effect) == ReconciliationEffect::Preserve {
        "preserved_qualified"@
    } else if disposition == "retained"@ {
        "open"@
    } else if disposition == "new"@ {
        "open"@
    } else if disposition == "retired"@ {
        "historical_only"@
    } else {
        "unqualified"@
    }
}

pub fn effect_qualification(disposition: &str, effect: Option<ReconciliationEffect>) -> (r:
    &'static str)
    ensures
        r@ == spec_effect_qualification(disposition@, effect),
{
    let retained = str_eq(disposition, "retained");
    if retained && matches!(normalized_effect(effect), ReconciliationEffect::Preserve) {
        "preserved_qualified"
    } else if retained {
        "open"
    } else if str_eq(disposition, "new") {
        "open"
    } else if str_eq(disposition, "retired") {
        "historical_only"
    } else {
        "unqualified"
    }
}

/// The effect a retained or new mapping records.
pub open spec fn recorded_effect(disposition: Seq<char>, effect: Option<ReconciliationEffect>) -> Option<
    Seq<char>,
> {
    if disposition == "retained"@ || disposition == "new"@ {
        Some(effect_text(spec_normalized_effect(effect)))
    } else {
        None
    }
}

/// The projected effect on one endpoint, with the handle of what it observed.
pub open spec fn spec_projected_effect(
    category: Seq<char>,
    source_id: i64,
    target: Option<Seq<char>>,
    disposition: Seq<char>,
    effect: Option<ReconciliationEffect>,
    reason: Option<Seq<char>>,
) -> EffectView {
    let normalized = recorded_effect(disposition, effect);
    (
        category,
        source_id,
        target,
        disposition,
        normalized,
        spec_effect_qualification(disposition, effect),
        spec_projection_handle(
            "projected-owned-effect"@,
            seq![
                category,
                decimal(source_id as int),
                or_dash(target),
                disposition,
                or_dash(normalized),
                or_dash(reason),
            ],
        ),
    )
}

fn dash_or(o: &Option<String>) -> (r: String)
    ensures
        r@ == or_dash(opt_view(*o)),
{
    proof {
        reveal_strlit("-");
    }
    match o {
        Some(s) => s.clone(),
        None => String::from_str("-"),
    }
}

/// The projected effect on one endpoint.
pub fn projected_effect(
    category: &str,
    source_id: i64,
    target: Option<String>,
    disposition: &str,
    effect: Option<ReconciliationEffect>,
    reason: Option<&str>,
) -> (r: DecompositionMappingRecord)
    ensures
        mapping_view(r) == spec_projected_effect(
            category@,
            source_id,
            opt_view(target),
            disposition@,
            effect,
            match reason {
                Some(s) => Some(s@),
                None => None,
            },
        ),
{
    let normalized = if str_eq(disposition, "retained") || str_eq(disposition, "new") {
        Some(String::from_str(normalized_effect(effect).as_str()))
    } else {
        None
    };
    assert(opt_view(normalized) == recorded_effect(disposition@, effect));
    let qualification = effect_qualification(disposition, effect);
    let mut values: Vec<String> = Vec::new();
    values.push(String::from_str(category));
    values.push(i64_decimal(source_id));
    values.push(dash_or(&target));
    values.push(String::from_str(disposition));
    values.push(dash_or(&normalized));
    let reason_text = match reason {
        Some(s) => String::from_str(s),
        None => {
            proof {
                reveal_strlit("-");
            }
            String::from_str("-")
        },
    };
    values.push(reason_text);
    proof {
        reveal_strlit("-");
    }
    assert(values@.map_values(|v: String| v@) =~= seq![
        category@,
        decimal(source_id as int),
        or_dash(opt_view(target)),
        disposition@,
        or_dash(opt_view(normalized)),
        or_dash(
            match reason {
                Some(s) => Some(s@),
                None => None,
            },
        ),
    ]);
    let observed_handle = projection_handle("projected-owned-effect", &values);
    let cat = String::from_str(category);
    let disp = String::from_str(disposition);
    let qual = String::from_str(qualification);
    assert(cat@ == category@);
    assert(disp@ == disposition@);
    assert(qual@ == spec_effect_qualification(disposition@, effect));
    let ghost reason_spec = match reason {
        Some(s) => Some(s@),
        None => None,
    };
    let ghost expected = spec_projected_effect(
        category@,
        source_id,
        opt_view(target),
        disposition@,
        effect,
        reason_spec,
    );
    assert(seq![
        category@,
        decimal(source_id as int),
        or_dash(opt_view(target)),
        disposition@,
        or_dash(recorded_effect(disposition@, effect)),
        or_dash(reason_spec),
    ] =~= values@.map_values(|v: String| v@));
    assert(observed_handle@ == expected.6);
    DecompositionMappingRecord {
        category: cat,
        source_id,
        target,
        disposition: disp,
        effect: normalized,
        qualification: qual,
        observed_handle,
    }
}

pub open spec fn prefixed(prefix: Seq<char>, o: Option<String>) -> Option<Seq<char>> {
    match o {
        Some(s) => Some(prefix + s@),
        None => None,
    }
}

pub open spec fn reason_view(o: Option<String>) -> Option<Seq<char>> {
    opt_view(o)
}

pub open spec fn task_effects(ts: Seq<crate::document::TaskReconciliation>) -> Seq<EffectView>
    decreases ts.len(),
{
    if ts.len() == 0 {
        Seq::empty()
    } else {
        let m = ts.last();
        task_effects(ts.drop_last()).push(
            spec_projected_effect(
                "task"@,
                m.source,
                prefixed("item:"@, m.item),
                m.disposition@,
                m.effect,
                reason_view(m.reason),
            ),
        )
    }
}

pub open spec fn checklist_target(m: crate::document::ChecklistReconciliation) -> Option<Seq<char>> {
    if m.item is Some && m.boundary is Some {
        Some("boundary:"@ + m.item->0@ + "/"@ + m.boundary->0@)
    } else {
        None
    }
}

pub open spec fn checklist_effects(cs: Seq<crate::document::ChecklistReconciliation>) -> Seq<EffectView>
    decreases cs.len(),
{
    if cs.len() == 0 {
        Seq::empty()
    } else {
        let m = cs.last();
        checklist_effects(cs.drop_last()).push(
            spec_projected_effect(
                "checklist"@,
                m.source,
                checklist_target(m),
                m.disposition@,
                m.effect,
                reason_view(m.reason),
            ),
        )
    }
}

pub open spec fn gate_target(m: crate::document::GateReconciliation, boundary: Option<String>) -> Option<
    Seq<char>,
> {
    if m.disposition@ == "retained"@ {
        Some(
            "gate:"@ + crate::successor::text_of(m.item) + "/"@ + crate::successor::text_of(m.gate)
                + "@"@ + crate::successor::text_of(boundary),
        )
    } else {
        None
    }
}

pub open spec fn gate_effects(
    gs: Seq<crate::document::GateReconciliation>,
    boundaries: Seq<Option<String>>,
) -> Seq<EffectView>
    decreases gs.len(),
{
    if gs.len() == 0 {
        Seq::empty()
    } else {
        let m = gs.last();
        gate_effects(gs.drop_last(), boundaries).push(
            spec_projected_effect(
                "gate"@,
                m.source,
                gate_target(m, boundaries[gs.len() - 1]),
                m.disposition@,
                m.effect,
                reason_view(m.reason),
            ),
        )
    }
}

pub open spec fn phase_effects(ps: Seq<crate::document::PhaseReconciliation>) -> Seq<EffectView>
    decreases ps.len(),
{
    if ps.len() == 0 {
        Seq::empty()
    } else {
        let m = ps.last();
        phase_effects(ps.drop_last()).push(
            spec_projected_effect(
                "phase"@,
                m.source,
                prefixed("slice:"@, m.slice),
                m.disposition@,
                m.effect,
                reason_view(m.reason),
            ),
        )
    }
}

pub open spec fn dependency_target(m: crate::document::DependencyReconciliation) -> Option<Seq<char>> {
    if m.from is Some && m.to is Some {
        Some("dependency:"@ + m.from->0@ + "->"@ + m.to->0@)
    } else {
        None
    }
}

pub open spec fn dependency_effects(ds: Seq<crate::document::DependencyReconciliation>) -> Seq<
    EffectView,
>
    decreases ds.len(),
{
    if ds.len() == 0 {
        Seq::empty()
    } else {
        let m = ds.last();
        dependency_effects(ds.drop_last()).push(
            spec_projected_effect(
                "dependency"@,
                m.source,
                dependency_target(m),
                m.disposition@,
                m.effect,
                reason_view(m.reason),
            ),
        )
    }
}

/// The projected effects of the reconciliation section's mappings, in the
/// order of the section: tasks, checklist items, gates, phases, dependencies.
/// `boundaries` holds the resolved boundary identity of each gate mapping.
pub open spec fn mapped_effects(r: PlanReconciliation, boundaries: Seq<Option<String>>) -> Seq<
    EffectView,
> {
    task_effects(r.tasks@) + checklist_effects(r.checklist@) + gate_effects(r.gates@, boundaries)
        + phase_effects(r.phases@) + dependency_effects(r.dependencies@)
}

fn with_prefix(prefix: &str, o: &Option<String>) -> (r: Option<String>)
    ensures
        opt_view(r) == prefixed(prefix@, *o),
{
    match o {
        Some(s) => Some(String::from_str(prefix).concat(s.as_str())),
        None => None,
    }
}

fn opt_str(o: &Option<String>) -> (r: Option<&str>)
    ensures
        match r {
            Some(s) => *o is Some && s@ == o->0@,
            None => *o is None,
        },
{
    match o {
        Some(s) => Some(s.as_str()),
        None => None,
    }
}

proof fn lemma_reason(o: Option<String>, r: Option<&str>)
    requires
        match r {
            Some(s) => o is Some && s@ == o->0@,
            None => o is None,
        },
    ensures
        (match r {
            Some(s) => Some(s@),
            None => None,
        }) == reason_view(o),
{
}

/// The projected effects of the mappings, in the section's order.
pub fn project_mapped_effects(r: &PlanReconciliation, boundaries: &Vec<Option<String>>) -> (out: Vec<
    DecompositionMappingRecord,
>)
    requires
        boundaries@.len() == r.gates@.len(),
    ensures
        mapping_views(out@) == mapped_effects(*r, boundaries@),
{
    let mut out: Vec<DecompositionMappingRecord> = Vec::new();
    let mut i: usize = 0;
    while i < r.tasks.len()
        invariant
            i <= r.tasks@.len(),
            mapping_views(out@) == task_effects(r.tasks@.take(i as int)),
        decreases r.tasks@.len() - i,
    {
        let m = &r.tasks[i];
        let reason = opt_str(&m.reason);
        proof {
            lemma_reason(m.reason, reason);
        }
        let e = projected_effect(
            "task",
            m.source,
            with_prefix("item:", &m.item),
            m.disposition.as_str(),
            m.effect,
            reason,
        );
        let ghost before = out@;
        out.push(e);
        assert(r.tasks@.take(i as int + 1).drop_last() =~= r.tasks@.take(i as int));
        assert(mapping_views(out@) =~= mapping_views(before).push(mapping_view(e)));
        i += 1;
    }
    assert(r.tasks@.take(r.tasks@.len() as int) =~= r.tasks@);
    let ghost after_tasks = out@;
    let mut i: usize = 0;
    while i < r.checklist.len()
        invariant
            i <= r.checklist@.len(),
            out@.len() >= after_tasks.len(),
            out@.take(after_tasks.len() as int) == after_tasks,
            mapping_views(after_tasks) == task_effects(r.tasks@),
            mapping_views(out@) == task_effects(r.tasks@) + checklist_effects(
                r.checklist@.take(i as int),
            ),
        decreases r.checklist@.len() - i,
    {
        let m = &r.checklist[i];
        let reason = opt_str(&m.reason);
        proof {
            lemma_reason(m.reason, reason);
        }
        let target = match (&m.item, &m.boundary) {
            (Some(item), Some(boundary)) => Some(
                String::from_str("boundary:").concat(item.as_str()).concat("/").concat(
                    boundary.as_str(),
                ),
            ),
            _ => None,
        };
        assert(opt_view(target) == checklist_target(r.checklist@[i as int]));
        let e = projected_effect(
            "checklist",
            m.source,
            target,
            m.disposition.as_str(),
            m.effect,
            reason,
        );
        let ghost before = out@;
        out.push(e);
        assert(r.checklist@.take(i as int + 1).drop_last() =~= r.checklist@.take(i as int));
        assert(mapping_views(out@) =~= mapping_views(before).push(mapping_view(e)));
        assert(out@.take(after_tasks.len() as int) =~= before.take(after_tasks.len() as int));
        i += 1;
    }
    assert(r.checklist@.take(r.checklist@.len() as int) =~= r.checklist@);
    let ghost prefix2 = mapping_views(out@);
    let mut i: usize = 0;
    while i < r.gates.len()
        invariant
            i <= r.gates@.len(),
            boundaries@.len() == r.gates@.len(),
            prefix2 == task_effects(r.tasks@) + checklist_effects(r.checklist@),
            mapping_views(out@) == prefix2 + gate_effects(r.gates@.take(i as int), boundaries@),
        decreases r.gates@.len() - i,
    {
        let m = &r.gates[i];
        let reason = opt_str(&m.reason);
        proof {
            lemma_reason(m.reason, reason);
        }
        let target = if str_eq(m.disposition.as_str(), "retained") {
            let item = match &m.item {
                Some(s) => s.clone(),
                None => String::new(),
            };
            let gate = match &m.gate {
                Some(s) => s.clone(),
                None => String::new(),
            };
            let boundary = match &boundaries[i] {
                Some(s) => s.clone(),
                None => String::new(),
            };
            Some(
                String::from_str("gate:").concat(item.as_str()).concat("/").concat(
                    gate.as_str(),
                ).concat("@").concat(boundary.as_str()),
            )
        } else {
            None
        };
        assert(opt_view(target) == gate_target(r.gates@[i as int], boundaries@[i as int]));
        let e = projected_effect("gate", m.source, target, m.disposition.as_str(), m.effect, reason);
        let ghost before = out@;
        out.push(e);
        proof {
            let t = r.gates@.take(i as int + 1);
            assert(t.drop_last() =~= r.gates@.take(i as int));
            assert(t.last() == r.gates@[i as int]);
            assert(gate_effects(t, boundaries@) == gate_effects(r.gates@.take(i as int), boundaries@).push(
                mapping_view(e),
            ));
            assert(mapping_views(out@) =~= mapping_views(before).push(mapping_view(e)));
        }
        i += 1;
    }
    assert(r.gates@.take(r.gates@.len() as int) =~= r.gates@);
    let ghost prefix3 = mapping_views(out@);
    let mut i: usize = 0;
    while i < r.phases.len()
        invariant
            i <= r.phases@.len(),
            prefix3 == task_effects(r.tasks@) + checklist_effects(r.checklist@) + gate_effects(
                r.gates@,
                boundaries@,
            ),
            mapping_views(out@) == prefix3 + phase_effects(r.phases@.take(i as int)),
        decreases r.phases@.len() - i,
    {
        let m = &r.phases[i];
        let reason = opt_str(&m.reason);
        proof {
            lemma_reason(m.reason, reason);
        }
        let e = projected_effect(
            "phase",
            m.source,
            with_prefix("slice:", &m.slice),
            m.disposition.as_str(),
            m.effect,
            reason,
        );
        let ghost before = out@;
        out.push(e);
        assert(r.phases@.take(i as int + 1).drop_last() =~= r.phases@.take(i as int));
        assert(mapping_views(out@) =~= mapping_views(before).push(mapping_view(e)));
        i += 1;
    }
    assert(r.phases@.take(r.phases@.len() as int) =~= r.phases@);
    let ghost prefix4 = mapping_views(out@);
    let mut i: usize = 0;
    while i < r.dependencies.len()
        invariant
            i <= r.dependencies@.len(),
            prefix4 == task_effects(r.tasks@) + checklist_effects(r.checklist@) + gate_effects(
                r.gates@,
                boundaries@,
            ) + phase_effects(r.phases@),
            mapping_views(out@) == prefix4 + dependency_effects(r.dependencies@.take(i as int)),
        decreases r.dependencies@.len() - i,
    {
        let m = &r.dependencies[i];
        let reason = opt_str(&m.reason);
        proof {
            lemma_reason(m.reason, reason);
        }
        let target = match (&m.from, &m.to) {
            (Some(from), Some(to)) => Some(
                String::from_str("dependency:").concat(from.as_str()).concat("->").concat(
                    to.as_str(),
                ),
            ),
            _ => None,
        };
        assert(opt_view(target) == dependency_target(r.dependencies@[i as int]));
        let e = projected_effect(
            "dependency",
            m.source,
            target,
            m.disposition.as_str(),
            m.effect,
            reason,
        );
        let ghost before = out@;
        out.push(e);
        assert(r.dependencies@.take(i as int + 1).drop_last() =~= r.dependencies@.take(i as int));
        assert(mapping_views(out@) =~= mapping_views(before).push(mapping_view(e)));
        i += 1;
    }
    assert(r.dependencies@.take(r.dependencies@.len() as int) =~= r.dependencies@);
    out
}

// ---- endpoints the successor adds ----
/// A retained mapping projects an effect onto `t`.
pub open spec fn retained_target(effects: Seq<EffectView>, t: Seq<char>) -> bool {
    exists|i: int|
        0 <= i < effects.len() && (#[trigger] effects[i]).3 == "retained"@ && effects[i].2 == Some(t)
}

/// A retained mapping projects an effect onto a target starting with `prefix`.
pub open spec fn retained_prefix(effects: Seq<EffectView>, prefix: Seq<char>) -> bool {
    exists|i: int|
        0 <= i < effects.len() && (#[trigger] effects[i]).3 == "retained"@ && effects[i].2 is Some
            && prefix.is_prefix_of(effects[i].2->0)
}

/// The effect of a successor endpoint no mapping retains: new and open.
pub open spec fn new_effect(category: Seq<char>, target: Seq<char>) -> EffectView {
    spec_projected_effect(category, 0, Some(target), "new"@, Some(ReconciliationEffect::Open), None)
}

pub open spec fn add_new(effects: Seq<EffectView>, category: Seq<char>, target: Seq<char>) -> Seq<
    EffectView,
> {
    if retained_target(effects, target) {
        Seq::empty()
    } else {
        seq![new_effect(category, target)]
    }
}

pub open spec fn boundary_additions(
    key: Seq<char>,
    bs: Seq<crate::document::PlanChecklistBoundary>,
    effects: Seq<EffectView>,
) -> Seq<EffectView>
    decreases bs.len(),
{
    if bs.len() == 0 {
        Seq::empty()
    } else {
        boundary_additions(key, bs.drop_last(), effects) + add_new(
            effects,
            "checklist"@,
            "boundary:"@ + key + "/"@ + bs.last().key@,
        )
    }
}

pub open spec fn gate_prefix(key: Seq<char>, gate: Seq<char>) -> Seq<char> {
    "gate:"@ + key + "/"@ + gate + "@"@
}

pub open spec fn gate_additions(key: Seq<char>, gs: Seq<String>, effects: Seq<EffectView>) -> Seq<
    EffectView,
>
    decreases gs.len(),
{
    if gs.len() == 0 {
        Seq::empty()
    } else {
        let prefix = gate_prefix(key, gs.last()@);
        gate_additions(key, gs.drop_last(), effects) + if retained_prefix(effects, prefix) {
            Seq::empty()
        } else {
            add_new(effects, "gate"@, prefix + "new"@)
        }
    }
}

pub open spec fn one_item_additions(item: crate::document::PlanItem, effects: Seq<EffectView>) -> Seq<
    EffectView,
> {
    add_new(effects, "task"@, "item:"@ + item.key@) + boundary_additions(
        item.key@,
        item.checklist@,
        effects,
    ) + gate_additions(item.key@, item.completion.gates@, effects)
}

pub open spec fn item_additions(items: Seq<crate::document::PlanItem>, effects: Seq<EffectView>) -> Seq<
    EffectView,
>
    decreases items.len(),
{
    if items.len() == 0 {
        Seq::empty()
    } else {
        item_additions(items.drop_last(), effects) + one_item_additions(items.last(), effects)
    }
}

pub open spec fn dependency_additions(key: Seq<char>, preds: Seq<String>, effects: Seq<EffectView>) -> Seq<
    EffectView,
>
    decreases preds.len(),
{
    if preds.len() == 0 {
        Seq::empty()
    } else {
        dependency_additions(key, preds.drop_last(), effects) + add_new(
            effects,
            "dependency"@,
            "dependency:"@ + preds.last()@ + "->"@ + key,
        )
    }
}

pub open spec fn one_slice_additions(slice: crate::document::PlanSlice, effects: Seq<EffectView>) -> Seq<
    EffectView,
> {
    add_new(effects, "phase"@, "slice:"@ + slice.key@) + dependency_additions(
        slice.key@,
        slice.depends_on@,
        effects,
    )
}

pub open spec fn slice_additions(slices: Seq<crate::document::PlanSlice>, effects: Seq<EffectView>) -> Seq<
    EffectView,
>
    decreases slices.len(),
{
    if slices.len() == 0 {
        Seq::empty()
    } else {
        slice_additions(slices.drop_last(), effects) + one_slice_additions(slices.last(), effects)
    }
}

/// Every projected endpoint effect, before ordering: the mapped ones, then
/// a new effect for each successor item, boundary, gate, slice and slice
/// dependency that no retained mapping targets.
pub open spec fn all_effects(p: PlanDocument, boundaries: Seq<Option<String>>) -> Seq<EffectView> {
    let m = mapped_effects(p.reconciliation->0, boundaries);
    m + item_additions(p.items@, m) + slice_additions(p.slices@, m)
}

fn retained_targets(effects: &Vec<DecompositionMappingRecord>) -> (out: Vec<String>)
    ensures
        forall|t: Seq<char>|
            text_views(out@).contains(t) <==> retained_target(mapping_views(effects@), t),
{
    let ghost m = mapping_views(effects@);
    let mut out: Vec<String> = Vec::new();
    let mut i: usize = 0;
    while i < effects.len()
        invariant
            i <= effects@.len(),
            m == mapping_views(effects@),
            forall|t: Seq<char>|
                text_views(out@).contains(t) <==> exists|k: int|
                    0 <= k < i && (#[trigger] m[k]).3 == "retained"@ && m[k].2 == Some(t),
        decreases effects@.len() - i,
    {
        assert(m[i as int] == mapping_view(effects@[i as int]));
        if str_eq(effects[i].disposition.as_str(), "retained") {
            if let Some(t) = &effects[i].target {
                let ghost before = out@;
                out.push(t.clone());
                proof {
                    crate::successor::lemma_push_contains(before, out@.last(), out@);
                    assert forall|x: Seq<char>|
                        text_views(out@).contains(x) <==> exists|k: int|
                            0 <= k < i + 1 && (#[trigger] m[k]).3 == "retained"@ && m[k].2 == Some(x) by {
                        if exists|k: int|
                            0 <= k < i + 1 && (#[trigger] m[k]).3 == "retained"@ && m[k].2 == Some(x) {
                            let k = choose|k: int|
                                0 <= k < i + 1 && (#[trigger] m[k]).3 == "retained"@ && m[k].2 == Some(x);
                            if k < i {
                                assert(text_views(before).contains(x));
                            }
                        }
                        if text_views(before).contains(x) {
                            let k = choose|k: int|
                                0 <= k < i && (#[trigger] m[k]).3 == "retained"@ && m[k].2 == Some(x);
                            assert(0 <= k < i + 1);
                        }
                    }
                }
            } else {
                assert forall|x: Seq<char>|
                    text_views(out@).contains(x) <==> exists|k: int|
                        0 <= k < i + 1 && (#[trigger] m[k]).3 == "retained"@ && m[k].2 == Some(x) by {
                    if exists|k: int|
                        0 <= k < i + 1 && (#[trigger] m[k]).3 == "retained"@ && m[k].2 == Some(x) {
                        let k = choose|k: int|
                            0 <= k < i + 1 && (#[trigger] m[k]).3 == "retained"@ && m[k].2 == Some(x);
                        assert(k != i);
                    }
                }
            }
        } else {
            assert forall|x: Seq<char>|
                text_views(out@).contains(x) <==> exists|k: int|
                    0 <= k < i + 1 && (#[trigger] m[k]).3 == "retained"@ && m[k].2 == Some(x) by {
                if exists|k: int|
                    0 <= k < i + 1 && (#[trigger] m[k]).3 == "retained"@ && m[k].2 == Some(x) {
                    let k = choose|k: int|
                        0 <= k < i + 1 && (#[trigger] m[k]).3 == "retained"@ && m[k].2 == Some(x);
                    assert(k != i);
                }
            }
        }
        i += 1;
    }
    out
}

/// Whether `s` starts with `prefix`.
pub fn text_starts_with(s: &str, prefix: &str) -> (r: bool)
    ensures
        r == prefix@.is_prefix_of(s@),
{
    let a = crate::text::chars_of(s);
    let b = crate::text::chars_of(prefix);
    if b.len() > a.len() {
        return false;
    }
    let mut i: usize = 0;
    while i < b.len()
        invariant
            i <= b@.len() <= a@.len(),
            a@ == s@,
            b@ == prefix@,
            forall|k: int| 0 <= k < i ==> b@[k] == a@[k],
        decreases b@.len() - i,
    {
        if a[i] != b[i] {
            return false;
        }
        i += 1;
    }
    true
}

fn any_with_prefix(retained: &Vec<String>, prefix: &str) -> (r: bool)
    ensures
        r == exists|t: Seq<char>| text_views(retained@).contains(t) && prefix@.is_prefix_of(t),
{
    let mut i: usize = 0;
    while i < retained.len()
        invariant
            i <= retained@.len(),
            forall|k: int| 0 <= k < i ==> !prefix@.is_prefix_of(#[trigger] retained@[k]@),
        decreases retained@.len() - i,
    {
        if text_starts_with(retained[i].as_str(), prefix) {
            assert(text_views(retained@)[i as int] == retained@[i as int]@);
            return true;
        }
        i += 1;
    }
    assert forall|t: Seq<char>| text_views(retained@).contains(t) implies !prefix@.is_prefix_of(t) by {
        let k = choose|k: int| 0 <= k < text_views(retained@).len() && text_views(retained@)[k] == t;
        assert(retained@[k]@ == t);
    }
    false
}

fn push_new(
    out: &mut Vec<DecompositionMappingRecord>,
    retained: &Vec<String>,
    Ghost(m): Ghost<Seq<EffectView>>,
    category: &str,
    target: String,
)
    requires
        forall|t: Seq<char>| text_views(retained@).contains(t) <==> retained_target(m, t),
    ensures
        mapping_views(final(out)@) == mapping_views(old(out)@) + add_new(m, category@, target@),
{
    let ghost t = target@;
    if contains_text_view(retained, target.as_str()) {
        assert(mapping_views(out@) =~= mapping_views(out@) + Seq::<EffectView>::empty());
        return;
    }
    let e = projected_effect(category, 0, Some(target), "new", Some(ReconciliationEffect::Open), None);
    let ghost before = out@;
    out.push(e);
    proof {
        reveal_strlit("new");
        assert(mapping_view(e) == new_effect(category@, t));
        assert(mapping_views(out@) =~= mapping_views(before) + seq![mapping_view(e)]);
    }
}

fn contains_text_view(values: &Vec<String>, g: &str) -> (res: bool)
    ensures
        res == text_views(values@).contains(g@),
{
    let mut i: usize = 0;
    while i < values.len()
        invariant
            i <= values@.len(),
            forall|a: int| 0 <= a < i ==> (#[trigger] values@[a])@ != g@,
        decreases values@.len() - i,
    {
        if str_eq(values[i].as_str(), g) {
            assert(text_views(values@)[i as int] == g@);
            return true;
        }
        i += 1;
    }
    assert forall|a: int| 0 <= a < text_views(values@).len() implies text_views(values@)[a] != g@ by {
        assert(values@[a]@ != g@);
    }
    false
}

fn push_item_additions(
    out: &mut Vec<DecompositionMappingRecord>,
    retained: &Vec<String>,
    Ghost(m): Ghost<Seq<EffectView>>,
    item: &crate::document::PlanItem,
)
    requires
        forall|t: Seq<char>| text_views(retained@).contains(t) <==> retained_target(m, t),
    ensures
        mapping_views(final(out)@) == mapping_views(old(out)@) + one_item_additions(*item, m),
{
    let ghost start = mapping_views(out@);
    push_new(out, retained, Ghost(m), "task", String::from_str("item:").concat(item.key.as_str()));
    let ghost after_task = mapping_views(out@);
    let mut b: usize = 0;
    while b < item.checklist.len()
        invariant
            forall|t: Seq<char>| text_views(retained@).contains(t) <==> retained_target(m, t),
            b <= item.checklist@.len(),
            after_task == start + add_new(m, "task"@, "item:"@ + item.key@),
            mapping_views(out@) == after_task + boundary_additions(
                item.key@,
                item.checklist@.take(b as int),
                m,
            ),
        decreases item.checklist@.len() - b,
    {
        let target = String::from_str("boundary:").concat(item.key.as_str()).concat("/").concat(
            item.checklist[b].key.as_str(),
        );
        push_new(out, retained, Ghost(m), "checklist", target);
        assert(item.checklist@.take(b as int + 1).drop_last() =~= item.checklist@.take(b as int));
        b += 1;
    }
    assert(item.checklist@.take(item.checklist@.len() as int) =~= item.checklist@);
    let ghost after_boundaries = mapping_views(out@);
    let mut g: usize = 0;
    while g < item.completion.gates.len()
        invariant
            forall|t: Seq<char>| text_views(retained@).contains(t) <==> retained_target(m, t),
            g <= item.completion.gates@.len(),
            after_boundaries == start + add_new(m, "task"@, "item:"@ + item.key@) + boundary_additions(
                item.key@,
                item.checklist@,
                m,
            ),
            mapping_views(out@) == after_boundaries + gate_additions(
                item.key@,
                item.completion.gates@.take(g as int),
                m,
            ),
        decreases item.completion.gates@.len() - g,
    {
        let prefix = String::from_str("gate:").concat(item.key.as_str()).concat("/").concat(
            item.completion.gates[g].as_str(),
        ).concat("@");
        assert(prefix@ == gate_prefix(item.key@, item.completion.gates@[g as int]@));
        assert(item.completion.gates@.take(g as int + 1).drop_last() =~= item.completion.gates@.take(
            g as int,
        ));
        let has_prefix = any_with_prefix(retained, prefix.as_str());
        proof {
            assert(has_prefix == retained_prefix(m, prefix@)) by {
                if has_prefix {
                    let t = choose|t: Seq<char>|
                        text_views(retained@).contains(t) && prefix@.is_prefix_of(t);
                    assert(retained_target(m, t));
                    let i = choose|i: int|
                        0 <= i < m.len() && (#[trigger] m[i]).3 == "retained"@ && m[i].2 == Some(t);
                    assert(m[i].2->0 == t);
                }
                if retained_prefix(m, prefix@) {
                    let i = choose|i: int|
                        0 <= i < m.len() && (#[trigger] m[i]).3 == "retained"@ && m[i].2 is Some
                            && prefix@.is_prefix_of(m[i].2->0);
                    assert(retained_target(m, m[i].2->0));
                    assert(text_views(retained@).contains(m[i].2->0));
                }
            }
        }
        if !has_prefix {
            push_new(out, retained, Ghost(m), "gate", prefix.concat("new"));
        } else {
            assert(mapping_views(out@) =~= mapping_views(out@) + Seq::<EffectView>::empty());
        }
        g += 1;
    }
    assert(item.completion.gates@.take(item.completion.gates@.len() as int)
        =~= item.completion.gates@);
}

fn push_slice_additions(
    out: &mut Vec<DecompositionMappingRecord>,
    retained: &Vec<String>,
    Ghost(m): Ghost<Seq<EffectView>>,
    slice: &crate::document::PlanSlice,
)
    requires
        forall|t: Seq<char>| text_views(retained@).contains(t) <==> retained_target(m, t),
    ensures
        mapping_views(final(out)@) == mapping_views(old(out)@) + one_slice_additions(*slice, m),
{
    let ghost start = mapping_views(out@);
    push_new(out, retained, Ghost(m), "phase", String::from_str("slice:").concat(slice.key.as_str()));
    let ghost after_phase = mapping_views(out@);
    let mut d: usize = 0;
    while d < slice.depends_on.len()
        invariant
            forall|t: Seq<char>| text_views(retained@).contains(t) <==> retained_target(m, t),
            d <= slice.depends_on@.len(),
            after_phase == start + add_new(m, "phase"@, "slice:"@ + slice.key@),
            mapping_views(out@) == after_phase + dependency_additions(
                slice.key@,
                slice.depends_on@.take(d as int),
                m,
            ),
        decreases slice.depends_on@.len() - d,
    {
        let target = String::from_str("dependency:").concat(slice.depends_on[d].as_str()).concat(
            "->",
        ).concat(slice.key.as_str());
        push_new(out, retained, Ghost(m), "dependency", target);
        assert(slice.depends_on@.take(d as int + 1).drop_last() =~= slice.depends_on@.take(d as int));
        d += 1;
    }
    assert(slice.depends_on@.take(slice.depends_on@.len() as int) =~= slice.depends_on@);
}

/// Every projected endpoint effect, before ordering.
fn project_all_effects(p: &PlanDocument, r: &PlanReconciliation, boundaries: &Vec<Option<String>>) -> (out:
    Vec<DecompositionMappingRecord>)
    requires
        p.reconciliation == Some(*r),
        boundaries@.len() == r.gates@.len(),
    ensures
        mapping_views(out@) == all_effects(*p, boundaries@),
{
    let mut out = project_mapped_effects(r, boundaries);
    let ghost m = mapping_views(out@);
    let retained = retained_targets(&out);
    let mut i: usize = 0;
    while i < p.items.len()
        invariant
            forall|t: Seq<char>| text_views(retained@).contains(t) <==> retained_target(m, t),
            m == mapped_effects(*r, boundaries@),
            i <= p.items@.len(),
            mapping_views(out@) == m + item_additions(p.items@.take(i as int), m),
        decreases p.items@.len() - i,
    {
        push_item_additions(&mut out, &retained, Ghost(m), &p.items[i]);
        assert(p.items@.take(i as int + 1).drop_last() =~= p.items@.take(i as int));
        i += 1;
    }
    assert(p.items@.take(p.items@.len() as int) =~= p.items@);
    let mut j: usize = 0;
    while j < p.slices.len()
        invariant
            forall|t: Seq<char>| text_views(retained@).contains(t) <==> retained_target(m, t),
            m == mapped_effects(*r, boundaries@),
            j <= p.slices@.len(),
            mapping_views(out@) == m + item_additions(p.items@, m) + slice_additions(
                p.slices@.take(j as int),
                m,
            ),
        decreases p.slices@.len() - j,
    {
        push_slice_additions(&mut out, &retained, Ghost(m), &p.slices[j]);
        assert(p.slices@.take(j as int + 1).drop_last() =~= p.slices@.take(j as int));
        j += 1;
    }
    assert(p.slices@.take(p.slices@.len() as int) =~= p.slices@);
    out
}

// ---- ordering ----
/// `None` before any target, targets in code point order.
pub open spec fn target_lt(a: Option<Seq<char>>, b: Option<Seq<char>>) -> bool {
    match (a, b) {
        (None, Some(_)) => true,
        (Some(x), Some(y)) => text_lt(x, y),
        _ => false,
    }
}

impl SortKey for DecompositionMappingRecord {
    /// By category, then source id, then target.
    open spec fn key_lt(self, other: Self) -> bool {
        text_lt(self.category@, other.category@) || (self.category@ == other.category@ && (
        self.source_id < other.source_id || (self.source_id == other.source_id && target_lt(
            opt_view(self.target),
            opt_view(other.target),
        ))))
    }

    proof fn lemma_key_lt_irreflexive(a: Self) {
        crate::order::lemma_text_lt_irreflexive(a.category@);
        if a.target is Some {
            crate::order::lemma_text_lt_irreflexive(a.target->0@);
        }
    }

    proof fn lemma_key_lt_transitive(a: Self, b: Self, c: Self) {
        if text_lt(a.category@, b.category@) && text_lt(b.category@, c.category@) {
            crate::order::lemma_text_lt_transitive(a.category@, b.category@, c.category@);
        }
        if a.target is Some && b.target is Some && c.target is Some && text_lt(
            a.target->0@,
            b.target->0@,
        ) && text_lt(b.target->0@, c.target->0@) {
            crate::order::lemma_text_lt_transitive(a.target->0@, b.target->0@, c.target->0@);
        }
    }

    fn key_less(&self, other: &Self) -> (r: bool) {
        if crate::order::text_less(self.category.as_str(), other.category.as_str()) {
            return true;
        }
        if !str_eq(self.category.as_str(), other.category.as_str()) {
            return false;
        }
        if self.source_id != other.source_id {
            return self.source_id < other.source_id;
        }
        match (&self.target, &other.target) {
            (None, Some(_)) => true,
            (Some(x), Some(y)) => crate::order::text_less(x.as_str(), y.as_str()),
            _ => false,
        }
    }
}

impl SortKey for DecompositionSharedBindingRecord {
    /// By kind, then id.
    open spec fn key_lt(self, other: Self) -> bool {
        text_lt(self.kind@, other.kind@) || (self.kind@ == other.kind@ && self.id < other.id)
    }

    proof fn lemma_key_lt_irreflexive(a: Self) {
        crate::order::lemma_text_lt_irreflexive(a.kind@);
    }

    proof fn lemma_key_lt_transitive(a: Self, b: Self, c: Self) {
        if text_lt(a.kind@, b.kind@) && text_lt(b.kind@, c.kind@) {
            crate::order::lemma_text_lt_transitive(a.kind@, b.kind@, c.kind@);
        }
    }

    fn key_less(&self, other: &Self) -> (r: bool) {
        if crate::order::text_less(self.kind.as_str(), other.kind.as_str()) {
            return true;
        }
        str_eq(self.kind.as_str(), other.kind.as_str()) && self.id < other.id
    }
}

/// The order of mapping views: by category, then source id, then target.
pub open spec fn effect_view_order() -> spec_fn(EffectView, EffectView) -> bool {
    |a: EffectView, b: EffectView|
        text_lt(a.0, b.0) || (a.0 == b.0 && (a.1 < b.1 || (a.1 == b.1 && target_lt(a.2, b.2))))
}

/// The order of shared-binding views: by kind, then id.
pub open spec fn shared_view_order() -> spec_fn(SharedView, SharedView) -> bool {
    |a: SharedView, b: SharedView| text_lt(a.0, b.0) || (a.0 == b.0 && a.1 < b.1)
}

// ---- shared bindings ----
/// A shared binding as text: kind, id, owner, disposition, qualification
/// and observed handle.
pub type SharedView = (Seq<char>, i64, Seq<char>, Seq<char>, Seq<char>, Seq<char>);

pub open spec fn shared_view(b: DecompositionSharedBindingRecord) -> SharedView {
    (b.kind@, b.id, b.owner@, b.disposition@, b.qualification@, b.observed_handle@)
}

pub open spec fn shared_view_fn() -> spec_fn(DecompositionSharedBindingRecord) -> SharedView {
    |b: DecompositionSharedBindingRecord| shared_view(b)
}

pub open spec fn shared_views(s: Seq<DecompositionSharedBindingRecord>) -> Seq<SharedView> {
    s.map_values(shared_view_fn())
}

/// What a reconciliation does to a shared binding of the predecessor:
/// reviews become history; evidence and coverage the successor preserves
/// stay, the rest become history or need recomputing.
pub open spec fn carried_binding(b: SharedView, preserves: bool) -> SharedView {
    let preserved = b.4 == "current"@ && preserves;
    if b.0 == "review"@ {
        (b.0, b.1, b.2, "historical"@, "historical_only"@, b.5)
    } else if b.0 == "evidence"@ && preserved {
        (b.0, b.1, b.2, "preserved"@, "preserved_qualified"@, b.5)
    } else if b.0 == "evidence"@ {
        (b.0, b.1, b.2, "historical"@, if b.4 != "stale"@ {
            "historical_only"@
        } else {
            b.4
        }, b.5)
    } else if b.0 == "coverage"@ && preserved {
        (b.0, b.1, b.2, "preserved"@, "preserved_current"@, b.5)
    } else if b.0 == "coverage"@ && b.4 == "stale"@ {
        (b.0, b.1, b.2, "historical"@, b.4, b.5)
    } else if b.0 == "coverage"@ {
        (b.0, b.1, b.2, "recompute"@, "recompute_required"@, b.5)
    } else {
        b
    }
}

pub open spec fn carried_bindings(bs: Seq<SharedView>, preserves: Seq<bool>) -> Seq<SharedView>
    decreases bs.len(),
{
    if bs.len() == 0 {
        Seq::empty()
    } else {
        carried_bindings(bs.drop_last(), preserves).push(
            carried_binding(bs.last(), preserves[bs.len() - 1]),
        )
    }
}

/// The review the successor still needs.
pub open spec fn successor_review(source_identity: Seq<char>, design_version_id: i64) -> SharedView {
    (
        "review"@,
        0,
        "successor-plan"@,
        "new"@,
        "fresh_review_required"@,
        spec_projection_handle(
            "successor-review"@,
            seq![source_identity, decimal(design_version_id as int)],
        ),
    )
}

fn carry_binding(b: DecompositionSharedBindingRecord, preserves: bool) -> (r:
    DecompositionSharedBindingRecord)
    ensures
        shared_view(r) == carried_binding(shared_view(b), preserves),
{
    let preserved = str_eq(b.qualification.as_str(), "current") && preserves;
    let mut b = b;
    if str_eq(b.kind.as_str(), "review") {
        b.disposition = String::from_str("historical");
        b.qualification = String::from_str("historical_only");
    } else if str_eq(b.kind.as_str(), "evidence") && preserved {
        b.disposition = String::from_str("preserved");
        b.qualification = String::from_str("preserved_qualified");
    } else if str_eq(b.kind.as_str(), "evidence") {
        b.disposition = String::from_str("historical");
        if !str_eq(b.qualification.as_str(), "stale") {
            b.qualification = String::from_str("historical_only");
        }
    } else if str_eq(b.kind.as_str(), "coverage") && preserved {
        b.disposition = String::from_str("preserved");
        b.qualification = String::from_str("preserved_current");
    } else if str_eq(b.kind.as_str(), "coverage") && str_eq(b.qualification.as_str(), "stale") {
        b.disposition = String::from_str("historical");
    } else if str_eq(b.kind.as_str(), "coverage") {
        b.disposition = String::from_str("recompute");
        b.qualification = String::from_str("recompute_required");
    }
    b
}

/// The shared bindings a reconciliation projects, before ordering: the
/// predecessor's, as carried over (`preserves` tells, for each, whether the
/// successor preserves it), then the successor's own review.
pub open spec fn projected_bindings(
    source: Seq<DecompositionSharedBindingRecord>,
    preserves: Seq<bool>,
    source_identity: Seq<char>,
    design_version_id: i64,
) -> Seq<SharedView> {
    carried_bindings(shared_views(source), preserves).push(
        successor_review(source_identity, design_version_id),
    )
}

fn project_bindings(
    source: Vec<DecompositionSharedBindingRecord>,
    preserves: &Vec<bool>,
    source_identity: &str,
    design_version_id: i64,
) -> (out: Vec<DecompositionSharedBindingRecord>)
    requires
        preserves@.len() == source@.len(),
    ensures
        shared_views(out@) == projected_bindings(
            source@,
            preserves@,
            source_identity@,
            design_version_id,
        ),
{
    let ghost src = source@;
    let mut rest = source;
    let mut carried: Vec<DecompositionSharedBindingRecord> = Vec::new();
    let mut i: usize = 0;
    while rest.len() > 0
        invariant
            i + rest@.len() == src.len(),
            preserves@.len() == src.len(),
            rest@ == src.subrange(i as int, src.len() as int),
            shared_views(carried@) == carried_bindings(shared_views(src.take(i as int)), preserves@),
        decreases rest@.len(),
    {
        let b = rest.remove(0);
        assert(b == src[i as int]);
        let c = carry_binding(b, preserves[i]);
        let ghost before = carried@;
        carried.push(c);
        proof {
            assert(shared_views(src.take(i as int + 1)).drop_last() =~= shared_views(src.take(i as int)));
            assert(shared_views(src.take(i as int + 1)).last() == shared_view(src[i as int]));
            assert(shared_views(carried@) =~= shared_views(before).push(shared_view(c)));
            assert(rest@ =~= src.subrange(i as int + 1, src.len() as int));
        }
        assert(i < preserves.len());
        i += 1;
    }
    assert(src.take(src.len() as int) =~= src);
    let mut values: Vec<String> = Vec::new();
    values.push(String::from_str(source_identity));
    values.push(i64_decimal(design_version_id));
    assert(values@.map_values(|v: String| v@) =~= seq![
        source_identity@,
        decimal(design_version_id as int),
    ]);
    let review = DecompositionSharedBindingRecord {
        kind: String::from_str("review"),
        id: 0,
        owner: String::from_str("successor-plan"),
        disposition: String::from_str("new"),
        qualification: String::from_str("fresh_review_required"),
        observed_handle: projection_handle("successor-review", &values),
    };
    let ghost before = carried@;
    carried.push(review);
    assert(shared_views(carried@) =~= shared_views(before).push(shared_view(review)));
    carried
}

// ---- the projection ----
/// Each binding as its six texts, one binding after another.
pub open spec fn shared_flat(bs: Seq<SharedView>) -> Seq<Seq<char>>
    decreases bs.len(),
{
    if bs.len() == 0 {
        Seq::empty()
    } else {
        let b = bs.last();
        shared_flat(bs.drop_last()) + seq![b.0, decimal(b.1 as int), b.2, b.3, b.4, b.5]
    }
}

pub open spec fn effect_handles(es: Seq<EffectView>) -> Seq<Seq<char>> {
    es.map_values(|e: EffectView| e.6)
}

pub open spec fn binding_handles(bs: Seq<SharedView>) -> Seq<Seq<char>> {
    bs.map_values(|b: SharedView| b.5)
}

fn flat_bindings(bs: &Vec<DecompositionSharedBindingRecord>) -> (out: Vec<String>)
    ensures
        text_views(out@) == shared_flat(shared_views(bs@)),
{
    let mut out: Vec<String> = Vec::new();
    let mut i: usize = 0;
    while i < bs.len()
        invariant
            i <= bs@.len(),
            text_views(out@) == shared_flat(shared_views(bs@.take(i as int))),
        decreases bs@.len() - i,
    {
        let b = &bs[i];
        let ghost before = out@;
        out.push(b.kind.clone());
        out.push(i64_decimal(b.id));
        out.push(b.owner.clone());
        out.push(b.disposition.clone());
        out.push(b.qualification.clone());
        out.push(b.observed_handle.clone());
        proof {
            let v = shared_view(bs@[i as int]);
            assert(shared_views(bs@.take(i as int + 1)).drop_last() =~= shared_views(bs@.take(i as int)));
            assert(shared_views(bs@.take(i as int + 1)).last() == v);
            assert(text_views(out@) =~= text_views(before) + seq![
                v.0,
                decimal(v.1 as int),
                v.2,
                v.3,
                v.4,
                v.5,
            ]);
        }
        i += 1;
    }
    assert(bs@.take(bs@.len() as int) =~= bs@);
    out
}

/// What a projection holds: its endpoint effects and shared bindings, each
/// in key order and each exactly the projected ones, and the handles of what
/// it observed.
pub open spec fn projection_spec(
    d: PlanDocument,
    source_path: Seq<char>,
    source_identity: Seq<char>,
    input: crate::records::DecompositionReconciliationApplication,
    observed_correction: Seq<char>,
    gate_boundaries: Seq<Option<String>>,
    source_shared: Seq<DecompositionSharedBindingRecord>,
    preserves: Seq<bool>,
    proj: crate::records::DecompositionReconciliationProjection,
) -> bool {
    let r = d.reconciliation->0;
    &&& crate::order::sorted_by_key(proj.endpoint_effects@)
    &&& mapping_views(proj.endpoint_effects@).to_multiset() == all_effects(d, gate_boundaries).to_multiset()
    &&& mapping_views(proj.endpoint_effects@) == crate::order::stable_sort(
        all_effects(d, gate_boundaries),
        effect_view_order(),
    )
    &&& crate::order::sorted_by_key(proj.shared_bindings@)
    &&& shared_views(proj.shared_bindings@).to_multiset() == projected_bindings(
        source_shared,
        preserves,
        source_identity,
        input.design_version_id,
    ).to_multiset()
    &&& shared_views(proj.shared_bindings@) == crate::order::stable_sort(
        projected_bindings(source_shared, preserves, source_identity, input.design_version_id),
        shared_view_order(),
    )
    &&& proj.observed_shared@ == spec_projection_handle(
        "shared-set"@,
        shared_flat(shared_views(proj.shared_bindings@)),
    )
    &&& proj.projection_identity@ == spec_projection_handle(
        "decomposition-review-projection"@,
        seq![r.expected_current@, source_identity, proj.observed_shared@] + effect_handles(
            mapping_views(proj.endpoint_effects@),
        ) + binding_handles(shared_views(proj.shared_bindings@)),
    )
    &&& proj.observed_predecessor@ == r.expected_current@
    &&& proj.observed_document@ == source_identity
    &&& proj.observed_correction@ == observed_correction
    &&& proj.commit_current@ == spec_projection_handle(
        "reconciliation-commit"@,
        seq![r.expected_current@, source_identity, observed_correction, proj.observed_shared@],
    )
    &&& proj.command@ == "agent-workbench decomposition reconcile "@ + decimal(
        input.design_version_id as int,
    ) + " --work "@ + decimal(input.work_unit_id as int) + " --plan "@
        + crate::reconciliation::spec_shell_operand(source_path) + " --closure "@ + decimal(
        input.closure_id as int,
    ) + " --expected-current "@ + proj.commit_current@
}

/// The projection of a reconciliation: its endpoint effects and shared
/// bindings in order, and the handles of what it observed. `gate_boundaries`
/// holds the resolved boundary identity of each gate mapping (for the
/// retained ones); `source_shared` the predecessor's shared bindings, and
/// `preserves` for each of them whether the successor preserves it.
pub fn resolve_reconciliation_projection(
    document: Option<&PlanDocument>,
    source_path: &str,
    source_identity: &str,
    input: &crate::records::DecompositionReconciliationApplication,
    observed_correction: String,
    gate_boundaries: &Vec<Option<String>>,
    source_shared: Vec<DecompositionSharedBindingRecord>,
    preserves: &Vec<bool>,
) -> (res: Result<crate::records::DecompositionReconciliationProjection, crate::reconciliation::ReconciliationIssue>)
    requires
        document is Some && document->0.reconciliation is Some ==> gate_boundaries@.len()
            == document->0.reconciliation->0.gates@.len(),
        preserves@.len() == source_shared@.len(),
    ensures
        document is None ==> res == Err::<
            crate::records::DecompositionReconciliationProjection,
            crate::reconciliation::ReconciliationIssue,
        >(crate::reconciliation::ReconciliationIssue::MetadataRequired),
        document is Some && document->0.reconciliation is None ==> res == Err::<
            crate::records::DecompositionReconciliationProjection,
            crate::reconciliation::ReconciliationIssue,
        >(crate::reconciliation::ReconciliationIssue::ReconciliationRequired),
        document is Some && document->0.reconciliation is Some ==> (res is Ok && projection_spec(
            *document->0,
            source_path@,
            source_identity@,
            *input,
            observed_correction@,
            gate_boundaries@,
            source_shared@,
            preserves@,
            res->Ok_0,
        )),
{
    let d = match document {
        Some(d) => d,
        None => return Err(crate::reconciliation::ReconciliationIssue::MetadataRequired),
    };
    let r = match &d.reconciliation {
        Some(r) => r,
        None => return Err(crate::reconciliation::ReconciliationIssue::ReconciliationRequired),
    };
    let unsorted = project_all_effects(d, r, gate_boundaries);
    let ghost unsorted_view = unsorted@;
    let effects = crate::order::sort_by_key(unsorted);
    proof {
        crate::order::lemma_map_values_multiset(effects@, unsorted_view, mapping_view_fn());
        crate::order::lemma_stable_sort_views(
            unsorted_view,
            mapping_view_fn(),
            crate::order::key_order(),
            effect_view_order(),
        );
    }
    let bindings_unsorted = project_bindings(
        source_shared,
        preserves,
        source_identity,
        input.design_version_id,
    );
    let ghost bindings_view = bindings_unsorted@;
    let bindings = crate::order::sort_by_key(bindings_unsorted);
    proof {
        crate::order::lemma_map_values_multiset(bindings@, bindings_view, shared_view_fn());
        crate::order::lemma_stable_sort_views(
            bindings_view,
            shared_view_fn(),
            crate::order::key_order(),
            shared_view_order(),
        );
    }
    let flat = flat_bindings(&bindings);
    let observed_shared = projection_handle("shared-set", &flat);
    let mut values: Vec<String> = Vec::new();
    values.push(r.expected_current.clone());
    values.push(String::from_str(source_identity));
    values.push(observed_shared.clone());
    let ghost head = text_views(values@);
    let mut i: usize = 0;
    while i < effects.len()
        invariant
            i <= effects@.len(),
            text_views(values@) == head + effect_handles(mapping_views(effects@.take(i as int))),
        decreases effects@.len() - i,
    {
        let ghost before = values@;
        values.push(effects[i].observed_handle.clone());
        proof {
            assert(effect_handles(mapping_views(effects@.take(i as int + 1))) =~= effect_handles(
                mapping_views(effects@.take(i as int)),
            ).push(effects@[i as int].observed_handle@));
            assert(text_views(values@) =~= text_views(before).push(effects@[i as int].observed_handle@));
        }
        i += 1;
    }
    assert(effects@.take(effects@.len() as int) =~= effects@);
    let ghost mid = text_views(values@);
    let mut j: usize = 0;
    while j < bindings.len()
        invariant
            j <= bindings@.len(),
            text_views(values@) == mid + binding_handles(shared_views(bindings@.take(j as int))),
        decreases bindings@.len() - j,
    {
        let ghost before = values@;
        values.push(bindings[j].observed_handle.clone());
        proof {
            assert(binding_handles(shared_views(bindings@.take(j as int + 1))) =~= binding_handles(
                shared_views(bindings@.take(j as int)),
            ).push(bindings@[j as int].observed_handle@));
            assert(text_views(values@) =~= text_views(before).push(bindings@[j as int].observed_handle@));
        }
        j += 1;
    }
    assert(bindings@.take(bindings@.len() as int) =~= bindings@);
    assert(text_views(values@) =~= seq![r.expected_current@, source_identity@, observed_shared@]
        + effect_handles(mapping_views(effects@)) + binding_handles(shared_views(bindings@)));
    let projection_identity = projection_handle("decomposition-review-projection", &values);
    let mut commit_values: Vec<String> = Vec::new();
    commit_values.push(r.expected_current.clone());
    commit_values.push(String::from_str(source_identity));
    commit_values.push(observed_correction.clone());
    commit_values.push(observed_shared.clone());
    assert(text_views(commit_values@) =~= seq![
        r.expected_current@,
        source_identity@,
        observed_correction@,
        observed_shared@,
    ]);
    let commit_current = projection_handle("reconciliation-commit", &commit_values);
    let command = String::from_str("agent-workbench decomposition reconcile ").concat(
        i64_decimal(input.design_version_id).as_str(),
    ).concat(" --work ").concat(i64_decimal(input.work_unit_id).as_str()).concat(" --plan ").concat(
        crate::reconciliation::shell_operand(source_path).as_str(),
    ).concat(" --closure ").concat(i64_decimal(input.closure_id).as_str()).concat(
        " --expected-current ",
    ).concat(commit_current.as_str());
    Ok(
        crate::records::DecompositionReconciliationProjection {
            endpoint_effects: effects,
            shared_bindings: bindings,
            projection_identity,
            observed_predecessor: r.expected_current.clone(),
            observed_document: String::from_str(source_identity),
            observed_correction,
            observed_shared,
            commit_current,
            command,
        },
    )
}

// ---- the shared bindings of a plan ----
/// A review run that bears on a plan, as stored.
#[derive(Clone, Debug, PartialEq, Eq)]
pub struct ReviewRunRow {
    pub id: i64,
    pub review_plan_id: i64,
    pub status: String,
    pub clean: i64,
    pub findings: i64,
    pub summary: String,
    pub provenance: String,
    pub provenance_ref: String,
    pub decision: String,
    pub target_ref: String,
}

/// How far a review run counts: accepted and clean when completed clean,
/// without findings, with trusted provenance, and accepted; pending while
/// requested, running or undecided; history otherwise.
pub open spec fn spec_review_qualification(row: ReviewRunRow) -> Seq<char> {
    let trusted = (row.provenance@ == "external_agent"@ || row.provenance@ == "human_review"@)
        && row.provenance_ref@.len() > 0;
    if row.status@ == "completed"@ && row.clean == 1 && row.findings == 0 && trusted
        && row.decision@ == "accepted"@ {
        "accepted_clean"@
    } else if row.status@ == "requested"@ || row.status@ == "running"@ || row.decision@
        == "pending"@ {
        "pending"@
    } else {
        "historical_only"@
    }
}

proof fn lemma_qualification_literals_differ()
    ensures
        "requested"@ != "completed"@,
        "running"@ != "completed"@,
        "pending"@ != "accepted_clean"@,
        "historical_only"@ != "accepted_clean"@,
        "pending"@ != "historical_only"@,
{
    reveal_strlit("requested");
    reveal_strlit("running");
    reveal_strlit("completed");
    reveal_strlit("pending");
    reveal_strlit("accepted_clean");
    reveal_strlit("historical_only");
    assert("requested"@[0] != "completed"@[0]);
    assert("running"@[0] != "completed"@[0]);
    assert("pending"@[0] != "accepted_clean"@[0]);
    assert("historical_only"@[0] != "accepted_clean"@[0]);
    assert("pending"@[0] != "historical_only"@[0]);
}

pub fn review_qualification(row: &ReviewRunRow) -> (r: &'static str)
    ensures
        r@ == spec_review_qualification(*row),
        row.status@ == "requested"@ || row.status@ == "running"@ ==> r@ == "pending"@,
        r@ == "accepted_clean"@ <==> (row.status@ == "completed"@ && row.clean == 1 && row.findings
            == 0 && (row.provenance@ == "external_agent"@ || row.provenance@ == "human_review"@)
            && row.provenance_ref@.len() > 0 && row.decision@ == "accepted"@),
        r@ == "accepted_clean"@ || r@ == "pending"@ || r@ == "historical_only"@,
        r@ == "historical_only"@ <==> (r@ != "accepted_clean"@ && row.status@ != "requested"@
            && row.status@ != "running"@ && row.decision@ != "pending"@),
{
    proof {
        lemma_qualification_literals_differ();
    }
    let trusted = (str_eq(row.provenance.as_str(), "external_agent") || str_eq(
        row.provenance.as_str(),
        "human_review",
    )) && row.provenance_ref.as_str().unicode_len() > 0;
    if str_eq(row.status.as_str(), "completed") && row.clean == 1 && row.findings == 0 && trusted
        && str_eq(row.decision.as_str(), "accepted") {
        "accepted_clean"
    } else if str_eq(row.status.as_str(), "requested") || str_eq(row.status.as_str(), "running")
        || str_eq(row.decision.as_str(), "pending") {
        "pending"
    } else {
        "historical_only"
    }
}

pub open spec fn review_values(row: ReviewRunRow) -> Seq<Seq<char>> {
    seq![
        decimal(row.id as int),
        decimal(row.review_plan_id as int),
        row.status@,
        decimal(row.clean as int),
        decimal(row.findings as int),
        row.summary@,
        row.provenance@,
        row.provenance_ref@,
        row.decision@,
        row.target_ref@,
    ]
}

/// The shared binding a review run gives a plan; none for a run whose
/// target names another plan (`target_plan_id` is the plan its target
/// reference names, when it names one).
pub open spec fn spec_review_binding(
    row: ReviewRunRow,
    plan_id: i64,
    context_ref: Seq<char>,
    target_plan_id: Option<i64>,
) -> Option<SharedView> {
    if row.target_ref@ != context_ref && target_plan_id is Some && target_plan_id->0 != plan_id {
        None
    } else {
        Some(
            (
                "review"@,
                row.id,
                "review-plan:"@ + decimal(row.review_plan_id as int),
                "shared"@,
                spec_review_qualification(row),
                spec_projection_handle("shared-review"@, review_values(row)),
            ),
        )
    }
}

pub fn review_binding(
    row: &ReviewRunRow,
    plan_id: i64,
    context_ref: &str,
    target_plan_id: Option<i64>,
) -> (r: Option<DecompositionSharedBindingRecord>)
    ensures
        match r {
            Some(b) => spec_review_binding(*row, plan_id, context_ref@, target_plan_id) == Some(
                shared_view(b),
            ),
            None => spec_review_binding(*row, plan_id, context_ref@, target_plan_id) is None,
        },
{
    if !str_eq(row.target_ref.as_str(), context_ref) {
        if let Some(t) = target_plan_id {
            if t != plan_id {
                return None;
            }
        }
    }
    let mut values: Vec<String> = Vec::new();
    values.push(i64_decimal(row.id));
    values.push(i64_decimal(row.review_plan_id));
    values.push(row.status.clone());
    values.push(i64_decimal(row.clean));
    values.push(i64_decimal(row.findings));
    values.push(row.summary.clone());
    values.push(row.provenance.clone());
    values.push(row.provenance_ref.clone());
    values.push(row.decision.clone());
    values.push(row.target_ref.clone());
    assert(values@.map_values(|v: String| v@) =~= review_values(*row));
    let b = DecompositionSharedBindingRecord {
        kind: String::from_str("review"),
        id: row.id,
        owner: String::from_str("review-plan:").concat(i64_decimal(row.review_plan_id).as_str()),
        disposition: String::from_str("shared"),
        qualification: String::from_str(review_qualification(row)),
        observed_handle: projection_handle("shared-review", &values),
    };
    Some(b)
}

/// The owner of shared evidence or coverage: its task and requirement.
pub open spec fn spec_shared_owner(task: Option<i64>, requirement: Option<i64>) -> Seq<char> {
    match (task, requirement) {
        (Some(t), Some(r)) => "task:"@ + decimal(t as int) + "/requirement:"@ + decimal(r as int),
        (Some(t), None) => "task:"@ + decimal(t as int),
        (None, Some(r)) => "requirement:"@ + decimal(r as int),
        (None, None) => "unbound"@,
    }
}

pub fn shared_owner(task: Option<i64>, requirement: Option<i64>) -> (r: String)
    ensures
        r@ == spec_shared_owner(task, requirement),
{
    match (task, requirement) {
        (Some(t), Some(r)) => String::from_str("task:").concat(i64_decimal(t).as_str()).concat(
            "/requirement:",
        ).concat(i64_decimal(r).as_str()),
        (Some(t), None) => String::from_str("task:").concat(i64_decimal(t).as_str()),
        (None, Some(r)) => String::from_str("requirement:").concat(i64_decimal(r).as_str()),
        (None, None) => String::from_str("unbound"),
    }
}

/// A stored id column: its number, unless absent or zero.
pub open spec fn subject_id(text: Seq<char>) -> Option<i64> {
    match crate::text::spec_parse_i64(text) {
        Some(v) => if v != 0 {
            Some(v)
        } else {
            None
        },
        None => None,
    }
}

fn parse_subject(text: &str) -> (r: Option<i64>)
    ensures
        r == subject_id(text@),
{
    match crate::text::parse_i64(text) {
        Some(v) => if v != 0 {
            Some(v)
        } else {
            None
        },
        None => None,
    }
}

/// The task and requirement a row of shared evidence or coverage binds
/// (its second and third columns).
pub fn binding_subjects(values: &Vec<String>) -> (r: (Option<i64>, Option<i64>))
    requires
        values@.len() >= 3,
    ensures
        r == (subject_id(values@[1]@), subject_id(values@[2]@)),
{
    (parse_subject(values[1].as_str()), parse_subject(values[2].as_str()))
}

/// The qualification of shared coverage: covered and still related is
/// current, covered but no longer related must be recomputed, stale stays
/// stale, anything else needs evidence.
pub open spec fn spec_coverage_qualification(status: Seq<char>, relation_current: bool) -> Seq<char> {
    if status == "covered"@ && relation_current {
        "current"@
    } else if status == "covered"@ {
        "recompute_required"@
    } else if status == "stale"@ {
        "stale"@
    } else {
        "needs_evidence"@
    }
}

/// The shared binding a row of evidence (`coverage` false) or coverage
/// gives; `relation_current` tells whether its task and requirement still
/// belong to the plan. None when the row's id is not a number.
pub open spec fn spec_subject_binding(values: Seq<String>, coverage: bool, relation_current: bool) -> Option<
    SharedView,
> {
    match crate::text::spec_parse_i64(values[0]@) {
        None => None,
        Some(id) => {
            let task = subject_id(values[1]@);
            let requirement = subject_id(values[2]@);
            let qualification = if coverage {
                spec_coverage_qualification(values[3]@, relation_current)
            } else if relation_current {
                "current"@
            } else {
                "stale"@
            };
            let domain = if coverage {
                "shared-coverage"@
            } else {
                "shared-evidence"@
            };
            Some(
                (
                    if coverage {
                        "coverage"@
                    } else {
                        "evidence"@
                    },
                    id,
                    spec_shared_owner(task, requirement),
                    "shared"@,
                    qualification,
                    spec_projection_handle(domain, values.map_values(|v: String| v@)),
                ),
            )
        },
    }
}

pub fn subject_binding(values: &Vec<String>, coverage: bool, relation_current: bool) -> (r: Option<
    DecompositionSharedBindingRecord,
>)
    requires
        values@.len() >= 4,
    ensures
        match r {
            Some(b) => spec_subject_binding(values@, coverage, relation_current) == Some(
                shared_view(b),
            ),
            None => spec_subject_binding(values@, coverage, relation_current) is None,
        },
{
    let id = match crate::text::parse_i64(values[0].as_str()) {
        Some(id) => id,
        None => return None,
    };
    let (task, requirement) = binding_subjects(values);
    let qualification = if coverage {
        let status = values[3].as_str();
        if str_eq(status, "covered") && relation_current {
            "current"
        } else if str_eq(status, "covered") {
            "recompute_required"
        } else if str_eq(status, "stale") {
            "stale"
        } else {
            "needs_evidence"
        }
    } else if relation_current {
        "current"
    } else {
        "stale"
    };
    let domain = if coverage {
        "shared-coverage"
    } else {
        "shared-evidence"
    };
    let kind = if coverage {
        "coverage"
    } else {
        "evidence"
    };
    Some(
        DecompositionSharedBindingRecord {
            kind: String::from_str(kind),
            id,
            owner: shared_owner(task, requirement),
            disposition: String::from_str("shared"),
            qualification: String::from_str(qualification),
            observed_handle: projection_handle(domain, values),
        },
    )
}

fn sort_shared_bindings(records: Vec<DecompositionSharedBindingRecord>) -> (r: Vec<
    DecompositionSharedBindingRecord,
>)
    ensures
        crate::order::sorted_by_key(r@),
        shared_views(r@).to_multiset() == shared_views(records@).to_multiset(),
        shared_views(r@) == crate::order::stable_sort(shared_views(records@), shared_view_order()),
{
    let ghost before = records@;
    let sorted = crate::order::sort_by_key(records);
    proof {
        crate::order::lemma_map_values_multiset(sorted@, before, shared_view_fn());
        crate::order::lemma_stable_sort_views(
            before,
            shared_view_fn(),
            crate::order::key_order(),
            shared_view_order(),
        );
    }
    sorted
}

/// The rows a plan's shared bindings come from, as the store gives them in
/// id order: each review run with the plan its target reference names (if
/// it names one), and each row of evidence and of coverage as text, with
/// whether its task and requirement still belong to the plan.
#[derive(Clone, Debug, PartialEq, Eq)]
pub struct SharedBindingRows {
    pub reviews: Vec<(ReviewRunRow, Option<i64>)>,
    pub evidence: Vec<(Vec<String>, bool)>,
    pub coverage: Vec<(Vec<String>, bool)>,
}

/// The bindings the review runs give, in order, skipping runs of other
/// plans.
pub open spec fn review_views(
    reviews: Seq<(ReviewRunRow, Option<i64>)>,
    plan_id: i64,
    context_ref: Seq<char>,
) -> Seq<SharedView>
    decreases reviews.len(),
{
    if reviews.len() == 0 {
        Seq::empty()
    } else {
        let rest = review_views(reviews.drop_last(), plan_id, context_ref);
        match spec_review_binding(reviews.last().0, plan_id, context_ref, reviews.last().1) {
            Some(b) => rest.push(b),
            None => rest,
        }
    }
}

/// The bindings rows of evidence or coverage give, in order; none when the
/// id of some row is not a number.
pub open spec fn subject_views(rows: Seq<(Vec<String>, bool)>, coverage: bool) -> Option<
    Seq<SharedView>,
>
    decreases rows.len(),
{
    if rows.len() == 0 {
        Some(Seq::empty())
    } else {
        match subject_views(rows.drop_last(), coverage) {
            None => None,
            Some(rest) => match spec_subject_binding(rows.last().0@, coverage, rows.last().1) {
                Some(b) => Some(rest.push(b)),
                None => None,
            },
        }
    }
}

/// Every row of evidence or coverage has its columns.
pub open spec fn rows_complete(rows: Seq<(Vec<String>, bool)>) -> bool {
    forall|i: int| 0 <= i < rows.len() ==> (#[trigger] rows[i]).0@.len() >= 4
}

/// What each shared binding may say: it is shared; a review is accepted
/// clean, pending or history; evidence is current or stale; coverage is
/// current, to recompute, stale or in need of evidence.
pub open spec fn binding_rules(b: SharedView) -> bool {
    &&& b.3 == "shared"@
    &&& b.0 == "review"@ ==> (b.4 == "accepted_clean"@ || b.4 == "pending"@ || b.4
        == "historical_only"@)
    &&& b.0 == "evidence"@ ==> (b.4 == "current"@ || b.4 == "stale"@)
    &&& b.0 == "coverage"@ ==> (b.4 == "current"@ || b.4 == "recompute_required"@ || b.4
        == "stale"@ || b.4 == "needs_evidence"@)
}

proof fn lemma_kinds_differ()
    ensures
        "review"@ != "evidence"@,
        "review"@ != "coverage"@,
        "evidence"@ != "coverage"@,
{
    reveal_strlit("review");
    reveal_strlit("evidence");
    reveal_strlit("coverage");
    assert("review"@[0] != "evidence"@[0]);
    assert("review"@[0] != "coverage"@[0]);
    assert("evidence"@[0] != "coverage"@[0]);
}

proof fn lemma_review_binding_rules(
    row: ReviewRunRow,
    plan_id: i64,
    context_ref: Seq<char>,
    target: Option<i64>,
)
    ensures
        spec_review_binding(row, plan_id, context_ref, target) matches Some(b) ==> binding_rules(b),
{
    lemma_kinds_differ();
}

proof fn lemma_subject_binding_rules(values: Seq<String>, coverage: bool, relation_current: bool)
    ensures
        spec_subject_binding(values, coverage, relation_current) matches Some(b) ==> binding_rules(
            b,
        ),
{
    lemma_kinds_differ();
}

proof fn lemma_review_views_rules(
    reviews: Seq<(ReviewRunRow, Option<i64>)>,
    plan_id: i64,
    context_ref: Seq<char>,
)
    ensures
        forall|i: int|
            0 <= i < review_views(reviews, plan_id, context_ref).len() ==> binding_rules(
                #[trigger] review_views(reviews, plan_id, context_ref)[i],
            ),
    decreases reviews.len(),
{
    if reviews.len() > 0 {
        let rest = review_views(reviews.drop_last(), plan_id, context_ref);
        lemma_review_views_rules(reviews.drop_last(), plan_id, context_ref);
        lemma_review_binding_rules(reviews.last().0, plan_id, context_ref, reviews.last().1);
        let all = review_views(reviews, plan_id, context_ref);
        assert forall|i: int| 0 <= i < all.len() implies binding_rules(#[trigger] all[i]) by {
            if i < rest.len() {
                assert(all[i] == rest[i]);
            }
        }
    }
}

proof fn lemma_subject_views_rules(rows: Seq<(Vec<String>, bool)>, coverage: bool)
    ensures
        subject_views(rows, coverage) matches Some(v) ==> forall|i: int|
            0 <= i < v.len() ==> binding_rules(#[trigger] v[i]),
    decreases rows.len(),
{
    if rows.len() > 0 {
        lemma_subject_views_rules(rows.drop_last(), coverage);
        lemma_subject_binding_rules(rows.last().0@, coverage, rows.last().1);
        if let Some(v) = subject_views(rows, coverage) {
            let rest = subject_views(rows.drop_last(), coverage)->0;
            assert forall|i: int| 0 <= i < v.len() implies binding_rules(#[trigger] v[i]) by {
                if i < rest.len() {
                    assert(v[i] == rest[i]);
                }
            }
        }
    }
}

/// The bindings a plan's review runs give, in order.
fn review_records(plan_id: i64, context_ref: &str, reviews: &Vec<(ReviewRunRow, Option<i64>)>) -> (r:
    Vec<DecompositionSharedBindingRecord>)
    ensures
        shared_views(r@) == review_views(reviews@, plan_id, context_ref@),
{
    let mut records: Vec<DecompositionSharedBindingRecord> = Vec::new();
    let mut i: usize = 0;
    assert(reviews@.take(0) =~= Seq::<(ReviewRunRow, Option<i64>)>::empty());
    while i < reviews.len()
        invariant
            i <= reviews@.len(),
            shared_views(records@) == review_views(reviews@.take(i as int), plan_id, context_ref@),
        decreases reviews@.len() - i,
    {
        let ghost before = records@;
        assert(reviews@.take(i as int + 1).drop_last() =~= reviews@.take(i as int));
        assert(reviews@.take(i as int + 1).last() == reviews@[i as int]);
        if let Some(b) = review_binding(&reviews[i].0, plan_id, context_ref, reviews[i].1) {
            records.push(b);
            assert(shared_views(records@) =~= shared_views(before).push(shared_view(b)));
        }
        i += 1;
    }
    assert(reviews@.take(reviews@.len() as int) =~= reviews@);
    records
}

/// The bindings rows of evidence or coverage give, in order; none when the
/// id of some row is not a number.
fn subject_records(rows: &Vec<(Vec<String>, bool)>, coverage: bool) -> (r: Option<
    Vec<DecompositionSharedBindingRecord>,
>)
    requires
        rows_complete(rows@),
    ensures
        r is Some <==> subject_views(rows@, coverage) is Some,
        r matches Some(v) ==> subject_views(rows@, coverage) == Some(shared_views(v@)),
{
    let mut records: Vec<DecompositionSharedBindingRecord> = Vec::new();
    let mut k: usize = 0;
    assert(rows@.take(0) =~= Seq::<(Vec<String>, bool)>::empty());
    while k < rows.len()
        invariant
            k <= rows@.len(),
            rows_complete(rows@),
            subject_views(rows@.take(k as int), coverage) == Some(shared_views(records@)),
        decreases rows@.len() - k,
    {
        let ghost before = records@;
        assert(rows@.take(k as int + 1).drop_last() =~= rows@.take(k as int));
        assert(rows@.take(k as int + 1).last() == rows@[k as int]);
        assert(rows@[k as int].0@.len() >= 4);
        match subject_binding(&rows[k].0, coverage, rows[k].1) {
            Some(b) => {
                records.push(b);
                assert(shared_views(records@) =~= shared_views(before).push(shared_view(b)));
            },
            None => {
                proof {
                    lemma_subject_views_none(rows@, coverage, k as int + 1);
                }
                return None;
            },
        }
        k += 1;
    }
    assert(rows@.take(rows@.len() as int) =~= rows@);
    Some(records)
}

/// A plan's shared bindings: those its review runs give, then its evidence
/// and coverage rows, in order of kind and then id (rows of equal kind and
/// id in that order); none when the id of some evidence or coverage row is
/// not a number. `context_ref` is the review context reference of the plan.
/// Every binding is shared; a review is accepted clean only for a completed,
/// clean run without findings, of trusted provenance, whose decision is
/// accepted.
pub fn decomposition_shared_bindings(plan_id: i64, context_ref: &str, rows: &SharedBindingRows) -> (r:
    Option<Vec<DecompositionSharedBindingRecord>>)
    requires
        rows_complete(rows.evidence@),
        rows_complete(rows.coverage@),
    ensures
        r is Some <==> (subject_views(rows.evidence@, false) is Some && subject_views(
            rows.coverage@,
            true,
        ) is Some),
        r matches Some(v) ==> {
            &&& crate::order::sorted_by_key(v@)
            &&& shared_views(v@) == crate::order::stable_sort(
                review_views(rows.reviews@, plan_id, context_ref@) + subject_views(
                    rows.evidence@,
                    false,
                )->0 + subject_views(rows.coverage@, true)->0,
                shared_view_order(),
            )
            &&& forall|i: int| 0 <= i < v@.len() ==> binding_rules(#[trigger] shared_view(v@[i]))
        },
{
    let mut records = review_records(plan_id, context_ref, &rows.reviews);
    let mut evidence = match subject_records(&rows.evidence, false) {
        Some(v) => v,
        None => return None,
    };
    let mut coverage = match subject_records(&rows.coverage, true) {
        Some(v) => v,
        None => return None,
    };
    let ghost reviews = shared_views(records@);
    let ghost ev = shared_views(evidence@);
    let ghost cov = shared_views(coverage@);
    let ghost r0 = records@;
    let ghost e0 = evidence@;
    let ghost c0 = coverage@;
    records.append(&mut evidence);
    records.append(&mut coverage);
    let ghost all = shared_views(records@);
    assert(records@ == r0 + e0 + c0);
    assert(all =~= reviews + ev + cov);
    let sorted = sort_shared_bindings(records);
    proof {
        lemma_review_views_rules(rows.reviews@, plan_id, context_ref@);
        lemma_subject_views_rules(rows.evidence@, false);
        lemma_subject_views_rules(rows.coverage@, true);
        assert forall|j: int| 0 <= j < all.len() implies binding_rules(#[trigger] all[j]) by {
            if j < reviews.len() {
                assert(all[j] == reviews[j]);
                assert(binding_rules(review_views(rows.reviews@, plan_id, context_ref@)[j]));
            } else if j < reviews.len() + ev.len() {
                assert(all[j] == ev[j - reviews.len()]);
                assert(binding_rules(subject_views(rows.evidence@, false)->0[j - reviews.len()]));
            } else {
                assert(all[j] == cov[j - reviews.len() - ev.len()]);
                assert(binding_rules(
                    subject_views(rows.coverage@, true)->0[j - reviews.len() - ev.len()],
                ));
            }
        }
        let sv = shared_views(sorted@);
        sv.to_multiset_ensures();
        all.to_multiset_ensures();
        assert forall|j: int| 0 <= j < sorted@.len() implies binding_rules(
            #[trigger] shared_view(sorted@[j]),
        ) by {
            let x = shared_view(sorted@[j]);
            assert(sv[j] == x);
            assert(sv.contains(x));
            assert(sv.to_multiset().count(x) > 0);
            assert(all.contains(x));
            let k = choose|k: int| 0 <= k < all.len() && all[k] == x;
            assert(binding_rules(all[k]));
        }
    }
    Some(sorted)
}

proof fn lemma_subject_views_none(rows: Seq<(Vec<String>, bool)>, coverage: bool, n: int)
    requires
        0 < n <= rows.len(),
        subject_views(rows.take(n), coverage) is None,
    ensures
        subject_views(rows, coverage) is None,
    decreases rows.len() - n,
{
    if n < rows.len() {
        assert(rows.take(n + 1).drop_last() =~= rows.take(n));
        lemma_subject_views_none(rows, coverage, n + 1);
    } else {
        assert(rows.take(n) =~= rows);
    }
}

// ---- whether a reconciliation preserves a shared binding ----
/// The requirement a shared binding is about: its key and hash, and the hash
/// of the active requirement with that key in the target design version.
#[derive(Clone, Debug, PartialEq, Eq)]
pub struct RequirementSubject {
    pub key: String,
    pub source_hash: String,
    pub target_hash: Option<String>,
}

/// The item of the first retained, preserving task mapping of `task`; none
/// when no such mapping exists.
pub open spec fn first_preserving(ts: Seq<crate::document::TaskReconciliation>, task: i64) -> Option<
    Option<Seq<char>>,
>
    decreases ts.len(),
{
    if ts.len() == 0 {
        None
    } else if ts[0].source == task && ts[0].disposition@ == "retained"@ && spec_normalized_effect(
        ts[0].effect,
    ) == ReconciliationEffect::Preserve {
        Some(opt_view(ts[0].item))
    } else {
        first_preserving(ts.drop_first(), task)
    }
}

/// Some successor item (the target item, when one is named) declares the
/// requirement.
pub open spec fn item_holds(p: PlanDocument, target_item: Option<Seq<char>>, key: Seq<char>) -> bool {
    exists|k: int|
        0 <= k < p.items@.len() && (target_item is None || (#[trigger] p.items@[k]).key@
            == target_item->0) && exists|j: int|
            0 <= j < p.items@[k].requirements@.len() && p.items@[k].requirements@[j]@ == key
}

/// A retained, preserving gate mapping covers the source gate.
pub open spec fn gate_preserved(r: PlanReconciliation, source: i64) -> bool {
    exists|g: int|
        0 <= g < r.gates@.len() && (#[trigger] r.gates@[g]).source == source
            && r.gates@[g].disposition@ == "retained"@ && spec_normalized_effect(r.gates@[g].effect)
            == ReconciliationEffect::Preserve
}

/// Whether the successor preserves a shared evidence or coverage binding:
/// its task (when it has one) is retained with a preserve effect, its
/// requirement (when it has one) is unchanged and declared by the target
/// item, and, for coverage, every live gate of its subject is preserved.
pub open spec fn spec_preserves_shared_binding(
    kind: Seq<char>,
    task_id: Option<i64>,
    requirement: Option<RequirementSubject>,
    source_gates: Seq<i64>,
    r: PlanReconciliation,
    p: PlanDocument,
) -> bool {
    if kind != "evidence"@ && kind != "coverage"@ {
        false
    } else {
        let target = match task_id {
            Some(t) => first_preserving(r.tasks@, t),
            None => Some(None),
        };
        match target {
            None => false,
            Some(target_item) => if requirement is Some && (opt_view(requirement->0.target_hash)
                != Some(requirement->0.source_hash@) || !item_holds(
                p,
                target_item,
                requirement->0.key@,
            )) {
                false
            } else if kind == "coverage"@ && exists|g: int|
                0 <= g < source_gates.len() && !gate_preserved(r, #[trigger] source_gates[g]) {
                false
            } else {
                task_id is Some || requirement is Some
            },
        }
    }
}

fn find_preserving(ts: &Vec<crate::document::TaskReconciliation>, task: i64) -> (r: Option<
    Option<String>,
>)
    ensures
        match r {
            Some(item) => first_preserving(ts@, task) == Some(opt_view(item)),
            None => first_preserving(ts@, task) is None,
        },
{
    let mut i: usize = 0;
    assert(ts@.skip(0) =~= ts@);
    while i < ts.len()
        invariant
            i <= ts@.len(),
            first_preserving(ts@, task) == first_preserving(ts@.skip(i as int), task),
        decreases ts@.len() - i,
    {
        assert(ts@.skip(i as int).drop_first() =~= ts@.skip(i as int + 1));
        assert(ts@.skip(i as int)[0] == ts@[i as int]);
        let m = &ts[i];
        if m.source == task && str_eq(m.disposition.as_str(), "retained") && matches!(
            normalized_effect(m.effect),
            ReconciliationEffect::Preserve
        ) {
            return Some(m.item.clone());
        }
        i += 1;
    }
    assert(ts@.skip(i as int) =~= Seq::<crate::document::TaskReconciliation>::empty());
    None
}

fn holds_requirement(p: &PlanDocument, target_item: &Option<String>, key: &str) -> (r: bool)
    ensures
        r == item_holds(*p, opt_view(*target_item), key@),
{
    let mut k: usize = 0;
    while k < p.items.len()
        invariant
            k <= p.items@.len(),
            forall|a: int|
                0 <= a < k ==> !((opt_view(*target_item) is None || (#[trigger] p.items@[a]).key@
                    == opt_view(*target_item)->0) && exists|j: int|
                    0 <= j < p.items@[a].requirements@.len() && p.items@[a].requirements@[j]@
                        == key@),
        decreases p.items@.len() - k,
    {
        let item = &p.items[k];
        let selected = match target_item {
            None => true,
            Some(t) => str_eq(item.key.as_str(), t.as_str()),
        };
        if selected {
            let mut j: usize = 0;
            while j < item.requirements.len()
                invariant
                    k < p.items@.len(),
                    *item == p.items@[k as int],
                    opt_view(*target_item) is None || p.items@[k as int].key@ == opt_view(
                        *target_item,
                    )->0,
                    j <= item.requirements@.len(),
                    forall|b: int| 0 <= b < j ==> (#[trigger] item.requirements@[b])@ != key@,
                decreases item.requirements@.len() - j,
            {
                if str_eq(item.requirements[j].as_str(), key) {
                    assert(p.items@[k as int].requirements@[j as int]@ == key@);
                    assert(opt_view(*target_item) is None || (p.items@[k as int]).key@ == opt_view(
                        *target_item,
                    )->0);
                    return true;
                }
                j += 1;
            }
        }
        k += 1;
    }
    false
}

fn covers_gate(r: &PlanReconciliation, source: i64) -> (res: bool)
    ensures
        res == gate_preserved(*r, source),
{
    let mut g: usize = 0;
    while g < r.gates.len()
        invariant
            g <= r.gates@.len(),
            forall|a: int|
                0 <= a < g ==> !((#[trigger] r.gates@[a]).source == source
                    && r.gates@[a].disposition@ == "retained"@ && spec_normalized_effect(
                    r.gates@[a].effect,
                ) == ReconciliationEffect::Preserve),
        decreases r.gates@.len() - g,
    {
        let m = &r.gates[g];
        if m.source == source && str_eq(m.disposition.as_str(), "retained") && matches!(
            normalized_effect(m.effect),
            ReconciliationEffect::Preserve
        ) {
            return true;
        }
        g += 1;
    }
    false
}

fn all_gates_preserved(r: &PlanReconciliation, source_gates: &Vec<i64>) -> (res: bool)
    ensures
        res == !exists|g: int|
            0 <= g < source_gates@.len() && !gate_preserved(*r, #[trigger] source_gates@[g]),
{
    let mut g: usize = 0;
    while g < source_gates.len()
        invariant
            g <= source_gates@.len(),
            forall|a: int| 0 <= a < g ==> gate_preserved(*r, #[trigger] source_gates@[a]),
        decreases source_gates@.len() - g,
    {
        if !covers_gate(r, source_gates[g]) {
            assert(!gate_preserved(*r, source_gates@[g as int]));
            return false;
        }
        g += 1;
    }
    true
}

/// Whether the successor preserves a predecessor's shared evidence or
/// coverage binding; `task_id` and `requirement` describe what the binding
/// is about, and `source_gates` the live gates of that subject.
pub fn reconciliation_preserves_shared_binding(
    kind: &str,
    task_id: Option<i64>,
    requirement: Option<&RequirementSubject>,
    source_gates: &Vec<i64>,
    r: &PlanReconciliation,
    p: &PlanDocument,
) -> (res: bool)
    ensures
        res == spec_preserves_shared_binding(
            kind@,
            task_id,
            match requirement {
                Some(q) => Some(*q),
                None => None,
            },
            source_gates@,
            *r,
            *p,
        ),
{
    let is_evidence = str_eq(kind, "evidence");
    let is_coverage = str_eq(kind, "coverage");
    if !is_evidence && !is_coverage {
        return false;
    }
    let target_item = match task_id {
        Some(t) => match find_preserving(&r.tasks, t) {
            None => return false,
            Some(item) => item,
        },
        None => None,
    };
    if let Some(q) = requirement {
        let same_hash = match &q.target_hash {
            Some(h) => str_eq(h.as_str(), q.source_hash.as_str()),
            None => false,
        };
        if !same_hash || !holds_requirement(p, &target_item, q.key.as_str()) {
            return false;
        }
    }
    if is_coverage && !all_gates_preserved(r, source_gates) {
        return false;
    }
    task_id.is_some() || requirement.is_some()
}

} // verus!

verus! {

// ---- the mappings of a stored plan ----
/// A reconciliation mapping as stored: its category, source, target text,
/// disposition, stored effect and reason.
#[derive(Clone, Debug, PartialEq, Eq)]
pub struct StoredMappingRow {
    pub category: String,
    pub source_id: i64,
    pub target: Option<String>,
    pub disposition: String,
    pub effect: Option<String>,
    pub reason: Option<String>,
}

/// The endpoints of a stored plan, as the store lists them: item keys;
/// (item, boundary) keys; (item, gate) keys; slice keys; and (predecessor
/// slice, successor slice) keys of each slice dependency.
pub struct StoredEndpoints {
    pub items: Vec<String>,
    pub boundaries: Vec<(String, String)>,
    pub gates: Vec<(String, String)>,
    pub slices: Vec<String>,
    pub dependencies: Vec<(String, String)>,
}

/// How far a stored mapping's state carries over, by its stored effect: a
/// retained mapping without a stored effect is unqualified.
pub open spec fn spec_stored_qualification(disposition: Seq<char>, effect: Option<Seq<char>>) -> Seq<
    char,
> {
    if disposition == "retained"@ && effect == Some("preserve"@) {
        "preserved_qualified"@
    } else if disposition == "retained"@ && effect == Some("open"@) {
        "open"@
    } else if disposition == "new"@ {
        "open"@
    } else if disposition == "retired"@ {
        "historical_only"@
    } else {
        "unqualified"@
    }
}

pub open spec fn stored_view(row: StoredMappingRow) -> EffectView {
    (
        row.category@,
        row.source_id,
        opt_view(row.target),
        row.disposition@,
        opt_view(row.effect),
        spec_stored_qualification(row.disposition@, opt_view(row.effect)),
        spec_projection_handle(
            "owned-mapping"@,
            seq![
                row.category@,
                decimal(row.source_id as int),
                or_dash(opt_view(row.target)),
                row.disposition@,
                or_dash(opt_view(row.effect)),
                or_dash(opt_view(row.reason)),
            ],
        ),
    )
}

pub open spec fn stored_views(rows: Seq<StoredMappingRow>) -> Seq<EffectView> {
    rows.map_values(|row: StoredMappingRow| stored_view(row))
}

/// A stored endpoint that no retained mapping targets: new and open.
pub open spec fn owned_new(category: Seq<char>, target: Seq<char>) -> EffectView {
    (
        category,
        0,
        Some(target),
        "new"@,
        Some("open"@),
        "open"@,
        spec_projection_handle(
            "owned-mapping"@,
            seq![category, "0"@, target, "new"@, "open"@, "-"@],
        ),
    )
}

pub open spec fn owned_add(m: Seq<EffectView>, category: Seq<char>, target: Seq<char>) -> Seq<
    EffectView,
> {
    if retained_target(m, target) {
        Seq::empty()
    } else {
        seq![owned_new(category, target)]
    }
}

pub open spec fn owned_additions(m: Seq<EffectView>, category: Seq<char>, targets: Seq<Seq<char>>) -> Seq<
    EffectView,
>
    decreases targets.len(),
{
    if targets.len() == 0 {
        Seq::empty()
    } else {
        owned_additions(m, category, targets.drop_last()) + owned_add(m, category, targets.last())
    }
}

/// A gate endpoint is new unless a retained gate mapping targets the same
/// item gate, whatever boundary it resolved.
pub open spec fn owned_gate_additions(m: Seq<EffectView>, prefixes: Seq<Seq<char>>) -> Seq<EffectView>
    decreases prefixes.len(),
{
    if prefixes.len() == 0 {
        Seq::empty()
    } else {
        owned_gate_additions(m, prefixes.drop_last()) + if retained_prefix(m, prefixes.last()) {
            Seq::empty()
        } else {
            owned_add(m, "gate"@, prefixes.last() + "new"@)
        }
    }
}

pub open spec fn owned_item_targets(items: Seq<String>) -> Seq<Seq<char>> {
    items.map_values(|k: String| "item:"@ + k@)
}

pub open spec fn owned_boundary_targets(bs: Seq<(String, String)>) -> Seq<Seq<char>> {
    bs.map_values(|p: (String, String)| "boundary:"@ + p.0@ + "/"@ + p.1@)
}

pub open spec fn owned_gate_prefixes(gs: Seq<(String, String)>) -> Seq<Seq<char>> {
    gs.map_values(|p: (String, String)| "gate:"@ + p.0@ + "/"@ + p.1@ + "@"@)
}

pub open spec fn owned_slice_targets(ss: Seq<String>) -> Seq<Seq<char>> {
    ss.map_values(|k: String| "slice:"@ + k@)
}

pub open spec fn owned_dependency_targets(ds: Seq<(String, String)>) -> Seq<Seq<char>> {
    ds.map_values(|p: (String, String)| "dependency:"@ + p.0@ + "->"@ + p.1@)
}

/// Every mapping of a stored plan, before ordering: the stored mappings,
/// then a new one for each item, boundary, gate, slice and slice dependency
/// that no retained mapping targets.
pub open spec fn stored_mapping_views(rows: Seq<StoredMappingRow>, e: StoredEndpoints) -> Seq<
    EffectView,
> {
    let m = stored_views(rows);
    m + owned_additions(m, "task"@, owned_item_targets(e.items@)) + owned_additions(
        m,
        "checklist"@,
        owned_boundary_targets(e.boundaries@),
    ) + owned_gate_additions(m, owned_gate_prefixes(e.gates@)) + owned_additions(
        m,
        "phase"@,
        owned_slice_targets(e.slices@),
    ) + owned_additions(m, "dependency"@, owned_dependency_targets(e.dependencies@))
}

fn stored_qualification(disposition: &str, effect: &Option<String>) -> (r: &'static str)
    ensures
        r@ == spec_stored_qualification(disposition@, opt_view(*effect)),
{
    let retained = str_eq(disposition, "retained");
    let (preserve, open) = match effect {
        Some(e) => (str_eq(e.as_str(), "preserve"), str_eq(e.as_str(), "open")),
        None => (false, false),
    };
    if retained && preserve {
        "preserved_qualified"
    } else if retained && open {
        "open"
    } else if str_eq(disposition, "new") {
        "open"
    } else if str_eq(disposition, "retired") {
        "historical_only"
    } else {
        "unqualified"
    }
}

fn stored_record(row: &StoredMappingRow) -> (r: DecompositionMappingRecord)
    ensures
        mapping_view(r) == stored_view(*row),
{
    let mut values: Vec<String> = Vec::new();
    values.push(row.category.clone());
    values.push(i64_decimal(row.source_id));
    values.push(dash_or(&row.target));
    values.push(row.disposition.clone());
    values.push(dash_or(&row.effect));
    values.push(dash_or(&row.reason));
    assert(values@.map_values(|v: String| v@) =~= seq![
        row.category@,
        decimal(row.source_id as int),
        or_dash(opt_view(row.target)),
        row.disposition@,
        or_dash(opt_view(row.effect)),
        or_dash(opt_view(row.reason)),
    ]);
    DecompositionMappingRecord {
        category: row.category.clone(),
        source_id: row.source_id,
        target: row.target.clone(),
        disposition: row.disposition.clone(),
        effect: row.effect.clone(),
        qualification: String::from_str(stored_qualification(row.disposition.as_str(), &row.effect)),
        observed_handle: projection_handle("owned-mapping", &values),
    }
}

fn push_owned(
    out: &mut Vec<DecompositionMappingRecord>,
    retained: &Vec<String>,
    Ghost(m): Ghost<Seq<EffectView>>,
    category: &str,
    target: String,
)
    requires
        forall|t: Seq<char>| text_views(retained@).contains(t) <==> retained_target(m, t),
    ensures
        mapping_views(final(out)@) == mapping_views(old(out)@) + owned_add(m, category@, target@),
{
    if contains_text_view(retained, target.as_str()) {
        assert(mapping_views(out@) =~= mapping_views(out@) + Seq::<EffectView>::empty());
        return;
    }
    let mut values: Vec<String> = Vec::new();
    values.push(String::from_str(category));
    values.push(String::from_str("0"));
    values.push(target.clone());
    values.push(String::from_str("new"));
    values.push(String::from_str("open"));
    values.push(String::from_str("-"));
    assert(values@.map_values(|v: String| v@) =~= seq![
        category@,
        "0"@,
        target@,
        "new"@,
        "open"@,
        "-"@,
    ]);
    let e = DecompositionMappingRecord {
        category: String::from_str(category),
        source_id: 0,
        target: Some(target),
        disposition: String::from_str("new"),
        effect: Some(String::from_str("open")),
        qualification: String::from_str("open"),
        observed_handle: projection_handle("owned-mapping", &values),
    };
    let ghost before = out@;
    out.push(e);
    assert(mapping_views(out@) =~= mapping_views(before) + seq![mapping_view(e)]);
}

fn push_owned_targets(
    out: &mut Vec<DecompositionMappingRecord>,
    retained: &Vec<String>,
    Ghost(m): Ghost<Seq<EffectView>>,
    category: &str,
    targets: &Vec<String>,
)
    requires
        forall|t: Seq<char>| text_views(retained@).contains(t) <==> retained_target(m, t),
    ensures
        mapping_views(final(out)@) == mapping_views(old(out)@) + owned_additions(
            m,
            category@,
            text_views(targets@),
        ),
{
    let ghost start = mapping_views(out@);
    let mut i: usize = 0;
    while i < targets.len()
        invariant
            forall|t: Seq<char>| text_views(retained@).contains(t) <==> retained_target(m, t),
            i <= targets@.len(),
            mapping_views(out@) == start + owned_additions(
                m,
                category@,
                text_views(targets@.take(i as int)),
            ),
        decreases targets@.len() - i,
    {
        push_owned(out, retained, Ghost(m), category, targets[i].clone());
        assert(text_views(targets@.take(i as int + 1)).drop_last() =~= text_views(
            targets@.take(i as int),
        ));
        assert(text_views(targets@.take(i as int + 1)).last() == targets@[i as int]@);
        i += 1;
    }
    assert(targets@.take(targets@.len() as int) =~= targets@);
}

fn item_target_texts(items: &Vec<String>) -> (r: Vec<String>)
    ensures
        text_views(r@) == owned_item_targets(items@),
{
    let mut r: Vec<String> = Vec::new();
    let mut i: usize = 0;
    while i < items.len()
        invariant
            i <= items@.len(),
            text_views(r@) == owned_item_targets(items@.take(i as int)),
        decreases items@.len() - i,
    {
        r.push(String::from_str("item:").concat(items[i].as_str()));
        assert(owned_item_targets(items@.take(i as int + 1)) =~= owned_item_targets(
            items@.take(i as int),
        ).push("item:"@ + items@[i as int]@));
        assert(text_views(r@) =~= owned_item_targets(items@.take(i as int + 1)));
        i += 1;
    }
    assert(items@.take(items@.len() as int) =~= items@);
    r
}

fn slice_target_texts(slices: &Vec<String>) -> (r: Vec<String>)
    ensures
        text_views(r@) == owned_slice_targets(slices@),
{
    let mut r: Vec<String> = Vec::new();
    let mut i: usize = 0;
    while i < slices.len()
        invariant
            i <= slices@.len(),
            text_views(r@) == owned_slice_targets(slices@.take(i as int)),
        decreases slices@.len() - i,
    {
        r.push(String::from_str("slice:").concat(slices[i].as_str()));
        assert(owned_slice_targets(slices@.take(i as int + 1)) =~= owned_slice_targets(
            slices@.take(i as int),
        ).push("slice:"@ + slices@[i as int]@));
        assert(text_views(r@) =~= owned_slice_targets(slices@.take(i as int + 1)));
        i += 1;
    }
    assert(slices@.take(slices@.len() as int) =~= slices@);
    r
}

fn boundary_target_texts(pairs: &Vec<(String, String)>) -> (r: Vec<String>)
    ensures
        text_views(r@) == owned_boundary_targets(pairs@),
{
    let mut r: Vec<String> = Vec::new();
    let mut i: usize = 0;
    while i < pairs.len()
        invariant
            i <= pairs@.len(),
            text_views(r@) == owned_boundary_targets(pairs@.take(i as int)),
        decreases pairs@.len() - i,
    {
        let p = &pairs[i];
        r.push(String::from_str("boundary:").concat(p.0.as_str()).concat("/").concat(p.1.as_str()));
        assert(owned_boundary_targets(pairs@.take(i as int + 1)) =~= owned_boundary_targets(
            pairs@.take(i as int),
        ).push("boundary:"@ + pairs@[i as int].0@ + "/"@ + pairs@[i as int].1@));
        assert(text_views(r@) =~= owned_boundary_targets(pairs@.take(i as int + 1)));
        i += 1;
    }
    assert(pairs@.take(pairs@.len() as int) =~= pairs@);
    r
}

fn dependency_target_texts(pairs: &Vec<(String, String)>) -> (r: Vec<String>)
    ensures
        text_views(r@) == owned_dependency_targets(pairs@),
{
    let mut r: Vec<String> = Vec::new();
    let mut i: usize = 0;
    while i < pairs.len()
        invariant
            i <= pairs@.len(),
            text_views(r@) == owned_dependency_targets(pairs@.take(i as int)),
        decreases pairs@.len() - i,
    {
        let p = &pairs[i];
        r.push(String::from_str("dependency:").concat(p.0.as_str()).concat("->").concat(p.1.as_str()));
        assert(owned_dependency_targets(pairs@.take(i as int + 1)) =~= owned_dependency_targets(
            pairs@.take(i as int),
        ).push("dependency:"@ + pairs@[i as int].0@ + "->"@ + pairs@[i as int].1@));
        assert(text_views(r@) =~= owned_dependency_targets(pairs@.take(i as int + 1)));
        i += 1;
    }
    assert(pairs@.take(pairs@.len() as int) =~= pairs@);
    r
}

fn push_owned_gates(
    out: &mut Vec<DecompositionMappingRecord>,
    retained: &Vec<String>,
    Ghost(m): Ghost<Seq<EffectView>>,
    gates: &Vec<(String, String)>,
)
    requires
        forall|t: Seq<char>| text_views(retained@).contains(t) <==> retained_target(m, t),
    ensures
        mapping_views(final(out)@) == mapping_views(old(out)@) + owned_gate_additions(
            m,
            owned_gate_prefixes(gates@),
        ),
{
    let ghost start = mapping_views(out@);
    let mut g: usize = 0;
    while g < gates.len()
        invariant
            forall|t: Seq<char>| text_views(retained@).contains(t) <==> retained_target(m, t),
            g <= gates@.len(),
            mapping_views(out@) == start + owned_gate_additions(
                m,
                owned_gate_prefixes(gates@.take(g as int)),
            ),
        decreases gates@.len() - g,
    {
        let p = &gates[g];
        let prefix = String::from_str("gate:").concat(p.0.as_str()).concat("/").concat(
            p.1.as_str(),
        ).concat("@");
        assert(owned_gate_prefixes(gates@.take(g as int + 1)) =~= owned_gate_prefixes(
            gates@.take(g as int),
        ).push(prefix@));
        assert(owned_gate_prefixes(gates@.take(g as int + 1)).drop_last() =~= owned_gate_prefixes(
            gates@.take(g as int),
        ));
        assert(owned_gate_prefixes(gates@.take(g as int + 1)).last() == prefix@);
        let has_prefix = any_with_prefix(retained, prefix.as_str());
        proof {
            assert(has_prefix == retained_prefix(m, prefix@)) by {
                if has_prefix {
                    let t = choose|t: Seq<char>|
                        text_views(retained@).contains(t) && prefix@.is_prefix_of(t);
                    assert(retained_target(m, t));
                    let i = choose|i: int|
                        0 <= i < m.len() && (#[trigger] m[i]).3 == "retained"@ && m[i].2 == Some(t);
                    assert(m[i].2->0 == t);
                }
                if retained_prefix(m, prefix@) {
                    let i = choose|i: int|
                        0 <= i < m.len() && (#[trigger] m[i]).3 == "retained"@ && m[i].2 is Some
                            && prefix@.is_prefix_of(m[i].2->0);
                    assert(retained_target(m, m[i].2->0));
                    assert(text_views(retained@).contains(m[i].2->0));
                }
            }
        }
        if !has_prefix {
            push_owned(out, retained, Ghost(m), "gate", prefix.concat("new"));
        } else {
            assert(mapping_views(out@) =~= mapping_views(out@) + Seq::<EffectView>::empty());
        }
        g += 1;
    }
    assert(gates@.take(gates@.len() as int) =~= gates@);
}

fn stored_records(rows: &Vec<StoredMappingRow>) -> (r: Vec<DecompositionMappingRecord>)
    ensures
        mapping_views(r@) == stored_views(rows@),
{
    let mut r: Vec<DecompositionMappingRecord> = Vec::new();
    let mut i: usize = 0;
    while i < rows.len()
        invariant
            i <= rows@.len(),
            mapping_views(r@) == stored_views(rows@.take(i as int)),
        decreases rows@.len() - i,
    {
        let ghost before = r@;
        r.push(stored_record(&rows[i]));
        assert(stored_views(rows@.take(i as int + 1)) =~= stored_views(rows@.take(i as int)).push(
            stored_view(rows@[i as int]),
        ));
        assert(mapping_views(r@) =~= mapping_views(before).push(mapping_view(r@.last())));
        i += 1;
    }
    assert(rows@.take(rows@.len() as int) =~= rows@);
    r
}

/// The mappings a stored plan reports, ordered by category, source and
/// target: its stored reconciliation mappings, and a new open mapping for
/// each endpoint that no retained mapping targets.
pub fn decomposition_mappings(rows: &Vec<StoredMappingRow>, endpoints: &StoredEndpoints) -> (r: Vec<
    DecompositionMappingRecord,
>)
    ensures
        crate::order::sorted_by_key(r@),
        mapping_views(r@).to_multiset() == stored_mapping_views(rows@, *endpoints).to_multiset(),
        mapping_views(r@) == crate::order::stable_sort(
            stored_mapping_views(rows@, *endpoints),
            effect_view_order(),
        ),
{
    let mut out = stored_records(rows);
    let ghost m = mapping_views(out@);
    let retained = retained_targets(&out);
    let items = item_target_texts(&endpoints.items);
    push_owned_targets(&mut out, &retained, Ghost(m), "task", &items);
    let boundaries = boundary_target_texts(&endpoints.boundaries);
    push_owned_targets(&mut out, &retained, Ghost(m), "checklist", &boundaries);
    push_owned_gates(&mut out, &retained, Ghost(m), &endpoints.gates);
    let slices = slice_target_texts(&endpoints.slices);
    push_owned_targets(&mut out, &retained, Ghost(m), "phase", &slices);
    let dependencies = dependency_target_texts(&endpoints.dependencies);
    push_owned_targets(&mut out, &retained, Ghost(m), "dependency", &dependencies);
    assert(mapping_views(out@) == stored_mapping_views(rows@, *endpoints));
    let ghost unsorted = out@;
    let sorted = crate::order::sort_by_key(out);
    proof {
        crate::order::lemma_map_values_multiset(sorted@, unsorted, mapping_view_fn());
        crate::order::lemma_stable_sort_views(
            unsorted,
            mapping_view_fn(),
            crate::order::key_order(),
            effect_view_order(),
        );
    }
    sorted
}

} // verus!
