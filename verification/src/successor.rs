//! What a reconciliation successor must satisfy against the design version it
//! targets and the state its predecessor left: full requirement coverage, the
//! gates each requirement calls for, one-to-one retained targets, and
//! preserve effects that change nothing the predecessor's state means.

use vstd::prelude::*;

use crate::document::{
    opt_view, spec_normalized_effect, normalized_effect, PlanDocument, PlanItem, PlanReconciliation,
    ReconciliationEffect,
};
use crate::order::{sorted_text_set, strictly_sorted, text_views, SortKey};
use crate::reconciliation::{one_to_one, require_unique_retained_targets, ReconciliationIssue};
use crate::text::str_eq;
use crate::validation::{as_result, first_issue};

verus! {

/// An active requirement of the design version, by key and hash.
#[derive(Clone, Debug, PartialEq, Eq)]
pub struct RequirementRef {
    pub key: String,
    pub hash: String,
}

pub open spec fn ref_view(r: RequirementRef) -> (Seq<char>, Seq<char>) {
    (r.key@, r.hash@)
}

pub open spec fn ref_views(s: Seq<RequirementRef>) -> Seq<(Seq<char>, Seq<char>)> {
    s.map_values(|r: RequirementRef| ref_view(r))
}

impl SortKey for RequirementRef {
    open spec fn key_lt(self, other: Self) -> bool {
        crate::order::text_lt(self.key@, other.key@) || (self.key@ == other.key@
            && crate::order::text_lt(self.hash@, other.hash@))
    }

    proof fn lemma_key_lt_irreflexive(a: Self) {
        crate::order::lemma_text_lt_irreflexive(a.key@);
        crate::order::lemma_text_lt_irreflexive(a.hash@);
    }

    proof fn lemma_key_lt_transitive(a: Self, b: Self, c: Self) {
        if crate::order::text_lt(a.key@, b.key@) && crate::order::text_lt(b.key@, c.key@) {
            crate::order::lemma_text_lt_transitive(a.key@, b.key@, c.key@);
        }
        if a.key@ == b.key@ && b.key@ == c.key@ && crate::order::text_lt(a.hash@, b.hash@)
            && crate::order::text_lt(b.hash@, c.hash@) {
            crate::order::lemma_text_lt_transitive(a.hash@, b.hash@, c.hash@);
        }
    }

    fn key_less(&self, other: &Self) -> (r: bool) {
        if crate::order::text_less(self.key.as_str(), other.key.as_str()) {
            return true;
        }
        str_eq(self.key.as_str(), other.key.as_str()) && crate::order::text_less(
            self.hash.as_str(),
            other.hash.as_str(),
        )
    }
}

/// The validation gates that an active requirement calls for.
#[derive(Clone, Debug, PartialEq, Eq)]
pub struct RequirementGates {
    pub requirement: String,
    pub gates: Vec<String>,
}

/// What a predecessor task meant, for a preserved task mapping: its title,
/// details, completion condition, and the requirements it derives from in
/// increasing (key, hash) order.
#[derive(Clone, Debug, PartialEq, Eq)]
pub struct TaskSourceFacts {
    pub title: String,
    pub details: String,
    pub outcome: String,
    pub requirements: Vec<RequirementRef>,
}

/// What a validation gate checks.
#[derive(Clone, Debug, PartialEq, Eq)]
pub struct GateMeaning {
    pub key: String,
    pub command: Option<String>,
    pub expected: String,
    pub environment: Option<String>,
    pub timeout: Option<String>,
    pub artifacts: Option<String>,
    pub requirement: String,
}

pub open spec fn meaning_view(m: GateMeaning) -> (
    Seq<char>,
    Option<Seq<char>>,
    Seq<char>,
    Option<Seq<char>>,
    Option<Seq<char>>,
    Option<Seq<char>>,
    Seq<char>,
) {
    (
        m.key@,
        opt_view(m.command),
        m.expected@,
        opt_view(m.environment),
        opt_view(m.timeout),
        opt_view(m.artifacts),
        m.requirement@,
    )
}

/// A retained gate mapping's resolved boundary identity and, for a preserved
/// one, the source gate's meaning and the meanings of the successor's
/// matching gate templates.
#[derive(Clone, Debug, PartialEq, Eq)]
pub struct GateSourceFacts {
    pub boundary: String,
    pub source_meaning: Option<GateMeaning>,
    pub target_meanings: Vec<GateMeaning>,
}

/// What a predecessor phase was, for a preserved phase mapping.
#[derive(Clone, Debug, PartialEq, Eq)]
pub struct PhaseSourceFacts {
    pub title: String,
    pub kind: String,
}

/// A predecessor phase dependency, for a preserved dependency mapping.
#[derive(Clone, Debug, PartialEq, Eq)]
pub struct DependencySourceFacts {
    pub from: i64,
    pub to: i64,
    pub dependency_type: String,
    pub reason: String,
    pub status: String,
    pub evidence: Option<String>,
    pub authority: Option<i64>,
}

/// What the store says for a reconciliation successor: the active
/// requirements of the target design version, the gates each calls for, and
/// per mapping (in the order of the plan's reconciliation section) what its
/// source meant, where the mapping needs it.
#[derive(Clone, Debug, PartialEq, Eq)]
pub struct SuccessorFacts {
    pub active_requirements: Vec<RequirementRef>,
    pub requirement_gates: Vec<RequirementGates>,
    pub tasks: Vec<Option<TaskSourceFacts>>,
    pub checklist: Vec<Option<String>>,
    pub gates: Vec<Option<GateSourceFacts>>,
    pub phases: Vec<Option<PhaseSourceFacts>>,
    pub dependencies: Vec<Option<DependencySourceFacts>>,
}

pub open spec fn is_retained(d: String) -> bool {
    d@ == "retained"@
}

pub open spec fn is_preserved(d: String, e: Option<ReconciliationEffect>) -> bool {
    is_retained(d) && spec_normalized_effect(e) == ReconciliationEffect::Preserve
}

pub open spec fn text_of(o: Option<String>) -> Seq<char> {
    match o {
        Some(s) => s@,
        None => Seq::empty(),
    }
}

// ---- requirement coverage ----
pub open spec fn requirement_declared(p: PlanDocument, r: Seq<char>) -> bool {
    exists|i: int, j: int|
        0 <= i < p.items@.len() && 0 <= j < p.items@[i].requirements@.len()
            && (#[trigger] p.items@[i].requirements@[j])@ == r
}

pub open spec fn requirement_active(f: SuccessorFacts, r: Seq<char>) -> bool {
    exists|k: int| 0 <= k < f.active_requirements@.len() && (#[trigger] f.active_requirements@[k]).key@ == r
}

/// The plan's items declare exactly the active requirements, and there is
/// at least one.
pub open spec fn requirements_covered(p: PlanDocument, f: SuccessorFacts) -> bool {
    &&& f.active_requirements@.len() > 0
    &&& forall|r: Seq<char>| requirement_declared(p, r) <==> requirement_active(f, r)
}

fn is_declared(p: &PlanDocument, r: &str) -> (res: bool)
    ensures
        res == requirement_declared(*p, r@),
{
    let mut i: usize = 0;
    while i < p.items.len()
        invariant
            i <= p.items@.len(),
            forall|a: int, b: int|
                0 <= a < i && 0 <= b < p.items@[a].requirements@.len() ==> (
                #[trigger] p.items@[a].requirements@[b])@ != r@,
        decreases p.items@.len() - i,
    {
        let mut j: usize = 0;
        while j < p.items[i].requirements.len()
            invariant
                i < p.items@.len(),
                j <= p.items@[i as int].requirements@.len(),
                forall|b: int| 0 <= b < j ==> (#[trigger] p.items@[i as int].requirements@[b])@ != r@,
            decreases p.items@[i as int].requirements@.len() - j,
        {
            if str_eq(p.items[i].requirements[j].as_str(), r) {
                return true;
            }
            j += 1;
        }
        i += 1;
    }
    false
}

fn is_active(f: &SuccessorFacts, r: &str) -> (res: bool)
    ensures
        res == requirement_active(*f, r@),
{
    let mut k: usize = 0;
    while k < f.active_requirements.len()
        invariant
            k <= f.active_requirements@.len(),
            forall|a: int| 0 <= a < k ==> (#[trigger] f.active_requirements@[a]).key@ != r@,
        decreases f.active_requirements@.len() - k,
    {
        if str_eq(f.active_requirements[k].key.as_str(), r) {
            return true;
        }
        k += 1;
    }
    false
}

/// Whether the plan's items declare exactly the active requirements.
pub fn check_requirement_coverage(p: &PlanDocument, f: &SuccessorFacts) -> (res: bool)
    ensures
        res == requirements_covered(*p, *f),
{
    if f.active_requirements.len() == 0 {
        return false;
    }
    let mut k: usize = 0;
    while k < f.active_requirements.len()
        invariant
            k <= f.active_requirements@.len(),
            forall|a: int|
                0 <= a < k ==> requirement_declared(*p, (#[trigger] f.active_requirements@[a]).key@),
        decreases f.active_requirements@.len() - k,
    {
        if !is_declared(p, f.active_requirements[k].key.as_str()) {
            return false;
        }
        k += 1;
    }
    let mut i: usize = 0;
    while i < p.items.len()
        invariant
            i <= p.items@.len(),
            forall|a: int| 0 <= a < f.active_requirements@.len() ==> requirement_declared(
                *p,
                (#[trigger] f.active_requirements@[a]).key@,
            ),
            forall|a: int, b: int|
                0 <= a < i && 0 <= b < p.items@[a].requirements@.len() ==> requirement_active(
                    *f,
                    (#[trigger] p.items@[a].requirements@[b])@,
                ),
        decreases p.items@.len() - i,
    {
        let mut j: usize = 0;
        while j < p.items[i].requirements.len()
            invariant
                i < p.items@.len(),
                j <= p.items@[i as int].requirements@.len(),
                forall|a: int, b: int|
                    0 <= a < i && 0 <= b < p.items@[a].requirements@.len() ==> requirement_active(
                        *f,
                        (#[trigger] p.items@[a].requirements@[b])@,
                    ),
                forall|b: int|
                    0 <= b < j ==> requirement_active(
                        *f,
                        (#[trigger] p.items@[i as int].requirements@[b])@,
                    ),
            decreases p.items@[i as int].requirements@.len() - j,
        {
            if !is_active(f, p.items[i].requirements[j].as_str()) {
                return false;
            }
            j += 1;
        }
        i += 1;
    }
    proof {
        assert forall|r: Seq<char>| requirement_declared(*p, r) <==> requirement_active(*f, r) by {
            if requirement_declared(*p, r) {
                let (a, b) = choose|a: int, b: int|
                    0 <= a < p.items@.len() && 0 <= b < p.items@[a].requirements@.len() && (
                    #[trigger] p.items@[a].requirements@[b])@ == r;
                assert(requirement_active(*f, p.items@[a].requirements@[b]@));
            }
            if requirement_active(*f, r) {
                let a = choose|a: int|
                    0 <= a < f.active_requirements@.len() && (
                    #[trigger] f.active_requirements@[a]).key@ == r;
                assert(requirement_declared(*p, f.active_requirements@[a].key@));
            }
        }
    }
    true
}

// ---- gate coverage ----
/// Entry `k` of the requirement gates is for requirement `r` and lists `g`.
pub open spec fn entry_calls_for(f: SuccessorFacts, k: int, r: Seq<char>, g: Seq<char>) -> bool {
    &&& 0 <= k < f.requirement_gates@.len()
    &&& f.requirement_gates@[k].requirement@ == r
    &&& exists|m: int|
        0 <= m < f.requirement_gates@[k].gates@.len() && (#[trigger] f.requirement_gates@[k].gates@[m])@
            == g
}

pub open spec fn calls_for_before(f: SuccessorFacts, r: Seq<char>, g: Seq<char>, bound: int) -> bool {
    exists|k: int| 0 <= k < bound && #[trigger] entry_calls_for(f, k, r, g)
}

/// Requirement `r` calls for gate `g`.
pub open spec fn requirement_calls_for(f: SuccessorFacts, r: Seq<char>, g: Seq<char>) -> bool {
    calls_for_before(f, r, g, f.requirement_gates@.len() as int)
}

pub open spec fn expected_before(f: SuccessorFacts, item: PlanItem, g: Seq<char>, bound: int) -> bool {
    exists|a: int| 0 <= a < bound && #[trigger] requirement_calls_for(f, item.requirements@[a]@, g)
}

/// A gate that one of the item's requirements calls for.
pub open spec fn gate_expected(f: SuccessorFacts, item: PlanItem, g: Seq<char>) -> bool {
    expected_before(f, item, g, item.requirements@.len() as int)
}

pub open spec fn gate_declared(item: PlanItem, g: Seq<char>) -> bool {
    exists|m: int| 0 <= m < item.completion.gates@.len() && (#[trigger] item.completion.gates@[m])@ == g
}

/// The item declares exactly the gates its requirements call for.
pub open spec fn item_gates_covered(f: SuccessorFacts, item: PlanItem) -> bool {
    forall|g: Seq<char>| gate_expected(f, item, g) <==> gate_declared(item, g)
}

pub proof fn lemma_push_contains(before: Seq<String>, x: String, after: Seq<String>)
    requires
        after == before.push(x),
    ensures
        forall|g: Seq<char>|
            text_views(after).contains(g) == (text_views(before).contains(g) || g == x@),
{
    assert(text_views(after) =~= text_views(before).push(x@));
    assert forall|g: Seq<char>|
        text_views(after).contains(g) == (text_views(before).contains(g) || g == x@) by {
        if text_views(after).contains(g) {
            let i = choose|i: int| 0 <= i < text_views(after).len() && text_views(after)[i] == g;
            if i < text_views(before).len() {
                assert(text_views(before)[i] == g);
            }
        }
        if text_views(before).contains(g) {
            let i = choose|i: int| 0 <= i < text_views(before).len() && text_views(before)[i] == g;
            assert(text_views(after)[i] == g);
        }
        if g == x@ {
            assert(text_views(after)[text_views(before).len() as int] == g);
        }
    }
}

fn expected_gates(f: &SuccessorFacts, item: &PlanItem) -> (out: Vec<String>)
    ensures
        forall|g: Seq<char>| text_views(out@).contains(g) <==> gate_expected(*f, *item, g),
{
    let mut out: Vec<String> = Vec::new();
    let mut j: usize = 0;
    while j < item.requirements.len()
        invariant
            j <= item.requirements@.len(),
            forall|g: Seq<char>|
                text_views(out@).contains(g) <==> expected_before(*f, *item, g, j as int),
        decreases item.requirements@.len() - j,
    {
        let ghost r = item.requirements@[j as int]@;
        let mut k: usize = 0;
        while k < f.requirement_gates.len()
            invariant
                j < item.requirements@.len(),
                r == item.requirements@[j as int]@,
                k <= f.requirement_gates@.len(),
                forall|g: Seq<char>|
                    text_views(out@).contains(g) <==> (expected_before(*f, *item, g, j as int)
                        || calls_for_before(*f, r, g, k as int)),
            decreases f.requirement_gates@.len() - k,
        {
            if str_eq(f.requirement_gates[k].requirement.as_str(), item.requirements[j].as_str()) {
                let mut m: usize = 0;
                while m < f.requirement_gates[k].gates.len()
                    invariant
                        j < item.requirements@.len(),
                        r == item.requirements@[j as int]@,
                        k < f.requirement_gates@.len(),
                        r == f.requirement_gates@[k as int].requirement@,
                        m <= f.requirement_gates@[k as int].gates@.len(),
                        forall|g: Seq<char>|
                            text_views(out@).contains(g) <==> (expected_before(
                                *f,
                                *item,
                                g,
                                j as int,
                            ) || calls_for_before(*f, r, g, k as int) || exists|mm: int|
                                0 <= mm < m && (#[trigger] f.requirement_gates@[k as int].gates@[mm])@
                                    == g),
                    decreases f.requirement_gates@[k as int].gates@.len() - m,
                {
                    let ghost before = out@;
                    out.push(f.requirement_gates[k].gates[m].clone());
                    proof {
                        lemma_push_contains(before, f.requirement_gates@[k as int].gates@[m as int], out@);
                    }
                    m += 1;
                }
                proof {
                    assert forall|g: Seq<char>|
                        calls_for_before(*f, r, g, k as int + 1) == (calls_for_before(
                            *f,
                            r,
                            g,
                            k as int,
                        ) || exists|mm: int|
                            0 <= mm < f.requirement_gates@[k as int].gates@.len() && (
                            #[trigger] f.requirement_gates@[k as int].gates@[mm])@ == g) by {
                        if calls_for_before(*f, r, g, k as int + 1) {
                            let kk = choose|kk: int| 0 <= kk < k + 1 && #[trigger] entry_calls_for(*f, kk, r, g);
                            if kk < k {
                                assert(calls_for_before(*f, r, g, k as int));
                            }
                        }
                        if calls_for_before(*f, r, g, k as int) {
                            let kk = choose|kk: int| 0 <= kk < k && #[trigger] entry_calls_for(*f, kk, r, g);
                            assert(entry_calls_for(*f, kk, r, g));
                        }
                        if exists|mm: int|
                            0 <= mm < f.requirement_gates@[k as int].gates@.len() && (
                            #[trigger] f.requirement_gates@[k as int].gates@[mm])@ == g {
                            assert(entry_calls_for(*f, k as int, r, g));
                        }
                    }
                }
            } else {
                proof {
                    assert forall|g: Seq<char>|
                        calls_for_before(*f, r, g, k as int + 1) == calls_for_before(*f, r, g, k as int) by {
                        if calls_for_before(*f, r, g, k as int + 1) {
                            let kk = choose|kk: int| 0 <= kk < k + 1 && #[trigger] entry_calls_for(*f, kk, r, g);
                            assert(kk != k);
                            assert(calls_for_before(*f, r, g, k as int));
                        }
                        if calls_for_before(*f, r, g, k as int) {
                            let kk = choose|kk: int| 0 <= kk < k && #[trigger] entry_calls_for(*f, kk, r, g);
                            assert(entry_calls_for(*f, kk, r, g));
                        }
                    }
                }
            }
            k += 1;
        }
        proof {
            assert(k == f.requirement_gates@.len());
            assert forall|g: Seq<char>|
                expected_before(*f, *item, g, j as int + 1) == (expected_before(*f, *item, g, j as int)
                    || requirement_calls_for(*f, r, g)) by {
                if expected_before(*f, *item, g, j as int + 1) {
                    let a = choose|a: int|
                        0 <= a < j + 1 && #[trigger] requirement_calls_for(*f, item.requirements@[a]@, g);
                    if a < j {
                        assert(expected_before(*f, *item, g, j as int));
                    }
                }
                if expected_before(*f, *item, g, j as int) {
                    let a = choose|a: int|
                        0 <= a < j && #[trigger] requirement_calls_for(*f, item.requirements@[a]@, g);
                    assert(requirement_calls_for(*f, item.requirements@[a]@, g));
                }
                if requirement_calls_for(*f, r, g) {
                    assert(requirement_calls_for(*f, item.requirements@[j as int]@, g));
                }
            }
            assert forall|g: Seq<char>|
                text_views(out@).contains(g) <==> expected_before(*f, *item, g, j as int + 1) by {
                assert(calls_for_before(*f, r, g, k as int) == requirement_calls_for(*f, r, g));
            }
        }
        j += 1;
    }
    out
}

fn contains_view(values: &Vec<String>, g: &str) -> (res: bool)
    ensures
        res == text_views(values@).contains(g@),
{
    let mut i: usize = 0;
    while i < values.len()
        invariant
            i <= values@.len(),
            forall|a: int| 0 <= a < i ==> (#[trigger] values@[a])@ != g@,
        decreases values@.len() - i,
    {
        if str_eq(values[i].as_str(), g) {
            assert(text_views(values@)[i as int] == g@);
            return true;
        }
        i += 1;
    }
    assert forall|a: int| 0 <= a < text_views(values@).len() implies text_views(values@)[a] != g@ by {
        assert(values@[a]@ != g@);
    }
    false
}

/// Whether the two lists hold the same texts, ignoring order and repetition.
fn same_text_sets(a: &Vec<String>, b: &Vec<String>) -> (res: bool)
    ensures
        res == (forall|g: Seq<char>| text_views(a@).contains(g) <==> text_views(b@).contains(g)),
{
    let mut i: usize = 0;
    while i < a.len()
        invariant
            i <= a@.len(),
            forall|x: int| 0 <= x < i ==> text_views(b@).contains(#[trigger] a@[x]@),
        decreases a@.len() - i,
    {
        if !contains_view(b, a[i].as_str()) {
            assert(text_views(a@)[i as int] == a@[i as int]@);
            return false;
        }
        i += 1;
    }
    let mut j: usize = 0;
    while j < b.len()
        invariant
            j <= b@.len(),
            forall|x: int| 0 <= x < a@.len() ==> text_views(b@).contains(#[trigger] a@[x]@),
            forall|x: int| 0 <= x < j ==> text_views(a@).contains(#[trigger] b@[x]@),
        decreases b@.len() - j,
    {
        if !contains_view(a, b[j].as_str()) {
            assert(text_views(b@)[j as int] == b@[j as int]@);
            return false;
        }
        j += 1;
    }
    proof {
        assert forall|g: Seq<char>| text_views(a@).contains(g) <==> text_views(b@).contains(g) by {
            if text_views(a@).contains(g) {
                let x = choose|x: int| 0 <= x < text_views(a@).len() && text_views(a@)[x] == g;
                assert(text_views(b@).contains(a@[x]@));
            }
            if text_views(b@).contains(g) {
                let x = choose|x: int| 0 <= x < text_views(b@).len() && text_views(b@)[x] == g;
                assert(text_views(a@).contains(b@[x]@));
            }
        }
    }
    true
}

/// The refusal of an item whose declared gates differ from those its
/// requirements call for: the item's key, then the expected and the declared
/// gates, each in increasing order.
pub open spec fn coverage_error(f: SuccessorFacts, item: PlanItem, res: Result<(), ReconciliationIssue>) -> bool {
    res matches Err(ReconciliationIssue::GateCoverageDiffers { item: key, expected, declared })
        && key@ == item.key@ && strictly_sorted(text_views(expected@)) && strictly_sorted(
        text_views(declared@),
    ) && (forall|g: Seq<char>| text_views(expected@).contains(g) <==> gate_expected(f, item, g))
        && (forall|g: Seq<char>| text_views(declared@).contains(g) <==> gate_declared(item, g))
}

/// Refuses an item whose declared gates differ from those its requirements
/// call for; the error lists both sets in increasing order.
pub fn check_item_gate_coverage(f: &SuccessorFacts, item: &PlanItem) -> (res: Result<
    (),
    ReconciliationIssue,
>)
    ensures
        res is Ok <==> item_gates_covered(*f, *item),
        res is Err ==> coverage_error(*f, *item, res),
{
    let expected = expected_gates(f, item);
    proof {
        assert forall|g: Seq<char>| text_views(item.completion.gates@).contains(g) <==> gate_declared(
            *item,
            g,
        ) by {
            if text_views(item.completion.gates@).contains(g) {
                let x = choose|x: int|
                    0 <= x < text_views(item.completion.gates@).len() && text_views(
                        item.completion.gates@,
                    )[x] == g;
                assert(item.completion.gates@[x]@ == g);
            }
            if gate_declared(*item, g) {
                let x = choose|x: int|
                    0 <= x < item.completion.gates@.len() && (
                    #[trigger] item.completion.gates@[x])@ == g;
                assert(text_views(item.completion.gates@)[x] == g);
            }
        }
    }
    if same_text_sets(&expected, &item.completion.gates) {
        return Ok(());
    }
    proof {
        if item_gates_covered(*f, *item) {
            assert forall|g: Seq<char>|
                text_views(expected@).contains(g) <==> text_views(item.completion.gates@).contains(
                    g,
                ) by {
                assert(gate_expected(*f, *item, g) <==> gate_declared(*item, g));
            }
        }
    }
    let e = sorted_text_set(&expected);
    let d = sorted_text_set(&item.completion.gates);
    Err(ReconciliationIssue::GateCoverageDiffers { item: item.key.clone(), expected: e, declared: d })
}

// ---- retained targets ----
pub open spec fn task_targets(ts: Seq<crate::document::TaskReconciliation>) -> Seq<Seq<char>>
    decreases ts.len(),
{
    if ts.len() == 0 {
        Seq::empty()
    } else if is_retained(ts.last().disposition) {
        task_targets(ts.drop_last()).push(text_of(ts.last().item))
    } else {
        task_targets(ts.drop_last())
    }
}

pub open spec fn checklist_targets(cs: Seq<crate::document::ChecklistReconciliation>) -> Seq<Seq<char>>
    decreases cs.len(),
{
    if cs.len() == 0 {
        Seq::empty()
    } else if is_retained(cs.last().disposition) {
        checklist_targets(cs.drop_last()).push(
            text_of(cs.last().item) + "/"@ + text_of(cs.last().boundary),
        )
    } else {
        checklist_targets(cs.drop_last())
    }
}

pub open spec fn phase_targets(ps: Seq<crate::document::PhaseReconciliation>) -> Seq<Seq<char>>
    decreases ps.len(),
{
    if ps.len() == 0 {
        Seq::empty()
    } else if is_retained(ps.last().disposition) {
        phase_targets(ps.drop_last()).push(text_of(ps.last().slice))
    } else {
        phase_targets(ps.drop_last())
    }
}

pub open spec fn dependency_targets(ds: Seq<crate::document::DependencyReconciliation>) -> Seq<
    Seq<char>,
>
    decreases ds.len(),
{
    if ds.len() == 0 {
        Seq::empty()
    } else if is_retained(ds.last().disposition) {
        dependency_targets(ds.drop_last()).push(
            text_of(ds.last().from) + "->"@ + text_of(ds.last().to),
        )
    } else {
        dependency_targets(ds.drop_last())
    }
}

fn some_text(o: &Option<String>) -> (r: String)
    ensures
        r@ == text_of(*o),
{
    match o {
        Some(s) => s.clone(),
        None => String::new(),
    }
}

fn collect_task_targets(r: &PlanReconciliation) -> (out: Vec<String>)
    ensures
        text_views(out@) == task_targets(r.tasks@),
{
    let mut out: Vec<String> = Vec::new();
    let mut i: usize = 0;
    while i < r.tasks.len()
        invariant
            i <= r.tasks@.len(),
            text_views(out@) == task_targets(r.tasks@.take(i as int)),
        decreases r.tasks@.len() - i,
    {
        assert(r.tasks@.take(i as int + 1).drop_last() =~= r.tasks@.take(i as int));
        if str_eq(r.tasks[i].disposition.as_str(), "retained") {
            let ghost before = out@;
            out.push(some_text(&r.tasks[i].item));
            assert(text_views(out@) =~= text_views(before).push(text_of(r.tasks@[i as int].item)));
        }
        i += 1;
    }
    assert(r.tasks@.take(r.tasks@.len() as int) =~= r.tasks@);
    out
}

fn collect_checklist_targets(r: &PlanReconciliation) -> (out: Vec<String>)
    ensures
        text_views(out@) == checklist_targets(r.checklist@),
{
    let mut out: Vec<String> = Vec::new();
    let mut i: usize = 0;
    while i < r.checklist.len()
        invariant
            i <= r.checklist@.len(),
            text_views(out@) == checklist_targets(r.checklist@.take(i as int)),
        decreases r.checklist@.len() - i,
    {
        assert(r.checklist@.take(i as int + 1).drop_last() =~= r.checklist@.take(i as int));
        if str_eq(r.checklist[i].disposition.as_str(), "retained") {
            let ghost before = out@;
            let t = some_text(&r.checklist[i].item).concat("/").concat(
                some_text(&r.checklist[i].boundary).as_str(),
            );
            out.push(t);
            assert(text_views(out@) =~= text_views(before).push(
                text_of(r.checklist@[i as int].item) + "/"@ + text_of(r.checklist@[i as int].boundary),
            ));
        }
        i += 1;
    }
    assert(r.checklist@.take(r.checklist@.len() as int) =~= r.checklist@);
    out
}

fn collect_phase_targets(r: &PlanReconciliation) -> (out: Vec<String>)
    ensures
        text_views(out@) == phase_targets(r.phases@),
{
    let mut out: Vec<String> = Vec::new();
    let mut i: usize = 0;
    while i < r.phases.len()
        invariant
            i <= r.phases@.len(),
            text_views(out@) == phase_targets(r.phases@.take(i as int)),
        decreases r.phases@.len() - i,
    {
        assert(r.phases@.take(i as int + 1).drop_last() =~= r.phases@.take(i as int));
        if str_eq(r.phases[i].disposition.as_str(), "retained") {
            let ghost before = out@;
            out.push(some_text(&r.phases[i].slice));
            assert(text_views(out@) =~= text_views(before).push(text_of(r.phases@[i as int].slice)));
        }
        i += 1;
    }
    assert(r.phases@.take(r.phases@.len() as int) =~= r.phases@);
    out
}

fn collect_dependency_targets(r: &PlanReconciliation) -> (out: Vec<String>)
    ensures
        text_views(out@) == dependency_targets(r.dependencies@),
{
    let mut out: Vec<String> = Vec::new();
    let mut i: usize = 0;
    while i < r.dependencies.len()
        invariant
            i <= r.dependencies@.len(),
            text_views(out@) == dependency_targets(r.dependencies@.take(i as int)),
        decreases r.dependencies@.len() - i,
    {
        assert(r.dependencies@.take(i as int + 1).drop_last() =~= r.dependencies@.take(i as int));
        if str_eq(r.dependencies[i].disposition.as_str(), "retained") {
            let ghost before = out@;
            let t = some_text(&r.dependencies[i].from).concat("->").concat(
                some_text(&r.dependencies[i].to).as_str(),
            );
            out.push(t);
            assert(text_views(out@) =~= text_views(before).push(
                text_of(r.dependencies@[i as int].from) + "->"@ + text_of(
                    r.dependencies@[i as int].to,
                ),
            ));
        }
        i += 1;
    }
    assert(r.dependencies@.take(r.dependencies@.len() as int) =~= r.dependencies@);
    out
}

// ---- requirement references in (key, hash) order ----
pub open spec fn pair_lt(a: (Seq<char>, Seq<char>), b: (Seq<char>, Seq<char>)) -> bool {
    crate::order::text_lt(a.0, b.0) || (a.0 == b.0 && crate::order::text_lt(a.1, b.1))
}

/// The order of (key, hash) pairs that a sort of them follows.
pub open spec fn pair_le(a: (Seq<char>, Seq<char>), b: (Seq<char>, Seq<char>)) -> bool {
    !pair_lt(b, a)
}

proof fn lemma_pair_lt_facts(a: (Seq<char>, Seq<char>), b: (Seq<char>, Seq<char>))
    ensures
        !pair_lt(a, a),
        pair_lt(a, b) || pair_lt(b, a) || a == b,
        !(pair_lt(a, b) && pair_lt(b, a)),
{
    crate::order::lemma_text_lt_irreflexive(a.0);
    crate::order::lemma_text_lt_irreflexive(a.1);
    crate::order::lemma_text_lt_trichotomy(a.0, b.0);
    crate::order::lemma_text_lt_trichotomy(a.1, b.1);
    if crate::order::text_lt(a.0, b.0) && crate::order::text_lt(b.0, a.0) {
        crate::order::lemma_text_lt_transitive(a.0, b.0, a.0);
    }
    if crate::order::text_lt(a.1, b.1) && crate::order::text_lt(b.1, a.1) {
        crate::order::lemma_text_lt_transitive(a.1, b.1, a.1);
    }
}

proof fn lemma_pair_lt_transitive(
    a: (Seq<char>, Seq<char>),
    b: (Seq<char>, Seq<char>),
    c: (Seq<char>, Seq<char>),
)
    requires
        pair_lt(a, b),
        pair_lt(b, c),
    ensures
        pair_lt(a, c),
{
    if crate::order::text_lt(a.0, b.0) && crate::order::text_lt(b.0, c.0) {
        crate::order::lemma_text_lt_transitive(a.0, b.0, c.0);
    }
    if a.0 == b.0 && b.0 == c.0 && crate::order::text_lt(a.1, b.1) && crate::order::text_lt(b.1, c.1) {
        crate::order::lemma_text_lt_transitive(a.1, b.1, c.1);
    }
}

proof fn lemma_pair_le_total_ordering()
    ensures
        vstd::relations::total_ordering(|a: (Seq<char>, Seq<char>), b: (Seq<char>, Seq<char>)| pair_le(a, b)),
{
    let le = |a: (Seq<char>, Seq<char>), b: (Seq<char>, Seq<char>)| pair_le(a, b);
    assert forall|a: (Seq<char>, Seq<char>)| #[trigger] le(a, a) by {
        lemma_pair_lt_facts(a, a);
    }
    assert forall|a: (Seq<char>, Seq<char>), b: (Seq<char>, Seq<char>)|
        #[trigger] le(a, b) && #[trigger] le(b, a) implies a == b by {
        lemma_pair_lt_facts(a, b);
    }
    assert forall|a: (Seq<char>, Seq<char>), b: (Seq<char>, Seq<char>), c: (Seq<char>, Seq<char>)|
        #[trigger] le(a, b) && #[trigger] le(b, c) implies le(a, c) by {
        lemma_pair_lt_facts(a, b);
        lemma_pair_lt_facts(b, c);
        lemma_pair_lt_facts(a, c);
        if pair_lt(c, a) {
            if pair_lt(b, c) {
            } else if b == c {
            } else {
                lemma_pair_lt_transitive(c, a, b);
            }
            if pair_lt(c, b) {
            } else {
                lemma_pair_lt_facts(c, b);
                if c == b {
                } else {
                    lemma_pair_lt_transitive(b, c, a);
                }
            }
        }
    }
    assert forall|a: (Seq<char>, Seq<char>), b: (Seq<char>, Seq<char>)|
        #[trigger] le(a, b) || #[trigger] le(b, a) by {
        lemma_pair_lt_facts(a, b);
    }
}

proof fn lemma_ref_views_multiset(s1: Seq<RequirementRef>, s2: Seq<RequirementRef>)
    requires
        s1.to_multiset() == s2.to_multiset(),
    ensures
        ref_views(s1).to_multiset() == ref_views(s2).to_multiset(),
    decreases s1.len(),
{
    broadcast use vstd::seq_lib::group_to_multiset_ensures;
    broadcast use vstd::multiset::group_multiset_axioms;

    if s1.len() == 0 {
        assert(s2.to_multiset().len() == 0);
        assert(s2.len() == 0);
        assert(ref_views(s1) =~= ref_views(s2));
    } else {
        let x = s1.last();
        let rest = s1.drop_last();
        assert(s1 =~= rest.push(x));
        assert(s2.to_multiset().count(x) > 0);
        assert(s2.contains(x));
        let i = choose|i: int| 0 <= i < s2.len() && s2[i] == x;
        assert(s2.remove(i).to_multiset() =~= s2.to_multiset().remove(x));
        assert(rest.to_multiset() =~= s1.to_multiset().remove(x));
        lemma_ref_views_multiset(rest, s2.remove(i));
        assert(ref_views(s1) =~= ref_views(rest).push(ref_view(x)));
        assert(ref_views(s2.remove(i)) =~= ref_views(s2).remove(i));
        assert(ref_views(s2)[i] == ref_view(x));
        assert(ref_views(s2).to_multiset().count(ref_view(x)) > 0) by {
            assert(ref_views(s2).contains(ref_view(x)));
        }
        assert(ref_views(s1).to_multiset() =~= ref_views(s2).to_multiset());
    }
}

/// The hash of the first active requirement with the given key.
pub open spec fn hash_of(active: Seq<RequirementRef>, key: Seq<char>) -> Seq<char>
    decreases active.len(),
{
    if active.len() == 0 {
        Seq::empty()
    } else if active[0].key@ == key {
        active[0].hash@
    } else {
        hash_of(active.drop_first(), key)
    }
}

/// The (key, hash) pairs of the item's requirements, in the item's order.
pub open spec fn target_refs(item: PlanItem, active: Seq<RequirementRef>) -> Seq<(Seq<char>, Seq<char>)> {
    item.requirements@.map_values(|r: String| (r@, hash_of(active, r@)))
}

fn find_hash(active: &Vec<RequirementRef>, key: &str) -> (r: String)
    ensures
        r@ == hash_of(active@, key@),
{
    let mut i: usize = 0;
    assert(active@.skip(0) =~= active@);
    while i < active.len()
        invariant
            i <= active@.len(),
            hash_of(active@, key@) == hash_of(active@.skip(i as int), key@),
        decreases active@.len() - i,
    {
        assert(active@.skip(i as int).drop_first() =~= active@.skip(i as int + 1));
        assert(active@.skip(i as int)[0] == active@[i as int]);
        if str_eq(active[i].key.as_str(), key) {
            return active[i].hash.clone();
        }
        i += 1;
    }
    assert(active@.skip(i as int) =~= Seq::<RequirementRef>::empty());
    String::new()
}

/// The item's requirements as (key, hash) pairs in increasing order.
fn sorted_target_refs(item: &PlanItem, active: &Vec<RequirementRef>) -> (r: Vec<RequirementRef>)
    ensures
        ref_views(r@) == target_refs(*item, active@).sort_by(
            |a: (Seq<char>, Seq<char>), b: (Seq<char>, Seq<char>)| pair_le(a, b),
        ),
{
    let mut refs: Vec<RequirementRef> = Vec::new();
    let mut i: usize = 0;
    while i < item.requirements.len()
        invariant
            i <= item.requirements@.len(),
            ref_views(refs@) == target_refs(*item, active@).take(i as int),
        decreases item.requirements@.len() - i,
    {
        let r = RequirementRef {
            key: item.requirements[i].clone(),
            hash: find_hash(active, item.requirements[i].as_str()),
        };
        let ghost before = refs@;
        let ghost rv = ref_view(r);
        assert(rv == (item.requirements@[i as int]@, hash_of(active@, item.requirements@[i as int]@)));
        refs.push(r);
        assert(ref_views(refs@) =~= ref_views(before).push(rv));
        assert(target_refs(*item, active@).take(i as int + 1) =~= target_refs(*item, active@).take(
            i as int,
        ).push(rv));
        i += 1;
    }
    assert(target_refs(*item, active@).take(item.requirements@.len() as int) =~= target_refs(
        *item,
        active@,
    ));
    let ghost unsorted = refs@;
    let sorted = crate::order::sort_by_key(refs);
    proof {
        let le = |a: (Seq<char>, Seq<char>), b: (Seq<char>, Seq<char>)| pair_le(a, b);
        lemma_pair_le_total_ordering();
        lemma_ref_views_multiset(sorted@, unsorted);
        let t = target_refs(*item, active@);
        t.lemma_sort_by_ensures(le);
        assert(vstd::relations::sorted_by(ref_views(sorted@), le)) by {
            assert forall|a: int, b: int| 0 <= a < b < ref_views(sorted@).len() implies #[trigger] le(
                ref_views(sorted@)[a],
                ref_views(sorted@)[b],
            ) by {
                assert(!sorted@[b].key_lt(sorted@[a]));
            }
        }
        vstd::seq_lib::lemma_sorted_unique(ref_views(sorted@), t.sort_by(le), le);
    }
    sorted
}

// ---- preserve effects ----
/// The index of the last item with the given key, or -1.
pub open spec fn last_item_index(items: Seq<PlanItem>, key: Seq<char>) -> int
    decreases items.len(),
{
    if items.len() == 0 {
        -1
    } else if items.last().key@ == key {
        items.len() - 1
    } else {
        last_item_index(items.drop_last(), key)
    }
}

/// The index of the first boundary with the given key, or -1.
pub open spec fn first_boundary_index(bs: Seq<crate::document::PlanChecklistBoundary>, key: Seq<char>) -> int
    decreases bs.len(),
{
    if bs.len() == 0 {
        -1
    } else if bs[0].key@ == key {
        0
    } else {
        let rest = first_boundary_index(bs.drop_first(), key);
        if rest < 0 {
            -1
        } else {
            rest + 1
        }
    }
}

/// The index of the first slice with the given key, or -1.
pub open spec fn first_slice_index(ss: Seq<crate::document::PlanSlice>, key: Seq<char>) -> int
    decreases ss.len(),
{
    if ss.len() == 0 {
        -1
    } else if ss[0].key@ == key {
        0
    } else {
        let rest = first_slice_index(ss.drop_first(), key);
        if rest < 0 {
            -1
        } else {
            rest + 1
        }
    }
}

/// The index of the last phase mapping of the given source, or -1.
pub open spec fn last_phase_index(ps: Seq<crate::document::PhaseReconciliation>, source: i64) -> int
    decreases ps.len(),
{
    if ps.len() == 0 {
        -1
    } else if ps.last().source == source {
        ps.len() - 1
    } else {
        last_phase_index(ps.drop_last(), source)
    }
}

fn find_last_item(items: &Vec<PlanItem>, key: &str) -> (r: Option<usize>)
    ensures
        match r {
            Some(i) => i as int == last_item_index(items@, key@) && i < items@.len(),
            None => last_item_index(items@, key@) == -1,
        },
{
    let mut found: Option<usize> = None;
    let mut i: usize = 0;
    while i < items.len()
        invariant
            i <= items@.len(),
            match found {
                Some(k) => k as int == last_item_index(items@.take(i as int), key@) && k < i,
                None => last_item_index(items@.take(i as int), key@) == -1,
            },
        decreases items@.len() - i,
    {
        assert(items@.take(i as int + 1).drop_last() =~= items@.take(i as int));
        if str_eq(items[i].key.as_str(), key) {
            found = Some(i);
        }
        i += 1;
    }
    assert(items@.take(items@.len() as int) =~= items@);
    found
}

proof fn lemma_first_boundary_skip(bs: Seq<crate::document::PlanChecklistBoundary>, key: Seq<char>, i: int)
    requires
        0 <= i < bs.len(),
        bs[i].key@ != key,
        forall|k: int| 0 <= k < i ==> (#[trigger] bs[k]).key@ != key,
    ensures
        first_boundary_index(bs.skip(i), key) < 0 ==> first_boundary_index(bs.skip(i + 1), key) < 0,
        first_boundary_index(bs.skip(i), key) >= 0 ==> first_boundary_index(bs.skip(i), key)
            == first_boundary_index(bs.skip(i + 1), key) + 1,
{
    assert(bs.skip(i).drop_first() =~= bs.skip(i + 1));
}

fn find_first_boundary(bs: &Vec<crate::document::PlanChecklistBoundary>, key: &str) -> (r: Option<
    usize,
>)
    ensures
        match r {
            Some(i) => i as int == first_boundary_index(bs@, key@) && i < bs@.len(),
            None => first_boundary_index(bs@, key@) == -1,
        },
{
    let mut i: usize = 0;
    assert(bs@.skip(0) =~= bs@);
    while i < bs.len()
        invariant
            i <= bs@.len(),
            forall|k: int| 0 <= k < i ==> (#[trigger] bs@[k]).key@ != key@,
            first_boundary_index(bs@, key@) == (if first_boundary_index(bs@.skip(i as int), key@) < 0 {
                -1
            } else {
                first_boundary_index(bs@.skip(i as int), key@) + i
            }),
        decreases bs@.len() - i,
    {
        assert(bs@.skip(i as int)[0] == bs@[i as int]);
        if str_eq(bs[i].key.as_str(), key) {
            return Some(i);
        }
        proof {
            lemma_first_boundary_skip(bs@, key@, i as int);
        }
        i += 1;
    }
    assert(bs@.skip(i as int) =~= Seq::<crate::document::PlanChecklistBoundary>::empty());
    None
}

proof fn lemma_first_slice_skip(ss: Seq<crate::document::PlanSlice>, key: Seq<char>, i: int)
    requires
        0 <= i < ss.len(),
        ss[i].key@ != key,
    ensures
        first_slice_index(ss.skip(i), key) < 0 ==> first_slice_index(ss.skip(i + 1), key) < 0,
        first_slice_index(ss.skip(i), key) >= 0 ==> first_slice_index(ss.skip(i), key)
            == first_slice_index(ss.skip(i + 1), key) + 1,
{
    assert(ss.skip(i).drop_first() =~= ss.skip(i + 1));
}

fn find_first_slice(ss: &Vec<crate::document::PlanSlice>, key: &str) -> (r: Option<usize>)
    ensures
        match r {
            Some(i) => i as int == first_slice_index(ss@, key@) && i < ss@.len(),
            None => first_slice_index(ss@, key@) == -1,
        },
{
    let mut i: usize = 0;
    assert(ss@.skip(0) =~= ss@);
    while i < ss.len()
        invariant
            i <= ss@.len(),
            first_slice_index(ss@, key@) == (if first_slice_index(ss@.skip(i as int), key@) < 0 {
                -1
            } else {
                first_slice_index(ss@.skip(i as int), key@) + i
            }),
        decreases ss@.len() - i,
    {
        assert(ss@.skip(i as int)[0] == ss@[i as int]);
        if str_eq(ss[i].key.as_str(), key) {
            return Some(i);
        }
        proof {
            lemma_first_slice_skip(ss@, key@, i as int);
        }
        i += 1;
    }
    assert(ss@.skip(i as int) =~= Seq::<crate::document::PlanSlice>::empty());
    None
}

fn find_last_phase(ps: &Vec<crate::document::PhaseReconciliation>, source: i64) -> (r: Option<usize>)
    ensures
        match r {
            Some(i) => i as int == last_phase_index(ps@, source) && i < ps@.len(),
            None => last_phase_index(ps@, source) == -1,
        },
{
    let mut found: Option<usize> = None;
    let mut i: usize = 0;
    while i < ps.len()
        invariant
            i <= ps@.len(),
            match found {
                Some(k) => k as int == last_phase_index(ps@.take(i as int), source) && k < i,
                None => last_phase_index(ps@.take(i as int), source) == -1,
            },
        decreases ps@.len() - i,
    {
        assert(ps@.take(i as int + 1).drop_last() =~= ps@.take(i as int));
        if ps[i].source == source {
            found = Some(i);
        }
        i += 1;
    }
    assert(ps@.take(ps@.len() as int) =~= ps@);
    found
}

pub open spec fn pair_order() -> spec_fn((Seq<char>, Seq<char>), (Seq<char>, Seq<char>)) -> bool {
    |a: (Seq<char>, Seq<char>), b: (Seq<char>, Seq<char>)| pair_le(a, b)
}

/// A preserved task mapping must keep the source task's title, details,
/// completion condition and requirements (compared in (key, hash) order).
pub open spec fn task_error(p: PlanDocument, f: SuccessorFacts, i: int) -> Option<ReconciliationIssue> {
    let m = p.reconciliation->0.tasks@[i];
    if !is_preserved(m.disposition, m.effect) {
        None
    } else {
        let item = p.items@[last_item_index(p.items@, text_of(m.item))];
        let t = f.tasks@[i]->0;
        if t.title@ == item.title@ && t.details@ == item.details@ && t.outcome@
            == item.completion.outcome@ && ref_views(t.requirements@) == target_refs(
            item,
            f.active_requirements@,
        ).sort_by(pair_order()) {
            None
        } else {
            Some(ReconciliationIssue::PreserveTaskDiffers { source: m.source, item: item.key })
        }
    }
}

/// A preserved checklist mapping must keep the source item's meaning as the
/// boundary's condition.
pub open spec fn checklist_error(p: PlanDocument, f: SuccessorFacts, i: int) -> Option<
    ReconciliationIssue,
> {
    let m = p.reconciliation->0.checklist@[i];
    if !is_preserved(m.disposition, m.effect) {
        None
    } else {
        let item = p.items@[last_item_index(p.items@, text_of(m.item))];
        let b = item.checklist@[first_boundary_index(item.checklist@, text_of(m.boundary))];
        if f.checklist@[i]->0@ == b.condition@ {
            None
        } else {
            Some(ReconciliationIssue::PreserveChecklistDiffers)
        }
    }
}

/// The target of a retained gate mapping: item, gate and boundary identity.
pub open spec fn gate_target(p: PlanDocument, f: SuccessorFacts, i: int) -> Seq<char> {
    let m = p.reconciliation->0.gates@[i];
    text_of(m.item) + "/"@ + text_of(m.gate) + "@"@ + f.gates@[i]->0.boundary@
}

pub open spec fn gate_repeated(p: PlanDocument, f: SuccessorFacts, i: int) -> bool {
    exists|j: int|
        0 <= j < i && is_retained((#[trigger] p.reconciliation->0.gates@[j]).disposition)
            && gate_target(p, f, j) == gate_target(p, f, i)
}

/// A retained gate mapping must have a target of its own; a preserved one
/// must find exactly the source gate's meaning among the successor's gate
/// templates.
pub open spec fn gate_error(p: PlanDocument, f: SuccessorFacts, i: int) -> Option<ReconciliationIssue> {
    let m = p.reconciliation->0.gates@[i];
    if !is_retained(m.disposition) {
        None
    } else if gate_repeated(p, f, i) {
        Some(ReconciliationIssue::RetainedGateTargetsNotOneToOne)
    } else if !is_preserved(m.disposition, m.effect) {
        None
    } else {
        let g = f.gates@[i]->0;
        if g.target_meanings@.len() == 1 && meaning_view(g.target_meanings@[0]) == meaning_view(
            g.source_meaning->0,
        ) {
            None
        } else {
            Some(ReconciliationIssue::PreserveGateDiffers)
        }
    }
}

/// A preserved phase mapping must keep the source phase's title, and the
/// source must be an implementation phase.
pub open spec fn phase_error(p: PlanDocument, f: SuccessorFacts, i: int) -> Option<ReconciliationIssue> {
    let m = p.reconciliation->0.phases@[i];
    if !is_preserved(m.disposition, m.effect) {
        None
    } else {
        let slice = p.slices@[first_slice_index(p.slices@, text_of(m.slice))];
        let t = f.phases@[i]->0;
        if t.title@ == slice.title@ && t.kind@ == "implementation"@ {
            None
        } else {
            Some(ReconciliationIssue::PreservePhaseDiffers)
        }
    }
}

pub open spec fn all_white_space(s: Seq<char>) -> bool {
    forall|i: int| 0 <= i < s.len() ==> crate::text::is_white_space(#[trigger] s[i])
}

/// Whether a dependency's status is backed: open always, satisfied with
/// non-blank evidence, accepted with an authority.
pub open spec fn dependency_qualified(d: DependencySourceFacts) -> bool {
    if d.status@ == "open"@ {
        true
    } else if d.status@ == "satisfied"@ {
        d.evidence is Some && !all_white_space(d.evidence->0@)
    } else if d.status@ == "accepted"@ {
        d.authority is Some
    } else {
        false
    }
}

/// A preserved dependency mapping must connect phases the reconciliation
/// maps, keep a declared requirement dependency, carry qualifying evidence
/// (and preserved endpoints unless still open), and name the mapped slices.
pub open spec fn dependency_error(p: PlanDocument, f: SuccessorFacts, i: int) -> Option<
    ReconciliationIssue,
> {
    let r = p.reconciliation->0;
    let m = r.dependencies@[i];
    if !is_preserved(m.disposition, m.effect) {
        None
    } else {
        let d = f.dependencies@[i]->0;
        let fi = last_phase_index(r.phases@, d.from);
        let ti = last_phase_index(r.phases@, d.to);
        if fi < 0 {
            Some(ReconciliationIssue::ForeignPredecessorPhase)
        } else if ti < 0 {
            Some(ReconciliationIssue::ForeignSuccessorPhase)
        } else {
            let from = r.phases@[fi];
            let to = r.phases@[ti];
            let endpoints_preserved = is_retained(from.disposition) && is_retained(to.disposition)
                && spec_normalized_effect(from.effect) == ReconciliationEffect::Preserve
                && spec_normalized_effect(to.effect) == ReconciliationEffect::Preserve;
            if d.dependency_type@ != "requires"@ || d.reason@
                != "declared by the current Decomposition Plan"@ || (d.status@ != "open"@
                && !endpoints_preserved) || !dependency_qualified(d) || opt_view(from.slice)
                != opt_view(m.from) || opt_view(to.slice) != opt_view(m.to) {
                Some(ReconciliationIssue::PreserveDependencyDiffers)
            } else {
                None
            }
        }
    }
}

/// The facts a successor check reads are there for each mapping that needs
/// them, and each mapping names targets the plan has.
pub open spec fn successor_inputs_ready(p: PlanDocument, f: SuccessorFacts) -> bool {
    let r = p.reconciliation->0;
    &&& f.tasks@.len() == r.tasks@.len()
    &&& f.checklist@.len() == r.checklist@.len()
    &&& f.gates@.len() == r.gates@.len()
    &&& f.phases@.len() == r.phases@.len()
    &&& f.dependencies@.len() == r.dependencies@.len()
    &&& forall|i: int|
        0 <= i < r.tasks@.len() && is_preserved(
            (#[trigger] r.tasks@[i]).disposition,
            r.tasks@[i].effect,
        ) ==> f.tasks@[i] is Some && last_item_index(p.items@, text_of(r.tasks@[i].item)) >= 0
    &&& forall|i: int|
        0 <= i < r.checklist@.len() && is_preserved(
            (#[trigger] r.checklist@[i]).disposition,
            r.checklist@[i].effect,
        ) ==> f.checklist@[i] is Some && last_item_index(p.items@, text_of(r.checklist@[i].item))
            >= 0 && first_boundary_index(
            p.items@[last_item_index(p.items@, text_of(r.checklist@[i].item))].checklist@,
            text_of(r.checklist@[i].boundary),
        ) >= 0
    &&& forall|i: int|
        0 <= i < r.gates@.len() && is_retained((#[trigger] r.gates@[i]).disposition) ==> f.gates@[i] is Some
            && (is_preserved(r.gates@[i].disposition, r.gates@[i].effect)
            ==> f.gates@[i]->0.source_meaning is Some)
    &&& forall|i: int|
        0 <= i < r.phases@.len() && is_preserved(
            (#[trigger] r.phases@[i]).disposition,
            r.phases@[i].effect,
        ) ==> f.phases@[i] is Some && first_slice_index(p.slices@, text_of(r.phases@[i].slice)) >= 0
    &&& forall|i: int|
        0 <= i < r.dependencies@.len() && is_preserved(
            (#[trigger] r.dependencies@[i]).disposition,
            r.dependencies@[i].effect,
        ) ==> f.dependencies@[i] is Some
}

fn same_refs(a: &Vec<RequirementRef>, b: &Vec<RequirementRef>) -> (r: bool)
    ensures
        r == (ref_views(a@) == ref_views(b@)),
{
    if a.len() != b.len() {
        assert(ref_views(a@).len() != ref_views(b@).len());
        return false;
    }
    let mut i: usize = 0;
    while i < a.len()
        invariant
            i <= a@.len(),
            a@.len() == b@.len(),
            forall|k: int| 0 <= k < i ==> ref_view(#[trigger] a@[k]) == ref_view(b@[k]),
        decreases a@.len() - i,
    {
        if !str_eq(a[i].key.as_str(), b[i].key.as_str()) || !str_eq(
            a[i].hash.as_str(),
            b[i].hash.as_str(),
        ) {
            assert(ref_views(a@)[i as int] != ref_views(b@)[i as int]);
            return false;
        }
        i += 1;
    }
    assert(ref_views(a@) =~= ref_views(b@));
    true
}

fn task_check(p: &PlanDocument, f: &SuccessorFacts, i: usize) -> (res: Result<(), ReconciliationIssue>)
    requires
        p.reconciliation is Some,
        successor_inputs_ready(*p, *f),
        i < p.reconciliation->0.tasks@.len(),
    ensures
        match task_error(*p, *f, i as int) {
            None => res is Ok,
            Some(e) => res == Err::<(), ReconciliationIssue>(e),
        },
{
    let r = match &p.reconciliation {
        Some(r) => r,
        None => return Ok(()),
    };
    let m = &r.tasks[i];
    if !str_eq(m.disposition.as_str(), "retained") || !matches!(normalized_effect(m.effect), ReconciliationEffect::Preserve) {
        return Ok(());
    }
    assert(is_preserved(r.tasks@[i as int].disposition, r.tasks@[i as int].effect));
    let key = some_text(&m.item);
    let idx = match find_last_item(&p.items, key.as_str()) {
        Some(k) => k,
        None => return Ok(()),
    };
    let item = &p.items[idx];
    let t = match &f.tasks[i] {
        Some(t) => t,
        None => return Ok(()),
    };
    let target = sorted_target_refs(item, &f.active_requirements);
    if str_eq(t.title.as_str(), item.title.as_str()) && str_eq(
        t.details.as_str(),
        item.details.as_str(),
    ) && str_eq(t.outcome.as_str(), item.completion.outcome.as_str()) && same_refs(
        &t.requirements,
        &target,
    ) {
        return Ok(());
    }
    Err(ReconciliationIssue::PreserveTaskDiffers { source: m.source, item: item.key.clone() })
}

fn checklist_check(p: &PlanDocument, f: &SuccessorFacts, i: usize) -> (res: Result<
    (),
    ReconciliationIssue,
>)
    requires
        p.reconciliation is Some,
        successor_inputs_ready(*p, *f),
        i < p.reconciliation->0.checklist@.len(),
    ensures
        match checklist_error(*p, *f, i as int) {
            None => res is Ok,
            Some(e) => res == Err::<(), ReconciliationIssue>(e),
        },
{
    let r = match &p.reconciliation {
        Some(r) => r,
        None => return Ok(()),
    };
    let m = &r.checklist[i];
    if !str_eq(m.disposition.as_str(), "retained") || !matches!(normalized_effect(m.effect), ReconciliationEffect::Preserve) {
        return Ok(());
    }
    assert(is_preserved(r.checklist@[i as int].disposition, r.checklist@[i as int].effect));
    let key = some_text(&m.item);
    let idx = match find_last_item(&p.items, key.as_str()) {
        Some(k) => k,
        None => return Ok(()),
    };
    let item = &p.items[idx];
    let bkey = some_text(&m.boundary);
    let b = match find_first_boundary(&item.checklist, bkey.as_str()) {
        Some(k) => k,
        None => return Ok(()),
    };
    let meaning = match &f.checklist[i] {
        Some(t) => t,
        None => return Ok(()),
    };
    if str_eq(meaning.as_str(), item.checklist[b].condition.as_str()) {
        Ok(())
    } else {
        Err(ReconciliationIssue::PreserveChecklistDiffers)
    }
}

fn opt_eq(a: &Option<String>, b: &Option<String>) -> (r: bool)
    ensures
        r == (opt_view(*a) == opt_view(*b)),
{
    match (a, b) {
        (Some(x), Some(y)) => str_eq(x.as_str(), y.as_str()),
        (None, None) => true,
        _ => false,
    }
}

fn same_meaning(a: &GateMeaning, b: &GateMeaning) -> (r: bool)
    ensures
        r == (meaning_view(*a) == meaning_view(*b)),
{
    str_eq(a.key.as_str(), b.key.as_str()) && opt_eq(&a.command, &b.command) && str_eq(
        a.expected.as_str(),
        b.expected.as_str(),
    ) && opt_eq(&a.environment, &b.environment) && opt_eq(&a.timeout, &b.timeout) && opt_eq(
        &a.artifacts,
        &b.artifacts,
    ) && str_eq(a.requirement.as_str(), b.requirement.as_str())
}

fn phase_check(p: &PlanDocument, f: &SuccessorFacts, i: usize) -> (res: Result<(), ReconciliationIssue>)
    requires
        p.reconciliation is Some,
        successor_inputs_ready(*p, *f),
        i < p.reconciliation->0.phases@.len(),
    ensures
        match phase_error(*p, *f, i as int) {
            None => res is Ok,
            Some(e) => res == Err::<(), ReconciliationIssue>(e),
        },
{
    let r = match &p.reconciliation {
        Some(r) => r,
        None => return Ok(()),
    };
    let m = &r.phases[i];
    if !str_eq(m.disposition.as_str(), "retained") || !matches!(normalized_effect(m.effect), ReconciliationEffect::Preserve) {
        return Ok(());
    }
    assert(is_preserved(r.phases@[i as int].disposition, r.phases@[i as int].effect));
    let key = some_text(&m.slice);
    let idx = match find_first_slice(&p.slices, key.as_str()) {
        Some(k) => k,
        None => return Ok(()),
    };
    let t = match &f.phases[i] {
        Some(t) => t,
        None => return Ok(()),
    };
    if str_eq(t.title.as_str(), p.slices[idx].title.as_str()) && str_eq(
        t.kind.as_str(),
        "implementation",
    ) {
        Ok(())
    } else {
        Err(ReconciliationIssue::PreservePhaseDiffers)
    }
}

/// Whether `s` is empty or only whitespace.
pub fn blank(s: &str) -> (r: bool)
    ensures
        r == all_white_space(s@),
{
    let chars = crate::text::chars_of(s);
    let mut i: usize = 0;
    while i < chars.len()
        invariant
            i <= chars@.len(),
            chars@ == s@,
            forall|k: int| 0 <= k < i ==> crate::text::is_white_space(#[trigger] s@[k]),
        decreases chars@.len() - i,
    {
        if !crate::text::white_space(chars[i]) {
            return false;
        }
        i += 1;
    }
    true
}

fn dependency_check(p: &PlanDocument, f: &SuccessorFacts, i: usize) -> (res: Result<
    (),
    ReconciliationIssue,
>)
    requires
        p.reconciliation is Some,
        successor_inputs_ready(*p, *f),
        i < p.reconciliation->0.dependencies@.len(),
    ensures
        match dependency_error(*p, *f, i as int) {
            None => res is Ok,
            Some(e) => res == Err::<(), ReconciliationIssue>(e),
        },
{
    let r = match &p.reconciliation {
        Some(r) => r,
        None => return Ok(()),
    };
    let m = &r.dependencies[i];
    if !str_eq(m.disposition.as_str(), "retained") || !matches!(normalized_effect(m.effect), ReconciliationEffect::Preserve) {
        return Ok(());
    }
    assert(is_preserved(r.dependencies@[i as int].disposition, r.dependencies@[i as int].effect));
    let d = match &f.dependencies[i] {
        Some(d) => d,
        None => return Ok(()),
    };
    let fi = match find_last_phase(&r.phases, d.from) {
        Some(k) => k,
        None => return Err(ReconciliationIssue::ForeignPredecessorPhase),
    };
    let ti = match find_last_phase(&r.phases, d.to) {
        Some(k) => k,
        None => return Err(ReconciliationIssue::ForeignSuccessorPhase),
    };
    let from = &r.phases[fi];
    let to = &r.phases[ti];
    let endpoints_preserved = str_eq(from.disposition.as_str(), "retained") && str_eq(
        to.disposition.as_str(),
        "retained",
    ) && matches!(normalized_effect(from.effect), ReconciliationEffect::Preserve) && matches!(normalized_effect(to.effect), ReconciliationEffect::Preserve);
    let status = d.status.as_str();
    let is_open = str_eq(status, "open");
    let qualified = if is_open {
        true
    } else if str_eq(status, "satisfied") {
        match &d.evidence {
            Some(v) => !blank(v.as_str()),
            None => false,
        }
    } else if str_eq(status, "accepted") {
        d.authority.is_some()
    } else {
        false
    };
    if !str_eq(d.dependency_type.as_str(), "requires") || !str_eq(
        d.reason.as_str(),
        "declared by the current Decomposition Plan",
    ) || (!is_open && !endpoints_preserved) || !qualified || !opt_eq(&from.slice, &m.from)
        || !opt_eq(&to.slice, &m.to) {
        return Err(ReconciliationIssue::PreserveDependencyDiffers);
    }
    Ok(())
}

fn gate_target_text(m: &crate::document::GateReconciliation, g: &GateSourceFacts) -> (r: String)
    ensures
        r@ == text_of(m.item) + "/"@ + text_of(m.gate) + "@"@ + g.boundary@,
{
    some_text(&m.item).concat("/").concat(some_text(&m.gate).as_str()).concat("@").concat(
        g.boundary.as_str(),
    )
}

fn check_gates(p: &PlanDocument, f: &SuccessorFacts) -> (res: Result<(), ReconciliationIssue>)
    requires
        p.reconciliation is Some,
        successor_inputs_ready(*p, *f),
    ensures
        res is Ok <==> (forall|i: int|
            0 <= i < p.reconciliation->0.gates@.len() ==> (#[trigger] gate_error(*p, *f, i)) is None),
        res is Err ==> exists|i: int|
            0 <= i < p.reconciliation->0.gates@.len() && gate_error(*p, *f, i) == Some(res->Err_0)
                && forall|j: int| 0 <= j < i ==> (#[trigger] gate_error(*p, *f, j)) is None,
{
    let r = match &p.reconciliation {
        Some(r) => r,
        None => return Ok(()),
    };
    let mut targets: Vec<String> = Vec::new();
    let mut i: usize = 0;
    while i < r.gates.len()
        invariant
            p.reconciliation == Some(*r),
            successor_inputs_ready(*p, *f),
            i <= r.gates@.len(),
            forall|t: Seq<char>|
                text_views(targets@).contains(t) <==> exists|j: int|
                    0 <= j < i && is_retained((#[trigger] r.gates@[j]).disposition) && gate_target(
                        *p,
                        *f,
                        j,
                    ) == t,
            forall|j: int| 0 <= j < i ==> (#[trigger] gate_error(*p, *f, j)) is None,
        decreases r.gates@.len() - i,
    {
        let m = &r.gates[i];
        if str_eq(m.disposition.as_str(), "retained") {
            let g = match &f.gates[i] {
                Some(g) => g,
                None => return Ok(()),
            };
            let t = gate_target_text(m, g);
            assert(t@ == gate_target(*p, *f, i as int));
            if contains_view(&targets, t.as_str()) {
                assert(gate_repeated(*p, *f, i as int));
                return Err(ReconciliationIssue::RetainedGateTargetsNotOneToOne);
            }
            assert(!gate_repeated(*p, *f, i as int)) by {
                if gate_repeated(*p, *f, i as int) {
                    let j = choose|j: int|
                        0 <= j < i && is_retained((#[trigger] r.gates@[j]).disposition)
                            && gate_target(*p, *f, j) == gate_target(*p, *f, i as int);
                    assert(text_views(targets@).contains(t@));
                }
            }
            if !matches!(normalized_effect(m.effect), ReconciliationEffect::Preserve) {
            } else {
                let source = match &g.source_meaning {
                    Some(s) => s,
                    None => return Ok(()),
                };
                if !(g.target_meanings.len() == 1 && same_meaning(&g.target_meanings[0], source)) {
                    return Err(ReconciliationIssue::PreserveGateDiffers);
                }
            }
            let ghost before = targets@;
            targets.push(t);
            proof {
                lemma_push_contains(before, targets@.last(), targets@);
                assert forall|x: Seq<char>|
                    text_views(targets@).contains(x) <==> exists|j: int|
                        0 <= j < i + 1 && is_retained((#[trigger] r.gates@[j]).disposition)
                            && gate_target(*p, *f, j) == x by {
                    if text_views(before).contains(x) {
                        let j = choose|j: int|
                            0 <= j < i && is_retained((#[trigger] r.gates@[j]).disposition)
                                && gate_target(*p, *f, j) == x;
                        assert(0 <= j < i + 1);
                    }
                    if exists|j: int|
                        0 <= j < i + 1 && is_retained((#[trigger] r.gates@[j]).disposition)
                            && gate_target(*p, *f, j) == x {
                        let j = choose|j: int|
                            0 <= j < i + 1 && is_retained((#[trigger] r.gates@[j]).disposition)
                                && gate_target(*p, *f, j) == x;
                        if j < i {
                            assert(text_views(before).contains(x));
                        }
                    }
                }
            }
        } else {
            proof {
                assert forall|x: Seq<char>|
                    text_views(targets@).contains(x) <==> exists|j: int|
                        0 <= j < i + 1 && is_retained((#[trigger] r.gates@[j]).disposition)
                            && gate_target(*p, *f, j) == x by {
                    if exists|j: int|
                        0 <= j < i + 1 && is_retained((#[trigger] r.gates@[j]).disposition)
                            && gate_target(*p, *f, j) == x {
                        let j = choose|j: int|
                            0 <= j < i + 1 && is_retained((#[trigger] r.gates@[j]).disposition)
                                && gate_target(*p, *f, j) == x;
                        assert(j != i);
                    }
                }
            }
        }
        assert(gate_error(*p, *f, i as int) is None);
        i += 1;
    }
    Ok(())
}

fn check_tasks(p: &PlanDocument, f: &SuccessorFacts) -> (res: Result<(), ReconciliationIssue>)
    requires
        p.reconciliation is Some,
        successor_inputs_ready(*p, *f),
    ensures
        res is Ok <==> (forall|i: int|
            0 <= i < p.reconciliation->0.tasks@.len() ==> (#[trigger] task_error(*p, *f, i)) is None),
        res is Err ==> exists|i: int|
            0 <= i < p.reconciliation->0.tasks@.len() && task_error(*p, *f, i) == Some(res->Err_0)
                && forall|j: int| 0 <= j < i ==> (#[trigger] task_error(*p, *f, j)) is None,
{
    let n = match &p.reconciliation {
        Some(r) => r.tasks.len(),
        None => 0,
    };
    let mut i: usize = 0;
    while i < n
        invariant
            p.reconciliation is Some,
            successor_inputs_ready(*p, *f),
            n == p.reconciliation->0.tasks@.len(),
            i <= n,
            forall|j: int| 0 <= j < i ==> (#[trigger] task_error(*p, *f, j)) is None,
        decreases n - i,
    {
        let c = task_check(p, f, i);
        if c.is_err() {
            return c;
        }
        i += 1;
    }
    Ok(())
}

fn check_checklist(p: &PlanDocument, f: &SuccessorFacts) -> (res: Result<(), ReconciliationIssue>)
    requires
        p.reconciliation is Some,
        successor_inputs_ready(*p, *f),
    ensures
        res is Ok <==> (forall|i: int|
            0 <= i < p.reconciliation->0.checklist@.len() ==> (#[trigger] checklist_error(
                *p,
                *f,
                i,
            )) is None),
        res is Err ==> exists|i: int|
            0 <= i < p.reconciliation->0.checklist@.len() && checklist_error(*p, *f, i) == Some(
                res->Err_0,
            ) && forall|j: int| 0 <= j < i ==> (#[trigger] checklist_error(*p, *f, j)) is None,
{
    let n = match &p.reconciliation {
        Some(r) => r.checklist.len(),
        None => 0,
    };
    let mut i: usize = 0;
    while i < n
        invariant
            p.reconciliation is Some,
            successor_inputs_ready(*p, *f),
            n == p.reconciliation->0.checklist@.len(),
            i <= n,
            forall|j: int| 0 <= j < i ==> (#[trigger] checklist_error(*p, *f, j)) is None,
        decreases n - i,
    {
        let c = checklist_check(p, f, i);
        if c.is_err() {
            return c;
        }
        i += 1;
    }
    Ok(())
}

fn check_phases(p: &PlanDocument, f: &SuccessorFacts) -> (res: Result<(), ReconciliationIssue>)
    requires
        p.reconciliation is Some,
        successor_inputs_ready(*p, *f),
    ensures
        res is Ok <==> (forall|i: int|
            0 <= i < p.reconciliation->0.phases@.len() ==> (#[trigger] phase_error(*p, *f, i)) is None),
        res is Err ==> exists|i: int|
            0 <= i < p.reconciliation->0.phases@.len() && phase_error(*p, *f, i) == Some(res->Err_0)
                && forall|j: int| 0 <= j < i ==> (#[trigger] phase_error(*p, *f, j)) is None,
{
    let n = match &p.reconciliation {
        Some(r) => r.phases.len(),
        None => 0,
    };
    let mut i: usize = 0;
    while i < n
        invariant
            p.reconciliation is Some,
            successor_inputs_ready(*p, *f),
            n == p.reconciliation->0.phases@.len(),
            i <= n,
            forall|j: int| 0 <= j < i ==> (#[trigger] phase_error(*p, *f, j)) is None,
        decreases n - i,
    {
        let c = phase_check(p, f, i);
        if c.is_err() {
            return c;
        }
        i += 1;
    }
    Ok(())
}

fn check_dependencies(p: &PlanDocument, f: &SuccessorFacts) -> (res: Result<(), ReconciliationIssue>)
    requires
        p.reconciliation is Some,
        successor_inputs_ready(*p, *f),
    ensures
        res is Ok <==> (forall|i: int|
            0 <= i < p.reconciliation->0.dependencies@.len() ==> (#[trigger] dependency_error(
                *p,
                *f,
                i,
            )) is None),
        res is Err ==> exists|i: int|
            0 <= i < p.reconciliation->0.dependencies@.len() && dependency_error(*p, *f, i) == Some(
                res->Err_0,
            ) && forall|j: int| 0 <= j < i ==> (#[trigger] dependency_error(*p, *f, j)) is None,
{
    let n = match &p.reconciliation {
        Some(r) => r.dependencies.len(),
        None => 0,
    };
    let mut i: usize = 0;
    while i < n
        invariant
            p.reconciliation is Some,
            successor_inputs_ready(*p, *f),
            n == p.reconciliation->0.dependencies@.len(),
            i <= n,
            forall|j: int| 0 <= j < i ==> (#[trigger] dependency_error(*p, *f, j)) is None,
        decreases n - i,
    {
        let c = dependency_check(p, f, i);
        if c.is_err() {
            return c;
        }
        i += 1;
    }
    Ok(())
}

/// Every preserve effect and retained gate target of the successor holds.
pub open spec fn mappings_valid(p: PlanDocument, f: SuccessorFacts) -> bool {
    let r = p.reconciliation->0;
    &&& forall|i: int| 0 <= i < r.tasks@.len() ==> (#[trigger] task_error(p, f, i)) is None
    &&& forall|i: int| 0 <= i < r.checklist@.len() ==> (#[trigger] checklist_error(p, f, i)) is None
    &&& forall|i: int| 0 <= i < r.gates@.len() ==> (#[trigger] gate_error(p, f, i)) is None
    &&& forall|i: int| 0 <= i < r.phases@.len() ==> (#[trigger] phase_error(p, f, i)) is None
    &&& forall|i: int| 0 <= i < r.dependencies@.len() ==> (#[trigger] dependency_error(p, f, i)) is None
}

/// The first refused preserve effect or gate target: tasks, checklist items,
/// gates, phases, then dependencies, each in mapping order.
pub open spec fn mapping_issue(p: PlanDocument, f: SuccessorFacts) -> Option<ReconciliationIssue> {
    let r = p.reconciliation->0;
    let tasks = first_issue(r.tasks@.len() as int, |i: int| task_error(p, f, i));
    let checklist = first_issue(r.checklist@.len() as int, |i: int| checklist_error(p, f, i));
    let gates = first_issue(r.gates@.len() as int, |i: int| gate_error(p, f, i));
    let phases = first_issue(r.phases@.len() as int, |i: int| phase_error(p, f, i));
    let dependencies = first_issue(r.dependencies@.len() as int, |i: int| dependency_error(p, f, i));
    if tasks is Some {
        tasks
    } else if checklist is Some {
        checklist
    } else if gates is Some {
        gates
    } else if phases is Some {
        phases
    } else {
        dependencies
    }
}

/// The refusal of retained mappings of one kind that share a target.
pub open spec fn targets_error(res: Result<(), ReconciliationIssue>, label: Seq<char>) -> bool {
    res matches Err(ReconciliationIssue::RetainedTargetsNotOneToOne { label: l }) && l@ == label
}

/// Every item declares the gates its requirements call for.
pub open spec fn items_gates_covered(p: PlanDocument, f: SuccessorFacts) -> bool {
    forall|k: int| 0 <= k < p.items@.len() ==> item_gates_covered(f, #[trigger] p.items@[k])
}

/// What a successor whose requirements and item gates are covered is
/// answered: the first kind of retained mapping that is not one to one,
/// else the first refused mapping.
pub open spec fn mappings_answer(p: PlanDocument, f: SuccessorFacts, res: Result<(), ReconciliationIssue>) -> bool {
    let r = p.reconciliation->0;
    if !one_to_one(task_targets(r.tasks@)) {
        targets_error(res, "task"@)
    } else if !one_to_one(checklist_targets(r.checklist@)) {
        targets_error(res, "checklist item"@)
    } else if !one_to_one(phase_targets(r.phases@)) {
        targets_error(res, "phase"@)
    } else if !one_to_one(dependency_targets(r.dependencies@)) {
        targets_error(res, "phase dependency"@)
    } else {
        res == as_result(mapping_issue(p, f))
    }
}

/// A reconciliation successor is valid against the facts of its target
/// design version and its predecessor's state.
pub open spec fn successor_valid(p: PlanDocument, f: SuccessorFacts) -> bool {
    let r = p.reconciliation->0;
    &&& p.reconciliation is Some
    &&& requirements_covered(p, f)
    &&& forall|k: int| 0 <= k < p.items@.len() ==> item_gates_covered(f, #[trigger] p.items@[k])
    &&& one_to_one(task_targets(r.tasks@))
    &&& one_to_one(checklist_targets(r.checklist@))
    &&& one_to_one(phase_targets(r.phases@))
    &&& one_to_one(dependency_targets(r.dependencies@))
    &&& mappings_valid(p, f)
}

/// What checking a successor answers: success exactly when it is valid,
/// and otherwise the refusal of the first check that fails.
pub open spec fn successor_answer(
    p: PlanDocument,
    f: SuccessorFacts,
    res: Result<(), ReconciliationIssue>,
) -> bool {
    &&& (res is Ok <==> successor_valid(p, f))
    &&& p.reconciliation is None ==> res == Err::<(), ReconciliationIssue>(
        ReconciliationIssue::ReconciliationRequired,
    )
    &&& p.reconciliation is Some && !requirements_covered(p, f) ==> res == Err::<
        (),
        ReconciliationIssue,
    >(ReconciliationIssue::RequirementsNotCovered)
    &&& p.reconciliation is Some && requirements_covered(p, f) ==> forall|k: int|
        0 <= k < p.items@.len() && !item_gates_covered(f, #[trigger] p.items@[k]) && (forall|a: int|
            0 <= a < k ==> item_gates_covered(f, #[trigger] p.items@[a])) ==> coverage_error(
            f,
            p.items@[k],
            res,
        )
    &&& p.reconciliation is Some && requirements_covered(p, f) && items_gates_covered(p, f)
        ==> mappings_answer(p, f, res)
}

/// Checks a reconciliation successor against the active requirements and
/// gates of its target design version and against what its predecessor's
/// tasks, checklist items, gates, phases and dependencies meant.
pub fn validate_reconciliation_successor(p: &PlanDocument, f: &SuccessorFacts) -> (res: Result<
    (),
    ReconciliationIssue,
>)
    requires
        p.reconciliation is Some ==> successor_inputs_ready(*p, *f),
    ensures
        res is Ok <==> successor_valid(*p, *f),
        p.reconciliation is None ==> res == Err::<(), ReconciliationIssue>(
            ReconciliationIssue::ReconciliationRequired,
        ),
        p.reconciliation is Some && !requirements_covered(*p, *f) ==> res == Err::<
            (),
            ReconciliationIssue,
        >(ReconciliationIssue::RequirementsNotCovered),
        p.reconciliation is Some && requirements_covered(*p, *f) ==> forall|k: int|
            0 <= k < p.items@.len() && !item_gates_covered(*f, #[trigger] p.items@[k]) && (forall|
                a: int,
            |
                0 <= a < k ==> item_gates_covered(*f, #[trigger] p.items@[a])) ==> coverage_error(
                *f,
                p.items@[k],
                res,
            ),
        p.reconciliation is Some && requirements_covered(*p, *f) && items_gates_covered(*p, *f)
            ==> mappings_answer(*p, *f, res),
        successor_answer(*p, *f, res),
{
    let r = match &p.reconciliation {
        Some(r) => r,
        None => return Err(ReconciliationIssue::ReconciliationRequired),
    };
    if !check_requirement_coverage(p, f) {
        return Err(ReconciliationIssue::RequirementsNotCovered);
    }
    let mut k: usize = 0;
    while k < p.items.len()
        invariant
            p.reconciliation is Some,
            requirements_covered(*p, *f),
            k <= p.items@.len(),
            forall|a: int| 0 <= a < k ==> item_gates_covered(*f, #[trigger] p.items@[a]),
        decreases p.items@.len() - k,
    {
        let c = check_item_gate_coverage(f, &p.items[k]);
        if c.is_err() {
            return c;
        }
        k += 1;
    }
    let tasks = collect_task_targets(r);
    let c = require_unique_retained_targets("task", &tasks);
    if c.is_err() {
        return c;
    }
    let checklist = collect_checklist_targets(r);
    let c = require_unique_retained_targets("checklist item", &checklist);
    if c.is_err() {
        return c;
    }
    let phases = collect_phase_targets(r);
    let c = require_unique_retained_targets("phase", &phases);
    if c.is_err() {
        return c;
    }
    let dependencies = collect_dependency_targets(r);
    let c = require_unique_retained_targets("phase dependency", &dependencies);
    if c.is_err() {
        return c;
    }
    let ghost tf = |i: int| task_error(*p, *f, i);
    let ghost cf = |i: int| checklist_error(*p, *f, i);
    let ghost gf = |i: int| gate_error(*p, *f, i);
    let ghost pf = |i: int| phase_error(*p, *f, i);
    let ghost df = |i: int| dependency_error(*p, *f, i);
    let c = check_tasks(p, f);
    proof {
        assert forall|i: int| 0 <= i < r.tasks@.len() implies #[trigger] tf(i) == task_error(*p, *f, i) by {}
        if c is Err {
            let i = choose|i: int|
                0 <= i < r.tasks@.len() && task_error(*p, *f, i) == Some(c->Err_0) && forall|j: int|
                    0 <= j < i ==> (#[trigger] task_error(*p, *f, j)) is None;
            assert(tf(i) == task_error(*p, *f, i));
            assert forall|j: int| 0 <= j < i implies (#[trigger] tf(j)) is None by {
                assert(task_error(*p, *f, j) is None);
            }
        }
        lemma_first_result(tf, r.tasks@.len() as int, c);
    }
    if c.is_err() {
        return c;
    }
    let c = check_checklist(p, f);
    proof {
        assert forall|i: int| 0 <= i < r.checklist@.len() implies #[trigger] cf(i) == checklist_error(*p, *f, i) by {}
        if c is Err {
            let i = choose|i: int|
                0 <= i < r.checklist@.len() && checklist_error(*p, *f, i) == Some(c->Err_0) && forall|j: int|
                    0 <= j < i ==> (#[trigger] checklist_error(*p, *f, j)) is None;
            assert(cf(i) == checklist_error(*p, *f, i));
            assert forall|j: int| 0 <= j < i implies (#[trigger] cf(j)) is None by {
                assert(checklist_error(*p, *f, j) is None);
            }
        }
        lemma_first_result(cf, r.checklist@.len() as int, c);
    }
    if c.is_err() {
        return c;
    }
    let c = check_gates(p, f);
    proof {
        assert forall|i: int| 0 <= i < r.gates@.len() implies #[trigger] gf(i) == gate_error(*p, *f, i) by {}
        if c is Err {
            let i = choose|i: int|
                0 <= i < r.gates@.len() && gate_error(*p, *f, i) == Some(c->Err_0) && forall|j: int|
                    0 <= j < i ==> (#[trigger] gate_error(*p, *f, j)) is None;
            assert(gf(i) == gate_error(*p, *f, i));
            assert forall|j: int| 0 <= j < i implies (#[trigger] gf(j)) is None by {
                assert(gate_error(*p, *f, j) is None);
            }
        }
        lemma_first_result(gf, r.gates@.len() as int, c);
    }
    if c.is_err() {
        return c;
    }
    let c = check_phases(p, f);
    proof {
        assert forall|i: int| 0 <= i < r.phases@.len() implies #[trigger] pf(i) == phase_error(*p, *f, i) by {}
        if c is Err {
            let i = choose|i: int|
                0 <= i < r.phases@.len() && phase_error(*p, *f, i) == Some(c->Err_0) && forall|j: int|
                    0 <= j < i ==> (#[trigger] phase_error(*p, *f, j)) is None;
            assert(pf(i) == phase_error(*p, *f, i));
            assert forall|j: int| 0 <= j < i implies (#[trigger] pf(j)) is None by {
                assert(phase_error(*p, *f, j) is None);
            }
        }
        lemma_first_result(pf, r.phases@.len() as int, c);
    }
    if c.is_err() {
        return c;
    }
    let c = check_dependencies(p, f);
    proof {
        assert forall|i: int| 0 <= i < r.dependencies@.len() implies #[trigger] df(i) == dependency_error(*p, *f, i) by {}
        if c is Err {
            let i = choose|i: int|
                0 <= i < r.dependencies@.len() && dependency_error(*p, *f, i) == Some(c->Err_0) && forall|j: int|
                    0 <= j < i ==> (#[trigger] dependency_error(*p, *f, j)) is None;
            assert(df(i) == dependency_error(*p, *f, i));
            assert forall|j: int| 0 <= j < i implies (#[trigger] df(j)) is None by {
                assert(dependency_error(*p, *f, j) is None);
            }
        }
        lemma_first_result(df, r.dependencies@.len() as int, c);
    }
    match c {
        Ok(()) => Ok(()),
        Err(e) => Err(e),
    }
}

/// A check that reports the first failing of `n` checks reports their first
/// issue.
proof fn lemma_first_result(
    f: spec_fn(int) -> Option<ReconciliationIssue>,
    n: int,
    res: Result<(), ReconciliationIssue>,
)
    requires
        res is Ok <==> (forall|i: int| 0 <= i < n ==> (#[trigger] f(i)) is None),
        res is Err ==> exists|i: int|
            #![trigger f(i)]
            0 <= i < n && f(i) == Some(res->Err_0) && forall|j: int|
                0 <= j < i ==> (#[trigger] f(j)) is None,
    ensures
        first_issue(n, f) is None <==> res is Ok,
        res is Err ==> first_issue(n, f) == Some(res->Err_0),
{
    if res is Ok {
        crate::validation::lemma_first_issue_none(f, n);
    } else {
        let i = choose|i: int|
            #![trigger f(i)]
            0 <= i < n && f(i) == Some(res->Err_0) && forall|j: int|
                0 <= j < i ==> (#[trigger] f(j)) is None;
        crate::validation::lemma_first_issue_at(f, n, i);
    }
}

/// How many of `identities` equal `selector`.
pub open spec fn count_matches(identities: Seq<String>, selector: Seq<char>) -> nat
    decreases identities.len(),
{
    if identities.len() == 0 {
        0
    } else {
        count_matches(identities.drop_last(), selector) + if identities.last()@ == selector {
            1nat
        } else {
            0nat
        }
    }
}

/// The boundary identity a retained gate mapping's selector names:
/// `retained-source` names the source gate's own identity; any other
/// selector must be a digest that exactly one of the project's gates has.
pub open spec fn spec_gate_boundary(
    selector: Seq<char>,
    source_identity: Seq<char>,
    gate_identities: Seq<String>,
) -> Result<Seq<char>, ReconciliationIssue> {
    if selector == "retained-source"@ {
        Ok(source_identity)
    } else if !crate::text::digest_text(selector) {
        Err(
            ReconciliationIssue::Plan(
                crate::issue::PlanIssue::NotDigest(crate::issue::Field::GateBoundary),
            ),
        )
    } else if count_matches(gate_identities, selector) != 1 {
        Err(ReconciliationIssue::BoundaryNotUnique)
    } else {
        Ok(selector)
    }
}

/// Resolves a retained gate mapping's boundary selector; `source_identity`
/// is the boundary identity of the mapping's source gate and
/// `gate_identities` those of all the project's gates.
pub fn resolve_gate_boundary_identity(
    selector: &str,
    source_identity: &str,
    gate_identities: &Vec<String>,
) -> (res: Result<String, ReconciliationIssue>)
    ensures
        crate::reconciliation::text_result(res) == spec_gate_boundary(
            selector@,
            source_identity@,
            gate_identities@,
        ),
{
    if str_eq(selector, "retained-source") {
        return Ok(String::from_str(source_identity));
    }
    match crate::validation::require_digest(selector, crate::issue::Field::GateBoundary) {
        Err(e) => return Err(ReconciliationIssue::Plan(e)),
        Ok(()) => {},
    }
    let mut count: usize = 0;
    let mut i: usize = 0;
    while i < gate_identities.len()
        invariant
            i <= gate_identities@.len(),
            count == count_matches(gate_identities@.take(i as int), selector@),
            count <= i,
        decreases gate_identities@.len() - i,
    {
        assert(gate_identities@.take(i as int + 1).drop_last() =~= gate_identities@.take(i as int));
        if str_eq(gate_identities[i].as_str(), selector) {
            count = count + 1;
        }
        i += 1;
    }
    assert(gate_identities@.take(gate_identities@.len() as int) =~= gate_identities@);
    if count != 1 {
        return Err(ReconciliationIssue::BoundaryNotUnique);
    }
    Ok(String::from_str(selector))
}

} // verus!
