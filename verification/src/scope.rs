//! The scope of a reconciliation: the predecessor it may reconcile, the
//! exact predecessor endpoints its mappings must cover, and the relations
//! between those endpoints that its mappings must keep.

use vstd::prelude::*;

use crate::document::{
    opt_view, DependencyReconciliation, PlanDocument, PlanItem, PlanReconciliation,
};
use crate::text::str_eq;

verus! {

/// A kind of predecessor endpoint a reconciliation maps.
#[derive(Clone, Copy, Debug, PartialEq, Eq)]
pub enum DomainKind {
    Task,
    ChecklistItem,
    ValidationGate,
    Phase,
    PhaseDependency,
}

pub open spec fn domain_text(k: DomainKind) -> Seq<char> {
    match k {
        DomainKind::Task => "task"@,
        DomainKind::ChecklistItem => "checklist item"@,
        DomainKind::ValidationGate => "validation gate"@,
        DomainKind::Phase => "phase"@,
        DomainKind::PhaseDependency => "phase dependency"@,
    }
}

impl DomainKind {
    pub fn label(self) -> (res: &'static str)
        ensures
            res@ == domain_text(self),
    {
        match self {
            DomainKind::Task => "task",
            DomainKind::ChecklistItem => "checklist item",
            DomainKind::ValidationGate => "validation gate",
            DomainKind::Phase => "phase",
            DomainKind::PhaseDependency => "phase dependency",
        }
    }
}

/// Why the scope of a reconciliation is refused.
#[derive(Clone, Debug, PartialEq, Eq)]
pub enum ScopeIssue {
    ReconciliationRequired,
    OutsidePackage,
    OutsideWorkOwner,
    PredecessorNotCurrent,
    PredecessorChanged,
    SourceDomain(DomainKind),
    ChecklistForeignTask,
    ChecklistItemDiffers,
    ChecklistRetiredOnOneEndpoint,
    GateForeignTask,
    GateItemDiffers,
    GateRetiredOnOneEndpoint,
    MembershipForeignPhase,
    MembershipForeignTask,
    MembershipUnmappedPhase,
    MembershipUnknownItem,
    MembershipSliceDiffers,
    DependencyForeignPredecessor,
    DependencyForeignSuccessor,
    DependencyEndpointsDiffer,
}

pub open spec fn scope_issue_text(i: ScopeIssue) -> Seq<char> {
    match i {
        ScopeIssue::ReconciliationRequired => "Decomposition Plan reconciliation metadata is required"@,
        ScopeIssue::OutsidePackage => "reconciliation predecessor is outside the selected Design Package"@,
        ScopeIssue::OutsideWorkOwner => "reconciliation predecessor is outside the selected work owner"@,
        ScopeIssue::PredecessorNotCurrent => "only the current applied or incomplete predecessor can be reconciled"@,
        ScopeIssue::PredecessorChanged => "reconciliation predecessor changed; observe it again before retrying"@,
        ScopeIssue::SourceDomain(k) => "reconciliation "@ + domain_text(k)
            + " mappings must cover the exact predecessor domain"@,
        ScopeIssue::ChecklistForeignTask => "reconciliation checklist references a foreign task"@,
        ScopeIssue::ChecklistItemDiffers => "retained task and checklist mappings must target the same item"@,
        ScopeIssue::ChecklistRetiredOnOneEndpoint => "a nonterminal task-checklist relation cannot be retired on only one endpoint"@,
        ScopeIssue::GateForeignTask => "reconciliation gate references a foreign task"@,
        ScopeIssue::GateItemDiffers => "retained task and validation-gate mappings must target the same item"@,
        ScopeIssue::GateRetiredOnOneEndpoint => "an active task-gate relation cannot be retired on only one endpoint"@,
        ScopeIssue::MembershipForeignPhase => "reconciliation task membership references a foreign phase"@,
        ScopeIssue::MembershipForeignTask => "reconciliation membership references a foreign task"@,
        ScopeIssue::MembershipUnmappedPhase => "reconciliation membership references a foreign phase"@,
        ScopeIssue::MembershipUnknownItem => "reconciliation membership references an unknown item"@,
        ScopeIssue::MembershipSliceDiffers => "retained task and phase mappings must preserve slice membership"@,
        ScopeIssue::DependencyForeignPredecessor => "reconciliation dependency references a foreign predecessor phase"@,
        ScopeIssue::DependencyForeignSuccessor => "reconciliation dependency references a foreign successor phase"@,
        ScopeIssue::DependencyEndpointsDiffer => "retained dependency endpoints must match retained phase mappings"@,
    }
}

impl ScopeIssue {
    pub fn message(&self) -> (res: String)
        ensures
            res@ == scope_issue_text(*self),
    {
        match self {
            ScopeIssue::ReconciliationRequired => String::from_str(
                "Decomposition Plan reconciliation metadata is required",
            ),
            ScopeIssue::OutsidePackage => String::from_str(
                "reconciliation predecessor is outside the selected Design Package",
            ),
            ScopeIssue::OutsideWorkOwner => String::from_str(
                "reconciliation predecessor is outside the selected work owner",
            ),
            ScopeIssue::PredecessorNotCurrent => String::from_str(
                "only the current applied or incomplete predecessor can be reconciled",
            ),
            ScopeIssue::PredecessorChanged => String::from_str(
                "reconciliation predecessor changed; observe it again before retrying",
            ),
            ScopeIssue::SourceDomain(k) => String::from_str("reconciliation ").concat(
                k.label(),
            ).concat(" mappings must cover the exact predecessor domain"),
            ScopeIssue::ChecklistForeignTask => String::from_str(
                "reconciliation checklist references a foreign task",
            ),
            ScopeIssue::ChecklistItemDiffers => String::from_str(
                "retained task and checklist mappings must target the same item",
            ),
            ScopeIssue::ChecklistRetiredOnOneEndpoint => String::from_str(
                "a nonterminal task-checklist relation cannot be retired on only one endpoint",
            ),
            ScopeIssue::GateForeignTask => String::from_str(
                "reconciliation gate references a foreign task",
            ),
            ScopeIssue::GateItemDiffers => String::from_str(
                "retained task and validation-gate mappings must target the same item",
            ),
            ScopeIssue::GateRetiredOnOneEndpoint => String::from_str(
                "an active task-gate relation cannot be retired on only one endpoint",
            ),
            ScopeIssue::MembershipForeignPhase => String::from_str(
                "reconciliation task membership references a foreign phase",
            ),
            ScopeIssue::MembershipForeignTask => String::from_str(
                "reconciliation membership references a foreign task",
            ),
            ScopeIssue::MembershipUnmappedPhase => String::from_str(
                "reconciliation membership references a foreign phase",
            ),
            ScopeIssue::MembershipUnknownItem => String::from_str(
                "reconciliation membership references an unknown item",
            ),
            ScopeIssue::MembershipSliceDiffers => String::from_str(
                "retained task and phase mappings must preserve slice membership",
            ),
            ScopeIssue::DependencyForeignPredecessor => String::from_str(
                "reconciliation dependency references a foreign predecessor phase",
            ),
            ScopeIssue::DependencyForeignSuccessor => String::from_str(
                "reconciliation dependency references a foreign successor phase",
            ),
            ScopeIssue::DependencyEndpointsDiffer => String::from_str(
                "retained dependency endpoints must match retained phase mappings",
            ),
        }
    }
}

// ---- the predecessor ----
/// The predecessor of a reconciliation, found in the selected package as
/// (its work, its status), must belong to the selected work and be applied
/// or incomplete.
pub open spec fn spec_predecessor(found: Option<(i64, Seq<char>)>, work_unit_id: i64) -> Result<
    (),
    ScopeIssue,
> {
    match found {
        None => Err(ScopeIssue::OutsidePackage),
        Some((work, status)) => if work != work_unit_id {
            Err(ScopeIssue::OutsideWorkOwner)
        } else if !(status == "applied"@ || status == "incomplete"@) {
            Err(ScopeIssue::PredecessorNotCurrent)
        } else {
            Ok(())
        },
    }
}

/// Checks the predecessor a reconciliation names; `found` is its work and
/// status when it belongs to the selected Design Package.
pub fn check_reconciliation_predecessor(found: Option<(i64, String)>, work_unit_id: i64) -> (res:
    Result<(), ScopeIssue>)
    ensures
        res == spec_predecessor(
            match found {
                Some((w, s)) => Some((w, s@)),
                None => None,
            },
            work_unit_id,
        ),
{
    match found {
        None => Err(ScopeIssue::OutsidePackage),
        Some((work, status)) => if work != work_unit_id {
            Err(ScopeIssue::OutsideWorkOwner)
        } else if !(str_eq(status.as_str(), "applied") || str_eq(status.as_str(), "incomplete")) {
            Err(ScopeIssue::PredecessorNotCurrent)
        } else {
            Ok(())
        },
    }
}

/// The predecessor must still have the current identity the successor
/// observed.
pub fn check_predecessor_current(current_identity: &str, expected_current: &str) -> (res: Result<
    (),
    ScopeIssue,
>)
    ensures
        res is Ok <==> current_identity@ == expected_current@,
        res is Err ==> res == Err::<(), ScopeIssue>(ScopeIssue::PredecessorChanged),
{
    if !str_eq(current_identity, expected_current) {
        return Err(ScopeIssue::PredecessorChanged);
    }
    Ok(())
}

// ---- the source domains ----
pub open spec fn same_ids(a: Seq<i64>, b: Seq<i64>) -> bool {
    forall|x: i64| a.contains(x) <==> b.contains(x)
}

fn contains_id(v: &Vec<i64>, x: i64) -> (r: bool)
    ensures
        r == v@.contains(x),
{
    let mut i: usize = 0;
    while i < v.len()
        invariant
            i <= v@.len(),
            forall|k: int| 0 <= k < i ==> v@[k] != x,
        decreases v@.len() - i,
    {
        if v[i] == x {
            return true;
        }
        i += 1;
    }
    false
}

/// Refuses mappings of one kind whose sources are not exactly the
/// predecessor's endpoints of that kind, as sets.
pub fn require_exact_source_domain(kind: DomainKind, actual: &Vec<i64>, declared: &Vec<i64>) -> (res:
    Result<(), ScopeIssue>)
    ensures
        res is Ok <==> same_ids(actual@, declared@),
        res is Err ==> res == Err::<(), ScopeIssue>(ScopeIssue::SourceDomain(kind)),
{
    let mut i: usize = 0;
    while i < actual.len()
        invariant
            i <= actual@.len(),
            forall|k: int| 0 <= k < i ==> declared@.contains(#[trigger] actual@[k]),
        decreases actual@.len() - i,
    {
        if !contains_id(declared, actual[i]) {
            return Err(ScopeIssue::SourceDomain(kind));
        }
        i += 1;
    }
    let mut j: usize = 0;
    while j < declared.len()
        invariant
            j <= declared@.len(),
            forall|k: int| 0 <= k < actual@.len() ==> declared@.contains(#[trigger] actual@[k]),
            forall|k: int| 0 <= k < j ==> actual@.contains(#[trigger] declared@[k]),
        decreases declared@.len() - j,
    {
        if !contains_id(actual, declared[j]) {
            return Err(ScopeIssue::SourceDomain(kind));
        }
        j += 1;
    }
    proof {
        assert forall|x: i64| actual@.contains(x) <==> declared@.contains(x) by {
            if actual@.contains(x) {
                let k = choose|k: int| 0 <= k < actual@.len() && actual@[k] == x;
                assert(declared@.contains(actual@[k]));
            }
            if declared@.contains(x) {
                let k = choose|k: int| 0 <= k < declared@.len() && declared@[k] == x;
                assert(actual@.contains(declared@[k]));
            }
        }
    }
    Ok(())
}

// ---- the relations between predecessor endpoints ----
/// A mapping's source and target, as text.
pub type TargetPair = (i64, Option<Seq<char>>);

/// The target of the last mapping with source `s` (`Some(None)` when that
/// mapping has no target), or none when no mapping has that source.
pub open spec fn target_of(pairs: Seq<TargetPair>, s: i64) -> Option<Option<Seq<char>>>
    decreases pairs.len(),
{
    if pairs.len() == 0 {
        None
    } else if pairs.last().0 == s {
        Some(pairs.last().1)
    } else {
        target_of(pairs.drop_last(), s)
    }
}

pub open spec fn flat(o: Option<Option<Seq<char>>>) -> Option<Seq<char>> {
    match o {
        Some(t) => t,
        None => None,
    }
}

pub open spec fn task_pairs(r: PlanReconciliation) -> Seq<TargetPair> {
    r.tasks@.map_values(|m: crate::document::TaskReconciliation| (m.source, opt_view(m.item)))
}

pub open spec fn checklist_pairs(r: PlanReconciliation) -> Seq<TargetPair> {
    r.checklist@.map_values(
        |m: crate::document::ChecklistReconciliation| (m.source, opt_view(m.item)),
    )
}

pub open spec fn gate_pairs(r: PlanReconciliation) -> Seq<TargetPair> {
    r.gates@.map_values(|m: crate::document::GateReconciliation| (m.source, opt_view(m.item)))
}

pub open spec fn phase_pairs(r: PlanReconciliation) -> Seq<TargetPair> {
    r.phases@.map_values(|m: crate::document::PhaseReconciliation| (m.source, opt_view(m.slice)))
}

/// The slice of the last item with this key.
pub open spec fn item_slice_of(items: Seq<PlanItem>, key: Seq<char>) -> Option<Seq<char>>
    decreases items.len(),
{
    if items.len() == 0 {
        None
    } else if items.last().key@ == key {
        Some(items.last().slice@)
    } else {
        item_slice_of(items.drop_last(), key)
    }
}

/// A checklist item of task `task`, in state `state`, mapped from source
/// `source`: both endpoints retained onto the same item, or, unless the
/// checklist item is terminal, both retired.
pub open spec fn checklist_relation(r: PlanReconciliation, source: i64, task: i64, state: Seq<char>) -> Option<
    ScopeIssue,
> {
    match target_of(task_pairs(r), task) {
        None => Some(ScopeIssue::ChecklistForeignTask),
        Some(tt) => {
            let ct = flat(target_of(checklist_pairs(r), source));
            if tt is Some && ct is Some {
                if tt->0 != ct->0 {
                    Some(ScopeIssue::ChecklistItemDiffers)
                } else {
                    None
                }
            } else if (tt is Some) != (ct is Some) && !(state == "closed"@ || state
                == "accepted_out_of_scope"@) {
                Some(ScopeIssue::ChecklistRetiredOnOneEndpoint)
            } else {
                None
            }
        },
    }
}

/// A validation gate of task `task` (none for a gate without a task), in
/// state `state`, mapped from source `source`: both endpoints retained onto
/// the same item, or both retired while it is still active.
pub open spec fn gate_relation(
    r: PlanReconciliation,
    source: i64,
    task: Option<i64>,
    state: Seq<char>,
) -> Option<ScopeIssue> {
    match task {
        None => None,
        Some(t) => match target_of(task_pairs(r), t) {
            None => Some(ScopeIssue::GateForeignTask),
            Some(tt) => {
                let gt = flat(target_of(gate_pairs(r), source));
                if tt is Some && gt is Some {
                    if tt->0 != gt->0 {
                        Some(ScopeIssue::GateItemDiffers)
                    } else {
                        None
                    }
                } else if (tt is Some) != (gt is Some) && state == "active"@ {
                    Some(ScopeIssue::GateRetiredOnOneEndpoint)
                } else {
                    None
                }
            },
        },
    }
}

/// A phase membership of a task: the phase is a predecessor phase, task
/// and phase are both mapped, and a retained task's item lies in the slice
/// its retained phase maps to.
pub open spec fn membership_relation(
    r: PlanReconciliation,
    plan: PlanDocument,
    phases: Seq<i64>,
    task: i64,
    phase: i64,
) -> Option<ScopeIssue> {
    if !phases.contains(phase) {
        Some(ScopeIssue::MembershipForeignPhase)
    } else {
        match target_of(task_pairs(r), task) {
            None => Some(ScopeIssue::MembershipForeignTask),
            Some(tt) => match target_of(phase_pairs(r), phase) {
                None => Some(ScopeIssue::MembershipUnmappedPhase),
                Some(pt) => if tt is Some && pt is Some {
                    match item_slice_of(plan.items@, tt->0) {
                        None => Some(ScopeIssue::MembershipUnknownItem),
                        Some(slice) => if slice != pt->0 {
                            Some(ScopeIssue::MembershipSliceDiffers)
                        } else {
                            None
                        },
                    }
                } else {
                    None
                },
            },
        }
    }
}

/// A retained dependency mapping whose source edge is `edge`: its endpoints
/// are those the phase mappings give the edge's phases.
pub open spec fn dependency_relation(
    r: PlanReconciliation,
    d: DependencyReconciliation,
    edge: Option<(i64, i64)>,
) -> Option<ScopeIssue> {
    if d.disposition@ != "retained"@ {
        None
    } else {
        match edge {
            None => None,
            Some((from, to)) => match target_of(phase_pairs(r), from) {
                None => Some(ScopeIssue::DependencyForeignPredecessor),
                Some(ft) => if ft != opt_view(d.from) {
                    Some(ScopeIssue::DependencyEndpointsDiffer)
                } else {
                    match target_of(phase_pairs(r), to) {
                        None => Some(ScopeIssue::DependencyForeignSuccessor),
                        Some(tt) => if tt != opt_view(d.to) {
                            Some(ScopeIssue::DependencyEndpointsDiffer)
                        } else {
                            None
                        },
                    }
                },
            },
        }
    }
}

/// The first issue among the first `n` checklist mappings.
pub open spec fn checklist_issues(r: PlanReconciliation, facts: Seq<(i64, String)>, n: int) -> Option<
    ScopeIssue,
>
    decreases n,
{
    if n <= 0 {
        None
    } else {
        match checklist_issues(r, facts, n - 1) {
            Some(e) => Some(e),
            None => checklist_relation(
                r,
                r.checklist@[n - 1].source,
                facts[n - 1].0,
                facts[n - 1].1@,
            ),
        }
    }
}

/// The first issue among the first `n` gate mappings.
pub open spec fn gate_issues(r: PlanReconciliation, facts: Seq<(Option<i64>, String)>, n: int) -> Option<
    ScopeIssue,
>
    decreases n,
{
    if n <= 0 {
        None
    } else {
        match gate_issues(r, facts, n - 1) {
            Some(e) => Some(e),
            None => gate_relation(r, r.gates@[n - 1].source, facts[n - 1].0, facts[n - 1].1@),
        }
    }
}

/// The first issue among the first `n` task memberships.
pub open spec fn membership_issues(
    r: PlanReconciliation,
    plan: PlanDocument,
    phases: Seq<i64>,
    memberships: Seq<(i64, i64)>,
    n: int,
) -> Option<ScopeIssue>
    decreases n,
{
    if n <= 0 {
        None
    } else {
        match membership_issues(r, plan, phases, memberships, n - 1) {
            Some(e) => Some(e),
            None => membership_relation(r, plan, phases, memberships[n - 1].0, memberships[n - 1].1),
        }
    }
}

/// The first issue among the first `n` dependency mappings.
pub open spec fn dependency_issues(r: PlanReconciliation, edges: Seq<Option<(i64, i64)>>, n: int) -> Option<
    ScopeIssue,
>
    decreases n,
{
    if n <= 0 {
        None
    } else {
        match dependency_issues(r, edges, n - 1) {
            Some(e) => Some(e),
            None => dependency_relation(r, r.dependencies@[n - 1], edges[n - 1]),
        }
    }
}

/// The first broken relation: checklist items in mapping order, then
/// gates, then task memberships, then retained dependencies.
pub open spec fn spec_relationships(
    r: PlanReconciliation,
    plan: PlanDocument,
    phases: Seq<i64>,
    checklist_facts: Seq<(i64, String)>,
    gate_facts: Seq<(Option<i64>, String)>,
    memberships: Seq<(i64, i64)>,
    edges: Seq<Option<(i64, i64)>>,
) -> Option<ScopeIssue> {
    let c = checklist_issues(r, checklist_facts, r.checklist@.len() as int);
    if c is Some {
        c
    } else {
        let g = gate_issues(r, gate_facts, r.gates@.len() as int);
        if g is Some {
            g
        } else {
            let m = membership_issues(r, plan, phases, memberships, memberships.len() as int);
            if m is Some {
                m
            } else {
                dependency_issues(r, edges, r.dependencies@.len() as int)
            }
        }
    }
}

fn clone_opt(o: &Option<String>) -> (r: Option<String>)
    ensures
        opt_view(r) == opt_view(*o),
{
    match o {
        Some(s) => Some(s.clone()),
        None => None,
    }
}

pub open spec fn pair_views(v: Seq<(i64, Option<String>)>) -> Seq<TargetPair> {
    v.map_values(|p: (i64, Option<String>)| (p.0, opt_view(p.1)))
}

pub open spec fn target_view(o: Option<Option<String>>) -> Option<Option<Seq<char>>> {
    match o {
        Some(t) => Some(opt_view(t)),
        None => None,
    }
}

fn find_target(v: &Vec<(i64, Option<String>)>, s: i64) -> (res: Option<Option<String>>)
    ensures
        target_view(res) == target_of(pair_views(v@), s),
{
    let ghost p = pair_views(v@);
    let mut i: usize = v.len();
    assert(p.take(i as int) =~= p);
    while i > 0
        invariant
            i <= v@.len(),
            p == pair_views(v@),
            target_of(p, s) == target_of(p.take(i as int), s),
        decreases i,
    {
        assert(p.take(i as int).last() == p[i - 1]);
        if v[i - 1].0 == s {
            return Some(clone_opt(&v[i - 1].1));
        }
        assert(p.take(i as int).drop_last() =~= p.take(i - 1));
        i -= 1;
    }
    None
}

fn task_target_pairs(r: &PlanReconciliation) -> (v: Vec<(i64, Option<String>)>)
    ensures
        pair_views(v@) == task_pairs(*r),
{
    let mut v: Vec<(i64, Option<String>)> = Vec::new();
    let mut i: usize = 0;
    while i < r.tasks.len()
        invariant
            i <= r.tasks@.len(),
            v@.len() == i,
            pair_views(v@) =~= task_pairs(*r).take(i as int),
        decreases r.tasks@.len() - i,
    {
        let ghost before = v@;
        v.push((r.tasks[i].source, clone_opt(&r.tasks[i].item)));
        assert forall|k: int| 0 <= k < i + 1 implies pair_views(v@)[k] == task_pairs(*r)[k] by {
            if k < i {
                assert(v@[k] == before[k]);
                assert(pair_views(before)[k] == task_pairs(*r).take(i as int)[k]);
            }
        }
        assert(pair_views(v@) =~= task_pairs(*r).take(i as int + 1));
        i += 1;
    }
    v
}

fn checklist_target_pairs(r: &PlanReconciliation) -> (v: Vec<(i64, Option<String>)>)
    ensures
        pair_views(v@) == checklist_pairs(*r),
{
    let mut v: Vec<(i64, Option<String>)> = Vec::new();
    let mut i: usize = 0;
    while i < r.checklist.len()
        invariant
            i <= r.checklist@.len(),
            v@.len() == i,
            pair_views(v@) =~= checklist_pairs(*r).take(i as int),
        decreases r.checklist@.len() - i,
    {
        let ghost before = v@;
        v.push((r.checklist[i].source, clone_opt(&r.checklist[i].item)));
        assert forall|k: int| 0 <= k < i + 1 implies pair_views(v@)[k] == checklist_pairs(*r)[k] by {
            if k < i {
                assert(v@[k] == before[k]);
                assert(pair_views(before)[k] == checklist_pairs(*r).take(i as int)[k]);
            }
        }
        assert(pair_views(v@) =~= checklist_pairs(*r).take(i as int + 1));
        i += 1;
    }
    v
}

fn gate_target_pairs(r: &PlanReconciliation) -> (v: Vec<(i64, Option<String>)>)
    ensures
        pair_views(v@) == gate_pairs(*r),
{
    let mut v: Vec<(i64, Option<String>)> = Vec::new();
    let mut i: usize = 0;
    while i < r.gates.len()
        invariant
            i <= r.gates@.len(),
            v@.len() == i,
            pair_views(v@) =~= gate_pairs(*r).take(i as int),
        decreases r.gates@.len() - i,
    {
        let ghost before = v@;
        v.push((r.gates[i].source, clone_opt(&r.gates[i].item)));
        assert forall|k: int| 0 <= k < i + 1 implies pair_views(v@)[k] == gate_pairs(*r)[k] by {
            if k < i {
                assert(v@[k] == before[k]);
                assert(pair_views(before)[k] == gate_pairs(*r).take(i as int)[k]);
            }
        }
        assert(pair_views(v@) =~= gate_pairs(*r).take(i as int + 1));
        i += 1;
    }
    v
}

fn phase_target_pairs(r: &PlanReconciliation) -> (v: Vec<(i64, Option<String>)>)
    ensures
        pair_views(v@) == phase_pairs(*r),
{
    let mut v: Vec<(i64, Option<String>)> = Vec::new();
    let mut i: usize = 0;
    while i < r.phases.len()
        invariant
            i <= r.phases@.len(),
            v@.len() == i,
            pair_views(v@) =~= phase_pairs(*r).take(i as int),
        decreases r.phases@.len() - i,
    {
        let ghost before = v@;
        v.push((r.phases[i].source, clone_opt(&r.phases[i].slice)));
        assert forall|k: int| 0 <= k < i + 1 implies pair_views(v@)[k] == phase_pairs(*r)[k] by {
            if k < i {
                assert(v@[k] == before[k]);
                assert(pair_views(before)[k] == phase_pairs(*r).take(i as int)[k]);
            }
        }
        assert(pair_views(v@) =~= phase_pairs(*r).take(i as int + 1));
        i += 1;
    }
    v
}

fn find_item_slice(items: &Vec<PlanItem>, key: &str) -> (res: Option<String>)
    ensures
        opt_view(res) == item_slice_of(items@, key@),
{
    let mut i: usize = items.len();
    assert(items@.take(i as int) =~= items@);
    while i > 0
        invariant
            i <= items@.len(),
            item_slice_of(items@, key@) == item_slice_of(items@.take(i as int), key@),
        decreases i,
    {
        assert(items@.take(i as int).last() == items@[i - 1]);
        if str_eq(items[i - 1].key.as_str(), key) {
            return Some(items[i - 1].slice.clone());
        }
        assert(items@.take(i as int).drop_last() =~= items@.take(i - 1));
        i -= 1;
    }
    None
}

fn same_target(a: &Option<String>, b: &Option<String>) -> (r: bool)
    ensures
        r == (opt_view(*a) == opt_view(*b)),
{
    match (a, b) {
        (Some(x), Some(y)) => str_eq(x.as_str(), y.as_str()),
        (None, None) => true,
        _ => false,
    }
}

fn flat_target(o: Option<Option<String>>) -> (r: Option<String>)
    ensures
        opt_view(r) == flat(target_view(o)),
{
    match o {
        Some(t) => t,
        None => None,
    }
}

fn checklist_check(
    r: &PlanReconciliation,
    tasks: &Vec<(i64, Option<String>)>,
    checks: &Vec<(i64, Option<String>)>,
    source: i64,
    task: i64,
    state: &str,
) -> (res: Option<ScopeIssue>)
    requires
        pair_views(tasks@) == task_pairs(*r),
        pair_views(checks@) == checklist_pairs(*r),
    ensures
        res == checklist_relation(*r, source, task, state@),
{
    let tt = match find_target(tasks, task) {
        None => return Some(ScopeIssue::ChecklistForeignTask),
        Some(t) => t,
    };
    let ct = flat_target(find_target(checks, source));
    match (&tt, &ct) {
        (Some(x), Some(y)) => {
            if !str_eq(x.as_str(), y.as_str()) {
                Some(ScopeIssue::ChecklistItemDiffers)
            } else {
                None
            }
        },
        _ => {
            if tt.is_some() != ct.is_some() && !(str_eq(state, "closed") || str_eq(
                state,
                "accepted_out_of_scope",
            )) {
                Some(ScopeIssue::ChecklistRetiredOnOneEndpoint)
            } else {
                None
            }
        },
    }
}

fn gate_check(
    r: &PlanReconciliation,
    tasks: &Vec<(i64, Option<String>)>,
    gates: &Vec<(i64, Option<String>)>,
    source: i64,
    task: Option<i64>,
    state: &str,
) -> (res: Option<ScopeIssue>)
    requires
        pair_views(tasks@) == task_pairs(*r),
        pair_views(gates@) == gate_pairs(*r),
    ensures
        res == gate_relation(*r, source, task, state@),
{
    let t = match task {
        None => return None,
        Some(t) => t,
    };
    let tt = match find_target(tasks, t) {
        None => return Some(ScopeIssue::GateForeignTask),
        Some(x) => x,
    };
    let gt = flat_target(find_target(gates, source));
    match (&tt, &gt) {
        (Some(x), Some(y)) => {
            if !str_eq(x.as_str(), y.as_str()) {
                Some(ScopeIssue::GateItemDiffers)
            } else {
                None
            }
        },
        _ => {
            if tt.is_some() != gt.is_some() && str_eq(state, "active") {
                Some(ScopeIssue::GateRetiredOnOneEndpoint)
            } else {
                None
            }
        },
    }
}

fn membership_check(
    r: &PlanReconciliation,
    plan: &PlanDocument,
    phases: &Vec<i64>,
    tasks: &Vec<(i64, Option<String>)>,
    phase_targets: &Vec<(i64, Option<String>)>,
    task: i64,
    phase: i64,
) -> (res: Option<ScopeIssue>)
    requires
        pair_views(tasks@) == task_pairs(*r),
        pair_views(phase_targets@) == phase_pairs(*r),
    ensures
        res == membership_relation(*r, *plan, phases@, task, phase),
{
    if !contains_id(phases, phase) {
        return Some(ScopeIssue::MembershipForeignPhase);
    }
    let tt = match find_target(tasks, task) {
        None => return Some(ScopeIssue::MembershipForeignTask),
        Some(x) => x,
    };
    let pt = match find_target(phase_targets, phase) {
        None => return Some(ScopeIssue::MembershipUnmappedPhase),
        Some(x) => x,
    };
    match (&tt, &pt) {
        (Some(item), Some(slice)) => match find_item_slice(&plan.items, item.as_str()) {
            None => Some(ScopeIssue::MembershipUnknownItem),
            Some(item_slice) => if !str_eq(item_slice.as_str(), slice.as_str()) {
                Some(ScopeIssue::MembershipSliceDiffers)
            } else {
                None
            },
        },
        _ => None,
    }
}

fn dependency_check(
    r: &PlanReconciliation,
    phase_targets: &Vec<(i64, Option<String>)>,
    d: &DependencyReconciliation,
    edge: Option<(i64, i64)>,
) -> (res: Option<ScopeIssue>)
    requires
        pair_views(phase_targets@) == phase_pairs(*r),
    ensures
        res == dependency_relation(*r, *d, edge),
{
    if !str_eq(d.disposition.as_str(), "retained") {
        return None;
    }
    let (from, to) = match edge {
        None => return None,
        Some(e) => e,
    };
    let ft = match find_target(phase_targets, from) {
        None => return Some(ScopeIssue::DependencyForeignPredecessor),
        Some(x) => x,
    };
    if !same_target(&ft, &d.from) {
        return Some(ScopeIssue::DependencyEndpointsDiffer);
    }
    let tt = match find_target(phase_targets, to) {
        None => return Some(ScopeIssue::DependencyForeignSuccessor),
        Some(x) => x,
    };
    if !same_target(&tt, &d.to) {
        return Some(ScopeIssue::DependencyEndpointsDiffer);
    }
    None
}

/// Checks that a reconciliation keeps the relations between predecessor
/// endpoints. `phases` is the predecessor's phase domain;
/// `checklist_facts` gives, per checklist mapping, the task and state of its
/// source item, `gate_facts` the same for each gate mapping (no task for a
/// gate without one); `memberships` lists the (task, phase) memberships of
/// the predecessor's tasks; `edges` gives, per dependency mapping, the
/// (from, to) phases of its source dependency when it is retained.
pub fn validate_reconciliation_relationships(
    r: &PlanReconciliation,
    plan: &PlanDocument,
    phases: &Vec<i64>,
    checklist_facts: &Vec<(i64, String)>,
    gate_facts: &Vec<(Option<i64>, String)>,
    memberships: &Vec<(i64, i64)>,
    edges: &Vec<Option<(i64, i64)>>,
) -> (res: Result<(), ScopeIssue>)
    requires
        checklist_facts@.len() == r.checklist@.len(),
        gate_facts@.len() == r.gates@.len(),
        edges@.len() == r.dependencies@.len(),
    ensures
        match spec_relationships(
            *r,
            *plan,
            phases@,
            checklist_facts@,
            gate_facts@,
            memberships@,
            edges@,
        ) {
            Some(e) => res == Err::<(), ScopeIssue>(e),
            None => res is Ok,
        },
{
    let tasks = task_target_pairs(r);
    let checks = checklist_target_pairs(r);
    let gates = gate_target_pairs(r);
    let phase_targets = phase_target_pairs(r);
    let mut i: usize = 0;
    while i < r.checklist.len()
        invariant
            i <= r.checklist@.len(),
            checklist_facts@.len() == r.checklist@.len(),
            pair_views(tasks@) == task_pairs(*r),
            pair_views(checks@) == checklist_pairs(*r),
            checklist_issues(*r, checklist_facts@, i as int) is None,
        decreases r.checklist@.len() - i,
    {
        let c = checklist_check(
            r,
            &tasks,
            &checks,
            r.checklist[i].source,
            checklist_facts[i].0,
            checklist_facts[i].1.as_str(),
        );
        if let Some(e) = c {
            assert(checklist_issues(*r, checklist_facts@, r.checklist@.len() as int) == Some(e))
                by {
                lemma_checklist_issues_stay(*r, checklist_facts@, i as int + 1, r.checklist@.len() as int);
            }
            return Err(e);
        }
        i += 1;
    }
    let mut g: usize = 0;
    while g < r.gates.len()
        invariant
            g <= r.gates@.len(),
            gate_facts@.len() == r.gates@.len(),
            pair_views(tasks@) == task_pairs(*r),
            pair_views(gates@) == gate_pairs(*r),
            checklist_issues(*r, checklist_facts@, r.checklist@.len() as int) is None,
            gate_issues(*r, gate_facts@, g as int) is None,
        decreases r.gates@.len() - g,
    {
        let c = gate_check(r, &tasks, &gates, r.gates[g].source, gate_facts[g].0, gate_facts[g].1.as_str());
        if let Some(e) = c {
            assert(gate_issues(*r, gate_facts@, r.gates@.len() as int) == Some(e)) by {
                lemma_gate_issues_stay(*r, gate_facts@, g as int + 1, r.gates@.len() as int);
            }
            return Err(e);
        }
        g += 1;
    }
    let mut m: usize = 0;
    while m < memberships.len()
        invariant
            m <= memberships@.len(),
            pair_views(tasks@) == task_pairs(*r),
            pair_views(phase_targets@) == phase_pairs(*r),
            checklist_issues(*r, checklist_facts@, r.checklist@.len() as int) is None,
            gate_issues(*r, gate_facts@, r.gates@.len() as int) is None,
            membership_issues(*r, *plan, phases@, memberships@, m as int) is None,
        decreases memberships@.len() - m,
    {
        let c = membership_check(r, plan, phases, &tasks, &phase_targets, memberships[m].0, memberships[m].1);
        if let Some(e) = c {
            assert(membership_issues(*r, *plan, phases@, memberships@, memberships@.len() as int)
                == Some(e)) by {
                lemma_membership_issues_stay(
                    *r,
                    *plan,
                    phases@,
                    memberships@,
                    m as int + 1,
                    memberships@.len() as int,
                );
            }
            return Err(e);
        }
        m += 1;
    }
    let mut d: usize = 0;
    while d < r.dependencies.len()
        invariant
            d <= r.dependencies@.len(),
            edges@.len() == r.dependencies@.len(),
            pair_views(phase_targets@) == phase_pairs(*r),
            checklist_issues(*r, checklist_facts@, r.checklist@.len() as int) is None,
            gate_issues(*r, gate_facts@, r.gates@.len() as int) is None,
            membership_issues(*r, *plan, phases@, memberships@, memberships@.len() as int) is None,
            dependency_issues(*r, edges@, d as int) is None,
        decreases r.dependencies@.len() - d,
    {
        let c = dependency_check(r, &phase_targets, &r.dependencies[d], edges[d]);
        if let Some(e) = c {
            assert(dependency_issues(*r, edges@, r.dependencies@.len() as int) == Some(e)) by {
                lemma_dependency_issues_stay(*r, edges@, d as int + 1, r.dependencies@.len() as int);
            }
            return Err(e);
        }
        d += 1;
    }
    Ok(())
}

proof fn lemma_checklist_issues_stay(r: PlanReconciliation, facts: Seq<(i64, String)>, a: int, b: int)
    requires
        0 <= a <= b,
        checklist_issues(r, facts, a) is Some,
    ensures
        checklist_issues(r, facts, b) == checklist_issues(r, facts, a),
    decreases b - a,
{
    if a < b {
        lemma_checklist_issues_stay(r, facts, a, b - 1);
    }
}

proof fn lemma_gate_issues_stay(r: PlanReconciliation, facts: Seq<(Option<i64>, String)>, a: int, b: int)
    requires
        0 <= a <= b,
        gate_issues(r, facts, a) is Some,
    ensures
        gate_issues(r, facts, b) == gate_issues(r, facts, a),
    decreases b - a,
{
    if a < b {
        lemma_gate_issues_stay(r, facts, a, b - 1);
    }
}

proof fn lemma_membership_issues_stay(
    r: PlanReconciliation,
    plan: PlanDocument,
    phases: Seq<i64>,
    memberships: Seq<(i64, i64)>,
    a: int,
    b: int,
)
    requires
        0 <= a <= b,
        membership_issues(r, plan, phases, memberships, a) is Some,
    ensures
        membership_issues(r, plan, phases, memberships, b) == membership_issues(
            r,
            plan,
            phases,
            memberships,
            a,
        ),
    decreases b - a,
{
    if a < b {
        lemma_membership_issues_stay(r, plan, phases, memberships, a, b - 1);
    }
}

proof fn lemma_dependency_issues_stay(r: PlanReconciliation, edges: Seq<Option<(i64, i64)>>, a: int, b: int)
    requires
        0 <= a <= b,
        dependency_issues(r, edges, a) is Some,
    ensures
        dependency_issues(r, edges, b) == dependency_issues(r, edges, a),
    decreases b - a,
{
    if a < b {
        lemma_dependency_issues_stay(r, edges, a, b - 1);
    }
}

/// The predecessor endpoints of each kind, as the store finds them.
pub struct ScopeDomains {
    pub tasks: Vec<i64>,
    pub checklist: Vec<i64>,
    pub gates: Vec<i64>,
    pub phases: Vec<i64>,
    pub dependencies: Vec<i64>,
}

/// What the store says of the endpoints a reconciliation's mappings name,
/// as `validate_reconciliation_relationships` takes it.
pub struct RelationFacts {
    pub checklist: Vec<(i64, String)>,
    pub gates: Vec<(Option<i64>, String)>,
    pub memberships: Vec<(i64, i64)>,
    pub edges: Vec<Option<(i64, i64)>>,
}

pub open spec fn task_sources(r: PlanReconciliation) -> Seq<i64> {
    r.tasks@.map_values(|m: crate::document::TaskReconciliation| m.source)
}

pub open spec fn checklist_sources(r: PlanReconciliation) -> Seq<i64> {
    r.checklist@.map_values(|m: crate::document::ChecklistReconciliation| m.source)
}

pub open spec fn gate_sources(r: PlanReconciliation) -> Seq<i64> {
    r.gates@.map_values(|m: crate::document::GateReconciliation| m.source)
}

pub open spec fn phase_sources(r: PlanReconciliation) -> Seq<i64> {
    r.phases@.map_values(|m: crate::document::PhaseReconciliation| m.source)
}

pub open spec fn dependency_sources(r: PlanReconciliation) -> Seq<i64> {
    r.dependencies@.map_values(|m: DependencyReconciliation| m.source)
}

/// The scope of a reconciliation: its predecessor (`predecessor`, the work
/// and status of the plan it names when that plan belongs to the project and
/// the Design Package of the selected design version) is in the selected
/// work and applied or incomplete, it still has the observed identity, each
/// kind of mapping covers exactly the predecessor's endpoints of that kind,
/// and the mappings keep the endpoints' relations.
pub open spec fn spec_scope(
    plan: PlanDocument,
    predecessor: Option<(i64, Seq<char>)>,
    work_unit_id: i64,
    current_identity: Seq<char>,
    domains: ScopeDomains,
    facts: RelationFacts,
) -> Result<(), ScopeIssue> {
    match plan.reconciliation {
        None => Err(ScopeIssue::ReconciliationRequired),
        Some(r) => if spec_predecessor(predecessor, work_unit_id) is Err {
            spec_predecessor(predecessor, work_unit_id)
        } else if current_identity != r.expected_current@ {
            Err(ScopeIssue::PredecessorChanged)
        } else if !same_ids(domains.tasks@, task_sources(r)) {
            Err(ScopeIssue::SourceDomain(DomainKind::Task))
        } else if !same_ids(domains.checklist@, checklist_sources(r)) {
            Err(ScopeIssue::SourceDomain(DomainKind::ChecklistItem))
        } else if !same_ids(domains.gates@, gate_sources(r)) {
            Err(ScopeIssue::SourceDomain(DomainKind::ValidationGate))
        } else if !same_ids(domains.phases@, phase_sources(r)) {
            Err(ScopeIssue::SourceDomain(DomainKind::Phase))
        } else if !same_ids(domains.dependencies@, dependency_sources(r)) {
            Err(ScopeIssue::SourceDomain(DomainKind::PhaseDependency))
        } else {
            match spec_relationships(
                r,
                plan,
                domains.phases@,
                facts.checklist@,
                facts.gates@,
                facts.memberships@,
                facts.edges@,
            ) {
                Some(e) => Err(e),
                None => Ok(()),
            }
        },
    }
}

fn task_source_ids(r: &PlanReconciliation) -> (v: Vec<i64>)
    ensures
        v@ == task_sources(*r),
{
    let mut v: Vec<i64> = Vec::new();
    let mut i: usize = 0;
    while i < r.tasks.len()
        invariant
            i <= r.tasks@.len(),
            v@ =~= task_sources(*r).take(i as int),
        decreases r.tasks@.len() - i,
    {
        v.push(r.tasks[i].source);
        i += 1;
    }
    v
}

fn checklist_source_ids(r: &PlanReconciliation) -> (v: Vec<i64>)
    ensures
        v@ == checklist_sources(*r),
{
    let mut v: Vec<i64> = Vec::new();
    let mut i: usize = 0;
    while i < r.checklist.len()
        invariant
            i <= r.checklist@.len(),
            v@ =~= checklist_sources(*r).take(i as int),
        decreases r.checklist@.len() - i,
    {
        v.push(r.checklist[i].source);
        i += 1;
    }
    v
}

fn gate_source_ids(r: &PlanReconciliation) -> (v: Vec<i64>)
    ensures
        v@ == gate_sources(*r),
{
    let mut v: Vec<i64> = Vec::new();
    let mut i: usize = 0;
    while i < r.gates.len()
        invariant
            i <= r.gates@.len(),
            v@ =~= gate_sources(*r).take(i as int),
        decreases r.gates@.len() - i,
    {
        v.push(r.gates[i].source);
        i += 1;
    }
    v
}

fn phase_source_ids(r: &PlanReconciliation) -> (v: Vec<i64>)
    ensures
        v@ == phase_sources(*r),
{
    let mut v: Vec<i64> = Vec::new();
    let mut i: usize = 0;
    while i < r.phases.len()
        invariant
            i <= r.phases@.len(),
            v@ =~= phase_sources(*r).take(i as int),
        decreases r.phases@.len() - i,
    {
        v.push(r.phases[i].source);
        i += 1;
    }
    v
}

fn dependency_source_ids(r: &PlanReconciliation) -> (v: Vec<i64>)
    ensures
        v@ == dependency_sources(*r),
{
    let mut v: Vec<i64> = Vec::new();
    let mut i: usize = 0;
    while i < r.dependencies.len()
        invariant
            i <= r.dependencies@.len(),
            v@ =~= dependency_sources(*r).take(i as int),
        decreases r.dependencies@.len() - i,
    {
        v.push(r.dependencies[i].source);
        i += 1;
    }
    v
}

/// Checks the scope of a reconciliation: `predecessor` is the work and
/// status of the plan it names, when that plan belongs to the project and the
/// Design Package of the selected design version; `current_identity` is the
/// predecessor's current identity now, `domains` its endpoints, and `facts`
/// what the store says of the endpoints the mappings name.
pub fn validate_reconciliation_scope(
    plan: &PlanDocument,
    predecessor: Option<(i64, String)>,
    work_unit_id: i64,
    current_identity: &str,
    domains: &ScopeDomains,
    facts: &RelationFacts,
) -> (res: Result<(), ScopeIssue>)
    requires
        plan.reconciliation is Some ==> {
            &&& facts.checklist@.len() == plan.reconciliation->0.checklist@.len()
            &&& facts.gates@.len() == plan.reconciliation->0.gates@.len()
            &&& facts.edges@.len() == plan.reconciliation->0.dependencies@.len()
        },
    ensures
        res == spec_scope(
            *plan,
            match predecessor {
                Some((w, s)) => Some((w, s@)),
                None => None,
            },
            work_unit_id,
            current_identity@,
            *domains,
            *facts,
        ),
{
    let r = match &plan.reconciliation {
        None => return Err(ScopeIssue::ReconciliationRequired),
        Some(r) => r,
    };
    check_reconciliation_predecessor(predecessor, work_unit_id)?;
    check_predecessor_current(current_identity, r.expected_current.as_str())?;
    require_exact_source_domain(DomainKind::Task, &domains.tasks, &task_source_ids(r))?;
    require_exact_source_domain(
        DomainKind::ChecklistItem,
        &domains.checklist,
        &checklist_source_ids(r),
    )?;
    require_exact_source_domain(DomainKind::ValidationGate, &domains.gates, &gate_source_ids(r))?;
    require_exact_source_domain(DomainKind::Phase, &domains.phases, &phase_source_ids(r))?;
    require_exact_source_domain(
        DomainKind::PhaseDependency,
        &domains.dependencies,
        &dependency_source_ids(r),
    )?;
    match validate_reconciliation_relationships(
        r,
        plan,
        &domains.phases,
        &facts.checklist,
        &facts.gates,
        &facts.memberships,
        &facts.edges,
    ) {
        Ok(()) => Ok(()),
        Err(e) => Err(e),
    }
}

} // verus!
