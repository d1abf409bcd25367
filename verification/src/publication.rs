//! The decisions of publishing a plan's application: the checks that its
//! target is empty and its graph ready, the predecessor phase each slice
//! continues, the phase keys and task priorities it writes, and the checks
//! of preserved effects and retired task identities after a reconciliation.

use vstd::prelude::*;

use crate::document::{PlanDocument, PlanItem, PlanSlice, ReconciliationEffect};
use crate::reconciliation::{checklist_total, dependency_total};
use crate::order::text_views;
use crate::text::{decimal, i64_decimal, str_eq};

verus! {

/// Why publishing an application is refused.
#[derive(Clone, Copy, Debug, PartialEq, Eq)]
pub enum PublicationIssue {
    OwnerOccupied,
    RequirementsNotCovered,
    GateCoverageNotExact,
    PhasesCollapse,
    NoRequirement,
    NoChecklistBoundary,
    PreserveChecklistDiffers,
    PreserveGateDiffers,
    PreservePhaseDiffers,
    PreserveDependencyDiffers,
    RetiredAliasMissing,
    RetiredIdentityRetained,
    RetiredRevisionMissing,
    TasksCollapse,
}

pub open spec fn publication_issue_text(i: PublicationIssue) -> Seq<char> {
    match i {
        PublicationIssue::OwnerOccupied => "the selected owner has existing decomposition state; reconcile it explicitly"@,
        PublicationIssue::RequirementsNotCovered => "Decomposition Plan must cover every current requirement"@,
        PublicationIssue::GateCoverageNotExact => "Decomposition Plan gate coverage is not exact"@,
        PublicationIssue::PhasesCollapse => "multiple predecessor phases cannot collapse into one successor epoch"@,
        PublicationIssue::NoRequirement => "decomposition item has no requirement"@,
        PublicationIssue::NoChecklistBoundary => "decomposition item has no checklist boundary"@,
        PublicationIssue::PreserveChecklistDiffers => "preserve checklist effect requires unchanged boundary meaning"@,
        PublicationIssue::PreserveGateDiffers => "preserve gate effect requires unchanged validation meaning"@,
        PublicationIssue::PreservePhaseDiffers => "preserve phase effect requires unchanged phase meaning"@,
        PublicationIssue::PreserveDependencyDiffers => "preserve dependency effect requires current successor endpoints and qualifying evidence"@,
        PublicationIssue::RetiredAliasMissing => "each retired task mapping requires one canonical identity alias"@,
        PublicationIssue::RetiredIdentityRetained => "a retired task identity cannot also be retained by the successor Plan"@,
        PublicationIssue::RetiredRevisionMissing => "retired task mapping lacks one current canonical revision"@,
        PublicationIssue::TasksCollapse => "multiple retained task identities require an explicit merge decision"@,
    }
}

impl PublicationIssue {
    pub fn message(&self) -> (res: &'static str)
        ensures
            res@ == publication_issue_text(*self),
    {
        match self {
            PublicationIssue::OwnerOccupied => "the selected owner has existing decomposition state; reconcile it explicitly",
            PublicationIssue::RequirementsNotCovered => "Decomposition Plan must cover every current requirement",
            PublicationIssue::GateCoverageNotExact => "Decomposition Plan gate coverage is not exact",
            PublicationIssue::PhasesCollapse => "multiple predecessor phases cannot collapse into one successor epoch",
            PublicationIssue::NoRequirement => "decomposition item has no requirement",
            PublicationIssue::NoChecklistBoundary => "decomposition item has no checklist boundary",
            PublicationIssue::PreserveChecklistDiffers => "preserve checklist effect requires unchanged boundary meaning",
            PublicationIssue::PreserveGateDiffers => "preserve gate effect requires unchanged validation meaning",
            PublicationIssue::PreservePhaseDiffers => "preserve phase effect requires unchanged phase meaning",
            PublicationIssue::PreserveDependencyDiffers => "preserve dependency effect requires current successor endpoints and qualifying evidence",
            PublicationIssue::RetiredAliasMissing => "each retired task mapping requires one canonical identity alias",
            PublicationIssue::RetiredIdentityRetained => "a retired task identity cannot also be retained by the successor Plan",
            PublicationIssue::RetiredRevisionMissing => "retired task mapping lacks one current canonical revision",
            PublicationIssue::TasksCollapse => "multiple retained task identities require an explicit merge decision",
        }
    }
}

/// Refuses an application target that already holds decomposition state.
pub fn validate_empty_application_target(occupied: bool) -> (res: Result<(), PublicationIssue>)
    ensures
        res is Ok <==> !occupied,
        res is Err ==> res == Err::<(), PublicationIssue>(PublicationIssue::OwnerOccupied),
{
    if occupied {
        return Err(PublicationIssue::OwnerOccupied);
    }
    Ok(())
}

/// The ready graph of a plan: it covers exactly the active requirements
/// (both lists in key order, each key once) and its item gates are exactly
/// those its requirements call for (no item gate without a template, no
/// template gate without an item gate).
pub open spec fn spec_ready_graph(
    active: Seq<Seq<char>>,
    covered: Seq<Seq<char>>,
    invalid_gates: i64,
    missing_gates: i64,
) -> Result<(), PublicationIssue> {
    if active.len() == 0 || active != covered {
        Err(PublicationIssue::RequirementsNotCovered)
    } else if invalid_gates != 0 || missing_gates != 0 {
        Err(PublicationIssue::GateCoverageNotExact)
    } else {
        Ok(())
    }
}

fn same_texts(a: &Vec<String>, b: &Vec<String>) -> (r: bool)
    ensures
        r == (text_views(a@) == text_views(b@)),
{
    if a.len() != b.len() {
        assert(text_views(a@).len() != text_views(b@).len());
        return false;
    }
    let mut i: usize = 0;
    while i < a.len()
        invariant
            i <= a@.len(),
            a@.len() == b@.len(),
            forall|k: int| 0 <= k < i ==> (#[trigger] a@[k])@ == b@[k]@,
        decreases a@.len() - i,
    {
        if !str_eq(a[i].as_str(), b[i].as_str()) {
            assert(text_views(a@)[i as int] != text_views(b@)[i as int]);
            return false;
        }
        i += 1;
    }
    assert(text_views(a@) =~= text_views(b@));
    true
}

/// Checks the graph of a plan about to be applied; `active` and `covered`
/// are the active requirement keys and those the plan's items cover,
/// `invalid_gates` and `missing_gates` the item gates without a template and
/// the template gates without an item gate.
pub fn validate_ready_graph(
    active: &Vec<String>,
    covered: &Vec<String>,
    invalid_gates: i64,
    missing_gates: i64,
) -> (res: Result<(), PublicationIssue>)
    ensures
        res == spec_ready_graph(text_views(active@), text_views(covered@), invalid_gates, missing_gates),
        res is Ok <==> (active@.len() > 0 && text_views(active@) == text_views(covered@)
            && invalid_gates == 0 && missing_gates == 0),
        !(active@.len() > 0 && text_views(active@) == text_views(covered@)) ==> res == Err::<
            (),
            PublicationIssue,
        >(PublicationIssue::RequirementsNotCovered),
        active@.len() > 0 && text_views(active@) == text_views(covered@) && (invalid_gates != 0
            || missing_gates != 0) ==> res == Err::<(), PublicationIssue>(
            PublicationIssue::GateCoverageNotExact,
        ),
{
    if active.len() == 0 || !same_texts(active, covered) {
        return Err(PublicationIssue::RequirementsNotCovered);
    }
    if invalid_gates != 0 || missing_gates != 0 {
        return Err(PublicationIssue::GateCoverageNotExact);
    }
    Ok(())
}

/// The phase each successor slice continues, as (slice, source phase)
/// pairs in slice order; refused when two phases would continue into one
/// slice.
pub fn phase_predecessors(retained: &Vec<(i64, i64)>) -> (res: Result<Vec<(i64, i64)>, PublicationIssue>)
    ensures
        res is Ok <==> (forall|i: int, j: int|
            0 <= i < j < retained@.len() ==> (#[trigger] retained@[i]).0 != (#[trigger] retained@[j]).0),
        res matches Ok(m) ==> m@ == retained@,
        res is Err ==> res == Err::<Vec<(i64, i64)>, PublicationIssue>(PublicationIssue::PhasesCollapse),
{
    let mut out: Vec<(i64, i64)> = Vec::new();
    let mut i: usize = 0;
    while i < retained.len()
        invariant
            i <= retained@.len(),
            out@ == retained@.take(i as int),
            forall|a: int, b: int| 0 <= a < b < i ==> (#[trigger] retained@[a]).0 != (#[trigger] retained@[b]).0,
        decreases retained@.len() - i,
    {
        let (slice, source) = retained[i];
        let mut j: usize = 0;
        while j < out.len()
            invariant
                j <= out@.len(),
                out@ == retained@.take(i as int),
                i < retained@.len(),
                slice == retained@[i as int].0,
                forall|a: int| 0 <= a < j ==> (#[trigger] retained@[a]).0 != slice,
            decreases out@.len() - j,
        {
            if out[j].0 == slice {
                assert(retained@[j as int].0 == retained@[i as int].0);
                return Err(PublicationIssue::PhasesCollapse);
            }
            j += 1;
        }
        out.push((slice, source));
        assert(out@ =~= retained@.take(i as int + 1));
        i += 1;
    }
    assert(retained@.take(retained@.len() as int) =~= retained@);
    Ok(out)
}

/// The task identity each successor item continues, as (item, source task,
/// effect) in the order given; refused when two retained tasks would
/// continue into one item.
pub fn retained_task_targets(retained: &Vec<(i64, i64, ReconciliationEffect)>) -> (res: Result<
    Vec<(i64, i64, ReconciliationEffect)>,
    PublicationIssue,
>)
    ensures
        res is Ok <==> (forall|i: int, j: int|
            0 <= i < j < retained@.len() ==> (#[trigger] retained@[i]).0 != (#[trigger] retained@[j]).0),
        res matches Ok(m) ==> m@ == retained@,
        res is Err ==> res == Err::<Vec<(i64, i64, ReconciliationEffect)>, PublicationIssue>(
            PublicationIssue::TasksCollapse,
        ),
{
    let mut out: Vec<(i64, i64, ReconciliationEffect)> = Vec::new();
    let mut i: usize = 0;
    while i < retained.len()
        invariant
            i <= retained@.len(),
            out@ == retained@.take(i as int),
            forall|a: int, b: int| 0 <= a < b < i ==> (#[trigger] retained@[a]).0 != (#[trigger] retained@[b]).0,
        decreases retained@.len() - i,
    {
        let (item, source, effect) = retained[i];
        let mut j: usize = 0;
        while j < out.len()
            invariant
                j <= out@.len(),
                out@ == retained@.take(i as int),
                i < retained@.len(),
                item == retained@[i as int].0,
                forall|a: int| 0 <= a < j ==> (#[trigger] retained@[a]).0 != item,
            decreases out@.len() - j,
        {
            if out[j].0 == item {
                assert(retained@[j as int].0 == retained@[i as int].0);
                return Err(PublicationIssue::TasksCollapse);
            }
            j += 1;
        }
        out.push((item, source, effect));
        assert(out@ =~= retained@.take(i as int + 1));
        i += 1;
    }
    assert(retained@.take(retained@.len() as int) =~= retained@);
    Ok(out)
}

/// The key a new phase is stored under: the slice's key, or, when the work
/// already has a phase with that key, one naming the plan and slice.
pub open spec fn spec_phase_storage_key(key: Seq<char>, occupied: bool, plan_id: i64, slice_id: i64) -> Seq<char> {
    if occupied {
        "successor-plan-"@ + decimal(plan_id as int) + "-slice-"@ + decimal(slice_id as int)
    } else {
        key
    }
}

pub fn phase_storage_key(key: &str, occupied: bool, plan_id: i64, slice_id: i64) -> (r: String)
    ensures
        r@ == spec_phase_storage_key(key@, occupied, plan_id, slice_id),
{
    if occupied {
        String::from_str("successor-plan-").concat(i64_decimal(plan_id).as_str()).concat(
            "-slice-",
        ).concat(i64_decimal(slice_id).as_str())
    } else {
        String::from_str(key)
    }
}

/// The rank of a requirement priority.
pub open spec fn priority_rank(p: Seq<char>) -> int {
    if p == "critical"@ {
        4
    } else if p == "high"@ {
        3
    } else if p == "medium"@ {
        2
    } else {
        1
    }
}

fn rank(p: &str) -> (r: u8)
    ensures
        r as int == priority_rank(p@),
{
    if str_eq(p, "critical") {
        4
    } else if str_eq(p, "high") {
        3
    } else if str_eq(p, "medium") {
        2
    } else {
        1
    }
}

/// The index of the task priority among the item's requirement
/// priorities: the last of those with the highest rank.
pub open spec fn priority_index(ps: Seq<Seq<char>>) -> int
    decreases ps.len(),
{
    if ps.len() <= 1 {
        0
    } else {
        let rest = priority_index(ps.drop_last());
        if priority_rank(ps.last()) >= priority_rank(ps[rest]) {
            ps.len() - 1
        } else {
            rest
        }
    }
}

proof fn lemma_priority_index_bounds(ps: Seq<Seq<char>>)
    requires
        ps.len() > 0,
    ensures
        0 <= priority_index(ps) < ps.len(),
        forall|k: int| 0 <= k < ps.len() ==> priority_rank(#[trigger] ps[k]) <= priority_rank(
            ps[priority_index(ps)],
        ),
    decreases ps.len(),
{
    if ps.len() > 1 {
        lemma_priority_index_bounds(ps.drop_last());
        assert forall|k: int| 0 <= k < ps.len() implies priority_rank(#[trigger] ps[k])
            <= priority_rank(ps[priority_index(ps)]) by {
            if k < ps.len() - 1 {
                assert(ps.drop_last()[k] == ps[k]);
            }
        }
    }
}

/// The priority of the task an item becomes: the highest of its
/// requirements' priorities (the last such one); refused for an item without
/// requirements.
pub fn item_priority(priorities: &Vec<String>) -> (res: Result<String, PublicationIssue>)
    ensures
        priorities@.len() == 0 ==> res == Err::<String, PublicationIssue>(
            PublicationIssue::NoRequirement,
        ),
        priorities@.len() > 0 ==> (res matches Ok(p) && p@ == text_views(priorities@)[priority_index(
            text_views(priorities@),
        )]),
{
    if priorities.len() == 0 {
        return Err(PublicationIssue::NoRequirement);
    }
    let ghost ps = text_views(priorities@);
    let mut best: usize = 0;
    let mut best_rank: u8 = rank(priorities[0].as_str());
    let mut i: usize = 1;
    while i < priorities.len()
        invariant
            1 <= i <= priorities@.len(),
            ps == text_views(priorities@),
            best as int == priority_index(ps.take(i as int)),
            best < i,
            best_rank as int == priority_rank(ps[best as int]),
        decreases priorities@.len() - i,
    {
        proof {
            assert(ps.take(i as int + 1).drop_last() =~= ps.take(i as int));
            assert(ps.take(i as int + 1).last() == ps[i as int]);
            assert(ps.take(i as int)[best as int] == ps[best as int]);
        }
        let r = rank(priorities[i].as_str());
        if r >= best_rank {
            best = i;
            best_rank = r;
        }
        i += 1;
    }
    assert(ps.take(priorities@.len() as int) =~= ps);
    Ok(priorities[best].clone())
}

/// The title of the checklist an application creates.
pub fn checklist_title(plan_key: &str) -> (r: String)
    ensures
        r@ == "Decomposition "@ + plan_key@,
{
    String::from_str("Decomposition ").concat(plan_key)
}

/// The first checklist item an item's boundaries created, which must exist.
pub fn first_checklist_item(first: Option<i64>) -> (res: Result<i64, PublicationIssue>)
    ensures
        match first {
            Some(id) => res == Ok::<i64, PublicationIssue>(id),
            None => res == Err::<i64, PublicationIssue>(PublicationIssue::NoChecklistBoundary),
        },
{
    match first {
        Some(id) => Ok(id),
        None => Err(PublicationIssue::NoChecklistBoundary),
    }
}

/// After publication, no preserved checklist item, gate, phase or
/// dependency may differ from its source; the arguments count those that do.
pub open spec fn spec_preserve_effects(checklist: i64, gates: i64, phases: i64, dependencies: i64) -> Result<
    (),
    PublicationIssue,
> {
    if checklist != 0 {
        Err(PublicationIssue::PreserveChecklistDiffers)
    } else if gates != 0 {
        Err(PublicationIssue::PreserveGateDiffers)
    } else if phases != 0 {
        Err(PublicationIssue::PreservePhaseDiffers)
    } else if dependencies != 0 {
        Err(PublicationIssue::PreserveDependencyDiffers)
    } else {
        Ok(())
    }
}

pub fn validate_preserve_effects(checklist: i64, gates: i64, phases: i64, dependencies: i64) -> (res:
    Result<(), PublicationIssue>)
    ensures
        res == spec_preserve_effects(checklist, gates, phases, dependencies),
{
    if checklist != 0 {
        Err(PublicationIssue::PreserveChecklistDiffers)
    } else if gates != 0 {
        Err(PublicationIssue::PreserveGateDiffers)
    } else if phases != 0 {
        Err(PublicationIssue::PreservePhaseDiffers)
    } else if dependencies != 0 {
        Err(PublicationIssue::PreserveDependencyDiffers)
    } else {
        Ok(())
    }
}

/// Each retired task mapping must reach one canonical identity: as many
/// mappings reach an identity (`mapped`) as there are retired mappings
/// (`expected`).
pub fn check_retired_aliases(mapped: i64, expected: i64) -> (res: Result<(), PublicationIssue>)
    ensures
        res is Ok <==> mapped == expected,
        res is Err ==> res == Err::<(), PublicationIssue>(PublicationIssue::RetiredAliasMissing),
{
    if mapped != expected {
        return Err(PublicationIssue::RetiredAliasMissing);
    }
    Ok(())
}

/// A retired identity may not also be retained by the successor.
pub fn check_retired_identity(retained_by_successor: bool) -> (res: Result<(), PublicationIssue>)
    ensures
        res is Ok <==> !retained_by_successor,
        res is Err ==> res == Err::<(), PublicationIssue>(PublicationIssue::RetiredIdentityRetained),
{
    if retained_by_successor {
        return Err(PublicationIssue::RetiredIdentityRetained);
    }
    Ok(())
}

/// Retiring an identity must retire exactly one current revision and the
/// identity itself; the arguments count the rows each update changed.
pub fn check_retired_revision(revisions: usize, identities: usize) -> (res: Result<(), PublicationIssue>)
    ensures
        res is Ok <==> (revisions == 1 && identities == 1),
        res is Err ==> res == Err::<(), PublicationIssue>(PublicationIssue::RetiredRevisionMissing),
{
    if revisions != 1 || identities != 1 {
        return Err(PublicationIssue::RetiredRevisionMissing);
    }
    Ok(())
}

/// A task an application creates for one plan item: where it comes from,
/// its priority, and the order of its first checklist item.
#[derive(Clone, Debug, PartialEq, Eq)]
pub struct PublishedTask {
    pub item: String,
    pub slice: String,
    pub title: String,
    pub details: String,
    pub outcome: String,
    pub priority: String,
    pub first_checklist_order: usize,
    pub checklist_items: usize,
}

/// The rows an application of a plan writes: one checklist, one open task
/// per item (in item order), the phase each retained slice continues, and
/// the counts the outcome reports.
#[derive(Clone, Debug, PartialEq, Eq)]
pub struct Publication {
    pub checklist_title: String,
    pub tasks: Vec<PublishedTask>,
    pub phase_predecessors: Vec<(i64, i64)>,
    pub checklist_item_count: usize,
    pub phase_count: usize,
    pub dependency_count: usize,
}

/// No two retained phases continue into the same slice.
pub open spec fn phases_distinct(retained: Seq<(i64, i64)>) -> bool {
    forall|i: int, j: int|
        0 <= i < j < retained.len() ==> (#[trigger] retained[i]).0 != (#[trigger] retained[j]).0
}

/// Why one item cannot become a task: it has no requirement, or no
/// checklist boundary.
pub open spec fn item_issue(item: PlanItem, priorities: Seq<String>) -> Option<PublicationIssue> {
    if priorities.len() == 0 {
        Some(PublicationIssue::NoRequirement)
    } else if item.checklist@.len() == 0 {
        Some(PublicationIssue::NoChecklistBoundary)
    } else {
        None
    }
}

/// The issue of the first item, in plan order, that cannot become a task.
pub open spec fn items_issue(items: Seq<PlanItem>, priorities: Seq<Vec<String>>) -> Option<
    PublicationIssue,
>
    decreases items.len(),
{
    if items.len() == 0 {
        None
    } else {
        match items_issue(items.drop_last(), priorities.drop_last()) {
            Some(e) => Some(e),
            None => item_issue(items.last(), priorities.last()@),
        }
    }
}

/// Whether a plan can be published: its retained phases do not collapse,
/// then every item has a requirement and a checklist boundary.
pub open spec fn spec_publication(
    plan: PlanDocument,
    priorities: Seq<Vec<String>>,
    retained: Seq<(i64, i64)>,
) -> Result<(), PublicationIssue> {
    if !phases_distinct(retained) {
        Err(PublicationIssue::PhasesCollapse)
    } else {
        match items_issue(plan.items@, priorities) {
            Some(e) => Err(e),
            None => Ok(()),
        }
    }
}

/// The task one item becomes, its first checklist item numbered `start`.
pub open spec fn published_task(
    t: PublishedTask,
    item: PlanItem,
    priorities: Seq<String>,
    start: int,
) -> bool {
    &&& t.item@ == item.key@
    &&& t.slice@ == item.slice@
    &&& t.title@ == item.title@
    &&& t.details@ == item.details@
    &&& t.outcome@ == item.completion.outcome@
    &&& t.priority@ == text_views(priorities)[priority_index(text_views(priorities))]
    &&& t.first_checklist_order == start
    &&& t.checklist_items == item.checklist@.len()
}

proof fn lemma_checklist_prefix(items: Seq<PlanItem>, k: int)
    requires
        0 <= k <= items.len(),
    ensures
        checklist_total(items.take(k)) <= checklist_total(items),
    decreases items.len(),
{
    if k < items.len() {
        assert(items.take(k) =~= items.drop_last().take(k));
        lemma_checklist_prefix(items.drop_last(), k);
    } else {
        assert(items.take(k) =~= items);
    }
}

proof fn lemma_dependency_prefix(slices: Seq<PlanSlice>, k: int)
    requires
        0 <= k <= slices.len(),
    ensures
        dependency_total(slices.take(k)) <= dependency_total(slices),
    decreases slices.len(),
{
    if k < slices.len() {
        assert(slices.take(k) =~= slices.drop_last().take(k));
        lemma_dependency_prefix(slices.drop_last(), k);
    } else {
        assert(slices.take(k) =~= slices);
    }
}

proof fn lemma_items_issue_extends(items: Seq<PlanItem>, priorities: Seq<Vec<String>>, n: int)
    requires
        0 < n <= items.len(),
        priorities.len() == items.len(),
        items_issue(items.take(n), priorities.take(n)) is Some,
    ensures
        items_issue(items, priorities) == items_issue(items.take(n), priorities.take(n)),
    decreases items.len() - n,
{
    if n < items.len() {
        assert(items.take(n + 1).drop_last() =~= items.take(n));
        assert(priorities.take(n + 1).drop_last() =~= priorities.take(n));
        lemma_items_issue_extends(items, priorities, n + 1);
    } else {
        assert(items.take(n) =~= items);
        assert(priorities.take(n) =~= priorities);
    }
}

/// Some item belongs to the slice with this key.
pub open spec fn slice_owned(items: Seq<PlanItem>, key: Seq<char>) -> bool {
    exists|k: int| 0 <= k < items.len() && (#[trigger] items[k]).slice@ == key
}

/// The number of slices some item belongs to: the phases an application
/// gives tasks.
pub open spec fn owned_slice_count(slices: Seq<PlanSlice>, items: Seq<PlanItem>) -> int
    decreases slices.len(),
{
    if slices.len() == 0 {
        0
    } else {
        owned_slice_count(slices.drop_last(), items) + if slice_owned(items, slices.last().key@) {
            1int
        } else {
            0int
        }
    }
}

/// At most every slice is owned.
pub proof fn lemma_owned_slice_count_bound(slices: Seq<PlanSlice>, items: Seq<PlanItem>)
    ensures
        0 <= owned_slice_count(slices, items) <= slices.len(),
    decreases slices.len(),
{
    if slices.len() > 0 {
        lemma_owned_slice_count_bound(slices.drop_last(), items);
    }
}

fn owns(items: &Vec<PlanItem>, key: &str) -> (r: bool)
    ensures
        r == slice_owned(items@, key@),
{
    let mut k: usize = 0;
    while k < items.len()
        invariant
            k <= items@.len(),
            forall|a: int| 0 <= a < k ==> (#[trigger] items@[a]).slice@ != key@,
        decreases items@.len() - k,
    {
        if str_eq(items[k].slice.as_str(), key) {
            return true;
        }
        k += 1;
    }
    false
}

fn owned_slices(slices: &Vec<PlanSlice>, items: &Vec<PlanItem>) -> (r: usize)
    ensures
        r == owned_slice_count(slices@, items@),
        r <= slices@.len(),
{
    let mut count: usize = 0;
    let mut j: usize = 0;
    assert(slices@.take(0) =~= Seq::<PlanSlice>::empty());
    while j < slices.len()
        invariant
            j <= slices@.len(),
            count <= j,
            count == owned_slice_count(slices@.take(j as int), items@),
        decreases slices@.len() - j,
    {
        assert(slices@.take(j as int + 1).drop_last() =~= slices@.take(j as int));
        assert(slices@.take(j as int + 1).last() == slices@[j as int]);
        if owns(items, slices[j].key.as_str()) {
            count += 1;
        }
        j += 1;
    }
    assert(slices@.take(slices@.len() as int) =~= slices@);
    count
}

/// The rows applying a plan writes. `priorities` holds, for each item in
/// plan order, the priorities of its requirements in requirement-key order;
/// `retained_phases` the (slice, source phase) pairs the plan's
/// reconciliation retains. Refused when two phases continue into one slice,
/// else at the first item without a requirement or checklist boundary.
pub fn publication_rows(
    plan: &PlanDocument,
    priorities: &Vec<Vec<String>>,
    retained_phases: &Vec<(i64, i64)>,
) -> (r: Result<Publication, PublicationIssue>)
    requires
        priorities@.len() == plan.items@.len(),
        checklist_total(plan.items@) < usize::MAX,
        dependency_total(plan.slices@) <= usize::MAX,
    ensures
        r is Ok <==> spec_publication(*plan, priorities@, retained_phases@) is Ok,
        r matches Err(e) ==> spec_publication(*plan, priorities@, retained_phases@) == Err::<
            (),
            PublicationIssue,
        >(e),
        r matches Ok(p) ==> {
            &&& p.checklist_title@ == "Decomposition "@ + plan.key@
            &&& p.phase_predecessors@ == retained_phases@
            &&& p.tasks@.len() == plan.items@.len()
            &&& forall|k: int|
                0 <= k < plan.items@.len() ==> published_task(
                    #[trigger] p.tasks@[k],
                    plan.items@[k],
                    priorities@[k]@,
                    checklist_total(plan.items@.take(k)) + 1,
                )
            &&& p.checklist_item_count == checklist_total(plan.items@)
            &&& p.phase_count == owned_slice_count(plan.slices@, plan.items@)
            &&& p.dependency_count == dependency_total(plan.slices@)
        },
{
    let phases = match phase_predecessors(retained_phases) {
        Ok(m) => m,
        Err(e) => return Err(e),
    };
    let ghost items = plan.items@;
    let ghost ps = priorities@;
    let mut tasks: Vec<PublishedTask> = Vec::new();
    let mut total: usize = 0;
    let mut k: usize = 0;
    assert(items.take(0) =~= Seq::<PlanItem>::empty());
    assert(ps.take(0) =~= Seq::<Vec<String>>::empty());
    while k < plan.items.len()
        invariant
            items == plan.items@,
            ps == priorities@,
            k <= items.len(),
            ps.len() == items.len(),
            checklist_total(items) < usize::MAX,
            total == checklist_total(items.take(k as int)),
            tasks@.len() == k,
            forall|j: int|
                0 <= j < k ==> published_task(
                    #[trigger] tasks@[j],
                    items[j],
                    ps[j]@,
                    checklist_total(items.take(j)) + 1,
                ),
            items_issue(items.take(k as int), ps.take(k as int)) is None,
            phases_distinct(retained_phases@),
        decreases items.len() - k,
    {
        proof {
            assert(items.take(k as int + 1).drop_last() =~= items.take(k as int));
            assert(ps.take(k as int + 1).drop_last() =~= ps.take(k as int));
            assert(items.take(k as int + 1).last() == items[k as int]);
            assert(ps.take(k as int + 1).last() == ps[k as int]);
            lemma_checklist_prefix(items, k as int + 1);
        }
        let item = &plan.items[k];
        let priority = match item_priority(&priorities[k]) {
            Ok(p) => p,
            Err(e) => {
                proof {
                    lemma_items_issue_extends(items, ps, k as int + 1);
                }
                return Err(e);
            },
        };
        if item.checklist.len() == 0 {
            proof {
                lemma_items_issue_extends(items, ps, k as int + 1);
            }
            return Err(PublicationIssue::NoChecklistBoundary);
        }
        let task = PublishedTask {
            item: item.key.clone(),
            slice: item.slice.clone(),
            title: item.title.clone(),
            details: item.details.clone(),
            outcome: item.completion.outcome.clone(),
            priority,
            first_checklist_order: total + 1,
            checklist_items: item.checklist.len(),
        };
        tasks.push(task);
        total = total + item.checklist.len();
        k += 1;
    }
    assert(items.take(items.len() as int) =~= items);
    assert(ps.take(ps.len() as int) =~= ps);
    let ghost slices = plan.slices@;
    let mut dependencies: usize = 0;
    let mut j: usize = 0;
    assert(slices.take(0) =~= Seq::<PlanSlice>::empty());
    while j < plan.slices.len()
        invariant
            slices == plan.slices@,
            j <= slices.len(),
            dependency_total(slices) <= usize::MAX,
            dependencies == dependency_total(slices.take(j as int)),
        decreases slices.len() - j,
    {
        proof {
            assert(slices.take(j as int + 1).drop_last() =~= slices.take(j as int));
            assert(slices.take(j as int + 1).last() == slices[j as int]);
            lemma_dependency_prefix(slices, j as int + 1);
        }
        dependencies = dependencies + plan.slices[j].depends_on.len();
        j += 1;
    }
    assert(slices.take(slices.len() as int) =~= slices);
    Ok(
        Publication {
            checklist_title: checklist_title(plan.key.as_str()),
            tasks,
            phase_predecessors: phases,
            checklist_item_count: total,
            phase_count: owned_slices(&plan.slices, &plan.items),
            dependency_count: dependencies,
        },
    )
}

/// The outcome of an application once its rows are published: applied,
/// with as many tasks as the plan has items and the counts of its
/// checklist items, phases and dependencies.
pub fn published_outcome(plan_id: i64, rows: &Publication) -> (o:
    crate::records::DecompositionApplicationOutcome)
    requires
        rows.tasks@.len() <= i64::MAX,
        rows.checklist_item_count <= i64::MAX,
        rows.phase_count <= i64::MAX,
        rows.dependency_count <= i64::MAX,
    ensures
        o == (crate::records::DecompositionApplicationOutcome {
            plan_id,
            task_count: rows.tasks@.len() as i64,
            checklist_item_count: rows.checklist_item_count as i64,
            phase_count: rows.phase_count as i64,
            dependency_count: rows.dependency_count as i64,
            already_applied: false,
            applied: true,
        }),
{
    crate::records::DecompositionApplicationOutcome {
        plan_id,
        task_count: rows.tasks.len() as i64,
        checklist_item_count: rows.checklist_item_count as i64,
        phase_count: rows.phase_count as i64,
        dependency_count: rows.dependency_count as i64,
        already_applied: false,
        applied: true,
    }
}

} // verus!
