//! Migrating decomposition state that was derived before plans existed: the
//! work and design bundles no plan covers, the worksheet plan written for
//! each, and the slices, items and sources its migration records.

use vstd::prelude::*;

use crate::document::{PlanCompletion, PlanDocument, PlanItem, PlanSlice};
use crate::identity::{append_text, identity, identity_of};
use crate::text::{decimal, i64_decimal, str_eq};
use vstd::utf8::encode_utf8;

verus! {

/// Why a migration worksheet cannot be written.
#[derive(Clone, Copy, Debug, PartialEq, Eq)]
pub enum CompatibilityIssue {
    DifferentContent,
}

impl CompatibilityIssue {
    pub fn message(&self) -> (res: String)
        ensures
            res@ == "migrated Decomposition Plan path has different content"@,
    {
        String::from_str("migrated Decomposition Plan path has different content")
    }
}

// ---- the bundles no plan covers ----
/// The (work, design version) bundles of derived state that no plan covers,
/// in order.
pub open spec fn uncovered(bundles: Seq<(i64, i64)>, covered: Seq<(i64, i64)>) -> Seq<(i64, i64)>
    decreases bundles.len(),
{
    if bundles.len() == 0 {
        Seq::empty()
    } else if covered.contains(bundles.last()) {
        uncovered(bundles.drop_last(), covered)
    } else {
        uncovered(bundles.drop_last(), covered).push(bundles.last())
    }
}

fn contains_bundle(v: &Vec<(i64, i64)>, b: (i64, i64)) -> (r: bool)
    ensures
        r == v@.contains(b),
{
    let mut i: usize = 0;
    while i < v.len()
        invariant
            i <= v@.len(),
            forall|k: int| 0 <= k < i ==> v@[k] != b,
        decreases v@.len() - i,
    {
        if v[i].0 == b.0 && v[i].1 == b.1 {
            assert(v@[i as int] == b);
            return true;
        }
        i += 1;
    }
    false
}

/// The bundles of derived state that no plan covers; `covered` holds the
/// (work, design version) each parsed plan binds.
pub fn uncovered_derived_bundles(bundles: &Vec<(i64, i64)>, covered: &Vec<(i64, i64)>) -> (r: Vec<
    (i64, i64),
>)
    ensures
        r@ == uncovered(bundles@, covered@),
{
    let mut out: Vec<(i64, i64)> = Vec::new();
    let mut i: usize = 0;
    while i < bundles.len()
        invariant
            i <= bundles@.len(),
            out@ == uncovered(bundles@.take(i as int), covered@),
        decreases bundles@.len() - i,
    {
        assert(bundles@.take(i as int + 1).drop_last() =~= bundles@.take(i as int));
        assert(bundles@.take(i as int + 1).last() == bundles@[i as int]);
        if !contains_bundle(covered, bundles[i]) {
            out.push(bundles[i]);
        }
        i += 1;
    }
    assert(bundles@.take(bundles@.len() as int) =~= bundles@);
    out
}

/// How many bundles of derived state no plan covers.
pub fn uncovered_derived_bundle_count(bundles: &Vec<(i64, i64)>, covered: &Vec<(i64, i64)>) -> (r:
    usize)
    ensures
        r == uncovered(bundles@, covered@).len(),
{
    uncovered_derived_bundles(bundles, covered).len()
}

// ---- the worksheet ----
pub open spec fn migrated_key(work_unit_id: i64) -> Seq<char> {
    "migrated-work-"@ + decimal(work_unit_id as int)
}

pub open spec fn work_owner(work_unit_id: i64) -> Seq<char> {
    "work:"@ + decimal(work_unit_id as int)
}

/// The worksheet plan of a bundle: one item covering the design's active
/// requirements in one migration slice, for the migrating work to complete.
pub open spec fn migrated_plan(
    work_unit_id: i64,
    design_fingerprint: Seq<char>,
    requirements: Seq<String>,
    p: PlanDocument,
) -> bool {
    &&& p.record_type@ == "decomposition_plan"@
    &&& p.format == 1
    &&& p.key@ == migrated_key(work_unit_id)
    &&& p.design_fingerprint@ == design_fingerprint
    &&& p.work == Some(work_unit_id)
    &&& p.reconciliation is None
    &&& p.items@.len() == 1
    &&& p.items@[0].key@ == "complete-migrated-mapping"@
    &&& p.items@[0].requirements@ == requirements
    &&& p.items@[0].title@ == "Complete the migrated decomposition mapping"@
    &&& p.items@[0].details@
        == "Replace this migration worksheet with explicit observable boundaries and endpoint mappings."@
    &&& p.items@[0].completion.outcome@ == Seq::<char>::empty()
    &&& p.items@[0].completion.observation@ == Seq::<char>::empty()
    &&& p.items@[0].completion.evidence_owner@ == work_owner(work_unit_id)
    &&& p.items@[0].completion.evidence_kind@ == Seq::<char>::empty()
    &&& p.items@[0].completion.gates@.len() == 0
    &&& p.items@[0].checklist@.len() == 0
    &&& p.items@[0].slice@ == "migration"@
    &&& p.slices@.len() == 1
    &&& p.slices@[0].key@ == "migration"@
    &&& p.slices@[0].title@ == "Migration reconciliation"@
    &&& p.slices@[0].order == 1
    &&& p.slices@[0].depends_on@.len() == 0
}

fn work_owner_text(work_unit_id: i64) -> (r: String)
    ensures
        r@ == work_owner(work_unit_id),
{
    String::from_str("work:").concat(i64_decimal(work_unit_id).as_str())
}

/// The worksheet plan of the bundle of `work_unit_id`, for the design with
/// this fingerprint and these active requirements.
pub fn migrated_plan_document(work_unit_id: i64, design_fingerprint: &str, requirements: Vec<String>) -> (p:
    PlanDocument)
    ensures
        migrated_plan(work_unit_id, design_fingerprint@, requirements@, p),
{
    let item = PlanItem {
        key: String::from_str("complete-migrated-mapping"),
        requirements,
        title: String::from_str("Complete the migrated decomposition mapping"),
        details: String::from_str(
            "Replace this migration worksheet with explicit observable boundaries and endpoint mappings.",
        ),
        completion: PlanCompletion {
            outcome: String::new(),
            observation: String::new(),
            evidence_owner: work_owner_text(work_unit_id),
            evidence_kind: String::new(),
            gates: Vec::new(),
        },
        checklist: Vec::new(),
        slice: String::from_str("migration"),
    };
    let slice = PlanSlice {
        key: String::from_str("migration"),
        title: String::from_str("Migration reconciliation"),
        order: 1,
        depends_on: Vec::new(),
    };
    let mut items: Vec<PlanItem> = Vec::new();
    items.push(item);
    let mut slices: Vec<PlanSlice> = Vec::new();
    slices.push(slice);
    PlanDocument {
        record_type: String::from_str("decomposition_plan"),
        format: 1,
        key: String::from_str("migrated-work-").concat(i64_decimal(work_unit_id).as_str()),
        design_fingerprint: String::from_str(design_fingerprint),
        work: Some(work_unit_id),
        items,
        slices,
        reconciliation: None,
    }
}

pub open spec fn worksheet_intro() -> Seq<char> {
    "# Migrated Decomposition Plan\n\nComplete this project-owned worksheet, then use the exact `decomposition revise` or closure-bound `decomposition reconcile` action.\n\n```yaml agent-workbench\n"@
}

/// The worksheet's file content: a title and instructions, then the
/// serialized plan (which ends its own last line) in one fenced block.
pub open spec fn worksheet_content(yaml: Seq<char>) -> Seq<char> {
    worksheet_intro() + yaml + "```\n"@
}

pub fn migrated_plan_content(yaml: &str) -> (r: String)
    ensures
        r@ == worksheet_content(yaml@),
{
    String::from_str(
        "# Migrated Decomposition Plan\n\nComplete this project-owned worksheet, then use the exact `decomposition revise` or closure-bound `decomposition reconcile` action.\n\n```yaml agent-workbench\n",
    ).concat(yaml).concat("```\n")
}

/// Where a worksheet is written: its content's identity, its file name, and
/// the name of the temporary file it is first written to.
pub open spec fn worksheet_names(work_unit_id: i64, content: Seq<char>) -> (
    Seq<char>,
    Seq<char>,
    Seq<char>,
) {
    let id = identity_of(encode_utf8(content));
    let stem = "migrated-work-"@ + decimal(work_unit_id as int) + "-"@ + id.take(12);
    (id, stem + ".md"@, "."@ + stem + ".tmp"@)
}

pub fn migrated_plan_names(work_unit_id: i64, content: &str) -> (r: (String, String, String))
    ensures
        (r.0@, r.1@, r.2@) == worksheet_names(work_unit_id, content@),
{
    let mut buf: Vec<u8> = Vec::new();
    append_text(&mut buf, content);
    let id = identity(&buf);
    let head = id.as_str().substring_char(0, 12);
    let stem = String::from_str("migrated-work-").concat(i64_decimal(work_unit_id).as_str()).concat(
        "-",
    ).concat(head);
    let file = stem.clone().concat(".md");
    let temporary = String::from_str(".").concat(stem.as_str()).concat(".tmp");
    (id, file, temporary)
}

/// Whether a worksheet must still be written: yes when its path holds no
/// file; no when it holds the same content; refused when it holds other
/// content.
pub fn check_migrated_source(existing: Option<&str>, content: &str) -> (res: Result<
    bool,
    CompatibilityIssue,
>)
    ensures
        match existing {
            None => res == Ok::<bool, CompatibilityIssue>(true),
            Some(e) => if e@ == content@ {
                res == Ok::<bool, CompatibilityIssue>(false)
            } else {
                res == Err::<bool, CompatibilityIssue>(CompatibilityIssue::DifferentContent)
            },
        },
{
    match existing {
        None => Ok(true),
        Some(e) => if str_eq(e, content) {
            Ok(false)
        } else {
            Err(CompatibilityIssue::DifferentContent)
        },
    }
}

// ---- the migrated endpoints ----
/// The slices a migration records, one per source phase in order: its key
/// names the phase, its title is the phase's, its order counts from one.
pub fn migrated_slices(phases: &Vec<(i64, String)>) -> (r: Vec<(String, String, i64)>)
    requires
        phases@.len() < i64::MAX,
    ensures
        r@.len() == phases@.len(),
        forall|i: int|
            0 <= i < phases@.len() ==> (#[trigger] r@[i]).0@ == "source-phase-"@ + decimal(
                phases@[i].0 as int,
            ) && r@[i].1@ == phases@[i].1@ && r@[i].2 == i + 1,
{
    let mut out: Vec<(String, String, i64)> = Vec::new();
    let mut i: usize = 0;
    while i < phases.len()
        invariant
            i <= phases@.len() < i64::MAX,
            out@.len() == i,
            forall|k: int|
                0 <= k < i ==> (#[trigger] out@[k]).0@ == "source-phase-"@ + decimal(
                    phases@[k].0 as int,
                ) && out@[k].1@ == phases@[k].1@ && out@[k].2 == k + 1,
        decreases phases@.len() - i,
    {
        let key = String::from_str("source-phase-").concat(i64_decimal(phases[i].0).as_str());
        out.push((key, phases[i].1.clone(), (i + 1) as i64));
        i += 1;
    }
    out
}

/// The phases of a source task that the migration recorded as slices, in
/// order.
pub open spec fn available_phases(memberships: Seq<i64>, available: Seq<i64>) -> Seq<i64>
    decreases memberships.len(),
{
    if memberships.len() == 0 {
        Seq::empty()
    } else if available.contains(memberships.last()) {
        available_phases(memberships.drop_last(), available).push(memberships.last())
    } else {
        available_phases(memberships.drop_last(), available)
    }
}

fn contains_phase(v: &Vec<i64>, x: i64) -> (r: bool)
    ensures
        r == v@.contains(x),
{
    let mut i: usize = 0;
    while i < v.len()
        invariant
            i <= v@.len(),
            forall|k: int| 0 <= k < i ==> v@[k] != x,
        decreases v@.len() - i,
    {
        if v[i] == x {
            return true;
        }
        i += 1;
    }
    false
}

pub fn source_phase_ids(memberships: &Vec<i64>, available: &Vec<i64>) -> (r: Vec<i64>)
    ensures
        r@ == available_phases(memberships@, available@),
{
    let mut out: Vec<i64> = Vec::new();
    let mut i: usize = 0;
    while i < memberships.len()
        invariant
            i <= memberships@.len(),
            out@ == available_phases(memberships@.take(i as int), available@),
        decreases memberships@.len() - i,
    {
        assert(memberships@.take(i as int + 1).drop_last() =~= memberships@.take(i as int));
        assert(memberships@.take(i as int + 1).last() == memberships@[i as int]);
        if contains_phase(available, memberships[i]) {
            out.push(memberships[i]);
        }
        i += 1;
    }
    assert(memberships@.take(memberships@.len() as int) =~= memberships@);
    out
}

/// How exactly a migrated item maps its source task: ambiguous with several
/// source phases or checklist items, missing without either, exact
/// otherwise; with the issue an inexact mapping reports.
pub open spec fn spec_mapping_state(phases: nat, checklist: nat) -> (Seq<char>, Option<Seq<char>>) {
    if phases > 1 || checklist > 1 {
        ("ambiguous"@, Some("multiple source endpoints require an explicit item mapping"@))
    } else if phases == 0 || checklist == 0 {
        ("missing"@, Some("a required source endpoint has no exact mapping"@))
    } else {
        ("exact"@, None)
    }
}

pub fn migration_mapping_state(phases: usize, checklist: usize) -> (r: (
    &'static str,
    Option<&'static str>,
))
    ensures
        (r.0@, match r.1 {
            Some(s) => Some(s@),
            None => None,
        }) == spec_mapping_state(phases as nat, checklist as nat),
{
    if phases > 1 || checklist > 1 {
        ("ambiguous", Some("multiple source endpoints require an explicit item mapping"))
    } else if phases == 0 || checklist == 0 {
        ("missing", Some("a required source endpoint has no exact mapping"))
    } else {
        ("exact", None)
    }
}

/// A migrated item of a source task: its key, its evidence owner, and the
/// source phase it stays in when the task had exactly one.
pub fn migrated_item(work_unit_id: i64, task_id: i64, source_phases: &Vec<i64>) -> (r: (
    String,
    String,
    Option<i64>,
))
    ensures
        r.0@ == "source-task-"@ + decimal(task_id as int),
        r.1@ == work_owner(work_unit_id),
        r.2 == (if source_phases@.len() == 1 {
            Some(source_phases@[0])
        } else {
            None
        }),
{
    let phase = if source_phases.len() == 1 {
        Some(source_phases[0])
    } else {
        None
    };
    (
        String::from_str("source-task-").concat(i64_decimal(task_id).as_str()),
        work_owner_text(work_unit_id),
        phase,
    )
}

/// The key of the migrated boundary of a source checklist item.
pub fn migrated_boundary_key(checklist_item_id: i64) -> (r: String)
    ensures
        r@ == "source-checklist-"@ + decimal(checklist_item_id as int),
{
    String::from_str("source-checklist-").concat(i64_decimal(checklist_item_id).as_str())
}

} // verus!
