//! Installing discovered plan files into the ledger: the status a plan
//! starts in, its key, the work it binds, the gates each item stores, and the
//! gaps an incomplete plan reports.

use vstd::prelude::*;

use crate::document::{PlanDocument, PlanItem};
use crate::order::{sorted_text_set, strictly_sorted, text_views};
use crate::records::DecompositionGapRecord;
use crate::text::{spec_parse_i64, str_eq};

verus! {

pub open spec fn install_issue_text(has_document: bool, work_unit_id: Option<i64>, has_derived_state: bool) -> Option<
    Seq<char>,
> {
    if !has_document {
        Some("formal decomposition plan metadata is required"@)
    } else if work_unit_id is None {
        Some("one exact work owner must be selected before application"@)
    } else if has_derived_state {
        Some("existing decomposition requires an explicit total item mapping"@)
    } else {
        None
    }
}

/// The status a discovered plan is installed with, and why it is not ready:
/// it needs metadata, one work owner, and no derived state of that work to
/// map.
pub fn install_status(has_document: bool, work_unit_id: Option<i64>, has_derived_state: bool) -> (r: (
    &'static str,
    Option<&'static str>,
))
    ensures
        match install_issue_text(has_document, work_unit_id, has_derived_state) {
            Some(issue) => r.0@ == "incomplete"@ && r.1 is Some && r.1->0@ == issue,
            None => r.0@ == "ready"@ && r.1 is None,
        },
{
    if !has_document {
        ("incomplete", Some("formal decomposition plan metadata is required"))
    } else if work_unit_id.is_none() {
        ("incomplete", Some("one exact work owner must be selected before application"))
    } else if has_derived_state {
        ("incomplete", Some("existing decomposition requires an explicit total item mapping"))
    } else {
        ("ready", None)
    }
}

/// The key a discovered plan is stored under: its document's key, or for a
/// plan file without metadata one made from its source identity.
pub fn installed_plan_key(document_key: Option<&str>, source_identity: &str) -> (r: String)
    requires
        document_key is None ==> source_identity@.len() >= 12 && forall|i: int|
            0 <= i < 12 ==> (source_identity@[i] as u32) < 128,
    ensures
        match document_key {
            Some(k) => r@ == k@,
            None => r@ == "legacy-document-"@ + source_identity@.take(12),
        },
{
    match document_key {
        Some(k) => String::from_str(k),
        None => {
            let head = source_identity.substring_char(0, 12);
            assert(source_identity@.subrange(0, 12) =~= source_identity@.take(12));
            String::from_str("legacy-document-").concat(head)
        },
    }
}

/// The gates an item stores: those of its completion and of its checklist
/// boundaries, each once, in order.
pub open spec fn item_gate(item: PlanItem, g: Seq<char>) -> bool {
    text_views(item.completion.gates@).contains(g) || exists|b: int|
        0 <= b < item.checklist@.len() && text_views((#[trigger] item.checklist@[b]).gates@).contains(
            g,
        )
}

pub fn item_gate_keys(item: &PlanItem) -> (r: Vec<String>)
    ensures
        strictly_sorted(text_views(r@)),
        forall|g: Seq<char>| text_views(r@).contains(g) <==> item_gate(*item, g),
{
    let mut all: Vec<String> = Vec::new();
    let mut i: usize = 0;
    while i < item.completion.gates.len()
        invariant
            i <= item.completion.gates@.len(),
            text_views(all@) == text_views(item.completion.gates@.take(i as int)),
        decreases item.completion.gates@.len() - i,
    {
        let ghost before = all@;
        all.push(item.completion.gates[i].clone());
        assert(item.completion.gates@.take(i as int + 1) =~= item.completion.gates@.take(i as int).push(
            item.completion.gates@[i as int],
        ));
        assert(text_views(all@) =~= text_views(before).push(item.completion.gates@[i as int]@));
        assert(text_views(all@) =~= text_views(item.completion.gates@.take(i as int + 1)));
        i += 1;
    }
    assert(item.completion.gates@.take(item.completion.gates@.len() as int) =~= item.completion.gates@);
    let mut b: usize = 0;
    while b < item.checklist.len()
        invariant
            b <= item.checklist@.len(),
            forall|g: Seq<char>|
                text_views(all@).contains(g) <==> (text_views(item.completion.gates@).contains(g)
                    || exists|k: int|
                    0 <= k < b && text_views((#[trigger] item.checklist@[k]).gates@).contains(g)),
        decreases item.checklist@.len() - b,
    {
        let gates = &item.checklist[b].gates;
        let mut j: usize = 0;
        while j < gates.len()
            invariant
                b < item.checklist@.len(),
                *gates == item.checklist@[b as int].gates,
                j <= gates@.len(),
                forall|g: Seq<char>|
                    text_views(all@).contains(g) <==> (text_views(item.completion.gates@).contains(g)
                        || (exists|k: int|
                        0 <= k < b && text_views((#[trigger] item.checklist@[k]).gates@).contains(g))
                        || text_views(gates@.take(j as int)).contains(g)),
            decreases gates@.len() - j,
        {
            let ghost before = all@;
            all.push(gates[j].clone());
            proof {
                crate::successor::lemma_push_contains(before, all@.last(), all@);
                assert(gates@.take(j as int + 1) =~= gates@.take(j as int).push(gates@[j as int]));
                crate::successor::lemma_push_contains(
                    gates@.take(j as int),
                    gates@[j as int],
                    gates@.take(j as int + 1),
                );
            }
            j += 1;
        }
        proof {
            assert(gates@.take(gates@.len() as int) =~= gates@);
            assert forall|g: Seq<char>|
                text_views(all@).contains(g) <==> (text_views(item.completion.gates@).contains(g)
                    || exists|k: int|
                    0 <= k < b + 1 && text_views((#[trigger] item.checklist@[k]).gates@).contains(
                        g,
                    )) by {
                if exists|k: int|
                    0 <= k < b + 1 && text_views((#[trigger] item.checklist@[k]).gates@).contains(g) {
                    let k = choose|k: int|
                        0 <= k < b + 1 && text_views((#[trigger] item.checklist@[k]).gates@).contains(
                            g,
                        );
                    if k < b {
                        assert(exists|kk: int|
                            0 <= kk < b && text_views((#[trigger] item.checklist@[kk]).gates@).contains(
                                g,
                            ));
                    }
                }
                if text_views(gates@).contains(g) {
                    assert(text_views(item.checklist@[b as int].gates@).contains(g));
                }
            }
        }
        b += 1;
    }
    sorted_text_set(&all)
}

/// The work a plan binds, before the ledger confirms that work is open: the
/// document's work when it names a positive one; otherwise the work that
/// every item's evidence owner names as `work:<id>`.
pub enum WorkCandidate {
    Unbound,
    Check(i64),
}

/// All items name the same evidence owner, and there is at least one.
pub open spec fn single_owner(items: Seq<PlanItem>) -> bool {
    items.len() > 0 && forall|i: int|
        0 <= i < items.len() ==> (#[trigger] items[i]).completion.evidence_owner@
            == items[0].completion.evidence_owner@
}

pub open spec fn owner_work(owner: Seq<char>) -> Option<i64> {
    if "work:"@.is_prefix_of(owner) {
        spec_parse_i64(owner.skip(5))
    } else {
        None
    }
}

pub open spec fn spec_work_candidate(p: PlanDocument) -> Option<i64> {
    match p.work {
        Some(w) => if w <= 0 {
            None
        } else {
            Some(w)
        },
        None => if single_owner(p.items@) {
            owner_work(p.items@[0].completion.evidence_owner@)
        } else {
            None
        },
    }
}

pub fn work_candidate(p: &PlanDocument) -> (r: WorkCandidate)
    ensures
        match spec_work_candidate(*p) {
            Some(w) => r == WorkCandidate::Check(w),
            None => r == WorkCandidate::Unbound,
        },
{
    if let Some(w) = p.work {
        if w <= 0 {
            return WorkCandidate::Unbound;
        }
        return WorkCandidate::Check(w);
    }
    if p.items.len() == 0 {
        return WorkCandidate::Unbound;
    }
    let first = p.items[0].completion.evidence_owner.as_str();
    let mut i: usize = 1;
    while i < p.items.len()
        invariant
            p.work is None,
            1 <= i <= p.items@.len(),
            first@ == p.items@[0].completion.evidence_owner@,
            forall|k: int|
                0 <= k < i ==> (#[trigger] p.items@[k]).completion.evidence_owner@
                    == p.items@[0].completion.evidence_owner@,
        decreases p.items@.len() - i,
    {
        if !str_eq(p.items[i].completion.evidence_owner.as_str(), first) {
            assert(!single_owner(p.items@)) by {
                assert(p.items@[i as int].completion.evidence_owner@
                    != p.items@[0].completion.evidence_owner@);
            }
            return WorkCandidate::Unbound;
        }
        i += 1;
    }
    if !crate::projection::text_starts_with(first, "work:") {
        proof {
            reveal_strlit("work:");
        }
        return WorkCandidate::Unbound;
    }
    proof {
        reveal_strlit("work:");
    }
    let rest = first.substring_char(5, first.unicode_len());
    assert(rest@ =~= first@.skip(5));
    match crate::text::parse_i64(rest) {
        Some(v) => WorkCandidate::Check(v),
        None => WorkCandidate::Unbound,
    }
}

pub open spec fn gap_view(g: DecompositionGapRecord) -> (Seq<char>, Seq<char>) {
    (g.endpoint@, g.issue@)
}

pub open spec fn gap_views(s: Seq<DecompositionGapRecord>) -> Seq<(Seq<char>, Seq<char>)> {
    s.map_values(|g: DecompositionGapRecord| gap_view(g))
}

pub open spec fn gaps_of(prefix: Seq<char>, ids: Seq<String>, issue: Seq<char>) -> Seq<(Seq<char>, Seq<char>)> {
    ids.map_values(|id: String| (prefix + id@, issue))
}

/// The gaps an incomplete plan reports: each unmapped task, checklist item,
/// validation gate, phase and phase dependency of the work, with what
/// mapping it needs; none for a plan in any other status.
pub open spec fn spec_gaps(
    status: Seq<char>,
    tasks: Seq<String>,
    checklist: Seq<String>,
    gates: Seq<String>,
    phases: Seq<String>,
    dependencies: Seq<String>,
) -> Seq<(Seq<char>, Seq<char>)> {
    if status != "incomplete"@ {
        Seq::empty()
    } else {
        gaps_of("task:"@, tasks, "explicit item mapping required"@) + gaps_of(
            "checklist-item:"@,
            checklist,
            "explicit checklist-boundary mapping required"@,
        ) + gaps_of("validation-gate:"@, gates, "explicit item-gate mapping required"@) + gaps_of(
            "phase:"@,
            phases,
            "explicit slice mapping required"@,
        ) + gaps_of(
            "phase-dependency:"@,
            dependencies,
            "explicit slice-dependency mapping required"@,
        )
    }
}

fn push_gaps(out: &mut Vec<DecompositionGapRecord>, prefix: &str, ids: &Vec<String>, issue: &str)
    ensures
        gap_views(final(out)@) == gap_views(old(out)@) + gaps_of(prefix@, ids@, issue@),
{
    let ghost start = gap_views(out@);
    let mut i: usize = 0;
    while i < ids.len()
        invariant
            i <= ids@.len(),
            gap_views(out@) == start + gaps_of(prefix@, ids@.take(i as int), issue@),
        decreases ids@.len() - i,
    {
        let ghost before = gap_views(out@);
        out.push(
            DecompositionGapRecord {
                endpoint: String::from_str(prefix).concat(ids[i].as_str()),
                issue: String::from_str(issue),
            },
        );
        assert(gaps_of(prefix@, ids@.take(i as int + 1), issue@) =~= gaps_of(
            prefix@,
            ids@.take(i as int),
            issue@,
        ).push((prefix@ + ids@[i as int]@, issue@)));
        assert(gap_views(out@) =~= before.push((prefix@ + ids@[i as int]@, issue@)));
        i += 1;
    }
    assert(ids@.take(ids@.len() as int) =~= ids@);
}

/// The gaps a stored plan reports; the lists hold the ids of the work's
/// unmapped endpoints.
pub fn decomposition_gaps(
    status: &str,
    tasks: &Vec<String>,
    checklist: &Vec<String>,
    gates: &Vec<String>,
    phases: &Vec<String>,
    dependencies: &Vec<String>,
) -> (r: Vec<DecompositionGapRecord>)
    ensures
        gap_views(r@) == spec_gaps(status@, tasks@, checklist@, gates@, phases@, dependencies@),
{
    let mut out: Vec<DecompositionGapRecord> = Vec::new();
    if !str_eq(status, "incomplete") {
        assert(gap_views(out@) =~= Seq::<(Seq<char>, Seq<char>)>::empty());
        return out;
    }
    assert(gap_views(out@) =~= Seq::<(Seq<char>, Seq<char>)>::empty());
    push_gaps(&mut out, "task:", tasks, "explicit item mapping required");
    push_gaps(&mut out, "checklist-item:", checklist, "explicit checklist-boundary mapping required");
    push_gaps(&mut out, "validation-gate:", gates, "explicit item-gate mapping required");
    push_gaps(&mut out, "phase:", phases, "explicit slice mapping required");
    push_gaps(&mut out, "phase-dependency:", dependencies, "explicit slice-dependency mapping required");
    assert(gap_views(out@) =~= spec_gaps(status@, tasks@, checklist@, gates@, phases@, dependencies@));
    out
}

} // verus!
