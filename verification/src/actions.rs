//! The next legal actions for a Decomposition Plan slot: import, validate,
//! revise, apply, reconcile or show, given the slot's current plan, its ready
//! successor, the plan files found in the package, and the review owner.

use vstd::prelude::*;

use crate::records::{
    DecompositionPlanCandidate, DecompositionPlanQuery, DecompositionPlanRecord,
    PlanReviewOwnerResolution, PlanReviewOwnerState,
};
use crate::order::text_views;
use crate::text::{decimal, digest_text, i64_decimal};

verus! {

/// A decomposition reconciliation target a pending correction token authorizes.
#[derive(Clone, Debug, PartialEq, Eq)]
pub struct ReconciliationTarget {
    pub design_version_id: i64,
    pub work_unit_id: i64,
    pub plan_path: String,
}

/// A pending decomposition reconciliation token of an active correction:
/// its closure and, when its target text could be read, the target.
#[derive(Clone, Debug, PartialEq, Eq)]
pub struct ReconciliationToken {
    pub closure_id: i64,
    pub target: Option<ReconciliationTarget>,
}

/// The actions offered for a slot, and whether the slot blocks its work.
#[derive(Clone, Debug, PartialEq, Eq)]
pub struct DecompositionActionResolution {
    pub actions: Vec<String>,
    pub blocks_work: bool,
}

pub open spec fn show_action(q: DecompositionPlanQuery) -> Seq<char> {
    "agent-workbench decomposition show --design-version "@ + decimal(q.design_version_id as int)
        + " --work "@ + decimal(q.work_unit_id as int)
}

pub open spec fn import_empty_action(q: DecompositionPlanQuery) -> Seq<char> {
    "agent-workbench decomposition import --design-version "@ + decimal(
        q.design_version_id as int,
    ) + " --work "@ + decimal(q.work_unit_id as int)
        + " --expected-current absent --idempotency-key import-empty-"@ + decimal(
        q.design_version_id as int,
    ) + "-"@ + decimal(q.work_unit_id as int)
}

pub open spec fn import_candidate_action(
    q: DecompositionPlanQuery,
    c: DecompositionPlanCandidate,
) -> Seq<char> {
    "agent-workbench decomposition import --design-version "@ + decimal(
        q.design_version_id as int,
    ) + " --work "@ + decimal(q.work_unit_id as int) + " --plan "@ + c.source_path@
        + " --expected-content "@ + c.ingress_identity@
        + " --expected-current absent --idempotency-key import-"@ + c.ingress_identity@.take(12)
}

pub open spec fn validate_action(p: DecompositionPlanRecord) -> Seq<char> {
    "agent-workbench decomposition validate "@ + decimal(p.id as int) + " --expected-current "@
        + p.current_identity@ + " --idempotency-key validate-"@ + decimal(p.id as int) + "-"@
        + decimal(p.revision as int)
}

pub open spec fn revise_owned_action(p: DecompositionPlanRecord) -> Seq<char> {
    "agent-workbench decomposition revise "@ + decimal(p.id as int) + " --expected-current "@
        + p.current_identity@ + " --idempotency-key revise-owned-"@ + decimal(p.id as int) + "-"@
        + decimal(p.revision as int)
}

pub open spec fn revise_candidate_action(
    p: DecompositionPlanRecord,
    c: DecompositionPlanCandidate,
) -> Seq<char> {
    "agent-workbench decomposition revise "@ + decimal(p.id as int) + " --plan "@
        + c.source_path@ + " --expected-content "@ + c.ingress_identity@
        + " --expected-current "@ + p.current_identity@ + " --idempotency-key revise-"@
        + decimal(p.id as int) + "-"@ + decimal(p.revision as int) + "-"@
        + c.ingress_identity@.take(12)
}

pub open spec fn apply_action(q: DecompositionPlanQuery) -> Seq<char> {
    "agent-workbench decomposition apply "@ + decimal(q.design_version_id as int) + " --work "@
        + decimal(q.work_unit_id as int)
}

pub open spec fn revise_successor_action(
    t: DecompositionPlanRecord,
    c: DecompositionPlanCandidate,
) -> Seq<char> {
    "agent-workbench decomposition revise "@ + decimal(t.id as int) + " --plan "@
        + c.source_path@ + " --expected-content "@ + c.ingress_identity@
        + " --expected-current "@ + t.current_identity@ + " --idempotency-key successor-"@
        + decimal(t.id as int) + "-"@ + decimal(t.revision as int) + "-"@
        + c.managed_content_identity@.take(12)
}

pub open spec fn reconcile_action(
    q: DecompositionPlanQuery,
    c: DecompositionPlanCandidate,
    closure_id: i64,
    p: DecompositionPlanRecord,
) -> Seq<char> {
    "agent-workbench decomposition reconcile "@ + decimal(q.design_version_id as int)
        + " --work "@ + decimal(q.work_unit_id as int) + " --plan "@ + c.source_path@
        + " --closure "@ + decimal(closure_id as int) + " --expected-current "@
        + p.current_identity@ + " --dry-run"@
}

pub open spec fn gate_action(q: DecompositionPlanQuery) -> Seq<char> {
    "agent-workbench gate implementation-ready --design-version "@ + decimal(
        q.design_version_id as int,
    )
}

pub open spec fn import_actions(q: DecompositionPlanQuery, cs: Seq<DecompositionPlanCandidate>) -> Seq<
    Seq<char>,
>
    decreases cs.len(),
{
    if cs.len() == 0 {
        Seq::empty()
    } else {
        import_actions(q, cs.drop_last()).push(import_candidate_action(q, cs.last()))
    }
}

pub open spec fn revise_actions(
    p: DecompositionPlanRecord,
    cs: Seq<DecompositionPlanCandidate>,
) -> Seq<Seq<char>>
    decreases cs.len(),
{
    if cs.len() == 0 {
        Seq::empty()
    } else {
        revise_actions(p, cs.drop_last()).push(revise_candidate_action(p, cs.last()))
    }
}

/// The candidate is the content of the current ready successor of `p`.
pub open spec fn is_current_successor(
    p: DecompositionPlanRecord,
    successor: Option<DecompositionPlanRecord>,
    c: DecompositionPlanCandidate,
) -> bool {
    successor matches Some(s) && s.predecessor_id == Some(p.id) && s.content_identity@
        == c.managed_content_identity@
}

/// A candidate offered as a successor of the applied plan `p`: ready, not
/// the applied content itself, and either the current successor or not a
/// superseded earlier revision.
pub open spec fn successor_candidate(
    q: DecompositionPlanQuery,
    p: DecompositionPlanRecord,
    successor: Option<DecompositionPlanRecord>,
    c: DecompositionPlanCandidate,
    historical: bool,
) -> bool {
    &&& c.structurally_ready
    &&& !(p.design_version_id == q.design_version_id && p.content_identity@
        == c.managed_content_identity@)
    &&& (is_current_successor(p, successor, c) || !historical)
}

pub open spec fn successor_candidates(
    q: DecompositionPlanQuery,
    p: DecompositionPlanRecord,
    successor: Option<DecompositionPlanRecord>,
    cs: Seq<DecompositionPlanCandidate>,
    historical: Seq<bool>,
) -> Seq<DecompositionPlanCandidate>
    decreases cs.len(),
{
    if cs.len() == 0 {
        Seq::empty()
    } else {
        let rest = successor_candidates(
            q,
            p,
            successor,
            cs.drop_last(),
            historical.take(cs.len() - 1),
        );
        if successor_candidate(q, p, successor, cs.last(), historical[cs.len() - 1]) {
            rest.push(cs.last())
        } else {
            rest
        }
    }
}

/// The token authorizes reconciling this candidate's path for the queried slot.
pub open spec fn token_authorizes(
    q: DecompositionPlanQuery,
    c: DecompositionPlanCandidate,
    t: ReconciliationToken,
) -> bool {
    t.target matches Some(target) && target.design_version_id == q.design_version_id
        && target.work_unit_id == q.work_unit_id && target.plan_path@ == c.source_path@
}

pub open spec fn reconcile_actions(
    q: DecompositionPlanQuery,
    p: DecompositionPlanRecord,
    c: DecompositionPlanCandidate,
    tokens: Seq<ReconciliationToken>,
) -> Seq<Seq<char>>
    decreases tokens.len(),
{
    if tokens.len() == 0 {
        Seq::empty()
    } else {
        let rest = reconcile_actions(q, p, c, tokens.drop_last());
        if token_authorizes(q, c, tokens.last()) {
            rest.push(reconcile_action(q, c, tokens.last().closure_id, p))
        } else {
            rest
        }
    }
}

pub open spec fn owner_accepted(owner: Option<PlanReviewOwnerResolution>) -> bool {
    owner matches Some(o) && o.state == PlanReviewOwnerState::AcceptedClean
}

/// The actions one successor candidate of the applied plan `p` calls for.
pub open spec fn successor_candidate_actions(
    q: DecompositionPlanQuery,
    p: DecompositionPlanRecord,
    successor: Option<DecompositionPlanRecord>,
    owner: Option<PlanReviewOwnerResolution>,
    tokens: Seq<ReconciliationToken>,
    c: DecompositionPlanCandidate,
) -> Seq<Seq<char>> {
    if !is_current_successor(p, successor, c) {
        let target = match successor {
            Some(s) => s,
            None => p,
        };
        seq![revise_successor_action(target, c)]
    } else if owner is Some && !owner_accepted(owner) {
        text_views(owner.unwrap().actions@)
    } else {
        reconcile_actions(q, p, c, tokens)
    }
}

pub open spec fn all_successor_actions(
    q: DecompositionPlanQuery,
    p: DecompositionPlanRecord,
    successor: Option<DecompositionPlanRecord>,
    owner: Option<PlanReviewOwnerResolution>,
    tokens: Seq<ReconciliationToken>,
    cs: Seq<DecompositionPlanCandidate>,
) -> Seq<Seq<char>>
    decreases cs.len(),
{
    if cs.len() == 0 {
        Seq::empty()
    } else {
        all_successor_actions(q, p, successor, owner, tokens, cs.drop_last())
            + successor_candidate_actions(q, p, successor, owner, tokens, cs.last())
    }
}

/// The actions and blocking of a slot, from its current plan's status.
pub open spec fn spec_decomposition_actions(
    q: DecompositionPlanQuery,
    current: Option<DecompositionPlanRecord>,
    successor: Option<DecompositionPlanRecord>,
    cs: Seq<DecompositionPlanCandidate>,
    owner: Option<PlanReviewOwnerResolution>,
    historical: Seq<bool>,
    tokens: Seq<ReconciliationToken>,
) -> (Seq<Seq<char>>, bool) {
    match current {
        None => if cs.len() == 0 {
            (seq![import_empty_action(q)], true)
        } else {
            (import_actions(q, cs), true)
        },
        Some(p) => if p.status@ == "draft"@ || p.status@ == "incomplete"@ {
            (seq![validate_action(p), revise_owned_action(p)] + revise_actions(p, cs), true)
        } else if p.status@ == "ready"@ {
            if owner_accepted(owner) {
                (seq![apply_action(q)], true)
            } else if owner is Some {
                (text_views(owner.unwrap().actions@), true)
            } else {
                (seq![show_action(q)], true)
            }
        } else if p.status@ == "applied"@ {
            let chosen = successor_candidates(q, p, successor, cs, historical);
            if chosen.len() > 0 {
                let actions = all_successor_actions(q, p, successor, owner, tokens, chosen);
                if actions.len() == 0 {
                    (seq![show_action(q)], true)
                } else {
                    (actions, true)
                }
            } else {
                let extra = if owner_accepted(owner) {
                    seq![gate_action(q)]
                } else if owner is Some {
                    text_views(owner.unwrap().actions@)
                } else {
                    Seq::empty()
                };
                (
                    seq![show_action(q)] + extra,
                    p.issue is Some || successor is Some || !owner_accepted(owner),
                )
            }
        } else {
            (seq![show_action(q)], true)
        },
    }
}

} // verus!

verus! {

fn cat(a: String, b: &str) -> (r: String)
    ensures
        r@ == a@ + b@,
{
    a.concat(b)
}

fn dec(x: i64) -> (r: String)
    ensures
        r@ == decimal(x as int),
{
    i64_decimal(x)
}

fn prefix12(s: &String) -> (r: &str)
    requires
        s@.len() >= 12,
    ensures
        r@ == s@.take(12),
{
    let p = s.as_str().substring_char(0, 12);
    assert(s@.subrange(0, 12) =~= s@.take(12));
    p
}

fn show(q: &DecompositionPlanQuery) -> (r: String)
    ensures
        r@ == show_action(*q),
{
    let r = String::from_str("agent-workbench decomposition show --design-version ");
    let r = cat(r, dec(q.design_version_id).as_str());
    let r = cat(r, " --work ");
    cat(r, dec(q.work_unit_id).as_str())
}

fn import_empty(q: &DecompositionPlanQuery) -> (r: String)
    ensures
        r@ == import_empty_action(*q),
{
    let r = String::from_str("agent-workbench decomposition import --design-version ");
    let r = cat(r, dec(q.design_version_id).as_str());
    let r = cat(r, " --work ");
    let r = cat(r, dec(q.work_unit_id).as_str());
    let r = cat(r, " --expected-current absent --idempotency-key import-empty-");
    let r = cat(r, dec(q.design_version_id).as_str());
    let r = cat(r, "-");
    cat(r, dec(q.work_unit_id).as_str())
}

fn import_candidate(q: &DecompositionPlanQuery, c: &DecompositionPlanCandidate) -> (r: String)
    requires
        digest_text(c.ingress_identity@),
    ensures
        r@ == import_candidate_action(*q, *c),
{
    let r = String::from_str("agent-workbench decomposition import --design-version ");
    let r = cat(r, dec(q.design_version_id).as_str());
    let r = cat(r, " --work ");
    let r = cat(r, dec(q.work_unit_id).as_str());
    let r = cat(r, " --plan ");
    let r = cat(r, c.source_path.as_str());
    let r = cat(r, " --expected-content ");
    let r = cat(r, c.ingress_identity.as_str());
    let r = cat(r, " --expected-current absent --idempotency-key import-");
    cat(r, prefix12(&c.ingress_identity))
}

fn validate_owned(p: &DecompositionPlanRecord) -> (r: String)
    ensures
        r@ == validate_action(*p),
{
    let r = String::from_str("agent-workbench decomposition validate ");
    let r = cat(r, dec(p.id).as_str());
    let r = cat(r, " --expected-current ");
    let r = cat(r, p.current_identity.as_str());
    let r = cat(r, " --idempotency-key validate-");
    let r = cat(r, dec(p.id).as_str());
    let r = cat(r, "-");
    cat(r, dec(p.revision).as_str())
}

fn revise_owned(p: &DecompositionPlanRecord) -> (r: String)
    ensures
        r@ == revise_owned_action(*p),
{
    let r = String::from_str("agent-workbench decomposition revise ");
    let r = cat(r, dec(p.id).as_str());
    let r = cat(r, " --expected-current ");
    let r = cat(r, p.current_identity.as_str());
    let r = cat(r, " --idempotency-key revise-owned-");
    let r = cat(r, dec(p.id).as_str());
    let r = cat(r, "-");
    cat(r, dec(p.revision).as_str())
}

fn revise_candidate(p: &DecompositionPlanRecord, c: &DecompositionPlanCandidate) -> (r: String)
    requires
        digest_text(c.ingress_identity@),
    ensures
        r@ == revise_candidate_action(*p, *c),
{
    let r = String::from_str("agent-workbench decomposition revise ");
    let r = cat(r, dec(p.id).as_str());
    let r = cat(r, " --plan ");
    let r = cat(r, c.source_path.as_str());
    let r = cat(r, " --expected-content ");
    let r = cat(r, c.ingress_identity.as_str());
    let r = cat(r, " --expected-current ");
    let r = cat(r, p.current_identity.as_str());
    let r = cat(r, " --idempotency-key revise-");
    let r = cat(r, dec(p.id).as_str());
    let r = cat(r, "-");
    let r = cat(r, dec(p.revision).as_str());
    let r = cat(r, "-");
    cat(r, prefix12(&c.ingress_identity))
}

fn apply(q: &DecompositionPlanQuery) -> (r: String)
    ensures
        r@ == apply_action(*q),
{
    let r = String::from_str("agent-workbench decomposition apply ");
    let r = cat(r, dec(q.design_version_id).as_str());
    let r = cat(r, " --work ");
    cat(r, dec(q.work_unit_id).as_str())
}

fn revise_successor(t: &DecompositionPlanRecord, c: &DecompositionPlanCandidate) -> (r: String)
    requires
        digest_text(c.managed_content_identity@),
    ensures
        r@ == revise_successor_action(*t, *c),
{
    let r = String::from_str("agent-workbench decomposition revise ");
    let r = cat(r, dec(t.id).as_str());
    let r = cat(r, " --plan ");
    let r = cat(r, c.source_path.as_str());
    let r = cat(r, " --expected-content ");
    let r = cat(r, c.ingress_identity.as_str());
    let r = cat(r, " --expected-current ");
    let r = cat(r, t.current_identity.as_str());
    let r = cat(r, " --idempotency-key successor-");
    let r = cat(r, dec(t.id).as_str());
    let r = cat(r, "-");
    let r = cat(r, dec(t.revision).as_str());
    let r = cat(r, "-");
    cat(r, prefix12(&c.managed_content_identity))
}

fn reconcile(
    q: &DecompositionPlanQuery,
    c: &DecompositionPlanCandidate,
    closure_id: i64,
    p: &DecompositionPlanRecord,
) -> (r: String)
    ensures
        r@ == reconcile_action(*q, *c, closure_id, *p),
{
    let r = String::from_str("agent-workbench decomposition reconcile ");
    let r = cat(r, dec(q.design_version_id).as_str());
    let r = cat(r, " --work ");
    let r = cat(r, dec(q.work_unit_id).as_str());
    let r = cat(r, " --plan ");
    let r = cat(r, c.source_path.as_str());
    let r = cat(r, " --closure ");
    let r = cat(r, dec(closure_id).as_str());
    let r = cat(r, " --expected-current ");
    let r = cat(r, p.current_identity.as_str());
    cat(r, " --dry-run")
}

fn gate(q: &DecompositionPlanQuery) -> (r: String)
    ensures
        r@ == gate_action(*q),
{
    let r = String::from_str("agent-workbench gate implementation-ready --design-version ");
    cat(r, dec(q.design_version_id).as_str())
}

/// Appends a copy of each string.
fn extend_strings(out: &mut Vec<String>, more: &Vec<String>)
    ensures
        text_views(final(out)@) == text_views(old(out)@) + text_views(more@),
{
    let mut i: usize = 0;
    while i < more.len()
        invariant
            i <= more@.len(),
            text_views(out@) == text_views(old(out)@) + text_views(more@.take(i as int)),
        decreases more@.len() - i,
    {
        let ghost prev = out@;
        let copy = more[i].clone();
        out.push(copy);
        assert(text_views(out@) =~= text_views(prev).push(more@[i as int]@));
        assert(more@.take(i as int + 1) =~= more@.take(i as int).push(more@[i as int]));
        assert(text_views(more@.take(i as int + 1)) =~= text_views(more@.take(i as int)).push(
            more@[i as int]@,
        ));
        assert(text_views(out@) =~= text_views(old(out)@) + text_views(more@.take(i as int + 1)));
        i += 1;
    }
    assert(more@.take(more@.len() as int) =~= more@);
}

} // verus!

verus! {

pub open spec fn candidates_ready(cs: Seq<DecompositionPlanCandidate>) -> bool {
    forall|i: int|
        0 <= i < cs.len() ==> digest_text((#[trigger] cs[i]).ingress_identity@) && digest_text(
            cs[i].managed_content_identity@,
        )
}

fn current_successor(
    p: &DecompositionPlanRecord,
    successor: &Option<DecompositionPlanRecord>,
    c: &DecompositionPlanCandidate,
) -> (r: bool)
    ensures
        r == is_current_successor(*p, *successor, *c),
{
    match successor {
        Some(s) => s.predecessor_id == Some(p.id) && s.content_identity
            == c.managed_content_identity,
        None => false,
    }
}

fn accepted(owner: &Option<PlanReviewOwnerResolution>) -> (r: bool)
    ensures
        r == owner_accepted(*owner),
{
    match owner {
        Some(o) => match o.state {
            PlanReviewOwnerState::AcceptedClean => true,
            _ => false,
        },
        None => false,
    }
}

fn push_reconcile_actions(
    out: &mut Vec<String>,
    q: &DecompositionPlanQuery,
    p: &DecompositionPlanRecord,
    c: &DecompositionPlanCandidate,
    tokens: &Vec<ReconciliationToken>,
)
    ensures
        text_views(final(out)@) == text_views(old(out)@) + reconcile_actions(*q, *p, *c, tokens@),
{
    let mut i: usize = 0;
    while i < tokens.len()
        invariant
            i <= tokens@.len(),
            text_views(out@) == text_views(old(out)@) + reconcile_actions(
                *q,
                *p,
                *c,
                tokens@.take(i as int),
            ),
        decreases tokens@.len() - i,
    {
        let t = &tokens[i];
        assert(tokens@.take(i as int + 1).drop_last() =~= tokens@.take(i as int));
        let ghost prev = out@;
        match &t.target {
            Some(target) => {
                if target.design_version_id == q.design_version_id && target.work_unit_id
                    == q.work_unit_id && target.plan_path == c.source_path {
                    out.push(reconcile(q, c, t.closure_id, p));
                    assert(text_views(out@) =~= text_views(prev).push(
                        reconcile_action(*q, *c, t.closure_id, *p),
                    ));
                }
            },
            None => {},
        }
        i += 1;
    }
    assert(tokens@.take(tokens@.len() as int) =~= tokens@);
}

fn push_successor_candidate_actions(
    out: &mut Vec<String>,
    q: &DecompositionPlanQuery,
    p: &DecompositionPlanRecord,
    successor: &Option<DecompositionPlanRecord>,
    owner: &Option<PlanReviewOwnerResolution>,
    tokens: &Vec<ReconciliationToken>,
    c: &DecompositionPlanCandidate,
)
    requires
        digest_text(c.managed_content_identity@),
    ensures
        text_views(final(out)@) == text_views(old(out)@) + successor_candidate_actions(
            *q,
            *p,
            *successor,
            *owner,
            tokens@,
            *c,
        ),
{
    if !current_successor(p, successor, c) {
        let action = match successor {
            Some(s) => revise_successor(s, c),
            None => revise_successor(p, c),
        };
        let ghost prev = out@;
        out.push(action);
        assert(text_views(out@) =~= text_views(prev).push(action@));
        return ;
    }
    match owner {
        Some(o) => {
            if !accepted(owner) {
                extend_strings(out, &o.actions);
                return ;
            }
        },
        None => {},
    }
    push_reconcile_actions(out, q, p, c, tokens);
}

proof fn lemma_ready_is_not_editable()
    ensures
        "ready"@ != "draft"@,
        "ready"@ != "incomplete"@,
{
    reveal_strlit("ready");
    reveal_strlit("draft");
    reveal_strlit("incomplete");
    assert("ready"@[0] != "draft"@[0]);
    assert("ready"@[0] != "incomplete"@[0]);
}

/// The next legal actions for a Decomposition Plan slot and whether the slot
/// blocks its work. `historical` tells, per candidate, whether its content
/// is that of a superseded plan of the same slot; `tokens` are the pending
/// decomposition reconciliation tokens of active corrections.
pub fn decomposition_actions(
    query: &DecompositionPlanQuery,
    current: &Option<DecompositionPlanRecord>,
    successor: &Option<DecompositionPlanRecord>,
    candidates: &Vec<DecompositionPlanCandidate>,
    review_owner: &Option<PlanReviewOwnerResolution>,
    historical: &Vec<bool>,
    tokens: &Vec<ReconciliationToken>,
) -> (res: DecompositionActionResolution)
    requires
        historical@.len() == candidates@.len(),
        candidates_ready(candidates@),
    ensures
        (text_views(res.actions@), res.blocks_work) == spec_decomposition_actions(
            *query,
            *current,
            *successor,
            candidates@,
            *review_owner,
            historical@,
            tokens@,
        ),
        current is None && candidates@.len() == 0 ==> (text_views(res.actions@) == seq![
            "agent-workbench decomposition import --design-version "@ + decimal(
                query.design_version_id as int,
            ) + " --work "@ + decimal(query.work_unit_id as int)
                + " --expected-current absent --idempotency-key import-empty-"@ + decimal(
                query.design_version_id as int,
            ) + "-"@ + decimal(query.work_unit_id as int),
        ] && res.blocks_work),
        current is None ==> res.blocks_work,
        current is Some && current->0.status@ == "ready"@ ==> (res.blocks_work && (match review_owner {
            Some(o) => o.state != PlanReviewOwnerState::AcceptedClean ==> text_views(res.actions@)
                == text_views(o.actions@),
            None => text_views(res.actions@) == seq![
                "agent-workbench decomposition show --design-version "@ + decimal(
                    query.design_version_id as int,
                ) + " --work "@ + decimal(query.work_unit_id as int),
            ],
        })),
        match (current, review_owner) {
            (Some(p), Some(o)) => (p.status@ == "ready"@ && o.state
                == PlanReviewOwnerState::AcceptedClean) ==> (text_views(res.actions@) == seq![
                "agent-workbench decomposition apply "@ + decimal(query.design_version_id as int)
                    + " --work "@ + decimal(query.work_unit_id as int),
            ] && res.blocks_work),
            _ => true,
        },
{
    proof {
        lemma_ready_is_not_editable();
    }
    let mut actions: Vec<String> = Vec::new();
    let plan = match current {
        None => {
            if candidates.len() == 0 {
                actions.push(import_empty(query));
                assert(text_views(actions@) =~= seq![import_empty_action(*query)]);
                return DecompositionActionResolution { actions, blocks_work: true };
            }
            let mut i: usize = 0;
            while i < candidates.len()
                invariant
                    i <= candidates@.len(),
                    candidates_ready(candidates@),
                    text_views(actions@) == import_actions(*query, candidates@.take(i as int)),
                decreases candidates@.len() - i,
            {
                let ghost prev = actions@;
                actions.push(import_candidate(query, &candidates[i]));
                assert(candidates@.take(i as int + 1).drop_last() =~= candidates@.take(i as int));
                assert(text_views(actions@) =~= text_views(prev).push(
                    import_candidate_action(*query, candidates@[i as int]),
                ));
                i += 1;
            }
            assert(candidates@.take(candidates@.len() as int) =~= candidates@);
            return DecompositionActionResolution { actions, blocks_work: true };
        },
        Some(plan) => plan,
    };
    let status = plan.status.as_str();
    if crate::text::str_eq(status, "draft") || crate::text::str_eq(status, "incomplete") {
        actions.push(validate_owned(plan));
        actions.push(revise_owned(plan));
        assert(text_views(actions@) =~= seq![validate_action(*plan), revise_owned_action(*plan)]);
        let mut i: usize = 0;
        while i < candidates.len()
            invariant
                i <= candidates@.len(),
                candidates_ready(candidates@),
                text_views(actions@) == seq![validate_action(*plan), revise_owned_action(*plan)]
                    + revise_actions(*plan, candidates@.take(i as int)),
            decreases candidates@.len() - i,
        {
            let ghost prev = actions@;
            actions.push(revise_candidate(plan, &candidates[i]));
            assert(candidates@.take(i as int + 1).drop_last() =~= candidates@.take(i as int));
            assert(text_views(actions@) =~= text_views(prev).push(
                revise_candidate_action(*plan, candidates@[i as int]),
            ));
            i += 1;
        }
        assert(candidates@.take(candidates@.len() as int) =~= candidates@);
        return DecompositionActionResolution { actions, blocks_work: true };
    }
    if crate::text::str_eq(status, "ready") {
        if accepted(review_owner) {
            actions.push(apply(query));
            assert(text_views(actions@) =~= seq![apply_action(*query)]);
        } else {
            match review_owner {
                Some(o) => {
                    extend_strings(&mut actions, &o.actions);
                    assert(text_views(actions@) =~= text_views(o.actions@));
                },
                None => {
                    actions.push(show(query));
                    assert(text_views(actions@) =~= seq![show_action(*query)]);
                },
            }
        }
        return DecompositionActionResolution { actions, blocks_work: true };
    }
    if !crate::text::str_eq(status, "applied") {
        actions.push(show(query));
        assert(text_views(actions@) =~= seq![show_action(*query)]);
        return DecompositionActionResolution { actions, blocks_work: true };
    }
    let mut chosen: Vec<usize> = Vec::new();
    let mut i: usize = 0;
    while i < candidates.len()
        invariant
            i <= candidates@.len(),
            historical@.len() == candidates@.len(),
            forall|k: int| 0 <= k < chosen@.len() ==> #[trigger] chosen@[k] < i,
            chosen@.map_values(|k: usize| candidates@[k as int]) == successor_candidates(
                *query,
                *plan,
                *successor,
                candidates@.take(i as int),
                historical@.take(i as int),
            ),
        decreases candidates@.len() - i,
    {
        let c = &candidates[i];
        let is_successor = current_successor(plan, successor, c);
        let keep = c.structurally_ready && !(plan.design_version_id == query.design_version_id
            && plan.content_identity == c.managed_content_identity) && (is_successor
            || !historical[i]);
        assert(candidates@.take(i as int + 1).drop_last() =~= candidates@.take(i as int));
        assert(historical@.take(i as int + 1).take(i as int) =~= historical@.take(i as int));
        let ghost prev = chosen@;
        if keep {
            chosen.push(i);
            assert(chosen@.map_values(|k: usize| candidates@[k as int]) =~= prev.map_values(
                |k: usize| candidates@[k as int],
            ).push(candidates@[i as int]));
        }
        i += 1;
    }
    assert(candidates@.take(candidates@.len() as int) =~= candidates@);
    assert(historical@.take(historical@.len() as int) =~= historical@);
    let ghost picked = chosen@.map_values(|k: usize| candidates@[k as int]);
    if chosen.len() > 0 {
        let mut j: usize = 0;
        while j < chosen.len()
            invariant
                j <= chosen@.len(),
                candidates_ready(candidates@),
                forall|k: int| 0 <= k < chosen@.len() ==> #[trigger] chosen@[k] < candidates@.len(),
                picked == chosen@.map_values(|k: usize| candidates@[k as int]),
                text_views(actions@) == all_successor_actions(
                    *query,
                    *plan,
                    *successor,
                    *review_owner,
                    tokens@,
                    picked.take(j as int),
                ),
            decreases chosen@.len() - j,
        {
            let c = &candidates[chosen[j]];
            assert(picked.take(j as int + 1).drop_last() =~= picked.take(j as int));
            assert(picked[j as int] == *c);
            push_successor_candidate_actions(
                &mut actions,
                query,
                plan,
                successor,
                review_owner,
                tokens,
                c,
            );
            j += 1;
        }
        assert(picked.take(picked.len() as int) =~= picked);
        if actions.len() == 0 {
            actions.push(show(query));
            assert(text_views(actions@) =~= seq![show_action(*query)]);
        }
        return DecompositionActionResolution { actions, blocks_work: true };
    }
    actions.push(show(query));
    let exact_review_accepted = accepted(review_owner);
    if exact_review_accepted {
        actions.push(gate(query));
        assert(text_views(actions@) =~= seq![show_action(*query)] + seq![gate_action(*query)]);
    } else {
        match review_owner {
            Some(o) => {
                extend_strings(&mut actions, &o.actions);
            },
            None => {
                assert(text_views(actions@) =~= seq![show_action(*query)] + Seq::empty());
            },
        }
    }
    let blocks_work = plan.issue.is_some() || successor.is_some() || !exact_review_accepted;
    DecompositionActionResolution { actions, blocks_work }
}

} // verus!
