//! How a reconciliation request is resolved: the recorded outcome of a retry,
//! a refusal from the first check that fails, or a pending reconciliation
//! with its projection. The ledger's answers come in as facts; the order of
//! the checks and what each decides are here.

use vstd::prelude::*;

use crate::actions::ReconciliationTarget;
use crate::document::PlanDocument;
use crate::issue::{Field, PlanIssue};
use crate::path::{path_components, same_path};
use crate::projection::projection_spec;
use crate::reconciliation::{
    check_correction_review_owner, check_reconciliation_owner, check_reconciliation_retry,
    check_staged_successor, reconciliation_correction_handle, require_reconciliation_expected_current,
    require_reconciliation_observation, spec_correction_handle, spec_retry, spec_shell_operand,
    spec_staged_successor, spec_token_target, validate_reconciliation_token_target,
    DecompositionReconciliationResolution, PendingDecompositionReconciliation,
    RecordedReconciliation, ReconciliationIssue,
};
use crate::records::{
    DecompositionReconciliationApplication, DecompositionReconciliationOutcome,
    DecompositionReconciliationProjection, DecompositionSharedBindingRecord,
    PlanReviewOwnerResolution,
};
use crate::scope::{
    spec_scope, validate_reconciliation_scope, RelationFacts, ScopeDomains, ScopeIssue,
};
use crate::successor::{
    successor_answer, successor_inputs_ready, successor_valid, validate_reconciliation_successor,
    SuccessorFacts,
};

verus! {

/// The next pending reconciliation token of the active correction on the
/// closure, with the review owner of the finding it corrects.
pub struct PendingToken {
    pub session_id: i64,
    pub token_id: i64,
    pub token_ordinal: i64,
    pub operation: String,
    pub target: String,
    pub parsed_target: Option<ReconciliationTarget>,
    pub review_work: i64,
    pub review_design: Option<i64>,
}

/// What the ledger and the plan file say about a reconciliation request:
/// the plan file's source and payload identity, the application already
/// recorded for the closure and source (with its outcome), the design version
/// the plan's fingerprint resolves to and the work it binds, the selected
/// package's root and the plan's design root, the pending token, the refusal
/// of the file surface check (none when the surface is allowed), whether the
/// review design accepts the selected design version, the predecessor's work
/// and status as found in the package, its current identity, endpoints and
/// relation facts, the facts of the successor check, the review owner of the
/// staged successor (none when none was staged), and the inputs of the
/// projection.
pub struct ReconciliationFacts {
    pub source_path: String,
    pub source_identity: String,
    pub payload_identity: String,
    pub recorded: Option<(RecordedReconciliation, DecompositionReconciliationOutcome)>,
    pub resolved_design_version_id: i64,
    pub work_binding: Option<i64>,
    pub package_root: String,
    pub design_root: String,
    pub token: Option<PendingToken>,
    pub surface: Option<String>,
    pub review_design_accepts: bool,
    pub predecessor: Option<(i64, String)>,
    pub current_identity: String,
    pub domains: ScopeDomains,
    pub relations: RelationFacts,
    pub successor: SuccessorFacts,
    pub staged_owner: Option<PlanReviewOwnerResolution>,
    pub gate_boundaries: Vec<Option<String>>,
    pub source_shared: Vec<DecompositionSharedBindingRecord>,
    pub preserves: Vec<bool>,
}

/// Why a reconciliation request is refused.
#[derive(Clone, Debug, PartialEq, Eq)]
pub enum ResolutionIssue {
    Reconciliation(ReconciliationIssue),
    Scope(ScopeIssue),
    OutsidePackage,
    NoPendingToken,
    FileSurface(String),
}

impl ResolutionIssue {
    pub fn message(&self) -> (res: String)
        ensures
            match self {
                ResolutionIssue::Reconciliation(e) => res@
                    == crate::reconciliation::reconciliation_issue_text(*e),
                ResolutionIssue::Scope(e) => res@ == crate::scope::scope_issue_text(*e),
                ResolutionIssue::OutsidePackage => res@
                    == "Decomposition Plan must belong to the selected Design Package"@,
                ResolutionIssue::NoPendingToken => res@
                    == "active correction has no pending decomposition reconciliation token"@,
                ResolutionIssue::FileSurface(m) => res@ == m@,
            },
    {
        match self {
            ResolutionIssue::Reconciliation(e) => e.message(),
            ResolutionIssue::Scope(e) => e.message(),
            ResolutionIssue::OutsidePackage => String::from_str(
                "Decomposition Plan must belong to the selected Design Package",
            ),
            ResolutionIssue::NoPendingToken => String::from_str(
                "active correction has no pending decomposition reconciliation token",
            ),
            ResolutionIssue::FileSurface(m) => m.clone(),
        }
    }
}

pub open spec fn predecessor_view(p: Option<(i64, String)>) -> Option<(i64, Seq<char>)> {
    match p {
        Some((w, s)) => Some((w, s@)),
        None => None,
    }
}

/// The correction handle of the pending token.
pub open spec fn token_handle(closure_id: i64, t: PendingToken) -> Seq<char> {
    spec_correction_handle(
        closure_id,
        t.session_id,
        t.token_id,
        t.token_ordinal,
        t.operation@,
        t.target@,
        t.review_work,
        t.review_design,
    )
}

/// The checks that come before the successor, in order: the expected
/// current handle is a digest; the plan has reconciliation metadata; a
/// recorded application is retried (its outcome, or the refusal of the
/// retry); the plan names the selected design and work; it belongs to the
/// selected package; a reconciliation token is pending and authorizes this
/// plan path and owner; the file surface allows it; it is inside the review
/// owner; its scope holds. None when all pass.
pub open spec fn spec_resolution_checks(
    input: DecompositionReconciliationApplication,
    d: PlanDocument,
    f: ReconciliationFacts,
) -> Option<Result<DecompositionReconciliationOutcome, ResolutionIssue>> {
    if !crate::text::digest_text(input.expected_current@) {
        Some(
            Err(
                ResolutionIssue::Reconciliation(
                    ReconciliationIssue::Plan(
                        PlanIssue::NotDigest(Field::ReconciliationExpectedCurrent),
                    ),
                ),
            ),
        )
    } else if d.reconciliation is None {
        Some(Err(ResolutionIssue::Reconciliation(ReconciliationIssue::ReconciliationRequired)))
    } else if f.recorded is Some {
        match spec_retry(
            input.expected_current@,
            input.design_version_id,
            input.work_unit_id,
            f.source_path@,
            d.reconciliation->0.predecessor,
            f.payload_identity@,
            input.closure_id,
            (f.recorded->0).0,
            (f.recorded->0).1,
        ) {
            Ok(o) => Some(Ok(o)),
            Err(e) => Some(Err(ResolutionIssue::Reconciliation(e))),
        }
    } else if f.resolved_design_version_id != input.design_version_id || f.work_binding != Some(
        input.work_unit_id,
    ) {
        Some(Err(ResolutionIssue::Reconciliation(ReconciliationIssue::OwnerMismatch)))
    } else if path_components(f.package_root@) != path_components(f.design_root@) {
        Some(Err(ResolutionIssue::OutsidePackage))
    } else if f.token is None {
        Some(Err(ResolutionIssue::NoPendingToken))
    } else if spec_token_target(
        f.token->0.operation@,
        f.token->0.parsed_target,
        input.design_version_id,
        input.work_unit_id,
        f.source_path@,
    ) is Err {
        Some(
            Err(
                ResolutionIssue::Reconciliation(
                    spec_token_target(
                        f.token->0.operation@,
                        f.token->0.parsed_target,
                        input.design_version_id,
                        input.work_unit_id,
                        f.source_path@,
                    )->Err_0,
                ),
            ),
        )
    } else if f.surface is Some {
        Some(Err(ResolutionIssue::FileSurface(f.surface->0)))
    } else if f.token->0.review_work != input.work_unit_id || !f.review_design_accepts {
        Some(Err(ResolutionIssue::Reconciliation(ReconciliationIssue::OutsideReviewOwner)))
    } else if spec_scope(
        d,
        predecessor_view(f.predecessor),
        input.work_unit_id,
        f.current_identity@,
        f.domains,
        f.relations,
    ) is Err {
        Some(
            Err(
                ResolutionIssue::Scope(
                    spec_scope(
                        d,
                        predecessor_view(f.predecessor),
                        input.work_unit_id,
                        f.current_identity@,
                        f.domains,
                        f.relations,
                    )->Err_0,
                ),
            ),
        )
    } else {
        None
    }
}

/// The projection a pending reconciliation observes.
#[verifier::opaque]
pub open spec fn observed(
    input: DecompositionReconciliationApplication,
    d: PlanDocument,
    f: ReconciliationFacts,
    proj: DecompositionReconciliationProjection,
) -> bool {
    projection_spec(
        d,
        f.source_path@,
        f.source_identity@,
        input,
        token_handle(input.closure_id, f.token->0),
        f.gate_boundaries@,
        f.source_shared@,
        f.preserves@,
        proj,
    )
}

/// The handle the request's expected current must equal: the plan's own
/// for a preview, the projection's commit handle otherwise.
pub open spec fn expected_for(
    d: PlanDocument,
    preview: bool,
    proj: DecompositionReconciliationProjection,
) -> Seq<char> {
    if preview {
        d.reconciliation->0.expected_current@
    } else {
        proj.commit_current@
    }
}

/// The refusal of a request whose expected current differs from what it
/// must equal.
pub open spec fn observation_refusal(
    input: DecompositionReconciliationApplication,
    d: PlanDocument,
    preview: bool,
    e: ResolutionIssue,
) -> bool {
    if preview {
        e == ResolutionIssue::Reconciliation(ReconciliationIssue::PredecessorIdentitiesDisagree)
    } else {
        e matches ResolutionIssue::Reconciliation(
            ReconciliationIssue::ObservationsChanged {
                design_version_id,
                work_unit_id,
                plan_operand,
                closure_id,
                expected_current,
            },
        ) && design_version_id == input.design_version_id && work_unit_id == input.work_unit_id
            && plan_operand@ == spec_shell_operand(input.plan_path@) && closure_id
            == input.closure_id && expected_current@ == d.reconciliation->0.expected_current@
    }
}

/// Two projections a reconciliation observes agree on the commit handle.
proof fn lemma_observed_unique(
    input: DecompositionReconciliationApplication,
    d: PlanDocument,
    f: ReconciliationFacts,
    p: DecompositionReconciliationProjection,
    q: DecompositionReconciliationProjection,
)
    requires
        observed(input, d, f, p),
        observed(input, d, f, q),
    ensures
        p.commit_current@ == q.commit_current@,
{
    reveal(observed);
}

/// A pending reconciliation made of the plan, its source, the token and the
/// observed projection.
pub open spec fn pending_of(
    p: PendingDecompositionReconciliation,
    input: DecompositionReconciliationApplication,
    d: PlanDocument,
    f: ReconciliationFacts,
) -> bool {
    &&& p.document == d
    &&& p.source_path@ == f.source_path@
    &&& p.source_identity@ == f.source_identity@
    &&& p.payload_identity@ == f.payload_identity@
    &&& p.session_id == f.token->0.session_id
    &&& p.token_id == f.token->0.token_id
    &&& p.token_ordinal == f.token->0.token_ordinal
    &&& observed(input, d, f, p.projection)
}

/// What a request that passed the checks before the successor is answered:
/// the successor's refusal, the staged successor's refusal, the refusal of
/// an expected current that differs from what it must equal, or a pending
/// reconciliation with the projection it observes.
pub open spec fn pending_answer(
    input: DecompositionReconciliationApplication,
    d: PlanDocument,
    f: ReconciliationFacts,
    preview: bool,
    r: Result<DecompositionReconciliationResolution, ResolutionIssue>,
) -> bool {
    if !successor_valid(d, f.successor) {
        r matches Err(ResolutionIssue::Reconciliation(e)) && successor_answer(
            d,
            f.successor,
            Err(e),
        )
    } else if spec_staged_successor(
        input.design_version_id,
        input.work_unit_id,
        preview,
        f.staged_owner,
    ) is Err {
        r == Err::<DecompositionReconciliationResolution, ResolutionIssue>(
            ResolutionIssue::Reconciliation(
                spec_staged_successor(
                    input.design_version_id,
                    input.work_unit_id,
                    preview,
                    f.staged_owner,
                )->Err_0,
            ),
        )
    } else {
        &&& (r is Ok <==> exists|proj: DecompositionReconciliationProjection|
            #[trigger] observed(input, d, f, proj) && input.expected_current@ == expected_for(
                d,
                preview,
                proj,
            ))
        &&& r matches Ok(res) ==> (res matches DecompositionReconciliationResolution::Pending(p)
            && pending_of(p, input, d, f) && input.expected_current@ == expected_for(
            d,
            preview,
            p.projection,
        ))
        &&& r matches Err(e) ==> observation_refusal(input, d, preview, e)
    }
}

/// What a reconciliation request is answered: a refusal or the recorded
/// outcome of a retry from the checks before the successor, else
/// `pending_answer`.
pub open spec fn resolution_answer(
    input: DecompositionReconciliationApplication,
    d: PlanDocument,
    f: ReconciliationFacts,
    preview: bool,
    r: Result<DecompositionReconciliationResolution, ResolutionIssue>,
) -> bool {
    match spec_resolution_checks(input, d, f) {
        Some(Err(e)) => r == Err::<DecompositionReconciliationResolution, ResolutionIssue>(e),
        Some(Ok(o)) => r == Ok::<DecompositionReconciliationResolution, ResolutionIssue>(
            DecompositionReconciliationResolution::Retry(o),
        ),
        None => pending_answer(input, d, f, preview, r),
    }
}

/// What `reconciliation_resolution` requires of its facts.
pub open spec fn resolution_inputs_ready(d: PlanDocument, f: ReconciliationFacts) -> bool {
    &&& d.reconciliation is Some ==> {
        &&& f.relations.checklist@.len() == d.reconciliation->0.checklist@.len()
        &&& f.relations.gates@.len() == d.reconciliation->0.gates@.len()
        &&& f.relations.edges@.len() == d.reconciliation->0.dependencies@.len()
        &&& successor_inputs_ready(d, f.successor)
        &&& f.gate_boundaries@.len() == d.reconciliation->0.gates@.len()
    }
    &&& f.preserves@.len() == f.source_shared@.len()
}

/// The part of a resolution after the scope: the successor, the staged
/// successor, the projection and the observation.
#[verifier::rlimit(60)]
fn pending_resolution(
    input: &DecompositionReconciliationApplication,
    document: PlanDocument,
    source_path: String,
    source_identity: String,
    payload_identity: String,
    t: PendingToken,
    successor: &SuccessorFacts,
    staged_owner: Option<PlanReviewOwnerResolution>,
    gate_boundaries: &Vec<Option<String>>,
    source_shared: Vec<DecompositionSharedBindingRecord>,
    preserves: &Vec<bool>,
    preview: bool,
    Ghost(f): Ghost<ReconciliationFacts>,
) -> (r: Result<DecompositionReconciliationResolution, ResolutionIssue>)
    requires
        document.reconciliation is Some,
        successor_inputs_ready(document, f.successor),
        gate_boundaries@.len() == document.reconciliation->0.gates@.len(),
        preserves@.len() == source_shared@.len(),
        f.token == Some(t),
        f.source_path == source_path,
        f.source_identity == source_identity,
        f.payload_identity == payload_identity,
        f.successor == *successor,
        f.staged_owner == staged_owner,
        f.gate_boundaries == *gate_boundaries,
        f.source_shared == source_shared,
        f.preserves == *preserves,
    ensures
        pending_answer(*input, document, f, preview, r),
{
    let ghost d = document;
    let recorded_expected = match &document.reconciliation {
        Some(r) => r.expected_current.clone(),
        None => return Err(ResolutionIssue::Reconciliation(ReconciliationIssue::ReconciliationRequired)),
    };
    if let Err(e) = validate_reconciliation_successor(&document, successor) {
        return Err(ResolutionIssue::Reconciliation(e));
    }
    if let Err(e) = check_staged_successor(input, preview, staged_owner) {
        return Err(ResolutionIssue::Reconciliation(e));
    }
    let handle = reconciliation_correction_handle(
        input.closure_id,
        t.session_id,
        t.token_id,
        t.token_ordinal,
        t.operation.as_str(),
        t.target.as_str(),
        t.review_work,
        t.review_design,
    );
    let projection = match crate::projection::resolve_reconciliation_projection(
        Some(&document),
        source_path.as_str(),
        source_identity.as_str(),
        input,
        handle,
        gate_boundaries,
        source_shared,
        preserves,
    ) {
        Ok(p) => p,
        Err(e) => return Err(ResolutionIssue::Reconciliation(e)),
    };
    proof {
        assert(observed(*input, d, f, projection)) by {
            reveal(observed);
        }
        assert forall|q: DecompositionReconciliationProjection| #[trigger]
            observed(*input, d, f, q) implies q.commit_current@ == projection.commit_current@ by {
            lemma_observed_unique(*input, d, f, q, projection);
        }
    }
    if let Err(e) = require_reconciliation_observation(
        input,
        recorded_expected.as_str(),
        &projection,
        preview,
    ) {
        return Err(ResolutionIssue::Reconciliation(e));
    }
    Ok(
        DecompositionReconciliationResolution::Pending(
            PendingDecompositionReconciliation {
                document,
                source_path,
                source_identity,
                session_id: t.session_id,
                token_id: t.token_id,
                token_ordinal: t.token_ordinal,
                payload_identity,
                projection,
            },
        ),
    )
}

/// Resolves a reconciliation request: a retry of a recorded application
/// gives its recorded outcome; otherwise the checks run in order (see
/// `spec_resolution_checks`), then the successor, the staged successor and
/// the observation, and the request becomes a pending reconciliation with
/// its projection.
#[verifier::rlimit(100)]
#[verifier::spinoff_prover]
pub fn reconciliation_resolution(
    input: &DecompositionReconciliationApplication,
    document: PlanDocument,
    facts: ReconciliationFacts,
    preview: bool,
) -> (r: Result<DecompositionReconciliationResolution, ResolutionIssue>)
    requires
        resolution_inputs_ready(document, facts),
    ensures
        resolution_answer(*input, document, facts, preview, r),
{
    let ghost f = facts;
    let ghost d = document;
    if let Err(e) = require_reconciliation_expected_current(input.expected_current) {
        return Err(ResolutionIssue::Reconciliation(e));
    }
    let predecessor = match &document.reconciliation {
        Some(r) => r.predecessor,
        None => return Err(ResolutionIssue::Reconciliation(ReconciliationIssue::ReconciliationRequired)),
    };
    let ReconciliationFacts {
        source_path,
        source_identity,
        payload_identity,
        recorded,
        resolved_design_version_id,
        work_binding,
        package_root,
        design_root,
        token,
        surface,
        review_design_accepts,
        predecessor: found,
        current_identity,
        domains,
        relations,
        successor,
        staged_owner,
        gate_boundaries,
        source_shared,
        preserves,
    } = facts;
    if let Some((rec, out)) = recorded {
        return match check_reconciliation_retry(
            input,
            source_path.as_str(),
            predecessor,
            payload_identity.as_str(),
            &rec,
            out,
        ) {
            Ok(o) => Ok(DecompositionReconciliationResolution::Retry(o)),
            Err(e) => Err(ResolutionIssue::Reconciliation(e)),
        };
    }
    if let Err(e) = check_reconciliation_owner(input, resolved_design_version_id, work_binding) {
        return Err(ResolutionIssue::Reconciliation(e));
    }
    if !same_path(package_root.as_str(), design_root.as_str()) {
        return Err(ResolutionIssue::OutsidePackage);
    }
    let t = match token {
        Some(t) => t,
        None => return Err(ResolutionIssue::NoPendingToken),
    };
    let target = validate_reconciliation_token_target(
        t.operation.as_str(),
        match &t.parsed_target {
            Some(x) => Some(x),
            None => None,
        },
        input,
        source_path.as_str(),
    );
    if let Err(e) = target {
        return Err(ResolutionIssue::Reconciliation(e));
    }
    if let Some(m) = surface {
        return Err(ResolutionIssue::FileSurface(m));
    }
    if let Err(e) = check_correction_review_owner(input, t.review_work, review_design_accepts) {
        return Err(ResolutionIssue::Reconciliation(e));
    }
    if let Err(e) = validate_reconciliation_scope(
        &document,
        found,
        input.work_unit_id,
        current_identity.as_str(),
        &domains,
        &relations,
    ) {
        return Err(ResolutionIssue::Scope(e));
    }
    pending_resolution(
        input,
        document,
        source_path,
        source_identity,
        payload_identity,
        t,
        &successor,
        staged_owner,
        &gate_boundaries,
        source_shared,
        &preserves,
        preview,
        Ghost(f),
    )
}

} // verus!
