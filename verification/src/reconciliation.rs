//! Reconciling an applied Decomposition Plan with its reviewed successor: the
//! checks of a reconciliation request, of a retried one, of the correction
//! token that authorizes it, and the outcome a preview reports.

use vstd::prelude::*;

use crate::actions::ReconciliationTarget;
use crate::document::PlanDocument;
use crate::identity::{projection_handle, spec_projection_handle};
use crate::issue::{Field, PlanIssue};
use crate::records::{
    DecompositionApplicationOutcome, DecompositionReconciliationApplication,
    DecompositionReconciliationOutcome, DecompositionReconciliationProjection, PlanReviewOwnerState,
};
use crate::order::text_views;
use crate::text::{decimal, i64_decimal, str_eq};
use crate::validation::require_digest;

verus! {

/// Why a reconciliation is refused.
#[derive(Clone, Debug, PartialEq, Eq)]
pub enum ReconciliationIssue {
    Plan(PlanIssue),
    MetadataRequired,
    ReconciliationRequired,
    RetryPayloadDiffers,
    RecordedResultMismatch,
    CorrectionBoundaryMismatch,
    RetryExpectedCurrentDiffers,
    OwnerMismatch,
    NotReconciliationTransition,
    TargetUnreadable,
    TargetNotAuthorized,
    OutsideReviewOwner,
    RequiresStagedSuccessor { design_version_id: i64, work_unit_id: i64 },
    SuccessorReviewRequired { actions: Vec<String> },
    PredecessorIdentitiesDisagree,
    ObservationsChanged {
        design_version_id: i64,
        work_unit_id: i64,
        plan_operand: String,
        closure_id: i64,
        expected_current: String,
    },
    NoIngressIdentity,
    BytesChangedAfterStaging,
    NoReviewedContentIdentity,
    IngressNotBindingContent,
    RequirementsNotCovered,
    GateCoverageDiffers { item: String, expected: Vec<String>, declared: Vec<String> },
    RetainedTargetsNotOneToOne { label: String },
    RetainedGateTargetsNotOneToOne,
    PreserveTaskDiffers { source: i64, item: String },
    PreserveChecklistDiffers,
    PreserveGateDiffers,
    PreservePhaseDiffers,
    PreserveDependencyDiffers,
    ForeignPredecessorPhase,
    ForeignSuccessorPhase,
    ResultIdentityInvalid,
    BoundaryNotUnique,
    ResultMismatch,
}

/// `parts` joined by `sep`.
pub open spec fn joined(parts: Seq<Seq<char>>, sep: Seq<char>) -> Seq<char>
    decreases parts.len(),
{
    if parts.len() == 0 {
        Seq::empty()
    } else if parts.len() == 1 {
        parts[0]
    } else {
        joined(parts.drop_last(), sep) + sep + parts.last()
    }
}

pub open spec fn reconciliation_issue_text(i: ReconciliationIssue) -> Seq<char> {
    match i {
        ReconciliationIssue::Plan(p) => crate::issue::issue_text(p),
        ReconciliationIssue::MetadataRequired => "Decomposition Plan metadata is required for reconciliation"@,
        ReconciliationIssue::ReconciliationRequired => "Decomposition Plan reconciliation metadata is required"@,
        ReconciliationIssue::RetryPayloadDiffers => "reconciliation retry payload differs from the recorded application"@,
        ReconciliationIssue::RecordedResultMismatch => "recorded reconciliation result does not match its application"@,
        ReconciliationIssue::CorrectionBoundaryMismatch => "recorded reconciliation result does not match its correction boundary"@,
        ReconciliationIssue::RetryExpectedCurrentDiffers => "reconciliation retry expected current differs from the recorded result"@,
        ReconciliationIssue::OwnerMismatch => "Decomposition Plan does not identify the selected design and work owner"@,
        ReconciliationIssue::NotReconciliationTransition => "the next correction transition is not a Decomposition Plan reconciliation"@,
        ReconciliationIssue::TargetUnreadable => "the next correction transition target is not a Decomposition Plan reconciliation target"@,
        ReconciliationIssue::TargetNotAuthorized => "the next correction transition does not authorize this Decomposition Plan path and owner"@,
        ReconciliationIssue::OutsideReviewOwner => "Decomposition Plan reconciliation is outside the correction review owner"@,
        ReconciliationIssue::RequiresStagedSuccessor { design_version_id, work_unit_id } =>
            "an applied Decomposition Plan can only be reconciled from its reviewed ready successor; next: agent-workbench decomposition show --design-version "@
            + decimal(design_version_id as int) + " --work "@ + decimal(work_unit_id as int),
        ReconciliationIssue::SuccessorReviewRequired { actions } =>
            "successor Decomposition Plan requires accepted clean review; next: "@ + joined(
                text_views(actions@),
                " | "@,
            ),
        ReconciliationIssue::PredecessorIdentitiesDisagree => "command and Plan predecessor identities disagree"@,
        ReconciliationIssue::ObservationsChanged {
            design_version_id,
            work_unit_id,
            plan_operand,
            closure_id,
            expected_current,
        } => "reconciliation observations changed; preview again before committing: agent-workbench decomposition reconcile "@
            + decimal(design_version_id as int) + " --work "@ + decimal(work_unit_id as int)
            + " --plan "@ + plan_operand@ + " --closure "@ + decimal(closure_id as int)
            + " --expected-current "@ + expected_current@ + " --dry-run"@,
        ReconciliationIssue::NoIngressIdentity => "staged Decomposition Plan has no immutable ingress identity; revise and review it again"@,
        ReconciliationIssue::BytesChangedAfterStaging => "Decomposition Plan bytes changed after the successor was staged for review; revise and review the authorized Plan path again"@,
        ReconciliationIssue::NoReviewedContentIdentity => "staged Decomposition Plan has no immutable reviewed content identity; revise and review it again"@,
        ReconciliationIssue::IngressNotBindingContent => "staged Decomposition Plan ingress does not bind the reviewed Plan content"@,
        ReconciliationIssue::RequirementsNotCovered => "Decomposition Plan must cover every current requirement"@,
        ReconciliationIssue::GateCoverageDiffers { item, expected, declared } =>
            "Decomposition Plan item '"@ + item@ + "' gate coverage differs: expected ["@ + joined(
                text_views(expected@),
                ","@,
            ) + "], declared ["@ + joined(text_views(declared@), ","@) + "]"@,
        ReconciliationIssue::RetainedTargetsNotOneToOne { label } => "retained "@ + label@
            + " targets must be one-to-one"@,
        ReconciliationIssue::RetainedGateTargetsNotOneToOne => "retained validation gate targets must be one-to-one"@,
        ReconciliationIssue::PreserveTaskDiffers { source, item } => "preserve task effect differs for source "@
            + decimal(source as int) + " and item '"@ + item@ + "'"@,
        ReconciliationIssue::PreserveChecklistDiffers => "preserve checklist effect requires unchanged boundary meaning"@,
        ReconciliationIssue::PreserveGateDiffers => "preserve gate effect requires unchanged validation meaning"@,
        ReconciliationIssue::PreservePhaseDiffers => "preserve phase effect requires unchanged phase meaning"@,
        ReconciliationIssue::PreserveDependencyDiffers => "preserve dependency effect requires current successor endpoints and qualifying evidence"@,
        ReconciliationIssue::ForeignPredecessorPhase => "reconciliation dependency references a foreign predecessor phase"@,
        ReconciliationIssue::ForeignSuccessorPhase => "reconciliation dependency references a foreign successor phase"@,
        ReconciliationIssue::ResultIdentityInvalid => "recorded reconciliation result identity is invalid"@,
        ReconciliationIssue::BoundaryNotUnique => "successor validation-gate boundary must resolve exactly once"@,
        ReconciliationIssue::ResultMismatch => "recorded reconciliation result does not match its immutable application"@,
    }
}

/// `parts` joined by `sep`.
pub fn join_texts(parts: &Vec<String>, sep: &str) -> (r: String)
    ensures
        r@ == joined(text_views(parts@), sep@),
{
    let mut out = String::new();
    let mut i: usize = 0;
    while i < parts.len()
        invariant
            i <= parts@.len(),
            out@ == joined(text_views(parts@.take(i as int)), sep@),
        decreases parts@.len() - i,
    {
        assert(text_views(parts@.take(i as int + 1)).drop_last() =~= text_views(parts@.take(i as int)));
        if i > 0 {
            out = out.concat(sep);
        } else {
            assert(text_views(parts@.take(0)) =~= Seq::<Seq<char>>::empty());
        }
        out = out.concat(parts[i].as_str());
        i += 1;
    }
    assert(parts@.take(parts@.len() as int) =~= parts@);
    out
}

fn cat(a: String, b: &str) -> (r: String)
    ensures
        r@ == a@ + b@,
{
    a.concat(b)
}

fn dec(x: i64) -> (r: String)
    ensures
        r@ == decimal(x as int),
{
    i64_decimal(x)
}

impl ReconciliationIssue {
    pub fn message(&self) -> (res: String)
        ensures
            res@ == reconciliation_issue_text(*self),
    {
        match self {
            ReconciliationIssue::Plan(p) => p.message(),
            ReconciliationIssue::MetadataRequired => String::from_str(
                "Decomposition Plan metadata is required for reconciliation",
            ),
            ReconciliationIssue::ReconciliationRequired => String::from_str(
                "Decomposition Plan reconciliation metadata is required",
            ),
            ReconciliationIssue::RetryPayloadDiffers => String::from_str(
                "reconciliation retry payload differs from the recorded application",
            ),
            ReconciliationIssue::RecordedResultMismatch => String::from_str(
                "recorded reconciliation result does not match its application",
            ),
            ReconciliationIssue::CorrectionBoundaryMismatch => String::from_str(
                "recorded reconciliation result does not match its correction boundary",
            ),
            ReconciliationIssue::RetryExpectedCurrentDiffers => String::from_str(
                "reconciliation retry expected current differs from the recorded result",
            ),
            ReconciliationIssue::OwnerMismatch => String::from_str(
                "Decomposition Plan does not identify the selected design and work owner",
            ),
            ReconciliationIssue::NotReconciliationTransition => String::from_str(
                "the next correction transition is not a Decomposition Plan reconciliation",
            ),
            ReconciliationIssue::TargetUnreadable => String::from_str(
                "the next correction transition target is not a Decomposition Plan reconciliation target",
            ),
            ReconciliationIssue::TargetNotAuthorized => String::from_str(
                "the next correction transition does not authorize this Decomposition Plan path and owner",
            ),
            ReconciliationIssue::OutsideReviewOwner => String::from_str(
                "Decomposition Plan reconciliation is outside the correction review owner",
            ),
            ReconciliationIssue::RequiresStagedSuccessor { design_version_id, work_unit_id } => {
                let r = String::from_str(
                    "an applied Decomposition Plan can only be reconciled from its reviewed ready successor; next: agent-workbench decomposition show --design-version ",
                );
                let r = cat(r, dec(*design_version_id).as_str());
                let r = cat(r, " --work ");
                cat(r, dec(*work_unit_id).as_str())
            },
            ReconciliationIssue::SuccessorReviewRequired { actions } => {
                let r = String::from_str(
                    "successor Decomposition Plan requires accepted clean review; next: ",
                );
                cat(r, join_texts(actions, " | ").as_str())
            },
            ReconciliationIssue::PredecessorIdentitiesDisagree => String::from_str(
                "command and Plan predecessor identities disagree",
            ),
            ReconciliationIssue::ObservationsChanged {
                design_version_id,
                work_unit_id,
                plan_operand,
                closure_id,
                expected_current,
            } => {
                let r = String::from_str(
                    "reconciliation observations changed; preview again before committing: agent-workbench decomposition reconcile ",
                );
                let r = cat(r, dec(*design_version_id).as_str());
                let r = cat(r, " --work ");
                let r = cat(r, dec(*work_unit_id).as_str());
                let r = cat(r, " --plan ");
                let r = cat(r, plan_operand.as_str());
                let r = cat(r, " --closure ");
                let r = cat(r, dec(*closure_id).as_str());
                let r = cat(r, " --expected-current ");
                let r = cat(r, expected_current.as_str());
                cat(r, " --dry-run")
            },
            ReconciliationIssue::NoIngressIdentity => String::from_str(
                "staged Decomposition Plan has no immutable ingress identity; revise and review it again",
            ),
            ReconciliationIssue::BytesChangedAfterStaging => String::from_str(
                "Decomposition Plan bytes changed after the successor was staged for review; revise and review the authorized Plan path again",
            ),
            ReconciliationIssue::NoReviewedContentIdentity => String::from_str(
                "staged Decomposition Plan has no immutable reviewed content identity; revise and review it again",
            ),
            ReconciliationIssue::IngressNotBindingContent => String::from_str(
                "staged Decomposition Plan ingress does not bind the reviewed Plan content",
            ),
            ReconciliationIssue::RequirementsNotCovered => String::from_str(
                "Decomposition Plan must cover every current requirement",
            ),
            ReconciliationIssue::GateCoverageDiffers { item, expected, declared } => {
                let r = String::from_str("Decomposition Plan item '");
                let r = cat(r, item.as_str());
                let r = cat(r, "' gate coverage differs: expected [");
                let r = cat(r, join_texts(expected, ",").as_str());
                let r = cat(r, "], declared [");
                let r = cat(r, join_texts(declared, ",").as_str());
                cat(r, "]")
            },
            ReconciliationIssue::RetainedTargetsNotOneToOne { label } => {
                let r = String::from_str("retained ");
                let r = cat(r, label.as_str());
                cat(r, " targets must be one-to-one")
            },
            ReconciliationIssue::RetainedGateTargetsNotOneToOne => String::from_str(
                "retained validation gate targets must be one-to-one",
            ),
            ReconciliationIssue::PreserveTaskDiffers { source, item } => {
                let r = String::from_str("preserve task effect differs for source ");
                let r = cat(r, dec(*source).as_str());
                let r = cat(r, " and item '");
                let r = cat(r, item.as_str());
                cat(r, "'")
            },
            ReconciliationIssue::PreserveChecklistDiffers => String::from_str(
                "preserve checklist effect requires unchanged boundary meaning",
            ),
            ReconciliationIssue::PreserveGateDiffers => String::from_str(
                "preserve gate effect requires unchanged validation meaning",
            ),
            ReconciliationIssue::PreservePhaseDiffers => String::from_str(
                "preserve phase effect requires unchanged phase meaning",
            ),
            ReconciliationIssue::PreserveDependencyDiffers => String::from_str(
                "preserve dependency effect requires current successor endpoints and qualifying evidence",
            ),
            ReconciliationIssue::ForeignPredecessorPhase => String::from_str(
                "reconciliation dependency references a foreign predecessor phase",
            ),
            ReconciliationIssue::ForeignSuccessorPhase => String::from_str(
                "reconciliation dependency references a foreign successor phase",
            ),
            ReconciliationIssue::ResultIdentityInvalid => String::from_str(
                "recorded reconciliation result identity is invalid",
            ),
            ReconciliationIssue::BoundaryNotUnique => String::from_str(
                "successor validation-gate boundary must resolve exactly once",
            ),
            ReconciliationIssue::ResultMismatch => String::from_str(
                "recorded reconciliation result does not match its immutable application",
            ),
        }
    }
}

/// A character a shell reads literally outside quotes.
pub open spec fn shell_safe(c: char) -> bool {
    crate::text::is_ascii_alphanumeric(c) || c == '_' || c == '@' || c == '%' || c == '+' || c
        == '=' || c == ':' || c == ',' || c == '.' || c == '/' || c == '-'
}

/// `s` with each single quote written as quote, backslash, quote, quote.
pub open spec fn quote_body(s: Seq<char>) -> Seq<char>
    decreases s.len(),
{
    if s.len() == 0 {
        Seq::empty()
    } else {
        quote_body(s.drop_last()) + if s.last() == '\'' {
            seq!['\'', '\\', '\'', '\'']
        } else {
            seq![s.last()]
        }
    }
}

/// `s` unchanged when it is non-empty and made only of shell-safe
/// characters; otherwise `s` in single quotes.
pub open spec fn spec_shell_operand(s: Seq<char>) -> Seq<char> {
    if s.len() > 0 && forall|i: int| 0 <= i < s.len() ==> shell_safe(#[trigger] s[i]) {
        s
    } else {
        seq!['\''] + quote_body(s) + seq!['\'']
    }
}

fn is_shell_safe(c: char) -> (r: bool)
    ensures
        r == shell_safe(c),
{
    crate::text::ascii_alphanumeric(c) || c == '_' || c == '@' || c == '%' || c == '+' || c == '='
        || c == ':' || c == ',' || c == '.' || c == '/' || c == '-'
}

/// `value` as one operand of a shell command.
pub fn shell_operand(value: &str) -> (r: String)
    ensures
        r@ == spec_shell_operand(value@),
{
    let chars = crate::text::chars_of(value);
    let mut safe = chars.len() > 0;
    let mut body = String::new();
    let mut i: usize = 0;
    proof {
        reveal_strlit("'\\''");
    }
    while i < chars.len()
        invariant
            i <= chars@.len(),
            chars@ == value@,
            safe == (chars@.len() > 0 && forall|k: int|
                0 <= k < i ==> shell_safe(#[trigger] value@[k])),
            body@ == quote_body(value@.take(i as int)),
            "'\\''"@ == seq!['\'', '\\', '\'', '\''],
        decreases chars@.len() - i,
    {
        let c = chars[i];
        if !is_shell_safe(c) {
            safe = false;
        }
        assert(value@.take(i as int + 1).drop_last() =~= value@.take(i as int));
        if c == '\'' {
            body.append("'\\''");
        } else {
            let one = value.substring_char(i, i + 1);
            assert(one@ =~= seq![c]);
            body.append(one);
        }
        i += 1;
    }
    assert(value@.take(value@.len() as int) =~= value@);
    if safe {
        return String::from_str(value);
    }
    proof {
        reveal_strlit("'");
    }
    let out = String::from_str("'");
    let out = out.concat(body.as_str());
    let out = out.concat("'");
    assert(out@ =~= seq!['\''] + quote_body(value@) + seq!['\'']);
    out
}

/// Refuses a reconciliation whose expected current handle is not the one
/// observed: the plan's recorded predecessor handle for a preview, the
/// projection's commit handle for a commit.
pub fn require_reconciliation_observation(
    input: &DecompositionReconciliationApplication,
    recorded_expected_current: &str,
    projection: &DecompositionReconciliationProjection,
    preview: bool,
) -> (res: Result<(), ReconciliationIssue>)
    ensures
        ({
            let expected = if preview {
                recorded_expected_current@
            } else {
                projection.commit_current@
            };
            &&& res is Ok <==> input.expected_current@ == expected
            &&& (res is Err && preview) ==> res == Err::<(), ReconciliationIssue>(
                ReconciliationIssue::PredecessorIdentitiesDisagree,
            )
            &&& (res is Err && !preview) ==> (res matches Err(
                ReconciliationIssue::ObservationsChanged {
                    design_version_id,
                    work_unit_id,
                    plan_operand,
                    closure_id,
                    expected_current,
                },
            ) && design_version_id == input.design_version_id && work_unit_id
                == input.work_unit_id && plan_operand@ == spec_shell_operand(input.plan_path@)
                && closure_id == input.closure_id && expected_current@
                == recorded_expected_current@)
        }),
{
    let matches = if preview {
        str_eq(input.expected_current, recorded_expected_current)
    } else {
        str_eq(input.expected_current, projection.commit_current.as_str())
    };
    if matches {
        return Ok(());
    }
    if preview {
        return Err(ReconciliationIssue::PredecessorIdentitiesDisagree);
    }
    Err(
        ReconciliationIssue::ObservationsChanged {
            design_version_id: input.design_version_id,
            work_unit_id: input.work_unit_id,
            plan_operand: shell_operand(input.plan_path),
            closure_id: input.closure_id,
            expected_current: String::from_str(recorded_expected_current),
        },
    )
}

/// No two of `targets` are equal.
pub open spec fn one_to_one(targets: Seq<Seq<char>>) -> bool {
    forall|i: int, j: int| 0 <= i < j < targets.len() ==> targets[i] != targets[j]
}

/// Refuses retained mappings of one kind that share a target.
pub fn require_unique_retained_targets(label: &str, targets: &Vec<String>) -> (res: Result<
    (),
    ReconciliationIssue,
>)
    ensures
        res is Ok <==> one_to_one(text_views(targets@)),
        res is Err ==> (res matches Err(ReconciliationIssue::RetainedTargetsNotOneToOne { label: l })
            && l@ == label@),
{
    let mut i: usize = 0;
    while i < targets.len()
        invariant
            i <= targets@.len(),
            forall|a: int, b: int|
                0 <= a < b < i ==> #[trigger] targets@[a]@ != #[trigger] targets@[b]@,
        decreases targets@.len() - i,
    {
        let mut j: usize = 0;
        while j < i
            invariant
                j <= i < targets@.len(),
                forall|a: int| 0 <= a < j ==> #[trigger] targets@[a]@ != targets@[i as int]@,
            decreases i - j,
        {
            if str_eq(targets[j].as_str(), targets[i].as_str()) {
                proof {
                    assert(text_views(targets@)[j as int] == text_views(targets@)[i as int]);
                }
                return Err(
                    ReconciliationIssue::RetainedTargetsNotOneToOne {
                        label: String::from_str(label),
                    },
                );
            }
            j += 1;
        }
        i += 1;
    }
    proof {
        assert forall|a: int, b: int| 0 <= a < b < text_views(targets@).len() implies text_views(
            targets@,
        )[a] != text_views(targets@)[b] by {
            assert(targets@[a]@ != targets@[b]@);
        }
    }
    Ok(())
}

pub open spec fn option_text(v: Option<i64>) -> Seq<char> {
    match v {
        Some(x) => decimal(x as int),
        None => "-"@,
    }
}

/// The handle of the correction boundary a reconciliation observes.
pub open spec fn spec_correction_handle(
    closure_id: i64,
    session_id: i64,
    token_id: i64,
    token_ordinal: i64,
    operation: Seq<char>,
    target: Seq<char>,
    review_work: i64,
    review_design: Option<i64>,
) -> Seq<char> {
    spec_projection_handle(
        "correction"@,
        seq![
            decimal(closure_id as int),
            decimal(session_id as int),
            decimal(token_id as int),
            decimal(token_ordinal as int),
            operation,
            target,
            decimal(review_work as int),
            option_text(review_design),
        ],
    )
}

/// The handle of the correction boundary a reconciliation observes: the
/// closure, session, token and its ordinal, operation and target, and the
/// work and design of the review that found the correction.
pub fn reconciliation_correction_handle(
    closure_id: i64,
    session_id: i64,
    token_id: i64,
    token_ordinal: i64,
    operation: &str,
    target: &str,
    review_work: i64,
    review_design: Option<i64>,
) -> (r: String)
    ensures
        r@ == spec_correction_handle(
            closure_id,
            session_id,
            token_id,
            token_ordinal,
            operation@,
            target@,
            review_work,
            review_design,
        ),
{
    let mut values: Vec<String> = Vec::new();
    values.push(dec(closure_id));
    values.push(dec(session_id));
    values.push(dec(token_id));
    values.push(dec(token_ordinal));
    values.push(String::from_str(operation));
    values.push(String::from_str(target));
    values.push(dec(review_work));
    let design = match review_design {
        Some(d) => dec(d),
        None => {
            proof {
                reveal_strlit("-");
            }
            String::from_str("-")
        },
    };
    values.push(design);
    proof {
        reveal_strlit("-");
    }
    assert(values@.map_values(|v: String| v@) =~= seq![
        decimal(closure_id as int),
        decimal(session_id as int),
        decimal(token_id as int),
        decimal(token_ordinal as int),
        operation@,
        target@,
        decimal(review_work as int),
        option_text(review_design),
    ]);
    projection_handle("correction", &values)
}

/// What the next correction transition authorizes: its operation must be a
/// plan reconciliation whose target names the requested design, work and
/// plan path (the same path component by component); the authorized path
/// comes back as written in the target.
pub open spec fn spec_token_target(
    operation: Seq<char>,
    target: Option<ReconciliationTarget>,
    design_version_id: i64,
    work_unit_id: i64,
    source_path: Seq<char>,
) -> Result<Seq<char>, ReconciliationIssue> {
    if operation != "decomposition-plan-reconcile"@ {
        Err(ReconciliationIssue::NotReconciliationTransition)
    } else {
        match target {
            None => Err(ReconciliationIssue::TargetUnreadable),
            Some(t) => if t.design_version_id != design_version_id || t.work_unit_id
                != work_unit_id || crate::path::path_components(t.plan_path@)
                != crate::path::path_components(source_path) {
                Err(ReconciliationIssue::TargetNotAuthorized)
            } else {
                Ok(t.plan_path@)
            },
        }
    }
}

pub open spec fn text_result(r: Result<String, ReconciliationIssue>) -> Result<
    Seq<char>,
    ReconciliationIssue,
> {
    match r {
        Ok(s) => Ok(s@),
        Err(e) => Err(e),
    }
}

/// Checks that the next correction transition authorizes reconciling the
/// plan at `source_path` for the requested design and work; `target` is the
/// transition's target as read, none when it could not be read.
pub fn validate_reconciliation_token_target(
    operation: &str,
    target: Option<&ReconciliationTarget>,
    input: &DecompositionReconciliationApplication,
    source_path: &str,
) -> (res: Result<String, ReconciliationIssue>)
    ensures
        text_result(res) == spec_token_target(
            operation@,
            match target {
                Some(t) => Some(*t),
                None => None,
            },
            input.design_version_id,
            input.work_unit_id,
            source_path@,
        ),
{
    if !str_eq(operation, "decomposition-plan-reconcile") {
        return Err(ReconciliationIssue::NotReconciliationTransition);
    }
    match target {
        None => Err(ReconciliationIssue::TargetUnreadable),
        Some(t) => {
            if t.design_version_id != input.design_version_id || t.work_unit_id
                != input.work_unit_id || !crate::path::same_path(t.plan_path.as_str(), source_path) {
                return Err(ReconciliationIssue::TargetNotAuthorized);
            }
            Ok(t.plan_path.clone())
        },
    }
}

/// A reconciliation application already recorded for the same closure and
/// plan source, with the correction token it consumed.
#[derive(Clone, Debug, PartialEq, Eq)]
pub struct RecordedReconciliation {
    pub successor_plan_id: i64,
    pub correction_application_id: i64,
    pub session_id: i64,
    pub token_id: i64,
    pub token_ordinal: i64,
    pub operation: String,
    pub target: String,
    pub parsed_target: Option<ReconciliationTarget>,
    pub review_work: i64,
    pub review_design: Option<i64>,
    pub payload_identity: String,
}

/// The target text tokens of an older form name: design and work alone.
pub open spec fn legacy_target(design_version_id: i64, work_unit_id: i64) -> Seq<char> {
    decimal(design_version_id as int) + "/"@ + decimal(work_unit_id as int)
}

/// The recorded outcome, returned again for a retried reconciliation.
pub open spec fn retried_outcome(o: DecompositionReconciliationOutcome) -> DecompositionReconciliationOutcome {
    DecompositionReconciliationOutcome {
        plan: DecompositionApplicationOutcome { already_applied: true, ..o.plan },
        idempotent: true,
        ..o
    }
}

/// A retry of a recorded reconciliation succeeds with the recorded outcome
/// when its token still authorizes it (or names only the design and work, as
/// older tokens do), its payload is the recorded one, the recorded outcome
/// belongs to the application and its correction boundary, and the expected
/// current handle is the recorded commit handle.
pub open spec fn spec_retry(
    input_expected: Seq<char>,
    design_version_id: i64,
    work_unit_id: i64,
    source_path: Seq<char>,
    predecessor: i64,
    payload_identity: Seq<char>,
    closure_id: i64,
    recorded: RecordedReconciliation,
    outcome: DecompositionReconciliationOutcome,
) -> Result<DecompositionReconciliationOutcome, ReconciliationIssue> {
    let token = spec_token_target(
        recorded.operation@,
        recorded.parsed_target,
        design_version_id,
        work_unit_id,
        source_path,
    );
    if token is Err && (recorded.operation@ != "decomposition-plan-reconcile"@ || recorded.target@
        != legacy_target(design_version_id, work_unit_id)) {
        Err(token->Err_0)
    } else if recorded.payload_identity@ != payload_identity {
        Err(ReconciliationIssue::RetryPayloadDiffers)
    } else if outcome.plan.plan_id != recorded.successor_plan_id || outcome.predecessor_plan_id
        != predecessor || outcome.closure_id != closure_id || outcome.token_ordinal
        != recorded.token_ordinal || outcome.correction_application_id
        != recorded.correction_application_id {
        Err(ReconciliationIssue::RecordedResultMismatch)
    } else if outcome.projection.observed_correction@ != spec_correction_handle(
        closure_id,
        recorded.session_id,
        recorded.token_id,
        recorded.token_ordinal,
        recorded.operation@,
        recorded.target@,
        recorded.review_work,
        recorded.review_design,
    ) {
        Err(ReconciliationIssue::CorrectionBoundaryMismatch)
    } else if input_expected != outcome.projection.commit_current@ {
        Err(ReconciliationIssue::RetryExpectedCurrentDiffers)
    } else {
        Ok(retried_outcome(outcome))
    }
}

/// Checks a retried reconciliation against its recorded application and
/// outcome; `source_path` and `predecessor` come from the plan file, and
/// `payload_identity` is the request's payload identity.
pub fn check_reconciliation_retry(
    input: &DecompositionReconciliationApplication,
    source_path: &str,
    predecessor: i64,
    payload_identity: &str,
    recorded: &RecordedReconciliation,
    outcome: DecompositionReconciliationOutcome,
) -> (res: Result<DecompositionReconciliationOutcome, ReconciliationIssue>)
    ensures
        res == spec_retry(
            input.expected_current@,
            input.design_version_id,
            input.work_unit_id,
            source_path@,
            predecessor,
            payload_identity@,
            input.closure_id,
            *recorded,
            outcome,
        ),
{
    let token = validate_reconciliation_token_target(
        recorded.operation.as_str(),
        match &recorded.parsed_target {
            Some(t) => Some(t),
            None => None,
        },
        input,
        source_path,
    );
    if let Err(error) = token {
        let legacy = dec(input.design_version_id);
        let legacy = cat(legacy, "/");
        let legacy = cat(legacy, dec(input.work_unit_id).as_str());
        if !str_eq(recorded.operation.as_str(), "decomposition-plan-reconcile") || !str_eq(
            recorded.target.as_str(),
            legacy.as_str(),
        ) {
            return Err(error);
        }
    }
    if !str_eq(recorded.payload_identity.as_str(), payload_identity) {
        return Err(ReconciliationIssue::RetryPayloadDiffers);
    }
    if outcome.plan.plan_id != recorded.successor_plan_id || outcome.predecessor_plan_id
        != predecessor || outcome.closure_id != input.closure_id || outcome.token_ordinal
        != recorded.token_ordinal || outcome.correction_application_id
        != recorded.correction_application_id {
        return Err(ReconciliationIssue::RecordedResultMismatch);
    }
    let expected_correction = reconciliation_correction_handle(
        input.closure_id,
        recorded.session_id,
        recorded.token_id,
        recorded.token_ordinal,
        recorded.operation.as_str(),
        recorded.target.as_str(),
        recorded.review_work,
        recorded.review_design,
    );
    if !str_eq(outcome.projection.observed_correction.as_str(), expected_correction.as_str()) {
        return Err(ReconciliationIssue::CorrectionBoundaryMismatch);
    }
    if !str_eq(input.expected_current, outcome.projection.commit_current.as_str()) {
        return Err(ReconciliationIssue::RetryExpectedCurrentDiffers);
    }
    let mut outcome = outcome;
    outcome.idempotent = true;
    outcome.plan.already_applied = true;
    Ok(outcome)
}

/// Refuses a reconciliation expected current handle that is not a digest.
pub fn require_reconciliation_expected_current(expected_current: &str) -> (res: Result<
    (),
    ReconciliationIssue,
>)
    ensures
        res is Ok <==> crate::text::digest_text(expected_current@),
        res is Err ==> res == Err::<(), ReconciliationIssue>(
            ReconciliationIssue::Plan(PlanIssue::NotDigest(Field::ReconciliationExpectedCurrent)),
        ),
{
    match require_digest(expected_current, Field::ReconciliationExpectedCurrent) {
        Ok(()) => Ok(()),
        Err(e) => Err(ReconciliationIssue::Plan(e)),
    }
}

/// Refuses a plan whose design fingerprint and work binding do not name the
/// requested design version and work.
pub fn check_reconciliation_owner(
    input: &DecompositionReconciliationApplication,
    resolved_design_version_id: i64,
    work_binding: Option<i64>,
) -> (res: Result<(), ReconciliationIssue>)
    ensures
        res is Ok <==> (resolved_design_version_id == input.design_version_id && work_binding
            == Some(input.work_unit_id)),
        res is Err ==> res == Err::<(), ReconciliationIssue>(ReconciliationIssue::OwnerMismatch),
{
    if resolved_design_version_id != input.design_version_id || work_binding != Some(
        input.work_unit_id,
    ) {
        return Err(ReconciliationIssue::OwnerMismatch);
    }
    Ok(())
}

/// Refuses a reconciliation outside the review that found the correction:
/// another work, or a design outside the reviewed package
/// (`review_design_accepts`).
pub fn check_correction_review_owner(
    input: &DecompositionReconciliationApplication,
    review_work: i64,
    review_design_accepts: bool,
) -> (res: Result<(), ReconciliationIssue>)
    ensures
        res is Ok <==> (review_work == input.work_unit_id && review_design_accepts),
        res is Err ==> res == Err::<(), ReconciliationIssue>(
            ReconciliationIssue::OutsideReviewOwner,
        ),
{
    if review_work != input.work_unit_id || !review_design_accepts {
        return Err(ReconciliationIssue::OutsideReviewOwner);
    }
    Ok(())
}

/// What a commit requires of the staged successor: one must exist, and its
/// review must be accepted and clean; a preview needs none.
pub open spec fn spec_staged_successor(
    design_version_id: i64,
    work_unit_id: i64,
    preview: bool,
    staged_owner: Option<crate::records::PlanReviewOwnerResolution>,
) -> Result<(), ReconciliationIssue> {
    match staged_owner {
        None => if preview {
            Ok(())
        } else {
            Err(ReconciliationIssue::RequiresStagedSuccessor { design_version_id, work_unit_id })
        },
        Some(owner) => if owner.state == PlanReviewOwnerState::AcceptedClean {
            Ok(())
        } else {
            Err(ReconciliationIssue::SuccessorReviewRequired { actions: owner.actions })
        },
    }
}

/// Checks the staged successor a reconciliation proceeds from;
/// `staged_owner` is the review owner of the staged successor, none when no
/// successor was staged.
pub fn check_staged_successor(
    input: &DecompositionReconciliationApplication,
    preview: bool,
    staged_owner: Option<crate::records::PlanReviewOwnerResolution>,
) -> (res: Result<(), ReconciliationIssue>)
    ensures
        res == spec_staged_successor(
            input.design_version_id,
            input.work_unit_id,
            preview,
            staged_owner,
        ),
{
    match staged_owner {
        None => if preview {
            Ok(())
        } else {
            Err(
                ReconciliationIssue::RequiresStagedSuccessor {
                    design_version_id: input.design_version_id,
                    work_unit_id: input.work_unit_id,
                },
            )
        },
        Some(owner) => match owner.state {
            PlanReviewOwnerState::AcceptedClean => Ok(()),
            _ => Err(ReconciliationIssue::SuccessorReviewRequired { actions: owner.actions }),
        },
    }
}

/// The ingress identity recorded when the successor was staged, which must
/// exist.
pub fn staged_ingress_identity(stored: Option<String>) -> (res: Result<String, ReconciliationIssue>)
    ensures
        match stored {
            Some(s) => res == Ok::<String, ReconciliationIssue>(s),
            None => res == Err::<String, ReconciliationIssue>(
                ReconciliationIssue::NoIngressIdentity,
            ),
        },
{
    match stored {
        Some(s) => Ok(s),
        None => Err(ReconciliationIssue::NoIngressIdentity),
    }
}

/// The plan file must still hold the staged bytes, and the staged ingress
/// must bind the reviewed content.
pub open spec fn spec_staged_ingress(
    ingress_source_identity: Seq<char>,
    staged_identity: Seq<char>,
    stored_content_identity: Option<Seq<char>>,
    content_identity: Seq<char>,
) -> Result<(), ReconciliationIssue> {
    if ingress_source_identity != staged_identity {
        Err(ReconciliationIssue::BytesChangedAfterStaging)
    } else {
        match stored_content_identity {
            None => Err(ReconciliationIssue::NoReviewedContentIdentity),
            Some(c) => if c != content_identity {
                Err(ReconciliationIssue::IngressNotBindingContent)
            } else {
                Ok(())
            },
        }
    }
}

/// Checks a plan file against the successor staged from it.
pub fn check_staged_ingress(
    ingress_source_identity: &str,
    staged_identity: &str,
    stored_content_identity: Option<&str>,
    content_identity: &str,
) -> (res: Result<(), ReconciliationIssue>)
    ensures
        res == spec_staged_ingress(
            ingress_source_identity@,
            staged_identity@,
            match stored_content_identity {
                Some(c) => Some(c@),
                None => None,
            },
            content_identity@,
        ),
{
    if !str_eq(ingress_source_identity, staged_identity) {
        return Err(ReconciliationIssue::BytesChangedAfterStaging);
    }
    match stored_content_identity {
        None => Err(ReconciliationIssue::NoReviewedContentIdentity),
        Some(c) => if !str_eq(c, content_identity) {
            Err(ReconciliationIssue::IngressNotBindingContent)
        } else {
            Ok(())
        },
    }
}

/// Refuses a recorded reconciliation result whose identity does not match
/// its text.
pub fn check_reconciliation_result(result_json: &str, stored_identity: &str) -> (res: Result<
    (),
    ReconciliationIssue,
>)
    ensures
        res is Ok <==> crate::identity::spec_reconciliation_result_identity(result_json@)
            == stored_identity@,
        res is Err ==> res == Err::<(), ReconciliationIssue>(
            ReconciliationIssue::ResultIdentityInvalid,
        ),
{
    let identity = crate::identity::reconciliation_result_identity(result_json);
    if !str_eq(identity.as_str(), stored_identity) {
        return Err(ReconciliationIssue::ResultIdentityInvalid);
    }
    Ok(())
}

/// The immutable application a recorded reconciliation result belongs to,
/// as stored: its project, successor and predecessor plans, the correction
/// application, and the closure and ordinal of the token it consumed.
#[derive(Clone, Debug, PartialEq, Eq)]
pub struct ImmutableReconciliationApplication {
    pub project: i64,
    pub successor: i64,
    pub predecessor: i64,
    pub correction_application: i64,
    pub closure: i64,
    pub token_ordinal: i64,
}

/// A recorded result matches its application: recorded for the same
/// project, for the same plans, correction, closure and token, not as an
/// idempotent retry, and observing a commit handle of 64 bytes.
pub open spec fn result_matches(
    application: ImmutableReconciliationApplication,
    stored_project: i64,
    outcome: DecompositionReconciliationOutcome,
) -> bool {
    &&& stored_project == application.project
    &&& outcome.plan.plan_id == application.successor
    &&& outcome.predecessor_plan_id == application.predecessor
    &&& outcome.correction_application_id == application.correction_application
    &&& outcome.closure_id == application.closure
    &&& outcome.token_ordinal == application.token_ordinal
    &&& !outcome.idempotent
    &&& vstd::utf8::encode_utf8(outcome.projection.commit_current@).len() == 64
}

/// Refuses a recorded reconciliation result that does not match the
/// application it was recorded for; `stored_project` is the project the
/// result row names.
pub fn check_recorded_result(
    application: &ImmutableReconciliationApplication,
    stored_project: i64,
    outcome: &DecompositionReconciliationOutcome,
) -> (res: Result<(), ReconciliationIssue>)
    ensures
        res is Ok <==> result_matches(*application, stored_project, *outcome),
        res is Err ==> res == Err::<(), ReconciliationIssue>(ReconciliationIssue::ResultMismatch),
{
    if stored_project != application.project || outcome.plan.plan_id != application.successor
        || outcome.predecessor_plan_id != application.predecessor
        || outcome.correction_application_id != application.correction_application
        || outcome.closure_id != application.closure || outcome.token_ordinal
        != application.token_ordinal || outcome.idempotent
        || outcome.projection.commit_current.as_str().as_bytes().len() != 64 {
        return Err(ReconciliationIssue::ResultMismatch);
    }
    Ok(())
}

/// A reconciliation resolved and not yet applied: the successor document, its
/// source, the correction token it consumes, its payload identity and what it
/// projects.
pub struct PendingDecompositionReconciliation {
    pub document: PlanDocument,
    pub source_path: String,
    pub source_identity: String,
    pub session_id: i64,
    pub token_id: i64,
    pub token_ordinal: i64,
    pub payload_identity: String,
    pub projection: DecompositionReconciliationProjection,
}

/// A resolved reconciliation request: the recorded outcome of a retry, or a
/// pending reconciliation.
pub enum DecompositionReconciliationResolution {
    Retry(DecompositionReconciliationOutcome),
    Pending(PendingDecompositionReconciliation),
}

/// The number of checklist boundaries of `items`.
pub open spec fn checklist_total(items: Seq<crate::document::PlanItem>) -> int
    decreases items.len(),
{
    if items.len() == 0 {
        0
    } else {
        checklist_total(items.drop_last()) + items.last().checklist@.len()
    }
}

/// The number of slice dependencies of `slices`.
pub open spec fn dependency_total(slices: Seq<crate::document::PlanSlice>) -> int
    decreases slices.len(),
{
    if slices.len() == 0 {
        0
    } else {
        dependency_total(slices.drop_last()) + slices.last().depends_on@.len()
    }
}

proof fn lemma_checklist_nonneg(items: Seq<crate::document::PlanItem>)
    ensures
        checklist_total(items) >= 0,
    decreases items.len(),
{
    if items.len() > 0 {
        lemma_checklist_nonneg(items.drop_last());
    }
}

proof fn lemma_checklist_prefix(items: Seq<crate::document::PlanItem>, i: int, j: int)
    requires
        0 <= i <= j <= items.len(),
    ensures
        0 <= checklist_total(items.take(i)) <= checklist_total(items.take(j)),
    decreases j - i,
{
    lemma_checklist_nonneg(items.take(i));
    if i < j {
        lemma_checklist_prefix(items, i, j - 1);
        assert(items.take(j).drop_last() =~= items.take(j - 1));
    }
}

proof fn lemma_dependency_nonneg(slices: Seq<crate::document::PlanSlice>)
    ensures
        dependency_total(slices) >= 0,
    decreases slices.len(),
{
    if slices.len() > 0 {
        lemma_dependency_nonneg(slices.drop_last());
    }
}

proof fn lemma_dependency_prefix(slices: Seq<crate::document::PlanSlice>, i: int, j: int)
    requires
        0 <= i <= j <= slices.len(),
    ensures
        0 <= dependency_total(slices.take(i)) <= dependency_total(slices.take(j)),
    decreases j - i,
{
    lemma_dependency_nonneg(slices.take(i));
    if i < j {
        lemma_dependency_prefix(slices, i, j - 1);
        assert(slices.take(j).drop_last() =~= slices.take(j - 1));
    }
}

/// What a preview of a pending reconciliation reports: the successor's
/// counts, unapplied, against its recorded predecessor.
pub open spec fn previewed_outcome(
    p: PendingDecompositionReconciliation,
    closure_id: i64,
) -> DecompositionReconciliationOutcome {
    DecompositionReconciliationOutcome {
        plan: DecompositionApplicationOutcome {
            plan_id: 0,
            task_count: p.document.items@.len() as i64,
            checklist_item_count: checklist_total(p.document.items@) as i64,
            phase_count: p.document.slices@.len() as i64,
            dependency_count: dependency_total(p.document.slices@) as i64,
            already_applied: false,
            applied: false,
        },
        predecessor_plan_id: p.document.reconciliation->0.predecessor,
        closure_id,
        token_ordinal: p.token_ordinal,
        correction_application_id: 0,
        idempotent: false,
        projection: p.projection,
    }
}

/// The counts of a pending reconciliation fit the outcome's integers.
pub open spec fn preview_countable(p: PendingDecompositionReconciliation) -> bool {
    &&& p.document.reconciliation is Some
    &&& checklist_total(p.document.items@) <= i64::MAX
    &&& dependency_total(p.document.slices@) <= i64::MAX
    &&& p.document.items@.len() <= i64::MAX
    &&& p.document.slices@.len() <= i64::MAX
}

/// The outcome a preview of a pending reconciliation reports.
pub fn preview_reconciliation_outcome(
    resolution: PendingDecompositionReconciliation,
    closure_id: i64,
) -> (r: DecompositionReconciliationOutcome)
    requires
        preview_countable(resolution),
    ensures
        r == previewed_outcome(resolution, closure_id),
{
    let ghost p = resolution;
    let mut checklist: i64 = 0;
    let mut i: usize = 0;
    while i < resolution.document.items.len()
        invariant
            resolution == p,
            i <= p.document.items@.len(),
            checklist == checklist_total(p.document.items@.take(i as int)),
            checklist_total(p.document.items@) <= i64::MAX,
        decreases p.document.items@.len() - i,
    {
        proof {
            assert(p.document.items@.take(i as int + 1).drop_last() =~= p.document.items@.take(
                i as int,
            ));
            lemma_checklist_prefix(p.document.items@, i as int + 1, p.document.items@.len() as int);
            lemma_checklist_nonneg(p.document.items@.take(i as int));
            assert(p.document.items@.take(p.document.items@.len() as int) =~= p.document.items@);
        }
        let n = resolution.document.items[i].checklist.len();
        assert(p.document.items@.take(i as int + 1).last() == p.document.items@[i as int]);
        assert(checklist_total(p.document.items@.take(i as int + 1)) == checklist + n);
        assert(checklist_total(p.document.items@.take(i as int + 1)) <= checklist_total(
            p.document.items@,
        ));
        assert(checklist + n <= i64::MAX);
        let m: i64 = n as i64;
        assert(m == n);
        checklist = checklist + m;
        i += 1;
    }
    assert(p.document.items@.take(p.document.items@.len() as int) =~= p.document.items@);
    let mut dependencies: i64 = 0;
    let mut j: usize = 0;
    while j < resolution.document.slices.len()
        invariant
            resolution == p,
            j <= p.document.slices@.len(),
            dependencies == dependency_total(p.document.slices@.take(j as int)),
            dependency_total(p.document.slices@) <= i64::MAX,
        decreases p.document.slices@.len() - j,
    {
        proof {
            assert(p.document.slices@.take(j as int + 1).drop_last() =~= p.document.slices@.take(
                j as int,
            ));
            lemma_dependency_prefix(p.document.slices@, j as int + 1, p.document.slices@.len() as int);
            lemma_dependency_nonneg(p.document.slices@.take(j as int));
            assert(p.document.slices@.take(p.document.slices@.len() as int) =~= p.document.slices@);
        }
        let n = resolution.document.slices[j].depends_on.len();
        assert(p.document.slices@.take(j as int + 1).last() == p.document.slices@[j as int]);
        assert(dependency_total(p.document.slices@.take(j as int + 1)) == dependencies + n);
        assert(dependency_total(p.document.slices@.take(j as int + 1)) <= dependency_total(
            p.document.slices@,
        ));
        assert(dependencies + n <= i64::MAX);
        let m: i64 = n as i64;
        assert(m == n);
        dependencies = dependencies + m;
        j += 1;
    }
    assert(p.document.slices@.take(p.document.slices@.len() as int) =~= p.document.slices@);
    let predecessor = match &resolution.document.reconciliation {
        Some(r) => r.predecessor,
        None => 0,
    };
    let task_count = resolution.document.items.len() as i64;
    let phase_count = resolution.document.slices.len() as i64;
    DecompositionReconciliationOutcome {
        plan: DecompositionApplicationOutcome {
            plan_id: 0,
            task_count,
            checklist_item_count: checklist,
            phase_count,
            dependency_count: dependencies,
            already_applied: false,
            applied: false,
        },
        predecessor_plan_id: predecessor,
        closure_id,
        token_ordinal: resolution.token_ordinal,
        correction_application_id: 0,
        idempotent: false,
        projection: resolution.projection,
    }
}

/// What a preview reports of a resolution: the recorded outcome of a
/// retry, the previewed outcome of a pending reconciliation, or its refusal.
pub open spec fn preview_of(
    r: Result<DecompositionReconciliationResolution, crate::resolution::ResolutionIssue>,
    closure_id: i64,
) -> Result<DecompositionReconciliationOutcome, crate::resolution::ResolutionIssue> {
    match r {
        Ok(DecompositionReconciliationResolution::Retry(o)) => Ok(o),
        Ok(DecompositionReconciliationResolution::Pending(p)) => Ok(previewed_outcome(p, closure_id)),
        Err(e) => Err(e),
    }
}

/// The counts of a plan fit the outcome's integers.
pub open spec fn document_countable(d: PlanDocument) -> bool {
    &&& checklist_total(d.items@) <= i64::MAX
    &&& dependency_total(d.slices@) <= i64::MAX
    &&& d.items@.len() <= i64::MAX
    &&& d.slices@.len() <= i64::MAX
}

/// Previews a reconciliation request: resolves it as a preview (see
/// `reconciliation_resolution`) and reports the recorded outcome of a retry
/// or the previewed outcome of a pending reconciliation, changing nothing.
/// A pending preview is answered only for the expected current handle the
/// plan's reconciliation metadata observed.
pub fn preview_decomposition_reconciliation(
    input: &DecompositionReconciliationApplication,
    document: PlanDocument,
    facts: crate::resolution::ReconciliationFacts,
) -> (res: Result<DecompositionReconciliationOutcome, crate::resolution::ResolutionIssue>)
    requires
        crate::resolution::resolution_inputs_ready(document, facts),
        document_countable(document),
    ensures
        exists|r: Result<DecompositionReconciliationResolution, crate::resolution::ResolutionIssue>|
            #[trigger] crate::resolution::resolution_answer(*input, document, facts, true, r) && res
                == preview_of(r, input.closure_id),
        crate::resolution::spec_resolution_checks(*input, document, facts) is None && res is Ok
            ==> ({
            let o = res->Ok_0;
            &&& input.expected_current@ == document.reconciliation->0.expected_current@
            &&& o.plan.plan_id == 0 && o.correction_application_id == 0 && !o.idempotent
            &&& !o.plan.applied && o.closure_id == input.closure_id
            &&& o.predecessor_plan_id == document.reconciliation->0.predecessor
        }),
{
    let ghost d = document;
    let ghost f = facts;
    let r = crate::resolution::reconciliation_resolution(input, document, facts, true);
    let ghost rr = r;
    let res = match r {
        Ok(DecompositionReconciliationResolution::Retry(o)) => Ok(o),
        Ok(DecompositionReconciliationResolution::Pending(p)) => {
            proof {
                if crate::resolution::spec_resolution_checks(*input, d, f) is Some {
                    assert(false);
                }
            }
            Ok(preview_reconciliation_outcome(p, input.closure_id))
        },
        Err(e) => Err(e),
    };
    proof {
        assert(crate::resolution::resolution_answer(*input, d, f, true, rr));
    }
    res
}

/// What committing a resolved reconciliation does: nothing more for a retry,
/// whose recorded outcome is the result; publish a pending one.
pub enum ReconcileStep {
    Recorded(DecompositionReconciliationOutcome),
    Publish(PendingDecompositionReconciliation),
}

/// The resolution a commit step stands for.
pub open spec fn resolution_of(
    res: Result<ReconcileStep, crate::resolution::ResolutionIssue>,
) -> Result<DecompositionReconciliationResolution, crate::resolution::ResolutionIssue> {
    match res {
        Ok(ReconcileStep::Recorded(o)) => Ok(DecompositionReconciliationResolution::Retry(o)),
        Ok(ReconcileStep::Publish(p)) => Ok(DecompositionReconciliationResolution::Pending(p)),
        Err(e) => Err(e),
    }
}

/// Decides what committing a reconciliation request does: it is resolved
/// (see `reconciliation_resolution`, not as a preview); a retry answers its
/// recorded outcome, a pending reconciliation is published, and every
/// refusal of the resolution (a malformed or stale expected current handle,
/// a plan outside the request's owner, a changed commit handle, ...) is the
/// answer, before anything is written.
pub fn reconcile_decomposition_plan(
    input: &DecompositionReconciliationApplication,
    document: PlanDocument,
    facts: crate::resolution::ReconciliationFacts,
) -> (res: Result<ReconcileStep, crate::resolution::ResolutionIssue>)
    requires
        crate::resolution::resolution_inputs_ready(document, facts),
    ensures
        crate::resolution::resolution_answer(*input, document, facts, false, resolution_of(res)),
{
    match crate::resolution::reconciliation_resolution(input, document, facts, false) {
        Ok(DecompositionReconciliationResolution::Retry(o)) => Ok(ReconcileStep::Recorded(o)),
        Ok(DecompositionReconciliationResolution::Pending(p)) => Ok(ReconcileStep::Publish(p)),
        Err(e) => Err(e),
    }
}

} // verus!
