//! Properties of the ledger that hold across its operations.

use vstd::prelude::*;

use crate::reconciliation::{quote_body, shell_safe, spec_shell_operand};
use crate::metadata::{
    closing_fence, first_occurrence, framed_content, occurs_at, occurs_in, opening_fence,
    spec_fenced_metadata,
};

verus! {

proof fn lemma_first_occurrence_unique(s: Seq<char>, pattern: Seq<char>, i: int, k: int)
    requires
        first_occurrence(s, pattern, i),
        first_occurrence(s, pattern, k),
    ensures
        i == k,
{
    if i < k {
        assert(occurs_at(s, pattern, i));
    } else if k < i {
        assert(occurs_at(s, pattern, k));
    }
}

proof fn lemma_window(s: Seq<char>, pattern: Seq<char>, i: int, k: int)
    requires
        occurs_at(s, pattern, i),
        0 <= k < pattern.len(),
    ensures
        s[i + k] == pattern[k],
{
    assert(s.subrange(i, i + pattern.len())[k] == s[i + k]);
}

/// The canonical content of a plan gives back, as its metadata block,
/// exactly the metadata it was made from, whenever that metadata holds no
/// fence of its own.
pub proof fn lemma_canonical_content_round_trip(m: Seq<char>)
    requires
        !occurs_in(m, opening_fence()),
        !occurs_in(m, closing_fence()),
    ensures
        spec_fenced_metadata(framed_content(m)) == Ok::<Option<Seq<char>>, crate::metadata::MetadataIssue>(
            Some(m),
        ),
{
    reveal_strlit("# Decomposition Plan\n\n```yaml agent-workbench\n");
    reveal_strlit("\n```\n");
    reveal_strlit("```yaml agent-workbench");
    reveal_strlit("\n```");
    let f = opening_fence();
    let c = closing_fence();
    let head: Seq<char> = "# Decomposition Plan\n\n```yaml agent-workbench\n"@;
    let tail: Seq<char> = "\n```\n"@;
    let content = framed_content(m);
    assert(content == head + m + tail);
    assert(f.len() == 23);
    assert(head.len() == 46);
    assert(c.len() == 4);
    assert(tail.len() == 5);
    assert(forall|k: int| 0 <= k < 23 ==> #[trigger] f[k] != '\n');
    assert(f[0] == '`');
    // the opening fence first occurs right after the title
    assert(content.subrange(22, 45) =~= f);
    assert(occurs_at(content, f, 22));
    assert forall|j: int| 0 <= j < 22 implies !#[trigger] occurs_at(content, f, j) by {
        if occurs_at(content, f, j) {
            lemma_window(content, f, j, 0);
            assert(content[j] == head[j]);
        }
    }
    assert(first_occurrence(content, f, 22));
    let start = choose|i: int| first_occurrence(content, f, i);
    lemma_first_occurrence_unique(content, f, start, 22);
    let rest = content.subrange(start + f.len(), content.len() as int);
    assert(rest =~= seq!['\n'] + m + tail);
    // no second opening fence
    assert forall|i: int| !#[trigger] occurs_at(rest, f, i) by {
        if occurs_at(rest, f, i) {
            lemma_window(rest, f, i, 0);
            assert(i >= 1);
            if i + 23 <= 1 + m.len() {
                assert(m.subrange(i - 1, i - 1 + 23) =~= rest.subrange(i, i + 23));
                assert(occurs_at(m, f, i - 1));
            } else {
                let k = 1 + m.len() - i;
                lemma_window(rest, f, i, k);
                assert(rest[1 + m.len() as int] == '\n');
            }
        }
    }
    assert(!occurs_in(rest, f));
    assert(rest[0] == '\n');
    let body = rest.drop_first();
    assert(body =~= m + tail);
    // the closing fence first occurs right after the metadata
    assert(body.subrange(m.len() as int, m.len() as int + 4) =~= c);
    assert(occurs_at(body, c, m.len() as int));
    assert forall|j: int| 0 <= j < m.len() implies !#[trigger] occurs_at(body, c, j) by {
        if occurs_at(body, c, j) {
            if j + 4 <= m.len() {
                assert(m.subrange(j, j + 4) =~= body.subrange(j, j + 4));
                assert(occurs_at(m, c, j));
            } else {
                let k = m.len() - j;
                lemma_window(body, c, j, k);
                assert(body[m.len() as int] == '\n');
            }
        }
    }
    assert(first_occurrence(body, c, m.len() as int));
    let end = choose|i: int| first_occurrence(body, c, i);
    lemma_first_occurrence_unique(body, c, end, m.len() as int);
    assert(body.take(end) =~= m);
}

/// Applying a slot whose current plan is already applied changes nothing:
/// the step only reports that plan as already applied, whatever plan file
/// or review comes with the request.
pub proof fn lemma_apply_applied_plan_reports(
    design_version_id: i64,
    work_unit_id: i64,
    has_plan_path: bool,
    current: crate::records::DecompositionPlanRecord,
    review_owner: Option<crate::records::PlanReviewOwnerResolution>,
    supplied_content: Option<Seq<char>>,
)
    requires
        current.status@ == "applied"@,
    ensures
        crate::lifecycle::spec_apply_step(
            design_version_id,
            work_unit_id,
            has_plan_path,
            Some(current),
            review_owner,
            supplied_content,
        ) == Ok::<crate::lifecycle::ApplyStepView, crate::lifecycle::LifecycleIssue>(
            crate::lifecycle::ApplyStepView::Report { plan_id: current.id, already_applied: true },
        ),
{
    reveal_strlit("applied");
    reveal_strlit("draft");
    reveal_strlit("incomplete");
    assert("applied"@ != "draft"@) by {
        assert("applied"@[0] != "draft"@[0]);
    }
    assert("applied"@ != "incomplete"@) by {
        assert("applied"@[0] != "incomplete"@[0]);
    }
}

/// Applying a slot publishes only its current plan, only when that plan is
/// ready, its review is accepted and clean, and no differing plan file was
/// named.
pub proof fn lemma_apply_publishes_only_reviewed_ready_plans(
    design_version_id: i64,
    work_unit_id: i64,
    has_plan_path: bool,
    current: Option<crate::records::DecompositionPlanRecord>,
    review_owner: Option<crate::records::PlanReviewOwnerResolution>,
    supplied_content: Option<Seq<char>>,
    plan_id: i64,
    observed_handle: Seq<char>,
)
    requires
        crate::lifecycle::spec_apply_step(
            design_version_id,
            work_unit_id,
            has_plan_path,
            current,
            review_owner,
            supplied_content,
        ) == Ok::<crate::lifecycle::ApplyStepView, crate::lifecycle::LifecycleIssue>(
            crate::lifecycle::ApplyStepView::Publish { plan_id, observed_handle },
        ),
    ensures
        current is Some,
        current->0.id == plan_id,
        current->0.status@ == "ready"@,
        review_owner is Some,
        review_owner->0.state == crate::records::PlanReviewOwnerState::AcceptedClean,
        review_owner->0.observed_handle@ == observed_handle,
        !(has_plan_path && supplied_content is Some && supplied_content->0 != current->0.content_identity@),
{
}

/// A retried reconciliation that succeeds returns the recorded outcome,
/// marked idempotent and already applied, and only for the expected current
/// handle that the recorded commit observed.
pub proof fn lemma_retry_returns_recorded_outcome(
    input_expected: Seq<char>,
    design_version_id: i64,
    work_unit_id: i64,
    source_path: Seq<char>,
    predecessor: i64,
    payload_identity: Seq<char>,
    closure_id: i64,
    recorded: crate::reconciliation::RecordedReconciliation,
    outcome: crate::records::DecompositionReconciliationOutcome,
)
    requires
        crate::reconciliation::spec_retry(
            input_expected,
            design_version_id,
            work_unit_id,
            source_path,
            predecessor,
            payload_identity,
            closure_id,
            recorded,
            outcome,
        ) is Ok,
    ensures
        ({
            let r = crate::reconciliation::spec_retry(
                input_expected,
                design_version_id,
                work_unit_id,
                source_path,
                predecessor,
                payload_identity,
                closure_id,
                recorded,
                outcome,
            )->Ok_0;
            &&& r.idempotent
            &&& r.plan.already_applied
            &&& r.plan.plan_id == recorded.successor_plan_id
            &&& r.predecessor_plan_id == predecessor
            &&& r.closure_id == closure_id
            &&& r.projection == outcome.projection
            &&& outcome.projection.commit_current@ == input_expected
            &&& recorded.payload_identity@ == payload_identity
        }),
{
}

/// A revision or validation against a plan that is not superseded, made
/// with a stale expected current handle, is refused and told the current
/// handle.
pub proof fn lemma_stale_handle_refused(
    predecessor: crate::records::DecompositionPlanRecord,
    expected_current: Seq<char>,
    has_replacement: bool,
    draft: bool,
    ready_reconciliation_predecessor: Option<i64>,
)
    requires
        predecessor.status@ != "superseded"@,
        predecessor.current_identity@ != expected_current,
    ensures
        crate::lifecycle::spec_transition_route(
            predecessor,
            expected_current,
            has_replacement,
            draft,
            ready_reconciliation_predecessor,
        ) == Err::<crate::lifecycle::TransitionRoute, crate::lifecycle::LifecycleIssue>(
            crate::lifecycle::LifecycleIssue::PlanChanged {
                current_identity: predecessor.current_identity,
            },
        ),
{
}

/// The current plan a slot resolves to is one of the slot's plans, and an
/// applied plan, when the slot has exactly one, is the current one.
pub proof fn lemma_current_plan_is_a_slot_plan(rows: Seq<crate::lifecycle::PlanSlotRow>, id: i64)
    requires
        crate::lifecycle::spec_current_plan_id(rows) == Ok::<
            Option<i64>,
            crate::lifecycle::LifecycleIssue,
        >(Some(id)),
    ensures
        exists|i: int| 0 <= i < rows.len() && (#[trigger] rows[i]).id == id,
        crate::lifecycle::applied_ids(rows).len() == 1 ==> crate::lifecycle::applied_ids(rows)[0]
            == id,
{
    lemma_applied_ids_are_rows(rows);
    if crate::lifecycle::applied_ids(rows).len() == 1 {
        let k = 0int;
        assert(crate::lifecycle::applied_ids(rows).contains(id)) by {
            assert(crate::lifecycle::applied_ids(rows)[k] == id);
        }
    } else {
        assert(rows[0].id == id);
    }
}

proof fn lemma_applied_ids_are_rows(rows: Seq<crate::lifecycle::PlanSlotRow>)
    ensures
        forall|k: int|
            0 <= k < crate::lifecycle::applied_ids(rows).len() ==> exists|i: int|
                0 <= i < rows.len() && (#[trigger] rows[i]).id == #[trigger] crate::lifecycle::applied_ids(
                    rows,
                )[k],
    decreases rows.len(),
{
    if rows.len() > 0 {
        let prev = rows.drop_last();
        lemma_applied_ids_are_rows(prev);
        assert forall|k: int|
            0 <= k < crate::lifecycle::applied_ids(rows).len() implies exists|i: int|
                0 <= i < rows.len() && (#[trigger] rows[i]).id == #[trigger] crate::lifecycle::applied_ids(
                    rows,
                )[k] by {
            if k < crate::lifecycle::applied_ids(prev).len() {
                assert(crate::lifecycle::applied_ids(rows)[k] == crate::lifecycle::applied_ids(prev)[k]);
                let i = choose|i: int|
                    0 <= i < prev.len() && (#[trigger] prev[i]).id == crate::lifecycle::applied_ids(
                        prev,
                    )[k];
                assert(rows[i] == prev[i]);
            } else {
                assert(rows[rows.len() - 1].id == crate::lifecycle::applied_ids(rows)[k]);
            }
        }
    }
}

/// A plan published as a draft is never ready, and one whose document is not
/// valid is never ready either.
pub proof fn lemma_only_valid_non_drafts_are_ready(draft: bool, valid: bool)
    ensures
        crate::lifecycle::spec_successor_status(draft, valid) == "ready"@ ==> !draft && valid,
{
    reveal_strlit("ready");
    reveal_strlit("draft");
    reveal_strlit("incomplete");
    assert("ready"@ != "draft"@) by {
        assert("ready"@[0] != "draft"@[0]);
    }
    assert("ready"@ != "incomplete"@) by {
        assert("ready"@[0] != "incomplete"@[0]);
    }
}

/// A slot without a current plan always blocks its work, and whenever it
/// has plan files, every action it offers imports one of them.
pub proof fn lemma_slot_without_plan_blocks_work(
    q: crate::records::DecompositionPlanQuery,
    successor: Option<crate::records::DecompositionPlanRecord>,
    cs: Seq<crate::records::DecompositionPlanCandidate>,
    owner: Option<crate::records::PlanReviewOwnerResolution>,
    historical: Seq<bool>,
    tokens: Seq<crate::actions::ReconciliationToken>,
)
    ensures
        crate::actions::spec_decomposition_actions(q, None, successor, cs, owner, historical, tokens).1,
        cs.len() > 0 ==> crate::actions::spec_decomposition_actions(
            q,
            None,
            successor,
            cs,
            owner,
            historical,
            tokens,
        ).0 == crate::actions::import_actions(q, cs),
{
}

/// A status narrowed to one work reports only that work's owners,
/// remediations and corrections.
pub proof fn lemma_narrowed_status_is_the_selected_work(
    owners: Seq<crate::status::OwnerAction>,
    remediations: Seq<crate::status::FindingRemediation>,
    corrections: Seq<crate::status::SourceCorrection>,
    w: i64,
)
    ensures
        forall|i: int|
            0 <= i < crate::status::owners_of(owners, w).len() ==> (#[trigger] crate::status::owners_of(
                owners,
                w,
            )[i]).owner_id == w && crate::status::owners_of(owners, w)[i].owner_type@
                == "work_unit"@,
        forall|i: int|
            0 <= i < crate::status::remediations_of(remediations, w).len() ==> (
            #[trigger] crate::status::remediations_of(remediations, w)[i]).work_unit_id == w,
        forall|i: int|
            0 <= i < crate::status::corrections_of(corrections, w).len() ==> (
            #[trigger] crate::status::corrections_of(corrections, w)[i]).work_unit_id == w,
    decreases owners.len() + remediations.len() + corrections.len(),
{
    if owners.len() > 0 {
        lemma_narrowed_status_is_the_selected_work(owners.drop_last(), remediations, corrections, w);
    }
    if remediations.len() > 0 {
        lemma_narrowed_status_is_the_selected_work(owners, remediations.drop_last(), corrections, w);
    }
    if corrections.len() > 0 {
        lemma_narrowed_status_is_the_selected_work(owners, remediations, corrections.drop_last(), w);
    }
}

/// When the states of preserved dependencies can be carried over, each
/// successor dependency is set once, by the entries in their order: the
/// carried dependencies are the entries' dependencies, and no two are the
/// same.
pub proof fn lemma_carried_dependencies_are_distinct(entries: Seq<crate::carry::DependencyCarry>)
    requires
        crate::carry::carry_dependencies(entries) is Ok,
    ensures
        crate::carry::carry_dependencies(entries)->Ok_0.map_values(
            |c: crate::carry::CarriedDependency| c.0,
        ) == crate::carry::carry_ids(entries),
        forall|i: int, j: int|
            0 <= i < j < entries.len() ==> #[trigger] entries[i].dependency
                != #[trigger] entries[j].dependency,
    decreases entries.len(),
{
    if entries.len() > 0 {
        let rest = entries.drop_last();
        lemma_carried_dependencies_are_distinct(rest);
        let done = crate::carry::carry_dependencies(rest)->Ok_0;
        let e = entries.last();
        assert(crate::carry::carry_ids(entries) =~= crate::carry::carry_ids(rest).push(e.dependency));
        let out = crate::carry::carry_dependencies(entries)->Ok_0;
        assert(out.map_values(|c: crate::carry::CarriedDependency| c.0) =~= done.map_values(
            |c: crate::carry::CarriedDependency| c.0,
        ).push(e.dependency));
        assert forall|i: int, j: int| 0 <= i < j < entries.len() implies #[trigger] entries[i].dependency
            != #[trigger] entries[j].dependency by {
            if j == entries.len() - 1 {
                assert(crate::carry::carry_ids(rest)[i] == entries[i].dependency);
                assert(!crate::carry::carry_ids(rest).contains(e.dependency));
            } else {
                assert(rest[i] == entries[i] && rest[j] == entries[j]);
            }
        }
    }
}

/// Every bundle of derived state is either covered by a plan or reported
/// as uncovered, and only such bundles are reported.
pub proof fn lemma_uncovered_bundles_are_the_rest(bundles: Seq<(i64, i64)>, covered: Seq<(i64, i64)>)
    ensures
        forall|b: (i64, i64)|
            #[trigger] crate::compatibility::uncovered(bundles, covered).contains(b) <==> (
            bundles.contains(b) && !covered.contains(b)),
    decreases bundles.len(),
{
    if bundles.len() > 0 {
        let rest = bundles.drop_last();
        let last = bundles.last();
        lemma_uncovered_bundles_are_the_rest(rest, covered);
        let u = crate::compatibility::uncovered(rest, covered);
        assert(bundles =~= rest.push(last));
        assert forall|b: (i64, i64)| #[trigger] bundles.contains(b) <==> (rest.contains(b) || b == last) by {
            if bundles.contains(b) {
                let k = choose|k: int| 0 <= k < bundles.len() && bundles[k] == b;
                if k < bundles.len() - 1 {
                    assert(rest[k] == b);
                }
            }
            if rest.contains(b) {
                let k = choose|k: int| 0 <= k < rest.len() && rest[k] == b;
                assert(bundles[k] == b);
            }
            if b == last {
                assert(bundles[bundles.len() - 1] == b);
            }
        }
        if covered.contains(last) {
            assert(crate::compatibility::uncovered(bundles, covered) == u);
        } else {
            let v = u.push(last);
            assert(crate::compatibility::uncovered(bundles, covered) == v);
            assert forall|b: (i64, i64)| #[trigger] v.contains(b) <==> (u.contains(b) || b == last) by {
                if v.contains(b) {
                    let k = choose|k: int| 0 <= k < v.len() && v[k] == b;
                    if k < u.len() {
                        assert(u[k] == b);
                    }
                }
                if u.contains(b) {
                    let k = choose|k: int| 0 <= k < u.len() && u[k] == b;
                    assert(v[k] == b);
                }
                if b == last {
                    assert(v[u.len() as int] == b);
                }
            }
        }
    }
}

/// What a POSIX shell makes of `t` as (the rest of) one word, inside
/// single quotes when `quoted`: outside quotes a single quote opens a quoted
/// part, a backslash takes the next character literally (a newline after it
/// would join lines instead), and any other character must be one the shell
/// reads literally; inside quotes every character is literal but the single
/// quote that closes them. None when `t` is not one such word.
pub open spec fn shell_word(t: Seq<char>, quoted: bool) -> Option<Seq<char>>
    decreases t.len(),
{
    if t.len() == 0 {
        if quoted {
            None
        } else {
            Some(Seq::empty())
        }
    } else if quoted {
        if t[0] == '\'' {
            shell_word(t.drop_first(), false)
        } else {
            match shell_word(t.drop_first(), true) {
                Some(w) => Some(seq![t[0]] + w),
                None => None,
            }
        }
    } else if t[0] == '\'' {
        shell_word(t.drop_first(), true)
    } else if t[0] == '\\' {
        if t.len() < 2 || t[1] == '\n' {
            None
        } else {
            match shell_word(t.subrange(2, t.len() as int), false) {
                Some(w) => Some(seq![t[1]] + w),
                None => None,
            }
        }
    } else if shell_safe(t[0]) {
        match shell_word(t.drop_first(), false) {
            Some(w) => Some(seq![t[0]] + w),
            None => None,
        }
    } else {
        None
    }
}

pub open spec fn prefixed(v: Seq<char>, w: Option<Seq<char>>) -> Option<Seq<char>> {
    match w {
        Some(x) => Some(v + x),
        None => None,
    }
}

proof fn lemma_safe_word(s: Seq<char>)
    requires
        forall|i: int| 0 <= i < s.len() ==> shell_safe(#[trigger] s[i]),
    ensures
        shell_word(s, false) == Some(s),
    decreases s.len(),
{
    if s.len() > 0 {
        assert(shell_safe(s[0]));
        let rest = s.drop_first();
        assert forall|i: int| 0 <= i < rest.len() implies shell_safe(#[trigger] rest[i]) by {
            assert(rest[i] == s[i + 1]);
        }
        lemma_safe_word(rest);
        assert(seq![s[0]] + rest =~= s);
    }
}

proof fn lemma_quoted_char(c: char, rest: Seq<char>)
    ensures
        shell_word(
            (if c == '\'' {
                seq!['\'', '\\', '\'', '\'']
            } else {
                seq![c]
            }) + rest,
            true,
        ) == prefixed(seq![c], shell_word(rest, true)),
{
    if c == '\'' {
        let t = seq!['\'', '\\', '\'', '\''] + rest;
        let t1 = t.drop_first();
        assert(t1 =~= seq!['\\', '\'', '\''] + rest);
        let t2 = t1.subrange(2, t1.len() as int);
        assert(t2 =~= seq!['\''] + rest);
        assert(t2.drop_first() =~= rest);
        assert(t[0] == '\'');
        assert(t1[0] == '\\' && t1[1] == '\'');
        assert(t2[0] == '\'');
        assert(shell_word(t2, false) == shell_word(rest, true));
        assert(shell_word(t1, false) == prefixed(seq!['\''], shell_word(rest, true)));
        assert(shell_word(t, true) == shell_word(t1, false));
    } else {
        let t = seq![c] + rest;
        assert(t.drop_first() =~= rest);
        assert(t[0] == c);
    }
}

proof fn lemma_quoted_body(s: Seq<char>, rest: Seq<char>)
    ensures
        shell_word(quote_body(s) + rest, true) == prefixed(s, shell_word(rest, true)),
    decreases s.len(),
{
    if s.len() == 0 {
        assert(quote_body(s) + rest =~= rest);
        if let Some(w) = shell_word(rest, true) {
            assert(s + w =~= w);
        }
    } else {
        let c = s.last();
        let e = if c == '\'' {
            seq!['\'', '\\', '\'', '\'']
        } else {
            seq![c]
        };
        assert(quote_body(s) + rest =~= quote_body(s.drop_last()) + (e + rest));
        lemma_quoted_body(s.drop_last(), e + rest);
        lemma_quoted_char(c, rest);
        if let Some(w) = shell_word(rest, true) {
            assert(s.drop_last() + (seq![c] + w) =~= s + w);
        }
    }
}

/// A POSIX shell reads the operand `shell_operand` makes of a value as
/// exactly one word, and that word is the value.
pub proof fn lemma_shell_operand_is_one_word(s: Seq<char>)
    ensures
        shell_word(spec_shell_operand(s), false) == Some(s),
{
    if s.len() > 0 && forall|i: int| 0 <= i < s.len() ==> shell_safe(#[trigger] s[i]) {
        lemma_safe_word(s);
    } else {
        let t = seq!['\''] + quote_body(s) + seq!['\''];
        assert(t.drop_first() =~= quote_body(s) + seq!['\'']);
        lemma_quoted_body(s, seq!['\'']);
        let q = seq!['\''];
        assert(q.drop_first() =~= Seq::<char>::empty());
        assert(shell_word(q, true) == shell_word(Seq::<char>::empty(), false));
        assert(s + Seq::<char>::empty() =~= s);
    }
}

/// A request to reconcile again a closure and plan source whose
/// reconciliation was recorded is answered from the recorded application
/// alone: whatever the ledger now says of the owner, package, token, scope,
/// successor or staged plan, the answer is the same, and when the retry
/// holds it is the recorded outcome, marked idempotent and already applied.
pub proof fn lemma_recorded_reconciliation_answers_retries(
    input: crate::records::DecompositionReconciliationApplication,
    d: crate::document::PlanDocument,
    f: crate::resolution::ReconciliationFacts,
    g: crate::resolution::ReconciliationFacts,
)
    requires
        f.recorded is Some,
        g.recorded == f.recorded,
        g.source_path@ == f.source_path@,
        g.payload_identity@ == f.payload_identity@,
    ensures
        crate::resolution::spec_resolution_checks(input, d, f)
            == crate::resolution::spec_resolution_checks(input, d, g),
        crate::text::digest_text(input.expected_current@) && d.reconciliation is Some
            ==> crate::resolution::spec_resolution_checks(input, d, f) is Some,
        crate::resolution::spec_resolution_checks(input, d, f) matches Some(Ok(o)) ==> (o.idempotent
            && o.plan.already_applied && o.plan.plan_id == (f.recorded->0).0.successor_plan_id
            && o.projection == (f.recorded->0).1.projection && input.expected_current@
            == (f.recorded->0).1.projection.commit_current@),
{
}

/// The plan stored under a source identity, in a ledger of stored plans
/// given as (id, source identity, in the selected slot, superseded) in
/// storing order: the first one stored under it.
pub open spec fn stored_under(ledger: Seq<(i64, Seq<char>, bool, bool)>, s: Seq<char>) -> Option<i64>
    decreases ledger.len(),
{
    if ledger.len() == 0 {
        None
    } else {
        match stored_under(ledger.drop_last(), s) {
            Some(id) => Some(id),
            None => if ledger.last().1 == s {
                Some(ledger.last().0)
            } else {
                None
            },
        }
    }
}

/// The selected slot holds a plan that is not superseded.
pub open spec fn slot_has_current(ledger: Seq<(i64, Seq<char>, bool, bool)>) -> bool {
    exists|i: int| 0 <= i < ledger.len() && (#[trigger] ledger[i]).2 && !ledger[i].3
}

/// What an import reads of such a ledger for a source identity.
pub open spec fn import_facts(
    document: Option<crate::document::PlanDocument>,
    binding: Result<(), crate::lifecycle::LifecycleIssue>,
    ledger: Seq<(i64, Seq<char>, bool, bool)>,
    s: Seq<char>,
) -> crate::lifecycle::ImportFacts {
    crate::lifecycle::ImportFacts {
        document,
        binding,
        existing: stored_under(ledger, s),
        current_exists: slot_has_current(ledger),
    }
}

/// An import that stored a plan under source identity `s` (as plan `id`)
/// is answered, when made again with the same request and file, with that
/// stored plan: nothing new is stored.
pub proof fn lemma_import_is_idempotent(
    input: crate::records::DecompositionImport,
    ingress: Option<Seq<char>>,
    document: Option<crate::document::PlanDocument>,
    binding: Result<(), crate::lifecycle::LifecycleIssue>,
    ledger: Seq<(i64, Seq<char>, bool, bool)>,
    s: Seq<char>,
    id: i64,
    first: Result<crate::lifecycle::StoreStep, crate::lifecycle::LifecycleIssue>,
    second: Result<crate::lifecycle::StoreStep, crate::lifecycle::LifecycleIssue>,
)
    requires
        crate::lifecycle::import_answer(input, ingress, import_facts(document, binding, ledger, s), first),
        first matches Ok(crate::lifecycle::StoreStep::Store { .. }),
        crate::lifecycle::import_answer(
            input,
            ingress,
            import_facts(document, binding, ledger.push((id, s, true, false)), s),
            second,
        ),
    ensures
        second == Ok::<crate::lifecycle::StoreStep, crate::lifecycle::LifecycleIssue>(
            crate::lifecycle::StoreStep::Existing(id),
        ),
{
    assert(ledger.push((id, s, true, false)).drop_last() =~= ledger);
}

/// Once an import stored a plan in the selected slot, an import of another
/// source identity (the same file under another idempotency key) into that
/// slot is refused: the slot already has a current plan.
pub proof fn lemma_second_import_is_refused(
    input: crate::records::DecompositionImport,
    other: crate::records::DecompositionImport,
    ingress: Option<Seq<char>>,
    document: Option<crate::document::PlanDocument>,
    binding: Result<(), crate::lifecycle::LifecycleIssue>,
    ledger: Seq<(i64, Seq<char>, bool, bool)>,
    s: Seq<char>,
    s2: Seq<char>,
    id: i64,
    first: Result<crate::lifecycle::StoreStep, crate::lifecycle::LifecycleIssue>,
    second: Result<crate::lifecycle::StoreStep, crate::lifecycle::LifecycleIssue>,
)
    requires
        crate::lifecycle::import_answer(input, ingress, import_facts(document, binding, ledger, s), first),
        first matches Ok(crate::lifecycle::StoreStep::Store { .. }),
        crate::lifecycle::spec_import_request(
            other.idempotency_key@,
            other.expected_current@,
            match other.expected_content {
                Some(e) => Some(e@),
                None => None,
            },
            ingress,
        ) is Ok,
        s2 != s,
        stored_under(ledger, s2) is None,
        crate::lifecycle::import_answer(
            other,
            ingress,
            import_facts(document, binding, ledger.push((id, s, true, false)), s2),
            second,
        ),
    ensures
        second == Err::<crate::lifecycle::StoreStep, crate::lifecycle::LifecycleIssue>(
            crate::lifecycle::LifecycleIssue::CurrentPlanExists,
        ),
{
    let pushed = ledger.push((id, s, true, false));
    assert(pushed.drop_last() =~= ledger);
    assert(pushed[ledger.len() as int] == (id, s, true, false));
    assert(slot_has_current(pushed));
}

/// A published application is applied, with one task per item and the
/// plan's counts; once its plan's record is marked applied, applying the
/// slot again, with any plan file, review or file content, only reports the
/// plan as already applied: nothing is published twice.
pub proof fn lemma_published_plan_is_not_published_again(
    plan: crate::records::DecompositionPlanRecord,
    handle: Seq<char>,
    facts: crate::lifecycle::PublicationFacts,
    res: Result<crate::lifecycle::ApplyOutcome, crate::lifecycle::LifecycleIssue>,
    applied: crate::records::DecompositionPlanRecord,
    design_version_id: i64,
    work_unit_id: i64,
    has_plan_path: bool,
    review_owner: Option<crate::records::PlanReviewOwnerResolution>,
    supplied_content: Option<Seq<char>>,
)
    requires
        crate::lifecycle::publication_answer(plan.id, handle, facts, res),
        res matches Ok(crate::lifecycle::ApplyOutcome::Published { .. }),
        crate::lifecycle::applied_record(plan, applied),
    ensures
        res matches Ok(crate::lifecycle::ApplyOutcome::Published { plan_id, outcome, .. }) && plan_id
            == plan.id && outcome == crate::lifecycle::applied_outcome(plan.id, facts.document),
        crate::lifecycle::spec_apply_step(
            design_version_id,
            work_unit_id,
            has_plan_path,
            Some(applied),
            review_owner,
            supplied_content,
        ) == Ok::<crate::lifecycle::ApplyStepView, crate::lifecycle::LifecycleIssue>(
            crate::lifecycle::ApplyStepView::Report { plan_id: plan.id, already_applied: true },
        ),
{
    reveal_strlit("applied");
    reveal_strlit("draft");
    reveal_strlit("incomplete");
    assert("applied"@[0] != "draft"@[0]);
    assert("applied"@[0] != "incomplete"@[0]);
    assert(applied.status@ != "draft"@);
    assert(applied.status@ != "incomplete"@);
}

/// The application a commit of pending reconciliation `p` records: its
/// payload, the token it consumed, and an outcome for the published
/// successor that keeps the pending projection.
pub open spec fn recorded_from(
    input: crate::records::DecompositionReconciliationApplication,
    d: crate::document::PlanDocument,
    f: crate::resolution::ReconciliationFacts,
    p: crate::reconciliation::PendingDecompositionReconciliation,
    rec: crate::reconciliation::RecordedReconciliation,
    o: crate::records::DecompositionReconciliationOutcome,
) -> bool {
    let t = f.token->0;
    &&& rec.payload_identity@ == p.payload_identity@
    &&& rec.session_id == t.session_id && rec.token_id == t.token_id
    &&& rec.token_ordinal == t.token_ordinal
    &&& rec.operation@ == t.operation@ && rec.target@ == t.target@
    &&& rec.parsed_target == t.parsed_target
    &&& rec.review_work == t.review_work && rec.review_design == t.review_design
    &&& rec.successor_plan_id == o.plan.plan_id
    &&& rec.correction_application_id == o.correction_application_id
    &&& o.predecessor_plan_id == d.reconciliation->0.predecessor
    &&& o.closure_id == input.closure_id && o.token_ordinal == t.token_ordinal
    &&& o.projection == p.projection
}

/// A reconciliation committed from a pending resolution, once its
/// application is recorded, answers the same request again with the
/// recorded outcome, marked idempotent and already applied: resuming an
/// interrupted reconciliation repeats its outcome.
pub proof fn lemma_committed_reconciliation_answers_its_retry(
    input: crate::records::DecompositionReconciliationApplication,
    d: crate::document::PlanDocument,
    f: crate::resolution::ReconciliationFacts,
    p: crate::reconciliation::PendingDecompositionReconciliation,
    rec: crate::reconciliation::RecordedReconciliation,
    o: crate::records::DecompositionReconciliationOutcome,
    g: crate::resolution::ReconciliationFacts,
    r: Result<
        crate::reconciliation::DecompositionReconciliationResolution,
        crate::resolution::ResolutionIssue,
    >,
)
    requires
        crate::resolution::resolution_answer(
            input,
            d,
            f,
            false,
            Ok(crate::reconciliation::DecompositionReconciliationResolution::Pending(p)),
        ),
        recorded_from(input, d, f, p, rec, o),
        g.recorded == Some((rec, o)),
        g.source_path@ == f.source_path@,
        g.payload_identity@ == f.payload_identity@,
        crate::resolution::resolution_answer(input, d, g, false, r),
    ensures
        r == Ok::<
            crate::reconciliation::DecompositionReconciliationResolution,
            crate::resolution::ResolutionIssue,
        >(
            crate::reconciliation::DecompositionReconciliationResolution::Retry(
                crate::reconciliation::retried_outcome(o),
            ),
        ),
{
    reveal(crate::resolution::observed);
    let t = f.token->0;
    assert(crate::resolution::spec_resolution_checks(input, d, f) is None);
    assert(crate::resolution::token_handle(input.closure_id, t)
        == crate::reconciliation::spec_correction_handle(
        input.closure_id,
        rec.session_id,
        rec.token_id,
        rec.token_ordinal,
        rec.operation@,
        rec.target@,
        rec.review_work,
        rec.review_design,
    ));
}

/// When a selected work is closed or abandoned, the next action reports it
/// as terminal, with that work and status, and offers no owner actions.
pub proof fn lemma_terminal_selected_work_is_reported(
    ledger_path: String,
    ledger: Option<crate::status::IntegrityOutcome>,
    facts: crate::status::NextActionFacts,
    work_unit_id: i64,
    status: String,
)
    requires
        ledger is Some,
        ledger->0 is Sound,
        crate::status::work_owners_distinct(facts.owners@),
        facts.selected_status == Some(status),
        status@ == "closed"@ || status@ == "abandoned"@,
    ensures
        crate::status::spec_next_action(ledger_path, ledger, facts, Some(work_unit_id)) == Some(
            Ok::<crate::status::NextAction, crate::status::StatusIssue>(
                crate::status::NextAction::SelectedWorkTerminal { work_unit_id, status },
            ),
        ),
{
}

/// A ready plan whose review owner accepted it clean offers exactly one
/// action, applying it to the slot's design version and work, and blocks
/// the work until then.
pub proof fn lemma_reviewed_ready_plan_offers_apply(
    q: crate::records::DecompositionPlanQuery,
    p: crate::records::DecompositionPlanRecord,
    successor: Option<crate::records::DecompositionPlanRecord>,
    candidates: Seq<crate::records::DecompositionPlanCandidate>,
    owner: crate::records::PlanReviewOwnerResolution,
    historical: Seq<bool>,
    tokens: Seq<crate::actions::ReconciliationToken>,
)
    requires
        p.status@ == "ready"@,
        owner.state == crate::records::PlanReviewOwnerState::AcceptedClean,
    ensures
        crate::actions::spec_decomposition_actions(
            q,
            Some(p),
            successor,
            candidates,
            Some(owner),
            historical,
            tokens,
        ) == (
            seq![
                "agent-workbench decomposition apply "@ + crate::text::decimal(
                    q.design_version_id as int,
                ) + " --work "@ + crate::text::decimal(q.work_unit_id as int),
            ],
            true,
        ),
{
    reveal_strlit("ready");
    reveal_strlit("draft");
    reveal_strlit("incomplete");
    assert("ready"@[0] != "draft"@[0]);
    assert("ready"@[0] != "incomplete"@[0]);
}

/// A plan's graph is ready exactly when it covers the active requirements
/// (there being some) and its item gates match the templates both ways: a
/// single item gate without a template, or template gate without an item
/// gate, refuses it for its gate coverage.
pub proof fn lemma_ready_graph_needs_exact_gates(
    active: Seq<Seq<char>>,
    covered: Seq<Seq<char>>,
    invalid_gates: i64,
    missing_gates: i64,
)
    ensures
        crate::publication::spec_ready_graph(active, covered, invalid_gates, missing_gates) is Ok
            <==> (active.len() > 0 && active == covered && invalid_gates == 0 && missing_gates == 0),
        active.len() > 0 && active == covered && (invalid_gates != 0 || missing_gates != 0)
            ==> crate::publication::spec_ready_graph(active, covered, invalid_gates, missing_gates)
            == Err::<(), crate::publication::PublicationIssue>(
            crate::publication::PublicationIssue::GateCoverageNotExact,
        ),
{
}

/// An active remediation whose review plan can go on but whose work is
/// blocked holds the phase back, and its next action is to unblock that
/// work and then continue the finding.
pub proof fn lemma_blocked_remediation_is_unblocked_first(
    f: crate::status::BlockerFacts,
    a: crate::status::ActiveRemediation,
)
    requires
        f.stale is None,
        f.review_blocker is None,
        f.active_remediation == Some(a),
        a.plan_status@ != "exhausted"@,
        a.plan_status@ != "needs_user_decision"@,
        a.work_status@ == "blocked"@,
    ensures
        crate::status::spec_phase_blocker(f) is Some,
        (crate::status::spec_phase_blocker(f)->0).10 == "agent-workbench work unblock "@
            + crate::text::decimal(a.work_unit_id as int) + " --reason \"<reason>\""@
            + "; then continue finding "@ + crate::text::decimal(a.finding_id as int),
{
}

/// A review run still requested or running counts as pending, whatever its
/// outcome fields say.
pub proof fn lemma_unfinished_review_is_pending(row: crate::projection::ReviewRunRow)
    requires
        row.status@ == "requested"@ || row.status@ == "running"@,
    ensures
        crate::projection::spec_review_qualification(row) == "pending"@,
{
    reveal_strlit("requested");
    reveal_strlit("running");
    reveal_strlit("completed");
    assert("requested"@[0] != "completed"@[0]);
    assert("running"@[0] != "completed"@[0]);
}

} // verus!
