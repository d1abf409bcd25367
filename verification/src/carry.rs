//! Carrying the state of preserved predecessor endpoints over to the
//! successor: the state each successor endpoint takes, the evidence and
//! authority a preserved dependency keeps, and the lineage of each
//! predecessor item.

use vstd::prelude::*;

use crate::document::opt_view;
use crate::scope::{domain_text, DomainKind};
use crate::text::{decimal, i64_decimal, str_eq};

verus! {

/// Why the states of a reconciliation cannot be carried over.
#[derive(Clone, Copy, Debug, PartialEq, Eq)]
pub enum CarryIssue {
    StatesDisagree(DomainKind),
    GateSuccessorNotExact,
    UnsupportedPhaseState,
    DependenciesCollapse,
    EvidenceRequired,
    ObsoleteCloseEvidence,
    AuthorityRequired,
    UnsupportedDependencyState,
    ItemSplit,
}

pub open spec fn carry_issue_text(i: CarryIssue) -> Seq<char> {
    match i {
        CarryIssue::StatesDisagree(k) => "retained "@ + domain_text(k)
            + " sources disagree on successor state"@,
        CarryIssue::GateSuccessorNotExact => "retained validation gates require one exact requirement-key successor"@,
        CarryIssue::UnsupportedPhaseState => "unsupported retained phase state"@,
        CarryIssue::DependenciesCollapse => "multiple retained dependencies cannot collapse into one successor edge"@,
        CarryIssue::EvidenceRequired => "preserve dependency effect requires qualifying evidence"@,
        CarryIssue::ObsoleteCloseEvidence => "preserve dependency effect cannot reuse obsolete phase-close evidence"@,
        CarryIssue::AuthorityRequired => "preserve dependency effect requires qualifying authority"@,
        CarryIssue::UnsupportedDependencyState => "unsupported retained dependency state"@,
        CarryIssue::ItemSplit => "one predecessor item cannot split across successor items without explicit item lineage"@,
    }
}

impl CarryIssue {
    pub fn message(&self) -> (res: String)
        ensures
            res@ == carry_issue_text(*self),
    {
        match self {
            CarryIssue::StatesDisagree(k) => String::from_str("retained ").concat(k.label()).concat(
                " sources disagree on successor state",
            ),
            CarryIssue::GateSuccessorNotExact => String::from_str(
                "retained validation gates require one exact requirement-key successor",
            ),
            CarryIssue::UnsupportedPhaseState => String::from_str("unsupported retained phase state"),
            CarryIssue::DependenciesCollapse => String::from_str(
                "multiple retained dependencies cannot collapse into one successor edge",
            ),
            CarryIssue::EvidenceRequired => String::from_str(
                "preserve dependency effect requires qualifying evidence",
            ),
            CarryIssue::ObsoleteCloseEvidence => String::from_str(
                "preserve dependency effect cannot reuse obsolete phase-close evidence",
            ),
            CarryIssue::AuthorityRequired => String::from_str(
                "preserve dependency effect requires qualifying authority",
            ),
            CarryIssue::UnsupportedDependencyState => String::from_str(
                "unsupported retained dependency state",
            ),
            CarryIssue::ItemSplit => String::from_str(
                "one predecessor item cannot split across successor items without explicit item lineage",
            ),
        }
    }
}

// ---- dependencies ----
/// The evidence that a phase was closed.
pub open spec fn close_evidence(phase: i64) -> Seq<char> {
    "phase:"@ + decimal(phase as int) + ":closed"@
}

pub type DependencyStateView = (Seq<char>, Option<Seq<char>>, Option<i64>);

/// The state a preserved dependency takes: open stays open; satisfied needs
/// non-blank evidence, and evidence that the source phase was closed becomes
/// evidence that the successor phase was closed, which it must be; accepted
/// needs an authority.
pub open spec fn spec_recompute(
    source_state: Seq<char>,
    source_evidence: Option<Seq<char>>,
    source_authority: Option<i64>,
    source_from: i64,
    successor_from: i64,
    successor_from_state: Seq<char>,
) -> Result<DependencyStateView, CarryIssue> {
    if source_state == "open"@ {
        Ok(("open"@, None, None))
    } else if source_state == "satisfied"@ {
        match source_evidence {
            None => Err(CarryIssue::EvidenceRequired),
            Some(e) => if crate::successor::all_white_space(e) {
                Err(CarryIssue::EvidenceRequired)
            } else if e == close_evidence(source_from) {
                if successor_from_state != "closed"@ {
                    Err(CarryIssue::ObsoleteCloseEvidence)
                } else {
                    Ok(("satisfied"@, Some(close_evidence(successor_from)), None))
                }
            } else {
                Ok(("satisfied"@, Some(e), None))
            },
        }
    } else if source_state == "accepted"@ {
        match source_authority {
            None => Err(CarryIssue::AuthorityRequired),
            Some(a) => Ok(("accepted"@, None, Some(a))),
        }
    } else {
        Err(CarryIssue::UnsupportedDependencyState)
    }
}

pub open spec fn state_view(r: (&'static str, Option<String>, Option<i64>)) -> DependencyStateView {
    (r.0@, opt_view(r.1), r.2)
}

fn close_evidence_text(phase: i64) -> (r: String)
    ensures
        r@ == close_evidence(phase),
{
    String::from_str("phase:").concat(i64_decimal(phase).as_str()).concat(":closed")
}

/// The state, evidence and authority a preserved dependency takes over from
/// its source.
pub fn recompute_dependency_state(
    source_state: &str,
    source_evidence: Option<String>,
    source_authority: Option<i64>,
    source_from: i64,
    successor_from: i64,
    successor_from_state: &str,
) -> (res: Result<(&'static str, Option<String>, Option<i64>), CarryIssue>)
    ensures
        match spec_recompute(
            source_state@,
            opt_view(source_evidence),
            source_authority,
            source_from,
            successor_from,
            successor_from_state@,
        ) {
            Ok(v) => res matches Ok(r) && state_view(r) == v,
            Err(e) => res == Err::<(&'static str, Option<String>, Option<i64>), CarryIssue>(e),
        },
{
    if str_eq(source_state, "open") {
        return Ok(("open", None, None));
    }
    if str_eq(source_state, "satisfied") {
        let evidence = match source_evidence {
            None => return Err(CarryIssue::EvidenceRequired),
            Some(e) => e,
        };
        if crate::successor::blank(evidence.as_str()) {
            return Err(CarryIssue::EvidenceRequired);
        }
        let predecessor_close = close_evidence_text(source_from);
        if str_eq(evidence.as_str(), predecessor_close.as_str()) {
            if !str_eq(successor_from_state, "closed") {
                return Err(CarryIssue::ObsoleteCloseEvidence);
            }
            return Ok(("satisfied", Some(close_evidence_text(successor_from)), None));
        }
        return Ok(("satisfied", Some(evidence), None));
    }
    if str_eq(source_state, "accepted") {
        return match source_authority {
            None => Err(CarryIssue::AuthorityRequired),
            Some(a) => Ok(("accepted", None, Some(a))),
        };
    }
    Err(CarryIssue::UnsupportedDependencyState)
}

/// A preserved dependency of the successor and its source: the successor
/// dependency, the source's state, evidence and authority, the source's
/// from phase, and the successor's from phase with its state.
#[derive(Clone, Debug, PartialEq, Eq)]
pub struct DependencyCarry {
    pub dependency: i64,
    pub source_state: String,
    pub source_evidence: Option<String>,
    pub source_authority: Option<i64>,
    pub source_from: i64,
    pub successor_from: i64,
    pub successor_from_state: String,
}

pub type CarriedDependency = (i64, Seq<char>, Option<Seq<char>>, Option<i64>);

pub open spec fn carry_ids(entries: Seq<DependencyCarry>) -> Seq<i64> {
    entries.map_values(|e: DependencyCarry| e.dependency)
}

/// The states preserved dependencies take, in order; refused at the first
/// successor dependency that a second source would also set, or whose
/// state cannot be carried over.
pub open spec fn carry_dependencies(entries: Seq<DependencyCarry>) -> Result<
    Seq<CarriedDependency>,
    CarryIssue,
>
    decreases entries.len(),
{
    if entries.len() == 0 {
        Ok(Seq::empty())
    } else {
        match carry_dependencies(entries.drop_last()) {
            Err(e) => Err(e),
            Ok(done) => {
                let e = entries.last();
                if carry_ids(entries.drop_last()).contains(e.dependency) {
                    Err(CarryIssue::DependenciesCollapse)
                } else {
                    match spec_recompute(
                        e.source_state@,
                        opt_view(e.source_evidence),
                        e.source_authority,
                        e.source_from,
                        e.successor_from,
                        e.successor_from_state@,
                    ) {
                        Err(x) => Err(x),
                        Ok(v) => Ok(done.push((e.dependency, v.0, v.1, v.2))),
                    }
                }
            },
        }
    }
}

pub open spec fn carried_view(c: (i64, &'static str, Option<String>, Option<i64>)) -> CarriedDependency {
    (c.0, c.1@, opt_view(c.2), c.3)
}

pub open spec fn carried_views(s: Seq<(i64, &'static str, Option<String>, Option<i64>)>) -> Seq<
    CarriedDependency,
> {
    s.map_values(|c: (i64, &'static str, Option<String>, Option<i64>)| carried_view(c))
}

fn seen_id(entries: &Vec<DependencyCarry>, upto: usize, id: i64) -> (r: bool)
    requires
        upto <= entries@.len(),
    ensures
        r == carry_ids(entries@.take(upto as int)).contains(id),
{
    let mut k: usize = 0;
    while k < upto
        invariant
            upto <= entries@.len(),
            k <= upto,
            forall|j: int| 0 <= j < k ==> entries@[j].dependency != id,
        decreases upto - k,
    {
        if entries[k].dependency == id {
            assert(carry_ids(entries@.take(upto as int))[k as int] == id);
            return true;
        }
        k += 1;
    }
    proof {
        if carry_ids(entries@.take(upto as int)).contains(id) {
            let j = choose|j: int|
                0 <= j < carry_ids(entries@.take(upto as int)).len() && carry_ids(
                    entries@.take(upto as int),
                )[j] == id;
            assert(entries@[j].dependency == id);
        }
    }
    false
}

/// The state each preserved successor dependency takes, with its evidence
/// and authority.
pub fn carry_dependency_states(entries: &Vec<DependencyCarry>) -> (res: Result<
    Vec<(i64, &'static str, Option<String>, Option<i64>)>,
    CarryIssue,
>)
    ensures
        match carry_dependencies(entries@) {
            Ok(v) => res matches Ok(r) && carried_views(r@) == v,
            Err(e) => res matches Err(x) && x == e,
        },
{
    let mut out: Vec<(i64, &'static str, Option<String>, Option<i64>)> = Vec::new();
    let mut i: usize = 0;
    assert(entries@.take(0) =~= Seq::<DependencyCarry>::empty());
    assert(carried_views(out@) =~= Seq::<CarriedDependency>::empty());
    while i < entries.len()
        invariant
            i <= entries@.len(),
            carry_dependencies(entries@.take(i as int)) == Ok::<Seq<CarriedDependency>, CarryIssue>(
                carried_views(out@),
            ),
        decreases entries@.len() - i,
    {
        let e = &entries[i];
        assert(entries@.take(i as int + 1).drop_last() =~= entries@.take(i as int));
        assert(entries@.take(i as int + 1).last() == entries@[i as int]);
        if seen_id(entries, i, e.dependency) {
            proof {
                lemma_carry_error_stays(entries@, i as int + 1);
            }
            return Err(CarryIssue::DependenciesCollapse);
        }
        let r = recompute_dependency_state(
            e.source_state.as_str(),
            e.source_evidence.clone(),
            e.source_authority,
            e.source_from,
            e.successor_from,
            e.successor_from_state.as_str(),
        );
        match r {
            Err(x) => {
                proof {
                    lemma_carry_error_stays(entries@, i as int + 1);
                }
                return Err(x);
            },
            Ok((state, evidence, authority)) => {
                let ghost before = out@;
                out.push((e.dependency, state, evidence, authority));
                assert(carried_views(out@) =~= carried_views(before).push(
                    carried_view(out@.last()),
                ));
            },
        }
        i += 1;
    }
    assert(entries@.take(entries@.len() as int) =~= entries@);
    Ok(out)
}

proof fn lemma_carry_error_stays(entries: Seq<DependencyCarry>, n: int)
    requires
        0 <= n <= entries.len(),
        carry_dependencies(entries.take(n)) is Err,
    ensures
        carry_dependencies(entries) == carry_dependencies(entries.take(n)),
    decreases entries.len() - n,
{
    if n < entries.len() {
        assert(entries.take(n + 1).drop_last() =~= entries.take(n));
        lemma_carry_error_stays(entries, n + 1);
    } else {
        assert(entries.take(n) =~= entries);
    }
}

// ---- successor endpoint states ----
/// Every two sources that set the same successor endpoint agree on its state.
pub open spec fn states_agree(s: Seq<(i64, String)>) -> bool {
    forall|a: int, b: int|
        #![trigger s[a], s[b]]
        0 <= a < s.len() && 0 <= b < s.len() && s[a].0 == s[b].0 ==> s[a].1@ == s[b].1@
}

pub open spec fn ids_increasing(m: Seq<(i64, String)>) -> bool {
    forall|a: int, b: int| #![trigger m[a], m[b]] 0 <= a < b < m.len() ==> m[a].0 < m[b].0
}

/// Some source in `s` sets endpoint `id` to `state`.
pub open spec fn sets(s: Seq<(i64, String)>, id: i64, state: Seq<char>) -> bool {
    exists|a: int| 0 <= a < s.len() && (#[trigger] s[a]).0 == id && s[a].1@ == state
}

/// `m` holds each endpoint of `s` once, in increasing order, with the state
/// its sources give it.
pub open spec fn state_map_of(m: Seq<(i64, String)>, s: Seq<(i64, String)>) -> bool {
    &&& ids_increasing(m)
    &&& forall|k: int| 0 <= k < m.len() ==> #[trigger] sets(s, m[k].0, m[k].1@)
    &&& forall|a: int| 0 <= a < s.len() ==> #[trigger] sets(m, s[a].0, s[a].1@)
}

proof fn lemma_state_known(out: Seq<(i64, String)>, t: Seq<(i64, String)>, p: int, x: (i64, String))
    requires
        state_map_of(out, t),
        states_agree(t),
        0 <= p < out.len(),
        out[p].0 == x.0,
        out[p].1@ == x.1@,
    ensures
        states_agree(t.push(x)),
        state_map_of(out, t.push(x)),
{
    let t1 = t.push(x);
    let n = t.len() as int;
    assert forall|a: int, b: int|
        #![trigger t1[a], t1[b]]
        0 <= a < t1.len() && 0 <= b < t1.len() && t1[a].0 == t1[b].0 implies t1[a].1@ == t1[b].1@ by {
        if a < n && b < n {
            assert(t[a] == t1[a] && t[b] == t1[b]);
        } else if a < n || b < n {
            let c = if a < n {
                a
            } else {
                b
            };
            assert(t[c] == t1[c]);
            assert(sets(out, t[c].0, t[c].1@));
            let k = choose|k: int| 0 <= k < out.len() && (#[trigger] out[k]).0 == t[c].0 && out[k].1@ == t[c].1@;
            if k < p {
                assert(out[k].0 < out[p].0);
            } else if k > p {
                assert(out[p].0 < out[k].0);
            }
        }
    }
    assert forall|a: int| 0 <= a < t1.len() implies #[trigger] sets(out, t1[a].0, t1[a].1@) by {
        if a < n {
            assert(t[a] == t1[a]);
            assert(sets(out, t[a].0, t[a].1@));
        } else {
            assert(out[p].0 == t1[a].0 && out[p].1@ == t1[a].1@);
        }
    }
    assert forall|k: int| 0 <= k < out.len() implies #[trigger] sets(t1, out[k].0, out[k].1@) by {
        assert(sets(t, out[k].0, out[k].1@));
        let a = choose|a: int| 0 <= a < t.len() && (#[trigger] t[a]).0 == out[k].0 && t[a].1@ == out[k].1@;
        assert(t1[a] == t[a]);
    }
}

proof fn lemma_state_new(
    before: Seq<(i64, String)>,
    t: Seq<(i64, String)>,
    p: int,
    x: (i64, String),
)
    requires
        state_map_of(before, t),
        states_agree(t),
        0 <= p <= before.len(),
        forall|q: int| 0 <= q < p ==> before[q].0 < x.0,
        p < before.len() ==> before[p].0 > x.0,
    ensures
        states_agree(t.push(x)),
        state_map_of(before.insert(p, x), t.push(x)),
{
    let t1 = t.push(x);
    let out = before.insert(p, x);
    let n = t.len() as int;
    assert forall|k: int| 0 <= k < before.len() implies (#[trigger] before[k]).0 != x.0 by {
        if k > p {
            assert(before[p].0 < before[k].0);
        }
    }
    assert forall|a: int, b: int|
        #![trigger t1[a], t1[b]]
        0 <= a < t1.len() && 0 <= b < t1.len() && t1[a].0 == t1[b].0 implies t1[a].1@ == t1[b].1@ by {
        if a < n && b < n {
            assert(t[a] == t1[a] && t[b] == t1[b]);
        } else if a < n || b < n {
            let c = if a < n {
                a
            } else {
                b
            };
            assert(t[c] == t1[c]);
            assert(sets(before, t[c].0, t[c].1@));
            let k = choose|k: int|
                0 <= k < before.len() && (#[trigger] before[k]).0 == t[c].0 && before[k].1@ == t[c].1@;
            assert(before[k].0 != x.0);
        }
    }
    assert forall|i: int, j: int| #![trigger out[i], out[j]] 0 <= i < j < out.len() implies out[i].0
        < out[j].0 by {
        if j < p {
            assert(out[i] == before[i] && out[j] == before[j]);
        } else if j == p {
            assert(out[i] == before[i]);
        } else if i == p {
            assert(out[j] == before[j - 1]);
            if j - 1 > p {
                assert(before[p].0 < before[j - 1].0);
            }
        } else if i < p {
            assert(out[i] == before[i] && out[j] == before[j - 1]);
        } else {
            assert(out[i] == before[i - 1] && out[j] == before[j - 1]);
        }
    }
    assert forall|a: int| 0 <= a < t1.len() implies #[trigger] sets(out, t1[a].0, t1[a].1@) by {
        if a < n {
            assert(t[a] == t1[a]);
            assert(sets(before, t[a].0, t[a].1@));
            let k = choose|k: int|
                0 <= k < before.len() && (#[trigger] before[k]).0 == t[a].0 && before[k].1@ == t[a].1@;
            if k < p {
                assert(out[k] == before[k]);
            } else {
                assert(out[k + 1] == before[k]);
            }
        } else {
            assert(out[p] == x);
        }
    }
    assert forall|k: int| 0 <= k < out.len() implies #[trigger] sets(t1, out[k].0, out[k].1@) by {
        if k == p {
            assert(t1[n] == out[k]);
        } else {
            let j = if k < p {
                k
            } else {
                k - 1
            };
            assert(out[k] == before[j]);
            assert(sets(t, before[j].0, before[j].1@));
            let a = choose|a: int|
                0 <= a < t.len() && (#[trigger] t[a]).0 == before[j].0 && t[a].1@ == before[j].1@;
            assert(t1[a] == t[a]);
        }
    }
}

proof fn lemma_state_conflict(out: Seq<(i64, String)>, s: Seq<(i64, String)>, i: int, p: int)
    requires
        0 <= i < s.len(),
        state_map_of(out, s.take(i)),
        0 <= p < out.len(),
        out[p].0 == s[i].0,
        out[p].1@ != s[i].1@,
    ensures
        !states_agree(s),
{
    let t = s.take(i);
    assert(sets(t, out[p].0, out[p].1@));
    let a = choose|a: int| 0 <= a < t.len() && (#[trigger] t[a]).0 == out[p].0 && t[a].1@ == out[p].1@;
    assert(s[a] == t[a]);
}

/// The state each successor endpoint of one kind takes from its preserved
/// sources, by endpoint; refused when two sources of one endpoint disagree.
pub fn uniform_state_map(kind: DomainKind, states: &Vec<(i64, String)>) -> (res: Result<
    Vec<(i64, String)>,
    CarryIssue,
>)
    ensures
        res is Ok <==> states_agree(states@),
        res is Err ==> res == Err::<Vec<(i64, String)>, CarryIssue>(CarryIssue::StatesDisagree(kind)),
        res matches Ok(m) ==> state_map_of(m@, states@),
{
    let ghost s = states@;
    let mut out: Vec<(i64, String)> = Vec::new();
    let mut i: usize = 0;
    assert(s.take(0) =~= Seq::<(i64, String)>::empty());
    while i < states.len()
        invariant
            i <= s.len(),
            s == states@,
            states_agree(s.take(i as int)),
            state_map_of(out@, s.take(i as int)),
        decreases s.len() - i,
    {
        let id = states[i].0;
        assert(s.take(i as int + 1) =~= s.take(i as int).push(s[i as int]));
        let mut p: usize = 0;
        while p < out.len() && out[p].0 < id
            invariant
                p <= out@.len(),
                forall|q: int| 0 <= q < p ==> out@[q].0 < id,
            decreases out@.len() - p,
        {
            p += 1;
        }
        if p < out.len() && out[p].0 == id {
            if !str_eq(out[p].1.as_str(), states[i].1.as_str()) {
                proof {
                    lemma_state_conflict(out@, s, i as int, p as int);
                }
                return Err(CarryIssue::StatesDisagree(kind));
            }
            proof {
                lemma_state_known(out@, s.take(i as int), p as int, s[i as int]);
            }
        } else {
            let ghost before = out@;
            out.insert(p, (id, states[i].1.clone()));
            proof {
                assert(out@ == before.insert(p as int, s[i as int]));
                lemma_state_new(before, s.take(i as int), p as int, s[i as int]);
            }
        }
        i += 1;
    }
    assert(s.take(s.len() as int) =~= s);
    Ok(out)
}

/// The retained validation gates carried over must each have found the one
/// successor gate of the same requirement key: as many were found
/// (`mapped`) as there are preserved gate mappings (`expected`).
pub fn check_retained_gate_states(mapped: i64, expected: i64) -> (res: Result<(), CarryIssue>)
    ensures
        res is Ok <==> mapped == expected,
        res is Err ==> res == Err::<(), CarryIssue>(CarryIssue::GateSuccessorNotExact),
{
    if mapped != expected {
        return Err(CarryIssue::GateSuccessorNotExact);
    }
    Ok(())
}

/// The state of a preserved phase's epoch: the phase's own state, except
/// that a phase accepted out of scope ends its epoch as superseded; none
/// for another state.
pub open spec fn spec_epoch_state(state: Seq<char>) -> Option<Seq<char>> {
    if state == "open"@ || state == "blocked"@ || state == "closed"@ || state == "split"@ {
        Some(state)
    } else if state == "accepted_out_of_scope"@ {
        Some("superseded"@)
    } else {
        None
    }
}

/// What carrying a phase state over records: its epoch's state, and whether
/// the phase is accepted out of scope as a whole.
pub fn carry_phase_state(state: &str) -> (res: Result<(&'static str, bool), CarryIssue>)
    ensures
        match spec_epoch_state(state@) {
            Some(e) => res matches Ok(r) && r.0@ == e && r.1 == (state@ == "accepted_out_of_scope"@),
            None => res == Err::<(&'static str, bool), CarryIssue>(CarryIssue::UnsupportedPhaseState),
        },
{
    proof {
        reveal_strlit("open");
        reveal_strlit("blocked");
        reveal_strlit("closed");
        reveal_strlit("split");
        reveal_strlit("accepted_out_of_scope");
    }
    if str_eq(state, "open") {
        Ok(("open", false))
    } else if str_eq(state, "blocked") {
        Ok(("blocked", false))
    } else if str_eq(state, "closed") {
        Ok(("closed", false))
    } else if str_eq(state, "split") {
        Ok(("split", false))
    } else if str_eq(state, "accepted_out_of_scope") {
        Ok(("superseded", true))
    } else {
        Err(CarryIssue::UnsupportedPhaseState)
    }
}

pub open spec fn retired_lineage_reason() -> Seq<char> {
    "all predecessor task endpoints were explicitly retired"@
}

/// The lineage of a predecessor item, from the successor items its
/// retained tasks map to: retired when there is none, retained onto the one
/// there is, refused when there are several.
pub fn item_lineage(successor_items: &Vec<i64>) -> (res: Result<
    (Option<i64>, &'static str, Option<&'static str>),
    CarryIssue,
>)
    ensures
        successor_items@.len() == 0 ==> (res matches Ok(r) && r.0 is None && r.1@ == "retired"@
            && r.2 is Some && r.2->0@ == retired_lineage_reason()),
        successor_items@.len() == 1 ==> (res matches Ok(r) && r.0 == Some(successor_items@[0])
            && r.1@ == "retained"@ && r.2 is None),
        successor_items@.len() > 1 ==> res == Err::<
            (Option<i64>, &'static str, Option<&'static str>),
            CarryIssue,
        >(CarryIssue::ItemSplit),
{
    if successor_items.len() == 0 {
        Ok((None, "retired", Some("all predecessor task endpoints were explicitly retired")))
    } else if successor_items.len() == 1 {
        Ok((Some(successor_items[0]), "retained", None))
    } else {
        Err(CarryIssue::ItemSplit)
    }
}

} // verus!
