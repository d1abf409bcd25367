//! Structural validation of a Decomposition Plan document: header, slices and
//! their dependency graph, items with their checklist boundaries and gates,
//! and the reconciliation mappings of a successor plan.

use vstd::prelude::*;

use crate::document::{
    opt_view, ChecklistReconciliation, DependencyReconciliation, GateReconciliation, PlanDocument,
    PlanItem, PlanReconciliation, PlanSlice, PhaseReconciliation, ReconciliationEffect,
    TaskReconciliation,
};
use crate::issue::{Field, MappingKind, PlanIssue};
use crate::text::{
    ascii_alphanumeric, ascii_hex_digit, canonical_text, digest_text, is_ascii_hex_digit,
    is_canonical_text, is_token_char, portable_token, str_eq,
};

verus! {

/// Some element of `v` has the view `x`.
pub open spec fn has_view(v: Seq<String>, x: Seq<char>) -> bool {
    exists|i: int| 0 <= i < v.len() && (#[trigger] v[i])@ == x
}

/// No two elements of `v` have the same view.
pub open spec fn distinct_views(v: Seq<String>) -> bool {
    forall|i: int, j: int| 0 <= i < j < v.len() ==> (#[trigger] v[i])@ != (#[trigger] v[j])@
}

/// Every element of `v` is canonical text.
pub open spec fn all_canonical(v: Seq<String>) -> bool {
    forall|i: int| 0 <= i < v.len() ==> canonical_text((#[trigger] v[i])@)
}

/// A list of canonical, pairwise different texts.
pub open spec fn unique_canonical(v: Seq<String>) -> bool {
    all_canonical(v) && distinct_views(v)
}

pub open spec fn header_valid(p: PlanDocument) -> bool {
    &&& p.record_type@ == "decomposition_plan"@
    &&& p.format == 1
    &&& canonical_text(p.key@)
    &&& digest_text(p.design_fingerprint@)
}

pub open spec fn has_slice(p: PlanDocument, key: Seq<char>) -> bool {
    exists|i: int| 0 <= i < p.slices@.len() && (#[trigger] p.slices@[i]).key@ == key
}

pub open spec fn has_item(p: PlanDocument, key: Seq<char>) -> bool {
    exists|i: int| 0 <= i < p.items@.len() && (#[trigger] p.items@[i]).key@ == key
}

/// Keys and titles are canonical, orders positive and unique, keys unique.
pub open spec fn slices_valid(p: PlanDocument) -> bool {
    &&& forall|i: int|
        0 <= i < p.slices@.len() ==> {
            let s = #[trigger] p.slices@[i];
            &&& canonical_text(s.key@)
            &&& canonical_text(s.title@)
            &&& s.order > 0
        }
    &&& forall|i: int, j: int|
        0 <= i < j < p.slices@.len() ==> (#[trigger] p.slices@[i]).order != (
        #[trigger] p.slices@[j]).order
    &&& forall|i: int, j: int|
        0 <= i < j < p.slices@.len() ==> (#[trigger] p.slices@[i]).key@ != (
        #[trigger] p.slices@[j]).key@
}

/// Each slice depends only on other existing slices, each at most once.
pub open spec fn slice_dependencies_valid(p: PlanDocument) -> bool {
    forall|i: int|
        0 <= i < p.slices@.len() ==> {
            let s = #[trigger] p.slices@[i];
            &&& distinct_views(s.depends_on@)
            &&& forall|k: int|
                0 <= k < s.depends_on@.len() ==> {
                    &&& (#[trigger] s.depends_on@[k])@ != s.key@
                    &&& has_slice(p, s.depends_on@[k]@)
                }
        }
}

/// Slice `j` is a dependency of slice `i`.
pub open spec fn slice_edge(slices: Seq<PlanSlice>, i: int, j: int) -> bool {
    &&& 0 <= i < slices.len()
    &&& 0 <= j < slices.len()
    &&& has_view(slices[i].depends_on@, slices[j].key@)
}

pub open spec fn is_dependency_path(slices: Seq<PlanSlice>, path: Seq<int>) -> bool {
    forall|k: int| 0 <= k < path.len() - 1 ==> slice_edge(slices, #[trigger] path[k], path[k + 1])
}

/// Some slice reaches itself through its dependencies.
pub open spec fn has_cycle(slices: Seq<PlanSlice>) -> bool {
    exists|path: Seq<int>|
        #![trigger is_dependency_path(slices, path)]
        path.len() >= 2 && is_dependency_path(slices, path) && path[0] == path[path.len() - 1]
}

} // verus!

verus! {

/// Refuses text that is empty or has whitespace at either end.
pub fn require_text(value: &str, field: Field) -> (r: Result<(), PlanIssue>)
    ensures
        r is Ok <==> canonical_text(value@),
        r is Err ==> r == Err::<(), PlanIssue>(PlanIssue::NotCanonical(field)),
{
    if is_canonical_text(value) {
        Ok(())
    } else {
        Err(PlanIssue::NotCanonical(field))
    }
}

/// Refuses anything but canonical text made of ASCII alphanumerics, `.`, `_` and `-`.
pub fn require_key(value: &str, field: Field) -> (r: Result<(), PlanIssue>)
    ensures
        r is Ok <==> portable_token(value@),
        !canonical_text(value@) ==> r == Err::<(), PlanIssue>(PlanIssue::NotCanonical(field)),
        canonical_text(value@) && !portable_token(value@) ==> r == Err::<(), PlanIssue>(
            PlanIssue::NotPortable(field),
        ),
{
    require_text(value, field)?;
    let n = value.unicode_len();
    let mut i: usize = 0;
    while i < n
        invariant
            n == value@.len(),
            i <= n,
            canonical_text(value@),
            forall|j: int| 0 <= j < i ==> is_token_char(#[trigger] value@[j]),
        decreases n - i,
    {
        let c = value.get_char(i);
        if !(ascii_alphanumeric(c) || c == '.' || c == '_' || c == '-') {
            return Err(PlanIssue::NotPortable(field));
        }
        i += 1;
    }
    Ok(())
}

/// Refuses anything but sixty-four hexadecimal digits.
pub fn require_digest(value: &str, field: Field) -> (r: Result<(), PlanIssue>)
    ensures
        r is Ok <==> digest_text(value@),
        r is Err ==> r == Err::<(), PlanIssue>(PlanIssue::NotDigest(field)),
{
    let n = value.unicode_len();
    if n != 64 {
        return Err(PlanIssue::NotDigest(field));
    }
    let mut i: usize = 0;
    while i < n
        invariant
            n == value@.len(),
            i <= n,
            forall|j: int| 0 <= j < i ==> is_ascii_hex_digit(#[trigger] value@[j]),
        decreases n - i,
    {
        if !ascii_hex_digit(value.get_char(i)) {
            return Err(PlanIssue::NotDigest(field));
        }
        i += 1;
    }
    Ok(())
}

/// Whether some element of `values` has the view of `value`.
pub fn contains_text(values: &Vec<String>, value: &String) -> (res: bool)
    ensures
        res == has_view(values@, value@),
{
    let mut i: usize = 0;
    while i < values.len()
        invariant
            i <= values@.len(),
            forall|j: int| 0 <= j < i ==> (#[trigger] values@[j])@ != value@,
        decreases values@.len() - i,
    {
        if values[i] == *value {
            return true;
        }
        i += 1;
    }
    false
}

/// Refuses a list holding non-canonical text or the same text twice.
pub fn unique_nonempty(values: &Vec<String>, field: Field) -> (r: Result<(), PlanIssue>)
    ensures
        r is Ok <==> unique_canonical(values@),
        r is Err ==> r == Err::<(), PlanIssue>(PlanIssue::NotCanonical(field)) || r == Err::<
            (),
            PlanIssue,
        >(PlanIssue::NotUnique(field)),
        r == Err::<(), PlanIssue>(PlanIssue::NotCanonical(field)) ==> !all_canonical(values@),
        r == Err::<(), PlanIssue>(PlanIssue::NotUnique(field)) ==> !distinct_views(values@),
        r == as_result(unique_issue(values@, field)),
{
    let ghost f = |k: int| unique_element_issue(values@, field, k);
    let mut i: usize = 0;
    while i < values.len()
        invariant
            i <= values@.len(),
            all_canonical(values@.take(i as int)),
            distinct_views(values@.take(i as int)),
            f == (|k: int| unique_element_issue(values@, field, k)),
            first_issue(i as int, f) is None,
        decreases values@.len() - i,
    {
        if require_text(values[i].as_str(), field).is_err() {
            proof {
                assert(first_issue(i as int + 1, f) == Some(PlanIssue::NotCanonical(field)));
                lemma_first_issue_stays(f, i as int + 1, values@.len() as int);
            }
            return Err(PlanIssue::NotCanonical(field));
        }
        let mut j: usize = 0;
        while j < i
            invariant
                j <= i < values@.len(),
                forall|k: int| 0 <= k < j ==> (#[trigger] values@[k])@ != values@[i as int]@,
                canonical_text(values@[i as int]@),
                f == (|k: int| unique_element_issue(values@, field, k)),
                first_issue(i as int, f) is None,
            decreases i - j,
        {
            if values[j] == values[i] {
                assert(values@.take(i as int + 1)[j as int] == values@[j as int]);
                proof {
                    assert(unique_element_issue(values@, field, i as int) == Some(
                        PlanIssue::NotUnique(field),
                    ));
                    assert(first_issue(i as int + 1, f) == Some(PlanIssue::NotUnique(field)));
                    lemma_first_issue_stays(f, i as int + 1, values@.len() as int);
                }
                return Err(PlanIssue::NotUnique(field));
            }
            j += 1;
        }
        assert(values@.take(i as int + 1) =~= values@.take(i as int).push(values@[i as int]));
        assert(unique_element_issue(values@, field, i as int) is None);
        assert(first_issue(i as int + 1, f) is None);
        i += 1;
    }
    assert(values@.take(values@.len() as int) =~= values@);
    Ok(())
}

/// Refuses a document that is not a format-1 Decomposition Plan with a
/// canonical key and a SHA-256 design fingerprint.
pub fn validate_plan_header(plan: &PlanDocument) -> (r: Result<(), PlanIssue>)
    ensures
        r is Ok <==> header_valid(*plan),
        !(plan.record_type@ == "decomposition_plan"@ && plan.format == 1) ==> r == Err::<
            (),
            PlanIssue,
        >(PlanIssue::UnsupportedFormat),
        plan.record_type@ == "decomposition_plan"@ && plan.format == 1 && !canonical_text(
            plan.key@,
        ) ==> r == Err::<(), PlanIssue>(PlanIssue::NotCanonical(Field::PlanKey)),
        plan.record_type@ == "decomposition_plan"@ && plan.format == 1 && canonical_text(
            plan.key@,
        ) && !digest_text(plan.design_fingerprint@) ==> r == Err::<(), PlanIssue>(
            PlanIssue::NotDigest(Field::DesignFingerprint),
        ),
        r == as_result(header_issue(*plan)),
{
    if !str_eq(plan.record_type.as_str(), "decomposition_plan") || plan.format != 1 {
        return Err(PlanIssue::UnsupportedFormat);
    }
    require_text(plan.key.as_str(), Field::PlanKey)?;
    require_digest(plan.design_fingerprint.as_str(), Field::DesignFingerprint)?;
    Ok(())
}

/// The index of the first slice with the given key.
pub fn find_slice(slices: &Vec<PlanSlice>, key: &String) -> (r: Option<usize>)
    ensures
        r matches Some(i) ==> i < slices@.len() && slices@[i as int].key@ == key@ && forall|
            j: int,
        |
            0 <= j < i ==> (#[trigger] slices@[j]).key@ != key@,
        r is None ==> forall|j: int| 0 <= j < slices@.len() ==> (#[trigger] slices@[j]).key@ != key@,
{
    let mut i: usize = 0;
    while i < slices.len()
        invariant
            i <= slices@.len(),
            forall|j: int| 0 <= j < i ==> (#[trigger] slices@[j]).key@ != key@,
        decreases slices@.len() - i,
    {
        if slices[i].key == *key {
            return Some(i);
        }
        i += 1;
    }
    None
}

} // verus!

verus! {

/// Slice keys are pairwise different and every dependency names a slice.
pub open spec fn dependency_graph_resolved(slices: Seq<PlanSlice>) -> bool {
    &&& forall|i: int, j: int|
        0 <= i < j < slices.len() ==> (#[trigger] slices[i]).key@ != (#[trigger] slices[j]).key@
    &&& forall|i: int, k: int|
        0 <= i < slices.len() && 0 <= k < slices[i].depends_on@.len() ==> exists|j: int|
            0 <= j < slices.len() && (#[trigger] slices[j]).key@ == (
            #[trigger] slices[i].depends_on@[k])@
}

/// Depth-first search state over slice indices.
struct CycleSearch {
    visiting: Vec<bool>,
    visited: Vec<bool>,
    stack: Ghost<Seq<int>>,
    finished: Ghost<Seq<int>>,
}

/// Every dependency of a finished slice finished before it.
spec fn finish_order_closed(slices: Seq<PlanSlice>, finished: Seq<int>) -> bool {
    forall|a: int, w: int|
        0 <= a < finished.len() && #[trigger] slice_edge(slices, finished[a], w) ==> exists|b: int|
            0 <= b < a && #[trigger] finished[b] == w
}

spec fn in_range(s: Seq<int>, n: int) -> bool {
    forall|i: int| 0 <= i < s.len() ==> 0 <= #[trigger] s[i] < n
}

impl CycleSearch {
    spec fn wf(&self, slices: Seq<PlanSlice>) -> bool {
        let n = slices.len();
        let stack = self.stack@;
        let finished = self.finished@;
        &&& self.visiting@.len() == n
        &&& self.visited@.len() == n
        &&& stack.no_duplicates()
        &&& finished.no_duplicates()
        &&& in_range(stack, n as int)
        &&& in_range(finished, n as int)
        &&& forall|v: int| 0 <= v < n ==> (#[trigger] self.visiting@[v] <==> stack.contains(v))
        &&& forall|v: int| 0 <= v < n ==> (#[trigger] self.visited@[v] <==> finished.contains(v))
        &&& forall|v: int| 0 <= v < n ==> !(#[trigger] self.visiting@[v] && self.visited@[v])
        &&& is_dependency_path(slices, stack)
        &&& finish_order_closed(slices, finished)
    }
}

proof fn lemma_bounded_unique_len(s: Seq<int>, n: int)
    requires
        s.no_duplicates(),
        in_range(s, n),
        0 <= n,
    ensures
        s.len() <= n,
{
    s.unique_seq_to_set();
    vstd::set_lib::lemma_int_range(0, n);
    assert(s.to_set().subset_of(vstd::set_lib::set_int_range(0, n)));
    vstd::set_lib::lemma_len_subset(s.to_set(), vstd::set_lib::set_int_range(0, n));
}

/// Along a dependency path, finishing positions strictly decrease.
proof fn lemma_path_descends(slices: Seq<PlanSlice>, finished: Seq<int>, path: Seq<int>)
    requires
        finish_order_closed(slices, finished),
        finished.no_duplicates(),
        is_dependency_path(slices, path),
        path.len() >= 2,
        finished.contains(path[0]),
    ensures
        exists|a: int, b: int|
            0 <= b < a < finished.len() && finished[a] == path[0] && finished[b] == path[path.len()
                - 1],
    decreases path.len(),
{
    let a0 = choose|a: int| 0 <= a < finished.len() && finished[a] == path[0];
    if path.len() == 2 {
        assert(slice_edge(slices, path[0], path[1]));
        assert(slice_edge(slices, finished[a0], path[1]));
    } else {
        let prefix = path.drop_last();
        assert forall|k: int| 0 <= k < prefix.len() - 1 implies slice_edge(
            slices,
            #[trigger] prefix[k],
            prefix[k + 1],
        ) by {
            assert(slice_edge(slices, path[k], path[k + 1]));
        }
        lemma_path_descends(slices, finished, prefix);
        let (a, b) = choose|a: int, b: int|
            0 <= b < a < finished.len() && finished[a] == prefix[0] && finished[b] == prefix[
                prefix.len() - 1
            ];
        let last = path.len() - 1;
        assert(slice_edge(slices, path[last - 1], path[last]));
        assert(slice_edge(slices, finished[b], path[last]));
        let c = choose|c: int| 0 <= c < b && #[trigger] finished[c] == path[last];
        assert(finished[a] == path[0]);
        assert(a == a0 || finished[a] != finished[a0]);
    }
}

proof fn lemma_no_cycle(slices: Seq<PlanSlice>, finished: Seq<int>)
    requires
        finish_order_closed(slices, finished),
        finished.no_duplicates(),
        forall|v: int| 0 <= v < slices.len() ==> finished.contains(v),
    ensures
        !has_cycle(slices),
{
    if has_cycle(slices) {
        let path = choose|path: Seq<int>|
            #![trigger is_dependency_path(slices, path)]
            path.len() >= 2 && is_dependency_path(slices, path) && path[0] == path[path.len() - 1];
        assert(slice_edge(slices, path[0], path[1]));
        lemma_path_descends(slices, finished, path);
        let (a, b) = choose|a: int, b: int|
            0 <= b < a < finished.len() && finished[a] == path[0] && finished[b] == path[path.len()
                - 1];
        assert(finished[a] == finished[b]);
    }
}

fn visit_slice(slices: &Vec<PlanSlice>, k: usize, search: &mut CycleSearch) -> (r: Result<
    (),
    PlanIssue,
>)
    requires
        dependency_graph_resolved(slices@),
        old(search).wf(slices@),
        k < slices@.len(),
        old(search).stack@.len() > 0 ==> slice_edge(
            slices@,
            old(search).stack@[old(search).stack@.len() - 1],
            k as int,
        ),
    ensures
        r is Ok ==> {
            &&& final(search).wf(slices@)
            &&& final(search).stack@ == old(search).stack@
            &&& final(search).visiting@ == old(search).visiting@
            &&& final(search).visited@[k as int]
            &&& final(search).finished@.len() >= old(search).finished@.len()
            &&& final(search).finished@.take(old(search).finished@.len() as int) == old(
                search,
            ).finished@
        },
        r is Err ==> r == Err::<(), PlanIssue>(PlanIssue::SliceCycle) && has_cycle(slices@),
    decreases slices@.len() - old(search).stack@.len(),
{
    let ghost n = slices@.len() as int;
    if search.visited[k] {
        assert(search.finished@.take(search.finished@.len() as int) =~= search.finished@);
        return Ok(());
    }
    if search.visiting[k] {
        proof {
            let stack = search.stack@;
            assert(stack.contains(k as int));
            assert(is_dependency_path(slices@, stack));
            let p = choose|p: int| 0 <= p < stack.len() && stack[p] == k as int;
            let path = stack.subrange(p, stack.len() as int).push(k as int);
            assert forall|q: int| 0 <= q < path.len() - 1 implies slice_edge(
                slices@,
                #[trigger] path[q],
                path[q + 1],
            ) by {
                if q < path.len() - 2 {
                    assert(path[q] == stack[p + q]);
                    assert(path[q + 1] == stack[p + q + 1]);
                    assert(slice_edge(slices@, stack[p + q], stack[p + q + 1]));
                } else {
                    assert(path[q] == stack[stack.len() - 1]);
                }
            }
            assert(is_dependency_path(slices@, path));
        }
        return Err(PlanIssue::SliceCycle);
    }
    let ghost old_finished = search.finished@;
    let ghost old_stack = search.stack@;
    let ghost old_visiting = search.visiting@;
    let ghost old_visited = search.visited@;
    search.visiting.set(k, true);
    proof {
        search.stack@ = search.stack@.push(k as int);
        assert forall|q: int| 0 <= q < search.stack@.len() - 1 implies slice_edge(
            slices@,
            #[trigger] search.stack@[q],
            search.stack@[q + 1],
        ) by {
            if q < old_stack.len() - 1 {
                assert(slice_edge(slices@, old_stack[q], old_stack[q + 1]));
            }
        }
        assert forall|v: int| 0 <= v < n implies (search.visiting@[v] <==> search.stack@.contains(
            v,
        )) by {
            if v == k {
                assert(search.stack@[old_stack.len() as int] == v);
            } else if old_stack.contains(v) {
                let q = choose|q: int| 0 <= q < old_stack.len() && old_stack[q] == v;
                assert(search.stack@[q] == v);
            } else if search.stack@.contains(v) {
                let q = choose|q: int| 0 <= q < search.stack@.len() && search.stack@[q] == v;
                assert(old_stack[q] == v);
            }
        }
        assert(!old_stack.contains(k as int));
        assert forall|a: int, b: int|
            0 <= a < search.stack@.len() && 0 <= b < search.stack@.len() && a != b implies search.stack@[a]
            != search.stack@[b] by {
            if a < old_stack.len() && b < old_stack.len() {
                assert(old_stack[a] != old_stack[b]);
            } else if a < old_stack.len() {
                assert(old_stack.contains(old_stack[a]));
            } else if b < old_stack.len() {
                assert(old_stack.contains(old_stack[b]));
            }
        }
        lemma_bounded_unique_len(search.stack@, n);
    }
    let deps = &slices[k].depends_on;
    let mut d: usize = 0;
    while d < deps.len()
        invariant
            dependency_graph_resolved(slices@),
            k < slices@.len(),
            deps == slices@[k as int].depends_on,
            d <= deps@.len(),
            search.wf(slices@),
            search.stack@ == old_stack.push(k as int),
            old_stack == old(search).stack@,
            old_visiting.len() == n,
            search.visiting@ == old_visiting.update(k as int, true),
            !old_visiting[k as int],
            search.finished@.len() >= old_finished.len(),
            search.finished@.take(old_finished.len() as int) == old_finished,
            old_stack.len() + 1 <= n,
            n == slices@.len(),
            forall|e: int|
                0 <= e < d ==> exists|j: int|
                    0 <= j < n && (#[trigger] slices@[j]).key@ == (#[trigger] deps@[e])@
                        && search.visited@[j],
        decreases deps@.len() - d,
    {
        let found = find_slice(slices, &deps[d]);
        proof {
            assert(exists|j: int|
                0 <= j < slices@.len() && (#[trigger] slices@[j]).key@ == (
                #[trigger] slices@[k as int].depends_on@[d as int])@);
        }
        let j = found.unwrap();
        assert(slice_edge(slices@, k as int, j as int)) by {
            assert(slices@[k as int].depends_on@[d as int]@ == slices@[j as int].key@);
        }
        let ghost before = search.finished@;
        let ghost before_visited = search.visited@;
        assert(0 <= slices@.len() - search.stack@.len());
        assert(slices@.len() - search.stack@.len() < slices@.len() - old(search).stack@.len());
        let res = visit_slice(slices, j, search);
        if res.is_err() {
            return res;
        }
        proof {
            assert(search.finished@.take(old_finished.len() as int) =~= before.take(
                old_finished.len() as int,
            ));
            assert forall|v: int| 0 <= v < n && before_visited[v] implies search.visited@[v] by {
                let q = choose|q: int| 0 <= q < before.len() && before[q] == v;
                assert(search.finished@.take(before.len() as int)[q] == v);
            }
            assert forall|e: int|
                0 <= e < d + 1 implies exists|jj: int|
                0 <= jj < n && (#[trigger] slices@[jj]).key@ == (#[trigger] deps@[e])@
                    && search.visited@[jj] by {
                if e < d {
                    let jj = choose|jj: int|
                        0 <= jj < n && (#[trigger] slices@[jj]).key@ == (#[trigger] deps@[e])@
                            && before_visited[jj];
                    assert(search.visited@[jj]);
                } else {
                    assert(slices@[j as int].key@ == deps@[e]@);
                }
            }
        }
        d += 1;
    }
    assert(search.visiting@[k as int]);
    assert(!search.visited@[k as int]);
    let ghost loop_finished = search.finished@;
    let ghost loop_visited = search.visited@;
    search.visiting.set(k, false);
    search.visited.set(k, true);
    proof {
        assert(!loop_visited[k as int]);
        assert(!loop_finished.contains(k as int));
        search.stack@ = old_stack;
        search.finished@ = loop_finished.push(k as int);
        assert(search.visiting@ =~= old_visiting);
        let fin = search.finished@;
        assert forall|v: int| 0 <= v < n implies (search.visited@[v] <==> fin.contains(v)) by {
            if v == k {
                assert(fin[loop_finished.len() as int] == v);
            } else if loop_finished.contains(v) {
                let q = choose|q: int| 0 <= q < loop_finished.len() && loop_finished[q] == v;
                assert(fin[q] == v);
            } else if fin.contains(v) {
                let q = choose|q: int| 0 <= q < fin.len() && fin[q] == v;
                assert(loop_finished[q] == v);
            }
        }
        assert forall|a: int, w: int|
            0 <= a < fin.len() && #[trigger] slice_edge(slices@, fin[a], w) implies exists|b: int|
            0 <= b < a && #[trigger] fin[b] == w by {
            if a < loop_finished.len() {
                assert(slice_edge(slices@, loop_finished[a], w));
                let b = choose|b: int| 0 <= b < a && #[trigger] loop_finished[b] == w;
                assert(fin[b] == w);
            } else {
                let e = choose|e: int|
                    0 <= e < deps@.len() && (#[trigger] deps@[e])@ == slices@[w].key@;
                let jj = choose|jj: int|
                    0 <= jj < n && (#[trigger] slices@[jj]).key@ == (#[trigger] deps@[e])@
                        && loop_visited[jj];
                assert(jj == w);
                let b = choose|b: int| 0 <= b < loop_finished.len() && loop_finished[b] == w;
                assert(fin[b] == w);
            }
        }
        assert(fin.take(old_finished.len() as int) =~= loop_finished.take(
            old_finished.len() as int,
        ));
    }
    Ok(())
}

/// Refuses a dependency graph with a cycle.
pub fn ensure_acyclic(slices: &Vec<PlanSlice>) -> (r: Result<(), PlanIssue>)
    requires
        dependency_graph_resolved(slices@),
    ensures
        r is Ok <==> !has_cycle(slices@),
        r is Err ==> r == Err::<(), PlanIssue>(PlanIssue::SliceCycle),
{
    let n = slices.len();
    let mut visiting: Vec<bool> = Vec::new();
    let mut visited: Vec<bool> = Vec::new();
    let mut i: usize = 0;
    while i < n
        invariant
            i <= n,
            n == slices@.len(),
            visiting@.len() == i,
            visited@.len() == i,
            forall|v: int| 0 <= v < i ==> !visiting@[v] && !visited@[v],
        decreases n - i,
    {
        visiting.push(false);
        visited.push(false);
        i += 1;
    }
    let mut search = CycleSearch {
        visiting,
        visited,
        stack: Ghost(Seq::<int>::empty()),
        finished: Ghost(Seq::<int>::empty()),
    };
    assert(search.wf(slices@));
    let mut i: usize = 0;
    while i < n
        invariant
            i <= n,
            n == slices@.len(),
            dependency_graph_resolved(slices@),
            search.wf(slices@),
            search.stack@.len() == 0,
            forall|v: int| 0 <= v < i ==> search.visited@[v],
        decreases n - i,
    {
        let ghost before = search.finished@;
        let ghost before_visited = search.visited@;
        let res = visit_slice(slices, i, &mut search);
        if res.is_err() {
            return res;
        }
        proof {
            assert forall|v: int| 0 <= v < i + 1 implies search.visited@[v] by {
                if v < i {
                    assert(before_visited[v]);
                    let q = choose|q: int| 0 <= q < before.len() && before[q] == v;
                    assert(search.finished@.take(before.len() as int)[q] == v);
                }
            }
        }
        i += 1;
    }
    proof {
        assert forall|v: int| 0 <= v < slices@.len() implies search.finished@.contains(v) by {
            assert(search.visited@[v]);
        }
        lemma_no_cycle(slices@, search.finished@);
    }
    Ok(())
}

} // verus!

verus! {

pub open spec fn boundary_valid(item: PlanItem, index: int) -> bool {
    let b = item.checklist@[index];
    &&& canonical_text(b.key@)
    &&& canonical_text(b.condition@)
    &&& canonical_text(b.evidence_kind@)
    &&& unique_canonical(b.gates@)
    &&& forall|g: int|
        0 <= g < b.gates@.len() ==> has_view(item.completion.gates@, (#[trigger] b.gates@[g])@)
}

/// An item's texts are canonical, it names a known slice, covers at least one
/// requirement with at least one checklist boundary, and its gates and
/// boundaries are unique and consistent.
pub open spec fn item_valid(p: PlanDocument, item: PlanItem) -> bool {
    &&& canonical_text(item.key@)
    &&& has_slice(p, item.slice@)
    &&& canonical_text(item.title@)
    &&& canonical_text(item.details@)
    &&& canonical_text(item.completion.outcome@)
    &&& canonical_text(item.completion.observation@)
    &&& canonical_text(item.completion.evidence_owner@)
    &&& canonical_text(item.completion.evidence_kind@)
    &&& item.requirements@.len() > 0
    &&& item.checklist@.len() > 0
    &&& unique_canonical(item.requirements@)
    &&& unique_canonical(item.completion.gates@)
    &&& forall|b: int| 0 <= b < item.checklist@.len() ==> #[trigger] boundary_valid(item, b)
    &&& forall|a: int, b: int|
        0 <= a < b < item.checklist@.len() ==> (#[trigger] item.checklist@[a]).key@ != (
        #[trigger] item.checklist@[b]).key@
}

pub open spec fn items_valid(p: PlanDocument) -> bool {
    &&& forall|i: int| 0 <= i < p.items@.len() ==> item_valid(p, #[trigger] p.items@[i])
    &&& forall|i: int, j: int|
        0 <= i < j < p.items@.len() ==> (#[trigger] p.items@[i]).key@ != (
        #[trigger] p.items@[j]).key@
}

/// Some item belongs to the slice with this key.
pub open spec fn slice_owned(p: PlanDocument, key: Seq<char>) -> bool {
    exists|j: int| 0 <= j < p.items@.len() && (#[trigger] p.items@[j]).slice@ == key
}

/// Every slice owns at least one item.
pub open spec fn slices_populated(p: PlanDocument) -> bool {
    forall|i: int| 0 <= i < p.slices@.len() ==> slice_owned(p, (#[trigger] p.slices@[i]).key@)
}

} // verus!

verus! {

fn canonical_boundary(item: &PlanItem, b: usize) -> (r: Result<(), PlanIssue>)
    requires
        b < item.checklist@.len(),
    ensures
        r is Ok <==> boundary_valid(*item, b as int),
        r == as_result(boundary_issue(*item, b as int)),
{
    let boundary = &item.checklist[b];
    require_text(boundary.key.as_str(), Field::BoundaryKey)?;
    require_text(boundary.condition.as_str(), Field::BoundaryCondition)?;
    require_text(boundary.evidence_kind.as_str(), Field::BoundaryEvidenceKind)?;
    unique_nonempty(&boundary.gates, Field::ChecklistGate)?;
    let ghost h = |x: int| gate_coverage_issue(*item, b as int, x);
    let mut g: usize = 0;
    while g < boundary.gates.len()
        invariant
            b < item.checklist@.len(),
            boundary == item.checklist@[b as int],
            g <= boundary.gates@.len(),
            forall|k: int|
                0 <= k < g ==> has_view(item.completion.gates@, (#[trigger] boundary.gates@[k])@),
            h == (|x: int| gate_coverage_issue(*item, b as int, x)),
            first_issue(g as int, h) is None,
            canonical_text(boundary.key@),
            canonical_text(boundary.condition@),
            canonical_text(boundary.evidence_kind@),
            unique_issue(boundary.gates@, Field::ChecklistGate) is None,
        decreases boundary.gates@.len() - g,
    {
        if !contains_text(&item.completion.gates, &boundary.gates[g]) {
            proof {
                assert(first_issue(g as int + 1, h) == Some(PlanIssue::BoundaryGateUncovered));
                lemma_first_issue_stays(h, g as int + 1, boundary.gates@.len() as int);
            }
            return Err(PlanIssue::BoundaryGateUncovered);
        }
        assert(first_issue(g as int + 1, h) is None);
        g += 1;
    }
    Ok(())
}

fn validate_item(plan: &PlanDocument, i: usize) -> (r: Result<(), PlanIssue>)
    requires
        i < plan.items@.len(),
        canonical_text(plan.items@[i as int].key@),
    ensures
        r is Ok <==> item_valid(*plan, plan.items@[i as int]),
        r == as_result(item_issue(*plan, plan.items@[i as int])),
{
    let item = &plan.items[i];
    let found = find_slice(&plan.slices, &item.slice);
    if found.is_none() {
        return Err(PlanIssue::ItemUnknownSlice);
    }
    proof {
        let j = found.unwrap() as int;
        assert(plan.slices@[j].key@ == item.slice@);
    }
    require_text(item.title.as_str(), Field::ItemTitle)?;
    require_text(item.details.as_str(), Field::ItemDetails)?;
    require_text(item.completion.outcome.as_str(), Field::CompletionOutcome)?;
    require_text(item.completion.observation.as_str(), Field::CompletionObservation)?;
    require_text(item.completion.evidence_owner.as_str(), Field::EvidenceOwner)?;
    require_text(item.completion.evidence_kind.as_str(), Field::EvidenceKind)?;
    if item.requirements.len() == 0 || item.checklist.len() == 0 {
        return Err(PlanIssue::ItemCoverage);
    }
    unique_nonempty(&item.requirements, Field::ItemRequirement)?;
    unique_nonempty(&item.completion.gates, Field::CompletionGate)?;
    let ghost f = |x: int| boundary_entry_issue(*item, x);
    assert(item_issue(*plan, *item) == first_issue(item.checklist@.len() as int, f));
    let mut b: usize = 0;
    while b < item.checklist.len()
        invariant
            i < plan.items@.len(),
            item == plan.items@[i as int],
            b <= item.checklist@.len(),
            forall|c: int| 0 <= c < b ==> #[trigger] boundary_valid(*item, c),
            forall|c: int, d: int|
                0 <= c < d < b ==> (#[trigger] item.checklist@[c]).key@ != (
                #[trigger] item.checklist@[d]).key@,
            f == (|x: int| boundary_entry_issue(*item, x)),
            first_issue(b as int, f) is None,
            item_issue(*plan, *item) == first_issue(item.checklist@.len() as int, f),
        decreases item.checklist@.len() - b,
    {
        let checked = canonical_boundary(item, b);
        if checked.is_err() {
            proof {
                assert(first_issue(b as int + 1, f) == boundary_issue(*item, b as int));
                lemma_first_issue_stays(f, b as int + 1, item.checklist@.len() as int);
            }
            return checked;
        }
        let mut c: usize = 0;
        while c < b
            invariant
                i < plan.items@.len(),
                item == plan.items@[i as int],
                b < item.checklist@.len(),
                c <= b,
                forall|e: int|
                    0 <= e < c ==> (#[trigger] item.checklist@[e]).key@ != item.checklist@[b as int].key@,
                f == (|x: int| boundary_entry_issue(*item, x)),
                first_issue(b as int, f) is None,
                item_issue(*plan, *item) == first_issue(item.checklist@.len() as int, f),
                boundary_issue(*item, b as int) is None,
            decreases b - c,
        {
            if item.checklist[c].key == item.checklist[b].key {
                assert(item.checklist@[c as int].key@ == item.checklist@[b as int].key@);
                assert(!(forall|x: int, y: int|
                    0 <= x < y < item.checklist@.len() ==> (#[trigger] item.checklist@[x]).key@ != (
                    #[trigger] item.checklist@[y]).key@));
                proof {
                    assert(first_issue(b as int + 1, f) == Some(PlanIssue::BoundaryKeyDuplicate));
                    lemma_first_issue_stays(f, b as int + 1, item.checklist@.len() as int);
                }
                return Err(PlanIssue::BoundaryKeyDuplicate);
            }
            c += 1;
        }
        assert(first_issue(b as int + 1, f) is None);
        b += 1;
    }
    Ok(())
}

fn slice_texts(slice: &PlanSlice) -> (r: Result<(), PlanIssue>)
    ensures
        r == (if !canonical_text(slice.key@) {
            Err::<(), PlanIssue>(PlanIssue::NotCanonical(Field::SliceKey))
        } else if !canonical_text(slice.title@) {
            Err(PlanIssue::NotCanonical(Field::SliceTitle))
        } else {
            Ok(())
        }),
{
    require_text(slice.key.as_str(), Field::SliceKey)?;
    match require_text(slice.title.as_str(), Field::SliceTitle) {
        Ok(()) => Ok(()),
        Err(e) => Err(e),
    }
}

fn validate_slices(plan: &PlanDocument) -> (r: Result<(), PlanIssue>)
    ensures
        r is Ok <==> slices_valid(*plan),
        r == as_result(slices_issue(*plan)),
{
    let ghost f = |k: int| slice_issue(*plan, k);
    let mut i: usize = 0;
    while i < plan.slices.len()
        invariant
            i <= plan.slices@.len(),
            f == (|k: int| slice_issue(*plan, k)),
            first_issue(i as int, f) is None,
            forall|a: int|
                0 <= a < i ==> {
                    let s = #[trigger] plan.slices@[a];
                    &&& canonical_text(s.key@)
                    &&& canonical_text(s.title@)
                    &&& s.order > 0
                },
            forall|a: int, b: int|
                0 <= a < b < i ==> (#[trigger] plan.slices@[a]).order != (
                #[trigger] plan.slices@[b]).order,
            forall|a: int, b: int|
                0 <= a < b < i ==> (#[trigger] plan.slices@[a]).key@ != (
                #[trigger] plan.slices@[b]).key@,
        decreases plan.slices@.len() - i,
    {
        let slice = &plan.slices[i];
        let checked = slice_texts(slice);
        if checked.is_err() {
            proof {
                lemma_first_issue_stays(f, i as int + 1, plan.slices@.len() as int);
            }
            return checked;
        }
        if slice.order <= 0 {
            proof {
                lemma_first_issue_stays(f, i as int + 1, plan.slices@.len() as int);
            }
            return Err(PlanIssue::SliceOrder);
        }
        let mut j: usize = 0;
        while j < i
            invariant
                i < plan.slices@.len(),
                slice == plan.slices@[i as int],
                j <= i,
                forall|a: int| 0 <= a < j ==> (#[trigger] plan.slices@[a]).order != slice.order,
                f == (|k: int| slice_issue(*plan, k)),
                first_issue(i as int, f) is None,
                canonical_text(slice.key@),
                canonical_text(slice.title@),
                slice.order > 0,
            decreases i - j,
        {
            if plan.slices[j].order == slice.order {
                proof {
                    assert(plan.slices@[j as int].order == slice.order);
                    assert(first_issue(i as int + 1, f) == Some(PlanIssue::SliceOrder));
                    lemma_first_issue_stays(f, i as int + 1, plan.slices@.len() as int);
                }
                return Err(PlanIssue::SliceOrder);
            }
            j += 1;
        }
        let mut j: usize = 0;
        while j < i
            invariant
                i < plan.slices@.len(),
                slice == plan.slices@[i as int],
                j <= i,
                forall|a: int| 0 <= a < j ==> (#[trigger] plan.slices@[a]).key@ != slice.key@,
                f == (|k: int| slice_issue(*plan, k)),
                first_issue(i as int, f) is None,
                canonical_text(slice.key@),
                canonical_text(slice.title@),
                slice.order > 0,
                forall|a: int| 0 <= a < i ==> (#[trigger] plan.slices@[a]).order != slice.order,
            decreases i - j,
        {
            if plan.slices[j].key == slice.key {
                proof {
                    assert(plan.slices@[j as int].key@ == slice.key@);
                    assert(first_issue(i as int + 1, f) == Some(PlanIssue::SliceKeyDuplicate));
                    lemma_first_issue_stays(f, i as int + 1, plan.slices@.len() as int);
                }
                return Err(PlanIssue::SliceKeyDuplicate);
            }
            j += 1;
        }
        assert(first_issue(i as int + 1, f) is None);
        i += 1;
    }
    Ok(())
}

fn validate_slice_dependencies(plan: &PlanDocument) -> (r: Result<(), PlanIssue>)
    ensures
        r is Ok <==> slice_dependencies_valid(*plan),
        r == as_result(dependencies_issue(*plan)),
{
    let ghost f = |x: int| slice_dependency_issue(*plan, x);
    let mut i: usize = 0;
    while i < plan.slices.len()
        invariant
            i <= plan.slices@.len(),
            forall|a: int|
                0 <= a < i ==> {
                    let s = #[trigger] plan.slices@[a];
                    &&& distinct_views(s.depends_on@)
                    &&& forall|k: int|
                        0 <= k < s.depends_on@.len() ==> {
                            &&& (#[trigger] s.depends_on@[k])@ != s.key@
                            &&& has_slice(*plan, s.depends_on@[k]@)
                        }
                },
            f == (|x: int| slice_dependency_issue(*plan, x)),
            first_issue(i as int, f) is None,
        decreases plan.slices@.len() - i,
    {
        let slice = &plan.slices[i];
        let ghost g = |y: int| dependency_issue(*plan, i as int, y);
        let mut k: usize = 0;
        while k < slice.depends_on.len()
            invariant
                i < plan.slices@.len(),
                slice == plan.slices@[i as int],
                k <= slice.depends_on@.len(),
                distinct_views(slice.depends_on@.take(k as int)),
                forall|e: int|
                    0 <= e < k ==> {
                        &&& (#[trigger] slice.depends_on@[e])@ != slice.key@
                        &&& has_slice(*plan, slice.depends_on@[e]@)
                    },
                f == (|x: int| slice_dependency_issue(*plan, x)),
                first_issue(i as int, f) is None,
                g == (|y: int| dependency_issue(*plan, i as int, y)),
                first_issue(k as int, g) is None,
            decreases slice.depends_on@.len() - k,
        {
            let dependency = &slice.depends_on[k];
            let found = find_slice(&plan.slices, dependency);
            if *dependency == slice.key || found.is_none() {
                proof {
                    if found.is_none() && dependency@ != slice.key@ {
                        assert(!has_slice(*plan, dependency@));
                    }
                    assert(first_issue(k as int + 1, g) == Some(PlanIssue::SliceDependencyInvalid));
                    lemma_first_issue_stays(g, k as int + 1, slice.depends_on@.len() as int);
                    assert(first_issue(i as int + 1, f) == Some(PlanIssue::SliceDependencyInvalid));
                    lemma_first_issue_stays(f, i as int + 1, plan.slices@.len() as int);
                }
                return Err(PlanIssue::SliceDependencyInvalid);
            }
            proof {
                let j = found.unwrap() as int;
                assert(plan.slices@[j].key@ == dependency@);
            }
            let mut e: usize = 0;
            while e < k
                invariant
                    i < plan.slices@.len(),
                    slice == plan.slices@[i as int],
                    k < slice.depends_on@.len(),
                    dependency == slice.depends_on@[k as int],
                    e <= k,
                    dependency@ != slice.key@,
                    has_slice(*plan, dependency@),
                    f == (|x: int| slice_dependency_issue(*plan, x)),
                    first_issue(i as int, f) is None,
                    g == (|y: int| dependency_issue(*plan, i as int, y)),
                    first_issue(k as int, g) is None,
                    forall|h: int|
                        0 <= h < e ==> (#[trigger] slice.depends_on@[h])@ != slice.depends_on@[k as int]@,
                decreases k - e,
            {
                if slice.depends_on[e] == *dependency {
                    proof {
                        assert(slice.depends_on@[e as int]@ == dependency@);
                        assert(has_slice(*plan, dependency@));
                        assert(first_issue(k as int + 1, g) == Some(
                            PlanIssue::SliceDependencyDuplicate,
                        ));
                        lemma_first_issue_stays(g, k as int + 1, slice.depends_on@.len() as int);
                        assert(first_issue(i as int + 1, f) == Some(
                            PlanIssue::SliceDependencyDuplicate,
                        ));
                        lemma_first_issue_stays(f, i as int + 1, plan.slices@.len() as int);
                    }
                    return Err(PlanIssue::SliceDependencyDuplicate);
                }
                e += 1;
            }
            assert(first_issue(k as int + 1, g) is None);
            assert(slice.depends_on@.take(k as int + 1) =~= slice.depends_on@.take(k as int).push(
                slice.depends_on@[k as int],
            ));
            k += 1;
        }
        assert(slice.depends_on@.take(slice.depends_on@.len() as int) =~= slice.depends_on@);
        assert(first_issue(i as int + 1, f) is None);
        i += 1;
    }
    Ok(())
}

} // verus!

verus! {

/// A retained mapping names a canonical target and no reason; a retired one
/// names no target, a canonical reason and no lifecycle effect.
pub open spec fn disposition_valid(
    disposition: Seq<char>,
    target: Option<Seq<char>>,
    reason: Option<Seq<char>>,
    effect: Option<ReconciliationEffect>,
) -> bool {
    ||| disposition == "retained"@ && target is Some && canonical_text(target.unwrap())
        && reason is None
    ||| disposition == "retired"@ && target is None && reason is Some && canonical_text(
        reason.unwrap(),
    ) && effect is None
}

/// The first refusal of a mapping's disposition, in the order the checks run.
pub open spec fn disposition_issue(
    disposition: Seq<char>,
    target: Option<Seq<char>>,
    reason: Option<Seq<char>>,
    effect: Option<ReconciliationEffect>,
    kind: MappingKind,
) -> Option<PlanIssue> {
    if disposition == "retained"@ {
        if target is None {
            Some(PlanIssue::RetainedRequiresTarget(kind))
        } else if !canonical_text(target.unwrap()) {
            Some(PlanIssue::NotCanonical(Field::ReconciliationTarget))
        } else if reason is Some {
            Some(PlanIssue::RetainedForbidsReason(kind))
        } else {
            None
        }
    } else if disposition == "retired"@ {
        if target is Some {
            Some(PlanIssue::RetiredForbidsTarget(kind))
        } else if reason is None {
            Some(PlanIssue::RetiredRequiresReason(kind))
        } else if !canonical_text(reason.unwrap()) {
            Some(PlanIssue::NotCanonical(Field::ReconciliationReason))
        } else if effect is Some {
            Some(PlanIssue::RetiredForbidsEffect(kind))
        } else {
            None
        }
    } else {
        Some(PlanIssue::UnknownDisposition)
    }
}

/// Sources are positive and pairwise different.
pub open spec fn sources_valid(sources: Seq<i64>) -> bool {
    &&& forall|i: int| 0 <= i < sources.len() ==> #[trigger] sources[i] > 0
    &&& forall|i: int, j: int| 0 <= i < j < sources.len() ==> sources[i] != sources[j]
}

pub open spec fn task_sources(r: PlanReconciliation) -> Seq<i64> {
    r.tasks@.map_values(|m: TaskReconciliation| m.source)
}

pub open spec fn checklist_sources(r: PlanReconciliation) -> Seq<i64> {
    r.checklist@.map_values(|m: ChecklistReconciliation| m.source)
}

pub open spec fn gate_sources(r: PlanReconciliation) -> Seq<i64> {
    r.gates@.map_values(|m: GateReconciliation| m.source)
}

pub open spec fn phase_sources(r: PlanReconciliation) -> Seq<i64> {
    r.phases@.map_values(|m: PhaseReconciliation| m.source)
}

pub open spec fn dependency_sources(r: PlanReconciliation) -> Seq<i64> {
    r.dependencies@.map_values(|m: DependencyReconciliation| m.source)
}

/// Some item with this key has a checklist boundary with that key.
pub open spec fn item_has_boundary(p: PlanDocument, item: Seq<char>, boundary: Seq<char>) -> bool {
    exists|i: int, b: int|
        0 <= i < p.items@.len() && 0 <= b < p.items@[i].checklist@.len() && (
        #[trigger] p.items@[i]).key@ == item && (#[trigger] p.items@[i].checklist@[b]).key@
            == boundary
}

/// Some item with this key has this completion gate.
pub open spec fn item_has_gate(p: PlanDocument, item: Seq<char>, gate: Seq<char>) -> bool {
    exists|i: int|
        0 <= i < p.items@.len() && (#[trigger] p.items@[i]).key@ == item && has_view(
            p.items@[i].completion.gates@,
            gate,
        )
}

/// Some slice with key `to` depends on `from`.
pub open spec fn slice_has_edge(p: PlanDocument, from: Seq<char>, to: Seq<char>) -> bool {
    exists|i: int|
        0 <= i < p.slices@.len() && (#[trigger] p.slices@[i]).key@ == to && has_view(
            p.slices@[i].depends_on@,
            from,
        )
}

/// The target a dependency mapping is judged by: present when both endpoints are.
pub open spec fn edge_target(m: DependencyReconciliation) -> Option<Seq<char>> {
    if m.from is Some && m.to is Some {
        Some("edge"@)
    } else {
        None
    }
}

pub open spec fn task_mapping_valid(p: PlanDocument, m: TaskReconciliation) -> bool {
    &&& disposition_valid(m.disposition@, opt_view(m.item), opt_view(m.reason), m.effect)
    &&& m.item is Some ==> has_item(p, m.item.unwrap()@)
}

pub open spec fn checklist_mapping_valid(p: PlanDocument, m: ChecklistReconciliation) -> bool {
    &&& disposition_valid(m.disposition@, opt_view(m.item), opt_view(m.reason), m.effect)
    &&& m.disposition@ == "retained"@ ==> m.boundary is Some && item_has_boundary(
        p,
        m.item.unwrap()@,
        m.boundary.unwrap()@,
    )
    &&& m.disposition@ == "retired"@ ==> m.boundary is None
}

pub open spec fn gate_mapping_valid(p: PlanDocument, m: GateReconciliation) -> bool {
    &&& disposition_valid(m.disposition@, opt_view(m.item), opt_view(m.reason), m.effect)
    &&& m.disposition@ == "retained"@ ==> {
        &&& m.gate is Some
        &&& m.boundary is Some
        &&& canonical_text(m.boundary.unwrap()@)
        &&& item_has_gate(p, m.item.unwrap()@, m.gate.unwrap()@)
    }
    &&& m.disposition@ == "retired"@ ==> m.gate is None && m.boundary is None
}

pub open spec fn phase_mapping_valid(p: PlanDocument, m: PhaseReconciliation) -> bool {
    &&& disposition_valid(m.disposition@, opt_view(m.slice), opt_view(m.reason), m.effect)
    &&& m.slice is Some ==> has_slice(p, m.slice.unwrap()@)
}

pub open spec fn dependency_mapping_valid(p: PlanDocument, m: DependencyReconciliation) -> bool {
    &&& disposition_valid(m.disposition@, edge_target(m), opt_view(m.reason), m.effect)
    &&& m.disposition@ == "retained"@ ==> {
        &&& has_slice(p, m.from.unwrap()@)
        &&& has_slice(p, m.to.unwrap()@)
        &&& slice_has_edge(p, m.from.unwrap()@, m.to.unwrap()@)
    }
    &&& m.disposition@ == "retired"@ ==> m.from is None && m.to is None
}

/// The reconciliation section of a successor plan is well formed.
pub open spec fn reconciliation_valid(p: PlanDocument, r: PlanReconciliation) -> bool {
    &&& r.predecessor > 0
    &&& digest_text(r.expected_current@)
    &&& sources_valid(task_sources(r))
    &&& sources_valid(checklist_sources(r))
    &&& sources_valid(gate_sources(r))
    &&& sources_valid(phase_sources(r))
    &&& sources_valid(dependency_sources(r))
    &&& forall|i: int| 0 <= i < r.tasks@.len() ==> task_mapping_valid(p, #[trigger] r.tasks@[i])
    &&& forall|i: int|
        0 <= i < r.checklist@.len() ==> checklist_mapping_valid(p, #[trigger] r.checklist@[i])
    &&& forall|i: int| 0 <= i < r.gates@.len() ==> gate_mapping_valid(p, #[trigger] r.gates@[i])
    &&& forall|i: int| 0 <= i < r.phases@.len() ==> phase_mapping_valid(p, #[trigger] r.phases@[i])
    &&& forall|i: int|
        0 <= i < r.dependencies@.len() ==> dependency_mapping_valid(
            p,
            #[trigger] r.dependencies@[i],
        )
}

/// The whole document is a valid Decomposition Plan.
pub open spec fn plan_valid(p: PlanDocument) -> bool {
    &&& header_valid(p)
    &&& p.items@.len() > 0
    &&& p.slices@.len() > 0
    &&& slices_valid(p)
    &&& slice_dependencies_valid(p)
    &&& !has_cycle(p.slices@)
    &&& items_valid(p)
    &&& slices_populated(p)
    &&& p.reconciliation is Some ==> reconciliation_valid(p, p.reconciliation.unwrap())
}

} // verus!

verus! {

// ---- which refusal comes first ----
/// The first issue among the checks `f(0)`, ..., `f(n - 1)`, in that order.
pub open spec fn first_issue<E>(n: int, f: spec_fn(int) -> Option<E>) -> Option<E>
    decreases n,
{
    if n <= 0 {
        None
    } else {
        match first_issue(n - 1, f) {
            Some(e) => Some(e),
            None => f(n - 1),
        }
    }
}

/// Once some check has failed, later checks do not change the first issue.
pub proof fn lemma_first_issue_stays<E>(f: spec_fn(int) -> Option<E>, a: int, b: int)
    requires
        0 <= a <= b,
        first_issue(a, f) is Some,
    ensures
        first_issue(b, f) == first_issue(a, f),
    decreases b - a,
{
    if a < b {
        lemma_first_issue_stays(f, a, b - 1);
    }
}

/// When no check among the first `n` fails, there is no first issue.
pub proof fn lemma_first_issue_none<E>(f: spec_fn(int) -> Option<E>, n: int)
    requires
        forall|j: int| 0 <= j < n ==> (#[trigger] f(j)) is None,
    ensures
        first_issue(n, f) is None,
    decreases n,
{
    if n > 0 {
        lemma_first_issue_none(f, n - 1);
    }
}

/// When check `i` is the first that fails, its issue is the first issue.
pub proof fn lemma_first_issue_at<E>(f: spec_fn(int) -> Option<E>, n: int, i: int)
    requires
        0 <= i < n,
        f(i) is Some,
        forall|j: int| 0 <= j < i ==> (#[trigger] f(j)) is None,
    ensures
        first_issue(n, f) == f(i),
{
    lemma_first_issue_none(f, i);
    lemma_first_issue_stays(f, i + 1, n);
}

/// The result of a check that reports its first issue.
pub open spec fn as_result<E>(o: Option<E>) -> Result<(), E> {
    match o {
        Some(e) => Err(e),
        None => Ok(()),
    }
}

pub open spec fn text_issue(t: Seq<char>, field: Field) -> Option<PlanIssue> {
    if canonical_text(t) {
        None
    } else {
        Some(PlanIssue::NotCanonical(field))
    }
}

/// Element `i` of a list of unique canonical texts: canonical, and not the
/// same text as an earlier one.
pub open spec fn unique_element_issue(v: Seq<String>, field: Field, i: int) -> Option<PlanIssue> {
    if !canonical_text(v[i]@) {
        Some(PlanIssue::NotCanonical(field))
    } else if exists|j: int| 0 <= j < i && (#[trigger] v[j])@ == v[i]@ {
        Some(PlanIssue::NotUnique(field))
    } else {
        None
    }
}

pub open spec fn unique_issue(v: Seq<String>, field: Field) -> Option<PlanIssue> {
    first_issue(v.len() as int, |i: int| unique_element_issue(v, field, i))
}

pub open spec fn header_issue(p: PlanDocument) -> Option<PlanIssue> {
    if !(p.record_type@ == "decomposition_plan"@ && p.format == 1) {
        Some(PlanIssue::UnsupportedFormat)
    } else if !canonical_text(p.key@) {
        Some(PlanIssue::NotCanonical(Field::PlanKey))
    } else if !digest_text(p.design_fingerprint@) {
        Some(PlanIssue::NotDigest(Field::DesignFingerprint))
    } else {
        None
    }
}

/// Slice `i`: canonical key and title, a positive order no earlier slice
/// has, and a key no earlier slice has.
pub open spec fn slice_issue(p: PlanDocument, i: int) -> Option<PlanIssue> {
    let s = p.slices@[i];
    if !canonical_text(s.key@) {
        Some(PlanIssue::NotCanonical(Field::SliceKey))
    } else if !canonical_text(s.title@) {
        Some(PlanIssue::NotCanonical(Field::SliceTitle))
    } else if s.order <= 0 {
        Some(PlanIssue::SliceOrder)
    } else if exists|j: int| 0 <= j < i && (#[trigger] p.slices@[j]).order == s.order {
        Some(PlanIssue::SliceOrder)
    } else if exists|j: int| 0 <= j < i && (#[trigger] p.slices@[j]).key@ == s.key@ {
        Some(PlanIssue::SliceKeyDuplicate)
    } else {
        None
    }
}

pub open spec fn slices_issue(p: PlanDocument) -> Option<PlanIssue> {
    first_issue(p.slices@.len() as int, |i: int| slice_issue(p, i))
}

/// Dependency `k` of slice `i`: another existing slice, not named before.
pub open spec fn dependency_issue(p: PlanDocument, i: int, k: int) -> Option<PlanIssue> {
    let s = p.slices@[i];
    let d = s.depends_on@[k]@;
    if d == s.key@ || !has_slice(p, d) {
        Some(PlanIssue::SliceDependencyInvalid)
    } else if exists|e: int| 0 <= e < k && (#[trigger] s.depends_on@[e])@ == d {
        Some(PlanIssue::SliceDependencyDuplicate)
    } else {
        None
    }
}

pub open spec fn slice_dependency_issue(p: PlanDocument, i: int) -> Option<PlanIssue> {
    first_issue(p.slices@[i].depends_on@.len() as int, |k: int| dependency_issue(p, i, k))
}

pub open spec fn dependencies_issue(p: PlanDocument) -> Option<PlanIssue> {
    first_issue(p.slices@.len() as int, |i: int| slice_dependency_issue(p, i))
}

/// Gate `g` of boundary `b` is one of the item's completion gates.
pub open spec fn gate_coverage_issue(item: PlanItem, b: int, g: int) -> Option<PlanIssue> {
    if has_view(item.completion.gates@, item.checklist@[b].gates@[g]@) {
        None
    } else {
        Some(PlanIssue::BoundaryGateUncovered)
    }
}

/// Boundary `b` of an item: canonical texts, unique canonical gates, each a
/// completion gate of the item.
pub open spec fn boundary_issue(item: PlanItem, b: int) -> Option<PlanIssue> {
    let bd = item.checklist@[b];
    if !canonical_text(bd.key@) {
        Some(PlanIssue::NotCanonical(Field::BoundaryKey))
    } else if !canonical_text(bd.condition@) {
        Some(PlanIssue::NotCanonical(Field::BoundaryCondition))
    } else if !canonical_text(bd.evidence_kind@) {
        Some(PlanIssue::NotCanonical(Field::BoundaryEvidenceKind))
    } else if unique_issue(bd.gates@, Field::ChecklistGate) is Some {
        unique_issue(bd.gates@, Field::ChecklistGate)
    } else {
        first_issue(bd.gates@.len() as int, |g: int| gate_coverage_issue(item, b, g))
    }
}

/// Boundary `b` of an item is valid and its key is not an earlier one's.
pub open spec fn boundary_entry_issue(item: PlanItem, b: int) -> Option<PlanIssue> {
    if boundary_issue(item, b) is Some {
        boundary_issue(item, b)
    } else if exists|c: int| 0 <= c < b && (#[trigger] item.checklist@[c]).key@ == item.checklist@[b].key@ {
        Some(PlanIssue::BoundaryKeyDuplicate)
    } else {
        None
    }
}

/// An item with a canonical key: a known slice, canonical texts, coverage,
/// unique requirements and completion gates, then its boundaries in order.
pub open spec fn item_issue(p: PlanDocument, item: PlanItem) -> Option<PlanIssue> {
    if !has_slice(p, item.slice@) {
        Some(PlanIssue::ItemUnknownSlice)
    } else if !canonical_text(item.title@) {
        Some(PlanIssue::NotCanonical(Field::ItemTitle))
    } else if !canonical_text(item.details@) {
        Some(PlanIssue::NotCanonical(Field::ItemDetails))
    } else if !canonical_text(item.completion.outcome@) {
        Some(PlanIssue::NotCanonical(Field::CompletionOutcome))
    } else if !canonical_text(item.completion.observation@) {
        Some(PlanIssue::NotCanonical(Field::CompletionObservation))
    } else if !canonical_text(item.completion.evidence_owner@) {
        Some(PlanIssue::NotCanonical(Field::EvidenceOwner))
    } else if !canonical_text(item.completion.evidence_kind@) {
        Some(PlanIssue::NotCanonical(Field::EvidenceKind))
    } else if item.requirements@.len() == 0 || item.checklist@.len() == 0 {
        Some(PlanIssue::ItemCoverage)
    } else if unique_issue(item.requirements@, Field::ItemRequirement) is Some {
        unique_issue(item.requirements@, Field::ItemRequirement)
    } else if unique_issue(item.completion.gates@, Field::CompletionGate) is Some {
        unique_issue(item.completion.gates@, Field::CompletionGate)
    } else {
        first_issue(item.checklist@.len() as int, |b: int| boundary_entry_issue(item, b))
    }
}

/// Item `i`: a canonical key no earlier item has, then the item itself.
pub open spec fn item_entry_issue(p: PlanDocument, i: int) -> Option<PlanIssue> {
    let item = p.items@[i];
    if !canonical_text(item.key@) {
        Some(PlanIssue::NotCanonical(Field::ItemKey))
    } else if exists|j: int| 0 <= j < i && (#[trigger] p.items@[j]).key@ == item.key@ {
        Some(PlanIssue::ItemKeyDuplicate)
    } else {
        item_issue(p, item)
    }
}

pub open spec fn items_issue(p: PlanDocument) -> Option<PlanIssue> {
    first_issue(p.items@.len() as int, |i: int| item_entry_issue(p, i))
}

pub open spec fn task_mapping_issue(p: PlanDocument, m: TaskReconciliation) -> Option<PlanIssue> {
    let d = disposition_issue(m.disposition@, opt_view(m.item), opt_view(m.reason), m.effect, MappingKind::Task);
    if d is Some {
        d
    } else if m.item is Some && !has_item(p, m.item.unwrap()@) {
        Some(PlanIssue::TaskUnknownItem)
    } else {
        None
    }
}

pub open spec fn checklist_mapping_issue(p: PlanDocument, m: ChecklistReconciliation) -> Option<PlanIssue> {
    let d = disposition_issue(m.disposition@, opt_view(m.item), opt_view(m.reason), m.effect, MappingKind::Checklist);
    if d is Some {
        d
    } else if m.disposition@ == "retained"@ {
        if m.boundary is None {
            Some(PlanIssue::ChecklistRequiresBoundary)
        } else if !item_has_boundary(p, m.item.unwrap()@, m.boundary.unwrap()@) {
            Some(PlanIssue::ChecklistUnknownBoundary)
        } else {
            None
        }
    } else if m.boundary is Some {
        Some(PlanIssue::ChecklistRetiredBoundary)
    } else {
        None
    }
}

pub open spec fn gate_mapping_issue(p: PlanDocument, m: GateReconciliation) -> Option<PlanIssue> {
    let d = disposition_issue(m.disposition@, opt_view(m.item), opt_view(m.reason), m.effect, MappingKind::Gate);
    if d is Some {
        d
    } else if m.disposition@ == "retained"@ {
        if m.gate is None {
            Some(PlanIssue::GateRequiresGate)
        } else if m.boundary is None {
            Some(PlanIssue::GateRequiresBoundary)
        } else if !canonical_text(m.boundary.unwrap()@) {
            Some(PlanIssue::NotCanonical(Field::RetainedGateBoundary))
        } else if !item_has_gate(p, m.item.unwrap()@, m.gate.unwrap()@) {
            Some(PlanIssue::GateUnknown)
        } else {
            None
        }
    } else if m.gate is Some || m.boundary is Some {
        Some(PlanIssue::GateRetiredTargets)
    } else {
        None
    }
}

pub open spec fn phase_mapping_issue(p: PlanDocument, m: PhaseReconciliation) -> Option<PlanIssue> {
    let d = disposition_issue(m.disposition@, opt_view(m.slice), opt_view(m.reason), m.effect, MappingKind::Phase);
    if d is Some {
        d
    } else if m.slice is Some && !has_slice(p, m.slice.unwrap()@) {
        Some(PlanIssue::PhaseUnknownSlice)
    } else {
        None
    }
}

pub open spec fn dependency_mapping_issue(p: PlanDocument, m: DependencyReconciliation) -> Option<PlanIssue> {
    let d = disposition_issue(m.disposition@, edge_target(m), opt_view(m.reason), m.effect, MappingKind::Dependency);
    if d is Some {
        d
    } else if m.disposition@ == "retained"@ {
        if !(has_slice(p, m.from.unwrap()@) && has_slice(p, m.to.unwrap()@) && slice_has_edge(
            p,
            m.from.unwrap()@,
            m.to.unwrap()@,
        )) {
            Some(PlanIssue::DependencyUnknownEdge)
        } else {
            None
        }
    } else if m.from is Some || m.to is Some {
        Some(PlanIssue::DependencyRetiredEndpoints)
    } else {
        None
    }
}

/// The first refusal of a reconciliation section: its predecessor, its
/// expected current identity, the sources of each kind of mapping, then
/// each mapping of each kind in order.
pub open spec fn reconciliation_issue(p: PlanDocument, r: PlanReconciliation) -> Option<PlanIssue> {
    let tasks = first_issue(r.tasks@.len() as int, |i: int| task_mapping_issue(p, r.tasks@[i]));
    let checklist = first_issue(r.checklist@.len() as int, |i: int| checklist_mapping_issue(p, r.checklist@[i]));
    let gates = first_issue(r.gates@.len() as int, |i: int| gate_mapping_issue(p, r.gates@[i]));
    let phases = first_issue(r.phases@.len() as int, |i: int| phase_mapping_issue(p, r.phases@[i]));
    let dependencies = first_issue(
        r.dependencies@.len() as int,
        |i: int| dependency_mapping_issue(p, r.dependencies@[i]),
    );
    if r.predecessor <= 0 {
        Some(PlanIssue::PredecessorNotPositive)
    } else if !digest_text(r.expected_current@) {
        Some(PlanIssue::NotDigest(Field::ReconciliationExpectedCurrent))
    } else if !sources_valid(task_sources(r)) {
        Some(PlanIssue::MappingSources(MappingKind::Task))
    } else if !sources_valid(checklist_sources(r)) {
        Some(PlanIssue::MappingSources(MappingKind::Checklist))
    } else if !sources_valid(gate_sources(r)) {
        Some(PlanIssue::MappingSources(MappingKind::Gate))
    } else if !sources_valid(phase_sources(r)) {
        Some(PlanIssue::MappingSources(MappingKind::Phase))
    } else if !sources_valid(dependency_sources(r)) {
        Some(PlanIssue::MappingSources(MappingKind::Dependency))
    } else if tasks is Some {
        tasks
    } else if checklist is Some {
        checklist
    } else if gates is Some {
        gates
    } else if phases is Some {
        phases
    } else {
        dependencies
    }
}

/// The first refusal of a plan whose slices are valid: its slice
/// dependencies, a cycle among them, its items, an empty slice, then its
/// reconciliation section.
pub open spec fn graph_issue(p: PlanDocument) -> Option<PlanIssue> {
    if dependencies_issue(p) is Some {
        dependencies_issue(p)
    } else if has_cycle(p.slices@) {
        Some(PlanIssue::SliceCycle)
    } else if items_issue(p) is Some {
        items_issue(p)
    } else if !slices_populated(p) {
        Some(PlanIssue::EmptySlice)
    } else {
        match p.reconciliation {
            Some(r) => reconciliation_issue(p, r),
            None => None,
        }
    }
}

/// The first refusal of a document, in the order the checks run: header,
/// presence of items and slices, slices, then the rest.
pub open spec fn plan_issue(p: PlanDocument) -> Option<PlanIssue> {
    if header_issue(p) is Some {
        header_issue(p)
    } else if p.items@.len() == 0 || p.slices@.len() == 0 {
        Some(PlanIssue::MissingItemsOrSlices)
    } else if slices_issue(p) is Some {
        slices_issue(p)
    } else {
        graph_issue(p)
    }
}

} // verus!

verus! {

/// The two dispositions are different texts.
pub proof fn lemma_dispositions_differ()
    ensures
        "retained"@ != "retired"@,
{
    reveal_strlit("retained");
    reveal_strlit("retired");
    assert("retained"@.len() != "retired"@.len());
}

/// The text of an optional string.
pub fn opt_str(o: &Option<String>) -> (r: Option<&str>)
    ensures
        r is Some <==> o is Some,
        r is Some ==> r.unwrap()@ == o.unwrap()@,
{
    match o {
        Some(s) => Some(s.as_str()),
        None => None,
    }
}

/// Checks a mapping's disposition against its target, reason and effect.
pub fn validate_disposition(
    disposition: &str,
    target: Option<&str>,
    reason: Option<&str>,
    effect: Option<ReconciliationEffect>,
    kind: MappingKind,
) -> (r: Result<(), PlanIssue>)
    ensures
        r is Ok <==> disposition_valid(
            disposition@,
            match target {
                Some(t) => Some(t@),
                None => None,
            },
            match reason {
                Some(t) => Some(t@),
                None => None,
            },
            effect,
        ),
        r matches Err(e) ==> Some(e) == disposition_issue(
            disposition@,
            match target {
                Some(t) => Some(t@),
                None => None,
            },
            match reason {
                Some(t) => Some(t@),
                None => None,
            },
            effect,
            kind,
        ),
        r == as_result(
            disposition_issue(
                disposition@,
                match target {
                    Some(t) => Some(t@),
                    None => None,
                },
                match reason {
                    Some(t) => Some(t@),
                    None => None,
                },
                effect,
                kind,
            ),
        ),
{
    proof {
        lemma_dispositions_differ();
    }
    if str_eq(disposition, "retained") {
        match target {
            None => return Err(PlanIssue::RetainedRequiresTarget(kind)),
            Some(t) => {
                require_text(t, Field::ReconciliationTarget)?;
            },
        }
        if reason.is_some() {
            return Err(PlanIssue::RetainedForbidsReason(kind));
        }
        Ok(())
    } else if str_eq(disposition, "retired") {
        if target.is_some() {
            return Err(PlanIssue::RetiredForbidsTarget(kind));
        }
        match reason {
            None => return Err(PlanIssue::RetiredRequiresReason(kind)),
            Some(t) => {
                require_text(t, Field::ReconciliationReason)?;
            },
        }
        if effect.is_some() {
            return Err(PlanIssue::RetiredForbidsEffect(kind));
        }
        Ok(())
    } else {
        Err(PlanIssue::UnknownDisposition)
    }
}

/// Refuses sources that are not positive or that repeat.
pub fn validate_mapping_sources(sources: &Vec<i64>, kind: MappingKind) -> (r: Result<
    (),
    PlanIssue,
>)
    ensures
        r is Ok <==> sources_valid(sources@),
        r is Err ==> r == Err::<(), PlanIssue>(PlanIssue::MappingSources(kind)),
{
    let mut i: usize = 0;
    while i < sources.len()
        invariant
            i <= sources@.len(),
            forall|a: int| 0 <= a < i ==> #[trigger] sources@[a] > 0,
            forall|a: int, b: int| 0 <= a < b < i ==> sources@[a] != sources@[b],
        decreases sources@.len() - i,
    {
        if sources[i] <= 0 {
            return Err(PlanIssue::MappingSources(kind));
        }
        let mut j: usize = 0;
        while j < i
            invariant
                i < sources@.len(),
                j <= i,
                forall|a: int| 0 <= a < j ==> sources@[a] != sources@[i as int],
            decreases i - j,
        {
            if sources[j] == sources[i] {
                return Err(PlanIssue::MappingSources(kind));
            }
            j += 1;
        }
        i += 1;
    }
    Ok(())
}

} // verus!

verus! {

fn has_item_key(plan: &PlanDocument, key: &str) -> (res: bool)
    ensures
        res == has_item(*plan, key@),
{
    let mut i: usize = 0;
    while i < plan.items.len()
        invariant
            i <= plan.items@.len(),
            forall|j: int| 0 <= j < i ==> (#[trigger] plan.items@[j]).key@ != key@,
        decreases plan.items@.len() - i,
    {
        if str_eq(plan.items[i].key.as_str(), key) {
            return true;
        }
        i += 1;
    }
    false
}

fn has_slice_key(plan: &PlanDocument, key: &str) -> (res: bool)
    ensures
        res == has_slice(*plan, key@),
{
    let mut i: usize = 0;
    while i < plan.slices.len()
        invariant
            i <= plan.slices@.len(),
            forall|j: int| 0 <= j < i ==> (#[trigger] plan.slices@[j]).key@ != key@,
        decreases plan.slices@.len() - i,
    {
        if str_eq(plan.slices[i].key.as_str(), key) {
            return true;
        }
        i += 1;
    }
    false
}

fn contains_str(values: &Vec<String>, value: &str) -> (res: bool)
    ensures
        res == has_view(values@, value@),
{
    let mut i: usize = 0;
    while i < values.len()
        invariant
            i <= values@.len(),
            forall|j: int| 0 <= j < i ==> (#[trigger] values@[j])@ != value@,
        decreases values@.len() - i,
    {
        if str_eq(values[i].as_str(), value) {
            return true;
        }
        i += 1;
    }
    false
}

fn boundary_exists(plan: &PlanDocument, item: &str, boundary: &str) -> (res: bool)
    ensures
        res == item_has_boundary(*plan, item@, boundary@),
{
    let mut i: usize = 0;
    while i < plan.items.len()
        invariant
            i <= plan.items@.len(),
            forall|j: int, b: int|
                0 <= j < i && 0 <= b < plan.items@[j].checklist@.len() ==> !((
                #[trigger] plan.items@[j]).key@ == item@ && (
                #[trigger] plan.items@[j].checklist@[b]).key@ == boundary@),
        decreases plan.items@.len() - i,
    {
        if str_eq(plan.items[i].key.as_str(), item) {
            let checklist = &plan.items[i].checklist;
            let mut b: usize = 0;
            while b < checklist.len()
                invariant
                    i < plan.items@.len(),
                    checklist == plan.items@[i as int].checklist,
                    plan.items@[i as int].key@ == item@,
                    b <= checklist@.len(),
                    forall|c: int| 0 <= c < b ==> (#[trigger] checklist@[c]).key@ != boundary@,
                decreases checklist@.len() - b,
            {
                if str_eq(checklist[b].key.as_str(), boundary) {
                    assert(plan.items@[i as int].checklist@[b as int].key@ == boundary@);
                    return true;
                }
                b += 1;
            }
        }
        i += 1;
    }
    false
}

fn gate_exists(plan: &PlanDocument, item: &str, gate: &str) -> (res: bool)
    ensures
        res == item_has_gate(*plan, item@, gate@),
{
    let mut i: usize = 0;
    while i < plan.items.len()
        invariant
            i <= plan.items@.len(),
            forall|j: int|
                0 <= j < i ==> !((#[trigger] plan.items@[j]).key@ == item@ && has_view(
                    plan.items@[j].completion.gates@,
                    gate@,
                )),
        decreases plan.items@.len() - i,
    {
        if str_eq(plan.items[i].key.as_str(), item) && contains_str(
            &plan.items[i].completion.gates,
            gate,
        ) {
            return true;
        }
        i += 1;
    }
    false
}

fn edge_exists(plan: &PlanDocument, from: &str, to: &str) -> (res: bool)
    ensures
        res == slice_has_edge(*plan, from@, to@),
{
    let mut i: usize = 0;
    while i < plan.slices.len()
        invariant
            i <= plan.slices@.len(),
            forall|j: int|
                0 <= j < i ==> !((#[trigger] plan.slices@[j]).key@ == to@ && has_view(
                    plan.slices@[j].depends_on@,
                    from@,
                )),
        decreases plan.slices@.len() - i,
    {
        if str_eq(plan.slices[i].key.as_str(), to) && contains_str(
            &plan.slices[i].depends_on,
            from,
        ) {
            return true;
        }
        i += 1;
    }
    false
}

fn collect_task_sources(r: &PlanReconciliation) -> (v: Vec<i64>)
    ensures
        v@ == task_sources(*r),
{
    let mut v: Vec<i64> = Vec::new();
    let mut i: usize = 0;
    while i < r.tasks.len()
        invariant
            i <= r.tasks@.len(),
            v@ == task_sources(*r).take(i as int),
        decreases r.tasks@.len() - i,
    {
        v.push(r.tasks[i].source);
        assert(task_sources(*r).take(i as int + 1) =~= task_sources(*r).take(i as int).push(
            r.tasks@[i as int].source,
        ));
        i += 1;
    }
    assert(task_sources(*r).take(i as int) =~= task_sources(*r));
    v
}

fn collect_checklist_sources(r: &PlanReconciliation) -> (v: Vec<i64>)
    ensures
        v@ == checklist_sources(*r),
{
    let mut v: Vec<i64> = Vec::new();
    let mut i: usize = 0;
    while i < r.checklist.len()
        invariant
            i <= r.checklist@.len(),
            v@ == checklist_sources(*r).take(i as int),
        decreases r.checklist@.len() - i,
    {
        v.push(r.checklist[i].source);
        assert(checklist_sources(*r).take(i as int + 1) =~= checklist_sources(*r).take(
            i as int,
        ).push(r.checklist@[i as int].source));
        i += 1;
    }
    assert(checklist_sources(*r).take(i as int) =~= checklist_sources(*r));
    v
}

fn collect_gate_sources(r: &PlanReconciliation) -> (v: Vec<i64>)
    ensures
        v@ == gate_sources(*r),
{
    let mut v: Vec<i64> = Vec::new();
    let mut i: usize = 0;
    while i < r.gates.len()
        invariant
            i <= r.gates@.len(),
            v@ == gate_sources(*r).take(i as int),
        decreases r.gates@.len() - i,
    {
        v.push(r.gates[i].source);
        assert(gate_sources(*r).take(i as int + 1) =~= gate_sources(*r).take(i as int).push(
            r.gates@[i as int].source,
        ));
        i += 1;
    }
    assert(gate_sources(*r).take(i as int) =~= gate_sources(*r));
    v
}

fn collect_phase_sources(r: &PlanReconciliation) -> (v: Vec<i64>)
    ensures
        v@ == phase_sources(*r),
{
    let mut v: Vec<i64> = Vec::new();
    let mut i: usize = 0;
    while i < r.phases.len()
        invariant
            i <= r.phases@.len(),
            v@ == phase_sources(*r).take(i as int),
        decreases r.phases@.len() - i,
    {
        v.push(r.phases[i].source);
        assert(phase_sources(*r).take(i as int + 1) =~= phase_sources(*r).take(i as int).push(
            r.phases@[i as int].source,
        ));
        i += 1;
    }
    assert(phase_sources(*r).take(i as int) =~= phase_sources(*r));
    v
}

fn collect_dependency_sources(r: &PlanReconciliation) -> (v: Vec<i64>)
    ensures
        v@ == dependency_sources(*r),
{
    let mut v: Vec<i64> = Vec::new();
    let mut i: usize = 0;
    while i < r.dependencies.len()
        invariant
            i <= r.dependencies@.len(),
            v@ == dependency_sources(*r).take(i as int),
        decreases r.dependencies@.len() - i,
    {
        v.push(r.dependencies[i].source);
        assert(dependency_sources(*r).take(i as int + 1) =~= dependency_sources(*r).take(
            i as int,
        ).push(r.dependencies@[i as int].source));
        i += 1;
    }
    assert(dependency_sources(*r).take(i as int) =~= dependency_sources(*r));
    v
}

} // verus!

verus! {

fn validate_task_mappings(plan: &PlanDocument, r: &PlanReconciliation) -> (res: Result<
    (),
    PlanIssue,
>)
    ensures
        res is Ok <==> forall|i: int|
            0 <= i < r.tasks@.len() ==> task_mapping_valid(*plan, #[trigger] r.tasks@[i]),
        res == as_result(first_issue(r.tasks@.len() as int, |i: int| task_mapping_issue(*plan, r.tasks@[i]))),
{
    let ghost f = |i: int| task_mapping_issue(*plan, r.tasks@[i]);
    let mut i: usize = 0;
    while i < r.tasks.len()
        invariant
            i <= r.tasks@.len(),
            forall|j: int| 0 <= j < i ==> task_mapping_valid(*plan, #[trigger] r.tasks@[j]),
            f == (|i: int| task_mapping_issue(*plan, r.tasks@[i])),
            first_issue(i as int, f) is None,
        decreases r.tasks@.len() - i,
    {
        let m = &r.tasks[i];
        let d = validate_disposition(
            m.disposition.as_str(),
            opt_str(&m.item),
            opt_str(&m.reason),
            m.effect,
            MappingKind::Task,
        );
        if d.is_err() {
            proof {
                assert(first_issue(i as int + 1, f) == f(i as int));
                lemma_first_issue_stays(f, i as int + 1, r.tasks@.len() as int);
            }
            return d;
        }
        if let Some(item) = &m.item {
            if !has_item_key(plan, item.as_str()) {
                proof {
                    assert(first_issue(i as int + 1, f) == Some(PlanIssue::TaskUnknownItem));
                    lemma_first_issue_stays(f, i as int + 1, r.tasks@.len() as int);
                }
                return Err(PlanIssue::TaskUnknownItem);
            }
        }
        assert(first_issue(i as int + 1, f) is None);
        i += 1;
    }
    Ok(())
}

fn validate_checklist_mappings(plan: &PlanDocument, r: &PlanReconciliation) -> (res: Result<
    (),
    PlanIssue,
>)
    ensures
        res is Ok <==> forall|i: int|
            0 <= i < r.checklist@.len() ==> checklist_mapping_valid(
                *plan,
                #[trigger] r.checklist@[i],
            ),
        res == as_result(
            first_issue(
                r.checklist@.len() as int,
                |i: int| checklist_mapping_issue(*plan, r.checklist@[i]),
            ),
        ),
{
    proof {
        lemma_dispositions_differ();
    }
    let ghost f = |i: int| checklist_mapping_issue(*plan, r.checklist@[i]);
    let mut i: usize = 0;
    while i < r.checklist.len()
        invariant
            i <= r.checklist@.len(),
            "retained"@ != "retired"@,
            forall|j: int|
                0 <= j < i ==> checklist_mapping_valid(*plan, #[trigger] r.checklist@[j]),
            f == (|i: int| checklist_mapping_issue(*plan, r.checklist@[i])),
            first_issue(i as int, f) is None,
        decreases r.checklist@.len() - i,
    {
        let m = &r.checklist[i];
        let d = validate_disposition(
            m.disposition.as_str(),
            opt_str(&m.item),
            opt_str(&m.reason),
            m.effect,
            MappingKind::Checklist,
        );
        if d.is_err() {
            proof {
                assert(first_issue(i as int + 1, f) == f(i as int));
                lemma_first_issue_stays(f, i as int + 1, r.checklist@.len() as int);
            }
            return d;
        }
        let failed = if str_eq(m.disposition.as_str(), "retained") {
            let item = m.item.as_ref().unwrap();
            match &m.boundary {
                None => Some(PlanIssue::ChecklistRequiresBoundary),
                Some(boundary) => if !boundary_exists(plan, item.as_str(), boundary.as_str()) {
                    Some(PlanIssue::ChecklistUnknownBoundary)
                } else {
                    None
                },
            }
        } else if m.boundary.is_some() {
            Some(PlanIssue::ChecklistRetiredBoundary)
        } else {
            None
        };
        assert(failed == f(i as int));
        if let Some(e) = failed {
            proof {
                lemma_first_issue_stays(f, i as int + 1, r.checklist@.len() as int);
            }
            return Err(e);
        }
        i += 1;
    }
    Ok(())
}

fn validate_gate_mappings(plan: &PlanDocument, r: &PlanReconciliation) -> (res: Result<
    (),
    PlanIssue,
>)
    ensures
        res is Ok <==> forall|i: int|
            0 <= i < r.gates@.len() ==> gate_mapping_valid(*plan, #[trigger] r.gates@[i]),
        res == as_result(first_issue(r.gates@.len() as int, |i: int| gate_mapping_issue(*plan, r.gates@[i]))),
{
    proof {
        lemma_dispositions_differ();
    }
    let ghost f = |i: int| gate_mapping_issue(*plan, r.gates@[i]);
    let mut i: usize = 0;
    while i < r.gates.len()
        invariant
            i <= r.gates@.len(),
            "retained"@ != "retired"@,
            forall|j: int| 0 <= j < i ==> gate_mapping_valid(*plan, #[trigger] r.gates@[j]),
            f == (|i: int| gate_mapping_issue(*plan, r.gates@[i])),
            first_issue(i as int, f) is None,
        decreases r.gates@.len() - i,
    {
        let m = &r.gates[i];
        let d = validate_disposition(
            m.disposition.as_str(),
            opt_str(&m.item),
            opt_str(&m.reason),
            m.effect,
            MappingKind::Gate,
        );
        if d.is_err() {
            proof {
                assert(first_issue(i as int + 1, f) == f(i as int));
                lemma_first_issue_stays(f, i as int + 1, r.gates@.len() as int);
            }
            return d;
        }
        let failed = if str_eq(m.disposition.as_str(), "retained") {
            let item = m.item.as_ref().unwrap();
            match (&m.gate, &m.boundary) {
                (None, _) => Some(PlanIssue::GateRequiresGate),
                (Some(_), None) => Some(PlanIssue::GateRequiresBoundary),
                (Some(gate), Some(boundary)) => if require_text(
                    boundary.as_str(),
                    Field::RetainedGateBoundary,
                ).is_err() {
                    Some(PlanIssue::NotCanonical(Field::RetainedGateBoundary))
                } else if !gate_exists(plan, item.as_str(), gate.as_str()) {
                    Some(PlanIssue::GateUnknown)
                } else {
                    None
                },
            }
        } else if m.gate.is_some() || m.boundary.is_some() {
            Some(PlanIssue::GateRetiredTargets)
        } else {
            None
        };
        assert(failed == f(i as int));
        if let Some(e) = failed {
            proof {
                lemma_first_issue_stays(f, i as int + 1, r.gates@.len() as int);
            }
            return Err(e);
        }
        i += 1;
    }
    Ok(())
}

fn validate_phase_mappings(plan: &PlanDocument, r: &PlanReconciliation) -> (res: Result<
    (),
    PlanIssue,
>)
    ensures
        res is Ok <==> forall|i: int|
            0 <= i < r.phases@.len() ==> phase_mapping_valid(*plan, #[trigger] r.phases@[i]),
        res == as_result(first_issue(r.phases@.len() as int, |i: int| phase_mapping_issue(*plan, r.phases@[i]))),
{
    let ghost f = |i: int| phase_mapping_issue(*plan, r.phases@[i]);
    let mut i: usize = 0;
    while i < r.phases.len()
        invariant
            i <= r.phases@.len(),
            forall|j: int| 0 <= j < i ==> phase_mapping_valid(*plan, #[trigger] r.phases@[j]),
            f == (|i: int| phase_mapping_issue(*plan, r.phases@[i])),
            first_issue(i as int, f) is None,
        decreases r.phases@.len() - i,
    {
        let m = &r.phases[i];
        let d = validate_disposition(
            m.disposition.as_str(),
            opt_str(&m.slice),
            opt_str(&m.reason),
            m.effect,
            MappingKind::Phase,
        );
        if d.is_err() {
            proof {
                assert(first_issue(i as int + 1, f) == f(i as int));
                lemma_first_issue_stays(f, i as int + 1, r.phases@.len() as int);
            }
            return d;
        }
        if let Some(slice) = &m.slice {
            if !has_slice_key(plan, slice.as_str()) {
                proof {
                    assert(first_issue(i as int + 1, f) == Some(PlanIssue::PhaseUnknownSlice));
                    lemma_first_issue_stays(f, i as int + 1, r.phases@.len() as int);
                }
                return Err(PlanIssue::PhaseUnknownSlice);
            }
        }
        assert(first_issue(i as int + 1, f) is None);
        i += 1;
    }
    Ok(())
}

fn validate_dependency_mappings(plan: &PlanDocument, r: &PlanReconciliation) -> (res: Result<
    (),
    PlanIssue,
>)
    ensures
        res is Ok <==> forall|i: int|
            0 <= i < r.dependencies@.len() ==> dependency_mapping_valid(
                *plan,
                #[trigger] r.dependencies@[i],
            ),
        res == as_result(
            first_issue(
                r.dependencies@.len() as int,
                |i: int| dependency_mapping_issue(*plan, r.dependencies@[i]),
            ),
        ),
{
    proof {
        lemma_dispositions_differ();
        reveal_strlit("edge");
    }
    let ghost f = |i: int| dependency_mapping_issue(*plan, r.dependencies@[i]);
    let mut i: usize = 0;
    while i < r.dependencies.len()
        invariant
            i <= r.dependencies@.len(),
            "retained"@ != "retired"@,
            canonical_text("edge"@),
            forall|j: int|
                0 <= j < i ==> dependency_mapping_valid(*plan, #[trigger] r.dependencies@[j]),
            f == (|i: int| dependency_mapping_issue(*plan, r.dependencies@[i])),
            first_issue(i as int, f) is None,
        decreases r.dependencies@.len() - i,
    {
        let m = &r.dependencies[i];
        let target: Option<&str> = if m.from.is_some() && m.to.is_some() {
            Some("edge")
        } else {
            None
        };
        let d = validate_disposition(
            m.disposition.as_str(),
            target,
            opt_str(&m.reason),
            m.effect,
            MappingKind::Dependency,
        );
        if d.is_err() {
            proof {
                assert(first_issue(i as int + 1, f) == f(i as int));
                lemma_first_issue_stays(f, i as int + 1, r.dependencies@.len() as int);
            }
            return d;
        }
        let failed = if str_eq(m.disposition.as_str(), "retained") {
            let from = m.from.as_ref().unwrap();
            let to = m.to.as_ref().unwrap();
            if !has_slice_key(plan, from.as_str()) || !has_slice_key(plan, to.as_str())
                || !edge_exists(plan, from.as_str(), to.as_str()) {
                Some(PlanIssue::DependencyUnknownEdge)
            } else {
                None
            }
        } else if m.from.is_some() || m.to.is_some() {
            Some(PlanIssue::DependencyRetiredEndpoints)
        } else {
            None
        };
        assert(failed == f(i as int));
        if let Some(e) = failed {
            proof {
                lemma_first_issue_stays(f, i as int + 1, r.dependencies@.len() as int);
            }
            return Err(e);
        }
        i += 1;
    }
    Ok(())
}

/// Refuses a malformed reconciliation section: its predecessor reference,
/// expected current identity, mapping sources, dispositions and targets.
pub fn validate_reconciliation(plan: &PlanDocument, reconciliation: &PlanReconciliation) -> (res:
    Result<(), PlanIssue>)
    ensures
        res is Ok <==> reconciliation_valid(*plan, *reconciliation),
        reconciliation.predecessor <= 0 ==> res == Err::<(), PlanIssue>(
            PlanIssue::PredecessorNotPositive,
        ),
        reconciliation.predecessor > 0 && !digest_text(reconciliation.expected_current@) ==> res
            == Err::<(), PlanIssue>(PlanIssue::NotDigest(Field::ReconciliationExpectedCurrent)),
        res == as_result(reconciliation_issue(*plan, *reconciliation)),
{
    if reconciliation.predecessor <= 0 {
        return Err(PlanIssue::PredecessorNotPositive);
    }
    require_digest(
        reconciliation.expected_current.as_str(),
        Field::ReconciliationExpectedCurrent,
    )?;
    validate_mapping_sources(&collect_task_sources(reconciliation), MappingKind::Task)?;
    validate_mapping_sources(&collect_checklist_sources(reconciliation), MappingKind::Checklist)?;
    validate_mapping_sources(&collect_gate_sources(reconciliation), MappingKind::Gate)?;
    validate_mapping_sources(&collect_phase_sources(reconciliation), MappingKind::Phase)?;
    validate_mapping_sources(
        &collect_dependency_sources(reconciliation),
        MappingKind::Dependency,
    )?;
    validate_task_mappings(plan, reconciliation)?;
    validate_checklist_mappings(plan, reconciliation)?;
    validate_gate_mappings(plan, reconciliation)?;
    validate_phase_mappings(plan, reconciliation)?;
    validate_dependency_mappings(plan, reconciliation)?;
    Ok(())
}

} // verus!

verus! {

/// Checks the slice dependency graph, the items, slice ownership and the
/// reconciliation section of a plan whose slices are already valid.
pub fn validate_plan_graph(plan: &PlanDocument) -> (res: Result<(), PlanIssue>)
    requires
        slices_valid(*plan),
    ensures
        res is Ok <==> {
            &&& slice_dependencies_valid(*plan)
            &&& !has_cycle(plan.slices@)
            &&& items_valid(*plan)
            &&& slices_populated(*plan)
            &&& plan.reconciliation is Some ==> reconciliation_valid(
                *plan,
                plan.reconciliation.unwrap(),
            )
        },
        res == as_result(graph_issue(*plan)),
{
    validate_slice_dependencies(plan)?;
    proof {
        assert forall|i: int, k: int|
            0 <= i < plan.slices@.len() && 0 <= k < plan.slices@[i].depends_on@.len() implies exists|
            j: int,
        |
            0 <= j < plan.slices@.len() && (#[trigger] plan.slices@[j]).key@ == (
            #[trigger] plan.slices@[i].depends_on@[k])@ by {
            let s = plan.slices@[i];
            assert(has_slice(*plan, s.depends_on@[k]@));
        }
    }
    ensure_acyclic(&plan.slices)?;
    let ghost f = |x: int| item_entry_issue(*plan, x);
    let mut i: usize = 0;
    while i < plan.items.len()
        invariant
            i <= plan.items@.len(),
            forall|a: int| 0 <= a < i ==> item_valid(*plan, #[trigger] plan.items@[a]),
            forall|a: int, b: int|
                0 <= a < b < i ==> (#[trigger] plan.items@[a]).key@ != (
                #[trigger] plan.items@[b]).key@,
            f == (|x: int| item_entry_issue(*plan, x)),
            first_issue(i as int, f) is None,
            dependencies_issue(*plan) is None,
            !has_cycle(plan.slices@),
        decreases plan.items@.len() - i,
    {
        let item = &plan.items[i];
        if require_text(item.key.as_str(), Field::ItemKey).is_err() {
            proof {
                assert(first_issue(i as int + 1, f) == Some(PlanIssue::NotCanonical(Field::ItemKey)));
                lemma_first_issue_stays(f, i as int + 1, plan.items@.len() as int);
            }
            return Err(PlanIssue::NotCanonical(Field::ItemKey));
        }
        let mut j: usize = 0;
        while j < i
            invariant
                i < plan.items@.len(),
                item == plan.items@[i as int],
                j <= i,
                forall|a: int| 0 <= a < j ==> (#[trigger] plan.items@[a]).key@ != item.key@,
                f == (|x: int| item_entry_issue(*plan, x)),
                first_issue(i as int, f) is None,
                canonical_text(item.key@),
                dependencies_issue(*plan) is None,
                !has_cycle(plan.slices@),
            decreases i - j,
        {
            if plan.items[j].key == item.key {
                proof {
                    assert(plan.items@[j as int].key@ == item.key@);
                    assert(first_issue(i as int + 1, f) == Some(PlanIssue::ItemKeyDuplicate));
                    lemma_first_issue_stays(f, i as int + 1, plan.items@.len() as int);
                }
                return Err(PlanIssue::ItemKeyDuplicate);
            }
            j += 1;
        }
        let checked = validate_item(plan, i);
        if checked.is_err() {
            proof {
                assert(first_issue(i as int + 1, f) == item_issue(*plan, plan.items@[i as int]));
                lemma_first_issue_stays(f, i as int + 1, plan.items@.len() as int);
            }
            return checked;
        }
        assert(first_issue(i as int + 1, f) is None);
        i += 1;
    }
    assert(items_valid(*plan));
    assert(items_issue(*plan) is None);
    let mut s: usize = 0;
    while s < plan.slices.len()
        invariant
            s <= plan.slices@.len(),
            items_valid(*plan),
            items_issue(*plan) is None,
            dependencies_issue(*plan) is None,
            slice_dependencies_valid(*plan),
            !has_cycle(plan.slices@),
            forall|a: int| 0 <= a < s ==> slice_owned(*plan, (#[trigger] plan.slices@[a]).key@),
        decreases plan.slices@.len() - s,
    {
        let mut j: usize = 0;
        let mut found = false;
        while j < plan.items.len()
            invariant
                s < plan.slices@.len(),
                j <= plan.items@.len(),
                found ==> slice_owned(*plan, plan.slices@[s as int].key@),
                !found ==> forall|k: int|
                    0 <= k < j ==> (#[trigger] plan.items@[k]).slice@ != plan.slices@[s as int].key@,
            decreases plan.items@.len() - j,
        {
            if plan.items[j].slice == plan.slices[s].key {
                found = true;
            }
            j += 1;
        }
        if !found {
            assert(!slice_owned(*plan, plan.slices@[s as int].key@));
            return Err(PlanIssue::EmptySlice);
        }
        s += 1;
    }
    assert(slices_populated(*plan));
    match &plan.reconciliation {
        Some(reconciliation) => {
            let checked = validate_reconciliation(plan, reconciliation);
            if checked.is_err() {
                return checked;
            }
            assert(reconciliation_valid(*plan, plan.reconciliation.unwrap()));
        },
        None => {},
    }
    Ok(())
}

/// Validates a whole Decomposition Plan document.
pub fn validate_plan(plan: &PlanDocument) -> (res: Result<(), PlanIssue>)
    ensures
        res is Ok <==> plan_valid(*plan),
        !header_valid(*plan) ==> res is Err && (res == Err::<(), PlanIssue>(
            PlanIssue::UnsupportedFormat) || res == Err::<(), PlanIssue>(
            PlanIssue::NotCanonical(Field::PlanKey)) || res == Err::<(), PlanIssue>(
            PlanIssue::NotDigest(Field::DesignFingerprint))),
        header_valid(*plan) && (plan.items@.len() == 0 || plan.slices@.len() == 0) ==> res
            == Err::<(), PlanIssue>(PlanIssue::MissingItemsOrSlices),
        res == as_result(plan_issue(*plan)),
{
    validate_plan_header(plan)?;
    if plan.items.len() == 0 || plan.slices.len() == 0 {
        return Err(PlanIssue::MissingItemsOrSlices);
    }
    validate_slices(plan)?;
    validate_plan_graph(plan)
}

} // verus!
