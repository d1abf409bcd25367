//! Plan paths compared as paths: by their components, so that repeated
//! separators, a trailing separator and `.` segments after the first make no
//! difference, as they make none to a Unix `std::path::Path`.

use vstd::prelude::*;

verus! {

/// The texts between the separators of a path, empty ones included.
pub open spec fn path_segments(s: Seq<char>) -> Seq<Seq<char>>
    decreases s.len(),
{
    if s.len() == 0 {
        seq![Seq::empty()]
    } else if s.last() == '/' {
        path_segments(s.drop_last()).push(Seq::empty())
    } else {
        let r = path_segments(s.drop_last());
        r.update(r.len() - 1, r.last().push(s.last()))
    }
}

/// The segments that name something: neither empty nor `.`.
pub open spec fn kept_segments(segments: Seq<Seq<char>>) -> Seq<Seq<char>>
    decreases segments.len(),
{
    if segments.len() == 0 {
        Seq::empty()
    } else {
        let r = kept_segments(segments.drop_last());
        let last = segments.last();
        if last == Seq::<char>::empty() || last == "."@ {
            r
        } else {
            r.push(last)
        }
    }
}

/// The components of a path: the root (`/`) of an absolute path, or the
/// `.` a relative path starts with, then each segment that names
/// something.
pub open spec fn path_components(s: Seq<char>) -> Seq<Seq<char>> {
    let segments = path_segments(s);
    if s.len() > 0 && s[0] == '/' {
        seq!["/"@] + kept_segments(segments)
    } else if segments[0] == "."@ {
        seq!["."@] + kept_segments(segments)
    } else {
        kept_segments(segments)
    }
}

pub open spec fn char_views(v: Seq<Vec<char>>) -> Seq<Seq<char>> {
    v.map_values(|c: Vec<char>| c@)
}

proof fn lemma_segments_nonempty(s: Seq<char>)
    ensures
        path_segments(s).len() >= 1,
    decreases s.len(),
{
    if s.len() > 0 {
        lemma_segments_nonempty(s.drop_last());
    }
}

proof fn lemma_first_segment(s: Seq<char>)
    ensures
        s.len() > 0 && s[0] == '/' ==> path_segments(s)[0] == Seq::<char>::empty()
            && path_segments(s).len() >= 2,
    decreases s.len(),
{
    if s.len() > 0 && s[0] == '/' {
        if s.len() == 1 {
            assert(s.drop_last() =~= Seq::<char>::empty());
            assert(s.last() == '/');
            assert(path_segments(Seq::<char>::empty()) == seq![Seq::<char>::empty()]);
            assert(path_segments(s) == path_segments(s.drop_last()).push(Seq::<char>::empty()));
        } else {
            let r = path_segments(s.drop_last());
            assert(s.drop_last()[0] == s[0]);
            lemma_first_segment(s.drop_last());
            if s.last() == '/' {
                assert(path_segments(s)[0] == r[0]);
            } else {
                assert(path_segments(s) == r.update(r.len() - 1, r.last().push(s.last())));
                assert(path_segments(s)[0] == r[0]);
            }
        }
    }
}

fn segments_of(s: &Vec<char>) -> (r: Vec<Vec<char>>)
    ensures
        char_views(r@) == path_segments(s@),
{
    let mut done: Vec<Vec<char>> = Vec::new();
    let mut current: Vec<char> = Vec::new();
    let mut i: usize = 0;
    assert(s@.take(0) =~= Seq::<char>::empty());
    assert(char_views(done@).push(current@) =~= path_segments(s@.take(0)));
    while i < s.len()
        invariant
            i <= s@.len(),
            char_views(done@).push(current@) == path_segments(s@.take(i as int)),
        decreases s@.len() - i,
    {
        let c = s[i];
        let ghost before = char_views(done@).push(current@);
        assert(s@.take(i as int + 1).drop_last() =~= s@.take(i as int));
        assert(s@.take(i as int + 1).last() == c);
        if c == '/' {
            let finished = current;
            done.push(finished);
            current = Vec::new();
            assert(char_views(done@).push(current@) =~= before.push(Seq::empty()));
        } else {
            let ghost old_views = char_views(done@);
            current.push(c);
            assert(char_views(done@).push(current@) =~= before.update(
                before.len() - 1,
                before.last().push(c),
            ));
        }
        i += 1;
    }
    assert(s@.take(s@.len() as int) =~= s@);
    let ghost before = char_views(done@).push(current@);
    done.push(current);
    assert(char_views(done@) =~= before);
    done
}

fn is_dot(v: &Vec<char>) -> (r: bool)
    ensures
        r == (v@ == "."@),
{
    proof {
        reveal_strlit(".");
    }
    if v.len() == 1 && v[0] == '.' {
        assert(v@ =~= "."@);
        true
    } else {
        false
    }
}

fn components_of(text: &str) -> (r: Vec<Vec<char>>)
    ensures
        char_views(r@) == path_components(text@),
{
    let s = crate::text::chars_of(text);
    let segments = segments_of(&s);
    proof {
        lemma_segments_nonempty(s@);
        lemma_first_segment(s@);
        reveal_strlit("/");
        reveal_strlit(".");
    }
    assert(char_views(segments@)[0] == segments@[0]@);
    let mut out: Vec<Vec<char>> = Vec::new();
    if s.len() > 0 && s[0] == '/' {
        let mut root: Vec<char> = Vec::new();
        root.push('/');
        assert(root@ =~= "/"@);
        out.push(root);
        assert(char_views(out@) =~= seq!["/"@]);
    } else if is_dot(&segments[0]) {
        let mut dot: Vec<char> = Vec::new();
        dot.push('.');
        assert(dot@ =~= "."@);
        out.push(dot);
        assert(char_views(out@) =~= seq!["."@]);
    } else {
        assert(char_views(out@) =~= Seq::<Seq<char>>::empty());
    }
    let ghost head = char_views(out@);
    let mut i: usize = 0;
    assert(char_views(segments@).take(0) =~= Seq::<Seq<char>>::empty());
    while i < segments.len()
        invariant
            i <= segments@.len(),
            char_views(out@) == head + kept_segments(char_views(segments@).take(i as int)),
        decreases segments@.len() - i,
    {
        let ghost before = char_views(out@);
        let ghost views = char_views(segments@);
        assert(views.take(i as int + 1).drop_last() =~= views.take(i as int));
        assert(views.take(i as int + 1).last() == segments@[i as int]@);
        if !(segments[i].len() == 0 || is_dot(&segments[i])) {
            out.push(segments[i].clone());
            assert(char_views(out@) =~= before.push(segments@[i as int]@));
            assert(head + kept_segments(views.take(i as int + 1)) =~= before.push(
                segments@[i as int]@,
            ));
        } else {
            assert(segments@[i as int]@.len() == 0 ==> segments@[i as int]@ =~= Seq::<char>::empty());
        }
        i += 1;
    }
    assert(char_views(segments@).take(segments@.len() as int) =~= char_views(segments@));
    out
}

fn same_chars(a: &Vec<char>, b: &Vec<char>) -> (r: bool)
    ensures
        r == (a@ == b@),
{
    if a.len() != b.len() {
        return false;
    }
    let mut i: usize = 0;
    while i < a.len()
        invariant
            a@.len() == b@.len(),
            i <= a@.len(),
            forall|k: int| 0 <= k < i ==> a@[k] == b@[k],
        decreases a@.len() - i,
    {
        if a[i] != b[i] {
            return false;
        }
        i += 1;
    }
    assert(a@ =~= b@);
    true
}

/// Whether two path texts name the same path, component by component.
pub fn same_path(a: &str, b: &str) -> (r: bool)
    ensures
        r == (path_components(a@) == path_components(b@)),
{
    let x = components_of(a);
    let y = components_of(b);
    assert(char_views(x@).len() == x@.len() && char_views(y@).len() == y@.len());
    if x.len() != y.len() {
        return false;
    }
    let mut i: usize = 0;
    while i < x.len()
        invariant
            x@.len() == y@.len(),
            i <= x@.len(),
            forall|k: int| 0 <= k < i ==> x@[k]@ == y@[k]@,
            char_views(x@) == path_components(a@),
            char_views(y@) == path_components(b@),
        decreases x@.len() - i,
    {
        let same = same_chars(&x[i], &y[i]);
        if !same {
            assert(x@[i as int]@ != y@[i as int]@);
            proof {
                assert(char_views(x@)[i as int] == x@[i as int]@);
                assert(char_views(y@)[i as int] == y@[i as int]@);
                assert(path_components(a@)[i as int] != path_components(b@)[i as int]);
            }
            return false;
        }
        i += 1;
    }
    assert(char_views(x@) =~= char_views(y@));
    true
}

} // verus!
