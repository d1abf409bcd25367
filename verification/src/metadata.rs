//! The metadata block of a plan file: finding it, and framing canonical content.

use vstd::prelude::*;

use crate::text::chars_of;

verus! {

/// Why the metadata block of a plan file cannot be read.
#[derive(Clone, Copy, Debug, PartialEq, Eq)]
pub enum MetadataIssue {
    MoreThanOneBlock,
    FenceNotAtLineEnd,
    Unterminated,
}

pub open spec fn metadata_issue_text(i: MetadataIssue) -> Seq<char> {
    match i {
        MetadataIssue::MoreThanOneBlock => "decomposition plan must contain exactly one metadata block"@,
        MetadataIssue::FenceNotAtLineEnd => "decomposition plan metadata fence must end its line"@,
        MetadataIssue::Unterminated => "decomposition plan metadata fence is unterminated"@,
    }
}

impl MetadataIssue {
    pub fn message(&self) -> (res: String)
        ensures
            res@ == metadata_issue_text(*self),
    {
        match self {
            MetadataIssue::MoreThanOneBlock => String::from_str(
                "decomposition plan must contain exactly one metadata block",
            ),
            MetadataIssue::FenceNotAtLineEnd => String::from_str(
                "decomposition plan metadata fence must end its line",
            ),
            MetadataIssue::Unterminated => String::from_str(
                "decomposition plan metadata fence is unterminated",
            ),
        }
    }
}

/// The fence that opens the metadata block.
pub open spec fn opening_fence() -> Seq<char> {
    "```yaml agent-workbench"@
}

/// The newline and fence that close the metadata block.
pub open spec fn closing_fence() -> Seq<char> {
    "\n```"@
}

pub open spec fn occurs_at(s: Seq<char>, pattern: Seq<char>, i: int) -> bool {
    0 <= i && i + pattern.len() <= s.len() && s.subrange(i, i + pattern.len()) == pattern
}

pub open spec fn occurs_in(s: Seq<char>, pattern: Seq<char>) -> bool {
    exists|i: int| #[trigger] occurs_at(s, pattern, i)
}

/// `i` is the first place where `pattern` occurs in `s`.
pub open spec fn first_occurrence(s: Seq<char>, pattern: Seq<char>, i: int) -> bool {
    occurs_at(s, pattern, i) && forall|j: int| 0 <= j < i ==> !#[trigger] occurs_at(s, pattern, j)
}

/// The metadata block of `content`: absent without an opening fence; refused
/// when a second opening fence follows, when the fence does not end its line,
/// or when no closing fence follows; otherwise the text between the fences.
pub open spec fn spec_fenced_metadata(content: Seq<char>) -> Result<
    Option<Seq<char>>,
    MetadataIssue,
> {
    if !occurs_in(content, opening_fence()) {
        Ok(None)
    } else {
        let start = choose|i: int| first_occurrence(content, opening_fence(), i);
        let rest = content.subrange(start + opening_fence().len(), content.len() as int);
        if occurs_in(rest, opening_fence()) {
            Err(MetadataIssue::MoreThanOneBlock)
        } else if rest.len() == 0 || rest[0] != '\n' {
            Err(MetadataIssue::FenceNotAtLineEnd)
        } else {
            let body = rest.drop_first();
            if !occurs_in(body, closing_fence()) {
                Err(MetadataIssue::Unterminated)
            } else {
                let end = choose|i: int| first_occurrence(body, closing_fence(), i);
                Ok(Some(body.take(end)))
            }
        }
    }
}

fn matches_at(s: &Vec<char>, pattern: &Vec<char>, i: usize) -> (res: bool)
    ensures
        res == occurs_at(s@, pattern@, i as int),
{
    let n = s.len();
    if i > n || pattern.len() > n - i {
        return false;
    }
    let mut k: usize = 0;
    while k < pattern.len()
        invariant
            n == s@.len(),
            i + pattern@.len() <= s@.len(),
            k <= pattern@.len(),
            forall|j: int| 0 <= j < k ==> s@[i + j] == pattern@[j],
        decreases pattern@.len() - k,
    {
        if s[i + k] != pattern[k] {
            assert(s@.subrange(i as int, i + pattern@.len())[k as int] != pattern@[k as int]);
            return false;
        }
        k += 1;
    }
    assert(s@.subrange(i as int, i + pattern@.len()) =~= pattern@);
    true
}

/// The first place at or after `from` where `pattern` occurs.
fn find_from(s: &Vec<char>, pattern: &Vec<char>, from: usize) -> (res: Option<usize>)
    requires
        from <= s@.len(),
    ensures
        res matches Some(i) ==> from <= i && occurs_at(s@, pattern@, i as int) && forall|j: int|
            from <= j < i ==> !#[trigger] occurs_at(s@, pattern@, j),
        res is None ==> forall|j: int| from <= j ==> !#[trigger] occurs_at(s@, pattern@, j),
{
    let n = s.len();
    let mut i: usize = from;
    while i < n
        invariant
            n == s@.len(),
            from <= i <= n,
            forall|j: int| from <= j < i ==> !#[trigger] occurs_at(s@, pattern@, j),
        decreases n - i,
    {
        if matches_at(s, pattern, i) {
            return Some(i);
        }
        i += 1;
    }
    if matches_at(s, pattern, n) {
        return Some(n);
    }
    None
}

proof fn lemma_shifted_occurrence(s: Seq<char>, pattern: Seq<char>, offset: int, i: int)
    requires
        0 <= offset <= s.len(),
    ensures
        occurs_at(s.subrange(offset, s.len() as int), pattern, i) <==> (0 <= i && occurs_at(
            s,
            pattern,
            offset + i,
        )),
{
    let rest = s.subrange(offset, s.len() as int);
    if 0 <= i && i + pattern.len() <= rest.len() {
        assert(rest.subrange(i, i + pattern.len()) =~= s.subrange(
            offset + i,
            offset + i + pattern.len(),
        ));
    }
}

/// The metadata block of a plan file, if it has one.
pub fn fenced_metadata(content: &str) -> (res: Result<Option<String>, MetadataIssue>)
    ensures
        match (res, spec_fenced_metadata(content@)) {
            (Ok(Some(body)), Ok(Some(expected))) => body@ == expected,
            (Ok(None), Ok(None)) => true,
            (Err(e), Err(expected)) => e == expected,
            _ => false,
        },
{
    let chars = chars_of(content);
    let opening = chars_of("```yaml agent-workbench");
    let closing = chars_of("\n```");
    let ghost s = content@;
    let n = chars.len();
    let start = match find_from(&chars, &opening, 0) {
        None => {
            assert(!occurs_in(s, opening_fence()));
            return Ok(None);
        },
        Some(start) => start,
    };
    assert(first_occurrence(s, opening_fence(), start as int));
    let ghost chosen = choose|i: int| first_occurrence(s, opening_fence(), i);
    assert(chosen == start) by {
        if chosen < start {
            assert(!occurs_at(s, opening_fence(), chosen));
        } else if start < chosen {
            assert(!occurs_at(s, opening_fence(), start as int));
        }
    }
    let body_start = start + opening.len();
    let ghost rest = s.subrange(body_start as int, s.len() as int);
    if find_from(&chars, &opening, body_start).is_some() {
        proof {
            let j = choose|j: int| body_start <= j && occurs_at(s, opening_fence(), j);
            lemma_shifted_occurrence(s, opening_fence(), body_start as int, j - body_start);
            assert(occurs_at(rest, opening_fence(), j - body_start));
        }
        return Err(MetadataIssue::MoreThanOneBlock);
    }
    assert(!occurs_in(rest, opening_fence())) by {
        if occurs_in(rest, opening_fence()) {
            let j = choose|j: int| occurs_at(rest, opening_fence(), j);
            lemma_shifted_occurrence(s, opening_fence(), body_start as int, j);
        }
    }
    if body_start >= n || chars[body_start] != '\n' {
        return Err(MetadataIssue::FenceNotAtLineEnd);
    }
    let ghost body = rest.drop_first();
    let end = match find_from(&chars, &closing, body_start + 1) {
        None => {
            assert(!occurs_in(body, closing_fence())) by {
                if occurs_in(body, closing_fence()) {
                    let j = choose|j: int| occurs_at(body, closing_fence(), j);
                    assert(body =~= s.subrange(body_start + 1, s.len() as int));
                    lemma_shifted_occurrence(s, closing_fence(), body_start + 1, j);
                }
            }
            return Err(MetadataIssue::Unterminated);
        },
        Some(end) => end,
    };
    proof {
        assert(body =~= s.subrange(body_start + 1, s.len() as int));
        let e = end - body_start - 1;
        lemma_shifted_occurrence(s, closing_fence(), body_start + 1, e);
        assert(occurs_at(body, closing_fence(), e));
        assert forall|j: int| 0 <= j < e implies !#[trigger] occurs_at(body, closing_fence(), j) by {
            lemma_shifted_occurrence(s, closing_fence(), body_start + 1, j);
        }
        assert(first_occurrence(body, closing_fence(), e));
        let chosen_end = choose|i: int| first_occurrence(body, closing_fence(), i);
        assert(chosen_end == e) by {
            if chosen_end < e {
                assert(!occurs_at(body, closing_fence(), chosen_end));
            } else if e < chosen_end {
                assert(!occurs_at(body, closing_fence(), e));
            }
        }
    }
    let text = content.substring_char(body_start + 1, end).to_owned();
    proof {
        assert(body.take(end - body_start - 1) =~= s.subrange(body_start + 1, end as int));
    }
    Ok(Some(text))
}

/// The canonical content of a plan: a title, then the metadata in one fenced block.
pub open spec fn framed_content(metadata: Seq<char>) -> Seq<char> {
    "# Decomposition Plan\n\n```yaml agent-workbench\n"@ + metadata + "\n```\n"@
}

/// Frames canonical plan metadata as the plan's stored content.
pub fn canonical_plan_content(metadata: &str) -> (res: String)
    ensures
        res@ == framed_content(metadata@),
{
    String::from_str("# Decomposition Plan\n\n```yaml agent-workbench\n").concat(metadata).concat(
        "\n```\n",
    )
}

} // verus!
