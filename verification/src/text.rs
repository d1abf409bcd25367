//! Text predicates shared by the plan validators: canonical text, portable
//! tokens, SHA-256 identities and decimal rendering.

use vstd::prelude::*;

verus! {

/// Unicode `White_Space`, the set that `str::trim` removes.
pub open spec fn is_white_space(c: char) -> bool {
    let u = c as u32;
    ||| 0x09 <= u <= 0x0D
    ||| u == 0x20
    ||| u == 0x85
    ||| u == 0xA0
    ||| u == 0x1680
    ||| 0x2000 <= u <= 0x200A
    ||| u == 0x2028
    ||| u == 0x2029
    ||| u == 0x202F
    ||| u == 0x205F
    ||| u == 0x3000
}

/// Text that is non-empty and unchanged by trimming whitespace at both ends.
pub open spec fn canonical_text(s: Seq<char>) -> bool {
    &&& s.len() > 0
    &&& !is_white_space(s[0])
    &&& !is_white_space(s[s.len() - 1])
}

pub open spec fn is_ascii_alphanumeric(c: char) -> bool {
    let u = c as u32;
    ||| 0x30 <= u <= 0x39
    ||| 0x41 <= u <= 0x5A
    ||| 0x61 <= u <= 0x7A
}

pub open spec fn is_ascii_hex_digit(c: char) -> bool {
    let u = c as u32;
    ||| 0x30 <= u <= 0x39
    ||| 0x41 <= u <= 0x46
    ||| 0x61 <= u <= 0x66
}

/// A character allowed in a portable token: ASCII alphanumerics and `.`, `_`, `-`.
pub open spec fn is_token_char(c: char) -> bool {
    is_ascii_alphanumeric(c) || c == '.' || c == '_' || c == '-'
}

/// Canonical text made only of portable token characters.
pub open spec fn portable_token(s: Seq<char>) -> bool {
    canonical_text(s) && forall|i: int| 0 <= i < s.len() ==> is_token_char(#[trigger] s[i])
}

/// Sixty-four hexadecimal digits: the text form of a SHA-256 identity.
pub open spec fn digest_text(s: Seq<char>) -> bool {
    s.len() == 64 && forall|i: int| 0 <= i < s.len() ==> is_ascii_hex_digit(#[trigger] s[i])
}

pub fn white_space(c: char) -> (res: bool)
    ensures
        res == is_white_space(c),
{
    let u = c as u32;
    (0x09 <= u && u <= 0x0D) || u == 0x20 || u == 0x85 || u == 0xA0 || u == 0x1680 || (0x2000
        <= u && u <= 0x200A) || u == 0x2028 || u == 0x2029 || u == 0x202F || u == 0x205F || u
        == 0x3000
}

pub fn ascii_alphanumeric(c: char) -> (res: bool)
    ensures
        res == is_ascii_alphanumeric(c),
{
    let u = c as u32;
    (0x30 <= u && u <= 0x39) || (0x41 <= u && u <= 0x5A) || (0x61 <= u && u <= 0x7A)
}

pub fn ascii_hex_digit(c: char) -> (res: bool)
    ensures
        res == is_ascii_hex_digit(c),
{
    let u = c as u32;
    (0x30 <= u && u <= 0x39) || (0x41 <= u && u <= 0x46) || (0x61 <= u && u <= 0x66)
}

/// Whether `value` is non-empty canonical text.
pub fn is_canonical_text(value: &str) -> (res: bool)
    ensures
        res == canonical_text(value@),
{
    let n = value.unicode_len();
    if n == 0 {
        return false;
    }
    let first = value.get_char(0);
    let last = value.get_char(n - 1);
    !white_space(first) && !white_space(last)
}

} // verus!

verus! {

/// String equality on views.
pub fn str_eq(a: &str, b: &str) -> (res: bool)
    ensures
        res == (a@ == b@),
{
    let n = a.unicode_len();
    if n != b.unicode_len() {
        return false;
    }
    let mut i: usize = 0;
    while i < n
        invariant
            n == a@.len(),
            n == b@.len(),
            i <= n,
            forall|j: int| 0 <= j < i ==> a@[j] == b@[j],
        decreases n - i,
    {
        if a.get_char(i) != b.get_char(i) {
            return false;
        }
        i += 1;
    }
    assert(a@ =~= b@);
    true
}

} // verus!

verus! {

/// The characters of a string, in order.
pub fn chars_of(s: &str) -> (v: Vec<char>)
    ensures
        v@ == s@,
{
    broadcast use vstd::string::axiom_spec_iter;

    let mut v: Vec<char> = Vec::new();
    for c in it: s.chars()
        invariant
            it.seq() == s@,
            v@ == s@.take(it.index() as int),
    {
        assert(s@.take(it.index() as int + 1) =~= s@.take(it.index() as int).push(c));
        v.push(c);
    }
    assert(s@.take(s@.len() as int) =~= s@);
    v
}

} // verus!

verus! {

pub open spec fn digit_char(d: int) -> char {
    (('0' as int) + d) as char
}

/// The decimal digits of a natural number, most significant first.
pub open spec fn nat_decimal(n: nat) -> Seq<char>
    decreases n,
{
    if n < 10 {
        seq![digit_char(n as int)]
    } else {
        nat_decimal(n / 10).push(digit_char((n % 10) as int))
    }
}

/// The decimal text of an integer, with a leading `-` when negative.
pub open spec fn decimal(x: int) -> Seq<char> {
    if x < 0 {
        seq!['-'] + nat_decimal((-x) as nat)
    } else {
        nat_decimal(x as nat)
    }
}

fn digit(d: u64) -> (s: &'static str)
    requires
        d < 10,
    ensures
        s@ == seq![digit_char(d as int)],
{
    let s = crate::identity::hex_char(d as u8);
    s
}

/// Decimal text of an unsigned integer.
pub fn u64_decimal(n: u64) -> (s: String)
    ensures
        s@ == nat_decimal(n as nat),
    decreases n,
{
    if n < 10 {
        String::from_str(digit(n))
    } else {
        let mut s = u64_decimal(n / 10);
        s.append(digit(n % 10));
        s
    }
}

/// Decimal text of a signed integer.
pub fn i64_decimal(x: i64) -> (s: String)
    ensures
        s@ == decimal(x as int),
{
    if x < 0 {
        let magnitude: u64 = ((-(x + 1)) as u64) + 1;
        proof {
            reveal_strlit("-");
        }
        let mut s = String::from_str("-");
        let digits = u64_decimal(magnitude);
        s.append(digits.as_str());
        assert(s@ =~= seq!['-'] + nat_decimal((-x) as nat));
        s
    } else {
        u64_decimal(x as u64)
    }
}

pub open spec fn is_digit(c: char) -> bool {
    '0' <= c <= '9'
}

pub open spec fn all_digits(s: Seq<char>) -> bool {
    forall|i: int| 0 <= i < s.len() ==> is_digit(#[trigger] s[i])
}

/// The value of a run of decimal digits.
pub open spec fn digits_value(s: Seq<char>) -> int
    decreases s.len(),
{
    if s.len() == 0 {
        0
    } else {
        digits_value(s.drop_last()) * 10 + (s.last() as int - '0' as int)
    }
}

/// An optional sign, then decimal digits.
pub open spec fn sign_and_digits(s: Seq<char>) -> (bool, Seq<char>) {
    if s.len() > 0 && s[0] == '-' {
        (true, s.drop_first())
    } else if s.len() > 0 && s[0] == '+' {
        (false, s.drop_first())
    } else {
        (false, s)
    }
}

/// What parsing `s` as an `i64` gives: an optional sign and at least one
/// decimal digit, with a value in range; none otherwise.
pub open spec fn spec_parse_i64(s: Seq<char>) -> Option<i64> {
    let parts = sign_and_digits(s);
    let negative = parts.0;
    let body = parts.1;
    let v = if negative {
        -digits_value(body)
    } else {
        digits_value(body)
    };
    if body.len() == 0 || !all_digits(body) || v < i64::MIN || v > i64::MAX {
        None
    } else {
        Some(v as i64)
    }
}

proof fn lemma_digits_nonneg(s: Seq<char>)
    requires
        all_digits(s),
    ensures
        digits_value(s) >= 0,
    decreases s.len(),
{
    if s.len() > 0 {
        assert(all_digits(s.drop_last())) by {
            assert forall|i: int| 0 <= i < s.drop_last().len() implies is_digit(
                #[trigger] s.drop_last()[i],
            ) by {
                assert(s.drop_last()[i] == s[i]);
            }
        }
        lemma_digits_nonneg(s.drop_last());
        assert(is_digit(s[s.len() - 1]));
    }
}

/// Parses decimal text into an `i64` as `str::parse` does.
pub fn parse_i64(s: &str) -> (r: Option<i64>)
    ensures
        r == spec_parse_i64(s@),
{
    let chars = chars_of(s);
    let mut start: usize = 0;
    let mut negative = false;
    if chars.len() > 0 && chars[0] == '-' {
        negative = true;
        start = 1;
    } else if chars.len() > 0 && chars[0] == '+' {
        start = 1;
    }
    let ghost body = sign_and_digits(s@).1;
    assert(body =~= s@.skip(start as int));
    if start >= chars.len() {
        assert(body.len() == 0);
        return None;
    }
    let cap: i128 = 0x8000_0000_0000_0001;
    let mut value: i128 = 0;
    let mut i: usize = start;
    while i < chars.len()
        invariant
            start <= i <= chars@.len(),
            chars@ == s@,
            body == s@.skip(start as int),
            body == sign_and_digits(s@).1,
            negative == sign_and_digits(s@).0,
            all_digits(body.take(i - start)),
            value == (if digits_value(body.take(i - start)) < cap {
                digits_value(body.take(i - start))
            } else {
                cap as int
            }),
            cap == 0x8000_0000_0000_0001,
        decreases chars@.len() - i,
    {
        let c = chars[i];
        if !('0' <= c && c <= '9') {
            assert(body[i - start] == c);
            assert(!all_digits(body));
            return None;
        }
        let d = (c as u32 - '0' as u32) as i128;
        let ghost prev = body.take(i - start);
        let ghost next = body.take(i - start + 1);
        proof {
            assert(next.drop_last() =~= prev);
            assert(next.last() == c);
            assert(all_digits(next)) by {
                assert forall|k: int| 0 <= k < next.len() implies is_digit(#[trigger] next[k]) by {
                    if k < prev.len() {
                        assert(next[k] == prev[k]);
                    }
                }
            }
            lemma_digits_nonneg(prev);
        }
        if value >= cap {
            value = cap;
        } else {
            let v = value * 10 + d;
            value = if v < cap {
                v
            } else {
                cap
            };
        }
        i += 1;
    }
    assert(body.take(chars@.len() - start) =~= body);
    proof {
        lemma_digits_nonneg(body);
    }
    if negative {
        if value > 0x8000_0000_0000_0000 {
            return None;
        }
        let v: i128 = -value;
        Some(v as i64)
    } else {
        if value > 0x7fff_ffff_ffff_ffff {
            return None;
        }
        Some(value as i64)
    }
}

} // verus!
