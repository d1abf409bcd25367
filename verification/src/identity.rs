//! Content identities: SHA-256 digests of domain-separated byte strings,
//! written as lowercase hexadecimal.

use sha2::Digest;
use vstd::prelude::*;
use vstd::utf8::encode_utf8;

verus! {

/// The SHA-256 digest of a byte string.
pub uninterp spec fn sha256(data: Seq<u8>) -> Seq<u8>;

/// Calls `sha2::Sha256::digest`. Trusted: the digest is the function `sha256`
/// of the input bytes, and it is 32 bytes long (SHA-256 digests are 256 bits).
#[verifier::external_body]
fn sha256_digest(data: &[u8]) -> (digest: Vec<u8>)
    ensures
        digest@ == sha256(data@),
        digest@.len() == 32,
{
    sha2::Sha256::digest(data).to_vec()
}

/// The lowercase hexadecimal digit of a value below sixteen.
pub open spec fn hex_digit(v: int) -> char {
    if v < 10 {
        (('0' as int) + v) as char
    } else {
        (('a' as int) + v - 10) as char
    }
}

/// Two lowercase hexadecimal digits per byte, most significant first.
pub open spec fn lower_hex(bytes: Seq<u8>) -> Seq<char>
    decreases bytes.len(),
{
    if bytes.len() == 0 {
        Seq::empty()
    } else {
        lower_hex(bytes.drop_last()) + seq![
            hex_digit(bytes.last() as int / 16),
            hex_digit(bytes.last() as int % 16),
        ]
    }
}

/// The identity of a byte string: its SHA-256 digest in lowercase hexadecimal.
pub open spec fn identity_of(data: Seq<u8>) -> Seq<char> {
    lower_hex(sha256(data))
}

/// The eight big-endian bytes of a 64-bit integer, in two's complement.
pub open spec fn be_bytes(x: u64) -> Seq<u8> {
    seq![
        (x >> 56u64) as u8,
        ((x >> 48u64) & 0xffu64) as u8,
        ((x >> 40u64) & 0xffu64) as u8,
        ((x >> 32u64) & 0xffu64) as u8,
        ((x >> 24u64) & 0xffu64) as u8,
        ((x >> 16u64) & 0xffu64) as u8,
        ((x >> 8u64) & 0xffu64) as u8,
        (x & 0xffu64) as u8,
    ]
}

pub fn hex_char(v: u8) -> (s: &'static str)
    requires
        v < 16,
    ensures
        s@ == seq![hex_digit(v as int)],
{
    proof {
        reveal_strlit("0");
        reveal_strlit("1");
        reveal_strlit("2");
        reveal_strlit("3");
        reveal_strlit("4");
        reveal_strlit("5");
        reveal_strlit("6");
        reveal_strlit("7");
        reveal_strlit("8");
        reveal_strlit("9");
        reveal_strlit("a");
        reveal_strlit("b");
        reveal_strlit("c");
        reveal_strlit("d");
        reveal_strlit("e");
        reveal_strlit("f");
    }
    let s = match v {
        0 => "0",
        1 => "1",
        2 => "2",
        3 => "3",
        4 => "4",
        5 => "5",
        6 => "6",
        7 => "7",
        8 => "8",
        9 => "9",
        10 => "a",
        11 => "b",
        12 => "c",
        13 => "d",
        14 => "e",
        _ => "f",
    };
    assert(s@ =~= seq![hex_digit(v as int)]);
    s
}

/// Lowercase hexadecimal text of a byte string.
pub fn to_lower_hex(bytes: &Vec<u8>) -> (s: String)
    ensures
        s@ == lower_hex(bytes@),
{
    let mut s = String::new();
    let mut i: usize = 0;
    while i < bytes.len()
        invariant
            i <= bytes@.len(),
            s@ == lower_hex(bytes@.take(i as int)),
        decreases bytes@.len() - i,
    {
        let b = bytes[i];
        s.append(hex_char(b / 16));
        s.append(hex_char(b % 16));
        assert(bytes@.take(i as int + 1).drop_last() =~= bytes@.take(i as int));
        i += 1;
    }
    assert(bytes@.take(bytes@.len() as int) =~= bytes@);
    s
}

/// Appends bytes to a buffer.
pub fn append_bytes(buf: &mut Vec<u8>, data: &[u8])
    ensures
        final(buf)@ == old(buf)@ + data@,
{
    let mut i: usize = 0;
    while i < data.len()
        invariant
            i <= data@.len(),
            buf@ == old(buf)@ + data@.take(i as int),
        decreases data@.len() - i,
    {
        buf.push(data[i]);
        assert(data@.take(i as int + 1) =~= data@.take(i as int).push(data@[i as int]));
        i += 1;
    }
    assert(data@.take(data@.len() as int) =~= data@);
}

/// Appends the UTF-8 bytes of a text.
pub fn append_text(buf: &mut Vec<u8>, text: &str)
    ensures
        final(buf)@ == old(buf)@ + encode_utf8(text@),
{
    append_bytes(buf, text.as_bytes());
}

/// Appends the big-endian bytes of an integer.
pub fn append_be(buf: &mut Vec<u8>, x: u64)
    ensures
        final(buf)@ == old(buf)@ + be_bytes(x),
{
    buf.push((x >> 56u64) as u8);
    buf.push(((x >> 48u64) & 0xffu64) as u8);
    buf.push(((x >> 40u64) & 0xffu64) as u8);
    buf.push(((x >> 32u64) & 0xffu64) as u8);
    buf.push(((x >> 24u64) & 0xffu64) as u8);
    buf.push(((x >> 16u64) & 0xffu64) as u8);
    buf.push(((x >> 8u64) & 0xffu64) as u8);
    buf.push((x & 0xffu64) as u8);
    assert(buf@ =~= old(buf)@ + be_bytes(x));
}

/// The identity of a byte string.
pub fn identity(data: &Vec<u8>) -> (s: String)
    ensures
        s@ == identity_of(data@),
        crate::text::digest_text(s@),
{
    let digest = sha256_digest(data.as_slice());
    proof {
        lemma_lower_hex_digits(digest@);
    }
    to_lower_hex(&digest)
}

/// Lowercase hexadecimal text has two hexadecimal digits per byte.
pub proof fn lemma_lower_hex_digits(bytes: Seq<u8>)
    ensures
        lower_hex(bytes).len() == 2 * bytes.len(),
        forall|i: int|
            0 <= i < lower_hex(bytes).len() ==> crate::text::is_ascii_hex_digit(
                #[trigger] lower_hex(bytes)[i],
            ),
    decreases bytes.len(),
{
    if bytes.len() > 0 {
        lemma_lower_hex_digits(bytes.drop_last());
        let prev = lower_hex(bytes.drop_last());
        let hi = bytes.last() as int / 16;
        let lo = bytes.last() as int % 16;
        assert(0 <= hi < 16 && 0 <= lo < 16);
        assert forall|i: int| 0 <= i < lower_hex(bytes).len() implies crate::text::is_ascii_hex_digit(
            #[trigger] lower_hex(bytes)[i],
        ) by {
            if i < prev.len() {
                assert(lower_hex(bytes)[i] == prev[i]);
            }
        }
    }
}

} // verus!

verus! {

pub open spec fn content_domain() -> Seq<char> {
    "agent-workbench/decomposition-plan-content/v1\0"@
}

pub open spec fn source_domain() -> Seq<char> {
    "agent-workbench/decomposition-plan-source/v1\0"@
}

pub open spec fn lifecycle_domain() -> Seq<char> {
    "agent-workbench/decomposition-lifecycle-source/v1\0"@
}

pub open spec fn payload_domain() -> Seq<char> {
    "agent-workbench/decomposition-reconciliation-payload/v1\0"@
}

pub open spec fn result_domain() -> Seq<char> {
    "agent-workbench/decomposition-reconciliation-result/v1\0"@
}

pub open spec fn projection_domain() -> Seq<char> {
    "agent-workbench/decomposition-projection/v1\0"@
}

pub open spec fn nul() -> Seq<char> {
    "\0"@
}

/// The identity of a plan's stored content.
pub open spec fn spec_plan_content_identity(content: Seq<char>) -> Seq<char> {
    identity_of(encode_utf8(content_domain()) + encode_utf8(content))
}

/// The identity of the bytes a plan file was read from.
pub open spec fn spec_plan_source_identity(source: Seq<char>) -> Seq<char> {
    identity_of(encode_utf8(source_domain()) + encode_utf8(source))
}

/// The identity of a stored reconciliation result document.
pub open spec fn spec_reconciliation_result_identity(result: Seq<char>) -> Seq<char> {
    identity_of(encode_utf8(result_domain()) + encode_utf8(result))
}

/// The identity of a plan's canonical content.
pub fn plan_content_identity(content: &str) -> (s: String)
    ensures
        crate::text::digest_text(s@),
        s@ == spec_plan_content_identity(content@),
{
    let mut buf: Vec<u8> = Vec::new();
    append_text(&mut buf, "agent-workbench/decomposition-plan-content/v1\0");
    append_text(&mut buf, content);
    identity(&buf)
}

/// The identity of the exact bytes of a plan file.
pub fn plan_source_identity(source: &str) -> (s: String)
    ensures
        crate::text::digest_text(s@),
        s@ == spec_plan_source_identity(source@),
{
    let mut buf: Vec<u8> = Vec::new();
    append_text(&mut buf, "agent-workbench/decomposition-plan-source/v1\0");
    append_text(&mut buf, source);
    identity(&buf)
}

/// The identity of a serialized reconciliation result.
pub fn reconciliation_result_identity(result_json: &str) -> (s: String)
    ensures
        crate::text::digest_text(s@),
        s@ == spec_reconciliation_result_identity(result_json@),
{
    let mut buf: Vec<u8> = Vec::new();
    append_text(&mut buf, "agent-workbench/decomposition-reconciliation-result/v1\0");
    append_text(&mut buf, result_json);
    identity(&buf)
}

/// What a lifecycle transition's source identity is computed from.
pub struct LifecycleSourceIdentity<'a> {
    pub operation: &'a str,
    pub idempotency_key: &'a str,
    pub expected_current: &'a str,
    pub predecessor_id: i64,
    pub revision: i64,
    pub draft: bool,
    pub source_path: &'a str,
    pub source_identity: &'a str,
}

pub open spec fn lifecycle_bytes(input: LifecycleSourceIdentity) -> Seq<u8> {
    encode_utf8(lifecycle_domain()) + encode_utf8(input.operation@) + encode_utf8(nul())
        + encode_utf8(input.idempotency_key@) + encode_utf8(nul()) + encode_utf8(
        input.expected_current@,
    ) + encode_utf8(nul()) + seq![if input.draft { 1u8 } else { 0u8 }] + be_bytes(
        input.predecessor_id as u64,
    ) + be_bytes(input.revision as u64) + encode_utf8(input.source_path@) + encode_utf8(nul())
        + encode_utf8(input.source_identity@)
}

/// The identity of a lifecycle transition: the operation, its idempotency key
/// and expected current handle, draft flag, predecessor, revision, source
/// path and the source identity of the supplied bytes.
pub fn lifecycle_source_identity(input: LifecycleSourceIdentity) -> (s: String)
    ensures
        crate::text::digest_text(s@),
        s@ == identity_of(lifecycle_bytes(input)),
{
    let mut buf: Vec<u8> = Vec::new();
    append_text(&mut buf, "agent-workbench/decomposition-lifecycle-source/v1\0");
    append_text(&mut buf, input.operation);
    append_text(&mut buf, "\0");
    append_text(&mut buf, input.idempotency_key);
    append_text(&mut buf, "\0");
    append_text(&mut buf, input.expected_current);
    append_text(&mut buf, "\0");
    buf.push(if input.draft { 1u8 } else { 0u8 });
    append_be(&mut buf, input.predecessor_id as u64);
    append_be(&mut buf, input.revision as u64);
    append_text(&mut buf, input.source_path);
    append_text(&mut buf, "\0");
    append_text(&mut buf, input.source_identity);
    assert(buf@ =~= lifecycle_bytes(input));
    identity(&buf)
}

pub open spec fn payload_bytes(
    closure_id: i64,
    design_version_id: i64,
    work_unit_id: i64,
    source_path: Seq<char>,
    source_identity: Seq<char>,
    expected_current: Option<Seq<char>>,
) -> Seq<u8> {
    encode_utf8(payload_domain()) + be_bytes(closure_id as u64) + be_bytes(
        design_version_id as u64,
    ) + be_bytes(work_unit_id as u64) + encode_utf8(source_path) + encode_utf8(nul())
        + encode_utf8(source_identity) + encode_utf8(nul()) + match expected_current {
        Some(e) => encode_utf8(e),
        None => Seq::empty(),
    }
}

/// The identity of a reconciliation request: closure, design, work, the plan
/// source path and identity, and the expected current handle of its
/// reconciliation section when it has one.
pub fn reconciliation_payload_identity(
    closure_id: i64,
    design_version_id: i64,
    work_unit_id: i64,
    source_path: &str,
    source_identity: &str,
    expected_current: Option<&str>,
) -> (s: String)
    ensures
        crate::text::digest_text(s@),
        s@ == identity_of(
            payload_bytes(
                closure_id,
                design_version_id,
                work_unit_id,
                source_path@,
                source_identity@,
                match expected_current {
                    Some(e) => Some(e@),
                    None => None,
                },
            ),
        ),
{
    let mut buf: Vec<u8> = Vec::new();
    append_text(&mut buf, "agent-workbench/decomposition-reconciliation-payload/v1\0");
    append_be(&mut buf, closure_id as u64);
    append_be(&mut buf, design_version_id as u64);
    append_be(&mut buf, work_unit_id as u64);
    append_text(&mut buf, source_path);
    append_text(&mut buf, "\0");
    append_text(&mut buf, source_identity);
    append_text(&mut buf, "\0");
    let ghost before = buf@;
    if let Some(e) = expected_current {
        append_text(&mut buf, e);
    }
    assert(buf@ =~= payload_bytes(
        closure_id,
        design_version_id,
        work_unit_id,
        source_path@,
        source_identity@,
        match expected_current {
            Some(e) => Some(e@),
            None => None,
        },
    ));
    identity(&buf)
}

/// Each value as its UTF-8 length in eight big-endian bytes, then its bytes.
pub open spec fn length_prefixed(values: Seq<Seq<char>>) -> Seq<u8>
    decreases values.len(),
{
    if values.len() == 0 {
        Seq::empty()
    } else {
        length_prefixed(values.drop_last()) + be_bytes(
            encode_utf8(values.last()).len() as u64,
        ) + encode_utf8(values.last())
    }
}

pub open spec fn spec_projection_handle(domain: Seq<char>, values: Seq<Seq<char>>) -> Seq<char> {
    identity_of(
        encode_utf8(projection_domain()) + encode_utf8(domain) + encode_utf8(nul())
            + length_prefixed(values),
    )
}

/// The identity of an observed projection: a domain name and a list of values.
pub fn projection_handle(domain: &str, values: &Vec<String>) -> (s: String)
    ensures
        crate::text::digest_text(s@),
        s@ == spec_projection_handle(domain@, values@.map_values(|v: String| v@)),
{
    let ghost views = values@.map_values(|v: String| v@);
    let mut buf: Vec<u8> = Vec::new();
    append_text(&mut buf, "agent-workbench/decomposition-projection/v1\0");
    append_text(&mut buf, domain);
    append_text(&mut buf, "\0");
    let ghost head = buf@;
    let mut i: usize = 0;
    while i < values.len()
        invariant
            i <= values@.len(),
            views == values@.map_values(|v: String| v@),
            buf@ == head + length_prefixed(views.take(i as int)),
        decreases values@.len() - i,
    {
        let bytes = values[i].as_str().as_bytes();
        append_be(&mut buf, bytes.len() as u64);
        append_bytes(&mut buf, bytes);
        assert(views.take(i as int + 1).drop_last() =~= views.take(i as int));
        assert(views.take(i as int + 1).last() == values@[i as int]@);
        i += 1;
    }
    assert(views.take(values@.len() as int) =~= views);
    identity(&buf)
}

} // verus!

verus! {

/// A stored column value as the current identity of a plan reads it: null,
/// an integer, a real number by its IEEE-754 bits, or the bytes of a text
/// or blob.
#[derive(Clone, Debug, PartialEq, Eq)]
pub enum StoredValue {
    Null,
    Integer(i64),
    Real(u64),
    Bytes(Vec<u8>),
}

pub open spec fn current_domain() -> Seq<char> {
    "agent-workbench/decomposition-current/v1\0"@
}

/// The bytes one stored value contributes, then its terminating NUL.
pub open spec fn value_bytes(v: StoredValue) -> Seq<u8> {
    let body = match v {
        StoredValue::Null => encode_utf8("null"@),
        StoredValue::Integer(x) => be_bytes(x as u64),
        StoredValue::Real(bits) => be_bytes(bits),
        StoredValue::Bytes(b) => b@,
    };
    body + encode_utf8(nul())
}

/// A row: the marker `row` and a NUL, then each of its values.
pub open spec fn row_bytes(row: Seq<StoredValue>) -> Seq<u8>
    decreases row.len(),
{
    if row.len() == 0 {
        encode_utf8("row\0"@)
    } else {
        row_bytes(row.drop_last()) + value_bytes(row.last())
    }
}

pub open spec fn rows_bytes(rows: Seq<Vec<StoredValue>>) -> Seq<u8>
    decreases rows.len(),
{
    if rows.len() == 0 {
        Seq::empty()
    } else {
        rows_bytes(rows.drop_last()) + row_bytes(rows.last()@)
    }
}

/// A shared binding: kind, id, owner, disposition, qualification and
/// observed handle, without separators.
pub open spec fn binding_bytes(b: crate::records::DecompositionSharedBindingRecord) -> Seq<u8> {
    encode_utf8(b.kind@) + be_bytes(b.id as u64) + encode_utf8(b.owner@) + encode_utf8(
        b.disposition@,
    ) + encode_utf8(b.qualification@) + encode_utf8(b.observed_handle@)
}

pub open spec fn bindings_bytes(s: Seq<crate::records::DecompositionSharedBindingRecord>) -> Seq<u8>
    decreases s.len(),
{
    if s.len() == 0 {
        Seq::empty()
    } else {
        bindings_bytes(s.drop_last()) + binding_bytes(s.last())
    }
}

pub open spec fn spec_current_identity(
    rows: Seq<Vec<StoredValue>>,
    bindings: Seq<crate::records::DecompositionSharedBindingRecord>,
) -> Seq<char> {
    identity_of(encode_utf8(current_domain()) + rows_bytes(rows) + bindings_bytes(bindings))
}

fn append_value(buf: &mut Vec<u8>, v: &StoredValue)
    ensures
        final(buf)@ == old(buf)@ + value_bytes(*v),
{
    let ghost start = buf@;
    match v {
        StoredValue::Null => append_text(buf, "null"),
        StoredValue::Integer(x) => append_be(buf, *x as u64),
        StoredValue::Real(bits) => append_be(buf, *bits),
        StoredValue::Bytes(b) => append_bytes(buf, b.as_slice()),
    }
    append_text(buf, "\0");
    assert(buf@ =~= start + value_bytes(*v));
}

fn append_binding(buf: &mut Vec<u8>, b: &crate::records::DecompositionSharedBindingRecord)
    ensures
        final(buf)@ == old(buf)@ + binding_bytes(*b),
{
    let ghost start = buf@;
    append_text(buf, b.kind.as_str());
    append_be(buf, b.id as u64);
    append_text(buf, b.owner.as_str());
    append_text(buf, b.disposition.as_str());
    append_text(buf, b.qualification.as_str());
    append_text(buf, b.observed_handle.as_str());
    assert(buf@ =~= start + binding_bytes(*b));
}

/// The current identity of a stored plan: the rows of its plan, items,
/// slices, slice dependencies, tasks, checklist items, gates, phases and
/// phase dependencies, in that order as the store lists them, then its
/// shared bindings.
pub fn decomposition_current_identity(
    rows: &Vec<Vec<StoredValue>>,
    bindings: &Vec<crate::records::DecompositionSharedBindingRecord>,
) -> (s: String)
    ensures
        crate::text::digest_text(s@),
        s@ == spec_current_identity(rows@, bindings@),
{
    let mut buf: Vec<u8> = Vec::new();
    append_text(&mut buf, "agent-workbench/decomposition-current/v1\0");
    let ghost head = buf@;
    let mut i: usize = 0;
    while i < rows.len()
        invariant
            i <= rows@.len(),
            buf@ == head + rows_bytes(rows@.take(i as int)),
        decreases rows@.len() - i,
    {
        let row = &rows[i];
        let ghost before = buf@;
        append_text(&mut buf, "row\0");
        let mut j: usize = 0;
        while j < row.len()
            invariant
                j <= row@.len(),
                buf@ == before + row_bytes(row@.take(j as int)),
            decreases row@.len() - j,
        {
            append_value(&mut buf, &row[j]);
            assert(row@.take(j as int + 1).drop_last() =~= row@.take(j as int));
            j += 1;
        }
        assert(row@.take(row@.len() as int) =~= row@);
        assert(rows@.take(i as int + 1).drop_last() =~= rows@.take(i as int));
        i += 1;
    }
    assert(rows@.take(rows@.len() as int) =~= rows@);
    let ghost middle = buf@;
    let mut k: usize = 0;
    while k < bindings.len()
        invariant
            k <= bindings@.len(),
            buf@ == middle + bindings_bytes(bindings@.take(k as int)),
        decreases bindings@.len() - k,
    {
        append_binding(&mut buf, &bindings[k]);
        assert(bindings@.take(k as int + 1).drop_last() =~= bindings@.take(k as int));
        k += 1;
    }
    assert(bindings@.take(bindings@.len() as int) =~= bindings@);
    assert(buf@ =~= encode_utf8(current_domain()) + rows_bytes(rows@) + bindings_bytes(bindings@));
    identity(&buf)
}

} // verus!
