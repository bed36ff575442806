//! The GGUF encoding of a header and metadata pairs, written independently
//! of the reader, and the laws of reading encoded prefixes: what was encoded
//! is read back, a huge string array, an oversized string or a truncated
//! value ends the walk cleanly, and a bad header or an unknown value type is
//! refused.
//!
//! Type tags, the magic bytes and the size limits are written here as the
//! GGUF format defines them (as literals), so that the laws pin the reader
//! to the format rather than to itself.
use vstd::prelude::*;
use crate::gguf::{
    elements_at, entries_at, fits, gguf_prefix, string_at, tagged_value_at, u16_at, u32_at,
    u64_at, value_at, EntryModel, GgufError, MetaValueModel, PrefixModel,
};
use crate::text::lossy_utf8;

verus! {

// ------------------------------------------------------------------
// Little-endian integers
// ------------------------------------------------------------------
/// Two little-endian bytes of `x`.
pub open spec fn le2(x: int) -> Seq<u8> {
    seq![(x % 256) as u8, ((x / 256) % 256) as u8]
}

/// Four little-endian bytes of `x`.
pub open spec fn le4(x: int) -> Seq<u8> {
    le2(x % 0x10000) + le2(x / 0x10000)
}

/// Eight little-endian bytes of `x`.
pub open spec fn le8(x: int) -> Seq<u8> {
    le4(x % 0x1_0000_0000) + le4(x / 0x1_0000_0000)
}

/// `e` stands in `b` from position `p` on.
pub open spec fn embedded(b: Seq<u8>, p: int, e: Seq<u8>) -> bool {
    0 <= p && p + e.len() <= b.len() && b.subrange(p, p + e.len()) == e
}

proof fn lemma_embedded_split(b: Seq<u8>, p: int, e1: Seq<u8>, e2: Seq<u8>)
    requires
        embedded(b, p, e1 + e2),
    ensures
        embedded(b, p, e1),
        embedded(b, p + e1.len(), e2),
{
    let whole = b.subrange(p, p + e1.len() + e2.len());
    assert(b.subrange(p, p + e1.len()) =~= whole.subrange(0, e1.len() as int));
    assert((e1 + e2).subrange(0, e1.len() as int) =~= e1);
    assert(b.subrange(p + e1.len(), p + e1.len() + e2.len()) =~= whole.subrange(
        e1.len() as int,
        (e1.len() + e2.len()) as int,
    ));
    assert((e1 + e2).subrange(e1.len() as int, (e1.len() + e2.len()) as int) =~= e2);
}

proof fn lemma_embedded_at(b: Seq<u8>, p: int, e: Seq<u8>, i: int)
    requires
        embedded(b, p, e),
        0 <= i < e.len(),
    ensures
        b[p + i] == e[i],
{
    assert(b.subrange(p, p + e.len())[i] == b[p + i]);
}

proof fn lemma_u16(b: Seq<u8>, p: int, x: int)
    requires
        0 <= x < 0x10000,
        embedded(b, p, le2(x)),
    ensures
        u16_at(b, p) == x,
{
    lemma_embedded_at(b, p, le2(x), 0);
    lemma_embedded_at(b, p, le2(x), 1);
}

proof fn lemma_u32(b: Seq<u8>, p: int, x: int)
    requires
        0 <= x < 0x1_0000_0000,
        embedded(b, p, le4(x)),
    ensures
        u32_at(b, p) == x,
{
    lemma_embedded_split(b, p, le2(x % 0x10000), le2(x / 0x10000));
    lemma_u16(b, p, x % 0x10000);
    lemma_u16(b, p + 2, x / 0x10000);
}

proof fn lemma_u64(b: Seq<u8>, p: int, x: int)
    requires
        0 <= x < 0x1_0000_0000_0000_0000,
        embedded(b, p, le8(x)),
    ensures
        u64_at(b, p) == x,
{
    lemma_embedded_split(b, p, le4(x % 0x1_0000_0000), le4(x / 0x1_0000_0000));
    lemma_u32(b, p, x % 0x1_0000_0000);
    lemma_u32(b, p + 4, x / 0x1_0000_0000);
}

// ------------------------------------------------------------------
// Values, pairs and files
// ------------------------------------------------------------------
/// A metadata value as a GGUF writer holds it.
pub enum GgufValue {
    U8(u8),
    I8(i8),
    U16(u16),
    I16(i16),
    U32(u32),
    I32(i32),
    F32Bits(u32),
    Bool(bool),
    /// A string, as its bytes.
    Str(Seq<u8>),
    /// An array of strings.
    StrArray(Seq<Seq<u8>>),
    /// An array of `u32` values.
    U32Array(Seq<u32>),
    U64(u64),
    I64(i64),
    F64Bits(u64),
}

/// The GGUF type tag of a value.
pub open spec fn value_tag(v: GgufValue) -> u32 {
    match v {
        GgufValue::U8(_) => 0,
        GgufValue::I8(_) => 1,
        GgufValue::U16(_) => 2,
        GgufValue::I16(_) => 3,
        GgufValue::U32(_) => 4,
        GgufValue::I32(_) => 5,
        GgufValue::F32Bits(_) => 6,
        GgufValue::Bool(_) => 7,
        GgufValue::Str(_) => 8,
        GgufValue::StrArray(_) => 9,
        GgufValue::U32Array(_) => 9,
        GgufValue::U64(_) => 10,
        GgufValue::I64(_) => 11,
        GgufValue::F64Bits(_) => 12,
    }
}

/// The unsigned number whose two's-complement reading is `x`.
pub open spec fn unsigned_of(x: int, range: int) -> int {
    if x < 0 {
        x + range
    } else {
        x
    }
}

/// A string: its length as eight bytes, then its bytes.
pub open spec fn string_bytes(s: Seq<u8>) -> Seq<u8> {
    le8(s.len() as int) + s
}

pub open spec fn strings_bytes(ss: Seq<Seq<u8>>) -> Seq<u8>
    decreases ss.len(),
{
    if ss.len() == 0 {
        Seq::<u8>::empty()
    } else {
        string_bytes(ss[0]) + strings_bytes(ss.drop_first())
    }
}

pub open spec fn u32s_bytes(xs: Seq<u32>) -> Seq<u8>
    decreases xs.len(),
{
    if xs.len() == 0 {
        Seq::<u8>::empty()
    } else {
        le4(xs[0] as int) + u32s_bytes(xs.drop_first())
    }
}

/// The bytes of a value after its type tag.
pub open spec fn value_bytes(v: GgufValue) -> Seq<u8> {
    match v {
        GgufValue::U8(x) => seq![x],
        GgufValue::I8(x) => seq![unsigned_of(x as int, 0x100) as u8],
        GgufValue::U16(x) => le2(x as int),
        GgufValue::I16(x) => le2(unsigned_of(x as int, 0x10000)),
        GgufValue::U32(x) => le4(x as int),
        GgufValue::I32(x) => le4(unsigned_of(x as int, 0x1_0000_0000)),
        GgufValue::F32Bits(x) => le4(x as int),
        GgufValue::Bool(x) => seq![if x { 1u8 } else { 0u8 }],
        GgufValue::Str(s) => string_bytes(s),
        GgufValue::StrArray(ss) => le4(8) + le8(ss.len() as int) + strings_bytes(ss),
        GgufValue::U32Array(xs) => le4(4) + le8(xs.len() as int) + u32s_bytes(xs),
        GgufValue::U64(x) => le8(x as int),
        GgufValue::I64(x) => le8(unsigned_of(x as int, 0x1_0000_0000_0000_0000)),
        GgufValue::F64Bits(x) => le8(x as int),
    }
}

/// What a reader keeps of a value: integers widened to 64 bits, strings
/// decoded, arrays not kept.
pub open spec fn value_meaning(v: GgufValue) -> MetaValueModel {
    match v {
        GgufValue::U8(x) => MetaValueModel::U64(x as u64),
        GgufValue::I8(x) => MetaValueModel::I64(x as i64),
        GgufValue::U16(x) => MetaValueModel::U64(x as u64),
        GgufValue::I16(x) => MetaValueModel::I64(x as i64),
        GgufValue::U32(x) => MetaValueModel::U64(x as u64),
        GgufValue::I32(x) => MetaValueModel::I64(x as i64),
        GgufValue::F32Bits(x) => MetaValueModel::Float32Bits(x),
        GgufValue::Bool(x) => MetaValueModel::Bool(x),
        GgufValue::Str(s) => MetaValueModel::Text(lossy_utf8(s)),
        GgufValue::StrArray(_) => MetaValueModel::Other,
        GgufValue::U32Array(_) => MetaValueModel::Other,
        GgufValue::U64(x) => MetaValueModel::U64(x),
        GgufValue::I64(x) => MetaValueModel::I64(x),
        GgufValue::F64Bits(x) => MetaValueModel::Float64Bits(x),
    }
}

/// Strings of at most a million bytes, string arrays of at most 256 such
/// strings, and `u32` arrays of any length a `u64` counts.
pub open spec fn value_readable(v: GgufValue) -> bool {
    match v {
        GgufValue::Str(s) => s.len() <= 1_000_000,
        GgufValue::StrArray(ss) => ss.len() <= 256 && forall|i: int|
            0 <= i < ss.len() ==> #[trigger] ss[i].len() <= 1_000_000,
        GgufValue::U32Array(xs) => xs.len() <= u64::MAX,
        _ => true,
    }
}

/// A metadata pair as a writer holds it.
pub struct GgufPair {
    pub key: Seq<u8>,
    pub value: GgufValue,
}

pub open spec fn pair_bytes(pr: GgufPair) -> Seq<u8> {
    string_bytes(pr.key) + le4(value_tag(pr.value) as int) + value_bytes(pr.value)
}

pub open spec fn pairs_bytes(prs: Seq<GgufPair>) -> Seq<u8>
    decreases prs.len(),
{
    if prs.len() == 0 {
        Seq::<u8>::empty()
    } else {
        pair_bytes(prs[0]) + pairs_bytes(prs.drop_first())
    }
}

pub open spec fn pair_meaning(pr: GgufPair) -> EntryModel {
    (lossy_utf8(pr.key), value_meaning(pr.value))
}

pub open spec fn pair_readable(pr: GgufPair) -> bool {
    pr.key.len() <= 1_000_000 && value_readable(pr.value)
}

/// A GGUF header: `"GGUF"`, the version, the tensor count and the number of
/// metadata pairs announced.
pub open spec fn header_bytes(version: u32, tensors: u64, count: u64) -> Seq<u8> {
    seq![0x47u8, 0x47u8, 0x55u8, 0x46u8] + le4(version as int) + le8(tensors as int) + le8(
        count as int,
    )
}

/// A GGUF file's start: the header announcing the pairs, then the pairs.
pub open spec fn gguf_bytes(version: u32, tensors: u64, prs: Seq<GgufPair>) -> Seq<u8> {
    header_bytes(version, tensors, prs.len() as u64) + pairs_bytes(prs)
}

// ------------------------------------------------------------------
// Reading back
// ------------------------------------------------------------------
proof fn lemma_read_string(b: Seq<u8>, p: int, s: Seq<u8>)
    requires
        s.len() <= 1_000_000,
        embedded(b, p, string_bytes(s)),
    ensures
        string_at(b, p) == Ok::<(int, Seq<char>), GgufError>((p + 8 + s.len(), lossy_utf8(s))),
{
    lemma_embedded_split(b, p, le8(s.len() as int), s);
    lemma_u64(b, p, s.len() as int);
}

proof fn lemma_read_strings(b: Seq<u8>, p: int, ss: Seq<Seq<u8>>)
    requires
        forall|i: int| 0 <= i < ss.len() ==> #[trigger] ss[i].len() <= 1_000_000,
        embedded(b, p, strings_bytes(ss)),
    ensures
        elements_at(b, p, 8, ss.len()) == Ok::<int, GgufError>(p + strings_bytes(ss).len()),
    decreases ss.len(),
{
    if ss.len() > 0 {
        let rest = ss.drop_first();
        lemma_embedded_split(b, p, string_bytes(ss[0]), strings_bytes(rest));
        lemma_read_string(b, p, ss[0]);
        assert forall|i: int| 0 <= i < rest.len() implies #[trigger] rest[i].len() <= 1_000_000 by {
            assert(rest[i] == ss[i + 1]);
        }
        lemma_read_strings(b, p + string_bytes(ss[0]).len(), rest);
        assert(value_at(b, p, 8) == Ok::<(int, MetaValueModel), GgufError>(
            (p + string_bytes(ss[0]).len(), MetaValueModel::Text(lossy_utf8(ss[0]))),
        ));
    }
}

proof fn lemma_read_u32s(b: Seq<u8>, p: int, xs: Seq<u32>)
    requires
        embedded(b, p, u32s_bytes(xs)),
    ensures
        elements_at(b, p, 4, xs.len()) == Ok::<int, GgufError>(p + u32s_bytes(xs).len()),
    decreases xs.len(),
{
    if xs.len() > 0 {
        let rest = xs.drop_first();
        lemma_embedded_split(b, p, le4(xs[0] as int), u32s_bytes(rest));
        lemma_u32(b, p, xs[0] as int);
        assert(value_at(b, p, 4) == Ok::<(int, MetaValueModel), GgufError>(
            (p + 4, MetaValueModel::U64(xs[0] as u64)),
        ));
        lemma_read_u32s(b, p + 4, rest);
        assert((xs.len() - 1) as nat == rest.len());
    }
}

proof fn lemma_read_value(b: Seq<u8>, p: int, v: GgufValue)
    requires
        value_readable(v),
        embedded(b, p, value_bytes(v)),
    ensures
        value_at(b, p, value_tag(v)) == Ok::<(int, MetaValueModel), GgufError>(
            (p + value_bytes(v).len(), value_meaning(v)),
        ),
{
    match v {
        GgufValue::U8(x) => {
            lemma_embedded_at(b, p, value_bytes(v), 0);
        },
        GgufValue::I8(x) => {
            lemma_embedded_at(b, p, value_bytes(v), 0);
        },
        GgufValue::U16(x) => {
            lemma_u16(b, p, x as int);
        },
        GgufValue::I16(x) => {
            lemma_u16(b, p, unsigned_of(x as int, 0x10000));
        },
        GgufValue::U32(x) => {
            lemma_u32(b, p, x as int);
        },
        GgufValue::I32(x) => {
            lemma_u32(b, p, unsigned_of(x as int, 0x1_0000_0000));
        },
        GgufValue::F32Bits(x) => {
            lemma_u32(b, p, x as int);
        },
        GgufValue::Bool(x) => {
            lemma_embedded_at(b, p, value_bytes(v), 0);
        },
        GgufValue::Str(s) => {
            lemma_read_string(b, p, s);
        },
        GgufValue::StrArray(ss) => {
            let head = le4(8) + le8(ss.len() as int);
            lemma_embedded_split(b, p, head, strings_bytes(ss));
            lemma_embedded_split(b, p, le4(8), le8(ss.len() as int));
            lemma_u32(b, p, 8);
            lemma_u64(b, p + 4, ss.len() as int);
            lemma_read_strings(b, p + 12, ss);
        },
        GgufValue::U32Array(xs) => {
            let head = le4(4) + le8(xs.len() as int);
            lemma_embedded_split(b, p, head, u32s_bytes(xs));
            lemma_embedded_split(b, p, le4(4), le8(xs.len() as int));
            lemma_u32(b, p, 4);
            lemma_u64(b, p + 4, xs.len() as int);
            lemma_read_u32s(b, p + 12, xs);
        },
        GgufValue::U64(x) => {
            lemma_u64(b, p, x as int);
        },
        GgufValue::I64(x) => {
            lemma_u64(b, p, unsigned_of(x as int, 0x1_0000_0000_0000_0000));
        },
        GgufValue::F64Bits(x) => {
            lemma_u64(b, p, x as int);
        },
    }
}

proof fn lemma_read_pair(b: Seq<u8>, p: int, pr: GgufPair)
    requires
        pair_readable(pr),
        embedded(b, p, pair_bytes(pr)),
    ensures
        string_at(b, p) == Ok::<(int, Seq<char>), GgufError>(
            (p + 8 + pr.key.len(), lossy_utf8(pr.key)),
        ),
        tagged_value_at(b, p + 8 + pr.key.len()) == Ok::<(int, MetaValueModel), GgufError>(
            (p + pair_bytes(pr).len(), value_meaning(pr.value)),
        ),
{
    let key_part = string_bytes(pr.key);
    let tag_part = le4(value_tag(pr.value) as int);
    lemma_embedded_split(b, p, key_part + tag_part, value_bytes(pr.value));
    lemma_embedded_split(b, p, key_part, tag_part);
    lemma_read_string(b, p, pr.key);
    let q = p + key_part.len();
    lemma_u32(b, q, value_tag(pr.value) as int);
    lemma_read_value(b, q + 4, pr.value);
}

/// The pairs read before whatever the walk finds after them.
spec fn read_before(
    front: Seq<EntryModel>,
    r: Result<(Seq<EntryModel>, bool), GgufError>,
) -> Result<(Seq<EntryModel>, bool), GgufError> {
    match r {
        Ok((es, stopped)) => Ok((front + es, stopped)),
        Err(e) => Err(e),
    }
}

#[verifier::spinoff_prover]
#[verifier::rlimit(40)]
proof fn lemma_read_pairs(b: Seq<u8>, p: int, prs: Seq<GgufPair>, more: nat)
    requires
        forall|i: int| 0 <= i < prs.len() ==> #[trigger] pair_readable(prs[i]),
        embedded(b, p, pairs_bytes(prs)),
    ensures
        entries_at(b, p, prs.len() + more) == read_before(
            prs.map_values(|pr: GgufPair| pair_meaning(pr)),
            entries_at(b, p + pairs_bytes(prs).len(), more),
        ),
    decreases prs.len(),
{
    if prs.len() == 0 {
        assert(prs.map_values(|pr: GgufPair| pair_meaning(pr)) =~= Seq::<EntryModel>::empty());
        match entries_at(b, p, more) {
            Ok((es, stopped)) => {
                assert(Seq::<EntryModel>::empty() + es =~= es);
            },
            Err(_) => {},
        }
    } else {
        let pr = prs[0];
        let rest = prs.drop_first();
        assert(pair_readable(prs[0]));
        lemma_embedded_split(b, p, pair_bytes(pr), pairs_bytes(rest));
        lemma_read_pair(b, p, pr);
        let r = p + pair_bytes(pr).len();
        assert forall|i: int| 0 <= i < rest.len() implies #[trigger] pair_readable(rest[i]) by {
            assert(rest[i] == prs[i + 1]);
        }
        lemma_read_pairs(b, r, rest, more);
        assert(prs.len() + more - 1 == rest.len() + more);
        let front = prs.map_values(|x: GgufPair| pair_meaning(x));
        let rest_front = rest.map_values(|x: GgufPair| pair_meaning(x));
        assert(seq![pair_meaning(pr)] + rest_front =~= front);
        match entries_at(b, r + pairs_bytes(rest).len(), more) {
            Ok((es, stopped)) => {
                assert(seq![pair_meaning(pr)] + (rest_front + es) =~= front + es);
            },
            Err(_) => {},
        }
    }
}

proof fn lemma_read_header(b: Seq<u8>, version: u32, tensors: u64, count: u64)
    requires
        embedded(b, 0, header_bytes(version, tensors, count)),
    ensures
        fits(b, 0, 24),
        u32_at(b, 0) == 0x4655_4747,
        u32_at(b, 4) == version,
        u64_at(b, 8) == tensors,
        u64_at(b, 16) == count,
{
    let magic = seq![0x47u8, 0x47u8, 0x55u8, 0x46u8];
    let h1 = magic + le4(version as int);
    let h2 = h1 + le8(tensors as int);
    lemma_embedded_split(b, 0, h2, le8(count as int));
    lemma_embedded_split(b, 0, h1, le8(tensors as int));
    lemma_embedded_split(b, 0, magic, le4(version as int));
    lemma_embedded_at(b, 0, magic, 0);
    lemma_embedded_at(b, 0, magic, 1);
    lemma_embedded_at(b, 0, magic, 2);
    lemma_embedded_at(b, 0, magic, 3);
    lemma_u32(b, 4, version as int);
    lemma_u64(b, 8, tensors as int);
    lemma_u64(b, 16, count as int);
}

/// Reading a well-formed GGUF start gives back exactly what was written:
/// the version, the tensor count and every pair in order, decoded, without
/// stopping early, whatever follows the pairs.
pub proof fn law_written_prefix_reads_back(
    b: Seq<u8>,
    version: u32,
    tensors: u64,
    prs: Seq<GgufPair>,
)
    requires
        2 <= version <= 3,
        prs.len() <= u64::MAX,
        forall|i: int| 0 <= i < prs.len() ==> #[trigger] pair_readable(prs[i]),
        embedded(b, 0, gguf_bytes(version, tensors, prs)),
    ensures
        gguf_prefix(b) == Ok::<PrefixModel, GgufError>(
            PrefixModel {
                version,
                tensor_count: tensors,
                metadata: prs.map_values(|pr: GgufPair| pair_meaning(pr)),
                stopped_early: false,
            },
        ),
{
    let head = header_bytes(version, tensors, prs.len() as u64);
    lemma_embedded_split(b, 0, head, pairs_bytes(prs));
    lemma_read_header(b, version, tensors, prs.len() as u64);
    lemma_read_pairs(b, 24, prs, 0);
    let front = prs.map_values(|pr: GgufPair| pair_meaning(pr));
    assert(front + Seq::<EntryModel>::empty() =~= front);
}

/// After the header and the readable pairs, a pair whose key reads but
/// whose value cannot be read ends the walk early with the pairs before it.
proof fn lemma_stops_after_pairs(
    b: Seq<u8>,
    version: u32,
    tensors: u64,
    count: u64,
    prs: Seq<GgufPair>,
    key: Seq<u8>,
)
    requires
        2 <= version <= 3,
        prs.len() < count,
        forall|i: int| 0 <= i < prs.len() ==> #[trigger] pair_readable(prs[i]),
        key.len() <= 1_000_000,
        embedded(b, 0, header_bytes(version, tensors, count) + pairs_bytes(prs) + string_bytes(key)),
        tagged_value_at(b, (24 + pairs_bytes(prs).len() + 8 + key.len()) as int) matches Err(e)
            && e.stops_metadata(),
    ensures
        gguf_prefix(b) == Ok::<PrefixModel, GgufError>(
            PrefixModel {
                version,
                tensor_count: tensors,
                metadata: prs.map_values(|pr: GgufPair| pair_meaning(pr)),
                stopped_early: true,
            },
        ),
{
    let head = header_bytes(version, tensors, count);
    lemma_embedded_split(b, 0, head + pairs_bytes(prs), string_bytes(key));
    lemma_embedded_split(b, 0, head, pairs_bytes(prs));
    lemma_read_header(b, version, tensors, count);
    let q = (24 + pairs_bytes(prs).len()) as int;
    lemma_read_string(b, q, key);
    let more = (count - prs.len()) as nat;
    lemma_read_pairs(b, 24, prs, more);
    assert(prs.len() + more == count);
    assert(entries_at(b, q, more) == Ok::<(Seq<EntryModel>, bool), GgufError>((seq![], true)));
    let front = prs.map_values(|pr: GgufPair| pair_meaning(pr));
    assert(front + Seq::<EntryModel>::empty() =~= front);
}

proof fn lemma_huge_string_array_tag(b: Seq<u8>, v: int, n: u64)
    requires
        n > 256,
        embedded(b, v, le4(9) + le4(8) + le8(n as int)),
    ensures
        tagged_value_at(b, v) == Err::<(int, MetaValueModel), GgufError>(
            GgufError::ArrayTooLarge(n),
        ),
{
    lemma_embedded_split(b, v, le4(9) + le4(8), le8(n as int));
    lemma_embedded_split(b, v, le4(9), le4(8));
    lemma_u32(b, v, 9);
    lemma_u32(b, v + 4, 8);
    lemma_u64(b, v + 8, n as int);
}

/// A string array announcing more than 256 strings ends the metadata walk:
/// reading gives the pairs before it, marked as stopped early, whatever the
/// array's contents.
pub proof fn law_huge_string_array_stops_walk(
    b: Seq<u8>,
    version: u32,
    tensors: u64,
    count: u64,
    prs: Seq<GgufPair>,
    key: Seq<u8>,
    n: u64,
)
    requires
        2 <= version <= 3,
        prs.len() < count,
        forall|i: int| 0 <= i < prs.len() ==> #[trigger] pair_readable(prs[i]),
        key.len() <= 1_000_000,
        n > 256,
        embedded(
            b,
            0,
            header_bytes(version, tensors, count) + pairs_bytes(prs) + string_bytes(key) + le4(9)
                + le4(8) + le8(n as int),
        ),
    ensures
        gguf_prefix(b) == Ok::<PrefixModel, GgufError>(
            PrefixModel {
                version,
                tensor_count: tensors,
                metadata: prs.map_values(|pr: GgufPair| pair_meaning(pr)),
                stopped_early: true,
            },
        ),
{
    let start = header_bytes(version, tensors, count) + pairs_bytes(prs) + string_bytes(key);
    let tail = le4(9) + le4(8) + le8(n as int);
    assert(start + le4(9) + le4(8) + le8(n as int) =~= start + tail);
    lemma_embedded_split(b, 0, start, tail);
    lemma_huge_string_array_tag(b, start.len() as int, n);
    lemma_stops_after_pairs(b, version, tensors, count, prs, key);
}

proof fn lemma_oversized_string_tag(b: Seq<u8>, v: int, n: u64)
    requires
        n > 1_000_000,
        embedded(b, v, le4(8) + le8(n as int)),
    ensures
        tagged_value_at(b, v) == Err::<(int, MetaValueModel), GgufError>(
            GgufError::StringTooLarge(n),
        ),
{
    lemma_embedded_split(b, v, le4(8), le8(n as int));
    lemma_u32(b, v, 8);
    lemma_u64(b, v + 4, n as int);
}

/// A string value announcing more than a million bytes ends the metadata
/// walk: reading gives the pairs before it, marked as stopped early.
pub proof fn law_oversized_string_stops_walk(
    b: Seq<u8>,
    version: u32,
    tensors: u64,
    count: u64,
    prs: Seq<GgufPair>,
    key: Seq<u8>,
    n: u64,
)
    requires
        2 <= version <= 3,
        prs.len() < count,
        forall|i: int| 0 <= i < prs.len() ==> #[trigger] pair_readable(prs[i]),
        key.len() <= 1_000_000,
        n > 1_000_000,
        embedded(
            b,
            0,
            header_bytes(version, tensors, count) + pairs_bytes(prs) + string_bytes(key) + le4(8)
                + le8(n as int),
        ),
    ensures
        gguf_prefix(b) == Ok::<PrefixModel, GgufError>(
            PrefixModel {
                version,
                tensor_count: tensors,
                metadata: prs.map_values(|pr: GgufPair| pair_meaning(pr)),
                stopped_early: true,
            },
        ),
{
    let start = header_bytes(version, tensors, count) + pairs_bytes(prs) + string_bytes(key);
    let tail = le4(8) + le8(n as int);
    assert(start + le4(8) + le8(n as int) =~= start + tail);
    lemma_embedded_split(b, 0, start, tail);
    lemma_oversized_string_tag(b, start.len() as int, n);
    lemma_stops_after_pairs(b, version, tensors, count, prs, key);
}

/// The width in bytes of a fixed-width GGUF value type: 1 for u8, i8 and
/// bool, 2 for u16 and i16, 4 for u32, i32 and f32, 8 for u64, i64 and f64.
pub open spec fn fixed_width(tag: u32) -> int {
    if tag == 0 || tag == 1 || tag == 7 {
        1
    } else if tag == 2 || tag == 3 {
        2
    } else if tag == 4 || tag == 5 || tag == 6 {
        4
    } else if tag == 10 || tag == 11 || tag == 12 {
        8
    } else {
        0
    }
}

proof fn lemma_fixed_value_cut(b: Seq<u8>, p: int, tag: u32)
    requires
        fixed_width(tag) > 0,
        0 <= p <= b.len() < p + fixed_width(tag),
    ensures
        value_at(b, p, tag) == Err::<(int, MetaValueModel), GgufError>(GgufError::UnexpectedEnd),
{
}

proof fn lemma_cut_after_tag(b: Seq<u8>, v: int, tag: u32, partial: Seq<u8>)
    requires
        fixed_width(tag) > 0,
        partial.len() < fixed_width(tag),
        embedded(b, v, le4(tag as int) + partial),
        b.len() == v + 4 + partial.len(),
    ensures
        tagged_value_at(b, v) == Err::<(int, MetaValueModel), GgufError>(GgufError::UnexpectedEnd),
{
    lemma_embedded_split(b, v, le4(tag as int), partial);
    lemma_u32(b, v, tag as int);
    lemma_fixed_value_cut(b, v + 4, tag);
}

/// A prefix that ends inside a fixed-width value (the header, the pairs
/// read so far, a key, a type tag and fewer bytes than the type's width, and
/// nothing after them) ends the metadata walk cleanly: reading gives the pairs before it, marked as stopped early.
pub proof fn law_truncated_value_stops_walk(
    b: Seq<u8>,
    version: u32,
    tensors: u64,
    count: u64,
    prs: Seq<GgufPair>,
    key: Seq<u8>,
    tag: u32,
    partial: Seq<u8>,
)
    requires
        2 <= version <= 3,
        prs.len() < count,
        forall|i: int| 0 <= i < prs.len() ==> #[trigger] pair_readable(prs[i]),
        key.len() <= 1_000_000,
        fixed_width(tag) > 0,
        partial.len() < fixed_width(tag),
        embedded(
            b,
            0,
            header_bytes(version, tensors, count) + pairs_bytes(prs) + string_bytes(key) + (le4(
                tag as int,
            ) + partial),
        ),
        b.len() == header_bytes(version, tensors, count).len() + pairs_bytes(prs).len()
            + string_bytes(key).len() + 4 + partial.len(),
    ensures
        gguf_prefix(b) == Ok::<PrefixModel, GgufError>(
            PrefixModel {
                version,
                tensor_count: tensors,
                metadata: prs.map_values(|pr: GgufPair| pair_meaning(pr)),
                stopped_early: true,
            },
        ),
{
    let start = header_bytes(version, tensors, count) + pairs_bytes(prs) + string_bytes(key);
    let tail = le4(tag as int) + partial;
    lemma_embedded_split(b, 0, start, tail);
    lemma_cut_after_tag(b, start.len() as int, tag, partial);
    lemma_stops_after_pairs(b, version, tensors, count, prs, key);
}

/// A prefix of at least four bytes that does not start with the bytes of
/// `"GGUF"` is refused as not GGUF; a well-formed header of a version other
/// than 2 or 3 is refused naming that version.
pub proof fn law_header_refusals(b: Seq<u8>, version: u32, tensors: u64, count: u64)
    ensures
        b.len() >= 4 && b.subrange(0, 4) != seq![0x47u8, 0x47u8, 0x55u8, 0x46u8] ==> gguf_prefix(b)
            == Err::<PrefixModel, GgufError>(GgufError::BadMagic),
        embedded(b, 0, header_bytes(version, tensors, count)) && !(2 <= version <= 3) ==> gguf_prefix(b)
            == Err::<PrefixModel, GgufError>(GgufError::UnsupportedVersion(version)),
{
    if b.len() >= 4 && u32_at(b, 0) == 0x4655_4747 {
        let (b0, b1, b2, b3) = (b[0], b[1], b[2], b[3]);
        assert(b0 + 256 * b1 + 65536 * (b2 + 256 * b3) == 0x4655_4747 ==> b0 == 0x47 && b1 == 0x47
            && b2 == 0x55 && b3 == 0x46) by (nonlinear_arith);
        assert(b.subrange(0, 4) =~= seq![0x47u8, 0x47u8, 0x55u8, 0x46u8]);
    }
    if embedded(b, 0, header_bytes(version, tensors, count)) {
        lemma_read_header(b, version, tensors, count);
    }
}

/// After the header and the readable pairs, a pair whose key reads but
/// whose value fails in a way that does not end the walk makes the whole
/// read fail with that error.
proof fn lemma_fails_after_pairs(
    b: Seq<u8>,
    version: u32,
    tensors: u64,
    count: u64,
    prs: Seq<GgufPair>,
    key: Seq<u8>,
    e: GgufError,
)
    requires
        2 <= version <= 3,
        prs.len() < count,
        forall|i: int| 0 <= i < prs.len() ==> #[trigger] pair_readable(prs[i]),
        key.len() <= 1_000_000,
        embedded(b, 0, header_bytes(version, tensors, count) + pairs_bytes(prs) + string_bytes(key)),
        tagged_value_at(b, (24 + pairs_bytes(prs).len() + 8 + key.len()) as int) == Err::<
            (int, MetaValueModel),
            GgufError,
        >(e),
        !e.stops_metadata(),
    ensures
        gguf_prefix(b) == Err::<PrefixModel, GgufError>(e),
{
    let head = header_bytes(version, tensors, count);
    lemma_embedded_split(b, 0, head + pairs_bytes(prs), string_bytes(key));
    lemma_embedded_split(b, 0, head, pairs_bytes(prs));
    lemma_read_header(b, version, tensors, count);
    let q = (24 + pairs_bytes(prs).len()) as int;
    lemma_read_string(b, q, key);
    let more = (count - prs.len()) as nat;
    lemma_read_pairs(b, 24, prs, more);
    assert(prs.len() + more == count);
    assert(entries_at(b, q, more) == Err::<(Seq<EntryModel>, bool), GgufError>(e));
}

proof fn lemma_unknown_tag(b: Seq<u8>, v: int, tag: u32)
    requires
        tag > 12,
        embedded(b, v, le4(tag as int)),
    ensures
        tagged_value_at(b, v) == Err::<(int, MetaValueModel), GgufError>(
            GgufError::UnknownValueType(tag),
        ),
{
    lemma_u32(b, v, tag as int);
}

/// A value type tag outside 0..=12, after the header, readable pairs and a
/// key, makes the whole read fail naming that tag.
pub proof fn law_unknown_value_type_fails(
    b: Seq<u8>,
    version: u32,
    tensors: u64,
    count: u64,
    prs: Seq<GgufPair>,
    key: Seq<u8>,
    tag: u32,
)
    requires
        2 <= version <= 3,
        prs.len() < count,
        forall|i: int| 0 <= i < prs.len() ==> #[trigger] pair_readable(prs[i]),
        key.len() <= 1_000_000,
        tag > 12,
        embedded(
            b,
            0,
            header_bytes(version, tensors, count) + pairs_bytes(prs) + string_bytes(key) + le4(
                tag as int,
            ),
        ),
    ensures
        gguf_prefix(b) == Err::<PrefixModel, GgufError>(GgufError::UnknownValueType(tag)),
{
    let start = header_bytes(version, tensors, count) + pairs_bytes(prs) + string_bytes(key);
    lemma_embedded_split(b, 0, start, le4(tag as int));
    lemma_unknown_tag(b, start.len() as int, tag);
    lemma_fails_after_pairs(
        b,
        version,
        tensors,
        count,
        prs,
        key,
        GgufError::UnknownValueType(tag),
    );
}

} // verus!
