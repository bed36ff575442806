//! GGUF header and metadata key/value parser.
//!
//! Only a prefix of a GGUF file is needed: the header and the metadata
//! key/value pairs.  The format is little-endian:
//! `magic:u32 version:u32 tensor_count:u64 kv_count:u64` followed by
//! `kv_count` pairs of `key:string type:u32 value`, where a string is
//! `len:u64` followed by `len` bytes.  When a value runs past the end of the
//! prefix, or is a string or string array too large to decode, reading stops
//! and the pairs collected so far are kept.
use vstd::prelude::*;
use vstd::slice::slice_subrange;
use vstd::string::*;
use crate::text::{chars_of, decimal, decimal_string, has_suffix, has_suffix_exec, lossy_text, lossy_utf8};
use crate::vram::{
    at_least_one, first_some, or_default, transformer_param_total, ArchHints, TransformerShape,
};

verus! {

/// "GGUF" read as a little-endian `u32`.
pub const GGUF_MAGIC: u32 = 0x4655_4747;

pub const META_UINT8: u32 = 0;

pub const META_INT8: u32 = 1;

pub const META_UINT16: u32 = 2;

pub const META_INT16: u32 = 3;

pub const META_UINT32: u32 = 4;

pub const META_INT32: u32 = 5;

pub const META_FLOAT32: u32 = 6;

pub const META_BOOL: u32 = 7;

pub const META_STRING: u32 = 8;

pub const META_ARRAY: u32 = 9;

pub const META_UINT64: u32 = 10;

pub const META_INT64: u32 = 11;

pub const META_FLOAT64: u32 = 12;

/// Longest string the parser decodes.
pub const MAX_STRING_LEN: u64 = 1_000_000;

/// Longest string array the parser walks through.
pub const MAX_STRING_ARRAY_LEN: u64 = 256;

/// Why a GGUF prefix could not be read.
#[derive(Debug, Clone, Copy, PartialEq, Eq)]
pub enum GgufError {
    /// The first four bytes are not "GGUF".
    BadMagic,
    /// Only versions 2 and 3 are read.
    UnsupportedVersion(u32),
    /// The prefix ends inside a field.
    UnexpectedEnd,
    /// A string declares more than `MAX_STRING_LEN` bytes.
    StringTooLarge(u64),
    /// A string array declares more than `MAX_STRING_ARRAY_LEN` elements.
    ArrayTooLarge(u64),
    /// A value type tag outside 0..=12.
    UnknownValueType(u32),
}

impl GgufError {
    /// Errors in a value that end the metadata walk instead of failing it.
    pub open spec fn stops_metadata(self) -> bool {
        ||| self == GgufError::UnexpectedEnd
        ||| self is StringTooLarge
        ||| self is ArrayTooLarge
    }

    pub fn stops_metadata_exec(&self) -> (r: bool)
        ensures
            r == self.stops_metadata(),
    {
        match self {
            GgufError::UnexpectedEnd => true,
            GgufError::StringTooLarge(_) => true,
            GgufError::ArrayTooLarge(_) => true,
            _ => false,
        }
    }
}

/// A metadata value.  Floating-point values are kept as their IEEE-754 bits;
/// arrays are walked through but not kept.
#[derive(Debug, Clone)]
pub enum MetaValue {
    U64(u64),
    I64(i64),
    Float32Bits(u32),
    Float64Bits(u64),
    Bool(bool),
    String(String),
    Other,
}

/// The mathematical content of a `MetaValue`.
pub enum MetaValueModel {
    U64(u64),
    I64(i64),
    Float32Bits(u32),
    Float64Bits(u64),
    Bool(bool),
    Text(Seq<char>),
    Other,
}

impl View for MetaValue {
    type V = MetaValueModel;

    open spec fn view(&self) -> MetaValueModel {
        match self {
            MetaValue::U64(v) => MetaValueModel::U64(*v),
            MetaValue::I64(v) => MetaValueModel::I64(*v),
            MetaValue::Float32Bits(v) => MetaValueModel::Float32Bits(*v),
            MetaValue::Float64Bits(v) => MetaValueModel::Float64Bits(*v),
            MetaValue::Bool(v) => MetaValueModel::Bool(*v),
            MetaValue::String(s) => MetaValueModel::Text(s@),
            MetaValue::Other => MetaValueModel::Other,
        }
    }
}

/// One metadata key/value pair.
#[derive(Debug, Clone)]
pub struct MetaEntry {
    pub key: String,
    pub value: MetaValue,
}

pub type EntryModel = (Seq<char>, MetaValueModel);

pub open spec fn entry_model(e: MetaEntry) -> EntryModel {
    (e.key@, e.value@)
}

/// Header fields and metadata pairs of a GGUF prefix.  `metadata` holds the
/// pairs in file order; when a key repeats, the last pair wins.
#[derive(Debug, Clone)]
pub struct GgufInfo {
    pub version: u32,
    pub tensor_count: u64,
    pub metadata: Vec<MetaEntry>,
}

pub struct GgufInfoModel {
    pub version: u32,
    pub tensor_count: u64,
    pub metadata: Seq<EntryModel>,
}

impl View for GgufInfo {
    type V = GgufInfoModel;

    open spec fn view(&self) -> GgufInfoModel {
        GgufInfoModel {
            version: self.version,
            tensor_count: self.tensor_count,
            metadata: self.metadata@.map_values(|e: MetaEntry| entry_model(e)),
        }
    }
}

// ------------------------------------------------------------------
// The format, as functions on byte sequences
// ------------------------------------------------------------------
pub open spec fn fits(b: Seq<u8>, p: int, n: int) -> bool {
    0 <= p && 0 <= n && p + n <= b.len()
}

pub open spec fn u16_at(b: Seq<u8>, p: int) -> int {
    b[p] + 256 * b[p + 1]
}

pub open spec fn u32_at(b: Seq<u8>, p: int) -> int {
    u16_at(b, p) + 65536 * u16_at(b, p + 2)
}

pub open spec fn u64_at(b: Seq<u8>, p: int) -> int {
    u32_at(b, p) + 4294967296 * u32_at(b, p + 4)
}

/// Two's-complement reading of an unsigned value of `2^bits` range.
pub open spec fn twos_complement(x: int, range: int) -> int {
    if x >= range / 2 {
        x - range
    } else {
        x
    }
}

/// A string at `p`: its end and its text.
pub open spec fn string_at(b: Seq<u8>, p: int) -> Result<(int, Seq<char>), GgufError> {
    if !fits(b, p, 8) {
        Err(GgufError::UnexpectedEnd)
    } else if u64_at(b, p) > MAX_STRING_LEN {
        Err(GgufError::StringTooLarge(u64_at(b, p) as u64))
    } else if !fits(b, p + 8, u64_at(b, p)) {
        Err(GgufError::UnexpectedEnd)
    } else {
        Ok((p + 8 + u64_at(b, p), lossy_utf8(b.subrange(p + 8, p + 8 + u64_at(b, p)))))
    }
}

/// A fixed-width value of `n` bytes at `p`, or the end of the prefix.
pub open spec fn fixed_at(b: Seq<u8>, p: int, n: int, v: MetaValueModel) -> Result<
    (int, MetaValueModel),
    GgufError,
> {
    if fits(b, p, n) {
        Ok((p + n, v))
    } else {
        Err(GgufError::UnexpectedEnd)
    }
}

/// A value of type `ty` at `p`: its end and its content.
pub open spec fn value_at(b: Seq<u8>, p: int, ty: u32) -> Result<(int, MetaValueModel), GgufError>
    decreases b.len() - p, 0int, 0int,
{
    if ty == META_UINT8 {
        fixed_at(b, p, 1, MetaValueModel::U64(b[p] as u64))
    } else if ty == META_INT8 {
        fixed_at(b, p, 1, MetaValueModel::I64(twos_complement(b[p] as int, 0x100) as i64))
    } else if ty == META_UINT16 {
        fixed_at(b, p, 2, MetaValueModel::U64(u16_at(b, p) as u64))
    } else if ty == META_INT16 {
        fixed_at(b, p, 2, MetaValueModel::I64(twos_complement(u16_at(b, p), 0x10000) as i64))
    } else if ty == META_UINT32 {
        fixed_at(b, p, 4, MetaValueModel::U64(u32_at(b, p) as u64))
    } else if ty == META_INT32 {
        fixed_at(
            b,
            p,
            4,
            MetaValueModel::I64(twos_complement(u32_at(b, p), 0x1_0000_0000) as i64),
        )
    } else if ty == META_FLOAT32 {
        fixed_at(b, p, 4, MetaValueModel::Float32Bits(u32_at(b, p) as u32))
    } else if ty == META_BOOL {
        fixed_at(b, p, 1, MetaValueModel::Bool(b[p] != 0))
    } else if ty == META_STRING {
        match string_at(b, p) {
            Ok((q, t)) => Ok((q, MetaValueModel::Text(t))),
            Err(e) => Err(e),
        }
    } else if ty == META_ARRAY {
        if !fits(b, p, 12) {
            Err(GgufError::UnexpectedEnd)
        } else if u64_at(b, p + 4) > MAX_STRING_ARRAY_LEN && u32_at(b, p) == META_STRING {
            Err(GgufError::ArrayTooLarge(u64_at(b, p + 4) as u64))
        } else {
            match elements_at(b, p + 12, u32_at(b, p) as u32, u64_at(b, p + 4) as nat) {
                Ok(q) => Ok((q, MetaValueModel::Other)),
                Err(e) => Err(e),
            }
        }
    } else if ty == META_UINT64 {
        fixed_at(b, p, 8, MetaValueModel::U64(u64_at(b, p) as u64))
    } else if ty == META_INT64 {
        fixed_at(
            b,
            p,
            8,
            MetaValueModel::I64(twos_complement(u64_at(b, p), 0x1_0000_0000_0000_0000) as i64),
        )
    } else if ty == META_FLOAT64 {
        fixed_at(b, p, 8, MetaValueModel::Float64Bits(u64_at(b, p) as u64))
    } else {
        Err(GgufError::UnknownValueType(ty))
    }
}

/// `n` array elements of type `elem` from `p`: the end of the last one.
pub open spec fn elements_at(b: Seq<u8>, p: int, elem: u32, n: nat) -> Result<int, GgufError>
    decreases b.len() - p, 1int, n,
{
    if n == 0 {
        Ok(p)
    } else {
        match value_at(b, p, elem) {
            Ok((q, _)) => if p < q <= b.len() {
                elements_at(b, q, elem, (n - 1) as nat)
            } else {
                Ok(q)
            },
            Err(e) => Err(e),
        }
    }
}

/// A type tag and the value it announces, at `p`.
pub open spec fn tagged_value_at(b: Seq<u8>, p: int) -> Result<(int, MetaValueModel), GgufError> {
    if fits(b, p, 4) {
        value_at(b, p + 4, u32_at(b, p) as u32)
    } else {
        Err(GgufError::UnexpectedEnd)
    }
}

/// Up to `remaining` key/value pairs from `p`: the pairs, and whether the
/// walk stopped at a value it could not read.
pub open spec fn entries_at(b: Seq<u8>, p: int, remaining: nat) -> Result<
    (Seq<EntryModel>, bool),
    GgufError,
>
    decreases remaining,
{
    if remaining == 0 {
        Ok((seq![], false))
    } else {
        match string_at(b, p) {
            Err(e) => Err(e),
            Ok((q, key)) => match tagged_value_at(b, q) {
                Ok((r, v)) => match entries_at(b, r, (remaining - 1) as nat) {
                    Ok((es, stopped)) => Ok((seq![(key, v)] + es, stopped)),
                    Err(e) => Err(e),
                },
                Err(e) => if e.stops_metadata() {
                    Ok((seq![], true))
                } else {
                    Err(e)
                },
            },
        }
    }
}

/// Everything read from a prefix, with whether the metadata walk stopped
/// early.
pub struct PrefixModel {
    pub version: u32,
    pub tensor_count: u64,
    pub metadata: Seq<EntryModel>,
    pub stopped_early: bool,
}

impl PrefixModel {
    pub open spec fn info(self) -> GgufInfoModel {
        GgufInfoModel {
            version: self.version,
            tensor_count: self.tensor_count,
            metadata: self.metadata,
        }
    }
}

/// The meaning of a GGUF prefix.
pub open spec fn gguf_prefix(b: Seq<u8>) -> Result<PrefixModel, GgufError> {
    if !fits(b, 0, 4) {
        Err(GgufError::UnexpectedEnd)
    } else if u32_at(b, 0) != GGUF_MAGIC {
        Err(GgufError::BadMagic)
    } else if !fits(b, 4, 4) {
        Err(GgufError::UnexpectedEnd)
    } else if !(2 <= u32_at(b, 4) <= 3) {
        Err(GgufError::UnsupportedVersion(u32_at(b, 4) as u32))
    } else if !fits(b, 8, 16) {
        Err(GgufError::UnexpectedEnd)
    } else {
        match entries_at(b, 24, u64_at(b, 16) as nat) {
            Ok((es, stopped)) => Ok(
                PrefixModel {
                    version: u32_at(b, 4) as u32,
                    tensor_count: u64_at(b, 8) as u64,
                    metadata: es,
                    stopped_early: stopped,
                },
            ),
            Err(e) => Err(e),
        }
    }
}

// ------------------------------------------------------------------
// Readers
// ------------------------------------------------------------------
/// The little-endian `u32` at `p`, and the position after it.
pub fn read_u32(b: &[u8], p: usize) -> (r: Result<(usize, u32), GgufError>)
    ensures
        match r {
            Ok((q, v)) => fits(b@, p as int, 4) && q == p + 4 && v == u32_at(b@, p as int),
            Err(e) => !fits(b@, p as int, 4) && e == GgufError::UnexpectedEnd,
        },
{
    if p > b.len() || b.len() - p < 4 {
        return Err(GgufError::UnexpectedEnd);
    }
    let v = (b[p] as u32) + 256 * (b[p + 1] as u32) + 65536 * ((b[p + 2] as u32) + 256 * (b[p
        + 3] as u32));
    Ok((p + 4, v))
}

/// The little-endian `u64` at `p`, and the position after it.
pub fn read_u64(b: &[u8], p: usize) -> (r: Result<(usize, u64), GgufError>)
    ensures
        match r {
            Ok((q, v)) => fits(b@, p as int, 8) && q == p + 8 && v == u64_at(b@, p as int),
            Err(e) => !fits(b@, p as int, 8) && e == GgufError::UnexpectedEnd,
        },
{
    if p > b.len() || b.len() - p < 8 {
        return Err(GgufError::UnexpectedEnd);
    }
    let lo = match read_u32(b, p) {
        Ok((_, v)) => v,
        Err(e) => return Err(e),
    };
    let hi = match read_u32(b, p + 4) {
        Ok((_, v)) => v,
        Err(e) => return Err(e),
    };
    Ok((p + 8, (lo as u64) + 4294967296 * (hi as u64)))
}

/// The little-endian two's-complement `i64` at `p`, and the position after it.
pub fn read_i64(b: &[u8], p: usize) -> (r: Result<(usize, i64), GgufError>)
    ensures
        match r {
            Ok((q, v)) => fits(b@, p as int, 8) && q == p + 8 && v == twos_complement(
                u64_at(b@, p as int),
                0x1_0000_0000_0000_0000,
            ),
            Err(e) => !fits(b@, p as int, 8) && e == GgufError::UnexpectedEnd,
        },
{
    match read_u64(b, p) {
        Ok((q, x)) => {
            let v: i64 = if x >= 0x8000_0000_0000_0000 {
                -((u64::MAX - x) as i64) - 1
            } else {
                x as i64
            };
            Ok((q, v))
        },
        Err(e) => Err(e),
    }
}

/// The string at `p`, decoded leniently, and the position after it.
pub fn read_string(b: &[u8], p: usize) -> (r: Result<(usize, String), GgufError>)
    ensures
        match (r, string_at(b@, p as int)) {
            (Ok((q, s)), Ok((q2, t))) => q == q2 && s@ == t,
            (Err(e), Err(e2)) => e == e2,
            _ => false,
        },
{
    let (p1, n) = match read_u64(b, p) {
        Ok(x) => x,
        Err(e) => return Err(e),
    };
    if n > MAX_STRING_LEN {
        return Err(GgufError::StringTooLarge(n));
    }
    let n = n as usize;
    if n > b.len() - p1 {
        return Err(GgufError::UnexpectedEnd);
    }
    let s = lossy_text(slice_subrange(b, p1, p1 + n));
    Ok((p1 + n, s))
}

fn fixed_u8(b: &[u8], p: usize) -> (r: Result<(usize, u8), GgufError>)
    ensures
        match r {
            Ok((q, v)) => fits(b@, p as int, 1) && q == p + 1 && v == b@[p as int],
            Err(e) => !fits(b@, p as int, 1) && e == GgufError::UnexpectedEnd,
        },
{
    if p >= b.len() {
        return Err(GgufError::UnexpectedEnd);
    }
    Ok((p + 1, b[p]))
}

fn fixed_u16(b: &[u8], p: usize) -> (r: Result<(usize, u16), GgufError>)
    ensures
        match r {
            Ok((q, v)) => fits(b@, p as int, 2) && q == p + 2 && v == u16_at(b@, p as int),
            Err(e) => !fits(b@, p as int, 2) && e == GgufError::UnexpectedEnd,
        },
{
    if p > b.len() || b.len() - p < 2 {
        return Err(GgufError::UnexpectedEnd);
    }
    Ok((p + 2, (b[p] as u16) + 256 * (b[p + 1] as u16)))
}

/// The value of type `ty` at `p`, and the position after it.
pub fn read_value_of_type(b: &[u8], p: usize, ty: u32) -> (r: Result<(usize, MetaValue), GgufError>)
    ensures
        match (r, value_at(b@, p as int, ty)) {
            (Ok((q, v)), Ok((q2, v2))) => q == q2 && v@ == v2 && p < q <= b@.len(),
            (Err(e), Err(e2)) => e == e2,
            _ => false,
        },
    decreases b@.len() - p,
{
    if ty == META_UINT8 {
        match fixed_u8(b, p) {
            Ok((q, x)) => Ok((q, MetaValue::U64(x as u64))),
            Err(e) => Err(e),
        }
    } else if ty == META_INT8 {
        match fixed_u8(b, p) {
            Ok((q, x)) => {
                let v: i64 = if x >= 128 {
                    (x as i64) - 256
                } else {
                    x as i64
                };
                Ok((q, MetaValue::I64(v)))
            },
            Err(e) => Err(e),
        }
    } else if ty == META_UINT16 {
        match fixed_u16(b, p) {
            Ok((q, x)) => Ok((q, MetaValue::U64(x as u64))),
            Err(e) => Err(e),
        }
    } else if ty == META_INT16 {
        match fixed_u16(b, p) {
            Ok((q, x)) => {
                let v: i64 = if x >= 0x8000 {
                    (x as i64) - 0x10000
                } else {
                    x as i64
                };
                Ok((q, MetaValue::I64(v)))
            },
            Err(e) => Err(e),
        }
    } else if ty == META_UINT32 {
        match read_u32(b, p) {
            Ok((q, x)) => Ok((q, MetaValue::U64(x as u64))),
            Err(e) => Err(e),
        }
    } else if ty == META_INT32 {
        match read_u32(b, p) {
            Ok((q, x)) => {
                let v: i64 = if x >= 0x8000_0000 {
                    (x as i64) - 0x1_0000_0000
                } else {
                    x as i64
                };
                Ok((q, MetaValue::I64(v)))
            },
            Err(e) => Err(e),
        }
    } else if ty == META_FLOAT32 {
        match read_u32(b, p) {
            Ok((q, x)) => Ok((q, MetaValue::Float32Bits(x))),
            Err(e) => Err(e),
        }
    } else if ty == META_BOOL {
        match fixed_u8(b, p) {
            Ok((q, x)) => Ok((q, MetaValue::Bool(x != 0))),
            Err(e) => Err(e),
        }
    } else if ty == META_STRING {
        match read_string(b, p) {
            Ok((q, s)) => Ok((q, MetaValue::String(s))),
            Err(e) => Err(e),
        }
    } else if ty == META_ARRAY {
        let (p1, elem) = match read_u32(b, p) {
            Ok(x) => x,
            Err(e) => return Err(e),
        };
        let (p2, n) = match read_u64(b, p1) {
            Ok(x) => x,
            Err(e) => return Err(e),
        };
        if n > MAX_STRING_ARRAY_LEN && elem == META_STRING {
            return Err(GgufError::ArrayTooLarge(n));
        }
        let ghost start = p2 as int;
        let mut pos = p2;
        let mut i: u64 = 0;
        while i < n
            invariant
                i <= n,
                start <= pos <= b@.len(),
                start == p + 12,
                ty == META_ARRAY,
                fits(b@, p as int, 12),
                elem == u32_at(b@, p as int),
                n == u64_at(b@, p + 4),
                !(n > MAX_STRING_ARRAY_LEN && elem == META_STRING),
                elements_at(b@, start, elem, n as nat) == elements_at(
                    b@,
                    pos as int,
                    elem,
                    (n - i) as nat,
                ),
            decreases n - i,
        {
            match read_value_of_type(b, pos, elem) {
                Ok((q, _)) => {
                    pos = q;
                },
                Err(e) => {
                    assert(elements_at(b@, pos as int, elem, (n - i) as nat) == Err::<int, GgufError>(e));
                    return Err(e);
                },
            }
            i = i + 1;
        }
        Ok((pos, MetaValue::Other))
    } else if ty == META_UINT64 {
        match read_u64(b, p) {
            Ok((q, x)) => Ok((q, MetaValue::U64(x))),
            Err(e) => Err(e),
        }
    } else if ty == META_INT64 {
        match read_i64(b, p) {
            Ok((q, x)) => Ok((q, MetaValue::I64(x))),
            Err(e) => Err(e),
        }
    } else if ty == META_FLOAT64 {
        match read_u64(b, p) {
            Ok((q, x)) => Ok((q, MetaValue::Float64Bits(x))),
            Err(e) => Err(e),
        }
    } else {
        Err(GgufError::UnknownValueType(ty))
    }
}

/// A type tag and the value it announces, at `p`.
pub fn read_value(b: &[u8], p: usize) -> (r: Result<(usize, MetaValue), GgufError>)
    ensures
        match (r, tagged_value_at(b@, p as int)) {
            (Ok((q, v)), Ok((q2, v2))) => q == q2 && v@ == v2 && p < q <= b@.len(),
            (Err(e), Err(e2)) => e == e2,
            _ => false,
        },
{
    match read_u32(b, p) {
        Ok((q, ty)) => read_value_of_type(b, q, ty),
        Err(e) => Err(e),
    }
}


/// `acc` followed by the pairs of `r`.
pub open spec fn after(acc: Seq<EntryModel>, r: Result<(Seq<EntryModel>, bool), GgufError>) -> Result<
    (Seq<EntryModel>, bool),
    GgufError,
> {
    match r {
        Ok((es, stopped)) => Ok((acc + es, stopped)),
        Err(e) => Err(e),
    }
}

pub open spec fn cons_entry(x: EntryModel, r: Result<(Seq<EntryModel>, bool), GgufError>) -> Result<
    (Seq<EntryModel>, bool),
    GgufError,
> {
    match r {
        Ok((es, stopped)) => Ok((seq![x] + es, stopped)),
        Err(e) => Err(e),
    }
}

proof fn lemma_after_cons(acc: Seq<EntryModel>, x: EntryModel, r: Result<(Seq<EntryModel>, bool), GgufError>)
    ensures
        after(acc, cons_entry(x, r)) == after(acc.push(x), r),
{
    match r {
        Ok((es, stopped)) => {
            assert(acc + (seq![x] + es) =~= acc.push(x) + es);
        },
        Err(_) => {},
    }
}

/// Reads the header and the metadata pairs of a GGUF prefix.
pub fn parse_gguf_prefix(bytes: &[u8]) -> (r: Result<GgufInfo, GgufError>)
    ensures
        match (r, gguf_prefix(bytes@)) {
            (Ok(info), Ok(m)) => info@ == m.info(),
            (Err(e), Err(e2)) => e == e2,
            _ => false,
        },
{
    let (p, magic) = match read_u32(bytes, 0) {
        Ok(x) => x,
        Err(e) => return Err(e),
    };
    if magic != GGUF_MAGIC {
        return Err(GgufError::BadMagic);
    }
    let (p, version) = match read_u32(bytes, p) {
        Ok(x) => x,
        Err(e) => return Err(e),
    };
    if version < 2 || version > 3 {
        return Err(GgufError::UnsupportedVersion(version));
    }
    let (p, tensor_count) = match read_u64(bytes, p) {
        Ok(x) => x,
        Err(e) => return Err(e),
    };
    let (p, kv_count) = match read_u64(bytes, p) {
        Ok(x) => x,
        Err(e) => return Err(e),
    };
    let ghost b = bytes@;
    let mut metadata: Vec<MetaEntry> = Vec::new();
    let mut pos = p;
    let mut i: u64 = 0;
    assert(metadata@.map_values(|e: MetaEntry| entry_model(e)) + seq![] =~= seq![]);
    while i < kv_count
        invariant
            b == bytes@,
            i <= kv_count,
            pos <= b.len(),
            fits(b, 0, 24),
            u32_at(b, 0) == GGUF_MAGIC,
            version == u32_at(b, 4),
            2 <= version <= 3,
            tensor_count == u64_at(b, 8),
            kv_count == u64_at(b, 16),
            entries_at(b, 24, kv_count as nat) == after(
                metadata@.map_values(|e: MetaEntry| entry_model(e)),
                entries_at(b, pos as int, (kv_count - i) as nat),
            ),
        decreases kv_count - i,
    {
        let ghost acc = metadata@.map_values(|e: MetaEntry| entry_model(e));
        let (q, key) = match read_string(bytes, pos) {
            Ok(x) => x,
            Err(e) => return Err(e),
        };
        match read_value(bytes, q) {
            Ok((r, value)) => {
                let ghost x: EntryModel = (key@, value@);
                assert(entries_at(b, pos as int, (kv_count - i) as nat) == cons_entry(
                    x,
                    entries_at(b, r as int, (kv_count - i - 1) as nat),
                ));
                proof {
                    lemma_after_cons(acc, x, entries_at(b, r as int, (kv_count - i - 1) as nat));
                }
                metadata.push(MetaEntry { key, value });
                assert(metadata@.map_values(|e: MetaEntry| entry_model(e)) =~= acc.push(x));
                pos = r;
            },
            Err(e) => {
                if e.stops_metadata_exec() {
                    assert(acc + seq![] =~= acc);
                    return Ok(GgufInfo { version, tensor_count, metadata });
                }
                return Err(e);
            },
        }
        i = i + 1;
    }
    proof {
        let acc = metadata@.map_values(|e: MetaEntry| entry_model(e));
        assert(acc + seq![] =~= acc);
    }
    Ok(GgufInfo { version, tensor_count, metadata })
}


// ------------------------------------------------------------------
// Lookups
// ------------------------------------------------------------------
/// The value of the last pair with `key`, as a hash map built in file order
/// would hold it.
pub open spec fn lookup(md: Seq<EntryModel>, key: Seq<char>) -> Option<MetaValueModel>
    decreases md.len(),
{
    if md.len() == 0 {
        None
    } else if md.last().0 == key {
        Some(md.last().1)
    } else {
        lookup(md.drop_last(), key)
    }
}

pub open spec fn text_value(md: Seq<EntryModel>, key: Seq<char>) -> Option<Seq<char>> {
    match lookup(md, key) {
        Some(MetaValueModel::Text(t)) => Some(t),
        _ => None,
    }
}

/// Unsigned values, and signed ones that are not negative.
pub open spec fn u64_value(md: Seq<EntryModel>, key: Seq<char>) -> Option<u64> {
    match lookup(md, key) {
        Some(MetaValueModel::U64(v)) => Some(v),
        Some(MetaValueModel::I64(v)) => if v >= 0 {
            Some(v as u64)
        } else {
            None
        },
        _ => None,
    }
}

pub open spec fn opt_text(o: Option<&str>) -> Option<Seq<char>> {
    match o {
        Some(s) => Some(s@),
        None => None,
    }
}

pub open spec fn architecture_key() -> Seq<char> {
    "general.architecture"@
}

pub open spec fn name_key() -> Seq<char> {
    "general.name"@
}

impl GgufInfo {
    /// Index of the last pair with `key`.
    fn find(&self, key: &str) -> (r: Option<usize>)
        ensures
            match r {
                Some(i) => i < self.metadata@.len() && lookup(self@.metadata, key@) == Some(
                    self.metadata@[i as int].value@,
                ),
                None => lookup(self@.metadata, key@) is None,
            },
    {
        let ghost md = self@.metadata;
        let wanted: String = key.to_owned();
        let mut j = self.metadata.len();
        assert(md.take(j as int) =~= md);
        while j > 0
            invariant
                j <= self.metadata@.len(),
                md == self@.metadata,
                md.len() == self.metadata@.len(),
                wanted@ == key@,
                lookup(md, key@) == lookup(md.take(j as int), key@),
            decreases j,
        {
            assert(md.take(j as int).last() == entry_model(self.metadata@[j - 1]));
            if self.metadata[j - 1].key == wanted {
                return Some(j - 1);
            }
            assert(md.take(j as int).drop_last() =~= md.take(j - 1));
            j = j - 1;
        }
        None
    }

    /// The text stored under `key`, when it is a string.
    pub fn get_string(&self, key: &str) -> (r: Option<&str>)
        ensures
            opt_text(r) == text_value(self@.metadata, key@),
    {
        match self.find(key) {
            Some(i) => match &self.metadata[i].value {
                MetaValue::String(s) => Some(s.as_str()),
                _ => None,
            },
            None => None,
        }
    }

    /// The integer stored under `key`, when it is unsigned or a non-negative
    /// signed integer.
    pub fn get_u64(&self, key: &str) -> (r: Option<u64>)
        ensures
            r == u64_value(self@.metadata, key@),
    {
        match self.find(key) {
            Some(i) => match &self.metadata[i].value {
                MetaValue::U64(v) => Some(*v),
                MetaValue::I64(v) => if *v >= 0 {
                    Some(*v as u64)
                } else {
                    None
                },
                _ => None,
            },
            None => None,
        }
    }

    /// `general.architecture`.
    pub fn architecture(&self) -> (r: Option<&str>)
        ensures
            opt_text(r) == text_value(self@.metadata, architecture_key()),
    {
        self.get_string("general.architecture")
    }

    /// `general.name`.
    pub fn model_name(&self) -> (r: Option<&str>)
        ensures
            opt_text(r) == text_value(self@.metadata, name_key()),
    {
        self.get_string("general.name")
    }
}


// ------------------------------------------------------------------
// Derived facts
// ------------------------------------------------------------------
pub open spec fn summary_text(m: GgufInfoModel) -> Seq<char> {
    "GGUFv"@ + decimal(m.version as nat) + " \u{b7} "@ + decimal(m.tensor_count as nat)
        + " tensors \u{b7} "@ + match text_value(m.metadata, architecture_key()) {
        Some(a) => a,
        None => "unknown-arch"@,
    } + match text_value(m.metadata, name_key()) {
        Some(n) => " \u{b7} "@ + n,
        None => Seq::<char>::empty(),
    }
}

pub open spec fn declared_parameter_count(md: Seq<EntryModel>) -> Option<u64> {
    first_some(
        u64_value(md, "general.parameter_count"@),
        first_some(u64_value(md, "general.param_count"@), u64_value(md, "general.parameters"@)),
    )
}

/// `"<architecture>."`, or nothing when the architecture is unknown or empty.
pub open spec fn arch_prefix(md: Seq<EntryModel>) -> Seq<char> {
    match text_value(md, architecture_key()) {
        Some(a) => if a.len() == 0 {
            Seq::<char>::empty()
        } else {
            a + "."@
        },
        None => Seq::<char>::empty(),
    }
}

/// The first pair from `i` on, in file order, whose key ends with `suffix`
/// and holds an integer; that integer.
pub open spec fn suffix_scan(md: Seq<EntryModel>, i: int, suffix: Seq<char>) -> Option<u64>
    decreases md.len() - i,
{
    if i >= md.len() || i < 0 {
        None
    } else if has_suffix(md[i].0, suffix) && u64_value(md, md[i].0) is Some {
        u64_value(md, md[i].0)
    } else {
        suffix_scan(md, i + 1, suffix)
    }
}

/// The integer under `<architecture>.<suffix>`, else under the first key that
/// ends with `suffix`.
pub open spec fn pick_u64(md: Seq<EntryModel>, suffix: Seq<char>) -> Option<u64> {
    first_some(u64_value(md, arch_prefix(md) + suffix), suffix_scan(md, 0, suffix))
}

pub open spec fn arch_hints_of(md: Seq<EntryModel>) -> ArchHints {
    ArchHints {
        num_hidden_layers: pick_u64(md, "block_count"@),
        hidden_size: pick_u64(md, "embedding_length"@),
        num_attention_heads: pick_u64(md, "attention.head_count"@),
        num_key_value_heads: pick_u64(md, "attention.head_count_kv"@),
        head_dim: first_some(
            pick_u64(md, "attention.key_length"@),
            pick_u64(md, "attention.value_length"@),
        ),
    }
}

/// What the parameter estimate reads, before any product is formed.
pub struct ArchParts {
    pub layers: u64,
    pub hidden: u64,
    pub heads: u64,
    pub kv_heads: u64,
    pub head_dim: u64,
    pub ffn: Option<u64>,
    pub vocab: u64,
}

pub open spec fn arch_parts(md: Seq<EntryModel>) -> Option<ArchParts> {
    let h = arch_hints_of(md);
    match (h.num_hidden_layers, h.hidden_size) {
        (Some(layers), Some(hidden)) => {
            let heads = at_least_one(or_default(h.num_attention_heads, 32));
            let kv_heads = at_least_one(or_default(h.num_key_value_heads, heads));
            let head_dim = at_least_one(or_default(h.head_dim, (hidden / heads) as u64));
            Some(
                ArchParts {
                    layers,
                    hidden,
                    heads,
                    kv_heads,
                    head_dim,
                    ffn: u64_value(md, arch_prefix(md) + "feed_forward_length"@),
                    vocab: or_default(
                        first_some(
                            u64_value(md, arch_prefix(md) + "vocab_size"@),
                            u64_value(md, "tokenizer.ggml.tokens"@),
                        ),
                        32000,
                    ),
                },
            )
        },
        _ => None,
    }
}

/// The shape of the estimate: the feed-forward width defaults to four times
/// the hidden size, the embedding count saturates at `u64::MAX`.
pub open spec fn parts_shape(a: ArchParts) -> TransformerShape {
    TransformerShape {
        layers: a.layers,
        hidden: a.hidden,
        heads: a.heads,
        kv_heads: a.kv_heads,
        head_dim: a.head_dim,
        ffn: or_default(a.ffn, (a.hidden * 4) as u64),
        embed: if a.vocab * a.hidden > u64::MAX {
            u64::MAX
        } else {
            (a.vocab * a.hidden) as u64
        },
    }
}

/// The estimate can be formed without a `u64` overflow (the default
/// feed-forward width `hidden * 4` is formed even when it is not used).
pub open spec fn arch_estimate_in_range(md: Seq<EntryModel>) -> bool {
    match arch_parts(md) {
        Some(a) => a.hidden * 4 <= u64::MAX && parts_shape(a).in_u64_range(),
        None => true,
    }
}

impl GgufInfo {
    /// `"GGUFv<version> · <tensors> tensors · <architecture>[ · <name>]"`.
    pub fn summary_label(&self) -> (r: String)
        ensures
            r@ == summary_text(self@),
    {
        let mut s: String = "GGUFv".to_owned();
        let v = decimal_string(self.version as u64);
        s.append(v.as_str());
        s.append(" \u{b7} ");
        let t = decimal_string(self.tensor_count);
        s.append(t.as_str());
        s.append(" tensors \u{b7} ");
        match self.architecture() {
            Some(a) => s.append(a),
            None => s.append("unknown-arch"),
        }
        match self.model_name() {
            Some(n) => {
                s.append(" \u{b7} ");
                s.append(n);
            },
            None => {},
        }
        proof {
            let m = self@;
            let base = "GGUFv"@ + decimal(m.version as nat) + " \u{b7} "@ + decimal(
                m.tensor_count as nat,
            ) + " tensors \u{b7} "@ + match text_value(m.metadata, architecture_key()) {
                Some(a) => a,
                None => "unknown-arch"@,
            };
            match text_value(m.metadata, name_key()) {
                Some(n) => {
                    assert(base + (" \u{b7} "@ + n) =~= base + " \u{b7} "@ + n);
                },
                None => {
                    assert(base + Seq::<char>::empty() =~= base);
                },
            }
        }
        s
    }

    /// The parameter count the writer declared, under the first of
    /// `general.parameter_count`, `general.param_count`, `general.parameters`
    /// that holds an integer.
    pub fn parameter_count(&self) -> (r: Option<u64>)
        ensures
            r == declared_parameter_count(self@.metadata),
    {
        match self.get_u64("general.parameter_count") {
            Some(v) => return Some(v),
            None => {},
        }
        match self.get_u64("general.param_count") {
            Some(v) => return Some(v),
            None => {},
        }
        self.get_u64("general.parameters")
    }

    fn arch_prefix_exec(&self) -> (r: String)
        ensures
            r@ == arch_prefix(self@.metadata),
    {
        match self.architecture() {
            Some(a) => if a.is_empty() {
                String::new()
            } else {
                let mut p: String = a.to_owned();
                p.append(".");
                p
            },
            None => String::new(),
        }
    }

    fn scan_suffix(&self, suffix: &str) -> (r: Option<u64>)
        ensures
            r == suffix_scan(self@.metadata, 0, suffix@),
    {
        let ghost md = self@.metadata;
        let sc = chars_of(suffix);
        let mut i: usize = 0;
        while i < self.metadata.len()
            invariant
                i <= self.metadata@.len(),
                md == self@.metadata,
                md.len() == self.metadata@.len(),
                sc@ == suffix@,
                suffix_scan(md, 0, suffix@) == suffix_scan(md, i as int, suffix@),
            decreases self.metadata.len() - i,
        {
            assert(md[i as int] == entry_model(self.metadata@[i as int]));
            let kc = chars_of(self.metadata[i].key.as_str());
            if has_suffix_exec(&kc, &sc) {
                match self.get_u64(self.metadata[i].key.as_str()) {
                    Some(v) => return Some(v),
                    None => {},
                }
            }
            i = i + 1;
        }
        None
    }

    fn pick_u64_exec(&self, prefix: &String, suffix: &str) -> (r: Option<u64>)
        requires
            prefix@ == arch_prefix(self@.metadata),
        ensures
            r == pick_u64(self@.metadata, suffix@),
    {
        let mut key: String = prefix.clone();
        key.append(suffix);
        match self.get_u64(key.as_str()) {
            Some(v) => Some(v),
            None => self.scan_suffix(suffix),
        }
    }

    /// Architecture fields for KV-cache sizing, read under
    /// `<architecture>.<field>`, else under the first key in file order that
    /// ends with the field's name.
    pub fn arch_hints(&self) -> (r: ArchHints)
        ensures
            r == arch_hints_of(self@.metadata),
    {
        let prefix = self.arch_prefix_exec();
        let head_dim = match self.pick_u64_exec(&prefix, "attention.key_length") {
            Some(v) => Some(v),
            None => self.pick_u64_exec(&prefix, "attention.value_length"),
        };
        ArchHints {
            num_hidden_layers: self.pick_u64_exec(&prefix, "block_count"),
            hidden_size: self.pick_u64_exec(&prefix, "embedding_length"),
            num_attention_heads: self.pick_u64_exec(&prefix, "attention.head_count"),
            num_key_value_heads: self.pick_u64_exec(&prefix, "attention.head_count_kv"),
            head_dim,
        }
    }

    fn arch_parts_exec(&self) -> (r: Option<ArchParts>)
        ensures
            r == arch_parts(self@.metadata),
    {
        let h = self.arch_hints();
        let (layers, hidden) = match (h.num_hidden_layers, h.hidden_size) {
            (Some(l), Some(d)) => (l, d),
            _ => return None,
        };
        let heads0 = match h.num_attention_heads {
            Some(v) => v,
            None => 32,
        };
        let heads = if heads0 >= 1 {
            heads0
        } else {
            1
        };
        let kv0 = match h.num_key_value_heads {
            Some(v) => v,
            None => heads,
        };
        let kv_heads = if kv0 >= 1 {
            kv0
        } else {
            1
        };
        let hd0 = match h.head_dim {
            Some(v) => v,
            None => hidden / heads,
        };
        let head_dim = if hd0 >= 1 {
            hd0
        } else {
            1
        };
        let prefix = self.arch_prefix_exec();
        let mut ffn_key: String = prefix.clone();
        ffn_key.append("feed_forward_length");
        let ffn = self.get_u64(ffn_key.as_str());
        let mut vocab_key: String = prefix.clone();
        vocab_key.append("vocab_size");
        let vocab = match self.get_u64(vocab_key.as_str()) {
            Some(v) => v,
            None => match self.get_u64("tokenizer.ggml.tokens") {
                Some(v) => v,
                None => 32000,
            },
        };
        Some(ArchParts { layers, hidden, heads, kv_heads, head_dim, ffn, vocab })
    }

    fn shape_of_parts(a: &ArchParts) -> (r: TransformerShape)
        requires
            a.hidden * 4 <= u64::MAX,
        ensures
            r == parts_shape(*a),
    {
        let default_ffn = a.hidden * 4;
        let ffn = match a.ffn {
            Some(v) => v,
            None => default_ffn,
        };
        let embed = match a.vocab.checked_mul(a.hidden) {
            Some(v) => v,
            None => u64::MAX,
        };
        TransformerShape {
            layers: a.layers,
            hidden: a.hidden,
            heads: a.heads,
            kv_heads: a.kv_heads,
            head_dim: a.head_dim,
            ffn,
            embed,
        }
    }

    /// Whether `estimate_params_from_arch` can be computed without overflow.
    pub fn arch_estimate_in_range(&self) -> (r: bool)
        ensures
            r == arch_estimate_in_range(self@.metadata),
    {
        match self.arch_parts_exec() {
            Some(a) => {
                if a.hidden > u64::MAX / 4 {
                    return false;
                }
                Self::shape_of_parts(&a).check_in_u64_range()
            },
            None => true,
        }
    }

    /// A transformer parameter estimate from the architecture fields, when
    /// the block count and embedding length are known.  Missing heads default
    /// to 32, KV heads to the heads, the head dimension to `hidden / heads`
    /// (each at least one), the vocabulary to 32000.
    pub fn estimate_params_from_arch(&self) -> (r: Option<u128>)
        requires
            arch_estimate_in_range(self@.metadata),
        ensures
            match arch_parts(self@.metadata) {
                Some(a) => r == Some(transformer_param_total(parts_shape(a)) as u128),
                None => r is None,
            },
    {
        match self.arch_parts_exec() {
            Some(a) => {
                let shape = Self::shape_of_parts(&a);
                Some(shape.param_count())
            },
            None => None,
        }
    }
}


// ------------------------------------------------------------------
// Reading a prefix is reading the file
// ------------------------------------------------------------------
proof fn lemma_string_extends(b: Seq<u8>, extra: Seq<u8>, p: int)
    ensures
        string_at(b, p) matches Ok((q, t)) ==> p < q <= b.len() && string_at(b + extra, p) == Ok::<
            (int, Seq<char>),
            GgufError,
        >((q, t)),
{
    if let Ok((q, t)) = string_at(b, p) {
        let c = b + extra;
        assert(u64_at(c, p) == u64_at(b, p));
        let n = u64_at(b, p);
        assert(c.subrange(p + 8, p + 8 + n) =~= b.subrange(p + 8, p + 8 + n));
    }
}

proof fn lemma_value_extends(b: Seq<u8>, extra: Seq<u8>, p: int, ty: u32)
    ensures
        value_at(b, p, ty) matches Ok((q, v)) ==> p < q <= b.len() && value_at(b + extra, p, ty)
            == Ok::<(int, MetaValueModel), GgufError>((q, v)),
    decreases b.len() - p, 0int, 0int,
{
    let c = b + extra;
    if let Ok((q, v)) = value_at(b, p, ty) {
        if ty == META_STRING {
            lemma_string_extends(b, extra, p);
        } else if ty == META_ARRAY {
            assert(u32_at(c, p) == u32_at(b, p));
            assert(u64_at(c, p + 4) == u64_at(b, p + 4));
            lemma_elements_extends(b, extra, p + 12, u32_at(b, p) as u32, u64_at(b, p + 4) as nat);
        } else {
            assert(c[p] == b[p]);
            if ty == META_UINT16 || ty == META_INT16 {
                assert(u16_at(c, p) == u16_at(b, p));
            } else if ty == META_UINT32 || ty == META_INT32 || ty == META_FLOAT32 {
                assert(u32_at(c, p) == u32_at(b, p));
            } else if ty == META_UINT64 || ty == META_INT64 || ty == META_FLOAT64 {
                assert(u64_at(c, p) == u64_at(b, p));
            }
        }
    }
}

proof fn lemma_elements_extends(b: Seq<u8>, extra: Seq<u8>, p: int, elem: u32, n: nat)
    requires
        0 <= p <= b.len(),
    ensures
        elements_at(b, p, elem, n) matches Ok(q) ==> p <= q <= b.len() && elements_at(
            b + extra,
            p,
            elem,
            n,
        ) == Ok::<int, GgufError>(q),
    decreases b.len() - p, 1int, n,
{
    if n > 0 {
        lemma_value_extends(b, extra, p, elem);
        if let Ok((q, _)) = value_at(b, p, elem) {
            lemma_elements_extends(b, extra, q, elem, (n - 1) as nat);
        }
    }
}

proof fn lemma_entries_extend(b: Seq<u8>, extra: Seq<u8>, p: int, n: nat)
    ensures
        entries_at(b, p, n) matches Ok((es, stopped)) && !stopped ==> entries_at(b + extra, p, n)
            == entries_at(b, p, n),
    decreases n,
{
    if n > 0 {
        lemma_string_extends(b, extra, p);
        if let Ok((q, key)) = string_at(b, p) {
            let c = b + extra;
            if fits(b, q, 4) {
                assert(u32_at(c, q) == u32_at(b, q));
                lemma_value_extends(b, extra, q + 4, u32_at(b, q) as u32);
            }
            if let Ok((r, v)) = tagged_value_at(b, q) {
                lemma_entries_extend(b, extra, r, (n - 1) as nat);
            }
        }
    }
}

/// Ranged reading is sound: when every announced metadata pair was read from
/// a prefix of a file, reading more of the file changes nothing.
pub proof fn law_complete_prefix_reads_like_file(prefix: Seq<u8>, rest: Seq<u8>)
    requires
        gguf_prefix(prefix) matches Ok(m) && !m.stopped_early,
    ensures
        gguf_prefix(prefix + rest) == gguf_prefix(prefix),
{
    let c = prefix + rest;
    assert(u32_at(c, 0) == u32_at(prefix, 0));
    assert(u32_at(c, 4) == u32_at(prefix, 4));
    assert(u64_at(c, 8) == u64_at(prefix, 8));
    assert(u64_at(c, 16) == u64_at(prefix, 16));
    lemma_entries_extend(prefix, rest, 24, u64_at(prefix, 16) as nat);
}

/// Every prefix that reads successfully is of version 2 or 3.
pub proof fn law_read_versions_are_supported(b: Seq<u8>)
    ensures
        gguf_prefix(b) matches Ok(m) ==> 2 <= m.version <= 3,
{
}

/// The integer under `<architecture>.<field>` is what `pick_u64` gives for
/// that field.
proof fn lemma_pick_under_architecture(md: Seq<EntryModel>, a: Seq<char>, field: Seq<char>)
    requires
        text_value(md, "general.architecture"@) == Some(a),
        a.len() > 0,
    ensures
        u64_value(md, a + "."@ + field) matches Some(k) ==> pick_u64(md, field) == Some(k),
{
    assert(arch_prefix(md) == a + "."@);
}

/// The architecture hints of a model that names its architecture `a` are
/// read under `a.`: the block count, embedding length, attention head count,
/// KV head count and key length stored there are the hints given, whatever
/// else the metadata holds.
pub proof fn law_arch_hints_read_under_architecture(md: Seq<EntryModel>, a: Seq<char>)
    requires
        text_value(md, "general.architecture"@) == Some(a),
        a.len() > 0,
    ensures
        u64_value(md, a + "."@ + "block_count"@) matches Some(k) ==> arch_hints_of(
            md,
        ).num_hidden_layers == Some(k),
        u64_value(md, a + "."@ + "embedding_length"@) matches Some(k) ==> arch_hints_of(
            md,
        ).hidden_size == Some(k),
        u64_value(md, a + "."@ + "attention.head_count"@) matches Some(k) ==> arch_hints_of(
            md,
        ).num_attention_heads == Some(k),
        u64_value(md, a + "."@ + "attention.head_count_kv"@) matches Some(k) ==> arch_hints_of(
            md,
        ).num_key_value_heads == Some(k),
        u64_value(md, a + "."@ + "attention.key_length"@) matches Some(k) ==> arch_hints_of(
            md,
        ).head_dim == Some(k),
{
    lemma_pick_under_architecture(md, a, "block_count"@);
    lemma_pick_under_architecture(md, a, "embedding_length"@);
    lemma_pick_under_architecture(md, a, "attention.head_count"@);
    lemma_pick_under_architecture(md, a, "attention.head_count_kv"@);
    lemma_pick_under_architecture(md, a, "attention.key_length"@);
}

/// Lookups see the last pair with a key: a pair appended under `key` is what
/// a lookup of `key` gives, and a pair appended under another key leaves
/// every other lookup as it was.  Integers read back as integers (signed ones
/// only when not negative), and text as text.
pub proof fn law_lookup_last_pair_wins(
    md: Seq<EntryModel>,
    key: Seq<char>,
    other: Seq<char>,
    v: MetaValueModel,
)
    ensures
        lookup(md.push((key, v)), key) == Some(v),
        other != key ==> lookup(md.push((other, v)), key) == lookup(md, key),
        lookup(md, key) is None <==> forall|i: int| 0 <= i < md.len() ==> #[trigger] md[i].0 != key,
        v matches MetaValueModel::U64(x) ==> u64_value(md.push((key, v)), key) == Some(x),
        v matches MetaValueModel::I64(x) ==> u64_value(md.push((key, v)), key) == (if x >= 0 {
            Some(x as u64)
        } else {
            None
        }),
        v matches MetaValueModel::Text(t) ==> text_value(md.push((key, v)), key) == Some(t),
        !(v is U64 || v is I64) ==> u64_value(md.push((key, v)), key) is None,
    decreases md.len(),
{
    assert(md.push((key, v)).drop_last() =~= md);
    assert(md.push((other, v)).drop_last() =~= md);
    if md.len() > 0 {
        law_lookup_last_pair_wins(md.drop_last(), key, other, v);
        assert forall|i: int| 0 <= i < md.drop_last().len() implies md.drop_last()[i] == md[i] by {}
        if lookup(md, key) is None {
            assert forall|i: int| 0 <= i < md.len() implies #[trigger] md[i].0 != key by {
                if i < md.len() - 1 {
                    assert(md.drop_last()[i] == md[i]);
                }
            }
        } else {
            if forall|i: int| 0 <= i < md.len() ==> #[trigger] md[i].0 != key {
                assert(md[md.len() - 1].0 != key);
                assert forall|i: int| 0 <= i < md.drop_last().len() implies #[trigger] md.drop_last()[i].0
                    != key by {
                    assert(md.drop_last()[i] == md[i]);
                }
            }
        }
    }
}

/// The declared parameter count is read under `general.parameter_count`,
/// else `general.param_count`, else `general.parameters`: the first of these
/// keys holding a non-negative integer gives it.
pub proof fn law_declared_parameter_count_keys(md: Seq<EntryModel>)
    ensures
        u64_value(md, "general.parameter_count"@) matches Some(n) ==> declared_parameter_count(md)
            == Some(n),
        u64_value(md, "general.parameter_count"@) is None ==> (u64_value(
            md,
            "general.param_count"@,
        ) matches Some(n) ==> declared_parameter_count(md) == Some(n)),
        u64_value(md, "general.parameter_count"@) is None && u64_value(md, "general.param_count"@)
            is None ==> declared_parameter_count(md) == u64_value(md, "general.parameters"@),
{
}

proof fn lemma_suffix_scan_first(md: Seq<EntryModel>, i: int, suffix: Seq<char>, j: int)
    requires
        0 <= i <= j < md.len(),
        has_suffix(md[j].0, suffix),
        u64_value(md, md[j].0) is Some,
        forall|l: int|
            i <= l < j ==> !(has_suffix(#[trigger] md[l].0, suffix) && u64_value(md, md[l].0) is Some),
    ensures
        suffix_scan(md, i, suffix) == u64_value(md, md[j].0),
    decreases j - i,
{
    if i < j {
        lemma_suffix_scan_first(md, i + 1, suffix, j);
    }
}

/// Without a named architecture and without a pair keyed by the bare field
/// name, each hint is read from the first pair in file order whose key ends
/// with the field's name and holds a non-negative integer.
pub proof fn law_arch_hints_fall_back_to_first_match(md: Seq<EntryModel>, field: Seq<char>, j: int)
    requires
        text_value(md, "general.architecture"@) is None,
        forall|i: int| 0 <= i < md.len() ==> #[trigger] md[i].0 != field,
        0 <= j < md.len(),
        has_suffix(md[j].0, field),
        u64_value(md, md[j].0) is Some,
        forall|l: int|
            0 <= l < j ==> !(has_suffix(#[trigger] md[l].0, field) && u64_value(md, md[l].0) is Some),
    ensures
        field == "block_count"@ ==> arch_hints_of(md).num_hidden_layers == u64_value(md, md[j].0),
        field == "embedding_length"@ ==> arch_hints_of(md).hidden_size == u64_value(md, md[j].0),
        field == "attention.head_count"@ ==> arch_hints_of(md).num_attention_heads == u64_value(
            md,
            md[j].0,
        ),
        field == "attention.head_count_kv"@ ==> arch_hints_of(md).num_key_value_heads == u64_value(
            md,
            md[j].0,
        ),
        field == "attention.key_length"@ ==> arch_hints_of(md).head_dim == u64_value(md, md[j].0),
{
    assert(arch_prefix(md) == Seq::<char>::empty());
    assert(Seq::<char>::empty() + field =~= field);
    law_lookup_last_pair_wins(md, field, field, MetaValueModel::Other);
    lemma_suffix_scan_first(md, 0, field, j);
}

/// The parameter estimate from the architecture needs the block count and
/// the embedding length.  Missing attention heads count as 32, missing KV
/// heads as the attention heads, a missing head dimension as the hidden size
/// over the heads, each at least one; the feed-forward width is read under
/// `<architecture>.feed_forward_length` (else four times the hidden size)
/// and the vocabulary under `<architecture>.vocab_size`, else
/// `tokenizer.ggml.tokens`, else 32000, its product with the hidden size
/// saturating at the `u64` maximum.
pub proof fn law_arch_estimate_defaults(md: Seq<EntryModel>)
    ensures
        arch_parts(md) is Some <==> (arch_hints_of(md).num_hidden_layers is Some && arch_hints_of(
            md,
        ).hidden_size is Some),
        arch_parts(md) matches Some(a) ==> {
            let h = arch_hints_of(md);
            let heads0: int = match h.num_attention_heads {
                Some(x) => x as int,
                None => 32,
            };
            let heads: int = if heads0 >= 1 {
                heads0
            } else {
                1
            };
            let kv0: int = match h.num_key_value_heads {
                Some(x) => x as int,
                None => heads,
            };
            let dim0: int = match h.head_dim {
                Some(x) => x as int,
                None => (a.hidden as int) / heads,
            };
            let shape = parts_shape(a);
            &&& a.layers == h.num_hidden_layers->0 && a.hidden == h.hidden_size->0
            &&& a.heads == heads
            &&& a.kv_heads == (if kv0 >= 1 {
                kv0
            } else {
                1
            })
            &&& a.head_dim == (if dim0 >= 1 {
                dim0
            } else {
                1
            })
            &&& (u64_value(md, arch_prefix(md) + "vocab_size"@) matches Some(v) ==> a.vocab == v)
            &&& (u64_value(md, arch_prefix(md) + "vocab_size"@) is None ==> (u64_value(
                md,
                "tokenizer.ggml.tokens"@,
            ) matches Some(v) ==> a.vocab == v))
            &&& (u64_value(md, arch_prefix(md) + "vocab_size"@) is None && u64_value(
                md,
                "tokenizer.ggml.tokens"@,
            ) is None ==> a.vocab == 32000)
            &&& (u64_value(md, arch_prefix(md) + "feed_forward_length"@) matches Some(f)
                ==> shape.ffn == f)
            &&& (u64_value(md, arch_prefix(md) + "feed_forward_length"@) is None && 4 * a.hidden
                <= u64::MAX ==> shape.ffn == 4 * a.hidden)
            &&& (a.vocab * a.hidden <= u64::MAX ==> shape.embed == a.vocab * a.hidden)
            &&& (a.vocab * a.hidden > u64::MAX ==> shape.embed == u64::MAX)
        },
{
}

} // verus!
