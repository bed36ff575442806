//! Integer parts of VRAM estimation: quantization formats, architecture
//! hints, the KV-cache shape and the transformer parameter count.
//!
//! The gigabyte figures themselves are floating-point products of these
//! integers and are computed outside the library.
use vstd::prelude::*;

verus! {

/// Supported quantization formats for the VRAM matrix.
#[derive(Debug, Clone, Copy, PartialEq, Eq)]
pub enum Quantization {
    Fp16,
    Int8,
    Int4,
}

pub open spec fn quantization_label(q: Quantization) -> Seq<char> {
    match q {
        Quantization::Fp16 => "FP16"@,
        Quantization::Int8 => "INT8/AWQ"@,
        Quantization::Int4 => "INT4/Q4"@,
    }
}

impl Quantization {
    pub fn label(self) -> (r: &'static str)
        ensures
            r@ == quantization_label(self),
    {
        match self {
            Quantization::Fp16 => "FP16",
            Quantization::Int8 => "INT8/AWQ",
            Quantization::Int4 => "INT4/Q4",
        }
    }

    /// Every format, in the order of the VRAM matrix rows.
    pub fn all() -> (r: [Quantization; 3])
        ensures
            r@ == seq![Quantization::Fp16, Quantization::Int8, Quantization::Int4],
    {
        let r = [Quantization::Fp16, Quantization::Int8, Quantization::Int4];
        assert(r@ =~= seq![Quantization::Fp16, Quantization::Int8, Quantization::Int4]);
        r
    }
}

/// Optional transformer architecture fields used for KV-cache sizing.
#[derive(Debug, Clone, Copy, PartialEq, Eq)]
pub struct ArchHints {
    pub num_hidden_layers: Option<u64>,
    pub hidden_size: Option<u64>,
    pub num_attention_heads: Option<u64>,
    pub num_key_value_heads: Option<u64>,
    pub head_dim: Option<u64>,
}

pub open spec fn no_hints() -> ArchHints {
    ArchHints {
        num_hidden_layers: None,
        hidden_size: None,
        num_attention_heads: None,
        num_key_value_heads: None,
        head_dim: None,
    }
}

impl Default for ArchHints {
    fn default() -> (r: ArchHints)
        ensures
            r == no_hints(),
    {
        ArchHints {
            num_hidden_layers: None,
            hidden_size: None,
            num_attention_heads: None,
            num_key_value_heads: None,
            head_dim: None,
        }
    }
}

pub open spec fn first_some(a: Option<u64>, b: Option<u64>) -> Option<u64> {
    match a {
        Some(v) => Some(v),
        None => b,
    }
}

pub open spec fn filled_from(a: ArchHints, b: ArchHints) -> ArchHints {
    ArchHints {
        num_hidden_layers: first_some(a.num_hidden_layers, b.num_hidden_layers),
        hidden_size: first_some(a.hidden_size, b.hidden_size),
        num_attention_heads: first_some(a.num_attention_heads, b.num_attention_heads),
        num_key_value_heads: first_some(a.num_key_value_heads, b.num_key_value_heads),
        head_dim: first_some(a.head_dim, b.head_dim),
    }
}

fn first_some_exec(a: Option<u64>, b: Option<u64>) -> (r: Option<u64>)
    ensures
        r == first_some(a, b),
{
    match a {
        Some(v) => Some(v),
        None => b,
    }
}

impl ArchHints {
    /// Fills each field that is missing here from `other`; fields already
    /// known are kept.
    pub fn fill_missing_from(&mut self, other: &ArchHints)
        ensures
            *final(self) == filled_from(*old(self), *other),
    {
        self.num_hidden_layers = first_some_exec(self.num_hidden_layers, other.num_hidden_layers);
        self.hidden_size = first_some_exec(self.hidden_size, other.hidden_size);
        self.num_attention_heads = first_some_exec(
            self.num_attention_heads,
            other.num_attention_heads,
        );
        self.num_key_value_heads = first_some_exec(
            self.num_key_value_heads,
            other.num_key_value_heads,
        );
        self.head_dim = first_some_exec(self.head_dim, other.head_dim);
    }
}

/// The dimensions that size a KV cache: `2 * layers * kv_heads * head_dim`
/// FP16 values per token.
#[derive(Debug, Clone, Copy, PartialEq, Eq)]
pub struct KvCacheShape {
    pub layers: u64,
    pub kv_heads: u64,
    pub head_dim: u64,
}

pub open spec fn kv_cache_shape_of(arch: ArchHints) -> Option<KvCacheShape> {
    match (arch.num_hidden_layers, arch.hidden_size) {
        (Some(layers), Some(hidden)) => {
            let attn_heads = match arch.num_attention_heads {
                Some(h) => h,
                None => 32u64,
            };
            let kv_heads = match arch.num_key_value_heads {
                Some(k) => k,
                None => if attn_heads / 8 >= 1 {
                    (attn_heads / 8) as u64
                } else {
                    1u64
                },
            };
            let dim = match arch.head_dim {
                Some(d) => d,
                None => if attn_heads != 0 {
                    (hidden / attn_heads) as u64
                } else {
                    128u64
                },
            };
            Some(KvCacheShape { layers, kv_heads, head_dim: dim })
        },
        _ => None,
    }
}

/// The KV-cache dimensions when the layer count and hidden size are known:
/// attention heads default to 32, KV heads to an eighth of them (at least
/// one), the head dimension to `hidden / heads` (128 when there are no heads).
/// `None` means the per-parameter fallback heuristic applies.
pub fn kv_cache_shape(arch: &ArchHints) -> (r: Option<KvCacheShape>)
    ensures
        r == kv_cache_shape_of(*arch),
{
    match (arch.num_hidden_layers, arch.hidden_size) {
        (Some(layers), Some(hidden)) => {
            let attn_heads = match arch.num_attention_heads {
                Some(h) => h,
                None => 32u64,
            };
            let kv_heads = match arch.num_key_value_heads {
                Some(k) => k,
                None => if attn_heads / 8 >= 1 {
                    attn_heads / 8
                } else {
                    1u64
                },
            };
            let dim = match arch.head_dim {
                Some(d) => d,
                None => if attn_heads != 0 {
                    hidden / attn_heads
                } else {
                    128u64
                },
            };
            Some(KvCacheShape { layers, kv_heads, head_dim: dim })
        },
        _ => None,
    }
}

/// Dimensions of a decoder-only transformer, and its embedding parameters.
#[derive(Debug, Clone, Copy, PartialEq, Eq)]
pub struct TransformerShape {
    pub layers: u64,
    pub hidden: u64,
    pub heads: u64,
    pub kv_heads: u64,
    pub head_dim: u64,
    pub ffn: u64,
    pub embed: u64,
}

pub open spec fn attention_per_layer(s: TransformerShape) -> int {
    s.hidden * s.heads * s.head_dim + s.hidden * s.kv_heads * s.head_dim + s.hidden * s.kv_heads
        * s.head_dim + s.heads * s.head_dim * s.hidden
}

pub open spec fn mlp_per_layer(s: TransformerShape) -> int {
    s.hidden * s.ffn + s.ffn * s.hidden
}

/// Parameters: embeddings, Q/K/V/O projections, the two MLP matrices and
/// two norms per layer plus a final one.
pub open spec fn transformer_param_total(s: TransformerShape) -> int {
    s.embed + s.layers * attention_per_layer(s) + s.layers * mlp_per_layer(s) + (s.layers * 2 + 1)
        * s.hidden
}

pub open spec fn fits_u64(x: int) -> bool {
    0 <= x <= u64::MAX
}

impl TransformerShape {
    /// Every intermediate product and sum of the count fits in `u64`.
    pub open spec fn in_u64_range(self) -> bool {
        &&& fits_u64(self.hidden * self.heads)
        &&& fits_u64(self.hidden * self.heads * self.head_dim)
        &&& fits_u64(self.hidden * self.kv_heads)
        &&& fits_u64(self.hidden * self.kv_heads * self.head_dim)
        &&& fits_u64(self.heads * self.head_dim)
        &&& fits_u64(self.heads * self.head_dim * self.hidden)
        &&& fits_u64(self.hidden * self.heads * self.head_dim + self.hidden * self.kv_heads * self.head_dim)
        &&& fits_u64(self.hidden * self.heads * self.head_dim + self.hidden * self.kv_heads * self.head_dim
            + self.hidden * self.kv_heads * self.head_dim)
        &&& fits_u64(attention_per_layer(self))
        &&& fits_u64(self.layers * attention_per_layer(self))
        &&& fits_u64(self.hidden * self.ffn)
        &&& fits_u64(self.ffn * self.hidden)
        &&& fits_u64(mlp_per_layer(self))
        &&& fits_u64(self.layers * mlp_per_layer(self))
        &&& fits_u64(self.layers * 2)
        &&& fits_u64(self.layers * 2 + 1)
        &&& fits_u64((self.layers * 2 + 1) * self.hidden)
    }

    /// Whether `param_count` can be computed in `u64` steps.
    pub fn check_in_u64_range(&self) -> (r: bool)
        ensures
            r == self.in_u64_range(),
    {
        let t1a = match self.hidden.checked_mul(self.heads) { Some(v) => v, None => return false };
        let t1 = match t1a.checked_mul(self.head_dim) { Some(v) => v, None => return false };
        let t2a = match self.hidden.checked_mul(self.kv_heads) { Some(v) => v, None => return false };
        let t2 = match t2a.checked_mul(self.head_dim) { Some(v) => v, None => return false };
        let t4a = match self.heads.checked_mul(self.head_dim) { Some(v) => v, None => return false };
        let t4 = match t4a.checked_mul(self.hidden) { Some(v) => v, None => return false };
        let s1 = match t1.checked_add(t2) { Some(v) => v, None => return false };
        let s2 = match s1.checked_add(t2) { Some(v) => v, None => return false };
        let s3 = match s2.checked_add(t4) { Some(v) => v, None => return false };
        let _attn = match self.layers.checked_mul(s3) { Some(v) => v, None => return false };
        let m1 = match self.hidden.checked_mul(self.ffn) { Some(v) => v, None => return false };
        let m2 = match self.ffn.checked_mul(self.hidden) { Some(v) => v, None => return false };
        let ms = match m1.checked_add(m2) { Some(v) => v, None => return false };
        let _mlp = match self.layers.checked_mul(ms) { Some(v) => v, None => return false };
        let n1 = match self.layers.checked_mul(2) { Some(v) => v, None => return false };
        let n2 = match n1.checked_add(1) { Some(v) => v, None => return false };
        let _norms = match n2.checked_mul(self.hidden) { Some(v) => v, None => return false };
        true
    }

    /// The parameter count, each term computed in `u64` and the four terms
    /// summed exactly.
    pub fn param_count(&self) -> (n: u128)
        requires
            self.in_u64_range(),
        ensures
            n == transformer_param_total(*self),
    {
        let attn = self.layers * (self.hidden * self.heads * self.head_dim + self.hidden
            * self.kv_heads * self.head_dim + self.hidden * self.kv_heads * self.head_dim
            + self.heads * self.head_dim * self.hidden);
        let mlp = self.layers * (self.hidden * self.ffn + self.ffn * self.hidden);
        let norms = (self.layers * 2 + 1) * self.hidden;
        self.embed as u128 + attn as u128 + mlp as u128 + norms as u128
    }
}


pub open spec fn at_least_one(x: u64) -> u64 {
    if x >= 1 {
        x
    } else {
        1
    }
}

pub open spec fn or_default(x: Option<u64>, d: u64) -> u64 {
    match x {
        Some(v) => v,
        None => d,
    }
}

/// The embedding count `vocab * hidden` of a model configuration fits in
/// `u64` (the vocabulary defaults to 32000).
pub open spec fn config_embed_in_range(arch: ArchHints, vocab: Option<u64>) -> bool {
    match (arch.num_hidden_layers, arch.hidden_size, arch.num_attention_heads) {
        (Some(_), Some(hidden), Some(_)) => or_default(vocab, 32000) * hidden <= u64::MAX,
        _ => true,
    }
}

/// The shape of a model configuration with layers, hidden size and heads:
/// KV heads default to the heads, the head dimension to `hidden / heads`
/// (heads counted as at least one), the intermediate size to `4 * hidden`
/// (saturating), the vocabulary to 32000.
pub open spec fn config_shape_of(arch: ArchHints, vocab: Option<u64>, intermediate: Option<u64>) -> Option<
    TransformerShape,
> {
    match (arch.num_hidden_layers, arch.hidden_size, arch.num_attention_heads) {
        (Some(layers), Some(hidden), Some(heads)) => Some(
            TransformerShape {
                layers,
                hidden,
                heads,
                kv_heads: or_default(arch.num_key_value_heads, heads),
                head_dim: or_default(arch.head_dim, (hidden / at_least_one(heads)) as u64),
                ffn: or_default(
                    intermediate,
                    if hidden * 4 > u64::MAX {
                        u64::MAX
                    } else {
                        (hidden * 4) as u64
                    },
                ),
                embed: (or_default(vocab, 32000) * hidden) as u64,
            },
        ),
        _ => None,
    }
}

/// Whether `config_shape` can form the embedding count without overflow.
pub fn config_embed_in_range_exec(arch: &ArchHints, vocab: Option<u64>) -> (r: bool)
    ensures
        r == config_embed_in_range(*arch, vocab),
{
    match (arch.num_hidden_layers, arch.hidden_size, arch.num_attention_heads) {
        (Some(_), Some(hidden), Some(_)) => {
            let v = match vocab {
                Some(v) => v,
                None => 32000,
            };
            v.checked_mul(hidden).is_some()
        },
        _ => true,
    }
}

/// The transformer shape that a model configuration describes, when it
/// gives the layer count, hidden size and attention heads.
pub fn config_shape(arch: &ArchHints, vocab: Option<u64>, intermediate: Option<u64>) -> (r: Option<
    TransformerShape,
>)
    requires
        config_embed_in_range(*arch, vocab),
    ensures
        r == config_shape_of(*arch, vocab, intermediate),
{
    match (arch.num_hidden_layers, arch.hidden_size, arch.num_attention_heads) {
        (Some(layers), Some(hidden), Some(heads)) => {
            let v = match vocab {
                Some(v) => v,
                None => 32000,
            };
            let ffn = match intermediate {
                Some(i) => i,
                None => match hidden.checked_mul(4) {
                    Some(x) => x,
                    None => u64::MAX,
                },
            };
            let kv_heads = match arch.num_key_value_heads {
                Some(k) => k,
                None => heads,
            };
            let divisor = if heads >= 1 {
                heads
            } else {
                1
            };
            let head_dim = match arch.head_dim {
                Some(d) => d,
                None => hidden / divisor,
            };
            Some(TransformerShape { layers, hidden, heads, kv_heads, head_dim, ffn, embed: v * hidden })
        },
        _ => None,
    }
}

// ------------------------------------------------------------------
// Laws
// ------------------------------------------------------------------
/// Filling keeps every field already known and takes each missing one from
/// the other hints; filling again from the same hints changes nothing.
pub proof fn law_fill_keeps_known_fields(a: ArchHints, b: ArchHints)
    ensures
        a.num_hidden_layers is Some ==> filled_from(a, b).num_hidden_layers == a.num_hidden_layers,
        a.num_hidden_layers is None ==> filled_from(a, b).num_hidden_layers == b.num_hidden_layers,
        a.hidden_size is Some ==> filled_from(a, b).hidden_size == a.hidden_size,
        a.hidden_size is None ==> filled_from(a, b).hidden_size == b.hidden_size,
        a.num_attention_heads is Some ==> filled_from(a, b).num_attention_heads
            == a.num_attention_heads,
        a.num_attention_heads is None ==> filled_from(a, b).num_attention_heads
            == b.num_attention_heads,
        a.num_key_value_heads is Some ==> filled_from(a, b).num_key_value_heads
            == a.num_key_value_heads,
        a.num_key_value_heads is None ==> filled_from(a, b).num_key_value_heads
            == b.num_key_value_heads,
        a.head_dim is Some ==> filled_from(a, b).head_dim == a.head_dim,
        a.head_dim is None ==> filled_from(a, b).head_dim == b.head_dim,
        filled_from(filled_from(a, b), b) == filled_from(a, b),
{
}

/// The KV-cache shape exists exactly when the layer count and hidden size
/// are known.  It keeps the layers, the KV heads and the head dimension that
/// are given; a missing KV-head count is an eighth of the attention heads
/// (32 when those are missing too), at least one; a missing head dimension
/// is the hidden size over the attention heads, or 128 with zero heads.
pub proof fn law_kv_cache_shape_defaults(arch: ArchHints)
    ensures
        kv_cache_shape_of(arch) is Some <==> (arch.num_hidden_layers is Some
            && arch.hidden_size is Some),
        kv_cache_shape_of(arch) matches Some(s) ==> {
            let heads: int = match arch.num_attention_heads {
                Some(h) => h as int,
                None => 32,
            };
            &&& s.layers == arch.num_hidden_layers->0
            &&& (arch.num_key_value_heads matches Some(k) ==> s.kv_heads == k)
            &&& (arch.num_key_value_heads is None && heads >= 8 ==> s.kv_heads == heads / 8)
            &&& (arch.num_key_value_heads is None && heads < 8 ==> s.kv_heads == 1)
            &&& (arch.head_dim matches Some(d) ==> s.head_dim == d)
            &&& (arch.head_dim is None && heads > 0 ==> s.head_dim == (arch.hidden_size->0 as int) / heads)
            &&& (arch.head_dim is None && heads == 0 ==> s.head_dim == 128)
        },
{
}

/// The parameter count in closed form: embeddings, then per layer twice
/// `hidden * heads * head_dim` (Q and O), twice `hidden * kv_heads *
/// head_dim` (K and V), twice `hidden * ffn` (the MLP) and two norms of
/// `hidden`, then a final norm.
pub proof fn law_param_total_closed_form(s: TransformerShape)
    ensures
        transformer_param_total(s) == s.embed + s.layers * (2 * s.hidden * s.heads * s.head_dim + 2
            * s.hidden * s.kv_heads * s.head_dim + 2 * s.hidden * s.ffn + 2 * s.hidden)
            + s.hidden,
{
    let (l, h, q, k, d, f) = (
        s.layers as int,
        s.hidden as int,
        s.heads as int,
        s.kv_heads as int,
        s.head_dim as int,
        s.ffn as int,
    );
    assert(l * (h * q * d + h * k * d + h * k * d + q * d * h) + l * (h * f + f * h) + (l * 2 + 1)
        * h == l * (2 * h * q * d + 2 * h * k * d + 2 * h * f + 2 * h) + h) by (nonlinear_arith);
}

/// A configuration's shape keeps the layers, hidden size and heads it
/// gives; KV heads default to the heads, the head dimension to the hidden
/// size over the heads (a zero head count read as one), the intermediate
/// size to four times the hidden size (saturating at the `u64` maximum) and
/// the vocabulary to 32000, whose product with the hidden size is the
/// embedding count.
pub proof fn law_config_shape_defaults(arch: ArchHints, vocab: Option<u64>, intermediate: Option<u64>)
    requires
        config_embed_in_range(arch, vocab),
    ensures
        config_shape_of(arch, vocab, intermediate) is Some <==> (arch.num_hidden_layers is Some
            && arch.hidden_size is Some && arch.num_attention_heads is Some),
        config_shape_of(arch, vocab, intermediate) matches Some(s) ==> {
            let hidden = arch.hidden_size->0;
            let heads = arch.num_attention_heads->0;
            &&& s.layers == arch.num_hidden_layers->0
            &&& s.hidden == hidden
            &&& s.heads == heads
            &&& s.kv_heads == (match arch.num_key_value_heads {
                Some(k) => k,
                None => heads,
            })
            &&& (arch.head_dim matches Some(d) ==> s.head_dim == d)
            &&& (arch.head_dim is None && heads > 0 ==> s.head_dim == hidden / heads)
            &&& (arch.head_dim is None && heads == 0 ==> s.head_dim == hidden)
            &&& (intermediate matches Some(i) ==> s.ffn == i)
            &&& (intermediate is None && 4 * hidden <= u64::MAX ==> s.ffn == 4 * hidden)
            &&& (intermediate is None && 4 * hidden > u64::MAX ==> s.ffn == u64::MAX)
            &&& (vocab matches Some(v) ==> s.embed == v * hidden)
            &&& (vocab is None ==> s.embed == 32000 * hidden)
        },
{
    if let Some(sh) = config_shape_of(arch, vocab, intermediate) {
        let hidden = arch.hidden_size->0;
        let heads = arch.num_attention_heads->0;
        assert(sh.layers == arch.num_hidden_layers->0);
        assert(arch.head_dim is None && heads > 0 ==> sh.head_dim == hidden / heads);
        if heads == 0 {
            assert(at_least_one(heads) == 1);
            assert(hidden / 1 == hidden) by (nonlinear_arith);
        }
        assert(intermediate is None && 4 * hidden <= u64::MAX ==> sh.ffn == 4 * hidden);
        assert(vocab matches Some(v) ==> sh.embed == v * hidden);
        assert(vocab is None ==> sh.embed == 32000 * hidden);
    }
}

} // verus!
