use openw8s::gguf::{parse_gguf_prefix, GgufError, MetaValue};
use openw8s::vram::ArchHints;

fn push_u32(buf: &mut Vec<u8>, v: u32) {
    buf.extend_from_slice(&v.to_le_bytes());
}

fn push_u64(buf: &mut Vec<u8>, v: u64) {
    buf.extend_from_slice(&v.to_le_bytes());
}

fn push_string(buf: &mut Vec<u8>, s: &str) {
    push_u64(buf, s.len() as u64);
    buf.extend_from_slice(s.as_bytes());
}

fn header(version: u32, tensors: u64, kvs: u64) -> Vec<u8> {
    let mut buf = b"GGUF".to_vec();
    push_u32(&mut buf, version);
    push_u64(&mut buf, tensors);
    push_u64(&mut buf, kvs);
    buf
}

fn kv_u32(buf: &mut Vec<u8>, key: &str, v: u32) {
    push_string(buf, key);
    push_u32(buf, 4);
    push_u32(buf, v);
}

fn kv_u64(buf: &mut Vec<u8>, key: &str, v: u64) {
    push_string(buf, key);
    push_u32(buf, 10);
    push_u64(buf, v);
}

fn kv_string(buf: &mut Vec<u8>, key: &str, v: &str) {
    push_string(buf, key);
    push_u32(buf, 8);
    push_string(buf, v);
}

fn small_llama() -> Vec<u8> {
    let mut buf = header(3, 291, 5);
    kv_string(&mut buf, "general.architecture", "llama");
    kv_string(&mut buf, "general.name", "Tiny");
    kv_u32(&mut buf, "llama.block_count", 2);
    kv_u64(&mut buf, "llama.embedding_length", 8);
    kv_u32(&mut buf, "llama.attention.head_count", 2);
    buf
}

#[test]
fn rejects_bad_magic() {
    assert!(parse_gguf_prefix(&[0, 1, 2, 3, 4, 5, 6, 7]).is_err());
}

#[test]
fn bad_magic_is_reported_as_such() {
    assert_eq!(parse_gguf_prefix(&[0, 1, 2, 3, 4, 5, 6, 7]).unwrap_err(), GgufError::BadMagic);
}

#[test]
fn short_header_is_unexpected_end() {
    assert_eq!(parse_gguf_prefix(b"GGU").unwrap_err(), GgufError::UnexpectedEnd);
    let buf = header(3, 0, 0);
    assert_eq!(parse_gguf_prefix(&buf[..20]).unwrap_err(), GgufError::UnexpectedEnd);
}

#[test]
fn unsupported_versions_are_refused() {
    assert_eq!(parse_gguf_prefix(&header(1, 0, 0)).unwrap_err(), GgufError::UnsupportedVersion(1));
    assert_eq!(parse_gguf_prefix(&header(4, 0, 0)).unwrap_err(), GgufError::UnsupportedVersion(4));
    assert!(parse_gguf_prefix(&header(2, 0, 0)).is_ok());
}

#[test]
fn reads_header_and_metadata() {
    let info = parse_gguf_prefix(&small_llama()).unwrap();
    assert_eq!(info.version, 3);
    assert_eq!(info.tensor_count, 291);
    assert_eq!(info.metadata.len(), 5);
    assert_eq!(info.architecture(), Some("llama"));
    assert_eq!(info.model_name(), Some("Tiny"));
    assert_eq!(info.get_u64("llama.block_count"), Some(2));
    assert_eq!(info.get_u64("llama.embedding_length"), Some(8));
    assert_eq!(info.get_string("llama.block_count"), None);
    assert_eq!(info.get_u64("missing"), None);
}

#[test]
fn summary_label_names_version_tensors_arch_and_name() {
    let info = parse_gguf_prefix(&small_llama()).unwrap();
    assert_eq!(info.summary_label(), "GGUFv3 \u{b7} 291 tensors \u{b7} llama \u{b7} Tiny");
    let bare = parse_gguf_prefix(&header(2, 0, 0)).unwrap();
    assert_eq!(bare.summary_label(), "GGUFv2 \u{b7} 0 tensors \u{b7} unknown-arch");
}

#[test]
fn arch_hints_read_prefixed_keys() {
    let info = parse_gguf_prefix(&small_llama()).unwrap();
    let hints = info.arch_hints();
    assert_eq!(
        hints,
        ArchHints {
            num_hidden_layers: Some(2),
            hidden_size: Some(8),
            num_attention_heads: Some(2),
            num_key_value_heads: None,
            head_dim: None,
        }
    );
}

#[test]
fn arch_hints_fall_back_to_any_key_with_the_suffix() {
    let mut buf = header(3, 0, 2);
    kv_string(&mut buf, "general.architecture", "qwen2");
    kv_u32(&mut buf, "other.block_count", 28);
    let info = parse_gguf_prefix(&buf).unwrap();
    assert_eq!(info.arch_hints().num_hidden_layers, Some(28));
}

#[test]
fn estimate_from_arch_uses_defaults() {
    let info = parse_gguf_prefix(&small_llama()).unwrap();
    assert!(info.arch_estimate_in_range());
    // embed 32000*8, attention 2*(4*64) with kv heads = heads, mlp 2*(256+256), norms 5*8
    assert_eq!(info.estimate_params_from_arch(), Some(257_576));
    let bare = parse_gguf_prefix(&header(3, 0, 0)).unwrap();
    assert_eq!(bare.estimate_params_from_arch(), None);
}

#[test]
fn declared_parameter_count_is_preferred_in_key_order() {
    let mut buf = header(3, 0, 2);
    kv_u64(&mut buf, "general.parameters", 5);
    kv_u64(&mut buf, "general.param_count", 7);
    let info = parse_gguf_prefix(&buf).unwrap();
    assert_eq!(info.parameter_count(), Some(7));
}

#[test]
fn later_pairs_override_earlier_ones() {
    let mut buf = header(3, 0, 2);
    kv_u32(&mut buf, "k", 1);
    kv_u32(&mut buf, "k", 2);
    let info = parse_gguf_prefix(&buf).unwrap();
    assert_eq!(info.get_u64("k"), Some(2));
}

#[test]
fn signed_values_and_negative_integers() {
    let mut buf = header(3, 0, 2);
    push_string(&mut buf, "neg");
    push_u32(&mut buf, 11);
    buf.extend_from_slice(&(-5i64).to_le_bytes());
    push_string(&mut buf, "pos");
    push_u32(&mut buf, 1);
    buf.push(7);
    let info = parse_gguf_prefix(&buf).unwrap();
    assert!(matches!(info.metadata[0].value, MetaValue::I64(-5)));
    assert_eq!(info.get_u64("neg"), None);
    assert_eq!(info.get_u64("pos"), Some(7));
}

#[test]
fn truncated_value_keeps_pairs_read_so_far() {
    let full = small_llama();
    let cut = &full[..full.len() - 2];
    let info = parse_gguf_prefix(cut).unwrap();
    assert_eq!(info.metadata.len(), 4);
}

#[test]
fn truncated_key_is_an_error() {
    let mut buf = header(3, 0, 1);
    push_u64(&mut buf, 10);
    buf.extend_from_slice(b"abc");
    assert_eq!(parse_gguf_prefix(&buf).unwrap_err(), GgufError::UnexpectedEnd);
}

#[test]
fn huge_string_array_stops_the_walk() {
    let mut buf = header(3, 0, 2);
    kv_u32(&mut buf, "first", 1);
    push_string(&mut buf, "tokenizer.ggml.tokens");
    push_u32(&mut buf, 9);
    push_u32(&mut buf, 8);
    push_u64(&mut buf, 100_000);
    let info = parse_gguf_prefix(&buf).unwrap();
    assert_eq!(info.metadata.len(), 1);
}

#[test]
fn small_arrays_are_walked_through() {
    let mut buf = header(3, 0, 2);
    push_string(&mut buf, "arr");
    push_u32(&mut buf, 9);
    push_u32(&mut buf, 4);
    push_u64(&mut buf, 3);
    push_u32(&mut buf, 1);
    push_u32(&mut buf, 2);
    push_u32(&mut buf, 3);
    kv_u32(&mut buf, "after", 9);
    let info = parse_gguf_prefix(&buf).unwrap();
    assert!(matches!(info.metadata[0].value, MetaValue::Other));
    assert_eq!(info.get_u64("after"), Some(9));
}

#[test]
fn unknown_value_type_is_an_error() {
    let mut buf = header(3, 0, 1);
    push_string(&mut buf, "odd");
    push_u32(&mut buf, 99);
    buf.push(0);
    assert_eq!(parse_gguf_prefix(&buf).unwrap_err(), GgufError::UnknownValueType(99));
}

#[test]
fn oversized_string_stops_the_walk() {
    let mut buf = header(3, 0, 2);
    kv_u32(&mut buf, "first", 1);
    push_string(&mut buf, "big");
    push_u32(&mut buf, 8);
    push_u64(&mut buf, 2_000_000);
    let info = parse_gguf_prefix(&buf).unwrap();
    assert_eq!(info.metadata.len(), 1);
}

#[test]
fn complete_prefix_reads_like_the_whole_file() {
    let prefix = small_llama();
    let mut whole = prefix.clone();
    whole.extend_from_slice(&[0xAB; 64]);
    let a = parse_gguf_prefix(&prefix).unwrap();
    let b = parse_gguf_prefix(&whole).unwrap();
    assert_eq!(a.metadata.len(), b.metadata.len());
    assert_eq!(a.summary_label(), b.summary_label());
    assert_eq!(a.arch_hints(), b.arch_hints());
}

#[test]
fn floats_are_kept_as_bits() {
    let mut buf = header(3, 0, 1);
    push_string(&mut buf, "f");
    push_u32(&mut buf, 6);
    buf.extend_from_slice(&1.5f32.to_bits().to_le_bytes());
    let info = parse_gguf_prefix(&buf).unwrap();
    match &info.metadata[0].value {
        MetaValue::Float32Bits(b) => assert_eq!(f32::from_bits(*b), 1.5),
        other => panic!("unexpected {other:?}"),
    }
}
