use openw8s::vram::{
    config_embed_in_range_exec, config_shape, kv_cache_shape, ArchHints, KvCacheShape, Quantization,
    TransformerShape,
};

#[test]
fn quantization_labels_and_order() {
    assert_eq!(
        Quantization::all().map(|q| q.label()),
        ["FP16", "INT8/AWQ", "INT4/Q4"]
    );
}

#[test]
fn kv_shape_needs_layers_and_hidden() {
    assert_eq!(kv_cache_shape(&ArchHints::default()), None);
    let h = ArchHints { num_hidden_layers: Some(32), ..ArchHints::default() };
    assert_eq!(kv_cache_shape(&h), None);
}

#[test]
fn kv_shape_defaults() {
    let h = ArchHints { num_hidden_layers: Some(32), hidden_size: Some(4096), ..ArchHints::default() };
    assert_eq!(kv_cache_shape(&h), Some(KvCacheShape { layers: 32, kv_heads: 4, head_dim: 128 }));
    let h = ArchHints {
        num_hidden_layers: Some(2),
        hidden_size: Some(64),
        num_attention_heads: Some(4),
        ..ArchHints::default()
    };
    assert_eq!(kv_cache_shape(&h), Some(KvCacheShape { layers: 2, kv_heads: 1, head_dim: 16 }));
    let h = ArchHints {
        num_hidden_layers: Some(2),
        hidden_size: Some(64),
        num_attention_heads: Some(0),
        ..ArchHints::default()
    };
    assert_eq!(kv_cache_shape(&h), Some(KvCacheShape { layers: 2, kv_heads: 1, head_dim: 128 }));
}

#[test]
fn explicit_kv_fields_win() {
    let h = ArchHints {
        num_hidden_layers: Some(28),
        hidden_size: Some(3584),
        num_attention_heads: Some(28),
        num_key_value_heads: Some(4),
        head_dim: Some(128),
    };
    assert_eq!(kv_cache_shape(&h), Some(KvCacheShape { layers: 28, kv_heads: 4, head_dim: 128 }));
}

#[test]
fn fill_missing_keeps_known_fields() {
    let mut a = ArchHints { hidden_size: Some(1), ..ArchHints::default() };
    let b = ArchHints {
        num_hidden_layers: Some(2),
        hidden_size: Some(3),
        num_attention_heads: None,
        num_key_value_heads: Some(5),
        head_dim: Some(6),
    };
    a.fill_missing_from(&b);
    assert_eq!(
        a,
        ArchHints {
            num_hidden_layers: Some(2),
            hidden_size: Some(1),
            num_attention_heads: None,
            num_key_value_heads: Some(5),
            head_dim: Some(6),
        }
    );
}

#[test]
fn transformer_param_count() {
    let s = TransformerShape { layers: 2, hidden: 8, heads: 2, kv_heads: 1, head_dim: 4, ffn: 32, embed: 256_000 };
    assert!(s.check_in_u64_range());
    assert_eq!(s.param_count(), 257_448);
    let big = TransformerShape { layers: 2, hidden: u64::MAX, heads: 2, kv_heads: 1, head_dim: 1, ffn: 1, embed: 0 };
    assert!(!big.check_in_u64_range());
}

#[test]
fn config_shape_defaults() {
    let arch = ArchHints {
        num_hidden_layers: Some(2),
        hidden_size: Some(8),
        num_attention_heads: Some(2),
        ..ArchHints::default()
    };
    assert!(config_embed_in_range_exec(&arch, None));
    assert_eq!(
        config_shape(&arch, None, None),
        Some(TransformerShape { layers: 2, hidden: 8, heads: 2, kv_heads: 2, head_dim: 4, ffn: 32, embed: 256_000 })
    );
    assert_eq!(
        config_shape(&arch, Some(10), Some(20)),
        Some(TransformerShape { layers: 2, hidden: 8, heads: 2, kv_heads: 2, head_dim: 4, ffn: 20, embed: 80 })
    );
    let no_heads = ArchHints { num_attention_heads: Some(0), ..arch };
    assert_eq!(config_shape(&no_heads, Some(1), Some(1)).unwrap().head_dim, 8);
    let missing = ArchHints { num_attention_heads: None, ..arch };
    assert_eq!(config_shape(&missing, None, None), None);
    let huge = ArchHints { hidden_size: Some(u64::MAX), ..arch };
    assert!(!config_embed_in_range_exec(&huge, None));
    assert_eq!(config_shape(&huge, Some(1), None).unwrap().ffn, u64::MAX);
}
