use openw8s::binary64::Binary64;
use openw8s::manifest::{
    Field, Hardware, Lineage, LineageKind, Manifest, ManifestError, Metadata, Runtime,
};
use serde_yaml::Value;

fn text(v: &Value, key: &str) -> Option<String> {
    v.get(key).and_then(|x| x.as_str()).map(|s| s.to_string())
}

fn gb(v: &Value, key: &str) -> Binary64 {
    Binary64(v.get(key).and_then(|x| x.as_f64()).unwrap().to_bits())
}

/// Reads the manifest fields from YAML text by calls on `serde_yaml::Value`.
fn manifest_from_yaml_fields(yaml: &str) -> Manifest {
    let root: Value = serde_yaml::from_str(yaml).unwrap();
    let md = root.get("metadata").unwrap();
    let hw = root.get("hardware").unwrap();
    let rt = root.get("runtime").unwrap();
    let lineage = md.get("lineage").map(|l| Lineage {
        kind: LineageKind::parse(l.get("kind").unwrap().as_str().unwrap()).unwrap(),
        parent: text(l, "parent"),
    });
    Manifest {
        version: text(&root, "version").unwrap(),
        metadata: Metadata {
            name: text(md, "name").unwrap(),
            base_model: text(md, "base_model").unwrap(),
            lineage,
            parent_branch: text(md, "parent_branch"),
            author: text(md, "author").unwrap(),
            license: text(md, "license").unwrap(),
        },
        hardware: Hardware {
            min_vram_gb: gb(hw, "min_vram_gb"),
            recommended_vram_gb: gb(hw, "recommended_vram_gb"),
            quantization: text(hw, "quantization").unwrap(),
            context_length: hw.get("context_length").unwrap().as_u64().unwrap(),
        },
        runtime: Runtime { engine: text(rt, "engine").unwrap(), command: text(rt, "command").unwrap() },
        evals: root.get("evals").cloned(),
    }
}

fn from_yaml(yaml: &str) -> Result<Manifest, ManifestError> {
    manifest_from_yaml_fields(yaml).accept()
}

fn gbs(x: f64) -> Binary64 {
    Binary64(x.to_bits())
}

fn demo() -> Manifest {
    Manifest {
        version: "0.1".to_string(),
        metadata: Metadata {
            name: "demo".to_string(),
            base_model: "org/model".to_string(),
            lineage: None,
            parent_branch: None,
            author: "community".to_string(),
            license: "apache-2.0".to_string(),
        },
        hardware: Hardware {
            min_vram_gb: gbs(4.0),
            recommended_vram_gb: gbs(8.0),
            quantization: "FP16".to_string(),
            context_length: 4096,
        },
        runtime: Runtime { engine: "ollama".to_string(), command: "ollama run demo".to_string() },
        evals: None,
    }
}

#[test]
fn accepts_valid_manifest() {
    let yaml = r#"
version: "0.1"
metadata:
  name: demo
  base_model: Qwen/Qwen2.5-7B-Instruct
  author: community
  license: apache-2.0
  lineage:
    kind: finetune_of
    parent: Qwen/Qwen2.5-7B
hardware:
  min_vram_gb: 8
  recommended_vram_gb: 16
  quantization: INT4
  context_length: 8192
runtime:
  engine: vllm
  command: vllm serve Qwen/Qwen2.5-7B-Instruct
"#;
    let m = from_yaml(yaml).unwrap();
    assert_eq!(m.effective_lineage().kind, LineageKind::FinetuneOf);
}

#[test]
fn promotes_parent_branch() {
    let yaml = r#"
version: "0.1"
metadata:
  name: demo
  base_model: org/model
  parent_branch: org/base
  author: community
  license: apache-2.0
hardware:
  min_vram_gb: 4
  recommended_vram_gb: 8
  quantization: FP16
  context_length: 4096
runtime:
  engine: ollama
  command: ollama run demo
"#;
    let m = from_yaml(yaml).unwrap();
    assert_eq!(m.effective_lineage().kind, LineageKind::FinetuneOf);
    assert_eq!(m.effective_lineage().parent.as_deref(), Some("org/base"));
}

#[test]
fn rejects_bad_engine() {
    let yaml = r#"
version: "0.1"
metadata:
  name: demo
  base_model: org/model
  author: community
  license: apache-2.0
hardware:
  min_vram_gb: 4
  recommended_vram_gb: 8
  quantization: FP16
  context_length: 4096
runtime:
  engine: foobar
  command: echo hi
"#;
    assert!(from_yaml(yaml).is_err());
}

#[test]
fn demo_is_valid() {
    assert_eq!(demo().validate(), Ok(()));
}

#[test]
fn each_rule_has_its_error() {
    let mut m = demo();
    m.version = "0.2".to_string();
    assert_eq!(m.validate(), Err(ManifestError::UnsupportedVersion));

    let mut m = demo();
    m.metadata.name = "   ".to_string();
    assert_eq!(m.validate(), Err(ManifestError::EmptyField(Field::MetadataName)));

    let mut m = demo();
    m.metadata.base_model = "org/".to_string();
    assert_eq!(m.validate(), Err(ManifestError::NotHfRepo(Field::MetadataBaseModel)));

    let mut m = demo();
    m.metadata.base_model = "model".to_string();
    assert_eq!(m.validate(), Err(ManifestError::NotHfRepo(Field::MetadataBaseModel)));

    let mut m = demo();
    m.metadata.author = String::new();
    assert_eq!(m.validate(), Err(ManifestError::EmptyField(Field::MetadataAuthor)));

    let mut m = demo();
    m.metadata.license = "\t".to_string();
    assert_eq!(m.validate(), Err(ManifestError::EmptyField(Field::MetadataLicense)));

    let mut m = demo();
    m.metadata.lineage = Some(Lineage { kind: LineageKind::Base, parent: Some("org/x".to_string()) });
    assert_eq!(m.validate(), Err(ManifestError::BaseWithParent));

    let mut m = demo();
    m.metadata.lineage = Some(Lineage { kind: LineageKind::MergeOf, parent: Some("  ".to_string()) });
    assert_eq!(m.validate(), Err(ManifestError::MissingParent(LineageKind::MergeOf)));

    let mut m = demo();
    m.metadata.lineage = Some(Lineage { kind: LineageKind::QuantizeOf, parent: Some("/x".to_string()) });
    assert_eq!(m.validate(), Err(ManifestError::NotHfRepo(Field::LineageParent)));

    let mut m = demo();
    m.hardware.min_vram_gb = gbs(0.0);
    assert_eq!(m.validate(), Err(ManifestError::MinVramNotPositive));

    let mut m = demo();
    m.hardware.min_vram_gb = gbs(-0.0);
    assert_eq!(m.validate(), Err(ManifestError::MinVramNotPositive));

    let mut m = demo();
    m.hardware.recommended_vram_gb = gbs(2.0);
    assert_eq!(m.validate(), Err(ManifestError::RecommendedBelowMin));

    let mut m = demo();
    m.hardware.context_length = 0;
    assert_eq!(m.validate(), Err(ManifestError::ZeroContextLength));

    let mut m = demo();
    m.hardware.quantization = "Q3".to_string();
    assert_eq!(m.validate(), Err(ManifestError::QuantizationNotAllowed));

    let mut m = demo();
    m.runtime.engine = "VLLM".to_string();
    assert_eq!(m.validate(), Err(ManifestError::EngineNotAllowed));

    let mut m = demo();
    m.runtime.command = " ".to_string();
    assert_eq!(m.validate(), Err(ManifestError::EmptyField(Field::RuntimeCommand)));
}

#[test]
fn quantization_compares_ignoring_ascii_case() {
    let mut m = demo();
    m.hardware.quantization = "gguf-q4_k_m".to_string();
    assert_eq!(m.validate(), Ok(()));
}

#[test]
fn nan_minimum_passes_the_memory_rules() {
    let mut m = demo();
    m.hardware.min_vram_gb = gbs(f64::NAN);
    assert_eq!(m.validate(), Ok(()));
}

#[test]
fn equal_minimum_and_recommended_memory_is_valid() {
    let mut m = demo();
    m.hardware.recommended_vram_gb = gbs(4.0);
    assert_eq!(m.validate(), Ok(()));
}

#[test]
fn normalize_trims_and_lowercases() {
    let mut m = demo();
    m.runtime.engine = "  VLLM\n".to_string();
    m.runtime.command = "  vllm serve x  ".to_string();
    m.hardware.quantization = " int4 ".to_string();
    m.normalize();
    assert_eq!(m.runtime.engine, "vllm");
    assert_eq!(m.runtime.command, "vllm serve x");
    assert_eq!(m.hardware.quantization, "int4");
    assert_eq!(m.validate(), Ok(()));
}

#[test]
fn normalize_is_idempotent_on_an_example() {
    let mut m = demo();
    m.metadata.parent_branch = Some("  org/base ".to_string());
    m.runtime.engine = " Ollama ".to_string();
    m.normalize();
    let once = (m.metadata.lineage.clone(), m.metadata.parent_branch.clone(), m.runtime.engine.clone());
    m.normalize();
    let twice = (m.metadata.lineage.clone(), m.metadata.parent_branch.clone(), m.runtime.engine.clone());
    assert_eq!(once, twice);
    assert_eq!(
        once.0,
        Some(Lineage { kind: LineageKind::FinetuneOf, parent: Some("org/base".to_string()) })
    );
    assert_eq!(once.1.as_deref(), Some("  org/base "));
}

#[test]
fn normalize_mirrors_lineage_parent() {
    let mut m = demo();
    m.metadata.lineage = Some(Lineage { kind: LineageKind::QuantizeOf, parent: Some("org/p".to_string()) });
    m.normalize();
    assert_eq!(m.metadata.parent_branch.as_deref(), Some("org/p"));
}

#[test]
fn blank_parent_branch_is_not_promoted() {
    let mut m = demo();
    m.metadata.parent_branch = Some("   ".to_string());
    m.normalize();
    assert_eq!(m.metadata.lineage, None);
    assert_eq!(m.effective_lineage(), Lineage { kind: LineageKind::Base, parent: None });
}

#[test]
fn lineage_kind_names_round_trip() {
    for k in [LineageKind::Base, LineageKind::FinetuneOf, LineageKind::QuantizeOf, LineageKind::MergeOf] {
        assert_eq!(LineageKind::parse(k.as_str()).unwrap(), k);
    }
}

#[test]
fn lineage_kind_short_forms_and_errors() {
    assert_eq!(LineageKind::parse(" Finetune ").unwrap(), LineageKind::FinetuneOf);
    assert_eq!(LineageKind::parse("QUANT").unwrap(), LineageKind::QuantizeOf);
    assert_eq!(LineageKind::parse("merge").unwrap(), LineageKind::MergeOf);
    let err = LineageKind::parse("  Soup ").unwrap_err();
    assert_eq!(err.text, "soup");
    assert_eq!(LineageKind::default(), LineageKind::Base);
}

#[test]
fn field_paths() {
    assert_eq!(Field::MetadataBaseModel.path(), "metadata.base_model");
    assert_eq!(Field::LineageParent.path(), "lineage.parent");
}

#[test]
fn evals_are_carried_through() {
    let mut m = demo();
    m.evals = Some(serde_yaml::from_str("mmlu: 0.7").unwrap());
    let accepted = m.accept().unwrap();
    assert!(accepted.evals.is_some());
}

#[test]
fn accepted_manifest_accepts_again_unchanged() {
    let mut m = demo();
    m.runtime.engine = " Docker ".to_string();
    m.metadata.lineage = Some(Lineage { kind: LineageKind::MergeOf, parent: Some(" org/a ".to_string()) });
    let once = m.accept().unwrap();
    let twice = once.clone().accept().unwrap();
    assert_eq!(once.runtime.engine, "docker");
    assert_eq!(twice.runtime.engine, once.runtime.engine);
    assert_eq!(twice.metadata.lineage, once.metadata.lineage);
    assert_eq!(twice.metadata.parent_branch, once.metadata.parent_branch);
    assert_eq!(twice.metadata.parent_branch.as_deref(), Some(" org/a "));
}
