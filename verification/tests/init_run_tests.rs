use openw8s::binary64::Binary64;
use openw8s::init::default_command_for;
use openw8s::run::{vram_preflight, Preflight, PreflightFailure, ProbeReading, ProbeSource};

#[test]
fn vllm_commands() {
    assert_eq!(
        default_command_for("vllm", "org/m", "AWQ", 8192),
        "vllm serve org/m --quantization awq --max-model-len 8192 --gpu-memory-utilization 0.95"
    );
    assert_eq!(
        default_command_for("vllm", "org/m", "INT8", 4096),
        "vllm serve org/m --quantization fp8 --max-model-len 4096 --gpu-memory-utilization 0.95"
    );
    assert_eq!(
        default_command_for("vllm", "org/m", "FP16", 0),
        "vllm serve org/m --max-model-len 0 --gpu-memory-utilization 0.95"
    );
}

#[test]
fn other_engine_commands() {
    assert_eq!(
        default_command_for("ollama", "org/m", "INT4", 1),
        "bash scripts/ollama-generate.sh org/m \"Hello from openw8s\""
    );
    assert_eq!(
        default_command_for("llamacpp", "org/m", "INT4", 16384),
        "llama-server -m model.gguf -c 16384 -ngl 99"
    );
    assert_eq!(
        default_command_for("docker", "org/m", "INT4", 1),
        "docker run --gpus all -p 8000:8000 vllm/vllm-openai:latest --model org/m"
    );
    assert_eq!(default_command_for("tgi", "org/m", "INT4", 1), "echo 'Configure a command for org/m'");
}

fn reading(meets: bool) -> ProbeReading {
    ProbeReading { free_gb: Binary64(8.0f64.to_bits()), source: ProbeSource::NvidiaSmi, meets_minimum: meets }
}

#[test]
fn preflight_outcomes() {
    let free_gb = Binary64(8.0f64.to_bits());
    let source = ProbeSource::NvidiaSmi;
    assert_eq!(vram_preflight(None, false, false), Ok(Preflight::SkippedNoProbe));
    assert_eq!(vram_preflight(Some(reading(true)), false, false), Ok(Preflight::Clear { free_gb, source }));
    assert_eq!(vram_preflight(Some(reading(false)), true, false), Ok(Preflight::ForcedBelow { free_gb, source }));
    assert_eq!(vram_preflight(Some(reading(false)), false, true), Ok(Preflight::WarnedBelow { free_gb, source }));
    assert_eq!(vram_preflight(Some(reading(false)), false, false), Err(PreflightFailure { free_gb, source }));
    assert_eq!(ProbeSource::AppleUnified.label(), "apple-unified");
}
