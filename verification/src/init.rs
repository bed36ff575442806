//! Defaults offered when a manifest is created interactively.
use vstd::prelude::*;
use vstd::string::*;
use crate::text::{decimal, decimal_string, same_text};

verus! {

/// The vLLM quantization flag for a quantization name.
pub open spec fn vllm_quant_flag(q: Seq<char>) -> Seq<char> {
    if q == "AWQ"@ || q == "INT4"@ {
        " --quantization awq"@
    } else if q == "INT8"@ {
        " --quantization fp8"@
    } else {
        Seq::<char>::empty()
    }
}

/// The command suggested for an engine, a repo id, a quantization and a
/// context length.
pub open spec fn default_command(engine: Seq<char>, repo: Seq<char>, q: Seq<char>, context: u64) -> Seq<char> {
    if engine == "vllm"@ {
        "vllm serve "@ + repo + vllm_quant_flag(q) + " --max-model-len "@ + decimal(context as nat)
            + " --gpu-memory-utilization 0.95"@
    } else if engine == "ollama"@ {
        "bash scripts/ollama-generate.sh "@ + repo + " \"Hello from openw8s\""@
    } else if engine == "llamacpp"@ {
        "llama-server -m model.gguf -c "@ + decimal(context as nat) + " -ngl 99"@
    } else if engine == "docker"@ {
        "docker run --gpus all -p 8000:8000 vllm/vllm-openai:latest --model "@ + repo
    } else {
        "echo 'Configure a command for "@ + repo + "'"@
    }
}

/// The execution command proposed for a new manifest.
pub fn default_command_for(engine: &str, repo: &str, quantization: &str, context: u64) -> (r: String)
    ensures
        r@ == default_command(engine@, repo@, quantization@, context),
{
    if same_text(engine, "vllm") {
        let mut s: String = "vllm serve ".to_owned();
        s.append(repo);
        let ghost before_flag = s@;
        if same_text(quantization, "AWQ") || same_text(quantization, "INT4") {
            s.append(" --quantization awq");
        } else if same_text(quantization, "INT8") {
            s.append(" --quantization fp8");
        } else {
            assert(before_flag + Seq::<char>::empty() =~= before_flag);
        }
        s.append(" --max-model-len ");
        let c = decimal_string(context);
        s.append(c.as_str());
        s.append(" --gpu-memory-utilization 0.95");
        s
    } else if same_text(engine, "ollama") {
        let mut s: String = "bash scripts/ollama-generate.sh ".to_owned();
        s.append(repo);
        s.append(" \"Hello from openw8s\"");
        s
    } else if same_text(engine, "llamacpp") {
        let mut s: String = "llama-server -m model.gguf -c ".to_owned();
        let c = decimal_string(context);
        s.append(c.as_str());
        s.append(" -ngl 99");
        s
    } else if same_text(engine, "docker") {
        let mut s: String = "docker run --gpus all -p 8000:8000 vllm/vllm-openai:latest --model ".to_owned();
        s.append(repo);
        s
    } else {
        let mut s: String = "echo 'Configure a command for ".to_owned();
        s.append(repo);
        s.append("'");
        s
    }
}

/// The vLLM command serves the repo with the AWQ flag for AWQ and INT4,
/// the FP8 flag for INT8 and no flag for any other quantization, then the
/// context length and a 0.95 GPU memory share.
pub proof fn law_vllm_command(repo: Seq<char>, q: Seq<char>, context: u64)
    ensures
        (q == "AWQ"@ || q == "INT4"@) ==> default_command("vllm"@, repo, q, context)
            == "vllm serve "@ + repo + " --quantization awq"@ + " --max-model-len "@ + decimal(
            context as nat,
        ) + " --gpu-memory-utilization 0.95"@,
        q == "INT8"@ ==> default_command("vllm"@, repo, q, context) == "vllm serve "@ + repo
            + " --quantization fp8"@ + " --max-model-len "@ + decimal(context as nat)
            + " --gpu-memory-utilization 0.95"@,
        !(q == "AWQ"@ || q == "INT4"@ || q == "INT8"@) ==> default_command(
            "vllm"@,
            repo,
            q,
            context,
        ) == "vllm serve "@ + repo + " --max-model-len "@ + decimal(context as nat)
            + " --gpu-memory-utilization 0.95"@,
{
    reveal_strlit("AWQ");
    reveal_strlit("INT4");
    reveal_strlit("INT8");
    assert("INT8"@.len() != "AWQ"@.len());
    assert("INT8"@[3] != "INT4"@[3]);
    if !(q == "AWQ"@ || q == "INT4"@ || q == "INT8"@) {
        assert("vllm serve "@ + repo + Seq::<char>::empty() =~= "vllm serve "@ + repo);
    }
}

/// The other engines: Ollama runs the generation script on the repo,
/// llama.cpp serves `model.gguf` with the context length and every layer on
/// the GPU, Docker runs the vLLM OpenAI image on the repo, and any other
/// engine gets a placeholder naming the repo.  None of them depends on the
/// quantization.
pub proof fn law_other_engine_commands(engine: Seq<char>, repo: Seq<char>, q: Seq<char>, context: u64)
    ensures
        default_command("ollama"@, repo, q, context) == "bash scripts/ollama-generate.sh "@ + repo
            + " \"Hello from openw8s\""@,
        default_command("llamacpp"@, repo, q, context) == "llama-server -m model.gguf -c "@
            + decimal(context as nat) + " -ngl 99"@,
        default_command("docker"@, repo, q, context)
            == "docker run --gpus all -p 8000:8000 vllm/vllm-openai:latest --model "@ + repo,
        !(engine == "vllm"@ || engine == "ollama"@ || engine == "llamacpp"@ || engine
            == "docker"@) ==> default_command(engine, repo, q, context)
            == "echo 'Configure a command for "@ + repo + "'"@,
{
    reveal_strlit("vllm");
    reveal_strlit("ollama");
    reveal_strlit("llamacpp");
    reveal_strlit("docker");
    assert("ollama"@.len() != "vllm"@.len());
    assert("llamacpp"@.len() != "vllm"@.len());
    assert("llamacpp"@.len() != "ollama"@.len());
    assert("docker"@.len() != "vllm"@.len());
    assert("docker"@[0] != "ollama"@[0]);
    assert("docker"@.len() != "llamacpp"@.len());
}

} // verus!
