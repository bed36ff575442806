use openw8s::inspect::{
    check_hub_status, check_model_access, largest_gguf_size, model_name_from_id,
    normalize_repo_id, pick_gguf_filename, split_size_tokens, total_weight_bytes, GatedFlag,
    HfSibling, HubError, RepoFiles,
};

fn sib(name: &str, size: Option<u64>) -> HfSibling {
    HfSibling { rfilename: name.to_string(), size }
}

#[test]
fn normalizes_hf_urls() {
    assert_eq!(
        normalize_repo_id("https://huggingface.co/Qwen/Qwen2.5-7B-Instruct"),
        "Qwen/Qwen2.5-7B-Instruct"
    );
    assert_eq!(normalize_repo_id("Qwen/Qwen2.5-7B-Instruct"), "Qwen/Qwen2.5-7B-Instruct");
}

#[test]
fn normalizes_other_url_forms() {
    assert_eq!(normalize_repo_id("  http://hf.co/org/name/  "), "org/name");
    assert_eq!(normalize_repo_id("www.huggingface.co/org/name"), "org/name");
    assert_eq!(normalize_repo_id("https://https://huggingface.co/org/m"), "org/m");
    assert_eq!(normalize_repo_id("///org/m//"), "org/m");
    assert_eq!(normalize_repo_id(""), "");
}

#[test]
fn model_name_is_last_segment() {
    assert_eq!(model_name_from_id("Qwen/Qwen2.5-7B-Instruct"), "Qwen2.5-7B-Instruct");
    assert_eq!(model_name_from_id("plain"), "plain");
    assert_eq!(model_name_from_id("org/"), "");
}

#[test]
fn size_tokens_from_names() {
    assert_eq!(split_size_tokens("TheBloke/TinyLlama-1.1B-Chat-v1.0-GGUF"), vec!["1.1B"]);
    assert_eq!(split_size_tokens("tinyllama-1.1b-chat-v1.0.Q4_K_M.gguf"), vec!["1.1b"]);
    assert_eq!(split_size_tokens("Llama-3-70B-and-405B"), vec!["70B", "405B"]);
    assert_eq!(split_size_tokens("mistral-7b-instruct-v0.2"), vec!["7b"]);
    assert_eq!(split_size_tokens("no digits"), Vec::<String>::new());
    assert_eq!(split_size_tokens("größe-12m"), vec!["12m"]);
}

#[test]
fn picks_preferred_quant_first() {
    let sibs = vec![
        sib("model.Q8_0.gguf", Some(900)),
        sib("model.Q4_K_M.gguf", Some(400)),
        sib("README.md", None),
    ];
    assert_eq!(pick_gguf_filename(&sibs), Some("model.Q4_K_M.gguf"));
}

#[test]
fn picks_preferred_quant_in_tag_order() {
    let sibs = vec![sib("a-q4_0.gguf", Some(1)), sib("b-Q5_K_M.GGUF", Some(2))];
    assert_eq!(pick_gguf_filename(&sibs), Some("b-Q5_K_M.GGUF"));
}

#[test]
fn falls_back_to_largest_gguf() {
    let sibs = vec![
        sib("a.gguf", Some(10)),
        sib("b.gguf", Some(30)),
        sib("c.gguf", Some(30)),
        sib("d.bin", Some(99)),
    ];
    assert_eq!(pick_gguf_filename(&sibs), Some("c.gguf"));
    assert_eq!(pick_gguf_filename(&[sib("x.safetensors", Some(1))]), None);
}

#[test]
fn classifies_repository_files() {
    let sibs = vec![sib("model.safetensors.index.json", None), sib("a.bin", None)];
    let f = RepoFiles::classify(&sibs);
    assert!(f.has_index && f.has_bin && !f.has_gguf && !f.has_safetensors);
    assert_eq!(f.format_label(), "safetensors");
    let g = RepoFiles::classify(&[sib("m.gguf", None)]);
    assert_eq!(g.format_label(), "GGUF");
    let b = RepoFiles::classify(&[sib("m.bin", None)]);
    assert_eq!(b.format_label(), "pytorch (.bin)");
    let u = RepoFiles::classify(&[sib("README.md", None)]);
    assert_eq!(u.format_label(), "unknown");
    let both = RepoFiles::classify(&[sib("m.gguf", None), sib("m.safetensors", None)]);
    assert_eq!(both.format_label(), "safetensors");
}

#[test]
fn sizes_of_weight_files() {
    let sibs = vec![
        sib("a.GGUF", Some(50)),
        sib("b.gguf", Some(7)),
        sib("c.gguf", None),
        sib("w.safetensors", Some(u64::MAX)),
        sib("w2.Bin", Some(3)),
        sib("x.txt", Some(100)),
    ];
    assert_eq!(largest_gguf_size(&sibs), 50);
    assert_eq!(total_weight_bytes(&sibs), u64::MAX as u128 + 3);
    assert_eq!(largest_gguf_size(&[]), 0);
}

#[test]
fn hub_statuses() {
    assert_eq!(check_hub_status(200), Ok(()));
    assert_eq!(check_hub_status(401), Err(HubError::AccessDenied(401)));
    assert_eq!(check_hub_status(403), Err(HubError::AccessDenied(403)));
    assert_eq!(check_hub_status(404), Err(HubError::NotFound));
    assert_eq!(check_hub_status(500), Err(HubError::HttpStatus(500)));
    assert_eq!(check_hub_status(302), Err(HubError::HttpStatus(302)));
}

#[test]
fn model_access() {
    assert_eq!(check_model_access(true, &GatedFlag::Bool(false)), Err(HubError::Private));
    assert_eq!(check_model_access(false, &GatedFlag::Bool(true)), Ok(true));
    assert_eq!(check_model_access(false, &GatedFlag::Text("auto".to_string())), Ok(true));
    assert_eq!(check_model_access(false, &GatedFlag::Text("false".to_string())), Ok(false));
    assert_eq!(check_model_access(false, &GatedFlag::Text(String::new())), Ok(false));
    assert_eq!(check_model_access(false, &GatedFlag::Other), Ok(false));
}

#[test]
fn tags_are_matched_on_upper_cased_names() {
    let sibs = vec![sib("big.gguf", Some(100)), sib("small.q4_k_m.gguf", Some(1))];
    assert_eq!(pick_gguf_filename(&sibs), Some("small.q4_k_m.gguf"));
}

#[test]
fn trimming_removes_unicode_white_space() {
    assert_eq!(normalize_repo_id("\u{3000}org/m\u{a0}"), "org/m");
    for code in 0u32..0x3100 {
        if let Some(c) = char::from_u32(code) {
            let input = format!("{c}org/m{c}");
            let expected = input.trim().trim_matches('/').to_string();
            assert_eq!(normalize_repo_id(&input), expected, "char U+{code:04X}");
        }
    }
}
