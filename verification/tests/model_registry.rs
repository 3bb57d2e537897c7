use llm_guard::model_registry::{
    list_models, lookup_model, lookup_normalized, model_registry, TokenizerFamily,
};

#[test]
fn test_lookup_exact_match() {
    let info = lookup_model("gpt-4").unwrap();
    assert_eq!(info.name, "gpt-4");
    assert_eq!(info.context_window, 8192);
}

#[test]
fn test_lookup_with_suffix() {
    let info = lookup_model("llama-3.1-8b-instruct").unwrap();
    assert_eq!(info.name, "llama-3.1-8b");
    assert_eq!(info.tokenizer, TokenizerFamily::Llama);
}

#[test]
fn test_lookup_case_insensitive() {
    let info = lookup_model("GPT-4-TURBO").unwrap();
    assert_eq!(info.name, "gpt-4-turbo");
}

#[test]
fn test_lookup_unknown_model() {
    assert!(lookup_model("unknown-model-xyz").is_none());
}

#[test]
fn test_model_estimate_tokens() {
    let info = lookup_model("gpt-4").unwrap();
    let text = "Hello, world!"; // 13 chars
    let tokens = info.estimate_tokens(text);
    assert_eq!(tokens, 4); // ceil(13 / 4.0) = 4

    let llama_info = lookup_model("llama-3.1-8b").unwrap();
    let llama_tokens = llama_info.estimate_tokens(text);
    assert_eq!(llama_tokens, 4); // ceil(13 / 3.8) = 4
}

#[test]
fn test_list_models() {
    let models = list_models();
    assert!(models.contains(&"gpt-4"));
    assert!(models.contains(&"llama-3.1-8b"));
    assert!(models.contains(&"qwen-2.5-72b"));
}

#[test]
fn list_models_is_sorted_and_complete() {
    let models = list_models();
    assert_eq!(models.len(), 13);
    let mut sorted = models.clone();
    sorted.sort_unstable();
    assert_eq!(models, sorted);
    assert_eq!(models[0], "gpt-3.5-turbo");
    assert_eq!(models[12], "qwen-2.5-7b");
}

#[test]
fn registry_holds_the_known_limits() {
    let registry = model_registry();
    assert_eq!(registry.len(), 13);
    let mistral = lookup_model("mistral-7b").unwrap();
    assert_eq!(mistral.context_window, 32768);
    assert_eq!(mistral.max_input_tokens, Some(24576));
    assert_eq!(mistral.provider, "Mistral AI");
    assert_eq!(mistral.tokenizer, TokenizerFamily::Mistral);
    let qwen = lookup_model("qwen-2.5-72b").unwrap();
    assert_eq!(qwen.context_window, 131072);
    assert_eq!(qwen.provider, "Alibaba");
}

#[test]
fn lookup_strips_each_variant_marker() {
    assert_eq!(lookup_model("llama-3.1-70b-chat").unwrap().name, "llama-3.1-70b");
    assert_eq!(lookup_model("gpt-4o-preview").unwrap().name, "gpt-4o");
    assert_eq!(lookup_model("mistral-7b-instruct-instruct").unwrap().name, "mistral-7b");
    // "gpt-4-turbo" is registered itself, so the exact match wins.
    assert_eq!(lookup_model("gpt-4-turbo").unwrap().context_window, 128000);
    // The markers are removed in a fixed order: "-chat" before "-instruct"
    // is left alone, so only the prefix rule finds the model.
    assert_eq!(lookup_model("qwen-2.5-7b-chat-instruct").unwrap().name, "qwen-2.5-7b");
}

#[test]
fn lookup_by_prefix_takes_the_longest_name() {
    assert_eq!(lookup_model("gpt-4o-mini").unwrap().name, "gpt-4o");
    assert_eq!(lookup_model("gpt-4-0613").unwrap().name, "gpt-4");
    assert_eq!(lookup_model("llama-3.2-3b-q4").unwrap().name, "llama-3.2-3b");
    assert!(lookup_model("gpt").is_none());
    assert!(lookup_model("").is_none());
}

#[test]
fn lookup_normalized_does_not_fold_case() {
    assert!(lookup_normalized("GPT-4X").is_none());
    assert_eq!(lookup_normalized("gpt-4").unwrap().name, "gpt-4");
    // lookup_model puts the name in lower case first.
    assert_eq!(lookup_model("Mixtral-8x7B").unwrap().name, "mixtral-8x7b");
}

#[test]
fn estimate_tokens_rounds_up() {
    let gpt = lookup_model("gpt-4").unwrap();
    assert_eq!(gpt.estimate_tokens(""), 0);
    assert_eq!(gpt.estimate_tokens("a"), 1);
    assert_eq!(gpt.estimate_tokens("abcd"), 1);
    assert_eq!(gpt.estimate_tokens("abcde"), 2);
    let qwen = lookup_model("qwen-2.5-7b").unwrap();
    // 37 bytes at 3.7 bytes per token are exactly 10 tokens.
    assert_eq!(qwen.estimate_tokens(&"x".repeat(37)), 10);
    assert_eq!(qwen.estimate_tokens(&"x".repeat(38)), 11);
    let llama = lookup_model("llama-3.1-8b").unwrap();
    // 19 bytes at 3.8 bytes per token are exactly 5 tokens.
    assert_eq!(llama.estimate_tokens(&"x".repeat(19)), 5);
    assert_eq!(llama.estimate_tokens(&"x".repeat(20)), 6);
    // The length counts bytes, not characters.
    assert_eq!(gpt.estimate_tokens("\u{00e9}\u{00e9}\u{00e9}"), 2);
}

#[test]
fn tokenizer_families_in_tenths() {
    assert_eq!(TokenizerFamily::Gpt.chars_per_token_tenths(), 40);
    assert_eq!(TokenizerFamily::Llama.chars_per_token_tenths(), 38);
    assert_eq!(TokenizerFamily::Qwen.chars_per_token_tenths(), 37);
    assert_eq!(TokenizerFamily::Mistral.chars_per_token_tenths(), 38);
    assert_eq!(TokenizerFamily::Generic.chars_per_token_tenths(), 40);
}
