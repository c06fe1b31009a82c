use orichalcum::llm::{DeepSeekMessage, GeminiContent, LLMError, choose_provider,
    resolve_model, validate_model_choice, ProviderChoice};
use orichalcum::hashing::{hex16, sort_strings};
use orichalcum::llm::{DeepSeekConfig, GeminiConfig, OllamaConfig};
use orichalcum::signature::Signature;

#[test]
fn test_signature_parsing() {
    let sig: Signature = "context, question -> answer".parse().unwrap();
    assert_eq!(sig.inputs.len(), 2);
    assert_eq!(sig.inputs[0].name, "context");
    assert_eq!(sig.inputs[1].name, "question");
    assert_eq!(sig.outputs.len(), 1);
    assert_eq!(sig.outputs[0].name, "answer");
}

#[test]
fn test_signature_hash() {
    let sig1: Signature = "a, b -> c".parse().unwrap();
    let sig2: Signature = "a, b -> c".parse().unwrap();
    let sig3: Signature = "b, a -> c".parse().unwrap();

    assert_eq!(sig1.structural_hash(), sig2.structural_hash());
    // order matters for structural identity
    assert_ne!(sig1.structural_hash(), sig3.structural_hash());
}

#[test]
fn test_signature_parsing_rejects_malformed() {
    assert!("no separator at all".parse::<Signature>().is_err());
    assert!("a -> b -> c".parse::<Signature>().is_err());
    let err = "nope".parse::<Signature>().unwrap_err();
    assert_eq!(err, "Signature must contain exactly one '->'".to_string());
}

#[test]
fn test_signature_parsing_trims_and_drops_empty() {
    let sig: Signature = "  a ,, b  ->  c ,  ".parse().unwrap();
    assert_eq!(sig.inputs.len(), 2);
    assert_eq!(sig.inputs[0].name, "a");
    assert_eq!(sig.inputs[1].name, "b");
    assert_eq!(sig.outputs.len(), 1);
    assert_eq!(sig.outputs[0].name, "c");
    assert_eq!(sig.inputs[0].description, "");
}

#[test]
fn test_structural_hash_ignores_descriptions() {
    let plain = Signature::new().input("doc", "").output("summary", "");
    let described = Signature::new()
        .input("doc", "the document to summarise")
        .output("summary", "a short summary");
    assert_eq!(plain.structural_hash(), described.structural_hash());

    let other = Signature::new().input("doc", "").output("headline", "");
    assert_ne!(plain.structural_hash(), other.structural_hash());
}

#[test]
fn test_hex_rendering_is_stable() {
    let h = hex16(0);
    assert_eq!(h, "0000000000000000".to_string());
    assert_eq!(hex16(0xdeadbeef), "00000000deadbeef".to_string());
}

#[test]
fn test_sort_strings_orders_bytewise() {
    let sorted = sort_strings(vec![
        "pear".to_string(),
        "apple".to_string(),
        "banana".to_string(),
        "apple".to_string(),
    ]);
    assert_eq!(
        sorted,
        vec![
            "apple".to_string(),
            "apple".to_string(),
            "banana".to_string(),
            "pear".to_string(),
        ]
    );
}

#[test]
fn test_deepseek_message_constructors() {
    let system = DeepSeekMessage::system("You are helpful");
    assert_eq!(system.role, "system");

    let user = DeepSeekMessage::user("Hello");
    assert_eq!(user.role, "user");

    let assistant = DeepSeekMessage::assistant("Hi there!");
    assert_eq!(assistant.role, "assistant");
}

#[test]
fn test_gemini_content_constructors() {
    let user = GeminiContent::user("hi");
    assert_eq!(user.role, Some("user".to_string()));
    assert_eq!(user.parts.len(), 1);
    assert_eq!(user.parts[0].text, Some("hi".to_string()));

    let model = GeminiContent::model("answer");
    assert_eq!(model.role, Some("model".to_string()));

    let system = GeminiContent::system("be brief");
    assert_eq!(system.role, None);
    assert_eq!(system.parts[0].text, Some("be brief".to_string()));
}

#[test]
fn test_llm_error_messages() {
    assert_eq!(
        LLMError::ProviderNotConfigured("DeepSeek not configured".to_string()).message(),
        "Provider not configured: DeepSeek not configured".to_string()
    );
    assert_eq!(
        LLMError::InvalidModel("nope".to_string()).message(),
        "Invalid model: nope".to_string()
    );
    assert_eq!(
        LLMError::HttpError("timed out".to_string()).message(),
        "HTTP request error: timed out".to_string()
    );
}

#[test]
fn test_resolve_model_and_validation() {
    let default_model = "deepseek-reasoner".to_string();
    assert_eq!(
        resolve_model(Some("deepseek-chat".to_string()), &default_model),
        "deepseek-chat".to_string()
    );
    assert_eq!(resolve_model(None, &default_model), "deepseek-reasoner".to_string());

    let known = Some(vec!["deepseek-chat".to_string(), "deepseek-reasoner".to_string()]);
    assert!(validate_model_choice(&known, &"deepseek-chat".to_string()).is_ok());
    match validate_model_choice(&known, &"missing-model".to_string()) {
        Err(LLMError::InvalidModel(m)) => assert_eq!(m, "missing-model".to_string()),
        _ => panic!("expected an invalid-model refusal"),
    }
    // with no fetched list, nothing can be validated and the call proceeds
    assert!(validate_model_choice(&None, &"anything".to_string()).is_ok());
}

#[test]
fn test_choose_provider_priority() {
    assert_eq!(choose_provider(true, true, true), Some(ProviderChoice::UseDeepSeek));
    assert_eq!(choose_provider(false, true, true), Some(ProviderChoice::UseGemini));
    assert_eq!(choose_provider(false, false, true), Some(ProviderChoice::UseOllama));
    assert_eq!(choose_provider(false, false, false), None);
}

#[test]
fn test_default_configs() {
    let o = OllamaConfig::default();
    assert_eq!(o.host, "http://localhost:11434");
    assert_eq!(o.default_model, "phi4");
    let d = DeepSeekConfig::default();
    assert_eq!(d.base_url, "https://api.deepseek.com");
    assert_eq!(d.default_model, "deepseek-reasoner");
    let g = GeminiConfig::default();
    assert_eq!(g.base_url, "https://generativelanguage.googleapis.com");
    assert_eq!(g.default_model, "gemini-3-flash-preview");
}
