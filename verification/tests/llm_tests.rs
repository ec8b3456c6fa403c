use tais_core::llm::{
    default_max_tokens, default_true, key_maskable, known_models, lookup_message_text, mask_key, ChatMessage,
    LlmConfigRequest, LlmError, LlmRegistry, LookupStep, MessageRole, ModelLookup, ProviderType,
};

fn req(name: &str, provider: ProviderType, is_default: bool, is_active: bool) -> LlmConfigRequest {
    LlmConfigRequest {
        name: name.into(),
        provider,
        base_url: "http://localhost".into(),
        api_key: "sk-1234567890abcdef".into(),
        model: "m".into(),
        is_default,
        is_active,
    }
}

#[test]
fn message_constructors() {
    let m = ChatMessage::user("hi");
    assert_eq!(m.role, MessageRole::User);
    assert_eq!(m.content, "hi");
    assert_eq!(ChatMessage::assistant("a").role, MessageRole::Assistant);
    assert_eq!(ChatMessage::system("s").role, MessageRole::System);
}

#[test]
fn defaults() {
    assert_eq!(default_max_tokens(), 4096);
    assert!(default_true());
}

#[test]
fn key_masking() {
    assert_eq!(mask_key("short"), "****");
    assert_eq!(mask_key("12345678"), "****");
    assert_eq!(mask_key("sk-1234567890abcdef"), "sk-1...cdef");
}

#[test]
fn provider_names() {
    assert_eq!(ProviderType::Anthropic.name(), "anthropic");
    assert_eq!(ProviderType::from_name("ollama"), Some(ProviderType::Ollama));
    assert_eq!(ProviderType::from_name("OpenAI"), None);
}

#[test]
fn first_config_becomes_default() {
    let mut reg = LlmRegistry::new();
    let a = reg.create_config(req("a", ProviderType::OpenAI, false, true)).unwrap();
    assert!(a.is_default);
    assert!(a.id.starts_with("openai-"));
    assert_eq!(a.id.len(), "openai-".len() + 8);
    let b = reg.create_config(req("b", ProviderType::Ollama, false, true)).unwrap();
    assert!(!b.is_default);
    assert_eq!(reg.fallback_chain(), vec![a.id.clone(), b.id.clone()]);
}

#[test]
fn new_default_replaces_old_and_leads_chain() {
    let mut reg = LlmRegistry::new();
    let a = reg.create_config(req("a", ProviderType::OpenAI, false, true)).unwrap();
    let b = reg.create_config(req("b", ProviderType::Anthropic, true, true)).unwrap();
    let c = reg.create_config(req("c", ProviderType::Ollama, false, false)).unwrap();
    assert!(!reg.get_config(&a.id).unwrap().is_default);
    assert!(reg.get_config(&b.id).unwrap().is_default);
    assert_eq!(reg.fallback_chain(), vec![b.id.clone(), a.id.clone()]);
    let st = reg.status();
    assert_eq!(st.total_configs, 3);
    assert_eq!(st.active_configs, 2);
    assert_eq!(st.connected_count, 3);
    let listed = reg.list_configs();
    assert_eq!(listed[0].api_key, "sk-1...cdef");
    assert_eq!(listed[2].id, c.id);
}

#[test]
fn update_and_delete() {
    let mut reg = LlmRegistry::new();
    let a = reg.create_config(req("a", ProviderType::OpenAI, false, true)).unwrap();
    let b = reg.create_config(req("b", ProviderType::OpenAI, false, true)).unwrap();
    let u = reg.update_config(&b.id, req("b2", ProviderType::Anthropic, true, true)).unwrap();
    assert_eq!(u.name, "b2");
    assert!(u.is_default);
    assert!(!reg.get_config(&a.id).unwrap().is_default);
    match reg.update_config("missing", req("x", ProviderType::OpenAI, false, true)) {
        Err(LlmError::ConfigError(m)) => assert_eq!(m, "config not found: missing"),
        _ => panic!("expected a config error"),
    }
    reg.delete_config(&a.id).unwrap();
    assert!(reg.get_config(&a.id).is_none());
    assert!(reg.delete_config(&a.id).is_err());
    assert_eq!(reg.fallback_chain(), vec![b.id.clone()]);
}

#[test]
fn default_request_for_unknown_id_still_clears_defaults() {
    let mut reg = LlmRegistry::new();
    let a = reg.create_config(req("a", ProviderType::OpenAI, false, true)).unwrap();
    assert!(a.is_default);
    assert!(reg.update_config("nope", req("x", ProviderType::OpenAI, true, true)).is_err());
    assert!(!reg.get_config(&a.id).unwrap().is_default);
}

#[test]
fn model_lookup_messages() {
    assert_eq!(lookup_message_text(3, &Vec::new()), "✅ 连接成功 — 3 个模型可用");
    assert_eq!(
        lookup_message_text(2, &vec!["/models returned 0 models".to_string(), "chat test HTTP 400".to_string()]),
        "✅ 连接成功 (2 个备选模型。获取列表: /models returned 0 models; chat test HTTP 400)"
    );
}

#[test]
fn key_masking_precondition() {
    assert!(key_maskable("short"));
    assert!(key_maskable("sk-abcdefghijkl"));
    assert!(!key_maskable("密钥abcdefgh"));
    assert!(!key_maskable("abcdefgh密钥"));
    assert!(key_maskable("abcd密钥密钥wxyz"));
    assert_eq!(mask_key("abcd密钥密钥wxyz"), "abcd...wxyz");
}

#[test]
fn model_lookup_needs_a_base_url() {
    assert!(ModelLookup::start("///").is_none());
    assert!(ModelLookup::start("").is_none());
    assert_eq!(ModelLookup::start("https://api.deepseek.com/v1//").unwrap().base_url(), "https://api.deepseek.com/v1");
}

#[test]
fn model_lookup_uses_the_servers_list() {
    let mut l = ModelLookup::start("https://x.example/v1").unwrap();
    match l.models_listed(true, vec!["m1".to_string(), "m2".to_string()]) {
        LookupStep::Finish(r) => {
            assert!(r.ok);
            assert_eq!(r.models, vec!["m1".to_string(), "m2".to_string()]);
            assert_eq!(r.message, "✅ 连接成功 — 2 个模型可用");
            assert_eq!(r.source, "api");
        }
        LookupStep::ProbeChat => panic!("expected the lookup to finish"),
    }
}

#[test]
fn model_lookup_falls_back_to_known_names() {
    let mut l = ModelLookup::start("https://api.deepseek.com").unwrap();
    assert!(matches!(l.models_listed(false, vec!["ignored".to_string()]), LookupStep::ProbeChat));
    let r = l.chat_answered(400, "bad model");
    assert!(r.ok);
    assert_eq!(r.models, vec!["deepseek-chat".to_string(), "deepseek-reasoner".to_string()]);
    assert_eq!(r.source, "known");
    assert_eq!(r.message, "✅ 连接成功 (2 个备选模型。获取列表: /models returned 0 models; chat test: HTTP 400 bad model)");

    let mut u = ModelLookup::start("http://localhost:11434/v1").unwrap();
    assert!(matches!(u.models_unreachable("timeout"), LookupStep::ProbeChat));
    let r = u.chat_answered(503, "");
    assert!(!r.ok);
    assert_eq!(r.models.len(), 4);
    assert_eq!(r.message, "/models: timeout; chat test HTTP 503");
    assert_eq!(r.source, "known_fallback");

    let mut w = ModelLookup::start("https://x.example").unwrap();
    l = ModelLookup::start("https://x.example").unwrap();
    let _ = l.models_listed(true, Vec::new());
    let r = l.chat_answered(200, "");
    assert!(r.ok);
    assert_eq!(r.message, "✅ 连接成功 (4 个备选模型。获取列表: /models returned 0 models)");
    let _ = w.models_unreachable("refused");
    let r = w.chat_unreachable("refused");
    assert!(!r.ok);
    assert_eq!(r.message, "/models: refused; chat test: refused");
}

#[test]
fn known_models_by_url() {
    assert_eq!(known_models("https://api.openai.com/v1").len(), 4);
    assert!(known_models("https://api.anthropic.com").is_empty());
    assert_eq!(known_models("http://my-ollama:8080")[0], "llama3");
    assert_eq!(known_models("https://other.example")[2], "gpt-4o");
}
