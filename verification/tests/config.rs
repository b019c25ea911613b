use aabot::config::{Config, EnvOverrides, ProviderConfig};
use aabot::table::StringMap;

fn no_env() -> EnvOverrides {
    EnvOverrides::empty()
}

#[test]
fn test_resolve_defaults() {
    let cfg = Config { model: None, provider: StringMap::new(), mcp: None };
    let resolved = cfg.resolve(&no_env(), None, None, None);
    assert_eq!(resolved.provider, "ollama");
    assert_eq!(resolved.model, "gemma4:31b-cloud");
    assert_eq!(resolved.base_url, "http://localhost:11434");
    assert_eq!(resolved.api_key, "");
}

#[test]
fn test_resolve_from_model_string() {
    let cfg = Config {
        model: Some("ollama/llama3.2".into()),
        provider: StringMap::new(),
        mcp: None,
    };
    let resolved = cfg.resolve(&no_env(), None, None, None);
    assert_eq!(resolved.provider, "ollama");
    assert_eq!(resolved.model, "llama3.2");
    assert_eq!(resolved.base_url, "http://localhost:11434");
}

#[test]
fn test_resolve_model_without_provider_prefix() {
    let cfg = Config {
        model: Some("deepseek-chat".into()),
        provider: StringMap::new(),
        mcp: None,
    };
    let resolved = cfg.resolve(&no_env(), None, None, None);
    assert_eq!(resolved.provider, "ollama");
    assert_eq!(resolved.model, "deepseek-chat");
}

#[test]
fn test_resolve_cli_overrides_file() {
    let cfg = Config {
        model: Some("ollama/llama3.2".into()),
        provider: StringMap::new(),
        mcp: None,
    };
    let resolved = cfg.resolve(&no_env(), Some("openai"), Some("gpt-4o"), Some("https://custom.com/v1"));
    assert_eq!(resolved.provider, "openai");
    assert_eq!(resolved.model, "gpt-4o");
    assert_eq!(resolved.base_url, "https://custom.com/v1");
}

#[test]
fn test_resolve_provider_config_from_file() {
    let mut provider = StringMap::new();
    provider.insert("openai".into(), ProviderConfig {
        api_key: Some("sk-from-file".into()),
        base_url: Some("https://file-url.com/v1".into()),
    });
    let cfg = Config { model: Some("openai/gpt-4o".into()), provider, mcp: None };
    let resolved = cfg.resolve(&no_env(), None, None, None);
    assert_eq!(resolved.api_key, "sk-from-file");
    assert_eq!(resolved.base_url, "https://file-url.com/v1");
}

#[test]
fn resolve_openai_defaults() {
    let cfg = Config::empty();
    let r = cfg.resolve(&no_env(), Some("openai"), None, None);
    assert_eq!(r.model, "gpt-4o-mini");
    assert_eq!(r.base_url, "https://api.openai.com/v1");
}

#[test]
fn resolve_env_priority_and_empty_values() {
    let cfg = Config { model: Some("openai/gpt-4o".into()), provider: StringMap::new(), mcp: None };
    let mut env = no_env();
    env.provider = Some(String::new());
    env.llm_provider = Some("ollama".into());
    env.model = Some("m1".into());
    env.llm_model = Some("m2".into());
    env.llm_api_key = Some("k2".into());
    env.base_url = Some("".into());
    env.llm_base_url = Some("http://b2".into());
    let r = cfg.resolve(&env, None, None, None);
    assert_eq!(r.provider, "ollama");
    assert_eq!(r.model, "m1");
    assert_eq!(r.api_key, "k2");
    assert_eq!(r.base_url, "http://b2");
}

#[test]
fn model_split_at_first_slash() {
    let cfg = Config { model: Some("a/b/c".into()), provider: StringMap::new(), mcp: None };
    let r = cfg.resolve(&no_env(), None, None, None);
    assert_eq!(r.provider, "a");
    assert_eq!(r.model, "b/c");
    assert_eq!(r.base_url, "https://api.openai.com/v1");
}

#[test]
fn string_map_insert_replaces() {
    let mut m: StringMap<u32> = StringMap::new();
    m.insert("x".into(), 1);
    m.insert("y".into(), 2);
    m.insert("x".into(), 3);
    assert_eq!(m.get("x"), Some(&3));
    assert_eq!(m.get("y"), Some(&2));
    assert_eq!(m.get("z"), None);
    assert_eq!(m.len(), 2);
}

#[test]
fn env_values_beat_file() {
    let mut provider = StringMap::new();
    provider.insert(
        "openai".to_string(),
        ProviderConfig { api_key: Some("file-key".into()), base_url: Some("http://file".into()) },
    );
    let cfg = Config { model: Some("openai/gpt-4o".into()), provider, mcp: None };
    let mut env = no_env();
    env.provider = Some("deepseek".into());
    env.model = Some("qwen-max".into());
    env.api_key = Some("env-key".into());
    env.base_url = Some("http://env".into());
    env.llm_provider = Some("legacy".into());
    let r = cfg.resolve(&env, None, None, None);
    assert_eq!(r.provider, "deepseek");
    assert_eq!(r.model, "qwen-max");
    assert_eq!(r.api_key, "env-key");
    assert_eq!(r.base_url, "http://env");
}

#[test]
fn legacy_env_fallback() {
    let cfg = Config { model: Some("openai/gpt-4o".into()), provider: StringMap::new(), mcp: None };
    let mut env = no_env();
    env.llm_provider = Some("ollama".into());
    env.llm_model = Some("qwen".into());
    env.llm_api_key = Some("k".into());
    env.llm_base_url = Some("http://legacy".into());
    let r = cfg.resolve(&env, None, None, None);
    assert_eq!(r.provider, "ollama");
    assert_eq!(r.model, "qwen");
    assert_eq!(r.api_key, "k");
    assert_eq!(r.base_url, "http://legacy");
}
