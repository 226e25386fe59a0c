use adk_runtime::opencode_go::{debug_text_of, OpenCodeGoApi, OpenCodeGoConfig};

#[derive(Debug, Clone, Copy, PartialEq)]
enum OpenAIReasoningEffort {
    High,
}

#[derive(Debug, Clone, PartialEq)]
enum ThinkingMode {
    Enabled { budget_tokens: u32 },
}

#[derive(Debug, Clone, Copy, PartialEq)]
enum Effort {
    High,
}

#[derive(Debug, Clone, PartialEq)]
struct RetryConfig {
    enabled: bool,
    max_retries: u32,
    backoff_multiplier: f32,
}

impl RetryConfig {
    fn disabled() -> Self {
        RetryConfig { enabled: false, ..RetryConfig::default() }
    }
}

impl Default for RetryConfig {
    fn default() -> Self {
        RetryConfig { enabled: true, max_retries: 3, backoff_multiplier: 2.0 }
    }
}

type Config = OpenCodeGoConfig<OpenAIReasoningEffort, ThinkingMode, Effort, RetryConfig>;

#[test]
fn published_models_have_their_api() {
    for model in [
        "grok-4.7",
        "grok-4.6",
        "gpt-6-luna",
        "gpt-5.6-luna",
        "muse-spark-1.3-contributor",
        "muse-spark-1.2-contributor",
    ] {
        assert_eq!(OpenCodeGoApi::for_model(model), Some(OpenCodeGoApi::Responses), "{model}");
    }
    for model in [
        "minimax-m3",
        "minimax-m2.7",
        "minimax-m2.5",
        "qwen3.8-max",
        "qwen3.8-flash",
        "qwen3.7-max",
        "qwen3.7-plus",
        "qwen3.6-plus",
    ] {
        assert_eq!(OpenCodeGoApi::for_model(model), Some(OpenCodeGoApi::Messages), "{model}");
    }
    for model in [
        "glm-5.3-flash",
        "glm-5.3",
        "glm-5.2",
        "glm-5.1",
        "kimi-k3",
        "kimi-k2.7-code",
        "kimi-k2.6",
        "longcat-2.0",
        "deepseek-v4.1-flash",
        "deepseek-v4-pro",
        "deepseek-v4-flash",
        "deepseek-v4-flash-vision-exp",
        "mimo-v2.6-flash",
        "mimo-v2.6-pro",
        "mimo-v2.5",
        "mimo-v2.5-pro",
        "hy4-preview",
        "hy3",
        "space-bunny-free",
        "longcat-2.5-preview-free",
    ] {
        assert_eq!(
            OpenCodeGoApi::for_model(model),
            Some(OpenCodeGoApi::ChatCompletions),
            "{model}"
        );
    }
}

#[test]
fn unknown_models_have_no_api_until_one_is_chosen() {
    for model in ["future-model", "", "hy", "hy33", "Grok-4.7", "glm-5.3 "] {
        assert_eq!(OpenCodeGoApi::for_model(model), None, "{model}");
    }
    let config = Config::new("test-key", "future-model");
    assert_eq!(config.api, None);
    assert_eq!(config.with_api(OpenCodeGoApi::Messages).api, Some(OpenCodeGoApi::Messages));
}

#[test]
fn a_new_config_has_the_official_defaults() {
    let config = Config::new("api-key", "deepseek-v4.1-flash".to_string());
    assert_eq!(config.api_key, "api-key");
    assert_eq!(config.model, "deepseek-v4.1-flash");
    assert_eq!(config.base_url, "https://opencode.ai/zen/go/v1");
    assert_eq!(config.api, None);
    assert_eq!(config.user_agent, "");
    assert_eq!(config.session_id, "");
    assert_eq!(config.reasoning_effort, None);
    assert_eq!(config.thinking, None);
    assert_eq!(config.anthropic_effort, None);
    assert_eq!(config.retry, RetryConfig::default());
}

#[test]
fn each_setting_changes_its_own_field() {
    let key = "api-key".to_string();
    let config = Config::new(&key, "minimax-m3")
        .with_user_agent("example-coding-agent/1.0")
        .with_session_id("conversation-42".to_string())
        .with_base_url(format!("{}/zen/go/v1/", "http://127.0.0.1"))
        .with_reasoning_effort(OpenAIReasoningEffort::High)
        .with_anthropic_thinking(ThinkingMode::Enabled { budget_tokens: 2048 })
        .with_anthropic_effort(Effort::High)
        .with_retry_config(RetryConfig::disabled());
    assert_eq!(config.api_key, "api-key");
    assert_eq!(config.model, "minimax-m3");
    assert_eq!(config.user_agent, "example-coding-agent/1.0");
    assert_eq!(config.session_id, "conversation-42");
    assert_eq!(config.base_url, "http://127.0.0.1/zen/go/v1/");
    assert_eq!(config.api, None);
    assert_eq!(config.reasoning_effort, Some(OpenAIReasoningEffort::High));
    assert_eq!(config.thinking, Some(ThinkingMode::Enabled { budget_tokens: 2048 }));
    assert_eq!(config.anthropic_effort, Some(Effort::High));
    assert_eq!(config.retry, RetryConfig::disabled());
    assert_ne!(config.retry, RetryConfig::default());

    let copy = config.clone();
    assert_eq!(copy.session_id, config.session_id);
    assert_eq!(copy.base_url, config.base_url);
    assert_eq!(copy.api_key, config.api_key);
    assert_eq!(copy.model, config.model);
    assert_eq!(copy.thinking, config.thinking);
    assert_eq!(copy.reasoning_effort, config.reasoning_effort);
    assert_eq!(copy.anthropic_effort, config.anthropic_effort);
    assert_eq!(copy.retry, config.retry);
    assert_eq!(config.with_session_id("other").session_id, "other");
}

#[test]
fn debug_omits_credentials() {
    for key in [
        "k3yk3yk3yk3yk3yk3yk3yk3yk3yk3y",
        "ABCDEFGHIJKLMNOPQRSTUVWXYZabcdefghijklmnopqrstuvwxyz01234567",
    ] {
        let config = Config::new(key, "minimax-m3");
        let debug = config.debug_text();
        assert!(!debug.contains(key), "{debug}");
        let other = Config::new("other", "minimax-m3")
            .with_user_agent("agent")
            .with_base_url("https://example.com/v1");
        assert_eq!(debug, other.debug_text());
    }
}

#[test]
fn the_debug_text_names_model_and_api() {
    let config = Config::new("k", "a\"b");
    assert_eq!(config.debug_text(), "OpenCodeGoConfig { model: \"a\\\"b\", api: None, .. }");
    let config = config.with_api(OpenCodeGoApi::ChatCompletions);
    assert_eq!(
        config.debug_text(),
        "OpenCodeGoConfig { model: \"a\\\"b\", api: Some(ChatCompletions), .. }"
    );
    assert_eq!(
        debug_text_of("\"m\"", Some(OpenCodeGoApi::Responses)),
        "OpenCodeGoConfig { model: \"m\", api: Some(Responses), .. }"
    );
    assert_eq!(
        debug_text_of("\"m\"", Some(OpenCodeGoApi::Messages)),
        "OpenCodeGoConfig { model: \"m\", api: Some(Messages), .. }"
    );
}
