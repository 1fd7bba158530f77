use tinychat::config::{
    default_backend_flavor, default_supports_reasoning, validate_model_config, AppConfig, AppSettings,
    BackendConfig, BackendFlavor, BackendType, ConfigError, ModelConfig, ProfileTable, RawConfig,
    ServerConfig,
};
use tinychat::profiles::{InferenceProfile, ProfileName};

fn profile(prompt: &str) -> InferenceProfile {
    InferenceProfile {
        system_prompt: prompt.to_string(),
        temperature_bits: 0.7f32.to_bits(),
        top_p_bits: 0.9f32.to_bits(),
        max_tokens: 512,
        stream: true,
        reasoning: false,
        prefer_thinking: None,
        model: None,
    }
}

fn model(reasoning_field: Option<&str>, toggle: bool, path: Option<&str>) -> ModelConfig {
    ModelConfig {
        supports_reasoning: true,
        reasoning_field: reasoning_field.map(|s| s.to_string()),
        supports_thinking_toggle: toggle,
        thinking_toggle_path: path.map(|s| s.to_string()),
        chat_template_path: None,
    }
}

fn raw(default_profile: ProfileName, model: ModelConfig) -> RawConfig {
    let mut profiles = ProfileTable::new();
    profiles.insert(ProfileName::Direct, profile("direct prompt"));
    profiles.insert(ProfileName::Reasoning, profile("reasoning prompt"));
    RawConfig {
        server: ServerConfig {
            base_url: "http://localhost:8080/v1".to_string(),
            default_model: "local".to_string(),
            timeout_secs: 30,
        },
        backend: BackendConfig { backend_type: BackendType::OpenAiCompatible, flavor: default_backend_flavor() },
        model,
        app: AppSettings { default_profile, debug: false },
        profiles,
    }
}

#[test]
fn defaults() {
    assert_eq!(default_backend_flavor(), BackendFlavor::Generic);
    assert!(default_supports_reasoning());
}

#[test]
fn valid_model_configs() {
    assert!(validate_model_config(&model(Some("reasoning_content"), false, None)).is_ok());
    assert!(validate_model_config(&model(
        Some("reasoning_content"),
        true,
        Some("chat_template_kwargs.enable_thinking")
    ))
    .is_ok());
    let mut m = model(None, false, None);
    m.supports_reasoning = false;
    assert!(validate_model_config(&m).is_ok());
}

#[test]
fn reasoning_needs_its_field() {
    let e = validate_model_config(&model(None, true, None)).unwrap_err();
    assert!(matches!(e, ConfigError::MissingReasoningField));
    assert_eq!(e.message(), "model.supports_reasoning=true requires model.reasoning_field");
}

#[test]
fn toggle_needs_its_path() {
    let e = validate_model_config(&model(Some("r"), true, None)).unwrap_err();
    assert!(matches!(e, ConfigError::MissingThinkingTogglePath));
    assert_eq!(
        e.message(),
        "model.supports_thinking_toggle=true requires model.thinking_toggle_path"
    );
}

#[test]
fn only_one_toggle_path_is_supported() {
    let e = validate_model_config(&model(Some("r"), false, Some("enable_thinking"))).unwrap_err();
    assert!(matches!(&e, ConfigError::UnsupportedThinkingTogglePath(p) if p == "enable_thinking"));
    assert_eq!(
        e.message(),
        "unsupported model.thinking_toggle_path 'enable_thinking' ; currently only 'chat_template_kwargs.enable_thinking' is supported"
    );
}

#[test]
fn accepted_config_keeps_its_parts() {
    let c = AppConfig::from_raw(raw(ProfileName::Reasoning, model(Some("r"), false, None))).unwrap();
    assert_eq!(c.app.default_profile, ProfileName::Reasoning);
    assert_eq!(c.server.default_model, "local");
    assert_eq!(c.profile(&ProfileName::Reasoning).unwrap().system_prompt, "reasoning prompt");
    assert_eq!(c.profile(&c.app.default_profile).unwrap().max_tokens, 512);
}

#[test]
fn default_profile_must_be_configured() {
    let e = AppConfig::from_raw(raw(ProfileName::Agent, model(Some("r"), false, None))).unwrap_err();
    assert!(matches!(e, ConfigError::MissingDefaultProfile(ProfileName::Agent)));
    assert_eq!(e.message(), "default_profile 'agent' is missing from [profiles]");
}

#[test]
fn missing_default_is_reported_before_model_problems() {
    let e = AppConfig::from_raw(raw(ProfileName::Tool, model(None, false, None))).unwrap_err();
    assert!(matches!(e, ConfigError::MissingDefaultProfile(ProfileName::Tool)));
}

#[test]
fn model_problems_refuse_the_config() {
    let e = AppConfig::from_raw(raw(ProfileName::Direct, model(None, false, None))).unwrap_err();
    assert!(matches!(e, ConfigError::MissingReasoningField));
}

#[test]
fn unconfigured_profile_lookup() {
    let c = AppConfig::from_raw(raw(ProfileName::Direct, model(Some("r"), false, None))).unwrap();
    let e = c.profile(&ProfileName::Tool).unwrap_err();
    assert!(matches!(e, ConfigError::ProfileNotConfigured(ProfileName::Tool)));
    assert_eq!(e.message(), "profile 'tool' is not configured");
}

#[test]
fn profile_table_behaves_like_a_map() {
    let mut t = ProfileTable::new();
    assert!(t.keys().is_empty());
    assert!(t.insert(ProfileName::Agent, profile("a")).is_none());
    assert!(t.insert(ProfileName::Direct, profile("d")).is_none());
    let previous = t.insert(ProfileName::Agent, profile("a2")).unwrap();
    assert_eq!(previous.system_prompt, "a");
    assert_eq!(t.get(&ProfileName::Agent).unwrap().system_prompt, "a2");
    assert!(t.contains_key(&ProfileName::Direct));
    assert!(!t.contains_key(&ProfileName::Tool));
    assert!(t.get(&ProfileName::Tool).is_none());
    assert_eq!(t.keys(), vec![ProfileName::Direct, ProfileName::Agent]);
}
