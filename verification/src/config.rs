use vstd::prelude::*;
use vstd::string::*;

use crate::profiles::{profile_label, InferenceProfile, ProfileName};

verus! {

/// Where the model server listens.
#[derive(Debug, Clone)]
pub struct ServerConfig {
    pub base_url: String,
    pub default_model: String,
    pub timeout_secs: u64,
}

/// The wire protocol of the model server.
#[derive(Debug, Clone, Copy, PartialEq, Eq, Structural)]
pub enum BackendType {
    OpenAiCompatible,
}

/// The server implementation behind the protocol.
#[derive(Debug, Clone, Copy, PartialEq, Eq, Structural)]
pub enum BackendFlavor {
    Generic,
    Llamacpp,
}

#[derive(Debug, Clone)]
pub struct BackendConfig {
    pub backend_type: BackendType,
    pub flavor: BackendFlavor,
}

/// The flavor a configuration gets when it names none.
pub fn default_backend_flavor() -> (f: BackendFlavor)
    ensures
        f == BackendFlavor::Generic,
{
    BackendFlavor::Generic
}

/// What the model supports and where it reports it.
#[derive(Debug, Clone)]
pub struct ModelConfig {
    pub supports_reasoning: bool,
    pub reasoning_field: Option<String>,
    pub supports_thinking_toggle: bool,
    pub thinking_toggle_path: Option<String>,
    pub chat_template_path: Option<String>,
}

/// Whether a model supports reasoning when its configuration does not say.
pub fn default_supports_reasoning() -> (b: bool)
    ensures
        b,
{
    true
}

#[derive(Debug, Clone)]
pub struct AppSettings {
    pub default_profile: ProfileName,
    pub debug: bool,
}

/// The rank of a profile in the order of `ProfileName`.
pub open spec fn rank(p: ProfileName) -> int {
    match p {
        ProfileName::Direct => 0,
        ProfileName::Reasoning => 1,
        ProfileName::Tool => 2,
        ProfileName::Agent => 3,
    }
}

/// The configured profiles, at most one per name.
#[derive(Debug, Clone)]
pub struct ProfileTable {
    direct: Option<InferenceProfile>,
    reasoning: Option<InferenceProfile>,
    tool: Option<InferenceProfile>,
    agent: Option<InferenceProfile>,
}

impl ProfileTable {
    pub closed spec fn slot(&self, name: ProfileName) -> Option<InferenceProfile> {
        match name {
            ProfileName::Direct => self.direct,
            ProfileName::Reasoning => self.reasoning,
            ProfileName::Tool => self.tool,
            ProfileName::Agent => self.agent,
        }
    }
}

impl View for ProfileTable {
    type V = Map<ProfileName, InferenceProfile>;

    closed spec fn view(&self) -> Map<ProfileName, InferenceProfile> {
        Map::new(|k: ProfileName| self.slot(k) is Some, |k: ProfileName| self.slot(k)->0)
    }
}

impl ProfileTable {
    /// A table with no profile.
    pub fn new() -> (t: ProfileTable)
        ensures
            t@ == Map::<ProfileName, InferenceProfile>::empty(),
    {
        let t = ProfileTable { direct: None, reasoning: None, tool: None, agent: None };
        assert(t@ == Map::<ProfileName, InferenceProfile>::empty());
        t
    }

    /// Sets the profile of `name`, and gives back the one it replaces.
    pub fn insert(&mut self, name: ProfileName, profile: InferenceProfile) -> (previous: Option<
        InferenceProfile,
    >)
        ensures
            final(self)@ == old(self)@.insert(name, profile),
            previous == (if old(self)@.contains_key(name) {
                Some(old(self)@[name])
            } else {
                None
            }),
    {
        let previous = match name {
            ProfileName::Direct => {
                let p = self.direct.take();
                self.direct = Some(profile);
                p
            },
            ProfileName::Reasoning => {
                let p = self.reasoning.take();
                self.reasoning = Some(profile);
                p
            },
            ProfileName::Tool => {
                let p = self.tool.take();
                self.tool = Some(profile);
                p
            },
            ProfileName::Agent => {
                let p = self.agent.take();
                self.agent = Some(profile);
                p
            },
        };
        assert(self@ == old(self)@.insert(name, profile));
        previous
    }

    /// Whether `name` has a profile.
    pub fn contains_key(&self, name: &ProfileName) -> (b: bool)
        ensures
            b == self@.contains_key(*name),
    {
        self.get(name).is_some()
    }

    /// The profile of `name`, if there is one.
    pub fn get(&self, name: &ProfileName) -> (r: Option<&InferenceProfile>)
        ensures
            match r {
                Some(p) => self@.contains_key(*name) && *p == self@[*name],
                None => !self@.contains_key(*name),
            },
    {
        match name {
            ProfileName::Direct => self.direct.as_ref(),
            ProfileName::Reasoning => self.reasoning.as_ref(),
            ProfileName::Tool => self.tool.as_ref(),
            ProfileName::Agent => self.agent.as_ref(),
        }
    }

    /// The names that have a profile, in the order of `ProfileName`.
    pub fn keys(&self) -> (names: Vec<ProfileName>)
        ensures
            forall|k: ProfileName| names@.contains(k) <==> self@.contains_key(k),
            forall|i: int, j: int|
                0 <= i < j < names@.len() ==> rank(#[trigger] names@[i]) < rank(#[trigger] names@[j]),
    {
        let mut names: Vec<ProfileName> = Vec::new();
        if self.direct.is_some() {
            names.push(ProfileName::Direct);
        }
        assert(forall|i: int| 0 <= i < names@.len() ==> #[trigger] names@[i] == ProfileName::Direct);
        assert(self.direct is Some ==> names@[names@.len() - 1] == ProfileName::Direct);
        let ghost n0 = names@;
        if self.reasoning.is_some() {
            names.push(ProfileName::Reasoning);
        }
        assert(forall|i: int| 0 <= i < n0.len() ==> names@[i] == n0[i]);
        assert(self.reasoning is Some ==> names@[names@.len() - 1] == ProfileName::Reasoning);
        let ghost n1 = names@;
        if self.tool.is_some() {
            names.push(ProfileName::Tool);
        }
        assert(forall|i: int| 0 <= i < n1.len() ==> names@[i] == n1[i]);
        assert(self.tool is Some ==> names@[names@.len() - 1] == ProfileName::Tool);
        let ghost n2 = names@;
        if self.agent.is_some() {
            names.push(ProfileName::Agent);
        }
        assert(forall|i: int| 0 <= i < n2.len() ==> names@[i] == n2[i]);
        proof {
            assert forall|k: ProfileName| names@.contains(k) <==> self@.contains_key(k) by {
                if names@.contains(k) {
                    let i = choose|i: int| 0 <= i < names@.len() && names@[i] == k;
                    assert(self.slot(names@[i]) is Some);
                }
                if self@.contains_key(k) {
                    assert(self.slot(k) is Some);
                    match k {
                        ProfileName::Direct => {
                            assert(names@[0] == k);
                        },
                        ProfileName::Reasoning => {
                            assert(names@[n1.len() - 1] == k);
                        },
                        ProfileName::Tool => {
                            assert(names@[n2.len() - 1] == k);
                        },
                        ProfileName::Agent => {
                            assert(names@[names@.len() - 1] == k);
                        },
                    }
                }
            }
        }
        names
    }
}


/// The only thinking toggle path the client knows how to send.
pub open spec fn supported_toggle_path() -> Seq<char> {
    "chat_template_kwargs.enable_thinking"@
}

/// Why a configuration was refused, or a profile could not be found.
#[derive(Debug, Clone)]
pub enum ConfigError {
    MissingDefaultProfile(ProfileName),
    MissingReasoningField,
    MissingThinkingTogglePath,
    UnsupportedThinkingTogglePath(String),
    ProfileNotConfigured(ProfileName),
}

/// The text of each configuration error.
pub open spec fn config_error_message(e: ConfigError) -> Seq<char> {
    match e {
        ConfigError::MissingDefaultProfile(p) => "default_profile '"@ + profile_label(p)
            + "' is missing from [profiles]"@,
        ConfigError::MissingReasoningField =>
            "model.supports_reasoning=true requires model.reasoning_field"@,
        ConfigError::MissingThinkingTogglePath =>
            "model.supports_thinking_toggle=true requires model.thinking_toggle_path"@,
        ConfigError::UnsupportedThinkingTogglePath(path) => "unsupported model.thinking_toggle_path '"@
            + path@ + "' ; currently only 'chat_template_kwargs.enable_thinking' is supported"@,
        ConfigError::ProfileNotConfigured(p) => "profile '"@ + profile_label(p)
            + "' is not configured"@,
    }
}

impl ConfigError {
    pub fn message(&self) -> (m: String)
        ensures
            m@ == config_error_message(*self),
    {
        match self {
            ConfigError::MissingDefaultProfile(p) => {
                let mut m = "default_profile '".to_owned();
                m.append(p.as_str());
                m.append("' is missing from [profiles]");
                m
            },
            ConfigError::MissingReasoningField => {
                "model.supports_reasoning=true requires model.reasoning_field".to_owned()
            },
            ConfigError::MissingThinkingTogglePath => {
                "model.supports_thinking_toggle=true requires model.thinking_toggle_path".to_owned()
            },
            ConfigError::UnsupportedThinkingTogglePath(path) => {
                let mut m = "unsupported model.thinking_toggle_path '".to_owned();
                m.append(path.as_str());
                m.append("' ; currently only 'chat_template_kwargs.enable_thinking' is supported");
                m
            },
            ConfigError::ProfileNotConfigured(p) => {
                let mut m = "profile '".to_owned();
                m.append(p.as_str());
                m.append("' is not configured");
                m
            },
        }
    }
}

/// A model configuration the client can serve: reasoning support names its field,
/// thinking-toggle support names its path, and a named path is the supported one.
pub open spec fn model_config_ok(model: ModelConfig) -> bool {
    &&& !(model.supports_reasoning && model.reasoning_field is None)
    &&& !(model.supports_thinking_toggle && model.thinking_toggle_path is None)
    &&& (model.thinking_toggle_path matches Some(path) ==> path@ == supported_toggle_path())
}

/// The first rule a model configuration breaks, if any.
pub open spec fn model_config_error(model: ModelConfig) -> Option<ConfigError> {
    if model.supports_reasoning && model.reasoning_field is None {
        Some(ConfigError::MissingReasoningField)
    } else if model.supports_thinking_toggle && model.thinking_toggle_path is None {
        Some(ConfigError::MissingThinkingTogglePath)
    } else {
        match model.thinking_toggle_path {
            Some(path) => if path@ == supported_toggle_path() {
                None
            } else {
                Some(ConfigError::UnsupportedThinkingTogglePath(path))
            },
            None => None,
        }
    }
}

/// Checks a model configuration; the first rule it breaks is the error.
pub fn validate_model_config(model: &ModelConfig) -> (r: Result<(), ConfigError>)
    ensures
        r == (match model_config_error(*model) {
            Some(e) => Err(e),
            None => Ok(()),
        }),
        r is Ok <==> model_config_ok(*model),
        r is Ok ==> (model.thinking_toggle_path matches Some(path) ==> path@
            == "chat_template_kwargs.enable_thinking"@),
        r is Ok ==> !(model.supports_reasoning && model.reasoning_field is None),
        r is Ok ==> !(model.supports_thinking_toggle && model.thinking_toggle_path is None),
{
    if model.supports_reasoning && model.reasoning_field.is_none() {
        return Err(ConfigError::MissingReasoningField);
    }
    if model.supports_thinking_toggle && model.thinking_toggle_path.is_none() {
        return Err(ConfigError::MissingThinkingTogglePath);
    }
    if let Some(path) = &model.thinking_toggle_path {
        let supported = "chat_template_kwargs.enable_thinking".to_owned();
        if !(*path == supported) {
            return Err(ConfigError::UnsupportedThinkingTogglePath(path.clone()));
        }
    }
    Ok(())
}

/// A configuration as read from its file, before it is checked.
#[derive(Debug, Clone)]
pub struct RawConfig {
    pub server: ServerConfig,
    pub backend: BackendConfig,
    pub model: ModelConfig,
    pub app: AppSettings,
    pub profiles: ProfileTable,
}

/// A checked configuration.
#[derive(Debug, Clone)]
pub struct AppConfig {
    pub server: ServerConfig,
    pub backend: BackendConfig,
    pub model: ModelConfig,
    pub app: AppSettings,
    pub profiles: ProfileTable,
}

impl AppConfig {
    /// The checks a configuration passes: its default profile is configured and its model
    /// configuration is one the client can serve.
    pub open spec fn well_formed(&self) -> bool {
        &&& self.profiles@.contains_key(self.app.default_profile)
        &&& model_config_ok(self.model)
    }

    /// Checks a configuration read from its file: first that the default profile is
    /// configured, then the model configuration.
    pub fn from_raw(raw: RawConfig) -> (r: Result<AppConfig, ConfigError>)
        ensures
            r == (if !raw.profiles@.contains_key(raw.app.default_profile) {
                Err(ConfigError::MissingDefaultProfile(raw.app.default_profile))
            } else {
                match model_config_error(raw.model) {
                    Some(e) => Err(e),
                    None => Ok(
                        AppConfig {
                            server: raw.server,
                            backend: raw.backend,
                            model: raw.model,
                            app: raw.app,
                            profiles: raw.profiles,
                        },
                    ),
                }
            }),
            r matches Ok(c) ==> c.well_formed(),
    {
        if !raw.profiles.contains_key(&raw.app.default_profile) {
            return Err(ConfigError::MissingDefaultProfile(raw.app.default_profile));
        }
        match validate_model_config(&raw.model) {
            Ok(()) => {},
            Err(e) => {
                return Err(e);
            },
        }
        Ok(AppConfig {
            server: raw.server,
            backend: raw.backend,
            model: raw.model,
            app: raw.app,
            profiles: raw.profiles,
        })
    }

    /// The profile configured under `name`.
    pub fn profile(&self, name: &ProfileName) -> (r: Result<&InferenceProfile, ConfigError>)
        ensures
            r is Ok <==> self.profiles@.contains_key(*name),
            r matches Ok(p) ==> *p == self.profiles@[*name],
            r matches Err(e) ==> e == ConfigError::ProfileNotConfigured(*name),
    {
        match self.profiles.get(name) {
            Some(p) => Ok(p),
            None => Err(ConfigError::ProfileNotConfigured(*name)),
        }
    }
}

/// What an accepted model configuration is: reasoning support names its field, thinking
/// toggle support names its path, and a path that is named (whether the toggle is on or
/// not) is exactly `chat_template_kwargs.enable_thinking`. Anything else is refused, with
/// the first broken rule as the error.
pub proof fn lemma_model_config_rules(model: ModelConfig)
    ensures
        model_config_error(model) is None <==> {
            &&& !(model.supports_reasoning && model.reasoning_field is None)
            &&& !(model.supports_thinking_toggle && model.thinking_toggle_path is None)
            &&& (model.thinking_toggle_path matches Some(path) ==> path@
                == "chat_template_kwargs.enable_thinking"@)
        },
        model.supports_reasoning && model.reasoning_field is None ==> model_config_error(model)
            == Some(ConfigError::MissingReasoningField),
        !(model.supports_reasoning && model.reasoning_field is None)
            && model.supports_thinking_toggle && model.thinking_toggle_path is None
            ==> model_config_error(model) == Some(ConfigError::MissingThinkingTogglePath),
        model_config_error(model) matches Some(ConfigError::UnsupportedThinkingTogglePath(p))
            ==> model.thinking_toggle_path == Some(p) && p@
            != "chat_template_kwargs.enable_thinking"@,
        model.thinking_toggle_path matches Some(path) ==> (path@
            != "chat_template_kwargs.enable_thinking"@ ==> model_config_error(model) is Some),
{
}

/// A checked configuration resolves its default profile.
pub proof fn lemma_default_profile_resolves(config: AppConfig)
    requires
        config.well_formed(),
    ensures
        config.profiles@.contains_key(config.app.default_profile),
{
}

} // verus!
