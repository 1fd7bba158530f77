use vstd::prelude::*;
use vstd::string::*;

use crate::text::{ascii_lower, chars_of, copy_range, is_white_space, lower_chars, same_chars, skip_white, drop_white_back, trim, trim_bounds};

verus! {

/// The inference profiles a prompt can be routed to.
#[derive(Debug, Clone, Copy, PartialEq, Eq, PartialOrd, Ord, Hash, Structural)]
pub enum ProfileName {
    Direct,
    Reasoning,
    Tool,
    Agent,
}

/// The lower-case name of a profile, as it appears in configuration and commands.
pub open spec fn profile_label(name: ProfileName) -> Seq<char> {
    match name {
        ProfileName::Direct => seq!['d', 'i', 'r', 'e', 'c', 't'],
        ProfileName::Reasoning => seq!['r', 'e', 'a', 's', 'o', 'n', 'i', 'n', 'g'],
        ProfileName::Tool => seq!['t', 'o', 'o', 'l'],
        ProfileName::Agent => seq!['a', 'g', 'e', 'n', 't'],
    }
}

/// The profile that `value` names: `value` with surrounding white space removed and
/// ASCII letters lowered must be one of the four labels.
pub open spec fn parsed_name(value: Seq<char>) -> Option<ProfileName> {
    let key = ascii_lower(trim(value));
    if key == profile_label(ProfileName::Direct) {
        Some(ProfileName::Direct)
    } else if key == profile_label(ProfileName::Reasoning) {
        Some(ProfileName::Reasoning)
    } else if key == profile_label(ProfileName::Tool) {
        Some(ProfileName::Tool)
    } else if key == profile_label(ProfileName::Agent) {
        Some(ProfileName::Agent)
    } else {
        None
    }
}

/// A name that is not one of the profiles.
#[derive(Debug, Clone)]
pub enum ProfileError {
    Unknown(String),
}

/// The text of `ProfileError::Unknown(value)`.
pub open spec fn unknown_profile_message(value: Seq<char>) -> Seq<char> {
    "unknown profile '"@ + value + "'"@
}

impl ProfileError {
    pub fn message(&self) -> (m: String)
        ensures
            match self {
                ProfileError::Unknown(value) => m@ == unknown_profile_message(value@),
            },
    {
        match self {
            ProfileError::Unknown(value) => {
                let mut m = "unknown profile '".to_owned();
                m.append(value.as_str());
                m.append("'");
                m
            },
        }
    }
}

impl ProfileName {
    pub fn as_str(&self) -> (s: &'static str)
        ensures
            s@ == profile_label(*self),
    {
        match self {
            ProfileName::Direct => {
                proof { reveal_strlit("direct"); }
                "direct"
            },
            ProfileName::Reasoning => {
                proof { reveal_strlit("reasoning"); }
                "reasoning"
            },
            ProfileName::Tool => {
                proof { reveal_strlit("tool"); }
                "tool"
            },
            ProfileName::Agent => {
                proof { reveal_strlit("agent"); }
                "agent"
            },
        }
    }
}

impl ProfileName {
    /// Reads a profile name, ignoring surrounding white space and ASCII case.
    pub fn parse(value: &str) -> (r: Result<ProfileName, ProfileError>)
        ensures
            match r {
                Ok(p) => parsed_name(value@) == Some(p),
                Err(ProfileError::Unknown(v)) => parsed_name(value@) is None && v@ == value@,
            },
    {
        let all = chars_of(value);
        let (a, b) = trim_bounds(&all);
        let key = lower_chars(&copy_range(&all, a, b));
        if same_chars(&key, &chars_of(ProfileName::Direct.as_str())) {
            Ok(ProfileName::Direct)
        } else if same_chars(&key, &chars_of(ProfileName::Reasoning.as_str())) {
            Ok(ProfileName::Reasoning)
        } else if same_chars(&key, &chars_of(ProfileName::Tool.as_str())) {
            Ok(ProfileName::Tool)
        } else if same_chars(&key, &chars_of(ProfileName::Agent.as_str())) {
            Ok(ProfileName::Agent)
        } else {
            Err(ProfileError::Unknown(value.to_owned()))
        }
    }
}

impl std::str::FromStr for ProfileName {
    type Err = ProfileError;

    fn from_str(value: &str) -> (r: Result<ProfileName, ProfileError>)
        ensures
            match r {
                Ok(p) => parsed_name(value@) == Some(p),
                Err(ProfileError::Unknown(v)) => parsed_name(value@) is None && v@ == value@,
            },
    {
        ProfileName::parse(value)
    }
}

/// The sampler settings and prompt of one profile. The two sampler floats are kept as
/// their IEEE-754 bit patterns (`f32::to_bits`); nothing here computes with them.
#[derive(Debug, Clone)]
pub struct InferenceProfile {
    pub system_prompt: String,
    pub temperature_bits: u32,
    pub top_p_bits: u32,
    pub max_tokens: u32,
    pub stream: bool,
    pub reasoning: bool,
    pub prefer_thinking: Option<bool>,
    pub model: Option<String>,
}

/// The four profiles are written `direct`, `reasoning`, `tool` and `agent`, and each of
/// these words reads back as its profile.
pub proof fn lemma_profile_words()
    ensures
        profile_label(ProfileName::Direct) == "direct"@,
        profile_label(ProfileName::Reasoning) == "reasoning"@,
        profile_label(ProfileName::Tool) == "tool"@,
        profile_label(ProfileName::Agent) == "agent"@,
        parsed_name("direct"@) == Some(ProfileName::Direct),
        parsed_name("reasoning"@) == Some(ProfileName::Reasoning),
        parsed_name("tool"@) == Some(ProfileName::Tool),
        parsed_name("agent"@) == Some(ProfileName::Agent),
{
    reveal_strlit("direct");
    reveal_strlit("reasoning");
    reveal_strlit("tool");
    reveal_strlit("agent");
    assert(profile_label(ProfileName::Direct) == "direct"@);
    assert(profile_label(ProfileName::Reasoning) == "reasoning"@);
    assert(profile_label(ProfileName::Tool) == "tool"@);
    assert(profile_label(ProfileName::Agent) == "agent"@);
    lemma_parse_label(ProfileName::Direct);
    lemma_parse_label(ProfileName::Reasoning);
    lemma_parse_label(ProfileName::Tool);
    lemma_parse_label(ProfileName::Agent);
}

/// No label holds white space, and none is empty.
pub proof fn lemma_label_is_one_word(p: ProfileName)
    ensures
        profile_label(p).len() > 0,
        forall|k: int| 0 <= k < profile_label(p).len() ==> !is_white_space(#[trigger] profile_label(p)[k]),
{
}

/// Reading back the label of a profile gives that profile.
pub proof fn lemma_parse_label(p: ProfileName)
    ensures
        parsed_name(profile_label(p)) == Some(p),
{
    let s = profile_label(p);
    assert(!is_white_space(s[0]));
    assert(skip_white(s, 0) == 0);
    assert(s.subrange(0, s.len() as int) == s);
    assert(!is_white_space(s[s.len() - 1]));
    assert(drop_white_back(s, s.len() as int) == s.len());
    assert(trim(s) == s);
    assert(ascii_lower(s) == s);
}

} // verus!
