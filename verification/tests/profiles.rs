use tinychat::profiles::{ProfileError, ProfileName};

#[test]
fn labels_of_profiles() {
    assert_eq!(ProfileName::Direct.as_str(), "direct");
    assert_eq!(ProfileName::Reasoning.as_str(), "reasoning");
    assert_eq!(ProfileName::Tool.as_str(), "tool");
    assert_eq!(ProfileName::Agent.as_str(), "agent");
}

#[test]
fn labels_read_back() {
    for p in [ProfileName::Direct, ProfileName::Reasoning, ProfileName::Tool, ProfileName::Agent] {
        assert_eq!(ProfileName::parse(p.as_str()).unwrap(), p);
    }
}

#[test]
fn parse_ignores_padding_and_case() {
    assert_eq!(ProfileName::parse("  ReAsOnInG \t").unwrap(), ProfileName::Reasoning);
    let parsed: ProfileName = "AGENT".parse().unwrap();
    assert_eq!(parsed, ProfileName::Agent);
}

#[test]
fn unknown_profile_is_refused() {
    match ProfileName::parse(" nope ") {
        Err(e) => {
            assert!(matches!(&e, ProfileError::Unknown(v) if v == " nope "));
            assert_eq!(e.message(), "unknown profile ' nope '");
        }
        Ok(p) => panic!("parsed {:?}", p),
    }
}
