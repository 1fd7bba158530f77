use tinychat::profiles::ProfileName;
use tinychat::router::choose_profile;

#[test]
fn explicit_override_wins() {
    let route = choose_profile("hello", Some(ProfileName::Agent), ProfileName::Direct);
    assert_eq!(route.profile, ProfileName::Agent);
}

#[test]
fn analytical_prompt_goes_to_reasoning() {
    let route = choose_profile(
        "Please compare these designs and explain the tradeoff.",
        None,
        ProfileName::Direct,
    );
    assert_eq!(route.profile, ProfileName::Reasoning);
}

#[test]
fn short_prompt_goes_to_direct() {
    let route = choose_profile("Summarize this", None, ProfileName::Reasoning);
    assert_eq!(route.profile, ProfileName::Direct);
}

#[test]
fn override_reason_is_reported() {
    let route = choose_profile("step by step please", Some(ProfileName::Tool), ProfileName::Direct);
    assert_eq!(route.profile, ProfileName::Tool);
    assert_eq!(route.reason, "user override is active");
}

#[test]
fn markers_match_in_any_ascii_case() {
    let route = choose_profile("Can you PLAN my week?", None, ProfileName::Direct);
    assert_eq!(route.profile, ProfileName::Reasoning);
    assert_eq!(route.reason, "prompt looks multi-step or analytical");
}

#[test]
fn long_prompt_goes_to_reasoning() {
    let prompt = "a".repeat(241);
    let route = choose_profile(&prompt, None, ProfileName::Direct);
    assert_eq!(route.profile, ProfileName::Reasoning);
}

#[test]
fn length_is_counted_in_bytes() {
    // 121 two-byte characters: 242 bytes.
    let prompt = "é".repeat(121);
    let route = choose_profile(&prompt, None, ProfileName::Tool);
    assert_eq!(route.profile, ProfileName::Reasoning);
    // 45 two-byte characters: 90 bytes, neither short nor long.
    let prompt = "é".repeat(45);
    let route = choose_profile(&prompt, None, ProfileName::Tool);
    assert_eq!(route.profile, ProfileName::Tool);
}

#[test]
fn direct_marker_in_a_mid_length_prompt() {
    let prompt = format!("{} give me a Quick answer", "x".repeat(90));
    let route = choose_profile(&prompt, None, ProfileName::Agent);
    assert_eq!(route.profile, ProfileName::Direct);
    assert_eq!(route.reason, "prompt looks short and direct");
}

#[test]
fn exactly_eighty_bytes_is_not_short() {
    let prompt = "x".repeat(80);
    let route = choose_profile(&prompt, None, ProfileName::Agent);
    assert_eq!(route.profile, ProfileName::Agent);
    let prompt = "x".repeat(79);
    let route = choose_profile(&prompt, None, ProfileName::Agent);
    assert_eq!(route.profile, ProfileName::Direct);
}

#[test]
fn exactly_240_bytes_is_not_long() {
    let prompt = "x".repeat(240);
    let route = choose_profile(&prompt, None, ProfileName::Agent);
    assert_eq!(route.profile, ProfileName::Agent);
}

#[test]
fn fallback_names_the_default_profile() {
    let prompt = "x".repeat(100);
    let route = choose_profile(&prompt, None, ProfileName::Tool);
    assert_eq!(route.profile, ProfileName::Tool);
    assert_eq!(route.reason, "fell back to configured default profile 'tool'");
}

#[test]
fn reasoning_wins_over_direct_markers() {
    let route = choose_profile("quick: why is the sky blue", None, ProfileName::Direct);
    assert_eq!(route.profile, ProfileName::Reasoning);
}

#[test]
fn hyphenated_step_by_step_is_analytical() {
    let route = choose_profile("Explain it step-by-step", None, ProfileName::Direct);
    assert_eq!(route.profile, ProfileName::Reasoning);
    assert_eq!(route.reason, "prompt looks multi-step or analytical");
}

#[test]
fn routing_ignores_ascii_case() {
    let prompt = format!("{} why does this happen", "padding ".repeat(12));
    let lower = choose_profile(&prompt, None, ProfileName::Tool);
    let upper = choose_profile(&prompt.to_ascii_uppercase(), None, ProfileName::Tool);
    assert_eq!(lower.profile, upper.profile);
    assert_eq!(lower.reason, upper.reason);
    assert_eq!(choose_profile("WHY?", None, ProfileName::Direct).profile, ProfileName::Reasoning);
}

#[test]
fn added_text_keeps_a_prompt_analytical() {
    let core = "investigate";
    assert_eq!(choose_profile(core, None, ProfileName::Direct).profile, ProfileName::Reasoning);
    let wrapped = format!("{} {} quick", "x".repeat(120), core);
    let route = choose_profile(&wrapped, None, ProfileName::Direct);
    assert_eq!(route.profile, ProfileName::Reasoning);
}
