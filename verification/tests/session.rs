use tinychat::session::{ChatRole, Session};

fn roles_and_texts(s: &Session, prompt: &str) -> Vec<(ChatRole, String)> {
    s.build_request_messages(prompt)
        .into_iter()
        .map(|m| (m.role, m.content))
        .collect()
}

#[test]
fn new_session_sends_only_the_system_prompt() {
    let s = Session::new();
    assert_eq!(roles_and_texts(&s, "be brief"), vec![(ChatRole::System, "be brief".to_string())]);
}

#[test]
fn turns_follow_the_system_prompt_in_order() {
    let mut s = Session::new();
    s.push_user("hi".to_string());
    s.push_assistant("hello".to_string());
    s.push_user("again".to_string());
    assert_eq!(
        roles_and_texts(&s, "sys"),
        vec![
            (ChatRole::System, "sys".to_string()),
            (ChatRole::User, "hi".to_string()),
            (ChatRole::Assistant, "hello".to_string()),
            (ChatRole::User, "again".to_string()),
        ]
    );
    // Building a request leaves the session as it was.
    assert_eq!(roles_and_texts(&s, "other").len(), 4);
}

#[test]
fn reset_forgets_every_turn() {
    let mut s = Session::new();
    s.push_user("hi".to_string());
    s.reset();
    assert_eq!(roles_and_texts(&s, "sys"), vec![(ChatRole::System, "sys".to_string())]);
}

#[test]
fn open_turn_records_the_prompt_and_builds_its_request() {
    let mut s = Session::new();
    s.push_user("earlier".to_string());
    s.push_assistant("answer".to_string());
    let messages: Vec<(ChatRole, String)> = s
        .open_turn("now".to_string(), "sys")
        .into_iter()
        .map(|m| (m.role, m.content))
        .collect();
    assert_eq!(
        messages,
        vec![
            (ChatRole::System, "sys".to_string()),
            (ChatRole::User, "earlier".to_string()),
            (ChatRole::Assistant, "answer".to_string()),
            (ChatRole::User, "now".to_string()),
        ]
    );
    assert_eq!(roles_and_texts(&s, "sys").len(), 4);
}
