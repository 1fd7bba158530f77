use tinychat::profiles::{ProfileError, ProfileName};
use tinychat::session::{ChatRole, Session};
use tinychat::ui::{finish_reply, handle_command, process_line, CommandReply, ReplStep, TraceRender};

struct State {
    session: Session,
    debug: bool,
    show_trace: bool,
    profile_override: Option<ProfileName>,
}

fn state() -> State {
    State { session: Session::new(), debug: false, show_trace: false, profile_override: None }
}

fn command(s: &mut State, input: &str) -> Result<Option<CommandReply>, ProfileError> {
    handle_command(input, &mut s.session, &mut s.debug, &mut s.show_trace, &mut s.profile_override)
}

fn line(s: &mut State, input: &str) -> Result<ReplStep, ProfileError> {
    process_line(
        input,
        &mut s.session,
        &mut s.debug,
        &mut s.show_trace,
        &mut s.profile_override,
        ProfileName::Direct,
    )
}

#[test]
fn plain_text_is_no_command() {
    let mut s = state();
    assert!(command(&mut s, "hello /help").unwrap().is_none());
}

#[test]
fn profile_command_sets_the_override() {
    let mut s = state();
    assert!(matches!(command(&mut s, "/profile  Reasoning"), Ok(Some(CommandReply::ProfileSet(ProfileName::Reasoning)))));
    assert_eq!(s.profile_override, Some(ProfileName::Reasoning));
    assert!(matches!(command(&mut s, "/profile"), Ok(Some(CommandReply::ProfileShow))));
    assert_eq!(s.profile_override, Some(ProfileName::Reasoning));
}

#[test]
fn unknown_profile_is_an_error() {
    let mut s = state();
    match command(&mut s, "/profile wizard") {
        Err(ProfileError::Unknown(v)) => assert_eq!(v, "wizard"),
        other => panic!("unexpected {:?}", other),
    }
    assert_eq!(s.profile_override, None);
}

#[test]
fn debug_switch() {
    let mut s = state();
    assert!(matches!(command(&mut s, "/debug"), Ok(Some(CommandReply::DebugChanged(true)))));
    assert!(s.debug);
    assert!(matches!(command(&mut s, "/debug"), Ok(Some(CommandReply::DebugChanged(false)))));
    assert!(!s.debug);
    assert!(matches!(command(&mut s, "/debug on"), Ok(Some(CommandReply::DebugChanged(true)))));
    assert!(matches!(command(&mut s, "/debug on"), Ok(Some(CommandReply::DebugChanged(true)))));
    assert!(matches!(command(&mut s, "/debug off"), Ok(Some(CommandReply::DebugChanged(false)))));
    match command(&mut s, "/debug maybe") {
        Ok(Some(CommandReply::DebugInvalid(w))) => assert_eq!(w, "maybe"),
        other => panic!("unexpected {:?}", other),
    }
    assert!(!s.debug);
}

#[test]
fn trace_and_think_switch_the_trace() {
    let mut s = state();
    assert!(matches!(command(&mut s, "/trace on"), Ok(Some(CommandReply::TraceChanged(true)))));
    assert!(matches!(command(&mut s, "/think"), Ok(Some(CommandReply::TraceChanged(false)))));
    assert!(!s.show_trace);
    assert!(matches!(command(&mut s, "/think x"), Ok(Some(CommandReply::TraceInvalid(_)))));
}

#[test]
fn other_commands() {
    let mut s = state();
    s.session.push_user("hi".to_string());
    assert!(matches!(command(&mut s, "/help"), Ok(Some(CommandReply::Help))));
    assert!(matches!(command(&mut s, "/quit"), Ok(Some(CommandReply::Quit))));
    assert!(matches!(command(&mut s, "/nope"), Ok(Some(CommandReply::Unknown))));
    assert_eq!(s.session.build_request_messages("s").len(), 2);
    assert!(matches!(command(&mut s, "/reset"), Ok(Some(CommandReply::Reset))));
    assert_eq!(s.session.build_request_messages("s").len(), 1);
}

#[test]
fn lines_of_the_loop() {
    let mut s = state();
    assert!(matches!(line(&mut s, "   \n"), Ok(ReplStep::Skip)));
    assert!(matches!(line(&mut s, "  /quit \n"), Ok(ReplStep::Exit)));
    assert!(matches!(line(&mut s, "/quit now"), Ok(ReplStep::Reply(CommandReply::Quit))));
    match line(&mut s, "  Summarize this\n") {
        Ok(ReplStep::Prompt { text, route }) => {
            assert_eq!(text, "Summarize this");
            assert_eq!(route.profile, ProfileName::Direct);
        }
        other => panic!("unexpected {:?}", other),
    }
    assert!(matches!(line(&mut s, "/profile agent"), Ok(ReplStep::Reply(CommandReply::ProfileSet(ProfileName::Agent)))));
    match line(&mut s, "please compare these") {
        Ok(ReplStep::Prompt { route, .. }) => {
            assert_eq!(route.profile, ProfileName::Agent);
            assert_eq!(route.reason, "user override is active");
        }
        other => panic!("unexpected {:?}", other),
    }
    assert!(line(&mut s, "/profile ghost").is_err());
    let _ = ChatRole::User;
}

#[test]
fn trace_rendering() {
    let mut r = TraceRender::new();
    let p = r.on_event(true, true);
    assert!(p.trace_header && p.echo && !p.assistant_header);
    let p = r.on_event(true, true);
    assert!(!p.trace_header && p.echo);
    let p = r.on_event(false, true);
    assert!(p.line_break && p.assistant_header && p.echo);
    let p = r.on_event(false, true);
    assert!(!p.line_break && !p.assistant_header && p.echo);
    assert!(r.saw_reasoning);

    let mut hidden = TraceRender::new();
    let p = hidden.on_event(true, false);
    assert!(!p.echo && !p.trace_header);
    let p = hidden.on_event(false, false);
    assert!(!p.line_break && p.assistant_header);
    assert!(hidden.saw_reasoning && !hidden.printed_trace_header);
}

#[test]
fn finishing_a_reply() {
    let mut s = state();
    s.session.open_turn("q".to_string(), "sys");
    let mut render = TraceRender::new();
    render.on_event(true, false);
    assert!(finish_reply(&mut s.session, Some("a".to_string()), &render, false));
    assert_eq!(s.session.build_request_messages("sys").len(), 3);
    s.session.open_turn("q2".to_string(), "sys");
    assert!(!finish_reply(&mut s.session, None, &render, false));
    assert_eq!(s.session.build_request_messages("sys").len(), 4);
    assert!(!finish_reply(&mut s.session, Some("b".to_string()), &render, true));
    let quiet = TraceRender::new();
    assert!(!finish_reply(&mut s.session, Some("c".to_string()), &quiet, false));
}
