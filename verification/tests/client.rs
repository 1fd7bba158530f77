use tinychat::client::{
    sse_payloads_of, stream_payloads, ChatTemplateKwargs, ModelClient, ResponseMetrics,
    StreamAccumulator, StreamChoice, StreamChunk, StreamDelta, StreamEvent,
};
use tinychat::config::ServerConfig;
use tinychat::profiles::InferenceProfile;
use tinychat::session::Session;

fn server(base_url: &str) -> ServerConfig {
    ServerConfig { base_url: base_url.to_string(), default_model: "served".to_string(), timeout_secs: 5 }
}

fn profile(model: Option<&str>, prefer_thinking: Option<bool>) -> InferenceProfile {
    InferenceProfile {
        system_prompt: "sys".to_string(),
        temperature_bits: 0.2f32.to_bits(),
        top_p_bits: 0.95f32.to_bits(),
        max_tokens: 64,
        stream: true,
        reasoning: true,
        prefer_thinking,
        model: model.map(|m| m.to_string()),
    }
}

fn choice(reasoning: Option<&str>, content: Option<&str>) -> StreamChoice {
    StreamChoice {
        delta: StreamDelta {
            content: content.map(|s| s.to_string()),
            reasoning_content: reasoning.map(|s| s.to_string()),
        },
    }
}

fn views(events: &[StreamEvent<'_>]) -> Vec<(bool, String)> {
    events
        .iter()
        .map(|e| match e {
            StreamEvent::Reasoning(t) => (true, t.to_string()),
            StreamEvent::Content(t) => (false, t.to_string()),
        })
        .collect()
}

#[test]
fn durations_from_instants() {
    let m = ResponseMetrics {
        started_at: 1_000,
        first_reasoning_at: Some(1_500),
        first_content_at: None,
        finished_at: 4_000,
    };
    assert_eq!(m.total_duration(), 3_000);
    assert_eq!(m.first_reasoning_latency(), Some(500));
    assert_eq!(m.first_token_latency(), None);
}

#[test]
fn durations_saturate_at_zero() {
    let m = ResponseMetrics { started_at: 10, first_reasoning_at: None, first_content_at: Some(5), finished_at: 3 };
    assert_eq!(m.total_duration(), 0);
    assert_eq!(m.first_token_latency(), Some(0));
}

#[test]
fn payload_lines_are_picked_out() {
    let text = "data: {\"a\":1}\n\n: keep-alive\r\n  data:{\"b\":2}  \r\ndata: [DONE]\ndata:   \nnot data: x\n";
    assert_eq!(sse_payloads_of(text), vec!["{\"a\":1}".to_string(), "{\"b\":2}".to_string()]);
}

#[test]
fn every_leading_data_prefix_is_cut() {
    assert_eq!(sse_payloads_of("data:data: x"), vec!["x".to_string()]);
    assert_eq!(sse_payloads_of("data: data: x"), vec!["data: x".to_string()]);
}

#[test]
fn no_payload_without_lines() {
    assert!(sse_payloads_of("").is_empty());
    assert!(sse_payloads_of("\n\n").is_empty());
    assert_eq!(sse_payloads_of("data: last"), vec!["last".to_string()]);
}

#[test]
fn bytes_are_decoded_before_framing() {
    assert_eq!(stream_payloads(b"data: hello\n"), vec!["hello".to_string()]);
    assert_eq!(stream_payloads(b"data: a\xffb\n"), vec!["a\u{fffd}b".to_string()]);
}

#[test]
fn accumulator_collects_texts_and_first_arrivals() {
    let mut acc = StreamAccumulator::new();
    let first = StreamChunk { model: None, choices: vec![choice(Some("think "), None)] };
    let events = acc.absorb(&first, 100);
    assert_eq!(views(&events), vec![(true, "think ".to_string())]);
    let second = StreamChunk {
        model: Some("m1".to_string()),
        choices: vec![choice(Some("more"), Some("Hel")), choice(None, Some("lo"))],
    };
    let events = acc.absorb(&second, 200);
    assert_eq!(
        views(&events),
        vec![(true, "more".to_string()), (false, "Hel".to_string()), (false, "lo".to_string())]
    );
    let third = StreamChunk { model: Some("m2".to_string()), choices: vec![choice(None, Some("!"))] };
    acc.absorb(&third, 300);
    assert_eq!(acc.first_reasoning_at, Some(100));
    assert_eq!(acc.first_content_at, Some(200));
    assert_eq!(acc.seen_model.as_deref(), Some("m1"));
    let response = acc.finish(50, 400, "fallback".to_string());
    assert_eq!(response.content, "Hello!");
    assert_eq!(response.reasoning_content, "think more");
    assert_eq!(response.effective_model, "m1");
    assert_eq!(response.metrics.total_duration(), 350);
    assert_eq!(response.metrics.first_token_latency(), Some(150));
}

#[test]
fn model_falls_back_when_the_server_names_none() {
    let acc = StreamAccumulator::new();
    let response = acc.finish(0, 1, "fallback".to_string());
    assert_eq!(response.effective_model, "fallback");
    assert_eq!(response.content, "");
}

#[test]
fn request_follows_the_profile() {
    let client = ModelClient::new(server("http://localhost:8080/v1//")).unwrap();
    assert_eq!(client.completions_url(), "http://localhost:8080/v1/chat/completions");
    let mut session = Session::new();
    session.push_user("hi".to_string());
    let messages = session.build_request_messages("sys");
    let request = client.build_request(&profile(None, Some(false)), &messages);
    assert_eq!(request.model, "served");
    assert_eq!(request.messages.len(), 2);
    assert_eq!(request.max_tokens, 64);
    assert_eq!(f32::from_bits(request.temperature_bits), 0.2f32);
    assert!(matches!(request.chat_template_kwargs, Some(ChatTemplateKwargs { enable_thinking: false })));
    let request = client.build_request(&profile(Some("special"), None), &messages);
    assert_eq!(request.model, "special");
    assert!(request.chat_template_kwargs.is_none());
    assert_eq!(client.effective_model(&profile(Some("x"), None)), "x");
}

#[test]
fn url_without_trailing_slash() {
    let client = ModelClient::new(server("http://h:1")).unwrap();
    assert_eq!(client.completions_url(), "http://h:1/chat/completions");
}

#[test]
fn splitting_choices_between_chunks_changes_no_text() {
    let choices = vec![choice(Some("a"), Some("1")), choice(Some("b"), None), choice(None, Some("2"))];
    let mut whole = StreamAccumulator::new();
    let all = StreamChunk { model: None, choices: choices.clone() };
    let whole_events = views(&whole.absorb(&all, 7));
    let mut split = StreamAccumulator::new();
    let first = StreamChunk { model: None, choices: choices[..1].to_vec() };
    let second = StreamChunk { model: None, choices: choices[1..].to_vec() };
    let mut split_events = views(&split.absorb(&first, 7));
    split_events.extend(views(&split.absorb(&second, 9)));
    assert_eq!(whole_events, split_events);
    assert_eq!(whole.content, split.content);
    assert_eq!(whole.reasoning_content, split.reasoning_content);
    assert_eq!(split.first_content_at, Some(7));
}

#[test]
fn lines_without_payload_change_nothing() {
    let plain = "data: {\"x\":1}\ndata: {\"y\":2}\n";
    let noisy = "data: {\"x\":1}\n: ping\nevent: x\n\ndata: [DONE]\ndata:\ndata: {\"y\":2}\n";
    assert_eq!(sse_payloads_of(plain), sse_payloads_of(noisy));
}
