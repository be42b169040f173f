use granite_cli::commands::chat::chat_step;
use granite_cli::commands::chat::ChatAction;
use granite_cli::commands::chat::ChatEvent;
use granite_cli::json::JsonValue;
use granite_cli::providers::chat::anthropic_outcome;
use granite_cli::providers::chat::anthropic_request;
use granite_cli::providers::chat::anthropic_stream_step;
use granite_cli::providers::chat::chunk_of_block;
use granite_cli::providers::chat::openai_outcome;
use granite_cli::providers::chat::openai_request;
use granite_cli::providers::chat::openai_stream_step;
use granite_cli::providers::chat::sse_data;
use granite_cli::providers::chat::AnthropicResponse;
use granite_cli::providers::chat::ChatMessage;
use granite_cli::providers::chat::ChatRequest;
use granite_cli::providers::chat::MessageRole;
use granite_cli::providers::chat::OpenAiChoice;
use granite_cli::providers::chat::OpenAiResponse;
use granite_cli::providers::chat::ProviderError;
use granite_cli::providers::chat::StreamStep;
use granite_cli::providers::chat::UsageInfo;

fn request(messages: Vec<ChatMessage>) -> ChatRequest {
    ChatRequest { model: "m1".to_string(), messages, temperature: None, max_tokens: None, stop_sequences: None, stream: false }
}

fn user(text: &str) -> ChatMessage {
    ChatMessage { role: MessageRole::User, content: text.to_string() }
}

#[test]
fn anthropic_request_refuses_an_empty_conversation() {
    match anthropic_request(&request(vec![]), false) {
        Err(ProviderError::Other(m)) => assert_eq!(m, "Message list cannot be empty"),
        _ => panic!("expected a refusal"),
    }
}

#[test]
fn anthropic_request_defaults_max_tokens_and_streams_on_request() {
    let body = anthropic_request(&request(vec![user("Hi")]), true).ok().unwrap();
    assert_eq!(body.get_str("model"), Some("m1"));
    assert!(matches!(body.get("max_tokens"), Some(JsonValue::Number(n)) if n == "1024"));
    assert!(matches!(body.get("stream"), Some(JsonValue::Bool(true))));
    assert!(body.get("temperature").is_none());
    match body.get("messages") {
        Some(JsonValue::Array(items)) => {
            assert_eq!(items.len(), 1);
            assert_eq!(items[0].get_str("role"), Some("user"));
            assert_eq!(items[0].get_str("content"), Some("Hi"));
        }
        _ => panic!("expected messages"),
    }
}

#[test]
fn openai_request_sets_only_what_is_given() {
    let mut req = request(vec![user("Hi")]);
    let plain = openai_request(&req, false);
    assert!(plain.get("max_tokens").is_none());
    assert!(plain.get("stream").is_none());
    req.max_tokens = Some(64);
    req.temperature = Some("0.5".to_string());
    req.stop_sequences = Some(vec!["END".to_string()]);
    let full = openai_request(&req, true);
    assert!(matches!(full.get("max_tokens"), Some(JsonValue::Number(n)) if n == "64"));
    assert!(matches!(full.get("temperature"), Some(JsonValue::Number(n)) if n == "0.5"));
    assert!(matches!(full.get("stop"), Some(JsonValue::Array(s)) if s.len() == 1));
    assert!(matches!(full.get("stream"), Some(JsonValue::Bool(true))));
}

fn answer(texts: Vec<Option<&str>>) -> AnthropicResponse {
    AnthropicResponse {
        block_texts: texts.into_iter().map(|t| t.map(|s| s.to_string())).collect(),
        stop_reason: Some("end_turn".to_string()),
        input_tokens: 10,
        output_tokens: 5,
    }
}

#[test]
fn anthropic_outcome_maps_failures() {
    assert!(matches!(anthropic_outcome(401, "x", Ok(answer(vec![]))), Err(ProviderError::Auth(m)) if m == "Invalid or missing API key"));
    assert!(matches!(anthropic_outcome(429, "slow down", Ok(answer(vec![]))), Err(ProviderError::RateLimited(m)) if m == "slow down"));
    assert!(matches!(anthropic_outcome(500, "boom", Ok(answer(vec![]))), Err(ProviderError::Other(m)) if m == "HTTP 500: boom"));
    assert!(matches!(anthropic_outcome(200, "", Err("bad json".to_string())), Err(ProviderError::Http(m)) if m == "bad json"));
}

#[test]
fn anthropic_outcome_joins_text_blocks_and_counts_tokens() {
    let r = anthropic_outcome(200, "", Ok(answer(vec![Some("a"), None, Some("b")]))).ok().unwrap();
    assert_eq!(r.content.as_deref(), Some("a\nb"));
    assert_eq!(r.finish_reason.as_deref(), Some("end_turn"));
    let u = r.usage.unwrap();
    assert_eq!((u.prompt_tokens, u.completion_tokens, u.total_tokens), (10, 5, 15));
    let empty = anthropic_outcome(200, "", Ok(answer(vec![None]))).ok().unwrap();
    assert!(empty.content.is_none());
}

#[test]
fn openai_outcome_takes_the_first_choice() {
    let o = OpenAiResponse {
        choices: vec![
            OpenAiChoice { content: Some("hello".to_string()), finish_reason: Some("stop".to_string()) },
            OpenAiChoice { content: Some("other".to_string()), finish_reason: None },
        ],
        usage: Some(UsageInfo { prompt_tokens: 1, completion_tokens: 2, total_tokens: 3 }),
    };
    let r = openai_outcome(200, "", Ok(o)).ok().unwrap();
    assert_eq!(r.content.as_deref(), Some("hello"));
    assert_eq!(r.finish_reason.as_deref(), Some("stop"));
    assert_eq!(r.usage.unwrap().total_tokens, 3);
    let none = openai_outcome(200, "", Ok(OpenAiResponse { choices: vec![], usage: None })).ok().unwrap();
    assert!(none.content.is_none() && none.usage.is_none());
    assert!(matches!(openai_outcome(404, "nope", Err(String::new())), Err(ProviderError::Other(m)) if m == "HTTP 404: nope"));
}

#[test]
fn stream_lines_give_the_first_chunk_before_a_stop() {
    assert_eq!(sse_data("data: {\"x\":1}").as_deref(), Some("{\"x\":1}"));
    assert!(sse_data("event: ping").is_none());
    let steps = vec![
        anthropic_stream_step("ping", None),
        anthropic_stream_step("content_block_delta", Some("")),
        anthropic_stream_step("content_block_delta", Some("Hel")),
        anthropic_stream_step("message_stop", None),
    ];
    assert_eq!(chunk_of_block(&steps).as_deref(), Some("Hel"));
    let stopped = vec![openai_stream_step("[DONE]", None), openai_stream_step("{}", Some("late"))];
    assert!(matches!(stopped[0], StreamStep::Stop));
    assert!(chunk_of_block(&stopped).is_none());
}

fn chat_state(provider: Option<&str>) -> granite_cli::commands::chat::ChatState {
    granite_cli::commands::chat::ChatState { messages: vec![], model_id: None, provider_model: provider.map(|p| p.to_string()) }
}

#[test]
fn chat_line_opens_with_the_system_prompt_and_asks() {
    use_chat_line_asks();
}

fn use_chat_line_asks() {
    let (s, a) = granite_cli::commands::chat::chat_step(&chat_state(Some("m1")), granite_cli::commands::chat::ChatEvent::Line("  hello  ".to_string()));
    assert_eq!(s.messages.len(), 2);
    assert!(matches!(s.messages[0].role, MessageRole::System));
    assert_eq!(s.messages[0].content, "You are a helpful assistant powered by Granite models.");
    assert_eq!(s.messages[1].content, "hello");
    match a {
        granite_cli::commands::chat::ChatAction::Continue { show, request: Some(r) } => {
            assert!(show.is_empty());
            assert_eq!(r.model, "m1");
            assert_eq!(r.messages.len(), 2);
            assert_eq!(r.temperature.as_deref(), Some("0.7"));
            assert_eq!(r.max_tokens, Some(2048));
        }
        _ => panic!("expected a request"),
    }
}

#[test]
fn chat_commands_exit_clear_and_switch() {
    use_commands(chat_step);
}

fn use_commands(step: fn(&granite_cli::commands::chat::ChatState, granite_cli::commands::chat::ChatEvent) -> (granite_cli::commands::chat::ChatState, granite_cli::commands::chat::ChatAction)) {
    let st = chat_state(None);
    assert!(matches!(step(&st, ChatEvent::Line("/quit".to_string())).1, ChatAction::Exit));
    let (cleared, a) = step(&st, ChatEvent::Line("/clear".to_string()));
    assert!(cleared.messages.is_empty());
    assert!(matches!(a, ChatAction::Continue { show, .. } if show == vec!["Conversation cleared.".to_string()]));
    let (switched, a) = step(&st, ChatEvent::Line("/model granite-8b".to_string()));
    assert_eq!(switched.model_id.as_deref(), Some("granite-8b"));
    assert!(matches!(a, ChatAction::Continue { show, .. } if show == vec!["Switched to model: granite-8b".to_string()]));
    let (_, a) = step(&st, ChatEvent::Line("hi".to_string()));
    assert!(matches!(a, ChatAction::Continue { show, request: None } if show[1] == "  granite-cli provider setup <provider-id>"));
}

#[test]
fn chat_urls_are_fetched_and_cut() {
    let (s, a) = chat_step(&chat_state(Some("m1")), ChatEvent::Line("read https://x.org/a now".to_string()));
    assert!(matches!(&a, ChatAction::Fetch(u) if u == &vec!["https://x.org/a".to_string()]));
    let long = "y".repeat(2500);
    let pages = vec![("https://x.org/a".to_string(), Ok(long)), ("https://x.org/b".to_string(), Err("404".to_string()))];
    let (s2, a2) = chat_step(&s, ChatEvent::Fetched(pages));
    let last = &s2.messages[s2.messages.len() - 1].content;
    assert!(last.starts_with("\n\n--- Content from https://x.org/a ---\n\n"));
    assert!(last.ends_with("..."));
    assert_eq!(last.chars().filter(|c| *c == 'y').count(), 2000);
    match a2 {
        ChatAction::Continue { show, request: Some(_) } => assert_eq!(show, vec!["Warning: Failed to fetch https://x.org/b: 404".to_string()]),
        _ => panic!("expected a request"),
    }
    let (s3, _) = chat_step(&s2, ChatEvent::Reply(Ok("answer".to_string())));
    assert!(matches!(s3.messages.last().unwrap().role, MessageRole::Assistant));
}

#[test]
fn chat_model_switch_reaches_later_requests() {
    let (switched, _) = chat_step(&chat_state(Some("m1")), ChatEvent::Line("/model granite-x".to_string()));
    let (_, a) = chat_step(&switched, ChatEvent::Line("hello".to_string()));
    match a {
        ChatAction::Continue { request: Some(r), .. } => {
            assert_eq!(r.model, "granite-x");
            assert!(r.stream);
        }
        _ => panic!("expected a request"),
    }
    let (_, a) = chat_step(&switched, ChatEvent::Line("/model".to_string()));
    assert!(matches!(a, ChatAction::Continue { show, .. }
        if show == vec!["\nCurrent model: granite-x".to_string(), "\nAvailable bundled models:".to_string()]));
}

#[test]
fn anthropic_requests_go_to_the_messages_api_with_both_key_headers() {
    let (url, headers) = granite_cli::providers::chat::anthropic_target("https://api.anthropic.com", "k1", true);
    assert_eq!(url, "https://api.anthropic.com/v1/messages");
    let h = |n: &str| headers.iter().find(|(k, _)| k == n).map(|(_, v)| v.clone());
    assert_eq!(h("Authorization").as_deref(), Some("Bearer k1"));
    assert_eq!(h("x-api-key").as_deref(), Some("k1"));
    assert_eq!(h("anthropic-version").as_deref(), Some("2023-06-01"));
    assert_eq!(h("Accept").as_deref(), Some("text/event-stream"));
    let (_, plain) = granite_cli::providers::chat::anthropic_target("https://api.anthropic.com", "k1", false);
    assert_eq!(plain.len(), 4);
}

#[test]
fn openai_requests_go_to_chat_completions() {
    let (url, headers) = granite_cli::providers::chat::openai_target("https://api.openai.com", "k2", false);
    assert_eq!(url, "https://api.openai.com/v1/chat/completions");
    assert_eq!(headers, vec![
        ("Authorization".to_string(), "Bearer k2".to_string()),
        ("Content-Type".to_string(), "application/json".to_string()),
    ]);
    let (_, streamed) = granite_cli::providers::chat::openai_target("https://api.openai.com", "k2", true);
    assert_eq!(streamed.last().unwrap().1, "text/event-stream");
}

#[test]
fn the_system_prompt_stays_first() {
    let (s, _) = chat_step(&chat_state(Some("m1")), ChatEvent::Line("hi".to_string()));
    let (s, _) = chat_step(&s, ChatEvent::Reply(Ok("hello".to_string())));
    let (s, _) = chat_step(&s, ChatEvent::Fetched(vec![("https://x.org".to_string(), Ok("page".to_string()))]));
    let (s, _) = chat_step(&s, ChatEvent::Line("more".to_string()));
    assert!(matches!(s.messages[0].role, MessageRole::System));
    assert_eq!(s.messages[0].content, "You are a helpful assistant powered by Granite models.");
    assert_eq!(s.messages.len(), 5);
}
