//! Chat with a hosted model over the OpenAI and Anthropic wire formats: the
//! request bodies, what an HTTP answer means, and how a streamed answer is
//! read line by line. Sending and receiving are left to the caller.
use vstd::prelude::*;

use crate::json::lemma_array_view;
use crate::json::lemma_object_view;
use crate::json::members_view;
use crate::json::JsonValue;
use crate::json::JsonView;
use crate::text::decimal;
use crate::text::join2;
use crate::text::joined;
use crate::text::starts_with;
use crate::text::str_eq;
use crate::text::str_join;
use crate::text::string_views;
use crate::text::u64_to_string;

verus! {

broadcast use crate::text::group_views;

/// Who said a message.
pub enum MessageRole {
    System,
    User,
    Assistant,
}

/// The name of a role on the wire.
pub open spec fn role_text(r: MessageRole) -> Seq<char> {
    match r {
        MessageRole::System => "system"@,
        MessageRole::User => "user"@,
        MessageRole::Assistant => "assistant"@,
    }
}

impl MessageRole {
    /// The name of the role on the wire.
    pub fn text(&self) -> (s: String)
        ensures
            s@ == role_text(*self),
    {
        match self {
            MessageRole::System => "system".to_string(),
            MessageRole::User => "user".to_string(),
            MessageRole::Assistant => "assistant".to_string(),
        }
    }
}

/// One message of a conversation.
pub struct ChatMessage {
    pub role: MessageRole,
    pub content: String,
}

/// A chat request. The temperature is kept as the text of its JSON number;
/// `stream` asks for the answer to come back as it is generated.
pub struct ChatRequest {
    pub model: String,
    pub messages: Vec<ChatMessage>,
    pub temperature: Option<String>,
    pub max_tokens: Option<u32>,
    pub stop_sequences: Option<Vec<String>>,
    pub stream: bool,
}

/// Token counts of a completed chat.
pub struct UsageInfo {
    pub prompt_tokens: u32,
    pub completion_tokens: u32,
    pub total_tokens: u32,
}

/// The answer of a completed chat.
pub struct ChatResponse {
    pub content: Option<String>,
    pub finish_reason: Option<String>,
    pub usage: Option<UsageInfo>,
}

/// Why a chat failed.
pub enum ProviderError {
    /// The request could not be sent, or the answer not read.
    Http(String),
    Auth(String),
    RateLimited(String),
    ModelNotFound(String),
    Other(String),
}

/// What one line of a streamed answer gives: a piece of text, the end of
/// the stream, or nothing.
pub enum StreamStep {
    Chunk(String),
    Stop,
    Skip,
}

/*-- request bodies ------------------------------------------------------------------------*/

/// A message on the wire: its role and its content.
pub open spec fn message_json(m: ChatMessage) -> JsonView {
    JsonView::Object(seq![("role"@, JsonView::Str(role_text(m.role))), ("content"@, JsonView::Str(m.content@))])
}

/// The messages on the wire, in order.
pub open spec fn messages_json(ms: Seq<ChatMessage>) -> JsonView {
    JsonView::Array(Seq::new(ms.len(), |i: int| message_json(ms[i])))
}

/// A member that is present only when there is a value.
pub open spec fn optional_member(key: Seq<char>, v: Option<JsonView>) -> Seq<(Seq<char>, JsonView)> {
    match v {
        Some(x) => seq![(key, x)],
        None => Seq::empty(),
    }
}

/// The `stream` member, present only when streaming.
pub open spec fn stream_member(stream: bool) -> Seq<(Seq<char>, JsonView)> {
    if stream {
        seq![("stream"@, JsonView::Bool(true))]
    } else {
        Seq::empty()
    }
}

/// The temperature as a JSON number, if one is set.
pub open spec fn temperature_json(req: ChatRequest) -> Option<JsonView> {
    match req.temperature {
        Some(t) => Some(JsonView::Number(t@)),
        None => None,
    }
}

/// The body of an Anthropic messages request: model, messages, at most
/// `max_tokens` tokens (1024 when unset), the temperature when set, and
/// `stream` when streaming.
pub open spec fn anthropic_body(req: ChatRequest, stream: bool) -> JsonView {
    let max = match req.max_tokens {
        Some(n) => n as nat,
        None => 1024,
    };
    JsonView::Object(
        seq![
            ("model"@, JsonView::Str(req.model@)),
            ("messages"@, messages_json(req.messages@)),
            ("max_tokens"@, JsonView::Number(decimal(max))),
        ] + optional_member("temperature"@, temperature_json(req)) + stream_member(stream),
    )
}

/// The body of an OpenAI chat-completions request: model, messages, then the
/// temperature, the token limit and the stop sequences when set, and `stream`
/// when streaming.
pub open spec fn openai_body(req: ChatRequest, stream: bool) -> JsonView {
    JsonView::Object(
        seq![("model"@, JsonView::Str(req.model@)), ("messages"@, messages_json(req.messages@))]
            + optional_member("temperature"@, temperature_json(req)) + optional_member(
            "max_tokens"@,
            match req.max_tokens {
                Some(n) => Some(JsonView::Number(decimal(n as nat))),
                None => None,
            },
        ) + optional_member(
            "stop"@,
            match req.stop_sequences {
                Some(s) => Some(
                    JsonView::Array(Seq::new(s@.len(), |i: int| JsonView::Str(s@[i]@))),
                ),
                None => None,
            },
        ) + stream_member(stream),
    )
}

fn messages_value(ms: &Vec<ChatMessage>) -> (v: JsonValue)
    ensures
        v@ == messages_json(ms@),
{
    let mut items: Vec<JsonValue> = Vec::new();
    let mut i: usize = 0;
    while i < ms.len()
        invariant
            i <= ms@.len(),
            items@.len() == i,
            forall|j: int| 0 <= j < i ==> #[trigger] items@[j]@ == message_json(ms@[j]),
        decreases ms@.len() - i,
    {
        let members: Vec<(String, JsonValue)> = vec![
            ("role".to_string(), JsonValue::Str(ms[i].role.text())),
            ("content".to_string(), JsonValue::Str(crate::text::owned(ms[i].content.as_str()))),
        ];
        proof {
            lemma_object_view(members);
            assert(members_view(members@) =~= seq![
                ("role"@, JsonView::Str(role_text(ms@[i as int].role))),
                ("content"@, JsonView::Str(ms@[i as int].content@)),
            ]);
        }
        items.push(JsonValue::Object(members));
        i += 1;
    }
    proof {
        lemma_array_view(items);
        assert forall|j: int| 0 <= j < items@.len() implies crate::json::json_view(items@[j]) == message_json(ms@[j]) by {
            assert(items@[j]@ == message_json(ms@[j]));
        }
        assert(Seq::new(items@.len(), |j: int| crate::json::json_view(items@[j])) =~= Seq::new(
            ms@.len(),
            |j: int| message_json(ms@[j]),
        ));
    }
    JsonValue::Array(items)
}

fn strings_value(s: &Vec<String>) -> (v: JsonValue)
    ensures
        v@ == JsonView::Array(Seq::new(s@.len(), |i: int| JsonView::Str(s@[i]@))),
{
    let mut items: Vec<JsonValue> = Vec::new();
    let mut i: usize = 0;
    while i < s.len()
        invariant
            i <= s@.len(),
            items@.len() == i,
            forall|j: int| 0 <= j < i ==> #[trigger] items@[j]@ == JsonView::Str(s@[j]@),
        decreases s@.len() - i,
    {
        items.push(JsonValue::Str(crate::text::owned(s[i].as_str())));
        i += 1;
    }
    proof {
        lemma_array_view(items);
        assert forall|j: int| 0 <= j < items@.len() implies crate::json::json_view(items@[j]) == JsonView::Str(s@[j]@) by {
            assert(items@[j]@ == JsonView::Str(s@[j]@));
        }
        assert(Seq::new(items@.len(), |j: int| crate::json::json_view(items@[j])) =~= Seq::new(s@.len(), |j: int| JsonView::Str(s@[j]@)));
    }
    JsonValue::Array(items)
}

fn push_member(members: &mut Vec<(String, JsonValue)>, key: &str, value: JsonValue)
    ensures
        members_view(final(members)@) == members_view(old(members)@).push((key@, value@)),
{
    members.push((key.to_string(), value));
    assert(members_view(members@) =~= members_view(old(members)@).push((key@, value@)));
}

fn push_optional_temperature(members: &mut Vec<(String, JsonValue)>, req: &ChatRequest)
    ensures
        members_view(final(members)@) == members_view(old(members)@) + optional_member(
            "temperature"@,
            temperature_json(*req),
        ),
{
    match &req.temperature {
        Some(t) => {
            push_member(members, "temperature", JsonValue::Number(crate::text::owned(t.as_str())));
        },
        None => {},
    }
    assert(members_view(members@) =~= members_view(old(members)@) + optional_member(
        "temperature"@,
        temperature_json(*req),
    ));
}

fn push_stream(members: &mut Vec<(String, JsonValue)>, stream: bool)
    ensures
        members_view(final(members)@) == members_view(old(members)@) + stream_member(stream),
{
    if stream {
        push_member(members, "stream", JsonValue::Bool(true));
    }
    assert(members_view(members@) =~= members_view(old(members)@) + stream_member(stream));
}

/// The body of an Anthropic messages request; refused when there are no messages.
pub fn anthropic_request(req: &ChatRequest, stream: bool) -> (r: Result<JsonValue, ProviderError>)
    ensures
        match r {
            Ok(v) => req.messages@.len() > 0 && v@ == anthropic_body(*req, stream),
            Err(e) => req.messages@.len() == 0 && (e matches ProviderError::Other(m) && m@
                == "Message list cannot be empty"@),
        },
{
    if req.messages.len() == 0 {
        return Err(ProviderError::Other("Message list cannot be empty".to_string()));
    }
    let mut members: Vec<(String, JsonValue)> = Vec::new();
    push_member(&mut members, "model", JsonValue::Str(crate::text::owned(req.model.as_str())));
    push_member(&mut members, "messages", messages_value(&req.messages));
    let max: u32 = match req.max_tokens {
        Some(n) => n,
        None => 1024,
    };
    push_member(&mut members, "max_tokens", JsonValue::Number(u64_to_string(max as u64)));
    let ghost head = members_view(members@);
    push_optional_temperature(&mut members, req);
    push_stream(&mut members, stream);
    proof {
        lemma_object_view(members);
        let max_n: nat = match req.max_tokens {
            Some(n) => n as nat,
            None => 1024,
        };
        assert(head =~= seq![
            ("model"@, JsonView::Str(req.model@)),
            ("messages"@, messages_json(req.messages@)),
            ("max_tokens"@, JsonView::Number(decimal(max_n))),
        ]);
    }
    Ok(JsonValue::Object(members))
}

/// The body of an OpenAI chat-completions request.
pub fn openai_request(req: &ChatRequest, stream: bool) -> (v: JsonValue)
    ensures
        v@ == openai_body(*req, stream),
{
    let mut members: Vec<(String, JsonValue)> = Vec::new();
    push_member(&mut members, "model", JsonValue::Str(crate::text::owned(req.model.as_str())));
    push_member(&mut members, "messages", messages_value(&req.messages));
    let ghost head = members_view(members@);
    push_optional_temperature(&mut members, req);
    let ghost t = members_view(members@);
    match req.max_tokens {
        Some(n) => push_member(&mut members, "max_tokens", JsonValue::Number(u64_to_string(n as u64))),
        None => {},
    }
    let ghost m = members_view(members@);
    match &req.stop_sequences {
        Some(s) => push_member(&mut members, "stop", strings_value(s)),
        None => {},
    }
    let ghost st = members_view(members@);
    push_stream(&mut members, stream);
    proof {
        lemma_object_view(members);
        let mt = optional_member(
            "max_tokens"@,
            match req.max_tokens {
                Some(n) => Some(JsonView::Number(decimal(n as nat))),
                None => None,
            },
        );
        let so = optional_member(
            "stop"@,
            match &req.stop_sequences {
                Some(s) => Some(JsonView::Array(Seq::new(s@.len(), |i: int| JsonView::Str(s@[i]@)))),
                None => None,
            },
        );
        assert(m =~= t + mt);
        assert(st =~= m + so);
        assert(head =~= seq![("model"@, JsonView::Str(req.model@)), ("messages"@, messages_json(req.messages@))]);
    }
    JsonValue::Object(members)
}

/*-- answers -------------------------------------------------------------------------------------*/

/// What an Anthropic answer holds: the text of each content block (none for
/// a block without text), why it stopped, and the token counts.
pub struct AnthropicResponse {
    pub block_texts: Vec<Option<String>>,
    pub stop_reason: Option<String>,
    pub input_tokens: u32,
    pub output_tokens: u32,
}

/// One choice of an OpenAI answer: its message's content and why it stopped.
pub struct OpenAiChoice {
    pub content: Option<String>,
    pub finish_reason: Option<String>,
}

/// What an OpenAI answer holds.
pub struct OpenAiResponse {
    pub choices: Vec<OpenAiChoice>,
    pub usage: Option<UsageInfo>,
}

/// An HTTP status of success (200 to 299).
pub open spec fn is_success(status: u16) -> bool {
    200 <= status && status < 300
}

/// The error a failed HTTP status gives: 401 refuses the key, 429 (when
/// `rate_limits`) passes the body on, any other failure names status and body.
pub open spec fn failure_matches(status: u16, body: Seq<char>, rate_limits: bool, e: ProviderError) -> bool {
    if status == 401 {
        e matches ProviderError::Auth(m) && m@ == "Invalid or missing API key"@
    } else if status == 429 && rate_limits {
        e matches ProviderError::RateLimited(m) && m@ == body
    } else {
        e matches ProviderError::Other(m) && m@ == "HTTP "@ + decimal(status as nat) + ": "@ + body
    }
}

fn failure(status: u16, body: &str, rate_limits: bool) -> (e: ProviderError)
    requires
        status == 401 || !is_success(status),
    ensures
        failure_matches(status, body@, rate_limits, e),
{
    if status == 401 {
        ProviderError::Auth("Invalid or missing API key".to_string())
    } else if status == 429 && rate_limits {
        ProviderError::RateLimited(crate::text::owned(body))
    } else {
        let a = join2("HTTP ", u64_to_string(status as u64).as_str());
        let b = join2(a.as_str(), ": ");
        ProviderError::Other(join2(b.as_str(), body))
    }
}

/// The texts of the blocks that have one, in order.
pub open spec fn present_texts(blocks: Seq<Option<String>>) -> Seq<Seq<char>>
    decreases blocks.len(),
{
    if blocks.len() == 0 {
        Seq::empty()
    } else {
        let rest = present_texts(blocks.drop_last());
        match blocks.last() {
            Some(t) => rest.push(t@),
            None => rest,
        }
    }
}

/// The content of an Anthropic answer: its block texts joined by newlines,
/// none when that is empty.
pub open spec fn anthropic_content(blocks: Seq<Option<String>>) -> Option<Seq<char>> {
    let text = joined(present_texts(blocks), "\n"@);
    if text.len() == 0 {
        None
    } else {
        Some(text)
    }
}

/// The error for an answer that came back with `status` and `body` but was
/// not to be read, or `None` when it succeeded. `rate_limits` tells whether a
/// 429 is reported as such (a completed chat) or as any other failure (a stream).
pub fn answer_failure(status: u16, body: &str, rate_limits: bool) -> (r: Option<ProviderError>)
    ensures
        match r {
            Some(e) => (status == 401 || !is_success(status)) && failure_matches(status, body@, rate_limits, e),
            None => status != 401 && is_success(status),
        },
{
    if status == 401 || !(200 <= status && status < 300) {
        Some(failure(status, body, rate_limits))
    } else {
        None
    }
}

/// What a completed Anthropic chat gives, from the answer's status, its body
/// and the body read as an answer (or the message of why it could not be).
pub fn anthropic_outcome(status: u16, body: &str, parsed: Result<AnthropicResponse, String>) -> (r: Result<
    ChatResponse,
    ProviderError,
>)
    requires
        is_success(status) ==> (parsed matches Ok(a) ==> a.input_tokens + a.output_tokens <= u32::MAX),
    ensures
        (status == 401 || !is_success(status)) ==> (r matches Err(e) && failure_matches(status, body@, true, e)),
        (status != 401 && is_success(status)) ==> match parsed {
            Err(m) => (r matches Err(ProviderError::Http(x)) && x@ == m@),
            Ok(a) => (r matches Ok(resp) && (match resp.content {
                Some(c) => anthropic_content(a.block_texts@) == Some(c@),
                None => anthropic_content(a.block_texts@) is None,
            }) && resp.finish_reason == a.stop_reason && (resp.usage matches Some(u) && u.prompt_tokens
                == a.input_tokens && u.completion_tokens == a.output_tokens && u.total_tokens == a.input_tokens
                + a.output_tokens)),
        },
{
    match answer_failure(status, body, true) {
        Some(e) => Err(e),
        None => match parsed {
            Err(m) => Err(ProviderError::Http(m)),
            Ok(a) => {
                let mut texts: Vec<String> = Vec::new();
                let mut i: usize = 0;
                while i < a.block_texts.len()
                    invariant
                        i <= a.block_texts@.len(),
                        string_views(texts@) == present_texts(a.block_texts@.take(i as int)),
                    decreases a.block_texts@.len() - i,
                {
                    proof {
                        assert(a.block_texts@.take(i + 1).drop_last() =~= a.block_texts@.take(i as int));
                    }
                    match &a.block_texts[i] {
                        Some(t) => {
                            texts.push(crate::text::owned(t.as_str()));
                        },
                        None => {},
                    }
                    i += 1;
                }
                assert(a.block_texts@.take(i as int) =~= a.block_texts@);
                let text = str_join(&texts, "\n");
                proof {
                    reveal_strlit("\n");
                }
                let content = if text.as_str().unicode_len() == 0 {
                    None
                } else {
                    Some(text)
                };
                let usage = UsageInfo {
                    prompt_tokens: a.input_tokens,
                    completion_tokens: a.output_tokens,
                    total_tokens: a.input_tokens + a.output_tokens,
                };
                Ok(ChatResponse { content, finish_reason: a.stop_reason, usage: Some(usage) })
            },
        },
    }
}

/// What a completed OpenAI chat gives: the first choice's content and
/// finish reason, and the token counts when the answer has them.
pub fn openai_outcome(status: u16, body: &str, parsed: Result<OpenAiResponse, String>) -> (r: Result<
    ChatResponse,
    ProviderError,
>)
    ensures
        (status == 401 || !is_success(status)) ==> (r matches Err(e) && failure_matches(status, body@, true, e)),
        (status != 401 && is_success(status)) ==> match parsed {
            Err(m) => (r matches Err(ProviderError::Http(x)) && x@ == m@),
            Ok(o) => (r matches Ok(resp) && (if o.choices@.len() > 0 {
                resp.content == o.choices@[0].content && resp.finish_reason == o.choices@[0].finish_reason
            } else {
                resp.content is None && resp.finish_reason is None
            }) && resp.usage == o.usage),
        },
{
    match answer_failure(status, body, true) {
        Some(e) => Err(e),
        None => match parsed {
            Err(m) => Err(ProviderError::Http(m)),
            Ok(o) => {
                let mut choices = o.choices;
                let (content, finish_reason) = if choices.len() > 0 {
                    let first = choices.remove(0);
                    (first.content, first.finish_reason)
                } else {
                    (None, None)
                };
                Ok(ChatResponse { content, finish_reason, usage: o.usage })
            },
        },
    }
}

/*-- streamed answers ----------------------------------------------------------------------*/

/// The data of a server-sent-events line: what follows `"data: "`.
pub open spec fn line_data(line: Seq<char>) -> Option<Seq<char>> {
    if starts_with(line, "data: "@) {
        Some(line.skip(6))
    } else {
        None
    }
}

/// The data of a server-sent-events line, if it is a data line.
pub fn sse_data(line: &str) -> (r: Option<String>)
    ensures
        match r {
            Some(d) => line_data(line@) == Some(d@),
            None => line_data(line@) is None,
        },
{
    proof {
        reveal_strlit("data: ");
    }
    if crate::text::str_starts_with(line, "data: ") {
        let v = crate::text::chars_of(line);
        let d = crate::text::string_of_range(&v, 6, v.len());
        assert(v@.subrange(6, v@.len() as int) =~= line@.skip(6));
        Some(d)
    } else {
        None
    }
}

/// A stream step, by its view.
pub open spec fn step_is(s: StreamStep, chunk: Option<Seq<char>>, stop: bool) -> bool {
    match s {
        StreamStep::Chunk(t) => chunk == Some(t@),
        StreamStep::Stop => chunk is None && stop,
        StreamStep::Skip => chunk is None && !stop,
    }
}

/// What one Anthropic stream event gives, from its type and its delta's text.
pub fn anthropic_stream_step(event_type: &str, delta_text: Option<&str>) -> (r: StreamStep)
    ensures
        event_type@ == "content_block_delta"@ ==> step_is(
            r,
            match delta_text {
                Some(t) => if t@.len() > 0 {
                    Some(t@)
                } else {
                    None
                },
                None => None,
            },
            false,
        ),
        event_type@ == "message_stop"@ ==> step_is(r, None, true),
        event_type@ != "content_block_delta"@ && event_type@ != "message_stop"@ ==> step_is(r, None, false),
{
    proof {
        reveal_strlit("content_block_delta");
        reveal_strlit("message_stop");
        assert("content_block_delta"@.len() != "message_stop"@.len());
    }
    if str_eq(event_type, "content_block_delta") {
        match delta_text {
            Some(t) => {
                if t.unicode_len() > 0 {
                    StreamStep::Chunk(crate::text::owned(t))
                } else {
                    StreamStep::Skip
                }
            },
            None => StreamStep::Skip,
        }
    } else if str_eq(event_type, "message_stop") {
        StreamStep::Stop
    } else {
        StreamStep::Skip
    }
}

/// What one OpenAI stream data line gives: the end at `[DONE]`, the delta's
/// content when it is not empty, nothing otherwise.
pub fn openai_stream_step(data: &str, delta_content: Option<&str>) -> (r: StreamStep)
    ensures
        data@ == "[DONE]"@ ==> step_is(r, None, true),
        data@ != "[DONE]"@ ==> step_is(
            r,
            match delta_content {
                Some(t) => if t@.len() > 0 {
                    Some(t@)
                } else {
                    None
                },
                None => None,
            },
            false,
        ),
{
    if str_eq(data, "[DONE]") {
        return StreamStep::Stop;
    }
    match delta_content {
        Some(t) => {
            if t.unicode_len() > 0 {
                StreamStep::Chunk(crate::text::owned(t))
            } else {
                StreamStep::Skip
            }
        },
        None => StreamStep::Skip,
    }
}

/// The piece of text a received block of lines gives: the first chunk
/// before any stop, in line order.
pub open spec fn first_chunk(steps: Seq<StreamStep>) -> Option<Seq<char>>
    decreases steps.len(),
{
    if steps.len() == 0 {
        None
    } else {
        match steps[0] {
            StreamStep::Chunk(t) => Some(t@),
            StreamStep::Stop => None,
            StreamStep::Skip => first_chunk(steps.drop_first()),
        }
    }
}

/// The piece of text a received block gives, from the steps of its lines.
pub fn chunk_of_block(steps: &Vec<StreamStep>) -> (r: Option<String>)
    ensures
        match r {
            Some(t) => first_chunk(steps@) == Some(t@),
            None => first_chunk(steps@) is None,
        },
{
    let mut i: usize = 0;
    assert(steps@.skip(0) =~= steps@);
    while i < steps.len()
        invariant
            i <= steps@.len(),
            first_chunk(steps@) == first_chunk(steps@.skip(i as int)),
        decreases steps@.len() - i,
    {
        assert(steps@.skip(i as int).drop_first() =~= steps@.skip(i + 1));
        assert(steps@.skip(i as int)[0] == steps@[i as int]);
        match &steps[i] {
            StreamStep::Chunk(t) => {
                return Some(crate::text::owned(t.as_str()));
            },
            StreamStep::Stop => {
                return None;
            },
            StreamStep::Skip => {},
        }
        i += 1;
    }
    None
}

/*-- request targets ----------------------------------------------------------------*/

/// Header pairs, by their views.
pub open spec fn string_pairs(h: Seq<(String, String)>) -> Seq<(Seq<char>, Seq<char>)> {
    Seq::new(h.len(), |i: int| (h[i].0@, h[i].1@))
}

/// The headers of a request to the Anthropic messages API: the key both as
/// a bearer token and as `x-api-key`, the API version, and for a streamed
/// answer the event-stream `Accept`.
pub open spec fn anthropic_headers(api_key: Seq<char>, stream: bool) -> Seq<(Seq<char>, Seq<char>)> {
    let base = seq![
        ("Authorization"@, "Bearer "@ + api_key),
        ("Content-Type"@, "application/json"@),
        ("x-api-key"@, api_key),
        ("anthropic-version"@, "2023-06-01"@),
    ];
    if stream {
        base.push(("Accept"@, "text/event-stream"@))
    } else {
        base
    }
}

/// The headers of a request to an OpenAI-compatible chat API: the key as a
/// bearer token, and for a streamed answer the event-stream `Accept`.
pub open spec fn openai_headers(api_key: Seq<char>, stream: bool) -> Seq<(Seq<char>, Seq<char>)> {
    let base = seq![("Authorization"@, "Bearer "@ + api_key), ("Content-Type"@, "application/json"@)];
    if stream {
        base.push(("Accept"@, "text/event-stream"@))
    } else {
        base
    }
}

fn header(name: &str, value: String) -> (h: (String, String))
    ensures
        h.0@ == name@,
        h.1@ == value@,
{
    (name.to_string(), value)
}

/// Where a chat request to the Anthropic messages API at `endpoint` is
/// posted, and with which headers.
pub fn anthropic_target(endpoint: &str, api_key: &str, stream: bool) -> (r: (String, Vec<(String, String)>))
    ensures
        r.0@ == endpoint@ + "/v1/messages"@,
        string_pairs(r.1@) == anthropic_headers(api_key@, stream),
{
    let mut h: Vec<(String, String)> = Vec::new();
    h.push(header("Authorization", join2("Bearer ", api_key)));
    h.push(header("Content-Type", "application/json".to_string()));
    h.push(header("x-api-key", crate::text::owned(api_key)));
    h.push(header("anthropic-version", "2023-06-01".to_string()));
    if stream {
        h.push(header("Accept", "text/event-stream".to_string()));
    }
    assert(string_pairs(h@) =~= anthropic_headers(api_key@, stream));
    (join2(endpoint, "/v1/messages"), h)
}

/// Where a chat request to an OpenAI-compatible API at `endpoint` is posted,
/// and with which headers.
pub fn openai_target(endpoint: &str, api_key: &str, stream: bool) -> (r: (String, Vec<(String, String)>))
    ensures
        r.0@ == endpoint@ + "/v1/chat/completions"@,
        string_pairs(r.1@) == openai_headers(api_key@, stream),
{
    let mut h: Vec<(String, String)> = Vec::new();
    h.push(header("Authorization", join2("Bearer ", api_key)));
    h.push(header("Content-Type", "application/json".to_string()));
    if stream {
        h.push(header("Accept", "text/event-stream".to_string()));
    }
    assert(string_pairs(h@) =~= openai_headers(api_key@, stream));
    (join2(endpoint, "/v1/chat/completions"), h)
}

} // verus!
