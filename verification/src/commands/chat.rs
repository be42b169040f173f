//! The chat loop's decisions: what a typed line does (a slash command, or a
//! message to send), how fetched pages join the conversation, and what is
//! kept of an answer. Reading lines, fetching pages and talking to the
//! provider are left to the caller, which feeds the results back as events.
use vstd::prelude::*;

use crate::di::resolver::split_whitespace;
use crate::di::resolver::word_scan;
use crate::di::resolver::words;
use crate::providers::chat::ChatMessage;
use crate::providers::chat::ChatRequest;
use crate::providers::chat::MessageRole;
use crate::text::join2;
use crate::text::starts_with;
use crate::text::str_eq;
use crate::text::str_starts_with;
use crate::text::str_trim;
use crate::text::string_views;
use crate::text::trim;

verus! {

broadcast use crate::text::group_views;

/// The conversation so far, the model chosen with `/model`, and the model of
/// the provider the chat talks to (none when no provider is configured).
pub struct ChatState {
    pub messages: Vec<ChatMessage>,
    pub model_id: Option<String>,
    pub provider_model: Option<String>,
}

/// What happens next in the chat loop.
pub enum ChatEvent {
    /// The user typed a line.
    Line(String),
    /// The pages asked for were fetched: each URL with its text or why it failed.
    Fetched(Vec<(String, Result<String, String>)>),
    /// The provider answered with this text, or could not be asked.
    Reply(Result<String, String>),
}

/// What the caller does next.
pub enum ChatAction {
    /// Leave the chat.
    Exit,
    /// Show these lines, then send the request if there is one.
    Continue { show: Vec<String>, request: Option<ChatRequest> },
    /// Fetch these pages, then report them with `ChatEvent::Fetched`.
    Fetch(Vec<String>),
}

/// A message, by its view.
pub open spec fn message_view(m: ChatMessage) -> (MessageRole, Seq<char>) {
    (m.role, m.content@)
}

/// The messages, by their views.
pub open spec fn messages_view(ms: Seq<ChatMessage>) -> Seq<(MessageRole, Seq<char>)> {
    Seq::new(ms.len(), |i: int| message_view(ms[i]))
}

/// An optional text, by its view.
pub open spec fn opt_view(o: Option<String>) -> Option<Seq<char>> {
    match o {
        Some(s) => Some(s@),
        None => None,
    }
}

/// The system prompt a conversation starts with.
pub open spec fn system_prompt() -> Seq<char> {
    "You are a helpful assistant powered by Granite models."@
}

/// The conversation, opened with the system prompt when it is empty.
pub open spec fn opened(ms: Seq<(MessageRole, Seq<char>)>) -> Seq<(MessageRole, Seq<char>)> {
    if ms.len() == 0 {
        seq![(MessageRole::System, system_prompt())]
    } else {
        ms
    }
}

/// The help shown by `/help`.
pub open spec fn help_lines() -> Seq<Seq<char>> {
    seq![
        "\nAvailable commands:"@,
        "  /help     - Show this help message"@,
        "  /clear    - Clear conversation history"@,
        "  /exit     - Exit the chatbot"@,
        "  /quit     - Exit the chatbot"@,
        "  /model [id] - Switch to a different model"@,
        "              Without argument, shows available models"@,
        ""@,
        "Tips:"@,
        "  - Paste URLs in your message to include web content"@,
        "  - URLs are fetched and converted to markdown"@,
        "  - Conversation history is kept in memory for context"@,
    ]
}

/// What is said when there is no provider to ask.
pub open spec fn no_provider_lines() -> Seq<Seq<char>> {
    seq![
        "\nNo provider configured. Configure a provider first:"@,
        "  granite-cli provider setup <provider-id>"@,
        ""@,
        "Or run without a model:"@,
        "  granite-cli run <model-id>"@,
        ""@,
        "Available bundled models:"@,
        ""@,
    ]
}

/// The URLs of a line: its words that begin with `http://` or `https://`.
pub open spec fn urls_of(ws: Seq<Seq<char>>) -> Seq<Seq<char>>
    decreases ws.len(),
{
    if ws.len() == 0 {
        Seq::empty()
    } else {
        let rest = urls_of(ws.drop_last());
        if starts_with(ws.last(), "http://"@) || starts_with(ws.last(), "https://"@) {
            rest.push(ws.last())
        } else {
            rest
        }
    }
}

/// A fetched page as it joins the conversation: its first 2000 characters
/// and `...` when it is longer.
pub open spec fn page_text(url: Seq<char>, content: Seq<char>) -> Seq<char> {
    let kept = if content.len() > 2000 {
        content.take(2000) + "..."@
    } else {
        content
    };
    "\n\n--- Content from "@ + url + " ---\n\n"@ + kept
}

/// The request sent for the conversation `ms` to `model`: streamed, at
/// temperature 0.7, with at most 2048 tokens and no stop sequences.
pub open spec fn request_for(r: ChatRequest, model: Seq<char>, ms: Seq<(MessageRole, Seq<char>)>) -> bool {
    &&& r.model@ == model
    &&& messages_view(r.messages@) == ms
    &&& (r.temperature matches Some(t) && t@ == "0.7"@)
    &&& r.max_tokens == Some(2048u32)
    &&& r.stop_sequences is None
    &&& r.stream
}

/// The model the chat talks to: the one chosen with `/model`, else the
/// provider's.
pub open spec fn model_in_use(model_id: Option<String>, provider_model: Seq<char>) -> Seq<char> {
    match model_id {
        Some(m) => m@,
        None => provider_model,
    }
}

/// What asking the provider about `ms` does: send the request, to the model
/// in use, when there is a provider; say that there is none otherwise.
pub open spec fn ask_action(
    a: ChatAction,
    provider_model: Option<String>,
    model_id: Option<String>,
    ms: Seq<(MessageRole, Seq<char>)>,
) -> bool {
    match provider_model {
        Some(m) => (a matches ChatAction::Continue { show, request } && show@.len() == 0 && (request matches Some(r)
            && request_for(r, model_in_use(model_id, m@), ms))),
        None => (a matches ChatAction::Continue { show, request } && string_views(show@) == no_provider_lines()
            && request is None),
    }
}

fn copy_message(m: &ChatMessage) -> (r: ChatMessage)
    ensures
        message_view(r) == message_view(*m),
{
    let role = match m.role {
        MessageRole::System => MessageRole::System,
        MessageRole::User => MessageRole::User,
        MessageRole::Assistant => MessageRole::Assistant,
    };
    ChatMessage { role, content: crate::text::owned(m.content.as_str()) }
}

fn copy_messages(ms: &Vec<ChatMessage>) -> (r: Vec<ChatMessage>)
    ensures
        messages_view(r@) == messages_view(ms@),
{
    let mut r: Vec<ChatMessage> = Vec::new();
    let mut i: usize = 0;
    while i < ms.len()
        invariant
            i <= ms@.len(),
            r@.len() == i,
            forall|j: int| 0 <= j < i ==> #[trigger] message_view(r@[j]) == message_view(ms@[j]),
        decreases ms@.len() - i,
    {
        r.push(copy_message(&ms[i]));
        i += 1;
    }
    assert(messages_view(r@) =~= messages_view(ms@));
    r
}

fn push_message(ms: &mut Vec<ChatMessage>, role: MessageRole, content: String)
    ensures
        messages_view(final(ms)@) == messages_view(old(ms)@).push((role, content@)),
{
    ms.push(ChatMessage { role, content });
    assert(messages_view(ms@) =~= messages_view(old(ms)@).push((role, content@)));
}

fn lines_of(items: Seq<Seq<char>>, v: Vec<String>) -> (r: Vec<String>)
    requires
        string_views(v@) == items,
    ensures
        string_views(r@) == items,
{
    v
}

fn help_vec() -> (r: Vec<String>)
    ensures
        string_views(r@) == help_lines(),
{
    let v = vec![
        "\nAvailable commands:".to_string(),
        "  /help     - Show this help message".to_string(),
        "  /clear    - Clear conversation history".to_string(),
        "  /exit     - Exit the chatbot".to_string(),
        "  /quit     - Exit the chatbot".to_string(),
        "  /model [id] - Switch to a different model".to_string(),
        "              Without argument, shows available models".to_string(),
        "".to_string(),
        "Tips:".to_string(),
        "  - Paste URLs in your message to include web content".to_string(),
        "  - URLs are fetched and converted to markdown".to_string(),
        "  - Conversation history is kept in memory for context".to_string(),
    ];
    assert(string_views(v@) =~= help_lines());
    v
}

fn no_provider_vec() -> (r: Vec<String>)
    ensures
        string_views(r@) == no_provider_lines(),
{
    let v = vec![
        "\nNo provider configured. Configure a provider first:".to_string(),
        "  granite-cli provider setup <provider-id>".to_string(),
        "".to_string(),
        "Or run without a model:".to_string(),
        "  granite-cli run <model-id>".to_string(),
        "".to_string(),
        "Available bundled models:".to_string(),
        "".to_string(),
    ];
    assert(string_views(v@) =~= no_provider_lines());
    v
}

/// Asks the provider about the conversation, or says there is none.
fn ask(state: &ChatState) -> (a: ChatAction)
    ensures
        ask_action(a, state.provider_model, state.model_id, messages_view(state.messages@)),
{
    match &state.provider_model {
        Some(m) => {
            let model = match &state.model_id {
                Some(chosen) => crate::text::owned(chosen.as_str()),
                None => crate::text::owned(m.as_str()),
            };
            let request = ChatRequest {
                model,
                messages: copy_messages(&state.messages),
                temperature: Some("0.7".to_string()),
                max_tokens: Some(2048),
                stop_sequences: None,
                stream: true,
            };
            ChatAction::Continue { show: Vec::new(), request: Some(request) }
        },
        None => ChatAction::Continue { show: no_provider_vec(), request: None },
    }
}

fn urls_exec(ws: &Vec<String>) -> (r: Vec<String>)
    ensures
        string_views(r@) == urls_of(string_views(ws@)),
{
    let ghost wv = string_views(ws@);
    let mut r: Vec<String> = Vec::new();
    let mut i: usize = 0;
    assert(wv.take(0) =~= Seq::<Seq<char>>::empty());
    while i < ws.len()
        invariant
            i <= ws@.len(),
            wv == string_views(ws@),
            string_views(r@) == urls_of(wv.take(i as int)),
        decreases ws@.len() - i,
    {
        proof {
            assert(wv.take(i + 1).drop_last() =~= wv.take(i as int));
            assert(wv.take(i + 1).last() == ws@[i as int]@);
        }
        if str_starts_with(ws[i].as_str(), "http://") || str_starts_with(ws[i].as_str(), "https://") {
            r.push(crate::text::owned(ws[i].as_str()));
        }
        i += 1;
    }
    assert(wv.take(i as int) =~= wv);
    r
}

fn page_exec(url: &str, content: &str) -> (s: String)
    ensures
        s@ == page_text(url@, content@),
{
    let v = crate::text::chars_of(content);
    let kept = if v.len() > 2000 {
        let head = crate::text::string_of_range(&v, 0, 2000);
        assert(v@.subrange(0, 2000) =~= content@.take(2000));
        join2(head.as_str(), "...")
    } else {
        crate::text::owned(content)
    };
    let a = join2("\n\n--- Content from ", url);
    let b = join2(a.as_str(), " ---\n\n");
    join2(b.as_str(), kept.as_str())
}

/// The conversation after fetched pages joined it, each page that came back
/// in order; the warnings for those that did not.
pub open spec fn fetched_messages(
    ms: Seq<(MessageRole, Seq<char>)>,
    pages: Seq<(String, Result<String, String>)>,
) -> (Seq<(MessageRole, Seq<char>)>, Seq<Seq<char>>)
    decreases pages.len(),
{
    if pages.len() == 0 {
        (ms, Seq::empty())
    } else {
        let prev = fetched_messages(ms, pages.drop_last());
        let (url, got) = pages.last();
        match got {
            Ok(content) => (prev.0.push((MessageRole::User, page_text(url@, content@))), prev.1),
            Err(e) => (prev.0, prev.1.push("Warning: Failed to fetch "@ + url@ + ": "@ + e@)),
        }
    }
}

proof fn lemma_scan_nonempty(s: Seq<char>)
    requires
        s.len() > 0,
        !crate::text::is_whitespace(s[0]),
    ensures
        word_scan(s).0.len() > 0 || word_scan(s).1.len() > 0,
    decreases s.len(),
{
    if s.len() > 1 {
        let p = s.drop_last();
        assert(p[0] == s[0]);
        lemma_scan_nonempty(p);
    }
}

/// A text that begins with other than whitespace has a first word.
proof fn lemma_words_nonempty(s: Seq<char>)
    requires
        s.len() > 0,
        !crate::text::is_whitespace(s[0]),
    ensures
        words(s).len() > 0,
{
    lemma_scan_nonempty(s);
}

/// One step of the chat loop: the next state and what the caller does.
///
/// A line is trimmed; an empty one does nothing. A line that starts with `/`
/// is a command: `/exit` and `/quit` leave, `/clear` empties the
/// conversation, `/help` shows the help, `/model <id>` chooses the model
/// later requests go to;
/// `/model` alone names the model in use and heads the list of bundled
/// models, or says there is no provider;
/// anything else does nothing. Any other line joins the conversation (opened
/// with the system prompt when empty) as the user's; when it holds URLs
/// their pages are fetched first, else the provider is asked. Fetched pages
/// join the conversation, and then the provider is asked. A reply joins the
/// conversation as the assistant's; a failure to ask is shown.
pub fn chat_step(state: &ChatState, event: ChatEvent) -> (r: (ChatState, ChatAction))
    ensures
        opt_view(r.0.provider_model) == opt_view(state.provider_model),
        match event {
            ChatEvent::Line(input) => {
                let t = trim(input@);
                let ms = opened(messages_view(state.messages@));
                if t.len() == 0 {
                    messages_view(r.0.messages@) == ms && opt_view(r.0.model_id) == opt_view(state.model_id) && (r.1 matches ChatAction::Continue { show, request }
                        && show@.len() == 0 && request is None)
                } else if t[0] == '/' {
                    let w = words(t);
                    if w[0] == "/exit"@ || w[0] == "/quit"@ {
                        (r.1 is Exit) && messages_view(r.0.messages@) == ms && opt_view(r.0.model_id) == opt_view(state.model_id)
                    } else if w[0] == "/clear"@ {
                        r.0.messages@.len() == 0 && opt_view(r.0.model_id) == opt_view(state.model_id) && (r.1 matches ChatAction::Continue { show, request }
                            && string_views(show@) == seq!["Conversation cleared."@] && request is None)
                    } else if w[0] == "/help"@ {
                        messages_view(r.0.messages@) == ms && opt_view(r.0.model_id) == opt_view(state.model_id) && (r.1 matches ChatAction::Continue { show, request }
                            && string_views(show@) == help_lines() && request is None)
                    } else if w[0] == "/model"@ && w.len() > 1 {
                        messages_view(r.0.messages@) == ms && (r.0.model_id matches Some(m) && m@ == w[1]) && (r.1 matches ChatAction::Continue { show, request }
                            && string_views(show@) == seq!["Switched to model: "@ + w[1]] && request is None)
                    } else if w[0] == "/model"@ {
                        messages_view(r.0.messages@) == ms && opt_view(r.0.model_id) == opt_view(state.model_id) && (r.1 matches ChatAction::Continue { show, request }
                            && request is None && string_views(show@) == match state.provider_model {
                            Some(m) => seq![
                                "\nCurrent model: "@ + model_in_use(state.model_id, m@),
                                "\nAvailable bundled models:"@,
                            ],
                            None => seq!["No provider configured. Run: granite-cli provider setup <id>"@],
                        })
                    } else {
                        messages_view(r.0.messages@) == ms && opt_view(r.0.model_id) == opt_view(state.model_id) && (r.1 matches ChatAction::Continue { show, request }
                            && show@.len() == 0 && request is None)
                    }
                } else {
                    let ms2 = ms.push((MessageRole::User, t));
                    let urls = urls_of(words(t));
                    &&& messages_view(r.0.messages@) == ms2
                    &&& opt_view(r.0.model_id) == opt_view(state.model_id)
                    &&& if urls.len() > 0 {
                        (r.1 matches ChatAction::Fetch(u) && string_views(u@) == urls)
                    } else {
                        ask_action(r.1, state.provider_model, state.model_id, ms2)
                    }
                }
            },
            ChatEvent::Fetched(pages) => {
                let f = fetched_messages(messages_view(state.messages@), pages@);
                &&& messages_view(r.0.messages@) == f.0
                &&& opt_view(r.0.model_id) == opt_view(state.model_id)
                &&& match state.provider_model {
                    Some(m) => (r.1 matches ChatAction::Continue { show, request } && string_views(show@) == f.1
                        && (request matches Some(q) && request_for(q, model_in_use(state.model_id, m@), f.0))),
                    None => (r.1 matches ChatAction::Continue { show, request } && string_views(show@) == f.1
                        + no_provider_lines() && request is None),
                }
            },
            ChatEvent::Reply(got) => {
                &&& opt_view(r.0.model_id) == opt_view(state.model_id)
                &&& match got {
                    Ok(text) => messages_view(r.0.messages@) == messages_view(state.messages@).push(
                        (MessageRole::Assistant, text@),
                    ) && (r.1 matches ChatAction::Continue { show, request } && show@.len() == 0 && request is None),
                    Err(e) => messages_view(r.0.messages@) == messages_view(state.messages@) && (r.1 matches ChatAction::Continue { show, request }
                        && string_views(show@) == seq!["\nError: "@ + e@] && request is None),
                }
            },
        },
{
    let model_id = match &state.model_id {
        Some(m) => Some(crate::text::owned(m.as_str())),
        None => None,
    };
    let provider_model = match &state.provider_model {
        Some(m) => Some(crate::text::owned(m.as_str())),
        None => None,
    };
    let mut messages = copy_messages(&state.messages);
    match event {
        ChatEvent::Line(input) => {
            if messages.len() == 0 {
                push_message(&mut messages, MessageRole::System, "You are a helpful assistant powered by Granite models.".to_string());
                assert(messages_view(messages@) =~= opened(messages_view(state.messages@)));
            }
            let t = str_trim(input.as_str());
            let tv = crate::text::chars_of(t.as_str());
            if tv.len() == 0 {
                return (ChatState { messages, model_id, provider_model }, ChatAction::Continue { show: Vec::new(), request: None });
            }
            if tv[0] == '/' {
                let w = split_whitespace(t.as_str());
                proof {
                    lemma_words_nonempty(t@);
                    reveal_strlit("/exit");
                    reveal_strlit("/quit");
                    reveal_strlit("/clear");
                    reveal_strlit("/help");
                    reveal_strlit("/model");
                }
                let cmd = w[0].as_str();
                if str_eq(cmd, "/exit") || str_eq(cmd, "/quit") {
                    return (ChatState { messages, model_id, provider_model }, ChatAction::Exit);
                } else if str_eq(cmd, "/clear") {
                    let show = vec!["Conversation cleared.".to_string()];
                    assert(string_views(show@) =~= seq!["Conversation cleared."@]);
                    return (ChatState { messages: Vec::new(), model_id, provider_model }, ChatAction::Continue { show, request: None });
                } else if str_eq(cmd, "/help") {
                    return (ChatState { messages, model_id, provider_model }, ChatAction::Continue { show: help_vec(), request: None });
                } else if str_eq(cmd, "/model") {
                    if w.len() > 1 {
                        let chosen = crate::text::owned(w[1].as_str());
                        let show = vec![join2("Switched to model: ", w[1].as_str())];
                        assert(string_views(show@) =~= seq!["Switched to model: "@ + w@[1]@]);
                        return (
                            ChatState { messages, model_id: Some(chosen), provider_model },
                            ChatAction::Continue { show, request: None },
                        );
                    }
                    let show = match &state.provider_model {
                        Some(m) => {
                            let current = match &state.model_id {
                                Some(chosen) => chosen.as_str(),
                                None => m.as_str(),
                            };
                            let v = vec![join2("\nCurrent model: ", current), "\nAvailable bundled models:".to_string()];
                            assert(string_views(v@) =~= seq![
                                "\nCurrent model: "@ + model_in_use(state.model_id, m@),
                                "\nAvailable bundled models:"@,
                            ]);
                            v
                        },
                        None => {
                            let v = vec!["No provider configured. Run: granite-cli provider setup <id>".to_string()];
                            assert(string_views(v@) =~= seq!["No provider configured. Run: granite-cli provider setup <id>"@]);
                            v
                        },
                    };
                    return (ChatState { messages, model_id, provider_model }, ChatAction::Continue { show, request: None });
                } else {
                    return (ChatState { messages, model_id, provider_model }, ChatAction::Continue { show: Vec::new(), request: None });
                }
            }
            let ws = split_whitespace(t.as_str());
            let urls = urls_exec(&ws);
            push_message(&mut messages, MessageRole::User, t);
            let next = ChatState { messages, model_id, provider_model };
            if urls.len() > 0 {
                (next, ChatAction::Fetch(urls))
            } else {
                let a = ask(&next);
                (next, a)
            }
        },
        ChatEvent::Fetched(pages) => {
            let mut warnings: Vec<String> = Vec::new();
            let ghost m0 = messages_view(state.messages@);
            let mut i: usize = 0;
            assert(pages@.take(0) =~= Seq::<(String, Result<String, String>)>::empty());
            while i < pages.len()
                invariant
                    i <= pages@.len(),
                    (messages_view(messages@), string_views(warnings@)) == fetched_messages(m0, pages@.take(i as int)),
                decreases pages@.len() - i,
            {
                proof {
                    assert(pages@.take(i + 1).drop_last() =~= pages@.take(i as int));
                    assert(pages@.take(i + 1).last() == pages@[i as int]);
                }
                match &pages[i].1 {
                    Ok(content) => {
                        push_message(&mut messages, MessageRole::User, page_exec(pages[i].0.as_str(), content.as_str()));
                    },
                    Err(e) => {
                        let a = join2("Warning: Failed to fetch ", pages[i].0.as_str());
                        let b = join2(a.as_str(), ": ");
                        let ghost before = string_views(warnings@);
                        let w = join2(b.as_str(), e.as_str());
                        warnings.push(w);
                        assert(string_views(warnings@) =~= before.push(w@));
                    },
                }
                i += 1;
            }
            assert(pages@.take(i as int) =~= pages@);
            let next = ChatState { messages, model_id, provider_model };
            let a = ask(&next);
            let action = match a {
                ChatAction::Continue { show, request } => {
                    let mut all = warnings;
                    let ghost w0 = string_views(all@);
                    let mut k: usize = 0;
                    while k < show.len()
                        invariant
                            k <= show@.len(),
                            string_views(all@) == w0 + string_views(show@).take(k as int),
                        decreases show@.len() - k,
                    {
                        let ghost before = string_views(all@);
                        all.push(crate::text::owned(show[k].as_str()));
                        assert(string_views(all@) =~= before.push(show@[k as int]@));
                        assert(string_views(show@).take(k + 1) =~= string_views(show@).take(k as int).push(show@[k as int]@));
                        assert(string_views(all@) =~= w0 + string_views(show@).take(k + 1));
                        k += 1;
                    }
                    assert(string_views(show@).take(k as int) =~= string_views(show@));
                    ChatAction::Continue { show: all, request }
                },
                other => other,
            };
            (next, action)
        },
        ChatEvent::Reply(got) => match got {
            Ok(text) => {
                push_message(&mut messages, MessageRole::Assistant, text);
                (ChatState { messages, model_id, provider_model }, ChatAction::Continue { show: Vec::new(), request: None })
            },
            Err(e) => {
                let show = vec![join2("\nError: ", e.as_str())];
                assert(string_views(show@) =~= seq!["\nError: "@ + e@]);
                (ChatState { messages, model_id, provider_model }, ChatAction::Continue { show, request: None })
            },
        },
    }
}

/// The conversation begins with the system prompt.
pub open spec fn starts_with_system(ms: Seq<(MessageRole, Seq<char>)>) -> bool {
    ms.len() > 0 && ms[0] == (MessageRole::System, system_prompt())
}

proof fn lemma_fetched_keeps_prefix(ms: Seq<(MessageRole, Seq<char>)>, pages: Seq<(String, Result<String, String>)>)
    ensures
        fetched_messages(ms, pages).0.len() >= ms.len(),
        forall|i: int| 0 <= i < ms.len() ==> #[trigger] fetched_messages(ms, pages).0[i] == ms[i],
    decreases pages.len(),
{
    if pages.len() > 0 {
        lemma_fetched_keeps_prefix(ms, pages.drop_last());
    }
}

/// The system prompt stays first: a conversation that is empty or begins
/// with it begins with it after a typed line opens it or adds to it, after
/// fetched pages join it, and after a reply joins it (only `/clear` empties it).
pub proof fn law_system_prompt_stays_first(
    ms: Seq<(MessageRole, Seq<char>)>,
    pages: Seq<(String, Result<String, String>)>,
    added: (MessageRole, Seq<char>),
)
    requires
        ms.len() == 0 || starts_with_system(ms),
    ensures
        starts_with_system(opened(ms)),
        starts_with_system(opened(ms).push(added)),
        ms.len() > 0 ==> starts_with_system(fetched_messages(ms, pages).0),
        ms.len() > 0 ==> starts_with_system(ms.push(added)),
{
    lemma_fetched_keeps_prefix(ms, pages);
    if ms.len() > 0 {
        assert(fetched_messages(ms, pages).0[0] == ms[0]);
    }
}

} // verus!
