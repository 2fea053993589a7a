use scepter::home_mind::ollama_adapter::{
    chat_line as home_chat_line, chat_reply as home_chat_reply, generate_line, generate_reply,
    ChatResponse as HomeChatResponse, GenerateResponse, Message as HomeMessage,
    OllamaAdapter as HomeOllamaAdapter,
};
use scepter::mind::llm_adapters::ollama_adapter::{
    chat_line, chat_reply, ChatResponse, OllamaAdapter,
};
use scepter::mind::llm_adapters::openai_adapter::{
    chunk_step, status_error_message, stream_line, stream_read_error_message,
    ChatCompletionChunk, Choice, Delta, OpenAIAdapter,
};
use scepter::mind::AddLLMProvierConfig;
use scepter::mind::llm_adapters::{
    read_error_message, request_error_message, LLMAdapterWrapper, LLMAdapters, LineAction,
    Message, Provider, StreamStep,
};

fn emitted(step: StreamStep) -> (Option<String>, bool) {
    match step {
        StreamStep::Continue => (None, false),
        StreamStep::Emit(t) => (Some(t), false),
        StreamStep::EmitAndStop(t) => (Some(t), true),
        StreamStep::Stop => (None, true),
    }
}

fn parse_text(action: LineAction) -> Option<String> {
    match action {
        LineAction::Parse(t) => Some(t),
        _ => None,
    }
}

#[test]
fn message_roles() {
    let u = Message::user("hi".to_string());
    assert_eq!((u.role.as_str(), u.content.as_str()), ("user", "hi"));
    let a = Message::assistant("ok".to_string());
    assert_eq!((a.role.as_str(), a.content.as_str()), ("assistant", "ok"));
    let s = Message::system("be brief".to_string());
    assert_eq!((s.role.as_str(), s.content.as_str()), ("system", "be brief"));
    let h = HomeMessage::user("x".to_string());
    assert_eq!((h.role.as_str(), h.content.as_str()), ("user", "x"));
    let h = HomeMessage::assistant("y".to_string());
    assert_eq!(h.role, "assistant");
    let h = HomeMessage::system("z".to_string());
    assert_eq!(h.role, "system");
}

#[test]
fn ollama_defaults_and_chat_call() {
    let a = OllamaAdapter::new("llama3.3".to_string(), None);
    assert_eq!(a.base_url, "http://localhost:11434");
    let b = OllamaAdapter::new("m".to_string(), Some("http://host:1".to_string()));
    assert_eq!(b.base_url, "http://host:1");
    let call = b.chat(vec![Message::user("q".to_string())]);
    assert!(call.provider == Provider::Ollama);
    assert_eq!(call.url, "http://host:1/api/chat");
    assert_eq!(call.model, "m");
    assert!(call.bearer_token.is_none());
    assert!(call.stream);
    assert_eq!(call.messages.len(), 1);
}

#[test]
fn openai_defaults_and_chat_call() {
    let a = OpenAIAdapter::new("gpt-4o".to_string(), None, "SECRET-REDACTED".to_string());
    assert_eq!(a.base_url, "https://api.openai.com/v1");
    let call = a.chat(vec![]);
    assert!(call.provider == Provider::OpenAI);
    assert_eq!(call.url, "https://api.openai.com/v1/chat/completions");
    assert_eq!(call.bearer_token.as_deref(), Some("SECRET-REDACTED"));
    assert_eq!(call.model, "gpt-4o");
}

#[test]
fn adapters_pick_the_current_one() {
    let mut adapters = LLMAdapters::new();
    assert!(adapters.get_current_adapter().is_none());
    assert!(adapters.chat(vec![]).is_none());
    adapters.adapters.push_back(LLMAdapterWrapper::Ollama(OllamaAdapter::new("a".to_string(), None)));
    adapters.adapters.push_back(LLMAdapterWrapper::OpenAI(OpenAIAdapter::new(
        "b".to_string(),
        Some("http://x".to_string()),
        "k".to_string(),
    )));
    assert!(adapters.chat(vec![]).is_none());
    adapters.set_current_adapter(1);
    match adapters.get_current_adapter() {
        Some(LLMAdapterWrapper::OpenAI(a)) => assert_eq!(a.model, "b"),
        _ => panic!("expected the second adapter"),
    }
    let call = adapters.chat(vec![Message::user("q".to_string())]).unwrap();
    assert_eq!(call.url, "http://x/chat/completions");
    adapters.set_current_adapter(5);
    assert!(adapters.get_current_adapter().is_none());
    assert!(adapters.chat(vec![]).is_none());
}

#[test]
fn ollama_chat_stream_lines() {
    assert!(matches!(chat_line(""), LineAction::Skip));
    assert_eq!(parse_text(chat_line("{\"done\":true}")), Some("{\"done\":true}".to_string()));
    let reply = ChatResponse {
        model: "m".to_string(),
        created_at: "t".to_string(),
        message: Message::assistant("hel".to_string()),
        done: false,
    };
    assert_eq!(emitted(chat_reply(Some(reply))), (Some("hel".to_string()), false));
    let last = ChatResponse {
        model: "m".to_string(),
        created_at: "t".to_string(),
        message: Message::assistant("lo".to_string()),
        done: true,
    };
    assert_eq!(emitted(chat_reply(Some(last))), (Some("lo".to_string()), true));
    assert_eq!(emitted(chat_reply(None)), (None, false));
}

#[test]
fn openai_stream_lines() {
    assert!(matches!(stream_line("data: [DONE]"), LineAction::Stop));
    assert!(matches!(stream_line("data:  [DONE] \t"), LineAction::Stop));
    assert!(matches!(stream_line(": keep-alive"), LineAction::Skip));
    assert!(matches!(stream_line(""), LineAction::Skip));
    assert_eq!(parse_text(stream_line("data: {\"id\":1}")), Some("{\"id\":1}".to_string()));
    assert_eq!(parse_text(stream_line("data: [DONE]x")), Some("[DONE]x".to_string()));
}

fn chunk(content: Option<&str>, finish: Option<&str>) -> ChatCompletionChunk {
    ChatCompletionChunk {
        id: "c".to_string(),
        object: "chat.completion.chunk".to_string(),
        created: 0,
        model: "m".to_string(),
        choices: vec![Choice {
            index: 0,
            delta: Delta { role: None, content: content.map(|s| s.to_string()) },
            finish_reason: finish.map(|s| s.to_string()),
        }],
    }
}

#[test]
fn openai_chunk_steps() {
    assert_eq!(emitted(chunk_step(Some(chunk(Some("a"), None)))), (Some("a".to_string()), false));
    assert_eq!(emitted(chunk_step(Some(chunk(Some("b"), Some("stop"))))), (Some("b".to_string()), true));
    assert_eq!(emitted(chunk_step(Some(chunk(None, Some("stop"))))), (None, true));
    assert_eq!(emitted(chunk_step(Some(chunk(None, None)))), (None, false));
    let mut empty = chunk(None, None);
    empty.choices.clear();
    assert_eq!(emitted(chunk_step(Some(empty))), (None, false));
    assert_eq!(emitted(chunk_step(None)), (None, false));
}

#[test]
fn error_messages() {
    assert_eq!(read_error_message("eof"), "Error reading line: eof");
    assert_eq!(request_error_message("refused"), "Error: refused");
    assert_eq!(status_error_message("500"), "Error: API request failed with status 500");
    assert_eq!(stream_read_error_message("reset"), "Error reading stream: reset");
}

#[test]
fn home_ollama_requests() {
    let a = HomeOllamaAdapter::new(None);
    assert_eq!(a.base_url, "http://localhost:11434");
    assert_eq!(a.list_models_url(), "http://localhost:11434/api/tags");
    let g = a.generate("llama", "why?");
    assert_eq!(g.url, "http://localhost:11434/api/generate");
    assert_eq!((g.model.as_str(), g.prompt.as_str(), g.stream), ("llama", "why?", true));
    let c = a.chat("llama", vec![HomeMessage::user("q".to_string())]);
    assert_eq!(c.url, "http://localhost:11434/api/chat");
    assert_eq!(c.messages.len(), 1);
}

#[test]
fn home_ollama_stream_lines() {
    assert!(matches!(generate_line(""), LineAction::Skip));
    assert!(matches!(generate_line("{\"x\":1}"), LineAction::Skip));
    assert!(matches!(generate_line("data: [DONE]"), LineAction::Stop));
    assert_eq!(parse_text(generate_line("data:  [DONE]")), Some(" [DONE]".to_string()));
    assert_eq!(parse_text(generate_line("data: {\"r\":1}")), Some("{\"r\":1}".to_string()));
    let g = GenerateResponse {
        model: "m".to_string(),
        created_at: "t".to_string(),
        response: "tok".to_string(),
        done: true,
    };
    assert_eq!(emitted(generate_reply(Some(g))), (Some("tok".to_string()), true));
    assert_eq!(emitted(generate_reply(None)), (None, false));
    assert!(matches!(home_chat_line(""), LineAction::Skip));
    assert_eq!(parse_text(home_chat_line("x")), Some("x".to_string()));
    let r = HomeChatResponse {
        model: "m".to_string(),
        created_at: "t".to_string(),
        message: HomeMessage::assistant("a".to_string()),
        done: false,
    };
    assert_eq!(emitted(home_chat_reply(Some(r))), (Some("a".to_string()), false));
}

#[test]
fn add_provider_dialog_starts_closed_with_local_ollama() {
    let c = AddLLMProvierConfig::default();
    assert!(!c.open_modal);
    match c.provider {
        LLMAdapterWrapper::Ollama(a) => {
            assert_eq!(a.model, "llama3.3");
            assert_eq!(a.base_url, "http://localhost:11434");
        }
        LLMAdapterWrapper::OpenAI(_) => panic!("expected an Ollama provider"),
    }
}

#[test]
fn chosen_index_stays_while_the_list_changes() {
    let mut adapters = LLMAdapters::new();
    adapters.set_current_adapter(0);
    assert!(adapters.get_current_adapter().is_none());
    adapters.adapters.push_back(LLMAdapterWrapper::Ollama(OllamaAdapter::new("a".to_string(), None)));
    match adapters.get_current_adapter() {
        Some(LLMAdapterWrapper::Ollama(a)) => assert_eq!(a.model, "a"),
        _ => panic!("expected the first adapter"),
    }
    adapters.adapters.pop_front();
    assert!(adapters.get_current_adapter().is_none());
    assert_eq!(adapters.current_adapter, Some(0));
}
