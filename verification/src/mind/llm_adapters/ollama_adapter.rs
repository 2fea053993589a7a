//! A local Ollama server as a chat provider.

use super::{ChatCall, LineAction, Message, Provider, StreamStep};
use vstd::prelude::*;

verus! {

/// A model as Ollama lists it.
pub struct ModelInfo {
    pub name: String,
    pub modified_at: String,
    pub size: u64,
}

/// Ollama's answer to a model listing.
pub struct ListModelsResponse {
    pub models: Vec<ModelInfo>,
}

/// One streamed line of a `/api/generate` answer.
pub struct GenerateResponse {
    pub model: String,
    pub created_at: String,
    pub response: String,
    pub done: bool,
}

/// One streamed line of a `/api/chat` answer.
pub struct ChatResponse {
    pub model: String,
    pub created_at: String,
    pub message: Message,
    pub done: bool,
}

/// An Ollama server and the model to chat with.
pub struct OllamaAdapter {
    pub model: String,
    pub base_url: String,
}

/// The chat endpoint under `base`.
pub open spec fn chat_url(base: Seq<char>) -> Seq<char> {
    base + "/api/chat"@
}

impl OllamaAdapter {
    /// An adapter for `model` at `base_url`, or at `http://localhost:11434`.
    pub fn new(model: String, base_url: Option<String>) -> (a: Self)
        ensures
            a.model@ == model@,
            a.base_url@ == match base_url {
                Some(u) => u@,
                None => "http://localhost:11434"@,
            },
    {
        let base_url = match base_url {
            Some(u) => u,
            None => "http://localhost:11434".to_owned(),
        };
        OllamaAdapter { model, base_url }
    }

    /// `c` is the streaming chat request this adapter makes for `messages`.
    pub open spec fn chat_call_matches(&self, c: ChatCall, messages: Seq<Message>) -> bool {
        &&& c.provider == Provider::Ollama
        &&& c.url@ == chat_url(self.base_url@)
        &&& c.bearer_token is None
        &&& c.model@ == self.model@
        &&& c.messages@ == messages
        &&& c.stream
    }

    /// The streaming chat request for `messages`: `POST {base_url}/api/chat` with
    /// the adapter's model.
    pub fn chat(&self, messages: Vec<Message>) -> (c: ChatCall)
        ensures
            self.chat_call_matches(c, messages@),
            c.provider == Provider::Ollama,
            c.url@ == self.base_url@ + "/api/chat"@,
            c.bearer_token is None,
            c.model@ == self.model@,
            c.messages@ == messages@,
            c.stream,
    {
        let mut url = self.base_url.clone();
        url.append("/api/chat");
        ChatCall {
            provider: Provider::Ollama,
            url,
            bearer_token: None,
            model: self.model.clone(),
            messages,
            stream: true,
        }
    }
}

/// A line of a chat stream: blank lines are skipped, any other is parsed.
pub fn chat_line(line: &str) -> (a: LineAction)
    ensures
        line@.len() == 0 ==> a is Skip,
        line@.len() != 0 ==> (a matches LineAction::Parse(t) && t@ == line@),
{
    if line.is_empty() {
        LineAction::Skip
    } else {
        LineAction::Parse(line.to_owned())
    }
}

/// A parsed chat line: its message content is sent, and the stream ends where the
/// reply is done; a line that did not parse is passed over.
pub fn chat_reply(parsed: Option<ChatResponse>) -> (s: StreamStep)
    ensures
        match parsed {
            Some(p) => if p.done {
                s matches StreamStep::EmitAndStop(t) && t@ == p.message.content@
            } else {
                s matches StreamStep::Emit(t) && t@ == p.message.content@
            },
            None => s is Continue,
        },
{
    match parsed {
        Some(p) => {
            if p.done {
                StreamStep::EmitAndStop(p.message.content)
            } else {
                StreamStep::Emit(p.message.content)
            }
        },
        None => StreamStep::Continue,
    }
}

} // verus!
