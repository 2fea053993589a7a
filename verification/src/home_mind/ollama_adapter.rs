//! A client of one Ollama server: requests for listing models, generating and
//! chatting, and the handling of their streamed answers.

use crate::mind::llm_adapters::{LineAction, StreamStep};
use crate::text::{chars_of, has_prefix, starts_with, str_equal};
use vstd::prelude::*;
use vstd::string::*;

verus! {

/// One message of a chat: who speaks (`user`, `assistant` or `system`) and what.
pub struct Message {
    pub role: String,
    pub content: String,
}

/// `m` is a message with role `role` and content `content`.
pub open spec fn is_message(m: Message, role: Seq<char>, content: Seq<char>) -> bool {
    m.role@ == role && m.content@ == content
}

impl Message {
    /// A message from the user.
    pub fn user(content: String) -> (m: Self)
        ensures
            is_message(m, "user"@, content@),
    {
        Message { role: "user".to_owned(), content }
    }

    /// A message from the assistant.
    pub fn assistant(content: String) -> (m: Self)
        ensures
            is_message(m, "assistant"@, content@),
    {
        Message { role: "assistant".to_owned(), content }
    }

    /// A system instruction.
    pub fn system(content: String) -> (m: Self)
        ensures
            is_message(m, "system"@, content@),
    {
        Message { role: "system".to_owned(), content }
    }
}

/// A model as Ollama lists it.
pub struct ModelInfo {
    pub name: String,
    pub modified_at: String,
    pub size: u64,
}

/// Ollama's answer to a model listing.
pub struct ListModelsResponse {
    pub models: Vec<ModelInfo>,
}

/// One streamed line of a `/api/generate` answer.
pub struct GenerateResponse {
    pub model: String,
    pub created_at: String,
    pub response: String,
    pub done: bool,
}

/// One streamed line of a `/api/chat` answer.
pub struct ChatResponse {
    pub model: String,
    pub created_at: String,
    pub message: Message,
    pub done: bool,
}

/// A streaming completion request: endpoint, model, prompt.
pub struct GenerateCall {
    pub url: String,
    pub model: String,
    pub prompt: String,
    pub stream: bool,
}

/// A streaming chat request: endpoint, model, messages.
pub struct ChatCall {
    pub url: String,
    pub model: String,
    pub messages: Vec<Message>,
    pub stream: bool,
}

/// The address of an Ollama server.
pub struct OllamaAdapter {
    pub base_url: String,
}

impl OllamaAdapter {
    /// An adapter for the server at `base_url`, or at `http://localhost:11434`.
    pub fn new(base_url: Option<String>) -> (a: Self)
        ensures
            a.base_url@ == match base_url {
                Some(u) => u@,
                None => "http://localhost:11434"@,
            },
    {
        let base_url = match base_url {
            Some(u) => u,
            None => "http://localhost:11434".to_owned(),
        };
        OllamaAdapter { base_url }
    }

    /// The endpoint that lists the server's models: `{base_url}/api/tags`.
    pub fn list_models_url(&self) -> (u: String)
        ensures
            u@ == self.base_url@ + "/api/tags"@,
    {
        let mut url = self.base_url.clone();
        url.append("/api/tags");
        url
    }

    /// The streaming completion request of `prompt` to `model`:
    /// `POST {base_url}/api/generate`.
    pub fn generate(&self, model: &str, prompt: &str) -> (c: GenerateCall)
        ensures
            c.url@ == self.base_url@ + "/api/generate"@,
            c.model@ == model@,
            c.prompt@ == prompt@,
            c.stream,
    {
        let mut url = self.base_url.clone();
        url.append("/api/generate");
        GenerateCall { url, model: model.to_owned(), prompt: prompt.to_owned(), stream: true }
    }

    /// The streaming chat request of `messages` to `model`: `POST {base_url}/api/chat`.
    pub fn chat(&self, model: &str, messages: Vec<Message>) -> (c: ChatCall)
        ensures
            c.url@ == self.base_url@ + "/api/chat"@,
            c.model@ == model@,
            c.messages@ == messages@,
            c.stream,
    {
        let mut url = self.base_url.clone();
        url.append("/api/chat");
        ChatCall { url, model: model.to_owned(), messages, stream: true }
    }
}

/// A line of a completion stream: blank lines and lines without a `data: ` prefix
/// are passed over; a payload of exactly `[DONE]` ends the stream; any other payload
/// is parsed.
pub fn generate_line(line: &str) -> (a: LineAction)
    ensures
        line@.len() == 0 ==> a is Skip,
        line@.len() != 0 && !starts_with(line@, "data: "@) ==> a is Skip,
        line@.len() != 0 && starts_with(line@, "data: "@) ==> {
            let data = line@.skip(6);
            if data == "[DONE]"@ {
                a is Stop
            } else {
                (a matches LineAction::Parse(t) && t@ == data)
            }
        },
{
    if line.is_empty() {
        return LineAction::Skip;
    }
    let chars = chars_of(line);
    let prefix = chars_of("data: ");
    proof {
        reveal_strlit("data: ");
    }
    if !has_prefix(&chars, &prefix) {
        return LineAction::Skip;
    }
    let data = line.substring_char(6, chars.len());
    if str_equal(data, "[DONE]") {
        LineAction::Stop
    } else {
        LineAction::Parse(data.to_owned())
    }
}

/// A parsed completion line: its response text is sent, and the stream ends where
/// the reply is done; a payload that did not parse is passed over.
pub fn generate_reply(parsed: Option<GenerateResponse>) -> (s: StreamStep)
    ensures
        match parsed {
            Some(p) => if p.done {
                (s matches StreamStep::EmitAndStop(t) && t@ == p.response@)
            } else {
                (s matches StreamStep::Emit(t) && t@ == p.response@)
            },
            None => s is Continue,
        },
{
    match parsed {
        Some(p) => {
            if p.done {
                StreamStep::EmitAndStop(p.response)
            } else {
                StreamStep::Emit(p.response)
            }
        },
        None => StreamStep::Continue,
    }
}

/// A line of a chat stream: blank lines are passed over, any other is parsed whole.
pub fn chat_line(line: &str) -> (a: LineAction)
    ensures
        line@.len() == 0 ==> a is Skip,
        line@.len() != 0 ==> (a matches LineAction::Parse(t) && t@ == line@),
{
    if line.is_empty() {
        LineAction::Skip
    } else {
        LineAction::Parse(line.to_owned())
    }
}

/// A parsed chat line: its message content is sent, and the stream ends where the
/// reply is done; a line that did not parse is passed over.
pub fn chat_reply(parsed: Option<ChatResponse>) -> (s: StreamStep)
    ensures
        match parsed {
            Some(p) => if p.done {
                (s matches StreamStep::EmitAndStop(t) && t@ == p.message.content@)
            } else {
                (s matches StreamStep::Emit(t) && t@ == p.message.content@)
            },
            None => s is Continue,
        },
{
    match parsed {
        Some(p) => {
            if p.done {
                StreamStep::EmitAndStop(p.message.content)
            } else {
                StreamStep::Emit(p.message.content)
            }
        },
        None => StreamStep::Continue,
    }
}

} // verus!
