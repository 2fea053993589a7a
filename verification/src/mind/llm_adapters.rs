//! Chat messages and the set of language-model adapters a user has configured.

pub mod ollama_adapter;
pub mod openai_adapter;

use std::collections::VecDeque;

use ollama_adapter::OllamaAdapter;
use openai_adapter::OpenAIAdapter;
use vstd::prelude::*;
use vstd::std_specs::vecdeque::*;

verus! {

broadcast use axiom_spec_len;

/// One message of a chat: who speaks (`user`, `assistant` or `system`) and what.
pub struct Message {
    pub role: String,
    pub content: String,
}

/// `m` is a message with role `role` and content `content`.
pub open spec fn is_message(m: Message, role: Seq<char>, content: Seq<char>) -> bool {
    m.role@ == role && m.content@ == content
}

impl Message {
    /// A message from the user.
    pub fn user(content: String) -> (m: Self)
        ensures
            is_message(m, "user"@, content@),
    {
        Message { role: "user".to_owned(), content }
    }

    /// A message from the assistant.
    pub fn assistant(content: String) -> (m: Self)
        ensures
            is_message(m, "assistant"@, content@),
    {
        Message { role: "assistant".to_owned(), content }
    }

    /// A system instruction.
    pub fn system(content: String) -> (m: Self)
        ensures
            is_message(m, "system"@, content@),
    {
        Message { role: "system".to_owned(), content }
    }
}

/// A configured model provider.
pub enum LLMAdapterWrapper {
    Ollama(OllamaAdapter),
    OpenAI(OpenAIAdapter),
}

/// Which wire protocol a chat call speaks.
#[derive(PartialEq, Eq, Structural)]
pub enum Provider {
    Ollama,
    OpenAI,
}

/// Everything a streaming chat request needs: endpoint, optional bearer token,
/// model, messages, and whether to stream.
pub struct ChatCall {
    pub provider: Provider,
    pub url: String,
    pub bearer_token: Option<String>,
    pub model: String,
    pub messages: Vec<Message>,
    pub stream: bool,
}

/// The adapters, and which of them is in use. The chosen index is kept as it was set,
/// whatever becomes of the list afterwards.
pub struct LLMAdapters {
    pub current_adapter: Option<usize>,
    pub adapters: VecDeque<LLMAdapterWrapper>,
}

impl LLMAdapters {
    /// The index of the adapter in use, if one was chosen.
    pub open spec fn current_index(&self) -> Option<usize> {
        self.current_adapter
    }

    /// The adapters, in order.
    pub open spec fn adapter_list(&self) -> Seq<LLMAdapterWrapper> {
        self.adapters@
    }

    /// No adapters, none chosen.
    pub fn new() -> (a: Self)
        ensures
            a.current_index() is None,
            a.adapter_list() == Seq::<LLMAdapterWrapper>::empty(),
    {
        LLMAdapters { current_adapter: None, adapters: VecDeque::new() }
    }

    /// Chooses the adapter at `index`.
    pub fn set_current_adapter(&mut self, index: usize)
        ensures
            final(self).current_index() == Some(index),
            final(self).adapter_list() == old(self).adapter_list(),
    {
        self.current_adapter = Some(index);
    }

    /// The adapter in use: the chosen one, where the index is within the list.
    pub fn get_current_adapter(&self) -> (r: Option<&LLMAdapterWrapper>)
        ensures
            match self.current_index() {
                Some(i) => if i < self.adapter_list().len() {
                    r == Some(&self.adapter_list()[i as int])
                } else {
                    r is None
                },
                None => r is None,
            },
    {
        match self.current_adapter {
            None => None,
            Some(i) => {
                if i < self.adapters.len() {
                    Some(&self.adapters[i])
                } else {
                    None
                }
            },
        }
    }

    /// The chat request the adapter in use makes for `messages`; `None` where there
    /// is no adapter in use.
    pub fn chat(&self, messages: Vec<Message>) -> (r: Option<ChatCall>)
        ensures
            match self.current_index() {
                Some(i) => if i < self.adapter_list().len() {
                    r matches Some(c) && match self.adapter_list()[i as int] {
                        LLMAdapterWrapper::Ollama(a) => a.chat_call_matches(c, messages@),
                        LLMAdapterWrapper::OpenAI(a) => a.chat_call_matches(c, messages@),
                    }
                } else {
                    r is None
                },
                None => r is None,
            },
            r matches Some(c) ==> c.stream && c.messages@ == messages@,
    {
        match self.get_current_adapter() {
            None => None,
            Some(LLMAdapterWrapper::Ollama(adapter)) => Some(adapter.chat(messages)),
            Some(LLMAdapterWrapper::OpenAI(adapter)) => Some(adapter.chat(messages)),
        }
    }
}

/// What to do with one line read from a streaming response.
pub enum LineAction {
    /// Nothing; read the next line.
    Skip,
    /// The stream is over.
    Stop,
    /// Parse this text as a JSON reply.
    Parse(String),
}

/// What to do with one parsed (or unparsable) reply.
pub enum StreamStep {
    /// Nothing to send; read on.
    Continue,
    /// Send this text, then read on.
    Emit(String),
    /// Send this text; the stream is over.
    EmitAndStop(String),
    /// Send nothing; the stream is over.
    Stop,
}

/// Appends `b` to `a`.
pub fn concat_str(a: &str, b: &str) -> (r: String)
    ensures
        r@ == a@ + b@,
{
    let mut r = a.to_owned();
    r.append(b);
    r
}

/// The text sent down a response channel when a line of the stream cannot be read.
pub fn read_error_message(error: &str) -> (r: String)
    ensures
        r@ == "Error reading line: "@ + error@,
{
    concat_str("Error reading line: ", error)
}

/// The text sent down a response channel when the request itself fails.
pub fn request_error_message(error: &str) -> (r: String)
    ensures
        r@ == "Error: "@ + error@,
{
    concat_str("Error: ", error)
}

/// Every chat request an adapter builds asks for a streamed answer and carries the
/// messages as given, whichever provider builds it.
pub proof fn law_chat_calls_stream(w: LLMAdapterWrapper, c: ChatCall, messages: Seq<Message>)
    requires
        match w {
            LLMAdapterWrapper::Ollama(a) => a.chat_call_matches(c, messages),
            LLMAdapterWrapper::OpenAI(a) => a.chat_call_matches(c, messages),
        },
    ensures
        c.stream,
        c.messages@ == messages,
        c.provider == match w {
            LLMAdapterWrapper::Ollama(_) => Provider::Ollama,
            LLMAdapterWrapper::OpenAI(_) => Provider::OpenAI,
        },
{
}

} // verus!
