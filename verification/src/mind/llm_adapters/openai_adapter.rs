//! An OpenAI-compatible service as a chat provider.

use super::{ChatCall, LineAction, Message, Provider, StreamStep, concat_str};
use crate::text::{chars_of, has_prefix, starts_with, trim_bounds, trimmed};
use vstd::prelude::*;
use vstd::string::*;

verus! {

/// A model as the service lists it.
pub struct ModelInfo {
    pub id: String,
    pub object: String,
    pub created: u64,
    pub owned_by: String,
}

/// The service's answer to a model listing.
pub struct ListModelsResponse {
    pub object: String,
    pub data: Vec<ModelInfo>,
}

/// One streamed chunk of a chat completion.
pub struct ChatCompletionChunk {
    pub id: String,
    pub object: String,
    pub created: u64,
    pub model: String,
    pub choices: Vec<Choice>,
}

/// One choice of a chunk.
pub struct Choice {
    pub index: u32,
    pub delta: Delta,
    pub finish_reason: Option<String>,
}

/// What a chunk adds to a choice.
pub struct Delta {
    pub role: Option<String>,
    pub content: Option<String>,
}

/// A service endpoint, the model to use, and the key to authenticate with.
pub struct OpenAIAdapter {
    pub model: String,
    pub base_url: String,
    pub api_key: String,
}

/// The chat-completions endpoint under `base`.
pub open spec fn completions_url(base: Seq<char>) -> Seq<char> {
    base + "/chat/completions"@
}

impl OpenAIAdapter {
    /// An adapter for `model` at `base_url`, or at `https://api.openai.com/v1`.
    pub fn new(model: String, base_url: Option<String>, api_key: String) -> (a: Self)
        ensures
            a.model@ == model@,
            a.base_url@ == match base_url {
                Some(u) => u@,
                None => "https://api.openai.com/v1"@,
            },
            a.api_key@ == api_key@,
    {
        let base_url = match base_url {
            Some(u) => u,
            None => "https://api.openai.com/v1".to_owned(),
        };
        OpenAIAdapter { model, base_url, api_key }
    }

    /// `c` is the streaming chat request this adapter makes for `messages`.
    pub open spec fn chat_call_matches(&self, c: ChatCall, messages: Seq<Message>) -> bool {
        &&& c.provider == Provider::OpenAI
        &&& c.url@ == completions_url(self.base_url@)
        &&& (c.bearer_token matches Some(k) && k@ == self.api_key@)
        &&& c.model@ == self.model@
        &&& c.messages@ == messages
        &&& c.stream
    }

    /// The streaming chat request for `messages`: `POST {base_url}/chat/completions`,
    /// authenticated with the key as a bearer token.
    pub fn chat(&self, messages: Vec<Message>) -> (c: ChatCall)
        ensures
            self.chat_call_matches(c, messages@),
            c.provider == Provider::OpenAI,
            c.url@ == self.base_url@ + "/chat/completions"@,
            c.bearer_token matches Some(k) && k@ == self.api_key@,
            c.model@ == self.model@,
            c.messages@ == messages@,
            c.stream,
    {
        let mut url = self.base_url.clone();
        url.append("/chat/completions");
        ChatCall {
            provider: Provider::OpenAI,
            url,
            bearer_token: Some(self.api_key.clone()),
            model: self.model.clone(),
            messages,
            stream: true,
        }
    }
}

/// A line of a completion stream. Lines of the form `data: <payload>` carry the
/// stream: a payload of `[DONE]` (around whitespace) ends it, any other is parsed.
/// Other lines are passed over.
pub fn stream_line(line: &str) -> (a: LineAction)
    ensures
        starts_with(line@, "data: "@) ==> {
            let data = line@.skip(6);
            if trimmed(data) == "[DONE]"@ {
                a is Stop
            } else {
                (a matches LineAction::Parse(t) && t@ == data)
            }
        },
        !starts_with(line@, "data: "@) ==> a is Skip,
{
    let chars = chars_of(line);
    let prefix = chars_of("data: ");
    let done = chars_of("[DONE]");
    proof {
        reveal_strlit("data: ");
        reveal_strlit("[DONE]");
    }
    if !has_prefix(&chars, &prefix) {
        return LineAction::Skip;
    }
    let data = line.substring_char(6, chars.len());
    let data_chars = chars_of(data);
    let (a, b) = trim_bounds(&data_chars);
    let mut is_done = b - a == 6;
    if is_done {
        let mut k: usize = 0;
        while k < 6
            invariant
                b - a == 6,
                a <= b <= data_chars@.len(),
                done@ == "[DONE]"@,
                done@.len() == 6,
                k <= 6,
                is_done == forall|j: int| 0 <= j < k ==> data_chars@[a + j] == done@[j],
            decreases 6 - k,
        {
            if data_chars[a + k] != done[k] {
                is_done = false;
            }
            k = k + 1;
        }
        proof {
            let t = data_chars@.subrange(a as int, b as int);
            if is_done {
                assert(t =~= done@);
            } else {
                let j = choose|j: int| 0 <= j < 6 && data_chars@[a + j] != done@[j];
                assert(t[j] == data_chars@[a + j]);
            }
        }
    }
    if is_done {
        LineAction::Stop
    } else {
        LineAction::Parse(data.to_owned())
    }
}

/// A parsed chunk: the first choice's new content is sent, and the stream ends where
/// the first choice has a finish reason. A chunk that did not parse, or has no
/// choices, sends nothing and the stream goes on.
pub fn chunk_step(chunk: Option<ChatCompletionChunk>) -> (s: StreamStep)
    ensures
        match chunk {
            Some(c) => if c.choices@.len() > 0 {
                let first = c.choices@[0];
                match (first.delta.content, first.finish_reason) {
                    (Some(t0), Some(_)) => s matches StreamStep::EmitAndStop(t) && t@ == t0@,
                    (Some(t0), None) => s matches StreamStep::Emit(t) && t@ == t0@,
                    (None, Some(_)) => s is Stop,
                    (None, None) => s is Continue,
                }
            } else {
                s is Continue
            },
            None => s is Continue,
        },
{
    match chunk {
        None => StreamStep::Continue,
        Some(c) => {
            if c.choices.len() == 0 {
                return StreamStep::Continue;
            }
            let first = &c.choices[0];
            let finished = first.finish_reason.is_some();
            match &first.delta.content {
                Some(t) => {
                    if finished {
                        StreamStep::EmitAndStop(t.clone())
                    } else {
                        StreamStep::Emit(t.clone())
                    }
                },
                None => {
                    if finished {
                        StreamStep::Stop
                    } else {
                        StreamStep::Continue
                    }
                },
            }
        },
    }
}

/// The text sent down the response channel when the service answers with an error
/// status.
pub fn status_error_message(status: &str) -> (r: String)
    ensures
        r@ == "Error: API request failed with status "@ + status@,
{
    concat_str("Error: API request failed with status ", status)
}

/// The text sent down the response channel when a line of the stream cannot be read.
pub fn stream_read_error_message(error: &str) -> (r: String)
    ensures
        r@ == "Error reading stream: "@ + error@,
{
    concat_str("Error reading stream: ", error)
}

} // verus!
