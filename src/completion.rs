//! Building completion requests and classifying what the endpoint answered.
use crate::model::{ChatCompletion, ChatCompletionRequest, Message, MessageData};
use vstd::prelude::*;

verus! {

/// Why a completion call gave no reply.
#[derive(Clone, Debug)]
pub enum CompletionError {
    /// The credential is missing or was rejected.
    Auth(String),
    /// The endpoint could not be reached.
    Transport(String),
    /// The endpoint answered with a status outside 200..=299.
    Status { code: u16, body: String },
    /// The body is not the expected reply envelope.
    Response { detail: String, raw: String },
    /// The reply envelope holds no choice.
    NoChoices,
}

/// The text that describes a completion failure.
pub open spec fn failure_text(e: CompletionError) -> Seq<char> {
    "completion failed: "@ + match e {
        CompletionError::Auth(d) => "credential missing or rejected: "@ + d@,
        CompletionError::Transport(d) => "endpoint unreachable: "@ + d@,
        CompletionError::Status { code: _, body } => "request refused by the endpoint: "@ + body@,
        CompletionError::Response { detail, raw } => "reply could not be read: "@ + detail@
            + "; raw reply: "@ + raw@,
        CompletionError::NoChoices => "reply holds no choice"@,
    }
}

impl CompletionError {
    /// A text for the caller that names the kind of failure and its detail.
    pub fn describe(&self) -> (r: String)
        ensures
            r@ == failure_text(*self),
    {
        let mut text = String::from_str("completion failed: ");
        match self {
            CompletionError::Auth(d) => {
                text.append("credential missing or rejected: ");
                text.append(d.as_str());
            },
            CompletionError::Transport(d) => {
                text.append("endpoint unreachable: ");
                text.append(d.as_str());
            },
            CompletionError::Status { code: _, body } => {
                text.append("request refused by the endpoint: ");
                text.append(body.as_str());
            },
            CompletionError::Response { detail, raw } => {
                text.append("reply could not be read: ");
                text.append(detail.as_str());
                text.append("; raw reply: ");
                text.append(raw.as_str());
            },
            CompletionError::NoChoices => {
                text.append("reply holds no choice");
            },
        }
        proof {
            assert(text@ =~= failure_text(*self));
        }
        text
    }
}

/// The model that completions are asked of.
pub open spec fn completion_model() -> Seq<char> {
    seq!['d', 'e', 'e', 'p', 's', 'e', 'e', 'k', '-', 'r', 'e', 'a', 's', 'o', 'n', 'e', 'r']
}

/// The prefix of a bearer credential header.
pub open spec fn bearer_prefix() -> Seq<char> {
    seq!['B', 'e', 'a', 'r', 'e', 'r', ' ']
}

impl ChatCompletionRequest {
    /// A request for one reply, not streamed, to `messages`.
    pub fn for_messages(messages: Vec<MessageData>) -> (r: ChatCompletionRequest)
        ensures
            r.messages@ == messages@,
            r.model@ == completion_model(),
            !r.stream,
    {
        let model = String::from_str("deepseek-reasoner");
        proof {
            reveal_strlit("deepseek-reasoner");
            assert(model@ =~= completion_model());
        }
        ChatCompletionRequest { model, messages, stream: false }
    }
}

/// The authorization header value for `api_key`; a missing or empty key is
/// an authentication failure.
pub fn authorization(api_key: Option<String>) -> (r: Result<String, CompletionError>)
    ensures
        match api_key {
            Some(k) => if k@.len() > 0 {
                (r matches Ok(v) && v@ == bearer_prefix() + k@)
            } else {
                r matches Err(CompletionError::Auth(_))
            },
            None => r matches Err(CompletionError::Auth(_)),
        },
{
    proof {
        reveal_strlit("Bearer ");
        assert("Bearer "@ =~= bearer_prefix());
    }
    match api_key {
        Some(k) => {
            if k.as_str().is_empty() {
                Err(CompletionError::Auth(String::from_str("the API key is empty")))
            } else {
                let mut v = String::from_str("Bearer ");
                v.append(k.as_str());
                Ok(v)
            }
        },
        None => Err(CompletionError::Auth(String::from_str("no API key is configured"))),
    }
}

/// Classifies the status of an answer: a status in 200..=299 hands the body
/// on; 401 and 403 are authentication failures; any other status is a
/// status failure with the body.
pub fn check_status(code: u16, body: String) -> (r: Result<String, CompletionError>)
    ensures
        200 <= code <= 299 ==> (r matches Ok(b) && b@ == body@),
        (code == 401 || code == 403) ==> (r matches Err(CompletionError::Auth(d)) && d@ == body@),
        !(200 <= code <= 299 || code == 401 || code == 403) ==> (r matches Err(
            CompletionError::Status { code: c, body: b },
        ) && c == code && b@ == body@),
{
    if 200 <= code && code <= 299 {
        Ok(body)
    } else if code == 401 || code == 403 {
        Err(CompletionError::Auth(body))
    } else {
        Err(CompletionError::Status { code, body })
    }
}

/// The reply of a read envelope: its first choice's message, or `NoChoices`.
pub fn first_choice(completion: ChatCompletion) -> (r: Result<Message, CompletionError>)
    ensures
        completion.choices@.len() == 0 ==> r matches Err(CompletionError::NoChoices),
        completion.choices@.len() > 0 ==> r == Ok::<Message, CompletionError>(
            completion.choices@[0].message,
        ),
{
    let mut choices = completion.choices;
    if choices.len() == 0 {
        Err(CompletionError::NoChoices)
    } else {
        let first = choices.swap_remove(0);
        Ok(first.message)
    }
}

} // verus!
