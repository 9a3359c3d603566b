//! Wire types of the completion endpoint and the role/content turn.
use vstd::prelude::*;

verus! {

/// The value type of `serde_json`, carried through opaquely.
#[verifier::external_type_specification]
#[verifier::external_body]
pub struct ExValue(serde_json::Value);

/// The mathematical form of one role/content turn.
pub struct Turn {
    pub role: Seq<char>,
    pub content: Seq<char>,
}

/// One role/content pair, the unit sent to the completion endpoint.
#[derive(Default, Debug, Clone, PartialEq)]
pub struct MessageData {
    pub role: String,
    pub content: String,
}

impl View for MessageData {
    type V = Turn;

    open spec fn view(&self) -> Turn {
        Turn { role: self.role@, content: self.content@ }
    }
}

/// The views of a sequence of turns.
pub open spec fn turns_of(v: Seq<MessageData>) -> Seq<Turn> {
    v.map_values(|m: MessageData| m@)
}

/// The views of a sequence grown by one turn.
pub proof fn lemma_turns_of_push(v: Seq<MessageData>, m: MessageData)
    ensures
        turns_of(v.push(m)) == turns_of(v).push(m@),
{
    assert(turns_of(v.push(m)) =~= turns_of(v).push(m@));
}

/// The views of a sequence with one turn replaced.
pub proof fn lemma_turns_of_update(v: Seq<MessageData>, i: int, m: MessageData)
    requires
        0 <= i < v.len(),
    ensures
        turns_of(v.update(i, m)) == turns_of(v).update(i, m@),
{
    assert(turns_of(v.update(i, m)) =~= turns_of(v).update(i, m@));
}

/// The body of a completion request.
#[derive(Default, Debug, Clone, PartialEq)]
pub struct ChatCompletionRequest {
    pub model: String,
    pub messages: Vec<MessageData>,
    pub stream: bool,
}

/// A completion response envelope.
#[derive(Default, Debug)]
pub struct ChatCompletion {
    pub id: String,
    pub object: String,
    pub created: i64,
    pub model: String,
    pub choices: Vec<Choice>,
    pub usage: Usage,
    pub system_fingerprint: String,
}

/// One alternative reply of a completion response.
#[derive(Default, Debug)]
pub struct Choice {
    pub index: i64,
    pub message: Message,
    pub logprobs: serde_json::Value,
    pub finish_reason: String,
}

/// The reply message of a completion, with the model's reasoning text.
#[derive(Default, Debug, Clone, PartialEq)]
pub struct Message {
    pub role: String,
    pub content: String,
    pub reasoning_content: String,
}

/// Token accounting of a completion.
#[derive(Default, Debug, Clone, PartialEq)]
pub struct Usage {
    pub prompt_tokens: i64,
    pub completion_tokens: i64,
    pub total_tokens: i64,
    pub prompt_tokens_details: PromptTokensDetails,
    pub completion_tokens_details: CompletionTokensDetails,
    pub prompt_cache_hit_tokens: i64,
    pub prompt_cache_miss_tokens: i64,
}

/// Prompt tokens served from cache.
#[derive(Default, Debug, Clone, PartialEq)]
pub struct PromptTokensDetails {
    pub cached_tokens: i64,
}

/// Completion tokens spent on reasoning.
#[derive(Default, Debug, Clone, PartialEq)]
pub struct CompletionTokensDetails {
    pub reasoning_tokens: i64,
}

impl MessageData {
    /// A turn with the given role and content.
    pub fn new(role: String, content: String) -> (r: MessageData)
        ensures
            r.role@ == role@,
            r.content@ == content@,
    {
        MessageData { role, content }
    }
}

} // verus!
