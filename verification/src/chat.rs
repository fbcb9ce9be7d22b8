//! What goes into a chat request to the analysis service, and what is taken
//! from its response. Sending the request is the caller's part.

use crate::analysis::ServiceCallError;
use vstd::prelude::*;
use vstd::string::*;

verus! {

/// One message of a chat request.
#[derive(Debug, Clone, PartialEq, Eq)]
pub struct ChatMessage {
    pub role: String,
    pub content: String,
}

/// A chat request, ready to be sent.
#[derive(Debug, Clone, PartialEq, Eq)]
pub struct ChatRequest {
    /// Address that the request is posted to.
    pub url: String,
    /// Value of the `Authorization` header.
    pub authorization: String,
    /// Name of the model that is asked.
    pub model: String,
    /// The instruction, then the text that it is about.
    pub messages: Vec<ChatMessage>,
}

/// Address of the chat completions of the service at `host`.
pub open spec fn spec_chat_url(host: Seq<char>) -> Seq<char> {
    host + "/v1/chat/completions"@
}

/// Value of the `Authorization` header for `api_key`.
pub open spec fn spec_authorization(api_key: Seq<char>) -> Seq<char> {
    "Bearer "@ + api_key
}

/// Name of the model that is asked.
pub open spec fn spec_chat_model() -> Seq<char> {
    "gpt-3.5-turbo"@
}

/// Whether `status` reports success.
pub open spec fn spec_is_success(status: u16) -> bool {
    200 <= status <= 299
}

impl ChatRequest {
    /// The request that puts `content` to the service at `host` under the
    /// instruction `prompt`: a system message with the instruction, then a
    /// user message with the content.
    pub fn new(host: &str, api_key: &str, prompt: &str, content: &str) -> (request: ChatRequest)
        ensures
            request.url@ == spec_chat_url(host@),
            request.authorization@ == spec_authorization(api_key@),
            request.model@ == spec_chat_model(),
            request.messages@.len() == 2,
            request.messages@[0].role@ == "system"@,
            request.messages@[0].content@ == prompt@,
            request.messages@[1].role@ == "user"@,
            request.messages@[1].content@ == content@,
    {
        let mut url = host.to_owned();
        url.append("/v1/chat/completions");
        let mut authorization = "Bearer ".to_owned();
        authorization.append(api_key);
        let mut messages: Vec<ChatMessage> = Vec::new();
        messages.push(ChatMessage { role: "system".to_owned(), content: prompt.to_owned() });
        messages.push(ChatMessage { role: "user".to_owned(), content: content.to_owned() });
        ChatRequest { url, authorization, model: "gpt-3.5-turbo".to_owned(), messages }
    }
}

/// The answer in a response with the given status and choices.
///
/// A status outside 200 to 299 is a failure whatever else came. Otherwise the
/// answer is the first choice, and a response without a choice is malformed.
pub fn read_response(status: u16, choices: &Vec<String>) -> (answer: Result<String, ServiceCallError>)
    ensures
        match answer {
            Ok(text) => spec_is_success(status) && choices@.len() > 0 && text == choices@[0],
            Err(ServiceCallError::Status { code }) => !spec_is_success(status) && code == status,
            Err(ServiceCallError::MalformedPayload { reason }) => spec_is_success(status)
                && choices@.len() == 0 && reason@ == "response holds no choice"@,
            Err(ServiceCallError::Network { .. }) => false,
        },
{
    if status < 200 || status > 299 {
        Err(ServiceCallError::Status { code: status })
    } else if choices.len() == 0 {
        Err(ServiceCallError::MalformedPayload { reason: "response holds no choice".to_owned() })
    } else {
        Ok(choices[0].clone())
    }
}

} // verus!
