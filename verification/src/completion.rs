//! What is asked of the completion service, and what it answers.

use vstd::prelude::*;

use crate::client::{
    pair_views, signed_headers, signed_headers_for, HttpRequest, HttpRequestView, Method,
};
use crate::json::{
    field, fields_of, json_document, signed_decimal, thousandths, values_of, Json, JsonValue,
};

verus! {

/// Where the completion service takes its calls.
pub const API_BASE_URL: &'static str = "https://api.openai.com";

/// The endpoint that completes a conversation.
pub const CHAT_ENDPOINT: &'static str = "/v1/chat/completions";

/// The model that completes the prompts.
pub const MODEL: &'static str = "gpt-3.5-turbo";

/// The limit on generated tokens where none is configured.
pub const DEFAULT_MAX_TOKENS: i32 = 4000;

/// The sampling temperature, in thousandths, where none is configured.
pub const DEFAULT_TEMPERATURE_MILLI: u32 = 500;

/// A request for a completion. The temperature is held in thousandths.
#[derive(Debug, PartialEq, Eq)]
pub struct CompletionRequest {
    pub model: String,
    pub prompt: String,
    pub max_tokens: i32,
    pub temperature_milli: u32,
}

/// The mathematical value of a [`CompletionRequest`].
pub struct CompletionRequestView {
    pub model: Seq<char>,
    pub prompt: Seq<char>,
    pub max_tokens: i32,
    pub temperature_milli: u32,
}

impl View for CompletionRequest {
    type V = CompletionRequestView;

    open spec fn view(&self) -> CompletionRequestView {
        CompletionRequestView {
            model: self.model@,
            prompt: self.prompt@,
            max_tokens: self.max_tokens,
            temperature_milli: self.temperature_milli,
        }
    }
}

/// The request for `prompt` under a configuration: the configured limit and
/// temperature, or the defaults where they are not set.
pub open spec fn request_for(
    prompt: Seq<char>,
    max_tokens: Option<i32>,
    temperature_milli: Option<u32>,
) -> CompletionRequestView {
    CompletionRequestView {
        model: MODEL@,
        prompt,
        max_tokens: match max_tokens {
            Some(limit) => limit,
            None => DEFAULT_MAX_TOKENS,
        },
        temperature_milli: match temperature_milli {
            Some(temperature) => temperature,
            None => DEFAULT_TEMPERATURE_MILLI,
        },
    }
}

/// The JSON object that asks for a completion: the model, the prompt as the
/// one message of a conversation, said by the user, the limit, and the
/// temperature.
pub open spec fn request_json(request: CompletionRequestView) -> JsonValue {
    JsonValue::Object(
        seq![
            ("model"@, JsonValue::Text(request.model)),
            (
                "messages"@,
                JsonValue::Array(
                    seq![
                        JsonValue::Object(
                            seq![
                                ("role"@, JsonValue::Text("user"@)),
                                ("content"@, JsonValue::Text(request.prompt)),
                            ],
                        ),
                    ],
                ),
            ),
            ("max_tokens"@, JsonValue::Number(signed_decimal(request.max_tokens as int))),
            ("temperature"@, JsonValue::Number(thousandths(request.temperature_milli as nat))),
        ],
    )
}

/// The call that asks the completion service for `request`, signed with
/// `api_key`.
pub open spec fn request_http(
    request: CompletionRequestView,
    api_key: Seq<char>,
) -> HttpRequestView {
    HttpRequestView {
        method: Method::Post,
        url: API_BASE_URL@ + CHAT_ENDPOINT@,
        query: Seq::empty(),
        headers: signed_headers(api_key),
        body: request_json(request),
    }
}

impl CompletionRequest {
    /// The JSON object that asks for this completion.
    pub fn to_json(&self) -> (json: Json)
        ensures
            json@ == request_json(self@),
    {
        let mut message: Vec<(String, Json)> = Vec::new();
        message.push(field("role", Json::text("user")));
        message.push(field("content", Json::text(self.prompt.as_str())));
        assert(fields_of(message@) =~= seq![
            ("role"@, JsonValue::Text("user"@)),
            ("content"@, JsonValue::Text(self.prompt@)),
        ]);
        let mut messages: Vec<Json> = Vec::new();
        messages.push(Json::object(message));
        assert(values_of(messages@) =~= seq![
            JsonValue::Object(
                seq![
                    ("role"@, JsonValue::Text("user"@)),
                    ("content"@, JsonValue::Text(self.prompt@)),
                ],
            ),
        ]);
        let mut fields: Vec<(String, Json)> = Vec::new();
        fields.push(field("model", Json::text(self.model.as_str())));
        fields.push(field("messages", Json::array(messages)));
        fields.push(field("max_tokens", Json::integer(self.max_tokens)));
        fields.push(field("temperature", Json::thousandths(self.temperature_milli)));
        assert(fields_of(fields@) =~= request_json(self@)->Object_0);
        Json::object(fields)
    }

    /// The call that asks the completion service for this completion, signed
    /// with `api_key`.
    pub fn to_http(&self, api_key: &str) -> (request: HttpRequest)
        ensures
            request@ == request_http(self@, api_key@),
    {
        let mut url = API_BASE_URL.to_owned();
        url.append(CHAT_ENDPOINT);
        let query: Vec<(String, String)> = Vec::new();
        assert(pair_views(query@) =~= Seq::empty());
        HttpRequest {
            method: Method::Post,
            url,
            query,
            headers: signed_headers_for(api_key),
            body: self.to_json(),
        }
    }

    /// The request for `prompt` under a configuration.
    pub fn new(prompt: String, max_tokens: Option<i32>, temperature_milli: Option<u32>) -> (request:
        CompletionRequest)
        ensures
            request@ == request_for(prompt@, max_tokens, temperature_milli),
    {
        CompletionRequest {
            model: MODEL.to_owned(),
            prompt,
            max_tokens: match max_tokens {
                Some(limit) => limit,
                None => DEFAULT_MAX_TOKENS,
            },
            temperature_milli: match temperature_milli {
                Some(temperature) => temperature,
                None => DEFAULT_TEMPERATURE_MILLI,
            },
        }
    }
}

/// The token counts of one completion.
#[derive(Debug, Clone, Copy, PartialEq, Eq, Structural)]
pub struct Usage {
    pub prompt_tokens: u32,
    pub completion_tokens: u32,
    pub total_tokens: u32,
}

/// The answer of the completion service: the candidate texts, and what they
/// cost.
#[derive(Debug, PartialEq, Eq)]
pub struct CompletionResponse {
    pub choices: Vec<String>,
    pub usage: Usage,
}

/// How a call to the completion or the reply service failed.
#[derive(Debug, Clone, Copy, PartialEq, Eq, Structural)]
pub enum GatewayFailure {
    /// The service was not reached.
    Transport,
    /// The service answered with this status, which is no success.
    Status(u16),
    /// The answer of the service was not understood.
    Decode,
}

/// The mathematical value of a [`CompletionResponse`].
pub struct CompletionResponseView {
    pub choices: Seq<Seq<char>>,
    pub usage: Usage,
}

impl View for CompletionResponse {
    type V = CompletionResponseView;

    open spec fn view(&self) -> CompletionResponseView {
        CompletionResponseView { choices: text_views(self.choices@), usage: self.usage }
    }
}

/// The candidate text that a JSON value stands for: the string `content` of
/// the object under its field `message`.
pub open spec fn choice_of(value: JsonValue) -> Option<Seq<char>> {
    match value.field("message"@) {
        Some(message) => match message.field("content"@) {
            Some(JsonValue::Text(content)) => Some(content),
            _ => None,
        },
        None => None,
    }
}

/// The candidate texts that a run of JSON values stands for, where each of
/// them stands for one.
pub open spec fn choices_of(items: Seq<JsonValue>) -> Option<Seq<Seq<char>>> {
    if forall|i: int| 0 <= i < items.len() ==> (#[trigger] choice_of(items[i])) is Some {
        Some(Seq::new(items.len(), |i: int| choice_of(items[i])->0))
    } else {
        None
    }
}

/// The count under the field `key` of a JSON value.
pub open spec fn count_of(value: JsonValue, key: Seq<char>) -> Option<u32> {
    match value.field(key) {
        Some(number) => number.count(),
        None => None,
    }
}

/// The token counts that a JSON value stands for: an object with the three
/// counts.
pub open spec fn usage_of(value: JsonValue) -> Option<Usage> {
    match (
        count_of(value, "prompt_tokens"@),
        count_of(value, "completion_tokens"@),
        count_of(value, "total_tokens"@),
    ) {
        (Some(prompt_tokens), Some(completion_tokens), Some(total_tokens)) => Some(
            Usage { prompt_tokens, completion_tokens, total_tokens },
        ),
        _ => None,
    }
}

/// The answer that a JSON document stands for: the candidates of the array
/// under `choices`, and the counts under `usage`.
pub open spec fn response_of(doc: JsonValue) -> Option<CompletionResponseView> {
    match (doc.field("choices"@), doc.field("usage"@)) {
        (Some(JsonValue::Array(items)), Some(counts)) => match (
            choices_of(items),
            usage_of(counts),
        ) {
            (Some(choices), Some(usage)) => Some(CompletionResponseView { choices, usage }),
            _ => None,
        },
        _ => None,
    }
}

/// A status that tells of success.
pub open spec fn is_success(status: u16) -> bool {
    200 <= status < 300
}

/// What an answer of the completion service amounts to: a failure where its
/// status tells of no success, or where its body is no JSON text or stands
/// for no answer; else the answer.
pub open spec fn completion_outcome(status: u16, body: Seq<u8>) -> Result<
    CompletionResponseView,
    GatewayFailure,
> {
    if !is_success(status) {
        Err(GatewayFailure::Status(status))
    } else {
        match json_document(body) {
            Some(doc) => match response_of(doc) {
                Some(response) => Ok(response),
                None => Err(GatewayFailure::Decode),
            },
            None => Err(GatewayFailure::Decode),
        }
    }
}

/// What an answer of the reply service amounts to: a failure where its
/// status tells of no success.
pub open spec fn reply_outcome(status: u16) -> Result<(), GatewayFailure> {
    if is_success(status) {
        Ok(())
    } else {
        Err(GatewayFailure::Status(status))
    }
}

fn count_in(value: &Json, key: &str) -> (r: Option<u32>)
    ensures
        r == count_of(value@, key@),
{
    match value.get(key) {
        Some(number) => number.as_count(),
        None => None,
    }
}

impl Usage {
    /// Reads the token counts from a JSON value.
    pub fn from_json(value: &Json) -> (r: Option<Usage>)
        ensures
            r == usage_of(value@),
    {
        let prompt_tokens = count_in(value, "prompt_tokens");
        let completion_tokens = count_in(value, "completion_tokens");
        let total_tokens = count_in(value, "total_tokens");
        match (prompt_tokens, completion_tokens, total_tokens) {
            (Some(prompt_tokens), Some(completion_tokens), Some(total_tokens)) => Some(
                Usage { prompt_tokens, completion_tokens, total_tokens },
            ),
            _ => None,
        }
    }
}

impl CompletionResponse {
    /// Reads an answer from a JSON document.
    pub fn from_json(doc: &Json) -> (r: Option<CompletionResponse>)
        ensures
            match r {
                Some(response) => response_of(doc@) == Some(response@),
                None => response_of(doc@) is None,
            },
    {
        let items = match doc.get("choices") {
            Some(found) => match found.as_array() {
                Some(items) => items,
                None => { return None; },
            },
            None => { return None; },
        };
        let counts = match doc.get("usage") {
            Some(counts) => counts,
            None => { return None; },
        };
        let ghost values = values_of(items@);
        let n = items.len();
        let mut choices: Vec<String> = Vec::new();
        let mut i: usize = 0;
        while i < n
            invariant
                n == items@.len(),
                values == values_of(items@),
                doc@.field("choices"@) == Some(JsonValue::Array(values)),
                doc@.field("usage"@) == Some(counts@),
                i <= n,
                choices@.len() == i,
                forall|j: int| 0 <= j < i ==> #[trigger] choice_of(values[j]) == Some(choices@[j]@),
            decreases n - i,
        {
            let content = match items[i].get("message") {
                Some(message) => match message.get("content") {
                    Some(Json::Text(content)) => content,
                    _ => {
                        assert(choice_of(values[i as int]) is None);
                        return None;
                    },
                },
                None => {
                    assert(choice_of(values[i as int]) is None);
                    return None;
                },
            };
            choices.push(content.clone());
            i += 1;
        }
        assert(choices_of(values)->0 =~= text_views(choices@));
        match Usage::from_json(counts) {
            Some(usage) => Some(CompletionResponse { choices, usage }),
            None => None,
        }
    }

    /// What an answer of the completion service, given by its status and its
    /// body, amounts to.
    pub fn from_http(status: u16, body: &[u8]) -> (r: Result<CompletionResponse, GatewayFailure>)
        ensures
            match r {
                Ok(response) => completion_outcome(status, body@) == Ok::<
                    CompletionResponseView,
                    GatewayFailure,
                >(response@),
                Err(failure) => completion_outcome(status, body@) == Err::<
                    CompletionResponseView,
                    GatewayFailure,
                >(failure),
            },
    {
        if status < 200 || status >= 300 {
            return Err(GatewayFailure::Status(status));
        }
        match Json::parse(body) {
            Some(doc) => match CompletionResponse::from_json(&doc) {
                Some(response) => Ok(response),
                None => Err(GatewayFailure::Decode),
            },
            None => Err(GatewayFailure::Decode),
        }
    }
}

/// What an answer of the reply service, given by its status, amounts to.
pub fn reply_result(status: u16) -> (r: Result<(), GatewayFailure>)
    ensures
        r == reply_outcome(status),
{
    if status >= 200 && status < 300 {
        Ok(())
    } else {
        Err(GatewayFailure::Status(status))
    }
}

/// The values of a run of texts.
pub open spec fn text_views(texts: Seq<String>) -> Seq<Seq<char>> {
    Seq::new(texts.len(), |i: int| texts[i]@)
}

/// What a call for a completion brought: the candidate texts, or a failure.
pub open spec fn candidates_of(result: Result<CompletionResponse, GatewayFailure>) -> Result<
    Seq<Seq<char>>,
    GatewayFailure,
> {
    match result {
        Ok(response) => Ok(text_views(response.choices@)),
        Err(failure) => Err(failure),
    }
}

} // verus!
