//! The handling of a webhook request from its arrival on.

use vstd::prelude::*;

use crate::dispatch::{dispatch, job_of, jobs_of, lemma_jobs_of_none};
use crate::events::{decoded, EventView, Events, MessageView};
use crate::session::{
    Action, ActionView, Phase, Session, SessionView, STATUS_BAD_REQUEST, STATUS_OK,
    STATUS_UNAUTHORIZED,
};
use crate::signature::{signature_valid, validate_signature};
use crate::text::contains;

verus! {

/// The path under which webhook requests are taken, by `POST`.
pub const WEBHOOK_PATH: &'static str = "/v1/line/webhook";

/// The configuration of the relay. It is read, never written, by the
/// handling of a request. The temperature is held in thousandths.
#[derive(Debug, PartialEq, Eq)]
pub struct LineKeys {
    pub channel_secret: String,
    pub access_token: String,
    pub chat_gpt_api_key: String,
    pub chat_gpt_max_tokens: Option<i32>,
    pub chat_gpt_temperature_milli: Option<u32>,
    pub line_chat_prompt: String,
}

/// How the handling of the events of a request begins: the first job is
/// turned to, or, where there is none, the response is given.
pub open spec fn handling(
    events: Seq<EventView>,
    trigger: Seq<char>,
    max_tokens: Option<i32>,
    temperature_milli: Option<u32>,
) -> (SessionView, ActionView) {
    SessionView::begin(jobs_of(events, trigger), max_tokens, temperature_milli)
}

/// How the handling of a request begins. A request without a signature that
/// is valid for its body is refused, whatever its body holds. A body that is
/// not decoded is refused. Else the events are handled.
pub open spec fn opening(
    signature: Option<Seq<char>>,
    body: Seq<u8>,
    channel_secret: Seq<char>,
    trigger: Seq<char>,
    max_tokens: Option<i32>,
    temperature_milli: Option<u32>,
) -> (SessionView, ActionView) {
    if signature is Some && signature_valid(channel_secret, signature->0, body) {
        match decoded(body) {
            Ok(events) => handling(events, trigger, max_tokens, temperature_milli),
            Err(_) => (
                SessionView::idle(max_tokens, temperature_milli),
                ActionView::Respond(STATUS_BAD_REQUEST),
            ),
        }
    } else {
        (SessionView::idle(max_tokens, temperature_milli), ActionView::Respond(STATUS_UNAUTHORIZED))
    }
}

/// Events that give rise to no job are answered with success at once: the
/// host is asked for no call.
pub proof fn lemma_no_job_no_call(
    events: Seq<EventView>,
    trigger: Seq<char>,
    max_tokens: Option<i32>,
    temperature_milli: Option<u32>,
)
    requires
        forall|i: int| 0 <= i < events.len() ==> job_of(#[trigger] events[i], trigger) is None,
    ensures
        handling(events, trigger, max_tokens, temperature_milli).1 == ActionView::Respond(
            STATUS_OK,
        ),
        handling(events, trigger, max_tokens, temperature_milli).0.phase == Phase::Responded,
{
    lemma_jobs_of_none(events, trigger);
}

/// Events none of which is a text message are answered with success at once:
/// events and messages of other kinds ask for no call.
pub proof fn lemma_other_kinds_no_call(
    events: Seq<EventView>,
    trigger: Seq<char>,
    max_tokens: Option<i32>,
    temperature_milli: Option<u32>,
)
    requires
        forall|i: int|
            0 <= i < events.len() ==> !((#[trigger] events[i]) matches EventView::Message {
                message: MessageView::Text { .. },
                ..
            }),
    ensures
        handling(events, trigger, max_tokens, temperature_milli).1 == ActionView::Respond(
            STATUS_OK,
        ),
        handling(events, trigger, max_tokens, temperature_milli).0.phase == Phase::Responded,
{
    lemma_no_job_no_call(events, trigger, max_tokens, temperature_milli);
}

/// Events none of whose text messages holds the trigger are answered with
/// success at once: a text without the trigger asks for no call.
pub proof fn lemma_no_trigger_no_call(
    events: Seq<EventView>,
    trigger: Seq<char>,
    max_tokens: Option<i32>,
    temperature_milli: Option<u32>,
)
    requires
        forall|i: int|
            0 <= i < events.len() ==> ((#[trigger] events[i]) matches EventView::Message {
                message: MessageView::Text { text },
                ..
            } ==> !contains(text, trigger)),
    ensures
        handling(events, trigger, max_tokens, temperature_milli).1 == ActionView::Respond(
            STATUS_OK,
        ),
        handling(events, trigger, max_tokens, temperature_milli).0.phase == Phase::Responded,
{
    lemma_no_job_no_call(events, trigger, max_tokens, temperature_milli);
}

/// The signature of a request as a value.
pub open spec fn signature_view(signature: Option<&str>) -> Option<Seq<char>> {
    match signature {
        Some(text) => Some(text@),
        None => None,
    }
}

/// Begins the handling of a webhook request: holds the signature that came
/// with it against its body as received; decodes the body; and turns to the
/// first event that is to be answered. A body that comes without a valid
/// signature is not decoded.
pub fn callback(signature: Option<&str>, body: &[u8], config: &LineKeys) -> (next: (
    Session,
    Action,
))
    ensures
        (next.0@, next.1@) == opening(
            signature_view(signature),
            body@,
            config.channel_secret@,
            config.line_chat_prompt@,
            config.chat_gpt_max_tokens,
            config.chat_gpt_temperature_milli,
        ),
{
    let max_tokens = config.chat_gpt_max_tokens;
    let temperature_milli = config.chat_gpt_temperature_milli;
    let authentic = match signature {
        Some(text) => validate_signature(config.channel_secret.as_str(), text, body),
        None => false,
    };
    if !authentic {
        return (Session::idle(max_tokens, temperature_milli), Action::Respond(STATUS_UNAUTHORIZED));
    }
    match Events::decode(body) {
        Err(_) => (
            Session::idle(max_tokens, temperature_milli),
            Action::Respond(STATUS_BAD_REQUEST),
        ),
        Ok(payload) => {
            let jobs = dispatch(&payload, config.line_chat_prompt.as_str());
            Session::begin(jobs, max_tokens, temperature_milli)
        },
    }
}

} // verus!
