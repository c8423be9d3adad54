//! The events of a webhook request and how they are read from its body.

use vstd::prelude::*;

use crate::json::{json_document, values_of, Json, JsonValue};
use crate::text::same_text;

verus! {

/// The content of a message event.
#[derive(Debug, PartialEq, Eq)]
pub enum Message {
    /// A text message.
    Text { text: String },
    /// A message of any other kind (image, sticker, location, ...).
    Other,
}

/// One notification of a webhook request.
#[derive(Debug, PartialEq, Eq)]
pub enum Event {
    /// A user sent a message.
    Message { reply_token: String, message: Message },
    /// An event of any other kind.
    Other,
}

/// The decoded body of a webhook request: its events, in the order of the
/// body.
#[derive(Debug, PartialEq, Eq)]
pub struct Events {
    pub events: Vec<Event>,
}

/// Why a body was not decoded.
#[derive(Debug, Clone, Copy, PartialEq, Eq, Structural)]
pub enum DecodeError {
    /// The body is no JSON text.
    Malformed,
    /// The body is no object with an array under `events`.
    MissingEvents,
    /// One of the events lacks a part that its kind requires.
    InvalidEvent,
}

/// The mathematical value of a [`Message`].
pub enum MessageView {
    Text { text: Seq<char> },
    Other,
}

/// The mathematical value of an [`Event`].
pub enum EventView {
    Message { reply_token: Seq<char>, message: MessageView },
    Other,
}

impl View for Message {
    type V = MessageView;

    open spec fn view(&self) -> MessageView {
        match self {
            Message::Text { text } => MessageView::Text { text: text@ },
            Message::Other => MessageView::Other,
        }
    }
}

impl View for Event {
    type V = EventView;

    open spec fn view(&self) -> EventView {
        match self {
            Event::Message { reply_token, message } => EventView::Message {
                reply_token: reply_token@,
                message: message@,
            },
            Event::Other => EventView::Other,
        }
    }
}

/// The values of a run of events.
pub open spec fn event_views(events: Seq<Event>) -> Seq<EventView> {
    Seq::new(events.len(), |i: int| events[i]@)
}

impl View for Events {
    type V = Seq<EventView>;

    open spec fn view(&self) -> Seq<EventView> {
        event_views(self.events@)
    }
}

/// The message that a JSON value stands for: an object whose `type` is a
/// string. Under the type `text` it must hold a string `text`; any other type
/// is a message of another kind. A value of another shape stands for none.
pub open spec fn message_of(value: JsonValue) -> Option<MessageView> {
    match value.field("type"@) {
        Some(JsonValue::Text(kind)) => if kind == "text"@ {
            match value.field("text"@) {
                Some(JsonValue::Text(text)) => Some(MessageView::Text { text }),
                _ => None,
            }
        } else {
            Some(MessageView::Other)
        },
        _ => None,
    }
}

/// The event that a JSON value stands for: an object whose `type` is a
/// string. Under the type `message` it must hold a string `replyToken` and a
/// message under `message`; any other type is an event of another kind. A
/// value of another shape stands for none.
pub open spec fn event_of(value: JsonValue) -> Option<EventView> {
    match value.field("type"@) {
        Some(JsonValue::Text(kind)) => if kind == "message"@ {
            match (value.field("replyToken"@), value.field("message"@)) {
                (Some(JsonValue::Text(reply_token)), Some(content)) => match message_of(content) {
                    Some(message) => Some(EventView::Message { reply_token, message }),
                    None => None,
                },
                _ => None,
            }
        } else {
            Some(EventView::Other)
        },
        _ => None,
    }
}

/// The events that a run of JSON values stands for, where each of them stands
/// for one.
pub open spec fn events_of(items: Seq<JsonValue>) -> Option<Seq<EventView>> {
    if forall|i: int| 0 <= i < items.len() ==> (#[trigger] event_of(items[i])) is Some {
        Some(Seq::new(items.len(), |i: int| event_of(items[i])->0))
    } else {
        None
    }
}

/// The events that a JSON document stands for: those of the array under its
/// field `events`.
pub open spec fn payload_of(doc: JsonValue) -> Result<Seq<EventView>, DecodeError> {
    match doc.field("events"@) {
        Some(JsonValue::Array(items)) => match events_of(items) {
            Some(events) => Ok(events),
            None => Err(DecodeError::InvalidEvent),
        },
        _ => Err(DecodeError::MissingEvents),
    }
}

/// The events that a request body stands for.
pub open spec fn decoded(body: Seq<u8>) -> Result<Seq<EventView>, DecodeError> {
    match json_document(body) {
        Some(doc) => payload_of(doc),
        None => Err(DecodeError::Malformed),
    }
}

/// An event of a kind that is not known is read as an event of another
/// kind, whatever else it holds.
pub proof fn lemma_unknown_event_kind(value: JsonValue, kind: Seq<char>)
    requires
        value.field("type"@) == Some(JsonValue::Text(kind)),
        kind != "message"@,
    ensures
        event_of(value) == Some(EventView::Other),
{
}

/// A message event whose message is of a kind that is not known is read, with
/// its reply token, as a message event with a message of another kind.
pub proof fn lemma_unknown_message_kind(
    value: JsonValue,
    reply_token: Seq<char>,
    content: JsonValue,
    kind: Seq<char>,
)
    requires
        value.field("type"@) == Some(JsonValue::Text("message"@)),
        value.field("replyToken"@) == Some(JsonValue::Text(reply_token)),
        value.field("message"@) == Some(content),
        content.field("type"@) == Some(JsonValue::Text(kind)),
        kind != "text"@,
    ensures
        event_of(value) == Some(EventView::Message { reply_token, message: MessageView::Other }),
{
}

/// A document with an array of events is decoded exactly where each of them
/// stands for an event: then event for event, in the order of the array,
/// whatever the kinds.
pub proof fn lemma_payload_decodes(doc: JsonValue, items: Seq<JsonValue>)
    requires
        doc.field("events"@) == Some(JsonValue::Array(items)),
    ensures
        payload_of(doc) is Ok <==> (forall|i: int|
            0 <= i < items.len() ==> (#[trigger] event_of(items[i])) is Some),
        payload_of(doc) matches Ok(events) ==> events.len() == items.len() && (forall|i: int|
            0 <= i < items.len() ==> Some(#[trigger] events[i]) == event_of(items[i])),
        !(payload_of(doc) is Ok) ==> payload_of(doc) == Err::<Seq<EventView>, DecodeError>(
            DecodeError::InvalidEvent,
        ),
{
}

impl Message {
    /// Reads a message from a JSON value.
    pub fn from_json(value: &Json) -> (r: Option<Message>)
        ensures
            match r {
                Some(message) => message_of(value@) == Some(message@),
                None => message_of(value@) is None,
            },
    {
        let kind = match value.get("type") {
            Some(Json::Text(kind)) => kind,
            _ => { return None; },
        };
        if same_text(kind.as_str(), "text") {
            match value.get("text") {
                Some(Json::Text(text)) => Some(Message::Text { text: text.clone() }),
                _ => None,
            }
        } else {
            Some(Message::Other)
        }
    }
}

impl Event {
    /// Reads an event from a JSON value.
    pub fn from_json(value: &Json) -> (r: Option<Event>)
        ensures
            match r {
                Some(event) => event_of(value@) == Some(event@),
                None => event_of(value@) is None,
            },
    {
        let kind = match value.get("type") {
            Some(Json::Text(kind)) => kind,
            _ => { return None; },
        };
        if same_text(kind.as_str(), "message") {
            let reply_token = match value.get("replyToken") {
                Some(Json::Text(token)) => token,
                _ => { return None; },
            };
            let content = match value.get("message") {
                Some(content) => content,
                None => { return None; },
            };
            match Message::from_json(content) {
                Some(message) => Some(Event::Message { reply_token: reply_token.clone(), message }),
                None => None,
            }
        } else {
            Some(Event::Other)
        }
    }
}

impl Events {
    /// Reads the events from a JSON document.
    pub fn from_json(doc: &Json) -> (r: Result<Events, DecodeError>)
        ensures
            match r {
                Ok(payload) => payload_of(doc@) == Ok::<Seq<EventView>, DecodeError>(payload@),
                Err(e) => payload_of(doc@) == Err::<Seq<EventView>, DecodeError>(e),
            },
    {
        let items = match doc.get("events") {
            Some(found) => match found.as_array() {
                Some(items) => items,
                None => { return Err(DecodeError::MissingEvents); },
            },
            None => { return Err(DecodeError::MissingEvents); },
        };
        let ghost values = values_of(items@);
        let n = items.len();
        let mut events: Vec<Event> = Vec::new();
        let mut i: usize = 0;
        while i < n
            invariant
                n == items@.len(),
                values == values_of(items@),
                doc@.field("events"@) == Some(JsonValue::Array(values)),
                i <= n,
                events@.len() == i,
                forall|j: int| 0 <= j < i ==> #[trigger] event_of(values[j]) == Some(events@[j]@),
            decreases n - i,
        {
            match Event::from_json(&items[i]) {
                Some(event) => {
                    events.push(event);
                },
                None => {
                    assert(event_of(values[i as int]) is None);
                    return Err(DecodeError::InvalidEvent);
                },
            }
            i += 1;
        }
        let payload = Events { events };
        assert(events_of(values)->0 =~= payload@);
        Ok(payload)
    }

    /// Decodes the body of a webhook request.
    pub fn decode(body: &[u8]) -> (r: Result<Events, DecodeError>)
        ensures
            match r {
                Ok(payload) => decoded(body@) == Ok::<Seq<EventView>, DecodeError>(payload@),
                Err(e) => decoded(body@) == Err::<Seq<EventView>, DecodeError>(e),
            },
    {
        match Json::parse(body) {
            Some(doc) => Events::from_json(&doc),
            None => Err(DecodeError::Malformed),
        }
    }
}

} // verus!
