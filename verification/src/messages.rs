//! The messages that are sent back to a conversation.

use vstd::prelude::*;

use crate::json::{decimal, field, fields_of, values_of, Json, JsonValue};

verus! {

/// An emoji that takes the place of one character of a text.
#[derive(Debug, PartialEq, Eq)]
pub struct Emoji {
    /// Position of that character in the text.
    pub index: u32,
    pub product_id: String,
    pub emoji_id: String,
}

/// A text message to send.
#[derive(Debug, PartialEq, Eq)]
pub struct TextMessage {
    pub text: String,
    pub emojis: Option<Vec<Emoji>>,
}

/// A message to send, by kind.
#[derive(Debug, PartialEq, Eq)]
pub enum SendMessageType {
    TextMessage(TextMessage),
}

/// The mathematical value of an [`Emoji`].
pub struct EmojiView {
    pub index: nat,
    pub product_id: Seq<char>,
    pub emoji_id: Seq<char>,
}

/// The mathematical value of a [`TextMessage`].
pub struct TextMessageView {
    pub text: Seq<char>,
    pub emojis: Option<Seq<EmojiView>>,
}

/// The mathematical value of a [`SendMessageType`].
pub enum SendMessageView {
    TextMessage(TextMessageView),
}

impl View for Emoji {
    type V = EmojiView;

    open spec fn view(&self) -> EmojiView {
        EmojiView {
            index: self.index as nat,
            product_id: self.product_id@,
            emoji_id: self.emoji_id@,
        }
    }
}

/// The values of a run of emojis.
pub open spec fn emoji_views(emojis: Seq<Emoji>) -> Seq<EmojiView> {
    Seq::new(emojis.len(), |i: int| emojis[i]@)
}

impl View for TextMessage {
    type V = TextMessageView;

    open spec fn view(&self) -> TextMessageView {
        TextMessageView {
            text: self.text@,
            emojis: match self.emojis {
                Some(emojis) => Some(emoji_views(emojis@)),
                None => None,
            },
        }
    }
}

impl View for SendMessageType {
    type V = SendMessageView;

    open spec fn view(&self) -> SendMessageView {
        match self {
            SendMessageType::TextMessage(message) => SendMessageView::TextMessage(message@),
        }
    }
}

/// The values of a run of messages.
pub open spec fn message_views(messages: Seq<SendMessageType>) -> Seq<SendMessageView> {
    Seq::new(messages.len(), |i: int| messages[i]@)
}

/// The JSON object that stands for an emoji.
pub open spec fn emoji_json(emoji: EmojiView) -> JsonValue {
    JsonValue::Object(
        seq![
            ("index"@, JsonValue::Number(decimal(emoji.index))),
            ("productId"@, JsonValue::Text(emoji.product_id)),
            ("emojiId"@, JsonValue::Text(emoji.emoji_id)),
        ],
    )
}

/// The JSON object that stands for a text message. It has the field `emojis`
/// only where the message has emojis.
pub open spec fn text_message_json(message: TextMessageView) -> JsonValue {
    JsonValue::Object(
        seq![("type"@, JsonValue::Text("text"@)), ("text"@, JsonValue::Text(message.text))]
            + match message.emojis {
            Some(emojis) => seq![
                (
                    "emojis"@,
                    JsonValue::Array(Seq::new(emojis.len(), |i: int| emoji_json(emojis[i]))),
                ),
            ],
            None => seq![],
        },
    )
}

/// The JSON object that stands for a message.
pub open spec fn message_json(message: SendMessageView) -> JsonValue {
    match message {
        SendMessageView::TextMessage(message) => text_message_json(message),
    }
}

impl Emoji {
    /// The JSON object that stands for this emoji.
    pub fn to_json(&self) -> (json: Json)
        ensures
            json@ == emoji_json(self@),
    {
        let mut fields: Vec<(String, Json)> = Vec::new();
        fields.push(field("index", Json::number(self.index)));
        fields.push(field("productId", Json::text(self.product_id.as_str())));
        fields.push(field("emojiId", Json::text(self.emoji_id.as_str())));
        assert(fields_of(fields@) =~= emoji_json(self@)->Object_0);
        Json::object(fields)
    }
}

impl TextMessage {
    /// The JSON object that stands for this message.
    pub fn to_json(&self) -> (json: Json)
        ensures
            json@ == text_message_json(self@),
    {
        let mut fields: Vec<(String, Json)> = Vec::new();
        fields.push(field("type", Json::text("text")));
        fields.push(field("text", Json::text(self.text.as_str())));
        match &self.emojis {
            Some(emojis) => {
                let n = emojis.len();
                let mut items: Vec<Json> = Vec::new();
                let mut i: usize = 0;
                while i < n
                    invariant
                        n == emojis@.len(),
                        i <= n,
                        items@.len() == i,
                        forall|j: int|
                            0 <= j < i ==> (#[trigger] items@[j])@ == emoji_json(emojis@[j]@),
                    decreases n - i,
                {
                    items.push(emojis[i].to_json());
                    i += 1;
                }
                assert(values_of(items@) =~= Seq::new(
                    emoji_views(emojis@).len(),
                    |i: int| emoji_json(emoji_views(emojis@)[i]),
                ));
                fields.push(field("emojis", Json::array(items)));
            },
            None => {},
        }
        assert(fields_of(fields@) =~= text_message_json(self@)->Object_0);
        Json::object(fields)
    }
}

impl SendMessageType {
    /// The JSON object that stands for this message.
    pub fn to_json(&self) -> (json: Json)
        ensures
            json@ == message_json(self@),
    {
        match self {
            SendMessageType::TextMessage(message) => message.to_json(),
        }
    }
}

} // verus!
