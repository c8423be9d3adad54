//! The bot's calls to the messaging service.

use vstd::prelude::*;

use crate::client::{client_for, HttpClient, HttpRequest, HttpRequestView, Method};
use crate::json::{field, fields_of, values_of, Json, JsonValue};
use crate::messages::{message_json, message_views, SendMessageType, SendMessageView};

verus! {

/// The endpoint that takes replies.
pub const REPLY_ENDPOINT: &'static str = "/message/reply";

/// A bot of one channel.
#[derive(Debug, PartialEq, Eq)]
pub struct LineBot {
    pub channel_secret: String,
    pub channel_token: String,
    pub http_client: HttpClient,
}

/// The body of a reply: the token of the event that is answered, and the
/// messages in the order given.
pub open spec fn reply_body(reply_token: Seq<char>, messages: Seq<SendMessageView>) -> JsonValue {
    JsonValue::Object(
        seq![
            ("replyToken"@, JsonValue::Text(reply_token)),
            (
                "messages"@,
                JsonValue::Array(Seq::new(messages.len(), |i: int| message_json(messages[i]))),
            ),
        ],
    )
}

impl LineBot {
    /// The bot of the channel with this secret and access token.
    pub fn new(channel_secret: &str, channel_token: &str) -> (bot: LineBot)
        ensures
            bot.channel_secret@ == channel_secret@,
            bot.channel_token@ == channel_token@,
            bot.http_client@ == client_for(channel_token@),
    {
        LineBot {
            channel_secret: channel_secret.to_owned(),
            channel_token: channel_token.to_owned(),
            http_client: HttpClient::new(channel_token),
        }
    }

    /// The request that sends `msgs` in reply to the event that `reply_token`
    /// came with.
    pub fn reply_message(&self, reply_token: &str, msgs: Vec<SendMessageType>) -> (request:
        HttpRequest)
        ensures
            request@ == (HttpRequestView {
                method: Method::Post,
                url: self.http_client@.endpoint_base + REPLY_ENDPOINT@,
                query: Seq::empty(),
                headers: self.http_client@.headers,
                body: reply_body(reply_token@, message_views(msgs@)),
            }),
    {
        let n = msgs.len();
        let mut items: Vec<Json> = Vec::new();
        let mut i: usize = 0;
        while i < n
            invariant
                n == msgs@.len(),
                i <= n,
                items@.len() == i,
                forall|j: int| 0 <= j < i ==> (#[trigger] items@[j])@ == message_json(msgs@[j]@),
            decreases n - i,
        {
            items.push(msgs[i].to_json());
            i += 1;
        }
        let ghost messages = message_views(msgs@);
        assert(values_of(items@) =~= Seq::new(messages.len(), |i: int| message_json(messages[i])));
        let mut fields: Vec<(String, Json)> = Vec::new();
        fields.push(field("replyToken", Json::text(reply_token)));
        fields.push(field("messages", Json::array(items)));
        assert(fields_of(fields@) =~= reply_body(reply_token@, messages)->Object_0);
        self.http_client.post(REPLY_ENDPOINT, Json::object(fields))
    }
}

} // verus!
