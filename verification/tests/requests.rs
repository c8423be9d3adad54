use line_chat_bot::bot::LineBot;
use line_chat_bot::client::{is_header_value, HttpClient, Method, BASEDATA_URL, BASE_URL};
use line_chat_bot::json::{field, Json};
use line_chat_bot::messages::{Emoji, SendMessageType, TextMessage};

fn pair(name: &str, value: &str) -> (String, String) {
    (name.to_string(), value.to_string())
}

fn text_message(text: &str) -> SendMessageType {
    SendMessageType::TextMessage(TextMessage { text: text.to_string(), emojis: None })
}

#[test]
fn header_value_takes_visible_text_and_tabs() {
    assert!(is_header_value("Bearer abc.DEF-123_~"));
    assert!(is_header_value(""));
    assert!(is_header_value("a\tb"));
    assert!(is_header_value("caf\u{e9}"));
    assert!(!is_header_value("a\nb"));
    assert!(!is_header_value("a\rb"));
    assert!(!is_header_value("a\u{0}b"));
    assert!(!is_header_value("a\u{7f}b"));
    assert!(!is_header_value("\u{1f}"));
}

#[test]
fn client_requests_carry_bearer_and_content_type() {
    let client = HttpClient::new("token-1");
    let request = client.post("/x", Json::Null);
    assert_eq!(
        request.headers,
        vec![pair("authorization", "Bearer token-1"), pair("content-type", "application/json")]
    );
}

#[test]
fn client_leaves_out_a_bearer_that_cannot_be_a_header() {
    let client = HttpClient::new("bad\ntoken");
    let request = client.post("/x", Json::Null);
    assert_eq!(request.headers, vec![pair("content-type", "application/json")]);
}

#[test]
fn client_shapes_each_method() {
    let client = HttpClient::new("t");
    let body = Json::object(vec![field("k", Json::text("v"))]);

    let get = client.get("/profile/U1", vec![("a", "1"), ("b", "2")], Json::Null);
    assert_eq!(get.method, Method::Get);
    assert_eq!(get.url, "https://api.line.me/v2/bot/profile/U1");
    assert_eq!(get.query, vec![pair("a", "1"), pair("b", "2")]);
    assert_eq!(get.body, Json::Null);

    let data = client.get_data("/message/1/content", vec![], Json::Null);
    assert_eq!(data.method, Method::Get);
    assert_eq!(data.url, "https://api-data.line.me/v2/bot/message/1/content");
    assert_eq!(data.query, vec![]);

    let post = client.post("/message/push", Json::object(vec![field("k", Json::text("v"))]));
    assert_eq!(post.method, Method::Post);
    assert_eq!(post.url, "https://api.line.me/v2/bot/message/push");
    assert_eq!(post.query, vec![]);
    assert_eq!(post.body, body);

    let put = client.put("/webhook/endpoint", Json::Null);
    assert_eq!(put.method, Method::Put);
    assert_eq!(put.url, "https://api.line.me/v2/bot/webhook/endpoint");

    let delete = client.delete("/richmenu/1", Json::Null);
    assert_eq!(delete.method, Method::Delete);
    assert_eq!(delete.url, "https://api.line.me/v2/bot/richmenu/1");
    assert_eq!(delete.headers, post.headers);
}

#[test]
fn endpoint_bases_are_those_of_the_service() {
    assert_eq!(BASE_URL, "https://api.line.me/v2/bot");
    assert_eq!(BASEDATA_URL, "https://api-data.line.me/v2/bot");
}

#[test]
fn bot_keeps_secret_and_token() {
    let bot = LineBot::new("secret", "token");
    assert_eq!(bot.channel_secret, "secret");
    assert_eq!(bot.channel_token, "token");
    assert_eq!(bot.http_client, HttpClient::new("token"));
}

#[test]
fn reply_posts_token_and_messages() {
    let bot = LineBot::new("secret", "token");
    let request = bot.reply_message("tokenA", vec![text_message("hi!")]);
    assert_eq!(request.method, Method::Post);
    assert_eq!(request.url, "https://api.line.me/v2/bot/message/reply");
    assert_eq!(request.query, vec![]);
    assert_eq!(
        request.headers,
        vec![pair("authorization", "Bearer token"), pair("content-type", "application/json")]
    );
    assert_eq!(
        request.body,
        Json::Object(vec![
            ("replyToken".to_string(), Json::Text("tokenA".to_string())),
            (
                "messages".to_string(),
                Json::Array(vec![Json::Object(vec![
                    ("type".to_string(), Json::Text("text".to_string())),
                    ("text".to_string(), Json::Text("hi!".to_string())),
                ])])
            ),
        ])
    );
}

#[test]
fn reply_keeps_the_order_of_the_messages() {
    let bot = LineBot::new("secret", "token");
    let request = bot.reply_message("t", vec![text_message("one"), text_message("two")]);
    let messages = request.body.get("messages").unwrap().as_array().unwrap();
    assert_eq!(messages.len(), 2);
    assert_eq!(messages[0].get("text"), Some(&Json::text("one")));
    assert_eq!(messages[1].get("text"), Some(&Json::text("two")));
}

#[test]
fn reply_without_messages_has_an_empty_array() {
    let bot = LineBot::new("secret", "token");
    let request = bot.reply_message("t", vec![]);
    assert_eq!(request.body.get("messages"), Some(&Json::Array(vec![])));
}

#[test]
fn text_message_with_emojis_lists_them() {
    let message = SendMessageType::TextMessage(TextMessage {
        text: "$ hello $".to_string(),
        emojis: Some(vec![
            Emoji { index: 0, product_id: "p1".to_string(), emoji_id: "001".to_string() },
            Emoji { index: 8, product_id: "p2".to_string(), emoji_id: "002".to_string() },
        ]),
    });
    assert_eq!(
        message.to_json(),
        Json::Object(vec![
            ("type".to_string(), Json::Text("text".to_string())),
            ("text".to_string(), Json::Text("$ hello $".to_string())),
            (
                "emojis".to_string(),
                Json::Array(vec![
                    Json::Object(vec![
                        ("index".to_string(), Json::Number("0".to_string())),
                        ("productId".to_string(), Json::Text("p1".to_string())),
                        ("emojiId".to_string(), Json::Text("001".to_string())),
                    ]),
                    Json::Object(vec![
                        ("index".to_string(), Json::Number("8".to_string())),
                        ("productId".to_string(), Json::Text("p2".to_string())),
                        ("emojiId".to_string(), Json::Text("002".to_string())),
                    ]),
                ])
            ),
        ])
    );
}

#[test]
fn text_message_without_emojis_has_no_such_field() {
    let json = text_message("hi").to_json();
    assert_eq!(json.get("emojis"), None);
    let empty = TextMessage { text: "hi".to_string(), emojis: Some(vec![]) }.to_json();
    assert_eq!(empty.get("emojis"), Some(&Json::Array(vec![])));
}
