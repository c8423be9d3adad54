use line_chat_bot::client::Method;
use line_chat_bot::completion::{
    reply_result, CompletionRequest, CompletionResponse, GatewayFailure, Usage, API_BASE_URL,
    CHAT_ENDPOINT,
};
use line_chat_bot::json::{integer_text, parse_natural, thousandths_text, Json};

const ANSWER: &[u8] = b"{\"id\":\"chatcmpl-1\",\"object\":\"chat.completion\",\"created\":1,\"model\":\"gpt-3.5-turbo\",\"choices\":[{\"index\":0,\"message\":{\"role\":\"assistant\",\"content\":\" hi!\"},\"finish_reason\":\"stop\"}],\"usage\":{\"prompt_tokens\":9,\"completion_tokens\":12,\"total_tokens\":21}}";

fn text(key: &str, value: &str) -> (String, Json) {
    (key.to_string(), Json::Text(value.to_string()))
}

#[test]
fn request_is_written_as_a_conversation_of_one_message() {
    let request = CompletionRequest::new("hello there".to_string(), None, None);
    assert_eq!(
        request.to_json(),
        Json::Object(vec![
            text("model", "gpt-3.5-turbo"),
            (
                "messages".to_string(),
                Json::Array(vec![Json::Object(vec![
                    text("role", "user"),
                    text("content", "hello there"),
                ])])
            ),
            ("max_tokens".to_string(), Json::Number("4000".to_string())),
            ("temperature".to_string(), Json::Number("0.500".to_string())),
        ])
    );
}

#[test]
fn request_goes_to_the_chat_endpoint_with_the_key() {
    let request = CompletionRequest::new("p".to_string(), Some(16), Some(1250));
    let http = request.to_http("sk-123");
    assert_eq!(http.method, Method::Post);
    assert_eq!(http.url, "https://api.openai.com/v1/chat/completions");
    assert_eq!(http.url, format!("{}{}", API_BASE_URL, CHAT_ENDPOINT));
    assert_eq!(http.query, vec![]);
    assert_eq!(
        http.headers,
        vec![
            ("authorization".to_string(), "Bearer sk-123".to_string()),
            ("content-type".to_string(), "application/json".to_string()),
        ]
    );
    assert_eq!(http.body, request.to_json());
    assert_eq!(http.body.get("max_tokens"), Some(&Json::Number("16".to_string())));
    assert_eq!(http.body.get("temperature"), Some(&Json::Number("1.250".to_string())));
}

#[test]
fn answer_is_read_with_candidates_and_counts() {
    assert_eq!(
        CompletionResponse::from_http(200, ANSWER),
        Ok(CompletionResponse {
            choices: vec![" hi!".to_string()],
            usage: Usage { prompt_tokens: 9, completion_tokens: 12, total_tokens: 21 },
        })
    );
}

#[test]
fn answer_keeps_the_order_of_the_candidates() {
    let body = b"{\"choices\":[{\"message\":{\"content\":\"a\"}},{\"message\":{\"content\":\"b\"}},{\"message\":{\"content\":\"\"}}],\"usage\":{\"prompt_tokens\":0,\"completion_tokens\":0,\"total_tokens\":0}}";
    let response = CompletionResponse::from_http(201, body).unwrap();
    assert_eq!(response.choices, vec!["a".to_string(), "b".to_string(), "".to_string()]);
}

#[test]
fn status_that_is_no_success_is_a_failure_whatever_the_body() {
    for status in [100u16, 199, 300, 301, 400, 401, 429, 500, 503] {
        assert_eq!(
            CompletionResponse::from_http(status, ANSWER),
            Err(GatewayFailure::Status(status))
        );
        assert_eq!(reply_result(status), Err(GatewayFailure::Status(status)));
    }
    for status in [200u16, 201, 204, 299] {
        assert!(CompletionResponse::from_http(status, ANSWER).is_ok());
        assert_eq!(reply_result(status), Ok(()));
    }
}

#[test]
fn body_that_is_no_answer_is_a_decode_failure() {
    let bodies: [&[u8]; 9] = [
        b"",
        b"<html>",
        b"{}",
        b"{\"choices\":[]}",
        b"{\"usage\":{\"prompt_tokens\":1,\"completion_tokens\":1,\"total_tokens\":2}}",
        b"{\"choices\":{},\"usage\":{\"prompt_tokens\":1,\"completion_tokens\":1,\"total_tokens\":2}}",
        b"{\"choices\":[{\"text\":\"x\"}],\"usage\":{\"prompt_tokens\":1,\"completion_tokens\":1,\"total_tokens\":2}}",
        b"{\"choices\":[{\"message\":{\"content\":null}}],\"usage\":{\"prompt_tokens\":1,\"completion_tokens\":1,\"total_tokens\":2}}",
        b"{\"choices\":[],\"usage\":{\"prompt_tokens\":1,\"completion_tokens\":-1,\"total_tokens\":2}}",
    ];
    for body in bodies {
        assert_eq!(CompletionResponse::from_http(200, body), Err(GatewayFailure::Decode));
    }
}

#[test]
fn answer_without_candidates_is_read() {
    let body = b"{\"choices\":[],\"usage\":{\"prompt_tokens\":1,\"completion_tokens\":0,\"total_tokens\":1}}";
    assert_eq!(
        CompletionResponse::from_http(200, body),
        Ok(CompletionResponse {
            choices: vec![],
            usage: Usage { prompt_tokens: 1, completion_tokens: 0, total_tokens: 1 },
        })
    );
}

#[test]
fn usage_is_read_from_three_counts() {
    let value = Json::parse(b"{\"prompt_tokens\":1,\"completion_tokens\":2,\"total_tokens\":3,\"more\":4}").unwrap();
    assert_eq!(
        Usage::from_json(&value),
        Some(Usage { prompt_tokens: 1, completion_tokens: 2, total_tokens: 3 })
    );
    let value = Json::parse(b"{\"prompt_tokens\":1,\"completion_tokens\":2.5,\"total_tokens\":3}").unwrap();
    assert_eq!(Usage::from_json(&value), None);
    let value = Json::parse(b"{\"prompt_tokens\":\"1\",\"completion_tokens\":2,\"total_tokens\":3}").unwrap();
    assert_eq!(Usage::from_json(&value), None);
}

#[test]
fn natural_numbers_are_read_from_digits() {
    assert_eq!(parse_natural("0"), Some(0));
    assert_eq!(parse_natural("21"), Some(21));
    assert_eq!(parse_natural("007"), Some(7));
    assert_eq!(parse_natural("4294967295"), Some(u32::MAX));
    assert_eq!(parse_natural("4294967296"), None);
    assert_eq!(parse_natural("99999999999999999999"), None);
    assert_eq!(parse_natural(""), None);
    assert_eq!(parse_natural("-1"), None);
    assert_eq!(parse_natural("+1"), None);
    assert_eq!(parse_natural("1.0"), None);
    assert_eq!(parse_natural("1e3"), None);
    assert_eq!(parse_natural("12a"), None);
    assert_eq!(parse_natural("a12"), None);
    assert_eq!(parse_natural("٣"), None);
    assert_eq!(Json::Number("12".to_string()).as_count(), Some(12));
    assert_eq!(Json::Text("12".to_string()).as_count(), None);
}

#[test]
fn integers_are_written_with_their_sign() {
    assert_eq!(integer_text(0), "0");
    assert_eq!(integer_text(4000), "4000");
    assert_eq!(integer_text(-1), "-1");
    assert_eq!(integer_text(i32::MAX), "2147483647");
    assert_eq!(integer_text(i32::MIN), "-2147483648");
    assert_eq!(Json::integer(-12), Json::Number("-12".to_string()));
}

#[test]
fn thousandths_are_written_with_three_decimals() {
    assert_eq!(thousandths_text(500), "0.500");
    assert_eq!(thousandths_text(0), "0.000");
    assert_eq!(thousandths_text(7), "0.007");
    assert_eq!(thousandths_text(1000), "1.000");
    assert_eq!(thousandths_text(2045), "2.045");
    assert_eq!(thousandths_text(u32::MAX), "4294967.295");
    assert_eq!(Json::thousandths(900), Json::Number("0.900".to_string()));
}
