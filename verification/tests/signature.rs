use line_chat_bot::signature::{constant_time_eq, signature_for, validate_signature};

const BODY: &[u8] = b"{\"destination\":\"U0\",\"events\":[{\"type\":\"message\",\"replyToken\":\"tokenA\",\"mode\":\"active\",\"timestamp\":1,\"source\":{\"type\":\"user\",\"userId\":\"U1\"},\"message\":{\"id\":\"1\",\"type\":\"text\",\"text\":\"Nick:>hello there\"}}]}";

#[test]
fn signature_is_base64_of_hmac_sha256() {
    assert_eq!(
        signature_for("key", b"The quick brown fox jumps over the lazy dog"),
        b"97yD9DBThCSxMpjmqm+xQ+9NWaFJRhdZl0edvC0aPNg=".to_vec()
    );
    assert_eq!(
        signature_for("channel-secret", BODY),
        b"/pPS8H/OSIvt86MIfgvrd1p8Sxq/olnCQFQb7CTTtrk=".to_vec()
    );
}

#[test]
fn signature_of_empty_body_under_empty_secret() {
    assert_eq!(signature_for("", b""), b"thNnmggU2ex3L5XXeMNfxf8Wl8STcVZTxscSFEKSxa0=".to_vec());
}

#[test]
fn signature_under_secret_longer_than_a_block() {
    let secret = "k".repeat(100);
    assert_eq!(
        signature_for(&secret, b"long key"),
        b"WQPu3v4Luj8VtlhxXkHXHxhIc5vd8Z5JfpaN9XI9zVY=".to_vec()
    );
}

#[test]
fn valid_signature_is_accepted() {
    assert!(validate_signature(
        "channel-secret",
        "/pPS8H/OSIvt86MIfgvrd1p8Sxq/olnCQFQb7CTTtrk=",
        BODY
    ));
}

#[test]
fn signature_is_rejected_under_another_secret() {
    assert!(!validate_signature(
        "channel-secreT",
        "/pPS8H/OSIvt86MIfgvrd1p8Sxq/olnCQFQb7CTTtrk=",
        BODY
    ));
}

#[test]
fn signature_that_differs_in_one_character_is_rejected() {
    let good = "/pPS8H/OSIvt86MIfgvrd1p8Sxq/olnCQFQb7CTTtrk=";
    for i in 0..good.len() {
        let mut bytes = good.as_bytes().to_vec();
        bytes[i] = if bytes[i] == b'A' { b'B' } else { b'A' };
        let bad = String::from_utf8(bytes).unwrap();
        assert!(!validate_signature("channel-secret", &bad, BODY), "position {}", i);
    }
}

#[test]
fn signature_of_wrong_length_is_rejected() {
    assert!(!validate_signature("channel-secret", "", BODY));
    assert!(!validate_signature("channel-secret", "/pPS8H/OSIvt86MIfgvrd1p8Sxq/olnCQFQb7CTTtrk", BODY));
    assert!(!validate_signature("channel-secret", "/pPS8H/OSIvt86MIfgvrd1p8Sxq/olnCQFQb7CTTtrk==", BODY));
}

#[test]
fn changing_any_byte_of_the_body_rejects() {
    let signature = "/pPS8H/OSIvt86MIfgvrd1p8Sxq/olnCQFQb7CTTtrk=";
    for i in 0..BODY.len() {
        let mut body = BODY.to_vec();
        body[i] ^= 0x01;
        assert!(!validate_signature("channel-secret", signature, &body), "byte {}", i);
    }
}

#[test]
fn verdict_is_the_same_when_asked_again() {
    let signature = "/pPS8H/OSIvt86MIfgvrd1p8Sxq/olnCQFQb7CTTtrk=";
    for _ in 0..3 {
        assert!(validate_signature("channel-secret", signature, BODY));
        assert!(!validate_signature("channel-secret", signature, b"{}"));
    }
}

#[test]
fn validate_accepts_what_signature_for_gives() {
    let body = "{\"events\":[]}".as_bytes();
    let signature = String::from_utf8(signature_for("s3cr3t", body)).unwrap();
    assert!(validate_signature("s3cr3t", &signature, body));
    assert!(!validate_signature("s3cr3t", &signature, b"{\"events\":[] }"));
}

#[test]
fn constant_time_eq_is_equality() {
    assert!(constant_time_eq(b"", b""));
    assert!(constant_time_eq(b"abc", b"abc"));
    assert!(!constant_time_eq(b"abc", b"abd"));
    assert!(!constant_time_eq(b"abc", b"bbc"));
    assert!(!constant_time_eq(b"abc", b"ab"));
    assert!(!constant_time_eq(b"ab", b"abc"));
    assert!(!constant_time_eq(&[0x80], &[0x00]));
}
