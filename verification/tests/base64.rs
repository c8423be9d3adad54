use line_chat_bot::base64::encode;

fn text(bytes: &[u8]) -> String {
    String::from_utf8(encode(bytes)).unwrap()
}

#[test]
fn encodes_the_reference_vectors() {
    assert_eq!(text(b""), "");
    assert_eq!(text(b"f"), "Zg==");
    assert_eq!(text(b"fo"), "Zm8=");
    assert_eq!(text(b"foo"), "Zm9v");
    assert_eq!(text(b"foob"), "Zm9vYg==");
    assert_eq!(text(b"fooba"), "Zm9vYmE=");
    assert_eq!(text(b"foobar"), "Zm9vYmFy");
}

#[test]
fn encodes_with_plus_and_slash() {
    assert_eq!(text(&[0xfb, 0xff]), "+/8=");
    assert_eq!(text(&[0xfb, 0xff, 0xbe]), "+/++");
    assert_eq!(text(&[0xff, 0xff, 0xff]), "////");
    assert_eq!(text(&[0, 0, 0]), "AAAA");
}

#[test]
fn encodes_every_byte_value() {
    let bytes: Vec<u8> = (0..=255u8).collect();
    assert_eq!(
        text(&bytes),
        "AAECAwQFBgcICQoLDA0ODxAREhMUFRYXGBkaGxwdHh8gISIjJCUmJygpKissLS4vMDEyMzQ1Njc4OTo7PD0+P0BBQkNERUZHSElKS0xNTk9QUVJTVFVWV1hZWltcXV5fYGFiY2RlZmdoaWprbG1ub3BxcnN0dXZ3eHl6e3x9fn+AgYKDhIWGh4iJiouMjY6PkJGSk5SVlpeYmZqbnJ2en6ChoqOkpaanqKmqq6ytrq+wsbKztLW2t7i5uru8vb6/wMHCw8TFxsfIycrLzM3Oz9DR0tPU1dbX2Nna29zd3t/g4eLj5OXm5+jp6uvs7e7v8PHy8/T19vf4+fr7/P3+/w=="
    );
}

#[test]
fn encoding_has_four_characters_for_three_bytes_begun() {
    for n in 0..50usize {
        let bytes = vec![0x5au8; n];
        assert_eq!(encode(&bytes).len(), 4 * ((n + 2) / 3));
    }
}

#[test]
fn different_bytes_encode_differently() {
    let mut seen: Vec<Vec<u8>> = Vec::new();
    for a in 0..=255u8 {
        for tail in [vec![], vec![0u8], vec![1u8], vec![0u8, 0u8]] {
            let mut bytes = vec![a];
            bytes.extend(tail);
            seen.push(encode(&bytes));
        }
    }
    let total = seen.len();
    seen.sort();
    seen.dedup();
    assert_eq!(seen.len(), total);
}
