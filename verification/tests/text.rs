use line_chat_bot::text::{
    char_is_whitespace, contains_pattern, forwarded_prompt, remove_pattern, same_text, to_chars,
    trimmed,
};

#[test]
fn prompt_is_text_without_trigger_and_trimmed() {
    assert_eq!(forwarded_prompt("Nick:>hello there", "Nick:>"), "hello there");
    assert_eq!(forwarded_prompt("  hello Nick:> there \n", "Nick:>"), "hello  there");
}

#[test]
fn prompt_of_single_occurrence_is_text_around_it() {
    let text = "\tplease Nick:>tell me a story  ";
    let trigger = "Nick:>";
    let at = text.find(trigger).unwrap();
    let around = format!("{}{}", &text[..at], &text[at + trigger.len()..]);
    assert_eq!(forwarded_prompt(text, trigger), around.trim());
    assert_eq!(forwarded_prompt(text, trigger), "please tell me a story");
}

#[test]
fn prompt_of_text_that_is_only_the_trigger_is_empty() {
    assert_eq!(forwarded_prompt("Nick:>", "Nick:>"), "");
    assert_eq!(forwarded_prompt(" Nick:> ", "Nick:>"), "");
}

#[test]
fn contains_is_case_sensitive() {
    assert!(contains_pattern("say Nick:> hi", "Nick:>"));
    assert!(!contains_pattern("say nick:> hi", "Nick:>"));
    assert!(!contains_pattern("say NICK:> hi", "Nick:>"));
}

#[test]
fn contains_finds_pattern_at_both_ends() {
    assert!(contains_pattern("abc", "ab"));
    assert!(contains_pattern("abc", "bc"));
    assert!(contains_pattern("abc", "abc"));
    assert!(!contains_pattern("abc", "abcd"));
    assert!(!contains_pattern("abc", "ac"));
    assert!(!contains_pattern("", "a"));
}

#[test]
fn empty_pattern_is_contained_and_removes_nothing() {
    assert!(contains_pattern("abc", ""));
    assert!(contains_pattern("", ""));
    assert_eq!(remove_pattern("abc", ""), "abc");
    assert_eq!(forwarded_prompt(" abc ", ""), "abc");
}

#[test]
fn contains_works_on_characters_not_bytes() {
    assert!(contains_pattern("こんにちは、ボット:>元気?", "ボット:>"));
    assert!(!contains_pattern("é", "e"));
    assert_eq!(forwarded_prompt("ボット:> 元気ですか　", "ボット:>"), "元気ですか");
}

#[test]
fn remove_takes_every_occurrence() {
    assert_eq!(remove_pattern("abXYcdXYef", "XY"), "abcdef");
    assert_eq!(remove_pattern("XYabXY", "XY"), "ab");
    assert_eq!(remove_pattern("XYXY", "XY"), "");
    assert_eq!(remove_pattern("abc", "XY"), "abc");
    assert_eq!(remove_pattern("ab", "abc"), "ab");
}

#[test]
fn remove_searches_on_after_each_occurrence() {
    assert_eq!(remove_pattern("aaa", "aa"), "a");
    assert_eq!(remove_pattern("ababa", "aba"), "ba");
    assert_eq!(remove_pattern("aabb", "ab"), "ab");
}

#[test]
fn remove_agrees_with_std_replace() {
    let texts = ["", "a", "Nick:>", "xNick:>yNick:>z", "NiNick:>ck:>", "ＮNick:>　é"];
    let patterns = ["Nick:>", "N", "ck", "é", "xyz"];
    for text in texts {
        for pattern in patterns {
            assert_eq!(remove_pattern(text, pattern), text.replace(pattern, ""));
            assert_eq!(contains_pattern(text, pattern), text.contains(pattern));
        }
    }
}

#[test]
fn trim_removes_unicode_white_space() {
    assert_eq!(trimmed("\u{3000}\t hi there \n\u{85}"), "hi there");
    assert_eq!(trimmed(" hi!"), "hi!");
    assert_eq!(trimmed("hi"), "hi");
    assert_eq!(trimmed(""), "");
    assert_eq!(trimmed(" \t\r\n"), "");
    assert_eq!(trimmed("\u{200B}x\u{200B}"), "\u{200B}x\u{200B}");
}

#[test]
fn white_space_is_what_std_calls_white_space() {
    let mut n: u32 = 0;
    while n <= 0x11_0000 {
        if let Some(c) = char::from_u32(n) {
            assert_eq!(char_is_whitespace(c), c.is_whitespace(), "U+{:04X}", n);
        }
        n += 1;
    }
}

#[test]
fn trim_agrees_with_std_trim() {
    let texts = ["", " ", "a", " a", "a ", "\u{a0}a b\u{2003}", "\u{1680}\u{2028}\u{2029}", "x\u{202f}"];
    for text in texts {
        assert_eq!(trimmed(text), text.trim());
    }
}

#[test]
fn same_text_compares_character_for_character() {
    assert!(same_text("message", "message"));
    assert!(!same_text("message", "Message"));
    assert!(!same_text("message", "messages"));
    assert!(same_text("", ""));
    assert!(!same_text("é", "e\u{301}"));
}

#[test]
fn to_chars_gives_the_characters_in_order() {
    assert_eq!(to_chars("aé日"), vec!['a', 'é', '日']);
    assert_eq!(to_chars(""), Vec::<char>::new());
}
