//! Character-level text operations behind the trigger rule.

use vstd::prelude::*;

verus! {

/// The characters with the Unicode `White_Space` property.
pub open spec fn is_whitespace(c: char) -> bool {
    let n = c as u32;
    ||| 0x09 <= n <= 0x0D
    ||| n == 0x20
    ||| n == 0x85
    ||| n == 0xA0
    ||| n == 0x1680
    ||| 0x2000 <= n <= 0x200A
    ||| n == 0x2028
    ||| n == 0x2029
    ||| n == 0x202F
    ||| n == 0x205F
    ||| n == 0x3000
}

/// Tells whether `c` is white space.
pub fn char_is_whitespace(c: char) -> (r: bool)
    ensures
        r == is_whitespace(c),
{
    let n: u32 = c as u32;
    (0x09 <= n && n <= 0x0D) || n == 0x20 || n == 0x85 || n == 0xA0 || n == 0x1680 || (0x2000 <= n
        && n <= 0x200A) || n == 0x2028 || n == 0x2029 || n == 0x202F || n == 0x205F || n == 0x3000
}

/// The characters of `s`, in order.
pub fn to_chars(s: &str) -> (chars: Vec<char>)
    ensures
        chars@ == s@,
{
    let mut chars: Vec<char> = Vec::new();
    for c in it: s.chars()
        invariant
            chars@ == it.seq().take(it.index()),
    {
        chars.push(c);
    }
    chars
}

/// `pattern` stands in `text` at position `at`.
pub open spec fn occurs_at(text: Seq<char>, pattern: Seq<char>, at: int) -> bool {
    &&& 0 <= at
    &&& at + pattern.len() <= text.len()
    &&& text.subrange(at, at + pattern.len()) == pattern
}

/// `pattern` stands somewhere in `text`, as a literal run of characters.
pub open spec fn contains(text: Seq<char>, pattern: Seq<char>) -> bool {
    exists|at: int| occurs_at(text, pattern, at)
}

/// `text` without the occurrences of `pattern`, found from left to right, each
/// search starting where the previous occurrence ended. An empty pattern
/// removes nothing.
pub open spec fn remove_all(text: Seq<char>, pattern: Seq<char>) -> Seq<char>
    decreases text.len(),
{
    if pattern.len() == 0 || text.len() == 0 {
        text
    } else if occurs_at(text, pattern, 0) {
        remove_all(text.skip(pattern.len() as int), pattern)
    } else {
        seq![text[0]] + remove_all(text.skip(1), pattern)
    }
}

/// `text` without its leading white space.
pub open spec fn trim_start(text: Seq<char>) -> Seq<char>
    decreases text.len(),
{
    if text.len() > 0 && is_whitespace(text[0]) {
        trim_start(text.skip(1))
    } else {
        text
    }
}

/// `text` without its trailing white space.
pub open spec fn trim_end(text: Seq<char>) -> Seq<char>
    decreases text.len(),
{
    if text.len() > 0 && is_whitespace(text.last()) {
        trim_end(text.drop_last())
    } else {
        text
    }
}

/// `text` without white space at either end.
pub open spec fn trim(text: Seq<char>) -> Seq<char> {
    trim_end(trim_start(text))
}

/// What is forwarded of a message `text` that carries `trigger`: the text with
/// the trigger taken out, trimmed.
pub open spec fn prompt_of(text: Seq<char>, trigger: Seq<char>) -> Seq<char> {
    trim(remove_all(text, trigger))
}

/// A text shorter than the pattern holds no occurrence to remove.
pub proof fn lemma_remove_all_short(text: Seq<char>, pattern: Seq<char>)
    requires
        text.len() < pattern.len(),
    ensures
        remove_all(text, pattern) == text,
    decreases text.len(),
{
    if text.len() > 0 {
        lemma_remove_all_short(text.skip(1), pattern);
        assert(seq![text[0]] + text.skip(1) =~= text);
    }
}

/// An occurrence in the text after its first `by` characters is an occurrence
/// in the text itself, `by` places further on.
proof fn lemma_occurs_at_skip(text: Seq<char>, pattern: Seq<char>, by: int, at: int)
    requires
        0 <= by <= text.len(),
    ensures
        occurs_at(text.skip(by), pattern, at) == (at >= 0 && occurs_at(text, pattern, at + by)),
{
    let m = pattern.len() as int;
    if 0 <= at && at + by + m <= text.len() {
        assert(text.skip(by).subrange(at, at + m) =~= text.subrange(at + by, at + by + m));
    }
}

/// Where the pattern does not occur, nothing is removed.
pub proof fn lemma_remove_all_absent(text: Seq<char>, pattern: Seq<char>)
    requires
        !contains(text, pattern),
    ensures
        remove_all(text, pattern) == text,
    decreases text.len(),
{
    if pattern.len() > 0 && text.len() > 0 {
        assert(!occurs_at(text, pattern, 0));
        assert forall|at: int| !occurs_at(text.skip(1), pattern, at) by {
            lemma_occurs_at_skip(text, pattern, 1, at);
            assert(!occurs_at(text, pattern, at + 1));
        }
        lemma_remove_all_absent(text.skip(1), pattern);
        assert(seq![text[0]] + text.skip(1) =~= text);
    }
}

/// Where the pattern occurs exactly once, at `at`, what is left is the text
/// before the occurrence followed by the text after it; the prompt is that,
/// trimmed.
pub proof fn lemma_remove_all_single(text: Seq<char>, pattern: Seq<char>, at: int)
    requires
        occurs_at(text, pattern, at),
        forall|other: int| occurs_at(text, pattern, other) ==> other == at,
    ensures
        remove_all(text, pattern) == text.subrange(0, at) + text.skip(at + pattern.len()),
        prompt_of(text, pattern) == trim(text.subrange(0, at) + text.skip(at + pattern.len())),
    decreases text.len(),
{
    let m = pattern.len() as int;
    let n = text.len() as int;
    let rest = text.subrange(0, at) + text.skip(at + m);
    if m == 0 {
        assert(text.subrange(0, 0) =~= pattern);
        assert(text.subrange(n, n) =~= pattern);
        assert(occurs_at(text, pattern, 0));
        assert(occurs_at(text, pattern, n));
        assert(rest =~= text);
    } else if occurs_at(text, pattern, 0) {
        assert forall|other: int| !occurs_at(text.skip(m), pattern, other) by {
            lemma_occurs_at_skip(text, pattern, m, other);
            if other >= 0 {
                assert(!occurs_at(text, pattern, other + m));
            }
        }
        lemma_remove_all_absent(text.skip(m), pattern);
        assert(rest =~= text.skip(m));
    } else {
        let tail = text.skip(1);
        lemma_occurs_at_skip(text, pattern, 1, at - 1);
        assert forall|other: int| occurs_at(tail, pattern, other) implies other == at - 1 by {
            lemma_occurs_at_skip(text, pattern, 1, other);
        }
        lemma_remove_all_single(tail, pattern, at - 1);
        assert(seq![text[0]] + (tail.subrange(0, at - 1) + tail.skip(at - 1 + m)) =~= rest);
    }
}

/// One step of `remove_all`, seen from inside the text.
proof fn lemma_remove_all_step(text: Seq<char>, pattern: Seq<char>, at: int)
    requires
        0 <= at < text.len(),
        pattern.len() > 0,
    ensures
        occurs_at(text, pattern, at) ==> remove_all(text.skip(at), pattern) == remove_all(
            text.skip(at + pattern.len()),
            pattern,
        ),
        !occurs_at(text, pattern, at) ==> remove_all(text.skip(at), pattern) == seq![text[at]]
            + remove_all(text.skip(at + 1), pattern),
{
    let rest = text.skip(at);
    let m = pattern.len() as int;
    if at + m <= text.len() {
        assert(rest.subrange(0, m) =~= text.subrange(at, at + m));
    }
    assert(occurs_at(rest, pattern, 0) == occurs_at(text, pattern, at));
    if occurs_at(text, pattern, at) {
        assert(rest.skip(m) =~= text.skip(at + m));
    } else {
        assert(rest.skip(1) =~= text.skip(at + 1));
    }
}

fn matches_at(text: &[char], pattern: &[char], at: usize) -> (r: bool)
    requires
        at + pattern@.len() <= text@.len(),
    ensures
        r == occurs_at(text@, pattern@, at as int),
{
    let m = pattern.len();
    let mut k: usize = 0;
    while k < m
        invariant
            m == pattern@.len(),
            at + m <= text.len(),
            k <= m,
            forall|j: int| 0 <= j < k ==> text@[at + j] == pattern@[j],
        decreases m - k,
    {
        if text[at + k] != pattern[k] {
            assert(text@.subrange(at as int, at + m)[k as int] != pattern@[k as int]);
            return false;
        }
        k += 1;
    }
    assert(text@.subrange(at as int, at + m) =~= pattern@);
    true
}

/// Tells whether two texts are the same, character for character.
pub fn same_text(a: &str, b: &str) -> (r: bool)
    ensures
        r == (a@ == b@),
{
    let x = a.as_bytes();
    let y = b.as_bytes();
    proof {
        vstd::utf8::encode_utf8_decode_utf8(a@);
        vstd::utf8::encode_utf8_decode_utf8(b@);
    }
    let n = x.len();
    if n != y.len() {
        return false;
    }
    let mut k: usize = 0;
    while k < n
        invariant
            n == x@.len(),
            n == y@.len(),
            k <= n,
            a@ == b@ ==> x@ == y@,
            forall|j: int| 0 <= j < k ==> x@[j] == y@[j],
        decreases n - k,
    {
        if x[k] != y[k] {
            return false;
        }
        k += 1;
    }
    assert(x@ =~= y@);
    true
}

/// Tells whether `text` holds `pattern` as a literal run of characters.
pub fn contains_pattern(text: &str, pattern: &str) -> (r: bool)
    ensures
        r == contains(text@, pattern@),
{
    let chars = to_chars(text);
    let pat = to_chars(pattern);
    let n = chars.len();
    let m = pat.len();
    if m > n {
        return false;
    }
    let last = n - m;
    let mut at: usize = 0;
    loop
        invariant
            n == text@.len(),
            m == pattern@.len(),
            chars@ == text@,
            pat@ == pattern@,
            m <= n,
            last == n - m,
            at <= last,
            forall|k: int| 0 <= k < at ==> !occurs_at(text@, pattern@, k),
        decreases last - at,
    {
        if matches_at(chars.as_slice(), pat.as_slice(), at) {
            return true;
        }
        if at == last {
            return false;
        }
        at += 1;
    }
}

/// `text` without the occurrences of `pattern`.
pub fn remove_pattern(text: &str, pattern: &str) -> (r: String)
    ensures
        r@ == remove_all(text@, pattern@),
{
    let chars = to_chars(text);
    let pat = to_chars(pattern);
    let n = chars.len();
    let m = pat.len();
    if m == 0 {
        return text.to_owned();
    }
    if m > n {
        proof {
            lemma_remove_all_short(text@, pattern@);
        }
        return text.to_owned();
    }
    let last = n - m;
    let mut out = String::new();
    let mut start: usize = 0;
    let mut at: usize = 0;
    assert(text@.skip(0) =~= text@);
    while at <= last
        invariant
            n == text@.len(),
            m == pattern@.len(),
            chars@ == text@,
            pat@ == pattern@,
            0 < m <= n,
            last == n - m,
            start <= at <= n,
            remove_all(text@, pattern@) == out@ + text@.subrange(start as int, at as int)
                + remove_all(text@.skip(at as int), pattern@),
        decreases n - at,
    {
        proof {
            lemma_remove_all_step(text@, pattern@, at as int);
        }
        if matches_at(chars.as_slice(), pat.as_slice(), at) {
            out.append(text.substring_char(start, at));
            at += m;
            start = at;
            assert(text@.subrange(start as int, at as int) =~= Seq::<char>::empty());
        } else {
            assert(text@.subrange(start as int, at as int) + seq![text@[at as int]]
                =~= text@.subrange(start as int, at + 1));
            at += 1;
        }
    }
    proof {
        lemma_remove_all_short(text@.skip(at as int), pattern@);
        assert(text@.subrange(start as int, at as int) + text@.skip(at as int)
            =~= text@.subrange(start as int, n as int));
    }
    out.append(text.substring_char(start, n));
    out
}

/// `text` without white space at either end.
pub fn trimmed(text: &str) -> (r: String)
    ensures
        r@ == trim(text@),
{
    let chars = to_chars(text);
    let n = chars.len();
    let mut from: usize = 0;
    assert(text@.skip(0) =~= text@);
    while from < n && char_is_whitespace(chars[from])
        invariant
            n == text@.len(),
            chars@ == text@,
            from <= n,
            trim_start(text@) == trim_start(text@.skip(from as int)),
        decreases n - from,
    {
        assert(text@.skip(from as int).skip(1) =~= text@.skip(from + 1));
        from += 1;
    }
    let mut to: usize = n;
    assert(text@.subrange(from as int, n as int) =~= text@.skip(from as int));
    while to > from && char_is_whitespace(chars[to - 1])
        invariant
            n == text@.len(),
            chars@ == text@,
            from <= to <= n,
            trim(text@) == trim_end(text@.subrange(from as int, to as int)),
        decreases to,
    {
        assert(text@.subrange(from as int, to as int).drop_last() =~= text@.subrange(
            from as int,
            to - 1,
        ));
        to -= 1;
    }
    text.substring_char(from, to).to_owned()
}

/// The prompt forwarded for a message `text` that carries `trigger`.
pub fn forwarded_prompt(text: &str, trigger: &str) -> (r: String)
    ensures
        r@ == prompt_of(text@, trigger@),
{
    let stripped = remove_pattern(text, trigger);
    trimmed(stripped.as_str())
}

} // verus!
