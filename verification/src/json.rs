//! JSON documents as values of the library.

use vstd::prelude::*;

use crate::text::{same_text, to_chars};

verus! {

/// A JSON document. A number is kept as its decimal text.
#[derive(Debug, PartialEq, Eq)]
pub enum Json {
    Null,
    Bool(bool),
    Number(String),
    Text(String),
    Array(Vec<Json>),
    Object(Vec<(String, Json)>),
}

/// The mathematical value of a [`Json`] document.
pub enum JsonValue {
    Null,
    Bool(bool),
    Number(Seq<char>),
    Text(Seq<char>),
    Array(Seq<JsonValue>),
    Object(Seq<(Seq<char>, JsonValue)>),
}

impl View for Json {
    type V = JsonValue;

    open spec fn view(&self) -> JsonValue
        decreases self,
    {
        match self {
            Json::Null => JsonValue::Null,
            Json::Bool(b) => JsonValue::Bool(*b),
            Json::Number(digits) => JsonValue::Number(digits@),
            Json::Text(text) => JsonValue::Text(text@),
            Json::Array(items) => JsonValue::Array(
                Seq::new(
                    items@.len(),
                    |i: int|
                        if 0 <= i < items@.len() {
                            items@[i]@
                        } else {
                            JsonValue::Null
                        },
                ),
            ),
            Json::Object(fields) => JsonValue::Object(
                Seq::new(
                    fields@.len(),
                    |i: int|
                        if 0 <= i < fields@.len() {
                            (fields@[i].0@, fields@[i].1@)
                        } else {
                            (Seq::empty(), JsonValue::Null)
                        },
                ),
            ),
        }
    }
}

/// The document type of `serde_json`, carried through unread.
#[verifier::external_type_specification]
#[verifier::external_body]
pub struct ExValue(serde_json::Value);

/// The error type of `serde_json`, carried through unread.
#[verifier::external_type_specification]
#[verifier::external_body]
pub struct ExError(serde_json::Error);

/// The document that `serde_json` reads from a JSON text, or `None` where it
/// rejects the text.
pub uninterp spec fn json_document(bytes: Seq<u8>) -> Option<JsonValue>;

/// The document that a `serde_json::Value` holds.
pub uninterp spec fn value_document(value: serde_json::Value) -> JsonValue;

/// Calls `serde_json::from_slice` for a `serde_json::Value`. What comes back
/// depends on the bytes alone: a value that holds the document read from them,
/// or an error where they are no JSON text.
#[verifier::external_body]
fn read_value(bytes: &[u8]) -> (r: Result<serde_json::Value, serde_json::Error>)
    ensures
        match r {
            Ok(value) => json_document(bytes@) == Some(value_document(value)),
            Err(_) => json_document(bytes@) is None,
        },
{
    serde_json::from_slice::<serde_json::Value>(bytes)
}

/// Copies a `serde_json::Value` into a [`Json`], variant by variant: the
/// result holds the same document. A number is written out with
/// `serde_json::Number`'s `Display`; the fields of an object come in the
/// order in which `serde_json::Map` hands them out.
#[verifier::external_body]
fn json_from_value(value: &serde_json::Value) -> (json: Json)
    ensures
        json@ == value_document(*value),
{
    match value {
        serde_json::Value::Null => Json::Null,
        serde_json::Value::Bool(b) => Json::Bool(*b),
        serde_json::Value::Number(n) => Json::Number(n.to_string()),
        serde_json::Value::String(s) => Json::Text(s.clone()),
        serde_json::Value::Array(items) => Json::Array(items.iter().map(json_from_value).collect()),
        serde_json::Value::Object(fields) => Json::Object(
            fields.iter().map(|(name, item)| (name.clone(), json_from_value(item))).collect(),
        ),
    }
}

/// The values of a run of documents.
pub open spec fn values_of(items: Seq<Json>) -> Seq<JsonValue> {
    Seq::new(items.len(), |i: int| items[i]@)
}

/// The names and values of a run of fields.
pub open spec fn fields_of(fields: Seq<(String, Json)>) -> Seq<(Seq<char>, JsonValue)> {
    Seq::new(fields.len(), |i: int| (fields[i].0@, fields[i].1@))
}

/// The value of an array is the array of its items' values.
pub proof fn lemma_array_value(items: Vec<Json>)
    ensures
        Json::Array(items)@ == JsonValue::Array(values_of(items@)),
{
    reveal_with_fuel(<Json as View>::view, 2);
    assert(Json::Array(items)@->Array_0 =~= values_of(items@));
}

/// The value of an object is the run of its fields' names and values.
pub proof fn lemma_object_value(fields: Vec<(String, Json)>)
    ensures
        Json::Object(fields)@ == JsonValue::Object(fields_of(fields@)),
{
    reveal_with_fuel(<Json as View>::view, 2);
    assert(Json::Object(fields)@->Object_0 =~= fields_of(fields@));
}

/// The value of the first of `fields` that is named `key`.
pub open spec fn first_field(fields: Seq<(Seq<char>, JsonValue)>, key: Seq<char>) -> Option<
    JsonValue,
>
    decreases fields.len(),
{
    if fields.len() == 0 {
        None
    } else if fields[0].0 == key {
        Some(fields[0].1)
    } else {
        first_field(fields.skip(1), key)
    }
}

impl JsonValue {
    /// The value of the field `key` of an object.
    pub open spec fn field(self, key: Seq<char>) -> Option<JsonValue> {
        match self {
            JsonValue::Object(fields) => first_field(fields, key),
            _ => None,
        }
    }

    /// The number that a number writes, where it is a natural number that
    /// fits.
    pub open spec fn count(self) -> Option<u32> {
        match self {
            JsonValue::Number(digits) => natural_u32(digits),
            _ => None,
        }
    }

    /// The items of an array.
    pub open spec fn items(self) -> Option<Seq<JsonValue>> {
        match self {
            JsonValue::Array(items) => Some(items),
            _ => None,
        }
    }
}

/// The character of a decimal digit.
pub open spec fn digit_char(d: nat) -> char {
    if d == 0 {
        '0'
    } else if d == 1 {
        '1'
    } else if d == 2 {
        '2'
    } else if d == 3 {
        '3'
    } else if d == 4 {
        '4'
    } else if d == 5 {
        '5'
    } else if d == 6 {
        '6'
    } else if d == 7 {
        '7'
    } else if d == 8 {
        '8'
    } else {
        '9'
    }
}

/// The decimal text of `n`, without leading zeros.
pub open spec fn decimal(n: nat) -> Seq<char>
    decreases n,
{
    if n < 10 {
        seq![digit_char(n)]
    } else {
        decimal(n / 10).push(digit_char(n % 10))
    }
}

fn digit_text(d: u32) -> (text: &'static str)
    requires
        d < 10,
    ensures
        text@ == seq![digit_char(d as nat)],
{
    proof {
        reveal_strlit("0");
        reveal_strlit("1");
        reveal_strlit("2");
        reveal_strlit("3");
        reveal_strlit("4");
        reveal_strlit("5");
        reveal_strlit("6");
        reveal_strlit("7");
        reveal_strlit("8");
        reveal_strlit("9");
    }
    let text = if d == 0 {
        "0"
    } else if d == 1 {
        "1"
    } else if d == 2 {
        "2"
    } else if d == 3 {
        "3"
    } else if d == 4 {
        "4"
    } else if d == 5 {
        "5"
    } else if d == 6 {
        "6"
    } else if d == 7 {
        "7"
    } else if d == 8 {
        "8"
    } else {
        "9"
    };
    assert(text@ =~= seq![digit_char(d as nat)]);
    text
}

/// The decimal text of `n`.
pub fn decimal_text(n: u32) -> (text: String)
    ensures
        text@ == decimal(n as nat),
    decreases n,
{
    if n < 10 {
        digit_text(n).to_owned()
    } else {
        let mut text = decimal_text(n / 10);
        text.append(digit_text(n % 10));
        assert(text@ =~= decimal((n / 10) as nat).push(digit_char((n % 10) as nat)));
        text
    }
}

/// The decimal text of an integer: that of its magnitude, after a `-` where
/// it is negative.
pub open spec fn signed_decimal(n: int) -> Seq<char> {
    if n < 0 {
        seq!['-'] + decimal((-n) as nat)
    } else {
        decimal(n as nat)
    }
}

/// The decimal text of `t` thousandths: the whole part, a point, and three
/// decimals.
pub open spec fn thousandths(t: nat) -> Seq<char> {
    decimal(t / 1000) + seq!['.', digit_char(t / 100 % 10), digit_char(t / 10 % 10), digit_char(
        t % 10,
    )]
}

/// The decimal text of `n`.
pub fn integer_text(n: i32) -> (text: String)
    ensures
        text@ == signed_decimal(n as int),
{
    if n < 0 {
        let magnitude: u32 = (-(n as i64)) as u32;
        let mut text = "-".to_owned();
        proof {
            reveal_strlit("-");
            assert("-"@ =~= seq!['-']);
        }
        text.append(decimal_text(magnitude).as_str());
        text
    } else {
        decimal_text(n as u32)
    }
}

/// The decimal text of `t` thousandths.
pub fn thousandths_text(t: u32) -> (text: String)
    ensures
        text@ == thousandths(t as nat),
{
    let mut text = decimal_text(t / 1000);
    proof {
        reveal_strlit(".");
        assert("."@ =~= seq!['.']);
    }
    text.append(".");
    text.append(digit_text(t / 100 % 10));
    text.append(digit_text(t / 10 % 10));
    text.append(digit_text(t % 10));
    assert(text@ =~= thousandths(t as nat));
    text
}

/// The value of a decimal digit.
pub open spec fn digit_value(c: char) -> Option<nat> {
    if 48 <= c as u32 <= 57 {
        Some((c as u32 - 48) as nat)
    } else {
        None
    }
}

/// The number that a run of decimal digits writes. Anything else writes
/// none.
pub open spec fn natural(text: Seq<char>) -> Option<nat>
    decreases text.len(),
{
    if text.len() == 0 {
        None
    } else if text.len() == 1 {
        digit_value(text[0])
    } else {
        match (natural(text.drop_last()), digit_value(text.last())) {
            (Some(high), Some(low)) => Some(high * 10 + low),
            _ => None,
        }
    }
}

/// The number that a text writes, where it is a run of decimal digits and
/// the number fits.
pub open spec fn natural_u32(text: Seq<char>) -> Option<u32> {
    match natural(text) {
        Some(n) => if n <= u32::MAX {
            Some(n as u32)
        } else {
            None
        },
        None => None,
    }
}

/// A text writes a number only where each beginning of it writes one, and
/// none that is larger.
proof fn lemma_natural_prefix(text: Seq<char>, k: int)
    requires
        0 < k <= text.len(),
    ensures
        natural(text) is Some ==> natural(text.take(k)) is Some && natural(text.take(k))->0
            <= natural(text)->0,
    decreases text.len(),
{
    if k == text.len() {
        assert(text.take(k) =~= text);
    } else {
        assert(text.drop_last().take(k) =~= text.take(k));
        lemma_natural_prefix(text.drop_last(), k);
    }
}

/// Reads a number from its decimal text.
pub fn parse_natural(text: &str) -> (r: Option<u32>)
    ensures
        r == natural_u32(text@),
{
    let chars = to_chars(text);
    let n = chars.len();
    if n == 0 {
        return None;
    }
    let mut value: u32 = 0;
    let mut i: usize = 0;
    while i < n
        invariant
            n == text@.len(),
            chars@ == text@,
            i <= n,
            i == 0 ==> value == 0,
            i > 0 ==> natural(text@.take(i as int)) == Some(value as nat),
        decreases n - i,
    {
        let code = chars[i] as u32;
        proof {
            lemma_natural_prefix(text@, i + 1);
            assert(text@.take(i + 1).drop_last() =~= text@.take(i as int));
            assert(text@.take(i + 1).last() == text@[i as int]);
        }
        if code < 48 || code > 57 {
            return None;
        }
        let next = match value.checked_mul(10) {
            Some(tens) => tens.checked_add(code - 48),
            None => None,
        };
        match next {
            Some(sum) => {
                value = sum;
            },
            None => {
                return None;
            },
        }
        i += 1;
    }
    assert(text@.take(n as int) =~= text@);
    Some(value)
}

/// A field of an object: a name and a value.
pub fn field(name: &str, value: Json) -> (r: (String, Json))
    ensures
        r.0@ == name@,
        r.1 == value,
{
    (name.to_owned(), value)
}

impl Json {
    /// The string `text`.
    pub fn text(text: &str) -> (r: Json)
        ensures
            r@ == JsonValue::Text(text@),
    {
        Json::Text(text.to_owned())
    }

    /// The number `n`.
    pub fn number(n: u32) -> (r: Json)
        ensures
            r@ == JsonValue::Number(decimal(n as nat)),
    {
        Json::Number(decimal_text(n))
    }

    /// The number `n`.
    pub fn integer(n: i32) -> (r: Json)
        ensures
            r@ == JsonValue::Number(signed_decimal(n as int)),
    {
        Json::Number(integer_text(n))
    }

    /// The number of `t` thousandths.
    pub fn thousandths(t: u32) -> (r: Json)
        ensures
            r@ == JsonValue::Number(thousandths(t as nat)),
    {
        Json::Number(thousandths_text(t))
    }

    /// The array of `items`.
    pub fn array(items: Vec<Json>) -> (r: Json)
        ensures
            r@ == JsonValue::Array(values_of(items@)),
    {
        proof {
            lemma_array_value(items);
        }
        Json::Array(items)
    }

    /// The object of `fields`.
    pub fn object(fields: Vec<(String, Json)>) -> (r: Json)
        ensures
            r@ == JsonValue::Object(fields_of(fields@)),
    {
        proof {
            lemma_object_value(fields);
        }
        Json::Object(fields)
    }

    /// Reads a JSON text.
    pub fn parse(bytes: &[u8]) -> (r: Option<Json>)
        ensures
            match r {
                Some(doc) => json_document(bytes@) == Some(doc@),
                None => json_document(bytes@) is None,
            },
    {
        match read_value(bytes) {
            Ok(value) => Some(json_from_value(&value)),
            Err(_) => None,
        }
    }

    /// The value of the field `key`, where this is an object that has one.
    pub fn get(&self, key: &str) -> (r: Option<&Json>)
        ensures
            match r {
                Some(found) => self@.field(key@) == Some(found@),
                None => self@.field(key@) is None,
            },
    {
        match self {
            Json::Object(fields) => {
                let ghost all = fields_of(fields@);
                proof {
                    lemma_object_value(*fields);
                }
                let n = fields.len();
                let mut i: usize = 0;
                assert(all.skip(0) =~= all);
                while i < n
                    invariant
                        n == fields@.len(),
                        self@ == JsonValue::Object(all),
                        all.len() == n,
                        i <= n,
                        forall|j: int|
                            0 <= j < n ==> #[trigger] all[j] == (fields@[j].0@, fields@[j].1@),
                        first_field(all, key@) == first_field(all.skip(i as int), key@),
                    decreases n - i,
                {
                    proof {
                        assert(all.skip(i as int)[0] == all[i as int]);
                        assert(all.skip(i as int).skip(1) =~= all.skip(i + 1));
                    }
                    if same_text(fields[i].0.as_str(), key) {
                        return Some(&fields[i].1);
                    }
                    i += 1;
                }
                None
            },
            _ => None,
        }
    }

    /// The number, where this is a natural number that fits.
    pub fn as_count(&self) -> (r: Option<u32>)
        ensures
            r == self@.count(),
    {
        match self {
            Json::Number(digits) => parse_natural(digits.as_str()),
            _ => None,
        }
    }

    /// The items, where this is an array.
    pub fn as_array(&self) -> (r: Option<&Vec<Json>>)
        ensures
            match r {
                Some(items) => self@.items() == Some(values_of(items@)),
                None => self@.items() is None,
            },
    {
        match self {
            Json::Array(items) => {
                proof {
                    lemma_array_value(*items);
                }
                Some(items)
            },
            _ => None,
        }
    }
}

} // verus!
