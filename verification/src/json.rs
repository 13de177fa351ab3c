//! The calls into `serde_json` that the library makes.

use vstd::prelude::*;

verus! {

/// The lowercase hexadecimal digit of `d`, below 16.
pub open spec fn hex_digit(d: int) -> char {
    if d < 10 {
        ('0' as int + d) as char
    } else {
        ('a' as int + d - 10) as char
    }
}

/// How one character is written inside a JSON string: a quote or a
/// backslash after a backslash; backspace, tab, line feed, form feed and
/// carriage return as `\b`, `\t`, `\n`, `\f`, `\r`; any other character
/// below U+0020 as `\u00` and two lowercase hexadecimal digits; every other
/// character as it is.
pub open spec fn escaped_char(c: char) -> Seq<char> {
    let n = c as int;
    if c == '"' {
        seq!['\\', '"']
    } else if c == '\\' {
        seq!['\\', '\\']
    } else if n == 8 {
        seq!['\\', 'b']
    } else if n == 9 {
        seq!['\\', 't']
    } else if n == 10 {
        seq!['\\', 'n']
    } else if n == 12 {
        seq!['\\', 'f']
    } else if n == 13 {
        seq!['\\', 'r']
    } else if n < 32 {
        seq!['\\', 'u', '0', '0', hex_digit(n / 16), hex_digit(n % 16)]
    } else {
        seq![c]
    }
}

/// The characters of a text, each written as inside a JSON string.
pub open spec fn escaped(s: Seq<char>) -> Seq<char>
    decreases s.len(),
{
    if s.len() == 0 {
        Seq::empty()
    } else {
        escaped(s.drop_last()) + escaped_char(s.last())
    }
}

/// The JSON text of a string value, as `serde_json` writes it: the
/// characters in double quotes, each escaped by [`escaped_char`].
pub open spec fn json_string(s: Seq<char>) -> Seq<char> {
    seq!['"'] + escaped(s) + seq!['"']
}

/// Calls `serde_json::to_string` on a string slice: its JSON text.
/// Serializing a string into a `String` cannot fail, so the error arm is
/// never taken.
#[verifier::external_body]
pub fn encode_json_string(s: &str) -> (res: String)
    ensures
        res@ == json_string(s@),
{
    match serde_json::to_string(s) {
        Ok(json) => json,
        Err(_) => String::new(),
    }
}

#[verifier::external_type_specification]
#[verifier::external_body]
pub struct ExJsonValue(serde_json::Value);

/// The JSON `null` value, `serde_json::Value::Null`.
#[verifier::external_body]
pub fn json_null() -> (v: serde_json::Value) {
    serde_json::Value::Null
}

/// Calls `serde_json::Value::as_u64`: the number a JSON value holds when it
/// is an integer that fits in a `u64`.
#[verifier::external_body]
pub(crate) fn json_as_u64(v: &serde_json::Value) -> (n: Option<u64>) {
    v.as_u64()
}

/// Calls `serde_json::Value::as_str`: the text a JSON value holds when it is
/// a string, as an owned `String`.
#[verifier::external_body]
pub(crate) fn json_as_string(v: &serde_json::Value) -> (s: Option<String>) {
    match v.as_str() {
        Some(text) => Some(text.to_owned()),
        None => None,
    }
}

/// A JSON value with what it holds as an unsigned integer and as a string,
/// read off it once, when it is made. The client reads a subscription ID out
/// of the result of a response in this form.
pub struct JsonResult {
    value: serde_json::Value,
    number: Option<u64>,
    text: Option<String>,
}

impl JsonResult {
    /// The JSON value itself.
    pub closed spec fn value(&self) -> serde_json::Value {
        self.value
    }

    /// What the value holds as an unsigned integer.
    pub closed spec fn number(&self) -> Option<u64> {
        self.number
    }

    /// What the value holds as a string.
    pub closed spec fn text(&self) -> Option<String> {
        self.text
    }

    /// Reads the value as an unsigned integer and as a string, by
    /// `serde_json::Value::as_u64` and `serde_json::Value::as_str`. What
    /// those give back is read inside `serde_json` and is not stated here.
    pub fn new(value: serde_json::Value) -> (res: Self)
        ensures
            res.value() == value,
    {
        let number = json_as_u64(&value);
        let text = json_as_string(&value);
        JsonResult { value, number, text }
    }

    /// Takes the value apart: the JSON value, what it holds as an unsigned
    /// integer and what it holds as a string.
    pub fn into_parts(self) -> (res: (serde_json::Value, Option<u64>, Option<String>))
        ensures
            res == (self.value(), self.number(), self.text()),
    {
        (self.value, self.number, self.text)
    }
}

} // verus!
