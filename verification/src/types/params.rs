//! Types to handle JSON-RPC request parameters and identifiers according to
//! the [spec](https://www.jsonrpc.org/specification#parameter_structures).

use crate::text::{debug_str, debug_text, push_str, trim, trim_bytes, trim_start, trim_start_bytes};
use crate::types::error::CallError;
use vstd::prelude::*;
use vstd::string::StringSliceAdditionalSpecFns;

verus! {

/// JSON-RPC v2 marker type.
#[derive(Clone, Copy, Debug, Default, PartialEq, Eq, Structural)]
pub struct TwoPointZero;

impl TwoPointZero {
    /// The marker that a version string denotes: only `"2.0"` is accepted.
    pub fn from_version(s: &str) -> (res: Option<TwoPointZero>)
        ensures
            res is Some <==> s@ == "2.0"@,
    {
        if crate::text::str_eq(s, "2.0") {
            Some(TwoPointZero)
        } else {
            None
        }
    }

    /// The version string of the marker, `"2.0"`.
    pub fn as_str(&self) -> (res: &'static str)
        ensures
            res@ == "2.0"@,
    {
        "2.0"
    }
}

/// The decimal value of a sequence of digit bytes.
pub open spec fn digits_value(ds: Seq<u8>) -> nat
    decreases ds.len(),
{
    if ds.len() == 0 {
        0
    } else {
        digits_value(ds.drop_last()) * 10 + (ds.last() - 48) as nat
    }
}

/// Whether a byte is an ASCII decimal digit.
pub open spec fn is_digit(b: u8) -> bool {
    48 <= b <= 57
}

/// The text after an optional leading `+`.
pub open spec fn unsigned_digits(bytes: Seq<u8>) -> Seq<u8> {
    if bytes.len() > 0 && bytes[0] == 43 {
        bytes.drop_first()
    } else {
        bytes
    }
}

/// Whether all bytes are decimal digits.
pub open spec fn all_digits(ds: Seq<u8>) -> bool {
    forall|i: int| 0 <= i < ds.len() ==> is_digit(#[trigger] ds[i])
}

/// What parsing text as a `u64` gives: an optional `+`, then at least one
/// decimal digit and nothing else, denoting a value that fits in 64 bits.
pub open spec fn parse_u64(bytes: Seq<u8>) -> Option<u64> {
    let ds = unsigned_digits(bytes);
    if ds.len() == 0 || !all_digits(ds) {
        None
    } else if digits_value(ds) > u64::MAX {
        None
    } else {
        Some(digits_value(ds) as u64)
    }
}

proof fn lemma_digits_value_grows(ds: Seq<u8>, i: int)
    requires
        0 <= i <= ds.len(),
        forall|k: int| 0 <= k < ds.len() ==> is_digit(#[trigger] ds[k]),
    ensures
        digits_value(ds.take(i)) <= digits_value(ds),
    decreases ds.len() - i,
{
    if i < ds.len() {
        lemma_digits_value_grows(ds, i + 1);
        assert(ds.take(i + 1).drop_last() =~= ds.take(i));
        let v = digits_value(ds.take(i));
        assert(v <= v * 10) by (nonlinear_arith);
    } else {
        assert(ds.take(i) =~= ds);
    }
}

proof fn lemma_overflow(ds: Seq<u8>, j: int)
    requires
        0 <= j <= ds.len(),
        digits_value(ds.take(j)) > u64::MAX,
    ensures
        !all_digits(ds) || digits_value(ds) > u64::MAX,
{
    if all_digits(ds) {
        lemma_digits_value_grows(ds, j);
    }
}

/// Parses text as a `u64`: an optional `+` and then decimal digits.
pub fn parse_u64_str(s: &str) -> (res: Option<u64>)
    ensures
        res == parse_u64(vstd::utf8::encode_utf8(s@)),
{
    let bytes = s.as_bytes();
    let ghost all = bytes@;
    let mut start: usize = 0;
    if bytes.len() > 0 && bytes[0] == 43u8 {
        start = 1;
    }
    let ghost ds = all.subrange(start as int, all.len() as int);
    proof {
        if start == 1 {
            assert(ds =~= all.drop_first());
        } else {
            assert(ds =~= all);
        }
    }
    if start == bytes.len() {
        return None;
    }
    let mut acc: u64 = 0;
    let mut i: usize = start;
    while i < bytes.len()
        invariant
            bytes@ == all,
            all == vstd::utf8::encode_utf8(s@),
            ds == unsigned_digits(all),
            ds.len() > 0,
            start <= i <= all.len(),
            ds == all.subrange(start as int, all.len() as int),
            forall|k: int| start <= k < i ==> is_digit(#[trigger] all[k]),
            acc == digits_value(ds.take(i - start)),
        decreases all.len() - i,
    {
        let b = bytes[i];
        if b < 48u8 || b > 57u8 {
            proof {
                assert(b == all[i as int]);
                assert(ds[i - start] == all[i as int]);
                assert(!is_digit(ds[i - start]));
                assert(!all_digits(ds));
            }
            return None;
        }
        proof {
            assert(ds.take(i - start + 1).drop_last() =~= ds.take(i - start));
            assert(ds.take(i - start + 1).last() == b);
        }
        match acc.checked_mul(10) {
            Some(m) => match m.checked_add((b - 48u8) as u64) {
                Some(v) => {
                    acc = v;
                },
                None => {
                    proof {
                        lemma_overflow(ds, i - start + 1);
                    }
                    return None;
                },
            },
            None => {
                proof {
                    assert(acc * 10 > u64::MAX);
                    assert(digits_value(ds.take(i - start + 1)) >= acc * 10);
                    lemma_overflow(ds, i - start + 1);
                }
                return None;
            },
        }
        i = i + 1;
    }
    proof {
        assert(ds.take(all.len() - start) =~= ds);
    }
    Some(acc)
}

/// Id of a subscription, communicated by the server.
#[derive(Debug, PartialEq, Clone, Hash, Eq)]
pub enum SubscriptionId {
    /// Numeric id
    Num(u64),
    /// String id
    Str(String),
}

impl SubscriptionId {
    /// Convert `SubscriptionId` to an owned one so that it can be moved across threads.
    pub fn into_owned(self) -> (res: SubscriptionId)
        ensures
            res == self,
    {
        self
    }
}

impl From<u64> for SubscriptionId {
    fn from(sub_id: u64) -> (res: Self) {
        SubscriptionId::Num(sub_id)
    }
}

impl vstd::std_specs::convert::FromSpecImpl<u64> for SubscriptionId {
    open spec fn obeys_from_spec() -> bool {
        true
    }

    open spec fn from_spec(sub_id: u64) -> SubscriptionId {
        SubscriptionId::Num(sub_id)
    }
}

impl From<String> for SubscriptionId {
    fn from(sub_id: String) -> (res: Self) {
        SubscriptionId::Str(sub_id)
    }
}

impl vstd::std_specs::convert::FromSpecImpl<String> for SubscriptionId {
    open spec fn obeys_from_spec() -> bool {
        true
    }

    open spec fn from_spec(sub_id: String) -> SubscriptionId {
        SubscriptionId::Str(sub_id)
    }
}

/// Request Id
#[derive(Debug, PartialEq, Clone, Hash, Eq, PartialOrd, Ord)]
pub enum Id {
    /// Null
    Null,
    /// Numeric id
    Number(u64),
    /// String id
    Str(String),
}

impl Id {
    /// If the Id is a number, returns the associated number. Returns None otherwise.
    pub fn as_number(&self) -> (res: Option<&u64>)
        ensures
            self matches Id::Number(n) ==> (res matches Some(r) && *r == n),
            !(self is Number) ==> res is None,
    {
        match self {
            Id::Number(n) => Some(n),
            _ => None,
        }
    }

    /// If the Id is a String, returns the associated str. Returns None otherwise.
    pub fn as_str(&self) -> (res: Option<&str>)
        ensures
            self matches Id::Str(s) ==> (res matches Some(r) && r@ == s@),
            !(self is Str) ==> res is None,
    {
        match self {
            Id::Str(s) => Some(s.as_str()),
            _ => None,
        }
    }

    /// If the ID is Null, returns (). Returns None otherwise.
    pub fn as_null(&self) -> (res: Option<()>)
        ensures
            res is Some <==> self is Null,
    {
        match self {
            Id::Null => Some(()),
            _ => None,
        }
    }

    /// Convert `Id` to an owned one so that it can be moved across threads.
    pub fn into_owned(self) -> (res: Id)
        ensures
            res == self,
    {
        self
    }

    /// Extract the underlying number from the ID: the number itself, or the
    /// number that a string ID spells in decimal.
    pub fn try_parse_inner_as_number(&self) -> (res: Option<u64>)
        ensures
            self is Null ==> res is None,
            self matches Id::Number(n) ==> res == Some(*n),
            self matches Id::Str(s) ==> res == parse_u64(vstd::utf8::encode_utf8(s@)),
    {
        match self {
            Id::Null => None,
            Id::Number(num) => Some(*num),
            Id::Str(s) => parse_u64_str(s.as_str()),
        }
    }
}

/// The bytes of the first character of a text that starts with an ASCII
/// character end at a character boundary.
pub proof fn lemma_ascii_head_boundary(bytes: Seq<u8>)
    requires
        vstd::utf8::valid_utf8(bytes),
        bytes.len() > 0,
        bytes[0] < 128,
    ensures
        vstd::utf8::is_char_boundary(bytes, 1),
{
    reveal_with_fuel(vstd::utf8::is_char_boundary, 2);
    assert(vstd::utf8::is_leading_byte_width_1(bytes[0]));
    assert(vstd::utf8::length_of_first_scalar(bytes) == 1);
    assert(vstd::utf8::valid_first_scalar(bytes));
}

/// Parameters sent with an incoming JSON-RPC request: their JSON text with
/// the surrounding whitespace dropped, or none.
#[derive(Clone, Debug)]
pub struct Params(Option<String>);

impl Params {
    /// The bytes of the JSON text, if there are parameters.
    pub closed spec fn text(&self) -> Option<Seq<u8>> {
        match self.0 {
            Some(s) => Some(vstd::utf8::encode_utf8(s@)),
            None => None,
        }
    }

    /// Create params
    pub fn new(raw: Option<&str>) -> (res: Self)
        ensures
            raw matches Some(r) ==> res.text() == Some(trim_bytes(r.spec_bytes())),
            raw is None ==> res.text() is None,
    {
        match raw {
            Some(r) => {
                let t = trim(r);
                Params(Some(t.to_owned()))
            },
            None => Params(None),
        }
    }

    /// Returns true if the contained JSON is an object
    pub fn is_object(&self) -> (res: bool)
        ensures
            res == (self.text() matches Some(t) && t.len() > 0 && t[0] == 123u8),
    {
        match &self.0 {
            Some(json) => {
                let bytes = json.as_str().as_bytes();
                bytes.len() > 0 && bytes[0] == 123u8
            },
            None => false,
        }
    }

    /// Obtain a sequence parser, [`ParamsSequence`]: it reads the parameters
    /// one at a time, and regards an empty array `[]` as no parameters.
    pub fn sequence(&self) -> (res: ParamsSequence<'_>)
        ensures
            self.text() matches Some(t) ==> (t != vstd::utf8::encode_utf8("[]"@) ==> res.rest() == t) && (t
                == vstd::utf8::encode_utf8("[]"@) ==> res.rest().len() == 0),
            self.text() is None ==> res.rest().len() == 0,
    {
        proof {
            reveal_strlit("");
            vstd::utf8::encode_utf8_decode_utf8("[]"@);
        }
        match &self.0 {
            Some(json) => {
                let text = json.as_str();
                proof {
                    vstd::utf8::encode_utf8_decode_utf8(text@);
                }
                if crate::text::str_eq(text, "[]") {
                    ParamsSequence("")
                } else {
                    ParamsSequence(text)
                }
            },
            None => ParamsSequence(""),
        }
    }

    /// The JSON text of the parameters, to deserialize them as a whole.
    pub fn raw(&self) -> (res: Option<&str>)
        ensures
            self.text() matches Some(t) ==> (res matches Some(r) && r.spec_bytes() == t),
            self.text() is None ==> res is None,
    {
        match &self.0 {
            Some(json) => Some(json.as_str()),
            None => None,
        }
    }

    /// Convert `Params` to an owned one so that it can be moved across threads.
    pub fn into_owned(self) -> (res: Params)
        ensures
            res == self,
    {
        self
    }

    /// Return the length of underlying JSON string in number of bytes.
    pub fn len_bytes(&self) -> (res: usize)
        ensures
            self.text() matches Some(t) ==> res == t.len() as usize,
            self.text() is None ==> res == 0,
    {
        match &self.0 {
            Some(json) => json.as_str().len(),
            None => 0,
        }
    }
}

/// The message of the error for a sequence that does not continue with one
/// of `[`, `]` or `,`.
pub open spec fn unexpected_sequence_message(rest: Seq<char>) -> Seq<char> {
    "Invalid params. Expected one of '[', ']' or ',' but found "@ + debug_text(rest)
}

/// An `Iterator`-like parser for a sequence of [`Params`].
///
/// This will parse the params one at a time, and allows for graceful handling of optional parameters at the tail.
/// Each step reads where the next value starts ([`ParamsSequence::next_start`]); once the value there is
/// deserialized, [`ParamsSequence::settle`] moves past it.
///
/// Regards empty array `[]` as no parameters provided.
#[derive(Debug, Copy, Clone)]
pub struct ParamsSequence<'a>(&'a str);

impl<'a> ParamsSequence<'a> {
    /// The text not read yet.
    pub closed spec fn rest_text(&self) -> Seq<char> {
        self.0@
    }

    /// The bytes of the text not read yet.
    pub open spec fn rest(&self) -> Seq<u8> {
        vstd::utf8::encode_utf8(self.rest_text())
    }

    /// Where the next value starts. At the end of the text there is none; at
    /// a closing `]` there is none and the sequence is done; after an opening
    /// `[` or a separating `,` the value starts at the next byte; anything else
    /// is an error. Only the closing `]` moves the sequence.
    pub fn next_start(&mut self) -> (res: Option<Result<&'a str, CallError>>)
        ensures
            old(self).rest().len() == 0 ==> res is None && *final(self) == *old(self),
            old(self).rest().len() > 0 && old(self).rest()[0] == 93u8 ==> res is None && final(self).rest().len() == 0,
            old(self).rest().len() > 0 && (old(self).rest()[0] == 91u8 || old(self).rest()[0] == 44u8) ==> (res matches Some(
                Ok(json),
            ) && json.spec_bytes() == old(self).rest().skip(1)) && *final(self) == *old(self),
            old(self).rest().len() > 0 && old(self).rest()[0] != 93u8 && old(self).rest()[0] != 91u8
                && old(self).rest()[0] != 44u8 ==> (res matches Some(Err(CallError::InvalidParams(msg))) && msg@
                == unexpected_sequence_message(old(self).rest_text())) && *final(self) == *old(self),
    {
        let json = self.0;
        let bytes = json.as_bytes();
        if bytes.len() == 0 {
            return None;
        }
        let first = bytes[0];
        if first == 93u8 {
            proof {
                reveal_strlit("");
            }
            self.0 = "";
            None
        } else if first == 91u8 || first == 44u8 {
            proof {
                vstd::utf8::encode_utf8_valid_utf8(json@);
                lemma_ascii_head_boundary(json.spec_bytes());
            }
            let (_, value) = json.split_at(1);
            Some(Ok(value))
        } else {
            let mut msg = String::new();
            push_str(&mut msg, "Invalid params. Expected one of '[', ']' or ',' but found ");
            let shown = debug_str(json);
            push_str(&mut msg, shown.as_str());
            assert(msg@ =~= unexpected_sequence_message(json@));
            Some(Err(CallError::InvalidParams(msg)))
        }
    }

    /// Moves past a value deserialized from `json`, the text returned by
    /// [`ParamsSequence::next_start`], given what deserializing gave: nothing
    /// when no value was left (the sequence stays where it was), a failure
    /// (the sequence is done), or the number of bytes the value took (the
    /// sequence goes on after them, past any whitespace).
    pub fn settle(&mut self, json: &'a str, consumed: Option<Option<usize>>)
        requires
            consumed matches Some(Some(n)) ==> n <= json.spec_bytes().len() && vstd::utf8::is_char_boundary(
                json.spec_bytes(),
                n as int,
            ),
        ensures
            consumed is None ==> *final(self) == *old(self),
            consumed matches Some(None) ==> final(self).rest().len() == 0,
            consumed matches Some(Some(n)) ==> final(self).rest() == trim_start_bytes(json.spec_bytes().skip(n as int)),
    {
        match consumed {
            None => {},
            Some(None) => {
                proof {
                    reveal_strlit("");
                }
                self.0 = "";
            },
            Some(Some(n)) => {
                let (_, after) = json.split_at(n);
                assert(after.spec_bytes() =~= json.spec_bytes().skip(n as int));
                self.0 = trim_start(after);
            },
        }
    }
}

} // verus!
