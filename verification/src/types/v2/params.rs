//! Identifiers and parameters of JSON-RPC requests.

use crate::assoc::KeyEq;
use crate::json::{encode_json_string, json_string};
use crate::text::{decimal, push_decimal, push_str, trim_start, trim_start_bytes};
use crate::types::params::lemma_ascii_head_boundary;
use vstd::prelude::*;
use vstd::string::StringSliceAdditionalSpecFns;

verus! {

/// JSON-RPC v2 marker type.
#[derive(Clone, Copy, Debug, Default, PartialEq, Eq, Structural)]
pub struct TwoPointZero;

impl TwoPointZero {
    /// The marker that a version string denotes: only `"2.0"` is accepted.
    pub fn from_version(s: &str) -> (res: Option<TwoPointZero>)
        ensures
            res is Some <==> s@ == "2.0"@,
    {
        if crate::text::str_eq(s, "2.0") {
            Some(TwoPointZero)
        } else {
            None
        }
    }

    /// The version string of the marker, `"2.0"`.
    pub fn as_str(&self) -> (res: &'static str)
        ensures
            res@ == "2.0"@,
    {
        "2.0"
    }
}


/// What a subscription notification carries: the subscription and the new value.
#[derive(Debug)]
pub struct JsonRpcSubscriptionParams<T> {
    /// Subscription ID
    pub subscription: SubscriptionId,
    /// Result.
    pub result: T,
}

/// Id of a subscription, communicated by the server.
#[derive(Debug, PartialEq, Eq, Clone, Hash)]
pub enum SubscriptionId {
    /// Numeric id
    Num(u64),
    /// String id
    Str(String),
}

/// Mathematical view of a [`SubscriptionId`].
pub enum SubscriptionIdView {
    /// Numeric id
    Num(u64),
    /// String id, as its characters
    Str(Seq<char>),
}

impl View for SubscriptionId {
    type V = SubscriptionIdView;

    open spec fn view(&self) -> SubscriptionIdView {
        match self {
            SubscriptionId::Num(n) => SubscriptionIdView::Num(*n),
            SubscriptionId::Str(s) => SubscriptionIdView::Str(s@),
        }
    }
}

impl KeyEq for SubscriptionId {
    fn key_eq(&self, other: &Self) -> (res: bool) {
        match (self, other) {
            (SubscriptionId::Num(a), SubscriptionId::Num(b)) => *a == *b,
            (SubscriptionId::Str(a), SubscriptionId::Str(b)) => *a == *b,
            _ => false,
        }
    }
}

/// Request Id
#[derive(Debug, PartialEq, Clone, Hash, Eq, PartialOrd, Ord)]
pub enum Id {
    /// Null
    Null,
    /// Numeric id
    Number(u64),
    /// String id
    Str(String),
}

impl Id {
    /// If the Id is a number, returns the associated number. Returns None otherwise.
    pub fn as_number(&self) -> (res: Option<&u64>)
        ensures
            self matches Id::Number(n) ==> (res matches Some(r) && *r == n),
            !(self is Number) ==> res is None,
    {
        match self {
            Id::Number(n) => Some(n),
            _ => None,
        }
    }

    /// If the Id is a String, returns the associated str. Returns None otherwise.
    pub fn as_str(&self) -> (res: Option<&str>)
        ensures
            self matches Id::Str(s) ==> (res matches Some(r) && r@ == s@),
            !(self is Str) ==> res is None,
    {
        match self {
            Id::Str(s) => Some(s.as_str()),
            _ => None,
        }
    }

    /// If the ID is Null, returns (). Returns None otherwise.
    pub fn as_null(&self) -> (res: Option<()>)
        ensures
            res is Some <==> self is Null,
    {
        match self {
            Id::Null => Some(()),
            _ => None,
        }
    }

    /// Convert `Id` to an owned one so that it can be moved across threads.
    pub fn into_owned(self) -> (res: Id)
        ensures
            res == self,
    {
        self
    }
}

/// The JSON text of a subscription ID: the number, or the quoted string.
pub open spec fn subscription_id_json(id: SubscriptionIdView) -> Seq<char> {
    match id {
        SubscriptionIdView::Num(n) => decimal(n as nat),
        SubscriptionIdView::Str(s) => json_string(s),
    }
}

impl SubscriptionId {
    /// Appends the JSON text of the subscription ID.
    pub fn push_json(&self, out: &mut String)
        ensures
            final(out)@ == old(out)@ + subscription_id_json(self@),
    {
        match self {
            SubscriptionId::Num(n) => push_decimal(out, *n),
            SubscriptionId::Str(s) => {
                let quoted = encode_json_string(s.as_str());
                push_str(out, quoted.as_str());
            },
        }
    }
}

/// The JSON text of a request ID: `null`, the number, or the quoted string.
pub open spec fn id_json(id: Id) -> Seq<char> {
    match id {
        Id::Null => "null"@,
        Id::Number(n) => decimal(n as nat),
        Id::Str(s) => json_string(s@),
    }
}

impl Id {
    /// Appends the JSON text of the request ID.
    pub fn push_json(&self, out: &mut String)
        ensures
            final(out)@ == old(out)@ + id_json(*self),
    {
        match self {
            Id::Null => push_str(out, "null"),
            Id::Number(n) => push_decimal(out, *n),
            Id::Str(s) => {
                let quoted = encode_json_string(s.as_str());
                push_str(out, quoted.as_str());
            },
        }
    }
}

/// Parameters sent with the RPC request: their JSON text, or none.
#[derive(Clone, Debug)]
pub struct RpcParams(Option<String>);

impl RpcParams {
    /// The bytes of the JSON text, if there are parameters.
    pub closed spec fn text(&self) -> Option<Seq<u8>> {
        match self.0 {
            Some(s) => Some(vstd::utf8::encode_utf8(s@)),
            None => None,
        }
    }

    /// Create params
    pub fn new(raw: Option<&str>) -> (res: Self)
        ensures
            raw matches Some(r) ==> res.text() == Some(r.spec_bytes()),
            raw is None ==> res.text() is None,
    {
        match raw {
            Some(r) => RpcParams(Some(r.to_owned())),
            None => RpcParams(None),
        }
    }

    /// Returns true if the contained JSON is an object: its first byte after
    /// any leading whitespace is `{`.
    pub fn is_object(&self) -> (res: bool)
        ensures
            res == (self.text() matches Some(t) && trim_start_bytes(t).len() > 0 && trim_start_bytes(t)[0] == 123u8),
    {
        match &self.0 {
            Some(json) => {
                let bytes = trim_start(json.as_str()).as_bytes();
                bytes.len() > 0 && bytes[0] == 123u8
            },
            None => false,
        }
    }

    /// Obtain a sequence parser, [`RpcParamsSequence`], over the whole text.
    pub fn sequence(&self) -> (res: RpcParamsSequence<'_>)
        ensures
            self.text() matches Some(t) ==> res.rest() == t,
            self.text() is None ==> res.rest().len() == 0,
    {
        proof {
            reveal_strlit("");
        }
        match &self.0 {
            Some(json) => RpcParamsSequence(json.as_str()),
            None => RpcParamsSequence(""),
        }
    }

    /// The JSON text of the parameters, to deserialize them as a whole.
    pub fn raw(&self) -> (res: Option<&str>)
        ensures
            self.text() matches Some(t) ==> (res matches Some(r) && r.spec_bytes() == t),
            self.text() is None ==> res is None,
    {
        match &self.0 {
            Some(json) => Some(json.as_str()),
            None => None,
        }
    }

    /// Convert `RpcParams` to an owned one so that it can be moved across threads.
    pub fn into_owned(self) -> (res: RpcParams)
        ensures
            res == self,
    {
        self
    }
}

/// An `Iterator`-like parser for a sequence of `RpcParams`.
///
/// Each step reads where the next value starts ([`RpcParamsSequence::next_start`]); once the value there is
/// deserialized, [`RpcParamsSequence::settle`] moves past it.
#[derive(Debug)]
pub struct RpcParamsSequence<'a>(&'a str);

impl<'a> RpcParamsSequence<'a> {
    /// The text not read yet.
    pub closed spec fn rest_text(&self) -> Seq<char> {
        self.0@
    }

    /// The bytes of the text not read yet.
    pub open spec fn rest(&self) -> Seq<u8> {
        vstd::utf8::encode_utf8(self.rest_text())
    }

    /// Where the next value starts, after any leading whitespace: at the end of
    /// the text there is none; at a closing `]` there is none and the sequence
    /// is done; after an opening `[` or a separating `,` the value starts at the
    /// next byte (`Some(Some(_))`); anything else means the parameters are
    /// invalid (`Some(None)`). Only the closing `]` moves the sequence.
    pub fn next_start(&mut self) -> (res: Option<Option<&'a str>>)
        ensures
            ({
                let t = trim_start_bytes(old(self).rest());
                &&& t.len() == 0 ==> res is None && *final(self) == *old(self)
                &&& t.len() > 0 && t[0] == 93u8 ==> res is None && final(self).rest().len() == 0
                &&& t.len() > 0 && (t[0] == 91u8 || t[0] == 44u8) ==> (res matches Some(Some(json))
                    && json.spec_bytes() == t.skip(1)) && *final(self) == *old(self)
                &&& t.len() > 0 && t[0] != 93u8 && t[0] != 91u8 && t[0] != 44u8 ==> res == Some(None::<&'a str>)
                    && *final(self) == *old(self)
            }),
    {
        let json = trim_start(self.0);
        let bytes = json.as_bytes();
        if bytes.len() == 0 {
            return None;
        }
        let first = bytes[0];
        if first == 93u8 {
            proof {
                reveal_strlit("");
            }
            self.0 = "";
            None
        } else if first == 91u8 || first == 44u8 {
            proof {
                vstd::utf8::encode_utf8_valid_utf8(json@);
                lemma_ascii_head_boundary(json.spec_bytes());
            }
            let (_, value) = json.split_at(1);
            Some(Some(value))
        } else {
            Some(None)
        }
    }

    /// Moves past a value deserialized from `json`, the text returned by
    /// [`RpcParamsSequence::next_start`], given what deserializing gave:
    /// nothing when no value was left (the sequence stays where it was), a
    /// failure (the sequence is done), or the number of bytes the value took
    /// (the sequence goes on right after them).
    pub fn settle(&mut self, json: &'a str, consumed: Option<Option<usize>>)
        requires
            consumed matches Some(Some(n)) ==> n <= json.spec_bytes().len() && vstd::utf8::is_char_boundary(
                json.spec_bytes(),
                n as int,
            ),
        ensures
            consumed is None ==> *final(self) == *old(self),
            consumed matches Some(None) ==> final(self).rest().len() == 0,
            consumed matches Some(Some(n)) ==> final(self).rest() == json.spec_bytes().skip(n as int),
    {
        match consumed {
            None => {},
            Some(None) => {
                proof {
                    reveal_strlit("");
                }
                self.0 = "";
            },
            Some(Some(n)) => {
                let (_, after) = json.split_at(n);
                assert(after.spec_bytes() =~= json.spec_bytes().skip(n as int));
                self.0 = after;
            },
        }
    }
}

} // verus!
