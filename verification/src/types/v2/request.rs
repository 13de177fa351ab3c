//! Version two of the serializable JSON-RPC request and notification
//! objects, and the JSON text they are sent as.

use crate::json::{encode_json_string, json_string};
use crate::text::{joined, push_joined, push_str};
use crate::types::v2::params::{id_json, Id, TwoPointZero};
use vstd::prelude::*;

verus! {

/// Serializable JSON-RPC parameters, each value given as its JSON text.
#[derive(Debug, Clone)]
pub enum ParamsSer {
    /// No params.
    NoParams,
    /// Positional params.
    Array(Vec<String>),
    /// Params by name: each name with the JSON text of its value, in ascending order of names.
    Object(Vec<(String, String)>),
}

/// The JSON text of a named parameter: the quoted name, a colon and the value.
pub open spec fn member_json(entry: (Seq<char>, Seq<char>)) -> Seq<char> {
    json_string(entry.0) + ":"@ + entry.1
}

/// The JSON text of parameters: `null`, an array or an object.
pub open spec fn params_json(p: ParamsSer) -> Seq<char> {
    match p {
        ParamsSer::NoParams => "null"@,
        ParamsSer::Array(values) => "["@ + joined(values@.map_values(|v: String| v@)) + "]"@,
        ParamsSer::Object(entries) => "{"@ + joined(
            entries@.map_values(|e: (String, String)| member_json((e.0@, e.1@))),
        ) + "}"@,
    }
}

impl ParamsSer {
    /// Appends the JSON text of the parameters.
    pub fn push_json(&self, out: &mut String)
        ensures
            final(out)@ == old(out)@ + params_json(*self),
    {
        match self {
            ParamsSer::NoParams => push_str(out, "null"),
            ParamsSer::Array(values) => {
                push_str(out, "[");
                push_joined(out, values);
                push_str(out, "]");
            },
            ParamsSer::Object(entries) => {
                let mut members: Vec<String> = Vec::new();
                let mut i: usize = 0;
                while i < entries.len()
                    invariant
                        i <= entries@.len(),
                        members@.len() == i,
                        forall|j: int|
                            0 <= j < i ==> (#[trigger] members@[j])@ == member_json((entries@[j].0@, entries@[j].1@)),
                    decreases entries@.len() - i,
                {
                    let mut m = encode_json_string(entries[i].0.as_str());
                    push_str(&mut m, ":");
                    push_str(&mut m, entries[i].1.as_str());
                    members.push(m);
                    i = i + 1;
                }
                assert(members@.map_values(|v: String| v@) =~= entries@.map_values(
                    |e: (String, String)| member_json((e.0@, e.1@)),
                ));
                push_str(out, "{");
                push_joined(out, &members);
                push_str(out, "}");
            },
        }
    }
}

/// Serializable JSON-RPC notification object.
#[derive(Debug)]
pub struct NotificationSer<'a> {
    /// JSON-RPC version.
    pub jsonrpc: TwoPointZero,
    /// Name of the method to be invoked.
    pub method: &'a str,
    /// Parameter values of the request.
    pub params: ParamsSer,
}

/// The JSON text of a notification.
pub open spec fn notification_json(method: Seq<char>, params: ParamsSer) -> Seq<char> {
    "{\"jsonrpc\":\"2.0\",\"method\":"@ + json_string(method) + ",\"params\":"@ + params_json(params) + "}"@
}

impl<'a> NotificationSer<'a> {
    /// Create a new serializable JSON-RPC notification.
    pub fn new(method: &'a str, params: ParamsSer) -> (res: Self)
        ensures
            res.method == method,
            res.params == params,
    {
        Self { jsonrpc: TwoPointZero, method, params }
    }

    /// The JSON text of the notification.
    pub fn to_json(&self) -> (res: String)
        ensures
            res@ == notification_json(self.method@, self.params),
    {
        let mut out = String::new();
        push_str(&mut out, "{\"jsonrpc\":\"2.0\",\"method\":");
        let method = encode_json_string(self.method);
        push_str(&mut out, method.as_str());
        push_str(&mut out, ",\"params\":");
        self.params.push_json(&mut out);
        push_str(&mut out, "}");
        assert(out@ =~= notification_json(self.method@, self.params));
        out
    }
}

/// Serializable JSON-RPC method call.
#[derive(Debug)]
pub struct RequestSer<'a> {
    /// JSON-RPC version.
    pub jsonrpc: TwoPointZero,
    /// Request ID
    pub id: Id,
    /// Name of the method to be invoked.
    pub method: &'a str,
    /// Parameter values of the request.
    pub params: ParamsSer,
}

/// The JSON text of a method call.
pub open spec fn request_json(id: Id, method: Seq<char>, params: ParamsSer) -> Seq<char> {
    "{\"jsonrpc\":\"2.0\",\"id\":"@ + id_json(id) + ",\"method\":"@ + json_string(method) + ",\"params\":"@
        + params_json(params) + "}"@
}

impl<'a> RequestSer<'a> {
    /// Create a new serializable JSON-RPC request.
    pub fn new(id: Id, method: &'a str, params: ParamsSer) -> (res: Self)
        ensures
            res.id == id,
            res.method == method,
            res.params == params,
    {
        Self { jsonrpc: TwoPointZero, id, method, params }
    }

    /// The JSON text of the method call.
    pub fn to_json(&self) -> (res: String)
        ensures
            res@ == request_json(self.id, self.method@, self.params),
    {
        let mut out = String::new();
        push_str(&mut out, "{\"jsonrpc\":\"2.0\",\"id\":");
        self.id.push_json(&mut out);
        push_str(&mut out, ",\"method\":");
        let method = encode_json_string(self.method);
        push_str(&mut out, method.as_str());
        push_str(&mut out, ",\"params\":");
        self.params.push_json(&mut out);
        push_str(&mut out, "}");
        assert(out@ =~= request_json(self.id, self.method@, self.params));
        out
    }
}

} // verus!
