//! JSON-RPC response objects, and how a response is assembled from the
//! members of a JSON object read one after another.

use crate::types::error::ErrorObjectOwned;
use crate::text::str_eq;
use crate::types::params::{Id, SubscriptionId, TwoPointZero};
use vstd::prelude::*;

verus! {

/// Represent the result or error field of the JSON-RPC response object.
#[derive(Debug, PartialEq)]
pub enum PartialResponse<T> {
    /// Corresponds to successful JSON-RPC response with the field `result`.
    Result(T),
    /// Corresponds to failed JSON-RPC response with a error object with the field `error`.
    Error(ErrorObjectOwned),
}

impl<T> PartialResponse<T> {
    /// Create successful partial response i.e, the `result field`
    pub fn result(t: T) -> (res: Self)
        ensures
            res == PartialResponse::<T>::Result(t),
    {
        PartialResponse::Result(t)
    }
}

impl PartialResponse<()> {
    /// Create failed partial response i.e, the `error field`
    pub fn error(e: ErrorObjectOwned) -> (res: Self)
        ensures
            res == PartialResponse::<()>::Error(e),
    {
        PartialResponse::Error(e)
    }
}

/// JSON-RPC response object as defined in the [spec](https://www.jsonrpc.org/specification#response_object).
#[derive(Debug)]
pub struct Response<T> {
    /// JSON-RPC version.
    pub jsonrpc: Option<TwoPointZero>,
    /// Result or error.
    pub result_or_error: PartialResponse<T>,
    /// Request ID
    pub id: Id,
}

impl<T> Response<T> {
    /// Create a new [`Response`].
    pub fn new(result_or_error: PartialResponse<T>, id: Id) -> (res: Response<T>)
        ensures
            res.jsonrpc == Some(TwoPointZero),
            res.result_or_error == result_or_error,
            res.id == id,
    {
        Response { jsonrpc: Some(TwoPointZero), result_or_error, id }
    }

    /// Create an owned [`Response`].
    pub fn into_owned(self) -> (res: Response<T>)
        ensures
            res == self,
    {
        self
    }
}

/// Return value for subscriptions.
#[derive(Debug)]
pub struct SubscriptionPayload<T> {
    /// Subscription ID
    pub subscription: SubscriptionId,
    /// Result.
    pub result: T,
}

/// Error value for subscriptions.
#[derive(Debug)]
pub struct SubscriptionPayloadError<T> {
    /// Subscription ID
    pub subscription: SubscriptionId,
    /// Result.
    pub error: T,
}

/// The members of a JSON-RPC response object.
#[derive(Debug, Clone, Copy, PartialEq, Eq, Structural)]
pub enum ResponseField {
    /// `jsonrpc`
    Jsonrpc,
    /// `result`
    Result,
    /// `error`
    Error,
    /// `id`
    Id,
}

/// The member that a key of a response object names, if any: `jsonrpc`,
/// `result`, `error` or `id`.
pub open spec fn field_named(name: Seq<char>) -> Option<ResponseField> {
    if name == "jsonrpc"@ {
        Some(ResponseField::Jsonrpc)
    } else if name == "result"@ {
        Some(ResponseField::Result)
    } else if name == "error"@ {
        Some(ResponseField::Error)
    } else if name == "id"@ {
        Some(ResponseField::Id)
    } else {
        None
    }
}

impl ResponseField {
    /// The member that a key names; any other key is no member of a response.
    pub fn from_name(name: &str) -> (res: Option<ResponseField>)
        ensures
            res == field_named(name@),
    {
        if str_eq(name, "jsonrpc") {
            Some(ResponseField::Jsonrpc)
        } else if str_eq(name, "result") {
            Some(ResponseField::Result)
        } else if str_eq(name, "error") {
            Some(ResponseField::Error)
        } else if str_eq(name, "id") {
            Some(ResponseField::Id)
        } else {
            None
        }
    }
}

/// Why the members of an object do not make a response.
#[derive(Debug, Clone, PartialEq, Eq)]
pub enum ResponseError {
    /// A member occurs twice, or both `result` and `error` occur: the member's name.
    DuplicateField(&'static str),
    /// A member is missing: its name.
    MissingField(&'static str),
}

/// The members of a response object read so far.
#[derive(Debug)]
pub struct ResponseFields<T> {
    /// `jsonrpc`, whose value may be `null`.
    pub jsonrpc: Option<Option<TwoPointZero>>,
    /// `result`
    pub result: Option<T>,
    /// `error`
    pub error: Option<ErrorObjectOwned>,
    /// `id`
    pub id: Option<Id>,
}

/// The response that the members make, or why they make none.
pub open spec fn assemble_response<T>(f: ResponseFields<T>) -> Result<Response<T>, ResponseError> {
    match f.id {
        None => Err(ResponseError::MissingField("id")),
        Some(id) => match (f.jsonrpc, f.result, f.error) {
            (_, Some(_), Some(_)) => Err(
                ResponseError::DuplicateField("result and error are mutually exclusive"),
            ),
            (Some(jsonrpc), Some(result), None) => Ok(
                Response { jsonrpc, result_or_error: PartialResponse::Result(result), id },
            ),
            (Some(jsonrpc), None, Some(err)) => Ok(
                Response { jsonrpc, result_or_error: PartialResponse::Error(err), id },
            ),
            (None, Some(result), _) => Ok(
                Response { jsonrpc: None, result_or_error: PartialResponse::Result(result), id },
            ),
            (None, _, Some(err)) => Ok(
                Response { jsonrpc: None, result_or_error: PartialResponse::Error(err), id },
            ),
            (_, None, None) => Err(ResponseError::MissingField("result/error")),
        },
    }
}

impl<T> ResponseFields<T> {
    /// Whether the member has been read already.
    pub open spec fn has(&self, field: ResponseField) -> bool {
        match field {
            ResponseField::Jsonrpc => self.jsonrpc is Some,
            ResponseField::Result => self.result is Some,
            ResponseField::Error => self.error is Some,
            ResponseField::Id => self.id is Some,
        }
    }

    /// No member read yet.
    pub fn new() -> (res: Self)
        ensures
            res.jsonrpc is None,
            res.result is None,
            res.error is None,
            res.id is None,
    {
        ResponseFields { jsonrpc: None, result: None, error: None, id: None }
    }

    /// Accepts the name of the next member unless that member was read already.
    pub fn accept(&self, field: ResponseField) -> (res: Result<(), ResponseError>)
        ensures
            res is Ok <==> !self.has(field),
            res is Err ==> res == Err::<(), ResponseError>(ResponseError::DuplicateField(
                match field {
                    ResponseField::Jsonrpc => "jsonrpc",
                    ResponseField::Result => "result",
                    ResponseField::Error => "error",
                    ResponseField::Id => "id",
                },
            )),
    {
        match field {
            ResponseField::Result => if self.result.is_some() {
                Err(ResponseError::DuplicateField("result"))
            } else {
                Ok(())
            },
            ResponseField::Error => if self.error.is_some() {
                Err(ResponseError::DuplicateField("error"))
            } else {
                Ok(())
            },
            ResponseField::Id => if self.id.is_some() {
                Err(ResponseError::DuplicateField("id"))
            } else {
                Ok(())
            },
            ResponseField::Jsonrpc => if self.jsonrpc.is_some() {
                Err(ResponseError::DuplicateField("jsonrpc"))
            } else {
                Ok(())
            },
        }
    }

    /// The response the members make: `id` and one of `result` and `error`
    /// are required, `jsonrpc` is optional.
    pub fn finish(self) -> (res: Result<Response<T>, ResponseError>)
        ensures
            res == assemble_response(self),
    {
        let id = match self.id {
            Some(id) => id,
            None => return Err(ResponseError::MissingField("id")),
        };
        match (self.jsonrpc, self.result, self.error) {
            (_, Some(_), Some(_)) => Err(
                ResponseError::DuplicateField("result and error are mutually exclusive"),
            ),
            (Some(jsonrpc), Some(result), None) => Ok(
                Response { jsonrpc, result_or_error: PartialResponse::Result(result), id },
            ),
            (Some(jsonrpc), None, Some(err)) => Ok(
                Response { jsonrpc, result_or_error: PartialResponse::Error(err), id },
            ),
            (None, Some(result), _) => Ok(
                Response { jsonrpc: None, result_or_error: PartialResponse::Result(result), id },
            ),
            (None, _, Some(err)) => Ok(
                Response { jsonrpc: None, result_or_error: PartialResponse::Error(err), id },
            ),
            (_, None, None) => Err(ResponseError::MissingField("result/error")),
        }
    }
}

/// The members that a response is written with: `jsonrpc` only when it is
/// set, then `result` or `error`, then `id`.
pub open spec fn written_fields<T>(r: Response<T>) -> ResponseFields<T> {
    ResponseFields {
        jsonrpc: match r.jsonrpc {
            Some(v) => Some(Some(v)),
            None => None,
        },
        result: match r.result_or_error {
            PartialResponse::Result(t) => Some(t),
            PartialResponse::Error(_) => None,
        },
        error: match r.result_or_error {
            PartialResponse::Result(_) => None,
            PartialResponse::Error(e) => Some(e),
        },
        id: Some(r.id),
    }
}

/// Every response is read back whole from the members it is written with.
pub proof fn lemma_written_response_reads_back<T>(r: Response<T>)
    ensures
        assemble_response(written_fields(r)) == Ok::<Response<T>, ResponseError>(r),
{
}

/// A member of a response object with its value read.
#[derive(Debug)]
pub enum Member<T> {
    /// `jsonrpc`, whose value may be `null`.
    Jsonrpc(Option<TwoPointZero>),
    /// `result`
    Result(T),
    /// `error`
    Error(ErrorObjectOwned),
    /// `id`
    Id(Id),
}

/// The member that a member with its value is.
pub open spec fn member_field<T>(m: Member<T>) -> ResponseField {
    match m {
        Member::Jsonrpc(_) => ResponseField::Jsonrpc,
        Member::Result(_) => ResponseField::Result,
        Member::Error(_) => ResponseField::Error,
        Member::Id(_) => ResponseField::Id,
    }
}

/// The name under which a member is reported when it occurs twice.
pub open spec fn field_label(field: ResponseField) -> &'static str {
    match field {
        ResponseField::Jsonrpc => "jsonrpc",
        ResponseField::Result => "result",
        ResponseField::Error => "error",
        ResponseField::Id => "id",
    }
}

/// The members read so far, with one more stored.
pub open spec fn with_member<T>(f: ResponseFields<T>, m: Member<T>) -> ResponseFields<T> {
    match m {
        Member::Jsonrpc(v) => ResponseFields { jsonrpc: Some(v), ..f },
        Member::Result(t) => ResponseFields { result: Some(t), ..f },
        Member::Error(e) => ResponseFields { error: Some(e), ..f },
        Member::Id(id) => ResponseFields { id: Some(id), ..f },
    }
}

/// Reading one more member: refused when that member was read already.
pub open spec fn read_member<T>(f: ResponseFields<T>, m: Member<T>) -> Result<ResponseFields<T>, ResponseError> {
    if f.has(member_field(m)) {
        Err(ResponseError::DuplicateField(field_label(member_field(m))))
    } else {
        Ok(with_member(f, m))
    }
}

/// Reading members one after another, stopping at the first refusal.
pub open spec fn read_members<T>(f: ResponseFields<T>, ms: Seq<Member<T>>) -> Result<ResponseFields<T>, ResponseError>
    decreases ms.len(),
{
    if ms.len() == 0 {
        Ok(f)
    } else {
        match read_member(f, ms[0]) {
            Ok(g) => read_members(g, ms.drop_first()),
            Err(e) => Err(e),
        }
    }
}

/// No members read yet.
pub open spec fn no_members<T>() -> ResponseFields<T> {
    ResponseFields { jsonrpc: None, result: None, error: None, id: None }
}

/// The response that the members of an object make, read in order, or why
/// they make none.
pub open spec fn response_of_members<T>(ms: Seq<Member<T>>) -> Result<Response<T>, ResponseError> {
    match read_members(no_members(), ms) {
        Ok(f) => assemble_response(f),
        Err(e) => Err(e),
    }
}

/// Whether some member of `ms` is `field`.
pub open spec fn mentions<T>(ms: Seq<Member<T>>, field: ResponseField) -> bool {
    exists|i: int| 0 <= i < ms.len() && member_field(#[trigger] ms[i]) == field
}

/// Whether no member occurs twice in `ms`.
pub open spec fn distinct_members<T>(ms: Seq<Member<T>>) -> bool {
    forall|i: int, j: int| 0 <= i < j < ms.len() ==> member_field(#[trigger] ms[i]) != member_field(#[trigger] ms[j])
}

/// Whether some member of `ms` sets the version: `jsonrpc` with a value
/// other than `null`.
pub open spec fn sets_version<T>(ms: Seq<Member<T>>) -> bool {
    exists|i: int| 0 <= i < ms.len() && (#[trigger] ms[i] matches Member::Jsonrpc(Some(_)))
}

/// Whether `f` holds a version other than `null`.
pub open spec fn holds_version<T>(f: ResponseFields<T>) -> bool {
    f.jsonrpc matches Some(Some(_))
}

/// Reading members into `f` goes through exactly when no member occurs
/// twice and none was read into `f` before; the members then held are
/// those of `f` and those read, and a version is held when `f` held one or
/// a member set one.
proof fn lemma_read_members<T>(f: ResponseFields<T>, ms: Seq<Member<T>>)
    ensures
        read_members(f, ms) is Ok <==> (distinct_members(ms) && forall|i: int|
            0 <= i < ms.len() ==> !f.has(member_field(#[trigger] ms[i]))),
        read_members(f, ms) matches Ok(g) ==> (forall|x: ResponseField| #[trigger] g.has(x) == (f.has(x) || mentions(ms, x)))
            && (holds_version(g) == (holds_version(f) || sets_version(ms))),
    decreases ms.len(),
{
    if ms.len() > 0 {
        let m = ms[0];
        let rest = ms.drop_first();
        assert forall|i: int| 0 <= i < rest.len() implies rest[i] == ms[i + 1] by {}
        if !f.has(member_field(m)) {
            let g = with_member(f, m);
            lemma_read_members(g, rest);
            assert(read_members(f, ms) == read_members(g, rest));
            if distinct_members(ms) && forall|i: int| 0 <= i < ms.len() ==> !f.has(member_field(#[trigger] ms[i])) {
                assert forall|i: int, j: int| 0 <= i < j < rest.len() implies member_field(#[trigger] rest[i])
                    != member_field(#[trigger] rest[j]) by {
                    assert(member_field(ms[i + 1]) != member_field(ms[j + 1]));
                }
                assert forall|i: int| 0 <= i < rest.len() implies !g.has(member_field(#[trigger] rest[i])) by {
                    assert(member_field(ms[0]) != member_field(ms[i + 1]));
                    assert(!f.has(member_field(ms[i + 1])));
                }
            }
            if read_members(g, rest) is Ok {
                assert forall|i: int, j: int| 0 <= i < j < ms.len() implies member_field(#[trigger] ms[i])
                    != member_field(#[trigger] ms[j]) by {
                    if i == 0 {
                        assert(ms[j] == rest[j - 1]);
                        assert(!g.has(member_field(rest[j - 1])));
                    } else {
                        assert(ms[i] == rest[i - 1] && ms[j] == rest[j - 1]);
                    }
                }
                assert forall|i: int| 0 <= i < ms.len() implies !f.has(member_field(#[trigger] ms[i])) by {
                    if i > 0 {
                        assert(ms[i] == rest[i - 1]);
                        assert(!g.has(member_field(rest[i - 1])));
                    }
                }
                let h = read_members(g, rest)->Ok_0;
                assert forall|x: ResponseField| #[trigger] h.has(x) == (f.has(x) || mentions(ms, x)) by {
                    if mentions(rest, x) {
                        let i = choose|i: int| 0 <= i < rest.len() && member_field(#[trigger] rest[i]) == x;
                        assert(ms[i + 1] == rest[i]);
                    }
                    if mentions(ms, x) && !f.has(x) && x != member_field(m) {
                        let i = choose|i: int| 0 <= i < ms.len() && member_field(#[trigger] ms[i]) == x;
                        assert(ms[i] == rest[i - 1]);
                    }
                    assert(member_field(ms[0]) == member_field(m));
                }
                if sets_version(rest) {
                    let i = choose|i: int| 0 <= i < rest.len() && (#[trigger] rest[i] matches Member::Jsonrpc(Some(_)));
                    assert(ms[i + 1] == rest[i]);
                }
                if sets_version(ms) && !(m matches Member::Jsonrpc(Some(_))) {
                    let i = choose|i: int| 0 <= i < ms.len() && (#[trigger] ms[i] matches Member::Jsonrpc(Some(_)));
                    assert(i > 0);
                    assert(ms[i] == rest[i - 1]);
                }
            }
        } else {
            assert(!(forall|i: int| 0 <= i < ms.len() ==> !f.has(member_field(#[trigger] ms[i])))) by {
                assert(f.has(member_field(ms[0])));
            }
        }
    } else {
        assert forall|x: ResponseField| #[trigger] f.has(x) == (f.has(x) || mentions(ms, x)) by {}
    }
}

/// The members of an object make a response exactly when none occurs twice,
/// `id` is among them and exactly one of `result` and `error` is; the
/// response then has no version exactly when `jsonrpc` is absent or `null`.
pub proof fn lemma_response_of_members<T>(ms: Seq<Member<T>>)
    ensures
        response_of_members(ms) is Ok <==> (distinct_members(ms) && mentions(ms, ResponseField::Id) && mentions(
            ms,
            ResponseField::Result,
        ) != mentions(ms, ResponseField::Error)),
        response_of_members(ms) matches Ok(r) ==> (r.jsonrpc is None <==> !sets_version(ms)),
{
    let f = no_members::<T>();
    lemma_read_members(f, ms);
    assert(forall|x: ResponseField| !#[trigger] f.has(x));
    if read_members(f, ms) is Ok {
        let g = read_members(f, ms)->Ok_0;
        assert(g.has(ResponseField::Id) == mentions(ms, ResponseField::Id));
        assert(g.has(ResponseField::Result) == mentions(ms, ResponseField::Result));
        assert(g.has(ResponseField::Error) == mentions(ms, ResponseField::Error));
    }
}

impl<T> ResponseFields<T> {
    /// Reads one more member: refused when that member was read already.
    pub fn read(self, m: Member<T>) -> (res: Result<Self, ResponseError>)
        ensures
            res == read_member(self, m),
    {
        match m {
            Member::Jsonrpc(v) => if self.jsonrpc.is_some() {
                Err(ResponseError::DuplicateField("jsonrpc"))
            } else {
                Ok(ResponseFields { jsonrpc: Some(v), ..self })
            },
            Member::Result(t) => if self.result.is_some() {
                Err(ResponseError::DuplicateField("result"))
            } else {
                Ok(ResponseFields { result: Some(t), ..self })
            },
            Member::Error(e) => if self.error.is_some() {
                Err(ResponseError::DuplicateField("error"))
            } else {
                Ok(ResponseFields { error: Some(e), ..self })
            },
            Member::Id(id) => if self.id.is_some() {
                Err(ResponseError::DuplicateField("id"))
            } else {
                Ok(ResponseFields { id: Some(id), ..self })
            },
        }
    }
}

} // verus!
