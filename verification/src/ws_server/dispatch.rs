//! What a server connection does with each message it receives: which calls
//! it runs or which error it answers with, and the order in which it tells
//! its middleware about the request.

use crate::types::v2::error::ErrorCode;
use crate::types::v2::params::Id;
use crate::utils::helpers::prepare_error;
use vstd::prelude::*;

verus! {

/// What to do with one message from a client.
#[derive(Debug)]
pub enum MessageAction<R> {
    /// Run the one call the message holds.
    ExecuteSingle(R),
    /// Run each call of the batch the message holds, and answer them together.
    ExecuteBatch(Vec<R>),
    /// Answer with an error, under this ID and with this code.
    ReplyError(Id, ErrorCode),
}

/// The action a message calls for, given its bytes and what reading them
/// gave: `single` as one request object, `batch` as an array of them, and
/// `invalid_id` the ID of the message when it is at least an object with an
/// ID. A message that starts neither an object nor an array is a parse
/// error; an empty batch is an invalid request.
pub open spec fn action_of<R>(
    data: Seq<u8>,
    single: Option<R>,
    batch: Option<Seq<R>>,
    invalid_id: Option<Id>,
) -> Result<Result<R, Seq<R>>, (Id, ErrorCode)> {
    let unreadable = match invalid_id {
        Some(id) => (id, ErrorCode::InvalidRequest),
        None => (Id::Null, ErrorCode::ParseError),
    };
    if data.len() > 0 && data[0] == 123u8 {
        match single {
            Some(r) => Ok(Ok(r)),
            None => Err(unreadable),
        }
    } else if data.len() > 0 && data[0] == 91u8 {
        match batch {
            Some(b) => if b.len() > 0 {
                Ok(Err(b))
            } else {
                Err((Id::Null, ErrorCode::InvalidRequest))
            },
            None => Err(unreadable),
        }
    } else {
        Err((Id::Null, ErrorCode::ParseError))
    }
}

/// A message that starts an array and reads as a non-empty list of calls
/// runs exactly that list as a batch, whatever its length, even a single
/// call; only a message that starts an object runs a single call, and it
/// does whenever it reads as one; a message that starts neither is a parse
/// error.
pub proof fn lemma_action_of<R>(data: Seq<u8>, single: Option<R>, batch: Option<Seq<R>>, invalid_id: Option<Id>)
    ensures
        data.len() > 0 && data[0] == 91u8 && batch is Some && batch->0.len() > 0 ==> action_of(
            data,
            single,
            batch,
            invalid_id,
        ) == Ok::<Result<R, Seq<R>>, (Id, ErrorCode)>(Err(batch->0)),
        data.len() > 0 && data[0] == 123u8 && single is Some ==> action_of(data, single, batch, invalid_id)
            == Ok::<Result<R, Seq<R>>, (Id, ErrorCode)>(Ok(single->0)),
        action_of(data, single, batch, invalid_id) is Ok && action_of(data, single, batch, invalid_id)->Ok_0 is Ok
            ==> data.len() > 0 && data[0] == 123u8 && single is Some,
        action_of(data, single, batch, invalid_id) is Ok && action_of(data, single, batch, invalid_id)->Ok_0 is Err
            ==> data.len() > 0 && data[0] == 91u8 && batch == Some(action_of(data, single, batch, invalid_id)->Ok_0->Err_0)
            && action_of(data, single, batch, invalid_id)->Ok_0->Err_0.len() > 0,
        !(data.len() > 0 && (data[0] == 123u8 || data[0] == 91u8)) ==> action_of(data, single, batch, invalid_id)
            == Err::<Result<R, Seq<R>>, (Id, ErrorCode)>((Id::Null, ErrorCode::ParseError)),
{
}

/// Whether an action is the one that `action_of` names.
pub open spec fn is_action<R>(action: MessageAction<R>, expected: Result<Result<R, Seq<R>>, (Id, ErrorCode)>) -> bool {
    match expected {
        Ok(Ok(r)) => action == MessageAction::ExecuteSingle(r),
        Ok(Err(b)) => action matches MessageAction::ExecuteBatch(v) && v@ == b,
        Err((id, code)) => action == MessageAction::<R>::ReplyError(id, code),
    }
}

/// Decides what to do with a message from a client, given its bytes and
/// what reading them as a request, as a batch of requests and as an object
/// with an ID gave.
pub fn message_action<R>(data: &[u8], single: Option<R>, batch: Option<Vec<R>>, invalid_id: Option<Id>) -> (res:
    MessageAction<R>)
    ensures
        is_action(
            res,
            action_of(
                data@,
                single,
                match batch {
                    Some(b) => Some(b@),
                    None => None,
                },
                invalid_id,
            ),
        ),
        data@.len() > 0 && data@[0] == 91u8 && batch is Some && batch->0@.len() > 0 ==> (res matches MessageAction::ExecuteBatch(v)
            && v@ == batch->0@),
        data@.len() > 0 && data@[0] == 123u8 && single is Some ==> res == MessageAction::ExecuteSingle(single->0),
        res is ExecuteSingle ==> data@.len() > 0 && data@[0] == 123u8,
        res is ExecuteBatch ==> data@.len() > 0 && data@[0] == 91u8,
        !(data@.len() > 0 && (data@[0] == 123u8 || data@[0] == 91u8)) ==> res == MessageAction::<R>::ReplyError(
            Id::Null,
            ErrorCode::ParseError,
        ),
{
    if data.len() > 0 && data[0] == 123u8 {
        match single {
            Some(r) => MessageAction::ExecuteSingle(r),
            None => {
                let (id, code) = prepare_error(invalid_id);
                MessageAction::ReplyError(id, code)
            },
        }
    } else if data.len() > 0 && data[0] == 91u8 {
        match batch {
            Some(b) => if b.len() > 0 {
                MessageAction::ExecuteBatch(b)
            } else {
                MessageAction::ReplyError(Id::Null, ErrorCode::InvalidRequest)
            },
            None => {
                let (id, code) = prepare_error(invalid_id);
                MessageAction::ReplyError(id, code)
            },
        }
    } else {
        MessageAction::ReplyError(Id::Null, ErrorCode::ParseError)
    }
}

/// A call of the middleware's hooks.
#[derive(Debug, Clone, Copy, PartialEq, Eq, Structural)]
pub enum MiddlewareEvent {
    /// `on_request`: a message came in.
    OnRequest,
    /// `on_call`: a method call is run.
    OnCall,
    /// `on_result`: a method call finished, successfully or not.
    OnResult(bool),
    /// `on_response`: the answer to the message was handed over for sending.
    OnResponse,
}

/// One `OnCall` and `OnResult` pair per call result.
pub open spec fn call_events(results: Seq<bool>) -> Seq<MiddlewareEvent>
    decreases results.len(),
{
    if results.len() == 0 {
        Seq::empty()
    } else {
        call_events(results.drop_last()) + seq![MiddlewareEvent::OnCall, MiddlewareEvent::OnResult(results.last())]
    }
}

/// The hooks a message triggers, in order: `on_request` first; then, for
/// each call that is run, `on_call` and `on_result` with whether it
/// succeeded; and last `on_response`. A single call and an error answer
/// always end with `on_response`; a batch does once its joined answer was
/// handed over for sending.
pub open spec fn events_of<R>(action: MessageAction<R>, results: Seq<bool>, response_sent: bool) -> Seq<
    MiddlewareEvent,
> {
    match action {
        MessageAction::ReplyError(_, _) => seq![MiddlewareEvent::OnRequest, MiddlewareEvent::OnResponse],
        MessageAction::ExecuteSingle(_) => seq![MiddlewareEvent::OnRequest] + call_events(results) + seq![
            MiddlewareEvent::OnResponse,
        ],
        MessageAction::ExecuteBatch(_) => seq![MiddlewareEvent::OnRequest] + call_events(results) + if response_sent {
            seq![MiddlewareEvent::OnResponse]
        } else {
            Seq::empty()
        },
    }
}

/// The hooks of the middleware that handling a message triggers, given the
/// action taken, whether each call that was run succeeded (a call of an
/// unknown method, or one refused for lack of resources, did not), and
/// whether the joined answer to a batch was handed over for sending.
pub fn middleware_events<R>(action: &MessageAction<R>, results: &Vec<bool>, response_sent: bool) -> (res: Vec<
    MiddlewareEvent,
>)
    requires
        *action is ExecuteSingle ==> results@.len() == 1,
        *action matches MessageAction::ExecuteBatch(b) ==> results@.len() == b@.len(),
    ensures
        res@ == events_of(*action, results@, response_sent),
{
    let mut out: Vec<MiddlewareEvent> = Vec::new();
    out.push(MiddlewareEvent::OnRequest);
    match action {
        MessageAction::ReplyError(_, _) => {
            out.push(MiddlewareEvent::OnResponse);
            assert(out@ =~= events_of(*action, results@, response_sent));
            return out;
        },
        _ => {},
    }
    let mut i: usize = 0;
    while i < results.len()
        invariant
            i <= results@.len(),
            out@ == seq![MiddlewareEvent::OnRequest] + call_events(results@.take(i as int)),
        decreases results@.len() - i,
    {
        assert(results@.take(i + 1).drop_last() =~= results@.take(i as int));
        out.push(MiddlewareEvent::OnCall);
        out.push(MiddlewareEvent::OnResult(results[i]));
        proof {
            let t = results@.take(i + 1);
            assert(call_events(t) == call_events(results@.take(i as int)) + seq![
                MiddlewareEvent::OnCall,
                MiddlewareEvent::OnResult(results@[i as int]),
            ]);
        }
        assert(out@ =~= seq![MiddlewareEvent::OnRequest] + call_events(results@.take(i + 1)));
        i = i + 1;
    }
    assert(results@.take(i as int) =~= results@);
    let single = match action {
        MessageAction::ExecuteSingle(_) => true,
        _ => false,
    };
    if single || response_sent {
        out.push(MiddlewareEvent::OnResponse);
    }
    assert(out@ =~= events_of(*action, results@, response_sent));
    out
}

} // verus!
