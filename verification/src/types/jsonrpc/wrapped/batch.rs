//! The state of one request while its calls are handed out and answered.

use crate::types::error::{ErrorCode, ErrorObject};
use crate::types::jsonrpc::{Call, MethodCall, Notification, Output, Request, Response};
use crate::types::params::Id;
use vstd::prelude::*;

verus! {

/// What became of each call that needs an answer, in the order of the calls.
#[derive(Debug)]
pub enum Slot {
    /// A method call handed out and waiting for its answer.
    Pending(MethodCall),
    /// A call answered already.
    Answered(Output),
    /// An invalid call, to be answered with an invalid-request error.
    Invalid(Id),
}

/// What handing out the next call of a request gives.
#[derive(Debug)]
pub enum BatchInc {
    /// A notification, which needs no answer.
    Notification(Notification),
    /// A method call, by its position among the slots.
    Request(usize),
}

/// The calls still to hand out and the slots, after handing out the next
/// call that is not invalid: invalid calls on the way get their slot, a
/// method call gets a pending slot.
pub open spec fn step(calls: Seq<Call>, slots: Seq<Slot>) -> (Option<BatchInc>, Seq<Call>, Seq<Slot>)
    decreases calls.len(),
{
    if calls.len() == 0 {
        (None, calls, slots)
    } else {
        match calls[0] {
            Call::Invalid { id } => step(calls.drop_first(), slots.push(Slot::Invalid(id))),
            Call::Notification(n) => (Some(BatchInc::Notification(n)), calls.drop_first(), slots),
            Call::MethodCall(c) => (
                Some(BatchInc::Request(slots.len() as usize)),
                calls.drop_first(),
                slots.push(Slot::Pending(c)),
            ),
        }
    }
}

/// Handing out calls never adds to the number of calls and slots together.
pub proof fn lemma_step_bounded(calls: Seq<Call>, slots: Seq<Slot>)
    ensures
        step(calls, slots).1.len() + step(calls, slots).2.len() <= calls.len() + slots.len(),
        step(calls, slots).0 is None ==> step(calls, slots).1.len() == 0,
        step(calls, slots).2.len() >= slots.len(),
        forall|i: int| 0 <= i < slots.len() ==> step(calls, slots).2[i] == slots[i],
    decreases calls.len(),
{
    if calls.len() > 0 {
        match calls[0] {
            Call::Invalid { id } => {
                lemma_step_bounded(calls.drop_first(), slots.push(Slot::Invalid(id)));
                let s2 = slots.push(Slot::Invalid(id));
                assert forall|i: int| 0 <= i < slots.len() implies step(calls, slots).2[i] == slots[i] by {
                    assert(s2[i] == slots[i]);
                }
            },
            _ => {},
        }
    }
}

/// Whether a slot is answered, or is an invalid call.
pub open spec fn is_settled(slot: Slot) -> bool {
    !(slot is Pending)
}

/// Whether an output is the answer a settled slot gives.
pub open spec fn output_of(slot: Slot, out: Output) -> bool {
    match slot {
        Slot::Answered(o) => out == o,
        Slot::Invalid(id) => out matches Output::Failure { error, id: oid } && oid == id && error.spec_code()
            == ErrorCode::InvalidRequest && error.spec_message() == ErrorCode::InvalidRequest.spec_message()
            && error.spec_data() is None,
        Slot::Pending(_) => false,
    }
}

/// Whether the outputs are the answers of the slots, in order.
pub open spec fn outputs_of(slots: Seq<Slot>, outs: Seq<Output>) -> bool {
    &&& outs.len() == slots.len()
    &&& forall|i: int| 0 <= i < slots.len() ==> output_of(#[trigger] slots[i], outs[i])
}

/// The state of one request.
#[derive(Debug)]
pub struct BatchState {
    /// The calls still to hand out, last first.
    to_yield: Vec<Call>,
    /// The calls that need an answer, in order.
    slots: Vec<Slot>,
    /// Whether the request was a batch.
    is_batch: bool,
}

impl BatchState {
    /// The calls still to hand out, in order.
    pub closed spec fn calls(&self) -> Seq<Call> {
        self.to_yield@.reverse()
    }

    /// The calls that need an answer, in order.
    pub closed spec fn spec_slots(&self) -> Seq<Slot> {
        self.slots@
    }

    /// Whether the request was a batch.
    pub closed spec fn spec_is_batch(&self) -> bool {
        self.is_batch
    }

    /// Whether every call was handed out and every slot is settled.
    pub open spec fn spec_ready(&self) -> bool {
        &&& self.calls().len() == 0
        &&& forall|i: int| 0 <= i < self.spec_slots().len() ==> is_settled(#[trigger] self.spec_slots()[i])
    }

    /// The state of a newly received request: its calls to hand out, no slots yet.
    pub fn from_request(request: Request) -> (res: Self)
        ensures
            request matches Request::Single(c) ==> res.calls() == seq![c] && !res.spec_is_batch(),
            request matches Request::Batch(cs) ==> res.calls() == cs@ && res.spec_is_batch(),
            res.spec_slots().len() == 0,
            res.calls().len() <= usize::MAX,
    {
        match request {
            Request::Single(call) => {
                let to_yield = vec![call];
                assert(to_yield@.reverse() =~= seq![call]);
                BatchState { to_yield, slots: Vec::new(), is_batch: false }
            },
            Request::Batch(calls) => {
                let mut calls = calls;
                let ghost all = calls@;
                let mut to_yield: Vec<Call> = Vec::new();
                while calls.len() > 0
                    invariant
                        all == calls@ + to_yield@.reverse(),
                    decreases calls@.len(),
                {
                    let c = calls.pop().unwrap();
                    proof {
                        assert(to_yield@.push(c).reverse() =~= seq![c] + to_yield@.reverse());
                    }
                    to_yield.push(c);
                }
                assert(all =~= to_yield@.reverse());
                let count = to_yield.len();
                assert(to_yield@.reverse().len() == count);
                BatchState { to_yield, slots: Vec::new(), is_batch: true }
            },
        }
    }

    /// Hands out the next call that is not invalid, giving each invalid call
    /// on the way its slot. Returns `None` once no call is left.
    pub fn next(&mut self) -> (res: Option<BatchInc>)
        ensures
            ({
                let (inc, calls, slots) = step(old(self).calls(), old(self).spec_slots());
                &&& res == inc
                &&& final(self).calls() == calls
                &&& final(self).spec_slots() == slots
                &&& final(self).spec_is_batch() == old(self).spec_is_batch()
            }),
            final(self).spec_slots().len() + final(self).calls().len() <= old(self).spec_slots().len() + old(
                self,
            ).calls().len(),
    {
        proof {
            lemma_step_bounded(old(self).calls(), old(self).spec_slots());
        }
        loop
            invariant
                step(self.calls(), self.spec_slots()) == step(old(self).calls(), old(self).spec_slots()),
                self.spec_is_batch() == old(self).spec_is_batch(),
                self.spec_slots().len() + self.calls().len() <= old(self).spec_slots().len() + old(self).calls().len(),
            decreases self.to_yield@.len(),
        {
            let ghost before = self.calls();
            match self.to_yield.pop() {
                None => {
                    assert(self.calls().len() == 0);
                    return None;
                },
                Some(call) => {
                    proof {
                        assert(before[0] == call);
                        assert(before.drop_first() =~= self.calls());
                    }
                    match call {
                        Call::Invalid { id } => {
                            self.slots.push(Slot::Invalid(id));
                        },
                        Call::Notification(n) => {
                            return Some(BatchInc::Notification(n));
                        },
                        Call::MethodCall(c) => {
                            let index = self.slots.len();
                            self.slots.push(Slot::Pending(c));
                            return Some(BatchInc::Request(index));
                        },
                    }
                },
            }
        }
    }

    /// Whether every call was handed out and answered, so that the answer to
    /// the request can be sent.
    pub fn is_ready_to_respond(&self) -> (res: bool)
        ensures
            res == self.spec_ready(),
    {
        if self.to_yield.len() > 0 {
            return false;
        }
        let mut i: usize = 0;
        while i < self.slots.len()
            invariant
                i <= self.spec_slots().len(),
                forall|j: int| 0 <= j < i ==> is_settled(#[trigger] self.spec_slots()[j]),
            decreases self.spec_slots().len() - i,
        {
            match &self.slots[i] {
                Slot::Pending(_) => {
                    assert(!is_settled(self.spec_slots()[i as int]));
                    return false;
                },
                _ => {},
            }
            i = i + 1;
        }
        true
    }

    /// The answer to the request once it is ready: none when no call needed
    /// one; for a batch, the answers in the order of the calls; otherwise the
    /// one answer.
    pub fn into_response(self) -> (res: Option<Response>)
        requires
            self.spec_ready(),
        ensures
            self.spec_slots().len() == 0 ==> res is None,
            self.spec_slots().len() > 0 && self.spec_is_batch() ==> (res matches Some(Response::Batch(outs))
                && outputs_of(self.spec_slots(), outs@)),
            self.spec_slots().len() > 0 && !self.spec_is_batch() ==> (res matches Some(Response::Single(o))
                && output_of(self.spec_slots()[0], o)),
    {
        let ghost slots = self.spec_slots();
        let is_batch = self.is_batch;
        let mut rest = self.slots;
        let mut outs: Vec<Output> = Vec::new();
        while rest.len() > 0
            invariant
                slots == outs_slots_prefix(slots, outs@.len() as int) + rest@,
                outs@.len() + rest@.len() == slots.len(),
                forall|j: int| 0 <= j < outs@.len() ==> output_of(#[trigger] slots[j], outs@[j]),
                forall|j: int| 0 <= j < slots.len() ==> is_settled(#[trigger] slots[j]),
            decreases rest@.len(),
        {
            let ghost k = outs@.len() as int;
            let slot = rest.remove(0);
            assert(slots[k] == slot);
            let out = match slot {
                Slot::Answered(o) => o,
                Slot::Invalid(id) => Output::Failure { error: ErrorObject::from_code(ErrorCode::InvalidRequest), id },
                Slot::Pending(c) => {
                    assert(!is_settled(slots[k]));
                    Output::Failure { error: ErrorObject::from_code(ErrorCode::InvalidRequest), id: c.id }
                },
            };
            outs.push(out);
        }
        if outs.len() == 0 {
            None
        } else if is_batch {
            Some(Response::Batch(outs))
        } else {
            let o = outs.remove(0);
            Some(Response::Single(o))
        }
    }
}

impl BatchState {
    /// The method call handed out at slot `id`, while it waits for its answer.
    pub fn request_by_id(&mut self, id: usize) -> (res: Option<BatchRequest<'_>>)
        ensures
            (id < old(self).spec_slots().len() && old(self).spec_slots()[id as int] is Pending) ==> (res matches Some(
                r,
            ) && *r.batch == *old(self) && r.index == id && *final(r.batch) == *final(self)),
            !(id < old(self).spec_slots().len() && old(self).spec_slots()[id as int] is Pending) ==> res is None
                && *final(self) == *old(self),
    {
        if id < self.slots.len() {
            match &self.slots[id] {
                Slot::Pending(_) => {},
                _ => return None,
            }
            Some(BatchRequest { batch: self, index: id })
        } else {
            None
        }
    }
}

/// A method call handed out and not answered yet, borrowed from the state
/// of its request.
pub struct BatchRequest<'a> {
    /// The state of the request.
    pub batch: &'a mut BatchState,
    /// The slot of the call.
    pub index: usize,
}

/// The output that answers a call with ID `id` given its result.
pub open spec fn answer_output(id: Id, response: Result<String, ErrorObject>) -> Output {
    match response {
        Ok(result) => Output::Success { result, id },
        Err(error) => Output::Failure { error, id },
    }
}

impl<'a> BatchRequest<'a> {
    /// The slot is a method call waiting for its answer.
    pub open spec fn wf(&self) -> bool {
        &&& self.index < self.batch.spec_slots().len()
        &&& self.batch.spec_slots()[self.index as int] is Pending
    }

    /// The call.
    pub open spec fn call(&self) -> MethodCall {
        self.batch.spec_slots()[self.index as int]->Pending_0
    }

    /// Returns the id of the request within the batch.
    pub fn id(&self) -> (res: usize)
        ensures
            res == self.index,
    {
        self.index
    }

    /// Returns the id that the client sent out.
    pub fn request_id(&self) -> (res: &Id)
        requires
            self.wf(),
        ensures
            *res == self.call().id,
    {
        match &self.batch.slots[self.index] {
            Slot::Pending(c) => &c.id,
            _ => vstd::pervasive::unreached(),
        }
    }

    /// Returns the method of this request.
    pub fn method(&self) -> (res: &str)
        requires
            self.wf(),
        ensures
            res@ == self.call().method@,
    {
        match &self.batch.slots[self.index] {
            Slot::Pending(c) => c.method.as_str(),
            _ => vstd::pervasive::unreached(),
        }
    }

    /// Returns the raw JSON text of the parameters of this request.
    pub fn params(&self) -> (res: Option<&str>)
        requires
            self.wf(),
        ensures
            self.call().params matches Some(p) ==> (res matches Some(r) && r@ == p@),
            self.call().params is None ==> res is None,
    {
        match &self.batch.slots[self.index] {
            Slot::Pending(c) => match &c.params {
                Some(p) => Some(p.as_str()),
                None => None,
            },
            _ => vstd::pervasive::unreached(),
        }
    }

    /// Responds to the request: its slot gets the answer, under the ID the
    /// client sent.
    pub fn set_response(self, response: Result<String, ErrorObject>)
        requires
            self.wf(),
        ensures
            final(self.batch).calls() == old(self.batch).calls(),
            final(self.batch).spec_is_batch() == old(self.batch).spec_is_batch(),
            final(self.batch).spec_slots() == old(self.batch).spec_slots().update(
                self.index as int,
                Slot::Answered(answer_output(self.call().id, response)),
            ),
    {
        let mut slot = Slot::Invalid(Id::Null);
        self.batch.slots.set_and_swap(self.index, &mut slot);
        let id = match slot {
            Slot::Pending(c) => c.id,
            _ => vstd::pervasive::unreached(),
        };
        let out = match response {
            Ok(result) => Output::Success { result, id },
            Err(error) => Output::Failure { error, id },
        };
        self.batch.slots.set(self.index, Slot::Answered(out));
    }
}

/// The first `n` slots.
pub open spec fn outs_slots_prefix(slots: Seq<Slot>, n: int) -> Seq<Slot> {
    slots.take(n)
}

} // verus!
