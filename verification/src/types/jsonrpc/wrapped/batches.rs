//! The state of all the requests a server is handling one call at a time:
//! calls are handed out as events, answered by their ID, and once every call
//! of a request is answered the answer to the request is ready to be sent.

use crate::types::error::ErrorObject;
use crate::types::jsonrpc::{Call, Notification, Output, Request, Response};
use crate::types::jsonrpc::wrapped::batch::{
    answer_output, is_settled, output_of, outputs_of, step, BatchInc, BatchRequest, BatchState, Slot,
};
use crate::types::params::Id;
use vstd::pervasive::VecAdditionalExecFns;
use vstd::prelude::*;

verus! {

/// Initial capacity of the buffers of a [`BatchesState`].
pub const BATCHES_MIN_CAPACITY: usize = 256;

/// Identifies a call handed out by a [`BatchesState`]: the request it belongs
/// to, and its slot within that request.
#[derive(Debug, Copy, Clone, PartialEq, Eq, Structural)]
pub struct BatchesElemId {
    /// Id of the batch within `BatchesState::batches`.
    pub batch_id: usize,
    /// Id of the request within the batch.
    pub request_id: usize,
}

/// Whether `b2` is the state `b` is in after handing out its next call.
pub open spec fn advanced(b: BatchState, b2: BatchState) -> bool {
    &&& b2.calls() == step(b.calls(), b.spec_slots()).1
    &&& b2.spec_slots() == step(b.calls(), b.spec_slots()).2
    &&& b2.spec_is_batch() == b.spec_is_batch()
}

/// Whether a state is the one a newly received request starts in.
pub open spec fn initial_state(b: BatchState, request: Request) -> bool {
    &&& b.spec_slots().len() == 0
    &&& match request {
        Request::Single(c) => b.calls() == seq![c] && !b.spec_is_batch(),
        Request::Batch(cs) => b.calls() == cs@ && b.spec_is_batch(),
    }
}

/// Whether a response is the answer of a ready state with slots: for a batch
/// the outputs of all slots, otherwise the output of the one slot.
pub open spec fn response_of(b: BatchState, response: Response) -> bool {
    if b.spec_is_batch() {
        response matches Response::Batch(outs) && outputs_of(b.spec_slots(), outs@)
    } else {
        response matches Response::Single(o) && output_of(b.spec_slots()[0], o)
    }
}

/// Whether visiting an entry during a scan raises an event: a request that
/// hands out a call, or one that is ready with an answer to send.
pub open spec fn stops<T>(e: Option<(BatchState, T)>) -> bool {
    match e {
        None => false,
        Some((b, _)) => step(b.calls(), b.spec_slots()).0 is Some || (b.spec_ready() && b.spec_slots().len() > 0),
    }
}

/// The first entry from `from` on that raises an event, or the number of
/// entries when none does.
pub open spec fn first_stop<T>(entries: Seq<Option<(BatchState, T)>>, from: int) -> int
    decreases entries.len() - from,
{
    if from >= entries.len() {
        entries.len() as int
    } else if stops(entries[from]) {
        from
    } else {
        first_stop(entries, from + 1)
    }
}

/// How an entry that raises no event is passed over: a free entry stays free;
/// a request that is ready (with nothing to answer) is dropped and its entry
/// freed; any other request hands out its remaining invalid calls.
pub open spec fn passes<T>(old_e: Option<(BatchState, T)>, new_e: Option<(BatchState, T)>) -> bool {
    match old_e {
        None => new_e is None,
        Some((b, u)) => if b.spec_ready() {
            new_e is None
        } else {
            new_e matches Some((b2, u2)) && u2 == u && advanced(b, b2)
        },
    }
}

/// The entries from `lo` to `hi` that passing over them frees: those ready.
pub open spec fn freed<T>(entries: Seq<Option<(BatchState, T)>>, lo: int, hi: int) -> Seq<usize>
    decreases hi - lo,
{
    if hi <= lo {
        Seq::empty()
    } else {
        let prev = freed(entries, lo, hi - 1);
        match entries[hi - 1] {
            Some((b, _)) => if b.spec_ready() {
                prev.push((hi - 1) as usize)
            } else {
                prev
            },
            None => prev,
        }
    }
}

/// The entry an entry-by-entry scan from `from` stops at is the one
/// `first_stop` names from any later point it passed without stopping.
pub proof fn lemma_first_stop_skip<T>(entries: Seq<Option<(BatchState, T)>>, from: int, k: int)
    requires
        0 <= from <= k <= entries.len(),
        forall|j: int| from <= j < k ==> !stops(#[trigger] entries[j]),
    ensures
        first_stop(entries, from) == first_stop(entries, k),
    decreases k - from,
{
    if from < k {
        lemma_first_stop_skip(entries, from + 1, k);
    }
}

/// The entry freed when passing over `e` at index `k`: `k` itself if `e` is
/// a ready request, otherwise none.
pub open spec fn freed_at<T>(e: Option<(BatchState, T)>, k: int) -> Seq<usize> {
    match e {
        Some((b, _)) => if b.spec_ready() {
            seq![k as usize]
        } else {
            Seq::empty()
        },
        None => Seq::empty(),
    }
}

/// Handing out the calls of a request that has only invalid calls left
/// settles them all: each gets its slot, and the request is ready.
pub proof fn lemma_step_none_settles(calls: Seq<Call>, slots: Seq<Slot>)
    requires
        step(calls, slots).0 is None,
        forall|i: int| 0 <= i < slots.len() ==> is_settled(#[trigger] slots[i]),
    ensures
        step(calls, slots).1.len() == 0,
        step(calls, slots).2.len() == slots.len() + calls.len(),
        forall|i: int| 0 <= i < step(calls, slots).2.len() ==> is_settled(#[trigger] step(calls, slots).2[i]),
    decreases calls.len(),
{
    if calls.len() > 0 {
        match calls[0] {
            Call::Invalid { id } => {
                let s2 = slots.push(Slot::Invalid(id));
                assert forall|i: int| 0 <= i < s2.len() implies is_settled(#[trigger] s2[i]) by {
                    if i < slots.len() {
                        assert(s2[i] == slots[i]);
                    }
                }
                lemma_step_none_settles(calls.drop_first(), s2);
            },
            _ => {},
        }
    }
}

/// A newly injected request with at least one call raises an event when
/// its entry is visited, or else (when all its calls are invalid) when it is
/// visited the next time: each request is answered or handed out.
pub proof fn lemma_injected_request_raises_event<T>(b: BatchState, u: T, request: Request)
    requires
        initial_state(b, request),
        b.calls().len() > 0,
    ensures
        stops(Some((b, u))) || forall|b2: BatchState| advanced(b, b2) ==> #[trigger] stops(Some((b2, u))),
{
    if step(b.calls(), b.spec_slots()).0 is None {
        lemma_step_none_settles(b.calls(), b.spec_slots());
        assert forall|b2: BatchState| advanced(b, b2) implies #[trigger] stops(Some((b2, u))) by {
            assert(b2.spec_ready());
        }
    }
}

/// A scan stops at an entry or at the end.
proof fn lemma_first_stop_bounded<T>(entries: Seq<Option<(BatchState, T)>>, from: int)
    requires
        0 <= from,
    ensures
        first_stop(entries, from) <= entries.len(),
    decreases entries.len() - from,
{
    if from < entries.len() && !stops(entries[from]) {
        lemma_first_stop_bounded(entries, from + 1);
    }
}

/// A scan from `from` stops at the latest at an entry that raises an event.
pub proof fn lemma_first_stop_at_most<T>(entries: Seq<Option<(BatchState, T)>>, from: int, k: int)
    requires
        0 <= from <= k < entries.len(),
        stops(entries[k]),
    ensures
        from <= first_stop(entries, from) <= k,
    decreases k - from,
{
    if from < k && !stops(entries[from]) {
        lemma_first_stop_at_most(entries, from + 1, k);
    }
}

/// After a request with at least one call is put at entry `k`, scanning is
/// sure to raise an event: the next scan does, or, when it raises none and
/// leaves `after`, the scan after it does.
pub proof fn lemma_injected_request_is_answered<T>(
    before: Seq<Option<(BatchState, T)>>,
    after: Seq<Option<(BatchState, T)>>,
    k: int,
    request: Request,
)
    requires
        0 <= k < before.len(),
        before[k] matches Some(e) && initial_state(e.0, request) && e.0.calls().len() > 0,
        after.len() == before.len(),
        first_stop(before, 0) == before.len() ==> forall|j: int| 0 <= j < before.len() ==> passes(before[j], #[trigger] after[j]),
    ensures
        first_stop(before, 0) < before.len() || first_stop(after, 0) < after.len(),
{
    let e = before[k]->0;
    lemma_injected_request_raises_event(e.0, e.1, request);
    lemma_first_stop_bounded(before, 0);
    if stops(before[k]) {
        lemma_first_stop_at_most(before, 0, k);
    } else if first_stop(before, 0) == before.len() {
        assert(passes(before[k], after[k]));
        assert(!e.0.spec_ready());
        let f = after[k]->0;
        assert(advanced(e.0, f.0) && f.1 == e.1);
        assert(stops(Some((f.0, e.1))));
        assert(after[k] == Some((f.0, e.1)));
        lemma_first_stop_at_most(after, 0, k);
    }
}

/// Once a handed-out call is answered, it can no longer be retrieved by its
/// ID: its slot holds the answer, so the ID names no pending call.
pub proof fn lemma_answered_request_is_gone<T>(
    entries: Seq<Option<(BatchState, T)>>,
    id: BatchesElemId,
    b: BatchState,
    answered: BatchState,
    u: T,
    out: Output,
)
    requires
        id.batch_id < entries.len(),
        id.request_id < b.spec_slots().len(),
        answered.spec_slots() == b.spec_slots().update(id.request_id as int, Slot::Answered(out)),
    ensures
        !pending_at(entries.update(id.batch_id as int, Some((answered, u))), id),
{
}

/// Putting a request into a free entry adds its user parameter to those of
/// the active requests, whatever the entry's place.
proof fn lemma_active_params_fill<T>(e: Seq<Option<(BatchState, T)>>, i: int, b: BatchState, u: T)
    requires
        0 <= i < e.len(),
        e[i] is None,
    ensures
        active_params(e.update(i, Some((b, u)))).to_multiset() == active_params(e).to_multiset().insert(u),
    decreases e.len(),
{
    broadcast use vstd::seq_lib::group_to_multiset_ensures;

    let f = e.update(i, Some((b, u)));
    if i == e.len() - 1 {
        assert(f.drop_last() =~= e.drop_last());
    } else {
        assert(f.drop_last() =~= e.drop_last().update(i, Some((b, u))));
        lemma_active_params_fill(e.drop_last(), i, b, u);
        match e.last() {
            Some((_, v)) => {
                assert(active_params(f) == active_params(f.drop_last()).push(v));
                assert(active_params(e) == active_params(e.drop_last()).push(v));
            },
            None => {},
        }
    }
}

/// A method call handed out by a step waits for its answer at the slot the
/// step names.
pub proof fn lemma_step_request_pending(calls: Seq<Call>, slots: Seq<Slot>)
    requires
        slots.len() + calls.len() <= usize::MAX,
    ensures
        step(calls, slots).0 matches Some(BatchInc::Request(i)) ==> i < step(calls, slots).2.len()
            && step(calls, slots).2[i as int] is Pending,
    decreases calls.len(),
{
    if calls.len() > 0 {
        match calls[0] {
            Call::Invalid { id } => {
                lemma_step_request_pending(calls.drop_first(), slots.push(Slot::Invalid(id)));
            },
            _ => {},
        }
    }
}

/// A request handed out by `next_event` can be found again by its ID until
/// it is answered: when the entry it came from still holds the state the
/// step left, its ID names a pending call.
pub proof fn lemma_handed_out_request_is_pending<T>(
    entries: Seq<Option<(BatchState, T)>>,
    k: usize,
    b: BatchState,
    b2: BatchState,
    u: T,
    index: usize,
)
    requires
        k < entries.len(),
        b.spec_slots().len() + b.calls().len() <= usize::MAX,
        step(b.calls(), b.spec_slots()).0 == Some(BatchInc::Request(index)),
        advanced(b, b2),
        entries[k as int] == Some((b2, u)),
    ensures
        pending_at(entries, BatchesElemId { batch_id: k, request_id: index }),
{
    lemma_step_request_pending(b.calls(), b.spec_slots());
}

/// Whether `id` names a method call handed out and still waiting for its answer.
pub open spec fn pending_at<T>(entries: Seq<Option<(BatchState, T)>>, id: BatchesElemId) -> bool {
    &&& id.batch_id < entries.len()
    &&& entries[id.batch_id as int] matches Some(e)
    &&& id.request_id < e.0.spec_slots().len()
    &&& e.0.spec_slots()[id.request_id as int] is Pending
}

/// The user parameters of the entries that hold a request, in order.
pub open spec fn active_params<T>(entries: Seq<Option<(BatchState, T)>>) -> Seq<T>
    decreases entries.len(),
{
    if entries.len() == 0 {
        Seq::empty()
    } else {
        let prev = active_params(entries.drop_last());
        match entries.last() {
            Some((_, u)) => prev.push(u),
            None => prev,
        }
    }
}

/// What visiting one entry gave.
enum Visit<T> {
    /// No event.
    Pass,
    /// A notification was handed out.
    Notification(Notification),
    /// A method call was handed out, at this slot.
    Request(usize),
    /// The request was ready: its answer and its user parameter.
    Ready(Response, T),
}

/// An event of a [`BatchesState`].
pub enum BatchesEvent<'a, T> {
    /// A notification has been extracted from a batch.
    Notification {
        /// Notification in question.
        notification: Notification,
        /// User parameter passed when calling [`inject`](BatchesState::inject).
        user_param: &'a mut T,
    },
    /// A request has been extracted from a batch.
    Request(BatchesRequest<'a, T>),
    /// A batch has gotten all its requests answered and a response is ready to be sent out.
    ReadyToSend {
        /// Response to send out to the JSON-RPC client.
        response: Response,
        /// User parameter passed when calling [`inject`](BatchesState::inject).
        user_param: T,
    },
}

/// A request handed out by a [`BatchesState`], borrowed from it until it is answered.
pub struct BatchesRequest<'a, T> {
    /// Id of the batch that contains this element.
    pub batch_id: usize,
    /// Inner reference to a request within a batch.
    pub request: BatchRequest<'a>,
    /// User parameter passed when calling `inject`.
    pub user_param: &'a mut T,
}

/// Collection of multiple batches.
pub struct BatchesState<T> {
    /// For each batch, the individual batch's state and the user parameter.
    batches: Vec<Option<(BatchState, T)>>,
    /// Vacant re-usable indices into `batches`. All indices here must point to a `None`.
    vacant: Vec<usize>,
}

impl<T> BatchesState<T> {
    /// The entries: for each batch its state and user parameter, or nothing.
    pub closed spec fn entries(&self) -> Seq<Option<(BatchState, T)>> {
        self.batches@
    }

    /// The free entries, to be reused last first.
    pub closed spec fn spec_vacant(&self) -> Seq<usize> {
        self.vacant@
    }

    /// The free list names distinct free entries.
    pub open spec fn wf(&self) -> bool {
        &&& self.spec_vacant().no_duplicates()
        &&& forall|i: int|
            0 <= i < self.spec_vacant().len() ==> #[trigger] self.spec_vacant()[i] < self.entries().len()
                && self.entries()[self.spec_vacant()[i] as int] is None
    }

    /// Creates a new empty `BatchesState`.
    pub fn new() -> (res: Self)
        ensures
            res.wf(),
            res.entries().len() == 0,
            res.spec_vacant().len() == 0,
    {
        BatchesState {
            batches: Vec::with_capacity(BATCHES_MIN_CAPACITY),
            vacant: Vec::with_capacity(BATCHES_MIN_CAPACITY),
        }
    }

    /// Processes one step from a batch and returns an event. Returns `None` if there is nothing
    /// to do. After you call `inject`, then this will return `Some` at least once.
    ///
    /// The entries are scanned in order up to the first one that raises an
    /// event; the ones before it are passed over.
    pub fn next_event(&mut self) -> (res: Option<BatchesEvent<'_, T>>)
        requires
            old(self).wf(),
        ensures
            final(self).wf(),
            final(self).entries().len() == old(self).entries().len(),
            forall|j: int|
                0 <= j < first_stop(old(self).entries(), 0) ==> passes(
                    old(self).entries()[j],
                    #[trigger] final(self).entries()[j],
                ),
            forall|j: int|
                first_stop(old(self).entries(), 0) < j < old(self).entries().len()
                    ==> #[trigger] final(self).entries()[j] == old(self).entries()[j],
            res is None <==> first_stop(old(self).entries(), 0) == old(self).entries().len(),
            res is None ==> final(self).spec_vacant() == old(self).spec_vacant() + freed(
                old(self).entries(),
                0,
                old(self).entries().len() as int,
            ),
            ({
                let k = first_stop(old(self).entries(), 0);
                res matches Some(BatchesEvent::ReadyToSend { response, user_param }) ==> (old(self).entries()[k]
                    matches Some(e) && e.0.spec_ready() && e.0.spec_slots().len() > 0 && response_of(e.0, response)
                    && user_param == e.1) && final(self).entries()[k] is None
                    && final(self).spec_vacant() == old(self).spec_vacant() + freed(old(self).entries(), 0, k)
                    + seq![k as usize]
            }),
            ({
                let k = first_stop(old(self).entries(), 0);
                res matches Some(BatchesEvent::Notification { notification, user_param }) ==> (old(
                    self,
                ).entries()[k] matches Some(e) && step(e.0.calls(), e.0.spec_slots()).0 == Some(
                    BatchInc::Notification(notification),
                ) && *user_param == e.1 && (final(self).entries()[k] matches Some(f) && advanced(e.0, f.0) && f.1
                    == *final(user_param))) && final(self).spec_vacant() == old(self).spec_vacant() + freed(
                    old(self).entries(),
                    0,
                    k,
                )
            }),
            ({
                let k = first_stop(old(self).entries(), 0);
                res matches Some(BatchesEvent::Request(r)) ==> (old(self).entries()[k] matches Some(e) && step(
                    e.0.calls(),
                    e.0.spec_slots(),
                ).0 == Some(BatchInc::Request(r.request.index)) && r.batch_id == k && advanced(e.0, *r.request.batch)
                    && *r.user_param == e.1) && final(self).entries()[k] == Some(
                    (*final(r.request.batch), *final(r.user_param)),
                ) && final(self).spec_vacant() == old(self).spec_vacant() + freed(old(self).entries(), 0, k)
            }),
    {
        let (k, visit) = self.advance();
        match visit {
            Visit::Pass => None,
            Visit::Ready(response, user_param) => Some(BatchesEvent::ReadyToSend { response, user_param }),
            Visit::Notification(notification) => match &mut self.batches[k] {
                Some((_, user_param)) => Some(BatchesEvent::Notification { notification, user_param }),
                None => vstd::pervasive::unreached(),
            },
            Visit::Request(index) => match &mut self.batches[k] {
                Some((batch, user_param)) => Some(
                    BatchesEvent::Request(BatchesRequest { batch_id: k, request: BatchRequest { batch, index }, user_param }),
                ),
                None => vstd::pervasive::unreached(),
            },
        }
    }

    /// Scans the entries in order, passing over each up to the first one that
    /// raises an event, and returns that entry with what visiting it gave;
    /// when none does, the number of entries and `Pass`.
    fn advance(&mut self) -> (res: (usize, Visit<T>))
        requires
            old(self).wf(),
        ensures
            final(self).wf(),
            final(self).entries().len() == old(self).entries().len(),
            res.0 == first_stop(old(self).entries(), 0),
            res.0 <= old(self).entries().len(),
            forall|j: int|
                0 <= j < res.0 ==> passes(old(self).entries()[j], #[trigger] final(self).entries()[j]),
            forall|j: int|
                res.0 < j < old(self).entries().len() ==> #[trigger] final(self).entries()[j] == old(self).entries()[j],
            res.1 is Pass <==> res.0 == old(self).entries().len(),
            res.1 is Pass ==> final(self).spec_vacant() == old(self).spec_vacant() + freed(
                old(self).entries(),
                0,
                old(self).entries().len() as int,
            ),
            res.1 matches Visit::Notification(n) ==> (old(self).entries()[res.0 as int] matches Some(e) && step(
                e.0.calls(),
                e.0.spec_slots(),
            ).0 == Some(BatchInc::Notification(n)) && (final(self).entries()[res.0 as int] matches Some(f) && f.1
                == e.1 && advanced(e.0, f.0))) && final(self).spec_vacant() == old(self).spec_vacant() + freed(
                old(self).entries(),
                0,
                res.0 as int,
            ),
            res.1 matches Visit::Request(i) ==> (old(self).entries()[res.0 as int] matches Some(e) && step(
                e.0.calls(),
                e.0.spec_slots(),
            ).0 == Some(BatchInc::Request(i)) && (final(self).entries()[res.0 as int] matches Some(f) && f.1
                == e.1 && advanced(e.0, f.0))) && final(self).spec_vacant() == old(self).spec_vacant() + freed(
                old(self).entries(),
                0,
                res.0 as int,
            ),
            res.1 matches Visit::Ready(response, u) ==> (old(self).entries()[res.0 as int] matches Some(e)
                && e.0.spec_ready() && e.0.spec_slots().len() > 0 && response_of(e.0, response) && u == e.1)
                && final(self).entries()[res.0 as int] is None && final(self).spec_vacant() == old(
                self,
            ).spec_vacant() + freed(old(self).entries(), 0, res.0 as int) + seq![res.0],
    {
        let len = self.batches.len();
        let mut k: usize = 0;
        while k < len
            invariant
                self.wf(),
                len == self.entries().len(),
                len == old(self).entries().len(),
                k <= len,
                forall|j: int| 0 <= j < k ==> !stops(#[trigger] old(self).entries()[j]),
                forall|j: int|
                    0 <= j < k ==> passes(old(self).entries()[j], #[trigger] self.entries()[j]),
                forall|j: int| k <= j < len ==> #[trigger] self.entries()[j] == old(self).entries()[j],
                self.spec_vacant() == old(self).spec_vacant() + freed(old(self).entries(), 0, k as int),
            decreases len - k,
        {
            let ghost before = *self;
            let visit = self.visit_entry(k);
            proof {
                lemma_first_stop_skip(old(self).entries(), 0, k as int);
            }
            match visit {
                Visit::Pass => {
                    proof {
                        assert(old(self).spec_vacant() + freed(old(self).entries(), 0, k + 1) =~= before.spec_vacant()
                            + freed_at(before.entries()[k as int], k as int));
                    }
                    k = k + 1;
                },
                _ => {
                    return (k, visit);
                },
            }
        }
        proof {
            lemma_first_stop_skip(old(self).entries(), 0, len as int);
        }
        (len, Visit::Pass)
    }

    /// Injects a newly received batch into the list, in the last freed entry
    /// if there is one, else in a new one. You must then call
    /// [`next_event`](BatchesState::next_event) in order to process it.
    pub fn inject(&mut self, request: Request, user_param: T)
        requires
            old(self).wf(),
        ensures
            final(self).wf(),
            old(self).spec_vacant().len() > 0 ==> ({
                let id = old(self).spec_vacant().last() as int;
                &&& final(self).spec_vacant() == old(self).spec_vacant().drop_last()
                &&& final(self).entries().len() == old(self).entries().len()
                &&& forall|j: int| 0 <= j < old(self).entries().len() && j != id ==> final(self).entries()[j] == old(
                    self,
                ).entries()[j]
                &&& final(self).entries()[id] matches Some((b, u)) && u == user_param && initial_state(b, request)
            }),
            active_params(final(self).entries()).to_multiset() == active_params(old(self).entries()).to_multiset().insert(
                user_param,
            ),
            forall|id: BatchesElemId| #[trigger] pending_at(old(self).entries(), id) ==> final(self).entries()[id.batch_id as int]
                == old(self).entries()[id.batch_id as int] && pending_at(final(self).entries(), id),
            old(self).spec_vacant().len() == 0 ==> ({
                &&& final(self).spec_vacant() == old(self).spec_vacant()
                &&& final(self).entries().drop_last() == old(self).entries()
                &&& final(self).entries().len() == old(self).entries().len() + 1
                &&& final(self).entries().last() matches Some((b, u)) && u == user_param && initial_state(b, request)
            }),
    {
        let ghost req = request;
        let batch = BatchState::from_request(request);
        match self.vacant.pop() {
            Some(id) => {
                proof {
                    assert(old(self).spec_vacant()[old(self).spec_vacant().len() - 1] == id);
                }
                let ghost before = self.entries();
                let ghost b = batch;
                let ghost u = user_param;
                self.batches.set(id, Some((batch, user_param)));
                proof {
                    assert(before[id as int] is None);
                    lemma_active_params_fill(before, id as int, b, u);
                    assert(self.entries() =~= before.update(id as int, Some((b, u))));
                    assert forall|i: int| 0 <= i < self.spec_vacant().len() implies #[trigger] self.spec_vacant()[i]
                        < self.entries().len() && self.entries()[self.spec_vacant()[i] as int] is None by {
                        assert(old(self).spec_vacant()[i] == self.spec_vacant()[i]);
                        assert(self.spec_vacant()[i] != id);
                    }
                }
            },
            None => {
                self.batches.push(Some((batch, user_param)));
                assert(self.entries().drop_last() =~= old(self).entries());
                proof {
                    broadcast use vstd::seq_lib::group_to_multiset_ensures;

                }
            },
        }
    }

    /// Returns a list of all user data associated to active batches, in the
    /// order of their entries.
    pub fn batches(&self) -> (res: Vec<&T>)
        ensures
            res@.len() == active_params(self.entries()).len(),
            forall|i: int| 0 <= i < res@.len() ==> *#[trigger] res@[i] == active_params(self.entries())[i],
    {
        let mut out: Vec<&T> = Vec::new();
        let mut j: usize = 0;
        while j < self.batches.len()
            invariant
                j <= self.entries().len(),
                out@.len() == active_params(self.entries().take(j as int)).len(),
                forall|i: int| 0 <= i < out@.len() ==> *#[trigger] out@[i] == active_params(self.entries().take(j as int))[i],
            decreases self.entries().len() - j,
        {
            assert(self.entries().take(j + 1).drop_last() =~= self.entries().take(j as int));
            match &self.batches[j] {
                Some((_, user_param)) => {
                    out.push(user_param);
                },
                None => {},
            }
            j = j + 1;
        }
        assert(self.entries().take(j as int) =~= self.entries());
        out
    }

    /// Visits entry `k`: takes its request one step further, and frees the
    /// entry when the request is ready to respond.
    fn visit_entry(&mut self, k: usize) -> (res: Visit<T>)
        requires
            old(self).wf(),
            k < old(self).entries().len(),
        ensures
            final(self).wf(),
            final(self).entries().len() == old(self).entries().len(),
            forall|j: int|
                0 <= j < old(self).entries().len() && j != k ==> #[trigger] final(self).entries()[j] == old(
                    self,
                ).entries()[j],
            res is Pass <==> !stops(old(self).entries()[k as int]),
            res is Pass ==> passes(old(self).entries()[k as int], final(self).entries()[k as int])
                && final(self).spec_vacant() == old(self).spec_vacant() + freed_at(
                old(self).entries()[k as int],
                k as int,
            ),
            res matches Visit::Notification(n) ==> (old(self).entries()[k as int] matches Some(e) && step(
                e.0.calls(),
                e.0.spec_slots(),
            ).0 == Some(BatchInc::Notification(n)) && (final(self).entries()[k as int] matches Some(f) && f.1
                == e.1 && advanced(e.0, f.0))) && final(self).spec_vacant() == old(self).spec_vacant(),
            res matches Visit::Request(i) ==> (old(self).entries()[k as int] matches Some(e) && step(
                e.0.calls(),
                e.0.spec_slots(),
            ).0 == Some(BatchInc::Request(i)) && (final(self).entries()[k as int] matches Some(f) && f.1 == e.1
                && advanced(e.0, f.0))) && final(self).spec_vacant() == old(self).spec_vacant(),
            res matches Visit::Ready(response, u) ==> (old(self).entries()[k as int] matches Some(e)
                && e.0.spec_ready() && e.0.spec_slots().len() > 0 && response_of(e.0, response) && u == e.1)
                && final(self).entries()[k as int] is None && final(self).spec_vacant() == old(
                self,
            ).spec_vacant().push(k),
    {
        proof {
            assert forall|i: int| 0 <= i < old(self).spec_vacant().len() implies #[trigger] old(
                self,
            ).spec_vacant()[i] != k || old(self).entries()[k as int] is None by {}
        }
        let mut entry: Option<(BatchState, T)> = None;
        self.batches.set_and_swap(k, &mut entry);
        match entry {
            None => Visit::Pass,
            Some((mut batch, user_param)) => {
                let ready = batch.is_ready_to_respond();
                let ghost b0 = batch;
                let inc = batch.next();
                match inc {
                    None => {
                        if ready {
                            proof {
                                assert(batch.calls() == b0.calls());
                                assert(batch.spec_slots() == b0.spec_slots());
                                assert(self.spec_vacant().push(k).no_duplicates()) by {
                                    assert forall|a: int, c: int|
                                        0 <= a < c < self.spec_vacant().push(k).len() implies self.spec_vacant().push(
                                        k,
                                    )[a] != self.spec_vacant().push(k)[c] by {
                                        if c == self.spec_vacant().len() {
                                            assert(old(self).spec_vacant()[a] != k);
                                        }
                                    }
                                }
                            }
                            self.vacant.push(k);
                            proof {
                                assert(old(self).spec_vacant() + freed_at(old(self).entries()[k as int], k as int)
                                    =~= self.spec_vacant());
                            }
                            let response = batch.into_response();
                            match response {
                                Some(r) => Visit::Ready(r, user_param),
                                None => Visit::Pass,
                            }
                        } else {
                            self.batches.set(k, Some((batch, user_param)));
                            proof {
                                assert(old(self).spec_vacant() + freed_at(old(self).entries()[k as int], k as int)
                                    =~= self.spec_vacant());
                            }
                            Visit::Pass
                        }
                    },
                    Some(BatchInc::Notification(n)) => {
                        self.batches.set(k, Some((batch, user_param)));
                        Visit::Notification(n)
                    },
                    Some(BatchInc::Request(i)) => {
                        self.batches.set(k, Some((batch, user_param)));
                        Visit::Request(i)
                    },
                }
            },
        }
    }

    /// Returns a request previously returned by [`next_event`](BatchesState::next_event) by its id.
    ///
    /// Returns `None` if the request ID is invalid or if the request has already been answered in
    /// the past.
    pub fn request_by_id(&mut self, id: BatchesElemId) -> (res: Option<BatchesRequest<'_, T>>)
        requires
            old(self).wf(),
        ensures
            pending_at(old(self).entries(), id) ==> (res matches Some(r) && r.batch_id == id.batch_id
                && r.request.index == id.request_id && (old(self).entries()[id.batch_id as int] matches Some(e)
                && *r.request.batch == e.0 && *r.user_param == e.1)),
            pending_at(old(self).entries(), id) ==> (res matches Some(r) && final(self).entries() == old(
                self,
            ).entries().update(id.batch_id as int, Some((*final(r.request.batch), *final(r.user_param))))
                && final(self).spec_vacant() == old(self).spec_vacant()),
            !pending_at(old(self).entries(), id) ==> res is None && final(self).entries() == old(self).entries()
                && final(self).spec_vacant() == old(self).spec_vacant(),
    {
        if id.batch_id < self.batches.len() {
            match &mut self.batches[id.batch_id] {
                Some((batch, user_param)) => match batch.request_by_id(id.request_id) {
                    Some(request) => Some(BatchesRequest { batch_id: id.batch_id, request, user_param }),
                    None => None,
                },
                None => None,
            }
        } else {
            None
        }
    }
}

impl<T> Default for BatchesState<T> {
    fn default() -> (res: Self)
        ensures
            res.wf(),
            res.entries().len() == 0,
            res.spec_vacant().len() == 0,
    {
        Self::new()
    }
}

impl<'a, T> BatchesRequest<'a, T> {
    /// The request is a method call waiting for its answer.
    pub open spec fn wf(&self) -> bool {
        self.request.wf()
    }

    /// Returns the id of the request within the [`BatchesState`].
    ///
    /// > **Note**: This is NOT the request id that the client passed.
    pub fn id(&self) -> (res: BatchesElemId)
        ensures
            res == (BatchesElemId { batch_id: self.batch_id, request_id: self.request.index }),
    {
        BatchesElemId { batch_id: self.batch_id, request_id: self.request.id() }
    }

    /// Returns the user parameter passed when calling [`inject`](BatchesState::inject).
    pub fn user_param(&mut self) -> (res: &mut T)
        ensures
            *res == *old(self).user_param,
            *final(self).user_param == *final(res),
            final(self).batch_id == old(self).batch_id,
            final(self).request == old(self).request,
    {
        &mut *self.user_param
    }

    /// Returns the id that the client sent out.
    pub fn request_id(&self) -> (res: &Id)
        requires
            self.wf(),
        ensures
            *res == self.request.call().id,
    {
        self.request.request_id()
    }

    /// Returns the method of this request.
    pub fn method(&self) -> (res: &str)
        requires
            self.wf(),
        ensures
            res@ == self.request.call().method@,
    {
        self.request.method()
    }

    /// Returns the raw JSON text of the parameters of this request.
    pub fn params(&self) -> (res: Option<&str>)
        requires
            self.wf(),
        ensures
            self.request.call().params matches Some(p) ==> (res matches Some(r) && r@ == p@),
            self.request.call().params is None ==> res is None,
    {
        self.request.params()
    }

    /// Responds to the request. This destroys the request object, meaning you can no longer
    /// retrieve it with [`request_by_id`](BatchesState::request_by_id) later anymore.
    ///
    /// A [`ReadyToSend`](BatchesEvent::ReadyToSend) event containing this response might be
    /// generated the next time you call [`next_event`](BatchesState::next_event).
    pub fn set_response(self, response: Result<String, ErrorObject>)
        requires
            self.wf(),
        ensures
            final(self.request.batch).calls() == old(self.request.batch).calls(),
            final(self.request.batch).spec_is_batch() == old(self.request.batch).spec_is_batch(),
            final(self.request.batch).spec_slots() == old(self.request.batch).spec_slots().update(
                self.request.index as int,
                Slot::Answered(answer_output(self.request.call().id, response)),
            ),
    {
        self.request.set_response(response)
    }
}

} // verus!
