//! Bookkeeping of the requests a client has sent and is waiting on:
//! pending method calls, pending and active subscriptions, notification
//! handlers and pending batches.
//!
//! The items kept for each request (the channels that carry answers back to
//! the caller) are never inspected here, so the manager is generic over them:
//! `C` answers a method call, `P` answers a subscription request, `S` carries
//! the notifications of a subscription and `B` answers a batch.

use crate::assoc::{AssocList, KeyEq};
use crate::types::v2::params::{SubscriptionId, SubscriptionIdView};
use std::collections::HashMap;
use vstd::prelude::*;

verus! {

broadcast use vstd::std_specs::hash::group_hash_axioms;

/// Request Id.
pub type RequestId = u64;

/// Name of the method that cancels a subscription.
pub type UnsubscribeMethod = String;

/// Type of request that is still waiting for an answer, or an active
/// subscription.
#[derive(Debug, Clone, Copy, PartialEq, Eq)]
pub enum RequestStatus {
    /// The method call is waiting for a response,
    PendingMethodCall,
    /// The subscription is waiting for a response to become an active subscription.
    PendingSubscription,
    /// An active subscription.
    Subscription,
    /// Invalid request ID.
    Invalid,
}

/// What is kept for each request ID.
pub enum Kind<C, P, S> {
    /// A method call waiting for its response, with where to send it.
    PendingMethodCall(Option<C>),
    /// A subscription waiting for its response: the ID reserved for the
    /// unsubscribe request, where to send the answer, the unsubscribe method.
    PendingSubscription((RequestId, P, UnsubscribeMethod)),
    /// An active subscription: the ID reserved for the unsubscribe request,
    /// where to send notifications, the unsubscribe method.
    Subscription((RequestId, S, UnsubscribeMethod)),
    /// A handler of notifications of a method.
    NotificationHandler(S),
}

/// Batch state.
pub struct BatchState<B> {
    /// For each request ID of the batch, its position in the batch.
    pub order: HashMap<RequestId, usize>,
    /// Where to send the answer.
    pub send_back: B,
}

/// The request IDs of a batch in ascending order are its key.
pub open spec fn ids_sorted(s: Seq<u64>) -> bool {
    forall|i: int, j: int| 0 <= i < j < s.len() ==> s[i] <= s[j]
}

/// The ascending arrangement of a sequence of request IDs.
pub open spec fn sorted_ids(s: Seq<u64>) -> Seq<u64> {
    choose|t: Seq<u64>| ids_sorted(t) && t.to_multiset() == s.to_multiset()
}

/// For each ID of a batch, the position at which it last occurs.
pub open spec fn batch_order(s: Seq<u64>) -> Map<u64, usize>
    decreases s.len(),
{
    if s.len() == 0 {
        Map::empty()
    } else {
        batch_order(s.drop_last()).insert(s.last(), (s.len() - 1) as usize)
    }
}

/// The positions of a batch fit its key: the IDs that have a position are
/// exactly those of the key, and each position is below its length.
pub open spec fn order_fits(key: Seq<u64>, order: Map<u64, usize>) -> bool {
    &&& forall|id: u64| #[trigger] order.contains_key(id) <==> key.contains(id)
    &&& forall|id: u64| #[trigger] order.contains_key(id) ==> order[id] < key.len()
}

/// The positions of a batch are those of its IDs.
proof fn lemma_batch_order_domain(s: Seq<u64>)
    requires
        s.len() <= usize::MAX,
    ensures
        forall|id: u64| #[trigger] batch_order(s).contains_key(id) <==> s.contains(id),
        forall|id: u64| #[trigger] batch_order(s).contains_key(id) ==> batch_order(s)[id] < s.len(),
    decreases s.len(),
{
    if s.len() > 0 {
        let rest = s.drop_last();
        lemma_batch_order_domain(rest);
        assert(batch_order(s) == batch_order(rest).insert(s.last(), (s.len() - 1) as usize));
        assert(s[s.len() - 1] == s.last());
        assert forall|id: u64| #[trigger] batch_order(s).contains_key(id) <==> s.contains(id) by {
            if s.contains(id) && id != s.last() {
                let i = choose|i: int| 0 <= i < s.len() && s[i] == id;
                assert(rest[i] == id);
            }
            if rest.contains(id) {
                let i = choose|i: int| 0 <= i < rest.len() && rest[i] == id;
                assert(s[i] == id);
            }
        }
    }
}

/// The positions of a batch fit the key it is kept under.
proof fn lemma_batch_order_fits(s: Seq<u64>)
    requires
        s.len() <= usize::MAX,
    ensures
        order_fits(sorted_ids(s), batch_order(s)),
{
    broadcast use vstd::seq_lib::group_to_multiset_ensures;

    lemma_batch_order_domain(s);
    lemma_sorted_ids(s);
    let k = sorted_ids(s);
    vstd::seq_lib::to_multiset_len(s);
    vstd::seq_lib::to_multiset_len(k);
    assert forall|id: u64| #[trigger] batch_order(s).contains_key(id) <==> k.contains(id) by {
        vstd::seq_lib::to_multiset_contains(s, id);
        vstd::seq_lib::to_multiset_contains(k, id);
    }
}

/// Two ascending sequences with the same elements are equal.
pub proof fn lemma_sorted_ids_unique(a: Seq<u64>, b: Seq<u64>)
    requires
        ids_sorted(a),
        ids_sorted(b),
        a.to_multiset() == b.to_multiset(),
    ensures
        a == b,
    decreases a.len(),
{
    broadcast use vstd::seq_lib::group_to_multiset_ensures;

    vstd::seq_lib::to_multiset_len(a);
    vstd::seq_lib::to_multiset_len(b);
    if a.len() == 0 {
        assert(a =~= b);
    } else {
        vstd::seq_lib::to_multiset_contains(a, a[0]);
        vstd::seq_lib::to_multiset_contains(b, a[0]);
        vstd::seq_lib::to_multiset_contains(a, b[0]);
        vstd::seq_lib::to_multiset_contains(b, b[0]);
        assert(a.contains(a[0]));
        assert(b.contains(b[0]));
        let j = choose|j: int| 0 <= j < b.len() && b[j] == a[0];
        let k = choose|k: int| 0 <= k < a.len() && a[k] == b[0];
        assert(a[0] >= b[0]) by {
            if j > 0 {
                assert(b[0] <= b[j]);
            }
        }
        assert(b[0] >= a[0]) by {
            if k > 0 {
                assert(a[0] <= a[k]);
            }
        }
        vstd::seq_lib::to_multiset_remove(a, 0);
        vstd::seq_lib::to_multiset_remove(b, 0);
        assert(a.remove(0) =~= a.drop_first());
        assert(b.remove(0) =~= b.drop_first());
        lemma_sorted_ids_unique(a.drop_first(), b.drop_first());
        assert(a =~= b) by {
            assert forall|i: int| 0 <= i < a.len() implies a[i] == b[i] by {
                if i > 0 {
                    assert(a[i] == a.drop_first()[i - 1]);
                    assert(b[i] == b.drop_first()[i - 1]);
                }
            }
        }
    }
}

/// Arranges request IDs in ascending order.
fn sort_ids(ids: &Vec<u64>) -> (res: Vec<u64>)
    ensures
        ids_sorted(res@),
        res@.to_multiset() == ids@.to_multiset(),
        res@ == sorted_ids(ids@),
{
    broadcast use vstd::seq_lib::group_to_multiset_ensures;

    let mut out: Vec<u64> = Vec::new();
    let mut i: usize = 0;
    while i < ids.len()
        invariant
            i <= ids@.len(),
            ids_sorted(out@),
            out@.to_multiset() == ids@.take(i as int).to_multiset(),
        decreases ids@.len() - i,
    {
        let x = ids[i];
        let mut pos: usize = 0;
        while pos < out.len() && out[pos] <= x
            invariant
                pos <= out@.len(),
                forall|j: int| 0 <= j < pos ==> out@[j] <= x,
            decreases out@.len() - pos,
        {
            pos = pos + 1;
        }
        let ghost before = out@;
        out.insert(pos, x);
        proof {
            vstd::seq_lib::to_multiset_insert(before, pos as int, x);
            assert(ids@.take(i + 1) =~= ids@.take(i as int).push(x));
            vstd::seq_lib::to_multiset_build(ids@.take(i as int), x);
            assert forall|a: int, b: int| 0 <= a < b < out@.len() implies out@[a] <= out@[b] by {
                if b < pos {
                    assert(out@[a] == before[a] && out@[b] == before[b]);
                } else if b == pos {
                    assert(out@[a] == before[a]);
                } else if a < pos {
                    assert(out@[a] == before[a] && out@[b] == before[b - 1]);
                } else if a == pos {
                    assert(out@[b] == before[b - 1]);
                    assert(pos < before.len() && before[pos as int] > x);
                    assert(before[pos as int] <= before[b - 1] || b - 1 == pos);
                } else {
                    assert(out@[a] == before[a - 1] && out@[b] == before[b - 1]);
                }
            }
        }
        i = i + 1;
    }
    proof {
        assert(ids@.take(ids@.len() as int) =~= ids@);
        let t = sorted_ids(ids@);
        assert(ids_sorted(out@) && out@.to_multiset() == ids@.to_multiset());
        lemma_sorted_ids_unique(t, out@);
    }
    out
}

/// Calls `HashMap::get_mut`: a mutable reference to the value stored for
/// `k`, if there is one; writing through it updates that value and nothing
/// else.
#[verifier::external_body]
fn map_get_mut<'a, V>(m: &'a mut HashMap<RequestId, V>, k: &RequestId) -> (res: Option<&'a mut V>)
    ensures
        res is None ==> !old(m)@.contains_key(*k) && final(m)@ == old(m)@,
        res is Some ==> old(m)@.contains_key(*k) && *res->0 == old(m)@[*k] && final(m)@ == old(
            m,
        )@.insert(*k, *final(res->0)),
{
    m.get_mut(k)
}

/// Manages and monitors JSON-RPC v2 method calls and subscriptions.
pub struct RequestManager<C, P, S, B> {
    /// List of requests that are waiting for a response from the server.
    requests: HashMap<RequestId, Kind<C, P, S>>,
    /// Reverse lookup, to find a request ID by subscription ID.
    subscriptions: AssocList<SubscriptionId, RequestId>,
    /// Pending batch requests, by their request IDs in ascending order.
    batches: AssocList<Vec<RequestId>, BatchState<B>>,
}

impl<C, P, S, B> RequestManager<C, P, S, B> {
    /// The requests, by request ID.
    pub closed spec fn requests(&self) -> Map<RequestId, Kind<C, P, S>> {
        self.requests@
    }

    /// The request ID of each subscription, by subscription ID.
    pub closed spec fn subscriptions(&self) -> Map<SubscriptionIdView, RequestId> {
        self.subscriptions.map()
    }

    /// The pending batches, by their request IDs in ascending order.
    pub closed spec fn batches(&self) -> Map<Seq<RequestId>, BatchState<B>> {
        self.batches.map()
    }

    /// The internal lists are well formed and every batch key is ascending.
    pub closed spec fn wf(&self) -> bool {
        &&& self.subscriptions.wf()
        &&& self.batches.wf()
        &&& forall|k: Seq<RequestId>| #[trigger] self.batches.map().contains_key(k) ==> ids_sorted(k)
        &&& forall|k: Seq<RequestId>| #[trigger] self.batches.map().contains_key(k) ==> order_fits(
            k,
            self.batches.map()[k].order@,
        )
    }

    /// Create a new `RequestManager`.
    pub fn new() -> (res: Self)
        ensures
            res.wf(),
            res.requests() == Map::<RequestId, Kind<C, P, S>>::empty(),
            res.subscriptions() == Map::<SubscriptionIdView, RequestId>::empty(),
            res.batches() == Map::<Seq<RequestId>, BatchState<B>>::empty(),
    {
        RequestManager {
            requests: HashMap::new(),
            subscriptions: AssocList::new(),
            batches: AssocList::new(),
        }
    }

    /// Tries to insert a new pending call.
    ///
    /// Returns `Ok` if the pending request was successfully inserted otherwise `Err`.
    pub fn insert_pending_call(&mut self, id: RequestId, send_back: Option<C>) -> (res: Result<(), Option<C>>)
        requires
            old(self).wf(),
        ensures
            final(self).wf(),
            final(self).subscriptions() == old(self).subscriptions(),
            final(self).batches() == old(self).batches(),
            old(self).requests().contains_key(id) ==> res == Err::<(), Option<C>>(send_back)
                && final(self).requests() == old(self).requests(),
            !old(self).requests().contains_key(id) ==> res is Ok && final(self).requests()
                == old(self).requests().insert(id, Kind::PendingMethodCall(send_back)),
    {
        if self.requests.contains_key(&id) {
            Err(send_back)
        } else {
            self.requests.insert(id, Kind::PendingMethodCall(send_back));
            Ok(())
        }
    }

    /// Tries to insert a new batch request.
    ///
    /// Returns `Ok` if the pending request was successfully inserted otherwise `Err`.
    pub fn insert_pending_batch(&mut self, batch: Vec<RequestId>, send_back: B) -> (res: Result<(), B>)
        requires
            old(self).wf(),
        ensures
            final(self).wf(),
            final(self).requests() == old(self).requests(),
            final(self).subscriptions() == old(self).subscriptions(),
            old(self).batches().contains_key(sorted_ids(batch@)) ==> res == Err::<(), B>(send_back)
                && final(self).batches() == old(self).batches(),
            !old(self).batches().contains_key(sorted_ids(batch@)) ==> {
                &&& res is Ok
                &&& final(self).batches().dom() == old(self).batches().dom().insert(sorted_ids(batch@))
                &&& forall|k: Seq<RequestId>| #[trigger] old(self).batches().contains_key(k)
                    ==> final(self).batches()[k] == old(self).batches()[k]
                &&& final(self).batches()[sorted_ids(batch@)].order@ == batch_order(batch@)
                &&& final(self).batches()[sorted_ids(batch@)].send_back == send_back
            },
    {
        let mut order: HashMap<RequestId, usize> = HashMap::new();
        let mut idx: usize = 0;
        while idx < batch.len()
            invariant
                idx <= batch@.len(),
                order@ == batch_order(batch@.take(idx as int)),
            decreases batch@.len() - idx,
        {
            order.insert(batch[idx], idx);
            proof {
                assert(batch@.take(idx + 1).drop_last() =~= batch@.take(idx as int));
            }
            idx = idx + 1;
        }
        proof {
            assert(batch@.take(batch@.len() as int) =~= batch@);
            lemma_batch_order_fits(batch@);
        }
        let key = sort_ids(&batch);
        match self.batches.find(&key) {
            Some(_) => Err(send_back),
            None => {
                let ghost k = key@;
                self.batches.insert_new(key, BatchState { order, send_back });
                proof {
                    assert(self.batches.map().dom() =~= old(self).batches.map().dom().insert(k));
                }
                Ok(())
            },
        }
    }

    /// Tries to insert a new pending subscription and reserves a slot for a
    /// "potential" unsubscription request.
    ///
    /// Returns `Ok` if the pending request was successfully inserted otherwise `Err`.
    pub fn insert_pending_subscription(
        &mut self,
        sub_req_id: RequestId,
        unsub_req_id: RequestId,
        send_back: P,
        unsubscribe_method: UnsubscribeMethod,
    ) -> (res: Result<(), P>)
        requires
            old(self).wf(),
        ensures
            final(self).wf(),
            final(self).subscriptions() == old(self).subscriptions(),
            final(self).batches() == old(self).batches(),
            res is Ok <==> (!old(self).requests().contains_key(sub_req_id)
                && !old(self).requests().contains_key(unsub_req_id) && sub_req_id != unsub_req_id),
            res is Ok ==> final(self).requests() == old(self).requests().insert(
                sub_req_id,
                Kind::PendingSubscription((unsub_req_id, send_back, unsubscribe_method)),
            ).insert(unsub_req_id, Kind::PendingMethodCall(None)),
            res is Err ==> res == Err::<(), P>(send_back) && final(self).requests() == old(self).requests(),
    {
        if !self.requests.contains_key(&sub_req_id) && !self.requests.contains_key(&unsub_req_id)
            && sub_req_id != unsub_req_id {
            self.requests.insert(
                sub_req_id,
                Kind::PendingSubscription((unsub_req_id, send_back, unsubscribe_method)),
            );
            self.requests.insert(unsub_req_id, Kind::PendingMethodCall(None));
            Ok(())
        } else {
            Err(send_back)
        }
    }

    /// Tries to insert a new subscription.
    ///
    /// Returns `Ok` if the pending request was successfully inserted otherwise `Err`.
    pub fn insert_subscription(
        &mut self,
        sub_req_id: RequestId,
        unsub_req_id: RequestId,
        subscription_id: SubscriptionId,
        send_back: S,
        unsubscribe_method: UnsubscribeMethod,
    ) -> (res: Result<(), S>)
        requires
            old(self).wf(),
        ensures
            final(self).wf(),
            final(self).batches() == old(self).batches(),
            res is Ok <==> (!old(self).requests().contains_key(sub_req_id)
                && !old(self).subscriptions().contains_key(subscription_id@)),
            res is Ok ==> final(self).requests() == old(self).requests().insert(
                sub_req_id,
                Kind::Subscription((unsub_req_id, send_back, unsubscribe_method)),
            ) && final(self).subscriptions() == old(self).subscriptions().insert(
                subscription_id@,
                sub_req_id,
            ),
            res is Err ==> res == Err::<(), S>(send_back) && final(self).requests() == old(self).requests() && final(self).subscriptions() == old(self).subscriptions(),
    {
        if self.requests.contains_key(&sub_req_id) {
            return Err(send_back);
        }
        match self.subscriptions.find(&subscription_id) {
            Some(_) => Err(send_back),
            None => {
                self.requests.insert(
                    sub_req_id,
                    Kind::Subscription((unsub_req_id, send_back, unsubscribe_method)),
                );
                self.subscriptions.insert_new(subscription_id, sub_req_id);
                Ok(())
            },
        }
    }

    /// Inserts a handler of incoming notifications.
    ///
    /// Returns `Err` with the handler if the request ID or the subscription ID
    /// is taken already.
    pub fn insert_notification_handler(
        &mut self,
        sub_req_id: RequestId,
        subscription_id: SubscriptionId,
        send_back: S,
    ) -> (res: Result<(), S>)
        requires
            old(self).wf(),
        ensures
            final(self).wf(),
            final(self).batches() == old(self).batches(),
            res is Ok <==> (!old(self).requests().contains_key(sub_req_id)
                && !old(self).subscriptions().contains_key(subscription_id@)),
            res is Ok ==> final(self).requests() == old(self).requests().insert(
                sub_req_id,
                Kind::NotificationHandler(send_back),
            ) && final(self).subscriptions() == old(self).subscriptions().insert(
                subscription_id@,
                sub_req_id,
            ),
            res is Err ==> res == Err::<(), S>(send_back) && final(self).requests() == old(self).requests() && final(self).subscriptions() == old(self).subscriptions(),
    {
        if self.requests.contains_key(&sub_req_id) {
            return Err(send_back);
        }
        match self.subscriptions.find(&subscription_id) {
            Some(_) => Err(send_back),
            None => {
                self.requests.insert(sub_req_id, Kind::NotificationHandler(send_back));
                self.subscriptions.insert_new(subscription_id, sub_req_id);
                Ok(())
            },
        }
    }

    /// Tries to complete a pending subscription.
    ///
    /// Returns `Some` if the subscription was completed otherwise `None`.
    pub fn complete_pending_subscription(&mut self, request_id: RequestId) -> (res: Option<
        (RequestId, P, UnsubscribeMethod),
    >)
        requires
            old(self).wf(),
        ensures
            final(self).wf(),
            final(self).subscriptions() == old(self).subscriptions(),
            final(self).batches() == old(self).batches(),
            res is Some <==> (old(self).requests().contains_key(request_id) && old(self).requests()[request_id] is PendingSubscription),
            res is Some ==> Kind::<C, P, S>::PendingSubscription(res->0) == old(self).requests()[request_id] && final(self).requests() == old(self).requests().remove(
                request_id,
            ),
            res is None ==> final(self).requests() == old(self).requests(),
    {
        let is_pending = match self.requests.get(&request_id) {
            Some(Kind::PendingSubscription(_)) => true,
            _ => false,
        };
        if !is_pending {
            return None;
        }
        match self.requests.remove(&request_id) {
            Some(Kind::PendingSubscription(send_back)) => Some(send_back),
            _ => None,
        }
    }

    /// Tries to complete a pending batch request.
    ///
    /// Returns `Some` if the batch was completed otherwise `None`.
    pub fn complete_pending_batch(&mut self, batch: Vec<RequestId>) -> (res: Option<BatchState<B>>)
        requires
            old(self).wf(),
        ensures
            final(self).wf(),
            final(self).requests() == old(self).requests(),
            final(self).subscriptions() == old(self).subscriptions(),
            res is Some <==> old(self).batches().contains_key(sorted_ids(batch@)),
            res is Some ==> res->0 == old(self).batches()[sorted_ids(batch@)] && final(self).batches() == old(self).batches().remove(sorted_ids(batch@)),
            res matches Some(state) ==> order_fits(sorted_ids(batch@), state.order@),
            res is None ==> *final(self) == *old(self),
    {
        let key = sort_ids(&batch);
        match self.batches.find(&key) {
            Some(i) => {
                let (_digest, state) = self.batches.remove_at(i);
                Some(state)
            },
            None => None,
        }
    }

    /// Tries to complete a pending call.
    ///
    /// Returns `Some` if the call was completed otherwise `None`.
    pub fn complete_pending_call(&mut self, request_id: RequestId) -> (res: Option<Option<C>>)
        requires
            old(self).wf(),
        ensures
            final(self).wf(),
            final(self).subscriptions() == old(self).subscriptions(),
            final(self).batches() == old(self).batches(),
            res is Some <==> (old(self).requests().contains_key(request_id) && old(self).requests()[request_id] is PendingMethodCall),
            res is Some ==> Kind::<C, P, S>::PendingMethodCall(res->0) == old(self).requests()[request_id] && final(self).requests() == old(self).requests().remove(
                request_id,
            ),
            res is None ==> final(self).requests() == old(self).requests(),
    {
        let is_pending = match self.requests.get(&request_id) {
            Some(Kind::PendingMethodCall(_)) => true,
            _ => false,
        };
        if !is_pending {
            return None;
        }
        match self.requests.remove(&request_id) {
            Some(Kind::PendingMethodCall(send_back)) => Some(send_back),
            _ => None,
        }
    }

    /// Tries to remove a subscription.
    ///
    /// Returns `Some` if the subscription was removed otherwise `None`.
    pub fn remove_subscription(&mut self, request_id: RequestId, subscription_id: SubscriptionId) -> (res:
        Option<(RequestId, S, UnsubscribeMethod, SubscriptionId)>)
        requires
            old(self).wf(),
        ensures
            final(self).wf(),
            final(self).batches() == old(self).batches(),
            res is Some <==> (old(self).requests().contains_key(request_id) && old(self).requests()[request_id] is Subscription && old(self).subscriptions().contains_key(
                subscription_id@,
            )),
            res matches Some(r) ==> {
                &&& Kind::<C, P, S>::Subscription((r.0, r.1, r.2)) == old(self).requests()[request_id]
                &&& r.3@ == subscription_id@
                &&& final(self).requests() == old(self).requests().remove(request_id)
                &&& final(self).subscriptions() == old(self).subscriptions().remove(subscription_id@)
            },
            res is None ==> final(self).requests() == old(self).requests() && final(self).subscriptions() == old(self).subscriptions(),
    {
        let is_subscription = match self.requests.get(&request_id) {
            Some(Kind::Subscription(_)) => true,
            _ => false,
        };
        if !is_subscription {
            return None;
        }
        let pos = match self.subscriptions.find(&subscription_id) {
            Some(pos) => pos,
            None => return None,
        };
        let (sub_id, _req_id) = self.subscriptions.remove_at(pos);
        match self.requests.remove(&request_id) {
            Some(Kind::Subscription((unsub_req_id, send_back, unsub))) => Some(
                (unsub_req_id, send_back, unsub, sub_id),
            ),
            _ => None,
        }
    }

    /// Returns the status of a request ID.
    pub fn request_status(&mut self, id: &RequestId) -> (res: RequestStatus)
        ensures
            *final(self) == *old(self),
            res == request_status_of(old(self).requests(), *id),
    {
        match self.requests.get(id) {
            None => RequestStatus::Invalid,
            Some(Kind::PendingMethodCall(_)) => RequestStatus::PendingMethodCall,
            Some(Kind::PendingSubscription(_)) => RequestStatus::PendingSubscription,
            Some(Kind::Subscription(_)) => RequestStatus::Subscription,
            Some(Kind::NotificationHandler(_)) => RequestStatus::Subscription,
        }
    }

    /// Get a mutable reference to underlying `Sink` in order to send messages to the subscription.
    ///
    /// Returns `Some` if the `request_id` was registered as a subscription otherwise `None`.
    pub fn as_subscription_mut(&mut self, request_id: &RequestId) -> (res: Option<&mut S>)
        requires
            old(self).wf(),
        ensures
            final(self).wf(),
            final(self).subscriptions() == old(self).subscriptions(),
            final(self).batches() == old(self).batches(),
            res is Some <==> (old(self).requests().contains_key(*request_id) && old(self).requests()[*request_id] is Subscription),
            res is Some ==> ({
                let (unsub_id, sink, method) = old(self).requests()[*request_id]->Subscription_0;
                &&& *res->0 == sink
                &&& final(self).requests() == old(self).requests().insert(
                    *request_id,
                    Kind::Subscription((unsub_id, *final(res->0), method)),
                )
            }),
            res is None ==> final(self).requests() == old(self).requests(),
    {
        match map_get_mut(&mut self.requests, request_id) {
            Some(Kind::Subscription((_, sink, _))) => Some(sink),
            _ => None,
        }
    }

    /// Get a mutable reference to underlying `Sink` in order to send incoming notifications to
    /// the handler.
    ///
    /// Returns `Some` if the `request_id` was registered as a NotificationHandler otherwise `None`.
    pub fn as_notification_handler_mut(&mut self, request_id: &RequestId) -> (res: Option<&mut S>)
        requires
            old(self).wf(),
        ensures
            final(self).wf(),
            final(self).subscriptions() == old(self).subscriptions(),
            final(self).batches() == old(self).batches(),
            res is Some <==> (old(self).requests().contains_key(*request_id) && old(self).requests()[*request_id] is NotificationHandler),
            res is Some ==> ({
                &&& *res->0 == old(self).requests()[*request_id]->NotificationHandler_0
                &&& final(self).requests() == old(self).requests().insert(
                    *request_id,
                    Kind::NotificationHandler(*final(res->0)),
                )
            }),
            res is None ==> final(self).requests() == old(self).requests(),
    {
        match map_get_mut(&mut self.requests, request_id) {
            Some(Kind::NotificationHandler(sink)) => Some(sink),
            _ => None,
        }
    }

    /// Reverse lookup to get the request ID for a subscription ID.
    ///
    /// Returns `Some` if the subscription ID was registered as a subscription otherwise `None`.
    pub fn get_request_id_by_subscription_id(&self, sub_id: &SubscriptionId) -> (res: Option<RequestId>)
        requires
            self.wf(),
        ensures
            res is Some <==> self.subscriptions().contains_key(sub_id@),
            res matches Some(r) ==> r == self.subscriptions()[sub_id@],
    {
        match self.subscriptions.get(sub_id) {
            Some(r) => Some(*r),
            None => None,
        }
    }
}

/// The status of a request ID in a map of requests.
pub open spec fn request_status_of<C, P, S>(requests: Map<RequestId, Kind<C, P, S>>, id: RequestId) -> RequestStatus {
    if !requests.contains_key(id) {
        RequestStatus::Invalid
    } else {
        match requests[id] {
            Kind::PendingMethodCall(_) => RequestStatus::PendingMethodCall,
            Kind::PendingSubscription(_) => RequestStatus::PendingSubscription,
            Kind::Subscription(_) => RequestStatus::Subscription,
            Kind::NotificationHandler(_) => RequestStatus::Subscription,
        }
    }
}

/// The ascending arrangement of request IDs exists: it is ascending and holds
/// the same IDs, each as often as `s` does.
pub proof fn lemma_sorted_ids(s: Seq<u64>)
    ensures
        ids_sorted(sorted_ids(s)),
        sorted_ids(s).to_multiset() == s.to_multiset(),
{
    let leq = |a: u64, b: u64| a <= b;
    assert(vstd::relations::total_ordering(leq));
    s.lemma_sort_by_ensures(leq);
    let t = s.sort_by(leq);
    assert(ids_sorted(t)) by {
        assert forall|i: int, j: int| 0 <= i < j < t.len() implies t[i] <= t[j] by {
            assert(leq(t[i], t[j]));
        }
    }
}

/// A batch is found by its request IDs in any order: two arrangements of the
/// same IDs have the same key.
pub proof fn lemma_batch_key_ignores_order(a: Seq<u64>, b: Seq<u64>)
    requires
        a.to_multiset() == b.to_multiset(),
    ensures
        sorted_ids(a) == sorted_ids(b),
{
    lemma_sorted_ids(a);
    lemma_sorted_ids(b);
    lemma_sorted_ids_unique(sorted_ids(a), sorted_ids(b));
}

/// Inserting a pending call and then completing it gives back what was
/// inserted and leaves the requests as they were before.
pub proof fn lemma_pending_call_roundtrip<C, P, S>(requests: Map<RequestId, Kind<C, P, S>>, id: RequestId, send_back: Option<C>)
    requires
        !requests.contains_key(id),
    ensures
        request_status_of(requests.insert(id, Kind::PendingMethodCall(send_back)), id) == RequestStatus::PendingMethodCall,
        requests.insert(id, Kind::PendingMethodCall(send_back))[id] == Kind::<C, P, S>::PendingMethodCall(send_back),
        requests.insert(id, Kind::PendingMethodCall(send_back)).remove(id) == requests,
{
    assert(requests.insert(id, Kind::PendingMethodCall(send_back)).remove(id) =~= requests);
}

/// A pending subscription reserves its unsubscribe ID as a pending call, and
/// completing the subscription releases only the subscription's own ID.
pub proof fn lemma_pending_subscription_reserves<C, P, S>(
    requests: Map<RequestId, Kind<C, P, S>>,
    sub_id: RequestId,
    unsub_id: RequestId,
    send_back: P,
    method: UnsubscribeMethod,
)
    requires
        !requests.contains_key(sub_id),
        !requests.contains_key(unsub_id),
        sub_id != unsub_id,
    ensures
        ({
            let after = requests.insert(sub_id, Kind::PendingSubscription((unsub_id, send_back, method))).insert(
                unsub_id,
                Kind::PendingMethodCall(None),
            );
            &&& request_status_of(after, sub_id) == RequestStatus::PendingSubscription
            &&& request_status_of(after, unsub_id) == RequestStatus::PendingMethodCall
            &&& after.remove(sub_id) == requests.insert(unsub_id, Kind::PendingMethodCall(None))
        }),
{
    let after = requests.insert(sub_id, Kind::PendingSubscription((unsub_id, send_back, method))).insert(
        unsub_id,
        Kind::PendingMethodCall(None),
    );
    assert(after.remove(sub_id) =~= requests.insert(unsub_id, Kind::PendingMethodCall(None)));
}

/// Inserting an active subscription and then removing it by the same request
/// and subscription IDs leaves both maps as they were.
pub proof fn lemma_subscription_roundtrip<C, P, S>(
    requests: Map<RequestId, Kind<C, P, S>>,
    subscriptions: Map<SubscriptionIdView, RequestId>,
    req_id: RequestId,
    sub_id: SubscriptionIdView,
    kind: (RequestId, S, UnsubscribeMethod),
)
    requires
        !requests.contains_key(req_id),
        !subscriptions.contains_key(sub_id),
    ensures
        request_status_of(requests.insert(req_id, Kind::Subscription(kind)), req_id) == RequestStatus::Subscription,
        requests.insert(req_id, Kind::Subscription(kind)).remove(req_id) == requests,
        subscriptions.insert(sub_id, req_id).remove(sub_id) == subscriptions,
{
    assert(requests.insert(req_id, Kind::Subscription(kind)).remove(req_id) =~= requests);
    assert(subscriptions.insert(sub_id, req_id).remove(sub_id) =~= subscriptions);
}

} // verus!
