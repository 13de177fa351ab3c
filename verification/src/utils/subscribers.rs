//! The subscribers of a subscription method: which subscription IDs are
//! active on which connection, what a subscribe call answers and what an
//! unsubscribe call answers.

use crate::assoc::{AssocList, KeyEq};
use crate::json::json_string;
use crate::text::decimal;
use crate::types::v2::error::{ErrorCode, INVALID_SUBSCRIPTION_CODE};
use crate::types::v2::params::Id;
use crate::utils::helpers::{
    error_answer_with_data_json, invalid_subscription_type_answer, response_json, subscription_id_from_random,
    subscription_started_answer, unknown_subscription_answer, unsubscribed_answer,
};
use vstd::prelude::*;

verus! {

/// A subscription, by the connection it was made on and its ID.
#[derive(Debug, Clone, Copy, PartialEq, Eq)]
pub struct SubscriptionKey {
    /// The connection.
    pub conn_id: usize,
    /// The subscription ID.
    pub sub_id: u64,
}

impl View for SubscriptionKey {
    type V = (usize, u64);

    open spec fn view(&self) -> (usize, u64) {
        (self.conn_id, self.sub_id)
    }
}

impl KeyEq for SubscriptionKey {
    fn key_eq(&self, other: &Self) -> (res: bool) {
        self.conn_id == other.conn_id && self.sub_id == other.sub_id
    }
}

/// The largest subscription ID plus one: IDs are the low 53 bits of a random
/// number, so that a JavaScript number holds them exactly.
pub open spec fn sub_id_bound() -> int {
    0x20_0000_0000_0000
}

/// The active subscriptions of a subscription method, each with what it
/// sends its notifications through.
#[derive(Debug)]
pub struct Subscribers<V> {
    table: AssocList<SubscriptionKey, V>,
}

impl<V> Subscribers<V> {
    /// The active subscriptions, by connection and subscription ID.
    pub closed spec fn map(&self) -> Map<(usize, u64), V> {
        self.table.map()
    }

    /// The table is well formed.
    pub closed spec fn wf(&self) -> bool {
        self.table.wf()
    }

    /// No subscribers.
    pub fn new() -> (res: Self)
        ensures
            res.wf(),
            res.map() == Map::<(usize, u64), V>::empty(),
    {
        Subscribers { table: AssocList::new() }
    }

    /// Whether a subscription is active.
    pub fn contains(&self, conn_id: usize, sub_id: u64) -> (res: bool)
        requires
            self.wf(),
        ensures
            res == self.map().contains_key((conn_id, sub_id)),
    {
        self.table.find(&SubscriptionKey { conn_id, sub_id }).is_some()
    }

    /// Adds a subscription, replacing one with the same key; returns what
    /// the replaced one held.
    pub fn insert(&mut self, conn_id: usize, sub_id: u64, value: V) -> (res: Option<V>)
        requires
            old(self).wf(),
        ensures
            final(self).wf(),
            final(self).map() == old(self).map().insert((conn_id, sub_id), value),
            old(self).map().contains_key((conn_id, sub_id)) ==> res == Some(old(self).map()[(conn_id, sub_id)]),
            !old(self).map().contains_key((conn_id, sub_id)) ==> res is None,
    {
        let key = SubscriptionKey { conn_id, sub_id };
        match self.table.find(&key) {
            Some(i) => {
                proof {
                    self.table.lemma_entry_in_map(i as int);
                }
                let replaced = self.table.replace_value_at(i, value);
                Some(replaced)
            },
            None => {
                self.table.insert_new(key, value);
                None
            },
        }
    }

    /// Removes a subscription; returns what it held, if it was active.
    pub fn remove(&mut self, conn_id: usize, sub_id: u64) -> (res: Option<V>)
        requires
            old(self).wf(),
        ensures
            final(self).wf(),
            final(self).map() == old(self).map().remove((conn_id, sub_id)),
            old(self).map().contains_key((conn_id, sub_id)) ==> res == Some(old(self).map()[(conn_id, sub_id)]),
            !old(self).map().contains_key((conn_id, sub_id)) ==> res is None,
    {
        match self.table.find(&SubscriptionKey { conn_id, sub_id }) {
            Some(i) => {
                let (_, value) = self.table.remove_at(i);
                Some(value)
            },
            None => {
                assert(self.map().remove((conn_id, sub_id)) =~= self.map());
                None
            },
        }
    }

    /// A subscribe call `id` on connection `conn_id`: the subscription ID is
    /// the low 53 bits of `random`, the subscription is added under it
    /// (replacing one with the same key), and the answer to the call carries
    /// the ID.
    pub fn subscribe(&mut self, conn_id: usize, id: &Id, random: u64, value: V) -> (res: (u64, String))
        requires
            old(self).wf(),
        ensures
            final(self).wf(),
            res.0 == random % (sub_id_bound() as u64),
            final(self).map() == old(self).map().insert((conn_id, res.0), value),
            res.1@ == response_json(*id, decimal(res.0 as nat)),
    {
        let sub_id = subscription_id_from_random(random);
        let _ = self.insert(conn_id, sub_id, value);
        let answer = subscription_started_answer(id, sub_id);
        (sub_id, answer)
    }

    /// An unsubscribe call `id` on connection `conn_id`, given the
    /// subscription ID its parameters hold when they hold an integer: without
    /// one, the answer is the invalid-subscription error about the type; an
    /// active subscription is removed and the answer is `"Unsubscribed"`;
    /// otherwise the answer is the invalid-subscription error naming the ID.
    pub fn unsubscribe(&mut self, conn_id: usize, id: Id, sub_id: Option<u64>) -> (res: String)
        requires
            old(self).wf(),
        ensures
            final(self).wf(),
            sub_id is None ==> final(self).map() == old(self).map() && res@ == error_answer_with_data_json(
                ErrorCode::ServerError(INVALID_SUBSCRIPTION_CODE),
                json_string("Invalid subscription ID type, must be integer"@),
                id,
            ),
            sub_id is Some && old(self).map().contains_key((conn_id, sub_id->0)) ==> final(self).map() == old(
                self,
            ).map().remove((conn_id, sub_id->0)) && res@ == response_json(id, json_string("Unsubscribed"@)),
            sub_id is Some && !old(self).map().contains_key((conn_id, sub_id->0)) ==> final(self).map() == old(
                self,
            ).map() && res@ == error_answer_with_data_json(
                ErrorCode::ServerError(INVALID_SUBSCRIPTION_CODE),
                json_string("Invalid subscription ID="@ + decimal(sub_id->0 as nat)),
                id,
            ),
    {
        match sub_id {
            None => invalid_subscription_type_answer(id),
            Some(s) => match self.remove(conn_id, s) {
                Some(_) => unsubscribed_answer(&id),
                None => {
                    assert(old(self).map().remove((conn_id, s)) =~= old(self).map());
                    unknown_subscription_answer(id, s)
                },
            },
        }
    }
}

} // verus!
