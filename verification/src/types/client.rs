//! Request IDs of a client: a counter for fresh IDs and a limit on the number
//! of requests that may be pending at once.

use crate::types::error::Error;
use futures_channel::oneshot;
use std::sync::atomic::{AtomicU64, Ordering};
use std::sync::Arc;
use vstd::prelude::*;

verus! {

/// Calls `Arc::strong_count`: how many handles share the slot counter. What
/// it returns depends on the guards alive in the whole program; it is at
/// least one, the handle passed in.
#[verifier::external_body]
fn slot_count(rc: &Arc<()>) -> (res: usize)
    ensures
        res >= 1,
{
    Arc::strong_count(rc)
}

/// Calls `Arc::clone`: another handle to the same slot counter.
#[verifier::external_body]
fn share_slot(rc: &Arc<()>) -> (res: Arc<()>)
    ensures
        res == *rc,
{
    Arc::clone(rc)
}

/// Whether a new request may start when `handles` handles share the slot
/// counter: the manager holds one handle itself and each pending request
/// one more.
pub fn slot_available(handles: usize, max_concurrent_requests: usize) -> (res: bool)
    ensures
        res == (handles <= max_concurrent_requests),
{
    handles <= max_concurrent_requests
}

/// Message that the client sends to the background task.
#[derive(Debug)]
pub struct RequestMessage {
    /// Serialized message.
    pub raw: String,
    /// Request ID.
    pub id: u64,
    /// One-shot channel over which we send back the result of this request.
    pub send_back: Option<oneshot::Sender<Result<serde_json::Value, Error>>>,
}

/// Keep track of request IDs.
#[derive(Debug)]
pub struct RequestIdManager {
    /// Current pending requests.
    current_pending: Arc<()>,
    /// Max concurrent pending requests allowed.
    max_concurrent_requests: usize,
    /// Get the next request ID.
    current_id: AtomicU64,
}

impl RequestIdManager {
    /// The limit on concurrent requests.
    pub closed spec fn limit(&self) -> usize {
        self.max_concurrent_requests
    }

    /// Create a new `RequestIdManager` with the provided concurrency limit.
    pub fn new(limit: usize) -> (res: Self)
        ensures
            res.limit() == limit,
    {
        RequestIdManager {
            current_pending: Arc::new(()),
            max_concurrent_requests: limit,
            current_id: AtomicU64::new(0),
        }
    }

    /// A new handle on the slot counter, when the limit allows one more
    /// pending request. With a limit of zero no request may start.
    fn get_slot(&self) -> (res: Result<Arc<()>, Error>)
        ensures
            res is Err ==> res == Err::<Arc<()>, Error>(Error::MaxSlotsExceeded),
            self.limit() == 0 ==> res is Err,
    {
        // The manager's own handle counts too, so the count starts at one.
        let handles = slot_count(&self.current_pending);
        if !slot_available(handles, self.max_concurrent_requests) {
            Err(Error::MaxSlotsExceeded)
        } else {
            Ok(share_slot(&self.current_pending))
        }
    }

    /// Attempts to get the next request ID.
    ///
    /// Fails if request limit has been exceeded.
    pub fn next_request_id(&self) -> (res: Result<RequestIdGuard<u64>, Error>)
        ensures
            res is Err ==> res == Err::<RequestIdGuard<u64>, Error>(Error::MaxSlotsExceeded),
            self.limit() == 0 ==> res is Err,
    {
        let rc = self.get_slot()?;
        let id = self.current_id.fetch_add(1, Ordering::SeqCst);
        Ok(RequestIdGuard { id, _rc: rc })
    }

    /// Attempts to get the `n` number next IDs that only counts as one request.
    ///
    /// Fails if request limit has been exceeded.
    pub fn next_request_ids(&self, len: usize) -> (res: Result<RequestIdGuard<Vec<u64>>, Error>)
        ensures
            res is Err ==> res == Err::<RequestIdGuard<Vec<u64>>, Error>(Error::MaxSlotsExceeded),
            self.limit() == 0 ==> res is Err,
            res matches Ok(guard) ==> guard.spec_inner()@.len() == len,
    {
        let rc = self.get_slot()?;
        let mut ids: Vec<u64> = Vec::with_capacity(len);
        let mut k: usize = 0;
        while k < len
            invariant
                k <= len,
                ids@.len() == k,
            decreases len - k,
        {
            ids.push(self.current_id.fetch_add(1, Ordering::SeqCst));
            k = k + 1;
        }
        Ok(RequestIdGuard { id: ids, _rc: rc })
    }
}

/// Reference counted request ID.
#[derive(Debug)]
pub struct RequestIdGuard<T> {
    id: T,
    /// Reference count decreased when dropped.
    _rc: Arc<()>,
}

impl<T> RequestIdGuard<T> {
    /// The ID the guard holds.
    pub closed spec fn spec_inner(&self) -> T {
        self.id
    }

    /// Get the actual ID.
    pub fn inner(&self) -> (res: &T)
        ensures
            *res == self.spec_inner(),
    {
        &self.id
    }
}

} // verus!
