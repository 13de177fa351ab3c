//! Driving a collection of futures to completion alongside another one.

use futures_util::future::FutureExt;
use std::future::Future;
use std::task::Context;
use vstd::prelude::*;

verus! {

#[verifier::external_type_specification]
#[verifier::external_body]
pub struct ExContext<'a>(Context<'a>);

/// Polls the future at `index` once through `futures_util`'s `FutureExt::poll_unpin`
/// and reports whether it completed. Only that future is touched: the others
/// keep their values and places. Whether the polled one completed, and what
/// it holds afterwards, depend on the future and on what it waits for, so
/// nothing is claimed of them.
#[verifier::external_body]
fn poll_at<F: Future + Unpin>(futures: &mut Vec<F>, index: usize, cx: &mut Context) -> (ready: bool)
    requires
        index < old(futures)@.len(),
    ensures
        final(futures)@.len() == old(futures)@.len(),
        forall|j: int| 0 <= j < old(futures)@.len() && j != index ==> final(futures)@[j] == old(futures)@[j],
{
    futures[index].poll_unpin(cx).is_ready()
}

/// This is a flexible collection of futures that need to be driven to completion
/// alongside some other future, such as connection handlers that need to be
/// handled along with a listener for new connections.
pub struct FutureDriver<F> {
    futures: Vec<F>,
}

impl<F> FutureDriver<F> {
    /// The futures not completed yet.
    pub closed spec fn spec_futures(&self) -> Seq<F> {
        self.futures@
    }

    /// A driver without futures.
    pub fn new() -> (res: Self)
        ensures
            res.spec_futures() == Seq::<F>::empty(),
    {
        FutureDriver { futures: Vec::new() }
    }

    /// Get the count of remaining futures on this driver
    pub fn count(&self) -> (res: usize)
        ensures
            res == self.spec_futures().len(),
    {
        self.futures.len()
    }

    /// Add a new future to this driver
    pub fn add(&mut self, future: F)
        ensures
            final(self).spec_futures() == old(self).spec_futures().push(future),
    {
        self.futures.push(future);
    }
}

impl<F: Future + Unpin> FutureDriver<F> {
    /// Settles the poll of the future at `index`: a future that completed is
    /// dropped, and the last one takes its place, to be polled next; a future
    /// still pending stays. Returns the index of the next future to poll.
    pub fn settle_poll(&mut self, index: usize, ready: bool) -> (next: usize)
        requires
            index < old(self).spec_futures().len(),
        ensures
            ready ==> final(self).spec_futures() == old(self).spec_futures().update(
                index as int,
                old(self).spec_futures().last(),
            ).drop_last() && next == index,
            !ready ==> final(self).spec_futures() == old(self).spec_futures() && next == index + 1,
    {
        let len = self.futures.len();
        if ready {
            self.futures.swap_remove(index);
            index
        } else {
            assert(index < len);
            index + 1
        }
    }

    /// Polls every future once and drops those that completed, and returns
    /// how many completed. A completed future is replaced by the last one,
    /// which is polled next, so each future is polled exactly once; those
    /// still pending stay.
    pub fn drive(&mut self, cx: &mut Context) -> (completed: usize)
        ensures
            completed <= old(self).spec_futures().len(),
            final(self).spec_futures().len() == old(self).spec_futures().len() - completed,
    {
        let total = self.futures.len();
        let ghost n = self.futures@.len();
        let mut completed: usize = 0;
        let mut i: usize = 0;
        while i < self.futures.len()
            invariant
                i <= self.futures@.len(),
                self.futures@.len() + completed == n,
                n == old(self).futures@.len(),
                n == total,
            decreases self.futures@.len() - i,
        {
            let ready = poll_at(&mut self.futures, i, cx);
            i = self.settle_poll(i, ready);
            if ready {
                completed = completed + 1;
            }
        }
        completed
    }

    /// Drives every future once and reports whether none is left, which is
    /// when the driver itself has completed.
    pub fn poll_all(&mut self, cx: &mut Context) -> (done: bool)
        ensures
            done == (final(self).spec_futures().len() == 0),
            final(self).spec_futures().len() <= old(self).spec_futures().len(),
    {
        let _completed = self.drive(cx);
        self.futures.len() == 0
    }
}

} // verus!
