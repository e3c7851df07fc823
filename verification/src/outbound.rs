//! The outbound side of the transport, seen from this core: a queue of
//! addressed requests. A broadcast enqueues one request and never waits for
//! delivery; the surrounding node process drains the queue and performs the
//! actual socket writes, so a send's failure never becomes a handler's
//! failure.

use vstd::prelude::*;

use crate::message::{Request, RequestV};

verus! {

/// The outbound request queue. Its view is the sequence of requests enqueued
/// so far, oldest first.
#[derive(Clone, Debug, PartialEq, Eq)]
pub struct Outbound {
    pub requests: Vec<Request>,
}

impl View for Outbound {
    type V = Seq<RequestV>;

    open spec fn view(&self) -> Seq<RequestV> {
        self.requests@.map(|i: int, r: Request| r@)
    }
}

impl Outbound {
    /// Creates an empty outbound queue.
    pub fn new() -> (r: Outbound)
        ensures
            r@ == Seq::<RequestV>::empty(),
    {
        let r = Outbound { requests: Vec::new() };
        proof {
            assert(r@ =~= Seq::<RequestV>::empty());
        }
        r
    }

    /// Enqueues one addressed request, fire and forget.
    pub fn broadcast(&mut self, request: Request)
        ensures
            final(self)@ == old(self)@.push(request@),
    {
        let ghost prev = self@;
        self.requests.push(request);
        proof {
            assert(self@ =~= prev.push(request@));
        }
    }
}

} // verus!
