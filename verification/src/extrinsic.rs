//! Tracking one watched submission to its terminal outcome.
//!
//! An `ExtrinsicProgress` owns the items of one status subscription, in
//! emission order: each item is either a status event or a transport
//! error that ended the stream. The two waits reduce those items with
//! the policies of `event` and are proved to return exactly
//! `track_in_block` / `track_finalized` of the owned stream.
//!
//! A live subscription delivers its items one at a time; the loop that
//! drains it feeds each event to `in_block_step` / `finalized_step` and
//! stops at the first verdict, which is the same reduction one item at
//! a time.

use vstd::prelude::*;

use crate::event::Outcome;
use crate::event::StatusEvent;
use crate::event::finalized_step;
use crate::event::in_block_step;
use crate::event::track_finalized;
use crate::event::track_in_block;

verus! {

/// The status stream of one watched submission. It is exclusively owned:
/// the subscription it stands for must not be shared, and once a wait
/// has produced an outcome no further item is consulted.
pub struct ExtrinsicProgress<H> {
    items: Vec<Result<StatusEvent<H>, String>>,
}

impl<H> View for ExtrinsicProgress<H> {
    type V = Seq<Result<StatusEvent<H>, String>>;

    closed spec fn view(&self) -> Seq<Result<StatusEvent<H>, String>> {
        self.items@
    }
}

impl<H> ExtrinsicProgress<H> {
    /// Instantiate a progress tracker over the items of a subscription,
    /// in emission order.
    pub fn new(items: Vec<Result<StatusEvent<H>, String>>) -> (r: Self)
        ensures
            r@ == items@,
    {
        ExtrinsicProgress { items }
    }

    /// The next status item, or `None` once the stream is exhausted.
    pub fn next_item(&mut self) -> (r: Option<Result<StatusEvent<H>, String>>)
        ensures
            old(self)@.len() == 0 ==> r is None && final(self)@ == old(self)@,
            old(self)@.len() > 0 ==> r == Some(old(self)@[0]) && final(self)@ == old(self)@.skip(1),
    {
        if self.items.len() == 0 {
            None
        } else {
            let item = self.items.remove(0);
            proof {
                assert(self.items@ =~= old(self)@.skip(1));
            }
            Some(item)
        }
    }

    /// Wait for the transaction to get into a block.
    ///
    /// Drains the stream and returns the in-block policy's reduction:
    /// the first inclusion or finalization succeeds with its block
    /// hash; a finality timeout or a transport error is terminal
    /// failure; every other event is ignored; exhaustion without a
    /// terminal event yields `SubscriptionClosed`.
    pub fn wait_for_in_block(self) -> (r: Outcome<H>)
        ensures
            r == track_in_block(self@),
    {
        let mut cur = self;
        loop
            invariant
                track_in_block(self@) == track_in_block(cur@),
            ensures
                cur@.len() == 0,
                track_in_block(self@) == track_in_block(cur@),
            decreases cur@.len(),
        {
            let ghost pending = cur@;
            match cur.next_item() {
                None => {
                    break;
                }
                Some(Err(detail)) => {
                    return Outcome::TransportError(detail);
                }
                Some(Ok(ev)) => {
                    match in_block_step(ev) {
                        Some(outcome) => {
                            return outcome;
                        }
                        None => {
                            proof {
                                assert(track_in_block(pending) == track_in_block(pending.skip(1)));
                            }
                        }
                    }
                }
            }
        }
        Outcome::SubscriptionClosed
    }

    /// Wait for the transaction to get into a finalized block.
    ///
    /// Identical reduction, except that only finalization succeeds:
    /// inclusion in a block is non-terminal here, since that block can
    /// still be reverted before finality.
    pub fn wait_for_finalized(self) -> (r: Outcome<H>)
        ensures
            r == track_finalized(self@),
    {
        let mut cur = self;
        loop
            invariant
                track_finalized(self@) == track_finalized(cur@),
            ensures
                cur@.len() == 0,
                track_finalized(self@) == track_finalized(cur@),
            decreases cur@.len(),
        {
            let ghost pending = cur@;
            match cur.next_item() {
                None => {
                    break;
                }
                Some(Err(detail)) => {
                    return Outcome::TransportError(detail);
                }
                Some(Ok(ev)) => {
                    match finalized_step(ev) {
                        Some(outcome) => {
                            return outcome;
                        }
                        None => {
                            proof {
                                assert(track_finalized(pending) == track_finalized(
                                    pending.skip(1),
                                ));
                            }
                        }
                    }
                }
            }
        }
        Outcome::SubscriptionClosed
    }
}

} // verus!
