//! Status events of a watched submission and their reduction to a
//! terminal outcome.
//!
//! A status subscription delivers an ordered stream of `StatusEvent`s.
//! Two wait policies reduce that stream: `reduce_in_block` accepts the
//! first inclusion in a block, while `reduce_finalized` accepts only
//! finality. Both treat a node-signalled finality timeout as terminal
//! failure and ignore every other event. The reducers are total over a
//! closed sum type, so no event kind is dropped silently.
//!
//! `track_in_block` / `track_finalized` extend the reducers to streams
//! whose items may also be transport errors; those are what the
//! executable waits of `ExtrinsicProgress` are proved against.

use vstd::prelude::*;

verus! {

/// One status update for a watched submission, pushed by the node.
///
/// `H` is the block-hash type of the ledger. Events of one subscription
/// arrive in emission order.
#[derive(Debug, PartialEq, Eq)]
pub enum StatusEvent<H> {
    /// The transaction is in the ready queue.
    Ready,
    /// The transaction was broadcast to the given number of peers.
    Broadcast(usize),
    /// The transaction is part of the block with this hash.
    InBlock(H),
    /// The block with this hash was retracted; the transaction may
    /// still be included again later.
    Retracted(H),
    /// The node gave up waiting for the block with this hash to be
    /// finalized.
    FinalityTimeout(H),
    /// The block with this hash, containing the transaction, is final.
    Finalized(H),
    /// The transaction was replaced in the pool by another one with
    /// this hash.
    Usurped(H),
    /// The transaction was dropped from the pool.
    Dropped,
    /// The transaction is invalid.
    Invalid,
    /// The transaction depends on state that is not yet available.
    Future,
}

/// The terminal result of tracking one submission. Exactly one outcome
/// is produced per tracked submission; no event is consulted after it.
///
/// A failure to construct the envelope in the first place surfaces as a
/// `ConstructionError` outcome when a submission attempt is begun from
/// a construction result (see `begin_submission`); the waits themselves
/// never produce it.
#[derive(Debug, PartialEq, Eq)]
pub enum Outcome<H> {
    /// The transaction reached a block with this hash (accepted as
    /// success only by the in-block wait policy).
    InBlock(H),
    /// The transaction reached a finalized block with this hash.
    Finalized(H),
    /// The node signalled that it gave up waiting for finality.
    FinalityTimeout,
    /// The status stream ended without a terminal event.
    SubscriptionClosed,
    /// The transport failed mid-stream, with its detail.
    TransportError(String),
    /// The envelope could not be constructed, with the detail.
    ConstructionError(String),
}

/// What the in-block wait policy decides on one event: `None` is
/// "ignore and keep waiting", `Some` is the terminal outcome.
///
/// Inclusion and finality both succeed here; a finality timeout fails;
/// everything else (retraction, usurpation, drops, invalidity) is
/// informational for this policy, because the node may still include
/// the transaction later.
pub open spec fn in_block_verdict<H>(ev: StatusEvent<H>) -> Option<Outcome<H>> {
    match ev {
        StatusEvent::InBlock(h) => Some(Outcome::InBlock(h)),
        StatusEvent::Finalized(h) => Some(Outcome::Finalized(h)),
        StatusEvent::FinalityTimeout(_) => Some(Outcome::FinalityTimeout),
        StatusEvent::Ready | StatusEvent::Broadcast(_) | StatusEvent::Retracted(_)
        | StatusEvent::Usurped(_) | StatusEvent::Dropped | StatusEvent::Invalid
        | StatusEvent::Future => None,
    }
}

/// What the finality wait policy decides on one event. Only finality
/// succeeds; inclusion is explicitly non-terminal, since a block can
/// still be reverted before it is final.
pub open spec fn finalized_verdict<H>(ev: StatusEvent<H>) -> Option<Outcome<H>> {
    match ev {
        StatusEvent::Finalized(h) => Some(Outcome::Finalized(h)),
        StatusEvent::FinalityTimeout(_) => Some(Outcome::FinalityTimeout),
        StatusEvent::Ready | StatusEvent::Broadcast(_) | StatusEvent::InBlock(_)
        | StatusEvent::Retracted(_) | StatusEvent::Usurped(_) | StatusEvent::Dropped
        | StatusEvent::Invalid | StatusEvent::Future => None,
    }
}

/// The in-block policy over a whole event sequence: the verdict of the
/// first event that has one, or `SubscriptionClosed` if none does.
pub open spec fn reduce_in_block<H>(events: Seq<StatusEvent<H>>) -> Outcome<H>
    decreases events.len(),
{
    if events.len() == 0 {
        Outcome::SubscriptionClosed
    } else {
        match in_block_verdict(events[0]) {
            Some(o) => o,
            None => reduce_in_block(events.skip(1)),
        }
    }
}

/// The finality policy over a whole event sequence.
pub open spec fn reduce_finalized<H>(events: Seq<StatusEvent<H>>) -> Outcome<H>
    decreases events.len(),
{
    if events.len() == 0 {
        Outcome::SubscriptionClosed
    } else {
        match finalized_verdict(events[0]) {
            Some(o) => o,
            None => reduce_finalized(events.skip(1)),
        }
    }
}

/// The in-block policy over a stream whose items may be transport
/// errors: an error item is terminal with its detail.
pub open spec fn track_in_block<H>(items: Seq<Result<StatusEvent<H>, String>>) -> Outcome<H>
    decreases items.len(),
{
    if items.len() == 0 {
        Outcome::SubscriptionClosed
    } else {
        match items[0] {
            Err(detail) => Outcome::TransportError(detail),
            Ok(ev) => match in_block_verdict(ev) {
                Some(o) => o,
                None => track_in_block(items.skip(1)),
            },
        }
    }
}

/// The finality policy over a stream whose items may be transport
/// errors.
pub open spec fn track_finalized<H>(items: Seq<Result<StatusEvent<H>, String>>) -> Outcome<H>
    decreases items.len(),
{
    if items.len() == 0 {
        Outcome::SubscriptionClosed
    } else {
        match items[0] {
            Err(detail) => Outcome::TransportError(detail),
            Ok(ev) => match finalized_verdict(ev) {
                Some(o) => o,
                None => track_finalized(items.skip(1)),
            },
        }
    }
}

/// An error-free event sequence, seen as a stream of subscription
/// items.
pub open spec fn as_items<H>(events: Seq<StatusEvent<H>>) -> Seq<Result<StatusEvent<H>, String>> {
    events.map_values(|ev: StatusEvent<H>| Result::<StatusEvent<H>, String>::Ok(ev))
}

/// The in-block policy applied to one event, executable form.
///
/// This is the per-event step a live drain loop takes: feed each
/// arriving event in order; the first `Some` is the outcome and no
/// later event may be consulted.
pub fn in_block_step<H>(ev: StatusEvent<H>) -> (r: Option<Outcome<H>>)
    ensures
        r == in_block_verdict(ev),
{
    match ev {
        StatusEvent::InBlock(h) => Some(Outcome::InBlock(h)),
        StatusEvent::Finalized(h) => Some(Outcome::Finalized(h)),
        StatusEvent::FinalityTimeout(_) => Some(Outcome::FinalityTimeout),
        StatusEvent::Ready | StatusEvent::Broadcast(_) | StatusEvent::Retracted(_)
        | StatusEvent::Usurped(_) | StatusEvent::Dropped | StatusEvent::Invalid
        | StatusEvent::Future => None,
    }
}

/// The finality policy applied to one event, executable form.
pub fn finalized_step<H>(ev: StatusEvent<H>) -> (r: Option<Outcome<H>>)
    ensures
        r == finalized_verdict(ev),
{
    match ev {
        StatusEvent::Finalized(h) => Some(Outcome::Finalized(h)),
        StatusEvent::FinalityTimeout(_) => Some(Outcome::FinalityTimeout),
        StatusEvent::Ready | StatusEvent::Broadcast(_) | StatusEvent::InBlock(_)
        | StatusEvent::Retracted(_) | StatusEvent::Usurped(_) | StatusEvent::Dropped
        | StatusEvent::Invalid | StatusEvent::Future => None,
    }
}

/// Events on which a policy has no verdict do not change the outcome:
/// reducing a sequence equals reducing it from the first decisive
/// event on.
pub proof fn lemma_verdictless_prefix_ignored<H>(events: Seq<StatusEvent<H>>, i: int)
    requires
        0 <= i <= events.len(),
        forall|k: int| 0 <= k < i ==> in_block_verdict(events[k]) is None,
        forall|k: int| 0 <= k < i ==> finalized_verdict(events[k]) is None,
    ensures
        reduce_in_block(events) == reduce_in_block(events.skip(i)),
        reduce_finalized(events) == reduce_finalized(events.skip(i)),
    decreases i,
{
    if i > 0 {
        let rest = events.skip(1);
        assert forall|k: int| 0 <= k < i - 1 implies in_block_verdict(rest[k]) is None
            && finalized_verdict(rest[k]) is None by {
            assert(rest[k] == events[k + 1]);
        }
        lemma_verdictless_prefix_ignored(rest, i - 1);
        assert(rest.skip(i - 1) =~= events.skip(i));
    } else {
        assert(events.skip(0) =~= events);
    }
}

/// If a sequence holds exactly one `Finalized` event and no finality
/// timeout, the finality wait returns that event's block hash; any
/// preceding `InBlock` or `Retracted` (or any other event) is ignored.
pub proof fn lemma_unique_finalized_wins<H>(events: Seq<StatusEvent<H>>, i: int, h: H)
    requires
        0 <= i < events.len(),
        events[i] == StatusEvent::Finalized(h),
        forall|k: int| 0 <= k < events.len() && k != i ==> !(events[k] is Finalized),
        forall|k: int| 0 <= k < events.len() ==> !(events[k] is FinalityTimeout),
    ensures
        reduce_finalized(events) == Outcome::<H>::Finalized(h),
    decreases i,
{
    if i == 0 {
        assert(finalized_verdict(events[0]) == Some(Outcome::<H>::Finalized(h)));
    } else {
        assert(finalized_verdict(events[0]) is None);
        let rest = events.skip(1);
        assert forall|k: int| 0 <= k < rest.len() implies
            (k != i - 1 ==> !(rest[k] is Finalized)) && !(rest[k] is FinalityTimeout) by {
            assert(rest[k] == events[k + 1]);
        }
        assert(rest[i - 1] == events[i]);
        lemma_unique_finalized_wins(rest, i - 1, h);
    }
}

/// If the first decisive event for the in-block policy is `InBlock`,
/// the in-block wait terminates on it: a later `Finalized` with a
/// different hash is never observed.
pub proof fn lemma_in_block_stops_at_first<H>(
    events: Seq<StatusEvent<H>>,
    i: int,
    j: int,
    h1: H,
    h2: H,
)
    requires
        0 <= i < j < events.len(),
        events[i] == StatusEvent::InBlock(h1),
        events[j] == StatusEvent::Finalized(h2),
        h1 != h2,
        forall|k: int| 0 <= k < i ==> in_block_verdict(events[k]) is None,
    ensures
        reduce_in_block(events) == Outcome::<H>::InBlock(h1),
        reduce_in_block(events) != Outcome::<H>::Finalized(h2),
{
    assert forall|k: int| 0 <= k < i implies finalized_verdict(events[k]) is None by {
        assert(in_block_verdict(events[k]) is None);
    }
    lemma_verdictless_prefix_ignored(events, i);
    assert(events.skip(i)[0] == events[i]);
}

/// If a finality timeout arrives before any success event, both wait
/// policies return the timeout outcome.
pub proof fn lemma_timeout_before_success<H>(events: Seq<StatusEvent<H>>, i: int)
    requires
        0 <= i < events.len(),
        events[i] is FinalityTimeout,
        forall|k: int| 0 <= k < i ==> !(events[k] is InBlock) && !(events[k] is Finalized),
    ensures
        reduce_in_block(events) == Outcome::<H>::FinalityTimeout,
        reduce_finalized(events) == Outcome::<H>::FinalityTimeout,
    decreases i,
{
    if events[0] is FinalityTimeout {
    } else {
        assert(in_block_verdict(events[0]) is None);
        assert(finalized_verdict(events[0]) is None);
        let rest = events.skip(1);
        assert(rest[i - 1] == events[i]);
        assert forall|k: int| 0 <= k < i - 1 implies
            !(rest[k] is InBlock) && !(rest[k] is Finalized) by {
            assert(rest[k] == events[k + 1]);
        }
        lemma_timeout_before_success(rest, i - 1);
    }
}

/// An empty or closed stream with no events yields `SubscriptionClosed`
/// for both waits.
pub proof fn lemma_empty_stream_closes<H>()
    ensures
        reduce_in_block(Seq::<StatusEvent<H>>::empty()) == Outcome::<H>::SubscriptionClosed,
        reduce_finalized(Seq::<StatusEvent<H>>::empty()) == Outcome::<H>::SubscriptionClosed,
        track_in_block(Seq::<Result<StatusEvent<H>, String>>::empty())
            == Outcome::<H>::SubscriptionClosed,
        track_finalized(Seq::<Result<StatusEvent<H>, String>>::empty())
            == Outcome::<H>::SubscriptionClosed,
{
}

/// On an error-free stream, tracking agrees with the pure event
/// reducers: the laws stated over event sequences carry over to the
/// executable waits.
pub proof fn lemma_track_of_events<H>(events: Seq<StatusEvent<H>>)
    ensures
        track_in_block(as_items(events)) == reduce_in_block(events),
        track_finalized(as_items(events)) == reduce_finalized(events),
    decreases events.len(),
{
    let items = as_items(events);
    if events.len() == 0 {
        assert(items =~= Seq::<Result<StatusEvent<H>, String>>::empty());
    } else {
        assert(items[0] == Result::<StatusEvent<H>, String>::Ok(events[0]));
        lemma_track_of_events(events.skip(1));
        assert(items.skip(1) =~= as_items(events.skip(1)));
    }
}

} // verus!
