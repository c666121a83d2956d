//! Tracking a watched submission: reduction of status streams to
//! terminal outcomes under the two wait policies.

use substrate_xt::ExtrinsicProgress;
use substrate_xt::Outcome;
use substrate_xt::StatusEvent;
use substrate_xt::finalized_step;
use substrate_xt::in_block_step;

type Item = Result<StatusEvent<u64>, String>;

fn events(evs: Vec<StatusEvent<u64>>) -> Vec<Item> {
    let mut items: Vec<Item> = Vec::new();
    for ev in evs {
        items.push(Ok(ev));
    }
    items
}

#[test]
fn in_block_wait_returns_first_inclusion() {
    let progress = ExtrinsicProgress::new(events(vec![
        StatusEvent::Ready,
        StatusEvent::Broadcast(3),
        StatusEvent::InBlock(17u64),
    ]));
    assert_eq!(progress.wait_for_in_block(), Outcome::InBlock(17));
}

#[test]
fn finalized_wait_ignores_inclusion_and_closes() {
    let progress = ExtrinsicProgress::new(events(vec![
        StatusEvent::Ready,
        StatusEvent::Broadcast(3),
        StatusEvent::InBlock(17u64),
    ]));
    assert_eq!(progress.wait_for_finalized(), Outcome::SubscriptionClosed);
}

#[test]
fn finalized_wait_returns_unique_finalization() {
    let progress = ExtrinsicProgress::new(events(vec![
        StatusEvent::InBlock(1u64),
        StatusEvent::Retracted(1),
        StatusEvent::InBlock(2),
        StatusEvent::Finalized(9),
    ]));
    assert_eq!(progress.wait_for_finalized(), Outcome::Finalized(9));
}

#[test]
fn in_block_wait_never_observes_later_finalization() {
    let progress = ExtrinsicProgress::new(events(vec![
        StatusEvent::Ready,
        StatusEvent::InBlock(1u64),
        StatusEvent::Finalized(2),
    ]));
    assert_eq!(progress.wait_for_in_block(), Outcome::InBlock(1));
}

#[test]
fn in_block_wait_accepts_direct_finalization() {
    let progress = ExtrinsicProgress::new(events(vec![StatusEvent::Finalized(4u64)]));
    assert_eq!(progress.wait_for_in_block(), Outcome::Finalized(4));
}

fn timeout_events() -> Vec<Item> {
    events(vec![
        StatusEvent::Ready,
        StatusEvent::Retracted(3u64),
        StatusEvent::FinalityTimeout(5),
        StatusEvent::Finalized(6),
    ])
}

#[test]
fn timeout_before_success_fails_both_waits() {
    let in_block = ExtrinsicProgress::new(timeout_events());
    assert_eq!(in_block.wait_for_in_block(), Outcome::FinalityTimeout);
    let finalized = ExtrinsicProgress::new(timeout_events());
    assert_eq!(finalized.wait_for_finalized(), Outcome::FinalityTimeout);
}

#[test]
fn empty_stream_closes_both_waits() {
    let in_block = ExtrinsicProgress::<u64>::new(Vec::new());
    assert_eq!(in_block.wait_for_in_block(), Outcome::SubscriptionClosed);
    let finalized = ExtrinsicProgress::<u64>::new(Vec::new());
    assert_eq!(finalized.wait_for_finalized(), Outcome::SubscriptionClosed);
}

fn noisy_events() -> Vec<Item> {
    events(vec![
        StatusEvent::Future,
        StatusEvent::Invalid,
        StatusEvent::Dropped,
        StatusEvent::Usurped(8u64),
        StatusEvent::Retracted(9),
        StatusEvent::Broadcast(0),
        StatusEvent::Ready,
        StatusEvent::Finalized(42),
    ])
}

#[test]
fn informational_events_are_ignored_by_both_waits() {
    let in_block = ExtrinsicProgress::new(noisy_events());
    assert_eq!(in_block.wait_for_in_block(), Outcome::Finalized(42));
    let finalized = ExtrinsicProgress::new(noisy_events());
    assert_eq!(finalized.wait_for_finalized(), Outcome::Finalized(42));
}

#[test]
fn transport_error_is_terminal_with_its_detail() {
    let items: Vec<Item> = vec![
        Ok(StatusEvent::Ready),
        Err("connection reset".to_string()),
        Ok(StatusEvent::Finalized(1u64)),
    ];
    let progress = ExtrinsicProgress::new(items);
    assert_eq!(
        progress.wait_for_in_block(),
        Outcome::TransportError("connection reset".to_string())
    );
}

#[test]
fn next_item_yields_items_in_emission_order() {
    let mut progress = ExtrinsicProgress::new(events(vec![
        StatusEvent::Ready,
        StatusEvent::InBlock(5u64),
    ]));
    assert_eq!(progress.next_item(), Some(Ok(StatusEvent::Ready)));
    assert_eq!(progress.next_item(), Some(Ok(StatusEvent::InBlock(5))));
    assert_eq!(progress.next_item(), None);
    assert_eq!(progress.next_item(), None);
}

#[test]
fn step_verdicts_match_their_policies() {
    assert_eq!(in_block_step(StatusEvent::InBlock(1u64)), Some(Outcome::InBlock(1)));
    assert_eq!(in_block_step(StatusEvent::Finalized(2u64)), Some(Outcome::Finalized(2)));
    assert_eq!(in_block_step(StatusEvent::FinalityTimeout(3u64)), Some(Outcome::FinalityTimeout));
    assert_eq!(in_block_step(StatusEvent::<u64>::Ready), None);
    assert_eq!(in_block_step(StatusEvent::Retracted(4u64)), None);

    assert_eq!(finalized_step(StatusEvent::InBlock(1u64)), None);
    assert_eq!(finalized_step(StatusEvent::Finalized(2u64)), Some(Outcome::Finalized(2)));
    assert_eq!(
        finalized_step(StatusEvent::FinalityTimeout(3u64)),
        Some(Outcome::FinalityTimeout)
    );
    assert_eq!(finalized_step(StatusEvent::Usurped(6u64)), None);
}
