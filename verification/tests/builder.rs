//! Constructing envelopes and interpreting submission replies.

use substrate_xt::Envelope;
use substrate_xt::ExtrinsicProgress;
use substrate_xt::Error;
use substrate_xt::ExtrinsicError;
use substrate_xt::MemoryState;
use substrate_xt::MockSigner;
use substrate_xt::Outcome;
use substrate_xt::RpcExternalities;
use substrate_xt::SequenceExt;
use substrate_xt::StatusEvent;
use substrate_xt::Signer;
use substrate_xt::begin_submission;
use substrate_xt::construct_extrinsic;
use substrate_xt::outcome_result;
use substrate_xt::signing_payload;
use substrate_xt::submit_outcome;

#[test]
fn mock_signer_exposes_address_and_keyed_signature() {
    let signer = MockSigner::new(vec![0xAAu8, 0xBB], vec![0x01u8]);
    assert_eq!(signer.public_address(), vec![0xAAu8, 0xBB]);
    assert_eq!(signer.sign(&vec![9u8, 8]), vec![0x01u8, 9, 8]);
}

#[test]
fn signing_payload_is_call_then_extensions() {
    assert_eq!(signing_payload(&vec![1u8, 2], &vec![3u8, 4]), vec![1u8, 2, 3, 4]);
    assert_eq!(signing_payload(&Vec::new(), &vec![3u8]), vec![3u8]);
}

#[test]
fn envelope_encodes_its_parts_in_wire_order() {
    let envelope = Envelope {
        call: vec![4u8],
        address: vec![1u8],
        signature: vec![2u8, 2],
        extra: vec![3u8],
    };
    assert_eq!(envelope.encoded(), vec![1u8, 2, 2, 3, 4]);
}

#[test]
fn construction_assembles_a_fully_signed_envelope() {
    let address = vec![0xADu8];
    let key = vec![0x55u8];
    let signer = MockSigner::new(address.clone(), key.clone());

    let mut state = MemoryState::new();
    state.set(address.clone(), vec![7u8, 0]);
    let externalities = RpcExternalities::new(state);

    let call = vec![0xC0u8, 0xDE];
    let envelope = construct_extrinsic::<SequenceExt, MockSigner, MemoryState>(
        &signer,
        call.clone(),
        &externalities,
    )
    .expect("construction should succeed for an account with a sequence number");

    assert_eq!(envelope.call, vec![0xC0u8, 0xDE]);
    assert_eq!(envelope.address, vec![0xADu8]);
    assert_eq!(envelope.extra, vec![7u8, 0]);
    // signature = key ++ (call ++ extra)
    assert_eq!(envelope.signature, vec![0x55u8, 0xC0, 0xDE, 7, 0]);
    // encoded = address ++ signature ++ extra ++ call
    assert_eq!(
        envelope.encoded(),
        vec![0xADu8, 0x55, 0xC0, 0xDE, 7, 0, 7, 0, 0xC0, 0xDE]
    );
}

#[test]
fn construction_fails_without_a_sequence_number() {
    let signer = MockSigner::new(vec![0xADu8], vec![0x55u8]);
    let externalities = RpcExternalities::new(MemoryState::new());
    let result = construct_extrinsic::<SequenceExt, MockSigner, MemoryState>(
        &signer,
        vec![0xC0u8],
        &externalities,
    );
    assert_eq!(
        result,
        Err(Error::ClientError(
            "account has no recorded sequence number".to_string()
        ))
    );
}

#[test]
fn submit_reply_maps_to_id_or_client_error() {
    assert_eq!(submit_outcome::<u64>(Ok(99)), Ok(99));
    assert_eq!(
        submit_outcome::<u64>(Err("node unreachable".to_string())),
        Err(Error::ClientError("node unreachable".to_string()))
    );
}

#[test]
fn beginning_a_submission_passes_an_envelope_through() {
    let envelope = Envelope {
        call: vec![1u8],
        address: vec![2u8],
        signature: vec![3u8],
        extra: vec![4u8],
    };
    let started = begin_submission::<u64>(Ok(envelope));
    let passed = started.expect("a constructed envelope proceeds to submission");
    assert_eq!(passed.call, vec![1u8]);
    assert_eq!(passed.address, vec![2u8]);
}

#[test]
fn beginning_a_submission_turns_failures_terminal() {
    let started = begin_submission::<u64>(Err(Error::ClientError("bad call".to_string())));
    assert_eq!(started.unwrap_err(), Outcome::ConstructionError("bad call".to_string()));

    let timed_out = begin_submission::<u64>(Err(Error::TransactionError(
        ExtrinsicError::FinalityTimeout,
    )));
    assert_eq!(
        timed_out.unwrap_err(),
        Outcome::ConstructionError("finality timeout".to_string())
    );
}

#[test]
fn outcomes_fold_into_the_caller_facing_result() {
    assert_eq!(outcome_result(Outcome::InBlock(5u64)), Ok(5));
    assert_eq!(outcome_result(Outcome::Finalized(6u64)), Ok(6));
    assert_eq!(
        outcome_result::<u64>(Outcome::FinalityTimeout),
        Err(Error::TransactionError(ExtrinsicError::FinalityTimeout))
    );
    assert_eq!(
        outcome_result::<u64>(Outcome::SubscriptionClosed),
        Err(Error::RpcError("RPC subscription dropped".to_string()))
    );
    assert_eq!(
        outcome_result::<u64>(Outcome::TransportError("reset".to_string())),
        Err(Error::TransactionError(ExtrinsicError::Custom("reset".to_string())))
    );
    assert_eq!(
        outcome_result::<u64>(Outcome::ConstructionError("oops".to_string())),
        Err(Error::ClientError("oops".to_string()))
    );
}

#[test]
fn construct_submit_and_track_end_to_end() {
    let account = vec![0xADu8];
    let signer = MockSigner::new(account.clone(), vec![0x55u8]);
    let mut state = MemoryState::new();
    state.set(account, vec![1u8]);
    let externalities = RpcExternalities::new(state);

    let construction = construct_extrinsic::<SequenceExt, MockSigner, MemoryState>(
        &signer,
        vec![0xC0u8],
        &externalities,
    );
    let envelope = begin_submission::<u64>(construction)
        .expect("a constructed envelope proceeds to submission");
    assert_eq!(envelope.encoded(), vec![0xADu8, 0x55, 0xC0, 1, 1, 0xC0]);

    // The node acknowledges, broadcasts, and includes the transaction.
    let progress = ExtrinsicProgress::new(vec![
        Ok(StatusEvent::Ready),
        Ok(StatusEvent::Broadcast(2)),
        Ok(StatusEvent::InBlock(31u64)),
    ]);
    let outcome = progress.wait_for_in_block();
    assert_eq!(outcome, Outcome::InBlock(31));
    assert_eq!(outcome_result(outcome), Ok(31));
}

#[test]
fn transaction_errors_fold_into_the_top_level_error() {
    assert_eq!(
        Error::from(ExtrinsicError::FinalityTimeout),
        Error::TransactionError(ExtrinsicError::FinalityTimeout)
    );
    let err: Error = ExtrinsicError::Custom("detail".to_string()).into();
    assert_eq!(err, Error::TransactionError(ExtrinsicError::Custom("detail".to_string())));
}
