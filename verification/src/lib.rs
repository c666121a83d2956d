//! Client-side core for constructing, signing, submitting and tracking
//! transactions ("extrinsics") against a remote ledger node.
//!
//! The transport itself (the RPC connection, subscriptions, and the
//! thread that drives them) lives outside this crate; this library holds
//! the verified logic that decides what those operations mean:
//! reducing a stream of status events to a terminal outcome, settling
//! storage reads, and assembling signed transaction envelopes.

mod error;
mod event;
mod ext;
mod extrinsic;
mod rpc;
mod storage;

pub use error::Error;
pub use error::ExtrinsicError;
pub use extrinsic::ExtrinsicProgress;

pub use ext::ExtensionRegistry;
pub use ext::ExtensionsError;
pub use ext::RpcExternalities;
pub use ext::with_rpc_externalities;

pub use rpc::ConstructExt;
pub use rpc::Envelope;
pub use rpc::MockSigner;
pub use rpc::SequenceExt;
pub use rpc::Signer;
pub use rpc::begin_submission;
pub use rpc::construct_extrinsic;
pub use rpc::error_detail;
pub use rpc::outcome_result;
pub use rpc::signing_payload;
pub use rpc::submit_outcome;

pub use storage::MemoryState;
pub use storage::StorageRead;
pub use storage::bytes_equal;
pub use storage::concat_bytes;
pub use storage::copy_bytes;
pub use storage::settle_read;

pub use event::Outcome;
pub use event::StatusEvent;
pub use event::as_items;
pub use event::finalized_step;
pub use event::finalized_verdict;
pub use event::in_block_step;
pub use event::in_block_verdict;
pub use event::lemma_empty_stream_closes;
pub use event::lemma_in_block_stops_at_first;
pub use event::lemma_timeout_before_success;
pub use event::lemma_track_of_events;
pub use event::lemma_unique_finalized_wins;
pub use event::lemma_verdictless_prefix_ignored;
pub use event::reduce_finalized;
pub use event::reduce_in_block;
pub use event::track_finalized;
pub use event::track_in_block;
