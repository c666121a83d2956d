//! Constructing, signing and submitting a transaction envelope.
//!
//! The transport and the cryptography are collaborators: the transport
//! performs the actual calls on its own execution context, and a signer
//! capability turns a payload into a signature. What this module
//! verifies is everything in between — how the envelope is assembled
//! from its parts, what bytes are signed and submitted, and how every
//! transport reply is interpreted.

use vstd::prelude::*;

use crate::error::Error;
use crate::error::ExtrinsicError;
use crate::event::Outcome;
use crate::ext::RpcExternalities;
use crate::storage::StorageRead;
use crate::storage::concat_bytes;

verus! {

/// A signing capability: a public address and a deterministic
/// signature over any payload. The cryptography behind it is a
/// collaborator's concern; implementations fix what both operations
/// return through the two spec functions.
pub trait Signer {
    /// The sender address this signer signs for.
    spec fn address_spec(&self) -> Seq<u8>;

    /// The signature this signer produces over a payload.
    spec fn signature_spec(&self, payload: Seq<u8>) -> Seq<u8>;

    /// The sender's public address, as raw bytes.
    fn public_address(&self) -> (r: Vec<u8>)
        ensures
            r@ == self.address_spec(),
    ;

    /// Sign the canonical payload bytes.
    fn sign(&self, payload: &Vec<u8>) -> (r: Vec<u8>)
        ensures
            r@ == self.signature_spec(payload@),
    ;
}

/// A signer with no cryptography, for tests and examples: the
/// "signature" is the signing key followed by the payload. A real
/// signer implements `Signer` outside the library.
pub struct MockSigner {
    address: Vec<u8>,
    key: Vec<u8>,
}

impl MockSigner {
    /// A mock signer for the given address and key.
    pub fn new(address: Vec<u8>, key: Vec<u8>) -> (r: Self)
        ensures
            r.address_spec() == address@,
            forall|payload: Seq<u8>| #[trigger] r.signature_spec(payload) == key@ + payload,
    {
        MockSigner { address, key }
    }
}

impl Signer for MockSigner {
    closed spec fn address_spec(&self) -> Seq<u8> {
        self.address@
    }

    closed spec fn signature_spec(&self, payload: Seq<u8>) -> Seq<u8> {
        self.key@ + payload
    }

    fn public_address(&self) -> (r: Vec<u8>) {
        crate::storage::copy_bytes(&self.address)
    }

    fn sign(&self, payload: &Vec<u8>) -> (r: Vec<u8>) {
        concat_bytes(&self.key, payload)
    }
}

/// Construction logic for the signed-extension data of an envelope:
/// what must be bound into the signature besides the call — an
/// anti-replay sequence number, a liveness window, fee parameters.
/// Implementations may read ledger state through the facade they are
/// handed; `extras_spec` fixes, per account and state, either the
/// extension bytes or the detail of the failure.
pub trait ConstructExt {
    /// The signed-extension bytes owed for an account under a given
    /// state, or the failure detail where none can be computed.
    spec fn extras_spec(account: Seq<u8>, state: Map<Seq<u8>, Seq<u8>>) -> Result<
        Seq<u8>,
        Seq<char>,
    >;

    /// Compute the signed-extension bytes for `account`, reading state
    /// through the facade.
    fn signed_extras<S: StorageRead>(account: &Vec<u8>, externalities: &RpcExternalities<S>) -> (r:
        Result<Vec<u8>, String>)
        ensures
            match Self::extras_spec(account@, externalities.state()) {
                Ok(x) => (r matches Ok(v) && v@ == x),
                Err(d) => (r matches Err(detail) && detail@ == d),
            },
    ;
}

/// Construction logic that binds the account's stored sequence number:
/// the extension bytes are the raw state value under the account key,
/// and an account with no recorded value is a construction failure.
pub struct SequenceExt;

impl ConstructExt for SequenceExt {
    open spec fn extras_spec(account: Seq<u8>, state: Map<Seq<u8>, Seq<u8>>) -> Result<
        Seq<u8>,
        Seq<char>,
    > {
        if state.contains_key(account) {
            Ok(state[account])
        } else {
            Err("account has no recorded sequence number"@)
        }
    }

    fn signed_extras<S: StorageRead>(account: &Vec<u8>, externalities: &RpcExternalities<S>) -> (r:
        Result<Vec<u8>, String>) {
        match externalities.storage(account) {
            Some(value) => Ok(value),
            None => Err(String::from_str("account has no recorded sequence number")),
        }
    }
}

/// A signed, self-contained transaction, immutable once constructed:
/// re-submission with different parameters requires constructing a new
/// envelope. Each part carries its canonical byte encoding, supplied by
/// the collaborator that owns the wire codec.
#[derive(Debug, PartialEq, Eq)]
pub struct Envelope {
    /// The call payload.
    pub call: Vec<u8>,
    /// The sender address.
    pub address: Vec<u8>,
    /// The signature over the signing payload.
    pub signature: Vec<u8>,
    /// The signed-extension data bound into the signature.
    pub extra: Vec<u8>,
}

impl Envelope {
    /// The bytes an envelope submits: its four parts, in wire order.
    pub open spec fn spec_encoded(&self) -> Seq<u8> {
        self.address@ + self.signature@ + self.extra@ + self.call@
    }

    /// Encode the envelope for submission.
    pub fn encoded(&self) -> (r: Vec<u8>)
        ensures
            r@ == self.spec_encoded(),
    {
        let head = concat_bytes(&self.address, &self.signature);
        let tail = concat_bytes(&self.extra, &self.call);
        let out = concat_bytes(&head, &tail);
        proof {
            assert(out@ =~= self.spec_encoded());
        }
        out
    }
}

/// The canonical signing payload: the call bytes followed by the
/// signed-extension bytes. Deterministic in its two inputs.
pub fn signing_payload(call: &Vec<u8>, extra: &Vec<u8>) -> (r: Vec<u8>)
    ensures
        r@ == call@ + extra@,
{
    concat_bytes(call, extra)
}

/// Construct a signed envelope: derive the sender address, compute the
/// signed extensions under the state-access facade (the only phase in
/// which it is reachable), sign the canonical payload, and assemble the
/// envelope. Any failure while computing extensions aborts construction
/// with a `ClientError` carrying its detail; a partial envelope is
/// never returned.
pub fn construct_extrinsic<C: ConstructExt, G: Signer, S: StorageRead>(
    signer: &G,
    call: Vec<u8>,
    externalities: &RpcExternalities<S>,
) -> (r: Result<Envelope, Error>)
    ensures
        match C::extras_spec(signer.address_spec(), externalities.state()) {
            Ok(x) => (r matches Ok(env) && env.call@ == call@ && env.address@
                == signer.address_spec() && env.extra@ == x && env.signature@
                == signer.signature_spec(call@ + x)),
            Err(d) => (r matches Err(e) && e matches Error::ClientError(detail) && detail@ == d),
        },
{
    let address = signer.public_address();
    let extra = match C::signed_extras(&address, externalities) {
        Ok(extra) => extra,
        Err(detail) => {
            return Err(Error::ClientError(detail));
        },
    };
    let payload = signing_payload(&call, &extra);
    let signature = signer.sign(&payload);
    Ok(Envelope { call, address, signature, extra })
}

/// Interpret the transport's reply to a fire-and-forget submission:
/// the transaction id it returned, or a `ClientError` carrying the
/// transport's failure detail.
pub fn submit_outcome<H>(reply: Result<H, String>) -> (r: Result<H, Error>)
    ensures
        match reply {
            Ok(id) => r == Ok::<H, Error>(id),
            Err(d) => (r matches Err(e) && e matches Error::ClientError(detail) && detail == d),
        },
{
    match reply {
        Ok(id) => Ok(id),
        Err(d) => Err(Error::ClientError(d)),
    }
}

/// The detail text of an error.
pub open spec fn error_detail(e: Error) -> Seq<char> {
    match e {
        Error::ClientError(d) => d@,
        Error::RpcError(d) => d@,
        Error::TransactionError(ExtrinsicError::Custom(d)) => d@,
        Error::TransactionError(ExtrinsicError::FinalityTimeout) => "finality timeout"@,
    }
}

/// Decide how a submission attempt starts: a constructed envelope
/// proceeds to submission; a construction failure is already the
/// terminal outcome of the attempt, before anything is sent.
pub fn begin_submission<H>(construction: Result<Envelope, Error>) -> (r: Result<
    Envelope,
    Outcome<H>,
>)
    ensures
        match construction {
            Ok(env) => (r matches Ok(e) && e == env),
            Err(err) => (r matches Err(o) && o matches Outcome::ConstructionError(d) && d@
                == error_detail(err)),
        },
{
    match construction {
        Ok(env) => Ok(env),
        Err(err) => {
            let detail = match err {
                Error::ClientError(d) => d,
                Error::RpcError(d) => d,
                Error::TransactionError(ExtrinsicError::Custom(d)) => d,
                Error::TransactionError(ExtrinsicError::FinalityTimeout) => String::from_str(
                    "finality timeout",
                ),
            };
            Err(Outcome::ConstructionError(detail))
        },
    }
}

/// Fold a terminal outcome into the caller-facing result: the block
/// hash on success, or the error that the outcome denotes.
pub fn outcome_result<H>(outcome: Outcome<H>) -> (r: Result<H, Error>)
    ensures
        match outcome {
            Outcome::InBlock(h) => r == Ok::<H, Error>(h),
            Outcome::Finalized(h) => r == Ok::<H, Error>(h),
            Outcome::FinalityTimeout => r == Err::<H, Error>(
                Error::TransactionError(ExtrinsicError::FinalityTimeout),
            ),
            Outcome::SubscriptionClosed => (r matches Err(e) && e matches Error::RpcError(d) && d@
                == "RPC subscription dropped"@),
            Outcome::TransportError(d) => r == Err::<H, Error>(
                Error::TransactionError(ExtrinsicError::Custom(d)),
            ),
            Outcome::ConstructionError(d) => r == Err::<H, Error>(Error::ClientError(d)),
        },
{
    match outcome {
        Outcome::InBlock(h) => Ok(h),
        Outcome::Finalized(h) => Ok(h),
        Outcome::FinalityTimeout => Err(Error::TransactionError(ExtrinsicError::FinalityTimeout)),
        Outcome::SubscriptionClosed => Err(
            Error::RpcError(String::from_str("RPC subscription dropped")),
        ),
        Outcome::TransportError(d) => Err(Error::TransactionError(ExtrinsicError::Custom(d))),
        Outcome::ConstructionError(d) => Err(Error::ClientError(d)),
    }
}

} // verus!
