//! Error taxonomy: data-type errors, their network-facing form, and the
//! routing, wire and client error families.

use vstd::prelude::*;
use crate::addr::NodeAddr;
use crate::xor::XorName;

verus! {

/// A public key of either signature scheme, as plain bytes.
#[derive(Clone, Debug, PartialEq, Eq)]
pub enum PublicKey {
    /// An Ed25519 public key.
    Ed25519(Vec<u8>),
    /// A BLS public key.
    Bls(Vec<u8>),
}

/// The address of a register: a name together with a type tag.
#[derive(Clone, Debug, PartialEq, Eq)]
pub struct RegisterAddress {
    /// Name of the register in XOR space.
    pub name: XorName,
    /// The register's type tag.
    pub tag: u64,
}

/// Main error type for the data types.
#[derive(Clone, Debug, PartialEq, Eq)]
pub enum Error {
    /// Access denied for the supplied public key.
    AccessDenied(PublicKey),
    /// Serialization error.
    Serialisation(String),
    /// Entry already exists; carries the current entry key.
    EntryExists(u8),
    /// Supplied entry actions are not valid.
    InvalidEntryActions,
    /// Entry could not be found on the data.
    NoSuchEntry,
    /// Key does not exist.
    NoSuchKey,
    /// Owner is not a public key set.
    InvalidOwnerNotPublicKeySet,
    /// No policy has been set for the data.
    PolicyNotSet,
    /// Invalid version for a mutating operation; carries the current version.
    InvalidSuccessor(u64),
    /// A mutating operation whose causal dependency is not yet satisfied.
    OpNotCausallyReady,
    /// Invalid operation.
    InvalidOperation,
    /// Mismatch between key type and signature type.
    SigningKeyTypeMismatch,
    /// Failed signature validation.
    InvalidSignature,
    /// Precision would be lost while parsing.
    LossOfPrecision,
    /// The amount would exceed the maximum token value.
    ExcessiveValue,
    /// Failed to parse a string.
    FailedToParse(String),
    /// Inexistent recipient balance.
    NoSuchRecipient,
    /// Expected data size exceeded.
    ExceededSize,
    /// Number out of expected range.
    OutOfRange,
    /// A CRDT operation that misses its actor signature.
    CrdtMissingOpSignature,
    /// CRDT data in an unexpected or inconsistent state.
    CrdtUnexpectedState,
    /// A CRDT operation that targets a different content address.
    CrdtWrongAddress(RegisterAddress),
}

/// Data errors in the form they take on the wire.
#[derive(Clone, Debug, PartialEq, Eq)]
pub enum ErrorMessage {
    /// Invalid operation, with the reason.
    InvalidOperation(String),
    /// Requested entry not found.
    NoSuchEntry,
    /// Access denied for the supplied public key.
    AccessDenied(PublicKey),
}

/// The reason string that names a data-type error on the wire.
pub open spec fn spec_dt_reason(error: &Error) -> Seq<char> {
    match error {
        Error::InvalidOperation => "DtError::InvalidOperation"@,
        Error::AccessDenied(_) => "DtError: AccessDenied"@,
        Error::Serialisation(_) => "DtError: Serialisation"@,
        Error::EntryExists(_) => "DtError: EntryExists"@,
        Error::InvalidEntryActions => "DtError: InvalidEntryActions"@,
        Error::NoSuchEntry => "DtError: NoSuchEntry"@,
        Error::NoSuchKey => "DtError: NoSuchKey"@,
        Error::InvalidOwnerNotPublicKeySet => "DtError: InvalidOwnerNotPublicKeySet"@,
        Error::PolicyNotSet => "DtError: PolicyNotSet"@,
        Error::InvalidSuccessor(_) => "DtError: InvalidSuccessor"@,
        Error::OpNotCausallyReady => "DtError: OpNotCausallyReady"@,
        Error::SigningKeyTypeMismatch => "DtError: SigningKeyTypeMismatch"@,
        Error::InvalidSignature => "DtError: InvalidSignature"@,
        Error::LossOfPrecision => "DtError: LossOfPrecision"@,
        Error::ExcessiveValue => "DtError: ExcessiveValue"@,
        Error::FailedToParse(_) => "DtError: FailedToParse"@,
        Error::NoSuchRecipient => "DtError: NoSuchRecipient"@,
        Error::ExceededSize => "DtError: ExceededSize"@,
        Error::OutOfRange => "DtError: OutOfRange"@,
        Error::CrdtMissingOpSignature => "DtError: CrdtMissingOpSignature"@,
        Error::CrdtUnexpectedState => "DtError: CrdtUnexpectedState"@,
        Error::CrdtWrongAddress(_) => "DtError: CrdtWrongAddress"@,
    }
}

/// Converts a data-type error to the form sent across the network:
/// `InvalidOperation`, `NoSuchEntry` and `AccessDenied` keep their meaning,
/// every other error is reported as an invalid operation whose reason names
/// the error.
pub fn convert_dt_error_to_error_message(error: Error) -> (r: ErrorMessage)
    ensures
        error is NoSuchEntry ==> r == ErrorMessage::NoSuchEntry,
        (error matches Error::AccessDenied(pk) ==> r == ErrorMessage::AccessDenied(pk)),
        !(error is NoSuchEntry) && !(error is AccessDenied)
            ==> (r matches ErrorMessage::InvalidOperation(s) && s@ == spec_dt_reason(&error)),
{
    match error {
        Error::InvalidOperation => ErrorMessage::InvalidOperation("DtError::InvalidOperation".to_owned()),
        Error::NoSuchEntry => ErrorMessage::NoSuchEntry,
        Error::AccessDenied(pk) => ErrorMessage::AccessDenied(pk),
        Error::Serialisation(_) => ErrorMessage::InvalidOperation("DtError: Serialisation".to_owned()),
        Error::EntryExists(_) => ErrorMessage::InvalidOperation("DtError: EntryExists".to_owned()),
        Error::InvalidEntryActions => ErrorMessage::InvalidOperation("DtError: InvalidEntryActions".to_owned()),
        Error::NoSuchKey => ErrorMessage::InvalidOperation("DtError: NoSuchKey".to_owned()),
        Error::InvalidOwnerNotPublicKeySet => ErrorMessage::InvalidOperation("DtError: InvalidOwnerNotPublicKeySet".to_owned()),
        Error::PolicyNotSet => ErrorMessage::InvalidOperation("DtError: PolicyNotSet".to_owned()),
        Error::InvalidSuccessor(_) => ErrorMessage::InvalidOperation("DtError: InvalidSuccessor".to_owned()),
        Error::OpNotCausallyReady => ErrorMessage::InvalidOperation("DtError: OpNotCausallyReady".to_owned()),
        Error::SigningKeyTypeMismatch => ErrorMessage::InvalidOperation("DtError: SigningKeyTypeMismatch".to_owned()),
        Error::InvalidSignature => ErrorMessage::InvalidOperation("DtError: InvalidSignature".to_owned()),
        Error::LossOfPrecision => ErrorMessage::InvalidOperation("DtError: LossOfPrecision".to_owned()),
        Error::ExcessiveValue => ErrorMessage::InvalidOperation("DtError: ExcessiveValue".to_owned()),
        Error::FailedToParse(_) => ErrorMessage::InvalidOperation("DtError: FailedToParse".to_owned()),
        Error::NoSuchRecipient => ErrorMessage::InvalidOperation("DtError: NoSuchRecipient".to_owned()),
        Error::ExceededSize => ErrorMessage::InvalidOperation("DtError: ExceededSize".to_owned()),
        Error::OutOfRange => ErrorMessage::InvalidOperation("DtError: OutOfRange".to_owned()),
        Error::CrdtMissingOpSignature => ErrorMessage::InvalidOperation("DtError: CrdtMissingOpSignature".to_owned()),
        Error::CrdtUnexpectedState => ErrorMessage::InvalidOperation("DtError: CrdtUnexpectedState".to_owned()),
        Error::CrdtWrongAddress(_) => ErrorMessage::InvalidOperation("DtError: CrdtWrongAddress".to_owned()),
    }
}

/// Errors of the routing layer.
#[derive(Clone, Debug, PartialEq, Eq)]
pub enum RoutingError {
    /// A section authority provider that cannot be trusted.
    UntrustedSectionAuthProvider,
    /// A proof chain that cannot be trusted.
    UntrustedProofChain,
    /// A key that is not present in the chain.
    UntrustedKey,
    /// A payload that could not be handled.
    InvalidPayload,
    /// An invalid signature share.
    InvalidSignatureShare,
    /// A message from a source that cannot stand for it.
    InvalidSrcLocation,
    /// An invalid message.
    InvalidMessage,
    /// A send that failed.
    FailedSend,
    /// The endpoint could not be set up.
    CannotConnectEndpoint,
    /// The network is not accepting nodes right now.
    TryJoinLater,
    /// The node could not be reached at its public address.
    NodeNotReachable(NodeAddr),
    /// Joining the network timed out.
    JoinTimeout,
}

/// Errors of the wire codec.
#[derive(Clone, Debug, PartialEq, Eq)]
pub enum WireError {
    /// The bytes are too short or misshapen to hold a message header.
    Malformed,
    /// The header carries a version this codec does not speak.
    UnknownVersion,
    /// The payload does not decode for the tagged message kind.
    BadPayload,
    /// The message's authority does not verify over its payload.
    BadSignature,
    /// A message could not be serialized.
    Serialisation,
}

/// Errors of the client session.
#[derive(Clone, Debug, PartialEq, Eq)]
pub enum ClientError {
    /// The client knows no section to route to.
    NoNetworkKnowledge,
    /// Fewer elder connections than needed: `(found, needed)`.
    InsufficientElderConnections(usize, usize),
    /// No valid response arrived.
    NoResponse,
    /// A response without a known operation id.
    UnknownOperationId,
    /// A send that failed.
    FailedSend,
}

} // verus!
