//! Orchestration of FROST threshold Schnorr signatures over secp256k1:
//! dealer key generation, the two-round signing ceremony, aggregation,
//! verification, and the text encodings used to move key material around.
use vstd::prelude::*;

pub mod codec;
pub mod keygen;
pub mod primitives;
pub mod session;

verus! {

/// The ciphersuite named in every share record.
pub const CIPHERSUITE: &'static str = "FROST-secp256k1-SHA256-v1";

/// The version written in every share record header.
pub const RECORD_VERSION: u8 = 0;

/// The failures this library reports.
#[derive(Debug, Clone, Copy, PartialEq, Eq, Structural)]
pub enum FrostError {
    InvalidParameters,
    DuplicateParticipant,
    InsufficientSigners,
    ThresholdMismatch,
    MalformedEncoding,
    SchemaError,
    SigningError,
    AggregationError,
    InvalidAggregateSignature,
}

} // verus!
