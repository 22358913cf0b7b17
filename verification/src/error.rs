//! The library's error type.
use vstd::prelude::*;
use crate::text::{contains, contains_text, decimal_chars, decimal_text};

verus! {

/// Why a computation on evidence failed. Hashes are carried as lowercase hex.
#[derive(Debug)]
pub enum AletheiaError {
    /// The receipt at `index` does not link to its predecessor (`expected` is
    /// the predecessor's hash, `actual` the receipt's `prev_hash`).
    BrokenChain { index: u64, expected: String, actual: String },
    /// The Merkle root recomputed from the receipts (`expected`) differs from
    /// the stored one (`actual`).
    MerkleRootMismatch { expected: String, actual: String },
    /// The last receipt's hash (`expected`) differs from the stored chain head
    /// (`actual`).
    ChainHeadMismatch { expected: String, actual: String },
    /// The event of the receipt at `index` hashes to `expected`, but the
    /// receipt records `actual`.
    EventHashMismatch { index: u64, expected: String, actual: String },
    /// A signature does not verify under the key `signer`.
    InvalidSignature { signer: String },
    /// A key or a signature could not be read.
    SigningError(String),
    /// A value could not be serialized or deserialized.
    SerializationError(String),
    /// The evidence pack holds no receipts.
    EmptyPack,
}

/// `": expected {expected}, got {actual}"`.
pub open spec fn expected_got_text(expected: Seq<char>, actual: Seq<char>) -> Seq<char> {
    ": expected "@ + expected + ", got "@ + actual
}

/// The message that describes an error.
pub open spec fn error_message(e: AletheiaError) -> Seq<char> {
    match e {
        AletheiaError::BrokenChain { index, expected, actual } => "hash chain broken at receipt "@
            + decimal_chars(index as nat) + expected_got_text(expected@, actual@),
        AletheiaError::MerkleRootMismatch { expected, actual } => "merkle root mismatch"@
            + expected_got_text(expected@, actual@),
        AletheiaError::ChainHeadMismatch { expected, actual } => "chain head mismatch"@
            + expected_got_text(expected@, actual@),
        AletheiaError::EventHashMismatch { index, expected, actual } => "event hash mismatch at receipt "@
            + decimal_chars(index as nat) + expected_got_text(expected@, actual@),
        AletheiaError::InvalidSignature { signer } => "invalid signature from signer "@ + signer@,
        AletheiaError::SigningError(m) => "signing error: "@ + m@,
        AletheiaError::SerializationError(m) => "serialization error: "@ + m@,
        AletheiaError::EmptyPack => "empty evidence pack"@,
    }
}

fn expected_got(out: &mut String, expected: &String, actual: &String)
    ensures
        final(out)@ == old(out)@ + expected_got_text(expected@, actual@),
{
    let ghost start = out@;
    out.append(": expected ");
    out.append(expected.as_str());
    out.append(", got ");
    out.append(actual.as_str());
    assert(out@ =~= start + expected_got_text(expected@, actual@));
}

impl AletheiaError {
    /// The message that describes this error.
    pub fn message(&self) -> (res: String)
        ensures
            res@ == error_message(*self),
    {
        match self {
            AletheiaError::BrokenChain { index, expected, actual } => {
                let mut m = "hash chain broken at receipt ".to_owned();
                m.append(decimal_text(*index).as_str());
                expected_got(&mut m, expected, actual);
                m
            },
            AletheiaError::MerkleRootMismatch { expected, actual } => {
                let mut m = "merkle root mismatch".to_owned();
                expected_got(&mut m, expected, actual);
                m
            },
            AletheiaError::ChainHeadMismatch { expected, actual } => {
                let mut m = "chain head mismatch".to_owned();
                expected_got(&mut m, expected, actual);
                m
            },
            AletheiaError::EventHashMismatch { index, expected, actual } => {
                let mut m = "event hash mismatch at receipt ".to_owned();
                m.append(decimal_text(*index).as_str());
                expected_got(&mut m, expected, actual);
                m
            },
            AletheiaError::InvalidSignature { signer } => {
                let mut m = "invalid signature from signer ".to_owned();
                m.append(signer.as_str());
                m
            },
            AletheiaError::SigningError(e) => {
                let mut m = "signing error: ".to_owned();
                m.append(e.as_str());
                m
            },
            AletheiaError::SerializationError(e) => {
                let mut m = "serialization error: ".to_owned();
                m.append(e.as_str());
                m
            },
            AletheiaError::EmptyPack => "empty evidence pack".to_owned(),
        }
    }
}

/// The process exit status for a failure described by `message`: 1 when it
/// speaks of integrity, a mismatch or a signature, 3 otherwise.
pub open spec fn exit_status(message: Seq<char>) -> i32 {
    if contains(message, "integrity"@) || contains(message, "mismatch"@) || contains(
        message,
        "signature"@,
    ) {
        1
    } else {
        3
    }
}

/// The process exit status for a failure described by `message`.
pub fn exit_code(message: &str) -> (res: i32)
    ensures
        res == exit_status(message@),
{
    if contains_text(message, "integrity") || contains_text(message, "mismatch") || contains_text(
        message,
        "signature",
    ) {
        1
    } else {
        3
    }
}

} // verus!
