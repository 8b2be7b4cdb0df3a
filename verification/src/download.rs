use vstd::prelude::*;

use crate::text::str_eq;
use sha2::Digest;
use vstd::string::StringExecFns;

verus! {

/// Errors of the artifact download stage.
#[derive(Debug)]
pub enum FetchError {
    /// The server did not declare a content length, so progress against
    /// a known total cannot be reported.
    ContentLengthMissing,
    /// The transfer broke off before the body ended.
    TransferError,
    /// The artifact's digest does not match the catalog's checksum.
    ChecksumMismatch { expected: String, actual: String },
}

/// SHA-256 digest of a byte sequence; the result depends on the bytes
/// alone.
pub uninterp spec fn sha256_of(data: Seq<u8>) -> Seq<u8>;

/// Lowercase hexadecimal digit for a nibble.
pub open spec fn hex_digit(v: u8) -> char
    recommends
        v < 16,
{
    if v < 10 {
        (v + 48) as char
    } else {
        (v + 87) as char
    }
}

/// Lowercase hexadecimal encoding: two digits per byte, high nibble
/// first.
pub open spec fn hex_of(data: Seq<u8>) -> Seq<char>
    decreases data.len(),
{
    if data.len() == 0 {
        Seq::empty()
    } else {
        hex_of(data.drop_last()).push(hex_digit(data.last() / 16)).push(
            hex_digit(data.last() % 16),
        )
    }
}

/// Relies on `sha2::Sha256::digest` (through the `Digest` trait): the
/// 32-byte SHA-256 digest of the input, a function of the bytes alone.
#[verifier::external_body]
fn sha256(data: &Vec<u8>) -> (r: Vec<u8>)
    ensures
        r@ == sha256_of(data@),
        r@.len() == 32,
{
    sha2::Sha256::digest(data.as_slice()).to_vec()
}

/// Relies on `hex::encode`: lowercase hexadecimal, two characters per
/// byte, high nibble first.
#[verifier::external_body]
fn to_hex(data: &Vec<u8>) -> (r: String)
    ensures
        r@ == hex_of(data@),
{
    hex::encode(data.as_slice())
}

/// `e` is a checksum-mismatch error carrying exactly these two strings.
pub open spec fn is_checksum_mismatch(e: FetchError, expected: Seq<char>, actual: Seq<char>) -> bool {
    match e {
        FetchError::ChecksumMismatch { expected: x, actual: a } => x@ == expected && a@ == actual,
        _ => false,
    }
}

/// Compares a computed digest against the expected checksum, which is
/// hex-encoded, case-sensitively: only an exact match passes.
pub fn check_digest(digest: &Vec<u8>, expected_checksum: &str) -> (r: Result<(), FetchError>)
    ensures
        r is Ok <==> hex_of(digest@) == expected_checksum@,
        r matches Err(e) ==> is_checksum_mismatch(e, expected_checksum@, hex_of(digest@)),
{
    let actual = to_hex(digest);
    if str_eq(actual.as_str(), expected_checksum) {
        Ok(())
    } else {
        Err(
            FetchError::ChecksumMismatch {
                expected: String::from_str(expected_checksum),
                actual,
            },
        )
    }
}

/// Verifies a downloaded artifact against the catalog's checksum: the
/// lowercase hex encoding of the body's SHA-256 digest must equal it
/// exactly. With a wrong expected checksum this always fails with a
/// checksum-mismatch error and never reports success.
pub fn download(data: &Vec<u8>, expected_checksum: &str) -> (r: Result<(), FetchError>)
    ensures
        r is Ok <==> hex_of(sha256_of(data@)) == expected_checksum@,
        expected_checksum@ != hex_of(sha256_of(data@)) ==> (r matches Err(e)
            && is_checksum_mismatch(e, expected_checksum@, hex_of(sha256_of(data@)))),
{
    let digest = sha256(data);
    check_digest(&digest, expected_checksum)
}

/// The declared total size of a transfer. The server must declare a
/// content length — progress needs a known total — so a missing one
/// fails fast, before any byte is read.
pub fn required_content_length(content_length: Option<u64>) -> (r: Result<u64, FetchError>)
    ensures
        content_length matches Some(n) ==> r == Ok::<u64, FetchError>(n),
        content_length is None ==> r == Err::<u64, FetchError>(FetchError::ContentLengthMissing),
{
    match content_length {
        Some(n) => Ok(n),
        None => Err(FetchError::ContentLengthMissing),
    }
}

} // verus!
