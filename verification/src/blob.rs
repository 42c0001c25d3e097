//! Compressing encoded encounters for storage.

use vstd::prelude::*;

use crate::encounter::Encounter;

verus! {

/// The compression level of stored encounters.
pub const COMPRESSION_LEVEL: i32 = 3;

/// The error type of `std::io`, which the compression library reports.
#[verifier::external_type_specification]
#[verifier::external_body]
pub struct ExIoError(std::io::Error);

/// The compressed form that the compression library gives `bytes` at a level.
pub uninterp spec fn zstd_frame(bytes: Seq<u8>, level: i32) -> Seq<u8>;

/// What the compression library unpacks from `blob`, if it is a compressed form.
pub uninterp spec fn zstd_content(blob: Seq<u8>) -> Option<Seq<u8>>;

/// Calls `zstd::encode_all`.
///
/// It reads from memory and writes to memory, so it succeeds; want of memory is left aside.
/// The result depends on the input and the level alone, and unpacking it gives the input
/// back.
#[verifier::external_body]
fn compress(bytes: &[u8], level: i32) -> (blob: Result<Vec<u8>, std::io::Error>)
    ensures
        blob is Ok,
        blob matches Ok(out) ==> out@ == zstd_frame(bytes@, level) && zstd_content(out@) == Some(
            bytes@,
        ),
{
    zstd::encode_all(bytes, level)
}

/// Calls `zstd::decode_all`.
///
/// Where it succeeds, the result is what the input unpacks to. It succeeds on whatever
/// `zstd::encode_all` has made, at any level; want of memory is left aside. On which other
/// inputs it succeeds is not said: some old forms are unpacked on some machines only.
#[verifier::external_body]
fn decompress(blob: &[u8]) -> (bytes: Result<Vec<u8>, std::io::Error>)
    ensures
        bytes matches Ok(out) ==> zstd_content(blob@) == Some(out@),
        (exists|content: Seq<u8>, level: i32| blob@ == #[trigger] zstd_frame(content, level))
            ==> bytes is Ok,
{
    zstd::decode_all(blob)
}

/// What can go wrong with a stored encounter.
#[derive(Clone, Copy, Debug, PartialEq, Eq, Structural)]
pub enum BlobError {
    /// The encounter could not be compressed.
    Compress,
    /// The stored form could not be unpacked.
    Decompress,
}

impl Encounter {
    /// Compresses an encoded encounter into a binary blob.
    pub fn to_blob(encoded: &[u8]) -> (blob: Result<Vec<u8>, BlobError>)
        ensures
            blob matches Ok(out) && is_blob_of(out@, encoded@),
    {
        match compress(encoded, COMPRESSION_LEVEL) {
            Ok(blob) => Ok(blob),
            Err(_) => Err(BlobError::Compress),
        }
    }

    /// Unpacks a binary blob into the encoded encounter.
    pub fn from_blob(blob: &[u8]) -> (encoded: Result<Vec<u8>, BlobError>)
        ensures
            is_unpacked(blob@, encoded),
    {
        match decompress(blob) {
            Ok(encoded) => Ok(encoded),
            Err(_) => Err(BlobError::Decompress),
        }
    }
}

/// Whether `blob` is the stored form of an encoded encounter.
pub open spec fn is_blob_of(blob: Seq<u8>, encoded: Seq<u8>) -> bool {
    blob == zstd_frame(encoded, COMPRESSION_LEVEL) && zstd_content(blob) == Some(encoded)
}

/// Whether `encoded` is what comes of unpacking `blob`: an encoded encounter, if `blob` is the
/// stored form of one. Anything else is unpacked or refused.
pub open spec fn is_unpacked(blob: Seq<u8>, encoded: Result<Vec<u8>, BlobError>) -> bool {
    &&& forall|stored: Seq<u8>| #[trigger]
        is_blob_of(blob, stored) ==> (encoded matches Ok(out) && out@ == stored)
    &&& match encoded {
        Ok(out) => zstd_content(blob) == Some(out@),
        Err(error) => error == BlobError::Decompress,
    }
}

/// A stored encounter can be unpacked, and what is unpacked is what was stored.
pub proof fn law_blob_round_trip(
    encoded: Seq<u8>,
    blob: Seq<u8>,
    unpacked: Result<Vec<u8>, BlobError>,
)
    requires
        is_blob_of(blob, encoded),
        is_unpacked(blob, unpacked),
    ensures
        unpacked matches Ok(out) && out@ == encoded,
{
}

} // verus!
