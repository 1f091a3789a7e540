//! Raw DEFLATE compression of payloads before encryption, and inflation after.
use vstd::prelude::*;
use crate::error::PasteError;

verus! {

/// Effort level handed to the DEFLATE encoder (miniz's scale runs from 0 to 10).
pub const COMPRESSION_LEVEL: u8 = 10;

/// The raw DEFLATE stream that miniz_oxide writes for a byte string at a given level.
pub uninterp spec fn deflate_of(data: Seq<u8>, level: u8) -> Seq<u8>;

/// What miniz_oxide's raw inflater makes of a blob: the bytes, or `None` when it
/// is not a complete DEFLATE stream.
pub uninterp spec fn inflate_of(blob: Seq<u8>) -> Option<Seq<u8>>;

/// Relies on miniz_oxide::deflate::compress_to_vec, a lossless raw DEFLATE
/// encoder: its output inflates back to the input.
#[verifier::external_body]
fn deflate(data: &[u8], level: u8) -> (r: Vec<u8>)
    requires
        level <= 10,
    ensures
        r@ == deflate_of(data@, level),
        inflate_of(r@) == Some(data@),
{
    miniz_oxide::deflate::compress_to_vec(data, level)
}

/// Relies on miniz_oxide::inflate::decompress_to_vec: the inflated bytes, or the
/// inflater's status exactly when the blob is corrupt or truncated.
#[verifier::external_body]
fn inflate(blob: &[u8]) -> (r: Result<Vec<u8>, miniz_oxide::inflate::TINFLStatus>)
    ensures
        r matches Ok(d) ==> inflate_of(blob@) == Some(d@),
        r is Err ==> inflate_of(blob@) is None,
{
    miniz_oxide::inflate::decompress_to_vec(blob)
}

/// `blob` is what `compress` produces for `data`.
pub open spec fn is_compression_of(blob: Seq<u8>, data: Seq<u8>) -> bool {
    &&& blob == deflate_of(data, COMPRESSION_LEVEL)
    &&& inflate_of(blob) == Some(data)
}

/// `r` is what `decompress` returns for `blob`.
pub open spec fn is_decompression_of(r: Result<Vec<u8>, PasteError>, blob: Seq<u8>) -> bool {
    match inflate_of(blob) {
        Some(d) => r matches Ok(v) && v@ == d,
        None => r matches Err(PasteError::Zlib(_)),
    }
}

/// Deflates a payload before encryption.
pub fn compress(data: &[u8]) -> (r: Vec<u8>)
    ensures
        is_compression_of(r@, data@),
{
    deflate(data, COMPRESSION_LEVEL)
}

/// Inflates a decrypted blob; a corrupt or truncated blob is refused with
/// `PasteError::Zlib`, never returned in part.
pub fn decompress(blob: &[u8]) -> (r: Result<Vec<u8>, PasteError>)
    ensures
        is_decompression_of(r, blob@),
{
    match inflate(blob) {
        Ok(d) => Ok(d),
        Err(status) => Err(PasteError::Zlib(status)),
    }
}

/// Decompressing what compression produced gives back the payload, the empty
/// payload included.
pub proof fn lemma_compression_round_trip(data: Seq<u8>, blob: Seq<u8>, r: Result<Vec<u8>, PasteError>)
    requires
        is_compression_of(blob, data),
        is_decompression_of(r, blob),
    ensures
        r matches Ok(v) && v@ == data,
{
}

} // verus!
