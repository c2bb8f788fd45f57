//! Deriving a 64-bit perceptual fingerprint from raw image bytes.

use vstd::prelude::*;

verus! {

/// Whether the bytes decode as a supported raster image with at least one
/// pixel in each dimension (the resampler is not defined on an empty image).
/// Format guessing and decoding read the given bytes alone, so this is a
/// fixed function of them.
pub uninterp spec fn image_decodes(bytes: Seq<u8>) -> bool;

/// The 64-bit perceptual fingerprint of a decodable image. The decoder and
/// the hasher read the given bytes alone, so the fingerprint is a fixed
/// function of them, on every call and in every process.
pub uninterp spec fn phash_of(bytes: Seq<u8>) -> u64;

/// The bytes could not be interpreted as a supported raster image.
#[derive(Clone, Copy, PartialEq, Eq, Structural, Debug)]
pub struct DecodeError;

/// What extraction owes for every byte sequence: the fingerprint when the
/// bytes decode, and `DecodeError` when they do not.
pub open spec fn extract_spec(bytes: Seq<u8>) -> Result<u64, DecodeError> {
    if image_decodes(bytes) {
        Ok(phash_of(bytes))
    } else {
        Err(DecodeError)
    }
}

/// Relies on `image::io::Reader` (format guessing, then decoding) and on
/// `img_hash`'s default hasher (an 8x8 gradient hash, 64 bits in 8 bytes,
/// packed big-endian). Both compute from the given bytes alone, with no
/// other input, so whether they succeed and which hash they produce are
/// fixed functions of the bytes. An image that decodes with a zero width or
/// height (a valid farbfeld header can declare one) counts as not decodable:
/// the hasher's resampler would panic on it.
#[verifier::external_body]
fn decode_and_hash(bytes: &[u8]) -> (r: Option<u64>)
    ensures
        r is Some <==> image_decodes(bytes@),
        r matches Some(h) ==> h == phash_of(bytes@),
{
    let reader = image::io::Reader::new(std::io::Cursor::new(bytes)).with_guessed_format().ok()?;
    let decoded = reader.decode().ok()?;
    let (width, height) = image::GenericImageView::dimensions(&decoded);
    if width == 0 || height == 0 {
        return None;
    }
    let hash = img_hash::HasherConfig::new().to_hasher().hash_image(&decoded);
    let packed: [u8; 8] = hash.as_bytes().try_into().ok()?;
    Some(u64::from_be_bytes(packed))
}

/// Derives the 64-bit perceptual fingerprint of `bytes`, or reports that the
/// bytes are not a decodable image. Never panics; non-image input is an
/// ordinary, classified result.
pub fn extract(bytes: &[u8]) -> (r: Result<u64, DecodeError>)
    ensures
        r == extract_spec(bytes@),
{
    match decode_and_hash(bytes) {
        Some(h) => Ok(h),
        None => Err(DecodeError),
    }
}

/// Extraction is deterministic: any two results that `extract` may return
/// for the same bytes are equal, across repeated calls and across process
/// instances.
pub proof fn lemma_extract_deterministic(
    bytes: Seq<u8>,
    r1: Result<u64, DecodeError>,
    r2: Result<u64, DecodeError>,
)
    requires
        r1 == extract_spec(bytes),
        r2 == extract_spec(bytes),
    ensures
        r1 == r2,
{
}

/// Idempotent classification: whether a byte sequence is accepted at all is a
/// fixed function of the bytes, and one that does not decode always yields
/// `DecodeError` — never a fingerprint, whatever its size or truncation
/// point. (That it never panics either is part of `extract`'s verification.)
pub proof fn lemma_non_image_classification(bytes: Seq<u8>)
    ensures
        extract_spec(bytes) is Err <==> !image_decodes(bytes),
        !image_decodes(bytes) ==> extract_spec(bytes) == Err::<u64, DecodeError>(DecodeError),
{
}

} // verus!
