//! Perceptual hashing of candidate image bytes.
//!
//! The store deduplicates by a gradient-based perceptual hash so that
//! re-encoded or resized copies of the same picture collapse to one entry. The
//! hash is carried as its canonical base64 string form and compared for exact
//! equality. Decoding and hashing are outside computations; their results are
//! pure functions of the input bytes, named here so that contracts can speak
//! of them exactly.

use vstd::prelude::*;

verus! {

/// Whether a byte sequence decodes as an image in one of the common codecs.
pub uninterp spec fn decodable(b: Seq<u8>) -> bool;

/// The canonical base64 form of the gradient-based perceptual hash of an
/// image's bytes. Meaningful only for decodable byte sequences.
pub uninterp spec fn phash_of(b: Seq<u8>) -> Seq<char>;

/// Relies on image::load_from_memory, which decodes bytes as an image and
/// succeeds or fails by the bytes alone, and on image_hasher's
/// Hasher::hash_image with the DoubleGradient algorithm together with
/// ImageHash::to_base64, whose output is a function of the decoded pixels
/// alone. Returns the encoded hash when the bytes decode, and nothing when
/// they do not.
#[verifier::external_body]
pub(crate) fn decode_and_hash(img: &Vec<u8>) -> (r: Option<String>)
    ensures
        r is Some <==> decodable(img@),
        r is Some ==> r->0@ == phash_of(img@),
{
    match image::load_from_memory(img.as_slice()) {
        Ok(decoded) => {
            let hasher = image_hasher::HasherConfig::new().hash_alg(
                image_hasher::HashAlg::DoubleGradient,
            ).to_hasher();
            Some(hasher.hash_image(&decoded).to_base64())
        },
        Err(_) => None,
    }
}

} // verus!
