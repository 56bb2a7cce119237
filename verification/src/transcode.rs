//! The boundary contract of animated-image transcoding.
//!
//! Decoding an animated raster payload and re-encoding it portably is an
//! opaque outside capability with no error channel toward the caller: the
//! caller hands in what its codec attempt yielded, and any failure degrades
//! to an empty byte sequence, treated as a successful-but-empty result. Pure
//! with respect to the tree: no locks, no shared state.

use vstd::prelude::*;

verus! {

/// Finishes a transcode: the re-encoded bytes on success, the empty byte
/// sequence on any decode or encode failure. Never fails itself.
pub fn encode_animated_image(transcoded: Option<Vec<u8>>) -> (r: Vec<u8>)
    ensures
        match transcoded {
            Some(d) => r@ == d@,
            None => r@ == Seq::<u8>::empty(),
        },
{
    match transcoded {
        Some(d) => d,
        None => Vec::new(),
    }
}

} // verus!
