//! Decoding the compressed manifest container.
//!
//! A manifest arrives as a zstd frame holding a protobuf message. The
//! frame check and the decompression stage live here; the caller feeds the
//! decompressed bytes to its protobuf decoder.

use vstd::prelude::*;

verus! {

/// Why a manifest container failed to decode.
#[derive(Clone, Copy, PartialEq, Eq, Structural, Debug)]
pub enum ManifestDecodeError {
    /// The bytes do not begin with the zstd frame magic.
    NotZstd,
    /// The frame is damaged and decompression gave up partway.
    Corrupted,
}

/// The bytes a zstd frame decompresses to.
pub uninterp spec fn zstd_plain_of(frame: Seq<u8>) -> Seq<u8>;

/// Relies on `zstd::stream::decode_all`: decompression of a zstd frame is
/// a pure function of the frame's bytes; any failure surfaces as `None`.
#[verifier::external_body]
fn zstd_decode(data: &[u8]) -> (r: Option<Vec<u8>>)
    ensures
        r matches Some(v) ==> v@ == zstd_plain_of(data@),
{
    zstd::stream::decode_all(data).ok()
}

/// Whether the bytes begin with the standard zstd frame magic
/// `28 B5 2F FD` (little-endian `0xFD2FB528`).
pub open spec fn spec_has_zstd_magic(data: Seq<u8>) -> bool {
    data.len() >= 4 && data[0] == 0x28 && data[1] == 0xb5 && data[2] == 0x2f && data[3] == 0xfd
}

/// Decompress a manifest container. Bytes that do not start with the
/// standard zstd frame magic are rejected up front; a frame that the
/// decompressor cannot finish is reported as corrupted.
pub fn decompress_manifest(data: &[u8]) -> (r: Result<Vec<u8>, ManifestDecodeError>)
    ensures
        !spec_has_zstd_magic(data@) <==> r == Err::<Vec<u8>, ManifestDecodeError>(
            ManifestDecodeError::NotZstd,
        ),
        r matches Ok(v) ==> v@ == zstd_plain_of(data@),
{
    if data.len() < 4 || data[0] != 0x28 || data[1] != 0xb5 || data[2] != 0x2f || data[3] != 0xfd {
        return Err(ManifestDecodeError::NotZstd);
    }
    match zstd_decode(data) {
        Some(v) => Ok(v),
        None => Err(ManifestDecodeError::Corrupted),
    }
}

} // verus!
