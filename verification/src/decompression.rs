//! Decompression on the decoding side, with limits against inputs that
//! expand without bound.
use vstd::prelude::*;
use crate::compression::{spec_zstd_decode, zstd_decode};
use crate::error::{DecodeError, DecodeErrorView};

verus! {

/// The largest body a compressed block may expand to (16 MiB).
pub const MAX_BLOCK_DECOMPRESSED_SIZE: usize = 16777216;

/// The largest block stream a compressed payload may expand to (256 MiB).
pub const MAX_PAYLOAD_DECOMPRESSED_SIZE: usize = 268435456;

/// Decompressing with a size limit, in the decoder's error terms.
pub open spec fn spec_decode_decompress(data: Seq<u8>, max_size: usize) -> Result<Seq<u8>, DecodeErrorView> {
    match spec_zstd_decode(data) {
        Err(m) => Err(DecodeErrorView::DecompressFailed(m)),
        Ok(v) => if v.len() > max_size {
            Err(DecodeErrorView::DecompressionBomb { actual: v.len() as usize, limit: max_size })
        } else {
            Ok(v)
        },
    }
}

/// Decompress a zstd frame, refusing output larger than `max_size`.
///
/// # Errors
///
/// `DecompressFailed` with zstd's message for invalid input,
/// `DecompressionBomb` when the output exceeds `max_size`.
pub fn decompress(data: &[u8], max_size: usize) -> (r: Result<Vec<u8>, DecodeError>)
    ensures
        match r {
            Ok(v) => spec_decode_decompress(data@, max_size) == Ok::<Seq<u8>, DecodeErrorView>(v@),
            Err(e) => spec_decode_decompress(data@, max_size) == Err::<Seq<u8>, DecodeErrorView>(e@),
        },
{
    match zstd_decode(data) {
        Err(m) => Err(DecodeError::DecompressFailed(m)),
        Ok(v) => if v.len() > max_size {
            Err(DecodeError::DecompressionBomb { actual: v.len(), limit: max_size })
        } else {
            Ok(v)
        },
    }
}

} // verus!
