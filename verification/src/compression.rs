//! zstd compression of block bodies and payloads. A body is only stored
//! compressed when that makes it strictly smaller.
use vstd::prelude::*;
use crate::error::{CompressionError, CompressionErrorView};

verus! {

/// Bodies shorter than this are never compressed.
pub const COMPRESSION_THRESHOLD: usize = 256;

/// The zstd level used for compression.
pub const DEFAULT_COMPRESSION_LEVEL: i32 = 3;

/// What `zstd::encode_all` yields for these bytes at this level: the
/// compressed frame, or `None` when it reports an error.
pub uninterp spec fn spec_zstd_encode(data: Seq<u8>, level: i32) -> Option<Seq<u8>>;

/// What `zstd::decode_all` yields for these bytes: the decompressed
/// bytes, or the text of the error it reports.
pub uninterp spec fn spec_zstd_decode(data: Seq<u8>) -> Result<Seq<u8>, Seq<char>>;

/// Calls `zstd::encode_all` on `data`. The contract names its result, and
/// states what the zstd documentation gives: decompressing a frame it made
/// yields the input again.
#[verifier::external_body]
pub(crate) fn zstd_encode(data: &[u8], level: i32) -> (r: Option<Vec<u8>>)
    ensures
        r matches Some(c) ==> spec_zstd_encode(data@, level) == Some(c@),
        r is None ==> spec_zstd_encode(data@, level) is None,
        r matches Some(c) ==> (spec_zstd_decode(c@) matches Ok(d) && d == data@),
{
    zstd::encode_all(data, level).ok()
}

/// Calls `zstd::decode_all` on `data`; an error becomes its text. The
/// contract names the result; nothing bounds the size of the output.
#[verifier::external_body]
pub(crate) fn zstd_decode(data: &[u8]) -> (r: Result<Vec<u8>, String>)
    ensures
        r matches Ok(v) ==> (spec_zstd_decode(data@) matches Ok(d) && d == v@),
        r matches Err(m) ==> (spec_zstd_decode(data@) matches Err(t) && t == m@),
{
    match zstd::decode_all(data) {
        Ok(v) => Ok(v),
        Err(e) => Err(e.to_string()),
    }
}

/// The compressed form of `data`, when zstd succeeds and its output is
/// strictly shorter than the input.
pub open spec fn spec_compress(data: Seq<u8>) -> Option<Seq<u8>> {
    match spec_zstd_encode(data, DEFAULT_COMPRESSION_LEVEL) {
        Some(c) => if c.len() < data.len() {
            Some(c)
        } else {
            None
        },
        None => None,
    }
}

/// When `data` is compressed, its compressed form decompresses to it
/// again.
pub open spec fn spec_compress_roundtrips(data: Seq<u8>) -> bool {
    spec_compress(data) matches Some(c) ==> spec_zstd_decode(c) == Ok::<Seq<u8>, Seq<char>>(data)
}

/// Compress `data` with zstd at the default level.
///
/// Returns `None` when compression fails or does not make the data
/// strictly smaller, so that the caller keeps the original bytes.
pub fn compress(data: &[u8]) -> (r: Option<Vec<u8>>)
    ensures
        match r {
            Some(c) => spec_compress(data@) == Some(c@),
            None => spec_compress(data@) is None,
        },
        r matches Some(c) ==> c@.len() < data@.len() && spec_zstd_decode(c@) == Ok::<
            Seq<u8>,
            Seq<char>,
        >(data@),
        spec_compress_roundtrips(data@),
{
    match zstd_encode(data, DEFAULT_COMPRESSION_LEVEL) {
        Some(c) => if c.len() < data.len() {
            Some(c)
        } else {
            None
        },
        None => None,
    }
}

/// Decompressing with a size limit.
pub open spec fn spec_decompress(data: Seq<u8>, max_size: usize) -> Result<Seq<u8>, CompressionErrorView> {
    match spec_zstd_decode(data) {
        Err(m) => Err(CompressionErrorView::DecompressFailed(m)),
        Ok(v) => if v.len() > max_size {
            Err(CompressionErrorView::DecompressionBomb { actual: v.len() as usize, limit: max_size })
        } else {
            Ok(v)
        },
    }
}

/// Decompress a zstd frame, refusing output larger than `max_size`.
///
/// # Errors
///
/// `DecompressFailed` with zstd's message for invalid input,
/// `DecompressionBomb` when the output exceeds `max_size`.
pub fn decompress(data: &[u8], max_size: usize) -> (r: Result<Vec<u8>, CompressionError>)
    ensures
        match r {
            Ok(v) => spec_decompress(data@, max_size) == Ok::<Seq<u8>, CompressionErrorView>(v@),
            Err(e) => spec_decompress(data@, max_size) == Err::<Seq<u8>, CompressionErrorView>(e@),
        },
{
    match zstd_decode(data) {
        Err(m) => Err(CompressionError::DecompressFailed(m)),
        Ok(v) => if v.len() > max_size {
            Err(CompressionError::DecompressionBomb { actual: v.len(), limit: max_size })
        } else {
            Ok(v)
        },
    }
}

/// Decompressing what [`compress`] produced, under a limit no smaller than
/// the original, gives the original back.
pub proof fn lemma_compress_roundtrip(data: Seq<u8>, c: Seq<u8>, max_size: usize)
    requires
        spec_compress(data) == Some(c),
        spec_zstd_decode(c) == Ok::<Seq<u8>, Seq<char>>(data),
        data.len() <= max_size,
    ensures
        spec_decompress(c, max_size) == Ok::<Seq<u8>, CompressionErrorView>(data),
{
}

} // verus!
