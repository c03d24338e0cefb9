//! The error types of the encoder, the decoder and the renderer.
use vstd::prelude::*;
use crate::block_type::BlockType;
use crate::fields::TypeError;
use crate::varint::WireError;

verus! {

/// Errors while building a payload.
#[derive(Debug, Clone, PartialEq, Eq)]
pub enum EncodeError {
    /// No block was added before encoding.
    EmptyPayload,
    /// A block body (summary included) is larger than the limit.
    BlockTooLarge { size: usize, limit: usize },
    /// A modifier was called before any block was added.
    InvalidSummaryTarget,
    /// Content addressing was asked for without a content store.
    MissingContentStore,
    /// The wire layer failed.
    Wire(WireError),
}

/// Errors of the zstd helpers.
#[derive(Debug, Clone, PartialEq, Eq)]
pub enum CompressionError {
    /// The data is not a valid zstd stream; the text is zstd's own.
    DecompressFailed(String),
    /// The data decompresses to more than the limit.
    DecompressionBomb { actual: usize, limit: usize },
}

/// The view of a [`CompressionError`].
pub enum CompressionErrorView {
    DecompressFailed(Seq<char>),
    DecompressionBomb { actual: usize, limit: usize },
}

impl View for CompressionError {
    type V = CompressionErrorView;

    open spec fn view(&self) -> CompressionErrorView {
        match self {
            CompressionError::DecompressFailed(m) => CompressionErrorView::DecompressFailed(m@),
            CompressionError::DecompressionBomb { actual, limit } => CompressionErrorView::DecompressionBomb {
                actual: *actual,
                limit: *limit,
            },
        }
    }
}

/// Errors while decoding a payload.
#[derive(Debug, Clone, PartialEq, Eq)]
pub enum DecodeError {
    /// The 8-byte header is missing or invalid.
    InvalidHeader(WireError),
    /// A block body is larger than allowed.
    BlockTooLarge { size: usize, offset: usize },
    /// A required field is absent.
    MissingField { block_type: &'static str, field_name: &'static str, field_id: u64 },
    /// A string field is not UTF-8.
    InvalidUtf8 { block_type: &'static str, field_name: &'static str },
    /// The block stream ends without the END sentinel.
    MissingEndSentinel,
    /// Bytes follow the END sentinel.
    TrailingData { extra_bytes: usize },
    /// zstd could not decompress a body or the payload; the text is zstd's own.
    DecompressFailed(String),
    /// A body or the payload decompresses to more than its limit.
    DecompressionBomb { actual: usize, limit: usize },
    /// A reference names a hash that the content store does not hold.
    UnresolvedReference { hash: [u8; 32] },
    /// A reference block was met without a content store.
    MissingContentStore,
    /// A block body could not be interpreted.
    Type(TypeError),
    /// The wire layer failed.
    Wire(WireError),
}

/// The view of a [`DecodeError`]: strings and hashes as sequences.
pub enum DecodeErrorView {
    InvalidHeader(WireError),
    BlockTooLarge { size: usize, offset: usize },
    MissingField { block_type: &'static str, field_name: &'static str, field_id: u64 },
    InvalidUtf8 { block_type: &'static str, field_name: &'static str },
    MissingEndSentinel,
    TrailingData { extra_bytes: usize },
    DecompressFailed(Seq<char>),
    DecompressionBomb { actual: usize, limit: usize },
    UnresolvedReference { hash: Seq<u8> },
    MissingContentStore,
    Type(TypeError),
    Wire(WireError),
}

impl View for DecodeError {
    type V = DecodeErrorView;

    open spec fn view(&self) -> DecodeErrorView {
        match self {
            DecodeError::InvalidHeader(e) => DecodeErrorView::InvalidHeader(*e),
            DecodeError::BlockTooLarge { size, offset } => DecodeErrorView::BlockTooLarge {
                size: *size,
                offset: *offset,
            },
            DecodeError::MissingField { block_type, field_name, field_id } => DecodeErrorView::MissingField {
                block_type: *block_type,
                field_name: *field_name,
                field_id: *field_id,
            },
            DecodeError::InvalidUtf8 { block_type, field_name } => DecodeErrorView::InvalidUtf8 {
                block_type: *block_type,
                field_name: *field_name,
            },
            DecodeError::MissingEndSentinel => DecodeErrorView::MissingEndSentinel,
            DecodeError::TrailingData { extra_bytes } => DecodeErrorView::TrailingData {
                extra_bytes: *extra_bytes,
            },
            DecodeError::DecompressFailed(m) => DecodeErrorView::DecompressFailed(m@),
            DecodeError::DecompressionBomb { actual, limit } => DecodeErrorView::DecompressionBomb {
                actual: *actual,
                limit: *limit,
            },
            DecodeError::UnresolvedReference { hash } => DecodeErrorView::UnresolvedReference {
                hash: hash@,
            },
            DecodeError::MissingContentStore => DecodeErrorView::MissingContentStore,
            DecodeError::Type(e) => DecodeErrorView::Type(*e),
            DecodeError::Wire(e) => DecodeErrorView::Wire(*e),
        }
    }
}

/// Errors while rendering decoded blocks.
#[derive(Debug, Clone, PartialEq, Eq)]
pub enum DriverError {
    /// There is no block to render.
    EmptyInput,
    /// A block of this type cannot be rendered.
    UnsupportedBlockType { block_type: BlockType },
    /// The content of the block at this index is not valid UTF-8.
    InvalidContent { block_index: usize },
}

} // verus!
