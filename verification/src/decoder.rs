//! Decoding a whole payload: the header, an optional zstd layer over the
//! block stream, and each block frame up to the END sentinel.
use vstd::prelude::*;
use vstd::slice::slice_subrange;
use crate::block::{Block, BlockContent, BlockModel, ContentModel, spec_decode_content};
use crate::block_frame::{BlockFrame, BlockFlags, spec_read_frame};
use crate::block_type::{BlockType, spec_block_type_from_id};
use crate::content_store::{ContentStore, MemoryContentStore};
use crate::decompression::{
    MAX_BLOCK_DECOMPRESSED_SIZE, MAX_PAYLOAD_DECOMPRESSED_SIZE, decompress, spec_decode_decompress,
};
use crate::error::{DecodeError, DecodeErrorView};
use crate::fields::TypeError;
use crate::header::{BcpHeader, HEADER_SIZE, spec_read_header};
use crate::summary::{Summary, spec_decode_summary};
use crate::varint::{WireError, decode_varint, lemma_decode_varint_bounds, spec_decode_varint};

verus! {

/// A decoded payload: the header and the blocks, END sentinel excluded,
/// in wire order.
#[derive(Debug)]
pub struct DecodedPayload {
    pub header: BcpHeader,
    pub blocks: Vec<Block>,
}

/// The view of a [`DecodedPayload`].
pub struct PayloadModel {
    pub header: BcpHeader,
    pub blocks: Seq<BlockModel>,
}

impl View for DecodedPayload {
    type V = PayloadModel;

    open spec fn view(&self) -> PayloadModel {
        PayloadModel { header: self.header, blocks: self.blocks@.map_values(|b: Block| b@) }
    }
}

/// The body a frame stands for: a reference is looked up in the store.
pub open spec fn spec_resolve_body(flags: BlockFlags, body: Seq<u8>, store: Option<Map<Seq<u8>, Seq<u8>>>) -> Result<Seq<u8>, DecodeErrorView> {
    if flags.spec_is_reference() {
        match store {
            None => Err(DecodeErrorView::MissingContentStore),
            Some(m) => if body.len() != 32 {
                Err(DecodeErrorView::Wire(WireError::UnexpectedEof { offset: body.len() as usize }))
            } else if !m.contains_key(body) {
                Err(DecodeErrorView::UnresolvedReference { hash: body })
            } else {
                Ok(m[body])
            },
        }
    } else {
        Ok(body)
    }
}

/// The summary at the front of a body, if the flags announce one, and the
/// rest of the body.
pub open spec fn spec_split_summary(flags: BlockFlags, d: Seq<u8>) -> Result<(Option<Seq<char>>, Seq<u8>), DecodeErrorView> {
    if flags.spec_has_summary() {
        match spec_decode_summary(d) {
            Err(e) => Err(DecodeErrorView::Type(e)),
            Ok((t, n)) => Ok((Some(t), d.subrange(n as int, d.len() as int))),
        }
    } else {
        Ok((None, d))
    }
}

/// Decoding one frame into a block: resolve a reference, decompress,
/// split off the summary, then decode the body for the block's type.
pub open spec fn spec_decode_block(t: u8, f: u8, body: Seq<u8>, store: Option<Map<Seq<u8>, Seq<u8>>>) -> Result<BlockModel, DecodeErrorView> {
    let flags = BlockFlags { bits: f };
    match spec_resolve_body(flags, body, store) {
        Err(e) => Err(e),
        Ok(r) => match (if flags.spec_is_compressed() {
            spec_decode_decompress(r, MAX_BLOCK_DECOMPRESSED_SIZE)
        } else {
            Ok(r)
        }) {
            Err(e) => Err(e),
            Ok(d) => match spec_split_summary(flags, d) {
                Err(e) => Err(e),
                Ok((summary, rest)) => match spec_decode_content(spec_block_type_from_id(t), rest) {
                    Err(e) => Err(DecodeErrorView::Type(e)),
                    Ok(c) => Ok(
                        BlockModel { block_type: spec_block_type_from_id(t), flags: f, summary, content: c },
                    ),
                },
            },
        },
    }
}

/// The size of the END sentinel at the front of `s`: its type varint, its
/// flags byte and its length varint. A sentinel cut short after its type is
/// reported as `UnexpectedEof`.
pub open spec fn spec_end_size(s: Seq<u8>) -> Result<nat, DecodeErrorView> {
    match spec_decode_varint(s) {
        Err(e) => Err(DecodeErrorView::Wire(e)),
        Ok((_, n1)) => if n1 + 1 >= s.len() {
            Err(DecodeErrorView::Wire(WireError::UnexpectedEof { offset: (n1 + 1) as usize }))
        } else {
            match spec_decode_varint(s.subrange((n1 + 1) as int, s.len() as int)) {
                Err(e) => Err(DecodeErrorView::Wire(e)),
                Ok((_, n2)) => Ok(n1 + 1 + n2),
            }
        },
    }
}

/// Decoding the block stream: frames up to the END sentinel, which must
/// be there and must end the stream.
pub open spec fn spec_decode_frames(s: Seq<u8>, store: Option<Map<Seq<u8>, Seq<u8>>>) -> Result<Seq<BlockModel>, DecodeErrorView>
    decreases s.len(),
{
    if s.len() == 0 {
        Err(DecodeErrorView::MissingEndSentinel)
    } else {
        match spec_read_frame(s) {
            Err(e) => Err(DecodeErrorView::Wire(e)),
            Ok(None) => match spec_end_size(s) {
                Err(e) => Err(e),
                Ok(n) => if n < s.len() {
                    Err(DecodeErrorView::TrailingData { extra_bytes: (s.len() - n) as usize })
                } else {
                    Ok(Seq::empty())
                },
            },
            Ok(Some((t, f, body, n))) => match spec_decode_block(t, f, body, store) {
                Err(e) => Err(e),
                Ok(b) => if 0 < n <= s.len() {
                    match spec_decode_frames(s.subrange(n as int, s.len() as int), store) {
                        Err(e) => Err(e),
                        Ok(bs) => Ok(seq![b] + bs),
                    }
                } else {
                    Err(DecodeErrorView::MissingEndSentinel)
                },
            },
        }
    }
}

/// Decoding a whole payload.
pub open spec fn spec_decode_payload(p: Seq<u8>, store: Option<Map<Seq<u8>, Seq<u8>>>) -> Result<PayloadModel, DecodeErrorView> {
    match spec_read_header(p) {
        Err(e) => Err(DecodeErrorView::InvalidHeader(e)),
        Ok(h) => {
            let rest = p.subrange(HEADER_SIZE as int, p.len() as int);
            match (if h.flags.spec_is_compressed() {
                spec_decode_decompress(rest, MAX_PAYLOAD_DECOMPRESSED_SIZE)
            } else {
                Ok(rest)
            }) {
                Err(e) => Err(e),
                Ok(d) => match spec_decode_frames(d, store) {
                    Err(e) => Err(e),
                    Ok(bs) => Ok(PayloadModel { header: h, blocks: bs }),
                },
            }
        },
    }
}

/// Blocks of a type this library does not know are kept, not rejected: a
/// frame whose type id names no known type, sent without flags, decodes
/// to an `Unknown` block that carries the id and the body unchanged.
pub proof fn lemma_unknown_type_preserved(t: u8, body: Seq<u8>, store: Option<Map<Seq<u8>, Seq<u8>>>)
    requires
        spec_block_type_from_id(t) == BlockType::Unknown(t),
    ensures
        spec_decode_block(t, 0, body, store) == Ok::<BlockModel, DecodeErrorView>(
            BlockModel {
                block_type: BlockType::Unknown(t),
                flags: 0,
                summary: None,
                content: ContentModel::Unknown { type_id: t, body },
            },
        ),
{
    let flags = BlockFlags { bits: 0 };
    assert(0u8 & 1u8 == 0 && 0u8 & 2u8 == 0 && 0u8 & 4u8 == 0) by (bit_vector);
    assert(!flags.spec_is_reference() && !flags.spec_is_compressed() && !flags.spec_has_summary());
}

/// Decodes payloads.
pub struct BcpDecoder;

impl BcpDecoder {
    /// Decode a payload that holds no reference blocks.
    ///
    /// # Errors
    ///
    /// `InvalidHeader`, `DecompressFailed` or `DecompressionBomb` for the
    /// payload or a block, `MissingContentStore` at the first reference
    /// block, `Wire` or `Type` for a malformed frame or body,
    /// `MissingEndSentinel`, and `TrailingData` after the END sentinel.
    pub fn decode(payload: &[u8]) -> (r: Result<DecodedPayload, DecodeError>)
        ensures
            r matches Ok(d) ==> spec_decode_payload(payload@, None) == Ok::<PayloadModel, DecodeErrorView>(d@),
            r matches Err(e) ==> spec_decode_payload(payload@, None) == Err::<PayloadModel, DecodeErrorView>(e@),
    {
        Self::decode_inner::<MemoryContentStore>(payload, None)
    }

    /// Decode a payload whose reference blocks are resolved in `store`.
    ///
    /// # Errors
    ///
    /// Those of [`decode`](Self::decode), with `UnresolvedReference` for a
    /// hash the store does not hold in place of `MissingContentStore`.
    pub fn decode_with_store<S: ContentStore>(payload: &[u8], store: &S) -> (r: Result<DecodedPayload, DecodeError>)
        ensures
            r matches Ok(d) ==> spec_decode_payload(payload@, Some(store.stored())) == Ok::<
                PayloadModel,
                DecodeErrorView,
            >(d@),
            r matches Err(e) ==> spec_decode_payload(payload@, Some(store.stored())) == Err::<
                PayloadModel,
                DecodeErrorView,
            >(e@),
    {
        Self::decode_inner(payload, Some(store))
    }

    fn decode_inner<S: ContentStore>(payload: &[u8], store: Option<&S>) -> (r: Result<DecodedPayload, DecodeError>)
        ensures
            r matches Ok(d) ==> spec_decode_payload(payload@, spec_store_map(store)) == Ok::<
                PayloadModel,
                DecodeErrorView,
            >(d@),
            r matches Err(e) ==> spec_decode_payload(payload@, spec_store_map(store)) == Err::<
                PayloadModel,
                DecodeErrorView,
            >(e@),
    {
        let header = match BcpHeader::read_from(payload) {
            Ok(h) => h,
            Err(e) => return Err(DecodeError::InvalidHeader(e)),
        };
        let rest = slice_subrange(payload, HEADER_SIZE, payload.len());
        let data: Vec<u8> = if header.flags.is_compressed() {
            match decompress(rest, MAX_PAYLOAD_DECOMPRESSED_SIZE) {
                Ok(d) => d,
                Err(e) => return Err(e),
            }
        } else {
            vstd::slice::slice_to_vec(rest)
        };
        let ghost st = spec_store_map(store);
        let ghost d = data@;
        let mut cursor: usize = 0;
        let mut blocks: Vec<Block> = Vec::new();
        assert(d.subrange(0, d.len() as int) =~= d);
        assert(blocks@.map_values(|b: Block| b@) =~= Seq::<BlockModel>::empty());
        while cursor < data.len()
            invariant
                cursor <= d.len(),
                d == data@,
                st == spec_store_map(store),
                spec_decode_payload(payload@, st) == match spec_decode_frames(d, st) {
                    Err(e) => Err::<PayloadModel, DecodeErrorView>(e),
                    Ok(bs) => Ok(PayloadModel { header, blocks: bs }),
                },
                match spec_decode_frames(d.subrange(cursor as int, d.len() as int), st) {
                    Err(e) => spec_decode_frames(d, st) == Err::<Seq<BlockModel>, DecodeErrorView>(e),
                    Ok(tail) => spec_decode_frames(d, st) == Ok::<Seq<BlockModel>, DecodeErrorView>(
                        blocks@.map_values(|b: Block| b@) + tail,
                    ),
                },
            decreases d.len() - cursor,
        {
            let remaining = slice_subrange(data.as_slice(), cursor, data.len());
            let ghost s = remaining@;
            assert(s =~= d.subrange(cursor as int, d.len() as int));
            match BlockFrame::read_from(remaining) {
                Err(e) => return Err(DecodeError::Wire(e)),
                Ok(None) => {
                    let size = match Self::end_sentinel_size(remaining) {
                        Ok(n) => n,
                        Err(e) => return Err(e),
                    };
                    if size < remaining.len() {
                        return Err(DecodeError::TrailingData { extra_bytes: remaining.len() - size });
                    }
                    proof {
                        assert(blocks@.map_values(|b: Block| b@) + Seq::<BlockModel>::empty() =~= blocks@.map_values(|b: Block| b@));
                    }
                    return Ok(DecodedPayload { header, blocks });
                },
                Ok(Some((frame, consumed))) => {
                    let block = match Self::decode_block_frame(&frame, store) {
                        Ok(b) => b,
                        Err(e) => return Err(e),
                    };
                    if !(0 < consumed && consumed <= remaining.len()) {
                        return Err(DecodeError::MissingEndSentinel);
                    }
                    let ghost before = blocks@;
                    blocks.push(block);
                    proof {
                        let nxt = s.subrange(consumed as int, s.len() as int);
                        assert(nxt =~= d.subrange((cursor + consumed) as int, d.len() as int));
                        assert(blocks@.map_values(|b: Block| b@) =~= before.map_values(|b: Block| b@).push(block@));
                        match spec_decode_frames(nxt, st) {
                            Err(e) => {},
                            Ok(tail) => {
                                assert(before.map_values(|b: Block| b@) + (seq![block@] + tail) =~= blocks@.map_values(|b: Block| b@) + tail);
                            },
                        }
                    }
                    cursor = cursor + consumed;
                },
            }
        }
        assert(d.subrange(cursor as int, d.len() as int) =~= Seq::<u8>::empty());
        Err(DecodeError::MissingEndSentinel)
    }

    /// Decode one frame into a block.
    fn decode_block_frame<S: ContentStore>(frame: &BlockFrame, store: Option<&S>) -> (r: Result<Block, DecodeError>)
        ensures
            r matches Ok(b) ==> spec_decode_block(frame.block_type, frame.flags.bits, frame.body@, spec_store_map(store))
                == Ok::<BlockModel, DecodeErrorView>(b@),
            r matches Err(e) ==> spec_decode_block(frame.block_type, frame.flags.bits, frame.body@, spec_store_map(store))
                == Err::<BlockModel, DecodeErrorView>(e@),
    {
        let block_type = BlockType::from_wire_id(frame.block_type);
        let resolved: Vec<u8> = if frame.flags.is_reference() {
            let st = match store {
                Some(s) => s,
                None => return Err(DecodeError::MissingContentStore),
            };
            if frame.body.len() != 32 {
                return Err(DecodeError::Wire(WireError::UnexpectedEof { offset: frame.body.len() }));
            }
            let hash = hash_of(frame.body.as_slice());
            match st.get(&hash) {
                Some(v) => v,
                None => return Err(DecodeError::UnresolvedReference { hash }),
            }
        } else {
            frame.body.clone()
        };
        let decompressed: Vec<u8> = if frame.flags.is_compressed() {
            match decompress(resolved.as_slice(), MAX_BLOCK_DECOMPRESSED_SIZE) {
                Ok(v) => v,
                Err(e) => return Err(e),
            }
        } else {
            resolved
        };
        let mut body: &[u8] = decompressed.as_slice();
        let mut summary: Option<Summary> = None;
        if frame.flags.has_summary() {
            match Summary::decode(body) {
                Ok((sum, consumed)) => {
                    summary = Some(sum);
                    body = slice_subrange(body, consumed, body.len());
                },
                Err(e) => return Err(DecodeError::Type(e)),
            }
        }
        let content = match BlockContent::decode_body(&block_type, body) {
            Ok(c) => c,
            Err(e) => return Err(DecodeError::Type(e)),
        };
        Ok(Block { block_type, flags: BlockFlags { bits: frame.flags.bits }, summary, content })
    }

    /// The size of the END sentinel at the front of `buf`.
    fn end_sentinel_size(buf: &[u8]) -> (r: Result<usize, DecodeError>)
        ensures
            r matches Ok(n) ==> spec_end_size(buf@) == Ok::<nat, DecodeErrorView>(n as nat),
            r matches Err(e) ==> spec_end_size(buf@) == Err::<nat, DecodeErrorView>(e@),
    {
        proof {
            lemma_decode_varint_bounds(buf@);
        }
        let (_, type_len) = match decode_varint(buf) {
            Ok(x) => x,
            Err(e) => return Err(DecodeError::Wire(e)),
        };
        let size = type_len + 1;
        if size >= buf.len() {
            return Err(DecodeError::Wire(WireError::UnexpectedEof { offset: size }));
        }
        let tail = slice_subrange(buf, size, buf.len());
        proof {
            lemma_decode_varint_bounds(tail@);
        }
        let (_, len_size) = match decode_varint(tail) {
            Ok(x) => x,
            Err(e) => return Err(DecodeError::Wire(e)),
        };
        Ok(size + len_size)
    }
}

/// The map of an optional store.
pub open spec fn spec_store_map<S: ContentStore>(store: Option<&S>) -> Option<Map<Seq<u8>, Seq<u8>>> {
    match store {
        Some(s) => Some(s.stored()),
        None => None,
    }
}

/// The 32 bytes of a slice of that length, as a hash.
fn hash_of(b: &[u8]) -> (h: [u8; 32])
    requires
        b@.len() == 32,
    ensures
        h@ == b@,
{
    let mut h = [0u8; 32];
    let mut i: usize = 0;
    while i < 32
        invariant
            i <= 32,
            b@.len() == 32,
            h@.len() == 32,
            forall|j: int| 0 <= j < i ==> h@[j] == b@[j],
        decreases 32 - i,
    {
        h[i] = b[i];
        i = i + 1;
    }
    assert(h@ =~= b@);
    h
}

} // verus!
