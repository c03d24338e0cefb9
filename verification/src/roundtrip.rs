//! What decoding gives back of what the encoder wrote: every block, in
//! order, with its type, summary and content.
use vstd::prelude::*;
use vstd::utf8::encode_utf8;
use crate::block::{BlockModel, ContentModel, lemma_content_roundtrip, spec_content_fits, spec_content_type, spec_encode_content};
use crate::block_frame::{BlockFlags, FLAG_COMPRESSED, FLAG_HAS_SUMMARY, FLAG_IS_REFERENCE, lemma_frame_roundtrip, spec_end_frame, spec_frame_bytes, spec_read_frame};
use crate::block_type::{BlockType, spec_block_type_from_id, spec_block_type_id};
use crate::compression::{COMPRESSION_THRESHOLD, spec_compress, spec_compress_roundtrips, spec_zstd_decode};
use crate::content_store::spec_blake3;
use crate::decoder::{PayloadModel, spec_decode_block, spec_decode_frames, spec_decode_payload, spec_end_size};
use crate::decompression::{MAX_BLOCK_DECOMPRESSED_SIZE, MAX_PAYLOAD_DECOMPRESSED_SIZE};
use crate::encoder::{
    EncoderModel, MAX_BLOCK_BODY_SIZE, PendingModel, spec_address, spec_block_body, spec_encode,
    spec_block_outside_ok, spec_blocks_outside_ok, spec_encode_block, spec_encode_blocks,
    spec_encode_outside_ok, spec_frame_flags, spec_put, spec_wants_compression,
};
use crate::error::DecodeErrorView;
use crate::header::{BcpHeader, HEADER_FLAG_COMPRESSED, HeaderFlags, lemma_header_roundtrip, spec_header_bytes};
use crate::summary::{lemma_summary_roundtrip, spec_summary_bytes};
use crate::varint::{lemma_decode_varint_roundtrip, lemma_varint_len, spec_varint};

verus! {

/// A pending block that the roundtrip covers: a type other than END, a
/// content and summary whose lengths fit the wire.
pub open spec fn spec_pending_ok(p: PendingModel) -> bool {
    &&& !(p.content is End)
    &&& spec_content_fits(p.content)
    &&& p.summary matches Some(t) ==> encode_utf8(t).len() <= u64::MAX
}

/// A decoded block carries the type, summary and content of a pending one.
pub open spec fn spec_block_matches(b: BlockModel, p: PendingModel) -> bool {
    &&& b.block_type == spec_content_type(p.content)
    &&& b.summary == p.summary
    &&& b.content == p.content
}

/// The store that decoding reads resolves the hash of this body to it.
pub open spec fn spec_resolves(m: Option<Map<Seq<u8>, Seq<u8>>>, body: Seq<u8>) -> bool {
    m matches Some(mm) ==> (mm.contains_key(spec_blake3(body)) ==> mm[spec_blake3(body)] == body)
}

/// The id of the type of a fitting content names that type again.
proof fn lemma_content_type_roundtrip(c: ContentModel)
    requires
        spec_content_fits(c),
        !(c is End),
    ensures
        spec_block_type_from_id(spec_block_type_id(spec_content_type(c))) == spec_content_type(c),
        spec_block_type_id(spec_content_type(c)) != 0xFF,
{
}

/// Every key of the first store is a key of the second.
pub open spec fn spec_keys_within(a: Option<Map<Seq<u8>, Seq<u8>>>, b: Option<Map<Seq<u8>, Seq<u8>>>) -> bool {
    a matches Some(x) ==> (b matches Some(y) && forall|k: Seq<u8>| #[trigger] x.contains_key(k) ==> y.contains_key(k))
}

/// Encoding a block only adds keys to the store.
proof fn lemma_block_keeps_keys(e: EncoderModel, p: PendingModel, st: Option<Map<Seq<u8>, Seq<u8>>>)
    ensures
        spec_keys_within(st, spec_encode_block(e, p, st).1),
        spec_encode_block(e, p, st).1 is Some <==> st is Some,
{
}

proof fn lemma_flag_bits(s: bool, r: bool, c: bool)
    ensures
        (spec_frame_flags(s, r, c) & FLAG_HAS_SUMMARY != 0) == s,
        (spec_frame_flags(s, r, c) & FLAG_IS_REFERENCE != 0) == r,
        (spec_frame_flags(s, r, c) & FLAG_COMPRESSED != 0) == c,
{
    let a: u8 = if s { 1u8 } else { 0u8 };
    let b: u8 = if r { 4u8 } else { 0u8 };
    let d: u8 = if c { 2u8 } else { 0u8 };
    assert(spec_frame_flags(s, r, c) == (a | b) | d);
    assert((a == 0 || a == 1) && (b == 0 || b == 4) && (d == 0 || d == 2) ==> ((((a | b) | d) & 1
        != 0) == (a == 1) && (((a | b) | d) & 4 != 0) == (b == 4) && (((a | b) | d) & 2 != 0) == (d
        == 2))) by (bit_vector);
}

/// Decoding one encoded block in front of the rest of a stream.
#[verifier::spinoff_prover]
#[verifier::rlimit(40)]
proof fn lemma_decode_one(
    e: EncoderModel,
    p: PendingModel,
    st: Option<Map<Seq<u8>, Seq<u8>>>,
    fb: Seq<u8>,
    m: Option<Map<Seq<u8>, Seq<u8>>>,
    tail: Seq<u8>,
)
    requires
        spec_encode_block(e, p, st).0 == Ok::<Seq<u8>, crate::error::EncodeError>(fb),
        spec_pending_ok(p),
        spec_block_outside_ok(e, p, st),
        spec_resolves(m, spec_block_body(p)),
        spec_keys_within(spec_encode_block(e, p, st).1, m),
    ensures
        spec_decode_frames(tail, m) matches Err(x) ==> spec_decode_frames(fb + tail, m) == Err::<
            Seq<BlockModel>,
            DecodeErrorView,
        >(x),
        spec_decode_frames(tail, m) matches Ok(bs) ==> (spec_decode_frames(fb + tail, m) matches Ok(
            bs2,
        ) && bs2.len() == bs.len() + 1 && spec_block_matches(bs2[0], p) && bs2.drop_first() == bs),
{
    let body = spec_block_body(p);
    let (b1, is_ref, st1) = spec_address(p, e.auto_dedup, st, body);
    let wants = spec_wants_compression(e, p, is_ref, b1);
    assert(wants ==> spec_compress_roundtrips(b1));
    assert(is_ref ==> spec_blake3(body).len() == 32);
    let compressed = wants && spec_compress(b1) is Some;
    let b2 = if compressed { spec_compress(b1)->Some_0 } else { b1 };
    let t = spec_block_type_id(spec_content_type(p.content));
    let f = spec_frame_flags(p.summary is Some, is_ref, compressed);
    assert(fb == spec_frame_bytes(t, f, b2));
    lemma_content_type_roundtrip(p.content);
    assert(t != 0xFF);
    // The body of the frame fits a u64.
    if is_ref {
        assert(b1 == spec_blake3(body));
    } else {
        assert(b1 == body);
    }
    if compressed {
        assert(b2.len() < b1.len());
    }
    assert(body.len() <= MAX_BLOCK_BODY_SIZE);
    assert(b2.len() <= u64::MAX);
    lemma_frame_roundtrip(t, f, b2, tail);
    lemma_flag_bits(p.summary is Some, is_ref, compressed);
    let flags = BlockFlags { bits: f };
    // Resolving a reference gives the body back.
    if is_ref {
        assert(st1 matches Some(m1) && m1.contains_key(spec_blake3(body)));
        assert(m is Some);
        assert(b1.len() == 32);
    }
    // Decompressing gives the body back.
    if compressed {
        assert(spec_zstd_decode(b2) == Ok::<Seq<u8>, Seq<char>>(b1));
    }
    // The summary, then the content.
    let cb = spec_encode_content(p.content);
    match p.summary {
        Some(txt) => {
            lemma_summary_roundtrip(txt, cb);
            assert(body == spec_summary_bytes(txt) + cb);
            assert(body.subrange(spec_summary_bytes(txt).len() as int, body.len() as int) =~= cb);
        },
        None => {},
    }
    lemma_content_roundtrip(p.content);
    let s = fb + tail;
    assert(s.len() > 0);
    assert(s.subrange(fb.len() as int, s.len() as int) =~= tail);
    match spec_decode_block(t, f, b2, m) {
        Ok(b) => {
            assert(spec_block_matches(b, p));
        },
        Err(_) => {
            assert(false);
        },
    }
}

/// Decoding the frames of encoded blocks in front of the rest of a stream.
#[verifier::spinoff_prover]
#[verifier::rlimit(60)]
proof fn lemma_decode_blocks(
    e: EncoderModel,
    bs: Seq<PendingModel>,
    st: Option<Map<Seq<u8>, Seq<u8>>>,
    frames: Seq<u8>,
    m: Option<Map<Seq<u8>, Seq<u8>>>,
    tail: Seq<u8>,
)
    requires
        spec_encode_blocks(e, bs, st).0 == Ok::<Seq<u8>, crate::error::EncodeError>(frames),
        forall|i: int| 0 <= i < bs.len() ==> #[trigger] spec_pending_ok(bs[i]),
        forall|i: int| 0 <= i < bs.len() ==> #[trigger] spec_resolves(m, spec_block_body(bs[i])),
        spec_blocks_outside_ok(e, bs, st),
        spec_keys_within(spec_encode_blocks(e, bs, st).1, m),
    ensures
        spec_decode_frames(tail, m) matches Err(x) ==> spec_decode_frames(frames + tail, m) == Err::<
            Seq<BlockModel>,
            DecodeErrorView,
        >(x),
        spec_decode_frames(tail, m) matches Ok(rest) ==> (spec_decode_frames(frames + tail, m) matches Ok(
            all,
        ) && all.len() == bs.len() + rest.len() && (forall|i: int|
            0 <= i < bs.len() ==> #[trigger] spec_block_matches(all[i], bs[i])) && all.skip(
            bs.len() as int,
        ) == rest),
    decreases bs.len(),
{
    if bs.len() == 0 {
        assert(frames =~= Seq::<u8>::empty());
        assert(frames + tail =~= tail);
        if let Ok(rest) = spec_decode_frames(tail, m) {
            assert(rest.skip(0) =~= rest);
        }
    } else {
        let pre = bs.drop_last();
        let p = bs.last();
        let (r0, st0) = spec_encode_blocks(e, pre, st);
        let f0 = r0->Ok_0;
        let fb = spec_encode_block(e, p, st0).0->Ok_0;
        assert(frames == f0 + fb);
        assert(spec_pending_ok(bs[bs.len() - 1]));
        assert(spec_resolves(m, spec_block_body(bs[bs.len() - 1])));
        let st_end = spec_encode_blocks(e, bs, st).1;
        assert(spec_encode_block(e, p, st0).1 == st_end);
        lemma_block_keeps_keys(e, p, st0);
        lemma_decode_one(e, p, st0, fb, m, tail);
        assert forall|i: int| 0 <= i < pre.len() implies #[trigger] spec_pending_ok(pre[i])
            && spec_resolves(m, spec_block_body(pre[i])) by {
            assert(pre[i] == bs[i]);
        }
        assert(spec_keys_within(st0, m));
        lemma_decode_blocks(e, pre, st, f0, m, fb + tail);
        assert(frames + tail =~= f0 + (fb + tail));
        if let Ok(rest) = spec_decode_frames(tail, m) {
            let mid = spec_decode_frames(fb + tail, m)->Ok_0;
            let all = spec_decode_frames(frames + tail, m)->Ok_0;
            assert(all.skip(pre.len() as int) == mid);
            assert forall|i: int| 0 <= i < bs.len() implies #[trigger] spec_block_matches(all[i], bs[i]) by {
                if i < pre.len() {
                    assert(pre[i] == bs[i]);
                } else {
                    assert(all[i] == mid[0]);
                }
            }
            assert(all.skip(bs.len() as int) =~= mid.drop_first());
        }
    }
}


/// The END sentinel alone decodes to no block.
proof fn lemma_end_frame_decodes(m: Option<Map<Seq<u8>, Seq<u8>>>)
    ensures
        spec_decode_frames(spec_end_frame(), m) == Ok::<Seq<BlockModel>, DecodeErrorView>(Seq::empty()),
{
    let s = spec_end_frame();
    lemma_frame_roundtrip(0xFF, 0, Seq::empty(), Seq::empty());
    assert(s + Seq::<u8>::empty() =~= s);
    let tv = spec_varint(0xFFnat);
    let lv = spec_varint(0nat);
    assert(s =~= tv + (seq![0u8] + lv));
    lemma_decode_varint_roundtrip(0xFF, seq![0u8] + lv);
    lemma_varint_len(0xFFnat);
    lemma_varint_len(0nat);
    let n1 = tv.len();
    assert(s.subrange((n1 + 1) as int, s.len() as int) =~= lv + Seq::<u8>::empty());
    lemma_decode_varint_roundtrip(0, Seq::empty());
    assert(spec_end_size(s) == Ok::<nat, DecodeErrorView>(s.len()));
}

/// Decoding what the encoder produced gives back every block, in order,
/// with its type, summary and content; a payload with references is read
/// with the store as the encoder left it.
///
/// This holds when each stream the encoder compressed decompresses to
/// what was compressed and each hash it sent has 32 bytes (as the zstd and
/// BLAKE3 wrappers promise at each call, and `encode` states of a payload
/// it produced), when the store resolves the hash of every body to that
/// body (no two bodies in play share a hash), when the header flags are
/// clear, and when the lengths fit the wire and the limits of the decoder.
pub proof fn lemma_encode_then_decode(e: EncoderModel)
    requires
        spec_encode(e).0 is Ok,
        e.flags == 0,
        forall|i: int| 0 <= i < e.blocks.len() ==> #[trigger] spec_pending_ok(e.blocks[i]),
        forall|i: int|
            0 <= i < e.blocks.len() ==> #[trigger] spec_resolves(spec_encode(e).1, spec_block_body(e.blocks[i])),
        spec_encode_outside_ok(e),
        spec_encode(e).0->Ok_0.len() <= usize::MAX,
        e.compress_payload ==> spec_encode_blocks(e, e.blocks, e.store).0->Ok_0.len() + spec_end_frame().len()
            <= MAX_PAYLOAD_DECOMPRESSED_SIZE,
    ensures
        spec_decode_payload(spec_encode(e).0->Ok_0, spec_encode(e).1) matches Ok(pm) && pm.header.version_major
            == 1 && pm.header.version_minor == 0 && pm.blocks.len()
            == e.blocks.len() && (forall|i: int|
            0 <= i < e.blocks.len() ==> #[trigger] spec_block_matches(pm.blocks[i], e.blocks[i])),
{
    let (r, st) = spec_encode_blocks(e, e.blocks, e.store);
    let frames = r->Ok_0;
    let stream = frames + spec_end_frame();
    let bytes = spec_encode(e).0->Ok_0;
    assert(spec_encode(e).1 == st);
    assert(spec_keys_within(st, st));
    lemma_decode_blocks(e, e.blocks, e.store, frames, st, spec_end_frame());
    lemma_end_frame_decodes(st);
    let all = spec_decode_frames(stream, st)->Ok_0;
    assert(all.skip(e.blocks.len() as int) =~= Seq::<BlockModel>::empty());
    let compressed = e.compress_payload && spec_compress(stream) is Some;
    let x = if compressed { spec_compress(stream)->Some_0 } else { stream };
    let hf: u8 = if compressed { 0u8 | HEADER_FLAG_COMPRESSED } else { 0u8 };
    let h = BcpHeader { version_major: 1, version_minor: 0, flags: HeaderFlags { bits: hf } };
    assert(bytes == spec_header_bytes(h) + x);
    lemma_header_roundtrip(h, x);
    assert(bytes.subrange(8, bytes.len() as int) =~= x);
    assert((0u8 | 1u8) & 1u8 != 0u8 && (0u8 & 1u8) == 0u8) by (bit_vector);
    if compressed {
        assert(spec_compress_roundtrips(stream));
        assert(spec_zstd_decode(x) == Ok::<Seq<u8>, Seq<char>>(stream));
    }
}

/// An encoder built only from adding blocks and summaries: no header
/// flags, no compression, no store, no per-block options.
pub open spec fn spec_plain(e: EncoderModel) -> bool {
    &&& e.flags == 0
    &&& !e.compress_payload
    &&& !e.compress_all_blocks
    &&& e.store is None
    &&& !e.auto_dedup
    &&& forall|i: int| 0 <= i < e.blocks.len() ==> !(#[trigger] e.blocks[i]).compress && !e.blocks[i].content_address
}

/// The encoder that replays decoded blocks: for each, in order, the call
/// that adds its content, then its summary if it has one.
pub open spec fn spec_replay(bs: Seq<BlockModel>) -> EncoderModel {
    EncoderModel {
        blocks: bs.map_values(
            |b: BlockModel| PendingModel { content: b.content, summary: b.summary, compress: false, content_address: false },
        ),
        flags: 0,
        compress_payload: false,
        compress_all_blocks: false,
        store: None,
        auto_dedup: false,
    }
}

/// Without a store, encoding blocks leaves no store.
proof fn lemma_blocks_no_store(e: EncoderModel, bs: Seq<PendingModel>)
    ensures
        spec_encode_blocks(e, bs, None).1 is None,
    decreases bs.len(),
{
    if bs.len() > 0 {
        lemma_blocks_no_store(e, bs.drop_last());
        lemma_block_keeps_keys(e, bs.last(), spec_encode_blocks(e, bs.drop_last(), None).1);
    }
}

/// An encoder built from adding blocks and summaries compresses nothing
/// and sends no reference, so nothing is needed of the outside results.
proof fn lemma_plain_blocks_outside_ok(e: EncoderModel, bs: Seq<PendingModel>)
    requires
        spec_plain(e),
        forall|i: int| 0 <= i < bs.len() ==> !(#[trigger] bs[i]).compress && !bs[i].content_address,
    ensures
        spec_blocks_outside_ok(e, bs, None),
    decreases bs.len(),
{
    if bs.len() > 0 {
        let pre = bs.drop_last();
        assert forall|i: int| 0 <= i < pre.len() implies !(#[trigger] pre[i]).compress && !pre[i].content_address by {
            assert(pre[i] == bs[i]);
        }
        lemma_plain_blocks_outside_ok(e, pre);
        lemma_blocks_no_store(e, pre);
        assert(!bs[bs.len() - 1].compress);
    }
}

/// Decoding what an encoder built from adding blocks and summaries
/// produced gives back every block, in order, with its type, summary and
/// content, under header version 1.0, whatever zstd and BLAKE3 compute.
pub proof fn lemma_plain_encode_then_decode(e: EncoderModel)
    requires
        spec_plain(e),
        spec_encode(e).0 is Ok,
        forall|i: int| 0 <= i < e.blocks.len() ==> #[trigger] spec_pending_ok(e.blocks[i]),
        spec_encode(e).0->Ok_0.len() <= usize::MAX,
    ensures
        spec_decode_payload(spec_encode(e).0->Ok_0, None) matches Ok(pm) && pm.header.version_major == 1
            && pm.header.version_minor == 0 && pm.blocks.len() == e.blocks.len() && (forall|i: int|
            0 <= i < e.blocks.len() ==> #[trigger] spec_block_matches(pm.blocks[i], e.blocks[i])),
{
    lemma_blocks_no_store(e, e.blocks);
    assert(spec_encode(e).1 is None);
    lemma_plain_blocks_outside_ok(e, e.blocks);
    lemma_encode_then_decode(e);
}

/// Decoding the payload of an encoder built from adding blocks and
/// summaries, then adding the decoded blocks again with their summaries,
/// and encoding that, gives the same bytes.
pub proof fn lemma_reencode_decoded(e: EncoderModel)
    requires
        spec_plain(e),
        spec_encode(e).0 is Ok,
        forall|i: int| 0 <= i < e.blocks.len() ==> #[trigger] spec_pending_ok(e.blocks[i]),
        spec_encode(e).0->Ok_0.len() <= usize::MAX,
    ensures
        spec_decode_payload(spec_encode(e).0->Ok_0, None) matches Ok(pm) && spec_encode(spec_replay(pm.blocks)).0
            == spec_encode(e).0,
{
    lemma_plain_encode_then_decode(e);
    let pm = spec_decode_payload(spec_encode(e).0->Ok_0, None)->Ok_0;
    let r = spec_replay(pm.blocks);
    assert(r.blocks =~= e.blocks) by {
        assert forall|i: int| 0 <= i < e.blocks.len() implies r.blocks[i] == e.blocks[i] by {
            assert(spec_block_matches(pm.blocks[i], e.blocks[i]));
        }
    }
    assert(r == e);
}

} // verus!
