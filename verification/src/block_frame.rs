//! The block frame envelope: `block_type (varint) | flags (u8) |
//! content_len (varint) | body`. A frame whose type is `0xFF` is the END
//! sentinel that closes the block stream.
use vstd::prelude::*;
use vstd::slice::{slice_subrange, slice_to_vec};
use crate::varint::{
    WireError, decode_varint, encode_varint, lemma_decode_varint_bounds,
    lemma_decode_varint_roundtrip, spec_decode_varint, spec_varint,
};

verus! {

/// Bit 0: the body starts with a summary sub-block.
pub const FLAG_HAS_SUMMARY: u8 = 0x01;
/// Bit 1: the body is zstd-compressed.
pub const FLAG_COMPRESSED: u8 = 0x02;
/// Bit 2: the body is a 32-byte BLAKE3 hash of the real body.
pub const FLAG_IS_REFERENCE: u8 = 0x04;

/// A block frame's flags byte.
#[derive(Clone, Copy, Debug, PartialEq, Eq, Structural)]
pub struct BlockFlags {
    pub bits: u8,
}

impl BlockFlags {
    /// No flags set.
    pub fn none() -> (f: Self)
        ensures
            f.bits == 0,
    {
        BlockFlags { bits: 0 }
    }

    /// Wrap a raw flags byte (unknown bits are kept).
    pub fn from_raw(bits: u8) -> (f: Self)
        ensures
            f.bits == bits,
    {
        BlockFlags { bits }
    }

    /// The raw flags byte.
    pub fn raw(&self) -> (b: u8)
        ensures
            b == self.bits,
    {
        self.bits
    }

    pub open spec fn spec_has_summary(&self) -> bool {
        self.bits & FLAG_HAS_SUMMARY != 0
    }

    pub open spec fn spec_is_compressed(&self) -> bool {
        self.bits & FLAG_COMPRESSED != 0
    }

    pub open spec fn spec_is_reference(&self) -> bool {
        self.bits & FLAG_IS_REFERENCE != 0
    }

    /// Whether the body starts with a summary.
    pub fn has_summary(&self) -> (b: bool)
        ensures
            b == self.spec_has_summary(),
    {
        self.bits & FLAG_HAS_SUMMARY != 0
    }

    /// Whether the body is zstd-compressed.
    pub fn is_compressed(&self) -> (b: bool)
        ensures
            b == self.spec_is_compressed(),
    {
        self.bits & FLAG_COMPRESSED != 0
    }

    /// Whether the body is a content-store reference.
    pub fn is_reference(&self) -> (b: bool)
        ensures
            b == self.spec_is_reference(),
    {
        self.bits & FLAG_IS_REFERENCE != 0
    }
}

/// One framed block as it appears on the wire.
#[derive(Debug)]
pub struct BlockFrame {
    pub block_type: u8,
    pub flags: BlockFlags,
    pub body: Vec<u8>,
}

/// The bytes of a frame.
pub open spec fn spec_frame_bytes(block_type: u8, flags: u8, body: Seq<u8>) -> Seq<u8> {
    spec_varint(block_type as nat) + seq![flags] + spec_varint(body.len()) + body
}

/// The END sentinel: type `0xFF`, no flags, empty body (`FF 01 00 00`).
pub open spec fn spec_end_frame() -> Seq<u8> {
    spec_frame_bytes(0xFF, 0, Seq::empty())
}

/// What reading a frame from the front of `s` gives: `None` for the END
/// sentinel (nothing consumed), otherwise the type, flags, body and the
/// number of bytes the frame occupies.
pub open spec fn spec_read_frame(s: Seq<u8>) -> Result<Option<(u8, u8, Seq<u8>, nat)>, WireError> {
    match spec_decode_varint(s) {
        Err(e) => Err(e),
        Ok((t, n1)) => {
            let bt = (t % 256) as u8;
            if bt == 0xFF {
                Ok(None)
            } else if n1 >= s.len() {
                Err(WireError::UnexpectedEof { offset: n1 as usize })
            } else {
                let rest = s.subrange((n1 + 1) as int, s.len() as int);
                match spec_decode_varint(rest) {
                    Err(WireError::UnexpectedEof { offset }) => Err(
                        WireError::UnexpectedEof { offset: (offset + n1 + 1) as usize },
                    ),
                    Err(e) => Err(e),
                    Ok((len, n2)) => {
                        let start = n1 + 1 + n2;
                        if len > s.len() - start {
                            Err(WireError::UnexpectedEof { offset: s.len() as usize })
                        } else {
                            Ok(
                                Some(
                                    (
                                        bt,
                                        s[n1 as int],
                                        s.subrange(start as int, (start + len) as int),
                                        (start + len) as nat,
                                    ),
                                ),
                            )
                        }
                    },
                }
            }
        },
    }
}

impl BlockFrame {
    /// Append this frame's bytes to `out`; returns the number of bytes
    /// written.
    pub fn write_to(&self, out: &mut Vec<u8>) -> (res: Result<usize, WireError>)
        ensures
            final(out)@ == old(out)@ + spec_frame_bytes(self.block_type, self.flags.bits, self.body@),
            res == Ok::<usize, WireError>(
                spec_frame_bytes(self.block_type, self.flags.bits, self.body@).len() as usize,
            ),
            spec_frame_bytes(self.block_type, self.flags.bits, self.body@).len() <= usize::MAX,
    {
        let ghost before = out@;
        let start_len = out.len();
        encode_varint(self.block_type as u64, out);
        out.push(self.flags.bits);
        encode_varint(self.body.len() as u64, out);
        out.extend_from_slice(self.body.as_slice());
        assert(out@ =~= before + spec_frame_bytes(self.block_type, self.flags.bits, self.body@));
        Ok(out.len() - start_len)
    }

    /// Read one frame from the front of `buf`.
    ///
    /// Returns `Ok(None)` when the frame is the END sentinel (type `0xFF`),
    /// without consuming it; otherwise the frame and the bytes it occupies.
    /// A type varint above 255 is truncated to its low byte.
    ///
    /// # Errors
    ///
    /// `UnexpectedEof` when the frame is cut short, `VarintTooLong` for a
    /// malformed varint.
    pub fn read_from(buf: &[u8]) -> (res: Result<Option<(BlockFrame, usize)>, WireError>)
        ensures
            match spec_read_frame(buf@) {
                Ok(None) => res matches Ok(None),
                Ok(Some((t, f, body, n))) => res matches Ok(Some((fr, m))) && fr.block_type == t
                    && fr.flags.bits == f && fr.body@ == body && m == n,
                Err(e) => res == Err::<Option<(BlockFrame, usize)>, WireError>(e),
            },
    {
        proof {
            lemma_decode_varint_bounds(buf@);
        }
        let (t, n1) = match decode_varint(buf) {
            Ok(x) => x,
            Err(e) => return Err(e),
        };
        let bt = (t % 256) as u8;
        if bt == 0xFF {
            return Ok(None);
        }
        if n1 >= buf.len() {
            return Err(WireError::UnexpectedEof { offset: n1 });
        }
        let flags = buf[n1];
        let rest = slice_subrange(buf, n1 + 1, buf.len());
        proof {
            lemma_decode_varint_bounds(rest@);
        }
        let (len, n2) = match decode_varint(rest) {
            Ok(x) => x,
            Err(WireError::UnexpectedEof { offset }) => {
                return Err(WireError::UnexpectedEof { offset: offset + n1 + 1 });
            },
            Err(e) => return Err(e),
        };
        let start = n1 + 1 + n2;
        if len > (buf.len() - start) as u64 {
            return Err(WireError::UnexpectedEof { offset: buf.len() });
        }
        let end = start + len as usize;
        let body = slice_to_vec(slice_subrange(buf, start, end));
        Ok(Some((BlockFrame { block_type: bt, flags: BlockFlags { bits: flags }, body }, end)))
    }
}

/// Reading back a written frame gives it back (or `None` for the END
/// type), whatever follows.
pub proof fn lemma_frame_roundtrip(block_type: u8, flags: u8, body: Seq<u8>, rest: Seq<u8>)
    requires
        body.len() <= u64::MAX,
    ensures
        block_type != 0xFF ==> spec_read_frame(spec_frame_bytes(block_type, flags, body) + rest)
            == Ok::<Option<(u8, u8, Seq<u8>, nat)>, WireError>(
            Some((block_type, flags, body, spec_frame_bytes(block_type, flags, body).len()))),
        block_type == 0xFF ==> spec_read_frame(spec_frame_bytes(block_type, flags, body) + rest)
            == Ok::<Option<(u8, u8, Seq<u8>, nat)>, WireError>(None),
{
    let tv = spec_varint(block_type as nat);
    let lv = spec_varint(body.len());
    let s = spec_frame_bytes(block_type, flags, body) + rest;
    assert(s =~= tv + (seq![flags] + lv + body + rest));
    lemma_decode_varint_roundtrip(block_type as u64, seq![flags] + lv + body + rest);
    let n1 = tv.len();
    if block_type != 0xFF {
        assert(s[n1 as int] == flags);
        let r = s.subrange((n1 + 1) as int, s.len() as int);
        assert(r =~= lv + (body + rest));
        lemma_decode_varint_roundtrip(body.len() as u64, body + rest);
        let start = n1 + 1 + lv.len();
        assert(s.subrange(start as int, (start + body.len()) as int) =~= body);
    }
}

} // verus!
