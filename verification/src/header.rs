//! The fixed 8-byte file header that opens every payload:
//! magic `"BCP\0"`, major version, minor version, flags, reserved byte.
use vstd::prelude::*;
use crate::varint::WireError;

verus! {

/// Size of the file header in bytes.
pub const HEADER_SIZE: usize = 8;

/// The four magic bytes that open every payload.
pub const LCP_MAGIC: [u8; 4] = [0x42, 0x43, 0x50, 0x00];

/// The format version this library writes.
pub const VERSION_MAJOR: u8 = 1;

/// Minor version written by this library.
pub const VERSION_MINOR: u8 = 0;

/// Bit 0 of the header flags: everything after the header is one zstd frame.
pub const HEADER_FLAG_COMPRESSED: u8 = 0x01;

/// The header's flags byte.
#[derive(Clone, Copy, Debug, PartialEq, Eq, Structural)]
pub struct HeaderFlags {
    pub bits: u8,
}

impl HeaderFlags {
    /// No flags set.
    pub fn none() -> (f: Self)
        ensures
            f.bits == 0,
    {
        HeaderFlags { bits: 0 }
    }

    /// Wrap a raw flags byte (unknown bits are kept).
    pub fn from_raw(bits: u8) -> (f: Self)
        ensures
            f.bits == bits,
    {
        HeaderFlags { bits }
    }

    /// The raw flags byte.
    pub fn raw(&self) -> (b: u8)
        ensures
            b == self.bits,
    {
        self.bits
    }

    pub open spec fn spec_is_compressed(&self) -> bool {
        self.bits & HEADER_FLAG_COMPRESSED != 0
    }

    /// Whether the whole block stream is zstd-compressed.
    pub fn is_compressed(&self) -> (b: bool)
        ensures
            b == self.spec_is_compressed(),
    {
        self.bits & HEADER_FLAG_COMPRESSED != 0
    }
}

/// A parsed file header. The magic and the reserved byte are implied.
#[derive(Clone, Copy, Debug, PartialEq, Eq, Structural)]
pub struct BcpHeader {
    pub version_major: u8,
    pub version_minor: u8,
    pub flags: HeaderFlags,
}

/// The eight bytes that encode `h`.
pub open spec fn spec_header_bytes(h: BcpHeader) -> Seq<u8> {
    seq![0x42u8, 0x43u8, 0x50u8, 0x00u8, h.version_major, h.version_minor, h.flags.bits, 0u8]
}

/// The magic bytes read as a big-endian `u32`.
pub open spec fn spec_magic_word(s: Seq<u8>) -> u32 {
    (s[0] as int * 0x1000000 + s[1] as int * 0x10000 + s[2] as int * 0x100 + s[3] as int) as u32
}

/// What reading a header from the front of `s` gives.
pub open spec fn spec_read_header(s: Seq<u8>) -> Result<BcpHeader, WireError> {
    if s.len() < HEADER_SIZE {
        Err(WireError::UnexpectedEof { offset: s.len() as usize })
    } else if !(s[0] == 0x42 && s[1] == 0x43 && s[2] == 0x50 && s[3] == 0x00) {
        Err(WireError::InvalidMagic { found: spec_magic_word(s) })
    } else if s[4] != VERSION_MAJOR {
        Err(WireError::UnsupportedVersion { major: s[4], minor: s[5] })
    } else if s[7] != 0 {
        Err(WireError::ReservedNonZero { value: s[7] })
    } else {
        Ok(BcpHeader { version_major: s[4], version_minor: s[5], flags: HeaderFlags { bits: s[6] } })
    }
}

impl BcpHeader {
    /// A version 1.0 header with the given flags.
    pub fn new(flags: HeaderFlags) -> (h: Self)
        ensures
            h.version_major == VERSION_MAJOR,
            h.version_minor == VERSION_MINOR,
            h.flags == flags,
    {
        BcpHeader { version_major: VERSION_MAJOR, version_minor: VERSION_MINOR, flags }
    }

    /// Parse and validate the header at the front of `buf`.
    ///
    /// # Errors
    ///
    /// `UnexpectedEof` when `buf` is shorter than 8 bytes, `InvalidMagic`,
    /// `UnsupportedVersion` when the major version is not 1, and
    /// `ReservedNonZero`, checked in that order.
    pub fn read_from(buf: &[u8]) -> (res: Result<Self, WireError>)
        requires
            buf@.len() <= usize::MAX,
        ensures
            res == spec_read_header(buf@),
    {
        if buf.len() < HEADER_SIZE {
            return Err(WireError::UnexpectedEof { offset: buf.len() });
        }
        if !(buf[0] == 0x42 && buf[1] == 0x43 && buf[2] == 0x50 && buf[3] == 0x00) {
            let found = (buf[0] as u32) * 0x1000000 + (buf[1] as u32) * 0x10000 + (buf[2] as u32)
                * 0x100 + (buf[3] as u32);
            return Err(WireError::InvalidMagic { found });
        }
        if buf[4] != VERSION_MAJOR {
            return Err(WireError::UnsupportedVersion { major: buf[4], minor: buf[5] });
        }
        if buf[7] != 0 {
            return Err(WireError::ReservedNonZero { value: buf[7] });
        }
        Ok(BcpHeader { version_major: buf[4], version_minor: buf[5], flags: HeaderFlags { bits: buf[6] } })
    }

    /// Write the header into the first 8 bytes of `buf`, which must already
    /// hold at least 8 bytes.
    ///
    /// # Errors
    ///
    /// `UnexpectedEof` (with the buffer length) when `buf` is shorter than
    /// 8 bytes; `buf` is then left unchanged.
    pub fn write_to(&self, buf: &mut Vec<u8>) -> (res: Result<(), WireError>)
        ensures
            old(buf)@.len() < HEADER_SIZE ==> res == Err::<(), WireError>(
                WireError::UnexpectedEof { offset: old(buf)@.len() as usize },
            ) && final(buf)@ == old(buf)@,
            old(buf)@.len() >= HEADER_SIZE ==> res is Ok && final(buf)@ == spec_header_bytes(*self)
                + old(buf)@.subrange(HEADER_SIZE as int, old(buf)@.len() as int),
    {
        if buf.len() < HEADER_SIZE {
            return Err(WireError::UnexpectedEof { offset: buf.len() });
        }
        buf.set(0, 0x42);
        buf.set(1, 0x43);
        buf.set(2, 0x50);
        buf.set(3, 0x00);
        buf.set(4, self.version_major);
        buf.set(5, self.version_minor);
        buf.set(6, self.flags.bits);
        buf.set(7, 0);
        assert(buf@ =~= spec_header_bytes(*self) + old(buf)@.subrange(
            HEADER_SIZE as int,
            old(buf)@.len() as int,
        ));
        Ok(())
    }
}

/// Reading back the bytes of a version-1 header gives the header.
pub proof fn lemma_header_roundtrip(h: BcpHeader, rest: Seq<u8>)
    requires
        h.version_major == VERSION_MAJOR,
        (spec_header_bytes(h) + rest).len() <= usize::MAX,
    ensures
        spec_read_header(spec_header_bytes(h) + rest) == Ok::<BcpHeader, WireError>(h),
{
    let s = spec_header_bytes(h) + rest;
    assert(s[4] == h.version_major && s[5] == h.version_minor && s[6] == h.flags.bits && s[7] == 0);
    assert(HeaderFlags { bits: s[6] } == h.flags);
}

} // verus!
