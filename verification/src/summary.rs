//! The summary sub-block that opens a block body when the frame's
//! `HAS_SUMMARY` flag is set: a length-prefixed UTF-8 string.
use vstd::prelude::*;
use vstd::slice::slice_to_vec;
use vstd::string::StringSliceAdditionalSpecFns;
use vstd::utf8::{decode_utf8, encode_utf8, valid_utf8};
use crate::fields::{TypeError, decode_bytes_value, spec_decode_bytes_value};
use crate::text::utf8_to_string;
use crate::varint::{encode_varint, lemma_decode_varint_roundtrip, spec_varint};

verus! {

broadcast use vstd::utf8::encode_utf8_valid_utf8, vstd::utf8::encode_utf8_decode_utf8;

/// A compact description of a block, used in place of its content when
/// the token budget is tight.
#[derive(Clone, Debug, PartialEq, Eq)]
pub struct Summary {
    pub text: String,
}

/// The bytes of a summary with this text.
pub open spec fn spec_summary_bytes(t: Seq<char>) -> Seq<u8> {
    spec_varint(encode_utf8(t).len()) + encode_utf8(t)
}

/// Decoding a summary from the front of `s`: its text and the bytes
/// consumed.
pub open spec fn spec_decode_summary(s: Seq<u8>) -> Result<(Seq<char>, nat), TypeError> {
    match spec_decode_bytes_value(s) {
        Err(e) => Err(e),
        Ok((d, n)) => if valid_utf8(d) {
            Ok((decode_utf8(d), n))
        } else {
            Err(TypeError::InvalidUtf8 { field: "summary" })
        },
    }
}

impl Summary {
    /// Append the summary's bytes to `buf`.
    pub fn encode(&self, buf: &mut Vec<u8>)
        ensures
            final(buf)@ == old(buf)@ + spec_summary_bytes(self.text@),
    {
        let bytes = self.text.as_str().as_bytes();
        encode_varint(bytes.len() as u64, buf);
        buf.extend_from_slice(bytes);
        assert(buf@ =~= old(buf)@ + spec_summary_bytes(self.text@));
    }

    /// Decode a summary from the front of `buf`, returning it and the bytes
    /// consumed.
    ///
    /// # Errors
    ///
    /// `Wire` for a malformed or truncated length, `InvalidUtf8` when the
    /// text is not UTF-8.
    pub fn decode(buf: &[u8]) -> (r: Result<(Summary, usize), TypeError>)
        ensures
            r matches Ok((s, n)) ==> spec_decode_summary(buf@) == Ok::<(Seq<char>, nat), TypeError>(
                (s.text@, n as nat),
            ),
            r matches Err(e) ==> spec_decode_summary(buf@) == Err::<(Seq<char>, nat), TypeError>(e),
            r matches Ok((s, n)) ==> n <= buf@.len(),
    {
        let (d, n) = match decode_bytes_value(buf) {
            Ok(x) => x,
            Err(e) => return Err(e),
        };
        match utf8_to_string(slice_to_vec(d)) {
            Some(text) => Ok((Summary { text }, n)),
            None => Err(TypeError::InvalidUtf8 { field: "summary" }),
        }
    }
}

/// Reading a summary back from its bytes, whatever follows.
pub proof fn lemma_summary_roundtrip(t: Seq<char>, rest: Seq<u8>)
    requires
        encode_utf8(t).len() <= u64::MAX,
    ensures
        spec_decode_summary(spec_summary_bytes(t) + rest) == Ok::<(Seq<char>, nat), TypeError>(
            (t, spec_summary_bytes(t).len()),
        ),
{
    let b = encode_utf8(t);
    let s = spec_summary_bytes(t) + rest;
    assert(s =~= spec_varint(b.len()) + (b + rest));
    lemma_decode_varint_roundtrip(b.len() as u64, b + rest);
    let n = spec_varint(b.len()).len();
    assert(s.subrange(n as int, (n + b.len()) as int) =~= b);
}

} // verus!
