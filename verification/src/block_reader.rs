//! A cursor over the TLV fields of a block body.
use vstd::prelude::*;
use vstd::slice::slice_subrange;
use crate::error::{DecodeError, DecodeErrorView};
use crate::fields::{
    FieldWireType, decode_bytes_value, decode_field_header, decode_varint_value,
    spec_decode_bytes_value, spec_decode_field_header,
};
use crate::varint::spec_decode_varint;

verus! {

/// One field read by a [`BlockReader`]: its id, wire type and payload (the
/// varint's own bytes for a varint field).
pub struct RawField<'a> {
    pub field_id: u64,
    pub wire_type: FieldWireType,
    pub data: &'a [u8],
}

/// Reading the field at the front of `s`: `None` at the end of the body,
/// else its id, wire type, payload and size.
pub open spec fn spec_next_field(s: Seq<u8>) -> Result<Option<(u64, FieldWireType, Seq<u8>, nat)>, DecodeErrorView> {
    if s.len() == 0 {
        Ok(None)
    } else {
        match spec_decode_field_header(s) {
            Err(e) => Err(DecodeErrorView::Type(e)),
            Ok((h, hn)) => {
                let p = s.subrange(hn as int, s.len() as int);
                match h.wire_type {
                    FieldWireType::Varint => match spec_decode_varint(p) {
                        Err(e) => Err(DecodeErrorView::Type(crate::fields::TypeError::Wire(e))),
                        Ok((_, n)) => Ok(Some((h.field_id, h.wire_type, p.subrange(0, n as int), hn + n))),
                    },
                    _ => match spec_decode_bytes_value(p) {
                        Err(e) => Err(DecodeErrorView::Type(e)),
                        Ok((d, n)) => Ok(Some((h.field_id, h.wire_type, d, hn + n))),
                    },
                }
            },
        }
    }
}

/// Reading stops (`Ok(None)`) exactly when nothing is left to read.
pub proof fn lemma_next_field_none_iff_empty(s: Seq<u8>)
    ensures
        (spec_next_field(s) == Ok::<Option<(u64, FieldWireType, Seq<u8>, nat)>, DecodeErrorView>(None))
            <==> s.len() == 0,
{
}

/// Reads the fields of a body one after another.
pub struct BlockReader<'a> {
    buf: &'a [u8],
    pos: usize,
}

impl<'a> BlockReader<'a> {
    /// The position never passes the end of the body.
    #[verifier::type_invariant]
    spec fn inv(self) -> bool {
        self.pos <= self.buf@.len()
    }

    /// The body being read.
    pub closed spec fn spec_buf(&self) -> Seq<u8> {
        self.buf@
    }

    /// The offset of the next field.
    pub closed spec fn spec_pos(&self) -> nat {
        self.pos as nat
    }

    /// A reader at the start of `buf`.
    pub fn new(buf: &'a [u8]) -> (r: Self)
        ensures
            r.spec_buf() == buf@,
            r.spec_pos() == 0,
            r.spec_pos() <= r.spec_buf().len(),
    {
        BlockReader { buf, pos: 0 }
    }

    /// Read the next field; `None` once the body is exhausted. On an error
    /// the position does not move.
    ///
    /// # Errors
    ///
    /// `Type` for a malformed header, an unknown wire type or a payload cut
    /// short.
    pub fn next_field(&mut self) -> (r: Result<Option<RawField<'a>>, DecodeError>)
        ensures
            final(self).spec_buf() == old(self).spec_buf(),
            final(self).spec_pos() <= final(self).spec_buf().len(),
            ({
                let rest = old(self).spec_buf().subrange(old(self).spec_pos() as int, old(self).spec_buf().len() as int);
                &&& r matches Ok(None) ==> spec_next_field(rest) == Ok::<Option<(u64, FieldWireType, Seq<u8>, nat)>, DecodeErrorView>(None)
                    && final(self).spec_pos() == old(self).spec_pos()
                &&& r matches Ok(Some(f)) ==> (spec_next_field(rest) matches Ok(Some((id, w, d, n)))
                    && f.field_id == id && f.wire_type == w && f.data@ == d
                    && final(self).spec_pos() == old(self).spec_pos() + n)
                &&& r matches Err(e) ==> spec_next_field(rest) == Err::<Option<(u64, FieldWireType, Seq<u8>, nat)>, DecodeErrorView>(e@)
                    && final(self).spec_pos() == old(self).spec_pos()
            }),
    {
        proof {
            use_type_invariant(&*self);
        }
        let remaining = slice_subrange(self.buf, self.pos, self.buf.len());
        if remaining.len() == 0 {
            return Ok(None);
        }
        let (header, header_len) = match decode_field_header(remaining) {
            Ok(x) => x,
            Err(e) => return Err(DecodeError::Type(e)),
        };
        let payload = slice_subrange(remaining, header_len, remaining.len());
        let (data, consumed): (&'a [u8], usize) = match header.wire_type {
            FieldWireType::Varint => match decode_varint_value(payload) {
                Ok((_, n)) => (slice_subrange(payload, 0, n), n),
                Err(e) => return Err(DecodeError::Type(e)),
            },
            _ => match decode_bytes_value(payload) {
                Ok((inner, n)) => (inner, n),
                Err(e) => return Err(DecodeError::Type(e)),
            },
        };
        self.pos = self.pos + header_len + consumed;
        Ok(Some(RawField { field_id: header.field_id, wire_type: header.wire_type, data }))
    }

    /// The offset of the next field.
    pub fn position(&self) -> (p: usize)
        ensures
            p == self.spec_pos(),
            p <= self.spec_buf().len(),
    {
        proof {
            use_type_invariant(self);
        }
        self.pos
    }

    /// The bytes not read yet.
    pub fn remaining(&self) -> (r: &'a [u8])
        ensures
            r@ == self.spec_buf().subrange(self.spec_pos() as int, self.spec_buf().len() as int),
    {
        proof {
            use_type_invariant(self);
        }
        slice_subrange(self.buf, self.pos, self.buf.len())
    }
}

} // verus!
