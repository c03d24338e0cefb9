//! A small builder that appends TLV fields to a body buffer.
use vstd::prelude::*;
use crate::fields::{
    encode_bytes_field, encode_nested_field, encode_varint_field, spec_bytes_field,
    spec_nested_field, spec_varint_field,
};

verus! {

/// Appends TLV fields, in call order, to an owned buffer.
pub struct BlockWriter {
    buf: Vec<u8>,
}

impl View for BlockWriter {
    type V = Seq<u8>;

    closed spec fn view(&self) -> Seq<u8> {
        self.buf@
    }
}

impl BlockWriter {
    /// An empty writer.
    pub fn new() -> (w: Self)
        ensures
            w@ == Seq::<u8>::empty(),
    {
        BlockWriter { buf: Vec::new() }
    }

    /// An empty writer whose buffer has room for `capacity` bytes.
    pub fn with_capacity(capacity: usize) -> (w: Self)
        ensures
            w@ == Seq::<u8>::empty(),
    {
        BlockWriter { buf: Vec::with_capacity(capacity) }
    }

    /// Append a varint field.
    pub fn write_varint_field(&mut self, field_id: u64, value: u64)
        ensures
            final(self)@ == old(self)@ + spec_varint_field(field_id, value),
    {
        encode_varint_field(&mut self.buf, field_id, value);
    }

    /// Append a bytes field.
    pub fn write_bytes_field(&mut self, field_id: u64, value: &[u8])
        ensures
            final(self)@ == old(self)@ + spec_bytes_field(field_id, value@),
    {
        encode_bytes_field(&mut self.buf, field_id, value);
    }

    /// Append a nested field.
    pub fn write_nested_field(&mut self, field_id: u64, nested: &[u8])
        ensures
            final(self)@ == old(self)@ + spec_nested_field(field_id, nested@),
    {
        encode_nested_field(&mut self.buf, field_id, nested);
    }

    /// The bytes written.
    pub fn finish(self) -> (r: Vec<u8>)
        ensures
            r@ == self@,
    {
        self.buf
    }
}

/// One call on a writer: which field it appends, with its id and value.
pub enum FieldWrite {
    Varint(u64, u64),
    Bytes(u64, Seq<u8>),
    Nested(u64, Seq<u8>),
}

/// The bytes one call appends.
pub open spec fn spec_field_write(op: FieldWrite) -> Seq<u8> {
    match op {
        FieldWrite::Varint(id, v) => spec_varint_field(id, v),
        FieldWrite::Bytes(id, b) => spec_bytes_field(id, b),
        FieldWrite::Nested(id, b) => spec_nested_field(id, b),
    }
}

/// The bytes a sequence of calls appends, in call order.
pub open spec fn spec_field_writes(ops: Seq<FieldWrite>) -> Seq<u8>
    decreases ops.len(),
{
    if ops.len() == 0 {
        Seq::empty()
    } else {
        spec_field_writes(ops.drop_last()) + spec_field_write(ops.last())
    }
}

/// A writer that starts empty and receives the calls `ops`, one after
/// another, holds (and `finish` returns) the encoded fields of those calls
/// concatenated in order, nothing added and nothing dropped. `states[k]` is
/// the writer's view after the first `k` calls.
pub proof fn lemma_writes_concatenate(ops: Seq<FieldWrite>, states: Seq<Seq<u8>>)
    requires
        states.len() == ops.len() + 1,
        states[0] == Seq::<u8>::empty(),
        forall|k: int| 0 <= k < ops.len() ==> #[trigger] states[k + 1] == states[k] + spec_field_write(ops[k]),
    ensures
        states.last() == spec_field_writes(ops),
    decreases ops.len(),
{
    if ops.len() > 0 {
        let n = ops.len() - 1;
        let ops2 = ops.drop_last();
        let st2 = states.drop_last();
        assert forall|k: int| 0 <= k < ops2.len() implies #[trigger] st2[k + 1] == st2[k] + spec_field_write(ops2[k]) by {
            assert(states[k + 1] == states[k] + spec_field_write(ops[k]));
        }
        lemma_writes_concatenate(ops2, st2);
        assert(states[n + 1] == states[n] + spec_field_write(ops[n]));
    }
}

impl Default for BlockWriter {
    fn default() -> (w: Self)
        ensures
            w@ == Seq::<u8>::empty(),
    {
        BlockWriter::new()
    }
}

} // verus!
