//! Tag-length-value fields, the encoding of every block body:
//! `field_id (varint) | wire_type (varint) | payload`, where the payload is
//! a varint (wire type 0) or a length-prefixed byte string (1: bytes,
//! 2: nested fields).
use vstd::prelude::*;
use vstd::slice::slice_subrange;
use vstd::utf8::{decode_utf8, valid_utf8, encode_utf8};
use vstd::slice::slice_to_vec;
use crate::text::utf8_to_string;
use crate::varint::{
    WireError, decode_varint, encode_varint, lemma_decode_varint_bounds,
    lemma_decode_varint_roundtrip, spec_decode_varint, spec_varint,
};

verus! {

/// Errors while interpreting the fields of a block body.
#[derive(Debug, Clone, Copy, PartialEq, Eq)]
pub enum TypeError {
    /// A field that the block type requires is absent.
    MissingRequiredField { field: &'static str },
    /// A field header names a wire type other than 0, 1 or 2.
    UnknownWireType { value: u64 },
    /// An enum field holds a value that names no variant.
    InvalidEnumValue { enum_name: &'static str, value: u64 },
    /// A string field is not valid UTF-8.
    InvalidUtf8 { field: &'static str },
    /// A numeric field does not fit its type.
    ValueOutOfRange { field: &'static str, value: u64 },
    /// A malformed varint or a truncated field.
    Wire(WireError),
}

/// How a field's payload is encoded.
#[derive(Clone, Copy, Debug, PartialEq, Eq, Structural)]
pub enum FieldWireType {
    Varint,
    Bytes,
    Nested,
}

pub open spec fn spec_wire_code(w: FieldWireType) -> u64 {
    match w {
        FieldWireType::Varint => 0,
        FieldWireType::Bytes => 1,
        FieldWireType::Nested => 2,
    }
}

/// A decoded field header.
#[derive(Clone, Copy, Debug, PartialEq, Eq, Structural)]
pub struct FieldHeader {
    pub field_id: u64,
    pub wire_type: FieldWireType,
}

/// A field as the specifications see it: the id, the wire type, the value
/// of a varint field (0 otherwise), and the payload bytes (for a varint
/// field, the bytes of the varint itself).
pub struct FieldModel {
    pub id: u64,
    pub wire_type: FieldWireType,
    pub value: u64,
    pub data: Seq<u8>,
}

/// The header bytes of a field.
pub open spec fn spec_field_header_bytes(id: u64, w: FieldWireType) -> Seq<u8> {
    spec_varint(id as nat) + spec_varint(spec_wire_code(w) as nat)
}

/// The bytes of a varint field.
pub open spec fn spec_varint_field(id: u64, value: u64) -> Seq<u8> {
    spec_field_header_bytes(id, FieldWireType::Varint) + spec_varint(value as nat)
}

/// The bytes of a length-prefixed field of wire type `w`.
pub open spec fn spec_len_field(id: u64, w: FieldWireType, data: Seq<u8>) -> Seq<u8> {
    spec_field_header_bytes(id, w) + spec_varint(data.len()) + data
}

/// The bytes of a bytes field.
pub open spec fn spec_bytes_field(id: u64, data: Seq<u8>) -> Seq<u8> {
    spec_len_field(id, FieldWireType::Bytes, data)
}

/// The bytes of a nested field.
pub open spec fn spec_nested_field(id: u64, data: Seq<u8>) -> Seq<u8> {
    spec_len_field(id, FieldWireType::Nested, data)
}

/// The canonical model of a varint field.
pub open spec fn spec_varint_model(id: u64, value: u64) -> FieldModel {
    FieldModel { id, wire_type: FieldWireType::Varint, value, data: spec_varint(value as nat) }
}

/// The model of a length-prefixed field.
pub open spec fn spec_len_model(id: u64, w: FieldWireType, data: Seq<u8>) -> FieldModel {
    FieldModel { id, wire_type: w, value: 0, data }
}

/// The bytes of a field given by its model.
pub open spec fn spec_field_bytes(f: FieldModel) -> Seq<u8> {
    match f.wire_type {
        FieldWireType::Varint => spec_varint_field(f.id, f.value),
        _ => spec_len_field(f.id, f.wire_type, f.data),
    }
}

/// The bytes of a sequence of fields, in order.
pub open spec fn spec_fields_bytes(fs: Seq<FieldModel>) -> Seq<u8>
    decreases fs.len(),
{
    if fs.len() == 0 {
        Seq::empty()
    } else {
        spec_field_bytes(fs[0]) + spec_fields_bytes(fs.drop_first())
    }
}

/// A field model is canonical when a varint field carries the canonical
/// bytes of its value and a length-prefixed field carries value 0.
pub open spec fn spec_canonical_field(f: FieldModel) -> bool {
    match f.wire_type {
        FieldWireType::Varint => f.data == spec_varint(f.value as nat),
        _ => f.value == 0 && f.data.len() <= u64::MAX,
    }
}

pub open spec fn spec_wire_type_of(code: u64) -> Option<FieldWireType> {
    if code == 0 {
        Some(FieldWireType::Varint)
    } else if code == 1 {
        Some(FieldWireType::Bytes)
    } else if code == 2 {
        Some(FieldWireType::Nested)
    } else {
        None
    }
}

/// Decoding a field header from the front of `s`.
pub open spec fn spec_decode_field_header(s: Seq<u8>) -> Result<(FieldHeader, nat), TypeError> {
    match spec_decode_varint(s) {
        Err(e) => Err(TypeError::Wire(e)),
        Ok((id, n1)) => match spec_decode_varint(s.subrange(n1 as int, s.len() as int)) {
            Err(WireError::UnexpectedEof { offset }) => Err(
                TypeError::Wire(WireError::UnexpectedEof { offset: (offset + n1) as usize }),
            ),
            Err(e) => Err(TypeError::Wire(e)),
            Ok((code, n2)) => match spec_wire_type_of(code) {
                None => Err(TypeError::UnknownWireType { value: code }),
                Some(w) => Ok((FieldHeader { field_id: id, wire_type: w }, (n1 + n2) as nat)),
            },
        },
    }
}

/// Decoding a length-prefixed payload from the front of `s`: the payload
/// and the bytes consumed (prefix included).
pub open spec fn spec_decode_bytes_value(s: Seq<u8>) -> Result<(Seq<u8>, nat), TypeError> {
    match spec_decode_varint(s) {
        Err(e) => Err(TypeError::Wire(e)),
        Ok((len, n)) => if len > s.len() - n {
            Err(TypeError::Wire(WireError::UnexpectedEof { offset: s.len() as usize }))
        } else {
            Ok((s.subrange(n as int, n + len), (n + len) as nat))
        },
    }
}

/// Reading one whole field from the front of `s`.
pub open spec fn spec_read_field(s: Seq<u8>) -> Result<(FieldModel, nat), TypeError> {
    match spec_decode_field_header(s) {
        Err(e) => Err(e),
        Ok((h, hn)) => {
            let p = s.subrange(hn as int, s.len() as int);
            match h.wire_type {
                FieldWireType::Varint => match spec_decode_varint(p) {
                    Err(WireError::UnexpectedEof { offset }) => Err(
                        TypeError::Wire(WireError::UnexpectedEof { offset: (offset + hn) as usize }),
                    ),
                    Err(e) => Err(TypeError::Wire(e)),
                    Ok((v, n)) => Ok(
                        (
                            FieldModel {
                                id: h.field_id,
                                wire_type: h.wire_type,
                                value: v,
                                data: p.subrange(0, n as int),
                            },
                            (hn + n) as nat,
                        ),
                    ),
                },
                _ => match spec_decode_bytes_value(p) {
                    Err(TypeError::Wire(WireError::UnexpectedEof { offset })) => Err(
                        TypeError::Wire(WireError::UnexpectedEof { offset: (offset + hn) as usize }),
                    ),
                    Err(e) => Err(e),
                    Ok((d, n)) => Ok(
                        (
                            FieldModel { id: h.field_id, wire_type: h.wire_type, value: 0, data: d },
                            (hn + n) as nat,
                        ),
                    ),
                },
            }
        },
    }
}

/// Reading every field of a body, in order.
pub open spec fn spec_read_fields(s: Seq<u8>) -> Result<Seq<FieldModel>, TypeError>
    decreases s.len(),
{
    if s.len() == 0 {
        Ok(Seq::empty())
    } else {
        match spec_read_field(s) {
            Err(e) => Err(e),
            Ok((f, n)) => if 0 < n <= s.len() {
                match spec_read_fields(s.subrange(n as int, s.len() as int)) {
                    Err(e) => Err(e),
                    Ok(rest) => Ok(seq![f] + rest),
                }
            } else {
                Err(TypeError::Wire(WireError::UnexpectedEof { offset: 0 }))
            },
        }
    }
}

/// The value of the last varint field with this id.
pub open spec fn spec_last_varint(fs: Seq<FieldModel>, id: u64) -> Option<u64>
    decreases fs.len(),
{
    if fs.len() == 0 {
        None
    } else if fs.last().id == id && fs.last().wire_type == FieldWireType::Varint {
        Some(fs.last().value)
    } else {
        spec_last_varint(fs.drop_last(), id)
    }
}

/// The payload of the last bytes field with this id.
pub open spec fn spec_last_bytes(fs: Seq<FieldModel>, id: u64) -> Option<Seq<u8>>
    decreases fs.len(),
{
    if fs.len() == 0 {
        None
    } else if fs.last().id == id && fs.last().wire_type == FieldWireType::Bytes {
        Some(fs.last().data)
    } else {
        spec_last_bytes(fs.drop_last(), id)
    }
}

/// The payloads of every nested field with this id, in order.
pub open spec fn spec_all_nested(fs: Seq<FieldModel>, id: u64) -> Seq<Seq<u8>>
    decreases fs.len(),
{
    if fs.len() == 0 {
        Seq::empty()
    } else if fs.last().id == id && fs.last().wire_type == FieldWireType::Nested {
        spec_all_nested(fs.drop_last(), id).push(fs.last().data)
    } else {
        spec_all_nested(fs.drop_last(), id)
    }
}

/// Append a varint field.
pub fn encode_varint_field(buf: &mut Vec<u8>, field_id: u64, value: u64)
    ensures
        final(buf)@ == old(buf)@ + spec_varint_field(field_id, value),
{
    encode_varint(field_id, buf);
    encode_varint(0, buf);
    encode_varint(value, buf);
    assert(buf@ =~= old(buf)@ + spec_varint_field(field_id, value));
}

fn encode_len_field(buf: &mut Vec<u8>, field_id: u64, w: FieldWireType, data: &[u8])
    ensures
        final(buf)@ == old(buf)@ + spec_len_field(field_id, w, data@),
{
    let code: u64 = match w {
        FieldWireType::Varint => 0,
        FieldWireType::Bytes => 1,
        FieldWireType::Nested => 2,
    };
    encode_varint(field_id, buf);
    encode_varint(code, buf);
    encode_varint(data.len() as u64, buf);
    buf.extend_from_slice(data);
    assert(buf@ =~= old(buf)@ + spec_len_field(field_id, w, data@));
}

/// Append a bytes field (strings are bytes fields holding UTF-8).
pub fn encode_bytes_field(buf: &mut Vec<u8>, field_id: u64, value: &[u8])
    ensures
        final(buf)@ == old(buf)@ + spec_bytes_field(field_id, value@),
{
    encode_len_field(buf, field_id, FieldWireType::Bytes, value);
}

/// Append a nested field whose payload is itself a sequence of fields.
pub fn encode_nested_field(buf: &mut Vec<u8>, field_id: u64, nested: &[u8])
    ensures
        final(buf)@ == old(buf)@ + spec_nested_field(field_id, nested@),
{
    encode_len_field(buf, field_id, FieldWireType::Nested, nested);
}

/// Decode a field header, returning it and the bytes consumed.
///
/// # Errors
///
/// `Wire` for a truncated or malformed varint, `UnknownWireType` for a wire
/// type other than 0, 1 or 2.
pub fn decode_field_header(buf: &[u8]) -> (res: Result<(FieldHeader, usize), TypeError>)
    ensures
        res matches Ok((h, n)) ==> spec_decode_field_header(buf@) == Ok::<(FieldHeader, nat), TypeError>((h, n as nat)),
        res matches Err(e) ==> spec_decode_field_header(buf@) == Err::<(FieldHeader, nat), TypeError>(e),
        res matches Ok((h, n)) ==> 2 <= n <= buf@.len(),
{
    proof {
        lemma_decode_varint_bounds(buf@);
    }
    let (id, n1) = match decode_varint(buf) {
        Ok(x) => x,
        Err(e) => return Err(TypeError::Wire(e)),
    };
    let rest = slice_subrange(buf, n1, buf.len());
    proof {
        lemma_decode_varint_bounds(rest@);
    }
    let (code, n2) = match decode_varint(rest) {
        Ok(x) => x,
        Err(WireError::UnexpectedEof { offset }) => {
            return Err(TypeError::Wire(WireError::UnexpectedEof { offset: offset + n1 }));
        },
        Err(e) => return Err(TypeError::Wire(e)),
    };
    let w = if code == 0 {
        FieldWireType::Varint
    } else if code == 1 {
        FieldWireType::Bytes
    } else if code == 2 {
        FieldWireType::Nested
    } else {
        return Err(TypeError::UnknownWireType { value: code });
    };
    Ok((FieldHeader { field_id: id, wire_type: w }, n1 + n2))
}

/// Decode a varint field's value, returning it and the bytes consumed.
///
/// # Errors
///
/// `Wire` for a truncated or malformed varint.
pub fn decode_varint_value(buf: &[u8]) -> (res: Result<(u64, usize), TypeError>)
    ensures
        res matches Ok((v, n)) ==> spec_decode_varint(buf@) == Ok::<(u64, nat), WireError>((v, n as nat)),
        res matches Err(e) ==> (spec_decode_varint(buf@) matches Err(we) && e == TypeError::Wire(we)),
        res matches Ok((v, n)) ==> 1 <= n <= buf@.len(),
{
    proof {
        lemma_decode_varint_bounds(buf@);
    }
    match decode_varint(buf) {
        Ok(x) => Ok(x),
        Err(e) => Err(TypeError::Wire(e)),
    }
}

/// Decode a length-prefixed payload, returning it and the bytes consumed
/// (length prefix included).
///
/// # Errors
///
/// `Wire` for a malformed length or a payload cut short.
pub fn decode_bytes_value(buf: &[u8]) -> (res: Result<(&[u8], usize), TypeError>)
    ensures
        res matches Ok((r, m)) ==> spec_decode_bytes_value(buf@) == Ok::<(Seq<u8>, nat), TypeError>((r@, m as nat)),
        res matches Err(e) ==> spec_decode_bytes_value(buf@) == Err::<(Seq<u8>, nat), TypeError>(e),
        res matches Ok((r, m)) ==> 1 <= m <= buf@.len(),
{
    proof {
        lemma_decode_varint_bounds(buf@);
    }
    let (len, n) = match decode_varint(buf) {
        Ok(x) => x,
        Err(e) => return Err(TypeError::Wire(e)),
    };
    if len > (buf.len() - n) as u64 {
        return Err(TypeError::Wire(WireError::UnexpectedEof { offset: buf.len() }));
    }
    let end = n + len as usize;
    Ok((slice_subrange(buf, n, end), end))
}

/// One field read by [`read_field`]: the header, the varint value (for a
/// varint field) and the payload bytes.
pub struct RawField<'a> {
    pub field_id: u64,
    pub wire_type: FieldWireType,
    pub value: u64,
    pub data: &'a [u8],
}

impl<'a> RawField<'a> {
    pub open spec fn model(&self) -> FieldModel {
        FieldModel { id: self.field_id, wire_type: self.wire_type, value: self.value, data: self.data@ }
    }
}

/// The models of a sequence of raw fields.
pub open spec fn spec_models<'a>(fs: Seq<RawField<'a>>) -> Seq<FieldModel> {
    fs.map_values(|f: RawField<'a>| f.model())
}

/// Read one field from the front of `buf`, returning it and the bytes it
/// occupies.
///
/// # Errors
///
/// As [`decode_field_header`], plus `Wire` for a payload cut short.
pub fn read_field<'a>(buf: &'a [u8]) -> (res: Result<(RawField<'a>, usize), TypeError>)
    ensures
        res matches Ok((r, m)) ==> spec_read_field(buf@) == Ok::<(FieldModel, nat), TypeError>((r.model(), m as nat)),
        res matches Err(e) ==> spec_read_field(buf@) == Err::<(FieldModel, nat), TypeError>(e),
        res matches Ok((r, m)) ==> 0 < m <= buf@.len(),
{
    let (h, hn) = match decode_field_header(buf) {
        Ok(x) => x,
        Err(e) => return Err(e),
    };
    let p = slice_subrange(buf, hn, buf.len());
    proof {
        lemma_decode_varint_bounds(p@);
    }
    match h.wire_type {
        FieldWireType::Varint => {
            match decode_varint(p) {
                Ok((v, n)) => {
                    let d = slice_subrange(p, 0, n);
                    Ok((RawField { field_id: h.field_id, wire_type: h.wire_type, value: v, data: d }, hn + n))
                },
                Err(WireError::UnexpectedEof { offset }) => {
                    Err(TypeError::Wire(WireError::UnexpectedEof { offset: offset + hn }))
                },
                Err(e) => Err(TypeError::Wire(e)),
            }
        },
        _ => {
            match decode_bytes_value(p) {
                Ok((d, n)) => Ok(
                    (RawField { field_id: h.field_id, wire_type: h.wire_type, value: 0, data: d }, hn + n),
                ),
                Err(TypeError::Wire(WireError::UnexpectedEof { offset })) => {
                    proof {
                        lemma_decode_varint_bounds(p@);
                    }
                    Err(TypeError::Wire(WireError::UnexpectedEof { offset: offset + hn }))
                },
                Err(e) => Err(e),
            }
        },
    }
}

/// Reading a canonical field back from its bytes, whatever follows.
pub proof fn lemma_read_field_roundtrip(f: FieldModel, rest: Seq<u8>)
    requires
        spec_canonical_field(f),
    ensures
        spec_read_field(spec_field_bytes(f) + rest) == Ok::<(FieldModel, nat), TypeError>(
            (f, spec_field_bytes(f).len()),
        ),
{
    let code = spec_wire_code(f.wire_type);
    let idb = spec_varint(f.id as nat);
    let cb = spec_varint(code as nat);
    let s = spec_field_bytes(f) + rest;
    let tail = match f.wire_type {
        FieldWireType::Varint => spec_varint(f.value as nat),
        _ => spec_varint(f.data.len()) + f.data,
    };
    assert(spec_field_bytes(f) =~= idb + cb + tail);
    assert(s =~= idb + (cb + tail + rest));
    lemma_decode_varint_roundtrip(f.id, cb + tail + rest);
    assert(s.subrange(idb.len() as int, s.len() as int) =~= cb + (tail + rest));
    lemma_decode_varint_roundtrip(code, tail + rest);
    let hn = idb.len() + cb.len();
    let p = s.subrange(hn as int, s.len() as int);
    assert(p =~= tail + rest);
    match f.wire_type {
        FieldWireType::Varint => {
            lemma_decode_varint_roundtrip(f.value, rest);
            assert(p.subrange(0, spec_varint(f.value as nat).len() as int) =~= f.data);
        },
        _ => {
            assert(p =~= spec_varint(f.data.len()) + (f.data + rest));
            lemma_decode_varint_roundtrip(f.data.len() as u64, f.data + rest);
            let n = spec_varint(f.data.len()).len();
            assert(p.subrange(n as int, (n + f.data.len()) as int) =~= f.data);
        },
    }
}

pub open spec fn spec_all_canonical(fs: Seq<FieldModel>) -> bool {
    forall|i: int| 0 <= i < fs.len() ==> #[trigger] spec_canonical_field(fs[i])
}

/// Reading the fields of a body made of canonical fields gives them back.
pub proof fn lemma_read_fields_roundtrip(fs: Seq<FieldModel>)
    requires
        spec_all_canonical(fs),
    ensures
        spec_read_fields(spec_fields_bytes(fs)) == Ok::<Seq<FieldModel>, TypeError>(fs),
    decreases fs.len(),
{
    if fs.len() > 0 {
        let s = spec_fields_bytes(fs);
        let fb = spec_field_bytes(fs[0]);
        let rest = spec_fields_bytes(fs.drop_first());
        assert(spec_canonical_field(fs[0]));
        lemma_read_field_roundtrip(fs[0], rest);
        lemma_field_bytes_nonempty(fs[0]);
        assert(s.subrange(fb.len() as int, s.len() as int) =~= rest);
        assert(spec_all_canonical(fs.drop_first())) by {
            assert forall|i: int| 0 <= i < fs.drop_first().len() implies #[trigger] spec_canonical_field(
                fs.drop_first()[i],
            ) by {
                assert(fs.drop_first()[i] == fs[i + 1]);
            }
        }
        lemma_read_fields_roundtrip(fs.drop_first());
        assert(seq![fs[0]] + fs.drop_first() =~= fs);
        assert(s.len() > 0);
    } else {
        assert(fs =~= Seq::<FieldModel>::empty());
    }
}

proof fn lemma_field_bytes_nonempty(f: FieldModel)
    ensures
        spec_field_bytes(f).len() > 0,
{
    crate::varint::lemma_varint_len(f.id as nat);
}

/// Read every field of a body.
///
/// # Errors
///
/// The first error met while reading the fields front to back.
pub fn read_all_fields<'a>(buf: &'a [u8]) -> (res: Result<Vec<RawField<'a>>, TypeError>)
    ensures
        res matches Ok(v) ==> spec_read_fields(buf@) == Ok::<Seq<FieldModel>, TypeError>(
            spec_models(v@),
        ),
        res matches Err(e) ==> spec_read_fields(buf@) == Err::<Seq<FieldModel>, TypeError>(e),
{
    let mut out: Vec<RawField<'a>> = Vec::new();
    let mut pos: usize = 0;
    assert(buf@.subrange(0, buf@.len() as int) =~= buf@);
    assert(spec_models(out@) =~= Seq::<FieldModel>::empty());
    while pos < buf.len()
        invariant
            pos <= buf@.len(),
            match spec_read_fields(buf@.subrange(pos as int, buf@.len() as int)) {
                Ok(rest) => spec_read_fields(buf@) == Ok::<Seq<FieldModel>, TypeError>(
                    spec_models(out@) + rest,
                ),
                Err(e) => spec_read_fields(buf@) == Err::<Seq<FieldModel>, TypeError>(e),
            },
        decreases buf@.len() - pos,
    {
        let rest = slice_subrange(buf, pos, buf.len());
        let ghost old_models = spec_models(out@);
        match read_field(rest) {
            Ok((f, n)) => {
                proof {
                    assert(rest@.subrange(n as int, rest@.len() as int) =~= buf@.subrange(
                        pos + n,
                        buf@.len() as int,
                    ));
                }
                out.push(f);
                pos = pos + n;
                proof {
                    assert(spec_models(out@) =~= old_models + seq![f.model()]);
                    match spec_read_fields(buf@.subrange(pos as int, buf@.len() as int)) {
                        Ok(r2) => {
                            assert(old_models + (seq![f.model()] + r2) =~= spec_models(out@) + r2);
                        },
                        Err(_) => {},
                    }
                }
            },
            Err(e) => {
                return Err(e);
            },
        }
    }
    assert(buf@.subrange(pos as int, buf@.len() as int) =~= Seq::<u8>::empty());
    assert(spec_models(out@) + Seq::<FieldModel>::empty() =~= spec_models(out@));
    Ok(out)
}

/// The value of the last varint field with this id.
pub fn last_varint(fields: &Vec<RawField>, id: u64) -> (r: Option<u64>)
    ensures
        r == spec_last_varint(spec_models(fields@), id),
{
    let mut r: Option<u64> = None;
    let mut i: usize = 0;
    while i < fields.len()
        invariant
            i <= fields@.len(),
            r == spec_last_varint(spec_models(fields@).take(i as int), id),
        decreases fields@.len() - i,
    {
        proof {
            assert(spec_models(fields@).take(i + 1).drop_last() =~= spec_models(fields@).take(i as int));
        }
        if fields[i].field_id == id && fields[i].wire_type == FieldWireType::Varint {
            r = Some(fields[i].value);
        }
        i = i + 1;
    }
    assert(spec_models(fields@).take(i as int) =~= spec_models(fields@));
    r
}

/// The payload of the last bytes field with this id.
pub fn last_bytes<'a>(fields: &Vec<RawField<'a>>, id: u64) -> (r: Option<&'a [u8]>)
    ensures
        r matches Some(d) ==> spec_last_bytes(spec_models(fields@), id) == Some(d@),
        r is None ==> spec_last_bytes(spec_models(fields@), id) is None,
{
    let mut r: Option<&'a [u8]> = None;
    let mut i: usize = 0;
    while i < fields.len()
        invariant
            i <= fields@.len(),
            r matches Some(d) ==> spec_last_bytes(spec_models(fields@).take(i as int), id) == Some(d@),
            r is None ==> spec_last_bytes(spec_models(fields@).take(i as int), id) is None,
        decreases fields@.len() - i,
    {
        proof {
            assert(spec_models(fields@).take(i + 1).drop_last() =~= spec_models(fields@).take(i as int));
        }
        if fields[i].field_id == id && fields[i].wire_type == FieldWireType::Bytes {
            r = Some(fields[i].data);
        }
        i = i + 1;
    }
    assert(spec_models(fields@).take(i as int) =~= spec_models(fields@));
    r
}

/// The payloads of every nested field with this id, in order.
pub fn all_nested<'a>(fields: &Vec<RawField<'a>>, id: u64) -> (r: Vec<&'a [u8]>)
    ensures
        r@.map_values(|d: &'a [u8]| d@) == spec_all_nested(spec_models(fields@), id),
{
    let mut r: Vec<&'a [u8]> = Vec::new();
    let mut i: usize = 0;
    while i < fields.len()
        invariant
            i <= fields@.len(),
            r@.map_values(|d: &'a [u8]| d@) == spec_all_nested(spec_models(fields@).take(i as int), id),
        decreases fields@.len() - i,
    {
        proof {
            assert(spec_models(fields@).take(i + 1).drop_last() =~= spec_models(fields@).take(i as int));
        }
        if fields[i].field_id == id && fields[i].wire_type == FieldWireType::Nested {
            let ghost before = r@;
            r.push(fields[i].data);
            assert(r@.map_values(|d: &'a [u8]| d@) =~= before.map_values(|d: &'a [u8]| d@).push(fields@[i as int].data@));
        }
        i = i + 1;
    }
    assert(spec_models(fields@).take(i as int) =~= spec_models(fields@));
    r
}

/// Appending one field's bytes after a list's bytes gives the bytes of
/// the longer list.
pub proof fn lemma_fields_bytes_push(fs: Seq<FieldModel>, f: FieldModel)
    ensures
        spec_fields_bytes(fs.push(f)) == spec_fields_bytes(fs) + spec_field_bytes(f),
    decreases fs.len(),
{
    if fs.len() == 0 {
        assert(fs.push(f).drop_first() =~= Seq::<FieldModel>::empty());
        assert(fs.push(f)[0] == f);
        assert(spec_fields_bytes(Seq::<FieldModel>::empty()) =~= Seq::<u8>::empty());
        assert(spec_fields_bytes(fs.push(f)) =~= spec_field_bytes(f) + Seq::<u8>::empty());
        assert(spec_fields_bytes(fs) =~= Seq::<u8>::empty());
    } else {
        lemma_fields_bytes_push(fs.drop_first(), f);
        assert(fs.push(f).drop_first() =~= fs.drop_first().push(f));
        assert(fs.push(f)[0] == fs[0]);
        assert(spec_fields_bytes(fs.push(f)) =~= spec_fields_bytes(fs) + spec_field_bytes(f));
    }
}

/// A required varint field.
pub open spec fn spec_req_varint(fs: Seq<FieldModel>, id: u64, name: &'static str) -> Result<u64, TypeError> {
    match spec_last_varint(fs, id) {
        None => Err(TypeError::MissingRequiredField { field: name }),
        Some(v) => Ok(v),
    }
}

/// A required bytes field.
pub open spec fn spec_req_bytes(fs: Seq<FieldModel>, id: u64, name: &'static str) -> Result<Seq<u8>, TypeError> {
    match spec_last_bytes(fs, id) {
        None => Err(TypeError::MissingRequiredField { field: name }),
        Some(d) => Ok(d),
    }
}

/// UTF-8 text of a bytes field's payload.
pub open spec fn spec_utf8_field(d: Seq<u8>, name: &'static str) -> Result<Seq<char>, TypeError> {
    if valid_utf8(d) {
        Ok(decode_utf8(d))
    } else {
        Err(TypeError::InvalidUtf8 { field: name })
    }
}

/// A required string field.
pub open spec fn spec_req_str(fs: Seq<FieldModel>, id: u64, name: &'static str) -> Result<Seq<char>, TypeError> {
    match spec_last_bytes(fs, id) {
        None => Err(TypeError::MissingRequiredField { field: name }),
        Some(d) => spec_utf8_field(d, name),
    }
}

/// An optional string field.
pub open spec fn spec_opt_str(fs: Seq<FieldModel>, id: u64, name: &'static str) -> Result<Option<Seq<char>>, TypeError> {
    match spec_last_bytes(fs, id) {
        None => Ok(None),
        Some(d) => match spec_utf8_field(d, name) {
            Ok(t) => Ok(Some(t)),
            Err(e) => Err(e),
        },
    }
}

/// A varint that must fit in a `u32`.
pub open spec fn spec_u32_value(v: u64, name: &'static str) -> Result<u32, TypeError> {
    if v > u32::MAX {
        Err(TypeError::ValueOutOfRange { field: name, value: v })
    } else {
        Ok(v as u32)
    }
}

/// The model of a string field.
pub open spec fn spec_str_model(id: u64, t: Seq<char>) -> FieldModel {
    spec_len_model(id, FieldWireType::Bytes, encode_utf8(t))
}

/// The model of a bytes field.
pub open spec fn spec_bytes_model(id: u64, d: Seq<u8>) -> FieldModel {
    spec_len_model(id, FieldWireType::Bytes, d)
}

/// The model of a nested field.
pub open spec fn spec_nested_model(id: u64, d: Seq<u8>) -> FieldModel {
    spec_len_model(id, FieldWireType::Nested, d)
}

/// A required varint field.
pub fn req_varint(fields: &Vec<RawField>, id: u64, name: &'static str) -> (r: Result<u64, TypeError>)
    ensures
        r == spec_req_varint(spec_models(fields@), id, name),
{
    match last_varint(fields, id) {
        None => Err(TypeError::MissingRequiredField { field: name }),
        Some(v) => Ok(v),
    }
}

/// A required bytes field, copied out.
pub fn req_bytes(fields: &Vec<RawField>, id: u64, name: &'static str) -> (r: Result<Vec<u8>, TypeError>)
    ensures
        r matches Ok(v) ==> spec_req_bytes(spec_models(fields@), id, name) == Ok::<Seq<u8>, TypeError>(v@),
        r matches Err(e) ==> spec_req_bytes(spec_models(fields@), id, name) == Err::<Seq<u8>, TypeError>(e),
{
    match last_bytes(fields, id) {
        None => Err(TypeError::MissingRequiredField { field: name }),
        Some(d) => Ok(slice_to_vec(d)),
    }
}

/// Decode a payload as UTF-8 text.
pub fn utf8_field(d: &[u8], name: &'static str) -> (r: Result<String, TypeError>)
    ensures
        r matches Ok(t) ==> spec_utf8_field(d@, name) == Ok::<Seq<char>, TypeError>(t@),
        r matches Err(e) ==> spec_utf8_field(d@, name) == Err::<Seq<char>, TypeError>(e),
{
    match utf8_to_string(slice_to_vec(d)) {
        Some(t) => Ok(t),
        None => Err(TypeError::InvalidUtf8 { field: name }),
    }
}

/// A required string field.
pub fn req_str(fields: &Vec<RawField>, id: u64, name: &'static str) -> (r: Result<String, TypeError>)
    ensures
        r matches Ok(t) ==> spec_req_str(spec_models(fields@), id, name) == Ok::<Seq<char>, TypeError>(t@),
        r matches Err(e) ==> spec_req_str(spec_models(fields@), id, name) == Err::<Seq<char>, TypeError>(e),
{
    match last_bytes(fields, id) {
        None => Err(TypeError::MissingRequiredField { field: name }),
        Some(d) => utf8_field(d, name),
    }
}

/// An optional string field.
pub fn opt_str(fields: &Vec<RawField>, id: u64, name: &'static str) -> (r: Result<Option<String>, TypeError>)
    ensures
        r matches Ok(Some(t)) ==> spec_opt_str(spec_models(fields@), id, name) == Ok::<Option<Seq<char>>, TypeError>(Some(t@)),
        r matches Ok(None) ==> spec_opt_str(spec_models(fields@), id, name) == Ok::<Option<Seq<char>>, TypeError>(None),
        r matches Err(e) ==> spec_opt_str(spec_models(fields@), id, name) == Err::<Option<Seq<char>>, TypeError>(e),
{
    match last_bytes(fields, id) {
        None => Ok(None),
        Some(d) => match utf8_field(d, name) {
            Ok(t) => Ok(Some(t)),
            Err(e) => Err(e),
        },
    }
}

/// A varint that must fit in a `u32`.
pub fn u32_value(v: u64, name: &'static str) -> (r: Result<u32, TypeError>)
    ensures
        r == spec_u32_value(v, name),
{
    if v > 0xFFFF_FFFF {
        Err(TypeError::ValueOutOfRange { field: name, value: v })
    } else {
        Ok(v as u32)
    }
}

/// Nested fields with one id, holding these payloads in order.
pub open spec fn spec_nested_list(id: u64, ds: Seq<Seq<u8>>) -> Seq<FieldModel> {
    Seq::new(ds.len(), |i: int| spec_nested_model(id, ds[i]))
}

/// Nested fields after the others change neither the last varint nor the
/// last bytes field of any id, and add their payloads to the nested ones
/// of their own id.
pub proof fn lemma_nested_tail(head: Seq<FieldModel>, id: u64, ds: Seq<Seq<u8>>, x: u64)
    ensures
        spec_last_varint(head + spec_nested_list(id, ds), x) == spec_last_varint(head, x),
        spec_last_bytes(head + spec_nested_list(id, ds), x) == spec_last_bytes(head, x),
        spec_all_nested(head + spec_nested_list(id, ds), id) == spec_all_nested(head, id) + ds,
    decreases ds.len(),
{
    let fs = head + spec_nested_list(id, ds);
    if ds.len() == 0 {
        assert(fs =~= head);
        assert(spec_all_nested(head, id) + ds =~= spec_all_nested(head, id));
    } else {
        lemma_nested_tail(head, id, ds.drop_last(), x);
        assert(fs.drop_last() =~= head + spec_nested_list(id, ds.drop_last()));
        assert(fs.last() == spec_nested_model(id, ds.last()));
        assert(spec_all_nested(head, id) + ds =~= (spec_all_nested(head, id) + ds.drop_last()).push(
            ds.last(),
        ));
    }
}

/// Nested fields whose payloads fit a `u64` length are canonical.
pub proof fn lemma_nested_list_canonical(head: Seq<FieldModel>, id: u64, ds: Seq<Seq<u8>>)
    requires
        spec_all_canonical(head),
        forall|i: int| 0 <= i < ds.len() ==> #[trigger] ds[i].len() <= u64::MAX,
    ensures
        spec_all_canonical(head + spec_nested_list(id, ds)),
{
    let fs = head + spec_nested_list(id, ds);
    assert forall|i: int| 0 <= i < fs.len() implies #[trigger] spec_canonical_field(fs[i]) by {
        if i >= head.len() {
            assert(fs[i] == spec_nested_model(id, ds[i - head.len()]));
        }
    }
}


/// Every payload read from a body is shorter than the body.
pub proof fn lemma_read_fields_shorter(s: Seq<u8>)
    ensures
        spec_read_fields(s) matches Ok(fs) ==> forall|i: int|
            0 <= i < fs.len() ==> #[trigger] fs[i].data.len() < s.len(),
    decreases s.len(),
{
    if s.len() > 0 {
        if let Ok((f, n)) = spec_read_field(s) {
            if 0 < n <= s.len() {
                let rest = s.subrange(n as int, s.len() as int);
                lemma_read_fields_shorter(rest);
                lemma_read_field_shorter(s);
                if let Ok(tail) = spec_read_fields(rest) {
                    let fs = seq![f] + tail;
                    assert forall|i: int| 0 <= i < fs.len() implies #[trigger] fs[i].data.len()
                        < s.len() by {
                        if i > 0 {
                            assert(fs[i] == tail[i - 1]);
                        }
                    }
                }
            }
        }
    }
}

proof fn lemma_read_field_shorter(s: Seq<u8>)
    ensures
        spec_read_field(s) matches Ok((f, n)) ==> f.data.len() < s.len() && n <= s.len(),
{
    lemma_decode_varint_bounds(s);
    if let Ok((id, n1)) = spec_decode_varint(s) {
        let s1 = s.subrange(n1 as int, s.len() as int);
        lemma_decode_varint_bounds(s1);
        if let Ok((h, hn)) = spec_decode_field_header(s) {
            let p = s.subrange(hn as int, s.len() as int);
            lemma_decode_varint_bounds(p);
        }
    }
}

/// The payloads of nested fields are payloads of the fields, so a bound on
/// the latter bounds them.
pub proof fn lemma_all_nested_bounded(fs: Seq<FieldModel>, id: u64, b: nat)
    requires
        forall|i: int| 0 <= i < fs.len() ==> #[trigger] fs[i].data.len() < b,
    ensures
        forall|j: int|
            0 <= j < spec_all_nested(fs, id).len() ==> #[trigger] spec_all_nested(fs, id)[j].len() < b,
    decreases fs.len(),
{
    if fs.len() > 0 {
        assert forall|i: int| 0 <= i < fs.drop_last().len() implies #[trigger] fs.drop_last()[i].data.len() < b by {
            assert(fs.drop_last()[i] == fs[i]);
        }
        lemma_all_nested_bounded(fs.drop_last(), id, b);
        assert(fs.last() == fs[fs.len() - 1]);
        let r = spec_all_nested(fs, id);
        let p = spec_all_nested(fs.drop_last(), id);
        assert forall|j: int| 0 <= j < r.len() implies #[trigger] r[j].len() < b by {
            if j < p.len() {
                assert(r[j] == p[j]);
            }
        }
    }
}

} // verus!
