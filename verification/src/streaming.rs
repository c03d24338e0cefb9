//! Incremental decoding of a payload that arrives in pieces: the decoder
//! says how many bytes it needs next, the caller reads them and hands them
//! over, and the decoder answers with the header, a block, or nothing yet.
//! Blocks are taken as they are on the wire: compressed bodies and
//! references are not expanded.
use vstd::prelude::*;
use crate::block::{Block, BlockContent, BlockModel, spec_decode_content};
use crate::block_frame::BlockFlags;
use crate::block_type::{BlockType, spec_block_type_from_id};
use crate::decoder::{PayloadModel, spec_decode_block, spec_decode_frames, spec_decode_payload, spec_end_size, spec_split_summary};
use crate::block_frame::spec_read_frame;
use crate::error::{DecodeError, DecodeErrorView};
use crate::header::{BcpHeader, HEADER_SIZE, spec_read_header};
use crate::summary::Summary;
use crate::varint::{MAX_VARINT_LEN, WireError, decode_varint, spec_decode_varint};

verus! {

/// What the decoder produces.
#[derive(Debug)]
pub enum DecoderEvent {
    /// The file header, first.
    Header(BcpHeader),
    /// One block, in wire order.
    Block(Block),
}

/// Where the decoder is in the payload.
#[derive(Clone, Copy, Debug, PartialEq, Eq, Structural)]
pub enum StreamPhase {
    /// Waiting for the 8 header bytes.
    Header,
    /// Reading the block type varint, byte by byte.
    BlockType,
    /// Waiting for the flags byte of a block of this type.
    Flags { block_type: u8 },
    /// Reading the body length varint, byte by byte.
    Length { block_type: u8, flags: u8 },
    /// Waiting for a body of this many bytes.
    Body { block_type: u8, flags: u8, len: usize },
    /// Waiting for the flags byte of the END sentinel.
    EndFlags,
    /// Reading the END sentinel's length varint.
    EndLength,
    /// The END sentinel has been read.
    Done,
}

/// Decodes a payload fed to it in the pieces it asks for.
pub struct StreamingDecoder {
    phase: StreamPhase,
    varint: Vec<u8>,
}

/// The view of a [`StreamingDecoder`]: its phase and the bytes of the
/// varint read so far.
pub struct StreamModel {
    pub phase: StreamPhase,
    pub varint: Seq<u8>,
}

impl View for StreamingDecoder {
    type V = StreamModel;

    closed spec fn view(&self) -> StreamModel {
        StreamModel { phase: self.phase, varint: self.varint@ }
    }
}

/// The number of bytes the decoder needs next; zero once done.
pub open spec fn spec_need(p: StreamPhase) -> nat {
    match p {
        StreamPhase::Header => HEADER_SIZE as nat,
        StreamPhase::Body { len, .. } => len as nat,
        StreamPhase::Done => 0,
        _ => 1,
    }
}

/// Decoding a block body as it stands on the wire: the summary, if the
/// flags announce one, then the content for the block's type.
pub open spec fn spec_stream_block(t: u8, f: u8, body: Seq<u8>) -> Result<BlockModel, DecodeErrorView> {
    match spec_split_summary(BlockFlags { bits: f }, body) {
        Err(e) => Err(e),
        Ok((summary, rest)) => match spec_decode_content(spec_block_type_from_id(t), rest) {
            Err(e) => Err(DecodeErrorView::Type(e)),
            Ok(c) => Ok(BlockModel { block_type: spec_block_type_from_id(t), flags: f, summary, content: c }),
        },
    }
}

/// What completing a varint with one more byte gives: its value once
/// complete, `VarintTooLong` after ten continuation bytes, else nothing
/// yet.
pub open spec fn spec_varint_step(v: Seq<u8>, b: u8) -> Result<Option<u64>, WireError> {
    let w = v.push(b);
    if b < 0x80 {
        match spec_decode_varint(w) {
            Err(e) => Err(e),
            Ok((x, _)) => Ok(Some(x)),
        }
    } else if w.len() >= MAX_VARINT_LEN {
        Err(WireError::VarintTooLong)
    } else {
        Ok(None)
    }
}

/// The view of a [`DecoderEvent`].
pub enum EventModel {
    Header(BcpHeader),
    Block(BlockModel),
}

impl View for DecoderEvent {
    type V = EventModel;

    open spec fn view(&self) -> EventModel {
        match self {
            DecoderEvent::Header(h) => EventModel::Header(*h),
            DecoderEvent::Block(b) => EventModel::Block(b@),
        }
    }
}

/// The view of what a step returns.
pub open spec fn spec_step_view(r: Result<Option<DecoderEvent>, DecodeError>) -> Result<Option<EventModel>, DecodeErrorView> {
    match r {
        Ok(Some(e)) => Ok(Some(e@)),
        Ok(None) => Ok(None),
        Err(e) => Err(e@),
    }
}

/// A step of a varint phase: where it stays while the varint goes on,
/// where the complete value leads, and where an error leads.
pub open spec fn spec_varint_phase(
    m: StreamModel,
    b: u8,
    next: spec_fn(u64) -> StreamPhase,
    on_error: StreamPhase,
) -> (StreamModel, Result<Option<EventModel>, DecodeErrorView>) {
    match spec_varint_step(m.varint, b) {
        Err(e) => (StreamModel { phase: on_error, varint: Seq::empty() }, Err(DecodeErrorView::Wire(e))),
        Ok(None) => (StreamModel { phase: m.phase, varint: m.varint.push(b) }, Ok(None)),
        Ok(Some(x)) => (StreamModel { phase: next(x), varint: Seq::empty() }, Ok(None)),
    }
}

/// The phase after a block type id: the END sentinel or a block.
pub open spec fn spec_after_type(x: u64) -> StreamPhase {
    if (x % 256) as u8 == 0xFF {
        StreamPhase::EndFlags
    } else {
        StreamPhase::Flags { block_type: (x % 256) as u8 }
    }
}

/// One step of the decoder on the bytes it asked for.
pub open spec fn spec_push(m: StreamModel, bytes: Seq<u8>) -> (StreamModel, Result<Option<EventModel>, DecodeErrorView>) {
    match m.phase {
        StreamPhase::Header => match spec_read_header(bytes) {
            Ok(h) => (StreamModel { phase: StreamPhase::BlockType, ..m }, Ok(Some(EventModel::Header(h)))),
            Err(e) => (m, Err(DecodeErrorView::InvalidHeader(e))),
        },
        StreamPhase::BlockType => spec_varint_phase(m, bytes[0], |x: u64| spec_after_type(x), StreamPhase::BlockType),
        StreamPhase::Flags { block_type } => (
            StreamModel { phase: StreamPhase::Length { block_type, flags: bytes[0] }, ..m },
            Ok(None),
        ),
        StreamPhase::Length { block_type, flags } => spec_varint_phase(
            m,
            bytes[0],
            |x: u64| StreamPhase::Body { block_type, flags, len: x as usize },
            StreamPhase::BlockType,
        ),
        StreamPhase::Body { block_type, flags, .. } => (
            StreamModel { phase: StreamPhase::BlockType, ..m },
            match spec_stream_block(block_type, flags, bytes) {
                Ok(b) => Ok(Some(EventModel::Block(b))),
                Err(e) => Err(e),
            },
        ),
        StreamPhase::EndFlags => (StreamModel { phase: StreamPhase::EndLength, ..m }, Ok(None)),
        StreamPhase::EndLength => spec_varint_phase(m, bytes[0], |x: u64| StreamPhase::Done, StreamPhase::BlockType),
        StreamPhase::Done => (m, Ok(None)),
    }
}

impl StreamingDecoder {
    /// A decoder waiting for the header.
    pub fn new() -> (d: Self)
        ensures
            d@.phase == StreamPhase::Header,
            d@.varint == Seq::<u8>::empty(),
    {
        StreamingDecoder { phase: StreamPhase::Header, varint: Vec::new() }
    }

    /// Where the decoder is.
    pub fn phase(&self) -> (p: StreamPhase)
        ensures
            p == self@.phase,
    {
        self.phase
    }

    /// How many bytes to hand over next; zero once the END sentinel has
    /// been read.
    pub fn need(&self) -> (n: usize)
        ensures
            n == spec_need(self@.phase),
    {
        match self.phase {
            StreamPhase::Header => HEADER_SIZE,
            StreamPhase::Body { len, .. } => len,
            StreamPhase::Done => 0,
            _ => 1,
        }
    }

    /// Whether the END sentinel has been read.
    pub fn is_done(&self) -> (b: bool)
        ensures
            b == (self@.phase == StreamPhase::Done),
    {
        self.phase == StreamPhase::Done
    }

    /// No more varint bytes are kept than a varint can have.
    #[verifier::type_invariant]
    spec fn varint_fits(self) -> bool {
        self.varint@.len() < MAX_VARINT_LEN
    }

    /// Feed one more byte of a varint.
    fn varint_byte(&mut self, b: u8) -> (r: Result<Option<u64>, DecodeError>)
        ensures
            final(self)@.phase == old(self)@.phase,
            r matches Ok(v) ==> spec_varint_step(old(self)@.varint, b) == Ok::<Option<u64>, WireError>(v),
            r matches Err(e) ==> (spec_varint_step(old(self)@.varint, b) matches Err(we) && e == DecodeError::Wire(we)),
            r matches Ok(None) ==> final(self)@.varint == old(self)@.varint.push(b),
            !(r matches Ok(None)) ==> final(self)@.varint == Seq::<u8>::empty(),
    {
        proof {
            use_type_invariant(&*self);
        }
        let mut w = vstd::slice::slice_to_vec(self.varint.as_slice());
        w.push(b);
        if b < 0x80 {
            let res = decode_varint(w.as_slice());
            self.varint = Vec::new();
            match res {
                Ok((x, _)) => Ok(Some(x)),
                Err(e) => Err(DecodeError::Wire(e)),
            }
        } else if self.varint.len() + 1 >= MAX_VARINT_LEN {
            self.varint = Vec::new();
            Err(DecodeError::Wire(WireError::VarintTooLong))
        } else {
            self.varint = w;
            Ok(None)
        }
    }

    /// Hand over the bytes asked for by [`need`](Self::need) and advance.
    ///
    /// The header comes back as an event; so does each block once its
    /// body is in. The END sentinel moves the decoder to `Done` with no
    /// event. After an error the decoder waits for the next header or
    /// block type again, as it did before.
    ///
    /// # Errors
    ///
    /// `InvalidHeader` for a bad header, `Wire` for a malformed varint,
    /// `Type` for a summary or body that does not decode.
    pub fn push(&mut self, bytes: &[u8]) -> (r: Result<Option<DecoderEvent>, DecodeError>)
        requires
            bytes@.len() == spec_need(old(self)@.phase),
            old(self)@.phase != StreamPhase::Done,
        ensures
            final(self)@ == spec_push(old(self)@, bytes@).0,
            spec_step_view(r) == spec_push(old(self)@, bytes@).1,
    {
        proof {
            use_type_invariant(&*self);
        }
        match self.phase {
            StreamPhase::Header => {
                match BcpHeader::read_from(bytes) {
                    Ok(h) => {
                        self.phase = StreamPhase::BlockType;
                        Ok(Some(DecoderEvent::Header(h)))
                    },
                    Err(e) => Err(DecodeError::InvalidHeader(e)),
                }
            },
            StreamPhase::BlockType => {
                match self.varint_byte(bytes[0]) {
                    Err(e) => Err(e),
                    Ok(None) => Ok(None),
                    Ok(Some(x)) => {
                        let t = (x % 256) as u8;
                        if t == 0xFF {
                            self.phase = StreamPhase::EndFlags;
                        } else {
                            self.phase = StreamPhase::Flags { block_type: t };
                        }
                        Ok(None)
                    },
                }
            },
            StreamPhase::Flags { block_type } => {
                self.phase = StreamPhase::Length { block_type, flags: bytes[0] };
                Ok(None)
            },
            StreamPhase::Length { block_type, flags } => {
                match self.varint_byte(bytes[0]) {
                    Err(e) => {
                        self.phase = StreamPhase::BlockType;
                        Err(e)
                    },
                    Ok(None) => Ok(None),
                    Ok(Some(x)) => {
                        self.phase = StreamPhase::Body { block_type, flags, len: x as usize };
                        Ok(None)
                    },
                }
            },
            StreamPhase::Body { block_type, flags, .. } => {
                self.phase = StreamPhase::BlockType;
                let bt = BlockType::from_wire_id(block_type);
                let fl = BlockFlags::from_raw(flags);
                let mut body: &[u8] = bytes;
                let mut summary: Option<Summary> = None;
                if fl.has_summary() {
                    match Summary::decode(body) {
                        Ok((s, consumed)) => {
                            summary = Some(s);
                            body = vstd::slice::slice_subrange(body, consumed, body.len());
                        },
                        Err(e) => return Err(DecodeError::Type(e)),
                    }
                }
                match BlockContent::decode_body(&bt, body) {
                    Ok(content) => Ok(
                        Some(DecoderEvent::Block(Block { block_type: bt, flags: fl, summary, content })),
                    ),
                    Err(e) => Err(DecodeError::Type(e)),
                }
            },
            StreamPhase::EndFlags => {
                self.phase = StreamPhase::EndLength;
                Ok(None)
            },
            StreamPhase::EndLength => {
                match self.varint_byte(bytes[0]) {
                    Err(e) => {
                        self.phase = StreamPhase::BlockType;
                        Err(e)
                    },
                    Ok(None) => Ok(None),
                    Ok(Some(_)) => {
                        self.phase = StreamPhase::Done;
                        Ok(None)
                    },
                }
            },
            StreamPhase::Done => Ok(None),
        }
    }
}

/// Feeding `s` to a decoder in state `m`, as many bytes at a time as it
/// asks for, until it is done, a step fails, or `s` runs out: the events
/// produced, the state reached, the error if a step failed, and the
/// number of bytes used.
pub open spec fn spec_run(m: StreamModel, s: Seq<u8>) -> (Seq<EventModel>, StreamModel, Option<DecodeErrorView>, nat)
    decreases s.len(), (if m.phase is Body { 1nat } else { 0nat }),
{
    let n = spec_need(m.phase);
    if m.phase == StreamPhase::Done || n > s.len() {
        (Seq::empty(), m, None, 0)
    } else {
        let step = spec_push(m, s.take(n as int));
        match step.1 {
            Err(e) => (Seq::empty(), step.0, Some(e), n),
            Ok(ev) => {
                let rest = spec_run(step.0, s.skip(n as int));
                (
                    match ev {
                        Some(e) => seq![e] + rest.0,
                        None => rest.0,
                    },
                    rest.1,
                    rest.2,
                    n + rest.3,
                )
            },
        }
    }
}

/// A run that used `k` more bytes before it got to `r`.
pub open spec fn spec_after(r: (Seq<EventModel>, StreamModel, Option<DecodeErrorView>, nat), k: nat) -> (
    Seq<EventModel>,
    StreamModel,
    Option<DecodeErrorView>,
    nat,
) {
    (r.0, r.1, r.2, r.3 + k)
}

/// The phase a varint phase moves to once the varint is complete.
pub open spec fn spec_varint_next(p: StreamPhase, x: u64) -> StreamPhase {
    match p {
        StreamPhase::BlockType => spec_after_type(x),
        StreamPhase::Length { block_type, flags } => StreamPhase::Body { block_type, flags, len: x as usize },
        _ => StreamPhase::Done,
    }
}

/// Whether a phase reads a varint byte by byte.
pub open spec fn spec_is_varint_phase(p: StreamPhase) -> bool {
    p is BlockType || p is Length || p is EndLength
}

/// Feeding a varint that decodes from the front of `s0`, whose first `j`
/// bytes have been fed already, moves the decoder on to the phase that
/// its value leads to, with no event, after the varint's bytes.
#[verifier::spinoff_prover]
#[verifier::rlimit(30)]
proof fn lemma_run_varint(m: StreamModel, s0: Seq<u8>, j: nat)
    requires
        spec_decode_varint(s0) is Ok,
        j < spec_decode_varint(s0)->Ok_0.1,
        m.varint == s0.take(j as int),
        spec_is_varint_phase(m.phase),
    ensures
        spec_run(m, s0.skip(j as int)) == spec_after(
            spec_run(
                StreamModel {
                    phase: spec_varint_next(m.phase, spec_decode_varint(s0)->Ok_0.0),
                    varint: Seq::empty(),
                },
                s0.skip(spec_decode_varint(s0)->Ok_0.1 as int),
            ),
            (spec_decode_varint(s0)->Ok_0.1 - j) as nat,
        ),
    decreases spec_decode_varint(s0)->Ok_0.1 - j,
{
    let (x, n) = spec_decode_varint(s0)->Ok_0;
    crate::varint::lemma_decode_varint_prefix(s0);
    let s = s0.skip(j as int);
    assert(spec_need(m.phase) == 1);
    assert(s.take(1)[0] == s0[j as int]);
    assert(m.varint.push(s0[j as int]) =~= s0.take(j + 1int));
    let step = spec_push(m, s.take(1));
    assert(s.skip(1) =~= s0.skip(j + 1int));
    if j + 1 < n {
        assert(s0[j as int] >= 0x80);
        assert(spec_varint_step(m.varint, s0[j as int]) == Ok::<Option<u64>, WireError>(None));
        assert(step.0 == StreamModel { phase: m.phase, varint: s0.take(j + 1int) });
        assert(step.1 == Ok::<Option<EventModel>, DecodeErrorView>(None));
        lemma_run_varint(step.0, s0, j + 1);
    } else {
        assert(j + 1 == n);
        assert(s0.take(j + 1int) =~= s0.take(n as int));
        assert(spec_varint_step(m.varint, s0[j as int]) == Ok::<Option<u64>, WireError>(Some(x)));
        assert(step.0 == StreamModel { phase: spec_varint_next(m.phase, x), varint: Seq::empty() });
        assert(step.1 == Ok::<Option<EventModel>, DecodeErrorView>(None));
    }
}

/// Whether the decoder takes a block as it is on the wire: its body is
/// neither compressed nor a reference.
pub open spec fn spec_plain_block(b: BlockModel) -> bool {
    !BlockFlags { bits: b.flags }.spec_is_compressed() && !BlockFlags { bits: b.flags }.spec_is_reference()
}

/// A decoder waiting for a block type, with no varint begun.
pub open spec fn spec_at_block() -> StreamModel {
    StreamModel { phase: StreamPhase::BlockType, varint: Seq::empty() }
}

/// A decoder that has read the END sentinel.
pub open spec fn spec_done() -> StreamModel {
    StreamModel { phase: StreamPhase::Done, varint: Seq::empty() }
}

/// The events of some blocks.
pub open spec fn spec_block_events(bs: Seq<BlockModel>) -> Seq<EventModel> {
    bs.map_values(|b: BlockModel| EventModel::Block(b))
}

/// Running from a state that takes a step: the step's event, then the
/// run from where the step leads.
#[verifier::spinoff_prover]
#[verifier::rlimit(30)]
proof fn lemma_run_step(m: StreamModel, s: Seq<u8>)
    requires
        m.phase != StreamPhase::Done,
        spec_need(m.phase) <= s.len(),
        spec_push(m, s.take(spec_need(m.phase) as int)).1 is Ok,
    ensures
        ({
            let n = spec_need(m.phase);
            let step = spec_push(m, s.take(n as int));
            let rest = spec_run(step.0, s.skip(n as int));
            spec_run(m, s) == (
                match step.1->Ok_0 {
                    Some(e) => seq![e] + rest.0,
                    None => rest.0,
                },
                rest.1,
                rest.2,
                n + rest.3,
            )
        }),
{
}

/// The END sentinel at the front of a block stream, with nothing after
/// it, takes the decoder to its end with no event.
#[verifier::spinoff_prover]
#[verifier::rlimit(30)]
proof fn lemma_run_end(d: Seq<u8>)
    requires
        spec_read_frame(d) == Ok::<Option<(u8, u8, Seq<u8>, nat)>, WireError>(None),
        spec_end_size(d) == Ok::<nat, DecodeErrorView>(d.len()),
    ensures
        spec_run(spec_at_block(), d) == (Seq::<EventModel>::empty(), spec_done(), None::<DecodeErrorView>, d.len()),
{
    crate::varint::lemma_decode_varint_prefix(d);
    let (tv, n1) = spec_decode_varint(d)->Ok_0;
    assert(d.take(0) =~= Seq::<u8>::empty());
    assert(d.skip(0) =~= d);
    lemma_run_varint(spec_at_block(), d, 0);
    let m1 = StreamModel { phase: spec_after_type(tv), varint: Seq::empty() };
    assert(m1.phase == StreamPhase::EndFlags);
    let s1 = d.skip(n1 as int);
    let s2 = d.subrange((n1 + 1) as int, d.len() as int);
    assert(s1.skip(1) =~= s2);
    let m2 = StreamModel { phase: StreamPhase::EndLength, varint: Seq::empty() };
    assert(spec_push(m1, s1.take(1)) == (m2, Ok::<Option<EventModel>, DecodeErrorView>(None)));
    lemma_run_step(m1, s1);
    crate::varint::lemma_decode_varint_prefix(s2);
    let n2 = spec_decode_varint(s2)->Ok_0.1;
    assert(s2.take(0) =~= Seq::<u8>::empty());
    assert(s2.skip(0) =~= s2);
    lemma_run_varint(m2, s2, 0);
    assert(s2.skip(n2 as int).len() == 0);
}

/// A block type varint and a flags byte at the front of `d` take the
/// decoder to the body length, with no event.
#[verifier::spinoff_prover]
#[verifier::rlimit(30)]
proof fn lemma_run_type_and_flags(d: Seq<u8>, t: u8, f: u8)
    requires
        spec_decode_varint(d) is Ok,
        (spec_decode_varint(d)->Ok_0.0 % 256) as u8 == t,
        t != 0xFF,
        spec_decode_varint(d)->Ok_0.1 < d.len(),
        d[spec_decode_varint(d)->Ok_0.1 as int] == f,
    ensures
        spec_run(spec_at_block(), d) == spec_after(
            spec_run(
                StreamModel { phase: StreamPhase::Length { block_type: t, flags: f }, varint: Seq::empty() },
                d.subrange(spec_decode_varint(d)->Ok_0.1 + 1int, d.len() as int),
            ),
            spec_decode_varint(d)->Ok_0.1 + 1,
        ),
{
    let n1 = spec_decode_varint(d)->Ok_0.1;
    assert(d.take(0) =~= Seq::<u8>::empty());
    assert(d.skip(0) =~= d);
    lemma_run_varint(spec_at_block(), d, 0);
    let m1 = StreamModel { phase: StreamPhase::Flags { block_type: t }, varint: Seq::empty() };
    let s1 = d.skip(n1 as int);
    assert(s1.take(1)[0] == d[n1 as int]);
    let m2 = StreamModel { phase: StreamPhase::Length { block_type: t, flags: f }, varint: Seq::empty() };
    assert(spec_push(m1, s1.take(1)) == (m2, Ok::<Option<EventModel>, DecodeErrorView>(None)));
    lemma_run_step(m1, s1);
    assert(s1.skip(1) =~= d.subrange(n1 + 1int, d.len() as int));
}

/// The type, flags and length of a block frame at the front of `d` take
/// the decoder to the frame's body, with no event.
#[verifier::spinoff_prover]
#[verifier::rlimit(30)]
proof fn lemma_run_frame_head(d: Seq<u8>, t: u8, f: u8, body: Seq<u8>, n: nat)
    requires
        spec_read_frame(d) == Ok::<Option<(u8, u8, Seq<u8>, nat)>, WireError>(Some((t, f, body, n))),
        d.len() <= usize::MAX,
    ensures
        body.len() <= n <= d.len(),
        spec_run(spec_at_block(), d) == spec_after(
            spec_run(
                StreamModel { phase: StreamPhase::Body { block_type: t, flags: f, len: body.len() as usize }, varint: Seq::empty() },
                d.subrange(n - body.len(), d.len() as int),
            ),
            (n - body.len()) as nat,
        ),
{
    crate::varint::lemma_decode_varint_prefix(d);
    let n1 = spec_decode_varint(d)->Ok_0.1;
    lemma_run_type_and_flags(d, t, f);
    let s2 = d.subrange((n1 + 1) as int, d.len() as int);
    crate::varint::lemma_decode_varint_prefix(s2);
    let (len, n2) = spec_decode_varint(s2)->Ok_0;
    let m2 = StreamModel { phase: StreamPhase::Length { block_type: t, flags: f }, varint: Seq::empty() };
    assert(s2.take(0) =~= Seq::<u8>::empty());
    assert(s2.skip(0) =~= s2);
    lemma_run_varint(m2, s2, 0);
    assert(s2.skip(n2 as int) =~= d.subrange(n1 + 1int + n2, d.len() as int));
    assert(len == body.len());
}

/// A block frame at the front of a block stream, whose body the decoder
/// takes as it is, gives that block's event and leaves the decoder at the
/// next frame.
#[verifier::spinoff_prover]
#[verifier::rlimit(30)]
proof fn lemma_run_block(d: Seq<u8>, t: u8, f: u8, body: Seq<u8>, n: nat, b: BlockModel)
    requires
        spec_read_frame(d) == Ok::<Option<(u8, u8, Seq<u8>, nat)>, WireError>(Some((t, f, body, n))),
        spec_decode_block(t, f, body, None) == Ok::<BlockModel, DecodeErrorView>(b),
        spec_plain_block(b),
        d.len() <= usize::MAX,
    ensures
        ({
            let rest = spec_run(spec_at_block(), d.subrange(n as int, d.len() as int));
            spec_run(spec_at_block(), d) == (seq![EventModel::Block(b)] + rest.0, rest.1, rest.2, n + rest.3)
        }),
{
    lemma_run_frame_head(d, t, f, body, n);
    let len = body.len();
    let m3 = StreamModel { phase: StreamPhase::Body { block_type: t, flags: f, len: len as usize }, varint: Seq::empty() };
    let s3 = d.subrange(n - len, d.len() as int);
    assert(spec_need(m3.phase) == len);
    assert(s3.take(len as int) =~= body) by {
        assert(d.subrange(n - len, n as int) =~= body);
    }
    assert(s3.skip(len as int) =~= d.subrange(n as int, d.len() as int));
    assert(b.flags == f);
    assert(spec_stream_block(t, f, body) == spec_decode_block(t, f, body, None));
    assert(spec_push(m3, s3.take(len as int)) == (
        spec_at_block(),
        Ok::<Option<EventModel>, DecodeErrorView>(Some(EventModel::Block(b))),
    ));
    lemma_run_step(m3, s3);
}

/// A block stream that decodes, fed to the decoder, gives an event per
/// block, reaches the END sentinel, and uses every byte.
#[verifier::spinoff_prover]
#[verifier::rlimit(30)]
proof fn lemma_run_frames(d: Seq<u8>, bs: Seq<BlockModel>)
    requires
        spec_decode_frames(d, None) == Ok::<Seq<BlockModel>, DecodeErrorView>(bs),
        forall|i: int| 0 <= i < bs.len() ==> spec_plain_block(#[trigger] bs[i]),
        d.len() <= usize::MAX,
    ensures
        spec_run(spec_at_block(), d) == (spec_block_events(bs), spec_done(), None::<DecodeErrorView>, d.len()),
    decreases d.len(),
{
    match spec_read_frame(d) {
        Ok(None) => {
            crate::varint::lemma_decode_varint_bounds(d);
            let n1 = spec_decode_varint(d)->Ok_0.1;
            crate::varint::lemma_decode_varint_bounds(d.subrange((n1 + 1) as int, d.len() as int));
            lemma_run_end(d);
            assert(bs =~= Seq::<BlockModel>::empty());
            assert(spec_block_events(bs) =~= Seq::<EventModel>::empty());
        },
        Ok(Some((t, f, body, n))) => {
            let b = spec_decode_block(t, f, body, None)->Ok_0;
            let rest = d.subrange(n as int, d.len() as int);
            let bs2 = spec_decode_frames(rest, None)->Ok_0;
            assert(bs == seq![b] + bs2);
            assert(bs[0] == b);
            assert forall|i: int| 0 <= i < bs2.len() implies spec_plain_block(#[trigger] bs2[i]) by {
                assert(bs2[i] == bs[i + 1]);
            }
            lemma_run_frames(rest, bs2);
            lemma_run_block(d, t, f, body, n, b);
            assert(spec_block_events(bs) =~= seq![EventModel::Block(b)] + spec_block_events(bs2));
        },
        Err(_) => {},
    }
}

/// The streaming decoder agrees with the whole-payload decoder: a payload
/// that decodes, with no compression and no references, fed to a new
/// streaming decoder in the pieces it asks for, gives the header and then
/// every block in order, reaches the END sentinel, and uses every byte.
#[verifier::spinoff_prover]
#[verifier::rlimit(30)]
pub proof fn lemma_streaming_matches_decoder(p: Seq<u8>)
    requires
        spec_decode_payload(p, None) is Ok,
        !spec_decode_payload(p, None)->Ok_0.header.flags.spec_is_compressed(),
        forall|i: int|
            0 <= i < spec_decode_payload(p, None)->Ok_0.blocks.len() ==> spec_plain_block(
                #[trigger] spec_decode_payload(p, None)->Ok_0.blocks[i],
            ),
        p.len() <= usize::MAX,
    ensures
        spec_run(StreamModel { phase: StreamPhase::Header, varint: Seq::empty() }, p) == (
            seq![EventModel::Header(spec_decode_payload(p, None)->Ok_0.header)] + spec_block_events(
                spec_decode_payload(p, None)->Ok_0.blocks,
            ),
            spec_done(),
            None::<DecodeErrorView>,
            p.len(),
        ),
{
    let pm = spec_decode_payload(p, None)->Ok_0;
    let m0 = StreamModel { phase: StreamPhase::Header, varint: Seq::empty() };
    let h8 = p.take(HEADER_SIZE as int);
    assert(spec_read_header(p) is Ok);
    assert(forall|i: int| 0 <= i < HEADER_SIZE ==> h8[i] == p[i]);
    assert(spec_read_header(h8) == spec_read_header(p));
    let rest = p.subrange(HEADER_SIZE as int, p.len() as int);
    assert(p.skip(HEADER_SIZE as int) =~= rest);
    assert(spec_push(m0, h8) == (spec_at_block(), Ok::<Option<EventModel>, DecodeErrorView>(Some(EventModel::Header(pm.header)))));
    lemma_run_step(m0, p);
    lemma_run_frames(rest, pm.blocks);
}

} // verus!
