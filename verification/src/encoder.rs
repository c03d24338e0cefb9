//! Building a payload: typed blocks are added one after another, modifiers
//! act on the last block, and `encode` serializes them behind a header,
//! with optional content addressing and zstd compression.
use vstd::prelude::*;
use vstd::string::StringExecFns;
use crate::block::{BlockContent, ContentModel, spec_content_type, spec_encode_content};
use crate::block_frame::{
    BlockFlags, BlockFrame, FLAG_COMPRESSED, FLAG_HAS_SUMMARY, FLAG_IS_REFERENCE, spec_end_frame,
    spec_frame_bytes,
};
use crate::block_type::{BlockType, spec_block_type_id};
use crate::blocks::{
    AnnotationBlock, AnnotationModel, CodeBlock, CodeModel, ConversationBlock, ConversationModel,
    DiffHunk, DocumentBlock, DocumentModel, EmbeddingRefBlock, EmbeddingRefModel, ExtensionBlock, ExtensionModel,
    ImageBlock, ImageModel, StructuredDataBlock, StructuredDataModel, ToolResultBlock,
    ToolResultModel,
};
use crate::compression::{COMPRESSION_THRESHOLD, compress, spec_compress, spec_compress_roundtrips};
use crate::content_store::{ContentStore, MemoryContentStore, blake3_hash, spec_blake3};
use crate::diff::{DiffBlock, DiffModel};
use crate::enums::{
    AnnotationKind, DataFormat, FormatHint, Lang, MediaType, Priority, Role, Status,
    spec_priority_byte,
};
use crate::error::EncodeError;
use crate::file_tree::{FileEntry, FileTreeBlock, FileTreeModel, spec_entries_view};
use crate::header::{BcpHeader, HEADER_FLAG_COMPRESSED, HEADER_SIZE, HeaderFlags, spec_header_bytes};
use crate::summary::{Summary, spec_summary_bytes};

verus! {

/// The largest block body (summary included) the encoder accepts: 16 MiB.
pub const MAX_BLOCK_BODY_SIZE: usize = 16777216;

/// A block waiting to be serialized.
struct PendingBlock {
    content: BlockContent,
    summary: Option<String>,
    compress: bool,
    content_address: bool,
}

/// The view of a block waiting to be serialized.
pub struct PendingModel {
    pub content: ContentModel,
    pub summary: Option<Seq<char>>,
    pub compress: bool,
    pub content_address: bool,
}

/// The view of an [`LcpEncoder`]: its pending blocks, its settings and
/// the contents of its store, if it has one.
pub struct EncoderModel {
    pub blocks: Seq<PendingModel>,
    pub flags: u8,
    pub compress_payload: bool,
    pub compress_all_blocks: bool,
    pub store: Option<Map<Seq<u8>, Seq<u8>>>,
    pub auto_dedup: bool,
}

impl EncoderModel {
    /// The model after appending a block with this content.
    pub open spec fn with_block(self, c: ContentModel) -> EncoderModel {
        EncoderModel {
            blocks: self.blocks.push(
                PendingModel {
                    content: c,
                    summary: None,
                    compress: self.compress_all_blocks,
                    content_address: false,
                },
            ),
            ..self
        }
    }

    /// The model with the last pending block replaced.
    pub open spec fn with_last(self, p: PendingModel) -> EncoderModel {
        EncoderModel { blocks: self.blocks.update(self.blocks.len() - 1, p), ..self }
    }

    /// The model with another store.
    pub open spec fn with_store(self, store: Option<Map<Seq<u8>, Seq<u8>>>) -> EncoderModel {
        EncoderModel { store, ..self }
    }
}

/// Builds payloads.
pub struct LcpEncoder {
    blocks: Vec<PendingBlock>,
    flags: HeaderFlags,
    compress_payload: bool,
    compress_all_blocks: bool,
    content_store: Option<MemoryContentStore>,
    auto_dedup: bool,
}

/// The view of a pending block.
spec fn spec_pending_view(p: PendingBlock) -> PendingModel {
    PendingModel {
        content: p.content@,
        summary: match p.summary {
            Some(s) => Some(s@),
            None => None,
        },
        compress: p.compress,
        content_address: p.content_address,
    }
}

impl View for LcpEncoder {
    type V = EncoderModel;

    closed spec fn view(&self) -> EncoderModel {
        EncoderModel {
            blocks: self.blocks@.map_values(|p: PendingBlock| spec_pending_view(p)),
            flags: self.flags.bits,
            compress_payload: self.compress_payload,
            compress_all_blocks: self.compress_all_blocks,
            store: match self.content_store {
                Some(s) => Some(s.stored()),
                None => None,
            },
            auto_dedup: self.auto_dedup,
        }
    }
}

/// The body of a pending block: its summary, if any, then its TLV fields.
pub open spec fn spec_block_body(p: PendingModel) -> Seq<u8> {
    match p.summary {
        Some(t) => spec_summary_bytes(t) + spec_encode_content(p.content),
        None => spec_encode_content(p.content),
    }
}

/// A store after storing `b` under its hash; a hash already present keeps
/// its body.
pub open spec fn spec_put(m: Map<Seq<u8>, Seq<u8>>, b: Seq<u8>) -> Map<Seq<u8>, Seq<u8>> {
    if m.contains_key(spec_blake3(b)) {
        m
    } else {
        m.insert(spec_blake3(b), b)
    }
}

/// Content addressing of one body: the body sent on the wire, whether it
/// is a reference, and the store afterwards. An explicit request always
/// sends the hash; automatic deduplication sends the hash of a body the
/// store already holds and stores a new one.
pub open spec fn spec_address(
    p: PendingModel,
    auto_dedup: bool,
    store: Option<Map<Seq<u8>, Seq<u8>>>,
    body: Seq<u8>,
) -> (Seq<u8>, bool, Option<Map<Seq<u8>, Seq<u8>>>) {
    match store {
        None => (body, false, None),
        Some(m) => if p.content_address {
            (spec_blake3(body), true, Some(spec_put(m, body)))
        } else if auto_dedup {
            if m.contains_key(spec_blake3(body)) {
                (spec_blake3(body), true, Some(m))
            } else {
                (body, false, Some(spec_put(m, body)))
            }
        } else {
            (body, false, Some(m))
        },
    }
}

/// Whether a block body goes through per-block compression.
pub open spec fn spec_wants_compression(e: EncoderModel, p: PendingModel, is_ref: bool, body: Seq<u8>) -> bool {
    !is_ref && !e.compress_payload && (p.compress || e.compress_all_blocks) && body.len()
        >= COMPRESSION_THRESHOLD
}

/// What reading block `p` back needs of the outside results met while
/// encoding it at store `st`: when its body is compressed, the compressed
/// form decompresses to the body; when it is sent as a reference, the hash
/// has 32 bytes.
pub open spec fn spec_block_outside_ok(e: EncoderModel, p: PendingModel, st: Option<Map<Seq<u8>, Seq<u8>>>) -> bool {
    let body = spec_block_body(p);
    let (b1, is_ref, _st1) = spec_address(p, e.auto_dedup, st, body);
    &&& spec_wants_compression(e, p, is_ref, b1) ==> spec_compress_roundtrips(b1)
    &&& is_ref ==> spec_blake3(body).len() == 32
}

/// [`spec_block_outside_ok`] for each of the blocks, each at the store
/// that the blocks before it left.
pub open spec fn spec_blocks_outside_ok(e: EncoderModel, bs: Seq<PendingModel>, st: Option<Map<Seq<u8>, Seq<u8>>>) -> bool
    decreases bs.len(),
{
    if bs.len() == 0 {
        true
    } else {
        spec_blocks_outside_ok(e, bs.drop_last(), st) && spec_block_outside_ok(
            e,
            bs.last(),
            spec_encode_blocks(e, bs.drop_last(), st).1,
        )
    }
}

/// What reading a payload back needs of the outside results met while
/// encoding it: the facts for each block, and, when the whole stream is
/// compressed, that it decompresses to the stream.
pub open spec fn spec_encode_outside_ok(e: EncoderModel) -> bool {
    &&& spec_blocks_outside_ok(e, e.blocks, e.store)
    &&& e.compress_payload ==> spec_compress_roundtrips(
        spec_encode_blocks(e, e.blocks, e.store).0->Ok_0 + spec_end_frame(),
    )
}

/// The flags byte of a frame.
pub open spec fn spec_frame_flags(summary: bool, reference: bool, compressed: bool) -> u8 {
    ((if summary { FLAG_HAS_SUMMARY } else { 0u8 }) | (if reference { FLAG_IS_REFERENCE } else { 0u8 })) | (
    if compressed { FLAG_COMPRESSED } else { 0u8 })
}

/// Encoding one pending block as a frame, with the store before and after.
pub open spec fn spec_encode_block(e: EncoderModel, p: PendingModel, store: Option<Map<Seq<u8>, Seq<u8>>>) -> (Result<Seq<u8>, EncodeError>, Option<Map<Seq<u8>, Seq<u8>>>) {
    let body = spec_block_body(p);
    if body.len() > MAX_BLOCK_BODY_SIZE {
        (Err(EncodeError::BlockTooLarge { size: body.len() as usize, limit: MAX_BLOCK_BODY_SIZE }), store)
    } else {
        let (b1, is_ref, st) = spec_address(p, e.auto_dedup, store, body);
        let (b2, compressed) = if spec_wants_compression(e, p, is_ref, b1) {
            match spec_compress(b1) {
                Some(c) => (c, true),
                None => (b1, false),
            }
        } else {
            (b1, false)
        };
        (
            Ok(spec_frame_bytes(
                spec_block_type_id(spec_content_type(p.content)),
                spec_frame_flags(p.summary is Some, is_ref, compressed),
                b2,
            )),
            st,
        )
    }
}

/// Encoding pending blocks in order; the first error stops.
pub open spec fn spec_encode_blocks(e: EncoderModel, bs: Seq<PendingModel>, store: Option<Map<Seq<u8>, Seq<u8>>>) -> (Result<Seq<u8>, EncodeError>, Option<Map<Seq<u8>, Seq<u8>>>)
    decreases bs.len(),
{
    if bs.len() == 0 {
        (Ok(Seq::empty()), store)
    } else {
        let (r, st) = spec_encode_blocks(e, bs.drop_last(), store);
        match r {
            Err(x) => (Err(x), st),
            Ok(prefix) => {
                let (r2, st2) = spec_encode_block(e, bs.last(), st);
                match r2 {
                    Err(x) => (Err(x), st2),
                    Ok(fb) => (Ok(prefix + fb), st2),
                }
            },
        }
    }
}

/// Whether some block, or automatic deduplication, needs a store.
pub open spec fn spec_needs_store(e: EncoderModel) -> bool {
    e.auto_dedup || exists|i: int| 0 <= i < e.blocks.len() && #[trigger] e.blocks[i].content_address
}

/// The header of an encoded payload.
pub open spec fn spec_payload_header(flags: u8) -> BcpHeader {
    BcpHeader { version_major: 1, version_minor: 0, flags: HeaderFlags { bits: flags } }
}

/// Encoding a whole payload: the bytes, or the error, and the store
/// afterwards.
pub open spec fn spec_encode(e: EncoderModel) -> (Result<Seq<u8>, EncodeError>, Option<Map<Seq<u8>, Seq<u8>>>) {
    if e.blocks.len() == 0 {
        (Err(EncodeError::EmptyPayload), e.store)
    } else if spec_needs_store(e) && e.store is None {
        (Err(EncodeError::MissingContentStore), e.store)
    } else {
        let (r, st) = spec_encode_blocks(e, e.blocks, e.store);
        match r {
            Err(x) => (Err(x), st),
            Ok(frames) => {
                let stream = frames + spec_end_frame();
                if e.compress_payload {
                    match spec_compress(stream) {
                        Some(c) => (
                            Ok(spec_header_bytes(spec_payload_header(e.flags | HEADER_FLAG_COMPRESSED)) + c),
                            st,
                        ),
                        None => (Ok(spec_header_bytes(spec_payload_header(e.flags)) + stream), st),
                    }
                } else {
                    (Ok(spec_header_bytes(spec_payload_header(e.flags)) + stream), st)
                }
            },
        }
    }
}

impl LcpEncoder {
    /// An encoder with no blocks, no compression and no content store.
    pub fn new() -> (r: Self)
        ensures
            r@ == (EncoderModel {
                blocks: Seq::empty(),
                flags: 0,
                compress_payload: false,
                compress_all_blocks: false,
                store: None,
                auto_dedup: false,
            }),
    {
        let r = LcpEncoder {
            blocks: Vec::new(),
            flags: HeaderFlags::none(),
            compress_payload: false,
            compress_all_blocks: false,
            content_store: None,
            auto_dedup: false,
        };
        assert(r@.blocks =~= Seq::<PendingModel>::empty());
        r
    }

    fn push_block(&mut self, content: BlockContent) -> (r: &mut Self)
        ensures
            (*r)@ == old(self)@.with_block(content@),
            *final(self) == *final(r),
    {
        let p = PendingBlock {
            content,
            summary: None,
            compress: self.compress_all_blocks,
            content_address: false,
        };
        let ghost before = self@;
        self.blocks.push(p);
        assert(self@.blocks =~= before.blocks.push(spec_pending_view(p)));
        self
    }

    /// Add a CODE block.
    pub fn add_code(&mut self, lang: Lang, path: &str, content: &[u8]) -> (r: &mut Self)
        ensures
            (*r)@ == old(self)@.with_block(
                ContentModel::Code(CodeModel { lang, path: path@, content: content@, line_range: None }),
            ),
            *final(self) == *final(r),
    {
        self.push_block(
            BlockContent::Code(
                CodeBlock {
                    lang,
                    path: String::from_str(path),
                    content: vstd::slice::slice_to_vec(content),
                    line_range: None,
                },
            ),
        )
    }

    /// Add a CODE block with a line range (1-based, inclusive).
    pub fn add_code_range(
        &mut self,
        lang: Lang,
        path: &str,
        content: &[u8],
        line_start: u32,
        line_end: u32,
    ) -> (r: &mut Self)
        ensures
            (*r)@ == old(self)@.with_block(
                ContentModel::Code(
                    CodeModel {
                        lang,
                        path: path@,
                        content: content@,
                        line_range: Some((line_start, line_end)),
                    },
                ),
            ),
            *final(self) == *final(r),
    {
        self.push_block(
            BlockContent::Code(
                CodeBlock {
                    lang,
                    path: String::from_str(path),
                    content: vstd::slice::slice_to_vec(content),
                    line_range: Some((line_start, line_end)),
                },
            ),
        )
    }

    /// Add a CONVERSATION block.
    pub fn add_conversation(&mut self, role: Role, content: &[u8]) -> (r: &mut Self)
        ensures
            (*r)@ == old(self)@.with_block(
                ContentModel::Conversation(
                    ConversationModel { role, content: content@, tool_call_id: None },
                ),
            ),
            *final(self) == *final(r),
    {
        self.push_block(
            BlockContent::Conversation(
                ConversationBlock {
                    role,
                    content: vstd::slice::slice_to_vec(content),
                    tool_call_id: None,
                },
            ),
        )
    }

    /// Add a CONVERSATION block that answers the tool call `tool_call_id`.
    pub fn add_conversation_tool(&mut self, role: Role, content: &[u8], tool_call_id: &str) -> (r: &mut Self)
        ensures
            (*r)@ == old(self)@.with_block(
                ContentModel::Conversation(
                    ConversationModel {
                        role,
                        content: content@,
                        tool_call_id: Some(tool_call_id@),
                    },
                ),
            ),
            *final(self) == *final(r),
    {
        self.push_block(
            BlockContent::Conversation(
                ConversationBlock {
                    role,
                    content: vstd::slice::slice_to_vec(content),
                    tool_call_id: Some(String::from_str(tool_call_id)),
                },
            ),
        )
    }

    /// Add a FILE_TREE block.
    pub fn add_file_tree(&mut self, root: &str, entries: Vec<FileEntry>) -> (r: &mut Self)
        ensures
            (*r)@ == old(self)@.with_block(
                ContentModel::FileTree(
                    FileTreeModel { root_path: root@, entries: spec_entries_view(entries@) },
                ),
            ),
            *final(self) == *final(r),
    {
        self.push_block(
            BlockContent::FileTree(FileTreeBlock { root_path: String::from_str(root), entries }),
        )
    }

    /// Add a TOOL_RESULT block.
    pub fn add_tool_result(&mut self, name: &str, status: Status, content: &[u8]) -> (r: &mut Self)
        ensures
            (*r)@ == old(self)@.with_block(
                ContentModel::ToolResult(
                    ToolResultModel {
                        tool_name: name@,
                        status,
                        content: content@,
                        schema_hint: None,
                    },
                ),
            ),
            *final(self) == *final(r),
    {
        self.push_block(
            BlockContent::ToolResult(
                ToolResultBlock {
                    tool_name: String::from_str(name),
                    status,
                    content: vstd::slice::slice_to_vec(content),
                    schema_hint: None,
                },
            ),
        )
    }

    /// Add a DOCUMENT block.
    pub fn add_document(&mut self, title: &str, content: &[u8], format_hint: FormatHint) -> (r: &mut Self)
        ensures
            (*r)@ == old(self)@.with_block(
                ContentModel::Document(
                    DocumentModel { title: title@, content: content@, format_hint },
                ),
            ),
            *final(self) == *final(r),
    {
        self.push_block(
            BlockContent::Document(
                DocumentBlock {
                    title: String::from_str(title),
                    content: vstd::slice::slice_to_vec(content),
                    format_hint,
                },
            ),
        )
    }

    /// Add a STRUCTURED_DATA block.
    pub fn add_structured_data(&mut self, format: DataFormat, content: &[u8]) -> (r: &mut Self)
        ensures
            (*r)@ == old(self)@.with_block(
                ContentModel::StructuredData(
                    StructuredDataModel { format, content: content@, schema: None },
                ),
            ),
            *final(self) == *final(r),
    {
        self.push_block(
            BlockContent::StructuredData(
                StructuredDataBlock {
                    format,
                    content: vstd::slice::slice_to_vec(content),
                    schema: None,
                },
            ),
        )
    }

    /// Add a DIFF block.
    pub fn add_diff(&mut self, path: &str, hunks: Vec<DiffHunk>) -> (r: &mut Self)
        ensures
            (*r)@ == old(self)@.with_block(
                ContentModel::Diff(
                    DiffModel { path: path@, hunks: hunks@.map_values(|h: DiffHunk| h@) },
                ),
            ),
            *final(self) == *final(r),
    {
        self.push_block(BlockContent::Diff(DiffBlock { path: String::from_str(path), hunks }))
    }

    /// Add an ANNOTATION block aimed at the block with index
    /// `target_block_id`.
    pub fn add_annotation(&mut self, target_block_id: u32, kind: AnnotationKind, value: &[u8]) -> (r: &mut Self)
        ensures
            (*r)@ == old(self)@.with_block(
                ContentModel::Annotation(
                    AnnotationModel { target_block_id, kind, value: value@ },
                ),
            ),
            *final(self) == *final(r),
    {
        self.push_block(
            BlockContent::Annotation(
                AnnotationBlock { target_block_id, kind, value: vstd::slice::slice_to_vec(value) },
            ),
        )
    }

    /// Add an IMAGE block.
    pub fn add_image(&mut self, media_type: MediaType, alt_text: &str, data: &[u8]) -> (r: &mut Self)
        ensures
            (*r)@ == old(self)@.with_block(
                ContentModel::Image(
                    ImageModel { media_type, alt_text: alt_text@, data: data@ },
                ),
            ),
            *final(self) == *final(r),
    {
        self.push_block(
            BlockContent::Image(
                ImageBlock {
                    media_type,
                    alt_text: String::from_str(alt_text),
                    data: vstd::slice::slice_to_vec(data),
                },
            ),
        )
    }

    /// Add an EMBEDDING_REF block: a vector id, the hash of the content
    /// it was computed from, and the embedding model's name.
    pub fn add_embedding_ref(&mut self, vector_id: &[u8], source_hash: &[u8], model: &str) -> (r: &mut Self)
        ensures
            (*r)@ == old(self)@.with_block(
                ContentModel::EmbeddingRef(
                    EmbeddingRefModel { vector_id: vector_id@, source_hash: source_hash@, model: model@ },
                ),
            ),
            *final(self) == *final(r),
    {
        self.push_block(
            BlockContent::EmbeddingRef(
                EmbeddingRefBlock {
                    vector_id: vstd::slice::slice_to_vec(vector_id),
                    source_hash: vstd::slice::slice_to_vec(source_hash),
                    model: String::from_str(model),
                },
            ),
        )
    }

    /// Add an EXTENSION block, named by `namespace` and `extension_type`.
    pub fn add_extension(&mut self, namespace: &str, extension_type: &str, content: &[u8]) -> (r: &mut Self)
        ensures
            (*r)@ == old(self)@.with_block(
                ContentModel::Extension(
                    ExtensionModel {
                        namespace: namespace@,
                        extension_type: extension_type@,
                        content: content@,
                    },
                ),
            ),
            *final(self) == *final(r),
    {
        self.push_block(
            BlockContent::Extension(
                ExtensionBlock {
                    namespace: String::from_str(namespace),
                    extension_type: String::from_str(extension_type),
                    content: vstd::slice::slice_to_vec(content),
                },
            ),
        )
    }

    /// Attach a summary to the last block added.
    ///
    /// # Errors
    ///
    /// `InvalidSummaryTarget` when no block has been added; the encoder is
    /// then left as it was.
    pub fn with_summary(&mut self, summary: &str) -> (r: Result<&mut Self, EncodeError>)
        ensures
            old(self)@.blocks.len() == 0 ==> (r matches Err(x) && x == EncodeError::InvalidSummaryTarget
                && *final(self) == *old(self)),
            old(self)@.blocks.len() > 0 ==> (r matches Ok(s) && (*s)@ == old(self)@.with_last(
                PendingModel { summary: Some(summary@), ..old(self)@.blocks.last() },
            ) && *final(self) == *final(s)),
    {
        if self.blocks.len() == 0 {
            return Err(EncodeError::InvalidSummaryTarget);
        }
        let ghost before = self@;
        let last = self.blocks.len() - 1;
        let mut blocks: Vec<PendingBlock> = Vec::new();
        std::mem::swap(&mut blocks, &mut self.blocks);
        let mut p = blocks.remove(last);
        p.summary = Some(String::from_str(summary));
        blocks.push(p);
        self.blocks = blocks;
        assert(self@.blocks =~= before.blocks.update(
            before.blocks.len() - 1,
            PendingModel { summary: Some(summary@), ..before.blocks.last() },
        ));
        Ok(self)
    }

    /// Append an ANNOTATION block giving the last block added this
    /// priority.
    pub fn with_priority(&mut self, priority: Priority) -> (r: &mut Self)
        requires
            old(self)@.blocks.len() > 0,
        ensures
            (*r)@ == old(self)@.with_block(
                ContentModel::Annotation(
                    AnnotationModel {
                        target_block_id: (old(self)@.blocks.len() - 1) as u32,
                        kind: AnnotationKind::Priority,
                        value: seq![spec_priority_byte(priority)],
                    },
                ),
            ),
            *final(self) == *final(r),
    {
        proof {
            assert(self@.blocks.len() == self.blocks@.len());
        }
        let target = (self.blocks.len() - 1) as u32;
        let value = vec![priority.to_wire_byte()];
        assert(value@ =~= seq![spec_priority_byte(priority)]);
        self.push_block(
            BlockContent::Annotation(
                AnnotationBlock { target_block_id: target, kind: AnnotationKind::Priority, value },
            ),
        )
    }

    /// Ask for the last block added to be compressed.
    pub fn with_compression(&mut self) -> (r: &mut Self)
        requires
            old(self)@.blocks.len() > 0,
        ensures
            (*r)@ == old(self)@.with_last(
                PendingModel { compress: true, ..old(self)@.blocks.last() },
            ),
            *final(self) == *final(r),
    {
        let ghost before = self@;
        let last = self.blocks.len() - 1;
        let mut blocks: Vec<PendingBlock> = Vec::new();
        std::mem::swap(&mut blocks, &mut self.blocks);
        let mut p = blocks.remove(last);
        p.compress = true;
        blocks.push(p);
        self.blocks = blocks;
        assert(self@.blocks =~= before.blocks.update(
            before.blocks.len() - 1,
            PendingModel { compress: true, ..before.blocks.last() },
        ));
        self
    }

    /// Ask for every block, added so far or later, to be compressed.
    pub fn compress_blocks(&mut self) -> (r: &mut Self)
        ensures
            (*r)@ == (EncoderModel {
                blocks: old(self)@.blocks.map_values(
                    |p: PendingModel| PendingModel { compress: true, ..p },
                ),
                compress_all_blocks: true,
                ..old(self)@
            }),
            *final(self) == *final(r),
    {
        let ghost before = self@;
        let mut blocks: Vec<PendingBlock> = Vec::new();
        std::mem::swap(&mut blocks, &mut self.blocks);
        let ghost orig = blocks@;
        let mut out: Vec<PendingBlock> = Vec::new();
        while blocks.len() > 0
            invariant
                out@.len() + blocks@.len() == orig.len(),
                blocks@ == orig.subrange(out@.len() as int, orig.len() as int),
                forall|j: int|
                    0 <= j < out@.len() ==> #[trigger] spec_pending_view(out@[j]) == (PendingModel {
                        compress: true,
                        ..spec_pending_view(orig[j])
                    }),
            decreases blocks@.len(),
        {
            let ghost k = out@.len();
            let mut p = blocks.remove(0);
            assert(spec_pending_view(p) == spec_pending_view(orig[k as int]));
            p.compress = true;
            out.push(p);
            assert(blocks@ =~= orig.subrange(out@.len() as int, orig.len() as int));
        }
        self.blocks = out;
        self.compress_all_blocks = true;
        assert(self@.blocks =~= before.blocks.map_values(
            |p: PendingModel| PendingModel { compress: true, ..p },
        ));
        self
    }

    /// Compress the whole block stream after the header.
    pub fn compress_payload(&mut self) -> (r: &mut Self)
        ensures
            (*r)@ == (EncoderModel { compress_payload: true, ..old(self)@ }),
            *final(self) == *final(r),
    {
        self.compress_payload = true;
        self
    }

    /// Use `store` for content addressing.
    pub fn set_content_store(&mut self, store: MemoryContentStore) -> (r: &mut Self)
        ensures
            (*r)@ == old(self)@.with_store(Some(store.stored())),
            *final(self) == *final(r),
    {
        self.content_store = Some(store);
        self
    }

    /// The content store, if one is set.
    pub fn content_store(&self) -> (r: Option<&MemoryContentStore>)
        ensures
            r matches Some(s) ==> self@.store == Some(s.stored()),
            r is None ==> self@.store is None,
    {
        match &self.content_store {
            Some(s) => Some(s),
            None => None,
        }
    }

    /// Ask for the last block added to be sent as a reference to its body
    /// in the content store.
    pub fn with_content_addressing(&mut self) -> (r: &mut Self)
        requires
            old(self)@.blocks.len() > 0,
        ensures
            (*r)@ == old(self)@.with_last(
                PendingModel { content_address: true, ..old(self)@.blocks.last() },
            ),
            *final(self) == *final(r),
    {
        let ghost before = self@;
        let last = self.blocks.len() - 1;
        let mut blocks: Vec<PendingBlock> = Vec::new();
        std::mem::swap(&mut blocks, &mut self.blocks);
        let mut p = blocks.remove(last);
        p.content_address = true;
        blocks.push(p);
        self.blocks = blocks;
        assert(self@.blocks =~= before.blocks.update(
            before.blocks.len() - 1,
            PendingModel { content_address: true, ..before.blocks.last() },
        ));
        self
    }

    /// Send every block whose body the store already holds as a reference.
    pub fn auto_dedup(&mut self) -> (r: &mut Self)
        ensures
            (*r)@ == (EncoderModel { auto_dedup: true, ..old(self)@ }),
            *final(self) == *final(r),
    {
        self.auto_dedup = true;
        self
    }

    /// Serialize all pending blocks into a payload.
    ///
    /// Each block body is its summary (if any) then its TLV fields; a
    /// block asked to be content-addressed (or found already stored under
    /// automatic deduplication) is sent as the 32-byte hash of its body;
    /// an eligible body of at least [`COMPRESSION_THRESHOLD`] bytes is
    /// compressed when that makes it smaller. The END sentinel closes the
    /// stream, which is compressed as a whole when asked for and smaller.
    /// Bodies stored for content addressing stay in the store, also when
    /// a later block fails.
    ///
    /// # Errors
    ///
    /// `EmptyPayload` with no block, `MissingContentStore` when content
    /// addressing is asked for without a store, and `BlockTooLarge` for
    /// the first body above [`MAX_BLOCK_BODY_SIZE`].
    pub fn encode(&mut self) -> (r: Result<Vec<u8>, EncodeError>)
        ensures
            final(self)@ == old(self)@.with_store(spec_encode(old(self)@).1),
            r matches Ok(v) ==> spec_encode(old(self)@).0 == Ok::<Seq<u8>, EncodeError>(v@),
            r matches Err(x) ==> spec_encode(old(self)@).0 == Err::<Seq<u8>, EncodeError>(x),
            r is Ok ==> spec_encode_outside_ok(old(self)@),
    {
        let ghost e = self@;
        if self.blocks.len() == 0 {
            assert(self@.with_store(self@.store) =~= self@);
            return Err(EncodeError::EmptyPayload);
        }
        let mut needs_store = self.auto_dedup;
        let mut k: usize = 0;
        while k < self.blocks.len()
            invariant
                e == self@,
                k <= self.blocks@.len(),
                needs_store == (e.auto_dedup || exists|j: int| 0 <= j < k && #[trigger] e.blocks[j].content_address),
            decreases self.blocks@.len() - k,
        {
            assert(e.blocks[k as int] == spec_pending_view(self.blocks@[k as int]));
            if self.blocks[k].content_address {
                needs_store = true;
                assert(e.blocks[k as int].content_address);
            } else {
                assert(forall|j: int| 0 <= j < k + 1 && #[trigger] e.blocks[j].content_address ==> j < k);
            }
            k = k + 1;
        }
        assert(needs_store == spec_needs_store(e));
        if needs_store && self.content_store.is_none() {
            assert(self@.with_store(self@.store) =~= self@);
            return Err(EncodeError::MissingContentStore);
        }
        let mut store: Option<MemoryContentStore> = None;
        std::mem::swap(&mut store, &mut self.content_store);
        let ghost zeros: Seq<u8> = Seq::new(8, |_j: int| 0u8);
        let mut output: Vec<u8> = Vec::new();
        let mut z: usize = 0;
        while z < HEADER_SIZE
            invariant
                z <= HEADER_SIZE,
                zeros == Seq::new(8, |_j: int| 0u8),
                output@ == zeros.take(z as int),
            decreases HEADER_SIZE - z,
        {
            output.push(0);
            z = z + 1;
            assert(output@ =~= zeros.take(z as int));
        }
        assert(zeros.take(8) =~= zeros);
        let mut i: usize = 0;
        assert(e.blocks.take(0) =~= Seq::<PendingModel>::empty());
        assert(zeros + Seq::<u8>::empty() =~= zeros);
        while i < self.blocks.len()
            invariant
                i <= self.blocks@.len(),
                self@ == e.with_store(None),
                e.blocks.len() > 0,
                e == old(self)@,
                !(spec_needs_store(e) && e.store is None),
                e.blocks.len() == self.blocks@.len(),
                spec_encode_blocks(e, e.blocks.take(i as int), e.store).0 matches Ok(frames)
                    && output@ == zeros + frames,
                spec_encode_blocks(e, e.blocks.take(i as int), e.store).1 == spec_opt_stored(store),
                spec_blocks_outside_ok(e, e.blocks.take(i as int), e.store),
            decreases self.blocks@.len() - i,
        {
            let ghost st0 = spec_opt_stored(store);
            let ghost p = e.blocks[i as int];
            proof {
                assert(e.blocks.take(i + 1).drop_last() =~= e.blocks.take(i as int));
                assert(e.blocks.take(i + 1).last() == p);
                assert(p == spec_pending_view(self.blocks@[i as int]));
            }
            let body = match Self::serialize_block_body(&self.blocks[i]) {
                Ok(b) => b,
                Err(x) => {
                    proof {
                        assert(spec_encode_block(e, p, st0) == (Err::<Seq<u8>, EncodeError>(x), st0));
                        assert(spec_encode_blocks(e, e.blocks.take(i + 1), e.store) == (
                            Err::<Seq<u8>, EncodeError>(x),
                            st0,
                        ));
                        lemma_blocks_prefix_error(e, e.blocks, (i + 1) as nat, e.store);
                        assert(spec_encode(e) == (Err::<Seq<u8>, EncodeError>(x), st0));
                    }
                    self.content_store = store;
                    assert(self@ =~= e.with_store(spec_encode(e).1));
                    return Err(x);
                },
            };
            let (b1, is_ref) = Self::apply_content_addressing(
                &self.blocks[i],
                self.auto_dedup,
                &mut store,
                body,
            );
            assert(is_ref ==> spec_blake3(spec_block_body(p)).len() == 32);
            let mut compressed = false;
            let mut b2 = b1;
            if !is_ref && !self.compress_payload && (self.blocks[i].compress
                || self.compress_all_blocks) && b2.len() >= COMPRESSION_THRESHOLD {
                match compress(b2.as_slice()) {
                    Some(c) => {
                        b2 = c;
                        compressed = true;
                    },
                    None => {},
                }
            }
            let has_summary = self.blocks[i].summary.is_some();
            let flags_raw: u8 = ((if has_summary { FLAG_HAS_SUMMARY } else { 0u8 }) | (if is_ref {
                FLAG_IS_REFERENCE
            } else {
                0u8
            })) | (if compressed { FLAG_COMPRESSED } else { 0u8 });
            let block_type = self.blocks[i].content.block_type();
            let frame = BlockFrame {
                block_type: block_type.to_wire_id(),
                flags: BlockFlags::from_raw(flags_raw),
                body: b2,
            };
            let ghost before = output@;
            match frame.write_to(&mut output) {
                Ok(_) => {},
                Err(x) => {
                    self.content_store = store;
                    return Err(EncodeError::Wire(x));
                },
            }
            proof {
                assert(output@ =~= zeros + (spec_encode_blocks(e, e.blocks.take(i as int), e.store).0->Ok_0 + spec_encode_block(e, p, st0).0->Ok_0));
                assert(spec_block_outside_ok(e, p, st0));
            }
            i = i + 1;
        }
        assert(e.blocks.take(i as int) =~= e.blocks);
        let ghost frames = spec_encode_blocks(e, e.blocks, e.store).0->Ok_0;
        let ghost st = spec_encode_blocks(e, e.blocks, e.store).1;
        let end_frame = BlockFrame { block_type: 0xFF, flags: BlockFlags::none(), body: Vec::new() };
        match end_frame.write_to(&mut output) {
            Ok(_) => {},
            Err(x) => {
                self.content_store = store;
                return Err(EncodeError::Wire(x));
            },
        }
        assert(end_frame.body@ =~= Seq::<u8>::empty());
        let ghost stream = frames + spec_end_frame();
        assert(output@ =~= zeros + stream);
        let ghost payload_tail: Seq<u8> = stream;
        let mut header_flags = HeaderFlags::from_raw(self.flags.raw());
        if self.compress_payload {
            let block_data = vstd::slice::slice_subrange(output.as_slice(), HEADER_SIZE, output.len());
            assert(block_data@ =~= stream);
            match compress(block_data) {
                Some(c) => {
                    let mut out2: Vec<u8> = Vec::new();
                    let mut z2: usize = 0;
                    while z2 < HEADER_SIZE
                        invariant
                            z2 <= HEADER_SIZE,
                            zeros == Seq::new(8, |_j: int| 0u8),
                            out2@ == zeros.take(z2 as int),
                        decreases HEADER_SIZE - z2,
                    {
                        out2.push(0);
                        z2 = z2 + 1;
                        assert(out2@ =~= zeros.take(z2 as int));
                    }
                    assert(zeros.take(8) =~= zeros);
                    out2.extend_from_slice(c.as_slice());
                    assert(out2@ =~= zeros + c@);
                    output = out2;
                    proof {
                        payload_tail = c@;
                    }
                    header_flags = HeaderFlags::from_raw(self.flags.raw() | HEADER_FLAG_COMPRESSED);
                },
                None => {},
            }
        }
        assert(output@ =~= zeros + payload_tail);
        let header = BcpHeader::new(header_flags);
        match header.write_to(&mut output) {
            Ok(()) => {},
            Err(x) => {
                self.content_store = store;
                return Err(EncodeError::Wire(x));
            },
        }
        self.content_store = store;
        proof {
            assert((zeros + payload_tail).subrange(HEADER_SIZE as int, (zeros + payload_tail).len() as int)
                =~= payload_tail);
            assert(header == spec_payload_header(header_flags.bits));
            assert(output@ =~= spec_header_bytes(header) + payload_tail);
            assert(!(spec_needs_store(e) && e.store is None));
            assert(spec_encode(e).1 == st);
            assert(self@ =~= e.with_store(spec_encode(e).1));
        }
        Ok(output)
    }

    /// The body of a pending block: its summary, if any, then its fields.
    fn serialize_block_body(p: &PendingBlock) -> (r: Result<Vec<u8>, EncodeError>)
        ensures
            spec_block_body(spec_pending_view(*p)).len() > MAX_BLOCK_BODY_SIZE ==> r == Err::<
                Vec<u8>,
                EncodeError,
            >(
                EncodeError::BlockTooLarge {
                    size: spec_block_body(spec_pending_view(*p)).len() as usize,
                    limit: MAX_BLOCK_BODY_SIZE,
                },
            ),
            spec_block_body(spec_pending_view(*p)).len() <= MAX_BLOCK_BODY_SIZE ==> (r matches Ok(b)
                && b@ == spec_block_body(spec_pending_view(*p))),
    {
        let tlv = p.content.encode_body();
        let mut body: Vec<u8> = Vec::new();
        match &p.summary {
            Some(t) => {
                let s = Summary { text: t.clone() };
                s.encode(&mut body);
            },
            None => {},
        }
        body.extend_from_slice(tlv.as_slice());
        assert(body@ =~= spec_block_body(spec_pending_view(*p)));
        if body.len() > MAX_BLOCK_BODY_SIZE {
            return Err(EncodeError::BlockTooLarge { size: body.len(), limit: MAX_BLOCK_BODY_SIZE });
        }
        Ok(body)
    }

    /// Content addressing of one body, against the store taken out of the
    /// encoder.
    fn apply_content_addressing(
        p: &PendingBlock,
        auto_dedup: bool,
        store: &mut Option<MemoryContentStore>,
        body: Vec<u8>,
    ) -> (r: (Vec<u8>, bool))
        ensures
            r.1 ==> r.0@.len() == 32,
            (r.0@, r.1, spec_opt_stored(*final(store))) == spec_address(
                spec_pending_view(*p),
                auto_dedup,
                spec_opt_stored(*old(store)),
                body@,
            ),
    {
        match store {
            None => (body, false),
            Some(s) => {
                if p.content_address {
                    let h = s.put(body.as_slice());
                    (vstd::slice::slice_to_vec(vstd::array::array_as_slice(&h)), true)
                } else if auto_dedup {
                    let h = blake3_hash(body.as_slice());
                    if s.contains(&h) {
                        (vstd::slice::slice_to_vec(vstd::array::array_as_slice(&h)), true)
                    } else {
                        s.put(body.as_slice());
                        (body, false)
                    }
                } else {
                    (body, false)
                }
            },
        }
    }
}

/// The contents of an optional store.
pub open spec fn spec_opt_stored(s: Option<MemoryContentStore>) -> Option<Map<Seq<u8>, Seq<u8>>> {
    match s {
        Some(m) => Some(m.stored()),
        None => None,
    }
}

/// An error on a prefix of the blocks is the error of all of them, with
/// the same store.
proof fn lemma_blocks_prefix_error(e: EncoderModel, bs: Seq<PendingModel>, k: nat, store: Option<Map<Seq<u8>, Seq<u8>>>)
    requires
        k <= bs.len(),
        spec_encode_blocks(e, bs.take(k as int), store).0 is Err,
    ensures
        spec_encode_blocks(e, bs, store) == spec_encode_blocks(e, bs.take(k as int), store),
    decreases bs.len() - k,
{
    if k < bs.len() {
        assert(bs.take((k + 1) as int).drop_last() =~= bs.take(k as int));
        lemma_blocks_prefix_error(e, bs, k + 1, store);
    } else {
        assert(bs.take(k as int) =~= bs);
    }
}

impl Default for LcpEncoder {
    fn default() -> (r: Self)
        ensures
            r@ == (EncoderModel {
                blocks: Seq::empty(),
                flags: 0,
                compress_payload: false,
                compress_all_blocks: false,
                store: None,
                auto_dedup: false,
            }),
    {
        LcpEncoder::new()
    }
}

} // verus!
