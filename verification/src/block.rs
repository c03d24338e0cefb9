//! A decoded block: its type, flags, optional summary and typed content,
//! and the dispatch from a block type to the codec of its body.
use vstd::prelude::*;
use vstd::utf8::encode_utf8;
use crate::block_frame::BlockFlags;
use crate::block_type::{BlockType, spec_block_type_id};
use crate::blocks::{
    AnnotationBlock, AnnotationModel, CodeBlock, CodeModel, ConversationBlock, ConversationModel,
    DocumentBlock, DocumentModel, EmbeddingRefBlock, EmbeddingRefModel, ExtensionBlock,
    ExtensionModel, ImageBlock, ImageModel, StructuredDataBlock, StructuredDataModel,
    ToolResultBlock, ToolResultModel, lemma_annotation_roundtrip, lemma_code_roundtrip,
    lemma_conversation_roundtrip, lemma_document_roundtrip, lemma_embedding_ref_roundtrip,
    lemma_extension_roundtrip, lemma_image_roundtrip, lemma_structured_data_roundtrip,
    lemma_tool_result_roundtrip, spec_decode_annotation, spec_decode_code,
    spec_decode_conversation, spec_decode_document, spec_decode_embedding_ref,
    spec_decode_extension, spec_decode_image, spec_decode_structured_data,
    spec_decode_tool_result, spec_encode_annotation, spec_encode_code, spec_encode_conversation,
    spec_encode_document, spec_encode_embedding_ref, spec_encode_extension, spec_encode_image,
    spec_encode_structured_data, spec_encode_tool_result, spec_encode_hunk,
};
use crate::diff::{DiffBlock, DiffModel, lemma_diff_roundtrip, spec_decode_diff, spec_encode_diff};
use crate::enums::spec_lang_canonical;
use crate::fields::TypeError;
use crate::file_tree::{
    FileTreeBlock, FileTreeModel, lemma_file_tree_roundtrip, spec_decode_file_tree,
    spec_encode_file_tree, spec_entries_fit,
};
use crate::summary::Summary;

verus! {

/// The typed content of a block. A type this library does not know keeps
/// its id and raw body; the END sentinel carries nothing.
#[derive(Debug, PartialEq, Eq)]
pub enum BlockContent {
    Code(CodeBlock),
    Conversation(ConversationBlock),
    FileTree(FileTreeBlock),
    ToolResult(ToolResultBlock),
    Document(DocumentBlock),
    StructuredData(StructuredDataBlock),
    Diff(DiffBlock),
    Annotation(AnnotationBlock),
    EmbeddingRef(EmbeddingRefBlock),
    Image(ImageBlock),
    Extension(ExtensionBlock),
    End,
    Unknown { type_id: u8, body: Vec<u8> },
}

/// The view of a [`BlockContent`].
pub enum ContentModel {
    Code(CodeModel),
    Conversation(ConversationModel),
    FileTree(FileTreeModel),
    ToolResult(ToolResultModel),
    Document(DocumentModel),
    StructuredData(StructuredDataModel),
    Diff(DiffModel),
    Annotation(AnnotationModel),
    EmbeddingRef(EmbeddingRefModel),
    Image(ImageModel),
    Extension(ExtensionModel),
    End,
    Unknown { type_id: u8, body: Seq<u8> },
}

impl View for BlockContent {
    type V = ContentModel;

    open spec fn view(&self) -> ContentModel {
        match self {
            BlockContent::Code(b) => ContentModel::Code(b@),
            BlockContent::Conversation(b) => ContentModel::Conversation(b@),
            BlockContent::FileTree(b) => ContentModel::FileTree(b@),
            BlockContent::ToolResult(b) => ContentModel::ToolResult(b@),
            BlockContent::Document(b) => ContentModel::Document(b@),
            BlockContent::StructuredData(b) => ContentModel::StructuredData(b@),
            BlockContent::Diff(b) => ContentModel::Diff(b@),
            BlockContent::Annotation(b) => ContentModel::Annotation(b@),
            BlockContent::EmbeddingRef(b) => ContentModel::EmbeddingRef(b@),
            BlockContent::Image(b) => ContentModel::Image(b@),
            BlockContent::Extension(b) => ContentModel::Extension(b@),
            BlockContent::End => ContentModel::End,
            BlockContent::Unknown { type_id, body } => ContentModel::Unknown { type_id: *type_id, body: body@ },
        }
    }
}

/// The block type that a content belongs to.
pub open spec fn spec_content_type(c: ContentModel) -> BlockType {
    match c {
        ContentModel::Code(_) => BlockType::Code,
        ContentModel::Conversation(_) => BlockType::Conversation,
        ContentModel::FileTree(_) => BlockType::FileTree,
        ContentModel::ToolResult(_) => BlockType::ToolResult,
        ContentModel::Document(_) => BlockType::Document,
        ContentModel::StructuredData(_) => BlockType::StructuredData,
        ContentModel::Diff(_) => BlockType::Diff,
        ContentModel::Annotation(_) => BlockType::Annotation,
        ContentModel::EmbeddingRef(_) => BlockType::EmbeddingRef,
        ContentModel::Image(_) => BlockType::Image,
        ContentModel::Extension(_) => BlockType::Extension,
        ContentModel::End => BlockType::End,
        ContentModel::Unknown { type_id, .. } => BlockType::Unknown(type_id),
    }
}

/// The body bytes of a content.
pub open spec fn spec_encode_content(c: ContentModel) -> Seq<u8> {
    match c {
        ContentModel::Code(m) => spec_encode_code(m),
        ContentModel::Conversation(m) => spec_encode_conversation(m),
        ContentModel::FileTree(m) => spec_encode_file_tree(m),
        ContentModel::ToolResult(m) => spec_encode_tool_result(m),
        ContentModel::Document(m) => spec_encode_document(m),
        ContentModel::StructuredData(m) => spec_encode_structured_data(m),
        ContentModel::Diff(m) => spec_encode_diff(m),
        ContentModel::Annotation(m) => spec_encode_annotation(m),
        ContentModel::EmbeddingRef(m) => spec_encode_embedding_ref(m),
        ContentModel::Image(m) => spec_encode_image(m),
        ContentModel::Extension(m) => spec_encode_extension(m),
        ContentModel::End => Seq::empty(),
        ContentModel::Unknown { body, .. } => body,
    }
}

/// Decoding a body as the content of a block of type `t`.
pub open spec fn spec_decode_content(t: BlockType, s: Seq<u8>) -> Result<ContentModel, TypeError> {
    match t {
        BlockType::Code => match spec_decode_code(s) {
            Err(e) => Err(e),
            Ok(m) => Ok(ContentModel::Code(m)),
        },
        BlockType::Conversation => match spec_decode_conversation(s) {
            Err(e) => Err(e),
            Ok(m) => Ok(ContentModel::Conversation(m)),
        },
        BlockType::FileTree => match spec_decode_file_tree(s) {
            Err(e) => Err(e),
            Ok(m) => Ok(ContentModel::FileTree(m)),
        },
        BlockType::ToolResult => match spec_decode_tool_result(s) {
            Err(e) => Err(e),
            Ok(m) => Ok(ContentModel::ToolResult(m)),
        },
        BlockType::Document => match spec_decode_document(s) {
            Err(e) => Err(e),
            Ok(m) => Ok(ContentModel::Document(m)),
        },
        BlockType::StructuredData => match spec_decode_structured_data(s) {
            Err(e) => Err(e),
            Ok(m) => Ok(ContentModel::StructuredData(m)),
        },
        BlockType::Diff => match spec_decode_diff(s) {
            Err(e) => Err(e),
            Ok(m) => Ok(ContentModel::Diff(m)),
        },
        BlockType::Annotation => match spec_decode_annotation(s) {
            Err(e) => Err(e),
            Ok(m) => Ok(ContentModel::Annotation(m)),
        },
        BlockType::EmbeddingRef => match spec_decode_embedding_ref(s) {
            Err(e) => Err(e),
            Ok(m) => Ok(ContentModel::EmbeddingRef(m)),
        },
        BlockType::Image => match spec_decode_image(s) {
            Err(e) => Err(e),
            Ok(m) => Ok(ContentModel::Image(m)),
        },
        BlockType::Extension => match spec_decode_extension(s) {
            Err(e) => Err(e),
            Ok(m) => Ok(ContentModel::Extension(m)),
        },
        BlockType::End => Ok(ContentModel::End),
        BlockType::Unknown(id) => Ok(ContentModel::Unknown { type_id: id, body: s }),
    }
}

/// Whether every string and body of a content has a length that fits a
/// `u64`, and an unknown content carries an id that no known type uses.
pub open spec fn spec_content_fits(c: ContentModel) -> bool {
    match c {
        ContentModel::Code(m) => spec_lang_canonical(m.lang) && encode_utf8(m.path).len() <= u64::MAX && m.content.len() <= u64::MAX,
        ContentModel::Conversation(m) => m.content.len() <= u64::MAX && (m.tool_call_id matches Some(t) ==> encode_utf8(t).len() <= u64::MAX),
        ContentModel::FileTree(m) => encode_utf8(m.root_path).len() <= u64::MAX && spec_entries_fit(m.entries),
        ContentModel::ToolResult(m) => encode_utf8(m.tool_name).len() <= u64::MAX && m.content.len() <= u64::MAX && (m.schema_hint matches Some(t) ==> encode_utf8(t).len() <= u64::MAX),
        ContentModel::Document(m) => encode_utf8(m.title).len() <= u64::MAX && m.content.len() <= u64::MAX,
        ContentModel::StructuredData(m) => m.content.len() <= u64::MAX && (m.schema matches Some(t) ==> encode_utf8(t).len() <= u64::MAX),
        ContentModel::Diff(m) => encode_utf8(m.path).len() <= u64::MAX && (forall|i: int| 0 <= i < m.hunks.len() ==> #[trigger] m.hunks[i].lines.len() <= u64::MAX) && (forall|i: int| 0 <= i < m.hunks.len() ==> #[trigger] spec_encode_hunk(m.hunks[i]).len() <= u64::MAX),
        ContentModel::Annotation(m) => m.value.len() <= u64::MAX,
        ContentModel::EmbeddingRef(m) => m.vector_id.len() <= u64::MAX && m.source_hash.len() <= u64::MAX && encode_utf8(m.model).len() <= u64::MAX,
        ContentModel::Image(m) => encode_utf8(m.alt_text).len() <= u64::MAX && m.data.len() <= u64::MAX,
        ContentModel::Extension(m) => encode_utf8(m.namespace).len() <= u64::MAX && encode_utf8(m.extension_type).len() <= u64::MAX && m.content.len() <= u64::MAX,
        ContentModel::End => true,
        ContentModel::Unknown { type_id, .. } => spec_block_type_id(BlockType::Unknown(type_id)) == type_id
            && crate::block_type::spec_block_type_from_id(type_id) == BlockType::Unknown(type_id),
    }
}

impl BlockContent {
    /// Serialize the content as a TLV body (the raw body for an unknown
    /// type, nothing for END).
    pub fn encode_body(&self) -> (r: Vec<u8>)
        ensures
            r@ == spec_encode_content(self@),
    {
        match self {
            BlockContent::Code(b) => b.encode_body(),
            BlockContent::Conversation(b) => b.encode_body(),
            BlockContent::FileTree(b) => b.encode_body(),
            BlockContent::ToolResult(b) => b.encode_body(),
            BlockContent::Document(b) => b.encode_body(),
            BlockContent::StructuredData(b) => b.encode_body(),
            BlockContent::Diff(b) => b.encode_body(),
            BlockContent::Annotation(b) => b.encode_body(),
            BlockContent::EmbeddingRef(b) => b.encode_body(),
            BlockContent::Image(b) => b.encode_body(),
            BlockContent::Extension(b) => b.encode_body(),
            BlockContent::End => Vec::new(),
            BlockContent::Unknown { body, .. } => body.clone(),
        }
    }

    /// Deserialize a body as the content of a block of type `block_type`.
    ///
    /// # Errors
    ///
    /// The error of the body codec of that type.
    pub fn decode_body(block_type: &BlockType, body: &[u8]) -> (r: Result<BlockContent, TypeError>)
        ensures
            r matches Ok(c) ==> spec_decode_content(*block_type, body@) == Ok::<ContentModel, TypeError>(c@),
            r matches Err(e) ==> spec_decode_content(*block_type, body@) == Err::<ContentModel, TypeError>(e),
    {
        match block_type {
            BlockType::Code => match CodeBlock::decode_body(body) {
                Ok(b) => Ok(BlockContent::Code(b)),
                Err(e) => Err(e),
            },
            BlockType::Conversation => match ConversationBlock::decode_body(body) {
                Ok(b) => Ok(BlockContent::Conversation(b)),
                Err(e) => Err(e),
            },
            BlockType::FileTree => match FileTreeBlock::decode_body(body) {
                Ok(b) => Ok(BlockContent::FileTree(b)),
                Err(e) => Err(e),
            },
            BlockType::ToolResult => match ToolResultBlock::decode_body(body) {
                Ok(b) => Ok(BlockContent::ToolResult(b)),
                Err(e) => Err(e),
            },
            BlockType::Document => match DocumentBlock::decode_body(body) {
                Ok(b) => Ok(BlockContent::Document(b)),
                Err(e) => Err(e),
            },
            BlockType::StructuredData => match StructuredDataBlock::decode_body(body) {
                Ok(b) => Ok(BlockContent::StructuredData(b)),
                Err(e) => Err(e),
            },
            BlockType::Diff => match DiffBlock::decode_body(body) {
                Ok(b) => Ok(BlockContent::Diff(b)),
                Err(e) => Err(e),
            },
            BlockType::Annotation => match AnnotationBlock::decode_body(body) {
                Ok(b) => Ok(BlockContent::Annotation(b)),
                Err(e) => Err(e),
            },
            BlockType::EmbeddingRef => match EmbeddingRefBlock::decode_body(body) {
                Ok(b) => Ok(BlockContent::EmbeddingRef(b)),
                Err(e) => Err(e),
            },
            BlockType::Image => match ImageBlock::decode_body(body) {
                Ok(b) => Ok(BlockContent::Image(b)),
                Err(e) => Err(e),
            },
            BlockType::Extension => match ExtensionBlock::decode_body(body) {
                Ok(b) => Ok(BlockContent::Extension(b)),
                Err(e) => Err(e),
            },
            BlockType::End => Ok(BlockContent::End),
            BlockType::Unknown(id) => Ok(BlockContent::Unknown { type_id: *id, body: vstd::slice::slice_to_vec(body) }),
        }
    }

    /// The block type this content belongs to.
    pub fn block_type(&self) -> (t: BlockType)
        ensures
            t == spec_content_type(self@),
    {
        match self {
            BlockContent::Code(_) => BlockType::Code,
            BlockContent::Conversation(_) => BlockType::Conversation,
            BlockContent::FileTree(_) => BlockType::FileTree,
            BlockContent::ToolResult(_) => BlockType::ToolResult,
            BlockContent::Document(_) => BlockType::Document,
            BlockContent::StructuredData(_) => BlockType::StructuredData,
            BlockContent::Diff(_) => BlockType::Diff,
            BlockContent::Annotation(_) => BlockType::Annotation,
            BlockContent::EmbeddingRef(_) => BlockType::EmbeddingRef,
            BlockContent::Image(_) => BlockType::Image,
            BlockContent::Extension(_) => BlockType::Extension,
            BlockContent::End => BlockType::End,
            BlockContent::Unknown { type_id, .. } => BlockType::Unknown(*type_id),
        }
    }
}

/// Decoding the body of a fitting content as its own type gives it back.
pub proof fn lemma_content_roundtrip(c: ContentModel)
    requires
        spec_content_fits(c),
    ensures
        spec_decode_content(spec_content_type(c), spec_encode_content(c)) == Ok::<ContentModel, TypeError>(c),
{
    match c {
        ContentModel::Code(m) => lemma_code_roundtrip(m),
        ContentModel::Conversation(m) => lemma_conversation_roundtrip(m),
        ContentModel::FileTree(m) => lemma_file_tree_roundtrip(m),
        ContentModel::ToolResult(m) => lemma_tool_result_roundtrip(m),
        ContentModel::Document(m) => lemma_document_roundtrip(m),
        ContentModel::StructuredData(m) => lemma_structured_data_roundtrip(m),
        ContentModel::Diff(m) => lemma_diff_roundtrip(m),
        ContentModel::Annotation(m) => lemma_annotation_roundtrip(m),
        ContentModel::EmbeddingRef(m) => lemma_embedding_ref_roundtrip(m),
        ContentModel::Image(m) => lemma_image_roundtrip(m),
        ContentModel::Extension(m) => lemma_extension_roundtrip(m),
        ContentModel::End => {},
        ContentModel::Unknown { .. } => {},
    }
}

/// A decoded block.
#[derive(Debug, PartialEq, Eq)]
pub struct Block {
    pub block_type: BlockType,
    pub flags: BlockFlags,
    pub summary: Option<Summary>,
    pub content: BlockContent,
}

/// The view of a [`Block`].
pub struct BlockModel {
    pub block_type: BlockType,
    pub flags: u8,
    pub summary: Option<Seq<char>>,
    pub content: ContentModel,
}

impl View for Block {
    type V = BlockModel;

    open spec fn view(&self) -> BlockModel {
        BlockModel {
            block_type: self.block_type,
            flags: self.flags.bits,
            summary: match self.summary {
                Some(s) => Some(s.text@),
                None => None,
            },
            content: self.content@,
        }
    }
}

} // verus!
