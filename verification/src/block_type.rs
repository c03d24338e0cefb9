//! Block type identifiers: the wire ids and the typed [`BlockType`].
use vstd::prelude::*;

verus! {

pub const CODE: u8 = 0x01;
pub const CONVERSATION: u8 = 0x02;
pub const FILE_TREE: u8 = 0x03;
pub const TOOL_RESULT: u8 = 0x04;
pub const DOCUMENT: u8 = 0x05;
pub const STRUCTURED_DATA: u8 = 0x06;
pub const DIFF: u8 = 0x07;
pub const ANNOTATION: u8 = 0x08;
pub const EMBEDDING_REF: u8 = 0x09;
pub const IMAGE: u8 = 0x0A;
pub const EXTENSION: u8 = 0xFE;
pub const END: u8 = 0xFF;

/// The semantic type of a block. Ids that this library does not know are
/// kept as `Unknown` so that newer payloads still decode.
#[derive(Clone, Copy, Debug, PartialEq, Eq, Structural)]
pub enum BlockType {
    Code,
    Conversation,
    FileTree,
    ToolResult,
    Document,
    StructuredData,
    Diff,
    Annotation,
    EmbeddingRef,
    Image,
    Extension,
    End,
    Unknown(u8),
}

pub open spec fn spec_block_type_from_id(id: u8) -> BlockType {
    if id == CODE {
        BlockType::Code
    } else if id == CONVERSATION {
        BlockType::Conversation
    } else if id == FILE_TREE {
        BlockType::FileTree
    } else if id == TOOL_RESULT {
        BlockType::ToolResult
    } else if id == DOCUMENT {
        BlockType::Document
    } else if id == STRUCTURED_DATA {
        BlockType::StructuredData
    } else if id == DIFF {
        BlockType::Diff
    } else if id == ANNOTATION {
        BlockType::Annotation
    } else if id == EMBEDDING_REF {
        BlockType::EmbeddingRef
    } else if id == IMAGE {
        BlockType::Image
    } else if id == EXTENSION {
        BlockType::Extension
    } else if id == END {
        BlockType::End
    } else {
        BlockType::Unknown(id)
    }
}

pub open spec fn spec_block_type_id(t: BlockType) -> u8 {
    match t {
        BlockType::Code => CODE,
        BlockType::Conversation => CONVERSATION,
        BlockType::FileTree => FILE_TREE,
        BlockType::ToolResult => TOOL_RESULT,
        BlockType::Document => DOCUMENT,
        BlockType::StructuredData => STRUCTURED_DATA,
        BlockType::Diff => DIFF,
        BlockType::Annotation => ANNOTATION,
        BlockType::EmbeddingRef => EMBEDDING_REF,
        BlockType::Image => IMAGE,
        BlockType::Extension => EXTENSION,
        BlockType::End => END,
        BlockType::Unknown(id) => id,
    }
}

impl BlockType {
    /// The type named by a wire id.
    pub fn from_wire_id(id: u8) -> (t: BlockType)
        ensures
            t == spec_block_type_from_id(id),
    {
        if id == CODE {
            BlockType::Code
        } else if id == CONVERSATION {
            BlockType::Conversation
        } else if id == FILE_TREE {
            BlockType::FileTree
        } else if id == TOOL_RESULT {
            BlockType::ToolResult
        } else if id == DOCUMENT {
            BlockType::Document
        } else if id == STRUCTURED_DATA {
            BlockType::StructuredData
        } else if id == DIFF {
            BlockType::Diff
        } else if id == ANNOTATION {
            BlockType::Annotation
        } else if id == EMBEDDING_REF {
            BlockType::EmbeddingRef
        } else if id == IMAGE {
            BlockType::Image
        } else if id == EXTENSION {
            BlockType::Extension
        } else if id == END {
            BlockType::End
        } else {
            BlockType::Unknown(id)
        }
    }

    /// The wire id of this type.
    pub fn to_wire_id(&self) -> (id: u8)
        ensures
            id == spec_block_type_id(*self),
    {
        match self {
            BlockType::Code => CODE,
            BlockType::Conversation => CONVERSATION,
            BlockType::FileTree => FILE_TREE,
            BlockType::ToolResult => TOOL_RESULT,
            BlockType::Document => DOCUMENT,
            BlockType::StructuredData => STRUCTURED_DATA,
            BlockType::Diff => DIFF,
            BlockType::Annotation => ANNOTATION,
            BlockType::EmbeddingRef => EMBEDDING_REF,
            BlockType::Image => IMAGE,
            BlockType::Extension => EXTENSION,
            BlockType::End => END,
            BlockType::Unknown(id) => *id,
        }
    }
}

/// Every wire id names a type whose id is the same byte.
pub proof fn lemma_block_type_id_roundtrip(id: u8)
    ensures
        spec_block_type_id(spec_block_type_from_id(id)) == id,
{
}

} // verus!
