use bcp::block::BlockContent;
use bcp::block_frame::BlockFrame;
use bcp::block_type::{self, BlockType};
use bcp::blocks::{AnnotationBlock, CodeBlock, ConversationBlock, DiffHunk};
use bcp::compression::decompress;
use bcp::content_store::{ContentStore, MemoryContentStore};
use bcp::decoder::BcpDecoder;
use bcp::encoder::LcpEncoder;
use bcp::enums::{AnnotationKind, DataFormat, FileEntryKind, FormatHint, Lang, MediaType, Priority, Role, Status};
use bcp::error::EncodeError;
use bcp::file_tree::FileEntry;
use bcp::header::{BcpHeader, HEADER_SIZE, LCP_MAGIC};
use bcp::summary::Summary;

fn assert_starts_with_magic(payload: &[u8]) {
    assert!(payload.len() >= HEADER_SIZE, "payload too short for header");
    assert_eq!(&payload[..4], &LCP_MAGIC, "missing LCP magic");
}

fn assert_ends_with_end_sentinel(payload: &[u8]) {
    let tail = &payload[payload.len() - 4..];
    assert_eq!(tail, &[0xFF, 0x01, 0x00, 0x00], "missing END sentinel");
}

#[test]
fn encode_single_code_block_produces_valid_magic() {
    let payload = LcpEncoder::new().add_code(Lang::Rust, "src/main.rs", b"fn main() {}").encode().unwrap();
    assert_starts_with_magic(&payload);
}

#[test]
fn builder_methods_are_chainable() {
    let payload = LcpEncoder::new()
        .add_code(Lang::Rust, "src/lib.rs", b"pub fn hello() {}")
        .with_summary("Hello function.").unwrap()
        .add_conversation(Role::User, b"What does this do?")
        .encode()
        .unwrap();
    assert_starts_with_magic(&payload);
    assert_ends_with_end_sentinel(&payload);
}

#[test]
fn with_summary_sets_has_summary_flag() {
    let payload = LcpEncoder::new()
        .add_code(Lang::Python, "main.py", b"print('hi')")
        .with_summary("Prints a greeting.").unwrap()
        .encode()
        .unwrap();
    let frame_buf = &payload[HEADER_SIZE..];
    let (frame, _) = BlockFrame::read_from(frame_buf).unwrap().unwrap();
    assert!(frame.flags.has_summary(), "HAS_SUMMARY flag should be set on the code block");
}

#[test]
fn with_priority_appends_annotation_block() {
    let payload = LcpEncoder::new()
        .add_code(Lang::Rust, "lib.rs", b"// code")
        .with_priority(Priority::High)
        .encode()
        .unwrap();
    let mut cursor = HEADER_SIZE;
    let (frame0, n) = BlockFrame::read_from(&payload[cursor..]).unwrap().unwrap();
    assert_eq!(frame0.block_type, block_type::CODE);
    cursor += n;
    let (frame1, _) = BlockFrame::read_from(&payload[cursor..]).unwrap().unwrap();
    assert_eq!(frame1.block_type, block_type::ANNOTATION);
    let annotation = AnnotationBlock::decode_body(&frame1.body).unwrap();
    assert_eq!(annotation.target_block_id, 0);
    assert_eq!(annotation.kind, AnnotationKind::Priority);
    assert_eq!(annotation.value, vec![Priority::High.to_wire_byte()]);
}

#[test]
fn empty_encoder_returns_empty_payload_error() {
    let result = LcpEncoder::new().encode();
    assert!(matches!(result, Err(EncodeError::EmptyPayload)));
}

#[test]
fn payload_ends_with_end_sentinel() {
    let payload = LcpEncoder::new().add_conversation(Role::User, b"hello").encode().unwrap();
    assert_ends_with_end_sentinel(&payload);
}

#[test]
fn all_eleven_block_types_encode_without_error() {
    let payload = LcpEncoder::new()
        .add_code(Lang::Rust, "main.rs", b"fn main() {}")
        .add_conversation(Role::User, b"hello")
        .add_file_tree(
            "/project",
            vec![FileEntry { name: "lib.rs".to_string(), kind: FileEntryKind::File, size: 100, children: vec![] }],
        )
        .add_tool_result("rg", Status::Success, b"found 3 matches")
        .add_document("README", b"# Title", FormatHint::Markdown)
        .add_structured_data(DataFormat::Json, b"{\"key\": \"value\"}")
        .add_diff("src/lib.rs", vec![DiffHunk { old_start: 1, new_start: 1, lines: b"+new line\n".to_vec() }])
        .add_annotation(0, AnnotationKind::Tag, b"important")
        .add_image(MediaType::Png, "screenshot", b"\x89PNG\r\n")
        .add_extension("myco", "custom_block", b"custom data")
        .encode()
        .unwrap();
    assert_starts_with_magic(&payload);
    assert_ends_with_end_sentinel(&payload);
    let mut cursor = HEADER_SIZE;
    let mut block_count = 0;
    while let Some((_, n)) = BlockFrame::read_from(&payload[cursor..]).unwrap() {
        cursor += n;
        block_count += 1;
    }
    assert_eq!(block_count, 10, "expected 10 content blocks");
}

#[test]
fn payload_byte_length_matches_calculation() {
    let mut enc = LcpEncoder::new();
    enc.add_code(Lang::Rust, "x.rs", b"let x = 1;");
    enc.add_conversation(Role::User, b"hi");
    let payload = enc.encode().unwrap();
    let mut expected = HEADER_SIZE;
    let mut cursor = HEADER_SIZE;
    loop {
        let remaining = &payload[cursor..];
        let start = cursor;
        match BlockFrame::read_from(remaining).unwrap() {
            Some((_, n)) => {
                cursor += n;
                expected += n;
            }
            None => {
                let end_bytes = payload.len() - start;
                expected += end_bytes;
                break;
            }
        }
    }
    assert_eq!(payload.len(), expected, "payload length should match header + frames + END");
}

#[test]
fn optional_fields_omitted_when_none() {
    let payload = LcpEncoder::new().add_code(Lang::Rust, "x.rs", b"code").encode().unwrap();
    let (frame, _) = BlockFrame::read_from(&payload[HEADER_SIZE..]).unwrap().unwrap();
    let code = CodeBlock::decode_body(&frame.body).unwrap();
    assert!(code.line_range.is_none());

    let payload = LcpEncoder::new().add_conversation(Role::User, b"msg").encode().unwrap();
    let (frame, _) = BlockFrame::read_from(&payload[HEADER_SIZE..]).unwrap().unwrap();
    let conv = ConversationBlock::decode_body(&frame.body).unwrap();
    assert!(conv.tool_call_id.is_none());
}

#[test]
fn code_range_includes_line_numbers() {
    let payload =
        LcpEncoder::new().add_code_range(Lang::Rust, "src/lib.rs", b"fn foo() {}", 10, 20).encode().unwrap();
    let (frame, _) = BlockFrame::read_from(&payload[HEADER_SIZE..]).unwrap().unwrap();
    let code = CodeBlock::decode_body(&frame.body).unwrap();
    assert_eq!(code.line_range, Some((10, 20)));
}

#[test]
fn conversation_tool_includes_tool_call_id() {
    let payload = LcpEncoder::new().add_conversation_tool(Role::Tool, b"result", "call_123").encode().unwrap();
    let (frame, _) = BlockFrame::read_from(&payload[HEADER_SIZE..]).unwrap().unwrap();
    let conv = ConversationBlock::decode_body(&frame.body).unwrap();
    assert_eq!(conv.tool_call_id.as_deref(), Some("call_123"));
}

#[test]
fn summary_is_decodable_from_block_body() {
    let payload = LcpEncoder::new()
        .add_code(Lang::Rust, "main.rs", b"fn main() {}")
        .with_summary("Entry point for the application.").unwrap()
        .encode()
        .unwrap();
    let (frame, _) = BlockFrame::read_from(&payload[HEADER_SIZE..]).unwrap().unwrap();
    assert!(frame.flags.has_summary());
    let (summary, consumed) = Summary::decode(&frame.body).unwrap();
    assert_eq!(summary.text, "Entry point for the application.");
    let code = CodeBlock::decode_body(&frame.body[consumed..]).unwrap();
    assert_eq!(code.path, "main.rs");
    assert_eq!(code.content, b"fn main() {}");
}

#[test]
fn rfc_example_encodes_successfully() {
    let payload = LcpEncoder::new()
        .add_code(Lang::Rust, "src/main.rs", b"fn main() { todo!() }")
        .with_summary("Entry point: CLI setup and server startup.").unwrap()
        .with_priority(Priority::High)
        .add_conversation(Role::User, b"Fix the timeout bug.")
        .add_conversation(Role::Assistant, b"I'll examine the pool config...")
        .add_tool_result("ripgrep", Status::Success, b"3 matches found.")
        .encode()
        .unwrap();
    assert_starts_with_magic(&payload);
    assert_ends_with_end_sentinel(&payload);
    let mut cursor = HEADER_SIZE;
    let mut types = Vec::new();
    while let Some((frame, n)) = BlockFrame::read_from(&payload[cursor..]).unwrap() {
        types.push(frame.block_type);
        cursor += n;
    }
    assert_eq!(
        types,
        vec![
            block_type::CODE,
            block_type::ANNOTATION,
            block_type::CONVERSATION,
            block_type::CONVERSATION,
            block_type::TOOL_RESULT,
        ]
    );
}

#[test]
fn default_impl_matches_new() {
    let from_new = LcpEncoder::new().encode();
    let from_default = LcpEncoder::default().encode();
    assert!(matches!(from_new, Err(EncodeError::EmptyPayload)));
    assert!(matches!(from_default, Err(EncodeError::EmptyPayload)));
}

#[test]
fn per_block_compression_sets_compressed_flag() {
    let big_content = "fn main() { println!(\"hello world\"); }\n".repeat(50);
    let payload = LcpEncoder::new()
        .add_code(Lang::Rust, "main.rs", big_content.as_bytes())
        .with_compression()
        .encode()
        .unwrap();
    let (frame, _) = BlockFrame::read_from(&payload[HEADER_SIZE..]).unwrap().unwrap();
    assert!(frame.flags.is_compressed(), "COMPRESSED flag should be set on a large compressible block");
    assert!(frame.body.len() < big_content.len(), "compressed body should be smaller than original");
}

#[test]
fn small_block_not_compressed_even_when_requested() {
    let payload = LcpEncoder::new().add_code(Lang::Rust, "x.rs", b"let x = 1;").with_compression().encode().unwrap();
    let (frame, _) = BlockFrame::read_from(&payload[HEADER_SIZE..]).unwrap().unwrap();
    assert!(!frame.flags.is_compressed(), "small blocks should not be compressed (below threshold)");
}

#[test]
fn compress_blocks_applies_to_all() {
    let big_content = "use std::io;\n".repeat(100);
    let payload = LcpEncoder::new()
        .add_code(Lang::Rust, "a.rs", big_content.as_bytes())
        .add_code(Lang::Rust, "b.rs", big_content.as_bytes())
        .compress_blocks()
        .encode()
        .unwrap();
    let mut cursor = HEADER_SIZE;
    for _ in 0..2 {
        let (frame, n) = BlockFrame::read_from(&payload[cursor..]).unwrap().unwrap();
        assert!(frame.flags.is_compressed(), "all blocks should be compressed with compress_blocks()");
        cursor += n;
    }
}

#[test]
fn whole_payload_compression_sets_header_flag() {
    let big_content = "pub fn hello() -> &'static str { \"world\" }\n".repeat(100);
    let payload =
        LcpEncoder::new().add_code(Lang::Rust, "main.rs", big_content.as_bytes()).compress_payload().encode().unwrap();
    let header = BcpHeader::read_from(&payload[..HEADER_SIZE]).unwrap();
    assert!(header.flags.is_compressed(), "header COMPRESSED flag should be set for whole-payload compression");
}

#[test]
fn whole_payload_skips_per_block_compression() {
    let big_content = "pub fn hello() -> &'static str { \"world\" }\n".repeat(100);
    let payload = LcpEncoder::new()
        .add_code(Lang::Rust, "main.rs", big_content.as_bytes())
        .with_compression()
        .compress_payload()
        .encode()
        .unwrap();
    let header = BcpHeader::read_from(&payload[..HEADER_SIZE]).unwrap();
    assert!(header.flags.is_compressed());
    let decompressed = decompress(&payload[HEADER_SIZE..], 16 * 1024 * 1024).unwrap();
    let (frame, _) = BlockFrame::read_from(&decompressed).unwrap().unwrap();
    assert!(!frame.flags.is_compressed(), "per-block COMPRESSED flag should not be set when whole-payload is active");
}

#[test]
fn whole_payload_no_savings_stays_uncompressed() {
    let payload = LcpEncoder::new().add_code(Lang::Rust, "x.rs", b"x").compress_payload().encode().unwrap();
    let header = BcpHeader::read_from(&payload[..HEADER_SIZE]).unwrap();
    assert!(
        !header.flags.is_compressed(),
        "header COMPRESSED flag should NOT be set when compression yields no savings"
    );
}

#[test]
fn content_addressing_sets_reference_flag() {
    let mut enc = LcpEncoder::new();
    enc.set_content_store(MemoryContentStore::new())
        .add_code(Lang::Rust, "main.rs", b"fn main() {}")
        .with_content_addressing();
    let payload = enc.encode().unwrap();
    let (frame, _) = BlockFrame::read_from(&payload[HEADER_SIZE..]).unwrap().unwrap();
    assert!(frame.flags.is_reference(), "IS_REFERENCE flag should be set on content-addressed block");
    assert_eq!(frame.body.len(), 32, "reference block body should be exactly 32 bytes (BLAKE3 hash)");
    let hash: [u8; 32] = frame.body.try_into().unwrap();
    assert!(enc.content_store().unwrap().contains(&hash));
}

#[test]
fn content_addressing_without_store_errors() {
    let result = LcpEncoder::new().add_code(Lang::Rust, "main.rs", b"fn main() {}").with_content_addressing().encode();
    assert!(
        matches!(result, Err(EncodeError::MissingContentStore)),
        "should error when content addressing is requested without a store"
    );
}

#[test]
fn auto_dedup_detects_duplicate_blocks() {
    let content = b"fn main() {}";
    let payload = LcpEncoder::new()
        .set_content_store(MemoryContentStore::new())
        .auto_dedup()
        .add_code(Lang::Rust, "main.rs", content)
        .add_code(Lang::Rust, "main.rs", content)
        .encode()
        .unwrap();
    let mut cursor = HEADER_SIZE;
    let (frame0, n) = BlockFrame::read_from(&payload[cursor..]).unwrap().unwrap();
    assert!(!frame0.flags.is_reference(), "first occurrence should be stored inline");
    cursor += n;
    let (frame1, _) = BlockFrame::read_from(&payload[cursor..]).unwrap().unwrap();
    assert!(frame1.flags.is_reference(), "duplicate should become a hash reference");
    assert_eq!(frame1.body.len(), 32);
}

#[test]
fn auto_dedup_without_store_errors() {
    let result = LcpEncoder::new().auto_dedup().add_code(Lang::Rust, "x.rs", b"code").encode();
    assert!(matches!(result, Err(EncodeError::MissingContentStore)));
}

#[test]
fn reference_block_not_per_block_compressed() {
    let big_content = "fn main() { println!(\"hello\"); }\n".repeat(50);
    let payload = LcpEncoder::new()
        .set_content_store(MemoryContentStore::new())
        .add_code(Lang::Rust, "main.rs", big_content.as_bytes())
        .with_content_addressing()
        .with_compression()
        .encode()
        .unwrap();
    let (frame, _) = BlockFrame::read_from(&payload[HEADER_SIZE..]).unwrap().unwrap();
    assert!(frame.flags.is_reference());
    assert!(!frame.flags.is_compressed(), "reference blocks should not be per-block compressed");
}

#[test]
fn content_addressing_with_whole_payload_compression() {
    let content = "fn main() { println!(\"hello\"); }\n".repeat(50);
    let mut enc = LcpEncoder::new();
    enc.set_content_store(MemoryContentStore::new())
        .compress_payload()
        .add_code(Lang::Rust, "main.rs", content.as_bytes())
        .with_content_addressing()
        .add_code(Lang::Rust, "main.rs", content.as_bytes())
        .with_content_addressing();
    let payload = enc.encode().unwrap();
    let header = BcpHeader::read_from(&payload[..HEADER_SIZE]).unwrap();
    if header.flags.is_compressed() {
        let decompressed = decompress(&payload[HEADER_SIZE..], 16 * 1024 * 1024).unwrap();
        let (frame, _) = BlockFrame::read_from(&decompressed).unwrap().unwrap();
        assert!(frame.flags.is_reference());
        assert_eq!(frame.body.len(), 32);
    }
    assert_eq!(enc.content_store().unwrap().len(), 1, "identical blocks should produce one store entry");
}

#[test]
fn compression_ratio_benchmark() {
    let rust_code = r#"use std::collections::HashMap;
use std::sync::Arc;

pub struct Config {
    pub name: String,
    pub values: HashMap<String, String>,
    pub timeout: u64,
}

impl Config {
    pub fn new(name: &str) -> Self {
        Self {
            name: name.to_string(),
            values: HashMap::new(),
            timeout: 30,
        }
    }

    pub fn set(&mut self, key: &str, value: &str) {
        self.values.insert(key.to_string(), value.to_string());
    }

    pub fn get(&self, key: &str) -> Option<&String> {
        self.values.get(key)
    }

    pub fn timeout(&self) -> u64 {
        self.timeout
    }
}

impl Default for Config {
    fn default() -> Self {
        Self::new("default")
    }
}

#[cfg(test)]
mod tests {
    use super::*;

    #[test]
    fn test_new_config() {
        let config = Config::new("test");
        assert_eq!(config.name, "test");
        assert!(config.values.is_empty());
        assert_eq!(config.timeout(), 30);
    }

    #[test]
    fn test_set_and_get() {
        let mut config = Config::new("test");
        config.set("key", "value");
        assert_eq!(config.get("key"), Some(&"value".to_string()));
    }
}
"#;
    let uncompressed_payload = LcpEncoder::new().add_code(Lang::Rust, "config.rs", rust_code.as_bytes()).encode().unwrap();
    let compressed_payload = LcpEncoder::new()
        .add_code(Lang::Rust, "config.rs", rust_code.as_bytes())
        .with_compression()
        .encode()
        .unwrap();
    let savings_pct = 100.0 * (1.0 - compressed_payload.len() as f64 / uncompressed_payload.len() as f64);
    assert!(savings_pct >= 20.0, "expected >= 20% compression savings on a 50-line Rust file, got {savings_pct:.1}%");
}

#[test]
fn whole_payload_wins_over_per_block() {
    let big_content = "pub fn process() -> Result<(), Error> { Ok(()) }\n".repeat(50);
    let payload = LcpEncoder::new()
        .add_code(Lang::Rust, "a.rs", big_content.as_bytes())
        .with_compression()
        .add_code(Lang::Rust, "b.rs", big_content.as_bytes())
        .with_compression()
        .compress_payload()
        .encode()
        .unwrap();
    let header = BcpHeader::read_from(&payload[..HEADER_SIZE]).unwrap();
    assert!(header.flags.is_compressed(), "header should have COMPRESSED flag");
    let decompressed = decompress(&payload[HEADER_SIZE..], 16 * 1024 * 1024).unwrap();
    let mut cursor = 0;
    while let Some((frame, n)) = BlockFrame::read_from(&decompressed[cursor..]).unwrap() {
        assert!(
            !frame.flags.is_compressed(),
            "individual blocks should NOT be compressed when whole-payload is active"
        );
        cursor += n;
    }
}

#[test]
fn full_pipeline_encode_decode_roundtrip() {
    let big_code = "fn compute() -> i64 { 42 }\n".repeat(50);
    let mut enc = LcpEncoder::new();
    enc.set_content_store(MemoryContentStore::new())
        .auto_dedup()
        .add_code(Lang::Rust, "lib.rs", big_code.as_bytes())
        .with_summary("Core computation module.").unwrap()
        .with_compression()
        .add_code(Lang::Rust, "lib.rs", big_code.as_bytes())
        .add_conversation(Role::User, b"Review this code")
        .add_tool_result("clippy", Status::Success, b"No warnings");
    let payload = enc.encode().unwrap();
    let decoded = BcpDecoder::decode_with_store(&payload, enc.content_store().unwrap()).unwrap();
    assert_eq!(decoded.blocks.len(), 4);
    assert_eq!(decoded.blocks[0].block_type, BlockType::Code);
    assert_eq!(decoded.blocks[0].summary.as_ref().unwrap().text, "Core computation module.");
    assert_eq!(decoded.blocks[1].block_type, BlockType::Code);
    assert_eq!(decoded.blocks[2].block_type, BlockType::Conversation);
    assert_eq!(decoded.blocks[3].block_type, BlockType::ToolResult);
    for block in &decoded.blocks[..2] {
        match &block.content {
            BlockContent::Code(code) => {
                assert_eq!(code.content, big_code.as_bytes());
            }
            other => panic!("expected Code, got {other:?}"),
        }
    }
}

#[test]
fn with_summary_without_a_block_is_an_error() {
    let mut enc = LcpEncoder::new();
    assert!(matches!(enc.with_summary("Nothing to describe."), Err(EncodeError::InvalidSummaryTarget)));
    assert!(matches!(enc.encode(), Err(EncodeError::EmptyPayload)));
    let payload = enc.add_code(Lang::Rust, "a.rs", b"fn a() {}").encode().unwrap();
    let decoded = BcpDecoder::decode(&payload).unwrap();
    assert_eq!(decoded.blocks.len(), 1);
    assert!(decoded.blocks[0].summary.is_none());
}
