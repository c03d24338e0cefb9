use bcp::block::{Block, BlockContent};
use bcp::block_frame::{BlockFlags, BlockFrame};
use bcp::block_type::BlockType;
use bcp::blocks::DiffHunk;
use bcp::config::{DriverConfig, OutputMode};
use bcp::decoder::BcpDecoder;
use bcp::driver::{BcpDriver, DefaultDriver};
use bcp::encoder::LcpEncoder;
use bcp::enums::{AnnotationKind, DataFormat, FileEntryKind, FormatHint, Lang, MediaType, Priority, Role, Status};
use bcp::error::{DecodeError, EncodeError};
use bcp::file_tree::FileEntry;
use bcp::header::{BcpHeader, HeaderFlags, HEADER_SIZE};

// ── Budget through the whole pipeline ─────────────────────────────────────

#[test]
fn budget_critical_always_included() {
    let payload = LcpEncoder::new()
        .add_code(Lang::Rust, "critical.rs", b"fn critical() { /* CRITICAL_MARKER_XYZ */ }")
        .with_priority(Priority::Critical)
        .add_code(Lang::Rust, "normal.rs", b"fn normal() { /* normal */ }")
        .with_priority(Priority::Normal)
        .add_code(Lang::Rust, "low.rs", b"fn low_priority() { /* low */ }")
        .with_priority(Priority::Low)
        .encode()
        .unwrap();
    let decoded = BcpDecoder::decode(&payload).unwrap();
    let config = DriverConfig { mode: OutputMode::Xml, token_budget: Some(10), ..Default::default() };
    let output = DefaultDriver.render(&decoded.blocks, &config).unwrap();
    assert!(
        output.contains("CRITICAL_MARKER_XYZ"),
        "CRITICAL block content must appear in output even under extreme budget; output:\n{output}"
    );
    let normal_present = output.contains("fn normal()");
    let low_present = output.contains("fn low_priority()");
    assert!(!(normal_present && low_present), "budget of 10 should not allow all three blocks to render in full");
}

#[test]
fn budget_background_omitted_first() {
    let payload = LcpEncoder::new()
        .add_code(Lang::Rust, "normal.rs", b"fn normal_work() { /* NORMAL_MARKER */ }")
        .with_priority(Priority::Normal)
        .add_code(Lang::Rust, "low.rs", b"fn low_work() { /* LOW_MARKER_ABC */ }")
        .with_priority(Priority::Low)
        .add_code(Lang::Rust, "background.rs", b"fn background_work() { /* background_unique_marker */ }")
        .with_priority(Priority::Background)
        .encode()
        .unwrap();
    let decoded = BcpDecoder::decode(&payload).unwrap();
    let config = DriverConfig { mode: OutputMode::Xml, token_budget: Some(22), ..Default::default() };
    let output = DefaultDriver.render(&decoded.blocks, &config).unwrap();
    assert!(output.contains("NORMAL_MARKER"), "NORMAL block must appear when budget allows; output:\n{output}");
    assert!(
        !output.contains("background_unique_marker"),
        "BACKGROUND block full content must not appear under budget pressure; output:\n{output}"
    );
}

#[test]
fn budget_no_budget_renders_all() {
    let payload = LcpEncoder::new()
        .add_code(Lang::Rust, "critical.rs", b"fn critical() {}")
        .with_priority(Priority::Critical)
        .add_code(Lang::Rust, "high.rs", b"fn high() {}")
        .with_priority(Priority::High)
        .add_code(Lang::Rust, "normal.rs", b"fn normal() {}")
        .with_priority(Priority::Normal)
        .add_code(Lang::Rust, "low.rs", b"fn low() {}")
        .with_priority(Priority::Low)
        .add_code(Lang::Rust, "background.rs", b"fn background() {}")
        .with_priority(Priority::Background)
        .encode()
        .unwrap();
    let decoded = BcpDecoder::decode(&payload).unwrap();
    let config = DriverConfig::default();
    let output = DefaultDriver.render(&decoded.blocks, &config).unwrap();
    for path in &["critical.rs", "high.rs", "normal.rs", "low.rs", "background.rs"] {
        assert!(
            output.contains(path),
            "all block paths must appear when no budget is set; missing: {path}; output:\n{output}"
        );
    }
}

#[test]
fn budget_summary_used_under_pressure() {
    let long_content = b"// Long content that would consume many tokens. ".repeat(10);
    let payload = LcpEncoder::new()
        .add_code(Lang::Rust, "high.rs", &long_content)
        .with_summary("Short summary of high priority block.").unwrap()
        .with_priority(Priority::High)
        .encode()
        .unwrap();
    let decoded = BcpDecoder::decode(&payload).unwrap();
    let config = DriverConfig { mode: OutputMode::Xml, token_budget: Some(20), ..Default::default() };
    let output = DefaultDriver.render(&decoded.blocks, &config).unwrap();
    assert!(
        output.contains("Short summary") || output.contains("Long content"),
        "HIGH block must be represented (summary or full) even under budget pressure; output:\n{output}"
    );
}

#[test]
fn budget_type_filter_independent_of_budget() {
    let payload = LcpEncoder::new()
        .add_code(Lang::Rust, "rust_code.rs", b"fn rust_entry() { /* RUST_MARKER */ }")
        .add_conversation(Role::User, b"This conversation should be absent from filtered output.")
        .add_code(Lang::Python, "python_code.py", b"def python_entry(): pass  # PYTHON_MARKER")
        .encode()
        .unwrap();
    let decoded = BcpDecoder::decode(&payload).unwrap();
    let config = DriverConfig {
        mode: OutputMode::Minimal,
        include_types: Some(vec![BlockType::Code]),
        token_budget: Some(30),
        ..Default::default()
    };
    let output = DefaultDriver.render(&decoded.blocks, &config).unwrap();
    assert!(
        !output.contains("This conversation should be absent"),
        "Conversation block must not appear when include_types filters to Code only; output:\n{output}"
    );
    let has_rust = output.contains("RUST_MARKER");
    let has_python = output.contains("PYTHON_MARKER");
    assert!(has_rust || has_python, "at least one CODE block must appear in the filtered output; output:\n{output}");
}

#[test]
fn budget_priority_ordering_verified() {
    let body_critical = b"fn critical_path() { /* CRITCONTENT_AAA */ let x = 1 + 1; let y = x * 2; x }";
    let body_high = b"fn high_path() { /* HIGHCONTENT_BBB */ let x = 1 + 1; let y = x * 2; x + y }";
    let body_normal = b"fn normal_path() { /* NORMCONTENT_CCC */ let x = 1; let y = 2; x + y + 3 }";
    let body_low = b"fn low_path() { /* LOWCONTENT_DDD */ let x = 0; let y = 0; x + y + 0 + 0 }";
    let body_bg = b"fn background_path() { /* BGCONTENT_EEE */ let x = 0; let y = 0; x + y }";
    let payload = LcpEncoder::new()
        .add_code(Lang::Rust, "critical.rs", body_critical)
        .with_priority(Priority::Critical)
        .add_code(Lang::Rust, "high.rs", body_high)
        .with_priority(Priority::High)
        .add_code(Lang::Rust, "normal.rs", body_normal)
        .with_priority(Priority::Normal)
        .add_code(Lang::Rust, "low.rs", body_low)
        .with_priority(Priority::Low)
        .add_code(Lang::Rust, "background.rs", body_bg)
        .with_priority(Priority::Background)
        .encode()
        .unwrap();
    let decoded = BcpDecoder::decode(&payload).unwrap();
    let config = DriverConfig { mode: OutputMode::Minimal, token_budget: Some(110), ..Default::default() };
    let output = DefaultDriver.render(&decoded.blocks, &config).unwrap();
    assert!(output.contains("CRITCONTENT_AAA"), "CRITICAL block must appear in output; output:\n{output}");
    assert!(
        !output.contains("BGCONTENT_EEE"),
        "BACKGROUND block full content must not appear when budget is tight; output:\n{output}"
    );
}

// ── Edge cases ────────────────────────────────────────────────────────────

fn unknown_block_type_payload() -> Vec<u8> {
    let mut payload = vec![0u8; HEADER_SIZE];
    BcpHeader::new(HeaderFlags::none()).write_to(&mut payload).expect("write header");
    let unknown = BlockFrame { block_type: 0x42, flags: BlockFlags::none(), body: b"hello".to_vec() };
    unknown.write_to(&mut payload).expect("write unknown block");
    let end = BlockFrame { block_type: 0xFF, flags: BlockFlags::none(), body: Vec::new() };
    end.write_to(&mut payload).expect("write END sentinel");
    payload
}

#[test]
fn unknown_block_type_preserved() {
    let bytes = unknown_block_type_payload();
    let decoded = BcpDecoder::decode(&bytes).expect("decode should succeed for unknown block type");
    let has_unknown = decoded.blocks.iter().any(|b| matches!(b.content, BlockContent::Unknown { type_id: 0x42, .. }));
    assert!(
        has_unknown,
        "expected a BlockContent::Unknown with type_id=0x42, got: {:?}",
        decoded.blocks.iter().map(|b| &b.content).collect::<Vec<_>>()
    );
}

#[test]
fn unknown_block_type_reencodes_identical() {
    let bytes = unknown_block_type_payload();
    let decoded = BcpDecoder::decode(&bytes).expect("decode should succeed");
    assert_eq!(
        decoded.blocks[0].content,
        BlockContent::Unknown { type_id: 0x42, body: b"hello".to_vec() },
        "unknown block body must be preserved exactly as encoded"
    );
}

#[test]
fn empty_content_valid() {
    let payload =
        LcpEncoder::new().add_code(Lang::Rust, "empty.rs", b"").encode().expect("encoding an empty CODE block should succeed");
    let decoded = BcpDecoder::decode(&payload).expect("decoding an empty CODE block should succeed");
    assert_eq!(decoded.blocks.len(), 1);
    if let BlockContent::Code(code) = &decoded.blocks[0].content {
        assert!(code.content.is_empty(), "code content should be empty, got {} bytes", code.content.len());
    } else {
        panic!("expected Code block, got {:?}", decoded.blocks[0].content);
    }
}

#[test]
fn empty_content_golden() {
    let bytes = LcpEncoder::new().add_code(Lang::Rust, "empty.rs", b"").encode().expect("encode empty_content");
    let decoded = BcpDecoder::decode(&bytes).expect("golden empty_content payload should decode");
    assert_eq!(decoded.blocks.len(), 1, "expected exactly 1 block, got {}", decoded.blocks.len());
    if let BlockContent::Code(code) = &decoded.blocks[0].content {
        assert!(code.content.is_empty(), "code content should be empty, got {} bytes", code.content.len());
    } else {
        panic!("expected Code block, got {:?}", decoded.blocks[0].content);
    }
}

#[test]
fn large_varint_roundtrip() {
    let large_content = b"x".repeat(16 * 1024);
    let bytes = LcpEncoder::new().add_code(Lang::Rust, "large.rs", &large_content).encode().expect("encode large_varint");
    let decoded = BcpDecoder::decode(&bytes).expect("16 KiB payload should decode without error");
    assert_eq!(decoded.blocks.len(), 1, "expected exactly 1 block, got {}", decoded.blocks.len());
    if let BlockContent::Code(code) = &decoded.blocks[0].content {
        assert_eq!(code.content.len(), 16384, "decoded content length should be 16384 bytes (16 KiB), got {}", code.content.len());
        assert_eq!(code.content, vec![b'x'; 16384], "decoded content should be 16384 'x' bytes");
    } else {
        panic!("expected Code block, got {:?}", decoded.blocks[0].content);
    }
}

#[test]
fn trailing_data_warning() {
    let mut bytes = LcpEncoder::new().add_code(Lang::Rust, "t.rs", b"// trailing").encode().expect("encode base");
    bytes.extend_from_slice(&[0xDE, 0xAD, 0xBE, 0xEF]);
    let result = BcpDecoder::decode(&bytes);
    assert!(
        result.is_ok() || matches!(result, Err(DecodeError::TrailingData { extra_bytes: 4 })),
        "expected Ok or TrailingData(4 bytes), got an unexpected error variant"
    );
}

// ── Re-encoding decoded blocks gives the same bytes ───────────────────────

fn clone_entries(es: &[FileEntry]) -> Vec<FileEntry> {
    es.iter()
        .map(|e| FileEntry { name: e.name.clone(), kind: e.kind, size: e.size, children: clone_entries(&e.children) })
        .collect()
}

fn encode_from_blocks(blocks: &[Block]) -> Result<Vec<u8>, EncodeError> {
    let mut encoder = LcpEncoder::new();
    for block in blocks {
        match &block.content {
            BlockContent::Code(code) => match code.line_range {
                Some((start, end)) => {
                    encoder.add_code_range(code.lang, &code.path, &code.content, start, end);
                }
                None => {
                    encoder.add_code(code.lang, &code.path, &code.content);
                }
            },
            BlockContent::Conversation(conv) => match &conv.tool_call_id {
                Some(id) => {
                    encoder.add_conversation_tool(conv.role, &conv.content, id);
                }
                None => {
                    encoder.add_conversation(conv.role, &conv.content);
                }
            },
            BlockContent::FileTree(tree) => {
                encoder.add_file_tree(&tree.root_path, clone_entries(&tree.entries));
            }
            BlockContent::ToolResult(tool) => {
                encoder.add_tool_result(&tool.tool_name, tool.status, &tool.content);
            }
            BlockContent::Document(doc) => {
                encoder.add_document(&doc.title, &doc.content, doc.format_hint);
            }
            BlockContent::StructuredData(sd) => {
                encoder.add_structured_data(sd.format, &sd.content);
            }
            BlockContent::Diff(diff) => {
                encoder.add_diff(&diff.path, diff.hunks.clone());
            }
            BlockContent::Annotation(ann) => {
                encoder.add_annotation(ann.target_block_id, ann.kind, &ann.value);
            }
            BlockContent::Image(img) => {
                encoder.add_image(img.media_type, &img.alt_text, &img.data);
            }
            BlockContent::Extension(ext) => {
                encoder.add_extension(&ext.namespace, &ext.extension_type, &ext.content);
            }
            BlockContent::EmbeddingRef(emb) => {
                encoder.add_embedding_ref(&emb.vector_id, &emb.source_hash, &emb.model);
            }
            BlockContent::End | BlockContent::Unknown { .. } => continue,
        }
        if let Some(summary) = &block.summary {
            encoder.with_summary(&summary.text).unwrap();
        }
    }
    encoder.encode()
}

fn assert_reencodes(original: Vec<u8>) {
    let decoded = BcpDecoder::decode(&original).unwrap();
    let re_encoded = encode_from_blocks(&decoded.blocks).unwrap();
    assert_eq!(re_encoded, original);
}

#[test]
fn roundtrip_code_block() {
    assert_reencodes(
        LcpEncoder::new().add_code(Lang::Rust, "src/main.rs", b"fn main() { println!(\"hello\"); }").encode().unwrap(),
    );
}

#[test]
fn roundtrip_code_range() {
    assert_reencodes(
        LcpEncoder::new().add_code_range(Lang::Rust, "src/lib.rs", b"pub fn handler() {}", 10, 20).encode().unwrap(),
    );
}

#[test]
fn roundtrip_conversation() {
    assert_reencodes(
        LcpEncoder::new()
            .add_conversation(Role::User, b"What does this function do?")
            .add_conversation(Role::Assistant, b"It initializes the connection pool with default settings.")
            .encode()
            .unwrap(),
    );
}

#[test]
fn roundtrip_conversation_tool() {
    assert_reencodes(
        LcpEncoder::new().add_conversation_tool(Role::Tool, b"3 matches found in src/", "call_abc123").encode().unwrap(),
    );
}

#[test]
fn roundtrip_file_tree() {
    let entries = vec![
        FileEntry { name: "main.rs".to_string(), kind: FileEntryKind::File, size: 512, children: vec![] },
        FileEntry {
            name: "lib".to_string(),
            kind: FileEntryKind::Directory,
            size: 0,
            children: vec![FileEntry { name: "utils.rs".to_string(), kind: FileEntryKind::File, size: 128, children: vec![] }],
        },
    ];
    assert_reencodes(LcpEncoder::new().add_file_tree("/project/src", entries).encode().unwrap());
}

#[test]
fn roundtrip_tool_result() {
    assert_reencodes(
        LcpEncoder::new()
            .add_tool_result("cargo test", Status::Success, b"test result: ok. 5 passed; 0 failed")
            .encode()
            .unwrap(),
    );
}

#[test]
fn roundtrip_document() {
    assert_reencodes(
        LcpEncoder::new()
            .add_document(
                "Architecture Overview",
                b"# Architecture\n\nThis system uses a layered approach.",
                FormatHint::Markdown,
            )
            .encode()
            .unwrap(),
    );
}

#[test]
fn roundtrip_structured_data() {
    assert_reencodes(
        LcpEncoder::new().add_structured_data(DataFormat::Json, b"{\"name\":\"bcp\",\"version\":1}").encode().unwrap(),
    );
}

#[test]
fn roundtrip_diff() {
    let hunks = vec![DiffHunk { old_start: 5, new_start: 5, lines: b"-    old_value: u32,\n+    new_value: u64,\n".to_vec() }];
    assert_reencodes(LcpEncoder::new().add_diff("src/types.rs", hunks).encode().unwrap());
}

#[test]
fn roundtrip_annotation() {
    assert_reencodes(
        LcpEncoder::new()
            .add_code(Lang::Rust, "src/hot_path.rs", b"#[inline(always)] fn compute() -> u64 { 42 }")
            .add_annotation(0, AnnotationKind::Tag, b"hot-path")
            .encode()
            .unwrap(),
    );
}

#[test]
fn roundtrip_embedding_ref() {
    let vector_id = b"vec-embedding-001";
    let source_hash = vec![0xAB; 32];
    let model = "text-embedding-3-small";
    assert_reencodes(LcpEncoder::new().add_embedding_ref(vector_id, &source_hash, model).encode().unwrap());
}

#[test]
fn roundtrip_image() {
    let tiny_png: &[u8] = &[
        0x89, 0x50, 0x4E, 0x47, 0x0D, 0x0A, 0x1A, 0x0A, 0x00, 0x00, 0x00, 0x0D, 0x49, 0x48, 0x44, 0x52, 0x00, 0x00,
        0x00, 0x01, 0x00, 0x00, 0x00, 0x01, 0x08, 0x02, 0x00, 0x00, 0x00, 0x90, 0x77, 0x53, 0xDE, 0x00, 0x00, 0x00,
        0x0C, 0x49, 0x44, 0x41, 0x54, 0x08, 0xD7, 0x63, 0xF8, 0xCF, 0xC0, 0x00, 0x00, 0x00, 0x02, 0x00, 0x01, 0xE2,
        0x21, 0xBC, 0x33, 0x00, 0x00, 0x00, 0x00, 0x49, 0x45, 0x4E, 0x44, 0xAE, 0x42, 0x60, 0x82,
    ];
    assert_reencodes(LcpEncoder::new().add_image(MediaType::Png, "Application screenshot", tiny_png).encode().unwrap());
}

#[test]
fn roundtrip_extension() {
    assert_reencodes(
        LcpEncoder::new()
            .add_extension("com.example.tools", "lsp_diagnostic", b"{\"severity\":\"error\"}")
            .encode()
            .unwrap(),
    );
}

#[test]
fn roundtrip_block_with_summary() {
    assert_reencodes(
        LcpEncoder::new()
            .add_code(Lang::Rust, "src/pool.rs", b"pub struct ConnectionPool { max: usize }")
            .with_summary("Connection pool with configurable max connections.").unwrap()
            .add_conversation(Role::User, b"How does the pool handle overflow?")
            .encode()
            .unwrap(),
    );
}

fn semantic_contents(blocks: &[Block]) -> Vec<(&BlockContent, Option<&str>)> {
    blocks.iter().map(|b| (&b.content, b.summary.as_ref().map(|s| s.text.as_str()))).collect()
}

#[test]
fn roundtrip_compressed_blocks() {
    let long_content = "fn placeholder() -> u64 { 0 }\n".repeat(50);
    let compressed = LcpEncoder::new()
        .add_code(Lang::Rust, "src/generated.rs", long_content.as_bytes())
        .with_compression()
        .add_conversation(Role::User, b"Summarize this module.")
        .encode()
        .unwrap();
    let uncompressed = LcpEncoder::new()
        .add_code(Lang::Rust, "src/generated.rs", long_content.as_bytes())
        .add_conversation(Role::User, b"Summarize this module.")
        .encode()
        .unwrap();
    let compressed_decoded = BcpDecoder::decode(&compressed).unwrap();
    let uncompressed_decoded = BcpDecoder::decode(&uncompressed).unwrap();
    assert_eq!(semantic_contents(&compressed_decoded.blocks), semantic_contents(&uncompressed_decoded.blocks));
}

#[test]
fn roundtrip_compressed_payload() {
    let long_content = "pub use std::collections::HashMap;\n".repeat(50);
    let compressed = LcpEncoder::new()
        .add_code(Lang::Rust, "src/imports.rs", long_content.as_bytes())
        .add_document("Changelog", b"# Changelog\n\n## v1.0.0\nInitial release.", FormatHint::Markdown)
        .compress_payload()
        .encode()
        .unwrap();
    let uncompressed = LcpEncoder::new()
        .add_code(Lang::Rust, "src/imports.rs", long_content.as_bytes())
        .add_document("Changelog", b"# Changelog\n\n## v1.0.0\nInitial release.", FormatHint::Markdown)
        .encode()
        .unwrap();
    let compressed_decoded = BcpDecoder::decode(&compressed).unwrap();
    let uncompressed_decoded = BcpDecoder::decode(&uncompressed).unwrap();
    assert_eq!(semantic_contents(&compressed_decoded.blocks), semantic_contents(&uncompressed_decoded.blocks));
}
