use bcp::block::{Block, BlockContent};
use bcp::block_frame::{BlockFlags, FLAG_HAS_SUMMARY};
use bcp::block_type::BlockType;
use bcp::blocks::{AnnotationBlock, CodeBlock, ConversationBlock, DiffHunk, ToolResultBlock};
use bcp::budget::{
    allocate_budget, block_description, compute_budget_decisions, BlockBudgetInfo, resolve_priorities, HeuristicEstimator, RenderDecision,
};
use bcp::config::{DriverConfig, OutputMode, Verbosity};
use bcp::decoder::BcpDecoder;
use bcp::driver::{BcpDriver, DefaultDriver};
use bcp::encoder::LcpEncoder;
use bcp::enums::{AnnotationKind, FileEntryKind, Lang, Priority, Role, Status};
use bcp::error::DriverError;
use bcp::file_tree::{FileEntry, FileTreeBlock};
use bcp::placeholder::render_placeholder;
use bcp::render_markdown::MarkdownRenderer;
use bcp::render_minimal::MinimalRenderer;
use bcp::render_xml::XmlRenderer;
use bcp::summary::Summary;

fn code_block(lang: Lang, path: &str, content: &[u8]) -> Block {
    Block {
        block_type: BlockType::Code,
        flags: BlockFlags::none(),
        summary: None,
        content: BlockContent::Code(CodeBlock {
            lang,
            path: path.to_string(),
            content: content.to_vec(),
            line_range: None,
        }),
    }
}

fn rust_block(path: &str, content: &[u8]) -> Block {
    code_block(Lang::Rust, path, content)
}

fn code_block_with_summary(path: &str, content: &[u8], summary: &str) -> Block {
    Block {
        block_type: BlockType::Code,
        flags: BlockFlags::from_raw(FLAG_HAS_SUMMARY),
        summary: Some(Summary { text: summary.to_string() }),
        content: BlockContent::Code(CodeBlock {
            lang: Lang::Rust,
            path: path.to_string(),
            content: content.to_vec(),
            line_range: None,
        }),
    }
}

fn conversation_block(role: Role, content: &[u8]) -> Block {
    Block {
        block_type: BlockType::Conversation,
        flags: BlockFlags::none(),
        summary: None,
        content: BlockContent::Conversation(ConversationBlock {
            role,
            content: content.to_vec(),
            tool_call_id: None,
        }),
    }
}

fn priority_annotation(target: u32, priority: Priority) -> Block {
    Block {
        block_type: BlockType::Annotation,
        flags: BlockFlags::none(),
        summary: None,
        content: BlockContent::Annotation(AnnotationBlock {
            target_block_id: target,
            kind: AnnotationKind::Priority,
            value: vec![priority.to_wire_byte()],
        }),
    }
}

fn tag_annotation(target: u32, tag: &str) -> Block {
    Block {
        block_type: BlockType::Annotation,
        flags: BlockFlags::none(),
        summary: None,
        content: BlockContent::Annotation(AnnotationBlock {
            target_block_id: target,
            kind: AnnotationKind::Tag,
            value: tag.as_bytes().to_vec(),
        }),
    }
}

fn not_annotations(blocks: &[Block]) -> Vec<&Block> {
    blocks.iter().filter(|b| b.block_type != BlockType::Annotation).collect()
}

// ── Priorities and budget ─────────────────────────────────────────────────

#[test]
fn resolve_priorities_empty() {
    let blocks: Vec<Block> = vec![];
    let map = resolve_priorities(&blocks);
    assert!(map.is_empty());
}

#[test]
fn resolve_priorities_single() {
    let blocks = vec![rust_block("main.rs", b"fn main() {}"), priority_annotation(0, Priority::Critical)];
    let map = resolve_priorities(&blocks);
    assert_eq!(map.get(&0), Some(&Priority::Critical));
}

#[test]
fn resolve_priorities_multiple_targets() {
    let blocks = vec![
        rust_block("a.rs", b"a"),
        rust_block("b.rs", b"b"),
        priority_annotation(0, Priority::High),
        priority_annotation(1, Priority::Low),
    ];
    let map = resolve_priorities(&blocks);
    assert_eq!(map.get(&0), Some(&Priority::High));
    assert_eq!(map.get(&1), Some(&Priority::Low));
}

#[test]
fn resolve_priorities_last_wins() {
    let blocks = vec![
        rust_block("main.rs", b"fn main() {}"),
        priority_annotation(0, Priority::Low),
        priority_annotation(0, Priority::Critical),
    ];
    let map = resolve_priorities(&blocks);
    assert_eq!(map.get(&0), Some(&Priority::Critical));
}

#[test]
fn resolve_priorities_ignores_non_priority() {
    let blocks = vec![rust_block("main.rs", b"fn main() {}"), tag_annotation(0, "security")];
    let map = resolve_priorities(&blocks);
    assert!(map.is_empty());
}

#[test]
fn allocate_budget_unlimited() {
    let blocks = vec![rust_block("a.rs", &"a".repeat(100).into_bytes()), rust_block("b.rs", &"b".repeat(100).into_bytes())];
    let filtered: Vec<&Block> = blocks.iter().collect();
    let original_indices = vec![0, 1];
    let decisions = compute_budget_decisions(&blocks, &filtered, &original_indices, 100_000, &HeuristicEstimator);
    assert_eq!(decisions.len(), 2);
    assert_eq!(decisions[0], RenderDecision::Full);
    assert_eq!(decisions[1], RenderDecision::Full);
}

#[test]
fn allocate_budget_critical_always_full() {
    let blocks = vec![rust_block("main.rs", &"x".repeat(400).into_bytes()), priority_annotation(0, Priority::Critical)];
    let filtered = not_annotations(&blocks);
    let original_indices = vec![0];
    let decisions = compute_budget_decisions(&blocks, &filtered, &original_indices, 0, &HeuristicEstimator);
    assert_eq!(decisions[0], RenderDecision::Full);
}

#[test]
fn allocate_budget_normal_degrades_to_summary() {
    let content = "x".repeat(400);
    let blocks = vec![code_block_with_summary("main.rs", content.as_bytes(), "Entry point.")];
    let filtered: Vec<&Block> = blocks.iter().collect();
    let original_indices = vec![0];
    let decisions = compute_budget_decisions(&blocks, &filtered, &original_indices, 10, &HeuristicEstimator);
    assert_eq!(decisions[0], RenderDecision::Summary);
}

#[test]
fn allocate_budget_low_gets_placeholder() {
    let content = "x".repeat(400);
    let blocks = vec![rust_block("main.rs", content.as_bytes()), priority_annotation(0, Priority::Low)];
    let filtered = not_annotations(&blocks);
    let original_indices = vec![0];
    let decisions = compute_budget_decisions(&blocks, &filtered, &original_indices, 5, &HeuristicEstimator);
    assert!(
        matches!(decisions[0], RenderDecision::Placeholder { .. }),
        "Low priority without summary should be Placeholder, got {:?}",
        decisions[0]
    );
}

#[test]
fn allocate_budget_background_omit() {
    let blocks = vec![rust_block("bg.rs", b"background stuff"), priority_annotation(0, Priority::Background)];
    let filtered = not_annotations(&blocks);
    let original_indices = vec![0];
    let decisions = compute_budget_decisions(&blocks, &filtered, &original_indices, 0, &HeuristicEstimator);
    assert_eq!(decisions[0], RenderDecision::Omit);
}

#[test]
fn allocate_budget_respects_priority_ordering() {
    let big_content = "x".repeat(400);
    let blocks = vec![
        code_block_with_summary("normal.rs", big_content.as_bytes(), "Normal summary."),
        rust_block("critical.rs", big_content.as_bytes()),
        priority_annotation(1, Priority::Critical),
    ];
    let filtered = not_annotations(&blocks);
    let original_indices = vec![0, 1];
    let decisions = compute_budget_decisions(&blocks, &filtered, &original_indices, 120, &HeuristicEstimator);
    assert_eq!(decisions[1], RenderDecision::Full, "Critical should be Full");
    assert_eq!(decisions[0], RenderDecision::Summary, "Normal should degrade to Summary");
}

#[test]
fn no_annotations_all_normal() {
    let content = "x".repeat(400);
    let blocks = vec![
        code_block_with_summary("a.rs", content.as_bytes(), "Summary A."),
        code_block_with_summary("b.rs", content.as_bytes(), "Summary B."),
    ];
    let filtered: Vec<&Block> = blocks.iter().collect();
    let original_indices = vec![0, 1];
    let decisions = compute_budget_decisions(&blocks, &filtered, &original_indices, 120, &HeuristicEstimator);
    assert_eq!(decisions[0], RenderDecision::Full);
    assert_eq!(decisions[1], RenderDecision::Summary);
}

#[test]
fn block_description_code() {
    let block = rust_block("src/main.rs", b"fn main() {}");
    assert_eq!(block_description(&block), "src/main.rs");
}

#[test]
fn block_description_conversation() {
    let block = conversation_block(Role::User, b"Hello");
    assert_eq!(block_description(&block), "user turn");
}

#[test]
fn zero_budget_all_critical() {
    let blocks = vec![
        rust_block("a.rs", &"a".repeat(400).into_bytes()),
        priority_annotation(0, Priority::Critical),
        rust_block("b.rs", &"b".repeat(400).into_bytes()),
        priority_annotation(2, Priority::Critical),
    ];
    let filtered = not_annotations(&blocks);
    let original_indices = vec![0, 2];
    let decisions = compute_budget_decisions(&blocks, &filtered, &original_indices, 0, &HeuristicEstimator);
    assert_eq!(decisions[0], RenderDecision::Full);
    assert_eq!(decisions[1], RenderDecision::Full);
}

#[test]
fn mixed_priorities_five_blocks() {
    let content = "x".repeat(400);
    let blocks = vec![
        rust_block("bg.rs", content.as_bytes()),
        priority_annotation(0, Priority::Background),
        rust_block("crit.rs", content.as_bytes()),
        priority_annotation(2, Priority::Critical),
        code_block_with_summary("normal.rs", content.as_bytes(), "Normal summary."),
        rust_block("low.rs", content.as_bytes()),
        priority_annotation(5, Priority::Low),
        code_block_with_summary("high.rs", content.as_bytes(), "High summary."),
        priority_annotation(7, Priority::High),
    ];
    let filtered = not_annotations(&blocks);
    let original_indices = vec![0, 2, 4, 5, 7];
    let decisions = compute_budget_decisions(&blocks, &filtered, &original_indices, 150, &HeuristicEstimator);
    assert_eq!(decisions[1], RenderDecision::Full, "Critical should be Full");
    assert!(
        matches!(decisions[4], RenderDecision::Full | RenderDecision::Summary),
        "High should be Full or Summary, got {:?}",
        decisions[4]
    );
    assert!(
        matches!(decisions[0], RenderDecision::Placeholder { .. } | RenderDecision::Omit),
        "Background should be Placeholder or Omit, got {:?}",
        decisions[0]
    );
}

#[test]
fn block_without_summary_at_normal_gets_placeholder() {
    let content = "x".repeat(400);
    let blocks = vec![rust_block("nosummary.rs", content.as_bytes())];
    let filtered: Vec<&Block> = blocks.iter().collect();
    let original_indices = vec![0];
    let decisions = compute_budget_decisions(&blocks, &filtered, &original_indices, 5, &HeuristicEstimator);
    assert!(
        matches!(decisions[0], RenderDecision::Placeholder { .. }),
        "Normal without summary should be Placeholder, got {:?}",
        decisions[0]
    );
}

#[test]
fn block_description_tool_result() {
    let block = Block {
        block_type: BlockType::ToolResult,
        flags: BlockFlags::none(),
        summary: None,
        content: BlockContent::ToolResult(ToolResultBlock {
            tool_name: "ripgrep".to_string(),
            status: Status::Success,
            content: b"results".to_vec(),
            schema_hint: None,
        }),
    };
    assert_eq!(block_description(&block), "ripgrep");
}

#[test]
fn placeholder_carries_the_omitted_estimate() {
    let content = "x".repeat(400);
    let blocks = vec![rust_block("main.rs", content.as_bytes()), priority_annotation(0, Priority::Low)];
    let filtered = not_annotations(&blocks);
    let decisions = compute_budget_decisions(&blocks, &filtered, &[0], 5, &HeuristicEstimator);
    assert_eq!(
        decisions[0],
        RenderDecision::Placeholder {
            block_type: BlockType::Code,
            description: "main.rs".to_string(),
            omitted_tokens: 100,
        }
    );
}

// ── Driver ────────────────────────────────────────────────────────────────

#[test]
fn empty_input_returns_error() {
    let driver = DefaultDriver;
    let config = DriverConfig::default();
    let result = driver.render(&[], &config);
    assert!(matches!(result, Err(DriverError::EmptyInput)));
}

#[test]
fn annotation_blocks_filtered_out() {
    let driver = DefaultDriver;
    let config = DriverConfig::default();
    let blocks = vec![Block {
        block_type: BlockType::Annotation,
        flags: BlockFlags::none(),
        summary: None,
        content: BlockContent::Annotation(AnnotationBlock {
            target_block_id: 0,
            kind: AnnotationKind::Priority,
            value: vec![0x01],
        }),
    }];
    let result = driver.render(&blocks, &config);
    assert!(matches!(result, Err(DriverError::EmptyInput)));
}

#[test]
fn include_types_filter() {
    let driver = DefaultDriver;
    let config = DriverConfig { mode: OutputMode::Minimal, include_types: Some(vec![BlockType::Code]), ..DriverConfig::default() };
    let blocks = vec![code_block(Lang::Rust, "main.rs", b"fn main() {}"), conversation_block(Role::User, b"Hello")];
    let result = driver.render(&blocks, &config).unwrap();
    assert!(result.contains("main.rs"));
    assert!(!result.contains("Hello"));
}

#[test]
fn include_types_filter_empty_result() {
    let driver = DefaultDriver;
    let config = DriverConfig { mode: OutputMode::Xml, include_types: Some(vec![BlockType::Diff]), ..DriverConfig::default() };
    let blocks = vec![code_block(Lang::Rust, "main.rs", b"fn main() {}")];
    let result = driver.render(&blocks, &config);
    assert!(matches!(result, Err(DriverError::EmptyInput)));
}

#[test]
fn xml_mode_wraps_in_context() {
    let driver = DefaultDriver;
    let config = DriverConfig { mode: OutputMode::Xml, ..DriverConfig::default() };
    let blocks = vec![code_block(Lang::Rust, "main.rs", b"fn main() {}")];
    let result = driver.render(&blocks, &config).unwrap();
    assert!(result.starts_with("<context>"));
    assert!(result.ends_with("</context>"));
}

#[test]
fn markdown_mode_no_context_wrapper() {
    let driver = DefaultDriver;
    let config = DriverConfig { mode: OutputMode::Markdown, ..DriverConfig::default() };
    let blocks = vec![code_block(Lang::Rust, "main.rs", b"fn main() {}")];
    let result = driver.render(&blocks, &config).unwrap();
    assert!(!result.contains("<context>"));
    assert!(result.contains("## main.rs"));
}

#[test]
fn minimal_mode_uses_dashes() {
    let driver = DefaultDriver;
    let config = DriverConfig { mode: OutputMode::Minimal, ..DriverConfig::default() };
    let blocks = vec![code_block(Lang::Rust, "main.rs", b"fn main() {}")];
    let result = driver.render(&blocks, &config).unwrap();
    assert!(result.contains("--- main.rs [rust] ---"));
}

#[test]
fn multiple_blocks_rendered() {
    let driver = DefaultDriver;
    let config = DriverConfig { mode: OutputMode::Xml, ..DriverConfig::default() };
    let blocks = vec![
        code_block(Lang::Rust, "src/main.rs", b"fn main() {}"),
        conversation_block(Role::User, b"Fix the bug."),
        conversation_block(Role::Assistant, b"Looking into it."),
    ];
    let result = driver.render(&blocks, &config).unwrap();
    assert!(result.contains("<code lang=\"rust\""));
    assert!(result.contains("<turn role=\"user\">Fix the bug.</turn>"));
    assert!(result.contains("<turn role=\"assistant\">Looking into it.</turn>"));
}

#[test]
fn file_tree_rendering_xml() {
    let driver = DefaultDriver;
    let config = DriverConfig { mode: OutputMode::Xml, ..DriverConfig::default() };
    let blocks = vec![Block {
        block_type: BlockType::FileTree,
        flags: BlockFlags::none(),
        summary: None,
        content: BlockContent::FileTree(FileTreeBlock {
            root_path: "src/".to_string(),
            entries: vec![
                FileEntry { name: "main.rs".to_string(), kind: FileEntryKind::File, size: 1024, children: vec![] },
                FileEntry {
                    name: "utils".to_string(),
                    kind: FileEntryKind::Directory,
                    size: 0,
                    children: vec![FileEntry {
                        name: "helpers.rs".to_string(),
                        kind: FileEntryKind::File,
                        size: 256,
                        children: vec![],
                    }],
                },
            ],
        }),
    }];
    let result = driver.render(&blocks, &config).unwrap();
    assert!(result.contains("<tree root=\"src/\">"));
    assert!(result.contains("main.rs (1024 bytes)"));
    assert!(result.contains("utils/"));
    assert!(result.contains("  helpers.rs (256 bytes)"));
}

#[test]
fn tool_result_rendering_all_modes() {
    let driver = DefaultDriver;
    let blocks = vec![Block {
        block_type: BlockType::ToolResult,
        flags: BlockFlags::none(),
        summary: None,
        content: BlockContent::ToolResult(ToolResultBlock {
            tool_name: "ripgrep".to_string(),
            status: Status::Success,
            content: b"3 matches found.".to_vec(),
            schema_hint: None,
        }),
    }];
    let xml = driver.render(&blocks, &DriverConfig { mode: OutputMode::Xml, ..DriverConfig::default() }).unwrap();
    assert!(xml.contains("<tool name=\"ripgrep\" status=\"ok\">"));
    let md = driver.render(&blocks, &DriverConfig { mode: OutputMode::Markdown, ..DriverConfig::default() }).unwrap();
    assert!(md.contains("### Tool: ripgrep (ok)"));
    let min = driver.render(&blocks, &DriverConfig { mode: OutputMode::Minimal, ..DriverConfig::default() }).unwrap();
    assert!(min.contains("--- ripgrep [ok] ---"));
}

fn summarized_main() -> Block {
    Block {
        block_type: BlockType::Code,
        flags: BlockFlags::none(),
        summary: Some(Summary { text: "Entry point with CLI parsing.".to_string() }),
        content: BlockContent::Code(CodeBlock {
            lang: Lang::Rust,
            path: "src/main.rs".to_string(),
            content: b"fn main() { /* very long implementation */ }".to_vec(),
            line_range: None,
        }),
    }
}

#[test]
fn summary_replaces_content_with_summary_verbosity() {
    let driver = DefaultDriver;
    let blocks = vec![summarized_main()];
    for mode in [OutputMode::Xml, OutputMode::Markdown, OutputMode::Minimal] {
        let config = DriverConfig { mode, verbosity: Verbosity::Summary, ..DriverConfig::default() };
        let result = driver.render(&blocks, &config).unwrap();
        assert!(result.contains("Entry point with CLI parsing."), "mode {mode:?} should contain summary");
        assert!(!result.contains("very long implementation"), "mode {mode:?} should not contain full content");
    }
}

#[test]
fn adaptive_without_budget_renders_full_content() {
    let driver = DefaultDriver;
    let blocks = vec![summarized_main()];
    let config = DriverConfig { mode: OutputMode::Xml, ..DriverConfig::default() };
    let result = driver.render(&blocks, &config).unwrap();
    assert!(result.contains("very long implementation"), "Adaptive without budget should render full content");
}

#[test]
fn end_blocks_filtered_out() {
    let driver = DefaultDriver;
    let config = DriverConfig::default();
    let blocks = vec![
        code_block(Lang::Rust, "main.rs", b"fn main() {}"),
        Block { block_type: BlockType::End, flags: BlockFlags::none(), summary: None, content: BlockContent::End },
    ];
    let result = driver.render(&blocks, &config).unwrap();
    assert!(result.contains("fn main()"));
}

#[test]
fn invalid_utf8_content_is_reported_with_its_index() {
    let driver = DefaultDriver;
    let config = DriverConfig { mode: OutputMode::Minimal, ..DriverConfig::default() };
    let blocks = vec![code_block(Lang::Rust, "ok.rs", b"fine"), code_block(Lang::Rust, "bad.rs", &[0xFF, 0xFE])];
    let result = driver.render(&blocks, &config);
    assert!(matches!(result, Err(DriverError::InvalidContent { block_index: 1 })));
}

// ── Placeholders ──────────────────────────────────────────────────────────

#[test]
fn placeholder_xml_format() {
    let result = render_placeholder(OutputMode::Xml, &BlockType::Code, "src/main.rs", 823);
    assert_eq!(result, "<omitted type=\"code\" desc=\"src/main.rs\" tokens=\"823\" />");
}

#[test]
fn placeholder_markdown_format() {
    let result = render_placeholder(OutputMode::Markdown, &BlockType::Code, "src/main.rs", 823);
    assert_eq!(result, "_[Omitted: code src/main.rs, ~823 tokens]_");
}

#[test]
fn placeholder_minimal_format() {
    let result = render_placeholder(OutputMode::Minimal, &BlockType::Code, "src/main.rs", 823);
    assert_eq!(result, "[omitted: code src/main.rs ~823tok]");
}

#[test]
fn placeholder_tool_result() {
    let result = render_placeholder(OutputMode::Xml, &BlockType::ToolResult, "ripgrep", 150);
    assert_eq!(result, "<omitted type=\"tool-result\" desc=\"ripgrep\" tokens=\"150\" />");
}

// ── Renderers ─────────────────────────────────────────────────────────────

#[test]
fn xml_code_block() {
    let block = rust_block("src/main.rs", b"fn main() {}");
    let result = XmlRenderer::render_all(&[&block]).unwrap();
    assert!(result.starts_with("<context>"));
    assert!(result.ends_with("</context>"));
    assert!(result.contains("<code lang=\"rust\" path=\"src/main.rs\">"));
    assert!(result.contains("fn main() {}"));
    assert!(result.contains("</code>"));
}

#[test]
fn xml_conversation_block() {
    let block = conversation_block(Role::User, b"Fix the bug.");
    let result = XmlRenderer::render_all(&[&block]).unwrap();
    assert!(result.contains("<turn role=\"user\">Fix the bug.</turn>"));
}

#[test]
fn xml_escapes_attributes() {
    let block = rust_block("path/with\"quotes.rs", b"code");
    let result = XmlRenderer::render_all(&[&block]).unwrap();
    assert!(result.contains("path/with&quot;quotes.rs"));
}

#[test]
fn xml_summary_rendering() {
    let mut block = rust_block("src/main.rs", b"fn main() { /* long content */ }");
    block.summary = Some(Summary { text: "Entry point: CLI args, config loading.".to_string() });
    let result = XmlRenderer::render_all(&[&block]).unwrap();
    assert!(result.contains("summary=\"true\""));
    assert!(result.contains("Entry point: CLI args, config loading."));
    assert!(!result.contains("long content"));
}

#[test]
fn xml_code_block_exact_text() {
    let block = rust_block("a.rs", b"x < y");
    let result = XmlRenderer::render_all(&[&block]).unwrap();
    assert_eq!(result, "<context>\n<code lang=\"rust\" path=\"a.rs\">\nx < y\n</code>\n</context>");
}

#[test]
fn markdown_code_block() {
    let block = rust_block("src/main.rs", b"fn main() {}");
    let result = MarkdownRenderer::render_all(&[&block]).unwrap();
    assert!(result.contains("## src/main.rs"));
    assert!(result.contains("```rust"));
    assert!(result.contains("fn main() {}"));
    assert!(result.contains("```"));
}

#[test]
fn markdown_conversation_block() {
    let block = conversation_block(Role::Assistant, b"I'll look into it.");
    let result = MarkdownRenderer::render_all(&[&block]).unwrap();
    assert!(result.contains("**Assistant**: I'll look into it."));
}

#[test]
fn markdown_summary_rendering() {
    let mut block = rust_block("src/main.rs", b"fn main() { /* long */ }");
    block.summary = Some(Summary { text: "Entry point.".to_string() });
    let result = MarkdownRenderer::render_all(&[&block]).unwrap();
    assert!(result.contains("(summary)"));
    assert!(result.contains("Entry point."));
    assert!(!result.contains("long"));
}

#[test]
fn minimal_code_block() {
    let block = rust_block("src/main.rs", b"fn main() {}");
    let result = MinimalRenderer::render_all(&[&block]).unwrap();
    assert!(result.contains("--- src/main.rs [rust] ---"));
    assert!(result.contains("fn main() {}"));
}

#[test]
fn minimal_conversation_block() {
    let block = conversation_block(Role::User, b"Fix the bug.");
    let result = MinimalRenderer::render_all(&[&block]).unwrap();
    assert!(result.contains("[user] Fix the bug."));
}

#[test]
fn minimal_summary_rendering() {
    let mut block = rust_block("src/main.rs", b"fn main() { /* long */ }");
    block.summary = Some(Summary { text: "Entry point.".to_string() });
    let result = MinimalRenderer::render_all(&[&block]).unwrap();
    assert!(result.contains("(summary)"));
    assert!(result.contains("Entry point."));
    assert!(!result.contains("long"));
}

// ── Full pipeline ─────────────────────────────────────────────────────────

#[test]
fn full_pipeline_encode_decode_render() {
    let payload = LcpEncoder::new()
        .add_code(Lang::Rust, "src/main.rs", b"fn main() {\n    println!(\"hello\");\n}")
        .with_summary("Entry point: prints hello.").unwrap()
        .add_tool_result("ripgrep", Status::Success, b"3 matches for 'Config' across 2 files.")
        .add_conversation(Role::User, b"Fix the connection timeout bug.")
        .add_conversation(Role::Assistant, b"I'll examine the pool config.")
        .encode()
        .expect("encoding should succeed");
    let decoded = BcpDecoder::decode(&payload).expect("decoding should succeed");
    let driver = DefaultDriver;

    // Summaries are shown under summary verbosity; adaptive verbosity
    // without a budget (the default) shows every block in full, as
    // `adaptive_without_budget_renders_full_content` checks.
    let xml_config = DriverConfig {
        mode: OutputMode::Xml,
        target_model: None,
        include_types: None,
        verbosity: Verbosity::Summary,
        token_budget: None,
    };
    let xml = driver.render(&decoded.blocks, &xml_config).expect("XML render should succeed");
    assert!(xml.starts_with("<context>"), "XML must start with <context>");
    assert!(xml.ends_with("</context>"), "XML must end with </context>");
    assert!(xml.contains("summary=\"true\""), "summary attr present");
    assert!(xml.contains("Entry point: prints hello."), "summary text present");
    assert!(!xml.contains("println!"), "full content should not appear when summary exists");
    assert!(xml.contains("<tool name=\"ripgrep\" status=\"ok\">"));
    assert!(xml.contains("<turn role=\"user\">Fix the connection timeout bug.</turn>"));
    assert!(xml.contains("<turn role=\"assistant\">"));

    let md_config = DriverConfig {
        mode: OutputMode::Markdown,
        target_model: None,
        include_types: None,
        verbosity: Verbosity::Summary,
        token_budget: None,
    };
    let md = driver.render(&decoded.blocks, &md_config).expect("Markdown render should succeed");
    assert!(md.contains("## src/main.rs (summary)"));
    assert!(md.contains("### Tool: ripgrep (ok)"));
    assert!(md.contains("**User**: Fix the connection timeout bug."));
    assert!(md.contains("**Assistant**: I'll examine the pool config."));

    let min_config = DriverConfig {
        mode: OutputMode::Minimal,
        target_model: None,
        include_types: None,
        verbosity: Verbosity::Summary,
        token_budget: None,
    };
    let min = driver.render(&decoded.blocks, &min_config).expect("Minimal render should succeed");
    assert!(min.contains("--- src/main.rs [rust] (summary) ---"));
    assert!(min.contains("--- ripgrep [ok] ---"));
    assert!(min.contains("[user] Fix the connection timeout bug."));
    assert!(min.contains("[assistant] I'll examine the pool config."));
}

#[test]
fn pipeline_with_type_filter() {
    let payload = LcpEncoder::new()
        .add_code(Lang::Rust, "src/main.rs", b"fn main() {}")
        .add_conversation(Role::User, b"Hello")
        .encode()
        .expect("encoding should succeed");
    let decoded = BcpDecoder::decode(&payload).expect("decoding should succeed");
    let driver = DefaultDriver;
    let config = DriverConfig {
        mode: OutputMode::Minimal,
        target_model: None,
        include_types: Some(vec![BlockType::Conversation]),
        verbosity: Verbosity::Adaptive,
        token_budget: None,
    };
    let result = driver.render(&decoded.blocks, &config).expect("render should succeed");
    assert!(result.contains("[user] Hello"));
    assert!(!result.contains("main.rs"), "code block should be filtered out");
}

#[test]
fn invalid_utf8_diff_lines_are_reported_in_every_mode() {
    let payload = LcpEncoder::new()
        .add_code(Lang::Rust, "ok.rs", b"fine")
        .add_diff(
            "src/lib.rs",
            vec![
                DiffHunk { old_start: 1, new_start: 1, lines: b"+good\n".to_vec() },
                DiffHunk { old_start: 9, new_start: 9, lines: vec![b'+', 0xFF, b'\n'] },
            ],
        )
        .encode()
        .expect("encoding should succeed");
    let decoded = BcpDecoder::decode(&payload).expect("decoding should succeed");
    for mode in [OutputMode::Xml, OutputMode::Markdown, OutputMode::Minimal] {
        let config = DriverConfig { mode, ..DriverConfig::default() };
        let result = DefaultDriver.render(&decoded.blocks, &config);
        assert!(matches!(result, Err(DriverError::InvalidContent { block_index: 1 })), "mode {mode:?}");
    }
}

#[test]
fn valid_diff_lines_render_in_order() {
    let payload = LcpEncoder::new()
        .add_diff(
            "src/lib.rs",
            vec![
                DiffHunk { old_start: 1, new_start: 1, lines: b"+first\n".to_vec() },
                DiffHunk { old_start: 9, new_start: 9, lines: b"-second\n".to_vec() },
            ],
        )
        .encode()
        .expect("encoding should succeed");
    let decoded = BcpDecoder::decode(&payload).expect("decoding should succeed");
    let config = DriverConfig { mode: OutputMode::Xml, ..DriverConfig::default() };
    let xml = DefaultDriver.render(&decoded.blocks, &config).unwrap();
    assert_eq!(xml, "<context>\n<diff path=\"src/lib.rs\">\n+first\n-second\n</diff>\n</context>");
}

#[test]
fn appended_background_blocks_leave_earlier_decisions_alone() {
    let content = "x".repeat(400);
    let blocks = vec![
        code_block_with_summary("a.rs", content.as_bytes(), "A."),
        rust_block("b.rs", content.as_bytes()),
        rust_block("c.rs", b"fn c() {}"),
        rust_block("d.rs", b"fn d() {}"),
    ];
    let refs: Vec<&Block> = blocks.iter().collect();
    let info = |priority: Priority, full_tokens: u32, summary_tokens: Option<u32>| BlockBudgetInfo {
        priority,
        full_tokens,
        summary_tokens,
        has_summary: summary_tokens.is_some(),
    };
    let infos = vec![info(Priority::Normal, 100, Some(3)), info(Priority::Low, 100, None)];
    let mut longer = infos.clone();
    longer.push(info(Priority::Background, 5, None));
    longer.push(info(Priority::Background, 5, None));
    for budget in [0u32, 12, 20, 200] {
        let short = allocate_budget(&infos, budget, &refs[..2]);
        let long = allocate_budget(&longer, budget, &refs);
        assert_eq!(long.len(), 4);
        assert_eq!(&long[..2], &short[..], "budget {budget}");
    }
}
