use bcp::budget::{HeuristicEstimator, TokenEstimator};
use bcp::capture::{
    capture_dir_scan, capture_transcript, detect_lang, is_source_file, limit_reached, walk_action, ScannedFile,
    WalkAction,
};
use bcp::cli::{decode_config, manifest_encoder, DecodeArgs, InspectArgs};
use bcp::config::{DriverConfig, OutputMode, Verbosity};
use bcp::decoder::BcpDecoder;
use bcp::driver::{BcpDriver, DefaultDriver};
use bcp::encoder::LcpEncoder;
use bcp::enums::{Lang, Role, Status};
use bcp::fixture::FixtureBlock;
use bcp::block_type::BlockType;
use bcp::inspect::inspect_report;
use bcp::messages::validation_report;
use bcp::stats::{block_type_label, rendered_tokens, stats_report, totals, type_rows};

fn sample_payload() -> Vec<u8> {
    LcpEncoder::new()
        .add_code(Lang::Rust, "main.rs", b"fn main() {}")
        .add_conversation(Role::User, b"hello")
        .add_code(Lang::Python, "a.py", b"print(1)")
        .encode()
        .unwrap()
}

// ── stats ─────────────────────────────────────────────────────────────────

#[test]
fn type_rows_group_by_type_in_first_appearance_order() {
    let decoded = BcpDecoder::decode(&sample_payload()).unwrap();
    let rows = type_rows(&decoded.blocks);
    assert_eq!(rows.len(), 2);
    assert_eq!((rows[0].label, rows[0].count, rows[0].bytes), ("CODE", 2, 20));
    assert_eq!((rows[1].label, rows[1].count, rows[1].bytes), ("CONVERSATION", 1, 5));
    assert_eq!(totals(&decoded.blocks), (3, 25));
}

#[test]
fn stats_labels_are_upper_case() {
    assert_eq!(block_type_label(&BlockType::StructuredData), "STRUCTURED_DATA");
    assert_eq!(block_type_label(&BlockType::Unknown(7)), "UNKNOWN");
}

#[test]
fn rendered_tokens_match_the_heuristic_on_the_rendering() {
    let decoded = BcpDecoder::decode(&sample_payload()).unwrap();
    let config = DriverConfig { mode: OutputMode::Markdown, verbosity: Verbosity::Full, ..DriverConfig::default() };
    let text = DefaultDriver.render(&decoded.blocks, &config).unwrap();
    assert_eq!(rendered_tokens(&decoded.blocks, OutputMode::Markdown), HeuristicEstimator.estimate(&text));
    assert_eq!(rendered_tokens(&[], OutputMode::Xml), 0);
}

#[test]
fn stats_report_lays_out_the_table() {
    let payload = sample_payload();
    let decoded = BcpDecoder::decode(&payload).unwrap();
    let report = stats_report("/tmp/x.bcp", payload.len(), &decoded);
    let xml = rendered_tokens(&decoded.blocks, OutputMode::Xml);
    let md = rendered_tokens(&decoded.blocks, OutputMode::Markdown);
    let min = rendered_tokens(&decoded.blocks, OutputMode::Minimal);
    let sep = "─".repeat(36);
    let mut expected = String::new();
    expected.push_str(&format!("File:    /tmp/x.bcp  ({} bytes)\n", payload.len()));
    expected.push_str("Header:  BCP v1.0, flags=0x00 (uncompressed)\n");
    expected.push_str("Blocks:  3 total\n\n");
    expected.push_str(&format!("{:<20}{:>6}{:>8}\n", "Type", "Count", "Bytes"));
    expected.push_str(&format!("{sep}\n"));
    expected.push_str(&format!("{:<20}{:>6}{:>8}\n", "CODE", 2, 20));
    expected.push_str(&format!("{:<20}{:>6}{:>8}\n", "CONVERSATION", 1, 5));
    expected.push_str(&format!("{sep}\n"));
    expected.push_str(&format!("{:<20}{:>6}{:>8}\n", "Total", 3, 25));
    expected.push_str("\nTokens (heuristic estimate):\n");
    expected.push_str(&format!("  xml mode      ~{xml} tokens\n"));
    expected.push_str(&format!("  markdown mode ~{md} tokens\n"));
    expected.push_str(&format!("  minimal mode  ~{min} tokens\n"));
    assert_eq!(report, expected);
    assert!(xml > 0 && md > 0 && min > 0);
}

#[test]
fn stats_report_notes_whole_payload_compression() {
    let big = "fn x() {}\n".repeat(200);
    let payload = LcpEncoder::new().add_code(Lang::Rust, "x.rs", big.as_bytes()).compress_payload().encode().unwrap();
    let decoded = BcpDecoder::decode(&payload).unwrap();
    let report = stats_report("p", payload.len(), &decoded);
    assert!(report.contains("Header:  BCP v1.0, flags=0x01 (payload zstd-compressed)\n"));
}

// ── inspect ───────────────────────────────────────────────────────────────

#[test]
fn inspect_report_lists_blocks_and_the_sentinel() {
    let payload = LcpEncoder::new()
        .add_code(Lang::Rust, "main.rs", b"fn main() {}")
        .with_summary("Entry.").unwrap()
        .add_tool_result("rg", Status::Success, b"ok")
        .encode()
        .unwrap();
    let decoded = BcpDecoder::decode(&payload).unwrap();
    let args = InspectArgs { file: "p".to_string(), show_body: false, show_hex: false, block: None };
    let report = inspect_report(&args, payload.len(), &decoded);
    let expected = format!(
        "Header: BCP v1.0, flags=0x00, 2 blocks\n\
         Block 0: CODE [rust] path=\"main.rs\" (12 bytes)\n\
         \x20        Summary: \"Entry.\"\n\
         Block 1: TOOL_RESULT [rg] status=ok (2 bytes)\n\
         ---\n\
         END sentinel at offset {}\n",
        payload.len() - 4
    );
    assert_eq!(report, expected);
}

fn hex_rows(raw: &[u8]) -> String {
    let mut out = String::new();
    for (i, chunk) in raw.chunks(16).enumerate() {
        let hex: Vec<String> = chunk.iter().map(|b| format!("{b:02x}")).collect();
        let ascii: String = chunk.iter().map(|&b| if b.is_ascii_graphic() { b as char } else { '.' }).collect();
        out.push_str(&format!("           {:04x}  {:<48}  {}\n", i * 16, hex.join(" "), ascii));
    }
    out
}

#[test]
fn inspect_report_selects_one_block_with_body_and_hex() {
    let payload = LcpEncoder::new()
        .add_code(Lang::Rust, "main.rs", b"fn main() {}")
        .add_conversation(Role::User, b"0123456789abcdef X")
        .encode()
        .unwrap();
    let decoded = BcpDecoder::decode(&payload).unwrap();
    let args = InspectArgs { file: "p".to_string(), show_body: true, show_hex: true, block: Some(1) };
    let report = inspect_report(&args, payload.len(), &decoded);
    let mut expected = String::from("Header: BCP v1.0, flags=0x00, 2 blocks\n");
    expected.push_str("Block 1: CONVERSATION [user] (18 bytes)\n");
    expected.push_str("         Body:    0123456789abcdef X\n");
    expected.push_str("         Hex dump:\n");
    expected.push_str(&hex_rows(b"0123456789abcdef X"));
    expected.push_str(&format!("---\nEND sentinel at offset {}\n", payload.len() - 4));
    assert_eq!(report, expected);
    assert!(report.contains("           0010  20 58"));
}

#[test]
fn inspect_body_preview_stops_at_eighty_characters() {
    let long = "é".repeat(81);
    let payload = LcpEncoder::new().add_conversation(Role::User, long.as_bytes()).encode().unwrap();
    let decoded = BcpDecoder::decode(&payload).unwrap();
    let args = InspectArgs { file: "p".to_string(), show_body: true, show_hex: false, block: None };
    let report = inspect_report(&args, payload.len(), &decoded);
    assert!(report.contains(&format!("         Body:    {}…\n", "é".repeat(80))));
}

// ── validate ──────────────────────────────────────────────────────────────

#[test]
fn validation_report_on_success() {
    let decoded = BcpDecoder::decode(&sample_payload());
    assert_eq!(
        validation_report(&decoded),
        "✓ Header: valid (BCP v1.0)\n\
         ✓ Blocks: 3 blocks parsed successfully\n\
         ✓ Sentinel: END block present\n\
         ✓ Integrity: all block bodies parse without error\n"
    );
}

#[test]
fn validation_report_on_error() {
    let mut payload = sample_payload();
    payload.extend_from_slice(b"xyz");
    let decoded = BcpDecoder::decode(&payload);
    assert_eq!(validation_report(&decoded), "✗ Error: trailing data after END (3 bytes)\n");
}

#[test]
fn validation_report_on_missing_store() {
    let mut enc = LcpEncoder::new();
    enc.set_content_store(bcp::content_store::MemoryContentStore::new());
    enc.add_code(Lang::Rust, "a.rs", b"fn a() {}").with_content_addressing();
    let payload = enc.encode().unwrap();
    let decoded = BcpDecoder::decode(&payload);
    assert_eq!(validation_report(&decoded), "✗ Error: content-addressed block with no store\n");
}

// ── decode and encode command settings ────────────────────────────────────

fn decode_args(mode: &str, verbosity: &str, filter: Option<&str>) -> DecodeArgs {
    DecodeArgs {
        file: "p".to_string(),
        mode: mode.to_string(),
        budget: Some(500),
        verbosity: verbosity.to_string(),
        include_types: filter.map(|s| s.to_string()),
        output: None,
    }
}

#[test]
fn decode_config_reads_every_setting() {
    let config = decode_config(&decode_args("MD", "summary", Some("code, diff"))).unwrap();
    assert_eq!(config.mode, OutputMode::Markdown);
    assert_eq!(config.verbosity, Verbosity::Summary);
    assert_eq!(config.include_types, Some(vec![BlockType::Code, BlockType::Diff]));
    assert_eq!(config.token_budget, Some(500));
    assert!(config.target_model.is_none());
}

#[test]
fn decode_config_reports_the_first_bad_setting() {
    let err = decode_config(&decode_args("html", "loud", Some("nope"))).unwrap_err();
    assert_eq!(err, bcp::cli::CliError::UnknownMode("html".to_string()));
    let err = decode_config(&decode_args("xml", "loud", Some("nope"))).unwrap_err();
    assert_eq!(err, bcp::cli::CliError::UnknownVerbosity("loud".to_string()));
    let err = decode_config(&decode_args("xml", "full", Some("code,nope"))).unwrap_err();
    assert_eq!(err, bcp::cli::CliError::UnknownBlockType("nope".to_string()));
}

#[test]
fn manifest_encoder_with_dedup_stores_repeated_bodies_once() {
    let mut enc = manifest_encoder(true, false, false);
    enc.add_code(Lang::Rust, "a.rs", b"same").add_code(Lang::Rust, "a.rs", b"same");
    let payload = enc.encode().unwrap();
    assert_eq!(enc.content_store().unwrap().len(), 1);
    let decoded = BcpDecoder::decode_with_store(&payload, enc.content_store().unwrap()).unwrap();
    assert_eq!(decoded.blocks.len(), 2);
    let plain = manifest_encoder(false, false, false);
    assert!(plain.content_store().is_none());
}

// ── capture ───────────────────────────────────────────────────────────────

#[test]
fn source_extensions_and_languages() {
    assert!(is_source_file("rs"));
    assert!(is_source_file("TSX"));
    assert!(!is_source_file("png"));
    assert!(!is_source_file(""));
    assert_eq!(detect_lang("h"), "c");
    assert_eq!(detect_lang("YML"), "yaml");
    assert_eq!(detect_lang("md"), "markdown");
    assert_eq!(detect_lang("lock"), "text");
}

#[test]
fn walk_actions() {
    assert!(limit_reached(15, 15));
    assert!(!limit_reached(14, 15));
    assert_eq!(walk_action(15, 15, "src", true, ""), WalkAction::Stop);
    assert_eq!(walk_action(0, 15, ".git", true, ""), WalkAction::Skip);
    assert_eq!(walk_action(0, 15, "target", true, ""), WalkAction::Skip);
    assert_eq!(walk_action(0, 15, "node_modules", true, ""), WalkAction::Skip);
    assert_eq!(walk_action(0, 15, "src", true, ""), WalkAction::Descend);
    assert_eq!(walk_action(0, 15, "main.rs", false, "rs"), WalkAction::Read);
    assert_eq!(walk_action(0, 15, "logo.png", false, "png"), WalkAction::Skip);
}

#[test]
fn dir_scan_fixture_has_code_blocks_then_three_turns() {
    let files = vec![ScannedFile {
        rel_path: "src/main.rs".to_string(),
        extension: "rs".to_string(),
        content: "fn main() {}".to_string(),
    }];
    let fixture = capture_dir_scan("/work/demo", &files);
    assert_eq!(fixture.description, "Dir scan of /work/demo (1 files)");
    assert_eq!(fixture.blocks.len(), 4);
    match &fixture.blocks[0] {
        FixtureBlock::Code { language, path, content, summary } => {
            assert_eq!(language, "rust");
            assert_eq!(path, "src/main.rs");
            assert_eq!(content, "fn main() {}");
            assert!(summary.is_none());
        }
        other => panic!("expected Code, got {other:?}"),
    }
    match &fixture.blocks[1] {
        FixtureBlock::Conversation { role, content } => {
            assert_eq!(role, "user");
            assert_eq!(content, "I've loaded 1 source files from /work/demo. Can you analyze the architecture?");
        }
        other => panic!("expected Conversation, got {other:?}"),
    }
    match &fixture.blocks[3] {
        FixtureBlock::ToolResult { tool_name, status, content, .. } => {
            assert_eq!(tool_name, "ripgrep");
            assert_eq!(status, "ok");
            assert_eq!(content, "Found 1 source files in /work/demo");
        }
        other => panic!("expected ToolResult, got {other:?}"),
    }
}

#[test]
fn transcripts_must_be_json() {
    assert!(capture_transcript("{\"blocks\": []}"));
    assert!(!capture_transcript("{\"blocks\": ["));
}
