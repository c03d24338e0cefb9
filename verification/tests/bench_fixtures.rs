use bcp::block::{Block, BlockContent};
use bcp::block_frame::BlockFlags;
use bcp::block_type::BlockType;
use bcp::blocks::{CodeBlock, ConversationBlock};
use bcp::decoder::BcpDecoder;
use bcp::enums::{Lang, Role};
use bcp::fixture::{encode_session, parse_lang, parse_role, FixtureBlock, SessionFixture};
use bcp::markdown::{build_naive_markdown, build_realistic_markdown};

#[test]
fn parse_lang_known_variants() {
    assert_eq!(parse_lang("rust"), Lang::Rust);
    assert_eq!(parse_lang("TypeScript"), Lang::TypeScript);
    assert_eq!(parse_lang("py"), Lang::Python);
    assert_eq!(parse_lang("unknown_lang"), Lang::Unknown);
}

#[test]
fn parse_role_known_variants() {
    assert_eq!(parse_role("user"), Role::User);
    assert_eq!(parse_role("Assistant"), Role::Assistant);
}

#[test]
fn encode_minimal_fixture() {
    let fixture = SessionFixture {
        description: "test".into(),
        blocks: vec![FixtureBlock::Conversation { role: "user".into(), content: "hello".into() }],
    };
    let payload = encode_session(&fixture).unwrap();
    assert!(payload.len() > 8);
}

#[test]
fn encoded_fixture_decodes_to_its_blocks() {
    let fixture = SessionFixture {
        description: "two blocks".into(),
        blocks: vec![
            FixtureBlock::Code {
                language: "Rust".into(),
                path: "src/lib.rs".into(),
                content: "pub fn f() {}".into(),
                summary: Some("One function.".into()),
            },
            FixtureBlock::Conversation { role: "nobody".into(), content: "hello".into() },
        ],
    };
    let payload = encode_session(&fixture).unwrap();
    let decoded = BcpDecoder::decode(&payload).unwrap();
    assert_eq!(decoded.blocks.len(), 2);
    match &decoded.blocks[0].content {
        BlockContent::Code(code) => {
            assert_eq!(code.lang, Lang::Rust);
            assert_eq!(code.path, "src/lib.rs");
            assert_eq!(code.content, b"pub fn f() {}");
        }
        other => panic!("expected Code, got {other:?}"),
    }
    assert_eq!(decoded.blocks[0].summary.as_ref().unwrap().text, "One function.");
    match &decoded.blocks[1].content {
        BlockContent::Conversation(conv) => assert_eq!(conv.role, Role::User),
        other => panic!("expected Conversation, got {other:?}"),
    }
}

fn make_block(content: BlockContent) -> Block {
    Block { block_type: BlockType::Code, flags: BlockFlags::none(), summary: None, content }
}

#[test]
fn naive_markdown_code_block() {
    let blocks = vec![make_block(BlockContent::Code(CodeBlock {
        lang: Lang::Rust,
        path: "src/main.rs".into(),
        content: b"fn main() {}".to_vec(),
        line_range: None,
    }))];
    let md = build_naive_markdown(&blocks);
    assert!(md.contains("```rust"));
    assert!(md.contains("// src/main.rs"));
    assert!(md.contains("fn main() {}"));
}

#[test]
fn realistic_markdown_has_context_wrapper() {
    let blocks = vec![make_block(BlockContent::Conversation(ConversationBlock {
        role: Role::User,
        content: b"hello".to_vec(),
        tool_call_id: None,
    }))];
    let md = build_realistic_markdown(&blocks);
    assert!(md.starts_with("<context>"));
    assert!(md.contains("<message role=\"user\">"));
    assert!(md.ends_with("</context>\n"));
}

#[test]
fn naive_markdown_code_block_exact_text() {
    let blocks = vec![make_block(BlockContent::Code(CodeBlock {
        lang: Lang::Go,
        path: "main.go".into(),
        content: b"package main".to_vec(),
        line_range: None,
    }))];
    assert_eq!(build_naive_markdown(&blocks), "```go\n// main.go\npackage main\n```\n\n");
}

#[test]
fn realistic_markdown_quotes_tool_output_as_json() {
    let block = Block {
        block_type: BlockType::ToolResult,
        flags: BlockFlags::none(),
        summary: None,
        content: BlockContent::ToolResult(bcp::blocks::ToolResultBlock {
            tool_name: "echo".to_string(),
            status: bcp::enums::Status::Success,
            content: b"say \"hi\"\n".to_vec(),
            schema_hint: None,
        }),
    };
    let md = build_realistic_markdown(&[block]);
    assert!(md.contains("<tool_result>\n{\n  \"tool\": \"echo\",\n  \"status\": \"ok\",\n  \"output\": \"say \\\"hi\\\"\\n\"\n}\n</tool_result>"));
}
