use bcp::block::{Block, BlockContent};
use bcp::budget::{CodeAwareEstimator, HeuristicEstimator, TokenEstimator};
use bcp::config::{DriverConfig, OutputMode};
use bcp::decoder::BcpDecoder;
use bcp::driver::{BcpDriver, DefaultDriver};
use bcp::encoder::LcpEncoder;
use bcp::enums::{FileEntryKind, Lang, Role, Status};
use bcp::file_tree::FileEntry;
use bcp::block_type::BlockType;
use bcp::tokens::{blocks_of_type, TokenCounter};

const RUST_MAIN: &[u8] = b"use std::net::TcpListener;\n\
fn main() {\n\
    let listener = TcpListener::bind(\"127.0.0.1:8080\").unwrap();\n\
    println!(\"Listening on port 8080\");\n\
    for stream in listener.incoming() {\n\
        match stream {\n\
            Ok(s) => handle_client(s),\n\
            Err(e) => eprintln!(\"Connection error: {e}\"),\n\
        }\n\
    }\n\
}\n\
\n\
fn handle_client(stream: std::net::TcpStream) {\n\
    let _ = stream;\n\
}";

const RUST_LIB: &[u8] = b"use std::collections::HashMap;\n\
\n\
pub struct ConnectionPool {\n\
    max_size: usize,\n\
    timeout_ms: u64,\n\
    connections: HashMap<String, Vec<u8>>,\n\
}\n\
\n\
impl ConnectionPool {\n\
    pub fn new(max_size: usize, timeout_ms: u64) -> Self {\n\
        Self {\n\
            max_size,\n\
            timeout_ms,\n\
            connections: HashMap::new(),\n\
        }\n\
    }\n\
\n\
    pub fn acquire(&mut self, key: &str) -> Option<&[u8]> {\n\
        self.connections.get(key).map(|v| v.as_slice())\n\
    }\n\
}";

const TS_INDEX: &[u8] = b"import { createServer } from 'http';\n\
import { readFileSync } from 'fs';\n\
\n\
const PORT = parseInt(process.env.PORT ?? '3000', 10);\n\
\n\
const server = createServer((req, res) => {\n\
    if (req.method === 'GET' && req.url === '/health') {\n\
        res.writeHead(200, { 'Content-Type': 'application/json' });\n\
        res.end(JSON.stringify({ status: 'ok' }));\n\
        return;\n\
    }\n\
    res.writeHead(404);\n\
    res.end('Not found');\n\
});\n\
\n\
server.listen(PORT, () => {\n\
    console.log(`Server listening on port ${PORT}`);\n\
});";

const PY_DEPLOY: &[u8] = b"#!/usr/bin/env python3\n\
import subprocess\n\
import sys\n\
import os\n\
\n\
def run(cmd: list[str]) -> int:\n\
    result = subprocess.run(cmd, capture_output=True, text=True)\n\
    if result.returncode != 0:\n\
        print(result.stderr, file=sys.stderr)\n\
    return result.returncode\n\
\n\
def deploy(target: str) -> None:\n\
    env = os.environ.get('DEPLOY_ENV', 'staging')\n\
    print(f'Deploying {target} to {env}')\n\
    if run(['cargo', 'build', '--release']) != 0:\n\
        sys.exit(1)\n\
    if run(['rsync', '-av', 'target/release/', f'{target}:/app/']) != 0:\n\
        sys.exit(1)\n\
    print('Deploy complete')\n\
\n\
if __name__ == '__main__':\n\
    deploy(sys.argv[1] if len(sys.argv) > 1 else 'prod')";

const GO_SERVER: &[u8] = b"package main\n\
\n\
import (\n\
    \"fmt\"\n\
    \"log\"\n\
    \"net/http\"\n\
    \"os\"\n\
)\n\
\n\
func healthHandler(w http.ResponseWriter, r *http.Request) {\n\
    w.Header().Set(\"Content-Type\", \"application/json\")\n\
    fmt.Fprintln(w, `{\"status\":\"ok\"}`)\n\
}\n\
\n\
func main() {\n\
    port := os.Getenv(\"PORT\")\n\
    if port == \"\" {\n\
        port = \"8080\"\n\
    }\n\
    http.HandleFunc(\"/health\", healthHandler)\n\
    log.Printf(\"Listening on :%s\", port)\n\
    log.Fatal(http.ListenAndServe(\":\"+port, nil))\n\
}";

fn build_representative_payload() -> Vec<u8> {
    let file_tree = vec![
        FileEntry {
            name: "main.rs".to_string(),
            kind: FileEntryKind::File,
            size: 312,
            children: vec![],
        },
        FileEntry {
            name: "lib.rs".to_string(),
            kind: FileEntryKind::File,
            size: 256,
            children: vec![],
        },
        FileEntry {
            name: "tests".to_string(),
            kind: FileEntryKind::Directory,
            size: 0,
            children: vec![FileEntry {
                name: "integration.rs".to_string(),
                kind: FileEntryKind::File,
                size: 128,
                children: vec![],
            }],
        },
    ];

    LcpEncoder::new()
        .add_code(Lang::Rust, "src/main.rs", RUST_MAIN)
        .add_code(Lang::Rust, "src/lib.rs", RUST_LIB)
        .add_code(Lang::TypeScript, "src/index.ts", TS_INDEX)
        .add_code(Lang::Python, "scripts/deploy.py", PY_DEPLOY)
        .add_code(Lang::Go, "cmd/server.go", GO_SERVER)
        .add_conversation(
            Role::User,
            b"Please fix the connection timeout bug in the pool.",
        )
        .add_conversation(
            Role::Assistant,
            b"I'll trace through the connection pool implementation and identify the timeout path.",
        )
        .add_tool_result(
            "cargo_test",
            Status::Success,
            b"running 42 tests\ntest result: ok. 42 passed; 0 failed; 0 ignored",
        )
        .add_file_tree("src/", file_tree)
        .encode()
        .unwrap()
}

fn build_equivalent_markdown(blocks: &[Block]) -> String {
    let mut parts: Vec<String> = Vec::new();

    for block in blocks {
        match &block.content {
            BlockContent::Code(code) => {
                let lang = lang_name(code.lang);
                let content = String::from_utf8_lossy(&code.content);
                let line_count = content.lines().count();
                parts.push(format!(
                    "---\n\
                     #### Source File: `{path}`\n\
                     - **Language:** {lang}\n\
                     - **Path:** `{path}`\n\
                     - **Lines:** {lines}\n\
                     - **Encoding:** UTF-8\n\
                     - **Type:** source code\n\
                     \n\
                     ```{lang}\n\
                     {content}\n\
                     ```\n\
                     ---",
                    path = code.path,
                    lang = lang,
                    content = content,
                    lines = line_count
                ));
            }
            BlockContent::Conversation(conv) => {
                let role = match conv.role {
                    Role::User => "User",
                    Role::Assistant => "Assistant",
                    Role::System => "System",
                    Role::Tool => "Tool",
                };
                let content = String::from_utf8_lossy(&conv.content);
                parts.push(format!(
                    "---\n\
                     #### Conversation Turn — {role}\n\
                     **Speaker:** {role}\n\
                     \n\
                     {content}\n\
                     \n\
                     ---",
                    role = role,
                    content = content
                ));
            }
            BlockContent::ToolResult(tool) => {
                let status = match tool.status {
                    Status::Success => "ok",
                    Status::Error => "error",
                    Status::Timeout => "timeout",
                };
                let content = String::from_utf8_lossy(&tool.content);
                parts.push(format!(
                    "---\n\
                     #### Tool Output: `{name}`\n\
                     - **Tool:** `{name}`\n\
                     - **Exit status:** {status}\n\
                     \n\
                     ```\n\
                     {content}\n\
                     ```\n\
                     ---",
                    name = tool.tool_name,
                    status = status,
                    content = content
                ));
            }
            BlockContent::FileTree(tree) => {
                let mut listing = String::new();
                render_markdown_tree(&tree.entries, 0, &mut listing);
                parts.push(format!(
                    "---\n\
                     #### Project File Structure\n\
                     **Root:** `{root}`\n\
                     \n\
                     ```\n\
                     {root}\n\
                     {listing}\
                     ```\n\
                     ---",
                    root = tree.root_path,
                    listing = listing
                ));
            }
            BlockContent::Annotation(_) | BlockContent::End => {
            }
            other => {
                let variant_text = format!("{other:?}");
                let preview = &variant_text[..variant_text.len().min(40)];
                parts.push(format!("*[Block: {preview}]*"));
            }
        }
    }

    parts.join("\n\n")
}

fn render_markdown_tree(entries: &[FileEntry], depth: usize, out: &mut String) {
    let indent = "  ".repeat(depth);
    for entry in entries {
        match entry.kind {
            FileEntryKind::Directory => {
                out.push_str(&format!("{indent}{}/\n", entry.name));
                render_markdown_tree(&entry.children, depth + 1, out);
            }
            FileEntryKind::File => {
                out.push_str(&format!("{indent}{} ({} bytes)\n", entry.name, entry.size));
            }
        }
    }
}

fn lang_name(lang: Lang) -> &'static str {
    match lang {
        Lang::Rust => "rust",
        Lang::Python => "python",
        Lang::Go => "go",
        Lang::TypeScript => "typescript",
        Lang::JavaScript => "javascript",
        Lang::C => "c",
        Lang::Cpp => "cpp",
        Lang::Java => "java",
        Lang::Ruby => "ruby",
        Lang::Shell => "shell",
        Lang::Sql => "sql",
        Lang::Html => "html",
        Lang::Css => "css",
        Lang::Json => "json",
        Lang::Yaml => "yaml",
        Lang::Toml => "toml",
        Lang::Markdown => "markdown",
        Lang::Unknown | Lang::Other(_) => "text",
    }
}

#[test]
fn code_aware_estimator_savings() {
    let payload = build_representative_payload();
    let decoded = BcpDecoder::decode(&payload).unwrap();
    let estimator = CodeAwareEstimator;

    let minimal_config = DriverConfig {
        mode: OutputMode::Minimal,
        ..DriverConfig::default()
    };
    let minimal_output = DefaultDriver.render(&decoded.blocks, &minimal_config).unwrap();
    let minimal_tokens = estimator.estimate(&minimal_output);

    let markdown = build_equivalent_markdown(&decoded.blocks);
    let markdown_tokens = estimator.estimate(&markdown);

    let savings_pct = (1.0 - minimal_tokens as f64 / markdown_tokens as f64) * 100.0;

    println!("Markdown tokens (code-aware): {markdown_tokens}");
    println!("Minimal tokens  (code-aware): {minimal_tokens}");
    println!("Savings:                      {savings_pct:.1}%");

    assert!(
        savings_pct >= 25.0,
        "Expected ≥25% savings with CodeAwareEstimator, got {savings_pct:.1}%"
    );
}

#[test]
fn xml_mode_vs_markdown() {
    let payload = build_representative_payload();
    let decoded = BcpDecoder::decode(&payload).unwrap();
    let estimator = HeuristicEstimator;

    let xml_config = DriverConfig {
        mode: OutputMode::Xml,
        ..DriverConfig::default()
    };
    let xml_output = DefaultDriver.render(&decoded.blocks, &xml_config).unwrap();
    let xml_tokens = estimator.estimate(&xml_output);

    let markdown = build_equivalent_markdown(&decoded.blocks);
    let markdown_tokens = estimator.estimate(&markdown);

    let savings_pct = (1.0 - xml_tokens as f64 / markdown_tokens as f64) * 100.0;

    println!("Markdown tokens: {markdown_tokens}");
    println!("XML tokens:      {xml_tokens}");
    println!("Savings:         {savings_pct:.1}%");

    assert!(
        savings_pct >= 5.0,
        "Expected ≥5% savings for XML mode vs markdown, got {savings_pct:.1}%\n\
         XML output:\n{xml_output}\n\
         Markdown:\n{markdown}"
    );
}

#[test]
fn cl100k_counts_words_and_special_tokens() {
    let counter = TokenCounter::new();
    assert_eq!(counter.count("hello world"), Some(2));
    assert_eq!(counter.count(""), Some(0));
    assert_eq!(counter.count("<|endoftext|>"), Some(1));
}

#[test]
fn blocks_of_type_keeps_matching_blocks_in_order() {
    let payload = LcpEncoder::new()
        .add_code(Lang::Rust, "a.rs", b"fn a() {}")
        .add_conversation(Role::User, b"hi")
        .add_code(Lang::Rust, "b.rs", b"fn b() {}")
        .encode()
        .unwrap();
    let decoded = BcpDecoder::decode(&payload).unwrap();
    let codes = blocks_of_type(decoded.blocks, BlockType::Code);
    assert_eq!(codes.len(), 2);
    let paths: Vec<&str> = codes
        .iter()
        .map(|b| match &b.content {
            BlockContent::Code(c) => c.path.as_str(),
            _ => "",
        })
        .collect();
    assert_eq!(paths, vec!["a.rs", "b.rs"]);
}
