//! Capturing benchmark fixtures: which files of a source tree to take, the
//! language of each, and the session fixture a scan of them makes.
use vstd::prelude::*;
use vstd::string::StrSliceExecFns;
use crate::fixture::{FixtureBlock, SessionFixture};
use crate::text::{decimal_string, push_str, spec_decimal, spec_to_lowercase, str_eq, to_lowercase};

verus! {

/// Whether a (lower-case) file extension is one of a source file.
pub open spec fn spec_is_source_ext(l: Seq<char>) -> bool {
    l == "rs"@ || l == "ts"@ || l == "tsx"@ || l == "js"@ || l == "jsx"@ || l == "py"@ || l == "go"@ || l == "java"@
        || l == "c"@ || l == "cpp"@ || l == "h"@ || l == "rb"@ || l == "sh"@ || l == "sql"@ || l == "html"@ || l
        == "css"@ || l == "json"@ || l == "yaml"@ || l == "yml"@ || l == "toml"@ || l == "md"@
}

/// Whether a file with this extension is a source file (the extension is
/// compared case-insensitively).
pub fn is_source_file(ext: &str) -> (r: bool)
    ensures
        r == spec_is_source_ext(spec_to_lowercase(ext@)),
{
    let lower = to_lowercase(ext);
    let l = lower.as_str();
    str_eq(l, "rs") || str_eq(l, "ts") || str_eq(l, "tsx") || str_eq(l, "js") || str_eq(l, "jsx") || str_eq(l, "py")
        || str_eq(l, "go") || str_eq(l, "java") || str_eq(l, "c") || str_eq(l, "cpp") || str_eq(l, "h") || str_eq(
        l,
        "rb",
    ) || str_eq(l, "sh") || str_eq(l, "sql") || str_eq(l, "html") || str_eq(l, "css") || str_eq(l, "json")
        || str_eq(l, "yaml") || str_eq(l, "yml") || str_eq(l, "toml") || str_eq(l, "md")
}

/// The language name of a (lower-case) file extension; `text` for others.
pub open spec fn spec_ext_lang(l: Seq<char>) -> Seq<char> {
    if l == "rs"@ {
        "rust"@
    } else if l == "ts"@ || l == "tsx"@ {
        "typescript"@
    } else if l == "js"@ || l == "jsx"@ {
        "javascript"@
    } else if l == "py"@ {
        "python"@
    } else if l == "go"@ {
        "go"@
    } else if l == "java"@ {
        "java"@
    } else if l == "c"@ || l == "h"@ {
        "c"@
    } else if l == "cpp"@ {
        "cpp"@
    } else if l == "rb"@ {
        "ruby"@
    } else if l == "sh"@ {
        "shell"@
    } else if l == "sql"@ {
        "sql"@
    } else if l == "html"@ {
        "html"@
    } else if l == "css"@ {
        "css"@
    } else if l == "json"@ {
        "json"@
    } else if l == "yaml"@ || l == "yml"@ {
        "yaml"@
    } else if l == "toml"@ {
        "toml"@
    } else if l == "md"@ {
        "markdown"@
    } else {
        "text"@
    }
}

/// The language name of a file with this extension (compared
/// case-insensitively); `text` for others.
pub fn detect_lang(ext: &str) -> (r: &'static str)
    ensures
        r@ == spec_ext_lang(spec_to_lowercase(ext@)),
{
    let lower = to_lowercase(ext);
    let l = lower.as_str();
    if str_eq(l, "rs") {
        "rust"
    } else if str_eq(l, "ts") || str_eq(l, "tsx") {
        "typescript"
    } else if str_eq(l, "js") || str_eq(l, "jsx") {
        "javascript"
    } else if str_eq(l, "py") {
        "python"
    } else if str_eq(l, "go") {
        "go"
    } else if str_eq(l, "java") {
        "java"
    } else if str_eq(l, "c") || str_eq(l, "h") {
        "c"
    } else if str_eq(l, "cpp") {
        "cpp"
    } else if str_eq(l, "rb") {
        "ruby"
    } else if str_eq(l, "sh") {
        "shell"
    } else if str_eq(l, "sql") {
        "sql"
    } else if str_eq(l, "html") {
        "html"
    } else if str_eq(l, "css") {
        "css"
    } else if str_eq(l, "json") {
        "json"
    } else if str_eq(l, "yaml") || str_eq(l, "yml") {
        "yaml"
    } else if str_eq(l, "toml") {
        "toml"
    } else if str_eq(l, "md") {
        "markdown"
    } else {
        "text"
    }
}

/// What a directory scan does with the next entry of a directory.
#[derive(Clone, Copy, Debug, PartialEq, Eq, Structural)]
pub enum WalkAction {
    /// Enough files were found: look at no more entries.
    Stop,
    /// Leave the entry out.
    Skip,
    /// Scan the directory.
    Descend,
    /// Read the file and take it.
    Read,
}

/// Whether a scan that has found `found` files has found enough.
pub open spec fn spec_limit_reached(found: nat, max_files: nat) -> bool {
    found >= max_files
}

/// Whether a scan that has found `found` files has found enough.
pub fn limit_reached(found: usize, max_files: usize) -> (r: bool)
    ensures
        r == spec_limit_reached(found as nat, max_files as nat),
{
    found >= max_files
}

/// Whether a directory is one a scan leaves out: hidden ones, and build
/// and dependency trees.
pub open spec fn spec_skipped_dir(name: Seq<char>) -> bool {
    (name.len() > 0 && name[0] == '.') || name == "target"@ || name == "node_modules"@
}

/// What a scan that has found `found` files does with an entry called
/// `name`: stop once it has enough, leave out hidden, build and
/// dependency directories, scan other directories, and read the files
/// whose extension is that of a source file.
pub open spec fn spec_walk_action(found: nat, max_files: nat, name: Seq<char>, is_dir: bool, ext: Seq<char>) -> WalkAction {
    if spec_limit_reached(found, max_files) {
        WalkAction::Stop
    } else if is_dir {
        if spec_skipped_dir(name) {
            WalkAction::Skip
        } else {
            WalkAction::Descend
        }
    } else if spec_is_source_ext(spec_to_lowercase(ext)) {
        WalkAction::Read
    } else {
        WalkAction::Skip
    }
}

/// What a scan that has found `found` files does with the next entry.
pub fn walk_action(found: usize, max_files: usize, name: &str, is_dir: bool, ext: &str) -> (r: WalkAction)
    ensures
        r == spec_walk_action(found as nat, max_files as nat, name@, is_dir, ext@),
{
    if limit_reached(found, max_files) {
        WalkAction::Stop
    } else if is_dir {
        let hidden = name.unicode_len() > 0 && name.get_char(0) == '.';
        if hidden || str_eq(name, "target") || str_eq(name, "node_modules") {
            WalkAction::Skip
        } else {
            WalkAction::Descend
        }
    } else if is_source_file(ext) {
        WalkAction::Read
    } else {
        WalkAction::Skip
    }
}

/// A source file a scan took: its path relative to the scanned
/// directory, its extension and its text.
#[derive(Debug)]
pub struct ScannedFile {
    pub rel_path: String,
    pub extension: String,
    pub content: String,
}

/// The request of the user turn of a directory-scan fixture.
pub open spec fn spec_scan_request(n: nat, dir: Seq<char>) -> Seq<char> {
    "I've loaded "@ + spec_decimal(n) + " source files from "@ + dir + ". Can you analyze the architecture?"@
}

/// The reply of the assistant turn of a directory-scan fixture.
pub open spec fn spec_scan_reply(n: nat) -> Seq<char> {
    "I'll review the "@ + spec_decimal(n) + " files. Let me start by understanding the module structure and key types."@
}

/// The output of the search tool in a directory-scan fixture.
pub open spec fn spec_scan_tool_output(n: nat, dir: Seq<char>) -> Seq<char> {
    "Found "@ + spec_decimal(n) + " source files in "@ + dir
}

/// The description of a directory-scan fixture.
pub open spec fn spec_scan_description(n: nat, dir: Seq<char>) -> Seq<char> {
    "Dir scan of "@ + dir + " ("@ + spec_decimal(n) + " files)"@
}

/// Whether a fixture block is the code block of a scanned file.
pub open spec fn spec_is_code_of(b: FixtureBlock, f: ScannedFile) -> bool {
    b matches FixtureBlock::Code { language, path, content, summary } && language@ == spec_ext_lang(
        spec_to_lowercase(f.extension@),
    ) && path@ == f.rel_path@ && content@ == f.content@ && summary is None
}

/// The fixture of a scan of `dir` (as displayed) that took `files`: a code
/// block per file, in order, then a user request, an assistant reply and
/// a search result that mention how many files there are.
pub fn capture_dir_scan(dir: &str, files: &[ScannedFile]) -> (r: SessionFixture)
    ensures
        r.description@ == spec_scan_description(files@.len(), dir@),
        r.blocks@.len() == files@.len() + 3,
        forall|i: int| 0 <= i < files@.len() ==> spec_is_code_of(#[trigger] r.blocks@[i], files@[i]),
        r.blocks@[files@.len() as int] matches FixtureBlock::Conversation { role, content } && role@ == "user"@
            && content@ == spec_scan_request(files@.len(), dir@),
        r.blocks@[files@.len() as int + 1] matches FixtureBlock::Conversation { role, content } && role@ == "assistant"@
            && content@ == spec_scan_reply(files@.len()),
        r.blocks@[files@.len() as int + 2] matches FixtureBlock::ToolResult { tool_name, status, content, summary }
            && tool_name@ == "ripgrep"@ && status@ == "ok"@ && content@ == spec_scan_tool_output(files@.len(), dir@)
            && summary is None,
{
    let mut blocks: Vec<FixtureBlock> = Vec::new();
    let mut i: usize = 0;
    while i < files.len()
        invariant
            i <= files@.len(),
            blocks@.len() == i,
            forall|j: int| 0 <= j < i ==> spec_is_code_of(#[trigger] blocks@[j], files@[j]),
        decreases files@.len() - i,
    {
        let f = &files[i];
        let lang = detect_lang(f.extension.as_str());
        blocks.push(
            FixtureBlock::Code {
                language: String::from_str(lang),
                path: f.rel_path.clone(),
                content: f.content.clone(),
                summary: None,
            },
        );
        i = i + 1;
    }
    let n = decimal_string(files.len() as u64);
    let mut request = String::new();
    push_str(&mut request, "I've loaded ");
    push_str(&mut request, n.as_str());
    push_str(&mut request, " source files from ");
    push_str(&mut request, dir);
    push_str(&mut request, ". Can you analyze the architecture?");
    assert(request@ =~= spec_scan_request(files@.len(), dir@));
    let mut reply = String::new();
    push_str(&mut reply, "I'll review the ");
    push_str(&mut reply, n.as_str());
    push_str(&mut reply, " files. Let me start by understanding the module structure and key types.");
    assert(reply@ =~= spec_scan_reply(files@.len()));
    let mut found = String::new();
    push_str(&mut found, "Found ");
    push_str(&mut found, n.as_str());
    push_str(&mut found, " source files in ");
    push_str(&mut found, dir);
    assert(found@ =~= spec_scan_tool_output(files@.len(), dir@));
    let mut description = String::new();
    push_str(&mut description, "Dir scan of ");
    push_str(&mut description, dir);
    push_str(&mut description, " (");
    push_str(&mut description, n.as_str());
    push_str(&mut description, " files)");
    assert(description@ =~= spec_scan_description(files@.len(), dir@));
    let ghost codes = blocks@;
    blocks.push(FixtureBlock::Conversation { role: String::from_str("user"), content: request });
    blocks.push(FixtureBlock::Conversation { role: String::from_str("assistant"), content: reply });
    blocks.push(
        FixtureBlock::ToolResult {
            tool_name: String::from_str("ripgrep"),
            status: String::from_str("ok"),
            content: found,
            summary: None,
        },
    );
    assert forall|j: int| 0 <= j < files@.len() implies spec_is_code_of(#[trigger] blocks@[j], files@[j]) by {
        assert(blocks@[j] == codes[j]);
    }
    SessionFixture { description, blocks }
}

/// Whether `serde_json` reads `s` as one JSON value.
pub uninterp spec fn spec_json_parses(s: Seq<char>) -> bool;

/// Calls `serde_json::from_str::<serde_json::Value>` and tells whether it
/// succeeded. The contract names the outcome.
#[verifier::external_body]
fn json_parses(s: &str) -> (r: bool)
    ensures
        r == spec_json_parses(s@),
{
    serde_json::from_str::<serde_json::Value>(s).is_ok()
}

/// Whether a transcript can be taken as a fixture as it stands: whether
/// it is JSON.
pub fn capture_transcript(json: &str) -> (r: bool)
    ensures
        r == spec_json_parses(json@),
{
    json_parses(json)
}

} // verus!
