//! Session fixtures: a JSON description of a captured agent session, and
//! its encoding as a payload.
use vstd::prelude::*;
use vstd::string::StringExecFns;
use vstd::utf8::encode_utf8;
use crate::block::ContentModel;
use crate::blocks::{CodeModel, ConversationModel, DiffHunk, DiffHunkModel, DocumentModel, StructuredDataModel, ToolResultModel};
use crate::diff::DiffModel;
use crate::encoder::{EncoderModel, LcpEncoder, PendingModel, spec_encode};
use crate::enums::{DataFormat, FileEntryKind, FormatHint, Lang, Role, Status};
use crate::error::EncodeError;
use crate::file_tree::{FileEntry, FileEntryModel, FileTreeModel, spec_entries_view};
use crate::text::{spec_to_lowercase, str_eq, to_lowercase};
use crate::decoder::spec_decode_payload;
use crate::roundtrip::{lemma_plain_encode_then_decode, spec_block_matches, spec_pending_ok, spec_plain};

verus! {

/// A captured session: a description and its blocks.
#[derive(Debug)]
pub struct SessionFixture {
    pub description: String,
    pub blocks: Vec<FixtureBlock>,
}

/// One block of a fixture, with its fields as the JSON gives them.
#[derive(Debug)]
pub enum FixtureBlock {
    Code { language: String, path: String, content: String, summary: Option<String> },
    Conversation { role: String, content: String },
    ToolResult { tool_name: String, status: String, content: String, summary: Option<String> },
    FileTree { root_path: String, entries: Vec<FixtureEntry> },
    Document { title: String, content: String, format_hint: Option<String> },
    StructuredData { format: String, content: String },
    Diff { path: String, hunks: Vec<FixtureHunk> },
}

/// A file tree entry of a fixture.
#[derive(Debug)]
pub struct FixtureEntry {
    pub name: String,
    pub kind: String,
    pub size: u64,
    pub children: Vec<FixtureEntry>,
}

/// A diff hunk of a fixture.
#[derive(Debug)]
pub struct FixtureHunk {
    pub old_start: u32,
    pub new_start: u32,
    pub lines: String,
}

/// The language a fixture names (case-insensitive); `Unknown` for others.
pub open spec fn spec_parse_lang(l: Seq<char>) -> Lang {
    if l == "rust"@ || l == "rs"@ {
        Lang::Rust
    } else if l == "typescript"@ || l == "ts"@ {
        Lang::TypeScript
    } else if l == "javascript"@ || l == "js"@ {
        Lang::JavaScript
    } else if l == "python"@ || l == "py"@ {
        Lang::Python
    } else if l == "go"@ {
        Lang::Go
    } else if l == "java"@ {
        Lang::Java
    } else if l == "c"@ {
        Lang::C
    } else if l == "cpp"@ || l == "c++"@ {
        Lang::Cpp
    } else if l == "ruby"@ || l == "rb"@ {
        Lang::Ruby
    } else if l == "shell"@ || l == "bash"@ || l == "sh"@ {
        Lang::Shell
    } else if l == "sql"@ {
        Lang::Sql
    } else if l == "html"@ {
        Lang::Html
    } else if l == "css"@ {
        Lang::Css
    } else if l == "json"@ {
        Lang::Json
    } else if l == "yaml"@ || l == "yml"@ {
        Lang::Yaml
    } else if l == "toml"@ {
        Lang::Toml
    } else if l == "markdown"@ || l == "md"@ {
        Lang::Markdown
    } else {
        Lang::Unknown
    }
}

/// The language a fixture names (case-insensitive); `Unknown` for others.
pub fn parse_lang(s: &str) -> (r: Lang)
    ensures
        r == spec_parse_lang(spec_to_lowercase(s@)),
{
    let lower = to_lowercase(s);
    let l = lower.as_str();
    if str_eq(l, "rust") || str_eq(l, "rs") {
        Lang::Rust
    } else if str_eq(l, "typescript") || str_eq(l, "ts") {
        Lang::TypeScript
    } else if str_eq(l, "javascript") || str_eq(l, "js") {
        Lang::JavaScript
    } else if str_eq(l, "python") || str_eq(l, "py") {
        Lang::Python
    } else if str_eq(l, "go") {
        Lang::Go
    } else if str_eq(l, "java") {
        Lang::Java
    } else if str_eq(l, "c") {
        Lang::C
    } else if str_eq(l, "cpp") || str_eq(l, "c++") {
        Lang::Cpp
    } else if str_eq(l, "ruby") || str_eq(l, "rb") {
        Lang::Ruby
    } else if str_eq(l, "shell") || str_eq(l, "bash") || str_eq(l, "sh") {
        Lang::Shell
    } else if str_eq(l, "sql") {
        Lang::Sql
    } else if str_eq(l, "html") {
        Lang::Html
    } else if str_eq(l, "css") {
        Lang::Css
    } else if str_eq(l, "json") {
        Lang::Json
    } else if str_eq(l, "yaml") || str_eq(l, "yml") {
        Lang::Yaml
    } else if str_eq(l, "toml") {
        Lang::Toml
    } else if str_eq(l, "markdown") || str_eq(l, "md") {
        Lang::Markdown
    } else {
        Lang::Unknown
    }
}

/// The role a fixture names (case-insensitive); `User` for others.
pub open spec fn spec_parse_role(l: Seq<char>) -> Role {
    if l == "system"@ {
        Role::System
    } else if l == "user"@ {
        Role::User
    } else if l == "assistant"@ {
        Role::Assistant
    } else if l == "tool"@ {
        Role::Tool
    } else {
        Role::User
    }
}

/// The role a fixture names (case-insensitive); `User` for others.
pub fn parse_role(s: &str) -> (r: Role)
    ensures
        r == spec_parse_role(spec_to_lowercase(s@)),
{
    let lower = to_lowercase(s);
    let l = lower.as_str();
    if str_eq(l, "system") {
        Role::System
    } else if str_eq(l, "user") {
        Role::User
    } else if str_eq(l, "assistant") {
        Role::Assistant
    } else if str_eq(l, "tool") {
        Role::Tool
    } else {
        Role::User
    }
}

/// The tool status a fixture names (case-insensitive); success for others.
pub open spec fn spec_parse_status(l: Seq<char>) -> Status {
    if l == "ok"@ || l == "success"@ {
        Status::Success
    } else if l == "error"@ || l == "fail"@ || l == "failed"@ {
        Status::Error
    } else if l == "timeout"@ {
        Status::Timeout
    } else {
        Status::Success
    }
}

/// The tool status a fixture names (case-insensitive); success for others.
pub fn parse_status(s: &str) -> (r: Status)
    ensures
        r == spec_parse_status(spec_to_lowercase(s@)),
{
    let lower = to_lowercase(s);
    let l = lower.as_str();
    if str_eq(l, "ok") || str_eq(l, "success") {
        Status::Success
    } else if str_eq(l, "error") || str_eq(l, "fail") || str_eq(l, "failed") {
        Status::Error
    } else if str_eq(l, "timeout") {
        Status::Timeout
    } else {
        Status::Success
    }
}

/// The document format a fixture names (case-insensitive); `Plain` for others.
pub open spec fn spec_parse_format_hint(l: Seq<char>) -> FormatHint {
    if l == "markdown"@ || l == "md"@ {
        FormatHint::Markdown
    } else if l == "html"@ {
        FormatHint::Html
    } else {
        FormatHint::Plain
    }
}

/// The document format a fixture names (case-insensitive); `Plain` for others.
pub fn parse_format_hint(s: &str) -> (r: FormatHint)
    ensures
        r == spec_parse_format_hint(spec_to_lowercase(s@)),
{
    let lower = to_lowercase(s);
    let l = lower.as_str();
    if str_eq(l, "markdown") || str_eq(l, "md") {
        FormatHint::Markdown
    } else if str_eq(l, "html") {
        FormatHint::Html
    } else {
        FormatHint::Plain
    }
}

/// The data format a fixture names (case-insensitive); `Json` for others.
pub open spec fn spec_parse_data_format(l: Seq<char>) -> DataFormat {
    if l == "json"@ {
        DataFormat::Json
    } else if l == "yaml"@ || l == "yml"@ {
        DataFormat::Yaml
    } else if l == "toml"@ {
        DataFormat::Toml
    } else if l == "csv"@ {
        DataFormat::Csv
    } else {
        DataFormat::Json
    }
}

/// The data format a fixture names (case-insensitive); `Json` for others.
pub fn parse_data_format(s: &str) -> (r: DataFormat)
    ensures
        r == spec_parse_data_format(spec_to_lowercase(s@)),
{
    let lower = to_lowercase(s);
    let l = lower.as_str();
    if str_eq(l, "json") {
        DataFormat::Json
    } else if str_eq(l, "yaml") || str_eq(l, "yml") {
        DataFormat::Yaml
    } else if str_eq(l, "toml") {
        DataFormat::Toml
    } else if str_eq(l, "csv") {
        DataFormat::Csv
    } else {
        DataFormat::Json
    }
}

/// The kind a fixture entry names: a directory for `dir` or `directory`,
/// else a file.
pub open spec fn spec_entry_kind(k: Seq<char>) -> FileEntryKind {
    if k == "dir"@ || k == "directory"@ {
        FileEntryKind::Directory
    } else {
        FileEntryKind::File
    }
}

/// The file entry a fixture entry stands for.
pub open spec fn spec_convert_entry(e: FixtureEntry) -> FileEntryModel
    decreases e, 0int,
{
    FileEntryModel {
        name: e.name@,
        kind: spec_entry_kind(e.kind@),
        size: e.size,
        children: spec_convert_entries(e.children@),
    }
}

/// The file entries a list of fixture entries stands for.
pub open spec fn spec_convert_entries(es: Seq<FixtureEntry>) -> Seq<FileEntryModel>
    decreases es, 1int,
{
    if es.len() == 0 {
        Seq::empty()
    } else {
        spec_convert_entries(es.drop_last()).push(spec_convert_entry(es.last()))
    }
}

proof fn lemma_convert_index(es: Seq<FixtureEntry>)
    ensures
        spec_convert_entries(es).len() == es.len(),
        forall|i: int| 0 <= i < es.len() ==> #[trigger] spec_convert_entries(es)[i] == spec_convert_entry(es[i]),
    decreases es.len(),
{
    if es.len() > 0 {
        lemma_convert_index(es.drop_last());
        assert forall|i: int| 0 <= i < es.len() implies #[trigger] spec_convert_entries(es)[i] == spec_convert_entry(es[i]) by {
            if i < es.len() - 1 {
                assert(es.drop_last()[i] == es[i]);
            }
        }
    }
}

/// Convert a fixture entry, children included.
pub fn convert_entry(e: &FixtureEntry) -> (r: FileEntry)
    ensures
        r@ == spec_convert_entry(*e),
    decreases e,
{
    let kind = if str_eq(e.kind.as_str(), "dir") || str_eq(e.kind.as_str(), "directory") {
        FileEntryKind::Directory
    } else {
        FileEntryKind::File
    };
    let children = convert_entries(&e.children);
    let r = FileEntry { name: e.name.clone(), kind, size: e.size, children };
    assert(r@.children == spec_convert_entries(e.children@));
    r
}

fn convert_entries(es: &Vec<FixtureEntry>) -> (r: Vec<FileEntry>)
    ensures
        spec_entries_view(r@) == spec_convert_entries(es@),
    decreases es, 0int,
{
    let mut out: Vec<FileEntry> = Vec::new();
    let mut i: usize = 0;
    proof {
        lemma_convert_index(es@);
    }
    while i < es.len()
        invariant
            i <= es@.len(),
            out@.len() == i,
            forall|j: int| 0 <= j < i ==> #[trigger] out@[j]@ == spec_convert_entry(es@[j]),
            forall|j: int| 0 <= j < es@.len() ==> #[trigger] spec_convert_entries(es@)[j] == spec_convert_entry(es@[j]),
            spec_convert_entries(es@).len() == es@.len(),
        decreases es@.len() - i,
    {
        let c = convert_entry(&es[i]);
        out.push(c);
        i = i + 1;
    }
    proof {
        crate::file_tree::lemma_views_len(out@);
        assert(spec_entries_view(out@) =~= spec_convert_entries(es@));
    }
    out
}

/// The hunks a fixture diff stands for.
pub open spec fn spec_convert_hunks(hs: Seq<FixtureHunk>) -> Seq<DiffHunkModel> {
    hs.map_values(|h: FixtureHunk| DiffHunkModel { old_start: h.old_start, new_start: h.new_start, lines: encode_utf8(h.lines@) })
}

/// The encoder after adding a block of a fixture, with its summary.
pub open spec fn spec_session_block(m: EncoderModel, b: FixtureBlock) -> EncoderModel {
    match b {
        FixtureBlock::Code { language, path, content, summary } => {
            let m1 = m.with_block(ContentModel::Code(CodeModel {
                lang: spec_parse_lang(spec_to_lowercase(language@)),
                path: path@,
                content: encode_utf8(content@),
                line_range: None,
            }));
            match summary {
                Some(s) => m1.with_last(PendingModel { summary: Some(s@), ..m1.blocks.last() }),
                None => m1,
            }
        },
        FixtureBlock::Conversation { role, content } => m.with_block(ContentModel::Conversation(ConversationModel {
            role: spec_parse_role(spec_to_lowercase(role@)),
            content: encode_utf8(content@),
            tool_call_id: None,
        })),
        FixtureBlock::ToolResult { tool_name, status, content, summary } => {
            let m1 = m.with_block(ContentModel::ToolResult(ToolResultModel {
                tool_name: tool_name@,
                status: spec_parse_status(spec_to_lowercase(status@)),
                content: encode_utf8(content@),
                schema_hint: None,
            }));
            match summary {
                Some(s) => m1.with_last(PendingModel { summary: Some(s@), ..m1.blocks.last() }),
                None => m1,
            }
        },
        FixtureBlock::FileTree { root_path, entries } => m.with_block(ContentModel::FileTree(FileTreeModel {
            root_path: root_path@,
            entries: spec_convert_entries(entries@),
        })),
        FixtureBlock::Document { title, content, format_hint } => m.with_block(ContentModel::Document(DocumentModel {
            title: title@,
            content: encode_utf8(content@),
            format_hint: match format_hint {
                Some(h) => spec_parse_format_hint(spec_to_lowercase(h@)),
                None => FormatHint::Plain,
            },
        })),
        FixtureBlock::StructuredData { format, content } => m.with_block(ContentModel::StructuredData(StructuredDataModel {
            format: spec_parse_data_format(spec_to_lowercase(format@)),
            content: encode_utf8(content@),
            schema: None,
        })),
        FixtureBlock::Diff { path, hunks } => m.with_block(ContentModel::Diff(DiffModel {
            path: path@,
            hunks: spec_convert_hunks(hunks@),
        })),
    }
}

/// The encoder after adding the blocks of a fixture in order.
pub open spec fn spec_session_encoder(m: EncoderModel, bs: Seq<FixtureBlock>) -> EncoderModel
    decreases bs.len(),
{
    if bs.len() == 0 {
        m
    } else {
        spec_session_block(spec_session_encoder(m, bs.drop_last()), bs.last())
    }
}

/// A fresh encoder's model.
pub open spec fn spec_new_encoder() -> EncoderModel {
    EncoderModel {
        blocks: Seq::empty(),
        flags: 0,
        compress_payload: false,
        compress_all_blocks: false,
        store: None,
        auto_dedup: false,
    }
}

/// Encode the blocks of a session fixture as a payload.
///
/// # Errors
///
/// Those of [`LcpEncoder::encode`]: `EmptyPayload` for a fixture with no
/// block, `BlockTooLarge` for a body over the limit.
pub fn encode_session(fixture: &SessionFixture) -> (r: Result<Vec<u8>, EncodeError>)
    ensures
        r matches Ok(v) ==> spec_encode(spec_session_encoder(spec_new_encoder(), fixture.blocks@)).0 == Ok::<Seq<u8>, EncodeError>(v@),
        r matches Err(e) ==> spec_encode(spec_session_encoder(spec_new_encoder(), fixture.blocks@)).0 == Err::<Seq<u8>, EncodeError>(e),
{
    let mut encoder = LcpEncoder::new();
    let ghost bs = fixture.blocks@;
    let mut i: usize = 0;
    assert(bs.take(0) =~= Seq::<FixtureBlock>::empty());
    while i < fixture.blocks.len()
        invariant
            i <= bs.len(),
            bs == fixture.blocks@,
            encoder@ == spec_session_encoder(spec_new_encoder(), bs.take(i as int)),
        decreases bs.len() - i,
    {
        assert(bs.take(i + 1).drop_last() =~= bs.take(i as int));
        assert(bs.take(i + 1).last() == bs[i as int]);
        match &fixture.blocks[i] {
            FixtureBlock::Code { language, path, content, summary } => {
                let lang = parse_lang(language.as_str());
                encoder.add_code(lang, path.as_str(), content.as_str().as_bytes());
                match summary {
                    Some(s) => {
                        let _ = encoder.with_summary(s.as_str());
                    },
                    None => {},
                }
            },
            FixtureBlock::Conversation { role, content } => {
                let r = parse_role(role.as_str());
                encoder.add_conversation(r, content.as_str().as_bytes());
            },
            FixtureBlock::ToolResult { tool_name, status, content, summary } => {
                let st = parse_status(status.as_str());
                encoder.add_tool_result(tool_name.as_str(), st, content.as_str().as_bytes());
                match summary {
                    Some(s) => {
                        let _ = encoder.with_summary(s.as_str());
                    },
                    None => {},
                }
            },
            FixtureBlock::FileTree { root_path, entries } => {
                let converted = convert_entries(entries);
                encoder.add_file_tree(root_path.as_str(), converted);
            },
            FixtureBlock::Document { title, content, format_hint } => {
                let hint = match format_hint {
                    Some(h) => parse_format_hint(h.as_str()),
                    None => FormatHint::Plain,
                };
                encoder.add_document(title.as_str(), content.as_str().as_bytes(), hint);
            },
            FixtureBlock::StructuredData { format, content } => {
                let fmt = parse_data_format(format.as_str());
                encoder.add_structured_data(fmt, content.as_str().as_bytes());
            },
            FixtureBlock::Diff { path, hunks } => {
                let mut converted: Vec<DiffHunk> = Vec::new();
                let mut k: usize = 0;
                while k < hunks.len()
                    invariant
                        k <= hunks@.len(),
                        converted@.len() == k,
                        forall|j: int| 0 <= j < k ==> #[trigger] converted@[j]@ == (DiffHunkModel {
                            old_start: hunks@[j].old_start,
                            new_start: hunks@[j].new_start,
                            lines: encode_utf8(hunks@[j].lines@),
                        }),
                    decreases hunks@.len() - k,
                {
                    let h = &hunks[k];
                    converted.push(DiffHunk {
                        old_start: h.old_start,
                        new_start: h.new_start,
                        lines: vstd::slice::slice_to_vec(h.lines.as_str().as_bytes()),
                    });
                    k = k + 1;
                }
                assert(converted@.map_values(|h: DiffHunk| h@) =~= spec_convert_hunks(hunks@));
                encoder.add_diff(path.as_str(), converted);
            },
        }
        i = i + 1;
    }
    assert(bs.take(i as int) =~= bs);
    encoder.encode()
}

/// Building the encoder of a fixture adds blocks and summaries only.
proof fn lemma_session_plain(bs: Seq<FixtureBlock>)
    ensures
        spec_plain(spec_session_encoder(spec_new_encoder(), bs)),
    decreases bs.len(),
{
    if bs.len() > 0 {
        lemma_session_plain(bs.drop_last());
        let m = spec_session_encoder(spec_new_encoder(), bs.drop_last());
        let m2 = spec_session_block(m, bs.last());
        assert forall|i: int| 0 <= i < m2.blocks.len() implies !(#[trigger] m2.blocks[i]).compress
            && !m2.blocks[i].content_address by {
            if i < m.blocks.len() {
                assert(m2.blocks[i] == m.blocks[i]);
            }
        }
    }
}

/// Decoding what [`encode_session`] produced gives back each block of the
/// session, in order, with the type, summary and content that the
/// fixture's block was turned into.
pub proof fn lemma_session_decodes(bs: Seq<FixtureBlock>)
    requires
        spec_encode(spec_session_encoder(spec_new_encoder(), bs)).0 is Ok,
        forall|i: int|
            0 <= i < spec_session_encoder(spec_new_encoder(), bs).blocks.len() ==> #[trigger] spec_pending_ok(
                spec_session_encoder(spec_new_encoder(), bs).blocks[i],
            ),
        spec_encode(spec_session_encoder(spec_new_encoder(), bs)).0->Ok_0.len() <= usize::MAX,
    ensures
        ({
            let e = spec_session_encoder(spec_new_encoder(), bs);
            spec_decode_payload(spec_encode(e).0->Ok_0, None) matches Ok(pm) && pm.blocks.len() == e.blocks.len()
                && (forall|i: int| 0 <= i < e.blocks.len() ==> #[trigger] spec_block_matches(pm.blocks[i], e.blocks[i]))
        }),
{
    lemma_session_plain(bs);
    lemma_plain_encode_then_decode(spec_session_encoder(spec_new_encoder(), bs));
}

} // verus!
