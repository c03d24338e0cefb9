//! The logic of the command line tool: its arguments, the manifest it
//! encodes, and the names it parses. Reading and writing files stays with
//! the caller.
use vstd::prelude::*;
use vstd::string::{StrSliceExecFns, StringExecFns};
use crate::block::ContentModel;
use crate::block_type::BlockType;
use crate::blocks::{
    AnnotationModel, CodeModel, ConversationModel, DocumentModel, StructuredDataModel,
    ToolResultModel,
};
use crate::budget::{is_whitespace, spec_is_whitespace};
use crate::config::{DriverConfig, OutputMode, Verbosity};
use crate::content_store::MemoryContentStore;
use crate::driver::spec_include;
use crate::encoder::{EncoderModel, LcpEncoder, PendingModel};
use crate::enums::{AnnotationKind, DataFormat, FormatHint, Lang, Priority, Role, Status, spec_priority_byte};
use crate::text::{push_char, spec_to_lowercase, str_eq, to_lowercase};

verus! {

/// Arguments of `inspect`.
#[derive(Debug)]
pub struct InspectArgs {
    pub file: String,
    pub show_body: bool,
    pub show_hex: bool,
    pub block: Option<usize>,
}

/// Arguments of `validate`.
#[derive(Debug)]
pub struct ValidateArgs {
    pub file: String,
}

/// Arguments of `encode`.
#[derive(Debug)]
pub struct EncodeArgs {
    pub input: String,
    pub output: String,
    pub compress_blocks: bool,
    pub compress_payload: bool,
    pub dedup: bool,
}

/// Arguments of `decode`.
#[derive(Debug)]
pub struct DecodeArgs {
    pub file: String,
    pub mode: String,
    pub budget: Option<u32>,
    pub verbosity: String,
    pub include_types: Option<String>,
    pub output: Option<String>,
}

/// Arguments of `stats`.
#[derive(Debug)]
pub struct StatsArgs {
    pub file: String,
}

/// A name on the command line or in a manifest that means nothing, or a
/// manifest block without content.
#[derive(Debug, Clone, PartialEq, Eq)]
pub enum CliError {
    UnknownMode(String),
    UnknownVerbosity(String),
    UnknownBlockType(String),
    UnknownRole(String),
    UnknownStatus(String),
    UnknownPriority(String),
    UnknownFormat(String),
    UnknownDataFormat(String),
    /// A block of this type has neither inline content nor a content file.
    MissingContent(String),
}

/// The view of a [`CliError`].
pub enum CliErrorView {
    UnknownMode(Seq<char>),
    UnknownVerbosity(Seq<char>),
    UnknownBlockType(Seq<char>),
    UnknownRole(Seq<char>),
    UnknownStatus(Seq<char>),
    UnknownPriority(Seq<char>),
    UnknownFormat(Seq<char>),
    UnknownDataFormat(Seq<char>),
    MissingContent(Seq<char>),
}

impl View for CliError {
    type V = CliErrorView;

    open spec fn view(&self) -> CliErrorView {
        match self {
            CliError::UnknownMode(s) => CliErrorView::UnknownMode(s@),
            CliError::UnknownVerbosity(s) => CliErrorView::UnknownVerbosity(s@),
            CliError::UnknownBlockType(s) => CliErrorView::UnknownBlockType(s@),
            CliError::UnknownRole(s) => CliErrorView::UnknownRole(s@),
            CliError::UnknownStatus(s) => CliErrorView::UnknownStatus(s@),
            CliError::UnknownPriority(s) => CliErrorView::UnknownPriority(s@),
            CliError::UnknownFormat(s) => CliErrorView::UnknownFormat(s@),
            CliError::UnknownDataFormat(s) => CliErrorView::UnknownDataFormat(s@),
            CliError::MissingContent(s) => CliErrorView::MissingContent(s@),
        }
    }
}

/// The output mode a command line names (case-insensitive).
pub open spec fn spec_parse_output_mode(l: Seq<char>) -> Option<OutputMode> {
    if l == "xml"@ {
        Some(OutputMode::Xml)
    } else if l == "markdown"@ || l == "md"@ {
        Some(OutputMode::Markdown)
    } else if l == "minimal"@ {
        Some(OutputMode::Minimal)
    } else {
        None
    }
}

/// The output mode a command line names (case-insensitive).
///
/// # Errors
///
/// `UnknownMode` with the text when it names none.
pub fn parse_output_mode(s: &str) -> (r: Result<OutputMode, CliError>)
    ensures
        r matches Ok(x) ==> spec_parse_output_mode(spec_to_lowercase(s@)) == Some(x),
        r matches Err(e) ==> (spec_parse_output_mode(spec_to_lowercase(s@)) is None && e@ == CliErrorView::UnknownMode(s@)),
{
    let lower = to_lowercase(s);
    let l = lower.as_str();
    if str_eq(l, "xml") {
        Ok(OutputMode::Xml)
    } else if str_eq(l, "markdown") || str_eq(l, "md") {
        Ok(OutputMode::Markdown)
    } else if str_eq(l, "minimal") {
        Ok(OutputMode::Minimal)
    } else {
        Err(CliError::UnknownMode(String::from_str(s)))
    }
}

/// The verbosity a command line names (case-insensitive).
pub open spec fn spec_parse_verbosity(l: Seq<char>) -> Option<Verbosity> {
    if l == "full"@ {
        Some(Verbosity::Full)
    } else if l == "summary"@ {
        Some(Verbosity::Summary)
    } else if l == "adaptive"@ {
        Some(Verbosity::Adaptive)
    } else {
        None
    }
}

/// The verbosity a command line names (case-insensitive).
///
/// # Errors
///
/// `UnknownVerbosity` with the text when it names none.
pub fn parse_verbosity(s: &str) -> (r: Result<Verbosity, CliError>)
    ensures
        r matches Ok(x) ==> spec_parse_verbosity(spec_to_lowercase(s@)) == Some(x),
        r matches Err(e) ==> (spec_parse_verbosity(spec_to_lowercase(s@)) is None && e@ == CliErrorView::UnknownVerbosity(s@)),
{
    let lower = to_lowercase(s);
    let l = lower.as_str();
    if str_eq(l, "full") {
        Ok(Verbosity::Full)
    } else if str_eq(l, "summary") {
        Ok(Verbosity::Summary)
    } else if str_eq(l, "adaptive") {
        Ok(Verbosity::Adaptive)
    } else {
        Err(CliError::UnknownVerbosity(String::from_str(s)))
    }
}

/// The language a manifest names (case-insensitive); `Unknown` for others.
pub open spec fn spec_parse_lang(l: Seq<char>) -> Lang {
    if l == "rust"@ {
        Lang::Rust
    } else if l == "typescript"@ || l == "ts"@ {
        Lang::TypeScript
    } else if l == "javascript"@ || l == "js"@ {
        Lang::JavaScript
    } else if l == "python"@ || l == "py"@ {
        Lang::Python
    } else if l == "go"@ {
        Lang::Go
    } else if l == "java"@ {
        Lang::Java
    } else if l == "c"@ {
        Lang::C
    } else if l == "cpp"@ || l == "c++"@ {
        Lang::Cpp
    } else if l == "ruby"@ || l == "rb"@ {
        Lang::Ruby
    } else if l == "shell"@ || l == "sh"@ || l == "bash"@ {
        Lang::Shell
    } else if l == "sql"@ {
        Lang::Sql
    } else if l == "html"@ {
        Lang::Html
    } else if l == "css"@ {
        Lang::Css
    } else if l == "json"@ {
        Lang::Json
    } else if l == "yaml"@ || l == "yml"@ {
        Lang::Yaml
    } else if l == "toml"@ {
        Lang::Toml
    } else if l == "markdown"@ || l == "md"@ {
        Lang::Markdown
    } else {
        Lang::Unknown
    }
}

/// The language a manifest names (case-insensitive); `Unknown` for others.
pub fn parse_lang(s: &str) -> (r: Lang)
    ensures
        r == spec_parse_lang(spec_to_lowercase(s@)),
{
    let lower = to_lowercase(s);
    let l = lower.as_str();
    if str_eq(l, "rust") {
        Lang::Rust
    } else if str_eq(l, "typescript") || str_eq(l, "ts") {
        Lang::TypeScript
    } else if str_eq(l, "javascript") || str_eq(l, "js") {
        Lang::JavaScript
    } else if str_eq(l, "python") || str_eq(l, "py") {
        Lang::Python
    } else if str_eq(l, "go") {
        Lang::Go
    } else if str_eq(l, "java") {
        Lang::Java
    } else if str_eq(l, "c") {
        Lang::C
    } else if str_eq(l, "cpp") || str_eq(l, "c++") {
        Lang::Cpp
    } else if str_eq(l, "ruby") || str_eq(l, "rb") {
        Lang::Ruby
    } else if str_eq(l, "shell") || str_eq(l, "sh") || str_eq(l, "bash") {
        Lang::Shell
    } else if str_eq(l, "sql") {
        Lang::Sql
    } else if str_eq(l, "html") {
        Lang::Html
    } else if str_eq(l, "css") {
        Lang::Css
    } else if str_eq(l, "json") {
        Lang::Json
    } else if str_eq(l, "yaml") || str_eq(l, "yml") {
        Lang::Yaml
    } else if str_eq(l, "toml") {
        Lang::Toml
    } else if str_eq(l, "markdown") || str_eq(l, "md") {
        Lang::Markdown
    } else {
        Lang::Unknown
    }
}

/// The role a manifest names (case-insensitive).
pub open spec fn spec_parse_role(l: Seq<char>) -> Option<Role> {
    if l == "system"@ {
        Some(Role::System)
    } else if l == "user"@ {
        Some(Role::User)
    } else if l == "assistant"@ {
        Some(Role::Assistant)
    } else if l == "tool"@ {
        Some(Role::Tool)
    } else {
        None
    }
}

/// The role a manifest names (case-insensitive).
///
/// # Errors
///
/// `UnknownRole` with the text when it names none.
pub fn parse_role(s: &str) -> (r: Result<Role, CliError>)
    ensures
        r matches Ok(x) ==> spec_parse_role(spec_to_lowercase(s@)) == Some(x),
        r matches Err(e) ==> (spec_parse_role(spec_to_lowercase(s@)) is None && e@ == CliErrorView::UnknownRole(s@)),
{
    let lower = to_lowercase(s);
    let l = lower.as_str();
    if str_eq(l, "system") {
        Ok(Role::System)
    } else if str_eq(l, "user") {
        Ok(Role::User)
    } else if str_eq(l, "assistant") {
        Ok(Role::Assistant)
    } else if str_eq(l, "tool") {
        Ok(Role::Tool)
    } else {
        Err(CliError::UnknownRole(String::from_str(s)))
    }
}

/// The tool status a manifest names (case-insensitive).
pub open spec fn spec_parse_status(l: Seq<char>) -> Option<Status> {
    if l == "ok"@ {
        Some(Status::Success)
    } else if l == "error"@ || l == "err"@ {
        Some(Status::Error)
    } else if l == "timeout"@ {
        Some(Status::Timeout)
    } else {
        None
    }
}

/// The tool status a manifest names (case-insensitive).
///
/// # Errors
///
/// `UnknownStatus` with the text when it names none.
pub fn parse_status(s: &str) -> (r: Result<Status, CliError>)
    ensures
        r matches Ok(x) ==> spec_parse_status(spec_to_lowercase(s@)) == Some(x),
        r matches Err(e) ==> (spec_parse_status(spec_to_lowercase(s@)) is None && e@ == CliErrorView::UnknownStatus(s@)),
{
    let lower = to_lowercase(s);
    let l = lower.as_str();
    if str_eq(l, "ok") {
        Ok(Status::Success)
    } else if str_eq(l, "error") || str_eq(l, "err") {
        Ok(Status::Error)
    } else if str_eq(l, "timeout") {
        Ok(Status::Timeout)
    } else {
        Err(CliError::UnknownStatus(String::from_str(s)))
    }
}

/// The priority a manifest names (case-insensitive).
pub open spec fn spec_parse_priority(l: Seq<char>) -> Option<Priority> {
    if l == "critical"@ {
        Some(Priority::Critical)
    } else if l == "high"@ {
        Some(Priority::High)
    } else if l == "normal"@ {
        Some(Priority::Normal)
    } else if l == "low"@ {
        Some(Priority::Low)
    } else if l == "background"@ {
        Some(Priority::Background)
    } else {
        None
    }
}

/// The priority a manifest names (case-insensitive).
///
/// # Errors
///
/// `UnknownPriority` with the text when it names none.
pub fn parse_priority(s: &str) -> (r: Result<Priority, CliError>)
    ensures
        r matches Ok(x) ==> spec_parse_priority(spec_to_lowercase(s@)) == Some(x),
        r matches Err(e) ==> (spec_parse_priority(spec_to_lowercase(s@)) is None && e@ == CliErrorView::UnknownPriority(s@)),
{
    let lower = to_lowercase(s);
    let l = lower.as_str();
    if str_eq(l, "critical") {
        Ok(Priority::Critical)
    } else if str_eq(l, "high") {
        Ok(Priority::High)
    } else if str_eq(l, "normal") {
        Ok(Priority::Normal)
    } else if str_eq(l, "low") {
        Ok(Priority::Low)
    } else if str_eq(l, "background") {
        Ok(Priority::Background)
    } else {
        Err(CliError::UnknownPriority(String::from_str(s)))
    }
}

/// The document format a manifest names (case-insensitive).
pub open spec fn spec_parse_format_hint(l: Seq<char>) -> Option<FormatHint> {
    if l == "markdown"@ || l == "md"@ {
        Some(FormatHint::Markdown)
    } else if l == "plain"@ || l == "text"@ || l == "txt"@ {
        Some(FormatHint::Plain)
    } else if l == "html"@ {
        Some(FormatHint::Html)
    } else {
        None
    }
}

/// The document format a manifest names (case-insensitive).
///
/// # Errors
///
/// `UnknownFormat` with the text when it names none.
pub fn parse_format_hint(s: &str) -> (r: Result<FormatHint, CliError>)
    ensures
        r matches Ok(x) ==> spec_parse_format_hint(spec_to_lowercase(s@)) == Some(x),
        r matches Err(e) ==> (spec_parse_format_hint(spec_to_lowercase(s@)) is None && e@ == CliErrorView::UnknownFormat(s@)),
{
    let lower = to_lowercase(s);
    let l = lower.as_str();
    if str_eq(l, "markdown") || str_eq(l, "md") {
        Ok(FormatHint::Markdown)
    } else if str_eq(l, "plain") || str_eq(l, "text") || str_eq(l, "txt") {
        Ok(FormatHint::Plain)
    } else if str_eq(l, "html") {
        Ok(FormatHint::Html)
    } else {
        Err(CliError::UnknownFormat(String::from_str(s)))
    }
}

/// The data format a manifest names (case-insensitive).
pub open spec fn spec_parse_data_format(l: Seq<char>) -> Option<DataFormat> {
    if l == "json"@ {
        Some(DataFormat::Json)
    } else if l == "yaml"@ || l == "yml"@ {
        Some(DataFormat::Yaml)
    } else if l == "toml"@ {
        Some(DataFormat::Toml)
    } else if l == "csv"@ {
        Some(DataFormat::Csv)
    } else {
        None
    }
}

/// The data format a manifest names (case-insensitive).
///
/// # Errors
///
/// `UnknownDataFormat` with the text when it names none.
pub fn parse_data_format(s: &str) -> (r: Result<DataFormat, CliError>)
    ensures
        r matches Ok(x) ==> spec_parse_data_format(spec_to_lowercase(s@)) == Some(x),
        r matches Err(e) ==> (spec_parse_data_format(spec_to_lowercase(s@)) is None && e@ == CliErrorView::UnknownDataFormat(s@)),
{
    let lower = to_lowercase(s);
    let l = lower.as_str();
    if str_eq(l, "json") {
        Ok(DataFormat::Json)
    } else if str_eq(l, "yaml") || str_eq(l, "yml") {
        Ok(DataFormat::Yaml)
    } else if str_eq(l, "toml") {
        Ok(DataFormat::Toml)
    } else if str_eq(l, "csv") {
        Ok(DataFormat::Csv)
    } else {
        Err(CliError::UnknownDataFormat(String::from_str(s)))
    }
}

/// The block type a command line names (case-insensitive).
pub open spec fn spec_parse_block_type(l: Seq<char>) -> Option<BlockType> {
    if l == "code"@ {
        Some(BlockType::Code)
    } else if l == "conversation"@ {
        Some(BlockType::Conversation)
    } else if l == "file_tree"@ || l == "filetree"@ {
        Some(BlockType::FileTree)
    } else if l == "tool_result"@ || l == "toolresult"@ {
        Some(BlockType::ToolResult)
    } else if l == "document"@ {
        Some(BlockType::Document)
    } else if l == "structured_data"@ || l == "structureddata"@ {
        Some(BlockType::StructuredData)
    } else if l == "diff"@ {
        Some(BlockType::Diff)
    } else if l == "annotation"@ {
        Some(BlockType::Annotation)
    } else if l == "embedding_ref"@ || l == "embeddingref"@ {
        Some(BlockType::EmbeddingRef)
    } else if l == "image"@ {
        Some(BlockType::Image)
    } else if l == "extension"@ {
        Some(BlockType::Extension)
    } else {
        None
    }
}

/// The block type a command line names (case-insensitive).
pub fn parse_block_type(s: &str) -> (r: Option<BlockType>)
    ensures
        r == spec_parse_block_type(spec_to_lowercase(s@)),
{
    let lower = to_lowercase(s);
    let l = lower.as_str();
    if str_eq(l, "code") {
        Some(BlockType::Code)
    } else if str_eq(l, "conversation") {
        Some(BlockType::Conversation)
    } else if str_eq(l, "file_tree") || str_eq(l, "filetree") {
        Some(BlockType::FileTree)
    } else if str_eq(l, "tool_result") || str_eq(l, "toolresult") {
        Some(BlockType::ToolResult)
    } else if str_eq(l, "document") {
        Some(BlockType::Document)
    } else if str_eq(l, "structured_data") || str_eq(l, "structureddata") {
        Some(BlockType::StructuredData)
    } else if str_eq(l, "diff") {
        Some(BlockType::Diff)
    } else if str_eq(l, "annotation") {
        Some(BlockType::Annotation)
    } else if str_eq(l, "embedding_ref") || str_eq(l, "embeddingref") {
        Some(BlockType::EmbeddingRef)
    } else if str_eq(l, "image") {
        Some(BlockType::Image)
    } else if str_eq(l, "extension") {
        Some(BlockType::Extension)
    } else {
        None
    }
}

/// Leading white space removed.
pub open spec fn spec_trim_start(s: Seq<char>) -> Seq<char>
    decreases s.len(),
{
    if s.len() > 0 && spec_is_whitespace(s[0]) {
        spec_trim_start(s.drop_first())
    } else {
        s
    }
}

/// Trailing white space removed.
pub open spec fn spec_trim_end(s: Seq<char>) -> Seq<char>
    decreases s.len(),
{
    if s.len() > 0 && spec_is_whitespace(s.last()) {
        spec_trim_end(s.drop_last())
    } else {
        s
    }
}

/// White space removed at both ends (as `str::trim`).
pub open spec fn spec_trim(s: Seq<char>) -> Seq<char> {
    spec_trim_end(spec_trim_start(s))
}

proof fn lemma_trim_start_skip(s: Seq<char>, i: int)
    requires
        0 <= i <= s.len(),
        forall|j: int| 0 <= j < i ==> spec_is_whitespace(#[trigger] s[j]),
    ensures
        spec_trim_start(s) == spec_trim_start(s.subrange(i, s.len() as int)),
    decreases i,
{
    if i > 0 {
        assert(s.drop_first().subrange(i - 1, s.drop_first().len() as int) =~= s.subrange(i, s.len() as int));
        assert forall|j: int| 0 <= j < i - 1 implies spec_is_whitespace(#[trigger] s.drop_first()[j]) by {
            assert(s.drop_first()[j] == s[j + 1]);
        }
        lemma_trim_start_skip(s.drop_first(), i - 1);
    } else {
        assert(s.subrange(0, s.len() as int) =~= s);
    }
}

proof fn lemma_trim_end_skip(s: Seq<char>, j: int)
    requires
        0 <= j <= s.len(),
        forall|k: int| j <= k < s.len() ==> spec_is_whitespace(#[trigger] s[k]),
    ensures
        spec_trim_end(s) == spec_trim_end(s.subrange(0, j)),
    decreases s.len() - j,
{
    if j < s.len() {
        assert(s.drop_last().subrange(0, j) =~= s.subrange(0, j));
        assert forall|k: int| j <= k < s.drop_last().len() implies spec_is_whitespace(#[trigger] s.drop_last()[k]) by {
            assert(s.drop_last()[k] == s[k]);
        }
        lemma_trim_end_skip(s.drop_last(), j);
    } else {
        assert(s.subrange(0, j) =~= s);
    }
}

/// `s` with white space removed at both ends.
pub fn trim(s: &str) -> (r: &str)
    ensures
        r@ == spec_trim(s@),
{
    let n = s.unicode_len();
    let mut i: usize = 0;
    while i < n && is_whitespace(s.get_char(i))
        invariant
            i <= n,
            n == s@.len(),
            forall|j: int| 0 <= j < i ==> spec_is_whitespace(#[trigger] s@[j]),
        decreases n - i,
    {
        i = i + 1;
    }
    proof {
        lemma_trim_start_skip(s@, i as int);
        let t = s@.subrange(i as int, n as int);
        if i < n {
            assert(!spec_is_whitespace(t[0]));
        }
    }
    let mut j: usize = n;
    while j > i && is_whitespace(s.get_char(j - 1))
        invariant
            i <= j <= n,
            n == s@.len(),
            forall|k: int| j <= k < n ==> spec_is_whitespace(#[trigger] s@[k]),
        decreases j,
    {
        j = j - 1;
    }
    proof {
        let t = s@.subrange(i as int, n as int);
        assert(spec_trim_start(s@) == t);
        assert forall|k: int| j - i <= k < t.len() implies spec_is_whitespace(#[trigger] t[k]) by {
            assert(t[k] == s@[k + i]);
        }
        lemma_trim_end_skip(t, j - i);
        let u = t.subrange(0, j - i);
        assert(u =~= s@.subrange(i as int, j as int));
        if j > i {
            assert(u.last() == s@[j - 1]);
        }
    }
    s.substring_char(i, j)
}

/// The block types of a comma-separated list read so far: the types of
/// the non-empty trimmed tokens, or the first token that names no type;
/// and the token being read.
pub open spec fn spec_finish_token(acc: Result<Seq<BlockType>, Seq<char>>, cur: Seq<char>) -> Result<Seq<BlockType>, Seq<char>> {
    match acc {
        Err(t) => Err(t),
        Ok(ts) => {
            let t = spec_trim(cur);
            if t.len() == 0 {
                Ok(ts)
            } else {
                match spec_parse_block_type(spec_to_lowercase(t)) {
                    Some(bt) => Ok(ts.push(bt)),
                    None => Err(t),
                }
            }
        },
    }
}

/// Scanning a comma-separated list: the result for the tokens closed so
/// far and the characters of the open token.
pub open spec fn spec_scan_types(s: Seq<char>) -> (Result<Seq<BlockType>, Seq<char>>, Seq<char>)
    decreases s.len(),
{
    if s.len() == 0 {
        (Ok(Seq::empty()), Seq::empty())
    } else {
        let (acc, cur) = spec_scan_types(s.drop_last());
        if s.last() == ',' {
            (spec_finish_token(acc, cur), Seq::empty())
        } else {
            (acc, cur.push(s.last()))
        }
    }
}

/// The block types a comma-separated list names; blank tokens are skipped.
pub open spec fn spec_include_types(s: Seq<char>) -> Result<Seq<BlockType>, Seq<char>> {
    let (acc, cur) = spec_scan_types(s);
    spec_finish_token(acc, cur)
}

fn finish_token(acc: &mut Vec<BlockType>, cur: &str) -> (r: Result<(), CliError>)
    ensures
        spec_finish_token(Ok(old(acc)@), cur@) matches Ok(ts) ==> r is Ok && final(acc)@ == ts,
        spec_finish_token(Ok(old(acc)@), cur@) matches Err(t) ==> (r matches Err(e) && e@ == CliErrorView::UnknownBlockType(t)),
{
    let t = trim(cur);
    if t.unicode_len() == 0 {
        return Ok(());
    }
    match parse_block_type(t) {
        Some(bt) => {
            acc.push(bt);
            Ok(())
        },
        None => Err(CliError::UnknownBlockType(String::from_str(t))),
    }
}

/// Parse a comma-separated list of block type names.
///
/// # Errors
///
/// `UnknownBlockType` with the first trimmed token that names no type.
pub fn parse_include_types(s: &str) -> (r: Result<Vec<BlockType>, CliError>)
    ensures
        spec_include_types(s@) matches Ok(ts) ==> (r matches Ok(v) && v@ == ts),
        spec_include_types(s@) matches Err(t) ==> (r matches Err(e) && e@ == CliErrorView::UnknownBlockType(t)),
{
    let n = s.unicode_len();
    let mut acc: Vec<BlockType> = Vec::new();
    let mut cur = String::new();
    let mut i: usize = 0;
    assert(s@.take(0) =~= Seq::<char>::empty());
    while i < n
        invariant
            i <= n,
            n == s@.len(),
            spec_scan_types(s@.take(i as int)) == (Ok::<Seq<BlockType>, Seq<char>>(acc@), cur@),
        decreases n - i,
    {
        let c = s.get_char(i);
        assert(s@.take(i + 1).drop_last() =~= s@.take(i as int));
        if c == ',' {
            match finish_token(&mut acc, cur.as_str()) {
                Ok(()) => {},
                Err(e) => {
                    proof {
                        lemma_scan_error_stays(s@, (i + 1) as nat);
                    }
                    return Err(e);
                },
            }
            cur = String::new();
        } else {
            push_char(&mut cur, c);
        }
        i = i + 1;
    }
    assert(s@.take(i as int) =~= s@);
    match finish_token(&mut acc, cur.as_str()) {
        Ok(()) => Ok(acc),
        Err(e) => Err(e),
    }
}

/// Once a token names no type, the result of the list is that error.
proof fn lemma_scan_error_stays(s: Seq<char>, k: nat)
    requires
        k <= s.len(),
        spec_scan_types(s.take(k as int)).0 is Err,
    ensures
        spec_scan_types(s).0 == spec_scan_types(s.take(k as int)).0,
        spec_include_types(s) == spec_scan_types(s.take(k as int)).0,
    decreases s.len() - k,
{
    if k < s.len() {
        assert(s.take((k + 1) as int).drop_last() =~= s.take(k as int));
        lemma_scan_error_stays(s, k + 1);
    } else {
        assert(s.take(k as int) =~= s);
    }
}

/// A manifest: the blocks to encode.
#[derive(Debug)]
pub struct Manifest {
    pub blocks: Vec<ManifestBlock>,
}

/// One block of a manifest, with its fields as the JSON gives them.
#[derive(Debug)]
#[allow(inconsistent_fields)]
pub enum ManifestBlock {
    Code {
        lang: String,
        path: String,
        content: Option<String>,
        content_file: Option<String>,
        summary: Option<String>,
        priority: Option<String>,
    },
    Conversation {
        role: String,
        content: Option<String>,
        content_file: Option<String>,
        summary: Option<String>,
        priority: Option<String>,
    },
    ToolResult { name: String, status: Option<String>, content: Option<String>, content_file: Option<String> },
    Document {
        title: String,
        format: Option<String>,
        content: Option<String>,
        content_file: Option<String>,
        summary: Option<String>,
        priority: Option<String>,
    },
    StructuredData { format: String, content: Option<String>, content_file: Option<String> },
}

/// Where the content of a manifest block comes from.
#[derive(Debug, PartialEq, Eq)]
pub enum ContentSource {
    /// The content given inline, as UTF-8 bytes.
    Inline(Vec<u8>),
    /// A file to read, relative to the manifest.
    File(String),
}

/// The source of a block's content: inline content first, else a content
/// file.
///
/// # Errors
///
/// `MissingContent` with the block type when there is neither.
pub fn content_source(content: Option<&str>, content_file: Option<&str>, block_type: &str) -> (r: Result<ContentSource, CliError>)
    ensures
        content matches Some(t) ==> (r matches Ok(ContentSource::Inline(b)) && b@ == vstd::utf8::encode_utf8(t@)),
        content is None ==> (content_file matches Some(f) ==> (r matches Ok(ContentSource::File(p)) && p@ == f@)),
        content is None && content_file is None ==> (r matches Err(e) && e@ == CliErrorView::MissingContent(block_type@)),
{
    match content {
        Some(t) => Ok(ContentSource::Inline(vstd::slice::slice_to_vec(t.as_bytes()))),
        None => match content_file {
            Some(f) => Ok(ContentSource::File(String::from_str(f))),
            None => Err(CliError::MissingContent(String::from_str(block_type))),
        },
    }
}

/// The encoder after a priority annotation on its last block.
pub open spec fn spec_with_priority(m: EncoderModel, p: Priority) -> EncoderModel {
    m.with_block(ContentModel::Annotation(AnnotationModel {
        target_block_id: (m.blocks.len() - 1) as u32,
        kind: AnnotationKind::Priority,
        value: seq![spec_priority_byte(p)],
    }))
}

/// The encoder after a block's summary and priority, and the outcome.
pub open spec fn spec_apply_meta(m: EncoderModel, summary: Option<Seq<char>>, priority: Option<Seq<char>>) -> (EncoderModel, Result<(), CliErrorView>) {
    let m1 = match summary {
        Some(s) => m.with_last(PendingModel { summary: Some(s), ..m.blocks.last() }),
        None => m,
    };
    match priority {
        None => (m1, Ok(())),
        Some(p) => match spec_parse_priority(spec_to_lowercase(p)) {
            None => (m1, Err(CliErrorView::UnknownPriority(p))),
            Some(pr) => (spec_with_priority(m1, pr), Ok(())),
        },
    }
}

/// The view of an optional string.
pub open spec fn spec_opt(s: Option<&str>) -> Option<Seq<char>> {
    match s {
        Some(t) => Some(t@),
        None => None,
    }
}

/// Attach a block's summary, then its priority, to the last block.
///
/// # Errors
///
/// `UnknownPriority` for a priority that names none; the summary is
/// attached by then.
pub fn apply_meta(encoder: &mut LcpEncoder, summary: Option<&str>, priority: Option<&str>) -> (r: Result<(), CliError>)
    requires
        old(encoder)@.blocks.len() > 0,
    ensures
        final(encoder)@ == spec_apply_meta(old(encoder)@, spec_opt(summary), spec_opt(priority)).0,
        r matches Ok(()) ==> spec_apply_meta(old(encoder)@, spec_opt(summary), spec_opt(priority)).1 is Ok,
        r matches Err(e) ==> spec_apply_meta(old(encoder)@, spec_opt(summary), spec_opt(priority)).1 == Err::<(), CliErrorView>(e@),
{
    match summary {
        Some(s) => {
            let _ = encoder.with_summary(s);
        },
        None => {},
    }
    match priority {
        Some(p) => {
            let pr = match parse_priority(p) {
                Ok(x) => x,
                Err(e) => return Err(e),
            };
            encoder.with_priority(pr);
            Ok(())
        },
        None => Ok(()),
    }
}

/// The view of an optional owned string.
pub open spec fn spec_opt_string(s: Option<String>) -> Option<Seq<char>> {
    match s {
        Some(t) => Some(t@),
        None => None,
    }
}

/// The encoder after adding a manifest block with this content, and the
/// outcome.
pub open spec fn spec_apply_block(m: EncoderModel, b: ManifestBlock, bytes: Seq<u8>) -> (EncoderModel, Result<(), CliErrorView>) {
    match b {
        ManifestBlock::Code { lang, path, summary, priority, .. } => spec_apply_meta(
            m.with_block(ContentModel::Code(CodeModel {
                lang: spec_parse_lang(spec_to_lowercase(lang@)),
                path: path@,
                content: bytes,
                line_range: None,
            })),
            spec_opt_string(summary),
            spec_opt_string(priority),
        ),
        ManifestBlock::Conversation { role, summary, priority, .. } => match spec_parse_role(spec_to_lowercase(role@)) {
            None => (m, Err(CliErrorView::UnknownRole(role@))),
            Some(r) => spec_apply_meta(
                m.with_block(ContentModel::Conversation(ConversationModel { role: r, content: bytes, tool_call_id: None })),
                spec_opt_string(summary),
                spec_opt_string(priority),
            ),
        },
        ManifestBlock::ToolResult { name, status, .. } => match status {
            Some(st) => match spec_parse_status(spec_to_lowercase(st@)) {
                None => (m, Err(CliErrorView::UnknownStatus(st@))),
                Some(s) => (m.with_block(ContentModel::ToolResult(ToolResultModel {
                    tool_name: name@,
                    status: s,
                    content: bytes,
                    schema_hint: None,
                })), Ok(())),
            },
            None => (m.with_block(ContentModel::ToolResult(ToolResultModel {
                tool_name: name@,
                status: Status::Success,
                content: bytes,
                schema_hint: None,
            })), Ok(())),
        },
        ManifestBlock::Document { title, format, summary, priority, .. } => match format {
            Some(f) => match spec_parse_format_hint(spec_to_lowercase(f@)) {
                None => (m, Err(CliErrorView::UnknownFormat(f@))),
                Some(h) => spec_apply_meta(
                    m.with_block(ContentModel::Document(DocumentModel { title: title@, content: bytes, format_hint: h })),
                    spec_opt_string(summary),
                    spec_opt_string(priority),
                ),
            },
            None => spec_apply_meta(
                m.with_block(ContentModel::Document(DocumentModel {
                    title: title@,
                    content: bytes,
                    format_hint: FormatHint::Markdown,
                })),
                spec_opt_string(summary),
                spec_opt_string(priority),
            ),
        },
        ManifestBlock::StructuredData { format, .. } => match spec_parse_data_format(spec_to_lowercase(format@)) {
            None => (m, Err(CliErrorView::UnknownDataFormat(format@))),
            Some(f) => (m.with_block(ContentModel::StructuredData(StructuredDataModel {
                format: f,
                content: bytes,
                schema: None,
            })), Ok(())),
        },
    }
}

fn opt_str(s: &Option<String>) -> (r: Option<&str>)
    ensures
        spec_opt(r) == spec_opt_string(*s),
{
    match s {
        Some(t) => Some(t.as_str()),
        None => None,
    }
}

/// Add one manifest block, whose content has been read already, with its
/// summary and priority.
///
/// # Errors
///
/// `UnknownRole`, `UnknownStatus`, `UnknownFormat`, `UnknownDataFormat`
/// or `UnknownPriority` for a name that means nothing.
pub fn apply_block(encoder: &mut LcpEncoder, block: &ManifestBlock, bytes: &[u8]) -> (r: Result<(), CliError>)
    ensures
        final(encoder)@ == spec_apply_block(old(encoder)@, *block, bytes@).0,
        r matches Ok(()) ==> spec_apply_block(old(encoder)@, *block, bytes@).1 is Ok,
        r matches Err(e) ==> spec_apply_block(old(encoder)@, *block, bytes@).1 == Err::<(), CliErrorView>(e@),
{
    match block {
        ManifestBlock::Code { lang, path, summary, priority, .. } => {
            let l = parse_lang(lang.as_str());
            encoder.add_code(l, path.as_str(), bytes);
            apply_meta(encoder, opt_str(summary), opt_str(priority))
        },
        ManifestBlock::Conversation { role, summary, priority, .. } => {
            let r = match parse_role(role.as_str()) {
                Ok(x) => x,
                Err(e) => return Err(e),
            };
            encoder.add_conversation(r, bytes);
            apply_meta(encoder, opt_str(summary), opt_str(priority))
        },
        ManifestBlock::ToolResult { name, status, .. } => {
            let s = match status {
                Some(st) => match parse_status(st.as_str()) {
                    Ok(x) => x,
                    Err(e) => return Err(e),
                },
                None => Status::Success,
            };
            encoder.add_tool_result(name.as_str(), s, bytes);
            Ok(())
        },
        ManifestBlock::Document { title, format, summary, priority, .. } => {
            let h = match format {
                Some(f) => match parse_format_hint(f.as_str()) {
                    Ok(x) => x,
                    Err(e) => return Err(e),
                },
                None => FormatHint::Markdown,
            };
            encoder.add_document(title.as_str(), bytes, h);
            apply_meta(encoder, opt_str(summary), opt_str(priority))
        },
        ManifestBlock::StructuredData { format, .. } => {
            let f = match parse_data_format(format.as_str()) {
                Ok(x) => x,
                Err(e) => return Err(e),
            };
            encoder.add_structured_data(f, bytes);
            Ok(())
        },
    }
}

/// The renderer settings that the `decode` arguments ask for: mode,
/// verbosity and type filter, or the first of them that names nothing.
pub open spec fn spec_decode_settings(mode: Seq<char>, verbosity: Seq<char>, filter: Option<Seq<char>>) -> Result<
    (OutputMode, Verbosity, Option<Seq<BlockType>>),
    CliErrorView,
> {
    match spec_parse_output_mode(spec_to_lowercase(mode)) {
        None => Err(CliErrorView::UnknownMode(mode)),
        Some(m) => match spec_parse_verbosity(spec_to_lowercase(verbosity)) {
            None => Err(CliErrorView::UnknownVerbosity(verbosity)),
            Some(v) => match filter {
                None => Ok((m, v, None)),
                Some(s) => match spec_include_types(s) {
                    Ok(ts) => Ok((m, v, Some(ts))),
                    Err(t) => Err(CliErrorView::UnknownBlockType(t)),
                },
            },
        },
    }
}

/// The renderer configuration of the `decode` command: the mode,
/// verbosity and type filter its arguments name, and its token budget.
///
/// # Errors
///
/// `UnknownMode`, `UnknownVerbosity` or `UnknownBlockType` for the first
/// argument, in that order, that names nothing.
pub fn decode_config(args: &DecodeArgs) -> (r: Result<DriverConfig, CliError>)
    ensures
        r matches Ok(c) ==> spec_decode_settings(args.mode@, args.verbosity@, spec_opt_string(args.include_types))
            == Ok::<(OutputMode, Verbosity, Option<Seq<BlockType>>), CliErrorView>(
            (c.mode, c.verbosity, spec_include(&c)),
        ) && c.token_budget == args.budget && c.target_model is None,
        r matches Err(e) ==> spec_decode_settings(args.mode@, args.verbosity@, spec_opt_string(args.include_types))
            == Err::<(OutputMode, Verbosity, Option<Seq<BlockType>>), CliErrorView>(e@),
{
    let mode = match parse_output_mode(args.mode.as_str()) {
        Ok(m) => m,
        Err(e) => return Err(e),
    };
    let verbosity = match parse_verbosity(args.verbosity.as_str()) {
        Ok(v) => v,
        Err(e) => return Err(e),
    };
    let include_types = match &args.include_types {
        None => None,
        Some(s) => match parse_include_types(s.as_str()) {
            Ok(ts) => Some(ts),
            Err(e) => return Err(e),
        },
    };
    Ok(DriverConfig { mode, target_model: None, include_types, verbosity, token_budget: args.budget })
}

/// The encoder the `encode` command starts from: with a fresh in-memory
/// store and deduplication when asked for, compressing every block or the
/// whole payload when asked for.
pub fn manifest_encoder(dedup: bool, compress_blocks: bool, compress_payload: bool) -> (e: LcpEncoder)
    ensures
        e@ == (EncoderModel {
            blocks: Seq::empty(),
            flags: 0,
            compress_payload,
            compress_all_blocks: compress_blocks,
            store: if dedup { Some(Map::empty()) } else { None },
            auto_dedup: dedup,
        }),
{
    let mut encoder = LcpEncoder::new();
    if dedup {
        let store = MemoryContentStore::new();
        encoder.set_content_store(store);
        encoder.auto_dedup();
    }
    if compress_blocks {
        encoder.compress_blocks();
        assert(encoder@.blocks =~= Seq::<PendingModel>::empty());
    }
    if compress_payload {
        encoder.compress_payload();
    }
    encoder
}

/// The inline content of a manifest block, if any.
pub open spec fn spec_block_content(b: ManifestBlock) -> Option<Seq<char>> {
    match b {
        ManifestBlock::Code { content, .. } => spec_opt_string(content),
        ManifestBlock::Conversation { content, .. } => spec_opt_string(content),
        ManifestBlock::ToolResult { content, .. } => spec_opt_string(content),
        ManifestBlock::Document { content, .. } => spec_opt_string(content),
        ManifestBlock::StructuredData { content, .. } => spec_opt_string(content),
    }
}

/// The content file of a manifest block, if any.
pub open spec fn spec_block_file(b: ManifestBlock) -> Option<Seq<char>> {
    match b {
        ManifestBlock::Code { content_file, .. } => spec_opt_string(content_file),
        ManifestBlock::Conversation { content_file, .. } => spec_opt_string(content_file),
        ManifestBlock::ToolResult { content_file, .. } => spec_opt_string(content_file),
        ManifestBlock::Document { content_file, .. } => spec_opt_string(content_file),
        ManifestBlock::StructuredData { content_file, .. } => spec_opt_string(content_file),
    }
}

/// The name of a manifest block's type, as its `type` field gives it.
pub open spec fn spec_block_kind(b: ManifestBlock) -> Seq<char> {
    match b {
        ManifestBlock::Code { .. } => "code"@,
        ManifestBlock::Conversation { .. } => "conversation"@,
        ManifestBlock::ToolResult { .. } => "tool_result"@,
        ManifestBlock::Document { .. } => "document"@,
        ManifestBlock::StructuredData { .. } => "structured_data"@,
    }
}

/// Where the content of a manifest block comes from: its inline content
/// first, else its content file.
///
/// # Errors
///
/// `MissingContent` with the block's type when it has neither.
pub fn block_content_source(block: &ManifestBlock) -> (r: Result<ContentSource, CliError>)
    ensures
        spec_block_content(*block) matches Some(t) ==> (r matches Ok(ContentSource::Inline(b)) && b@
            == vstd::utf8::encode_utf8(t)),
        spec_block_content(*block) is None ==> (spec_block_file(*block) matches Some(f) ==> (r matches Ok(
            ContentSource::File(p),
        ) && p@ == f)),
        spec_block_content(*block) is None && spec_block_file(*block) is None ==> (r matches Err(e) && e@
            == CliErrorView::MissingContent(spec_block_kind(*block))),
{
    match block {
        ManifestBlock::Code { content, content_file, .. } => content_source(
            opt_str(content),
            opt_str(content_file),
            "code",
        ),
        ManifestBlock::Conversation { content, content_file, .. } => content_source(
            opt_str(content),
            opt_str(content_file),
            "conversation",
        ),
        ManifestBlock::ToolResult { content, content_file, .. } => content_source(
            opt_str(content),
            opt_str(content_file),
            "tool_result",
        ),
        ManifestBlock::Document { content, content_file, .. } => content_source(
            opt_str(content),
            opt_str(content_file),
            "document",
        ),
        ManifestBlock::StructuredData { content, content_file, .. } => content_source(
            opt_str(content),
            opt_str(content_file),
            "structured_data",
        ),
    }
}

} // verus!
