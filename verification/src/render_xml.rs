//! The XML rendering of decoded blocks, and what every renderer shares:
//! display names, UTF-8 checks, diff and file tree text, escaping.
use vstd::prelude::*;
use vstd::string::StrSliceExecFns;
use vstd::utf8::{decode_utf8, valid_utf8};
use crate::block::{Block, BlockContent, BlockModel, ContentModel};
use crate::blocks::{DiffHunk, DiffHunkModel};
use crate::budget::RenderDecision;
use crate::config::OutputMode;
use crate::enums::{DataFormat, FileEntryKind, FormatHint, Lang, MediaType, Role, Status};
use crate::error::DriverError;
use crate::file_tree::{FileEntry, FileEntryModel, spec_entries_view};
use crate::placeholder::{render_placeholder, spec_placeholder};
use crate::text::{push_char, push_decimal, push_hex2, push_str, spec_decimal, spec_hex2, spec_utf8_lossy, utf8_lossy, utf8_to_string};

verus! {

/// The lower-case name of a language.
pub open spec fn spec_lang_display_name(lang: Lang) -> Seq<char> {
    match lang {
        Lang::Rust => "rust"@,
        Lang::TypeScript => "typescript"@,
        Lang::JavaScript => "javascript"@,
        Lang::Python => "python"@,
        Lang::Go => "go"@,
        Lang::Java => "java"@,
        Lang::C => "c"@,
        Lang::Cpp => "cpp"@,
        Lang::Ruby => "ruby"@,
        Lang::Shell => "shell"@,
        Lang::Sql => "sql"@,
        Lang::Html => "html"@,
        Lang::Css => "css"@,
        Lang::Json => "json"@,
        Lang::Yaml => "yaml"@,
        Lang::Toml => "toml"@,
        Lang::Markdown => "markdown"@,
        Lang::Unknown => "text"@,
        Lang::Other(_) => "text"@,
    }
}

/// The lower-case name of a language.
pub fn lang_display_name(lang: Lang) -> (r: &'static str)
    ensures
        r@ == spec_lang_display_name(lang),
{
    match lang {
        Lang::Rust => "rust",
        Lang::TypeScript => "typescript",
        Lang::JavaScript => "javascript",
        Lang::Python => "python",
        Lang::Go => "go",
        Lang::Java => "java",
        Lang::C => "c",
        Lang::Cpp => "cpp",
        Lang::Ruby => "ruby",
        Lang::Shell => "shell",
        Lang::Sql => "sql",
        Lang::Html => "html",
        Lang::Css => "css",
        Lang::Json => "json",
        Lang::Yaml => "yaml",
        Lang::Toml => "toml",
        Lang::Markdown => "markdown",
        Lang::Unknown => "text",
        Lang::Other(_) => "text",
    }
}

/// The lower-case name of a role.
pub open spec fn spec_role_display_name(role: Role) -> Seq<char> {
    match role {
        Role::System => "system"@,
        Role::User => "user"@,
        Role::Assistant => "assistant"@,
        Role::Tool => "tool"@,
    }
}

/// The lower-case name of a role.
pub fn role_display_name(role: Role) -> (r: &'static str)
    ensures
        r@ == spec_role_display_name(role),
{
    match role {
        Role::System => "system",
        Role::User => "user",
        Role::Assistant => "assistant",
        Role::Tool => "tool",
    }
}

/// The lower-case name of a tool status.
pub open spec fn spec_status_display_name(status: Status) -> Seq<char> {
    match status {
        Status::Success => "ok"@,
        Status::Error => "error"@,
        Status::Timeout => "timeout"@,
    }
}

/// The lower-case name of a tool status.
pub fn status_display_name(status: Status) -> (r: &'static str)
    ensures
        r@ == spec_status_display_name(status),
{
    match status {
        Status::Success => "ok",
        Status::Error => "error",
        Status::Timeout => "timeout",
    }
}

/// The lower-case name of a document format.
pub open spec fn spec_format_hint_display_name(hint: FormatHint) -> Seq<char> {
    match hint {
        FormatHint::Markdown => "markdown"@,
        FormatHint::Plain => "plain"@,
        FormatHint::Html => "html"@,
    }
}

/// The lower-case name of a document format.
pub fn format_hint_display_name(hint: FormatHint) -> (r: &'static str)
    ensures
        r@ == spec_format_hint_display_name(hint),
{
    match hint {
        FormatHint::Markdown => "markdown",
        FormatHint::Plain => "plain",
        FormatHint::Html => "html",
    }
}

/// The lower-case name of a data format.
pub open spec fn spec_data_format_display_name(format: DataFormat) -> Seq<char> {
    match format {
        DataFormat::Json => "json"@,
        DataFormat::Yaml => "yaml"@,
        DataFormat::Toml => "toml"@,
        DataFormat::Csv => "csv"@,
    }
}

/// The lower-case name of a data format.
pub fn data_format_display_name(format: DataFormat) -> (r: &'static str)
    ensures
        r@ == spec_data_format_display_name(format),
{
    match format {
        DataFormat::Json => "json",
        DataFormat::Yaml => "yaml",
        DataFormat::Toml => "toml",
        DataFormat::Csv => "csv",
    }
}

/// The lower-case name of an image type.
pub open spec fn spec_media_type_display_name(media: MediaType) -> Seq<char> {
    match media {
        MediaType::Png => "png"@,
        MediaType::Jpeg => "jpeg"@,
        MediaType::Gif => "gif"@,
        MediaType::Svg => "svg"@,
        MediaType::Webp => "webp"@,
    }
}

/// The lower-case name of an image type.
pub fn media_type_display_name(media: MediaType) -> (r: &'static str)
    ensures
        r@ == spec_media_type_display_name(media),
{
    match media {
        MediaType::Png => "png",
        MediaType::Jpeg => "jpeg",
        MediaType::Gif => "gif",
        MediaType::Svg => "svg",
        MediaType::Webp => "webp",
    }
}

/// The text of a content: its UTF-8 decoding, or `InvalidContent` naming
/// the block's index.
pub open spec fn spec_text(content: Seq<u8>, block_index: usize) -> Result<Seq<char>, DriverError> {
    if valid_utf8(content) {
        Ok(decode_utf8(content))
    } else {
        Err(DriverError::InvalidContent { block_index })
    }
}

/// Decode a content as UTF-8.
///
/// # Errors
///
/// `InvalidContent` with `block_index` when it is not valid UTF-8.
pub fn content_to_string(content: &[u8], block_index: usize) -> (r: Result<String, DriverError>)
    ensures
        r matches Ok(s) ==> spec_text(content@, block_index) == Ok::<Seq<char>, DriverError>(s@),
        r matches Err(e) ==> spec_text(content@, block_index) == Err::<Seq<char>, DriverError>(e),
{
    match utf8_to_string(vstd::slice::slice_to_vec(content)) {
        Some(s) => Ok(s),
        None => Err(DriverError::InvalidContent { block_index }),
    }
}

/// The lines of a diff: each hunk decoded leniently, one after another.
pub open spec fn spec_hunks_text(hs: Seq<DiffHunkModel>) -> Seq<char>
    decreases hs.len(),
{
    if hs.len() == 0 {
        Seq::empty()
    } else {
        spec_hunks_text(hs.drop_last()) + spec_utf8_lossy(hs.last().lines)
    }
}

/// The lines of all hunks of a diff.
pub fn hunks_text(hunks: &Vec<DiffHunk>) -> (r: String)
    ensures
        r@ == spec_hunks_text(hunks@.map_values(|h: DiffHunk| h@)),
{
    let mut out = String::new();
    let ghost hs = hunks@.map_values(|h: DiffHunk| h@);
    let mut i: usize = 0;
    assert(hs.take(0) =~= Seq::<DiffHunkModel>::empty());
    while i < hunks.len()
        invariant
            i <= hunks@.len(),
            hs == hunks@.map_values(|h: DiffHunk| h@),
            out@ == spec_hunks_text(hs.take(i as int)),
        decreases hunks@.len() - i,
    {
        let t = utf8_lossy(hunks[i].lines.as_slice());
        push_str(&mut out, t.as_str());
        assert(hs.take(i + 1).drop_last() =~= hs.take(i as int));
        i = i + 1;
    }
    assert(hs.take(i as int) =~= hs);
    out
}

/// The lines of a diff for rendering: each hunk decoded as UTF-8, one
/// after another, or `InvalidContent` naming the block when some hunk is
/// not valid UTF-8.
pub open spec fn spec_hunks_result(hs: Seq<DiffHunkModel>, block_index: usize) -> Result<Seq<char>, DriverError>
    decreases hs.len(),
{
    if hs.len() == 0 {
        Ok(Seq::empty())
    } else {
        match spec_hunks_result(hs.drop_last(), block_index) {
            Err(e) => Err(e),
            Ok(t) => spec_then(spec_text(hs.last().lines, block_index), |u: Seq<char>| t + u),
        }
    }
}

/// The lines of all hunks of a diff, each required to be UTF-8.
///
/// # Errors
///
/// `InvalidContent` with `block_index` when the lines of some hunk are not
/// valid UTF-8.
pub fn hunks_text_checked(hunks: &Vec<DiffHunk>, block_index: usize) -> (r: Result<String, DriverError>)
    ensures
        r matches Ok(s) ==> spec_hunks_result(hunks@.map_values(|h: DiffHunk| h@), block_index)
            == Ok::<Seq<char>, DriverError>(s@),
        r matches Err(e) ==> spec_hunks_result(hunks@.map_values(|h: DiffHunk| h@), block_index)
            == Err::<Seq<char>, DriverError>(e),
{
    let mut out = String::new();
    let ghost hs = hunks@.map_values(|h: DiffHunk| h@);
    let mut i: usize = 0;
    assert(hs.take(0) =~= Seq::<DiffHunkModel>::empty());
    while i < hunks.len()
        invariant
            i <= hunks@.len(),
            hs == hunks@.map_values(|h: DiffHunk| h@),
            spec_hunks_result(hs.take(i as int), block_index) == Ok::<Seq<char>, DriverError>(out@),
        decreases hunks@.len() - i,
    {
        assert(hs.take(i + 1).drop_last() =~= hs.take(i as int));
        let t = match content_to_string(hunks[i].lines.as_slice(), block_index) {
            Ok(t) => t,
            Err(e) => {
                proof {
                    lemma_hunks_result_err(hs, (i + 1) as int, block_index);
                }
                return Err(e);
            },
        };
        push_str(&mut out, t.as_str());
        i = i + 1;
    }
    assert(hs.take(i as int) =~= hs);
    Ok(out)
}

/// Once some hunk fails, every longer prefix fails with the same error.
proof fn lemma_hunks_result_err(hs: Seq<DiffHunkModel>, k: int, block_index: usize)
    requires
        1 <= k <= hs.len(),
        spec_hunks_result(hs.take(k), block_index) is Err,
    ensures
        spec_hunks_result(hs, block_index) == Err::<Seq<char>, DriverError>(
            DriverError::InvalidContent { block_index },
        ),
    decreases hs.len() - k,
{
    lemma_hunks_result_err_value(hs.take(k), block_index);
    if k < hs.len() {
        assert(hs.take(k + 1).drop_last() =~= hs.take(k));
        lemma_hunks_result_err(hs, k + 1, block_index);
    } else {
        assert(hs.take(k) =~= hs);
    }
}

/// The only error is `InvalidContent` for the block.
proof fn lemma_hunks_result_err_value(hs: Seq<DiffHunkModel>, block_index: usize)
    ensures
        spec_hunks_result(hs, block_index) is Err ==> spec_hunks_result(hs, block_index) == Err::<
            Seq<char>,
            DriverError,
        >(DriverError::InvalidContent { block_index }),
    decreases hs.len(),
{
    if hs.len() > 0 {
        lemma_hunks_result_err_value(hs.drop_last(), block_index);
    }
}

/// Two spaces per level.
pub open spec fn spec_indent(depth: usize) -> Seq<char> {
    Seq::new(2 * depth as nat, |_i: int| ' ')
}

/// The next nesting level (it stops growing at the largest `usize`).
pub open spec fn spec_next_depth(depth: usize) -> usize {
    if depth < usize::MAX {
        (depth + 1) as usize
    } else {
        depth
    }
}

/// The lines of one file tree entry: a directory as `name/` followed by
/// its children one level deeper, a file as `name (size bytes)`.
pub open spec fn spec_tree_entry(e: FileEntryModel, depth: usize) -> Seq<char>
    decreases e, 0int,
{
    match e.kind {
        FileEntryKind::Directory => spec_indent(depth) + e.name + "/\n"@ + spec_tree_entries(
            e.children,
            spec_next_depth(depth),
        ),
        FileEntryKind::File => spec_indent(depth) + e.name + " ("@ + spec_decimal(e.size as nat)
            + " bytes)\n"@,
    }
}

/// The lines of a list of entries, in order.
pub open spec fn spec_tree_entries(es: Seq<FileEntryModel>, depth: usize) -> Seq<char>
    decreases es, 1int,
{
    if es.len() == 0 {
        Seq::empty()
    } else {
        spec_tree_entries(es.drop_last(), depth) + spec_tree_entry(es.last(), depth)
    }
}

fn push_indent(out: &mut String, depth: usize)
    ensures
        final(out)@ == old(out)@ + spec_indent(depth),
{
    let mut i: usize = 0;
    while i < depth
        invariant
            i <= depth,
            out@ == old(out)@ + Seq::new(2 * i as nat, |_j: int| ' '),
        decreases depth - i,
    {
        push_char(out, ' ');
        push_char(out, ' ');
        i = i + 1;
        assert(out@ =~= old(out)@ + Seq::new(2 * i as nat, |_j: int| ' '));
    }
}

/// Render the entries of a file tree, two spaces of indent per level.
pub fn render_file_tree_entries(entries: &[FileEntry], depth: usize) -> (r: String)
    ensures
        r@ == spec_tree_entries(spec_entries_view(entries@), depth),
    decreases entries@,
{
    let mut out = String::new();
    let ghost ms = spec_entries_view(entries@);
    proof {
        crate::file_tree::lemma_views_len(entries@);
    }
    let mut i: usize = 0;
    assert(ms.take(0) =~= Seq::<FileEntryModel>::empty());
    while i < entries.len()
        invariant
            i <= entries@.len(),
            ms == spec_entries_view(entries@),
            ms.len() == entries@.len(),
            forall|j: int| 0 <= j < entries@.len() ==> #[trigger] ms[j] == entries@[j]@,
            out@ == spec_tree_entries(ms.take(i as int), depth),
        decreases entries@.len() - i,
    {
        let e = &entries[i];
        let ghost before = out@;
        push_indent(&mut out, depth);
        push_str(&mut out, e.name.as_str());
        match e.kind {
            FileEntryKind::Directory => {
                push_str(&mut out, "/\n");
                let next = if depth < usize::MAX { depth + 1 } else { depth };
                let sub = render_file_tree_entries(e.children.as_slice(), next);
                push_str(&mut out, sub.as_str());
            },
            FileEntryKind::File => {
                push_str(&mut out, " (");
                push_decimal(&mut out, e.size);
                push_str(&mut out, " bytes)\n");
            },
        }
        proof {
            assert(ms[i as int] == e@);
            assert(out@ =~= before + spec_tree_entry(ms[i as int], depth));
            assert(ms.take(i + 1).drop_last() =~= ms.take(i as int));
        }
        i = i + 1;
    }
    assert(ms.take(i as int) =~= ms);
    out
}

/// One character made safe inside an XML attribute.
pub open spec fn spec_escape_char(c: char) -> Seq<char> {
    if c == '&' {
        "&amp;"@
    } else if c == '<' {
        "&lt;"@
    } else if c == '>' {
        "&gt;"@
    } else if c == '"' {
        "&quot;"@
    } else {
        seq![c]
    }
}

/// A text with `&`, `<`, `>` and `"` replaced by their XML entities.
pub open spec fn spec_xml_escape(s: Seq<char>) -> Seq<char>
    decreases s.len(),
{
    if s.len() == 0 {
        Seq::empty()
    } else {
        spec_xml_escape(s.drop_last()) + spec_escape_char(s.last())
    }
}

/// Escape a text for an XML attribute.
pub fn xml_escape(s: &str) -> (r: String)
    ensures
        r@ == spec_xml_escape(s@),
{
    let mut out = String::new();
    let n = s.unicode_len();
    let mut i: usize = 0;
    assert(s@.take(0) =~= Seq::<char>::empty());
    while i < n
        invariant
            i <= n,
            n == s@.len(),
            out@ == spec_xml_escape(s@.take(i as int)),
        decreases n - i,
    {
        let c = s.get_char(i);
        if c == '&' {
            push_str(&mut out, "&amp;");
        } else if c == '<' {
            push_str(&mut out, "&lt;");
        } else if c == '>' {
            push_str(&mut out, "&gt;");
        } else if c == '"' {
            push_str(&mut out, "&quot;");
        } else {
            push_char(&mut out, c);
        }
        assert(s@.take(i + 1).drop_last() =~= s@.take(i as int));
        i = i + 1;
    }
    assert(s@.take(i as int) =~= s@);
    out
}

/// The parts joined with a separator between them.
pub open spec fn spec_join(parts: Seq<Seq<char>>, sep: Seq<char>) -> Seq<char>
    decreases parts.len(),
{
    if parts.len() == 0 {
        Seq::empty()
    } else if parts.len() == 1 {
        parts[0]
    } else {
        spec_join(parts.drop_last(), sep) + sep + parts.last()
    }
}

/// Join rendered parts with a blank line between them.
pub fn join_parts(parts: &Vec<String>) -> (r: String)
    ensures
        r@ == spec_join(parts@.map_values(|s: String| s@), "\n\n"@),
{
    let mut out = String::new();
    let ghost ps = parts@.map_values(|s: String| s@);
    let mut i: usize = 0;
    assert(ps.take(0) =~= Seq::<Seq<char>>::empty());
    while i < parts.len()
        invariant
            i <= parts@.len(),
            ps == parts@.map_values(|s: String| s@),
            out@ == spec_join(ps.take(i as int), "\n\n"@),
        decreases parts@.len() - i,
    {
        if i > 0 {
            push_str(&mut out, "\n\n");
        }
        push_str(&mut out, parts[i].as_str());
        assert(ps.take(i + 1).drop_last() =~= ps.take(i as int));
        if i == 0 {
            assert(out@ =~= ps[0]);
        }
        i = i + 1;
    }
    assert(ps.take(i as int) =~= ps);
    out
}

/// Apply `f` to the text of a successful rendering step.
pub open spec fn spec_then(r: Result<Seq<char>, DriverError>, f: spec_fn(Seq<char>) -> Seq<char>) -> Result<Seq<char>, DriverError> {
    match r {
        Ok(t) => Ok(f(t)),
        Err(e) => Err(e),
    }
}

/// The XML element for a block. `use_summary` shows a code block's summary
/// in place of its content, when it has one.
pub open spec fn spec_xml_block(b: BlockModel, index: usize, use_summary: bool) -> Result<Seq<char>, DriverError> {
    let us = use_summary && b.summary is Some;
    match b.content {
        ContentModel::Code(c) => if us {
            Ok("<code lang=\""@ + spec_lang_display_name(c.lang) + "\" path=\""@ + spec_xml_escape(c.path)
                + "\" summary=\"true\">\n"@ + b.summary->Some_0 + "\n</code>"@)
        } else {
            spec_then(spec_text(c.content, index), |t: Seq<char>| "<code lang=\""@ + spec_lang_display_name(c.lang)
                + "\" path=\""@ + spec_xml_escape(c.path) + "\">\n"@ + t + "\n</code>"@)
        },
        ContentModel::Conversation(c) => spec_then(spec_text(c.content, index), |t: Seq<char>| "<turn role=\""@
            + spec_role_display_name(c.role) + "\">"@ + t + "</turn>"@),
        ContentModel::FileTree(t) => Ok("<tree root=\""@ + spec_xml_escape(t.root_path) + "\">\n"@
            + spec_tree_entries(t.entries, 0) + "</tree>"@),
        ContentModel::ToolResult(x) => spec_then(spec_text(x.content, index), |t: Seq<char>| "<tool name=\""@
            + spec_xml_escape(x.tool_name) + "\" status=\""@ + spec_status_display_name(x.status) + "\">\n"@
            + t + "\n</tool>"@),
        ContentModel::Document(d) => spec_then(spec_text(d.content, index), |t: Seq<char>| "<doc title=\""@
            + spec_xml_escape(d.title) + "\" format=\""@ + spec_format_hint_display_name(d.format_hint)
            + "\">\n"@ + t + "\n</doc>"@),
        ContentModel::StructuredData(d) => spec_then(spec_text(d.content, index), |t: Seq<char>| "<data format=\""@
            + spec_data_format_display_name(d.format) + "\">\n"@ + t + "\n</data>"@),
        ContentModel::Diff(d) => spec_then(spec_hunks_result(d.hunks, index), |t: Seq<char>| "<diff path=\""@
            + spec_xml_escape(d.path) + "\">\n"@ + t + "</diff>"@),
        ContentModel::EmbeddingRef(x) => Ok("<embed-ref model=\""@ + spec_xml_escape(x.model) + "\" />"@),
        ContentModel::Image(x) => spec_then(spec_text(x.data, index), |t: Seq<char>| "<image type=\""@
            + spec_media_type_display_name(x.media_type) + "\" alt=\""@ + spec_xml_escape(x.alt_text)
            + "\">\n"@ + t + "\n</image>"@),
        ContentModel::Extension(x) => spec_then(spec_text(x.content, index), |t: Seq<char>| "<ext ns=\""@
            + spec_xml_escape(x.namespace) + "\" type=\""@ + spec_xml_escape(x.extension_type) + "\">\n"@
            + t + "\n</ext>"@),
        ContentModel::Annotation(_) => Ok(Seq::empty()),
        ContentModel::End => Ok(Seq::empty()),
        ContentModel::Unknown { type_id, body } => Ok("<!-- unknown block type 0x"@ + spec_hex2(type_id)
            + " -->\n"@ + spec_utf8_lossy(body)),
    }
}

/// Rendering each block in order; the first error stops.
pub open spec fn spec_render_parts(bs: Seq<BlockModel>, f: spec_fn(BlockModel, usize) -> Result<Seq<char>, DriverError>) -> Result<Seq<Seq<char>>, DriverError>
    decreases bs.len(),
{
    if bs.len() == 0 {
        Ok(Seq::empty())
    } else {
        match spec_render_parts(bs.drop_last(), f) {
            Err(e) => Err(e),
            Ok(ps) => match f(bs.last(), (bs.len() - 1) as usize) {
                Err(e) => Err(e),
                Ok(p) => Ok(ps.push(p)),
            },
        }
    }
}

/// Rendering blocks with their decisions: full, summary or placeholder,
/// nothing for an omitted block; the first error stops.
pub open spec fn spec_decision_parts(
    items: Seq<(BlockModel, crate::budget::DecisionModel)>,
    f: spec_fn(BlockModel, usize, bool) -> Result<Seq<char>, DriverError>,
    mode: OutputMode,
) -> Result<Seq<Seq<char>>, DriverError>
    decreases items.len(),
{
    if items.len() == 0 {
        Ok(Seq::empty())
    } else {
        match spec_decision_parts(items.drop_last(), f, mode) {
            Err(e) => Err(e),
            Ok(ps) => {
                let (b, d) = items.last();
                let i = (items.len() - 1) as usize;
                match d {
                    crate::budget::DecisionModel::Full => match f(b, i, false) {
                        Err(e) => Err(e),
                        Ok(p) => Ok(ps.push(p)),
                    },
                    crate::budget::DecisionModel::Summary => match f(b, i, true) {
                        Err(e) => Err(e),
                        Ok(p) => Ok(ps.push(p)),
                    },
                    crate::budget::DecisionModel::Placeholder { block_type, description, omitted_tokens } => Ok(
                        ps.push(spec_placeholder(mode, block_type, description, omitted_tokens)),
                    ),
                    crate::budget::DecisionModel::Omit => Ok(ps),
                }
            },
        }
    }
}

/// The XML document for a sequence of blocks, each shown by its summary
/// when it has one.
pub open spec fn spec_xml_all(bs: Seq<BlockModel>) -> Result<Seq<char>, DriverError> {
    match spec_render_parts(bs, |b: BlockModel, i: usize| spec_xml_block(b, i, b.summary is Some)) {
        Err(e) => Err(e),
        Ok(ps) => Ok("<context>\n"@ + spec_join(ps, "\n\n"@) + "\n</context>"@),
    }
}

/// The XML document for blocks rendered by their decisions.
pub open spec fn spec_xml_decisions(items: Seq<(BlockModel, crate::budget::DecisionModel)>) -> Result<Seq<char>, DriverError> {
    match spec_decision_parts(items, |b: BlockModel, i: usize, s: bool| spec_xml_block(b, i, s), OutputMode::Xml) {
        Err(e) => Err(e),
        Ok(ps) => if ps.len() == 0 {
            Err(DriverError::EmptyInput)
        } else {
            Ok("<context>\n"@ + spec_join(ps, "\n\n"@) + "\n</context>"@)
        },
    }
}

/// The views of a slice of block references.
pub open spec fn spec_block_refs(bs: Seq<&Block>) -> Seq<BlockModel> {
    bs.map_values(|b: &Block| b@)
}

/// The views of a slice of blocks paired with their decisions.
pub open spec fn spec_items(items: Seq<(&Block, &RenderDecision)>) -> Seq<(BlockModel, crate::budget::DecisionModel)> {
    items.map_values(|it: (&Block, &RenderDecision)| (it.0@, it.1@))
}

/// Renders blocks as XML elements inside a `<context>` element.
pub struct XmlRenderer;

impl XmlRenderer {
    /// Render every block, each by its summary when it has one.
    ///
    /// # Errors
    ///
    /// `InvalidContent` for the first block whose content is not UTF-8.
    pub fn render_all(blocks: &[&Block]) -> (r: Result<String, DriverError>)
        ensures
            r matches Ok(s) ==> spec_xml_all(spec_block_refs(blocks@)) == Ok::<Seq<char>, DriverError>(s@),
            r matches Err(e) ==> spec_xml_all(spec_block_refs(blocks@)) == Err::<Seq<char>, DriverError>(e),
    {
        let ghost bs = spec_block_refs(blocks@);
        let ghost f = |b: BlockModel, i: usize| spec_xml_block(b, i, b.summary is Some);
        let mut parts: Vec<String> = Vec::new();
        let mut i: usize = 0;
        assert(bs.take(0) =~= Seq::<BlockModel>::empty());
        assert(parts@.map_values(|s: String| s@) =~= Seq::<Seq<char>>::empty());
        while i < blocks.len()
            invariant
                i <= blocks@.len(),
                bs == spec_block_refs(blocks@),
                f == (|b: BlockModel, i: usize| spec_xml_block(b, i, b.summary is Some)),
                spec_render_parts(bs.take(i as int), f) == Ok::<Seq<Seq<char>>, DriverError>(parts@.map_values(|s: String| s@)),
            decreases blocks@.len() - i,
        {
            assert(bs.take(i + 1).drop_last() =~= bs.take(i as int));
            assert(bs.take(i + 1).last() == blocks@[i as int]@);
            let use_summary = blocks[i].summary.is_some();
            match Self::render_block_inner(blocks[i], i, use_summary) {
                Ok(p) => {
                    let ghost before = parts@;
                    parts.push(p);
                    assert(parts@.map_values(|s: String| s@) =~= before.map_values(|s: String| s@).push(p@));
                },
                Err(e) => {
                    proof {
                        lemma_parts_prefix_error(bs, f, (i + 1) as nat);
                    }
                    return Err(e);
                },
            }
            i = i + 1;
        }
        assert(bs.take(i as int) =~= bs);
        let inner = join_parts(&parts);
        let mut out = String::new();
        push_str(&mut out, "<context>\n");
        push_str(&mut out, inner.as_str());
        push_str(&mut out, "\n</context>");
        Ok(out)
    }

    /// Render blocks by their decisions: in full, by summary, as a
    /// placeholder, or not at all.
    ///
    /// # Errors
    ///
    /// `InvalidContent` for the first rendered block whose content is not
    /// UTF-8, `EmptyInput` when every block is omitted.
    pub fn render_all_with_decisions(items: &[(&Block, &RenderDecision)]) -> (r: Result<String, DriverError>)
        ensures
            r matches Ok(s) ==> spec_xml_decisions(spec_items(items@)) == Ok::<Seq<char>, DriverError>(s@),
            r matches Err(e) ==> spec_xml_decisions(spec_items(items@)) == Err::<Seq<char>, DriverError>(e),
    {
        let ghost its = spec_items(items@);
        let ghost f = |b: BlockModel, i: usize, s: bool| spec_xml_block(b, i, s);
        let mut parts: Vec<String> = Vec::new();
        let mut i: usize = 0;
        assert(its.take(0) =~= Seq::<(BlockModel, crate::budget::DecisionModel)>::empty());
        assert(parts@.map_values(|s: String| s@) =~= Seq::<Seq<char>>::empty());
        while i < items.len()
            invariant
                i <= items@.len(),
                its == spec_items(items@),
                f == (|b: BlockModel, i: usize, s: bool| spec_xml_block(b, i, s)),
                spec_decision_parts(its.take(i as int), f, OutputMode::Xml) == Ok::<Seq<Seq<char>>, DriverError>(
                    parts@.map_values(|s: String| s@),
                ),
            decreases items@.len() - i,
        {
            assert(its.take(i + 1).drop_last() =~= its.take(i as int));
            assert(its.take(i + 1).last() == (items@[i as int].0@, items@[i as int].1@));
            let (block, decision) = items[i];
            let ghost before = parts@;
            match decision {
                RenderDecision::Full => {
                    match Self::render_block_inner(block, i, false) {
                        Ok(p) => parts.push(p),
                        Err(e) => {
                            proof {
                                lemma_decision_prefix_error(its, f, OutputMode::Xml, (i + 1) as nat);
                            }
                            return Err(e);
                        },
                    }
                },
                RenderDecision::Summary => {
                    match Self::render_block_inner(block, i, true) {
                        Ok(p) => parts.push(p),
                        Err(e) => {
                            proof {
                                lemma_decision_prefix_error(its, f, OutputMode::Xml, (i + 1) as nat);
                            }
                            return Err(e);
                        },
                    }
                },
                RenderDecision::Placeholder { block_type, description, omitted_tokens } => {
                    parts.push(render_placeholder(OutputMode::Xml, block_type, description.as_str(), *omitted_tokens));
                },
                RenderDecision::Omit => {},
            }
            assert(parts@.map_values(|s: String| s@) =~= spec_decision_parts(its.take(i + 1), f, OutputMode::Xml)->Ok_0) by {
                if parts@.len() > before.len() {
                    assert(parts@.map_values(|s: String| s@) =~= before.map_values(|s: String| s@).push(parts@.last()@));
                }
            }
            i = i + 1;
        }
        assert(its.take(i as int) =~= its);
        if parts.len() == 0 {
            return Err(DriverError::EmptyInput);
        }
        let inner = join_parts(&parts);
        let mut out = String::new();
        push_str(&mut out, "<context>\n");
        push_str(&mut out, inner.as_str());
        push_str(&mut out, "\n</context>");
        Ok(out)
    }

    /// Render one block as an XML element.
    pub fn render_block_inner(block: &Block, index: usize, use_summary: bool) -> (r: Result<String, DriverError>)
        ensures
            r matches Ok(s) ==> spec_xml_block(block@, index, use_summary) == Ok::<Seq<char>, DriverError>(s@),
            r matches Err(e) ==> spec_xml_block(block@, index, use_summary) == Err::<Seq<char>, DriverError>(e),
    {
        let us = use_summary && block.summary.is_some();
        let mut out = String::new();
        match &block.content {
            BlockContent::Code(code) => {
                let content = if us {
                    match &block.summary {
                        Some(s) => s.text.clone(),
                        None => String::new(),
                    }
                } else {
                    match content_to_string(code.content.as_slice(), index) {
                        Ok(t) => t,
                        Err(e) => return Err(e),
                    }
                };
                push_str(&mut out, "<code lang=\"");
                push_str(&mut out, lang_display_name(code.lang));
                push_str(&mut out, "\" path=\"");
                push_str(&mut out, xml_escape(code.path.as_str()).as_str());
                if us {
                    push_str(&mut out, "\" summary=\"true\">\n");
                } else {
                    push_str(&mut out, "\">\n");
                }
                push_str(&mut out, content.as_str());
                push_str(&mut out, "\n</code>");
            },
            BlockContent::Conversation(conv) => {
                let content = match content_to_string(conv.content.as_slice(), index) {
                    Ok(t) => t,
                    Err(e) => return Err(e),
                };
                push_str(&mut out, "<turn role=\"");
                push_str(&mut out, role_display_name(conv.role));
                push_str(&mut out, "\">");
                push_str(&mut out, content.as_str());
                push_str(&mut out, "</turn>");
            },
            BlockContent::FileTree(tree) => {
                push_str(&mut out, "<tree root=\"");
                push_str(&mut out, xml_escape(tree.root_path.as_str()).as_str());
                push_str(&mut out, "\">\n");
                push_str(&mut out, render_file_tree_entries(tree.entries.as_slice(), 0).as_str());
                push_str(&mut out, "</tree>");
            },
            BlockContent::ToolResult(tool) => {
                let content = match content_to_string(tool.content.as_slice(), index) {
                    Ok(t) => t,
                    Err(e) => return Err(e),
                };
                push_str(&mut out, "<tool name=\"");
                push_str(&mut out, xml_escape(tool.tool_name.as_str()).as_str());
                push_str(&mut out, "\" status=\"");
                push_str(&mut out, status_display_name(tool.status));
                push_str(&mut out, "\">\n");
                push_str(&mut out, content.as_str());
                push_str(&mut out, "\n</tool>");
            },
            BlockContent::Document(doc) => {
                let content = match content_to_string(doc.content.as_slice(), index) {
                    Ok(t) => t,
                    Err(e) => return Err(e),
                };
                push_str(&mut out, "<doc title=\"");
                push_str(&mut out, xml_escape(doc.title.as_str()).as_str());
                push_str(&mut out, "\" format=\"");
                push_str(&mut out, format_hint_display_name(doc.format_hint));
                push_str(&mut out, "\">\n");
                push_str(&mut out, content.as_str());
                push_str(&mut out, "\n</doc>");
            },
            BlockContent::StructuredData(data) => {
                let content = match content_to_string(data.content.as_slice(), index) {
                    Ok(t) => t,
                    Err(e) => return Err(e),
                };
                push_str(&mut out, "<data format=\"");
                push_str(&mut out, data_format_display_name(data.format));
                push_str(&mut out, "\">\n");
                push_str(&mut out, content.as_str());
                push_str(&mut out, "\n</data>");
            },
            BlockContent::Diff(diff) => {
                let lines = match hunks_text_checked(&diff.hunks, index) {
                    Ok(t) => t,
                    Err(e) => return Err(e),
                };
                push_str(&mut out, "<diff path=\"");
                push_str(&mut out, xml_escape(diff.path.as_str()).as_str());
                push_str(&mut out, "\">\n");
                push_str(&mut out, lines.as_str());
                push_str(&mut out, "</diff>");
            },
            BlockContent::EmbeddingRef(emb) => {
                push_str(&mut out, "<embed-ref model=\"");
                push_str(&mut out, xml_escape(emb.model.as_str()).as_str());
                push_str(&mut out, "\" />");
            },
            BlockContent::Image(img) => {
                let content = match content_to_string(img.data.as_slice(), index) {
                    Ok(t) => t,
                    Err(e) => return Err(e),
                };
                push_str(&mut out, "<image type=\"");
                push_str(&mut out, media_type_display_name(img.media_type));
                push_str(&mut out, "\" alt=\"");
                push_str(&mut out, xml_escape(img.alt_text.as_str()).as_str());
                push_str(&mut out, "\">\n");
                push_str(&mut out, content.as_str());
                push_str(&mut out, "\n</image>");
            },
            BlockContent::Extension(ext) => {
                let content = match content_to_string(ext.content.as_slice(), index) {
                    Ok(t) => t,
                    Err(e) => return Err(e),
                };
                push_str(&mut out, "<ext ns=\"");
                push_str(&mut out, xml_escape(ext.namespace.as_str()).as_str());
                push_str(&mut out, "\" type=\"");
                push_str(&mut out, xml_escape(ext.extension_type.as_str()).as_str());
                push_str(&mut out, "\">\n");
                push_str(&mut out, content.as_str());
                push_str(&mut out, "\n</ext>");
            },
            BlockContent::Annotation(_) => {},
            BlockContent::End => {},
            BlockContent::Unknown { type_id, body } => {
                push_str(&mut out, "<!-- unknown block type 0x");
                push_hex2(&mut out, *type_id);
                push_str(&mut out, " -->\n");
                push_str(&mut out, utf8_lossy(body.as_slice()).as_str());
            },
        }
        assert(spec_xml_block(block@, index, use_summary) == Ok::<Seq<char>, DriverError>(out@));
        Ok(out)
    }
}

/// An error on a prefix of the blocks is the error of all of them.
pub proof fn lemma_parts_prefix_error(bs: Seq<BlockModel>, f: spec_fn(BlockModel, usize) -> Result<Seq<char>, DriverError>, k: nat)
    requires
        k <= bs.len(),
        spec_render_parts(bs.take(k as int), f) is Err,
    ensures
        spec_render_parts(bs, f) == spec_render_parts(bs.take(k as int), f),
    decreases bs.len() - k,
{
    if k < bs.len() {
        assert(bs.take((k + 1) as int).drop_last() =~= bs.take(k as int));
        lemma_parts_prefix_error(bs, f, k + 1);
    } else {
        assert(bs.take(k as int) =~= bs);
    }
}

/// An error on a prefix of the items is the error of all of them.
pub proof fn lemma_decision_prefix_error(
    items: Seq<(BlockModel, crate::budget::DecisionModel)>,
    f: spec_fn(BlockModel, usize, bool) -> Result<Seq<char>, DriverError>,
    mode: OutputMode,
    k: nat,
)
    requires
        k <= items.len(),
        spec_decision_parts(items.take(k as int), f, mode) is Err,
    ensures
        spec_decision_parts(items, f, mode) == spec_decision_parts(items.take(k as int), f, mode),
    decreases items.len() - k,
{
    if k < items.len() {
        assert(items.take((k + 1) as int).drop_last() =~= items.take(k as int));
        lemma_decision_prefix_error(items, f, mode, k + 1);
    } else {
        assert(items.take(k as int) =~= items);
    }
}

} // verus!
