//! Baseline markdown renderings of the same blocks, as a prompt author
//! would write them by hand, to compare token counts against.
use vstd::prelude::*;
use crate::block::{Block, BlockContent, BlockModel, ContentModel};
use crate::blocks::{DiffHunk, DiffHunkModel};
use crate::enums::{FileEntryKind, MediaType};
use crate::file_tree::{FileEntry, FileEntryModel, spec_entries_view};
use crate::render_xml::{
    data_format_display_name, lang_display_name, role_display_name,
    spec_data_format_display_name, spec_lang_display_name, spec_role_display_name,
    spec_status_display_name, spec_indent, spec_next_depth, status_display_name,
};
use crate::text::{push_char, push_decimal, push_str, spec_decimal, spec_utf8_lossy, utf8_lossy};

verus! {

/// The text of some bytes, with each invalid UTF-8 sequence replaced by
/// U+FFFD.
pub fn lossy(bytes: &[u8]) -> (r: String)
    ensures
        r@ == spec_utf8_lossy(bytes@),
{
    utf8_lossy(bytes)
}

/// What `serde_json::to_string` makes of a string: its JSON string
/// literal, or `None` when it reports an error.
pub uninterp spec fn spec_json_string(s: Seq<char>) -> Option<Seq<char>>;

/// Calls `serde_json::to_string` on `s`. The contract names the result.
#[verifier::external_body]
fn json_string(s: &str) -> (r: Option<String>)
    ensures
        r matches Some(j) ==> spec_json_string(s@) == Some(j@),
        r is None ==> spec_json_string(s@) is None,
{
    serde_json::to_string(s).ok()
}

/// A text as a JSON string literal, or the text itself when that fails.
pub open spec fn spec_json_or_text(s: Seq<char>) -> Seq<char> {
    match spec_json_string(s) {
        Some(j) => j,
        None => s,
    }
}

fn json_or_text(s: &str) -> (r: String)
    ensures
        r@ == spec_json_or_text(s@),
{
    match json_string(s) {
        Some(j) => j,
        None => {
            let mut t = String::new();
            push_str(&mut t, s);
            t
        },
    }
}

/// The MIME type of an image.
pub open spec fn spec_media_mime(m: MediaType) -> Seq<char> {
    match m {
        MediaType::Png => "image/png"@,
        MediaType::Jpeg => "image/jpeg"@,
        MediaType::Gif => "image/gif"@,
        MediaType::Svg => "image/svg+xml"@,
        MediaType::Webp => "image/webp"@,
    }
}

/// The MIME type of an image.
pub fn media_mime(m: MediaType) -> (r: &'static str)
    ensures
        r@ == spec_media_mime(m),
{
    match m {
        MediaType::Png => "image/png",
        MediaType::Jpeg => "image/jpeg",
        MediaType::Gif => "image/gif",
        MediaType::Svg => "image/svg+xml",
        MediaType::Webp => "image/webp",
    }
}

/// One hunk: its `@@` header, its lines, and a newline if they do not end
/// with one.
pub open spec fn spec_hunk_text(h: DiffHunkModel) -> Seq<char> {
    "@@ -"@ + spec_decimal(h.old_start as nat) + ",0 +"@ + spec_decimal(h.new_start as nat) + ",0 @@\n"@
        + spec_utf8_lossy(h.lines) + if h.lines.len() > 0 && h.lines.last() == 10u8 {
        Seq::<char>::empty()
    } else {
        "\n"@
    }
}

/// All hunks, in order.
pub open spec fn spec_hunks_block(hs: Seq<DiffHunkModel>) -> Seq<char>
    decreases hs.len(),
{
    if hs.len() == 0 {
        Seq::empty()
    } else {
        spec_hunks_block(hs.drop_last()) + spec_hunk_text(hs.last())
    }
}

/// Append every hunk with its header.
pub fn write_hunks(out: &mut String, hunks: &Vec<DiffHunk>)
    ensures
        final(out)@ == old(out)@ + spec_hunks_block(hunks@.map_values(|h: DiffHunk| h@)),
{
    let ghost hs = hunks@.map_values(|h: DiffHunk| h@);
    let ghost start = out@;
    let mut i: usize = 0;
    assert(hs.take(0) =~= Seq::<DiffHunkModel>::empty());
    assert(start + Seq::<char>::empty() =~= start);
    while i < hunks.len()
        invariant
            i <= hunks@.len(),
            hs == hunks@.map_values(|h: DiffHunk| h@),
            out@ == start + spec_hunks_block(hs.take(i as int)),
        decreases hunks@.len() - i,
    {
        let h = &hunks[i];
        let ghost before = out@;
        push_str(out, "@@ -");
        push_decimal(out, h.old_start as u64);
        push_str(out, ",0 +");
        push_decimal(out, h.new_start as u64);
        push_str(out, ",0 @@\n");
        push_str(out, utf8_lossy(h.lines.as_slice()).as_str());
        let n = h.lines.len();
        if !(n > 0 && h.lines[n - 1] == 10u8) {
            push_str(out, "\n");
        }
        proof {
            assert(out@ =~= before + spec_hunk_text(hs[i as int]));
            assert(hs.take(i + 1).drop_last() =~= hs.take(i as int));
        }
        i = i + 1;
    }
    assert(hs.take(i as int) =~= hs);
}

/// The plain tree lines of one entry: its name, `/` after a directory,
/// then its children one level deeper.
pub open spec fn spec_naive_entry(e: FileEntryModel, depth: usize) -> Seq<char>
    decreases e, 0int,
{
    spec_indent(depth) + e.name + (if e.kind == FileEntryKind::Directory { "/"@ } else { Seq::<char>::empty() }) + "\n"@
        + spec_naive_tree(e.children, spec_next_depth(depth))
}

/// The plain tree lines of a list of entries.
pub open spec fn spec_naive_tree(es: Seq<FileEntryModel>, depth: usize) -> Seq<char>
    decreases es, 1int,
{
    if es.len() == 0 {
        Seq::empty()
    } else {
        spec_naive_tree(es.drop_last(), depth) + spec_naive_entry(es.last(), depth)
    }
}

/// Append the plain tree lines of `entries`.
pub fn render_tree_entries_naive(out: &mut String, entries: &[FileEntry], depth: usize)
    ensures
        final(out)@ == old(out)@ + spec_naive_tree(spec_entries_view(entries@), depth),
    decreases entries@,
{
    let ghost ms = spec_entries_view(entries@);
    let ghost start = out@;
    proof {
        crate::file_tree::lemma_views_len(entries@);
    }
    let mut i: usize = 0;
    assert(ms.take(0) =~= Seq::<FileEntryModel>::empty());
    assert(start + Seq::<char>::empty() =~= start);
    while i < entries.len()
        invariant
            i <= entries@.len(),
            ms == spec_entries_view(entries@),
            ms.len() == entries@.len(),
            forall|j: int| 0 <= j < entries@.len() ==> #[trigger] ms[j] == entries@[j]@,
            out@ == start + spec_naive_tree(ms.take(i as int), depth),
        decreases entries@.len() - i,
    {
        let e = &entries[i];
        let ghost before = out@;
        let mut k: usize = 0;
        while k < depth
            invariant
                k <= depth,
                out@ == before + Seq::new(2 * k as nat, |_j: int| ' '),
            decreases depth - k,
        {
            push_char(out, ' ');
            push_char(out, ' ');
            k = k + 1;
            assert(out@ =~= before + Seq::new(2 * k as nat, |_j: int| ' '));
        }
        push_str(out, e.name.as_str());
        if e.kind == FileEntryKind::Directory {
            push_str(out, "/");
        }
        push_str(out, "\n");
        let next = if depth < usize::MAX { depth + 1 } else { depth };
        render_tree_entries_naive(out, e.children.as_slice(), next);
        proof {
            assert(ms[i as int] == e@);
            assert(out@ =~= before + spec_naive_entry(ms[i as int], depth));
            assert(ms.take(i + 1).drop_last() =~= ms.take(i as int));
        }
        i = i + 1;
    }
    assert(ms.take(i as int) =~= ms);
}

/// The hand-written markdown of one block; annotations, END and unknown
/// blocks give nothing.
pub open spec fn spec_naive_block(b: BlockModel) -> Seq<char> {
    match b.content {
        ContentModel::Code(c) => "```"@ + spec_lang_display_name(c.lang) + "\n// "@ + c.path + "\n"@ + spec_utf8_lossy(c.content) + "\n```\n\n"@,
        ContentModel::Conversation(c) => "### "@ + spec_role_display_name(c.role) + ":\n\n"@ + spec_utf8_lossy(c.content) + "\n\n"@,
        ContentModel::FileTree(c) => "### File Tree: "@ + c.root_path + "\n\n```\n"@ + spec_naive_tree(c.entries, 0) + "```\n\n"@,
        ContentModel::ToolResult(c) => "### Tool Result ("@ + c.tool_name + ") ["@ + spec_status_display_name(c.status) + "]:\n\n```\n"@ + spec_utf8_lossy(c.content) + "\n```\n\n"@,
        ContentModel::Document(c) => "## "@ + c.title + "\n\n"@ + spec_utf8_lossy(c.content) + "\n\n"@,
        ContentModel::StructuredData(c) => "```"@ + spec_data_format_display_name(c.format) + "\n"@ + spec_utf8_lossy(c.content) + "\n```\n\n"@,
        ContentModel::Diff(c) => "### Diff: "@ + c.path + "\n\n```diff\n"@ + spec_hunks_block(c.hunks) + "```\n\n"@,
        ContentModel::EmbeddingRef(c) => "[embedding: model="@ + c.model + ", vector_id="@ + spec_decimal(c.vector_id.len()) + " bytes]\n\n"@,
        ContentModel::Image(c) => "!["@ + c.alt_text + "](data:"@ + spec_media_mime(c.media_type) + ";base64,..."@ + spec_decimal(c.data.len()) + " bytes)\n\n"@,
        ContentModel::Extension(c) => "### Extension ("@ + c.namespace + "/"@ + c.extension_type + ")\n\n```\n"@ + spec_utf8_lossy(c.content) + "\n```\n\n"@,
        _ => Seq::empty(),
    }
}

fn push_naive_block(out: &mut String, block: &Block)
    ensures
        final(out)@ == old(out)@ + spec_naive_block(block@),
{
    let ghost before = out@;
    match &block.content {
        BlockContent::Code(v) => {
            push_str(out, "```");
            push_str(out, lang_display_name(v.lang));
            push_str(out, "\n// ");
            push_str(out, v.path.as_str());
            push_str(out, "\n");
            push_str(out, lossy(v.content.as_slice()).as_str());
            push_str(out, "\n```\n\n");
        },
        BlockContent::Conversation(v) => {
            push_str(out, "### ");
            push_str(out, role_display_name(v.role));
            push_str(out, ":\n\n");
            push_str(out, lossy(v.content.as_slice()).as_str());
            push_str(out, "\n\n");
        },
        BlockContent::FileTree(v) => {
            push_str(out, "### File Tree: ");
            push_str(out, v.root_path.as_str());
            push_str(out, "\n\n```\n");
            render_tree_entries_naive(out, v.entries.as_slice(), 0);
            push_str(out, "```\n\n");
        },
        BlockContent::ToolResult(v) => {
            push_str(out, "### Tool Result (");
            push_str(out, v.tool_name.as_str());
            push_str(out, ") [");
            push_str(out, status_display_name(v.status));
            push_str(out, "]:\n\n```\n");
            push_str(out, lossy(v.content.as_slice()).as_str());
            push_str(out, "\n```\n\n");
        },
        BlockContent::Document(v) => {
            push_str(out, "## ");
            push_str(out, v.title.as_str());
            push_str(out, "\n\n");
            push_str(out, lossy(v.content.as_slice()).as_str());
            push_str(out, "\n\n");
        },
        BlockContent::StructuredData(v) => {
            push_str(out, "```");
            push_str(out, data_format_display_name(v.format));
            push_str(out, "\n");
            push_str(out, lossy(v.content.as_slice()).as_str());
            push_str(out, "\n```\n\n");
        },
        BlockContent::Diff(v) => {
            push_str(out, "### Diff: ");
            push_str(out, v.path.as_str());
            push_str(out, "\n\n```diff\n");
            write_hunks(out, &v.hunks);
            push_str(out, "```\n\n");
        },
        BlockContent::EmbeddingRef(v) => {
            push_str(out, "[embedding: model=");
            push_str(out, v.model.as_str());
            push_str(out, ", vector_id=");
            push_decimal(out, v.vector_id.len() as u64);
            push_str(out, " bytes]\n\n");
        },
        BlockContent::Image(v) => {
            push_str(out, "![");
            push_str(out, v.alt_text.as_str());
            push_str(out, "](data:");
            push_str(out, media_mime(v.media_type));
            push_str(out, ";base64,...");
            push_decimal(out, v.data.len() as u64);
            push_str(out, " bytes)\n\n");
        },
        BlockContent::Extension(v) => {
            push_str(out, "### Extension (");
            push_str(out, v.namespace.as_str());
            push_str(out, "/");
            push_str(out, v.extension_type.as_str());
            push_str(out, ")\n\n```\n");
            push_str(out, lossy(v.content.as_slice()).as_str());
            push_str(out, "\n```\n\n");
        },
        _ => {},
    }
    assert(out@ =~= before + spec_naive_block(block@));
}

/// The tagged markdown of one block; only text-bearing blocks give any.
pub open spec fn spec_realistic_block(b: BlockModel) -> Seq<char> {
    match b.content {
        ContentModel::Code(c) => "<source path=\""@ + c.path + "\" language=\""@ + spec_lang_display_name(c.lang) + "\">\n```"@ + spec_lang_display_name(c.lang) + "\n"@ + spec_utf8_lossy(c.content) + "\n```\n</source>\n\n"@,
        ContentModel::Conversation(c) => "<message role=\""@ + spec_role_display_name(c.role) + "\">\n"@ + spec_utf8_lossy(c.content) + "\n</message>\n\n"@,
        ContentModel::FileTree(c) => "<file_tree root=\""@ + c.root_path + "\">\n```\n"@ + spec_naive_tree(c.entries, 0) + "```\n</file_tree>\n\n"@,
        ContentModel::ToolResult(c) => "<tool_result>\n{\n  \"tool\": \""@ + c.tool_name + "\",\n  \"status\": \""@ + spec_status_display_name(c.status) + "\",\n  \"output\": "@ + spec_json_or_text(spec_utf8_lossy(c.content)) + "\n}\n</tool_result>\n\n"@,
        ContentModel::Document(c) => "<document title=\""@ + c.title + "\">\n"@ + spec_utf8_lossy(c.content) + "\n</document>\n\n"@,
        ContentModel::StructuredData(c) => "<data format=\""@ + spec_data_format_display_name(c.format) + "\">\n"@ + spec_utf8_lossy(c.content) + "\n</data>\n\n"@,
        ContentModel::Diff(c) => "<diff path=\""@ + c.path + "\">\n```diff\n"@ + spec_hunks_block(c.hunks) + "```\n</diff>\n\n"@,
        ContentModel::Extension(c) => "<extension namespace=\""@ + c.namespace + "\" type=\""@ + c.extension_type + "\">\n"@ + spec_utf8_lossy(c.content) + "\n</extension>\n\n"@,
        _ => Seq::empty(),
    }
}

fn push_realistic_block(out: &mut String, block: &Block)
    ensures
        final(out)@ == old(out)@ + spec_realistic_block(block@),
{
    let ghost before = out@;
    match &block.content {
        BlockContent::Code(v) => {
            push_str(out, "<source path=\"");
            push_str(out, v.path.as_str());
            push_str(out, "\" language=\"");
            push_str(out, lang_display_name(v.lang));
            push_str(out, "\">\n```");
            push_str(out, lang_display_name(v.lang));
            push_str(out, "\n");
            push_str(out, lossy(v.content.as_slice()).as_str());
            push_str(out, "\n```\n</source>\n\n");
        },
        BlockContent::Conversation(v) => {
            push_str(out, "<message role=\"");
            push_str(out, role_display_name(v.role));
            push_str(out, "\">\n");
            push_str(out, lossy(v.content.as_slice()).as_str());
            push_str(out, "\n</message>\n\n");
        },
        BlockContent::FileTree(v) => {
            push_str(out, "<file_tree root=\"");
            push_str(out, v.root_path.as_str());
            push_str(out, "\">\n```\n");
            render_tree_entries_naive(out, v.entries.as_slice(), 0);
            push_str(out, "```\n</file_tree>\n\n");
        },
        BlockContent::ToolResult(v) => {
            push_str(out, "<tool_result>\n{\n  \"tool\": \"");
            push_str(out, v.tool_name.as_str());
            push_str(out, "\",\n  \"status\": \"");
            push_str(out, status_display_name(v.status));
            push_str(out, "\",\n  \"output\": ");
            push_str(out, json_or_text(lossy(v.content.as_slice()).as_str()).as_str());
            push_str(out, "\n}\n</tool_result>\n\n");
        },
        BlockContent::Document(v) => {
            push_str(out, "<document title=\"");
            push_str(out, v.title.as_str());
            push_str(out, "\">\n");
            push_str(out, lossy(v.content.as_slice()).as_str());
            push_str(out, "\n</document>\n\n");
        },
        BlockContent::StructuredData(v) => {
            push_str(out, "<data format=\"");
            push_str(out, data_format_display_name(v.format));
            push_str(out, "\">\n");
            push_str(out, lossy(v.content.as_slice()).as_str());
            push_str(out, "\n</data>\n\n");
        },
        BlockContent::Diff(v) => {
            push_str(out, "<diff path=\"");
            push_str(out, v.path.as_str());
            push_str(out, "\">\n```diff\n");
            write_hunks(out, &v.hunks);
            push_str(out, "```\n</diff>\n\n");
        },
        BlockContent::Extension(v) => {
            push_str(out, "<extension namespace=\"");
            push_str(out, v.namespace.as_str());
            push_str(out, "\" type=\"");
            push_str(out, v.extension_type.as_str());
            push_str(out, "\">\n");
            push_str(out, lossy(v.content.as_slice()).as_str());
            push_str(out, "\n</extension>\n\n");
        },
        _ => {},
    }
    assert(out@ =~= before + spec_realistic_block(block@));
}

/// A fold of a per-block rendering over blocks.
pub open spec fn spec_concat_blocks(bs: Seq<BlockModel>, f: spec_fn(BlockModel) -> Seq<char>) -> Seq<char>
    decreases bs.len(),
{
    if bs.len() == 0 {
        Seq::empty()
    } else {
        spec_concat_blocks(bs.drop_last(), f) + f(bs.last())
    }
}

/// The naive markdown of all blocks: fenced code, headings, no wrapper.
pub open spec fn spec_naive_markdown(bs: Seq<BlockModel>) -> Seq<char> {
    spec_concat_blocks(bs, |b: BlockModel| spec_naive_block(b))
}

/// The tagged markdown of all blocks inside a `<context>` wrapper.
pub open spec fn spec_realistic_markdown(bs: Seq<BlockModel>) -> Seq<char> {
    "<context>\n"@ + spec_concat_blocks(bs, |b: BlockModel| spec_realistic_block(b)) + "</context>\n"@
}

/// Render blocks as naive markdown.
pub fn build_naive_markdown(blocks: &[Block]) -> (r: String)
    ensures
        r@ == spec_naive_markdown(blocks@.map_values(|b: Block| b@)),
{
    let ghost bs = blocks@.map_values(|b: Block| b@);
    let ghost f = |b: BlockModel| spec_naive_block(b);
    let mut out = String::new();
    let mut i: usize = 0;
    assert(bs.take(0) =~= Seq::<BlockModel>::empty());
    while i < blocks.len()
        invariant
            i <= blocks@.len(),
            bs == blocks@.map_values(|b: Block| b@),
            f == (|b: BlockModel| spec_naive_block(b)),
            out@ == spec_concat_blocks(bs.take(i as int), f),
        decreases blocks@.len() - i,
    {
        push_naive_block(&mut out, &blocks[i]);
        assert(bs.take(i + 1).drop_last() =~= bs.take(i as int));
        i = i + 1;
    }
    assert(bs.take(i as int) =~= bs);
    out
}

/// Render blocks as tagged markdown inside `<context>`.
pub fn build_realistic_markdown(blocks: &[Block]) -> (r: String)
    ensures
        r@ == spec_realistic_markdown(blocks@.map_values(|b: Block| b@)),
{
    let ghost bs = blocks@.map_values(|b: Block| b@);
    let ghost f = |b: BlockModel| spec_realistic_block(b);
    let mut out = String::new();
    push_str(&mut out, "<context>\n");
    let ghost start = out@;
    let mut i: usize = 0;
    assert(bs.take(0) =~= Seq::<BlockModel>::empty());
    assert(start + Seq::<char>::empty() =~= start);
    while i < blocks.len()
        invariant
            i <= blocks@.len(),
            bs == blocks@.map_values(|b: Block| b@),
            f == (|b: BlockModel| spec_realistic_block(b)),
            start == "<context>\n"@,
            out@ == start + spec_concat_blocks(bs.take(i as int), f),
        decreases blocks@.len() - i,
    {
        push_realistic_block(&mut out, &blocks[i]);
        assert(bs.take(i + 1).drop_last() =~= bs.take(i as int));
        i = i + 1;
    }
    assert(bs.take(i as int) =~= bs);
    push_str(&mut out, "</context>\n");
    out
}

} // verus!
