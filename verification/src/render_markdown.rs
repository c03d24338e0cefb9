//! The markdown rendering of decoded blocks.
use vstd::prelude::*;
use vstd::string::StrSliceExecFns;
use crate::block::{Block, BlockContent, BlockModel, ContentModel};
use crate::budget::{DecisionModel, RenderDecision};
use crate::config::OutputMode;
use crate::error::DriverError;
use crate::placeholder::render_placeholder;
use crate::render_xml::{
    content_to_string, data_format_display_name, format_hint_display_name, hunks_text_checked, join_parts,
    lang_display_name, lemma_decision_prefix_error, lemma_parts_prefix_error,
    media_type_display_name, render_file_tree_entries, role_display_name, spec_block_refs,
    spec_data_format_display_name, spec_decision_parts, spec_format_hint_display_name,
    spec_hunks_result, spec_items, spec_join, spec_lang_display_name, spec_media_type_display_name,
    spec_render_parts, spec_role_display_name, spec_status_display_name, spec_text, spec_then,
    spec_tree_entries, status_display_name,
};
use crate::text::{push_hex2, push_str, spec_hex2, spec_utf8_lossy, utf8_lossy};

verus! {


/// What `char::to_uppercase` yields for `c`, as text.
pub uninterp spec fn spec_char_upper(c: char) -> Seq<char>;

/// Calls `char::to_uppercase` on `c` and collects the characters it
/// yields. The contract names the result.
#[verifier::external_body]
fn char_to_uppercase(c: char) -> (r: String)
    ensures
        r@ == spec_char_upper(c),
{
    c.to_uppercase().collect()
}

/// The text with its first character upper-cased.
pub open spec fn spec_capitalize_first(s: Seq<char>) -> Seq<char> {
    if s.len() == 0 {
        Seq::empty()
    } else {
        spec_char_upper(s[0]) + s.subrange(1, s.len() as int)
    }
}

/// Upper-case the first character of a text.
pub fn capitalize_first(s: &str) -> (r: String)
    ensures
        r@ == spec_capitalize_first(s@),
{
    let n = s.unicode_len();
    if n == 0 {
        return String::new();
    }
    let mut out = char_to_uppercase(s.get_char(0));
    push_str(&mut out, s.substring_char(1, n));
    out
}

/// The markdown text for a block. `use_summary` shows a code block's
/// summary in place of its content, when it has one.
pub open spec fn spec_markdown_block(b: BlockModel, index: usize, use_summary: bool) -> Result<Seq<char>, DriverError> {
    let us = use_summary && b.summary is Some;
    match b.content {
        ContentModel::Code(c) => if us {
            Ok("## "@ + c.path + " (summary)\n\n"@ + b.summary->Some_0)
        } else {
            spec_then(spec_text(c.content, index), |t: Seq<char>| "## "@ + c.path + "\n\n```"@ + spec_lang_display_name(c.lang) + "\n"@ + t + "\n```"@)
        },
        ContentModel::Conversation(c) => spec_then(spec_text(c.content, index), |t: Seq<char>| "**"@ + spec_capitalize_first(spec_role_display_name(c.role)) + "**: "@ + t),
        ContentModel::FileTree(c) => Ok("### File Tree: "@ + c.root_path + "\n\n```\n"@ + spec_tree_entries(c.entries, 0) + "```"@),
        ContentModel::ToolResult(c) => spec_then(spec_text(c.content, index), |t: Seq<char>| "### Tool: "@ + c.tool_name + " ("@ + spec_status_display_name(c.status) + ")\n\n"@ + t),
        ContentModel::Document(c) => spec_then(spec_text(c.content, index), |t: Seq<char>| "### Document: "@ + c.title + " ["@ + spec_format_hint_display_name(c.format_hint) + "]\n\n"@ + t),
        ContentModel::StructuredData(c) => spec_then(spec_text(c.content, index), |t: Seq<char>| "```"@ + spec_data_format_display_name(c.format) + "\n"@ + t + "\n```"@),
        ContentModel::Diff(c) => spec_then(spec_hunks_result(c.hunks, index), |t: Seq<char>| "### Diff: "@ + c.path + "\n\n```diff\n"@ + t + "```"@),
        ContentModel::EmbeddingRef(c) => Ok("*[Embedding ref: model="@ + c.model + "]*"@),
        ContentModel::Image(c) => spec_then(spec_text(c.data, index), |t: Seq<char>| "### Image ("@ + spec_media_type_display_name(c.media_type) + "): "@ + c.alt_text + "\n\n"@ + t),
        ContentModel::Extension(c) => spec_then(spec_text(c.content, index), |t: Seq<char>| "### Extension: "@ + c.namespace + "/"@ + c.extension_type + "\n\n"@ + t),
        ContentModel::Annotation(_) => Ok(Seq::empty()),
        ContentModel::End => Ok(Seq::empty()),
        ContentModel::Unknown { type_id, body } => Ok("<!-- unknown block type 0x"@ + spec_hex2(type_id) + " -->\n"@ + spec_utf8_lossy(body)),
    }
}

/// The markdown text for a sequence of blocks, each shown by its summary
/// when it has one.
pub open spec fn spec_markdown_all(bs: Seq<BlockModel>) -> Result<Seq<char>, DriverError> {
    match spec_render_parts(bs, |b: BlockModel, i: usize| spec_markdown_block(b, i, b.summary is Some)) {
        Err(e) => Err(e),
        Ok(ps) => Ok(spec_join(ps, "\n\n"@)),
    }
}

/// The markdown text for blocks rendered by their decisions.
pub open spec fn spec_markdown_decisions(items: Seq<(BlockModel, DecisionModel)>) -> Result<Seq<char>, DriverError> {
    match spec_decision_parts(items, |b: BlockModel, i: usize, s: bool| spec_markdown_block(b, i, s), OutputMode::Markdown) {
        Err(e) => Err(e),
        Ok(ps) => if ps.len() == 0 {
            Err(DriverError::EmptyInput)
        } else {
            Ok(spec_join(ps, "\n\n"@))
        },
    }
}

/// Renders blocks as markdown text.
pub struct MarkdownRenderer;

impl MarkdownRenderer {
    /// Render every block, each by its summary when it has one, separated
    /// by blank lines.
    ///
    /// # Errors
    ///
    /// `InvalidContent` for the first block whose content is not UTF-8.
    pub fn render_all(blocks: &[&Block]) -> (r: Result<String, DriverError>)
        ensures
            r matches Ok(s) ==> spec_markdown_all(spec_block_refs(blocks@)) == Ok::<Seq<char>, DriverError>(s@),
            r matches Err(e) ==> spec_markdown_all(spec_block_refs(blocks@)) == Err::<Seq<char>, DriverError>(e),
    {
        let ghost bs = spec_block_refs(blocks@);
        let ghost f = |b: BlockModel, i: usize| spec_markdown_block(b, i, b.summary is Some);
        let mut parts: Vec<String> = Vec::new();
        let mut i: usize = 0;
        assert(bs.take(0) =~= Seq::<BlockModel>::empty());
        assert(parts@.map_values(|s: String| s@) =~= Seq::<Seq<char>>::empty());
        while i < blocks.len()
            invariant
                i <= blocks@.len(),
                bs == spec_block_refs(blocks@),
                f == (|b: BlockModel, i: usize| spec_markdown_block(b, i, b.summary is Some)),
                spec_render_parts(bs.take(i as int), f) == Ok::<Seq<Seq<char>>, DriverError>(parts@.map_values(|s: String| s@)),
            decreases blocks@.len() - i,
        {
            assert(bs.take(i + 1).drop_last() =~= bs.take(i as int));
            assert(bs.take(i + 1).last() == blocks@[i as int]@);
            let use_summary = blocks[i].summary.is_some();
            match Self::render_block_inner(blocks[i], i, use_summary) {
                Ok(p) => {
                    let ghost before = parts@;
                    parts.push(p);
                    assert(parts@.map_values(|s: String| s@) =~= before.map_values(|s: String| s@).push(p@));
                },
                Err(e) => {
                    proof {
                        lemma_parts_prefix_error(bs, f, (i + 1) as nat);
                    }
                    return Err(e);
                },
            }
            i = i + 1;
        }
        assert(bs.take(i as int) =~= bs);
        Ok(join_parts(&parts))
    }

    /// Render blocks by their decisions: in full, by summary, as a
    /// placeholder, or not at all.
    ///
    /// # Errors
    ///
    /// `InvalidContent` for the first rendered block whose content is not
    /// UTF-8, `EmptyInput` when every block is omitted.
    pub fn render_all_with_decisions(items: &[(&Block, &RenderDecision)]) -> (r: Result<String, DriverError>)
        ensures
            r matches Ok(s) ==> spec_markdown_decisions(spec_items(items@)) == Ok::<Seq<char>, DriverError>(s@),
            r matches Err(e) ==> spec_markdown_decisions(spec_items(items@)) == Err::<Seq<char>, DriverError>(e),
    {
        let ghost its = spec_items(items@);
        let ghost f = |b: BlockModel, i: usize, s: bool| spec_markdown_block(b, i, s);
        let mut parts: Vec<String> = Vec::new();
        let mut i: usize = 0;
        assert(its.take(0) =~= Seq::<(BlockModel, DecisionModel)>::empty());
        assert(parts@.map_values(|s: String| s@) =~= Seq::<Seq<char>>::empty());
        while i < items.len()
            invariant
                i <= items@.len(),
                its == spec_items(items@),
                f == (|b: BlockModel, i: usize, s: bool| spec_markdown_block(b, i, s)),
                spec_decision_parts(its.take(i as int), f, OutputMode::Markdown) == Ok::<Seq<Seq<char>>, DriverError>(
                    parts@.map_values(|s: String| s@),
                ),
            decreases items@.len() - i,
        {
            assert(its.take(i + 1).drop_last() =~= its.take(i as int));
            assert(its.take(i + 1).last() == (items@[i as int].0@, items@[i as int].1@));
            let (block, decision) = items[i];
            let ghost before = parts@;
            match decision {
                RenderDecision::Full => {
                    match Self::render_block_inner(block, i, false) {
                        Ok(p) => parts.push(p),
                        Err(e) => {
                            proof {
                                lemma_decision_prefix_error(its, f, OutputMode::Markdown, (i + 1) as nat);
                            }
                            return Err(e);
                        },
                    }
                },
                RenderDecision::Summary => {
                    match Self::render_block_inner(block, i, true) {
                        Ok(p) => parts.push(p),
                        Err(e) => {
                            proof {
                                lemma_decision_prefix_error(its, f, OutputMode::Markdown, (i + 1) as nat);
                            }
                            return Err(e);
                        },
                    }
                },
                RenderDecision::Placeholder { block_type, description, omitted_tokens } => {
                    parts.push(render_placeholder(OutputMode::Markdown, block_type, description.as_str(), *omitted_tokens));
                },
                RenderDecision::Omit => {},
            }
            assert(parts@.map_values(|s: String| s@) =~= spec_decision_parts(its.take(i + 1), f, OutputMode::Markdown)->Ok_0) by {
                if parts@.len() > before.len() {
                    assert(parts@.map_values(|s: String| s@) =~= before.map_values(|s: String| s@).push(parts@.last()@));
                }
            }
            i = i + 1;
        }
        assert(its.take(i as int) =~= its);
        if parts.len() == 0 {
            return Err(DriverError::EmptyInput);
        }
        Ok(join_parts(&parts))
    }

    /// Render one block.
    pub fn render_block_inner(block: &Block, index: usize, use_summary: bool) -> (r: Result<String, DriverError>)
        ensures
            r matches Ok(s) ==> spec_markdown_block(block@, index, use_summary) == Ok::<Seq<char>, DriverError>(s@),
            r matches Err(e) ==> spec_markdown_block(block@, index, use_summary) == Err::<Seq<char>, DriverError>(e),
    {
        let us = use_summary && block.summary.is_some();
        let mut out = String::new();
        match &block.content {
            BlockContent::Code(v) => {
                if us {
                    let summary_text = match &block.summary {
                        Some(s) => s.text.clone(),
                        None => String::new(),
                    };
                    push_str(&mut out, "## ");
                    push_str(&mut out, v.path.as_str());
                    push_str(&mut out, " (summary)\n\n");
                    push_str(&mut out, summary_text.as_str());
                } else {
                    let text = match content_to_string(v.content.as_slice(), index) {
                        Ok(t) => t,
                        Err(e) => return Err(e),
                    };
                    push_str(&mut out, "## ");
                    push_str(&mut out, v.path.as_str());
                    push_str(&mut out, "\n\n```");
                    push_str(&mut out, lang_display_name(v.lang));
                    push_str(&mut out, "\n");
                    push_str(&mut out, text.as_str());
                    push_str(&mut out, "\n```");
                }
            },
            BlockContent::Conversation(v) => {
                let text = match content_to_string(v.content.as_slice(), index) {
                    Ok(t) => t,
                    Err(e) => return Err(e),
                };
                push_str(&mut out, "**");
                push_str(&mut out, capitalize_first(role_display_name(v.role)).as_str());
                push_str(&mut out, "**: ");
                push_str(&mut out, text.as_str());
            },
            BlockContent::FileTree(v) => {
                push_str(&mut out, "### File Tree: ");
                push_str(&mut out, v.root_path.as_str());
                push_str(&mut out, "\n\n```\n");
                push_str(&mut out, render_file_tree_entries(v.entries.as_slice(), 0).as_str());
                push_str(&mut out, "```");
            },
            BlockContent::ToolResult(v) => {
                let text = match content_to_string(v.content.as_slice(), index) {
                    Ok(t) => t,
                    Err(e) => return Err(e),
                };
                push_str(&mut out, "### Tool: ");
                push_str(&mut out, v.tool_name.as_str());
                push_str(&mut out, " (");
                push_str(&mut out, status_display_name(v.status));
                push_str(&mut out, ")\n\n");
                push_str(&mut out, text.as_str());
            },
            BlockContent::Document(v) => {
                let text = match content_to_string(v.content.as_slice(), index) {
                    Ok(t) => t,
                    Err(e) => return Err(e),
                };
                push_str(&mut out, "### Document: ");
                push_str(&mut out, v.title.as_str());
                push_str(&mut out, " [");
                push_str(&mut out, format_hint_display_name(v.format_hint));
                push_str(&mut out, "]\n\n");
                push_str(&mut out, text.as_str());
            },
            BlockContent::StructuredData(v) => {
                let text = match content_to_string(v.content.as_slice(), index) {
                    Ok(t) => t,
                    Err(e) => return Err(e),
                };
                push_str(&mut out, "```");
                push_str(&mut out, data_format_display_name(v.format));
                push_str(&mut out, "\n");
                push_str(&mut out, text.as_str());
                push_str(&mut out, "\n```");
            },
            BlockContent::Diff(v) => {
                let lines = match hunks_text_checked(&v.hunks, index) {
                    Ok(t) => t,
                    Err(e) => return Err(e),
                };
                push_str(&mut out, "### Diff: ");
                push_str(&mut out, v.path.as_str());
                push_str(&mut out, "\n\n```diff\n");
                push_str(&mut out, lines.as_str());
                push_str(&mut out, "```");
            },
            BlockContent::EmbeddingRef(v) => {
                push_str(&mut out, "*[Embedding ref: model=");
                push_str(&mut out, v.model.as_str());
                push_str(&mut out, "]*");
            },
            BlockContent::Image(v) => {
                let text = match content_to_string(v.data.as_slice(), index) {
                    Ok(t) => t,
                    Err(e) => return Err(e),
                };
                push_str(&mut out, "### Image (");
                push_str(&mut out, media_type_display_name(v.media_type));
                push_str(&mut out, "): ");
                push_str(&mut out, v.alt_text.as_str());
                push_str(&mut out, "\n\n");
                push_str(&mut out, text.as_str());
            },
            BlockContent::Extension(v) => {
                let text = match content_to_string(v.content.as_slice(), index) {
                    Ok(t) => t,
                    Err(e) => return Err(e),
                };
                push_str(&mut out, "### Extension: ");
                push_str(&mut out, v.namespace.as_str());
                push_str(&mut out, "/");
                push_str(&mut out, v.extension_type.as_str());
                push_str(&mut out, "\n\n");
                push_str(&mut out, text.as_str());
            },
            BlockContent::Annotation(_) => {},
            BlockContent::End => {},
            BlockContent::Unknown { type_id, body } => {
                push_str(&mut out, "<!-- unknown block type 0x");
                push_hex2(&mut out, *type_id);
                push_str(&mut out, " -->\n");
                push_str(&mut out, utf8_lossy(body.as_slice()).as_str());
            },
        }
        assert(spec_markdown_block(block@, index, use_summary) == Ok::<Seq<char>, DriverError>(out@));
        Ok(out)
    }
}

} // verus!
