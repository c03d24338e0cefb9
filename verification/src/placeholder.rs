//! The one-line stand-in for a block that does not fit the budget.
use vstd::prelude::*;
use crate::block_type::BlockType;
use crate::budget::{block_type_label, spec_block_type_label};
use crate::config::OutputMode;
use crate::text::{push_decimal, push_str, spec_decimal};

verus! {

/// The placeholder text for each output mode.
pub open spec fn spec_placeholder(mode: OutputMode, bt: BlockType, description: Seq<char>, omitted_tokens: u32) -> Seq<char> {
    let label = spec_block_type_label(bt);
    let n = spec_decimal(omitted_tokens as nat);
    match mode {
        OutputMode::Xml => "<omitted type=\""@ + label + "\" desc=\""@ + description + "\" tokens=\""@ + n
            + "\" />"@,
        OutputMode::Markdown => "_[Omitted: "@ + label + " "@ + description + ", ~"@ + n + " tokens]_"@,
        OutputMode::Minimal => "[omitted: "@ + label + " "@ + description + " ~"@ + n + "tok]"@,
    }
}

/// Render the placeholder of a block: its type, description and the
/// tokens left out.
pub fn render_placeholder(mode: OutputMode, block_type: &BlockType, description: &str, omitted_tokens: u32) -> (r: String)
    ensures
        r@ == spec_placeholder(mode, *block_type, description@, omitted_tokens),
{
    let label = block_type_label(block_type);
    let mut out = String::new();
    match mode {
        OutputMode::Xml => {
            push_str(&mut out, "<omitted type=\"");
            push_str(&mut out, label);
            push_str(&mut out, "\" desc=\"");
            push_str(&mut out, description);
            push_str(&mut out, "\" tokens=\"");
            push_decimal(&mut out, omitted_tokens as u64);
            push_str(&mut out, "\" />");
        },
        OutputMode::Markdown => {
            push_str(&mut out, "_[Omitted: ");
            push_str(&mut out, label);
            push_str(&mut out, " ");
            push_str(&mut out, description);
            push_str(&mut out, ", ~");
            push_decimal(&mut out, omitted_tokens as u64);
            push_str(&mut out, " tokens]_");
        },
        OutputMode::Minimal => {
            push_str(&mut out, "[omitted: ");
            push_str(&mut out, label);
            push_str(&mut out, " ");
            push_str(&mut out, description);
            push_str(&mut out, " ~");
            push_decimal(&mut out, omitted_tokens as u64);
            push_str(&mut out, "tok]");
        },
    }
    assert(out@ =~= spec_placeholder(mode, *block_type, description@, omitted_tokens));
    out
}

} // verus!
