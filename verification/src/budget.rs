//! The token budget: estimating what a block costs, reading priorities
//! from annotations, and deciding how each block is shown.
use vstd::prelude::*;
use std::collections::HashMap;
use vstd::string::StrSliceExecFns;
use vstd::utf8::{decode_utf8, encode_utf8, valid_utf8};
use crate::block::{Block, BlockContent, BlockModel, ContentModel};
use crate::block_type::BlockType;
use crate::enums::{AnnotationKind, Priority, spec_priority_from_byte};
use crate::file_tree::spec_entries_view;
use crate::render_xml::{
    spec_block_refs, data_format_display_name, hunks_text, render_file_tree_entries, role_display_name,
    spec_data_format_display_name, spec_hunks_text, spec_role_display_name, spec_tree_entries,
};
use crate::text::{push_hex2, push_str, repeat_char, spec_hex2, utf8_to_string};

verus! {

/// How a block is shown.
#[derive(Clone, Debug, PartialEq, Eq)]
pub enum RenderDecision {
    /// The whole content.
    Full,
    /// The summary in place of the content.
    Summary,
    /// A one-line stand-in.
    Placeholder { block_type: BlockType, description: String, omitted_tokens: u32 },
    /// Nothing.
    Omit,
}

/// The view of a [`RenderDecision`].
pub enum DecisionModel {
    Full,
    Summary,
    Placeholder { block_type: BlockType, description: Seq<char>, omitted_tokens: u32 },
    Omit,
}

impl View for RenderDecision {
    type V = DecisionModel;

    open spec fn view(&self) -> DecisionModel {
        match self {
            RenderDecision::Full => DecisionModel::Full,
            RenderDecision::Summary => DecisionModel::Summary,
            RenderDecision::Placeholder { block_type, description, omitted_tokens } => DecisionModel::Placeholder {
                block_type: *block_type,
                description: description@,
                omitted_tokens: *omitted_tokens,
            },
            RenderDecision::Omit => DecisionModel::Omit,
        }
    }
}

/// The short label of a block type in placeholders.
pub open spec fn spec_block_type_label(bt: BlockType) -> Seq<char> {
    match bt {
        BlockType::Code => "code"@,
        BlockType::Conversation => "conversation"@,
        BlockType::FileTree => "file-tree"@,
        BlockType::ToolResult => "tool-result"@,
        BlockType::Document => "document"@,
        BlockType::StructuredData => "data"@,
        BlockType::Diff => "diff"@,
        BlockType::Image => "image"@,
        BlockType::Extension => "extension"@,
        _ => "block"@,
    }
}

/// The short label of a block type in placeholders.
pub fn block_type_label(bt: &BlockType) -> (r: &'static str)
    ensures
        r@ == spec_block_type_label(*bt),
{
    match bt {
        BlockType::Code => "code",
        BlockType::Conversation => "conversation",
        BlockType::FileTree => "file-tree",
        BlockType::ToolResult => "tool-result",
        BlockType::Document => "document",
        BlockType::StructuredData => "data",
        BlockType::Diff => "diff",
        BlockType::Image => "image",
        BlockType::Extension => "extension",
        _ => "block",
    }
}

/// Estimates how many tokens a text costs. An estimate depends on the
/// text alone.
pub trait TokenEstimator {
    /// The estimate this estimator gives for a text.
    spec fn spec_estimate(&self, text: Seq<char>) -> u32;

    /// The estimated token count of `text`.
    fn estimate(&self, text: &str) -> (r: u32)
        ensures
            r == self.spec_estimate(text@),
    ;
}

/// The byte length of a text, truncated to 32 bits as the estimators
/// count it.
pub open spec fn spec_byte_count(text: Seq<char>) -> u32 {
    (encode_utf8(text).len() as usize) as u32
}

/// A quarter of the bytes, at least one for a text that is not empty.
pub open spec fn spec_heuristic_estimate(text: Seq<char>) -> u32 {
    if text.len() == 0 {
        0
    } else if spec_byte_count(text) / 4 >= 1 {
        spec_byte_count(text) / 4
    } else {
        1
    }
}

/// Estimates one token per four bytes.
pub struct HeuristicEstimator;

impl TokenEstimator for HeuristicEstimator {
    open spec fn spec_estimate(&self, text: Seq<char>) -> u32 {
        spec_heuristic_estimate(text)
    }

    fn estimate(&self, text: &str) -> (r: u32) {
        if text.unicode_len() == 0 {
            return 0;
        }
        let chars = #[verifier::truncate] (text.len() as u32);
        let q = chars / 4;
        if q >= 1 {
            q
        } else {
            1
        }
    }
}

/// Whether `c` has the Unicode `White_Space` property, which is what
/// `char::is_whitespace` tests.
pub open spec fn spec_is_whitespace(c: char) -> bool {
    ('\t' <= c && c <= '\r') || c == ' ' || c == '\u{85}' || c == '\u{A0}' || c == '\u{1680}' || (
    '\u{2000}' <= c && c <= '\u{200A}') || c == '\u{2028}' || c == '\u{2029}' || c == '\u{202F}'
        || c == '\u{205F}' || c == '\u{3000}'
}

/// Whether `c` has the Unicode `White_Space` property.
pub fn is_whitespace(c: char) -> (b: bool)
    ensures
        b == spec_is_whitespace(c),
{
    ('\t' <= c && c <= '\r') || c == ' ' || c == '\u{85}' || c == '\u{A0}' || c == '\u{1680}' || (
    '\u{2000}' <= c && c <= '\u{200A}') || c == '\u{2028}' || c == '\u{2029}' || c == '\u{202F}'
        || c == '\u{205F}' || c == '\u{3000}'
}

/// Scanning text line by line (lines end at `'\n'`): the number of lines
/// with a character other than white space, the number of those that
/// start with a space or a tab, and the state of the line being read
/// (at its start, seen a non-blank character, started indented).
pub struct LineScan {
    pub non_empty: nat,
    pub indented: nat,
    pub at_start: bool,
    pub blank: bool,
    pub starts_indented: bool,
}

/// The scan state after the characters of `s`.
pub open spec fn spec_scan(s: Seq<char>) -> LineScan
    decreases s.len(),
{
    if s.len() == 0 {
        LineScan { non_empty: 0, indented: 0, at_start: true, blank: true, starts_indented: false }
    } else {
        let st = spec_scan(s.drop_last());
        let c = s.last();
        if c == '\n' {
            LineScan {
                non_empty: if st.blank { st.non_empty } else { st.non_empty + 1 },
                indented: if !st.blank && st.starts_indented { st.indented + 1 } else { st.indented },
                at_start: true,
                blank: true,
                starts_indented: false,
            }
        } else {
            LineScan {
                non_empty: st.non_empty,
                indented: st.indented,
                at_start: false,
                blank: st.blank && spec_is_whitespace(c),
                starts_indented: if st.at_start { c == ' ' || c == '\t' } else { st.starts_indented },
            }
        }
    }
}

/// The scan with its last line counted.
pub open spec fn spec_line_counts(s: Seq<char>) -> (nat, nat) {
    let st = spec_scan(s);
    (
        if st.blank { st.non_empty } else { st.non_empty + 1 },
        if !st.blank && st.starts_indented { st.indented + 1 } else { st.indented },
    )
}

/// Code-like text: more than 30% of its non-blank lines are indented.
pub open spec fn spec_code_like(s: Seq<char>) -> bool {
    let (n, k) = spec_line_counts(s);
    n > 0 && (k * 100) / n > 30
}

/// A third of the bytes for code-like text, a quarter otherwise, at least
/// one for a text that is not empty.
pub open spec fn spec_code_aware_estimate(text: Seq<char>) -> u32 {
    let d: u32 = if spec_code_like(text) { 3 } else { 4 };
    if text.len() == 0 {
        0
    } else if spec_byte_count(text) / d >= 1 {
        spec_byte_count(text) / d
    } else {
        1
    }
}

/// Estimates tokens with a smaller ratio for indented, code-like text.
pub struct CodeAwareEstimator;

impl CodeAwareEstimator {
    /// Whether more than 30% of the non-blank lines are indented.
    pub fn is_code_like(text: &str) -> (b: bool)
        ensures
            b == spec_code_like(text@),
    {
        let n = text.unicode_len();
        let mut non_empty: u64 = 0;
        let mut indented: u64 = 0;
        let mut at_start = true;
        let mut blank = true;
        let mut starts_indented = false;
        let mut i: usize = 0;
        while i < n
            invariant
                i <= n,
                n == text@.len(),
                non_empty <= i,
                (if blank { non_empty as int } else { non_empty + 1 }) <= i,
                indented <= non_empty,
                spec_scan(text@.take(i as int)) == (LineScan {
                    non_empty: non_empty as nat,
                    indented: indented as nat,
                    at_start,
                    blank,
                    starts_indented,
                }),
            decreases n - i,
        {
            let c = text.get_char(i);
            if c == '\n' {
                if !blank {
                    if starts_indented {
                        indented = indented + 1;
                    }
                    non_empty = non_empty + 1;
                }
                at_start = true;
                blank = true;
                starts_indented = false;
            } else {
                if at_start {
                    starts_indented = c == ' ' || c == '\t';
                }
                at_start = false;
                blank = blank && is_whitespace(c);
            }
            assert(text@.take(i + 1).drop_last() =~= text@.take(i as int));
            i = i + 1;
        }
        assert(text@.take(i as int) =~= text@);
        if !blank {
            if starts_indented {
                indented = indented + 1;
            }
            non_empty = non_empty + 1;
        }
        if non_empty == 0 {
            return false;
        }
        (indented as u128) * 100 / (non_empty as u128) > 30
    }
}

impl TokenEstimator for CodeAwareEstimator {
    open spec fn spec_estimate(&self, text: Seq<char>) -> u32 {
        spec_code_aware_estimate(text)
    }

    fn estimate(&self, text: &str) -> (r: u32) {
        if text.unicode_len() == 0 {
            return 0;
        }
        let chars = #[verifier::truncate] (text.len() as u32);
        let divisor: u32 = if Self::is_code_like(text) { 3 } else { 4 };
        let q = chars / divisor;
        if q >= 1 {
            q
        } else {
            1
        }
    }
}

/// The priority an annotation block gives, if it is a priority
/// annotation with a valid first value byte.
pub open spec fn spec_priority_annotation(b: BlockModel) -> Option<(u32, Priority)> {
    match b.content {
        ContentModel::Annotation(a) => if a.kind == AnnotationKind::Priority && a.value.len() > 0 {
            match spec_priority_from_byte(a.value[0]) {
                Ok(p) => Some((a.target_block_id, p)),
                Err(_) => None,
            }
        } else {
            None
        },
        _ => None,
    }
}

/// The priorities that the annotations among `bs` give, by target index;
/// a later annotation of the same target wins.
pub open spec fn spec_priorities(bs: Seq<BlockModel>) -> Map<u32, Priority>
    decreases bs.len(),
{
    if bs.len() == 0 {
        Map::empty()
    } else {
        match spec_priority_annotation(bs.last()) {
            Some((t, p)) => spec_priorities(bs.drop_last()).insert(t, p),
            None => spec_priorities(bs.drop_last()),
        }
    }
}

/// Collect the priorities that annotation blocks assign, by the index of
/// the block they target.
pub fn resolve_priorities(blocks: &[Block]) -> (r: HashMap<u32, Priority>)
    ensures
        r@ == spec_priorities(blocks@.map_values(|b: Block| b@)),
{
    broadcast use vstd::std_specs::hash::group_hash_axioms;
    let ghost bs = blocks@.map_values(|b: Block| b@);
    let mut map: HashMap<u32, Priority> = HashMap::new();
    let mut i: usize = 0;
    assert(bs.take(0) =~= Seq::<BlockModel>::empty());
    while i < blocks.len()
        invariant
            i <= blocks@.len(),
            bs == blocks@.map_values(|b: Block| b@),
            map@ == spec_priorities(bs.take(i as int)),
        decreases blocks@.len() - i,
    {
        assert(bs.take(i + 1).drop_last() =~= bs.take(i as int));
        assert(bs.take(i + 1).last() == blocks@[i as int]@);
        match &blocks[i].content {
            BlockContent::Annotation(ann) => {
                if ann.kind == AnnotationKind::Priority && ann.value.len() > 0 {
                    match Priority::from_wire_byte(ann.value[0]) {
                        Ok(p) => {
                            map.insert(ann.target_block_id, p);
                        },
                        Err(_) => {},
                    }
                }
            },
            _ => {},
        }
        i = i + 1;
    }
    assert(bs.take(i as int) =~= bs);
    map
}

/// The text of a content for estimation: its UTF-8 decoding, or one `x`
/// per byte when it is not UTF-8.
pub open spec fn spec_text_or_x(content: Seq<u8>) -> Seq<char> {
    if valid_utf8(content) {
        decode_utf8(content)
    } else {
        Seq::new(content.len(), |_i: int| 'x')
    }
}

fn text_or_x(content: &[u8]) -> (r: String)
    ensures
        r@ == spec_text_or_x(content@),
{
    match utf8_to_string(vstd::slice::slice_to_vec(content)) {
        Some(s) => s,
        None => repeat_char('x', content.len()),
    }
}

/// The text whose tokens a block is estimated to cost in full.
pub open spec fn spec_estimate_text(b: BlockModel) -> Seq<char> {
    match b.content {
        ContentModel::Code(c) => spec_text_or_x(c.content),
        ContentModel::Conversation(c) => spec_text_or_x(c.content),
        ContentModel::ToolResult(c) => spec_text_or_x(c.content),
        ContentModel::Document(c) => spec_text_or_x(c.content),
        ContentModel::StructuredData(c) => spec_text_or_x(c.content),
        ContentModel::Diff(d) => spec_hunks_text(d.hunks),
        ContentModel::Image(i) => spec_text_or_x(i.data),
        ContentModel::Extension(e) => spec_text_or_x(e.content),
        ContentModel::FileTree(t) => spec_tree_entries(t.entries, 0),
        ContentModel::EmbeddingRef(e) => "embedding: "@ + e.model,
        ContentModel::Unknown { body, .. } => Seq::new(body.len(), |_i: int| 'x'),
        ContentModel::Annotation(_) => Seq::empty(),
        ContentModel::End => Seq::empty(),
    }
}

/// The text whose tokens a block is estimated to cost in full.
pub fn estimate_block_text(block: &Block) -> (r: String)
    ensures
        r@ == spec_estimate_text(block@),
{
    match &block.content {
        BlockContent::Code(c) => text_or_x(c.content.as_slice()),
        BlockContent::Conversation(c) => text_or_x(c.content.as_slice()),
        BlockContent::ToolResult(c) => text_or_x(c.content.as_slice()),
        BlockContent::Document(c) => text_or_x(c.content.as_slice()),
        BlockContent::StructuredData(c) => text_or_x(c.content.as_slice()),
        BlockContent::Diff(d) => hunks_text(&d.hunks),
        BlockContent::Image(i) => text_or_x(i.data.as_slice()),
        BlockContent::Extension(e) => text_or_x(e.content.as_slice()),
        BlockContent::FileTree(t) => render_file_tree_entries(t.entries.as_slice(), 0),
        BlockContent::EmbeddingRef(e) => {
            let mut out = String::new();
            push_str(&mut out, "embedding: ");
            push_str(&mut out, e.model.as_str());
            out
        },
        BlockContent::Unknown { body, .. } => repeat_char('x', body.len()),
        BlockContent::Annotation(_) => String::new(),
        BlockContent::End => String::new(),
    }
}

/// What the allocation needs to know of a block.
#[derive(Clone, Copy, Debug, PartialEq, Eq, Structural)]
pub struct BlockBudgetInfo {
    pub priority: Priority,
    pub full_tokens: u32,
    pub summary_tokens: Option<u32>,
    pub has_summary: bool,
}

/// The priority of the block at an original index: from the annotations,
/// else `Normal`.
pub open spec fn spec_priority_of(m: Map<u32, Priority>, orig: usize) -> Priority {
    if m.contains_key(orig as u32) {
        m[orig as u32]
    } else {
        Priority::Normal
    }
}

/// The budget facts of one block.
pub open spec fn spec_info<E: TokenEstimator>(est: E, prios: Map<u32, Priority>, b: BlockModel, orig: usize) -> BlockBudgetInfo {
    BlockBudgetInfo {
        priority: spec_priority_of(prios, orig),
        full_tokens: est.spec_estimate(spec_estimate_text(b)),
        summary_tokens: match b.summary {
            Some(t) => Some(est.spec_estimate(t)),
            None => None,
        },
        has_summary: b.summary is Some,
    }
}

/// The budget facts of each block, paired with its original index.
pub open spec fn spec_infos<E: TokenEstimator>(est: E, prios: Map<u32, Priority>, bs: Seq<BlockModel>, orig: Seq<usize>) -> Seq<BlockBudgetInfo> {
    Seq::new(bs.len(), |i: int| spec_info(est, prios, bs[i], orig[i]))
}

/// Gather the budget facts of each block: its priority (looked up by its
/// original index), and the token estimates of its text and summary.
pub fn scan_blocks<E: TokenEstimator>(
    filtered: &[&Block],
    priorities: &HashMap<u32, Priority>,
    estimator: &E,
    original_indices: &[usize],
) -> (r: Vec<BlockBudgetInfo>)
    requires
        original_indices@.len() >= filtered@.len(),
    ensures
        r@ == spec_infos(*estimator, priorities@, spec_block_refs(filtered@), original_indices@),
{
    broadcast use vstd::std_specs::hash::group_hash_axioms;
    let mut out: Vec<BlockBudgetInfo> = Vec::new();
    let mut i: usize = 0;
    while i < filtered.len()
        invariant
            i <= filtered@.len(),
            original_indices@.len() >= filtered@.len(),
            out@ == spec_infos(*estimator, priorities@, spec_block_refs(filtered@), original_indices@).take(
                i as int,
            ),
        decreases filtered@.len() - i,
    {
        let block = filtered[i];
        let orig = original_indices[i];
        let priority = match priorities.get(&(orig as u32)) {
            Some(p) => *p,
            None => Priority::Normal,
        };
        let full_text = estimate_block_text(block);
        let full_tokens = estimator.estimate(full_text.as_str());
        let (summary_tokens, has_summary) = match &block.summary {
            Some(s) => (Some(estimator.estimate(s.text.as_str())), true),
            None => (None, false),
        };
        let ghost before = out@;
        out.push(BlockBudgetInfo { priority, full_tokens, summary_tokens, has_summary });
        proof {
            let all = spec_infos(*estimator, priorities@, spec_block_refs(filtered@), original_indices@);
            assert(spec_block_refs(filtered@)[i as int] == block@);
            assert(out@ =~= all.take(i + 1));
        }
        i = i + 1;
    }
    assert(out@ =~= spec_infos(*estimator, priorities@, spec_block_refs(filtered@), original_indices@));
    out
}

/// A short description of a block for placeholders.
pub open spec fn spec_description(b: BlockModel) -> Seq<char> {
    match b.content {
        ContentModel::Code(c) => c.path,
        ContentModel::Conversation(c) => spec_role_display_name(c.role) + " turn"@,
        ContentModel::FileTree(t) => "tree: "@ + t.root_path,
        ContentModel::ToolResult(t) => t.tool_name,
        ContentModel::Document(d) => d.title,
        ContentModel::StructuredData(d) => spec_data_format_display_name(d.format) + " data"@,
        ContentModel::Diff(d) => d.path,
        ContentModel::EmbeddingRef(e) => "embedding: "@ + e.model,
        ContentModel::Image(i) => i.alt_text,
        ContentModel::Extension(e) => e.namespace + "/"@ + e.extension_type,
        ContentModel::Unknown { type_id, .. } => "unknown 0x"@ + spec_hex2(type_id),
        ContentModel::Annotation(_) => Seq::empty(),
        ContentModel::End => Seq::empty(),
    }
}

/// A short description of a block for placeholders.
pub fn block_description(block: &Block) -> (r: String)
    ensures
        r@ == spec_description(block@),
{
    let mut out = String::new();
    match &block.content {
        BlockContent::Code(c) => push_str(&mut out, c.path.as_str()),
        BlockContent::Conversation(c) => {
            push_str(&mut out, role_display_name(c.role));
            push_str(&mut out, " turn");
        },
        BlockContent::FileTree(t) => {
            push_str(&mut out, "tree: ");
            push_str(&mut out, t.root_path.as_str());
        },
        BlockContent::ToolResult(t) => push_str(&mut out, t.tool_name.as_str()),
        BlockContent::Document(d) => push_str(&mut out, d.title.as_str()),
        BlockContent::StructuredData(d) => {
            push_str(&mut out, data_format_display_name(d.format));
            push_str(&mut out, " data");
        },
        BlockContent::Diff(d) => push_str(&mut out, d.path.as_str()),
        BlockContent::EmbeddingRef(e) => {
            push_str(&mut out, "embedding: ");
            push_str(&mut out, e.model.as_str());
        },
        BlockContent::Image(i) => push_str(&mut out, i.alt_text.as_str()),
        BlockContent::Extension(e) => {
            push_str(&mut out, e.namespace.as_str());
            push_str(&mut out, "/");
            push_str(&mut out, e.extension_type.as_str());
        },
        BlockContent::Unknown { type_id, .. } => {
            push_str(&mut out, "unknown 0x");
            push_hex2(&mut out, *type_id);
        },
        BlockContent::Annotation(_) => {},
        BlockContent::End => {},
    }
    assert(out@ =~= spec_description(block@));
    out
}

/// What a placeholder costs against the budget.
pub const PLACEHOLDER_TOKEN_COST: u32 = 10;

/// The placeholder decision for a block.
pub open spec fn spec_placeholder_decision(b: BlockModel, omitted_tokens: u32) -> DecisionModel {
    DecisionModel::Placeholder { block_type: b.block_type, description: spec_description(b), omitted_tokens }
}

/// The decision for one block and the budget left after it.
///
/// Critical blocks are shown in full whatever it costs. High blocks are
/// shown in full when they fit, else by summary when that fits, else in
/// full, using up the budget. Normal blocks are shown in full or by
/// summary when that fits, else as a placeholder. Low blocks are shown by
/// summary when that fits, else as a placeholder. Background blocks get a
/// placeholder while the budget pays for one, else nothing.
pub open spec fn spec_allocate_one(info: BlockBudgetInfo, b: BlockModel, remaining: u32) -> (DecisionModel, u32) {
    let ph = spec_placeholder_decision(b, info.full_tokens);
    let stok: u32 = match info.summary_tokens {
        Some(t) => t,
        None => 0,
    };
    match info.priority {
        Priority::Critical => (
            DecisionModel::Full,
            if info.full_tokens <= remaining { (remaining - info.full_tokens) as u32 } else { 0 },
        ),
        Priority::High => if info.full_tokens <= remaining {
            (DecisionModel::Full, (remaining - info.full_tokens) as u32)
        } else if info.has_summary && stok <= remaining {
            (DecisionModel::Summary, (remaining - stok) as u32)
        } else {
            (DecisionModel::Full, 0)
        },
        Priority::Normal => if info.full_tokens <= remaining {
            (DecisionModel::Full, (remaining - info.full_tokens) as u32)
        } else if info.has_summary && stok <= remaining {
            (DecisionModel::Summary, (remaining - stok) as u32)
        } else {
            (ph, remaining)
        },
        Priority::Low => if info.has_summary && stok <= remaining {
            (DecisionModel::Summary, (remaining - stok) as u32)
        } else {
            (ph, remaining)
        },
        Priority::Background => if PLACEHOLDER_TOKEN_COST <= remaining {
            (ph, (remaining - PLACEHOLDER_TOKEN_COST) as u32)
        } else {
            (DecisionModel::Omit, remaining)
        },
    }
}

/// The rank of a priority: 0 for `Critical` up to 4 for `Background`.
pub open spec fn spec_rank(p: Priority) -> nat {
    match p {
        Priority::Critical => 0,
        Priority::High => 1,
        Priority::Normal => 2,
        Priority::Low => 3,
        Priority::Background => 4,
    }
}

fn rank(p: Priority) -> (r: u8)
    ensures
        r == spec_rank(p),
{
    match p {
        Priority::Critical => 0,
        Priority::High => 1,
        Priority::Normal => 2,
        Priority::Low => 3,
        Priority::Background => 4,
    }
}

/// The decisions and the budget left after handling, in order of rank
/// and, within a rank, of index, every block of rank below `r` and the
/// blocks of rank `r` before index `k`. Blocks not handled yet are
/// omitted.
pub open spec fn spec_allocate_upto(
    infos: Seq<BlockBudgetInfo>,
    bs: Seq<BlockModel>,
    budget: u32,
    r: nat,
    k: nat,
) -> (Seq<DecisionModel>, u32)
    decreases r, k,
{
    if k == 0 {
        if r == 0 {
            (Seq::new(infos.len(), |_i: int| DecisionModel::Omit), budget)
        } else {
            spec_allocate_upto(infos, bs, budget, (r - 1) as nat, infos.len())
        }
    } else {
        let (ds, rem) = spec_allocate_upto(infos, bs, budget, r, (k - 1) as nat);
        let i = k - 1;
        if spec_rank(infos[i].priority) == r {
            let (d, rem2) = spec_allocate_one(infos[i], bs[i], rem);
            (ds.update(i, d), rem2)
        } else {
            (ds, rem)
        }
    }
}

/// The decisions for all blocks: handled from the highest priority to the
/// lowest, each priority in block order, against one shared budget.
pub open spec fn spec_allocate(infos: Seq<BlockBudgetInfo>, bs: Seq<BlockModel>, budget: u32) -> Seq<DecisionModel> {
    spec_allocate_upto(infos, bs, budget, 4, infos.len()).0
}

/// The placeholder for a block that is left out.
pub fn make_placeholder(block: &Block, omitted_tokens: u32) -> (r: RenderDecision)
    ensures
        r@ == spec_placeholder_decision(block@, omitted_tokens),
{
    RenderDecision::Placeholder {
        block_type: block.block_type,
        description: block_description(block),
        omitted_tokens,
    }
}

/// Decide how each block is shown within `budget` tokens.
pub fn allocate_budget(infos: &[BlockBudgetInfo], budget: u32, filtered: &[&Block]) -> (r: Vec<RenderDecision>)
    requires
        infos@.len() <= filtered@.len(),
    ensures
        r@.map_values(|d: RenderDecision| d@) == spec_allocate(infos@, spec_block_refs(filtered@), budget),
{
    let n = infos.len();
    let ghost bs = spec_block_refs(filtered@);
    let mut decisions: Vec<RenderDecision> = Vec::new();
    let mut z: usize = 0;
    while z < n
        invariant
            z <= n,
            decisions@.len() == z,
            forall|j: int| 0 <= j < z ==> #[trigger] decisions@[j]@ == DecisionModel::Omit,
        decreases n - z,
    {
        decisions.push(RenderDecision::Omit);
        z = z + 1;
    }
    assert(decisions@.map_values(|d: RenderDecision| d@) =~= Seq::new(n as nat, |_i: int| DecisionModel::Omit));
    let mut remaining = budget;
    let mut r: u8 = 0;
    while r < 5
        invariant
            r <= 5,
            n == infos@.len(),
            decisions@.len() == n,
            infos@.len() <= filtered@.len(),
            bs == spec_block_refs(filtered@),
            r > 0 ==> (decisions@.map_values(|d: RenderDecision| d@), remaining) == spec_allocate_upto(
                infos@,
                bs,
                budget,
                (r - 1) as nat,
                n as nat,
            ),
            r == 0 ==> (decisions@.map_values(|d: RenderDecision| d@), remaining) == spec_allocate_upto(
                infos@,
                bs,
                budget,
                0,
                0,
            ),
        decreases 5 - r,
    {
        let mut k: usize = 0;
        while k < n
            invariant
                k <= n,
                r < 5,
                n == infos@.len(),
                decisions@.len() == n,
                infos@.len() <= filtered@.len(),
                bs == spec_block_refs(filtered@),
                (decisions@.map_values(|d: RenderDecision| d@), remaining) == spec_allocate_upto(
                    infos@,
                    bs,
                    budget,
                    r as nat,
                    k as nat,
                ),
            decreases n - k,
        {
            let info = infos[k];
            if rank(info.priority) == r {
                let ghost before = decisions@.map_values(|d: RenderDecision| d@);
                let block = filtered[k];
                assert(bs[k as int] == block@);
                let stok: u32 = match info.summary_tokens {
                    Some(t) => t,
                    None => 0,
                };
                let d = match info.priority {
                    Priority::Critical => {
                        remaining = remaining.saturating_sub(info.full_tokens);
                        RenderDecision::Full
                    },
                    Priority::High => {
                        if info.full_tokens <= remaining {
                            remaining = remaining - info.full_tokens;
                            RenderDecision::Full
                        } else if info.has_summary && stok <= remaining {
                            remaining = remaining - stok;
                            RenderDecision::Summary
                        } else {
                            remaining = 0;
                            RenderDecision::Full
                        }
                    },
                    Priority::Normal => {
                        if info.full_tokens <= remaining {
                            remaining = remaining - info.full_tokens;
                            RenderDecision::Full
                        } else if info.has_summary && stok <= remaining {
                            remaining = remaining - stok;
                            RenderDecision::Summary
                        } else {
                            make_placeholder(block, info.full_tokens)
                        }
                    },
                    Priority::Low => {
                        if info.has_summary && stok <= remaining {
                            remaining = remaining - stok;
                            RenderDecision::Summary
                        } else {
                            make_placeholder(block, info.full_tokens)
                        }
                    },
                    Priority::Background => {
                        if PLACEHOLDER_TOKEN_COST <= remaining {
                            remaining = remaining - PLACEHOLDER_TOKEN_COST;
                            make_placeholder(block, info.full_tokens)
                        } else {
                            RenderDecision::Omit
                        }
                    },
                };
                decisions.set(k, d);
                assert(decisions@.map_values(|d: RenderDecision| d@) =~= before.update(k as int, d@));
            }
            k = k + 1;
        }
        r = r + 1;
    }
    decisions
}

/// The decisions for the blocks shown, with the priorities read from all
/// blocks and the estimates of `estimator`.
pub open spec fn spec_budget_decisions<E: TokenEstimator>(
    all: Seq<BlockModel>,
    shown: Seq<BlockModel>,
    orig: Seq<usize>,
    budget: u32,
    est: E,
) -> Seq<DecisionModel> {
    spec_allocate(spec_infos(est, spec_priorities(all), shown, orig), shown, budget)
}

/// The decisions for the blocks shown, with the priorities read from all
/// blocks and the estimates of `estimator`.
pub fn compute_budget_decisions<E: TokenEstimator>(
    all_blocks: &[Block],
    filtered: &[&Block],
    original_indices: &[usize],
    budget: u32,
    estimator: &E,
) -> (r: Vec<RenderDecision>)
    requires
        original_indices@.len() >= filtered@.len(),
    ensures
        r@.map_values(|d: RenderDecision| d@) == spec_budget_decisions(
            all_blocks@.map_values(|b: Block| b@),
            spec_block_refs(filtered@),
            original_indices@,
            budget,
            *estimator,
        ),
{
    let priorities = resolve_priorities(all_blocks);
    let infos = scan_blocks(filtered, &priorities, estimator, original_indices);
    allocate_budget(infos.as_slice(), budget, filtered)
}

/// What a block of each priority may become, whatever budget is left.
pub open spec fn spec_decision_fits_priority(info: BlockBudgetInfo, b: BlockModel, d: DecisionModel) -> bool {
    &&& info.priority == Priority::Critical ==> d == DecisionModel::Full
    &&& info.priority == Priority::High ==> (d is Full || d is Summary)
    &&& info.priority == Priority::Normal ==> !(d is Omit)
    &&& info.priority == Priority::Low ==> (d is Summary || d is Placeholder)
    &&& info.priority == Priority::Background ==> (d is Placeholder || d is Omit)
    &&& d is Summary ==> info.has_summary
    &&& d is Placeholder ==> d == spec_placeholder_decision(b, info.full_tokens)
}

proof fn lemma_one_fits(info: BlockBudgetInfo, b: BlockModel, rem: u32)
    ensures
        spec_decision_fits_priority(info, b, spec_allocate_one(info, b, rem).0),
{
}

proof fn lemma_upto_handled(infos: Seq<BlockBudgetInfo>, bs: Seq<BlockModel>, budget: u32, r: nat, k: nat)
    requires
        k <= infos.len(),
        infos.len() <= bs.len(),
    ensures
        spec_allocate_upto(infos, bs, budget, r, k).0.len() == infos.len(),
        forall|i: int|
            0 <= i < infos.len() ==> {
                let d = #[trigger] spec_allocate_upto(infos, bs, budget, r, k).0[i];
                &&& (spec_rank(infos[i].priority) < r || (spec_rank(infos[i].priority) == r && i < k))
                    ==> spec_decision_fits_priority(infos[i], bs[i], d)
                &&& !(spec_rank(infos[i].priority) < r || (spec_rank(infos[i].priority) == r && i < k))
                    ==> d == DecisionModel::Omit
            },
    decreases r, k,
{
    if k == 0 {
        if r > 0 {
            lemma_upto_handled(infos, bs, budget, (r - 1) as nat, infos.len());
        }
    } else {
        lemma_upto_handled(infos, bs, budget, r, (k - 1) as nat);
        let (ds, rem) = spec_allocate_upto(infos, bs, budget, r, (k - 1) as nat);
        let j = k - 1;
        if spec_rank(infos[j].priority) == r {
            lemma_one_fits(infos[j], bs[j], rem);
        }
    }
}

/// Every block gets a decision that its priority allows: a Critical block
/// is always shown in full, a High block in full or by summary, a Normal
/// block is never dropped, a Low block is shown by summary or as a
/// placeholder, a Background block as a placeholder or not at all; only a
/// block with a summary is shown by it, and a placeholder names the block
/// and the tokens it leaves out.
pub proof fn lemma_allocation_respects_priority(infos: Seq<BlockBudgetInfo>, bs: Seq<BlockModel>, budget: u32)
    requires
        infos.len() <= bs.len(),
    ensures
        spec_allocate(infos, bs, budget).len() == infos.len(),
        forall|i: int|
            0 <= i < infos.len() ==> spec_decision_fits_priority(
                infos[i],
                bs[i],
                #[trigger] spec_allocate(infos, bs, budget)[i],
            ),
{
    lemma_upto_handled(infos, bs, budget, 4, infos.len());
    assert forall|i: int| 0 <= i < infos.len() implies spec_decision_fits_priority(
        infos[i],
        bs[i],
        #[trigger] spec_allocate(infos, bs, budget)[i],
    ) by {
        assert(spec_rank(infos[i].priority) <= 4);
    }
}


proof fn lemma_upto_background_suffix(
    infos: Seq<BlockBudgetInfo>,
    bs: Seq<BlockModel>,
    extra: Seq<BlockBudgetInfo>,
    bs2: Seq<BlockModel>,
    budget: u32,
    r: nat,
    k: nat,
)
    requires
        infos.len() <= bs.len(),
        (infos + extra).len() <= bs2.len(),
        forall|i: int| 0 <= i < infos.len() ==> #[trigger] bs2[i] == bs[i],
        forall|i: int| 0 <= i < extra.len() ==> #[trigger] extra[i].priority == Priority::Background,
        r <= 4,
        k <= infos.len() + extra.len(),
    ensures
        ({
            let n = infos.len();
            let kk: nat = if k <= n { k } else { n };
            let (d2, rem2) = spec_allocate_upto(infos + extra, bs2, budget, r, k);
            let (d1, rem1) = spec_allocate_upto(infos, bs, budget, r, kk);
            &&& d2.take(n as int) == d1
            &&& (r < 4 || k <= n) ==> rem2 == rem1
        }),
    decreases r, k,
{
    let n = infos.len();
    let all = infos + extra;
    lemma_upto_handled(all, bs2, budget, r, k);
    lemma_upto_handled(infos, bs, budget, r, if k <= n { k } else { n });
    if k == 0 {
        if r == 0 {
            assert(Seq::new(all.len(), |_i: int| DecisionModel::Omit).take(n as int) =~= Seq::new(
                n,
                |_i: int| DecisionModel::Omit,
            ));
        } else {
            lemma_upto_background_suffix(infos, bs, extra, bs2, budget, (r - 1) as nat, all.len());
        }
    } else {
        lemma_upto_background_suffix(infos, bs, extra, bs2, budget, r, (k - 1) as nat);
        lemma_upto_handled(all, bs2, budget, r, (k - 1) as nat);
        let i = k - 1;
        let (d2p, rem2p) = spec_allocate_upto(all, bs2, budget, r, (k - 1) as nat);
        if i < n {
            assert(all[i as int] == infos[i as int]);
            assert(bs2[i as int] == bs[i as int]);
            lemma_upto_handled(infos, bs, budget, r, (k - 1) as nat);
            if spec_rank(infos[i as int].priority) == r {
                let d = spec_allocate_one(infos[i as int], bs[i as int], rem2p).0;
                assert(d2p.update(i as int, d).take(n as int) =~= d2p.take(n as int).update(i as int, d));
            }
        } else {
            assert(all[i as int] == extra[i - n]);
            if spec_rank(all[i as int].priority) == r {
                let d = spec_allocate_one(all[i as int], bs2[i as int], rem2p).0;
                assert(d2p.update(i as int, d).take(n as int) =~= d2p.take(n as int));
            }
        }
    }
}

/// Background blocks appended after the others change none of the earlier
/// decisions: they are handled last, after every earlier block of their
/// rank, and take no budget from blocks of higher priority.
pub proof fn lemma_background_suffix_keeps_decisions(
    infos: Seq<BlockBudgetInfo>,
    bs: Seq<BlockModel>,
    extra: Seq<BlockBudgetInfo>,
    extra_bs: Seq<BlockModel>,
    budget: u32,
)
    requires
        infos.len() <= bs.len(),
        extra.len() == extra_bs.len(),
        forall|i: int| 0 <= i < extra.len() ==> #[trigger] extra[i].priority == Priority::Background,
    ensures
        spec_allocate(infos + extra, bs + extra_bs, budget).take(infos.len() as int) == spec_allocate(
            infos,
            bs,
            budget,
        ),
{
    let bs2 = bs + extra_bs;
    assert forall|i: int| 0 <= i < infos.len() implies #[trigger] bs2[i] == bs[i] by {}
    lemma_upto_background_suffix(infos, bs, extra, bs2, budget, 4, (infos + extra).len());
}

/// The summary cost the allocation reads: the summary's estimate, 0 when
/// there is none.
pub open spec fn spec_summary_cost(info: BlockBudgetInfo) -> u32 {
    match info.summary_tokens {
        Some(t) => t,
        None => 0,
    }
}

/// Whether block `j` has been handled once every block of rank below `r`
/// and the blocks of rank `r` before index `k` are.
pub open spec fn spec_handled_by(infos: Seq<BlockBudgetInfo>, j: int, r: nat, k: nat) -> bool {
    spec_rank(infos[j].priority) < r || (spec_rank(infos[j].priority) == r && j < k)
}

/// With nothing left of the budget, a block's decision spends nothing, and
/// a Normal, Low or Background block that costs something is not shown in
/// full nor by a summary that costs something; a Background block is left
/// out.
proof fn lemma_one_at_zero(info: BlockBudgetInfo, b: BlockModel)
    ensures
        spec_allocate_one(info, b, 0).1 == 0,
        spec_rank(info.priority) >= 2 && info.full_tokens > 0 ==> !(spec_allocate_one(info, b, 0).0 is Full),
        spec_rank(info.priority) >= 2 && spec_allocate_one(info, b, 0).0 is Summary ==> spec_summary_cost(info) == 0,
        info.priority == Priority::Background ==> spec_allocate_one(info, b, 0).0 == DecisionModel::Omit,
{
}

/// Later steps of the allocation keep the decisions already taken, and once
/// the budget is spent it stays spent and the blocks handled from then on
/// are decided as with nothing left.
proof fn lemma_allocation_after(
    infos: Seq<BlockBudgetInfo>,
    bs: Seq<BlockModel>,
    budget: u32,
    r0: nat,
    k0: nat,
    r: nat,
    k: nat,
)
    requires
        infos.len() <= bs.len(),
        k0 <= infos.len(),
        k <= infos.len(),
        r0 < r || (r0 == r && k0 <= k),
    ensures
        forall|j: int|
            0 <= j < infos.len() && spec_handled_by(infos, j, r0, k0) ==> #[trigger] spec_allocate_upto(
                infos,
                bs,
                budget,
                r,
                k,
            ).0[j] == spec_allocate_upto(infos, bs, budget, r0, k0).0[j],
        spec_allocate_upto(infos, bs, budget, r0, k0).1 == 0 ==> spec_allocate_upto(infos, bs, budget, r, k).1 == 0,
        spec_allocate_upto(infos, bs, budget, r0, k0).1 == 0 ==> forall|j: int|
            0 <= j < infos.len() && spec_handled_by(infos, j, r, k) && !spec_handled_by(infos, j, r0, k0) ==> {
                let d = #[trigger] spec_allocate_upto(infos, bs, budget, r, k).0[j];
                &&& spec_rank(infos[j].priority) >= 2 && infos[j].full_tokens > 0 ==> !(d is Full)
                &&& spec_rank(infos[j].priority) >= 2 && d is Summary ==> spec_summary_cost(infos[j]) == 0
                &&& infos[j].priority == Priority::Background ==> d == DecisionModel::Omit
            },
    decreases r, k,
{
    if r == r0 && k == k0 {
    } else if k == 0 {
        lemma_allocation_after(infos, bs, budget, r0, k0, (r - 1) as nat, infos.len());
        assert forall|j: int| 0 <= j < infos.len() implies spec_handled_by(infos, j, r, 0) == spec_handled_by(
            infos,
            j,
            (r - 1) as nat,
            infos.len(),
        ) by {}
    } else {
        lemma_allocation_after(infos, bs, budget, r0, k0, r, (k - 1) as nat);
        lemma_upto_handled(infos, bs, budget, r, (k - 1) as nat);
        let i = k - 1;
        let (ds, rem) = spec_allocate_upto(infos, bs, budget, r, (k - 1) as nat);
        if spec_rank(infos[i as int].priority) == r {
            lemma_one_at_zero(infos[i as int], bs[i as int]);
            assert forall|j: int| 0 <= j < infos.len() && spec_handled_by(infos, j, r0, k0) implies j != i by {}
        }
    }
}

/// A High block shown in full although it costs more than the budget left
/// when its turn comes spends the rest of the budget: nothing is left at
/// the end, and every Normal, Low or Background block that costs something
/// is neither shown in full nor by a summary that costs something, and
/// every Background block is left out.
pub proof fn lemma_forced_high_spends_budget(infos: Seq<BlockBudgetInfo>, bs: Seq<BlockModel>, budget: u32, i: int)
    requires
        infos.len() <= bs.len(),
        0 <= i < infos.len(),
        infos[i].priority == Priority::High,
        spec_allocate(infos, bs, budget)[i] == DecisionModel::Full,
        infos[i].full_tokens > spec_allocate_upto(infos, bs, budget, 1, i as nat).1,
    ensures
        spec_allocate_upto(infos, bs, budget, 4, infos.len()).1 == 0,
        forall|j: int|
            0 <= j < infos.len() && spec_rank(infos[j].priority) >= 2 && infos[j].full_tokens > 0 ==> !(
            #[trigger] spec_allocate(infos, bs, budget)[j] is Full),
        forall|j: int|
            0 <= j < infos.len() && spec_rank(infos[j].priority) >= 2 && #[trigger] spec_allocate(
                infos,
                bs,
                budget,
            )[j] is Summary ==> spec_summary_cost(infos[j]) == 0,
        forall|j: int|
            0 <= j < infos.len() && infos[j].priority == Priority::Background ==> #[trigger] spec_allocate(
                infos,
                bs,
                budget,
            )[j] == DecisionModel::Omit,
{
    let n = infos.len();
    lemma_upto_handled(infos, bs, budget, 1, i as nat);
    lemma_allocation_after(infos, bs, budget, 1, (i + 1) as nat, 4, n);
    assert(spec_handled_by(infos, i, 1, (i + 1) as nat));
    let rem_i = spec_allocate_upto(infos, bs, budget, 1, i as nat).1;
    assert(spec_allocate_upto(infos, bs, budget, 1, (i + 1) as nat).1 == 0);
    assert forall|j: int| 0 <= j < n && spec_rank(infos[j].priority) >= 2 implies spec_handled_by(infos, j, 4, n)
        && !spec_handled_by(infos, j, 1, (i + 1) as nat) by {}
}

proof fn lemma_scan_tab_as_space(s: Seq<char>, i: int, k: int)
    requires
        0 <= i < s.len(),
        s[i] == '\t',
        i == 0 || s[i - 1] == '\n',
        0 <= k <= s.len(),
    ensures
        spec_scan(s.update(i, ' ').take(k)) == spec_scan(s.take(k)),
    decreases k,
{
    let t = s.update(i, ' ');
    if k > 0 {
        lemma_scan_tab_as_space(s, i, k - 1);
        assert(t.take(k).drop_last() =~= t.take(k - 1));
        assert(s.take(k).drop_last() =~= s.take(k - 1));
        if k - 1 == i && i > 0 {
            assert(s.take(i).drop_last() =~= s.take(i - 1));
            assert(s.take(i).last() == '\n');
        }
    }
}

/// A tab and a space are both one byte: swapping one for the other keeps
/// the byte length.
proof fn lemma_tab_space_same_bytes(s: Seq<char>, i: int)
    requires
        0 <= i < s.len(),
        s[i] == '\t',
    ensures
        encode_utf8(s.update(i, ' ')).len() == encode_utf8(s).len(),
    decreases s.len(),
{
    let t = s.update(i, ' ');
    if i == 0 {
        assert(t.drop_first() =~= s.drop_first());
    } else {
        assert(t.drop_first() =~= s.drop_first().update(i - 1, ' '));
        lemma_tab_space_same_bytes(s.drop_first(), i - 1);
    }
}

/// A line that starts with a tab counts as indented exactly as one that
/// starts with a space: turning the tab at the start of a line into a
/// space changes neither the line counts nor whether the text is
/// code-like, and with the byte length unchanged the code-aware estimate
/// stays the same.
pub proof fn lemma_tab_indent_counts_as_space(s: Seq<char>, i: int)
    requires
        0 <= i < s.len(),
        s[i] == '\t',
        i == 0 || s[i - 1] == '\n',
    ensures
        spec_line_counts(s.update(i, ' ')) == spec_line_counts(s),
        spec_code_like(s.update(i, ' ')) == spec_code_like(s),
        spec_code_aware_estimate(s.update(i, ' ')) == spec_code_aware_estimate(s),
{
    lemma_tab_space_same_bytes(s, i);
    lemma_scan_tab_as_space(s, i, s.len() as int);
    assert(s.update(i, ' ').take(s.len() as int) =~= s.update(i, ' '));
    assert(s.take(s.len() as int) =~= s);
}

} // verus!
