//! The figures of the `stats` command: how many blocks of each type a
//! payload holds and how many content bytes they carry, and a token
//! estimate of the payload in each output mode.
use vstd::prelude::*;
use vstd::string::StrSliceExecFns;
use crate::block::{Block, BlockContent, BlockModel};
use crate::block_type::BlockType;
use crate::budget::{HeuristicEstimator, TokenEstimator, spec_heuristic_estimate};
use crate::config::{DriverConfig, OutputMode, Verbosity};
use crate::decoder::{DecodedPayload, PayloadModel};
use crate::driver::{
    BcpDriver, DefaultDriver, lemma_full_verbosity_all_full, spec_driver_decisions, spec_render,
    spec_shown_indices,
};
use crate::budget::DecisionModel;
use crate::error::DriverError;
use crate::render_markdown::spec_markdown_block;
use crate::render_minimal::spec_minimal_block;
use crate::render_xml::{spec_decision_parts, spec_xml_block};
use crate::inspect::{block_body_bytes, spec_body_bytes, spec_saturate, spec_space_pad};
use crate::text::{decimal_string, push_char, push_str, push_hex2, spec_decimal, spec_hex2, str_eq};

verus! {

/// The upper-case label of a block type in the table.
pub open spec fn spec_stats_label(bt: BlockType) -> Seq<char> {
    match bt {
        BlockType::Code => "CODE"@,
        BlockType::Conversation => "CONVERSATION"@,
        BlockType::FileTree => "FILE_TREE"@,
        BlockType::ToolResult => "TOOL_RESULT"@,
        BlockType::Document => "DOCUMENT"@,
        BlockType::StructuredData => "STRUCTURED_DATA"@,
        BlockType::Diff => "DIFF"@,
        BlockType::Annotation => "ANNOTATION"@,
        BlockType::EmbeddingRef => "EMBEDDING_REF"@,
        BlockType::Image => "IMAGE"@,
        BlockType::Extension => "EXTENSION"@,
        BlockType::End => "END"@,
        BlockType::Unknown(_) => "UNKNOWN"@,
    }
}

/// The upper-case label of a block type in the table.
pub fn block_type_label(bt: &BlockType) -> (r: &'static str)
    ensures
        r@ == spec_stats_label(*bt),
{
    match bt {
        BlockType::Code => "CODE",
        BlockType::Conversation => "CONVERSATION",
        BlockType::FileTree => "FILE_TREE",
        BlockType::ToolResult => "TOOL_RESULT",
        BlockType::Document => "DOCUMENT",
        BlockType::StructuredData => "STRUCTURED_DATA",
        BlockType::Diff => "DIFF",
        BlockType::Annotation => "ANNOTATION",
        BlockType::EmbeddingRef => "EMBEDDING_REF",
        BlockType::Image => "IMAGE",
        BlockType::Extension => "EXTENSION",
        BlockType::End => "END",
        BlockType::Unknown(_) => "UNKNOWN",
    }
}

/// The content bytes a block counts for in the table: those of its main
/// payload, eight per top-level entry of a file tree, 32 for an embedding
/// reference.
pub fn content_size(content: &BlockContent) -> (r: usize)
    ensures
        r == spec_body_bytes(content@),
{
    block_body_bytes(content)
}

/// One line of the table: a block type, how many blocks of it the
/// payload holds, and their content bytes (counted up to the largest
/// `usize`).
#[derive(Debug)]
pub struct TypeRow {
    pub label: &'static str,
    pub count: usize,
    pub bytes: usize,
}

/// The view of a [`TypeRow`].
pub struct TypeRowModel {
    pub label: Seq<char>,
    pub count: nat,
    pub bytes: usize,
}

impl View for TypeRow {
    type V = TypeRowModel;

    open spec fn view(&self) -> TypeRowModel {
        TypeRowModel { label: self.label@, count: self.count as nat, bytes: self.bytes }
    }
}

/// The label and content bytes of each block the table counts: every
/// block but the END sentinel, in order.
pub open spec fn spec_stat_items(bs: Seq<BlockModel>) -> Seq<(Seq<char>, usize)>
    decreases bs.len(),
{
    if bs.len() == 0 {
        Seq::empty()
    } else if bs.last().block_type == BlockType::End {
        spec_stat_items(bs.drop_last())
    } else {
        spec_stat_items(bs.drop_last()).push(
            (spec_stats_label(bs.last().block_type), spec_body_bytes(bs.last().content)),
        )
    }
}

/// Whether some row carries `label`.
pub open spec fn spec_has_row(rows: Seq<TypeRowModel>, label: Seq<char>) -> bool {
    exists|j: int| 0 <= j < rows.len() && rows[j].label == label
}

/// Counting one more block: the row of its label gains it, or a new row
/// for the label goes at the end.
pub open spec fn spec_add_row(rows: Seq<TypeRowModel>, label: Seq<char>, size: usize) -> Seq<TypeRowModel> {
    if spec_has_row(rows, label) {
        let j = choose|j: int| 0 <= j < rows.len() && rows[j].label == label;
        rows.update(
            j,
            TypeRowModel { label, count: rows[j].count + 1, bytes: spec_saturate((rows[j].bytes + size) as nat) },
        )
    } else {
        rows.push(TypeRowModel { label, count: 1, bytes: size })
    }
}

/// The table rows for some counted blocks, in the order in which their
/// labels first appear.
pub open spec fn spec_type_rows(items: Seq<(Seq<char>, usize)>) -> Seq<TypeRowModel>
    decreases items.len(),
{
    if items.len() == 0 {
        Seq::empty()
    } else {
        spec_add_row(spec_type_rows(items.drop_last()), items.last().0, items.last().1)
    }
}

/// The content bytes of all counted blocks, counted up to the largest
/// `usize`.
pub open spec fn spec_total_bytes(items: Seq<(Seq<char>, usize)>) -> usize
    decreases items.len(),
{
    if items.len() == 0 {
        0
    } else {
        spec_saturate((spec_total_bytes(items.drop_last()) + items.last().1) as nat)
    }
}

/// The sum of the counts of some rows.
pub open spec fn spec_row_counts(rows: Seq<TypeRowModel>) -> nat
    decreases rows.len(),
{
    if rows.len() == 0 {
        0
    } else {
        spec_row_counts(rows.drop_last()) + rows.last().count
    }
}

/// No two rows carry the same label.
pub open spec fn spec_labels_unique(rows: Seq<TypeRowModel>) -> bool {
    forall|i: int, j: int| 0 <= i < rows.len() && 0 <= j < rows.len() && i != j ==> rows[i].label != rows[j].label
}

proof fn lemma_counts_update(rows: Seq<TypeRowModel>, j: int, r: TypeRowModel)
    requires
        0 <= j < rows.len(),
    ensures
        spec_row_counts(rows.update(j, r)) + rows[j].count == spec_row_counts(rows) + r.count,
    decreases rows.len(),
{
    if j == rows.len() - 1 {
        assert(rows.update(j, r).drop_last() =~= rows.drop_last());
    } else {
        assert(rows.update(j, r).drop_last() =~= rows.drop_last().update(j, r));
        lemma_counts_update(rows.drop_last(), j, r);
    }
}

/// The table has one row per label, and every counted block is in
/// exactly one of them: the counts add up to the number of blocks.
pub proof fn lemma_type_rows_partition(items: Seq<(Seq<char>, usize)>)
    ensures
        spec_labels_unique(spec_type_rows(items)),
        spec_row_counts(spec_type_rows(items)) == items.len(),
        forall|j: int| 0 <= j < spec_type_rows(items).len() ==> 1 <= #[trigger] spec_type_rows(items)[j].count,
    decreases items.len(),
{
    if items.len() > 0 {
        let prev = spec_type_rows(items.drop_last());
        let label = items.last().0;
        let size = items.last().1;
        lemma_type_rows_partition(items.drop_last());
        if spec_has_row(prev, label) {
            let j = choose|j: int| 0 <= j < prev.len() && prev[j].label == label;
            let r = TypeRowModel { label, count: prev[j].count + 1, bytes: spec_saturate((prev[j].bytes + size) as nat) };
            lemma_counts_update(prev, j, r);
            assert(spec_type_rows(items) == prev.update(j, r));
        } else {
            let r = TypeRowModel { label, count: 1, bytes: size };
            assert(spec_type_rows(items) == prev.push(r));
            assert(prev.push(r).drop_last() =~= prev);
        }
    }
}

/// The index of the row that carries `label`, if any.
fn find_row(rows: &Vec<TypeRow>, label: &str) -> (r: Option<usize>)
    ensures
        match r {
            Some(k) => k < rows@.len() && rows@[k as int]@.label == label@,
            None => !spec_has_row(rows@.map_values(|t: TypeRow| t@), label@),
        },
{
    let mut k: usize = 0;
    while k < rows.len()
        invariant
            k <= rows@.len(),
            forall|j: int| 0 <= j < k ==> rows@[j]@.label != label@,
        decreases rows@.len() - k,
    {
        if str_eq(rows[k].label, label) {
            return Some(k);
        }
        k = k + 1;
    }
    let ghost v = rows@.map_values(|t: TypeRow| t@);
    assert forall|j: int| 0 <= j < v.len() implies v[j].label != label@ by {
        assert(v[j] == rows@[j]@);
    }
    None
}

/// The table rows of some blocks: one per label, in the order in which
/// the labels first appear, the END sentinel left out.
pub fn type_rows(blocks: &[Block]) -> (rows: Vec<TypeRow>)
    ensures
        rows@.map_values(|t: TypeRow| t@) == spec_type_rows(
            spec_stat_items(blocks@.map_values(|b: Block| b@)),
        ),
{
    let ghost bs = blocks@.map_values(|b: Block| b@);
    let mut rows: Vec<TypeRow> = Vec::new();
    let mut i: usize = 0;
    assert(bs.take(0) =~= Seq::<BlockModel>::empty());
    while i < blocks.len()
        invariant
            i <= blocks@.len(),
            bs == blocks@.map_values(|b: Block| b@),
            rows@.map_values(|t: TypeRow| t@) == spec_type_rows(spec_stat_items(bs.take(i as int))),
            forall|j: int| 0 <= j < rows@.len() ==> rows@[j].count <= i,
        decreases blocks@.len() - i,
    {
        let ghost before = rows@.map_values(|t: TypeRow| t@);
        assert(bs.take(i + 1).drop_last() =~= bs.take(i as int));
        assert(bs.take(i + 1).last() == blocks@[i as int]@);
        if blocks[i].block_type != BlockType::End {
            let label = block_type_label(&blocks[i].block_type);
            let size = content_size(&blocks[i].content);
            let ghost items = spec_stat_items(bs.take(i as int));
            assert(spec_stat_items(bs.take(i + 1)) == items.push((label@, size)));
            assert(items.push((label@, size)).drop_last() =~= items);
            match find_row(&rows, label) {
                Some(k) => {
                    proof {
                        lemma_type_rows_partition(items);
                        assert(before[k as int] == rows@[k as int]@);
                        assert(spec_has_row(before, label@));
                        let c = choose|j: int| 0 <= j < before.len() && before[j].label == label@;
                        assert(c == k);
                    }
                    let row = TypeRow {
                        label: rows[k].label,
                        count: rows[k].count + 1,
                        bytes: rows[k].bytes.saturating_add(size),
                    };
                    rows.set(k, row);
                    assert(rows@.map_values(|t: TypeRow| t@) =~= before.update(k as int, row@));
                },
                None => {
                    rows.push(TypeRow { label, count: 1, bytes: size });
                    assert(rows@.map_values(|t: TypeRow| t@) =~= before.push(
                        TypeRowModel { label: label@, count: 1, bytes: size },
                    ));
                },
            }
        } else {
            assert(spec_stat_items(bs.take(i + 1)) == spec_stat_items(bs.take(i as int)));
        }
        i = i + 1;
    }
    assert(bs.take(i as int) =~= bs);
    rows
}

/// The number of blocks the table counts and their content bytes.
pub fn totals(blocks: &[Block]) -> (r: (usize, usize))
    ensures
        r.0 == spec_stat_items(blocks@.map_values(|b: Block| b@)).len(),
        r.1 == spec_total_bytes(spec_stat_items(blocks@.map_values(|b: Block| b@))),
{
    let ghost bs = blocks@.map_values(|b: Block| b@);
    let mut count: usize = 0;
    let mut bytes: usize = 0;
    let mut i: usize = 0;
    assert(bs.take(0) =~= Seq::<BlockModel>::empty());
    while i < blocks.len()
        invariant
            i <= blocks@.len(),
            bs == blocks@.map_values(|b: Block| b@),
            count == spec_stat_items(bs.take(i as int)).len(),
            count <= i,
            bytes == spec_total_bytes(spec_stat_items(bs.take(i as int))),
        decreases blocks@.len() - i,
    {
        assert(bs.take(i + 1).drop_last() =~= bs.take(i as int));
        assert(bs.take(i + 1).last() == blocks@[i as int]@);
        if blocks[i].block_type != BlockType::End {
            let size = content_size(&blocks[i].content);
            let ghost items = spec_stat_items(bs.take(i as int));
            let ghost label = spec_stats_label(blocks@[i as int].block_type);
            assert(spec_stat_items(bs.take(i + 1)) == items.push((label, size)));
            assert(items.push((label, size)).drop_last() =~= items);
            count = count + 1;
            bytes = bytes.saturating_add(size);
        }
        i = i + 1;
    }
    assert(bs.take(i as int) =~= bs);
    (count, bytes)
}

/// The token estimate of the blocks rendered in full in `mode`: a quarter
/// of the bytes of the text, or 0 when nothing renders.
pub open spec fn spec_mode_tokens(bs: Seq<BlockModel>, mode: OutputMode) -> u32 {
    match spec_render(bs, mode, None, Verbosity::Full, None) {
        Ok(text) => spec_heuristic_estimate(text),
        Err(_) => 0,
    }
}

/// The token estimate of the blocks rendered in full in `mode`.
pub fn rendered_tokens(blocks: &[Block], mode: OutputMode) -> (r: u32)
    ensures
        r == spec_mode_tokens(blocks@.map_values(|b: Block| b@), mode),
{
    let config = DriverConfig {
        mode,
        target_model: None,
        include_types: None,
        verbosity: Verbosity::Full,
        token_budget: None,
    };
    match DefaultDriver.render(blocks, &config) {
        Ok(text) => HeuristicEstimator.estimate(text.as_str()),
        Err(_) => 0,
    }
}

/// `s` padded on the left with spaces to `w` characters.
pub open spec fn spec_left_pad(s: Seq<char>, w: nat) -> Seq<char> {
    if s.len() >= w {
        s
    } else {
        Seq::new((w - s.len()) as nat, |_i: int| ' ') + s
    }
}

/// A line of the table: the label left-aligned in 20 columns, the count
/// right-aligned in 6 and the bytes right-aligned in 8.
pub open spec fn spec_table_line(label: Seq<char>, count: Seq<char>, bytes: Seq<char>) -> Seq<char> {
    spec_space_pad(label, 20) + spec_left_pad(count, 6) + spec_left_pad(bytes, 8) + "\n"@
}

/// The lines of some rows.
pub open spec fn spec_rows_text(rows: Seq<TypeRowModel>) -> Seq<char>
    decreases rows.len(),
{
    if rows.len() == 0 {
        Seq::empty()
    } else {
        spec_rows_text(rows.drop_last()) + spec_table_line(
            rows.last().label,
            spec_decimal(rows.last().count),
            spec_decimal(rows.last().bytes as nat),
        )
    }
}

/// The rule above and below the rows.
pub open spec fn spec_rule() -> Seq<char> {
    Seq::new(36, |_i: int| '─') + "\n"@
}

/// The whole report on a payload read from `path`, `file_size` bytes
/// long.
pub open spec fn spec_stats_report(path: Seq<char>, file_size: nat, p: PayloadModel) -> Seq<char> {
    let items = spec_stat_items(p.blocks);
    "File:    "@ + path + "  ("@ + spec_decimal(file_size) + " bytes)\n"@ + "Header:  BCP v"@ + spec_decimal(
        p.header.version_major as nat,
    ) + "."@ + spec_decimal(p.header.version_minor as nat) + ", flags=0x"@ + spec_hex2(p.header.flags.bits)
        + if p.header.flags.spec_is_compressed() {
        " (payload zstd-compressed)\n"@
    } else {
        " (uncompressed)\n"@
    } + "Blocks:  "@ + spec_decimal(items.len()) + " total\n"@ + "\n"@ + spec_table_line(
        "Type"@,
        "Count"@,
        "Bytes"@,
    ) + spec_rule() + spec_rows_text(spec_type_rows(items)) + spec_rule() + spec_table_line(
        "Total"@,
        spec_decimal(items.len()),
        spec_decimal(spec_total_bytes(items) as nat),
    ) + "\n"@ + "Tokens (heuristic estimate):\n"@ + "  xml mode      ~"@ + spec_decimal(
        spec_mode_tokens(p.blocks, OutputMode::Xml) as nat,
    ) + " tokens\n"@ + "  markdown mode ~"@ + spec_decimal(spec_mode_tokens(p.blocks, OutputMode::Markdown) as nat)
        + " tokens\n"@ + "  minimal mode  ~"@ + spec_decimal(
        spec_mode_tokens(p.blocks, OutputMode::Minimal) as nat,
    ) + " tokens\n"@
}

fn push_left_padded(out: &mut String, s: &str, w: usize)
    ensures
        final(out)@ == old(out)@ + spec_left_pad(s@, w as nat),
{
    let n = s.unicode_len();
    let mut k = n;
    while k < w
        invariant
            n == s@.len(),
            n <= k <= w || (n > w && k == n),
            out@ == old(out)@ + Seq::new((k - n) as nat, |_i: int| ' '),
        decreases w - k,
    {
        push_char(out, ' ');
        k = k + 1;
        assert(out@ =~= old(out)@ + Seq::new((k - n) as nat, |_i: int| ' '));
    }
    push_str(out, s);
    assert(out@ =~= old(out)@ + spec_left_pad(s@, w as nat));
}

fn push_right_padded(out: &mut String, s: &str, w: usize)
    ensures
        final(out)@ == old(out)@ + spec_space_pad(s@, w as nat),
{
    let n = s.unicode_len();
    push_str(out, s);
    let ghost mid = out@;
    let mut k = n;
    while k < w
        invariant
            n == s@.len(),
            n <= k <= w || (n > w && k == n),
            out@ == mid + Seq::new((k - n) as nat, |_i: int| ' '),
        decreases w - k,
    {
        push_char(out, ' ');
        k = k + 1;
        assert(out@ =~= mid + Seq::new((k - n) as nat, |_i: int| ' '));
    }
    assert(out@ =~= old(out)@ + spec_space_pad(s@, w as nat));
}

fn push_table_line(out: &mut String, label: &str, count: &str, bytes: &str)
    ensures
        final(out)@ == old(out)@ + spec_table_line(label@, count@, bytes@),
{
    push_right_padded(out, label, 20);
    push_left_padded(out, count, 6);
    push_left_padded(out, bytes, 8);
    push_str(out, "\n");
    assert(out@ =~= old(out)@ + spec_table_line(label@, count@, bytes@));
}

fn push_rule(out: &mut String)
    ensures
        final(out)@ == old(out)@ + spec_rule(),
{
    let mut k: usize = 0;
    while k < 36
        invariant
            k <= 36,
            out@ == old(out)@ + Seq::new(k as nat, |_i: int| '─'),
        decreases 36 - k,
    {
        push_char(out, '─');
        k = k + 1;
        assert(out@ =~= old(out)@ + Seq::new(k as nat, |_i: int| '─'));
    }
    push_str(out, "\n");
    assert(out@ =~= old(out)@ + spec_rule());
}

fn push_rows(out: &mut String, rows: &Vec<TypeRow>)
    ensures
        final(out)@ == old(out)@ + spec_rows_text(rows@.map_values(|t: TypeRow| t@)),
{
    let ghost v = rows@.map_values(|t: TypeRow| t@);
    let mut k: usize = 0;
    assert(v.take(0) =~= Seq::<TypeRowModel>::empty());
    while k < rows.len()
        invariant
            k <= rows@.len(),
            v == rows@.map_values(|t: TypeRow| t@),
            out@ == old(out)@ + spec_rows_text(v.take(k as int)),
        decreases rows@.len() - k,
    {
        let count = decimal_string(rows[k].count as u64);
        let bytes = decimal_string(rows[k].bytes as u64);
        push_table_line(out, rows[k].label, count.as_str(), bytes.as_str());
        assert(v.take(k + 1).drop_last() =~= v.take(k as int));
        assert(v.take(k + 1).last() == rows@[k as int]@);
        k = k + 1;
        assert(out@ =~= old(out)@ + spec_rows_text(v.take(k as int)));
    }
    assert(v.take(k as int) =~= v);
}

/// The report of the `stats` command on a payload read from `path`,
/// `file_size` bytes long: its header, a table of block types with their
/// counts and content bytes, and the token estimate of each output mode.
pub fn stats_report(path: &str, file_size: usize, decoded: &DecodedPayload) -> (r: String)
    ensures
        r@ == spec_stats_report(path@, file_size as nat, decoded@),
{
    let blocks = decoded.blocks.as_slice();
    let rows = type_rows(blocks);
    let (total_blocks, total_bytes) = totals(blocks);
    let xml = rendered_tokens(blocks, OutputMode::Xml);
    let md = rendered_tokens(blocks, OutputMode::Markdown);
    let min = rendered_tokens(blocks, OutputMode::Minimal);
    let header = &decoded.header;
    let mut out = String::new();
    push_str(&mut out, "File:    ");
    push_str(&mut out, path);
    push_str(&mut out, "  (");
    push_str(&mut out, decimal_string(file_size as u64).as_str());
    push_str(&mut out, " bytes)\n");
    push_str(&mut out, "Header:  BCP v");
    push_str(&mut out, decimal_string(header.version_major as u64).as_str());
    push_str(&mut out, ".");
    push_str(&mut out, decimal_string(header.version_minor as u64).as_str());
    push_str(&mut out, ", flags=0x");
    push_hex2(&mut out, header.flags.raw());
    if header.flags.is_compressed() {
        push_str(&mut out, " (payload zstd-compressed)\n");
    } else {
        push_str(&mut out, " (uncompressed)\n");
    }
    let ghost head = out@;
    push_str(&mut out, "Blocks:  ");
    push_str(&mut out, decimal_string(total_blocks as u64).as_str());
    push_str(&mut out, " total\n");
    push_str(&mut out, "\n");
    push_table_line(&mut out, "Type", "Count", "Bytes");
    push_rule(&mut out);
    push_rows(&mut out, &rows);
    push_rule(&mut out);
    let tb = decimal_string(total_blocks as u64);
    let tbytes = decimal_string(total_bytes as u64);
    push_table_line(&mut out, "Total", tb.as_str(), tbytes.as_str());
    let ghost table = out@;
    push_str(&mut out, "\n");
    push_str(&mut out, "Tokens (heuristic estimate):\n");
    push_str(&mut out, "  xml mode      ~");
    push_str(&mut out, decimal_string(xml as u64).as_str());
    push_str(&mut out, " tokens\n");
    push_str(&mut out, "  markdown mode ~");
    push_str(&mut out, decimal_string(md as u64).as_str());
    push_str(&mut out, " tokens\n");
    push_str(&mut out, "  minimal mode  ~");
    push_str(&mut out, decimal_string(min as u64).as_str());
    push_str(&mut out, " tokens\n");
    assert(decoded.blocks@.map_values(|b: Block| b@) == blocks@.map_values(|b: Block| b@));
    assert(out@ =~= spec_stats_report(path@, file_size as nat, decoded@));
    out
}

/// Two block lists that differ at most in the summaries of their blocks.
pub open spec fn spec_same_but_summaries(bs: Seq<BlockModel>, bs2: Seq<BlockModel>) -> bool {
    &&& bs2.len() == bs.len()
    &&& forall|i: int| 0 <= i < bs.len() ==> #[trigger] bs2[i] == (BlockModel { summary: bs2[i].summary, ..bs[i] })
}

proof fn lemma_shown_ignores_summaries(bs: Seq<BlockModel>, bs2: Seq<BlockModel>, filter: Option<Seq<BlockType>>)
    requires
        spec_same_but_summaries(bs, bs2),
    ensures
        spec_shown_indices(bs2, filter) == spec_shown_indices(bs, filter),
        forall|k: int|
            0 <= k < spec_shown_indices(bs, filter).len() ==> #[trigger] spec_shown_indices(bs, filter)[k] < bs.len(),
    decreases bs.len(),
{
    if bs.len() > 0 {
        let p = bs.drop_last();
        let p2 = bs2.drop_last();
        assert forall|i: int| 0 <= i < p.len() implies #[trigger] p2[i] == (BlockModel { summary: p2[i].summary, ..p[i] }) by {
            assert(p2[i] == bs2[i] && p[i] == bs[i]);
        }
        lemma_shown_ignores_summaries(p, p2, filter);
        assert(bs2.last() == bs2[bs.len() - 1]);
    }
}

proof fn lemma_full_parts_ignore_summaries(
    items: Seq<(BlockModel, DecisionModel)>,
    items2: Seq<(BlockModel, DecisionModel)>,
    f: spec_fn(BlockModel, usize, bool) -> Result<Seq<char>, DriverError>,
    mode: OutputMode,
)
    requires
        items2.len() == items.len(),
        forall|i: int| 0 <= i < items.len() ==> (#[trigger] items[i]).1 == DecisionModel::Full && items2[i].1
            == DecisionModel::Full,
        forall|i: int| 0 <= i < items.len() ==> f((#[trigger] items[i]).0, i as usize, false) == f(items2[i].0, i as usize, false),
    ensures
        spec_decision_parts(items2, f, mode) == spec_decision_parts(items, f, mode),
    decreases items.len(),
{
    if items.len() > 0 {
        let p = items.drop_last();
        let p2 = items2.drop_last();
        assert forall|i: int| 0 <= i < p.len() implies (#[trigger] p[i]).1 == DecisionModel::Full && p2[i].1
            == DecisionModel::Full && f(p[i].0, i as usize, false) == f(p2[i].0, i as usize, false) by {
            assert(p[i] == items[i] && p2[i] == items2[i]);
        }
        lemma_full_parts_ignore_summaries(p, p2, f, mode);
        let n = items.len() - 1;
        assert(items.last() == items[n] && items2.last() == items2[n]);
    }
}

/// The token estimate of each mode in the statistics does not depend on
/// the summaries of the blocks: adding, changing or removing summaries
/// leaves it unchanged, since it estimates the rendering with every block
/// in full.
pub proof fn lemma_mode_tokens_ignore_summaries(bs: Seq<BlockModel>, bs2: Seq<BlockModel>, mode: OutputMode)
    requires
        spec_same_but_summaries(bs, bs2),
    ensures
        spec_mode_tokens(bs2, mode) == spec_mode_tokens(bs, mode),
{
    lemma_shown_ignores_summaries(bs, bs2, None);
    let idx = spec_shown_indices(bs, None);
    let shown = idx.map_values(|i: usize| bs[i as int]);
    let shown2 = idx.map_values(|i: usize| bs2[i as int]);
    lemma_full_verbosity_all_full(bs, shown, idx, None);
    lemma_full_verbosity_all_full(bs2, shown2, idx, None);
    let ds = spec_driver_decisions(bs, shown, idx, Verbosity::Full, None);
    let ds2 = spec_driver_decisions(bs2, shown2, idx, Verbosity::Full, None);
    let items = Seq::new(shown.len(), |i: int| (shown[i], ds[i]));
    let items2 = Seq::new(shown2.len(), |i: int| (shown2[i], ds2[i]));
    assert forall|i: int| 0 <= i < items.len() implies (#[trigger] items[i]).1 == DecisionModel::Full
        && items2[i].1 == DecisionModel::Full && items2[i].0 == (BlockModel { summary: items2[i].0.summary, ..items[i].0 }) by {
        assert(idx[i] < bs.len());
        assert(bs2[idx[i] as int] == (BlockModel { summary: bs2[idx[i] as int].summary, ..bs[idx[i] as int] }));
    }
    match mode {
        OutputMode::Xml => {
            let f = |b: BlockModel, i: usize, s: bool| spec_xml_block(b, i, s);
            lemma_full_parts_ignore_summaries(items, items2, f, OutputMode::Xml);
        },
        OutputMode::Markdown => {
            let f = |b: BlockModel, i: usize, s: bool| spec_markdown_block(b, i, s);
            lemma_full_parts_ignore_summaries(items, items2, f, OutputMode::Markdown);
        },
        OutputMode::Minimal => {
            let f = |b: BlockModel, i: usize, s: bool| spec_minimal_block(b, i, s);
            lemma_full_parts_ignore_summaries(items, items2, f, OutputMode::Minimal);
        },
    }
}

} // verus!
