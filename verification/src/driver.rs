//! Rendering decoded blocks as model-ready text: select the blocks to
//! show, decide how each is shown, and render them in the chosen format.
use vstd::prelude::*;
use crate::block::{Block, BlockModel};
use crate::block_type::BlockType;
use crate::budget::{
    CodeAwareEstimator, DecisionModel, RenderDecision, compute_budget_decisions,
    lemma_allocation_respects_priority, spec_budget_decisions, spec_infos, spec_priorities,
};
use crate::config::{DriverConfig, OutputMode, Verbosity};
use crate::error::DriverError;
use crate::render_markdown::{MarkdownRenderer, spec_markdown_decisions};
use crate::render_minimal::{MinimalRenderer, spec_minimal_decisions};
use crate::render_xml::{XmlRenderer, spec_block_refs, spec_items, spec_xml_decisions};

verus! {

/// Renders blocks according to a configuration.
pub trait BcpDriver {
    /// Render `blocks` as text.
    fn render(&self, blocks: &[Block], config: &DriverConfig) -> Result<String, DriverError>;
}

/// Whether a block is shown: annotations and the END sentinel never are,
/// and with a type filter only blocks of the listed types are.
pub open spec fn spec_shown(b: BlockModel, filter: Option<Seq<BlockType>>) -> bool {
    &&& b.block_type != BlockType::Annotation
    &&& b.block_type != BlockType::End
    &&& filter matches Some(ts) ==> ts.contains(b.block_type)
}

/// The indices of the blocks shown, in order.
pub open spec fn spec_shown_indices(bs: Seq<BlockModel>, filter: Option<Seq<BlockType>>) -> Seq<usize>
    decreases bs.len(),
{
    if bs.len() == 0 {
        Seq::empty()
    } else if spec_shown(bs.last(), filter) {
        spec_shown_indices(bs.drop_last(), filter).push((bs.len() - 1) as usize)
    } else {
        spec_shown_indices(bs.drop_last(), filter)
    }
}

/// The decisions for the blocks shown: summaries where there are any when
/// asked for, the budget allocation under adaptive verbosity with a
/// budget, everything in full otherwise.
pub open spec fn spec_driver_decisions(
    all: Seq<BlockModel>,
    shown: Seq<BlockModel>,
    orig: Seq<usize>,
    verbosity: Verbosity,
    token_budget: Option<u32>,
) -> Seq<DecisionModel> {
    match (token_budget, verbosity) {
        (_, Verbosity::Summary) => Seq::new(
            shown.len(),
            |i: int| if shown[i].summary is Some { DecisionModel::Summary } else { DecisionModel::Full },
        ),
        (Some(b), Verbosity::Adaptive) => spec_budget_decisions(all, shown, orig, b, CodeAwareEstimator),
        _ => Seq::new(shown.len(), |_i: int| DecisionModel::Full),
    }
}

/// The view of the type filter.
pub open spec fn spec_include(c: &DriverConfig) -> Option<Seq<BlockType>> {
    match c.include_types {
        Some(v) => Some(v@),
        None => None,
    }
}

/// What the default driver renders for these blocks.
pub open spec fn spec_render(bs: Seq<BlockModel>, mode: OutputMode, filter: Option<Seq<BlockType>>, verbosity: Verbosity, token_budget: Option<u32>) -> Result<Seq<char>, DriverError> {
    let idx = spec_shown_indices(bs, filter);
    let shown = idx.map_values(|i: usize| bs[i as int]);
    if shown.len() == 0 {
        Err(DriverError::EmptyInput)
    } else {
        let ds = spec_driver_decisions(bs, shown, idx, verbosity, token_budget);
        let items = Seq::new(shown.len(), |i: int| (shown[i], ds[i]));
        match mode {
            OutputMode::Xml => spec_xml_decisions(items),
            OutputMode::Markdown => spec_markdown_decisions(items),
            OutputMode::Minimal => spec_minimal_decisions(items),
        }
    }
}

/// The renderer that ships with the library.
pub struct DefaultDriver;

fn type_listed(types: &Vec<BlockType>, t: BlockType) -> (r: bool)
    ensures
        r == types@.contains(t),
{
    let mut i: usize = 0;
    while i < types.len()
        invariant
            i <= types@.len(),
            forall|j: int| 0 <= j < i ==> types@[j] != t,
        decreases types@.len() - i,
    {
        if types[i] == t {
            return true;
        }
        i = i + 1;
    }
    false
}

impl BcpDriver for DefaultDriver {
    /// Render the blocks to show, each as its decision says, in the
    /// configured format.
    ///
    /// # Errors
    ///
    /// `EmptyInput` when no block is shown (or all are omitted),
    /// `InvalidContent` for the first shown block whose content is not
    /// UTF-8.
    fn render(&self, blocks: &[Block], config: &DriverConfig) -> (r: Result<String, DriverError>)
        ensures
            r matches Ok(s) ==> spec_render(
                blocks@.map_values(|b: Block| b@),
                config.mode,
                spec_include(config),
                config.verbosity,
                config.token_budget,
            ) == Ok::<Seq<char>, DriverError>(s@),
            r matches Err(e) ==> spec_render(
                blocks@.map_values(|b: Block| b@),
                config.mode,
                spec_include(config),
                config.verbosity,
                config.token_budget,
            ) == Err::<Seq<char>, DriverError>(e),
    {
        let ghost bs = blocks@.map_values(|b: Block| b@);
        let ghost inc = spec_include(config);
        let mut filtered: Vec<&Block> = Vec::new();
        let mut original_indices: Vec<usize> = Vec::new();
        let mut i: usize = 0;
        assert(bs.take(0) =~= Seq::<BlockModel>::empty());
        while i < blocks.len()
            invariant
                i <= blocks@.len(),
                bs == blocks@.map_values(|b: Block| b@),
                inc == spec_include(config),
                original_indices@ == spec_shown_indices(bs.take(i as int), inc),
                filtered@.len() == original_indices@.len(),
                forall|j: int| 0 <= j < filtered@.len() ==> original_indices@[j] < i,
                forall|j: int| 0 <= j < filtered@.len() ==> #[trigger] filtered@[j]@ == bs[original_indices@[j] as int],
            decreases blocks@.len() - i,
        {
            let b = &blocks[i];
            assert(bs.take(i + 1).drop_last() =~= bs.take(i as int));
            assert(bs.take(i + 1).last() == b@);
            let mut keep = b.block_type != BlockType::Annotation && b.block_type != BlockType::End;
            if keep {
                match &config.include_types {
                    Some(types) => {
                        keep = type_listed(types, b.block_type);
                    },
                    None => {},
                }
            }
            if keep {
                filtered.push(b);
                original_indices.push(i);
            }
            i = i + 1;
        }
        assert(bs.take(i as int) =~= bs);
        let ghost idx = original_indices@;
        let ghost shown = idx.map_values(|k: usize| bs[k as int]);
        assert(spec_block_refs(filtered@) =~= shown);
        if filtered.len() == 0 {
            return Err(DriverError::EmptyInput);
        }
        let decisions: Vec<RenderDecision> = match (config.token_budget, config.verbosity) {
            (_, Verbosity::Summary) => {
                let mut ds: Vec<RenderDecision> = Vec::new();
                let mut k: usize = 0;
                while k < filtered.len()
                    invariant
                        k <= filtered@.len(),
                        ds@.len() == k,
                        forall|j: int| 0 <= j < k ==> #[trigger] ds@[j]@ == (if filtered@[j].summary is Some {
                            DecisionModel::Summary
                        } else {
                            DecisionModel::Full
                        }),
                    decreases filtered@.len() - k,
                {
                    if filtered[k].summary.is_some() {
                        ds.push(RenderDecision::Summary);
                    } else {
                        ds.push(RenderDecision::Full);
                    }
                    k = k + 1;
                }
                ds
            },
            (Some(budget), Verbosity::Adaptive) => {
                let ds = compute_budget_decisions(
                    blocks,
                    filtered.as_slice(),
                    original_indices.as_slice(),
                    budget,
                    &CodeAwareEstimator,
                );
                proof {
                    lemma_allocation_respects_priority(
                        spec_infos(CodeAwareEstimator, spec_priorities(bs), shown, idx),
                        shown,
                        budget,
                    );
                }
                ds
            },
            _ => {
                let mut ds: Vec<RenderDecision> = Vec::new();
                let mut k: usize = 0;
                while k < filtered.len()
                    invariant
                        k <= filtered@.len(),
                        ds@.len() == k,
                        forall|j: int| 0 <= j < k ==> #[trigger] ds@[j]@ == DecisionModel::Full,
                    decreases filtered@.len() - k,
                {
                    ds.push(RenderDecision::Full);
                    k = k + 1;
                }
                ds
            },
        };
        let ghost dsv = spec_driver_decisions(bs, shown, idx, config.verbosity, config.token_budget);
        assert(decisions@.map_values(|d: RenderDecision| d@) =~= dsv);
        let mut items: Vec<(&Block, &RenderDecision)> = Vec::new();
        let mut k: usize = 0;
        while k < filtered.len()
            invariant
                k <= filtered@.len(),
                decisions@.len() == filtered@.len(),
                items@.len() == k,
                forall|j: int| 0 <= j < k ==> #[trigger] items@[j] == (filtered@[j], &decisions@[j]),
            decreases filtered@.len() - k,
        {
            items.push((filtered[k], &decisions[k]));
            k = k + 1;
        }
        assert(spec_items(items@) =~= Seq::new(shown.len(), |j: int| (shown[j], dsv[j])));
        match config.mode {
            OutputMode::Xml => XmlRenderer::render_all_with_decisions(items.as_slice()),
            OutputMode::Markdown => MarkdownRenderer::render_all_with_decisions(items.as_slice()),
            OutputMode::Minimal => MinimalRenderer::render_all_with_decisions(items.as_slice()),
        }
    }
}

/// Under full verbosity every block shown is rendered in full, whatever
/// the token budget.
pub proof fn lemma_full_verbosity_all_full(
    all: Seq<BlockModel>,
    shown: Seq<BlockModel>,
    orig: Seq<usize>,
    token_budget: Option<u32>,
)
    ensures
        spec_driver_decisions(all, shown, orig, Verbosity::Full, token_budget).len() == shown.len(),
        forall|i: int|
            0 <= i < shown.len() ==> #[trigger] spec_driver_decisions(all, shown, orig, Verbosity::Full, token_budget)[i]
                == DecisionModel::Full,
{
}

/// Under full verbosity the token budget has no effect: rendering with any
/// budget gives what rendering without one gives.
pub proof fn lemma_full_verbosity_ignores_budget(
    bs: Seq<BlockModel>,
    mode: OutputMode,
    filter: Option<Seq<BlockType>>,
    budget: u32,
)
    ensures
        spec_render(bs, mode, filter, Verbosity::Full, Some(budget)) == spec_render(bs, mode, filter, Verbosity::Full, None),
{
    let idx = spec_shown_indices(bs, filter);
    let shown = idx.map_values(|i: usize| bs[i as int]);
    lemma_full_verbosity_all_full(bs, shown, idx, Some(budget));
    lemma_full_verbosity_all_full(bs, shown, idx, None);
    assert(spec_driver_decisions(bs, shown, idx, Verbosity::Full, Some(budget)) =~= spec_driver_decisions(
        bs,
        shown,
        idx,
        Verbosity::Full,
        None,
    ));
}

} // verus!
