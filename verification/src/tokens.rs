//! Token counts with the cl100k_base encoding, and the selection of
//! blocks by type that the benchmark tables are built from.
use vstd::prelude::*;
use crate::block::{Block, BlockModel};
use crate::block_type::BlockType;

verus! {

/// The tokens that tiktoken's cl100k_base encoding gives for `text`, with
/// every special token of the encoding allowed; `None` when the encoding
/// cannot be loaded or reports an error for this text.
pub uninterp spec fn spec_cl100k_tokens(text: Seq<char>) -> Option<Seq<u32>>;

/// Loads `tiktoken_rs::cl100k_base` and calls `CoreBPE::encode` on `text`
/// with all of its special tokens allowed; an error from either becomes
/// `None`. The contract names the result; the encoding itself is not
/// restated.
#[verifier::external_body]
fn cl100k_tokens(text: &str) -> (r: Option<Vec<u32>>)
    ensures
        r matches Some(v) ==> spec_cl100k_tokens(text@) == Some(v@),
        r is None ==> spec_cl100k_tokens(text@) is None,
{
    match tiktoken_rs::cl100k_base() {
        Ok(bpe) => match bpe.encode(text, &bpe.special_tokens()) {
            Ok((tokens, _)) => Some(tokens),
            Err(_) => None,
        },
        Err(_) => None,
    }
}

/// Counts the tokens of texts with the cl100k_base encoding.
pub struct TokenCounter {}

impl TokenCounter {
    /// A counter.
    pub fn new() -> (c: Self) {
        TokenCounter {}
    }

    /// The number of cl100k_base tokens of `text`, or `None` when the
    /// tokenizer fails on it.
    pub fn count(&self, text: &str) -> (r: Option<usize>)
        ensures
            r matches Some(n) ==> (spec_cl100k_tokens(text@) matches Some(t) && n == t.len()),
            r is None ==> spec_cl100k_tokens(text@) is None,
    {
        match cl100k_tokens(text) {
            Some(v) => Some(v.len()),
            None => None,
        }
    }
}

/// The blocks of type `bt`, in order.
pub open spec fn spec_blocks_of_type(bs: Seq<BlockModel>, bt: BlockType) -> Seq<BlockModel>
    decreases bs.len(),
{
    if bs.len() == 0 {
        Seq::empty()
    } else {
        let rest = spec_blocks_of_type(bs.drop_first(), bt);
        if bs[0].block_type == bt {
            seq![bs[0]] + rest
        } else {
            rest
        }
    }
}

/// Keep the blocks of type `bt`, in order.
pub fn blocks_of_type(blocks: Vec<Block>, bt: BlockType) -> (r: Vec<Block>)
    ensures
        r@.map_values(|b: Block| b@) == spec_blocks_of_type(blocks@.map_values(|b: Block| b@), bt),
{
    let ghost all = blocks@.map_values(|b: Block| b@);
    let mut rest = blocks;
    let mut out: Vec<Block> = Vec::new();
    while rest.len() > 0
        invariant
            out@.map_values(|b: Block| b@) + spec_blocks_of_type(rest@.map_values(|b: Block| b@), bt)
                == spec_blocks_of_type(all, bt),
        decreases rest@.len(),
    {
        let ghost before = rest@.map_values(|b: Block| b@);
        let ghost out_before = out@.map_values(|b: Block| b@);
        let b = rest.remove(0);
        proof {
            assert(rest@.map_values(|b: Block| b@) =~= before.drop_first());
            assert(before[0] == b@);
        }
        if b.block_type == bt {
            out.push(b);
            proof {
                assert(out@.map_values(|b: Block| b@) =~= out_before + seq![before[0]]);
                assert(out_before + seq![before[0]] + spec_blocks_of_type(before.drop_first(), bt)
                    =~= out_before + (seq![before[0]] + spec_blocks_of_type(before.drop_first(), bt)));
            }
        }
    }
    proof {
        assert(rest@.map_values(|b: Block| b@) =~= Seq::<BlockModel>::empty());
        assert(out@.map_values(|b: Block| b@) + Seq::<BlockModel>::empty() =~= out@.map_values(|b: Block| b@));
    }
    out
}

} // verus!
