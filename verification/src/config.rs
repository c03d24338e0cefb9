//! How the renderer is configured.
use vstd::prelude::*;
use crate::block_type::BlockType;

verus! {

/// The output format.
#[derive(Clone, Copy, Debug, PartialEq, Eq, Structural)]
pub enum OutputMode {
    /// XML elements inside `<context>`.
    Xml,
    /// Markdown sections.
    Markdown,
    /// Terse text with separators.
    Minimal,
}

/// The model family the output is meant for.
#[derive(Clone, Copy, Debug, PartialEq, Eq, Structural)]
pub enum ModelFamily {
    Claude,
    Gpt,
    Gemini,
    Generic,
}

/// How much of each block to show.
#[derive(Clone, Copy, Debug, PartialEq, Eq, Structural)]
pub enum Verbosity {
    /// Every block in full.
    Full,
    /// The summary of every block that has one.
    Summary,
    /// Full, summary or placeholder, to fit the token budget.
    Adaptive,
}

/// Renderer settings.
#[derive(Debug)]
pub struct DriverConfig {
    pub mode: OutputMode,
    pub target_model: Option<ModelFamily>,
    pub include_types: Option<Vec<BlockType>>,
    pub verbosity: Verbosity,
    pub token_budget: Option<u32>,
}

impl Default for DriverConfig {
    fn default() -> (c: Self)
        ensures
            c.mode == OutputMode::Xml,
            c.target_model is None,
            c.include_types is None,
            c.verbosity == Verbosity::Adaptive,
            c.token_budget is None,
    {
        DriverConfig {
            mode: OutputMode::Xml,
            target_model: None,
            include_types: None,
            verbosity: Verbosity::Adaptive,
            token_budget: None,
        }
    }
}

} // verus!
