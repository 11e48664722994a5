//! What an operator configures.
use vstd::prelude::*;

verus! {

/// How much of the agent's tool use a reply shows.
#[derive(Clone, Copy, Debug, PartialEq, Eq, Structural)]
pub enum ToolDisplay {
    /// Each tool call by its title.
    Full,
    /// Only how many tool calls there were.
    Compact,
    /// Nothing.
    Hidden,
}

/// How long the last reaction stays before it is taken away.
#[derive(Clone, Copy, Debug, PartialEq, Eq, Structural)]
pub struct ReactionTiming {
    pub done_hold_ms: u64,
    pub error_hold_ms: u64,
}

/// Reactions on the message that started a run, and what the reply shows of tool calls. `E`
/// is which emoji stands for what.
#[derive(Debug, PartialEq, Eq)]
pub struct ReactionsConfig<E> {
    pub enabled: bool,
    pub tool_display: ToolDisplay,
    pub remove_after_reply: bool,
    pub emojis: E,
    pub timing: ReactionTiming,
}

/// Which local files the agent may have uploaded.
#[derive(Debug)]
pub struct UploadsConfig {
    pub enabled: bool,
    pub allowed_roots: Vec<String>,
    pub max_files: usize,
    pub max_file_bytes: u64,
}

impl Default for UploadsConfig {
    /// Uploads are off. What the other settings are is left open: with uploads off none of
    /// them has a bearing.
    fn default() -> (r: Self)
        ensures
            !r.enabled,
    {
        UploadsConfig {
            enabled: false,
            allowed_roots: Vec::new(),
            max_files: 0,
            max_file_bytes: 0,
        }
    }
}

} // verus!
