//! What the launcher is made of, and the settings that it settles on its own.
use crate::primitives::B256;
use vstd::prelude::*;

verus! {

/// The highest block that the pipeline syncs to, whatever the tip is.
pub const PIPELINE_MAX_BLOCK: u64 = 10_000;

/// What a launch starts from: the executor `E` of the node's tasks and the
/// data directory `D`.
#[derive(Debug, PartialEq, Eq)]
pub struct LaunchContext<E, D> {
    /// The task executor for the node.
    pub task_executor: E,
    /// The data directory.
    pub data_dir: D,
}

/// The engine node launcher, over the settings `C` of the engine's block tree.
#[derive(Debug, PartialEq, Eq)]
pub struct EngineNodeLauncher<E, D, C> {
    /// What the launch starts from.
    pub ctx: LaunchContext<E, D>,
    /// The settings of the engine's block tree.
    pub engine_tree_config: C,
}

impl<E, D, C> EngineNodeLauncher<E, D, C> {
    /// Create a new instance of the ethereum node launcher.
    pub fn new(task_executor: E, data_dir: D, engine_tree_config: C) -> (launcher: Self)
        ensures
            launcher == (EngineNodeLauncher {
                ctx: LaunchContext { task_executor, data_dir },
                engine_tree_config,
            }),
    {
        EngineNodeLauncher { ctx: LaunchContext { task_executor, data_dir }, engine_tree_config }
    }
}

/// How many notifications of canonical state the channel to their listeners
/// holds: two for each block that a reorganisation may go back.
pub fn canon_state_channel_capacity(max_reorg_depth: u64) -> (capacity: usize)
    requires
        2 * max_reorg_depth <= usize::MAX,
    ensures
        capacity == 2 * max_reorg_depth,
{
    max_reorg_depth as usize * 2
}

/// The highest block that the pipeline syncs to. The block that the node's
/// configuration resolves to is not looked at.
pub fn pipeline_max_block(_resolved: Option<u64>) -> (max_block: Option<u64>)
    ensures
        max_block == Some(PIPELINE_MAX_BLOCK),
{
    Some(PIPELINE_MAX_BLOCK)
}

/// Whether to watch that a consensus client is there: not where a tip was set
/// by hand, and not on a development chain.
pub fn watches_consensus_layer(tip: &Option<B256>, is_dev: bool) -> (watches: bool)
    ensures
        watches == (tip is None && !is_dev),
{
    tip.is_none() && !is_dev
}

} // verus!
