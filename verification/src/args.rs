//! The command surface: what an export is asked to do.

use crate::range::BlockRange;
use vstd::prelude::*;

verus! {

/// The first block that is fetched when none is named.
pub const DEFAULT_START: u64 = 1;

/// What to export, from where and to where.
#[derive(Clone, Debug, PartialEq, Eq)]
pub struct BlockArgs {
    /// RPC url
    pub rpc: String,
    /// Output path
    pub path: String,
    /// First block to fetch (inclusive)
    pub start: u64,
    /// Last block to fetch (inclusive)
    pub end: u64,
}

impl BlockArgs {
    /// The range of block numbers that is asked for.
    pub fn range(&self) -> (range: BlockRange)
        ensures
            range.start == self.start,
            range.end == self.end,
    {
        BlockRange::new(self.start, self.end)
    }
}

/// The commands of the program.
#[derive(Clone, Debug, PartialEq, Eq)]
pub enum Command {
    /// Export a range of blocks.
    Blocks(BlockArgs),
}

/// The program's arguments.
#[derive(Clone, Debug, PartialEq, Eq)]
pub struct App {
    pub command: Command,
}

} // verus!
