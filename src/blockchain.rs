//! Chain height and generated-coin queries over the block tables.
use vstd::prelude::*;

verus! {

/// The height of a block: the number of blocks below it.
pub type BlockHeight = u64;

/// A block's hash.
pub type BlockHash = [u8; 32];

/// Errors of the table layer.
#[derive(Debug, Clone, Copy, PartialEq, Eq, Structural)]
pub enum RuntimeError {
    /// The key is already in the table.
    KeyExists,
    /// The key is not in the table.
    KeyNotFound,
}

/// Metadata of a database table.
pub trait Table {
    /// Primary key type.
    type Key;

    /// Value type.
    type Value;

    /// Name of the table.
    fn name() -> &'static str;
}

/// The table from block hash to block height.
pub struct BlockHeights;

/// The table from block height to block metadata.
pub struct BlockInfos;

impl Table for BlockHeights {
    type Key = BlockHash;

    type Value = BlockHeight;

    fn name() -> &'static str {
        "block_heights"
    }
}

impl Table for BlockInfos {
    type Key = BlockHeight;

    type Value = BlockInfo;

    fn name() -> &'static str {
        "block_infos"
    }
}

/// What the chain keeps of each block besides its blob.
#[derive(Debug, Clone, Copy, PartialEq, Eq, Structural)]
pub struct BlockInfo {
    pub timestamp: u64,
    pub cumulative_generated_coins: u64,
    pub weight: u64,
    pub cumulative_difficulty: u128,
}

/// The rows of the block-heights table: one hash per block, the block at
/// height `h` in row `h`.
pub struct BlockHeightsTable {
    hashes: Vec<BlockHash>,
}

/// The rows of the block-infos table, keyed by height.
pub struct BlockInfosTable {
    infos: Vec<BlockInfo>,
}

impl BlockHeightsTable {
    pub closed spec fn view(&self) -> Seq<BlockHash> {
        self.hashes@
    }

    pub fn new() -> (r: BlockHeightsTable)
        ensures
            r.view().len() == 0,
    {
        BlockHeightsTable { hashes: Vec::new() }
    }

    /// Appends the hash of the block at the next height.
    pub fn push(&mut self, hash: BlockHash)
        ensures
            final(self).view() == old(self).view().push(hash),
    {
        self.hashes.push(hash);
    }

    /// The number of rows.
    pub fn len(&self) -> (r: Result<u64, RuntimeError>)
        ensures
            r == Ok::<u64, RuntimeError>(self.view().len() as u64),
    {
        Ok(self.hashes.len() as u64)
    }
}

impl BlockInfosTable {
    pub closed spec fn view(&self) -> Seq<BlockInfo> {
        self.infos@
    }

    pub fn new() -> (r: BlockInfosTable)
        ensures
            r.view().len() == 0,
    {
        BlockInfosTable { infos: Vec::new() }
    }

    /// Appends the metadata of the block at the next height.
    pub fn push(&mut self, info: BlockInfo)
        ensures
            final(self).view() == old(self).view().push(info),
    {
        self.infos.push(info);
    }

    /// The row of `height`, if the table has one.
    pub fn get(&self, height: &BlockHeight) -> (r: Result<BlockInfo, RuntimeError>)
        ensures
            *height < self.view().len() ==> r == Ok::<BlockInfo, RuntimeError>(self.view()[*height as int]),
            *height >= self.view().len() ==> r == Err::<BlockInfo, RuntimeError>(RuntimeError::KeyNotFound),
    {
        if *height < self.infos.len() as u64 {
            Ok(self.infos[*height as usize])
        } else {
            Err(RuntimeError::KeyNotFound)
        }
    }
}

/// The height of the chain: its number of blocks, which is the height a new
/// block would get.
pub fn chain_height(table_block_heights: &BlockHeightsTable) -> (r: Result<BlockHeight, RuntimeError>)
    ensures
        r == Ok::<BlockHeight, RuntimeError>(table_block_heights.view().len() as u64),
{
    table_block_heights.len()
}

/// The height of the top block; an empty chain has none.
pub fn top_block_height(table_block_heights: &BlockHeightsTable) -> (r: Result<BlockHeight, RuntimeError>)
    requires
        table_block_heights.view().len() <= u64::MAX,
    ensures
        table_block_heights.view().len() == 0 ==> r == Err::<BlockHeight, RuntimeError>(RuntimeError::KeyNotFound),
        table_block_heights.view().len() > 0 ==> r == Ok::<BlockHeight, RuntimeError>(
            (table_block_heights.view().len() - 1) as u64,
        ),
{
    match table_block_heights.len() {
        Ok(0) => Err(RuntimeError::KeyNotFound),
        Ok(height) => Ok(height - 1),
        Err(e) => Err(e),
    }
}

/// The coins generated up to and including the block at `block_height`; before
/// the genesis block is written, height 0 counts as nothing generated.
pub fn cumulative_generated_coins(block_height: &BlockHeight, table_block_infos: &BlockInfosTable) -> (r: Result<u64, RuntimeError>)
    ensures
        *block_height < table_block_infos.view().len() ==> r == Ok::<u64, RuntimeError>(
            table_block_infos.view()[*block_height as int].cumulative_generated_coins,
        ),
        *block_height >= table_block_infos.view().len() && *block_height == 0 ==> r == Ok::<u64, RuntimeError>(0),
        *block_height >= table_block_infos.view().len() && *block_height != 0 ==> r == Err::<u64, RuntimeError>(
            RuntimeError::KeyNotFound,
        ),
{
    match table_block_infos.get(block_height) {
        Ok(block_info) => Ok(block_info.cumulative_generated_coins),
        Err(RuntimeError::KeyNotFound) if *block_height == 0 => Ok(0),
        Err(e) => Err(e),
    }
}

} // verus!
