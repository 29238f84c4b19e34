use vstd::prelude::*;

verus! {

/// Bytes in one sector of a block device.
pub const BLOCK_SECTOR_SIZE: usize = 512;

/// Number of a sector of a block device.
pub type BlockSector = u32;

/// What a block device is used for.
#[derive(Clone, Copy, Debug, PartialEq, Eq, Structural)]
pub enum BlockType {
    /// A whole disk, before its partitions are known.
    Raw,
    /// The disk that is kept in memory.
    BlockTempfs,
}

/// The driver behind a block device, and which of its devices it is.
#[derive(Clone, Copy, Debug, PartialEq, Eq, Structural)]
pub enum BlockDriver {
    TempFs(usize),
    Ata(u8),
}

/// One registered block device.
pub struct Block {
    pub block_type: BlockType,
    pub name: &'static str,
    pub size: BlockSector,
    pub driver: BlockDriver,
}

/// The registry of block devices, in the order in which they were registered.
pub struct BlockManager {
    all_blocks: Vec<Block>,
}

impl View for BlockManager {
    type V = Seq<Block>;

    closed spec fn view(&self) -> Seq<Block> {
        self.all_blocks@
    }
}

impl BlockManager {
    /// A registry without devices.
    pub fn new() -> (manager: BlockManager)
        ensures
            manager@ == Seq::<Block>::empty(),
    {
        BlockManager { all_blocks: Vec::new() }
    }

    /// Registers a device of `size` sectors and returns its index.
    pub fn block_register(&mut self, block_type: BlockType, name: &'static str, size: BlockSector, driver: BlockDriver) -> (index:
        usize)
        ensures
            index == old(self)@.len(),
            final(self)@ == old(self)@.push((Block { block_type, name, size, driver })),
    {
        let index: usize = self.all_blocks.len();
        self.all_blocks.push(Block { block_type, name, size, driver });
        index
    }

    /// Number of registered devices.
    pub fn len(&self) -> (n: usize)
        ensures
            n == self@.len(),
    {
        self.all_blocks.len()
    }

    /// The device registered under `index`.
    pub fn by_id(&self, index: usize) -> (block: Option<&Block>)
        ensures
            match block {
                Some(b) => index < self@.len() && *b == self@[index as int],
                None => index >= self@.len(),
            },
    {
        if index < self.all_blocks.len() {
            Some(&self.all_blocks[index])
        } else {
            None
        }
    }
}

} // verus!
