use vstd::prelude::*;
use crate::dev::block::{BLOCK_SECTOR_SIZE, BlockDriver, BlockManager, BlockSector, BlockType, Block};
use crate::interrupts::{InterruptFlag, MutexIrq};

verus! {

/// Sectors of the disk that `tempfs_init` makes.
pub const TEMPFS_SECTORS: usize = 1024;

/// A disk that is kept in memory.
pub struct TempFs {
    sects: Vec<[u8; BLOCK_SECTOR_SIZE]>,
}

/// tempfs disk descriptor type
pub type TempFsDisk = usize;

impl View for TempFs {
    type V = Seq<Seq<u8>>;

    closed spec fn view(&self) -> Seq<Seq<u8>> {
        Seq::new(self.sects@.len(), |i: int| self.sects@[i]@)
    }
}

/// A sector of zeros.
pub open spec fn zero_sector() -> Seq<u8> {
    Seq::new(BLOCK_SECTOR_SIZE as nat, |i: int| 0u8)
}

impl TempFs {
    /// Every sector has `BLOCK_SECTOR_SIZE` bytes.
    pub proof fn lemma_sector_len(&self, sector: int)
        requires
            0 <= sector < self@.len(),
        ensures
            self@[sector].len() == BLOCK_SECTOR_SIZE,
    {
    }

    /// A disk of `sectors` sectors, all zeros.
    pub fn new(sectors: usize) -> (disk: TempFs)
        ensures
            disk@.len() == sectors,
            forall|i: int| 0 <= i < sectors ==> disk@[i] == zero_sector(),
    {
        let mut sects: Vec<[u8; BLOCK_SECTOR_SIZE]> = Vec::new();
        let mut i: usize = 0;
        while i < sectors
            invariant
                i <= sectors,
                sects@.len() == i,
                forall|k: int| 0 <= k < i ==> (#[trigger] sects@[k])@ =~= zero_sector(),
            decreases sectors - i,
        {
            sects.push([0u8;BLOCK_SECTOR_SIZE]);
            i += 1;
        }
        TempFs { sects }
    }

    /// Number of sectors of the disk.
    pub fn sectors(&self) -> (n: usize)
        ensures
            n == self@.len(),
    {
        self.sects.len()
    }

    /// Copies sector `sector` to the first `BLOCK_SECTOR_SIZE` bytes of `buf`.
    pub fn read(&self, sector: BlockSector, buf: &mut [u8])
        requires
            sector < self@.len(),
            old(buf)@.len() >= BLOCK_SECTOR_SIZE,
        ensures
            final(buf)@.len() == old(buf)@.len(),
            final(buf)@.subrange(0, BLOCK_SECTOR_SIZE as int) == self@[sector as int],
            final(buf)@.subrange(BLOCK_SECTOR_SIZE as int, old(buf)@.len() as int) == old(buf)@.subrange(
                BLOCK_SECTOR_SIZE as int,
                old(buf)@.len() as int,
            ),
    {
        let mut i: usize = 0;
        while i < BLOCK_SECTOR_SIZE
            invariant
                i <= BLOCK_SECTOR_SIZE,
                sector < self.sects@.len(),
                buf@.len() == old(buf)@.len(),
                buf@.len() >= BLOCK_SECTOR_SIZE,
                forall|k: int| 0 <= k < i ==> buf@[k] == self.sects@[sector as int]@[k],
                forall|k: int| i <= k < buf@.len() ==> buf@[k] == old(buf)@[k],
            decreases BLOCK_SECTOR_SIZE - i,
        {
            buf[i] = self.sects[sector as usize][i];
            i += 1;
        }
        assert(buf@.subrange(0, BLOCK_SECTOR_SIZE as int) =~= self@[sector as int]);
        assert(buf@.subrange(BLOCK_SECTOR_SIZE as int, old(buf)@.len() as int) =~= old(buf)@.subrange(
            BLOCK_SECTOR_SIZE as int,
            old(buf)@.len() as int,
        ));
    }

    /// Copies the first `BLOCK_SECTOR_SIZE` bytes of `buf` to sector `sector`.
    pub fn write(&mut self, sector: BlockSector, buf: &[u8])
        requires
            sector < old(self)@.len(),
            buf@.len() >= BLOCK_SECTOR_SIZE,
        ensures
            final(self)@ == old(self)@.update(sector as int, buf@.subrange(0, BLOCK_SECTOR_SIZE as int)),
    {
        let mut i: usize = 0;
        while i < BLOCK_SECTOR_SIZE
            invariant
                i <= BLOCK_SECTOR_SIZE,
                buf@.len() >= BLOCK_SECTOR_SIZE,
                self.sects@.len() == old(self).sects@.len(),
                sector < self.sects@.len(),
                forall|s: int| 0 <= s < self.sects@.len() && s != sector ==> self.sects@[s] == old(self).sects@[s],
                forall|k: int| 0 <= k < i ==> self.sects@[sector as int]@[k] == buf@[k],
            decreases BLOCK_SECTOR_SIZE - i,
        {
            self.sects[sector as usize][i] = buf[i];
            i += 1;
        }
        assert(self@ =~~= old(self)@.update(sector as int, buf@.subrange(0, BLOCK_SECTOR_SIZE as int)));
    }
}

/// Makes the disk `tempfs0`, of `TEMPFS_SECTORS` sectors of zeros, behind
/// its lock, and registers it with the block devices.
pub fn tempfs_init(
    tempfs0: &mut MutexIrq<Option<TempFs>>,
    interrupts: &mut InterruptFlag,
    all_blocks: &mut BlockManager,
)
    requires
        !old(tempfs0).locked(),
    ensures
        !final(tempfs0).locked(),
        final(tempfs0).value() matches Some(disk) && disk@.len() == TEMPFS_SECTORS && forall|i: int|
            0 <= i < TEMPFS_SECTORS ==> disk@[i] == zero_sector(),
        final(interrupts).level() == old(interrupts).level(),
        final(all_blocks)@ == old(all_blocks)@.push(
            (Block {
                block_type: BlockType::BlockTempfs,
                name: "tempfs0",
                size: 1024,
                driver: BlockDriver::TempFs(0),
            }),
        ),
{
    tempfs0.lock(interrupts);
    tempfs0.set(Some(TempFs::new(TEMPFS_SECTORS)));
    tempfs0.unlock(interrupts);
    all_blocks.block_register(BlockType::BlockTempfs, "tempfs0", 1024, BlockDriver::TempFs(0));
}

/// Reads sector `sector` of the disk `tempfs0` into `buf`, under its lock.
pub fn tempfs_read(
    tempfs0: &mut MutexIrq<Option<TempFs>>,
    interrupts: &mut InterruptFlag,
    fd: TempFsDisk,
    sector: BlockSector,
    buf: &mut [u8],
)
    requires
        !old(tempfs0).locked(),
        old(tempfs0).value() matches Some(disk) && sector < disk@.len(),
        old(buf)@.len() >= BLOCK_SECTOR_SIZE,
    ensures
        !final(tempfs0).locked(),
        final(tempfs0).value() == old(tempfs0).value(),
        final(interrupts).level() == old(interrupts).level(),
        final(buf)@.len() == old(buf)@.len(),
        final(buf)@.subrange(0, BLOCK_SECTOR_SIZE as int) == old(tempfs0).value()->0@[sector as int],
        final(buf)@.subrange(BLOCK_SECTOR_SIZE as int, old(buf)@.len() as int) == old(buf)@.subrange(
            BLOCK_SECTOR_SIZE as int,
            old(buf)@.len() as int,
        ),
{
    tempfs0.lock(interrupts);
    match tempfs0.get() {
        Some(t) => t.read(sector, buf),
        None => {},
    }
    tempfs0.unlock(interrupts);
}

/// Writes `buf` to sector `sector` of the disk `tempfs0`, under its lock.
pub fn tempfs_write(
    tempfs0: &mut MutexIrq<Option<TempFs>>,
    interrupts: &mut InterruptFlag,
    fd: TempFsDisk,
    sector: BlockSector,
    buf: &[u8],
)
    requires
        !old(tempfs0).locked(),
        old(tempfs0).value() matches Some(disk) && sector < disk@.len(),
        buf@.len() >= BLOCK_SECTOR_SIZE,
    ensures
        !final(tempfs0).locked(),
        final(interrupts).level() == old(interrupts).level(),
        final(tempfs0).value() matches Some(disk) && disk@ == old(tempfs0).value()->0@.update(
            sector as int,
            buf@.subrange(0, BLOCK_SECTOR_SIZE as int),
        ),
{
    tempfs0.lock(interrupts);
    match tempfs0.get_mut() {
        Some(t) => t.write(sector, buf),
        None => {},
    }
    tempfs0.unlock(interrupts);
}

} // verus!
