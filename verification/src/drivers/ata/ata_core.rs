use vstd::prelude::*;
use crate::dev::block::{BLOCK_SECTOR_SIZE, BlockSector};

verus! {

/// READ SECTOR (with retries)  PIO     8-bit
pub const ATA_READ_SECTOR_RETRY: u8 = 0x20;

/// WRITE SECTOR (with retries) PIO     8-bit
pub const ATA_WRITE_SECTOR_RETRY: u8 = 0x30;

/// IDENTIFY DEVICE             PIO     8-bit
pub const ATA_IDENTIFY_DEVICE: u8 = 0xEC;

/// Number of ATA channels
pub const CHANNEL_CNT: usize = 2;

/// Byte of the answer to IDENTIFY DEVICE at which the number of sectors starts.
pub const IDENTIFY_CAPACITY_OFFSET: usize = 120;

/// The number that four bytes spell, lowest byte first.
pub open spec fn le_u32(b0: u8, b1: u8, b2: u8, b3: u8) -> int {
    b0 + b1 * 0x100 + b2 * 0x1_0000 + b3 * 0x100_0000
}

/// Sectors of the disk that answered IDENTIFY DEVICE with `id`: bytes 120
/// to 123 of the answer, lowest byte first.
pub open spec fn identify_capacity(id: Seq<u8>) -> int {
    le_u32(id[120], id[121], id[122], id[123])
}

/// Sectors of the disk that answered IDENTIFY DEVICE with `id`.
pub fn capacity_of(id: &[u8; BLOCK_SECTOR_SIZE]) -> (capacity: BlockSector)
    ensures
        capacity == identify_capacity(id@),
{
    let b0: u32 = id[IDENTIFY_CAPACITY_OFFSET] as u32;
    let b1: u32 = id[IDENTIFY_CAPACITY_OFFSET + 1] as u32;
    let b2: u32 = id[IDENTIFY_CAPACITY_OFFSET + 2] as u32;
    let b3: u32 = id[IDENTIFY_CAPACITY_OFFSET + 3] as u32;
    b0 + b1 * 0x100 + b2 * 0x1_0000 + b3 * 0x100_0000
}

/// Megabytes that `capacity` sectors of 512 bytes hold, rounded down.
pub fn capacity_megabytes(capacity: BlockSector) -> (megabytes: BlockSector)
    ensures
        megabytes == capacity / 2048,
{
    capacity / 2048
}

/// Which devices of one channel are there. The second device is only
/// looked for where the first answered; `first` and `second` say whether
/// each answers as an ATA disk.
pub fn devices_present(first: bool, second: bool) -> (present: [bool; 2])
    ensures
        present[0] == first,
        present[1] == (first && second),
{
    [first, first && second]
}

} // verus!
