//! The MBR partition table in sector 0.
use vstd::prelude::*;
use crate::bytes::{le16, le32, read_le16, read_le32};
use crate::disk::{DiskError, DiskReader, SECTOR_SIZE};
use crate::text::owned;

verus! {

#[derive(Debug, Clone)]
pub struct MbrPartition {
    pub index: u8,
    pub status: u8,
    pub partition_type: u8,
    pub start_lba: u64,
    pub sector_count: u64,
    pub size_bytes: u64,
    pub type_label: String,
    pub bootable: bool,
    /// Set for entries of an extended partition chain; entries read from the
    /// primary table in sector 0 are never logical.
    pub logical: bool,
}

#[derive(Debug, Clone)]
pub struct MbrTable {
    pub partitions: Vec<MbrPartition>,
    pub signature_valid: bool,
}

pub open spec fn spec_mbr_type_name(code: u8) -> Seq<char> {
    if code == 0x00 {
        "Empty"@
    } else if code == 0x01 {
        "FAT12"@
    } else if code == 0x04 {
        "FAT16 (<32M)"@
    } else if code == 0x05 {
        "Extended"@
    } else if code == 0x06 {
        "FAT16"@
    } else if code == 0x07 {
        "NTFS/exFAT"@
    } else if code == 0x0b {
        "FAT32"@
    } else if code == 0x0c {
        "FAT32 LBA"@
    } else if code == 0x0e {
        "FAT16 LBA"@
    } else if code == 0x0f {
        "Extended LBA"@
    } else if code == 0x82 {
        "Linux Swap"@
    } else if code == 0x83 {
        "Linux"@
    } else if code == 0x8e {
        "Linux LVM"@
    } else if code == 0xee {
        "GPT Protective"@
    } else if code == 0xef {
        "EFI System"@
    } else {
        "Unknown"@
    }
}

pub fn mbr_type_name(type_code: u8) -> (r: &'static str)
    ensures
        r@ == spec_mbr_type_name(type_code),
{
    match type_code {
        0x00 => "Empty",
        0x01 => "FAT12",
        0x04 => "FAT16 (<32M)",
        0x05 => "Extended",
        0x06 => "FAT16",
        0x07 => "NTFS/exFAT",
        0x0b => "FAT32",
        0x0c => "FAT32 LBA",
        0x0e => "FAT16 LBA",
        0x0f => "Extended LBA",
        0x82 => "Linux Swap",
        0x83 => "Linux",
        0x8e => "Linux LVM",
        0xee => "GPT Protective",
        0xef => "EFI System",
        _ => "Unknown",
    }
}

/// Byte offset of primary entry `i` in sector 0.
pub open spec fn mbr_entry_offset(i: int) -> int {
    446 + 16 * i
}

/// Indices (0-based) of the first `n` primary entries whose type byte is not zero.
pub open spec fn mbr_slots(s: Seq<u8>, n: int) -> Seq<int>
    decreases n,
{
    if n <= 0 {
        seq![]
    } else {
        let prev = mbr_slots(s, n - 1);
        if s[mbr_entry_offset(n - 1) + 4] != 0 {
            prev.push(n - 1)
        } else {
            prev
        }
    }
}

/// `p` is primary entry `i` of sector `s`.
pub open spec fn mbr_entry_matches(p: MbrPartition, s: Seq<u8>, i: int) -> bool {
    let off = mbr_entry_offset(i);
    &&& p.index == i + 1
    &&& p.status == s[off]
    &&& p.partition_type == s[off + 4]
    &&& p.start_lba == le32(s, off + 8)
    &&& p.sector_count == le32(s, off + 12)
    &&& p.size_bytes == p.sector_count * 512
    &&& p.type_label@ == spec_mbr_type_name(s[off + 4])
    &&& p.bootable == (s[off] == 0x80)
    &&& !p.logical
}

/// `t` is the table held by the 512-byte sector `s`.
pub open spec fn mbr_parsed(t: MbrTable, s: Seq<u8>) -> bool {
    let slots = mbr_slots(s, 4);
    &&& t.partitions@.len() == slots.len()
    &&& forall|k: int| 0 <= k < slots.len() ==> mbr_entry_matches(#[trigger] t.partitions@[k], s, slots[k])
    &&& t.signature_valid == (le16(s, 510) == 0xAA55)
}

/// Parses the four primary entries and the boot signature of sector 0.
pub fn parse_mbr_sector(sector: &[u8]) -> (t: MbrTable)
    requires
        sector@.len() == 512,
    ensures
        mbr_parsed(t, sector@),
{
    let mut partitions: Vec<MbrPartition> = Vec::new();
    let mut i: u8 = 0;
    while i < 4
        invariant
            0 <= i <= 4,
            sector@.len() == 512,
            partitions@.len() == mbr_slots(sector@, i as int).len(),
            forall|k: int| 0 <= k < partitions@.len() ==> mbr_entry_matches(#[trigger] partitions@[k], sector@, mbr_slots(sector@, i as int)[k]),
        decreases 4 - i,
    {
        let off: usize = 446 + 16 * (i as usize);
        let status = sector[off];
        let part_type = sector[off + 4];
        let start_lba = read_le32(sector, off + 8) as u64;
        let sector_count = read_le32(sector, off + 12) as u64;
        if part_type != 0 {
            partitions.push(MbrPartition {
                index: i + 1,
                status,
                partition_type: part_type,
                start_lba,
                sector_count,
                size_bytes: sector_count * SECTOR_SIZE,
                type_label: owned(mbr_type_name(part_type)),
                bootable: status == 0x80,
                logical: false,
            });
        }
        i = i + 1;
    }
    let sig = read_le16(sector, 510);
    MbrTable { partitions, signature_valid: sig == 0xAA55 }
}

/// Reads and parses sector 0.
pub fn read_mbr(disk: &DiskReader) -> (r: Result<MbrTable, DiskError>)
    ensures
        r is Ok <==> 512 <= disk.content().len(),
        r matches Ok(t) ==> mbr_parsed(t, disk.content().subrange(0, 512)),
{
    let sector = disk.read_sector(0)?;
    Ok(parse_mbr_sector(&sector))
}

pub open spec fn spec_is_gpt_protective_mbr(mbr: MbrTable) -> bool {
    exists|k: int| 0 <= k < mbr.partitions@.len() && (#[trigger] mbr.partitions@[k]).partition_type == 0xee
}

pub fn is_gpt_protective_mbr(mbr: &MbrTable) -> (r: bool)
    ensures
        r == spec_is_gpt_protective_mbr(*mbr),
{
    let mut i: usize = 0;
    while i < mbr.partitions.len()
        invariant
            i <= mbr.partitions@.len(),
            forall|k: int| 0 <= k < i ==> (#[trigger] mbr.partitions@[k]).partition_type != 0xee,
        decreases mbr.partitions.len() - i,
    {
        if mbr.partitions[i].partition_type == 0xee {
            return true;
        }
        i = i + 1;
    }
    false
}

} // verus!
