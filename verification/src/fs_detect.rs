//! Filesystem signatures in a boot sector or superblock.
use vstd::prelude::*;
use crate::bytes::{be16, le16, le32, read_be16, read_le16, read_le32};
use crate::text::{
    dec, from_utf8_lossy, has_prefix, owned, push_chars, push_dec, push_str, starts_with,
    string_of, trim_chars, trim_seq, utf8_lossy,
};

verus! {

#[derive(Debug, Clone)]
pub struct FilesystemInfo {
    pub fs_type: String,
    pub confidence: String,
    pub label: Option<String>,
    pub details: String,
}

/// The text of a `FilesystemInfo`.
pub struct FsInfoView {
    pub fs_type: Seq<char>,
    pub confidence: Seq<char>,
    pub label: Option<Seq<char>>,
    pub details: Seq<char>,
}

impl View for FilesystemInfo {
    type V = FsInfoView;

    open spec fn view(&self) -> FsInfoView {
        FsInfoView {
            fs_type: self.fs_type@,
            confidence: self.confidence@,
            label: match self.label {
                Some(l) => Some(l@),
                None => None,
            },
            details: self.details@,
        }
    }
}

pub open spec fn opt_fs_view(f: Option<FilesystemInfo>) -> Option<FsInfoView> {
    match f {
        Some(v) => Some(v@),
        None => None,
    }
}

pub open spec fn fs_info(fs_type: Seq<char>, label: Option<Seq<char>>, details: Seq<char>) -> FsInfoView {
    FsInfoView { fs_type, confidence: "high"@, label, details }
}

/// The bytes `s[lo..hi]`.
pub open spec fn bytes_at(s: Seq<u8>, lo: int, hi: int) -> Seq<u8> {
    s.subrange(lo, hi)
}

/// The OEM name of a boot sector, decoded and trimmed.
pub open spec fn spec_oem(data: Seq<u8>) -> Seq<char> {
    trim_seq(utf8_lossy(data.subrange(3, 11)))
}

pub open spec fn is_ascii_graphic(c: char) -> bool {
    '!' <= c <= '~'
}

pub open spec fn spec_read_fat_label(data: Seq<u8>) -> Option<Seq<char>> {
    let label = trim_seq(utf8_lossy(data.subrange(43, 54)));
    if label.len() > 0 && (forall|i: int| 0 <= i < label.len() ==> is_ascii_graphic(#[trigger] label[i]) || label[i] == ' ') {
        Some(trim_seq(label))
    } else {
        None
    }
}

pub open spec fn spec_detect_fat(data: Seq<u8>) -> Option<FsInfoView> {
    let media = data[21];
    let spc = data[13];
    let oem = spec_oem(data);
    if media >= 0xF0 && spc > 0 && spc <= 128 {
        let fat_type = if has_prefix(oem, "FAT32"@) || data[66] < 16 {
            "FAT32"@
        } else if has_prefix(oem, "FAT16"@) || has_prefix(oem, "MSWIN"@) {
            "FAT16"@
        } else {
            "FAT12/16"@
        };
        Some(fs_info(fat_type, spec_read_fat_label(data), "OEM: "@ + oem))
    } else {
        None
    }
}

pub open spec fn ntfs_bps_ok(bps: nat) -> bool {
    bps == 512 || bps == 1024 || bps == 2048 || bps == 4096
}

pub open spec fn spec_detect_ntfs(data: Seq<u8>) -> Option<FsInfoView> {
    let bps = le16(data, 11);
    if data.subrange(3, 7) == seq![0x4eu8, 0x54u8, 0x46u8, 0x53u8] && ntfs_bps_ok(bps) {
        Some(fs_info("NTFS"@, None, "Bytes per sector: "@ + dec(bps)))
    } else {
        None
    }
}

/// The eight OEM bytes of an exFAT boot sector, `"EXFAT   "`.
pub open spec fn exfat_oem() -> Seq<u8> {
    seq![0x45u8, 0x58u8, 0x46u8, 0x41u8, 0x54u8, 0x20u8, 0x20u8, 0x20u8]
}

pub open spec fn spec_detect_exfat(data: Seq<u8>) -> Option<FsInfoView> {
    if data.subrange(3, 11) == exfat_oem() {
        Some(fs_info("exFAT"@, None, "exFAT boot sector"@))
    } else {
        None
    }
}

pub open spec fn ext_name(rev: nat) -> Seq<char> {
    if rev <= 1 {
        "ext2"@
    } else if rev <= 3 {
        "ext3"@
    } else {
        "ext4"@
    }
}

/// ext2/3/4: superblock at byte 1024, magic 0xEF53 at 1024 + 56.
pub open spec fn spec_detect_ext(data: Seq<u8>) -> Option<FsInfoView> {
    if data.len() < 1024 + 84 {
        None
    } else if le16(data, 1080) == 0xEF53 {
        let rev = le32(data, 1100);
        let blocks = le32(data, 1028);
        Some(fs_info(ext_name(rev), None, "Blocks: "@ + dec(blocks) + ", rev: "@ + dec(rev)))
    } else {
        None
    }
}

/// APFS container superblock magic `NXSB` at byte 0.
pub open spec fn spec_detect_apfs(data: Seq<u8>) -> Option<FsInfoView> {
    if le32(data, 0) == 0x4253584e {
        Some(fs_info("APFS"@, None, "Apple File System"@))
    } else {
        None
    }
}

/// HFS / HFS+: volume header at byte 1024.
pub open spec fn spec_detect_hfs(data: Seq<u8>) -> Option<FsInfoView> {
    if be16(data, 1024) == 0x4244 {
        Some(fs_info("HFS"@, None, "Classic HFS"@))
    } else if data.len() >= 1024 + 8 && (be16(data, 1028) == 4 || be16(data, 1028) == 5) {
        Some(fs_info("HFS+"@, None, "HFS+ version "@ + dec(be16(data, 1028))))
    } else {
        None
    }
}

/// The filesystem whose signature `data` (read from the start of a
/// partition) holds, probing NTFS, FAT, exFAT, ext, APFS and HFS in turn.
/// NTFS goes first: its boot sector also passes the FAT media-byte test,
/// while its OEM name `NTFS` is specific.
pub open spec fn spec_detect_filesystem(data: Seq<u8>) -> Option<FsInfoView> {
    if data.len() < 512 {
        None
    } else if le16(data, 510) == 0xAA55 && spec_detect_ntfs(data) is Some {
        spec_detect_ntfs(data)
    } else if le16(data, 510) == 0xAA55 && spec_detect_fat(data) is Some {
        spec_detect_fat(data)
    } else if le16(data, 510) == 0xAA55 && spec_detect_exfat(data) is Some {
        spec_detect_exfat(data)
    } else if data.len() >= 1088 && spec_detect_ext(data) is Some {
        spec_detect_ext(data)
    } else if spec_detect_apfs(data) is Some {
        spec_detect_apfs(data)
    } else if data.len() >= 1536 {
        spec_detect_hfs(data)
    } else {
        None
    }
}

/// An ext superblock is found by its magic stored little-endian: a window
/// of at least 1108 bytes without a boot-sector signature (bytes 510, 511
/// not 0x55, 0xAA) whose bytes 1080 and 1081 are 0x53 and 0xEF is ext2,
/// ext3 or ext4, by the little-endian revision at 1100, with the
/// little-endian block count at 1028 and that revision in its details.
pub proof fn lemma_ext_magic_little_endian(data: Seq<u8>)
    requires
        data.len() >= 1108,
        !(data[510] == 0x55 && data[511] == 0xAA),
        data[1080] == 0x53,
        data[1081] == 0xEF,
    ensures
        ({
            let rev = data[1100] as nat + 256 * (data[1101] as nat) + 65536 * (data[1102] as nat) + 16777216 * (
            data[1103] as nat);
            let blocks = data[1028] as nat + 256 * (data[1029] as nat) + 65536 * (data[1030] as nat) + 16777216 * (
            data[1031] as nat);
            &&& spec_detect_filesystem(data) matches Some(i)
            &&& i.fs_type == (if rev <= 1 {
                "ext2"@
            } else if rev <= 3 {
                "ext3"@
            } else {
                "ext4"@
            })
            &&& i.details == "Blocks: "@ + dec(blocks) + ", rev: "@ + dec(rev)
            &&& i.label is None
        }),
{
    assert(le16(data, 510) != 0xAA55);
    assert(le16(data, 1080) == 0xEF53);
}

fn info(fs_type: &str, label: Option<String>, details: Vec<char>) -> (r: FilesystemInfo)
    ensures
        r@ == fs_info(fs_type@, match label { Some(l) => Some(l@), None => None }, details@),
{
    let high = "high";
    FilesystemInfo { fs_type: owned(fs_type), confidence: owned(high), label, details: string_of(&details) }
}

fn read_fat_label(data: &[u8]) -> (r: Option<String>)
    requires
        data@.len() >= 512,
    ensures
        match r {
            Some(l) => spec_read_fat_label(data@) == Some(l@),
            None => spec_read_fat_label(data@) is None,
        },
{
    let raw = from_utf8_lossy(&crate::bytes::copy_range(data, 43, 11));
    let label = trim_chars(&raw);
    if label.len() == 0 {
        return None;
    }
    let mut i: usize = 0;
    while i < label.len()
        invariant
            i <= label@.len(),
            data@.len() >= 512,
            label@ == trim_seq(utf8_lossy(data@.subrange(43, 54))),
            forall|k: int| 0 <= k < i ==> ('!' <= #[trigger] label@[k] <= '~') || label@[k] == ' ',
        decreases label.len() - i,
    {
        let c = label[i];
        if !(('!' <= c && c <= '~') || c == ' ') {
            assert(!(is_ascii_graphic(label@[i as int]) || label@[i as int] == ' '));
            return None;
        }
        i = i + 1;
    }
    Some(string_of(&trim_chars(&label)))
}

fn detect_fat(data: &[u8]) -> (r: Option<FilesystemInfo>)
    requires
        data@.len() >= 512,
    ensures
        opt_fs_view(r) == spec_detect_fat(data@),
{
    let media = data[21];
    let spc = data[13];
    if media >= 0xF0 && spc > 0 && spc <= 128 {
        let raw = from_utf8_lossy(&crate::bytes::copy_range(data, 3, 8));
        let oem = trim_chars(&raw);
        let b66 = data[66];
        assert((b66 & 0xF0u8) == 0 <==> b66 < 16) by (bit_vector);
        let fat32 = "FAT32";
        let fat16 = "FAT16";
        let mswin = "MSWIN";
        let fat_type = if starts_with(&oem, fat32) || b66 & 0xF0 == 0 {
            "FAT32"
        } else if starts_with(&oem, fat16) || starts_with(&oem, mswin) {
            "FAT16"
        } else {
            "FAT12/16"
        };
        let mut details: Vec<char> = Vec::new();
        push_str(&mut details, "OEM: ");
        push_chars(&mut details, &oem);
        let label = read_fat_label(data);
        let r = info(fat_type, label, details);
        return Some(r);
    }
    None
}

fn detect_ntfs(data: &[u8]) -> (r: Option<FilesystemInfo>)
    requires
        data@.len() >= 512,
    ensures
        opt_fs_view(r) == spec_detect_ntfs(data@),
{
    if data[3] == 0x4e && data[4] == 0x54 && data[5] == 0x46 && data[6] == 0x53 {
        let bps = read_le16(data, 11);
        assert(data@.subrange(3, 7) =~= seq![0x4eu8, 0x54u8, 0x46u8, 0x53u8]);
        if bps == 512 || bps == 1024 || bps == 2048 || bps == 4096 {
            let mut details: Vec<char> = Vec::new();
            push_str(&mut details, "Bytes per sector: ");
            push_dec(&mut details, bps as u64);
            return Some(info("NTFS", None, details));
        }
    } else {
        assert(data@.subrange(3, 7) != seq![0x4eu8, 0x54u8, 0x46u8, 0x53u8]) by {
            if data@.subrange(3, 7) == seq![0x4eu8, 0x54u8, 0x46u8, 0x53u8] {
                assert(data@.subrange(3, 7)[0] == data@[3]);
                assert(data@.subrange(3, 7)[1] == data@[4]);
                assert(data@.subrange(3, 7)[2] == data@[5]);
                assert(data@.subrange(3, 7)[3] == data@[6]);
            }
        }
    }
    None
}

fn detect_exfat(data: &[u8]) -> (r: Option<FilesystemInfo>)
    requires
        data@.len() >= 512,
    ensures
        opt_fs_view(r) == spec_detect_exfat(data@),
{
    let oem = crate::bytes::copy_range(data, 3, 8);
    let expected: [u8; 8] = [0x45, 0x58, 0x46, 0x41, 0x54, 0x20, 0x20, 0x20];
    assert(expected@ =~= exfat_oem());
    if crate::bytes::bytes_eq(&oem, &expected) {
        let mut details: Vec<char> = Vec::new();
        push_str(&mut details, "exFAT boot sector");
        return Some(info("exFAT", None, details));
    }
    None
}

fn detect_ext(data: &[u8]) -> (r: Option<FilesystemInfo>)
    requires
        data@.len() >= 1088,
    ensures
        opt_fs_view(r) == spec_detect_ext(data@),
{
    if data.len() < 1024 + 84 {
        return None;
    }
    let magic = read_le16(data, 1080);
    if magic == 0xEF53 {
        let rev = read_le32(data, 1100);
        let name = if rev <= 1 {
            "ext2"
        } else if rev <= 3 {
            "ext3"
        } else {
            "ext4"
        };
        let blocks = read_le32(data, 1028);
        let mut details: Vec<char> = Vec::new();
        push_str(&mut details, "Blocks: ");
        push_dec(&mut details, blocks as u64);
        push_str(&mut details, ", rev: ");
        push_dec(&mut details, rev as u64);
        return Some(info(name, None, details));
    }
    None
}

fn detect_apfs(data: &[u8]) -> (r: Option<FilesystemInfo>)
    requires
        data@.len() >= 32,
    ensures
        opt_fs_view(r) == spec_detect_apfs(data@),
{
    let magic = read_le32(data, 0);
    if magic == 0x4253_584e {
        let mut details: Vec<char> = Vec::new();
        push_str(&mut details, "Apple File System");
        return Some(info("APFS", None, details));
    }
    None
}

fn detect_hfs(data: &[u8]) -> (r: Option<FilesystemInfo>)
    requires
        data@.len() >= 1536,
    ensures
        opt_fs_view(r) == spec_detect_hfs(data@),
{
    let sig = read_be16(data, 1024);
    if sig == 0x4244 {
        let mut details: Vec<char> = Vec::new();
        push_str(&mut details, "Classic HFS");
        return Some(info("HFS", None, details));
    }
    let version = read_be16(data, 1028);
    if version == 4 || version == 5 {
        let mut details: Vec<char> = Vec::new();
        push_str(&mut details, "HFS+ version ");
        push_dec(&mut details, version as u64);
        return Some(info("HFS+", None, details));
    }
    None
}

/// Detects the filesystem from boot sector / superblock data.
pub fn detect_filesystem(data: &[u8]) -> (r: Option<FilesystemInfo>)
    ensures
        opt_fs_view(r) == spec_detect_filesystem(data@),
{
    if data.len() < 512 {
        return None;
    }
    let sig = read_le16(data, 510);
    if sig == 0xAA55 {
        let ntfs = detect_ntfs(data);
        if ntfs.is_some() {
            return ntfs;
        }
        let fat = detect_fat(data);
        if fat.is_some() {
            return fat;
        }
        let exfat = detect_exfat(data);
        if exfat.is_some() {
            return exfat;
        }
    }
    if data.len() >= 1088 {
        let ext = detect_ext(data);
        if ext.is_some() {
            return ext;
        }
    }
    let apfs = detect_apfs(data);
    if apfs.is_some() {
        return apfs;
    }
    if data.len() >= 1536 {
        return detect_hfs(data);
    }
    None
}

} // verus!
