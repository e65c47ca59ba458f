//! Undelete on FAT12/16 volumes: deleted root-directory entries whose data
//! can still be read.
//!
//! The scan works on the volume's bytes; creating the destination folder
//! and writing the recovered files is left to the caller.
use vstd::prelude::*;
use crate::bytes::{le16, le32};
use crate::disk::{DiskError, DiskReader, short_read};
use crate::text::{dec, owned, push_dec, push_str, string_of};

verus! {

pub const RECOVERY_SCHEMA_VERSION: u32 = 1;

#[derive(Debug)]
pub enum RecoveryError {
    Disk(DiskError),
    Io(String),
    UnsupportedFilesystem(String),
    InvalidDestination(String),
}

#[derive(Debug, Clone)]
pub struct RecoveredFileRecord {
    pub schema_version: u32,
    pub source_path: String,
    pub destination_path: String,
    pub deleted: bool,
    pub status: String,
    pub bytes_written: u64,
    pub note: String,
}

#[derive(Debug, Clone)]
pub struct RecoveryJobTranscript {
    pub schema_version: u32,
    pub source_path: String,
    pub destination_dir: String,
    pub recovered_files: Vec<RecoveredFileRecord>,
    pub status: String,
}

/// A deleted file found in the root directory: the name to write it under
/// and its bytes.
#[derive(Debug, Clone)]
pub struct FatRecoveredFile {
    pub file_name: String,
    pub bytes: Vec<u8>,
}

pub struct FileView {
    pub file_name: Seq<char>,
    pub bytes: Seq<u8>,
}

impl View for FatRecoveredFile {
    type V = FileView;

    open spec fn view(&self) -> FileView {
        FileView { file_name: self.file_name@, bytes: self.bytes@ }
    }
}

pub open spec fn files_view(v: Seq<FatRecoveredFile>) -> Seq<FileView> {
    v.map_values(|f: FatRecoveredFile| f@)
}

/// Recovering into the folder the image itself is named by is refused.
pub fn check_recovery_destination(source_path: &str, destination_dir: &str) -> (r: Result<(), RecoveryError>)
    ensures
        r is Ok <==> source_path@ != destination_dir@,
        r matches Err(e) ==> e is InvalidDestination && e->InvalidDestination_0@
            == "destination must differ from source"@,
{
    if crate::text::str_eq(source_path, destination_dir) {
        Err(RecoveryError::InvalidDestination(owned("destination must differ from source")))
    } else {
        Ok(())
    }
}

// ---------------------------------------------------------------------------
// Names

pub open spec fn name_byte_kept(b: u8) -> bool {
    (0x30 <= b <= 0x39) || (0x41 <= b <= 0x5a) || (0x61 <= b <= 0x7a) || b == 0x5f || b == 0x2d
}

/// The ASCII letters, digits, `_` and `-` among the bytes of a name field,
/// in order. (Decoding the field as UTF-8 and keeping those characters
/// gives the same: bytes below 0x80 always decode to themselves.)
pub open spec fn sanitized(bytes: Seq<u8>) -> Seq<char>
    decreases bytes.len(),
{
    if bytes.len() == 0 {
        seq![]
    } else if name_byte_kept(bytes.last()) {
        sanitized(bytes.drop_last()).push(bytes.last() as char)
    } else {
        sanitized(bytes.drop_last())
    }
}

pub fn sanitize_fat_name(bytes: &[u8]) -> (r: String)
    ensures
        r@ == sanitized(bytes@),
{
    let mut out: Vec<char> = Vec::new();
    let mut i: usize = 0;
    while i < bytes.len()
        invariant
            i <= bytes.len(),
            out@ == sanitized(bytes@.take(i as int)),
        decreases bytes.len() - i,
    {
        let b = bytes[i];
        proof {
            assert(bytes@.take(i + 1 as int).drop_last() =~= bytes@.take(i as int));
        }
        if (0x30 <= b && b <= 0x39) || (0x41 <= b && b <= 0x5a) || (0x61 <= b && b <= 0x7a) || b == 0x5f || b == 0x2d {
            out.push(b as char);
        }
        i = i + 1;
    }
    proof {
        assert(bytes@.take(bytes.len() as int) =~= bytes@);
    }
    string_of(&out)
}

/// The name a deleted entry is recovered under: the 8.3 base name from
/// byte 1 to 7 (byte 0 holds the deletion mark), then `.` and the extension
/// in bytes 8 to 10 where it keeps any character; `recovered-N.bin` when
/// nothing is left, N counting the files recovered so far and this one.
pub open spec fn entry_file_name(e: Seq<u8>, found: nat) -> Seq<char> {
    let name = sanitized(e.subrange(1, 8));
    let ext = sanitized(e.subrange(8, 11));
    let full = if ext.len() == 0 {
        name
    } else {
        name + seq!['.'] + ext
    };
    if full.len() == 0 {
        "recovered-"@ + dec(found + 1) + ".bin"@
    } else {
        full
    }
}

// ---------------------------------------------------------------------------
// Volume layout

pub struct FatGeometry {
    pub bytes_per_sector: u64,
    pub sectors_per_cluster: u64,
    pub reserved: u64,
    pub fats: u64,
    pub root_entry_count: u64,
    pub sectors_per_fat: u64,
}

/// The layout fields of a FAT boot sector.
pub open spec fn geometry(boot: Seq<u8>) -> FatGeometry {
    FatGeometry {
        bytes_per_sector: le16(boot, 11) as u64,
        sectors_per_cluster: boot[13] as u64,
        reserved: le16(boot, 14) as u64,
        fats: boot[16] as u64,
        root_entry_count: le16(boot, 17) as u64,
        sectors_per_fat: le16(boot, 22) as u64,
    }
}

pub open spec fn root_dir_start(g: FatGeometry) -> int {
    g.reserved + g.fats * g.sectors_per_fat
}

pub open spec fn root_dir_sectors(g: FatGeometry) -> int {
    (g.root_entry_count * 32 + (g.bytes_per_sector - 1)) / (g.bytes_per_sector as int)
}

/// First sector of the data area: right after the root directory.
pub open spec fn data_region(g: FatGeometry) -> int {
    root_dir_start(g) + root_dir_sectors(g)
}

pub open spec fn cluster_offset(g: FatGeometry, first_cluster: nat) -> int {
    (data_region(g) + (if first_cluster >= 2 { first_cluster - 2 } else { 0 }) * g.sectors_per_cluster)
        * g.bytes_per_sector
}

pub open spec fn entry_at(dir: Seq<u8>, k: int) -> Seq<u8> {
    dir.subrange(32 * k, 32 * k + 32)
}

/// An entry is a recoverable deleted file: marked deleted, not a long-name
/// entry, with a first cluster and a size.
pub open spec fn recoverable(e: Seq<u8>) -> bool {
    &&& e[0] == 0xE5
    &&& e[11] & 0x0F != 0x0F
    &&& le16(e, 26) != 0
    &&& le32(e, 28) != 0
}

/// The files recovered from entry `k` on, and whether a data read failed.
pub open spec fn scan_entries(c: Seq<u8>, g: FatGeometry, dir: Seq<u8>, k: nat, found: nat) -> (Seq<FileView>, bool)
    decreases dir.len() / 32 - k,
{
    if k >= dir.len() / 32 {
        (seq![], false)
    } else {
        let e = entry_at(dir, k as int);
        if e[0] == 0 {
            (seq![], false)
        } else if !recoverable(e) {
            scan_entries(c, g, dir, k + 1, found)
        } else {
            let off = cluster_offset(g, le16(e, 26));
            let size = le32(e, 28);
            if off + size > c.len() {
                (seq![], true)
            } else {
                let f = FileView { file_name: entry_file_name(e, found), bytes: c.subrange(off, off + size) };
                let rest = scan_entries(c, g, dir, k + 1, found + 1);
                (seq![f] + rest.0, rest.1)
            }
        }
    }
}

/// The deleted files of a FAT volume's root directory, in directory order,
/// and whether reading stopped early.
pub open spec fn spec_fat_scan(c: Seq<u8>) -> (Seq<FileView>, bool) {
    if c.len() < 512 {
        (seq![], true)
    } else {
        let g = geometry(c.subrange(0, 512));
        let off = root_dir_start(g) * g.bytes_per_sector;
        let len = root_dir_sectors(g) * g.bytes_per_sector;
        if !crate::disk::range_readable(c, off, len) {
            (seq![], true)
        } else {
            scan_entries(c, g, crate::disk::range_at(c, off, len), 0, 0)
        }
    }
}

/// A boot sector whose bytes-per-sector field is zero cannot be laid out.
pub open spec fn fat_layout_defined(c: Seq<u8>) -> bool {
    c.len() < 512 || le16(c, 11) != 0
}

/// Finds the deleted files of a FAT12/16 root directory.
///
/// The files come in directory order, up to the first entry that marks the
/// end of the directory. A file whose data runs past the end of the volume
/// stops the scan: the files before it are returned with the read error.
pub fn scan_fat_deleted_files(disk: &DiskReader) -> (r: (Vec<FatRecoveredFile>, Option<RecoveryError>))
    requires
        fat_layout_defined(disk.content()),
    ensures
        files_view(r.0@) == spec_fat_scan(disk.content()).0,
        r.1 is Some == spec_fat_scan(disk.content()).1,
        r.1 matches Some(e) ==> e is Disk && e->Disk_0 is Io && e->Disk_0->Io_0@ == short_read(),
{
    let boot = match disk.read_sector(0) {
        Ok(b) => b,
        Err(e) => {
            return (Vec::new(), Some(RecoveryError::Disk(e)));
        },
    };
    proof {
        assert(boot@ =~= disk.content().subrange(0, 512));
    }
    let bps: u64 = boot[11] as u64 + 256 * boot[12] as u64;
    let spc: u64 = boot[13] as u64;
    let reserved: u64 = boot[14] as u64 + 256 * boot[15] as u64;
    let fats: u64 = boot[16] as u64;
    let rec: u64 = boot[17] as u64 + 256 * boot[18] as u64;
    let spf: u64 = boot[22] as u64 + 256 * boot[23] as u64;
    let ghost g = geometry(boot@);
    assert(bps == g.bytes_per_sector && spc == g.sectors_per_cluster && reserved == g.reserved && fats == g.fats
        && rec == g.root_entry_count && spf == g.sectors_per_fat);
    assert(bps != 0);
    assert(fats * spf <= 255 * 65535) by (nonlinear_arith)
        requires
            fats < 256,
            spf < 65536,
    ;
    let start: u64 = reserved + fats * spf;
    let rds: u64 = (rec * 32 + (bps - 1)) / bps;
    assert(rds <= rec * 32 + bps) by (nonlinear_arith)
        requires
            bps >= 1,
            rds == (rec * 32 + (bps - 1)) / (bps as int),
    ;
    assert(start * bps <= 17000000 * 65536) by (nonlinear_arith)
        requires
            start <= 17000000,
            bps < 65536,
    ;
    assert(rds * bps <= rec * 32 + bps) by (nonlinear_arith)
        requires
            bps >= 1,
            rds == (rec * 32 + (bps - 1)) / (bps as int),
    ;
    let dir = match disk.read_at(start * bps, (rds * bps) as usize) {
        Ok(d) => d,
        Err(e) => {
            return (Vec::new(), Some(RecoveryError::Disk(e)));
        },
    };
    let ghost c = disk.content();
    proof {
        assert(g == geometry(c.subrange(0, 512)));
        assert(dir@ == crate::disk::range_at(
            c,
            root_dir_start(g) * g.bytes_per_sector,
            root_dir_sectors(g) * g.bytes_per_sector,
        ));
    }
    let n = dir.len() / 32;
    let mut files: Vec<FatRecoveredFile> = Vec::new();
    let mut k: usize = 0;
    let ghost total = scan_entries(c, g, dir@, 0, 0);
    proof {
        assert(total == spec_fat_scan(c));
        assert(files_view(files@) + total.0 =~= total.0);
    }
    while k < n
        invariant
            n == dir@.len() / 32,
            k <= n,
            c == disk.content(),
            g.bytes_per_sector == bps && g.sectors_per_cluster == spc && g.fats == fats && g.sectors_per_fat == spf,
            bps >= 1 && bps < 65536 && spc < 256 && fats < 256 && spf < 65536,
            start == root_dir_start(g),
            rds == root_dir_sectors(g),
            start <= 17000000,
            rds <= 2200000,
            total.0 == files_view(files@) + scan_entries(c, g, dir@, k as nat, files@.len()).0,
            total.1 == scan_entries(c, g, dir@, k as nat, files@.len()).1,
            total == spec_fat_scan(c),
            files@.len() <= k,
        decreases n - k,
    {
        let base = 32 * k;
        let ghost e = entry_at(dir@, k as int);
        let ghost found = files@.len();
        let ghost view_before = files_view(files@);
        proof {
            assert(dir@[base as int] == e[0]);
            assert(dir@[base + 11] == e[11]);
            assert(le16(e, 26) == le16(dir@, base + 26));
            assert(le32(e, 28) == le32(dir@, base + 28));
        }
        if dir[base] == 0x00 {
            proof {
                assert(files_view(files@) + Seq::<FileView>::empty() =~= files_view(files@));
            }
            return (files, None);
        }
        let first_cluster: u64 = dir[base + 26] as u64 + 256 * dir[base + 27] as u64;
        let file_size: u64 = dir[base + 28] as u64 + 256 * dir[base + 29] as u64 + 65536 * (dir[base + 30] as u64
            + 256 * dir[base + 31] as u64);
        if dir[base] != 0xE5 || dir[base + 11] & 0x0F == 0x0F || first_cluster == 0 || file_size == 0 {
            k = k + 1;
            continue;
        }
        let data_start: u64 = start + rds;
        let skip: u64 = if first_cluster >= 2 { first_cluster - 2 } else { 0 };
        assert(skip * spc <= 65535 * 255) by (nonlinear_arith)
            requires
                skip < 65536,
                spc < 256,
        ;
        assert((data_start + skip * spc) * bps <= 60000000 * 65536) by (nonlinear_arith)
            requires
                data_start + skip * spc <= 60000000,
                bps < 65536,
        ;
        let off: u64 = (data_start + skip * spc) * bps;
        proof {
            assert(off == cluster_offset(g, le16(e, 26)));
        }
        let bytes = match disk.read_at(off, file_size as usize) {
            Ok(b) => b,
            Err(err) => {
                proof {
                    assert(files_view(files@) + Seq::<FileView>::empty() =~= files_view(files@));
                }
                return (files, Some(RecoveryError::Disk(err)));
            },
        };
        let name = sanitize_fat_name(&dir.as_slice()[base + 1..base + 8]);
        let ext = sanitize_fat_name(&dir.as_slice()[base + 8..base + 11]);
        proof {
            assert(dir@.subrange(base + 1, base + 8) =~= e.subrange(1, 8));
            assert(dir@.subrange(base + 8, base + 11) =~= e.subrange(8, 11));
        }
        let mut full: Vec<char> = crate::text::chars_of(name.as_str());
        let ext_chars = crate::text::chars_of(ext.as_str());
        if ext_chars.len() > 0 {
            full.push('.');
            crate::text::push_chars(&mut full, &ext_chars);
        }
        if full.len() == 0 {
            let count = files.len();
            assert(count < usize::MAX) by {
                assert(files@.len() <= k);
            }
            push_str(&mut full, "recovered-");
            push_dec(&mut full, count as u64 + 1);
            push_str(&mut full, ".bin");
        }
        proof {
            assert(file_size == le32(e, 28));
            assert(bytes@ == c.subrange(off as int, off + le32(e, 28)));
            let nm = sanitized(e.subrange(1, 8));
            let ex = sanitized(e.subrange(8, 11));
            let fl = if ex.len() == 0 { nm } else { nm + seq!['.'] + ex };
            if fl.len() == 0 {
                assert(full@ =~= "recovered-"@ + dec(found + 1) + ".bin"@);
            } else {
                assert(full@ =~= fl);
            }
            assert(full@ == entry_file_name(e, found));
        }
        files.push(FatRecoveredFile { file_name: string_of(&full), bytes });
        proof {
            assert(files_view(files@) =~= view_before.push(FileView {
                file_name: entry_file_name(e, found),
                bytes: c.subrange(off as int, off + le32(e, 28)),
            }));
            let rest = scan_entries(c, g, dir@, (k + 1) as nat, found + 1);
            assert(scan_entries(c, g, dir@, k as nat, found).0 =~= seq![FileView {
                file_name: entry_file_name(e, found),
                bytes: c.subrange(off as int, off + le32(e, 28)),
            }] + rest.0);
            assert(view_before + (seq![FileView {
                file_name: entry_file_name(e, found),
                bytes: c.subrange(off as int, off + le32(e, 28)),
            }] + rest.0) =~= files_view(files@) + rest.0);
        }
        k = k + 1;
    }
    proof {
        assert(files_view(files@) + Seq::<FileView>::empty() =~= files_view(files@));
    }
    (files, None)
}

/// The record of one recovered file written to `destination_path`.
pub fn recovered_file_record(source_path: &str, destination_path: String, bytes_written: u64) -> (r: RecoveredFileRecord)
    ensures
        r.schema_version == RECOVERY_SCHEMA_VERSION,
        r.source_path@ == source_path@,
        r.destination_path@ == destination_path@,
        r.deleted,
        r.status@ == "recovered"@,
        r.bytes_written == bytes_written,
        r.note@ == "FAT metadata recovery"@,
{
    RecoveredFileRecord {
        schema_version: RECOVERY_SCHEMA_VERSION,
        source_path: owned(source_path),
        destination_path,
        deleted: true,
        status: owned("recovered"),
        bytes_written,
        note: owned("FAT metadata recovery"),
    }
}

/// The transcript of a completed recovery.
pub fn recovery_transcript(source_path: &str, destination_dir: &str, recovered_files: Vec<RecoveredFileRecord>) -> (r:
    RecoveryJobTranscript)
    ensures
        r.schema_version == RECOVERY_SCHEMA_VERSION,
        r.source_path@ == source_path@,
        r.destination_dir@ == destination_dir@,
        r.recovered_files == recovered_files,
        r.status@ == "completed"@,
{
    RecoveryJobTranscript {
        schema_version: RECOVERY_SCHEMA_VERSION,
        source_path: owned(source_path),
        destination_dir: owned(destination_dir),
        recovered_files,
        status: owned("completed"),
    }
}

} // verus!
