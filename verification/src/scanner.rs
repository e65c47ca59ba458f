//! The analysis pass: partition tables, conflicts and the deep scan for lost
//! partitions.
use vstd::prelude::*;
use crate::domain::{PartView, PartitionResult, parts_view, strings_view};
use crate::text::{dec, owned, push_dec, push_str, string_of};

verus! {

pub open spec fn ranges_overlap(a_start: u64, a_end: u64, b_start: u64, b_end: u64) -> bool {
    a_start <= b_end && b_start <= a_end
}

pub open spec fn part_overlaps(a: PartView, b: PartView) -> bool {
    ranges_overlap(a.start_lba, a.end_lba, b.start_lba, b.end_lba)
}

/// Some other partition of `ps` shares a sector with partition `i`.
pub open spec fn overlaps_other(ps: Seq<PartView>, i: int) -> bool {
    exists|j: int| 0 <= j < ps.len() && j != i && #[trigger] part_overlaps(ps[i], ps[j])
}

/// The conflict status of partition `i`: overlap first, then running past
/// the last sector (`max_lba` is the sector count), else clear.
pub open spec fn conflict_of(ps: Seq<PartView>, i: int, max_lba: nat) -> Seq<char> {
    if overlaps_other(ps, i) {
        "overlap"@
    } else if ps[i].end_lba >= max_lba {
        "out_of_bounds"@
    } else {
        "clear"@
    }
}

/// Confidence lowered by 0.15 and kept within [0, 1].
pub open spec fn lowered_confidence(c: u32) -> u32 {
    if c < 150 {
        0
    } else if c - 150 > 1000 {
        1000
    } else {
        (c - 150) as u32
    }
}

pub open spec fn with_conflict(p: PartView, status: Seq<char>) -> PartView {
    PartView {
        conflict_status: status,
        confidence: if status == "clear"@ { p.confidence } else { lowered_confidence(p.confidence) },
        ..p
    }
}

pub open spec fn annotate_views(ps: Seq<PartView>, max_lba: nat) -> Seq<PartView> {
    Seq::new(ps.len(), |i: int| with_conflict(ps[i], conflict_of(ps, i, max_lba)))
}

pub open spec fn conflict_warning(p: PartView, status: Seq<char>) -> Seq<char> {
    "分区 "@ + dec(p.index as nat) + " ("@ + p.name + ") 状态冲突: "@ + status
}

/// Warnings for the first `n` partitions that are not clear, in order.
pub open spec fn conflict_warnings(ps: Seq<PartView>, max_lba: nat, n: int) -> Seq<Seq<char>>
    decreases n,
{
    if n <= 0 {
        seq![]
    } else {
        let prev = conflict_warnings(ps, max_lba, n - 1);
        let status = conflict_of(ps, n - 1, max_lba);
        if status == "clear"@ {
            prev
        } else {
            prev.push(conflict_warning(ps[n - 1], status))
        }
    }
}

fn lower_confidence(c: u32) -> (r: u32)
    ensures
        r == lowered_confidence(c),
{
    if c < 150 {
        0
    } else if c - 150 > 1000 {
        1000
    } else {
        c - 150
    }
}

/// Marks overlapping and out-of-bounds partitions, lowers their confidence
/// and records a warning for each.
pub fn annotate_partition_conflicts(partitions: &mut Vec<PartitionResult>, disk_size: u64, warnings: &mut Vec<String>)
    ensures
        parts_view(final(partitions)@) == annotate_views(parts_view(old(partitions)@), (disk_size / 512) as nat),
        strings_view(final(warnings)@) == strings_view(old(warnings)@) + conflict_warnings(parts_view(old(partitions)@), (disk_size / 512) as nat, old(partitions)@.len() as int),
{
    let max_lba = disk_size / 512;
    let ghost ps = parts_view(partitions@);
    let ghost w0 = strings_view(warnings@);
    let n = partitions.len();
    let mut i: usize = 0;
    while i < n
        invariant
            n == partitions@.len(),
            ps.len() == n,
            i <= n,
            max_lba == disk_size / 512,
            forall|k: int| 0 <= k < i ==> #[trigger] partitions@[k]@ == with_conflict(ps[k], conflict_of(ps, k, max_lba as nat)),
            forall|k: int| i <= k < n ==> #[trigger] partitions@[k]@ == ps[k],
            forall|k: int| 0 <= k < n ==> (#[trigger] partitions@[k]).start_lba == ps[k].start_lba && partitions@[k].end_lba == ps[k].end_lba,
            strings_view(warnings@) == w0 + conflict_warnings(ps, max_lba as nat, i as int),
        decreases n - i,
    {
        let mut overlap = false;
        let mut j: usize = 0;
        while j < n
            invariant
                n == partitions@.len(),
                ps.len() == n,
                i < n,
                j <= n,
                forall|k: int| 0 <= k < i ==> #[trigger] partitions@[k]@ == with_conflict(ps[k], conflict_of(ps, k, max_lba as nat)),
                forall|k: int| i <= k < n ==> #[trigger] partitions@[k]@ == ps[k],
                forall|k: int| 0 <= k < n ==> (#[trigger] partitions@[k]).start_lba == ps[k].start_lba && partitions@[k].end_lba == ps[k].end_lba,
                overlap == (exists|m: int| 0 <= m < j && m != i && #[trigger] part_overlaps(ps[i as int], ps[m])),
            decreases n - j,
        {
            if j != i {
                let a_start = partitions[i].start_lba;
                let a_end = partitions[i].end_lba;
                let b_start = partitions[j].start_lba;
                let b_end = partitions[j].end_lba;
                if a_start <= b_end && b_start <= a_end {
                    assert(part_overlaps(ps[i as int], ps[j as int]));
                    overlap = true;
                } else {
                    assert(!part_overlaps(ps[i as int], ps[j as int]));
                }
            }
            proof {
                if !overlap {
                    assert forall|m: int| 0 <= m < j + 1 && m != i implies !#[trigger] part_overlaps(ps[i as int], ps[m]) by {
                        if m == j {
                        } else {
                        }
                    }
                }
            }
            j = j + 1;
        }
        let status: &str = if overlap {
            "overlap"
        } else if partitions[i].end_lba >= max_lba {
            "out_of_bounds"
        } else {
            "clear"
        };
        proof {
            reveal_strlit("overlap");
            reveal_strlit("out_of_bounds");
            reveal_strlit("clear");
            assert(partitions@[i as int]@ == ps[i as int]);
            assert(overlap == overlaps_other(ps, i as int));
            assert(status@ == conflict_of(ps, i as int, max_lba as nat));
        }
        let old_p = partitions.remove(i);
        let clear = crate::text::str_eq(status, "clear");
        let confidence = if clear { old_p.confidence } else { lower_confidence(old_p.confidence) };
        let ghost wv = strings_view(warnings@);
        if !clear {
            let mut msg: Vec<char> = Vec::new();
            push_str(&mut msg, "分区 ");
            push_dec(&mut msg, old_p.index as u64);
            push_str(&mut msg, " (");
            push_str(&mut msg, old_p.name.as_str());
            push_str(&mut msg, ") 状态冲突: ");
            push_str(&mut msg, status);
            let m = string_of(&msg);
            proof {
                assert(m@ == conflict_warning(ps[i as int], status@));
            }
            warnings.push(m);
            proof {
                assert(strings_view(warnings@) =~= wv.push(conflict_warning(ps[i as int], status@)));
            }
        } else {
            proof {
                assert(status@ == "clear"@);
            }
        }
        let new_p = PartitionResult {
            confidence,
            conflict_status: owned(status),
            ..old_p
        };
        partitions.insert(i, new_p);
        proof {
            assert(old_p@ == ps[i as int]);
            assert(partitions@[i as int]@ == with_conflict(ps[i as int], conflict_of(ps, i as int, max_lba as nat)));
            assert(strings_view(warnings@) =~= w0 + conflict_warnings(ps, max_lba as nat, i + 1));
        }
        i = i + 1;
    }
    proof {
        assert(parts_view(partitions@) =~= annotate_views(ps, max_lba as nat));
    }
}

} // verus!

verus! {

/// 1024 shifted left by `s` bits, without truncation.
pub open spec fn shl1024(s: nat) -> nat
    decreases s,
{
    if s == 0 {
        1024
    } else {
        2 * shl1024((s - 1) as nat)
    }
}

/// `blocks * (1024 << log)`, saturating at `u64::MAX`.
pub open spec fn ext_size(blocks: nat, log: nat) -> nat {
    if blocks * shl1024(log) <= u64::MAX {
        blocks * shl1024(log)
    } else {
        u64::MAX as nat
    }
}

pub open spec fn is_boot_sector_fs(t: Seq<char>) -> bool {
    t == "NTFS"@ || t == "FAT32"@ || t == "FAT16"@ || t == "exFAT"@
}

pub open spec fn is_ext_fs(t: Seq<char>) -> bool {
    t == "ext2"@ || t == "ext3"@ || t == "ext4"@
}

pub open spec fn is_apple_fs(t: Seq<char>) -> bool {
    t == "APFS"@ || t == "HFS+"@ || t == "HFS"@
}

/// The size a lost filesystem of type `t` is assumed to span, from the
/// sector count of its boot sector or the block count of its superblock.
pub open spec fn spec_estimate_fs_size(data: Seq<u8>, t: Seq<char>) -> nat {
    if is_boot_sector_fs(t) {
        if data.len() >= 32 && crate::bytes::le32(data, 19) > 0 {
            crate::bytes::le32(data, 19) * 512
        } else {
            100 * 1024 * 1024
        }
    } else if is_ext_fs(t) {
        if data.len() >= 1088 {
            ext_size(crate::bytes::le32(data, 1028), data[1048] as nat)
        } else {
            500 * 1024 * 1024
        }
    } else if is_apple_fs(t) {
        1024 * 1024 * 1024
    } else {
        50 * 1024 * 1024
    }
}

proof fn lemma_shl1024_grows(a: nat, b: nat)
    requires
        a <= b,
    ensures
        shl1024(a) <= shl1024(b),
        shl1024(a) >= 1024,
    decreases b,
{
    if b > a {
        lemma_shl1024_grows(a, (b - 1) as nat);
    } else if a > 0 {
        lemma_shl1024_grows((a - 1) as nat, (a - 1) as nat);
    }
}

fn ext_size_exec(blocks: u32, log: u8) -> (r: u64)
    ensures
        r == ext_size(blocks as nat, log as nat),
{
    if blocks == 0 {
        assert(0 * shl1024(log as nat) == 0);
        return 0;
    }
    let mut bs: u64 = 1024;
    let mut k: u8 = 0;
    while k < log
        invariant
            k <= log,
            bs == shl1024(k as nat),
            blocks > 0,
        decreases log - k,
    {
        if bs > u64::MAX / 2 {
            proof {
                lemma_shl1024_grows((k + 1) as nat, log as nat);
                assert(shl1024((k + 1) as nat) == 2 * shl1024(k as nat));
                assert(blocks * shl1024(log as nat) >= shl1024(log as nat)) by (nonlinear_arith)
                    requires blocks > 0, shl1024(log as nat) >= 0;
            }
            return u64::MAX;
        }
        bs = bs * 2;
        k = k + 1;
    }
    match (blocks as u64).checked_mul(bs) {
        Some(v) => v,
        None => u64::MAX,
    }
}

pub fn estimate_fs_size(data: &[u8], fs_type: &str) -> (r: u64)
    ensures
        r == spec_estimate_fs_size(data@, fs_type@),
{
    let t = crate::text::chars_of(fs_type);
    proof {
        reveal_strlit("NTFS");
        reveal_strlit("FAT32");
        reveal_strlit("FAT16");
        reveal_strlit("exFAT");
        reveal_strlit("ext2");
        reveal_strlit("ext3");
        reveal_strlit("ext4");
        reveal_strlit("APFS");
        reveal_strlit("HFS+");
        reveal_strlit("HFS");
    }
    if crate::text::str_eq(fs_type, "NTFS") || crate::text::str_eq(fs_type, "FAT32") || crate::text::str_eq(fs_type, "FAT16")
        || crate::text::str_eq(fs_type, "exFAT") {
        if data.len() >= 32 {
            let sectors = crate::bytes::read_le32(data, 19);
            if sectors > 0 {
                return (sectors as u64) * 512;
            }
        }
        return 100 * 1024 * 1024;
    }
    if crate::text::str_eq(fs_type, "ext2") || crate::text::str_eq(fs_type, "ext3") || crate::text::str_eq(fs_type, "ext4") {
        if data.len() >= 1088 {
            let blocks = crate::bytes::read_le32(data, 1028);
            return ext_size_exec(blocks, data[1048]);
        }
        return 500 * 1024 * 1024;
    }
    if crate::text::str_eq(fs_type, "APFS") || crate::text::str_eq(fs_type, "HFS+") || crate::text::str_eq(fs_type, "HFS") {
        return 1024 * 1024 * 1024;
    }
    50 * 1024 * 1024
}

/// Confidence (in thousandths) of a lost-partition candidate: the
/// filesystem probe's confidence, nudged up for the fine 64 KiB grid and
/// down for the coarse 1 MiB grid.
pub open spec fn spec_confidence_from_filesystem(fs_confidence: Seq<char>, step: u64) -> u32 {
    let base: int = if fs_confidence == "high"@ {
        900
    } else if fs_confidence == "medium"@ {
        700
    } else if fs_confidence == "low"@ {
        550
    } else {
        600
    };
    let adjusted = if step <= 128 {
        base + 50
    } else if step >= 2048 {
        base - 50
    } else {
        base
    };
    adjusted as u32
}

pub fn confidence_from_filesystem(fs_confidence: &str, step: u64) -> (r: u32)
    ensures
        r == spec_confidence_from_filesystem(fs_confidence@, step),
{
    proof {
        reveal_strlit("high");
        reveal_strlit("medium");
        reveal_strlit("low");
    }
    let base: u32 = if crate::text::str_eq(fs_confidence, "high") {
        900
    } else if crate::text::str_eq(fs_confidence, "medium") {
        700
    } else if crate::text::str_eq(fs_confidence, "low") {
        550
    } else {
        600
    };
    if step <= 128 {
        base + 50
    } else if step >= 2048 {
        base - 50
    } else {
        base
    }
}

/// Byte `offset` lies inside one of the `known` partitions.
pub open spec fn covered_by(known: Seq<PartView>, offset: nat) -> bool {
    exists|k: int| 0 <= k < known.len() && (#[trigger] known[k]).start_lba * 512 <= offset && offset < (known[k].end_lba + 1) * 512
}

pub fn is_covered_by_known(offset: u64, known: &Vec<PartitionResult>) -> (r: bool)
    ensures
        r == covered_by(parts_view(known@), offset as nat),
{
    let ghost kv = parts_view(known@);
    let sector = offset / 512;
    let mut i: usize = 0;
    while i < known.len()
        invariant
            i <= known@.len(),
            kv == parts_view(known@),
            sector == offset / 512,
            forall|k: int| 0 <= k < i ==> !((#[trigger] kv[k]).start_lba * 512 <= offset && offset < (kv[k].end_lba + 1) * 512),
        decreases known.len() - i,
    {
        let start = known[i].start_lba;
        let end = known[i].end_lba;
        proof {
            assert(kv[i as int].start_lba == start);
            assert((start * 512 <= offset) == (start <= sector)) by (nonlinear_arith)
                requires sector == offset / 512;
            assert((offset < (end + 1) * 512) == (sector <= end)) by (nonlinear_arith)
                requires sector == offset / 512;
        }
        if start <= sector && sector <= end {
            return true;
        }
        i = i + 1;
    }
    false
}

} // verus!

verus! {

/// Highest byte offset the deep scan probes below: room is left for a full
/// 8 KiB probe window.
pub open spec fn spec_probe_limit(disk_size: u64) -> nat {
    if disk_size >= 8192 {
        (disk_size - 8192) as nat
    } else {
        0
    }
}

/// The filesystem probed at byte `off`: `None` when the 8 KiB window cannot
/// be read.
pub open spec fn fs_at(c: Seq<u8>, off: int) -> Option<crate::fs_detect::FsInfoView> {
    if 0 <= off && off + 8192 <= c.len() {
        crate::fs_detect::spec_detect_filesystem(c.subrange(off, off + 8192))
    } else {
        None
    }
}

/// The candidate recorded for a filesystem `fs` found at byte `off`, whose
/// 8 KiB probe window is `window`, on a grid of `step` sectors.
pub open spec fn lost_part(window: Seq<u8>, off: nat, fs: crate::fs_detect::FsInfoView, disk_size: u64, index: nat, step: u64) -> PartView {
    let estimate = spec_estimate_fs_size(window, fs.fs_type);
    let room: int = disk_size - off;
    let size_bytes: int = if estimate < room { estimate as int } else { room };
    let start: int = (off / 512) as int;
    let sectors: int = size_bytes / 512;
    let end: int = if sectors >= 1 { start + sectors - 1 } else { start };
    PartView {
        index: index as u32,
        name: "Lost: "@ + fs.fs_type,
        start_lba: start as u64,
        end_lba: end as u64,
        size_bytes: size_bytes as u64,
        type_label: "Lost/Deleted"@,
        filesystem: Some(fs),
        status: "deleted"@,
        source: "deep_scan"@,
        confidence: spec_confidence_from_filesystem(fs.confidence, step),
        conflict_status: "clear"@,
    }
}

/// Candidates found from byte `off` on, probing every 128 sectors (64 KiB)
/// below the probe limit and skipping offsets inside `known` partitions.
/// `found` candidates precede them.
pub open spec fn lost_from(c: Seq<u8>, known: Seq<PartView>, disk_size: u64, off: nat, found: nat) -> Seq<PartView>
    decreases spec_probe_limit(disk_size) + 65536 - off,
{
    if off >= spec_probe_limit(disk_size) {
        seq![]
    } else if !covered_by(known, off) && fs_at(c, off as int) is Some {
        seq![lost_part(c.subrange(off as int, (off + 8192) as int), off, fs_at(c, off as int)->0, disk_size, found + 1, 128)]
            + lost_from(c, known, disk_size, off + 65536, found + 1)
    } else {
        lost_from(c, known, disk_size, off + 65536, found)
    }
}

/// The lost-partition candidates of a deep scan.
pub open spec fn spec_lost_partitions(c: Seq<u8>, known: Seq<PartView>, disk_size: u64) -> Seq<PartView> {
    lost_from(c, known, disk_size, 65536, 0)
}

pub fn detect_fs_at(disk: &crate::disk::DiskReader, offset: u64) -> (r: Option<crate::fs_detect::FilesystemInfo>)
    ensures
        crate::fs_detect::opt_fs_view(r) == fs_at(disk.content(), offset as int),
{
    match disk.read_at(offset, 8192) {
        Ok(data) => crate::fs_detect::detect_filesystem(&data),
        Err(_) => None,
    }
}

fn build_lost_partition(
    data: &[u8],
    offset: u64,
    fs: crate::fs_detect::FilesystemInfo,
    disk_size: u64,
    index: u32,
    step: u64,
) -> (r: PartitionResult)
    requires
        offset < disk_size,
        data@.len() == 8192,
    ensures
        r@ == lost_part(data@, offset as nat, fs@, disk_size, index as nat, step),
{
    let estimate = estimate_fs_size(data, fs.fs_type.as_str());
    let room = disk_size - offset;
    let size_bytes = if estimate < room { estimate } else { room };
    let start_lba = offset / 512;
    let sectors = size_bytes / 512;
    let end_lba = start_lba + if sectors >= 1 { sectors - 1 } else { 0 };
    let mut name: Vec<char> = Vec::new();
    push_str(&mut name, "Lost: ");
    push_str(&mut name, fs.fs_type.as_str());
    let confidence = confidence_from_filesystem(fs.confidence.as_str(), step);
    PartitionResult {
        index,
        name: string_of(&name),
        start_lba,
        end_lba,
        size_bytes,
        type_label: owned("Lost/Deleted"),
        filesystem: Some(fs),
        status: owned("deleted"),
        source: owned("deep_scan"),
        confidence,
        conflict_status: owned("clear"),
    }
}

} // verus!

verus! {

proof fn lemma_lost_from_step(c: Seq<u8>, kv: Seq<PartView>, disk_size: u64, off: nat, n: nat)
    requires
        off < spec_probe_limit(disk_size),
    ensures
        !covered_by(kv, off) && fs_at(c, off as int) is Some ==> lost_from(c, kv, disk_size, off, n)
            == seq![lost_part(c.subrange(off as int, (off + 8192) as int), off, fs_at(c, off as int)->0, disk_size, n + 1, 128)]
            + lost_from(c, kv, disk_size, off + 65536, n + 1),
        !(!covered_by(kv, off) && fs_at(c, off as int) is Some) ==> lost_from(c, kv, disk_size, off, n)
            == lost_from(c, kv, disk_size, off + 65536, n),
{
}

/// The offsets the fine pass has probed when it reaches byte `bound`.
#[verifier::opaque]
pub open spec fn fine_grid_below(bound: int) -> Set<u64> {
    Set::new(|x: u64| x % 65536 == 0 && 65536 <= x && x < bound)
}

proof fn lemma_fine_grid_insert(bound: u64)
    requires
        bound % 65536 == 0,
        65536 <= bound,
    ensures
        fine_grid_below(bound as int).insert(bound) == fine_grid_below(bound + 65536),
        !fine_grid_below(bound as int).contains(bound),
{
    reveal(fine_grid_below);
    assert(fine_grid_below(bound as int).insert(bound) =~= fine_grid_below(bound + 65536));
}

proof fn lemma_fine_grid_contains(bound: int, x: u64)
    requires
        x % 65536 == 0,
        65536 <= x < bound,
    ensures
        fine_grid_below(bound).contains(x),
{
    reveal(fine_grid_below);
}

/// Byte offset of sector `lba`, saturating at `u64::MAX`.
fn sector_offset(lba: u64) -> (r: u64)
    ensures
        r == if lba * 512 <= u64::MAX { lba * 512 } else { u64::MAX as int },
{
    if lba > u64::MAX / 512 {
        proof {
            assert(lba * 512 > u64::MAX) by (nonlinear_arith)
                requires lba > u64::MAX / 512;
        }
        u64::MAX
    } else {
        proof {
            assert(lba * 512 <= u64::MAX) by (nonlinear_arith)
                requires lba <= u64::MAX / 512;
        }
        lba * 512
    }
}

/// The candidate at byte `off`, if the window there is outside the known
/// partitions, readable, and holds a filesystem signature.
fn probe(disk: &crate::disk::DiskReader, known: &Vec<PartitionResult>, off: u64, disk_size: u64, index: u32, step: u64) -> (r: Option<PartitionResult>)
    requires
        off < disk_size,
    ensures
        (r is Some) == (!covered_by(parts_view(known@), off as nat) && fs_at(disk.content(), off as int) is Some),
        r matches Some(p) ==> p@ == lost_part(disk.content().subrange(off as int, off + 8192), off as nat, fs_at(disk.content(), off as int)->0, disk_size, index as nat, step),
{
    if is_covered_by_known(off, known) {
        return None;
    }
    match disk.read_at(off, 8192) {
        Ok(data) => {
            match crate::fs_detect::detect_filesystem(&data) {
                Some(fs) => Some(build_lost_partition(&data, off, fs, disk_size, index, step)),
                None => None,
            }
        },
        Err(_) => None,
    }
}

/// The deep scan: probes 8 KiB windows on a 128-sector grid and then on a
/// 2048-sector grid, each offset at most once, outside the known partitions.
/// Every offset of the coarse grid lies on the fine grid, so all candidates
/// come from the fine pass.
#[verifier::rlimit(80)]
#[verifier::spinoff_prover]
pub fn search_lost_partitions(disk: &crate::disk::DiskReader, known: &Vec<PartitionResult>, disk_size: u64) -> (found: Vec<PartitionResult>)
    ensures
        parts_view(found@) == spec_lost_partitions(disk.content(), parts_view(known@), disk_size),
{
    broadcast use vstd::std_specs::hash::group_hash_axioms;
    let ghost c = disk.content();
    let ghost kv = parts_view(known@);
    let mut found: Vec<PartitionResult> = Vec::new();
    let mut seen: std::collections::HashSet<u64> = std::collections::HashSet::new();
    let probe_limit = disk_size.saturating_sub(8192);
    assert(probe_limit == spec_probe_limit(disk_size));

    let mut lba: u64 = 128;
    assert(found@ =~= Seq::<PartitionResult>::empty());
    proof {
        reveal(fine_grid_below);
        assert(seen@ =~= fine_grid_below(lba * 512));
    }
    while sector_offset(lba) < probe_limit
        invariant
            lba % 128 == 0,
            128 <= lba,
            lba * 512 <= probe_limit + 65536,
            found@.len() < lba,
            probe_limit == spec_probe_limit(disk_size),
            probe_limit < disk_size || probe_limit == 0,
            c == disk.content(),
            kv == parts_view(known@),
            parts_view(found@) + lost_from(c, kv, disk_size, (lba * 512) as nat, found@.len() as nat) == spec_lost_partitions(c, kv, disk_size),
            seen@ == fine_grid_below(lba * 512),
        decreases probe_limit + 65536 - lba * 512,
    {
        let ghost fv = parts_view(found@);
        let off = lba * 512;
        proof {
            assert(((lba + 128) as int) * 512 == (lba as int) * 512 + 65536) by (nonlinear_arith);
            assert(off % 65536 == 0) by (nonlinear_arith)
                requires off == lba * 512, lba % 128 == 0;
        }
        proof {
            lemma_fine_grid_insert(off);
        }
        let fresh = seen.insert(off);
        if !fresh {
            lba = lba + 128;
            continue;
        }
        let index = (found.len() as u64 + 1) as u32;
        let hit = probe(disk, known, off, disk_size, index, 128);
        proof {
            lemma_lost_from_step(c, kv, disk_size, off as nat, fv.len() as nat);
        }
        match hit {
            Some(p) => {
                found.push(p);
                proof {
                    assert(parts_view(found@) =~= fv.push(p@));
                    assert(parts_view(found@) + lost_from(c, kv, disk_size, (off + 65536) as nat, found@.len() as nat)
                        =~= fv + lost_from(c, kv, disk_size, off as nat, fv.len() as nat));
                }
            },
            None => {},
        }
        lba = lba + 128;
    }
    proof {
        assert(lost_from(c, kv, disk_size, (lba * 512) as nat, found@.len() as nat) == Seq::<crate::domain::PartView>::empty());
        assert(parts_view(found@) =~= spec_lost_partitions(c, kv, disk_size));
    }

    let mut lba2: u64 = 2048;
    while sector_offset(lba2) < probe_limit
        invariant
            lba2 % 2048 == 0,
            2048 <= lba2,
            lba2 * 512 <= probe_limit + 1048576,
            found@.len() < lba,
            probe_limit <= lba * 512,
            probe_limit == spec_probe_limit(disk_size),
            probe_limit < disk_size || probe_limit == 0,
            c == disk.content(),
            kv == parts_view(known@),
            parts_view(found@) == spec_lost_partitions(c, kv, disk_size),
            seen@ == fine_grid_below(lba * 512),
        decreases probe_limit + 1048576 - lba2 * 512,
    {
        let off = lba2 * 512;
        proof {
            assert(((lba2 + 2048) as int) * 512 == (lba2 as int) * 512 + 1048576) by (nonlinear_arith);
            assert(off % 65536 == 0) by (nonlinear_arith)
                requires off == lba2 * 512, lba2 % 2048 == 0;
            lemma_fine_grid_contains(lba * 512, off);
        }
        let fresh = seen.insert(off);
        if !fresh {
            lba2 = lba2 + 2048;
            continue;
        }
        let index = (found.len() as u64 + 1) as u32;
        let hit = probe(disk, known, off, disk_size, index, 2048);
        match hit {
            Some(p) => {
                found.push(p);
            },
            None => {},
        }
        lba2 = lba2 + 2048;
    }
    found
}

} // verus!

verus! {

/// The partition a GPT entry becomes.
pub open spec fn gpt_entry_view(p: crate::gpt::GptPartition, c: Seq<u8>) -> PartView {
    PartView {
        index: p.index,
        name: if p.name@.len() == 0 { p.type_label@ } else { p.name@ },
        start_lba: p.start_lba,
        end_lba: p.end_lba,
        size_bytes: p.size_bytes,
        type_label: p.type_label@,
        filesystem: fs_at(c, p.start_lba * 512),
        status: "primary"@,
        source: "gpt"@,
        confidence: 980,
        conflict_status: "clear"@,
    }
}

pub open spec fn gpt_views(t: crate::gpt::GptTable, c: Seq<u8>) -> Seq<PartView> {
    t.partitions@.map_values(|p: crate::gpt::GptPartition| gpt_entry_view(p, c))
}

/// The partition an MBR entry becomes.
pub open spec fn mbr_entry_view(p: crate::mbr::MbrPartition, c: Seq<u8>) -> PartView {
    PartView {
        index: p.index as u32,
        name: (if p.logical { "Logical "@ } else { "Partition "@ }) + dec(p.index as nat),
        start_lba: p.start_lba,
        end_lba: if p.sector_count == 0 {
            p.start_lba
        } else if p.start_lba + (p.sector_count - 1) > u64::MAX {
            u64::MAX
        } else {
            (p.start_lba + (p.sector_count - 1)) as u64
        },
        size_bytes: (p.sector_count * 512) as u64,
        type_label: p.type_label@,
        filesystem: fs_at(c, p.start_lba * 512),
        status: if p.bootable { "bootable"@ } else { "primary"@ },
        source: if p.logical { "mbr-logical"@ } else { "mbr"@ },
        confidence: if p.logical { 940 } else { 960 },
        conflict_status: "clear"@,
    }
}

pub open spec fn mbr_views(t: crate::mbr::MbrTable, c: Seq<u8>) -> Seq<PartView> {
    t.partitions@.map_values(|p: crate::mbr::MbrPartition| mbr_entry_view(p, c))
}

/// The filesystem probed at sector `lba`.
fn detect_fs_at_lba(disk: &crate::disk::DiskReader, lba: u64) -> (r: Option<crate::fs_detect::FilesystemInfo>)
    ensures
        crate::fs_detect::opt_fs_view(r) == fs_at(disk.content(), lba * 512),
{
    let off = sector_offset(lba);
    if lba > u64::MAX / 512 {
        proof {
            assert(lba * 512 > u64::MAX) by (nonlinear_arith)
                requires lba > u64::MAX / 512;
            assert(disk.content().len() <= usize::MAX) by {
                let _ = disk.data.len();
            }
        }
        let n = disk.content_len();
        return None;
    }
    detect_fs_at(disk, off)
}

fn analyze_gpt_partitions(disk: &crate::disk::DiskReader, gpt: &crate::gpt::GptTable) -> (r: Vec<PartitionResult>)
    ensures
        parts_view(r@) == gpt_views(*gpt, disk.content()),
{
    let mut out: Vec<PartitionResult> = Vec::new();
    let mut i: usize = 0;
    while i < gpt.partitions.len()
        invariant
            i <= gpt.partitions@.len(),
            parts_view(out@) == gpt_views(*gpt, disk.content()).take(i as int),
        decreases gpt.partitions.len() - i,
    {
        let p = &gpt.partitions[i];
        let name = if crate::text::chars_of(p.name.as_str()).len() == 0 {
            proof {
                assert(p.name@.len() == 0);
            }
            p.type_label.clone()
        } else {
            proof {
                assert(p.name@.len() != 0);
            }
            p.name.clone()
        };
        let r = PartitionResult {
            index: p.index,
            name,
            start_lba: p.start_lba,
            end_lba: p.end_lba,
            size_bytes: p.size_bytes,
            type_label: p.type_label.clone(),
            filesystem: detect_fs_at_lba(disk, p.start_lba),
            status: owned("primary"),
            source: owned("gpt"),
            confidence: 980,
            conflict_status: owned("clear"),
        };
        let ghost before = parts_view(out@);
        out.push(r);
        proof {
            assert(parts_view(out@) =~= before.push(r@));
            assert(gpt_views(*gpt, disk.content()).take(i + 1) =~= gpt_views(*gpt, disk.content()).take(i as int).push(gpt_entry_view(gpt.partitions@[i as int], disk.content())));
        }
        i = i + 1;
    }
    proof {
        assert(gpt_views(*gpt, disk.content()).take(gpt.partitions@.len() as int) =~= gpt_views(*gpt, disk.content()));
    }
    out
}

fn analyze_mbr_partitions(disk: &crate::disk::DiskReader, mbr: &crate::mbr::MbrTable) -> (r: Vec<PartitionResult>)
    requires
        forall|k: int| 0 <= k < mbr.partitions@.len() ==> (#[trigger] mbr.partitions@[k]).sector_count <= u32::MAX,
    ensures
        parts_view(r@) == mbr_views(*mbr, disk.content()),
{
    let mut out: Vec<PartitionResult> = Vec::new();
    let mut i: usize = 0;
    while i < mbr.partitions.len()
        invariant
            i <= mbr.partitions@.len(),
            forall|k: int| 0 <= k < mbr.partitions@.len() ==> (#[trigger] mbr.partitions@[k]).sector_count <= u32::MAX,
            parts_view(out@) == mbr_views(*mbr, disk.content()).take(i as int),
        decreases mbr.partitions.len() - i,
    {
        let p = &mbr.partitions[i];
        let mut name: Vec<char> = Vec::new();
        if p.logical {
            push_str(&mut name, "Logical ");
        } else {
            push_str(&mut name, "Partition ");
        }
        push_dec(&mut name, p.index as u64);
        let r = PartitionResult {
            index: p.index as u32,
            name: string_of(&name),
            start_lba: p.start_lba,
            end_lba: p.start_lba.saturating_add(p.sector_count.saturating_sub(1)),
            size_bytes: p.sector_count * 512,
            type_label: p.type_label.clone(),
            filesystem: detect_fs_at_lba(disk, p.start_lba),
            status: if p.bootable { owned("bootable") } else { owned("primary") },
            source: if p.logical { owned("mbr-logical") } else { owned("mbr") },
            confidence: if p.logical { 940 } else { 960 },
            conflict_status: owned("clear"),
        };
        let ghost before = parts_view(out@);
        out.push(r);
        proof {
            assert(parts_view(out@) =~= before.push(r@));
            assert(mbr_views(*mbr, disk.content()).take(i + 1) =~= mbr_views(*mbr, disk.content()).take(i as int).push(mbr_entry_view(mbr.partitions@[i as int], disk.content())));
        }
        i = i + 1;
    }
    proof {
        assert(mbr_views(*mbr, disk.content()).take(mbr.partitions@.len() as int) =~= mbr_views(*mbr, disk.content()));
    }
    out
}

/// A valid GPT beside MBR entries other than the protective one.
pub open spec fn spec_is_hybrid_mbr(mbr: crate::mbr::MbrTable, gpt: crate::gpt::GptTable) -> bool {
    gpt.signature_valid && exists|k: int| 0 <= k < mbr.partitions@.len()
        && (#[trigger] mbr.partitions@[k]).partition_type != 0 && mbr.partitions@[k].partition_type != 0xee
}

pub fn is_hybrid_mbr(mbr: &crate::mbr::MbrTable, gpt: &crate::gpt::GptTable) -> (r: bool)
    ensures
        r == spec_is_hybrid_mbr(*mbr, *gpt),
{
    if !gpt.signature_valid {
        return false;
    }
    let mut count: usize = 0;
    let mut i: usize = 0;
    while i < mbr.partitions.len()
        invariant
            i <= mbr.partitions@.len(),
            count <= i,
            (count > 0) == (exists|k: int| 0 <= k < i && (#[trigger] mbr.partitions@[k]).partition_type != 0 && mbr.partitions@[k].partition_type != 0xee),
        decreases mbr.partitions.len() - i,
    {
        let t = mbr.partitions[i].partition_type;
        if t != 0 && t != 0xee {
            count = count + 1;
        }
        i = i + 1;
    }
    count > 0
}

} // verus!

verus! {

pub open spec fn table_warnings(gpt: Option<crate::gpt::GptTable>, mbr: Option<crate::mbr::MbrTable>) -> Seq<Seq<char>> {
    match gpt {
        Some(g) => (if !g.crc_valid { seq!["GPT 头 CRC 校验失败，分区表可能已损坏"@] } else { seq![] })
            + (if g.header_lba != 1 { seq!["检测到 GPT 备份头，主头不可用"@] } else { seq![] }),
        None => match mbr {
            Some(m) => (if !m.signature_valid { seq!["MBR 签名无效 (0x55AA)"@] } else { seq![] })
                + (if crate::mbr::spec_is_gpt_protective_mbr(m) { seq!["检测到 GPT 保护性 MBR，但 GPT 头未找到"@] } else { seq![] }),
            None => seq!["未检测到有效的分区表"@],
        },
    }
}

pub open spec fn hybrid_warnings(gpt: Option<crate::gpt::GptTable>, mbr: Option<crate::mbr::MbrTable>) -> Seq<Seq<char>> {
    match (gpt, mbr) {
        (Some(g), Some(m)) => if spec_is_hybrid_mbr(m, g) {
            seq!["检测到混合 MBR：保护性 GPT 之外还有额外 MBR 分区"@]
        } else {
            seq![]
        },
        _ => seq![],
    }
}

/// The table's own partitions, before conflict annotation.
pub open spec fn base_partitions(gpt: Option<crate::gpt::GptTable>, mbr: Option<crate::mbr::MbrTable>, c: Seq<u8>) -> Seq<PartView> {
    match gpt {
        Some(g) => gpt_views(g, c),
        None => match mbr {
            Some(m) => mbr_views(m, c),
            None => seq![],
        },
    }
}

pub open spec fn spec_table_type(gpt: Option<crate::gpt::GptTable>, mbr: Option<crate::mbr::MbrTable>) -> crate::domain::PartitionTableType {
    if gpt is Some {
        crate::domain::PartitionTableType::Gpt
    } else if mbr is Some {
        crate::domain::PartitionTableType::Mbr
    } else {
        crate::domain::PartitionTableType::Unknown
    }
}

/// `s` is the scan of `disk`: the GPT found by `detect_gpt` (preferred) or the
/// MBR of sector 0, their partitions with conflicts marked, the deep-scan
/// candidates outside them with conflicts marked, and the warnings of each
/// step in order.
pub open spec fn scan_result_ok(disk: crate::disk::DiskReader, s: crate::domain::ScanResult) -> bool {
    let c = disk.content();
    let max_lba = (disk.size / 512) as nat;
    let base = base_partitions(s.gpt, s.mbr, c);
    let known = annotate_views(base, max_lba);
    let lost = spec_lost_partitions(c, known, disk.size);
    &&& s.disk_path@ == disk.path@
    &&& s.disk_size == disk.size
    &&& crate::gpt::detect_gpt_ok(disk, Ok(s.gpt))
    &&& (s.mbr is Some <==> 512 <= c.len())
    &&& (s.mbr matches Some(t) ==> crate::mbr::mbr_parsed(t, c.subrange(0, 512)))
    &&& s.partition_table_type == spec_table_type(s.gpt, s.mbr)
    &&& parts_view(s.partitions@) == known
    &&& parts_view(s.lost_partitions@) == annotate_views(lost, max_lba)
    &&& strings_view(s.warnings@) == table_warnings(s.gpt, s.mbr) + hybrid_warnings(s.gpt, s.mbr)
        + conflict_warnings(base, max_lba, base.len() as int) + conflict_warnings(lost, max_lba, lost.len() as int)
}

proof fn lemma_mbr_counts_fit(t: crate::mbr::MbrTable, s: Seq<u8>)
    requires
        crate::mbr::mbr_parsed(t, s),
        s.len() == 512,
    ensures
        forall|k: int| 0 <= k < t.partitions@.len() ==> (#[trigger] t.partitions@[k]).sector_count <= u32::MAX,
{
    assert forall|k: int| 0 <= k < t.partitions@.len() implies (#[trigger] t.partitions@[k]).sector_count <= u32::MAX by {
        let slots = crate::mbr::mbr_slots(s, 4);
        assert(crate::mbr::mbr_entry_matches(t.partitions@[k], s, slots[k]));
    }
}

fn push_warning(warnings: &mut Vec<String>, text: &str)
    ensures
        strings_view(final(warnings)@) == strings_view(old(warnings)@).push(text@),
{
    warnings.push(owned(text));
    proof {
        assert(strings_view(warnings@) =~= strings_view(old(warnings)@).push(text@));
    }
}

/// Analyses a disk: reads the partition table, marks conflicts and searches
/// for lost partitions. Fails only when GPT detection cannot read a header
/// or entry array it needs.
pub fn scan_disk(disk: &crate::disk::DiskReader) -> (r: Result<crate::domain::ScanResult, crate::disk::DiskError>)
    requires
        crate::gpt::gpt_parsable(*disk),
    ensures
        r is Ok <==> crate::gpt::gpt_detectable(*disk),
        r matches Ok(s) ==> scan_result_ok(*disk, s),
        r matches Err(e) ==> e is Io && e->Io_0@ == crate::disk::short_read(),
{
    let disk_size = disk.size;
    let mut warnings: Vec<String> = Vec::new();
    let ghost c = disk.content();

    let mbr = match crate::mbr::read_mbr(disk) {
        Ok(t) => Some(t),
        Err(_) => None,
    };
    let gpt = crate::gpt::detect_gpt(disk)?;

    let table_type;
    let mut partitions;
    if let Some(ref gpt_table) = gpt {
        if !gpt_table.crc_valid {
            push_warning(&mut warnings, "GPT 头 CRC 校验失败，分区表可能已损坏");
        }
        if gpt_table.header_lba != 1 {
            push_warning(&mut warnings, "检测到 GPT 备份头，主头不可用");
        }
        table_type = crate::domain::PartitionTableType::Gpt;
        partitions = analyze_gpt_partitions(disk, gpt_table);
    } else if let Some(ref mbr_table) = mbr {
        if !mbr_table.signature_valid {
            push_warning(&mut warnings, "MBR 签名无效 (0x55AA)");
        }
        if crate::mbr::is_gpt_protective_mbr(mbr_table) {
            push_warning(&mut warnings, "检测到 GPT 保护性 MBR，但 GPT 头未找到");
        }
        table_type = crate::domain::PartitionTableType::Mbr;
        proof {
            lemma_mbr_counts_fit(*mbr_table, c.subrange(0, 512));
        }
        partitions = analyze_mbr_partitions(disk, mbr_table);
    } else {
        push_warning(&mut warnings, "未检测到有效的分区表");
        table_type = crate::domain::PartitionTableType::Unknown;
        partitions = Vec::new();
    }
    proof {
        assert(strings_view(warnings@) =~= table_warnings(gpt, mbr));
        assert(parts_view(partitions@) =~= base_partitions(gpt, mbr, c));
    }

    if let (Some(gpt_table), Some(mbr_table)) = (&gpt, &mbr) {
        if is_hybrid_mbr(mbr_table, gpt_table) {
            push_warning(&mut warnings, "检测到混合 MBR：保护性 GPT 之外还有额外 MBR 分区");
        }
    }
    proof {
        assert(strings_view(warnings@) =~= table_warnings(gpt, mbr) + hybrid_warnings(gpt, mbr));
    }

    annotate_partition_conflicts(&mut partitions, disk_size, &mut warnings);
    let mut lost_partitions = search_lost_partitions(disk, &partitions, disk_size);
    annotate_partition_conflicts(&mut lost_partitions, disk_size, &mut warnings);
    proof {
        let base = base_partitions(gpt, mbr, c);
        let lost = spec_lost_partitions(c, annotate_views(base, (disk_size / 512) as nat), disk_size);
        assert(strings_view(warnings@) =~= table_warnings(gpt, mbr) + hybrid_warnings(gpt, mbr)
            + conflict_warnings(base, (disk_size / 512) as nat, base.len() as int) + conflict_warnings(lost, (disk_size / 512) as nat, lost.len() as int));
    }

    Ok(crate::domain::ScanResult {
        disk_path: disk.path.clone(),
        disk_size,
        partition_table_type: table_type,
        mbr,
        gpt,
        partitions,
        lost_partitions,
        warnings,
    })
}

/// What a deep-scan candidate says of itself.
pub open spec fn fresh_candidate(p: PartView, known: Seq<PartView>, off: nat, number: int) -> bool {
    &&& p.start_lba % 128 == 0
    &&& p.start_lba * 512 >= off
    &&& !covered_by(known, (p.start_lba * 512) as nat)
    &&& p.filesystem is Some
    &&& p.source == "deep_scan"@
    &&& p.status == "deleted"@
    &&& p.index == number as u32
}

proof fn lemma_lost_part_facts(
    window: Seq<u8>,
    off: nat,
    fs: crate::fs_detect::FsInfoView,
    disk_size: u64,
    index: nat,
    known: Seq<PartView>,
)
    requires
        off % 65536 == 0,
        off < u64::MAX,
        !covered_by(known, off),
    ensures
        fresh_candidate(lost_part(window, off, fs, disk_size, index, 128), known, off, index as int),
{
    let p = lost_part(window, off, fs, disk_size, index, 128);
    assert(p.start_lba == off / 512);
    assert(p.start_lba * 512 == off);
}

proof fn lemma_lost_from_fresh(c: Seq<u8>, known: Seq<PartView>, disk_size: u64, off: nat, found: nat)
    requires
        off % 65536 == 0,
    ensures
        forall|i: int| 0 <= i < lost_from(c, known, disk_size, off, found).len() ==> fresh_candidate(
            #[trigger] lost_from(c, known, disk_size, off, found)[i],
            known,
            off,
            found + i + 1,
        ),
    decreases spec_probe_limit(disk_size) + 65536 - off,
{
    let lost = lost_from(c, known, disk_size, off, found);
    if off < spec_probe_limit(disk_size) {
        let next = off + 65536;
        if !covered_by(known, off) && fs_at(c, off as int) is Some {
            lemma_lost_from_fresh(c, known, disk_size, next, found + 1);
            let rest = lost_from(c, known, disk_size, next, found + 1);
            let first = lost_part(c.subrange(off as int, (off + 8192) as int), off, fs_at(c, off as int)->0, disk_size, found + 1, 128);
            lemma_lost_part_facts(c.subrange(off as int, (off + 8192) as int), off, fs_at(c, off as int)->0, disk_size, found + 1, known);
            assert(lost == seq![first] + rest);
            assert forall|i: int| 0 <= i < lost.len() implies fresh_candidate(#[trigger] lost[i], known, off, found + i + 1) by {
                if i > 0 {
                    assert(lost[i] == rest[i - 1]);
                    assert(fresh_candidate(rest[i - 1], known, next, found + 1 + (i - 1) + 1));
                }
            }
        } else {
            lemma_lost_from_fresh(c, known, disk_size, next, found);
            assert forall|i: int| 0 <= i < lost.len() implies fresh_candidate(#[trigger] lost[i], known, off, found + i + 1) by {
                assert(fresh_candidate(lost_from(c, known, disk_size, next, found)[i], known, next, found + i + 1));
            }
        }
    }
}

/// Every partition a deep scan reports as lost starts on a 128-sector
/// (64 KiB) boundary at or past the first, outside every partition the
/// table already describes; it carries the filesystem found there, is
/// marked as deleted and found by the deep scan, and they are numbered
/// from 1 in disk order.
pub proof fn lemma_lost_partitions_are_fresh(c: Seq<u8>, known: Seq<PartView>, disk_size: u64)
    ensures
        forall|i: int| 0 <= i < spec_lost_partitions(c, known, disk_size).len() ==> fresh_candidate(
            #[trigger] spec_lost_partitions(c, known, disk_size)[i],
            known,
            65536,
            i + 1,
        ),
{
    lemma_lost_from_fresh(c, known, disk_size, 65536, 0);
}

} // verus!
