//! Guarded sector write-back to disk images, with a backup that undoes it.
//!
//! The image is held in memory as bytes: reading and writing the file, and
//! storing the backup manifest, is left to the caller.
use vstd::prelude::*;
use crate::bytes::{crc32, crc32_of};
use crate::disk::DiskError;
use crate::domain::{AccessCapability, DiskInfo, DiskKind, DiskSource, PartitionTableType, TargetSafety};
use crate::text::{dec, hex8, hex_pad, owned, push_dec, push_str, string_of, trim_seq, trim_str, utf8_len};

verus! {

pub const WRITEBACK_SCHEMA_VERSION: u32 = 1;

#[derive(Debug)]
pub enum WritebackError {
    UnsafeTarget(String),
    InvalidPlan(String),
    PatchMismatch(u64),
    BackupMissing(String),
    Disk(DiskError),
    Io(String),
    Json(String),
}

pub enum WritebackErrorView {
    UnsafeTarget(Seq<char>),
    InvalidPlan(Seq<char>),
    PatchMismatch(u64),
    BackupMissing(Seq<char>),
    Disk(DiskError),
    Io(Seq<char>),
    Json(Seq<char>),
}

impl View for WritebackError {
    type V = WritebackErrorView;

    open spec fn view(&self) -> WritebackErrorView {
        match self {
            WritebackError::UnsafeTarget(s) => WritebackErrorView::UnsafeTarget(s@),
            WritebackError::InvalidPlan(s) => WritebackErrorView::InvalidPlan(s@),
            WritebackError::PatchMismatch(l) => WritebackErrorView::PatchMismatch(*l),
            WritebackError::BackupMissing(s) => WritebackErrorView::BackupMissing(s@),
            WritebackError::Disk(e) => WritebackErrorView::Disk(*e),
            WritebackError::Io(s) => WritebackErrorView::Io(s@),
            WritebackError::Json(s) => WritebackErrorView::Json(s@),
        }
    }
}

#[derive(Debug, Clone)]
pub struct WritebackSectorPatch {
    pub lba: u64,
    pub before_hex: String,
    pub after_hex: String,
}

pub struct PatchView {
    pub lba: u64,
    pub before_hex: Seq<char>,
    pub after_hex: Seq<char>,
}

impl View for WritebackSectorPatch {
    type V = PatchView;

    open spec fn view(&self) -> PatchView {
        PatchView { lba: self.lba, before_hex: self.before_hex@, after_hex: self.after_hex@ }
    }
}

pub open spec fn patches_view(v: Seq<WritebackSectorPatch>) -> Seq<PatchView> {
    v.map_values(|p: WritebackSectorPatch| p@)
}

#[derive(Debug, Clone)]
pub struct WritebackPlan {
    pub schema_version: u32,
    pub target_path: String,
    pub target_platform_id: String,
    pub target_signature: String,
    pub backup_path: String,
    pub partition_table_type: PartitionTableType,
    pub sector_size_bytes: u64,
    pub patches: Vec<WritebackSectorPatch>,
    pub guard_notes: Vec<String>,
}

pub struct PlanView {
    pub schema_version: u32,
    pub target_path: Seq<char>,
    pub target_platform_id: Seq<char>,
    pub target_signature: Seq<char>,
    pub backup_path: Seq<char>,
    pub partition_table_type: PartitionTableType,
    pub sector_size_bytes: u64,
    pub patches: Seq<PatchView>,
    pub guard_notes: Seq<Seq<char>>,
}

impl View for WritebackPlan {
    type V = PlanView;

    open spec fn view(&self) -> PlanView {
        PlanView {
            schema_version: self.schema_version,
            target_path: self.target_path@,
            target_platform_id: self.target_platform_id@,
            target_signature: self.target_signature@,
            backup_path: self.backup_path@,
            partition_table_type: self.partition_table_type,
            sector_size_bytes: self.sector_size_bytes,
            patches: patches_view(self.patches@),
            guard_notes: crate::domain::strings_view(self.guard_notes@),
        }
    }
}

#[derive(Debug, Clone)]
pub struct WritebackStepRecord {
    pub lba: u64,
    pub bytes_written: u64,
    pub checksum_before: String,
    pub checksum_after: String,
}

pub struct StepView {
    pub lba: u64,
    pub bytes_written: u64,
    pub checksum_before: Seq<char>,
    pub checksum_after: Seq<char>,
}

impl View for WritebackStepRecord {
    type V = StepView;

    open spec fn view(&self) -> StepView {
        StepView {
            lba: self.lba,
            bytes_written: self.bytes_written,
            checksum_before: self.checksum_before@,
            checksum_after: self.checksum_after@,
        }
    }
}

pub open spec fn steps_view(v: Seq<WritebackStepRecord>) -> Seq<StepView> {
    v.map_values(|s: WritebackStepRecord| s@)
}

#[derive(Debug, Clone)]
pub struct WritebackTranscript {
    pub schema_version: u32,
    pub target_path: String,
    pub backup_path: String,
    pub bytes_written: u64,
    pub checksum: String,
    pub steps: Vec<WritebackStepRecord>,
    pub status: String,
}

#[derive(Debug, Clone)]
pub struct RestoreTranscript {
    pub schema_version: u32,
    pub target_path: String,
    pub backup_path: String,
    pub restored_sectors: Vec<u64>,
    pub checksum: String,
    pub status: String,
}

/// The original bytes of one patched sector, as kept in the backup.
#[derive(Debug, Clone)]
pub struct BackupSector {
    pub lba: u64,
    pub bytes_hex: String,
}

pub struct SectorView {
    pub lba: u64,
    pub bytes_hex: Seq<char>,
}

impl View for BackupSector {
    type V = SectorView;

    open spec fn view(&self) -> SectorView {
        SectorView { lba: self.lba, bytes_hex: self.bytes_hex@ }
    }
}

pub open spec fn sectors_view(v: Seq<BackupSector>) -> Seq<SectorView> {
    v.map_values(|s: BackupSector| s@)
}

/// What a write-back stores before it touches the target.
#[derive(Debug, Clone)]
pub struct BackupManifest {
    pub schema_version: u32,
    pub target_signature: String,
    pub sector_size_bytes: u64,
    pub sectors: Vec<BackupSector>,
}

// ---------------------------------------------------------------------------
// Hex payloads

pub open spec fn hex_val(c: char) -> Option<u8> {
    if '0' <= c <= '9' {
        Some((c as u32 - '0' as u32) as u8)
    } else if 'a' <= c <= 'f' {
        Some((c as u32 - 'a' as u32 + 10) as u8)
    } else if 'A' <= c <= 'F' {
        Some((c as u32 - 'A' as u32 + 10) as u8)
    } else {
        None
    }
}

pub open spec fn all_hex(s: Seq<char>) -> bool {
    forall|i: int| 0 <= i < s.len() ==> (#[trigger] hex_val(s[i])) is Some
}

pub open spec fn hex_pair(hi: char, lo: char) -> u8 {
    (hex_val(hi)->0 * 16 + hex_val(lo)->0) as u8
}

pub open spec fn hex_bytes(s: Seq<char>) -> Seq<u8> {
    Seq::new(s.len() / 2, |i: int| hex_pair(s[2 * i], s[2 * i + 1]))
}

pub open spec fn odd_hex_message() -> Seq<char> {
    "hex payload must have an even number of characters"@
}

pub open spec fn bad_digit_message() -> Seq<char> {
    "invalid hex digit in payload"@
}

/// Decoding of a hex payload: surrounding whitespace is ignored, the rest
/// must take an even number of UTF-8 bytes and be hex digits of either case.
pub open spec fn spec_hex_decode(hex: Seq<char>) -> Result<Seq<u8>, Seq<char>> {
    let t = trim_seq(hex);
    if utf8_len(t) % 2 != 0 {
        Err(odd_hex_message())
    } else if !all_hex(t) {
        Err(bad_digit_message())
    } else {
        Ok(hex_bytes(t))
    }
}

/// The bytes of a payload that decodes (empty otherwise).
pub open spec fn decoded(hex: Seq<char>) -> Seq<u8> {
    match spec_hex_decode(hex) {
        Ok(b) => b,
        Err(_) => seq![],
    }
}

proof fn lemma_utf8_len_ascii(s: Seq<char>)
    requires
        all_hex(s),
    ensures
        utf8_len(s) == s.len(),
    decreases s.len(),
{
    if s.len() > 0 {
        assert(hex_val(s[s.len() - 1]) is Some);
        assert(all_hex(s.drop_last())) by {
            assert forall|i: int| 0 <= i < s.drop_last().len() implies (#[trigger] hex_val(s.drop_last()[i])) is Some by {
                assert(hex_val(s[i]) is Some);
            }
        }
        lemma_utf8_len_ascii(s.drop_last());
    }
}

fn hex_digit_value(c: char) -> (r: Option<u8>)
    ensures
        r == hex_val(c),
{
    if '0' <= c && c <= '9' {
        Some((c as u32 - '0' as u32) as u8)
    } else if 'a' <= c && c <= 'f' {
        Some((c as u32 - 'a' as u32 + 10) as u8)
    } else if 'A' <= c && c <= 'F' {
        Some((c as u32 - 'A' as u32 + 10) as u8)
    } else {
        None
    }
}

fn invalid_plan(msg: &str) -> (e: WritebackError)
    ensures
        e@ == WritebackErrorView::InvalidPlan(msg@),
{
    WritebackError::InvalidPlan(owned(msg))
}

/// Decodes a hex payload into bytes.
pub fn hex_decode(hex: &str) -> (r: Result<Vec<u8>, WritebackError>)
    ensures
        match r {
            Ok(b) => spec_hex_decode(hex@) == Ok::<Seq<u8>, Seq<char>>(b@),
            Err(e) => spec_hex_decode(hex@) matches Err(m) && e@ == WritebackErrorView::InvalidPlan(m),
        },
{
    let t = trim_str(hex);
    let mut odd = false;
    let mut i: usize = 0;
    while i < t.len()
        invariant
            i <= t.len(),
            odd == (utf8_len(t@.take(i as int)) % 2 == 1),
        decreases t.len() - i,
    {
        let c = t[i];
        let w_odd = (c as u32) < 0x80 || (0x800 <= (c as u32) && (c as u32) < 0x10000);
        proof {
            assert(t@.take(i + 1 as int).drop_last() =~= t@.take(i as int));
        }
        if w_odd {
            odd = !odd;
        }
        i = i + 1;
    }
    proof {
        assert(t@.take(t.len() as int) =~= t@);
    }
    if odd {
        return Err(invalid_plan("hex payload must have an even number of characters"));
    }
    let mut bytes: Vec<u8> = Vec::new();
    let mut i: usize = 0;
    while i < t.len()
        invariant
            i <= t.len(),
            i % 2 == 0,
            utf8_len(t@) % 2 == 0,
            t@ == trim_seq(hex@),
            forall|k: int| 0 <= k < i ==> (#[trigger] hex_val(t@[k])) is Some,
            bytes@.len() == i / 2,
            forall|k: int| 0 <= k < i / 2 ==> bytes@[k] == #[trigger] hex_pair(t@[2 * k], t@[2 * k + 1]),
        decreases t.len() - i,
    {
        let hi = match hex_digit_value(t[i]) {
            Some(v) => v,
            None => {
                proof {
                    assert(hex_val(t@[i as int]) is None);
                }
                return Err(invalid_plan("invalid hex digit in payload"));
            },
        };
        if i + 1 >= t.len() {
            proof {
                assert(all_hex(t@)) by {
                    assert forall|k: int| 0 <= k < t@.len() implies (#[trigger] hex_val(t@[k])) is Some by {
                        if k < i {
                        } else {
                            assert(k == i);
                        }
                    }
                }
                lemma_utf8_len_ascii(t@);
            }
            return Err(invalid_plan("invalid hex digit in payload"));
        }
        let lo = match hex_digit_value(t[i + 1]) {
            Some(v) => v,
            None => {
                proof {
                    assert(hex_val(t@[i + 1 as int]) is None);
                }
                return Err(invalid_plan("invalid hex digit in payload"));
            },
        };
        bytes.push(hi * 16 + lo);
        proof {
            let ghost h = (i / 2) as int;
            assert(bytes@[h] == hex_pair(t@[2 * h], t@[2 * h + 1]));
        }
        i = i + 2;
    }
    proof {
        assert(all_hex(t@));
        assert(bytes@ =~= hex_bytes(t@));
    }
    Ok(bytes)
}

/// `format!("{:08x}", crc32(bytes))`.
pub fn checksum_hex(bytes: &[u8]) -> (s: String)
    ensures
        s@ == hex_pad(crc32_of(bytes@) as nat, 8, false),
{
    hex8(crc32(bytes))
}

// ---------------------------------------------------------------------------
// Building a plan

/// Only a read-write image file may be written back to.
pub open spec fn target_writable(t: DiskInfo) -> bool {
    &&& t.kind == DiskKind::Image
    &&& t.source == DiskSource::ImageFile
    &&& t.safety == TargetSafety::Image
    &&& t.access == AccessCapability::ReadWrite
    &&& t.readable
    &&& t.writable
}

pub fn validate_target(target: &DiskInfo) -> (r: Result<(), WritebackError>)
    ensures
        r is Ok <==> target_writable(*target),
        r matches Err(e) ==> e@ == WritebackErrorView::UnsafeTarget(target.path@),
{
    if target.kind != DiskKind::Image || target.source != DiskSource::ImageFile {
        return Err(WritebackError::UnsafeTarget(target.path.clone()));
    }
    if target.safety != TargetSafety::Image {
        return Err(WritebackError::UnsafeTarget(target.path.clone()));
    }
    if target.access != AccessCapability::ReadWrite || !target.readable || !target.writable {
        return Err(WritebackError::UnsafeTarget(target.path.clone()));
    }
    Ok(())
}

/// `path:size:platform_id`, which ties a plan and its backup to one target.
pub open spec fn spec_target_signature(t: DiskInfo) -> Seq<char> {
    t.path@ + seq![':'] + dec(t.size_bytes as nat) + seq![':'] + t.platform_id@
}

pub fn target_signature(target: &DiskInfo) -> (s: String)
    ensures
        s@ == spec_target_signature(*target),
{
    let mut v: Vec<char> = Vec::new();
    push_str(&mut v, target.path.as_str());
    v.push(':');
    push_dec(&mut v, target.size_bytes);
    v.push(':');
    push_str(&mut v, target.platform_id.as_str());
    string_of(&v)
}

/// The `Debug` name of a safety class.
pub open spec fn safety_name(s: TargetSafety) -> Seq<char> {
    match s {
        TargetSafety::Internal => "Internal"@,
        TargetSafety::External => "External"@,
        TargetSafety::Removable => "Removable"@,
        TargetSafety::Image => "Image"@,
        TargetSafety::Unknown => "Unknown"@,
    }
}

/// The `Debug` name of an access capability.
pub open spec fn access_name(a: AccessCapability) -> Seq<char> {
    match a {
        AccessCapability::ReadWrite => "ReadWrite"@,
        AccessCapability::ReadOnly => "ReadOnly"@,
        AccessCapability::RequiresElevation => "RequiresElevation"@,
        AccessCapability::Unavailable => "Unavailable"@,
    }
}

fn safety_label(s: TargetSafety) -> (r: &'static str)
    ensures
        r@ == safety_name(s),
{
    match s {
        TargetSafety::Internal => "Internal",
        TargetSafety::External => "External",
        TargetSafety::Removable => "Removable",
        TargetSafety::Image => "Image",
        TargetSafety::Unknown => "Unknown",
    }
}

fn access_label(a: AccessCapability) -> (r: &'static str)
    ensures
        r@ == access_name(a),
{
    match a {
        AccessCapability::ReadWrite => "ReadWrite",
        AccessCapability::ReadOnly => "ReadOnly",
        AccessCapability::RequiresElevation => "RequiresElevation",
        AccessCapability::Unavailable => "Unavailable",
    }
}

/// Inserts `x` after every patch whose LBA is not above its own.
pub open spec fn patch_insert(s: Seq<PatchView>, x: PatchView) -> Seq<PatchView>
    decreases s.len(),
{
    if s.len() == 0 {
        seq![x]
    } else if s.last().lba <= x.lba {
        s.push(x)
    } else {
        patch_insert(s.drop_last(), x).push(s.last())
    }
}

/// The stable sort of patches by LBA.
pub open spec fn patch_sort(s: Seq<PatchView>) -> Seq<PatchView>
    decreases s.len(),
{
    if s.len() == 0 {
        seq![]
    } else {
        patch_insert(patch_sort(s.drop_last()), s.last())
    }
}

proof fn lemma_patch_insert_at(s: Seq<PatchView>, x: PatchView, p: int)
    requires
        0 <= p <= s.len(),
        p == 0 || s[p - 1].lba <= x.lba,
        forall|k: int| p <= k < s.len() ==> (#[trigger] s[k]).lba > x.lba,
    ensures
        patch_insert(s, x) == s.take(p) + seq![x] + s.skip(p),
    decreases s.len(),
{
    if s.len() == 0 {
        assert(s.take(p) + seq![x] + s.skip(p) =~= seq![x]);
    } else if p == s.len() {
        assert(s.take(p) + seq![x] + s.skip(p) =~= s.push(x));
    } else {
        let t = s.drop_last();
        assert(s[s.len() - 1].lba > x.lba);
        lemma_patch_insert_at(t, x, p);
        assert(s.take(p) + seq![x] + s.skip(p) =~= (t.take(p) + seq![x] + t.skip(p)).push(s.last()));
    }
}

fn sort_patches(v: Vec<WritebackSectorPatch>) -> (r: Vec<WritebackSectorPatch>)
    ensures
        patches_view(r@) == patch_sort(patches_view(v@)),
{
    let ghost orig = patches_view(v@);
    let mut rest = v;
    let mut out: Vec<WritebackSectorPatch> = Vec::new();
    proof {
        assert(orig.take(0) =~= Seq::<PatchView>::empty());
        assert(orig.skip(0) =~= orig);
    }
    while rest.len() > 0
        invariant
            rest@.len() <= orig.len(),
            patches_view(rest@) == orig.skip(orig.len() - rest@.len()),
            patches_view(out@) == patch_sort(orig.take(orig.len() - rest@.len())),
        decreases rest.len(),
    {
        let ghost n = orig.len() - rest@.len();
        let ghost sorted = patches_view(out@);
        let ghost before = rest@;
        let x = rest.remove(0);
        proof {
            assert(patches_view(before)[0] == orig.skip(n)[0]);
            assert(x@ == orig[n]);
            assert(rest@ =~= before.skip(1));
            assert forall|k: int| 0 <= k < rest@.len() implies patches_view(rest@)[k] == orig.skip(n + 1)[k] by {
                assert(patches_view(before)[k + 1] == orig.skip(n)[k + 1]);
            }
            assert(patches_view(rest@) =~= orig.skip(n + 1));
            assert(orig.take(n + 1).drop_last() =~= orig.take(n));
        }
        let mut p = out.len();
        while p > 0 && out[p - 1].lba > x.lba
            invariant
                p <= out@.len(),
                patches_view(out@) == sorted,
                forall|k: int| p <= k < sorted.len() ==> (#[trigger] sorted[k]).lba > x@.lba,
            decreases p,
        {
            proof {
                assert(sorted[p - 1] == out@[p - 1]@);
            }
            p = p - 1;
        }
        proof {
            if p > 0 {
                assert(sorted[p - 1] == out@[p - 1]@);
            }
            lemma_patch_insert_at(sorted, x@, p as int);
        }
        out.insert(p, x);
        proof {
            assert(patches_view(out@) =~= sorted.take(p as int) + seq![x@] + sorted.skip(p as int));
        }
    }
    proof {
        assert(orig.take(orig.len() as int) =~= orig);
    }
    out
}

/// The first problem with a patch, for a plan whose sectors are `size` bytes.
pub open spec fn patch_error(p: PatchView, size: nat) -> Option<WritebackErrorView> {
    match spec_hex_decode(p.before_hex) {
        Err(m) => Some(WritebackErrorView::InvalidPlan(m)),
        Ok(before) => match spec_hex_decode(p.after_hex) {
            Err(m) => Some(WritebackErrorView::InvalidPlan(m)),
            Ok(after) => if before.len() != after.len() || before.len() == 0 {
                Some(WritebackErrorView::InvalidPlan(
                    "patch at LBA "@ + dec(p.lba as nat) + " must have equal non-empty before/after bytes"@,
                ))
            } else if before.len() != size {
                Some(WritebackErrorView::InvalidPlan(
                    "patch at LBA "@ + dec(p.lba as nat) + " does not match the expected sector size"@,
                ))
            } else {
                None
            },
        },
    }
}

/// The first problem among `ps`, in order.
pub open spec fn first_patch_error(ps: Seq<PatchView>, size: nat) -> Option<WritebackErrorView>
    decreases ps.len(),
{
    if ps.len() == 0 {
        None
    } else if patch_error(ps[0], size) is Some {
        patch_error(ps[0], size)
    } else {
        first_patch_error(ps.drop_first(), size)
    }
}

fn lba_message(lba: u64, tail: &str) -> (e: WritebackError)
    ensures
        e@ == WritebackErrorView::InvalidPlan("patch at LBA "@ + dec(lba as nat) + tail@),
{
    let mut v: Vec<char> = Vec::new();
    push_str(&mut v, "patch at LBA ");
    push_dec(&mut v, lba);
    push_str(&mut v, tail);
    WritebackError::InvalidPlan(string_of(&v))
}

fn check_patch(p: &WritebackSectorPatch, size: u64) -> (r: Result<(), WritebackError>)
    ensures
        match r {
            Ok(()) => patch_error(p@, size as nat) is None,
            Err(e) => patch_error(p@, size as nat) == Some(e@),
        },
{
    let before = hex_decode(p.before_hex.as_str())?;
    let after = hex_decode(p.after_hex.as_str())?;
    if before.len() != after.len() || before.len() == 0 {
        return Err(lba_message(p.lba, " must have equal non-empty before/after bytes"));
    }
    if before.len() as u64 != size {
        return Err(lba_message(p.lba, " does not match the expected sector size"));
    }
    Ok(())
}

/// What `build_guarded_writeback_plan` gives for a target, table type,
/// backup path and patches.
pub open spec fn spec_build_plan(
    t: DiskInfo,
    table: PartitionTableType,
    backup: Seq<char>,
    patches: Seq<PatchView>,
) -> Result<PlanView, WritebackErrorView> {
    if !target_writable(t) {
        Err(WritebackErrorView::UnsafeTarget(t.path@))
    } else if patches.len() == 0 {
        Err(WritebackErrorView::InvalidPlan("write-back plan must include at least one patch"@))
    } else {
        let sorted = patch_sort(patches);
        match spec_hex_decode(sorted[0].after_hex) {
            Err(m) => Err(WritebackErrorView::InvalidPlan(m)),
            Ok(first) => match first_patch_error(sorted, (first.len() as u64) as nat) {
                Some(e) => Err(e),
                None => if trim_seq(backup).len() == 0 {
                    Err(WritebackErrorView::InvalidPlan("backup path must not be empty"@))
                } else {
                    Ok(PlanView {
                        schema_version: WRITEBACK_SCHEMA_VERSION,
                        target_path: t.path@,
                        target_platform_id: t.platform_id@,
                        target_signature: spec_target_signature(t),
                        backup_path: backup,
                        partition_table_type: table,
                        sector_size_bytes: first.len() as u64,
                        patches: sorted,
                        guard_notes: seq![
                            "target_safety="@ + safety_name(t.safety),
                            "target_access="@ + access_name(t.access),
                        ],
                    })
                },
            },
        }
    }
}

proof fn lemma_patch_sort_len(s: Seq<PatchView>)
    ensures
        patch_sort(s).len() == s.len(),
    decreases s.len(),
{
    if s.len() > 0 {
        lemma_patch_sort_len(s.drop_last());
        lemma_patch_insert_len(patch_sort(s.drop_last()), s.last());
    }
}

proof fn lemma_patch_insert_len(s: Seq<PatchView>, x: PatchView)
    ensures
        patch_insert(s, x).len() == s.len() + 1,
    decreases s.len(),
{
    if s.len() > 0 && s.last().lba > x.lba {
        lemma_patch_insert_len(s.drop_last(), x);
    }
}

/// Checks a write-back request and turns it into a plan: the target must be
/// a read-write image, the patches are ordered by LBA (keeping the given
/// order among equal LBAs), and every patch must replace one whole sector
/// with as many bytes.
pub fn build_guarded_writeback_plan(
    target: &DiskInfo,
    partition_table_type: PartitionTableType,
    backup_path: String,
    patches: Vec<WritebackSectorPatch>,
) -> (r: Result<WritebackPlan, WritebackError>)
    ensures
        match r {
            Ok(plan) => spec_build_plan(*target, partition_table_type, backup_path@, patches_view(patches@))
                == Ok::<PlanView, WritebackErrorView>(plan@),
            Err(e) => spec_build_plan(*target, partition_table_type, backup_path@, patches_view(patches@))
                == Err::<PlanView, WritebackErrorView>(e@),
        },
{
    validate_target(target)?;
    if patches.len() == 0 {
        return Err(invalid_plan("write-back plan must include at least one patch"));
    }
    let ghost pv = patches_view(patches@);
    let normalized = sort_patches(patches);
    proof {
        lemma_patch_sort_len(pv);
    }
    proof {
        assert(patch_sort(pv)[0] == normalized@[0]@);
    }
    let first = hex_decode(normalized[0].after_hex.as_str())?;
    let sector_size_bytes = first.len() as u64;
    proof {
        assert(patches_view(normalized@).skip(0) =~= patches_view(normalized@));
    }
    let mut i: usize = 0;
    while i < normalized.len()
        invariant
            i <= normalized.len(),
            patches_view(normalized@) == patch_sort(pv),
            first_patch_error(patch_sort(pv), sector_size_bytes as nat) == first_patch_error(
                patches_view(normalized@).skip(i as int),
                sector_size_bytes as nat,
            ),
            sector_size_bytes as nat == first@.len(),
            target_writable(*target),
            pv == patches_view(patches@),
            pv.len() > 0,
            spec_hex_decode(patch_sort(pv)[0].after_hex) == Ok::<Seq<u8>, Seq<char>>(first@),
        decreases normalized.len() - i,
    {
        let ghost rest = patches_view(normalized@).skip(i as int);
        proof {
            assert(rest[0] == normalized@[i as int]@);
            assert(rest.drop_first() =~= patches_view(normalized@).skip(i + 1));
        }
        match check_patch(&normalized[i], sector_size_bytes) {
            Ok(()) => {},
            Err(e) => {
                proof {
                    assert(patch_sort(pv)[0] == normalized@[0]@);
                    assert(first_patch_error(rest, sector_size_bytes as nat) == Some(e@));
                }
                return Err(e);
            },
        }
        i = i + 1;
    }
    proof {
        assert(patches_view(normalized@).skip(i as int).len() == 0);
    }
    let trimmed = trim_str(backup_path.as_str());
    if trimmed.len() == 0 {
        return Err(invalid_plan("backup path must not be empty"));
    }
    let mut notes: Vec<String> = Vec::new();
    let mut a: Vec<char> = Vec::new();
    push_str(&mut a, "target_safety=");
    push_str(&mut a, safety_label(target.safety));
    notes.push(string_of(&a));
    let mut b: Vec<char> = Vec::new();
    push_str(&mut b, "target_access=");
    push_str(&mut b, access_label(target.access));
    notes.push(string_of(&b));
    let plan = WritebackPlan {
        schema_version: WRITEBACK_SCHEMA_VERSION,
        target_path: target.path.clone(),
        target_platform_id: target.platform_id.clone(),
        target_signature: target_signature(target),
        backup_path,
        partition_table_type,
        sector_size_bytes,
        patches: normalized,
        guard_notes: notes,
    };
    proof {
        assert(plan@.guard_notes =~= seq![
            "target_safety="@ + safety_name(target.safety),
            "target_access="@ + access_name(target.access),
        ]);
    }
    Ok(plan)
}

// ---------------------------------------------------------------------------
// Applying a plan to an image, and restoring it from the backup

pub struct TranscriptView {
    pub schema_version: u32,
    pub target_path: Seq<char>,
    pub backup_path: Seq<char>,
    pub bytes_written: u64,
    pub checksum: Seq<char>,
    pub steps: Seq<StepView>,
    pub status: Seq<char>,
}

impl View for WritebackTranscript {
    type V = TranscriptView;

    open spec fn view(&self) -> TranscriptView {
        TranscriptView {
            schema_version: self.schema_version,
            target_path: self.target_path@,
            backup_path: self.backup_path@,
            bytes_written: self.bytes_written,
            checksum: self.checksum@,
            steps: steps_view(self.steps@),
            status: self.status@,
        }
    }
}

pub struct RestoreView {
    pub schema_version: u32,
    pub target_path: Seq<char>,
    pub backup_path: Seq<char>,
    pub restored_sectors: Seq<u64>,
    pub checksum: Seq<char>,
    pub status: Seq<char>,
}

impl View for RestoreTranscript {
    type V = RestoreView;

    open spec fn view(&self) -> RestoreView {
        RestoreView {
            schema_version: self.schema_version,
            target_path: self.target_path@,
            backup_path: self.backup_path@,
            restored_sectors: self.restored_sectors@,
            checksum: self.checksum@,
            status: self.status@,
        }
    }
}

pub struct ManifestView {
    pub schema_version: u32,
    pub target_signature: Seq<char>,
    pub sector_size_bytes: u64,
    pub sectors: Seq<SectorView>,
}

impl View for BackupManifest {
    type V = ManifestView;

    open spec fn view(&self) -> ManifestView {
        ManifestView {
            schema_version: self.schema_version,
            target_signature: self.target_signature@,
            sector_size_bytes: self.sector_size_bytes,
            sectors: sectors_view(self.sectors@),
        }
    }
}

/// A completed write-back: its transcript and the backup that undoes it.
#[derive(Debug, Clone)]
pub struct WritebackOutcome {
    pub transcript: WritebackTranscript,
    pub backup: BackupManifest,
}

/// `a * b`, or `u64::MAX` where that does not fit.
pub open spec fn sat_mul(a: u64, b: u64) -> u64 {
    if a * b > u64::MAX {
        u64::MAX
    } else {
        (a * b) as u64
    }
}

fn saturating_mul(a: u64, b: u64) -> (r: u64)
    ensures
        r == sat_mul(a, b),
{
    match a.checked_mul(b) {
        Some(v) => v,
        None => u64::MAX,
    }
}

/// Byte offset of a sector.
pub open spec fn sector_offset(lba: u64, size: u64) -> int {
    sat_mul(lba, size) as int
}

/// `n` zero bytes.
pub open spec fn zeros(n: nat) -> Seq<u8> {
    Seq::new(n, |_i: int| 0u8)
}

/// The image after writing `b` at `off`, growing it where `b` runs past its
/// end (as a file grows, with zeros before a write that starts past the
/// end). Writing nothing changes nothing.
pub open spec fn write_at(img: Seq<u8>, off: int, b: Seq<u8>) -> Seq<u8> {
    if b.len() == 0 {
        img
    } else if off > img.len() {
        img + zeros((off - img.len()) as nat) + b
    } else if off + b.len() < img.len() {
        img.take(off) + b + img.skip(off + b.len())
    } else {
        img.take(off) + b
    }
}

pub open spec fn short_read_message() -> Seq<char> {
    "failed to fill whole buffer"@
}

/// The first reason not to apply `ps` to `img`: a payload that does not
/// decode, expected bytes that run past the end, or current bytes that
/// differ from the patch's expected ones. A patch that expects no bytes
/// reads nothing and passes.
pub open spec fn apply_check_error(img: Seq<u8>, ps: Seq<PatchView>, size: u64) -> Option<WritebackErrorView>
    decreases ps.len(),
{
    if ps.len() == 0 {
        None
    } else {
        let p = ps[0];
        match spec_hex_decode(p.before_hex) {
            Err(m) => Some(WritebackErrorView::InvalidPlan(m)),
            Ok(before) => match spec_hex_decode(p.after_hex) {
                Err(m) => Some(WritebackErrorView::InvalidPlan(m)),
                Ok(_) => {
                    let off = sector_offset(p.lba, size);
                    if before.len() == 0 {
                        apply_check_error(img, ps.drop_first(), size)
                    } else if off + before.len() > img.len() {
                        Some(WritebackErrorView::Io(short_read_message()))
                    } else if img.subrange(off, off + before.len()) != before {
                        Some(WritebackErrorView::PatchMismatch(p.lba))
                    } else {
                        apply_check_error(img, ps.drop_first(), size)
                    }
                },
            },
        }
    }
}

/// The image after writing every patch's new bytes, in order.
pub open spec fn apply_writes(img: Seq<u8>, ps: Seq<PatchView>, size: u64) -> Seq<u8>
    decreases ps.len(),
{
    if ps.len() == 0 {
        img
    } else {
        apply_writes(
            write_at(img, sector_offset(ps[0].lba, size), decoded(ps[0].after_hex)),
            ps.drop_first(),
            size,
        )
    }
}

/// All new bytes, one patch after the other.
pub open spec fn all_afters(ps: Seq<PatchView>) -> Seq<u8>
    decreases ps.len(),
{
    if ps.len() == 0 {
        seq![]
    } else {
        all_afters(ps.drop_last()) + decoded(ps.last().after_hex)
    }
}

pub open spec fn step_of(p: PatchView) -> StepView {
    StepView {
        lba: p.lba,
        bytes_written: decoded(p.after_hex).len() as u64,
        checksum_before: hex_pad(crc32_of(decoded(p.before_hex)) as nat, 8, false),
        checksum_after: hex_pad(crc32_of(decoded(p.after_hex)) as nat, 8, false),
    }
}

/// The backup of a plan: each patch's LBA with its expected old bytes.
pub open spec fn backup_sectors(ps: Seq<PatchView>) -> Seq<SectorView> {
    ps.map_values(|p: PatchView| SectorView { lba: p.lba, bytes_hex: p.before_hex })
}

pub open spec fn spec_transcript(plan: PlanView) -> TranscriptView {
    TranscriptView {
        schema_version: WRITEBACK_SCHEMA_VERSION,
        target_path: plan.target_path,
        backup_path: plan.backup_path,
        bytes_written: all_afters(plan.patches).len() as u64,
        checksum: hex_pad(crc32_of(all_afters(plan.patches)) as nat, 8, false),
        steps: plan.patches.map_values(|p: PatchView| step_of(p)),
        status: "verified"@,
    }
}

pub open spec fn spec_backup(plan: PlanView) -> ManifestView {
    ManifestView {
        schema_version: WRITEBACK_SCHEMA_VERSION,
        target_signature: plan.target_signature,
        sector_size_bytes: plan.sector_size_bytes,
        sectors: backup_sectors(plan.patches),
    }
}

/// Writes `b` into `image` at `off`, growing it where needed; `off` lies
/// inside the image or at its end.
fn write_in_place(image: &mut Vec<u8>, off: usize, b: &[u8])
    requires
        off <= old(image)@.len(),
    ensures
        final(image)@ == write_at(old(image)@, off as int, b@),
{
    let ghost orig = image@;
    let mut j: usize = 0;
    let mut pos: usize = off;
    while j < b.len()
        invariant
            j <= b.len(),
            off <= orig.len(),
            pos == off + j,
            pos <= image@.len(),
            image@ == write_at(orig, off as int, b@.take(j as int)),
        decreases b.len() - j,
    {
        if pos < image.len() {
            image.set(pos, b[j]);
        } else {
            image.push(b[j]);
        }
        proof {
            let bj = b@.take(j + 1 as int);
            assert(bj =~= b@.take(j as int).push(b@[j as int]));
            assert(image@ =~= write_at(orig, off as int, bj));
        }
        let l = image.len();
        assert(pos < l);
        pos = pos + 1;
        j = j + 1;
    }
    proof {
        assert(b@.take(b.len() as int) =~= b@);
    }
}

/// Writes `b` into `image` at `off`, first filling with zeros up to `off`
/// when it lies past the end.
fn write_bytes(image: &mut Vec<u8>, off: u64, b: &[u8])
    ensures
        final(image)@ == write_at(old(image)@, off as int, b@),
{
    if b.len() == 0 {
        return;
    }
    let ghost orig = image@;
    if (image.len() as u64) < off {
        while (image.len() as u64) < off
            invariant
                orig.len() <= image@.len() <= off,
                image@ == orig + zeros((image@.len() - orig.len()) as nat),
            decreases off - image@.len(),
        {
            let ghost before = image@;
            image.push(0u8);
            proof {
                assert(image@ =~= orig + zeros((image@.len() - orig.len()) as nat));
            }
        }
        proof {
            assert(image@ =~= orig + zeros((off - orig.len()) as nat));
        }
    }
    let ghost mid = image@;
    let o = off as usize;
    write_in_place(image, o, b);
    proof {
        if off > orig.len() {
            assert(mid.take(off as int) =~= mid);
        }
    }
}

fn append_bytes(out: &mut Vec<u8>, b: &[u8])
    ensures
        final(out)@ == old(out)@ + b@,
{
    let mut j: usize = 0;
    while j < b.len()
        invariant
            j <= b.len(),
            out@ == old(out)@ + b@.take(j as int),
        decreases b.len() - j,
    {
        out.push(b[j]);
        j = j + 1;
        assert(b@.take(j as int) =~= b@.take(j - 1 as int).push(b@[j - 1]));
    }
    assert(b@.take(b.len() as int) =~= b@);
}

/// Whether `img` holds `b` at `off`.
fn bytes_at(img: &[u8], off: usize, b: &[u8]) -> (r: bool)
    requires
        off + b@.len() <= img@.len(),
    ensures
        r == (img@.subrange(off as int, off + b@.len()) == b@),
{
    let n = img.len();
    let mut k: usize = 0;
    while k < b.len()
        invariant
            k <= b.len(),
            n == img@.len(),
            off + b@.len() <= n,
            forall|m: int| 0 <= m < k ==> img@[off + m] == b@[m],
        decreases b.len() - k,
    {
        if img[off + k] != b[k] {
            assert(img@.subrange(off as int, off + b@.len())[k as int] != b@[k as int]);
            return false;
        }
        k = k + 1;
    }
    assert(img@.subrange(off as int, off + b@.len()) =~= b@);
    true
}

proof fn lemma_all_afters_push(ps: Seq<PatchView>, k: int)
    requires
        0 <= k < ps.len(),
    ensures
        all_afters(ps.take(k + 1)) == all_afters(ps.take(k)) + decoded(ps[k].after_hex),
{
    assert(ps.take(k + 1).drop_last() =~= ps.take(k));
}

/// Applies a write-back plan to the image bytes of its target.
///
/// Every patch is checked against the current bytes before anything is
/// written; on any error the image is left as it was. On success the image
/// holds the new bytes and the outcome carries the transcript and the backup
/// to store before the new bytes reach the disk.
pub fn apply_writeback_plan(plan: &WritebackPlan, image: &mut Vec<u8>) -> (r: Result<WritebackOutcome, WritebackError>)
    ensures
        match r {
            Err(e) => apply_check_error(old(image)@, plan@.patches, plan.sector_size_bytes) == Some(e@)
                && final(image)@ == old(image)@,
            Ok(out) => apply_check_error(old(image)@, plan@.patches, plan.sector_size_bytes) is None
                && final(image)@ == apply_writes(old(image)@, plan@.patches, plan.sector_size_bytes)
                && out.transcript@ == spec_transcript(plan@)
                && out.backup@ == spec_backup(plan@),
        },
{
    let ghost orig = image@;
    let ghost ps = plan@.patches;
    let size = plan.sector_size_bytes;
    let n = plan.patches.len();
    let mut sectors: Vec<BackupSector> = Vec::new();
    let mut befores: Vec<Vec<u8>> = Vec::new();
    let mut afters: Vec<Vec<u8>> = Vec::new();
    let mut offsets: Vec<u64> = Vec::new();
    proof {
        assert(ps.skip(0) =~= ps);
    }
    let mut i: usize = 0;
    while i < n
        invariant
            n == plan.patches@.len(),
            ps == plan@.patches,
            size == plan.sector_size_bytes,
            image@ == orig,
            i <= n,
            apply_check_error(orig, ps, size) == apply_check_error(orig, ps.skip(i as int), size),
            sectors_view(sectors@) == backup_sectors(ps.take(i as int)),
            befores@.len() == i,
            afters@.len() == i,
            offsets@.len() == i,
            forall|k: int| 0 <= k < i ==> (#[trigger] befores@[k])@ == decoded(ps[k].before_hex),
            forall|k: int| 0 <= k < i ==> (#[trigger] afters@[k])@ == decoded(ps[k].after_hex),
            forall|k: int| 0 <= k < i ==> (#[trigger] offsets@[k]) == sector_offset(ps[k].lba, size),
            forall|k: int| 0 <= k < i && befores@[k]@.len() > 0 ==> #[trigger] offsets@[k] + befores@[k]@.len() <= orig.len(),
        decreases n - i,
    {
        let p = &plan.patches[i];
        let ghost rest = ps.skip(i as int);
        proof {
            assert(rest[0] == ps[i as int]);
            assert(rest.drop_first() =~= ps.skip(i + 1));
            assert(p@ == ps[i as int]);
        }
        let before = match hex_decode(p.before_hex.as_str()) {
            Ok(b) => b,
            Err(e) => {
                return Err(e);
            },
        };
        let after = match hex_decode(p.after_hex.as_str()) {
            Ok(b) => b,
            Err(e) => {
                return Err(e);
            },
        };
        let off = saturating_mul(p.lba, size);
        if before.len() > 0 {
            let len = image.len();
            if off > len as u64 || before.len() as u64 > len as u64 - off {
                return Err(WritebackError::Io(owned("failed to fill whole buffer")));
            }
            if !bytes_at(image.as_slice(), off as usize, before.as_slice()) {
                return Err(WritebackError::PatchMismatch(p.lba));
            }
        }
        let ghost old_sv = sectors_view(sectors@);
        let ghost sv = SectorView { lba: ps[i as int].lba, bytes_hex: ps[i as int].before_hex };
        sectors.push(BackupSector { lba: p.lba, bytes_hex: p.before_hex.clone() });
        proof {
            assert(sectors_view(sectors@) =~= old_sv.push(sv));
            assert(backup_sectors(ps.take(i + 1 as int)) =~= backup_sectors(ps.take(i as int)).push(sv));
        }
        befores.push(before);
        afters.push(after);
        offsets.push(off);
        proof {
            assert(sectors_view(sectors@) =~= backup_sectors(ps.take(i + 1 as int)));
        }
        i = i + 1;
    }
    proof {
        assert(ps.take(n as int) =~= ps);
        assert(ps.skip(0) =~= ps);
    }
    let mut steps: Vec<WritebackStepRecord> = Vec::new();
    let mut all: Vec<u8> = Vec::new();
    let mut i: usize = 0;
    while i < n
        invariant
            n == plan.patches@.len(),
            ps == plan@.patches,
            size == plan.sector_size_bytes,
            i <= n,
            image@.len() >= orig.len(),
            apply_writes(image@, ps.skip(i as int), size) == apply_writes(orig, ps, size),
            befores@.len() == n,
            afters@.len() == n,
            offsets@.len() == n,
            forall|k: int| 0 <= k < n ==> (#[trigger] befores@[k])@ == decoded(ps[k].before_hex),
            forall|k: int| 0 <= k < n ==> (#[trigger] afters@[k])@ == decoded(ps[k].after_hex),
            forall|k: int| 0 <= k < n ==> (#[trigger] offsets@[k]) == sector_offset(ps[k].lba, size),
            forall|k: int| 0 <= k < n && befores@[k]@.len() > 0 ==> #[trigger] offsets@[k] + befores@[k]@.len() <= orig.len(),
            steps_view(steps@) == ps.take(i as int).map_values(|p: PatchView| step_of(p)),
            all@ == all_afters(ps.take(i as int)),
        decreases n - i,
    {
        let ghost rest = ps.skip(i as int);
        proof {
            assert(rest[0] == ps[i as int]);
            assert(rest.drop_first() =~= ps.skip(i + 1));
            lemma_all_afters_push(ps, i as int);
        }
        let off = offsets[i];
        write_bytes(image, off, afters[i].as_slice());
        append_bytes(&mut all, afters[i].as_slice());
        let p = &plan.patches[i];
        let step = WritebackStepRecord {
            lba: p.lba,
            bytes_written: afters[i].len() as u64,
            checksum_before: checksum_hex(befores[i].as_slice()),
            checksum_after: checksum_hex(afters[i].as_slice()),
        };
        let ghost old_st = steps_view(steps@);
        steps.push(step);
        proof {
            assert(p@ == ps[i as int]);
            assert(steps_view(steps@) =~= old_st.push(step_of(ps[i as int])));
            assert(ps.take(i + 1 as int).map_values(|p: PatchView| step_of(p)) =~= ps.take(i as int).map_values(|p: PatchView| step_of(p)).push(step_of(ps[i as int])));
            assert(steps_view(steps@) =~= ps.take(i + 1 as int).map_values(|p: PatchView| step_of(p)));
        }
        i = i + 1;
    }
    proof {
        assert(ps.take(n as int) =~= ps);
        assert(ps.skip(n as int) =~= Seq::<PatchView>::empty());
    }
    let transcript = WritebackTranscript {
        schema_version: WRITEBACK_SCHEMA_VERSION,
        target_path: plan.target_path.clone(),
        backup_path: plan.backup_path.clone(),
        bytes_written: all.len() as u64,
        checksum: checksum_hex(all.as_slice()),
        steps,
        status: owned("verified"),
    };
    let backup = BackupManifest {
        schema_version: WRITEBACK_SCHEMA_VERSION,
        target_signature: plan.target_signature.clone(),
        sector_size_bytes: size,
        sectors,
    };
    Ok(WritebackOutcome { transcript, backup })
}

/// Replaying a backup onto `img`: the image after each sector is written
/// back in order, and the first error met, if any.
pub open spec fn restore_run(img: Seq<u8>, ss: Seq<SectorView>, size: u64) -> (Seq<u8>, Option<WritebackErrorView>)
    decreases ss.len(),
{
    if ss.len() == 0 {
        (img, None)
    } else {
        match spec_hex_decode(ss[0].bytes_hex) {
            Err(m) => (img, Some(WritebackErrorView::InvalidPlan(m))),
            Ok(b) => {
                let off = sector_offset(ss[0].lba, size);
                restore_run(write_at(img, off, b), ss.drop_first(), size)
            },
        }
    }
}

/// All restored bytes, one sector after the other.
pub open spec fn all_restored(ss: Seq<SectorView>) -> Seq<u8>
    decreases ss.len(),
{
    if ss.len() == 0 {
        seq![]
    } else {
        all_restored(ss.drop_last()) + decoded(ss.last().bytes_hex)
    }
}

pub open spec fn signature_mismatch_message() -> Seq<char> {
    "backup does not match target signature"@
}

pub open spec fn spec_restore_transcript(plan: PlanView, m: ManifestView) -> RestoreView {
    RestoreView {
        schema_version: WRITEBACK_SCHEMA_VERSION,
        target_path: plan.target_path,
        backup_path: plan.backup_path,
        restored_sectors: m.sectors.map_values(|s: SectorView| s.lba),
        checksum: hex_pad(crc32_of(all_restored(m.sectors)) as nat, 8, false),
        status: "restored"@,
    }
}

proof fn lemma_all_restored_push(ss: Seq<SectorView>, k: int)
    requires
        0 <= k < ss.len(),
    ensures
        all_restored(ss.take(k + 1)) == all_restored(ss.take(k)) + decoded(ss[k].bytes_hex),
{
    assert(ss.take(k + 1).drop_last() =~= ss.take(k));
}

/// Writes the sectors of a backup manifest back into the image.
///
/// The manifest must carry the plan's target signature. Sectors are written
/// in order; an error stops the replay and leaves the sectors before it
/// written.
pub fn restore_writeback_backup(
    plan: &WritebackPlan,
    manifest: &BackupManifest,
    image: &mut Vec<u8>,
) -> (r: Result<RestoreTranscript, WritebackError>)
    ensures
        manifest.target_signature@ != plan.target_signature@ ==> final(image)@ == old(image)@ && (r matches Err(e)
            && e@ == WritebackErrorView::InvalidPlan(signature_mismatch_message())),
        manifest.target_signature@ == plan.target_signature@ ==> {
            let (img, err) = restore_run(old(image)@, manifest@.sectors, manifest.sector_size_bytes);
            &&& final(image)@ == img
            &&& match err {
                Some(e) => r matches Err(re) && re@ == e,
                None => r matches Ok(t) && t@ == spec_restore_transcript(plan@, manifest@),
            }
        },
{
    if !crate::text::str_eq(manifest.target_signature.as_str(), plan.target_signature.as_str()) {
        return Err(invalid_plan("backup does not match target signature"));
    }
    let ghost orig = image@;
    let ghost ss = manifest@.sectors;
    let size = manifest.sector_size_bytes;
    let n = manifest.sectors.len();
    let mut restored: Vec<u64> = Vec::new();
    let mut all: Vec<u8> = Vec::new();
    proof {
        assert(ss.skip(0) =~= ss);
    }
    let mut i: usize = 0;
    while i < n
        invariant
            n == manifest.sectors@.len(),
            ss == manifest@.sectors,
            size == manifest.sector_size_bytes,
            manifest.target_signature@ == plan.target_signature@,
            orig == old(image)@,
            i <= n,
            restore_run(image@, ss.skip(i as int), size) == restore_run(orig, ss, size),
            restored@ == ss.take(i as int).map_values(|s: SectorView| s.lba),
            all@ == all_restored(ss.take(i as int)),
        decreases n - i,
    {
        let sector = &manifest.sectors[i];
        let ghost rest = ss.skip(i as int);
        proof {
            assert(rest[0] == ss[i as int]);
            assert(sector@ == ss[i as int]);
            assert(rest.drop_first() =~= ss.skip(i + 1));
        }
        let bytes = match hex_decode(sector.bytes_hex.as_str()) {
            Ok(b) => b,
            Err(e) => {
                assert(restore_run(image@, rest, size) == (image@, Some(e@)));
                return Err(e);
            },
        };
        let off = saturating_mul(sector.lba, size);
        write_bytes(image, off, bytes.as_slice());
        proof {
            lemma_all_restored_push(ss, i as int);
            assert(ss.take(i + 1 as int).map_values(|s: SectorView| s.lba) =~= restored@.push(sector.lba));
        }
        restored.push(sector.lba);
        append_bytes(&mut all, bytes.as_slice());
        i = i + 1;
    }
    proof {
        assert(ss.take(n as int) =~= ss);
        assert(ss.skip(n as int) =~= Seq::<SectorView>::empty());
    }
    Ok(RestoreTranscript {
        schema_version: WRITEBACK_SCHEMA_VERSION,
        target_path: plan.target_path.clone(),
        backup_path: plan.backup_path.clone(),
        restored_sectors: restored,
        checksum: checksum_hex(all.as_slice()),
        status: owned("restored"),
    })
}

// ---------------------------------------------------------------------------
// The backup undoes the write-back

/// Byte `i` lies in the sector region of one of `ss`.
pub open spec fn covered(ss: Seq<SectorView>, size: u64, i: int) -> bool
    decreases ss.len(),
{
    if ss.len() == 0 {
        false
    } else {
        let off = sector_offset(ss[0].lba, size);
        (off <= i < off + decoded(ss[0].bytes_hex).len()) || covered(ss.drop_first(), size, i)
    }
}

/// Every patch keeps the length of the bytes it replaces.
pub open spec fn same_length_patches(ps: Seq<PatchView>) -> bool {
    forall|k: int| 0 <= k < ps.len() ==> decoded((#[trigger] ps[k]).after_hex).len() == decoded(ps[k].before_hex).len()
}

proof fn lemma_check_facts(img: Seq<u8>, ps: Seq<PatchView>, size: u64, k: int)
    requires
        apply_check_error(img, ps, size) is None,
        0 <= k < ps.len(),
    ensures
        spec_hex_decode(ps[k].before_hex) is Ok,
        spec_hex_decode(ps[k].after_hex) is Ok,
        decoded(ps[k].before_hex).len() > 0 ==> sector_offset(ps[k].lba, size) + decoded(ps[k].before_hex).len()
            <= img.len(),
        decoded(ps[k].before_hex).len() > 0 ==> img.subrange(
            sector_offset(ps[k].lba, size),
            sector_offset(ps[k].lba, size) + decoded(ps[k].before_hex).len(),
        ) == decoded(ps[k].before_hex),
    decreases k,
{
    if k > 0 {
        lemma_check_facts(img, ps.drop_first(), size, k - 1);
        assert(ps.drop_first()[k - 1] == ps[k]);
    }
}

proof fn lemma_write_in_place(img: Seq<u8>, off: int, b: Seq<u8>)
    requires
        0 <= off,
        off + b.len() <= img.len(),
    ensures
        write_at(img, off, b).len() == img.len(),
        forall|i: int| 0 <= i < img.len() ==> #[trigger] write_at(img, off, b)[i] == if off <= i < off + b.len() {
            b[i - off]
        } else {
            img[i]
        },
{
}

proof fn lemma_apply_outside(y: Seq<u8>, ps: Seq<PatchView>, size: u64)
    requires
        same_length_patches(ps),
        forall|k: int| 0 <= k < ps.len() && decoded((#[trigger] ps[k]).before_hex).len() > 0 ==> sector_offset(
            ps[k].lba,
            size,
        ) + decoded(ps[k].before_hex).len() <= y.len(),
    ensures
        apply_writes(y, ps, size).len() == y.len(),
        forall|i: int| 0 <= i < y.len() && !covered(backup_sectors(ps), size, i) ==> #[trigger] apply_writes(y, ps, size)[i]
            == y[i],
    decreases ps.len(),
{
    if ps.len() > 0 {
        let off = sector_offset(ps[0].lba, size);
        let after = decoded(ps[0].after_hex);
        assert(decoded(ps[0].after_hex).len() == decoded(ps[0].before_hex).len());
        let y2 = write_at(y, off, after);
        if after.len() > 0 {
            lemma_write_in_place(y, off, after);
        } else {
            assert(y2 == y);
        }
        let rest = ps.drop_first();
        assert forall|k: int| 0 <= k < rest.len() && decoded((#[trigger] rest[k]).before_hex).len() > 0 implies sector_offset(
            rest[k].lba,
            size,
        ) + decoded(rest[k].before_hex).len() <= y2.len() by {
            assert(rest[k] == ps[k + 1]);
        }
        assert(same_length_patches(rest)) by {
            assert forall|k: int| 0 <= k < rest.len() implies decoded((#[trigger] rest[k]).after_hex).len() == decoded(
                rest[k].before_hex,
            ).len() by {
                assert(rest[k] == ps[k + 1]);
            }
        }
        lemma_apply_outside(y2, rest, size);
        assert(backup_sectors(ps).drop_first() =~= backup_sectors(rest));
        assert forall|i: int| 0 <= i < y.len() && !covered(backup_sectors(ps), size, i) implies #[trigger] apply_writes(
            y,
            ps,
            size,
        )[i] == y[i] by {
            assert(backup_sectors(ps)[0].lba == ps[0].lba);
            assert(!covered(backup_sectors(rest), size, i));
            assert(y2[i] == y[i]);
        }
    }
}

proof fn lemma_restore_from(x: Seq<u8>, img0: Seq<u8>, ss: Seq<SectorView>, size: u64)
    requires
        x.len() == img0.len(),
        forall|k: int| 0 <= k < ss.len() ==> (spec_hex_decode((#[trigger] ss[k]).bytes_hex) is Ok && (decoded(
            ss[k].bytes_hex,
        ).len() > 0 ==> sector_offset(ss[k].lba, size) + decoded(ss[k].bytes_hex).len() <= img0.len()
            && img0.subrange(
            sector_offset(ss[k].lba, size),
            sector_offset(ss[k].lba, size) + decoded(ss[k].bytes_hex).len(),
        ) == decoded(ss[k].bytes_hex))),
        forall|i: int| 0 <= i < img0.len() && !covered(ss, size, i) ==> x[i] == img0[i],
    ensures
        restore_run(x, ss, size) == (img0, None::<WritebackErrorView>),
    decreases ss.len(),
{
    if ss.len() == 0 {
        assert(x =~= img0);
    } else {
        let off = sector_offset(ss[0].lba, size);
        let b = decoded(ss[0].bytes_hex);
        assert(spec_hex_decode(ss[0].bytes_hex) is Ok);
        let x2 = write_at(x, off, b);
        if b.len() > 0 {
            assert(img0.subrange(off, off + b.len()) == b);
            lemma_write_in_place(x, off, b);
        } else {
            assert(x2 == x);
        }
        let rest = ss.drop_first();
        assert forall|k: int| 0 <= k < rest.len() implies (spec_hex_decode((#[trigger] rest[k]).bytes_hex) is Ok && (
        decoded(rest[k].bytes_hex).len() > 0 ==> sector_offset(rest[k].lba, size) + decoded(rest[k].bytes_hex).len()
            <= img0.len() && img0.subrange(
            sector_offset(rest[k].lba, size),
            sector_offset(rest[k].lba, size) + decoded(rest[k].bytes_hex).len(),
        ) == decoded(rest[k].bytes_hex))) by {
            assert(rest[k] == ss[k + 1]);
        }
        assert forall|i: int| 0 <= i < img0.len() && !covered(rest, size, i) implies x2[i] == img0[i] by {
            if off <= i < off + b.len() {
                assert(img0.subrange(off, off + b.len())[i - off] == img0[i]);
            }
        }
        lemma_restore_from(x2, img0, rest, size);
    }
}

/// Restoring the backup of a write-back gives back the image as it was
/// before the write-back: whenever a plan applies to an image, replaying
/// the backup that the write-back produced onto the written image yields
/// the original bytes, without error. This holds for plans whose patches
/// keep the length of the bytes they replace, as every plan from
/// `build_guarded_writeback_plan` does.
pub proof fn lemma_restore_undoes_writeback(img: Seq<u8>, plan: PlanView)
    requires
        apply_check_error(img, plan.patches, plan.sector_size_bytes) is None,
        same_length_patches(plan.patches),
    ensures
        spec_backup(plan).target_signature == plan.target_signature,
        restore_run(
            apply_writes(img, plan.patches, plan.sector_size_bytes),
            spec_backup(plan).sectors,
            spec_backup(plan).sector_size_bytes,
        ) == (img, None::<WritebackErrorView>),
{
    let ps = plan.patches;
    let size = plan.sector_size_bytes;
    assert forall|k: int| 0 <= k < ps.len() && decoded((#[trigger] ps[k]).before_hex).len() > 0 implies sector_offset(
        ps[k].lba,
        size,
    ) + decoded(ps[k].before_hex).len() <= img.len() by {
        lemma_check_facts(img, ps, size, k);
    }
    lemma_apply_outside(img, ps, size);
    let ss = backup_sectors(ps);
    assert forall|k: int| 0 <= k < ss.len() implies (spec_hex_decode((#[trigger] ss[k]).bytes_hex) is Ok && (
    decoded(ss[k].bytes_hex).len() > 0 ==> sector_offset(ss[k].lba, size) + decoded(ss[k].bytes_hex).len()
        <= img.len() && img.subrange(
        sector_offset(ss[k].lba, size),
        sector_offset(ss[k].lba, size) + decoded(ss[k].bytes_hex).len(),
    ) == decoded(ss[k].bytes_hex))) by {
        lemma_check_facts(img, ps, size, k);
    }
    lemma_restore_from(apply_writes(img, ps, size), img, ss, size);
}

// ---------------------------------------------------------------------------
// What a built plan guarantees

pub open spec fn lba_sorted(ps: Seq<PatchView>) -> bool {
    forall|a: int, b: int| 0 <= a <= b < ps.len() ==> (#[trigger] ps[a]).lba <= (#[trigger] ps[b]).lba
}

proof fn lemma_insert_bounded(s: Seq<PatchView>, x: PatchView, bound: u64)
    requires
        forall|k: int| 0 <= k < s.len() ==> (#[trigger] s[k]).lba <= bound,
        x.lba <= bound,
    ensures
        forall|k: int| 0 <= k < patch_insert(s, x).len() ==> (#[trigger] patch_insert(s, x)[k]).lba <= bound,
    decreases s.len(),
{
    lemma_patch_insert_len(s, x);
    if s.len() > 0 && s.last().lba > x.lba {
        let t = s.drop_last();
        assert forall|k: int| 0 <= k < t.len() implies (#[trigger] t[k]).lba <= bound by {
            assert(t[k] == s[k]);
        }
        lemma_insert_bounded(t, x, bound);
        lemma_patch_insert_len(t, x);
        let r = patch_insert(t, x);
        assert forall|k: int| 0 <= k < patch_insert(s, x).len() implies (#[trigger] patch_insert(s, x)[k]).lba <= bound by {
            if k < r.len() {
                assert(patch_insert(s, x)[k] == r[k]);
            }
        }
    }
}

proof fn lemma_insert_sorted(s: Seq<PatchView>, x: PatchView)
    requires
        lba_sorted(s),
    ensures
        lba_sorted(patch_insert(s, x)),
    decreases s.len(),
{
    lemma_patch_insert_len(s, x);
    if s.len() == 0 {
    } else if s.last().lba <= x.lba {
        let r = s.push(x);
        assert forall|a: int, b: int| 0 <= a <= b < r.len() implies (#[trigger] r[a]).lba <= (#[trigger] r[b]).lba by {
            if b == s.len() {
                if a < s.len() {
                    assert(s[a].lba <= s[s.len() - 1].lba);
                }
            }
        }
    } else {
        let t = s.drop_last();
        assert(lba_sorted(t)) by {
            assert forall|a: int, b: int| 0 <= a <= b < t.len() implies (#[trigger] t[a]).lba <= (#[trigger] t[b]).lba by {
                assert(t[a] == s[a] && t[b] == s[b]);
            }
        }
        lemma_insert_sorted(t, x);
        let last = s.last();
        assert forall|k: int| 0 <= k < t.len() implies (#[trigger] t[k]).lba <= last.lba by {
            assert(t[k] == s[k]);
        }
        lemma_insert_bounded(t, x, last.lba);
        lemma_patch_insert_len(t, x);
        let q = patch_insert(t, x);
        let r = q.push(last);
        assert forall|a: int, b: int| 0 <= a <= b < r.len() implies (#[trigger] r[a]).lba <= (#[trigger] r[b]).lba by {
            if b == q.len() {
                if a < q.len() {
                    assert(q[a].lba <= last.lba);
                }
            } else {
                assert(r[a] == q[a] && r[b] == q[b]);
            }
        }
    }
}

proof fn lemma_patch_sort_sorted(s: Seq<PatchView>)
    ensures
        lba_sorted(patch_sort(s)),
    decreases s.len(),
{
    if s.len() > 0 {
        lemma_patch_sort_sorted(s.drop_last());
        lemma_insert_sorted(patch_sort(s.drop_last()), s.last());
    }
}

proof fn lemma_no_patch_error(ps: Seq<PatchView>, size: nat, k: int)
    requires
        first_patch_error(ps, size) is None,
        0 <= k < ps.len(),
    ensures
        patch_error(ps[k], size) is None,
    decreases k,
{
    if k > 0 {
        lemma_no_patch_error(ps.drop_first(), size, k - 1);
        assert(ps.drop_first()[k - 1] == ps[k]);
    }
}

/// A plan that `build_guarded_writeback_plan` accepts targets a read-write
/// image only, holds the patches ordered by LBA, as many as were given, and
/// every patch replaces exactly one non-empty sector of the plan's sector
/// size with as many new bytes.
pub proof fn lemma_built_plan_is_guarded(
    t: DiskInfo,
    table: PartitionTableType,
    backup: Seq<char>,
    patches: Seq<PatchView>,
    plan: PlanView,
)
    requires
        spec_build_plan(t, table, backup, patches) == Ok::<PlanView, WritebackErrorView>(plan),
    ensures
        target_writable(t),
        plan.sector_size_bytes > 0,
        plan.patches.len() == patches.len(),
        lba_sorted(plan.patches),
        same_length_patches(plan.patches),
        forall|k: int| 0 <= k < plan.patches.len() ==> decoded((#[trigger] plan.patches[k]).before_hex).len()
            == plan.sector_size_bytes,
{
    lemma_patch_sort_len(patches);
    lemma_patch_sort_sorted(patches);
    let sorted = patch_sort(patches);
    let size = (decoded(sorted[0].after_hex).len() as u64) as nat;
    assert forall|k: int| 0 <= k < plan.patches.len() implies decoded((#[trigger] plan.patches[k]).after_hex).len()
        == decoded(plan.patches[k].before_hex).len() && decoded(plan.patches[k].before_hex).len()
        == plan.sector_size_bytes by {
        lemma_no_patch_error(sorted, size, k);
    }
    lemma_no_patch_error(sorted, size, 0);
}

} // verus!
