//! Read-only boot sector diagnosis and repair previews.
use vstd::prelude::*;
use crate::disk::{DiskError, DiskReader, SECTOR_SIZE};
use crate::fs_detect::{detect_filesystem, spec_detect_filesystem};
use crate::text::{owned, str_eq};

verus! {

pub const BOOT_SECTOR_SCHEMA_VERSION: u32 = 1;

#[derive(Debug)]
pub enum BootSectorError {
    Disk(DiskError),
    Io(String),
    UnsupportedFilesystem(String),
}

#[derive(Debug, Clone)]
pub struct NativeRepairCommand {
    pub program: String,
    pub args: Vec<String>,
}

pub struct CommandView {
    pub program: Seq<char>,
    pub args: Seq<Seq<char>>,
}

impl View for NativeRepairCommand {
    type V = CommandView;

    open spec fn view(&self) -> CommandView {
        CommandView { program: self.program@, args: crate::domain::strings_view(self.args@) }
    }
}

pub open spec fn commands_view(v: Seq<NativeRepairCommand>) -> Seq<CommandView> {
    v.map_values(|c: NativeRepairCommand| c@)
}

#[derive(Debug, Clone)]
pub struct BootSectorDiagnosis {
    pub schema_version: u32,
    pub target_path: String,
    pub filesystem: String,
    pub primary_lba: u64,
    pub backup_lba: Option<u64>,
    pub matches_backup: bool,
    pub confidence: String,
    pub findings: Vec<String>,
}

pub struct DiagnosisView {
    pub schema_version: u32,
    pub target_path: Seq<char>,
    pub filesystem: Seq<char>,
    pub primary_lba: u64,
    pub backup_lba: Option<u64>,
    pub matches_backup: bool,
    pub confidence: Seq<char>,
    pub findings: Seq<Seq<char>>,
}

impl View for BootSectorDiagnosis {
    type V = DiagnosisView;

    open spec fn view(&self) -> DiagnosisView {
        DiagnosisView {
            schema_version: self.schema_version,
            target_path: self.target_path@,
            filesystem: self.filesystem@,
            primary_lba: self.primary_lba,
            backup_lba: self.backup_lba,
            matches_backup: self.matches_backup,
            confidence: self.confidence@,
            findings: crate::domain::strings_view(self.findings@),
        }
    }
}

pub open spec fn diagnoses_view(v: Seq<BootSectorDiagnosis>) -> Seq<DiagnosisView> {
    v.map_values(|d: BootSectorDiagnosis| d@)
}

#[derive(Debug, Clone)]
pub struct BootSectorRepairPlan {
    pub schema_version: u32,
    pub target_path: String,
    pub filesystem: String,
    pub primary_lba: u64,
    pub backup_lba: Option<u64>,
    pub native_commands: Vec<NativeRepairCommand>,
    pub notes: Vec<String>,
}

pub struct RepairView {
    pub schema_version: u32,
    pub target_path: Seq<char>,
    pub filesystem: Seq<char>,
    pub primary_lba: u64,
    pub backup_lba: Option<u64>,
    pub native_commands: Seq<CommandView>,
    pub notes: Seq<Seq<char>>,
}

impl View for BootSectorRepairPlan {
    type V = RepairView;

    open spec fn view(&self) -> RepairView {
        RepairView {
            schema_version: self.schema_version,
            target_path: self.target_path@,
            filesystem: self.filesystem@,
            primary_lba: self.primary_lba,
            backup_lba: self.backup_lba,
            native_commands: commands_view(self.native_commands@),
            notes: crate::domain::strings_view(self.notes@),
        }
    }
}

pub open spec fn is_fat_family(fs: Seq<char>) -> bool {
    fs == "FAT12"@ || fs == "FAT16"@ || fs == "FAT32"@
}

pub open spec fn is_ext_family(fs: Seq<char>) -> bool {
    fs == "ext2"@ || fs == "ext3"@ || fs == "ext4"@
}

pub open spec fn is_apple_family(fs: Seq<char>) -> bool {
    fs == "HFS"@ || fs == "HFS+"@ || fs == "APFS"@
}

/// Where a filesystem keeps a copy of its boot sector, on a device of
/// `size` bytes: sector 6 for FAT, exFAT and NTFS, sector 2 for ext, the
/// last sector for HFS and APFS; only a sector inside the device counts.
pub open spec fn spec_backup_lba(fs: Seq<char>, size: u64) -> Option<u64> {
    let size_lba = size / 512;
    let candidate: Option<u64> = if is_fat_family(fs) || fs == "exFAT"@ || fs == "NTFS"@ {
        Some(6u64)
    } else if is_ext_family(fs) {
        Some(2u64)
    } else if is_apple_family(fs) {
        if size_lba >= 1 {
            Some((size_lba - 1) as u64)
        } else {
            None
        }
    } else {
        None
    };
    match candidate {
        Some(lba) => if lba < size_lba {
            Some(lba)
        } else {
            None
        },
        None => None,
    }
}

fn is_one_of3(s: &str, a: &str, b: &str, c: &str) -> (r: bool)
    ensures
        r == (s@ == a@ || s@ == b@ || s@ == c@),
{
    str_eq(s, a) || str_eq(s, b) || str_eq(s, c)
}

pub fn backup_sector_for(filesystem: &str, disk: &DiskReader) -> (r: Option<u64>)
    ensures
        r == spec_backup_lba(filesystem@, disk.size),
{
    let size_lba = disk.size / SECTOR_SIZE;
    let candidate: Option<u64> = if is_one_of3(filesystem, "FAT12", "FAT16", "FAT32") || str_eq(filesystem, "exFAT")
        || str_eq(filesystem, "NTFS") {
        Some(6)
    } else if is_one_of3(filesystem, "ext2", "ext3", "ext4") {
        Some(2)
    } else if is_one_of3(filesystem, "HFS", "HFS+", "APFS") {
        size_lba.checked_sub(1)
    } else {
        None
    };
    match candidate {
        Some(lba) => if lba < size_lba {
            Some(lba)
        } else {
            None
        },
        None => None,
    }
}

pub open spec fn cmd(program: Seq<char>, arg0: Seq<char>, path: Seq<char>) -> CommandView {
    CommandView { program, args: seq![arg0, path] }
}

/// The read-only check of each filesystem family's own tool.
pub open spec fn spec_native_commands(fs: Seq<char>, path: Seq<char>) -> Seq<CommandView> {
    if is_fat_family(fs) {
        seq![cmd("fsck.fat"@, "-n"@, path)]
    } else if fs == "NTFS"@ {
        seq![cmd("ntfsfix"@, "-n"@, path)]
    } else if is_ext_family(fs) {
        seq![cmd("fsck"@, "-n"@, path)]
    } else if is_apple_family(fs) {
        seq![cmd("diskutil"@, "repairVolume"@, path)]
    } else {
        seq![]
    }
}

fn command(program: &str, arg0: &str, path: &str) -> (r: NativeRepairCommand)
    ensures
        r@ == cmd(program@, arg0@, path@),
{
    let mut args: Vec<String> = Vec::new();
    args.push(owned(arg0));
    args.push(owned(path));
    assert(crate::domain::strings_view(args@) =~= seq![arg0@, path@]);
    NativeRepairCommand { program: owned(program), args }
}

pub fn native_commands_for(filesystem: &str, target_path: &str) -> (r: Vec<NativeRepairCommand>)
    ensures
        commands_view(r@) == spec_native_commands(filesystem@, target_path@),
{
    let mut v: Vec<NativeRepairCommand> = Vec::new();
    if is_one_of3(filesystem, "FAT12", "FAT16", "FAT32") {
        v.push(command("fsck.fat", "-n", target_path));
    } else if str_eq(filesystem, "NTFS") {
        v.push(command("ntfsfix", "-n", target_path));
    } else if is_one_of3(filesystem, "ext2", "ext3", "ext4") {
        v.push(command("fsck", "-n", target_path));
    } else if is_one_of3(filesystem, "HFS", "HFS+", "APFS") {
        v.push(command("diskutil", "repairVolume", target_path));
    }
    assert(commands_view(v@) =~= spec_native_commands(filesystem@, target_path@));
    v
}

/// The diagnosis of a device whose readable bytes are `c` and whose
/// reported size is `size`; `None` where a needed sector cannot be read.
pub open spec fn spec_diagnosis(path: Seq<char>, c: Seq<u8>, size: u64) -> Option<DiagnosisView> {
    if c.len() < 512 {
        None
    } else {
        let primary = c.subrange(0, 512);
        match spec_detect_filesystem(primary) {
            Some(info) => {
                let backup = spec_backup_lba(info.fs_type, size);
                match backup {
                    Some(b) if b * 512 + 512 > c.len() => None,
                    _ => {
                        let matches = match backup {
                            Some(b) => c.subrange(b * 512, b * 512 + 512) == primary,
                            None => false,
                        };
                        Some(DiagnosisView {
                            schema_version: BOOT_SECTOR_SCHEMA_VERSION,
                            target_path: path,
                            filesystem: info.fs_type,
                            primary_lba: 0,
                            backup_lba: backup,
                            matches_backup: matches,
                            confidence: info.confidence,
                            findings: seq![
                                if matches {
                                    "primary boot sector matches backup copy"@
                                } else {
                                    "primary boot sector differs from backup copy"@
                                },
                            ],
                        })
                    },
                }
            },
            None => Some(DiagnosisView {
                schema_version: BOOT_SECTOR_SCHEMA_VERSION,
                target_path: path,
                filesystem: "unknown"@,
                primary_lba: 0,
                backup_lba: None,
                matches_backup: false,
                confidence: "low"@,
                findings: seq!["no supported boot sector signature detected"@],
            }),
        }
    }
}

fn one_string(s: &str) -> (v: Vec<String>)
    ensures
        crate::domain::strings_view(v@) == seq![s@],
{
    let mut v: Vec<String> = Vec::new();
    v.push(owned(s));
    assert(crate::domain::strings_view(v@) =~= seq![s@]);
    v
}

/// Compares the boot sector of a device with its backup copy.
/// What diagnosing the boot sectors of `disk` gives.
pub open spec fn diagnose_ok(path: Seq<char>, disk: DiskReader, r: Result<Vec<BootSectorDiagnosis>, BootSectorError>) -> bool {
    match r {
        Ok(v) => spec_diagnosis(path, disk.content(), disk.size) matches Some(d) && diagnoses_view(v@) == seq![d],
        Err(e) => spec_diagnosis(path, disk.content(), disk.size) is None && e is Disk,
    }
}

pub fn diagnose_boot_sectors(path: &str, disk: &DiskReader) -> (r: Result<Vec<BootSectorDiagnosis>, BootSectorError>)
    ensures
        diagnose_ok(path@, *disk, r),
{
    let primary = match disk.read_sector(0) {
        Ok(p) => p,
        Err(e) => {
            return Err(BootSectorError::Disk(e));
        },
    };
    proof {
        assert(primary@ =~= disk.content().subrange(0, 512));
    }
    let mut out: Vec<BootSectorDiagnosis> = Vec::new();
    match detect_filesystem(&primary) {
        Some(info) => {
            let backup_lba = backup_sector_for(info.fs_type.as_str(), disk);
            let matches_backup = match backup_lba {
                Some(b) => {
                    assert(b < disk.size / 512);
                    let backup = match disk.read_sector(b) {
                        Ok(s) => s,
                        Err(e) => {
                            return Err(BootSectorError::Disk(e));
                        },
                    };
                    crate::bytes::bytes_eq(&backup, &primary)
                },
                None => false,
            };
            let findings = if matches_backup {
                one_string("primary boot sector matches backup copy")
            } else {
                one_string("primary boot sector differs from backup copy")
            };
            out.push(BootSectorDiagnosis {
                schema_version: BOOT_SECTOR_SCHEMA_VERSION,
                target_path: owned(path),
                filesystem: info.fs_type,
                primary_lba: 0,
                backup_lba,
                matches_backup,
                confidence: info.confidence,
                findings,
            });
        },
        None => {
            out.push(BootSectorDiagnosis {
                schema_version: BOOT_SECTOR_SCHEMA_VERSION,
                target_path: owned(path),
                filesystem: owned("unknown"),
                primary_lba: 0,
                backup_lba: None,
                matches_backup: false,
                confidence: owned("low"),
                findings: one_string("no supported boot sector signature detected"),
            });
        },
    }
    assert(diagnoses_view(out@) =~= seq![out@[0]@]);
    Ok(out)
}

/// The repair preview for a diagnosis (none for an unknown filesystem).
pub open spec fn spec_repair_plan(d: DiagnosisView) -> Option<RepairView> {
    if d.filesystem == "unknown"@ {
        None
    } else {
        Some(RepairView {
            schema_version: BOOT_SECTOR_SCHEMA_VERSION,
            target_path: d.target_path,
            filesystem: d.filesystem,
            primary_lba: d.primary_lba,
            backup_lba: d.backup_lba,
            native_commands: spec_native_commands(d.filesystem, d.target_path),
            notes: seq![
                "read-only diagnosis completed"@,
                "repair plans are preview-only until user confirmation"@,
            ],
        })
    }
}

/// A repair preview follows a diagnosis: a diagnosed filesystem that is not
/// `unknown` gets one plan, which keeps its target, filesystem and sectors,
/// names the filesystem's own read-only check and notes that nothing is
/// written before confirmation; an `unknown` one gets none.
pub proof fn lemma_preview_follows_diagnosis(d: DiagnosisView)
    ensures
        spec_repair_plan(d) is Some <==> d.filesystem != "unknown"@,
        spec_repair_plan(d) matches Some(p) ==> {
            &&& p.target_path == d.target_path
            &&& p.filesystem == d.filesystem
            &&& p.primary_lba == d.primary_lba
            &&& p.backup_lba == d.backup_lba
            &&& p.native_commands == spec_native_commands(d.filesystem, d.target_path)
            &&& p.notes == seq!["read-only diagnosis completed"@, "repair plans are preview-only until user confirmation"@]
        },
{
}

/// What previewing the boot-sector repairs of `disk` gives.
pub open spec fn preview_ok(path: Seq<char>, disk: DiskReader, r: Result<Vec<BootSectorRepairPlan>, BootSectorError>) -> bool {
    match r {
        Ok(v) => spec_diagnosis(path, disk.content(), disk.size) matches Some(d) && match spec_repair_plan(d) {
            Some(p) => v@.len() == 1 && v@[0]@ == p,
            None => v@.len() == 0,
        },
        Err(e) => spec_diagnosis(path, disk.content(), disk.size) is None && e is Disk,
    }
}

pub open spec fn repairs_view(v: Seq<BootSectorRepairPlan>) -> Seq<RepairView> {
    v.map_values(|p: BootSectorRepairPlan| p@)
}

/// The repair plans of a list of diagnoses: one per diagnosis whose
/// filesystem is known, in order.
pub open spec fn plans_for(ds: Seq<DiagnosisView>) -> Seq<RepairView>
    decreases ds.len(),
{
    if ds.len() == 0 {
        seq![]
    } else {
        plans_for(ds.drop_last()) + match spec_repair_plan(ds.last()) {
            Some(p) => seq![p],
            None => seq![],
        }
    }
}

/// Previewing repairs and diagnosing the same disk agree: both fail or
/// neither does, and the preview holds exactly the repair plans of the
/// diagnoses whose filesystem is known, in order.
pub proof fn lemma_preview_matches_diagnose(
    path: Seq<char>,
    disk: DiskReader,
    d: Result<Vec<BootSectorDiagnosis>, BootSectorError>,
    p: Result<Vec<BootSectorRepairPlan>, BootSectorError>,
)
    requires
        diagnose_ok(path, disk, d),
        preview_ok(path, disk, p),
    ensures
        d is Ok <==> p is Ok,
        d matches Ok(ds) ==> (p matches Ok(ps) && repairs_view(ps@) == plans_for(diagnoses_view(ds@))),
{
    if let (Ok(ds), Ok(ps)) = (d, p) {
        let dv = diagnoses_view(ds@);
        let x = dv[0];
        assert(dv.drop_last() =~= Seq::<DiagnosisView>::empty());
        assert(dv.last() == x);
        assert(plans_for(dv) == plans_for(Seq::<DiagnosisView>::empty()) + match spec_repair_plan(x) {
            Some(q) => seq![q],
            None => seq![],
        });
        assert(repairs_view(ps@) =~= plans_for(dv));
    }
}

/// What repairing the boot sectors of a device would run, without running
/// anything.
pub fn preview_boot_sector_repair(path: &str, disk: &DiskReader) -> (r: Result<
    Vec<BootSectorRepairPlan>,
    BootSectorError,
>)
    ensures
        preview_ok(path@, *disk, r),
{
    let diagnoses = match diagnose_boot_sectors(path, disk) {
        Ok(d) => d,
        Err(e) => {
            return Err(e);
        },
    };
    let mut plans: Vec<BootSectorRepairPlan> = Vec::new();
    assert(diagnoses_view(diagnoses@).len() == diagnoses@.len());
    let d = &diagnoses[0];
    assert(d@ == diagnoses_view(diagnoses@)[0]);
    if !str_eq(d.filesystem.as_str(), "unknown") {
        let mut notes: Vec<String> = Vec::new();
        notes.push(owned("read-only diagnosis completed"));
        notes.push(owned("repair plans are preview-only until user confirmation"));
        assert(crate::domain::strings_view(notes@) =~= seq![
            "read-only diagnosis completed"@,
            "repair plans are preview-only until user confirmation"@,
        ]);
        plans.push(BootSectorRepairPlan {
            schema_version: BOOT_SECTOR_SCHEMA_VERSION,
            target_path: d.target_path.clone(),
            filesystem: d.filesystem.clone(),
            primary_lba: d.primary_lba,
            backup_lba: d.backup_lba,
            native_commands: native_commands_for(d.filesystem.as_str(), d.target_path.as_str()),
            notes,
        });
    }
    Ok(plans)
}

} // verus!
