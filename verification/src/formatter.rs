//! Guarded planning of whole-disk formats for removable targets.
//!
//! Which tools run, and with which arguments, depends on the host system,
//! passed in as a `HostOs`. Running the commands is left to the caller,
//! which feeds each command's outcome back through `advance_format`.
use vstd::prelude::*;
use crate::domain::{AccessCapability, DiskInfo, DiskKind, DiskSource, HostOs, TargetSafety};
use crate::text::{
    chars_of, contains_char, dec, has_prefix, is_all_ascii_digits, all_ascii_digits, owned, parse_u32, push_chars,
    push_dec, push_str, spec_parse_u32, strip_prefix, strip_prefix_seq, string_of, trim_chars, trim_seq,
    trim_start_all, trim_start_matches, trim_str,
};

verus! {

#[derive(Debug)]
pub enum FormatError {
    UnsupportedPlatform,
    UnsupportedFilesystem(String),
    InvalidTarget(String),
    UnsafeTarget(String),
    ConfirmationMismatch,
    InvalidVolumeName,
    CommandUnavailable(String),
    CommandFailed { step: String, stdout: String, stderr: String },
    Io(String),
}

pub enum FormatErrorView {
    UnsupportedPlatform,
    UnsupportedFilesystem(Seq<char>),
    InvalidTarget(Seq<char>),
    UnsafeTarget(Seq<char>),
    ConfirmationMismatch,
    InvalidVolumeName,
    CommandUnavailable(Seq<char>),
    CommandFailed { step: Seq<char>, stdout: Seq<char>, stderr: Seq<char> },
    Io(Seq<char>),
}

impl View for FormatError {
    type V = FormatErrorView;

    open spec fn view(&self) -> FormatErrorView {
        match self {
            FormatError::UnsupportedPlatform => FormatErrorView::UnsupportedPlatform,
            FormatError::UnsupportedFilesystem(s) => FormatErrorView::UnsupportedFilesystem(s@),
            FormatError::InvalidTarget(s) => FormatErrorView::InvalidTarget(s@),
            FormatError::UnsafeTarget(s) => FormatErrorView::UnsafeTarget(s@),
            FormatError::ConfirmationMismatch => FormatErrorView::ConfirmationMismatch,
            FormatError::InvalidVolumeName => FormatErrorView::InvalidVolumeName,
            FormatError::CommandUnavailable(s) => FormatErrorView::CommandUnavailable(s@),
            FormatError::CommandFailed { step, stdout, stderr } => FormatErrorView::CommandFailed {
                step: step@,
                stdout: stdout@,
                stderr: stderr@,
            },
            FormatError::Io(s) => FormatErrorView::Io(s@),
        }
    }
}

#[derive(Debug, Clone, Copy, PartialEq, Eq, Structural)]
pub enum FormatFilesystem {
    Apfs,
    Exfat,
    Fat32,
    HfsPlus,
    Ntfs,
    Ext4,
}

#[derive(Debug, Clone)]
pub struct FormatFilesystemOption {
    pub value: FormatFilesystem,
    pub label: String,
    pub command_token: String,
}

pub struct OptionView {
    pub value: FormatFilesystem,
    pub label: Seq<char>,
    pub command_token: Seq<char>,
}

impl View for FormatFilesystemOption {
    type V = OptionView;

    open spec fn view(&self) -> OptionView {
        OptionView { value: self.value, label: self.label@, command_token: self.command_token@ }
    }
}

pub open spec fn options_view(v: Seq<FormatFilesystemOption>) -> Seq<OptionView> {
    v.map_values(|o: FormatFilesystemOption| o@)
}

#[derive(Debug, Clone)]
pub struct FormatDiskRequest {
    pub path: String,
    pub target: DiskInfo,
    pub filesystem: FormatFilesystem,
    pub volume_name: String,
    pub confirmation: String,
}

#[derive(Debug, Clone)]
pub struct FormatCommandStep {
    pub name: String,
    pub program: String,
    pub args: Vec<String>,
}

pub struct StepView {
    pub name: Seq<char>,
    pub program: Seq<char>,
    pub args: Seq<Seq<char>>,
}

impl View for FormatCommandStep {
    type V = StepView;

    open spec fn view(&self) -> StepView {
        StepView { name: self.name@, program: self.program@, args: crate::domain::strings_view(self.args@) }
    }
}

pub open spec fn steps_view(v: Seq<FormatCommandStep>) -> Seq<StepView> {
    v.map_values(|s: FormatCommandStep| s@)
}

#[derive(Debug, Clone)]
pub struct FormatOperationPlan {
    pub platform: String,
    pub target_path: String,
    pub target_id: String,
    pub filesystem: FormatFilesystem,
    pub volume_name: String,
    pub steps: Vec<FormatCommandStep>,
}

pub struct PlanView {
    pub platform: Seq<char>,
    pub target_path: Seq<char>,
    pub target_id: Seq<char>,
    pub filesystem: FormatFilesystem,
    pub volume_name: Seq<char>,
    pub steps: Seq<StepView>,
}

impl View for FormatOperationPlan {
    type V = PlanView;

    open spec fn view(&self) -> PlanView {
        PlanView {
            platform: self.platform@,
            target_path: self.target_path@,
            target_id: self.target_id@,
            filesystem: self.filesystem,
            volume_name: self.volume_name@,
            steps: steps_view(self.steps@),
        }
    }
}

#[derive(Debug, Clone)]
pub struct FormatDiskResult {
    pub disk_identifier: String,
    pub filesystem: FormatFilesystem,
    pub volume_name: String,
    pub message: String,
    pub status: String,
    pub stdout_summary: String,
    pub stderr_summary: String,
    pub post_check_status: String,
    pub plan: FormatOperationPlan,
}

// ---------------------------------------------------------------------------
// What each host can make

pub open spec fn opt(value: FormatFilesystem, label: Seq<char>, token: Seq<char>) -> OptionView {
    OptionView { value, label, command_token: token }
}

/// The filesystems a host's tools can create, in the order they are offered.
pub open spec fn spec_supported_filesystems(os: HostOs) -> Seq<OptionView> {
    match os {
        HostOs::Macos => seq![
            opt(FormatFilesystem::Apfs, "APFS"@, "APFS"@),
            opt(FormatFilesystem::Exfat, "ExFAT"@, "ExFAT"@),
            opt(FormatFilesystem::Fat32, "MS-DOS FAT32"@, "MS-DOS"@),
            opt(FormatFilesystem::HfsPlus, "Mac OS Extended (Journaled)"@, "JHFS+"@),
        ],
        HostOs::Linux => seq![
            opt(FormatFilesystem::Exfat, "ExFAT"@, "mkfs.exfat"@),
            opt(FormatFilesystem::Fat32, "FAT32"@, "mkfs.fat"@),
            opt(FormatFilesystem::Ext4, "ext4"@, "mkfs.ext4"@),
        ],
        HostOs::Windows => seq![
            opt(FormatFilesystem::Exfat, "ExFAT"@, "ExFAT"@),
            opt(FormatFilesystem::Fat32, "FAT32"@, "FAT32"@),
            opt(FormatFilesystem::Ntfs, "NTFS"@, "NTFS"@),
        ],
        HostOs::Other => seq![],
    }
}

fn option(value: FormatFilesystem, label: &str, token: &str) -> (o: FormatFilesystemOption)
    ensures
        o@ == opt(value, label@, token@),
{
    FormatFilesystemOption { value, label: owned(label), command_token: owned(token) }
}

pub fn platform_supported_filesystems(os: HostOs) -> (r: Vec<FormatFilesystemOption>)
    ensures
        options_view(r@) == spec_supported_filesystems(os),
{
    let mut v: Vec<FormatFilesystemOption> = Vec::new();
    match os {
        HostOs::Macos => {
            v.push(option(FormatFilesystem::Apfs, "APFS", "APFS"));
            v.push(option(FormatFilesystem::Exfat, "ExFAT", "ExFAT"));
            v.push(option(FormatFilesystem::Fat32, "MS-DOS FAT32", "MS-DOS"));
            v.push(option(FormatFilesystem::HfsPlus, "Mac OS Extended (Journaled)", "JHFS+"));
        },
        HostOs::Linux => {
            v.push(option(FormatFilesystem::Exfat, "ExFAT", "mkfs.exfat"));
            v.push(option(FormatFilesystem::Fat32, "FAT32", "mkfs.fat"));
            v.push(option(FormatFilesystem::Ext4, "ext4", "mkfs.ext4"));
        },
        HostOs::Windows => {
            v.push(option(FormatFilesystem::Exfat, "ExFAT", "ExFAT"));
            v.push(option(FormatFilesystem::Fat32, "FAT32", "FAT32"));
            v.push(option(FormatFilesystem::Ntfs, "NTFS", "NTFS"));
        },
        HostOs::Other => {},
    }
    assert(options_view(v@) =~= spec_supported_filesystems(os));
    v
}

fn copy_option(o: &FormatFilesystemOption) -> (r: FormatFilesystemOption)
    ensures
        r@ == o@,
{
    FormatFilesystemOption { value: o.value, label: o.label.clone(), command_token: o.command_token.clone() }
}

/// The host can create `fs` at all.
pub open spec fn host_makes(os: HostOs, fs: FormatFilesystem) -> bool {
    match os {
        HostOs::Macos => fs == FormatFilesystem::Apfs || fs == FormatFilesystem::HfsPlus || fs == FormatFilesystem::Exfat
            || fs == FormatFilesystem::Fat32,
        HostOs::Linux => fs == FormatFilesystem::Exfat || fs == FormatFilesystem::Fat32 || fs == FormatFilesystem::Ext4,
        HostOs::Windows => fs == FormatFilesystem::Exfat || fs == FormatFilesystem::Fat32 || fs == FormatFilesystem::Ntfs,
        HostOs::Other => false,
    }
}

/// A system disk that is external or removable and can be written.
pub open spec fn formattable_target(t: DiskInfo) -> bool {
    &&& (t.safety == TargetSafety::External || t.safety == TargetSafety::Removable)
    &&& t.source == DiskSource::System
    &&& t.kind == DiskKind::Physical
    &&& t.access == AccessCapability::ReadWrite
}

pub open spec fn spec_target_supports(os: HostOs, t: DiskInfo, fs: FormatFilesystem) -> bool {
    formattable_target(t) && host_makes(os, fs)
}

pub fn target_supports_filesystem(os: HostOs, target: &DiskInfo, filesystem: &FormatFilesystem) -> (r: bool)
    ensures
        r == spec_target_supports(os, *target, *filesystem),
{
    if !(target.safety == TargetSafety::External || target.safety == TargetSafety::Removable) {
        return false;
    }
    if target.source != DiskSource::System || target.kind != DiskKind::Physical {
        return false;
    }
    if target.access != AccessCapability::ReadWrite {
        return false;
    }
    let fs = *filesystem;
    match os {
        HostOs::Macos => fs == FormatFilesystem::Apfs || fs == FormatFilesystem::HfsPlus || fs == FormatFilesystem::Exfat
            || fs == FormatFilesystem::Fat32,
        HostOs::Linux => fs == FormatFilesystem::Exfat || fs == FormatFilesystem::Fat32 || fs == FormatFilesystem::Ext4,
        HostOs::Windows => fs == FormatFilesystem::Exfat || fs == FormatFilesystem::Fat32 || fs == FormatFilesystem::Ntfs,
        HostOs::Other => false,
    }
}

/// The options offered for a target (all of the host's without one).
pub open spec fn spec_filesystem_options(os: HostOs, target: Option<DiskInfo>) -> Seq<OptionView> {
    match target {
        Some(t) => spec_supported_filesystems(os).filter(|o: OptionView| spec_target_supports(os, t, o.value)),
        None => spec_supported_filesystems(os),
    }
}

pub fn format_filesystem_options(os: HostOs, target: Option<&DiskInfo>) -> (r: Vec<FormatFilesystemOption>)
    ensures
        options_view(r@) == spec_filesystem_options(
            os,
            match target {
                Some(t) => Some(*t),
                None => None,
            },
        ),
{
    let all = platform_supported_filesystems(os);
    match target {
        None => all,
        Some(t) => {
            let ghost sv = options_view(all@);
            let ghost keep = |o: OptionView| spec_target_supports(os, *t, o.value);
            let mut out: Vec<FormatFilesystemOption> = Vec::new();
            let mut i: usize = 0;
            while i < all.len()
                invariant
                    i <= all.len(),
                    sv == options_view(all@),
                    keep == (|o: OptionView| spec_target_supports(os, *t, o.value)),
                    options_view(out@) == sv.take(i as int).filter(keep),
                decreases all.len() - i,
            {
                proof {
                    assert(sv.take(i + 1 as int).drop_last() =~= sv.take(i as int));
                    reveal(Seq::filter);
                }
                if target_supports_filesystem(os, t, &all[i].value) {
                    let o = copy_option(&all[i]);
                    out.push(o);
                    proof {
                        assert(options_view(out@) =~= sv.take(i as int).filter(keep).push(sv[i as int]));
                    }
                }
                i = i + 1;
            }
            proof {
                assert(sv.take(all.len() as int) =~= sv);
            }
            out
        },
    }
}

// ---------------------------------------------------------------------------
// Checks on a request

pub open spec fn spec_validate_target(t: DiskInfo) -> Option<FormatErrorView> {
    if t.kind != DiskKind::Physical {
        Some(FormatErrorView::InvalidTarget(t.path@))
    } else if t.source != DiskSource::System {
        Some(FormatErrorView::UnsafeTarget(t.path@))
    } else if !(t.safety == TargetSafety::External || t.safety == TargetSafety::Removable) {
        Some(FormatErrorView::UnsafeTarget(t.path@))
    } else if t.access != AccessCapability::ReadWrite || !t.readable || !t.writable {
        Some(FormatErrorView::UnsafeTarget(t.path@))
    } else {
        None
    }
}

/// Only a physical, external or removable, writable system disk may be
/// formatted.
pub fn validate_target(target: &DiskInfo) -> (r: Result<(), FormatError>)
    ensures
        match r {
            Ok(()) => spec_validate_target(*target) is None,
            Err(e) => spec_validate_target(*target) == Some(e@),
        },
{
    if target.kind != DiskKind::Physical {
        return Err(FormatError::InvalidTarget(target.path.clone()));
    }
    if target.source != DiskSource::System {
        return Err(FormatError::UnsafeTarget(target.path.clone()));
    }
    if !(target.safety == TargetSafety::External || target.safety == TargetSafety::Removable) {
        return Err(FormatError::UnsafeTarget(target.path.clone()));
    }
    if target.access != AccessCapability::ReadWrite || !target.readable || !target.writable {
        return Err(FormatError::UnsafeTarget(target.path.clone()));
    }
    Ok(())
}

pub open spec fn spec_validate_confirmation(confirmation: Seq<char>, t: DiskInfo) -> Option<FormatErrorView> {
    let expected = trim_seq(t.platform_id@);
    if expected.len() == 0 {
        Some(FormatErrorView::InvalidTarget(t.path@))
    } else if trim_seq(confirmation) == expected || trim_seq(confirmation) == trim_seq(t.path@) {
        None
    } else {
        Some(FormatErrorView::ConfirmationMismatch)
    }
}

/// The typed confirmation must name the target, by its platform id or its
/// path (surrounding whitespace ignored).
pub fn validate_confirmation(confirmation: &str, target: &DiskInfo) -> (r: Result<(), FormatError>)
    ensures
        match r {
            Ok(()) => spec_validate_confirmation(confirmation@, *target) is None,
            Err(e) => spec_validate_confirmation(confirmation@, *target) == Some(e@),
        },
{
    let expected = trim_str(target.platform_id.as_str());
    if expected.len() == 0 {
        return Err(FormatError::InvalidTarget(target.path.clone()));
    }
    let c = trim_str(confirmation);
    let p = trim_str(target.path.as_str());
    if crate::text::slice_eq(&c, &expected) || crate::text::slice_eq(&c, &p) {
        Ok(())
    } else {
        Err(FormatError::ConfirmationMismatch)
    }
}

/// A usable volume name: not blank, and none of `/ : ' " \`.
pub open spec fn volume_name_ok(t: Seq<char>) -> bool {
    &&& t.len() > 0
    &&& !t.contains('/')
    &&& !t.contains(':')
    &&& !t.contains('\'')
    &&& !t.contains('"')
    &&& !t.contains('\\')
}

pub fn validate_volume_name(name: &str) -> (r: Result<String, FormatError>)
    ensures
        match r {
            Ok(v) => volume_name_ok(trim_seq(name@)) && v@ == trim_seq(name@),
            Err(e) => !volume_name_ok(trim_seq(name@)) && e@ == FormatErrorView::InvalidVolumeName,
        },
{
    let t = trim_str(name);
    if t.len() == 0 || contains_char(&t, '/') || contains_char(&t, ':') || contains_char(&t, '\'') || contains_char(
        &t,
        '"',
    ) || contains_char(&t, '\\') {
        return Err(FormatError::InvalidVolumeName);
    }
    Ok(string_of(&t))
}

// ---------------------------------------------------------------------------
// Naming the target for the host's tools

pub open spec fn spec_normalize_macos(platform_id: Seq<char>, path: Seq<char>) -> Result<Seq<char>, FormatErrorView> {
    let candidate = trim_start_all(trim_start_all(trim_seq(platform_id), "/dev/"@), "r"@);
    if has_prefix(candidate, "disk"@) && !candidate.contains('s') {
        Ok(candidate)
    } else {
        let trimmed = trim_seq(path);
        let id = match strip_prefix_seq(trimmed, "/dev/rdisk"@) {
            Some(r) => Some(r),
            None => match strip_prefix_seq(trimmed, "/dev/disk"@) {
                Some(r) => Some(r),
                None => strip_prefix_seq(trimmed, "disk"@),
            },
        };
        match id {
            None => Err(FormatErrorView::InvalidTarget(path)),
            Some(id) => if id.len() == 0 || id.contains('s') || !all_ascii_digits(id) {
                Err(FormatErrorView::InvalidTarget(path))
            } else {
                Ok("disk"@ + id)
            },
        }
    }
}

/// The whole-disk identifier `diskN` that `diskutil` takes.
pub fn normalize_macos_disk_identifier(platform_id: &str, path: &str) -> (r: Result<String, FormatError>)
    ensures
        match r {
            Ok(s) => spec_normalize_macos(platform_id@, path@) == Ok::<Seq<char>, FormatErrorView>(s@),
            Err(e) => spec_normalize_macos(platform_id@, path@) == Err::<Seq<char>, FormatErrorView>(e@),
        },
{
    let a = trim_str(platform_id);
    let b = trim_start_matches(&a, "/dev/");
    let candidate = trim_start_matches(&b, "r");
    if starts_with_disk(&candidate) && !contains_char(&candidate, 's') {
        return Ok(string_of(&candidate));
    }
    let trimmed = trim_str(path);
    let id = match strip_prefix(&trimmed, "/dev/rdisk") {
        Some(r) => r,
        None => match strip_prefix(&trimmed, "/dev/disk") {
            Some(r) => r,
            None => match strip_prefix(&trimmed, "disk") {
                Some(r) => r,
                None => {
                    return Err(FormatError::InvalidTarget(owned(path)));
                },
            },
        },
    };
    if id.len() == 0 || contains_char(&id, 's') || !is_all_ascii_digits(&id) {
        return Err(FormatError::InvalidTarget(owned(path)));
    }
    let mut out: Vec<char> = Vec::new();
    push_str(&mut out, "disk");
    push_chars(&mut out, &id);
    Ok(string_of(&out))
}

fn starts_with_disk(s: &[char]) -> (r: bool)
    ensures
        r == has_prefix(s@, "disk"@),
{
    crate::text::starts_with(s, "disk")
}

pub open spec fn spec_normalize_linux(path: Seq<char>, platform_id: Seq<char>) -> Result<Seq<char>, FormatErrorView> {
    let t = trim_seq(platform_id);
    let candidate = match strip_prefix_seq(t, "/dev/"@) {
        Some(r) => r,
        None => t,
    };
    if candidate.len() > 0 {
        Ok(candidate)
    } else {
        match strip_prefix_seq(trim_seq(path), "/dev/"@) {
            None => Err(FormatErrorView::InvalidTarget(path)),
            Some(id) => if id.len() == 0 {
                Err(FormatErrorView::InvalidTarget(path))
            } else {
                Ok(id)
            },
        }
    }
}

/// The device name (`sdb`, `nvme0n1`) the Linux tools are given.
pub fn normalize_linux_device_name(path: &str, platform_id: &str) -> (r: Result<String, FormatError>)
    ensures
        match r {
            Ok(s) => spec_normalize_linux(path@, platform_id@) == Ok::<Seq<char>, FormatErrorView>(s@),
            Err(e) => spec_normalize_linux(path@, platform_id@) == Err::<Seq<char>, FormatErrorView>(e@),
        },
{
    let t = trim_str(platform_id);
    let candidate = match strip_prefix(&t, "/dev/") {
        Some(r) => r,
        None => t,
    };
    if candidate.len() > 0 {
        return Ok(string_of(&candidate));
    }
    let trimmed = trim_str(path);
    match strip_prefix(&trimmed, "/dev/") {
        None => Err(FormatError::InvalidTarget(owned(path))),
        Some(id) => if id.len() == 0 {
            Err(FormatError::InvalidTarget(owned(path)))
        } else {
            Ok(string_of(&id))
        },
    }
}

pub open spec fn spec_normalize_windows(platform_id: Seq<char>) -> Result<u32, FormatErrorView> {
    let cleaned = trim_seq(
        trim_start_all(
            trim_start_all(trim_start_all(trim_seq(platform_id), "\\\\.\\PhysicalDrive"@), "physicaldrive"@),
            "PhysicalDrive"@,
        ),
    );
    match spec_parse_u32(cleaned) {
        Some(n) => Ok(n),
        None => Err(FormatErrorView::InvalidTarget(platform_id)),
    }
}

/// The disk number in `\\.\PhysicalDriveN`, `PhysicalDriveN` or `N`.
pub fn normalize_windows_disk_number(platform_id: &str) -> (r: Result<u32, FormatError>)
    ensures
        match r {
            Ok(n) => spec_normalize_windows(platform_id@) == Ok::<u32, FormatErrorView>(n),
            Err(e) => spec_normalize_windows(platform_id@) == Err::<u32, FormatErrorView>(e@),
        },
{
    let a = trim_str(platform_id);
    let b = trim_start_matches(&a, "\\\\.\\PhysicalDrive");
    let c = trim_start_matches(&b, "physicaldrive");
    let d = trim_start_matches(&c, "PhysicalDrive");
    let cleaned = trim_chars(&d);
    match parse_u32(&cleaned) {
        Some(n) => Ok(n),
        None => Err(FormatError::InvalidTarget(owned(platform_id))),
    }
}

pub open spec fn spec_target_identifier(os: HostOs, t: DiskInfo) -> Result<Seq<char>, FormatErrorView> {
    match os {
        HostOs::Macos => spec_normalize_macos(t.platform_id@, t.path@),
        HostOs::Linux => spec_normalize_linux(t.path@, t.platform_id@),
        HostOs::Windows => match spec_normalize_windows(t.platform_id@) {
            Ok(n) => Ok("PhysicalDrive"@ + dec(n as nat)),
            Err(e) => Err(e),
        },
        HostOs::Other => Err(FormatErrorView::UnsupportedPlatform),
    }
}

pub fn format_target_identifier(os: HostOs, target: &DiskInfo) -> (r: Result<String, FormatError>)
    ensures
        match r {
            Ok(s) => spec_target_identifier(os, *target) == Ok::<Seq<char>, FormatErrorView>(s@),
            Err(e) => spec_target_identifier(os, *target) == Err::<Seq<char>, FormatErrorView>(e@),
        },
{
    match os {
        HostOs::Macos => normalize_macos_disk_identifier(target.platform_id.as_str(), target.path.as_str()),
        HostOs::Linux => normalize_linux_device_name(target.path.as_str(), target.platform_id.as_str()),
        HostOs::Windows => match normalize_windows_disk_number(target.platform_id.as_str()) {
            Ok(n) => {
                let mut v: Vec<char> = Vec::new();
                push_str(&mut v, "PhysicalDrive");
                push_dec(&mut v, n as u64);
                Ok(string_of(&v))
            },
            Err(e) => Err(e),
        },
        HostOs::Other => Err(FormatError::UnsupportedPlatform),
    }
}

pub open spec fn spec_windows_disk_number(t: DiskInfo) -> Result<u32, FormatErrorView> {
    match spec_normalize_windows(t.platform_id@) {
        Ok(n) => Ok(n),
        Err(_) => spec_normalize_windows(t.path@),
    }
}

pub fn windows_disk_number(target: &DiskInfo) -> (r: Result<u32, FormatError>)
    ensures
        match r {
            Ok(n) => spec_windows_disk_number(*target) == Ok::<u32, FormatErrorView>(n),
            Err(e) => spec_windows_disk_number(*target) == Err::<u32, FormatErrorView>(e@),
        },
{
    match normalize_windows_disk_number(target.platform_id.as_str()) {
        Ok(n) => Ok(n),
        Err(_) => normalize_windows_disk_number(target.path.as_str()),
    }
}

// ---------------------------------------------------------------------------
// The commands of a format

pub open spec fn spec_command_token(os: HostOs, fs: FormatFilesystem) -> Seq<char> {
    match (os, fs) {
        (HostOs::Macos, FormatFilesystem::Apfs) => "APFS"@,
        (HostOs::Macos, FormatFilesystem::Exfat) => "ExFAT"@,
        (HostOs::Macos, FormatFilesystem::Fat32) => "MS-DOS"@,
        (HostOs::Macos, FormatFilesystem::HfsPlus) => "JHFS+"@,
        (HostOs::Linux, FormatFilesystem::Exfat) => "mkfs.exfat"@,
        (HostOs::Linux, FormatFilesystem::Fat32) => "mkfs.fat"@,
        (HostOs::Linux, FormatFilesystem::Ext4) => "mkfs.ext4"@,
        (HostOs::Windows, FormatFilesystem::Exfat) => "ExFAT"@,
        (HostOs::Windows, FormatFilesystem::Fat32) => "FAT32"@,
        (HostOs::Windows, FormatFilesystem::Ntfs) => "NTFS"@,
        _ => ""@,
    }
}

/// The host tool's name for a filesystem (empty where it has none).
pub fn filesystem_command_token(os: HostOs, filesystem: &FormatFilesystem) -> (r: &'static str)
    ensures
        r@ == spec_command_token(os, *filesystem),
{
    match (os, *filesystem) {
        (HostOs::Macos, FormatFilesystem::Apfs) => "APFS",
        (HostOs::Macos, FormatFilesystem::Exfat) => "ExFAT",
        (HostOs::Macos, FormatFilesystem::Fat32) => "MS-DOS",
        (HostOs::Macos, FormatFilesystem::HfsPlus) => "JHFS+",
        (HostOs::Linux, FormatFilesystem::Exfat) => "mkfs.exfat",
        (HostOs::Linux, FormatFilesystem::Fat32) => "mkfs.fat",
        (HostOs::Linux, FormatFilesystem::Ext4) => "mkfs.ext4",
        (HostOs::Windows, FormatFilesystem::Exfat) => "ExFAT",
        (HostOs::Windows, FormatFilesystem::Fat32) => "FAT32",
        (HostOs::Windows, FormatFilesystem::Ntfs) => "NTFS",
        _ => "",
    }
}

/// Arguments of the Linux `mkfs.*` tool for a filesystem.
pub open spec fn spec_filesystem_args(fs: FormatFilesystem, volume: Seq<char>, path: Seq<char>) -> Seq<Seq<char>> {
    match fs {
        FormatFilesystem::Exfat => seq!["-n"@, volume, path],
        FormatFilesystem::Fat32 => seq!["-F"@, "32"@, "-n"@, volume, path],
        FormatFilesystem::Ext4 => seq!["-F"@, "-L"@, volume, path],
        FormatFilesystem::HfsPlus => seq!["-v"@, volume, path],
        _ => seq![volume, path],
    }
}

pub fn filesystem_args(filesystem: &FormatFilesystem, volume_name: &str, target_path: &str) -> (r: Vec<String>)
    ensures
        crate::domain::strings_view(r@) == spec_filesystem_args(*filesystem, volume_name@, target_path@),
{
    let mut v: Vec<String> = Vec::new();
    match *filesystem {
        FormatFilesystem::Exfat => {
            v.push(owned("-n"));
        },
        FormatFilesystem::Fat32 => {
            v.push(owned("-F"));
            v.push(owned("32"));
            v.push(owned("-n"));
        },
        FormatFilesystem::Ext4 => {
            v.push(owned("-F"));
            v.push(owned("-L"));
        },
        FormatFilesystem::HfsPlus => {
            v.push(owned("-v"));
        },
        _ => {},
    }
    v.push(owned(volume_name));
    v.push(owned(target_path));
    assert(crate::domain::strings_view(v@) =~= spec_filesystem_args(*filesystem, volume_name@, target_path@));
    v
}

pub open spec fn windows_fs_name(fs: FormatFilesystem) -> Seq<char> {
    match fs {
        FormatFilesystem::Exfat => "exFAT"@,
        FormatFilesystem::Fat32 => "FAT32"@,
        FormatFilesystem::Ntfs => "NTFS"@,
        _ => "exFAT"@,
    }
}

/// The PowerShell script that partitions and formats a Windows disk.
pub open spec fn spec_windows_format_script(n: u32, fs: FormatFilesystem, volume: Seq<char>) -> Seq<char> {
    let d = dec(n as nat);
    "$disk = Get-Disk -Number "@ + d + "; if ($disk.IsOffline) { Set-Disk -Number "@ + d
        + " -IsOffline $false -ErrorAction SilentlyContinue }; Initialize-Disk -Number "@ + d
        + " -PartitionStyle GPT -ErrorAction SilentlyContinue | Out-Null; $partition = New-Partition -DiskNumber "@
        + d + " -UseMaximumSize -AssignDriveLetter -ErrorAction Stop; Format-Volume -Partition $partition -FileSystem "@
        + windows_fs_name(fs) + " -NewFileSystemLabel '"@ + volume + "' -Confirm:$false -ErrorAction Stop | Out-Null"@
}

pub fn windows_format_script(disk_number: u32, filesystem: &FormatFilesystem, volume_name: &str) -> (r: String)
    ensures
        r@ == spec_windows_format_script(disk_number, *filesystem, volume_name@),
{
    let fs_name = match *filesystem {
        FormatFilesystem::Exfat => "exFAT",
        FormatFilesystem::Fat32 => "FAT32",
        FormatFilesystem::Ntfs => "NTFS",
        _ => "exFAT",
    };
    let n = disk_number as u64;
    let mut v: Vec<char> = Vec::new();
    push_str(&mut v, "$disk = Get-Disk -Number ");
    push_dec(&mut v, n);
    push_str(&mut v, "; if ($disk.IsOffline) { Set-Disk -Number ");
    push_dec(&mut v, n);
    push_str(&mut v, " -IsOffline $false -ErrorAction SilentlyContinue }; Initialize-Disk -Number ");
    push_dec(&mut v, n);
    push_str(&mut v, " -PartitionStyle GPT -ErrorAction SilentlyContinue | Out-Null; $partition = New-Partition -DiskNumber ");
    push_dec(&mut v, n);
    push_str(&mut v, " -UseMaximumSize -AssignDriveLetter -ErrorAction Stop; Format-Volume -Partition $partition -FileSystem ");
    push_str(&mut v, fs_name);
    push_str(&mut v, " -NewFileSystemLabel '");
    push_str(&mut v, volume_name);
    push_str(&mut v, "' -Confirm:$false -ErrorAction Stop | Out-Null");
    string_of(&v)
}

pub open spec fn sv(name: Seq<char>, program: Seq<char>, args: Seq<Seq<char>>) -> StepView {
    StepView { name, program, args }
}

/// The unmount, format, verify and rescan commands for a target.
pub open spec fn spec_build_steps(
    os: HostOs,
    t: DiskInfo,
    target_id: Seq<char>,
    target_path: Seq<char>,
    token: Seq<char>,
    volume: Seq<char>,
    fs: FormatFilesystem,
) -> Result<Seq<StepView>, FormatErrorView> {
    match os {
        HostOs::Macos => Ok(seq![
            sv("unmount"@, "diskutil"@, seq!["unmountDisk"@, "force"@, target_id]),
            sv("format"@, "diskutil"@, seq!["eraseDisk"@, token, volume, target_id]),
            sv("verify"@, "diskutil"@, seq!["verifyDisk"@, target_id]),
            sv("rescan"@, "diskutil"@, seq!["info"@, "-plist"@, target_id]),
        ]),
        HostOs::Linux => Ok(seq![
            sv("unmount"@, "umount"@, seq![target_path]),
            sv("format"@, token, spec_filesystem_args(fs, volume, target_path)),
            sv("verify"@, "blkid"@, seq!["-o"@, "value"@, "-s"@, "TYPE"@, target_path]),
            sv("rescan"@, "partprobe"@, seq![target_path]),
        ]),
        HostOs::Windows => match spec_windows_disk_number(t) {
            Err(e) => Err(e),
            Ok(n) => {
                let d = dec(n as nat);
                Ok(seq![
                    sv("unmount"@, "powershell"@, seq!["-NoProfile"@, "-Command"@,
                        "Set-Disk -Number "@ + d + " -IsOffline $true -ErrorAction Stop"@]),
                    sv("format"@, "powershell"@, seq!["-NoProfile"@, "-Command"@,
                        spec_windows_format_script(n, fs, volume)]),
                    sv("verify"@, "powershell"@, seq!["-NoProfile"@, "-Command"@,
                        "Get-Volume -DiskNumber "@ + d + " | Select-Object -ExpandProperty FileSystem"@]),
                    sv("rescan"@, "powershell"@, seq!["-NoProfile"@, "-Command"@, "Update-HostStorageCache"@]),
                ])
            },
        },
        HostOs::Other => Err(FormatErrorView::UnsupportedPlatform),
    }
}

fn step(name: &str, program: &str, args: Vec<String>) -> (r: FormatCommandStep)
    ensures
        r@ == sv(name@, program@, crate::domain::strings_view(args@)),
{
    FormatCommandStep { name: owned(name), program: owned(program), args }
}

fn args1(a: &str) -> (r: Vec<String>)
    ensures
        crate::domain::strings_view(r@) == seq![a@],
{
    let mut v: Vec<String> = Vec::new();
    v.push(owned(a));
    assert(crate::domain::strings_view(v@) =~= seq![a@]);
    v
}

fn args2(a: &str, b: &str) -> (r: Vec<String>)
    ensures
        crate::domain::strings_view(r@) == seq![a@, b@],
{
    let mut v: Vec<String> = Vec::new();
    v.push(owned(a));
    v.push(owned(b));
    assert(crate::domain::strings_view(v@) =~= seq![a@, b@]);
    v
}

fn args3(a: &str, b: &str, c: &str) -> (r: Vec<String>)
    ensures
        crate::domain::strings_view(r@) == seq![a@, b@, c@],
{
    let mut v: Vec<String> = Vec::new();
    v.push(owned(a));
    v.push(owned(b));
    v.push(owned(c));
    assert(crate::domain::strings_view(v@) =~= seq![a@, b@, c@]);
    v
}

fn args4(a: &str, b: &str, c: &str, d: &str) -> (r: Vec<String>)
    ensures
        crate::domain::strings_view(r@) == seq![a@, b@, c@, d@],
{
    let mut v: Vec<String> = Vec::new();
    v.push(owned(a));
    v.push(owned(b));
    v.push(owned(c));
    v.push(owned(d));
    assert(crate::domain::strings_view(v@) =~= seq![a@, b@, c@, d@]);
    v
}

fn args5(a: &str, b: &str, c: &str, d: &str, e: &str) -> (r: Vec<String>)
    ensures
        crate::domain::strings_view(r@) == seq![a@, b@, c@, d@, e@],
{
    let mut v: Vec<String> = Vec::new();
    v.push(owned(a));
    v.push(owned(b));
    v.push(owned(c));
    v.push(owned(d));
    v.push(owned(e));
    assert(crate::domain::strings_view(v@) =~= seq![a@, b@, c@, d@, e@]);
    v
}

fn powershell_args(command: String) -> (r: Vec<String>)
    ensures
        crate::domain::strings_view(r@) == seq!["-NoProfile"@, "-Command"@, command@],
{
    let mut v: Vec<String> = Vec::new();
    v.push(owned("-NoProfile"));
    v.push(owned("-Command"));
    v.push(command);
    assert(crate::domain::strings_view(v@) =~= seq!["-NoProfile"@, "-Command"@, command@]);
    v
}

fn text_around(head: &str, n: u32, tail: &str) -> (r: String)
    ensures
        r@ == head@ + dec(n as nat) + tail@,
{
    let mut v: Vec<char> = Vec::new();
    push_str(&mut v, head);
    push_dec(&mut v, n as u64);
    push_str(&mut v, tail);
    string_of(&v)
}

pub fn build_steps(
    os: HostOs,
    target: &DiskInfo,
    target_id: &str,
    target_path: &str,
    filesystem_token: &str,
    volume_name: &str,
    filesystem: &FormatFilesystem,
) -> (r: Result<Vec<FormatCommandStep>, FormatError>)
    ensures
        match r {
            Ok(v) => spec_build_steps(os, *target, target_id@, target_path@, filesystem_token@, volume_name@, *filesystem)
                == Ok::<Seq<StepView>, FormatErrorView>(steps_view(v@)),
            Err(e) => spec_build_steps(os, *target, target_id@, target_path@, filesystem_token@, volume_name@, *filesystem)
                == Err::<Seq<StepView>, FormatErrorView>(e@),
        },
{
    let mut steps: Vec<FormatCommandStep> = Vec::new();
    match os {
        HostOs::Macos => {
            steps.push(step("unmount", "diskutil", args3("unmountDisk", "force", target_id)));
            steps.push(step("format", "diskutil", args4("eraseDisk", filesystem_token, volume_name, target_id)));
            steps.push(step("verify", "diskutil", args2("verifyDisk", target_id)));
            steps.push(step("rescan", "diskutil", args3("info", "-plist", target_id)));
        },
        HostOs::Linux => {
            steps.push(step("unmount", "umount", args1(target_path)));
            steps.push(step("format", filesystem_token, filesystem_args(filesystem, volume_name, target_path)));
            steps.push(step("verify", "blkid", args5("-o", "value", "-s", "TYPE", target_path)));
            steps.push(step("rescan", "partprobe", args1(target_path)));
        },
        HostOs::Windows => {
            let n = match windows_disk_number(target) {
                Ok(n) => n,
                Err(e) => {
                    return Err(e);
                },
            };
            steps.push(step("unmount", "powershell", powershell_args(
                text_around("Set-Disk -Number ", n, " -IsOffline $true -ErrorAction Stop"),
            )));
            steps.push(step("format", "powershell", powershell_args(
                windows_format_script(n, filesystem, volume_name),
            )));
            steps.push(step("verify", "powershell", powershell_args(
                text_around("Get-Volume -DiskNumber ", n, " | Select-Object -ExpandProperty FileSystem"),
            )));
            steps.push(step("rescan", "powershell", powershell_args(owned("Update-HostStorageCache"))));
        },
        HostOs::Other => {
            return Err(FormatError::UnsupportedPlatform);
        },
    }
    proof {
        let r = spec_build_steps(os, *target, target_id@, target_path@, filesystem_token@, volume_name@, *filesystem);
        assert(r matches Ok(sv) && steps_view(steps@) =~= sv);
    }
    Ok(steps)
}

// ---------------------------------------------------------------------------
// The plan

/// The `Debug` name of a filesystem.
pub open spec fn fs_debug_name(fs: FormatFilesystem) -> Seq<char> {
    match fs {
        FormatFilesystem::Apfs => "Apfs"@,
        FormatFilesystem::Exfat => "Exfat"@,
        FormatFilesystem::Fat32 => "Fat32"@,
        FormatFilesystem::HfsPlus => "HfsPlus"@,
        FormatFilesystem::Ntfs => "Ntfs"@,
        FormatFilesystem::Ext4 => "Ext4"@,
    }
}

fn fs_debug_label(fs: FormatFilesystem) -> (r: &'static str)
    ensures
        r@ == fs_debug_name(fs),
{
    match fs {
        FormatFilesystem::Apfs => "Apfs",
        FormatFilesystem::Exfat => "Exfat",
        FormatFilesystem::Fat32 => "Fat32",
        FormatFilesystem::HfsPlus => "HfsPlus",
        FormatFilesystem::Ntfs => "Ntfs",
        FormatFilesystem::Ext4 => "Ext4",
    }
}

/// The host's name as Rust's `std::env::consts::OS` spells it.
pub open spec fn os_name(os: HostOs) -> Seq<char> {
    match os {
        HostOs::Macos => "macos"@,
        HostOs::Linux => "linux"@,
        HostOs::Windows => "windows"@,
        HostOs::Other => "other"@,
    }
}

pub fn platform_name(os: HostOs) -> (r: &'static str)
    ensures
        r@ == os_name(os),
{
    match os {
        HostOs::Macos => "macos",
        HostOs::Linux => "linux",
        HostOs::Windows => "windows",
        HostOs::Other => "other",
    }
}

/// What `build_format_plan` gives for a request on a host.
pub open spec fn spec_build_format_plan(
    os: HostOs,
    t: DiskInfo,
    fs: FormatFilesystem,
    volume: Seq<char>,
    confirmation: Seq<char>,
) -> Result<PlanView, FormatErrorView> {
    match spec_validate_target(t) {
        Some(e) => Err(e),
        None => match spec_validate_confirmation(confirmation, t) {
            Some(e) => Err(e),
            None => if !volume_name_ok(trim_seq(volume)) {
                Err(FormatErrorView::InvalidVolumeName)
            } else if !spec_target_supports(os, t, fs) {
                Err(FormatErrorView::UnsupportedFilesystem(fs_debug_name(fs)))
            } else {
                match spec_target_identifier(os, t) {
                    Err(e) => Err(e),
                    Ok(id) => match spec_build_steps(
                        os,
                        t,
                        id,
                        t.path@,
                        spec_command_token(os, fs),
                        trim_seq(volume),
                        fs,
                    ) {
                        Err(e) => Err(e),
                        Ok(steps) => Ok(PlanView {
                            platform: os_name(os),
                            target_path: t.path@,
                            target_id: id,
                            filesystem: fs,
                            volume_name: trim_seq(volume),
                            steps,
                        }),
                    },
                }
            },
        },
    }
}

/// Checks a format request and lays out the commands that carry it out.
pub fn build_format_plan(os: HostOs, request: &FormatDiskRequest) -> (r: Result<FormatOperationPlan, FormatError>)
    ensures
        match r {
            Ok(p) => spec_build_format_plan(
                os,
                request.target,
                request.filesystem,
                request.volume_name@,
                request.confirmation@,
            ) == Ok::<PlanView, FormatErrorView>(p@),
            Err(e) => spec_build_format_plan(
                os,
                request.target,
                request.filesystem,
                request.volume_name@,
                request.confirmation@,
            ) == Err::<PlanView, FormatErrorView>(e@),
        },
{
    match validate_target(&request.target) {
        Ok(()) => {},
        Err(e) => {
            return Err(e);
        },
    }
    match validate_confirmation(request.confirmation.as_str(), &request.target) {
        Ok(()) => {},
        Err(e) => {
            return Err(e);
        },
    }
    let volume_name = match validate_volume_name(request.volume_name.as_str()) {
        Ok(v) => v,
        Err(e) => {
            return Err(e);
        },
    };
    if !target_supports_filesystem(os, &request.target, &request.filesystem) {
        return Err(FormatError::UnsupportedFilesystem(owned(fs_debug_label(request.filesystem))));
    }
    let target_id = match format_target_identifier(os, &request.target) {
        Ok(id) => id,
        Err(e) => {
            return Err(e);
        },
    };
    let target_path = request.target.path.clone();
    let token = filesystem_command_token(os, &request.filesystem);
    let steps = match build_steps(
        os,
        &request.target,
        target_id.as_str(),
        target_path.as_str(),
        token,
        volume_name.as_str(),
        &request.filesystem,
    ) {
        Ok(s) => s,
        Err(e) => {
            return Err(e);
        },
    };
    Ok(FormatOperationPlan {
        platform: owned(platform_name(os)),
        target_path,
        target_id,
        filesystem: request.filesystem,
        volume_name,
        steps,
    })
}

/// The plan a request would run, without running anything.
pub fn preview_format_plan(os: HostOs, request: &FormatDiskRequest) -> (r: Result<FormatOperationPlan, FormatError>)
    ensures
        match r {
            Ok(p) => spec_build_format_plan(
                os,
                request.target,
                request.filesystem,
                request.volume_name@,
                request.confirmation@,
            ) == Ok::<PlanView, FormatErrorView>(p@),
            Err(e) => spec_build_format_plan(
                os,
                request.target,
                request.filesystem,
                request.volume_name@,
                request.confirmation@,
            ) == Err::<PlanView, FormatErrorView>(e@),
        },
{
    build_format_plan(os, request)
}

/// A plan is only ever laid out for a physical system disk that is external
/// or removable, readable and writable, that the confirmation names, with a
/// volume name free of path and quote characters and a filesystem that the
/// host can make; it holds the unmount, format, verify and rescan commands,
/// in that order.
pub proof fn lemma_format_plan_is_guarded(
    os: HostOs,
    t: DiskInfo,
    fs: FormatFilesystem,
    volume: Seq<char>,
    confirmation: Seq<char>,
    plan: PlanView,
)
    requires
        spec_build_format_plan(os, t, fs, volume, confirmation) == Ok::<PlanView, FormatErrorView>(plan),
    ensures
        t.kind == DiskKind::Physical,
        t.source == DiskSource::System,
        t.safety == TargetSafety::External || t.safety == TargetSafety::Removable,
        t.access == AccessCapability::ReadWrite && t.readable && t.writable,
        trim_seq(t.platform_id@).len() > 0,
        trim_seq(confirmation) == trim_seq(t.platform_id@) || trim_seq(confirmation) == trim_seq(t.path@),
        volume_name_ok(plan.volume_name),
        host_makes(os, fs),
        plan.steps.len() == 4,
        plan.steps[0].name == "unmount"@,
        plan.steps[1].name == "format"@,
        plan.steps[2].name == "verify"@,
        plan.steps[3].name == "rescan"@,
{
}

// ---------------------------------------------------------------------------
// Summaries of command output

/// Some prefix of `t` takes exactly `m` bytes of UTF-8.
pub open spec fn char_boundary(t: Seq<char>, m: nat) -> bool {
    exists|k: int| 0 <= k <= t.len() && #[trigger] crate::text::utf8_len(t.take(k)) == m
}

pub open spec fn sat_sub3(m: nat) -> nat {
    if m >= 3 {
        (m - 3) as nat
    } else {
        0
    }
}

/// `summarize_text` cuts `text` at a character boundary (or not at all).
pub open spec fn summary_cuts_cleanly(text: Seq<char>, max_len: nat) -> bool {
    let t = trim_seq(text);
    crate::text::utf8_len(t) <= max_len || char_boundary(t, sat_sub3(max_len))
}

/// The trimmed text, cut to `max_len - 3` bytes followed by `...` when it
/// takes more than `max_len` bytes.
pub open spec fn spec_summarize(text: Seq<char>, max_len: nat) -> Seq<char> {
    let t = trim_seq(text);
    if crate::text::utf8_len(t) <= max_len {
        t
    } else {
        let k = choose|k: int| 0 <= k <= t.len() && #[trigger] crate::text::utf8_len(t.take(k)) == sat_sub3(max_len);
        t.take(k) + "..."@
    }
}

proof fn lemma_utf8_len_take_mono(t: Seq<char>, a: int, b: int)
    requires
        0 <= a <= b <= t.len(),
    ensures
        crate::text::utf8_len(t.take(a)) + (b - a) <= crate::text::utf8_len(t.take(b)),
    decreases b - a,
{
    if a < b {
        lemma_utf8_len_take_mono(t, a, b - 1);
        assert(t.take(b).drop_last() =~= t.take(b - 1));
    }
}

pub fn summarize_text(text: &str, max_len: usize) -> (r: String)
    requires
        summary_cuts_cleanly(text@, max_len as nat),
    ensures
        r@ == spec_summarize(text@, max_len as nat),
{
    let t = trim_str(text);
    let cut: usize = if max_len >= 3 { max_len - 3 } else { 0 };
    // Bytes of `t` so far, stopping once past `max_len`.
    let mut used: u128 = 0;
    let mut at_cut: usize = 0;
    let mut found = cut == 0;
    let mut i: usize = 0;
    proof {
        assert(t@.take(0) =~= Seq::<char>::empty());
    }
    while i < t.len() && used <= max_len as u128
        invariant
            i <= t.len(),
            used == crate::text::utf8_len(t@.take(i as int)),
            used <= max_len + 4,
            cut == sat_sub3(max_len as nat),
            found ==> at_cut <= i && crate::text::utf8_len(t@.take(at_cut as int)) == cut,
            !found ==> used < cut || (used != cut && forall|k: int| 0 <= k <= i ==> crate::text::utf8_len(#[trigger] t@.take(k)) != cut),
            !found ==> forall|k: int| 0 <= k <= i ==> crate::text::utf8_len(#[trigger] t@.take(k)) != cut,
        decreases t.len() - i,
    {
        let c = t[i];
        let w: u128 = if (c as u32) < 0x80 {
            1
        } else if (c as u32) < 0x800 {
            2
        } else if (c as u32) < 0x10000 {
            3
        } else {
            4
        };
        proof {
            assert(t@.take(i + 1 as int).drop_last() =~= t@.take(i as int));
        }
        used = used + w;
        i = i + 1;
        if !found && used == cut as u128 {
            found = true;
            at_cut = i;
        }
    }
    if used <= max_len as u128 && i == t.len() {
        proof {
            assert(t@.take(t.len() as int) =~= t@);
        }
        return string_of(&t);
    }
    proof {
        lemma_utf8_len_take_mono(t@, i as int, t.len() as int);
        assert(t@.take(t.len() as int) =~= t@);
        if !found {
            let k = choose|k: int| 0 <= k <= t@.len() && #[trigger] crate::text::utf8_len(t@.take(k)) == cut;
            if k > i {
                lemma_utf8_len_take_mono(t@, i as int, k);
            }
        }
        let k = choose|k: int| 0 <= k <= t@.len() && #[trigger] crate::text::utf8_len(t@.take(k)) == cut;
        if k < at_cut {
            lemma_utf8_len_take_mono(t@, k, at_cut as int);
        } else if k > at_cut {
            lemma_utf8_len_take_mono(t@, at_cut as int, k);
        }
        assert(k == at_cut);
    }
    let mut out: Vec<char> = Vec::new();
    let mut j: usize = 0;
    while j < at_cut
        invariant
            j <= at_cut <= t.len(),
            out@ == t@.take(j as int),
        decreases at_cut - j,
    {
        out.push(t[j]);
        j = j + 1;
        assert(t@.take(j as int) =~= t@.take(j - 1 as int).push(t@[j - 1]));
    }
    push_str(&mut out, "...");
    string_of(&out)
}

// ---------------------------------------------------------------------------
// Running a plan, one command at a time

/// What running one command gave.
#[derive(Debug, Clone)]
pub struct CommandOutput {
    pub status_success: bool,
    pub stdout: String,
    pub stderr: String,
}

/// How far a format has got: the next command to run and the output
/// summaries so far.
#[derive(Debug, Clone)]
pub struct FormatProgress {
    pub next_step: usize,
    pub stdout_summary: Vec<String>,
    pub stderr_summary: Vec<String>,
}

/// What to do next.
#[derive(Debug)]
pub enum FormatAction {
    RunStep(usize),
    Completed(FormatDiskResult),
    Failed(FormatError),
}

pub struct ResultView {
    pub disk_identifier: Seq<char>,
    pub filesystem: FormatFilesystem,
    pub volume_name: Seq<char>,
    pub message: Seq<char>,
    pub status: Seq<char>,
    pub stdout_summary: Seq<char>,
    pub stderr_summary: Seq<char>,
    pub post_check_status: Seq<char>,
    pub plan: PlanView,
}

impl View for FormatDiskResult {
    type V = ResultView;

    open spec fn view(&self) -> ResultView {
        ResultView {
            disk_identifier: self.disk_identifier@,
            filesystem: self.filesystem,
            volume_name: self.volume_name@,
            message: self.message@,
            status: self.status@,
            stdout_summary: self.stdout_summary@,
            stderr_summary: self.stderr_summary@,
            post_check_status: self.post_check_status@,
            plan: self.plan@,
        }
    }
}

/// `parts.join(sep)`.
pub open spec fn joined(parts: Seq<Seq<char>>, sep: Seq<char>) -> Seq<char>
    decreases parts.len(),
{
    if parts.len() == 0 {
        seq![]
    } else if parts.len() == 1 {
        parts[0]
    } else {
        joined(parts.drop_last(), sep) + sep + parts.last()
    }
}

fn join_strings(parts: &Vec<String>, sep: &str) -> (r: String)
    ensures
        r@ == joined(crate::domain::strings_view(parts@), sep@),
{
    let ghost pv = crate::domain::strings_view(parts@);
    let mut out: Vec<char> = Vec::new();
    let mut i: usize = 0;
    while i < parts.len()
        invariant
            i <= parts.len(),
            pv == crate::domain::strings_view(parts@),
            out@ == joined(pv.take(i as int), sep@),
        decreases parts.len() - i,
    {
        proof {
            assert(pv.take(i + 1 as int).drop_last() =~= pv.take(i as int));
            assert(pv[i as int] == parts@[i as int]@);
        }
        if i > 0 {
            push_str(&mut out, sep);
        }
        push_str(&mut out, parts[i].as_str());
        proof {
            if i == 0 {
                assert(pv.take(1) =~= seq![pv[0]]);
                assert(out@ =~= pv[0]);
            }
        }
        i = i + 1;
    }
    proof {
        assert(pv.take(parts.len() as int) =~= pv);
    }
    string_of(&out)
}

fn copy_step(st: &FormatCommandStep) -> (r: FormatCommandStep)
    ensures
        r@ == st@,
{
    let mut args: Vec<String> = Vec::new();
    let mut i: usize = 0;
    while i < st.args.len()
        invariant
            i <= st.args.len(),
            crate::domain::strings_view(args@) == crate::domain::strings_view(st.args@).take(i as int),
        decreases st.args.len() - i,
    {
        let ghost before = crate::domain::strings_view(args@);
        args.push(st.args[i].clone());
        proof {
            assert(crate::domain::strings_view(args@) =~= before.push(st.args@[i as int]@));
            assert(crate::domain::strings_view(st.args@).take(i + 1 as int) =~= crate::domain::strings_view(st.args@).take(
                i as int,
            ).push(st.args@[i as int]@));
        }
        i = i + 1;
    }
    proof {
        assert(crate::domain::strings_view(st.args@).take(st.args.len() as int) =~= crate::domain::strings_view(st.args@));
    }
    FormatCommandStep { name: st.name.clone(), program: st.program.clone(), args }
}

fn copy_plan(plan: &FormatOperationPlan) -> (r: FormatOperationPlan)
    ensures
        r@ == plan@,
{
    let mut steps: Vec<FormatCommandStep> = Vec::new();
    let mut i: usize = 0;
    while i < plan.steps.len()
        invariant
            i <= plan.steps.len(),
            steps_view(steps@) == steps_view(plan.steps@).take(i as int),
        decreases plan.steps.len() - i,
    {
        let ghost before = steps_view(steps@);
        steps.push(copy_step(&plan.steps[i]));
        proof {
            assert(steps_view(steps@) =~= before.push(plan.steps@[i as int]@));
            assert(steps_view(plan.steps@).take(i + 1 as int) =~= steps_view(plan.steps@).take(i as int).push(
                plan.steps@[i as int]@,
            ));
        }
        i = i + 1;
    }
    proof {
        assert(steps_view(plan.steps@).take(plan.steps.len() as int) =~= steps_view(plan.steps@));
    }
    FormatOperationPlan {
        platform: plan.platform.clone(),
        target_path: plan.target_path.clone(),
        target_id: plan.target_id.clone(),
        filesystem: plan.filesystem,
        volume_name: plan.volume_name.clone(),
        steps,
    }
}

/// The result of a format whose commands all succeeded.
pub open spec fn spec_format_result(plan: PlanView, stdout: Seq<Seq<char>>, stderr: Seq<Seq<char>>) -> ResultView {
    ResultView {
        disk_identifier: plan.target_id,
        filesystem: plan.filesystem,
        volume_name: plan.volume_name,
        message: plan.target_path + " -> "@ + plan.volume_name + " on "@ + plan.platform + " completed"@,
        status: "success"@,
        stdout_summary: joined(stdout, " | "@),
        stderr_summary: joined(stderr, " | "@),
        post_check_status: "verified"@,
        plan,
    }
}

/// A format that completes reports success and a verified post-check for
/// the plan it ran, on the plan's target, whatever the commands printed.
pub proof fn lemma_completed_format_is_verified(plan: PlanView, stdout: Seq<Seq<char>>, stderr: Seq<Seq<char>>)
    ensures
        spec_format_result(plan, stdout, stderr).plan == plan,
        spec_format_result(plan, stdout, stderr).status == "success"@,
        spec_format_result(plan, stdout, stderr).post_check_status == "verified"@,
        spec_format_result(plan, stdout, stderr).disk_identifier == plan.target_id,
{
}

fn finish_format(plan: &FormatOperationPlan, progress: &FormatProgress) -> (r: FormatDiskResult)
    ensures
        r@ == spec_format_result(
            plan@,
            crate::domain::strings_view(progress.stdout_summary@),
            crate::domain::strings_view(progress.stderr_summary@),
        ),
{
    let mut m: Vec<char> = Vec::new();
    push_str(&mut m, plan.target_path.as_str());
    push_str(&mut m, " -> ");
    push_str(&mut m, plan.volume_name.as_str());
    push_str(&mut m, " on ");
    push_str(&mut m, plan.platform.as_str());
    push_str(&mut m, " completed");
    FormatDiskResult {
        disk_identifier: plan.target_id.clone(),
        filesystem: plan.filesystem,
        volume_name: plan.volume_name.clone(),
        message: string_of(&m),
        status: owned("success"),
        stdout_summary: join_strings(&progress.stdout_summary, " | "),
        stderr_summary: join_strings(&progress.stderr_summary, " | "),
        post_check_status: owned("verified"),
        plan: copy_plan(plan),
    }
}

/// What starting a format gives.
pub open spec fn start_ok(plan: FormatOperationPlan, r: (FormatProgress, FormatAction)) -> bool {
    &&& r.0.next_step == 0
    &&& r.0.stdout_summary@.len() == 0
    &&& r.0.stderr_summary@.len() == 0
    &&& (plan.steps@.len() > 0 ==> (r.1 matches FormatAction::RunStep(n) && n == 0))
    &&& (plan.steps@.len() == 0 ==> (r.1 matches FormatAction::Completed(res) && res@ == spec_format_result(
        plan@,
        seq![],
        seq![],
    )))
}

/// What taking in the output of the step `progress` waits for gives.
pub open spec fn advance_ok(
    plan: FormatOperationPlan,
    progress: FormatProgress,
    output: CommandOutput,
    r: (FormatProgress, FormatAction),
) -> bool {
    let name = plan.steps@[progress.next_step as int].name@;
    let old_out = crate::domain::strings_view(progress.stdout_summary@);
    let old_err = crate::domain::strings_view(progress.stderr_summary@);
    let new_out = crate::domain::strings_view(r.0.stdout_summary@);
    let new_err = crate::domain::strings_view(r.0.stderr_summary@);
    if !output.status_success {
        &&& r.0.next_step == progress.next_step
        &&& new_out == old_out
        &&& new_err == old_err
        &&& r.1 matches FormatAction::Failed(e) && e@ == (FormatErrorView::CommandFailed {
            step: name,
            stdout: spec_summarize(output.stdout@, 400),
            stderr: spec_summarize(output.stderr@, 400),
        })
    } else {
        &&& r.0.next_step == progress.next_step + 1
        &&& new_out == old_out.push(summary_line(name, output.stdout@))
        &&& new_err == if trim_seq(output.stderr@).len() > 0 {
            old_err.push(summary_line(name, output.stderr@))
        } else {
            old_err
        }
        &&& if r.0.next_step < plan.steps@.len() {
            r.1 matches FormatAction::RunStep(n) && n == r.0.next_step
        } else {
            r.1 matches FormatAction::Completed(res) && res@ == spec_format_result(plan@, new_out, new_err)
        }
    }
}

/// The stdout summary lines of the steps whose outputs are `outs`.
pub open spec fn run_out_lines(plan: FormatOperationPlan, outs: Seq<CommandOutput>) -> Seq<Seq<char>>
    decreases outs.len(),
{
    if outs.len() == 0 {
        seq![]
    } else {
        let k = outs.len() - 1;
        run_out_lines(plan, outs.drop_last()).push(summary_line(plan.steps@[k].name@, outs.last().stdout@))
    }
}

/// The stderr summary lines of those steps, for each non-blank stderr.
pub open spec fn run_err_lines(plan: FormatOperationPlan, outs: Seq<CommandOutput>) -> Seq<Seq<char>>
    decreases outs.len(),
{
    if outs.len() == 0 {
        seq![]
    } else {
        let k = outs.len() - 1;
        let before = run_err_lines(plan, outs.drop_last());
        if trim_seq(outs.last().stderr@).len() > 0 {
            before.push(summary_line(plan.steps@[k].name@, outs.last().stderr@))
        } else {
            before
        }
    }
}

/// A format run as a whole. Given the states a run went through (`states[0]`
/// from `start_format`, each next one from `advance_format` on the output of
/// the step asked for), the steps are run in the plan's order, one after
/// the other; every step before the last succeeded; a run that completes
/// ran every step and reports success with the summaries of all outputs;
/// a run that fails stops at its last step, with that step's name and
/// output.
pub proof fn lemma_format_run(plan: FormatOperationPlan, states: Seq<(FormatProgress, FormatAction)>, outs: Seq<CommandOutput>)
    requires
        states.len() == outs.len() + 1,
        start_ok(plan, states[0]),
        forall|k: int| 0 <= k < outs.len() ==> (#[trigger] states[k]).1 is RunStep && advance_ok(
            plan,
            states[k].0,
            outs[k],
            states[k + 1],
        ),
    ensures
        forall|k: int| 0 <= k < outs.len() ==> ((#[trigger] states[k]).1 matches FormatAction::RunStep(i) && i == k),
        forall|k: int| 0 <= k < outs.len() - 1 ==> (#[trigger] outs[k]).status_success,
        outs.len() <= plan.steps@.len(),
        states.last().1 matches FormatAction::Completed(res) ==> {
            &&& outs.len() == plan.steps@.len()
            &&& forall|k: int| 0 <= k < outs.len() ==> (#[trigger] outs[k]).status_success
            &&& res@ == spec_format_result(plan@, run_out_lines(plan, outs), run_err_lines(plan, outs))
        },
        states.last().1 matches FormatAction::Failed(e) ==> {
            &&& outs.len() > 0
            &&& !outs.last().status_success
            &&& e@ == (FormatErrorView::CommandFailed {
                step: plan.steps@[outs.len() - 1].name@,
                stdout: spec_summarize(outs.last().stdout@, 400),
                stderr: spec_summarize(outs.last().stderr@, 400),
            })
        },
    decreases outs.len(),
{
    if outs.len() == 0 {
        return;
    }
    let m = outs.len() - 1;
    let s2 = states.take(m + 1);
    let o2 = outs.drop_last();
    assert forall|k: int| 0 <= k < o2.len() implies (#[trigger] s2[k]).1 is RunStep && advance_ok(
        plan,
        s2[k].0,
        o2[k],
        s2[k + 1],
    ) by {
        assert(s2[k] == states[k] && s2[k + 1] == states[k + 1] && o2[k] == outs[k]);
    }
    lemma_format_run(plan, s2, o2);
    lemma_format_run_state(plan, states, outs, m);
    assert(states[m].1 is RunStep);
    assert forall|k: int| 0 <= k < outs.len() implies ((#[trigger] states[k]).1 matches FormatAction::RunStep(i) && i
        == k) by {
        if k < m {
            assert(s2[k] == states[k]);
        }
    }
    assert forall|k: int| 0 <= k < outs.len() - 1 implies (#[trigger] outs[k]).status_success by {
        assert(o2[k] == outs[k]);
        if k == m - 1 {
            assert(s2.last() == states[m]);
        }
    }
    assert(o2 =~= outs.drop_last());
}

/// Before step `m` runs, the progress holds `m` and the summaries of the
/// steps before it, all of which succeeded.
proof fn lemma_format_run_state(
    plan: FormatOperationPlan,
    states: Seq<(FormatProgress, FormatAction)>,
    outs: Seq<CommandOutput>,
    m: int,
)
    requires
        states.len() == outs.len() + 1,
        0 <= m < states.len(),
        start_ok(plan, states[0]),
        forall|k: int| 0 <= k < outs.len() ==> (#[trigger] states[k]).1 is RunStep && advance_ok(
            plan,
            states[k].0,
            outs[k],
            states[k + 1],
        ),
        states[m].1 is RunStep,
    ensures
        states[m].0.next_step == m,
        m < plan.steps@.len(),
        (states[m].1 matches FormatAction::RunStep(i) && i == m),
        crate::domain::strings_view(states[m].0.stdout_summary@) == run_out_lines(plan, outs.take(m)),
        crate::domain::strings_view(states[m].0.stderr_summary@) == run_err_lines(plan, outs.take(m)),
        forall|k: int| 0 <= k < m ==> (#[trigger] outs[k]).status_success,
    decreases m,
{
    if m == 0 {
        assert(outs.take(0) =~= Seq::<CommandOutput>::empty());
        assert(crate::domain::strings_view(states[0].0.stdout_summary@) =~= Seq::<Seq<char>>::empty());
        assert(crate::domain::strings_view(states[0].0.stderr_summary@) =~= Seq::<Seq<char>>::empty());
    } else {
        let p = m - 1;
        lemma_format_run_state(plan, states, outs, p);
        assert(states[p].1 is RunStep);
        if !outs[p].status_success {
            assert(states[m].1 is Failed);
        }
        assert(outs.take(m).drop_last() =~= outs.take(p));
        assert(outs.take(m).last() == outs[p]);
    }
}

/// Starts a format: the first command to run, or the result at once for a
/// plan without commands.
pub fn start_format(plan: &FormatOperationPlan) -> (r: (FormatProgress, FormatAction))
    ensures
        start_ok(*plan, r),
{
    let progress = FormatProgress { next_step: 0, stdout_summary: Vec::new(), stderr_summary: Vec::new() };
    if plan.steps.len() > 0 {
        (progress, FormatAction::RunStep(0))
    } else {
        let res = finish_format(plan, &progress);
        assert(crate::domain::strings_view(progress.stdout_summary@) =~= seq![]);
        assert(crate::domain::strings_view(progress.stderr_summary@) =~= seq![]);
        (progress, FormatAction::Completed(res))
    }
}

/// The summary line of one command's output stream.
pub open spec fn summary_line(step: Seq<char>, text: Seq<char>) -> Seq<char> {
    step + ": "@ + spec_summarize(text, 200)
}

fn summary_entry(step: &str, text: &str) -> (r: String)
    requires
        summary_cuts_cleanly(text@, 200),
    ensures
        r@ == summary_line(step@, text@),
{
    let mut v: Vec<char> = Vec::new();
    push_str(&mut v, step);
    push_str(&mut v, ": ");
    let s = summarize_text(text, 200);
    push_str(&mut v, s.as_str());
    string_of(&v)
}

/// Takes in the output of the command `progress` was waiting for.
///
/// A failed command stops the format with `CommandFailed`, carrying the
/// step's name and its output cut to 400 bytes. Otherwise the step's output
/// is summarised (stderr only where it is not blank) and the next command is
/// asked for, or the result returned after the last one.
pub fn advance_format(plan: &FormatOperationPlan, progress: FormatProgress, output: &CommandOutput) -> (r: (
    FormatProgress,
    FormatAction,
))
    requires
        progress.next_step < plan.steps@.len(),
        !output.status_success ==> summary_cuts_cleanly(output.stdout@, 400) && summary_cuts_cleanly(
            output.stderr@,
            400,
        ),
        output.status_success ==> summary_cuts_cleanly(output.stdout@, 200),
        output.status_success && trim_seq(output.stderr@).len() > 0 ==> summary_cuts_cleanly(output.stderr@, 200),
    ensures
        advance_ok(*plan, progress, *output, r),
{
    let mut progress = progress;
    let i = progress.next_step;
    let name = plan.steps[i].name.as_str();
    if !output.status_success {
        let e = FormatError::CommandFailed {
            step: owned(name),
            stdout: summarize_text(output.stdout.as_str(), 400),
            stderr: summarize_text(output.stderr.as_str(), 400),
        };
        return (progress, FormatAction::Failed(e));
    }
    let ghost old_out = crate::domain::strings_view(progress.stdout_summary@);
    let ghost old_err = crate::domain::strings_view(progress.stderr_summary@);
    let line = summary_entry(name, output.stdout.as_str());
    progress.stdout_summary.push(line);
    proof {
        assert(crate::domain::strings_view(progress.stdout_summary@) =~= old_out.push(summary_line(
            plan.steps@[i as int].name@,
            output.stdout@,
        )));
    }
    let err_trim = trim_str(output.stderr.as_str());
    if err_trim.len() > 0 {
        let line = summary_entry(name, output.stderr.as_str());
        progress.stderr_summary.push(line);
        proof {
            assert(crate::domain::strings_view(progress.stderr_summary@) =~= old_err.push(summary_line(
                plan.steps@[i as int].name@,
                output.stderr@,
            )));
        }
    }
    let len = plan.steps.len();
    assert(i < len);
    progress.next_step = i + 1;
    if progress.next_step < plan.steps.len() {
        let n = progress.next_step;
        (progress, FormatAction::RunStep(n))
    } else {
        let res = finish_format(plan, &progress);
        (progress, FormatAction::Completed(res))
    }
}

proof fn lemma_filter_all_or_none(s: Seq<OptionView>, f: spec_fn(OptionView) -> bool, keep: bool)
    requires
        forall|i: int| 0 <= i < s.len() ==> f(#[trigger] s[i]) == keep,
    ensures
        s.filter(f) == (if keep { s } else { seq![] }),
    decreases s.len(),
{
    reveal(Seq::filter);
    if s.len() > 0 {
        let t = s.drop_last();
        assert forall|i: int| 0 <= i < t.len() implies f(#[trigger] t[i]) == keep by {
            assert(t[i] == s[i]);
        }
        lemma_filter_all_or_none(t, f, keep);
        if keep {
            assert(t.push(s.last()) =~= s);
        }
    } else {
        assert(s =~= seq![]);
    }
}

/// Without a target every filesystem the host can make is offered; a
/// target is offered every such filesystem when it may be formatted at all
/// (an external or removable physical system disk that can be written), and
/// none otherwise.
pub proof fn lemma_options_follow_target(os: HostOs, t: DiskInfo)
    ensures
        spec_filesystem_options(os, None) == spec_supported_filesystems(os),
        spec_filesystem_options(os, Some(t)) == if formattable_target(t) {
            spec_supported_filesystems(os)
        } else {
            seq![]
        },
{
    let all = spec_supported_filesystems(os);
    let f = |o: OptionView| spec_target_supports(os, t, o.value);
    assert forall|i: int| 0 <= i < all.len() implies f(#[trigger] all[i]) == formattable_target(t) by {
        assert(host_makes(os, all[i].value));
    }
    lemma_filter_all_or_none(all, f, formattable_target(t));
}

} // verus!
