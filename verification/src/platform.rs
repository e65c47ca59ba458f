//! Block devices as the host reports them, and their mapping onto
//! `DiskInfo`.
//!
//! Asking the host (lsblk, diskutil, PowerShell, sysfs) and probing device
//! files is left to the caller, which hands over what it read as plain
//! records.
use vstd::prelude::*;
use crate::disk::{spec_access_capability, spec_classify_target_safety};
use crate::domain::{AccessCapability, DiskInfo, DiskKind, DiskSource, HostOs, TargetSafety, opt_string_view};
use crate::text::{
    ascii_lowercase, chars_of, has_prefix, lower_chars, lower_seq, owned, push_str, string_of, strip_prefix,
    strip_prefix_seq, trim_start_all, trim_start_matches,
};

verus! {

#[derive(Debug, Clone, Copy, PartialEq, Eq, Structural)]
pub enum TargetSource {
    System,
    ImageFile,
}

#[derive(Debug, Clone, Copy, PartialEq, Eq, Structural)]
pub enum TargetKind {
    Physical,
    Virtual,
    Image,
    Unknown,
}

#[derive(Debug, Clone, Copy, PartialEq, Eq, Structural)]
pub enum TargetMountState {
    Mounted,
    Unmounted,
    Partial,
    Unknown,
}

#[derive(Debug, Clone)]
pub struct NormalizedTarget {
    pub normalized_id: String,
    pub display_path: String,
    pub raw_path: String,
    pub name: String,
    pub size_bytes: u64,
    pub kind: TargetKind,
    pub protocol: Option<String>,
    pub is_internal: Option<bool>,
    pub is_removable: Option<bool>,
    pub is_external: Option<bool>,
    pub mount_state: TargetMountState,
    pub readable: bool,
    pub writable: bool,
    pub permission_message: Option<String>,
    pub source: TargetSource,
}

pub struct TargetView {
    pub normalized_id: Seq<char>,
    pub display_path: Seq<char>,
    pub raw_path: Seq<char>,
    pub name: Seq<char>,
    pub size_bytes: u64,
    pub kind: TargetKind,
    pub protocol: Option<Seq<char>>,
    pub is_internal: Option<bool>,
    pub is_removable: Option<bool>,
    pub is_external: Option<bool>,
    pub mount_state: TargetMountState,
    pub readable: bool,
    pub writable: bool,
    pub permission_message: Option<Seq<char>>,
    pub source: TargetSource,
}

impl View for NormalizedTarget {
    type V = TargetView;

    open spec fn view(&self) -> TargetView {
        TargetView {
            normalized_id: self.normalized_id@,
            display_path: self.display_path@,
            raw_path: self.raw_path@,
            name: self.name@,
            size_bytes: self.size_bytes,
            kind: self.kind,
            protocol: opt_string_view(self.protocol),
            is_internal: self.is_internal,
            is_removable: self.is_removable,
            is_external: self.is_external,
            mount_state: self.mount_state,
            readable: self.readable,
            writable: self.writable,
            permission_message: opt_string_view(self.permission_message),
            source: self.source,
        }
    }
}

pub open spec fn targets_view(v: Seq<NormalizedTarget>) -> Seq<TargetView> {
    v.map_values(|t: NormalizedTarget| t@)
}

pub open spec fn to_disk_source(s: TargetSource) -> DiskSource {
    match s {
        TargetSource::System => DiskSource::System,
        TargetSource::ImageFile => DiskSource::ImageFile,
    }
}

/// How risky a target is to write to, from what the host reports: an image
/// file, else internal, removable, external (not internal, or on USB), or
/// unknown, in that order.
pub open spec fn spec_target_source_safety(
    source: TargetSource,
    is_internal: Option<bool>,
    is_removable: Option<bool>,
    protocol: Option<Seq<char>>,
) -> TargetSafety {
    if source == TargetSource::ImageFile {
        TargetSafety::Image
    } else if is_internal == Some(true) {
        TargetSafety::Internal
    } else if is_removable == Some(true) {
        TargetSafety::Removable
    } else if is_internal == Some(false) || crate::disk::is_usb(protocol) {
        TargetSafety::External
    } else {
        TargetSafety::Unknown
    }
}

/// The host's classification of a target and the disk-level classification
/// of the same facts agree, the target's source read as the disk's.
pub proof fn lemma_target_safety_agrees(
    source: TargetSource,
    is_internal: Option<bool>,
    is_removable: Option<bool>,
    protocol: Option<Seq<char>>,
)
    ensures
        spec_target_source_safety(source, is_internal, is_removable, protocol) == spec_classify_target_safety(
            to_disk_source(source),
            is_internal,
            is_removable,
            protocol,
        ),
{
}

/// How risky a target is to write to, from what the host reports.
pub fn classify_target_safety(
    source: TargetSource,
    is_internal: Option<bool>,
    is_removable: Option<bool>,
    protocol: Option<&str>,
) -> (r: TargetSafety)
    ensures
        r == spec_target_source_safety(source, is_internal, is_removable, crate::domain::opt_str_view(protocol)),
        r == spec_classify_target_safety(
            to_disk_source(source),
            is_internal,
            is_removable,
            crate::domain::opt_str_view(protocol),
        ),
{
    proof {
        lemma_target_safety_agrees(source, is_internal, is_removable, crate::domain::opt_str_view(protocol));
    }
    let s = match source {
        TargetSource::System => DiskSource::System,
        TargetSource::ImageFile => DiskSource::ImageFile,
    };
    crate::disk::classify_target_safety(s, is_internal, is_removable, protocol)
}

pub fn access_capability(readable: bool, writable: bool) -> (r: AccessCapability)
    ensures
        r == spec_access_capability(readable, writable),
{
    crate::disk::access_capability(readable, writable)
}

/// The disk description of a host target: it is opened by its raw path and
/// known by its normalized id.
pub open spec fn spec_disk_info(t: NormalizedTarget) -> DiskInfo {
    DiskInfo {
        path: t.raw_path,
        display_path: t.display_path,
        raw_path: t.raw_path,
        platform_id: t.normalized_id,
        name: t.name,
        size_bytes: t.size_bytes,
        readable: t.readable,
        writable: t.writable,
        source: to_disk_source(t.source),
        kind: if t.kind == TargetKind::Image {
            DiskKind::Image
        } else {
            DiskKind::Physical
        },
        safety: spec_classify_target_safety(
            to_disk_source(t.source),
            t.is_internal,
            t.is_removable,
            opt_string_view(t.protocol),
        ),
        access: spec_access_capability(t.readable, t.writable),
        protocol: t.protocol,
        is_internal: t.is_internal,
        is_removable: t.is_removable,
    }
}

pub fn disk_info_from_target(target: NormalizedTarget) -> (d: DiskInfo)
    ensures
        d == spec_disk_info(target),
{
    let source = match target.source {
        TargetSource::System => DiskSource::System,
        TargetSource::ImageFile => DiskSource::ImageFile,
    };
    let kind = match target.kind {
        TargetKind::Image => DiskKind::Image,
        _ => DiskKind::Physical,
    };
    let safety = classify_target_safety(
        target.source,
        target.is_internal,
        target.is_removable,
        match &target.protocol {
            Some(p) => Some(p.as_str()),
            None => None,
        },
    );
    let access = access_capability(target.readable, target.writable);
    DiskInfo {
        path: target.raw_path.clone(),
        display_path: target.display_path,
        raw_path: target.raw_path,
        platform_id: target.normalized_id,
        name: target.name,
        size_bytes: target.size_bytes,
        readable: target.readable,
        writable: target.writable,
        source,
        kind,
        safety,
        access,
        protocol: target.protocol,
        is_internal: target.is_internal,
        is_removable: target.is_removable,
    }
}

impl From<NormalizedTarget> for DiskInfo {
    fn from(target: NormalizedTarget) -> (d: DiskInfo) {
        disk_info_from_target(target)
    }
}

impl vstd::std_specs::convert::FromSpecImpl<NormalizedTarget> for DiskInfo {
    open spec fn obeys_from_spec() -> bool {
        true
    }

    open spec fn from_spec(v: NormalizedTarget) -> DiskInfo {
        spec_disk_info(v)
    }
}

/// Disks listed from the host's devices are system disks of the physical
/// kind: a target the host reports (not an image file) maps to a system,
/// physical disk.
pub proof fn lemma_listed_disks_are_physical(t: NormalizedTarget)
    requires
        t.source == TargetSource::System,
        t.kind != TargetKind::Image,
    ensures
        spec_disk_info(t).source == DiskSource::System,
        spec_disk_info(t).kind == DiskKind::Physical,
{
}

/// The disk descriptions of the host's targets, in order.
pub fn list_disks(targets: Vec<NormalizedTarget>) -> (r: Vec<DiskInfo>)
    ensures
        r@.len() == targets@.len(),
        forall|i: int| 0 <= i < r@.len() ==> r@[i] == spec_disk_info(#[trigger] targets@[i]),
{
    let ghost orig = targets@;
    let mut rest = targets;
    let mut out: Vec<DiskInfo> = Vec::new();
    while rest.len() > 0
        invariant
            out@.len() + rest@.len() == orig.len(),
            rest@ == orig.skip(out@.len() as int),
            forall|i: int| 0 <= i < out@.len() ==> out@[i] == spec_disk_info(#[trigger] orig[i]),
        decreases rest.len(),
    {
        let ghost n = out@.len();
        let ghost before = rest@;
        let t = rest.remove(0);
        proof {
            assert(t == orig[n as int]);
            assert(rest@ =~= orig.skip(n + 1 as int));
        }
        out.push(disk_info_from_target(t));
    }
    out
}

// ---------------------------------------------------------------------------
// Identifiers

pub open spec fn strip_or_keep(p: Seq<char>, prefix: Seq<char>) -> Seq<char> {
    match strip_prefix_seq(p, prefix) {
        Some(r) => r,
        None => p,
    }
}

/// The stable, lower-case id of a device path: without `/dev/` (on macOS
/// also `/private/dev/` and the raw-device `r`); elsewhere also without the
/// `\\?\` prefix, and on Windows without `\\.\` as well, which other
/// hosts keep.
pub open spec fn spec_normalized_id(os: HostOs, path: Seq<char>) -> Seq<char> {
    if os == HostOs::Macos {
        let stripped = match strip_prefix_seq(path, "/dev/"@) {
            Some(r) => r,
            None => strip_or_keep(path, "/private/dev/"@),
        };
        lower_seq(trim_start_all(stripped, "r"@))
    } else if os == HostOs::Windows {
        lower_seq(strip_or_keep(strip_or_keep(strip_or_keep(path, "/dev/"@), "\\\\.\\"@), "\\\\?\\"@))
    } else {
        lower_seq(strip_or_keep(strip_or_keep(path, "/dev/"@), "\\\\?\\"@))
    }
}

fn strip_or_keep_chars(s: Vec<char>, prefix: &str) -> (r: Vec<char>)
    ensures
        r@ == strip_or_keep(s@, prefix@),
{
    match strip_prefix(&s, prefix) {
        Some(r) => r,
        None => s,
    }
}

pub fn normalized_id_from_path(os: HostOs, path: &str) -> (r: String)
    ensures
        r@ == spec_normalized_id(os, path@),
{
    let p = chars_of(path);
    if os == HostOs::Macos {
        let stripped = match strip_prefix(&p, "/dev/") {
            Some(r) => r,
            None => strip_or_keep_chars(p, "/private/dev/"),
        };
        let t = trim_start_matches(&stripped, "r");
        string_of(&lower_chars(&t))
    } else if os == HostOs::Windows {
        let a = strip_or_keep_chars(p, "/dev/");
        let b = strip_or_keep_chars(a, "\\\\.\\");
        let c = strip_or_keep_chars(b, "\\\\?\\");
        string_of(&lower_chars(&c))
    } else {
        let a = strip_or_keep_chars(p, "/dev/");
        let c = strip_or_keep_chars(a, "\\\\?\\");
        string_of(&lower_chars(&c))
    }
}

// ---------------------------------------------------------------------------
// Image files

pub open spec fn spec_image_target(path: Seq<char>, file_name: Option<Seq<char>>, size: u64, read_only: bool) -> TargetView {
    TargetView {
        normalized_id: "image:"@ + path,
        display_path: path,
        raw_path: path,
        name: match file_name {
            Some(n) => n,
            None => path,
        },
        size_bytes: size,
        kind: TargetKind::Image,
        protocol: Some("file"@),
        is_internal: Some(false),
        is_removable: None,
        is_external: Some(false),
        mount_state: TargetMountState::Unmounted,
        readable: true,
        writable: !read_only,
        permission_message: None,
        source: TargetSource::ImageFile,
    }
}

/// The target record of an image file, from its path, the last component
/// of that path (if it has one), its length and whether it is read-only.
pub fn normalized_target_from_image(path: &str, file_name: Option<String>, size_bytes: u64, read_only: bool) -> (r:
    NormalizedTarget)
    ensures
        r@ == spec_image_target(path@, opt_string_view(file_name), size_bytes, read_only),
{
    let mut id: Vec<char> = Vec::new();
    push_str(&mut id, "image:");
    push_str(&mut id, path);
    let name = match file_name {
        Some(n) => n,
        None => owned(path),
    };
    NormalizedTarget {
        normalized_id: string_of(&id),
        display_path: owned(path),
        raw_path: owned(path),
        name,
        size_bytes,
        kind: TargetKind::Image,
        protocol: Some(owned("file")),
        is_internal: Some(false),
        is_removable: None,
        is_external: Some(false),
        mount_state: TargetMountState::Unmounted,
        readable: true,
        writable: !read_only,
        permission_message: None,
        source: TargetSource::ImageFile,
    }
}

pub fn disk_info_from_image(path: &str, file_name: Option<String>, size_bytes: u64, read_only: bool) -> (d: DiskInfo)
    ensures
        d.path@ == path@,
        d.display_path@ == path@,
        d.raw_path@ == path@,
        d.name@ == opt_or(opt_string_view(file_name), path@),
        opt_string_view(d.protocol) == Some("file"@),
        d.is_internal == Some(false),
        d.is_removable is None,
        d.platform_id@ == "image:"@ + path@,
        d.size_bytes == size_bytes,
        d.source == DiskSource::ImageFile,
        d.kind == DiskKind::Image,
        d.safety == TargetSafety::Image,
        d.readable,
        d.writable == !read_only,
        d.access == spec_access_capability(true, !read_only),
{
    let t = normalized_target_from_image(path, file_name, size_bytes, read_only);
    disk_info_from_target(t)
}

// ---------------------------------------------------------------------------
// Linux: lsblk and /sys/block

/// One device of `lsblk --json` output.
#[derive(Debug, Clone)]
pub struct LsblkDevice {
    pub name: String,
    pub path: Option<String>,
    pub device_type: Option<String>,
    pub size: Option<String>,
    pub rm: Option<bool>,
    pub ro: Option<bool>,
    pub mountpoint: Option<String>,
    pub mountpoints: Option<Vec<Option<String>>>,
    pub tran: Option<String>,
    pub model: Option<String>,
    pub serial: Option<String>,
    pub hotplug: Option<bool>,
}


pub open spec fn opt_or(a: Option<Seq<char>>, b: Seq<char>) -> Seq<char> {
    match a {
        Some(x) => x,
        None => b,
    }
}

pub open spec fn lsblk_type(d: LsblkDevice) -> Seq<char> {
    opt_or(opt_string_view(d.device_type), "disk"@)
}

/// Whole disks, loop devices and optical drives are listed; partitions are
/// not.
pub open spec fn lsblk_listed(d: LsblkDevice) -> bool {
    let t = lsblk_type(d);
    t == "disk"@ || t == "loop"@ || t == "rom"@
}

pub open spec fn lsblk_path(d: LsblkDevice) -> Seq<char> {
    opt_or(opt_string_view(d.path), "/dev/"@ + d.name@)
}

/// The transport guessed from a kernel device name.
pub open spec fn guessed_protocol(name: Seq<char>) -> Option<Seq<char>> {
    if has_prefix(name, "nvme"@) {
        Some("nvme"@)
    } else if has_prefix(name, "sd"@) {
        Some("sata"@)
    } else if has_prefix(name, "vd"@) {
        Some("virtio"@)
    } else {
        None
    }
}

pub open spec fn spec_is_external_protocol(p: Seq<char>) -> bool {
    let l = lower_seq(p);
    l == "usb"@ || l == "sata"@ || l == "sas"@ || l == "nvme"@ || l == "sdio"@ || l == "virtio"@ || l
        == "thunderbolt"@
}

pub open spec fn nonempty_mount(o: Option<Seq<char>>) -> bool {
    match o {
        Some(v) => v.len() > 0,
        None => false,
    }
}

/// Some entry of `s` names a mount point.
pub open spec fn any_mounted(s: Seq<Option<Seq<char>>>) -> bool
    decreases s.len(),
{
    s.len() > 0 && (nonempty_mount(s.last()) || any_mounted(s.drop_last()))
}

pub open spec fn mounts_present(mountpoint: Option<Seq<char>>, mountpoints: Option<Seq<Option<Seq<char>>>>) -> bool {
    if mountpoint is Some {
        true
    } else {
        match mountpoints {
            Some(m) => any_mounted(m),
            None => false,
        }
    }
}

pub open spec fn opt_strings_view(v: Seq<Option<String>>) -> Seq<Option<Seq<char>>> {
    v.map_values(|o: Option<String>| opt_string_view(o))
}

pub open spec fn lsblk_mounts(d: LsblkDevice) -> Option<Seq<Option<Seq<char>>>> {
    match d.mountpoints {
        Some(m) => Some(opt_strings_view(m@)),
        None => None,
    }
}

pub open spec fn lsblk_protocol(d: LsblkDevice) -> Option<Seq<char>> {
    match opt_string_view(d.tran) {
        Some(t) => Some(t),
        None => guessed_protocol(d.name@),
    }
}

pub open spec fn lsblk_removable(d: LsblkDevice) -> Option<bool> {
    match d.rm {
        Some(b) => Some(b),
        None => match d.hotplug {
            Some(b) => Some(b),
            None => match lsblk_protocol(d) {
                Some(p) => Some(spec_is_external_protocol(p)),
                None => None,
            },
        },
    }
}

pub open spec fn not_opt(b: Option<bool>) -> Option<bool> {
    match b {
        Some(x) => Some(!x),
        None => None,
    }
}

pub open spec fn lower_opt(p: Option<Seq<char>>) -> Option<Seq<char>> {
    match p {
        Some(x) => Some(lower_seq(x)),
        None => None,
    }
}

/// The target record of an lsblk device, given whether its device file
/// could be opened (and why not).
pub open spec fn spec_lsblk_target(d: LsblkDevice, readable: bool, message: Option<Seq<char>>) -> Option<TargetView> {
    if !lsblk_listed(d) {
        None
    } else {
        let path = lsblk_path(d);
        let removable = lsblk_removable(d);
        Some(TargetView {
            normalized_id: spec_normalized_id(HostOs::Linux, path),
            display_path: path,
            raw_path: path,
            name: match opt_string_view(d.model) {
                Some(m) => m,
                None => opt_or(opt_string_view(d.serial), d.name@),
            },
            size_bytes: match opt_string_view(d.size) {
                Some(s) => match crate::text::spec_parse_u64(s) {
                    Some(n) => n,
                    None => 0,
                },
                None => 0,
            },
            kind: if lsblk_type(d) == "loop"@ {
                TargetKind::Virtual
            } else {
                TargetKind::Physical
            },
            protocol: lower_opt(lsblk_protocol(d)),
            is_internal: not_opt(removable),
            is_removable: removable,
            is_external: removable,
            mount_state: if mounts_present(opt_string_view(d.mountpoint), lsblk_mounts(d)) {
                TargetMountState::Mounted
            } else {
                TargetMountState::Unmounted
            },
            readable,
            writable: match d.ro {
                Some(ro) => !ro,
                None => readable,
            },
            permission_message: message,
            source: TargetSource::System,
        })
    }
}

pub fn is_listed_lsblk_device(device: &LsblkDevice) -> (r: bool)
    ensures
        r == lsblk_listed(*device),
{
    let t = match &device.device_type {
        Some(t) => chars_of(t.as_str()),
        None => chars_of("disk"),
    };
    crate::text::slice_eq(&t, &chars_of("disk")) || crate::text::slice_eq(&t, &chars_of("loop"))
        || crate::text::slice_eq(&t, &chars_of("rom"))
}

/// The device file of an lsblk device.
pub fn lsblk_device_path(device: &LsblkDevice) -> (r: String)
    ensures
        r@ == lsblk_path(*device),
{
    match &device.path {
        Some(p) => p.clone(),
        None => {
            let mut v: Vec<char> = Vec::new();
            push_str(&mut v, "/dev/");
            push_str(&mut v, device.name.as_str());
            string_of(&v)
        },
    }
}

fn guess_protocol(name: &str) -> (r: Option<String>)
    ensures
        opt_string_view(r) == guessed_protocol(name@),
{
    let n = chars_of(name);
    if crate::text::starts_with(&n, "nvme") {
        Some(owned("nvme"))
    } else if crate::text::starts_with(&n, "sd") {
        Some(owned("sata"))
    } else if crate::text::starts_with(&n, "vd") {
        Some(owned("virtio"))
    } else {
        None
    }
}

pub fn is_external_protocol(protocol: &str) -> (r: bool)
    ensures
        r == spec_is_external_protocol(protocol@),
{
    let l = lower_chars(&chars_of(protocol));
    crate::text::slice_eq(&l, &chars_of("usb")) || crate::text::slice_eq(&l, &chars_of("sata"))
        || crate::text::slice_eq(&l, &chars_of("sas")) || crate::text::slice_eq(&l, &chars_of("nvme"))
        || crate::text::slice_eq(&l, &chars_of("sdio")) || crate::text::slice_eq(&l, &chars_of("virtio"))
        || crate::text::slice_eq(&l, &chars_of("thunderbolt"))
}

/// A device is mounted when it has a mount point, or any non-empty entry
/// among its mount points.
pub fn mountpoints_present(mountpoint: Option<&String>, mountpoints: Option<&Vec<Option<String>>>) -> (r: bool)
    ensures
        r == mounts_present(
            match mountpoint {
                Some(m) => Some(m@),
                None => None,
            },
            match mountpoints {
                Some(m) => Some(opt_strings_view(m@)),
                None => None,
            },
        ),
{
    if mountpoint.is_some() {
        return true;
    }
    match mountpoints {
        None => false,
        Some(m) => {
            let ghost mv = opt_strings_view(m@);
            let mut i: usize = 0;
            while i < m.len()
                invariant
                    i <= m.len(),
                    mv == opt_strings_view(m@),
                    mountpoints == Some(m),
                    mountpoint is None,
                    !any_mounted(mv.take(i as int)),
                decreases m.len() - i,
            {
                match &m[i] {
                    Some(v) => {
                        if chars_of(v.as_str()).len() > 0 {
                            assert(mv[i as int] == Some(v@));
                            assert(nonempty_mount(mv[i as int]));
                            proof {
                                lemma_any_mounted_prefix(mv, i as int + 1);
                                assert(mv.take(i + 1 as int).last() == mv[i as int]);
                            }
                            return true;
                        }
                        assert(mv[i as int] == Some(v@));
                    },
                    None => {
                        assert(mv[i as int] is None);
                    },
                }
                proof {
                    assert(mv.take(i + 1 as int).drop_last() =~= mv.take(i as int));
                }
                i = i + 1;
            }
            proof {
                assert(mv.take(m.len() as int) =~= mv);
            }
            false
        },
    }
}

proof fn lemma_any_mounted_prefix(s: Seq<Option<Seq<char>>>, k: int)
    requires
        0 <= k <= s.len(),
        any_mounted(s.take(k)),
    ensures
        any_mounted(s),
    decreases s.len() - k,
{
    if k < s.len() {
        assert(s.take(k + 1).drop_last() =~= s.take(k));
        lemma_any_mounted_prefix(s, k + 1);
    } else {
        assert(s.take(k) =~= s);
    }
}

fn lower_opt_string(p: &Option<String>) -> (r: Option<String>)
    ensures
        opt_string_view(r) == lower_opt(opt_string_view(*p)),
{
    match p {
        Some(x) => Some(ascii_lowercase(x.as_str())),
        None => None,
    }
}

/// The target record of an lsblk device (`None` for partitions and other
/// non-disk entries).
pub fn lsblk_device_to_target(device: LsblkDevice, readable: bool, permission_message: Option<String>) -> (r: Option<
    NormalizedTarget,
>)
    ensures
        match r {
            Some(t) => spec_lsblk_target(device, readable, opt_string_view(permission_message)) == Some(t@),
            None => spec_lsblk_target(device, readable, opt_string_view(permission_message)) is None,
        },
{
    if !is_listed_lsblk_device(&device) {
        return None;
    }
    let path = lsblk_device_path(&device);
    let size_bytes = match &device.size {
        Some(s) => match crate::text::parse_u64(&chars_of(s.as_str())) {
            Some(n) => n,
            None => 0,
        },
        None => 0,
    };
    let mounted = mountpoints_present(
        match &device.mountpoint {
            Some(m) => Some(m),
            None => None,
        },
        match &device.mountpoints {
            Some(m) => Some(m),
            None => None,
        },
    );
    let protocol = match &device.tran {
        Some(t) => Some(t.clone()),
        None => guess_protocol(device.name.as_str()),
    };
    let removable = match device.rm {
        Some(b) => Some(b),
        None => match device.hotplug {
            Some(b) => Some(b),
            None => match &protocol {
                Some(p) => Some(is_external_protocol(p.as_str())),
                None => None,
            },
        },
    };
    let is_loop = match &device.device_type {
        Some(t) => crate::text::str_eq(t.as_str(), "loop"),
        None => false,
    };
    proof {
        reveal_strlit("disk");
        reveal_strlit("loop");
        assert(("disk"@) != ("loop"@)) by {
            assert(("disk"@)[0] != ("loop"@)[0]);
        }
    }
    let name = match &device.model {
        Some(m) => m.clone(),
        None => match &device.serial {
            Some(s) => s.clone(),
            None => device.name.clone(),
        },
    };
    let writable = match device.ro {
        Some(ro) => !ro,
        None => readable,
    };
    let t = NormalizedTarget {
        normalized_id: normalized_id_from_path(HostOs::Linux, path.as_str()),
        display_path: path.clone(),
        raw_path: path,
        name,
        size_bytes,
        kind: if is_loop {
            TargetKind::Virtual
        } else {
            TargetKind::Physical
        },
        protocol: lower_opt_string(&protocol),
        is_internal: match removable {
            Some(b) => Some(!b),
            None => None,
        },
        is_removable: removable,
        is_external: removable,
        mount_state: if mounted {
            TargetMountState::Mounted
        } else {
            TargetMountState::Unmounted
        },
        readable,
        writable,
        permission_message,
        source: TargetSource::System,
    };
    Some(t)
}

/// `"1"` and `"0"` (surrounding whitespace ignored) as a sysfs flag.
pub open spec fn spec_sysfs_bool(text: Seq<char>) -> Option<bool> {
    let t = crate::text::trim_seq(text);
    if t == "1"@ {
        Some(true)
    } else if t == "0"@ {
        Some(false)
    } else {
        None
    }
}

pub fn parse_sysfs_bool(text: &str) -> (r: Option<bool>)
    ensures
        r == spec_sysfs_bool(text@),
{
    let t = crate::text::trim_str(text);
    if crate::text::slice_eq(&t, &chars_of("1")) {
        Some(true)
    } else if crate::text::slice_eq(&t, &chars_of("0")) {
        Some(false)
    } else {
        None
    }
}

pub fn parse_sysfs_u64(text: &str) -> (r: Option<u64>)
    ensures
        r == crate::text::spec_parse_u64(crate::text::trim_seq(text@)),
{
    let t = crate::text::trim_str(text);
    crate::text::parse_u64(&t)
}

/// What `/sys/block/<name>` tells of a device: its size in 512-byte
/// sectors and its `removable` and `ro` flags, where they could be read.
#[derive(Debug, Clone)]
pub struct SysBlockEntry {
    pub name: String,
    pub size_sectors: Option<u64>,
    pub removable: Option<bool>,
    pub read_only: Option<bool>,
}

pub open spec fn spec_sys_block_target(e: SysBlockEntry, readable: bool, message: Option<Seq<char>>) -> TargetView {
    let path = "/dev/"@ + e.name@;
    TargetView {
        normalized_id: spec_normalized_id(HostOs::Linux, path),
        display_path: path,
        raw_path: path,
        name: e.name@,
        size_bytes: (match e.size_sectors {
            Some(n) => n,
            None => 0,
        } * 512) as u64,
        kind: if has_prefix(e.name@, "loop"@) {
            TargetKind::Virtual
        } else {
            TargetKind::Physical
        },
        protocol: guessed_protocol(e.name@),
        is_internal: not_opt(e.removable),
        is_removable: e.removable,
        is_external: e.removable,
        mount_state: TargetMountState::Unknown,
        readable,
        writable: match e.read_only {
            Some(ro) => !ro,
            None => false,
        },
        permission_message: message,
        source: TargetSource::System,
    }
}

/// The target record of a `/sys/block` entry.
pub fn sys_block_target(entry: SysBlockEntry, readable: bool, permission_message: Option<String>) -> (r: NormalizedTarget)
    requires
        match entry.size_sectors {
            Some(n) => n * 512 <= u64::MAX,
            None => true,
        },
    ensures
        r@ == spec_sys_block_target(entry, readable, opt_string_view(permission_message)),
{
    let mut p: Vec<char> = Vec::new();
    push_str(&mut p, "/dev/");
    push_str(&mut p, entry.name.as_str());
    let path = string_of(&p);
    let sectors = match entry.size_sectors {
        Some(n) => n,
        None => 0,
    };
    let is_loop = crate::text::starts_with(&chars_of(entry.name.as_str()), "loop");
    NormalizedTarget {
        normalized_id: normalized_id_from_path(HostOs::Linux, path.as_str()),
        display_path: path.clone(),
        raw_path: path,
        name: entry.name.clone(),
        size_bytes: sectors * 512,
        kind: if is_loop {
            TargetKind::Virtual
        } else {
            TargetKind::Physical
        },
        protocol: guess_protocol(entry.name.as_str()),
        is_internal: match entry.removable {
            Some(b) => Some(!b),
            None => None,
        },
        is_removable: entry.removable,
        is_external: entry.removable,
        mount_state: TargetMountState::Unknown,
        readable,
        writable: match entry.read_only {
            Some(ro) => !ro,
            None => false,
        },
        permission_message,
        source: TargetSource::System,
    }
}

// ---------------------------------------------------------------------------
// Windows: Get-Disk

/// One disk of `Get-Disk` output; each field is what the entry holds under
/// that name, where it holds a value of the right type.
#[derive(Debug, Clone)]
pub struct WindowsDiskEntry {
    pub number: Option<i64>,
    pub friendly_name: Option<String>,
    pub bus_type: Option<String>,
    pub size: Option<u64>,
    pub is_offline: Option<bool>,
    pub is_read_only: Option<bool>,
    pub is_removable: Option<bool>,
    pub is_virtual: Option<bool>,
}

/// `{}` of a signed integer.
pub open spec fn dec_i64(n: i64) -> Seq<char> {
    if n < 0 {
        seq!['-'] + crate::text::dec((-n) as nat)
    } else {
        crate::text::dec(n as nat)
    }
}

fn push_i64(out: &mut Vec<char>, n: i64)
    ensures
        final(out)@ == old(out)@ + dec_i64(n),
{
    if n < 0 {
        out.push('-');
        let m = (-(n as i128)) as u64;
        crate::text::push_dec(out, m);
    } else {
        crate::text::push_dec(out, n as u64);
    }
}

pub open spec fn spec_is_removable_bus_type(value: Seq<char>) -> bool {
    value == "usb"@ || value == "sd"@ || value == "external"@
}

pub fn is_removable_bus_type(value: &str) -> (r: bool)
    ensures
        r == spec_is_removable_bus_type(value@),
{
    crate::text::str_eq(value, "usb") || crate::text::str_eq(value, "sd") || crate::text::str_eq(value, "external")
}

pub open spec fn or_false(b: Option<bool>) -> bool {
    match b {
        Some(x) => x,
        None => false,
    }
}

pub open spec fn spec_windows_target(e: WindowsDiskEntry) -> TargetView {
    let number = match e.number {
        Some(n) => n,
        None => 0,
    };
    let raw = "\\\\.\\PhysicalDrive"@ + dec_i64(number);
    let bus = lower_opt(opt_string_view(e.bus_type));
    let offline = or_false(e.is_offline);
    let removable = match e.is_removable {
        Some(b) => Some(b),
        None => match bus {
            Some(b) => Some(spec_is_removable_bus_type(b)),
            None => None,
        },
    };
    TargetView {
        normalized_id: "physicaldrive"@ + dec_i64(number),
        display_path: raw,
        raw_path: raw,
        name: match opt_string_view(e.friendly_name) {
            Some(n) => if n.len() > 0 {
                n
            } else {
                "PhysicalDrive"@ + dec_i64(number)
            },
            None => "PhysicalDrive"@ + dec_i64(number),
        },
        size_bytes: match e.size {
            Some(n) => n,
            None => 0,
        },
        kind: if or_false(e.is_virtual) {
            TargetKind::Virtual
        } else {
            TargetKind::Physical
        },
        protocol: bus,
        is_internal: not_opt(removable),
        is_removable: removable,
        is_external: removable,
        mount_state: if offline {
            TargetMountState::Unmounted
        } else {
            TargetMountState::Mounted
        },
        readable: !offline,
        writable: !offline && !or_false(e.is_read_only),
        permission_message: if offline {
            Some("disk is offline or unavailable"@)
        } else {
            None
        },
        source: TargetSource::System,
    }
}

/// The target record of a Windows disk.
pub fn windows_entry_to_target(entry: WindowsDiskEntry) -> (r: NormalizedTarget)
    ensures
        r@ == spec_windows_target(entry),
{
    let number = match entry.number {
        Some(n) => n,
        None => 0,
    };
    let mut raw: Vec<char> = Vec::new();
    push_str(&mut raw, "\\\\.\\PhysicalDrive");
    push_i64(&mut raw, number);
    let raw = string_of(&raw);
    let bus = lower_opt_string(&entry.bus_type);
    let offline = match entry.is_offline {
        Some(b) => b,
        None => false,
    };
    let read_only = match entry.is_read_only {
        Some(b) => b,
        None => false,
    };
    let removable = match entry.is_removable {
        Some(b) => Some(b),
        None => match &bus {
            Some(b) => Some(is_removable_bus_type(b.as_str())),
            None => None,
        },
    };
    let mut id: Vec<char> = Vec::new();
    push_str(&mut id, "physicaldrive");
    push_i64(&mut id, number);
    let mut fallback: Vec<char> = Vec::new();
    push_str(&mut fallback, "PhysicalDrive");
    push_i64(&mut fallback, number);
    let name = match &entry.friendly_name {
        Some(n) => if chars_of(n.as_str()).len() > 0 {
            n.clone()
        } else {
            string_of(&fallback)
        },
        None => string_of(&fallback),
    };
    let is_virtual = match entry.is_virtual {
        Some(b) => b,
        None => false,
    };
    NormalizedTarget {
        normalized_id: string_of(&id),
        display_path: raw.clone(),
        raw_path: raw,
        name,
        size_bytes: match entry.size {
            Some(n) => n,
            None => 0,
        },
        kind: if is_virtual {
            TargetKind::Virtual
        } else {
            TargetKind::Physical
        },
        protocol: bus,
        is_internal: match removable {
            Some(b) => Some(!b),
            None => None,
        },
        is_removable: removable,
        is_external: removable,
        mount_state: if offline {
            TargetMountState::Unmounted
        } else {
            TargetMountState::Mounted
        },
        readable: !offline,
        writable: !offline && !read_only,
        permission_message: if offline {
            Some(owned("disk is offline or unavailable"))
        } else {
            None
        },
        source: TargetSource::System,
    }
}

/// The target records of the disks `Get-Disk` listed, in order.
pub fn parse_windows_targets(entries: Vec<WindowsDiskEntry>) -> (r: Vec<NormalizedTarget>)
    ensures
        targets_view(r@) == entries@.map_values(|e: WindowsDiskEntry| spec_windows_target(e)),
{
    let ghost orig = entries@;
    let mut rest = entries;
    let mut out: Vec<NormalizedTarget> = Vec::new();
    while rest.len() > 0
        invariant
            out@.len() + rest@.len() == orig.len(),
            rest@ == orig.skip(out@.len() as int),
            targets_view(out@) == orig.take(out@.len() as int).map_values(|e: WindowsDiskEntry| spec_windows_target(e)),
        decreases rest.len(),
    {
        let ghost n = out@.len();
        let ghost before = targets_view(out@);
        let e = rest.remove(0);
        proof {
            assert(e == orig[n as int]);
            assert(rest@ =~= orig.skip(n + 1 as int));
        }
        out.push(windows_entry_to_target(e));
        proof {
            assert(targets_view(out@) =~= before.push(spec_windows_target(orig[n as int])));
            assert(orig.take(n + 1 as int).map_values(|e: WindowsDiskEntry| spec_windows_target(e)) =~= orig.take(
                n as int,
            ).map_values(|e: WindowsDiskEntry| spec_windows_target(e)).push(spec_windows_target(orig[n as int])));
        }
    }
    proof {
        assert(orig.take(orig.len() as int) =~= orig);
    }
    out
}

// ---------------------------------------------------------------------------
// macOS: diskutil

/// One entry of `diskutil list -plist` (`AllDisksAndPartitions`); each field
/// is what the entry holds under that key, where it holds a value of the
/// right type.
#[derive(Debug, Clone)]
pub struct MacDiskEntry {
    pub device_identifier: Option<String>,
    pub device_node: Option<String>,
    pub size: Option<u64>,
    pub bus_protocol: Option<String>,
    pub internal: Option<bool>,
    pub removable_media: Option<bool>,
    pub mounted: Option<bool>,
    pub volume_name: Option<String>,
    pub media_name: Option<String>,
    pub read_only_media: Option<bool>,
}

pub open spec fn mac_device_node(e: MacDiskEntry, id: Seq<char>) -> Seq<char> {
    opt_or(opt_string_view(e.device_node), "/dev/"@ + id)
}

/// The raw device an entry is read through (`None` without an identifier).
pub open spec fn spec_mac_raw_path(e: MacDiskEntry) -> Option<Seq<char>> {
    match opt_string_view(e.device_identifier) {
        None => None,
        Some(id) => Some(crate::disk::spec_macos_raw_device_path(mac_device_node(e, id))),
    }
}

pub open spec fn spec_mac_target(e: MacDiskEntry, readable: bool, message: Option<Seq<char>>) -> Option<TargetView> {
    match opt_string_view(e.device_identifier) {
        None => None,
        Some(id) => {
            let node = mac_device_node(e, id);
            Some(TargetView {
                normalized_id: spec_normalized_id(HostOs::Macos, node),
                display_path: node,
                raw_path: crate::disk::spec_macos_raw_device_path(node),
                name: match opt_string_view(e.volume_name) {
                    Some(v) => v,
                    None => opt_or(opt_string_view(e.media_name), id),
                },
                size_bytes: match e.size {
                    Some(n) => n,
                    None => 0,
                },
                kind: TargetKind::Physical,
                protocol: lower_opt(opt_string_view(e.bus_protocol)),
                is_internal: e.internal,
                is_removable: e.removable_media,
                is_external: not_opt(e.internal),
                mount_state: if or_false(e.mounted) {
                    TargetMountState::Mounted
                } else {
                    TargetMountState::Unmounted
                },
                readable,
                writable: !or_false(e.read_only_media),
                permission_message: message,
                source: TargetSource::System,
            })
        },
    }
}

fn mac_node(e: &MacDiskEntry, id: &str) -> (r: String)
    ensures
        r@ == mac_device_node(*e, id@),
{
    match &e.device_node {
        Some(n) => n.clone(),
        None => {
            let mut v: Vec<char> = Vec::new();
            push_str(&mut v, "/dev/");
            push_str(&mut v, id);
            string_of(&v)
        },
    }
}

pub fn mac_entry_raw_path(entry: &MacDiskEntry) -> (r: Option<String>)
    ensures
        opt_string_view(r) == spec_mac_raw_path(*entry),
{
    match &entry.device_identifier {
        None => None,
        Some(id) => {
            let node = mac_node(entry, id.as_str());
            Some(crate::disk::macos_raw_device_path(node.as_str()))
        },
    }
}

/// The target record of a diskutil entry (`None` without an identifier).
pub fn mac_entry_to_target(entry: MacDiskEntry, readable: bool, permission_message: Option<String>) -> (r: Option<
    NormalizedTarget,
>)
    ensures
        match r {
            Some(t) => spec_mac_target(entry, readable, opt_string_view(permission_message)) == Some(t@),
            None => spec_mac_target(entry, readable, opt_string_view(permission_message)) is None,
        },
{
    let id = match &entry.device_identifier {
        None => {
            return None;
        },
        Some(id) => id.clone(),
    };
    let node = mac_node(&entry, id.as_str());
    let raw = crate::disk::macos_raw_device_path(node.as_str());
    let name = match &entry.volume_name {
        Some(v) => v.clone(),
        None => match &entry.media_name {
            Some(m) => m.clone(),
            None => id.clone(),
        },
    };
    let mounted = match entry.mounted {
        Some(b) => b,
        None => false,
    };
    let read_only = match entry.read_only_media {
        Some(b) => b,
        None => false,
    };
    Some(NormalizedTarget {
        normalized_id: normalized_id_from_path(HostOs::Macos, node.as_str()),
        display_path: node,
        raw_path: raw,
        name,
        size_bytes: match entry.size {
            Some(n) => n,
            None => 0,
        },
        kind: TargetKind::Physical,
        protocol: lower_opt_string(&entry.bus_protocol),
        is_internal: entry.internal,
        is_removable: entry.removable_media,
        is_external: match entry.internal {
            Some(b) => Some(!b),
            None => None,
        },
        mount_state: if mounted {
            TargetMountState::Mounted
        } else {
            TargetMountState::Unmounted
        },
        readable,
        writable: !read_only,
        permission_message,
        source: TargetSource::System,
    })
}

} // verus!
