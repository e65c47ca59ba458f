//! The shared disk and scan model.
use vstd::prelude::*;
use crate::fs_detect::{FilesystemInfo, FsInfoView, opt_fs_view};
use crate::gpt::GptTable;
use crate::mbr::MbrTable;

verus! {

/// The operating system whose tools and device naming a plan targets.
#[derive(Debug, Clone, Copy, PartialEq, Eq, Structural)]
pub enum HostOs {
    Macos,
    Linux,
    Windows,
    Other,
}

#[derive(Debug, Clone)]
pub struct DiskInfo {
    pub path: String,
    pub display_path: String,
    pub raw_path: String,
    pub platform_id: String,
    pub name: String,
    pub size_bytes: u64,
    pub readable: bool,
    pub writable: bool,
    pub source: DiskSource,
    pub kind: DiskKind,
    pub safety: TargetSafety,
    pub access: AccessCapability,
    pub protocol: Option<String>,
    pub is_internal: Option<bool>,
    pub is_removable: Option<bool>,
}

#[derive(Debug, Clone, Copy, PartialEq, Eq, Structural)]
pub enum DiskSource {
    System,
    ImageFile,
}

#[derive(Debug, Clone, Copy, PartialEq, Eq, Structural)]
pub enum DiskKind {
    Physical,
    Image,
}

#[derive(Debug, Clone, Copy, PartialEq, Eq, Structural)]
pub enum TargetSafety {
    Internal,
    External,
    Removable,
    Image,
    Unknown,
}

#[derive(Debug, Clone, Copy, PartialEq, Eq, Structural)]
pub enum AccessCapability {
    ReadWrite,
    ReadOnly,
    RequiresElevation,
    Unavailable,
}

#[derive(Debug, Clone, Copy, PartialEq, Eq, Structural)]
pub enum PartitionTableType {
    Gpt,
    Mbr,
    Unknown,
}

/// One partition found by a scan. `confidence` is in thousandths
/// (960 stands for 0.96).
#[derive(Debug, Clone)]
pub struct PartitionResult {
    pub index: u32,
    pub name: String,
    pub start_lba: u64,
    pub end_lba: u64,
    pub size_bytes: u64,
    pub type_label: String,
    pub filesystem: Option<FilesystemInfo>,
    pub status: String,
    pub source: String,
    pub confidence: u32,
    pub conflict_status: String,
}

#[derive(Debug, Clone)]
pub struct ScanResult {
    pub disk_path: String,
    pub disk_size: u64,
    pub partition_table_type: PartitionTableType,
    pub mbr: Option<MbrTable>,
    pub gpt: Option<GptTable>,
    pub partitions: Vec<PartitionResult>,
    pub lost_partitions: Vec<PartitionResult>,
    pub warnings: Vec<String>,
}

/// The text and numbers of a `PartitionResult`.
pub struct PartView {
    pub index: u32,
    pub name: Seq<char>,
    pub start_lba: u64,
    pub end_lba: u64,
    pub size_bytes: u64,
    pub type_label: Seq<char>,
    pub filesystem: Option<FsInfoView>,
    pub status: Seq<char>,
    pub source: Seq<char>,
    pub confidence: u32,
    pub conflict_status: Seq<char>,
}

impl View for PartitionResult {
    type V = PartView;

    open spec fn view(&self) -> PartView {
        PartView {
            index: self.index,
            name: self.name@,
            start_lba: self.start_lba,
            end_lba: self.end_lba,
            size_bytes: self.size_bytes,
            type_label: self.type_label@,
            filesystem: opt_fs_view(self.filesystem),
            status: self.status@,
            source: self.source@,
            confidence: self.confidence,
            conflict_status: self.conflict_status@,
        }
    }
}

/// The views of a sequence of partitions.
pub open spec fn parts_view(v: Seq<PartitionResult>) -> Seq<PartView> {
    v.map_values(|p: PartitionResult| p@)
}

/// The view of an optional string slice.
pub open spec fn opt_str_view(s: Option<&str>) -> Option<Seq<char>> {
    match s {
        Some(v) => Some(v@),
        None => None,
    }
}

/// The view of an optional owned string.
pub open spec fn opt_string_view(s: Option<String>) -> Option<Seq<char>> {
    match s {
        Some(v) => Some(v@),
        None => None,
    }
}

/// The views of a sequence of strings.
pub open spec fn strings_view(v: Seq<String>) -> Seq<Seq<char>> {
    v.map_values(|s: String| s@)
}

} // verus!
