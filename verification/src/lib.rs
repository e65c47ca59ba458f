//! Partition analysis and disk-recovery planning, verified with Verus.
use vstd::prelude::*;

pub mod boot_sector;
pub mod bytes;
pub mod carving;
pub mod cli;
pub mod disk;
pub mod domain;
pub mod formatter;
pub mod fs_detect;
pub mod gpt;
pub mod imaging;
pub mod mbr;
pub mod platform;
pub mod recovery;
pub mod report;
pub mod recovery_plan;
pub mod scanner;
pub mod sorting;
pub mod text;
pub mod writeback;

verus! {
} // verus!
