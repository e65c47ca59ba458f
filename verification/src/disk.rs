//! Target classification and the in-memory sector reader.
use vstd::prelude::*;
use crate::domain::{AccessCapability, DiskSource, HostOs, TargetSafety, opt_str_view};
use crate::text::{chars_of, eq_ignore_ascii_case, has_prefix, is_ascii_digit, lower_seq, owned, push_str, starts_with, string_of};

verus! {

pub const SECTOR_SIZE: u64 = 512;

#[derive(Debug, Clone)]
pub enum DiskError {
    Io(String),
    NotFound(String),
    PermissionDenied(String),
}

/// `protocol` names USB, ignoring ASCII case.
pub open spec fn is_usb(protocol: Option<Seq<char>>) -> bool {
    match protocol {
        Some(p) => lower_seq(p) == seq!['u', 's', 'b'],
        None => false,
    }
}

/// How risky a target is to write to.
pub open spec fn spec_classify_target_safety(
    source: DiskSource,
    is_internal: Option<bool>,
    is_removable: Option<bool>,
    protocol: Option<Seq<char>>,
) -> TargetSafety {
    if source == DiskSource::ImageFile {
        TargetSafety::Image
    } else if is_internal == Some(true) {
        TargetSafety::Internal
    } else if is_removable == Some(true) {
        TargetSafety::Removable
    } else if is_usb(protocol) || is_internal == Some(false) {
        TargetSafety::External
    } else {
        TargetSafety::Unknown
    }
}

pub fn is_usb_protocol(protocol: Option<&str>) -> (r: bool)
    ensures
        r == is_usb(opt_str_view(protocol)),
{
    match protocol {
        Some(p) => {
            let usb = "usb";
            proof {
                reveal_strlit("usb");
            }
            let r = eq_ignore_ascii_case(p, usb);
            assert(lower_seq(usb@) =~= seq!['u', 's', 'b']);
            r
        },
        None => false,
    }
}

pub fn classify_target_safety(
    source: DiskSource,
    is_internal: Option<bool>,
    is_removable: Option<bool>,
    protocol: Option<&str>,
) -> (r: TargetSafety)
    ensures
        r == spec_classify_target_safety(source, is_internal, is_removable, opt_str_view(protocol)),
{
    if source == DiskSource::ImageFile {
        return TargetSafety::Image;
    }
    if is_internal == Some(true) {
        return TargetSafety::Internal;
    }
    if is_removable == Some(true) {
        return TargetSafety::Removable;
    }
    if is_usb_protocol(protocol) || is_internal == Some(false) {
        return TargetSafety::External;
    }
    TargetSafety::Unknown
}

pub open spec fn spec_access_capability(readable: bool, writable: bool) -> AccessCapability {
    if readable && writable {
        AccessCapability::ReadWrite
    } else if readable {
        AccessCapability::ReadOnly
    } else {
        AccessCapability::RequiresElevation
    }
}

pub fn access_capability(readable: bool, writable: bool) -> (r: AccessCapability)
    ensures
        r == spec_access_capability(readable, writable),
{
    match (readable, writable) {
        (true, true) => AccessCapability::ReadWrite,
        (true, false) => AccessCapability::ReadOnly,
        (false, _) => AccessCapability::RequiresElevation,
    }
}

/// A read of `len` bytes at `offset` of `c` succeeds: it is empty, or it
/// ends inside `c`.
pub open spec fn range_readable(c: Seq<u8>, offset: int, len: int) -> bool {
    len == 0 || offset + len <= c.len()
}

/// The bytes such a read gives.
pub open spec fn range_at(c: Seq<u8>, offset: int, len: int) -> Seq<u8> {
    if len == 0 {
        Seq::<u8>::empty()
    } else {
        c.subrange(offset, offset + len)
    }
}

/// The message of a read that runs past the end.
pub open spec fn short_read() -> Seq<char> {
    "failed to fill whole buffer"@
}

/// A block device or image, held as the bytes that can be read from it.
/// `size` is the size the device reports, which can differ from the number
/// of readable bytes.
pub struct DiskReader {
    pub path: String,
    pub size: u64,
    pub data: Vec<u8>,
}

impl DiskReader {
    /// The bytes that reads see.
    pub open spec fn content(&self) -> Seq<u8> {
        self.data@
    }

    pub fn from_bytes(path: String, size: u64, data: Vec<u8>) -> (r: DiskReader)
        ensures
            r.path == path,
            r.size == size,
            r.content() == data@,
    {
        DiskReader { path, size, data }
    }

    /// Number of readable bytes.
    pub fn content_len(&self) -> (n: usize)
        ensures
            n == self.content().len(),
    {
        self.data.len()
    }

    /// Reads `len` bytes at `offset`; fails when a non-empty range runs past
    /// the end. An empty read succeeds at any offset.
    pub fn read_at(&self, offset: u64, len: usize) -> (r: Result<Vec<u8>, DiskError>)
        ensures
            r is Ok <==> range_readable(self.content(), offset as int, len as int),
            r matches Ok(v) ==> v@ == range_at(self.content(), offset as int, len as int),
            r matches Err(e) ==> e is Io && e->Io_0@ == short_read(),
    {
        let n = self.data.len();
        if len == 0 {
            return Ok(Vec::new());
        }
        if offset > n as u64 || len > n - (offset as usize) {
            return Err(DiskError::Io(owned("failed to fill whole buffer")));
        }
        let off = offset as usize;
        Ok(crate::bytes::copy_range(&self.data, off, len))
    }

    /// Reads the 512-byte sector `lba`.
    pub fn read_sector(&self, lba: u64) -> (r: Result<Vec<u8>, DiskError>)
        requires
            lba * SECTOR_SIZE <= u64::MAX,
        ensures
            r is Ok <==> lba * 512 + 512 <= self.content().len(),
            r matches Ok(v) ==> v@ == self.content().subrange(lba * 512, lba * 512 + 512),
            r matches Err(e) ==> e is Io && e->Io_0@ == short_read(),
    {
        self.read_at(lba * SECTOR_SIZE, SECTOR_SIZE as usize)
    }
}

/// `/dev/diskN` becomes `/dev/rdiskN` when the suffix is all digits.
pub open spec fn spec_macos_raw_device_path(path: Seq<char>) -> Seq<char> {
    let prefix = seq!['/', 'd', 'e', 'v', '/', 'd', 'i', 's', 'k'];
    if has_prefix(path, prefix) && (forall|i: int| 9 <= i < path.len() ==> is_ascii_digit(#[trigger] path[i])) {
        seq!['/', 'd', 'e', 'v', '/', 'r', 'd', 'i', 's', 'k'] + path.skip(9)
    } else {
        path
    }
}

pub fn macos_raw_device_path(path: &str) -> (r: String)
    ensures
        r@ == spec_macos_raw_device_path(path@),
{
    let v = chars_of(path);
    let dev_disk = "/dev/disk";
    proof {
        reveal_strlit("/dev/disk");
    }
    if starts_with(&v, dev_disk) {
        let mut i: usize = 9;
        let mut all_digits = true;
        while i < v.len()
            invariant
                9 <= i <= v.len(),
                all_digits == (forall|k: int| 9 <= k < i ==> is_ascii_digit(#[trigger] v@[k])),
            decreases v.len() - i,
        {
            if !('0' <= v[i] && v[i] <= '9') {
                all_digits = false;
            }
            i = i + 1;
        }
        if all_digits {
            let mut out: Vec<char> = Vec::new();
            let rdisk = "/dev/rdisk";
            push_str(&mut out, rdisk);
            let mut j: usize = 9;
            while j < v.len()
                invariant
                    9 <= j <= v.len(),
                    out@ == rdisk@ + v@.subrange(9, j as int),
                decreases v.len() - j,
            {
                out.push(v[j]);
                j = j + 1;
                assert(v@.subrange(9, j as int) == v@.subrange(9, j - 1 as int).push(v@[j - 1]));
            }
            proof {
                reveal_strlit("/dev/rdisk");
                assert(v@.skip(9) =~= v@.subrange(9, v@.len() as int));
                assert(rdisk@ =~= seq!['/', 'd', 'e', 'v', '/', 'r', 'd', 'i', 's', 'k']);
                assert(dev_disk@ =~= seq!['/', 'd', 'e', 'v', '/', 'd', 'i', 's', 'k']);
            }
            return string_of(&out);
        }
    }
    proof {
        assert(dev_disk@ =~= seq!['/', 'd', 'e', 'v', '/', 'd', 'i', 's', 'k']);
    }
    string_of(&v)
}

/// The path a reader opens for `path` on `os`.
pub open spec fn spec_platform_device_path(os: HostOs, path: Seq<char>) -> Seq<char> {
    if os == HostOs::Macos {
        spec_macos_raw_device_path(path)
    } else {
        path
    }
}

pub fn platform_device_path(os: HostOs, path: &str) -> (r: String)
    ensures
        r@ == spec_platform_device_path(os, path@),
{
    if os == HostOs::Macos {
        macos_raw_device_path(path)
    } else {
        owned(path)
    }
}

} // verus!
