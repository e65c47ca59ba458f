//! Little- and big-endian field access, and the CRC-32 checksum.
use vstd::prelude::*;
use byteorder::{BigEndian, ByteOrder, LittleEndian};

verus! {

/// Little-endian 16-bit value of `s[off..off + 2]`.
pub open spec fn le16(s: Seq<u8>, off: int) -> nat {
    (s[off] as nat) + 256 * (s[off + 1] as nat)
}

/// Little-endian 32-bit value of `s[off..off + 4]`.
pub open spec fn le32(s: Seq<u8>, off: int) -> nat {
    le16(s, off) + 65536 * le16(s, off + 2)
}

/// Little-endian 64-bit value of `s[off..off + 8]`.
pub open spec fn le64(s: Seq<u8>, off: int) -> nat {
    le32(s, off) + 4294967296 * le32(s, off + 4)
}

/// Big-endian 16-bit value of `s[off..off + 2]`.
pub open spec fn be16(s: Seq<u8>, off: int) -> nat {
    256 * (s[off] as nat) + (s[off + 1] as nat)
}

/// Reads a little-endian `u16` at `off`.
///
/// Trusted: `byteorder::LittleEndian::read_u16`, which returns
/// `u16::from_le_bytes` of the first two bytes of its argument.
#[verifier::external_body]
pub(crate) fn read_le16(buf: &[u8], off: usize) -> (r: u16)
    requires
        off + 2 <= buf@.len(),
    ensures
        r == le16(buf@, off as int),
{
    LittleEndian::read_u16(&buf[off..off + 2])
}

/// Reads a little-endian `u32` at `off`.
///
/// Trusted: `byteorder::LittleEndian::read_u32`, which returns
/// `u32::from_le_bytes` of the first four bytes of its argument.
#[verifier::external_body]
pub(crate) fn read_le32(buf: &[u8], off: usize) -> (r: u32)
    requires
        off + 4 <= buf@.len(),
    ensures
        r == le32(buf@, off as int),
{
    LittleEndian::read_u32(&buf[off..off + 4])
}

/// Reads a little-endian `u64` at `off`.
///
/// Trusted: `byteorder::LittleEndian::read_u64`, which returns
/// `u64::from_le_bytes` of the first eight bytes of its argument.
#[verifier::external_body]
pub(crate) fn read_le64(buf: &[u8], off: usize) -> (r: u64)
    requires
        off + 8 <= buf@.len(),
    ensures
        r == le64(buf@, off as int),
{
    LittleEndian::read_u64(&buf[off..off + 8])
}

/// Reads a big-endian `u16` at `off`.
///
/// Trusted: `byteorder::BigEndian::read_u16`, which returns
/// `u16::from_be_bytes` of the first two bytes of its argument.
#[verifier::external_body]
pub(crate) fn read_be16(buf: &[u8], off: usize) -> (r: u16)
    requires
        off + 2 <= buf@.len(),
    ensures
        r == be16(buf@, off as int),
{
    BigEndian::read_u16(&buf[off..off + 2])
}

/// The CRC-32 (IEEE) checksum of a byte sequence. Its value is fixed by the
/// bytes alone; nothing more about it is stated here.
pub uninterp spec fn crc32_of(data: Seq<u8>) -> u32;

/// CRC-32 of `data`.
///
/// Trusted: `crc32fast::hash`, a pure function of its input bytes.
#[verifier::external_body]
pub(crate) fn crc32(data: &[u8]) -> (r: u32)
    ensures
        r == crc32_of(data@),
{
    crc32fast::hash(data)
}

/// The running CRC-32 state of `crc32fast`, held opaque.
#[verifier::external_type_specification]
#[verifier::external_body]
pub struct ExCrc32Hasher(crc32fast::Hasher);

/// The bytes a `crc32fast::Hasher` has been fed since it was made.
pub uninterp spec fn hashed_bytes(h: crc32fast::Hasher) -> Seq<u8>;

/// A fresh CRC-32 hasher.
///
/// Trusted: `crc32fast::Hasher::new`, which starts from the initial state
/// with no bytes counted.
#[verifier::external_body]
pub(crate) fn crc32_hasher() -> (h: crc32fast::Hasher)
    ensures
        hashed_bytes(h) == Seq::<u8>::empty(),
{
    crc32fast::Hasher::new()
}

/// Feeds `buf` to the hasher.
///
/// Trusted: `crc32fast::Hasher::update`, which adds `buf` to the running
/// checksum and its length to a `u64` byte count (hence the bound).
#[verifier::external_body]
pub(crate) fn crc32_update(h: &mut crc32fast::Hasher, buf: &[u8])
    requires
        hashed_bytes(*old(h)).len() + buf@.len() <= u64::MAX,
    ensures
        hashed_bytes(*final(h)) == hashed_bytes(*old(h)) + buf@,
{
    h.update(buf)
}

/// The checksum of everything fed to the hasher.
///
/// Trusted: `crc32fast::Hasher::finalize`; `crc32fast::hash` is `new`, one
/// `update` and `finalize`, and feeding the bytes in pieces gives the same
/// state as feeding them at once, so the result is the CRC-32 of all bytes
/// fed.
#[verifier::external_body]
pub(crate) fn crc32_finalize(h: crc32fast::Hasher) -> (r: u32)
    ensures
        r == crc32_of(hashed_bytes(h)),
{
    h.finalize()
}

/// Copies `len` bytes of `buf` starting at `off`.
pub fn copy_range(buf: &[u8], off: usize, len: usize) -> (r: Vec<u8>)
    requires
        off + len <= buf@.len(),
    ensures
        r@ == buf@.subrange(off as int, off + len),
{
    let mut r: Vec<u8> = Vec::new();
    let mut i: usize = 0;
    while i < len
        invariant
            i <= len,
            off + len <= buf.len(),
            r@ == buf@.subrange(off as int, off + i),
        decreases len - i,
    {
        r.push(buf[off + i]);
        i = i + 1;
        assert(buf@.subrange(off as int, off + i) == buf@.subrange(off as int, off + i - 1).push(buf@[off + i - 1]));
    }
    r
}

/// Byte-slice equality.
pub fn bytes_eq(x: &[u8], y: &[u8]) -> (r: bool)
    ensures
        r == (x@ == y@),
{
    if x.len() != y.len() {
        return false;
    }
    let mut i: usize = 0;
    while i < x.len()
        invariant
            i <= x.len(),
            x.len() == y.len(),
            forall|k: int| 0 <= k < i ==> x@[k] == y@[k],
        decreases x.len() - i,
    {
        if x[i] != y[i] {
            return false;
        }
        i = i + 1;
    }
    assert(x@ =~= y@);
    true
}

/// All bytes of `s[lo..hi]` are zero.
pub fn all_zero(s: &[u8], lo: usize, hi: usize) -> (r: bool)
    requires
        lo <= hi <= s@.len(),
    ensures
        r == (forall|k: int| lo <= k < hi ==> s@[k] == 0),
{
    let mut i: usize = lo;
    while i < hi
        invariant
            lo <= i <= hi <= s@.len(),
            forall|k: int| lo <= k < i ==> s@[k] == 0,
        decreases hi - i,
    {
        if s[i] != 0 {
            return false;
        }
        i = i + 1;
    }
    true
}

} // verus!
