//! The GUID partition table: header, CRC check and entry array.
use vstd::prelude::*;
use crate::bytes::{crc32, crc32_of, le16, le32, le64, read_le16, read_le32, read_le64, all_zero};
use crate::disk::{DiskError, DiskReader, SECTOR_SIZE};
use crate::text::{
    chars_of, from_utf16_lossy, hex_pad, is_ascii_seq, owned, push_hex, string_of, unicode_to_upper,
    unicode_upper, upper_seq, utf16_lossy,
};

verus! {

#[derive(Debug, Clone)]
pub struct GptPartition {
    pub index: u32,
    pub type_guid: String,
    pub partition_guid: String,
    pub name: String,
    pub start_lba: u64,
    pub end_lba: u64,
    pub size_bytes: u64,
    pub type_label: String,
}

#[derive(Debug, Clone)]
pub struct GptTable {
    pub header_lba: u64,
    pub partitions: Vec<GptPartition>,
    pub disk_guid: String,
    pub signature_valid: bool,
    pub crc_valid: bool,
}

/// Name of a partition type GUID written in upper case.
pub open spec fn gpt_type_of(g: Seq<char>) -> Seq<char> {
    if g == "C12A7328-F81F-11D2-BA4B-00A0C93EC93B"@ {
        "EFI System"@
    } else if g == "EBD0A0A2-B9E5-4433-87C0-68B6B72699C7"@ {
        "Microsoft Basic Data"@
    } else if g == "E3C9E316-0B5C-4DB8-817D-F92DF00215AE"@ {
        "Microsoft Reserved"@
    } else if g == "DE94BBA4-06D1-4D40-A16A-BFD50179D6AC"@ {
        "Windows Recovery"@
    } else if g == "0FC63DAF-8483-4772-8E79-3D69D8477DE4"@ {
        "Linux filesystem"@
    } else if g == "0657FD6D-A4AB-43C4-84E5-0933C84B4F4F"@ {
        "Linux Swap"@
    } else if g == "E6D6D379-F507-44C2-805E-16358CC8F43E"@ {
        "Linux LVM"@
    } else if g == "48465300-0000-11AA-AA11-00306543ECAC"@ {
        "Apple HFS+"@
    } else if g == "7C3457EF-0000-11AA-AA11-00306543ECAC"@ {
        "Apple APFS"@
    } else if g == "516E7CB4-6ECF-11D6-8FF8-000393217D9E"@ {
        "Apple Boot"@
    } else {
        "Unknown"@
    }
}

/// The type name of a GUID string, compared after Unicode upper-casing.
pub open spec fn spec_gpt_type_name(guid: Seq<char>) -> Seq<char> {
    gpt_type_of(unicode_upper(guid))
}

fn type_of_upper(g: &[char]) -> (r: &'static str)
    ensures
        r@ == gpt_type_of(g@),
{
    let keys: [&str; 10] = [
        "C12A7328-F81F-11D2-BA4B-00A0C93EC93B",
        "EBD0A0A2-B9E5-4433-87C0-68B6B72699C7",
        "E3C9E316-0B5C-4DB8-817D-F92DF00215AE",
        "DE94BBA4-06D1-4D40-A16A-BFD50179D6AC",
        "0FC63DAF-8483-4772-8E79-3D69D8477DE4",
        "0657FD6D-A4AB-43C4-84E5-0933C84B4F4F",
        "E6D6D379-F507-44C2-805E-16358CC8F43E",
        "48465300-0000-11AA-AA11-00306543ECAC",
        "7C3457EF-0000-11AA-AA11-00306543ECAC",
        "516E7CB4-6ECF-11D6-8FF8-000393217D9E",
    ];
    if crate::text::slice_eq(g, &chars_of(keys[0])) {
        "EFI System"
    } else if crate::text::slice_eq(g, &chars_of(keys[1])) {
        "Microsoft Basic Data"
    } else if crate::text::slice_eq(g, &chars_of(keys[2])) {
        "Microsoft Reserved"
    } else if crate::text::slice_eq(g, &chars_of(keys[3])) {
        "Windows Recovery"
    } else if crate::text::slice_eq(g, &chars_of(keys[4])) {
        "Linux filesystem"
    } else if crate::text::slice_eq(g, &chars_of(keys[5])) {
        "Linux Swap"
    } else if crate::text::slice_eq(g, &chars_of(keys[6])) {
        "Linux LVM"
    } else if crate::text::slice_eq(g, &chars_of(keys[7])) {
        "Apple HFS+"
    } else if crate::text::slice_eq(g, &chars_of(keys[8])) {
        "Apple APFS"
    } else if crate::text::slice_eq(g, &chars_of(keys[9])) {
        "Apple Boot"
    } else {
        "Unknown"
    }
}

pub fn gpt_type_name(guid: &str) -> (r: &'static str)
    ensures
        r@ == spec_gpt_type_name(guid@),
        is_ascii_seq(guid@) ==> r@ == gpt_type_of(upper_seq(guid@)),
{
    let g = unicode_to_upper(guid);
    type_of_upper(&g)
}

/// The type lookup ignores case: an ASCII GUID written in lower case names
/// the same type as written in any other case.
pub proof fn lemma_gpt_type_ignores_ascii_case(g: Seq<char>)
    requires
        is_ascii_seq(g),
    ensures
        is_ascii_seq(crate::text::lower_seq(g)),
        gpt_type_of(upper_seq(crate::text::lower_seq(g))) == gpt_type_of(upper_seq(g)),
{
    assert forall|i: int| 0 <= i < g.len() implies (#[trigger] crate::text::lower_seq(g)[i] as u32) < 128 by {
        assert((g[i] as u32) < 128);
    }
    assert forall|i: int| 0 <= i < g.len() implies #[trigger] upper_seq(crate::text::lower_seq(g))[i] == upper_seq(g)[i] by {
        assert((g[i] as u32) < 128);
    }
    assert(upper_seq(crate::text::lower_seq(g)) =~= upper_seq(g));
}

/// `{:08X}-{:04X}-{:04X}-{:02X}{:02X}-{:02X}{:02X}{:02X}{:02X}{:02X}{:02X}` of a
/// 16-byte mixed-endian GUID.
pub open spec fn spec_format_guid(b: Seq<u8>) -> Seq<char> {
    if b.len() < 16 {
        seq![]
    } else {
        hex_pad(le32(b, 0), 8, true) + seq!['-'] + hex_pad(le16(b, 4), 4, true) + seq!['-']
            + hex_pad(le16(b, 6), 4, true) + seq!['-'] + hex_pad(b[8] as nat, 2, true)
            + hex_pad(b[9] as nat, 2, true) + seq!['-'] + hex_pad(b[10] as nat, 2, true)
            + hex_pad(b[11] as nat, 2, true) + hex_pad(b[12] as nat, 2, true)
            + hex_pad(b[13] as nat, 2, true) + hex_pad(b[14] as nat, 2, true)
            + hex_pad(b[15] as nat, 2, true)
    }
}

/// The two upper-case hex digits of a byte, high nibble first.
pub open spec fn hex_byte(x: u8) -> Seq<char> {
    seq![crate::text::hex_char((x / 16) as nat, true), crate::text::hex_char((x % 16) as nat, true)]
}

proof fn lemma_hex_pad_byte(x: nat)
    requires
        x < 256,
    ensures
        hex_pad(x, 2, true) == hex_byte(x as u8),
{
    assert(hex_pad(x / 16, 1, true) == seq![crate::text::hex_char(x / 16, true)]);
    assert(hex_pad(x, 2, true) =~= hex_byte(x as u8));
}

/// Appending a byte below the value appends its two hex digits.
proof fn lemma_hex_pad_shift(m: nat, x: nat, w: nat)
    requires
        x < 256,
        w >= 1,
    ensures
        hex_pad(m * 256 + x, w + 2, true) == hex_pad(m, w, true) + hex_byte(x as u8),
{
    let n = m * 256 + x;
    assert(n / 16 == m * 16 + x / 16) by (nonlinear_arith)
        requires n == m * 256 + x, x < 256;
    assert(n % 16 == x % 16) by (nonlinear_arith)
        requires n == m * 256 + x, x < 256;
    assert((m * 16 + x / 16) / 16 == m) by (nonlinear_arith)
        requires x < 256;
    assert((m * 16 + x / 16) % 16 == x / 16) by (nonlinear_arith)
        requires x < 256;
    assert(hex_pad(n, w + 2, true) == hex_pad(n / 16, (w + 1) as nat, true).push(crate::text::hex_char(n % 16, true)));
    assert(hex_pad(m * 16 + x / 16, (w + 1) as nat, true) == hex_pad(m, w, true).push(
        crate::text::hex_char(x / 16, true),
    ));
    assert(hex_pad(n, w + 2, true) =~= hex_pad(m, w, true) + hex_byte(x as u8));
}

/// The text of a GUID, byte by byte: the first group is bytes 3, 2, 1, 0,
/// the second bytes 5, 4, the third bytes 7, 6 (each group little-endian),
/// then bytes 8 and 9, and bytes 10 to 15 in order, each byte as two
/// upper-case hex digits, the groups joined by `-`.
pub proof fn lemma_guid_text(b: Seq<u8>)
    requires
        b.len() >= 16,
    ensures
        spec_format_guid(b) == hex_byte(b[3]) + hex_byte(b[2]) + hex_byte(b[1]) + hex_byte(b[0]) + seq!['-']
            + hex_byte(b[5]) + hex_byte(b[4]) + seq!['-'] + hex_byte(b[7]) + hex_byte(b[6]) + seq!['-']
            + hex_byte(b[8]) + hex_byte(b[9]) + seq!['-'] + hex_byte(b[10]) + hex_byte(b[11]) + hex_byte(b[12])
            + hex_byte(b[13]) + hex_byte(b[14]) + hex_byte(b[15]),
        spec_format_guid(b).len() == 36,
{
    let b0 = b[0] as nat;
    let b1 = b[1] as nat;
    let b2 = b[2] as nat;
    let b3 = b[3] as nat;
    // Second and third groups.
    lemma_hex_pad_byte(b[5] as nat);
    lemma_hex_pad_shift(b[5] as nat, b[4] as nat, 2);
    assert(le16(b, 4) == (b[5] as nat) * 256 + (b[4] as nat));
    lemma_hex_pad_byte(b[7] as nat);
    lemma_hex_pad_shift(b[7] as nat, b[6] as nat, 2);
    assert(le16(b, 6) == (b[7] as nat) * 256 + (b[6] as nat));
    // First group.
    lemma_hex_pad_byte(b3);
    lemma_hex_pad_shift(b3, b2, 2);
    lemma_hex_pad_shift(b3 * 256 + b2, b1, 4);
    lemma_hex_pad_shift((b3 * 256 + b2) * 256 + b1, b0, 6);
    assert(le32(b, 0) == ((b3 * 256 + b2) * 256 + b1) * 256 + b0) by (nonlinear_arith)
        requires
            le32(b, 0) == b0 + 256 * b1 + 65536 * (b2 + 256 * b3),
    ;
    assert(hex_pad(le32(b, 0), 8, true) == hex_byte(b[3]) + hex_byte(b[2]) + hex_byte(b[1]) + hex_byte(b[0]));
    lemma_hex_pad_byte(b[8] as nat);
    lemma_hex_pad_byte(b[9] as nat);
    lemma_hex_pad_byte(b[10] as nat);
    lemma_hex_pad_byte(b[11] as nat);
    lemma_hex_pad_byte(b[12] as nat);
    lemma_hex_pad_byte(b[13] as nat);
    lemma_hex_pad_byte(b[14] as nat);
    lemma_hex_pad_byte(b[15] as nat);
    assert(spec_format_guid(b) =~= hex_byte(b[3]) + hex_byte(b[2]) + hex_byte(b[1]) + hex_byte(b[0]) + seq!['-']
        + hex_byte(b[5]) + hex_byte(b[4]) + seq!['-'] + hex_byte(b[7]) + hex_byte(b[6]) + seq!['-'] + hex_byte(b[8])
        + hex_byte(b[9]) + seq!['-'] + hex_byte(b[10]) + hex_byte(b[11]) + hex_byte(b[12]) + hex_byte(b[13])
        + hex_byte(b[14]) + hex_byte(b[15]));
}

pub fn format_guid(bytes: &[u8]) -> (r: Vec<char>)
    ensures
        r@ == spec_format_guid(bytes@),
{
    let mut out: Vec<char> = Vec::new();
    if bytes.len() < 16 {
        return out;
    }
    push_hex(&mut out, read_le32(bytes, 0) as u64, 8, true);
    out.push('-');
    push_hex(&mut out, read_le16(bytes, 4) as u64, 4, true);
    out.push('-');
    push_hex(&mut out, read_le16(bytes, 6) as u64, 4, true);
    out.push('-');
    push_hex(&mut out, bytes[8] as u64, 2, true);
    push_hex(&mut out, bytes[9] as u64, 2, true);
    out.push('-');
    push_hex(&mut out, bytes[10] as u64, 2, true);
    push_hex(&mut out, bytes[11] as u64, 2, true);
    push_hex(&mut out, bytes[12] as u64, 2, true);
    push_hex(&mut out, bytes[13] as u64, 2, true);
    push_hex(&mut out, bytes[14] as u64, 2, true);
    push_hex(&mut out, bytes[15] as u64, 2, true);
    out
}

} // verus!

verus! {

/// The UTF-16LE code units of `raw` from unit `k` up to the first NUL
/// (a trailing odd byte is ignored).
pub open spec fn utf16_name_units(raw: Seq<u8>, k: int) -> Seq<u16>
    decreases raw.len() - 2 * k,
{
    if k < 0 || 2 * k + 2 > raw.len() {
        seq![]
    } else if le16(raw, 2 * k) == 0 {
        seq![]
    } else {
        seq![le16(raw, 2 * k) as u16] + utf16_name_units(raw, k + 1)
    }
}

/// The partition name stored in UTF-16LE, cut at the first NUL.
pub open spec fn spec_utf16_name(raw: Seq<u8>) -> Seq<char> {
    utf16_lossy(utf16_name_units(raw, 0))
}

pub fn read_utf16_name(raw: &[u8]) -> (r: Vec<char>)
    ensures
        r@ == spec_utf16_name(raw@),
{
    let mut units: Vec<u16> = Vec::new();
    let mut k: usize = 0;
    while raw.len() >= 2 && k <= raw.len() - 2 && read_le16(raw, k) != 0
        invariant
            k % 2 == 0,
            k <= raw.len(),
            units@ + utf16_name_units(raw@, k as int / 2) == utf16_name_units(raw@, 0),
        decreases raw.len() - k,
    {
        let u = read_le16(raw, k);
        proof {
            assert(2 * (k as int / 2) == k);
            assert(utf16_name_units(raw@, k as int / 2) == seq![u] + utf16_name_units(raw@, k as int / 2 + 1));
            assert(units@.push(u) + utf16_name_units(raw@, (k + 2) as int / 2) =~= units@ + utf16_name_units(raw@, k as int / 2));
        }
        units.push(u);
        k = k + 2;
    }
    proof {
        assert(2 * (k as int / 2) == k);
        assert(utf16_name_units(raw@, k as int / 2) == Seq::<u16>::empty());
        assert(units@ =~= units@ + utf16_name_units(raw@, k as int / 2));
    }
    from_utf16_lossy(&units)
}

/// `"EFI PART"`.
pub open spec fn efi_part() -> Seq<u8> {
    seq![0x45u8, 0x46u8, 0x49u8, 0x20u8, 0x50u8, 0x41u8, 0x52u8, 0x54u8]
}

pub open spec fn gpt_sig_ok(h: Seq<u8>) -> bool {
    h.subrange(0, 8) == efi_part()
}

/// The bytes the header CRC covers: the header with its CRC field zeroed,
/// cut to the recorded header size (at most one sector).
pub open spec fn gpt_crc_input(h: Seq<u8>) -> Seq<u8> {
    let zeroed = h.subrange(0, 16) + seq![0u8, 0u8, 0u8, 0u8] + h.subrange(20, 512);
    let hs = le32(h, 12);
    zeroed.take(if hs < 512 { hs as int } else { 512 })
}

pub open spec fn gpt_crc_ok(h: Seq<u8>) -> bool {
    crc32_of(gpt_crc_input(h)) == le32(h, 16)
}

/// Byte offset of the partition entry array.
pub open spec fn gpt_array_offset(h: Seq<u8>) -> int {
    (le64(h, 72) * 512) as int
}

/// Byte length of the partition entry array.
pub open spec fn gpt_array_len(h: Seq<u8>) -> int {
    (le32(h, 80) * le32(h, 84)) as int
}

/// Entry `i` (at byte `i * size` of the array `d`) is in use and well formed.
pub open spec fn gpt_entry_kept(d: Seq<u8>, size: int, i: int) -> bool {
    let off = i * size;
    &&& !(forall|k: int| off <= k < off + 16 ==> d[k] == 0)
    &&& le64(d, off + 32) > 0
    &&& le64(d, off + 40) >= le64(d, off + 32)
}

/// Indices of the entries the parser keeps, from entry `i` on: it stops at
/// the first entry whose 128 bytes run past the array, and parses nothing
/// when entries are narrower than the 56 bytes before the name field.
pub open spec fn gpt_slots(d: Seq<u8>, size: int, count: int, i: int) -> Seq<int>
    decreases count - i,
{
    if i < 0 || i >= count || size < 56 || i * size + 128 > d.len() {
        seq![]
    } else if gpt_entry_kept(d, size, i) {
        seq![i] + gpt_slots(d, size, count, i + 1)
    } else {
        gpt_slots(d, size, count, i + 1)
    }
}

/// `p` is entry `i` of the array `d` with entries of `size` bytes.
pub open spec fn gpt_entry_matches(p: GptPartition, d: Seq<u8>, size: int, i: int) -> bool {
    let off = i * size;
    let start = le64(d, off + 32);
    let end = le64(d, off + 40);
    let name_end = if size < 128 { off + size } else { off + 128 };
    &&& p.index == i + 1
    &&& p.type_guid@ == spec_format_guid(d.subrange(off, off + 16))
    &&& p.partition_guid@ == spec_format_guid(d.subrange(off + 16, off + 32))
    &&& p.name@ == spec_utf16_name(d.subrange(off + 56, name_end))
    &&& p.start_lba == start
    &&& p.end_lba == end
    &&& p.size_bytes == (end - start + 1) * 512
    &&& p.type_label@ == spec_gpt_type_name(p.type_guid@)
}

/// `parts` are the kept entries of array `d`, in order.
pub open spec fn gpt_entries_parsed(parts: Seq<GptPartition>, d: Seq<u8>, size: int, count: int) -> bool {
    let slots = gpt_slots(d, size, count, 0);
    &&& parts.len() == slots.len()
    &&& forall|k: int| 0 <= k < slots.len() ==> gpt_entry_matches(#[trigger] parts[k], d, size, slots[k])
}

/// `t` is the table described by header sector `h` (read at `lba`) and the
/// entry array `d`.
pub open spec fn gpt_parsed(t: GptTable, lba: u64, h: Seq<u8>, d: Seq<u8>) -> bool {
    &&& t.header_lba == lba
    &&& t.signature_valid
    &&& t.disk_guid@ == spec_format_guid(h.subrange(56, 72))
    &&& t.crc_valid == gpt_crc_ok(h)
    &&& gpt_entries_parsed(t.partitions@, d, le32(h, 84) as int, le32(h, 80) as int)
}

/// The table returned when the header signature is absent.
pub open spec fn gpt_absent(t: GptTable, lba: u64) -> bool {
    &&& t.header_lba == lba
    &&& t.partitions@.len() == 0
    &&& t.disk_guid@.len() == 0
    &&& !t.signature_valid
    &&& !t.crc_valid
}

/// Entry `i` can be taken apart: its type GUID lies inside the entry, an
/// entry in use reaches the name field at byte 56, and the byte size of a
/// kept entry fits in 64 bits.
pub open spec fn gpt_entry_parsable(d: Seq<u8>, size: int, i: int) -> bool {
    let off = i * size;
    &&& size >= 56 || (size >= 16 && forall|k: int| off <= k < off + 16 ==> d[k] == 0)
    &&& size >= 56 && gpt_entry_kept(d, size, i) ==> (le64(d, off + 40) - le64(d, off + 32) + 1) * 512
        <= u64::MAX
}

/// Every entry the parser looks at (those whose 128 bytes lie inside the
/// array) can be taken apart.
pub open spec fn gpt_array_parsable(d: Seq<u8>, size: int, count: int) -> bool {
    forall|i: int| 0 <= i < count && i * size + 128 <= d.len() ==> #[trigger] gpt_entry_parsable(d, size, i)
}

fn parse_entries(d: &[u8], count: u32, size: u32) -> (parts: Vec<GptPartition>)
    requires
        gpt_array_parsable(d@, size as int, count as int),
    ensures
        gpt_entries_parsed(parts@, d@, size as int, count as int),
{
    let mut parts: Vec<GptPartition> = Vec::new();
    if size < 56 {
        return parts;
    }
    let mut i: u32 = 0;
    let mut off: u64 = 0;
    let ghost all = gpt_slots(d@, size as int, count as int, 0);
    proof {
        assert(all =~= all.take(0) + gpt_slots(d@, size as int, count as int, 0));
    }
    while i < count && off <= d.len() as u64 && d.len() as u64 - off >= 128
        invariant
            i <= count,
            56 <= size,
            off == i * size,
            gpt_array_parsable(d@, size as int, count as int),
            all == gpt_slots(d@, size as int, count as int, 0),
            parts@.len() <= all.len(),
            all == all.take(parts@.len() as int) + gpt_slots(d@, size as int, count as int, i as int),
            forall|k: int| 0 <= k < parts@.len() ==> gpt_entry_matches(#[trigger] parts@[k], d@, size as int, all[k]),
        decreases count - i,
    {
        proof {
            assert((i + 1) * size <= 0xFFFF_FFFF * 0xFFFF_FFFFu64) by (nonlinear_arith)
                requires i < 0xFFFF_FFFFu32, size <= 0xFFFF_FFFFu32;
            assert(((i + 1) as int) * (size as int) == (i as int) * (size as int) + (size as int)) by (nonlinear_arith);
        }
        let o = off as usize;
        let kept = !all_zero(d, o, o + 16) && read_le64(d, o + 32) > 0 && read_le64(d, o + 40) >= read_le64(d, o + 32);
        let ghost n = parts@.len() as int;
        let ghost rest_i = gpt_slots(d@, size as int, count as int, i as int);
        let ghost rest_next = gpt_slots(d@, size as int, count as int, i + 1);
        if kept {
            let type_guid = format_guid(&crate::bytes::copy_range(d, o, 16));
            let part_guid = format_guid(&crate::bytes::copy_range(d, o + 16, 16));
            let name_end: usize = if size < 128 { o + size as usize } else { o + 128 };
            let name = read_utf16_name(&crate::bytes::copy_range(d, o + 56, name_end - (o + 56)));
            let start_lba = read_le64(d, o + 32);
            let end_lba = read_le64(d, o + 40);
            proof {
                assert(gpt_entry_parsable(d@, size as int, i as int));
            }
            let type_guid_s = string_of(&type_guid);
            let label = gpt_type_name(type_guid_s.as_str());
            let p = GptPartition {
                index: i + 1,
                type_guid: type_guid_s,
                partition_guid: string_of(&part_guid),
                name: string_of(&name),
                start_lba,
                end_lba,
                size_bytes: (end_lba - start_lba + 1) * 512,
                type_label: owned(label),
            };
            proof {
                assert(rest_i == seq![i as int] + rest_next);
                assert(all[n] == i) by {
                    assert(all[n] == rest_i[0]);
                }
                assert(all.take(n + 1) =~= all.take(n).push(i as int));
                assert(all =~= all.take(n + 1) + rest_next);
            }
            parts.push(p);
        } else {
            proof {
                assert(rest_i == rest_next);
            }
        }
        i = i + 1;
        off = off + size as u64;
    }
    proof {
        assert(gpt_slots(d@, size as int, count as int, i as int) == Seq::<int>::empty());
        assert(all =~= all.take(parts@.len() as int));
    }
    parts
}

fn empty_table(header_lba: u64) -> (t: GptTable)
    ensures
        gpt_absent(t, header_lba),
{
    GptTable {
        header_lba,
        partitions: Vec::new(),
        disk_guid: string_of(&Vec::new()),
        signature_valid: false,
        crc_valid: false,
    }
}

/// The header sector at `lba` can be read.
pub open spec fn header_readable(disk: DiskReader, lba: u64) -> bool {
    lba * 512 + 512 <= disk.content().len()
}

pub open spec fn header_at(disk: DiskReader, lba: u64) -> Seq<u8> {
    disk.content().subrange(lba * 512, lba * 512 + 512)
}

/// The entry array named by header `h` can be read (an empty one always
/// can).
pub open spec fn array_readable(disk: DiskReader, h: Seq<u8>) -> bool {
    crate::disk::range_readable(disk.content(), gpt_array_offset(h), gpt_array_len(h))
}

pub open spec fn array_at(disk: DiskReader, h: Seq<u8>) -> Seq<u8> {
    crate::disk::range_at(disk.content(), gpt_array_offset(h), gpt_array_len(h))
}

/// A signed, readable header at `lba` names an entry array whose byte
/// offset fits in 64 bits, and that array, when readable, can be taken
/// apart.
pub open spec fn gpt_header_parsable(disk: DiskReader, lba: u64) -> bool {
    let h = header_at(disk, lba);
    header_readable(disk, lba) && gpt_sig_ok(h) ==> {
        &&& le64(h, 72) * 512 <= u64::MAX
        &&& array_readable(disk, h) ==> gpt_array_parsable(
            array_at(disk, h),
            le32(h, 84) as int,
            le32(h, 80) as int,
        )
    }
}

/// What reading a GPT header at `lba` gives: an error when a sector cannot
/// be read, the absent table when the signature is missing, else the parsed
/// header and entries.
pub open spec fn read_gpt_ok(disk: DiskReader, lba: u64, r: Result<GptTable, DiskError>) -> bool {
    let h = header_at(disk, lba);
    &&& (r is Ok <==> header_readable(disk, lba) && (!gpt_sig_ok(h) || array_readable(disk, h)))
    &&& (r matches Ok(t) ==> if gpt_sig_ok(h) {
        gpt_parsed(t, lba, h, array_at(disk, h))
    } else {
        gpt_absent(t, lba)
    })
}

fn read_error() -> (e: DiskError)
    ensures
        e is Io && e->Io_0@ == crate::disk::short_read(),
{
    DiskError::Io(owned("failed to fill whole buffer"))
}

/// Reads the GPT header at `header_lba` and its entry array.
pub fn read_gpt(disk: &DiskReader, header_lba: u64) -> (r: Result<GptTable, DiskError>)
    requires
        header_lba * 512 <= u64::MAX,
        gpt_header_parsable(*disk, header_lba),
    ensures
        read_gpt_ok(*disk, header_lba, r),
        r matches Err(e) ==> e is Io && e->Io_0@ == crate::disk::short_read(),
{
    let h = disk.read_sector(header_lba)?;
    let sig: [u8; 8] = [0x45, 0x46, 0x49, 0x20, 0x50, 0x41, 0x52, 0x54];
    assert(sig@ =~= efi_part());
    if !crate::bytes::bytes_eq(&crate::bytes::copy_range(&h, 0, 8), &sig) {
        return Ok(empty_table(header_lba));
    }
    let header_size = read_le32(&h, 12);
    let crc_stored = read_le32(&h, 16);
    let lba_table = read_le64(&h, 72);
    let entry_count = read_le32(&h, 80);
    let entry_size = read_le32(&h, 84);
    let disk_guid = format_guid(&crate::bytes::copy_range(&h, 56, 16));

    let mut zeroed = crate::bytes::copy_range(&h, 0, 512);
    zeroed.set(16, 0);
    zeroed.set(17, 0);
    zeroed.set(18, 0);
    zeroed.set(19, 0);
    let covered: usize = if (header_size as u64) < 512 { header_size as usize } else { 512 };
    let crc_calc = crc32(&crate::bytes::copy_range(&zeroed, 0, covered));
    proof {
        assert(zeroed@ =~= h@.subrange(0, 16) + seq![0u8, 0u8, 0u8, 0u8] + h@.subrange(20, 512));
    }
    let crc_valid = crc_calc == crc_stored;

    proof {
        assert(entry_count * entry_size <= 0xFFFF_FFFF * 0xFFFF_FFFFu64) by (nonlinear_arith)
            requires entry_count <= 0xFFFF_FFFFu32, entry_size <= 0xFFFF_FFFFu32;
    }
    let entries_size: u64 = (entry_count as u64) * (entry_size as u64);
    proof {
        assert(h@ == header_at(*disk, header_lba));
        assert(gpt_sig_ok(h@));
    }
    let offset = lba_table * SECTOR_SIZE;
    if entries_size > disk.content_len() as u64 {
        proof {
            assert(h@ == header_at(*disk, header_lba));
            assert(gpt_sig_ok(h@));
            assert(entries_size == gpt_array_len(h@));
            assert(!array_readable(*disk, h@));
        }
        return Err(read_error());
    }
    let entries = disk.read_at(offset, entries_size as usize)?;
    proof {
        assert(h@ == header_at(*disk, header_lba));
        assert(entries@ == array_at(*disk, h@));
    }
    let partitions = parse_entries(&entries, entry_count, entry_size);
    Ok(GptTable {
        header_lba,
        partitions,
        disk_guid: string_of(&disk_guid),
        signature_valid: true,
        crc_valid,
    })
}

/// The LBA of the backup header: the last sector of the reported size.
pub open spec fn backup_header_lba(disk: DiskReader) -> u64 {
    if disk.size / 512 >= 1 { (disk.size / 512 - 1) as u64 } else { 0u64 }
}

/// GPT detection reads without error: the primary header (and its array
/// when signed) is readable, and, when the primary is unsigned, so is the
/// backup.
pub open spec fn gpt_detectable(disk: DiskReader) -> bool {
    let last = backup_header_lba(disk);
    let h1 = header_at(disk, 1);
    let hb = header_at(disk, last);
    let primary_ok = header_readable(disk, 1) && (!gpt_sig_ok(h1) || array_readable(disk, h1));
    let backup_ok = header_readable(disk, last) && (!gpt_sig_ok(hb) || array_readable(disk, hb));
    primary_ok && (gpt_sig_ok(h1) || backup_ok)
}

/// Looks for the primary header at LBA 1, then the backup header in the
/// last sector.
pub open spec fn detect_gpt_ok(disk: DiskReader, r: Result<Option<GptTable>, DiskError>) -> bool {
    let last = backup_header_lba(disk);
    let h1 = header_at(disk, 1);
    let hb = header_at(disk, last);
    &&& (r is Ok <==> gpt_detectable(disk))
    &&& (r matches Ok(o) ==> if gpt_sig_ok(h1) {
        o matches Some(t) && gpt_parsed(t, 1, h1, array_at(disk, h1))
    } else if gpt_sig_ok(hb) {
        o matches Some(t) && gpt_parsed(t, last, hb, array_at(disk, hb))
    } else {
        o is None
    })
}

/// Neither header that GPT detection reads has an entry array it cannot
/// take apart.
pub open spec fn gpt_parsable(disk: DiskReader) -> bool {
    &&& gpt_header_parsable(disk, 1)
    &&& header_readable(disk, 1) && !gpt_sig_ok(header_at(disk, 1)) ==> gpt_header_parsable(
        disk,
        backup_header_lba(disk),
    )
}

pub fn detect_gpt(disk: &DiskReader) -> (r: Result<Option<GptTable>, DiskError>)
    requires
        gpt_parsable(*disk),
    ensures
        detect_gpt_ok(*disk, r),
        r matches Err(e) ==> e is Io && e->Io_0@ == crate::disk::short_read(),
{
    let primary = read_gpt(disk, 1)?;
    if primary.signature_valid {
        return Ok(Some(primary));
    }
    let last_lba = (disk.size / SECTOR_SIZE).saturating_sub(1);
    let backup = read_gpt(disk, last_lba)?;
    if backup.signature_valid {
        return Ok(Some(backup));
    }
    Ok(None)
}

fn array_parsable(d: &[u8], count: u32, size: u32) -> (r: bool)
    ensures
        r == gpt_array_parsable(d@, size as int, count as int),
{
    let mut i: u32 = 0;
    let mut off: u64 = 0;
    let dlen: usize = d.len();
    let n = dlen as u64;
    while i < count && off <= n && n - off >= 128
        invariant
            i <= count,
            off == i * size,
            dlen == d@.len(),
            n == dlen,
            forall|j: int| 0 <= j < i && j * size + 128 <= d@.len() ==> #[trigger] gpt_entry_parsable(d@, size as int, j),
        decreases count - i,
    {
        let o = off as usize;
        if size < 56 {
            if size < 16 || !all_zero(d, o, o + 16) {
                proof {
                    assert(!gpt_entry_parsable(d@, size as int, i as int));
                }
                return false;
            }
        } else {
            let start = read_le64(d, o + 32);
            let end = read_le64(d, o + 40);
            if !all_zero(d, o, o + 16) && start > 0 && end >= start && end - start >= u64::MAX / 512 {
                proof {
                    assert(gpt_entry_kept(d@, size as int, i as int));
                    assert((end - start + 1) * 512 > u64::MAX) by (nonlinear_arith)
                        requires end - start >= u64::MAX / 512;
                    assert(!gpt_entry_parsable(d@, size as int, i as int));
                }
                return false;
            }
            proof {
                if gpt_entry_kept(d@, size as int, i as int) {
                    assert((end - start + 1) * 512 <= u64::MAX) by (nonlinear_arith)
                        requires end - start < u64::MAX / 512;
                }
            }
        }
        proof {
            assert(gpt_entry_parsable(d@, size as int, i as int));
            assert((i + 1) * size <= 0xFFFF_FFFF * 0xFFFF_FFFFu64) by (nonlinear_arith)
                requires i < 0xFFFF_FFFFu32, size <= 0xFFFF_FFFFu32;
            assert(((i + 1) as int) * (size as int) == (i as int) * (size as int) + (size as int)) by (nonlinear_arith);
        }
        i = i + 1;
        off = off + size as u64;
    }
    proof {
        assert forall|j: int| 0 <= j < count && j * size + 128 <= d@.len() implies #[trigger] gpt_entry_parsable(
            d@,
            size as int,
            j,
        ) by {
            if j >= i {
                assert(j * size >= i * size) by (nonlinear_arith)
                    requires j >= i, size >= 0;
            }
        }
    }
    true
}

fn header_parsable(disk: &DiskReader, lba: u64) -> (r: bool)
    requires
        lba * 512 <= u64::MAX,
    ensures
        r == gpt_header_parsable(*disk, lba),
{
    let h = match disk.read_sector(lba) {
        Ok(h) => h,
        Err(_) => {
            return true;
        },
    };
    proof {
        assert(h@ == header_at(*disk, lba));
    }
    let sig: [u8; 8] = [0x45, 0x46, 0x49, 0x20, 0x50, 0x41, 0x52, 0x54];
    assert(sig@ =~= efi_part());
    if !crate::bytes::bytes_eq(&crate::bytes::copy_range(&h, 0, 8), &sig) {
        return true;
    }
    let lba_table = read_le64(&h, 72);
    let entry_count = read_le32(&h, 80);
    let entry_size = read_le32(&h, 84);
    proof {
        assert(entry_count * entry_size <= 0xFFFF_FFFF * 0xFFFF_FFFFu64) by (nonlinear_arith)
            requires entry_count <= 0xFFFF_FFFFu32, entry_size <= 0xFFFF_FFFFu32;
    }
    let entries_size: u64 = (entry_count as u64) * (entry_size as u64);
    let content_len = disk.content_len();
    assert(content_len <= u64::MAX);
    if lba_table > u64::MAX / 512 {
        proof {
            assert(lba_table * 512 > u64::MAX) by (nonlinear_arith)
                requires lba_table > u64::MAX / 512;
        }
        return false;
    }
    if entries_size > content_len as u64 {
        proof {
            assert(entries_size == gpt_array_len(h@));
            assert(!array_readable(*disk, h@));
        }
        return true;
    }
    let offset = lba_table * SECTOR_SIZE;
    match disk.read_at(offset, entries_size as usize) {
        Err(_) => true,
        Ok(entries) => {
            proof {
                assert(entries@ == array_at(*disk, h@));
            }
            array_parsable(&entries, entry_count, entry_size)
        },
    }
}

/// Whether GPT detection can take apart every entry array it reads, as
/// `scan_disk` and `detect_gpt` need.
pub fn gpt_scan_parsable(disk: &DiskReader) -> (r: bool)
    ensures
        r == gpt_parsable(*disk),
{
    if !header_parsable(disk, 1) {
        return false;
    }
    match disk.read_sector(1) {
        Err(_) => true,
        Ok(h) => {
            proof {
                assert(h@ == header_at(*disk, 1));
            }
            let sig: [u8; 8] = [0x45, 0x46, 0x49, 0x20, 0x50, 0x41, 0x52, 0x54];
            assert(sig@ =~= efi_part());
            if crate::bytes::bytes_eq(&crate::bytes::copy_range(&h, 0, 8), &sig) {
                true
            } else {
                let last = (disk.size / SECTOR_SIZE).saturating_sub(1);
                header_parsable(disk, last)
            }
        },
    }
}

} // verus!
