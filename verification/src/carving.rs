//! Signature carving: finding files in raw bytes by their start and end
//! markers.
//!
//! Reading the source and writing the carved files is left to the caller;
//! this module finds the regions and names and records them.
use vstd::prelude::*;
use crate::text::{hex_pad, owned, push_dec, push_hex, push_str, string_of};

verus! {

pub const CARVING_SCHEMA_VERSION: u32 = 1;

#[derive(Debug)]
pub enum CarvingError {
    Io(String),
    UnsupportedFamily(String),
}

#[derive(Debug, Clone)]
pub struct CarvingFamily {
    pub id: String,
    pub label: String,
    pub extensions: Vec<String>,
}

#[derive(Debug, Clone)]
pub struct CarvedFileRecord {
    pub schema_version: u32,
    pub family_id: String,
    pub output_path: String,
    pub offset: u64,
    pub length: u64,
    pub status: String,
}

#[derive(Debug, Clone)]
pub struct CarvingJobState {
    pub schema_version: u32,
    pub source_path: String,
    pub source_signature: String,
    pub offset: u64,
}

#[derive(Debug, Clone)]
pub struct CarvingJobTranscript {
    pub schema_version: u32,
    pub source_path: String,
    pub output_dir: String,
    pub carved_files: Vec<CarvedFileRecord>,
    pub state: CarvingJobState,
    pub status: String,
}

/// A carved region of the source: the family it belongs to, and where it
/// starts and ends (exclusive).
#[derive(Debug, Clone)]
pub struct CarvedRegion {
    pub family_id: String,
    pub start: usize,
    pub end: usize,
}

pub struct RegionView {
    pub family_id: Seq<char>,
    pub start: int,
    pub end: int,
}

impl View for CarvedRegion {
    type V = RegionView;

    open spec fn view(&self) -> RegionView {
        RegionView { family_id: self.family_id@, start: self.start as int, end: self.end as int }
    }
}

pub open spec fn regions_view(v: Seq<CarvedRegion>) -> Seq<RegionView> {
    v.map_values(|r: CarvedRegion| r@)
}

pub struct FamilyView {
    pub id: Seq<char>,
    pub label: Seq<char>,
    pub extensions: Seq<Seq<char>>,
}

impl View for CarvingFamily {
    type V = FamilyView;

    open spec fn view(&self) -> FamilyView {
        FamilyView { id: self.id@, label: self.label@, extensions: crate::domain::strings_view(self.extensions@) }
    }
}

pub open spec fn families_view(v: Seq<CarvingFamily>) -> Seq<FamilyView> {
    v.map_values(|f: CarvingFamily| f@)
}

/// The families this carver knows: JPEG, PNG and PDF.
pub open spec fn spec_builtin_families() -> Seq<FamilyView> {
    seq![
        FamilyView { id: "jpeg"@, label: "JPEG"@, extensions: seq!["jpg"@, "jpeg"@] },
        FamilyView { id: "png"@, label: "PNG"@, extensions: seq!["png"@] },
        FamilyView { id: "pdf"@, label: "PDF"@, extensions: seq!["pdf"@] },
    ]
}

fn family(id: &str, label: &str, extensions: Vec<String>) -> (f: CarvingFamily)
    ensures
        f@ == (FamilyView { id: id@, label: label@, extensions: crate::domain::strings_view(extensions@) }),
{
    CarvingFamily { id: owned(id), label: owned(label), extensions }
}

pub fn builtin_carving_families() -> (r: Vec<CarvingFamily>)
    ensures
        families_view(r@) == spec_builtin_families(),
{
    let mut jpeg_ext: Vec<String> = Vec::new();
    jpeg_ext.push(owned("jpg"));
    jpeg_ext.push(owned("jpeg"));
    assert(crate::domain::strings_view(jpeg_ext@) =~= seq!["jpg"@, "jpeg"@]);
    let mut png_ext: Vec<String> = Vec::new();
    png_ext.push(owned("png"));
    assert(crate::domain::strings_view(png_ext@) =~= seq!["png"@]);
    let mut pdf_ext: Vec<String> = Vec::new();
    pdf_ext.push(owned("pdf"));
    assert(crate::domain::strings_view(pdf_ext@) =~= seq!["pdf"@]);
    let mut v: Vec<CarvingFamily> = Vec::new();
    v.push(family("jpeg", "JPEG", jpeg_ext));
    v.push(family("png", "PNG", png_ext));
    v.push(family("pdf", "PDF", pdf_ext));
    assert(families_view(v@) =~= spec_builtin_families());
    v
}

// ---------------------------------------------------------------------------
// Searching

/// The first position at or after `from` where `needle` occurs whole.
pub open spec fn first_match(h: Seq<u8>, n: Seq<u8>, from: int) -> Option<int>
    decreases h.len() - from,
{
    if from < 0 || from >= h.len() || from + n.len() > h.len() {
        None
    } else if h.subrange(from, from + n.len()) == n {
        Some(from)
    } else {
        first_match(h, n, from + 1)
    }
}

/// Where `needle` next occurs at or after `from`; never for an empty
/// needle or a start past the end.
pub open spec fn spec_find_bytes(h: Seq<u8>, n: Seq<u8>, from: int) -> Option<int> {
    if n.len() == 0 || h.len() < n.len() || from >= h.len() {
        None
    } else {
        first_match(h, n, from)
    }
}

proof fn lemma_first_match_bounds(h: Seq<u8>, n: Seq<u8>, from: int)
    ensures
        first_match(h, n, from) matches Some(i) ==> from <= i && i + n.len() <= h.len() && h.subrange(i, i + n.len())
            == n,
    decreases h.len() - from,
{
    if from >= 0 && from < h.len() && from + n.len() <= h.len() && h.subrange(from, from + n.len()) != n {
        lemma_first_match_bounds(h, n, from + 1);
    }
}

pub fn find_bytes(haystack: &[u8], needle: &[u8], from: usize) -> (r: Option<usize>)
    ensures
        match r {
            Some(i) => spec_find_bytes(haystack@, needle@, from as int) == Some(i as int),
            None => spec_find_bytes(haystack@, needle@, from as int) is None,
        },
{
    if needle.len() == 0 || haystack.len() < needle.len() || from >= haystack.len() {
        return None;
    }
    let n = needle.len();
    let last = haystack.len() - n;
    let mut i = from;
    while i <= last
        invariant
            from <= i,
            last == haystack@.len() - n,
            last + n == haystack.len(),
            n == needle@.len(),
            n > 0,
            first_match(haystack@, needle@, from as int) == first_match(haystack@, needle@, i as int),
        decreases last + 1 - i,
    {
        if crate::bytes::bytes_eq(&haystack[i..i + n], needle) {
            proof {
                assert(haystack@.subrange(i as int, i + n) =~= haystack@.subrange(i as int, (i + n) as int));
            }
            return Some(i);
        }
        proof {
            assert(haystack@.subrange(i as int, i + n) =~= haystack@.subrange(i as int, (i + n) as int));
        }
        i = i + 1;
    }
    None
}

// ---------------------------------------------------------------------------
// Carving

/// One past the last byte of a carved file whose end marker starts at
/// `end`: `extra` bytes on, or the end of the source.
pub open spec fn region_end(len: int, end: int, extra: int) -> int {
    if end + extra < len {
        end + extra
    } else {
        len
    }
}

/// The regions found from `off` on: each starts at a start marker and ends
/// `extra` bytes after the first end marker behind it; the search goes on
/// after each region and stops at a start marker with no end marker.
pub open spec fn marker_regions(src: Seq<u8>, sm: Seq<u8>, em: Seq<u8>, extra: int, off: int) -> Seq<(int, int)>
    decreases src.len() - off,
{
    if off < 0 || off > src.len() {
        seq![]
    } else {
        match spec_find_bytes(src, sm, off) {
            None => seq![],
            Some(s) => match spec_find_bytes(src, em, s + sm.len()) {
                None => seq![],
                Some(e) => {
                    let e2 = region_end(src.len() as int, e, extra);
                    if e2 <= off {
                        seq![(s, e2)]
                    } else {
                        seq![(s, e2)] + marker_regions(src, sm, em, extra, e2)
                    }
                },
            },
        }
    }
}

pub open spec fn tagged(id: Seq<char>, rs: Seq<(int, int)>) -> Seq<RegionView> {
    rs.map_values(|r: (int, int)| RegionView { family_id: id, start: r.0, end: r.1 })
}

proof fn lemma_find_bounds(h: Seq<u8>, n: Seq<u8>, from: int)
    ensures
        spec_find_bytes(h, n, from) matches Some(i) ==> from <= i && i + n.len() <= h.len() && n.len() > 0 && h.subrange(
            i,
            i + n.len(),
        ) == n,
{
    lemma_first_match_bounds(h, n, from);
}

fn carve_with_markers(
    source: &[u8],
    family_id: &str,
    start_marker: &[u8],
    end_marker: &[u8],
    extra: usize,
    regions: &mut Vec<CarvedRegion>,
)
    requires
        extra >= 1,
    ensures
        regions_view(final(regions)@) == regions_view(old(regions)@) + tagged(
            family_id@,
            marker_regions(source@, start_marker@, end_marker@, extra as int, 0),
        ),
{
    let ghost total = marker_regions(source@, start_marker@, end_marker@, extra as int, 0);
    let ghost base = regions_view(regions@);
    let len = source.len();
    let mut offset: usize = 0;
    proof {
        assert(base + tagged(family_id@, Seq::<(int, int)>::empty()) + tagged(family_id@, total) =~= base + tagged(
            family_id@,
            total,
        ));
    }
    let ghost mut done: Seq<(int, int)> = seq![];
    loop
        invariant
            offset <= len,
            len == source@.len(),
            extra >= 1,
            total == done + marker_regions(source@, start_marker@, end_marker@, extra as int, offset as int),
            regions_view(regions@) == base + tagged(family_id@, done),
            base == regions_view(old(regions)@),
            total == marker_regions(source@, start_marker@, end_marker@, extra as int, 0),
        ensures
            regions_view(regions@) == base + tagged(family_id@, total),
        decreases len - offset,
    {
        let start = match find_bytes(source, start_marker, offset) {
            Some(s) => s,
            None => {
                assert(done + Seq::<(int, int)>::empty() =~= done);
                break;
            },
        };
        proof {
            lemma_find_bounds(source@, start_marker@, offset as int);
        }
        let end = match find_bytes(source, end_marker, start + start_marker.len()) {
            Some(e) => e,
            None => {
                assert(done + Seq::<(int, int)>::empty() =~= done);
                break;
            },
        };
        proof {
            lemma_find_bounds(source@, end_marker@, start + start_marker@.len());
        }
        let end2 = if extra < len - end { end + extra } else { len };
        let ghost item = (start as int, end2 as int);
        let ghost old_regions = regions_view(regions@);
        regions.push(CarvedRegion { family_id: owned(family_id), start, end: end2 });
        proof {
            assert(end2 as int == region_end(len as int, end as int, extra as int));
            assert(end2 > offset);
            assert(marker_regions(source@, start_marker@, end_marker@, extra as int, offset as int) == seq![item]
                + marker_regions(source@, start_marker@, end_marker@, extra as int, end2 as int));
            assert(done.push(item) + marker_regions(source@, start_marker@, end_marker@, extra as int, end2 as int)
                =~= done + (seq![item] + marker_regions(source@, start_marker@, end_marker@, extra as int, end2 as int)));
            assert(regions_view(regions@) =~= old_regions.push(RegionView { family_id: family_id@, start: item.0, end: item.1 }));
            assert(tagged(family_id@, done.push(item)) =~= tagged(family_id@, done).push(RegionView { family_id: family_id@, start: item.0, end: item.1 }));
            done = done.push(item);
        }
        offset = end2;
    }
}

pub open spec fn png_signature() -> Seq<u8> {
    seq![0x89u8, 0x50u8, 0x4eu8, 0x47u8, 0x0du8, 0x0au8, 0x1au8, 0x0au8]
}

pub open spec fn png_end() -> Seq<u8> {
    seq![0x49u8, 0x45u8, 0x4eu8, 0x44u8]
}

/// PNG files: from the signature to 12 bytes past `IEND`.
pub open spec fn spec_png_regions(src: Seq<u8>) -> Seq<RegionView> {
    tagged("png"@, marker_regions(src, png_signature(), png_end(), 12, 0))
}

fn bytes_of(a: u8, b: u8, c: u8, d: u8) -> (v: Vec<u8>)
    ensures
        v@ == seq![a, b, c, d],
{
    let mut v: Vec<u8> = Vec::new();
    v.push(a);
    v.push(b);
    v.push(c);
    v.push(d);
    assert(v@ =~= seq![a, b, c, d]);
    v
}

pub fn carve_png(source: &[u8], regions: &mut Vec<CarvedRegion>)
    ensures
        regions_view(final(regions)@) == regions_view(old(regions)@) + spec_png_regions(source@),
{
    let mut sig = bytes_of(0x89, 0x50, 0x4e, 0x47);
    let tail = bytes_of(0x0d, 0x0a, 0x1a, 0x0a);
    let mut i: usize = 0;
    while i < 4
        invariant
            i <= 4,
            tail@ == seq![0x0du8, 0x0au8, 0x1au8, 0x0au8],
            sig@ == seq![0x89u8, 0x50u8, 0x4eu8, 0x47u8] + tail@.take(i as int),
        decreases 4 - i,
    {
        sig.push(tail[i]);
        i = i + 1;
        assert(tail@.take(i as int) =~= tail@.take(i - 1 as int).push(tail@[i - 1]));
    }
    assert(sig@ =~= png_signature());
    let end = bytes_of(0x49, 0x45, 0x4e, 0x44);
    carve_with_markers(source, "png", &sig, &end, 12, regions);
}

/// Files of a family from its start marker to the end of its end marker.
pub open spec fn spec_marker_family(src: Seq<u8>, id: Seq<char>, sm: Seq<u8>, em: Seq<u8>) -> Seq<RegionView> {
    if em.len() == 0 {
        seq![]
    } else {
        tagged(id, marker_regions(src, sm, em, em.len() as int, 0))
    }
}

pub fn carve_by_marker(
    source: &[u8],
    family_id: &str,
    extension: &str,
    start_marker: &[u8],
    end_marker: &[u8],
    regions: &mut Vec<CarvedRegion>,
)
    ensures
        regions_view(final(regions)@) == regions_view(old(regions)@) + spec_marker_family(
            source@,
            family_id@,
            start_marker@,
            end_marker@,
        ),
{
    if end_marker.len() == 0 {
        assert(regions_view(regions@) + Seq::<RegionView>::empty() =~= regions_view(regions@));
        return;
    }
    carve_with_markers(source, family_id, start_marker, end_marker, end_marker.len(), regions);
}

pub fn carve_by_ascii_marker(
    source: &[u8],
    family_id: &str,
    extension: &str,
    start_marker: &[u8],
    end_marker: &[u8],
    regions: &mut Vec<CarvedRegion>,
)
    ensures
        regions_view(final(regions)@) == regions_view(old(regions)@) + spec_marker_family(
            source@,
            family_id@,
            start_marker@,
            end_marker@,
        ),
{
    carve_by_marker(source, family_id, extension, start_marker, end_marker, regions)
}

pub open spec fn jpeg_start() -> Seq<u8> {
    seq![0xFFu8, 0xD8u8, 0xFFu8]
}

pub open spec fn jpeg_end() -> Seq<u8> {
    seq![0xFFu8, 0xD9u8]
}

/// `%PDF-`
pub open spec fn pdf_start() -> Seq<u8> {
    seq![0x25u8, 0x50u8, 0x44u8, 0x46u8, 0x2du8]
}

/// `%%EOF`
pub open spec fn pdf_end() -> Seq<u8> {
    seq![0x25u8, 0x25u8, 0x45u8, 0x4fu8, 0x46u8]
}

/// A family is carved when none were asked for, or when it was asked for.
pub open spec fn wants(families: Seq<Seq<char>>, id: Seq<char>) -> bool {
    families.len() == 0 || families.contains(id)
}

/// The regions carved from a source: JPEG, then PNG, then PDF files, each
/// family only where wanted.
pub open spec fn spec_carve_regions(src: Seq<u8>, families: Seq<Seq<char>>) -> Seq<RegionView> {
    (if wants(families, "jpeg"@) {
        spec_marker_family(src, "jpeg"@, jpeg_start(), jpeg_end())
    } else {
        seq![]
    }) + (if wants(families, "png"@) {
        spec_png_regions(src)
    } else {
        seq![]
    }) + (if wants(families, "pdf"@) {
        spec_marker_family(src, "pdf"@, pdf_start(), pdf_end())
    } else {
        seq![]
    })
}

fn wanted(families: &Vec<String>, id: &str) -> (r: bool)
    ensures
        r == wants(crate::domain::strings_view(families@), id@),
{
    let ghost fv = crate::domain::strings_view(families@);
    if families.len() == 0 {
        return true;
    }
    let mut i: usize = 0;
    while i < families.len()
        invariant
            i <= families.len(),
            fv == crate::domain::strings_view(families@),
            forall|k: int| 0 <= k < i ==> fv[k] != id@,
        decreases families.len() - i,
    {
        if crate::text::str_eq(families[i].as_str(), id) {
            assert(fv[i as int] == id@);
            return true;
        }
        i = i + 1;
    }
    false
}

fn two(a: u8, b: u8) -> (v: Vec<u8>)
    ensures
        v@ == seq![a, b],
{
    let mut v: Vec<u8> = Vec::new();
    v.push(a);
    v.push(b);
    assert(v@ =~= seq![a, b]);
    v
}

/// Finds the files of the wanted families (all three when none are named).
pub fn carve_regions(source: &[u8], families: &Vec<String>) -> (r: Vec<CarvedRegion>)
    ensures
        regions_view(r@) == spec_carve_regions(source@, crate::domain::strings_view(families@)),
{
    let ghost fv = crate::domain::strings_view(families@);
    let mut regions: Vec<CarvedRegion> = Vec::new();
    let ghost r0 = regions_view(regions@);
    if wanted(families, "jpeg") {
        let mut sm = two(0xFF, 0xD8);
        sm.push(0xFF);
        assert(sm@ =~= jpeg_start());
        let em = two(0xFF, 0xD9);
        carve_by_marker(source, "jpeg", "jpg", &sm, &em, &mut regions);
    }
    let ghost r1 = regions_view(regions@);
    if wanted(families, "png") {
        carve_png(source, &mut regions);
    }
    let ghost r2 = regions_view(regions@);
    if wanted(families, "pdf") {
        let mut sm = bytes_of(0x25, 0x50, 0x44, 0x46);
        sm.push(0x2d);
        assert(sm@ =~= pdf_start());
        let mut em = bytes_of(0x25, 0x25, 0x45, 0x4f);
        em.push(0x46);
        assert(em@ =~= pdf_end());
        carve_by_ascii_marker(source, "pdf", "pdf", &sm, &em, &mut regions);
    }
    proof {
        assert(r0 =~= Seq::<RegionView>::empty());
        let a = if wants(fv, "jpeg"@) { spec_marker_family(source@, "jpeg"@, jpeg_start(), jpeg_end()) } else { seq![] };
        let b = if wants(fv, "png"@) { spec_png_regions(source@) } else { seq![] };
        let c = if wants(fv, "pdf"@) { spec_marker_family(source@, "pdf"@, pdf_start(), pdf_end()) } else { seq![] };
        assert(r1 =~= a);
        assert(r2 =~= a + b);
        assert(regions_view(regions@) =~= a + b + c);
    }
    regions
}

// ---------------------------------------------------------------------------
// Records

pub open spec fn family_extension(id: Seq<char>) -> Seq<char> {
    if id == "jpeg"@ {
        "jpg"@
    } else if id == "png"@ {
        "png"@
    } else if id == "pdf"@ {
        "pdf"@
    } else {
        "bin"@
    }
}

/// `{family}-{offset:08x}.{extension}`
pub open spec fn spec_carved_file_name(id: Seq<char>, offset: u64) -> Seq<char> {
    id + seq!['-'] + hex_pad(offset as nat, 8, false) + seq!['.'] + family_extension(id)
}

/// The file name a carved region is written under.
pub fn carved_file_name(family_id: &str, offset: u64) -> (r: String)
    ensures
        r@ == spec_carved_file_name(family_id@, offset),
{
    let ext = if crate::text::str_eq(family_id, "jpeg") {
        "jpg"
    } else if crate::text::str_eq(family_id, "png") {
        "png"
    } else if crate::text::str_eq(family_id, "pdf") {
        "pdf"
    } else {
        "bin"
    };
    let mut v: Vec<char> = Vec::new();
    push_str(&mut v, family_id);
    v.push('-');
    push_hex(&mut v, offset, 8, false);
    v.push('.');
    push_str(&mut v, ext);
    string_of(&v)
}

pub fn carved_file_record(family_id: &str, output_path: String, offset: u64, length: u64) -> (r: CarvedFileRecord)
    ensures
        r.schema_version == CARVING_SCHEMA_VERSION,
        r.family_id@ == family_id@,
        r.output_path@ == output_path@,
        r.offset == offset,
        r.length == length,
        r.status@ == "carved"@,
{
    CarvedFileRecord {
        schema_version: CARVING_SCHEMA_VERSION,
        family_id: owned(family_id),
        output_path,
        offset,
        length,
        status: owned("carved"),
    }
}

/// The transcript of a finished carving job over a source of `source_len`
/// bytes.
pub fn carving_transcript(source_path: &str, output_dir: &str, source_len: u64, carved_files: Vec<CarvedFileRecord>) -> (r:
    CarvingJobTranscript)
    ensures
        r.schema_version == CARVING_SCHEMA_VERSION,
        r.source_path@ == source_path@,
        r.output_dir@ == output_dir@,
        r.carved_files == carved_files,
        r.status@ == "completed"@,
        r.state.schema_version == CARVING_SCHEMA_VERSION,
        r.state.source_path@ == source_path@,
        r.state.source_signature@ == source_path@ + seq![':'] + crate::text::dec(source_len as nat),
        r.state.offset == source_len,
{
    let mut sig: Vec<char> = Vec::new();
    push_str(&mut sig, source_path);
    sig.push(':');
    push_dec(&mut sig, source_len);
    CarvingJobTranscript {
        schema_version: CARVING_SCHEMA_VERSION,
        source_path: owned(source_path),
        output_dir: owned(output_dir),
        carved_files,
        state: CarvingJobState {
            schema_version: CARVING_SCHEMA_VERSION,
            source_path: owned(source_path),
            source_signature: string_of(&sig),
            offset: source_len,
        },
        status: owned("completed"),
    }
}

/// Every carved region lies inside the source, begins with its start
/// marker, and comes after the previous region without overlapping it.
/// Carving honours every family named, wherever it stands in the list:
/// two non-empty lists that name the same families (in any order, with any
/// repetition) carve the same regions.
pub proof fn lemma_carving_ignores_family_order(src: Seq<u8>, f: Seq<Seq<char>>, g: Seq<Seq<char>>)
    requires
        f.len() > 0,
        g.len() > 0,
        forall|i: int| 0 <= i < f.len() ==> exists|j: int| 0 <= j < g.len() && #[trigger] f[i] == #[trigger] g[j],
        forall|j: int| 0 <= j < g.len() ==> exists|i: int| 0 <= i < f.len() && #[trigger] f[i] == #[trigger] g[j],
    ensures
        spec_carve_regions(src, f) == spec_carve_regions(src, g),
{
    assert forall|id: Seq<char>| wants(f, id) == wants(g, id) by {
        if f.contains(id) {
            let i = choose|i: int| 0 <= i < f.len() && f[i] == id;
            let j = choose|j: int| 0 <= j < g.len() && f[i] == g[j];
            assert(g[j] == id);
        }
        if g.contains(id) {
            let j = choose|j: int| 0 <= j < g.len() && g[j] == id;
            let i = choose|i: int| 0 <= i < f.len() && f[i] == g[j];
            assert(f[i] == id);
        }
    }
}

/// Naming every family, at any positions of the list, carves exactly what
/// naming none does: all JPEG, PNG and PDF regions.
pub proof fn lemma_naming_every_family_carves_all(src: Seq<u8>, f: Seq<Seq<char>>, i: int, j: int, k: int)
    requires
        0 <= i < f.len(),
        0 <= j < f.len(),
        0 <= k < f.len(),
        f[i] == "jpeg"@,
        f[j] == "png"@,
        f[k] == "pdf"@,
    ensures
        spec_carve_regions(src, f) == spec_carve_regions(src, Seq::<Seq<char>>::empty()),
{
    assert(f.contains("jpeg"@));
    assert(f.contains("png"@));
    assert(f.contains("pdf"@));
}

/// In a non-empty list, a family is wanted exactly when it is named at some
/// position of the list.
pub proof fn lemma_named_family_is_carved(f: Seq<Seq<char>>, id: Seq<char>)
    requires
        f.len() > 0,
    ensures
        wants(f, id) <==> exists|k: int| 0 <= k < f.len() && f[k] == id,
{
    if exists|k: int| 0 <= k < f.len() && f[k] == id {
        let k = choose|k: int| 0 <= k < f.len() && f[k] == id;
        assert(f.contains(id));
    }
}

pub proof fn lemma_marker_regions_well_formed(src: Seq<u8>, sm: Seq<u8>, em: Seq<u8>, extra: int, off: int)
    requires
        extra >= 1,
    ensures
        ({
            let rs = marker_regions(src, sm, em, extra, off);
            &&& forall|i: int| 0 <= i < rs.len() ==> off <= (#[trigger] rs[i]).0 < rs[i].1 <= src.len()
            &&& forall|i: int| 0 <= i < rs.len() ==> src.subrange((#[trigger] rs[i]).0, rs[i].0 + sm.len()) == sm
            &&& forall|i: int| 0 <= i < rs.len() - 1 ==> (#[trigger] rs[i]).1 <= rs[i + 1].0
        }),
    decreases src.len() - off,
{
    let rs = marker_regions(src, sm, em, extra, off);
    if off >= 0 && off <= src.len() {
        lemma_find_bounds(src, sm, off);
        if let Some(s) = spec_find_bytes(src, sm, off) {
            lemma_find_bounds(src, em, s + sm.len());
            if let Some(e) = spec_find_bytes(src, em, s + sm.len()) {
                let e2 = region_end(src.len() as int, e, extra);
                if e2 > off {
                    let rest = marker_regions(src, sm, em, extra, e2);
                    lemma_marker_regions_well_formed(src, sm, em, extra, e2);
                    assert(rs == seq![(s, e2)] + rest);
                    assert forall|i: int| 0 <= i < rs.len() - 1 implies (#[trigger] rs[i]).1 <= rs[i + 1].0 by {
                        if i > 0 {
                            assert(rs[i] == rest[i - 1]);
                            assert(rs[i + 1] == rest[i]);
                        } else {
                            assert(rs[1] == rest[0]);
                        }
                    }
                    assert forall|i: int| 0 <= i < rs.len() implies off <= (#[trigger] rs[i]).0 < rs[i].1 <= src.len()
                        && src.subrange(rs[i].0, rs[i].0 + sm.len()) == sm by {
                        if i > 0 {
                            assert(rs[i] == rest[i - 1]);
                        }
                    }
                }
            }
        }
    }
}

} // verus!
