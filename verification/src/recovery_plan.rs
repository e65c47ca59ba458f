//! Read-only recovery plans built from scan results, and their validation.
use vstd::prelude::*;
use crate::domain::{PartView, PartitionResult, PartitionTableType, ScanResult, parts_view, strings_view};
use crate::text::{dec, owned, push_dec, push_str, string_of};

verus! {

pub const RECOVERY_PLAN_SCHEMA_VERSION: u32 = 1;

#[derive(Debug, Clone, Copy, PartialEq, Eq, Structural)]
pub enum RecoveryPlanValidationSeverity {
    Info,
    Warning,
    Error,
}

#[derive(Debug, Clone)]
pub struct RecoveryPlanValidationIssue {
    pub severity: RecoveryPlanValidationSeverity,
    pub code: String,
    pub message: String,
}

/// A selected partition. `confidence` is in thousandths.
#[derive(Debug, Clone)]
pub struct RecoveryPlanPartition {
    pub index: u32,
    pub name: String,
    pub start_lba: u64,
    pub end_lba: u64,
    pub size_bytes: u64,
    pub type_label: String,
    pub source: String,
    pub status: String,
    pub confidence: u32,
    pub conflict_status: String,
}

#[derive(Debug, Clone)]
pub struct RecoveryPlanTableMapEntry {
    pub label: String,
    pub start_lba: u64,
    pub end_lba: u64,
}

#[derive(Debug, Clone)]
pub struct RecoveryPlan {
    pub schema_version: u32,
    pub created_at_unix_seconds: u64,
    pub app_version: String,
    pub source_disk_path: String,
    pub source_disk_size: u64,
    pub source_disk_signature: String,
    pub original_partition_table_type: PartitionTableType,
    pub proposed_partition_table_type: PartitionTableType,
    pub selected_partitions: Vec<RecoveryPlanPartition>,
    pub before_map: Vec<RecoveryPlanTableMapEntry>,
    pub after_map: Vec<RecoveryPlanTableMapEntry>,
    pub warnings: Vec<String>,
    pub conflicts: Vec<String>,
    pub validation: Vec<RecoveryPlanValidationIssue>,
}

pub struct IssueView {
    pub severity: RecoveryPlanValidationSeverity,
    pub code: Seq<char>,
    pub message: Seq<char>,
}

impl View for RecoveryPlanValidationIssue {
    type V = IssueView;

    open spec fn view(&self) -> IssueView {
        IssueView { severity: self.severity, code: self.code@, message: self.message@ }
    }
}

pub struct PlanPartView {
    pub index: u32,
    pub name: Seq<char>,
    pub start_lba: u64,
    pub end_lba: u64,
    pub size_bytes: u64,
    pub type_label: Seq<char>,
    pub source: Seq<char>,
    pub status: Seq<char>,
    pub confidence: u32,
    pub conflict_status: Seq<char>,
}

impl View for RecoveryPlanPartition {
    type V = PlanPartView;

    open spec fn view(&self) -> PlanPartView {
        PlanPartView {
            index: self.index,
            name: self.name@,
            start_lba: self.start_lba,
            end_lba: self.end_lba,
            size_bytes: self.size_bytes,
            type_label: self.type_label@,
            source: self.source@,
            status: self.status@,
            confidence: self.confidence,
            conflict_status: self.conflict_status@,
        }
    }
}

pub struct MapEntryView {
    pub label: Seq<char>,
    pub start_lba: u64,
    pub end_lba: u64,
}

impl View for RecoveryPlanTableMapEntry {
    type V = MapEntryView;

    open spec fn view(&self) -> MapEntryView {
        MapEntryView { label: self.label@, start_lba: self.start_lba, end_lba: self.end_lba }
    }
}

pub open spec fn issues_view(v: Seq<RecoveryPlanValidationIssue>) -> Seq<IssueView> {
    v.map_values(|i: RecoveryPlanValidationIssue| i@)
}

pub open spec fn plan_parts_view(v: Seq<RecoveryPlanPartition>) -> Seq<PlanPartView> {
    v.map_values(|p: RecoveryPlanPartition| p@)
}

pub open spec fn map_view(v: Seq<RecoveryPlanTableMapEntry>) -> Seq<MapEntryView> {
    v.map_values(|e: RecoveryPlanTableMapEntry| e@)
}

pub open spec fn issue(severity: RecoveryPlanValidationSeverity, code: Seq<char>, message: Seq<char>) -> IssueView {
    IssueView { severity, code, message }
}

pub open spec fn error_issue(code: Seq<char>, message: Seq<char>) -> IssueView {
    issue(RecoveryPlanValidationSeverity::Error, code, message)
}

pub open spec fn warning_issue(code: Seq<char>, message: Seq<char>) -> IssueView {
    issue(RecoveryPlanValidationSeverity::Warning, code, message)
}

fn issue_error(code: &str, message: String) -> (r: RecoveryPlanValidationIssue)
    ensures
        r@ == error_issue(code@, message@),
{
    RecoveryPlanValidationIssue { severity: RecoveryPlanValidationSeverity::Error, code: owned(code), message }
}

fn issue_warning(code: &str, message: String) -> (r: RecoveryPlanValidationIssue)
    ensures
        r@ == warning_issue(code@, message@),
{
    RecoveryPlanValidationIssue { severity: RecoveryPlanValidationSeverity::Warning, code: owned(code), message }
}

} // verus!

verus! {

/// Order of selected partitions: by start, then end, then index.
pub open spec fn part_key_le(a: PlanPartView, b: PlanPartView) -> bool {
    a.start_lba < b.start_lba || (a.start_lba == b.start_lba && (a.end_lba < b.end_lba || (a.end_lba == b.end_lba && a.index <= b.index)))
}

/// Inserts `x` after the last element of `s` that is not after it.
pub open spec fn part_insert(s: Seq<PlanPartView>, x: PlanPartView) -> Seq<PlanPartView>
    decreases s.len(),
{
    if s.len() == 0 {
        seq![x]
    } else if part_key_le(s.last(), x) {
        s.push(x)
    } else {
        part_insert(s.drop_last(), x).push(s.last())
    }
}

/// The stable sort of `s` by `part_key_le`.
pub open spec fn part_sort(s: Seq<PlanPartView>) -> Seq<PlanPartView>
    decreases s.len(),
{
    if s.len() == 0 {
        seq![]
    } else {
        part_insert(part_sort(s.drop_last()), s.last())
    }
}

proof fn lemma_part_insert_at(s: Seq<PlanPartView>, x: PlanPartView, p: int)
    requires
        0 <= p <= s.len(),
        p == 0 || part_key_le(s[p - 1], x),
        forall|k: int| p <= k < s.len() ==> !part_key_le(#[trigger] s[k], x),
    ensures
        part_insert(s, x) == s.take(p) + seq![x] + s.skip(p),
    decreases s.len(),
{
    if s.len() == 0 {
        assert(s.take(p) + seq![x] + s.skip(p) =~= seq![x]);
    } else if p == s.len() {
        assert(s.take(p) + seq![x] + s.skip(p) =~= s.push(x));
    } else {
        let t = s.drop_last();
        assert(!part_key_le(s[s.len() - 1], x));
        lemma_part_insert_at(t, x, p);
        assert(s.take(p) + seq![x] + s.skip(p) =~= (t.take(p) + seq![x] + t.skip(p)).push(s.last()));
    }
}

fn plan_key_le(a: &RecoveryPlanPartition, b: &RecoveryPlanPartition) -> (r: bool)
    ensures
        r == part_key_le(a@, b@),
{
    a.start_lba < b.start_lba || (a.start_lba == b.start_lba && (a.end_lba < b.end_lba || (a.end_lba == b.end_lba && a.index <= b.index)))
}

/// Stable sort of plan partitions by start, end and index.
fn sort_plan_partitions(v: Vec<RecoveryPlanPartition>) -> (r: Vec<RecoveryPlanPartition>)
    ensures
        plan_parts_view(r@) == part_sort(plan_parts_view(v@)),
{
    let ghost orig = plan_parts_view(v@);
    let mut rest = v;
    let mut out: Vec<RecoveryPlanPartition> = Vec::new();
    proof {
        assert(orig.take(0) =~= Seq::<PlanPartView>::empty());
        assert(orig.skip(0) =~= orig);
    }
    while rest.len() > 0
        invariant
            rest@.len() <= orig.len(),
            plan_parts_view(rest@) == orig.skip(orig.len() - rest@.len()),
            plan_parts_view(out@) == part_sort(orig.take(orig.len() - rest@.len())),
        decreases rest.len(),
    {
        let ghost n = orig.len() - rest@.len();
        let ghost sorted = plan_parts_view(out@);
        let ghost before = rest@;
        let x = rest.remove(0);
        proof {
            assert(plan_parts_view(before)[0] == orig.skip(n)[0]);
            assert(x@ == orig[n]);
            assert(rest@ =~= before.skip(1));
            assert forall|k: int| 0 <= k < rest@.len() implies plan_parts_view(rest@)[k] == orig.skip(n + 1)[k] by {
                assert(plan_parts_view(before)[k + 1] == orig.skip(n)[k + 1]);
            }
            assert(plan_parts_view(rest@) =~= orig.skip(n + 1));
            assert(orig.take(n + 1).drop_last() =~= orig.take(n));
        }
        let mut p = out.len();
        while p > 0 && !plan_key_le(&out[p - 1], &x)
            invariant
                p <= out@.len(),
                plan_parts_view(out@) == sorted,
                forall|k: int| p <= k < sorted.len() ==> !part_key_le(#[trigger] sorted[k], x@),
            decreases p,
        {
            p = p - 1;
        }
        proof {
            lemma_part_insert_at(sorted, x@, p as int);
        }
        out.insert(p, x);
        proof {
            assert(plan_parts_view(out@) =~= sorted.take(p as int) + seq![x@] + sorted.skip(p as int));
        }
    }
    proof {
        assert(orig.take(orig.len() as int) =~= orig);
    }
    out
}

} // verus!

verus! {

/// Order of map entries: by start, then end, then label.
pub open spec fn entry_key_le(a: MapEntryView, b: MapEntryView) -> bool {
    a.start_lba < b.start_lba || (a.start_lba == b.start_lba && (a.end_lba < b.end_lba || (a.end_lba == b.end_lba
        && crate::sorting::text_le(a.label, b.label))))
}

pub open spec fn entry_insert(s: Seq<MapEntryView>, x: MapEntryView) -> Seq<MapEntryView>
    decreases s.len(),
{
    if s.len() == 0 {
        seq![x]
    } else if entry_key_le(s.last(), x) {
        s.push(x)
    } else {
        entry_insert(s.drop_last(), x).push(s.last())
    }
}

/// The stable sort of `s` by `entry_key_le`.
pub open spec fn entry_sort(s: Seq<MapEntryView>) -> Seq<MapEntryView>
    decreases s.len(),
{
    if s.len() == 0 {
        seq![]
    } else {
        entry_insert(entry_sort(s.drop_last()), s.last())
    }
}

proof fn lemma_entry_insert_at(s: Seq<MapEntryView>, x: MapEntryView, p: int)
    requires
        0 <= p <= s.len(),
        p == 0 || entry_key_le(s[p - 1], x),
        forall|k: int| p <= k < s.len() ==> !entry_key_le(#[trigger] s[k], x),
    ensures
        entry_insert(s, x) == s.take(p) + seq![x] + s.skip(p),
    decreases s.len(),
{
    if s.len() == 0 {
        assert(s.take(p) + seq![x] + s.skip(p) =~= seq![x]);
    } else if p == s.len() {
        assert(s.take(p) + seq![x] + s.skip(p) =~= s.push(x));
    } else {
        let t = s.drop_last();
        assert(!entry_key_le(s[s.len() - 1], x));
        lemma_entry_insert_at(t, x, p);
        assert(s.take(p) + seq![x] + s.skip(p) =~= (t.take(p) + seq![x] + t.skip(p)).push(s.last()));
    }
}

fn map_key_le(a: &RecoveryPlanTableMapEntry, b: &RecoveryPlanTableMapEntry) -> (r: bool)
    ensures
        r == entry_key_le(a@, b@),
{
    if a.start_lba != b.start_lba {
        return a.start_lba < b.start_lba;
    }
    if a.end_lba != b.end_lba {
        return a.end_lba < b.end_lba;
    }
    let x = crate::text::chars_of(a.label.as_str());
    let y = crate::text::chars_of(b.label.as_str());
    crate::sorting::text_le_exec(&x, &y)
}

fn sort_map_entries(v: Vec<RecoveryPlanTableMapEntry>) -> (r: Vec<RecoveryPlanTableMapEntry>)
    ensures
        map_view(r@) == entry_sort(map_view(v@)),
{
    let ghost orig = map_view(v@);
    let mut rest = v;
    let mut out: Vec<RecoveryPlanTableMapEntry> = Vec::new();
    proof {
        assert(orig.take(0) =~= Seq::<MapEntryView>::empty());
        assert(orig.skip(0) =~= orig);
    }
    while rest.len() > 0
        invariant
            rest@.len() <= orig.len(),
            map_view(rest@) == orig.skip(orig.len() - rest@.len()),
            map_view(out@) == entry_sort(orig.take(orig.len() - rest@.len())),
        decreases rest.len(),
    {
        let ghost n = orig.len() - rest@.len();
        let ghost sorted = map_view(out@);
        let ghost before = rest@;
        let x = rest.remove(0);
        proof {
            assert(map_view(before)[0] == orig.skip(n)[0]);
            assert(x@ == orig[n]);
            assert(rest@ =~= before.skip(1));
            assert forall|k: int| 0 <= k < rest@.len() implies map_view(rest@)[k] == orig.skip(n + 1)[k] by {
                assert(map_view(before)[k + 1] == orig.skip(n)[k + 1]);
            }
            assert(map_view(rest@) =~= orig.skip(n + 1));
            assert(orig.take(n + 1).drop_last() =~= orig.take(n));
        }
        let mut p = out.len();
        while p > 0 && !map_key_le(&out[p - 1], &x)
            invariant
                p <= out@.len(),
                map_view(out@) == sorted,
                forall|k: int| p <= k < sorted.len() ==> !entry_key_le(#[trigger] sorted[k], x@),
            decreases p,
        {
            p = p - 1;
        }
        proof {
            lemma_entry_insert_at(sorted, x@, p as int);
        }
        out.insert(p, x);
        proof {
            assert(map_view(out@) =~= sorted.take(p as int) + seq![x@] + sorted.skip(p as int));
        }
    }
    proof {
        assert(orig.take(orig.len() as int) =~= orig);
    }
    out
}

/// The plan entry a scanned partition becomes.
pub open spec fn to_plan_part(p: PartView) -> PlanPartView {
    PlanPartView {
        index: p.index,
        name: p.name,
        start_lba: p.start_lba,
        end_lba: p.end_lba,
        size_bytes: p.size_bytes,
        type_label: p.type_label,
        source: p.source,
        status: p.status,
        confidence: p.confidence,
        conflict_status: p.conflict_status,
    }
}

pub open spec fn to_plan_parts(ps: Seq<PartView>) -> Seq<PlanPartView> {
    ps.map_values(|p: PartView| to_plan_part(p))
}

/// The selected partitions in start order; with none selected, all
/// partitions of the scan in scan order.
pub open spec fn spec_normalize_selected(scan_parts: Seq<PartView>, selected: Seq<PartView>) -> Seq<PlanPartView> {
    if selected.len() == 0 {
        to_plan_parts(scan_parts)
    } else {
        part_sort(to_plan_parts(selected))
    }
}

fn plan_partition_from(p: &PartitionResult) -> (r: RecoveryPlanPartition)
    ensures
        r@ == to_plan_part(p@),
{
    RecoveryPlanPartition {
        index: p.index,
        name: p.name.clone(),
        start_lba: p.start_lba,
        end_lba: p.end_lba,
        size_bytes: p.size_bytes,
        type_label: p.type_label.clone(),
        source: p.source.clone(),
        status: p.status.clone(),
        confidence: p.confidence,
        conflict_status: p.conflict_status.clone(),
    }
}

fn plan_partitions_from(ps: &Vec<PartitionResult>) -> (r: Vec<RecoveryPlanPartition>)
    ensures
        plan_parts_view(r@) == to_plan_parts(parts_view(ps@)),
{
    let mut out: Vec<RecoveryPlanPartition> = Vec::new();
    let mut i: usize = 0;
    while i < ps.len()
        invariant
            i <= ps@.len(),
            plan_parts_view(out@) == to_plan_parts(parts_view(ps@)).take(i as int),
        decreases ps.len() - i,
    {
        let r = plan_partition_from(&ps[i]);
        let ghost before = plan_parts_view(out@);
        out.push(r);
        proof {
            assert(plan_parts_view(out@) =~= before.push(r@));
            assert(to_plan_parts(parts_view(ps@)).take(i + 1) =~= to_plan_parts(parts_view(ps@)).take(i as int).push(to_plan_part(ps@[i as int]@)));
        }
        i = i + 1;
    }
    proof {
        assert(to_plan_parts(parts_view(ps@)).take(ps@.len() as int) =~= to_plan_parts(parts_view(ps@)));
    }
    out
}

pub fn normalize_selected_partitions(scan: &ScanResult, selected_partitions: &Vec<PartitionResult>) -> (r: Vec<RecoveryPlanPartition>)
    ensures
        plan_parts_view(r@) == spec_normalize_selected(parts_view(scan.partitions@), parts_view(selected_partitions@)),
{
    let selected = sort_plan_partitions(plan_partitions_from(selected_partitions));
    if selected.len() == 0 {
        proof {
            assert(to_plan_parts(parts_view(selected_partitions@)).len() == 0) by {
                if to_plan_parts(parts_view(selected_partitions@)).len() != 0 {
                    lemma_part_sort_len(to_plan_parts(parts_view(selected_partitions@)));
                }
            }
        }
        return plan_partitions_from(&scan.partitions);
    }
    proof {
        lemma_part_sort_len(to_plan_parts(parts_view(selected_partitions@)));
    }
    selected
}

proof fn lemma_part_insert_len(s: Seq<PlanPartView>, x: PlanPartView)
    ensures
        part_insert(s, x).len() == s.len() + 1,
    decreases s.len(),
{
    if s.len() > 0 && !part_key_le(s.last(), x) {
        lemma_part_insert_len(s.drop_last(), x);
    }
}

proof fn lemma_part_sort_len(s: Seq<PlanPartView>)
    ensures
        part_sort(s).len() == s.len(),
    decreases s.len(),
{
    if s.len() > 0 {
        lemma_part_sort_len(s.drop_last());
        lemma_part_insert_len(part_sort(s.drop_last()), s.last());
    }
}

} // verus!

verus! {

/// The last addressable LBA of a disk of `disk_size` bytes (0 for an empty disk).
pub open spec fn plan_max_lba(disk_size: u64) -> int {
    if disk_size / 512 >= 1 {
        disk_size / 512 - 1
    } else {
        0
    }
}

/// Range errors of the first `n` selected partitions.
pub open spec fn bounds_issues(sel: Seq<PlanPartView>, max_lba: int, n: int) -> Seq<IssueView>
    decreases n,
{
    if n <= 0 {
        seq![]
    } else {
        let p = sel[n - 1];
        bounds_issues(sel, max_lba, n - 1) + if p.end_lba < p.start_lba {
            seq![error_issue("invalid-range"@, p.name + " has end_lba before start_lba"@)]
        } else if p.end_lba > max_lba {
            seq![error_issue("out-of-bounds"@, p.name + " extends beyond disk size"@)]
        } else {
            seq![]
        }
    }
}

/// Overlap errors between neighbours among the first `n` selected partitions.
pub open spec fn overlap_issues(sel: Seq<PlanPartView>, n: int) -> Seq<IssueView>
    decreases n,
{
    if n <= 1 {
        seq![]
    } else {
        let left = sel[n - 2];
        let right = sel[n - 1];
        overlap_issues(sel, n - 1) + if right.start_lba <= left.end_lba {
            seq![error_issue("overlap"@, left.name + " overlaps "@ + right.name)]
        } else {
            seq![]
        }
    }
}

pub open spec fn is_logical(p: PlanPartView) -> bool {
    p.source == "mbr-logical"@
}

pub open spec fn is_extended_container(p: PlanPartView) -> bool {
    p.source == "mbr"@ && crate::text::has_infix(p.type_label, "Extended"@)
}

/// Number of primary (non-logical) entries among the first `n`.
pub open spec fn primary_count(sel: Seq<PlanPartView>, n: int) -> nat
    decreases n,
{
    if n <= 0 {
        0
    } else {
        primary_count(sel, n - 1) + if is_logical(sel[n - 1]) { 0nat } else { 1nat }
    }
}

pub open spec fn gpt_reserved_violation(sel: Seq<PlanPartView>) -> bool {
    exists|k: int| 0 <= k < sel.len() && (#[trigger] sel[k]).start_lba < 34
}

pub open spec fn gpt_backup_violation(sel: Seq<PlanPartView>, max_lba: int) -> bool {
    exists|k: int| 0 <= k < sel.len() && (#[trigger] sel[k]).end_lba > (if max_lba >= 33 { max_lba - 33 } else { 0 })
}

pub open spec fn logical_without_container(sel: Seq<PlanPartView>) -> bool {
    (exists|k: int| 0 <= k < sel.len() && is_logical(#[trigger] sel[k]))
        && !(exists|k: int| 0 <= k < sel.len() && is_extended_container(#[trigger] sel[k]))
}

/// Issues from the rules of the proposed table type.
pub open spec fn table_rule_issues(original: PartitionTableType, proposed: PartitionTableType, sel: Seq<PlanPartView>, max_lba: int) -> Seq<IssueView> {
    let by_type = match proposed {
        PartitionTableType::Gpt => (if gpt_reserved_violation(sel) {
            seq![error_issue("gpt-reserved-space"@, "GPT plans must leave the primary header and partition array space intact"@)]
        } else {
            seq![]
        }) + (if gpt_backup_violation(sel, max_lba) {
            seq![error_issue("gpt-backup-space"@, "GPT plans must leave backup header and partition array space intact"@)]
        } else {
            seq![]
        }),
        PartitionTableType::Mbr => (if primary_count(sel, sel.len() as int) > 4 {
            seq![error_issue("mbr-primary-count"@, "MBR plans can only contain four primary entries"@)]
        } else {
            seq![]
        }) + (if logical_without_container(sel) {
            seq![error_issue("mbr-logical-container"@, "Logical partitions require an extended container entry"@)]
        } else {
            seq![]
        }),
        PartitionTableType::Unknown => seq![warning_issue("unknown-table"@, "The source table type is unknown; proposed layout validation is limited"@)],
    };
    by_type + if original == PartitionTableType::Unknown && proposed != PartitionTableType::Unknown {
        seq![warning_issue("type-inference"@, "The scan result did not prove the original table type; proposal is inferred from selection"@)]
    } else {
        seq![]
    }
}

/// All validation issues of a plan, in the order they are reported.
pub open spec fn plan_issues(original: PartitionTableType, proposed: PartitionTableType, sel: Seq<PlanPartView>, disk_size: u64) -> Seq<IssueView> {
    let max_lba = plan_max_lba(disk_size);
    bounds_issues(sel, max_lba, sel.len() as int) + overlap_issues(sel, sel.len() as int)
        + table_rule_issues(original, proposed, sel, max_lba)
}

pub open spec fn has_error(issues: Seq<IssueView>) -> bool {
    exists|k: int| 0 <= k < issues.len() && (#[trigger] issues[k]).severity == RecoveryPlanValidationSeverity::Error
}

fn push_issue(v: &mut Vec<RecoveryPlanValidationIssue>, i: RecoveryPlanValidationIssue)
    ensures
        issues_view(final(v)@) == issues_view(old(v)@).push(i@),
{
    let ghost before = issues_view(v@);
    v.push(i);
    proof {
        assert(issues_view(v@) =~= before.push(i@));
    }
}

fn text_of(parts: &[&str]) -> (r: String)
    ensures
        r@ == concat_views(parts@),
{
    let mut out: Vec<char> = Vec::new();
    let mut i: usize = 0;
    while i < parts.len()
        invariant
            i <= parts@.len(),
            out@ == concat_views(parts@.take(i as int)),
        decreases parts.len() - i,
    {
        push_str(&mut out, parts[i]);
        proof {
            assert(parts@.take(i + 1).drop_last() =~= parts@.take(i as int));
        }
        i = i + 1;
    }
    proof {
        assert(parts@.take(parts@.len() as int) =~= parts@);
    }
    string_of(&out)
}

/// Concatenation of the texts of string slices.
pub open spec fn concat_views(parts: Seq<&str>) -> Seq<char>
    decreases parts.len(),
{
    if parts.len() == 0 {
        seq![]
    } else {
        concat_views(parts.drop_last()) + parts.last()@
    }
}

pub fn validate_bounds(disk_size: u64, selected: &Vec<RecoveryPlanPartition>) -> (r: Vec<RecoveryPlanValidationIssue>)
    ensures
        issues_view(r@) == bounds_issues(plan_parts_view(selected@), plan_max_lba(disk_size), selected@.len() as int),
{
    let max_lba = (disk_size / 512).saturating_sub(1);
    let ghost sel = plan_parts_view(selected@);
    let mut issues: Vec<RecoveryPlanValidationIssue> = Vec::new();
    let mut i: usize = 0;
    while i < selected.len()
        invariant
            i <= selected@.len(),
            sel == plan_parts_view(selected@),
            max_lba == plan_max_lba(disk_size),
            issues_view(issues@) == bounds_issues(sel, max_lba as int, i as int),
        decreases selected.len() - i,
    {
        let p = &selected[i];
        assert(sel[i as int] == p@);
        if p.end_lba < p.start_lba {
            push_issue(&mut issues, issue_error("invalid-range", text_of(&[p.name.as_str(), " has end_lba before start_lba"])));
            proof {
                reveal_with_fuel(concat_views, 3);
            }
        } else if p.end_lba > max_lba {
            push_issue(&mut issues, issue_error("out-of-bounds", text_of(&[p.name.as_str(), " extends beyond disk size"])));
            proof {
                reveal_with_fuel(concat_views, 3);
            }
        }
        proof {
            assert(issues_view(issues@) =~= bounds_issues(sel, max_lba as int, i + 1));
        }
        i = i + 1;
    }
    issues
}

} // verus!

verus! {

pub fn validate_overlaps(selected: &Vec<RecoveryPlanPartition>) -> (r: Vec<RecoveryPlanValidationIssue>)
    ensures
        issues_view(r@) == overlap_issues(plan_parts_view(selected@), selected@.len() as int),
{
    let ghost sel = plan_parts_view(selected@);
    let mut issues: Vec<RecoveryPlanValidationIssue> = Vec::new();
    if selected.len() < 2 {
        return issues;
    }
    let mut i: usize = 1;
    while i < selected.len()
        invariant
            1 <= i <= selected@.len(),
            sel == plan_parts_view(selected@),
            issues_view(issues@) == overlap_issues(sel, i as int),
        decreases selected.len() - i,
    {
        let left = &selected[i - 1];
        let right = &selected[i];
        assert(sel[i - 1] == left@);
        assert(sel[i as int] == right@);
        if right.start_lba <= left.end_lba {
            push_issue(&mut issues, issue_error("overlap", text_of(&[left.name.as_str(), " overlaps ", right.name.as_str()])));
            proof {
                reveal_with_fuel(concat_views, 4);
            }
        }
        proof {
            assert(issues_view(issues@) =~= overlap_issues(sel, i + 1));
        }
        i = i + 1;
    }
    issues
}

fn count_primary(selected: &Vec<RecoveryPlanPartition>) -> (r: u64)
    ensures
        r == primary_count(plan_parts_view(selected@), selected@.len() as int),
{
    let ghost sel = plan_parts_view(selected@);
    let mut n: u64 = 0;
    let mut i: usize = 0;
    while i < selected.len()
        invariant
            i <= selected@.len(),
            n <= i,
            sel == plan_parts_view(selected@),
            n == primary_count(sel, i as int),
        decreases selected.len() - i,
    {
        assert(sel[i as int] == selected@[i as int]@);
        proof {
            reveal_strlit("mbr-logical");
        }
        if !crate::text::str_eq(selected[i].source.as_str(), "mbr-logical") {
            n = n + 1;
        }
        i = i + 1;
    }
    n
}

pub fn validate_table_rules(
    original: PartitionTableType,
    proposed: PartitionTableType,
    selected: &Vec<RecoveryPlanPartition>,
    disk_size: u64,
) -> (r: Vec<RecoveryPlanValidationIssue>)
    ensures
        issues_view(r@) == table_rule_issues(original, proposed, plan_parts_view(selected@), plan_max_lba(disk_size)),
{
    let ghost sel = plan_parts_view(selected@);
    let max_lba = (disk_size / 512).saturating_sub(1);
    let mut issues: Vec<RecoveryPlanValidationIssue> = Vec::new();
    match proposed {
        PartitionTableType::Gpt => {
            let mut low = false;
            let mut high = false;
            let limit = max_lba.saturating_sub(33);
            let mut i: usize = 0;
            while i < selected.len()
                invariant
                    i <= selected@.len(),
                    sel == plan_parts_view(selected@),
                    limit == (if max_lba >= 33 { max_lba - 33 } else { 0 }),
                    low == (exists|k: int| 0 <= k < i && (#[trigger] sel[k]).start_lba < 34),
                    high == (exists|k: int| 0 <= k < i && (#[trigger] sel[k]).end_lba > limit),
                decreases selected.len() - i,
            {
                assert(sel[i as int] == selected@[i as int]@);
                if selected[i].start_lba < 34 {
                    low = true;
                }
                if selected[i].end_lba > limit {
                    high = true;
                }
                i = i + 1;
            }
            if low {
                push_issue(&mut issues, issue_error("gpt-reserved-space", owned("GPT plans must leave the primary header and partition array space intact")));
            }
            if high {
                push_issue(&mut issues, issue_error("gpt-backup-space", owned("GPT plans must leave backup header and partition array space intact")));
            }
        },
        PartitionTableType::Mbr => {
            if count_primary(selected) > 4 {
                push_issue(&mut issues, issue_error("mbr-primary-count", owned("MBR plans can only contain four primary entries")));
            }
            let mut any_logical = false;
            let mut any_container = false;
            let mut i: usize = 0;
            while i < selected.len()
                invariant
                    i <= selected@.len(),
                    sel == plan_parts_view(selected@),
                    any_logical == (exists|k: int| 0 <= k < i && is_logical(#[trigger] sel[k])),
                    any_container == (exists|k: int| 0 <= k < i && is_extended_container(#[trigger] sel[k])),
                decreases selected.len() - i,
            {
                assert(sel[i as int] == selected@[i as int]@);
                proof {
                    reveal_strlit("mbr-logical");
                    reveal_strlit("mbr");
                    reveal_strlit("Extended");
                }
                let src = selected[i].source.as_str();
                if crate::text::str_eq(src, "mbr-logical") {
                    any_logical = true;
                }
                if crate::text::str_eq(src, "mbr") && crate::text::contains_str(&crate::text::chars_of(selected[i].type_label.as_str()), "Extended") {
                    any_container = true;
                }
                i = i + 1;
            }
            if any_logical && !any_container {
                push_issue(&mut issues, issue_error("mbr-logical-container", owned("Logical partitions require an extended container entry")));
            }
        },
        PartitionTableType::Unknown => {
            push_issue(&mut issues, issue_warning("unknown-table", owned("The source table type is unknown; proposed layout validation is limited")));
        },
    }
    if original == PartitionTableType::Unknown && proposed != PartitionTableType::Unknown {
        push_issue(&mut issues, issue_warning("type-inference", owned("The scan result did not prove the original table type; proposal is inferred from selection")));
    }
    proof {
        assert(issues_view(issues@) =~= table_rule_issues(original, proposed, sel, max_lba as int));
    }
    issues
}

} // verus!

verus! {

/// `_` replaced by `-`.
pub open spec fn dashed(s: Seq<char>) -> Seq<char> {
    s.map_values(|c: char| if c == '_' { '-' } else { c })
}

/// Conflict notes of the first `n` selected partitions that are not clear.
pub open spec fn plan_conflicts(sel: Seq<PlanPartView>, n: int) -> Seq<Seq<char>>
    decreases n,
{
    if n <= 0 {
        seq![]
    } else {
        let p = sel[n - 1];
        plan_conflicts(sel, n - 1) + if p.conflict_status != "clear"@ {
            seq![p.name + ":"@ + dashed(p.conflict_status)]
        } else {
            seq![]
        }
    }
}

pub open spec fn map_entry_of(p: PartView) -> MapEntryView {
    MapEntryView { label: dec(p.index as nat) + ":"@ + p.name, start_lba: p.start_lba, end_lba: p.end_lba }
}

pub open spec fn map_entries_of(ps: Seq<PartView>) -> Seq<MapEntryView> {
    ps.map_values(|p: PartView| map_entry_of(p))
}

pub open spec fn plan_map_entry_of(p: PlanPartView) -> MapEntryView {
    MapEntryView { label: dec(p.index as nat) + ":"@ + p.name, start_lba: p.start_lba, end_lba: p.end_lba }
}

/// The map entries of the planned layout.
pub open spec fn plan_map_entries_of(ps: Seq<PlanPartView>) -> Seq<MapEntryView> {
    ps.map_values(|p: PlanPartView| plan_map_entry_of(p))
}

pub open spec fn disk_signature(path: Seq<char>, size: u64, count: nat) -> Seq<char> {
    path + ":"@ + dec(size as nat) + ":"@ + dec(count)
}

/// `plan` is the plan built from `scan` for the selection `selected`.
pub open spec fn plan_matches(
    plan: RecoveryPlan,
    scan: ScanResult,
    selected: Seq<PartView>,
    proposed: PartitionTableType,
    app_version: Seq<char>,
    created_at: u64,
) -> bool {
    let sel = spec_normalize_selected(parts_view(scan.partitions@), selected);
    &&& plan.schema_version == RECOVERY_PLAN_SCHEMA_VERSION
    &&& plan.created_at_unix_seconds == created_at
    &&& plan.app_version@ == app_version
    &&& plan.source_disk_path@ == scan.disk_path@
    &&& plan.source_disk_size == scan.disk_size
    &&& plan.source_disk_signature@ == disk_signature(scan.disk_path@, scan.disk_size, scan.partitions@.len())
    &&& plan.original_partition_table_type == scan.partition_table_type
    &&& plan.proposed_partition_table_type == proposed
    &&& plan_parts_view(plan.selected_partitions@) == sel
    &&& map_view(plan.before_map@) == map_entries_of(parts_view(scan.partitions@) + parts_view(scan.lost_partitions@))
    &&& map_view(plan.after_map@) == entry_sort(plan_map_entries_of(sel))
    &&& strings_view(plan.warnings@) == strings_view(scan.warnings@)
    &&& strings_view(plan.conflicts@) == plan_conflicts(sel, sel.len() as int)
    &&& issues_view(plan.validation@) == plan_issues(scan.partition_table_type, proposed, sel, scan.disk_size)
}

/// A plan depends on nothing but what it is built from (no clock, no
/// chance): two plans built from the same scan, selection, table type,
/// version and time agree in every field.
pub proof fn lemma_plan_is_determined(
    a: RecoveryPlan,
    b: RecoveryPlan,
    scan: ScanResult,
    selected: Seq<PartView>,
    proposed: PartitionTableType,
    app_version: Seq<char>,
    created_at: u64,
)
    requires
        plan_matches(a, scan, selected, proposed, app_version, created_at),
        plan_matches(b, scan, selected, proposed, app_version, created_at),
    ensures
        a.schema_version == b.schema_version,
        a.created_at_unix_seconds == b.created_at_unix_seconds,
        a.app_version@ == b.app_version@,
        a.source_disk_path@ == b.source_disk_path@,
        a.source_disk_size == b.source_disk_size,
        a.source_disk_signature@ == b.source_disk_signature@,
        a.original_partition_table_type == b.original_partition_table_type,
        a.proposed_partition_table_type == b.proposed_partition_table_type,
        plan_parts_view(a.selected_partitions@) == plan_parts_view(b.selected_partitions@),
        map_view(a.before_map@) == map_view(b.before_map@),
        map_view(a.after_map@) == map_view(b.after_map@),
        strings_view(a.warnings@) == strings_view(b.warnings@),
        strings_view(a.conflicts@) == strings_view(b.conflicts@),
        issues_view(a.validation@) == issues_view(b.validation@),
{
}

fn copy_strings(v: &Vec<String>) -> (r: Vec<String>)
    ensures
        strings_view(r@) == strings_view(v@),
{
    let mut out: Vec<String> = Vec::new();
    let mut i: usize = 0;
    while i < v.len()
        invariant
            i <= v@.len(),
            strings_view(out@) == strings_view(v@).take(i as int),
        decreases v.len() - i,
    {
        let ghost before = strings_view(out@);
        out.push(v[i].clone());
        proof {
            assert(strings_view(out@) =~= before.push(v@[i as int]@));
            assert(strings_view(v@).take(i + 1) =~= strings_view(v@).take(i as int).push(v@[i as int]@));
        }
        i = i + 1;
    }
    proof {
        assert(strings_view(v@).take(v@.len() as int) =~= strings_view(v@));
    }
    out
}

fn dashed_chars(s: &str) -> (r: Vec<char>)
    ensures
        r@ == dashed(s@),
{
    let v = crate::text::chars_of(s);
    let mut out: Vec<char> = Vec::new();
    let mut i: usize = 0;
    while i < v.len()
        invariant
            i <= v@.len(),
            v@ == s@,
            out@ == dashed(v@).take(i as int),
        decreases v.len() - i,
    {
        out.push(if v[i] == '_' { '-' } else { v[i] });
        proof {
            assert(dashed(v@).take(i + 1) =~= dashed(v@).take(i as int).push(dashed(v@)[i as int]));
        }
        i = i + 1;
    }
    proof {
        assert(dashed(v@).take(v@.len() as int) =~= dashed(v@));
    }
    out
}

fn conflicts_of(selected: &Vec<RecoveryPlanPartition>) -> (r: Vec<String>)
    ensures
        strings_view(r@) == plan_conflicts(plan_parts_view(selected@), selected@.len() as int),
{
    let ghost sel = plan_parts_view(selected@);
    let mut out: Vec<String> = Vec::new();
    let mut i: usize = 0;
    while i < selected.len()
        invariant
            i <= selected@.len(),
            sel == plan_parts_view(selected@),
            strings_view(out@) == plan_conflicts(sel, i as int),
        decreases selected.len() - i,
    {
        let p = &selected[i];
        assert(sel[i as int] == p@);
        proof {
            reveal_strlit("clear");
        }
        if !crate::text::str_eq(p.conflict_status.as_str(), "clear") {
            let mut text: Vec<char> = Vec::new();
            push_str(&mut text, p.name.as_str());
            push_str(&mut text, ":");
            crate::text::push_chars(&mut text, &dashed_chars(p.conflict_status.as_str()));
            let ghost before = strings_view(out@);
            let t = string_of(&text);
            out.push(t);
            proof {
                assert(strings_view(out@) =~= before.push(t@));
            }
        }
        proof {
            assert(strings_view(out@) =~= plan_conflicts(sel, i + 1));
        }
        i = i + 1;
    }
    out
}

fn map_entry_from(p: &PartitionResult) -> (r: RecoveryPlanTableMapEntry)
    ensures
        r@ == map_entry_of(p@),
{
    let mut label: Vec<char> = Vec::new();
    push_dec(&mut label, p.index as u64);
    push_str(&mut label, ":");
    push_str(&mut label, p.name.as_str());
    RecoveryPlanTableMapEntry { label: string_of(&label), start_lba: p.start_lba, end_lba: p.end_lba }
}

fn plan_map_entry_from(p: &RecoveryPlanPartition) -> (r: RecoveryPlanTableMapEntry)
    ensures
        r@ == plan_map_entry_of(p@),
{
    let mut label: Vec<char> = Vec::new();
    push_dec(&mut label, p.index as u64);
    push_str(&mut label, ":");
    push_str(&mut label, p.name.as_str());
    RecoveryPlanTableMapEntry { label: string_of(&label), start_lba: p.start_lba, end_lba: p.end_lba }
}

fn plan_map_entries_from(ps: &Vec<RecoveryPlanPartition>) -> (out: Vec<RecoveryPlanTableMapEntry>)
    ensures
        map_view(out@) == plan_map_entries_of(plan_parts_view(ps@)),
{
    let mut out: Vec<RecoveryPlanTableMapEntry> = Vec::new();
    let mut i: usize = 0;
    while i < ps.len()
        invariant
            i <= ps@.len(),
            map_view(out@) == plan_map_entries_of(plan_parts_view(ps@)).take(i as int),
        decreases ps.len() - i,
    {
        let e = plan_map_entry_from(&ps[i]);
        let ghost before = map_view(out@);
        out.push(e);
        proof {
            assert(map_view(out@) =~= before.push(e@));
            assert(plan_map_entries_of(plan_parts_view(ps@)).take(i + 1) =~= plan_map_entries_of(
                plan_parts_view(ps@),
            ).take(i as int).push(plan_map_entry_of(ps@[i as int]@)));
        }
        i = i + 1;
    }
    proof {
        assert(plan_map_entries_of(plan_parts_view(ps@)).take(ps@.len() as int) =~= plan_map_entries_of(
            plan_parts_view(ps@),
        ));
    }
    out
}

fn map_entries_from(out: &mut Vec<RecoveryPlanTableMapEntry>, ps: &Vec<PartitionResult>)
    ensures
        map_view(final(out)@) == map_view(old(out)@) + map_entries_of(parts_view(ps@)),
{
    let ghost start = map_view(out@);
    let mut i: usize = 0;
    while i < ps.len()
        invariant
            i <= ps@.len(),
            map_view(out@) == start + map_entries_of(parts_view(ps@)).take(i as int),
        decreases ps.len() - i,
    {
        let e = map_entry_from(&ps[i]);
        let ghost before = map_view(out@);
        out.push(e);
        proof {
            assert(map_view(out@) =~= before.push(e@));
            assert(map_entries_of(parts_view(ps@)).take(i + 1) =~= map_entries_of(parts_view(ps@)).take(i as int).push(map_entry_of(ps@[i as int]@)));
        }
        i = i + 1;
    }
    proof {
        assert(map_entries_of(parts_view(ps@)).take(ps@.len() as int) =~= map_entries_of(parts_view(ps@)));
    }
}

pub fn has_error_issue(v: &Vec<RecoveryPlanValidationIssue>) -> (r: bool)
    ensures
        r == has_error(issues_view(v@)),
{
    let mut i: usize = 0;
    while i < v.len()
        invariant
            i <= v@.len(),
            forall|k: int| 0 <= k < i ==> (#[trigger] issues_view(v@)[k]).severity != RecoveryPlanValidationSeverity::Error,
        decreases v.len() - i,
    {
        if v[i].severity == RecoveryPlanValidationSeverity::Error {
            assert(issues_view(v@)[i as int].severity == RecoveryPlanValidationSeverity::Error);
            return true;
        }
        i = i + 1;
    }
    false
}

fn append_issues(dst: &mut Vec<RecoveryPlanValidationIssue>, src: Vec<RecoveryPlanValidationIssue>)
    ensures
        issues_view(final(dst)@) == issues_view(old(dst)@) + issues_view(src@),
{
    let mut s = src;
    let ghost before = issues_view(dst@);
    dst.append(&mut s);
    proof {
        assert(issues_view(dst@) =~= before + issues_view(src@));
    }
}

/// Builds a recovery plan from a scan and the partitions the user selected.
/// The plan is refused, with every validation issue, when any issue is an
/// error.
pub fn build_recovery_plan(
    scan: &ScanResult,
    selected_partitions: &Vec<PartitionResult>,
    proposed_partition_table_type: PartitionTableType,
    app_version: &str,
    created_at_unix_seconds: u64,
) -> (r: Result<RecoveryPlan, Vec<RecoveryPlanValidationIssue>>)
    ensures
        ({
            let sel = spec_normalize_selected(parts_view(scan.partitions@), parts_view(selected_partitions@));
            let issues = plan_issues(scan.partition_table_type, proposed_partition_table_type, sel, scan.disk_size);
            &&& (r is Err <==> has_error(issues))
            &&& (r matches Err(v) ==> issues_view(v@) == issues)
            &&& (r matches Ok(plan) ==> plan_matches(plan, *scan, parts_view(selected_partitions@),
                proposed_partition_table_type, app_version@, created_at_unix_seconds))
        }),
{
    let selected = normalize_selected_partitions(scan, selected_partitions);
    let mut validation: Vec<RecoveryPlanValidationIssue> = Vec::new();
    append_issues(&mut validation, validate_bounds(scan.disk_size, &selected));
    append_issues(&mut validation, validate_overlaps(&selected));
    append_issues(&mut validation, validate_table_rules(scan.partition_table_type, proposed_partition_table_type, &selected, scan.disk_size));
    proof {
        let sel = plan_parts_view(selected@);
        assert(issues_view(validation@) =~= plan_issues(scan.partition_table_type, proposed_partition_table_type, sel, scan.disk_size));
    }
    let conflicts = conflicts_of(&selected);
    let warnings = copy_strings(&scan.warnings);
    if has_error_issue(&validation) {
        return Err(validation);
    }
    let mut signature: Vec<char> = Vec::new();
    push_str(&mut signature, scan.disk_path.as_str());
    push_str(&mut signature, ":");
    push_dec(&mut signature, scan.disk_size);
    push_str(&mut signature, ":");
    push_dec(&mut signature, scan.partitions.len() as u64);
    let mut before_map: Vec<RecoveryPlanTableMapEntry> = Vec::new();
    map_entries_from(&mut before_map, &scan.partitions);
    map_entries_from(&mut before_map, &scan.lost_partitions);
    let after_raw = plan_map_entries_from(&selected);
    let after_map = sort_map_entries(after_raw);
    proof {
        assert(map_view(before_map@) =~= map_entries_of(parts_view(scan.partitions@) + parts_view(scan.lost_partitions@)));
    }
    Ok(RecoveryPlan {
        schema_version: RECOVERY_PLAN_SCHEMA_VERSION,
        created_at_unix_seconds,
        app_version: owned(app_version),
        source_disk_path: scan.disk_path.clone(),
        source_disk_size: scan.disk_size,
        source_disk_signature: string_of(&signature),
        original_partition_table_type: scan.partition_table_type,
        proposed_partition_table_type,
        selected_partitions: selected,
        before_map,
        after_map,
        warnings,
        conflicts,
        validation,
    })
}

} // verus!

verus! {

proof fn lemma_no_error_join(a: Seq<IssueView>, b: Seq<IssueView>)
    requires
        !has_error(a),
        !has_error(b),
    ensures
        !has_error(a + b),
{
    assert forall|k: int| 0 <= k < (a + b).len() implies (#[trigger] (a + b)[k]).severity
        != RecoveryPlanValidationSeverity::Error by {
        if k < a.len() {
            assert((a + b)[k] == a[k]);
        } else {
            assert((a + b)[k] == b[k - a.len()]);
        }
    }
}

proof fn lemma_bounds_empty(sel: Seq<PlanPartView>, max_lba: int, n: int)
    requires
        0 <= n <= sel.len(),
        forall|k: int| 0 <= k < n ==> (#[trigger] sel[k]).start_lba <= sel[k].end_lba && sel[k].end_lba <= max_lba,
    ensures
        bounds_issues(sel, max_lba, n) == Seq::<IssueView>::empty(),
    decreases n,
{
    if n > 0 {
        lemma_bounds_empty(sel, max_lba, n - 1);
        assert(sel[n - 1].start_lba <= sel[n - 1].end_lba);
        assert(bounds_issues(sel, max_lba, n) =~= Seq::<IssueView>::empty());
    }
}

/// Neighbours that share no sector raise no overlap issue: when each
/// selected partition starts after the one before it ends (adjacent ones
/// included, where one starts right after the other's last sector), the
/// overlap check reports nothing.
pub proof fn lemma_disjoint_neighbours_do_not_overlap(sel: Seq<PlanPartView>, n: int)
    requires
        0 <= n <= sel.len(),
        forall|k: int| 0 < k < n ==> (#[trigger] sel[k]).start_lba > sel[k - 1].end_lba,
    ensures
        overlap_issues(sel, n) == Seq::<IssueView>::empty(),
    decreases n,
{
    if n > 1 {
        lemma_disjoint_neighbours_do_not_overlap(sel, n - 1);
        assert(sel[n - 1].start_lba > sel[n - 2].end_lba);
        assert(overlap_issues(sel, n) =~= Seq::<IssueView>::empty());
    }
}

/// Two neighbours that do share a sector are reported as overlapping.
pub proof fn lemma_shared_sector_overlaps(sel: Seq<PlanPartView>, n: int, k: int)
    requires
        0 < k < n <= sel.len(),
        sel[k].start_lba <= sel[k - 1].end_lba,
    ensures
        has_error(overlap_issues(sel, n)),
    decreases n,
{
    if k < n - 1 {
        lemma_shared_sector_overlaps(sel, n - 1, k);
        let prev = overlap_issues(sel, n - 1);
        let w = choose|w: int| 0 <= w < prev.len() && (#[trigger] prev[w]).severity == RecoveryPlanValidationSeverity::Error;
        let tail = if sel[n - 1].start_lba <= sel[n - 2].end_lba {
            seq![error_issue("overlap"@, sel[n - 2].name + " overlaps "@ + sel[n - 1].name)]
        } else {
            seq![]
        };
        assert(overlap_issues(sel, n) == prev + tail);
        assert((prev + tail)[w] == prev[w]);
    } else {
        let prev = overlap_issues(sel, n - 1);
        let tail = seq![error_issue("overlap"@, sel[n - 2].name + " overlaps "@ + sel[n - 1].name)];
        assert(overlap_issues(sel, n) == prev + tail);
        assert((prev + tail)[prev.len() as int] == tail[0]);
    }
}

/// A plan whose selected partitions lie inside the disk, are pairwise
/// disjoint and meet the rules of the proposed table (GPT: the 34 leading
/// and 33 trailing sectors free; MBR: at most four primary entries and an
/// extended container for any logical one) raises no error-level issue and
/// no overlap issue at all. With `lemma_accepted_plan_is_consistent` this
/// says exactly which plans are accepted.
pub proof fn lemma_consistent_plan_is_accepted(
    original: PartitionTableType,
    proposed: PartitionTableType,
    sel: Seq<PlanPartView>,
    disk_size: u64,
)
    requires
        forall|k: int| 0 <= k < sel.len() ==> (#[trigger] sel[k]).start_lba <= sel[k].end_lba && sel[k].end_lba
            <= plan_max_lba(disk_size),
        forall|i: int, j: int| 0 <= i < j < sel.len() ==> (#[trigger] sel[i]).end_lba < (#[trigger] sel[j]).start_lba,
        proposed == PartitionTableType::Gpt ==> forall|k: int| 0 <= k < sel.len() ==> (#[trigger] sel[k]).start_lba >= 34
            && sel[k].end_lba <= (if plan_max_lba(disk_size) >= 33 { plan_max_lba(disk_size) - 33 } else { 0 }),
        proposed == PartitionTableType::Mbr ==> primary_count(sel, sel.len() as int) <= 4 && !logical_without_container(sel),
    ensures
        !has_error(plan_issues(original, proposed, sel, disk_size)),
        overlap_issues(sel, sel.len() as int) == Seq::<IssueView>::empty(),
{
    let max_lba = plan_max_lba(disk_size);
    lemma_bounds_empty(sel, max_lba, sel.len() as int);
    assert forall|k: int| 0 < k < sel.len() implies (#[trigger] sel[k]).start_lba > sel[k - 1].end_lba by {
        assert(sel[k - 1].end_lba < sel[k].start_lba);
    }
    lemma_disjoint_neighbours_do_not_overlap(sel, sel.len() as int);
    let t = table_rule_issues(original, proposed, sel, max_lba);
    if proposed == PartitionTableType::Gpt {
        assert(!gpt_reserved_violation(sel));
        assert(!gpt_backup_violation(sel, max_lba));
    }
    assert(!has_error(t));
    let b = bounds_issues(sel, max_lba, sel.len() as int);
    let o = overlap_issues(sel, sel.len() as int);
    assert(!has_error(b));
    assert(!has_error(o));
    lemma_no_error_join(b, o);
    lemma_no_error_join(b + o, t);
    assert(plan_issues(original, proposed, sel, disk_size) == b + o + t);
}

proof fn lemma_no_error_split(a: Seq<IssueView>, b: Seq<IssueView>)
    requires
        !has_error(a + b),
    ensures
        !has_error(a),
        !has_error(b),
{
    assert forall|k: int| 0 <= k < a.len() implies (#[trigger] a[k]).severity != RecoveryPlanValidationSeverity::Error by {
        assert((a + b)[k] == a[k]);
    }
    assert forall|k: int| 0 <= k < b.len() implies (#[trigger] b[k]).severity != RecoveryPlanValidationSeverity::Error by {
        assert((a + b)[a.len() + k] == b[k]);
    }
}

proof fn lemma_bounds_clean(sel: Seq<PlanPartView>, max_lba: int, n: int)
    requires
        0 <= n <= sel.len(),
        !has_error(bounds_issues(sel, max_lba, n)),
    ensures
        forall|k: int| 0 <= k < n ==> (#[trigger] sel[k]).start_lba <= sel[k].end_lba && sel[k].end_lba <= max_lba,
    decreases n,
{
    if n > 0 {
        let p = sel[n - 1];
        let tail = if p.end_lba < p.start_lba {
            seq![error_issue("invalid-range"@, p.name + " has end_lba before start_lba"@)]
        } else if p.end_lba > max_lba {
            seq![error_issue("out-of-bounds"@, p.name + " extends beyond disk size"@)]
        } else {
            seq![]
        };
        lemma_no_error_split(bounds_issues(sel, max_lba, n - 1), tail);
        lemma_bounds_clean(sel, max_lba, n - 1);
        if tail.len() > 0 {
            assert(tail[0].severity == RecoveryPlanValidationSeverity::Error);
        }
    }
}

proof fn lemma_overlaps_clean(sel: Seq<PlanPartView>, n: int)
    requires
        0 <= n <= sel.len(),
        !has_error(overlap_issues(sel, n)),
    ensures
        forall|k: int| 0 < k < n ==> (#[trigger] sel[k]).start_lba > sel[k - 1].end_lba,
    decreases n,
{
    if n > 1 {
        let left = sel[n - 2];
        let right = sel[n - 1];
        let tail = if right.start_lba <= left.end_lba {
            seq![error_issue("overlap"@, left.name + " overlaps "@ + right.name)]
        } else {
            seq![]
        };
        lemma_no_error_split(overlap_issues(sel, n - 1), tail);
        lemma_overlaps_clean(sel, n - 1);
        if tail.len() > 0 {
            assert(tail[0].severity == RecoveryPlanValidationSeverity::Error);
        }
    }
}

proof fn lemma_chain_disjoint(sel: Seq<PlanPartView>, i: int, j: int)
    requires
        0 <= i < j < sel.len(),
        forall|k: int| 0 <= k < sel.len() ==> (#[trigger] sel[k]).start_lba <= sel[k].end_lba,
        forall|k: int| 0 < k < sel.len() ==> (#[trigger] sel[k]).start_lba > sel[k - 1].end_lba,
    ensures
        sel[i].end_lba < sel[j].start_lba,
    decreases j - i,
{
    if j > i + 1 {
        lemma_chain_disjoint(sel, i, j - 1);
        assert(sel[j - 1].start_lba <= sel[j - 1].end_lba);
        assert(sel[j].start_lba > sel[j - 1].end_lba);
    } else {
        assert(sel[j].start_lba > sel[j - 1].end_lba);
    }
}

/// A plan with no error-level issue describes a layout that can be written:
/// every selected partition lies inside the disk with its end after its
/// start, the partitions are pairwise disjoint (each ends before the next
/// one starts), a GPT layout leaves the 34 leading and 33 trailing sectors
/// free, and an MBR layout has at most four primary entries and an extended
/// container for any logical one.
pub proof fn lemma_accepted_plan_is_consistent(
    original: PartitionTableType,
    proposed: PartitionTableType,
    sel: Seq<PlanPartView>,
    disk_size: u64,
)
    requires
        !has_error(plan_issues(original, proposed, sel, disk_size)),
    ensures
        forall|k: int| 0 <= k < sel.len() ==> (#[trigger] sel[k]).start_lba <= sel[k].end_lba && sel[k].end_lba <= plan_max_lba(disk_size),
        forall|i: int, j: int| 0 <= i < j < sel.len() ==> (#[trigger] sel[i]).end_lba < (#[trigger] sel[j]).start_lba,
        proposed == PartitionTableType::Gpt ==> forall|k: int| 0 <= k < sel.len() ==> (#[trigger] sel[k]).start_lba >= 34
            && sel[k].end_lba <= (if plan_max_lba(disk_size) >= 33 { plan_max_lba(disk_size) - 33 } else { 0 }),
        proposed == PartitionTableType::Mbr ==> primary_count(sel, sel.len() as int) <= 4 && !logical_without_container(sel),
{
    let max_lba = plan_max_lba(disk_size);
    let b = bounds_issues(sel, max_lba, sel.len() as int);
    let o = overlap_issues(sel, sel.len() as int);
    let t = table_rule_issues(original, proposed, sel, max_lba);
    assert(plan_issues(original, proposed, sel, disk_size) == b + o + t);
    lemma_no_error_split(b + o, t);
    lemma_no_error_split(b, o);
    lemma_bounds_clean(sel, max_lba, sel.len() as int);
    lemma_overlaps_clean(sel, sel.len() as int);
    assert forall|i: int, j: int| 0 <= i < j < sel.len() implies (#[trigger] sel[i]).end_lba < (#[trigger] sel[j]).start_lba by {
        lemma_chain_disjoint(sel, i, j);
    }
    if proposed == PartitionTableType::Gpt {
        let g1 = if gpt_reserved_violation(sel) {
            seq![error_issue("gpt-reserved-space"@, "GPT plans must leave the primary header and partition array space intact"@)]
        } else {
            seq![]
        };
        let g2 = if gpt_backup_violation(sel, max_lba) {
            seq![error_issue("gpt-backup-space"@, "GPT plans must leave backup header and partition array space intact"@)]
        } else {
            seq![]
        };
        let w = if original == PartitionTableType::Unknown && proposed != PartitionTableType::Unknown {
            seq![warning_issue("type-inference"@, "The scan result did not prove the original table type; proposal is inferred from selection"@)]
        } else {
            seq![]
        };
        assert(t == g1 + g2 + w);
        lemma_no_error_split(g1 + g2, w);
        lemma_no_error_split(g1, g2);
        if g1.len() > 0 {
            assert(g1[0].severity == RecoveryPlanValidationSeverity::Error);
        }
        if g2.len() > 0 {
            assert(g2[0].severity == RecoveryPlanValidationSeverity::Error);
        }
    }
    if proposed == PartitionTableType::Mbr {
        let m1 = if primary_count(sel, sel.len() as int) > 4 {
            seq![error_issue("mbr-primary-count"@, "MBR plans can only contain four primary entries"@)]
        } else {
            seq![]
        };
        let m2 = if logical_without_container(sel) {
            seq![error_issue("mbr-logical-container"@, "Logical partitions require an extended container entry"@)]
        } else {
            seq![]
        };
        let w = if original == PartitionTableType::Unknown && proposed != PartitionTableType::Unknown {
            seq![warning_issue("type-inference"@, "The scan result did not prove the original table type; proposal is inferred from selection"@)]
        } else {
            seq![]
        };
        assert(t == m1 + m2 + w);
        lemma_no_error_split(m1 + m2, w);
        lemma_no_error_split(m1, m2);
        if m1.len() > 0 {
            assert(m1[0].severity == RecoveryPlanValidationSeverity::Error);
        }
        if m2.len() > 0 {
            assert(m2[0].severity == RecoveryPlanValidationSeverity::Error);
        }
    }
}

} // verus!
