//! The command line: reading the arguments, and the answers that need no
//! device access.
use vstd::prelude::*;
use crate::domain::{DiskInfo, HostOs, strings_view};
use crate::formatter::{
    FormatDiskRequest, FormatFilesystem, FormatFilesystemOption, format_filesystem_options, options_view,
    spec_filesystem_options,
};
use crate::recovery_plan::{RecoveryPlan, RecoveryPlanValidationSeverity};
use crate::text::{has_prefix, lower_seq, owned, push_str, str_eq, string_of};

verus! {

#[derive(Debug, Clone, Copy, PartialEq, Eq)]
pub enum CliError {
    NotImplemented(&'static str),
}

impl CliError {
    /// The error's text: `<command> is not implemented`.
    pub fn message(&self) -> (r: String)
        ensures
            match self {
                CliError::NotImplemented(c) => r@ == c@ + " is not implemented"@,
            },
    {
        match self {
            CliError::NotImplemented(c) => {
                let mut v: Vec<char> = Vec::new();
                push_str(&mut v, c);
                push_str(&mut v, " is not implemented");
                string_of(&v)
            },
        }
    }
}

/// The answer the command line prints: whether it went well, which command
/// answered, a code and a message, and the command's data.
#[derive(Debug, Clone)]
pub struct CliEnvelope<T> {
    pub ok: bool,
    pub command: String,
    pub code: String,
    pub message: String,
    pub data: Option<T>,
}

/// An envelope is `ok` exactly when its code is `ok`.
pub fn envelope<T>(command: &str, code: &str, message: &str, data: Option<T>) -> (r: CliEnvelope<T>)
    ensures
        r.ok == (code@ == "ok"@),
        r.command@ == command@,
        r.code@ == code@,
        r.message@ == message@,
        r.data == data,
{
    CliEnvelope {
        ok: str_eq(code, "ok"),
        command: owned(command),
        code: owned(code),
        message: owned(message),
        data,
    }
}

// ---------------------------------------------------------------------------
// Arguments

/// The value after the first `name` that has one.
pub open spec fn option_value_from(args: Seq<Seq<char>>, name: Seq<char>, i: int) -> Option<Seq<char>>
    decreases args.len() - i,
{
    if i < 0 || i + 1 >= args.len() {
        None
    } else if args[i] == name {
        Some(args[i + 1])
    } else {
        option_value_from(args, name, i + 1)
    }
}

pub open spec fn spec_option_value(args: Seq<Seq<char>>, name: Seq<char>) -> Option<Seq<char>> {
    option_value_from(args, name, 0)
}

pub fn option_value(args: &Vec<String>, name: &str) -> (r: Option<String>)
    ensures
        crate::domain::opt_string_view(r) == spec_option_value(strings_view(args@), name@),
{
    let ghost av = strings_view(args@);
    let n = args.len();
    if n < 2 {
        return None;
    }
    let mut i: usize = 0;
    while i < n - 1
        invariant
            n == args@.len(),
            n >= 2,
            av == strings_view(args@),
            spec_option_value(av, name@) == option_value_from(av, name@, i as int),
        decreases n - i,
    {
        if str_eq(args[i].as_str(), name) {
            assert(av[i as int] == name@);
            assert(av[i + 1] == args@[i + 1]@);
            return Some(args[i + 1].clone());
        }
        i = i + 1;
    }
    None
}

pub fn has_flag(args: &Vec<String>, flag: &str) -> (r: bool)
    ensures
        r == strings_view(args@).contains(flag@),
{
    let ghost av = strings_view(args@);
    let mut i: usize = 0;
    while i < args.len()
        invariant
            i <= args.len(),
            av == strings_view(args@),
            forall|k: int| 0 <= k < i ==> av[k] != flag@,
        decreases args.len() - i,
    {
        if str_eq(args[i].as_str(), flag) {
            assert(av[i as int] == flag@);
            return true;
        }
        i = i + 1;
    }
    false
}

/// Filesystem names as typed on the command line, in any ASCII case.
pub open spec fn spec_parse_filesystem(value: Seq<char>) -> Option<FormatFilesystem> {
    let l = lower_seq(value);
    if l == "apfs"@ {
        Some(FormatFilesystem::Apfs)
    } else if l == "exfat"@ {
        Some(FormatFilesystem::Exfat)
    } else if l == "fat32"@ || l == "ms-dos"@ || l == "msdos"@ {
        Some(FormatFilesystem::Fat32)
    } else if l == "hfs+"@ || l == "hfsplus"@ {
        Some(FormatFilesystem::HfsPlus)
    } else if l == "ntfs"@ {
        Some(FormatFilesystem::Ntfs)
    } else if l == "ext4"@ {
        Some(FormatFilesystem::Ext4)
    } else {
        None
    }
}

pub fn parse_filesystem(value: &str) -> (r: Result<FormatFilesystem, String>)
    ensures
        match r {
            Ok(fs) => spec_parse_filesystem(value@) == Some(fs),
            Err(m) => spec_parse_filesystem(value@) is None && m@ == "unsupported filesystem: "@ + value@,
        },
{
    let l = crate::text::ascii_lowercase(value);
    let s = l.as_str();
    if str_eq(s, "apfs") {
        Ok(FormatFilesystem::Apfs)
    } else if str_eq(s, "exfat") {
        Ok(FormatFilesystem::Exfat)
    } else if str_eq(s, "fat32") || str_eq(s, "ms-dos") || str_eq(s, "msdos") {
        Ok(FormatFilesystem::Fat32)
    } else if str_eq(s, "hfs+") || str_eq(s, "hfsplus") {
        Ok(FormatFilesystem::HfsPlus)
    } else if str_eq(s, "ntfs") {
        Ok(FormatFilesystem::Ntfs)
    } else if str_eq(s, "ext4") {
        Ok(FormatFilesystem::Ext4)
    } else {
        let mut v: Vec<char> = Vec::new();
        push_str(&mut v, "unsupported filesystem: ");
        push_str(&mut v, value);
        Err(string_of(&v))
    }
}

fn clone_opt_string(o: &Option<String>) -> (r: Option<String>)
    ensures
        r == *o,
{
    match o {
        Some(s) => Some(s.clone()),
        None => None,
    }
}

/// A copy of a disk description.
pub fn copy_disk_info(d: &DiskInfo) -> (r: DiskInfo)
    ensures
        r == *d,
{
    DiskInfo {
        path: d.path.clone(),
        display_path: d.display_path.clone(),
        raw_path: d.raw_path.clone(),
        platform_id: d.platform_id.clone(),
        name: d.name.clone(),
        size_bytes: d.size_bytes,
        readable: d.readable,
        writable: d.writable,
        source: d.source,
        kind: d.kind,
        safety: d.safety,
        access: d.access,
        protocol: clone_opt_string(&d.protocol),
        is_internal: d.is_internal,
        is_removable: d.is_removable,
    }
}

/// The first disk named `identifier` by its path or its platform id.
pub open spec fn first_disk_named(disks: Seq<DiskInfo>, identifier: Seq<char>, i: int) -> Option<int>
    decreases disks.len() - i,
{
    if i < 0 || i >= disks.len() {
        None
    } else if disks[i].path@ == identifier || disks[i].platform_id@ == identifier {
        Some(i)
    } else {
        first_disk_named(disks, identifier, i + 1)
    }
}

pub fn resolve_disk(identifier: &str, disks: &Vec<DiskInfo>) -> (r: Option<DiskInfo>)
    ensures
        match first_disk_named(disks@, identifier@, 0) {
            Some(i) => r == Some(disks@[i]),
            None => r is None,
        },
{
    let mut i: usize = 0;
    while i < disks.len()
        invariant
            i <= disks.len(),
            first_disk_named(disks@, identifier@, 0) == first_disk_named(disks@, identifier@, i as int),
        decreases disks.len() - i,
    {
        if str_eq(disks[i].path.as_str(), identifier) || str_eq(disks[i].platform_id.as_str(), identifier) {
            return Some(copy_disk_info(&disks[i]));
        }
        i = i + 1;
    }
    None
}

// ---------------------------------------------------------------------------
// Commands

/// What the command line was asked to do. `ListFilesystems` carries the
/// finished answer; the others carry the arguments after the command's
/// name, for a command that needs the devices or files.
#[derive(Debug, Clone)]
pub enum CliAction {
    ListFilesystems(CliEnvelope<Vec<FormatFilesystemOption>>),
    Scan(Vec<String>),
    ValidatePlan(Vec<String>),
    Format(Vec<String>),
}

/// The arguments without the program's own name, where it comes first.
pub open spec fn command_args(args: Seq<Seq<char>>) -> Seq<Seq<char>> {
    let p = "mini-testdisk"@;
    if args.len() > 0 && args[0].len() >= p.len() && args[0].subrange(args[0].len() - p.len(), args[0].len() as int)
        == p {
        args.drop_first()
    } else {
        args
    }
}

pub open spec fn names_program(s: Seq<char>) -> bool {
    s.len() >= "mini-testdisk"@.len() && s.subrange(s.len() - "mini-testdisk"@.len(), s.len() as int)
        == "mini-testdisk"@
}

/// A leading program name does not change what the command line means:
/// the arguments after it are read as if it were absent.
pub proof fn lemma_program_name_is_dropped(p: Seq<char>, rest: Seq<Seq<char>>)
    requires
        names_program(p),
        rest.len() == 0 || !names_program(rest[0]),
    ensures
        command_args(seq![p] + rest) == command_args(rest),
        command_args(seq![p] + rest) == rest,
{
    assert((seq![p] + rest)[0] == p);
    assert((seq![p] + rest).drop_first() =~= rest);
}

fn ends_with_program_name(s: &str) -> (r: bool)
    ensures
        r == (s@.len() >= "mini-testdisk"@.len() && s@.subrange(
            s@.len() - "mini-testdisk"@.len(),
            s@.len() as int,
        ) == "mini-testdisk"@),
{
    let v = crate::text::chars_of(s);
    let p = crate::text::chars_of("mini-testdisk");
    if v.len() < p.len() {
        return false;
    }
    let tail = crate::text::drop_chars(&v, v.len() - p.len());
    proof {
        assert(v@.skip(v@.len() - p@.len()) =~= v@.subrange(v@.len() - p@.len(), v@.len() as int));
    }
    crate::text::slice_eq(&tail, &p)
}

fn rest_of(args: &Vec<String>, from: usize) -> (r: Vec<String>)
    requires
        from <= args@.len(),
    ensures
        strings_view(r@) == strings_view(args@).skip(from as int),
{
    let ghost av = strings_view(args@);
    let mut r: Vec<String> = Vec::new();
    let mut i: usize = from;
    while i < args.len()
        invariant
            from <= i <= args.len(),
            av == strings_view(args@),
            strings_view(r@) == av.subrange(from as int, i as int),
        decreases args.len() - i,
    {
        let ghost before = strings_view(r@);
        r.push(args[i].clone());
        proof {
            assert(strings_view(r@) =~= before.push(av[i as int]));
            assert(av.subrange(from as int, i + 1 as int) =~= av.subrange(from as int, i as int).push(av[i as int]));
        }
        i = i + 1;
    }
    proof {
        assert(av.subrange(from as int, args@.len() as int) =~= av.skip(from as int));
    }
    r
}

pub open spec fn action_args(a: CliAction) -> Option<Seq<Seq<char>>> {
    match a {
        CliAction::ListFilesystems(_) => None,
        CliAction::Scan(v) => Some(strings_view(v@)),
        CliAction::ValidatePlan(v) => Some(strings_view(v@)),
        CliAction::Format(v) => Some(strings_view(v@)),
    }
}

/// What the command line `args` asks for.
pub open spec fn dispatch_ok(os: HostOs, args: Seq<Seq<char>>, r: Result<CliAction, CliError>) -> bool {
    let a = command_args(args);
    if args.len() == 0 || a.len() == 0 {
        r == Err::<CliAction, CliError>(CliError::NotImplemented("dispatch"))
    } else if a[0] == "list-filesystems"@ {
        r matches Ok(CliAction::ListFilesystems(e)) && list_filesystems_answer(os, e)
    } else if a[0] == "scan"@ {
        r matches Ok(act) && act is Scan && action_args(act) == Some(a.drop_first())
    } else if a[0] == "validate-plan"@ {
        r matches Ok(act) && act is ValidatePlan && action_args(act) == Some(a.drop_first())
    } else if a[0] == "format"@ {
        r matches Ok(act) && act is Format && action_args(act) == Some(a.drop_first())
    } else {
        r == Err::<CliAction, CliError>(CliError::NotImplemented("dispatch"))
    }
}

/// Which command an action is.
pub open spec fn action_tag(a: CliAction) -> nat {
    match a {
        CliAction::ListFilesystems(_) => 0,
        CliAction::Scan(_) => 1,
        CliAction::ValidatePlan(_) => 2,
        CliAction::Format(_) => 3,
    }
}

/// Calling the command line with its program name first gives the same
/// answer as calling it without: the same error, or the same command with
/// the same arguments (and, for `list-filesystems`, the host's list).
pub proof fn lemma_dispatch_ignores_program_name(
    os: HostOs,
    p: Seq<char>,
    rest: Seq<Seq<char>>,
    with_name: Result<CliAction, CliError>,
    without: Result<CliAction, CliError>,
)
    requires
        names_program(p),
        rest.len() == 0 || !names_program(rest[0]),
        dispatch_ok(os, seq![p] + rest, with_name),
        dispatch_ok(os, rest, without),
    ensures
        with_name is Ok <==> without is Ok,
        with_name is Err ==> without == with_name,
        with_name matches Ok(a1) ==> (without matches Ok(a2) && action_tag(a1) == action_tag(a2) && action_args(a1)
            == action_args(a2)),
        with_name matches Ok(CliAction::ListFilesystems(e)) ==> list_filesystems_answer(os, e),
{
    lemma_program_name_is_dropped(p, rest);
    assert(command_args(rest) == rest);
}

/// Reads the command line: `list-filesystems` is answered at once, `scan`,
/// `validate-plan` and `format` are handed back with their arguments;
/// anything else, or nothing, is not implemented.
pub fn dispatch(os: HostOs, args: Vec<String>) -> (r: Result<CliAction, CliError>)
    ensures
        dispatch_ok(os, strings_view(args@), r),
{
    if args.len() == 0 {
        return Err(CliError::NotImplemented("dispatch"));
    }
    let ghost av = strings_view(args@);
    let skip: usize = if ends_with_program_name(args[0].as_str()) { 1 } else { 0 };
    proof {
        assert(av[0] == args@[0]@);
        if skip == 0 {
            assert(av.skip(0) =~= av);
        }
    }
    if skip >= args.len() {
        return Err(CliError::NotImplemented("dispatch"));
    }
    let first = args[skip].as_str();
    proof {
        assert(command_args(av) == av.skip(skip as int));
        assert(av.skip(skip as int)[0] == args@[skip as int]@);
        assert(av.skip(skip as int).drop_first() =~= av.skip(skip + 1 as int));
    }
    if str_eq(first, "list-filesystems") {
        Ok(CliAction::ListFilesystems(list_filesystems(os)))
    } else if str_eq(first, "scan") {
        Ok(CliAction::Scan(rest_of(&args, skip + 1)))
    } else if str_eq(first, "validate-plan") {
        Ok(CliAction::ValidatePlan(rest_of(&args, skip + 1)))
    } else if str_eq(first, "format") {
        Ok(CliAction::Format(rest_of(&args, skip + 1)))
    } else {
        Err(CliError::NotImplemented("dispatch"))
    }
}

// ---------------------------------------------------------------------------
// The list of filesystems

/// The answer to `list-filesystems`: every filesystem the host can make.
pub open spec fn list_filesystems_answer(os: HostOs, e: CliEnvelope<Vec<FormatFilesystemOption>>) -> bool {
    &&& e.ok
    &&& e.command@ == "list-filesystems"@
    &&& e.code@ == "ok"@
    &&& e.message@ == "supported filesystems"@
    &&& e.data matches Some(v) && options_view(v@) == spec_filesystem_options(os, None)
}

pub fn list_filesystems(os: HostOs) -> (r: CliEnvelope<Vec<FormatFilesystemOption>>)
    ensures
        list_filesystems_answer(os, r),
{
    let options = format_filesystem_options(os, None);
    envelope("list-filesystems", "ok", "supported filesystems", Some(options))
}

// ---------------------------------------------------------------------------
// The commands that need the devices

/// `scan` needs `--input`; `--output` is optional.
pub fn parse_scan_args(args: &Vec<String>) -> (r: Result<(String, Option<String>), String>)
    ensures
        match spec_option_value(strings_view(args@), "--input"@) {
            None => r matches Err(m) && m@ == "missing --input"@,
            Some(i) => r matches Ok(p) && p.0@ == i && crate::domain::opt_string_view(p.1) == spec_option_value(
                strings_view(args@),
                "--output"@,
            ),
        },
{
    let input = match option_value(args, "--input") {
        Some(i) => i,
        None => {
            return Err(owned("missing --input"));
        },
    };
    let output = option_value(args, "--output");
    Ok((input, output))
}

/// The code and message `validate-plan` answers with: a plan is valid when
/// none of its issues is an error.
pub fn validation_verdict(plan: &RecoveryPlan) -> (r: (&'static str, &'static str))
    ensures
        !crate::recovery_plan::has_error(crate::recovery_plan::issues_view(plan.validation@)) ==> r.0@ == "ok"@
            && r.1@ == "plan is valid"@,
        crate::recovery_plan::has_error(crate::recovery_plan::issues_view(plan.validation@)) ==> r.0@ == "invalid_plan"@
            && r.1@ == "plan contains validation errors"@,
{
    if crate::recovery_plan::has_error_issue(&plan.validation) {
        ("invalid_plan", "plan contains validation errors")
    } else {
        ("ok", "plan is valid")
    }
}

/// A format request read from the command line, and whether to run it
/// (`--unsafe`) or only preview it.
#[derive(Debug, Clone)]
pub struct FormatCommand {
    pub request: FormatDiskRequest,
    pub execute: bool,
}

/// Reads `format --target T --filesystem F --name N --confirm C [--unsafe]`
/// against the host's disks.
pub fn plan_format_command(args: &Vec<String>, disks: &Vec<DiskInfo>) -> (r: Result<FormatCommand, String>)
    ensures
        ({
            let av = strings_view(args@);
            let t = spec_option_value(av, "--target"@);
            let f = spec_option_value(av, "--filesystem"@);
            let n = spec_option_value(av, "--name"@);
            let c = spec_option_value(av, "--confirm"@);
            if t is None {
                r matches Err(m) && m@ == "missing --target"@
            } else if f is None {
                r matches Err(m) && m@ == "missing --filesystem"@
            } else if n is None {
                r matches Err(m) && m@ == "missing --name"@
            } else if c is None {
                r matches Err(m) && m@ == "missing --confirm"@
            } else {
                match first_disk_named(disks@, t->0, 0) {
                    None => r matches Err(m) && m@ == "target not found: "@ + t->0,
                    Some(i) => match spec_parse_filesystem(f->0) {
                        None => r matches Err(m) && m@ == "unsupported filesystem: "@ + f->0,
                        Some(fs) => r matches Ok(cmd) && cmd.request.target == disks@[i] && cmd.request.path
                            == disks@[i].path && cmd.request.filesystem == fs && cmd.request.volume_name@ == n->0
                            && cmd.request.confirmation@ == c->0 && cmd.execute == av.contains("--unsafe"@),
                    },
                }
            }
        }),
{
    let target = match option_value(args, "--target") {
        Some(v) => v,
        None => {
            return Err(owned("missing --target"));
        },
    };
    let filesystem = match option_value(args, "--filesystem") {
        Some(v) => v,
        None => {
            return Err(owned("missing --filesystem"));
        },
    };
    let name = match option_value(args, "--name") {
        Some(v) => v,
        None => {
            return Err(owned("missing --name"));
        },
    };
    let confirm = match option_value(args, "--confirm") {
        Some(v) => v,
        None => {
            return Err(owned("missing --confirm"));
        },
    };
    let unsafe_flag = has_flag(args, "--unsafe");
    let target_disk = match resolve_disk(target.as_str(), disks) {
        Some(d) => d,
        None => {
            let mut v: Vec<char> = Vec::new();
            push_str(&mut v, "target not found: ");
            push_str(&mut v, target.as_str());
            return Err(string_of(&v));
        },
    };
    let fs = match parse_filesystem(filesystem.as_str()) {
        Ok(fs) => fs,
        Err(e) => {
            return Err(e);
        },
    };
    let request = FormatDiskRequest {
        path: target_disk.path.clone(),
        target: target_disk,
        filesystem: fs,
        volume_name: name,
        confirmation: confirm,
    };
    Ok(FormatCommand { request, execute: unsafe_flag })
}

/// The disk a format request may go to: the host's current description of
/// the disk with the request's path or the target's platform id, which must
/// still carry the same path and platform id.
pub fn trusted_format_target(path: &str, target: &DiskInfo, disks: &Vec<DiskInfo>) -> (r: Result<DiskInfo, String>)
    ensures
        match first_trusted(disks@, path@, target.platform_id@, 0) {
            None => r matches Err(m) && m@ == "format target not found: "@ + path@,
            Some(i) => if disks@[i].path@ != target.path@ || disks@[i].platform_id@ != target.platform_id@ {
                r matches Err(m) && m@ == "format target no longer matches current disk metadata"@
            } else {
                r == Ok::<DiskInfo, String>(disks@[i])
            },
        },
{
    let mut i: usize = 0;
    while i < disks.len()
        invariant
            i <= disks.len(),
            first_trusted(disks@, path@, target.platform_id@, 0) == first_trusted(
                disks@,
                path@,
                target.platform_id@,
                i as int,
            ),
        decreases disks.len() - i,
    {
        if str_eq(disks[i].path.as_str(), path) || str_eq(disks[i].platform_id.as_str(), target.platform_id.as_str()) {
            let current = copy_disk_info(&disks[i]);
            if !str_eq(current.path.as_str(), target.path.as_str()) || !str_eq(
                current.platform_id.as_str(),
                target.platform_id.as_str(),
            ) {
                return Err(owned("format target no longer matches current disk metadata"));
            }
            return Ok(current);
        }
        i = i + 1;
    }
    let mut v: Vec<char> = Vec::new();
    push_str(&mut v, "format target not found: ");
    push_str(&mut v, path);
    Err(string_of(&v))
}

/// The first disk with the given path or platform id.
pub open spec fn first_trusted(disks: Seq<DiskInfo>, path: Seq<char>, platform_id: Seq<char>, i: int) -> Option<int>
    decreases disks.len() - i,
{
    if i < 0 || i >= disks.len() {
        None
    } else if disks[i].path@ == path || disks[i].platform_id@ == platform_id {
        Some(i)
    } else {
        first_trusted(disks, path, platform_id, i + 1)
    }
}

} // verus!
