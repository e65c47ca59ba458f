use testdisk::cli::{
    dispatch, envelope, has_flag, list_filesystems, option_value, parse_filesystem, parse_scan_args,
    plan_format_command, trusted_format_target, CliAction, CliError,
};
use testdisk::domain::{AccessCapability, DiskInfo, DiskKind, DiskSource, HostOs, TargetSafety};
use testdisk::formatter::FormatFilesystem;

fn args(v: &[&str]) -> Vec<String> {
    v.iter().map(|s| s.to_string()).collect()
}

fn disk(path: &str, id: &str) -> DiskInfo {
    DiskInfo {
        path: path.to_string(),
        display_path: path.to_string(),
        raw_path: path.to_string(),
        platform_id: id.to_string(),
        name: "USB".to_string(),
        size_bytes: 1 << 30,
        readable: true,
        writable: true,
        source: DiskSource::System,
        kind: DiskKind::Physical,
        safety: TargetSafety::External,
        access: AccessCapability::ReadWrite,
        protocol: None,
        is_internal: Some(false),
        is_removable: Some(true),
    }
}

#[test]
fn dispatch_lists_filesystems_as_json() {
    let answer = match dispatch(HostOs::Linux, args(&["mini-testdisk", "list-filesystems"])).unwrap() {
        CliAction::ListFilesystems(answer) => answer,
        _ => panic!("list-filesystems is answered directly"),
    };
    assert_eq!(answer.command, "list-filesystems");
    assert!(answer.ok);
}

#[test]
fn list_filesystems_response_serializes() {
    let answer = list_filesystems(HostOs::Linux);
    assert_eq!(answer.command, "list-filesystems");
    assert!(answer.ok);
    assert_eq!(answer.code, "ok");
    assert_eq!(answer.message, "supported filesystems");
}

#[test]
fn list_filesystems_lists_the_host_filesystems() {
    let answer = list_filesystems(HostOs::Windows);
    let options = answer.data.unwrap();
    let got: Vec<(FormatFilesystem, &str, &str)> =
        options.iter().map(|o| (o.value, o.label.as_str(), o.command_token.as_str())).collect();
    assert_eq!(
        got,
        vec![
            (FormatFilesystem::Exfat, "ExFAT", "ExFAT"),
            (FormatFilesystem::Fat32, "FAT32", "FAT32"),
            (FormatFilesystem::Ntfs, "NTFS", "NTFS"),
        ]
    );
    assert!(list_filesystems(HostOs::Other).data.unwrap().is_empty());
}

#[test]
fn dispatch_routes_commands() {
    assert!(matches!(dispatch(HostOs::Linux, vec![]), Err(CliError::NotImplemented("dispatch"))));
    assert!(matches!(dispatch(HostOs::Linux, args(&["mini-testdisk"])), Err(CliError::NotImplemented("dispatch"))));
    assert!(matches!(dispatch(HostOs::Linux, args(&["/usr/bin/mini-testdisk", "nope"])), Err(CliError::NotImplemented("dispatch"))));
    match dispatch(HostOs::Linux, args(&["/usr/bin/mini-testdisk", "scan", "--input", "a.img"])).unwrap() {
        CliAction::Scan(rest) => assert_eq!(rest, args(&["--input", "a.img"])),
        _ => panic!("scan"),
    }
    match dispatch(HostOs::Linux, args(&["format", "--unsafe"])).unwrap() {
        CliAction::Format(rest) => assert_eq!(rest, args(&["--unsafe"])),
        _ => panic!("format"),
    }
    assert_eq!(CliError::NotImplemented("scan").message(), "scan is not implemented");
}

#[test]
fn options_and_flags() {
    let a = args(&["--input", "x", "--input", "y", "--output"]);
    assert_eq!(option_value(&a, "--input"), Some("x".to_string()));
    assert_eq!(option_value(&a, "--output"), None);
    assert!(has_flag(&a, "--output"));
    assert!(!has_flag(&a, "--unsafe"));
    assert_eq!(parse_scan_args(&a).unwrap(), ("x".to_string(), None));
    assert_eq!(parse_scan_args(&args(&[])).unwrap_err(), "missing --input");
}

#[test]
fn filesystem_names_parse_case_insensitively() {
    assert_eq!(parse_filesystem("MS-DOS").unwrap(), FormatFilesystem::Fat32);
    assert_eq!(parse_filesystem("HFSplus").unwrap(), FormatFilesystem::HfsPlus);
    assert_eq!(parse_filesystem("zfs").unwrap_err(), "unsupported filesystem: zfs");
}

#[test]
fn format_command_previews_unless_unsafe() {
    let disks = vec![disk("/dev/sdb", "sdb")];
    let base = ["--target", "sdb", "--filesystem", "exfat", "--name", "USB", "--confirm", "sdb"];
    let cmd = plan_format_command(&args(&base), &disks).unwrap();
    assert!(!cmd.execute);
    assert_eq!(cmd.request.path, "/dev/sdb");
    assert_eq!(cmd.request.filesystem, FormatFilesystem::Exfat);
    let mut with_flag = base.to_vec();
    with_flag.push("--unsafe");
    assert!(plan_format_command(&args(&with_flag), &disks).unwrap().execute);
    assert_eq!(plan_format_command(&args(&base[2..]), &disks).unwrap_err(), "missing --target");
    let other = ["--target", "sdz", "--filesystem", "exfat", "--name", "USB", "--confirm", "sdz"];
    assert_eq!(plan_format_command(&args(&other), &disks).unwrap_err(), "target not found: sdz");
}

#[test]
fn format_targets_must_still_match() {
    let disks = vec![disk("/dev/sdb", "sdb")];
    let current = trusted_format_target("/dev/sdb", &disk("/dev/sdb", "sdb"), &disks).unwrap();
    assert_eq!(current.platform_id, "sdb");
    assert_eq!(
        trusted_format_target("/dev/sdb", &disk("/dev/sdb", "sdc"), &disks).unwrap_err(),
        "format target no longer matches current disk metadata"
    );
    assert_eq!(
        trusted_format_target("/dev/sdx", &disk("/dev/sdx", "sdx"), &disks).unwrap_err(),
        "format target not found: /dev/sdx"
    );
    let e = envelope("scan", "failed", "boom", Some(1u8));
    assert!(!e.ok);
    assert!(envelope::<u8>("scan", "ok", "fine", None).ok);
}
