use testdisk::domain::{AccessCapability, DiskInfo, DiskKind, DiskSource, HostOs, TargetSafety};
use testdisk::formatter::{
    advance_format, build_format_plan, format_filesystem_options, normalize_linux_device_name,
    normalize_macos_disk_identifier, normalize_windows_disk_number, platform_supported_filesystems,
    preview_format_plan, start_format, summarize_text, validate_volume_name, windows_format_script, CommandOutput,
    FormatAction, FormatDiskRequest, FormatError, FormatFilesystem,
};

fn sample_target() -> DiskInfo {
    DiskInfo {
        path: "/dev/disk4".to_string(),
        display_path: "/dev/disk4".to_string(),
        raw_path: "/dev/rdisk4".to_string(),
        platform_id: "disk4".to_string(),
        name: "USB".to_string(),
        size_bytes: 1024 * 1024 * 1024,
        readable: true,
        writable: true,
        source: DiskSource::System,
        kind: DiskKind::Physical,
        safety: TargetSafety::External,
        access: AccessCapability::ReadWrite,
        protocol: Some("usb".to_string()),
        is_internal: Some(false),
        is_removable: Some(true),
    }
}

fn request(confirmation: &str) -> FormatDiskRequest {
    FormatDiskRequest {
        path: "/dev/disk4".to_string(),
        target: sample_target(),
        filesystem: FormatFilesystem::Exfat,
        volume_name: "USB".to_string(),
        confirmation: confirmation.to_string(),
    }
}

#[test]
fn filters_unsupported_filesystems_for_internal_targets() {
    let mut target = sample_target();
    target.safety = TargetSafety::Internal;
    let options = format_filesystem_options(HostOs::Linux, Some(&target));
    assert!(options.is_empty());
}

#[test]
fn exposes_supported_platform_filesystems_for_external_targets() {
    let options = format_filesystem_options(HostOs::Linux, Some(&sample_target()));
    assert!(!options.is_empty());
    assert!(options.iter().all(|option| option.label.len() > 0));
}

#[test]
fn rejects_partition_confirmation_mismatch() {
    let mut request = request("disk5");
    let err = build_format_plan(HostOs::Linux, &request).unwrap_err();
    assert!(matches!(err, FormatError::ConfirmationMismatch));

    request.confirmation = "disk4".to_string();
    let plan = build_format_plan(HostOs::Linux, &request);
    assert!(plan.is_ok());
}

#[test]
fn previews_format_plan_without_execution() {
    let plan = preview_format_plan(HostOs::Linux, &request("disk4")).unwrap();
    assert_eq!(plan.target_id, "disk4");
    assert!(!plan.steps.is_empty());
}

#[test]
fn linux_plan_runs_mkfs_with_label_and_device() {
    let plan = build_format_plan(HostOs::Linux, &request(" /dev/disk4 ")).unwrap();
    assert_eq!(plan.platform, "linux");
    let names: Vec<&str> = plan.steps.iter().map(|s| s.name.as_str()).collect();
    assert_eq!(names, vec!["unmount", "format", "verify", "rescan"]);
    assert_eq!(plan.steps[1].program, "mkfs.exfat");
    assert_eq!(plan.steps[1].args, vec!["-n", "USB", "/dev/disk4"]);
    assert_eq!(plan.steps[2].args, vec!["-o", "value", "-s", "TYPE", "/dev/disk4"]);
}

#[test]
fn macos_plan_erases_whole_disk_identifier() {
    let plan = build_format_plan(HostOs::Macos, &request("disk4")).unwrap();
    assert_eq!(plan.target_id, "disk4");
    assert_eq!(plan.steps[1].args, vec!["eraseDisk", "ExFAT", "USB", "disk4"]);
    assert_eq!(plan.steps[3].args, vec!["info", "-plist", "disk4"]);
}

#[test]
fn windows_plan_needs_a_disk_number() {
    let err = build_format_plan(HostOs::Windows, &request("disk4")).unwrap_err();
    assert!(matches!(err, FormatError::InvalidTarget(ref p) if p == "disk4"));
    let mut r = request("PhysicalDrive3");
    r.target.platform_id = "PhysicalDrive3".to_string();
    let plan = build_format_plan(HostOs::Windows, &r).unwrap();
    assert_eq!(plan.target_id, "PhysicalDrive3");
    assert_eq!(plan.steps[0].args[2], "Set-Disk -Number 3 -IsOffline $true -ErrorAction Stop");
}

#[test]
fn refuses_internal_image_and_read_only_targets() {
    let mut r = request("disk4");
    r.target.safety = TargetSafety::Internal;
    assert!(matches!(build_format_plan(HostOs::Linux, &r).unwrap_err(), FormatError::UnsafeTarget(_)));
    let mut r = request("disk4");
    r.target.kind = DiskKind::Image;
    assert!(matches!(build_format_plan(HostOs::Linux, &r).unwrap_err(), FormatError::InvalidTarget(_)));
    let mut r = request("disk4");
    r.target.writable = false;
    assert!(matches!(build_format_plan(HostOs::Linux, &r).unwrap_err(), FormatError::UnsafeTarget(_)));
}

#[test]
fn rejects_filesystems_the_host_cannot_make() {
    let mut r = request("disk4");
    r.filesystem = FormatFilesystem::Apfs;
    let err = build_format_plan(HostOs::Linux, &r).unwrap_err();
    assert!(matches!(err, FormatError::UnsupportedFilesystem(ref n) if n == "Apfs"));
    assert!(platform_supported_filesystems(HostOs::Other).is_empty());
}

#[test]
fn volume_names_are_trimmed_and_checked() {
    assert_eq!(validate_volume_name("  DATA ").unwrap(), "DATA");
    assert!(matches!(validate_volume_name("a/b"), Err(FormatError::InvalidVolumeName)));
    assert!(matches!(validate_volume_name("   "), Err(FormatError::InvalidVolumeName)));
    assert!(matches!(validate_volume_name("it's"), Err(FormatError::InvalidVolumeName)));
}

#[test]
fn target_identifiers_per_host() {
    assert_eq!(normalize_macos_disk_identifier("/dev/rdisk7", "/dev/disk7").unwrap(), "disk7");
    assert_eq!(normalize_macos_disk_identifier("disk2s1", "/dev/rdisk2").unwrap(), "disk2");
    assert!(normalize_macos_disk_identifier("", "/dev/disk2s1").is_err());
    assert_eq!(normalize_linux_device_name("/dev/sdb", "").unwrap(), "sdb");
    assert_eq!(normalize_linux_device_name("/dev/sdb", "/dev/sdc").unwrap(), "sdc");
    assert!(normalize_linux_device_name("sdb", " ").is_err());
    assert_eq!(normalize_windows_disk_number("\\\\.\\PhysicalDrive12").unwrap(), 12);
    assert_eq!(normalize_windows_disk_number(" physicaldrive 4 ").unwrap(), 4);
    assert!(normalize_windows_disk_number("4294967296").is_err());
}

#[test]
fn windows_script_names_disk_and_label() {
    let script = windows_format_script(2, &FormatFilesystem::Ntfs, "USB");
    assert!(script.starts_with("$disk = Get-Disk -Number 2; if ($disk.IsOffline) { Set-Disk -Number 2"));
    assert!(script.contains("-FileSystem NTFS -NewFileSystemLabel 'USB' -Confirm:$false"));
}

#[test]
fn summaries_are_trimmed_and_cut() {
    assert_eq!(summarize_text("  short  ", 10), "short");
    assert_eq!(summarize_text("abcdefghijkl", 10), "abcdefg...");
    assert_eq!(summarize_text("abcdef", 2), "...");
}

#[test]
fn format_runs_each_step_then_completes() {
    let plan = build_format_plan(HostOs::Linux, &request("disk4")).unwrap();
    let (mut progress, mut action) = start_format(&plan);
    let mut runs = 0;
    loop {
        match action {
            FormatAction::RunStep(i) => {
                assert_eq!(i, runs);
                runs += 1;
                let output = CommandOutput { status_success: true, stdout: "done".to_string(), stderr: String::new() };
                let next = advance_format(&plan, progress, &output);
                progress = next.0;
                action = next.1;
            }
            FormatAction::Completed(result) => {
                assert_eq!(runs, 4);
                assert_eq!(result.status, "success");
                assert_eq!(result.message, "/dev/disk4 -> USB on linux completed");
                assert_eq!(result.stdout_summary, "unmount: done | format: done | verify: done | rescan: done");
                assert_eq!(result.stderr_summary, "");
                break;
            }
            FormatAction::Failed(_) => panic!("no step failed"),
        }
    }
}

#[test]
fn failed_step_stops_the_format() {
    let plan = build_format_plan(HostOs::Linux, &request("disk4")).unwrap();
    let (progress, _) = start_format(&plan);
    let output = CommandOutput { status_success: false, stdout: String::new(), stderr: " busy ".to_string() };
    let (_, action) = advance_format(&plan, progress, &output);
    match action {
        FormatAction::Failed(FormatError::CommandFailed { step, stderr, .. }) => {
            assert_eq!(step, "unmount");
            assert_eq!(stderr, "busy");
        }
        _ => panic!("expected a failure"),
    }
}
