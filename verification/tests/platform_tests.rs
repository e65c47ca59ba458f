use testdisk::domain::{DiskInfo, DiskKind, DiskSource, HostOs, TargetSafety};
use testdisk::platform::{
    disk_info_from_target, is_external_protocol, list_disks, lsblk_device_to_target, mac_entry_to_target,
    mountpoints_present, normalized_id_from_path, normalized_target_from_image, parse_sysfs_bool, parse_sysfs_u64,
    parse_windows_targets, sys_block_target, LsblkDevice, MacDiskEntry, SysBlockEntry, TargetKind, TargetMountState,
    TargetSource, WindowsDiskEntry,
};

#[test]
fn normalizes_system_paths_stably() {
    assert_eq!(normalized_id_from_path(HostOs::Macos, "/dev/disk4"), "disk4");
    assert_eq!(normalized_id_from_path(HostOs::Windows, r"\\.\PhysicalDrive12"), "physicaldrive12");
    assert_eq!(normalized_id_from_path(HostOs::Macos, r"\\.\PhysicalDrive12"), r"\\.\physicaldrive12");
    assert_eq!(normalized_id_from_path(HostOs::Linux, "/dev/disk4"), "disk4");
    assert_eq!(normalized_id_from_path(HostOs::Linux, r"\\.\PhysicalDrive12"), r"\\.\physicaldrive12");
    assert_eq!(normalized_id_from_path(HostOs::Other, r"\\.\PhysicalDrive12"), r"\\.\physicaldrive12");
    assert_eq!(normalized_id_from_path(HostOs::Windows, "/dev/disk4"), "disk4");
    assert_eq!(normalized_id_from_path(HostOs::Linux, r"\\?\PhysicalDrive3"), "physicaldrive3");
    assert_eq!(normalized_id_from_path(HostOs::Windows, r"\\?\PhysicalDrive3"), "physicaldrive3");
}

#[test]
fn maps_image_targets_with_stable_metadata() {
    let target = normalized_target_from_image(
        "/tmp/testdisk-platform-image.img",
        Some("testdisk-platform-image.img".to_string()),
        1024,
        false,
    );
    assert_eq!(target.source, TargetSource::ImageFile);
    assert_eq!(target.kind, TargetKind::Image);
    assert_eq!(target.protocol.as_deref(), Some("file"));
    assert_eq!(target.is_internal, Some(false));
    assert_eq!(target.is_external, Some(false));
    assert_eq!(target.mount_state, TargetMountState::Unmounted);
}

#[test]
fn parses_lsblk_json_into_normalized_targets() {
    let device = LsblkDevice {
        name: "sda".to_string(),
        path: Some("/dev/sda".to_string()),
        device_type: Some("disk".to_string()),
        size: Some("1000204886016".to_string()),
        rm: Some(false),
        ro: Some(false),
        mountpoint: None,
        mountpoints: Some(vec![None]),
        tran: Some("sata".to_string()),
        model: Some("Sample SSD".to_string()),
        serial: Some("ABC123".to_string()),
        hotplug: Some(false),
    };
    let targets: Vec<_> = vec![device].into_iter().filter_map(|d| lsblk_device_to_target(d, true, None)).collect();
    assert_eq!(targets.len(), 1);
    let target = &targets[0];
    assert_eq!(target.normalized_id, "sda");
    assert_eq!(target.display_path, "/dev/sda");
    assert_eq!(target.protocol.as_deref(), Some("sata"));
    assert_eq!(target.kind, TargetKind::Physical);
    assert_eq!(target.mount_state, TargetMountState::Unmounted);
    assert_eq!(target.size_bytes, 1000204886016);
    assert_eq!(target.name, "Sample SSD");
}

#[test]
fn parses_windows_disk_json_into_normalized_targets() {
    let entry = WindowsDiskEntry {
        number: Some(2),
        friendly_name: Some("USB Drive".to_string()),
        bus_type: Some("USB".to_string()),
        size: Some(64023257088),
        is_offline: Some(false),
        is_read_only: Some(false),
        is_removable: Some(true),
        is_virtual: None,
    };
    let targets = parse_windows_targets(vec![entry]);
    assert_eq!(targets.len(), 1);
    let target = &targets[0];
    assert_eq!(target.normalized_id, "physicaldrive2");
    assert_eq!(target.protocol.as_deref(), Some("usb"));
    assert_eq!(target.is_removable, Some(true));
    assert_eq!(target.mount_state, TargetMountState::Mounted);
    assert_eq!(target.raw_path, r"\\.\PhysicalDrive2");
}

#[test]
fn lsblk_partitions_are_skipped_and_guesses_fill_gaps() {
    let mut device = LsblkDevice {
        name: "nvme0n1".to_string(),
        path: None,
        device_type: Some("part".to_string()),
        size: Some("12x".to_string()),
        rm: None,
        ro: None,
        mountpoint: None,
        mountpoints: Some(vec![None, Some("/boot".to_string())]),
        tran: None,
        model: None,
        serial: None,
        hotplug: None,
    };
    assert!(lsblk_device_to_target(device.clone(), true, None).is_none());
    device.device_type = None;
    let t = lsblk_device_to_target(device, false, Some("denied".to_string())).unwrap();
    assert_eq!(t.display_path, "/dev/nvme0n1");
    assert_eq!(t.protocol.as_deref(), Some("nvme"));
    assert_eq!(t.is_removable, Some(true));
    assert_eq!(t.is_internal, Some(false));
    assert_eq!(t.size_bytes, 0);
    assert_eq!(t.mount_state, TargetMountState::Mounted);
    assert!(!t.writable);
    assert_eq!(t.name, "nvme0n1");
}

#[test]
fn mount_points_and_protocols() {
    assert!(mountpoints_present(Some(&"/".to_string()), None));
    assert!(!mountpoints_present(None, Some(&vec![None, Some(String::new())])));
    assert!(is_external_protocol("USB"));
    assert!(!is_external_protocol("ide"));
}

#[test]
fn sysfs_entries_become_targets() {
    assert_eq!(parse_sysfs_bool(" 1\n"), Some(true));
    assert_eq!(parse_sysfs_bool("2"), None);
    assert_eq!(parse_sysfs_u64("2048\n"), Some(2048));
    let t = sys_block_target(
        SysBlockEntry { name: "loop0".to_string(), size_sectors: Some(8), removable: Some(false), read_only: None },
        true,
        None,
    );
    assert_eq!(t.size_bytes, 4096);
    assert_eq!(t.kind, TargetKind::Virtual);
    assert_eq!(t.normalized_id, "loop0");
    assert!(!t.writable);
}

#[test]
fn diskutil_entries_become_targets() {
    let entry = MacDiskEntry {
        device_identifier: Some("disk4".to_string()),
        device_node: None,
        size: Some(4096),
        bus_protocol: Some("USB".to_string()),
        internal: Some(false),
        removable_media: Some(true),
        mounted: Some(true),
        volume_name: None,
        media_name: Some("Stick".to_string()),
        read_only_media: None,
    };
    let t = mac_entry_to_target(entry, true, None).unwrap();
    assert_eq!(t.display_path, "/dev/disk4");
    assert_eq!(t.raw_path, "/dev/rdisk4");
    assert_eq!(t.normalized_id, "disk4");
    assert_eq!(t.protocol.as_deref(), Some("usb"));
    assert_eq!(t.name, "Stick");
    let info: DiskInfo = disk_info_from_target(t);
    assert_eq!(info.safety, TargetSafety::Removable);
    assert_eq!(info.path, "/dev/rdisk4");
}

#[test]
fn image_targets_map_to_image_disks() {
    let t = normalized_target_from_image("/tmp/a.img", None, 2048, true);
    assert_eq!(t.name, "/tmp/a.img");
    assert_eq!(t.normalized_id, "image:/tmp/a.img");
    let disks = list_disks(vec![t]);
    assert_eq!(disks.len(), 1);
    assert_eq!(disks[0].safety, TargetSafety::Image);
    assert_eq!(disks[0].kind, DiskKind::Image);
    assert_eq!(disks[0].source, DiskSource::ImageFile);
    assert!(!disks[0].writable);
    let info: DiskInfo = DiskInfo::from(normalized_target_from_image("/tmp/b.img", None, 1, false));
    assert_eq!(info.platform_id, "image:/tmp/b.img");
}
