use crate_library::device::{
    device_ids_changed, device_name_from_file_name, device_name_from_mount_point,
    device_path_from_findmnt, disk_identifier_from_plist, disk_kind_name, eject_failure,
    is_listable_disk, make_usb_device, mkfs_arguments, mkfs_failure, mount_source_device,
    osascript_failure, plist_string, reformat_script, trim_trailing_separators, unmount_failure,
    uuid_link_matches, validate_fat32_volume_name, volume_uuid_from_plist, DiskKind, UsbDevice,
};
use crate_library::error::CrateError;

fn device_message(e: CrateError) -> String {
    match e {
        CrateError::Device(m) => m,
        _ => panic!("expected a device error"),
    }
}

#[test]
fn fat32_name_is_trimmed_uppercased_filtered_and_cut() {
    assert_eq!(validate_fat32_volume_name("  my usb  ").unwrap(), "MY USB");
    assert_eq!(validate_fat32_volume_name("dj-set_2024!").unwrap(), "DJSET_2024");
    assert_eq!(validate_fat32_volume_name("abcdefghijklmnop").unwrap(), "ABCDEFGHIJK");
    assert_eq!(validate_fat32_volume_name("straße").unwrap(), "STRASSE");
}

#[test]
fn fat32_name_errors() {
    assert_eq!(
        device_message(validate_fat32_volume_name("   ").unwrap_err()),
        "Volume name cannot be empty"
    );
    assert_eq!(
        device_message(validate_fat32_volume_name("!!!").unwrap_err()),
        "Volume name contains no valid characters"
    );
}

#[test]
fn fat32_names_are_always_safe() {
    for input in ["a b", "x'; rm -rf /", "ñandú", "12345678901234", "é", "__  __"] {
        if let Ok(name) = validate_fat32_volume_name(input) {
            assert!(!name.is_empty() && name.chars().count() <= 11);
            assert!(name.chars().all(|c| c.is_ascii_alphanumeric() || c == ' ' || c == '_'));
        }
    }
}

#[test]
fn device_name_is_the_last_component() {
    assert_eq!(device_name_from_mount_point("/Volumes/MY_USB"), "MY_USB");
    assert_eq!(device_name_from_mount_point("/media/dj/KEYS/"), "KEYS");
    assert_eq!(device_name_from_file_name("D:\\", None), "D:");
    assert_eq!(device_name_from_file_name("/", None), "");
    assert_eq!(device_name_from_file_name("/Volumes/X", Some("X")), "X");
    assert_eq!(trim_trailing_separators("E:\\\\//"), "E:");
}

const PLIST: &str = "<plist><dict>\n<key>ParentWholeDisk</key>\n<string>disk4</string>\n<key>VolumeUUID</key>\n  <string> 1A2B-3C4D </string>\n</dict></plist>";

#[test]
fn plist_values_are_read_after_their_key() {
    assert_eq!(volume_uuid_from_plist(PLIST).as_deref(), Some("1A2B-3C4D"));
    assert_eq!(disk_identifier_from_plist(PLIST).unwrap(), "/dev/disk4");
    assert_eq!(plist_string(PLIST, "<key>Missing</key>"), None);
    assert_eq!(volume_uuid_from_plist("<key>VolumeUUID</key><string>  </string>"), None);
    assert_eq!(volume_uuid_from_plist("<key>VolumeUUID</key><string>abc"), None);
    assert_eq!(
        device_message(disk_identifier_from_plist("<dict></dict>").unwrap_err()),
        "Could not determine disk identifier"
    );
}

#[test]
fn findmnt_output_is_trimmed() {
    assert_eq!(device_path_from_findmnt("/dev/sdb1\n").unwrap(), "/dev/sdb1");
    assert_eq!(
        device_message(device_path_from_findmnt(" \n").unwrap_err()),
        "Could not determine device path"
    );
}

#[test]
fn failure_messages() {
    assert_eq!(
        device_message(unmount_failure("umount: /media/x: target is busy.")),
        "Device is busy. Close any applications using it and try again."
    );
    assert_eq!(device_message(unmount_failure("no such device")), "Failed to unmount: no such device");
    assert_eq!(device_message(mkfs_failure("Request dismissed")), "Operation cancelled by user");
    assert_eq!(device_message(mkfs_failure("Not authorized")), "Operation cancelled by user");
    assert_eq!(device_message(mkfs_failure("bad device")), "Failed to reformat: bad device");
    assert_eq!(
        device_message(osascript_failure("execution error: User canceled. (-128)")),
        "Operation cancelled by user"
    );
    assert_eq!(
        device_message(osascript_failure("  disk busy \n")),
        "Failed to reformat device: disk busy"
    );
    assert_eq!(device_message(eject_failure("in use")), "Failed to eject: in use");
}

#[test]
fn reformat_commands() {
    assert_eq!(
        reformat_script("MY USB", "/dev/disk4"),
        "do shell script \"/usr/sbin/diskutil eraseDisk FAT32 'MY USB' MBR /dev/disk4\" with administrator privileges"
    );
    assert_eq!(
        mkfs_arguments("KEYS", "/dev/sdb1"),
        vec!["mkfs.vfat", "-F", "32", "-n", "KEYS", "/dev/sdb1"]
    );
}

#[test]
fn only_removable_non_system_disks_are_listed() {
    assert!(is_listable_disk(true, "/Volumes/USB"));
    assert!(!is_listable_disk(false, "/Volumes/USB"));
    assert!(!is_listable_disk(true, "/"));
    assert!(!is_listable_disk(true, "/System/Volumes/Data"));
    assert!(is_listable_disk(true, "/media/sys"));
}

fn device(id: &str) -> UsbDevice {
    make_usb_device(
        format!("/Volumes/{id}"),
        id.to_string(),
        None,
        100,
        50,
        "msdos".to_string(),
        DiskKind::Unknown,
    )
}

#[test]
fn usb_device_uses_the_uuid_when_known() {
    let d = make_usb_device(
        "/Volumes/KEYS".to_string(),
        String::new(),
        Some("1A2B".to_string()),
        1000,
        400,
        "msdos".to_string(),
        DiskKind::Ssd,
    );
    assert_eq!(d.id, "1A2B");
    assert_eq!(d.name, "KEYS");
    assert_eq!(d.mount_point, "/Volumes/KEYS");
    assert_eq!(d.volume_uuid.as_deref(), Some("1A2B"));
    assert_eq!((d.total_space_bytes, d.available_space_bytes), (1000, 400));
    assert!(d.is_removable);
    assert_eq!(d.file_system, "msdos");
    assert_eq!(d.disk_kind, "SSD");
    let e = device("STICK");
    assert_eq!(e.id, "/Volumes/STICK");
    assert_eq!(e.name, "STICK");
    assert_eq!(disk_kind_name(DiskKind::Hdd), "HDD");
    assert_eq!(disk_kind_name(DiskKind::Unknown), "Unknown");
}

#[test]
fn device_list_changes_only_when_its_ids_change() {
    let a = vec![device("A"), device("B")];
    let b = vec![device("B"), device("A"), device("A")];
    let c = vec![device("A")];
    assert!(!device_ids_changed(&a, &b));
    assert!(device_ids_changed(&a, &c));
    assert!(device_ids_changed(&c, &a));
    assert!(!device_ids_changed(&Vec::new(), &Vec::new()));
}

#[test]
fn by_uuid_links_designate_their_device() {
    assert!(uuid_link_matches("/dev/sdb1", "../../sdb1"));
    assert!(uuid_link_matches("/dev/sdb1", "/dev/sdb1"));
    assert!(!uuid_link_matches("/dev/sdb1", "../../sdc1"));
}

const MOUNTS: &str = "sysfs /sys sysfs rw 0 0\nproc /proc proc rw 0 0\n/dev/sda2 / ext4 rw 0 0\r\n/dev/sdb1  /media/dj/KEYS\tvfat rw 0 0\n\n/dev/sdc1 /media/dj/KEYS vfat rw 0 0\nbroken\n";

#[test]
fn mount_table_names_the_device_of_a_mount_point() {
    assert_eq!(mount_source_device(MOUNTS, "/media/dj/KEYS").as_deref(), Some("/dev/sdb1"));
    assert_eq!(mount_source_device(MOUNTS, "/").as_deref(), Some("/dev/sda2"));
    assert_eq!(mount_source_device(MOUNTS, "/media"), None);
    assert_eq!(mount_source_device(MOUNTS, "broken"), None);
    assert_eq!(mount_source_device("", "/"), None);
    assert_eq!(mount_source_device("/dev/x /mnt", "/mnt").as_deref(), Some("/dev/x"));
}

#[test]
fn mount_table_agrees_with_lines_and_split_whitespace() {
    let expected = |mp: &str| -> Option<String> {
        for line in MOUNTS.lines() {
            let parts: Vec<&str> = line.split_whitespace().collect();
            if parts.len() >= 2 && parts[1] == mp {
                return Some(parts[0].to_string());
            }
        }
        None
    };
    for mp in ["/sys", "/proc", "/", "/media/dj/KEYS", "vfat", "rw", "0", "x"] {
        assert_eq!(mount_source_device(MOUNTS, mp), expected(mp));
    }
}

#[test]
fn device_name_is_the_final_component_after_trailing_separators() {
    assert_eq!(device_name_from_mount_point("/media/dj/KEYS//"), "KEYS");
    assert_eq!(device_name_from_mount_point("/"), "");
    assert_eq!(device_name_from_mount_point("/media/.."), "/media/..");
    assert_eq!(device_name_from_mount_point("USB"), "USB");
}
