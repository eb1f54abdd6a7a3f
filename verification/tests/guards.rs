use titan_wipe::error::TitanError;
use titan_wipe::guardrails::{
    check_privileges, get_active_mounts, is_boot_drive, parse_mount_line, partition_of, protected_mounts,
    GuardrailReport, MountEntry,
};

fn entry(line: &str, rdev: Option<u64>) -> MountEntry {
    let (dev_path, mount_point) = parse_mount_line(line).unwrap();
    MountEntry { resolved: dev_path.clone(), dev_path, mount_point, rdev }
}

fn linked(line: &str, resolved: &str, rdev: Option<u64>) -> MountEntry {
    MountEntry { resolved: resolved.to_string(), ..entry(line, rdev) }
}

#[test]
fn only_root_is_privileged() {
    assert!(check_privileges(0).is_ok());
    assert!(matches!(check_privileges(1000), Err(TitanError::InsufficientPrivileges)));
}

#[test]
fn protected_mount_points() {
    assert_eq!(protected_mounts(), ["/", "/boot", "/boot/efi", "/home", "/usr"]);
}

#[test]
fn boot_drive_by_device_number() {
    let devs = [Some(2049), None, Some(2050), None, None];
    assert!(is_boot_drive(Some(2049), &devs));
    assert!(is_boot_drive(Some(2050), &devs));
    assert!(!is_boot_drive(Some(2064), &devs));
    assert!(!is_boot_drive(Some(2064), &[None; 5]));
}

#[test]
fn device_that_cannot_be_looked_up_counts_as_boot_drive() {
    assert!(is_boot_drive(None, &[None; 5]));
}

#[test]
fn mount_lines() {
    assert_eq!(
        parse_mount_line("/dev/sda1 /mnt/x ext4 rw,relatime 0 0"),
        Some(("/dev/sda1".to_string(), "/mnt/x".to_string()))
    );
    assert_eq!(parse_mount_line("proc"), None);
    assert_eq!(parse_mount_line(""), None);
}

#[test]
fn mounts_of_a_device_and_its_partitions() {
    let table = Ok(vec![
        entry("/dev/sda1 / ext4 rw 0 0", Some(2049)),
        entry("/dev/sdb1 /mnt/a ext4 rw 0 0", Some(2065)),
        entry("/dev/disk/by-label/x /mnt/b ext4 rw 0 0", Some(2064)),
        entry("tmpfs /tmp tmpfs rw 0 0", None),
    ]);
    let mounts = get_active_mounts("/dev/sdb", "/dev/sdb", Some(2064), &table).unwrap();
    assert_eq!(mounts, vec!["/dev/sdb1 → /mnt/a", "/dev/disk/by-label/x → /mnt/b"]);
    assert!(get_active_mounts("/dev/sdc", "/dev/sdc", Some(2080), &table).unwrap().is_empty());
}

#[test]
fn mounts_of_other_disks_are_not_reported() {
    let table = Ok(vec![
        entry("/dev/sdaa1 /mnt ext4 rw 0 0", Some(1)),
        entry("/dev/nvme0n10p1 /data ext4 rw 0 0", Some(2)),
        entry("/dev/mapper/sda-root /x ext4 rw 0 0", Some(3)),
    ]);
    assert!(get_active_mounts("/dev/sda", "/dev/sda", Some(2048), &table).unwrap().is_empty());
    assert!(get_active_mounts("/dev/nvme0n1", "/dev/nvme0n1", Some(9), &table).unwrap().is_empty());
    assert_eq!(
        get_active_mounts("/dev/nvme0n10", "/dev/nvme0n10", Some(9), &table).unwrap(),
        vec!["/dev/nvme0n10p1 → /data"]
    );
}

#[test]
fn mounts_are_found_behind_links() {
    let table = Ok(vec![
        entry("/dev/sda1 /mnt ext4 rw 0 0", Some(2049)),
        linked("/dev/disk/by-uuid/7 /srv ext4 rw 0 0", "/dev/sda2", Some(2050)),
    ]);
    assert_eq!(
        get_active_mounts("/dev/disk/by-id/ata-X", "/dev/sda", Some(2048), &table).unwrap(),
        vec!["/dev/sda1 → /mnt", "/dev/disk/by-uuid/7 → /srv"]
    );
    let report = GuardrailReport {
        path: "/dev/disk/by-id/ata-X".to_string(),
        target_path: "/dev/sda".to_string(),
        target_rdev: Some(2048),
        protected_devs: [None; 5],
        mount_table: table,
    };
    assert!(matches!(
        report.check("/dev/disk/by-id/ata-X"),
        Err(TitanError::DeviceMounted(p, m)) if p == "/dev/disk/by-id/ata-X"
            && m == "/dev/sda1 → /mnt, /dev/disk/by-uuid/7 → /srv"
    ));
}

#[test]
fn partitions_by_name() {
    for (name, device) in
        [("sda1", "sda"), ("sda12", "sda"), ("nvme0n1p2", "nvme0n1"), ("mmcblk0p1", "mmcblk0")]
    {
        assert!(partition_of(name, device), "{} {}", name, device);
    }
    for (name, device) in [
        ("sda", "sda"),
        ("sdaa", "sda"),
        ("sdaa1", "sda"),
        ("sda1x", "sda"),
        ("sdap1", "sda"),
        ("nvme0n10", "nvme0n1"),
        ("nvme0n1p", "nvme0n1"),
        ("nvme0n10p1", "nvme0n1"),
        ("sda", "sda1"),
        ("1", ""),
        ("", ""),
    ] {
        assert!(!partition_of(name, device), "{} {}", name, device);
    }
}

#[test]
fn mounts_that_cannot_be_told() {
    let table = Ok(vec![]);
    assert!(matches!(
        get_active_mounts("/dev/x", "/dev/x", None, &table),
        Err(TitanError::DeviceNotFound(p)) if p == "/dev/x"
    ));
    let unreadable = Err("no /proc".to_string());
    assert!(matches!(
        get_active_mounts("/dev/x", "/dev/x", Some(1), &unreadable),
        Err(TitanError::Io(m)) if m == "no /proc"
    ));
}

#[test]
fn guardrail_report() {
    let mut report = GuardrailReport {
        path: "/dev/sdb".to_string(),
        target_path: "/dev/sdb".to_string(),
        target_rdev: Some(2064),
        protected_devs: [Some(2049), None, None, None, None],
        mount_table: Ok(vec![]),
    };
    assert!(report.check("/dev/sdb").is_ok());
    assert!(matches!(
        report.check("/dev/sdc"),
        Err(TitanError::BootDriveProtection(p)) if p == "/dev/sdc"
    ));
    report.mount_table = Ok(vec![
        entry("/dev/sdb1 /a ext4", Some(2065)),
        entry("/dev/sdb2 /b ext4", Some(2066)),
    ]);
    assert!(matches!(
        report.check("/dev/sdb"),
        Err(TitanError::DeviceMounted(p, m)) if p == "/dev/sdb" && m == "/dev/sdb1 → /a, /dev/sdb2 → /b"
    ));
    report.mount_table = Err("unreadable".to_string());
    assert!(matches!(report.check("/dev/sdb"), Err(TitanError::Io(m)) if m == "unreadable"));
    report.target_rdev = Some(2049);
    assert!(matches!(
        report.check("/dev/sdb"),
        Err(TitanError::BootDriveProtection(p)) if p == "/dev/sdb"
    ));
    report.target_rdev = None;
    assert!(matches!(report.check("/dev/sdb"), Err(TitanError::BootDriveProtection(_))));
}
