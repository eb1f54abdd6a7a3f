use titan_wipe::ata::{ata_secure_erase, AtaCommand, AtaIdentity};
use titan_wipe::devices::{device_path, list_block_devices, path_before};
use titan_wipe::error::TitanError;
use titan_wipe::inspect::{
    inspect_device, strip_partition_suffix, DeviceProbe, FileKind, Inspection, Probe, SysfsField,
};
use titan_wipe::nvme::{crypto_erase_supported, nvme_crypto_erase, nvme_identify, NvmePassthruCmd};
use titan_wipe::types::{DiskTarget, DriveType, WipeAlgorithm};

fn put(words: &mut [u16; 256], start: usize, text: &str) {
    for (i, pair) in text.as_bytes().chunks(2).enumerate() {
        words[start + i] = (pair[0] as u16) << 8 | *pair.get(1).unwrap_or(&b' ') as u16;
    }
}

fn samsung() -> AtaIdentity {
    let mut words = [0x2020u16; 256];
    put(&mut words, 27, "Samsung SSD 870 EVO 1TB");
    put(&mut words, 10, "S5YYNGF012345X");
    put(&mut words, 23, "SVT01B6Q");
    words[82] = 0x0002;
    words[128] = 0x0020;
    AtaIdentity { words }
}

#[test]
fn identity_texts_are_high_byte_first_and_trimmed() {
    let id = samsung();
    assert_eq!(id.model(), "Samsung SSD 870 EVO 1TB");
    assert_eq!(id.serial(), "S5YYNGF012345X");
    assert_eq!(id.firmware(), "SVT01B6Q");
    assert_eq!(id.extract_string(10, 9), "");
}

#[test]
fn identity_with_bytes_that_are_no_text() {
    let mut id = samsung();
    id.words[23] = 0xFF41;
    assert_eq!(id.firmware(), "\u{FFFD}AT01B6Q");
}

#[test]
fn identity_bits() {
    let mut id = samsung();
    assert!(id.security_supported());
    assert!(id.enhanced_erase_supported());
    id.words[82] = !0x0002;
    id.words[128] = !0x0020;
    assert!(!id.security_supported());
    assert!(!id.enhanced_erase_supported());
}

#[test]
fn secure_erase_sequence() {
    assert_eq!(
        ata_secure_erase(true),
        vec![
            AtaCommand::SetPassword,
            AtaCommand::ErasePrepare,
            AtaCommand::EraseUnit { enhanced: true }
        ]
    );
    let set = AtaCommand::SetPassword.buffer();
    let unit = AtaCommand::EraseUnit { enhanced: true }.buffer();
    let normal = AtaCommand::EraseUnit { enhanced: false }.buffer();
    assert_eq!(AtaCommand::ErasePrepare.buffer(), vec![0xF3, 0, 0, 0]);
    assert_eq!(set.len(), 516);
    assert_eq!(&set[..6], &[0xF1, 1, 0, 0, 0, 0]);
    assert_eq!(&set[6..22], b"TITAN_WIPE_TEMP\0");
    assert!(set[22..].iter().all(|b| *b == 0));
    assert_eq!(&unit[..4], &[0xF4, 1, 2, 0]);
    assert_eq!(&normal[..4], &[0xF4, 1, 0, 0]);
    assert_eq!(set[4..], unit[4..]);
    assert_eq!(set[4..], normal[4..]);
}

#[test]
fn nvme_commands() {
    let zero = NvmePassthruCmd::default();
    let erase = nvme_crypto_erase();
    assert_eq!(
        erase,
        NvmePassthruCmd { opcode: 0x80, nsid: 0xFFFF_FFFF, cdw10: 0b010 << 9, timeout_ms: 600_000, ..zero }
    );
    let identify = nvme_identify(0x1234);
    assert_eq!(
        identify,
        NvmePassthruCmd { opcode: 0x06, cdw10: 1, data_len: 4096, addr: 0x1234, timeout_ms: 5000, ..zero }
    );
}

#[test]
fn crypto_erase_is_bit_two_of_byte_524() {
    let mut answer = [0u8; 4096];
    assert!(!crypto_erase_supported(&answer));
    answer[524] = 0x04;
    assert!(crypto_erase_supported(&answer));
    answer[524] = 0xFB;
    assert!(!crypto_erase_supported(&answer));
}

#[test]
fn partitions_lead_back_to_their_device() {
    for (name, base) in [
        ("sda1", "sda"),
        ("sdb12", "sdb"),
        ("sda", "sda"),
        ("nvme0n1p2", "nvme0n1"),
        ("nvme0n1", "nvme0n1"),
        ("nvme10n2p15", "nvme10n2"),
        ("nvme0n1p", "nvme0n1"),
        ("", ""),
        ("123", ""),
    ] {
        assert_eq!(strip_partition_suffix(name), base);
    }
}

#[test]
fn sysfs_paths() {
    assert_eq!(SysfsField::Rotational.sysfs_path("/dev/sda1"), "/sys/block/sda/queue/rotational");
    assert_eq!(
        SysfsField::BlockSize.sysfs_path("/dev/sda"),
        "/sys/block/sda/queue/logical_block_size"
    );
    assert_eq!(SysfsField::Model.sysfs_path("/dev/nvme0n1p1"), "/sys/block/nvme0n1/device/model");
    assert_eq!(SysfsField::Serial.sysfs_path("/dev/sdb"), "/sys/block/sdb/device/serial");
    assert_eq!(SysfsField::Firmware.sysfs_path("/dev/nvme0n1"), "/sys/block/nvme0n1/device/firmware_rev");
}

fn inspect_with(
    path: &str,
    answer: &dyn Fn(&mut DeviceProbe, Probe),
) -> (Vec<Probe>, Result<DiskTarget, TitanError>) {
    let mut probe = DeviceProbe::new(path.to_string());
    let mut asked = Vec::new();
    loop {
        match inspect_device(&probe) {
            Inspection::Need(next) => {
                assert!(!asked.contains(&next));
                asked.push(next);
                answer(&mut probe, next);
            }
            Inspection::Done(result) => return (asked, result),
        }
    }
}

fn sysfs(probe: &mut DeviceProbe, field: SysfsField, text: Option<&str>) {
    let content = Some(text.map(|t| t.to_string()));
    match field {
        SysfsField::Rotational => probe.rotational = content,
        SysfsField::BlockSize => probe.block_size = content,
        SysfsField::Model => probe.model = content,
        SysfsField::Serial => probe.serial = content,
        SysfsField::Firmware => probe.firmware = content,
    }
}

#[test]
fn inspecting_a_sata_ssd() {
    let (_, result) = inspect_with("/dev/sdb", &|probe, next| match next {
        Probe::Kind => probe.kind = Some(FileKind::BlockDevice),
        Probe::Open => probe.opened = Some(Ok(())),
        Probe::Size => probe.size = Some(Ok(1000204886016)),
        Probe::Text(SysfsField::Rotational) => sysfs(probe, SysfsField::Rotational, Some("0\n")),
        Probe::Text(f) => sysfs(probe, f, Some("4096\n")),
        Probe::Identity => probe.identity = Some(Some(samsung())),
        Probe::Controller => panic!("not an NVMe drive"),
    });
    let disk = result.unwrap();
    assert_eq!(disk.path, "/dev/sdb");
    assert_eq!(disk.model, "Samsung SSD 870 EVO 1TB");
    assert_eq!(disk.serial_number, "S5YYNGF012345X");
    assert_eq!(disk.firmware_rev, "SVT01B6Q");
    assert_eq!(disk.size_bytes, 1000204886016);
    assert_eq!(disk.drive_type, DriveType::SataSSD);
    assert_eq!(disk.sector_size, 4096);
    assert!(!disk.supports_crypto_erase);
    assert!(disk.supports_ata_secure_erase);
    assert!(disk.supports_enhanced_erase);
    assert_eq!(disk.recommended_algorithm(), WipeAlgorithm::NistAtaSecureErase);
}

#[test]
fn inspecting_a_silent_hard_disk() {
    let (asked, result) = inspect_with("/dev/sdc2", &|probe, next| match next {
        Probe::Kind => probe.kind = Some(FileKind::BlockDevice),
        Probe::Open => probe.opened = Some(Ok(())),
        Probe::Size => probe.size = Some(Ok(0)),
        Probe::Text(f) => sysfs(probe, f, None),
        Probe::Identity => probe.identity = Some(None),
        Probe::Controller => panic!("not an NVMe drive"),
    });
    let disk = result.unwrap();
    assert_eq!(disk.model, "Unknown");
    assert_eq!(disk.serial_number, "Unknown");
    assert_eq!(disk.firmware_rev, "N/A");
    assert_eq!(disk.drive_type, DriveType::HDD);
    assert_eq!(disk.sector_size, 512);
    assert_eq!(disk.recommended_algorithm(), WipeAlgorithm::Dod5220);
    assert_eq!(
        asked,
        vec![
            Probe::Kind,
            Probe::Open,
            Probe::Size,
            Probe::Text(SysfsField::Rotational),
            Probe::Text(SysfsField::BlockSize),
            Probe::Identity,
            Probe::Text(SysfsField::Model),
            Probe::Text(SysfsField::Serial),
        ]
    );
}

fn inspect_nvme(controller: Option<[u8; 4096]>) -> DiskTarget {
    let (_, result) = inspect_with("/dev/nvme1n1", &|probe, next| match next {
        Probe::Kind => probe.kind = Some(FileKind::BlockDevice),
        Probe::Open => probe.opened = Some(Ok(())),
        Probe::Size => probe.size = Some(Ok(512110190592)),
        Probe::Text(SysfsField::Model) => sysfs(probe, SysfsField::Model, Some(" WD_BLACK SN850 \n")),
        Probe::Text(f) => sysfs(probe, f, None),
        Probe::Identity => panic!("not an ATA drive"),
        Probe::Controller => probe.controller = Some(controller),
    });
    result.unwrap()
}

#[test]
fn inspecting_an_nvme_drive() {
    let mut answer = [0u8; 4096];
    answer[524] = 4;
    let disk = inspect_nvme(Some(answer));
    assert_eq!(disk.model, "WD_BLACK SN850");
    assert_eq!(disk.serial_number, "Unknown");
    assert_eq!(disk.firmware_rev, "N/A");
    assert_eq!(disk.drive_type, DriveType::NvmeSSD);
    assert!(disk.supports_crypto_erase);
    assert_eq!(disk.recommended_algorithm(), WipeAlgorithm::NistNvmeCryptoErase);
    assert!(!inspect_nvme(Some([0u8; 4096])).supports_crypto_erase);
    let silent = inspect_nvme(None);
    assert!(!silent.supports_crypto_erase);
    assert_eq!(silent.recommended_algorithm(), WipeAlgorithm::NistClear);
}

#[test]
fn inspections_that_fail() {
    let (asked, missing) =
        inspect_with("/dev/none", &|probe, _| probe.kind = Some(FileKind::Missing));
    assert_eq!(asked, vec![Probe::Kind]);
    assert!(matches!(missing, Err(TitanError::DeviceNotFound(p)) if p == "/dev/none"));
    let (_, other) = inspect_with("/etc", &|probe, _| probe.kind = Some(FileKind::Other));
    assert!(matches!(other, Err(TitanError::NotABlockDevice(p)) if p == "/etc"));
    let (_, closed) = inspect_with("/dev/sda", &|probe, next| match next {
        Probe::Kind => probe.kind = Some(FileKind::BlockDevice),
        _ => probe.opened = Some(Err("Permission denied (os error 13)".to_string())),
    });
    assert!(matches!(closed, Err(TitanError::Io(m)) if m == "Permission denied (os error 13)"));
    let (_, sizeless) = inspect_with("/dev/sda", &|probe, next| match next {
        Probe::Kind => probe.kind = Some(FileKind::BlockDevice),
        Probe::Open => probe.opened = Some(Ok(())),
        _ => probe.size = Some(Err(-1)),
    });
    assert!(matches!(
        sizeless,
        Err(TitanError::IoctlFailed { code: -1, message }) if message == "BLKGETSIZE64 failed"
    ));
}

#[test]
fn recommendations() {
    let disk = |drive_type, crypto, ata| DiskTarget {
        path: String::new(),
        model: String::new(),
        serial_number: String::new(),
        firmware_rev: String::new(),
        size_bytes: 0,
        drive_type,
        sector_size: 512,
        supports_crypto_erase: crypto,
        supports_ata_secure_erase: ata,
        supports_enhanced_erase: false,
    };
    assert_eq!(disk(DriveType::NvmeSSD, true, true).recommended_algorithm(), WipeAlgorithm::NistNvmeCryptoErase);
    assert_eq!(disk(DriveType::NvmeSSD, false, true).recommended_algorithm(), WipeAlgorithm::NistClear);
    assert_eq!(disk(DriveType::SataSSD, true, true).recommended_algorithm(), WipeAlgorithm::NistAtaSecureErase);
    assert_eq!(disk(DriveType::SataSSD, true, false).recommended_algorithm(), WipeAlgorithm::NistClear);
    assert_eq!(disk(DriveType::HDD, true, true).recommended_algorithm(), WipeAlgorithm::Dod5220);
    assert_eq!(disk(DriveType::Unknown, true, true).recommended_algorithm(), WipeAlgorithm::Dod5220);
}

#[test]
fn only_physical_devices_are_listed() {
    for name in ["loop0", "dm-1", "ram3", "zram0", "sr0"] {
        assert_eq!(device_path(name), None);
    }
    assert_eq!(device_path("sda").unwrap(), "/dev/sda");
    assert_eq!(device_path("nvme0n1").unwrap(), "/dev/nvme0n1");
    assert_eq!(device_path("md0").unwrap(), "/dev/md0");
}

#[test]
fn paths_are_ordered_as_std_orders_them() {
    let paths = ["/dev/sda", "/dev/sdb", "/dev/sdaa", "/dev/a/b", "/dev/a-b", "/dev/a", "/", "/dev/nvme0n1"];
    for a in paths {
        for b in paths {
            let expected = std::path::Path::new(a) < std::path::Path::new(b);
            assert_eq!(path_before(a, b), expected, "{} {}", a, b);
        }
    }
}

#[test]
fn the_list_is_sorted_and_stable() {
    let disk = |path: &str, model: &str| DiskTarget {
        path: path.to_string(),
        model: model.to_string(),
        serial_number: String::new(),
        firmware_rev: String::new(),
        size_bytes: 0,
        drive_type: DriveType::HDD,
        sector_size: 512,
        supports_crypto_erase: false,
        supports_ata_secure_erase: false,
        supports_enhanced_erase: false,
    };
    let listed = list_block_devices(vec![
        Ok(disk("/dev/sdb", "1")),
        Err(TitanError::UserAborted),
        Ok(disk("/dev/nvme0n1", "2")),
        Ok(disk("/dev/sdb", "3")),
        Ok(disk("/dev/sda", "4")),
    ]);
    let found: Vec<(&str, &str)> =
        listed.iter().map(|d| (d.path.as_str(), d.model.as_str())).collect();
    assert_eq!(
        found,
        vec![("/dev/nvme0n1", "2"), ("/dev/sda", "4"), ("/dev/sdb", "1"), ("/dev/sdb", "3")]
    );
    assert!(list_block_devices(vec![]).is_empty());
}
