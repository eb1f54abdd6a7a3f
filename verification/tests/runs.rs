use titan_wipe::engine::{
    DeviceAction, DeviceFailure, DeviceReply, Progress, ReadPurpose, RunStep, SanitizerEngine,
};
use titan_wipe::error::TitanError;
use titan_wipe::guardrails::GuardrailReport;
use titan_wipe::types::{
    DiskTarget, DriveType, SanitizationCertificate, SanitizationStatus, VerificationStatus,
    WipeAlgorithm,
};
use titan_wipe::wipe::{WipeOp, BLOCK_SIZE};

fn target(size: u64) -> DiskTarget {
    DiskTarget {
        path: "/dev/sdb".to_string(),
        model: "Samsung SSD 870 EVO 1TB".to_string(),
        serial_number: "S5YYNGF012345X".to_string(),
        firmware_rev: "SVT01B6Q".to_string(),
        size_bytes: size,
        drive_type: DriveType::SataSSD,
        sector_size: 512,
        supports_crypto_erase: false,
        supports_ata_secure_erase: true,
        supports_enhanced_erase: false,
    }
}

fn clear_report() -> GuardrailReport {
    GuardrailReport {
        path: "/dev/sdb".to_string(),
        target_path: "/dev/sdb".to_string(),
        target_rdev: Some(2064),
        protected_devs: [Some(2049), None, None, None, None],
        mount_table: Ok(vec![]),
    }
}

fn engine(size: u64, algorithm: WipeAlgorithm, skip_verify: bool, dry_run: bool) -> SanitizerEngine {
    SanitizerEngine::with_identity(
        target(size),
        algorithm,
        skip_verify,
        dry_run,
        &clear_report(),
        "A3F7B2C1".to_string(),
        "2025-04-12T14:23:01Z".to_string(),
    )
    .ok()
    .unwrap()
}

struct Disk {
    bytes: Vec<u8>,
    position: usize,
    /// How much a sequential read gives at most.
    chunk: usize,
    keeps: bool,
    fail_at: Option<DeviceAction>,
    actions: Vec<DeviceAction>,
}

impl Disk {
    fn new(bytes: Vec<u8>) -> Disk {
        Disk { bytes, position: 0, chunk: BLOCK_SIZE, keeps: true, fail_at: None, actions: vec![] }
    }

    fn perform(&mut self, action: DeviceAction) -> Result<Vec<u8>, DeviceFailure> {
        self.actions.push(action);
        if self.fail_at == Some(action) {
            return Err(match action {
                DeviceAction::Wipe(WipeOp::NvmeFormat) | DeviceAction::Wipe(WipeOp::Ata(_)) => {
                    DeviceFailure::Ioctl { code: -1, os_error: "EIO".to_string() }
                }
                _ => DeviceFailure::Io("EIO".to_string()),
            });
        }
        match action {
            DeviceAction::OpenForRead(_) => self.position = 0,
            DeviceAction::ReadNext => {
                let end = (self.position + self.chunk.min(BLOCK_SIZE)).min(self.bytes.len());
                let data = self.bytes[self.position..end].to_vec();
                self.position = end;
                return Ok(data);
            }
            DeviceAction::ReadAt { offset } => {
                let start = (offset as usize).min(self.bytes.len());
                let end = (start + BLOCK_SIZE).min(self.bytes.len());
                return Ok(self.bytes[start..end].to_vec());
            }
            DeviceAction::Wipe(WipeOp::WriteBlock { offset, len, pattern }) => {
                if self.keeps {
                    let start = offset as usize;
                    pattern.fill_buffer(&mut self.bytes[start..start + len]);
                }
            }
            DeviceAction::Wipe(_) => {}
        }
        Ok(vec![])
    }

    fn wiped(&self) -> Vec<WipeOp> {
        self.actions
            .iter()
            .filter_map(|a| match a {
                DeviceAction::Wipe(op) => Some(*op),
                _ => None,
            })
            .collect()
    }
}

fn drive(
    disk: &mut Disk,
    mut engine: SanitizerEngine,
    abort_after: usize,
) -> Result<SanitizationCertificate, TitanError> {
    let mut reply: Result<Vec<u8>, DeviceFailure> = Ok(vec![]);
    loop {
        let aborted = disk.actions.len() >= abort_after;
        let step = match reply {
            Ok(ref data) => {
                let r = DeviceReply::Data(data);
                assert!(engine.takes(&r));
                engine.run(aborted, r)
            }
            Err(failure) => engine.run(aborted, DeviceReply::Failed(failure)),
        };
        match step {
            RunStep::Finished(result) => return result,
            RunStep::Act { action, engine: later } => {
                reply = disk.perform(action);
                engine = later;
            }
        }
    }
}

fn hex(bytes: &[u8]) -> String {
    blake3::hash(bytes).to_hex().to_string()
}

#[test]
fn clear_leaves_zeros_and_passes() {
    let before: Vec<u8> = (0..BLOCK_SIZE * 2 + 9).map(|i| i as u8).collect();
    let mut disk = Disk::new(before.clone());
    let cert =
        drive(&mut disk, engine(before.len() as u64, WipeAlgorithm::NistClear, false, false), usize::MAX)
            .unwrap();
    assert!(disk.bytes.iter().all(|b| *b == 0));
    assert_eq!(cert.pre_wipe_hash, hex(&before));
    assert_eq!(cert.post_wipe_hash, hex(&disk.bytes));
    assert_ne!(cert.pre_wipe_hash, cert.post_wipe_hash);
    assert_eq!(cert.pre_wipe_hash.len(), 64);
    assert_eq!(cert.verification_status, VerificationStatus::Passed);
    assert_eq!(cert.status, SanitizationStatus::Success);
    assert_eq!(cert.passes_completed, 1);
    assert_eq!(cert.certificate_id, "A3F7B2C1");
    assert_eq!(cert.timestamp_start, "2025-04-12T14:23:01Z");
    assert_eq!(cert.device_path, "/dev/sdb");
    assert_eq!(cert.model, "Samsung SSD 870 EVO 1TB");
    assert_eq!(cert.serial, "S5YYNGF012345X");
    assert_eq!(cert.firmware_rev, "SVT01B6Q");
    assert_eq!(cert.size_bytes, before.len() as u64);
    assert_eq!(cert.drive_type, "SataSSD");
    assert_eq!(cert.algorithm_used, "NIST SP 800-88 Rev.1 — Clear (Zero Overwrite + Verify)");
    assert_eq!(cert.operator_note, "");
}

#[test]
fn end_time_is_a_utc_timestamp() {
    let mut disk = Disk::new(vec![]);
    let cert = drive(&mut disk, engine(0, WipeAlgorithm::NistClear, true, true), usize::MAX).unwrap();
    let t = cert.timestamp_end;
    assert_eq!(t.len(), 20);
    assert!(t.ends_with('Z'));
    assert_eq!(&t[10..11], "T");
    assert!(t[..4].parse::<u32>().unwrap() >= 2024);
}

#[test]
fn hash_of_an_empty_device() {
    let mut disk = Disk::new(vec![]);
    let cert = drive(&mut disk, engine(0, WipeAlgorithm::NistClear, false, false), usize::MAX).unwrap();
    let empty = "af1349b9f5f9a1a6a0404dea36dcc9499bcb25c9adc112b7cc9a93cae41f3262";
    assert_eq!(cert.pre_wipe_hash, empty);
    assert_eq!(cert.post_wipe_hash, empty);
    assert_eq!(cert.verification_status, VerificationStatus::Passed);
}

#[test]
fn fingerprint_does_not_depend_on_the_reads() {
    let before: Vec<u8> = (0..5000u32).map(|i| (i / 7) as u8).collect();
    for chunk in [1, 13, 1024, 4999, 5000, 5001] {
        let mut disk = Disk::new(before.clone());
        disk.chunk = chunk;
        let cert = drive(&mut disk, engine(5000, WipeAlgorithm::NistClear, true, true), usize::MAX).unwrap();
        assert_eq!(cert.pre_wipe_hash, hex(&before));
    }
}

#[test]
fn dod_leaves_its_marker() {
    let mut disk = Disk::new(vec![3; 70001]);
    let cert = drive(&mut disk, engine(70001, WipeAlgorithm::Dod5220, false, false), usize::MAX).unwrap();
    assert!(disk.bytes.iter().all(|b| *b == 0xAA));
    assert_eq!(cert.passes_completed, 7);
    assert_eq!(cert.verification_status, VerificationStatus::Passed);
}

#[test]
fn random_passes_are_checked_for_uniformity() {
    // The first block alone is looked at.
    let mut uneven = Disk::new(vec![3; BLOCK_SIZE + 1]);
    uneven.bytes[BLOCK_SIZE] = 4;
    uneven.keeps = false;
    let size = uneven.bytes.len() as u64;
    let cert =
        drive(&mut uneven, engine(size, WipeAlgorithm::RandomSingle, false, false), usize::MAX).unwrap();
    assert_eq!(cert.verification_status, VerificationStatus::Failed);
    for algorithm in [WipeAlgorithm::Gutmann35, WipeAlgorithm::RandomSingle] {
        let mut disk = Disk::new(vec![3; 3000]);
        let cert = drive(&mut disk, engine(3000, algorithm, false, false), usize::MAX).unwrap();
        assert_eq!(cert.verification_status, VerificationStatus::Passed);
        let mut lossy = Disk::new(vec![3; 3000]);
        lossy.keeps = false;
        let cert = drive(&mut lossy, engine(3000, algorithm, false, false), usize::MAX).unwrap();
        assert_eq!(cert.verification_status, VerificationStatus::Failed);
        assert_eq!(cert.status, SanitizationStatus::PartialFailure);
    }
}

#[test]
fn lost_writes_are_found() {
    let size = BLOCK_SIZE * 3;
    for bad in [0, BLOCK_SIZE - 1, BLOCK_SIZE, size - 1] {
        let mut bytes = vec![0u8; size];
        bytes[bad] = 1;
        let mut disk = Disk::new(bytes);
        disk.keeps = false;
        let cert =
            drive(&mut disk, engine(size as u64, WipeAlgorithm::NistClear, false, false), usize::MAX)
                .unwrap();
        assert_eq!(cert.verification_status, VerificationStatus::Failed);
        assert_eq!(cert.status, SanitizationStatus::PartialFailure);
    }
}

#[test]
fn wrong_middle_block_is_found() {
    let size = BLOCK_SIZE * 3;
    let mut bytes = vec![0u8; size];
    bytes[BLOCK_SIZE..2 * BLOCK_SIZE].fill(1);
    let mut disk = Disk::new(bytes);
    disk.keeps = false;
    let cert = drive(&mut disk, engine(size as u64, WipeAlgorithm::NistClear, false, false), usize::MAX)
        .unwrap();
    assert_eq!(cert.verification_status, VerificationStatus::Failed);
}

#[test]
fn hardware_erase_is_not_verified_by_reading() {
    for (algorithm, ops) in
        [(WipeAlgorithm::NistNvmeCryptoErase, 1), (WipeAlgorithm::NistAtaSecureErase, 4)]
    {
        let mut disk = Disk::new(vec![3; 100]);
        let cert = drive(&mut disk, engine(100, algorithm, false, false), usize::MAX).unwrap();
        assert_eq!(disk.wiped().len(), ops);
        assert_eq!(cert.verification_status, VerificationStatus::NotApplicable);
        assert_eq!(cert.status, SanitizationStatus::Success);
        assert_eq!(cert.passes_completed, 1);
        assert_eq!(cert.post_wipe_hash, hex(&disk.bytes));
    }
}

#[test]
fn skipped_verification() {
    let mut disk = Disk::new(vec![3; 100]);
    let cert = drive(&mut disk, engine(100, WipeAlgorithm::NistClear, true, false), usize::MAX).unwrap();
    assert_eq!(cert.verification_status, VerificationStatus::Skipped);
    assert_eq!(cert.post_wipe_hash, "SKIPPED");
    assert_eq!(cert.status, SanitizationStatus::Success);
    assert!(!disk.actions.contains(&DeviceAction::OpenForRead(ReadPurpose::PostWipe)));
}

#[test]
fn dry_run_performs_no_operation() {
    for algorithm in [
        WipeAlgorithm::NistNvmeCryptoErase,
        WipeAlgorithm::NistAtaSecureErase,
        WipeAlgorithm::NistClear,
        WipeAlgorithm::Dod5220,
        WipeAlgorithm::Gutmann35,
        WipeAlgorithm::RandomSingle,
    ] {
        let before: Vec<u8> = (0..1000u32).map(|i| i as u8).collect();
        let mut disk = Disk::new(before.clone());
        let cert = drive(&mut disk, engine(1000, algorithm, false, true), usize::MAX).unwrap();
        assert!(disk.wiped().is_empty());
        assert_eq!(disk.bytes, before);
        assert_eq!(cert.pre_wipe_hash, cert.post_wipe_hash);
    }
}

#[test]
fn failures_end_the_run() {
    let mut unopened = Disk::new(vec![3; 10]);
    unopened.fail_at = Some(DeviceAction::OpenForRead(ReadPurpose::PreWipe));
    let r = drive(&mut unopened, engine(10, WipeAlgorithm::NistClear, false, false), usize::MAX);
    assert!(matches!(r, Err(TitanError::Io(m)) if m == "EIO"));
    let mut unread = Disk::new(vec![3; 10]);
    unread.fail_at = Some(DeviceAction::ReadNext);
    let r = drive(&mut unread, engine(10, WipeAlgorithm::NistClear, false, false), usize::MAX);
    assert!(matches!(r, Err(TitanError::Io(_))));
    let mut unsynced = Disk::new(vec![3; 10]);
    unsynced.fail_at = Some(DeviceAction::Wipe(WipeOp::Sync));
    let r = drive(&mut unsynced, engine(10, WipeAlgorithm::Dod5220, false, false), usize::MAX);
    assert!(matches!(r, Err(TitanError::Io(_))));
    let mut refused = Disk::new(vec![3; 10]);
    refused.fail_at = Some(DeviceAction::Wipe(WipeOp::NvmeFormat));
    let r = drive(&mut refused, engine(10, WipeAlgorithm::NistNvmeCryptoErase, false, false), usize::MAX);
    assert!(matches!(
        r,
        Err(TitanError::IoctlFailed { code: -1, message })
            if message == "NVMe Format NVM crypto erase failed: EIO"
    ));
}

#[test]
fn failed_trim_is_passed_over() {
    let mut disk = Disk::new(vec![3; 10]);
    disk.fail_at = Some(DeviceAction::Wipe(WipeOp::Discard { size: 10 }));
    let cert = drive(&mut disk, engine(10, WipeAlgorithm::NistClear, false, false), usize::MAX).unwrap();
    assert_eq!(cert.verification_status, VerificationStatus::Passed);
}

#[test]
fn failed_read_back_fails_verification() {
    for action in
        [DeviceAction::OpenForRead(ReadPurpose::Verification), DeviceAction::ReadAt { offset: 0 }]
    {
        let mut disk = Disk::new(vec![3; 10]);
        disk.fail_at = Some(action);
        let cert =
            drive(&mut disk, engine(10, WipeAlgorithm::NistClear, false, false), usize::MAX).unwrap();
        assert_eq!(cert.verification_status, VerificationStatus::Failed);
    }
}

#[test]
fn abort_stops_before_the_next_full_block() {
    let size = BLOCK_SIZE * 2;
    let whole = {
        let mut disk = Disk::new(vec![3; size]);
        drive(&mut disk, engine(size as u64, WipeAlgorithm::NistClear, true, false), usize::MAX).unwrap();
        disk.wiped()
    };
    // One open, three reads, then the wipe: its begin and its first block.
    let mut disk = Disk::new(vec![3; size]);
    let r = drive(&mut disk, engine(size as u64, WipeAlgorithm::NistClear, true, false), 6);
    assert!(matches!(r, Err(TitanError::UserAborted)));
    assert_eq!(disk.wiped(), whole[..2].to_vec());
    assert!(disk.bytes[BLOCK_SIZE..].iter().all(|b| *b == 3));
    for after in 0..=5 {
        let mut early = Disk::new(vec![3; size]);
        let r = drive(&mut early, engine(size as u64, WipeAlgorithm::NistClear, true, false), after);
        assert!(matches!(r, Err(TitanError::UserAborted)), "{}", after);
    }
}

#[test]
fn abort_does_not_stop_a_hardware_erase() {
    let mut disk = Disk::new(vec![]);
    // The device is opened and read to its end before the operator aborts.
    let cert = drive(&mut disk, engine(0, WipeAlgorithm::NistAtaSecureErase, true, false), 2).unwrap();
    assert_eq!(disk.wiped().len(), 4);
    assert_eq!(cert.status, SanitizationStatus::Success);
}

#[test]
fn first_action_opens_the_device() {
    match engine(1, WipeAlgorithm::NistClear, false, false).advance(true, DeviceReply::Data(&[])) {
        Progress::Act { action, .. } => {
            assert_eq!(action, DeviceAction::OpenForRead(ReadPurpose::PreWipe))
        }
        _ => panic!("no action"),
    }
    assert_eq!(ReadPurpose::PreWipe.label(), "Pre-wipe fingerprint");
    assert_eq!(ReadPurpose::PostWipe.label(), "Post-wipe fingerprint");
    assert_eq!(ReadPurpose::Verification.label(), "Verification");
}

#[test]
fn certificate_with_a_given_end_time() {
    let mut engine = engine(0, WipeAlgorithm::NistNvmeCryptoErase, true, true);
    loop {
        match engine.advance(false, DeviceReply::Data(&[])) {
            Progress::Act { engine: later, .. } => engine = later,
            Progress::Failed(_) => panic!("failed"),
            Progress::Complete(completion) => {
                let cert = completion.certificate("2025-04-12T14:31:47Z".to_string());
                assert_eq!(cert.timestamp_end, "2025-04-12T14:31:47Z");
                return;
            }
        }
    }
}

#[test]
fn new_engine_draws_a_certificate_number() {
    let mut ids = Vec::new();
    for _ in 0..2 {
        let fresh =
            SanitizerEngine::new(target(0), WipeAlgorithm::NistClear, true, true, &clear_report())
                .ok()
                .unwrap();
        let cert = drive(&mut Disk::new(vec![]), fresh, usize::MAX).unwrap();
        let id = cert.certificate_id;
        assert_eq!(id.len(), 36);
        for (i, c) in id.chars().enumerate() {
            match i {
                8 | 13 | 18 | 23 => assert_eq!(c, '-'),
                14 => assert_eq!(c, '4'),
                19 => assert!("89AB".contains(c)),
                _ => assert!(c.is_ascii_digit() || ('A'..='F').contains(&c)),
            }
        }
        assert_eq!(cert.timestamp_start.len(), 20);
        ids.push(id);
    }
    assert_ne!(ids[0], ids[1]);
}

#[test]
fn guardrails_keep_an_engine_from_being_made() {
    let mut report = clear_report();
    report.target_rdev = Some(2049);
    for dry_run in [true, false] {
        let r = SanitizerEngine::new(target(1), WipeAlgorithm::NistClear, true, dry_run, &report);
        assert!(matches!(r, Err(TitanError::BootDriveProtection(p)) if p == "/dev/sdb"));
    }
}
