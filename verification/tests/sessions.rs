use titan_wipe::cli::{
    can_print_certificate, can_show_banner, consent_answer, consent_banner, consent_phrase,
    print_certificate, print_device_inspect, print_device_table, run_consent_handshake, Cli,
    Commands, ListedDisk,
};
use titan_wipe::error::TitanError;
use titan_wipe::guardrails::GuardrailReport;
use titan_wipe::session::{
    begin_wipe, list_report, selected_algorithm_line, Ending, WipeOptions,
};
use titan_wipe::types::{
    DiskTarget, DriveType, SanitizationCertificate, SanitizationStatus, VerificationStatus,
    WipeAlgorithm,
};

fn disk(serial: &str) -> DiskTarget {
    DiskTarget {
        path: "/dev/sdb".to_string(),
        model: "Samsung SSD 870 EVO 1TB".to_string(),
        serial_number: serial.to_string(),
        firmware_rev: "SVT01B6Q".to_string(),
        size_bytes: 1000204886016,
        drive_type: DriveType::SataSSD,
        sector_size: 512,
        supports_crypto_erase: false,
        supports_ata_secure_erase: true,
        supports_enhanced_erase: true,
    }
}

fn report() -> GuardrailReport {
    GuardrailReport {
        path: "/dev/sdb".to_string(),
        target_path: "/dev/sdb".to_string(),
        target_rdev: Some(2064),
        protected_devs: [None; 5],
        mount_table: Ok(vec![]),
    }
}

fn options() -> WipeOptions {
    WipeOptions { algorithm: None, skip_verify: false, dry_run: false, force: false }
}

#[test]
fn consent_is_the_phrase_of_the_device() {
    let d = disk("S5YYNGF012345X");
    assert_eq!(consent_phrase(&d), "WIPE-S5YYNGF0");
    assert!(run_consent_handshake(&d, Some("WIPE-S5YYNGF0\n")));
    assert!(run_consent_handshake(&d, Some("  WIPE-S5YYNGF0 \r\n")));
    for wrong in ["", "yes\n", "WIPE-\n", "wipe-s5yyngf0\n", "WIPE-S5YYNGF01\n", "WIPE- S5YYNGF0\n"] {
        assert!(!run_consent_handshake(&d, Some(wrong)), "{:?}", wrong);
    }
    assert!(!run_consent_handshake(&d, None));
    assert_eq!(consent_phrase(&disk("AB")), "WIPE-AB");
    assert!(!run_consent_handshake(&disk("OTHER"), Some("WIPE-S5YYNGF0")));
}

#[test]
fn banner_texts_are_cut_by_bytes() {
    assert!(can_show_banner(&disk("S5YYNGF012345X")));
    assert!(!can_show_banner(&disk("1234567é")));
}

#[test]
fn banner() {
    let d = disk("S5YYNGF012345X");
    let mut expected = String::new();
    expected.push('\n');
    expected.push_str("╔══════════════════════════════════════════════════════════════════╗\n");
    expected.push_str("║                  ⚠  DESTRUCTIVE OPERATION WARNING  ⚠            ║\n");
    expected.push_str("╠══════════════════════════════════════════════════════════════════╣\n");
    expected.push_str(&format!("║  Target:   {:<54} ║\n", "/dev/sdb"));
    expected.push_str(&format!("║  Model:    {:<54} ║\n", "Samsung SSD 870 EVO 1TB"));
    expected.push_str(&format!("║  Serial:   {:<54} ║\n", "S5YYNGF012345X"));
    expected.push_str(&format!("║  Size:     {:<54} ║\n", "931.51 GiB (1000204886016 bytes)"));
    expected.push_str(&format!("║  Type:     {:<54} ║\n", "SSD (SATA/AHCI Flash)"));
    expected.push_str("╠══════════════════════════════════════════════════════════════════╣\n");
    expected.push_str("║  ALL DATA ON THIS DEVICE WILL BE PERMANENTLY DESTROYED.         ║\n");
    expected.push_str("║  This operation CANNOT be undone.                               ║\n");
    expected.push_str("╚══════════════════════════════════════════════════════════════════╝\n");
    expected.push_str("\n  To confirm, type exactly:  WIPE-S5YYNGF0\n");
    expected.push_str("  (or type anything else to abort)\n\n  > ");
    assert_eq!(consent_banner(&d, "931.51"), expected);
    assert_eq!(consent_answer(true), "\n  Consent confirmed. Starting sanitization...\n\n");
    assert_eq!(consent_answer(false), "\n  ✗ Input mismatch. Aborting.\n");
}

#[test]
fn description_of_a_device() {
    let expected = "
  Device Path      : /dev/sdb
  Model            : Samsung SSD 870 EVO 1TB
  Serial Number    : S5YYNGF012345X
  Firmware Rev     : SVT01B6Q
  Size             : 931.513 GiB (1000204886016 bytes)
  Drive Type       : SSD (SATA/AHCI Flash)
  Sector Size      : 512 bytes
  NVMe Crypto Erase: Unsupported / Unknown
  ATA Secure Erase : Supported
  Recommended Algo : NIST SP 800-88 Rev.1 — ATA Secure Erase Purge

";
    assert_eq!(print_device_inspect(&disk("S5YYNGF012345X"), "931.513"), expected);
}

#[test]
fn table_of_devices() {
    let mut long = disk("0123456789abcdefgh");
    long.model = "x".repeat(40);
    let rows = vec![
        ListedDisk { disk: disk("S5YYNGF012345X"), gib: "931.5".to_string() },
        ListedDisk { disk: long, gib: "931.5".to_string() },
    ];
    assert!(rows.iter().all(|r| r.can_print()));
    let line = |a: &str, b: &str, c: &str, d: &str, e: &str| {
        format!("{:<20} {:<35} {:<15} {:<12} {:<10}\n", a, b, c, d, e)
    };
    let mut expected = "\n".to_string();
    expected.push_str(&line("DEVICE", "MODEL", "SERIAL", "SIZE", "TYPE"));
    expected.push_str(&"─".repeat(95));
    expected.push('\n');
    expected.push_str(&line("/dev/sdb", "Samsung SSD 870 EVO 1TB", "S5YYNGF012345X", "931.5 GiB", "SataSSD"));
    expected.push_str(&line("/dev/sdb", &"x".repeat(34), "0123456789abcd", "931.5 GiB", "SataSSD"));
    expected.push('\n');
    assert_eq!(print_device_table(&rows), expected);
    assert_eq!(list_report(&rows), expected);
    assert_eq!(list_report(&vec![]), "No physical block devices found.\n");
    let broken = ListedDisk { disk: disk("0123456789abcé"), gib: String::new() };
    assert!(!broken.can_print());
}

#[test]
fn certificate_report() {
    let mut cert = SanitizationCertificate {
        certificate_id: "A3F7B2C1".to_string(),
        timestamp_start: "2025-04-12T14:23:01Z".to_string(),
        timestamp_end: "2025-04-12T14:31:47Z".to_string(),
        device_path: "/dev/sdb".to_string(),
        model: "m".repeat(60),
        serial: "S5YYNGF012345X".to_string(),
        firmware_rev: "SVT01B6Q".to_string(),
        size_bytes: 1000204886016,
        drive_type: "SataSSD".to_string(),
        algorithm_used: "NIST SP 800-88 Rev.1 — ATA Secure Erase Purge".to_string(),
        passes_completed: 7,
        pre_wipe_hash: "a".repeat(64),
        post_wipe_hash: "SKIPPED".to_string(),
        verification_status: VerificationStatus::Skipped,
        status: SanitizationStatus::Success,
        operator_note: String::new(),
    };
    let bar = "═".repeat(66);
    let expected = |icon: &str| {
        let mut t = format!("\n╔{}╗\n", bar);
        t.push_str("║              SANITIZATION AUDIT CERTIFICATE                     ║\n");
        t.push_str(&format!("╠{}╣\n", bar));
        t.push_str(&format!("║  ID:        {:<54} ║\n", "A3F7B2C1"));
        t.push_str(&format!("║  Started:   {:<54} ║\n", "2025-04-12T14:23:01Z"));
        t.push_str(&format!("║  Completed: {:<54} ║\n", "2025-04-12T14:31:47Z"));
        t.push_str(&format!("╠{}╣\n", bar));
        t.push_str(&format!("║  Device:    {:<54} ║\n", "/dev/sdb"));
        t.push_str(&format!("║  Model:     {:<54} ║\n", "m".repeat(54)));
        t.push_str(&format!("║  Serial:    {:<54} ║\n", "S5YYNGF012345X"));
        t.push_str(&format!("╠{}╣\n", bar));
        t.push_str(&format!(
            "║  Algorithm: {:<54} ║\n",
            "NIST SP 800-88 Rev.1 — ATA Secure Erase Purge"
        ));
        t.push_str(&format!("║  Passes:    {:<54} ║\n", 7));
        t.push_str(&format!("╠{}╣\n", bar));
        t.push_str(&format!("║  Pre-wipe BLAKE3:  {:<47} ║\n", "a".repeat(47)));
        t.push_str(&format!("║  Post-wipe BLAKE3: {:<47} ║\n", "SKIPPED"));
        t.push_str(&format!("║  Verification:     {:<47} ║\n", "Skipped"));
        t.push_str(&format!("╠{}╣\n", bar));
        t.push_str(&format!("║  Status:    {:<54} ║\n", icon));
        t.push_str(&format!("╚{}╝\n\n", bar));
        t
    };
    assert!(can_print_certificate(&cert));
    assert_eq!(print_certificate(&cert), expected("✓ SUCCESS"));
    cert.status = SanitizationStatus::PartialFailure;
    assert_eq!(print_certificate(&cert), expected("✗ PARTIAL/FAILED"));
    cert.model = format!("{}é", "m".repeat(53));
    assert!(!can_print_certificate(&cert));
}

#[test]
fn wipe_takes_consent() {
    let d = || disk("S5YYNGF012345X");
    for answer in [None, Some("yes\n"), Some("")] {
        let r = begin_wipe(d(), options(), answer, &report());
        assert!(matches!(r, Err(TitanError::UserAborted)));
    }
    assert!(begin_wipe(d(), options(), Some("WIPE-S5YYNGF0\n"), &report()).is_ok());
}

#[test]
fn force_and_dry_run_waive_consent() {
    let forced = WipeOptions { force: true, ..options() };
    let dry = WipeOptions { dry_run: true, ..options() };
    assert!(options().needs_consent());
    for o in [forced, dry] {
        assert!(!o.needs_consent());
        assert!(begin_wipe(disk("S5YYNGF012345X"), o, None, &report()).is_ok());
    }
}

#[test]
fn no_option_bypasses_the_guardrails() {
    let mut refusing = report();
    refusing.target_rdev = None;
    for force in [false, true] {
        for dry_run in [false, true] {
            for skip_verify in [false, true] {
                let o = WipeOptions { algorithm: None, skip_verify, dry_run, force };
                let r = begin_wipe(disk("S5YYNGF012345X"), o, Some("WIPE-S5YYNGF0"), &refusing);
                assert!(matches!(r, Err(TitanError::BootDriveProtection(_))));
            }
        }
    }
}

#[test]
fn algorithm_is_recommended_unless_given() {
    let d = disk("x");
    assert_eq!(options().select_algorithm(&d), WipeAlgorithm::NistAtaSecureErase);
    let given = WipeOptions { algorithm: Some(WipeAlgorithm::Gutmann35), ..options() };
    assert_eq!(given.select_algorithm(&d), WipeAlgorithm::Gutmann35);
    assert_eq!(
        selected_algorithm_line(WipeAlgorithm::Gutmann35),
        "  Selected Algorithm: Gutmann — 35-Pass\n\n"
    );
}

#[test]
fn texts_of_algorithms_and_drives() {
    assert_eq!(
        WipeAlgorithm::NistNvmeCryptoErase.display(),
        "NIST SP 800-88 Rev.1 — NVMe Cryptographic Erase"
    );
    assert_eq!(WipeAlgorithm::Dod5220.display(), "DoD 5220.22-M ECE — 7-Pass Overwrite");
    assert_eq!(WipeAlgorithm::RandomSingle.display(), "Cryptographic Random — Single Pass");
    assert_eq!(DriveType::HDD.display(), "HDD (Magnetic Rotating)");
    assert_eq!(DriveType::NvmeSSD.display(), "SSD (NVMe PCIe Flash)");
    assert_eq!(DriveType::Unknown.display(), "Unknown (Safe Fallback)");
    assert_eq!(DriveType::NvmeSSD.name(), "NvmeSSD");
    assert_eq!(VerificationStatus::NotApplicable.display(), "NotApplicable");
}

#[test]
fn exit_codes() {
    assert_eq!(Ending::Unprivileged.exit_code(), 1);
    assert_eq!(Ending::Failed.exit_code(), 2);
    assert_eq!(Ending::Reported.exit_code(), 0);
    assert_eq!(Ending::Certified(SanitizationStatus::Success).exit_code(), 0);
    assert_eq!(Ending::Certified(SanitizationStatus::PartialFailure).exit_code(), 3);
    assert_eq!(Ending::Certified(SanitizationStatus::Failed).exit_code(), 3);
    assert_eq!(Ending::Certified(SanitizationStatus::Aborted).exit_code(), 3);
}

#[test]
fn commands_hold_what_was_asked_for() {
    let cli = Cli { command: Commands::Inspect { device: "/dev/sdb".to_string() }, verbose: true };
    assert!(cli.verbose);
    assert!(matches!(cli.command, Commands::Inspect { device } if device == "/dev/sdb"));
}
