//! Drives, wipe algorithms and the audit certificate.

use vstd::prelude::*;

verus! {

/// Storage bus and technology of a drive.
#[derive(Debug, Clone, Copy, PartialEq, Eq, Structural)]
pub enum DriveType {
    /// Magnetic rotating disk: multi-pass overwrite required.
    HDD,
    /// SATA/AHCI solid-state drive: ATA Secure Erase and TRIM purge.
    SataSSD,
    /// NVMe PCIe solid-state drive: controller-level Cryptographic Erase.
    NvmeSSD,
    /// Unknown: falls back to a safe multi-pass overwrite.
    Unknown,
}

impl DriveType {
    /// The description shown to the operator.
    pub open spec fn text(self) -> Seq<char> {
        match self {
            DriveType::HDD => "HDD (Magnetic Rotating)"@,
            DriveType::SataSSD => "SSD (SATA/AHCI Flash)"@,
            DriveType::NvmeSSD => "SSD (NVMe PCIe Flash)"@,
            DriveType::Unknown => "Unknown (Safe Fallback)"@,
        }
    }

    /// The short name that device tables and certificates carry.
    pub open spec fn name_text(self) -> Seq<char> {
        match self {
            DriveType::HDD => "HDD"@,
            DriveType::SataSSD => "SataSSD"@,
            DriveType::NvmeSSD => "NvmeSSD"@,
            DriveType::Unknown => "Unknown"@,
        }
    }

    /// The description shown to the operator.
    pub fn display(self) -> (r: String)
        ensures
            r@ == self.text(),
    {
        match self {
            DriveType::HDD => "HDD (Magnetic Rotating)".to_owned(),
            DriveType::SataSSD => "SSD (SATA/AHCI Flash)".to_owned(),
            DriveType::NvmeSSD => "SSD (NVMe PCIe Flash)".to_owned(),
            DriveType::Unknown => "Unknown (Safe Fallback)".to_owned(),
        }
    }

    /// The short name that device tables and certificates carry.
    pub fn name(self) -> (r: String)
        ensures
            r@ == self.name_text(),
    {
        match self {
            DriveType::HDD => "HDD".to_owned(),
            DriveType::SataSSD => "SataSSD".to_owned(),
            DriveType::NvmeSSD => "NvmeSSD".to_owned(),
            DriveType::Unknown => "Unknown".to_owned(),
        }
    }
}

/// Wipe algorithm to apply.
#[derive(Debug, Clone, Copy, PartialEq, Eq, Structural)]
pub enum WipeAlgorithm {
    /// NIST SP 800-88 Rev.1 Cryptographic Erase by the NVMe Format NVM command.
    NistNvmeCryptoErase,
    /// NIST SP 800-88 Rev.1 Purge by ATA SECURITY ERASE UNIT.
    NistAtaSecureErase,
    /// NIST SP 800-88 Rev.1 Clear: one pass of zeros, then verification.
    NistClear,
    /// DoD 5220.22-M ECE: seven passes.
    Dod5220,
    /// Gutmann: thirty-five passes.
    Gutmann35,
    /// One pass of random bytes.
    RandomSingle,
}

impl WipeAlgorithm {
    /// The description shown to the operator and kept in the certificate.
    pub open spec fn text(self) -> Seq<char> {
        match self {
            WipeAlgorithm::NistNvmeCryptoErase =>
                "NIST SP 800-88 Rev.1 — NVMe Cryptographic Erase"@,
            WipeAlgorithm::NistAtaSecureErase => "NIST SP 800-88 Rev.1 — ATA Secure Erase Purge"@,
            WipeAlgorithm::NistClear => "NIST SP 800-88 Rev.1 — Clear (Zero Overwrite + Verify)"@,
            WipeAlgorithm::Dod5220 => "DoD 5220.22-M ECE — 7-Pass Overwrite"@,
            WipeAlgorithm::Gutmann35 => "Gutmann — 35-Pass"@,
            WipeAlgorithm::RandomSingle => "Cryptographic Random — Single Pass"@,
        }
    }

    /// Whether the drive's own controller does the erasing.
    pub open spec fn is_hardware_erase(self) -> bool {
        self is NistNvmeCryptoErase || self is NistAtaSecureErase
    }

    /// The description shown to the operator and kept in the certificate.
    pub fn display(self) -> (r: String)
        ensures
            r@ == self.text(),
    {
        match self {
            WipeAlgorithm::NistNvmeCryptoErase =>
                "NIST SP 800-88 Rev.1 — NVMe Cryptographic Erase".to_owned(),
            WipeAlgorithm::NistAtaSecureErase =>
                "NIST SP 800-88 Rev.1 — ATA Secure Erase Purge".to_owned(),
            WipeAlgorithm::NistClear =>
                "NIST SP 800-88 Rev.1 — Clear (Zero Overwrite + Verify)".to_owned(),
            WipeAlgorithm::Dod5220 => "DoD 5220.22-M ECE — 7-Pass Overwrite".to_owned(),
            WipeAlgorithm::Gutmann35 => "Gutmann — 35-Pass".to_owned(),
            WipeAlgorithm::RandomSingle => "Cryptographic Random — Single Pass".to_owned(),
        }
    }
}

/// Fully-described physical disk.
#[derive(Debug, Clone)]
pub struct DiskTarget {
    pub path: String,
    pub model: String,
    pub serial_number: String,
    pub firmware_rev: String,
    pub size_bytes: u64,
    pub drive_type: DriveType,
    pub sector_size: u32,
    pub supports_crypto_erase: bool,
    pub supports_ata_secure_erase: bool,
    pub supports_enhanced_erase: bool,
}

/// A `DiskTarget` with its texts as sequences of characters.
#[verifier::ext_equal]
pub struct DiskView {
    pub path: Seq<char>,
    pub model: Seq<char>,
    pub serial_number: Seq<char>,
    pub firmware_rev: Seq<char>,
    pub size_bytes: u64,
    pub drive_type: DriveType,
    pub sector_size: u32,
    pub supports_crypto_erase: bool,
    pub supports_ata_secure_erase: bool,
    pub supports_enhanced_erase: bool,
}

impl View for DiskTarget {
    type V = DiskView;

    open spec fn view(&self) -> DiskView {
        DiskView {
            path: self.path@,
            model: self.model@,
            serial_number: self.serial_number@,
            firmware_rev: self.firmware_rev@,
            size_bytes: self.size_bytes,
            drive_type: self.drive_type,
            sector_size: self.sector_size,
            supports_crypto_erase: self.supports_crypto_erase,
            supports_ata_secure_erase: self.supports_ata_secure_erase,
            supports_enhanced_erase: self.supports_enhanced_erase,
        }
    }
}

impl DiskView {
    /// The strongest algorithm that the drive can take.
    pub open spec fn recommended(self) -> WipeAlgorithm {
        match self.drive_type {
            DriveType::NvmeSSD => if self.supports_crypto_erase {
                WipeAlgorithm::NistNvmeCryptoErase
            } else {
                WipeAlgorithm::NistClear
            },
            DriveType::SataSSD => if self.supports_ata_secure_erase {
                WipeAlgorithm::NistAtaSecureErase
            } else {
                WipeAlgorithm::NistClear
            },
            DriveType::HDD | DriveType::Unknown => WipeAlgorithm::Dod5220,
        }
    }
}

impl DiskTarget {
    /// The strongest algorithm that the drive can take.
    pub fn recommended_algorithm(&self) -> (r: WipeAlgorithm)
        ensures
            r == self@.recommended(),
    {
        match self.drive_type {
            DriveType::NvmeSSD if self.supports_crypto_erase => WipeAlgorithm::NistNvmeCryptoErase,
            DriveType::SataSSD if self.supports_ata_secure_erase =>
                WipeAlgorithm::NistAtaSecureErase,
            DriveType::SataSSD => WipeAlgorithm::NistClear,
            DriveType::HDD => WipeAlgorithm::Dod5220,
            DriveType::NvmeSSD => WipeAlgorithm::NistClear,
            DriveType::Unknown => WipeAlgorithm::Dod5220,
        }
    }
}

/// Outcome of the post-wipe check.
#[derive(Debug, Clone, Copy, PartialEq, Eq, Structural)]
pub enum VerificationStatus {
    Passed,
    Failed,
    Skipped,
    NotApplicable,
}

impl VerificationStatus {
    /// The name shown to the operator.
    pub open spec fn text(self) -> Seq<char> {
        match self {
            VerificationStatus::Passed => "Passed"@,
            VerificationStatus::Failed => "Failed"@,
            VerificationStatus::Skipped => "Skipped"@,
            VerificationStatus::NotApplicable => "NotApplicable"@,
        }
    }

    /// The name shown to the operator.
    pub fn display(self) -> (r: String)
        ensures
            r@ == self.text(),
    {
        match self {
            VerificationStatus::Passed => "Passed".to_owned(),
            VerificationStatus::Failed => "Failed".to_owned(),
            VerificationStatus::Skipped => "Skipped".to_owned(),
            VerificationStatus::NotApplicable => "NotApplicable".to_owned(),
        }
    }
}

/// Outcome of a whole run.
#[derive(Debug, Clone, Copy, PartialEq, Eq, Structural)]
pub enum SanitizationStatus {
    Success,
    PartialFailure,
    Failed,
    Aborted,
}

/// Audit certificate of one run.
#[derive(Debug, Clone)]
pub struct SanitizationCertificate {
    pub certificate_id: String,
    pub timestamp_start: String,
    pub timestamp_end: String,
    pub device_path: String,
    pub model: String,
    pub serial: String,
    pub firmware_rev: String,
    pub size_bytes: u64,
    pub drive_type: String,
    pub algorithm_used: String,
    pub passes_completed: u32,
    pub pre_wipe_hash: String,
    pub post_wipe_hash: String,
    pub verification_status: VerificationStatus,
    pub status: SanitizationStatus,
    pub operator_note: String,
}

/// A `SanitizationCertificate` with its texts as sequences of characters.
#[verifier::ext_equal]
pub struct CertificateView {
    pub certificate_id: Seq<char>,
    pub timestamp_start: Seq<char>,
    pub timestamp_end: Seq<char>,
    pub device_path: Seq<char>,
    pub model: Seq<char>,
    pub serial: Seq<char>,
    pub firmware_rev: Seq<char>,
    pub size_bytes: u64,
    pub drive_type: Seq<char>,
    pub algorithm_used: Seq<char>,
    pub passes_completed: u32,
    pub pre_wipe_hash: Seq<char>,
    pub post_wipe_hash: Seq<char>,
    pub verification_status: VerificationStatus,
    pub status: SanitizationStatus,
    pub operator_note: Seq<char>,
}

impl View for SanitizationCertificate {
    type V = CertificateView;

    open spec fn view(&self) -> CertificateView {
        CertificateView {
            certificate_id: self.certificate_id@,
            timestamp_start: self.timestamp_start@,
            timestamp_end: self.timestamp_end@,
            device_path: self.device_path@,
            model: self.model@,
            serial: self.serial@,
            firmware_rev: self.firmware_rev@,
            size_bytes: self.size_bytes,
            drive_type: self.drive_type@,
            algorithm_used: self.algorithm_used@,
            passes_completed: self.passes_completed,
            pre_wipe_hash: self.pre_wipe_hash@,
            post_wipe_hash: self.post_wipe_hash@,
            verification_status: self.verification_status,
            status: self.status,
            operator_note: self.operator_note@,
        }
    }
}

/// A hardware erase is only ever recommended for a drive that reports it, and
/// an overwrite of a flash drive only where the drive reports none.
pub proof fn law_recommendation_follows_capabilities(disk: DiskView)
    ensures
        disk.recommended() is NistNvmeCryptoErase <==> disk.drive_type is NvmeSSD
            && disk.supports_crypto_erase,
        disk.recommended() is NistAtaSecureErase <==> disk.drive_type is SataSSD
            && disk.supports_ata_secure_erase,
        disk.recommended() is Dod5220 <==> disk.drive_type is HDD || disk.drive_type is Unknown,
        disk.recommended() is NistClear <==> (disk.drive_type is NvmeSSD
            && !disk.supports_crypto_erase) || (disk.drive_type is SataSSD
            && !disk.supports_ata_secure_erase),
{
}

/// The short names are those of the kinds of drives, and tell them apart; so do
/// the descriptions.
pub proof fn law_texts_tell_drives_apart(a: DriveType, b: DriveType)
    ensures
        a is HDD ==> a.name_text() == "HDD"@,
        a is SataSSD ==> a.name_text() == "SataSSD"@,
        a is NvmeSSD ==> a.name_text() == "NvmeSSD"@,
        a is Unknown ==> a.name_text() == "Unknown"@,
        a.name_text() == b.name_text() ==> a == b,
        a.text() == b.text() ==> a == b,
{
    reveal_strlit("HDD");
    reveal_strlit("SataSSD");
    reveal_strlit("NvmeSSD");
    reveal_strlit("Unknown");
    reveal_strlit("HDD (Magnetic Rotating)");
    reveal_strlit("SSD (SATA/AHCI Flash)");
    reveal_strlit("SSD (NVMe PCIe Flash)");
    reveal_strlit("Unknown (Safe Fallback)");
    assert("HDD"@[0] == 'H' && "SataSSD"@[0] == 'S' && "NvmeSSD"@[0] == 'N' && "Unknown"@[0]
        == 'U');
    assert("HDD (Magnetic Rotating)"@[0] == 'H' && "Unknown (Safe Fallback)"@[0] == 'U');
    assert("SSD (SATA/AHCI Flash)"@[0] == 'S' && "SSD (SATA/AHCI Flash)"@[5] == 'S');
    assert("SSD (NVMe PCIe Flash)"@[0] == 'S' && "SSD (NVMe PCIe Flash)"@[5] == 'N');
}

/// The outcomes of a verification are shown under their names.
pub proof fn law_verification_is_shown_by_name(status: VerificationStatus)
    ensures
        status is Passed ==> status.text() == "Passed"@,
        status is Failed ==> status.text() == "Failed"@,
        status is Skipped ==> status.text() == "Skipped"@,
        status is NotApplicable ==> status.text() == "NotApplicable"@,
{
}

} // verus!
