//! Describing a block device from what the kernel tells of it.

use vstd::prelude::*;

use crate::ata::AtaIdentity;
use crate::error::{ErrorView, TitanError, TitanResult};
use crate::numerals::{
    all_digits, ascii_digit, decimal, is_digit, law_decimal_is_read_back, parse_u32, parsed_u32,
};
use crate::nvme::{crypto_erase_supported, reports_crypto_erase};
use crate::text::{
    base_name, chars_of, concat3, file_name, has_prefix, law_trimming_takes_off_white_space,
    starts_with, string_of, trim, trimmed,
};
use crate::types::{DiskTarget, DiskView, DriveType};

verus! {

// ---------------------------------------------------------------------------
// Device names
// ---------------------------------------------------------------------------

/// A text without the digits it ends with.
pub open spec fn without_trailing_digits(s: Seq<char>) -> Seq<char>
    decreases s.len(),
{
    if s.len() > 0 && is_digit(s.last()) {
        without_trailing_digits(s.drop_last())
    } else {
        s
    }
}

/// The device that a partition belongs to. On NVMe a partition is the device
/// and `p` with a number; elsewhere it is the device with a number.
pub open spec fn base_device(name: Seq<char>) -> Seq<char> {
    let stem = without_trailing_digits(name);
    if !has_prefix(name, "nvme"@) {
        stem
    } else if stem.len() > 0 && stem.last() == 'p' {
        stem.drop_last()
    } else {
        name
    }
}

/// The device that a partition belongs to.
pub fn strip_partition_suffix(name: &str) -> (r: String)
    ensures
        r@ == base_device(name@),
{
    let chars = chars_of(name);
    let mut end: usize = chars.len();
    proof {
        assert(chars@.take(end as int) =~= chars@);
    }
    while end > 0 && ascii_digit(chars[end - 1])
        invariant
            end <= chars@.len(),
            without_trailing_digits(chars@.take(end as int)) == without_trailing_digits(chars@),
        decreases end,
    {
        proof {
            assert(chars@.take(end as int).drop_last() =~= chars@.take(end - 1));
        }
        end = end - 1;
    }
    proof {
        assert(chars@.subrange(0, end as int) =~= chars@.take(end as int));
    }
    if !starts_with(name, "nvme") {
        return string_of(chars.as_slice(), 0, end);
    }
    if end > 0 && chars[end - 1] == 'p' {
        proof {
            assert(chars@.subrange(0, end - 1) =~= chars@.take(end as int).drop_last());
        }
        string_of(chars.as_slice(), 0, end - 1)
    } else {
        name.to_owned()
    }
}

proof fn lemma_trailing_digits(stem: Seq<char>, digits: Seq<char>)
    requires
        stem.len() == 0 || !is_digit(stem.last()),
        all_digits(digits),
    ensures
        without_trailing_digits(stem + digits) == stem,
    decreases digits.len(),
{
    if digits.len() == 0 {
        assert(stem + digits =~= stem);
    } else {
        assert((stem + digits).drop_last() =~= stem + digits.drop_last());
        assert((stem + digits).last() == digits.last());
        lemma_trailing_digits(stem, digits.drop_last());
    }
}

/// A partition leads back to its device: `sda1` to `sda`, `nvme0n1p2` to
/// `nvme0n1`. Apart from NVMe, the name of the device has no digit at its end.
pub proof fn law_partition_leads_back_to_its_device(device: Seq<char>, number: Seq<char>)
    requires
        all_digits(number),
        has_prefix(device, "nvme"@) || device.len() == 0 || !is_digit(device.last()),
    ensures
        has_prefix(device, "nvme"@) ==> base_device(device + seq!['p'] + number) == device,
        !has_prefix(device, "nvme"@) ==> base_device(device + number) == device,
{
    reveal_strlit("nvme");
    if has_prefix(device, "nvme"@) {
        let stem = device + seq!['p'];
        lemma_trailing_digits(stem, number);
        assert((stem + number).take(4) =~= device.take(4));
        assert(stem.drop_last() =~= device);
    } else {
        lemma_trailing_digits(device, number);
        let name = device + number;
        if has_prefix(name, "nvme"@) {
            assert(name.take(4)[3] == 'e');
            if device.len() >= 4 {
                assert(name.take(4) =~= device.take(4));
            } else {
                assert(is_digit(number[3 - device.len()]));
            }
        }
    }
}

// ---------------------------------------------------------------------------
// Observations
// ---------------------------------------------------------------------------

/// What stands at a path.
#[derive(Debug, Clone, Copy, PartialEq, Eq, Structural)]
pub enum FileKind {
    /// Nothing that can be looked up.
    Missing,
    /// A block device.
    BlockDevice,
    /// Something else.
    Other,
}

/// A file below `/sys/block/<device>`.
#[derive(Debug, Clone, Copy, PartialEq, Eq, Structural)]
pub enum SysfsField {
    Rotational,
    BlockSize,
    Model,
    Serial,
    Firmware,
}

impl SysfsField {
    /// Where the file stands, below the directory of the device.
    pub open spec fn tail(self) -> Seq<char> {
        match self {
            SysfsField::Rotational => "/queue/rotational"@,
            SysfsField::BlockSize => "/queue/logical_block_size"@,
            SysfsField::Model => "/device/model"@,
            SysfsField::Serial => "/device/serial"@,
            SysfsField::Firmware => "/device/firmware_rev"@,
        }
    }

    /// The path of the file for the device or partition at `path`.
    pub fn sysfs_path(self, path: &str) -> (r: String)
        ensures
            r@ == "/sys/block/"@ + base_device(base_name(path@)) + self.tail(),
    {
        let base = strip_partition_suffix(file_name(path).as_str());
        let tail: &str = match self {
            SysfsField::Rotational => "/queue/rotational",
            SysfsField::BlockSize => "/queue/logical_block_size",
            SysfsField::Model => "/device/model",
            SysfsField::Serial => "/device/serial",
            SysfsField::Firmware => "/device/firmware_rev",
        };
        concat3("/sys/block/", base.as_str(), tail)
    }
}

/// Something to find out about a device.
#[derive(Debug, Clone, Copy, PartialEq, Eq, Structural)]
pub enum Probe {
    /// What stands at the path.
    Kind,
    /// Open the device for reading.
    Open,
    /// Ask the kernel for the size.
    Size,
    /// Read a sysfs file.
    Text(SysfsField),
    /// Ask the drive for its ATA identity.
    Identity,
    /// Ask the controller for its NVMe identity.
    Controller,
}

/// What was found out so far about a device. A field is `None` as long as
/// nobody has looked.
pub struct DeviceProbe {
    pub path: String,
    pub kind: Option<FileKind>,
    /// The system's words where the open failed.
    pub opened: Option<Result<(), String>>,
    /// The kernel's code where it gave no size.
    pub size: Option<Result<u64, i32>>,
    /// Sysfs files: the content, or `None` where it cannot be read.
    pub rotational: Option<Option<String>>,
    pub block_size: Option<Option<String>>,
    pub model: Option<Option<String>>,
    pub serial: Option<Option<String>>,
    pub firmware: Option<Option<String>>,
    /// The ATA identity, or `None` where the drive gave none.
    pub identity: Option<Option<AtaIdentity>>,
    /// The NVMe identity, or `None` where the controller gave none.
    pub controller: Option<Option<[u8; 4096]>>,
}

/// Where an inspection stands.
pub enum Inspection {
    /// This has to be found out next.
    Need(Probe),
    /// Everything is known.
    Done(TitanResult<DiskTarget>),
}

/// The trimmed content of a sysfs file, if it was read.
pub open spec fn content(text: Option<Option<String>>) -> Option<Seq<char>> {
    match text {
        Some(Some(t)) => Some(trimmed(t@)),
        _ => None,
    }
}

/// The trimmed content of a sysfs file, or a stand-in.
pub open spec fn content_or(text: Option<Option<String>>, other: Seq<char>) -> Seq<char> {
    match content(text) {
        Some(t) => t,
        None => other,
    }
}

/// The number in a sysfs file, if it was read and holds one.
pub open spec fn number(text: Option<Option<String>>) -> Option<u32> {
    match content(text) {
        Some(t) => parsed_u32(t),
        None => None,
    }
}

fn text_or(text: &Option<Option<String>>, other: &str) -> (r: String)
    ensures
        r@ == content_or(*text, other@),
{
    match text {
        Some(Some(t)) => trim(t.as_str()),
        _ => other.to_owned(),
    }
}

fn text_number(text: &Option<Option<String>>) -> (r: Option<u32>)
    ensures
        r == number(*text),
{
    match text {
        Some(Some(t)) => parse_u32(trim(t.as_str()).as_str()),
        _ => None,
    }
}

impl DeviceProbe {
    /// NVMe by name; flash where the kernel says that nothing rotates;
    /// magnetic otherwise.
    pub open spec fn drive_type(&self) -> DriveType {
        if has_prefix(base_device(base_name(self.path@)), "nvme"@) {
            DriveType::NvmeSSD
        } else if number(self.rotational) == Some(0u32) {
            DriveType::SataSSD
        } else {
            DriveType::HDD
        }
    }

    /// The logical block size, 512 where the kernel does not tell.
    pub open spec fn sector_size(&self) -> u32 {
        match number(self.block_size) {
            Some(n) => n,
            None => 512,
        }
    }

    /// What has to be found out next, if anything. A device that cannot be
    /// used is not asked any further.
    pub open spec fn next_probe(&self) -> Option<Probe> {
        if self.kind is None {
            Some(Probe::Kind)
        } else if self.kind != Some(FileKind::BlockDevice) {
            None
        } else if self.opened is None {
            Some(Probe::Open)
        } else if self.opened->0 is Err {
            None
        } else if self.size is None {
            Some(Probe::Size)
        } else if self.size->0 is Err {
            None
        } else if self.rotational is None {
            Some(Probe::Text(SysfsField::Rotational))
        } else if self.block_size is None {
            Some(Probe::Text(SysfsField::BlockSize))
        } else if self.drive_type() is NvmeSSD {
            if self.model is None {
                Some(Probe::Text(SysfsField::Model))
            } else if self.serial is None {
                Some(Probe::Text(SysfsField::Serial))
            } else if self.firmware is None {
                Some(Probe::Text(SysfsField::Firmware))
            } else if self.controller is None {
                Some(Probe::Controller)
            } else {
                None
            }
        } else if self.identity is None {
            Some(Probe::Identity)
        } else if self.identity->0 is Some {
            None
        } else if self.model is None {
            Some(Probe::Text(SysfsField::Model))
        } else if self.serial is None {
            Some(Probe::Text(SysfsField::Serial))
        } else {
            None
        }
    }

    /// Whether somebody has looked.
    pub open spec fn knows(&self, probe: Probe) -> bool {
        match probe {
            Probe::Kind => self.kind is Some,
            Probe::Open => self.opened is Some,
            Probe::Size => self.size is Some,
            Probe::Text(SysfsField::Rotational) => self.rotational is Some,
            Probe::Text(SysfsField::BlockSize) => self.block_size is Some,
            Probe::Text(SysfsField::Model) => self.model is Some,
            Probe::Text(SysfsField::Serial) => self.serial is Some,
            Probe::Text(SysfsField::Firmware) => self.firmware is Some,
            Probe::Identity => self.identity is Some,
            Probe::Controller => self.controller is Some,
        }
    }

    /// The description of an NVMe drive.
    pub open spec fn nvme_disk(&self) -> DiskView {
        DiskView {
            path: self.path@,
            model: content_or(self.model, "Unknown NVMe"@),
            serial_number: content_or(self.serial, "Unknown"@),
            firmware_rev: content_or(self.firmware, "N/A"@),
            size_bytes: self.size->0->Ok_0,
            drive_type: DriveType::NvmeSSD,
            sector_size: self.sector_size(),
            supports_crypto_erase: self.controller matches Some(Some(answer))
                && reports_crypto_erase(answer@),
            supports_ata_secure_erase: false,
            supports_enhanced_erase: false,
        }
    }

    /// The description of a drive behind an ATA bus: by its own identity, or
    /// else by what sysfs tells of it.
    pub open spec fn ata_disk(&self) -> DiskView {
        match self.identity->0 {
            Some(identity) => DiskView {
                path: self.path@,
                model: identity.field(27, 46),
                serial_number: identity.field(10, 19),
                firmware_rev: identity.field(23, 26),
                size_bytes: self.size->0->Ok_0,
                drive_type: self.drive_type(),
                sector_size: self.sector_size(),
                supports_crypto_erase: false,
                supports_ata_secure_erase: identity.has_security(),
                supports_enhanced_erase: identity.has_enhanced_erase(),
            },
            None => DiskView {
                path: self.path@,
                model: content_or(self.model, "Unknown"@),
                serial_number: content_or(self.serial, "Unknown"@),
                firmware_rev: "N/A"@,
                size_bytes: self.size->0->Ok_0,
                drive_type: self.drive_type(),
                sector_size: self.sector_size(),
                supports_crypto_erase: false,
                supports_ata_secure_erase: false,
                supports_enhanced_erase: false,
            },
        }
    }

    /// Whether a description carries what the drive's own identity spells,
    /// where there is one and it is valid UTF-8.
    pub open spec fn spells_out(&self, disk: DiskView) -> bool {
        self.identity matches Some(Some(identity)) ==> {
            &&& identity.reads_as(27, 46, disk.model)
            &&& identity.reads_as(10, 19, disk.serial_number)
            &&& identity.reads_as(23, 26, disk.firmware_rev)
        }
    }

    /// What the device is, once nothing is left to find out.
    pub open spec fn verdict(&self) -> Result<DiskView, ErrorView> {
        match self.kind->0 {
            FileKind::Missing => Err(ErrorView::DeviceNotFound(self.path@)),
            FileKind::Other => Err(ErrorView::NotABlockDevice(self.path@)),
            FileKind::BlockDevice => match (self.opened->0, self.size->0) {
                (Err(m), _) => Err(ErrorView::Io(m@)),
                (_, Err(code)) => Err(
                    ErrorView::IoctlFailed { code, message: "BLKGETSIZE64 failed"@ },
                ),
                _ => Ok(
                    if self.drive_type() is NvmeSSD {
                        self.nvme_disk()
                    } else {
                        self.ata_disk()
                    },
                ),
            },
        }
    }

    /// A probe of the device at `path` about which nothing is known yet.
    pub fn new(path: String) -> (r: DeviceProbe)
        ensures
            r.path@ == path@,
            r.next_probe() == Some(Probe::Kind),
            r.opened is None && r.size is None && r.rotational is None && r.block_size is None,
            r.model is None && r.serial is None && r.firmware is None,
            r.identity is None && r.controller is None,
    {
        DeviceProbe {
            path,
            kind: None,
            opened: None,
            size: None,
            rotational: None,
            block_size: None,
            model: None,
            serial: None,
            firmware: None,
            identity: None,
            controller: None,
        }
    }
}

fn classify(probe: &DeviceProbe) -> (r: DriveType)
    ensures
        r == probe.drive_type(),
{
    let base = strip_partition_suffix(file_name(probe.path.as_str()).as_str());
    if starts_with(base.as_str(), "nvme") {
        DriveType::NvmeSSD
    } else {
        match text_number(&probe.rotational) {
            Some(0) => DriveType::SataSSD,
            _ => DriveType::HDD,
        }
    }
}

fn describe_nvme(probe: &DeviceProbe, size_bytes: u64) -> (r: DiskTarget)
    requires
        probe.size == Some(Ok::<u64, i32>(size_bytes)),
    ensures
        r@ == probe.nvme_disk(),
{
    let supports_crypto_erase = match &probe.controller {
        Some(Some(answer)) => crypto_erase_supported(answer),
        _ => false,
    };
    let sector_size: u32 = match text_number(&probe.block_size) {
        Some(n) => n,
        None => 512,
    };
    DiskTarget {
        path: probe.path.clone(),
        model: text_or(&probe.model, "Unknown NVMe"),
        serial_number: text_or(&probe.serial, "Unknown"),
        firmware_rev: text_or(&probe.firmware, "N/A"),
        size_bytes,
        drive_type: DriveType::NvmeSSD,
        sector_size,
        supports_crypto_erase,
        supports_ata_secure_erase: false,
        supports_enhanced_erase: false,
    }
}

fn describe_ata(probe: &DeviceProbe, size_bytes: u64, drive_type: DriveType) -> (r: DiskTarget)
    requires
        probe.size == Some(Ok::<u64, i32>(size_bytes)),
        probe.identity is Some,
        drive_type == probe.drive_type(),
    ensures
        r@ == probe.ata_disk(),
        probe.spells_out(r@),
{
    let sector_size: u32 = match text_number(&probe.block_size) {
        Some(n) => n,
        None => 512,
    };
    match &probe.identity {
        Some(Some(identity)) => DiskTarget {
            path: probe.path.clone(),
            model: identity.model(),
            serial_number: identity.serial(),
            firmware_rev: identity.firmware(),
            size_bytes,
            drive_type,
            sector_size,
            supports_crypto_erase: false,
            supports_ata_secure_erase: identity.security_supported(),
            supports_enhanced_erase: identity.enhanced_erase_supported(),
        },
        _ => DiskTarget {
            path: probe.path.clone(),
            model: text_or(&probe.model, "Unknown"),
            serial_number: text_or(&probe.serial, "Unknown"),
            firmware_rev: "N/A".to_owned(),
            size_bytes,
            drive_type,
            sector_size,
            supports_crypto_erase: false,
            supports_ata_secure_erase: false,
            supports_enhanced_erase: false,
        },
    }
}

/// The next thing to find out about a device, or its description.
pub fn inspect_device(probe: &DeviceProbe) -> (r: Inspection)
    ensures
        match probe.next_probe() {
            Some(next) => r == Inspection::Need(next),
            None => match r {
                Inspection::Done(Ok(disk)) => probe.verdict() == Ok::<DiskView, ErrorView>(disk@)
                    && (!(probe.drive_type() is NvmeSSD) ==> probe.spells_out(disk@)),
                Inspection::Done(Err(e)) => probe.verdict() == Err::<DiskView, ErrorView>(e@),
                Inspection::Need(_) => false,
            },
        },
{
    match probe.kind {
        None => {
            return Inspection::Need(Probe::Kind);
        },
        Some(FileKind::Missing) => {
            return Inspection::Done(Err(TitanError::DeviceNotFound(probe.path.clone())));
        },
        Some(FileKind::Other) => {
            return Inspection::Done(Err(TitanError::NotABlockDevice(probe.path.clone())));
        },
        Some(FileKind::BlockDevice) => {},
    }
    match &probe.opened {
        None => {
            return Inspection::Need(Probe::Open);
        },
        Some(Err(m)) => {
            return Inspection::Done(Err(TitanError::Io(m.clone())));
        },
        Some(Ok(_)) => {},
    }
    let size_bytes: u64 = match probe.size {
        None => {
            return Inspection::Need(Probe::Size);
        },
        Some(Err(code)) => {
            return Inspection::Done(
                Err(TitanError::IoctlFailed { code, message: "BLKGETSIZE64 failed".to_owned() }),
            );
        },
        Some(Ok(n)) => n,
    };
    if probe.rotational.is_none() {
        return Inspection::Need(Probe::Text(SysfsField::Rotational));
    }
    if probe.block_size.is_none() {
        return Inspection::Need(Probe::Text(SysfsField::BlockSize));
    }
    let drive_type = classify(probe);
    if drive_type == DriveType::NvmeSSD {
        if probe.model.is_none() {
            return Inspection::Need(Probe::Text(SysfsField::Model));
        }
        if probe.serial.is_none() {
            return Inspection::Need(Probe::Text(SysfsField::Serial));
        }
        if probe.firmware.is_none() {
            return Inspection::Need(Probe::Text(SysfsField::Firmware));
        }
        if probe.controller.is_none() {
            return Inspection::Need(Probe::Controller);
        }
        Inspection::Done(Ok(describe_nvme(probe, size_bytes)))
    } else {
        match &probe.identity {
            None => {
                return Inspection::Need(Probe::Identity);
            },
            Some(Some(_)) => {},
            Some(None) => {
                if probe.model.is_none() {
                    return Inspection::Need(Probe::Text(SysfsField::Model));
                }
                if probe.serial.is_none() {
                    return Inspection::Need(Probe::Text(SysfsField::Serial));
                }
            },
        }
        Inspection::Done(Ok(describe_ata(probe, size_bytes, drive_type)))
    }
}

/// Nothing is asked twice, so an inspection comes to its end; and a device is
/// not touched before it is known to be a block device.
pub proof fn law_inspection_asks_once_and_in_order(probe: DeviceProbe)
    ensures
        probe.next_probe() matches Some(next) ==> {
            &&& !probe.knows(next)
            &&& next != Probe::Kind ==> probe.kind == Some(FileKind::BlockDevice)
            &&& next == Probe::Controller ==> probe.drive_type() is NvmeSSD
            &&& next == Probe::Identity ==> !(probe.drive_type() is NvmeSSD)
        },
{
}

// ---------------------------------------------------------------------------
// Laws
// ---------------------------------------------------------------------------

/// A device that is no partition is its own base: an NVMe device whose name
/// does not end in `p` and a number, any other whose name does not end in a
/// digit.
pub proof fn law_device_is_its_own_base(name: Seq<char>)
    requires
        name.len() > 0,
        !is_digit(name.last()),
        has_prefix(name, "nvme"@) ==> name.last() != 'p',
    ensures
        base_device(name) == name,
{
}

/// A namespace of an NVMe controller is its own base, though its name ends in
/// a number.
pub proof fn law_namespace_is_its_own_base(controller: Seq<char>, number: Seq<char>)
    requires
        has_prefix(controller, "nvme"@),
        all_digits(number),
        !is_digit(controller.last()),
        controller.last() != 'p',
    ensures
        base_device(controller + number) == controller + number,
{
    reveal_strlit("nvme");
    lemma_trailing_digits(controller, number);
    assert((controller + number).take(4) =~= controller.take(4));
}

proof fn lemma_nvme_by_name(name: Seq<char>)
    ensures
        has_prefix(base_device(name), "nvme"@) <==> has_prefix(name, "nvme"@),
{
    reveal_strlit("nvme");
    let stem = without_trailing_digits(name);
    lemma_stem_is_prefix(name);
    if has_prefix(name, "nvme"@) {
        assert(name.take(4)[3] == 'e');
        lemma_stem_keeps(name, 4);
        assert(stem.take(4) =~= name.take(4));
        if stem.last() == 'p' {
            assert(stem.len() > 4) by {
                if stem.len() == 4 {
                    assert(stem.last() == name.take(4)[3]);
                }
            }
            assert(stem.drop_last().take(4) =~= stem.take(4));
        }
    } else if has_prefix(stem, "nvme"@) {
        assert(stem.take(4) =~= name.take(4));
    }
}

proof fn lemma_stem_is_prefix(name: Seq<char>)
    ensures
        without_trailing_digits(name).len() <= name.len(),
        without_trailing_digits(name) == name.take(without_trailing_digits(name).len() as int),
    decreases name.len(),
{
    if name.len() > 0 && is_digit(name.last()) {
        lemma_stem_is_prefix(name.drop_last());
        let n = without_trailing_digits(name).len() as int;
        assert(name.drop_last().take(n) =~= name.take(n));
    } else {
        assert(name.take(name.len() as int) =~= name);
    }
}

/// Digits are taken off no further than to the last character that is none.
proof fn lemma_stem_keeps(name: Seq<char>, n: int)
    requires
        0 < n <= name.len(),
        !is_digit(name[n - 1]),
    ensures
        n <= without_trailing_digits(name).len(),
    decreases name.len(),
{
    if is_digit(name.last()) {
        lemma_stem_keeps(name.drop_last(), n);
    }
}

/// The kind of a drive. It is NVMe exactly where its name begins so. Any other
/// is flash exactly where the kernel's file on rotation holds the number 0, and
/// magnetic where it holds another number, or no number, or cannot be read.
pub proof fn law_rotation_tells_the_kind(probe: DeviceProbe, n: nat)
    ensures
        probe.drive_type() is NvmeSSD <==> has_prefix(base_name(probe.path@), "nvme"@),
        !has_prefix(base_name(probe.path@), "nvme"@) ==> {
            &&& probe.drive_type() is SataSSD || probe.drive_type() is HDD
            &&& match probe.rotational {
                Some(Some(text)) => {
                    &&& trimmed(text@) == decimal(n) ==> (probe.drive_type() is SataSSD <==> n
                        == 0)
                    &&& parsed_u32(trimmed(text@)) is None ==> probe.drive_type() is HDD
                },
                _ => probe.drive_type() is HDD,
            }
        },
{
    lemma_nvme_by_name(base_name(probe.path@));
    law_decimal_is_read_back(n, Seq::empty());
}

/// The kernel writes its numbers with a line feed behind them: the rotation of
/// a magnetic disk reads `1` and that of flash reads `0`.
pub proof fn law_rotation_files_of_the_kernel(probe: DeviceProbe, text: String)
    requires
        !has_prefix(base_name(probe.path@), "nvme"@),
        probe.rotational == Some(Some(text)),
    ensures
        text@ == "1\n"@ ==> probe.drive_type() is HDD,
        text@ == "0\n"@ ==> probe.drive_type() is SataSSD,
{
    reveal_strlit("1\n");
    reveal_strlit("0\n");
    let none = Seq::<char>::empty();
    law_trimming_takes_off_white_space(none, seq!['1'], seq!['\n']);
    law_trimming_takes_off_white_space(none, seq!['0'], seq!['\n']);
    assert("1\n"@ =~= none + seq!['1'] + seq!['\n']);
    assert("0\n"@ =~= none + seq!['0'] + seq!['\n']);
    assert(decimal(1) =~= seq!['1']);
    assert(decimal(0) =~= seq!['0']);
    law_rotation_tells_the_kind(probe, 0);
    law_rotation_tells_the_kind(probe, 1);
}

/// The sector size is the number in the kernel's file, and 512 where that
/// cannot be read or holds no number.
pub proof fn law_sector_size_is_the_kernels(probe: DeviceProbe, n: nat)
    ensures
        match probe.block_size {
            Some(Some(text)) => {
                &&& trimmed(text@) == decimal(n) && n <= u32::MAX ==> probe.sector_size() == n
                &&& parsed_u32(trimmed(text@)) is None ==> probe.sector_size() == 512
            },
            _ => probe.sector_size() == 512,
        },
{
    law_decimal_is_read_back(n, Seq::empty());
}

/// An inspection does not end before everything is known that the description
/// of a usable device is made of.
pub proof fn law_inspection_leaves_nothing_out(probe: DeviceProbe)
    requires
        probe.next_probe() is None,
        probe.kind == Some(FileKind::BlockDevice),
        probe.opened matches Some(Ok(_)),
        probe.size matches Some(Ok(_)),
    ensures
        probe.rotational is Some,
        probe.block_size is Some,
        probe.drive_type() is NvmeSSD ==> probe.model is Some && probe.serial is Some
            && probe.firmware is Some && probe.controller is Some,
        !(probe.drive_type() is NvmeSSD) ==> probe.identity is Some && (probe.identity
            == Some(None::<AtaIdentity>) ==> probe.model is Some && probe.serial is Some),
{
}

/// A device that is missing, is no block device, cannot be opened or has no
/// size is refused for that reason, and not asked for anything else. Any other
/// is described.
pub proof fn law_unusable_device_is_refused(probe: DeviceProbe)
    ensures
        probe.kind == Some(FileKind::Missing) ==> probe.next_probe() is None && probe.verdict()
            == Err::<DiskView, ErrorView>(ErrorView::DeviceNotFound(probe.path@)),
        probe.kind == Some(FileKind::Other) ==> probe.next_probe() is None && probe.verdict()
            == Err::<DiskView, ErrorView>(ErrorView::NotABlockDevice(probe.path@)),
        probe.kind == Some(FileKind::BlockDevice) ==> {
            &&& probe.opened matches Some(Err(m)) ==> probe.next_probe() is None
                && probe.verdict() == Err::<DiskView, ErrorView>(ErrorView::Io(m@))
            &&& probe.opened matches Some(Ok(_)) ==> {
                &&& probe.size matches Some(Err(code)) ==> probe.next_probe() is None
                    && probe.verdict() == Err::<DiskView, ErrorView>(
                    ErrorView::IoctlFailed { code, message: "BLKGETSIZE64 failed"@ },
                )
                &&& probe.size matches Some(Ok(_)) ==> probe.verdict() is Ok
            }
        },
{
}

/// A description carries what was found out: path, size, kind and sector size
/// of every drive; model, serial number and firmware of an NVMe drive by sysfs,
/// of another by its own identity, or else by sysfs. What could not be found
/// out has its stand-in.
pub proof fn law_description_carries_what_was_found(probe: DeviceProbe, disk: DiskView)
    requires
        probe.next_probe() is None,
        probe.verdict() == Ok::<DiskView, ErrorView>(disk),
    ensures
        disk.path == probe.path@,
        probe.size == Some(Ok::<u64, i32>(disk.size_bytes)),
        disk.drive_type == probe.drive_type(),
        disk.sector_size == probe.sector_size(),
        disk.drive_type is NvmeSSD ==> {
            &&& disk.model == (match probe.model {
                Some(Some(text)) => trimmed(text@),
                _ => "Unknown NVMe"@,
            })
            &&& disk.serial_number == (match probe.serial {
                Some(Some(text)) => trimmed(text@),
                _ => "Unknown"@,
            })
            &&& disk.firmware_rev == (match probe.firmware {
                Some(Some(text)) => trimmed(text@),
                _ => "N/A"@,
            })
        },
        !(disk.drive_type is NvmeSSD) ==> (match probe.identity {
            Some(Some(identity)) => {
                &&& disk.model == identity.field(27, 46)
                &&& disk.serial_number == identity.field(10, 19)
                &&& disk.firmware_rev == identity.field(23, 26)
            },
            _ => {
                &&& disk.model == (match probe.model {
                    Some(Some(text)) => trimmed(text@),
                    _ => "Unknown"@,
                })
                &&& disk.serial_number == (match probe.serial {
                    Some(Some(text)) => trimmed(text@),
                    _ => "Unknown"@,
                })
                &&& disk.firmware_rev == "N/A"@
            },
        }),
{
}

/// A description claims an erase command only where the drive itself reports
/// it: cryptographic erase by bit 2 of byte 524 of an NVMe controller's answer,
/// ATA Secure Erase by bit 1 of word 82, its enhanced mode by bit 5 of word 128.
pub proof fn law_erase_is_claimed_where_reported(probe: DeviceProbe, disk: DiskView)
    requires
        probe.next_probe() is None,
        probe.verdict() == Ok::<DiskView, ErrorView>(disk),
    ensures
        disk.supports_crypto_erase <==> disk.drive_type is NvmeSSD && (probe.controller matches
            Some(Some(answer)) && (answer@[524] / 4) % 2 == 1),
        disk.supports_ata_secure_erase <==> !(disk.drive_type is NvmeSSD) && (
        probe.identity matches Some(Some(identity)) && (identity.words@[82] / 2) % 2 == 1),
        disk.supports_enhanced_erase <==> !(disk.drive_type is NvmeSSD) && (
        probe.identity matches Some(Some(identity)) && (identity.words@[128] / 32) % 2 == 1),
{
    if let Some(Some(answer)) = probe.controller {
        let b = answer@[524];
        assert((b & 0x04 != 0) <==> (b / 4) % 2 == 1) by (bit_vector);
    }
    if let Some(Some(identity)) = probe.identity {
        let v = identity.words@[82];
        let w = identity.words@[128];
        assert((v & 0x0002 != 0) <==> (v / 2) % 2 == 1) by (bit_vector);
        assert((w & 0x0020 != 0) <==> (w / 32) % 2 == 1) by (bit_vector);
    }
}

} // verus!
