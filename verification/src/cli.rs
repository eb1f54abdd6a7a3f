//! The command line: its commands, the consent handshake and the reports.

use vstd::prelude::*;
use vstd::string::StringExecFns;

use crate::layout::{can_clip, clip, clip_fits, clipped, pad, padded};
use crate::numerals::{decimal, decimal_text};
use crate::text::{
    all_white, concat2, has_prefix, is_white_space, law_trimming_takes_off_white_space, same_text,
    trim, trimmed,
};
use crate::types::{
    CertificateView, DiskTarget, DiskView, SanitizationCertificate, SanitizationStatus,
    WipeAlgorithm,
};

verus! {

// ---------------------------------------------------------------------------
// Commands
// ---------------------------------------------------------------------------

/// A parsed command line.
#[derive(Debug)]
pub struct Cli {
    pub command: Commands,
    /// Log in detail.
    pub verbose: bool,
}

/// What the operator asks for.
#[derive(Debug)]
pub enum Commands {
    /// List all block devices.
    List,
    /// Wipe a device.
    Wipe {
        /// The device's path.
        device: String,
        /// The algorithm; the recommended one where there is none.
        algorithm: Option<WipeAlgorithm>,
        /// Leave out the verification.
        skip_verify: bool,
        /// Go through the run without writing anything.
        dry_run: bool,
        /// The file that the certificate is written to.
        output: Option<String>,
        /// Leave out the consent handshake.
        force: bool,
    },
    /// Describe a device.
    Inspect { device: String },
}

// ---------------------------------------------------------------------------
// Consent
// ---------------------------------------------------------------------------

/// What the operator has to type: the phrase is the device's own, by the first
/// eight bytes of its serial number.
pub open spec fn required_phrase(disk: DiskView) -> Seq<char> {
    "WIPE-"@ + clipped(disk.serial_number, 8)
}

/// Whether the operator's input is consent to wipe a disk. White space around
/// it does not count. Where nothing could be read there is none.
pub open spec fn is_consent(disk: DiskView, input: Option<Seq<char>>) -> bool {
    match input {
        Some(line) => trimmed(line) == required_phrase(disk),
        None => false,
    }
}

/// What the operator has to type.
pub fn consent_phrase(target: &DiskTarget) -> (r: String)
    requires
        can_clip(target@.serial_number, 8),
    ensures
        r@ == required_phrase(target@),
{
    concat2("WIPE-", clip(target.serial_number.as_str(), 8).as_str())
}

/// Whether the line that the operator typed, where one could be read, is
/// consent to wipe the target.
pub fn run_consent_handshake(target: &DiskTarget, input: Option<&str>) -> (r: bool)
    requires
        can_clip(target@.serial_number, 8),
    ensures
        input matches Some(line) ==> r == is_consent(target@, Some(line@)),
        input is None ==> r == is_consent(target@, None),
{
    match input {
        Some(line) => same_text(trim(line).as_str(), consent_phrase(target).as_str()),
        None => false,
    }
}

/// Consent is never anything but the device's phrase: an input that does not
/// begin with `WIPE-` behind its white space, such as a plain yes, is none.
pub proof fn law_generic_answer_is_no_consent(disk: DiskView, line: Seq<char>)
    requires
        !has_prefix(trimmed(line), "WIPE-"@),
    ensures
        !is_consent(disk, Some(line)),
{
    let phrase = required_phrase(disk);
    assert(phrase.take("WIPE-"@.len() as int) =~= "WIPE-"@);
}

/// Consent to wipe one disk is no consent to wipe another with a serial number
/// that differs in its first eight bytes.
pub proof fn law_consent_is_for_one_serial(a: DiskView, b: DiskView, line: Seq<char>)
    requires
        clipped(a.serial_number, 8) != clipped(b.serial_number, 8),
        is_consent(a, Some(line)),
    ensures
        !is_consent(b, Some(line)),
{
    let n = "WIPE-"@.len() as int;
    assert(required_phrase(a).skip(n) =~= clipped(a.serial_number, 8));
    assert(required_phrase(b).skip(n) =~= clipped(b.serial_number, 8));
}

// ---------------------------------------------------------------------------
// Reports
// ---------------------------------------------------------------------------

/// A row of a box: what opens it, a cell of a given width, and its border.
pub open spec fn row(opening: Seq<char>, cell: Seq<char>, width: nat) -> Seq<char> {
    opening + padded(cell, width) + " ║\n"@
}

/// Adds a row to a box.
fn add_row(out: &mut String, opening: &str, cell: &str, width: usize)
    ensures
        final(out)@ == old(out)@ + row(opening@, cell@, width as nat),
{
    let ghost before = out@;
    out.append(opening);
    out.append(pad(cell, width).as_str());
    out.append(" ║\n");
    proof {
        assert(out@ =~= before + row(opening@, cell@, width as nat));
    }
}

/// The size of a disk; `gib` is its number of GiB.
pub open spec fn size_cell(disk: DiskView, gib: Seq<char>) -> Seq<char> {
    gib + " GiB ("@ + decimal(disk.size_bytes as nat) + " bytes)"@
}

fn size_text(target: &DiskTarget, gib: &str) -> (r: String)
    ensures
        r@ == size_cell(target@, gib@),
{
    let mut out = concat2(gib, " GiB (");
    out.append(decimal_text(target.size_bytes).as_str());
    out.append(" bytes)");
    out
}

/// The warning that precedes the consent handshake.
pub open spec fn consent_banner_text(disk: DiskView, gib: Seq<char>) -> Seq<char> {
    "\n"@
        + "╔══════════════════════════════════════════════════════════════════╗\n"@
        + "║                  ⚠  DESTRUCTIVE OPERATION WARNING  ⚠            ║\n"@
        + "╠══════════════════════════════════════════════════════════════════╣\n"@
        + row("║  Target:   "@, disk.path, 54)
        + row("║  Model:    "@, clipped(disk.model, 54), 54)
        + row("║  Serial:   "@, clipped(disk.serial_number, 54), 54)
        + row("║  Size:     "@, size_cell(disk, gib), 54)
        + row("║  Type:     "@, disk.drive_type.text(), 54)
        + "╠══════════════════════════════════════════════════════════════════╣\n"@
        + "║  ALL DATA ON THIS DEVICE WILL BE PERMANENTLY DESTROYED.         ║\n"@
        + "║  This operation CANNOT be undone.                               ║\n"@
        + "╚══════════════════════════════════════════════════════════════════╝\n"@
        + "\n"@
        + "  To confirm, type exactly:  "@
        + required_phrase(disk)
        + "\n"@
        + "  (or type anything else to abort)\n"@
        + "\n"@
        + "  > "@
}

/// Whether the texts of a disk can be cut for the warning.
pub open spec fn banner_fits(disk: DiskView) -> bool {
    can_clip(disk.model, 54) && can_clip(disk.serial_number, 54) && can_clip(disk.serial_number, 8)
}

/// Whether `consent_banner` can cut the texts of a disk.
pub fn can_show_banner(target: &DiskTarget) -> (r: bool)
    ensures
        r == banner_fits(target@),
{
    clip_fits(target.model.as_str(), 54) && clip_fits(target.serial_number.as_str(), 54)
        && clip_fits(target.serial_number.as_str(), 8)
}

/// The warning that precedes the consent handshake; `gib` is the number of GiB
/// with two decimals.
pub fn consent_banner(target: &DiskTarget, gib: &str) -> (r: String)
    requires
        banner_fits(target@),
    ensures
        r@ == consent_banner_text(target@, gib@),
{
    let mut out = "\n".to_owned();
    out.append("╔══════════════════════════════════════════════════════════════════╗\n");
    out.append("║                  ⚠  DESTRUCTIVE OPERATION WARNING  ⚠            ║\n");
    out.append("╠══════════════════════════════════════════════════════════════════╣\n");
    add_row(&mut out, "║  Target:   ", target.path.as_str(), 54);
    add_row(&mut out, "║  Model:    ", clip(target.model.as_str(), 54).as_str(), 54);
    add_row(&mut out, "║  Serial:   ", clip(target.serial_number.as_str(), 54).as_str(), 54);
    add_row(&mut out, "║  Size:     ", size_text(target, gib).as_str(), 54);
    add_row(&mut out, "║  Type:     ", target.drive_type.display().as_str(), 54);
    out.append("╠══════════════════════════════════════════════════════════════════╣\n");
    out.append("║  ALL DATA ON THIS DEVICE WILL BE PERMANENTLY DESTROYED.         ║\n");
    out.append("║  This operation CANNOT be undone.                               ║\n");
    out.append("╚══════════════════════════════════════════════════════════════════╝\n");
    out.append("\n");
    out.append("  To confirm, type exactly:  ");
    out.append(consent_phrase(target).as_str());
    out.append("\n");
    out.append("  (or type anything else to abort)\n");
    out.append("\n");
    out.append("  > ");
    out
}

/// The answer to the operator's input.
pub fn consent_answer(granted: bool) -> (r: &'static str)
    ensures
        r@ == if granted {
            "\n  Consent confirmed. Starting sanitization...\n\n"@
        } else {
            "\n  ✗ Input mismatch. Aborting.\n"@
        },
{
    if granted {
        "\n  Consent confirmed. Starting sanitization...\n\n"
    } else {
        "\n  ✗ Input mismatch. Aborting.\n"
    }
}

/// Whether a drive reports an erase command.
pub open spec fn support_cell(supported: bool) -> Seq<char> {
    if supported {
        "Supported"@
    } else {
        "Unsupported / Unknown"@
    }
}

fn support_text(supported: bool) -> (r: &'static str)
    ensures
        r@ == support_cell(supported),
{
    if supported {
        "Supported"
    } else {
        "Unsupported / Unknown"
    }
}

/// The description of one device.
pub open spec fn device_inspect_text(disk: DiskView, gib: Seq<char>) -> Seq<char> {
    "\n"@
        + "  Device Path      : "@
        + disk.path
        + "\n"@
        + "  Model            : "@
        + disk.model
        + "\n"@
        + "  Serial Number    : "@
        + disk.serial_number
        + "\n"@
        + "  Firmware Rev     : "@
        + disk.firmware_rev
        + "\n"@
        + "  Size             : "@
        + size_cell(disk, gib)
        + "\n"@
        + "  Drive Type       : "@
        + disk.drive_type.text()
        + "\n"@
        + "  Sector Size      : "@
        + decimal(disk.sector_size as nat)
        + " bytes\n"@
        + "  NVMe Crypto Erase: "@
        + support_cell(disk.supports_crypto_erase)
        + "\n"@
        + "  ATA Secure Erase : "@
        + support_cell(disk.supports_ata_secure_erase)
        + "\n"@
        + "  Recommended Algo : "@
        + disk.recommended().text()
        + "\n"@
        + "\n"@
}

/// The description of one device; `gib` is the number of GiB with three
/// decimals.
pub fn print_device_inspect(d: &DiskTarget, gib: &str) -> (r: String)
    ensures
        r@ == device_inspect_text(d@, gib@),
{
    let mut out = "\n".to_owned();
    out.append("  Device Path      : ");
    out.append(d.path.as_str());
    out.append("\n");
    out.append("  Model            : ");
    out.append(d.model.as_str());
    out.append("\n");
    out.append("  Serial Number    : ");
    out.append(d.serial_number.as_str());
    out.append("\n");
    out.append("  Firmware Rev     : ");
    out.append(d.firmware_rev.as_str());
    out.append("\n");
    out.append("  Size             : ");
    out.append(size_text(d, gib).as_str());
    out.append("\n");
    out.append("  Drive Type       : ");
    out.append(d.drive_type.display().as_str());
    out.append("\n");
    out.append("  Sector Size      : ");
    out.append(decimal_text(d.sector_size as u64).as_str());
    out.append(" bytes\n");
    out.append("  NVMe Crypto Erase: ");
    out.append(support_text(d.supports_crypto_erase));
    out.append("\n");
    out.append("  ATA Secure Erase : ");
    out.append(support_text(d.supports_ata_secure_erase));
    out.append("\n");
    out.append("  Recommended Algo : ");
    out.append(d.recommended_algorithm().display().as_str());
    out.append("\n");
    out.append("\n");
    out
}

/// The outcome of a run as the certificate report shows it.
pub open spec fn status_cell(status: SanitizationStatus) -> Seq<char> {
    if status is Success {
        "✓ SUCCESS"@
    } else {
        "✗ PARTIAL/FAILED"@
    }
}

fn status_text(status: SanitizationStatus) -> (r: &'static str)
    ensures
        r@ == status_cell(status),
{
    match status {
        SanitizationStatus::Success => "✓ SUCCESS",
        _ => "✗ PARTIAL/FAILED",
    }
}

/// The certificate as the operator sees it.
pub open spec fn certificate_text(c: CertificateView) -> Seq<char> {
    "\n"@
        + "╔══════════════════════════════════════════════════════════════════╗\n"@
        + "║              SANITIZATION AUDIT CERTIFICATE                     ║\n"@
        + "╠══════════════════════════════════════════════════════════════════╣\n"@
        + row("║  ID:        "@, clipped(c.certificate_id, 54), 54)
        + row("║  Started:   "@, clipped(c.timestamp_start, 54), 54)
        + row("║  Completed: "@, clipped(c.timestamp_end, 54), 54)
        + "╠══════════════════════════════════════════════════════════════════╣\n"@
        + row("║  Device:    "@, clipped(c.device_path, 54), 54)
        + row("║  Model:     "@, clipped(c.model, 54), 54)
        + row("║  Serial:    "@, clipped(c.serial, 54), 54)
        + "╠══════════════════════════════════════════════════════════════════╣\n"@
        + row("║  Algorithm: "@, clipped(c.algorithm_used, 54), 54)
        + row("║  Passes:    "@, decimal(c.passes_completed as nat), 54)
        + "╠══════════════════════════════════════════════════════════════════╣\n"@
        + row("║  Pre-wipe BLAKE3:  "@, clipped(c.pre_wipe_hash, 47), 47)
        + row("║  Post-wipe BLAKE3: "@, clipped(c.post_wipe_hash, 47), 47)
        + row("║  Verification:     "@, c.verification_status.text(), 47)
        + "╠══════════════════════════════════════════════════════════════════╣\n"@
        + row("║  Status:    "@, status_cell(c.status), 54)
        + "╚══════════════════════════════════════════════════════════════════╝\n"@
        + "\n"@
}

/// Whether the texts of a certificate can be cut for its report.
pub open spec fn certificate_fits(c: CertificateView) -> bool {
    can_clip(c.certificate_id, 54) && can_clip(c.timestamp_start, 54) && can_clip(
        c.timestamp_end,
        54,
    ) && can_clip(c.device_path, 54) && can_clip(c.model, 54) && can_clip(c.serial, 54) && can_clip(
        c.algorithm_used,
        54,
    ) && can_clip(c.pre_wipe_hash, 47) && can_clip(c.post_wipe_hash, 47)
}

/// Whether `print_certificate` can cut the texts of a certificate.
pub fn can_print_certificate(cert: &SanitizationCertificate) -> (r: bool)
    ensures
        r == certificate_fits(cert@),
{
    clip_fits(cert.certificate_id.as_str(), 54) && clip_fits(cert.timestamp_start.as_str(), 54)
        && clip_fits(cert.timestamp_end.as_str(), 54) && clip_fits(cert.device_path.as_str(), 54)
        && clip_fits(cert.model.as_str(), 54) && clip_fits(cert.serial.as_str(), 54) && clip_fits(
        cert.algorithm_used.as_str(),
        54,
    ) && clip_fits(cert.pre_wipe_hash.as_str(), 47) && clip_fits(cert.post_wipe_hash.as_str(), 47)
}

/// The certificate as the operator sees it.
pub fn print_certificate(cert: &SanitizationCertificate) -> (r: String)
    requires
        certificate_fits(cert@),
    ensures
        r@ == certificate_text(cert@),
{
    let mut out = "\n".to_owned();
    out.append("╔══════════════════════════════════════════════════════════════════╗\n");
    out.append("║              SANITIZATION AUDIT CERTIFICATE                     ║\n");
    out.append("╠══════════════════════════════════════════════════════════════════╣\n");
    add_row(&mut out, "║  ID:        ", clip(cert.certificate_id.as_str(), 54).as_str(), 54);
    add_row(&mut out, "║  Started:   ", clip(cert.timestamp_start.as_str(), 54).as_str(), 54);
    add_row(&mut out, "║  Completed: ", clip(cert.timestamp_end.as_str(), 54).as_str(), 54);
    out.append("╠══════════════════════════════════════════════════════════════════╣\n");
    add_row(&mut out, "║  Device:    ", clip(cert.device_path.as_str(), 54).as_str(), 54);
    add_row(&mut out, "║  Model:     ", clip(cert.model.as_str(), 54).as_str(), 54);
    add_row(&mut out, "║  Serial:    ", clip(cert.serial.as_str(), 54).as_str(), 54);
    out.append("╠══════════════════════════════════════════════════════════════════╣\n");
    add_row(&mut out, "║  Algorithm: ", clip(cert.algorithm_used.as_str(), 54).as_str(), 54);
    add_row(&mut out, "║  Passes:    ", decimal_text(cert.passes_completed as u64).as_str(), 54);
    out.append("╠══════════════════════════════════════════════════════════════════╣\n");
    add_row(&mut out, "║  Pre-wipe BLAKE3:  ", clip(cert.pre_wipe_hash.as_str(), 47).as_str(), 47);
    add_row(&mut out, "║  Post-wipe BLAKE3: ", clip(cert.post_wipe_hash.as_str(), 47).as_str(), 47);
    add_row(&mut out, "║  Verification:     ", cert.verification_status.display().as_str(), 47);
    out.append("╠══════════════════════════════════════════════════════════════════╣\n");
    add_row(&mut out, "║  Status:    ", status_text(cert.status), 54);
    out.append("╚══════════════════════════════════════════════════════════════════╝\n");
    out.append("\n");
    out
}

// ---------------------------------------------------------------------------
// Device table
// ---------------------------------------------------------------------------

/// A horizontal rule.
pub open spec fn rule(width: nat) -> Seq<char> {
    Seq::new(width, |i: int| '─')
}

fn rule_text(width: usize) -> (r: String)
    ensures
        r@ == rule(width as nat),
{
    let mut out = String::new();
    let mut n: usize = 0;
    proof {
        assert(out@ =~= rule(0));
    }
    while n < width
        invariant
            n <= width,
            out@ == rule(n as nat),
        decreases width - n,
    {
        out.push('─');
        n = n + 1;
        proof {
            assert(out@ =~= rule(n as nat));
        }
    }
    out
}

/// A line of the device table.
pub open spec fn table_line(
    device: Seq<char>,
    model: Seq<char>,
    serial: Seq<char>,
    size: Seq<char>,
    kind: Seq<char>,
) -> Seq<char> {
    padded(device, 20) + " "@ + padded(model, 35) + " "@ + padded(serial, 15) + " "@ + padded(
        size,
        12,
    ) + " "@ + padded(kind, 10) + "\n"@
}

fn table_line_text(device: &str, model: &str, serial: &str, size: &str, kind: &str) -> (r: String)
    ensures
        r@ == table_line(device@, model@, serial@, size@, kind@),
{
    let mut out = pad(device, 20);
    out.append(" ");
    out.append(pad(model, 35).as_str());
    out.append(" ");
    out.append(pad(serial, 15).as_str());
    out.append(" ");
    out.append(pad(size, 12).as_str());
    out.append(" ");
    out.append(pad(kind, 10).as_str());
    out.append("\n");
    out
}

/// A disk that is listed, with its number of GiB to one decimal.
#[derive(Debug)]
pub struct ListedDisk {
    pub disk: DiskTarget,
    pub gib: String,
}

impl ListedDisk {
    /// The line of the disk.
    pub open spec fn line(self) -> Seq<char> {
        table_line(
            self.disk@.path,
            clipped(self.disk@.model, 34),
            clipped(self.disk@.serial_number, 14),
            self.gib@ + " GiB"@,
            self.disk@.drive_type.name_text(),
        )
    }

    /// Whether the texts of the disk can be cut for the table.
    pub open spec fn fits(self) -> bool {
        can_clip(self.disk@.model, 34) && can_clip(self.disk@.serial_number, 14)
    }

    /// Whether `print_device_table` can cut the texts of the disk.
    pub fn can_print(&self) -> (r: bool)
        ensures
            r == self.fits(),
    {
        clip_fits(self.disk.model.as_str(), 34) && clip_fits(self.disk.serial_number.as_str(), 14)
    }
}

/// The lines of a list of disks.
pub open spec fn table_body(disks: Seq<ListedDisk>) -> Seq<char>
    decreases disks.len(),
{
    if disks.len() == 0 {
        Seq::empty()
    } else {
        table_body(disks.drop_last()) + disks.last().line()
    }
}

/// The device table.
pub open spec fn device_table_text(disks: Seq<ListedDisk>) -> Seq<char> {
    "\n"@ + table_line("DEVICE"@, "MODEL"@, "SERIAL"@, "SIZE"@, "TYPE"@) + rule(95) + "\n"@
        + table_body(disks) + "\n"@
}

/// The device table.
pub fn print_device_table(devices: &Vec<ListedDisk>) -> (r: String)
    requires
        forall|i: int| 0 <= i < devices@.len() ==> (#[trigger] devices@[i]).fits(),
    ensures
        r@ == device_table_text(devices@),
{
    let mut out = "\n".to_owned();
    out.append(table_line_text("DEVICE", "MODEL", "SERIAL", "SIZE", "TYPE").as_str());
    out.append(rule_text(95).as_str());
    out.append("\n");
    let ghost head = out@;
    let mut i: usize = 0;
    proof {
        assert(head + table_body(devices@.take(0)) =~= head);
    }
    while i < devices.len()
        invariant
            i <= devices@.len(),
            forall|k: int| 0 <= k < devices@.len() ==> (#[trigger] devices@[k]).fits(),
            out@ == head + table_body(devices@.take(i as int)),
        decreases devices@.len() - i,
    {
        let d = &devices[i];
        proof {
            assert(d.fits());
            assert(devices@.take(i + 1).drop_last() =~= devices@.take(i as int));
        }
        let model = clip(d.disk.model.as_str(), 34);
        let serial = clip(d.disk.serial_number.as_str(), 14);
        let size = concat2(d.gib.as_str(), " GiB");
        let kind = d.disk.drive_type.name();
        let line = table_line_text(
            d.disk.path.as_str(),
            model.as_str(),
            serial.as_str(),
            size.as_str(),
            kind.as_str(),
        );
        out.append(line.as_str());
        proof {
            assert(out@ =~= head + table_body(devices@.take(i + 1)));
        }
        i = i + 1;
    }
    proof {
        assert(devices@.take(i as int) =~= devices@);
    }
    out.append("\n");
    out
}

// ---------------------------------------------------------------------------
// Laws
// ---------------------------------------------------------------------------

/// The device's phrase is consent, with white space around it or without:
/// `WIPE-` and the first eight bytes of the serial number, all of it where it
/// has no more.
pub proof fn law_phrase_is_consent(
    disk: DiskView,
    serial: Seq<char>,
    left: Seq<char>,
    right: Seq<char>,
)
    requires
        serial == clipped(disk.serial_number, 8),
        serial.len() > 0 ==> !is_white_space(serial.last()),
        all_white(left),
        all_white(right),
    ensures
        is_consent(disk, Some(left + ("WIPE-"@ + serial) + right)),
        !is_consent(disk, None),
{
    reveal_strlit("WIPE-");
    let phrase = "WIPE-"@ + serial;
    assert(phrase[0] == 'W');
    assert(phrase.last() == if serial.len() > 0 {
        serial.last()
    } else {
        '-'
    });
    law_trimming_takes_off_white_space(left, phrase, right);
}

/// Whether a text holds another as a part.
pub open spec fn holds_part(whole: Seq<char>, part: Seq<char>) -> bool {
    exists|at: int| #[trigger] stands_at(whole, part, at)
}

/// Whether a text holds another from position `at` on.
pub open spec fn stands_at(whole: Seq<char>, part: Seq<char>, at: int) -> bool {
    0 <= at && at + part.len() <= whole.len() && whole.subrange(at, at + part.len()) == part
}

spec fn holds_parts(whole: Seq<char>, parts: Seq<Seq<char>>) -> bool {
    forall|k: int| 0 <= k < parts.len() ==> holds_part(whole, #[trigger] parts[k])
}

proof fn lemma_first_part(whole: Seq<char>)
    ensures
        holds_parts(whole, seq![whole]),
{
    assert(whole.subrange(0, whole.len() as int) =~= whole);
    assert(stands_at(whole, whole, 0));
}

proof fn lemma_one_more_part(whole: Seq<char>, next: Seq<char>, parts: Seq<Seq<char>>)
    requires
        holds_parts(whole, parts),
    ensures
        holds_parts(whole + next, parts.push(next)),
{
    let longer = whole + next;
    assert forall|k: int| 0 <= k < parts.push(next).len() implies holds_part(
        longer,
        #[trigger] parts.push(next)[k],
    ) by {
        if k < parts.len() {
            let part = parts[k];
            let at = choose|at: int| #[trigger] stands_at(whole, part, at);
            assert(longer.subrange(at, at + part.len()) =~= whole.subrange(at, at + part.len()));
            assert(stands_at(longer, part, at));
        } else {
            let at = whole.len() as int;
            assert(longer.subrange(at, at + next.len()) =~= next);
            assert(stands_at(longer, next, at));
        }
    }
}

proof fn lemma_three_more_parts(
    whole: Seq<char>,
    a: Seq<char>,
    b: Seq<char>,
    c: Seq<char>,
    parts: Seq<Seq<char>>,
)
    requires
        holds_parts(whole, parts),
    ensures
        holds_parts(whole + a + b + c, parts.push(a + b + c)),
{
    lemma_one_more_part(whole, a + b + c, parts);
    assert(whole + (a + b + c) =~= whole + a + b + c);
}

/// A row of a box is what opens it, the cell with blanks behind it, and the
/// border. The size is shown in GiB and in bytes.
pub proof fn law_rows_and_cells(
    opening: Seq<char>,
    cell: Seq<char>,
    width: nat,
    disk: DiskView,
    gib: Seq<char>,
)
    ensures
        row(opening, cell, width) == opening + padded(cell, width) + " ║\n"@,
        size_cell(disk, gib) == gib + " GiB ("@ + decimal(disk.size_bytes as nat) + " bytes)"@,
{
}

/// The warning names the target by its path, model, serial number, size and
/// kind, and asks for the phrase of this target.
pub proof fn law_warning_names_the_target(disk: DiskView, gib: Seq<char>)
    ensures
        holds_part(consent_banner_text(disk, gib), row("║  Target:   "@, disk.path, 54)),
        holds_part(consent_banner_text(disk, gib), row("║  Model:    "@, clipped(disk.model, 54), 54)),
        holds_part(consent_banner_text(disk, gib), row("║  Serial:   "@, clipped(disk.serial_number, 54), 54)),
        holds_part(consent_banner_text(disk, gib), row("║  Size:     "@, size_cell(disk, gib), 54)),
        holds_part(consent_banner_text(disk, gib), row("║  Type:     "@, disk.drive_type.text(), 54)),
        holds_part(consent_banner_text(disk, gib), "  To confirm, type exactly:  "@ + required_phrase(disk) + "\n"@),
{
    let t0 = "\n"@;
    let p0 = seq![t0];
    lemma_first_part(t0);
    lemma_one_more_part(t0, "╔══════════════════════════════════════════════════════════════════╗\n"@, p0);
    let t1 = t0 + "╔══════════════════════════════════════════════════════════════════╗\n"@;
    let p1 = p0.push("╔══════════════════════════════════════════════════════════════════╗\n"@);
    lemma_one_more_part(t1, "║                  ⚠  DESTRUCTIVE OPERATION WARNING  ⚠            ║\n"@, p1);
    let t2 = t1 + "║                  ⚠  DESTRUCTIVE OPERATION WARNING  ⚠            ║\n"@;
    let p2 = p1.push("║                  ⚠  DESTRUCTIVE OPERATION WARNING  ⚠            ║\n"@);
    lemma_one_more_part(t2, "╠══════════════════════════════════════════════════════════════════╣\n"@, p2);
    let t3 = t2 + "╠══════════════════════════════════════════════════════════════════╣\n"@;
    let p3 = p2.push("╠══════════════════════════════════════════════════════════════════╣\n"@);
    lemma_one_more_part(t3, row("║  Target:   "@, disk.path, 54), p3);
    let t4 = t3 + row("║  Target:   "@, disk.path, 54);
    let p4 = p3.push(row("║  Target:   "@, disk.path, 54));
    lemma_one_more_part(t4, row("║  Model:    "@, clipped(disk.model, 54), 54), p4);
    let t5 = t4 + row("║  Model:    "@, clipped(disk.model, 54), 54);
    let p5 = p4.push(row("║  Model:    "@, clipped(disk.model, 54), 54));
    lemma_one_more_part(t5, row("║  Serial:   "@, clipped(disk.serial_number, 54), 54), p5);
    let t6 = t5 + row("║  Serial:   "@, clipped(disk.serial_number, 54), 54);
    let p6 = p5.push(row("║  Serial:   "@, clipped(disk.serial_number, 54), 54));
    lemma_one_more_part(t6, row("║  Size:     "@, size_cell(disk, gib), 54), p6);
    let t7 = t6 + row("║  Size:     "@, size_cell(disk, gib), 54);
    let p7 = p6.push(row("║  Size:     "@, size_cell(disk, gib), 54));
    lemma_one_more_part(t7, row("║  Type:     "@, disk.drive_type.text(), 54), p7);
    let t8 = t7 + row("║  Type:     "@, disk.drive_type.text(), 54);
    let p8 = p7.push(row("║  Type:     "@, disk.drive_type.text(), 54));
    lemma_one_more_part(t8, "╠══════════════════════════════════════════════════════════════════╣\n"@, p8);
    let t9 = t8 + "╠══════════════════════════════════════════════════════════════════╣\n"@;
    let p9 = p8.push("╠══════════════════════════════════════════════════════════════════╣\n"@);
    lemma_one_more_part(t9, "║  ALL DATA ON THIS DEVICE WILL BE PERMANENTLY DESTROYED.         ║\n"@, p9);
    let t10 = t9 + "║  ALL DATA ON THIS DEVICE WILL BE PERMANENTLY DESTROYED.         ║\n"@;
    let p10 = p9.push("║  ALL DATA ON THIS DEVICE WILL BE PERMANENTLY DESTROYED.         ║\n"@);
    lemma_one_more_part(t10, "║  This operation CANNOT be undone.                               ║\n"@, p10);
    let t11 = t10 + "║  This operation CANNOT be undone.                               ║\n"@;
    let p11 = p10.push("║  This operation CANNOT be undone.                               ║\n"@);
    lemma_one_more_part(t11, "╚══════════════════════════════════════════════════════════════════╝\n"@, p11);
    let t12 = t11 + "╚══════════════════════════════════════════════════════════════════╝\n"@;
    let p12 = p11.push("╚══════════════════════════════════════════════════════════════════╝\n"@);
    lemma_one_more_part(t12, "\n"@, p12);
    let t13 = t12 + "\n"@;
    let p13 = p12.push("\n"@);
    lemma_three_more_parts(t13, "  To confirm, type exactly:  "@, required_phrase(disk), "\n"@, p13);
    let t14 = t13 + "  To confirm, type exactly:  "@ + required_phrase(disk) + "\n"@;
    let p14 = p13.push("  To confirm, type exactly:  "@ + required_phrase(disk) + "\n"@);
    lemma_one_more_part(t14, "  (or type anything else to abort)\n"@, p14);
    let t15 = t14 + "  (or type anything else to abort)\n"@;
    let p15 = p14.push("  (or type anything else to abort)\n"@);
    lemma_one_more_part(t15, "\n"@, p15);
    let t16 = t15 + "\n"@;
    let p16 = p15.push("\n"@);
    lemma_one_more_part(t16, "  > "@, p16);
    let t17 = t16 + "  > "@;
    let p17 = p16.push("  > "@);
    assert(p17[4] == row("║  Target:   "@, disk.path, 54));
    assert(p17[5] == row("║  Model:    "@, clipped(disk.model, 54), 54));
    assert(p17[6] == row("║  Serial:   "@, clipped(disk.serial_number, 54), 54));
    assert(p17[7] == row("║  Size:     "@, size_cell(disk, gib), 54));
    assert(p17[8] == row("║  Type:     "@, disk.drive_type.text(), 54));
    assert(p17[14] == "  To confirm, type exactly:  "@ + required_phrase(disk) + "\n"@);
    assert(t17 == consent_banner_text(disk, gib));
}

/// The report of a certificate shows its number, times, device, algorithm,
/// passes, fingerprints and verification, and whether the run was a success.
pub proof fn law_report_shows_the_certificate(c: CertificateView)
    ensures
        holds_part(certificate_text(c), row("║  ID:        "@, clipped(c.certificate_id, 54), 54)),
        holds_part(certificate_text(c), row("║  Started:   "@, clipped(c.timestamp_start, 54), 54)),
        holds_part(certificate_text(c), row("║  Completed: "@, clipped(c.timestamp_end, 54), 54)),
        holds_part(certificate_text(c), row("║  Device:    "@, clipped(c.device_path, 54), 54)),
        holds_part(certificate_text(c), row("║  Model:     "@, clipped(c.model, 54), 54)),
        holds_part(certificate_text(c), row("║  Serial:    "@, clipped(c.serial, 54), 54)),
        holds_part(certificate_text(c), row("║  Algorithm: "@, clipped(c.algorithm_used, 54), 54)),
        holds_part(certificate_text(c), row("║  Passes:    "@, decimal(c.passes_completed as nat), 54)),
        holds_part(certificate_text(c), row("║  Pre-wipe BLAKE3:  "@, clipped(c.pre_wipe_hash, 47), 47)),
        holds_part(certificate_text(c), row("║  Post-wipe BLAKE3: "@, clipped(c.post_wipe_hash, 47), 47)),
        holds_part(certificate_text(c), row("║  Verification:     "@, c.verification_status.text(), 47)),
        holds_part(certificate_text(c), row("║  Status:    "@, (if c.status is Success {
                "✓ SUCCESS"@
            } else {
                "✗ PARTIAL/FAILED"@
            }), 54)),
{
    let t0 = "\n"@;
    let p0 = seq![t0];
    lemma_first_part(t0);
    lemma_one_more_part(t0, "╔══════════════════════════════════════════════════════════════════╗\n"@, p0);
    let t1 = t0 + "╔══════════════════════════════════════════════════════════════════╗\n"@;
    let p1 = p0.push("╔══════════════════════════════════════════════════════════════════╗\n"@);
    lemma_one_more_part(t1, "║              SANITIZATION AUDIT CERTIFICATE                     ║\n"@, p1);
    let t2 = t1 + "║              SANITIZATION AUDIT CERTIFICATE                     ║\n"@;
    let p2 = p1.push("║              SANITIZATION AUDIT CERTIFICATE                     ║\n"@);
    lemma_one_more_part(t2, "╠══════════════════════════════════════════════════════════════════╣\n"@, p2);
    let t3 = t2 + "╠══════════════════════════════════════════════════════════════════╣\n"@;
    let p3 = p2.push("╠══════════════════════════════════════════════════════════════════╣\n"@);
    lemma_one_more_part(t3, row("║  ID:        "@, clipped(c.certificate_id, 54), 54), p3);
    let t4 = t3 + row("║  ID:        "@, clipped(c.certificate_id, 54), 54);
    let p4 = p3.push(row("║  ID:        "@, clipped(c.certificate_id, 54), 54));
    lemma_one_more_part(t4, row("║  Started:   "@, clipped(c.timestamp_start, 54), 54), p4);
    let t5 = t4 + row("║  Started:   "@, clipped(c.timestamp_start, 54), 54);
    let p5 = p4.push(row("║  Started:   "@, clipped(c.timestamp_start, 54), 54));
    lemma_one_more_part(t5, row("║  Completed: "@, clipped(c.timestamp_end, 54), 54), p5);
    let t6 = t5 + row("║  Completed: "@, clipped(c.timestamp_end, 54), 54);
    let p6 = p5.push(row("║  Completed: "@, clipped(c.timestamp_end, 54), 54));
    lemma_one_more_part(t6, "╠══════════════════════════════════════════════════════════════════╣\n"@, p6);
    let t7 = t6 + "╠══════════════════════════════════════════════════════════════════╣\n"@;
    let p7 = p6.push("╠══════════════════════════════════════════════════════════════════╣\n"@);
    lemma_one_more_part(t7, row("║  Device:    "@, clipped(c.device_path, 54), 54), p7);
    let t8 = t7 + row("║  Device:    "@, clipped(c.device_path, 54), 54);
    let p8 = p7.push(row("║  Device:    "@, clipped(c.device_path, 54), 54));
    lemma_one_more_part(t8, row("║  Model:     "@, clipped(c.model, 54), 54), p8);
    let t9 = t8 + row("║  Model:     "@, clipped(c.model, 54), 54);
    let p9 = p8.push(row("║  Model:     "@, clipped(c.model, 54), 54));
    lemma_one_more_part(t9, row("║  Serial:    "@, clipped(c.serial, 54), 54), p9);
    let t10 = t9 + row("║  Serial:    "@, clipped(c.serial, 54), 54);
    let p10 = p9.push(row("║  Serial:    "@, clipped(c.serial, 54), 54));
    lemma_one_more_part(t10, "╠══════════════════════════════════════════════════════════════════╣\n"@, p10);
    let t11 = t10 + "╠══════════════════════════════════════════════════════════════════╣\n"@;
    let p11 = p10.push("╠══════════════════════════════════════════════════════════════════╣\n"@);
    lemma_one_more_part(t11, row("║  Algorithm: "@, clipped(c.algorithm_used, 54), 54), p11);
    let t12 = t11 + row("║  Algorithm: "@, clipped(c.algorithm_used, 54), 54);
    let p12 = p11.push(row("║  Algorithm: "@, clipped(c.algorithm_used, 54), 54));
    lemma_one_more_part(t12, row("║  Passes:    "@, decimal(c.passes_completed as nat), 54), p12);
    let t13 = t12 + row("║  Passes:    "@, decimal(c.passes_completed as nat), 54);
    let p13 = p12.push(row("║  Passes:    "@, decimal(c.passes_completed as nat), 54));
    lemma_one_more_part(t13, "╠══════════════════════════════════════════════════════════════════╣\n"@, p13);
    let t14 = t13 + "╠══════════════════════════════════════════════════════════════════╣\n"@;
    let p14 = p13.push("╠══════════════════════════════════════════════════════════════════╣\n"@);
    lemma_one_more_part(t14, row("║  Pre-wipe BLAKE3:  "@, clipped(c.pre_wipe_hash, 47), 47), p14);
    let t15 = t14 + row("║  Pre-wipe BLAKE3:  "@, clipped(c.pre_wipe_hash, 47), 47);
    let p15 = p14.push(row("║  Pre-wipe BLAKE3:  "@, clipped(c.pre_wipe_hash, 47), 47));
    lemma_one_more_part(t15, row("║  Post-wipe BLAKE3: "@, clipped(c.post_wipe_hash, 47), 47), p15);
    let t16 = t15 + row("║  Post-wipe BLAKE3: "@, clipped(c.post_wipe_hash, 47), 47);
    let p16 = p15.push(row("║  Post-wipe BLAKE3: "@, clipped(c.post_wipe_hash, 47), 47));
    lemma_one_more_part(t16, row("║  Verification:     "@, c.verification_status.text(), 47), p16);
    let t17 = t16 + row("║  Verification:     "@, c.verification_status.text(), 47);
    let p17 = p16.push(row("║  Verification:     "@, c.verification_status.text(), 47));
    lemma_one_more_part(t17, "╠══════════════════════════════════════════════════════════════════╣\n"@, p17);
    let t18 = t17 + "╠══════════════════════════════════════════════════════════════════╣\n"@;
    let p18 = p17.push("╠══════════════════════════════════════════════════════════════════╣\n"@);
    lemma_one_more_part(t18, row("║  Status:    "@, status_cell(c.status), 54), p18);
    let t19 = t18 + row("║  Status:    "@, status_cell(c.status), 54);
    let p19 = p18.push(row("║  Status:    "@, status_cell(c.status), 54));
    lemma_one_more_part(t19, "╚══════════════════════════════════════════════════════════════════╝\n"@, p19);
    let t20 = t19 + "╚══════════════════════════════════════════════════════════════════╝\n"@;
    let p20 = p19.push("╚══════════════════════════════════════════════════════════════════╝\n"@);
    lemma_one_more_part(t20, "\n"@, p20);
    let t21 = t20 + "\n"@;
    let p21 = p20.push("\n"@);
    assert(p21[4] == row("║  ID:        "@, clipped(c.certificate_id, 54), 54));
    assert(p21[5] == row("║  Started:   "@, clipped(c.timestamp_start, 54), 54));
    assert(p21[6] == row("║  Completed: "@, clipped(c.timestamp_end, 54), 54));
    assert(p21[8] == row("║  Device:    "@, clipped(c.device_path, 54), 54));
    assert(p21[9] == row("║  Model:     "@, clipped(c.model, 54), 54));
    assert(p21[10] == row("║  Serial:    "@, clipped(c.serial, 54), 54));
    assert(p21[12] == row("║  Algorithm: "@, clipped(c.algorithm_used, 54), 54));
    assert(p21[13] == row("║  Passes:    "@, decimal(c.passes_completed as nat), 54));
    assert(p21[15] == row("║  Pre-wipe BLAKE3:  "@, clipped(c.pre_wipe_hash, 47), 47));
    assert(p21[16] == row("║  Post-wipe BLAKE3: "@, clipped(c.post_wipe_hash, 47), 47));
    assert(p21[17] == row("║  Verification:     "@, c.verification_status.text(), 47));
    assert(p21[19] == row("║  Status:    "@, status_cell(c.status), 54));
    assert(t21 == certificate_text(c));
}

/// The description of a device shows everything that is known of it, which
/// erase commands it reports, and the recommended algorithm.
pub proof fn law_description_shows_the_device(disk: DiskView, gib: Seq<char>)
    ensures
        holds_part(device_inspect_text(disk, gib), "  Device Path      : "@ + disk.path + "\n"@),
        holds_part(device_inspect_text(disk, gib), "  Model            : "@ + disk.model + "\n"@),
        holds_part(device_inspect_text(disk, gib), "  Serial Number    : "@ + disk.serial_number + "\n"@),
        holds_part(device_inspect_text(disk, gib), "  Firmware Rev     : "@ + disk.firmware_rev + "\n"@),
        holds_part(device_inspect_text(disk, gib), "  Size             : "@ + size_cell(disk, gib) + "\n"@),
        holds_part(device_inspect_text(disk, gib), "  Drive Type       : "@ + disk.drive_type.text() + "\n"@),
        holds_part(device_inspect_text(disk, gib), "  Sector Size      : "@ + decimal(disk.sector_size as nat) + " bytes\n"@),
        holds_part(device_inspect_text(disk, gib), "  NVMe Crypto Erase: "@ + (if disk.supports_crypto_erase {
                "Supported"@
            } else {
                "Unsupported / Unknown"@
            }) + "\n"@),
        holds_part(device_inspect_text(disk, gib), "  ATA Secure Erase : "@ + (if disk.supports_ata_secure_erase {
                "Supported"@
            } else {
                "Unsupported / Unknown"@
            }) + "\n"@),
        holds_part(device_inspect_text(disk, gib), "  Recommended Algo : "@ + disk.recommended().text() + "\n"@),
{
    let t0 = "\n"@;
    let p0 = seq![t0];
    lemma_first_part(t0);
    lemma_three_more_parts(t0, "  Device Path      : "@, disk.path, "\n"@, p0);
    let t1 = t0 + "  Device Path      : "@ + disk.path + "\n"@;
    let p1 = p0.push("  Device Path      : "@ + disk.path + "\n"@);
    lemma_three_more_parts(t1, "  Model            : "@, disk.model, "\n"@, p1);
    let t2 = t1 + "  Model            : "@ + disk.model + "\n"@;
    let p2 = p1.push("  Model            : "@ + disk.model + "\n"@);
    lemma_three_more_parts(t2, "  Serial Number    : "@, disk.serial_number, "\n"@, p2);
    let t3 = t2 + "  Serial Number    : "@ + disk.serial_number + "\n"@;
    let p3 = p2.push("  Serial Number    : "@ + disk.serial_number + "\n"@);
    lemma_three_more_parts(t3, "  Firmware Rev     : "@, disk.firmware_rev, "\n"@, p3);
    let t4 = t3 + "  Firmware Rev     : "@ + disk.firmware_rev + "\n"@;
    let p4 = p3.push("  Firmware Rev     : "@ + disk.firmware_rev + "\n"@);
    lemma_three_more_parts(t4, "  Size             : "@, size_cell(disk, gib), "\n"@, p4);
    let t5 = t4 + "  Size             : "@ + size_cell(disk, gib) + "\n"@;
    let p5 = p4.push("  Size             : "@ + size_cell(disk, gib) + "\n"@);
    lemma_three_more_parts(t5, "  Drive Type       : "@, disk.drive_type.text(), "\n"@, p5);
    let t6 = t5 + "  Drive Type       : "@ + disk.drive_type.text() + "\n"@;
    let p6 = p5.push("  Drive Type       : "@ + disk.drive_type.text() + "\n"@);
    lemma_three_more_parts(t6, "  Sector Size      : "@, decimal(disk.sector_size as nat), " bytes\n"@, p6);
    let t7 = t6 + "  Sector Size      : "@ + decimal(disk.sector_size as nat) + " bytes\n"@;
    let p7 = p6.push("  Sector Size      : "@ + decimal(disk.sector_size as nat) + " bytes\n"@);
    lemma_three_more_parts(t7, "  NVMe Crypto Erase: "@, support_cell(disk.supports_crypto_erase), "\n"@, p7);
    let t8 = t7 + "  NVMe Crypto Erase: "@ + support_cell(disk.supports_crypto_erase) + "\n"@;
    let p8 = p7.push("  NVMe Crypto Erase: "@ + support_cell(disk.supports_crypto_erase) + "\n"@);
    lemma_three_more_parts(t8, "  ATA Secure Erase : "@, support_cell(disk.supports_ata_secure_erase), "\n"@, p8);
    let t9 = t8 + "  ATA Secure Erase : "@ + support_cell(disk.supports_ata_secure_erase) + "\n"@;
    let p9 = p8.push("  ATA Secure Erase : "@ + support_cell(disk.supports_ata_secure_erase) + "\n"@);
    lemma_three_more_parts(t9, "  Recommended Algo : "@, disk.recommended().text(), "\n"@, p9);
    let t10 = t9 + "  Recommended Algo : "@ + disk.recommended().text() + "\n"@;
    let p10 = p9.push("  Recommended Algo : "@ + disk.recommended().text() + "\n"@);
    lemma_one_more_part(t10, "\n"@, p10);
    let t11 = t10 + "\n"@;
    let p11 = p10.push("\n"@);
    assert(p11[1] == "  Device Path      : "@ + disk.path + "\n"@);
    assert(p11[2] == "  Model            : "@ + disk.model + "\n"@);
    assert(p11[3] == "  Serial Number    : "@ + disk.serial_number + "\n"@);
    assert(p11[4] == "  Firmware Rev     : "@ + disk.firmware_rev + "\n"@);
    assert(p11[5] == "  Size             : "@ + size_cell(disk, gib) + "\n"@);
    assert(p11[6] == "  Drive Type       : "@ + disk.drive_type.text() + "\n"@);
    assert(p11[7] == "  Sector Size      : "@ + decimal(disk.sector_size as nat) + " bytes\n"@);
    assert(p11[8] == "  NVMe Crypto Erase: "@ + support_cell(disk.supports_crypto_erase) + "\n"@);
    assert(p11[9] == "  ATA Secure Erase : "@ + support_cell(disk.supports_ata_secure_erase) + "\n"@);
    assert(p11[10] == "  Recommended Algo : "@ + disk.recommended().text() + "\n"@);
    assert(t11 == device_inspect_text(disk, gib));
}

/// The table has its header, a rule, and a line for each disk in the order of
/// the list: path, model, serial number, size and kind, each in its column.
pub proof fn law_table_has_a_line_for_each_disk(disks: Seq<ListedDisk>, next: ListedDisk)
    ensures
        device_table_text(disks) == "\n"@ + table_line(
            "DEVICE"@,
            "MODEL"@,
            "SERIAL"@,
            "SIZE"@,
            "TYPE"@,
        ) + rule(95) + "\n"@ + table_body(disks) + "\n"@,
        table_body(Seq::empty()) == Seq::<char>::empty(),
        table_body(disks.push(next)) == table_body(disks) + next.line(),
        next.line() == padded(next.disk@.path, 20) + " "@ + padded(
            clipped(next.disk@.model, 34),
            35,
        ) + " "@ + padded(clipped(next.disk@.serial_number, 14), 15) + " "@ + padded(
            next.gib@ + " GiB"@,
            12,
        ) + " "@ + padded(next.disk@.drive_type.name_text(), 10) + "\n"@,
{
    assert(disks.push(next).drop_last() =~= disks);
}

/// Nothing but the phrase is consent, to the letter.
pub proof fn law_only_the_phrase_is_consent(disk: DiskView, line: Seq<char>)
    ensures
        is_consent(disk, Some(line)) <==> trimmed(line) == "WIPE-"@ + clipped(
            disk.serial_number,
            8,
        ),
{
}

} // verus!
