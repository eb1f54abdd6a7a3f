//! The checks that stand between a target and any write to it.

use vstd::prelude::*;

use crate::error::{ErrorView, TitanError, TitanResult};
use crate::numerals::{all_digits, ascii_digit, is_digit};
use crate::text::{
    after_last_slash, base_name, chars_of, concat2, concat3, file_name, first_two_words,
    has_prefix, join, joined, lemma_name_goes_on, same_text, starts_with, two_words, views,
};

verus! {

// ---------------------------------------------------------------------------
// Privileges
// ---------------------------------------------------------------------------

/// Only root may go on.
pub fn check_privileges(uid: u32) -> (r: TitanResult<()>)
    ensures
        r is Ok <==> uid == 0,
        r matches Err(e) ==> e@ == ErrorView::InsufficientPrivileges,
{
    if uid == 0 {
        Ok(())
    } else {
        Err(TitanError::InsufficientPrivileges)
    }
}

// ---------------------------------------------------------------------------
// Boot drive
// ---------------------------------------------------------------------------

/// The mount points whose device must never be wiped.
pub fn protected_mounts() -> (r: [&'static str; 5])
    ensures
        r@ == seq!["/", "/boot", "/boot/efi", "/home", "/usr"],
{
    ["/", "/boot", "/boot/efi", "/home", "/usr"]
}

/// Whether a device with the number `target` has to be taken for the boot
/// drive: it cannot be looked up, or one of the protected mount points lies on
/// it. A mount point that is not there protects nothing.
pub open spec fn is_protected(target: Option<u64>, protected: Seq<Option<u64>>) -> bool {
    match target {
        None => true,
        Some(rdev) => exists|i: int| 0 <= i < protected.len() && protected[i] == Some(rdev),
    }
}

/// Whether the target has to be taken for the boot drive. `target` is the
/// number of the target device, `protected` the numbers of the devices that
/// hold the protected mount points.
pub fn is_boot_drive(target: Option<u64>, protected: &[Option<u64>; 5]) -> (r: bool)
    ensures
        r == is_protected(target, protected@),
{
    let rdev: u64 = match target {
        Some(n) => n,
        None => {
            return true;
        },
    };
    let mut i: usize = 0;
    while i < 5
        invariant
            i <= 5,
            target == Some(rdev),
            forall|j: int| 0 <= j < i ==> protected@[j] != Some(rdev),
        decreases 5 - i,
    {
        if let Some(dev) = protected[i] {
            if dev == rdev {
                proof {
                    assert(protected@[i as int] == Some(rdev));
                }
                return true;
            }
        }
        i = i + 1;
    }
    false
}

// ---------------------------------------------------------------------------
// Active mounts
// ---------------------------------------------------------------------------

/// Whether a text is a number: digits, and at least one.
pub open spec fn is_number(s: Seq<char>) -> bool {
    s.len() > 0 && all_digits(s)
}

/// What stands between the name of a device and the number of a partition: a
/// `p` where the name itself ends in a digit, otherwise nothing.
pub open spec fn partition_mark(device: Seq<char>) -> Seq<char> {
    if device.len() > 0 && is_digit(device.last()) {
        seq!['p']
    } else {
        Seq::empty()
    }
}

/// Whether a device name is that of a partition of a device: the name of the
/// device and the number of the partition, as `sda1` or `nvme0n1p2`.
pub open spec fn is_partition_of(name: Seq<char>, device: Seq<char>) -> bool {
    let stem = device + partition_mark(device);
    device.len() > 0 && has_prefix(name, stem) && is_number(name.skip(stem.len() as int))
}

/// Whether a device name is that of a partition of a device.
pub fn partition_of(name: &str, device: &str) -> (r: bool)
    ensures
        r == is_partition_of(name@, device@),
{
    let chars = chars_of(device);
    let n: usize = chars.len();
    if n == 0 {
        return false;
    }
    let stem = if ascii_digit(chars[n - 1]) {
        concat2(device, "p")
    } else {
        device.to_owned()
    };
    proof {
        reveal_strlit("p");
        assert("p"@ =~= seq!['p']);
        assert(device@ + Seq::<char>::empty() =~= device@);
    }
    if !starts_with(name, stem.as_str()) {
        return false;
    }
    let whole = chars_of(name);
    let start: usize = chars_of(stem.as_str()).len();
    let mut i: usize = start;
    while i < whole.len()
        invariant
            whole@ == name@,
            start == (device@ + partition_mark(device@)).len(),
            start <= i <= whole@.len(),
            forall|j: int| start <= j < i ==> is_digit(#[trigger] whole@[j]),
        decreases whole@.len() - i,
    {
        if !ascii_digit(whole[i]) {
            proof {
                assert(!is_digit(whole@.skip(start as int)[i - start]));
            }
            return false;
        }
        i = i + 1;
    }
    start < whole.len()
}

/// A line of the mount table. Where the device that it names can be looked up,
/// the path of that device behind all links, and its number.
#[derive(Debug)]
pub struct MountEntry {
    pub dev_path: String,
    pub mount_point: String,
    /// The path behind all links; the path as it stands where it leads nowhere.
    pub resolved: String,
    pub rdev: Option<u64>,
}

/// The device and the mount point of a line of the mount table. A line with
/// less than two fields has none.
pub fn parse_mount_line(line: &str) -> (r: Option<(String, String)>)
    ensures
        match r {
            Some(w) => two_words(line@) == Some((w.0@, w.1@)),
            None => two_words(line@) is None,
        },
{
    first_two_words(line)
}

impl MountEntry {
    /// Whether the entry stands in the way of wiping the device called `name`
    /// with the number `rdev`: it is that device, by its number or by its
    /// name, or a partition of it.
    pub open spec fn is_on(self, name: Seq<char>, rdev: u64) -> bool {
        ||| self.rdev == Some(rdev)
        ||| base_name(self.resolved@) == name
        ||| is_partition_of(base_name(self.resolved@), name)
    }

    /// The entry as it is shown to the operator.
    pub open spec fn text(self) -> Seq<char> {
        self.dev_path@ + " → "@ + self.mount_point@
    }
}

/// The entries that stand in the way of wiping a device, as they are shown.
pub open spec fn active_mounts(
    entries: Seq<MountEntry>,
    name: Seq<char>,
    rdev: u64,
) -> Seq<Seq<char>>
    decreases entries.len(),
{
    if entries.len() == 0 {
        Seq::empty()
    } else {
        let rest = active_mounts(entries.drop_last(), name, rdev);
        if entries.last().is_on(name, rdev) {
            rest.push(entries.last().text())
        } else {
            rest
        }
    }
}

/// The mounts that stand in the way of wiping the device at `path`. `resolved`
/// is the device's path behind all links, `target` its number where it can be
/// looked up; `table` the mount table, or the reason why it cannot be read.
pub fn get_active_mounts(
    path: &str,
    resolved: &str,
    target: Option<u64>,
    table: &Result<Vec<MountEntry>, String>,
) -> (r: TitanResult<Vec<String>>)
    ensures
        match (target, *table) {
            (None, _) => r matches Err(e) && e@ == ErrorView::DeviceNotFound(path@),
            (Some(_), Err(m)) => r matches Err(e) && e@ == ErrorView::Io(m@),
            (Some(rdev), Ok(entries)) => r matches Ok(mounts) && views(mounts@) == active_mounts(
                entries@,
                base_name(resolved@),
                rdev,
            ),
        },
{
    let rdev: u64 = match target {
        Some(n) => n,
        None => {
            return Err(TitanError::DeviceNotFound(path.to_owned()));
        },
    };
    let entries: &Vec<MountEntry> = match table {
        Ok(entries) => entries,
        Err(m) => {
            return Err(TitanError::Io(m.clone()));
        },
    };
    let name = file_name(resolved);
    let mut mounts: Vec<String> = Vec::new();
    let mut i: usize = 0;
    proof {
        assert(views(mounts@) =~= Seq::<Seq<char>>::empty());
    }
    while i < entries.len()
        invariant
            i <= entries@.len(),
            name@ == base_name(resolved@),
            views(mounts@) == active_mounts(entries@.take(i as int), name@, rdev),
        decreases entries@.len() - i,
    {
        let entry = &entries[i];
        proof {
            assert(entries@.take(i + 1).drop_last() =~= entries@.take(i as int));
        }
        let same_device = match entry.rdev {
            Some(dev) => dev == rdev,
            None => false,
        };
        let source = file_name(entry.resolved.as_str());
        if same_device || same_text(source.as_str(), name.as_str()) || partition_of(
            source.as_str(),
            name.as_str(),
        ) {
            let line = concat3(entry.dev_path.as_str(), " → ", entry.mount_point.as_str());
            let ghost before = views(mounts@);
            mounts.push(line);
            proof {
                assert(views(mounts@) =~= before.push(line@));
            }
        }
        i = i + 1;
    }
    proof {
        assert(entries@.take(i as int) =~= entries@);
    }
    Ok(mounts)
}

/// No mount is reported exactly where no entry stands in the way.
pub proof fn law_no_mounts_means_nothing_in_the_way(
    entries: Seq<MountEntry>,
    name: Seq<char>,
    rdev: u64,
)
    ensures
        active_mounts(entries, name, rdev).len() == 0 <==> forall|i: int|
            0 <= i < entries.len() ==> !(#[trigger] entries[i]).is_on(name, rdev),
    decreases entries.len(),
{
    if entries.len() > 0 {
        let rest = entries.drop_last();
        law_no_mounts_means_nothing_in_the_way(rest, name, rdev);
        if active_mounts(entries, name, rdev).len() == 0 {
            assert forall|i: int| 0 <= i < entries.len() implies !(#[trigger] entries[i]).is_on(
                name,
                rdev,
            ) by {
                if i < rest.len() {
                    assert(rest[i] == entries[i]);
                }
            }
        }
        if forall|i: int| 0 <= i < entries.len() ==> !(#[trigger] entries[i]).is_on(name, rdev) {
            assert forall|i: int| 0 <= i < rest.len() implies !(#[trigger] rest[i]).is_on(
                name,
                rdev,
            ) by {
                assert(rest[i] == entries[i]);
            }
            assert(!entries[entries.len() - 1].is_on(name, rdev));
        }
    }
}

/// Every mount that is reported is one of the device itself or of a partition
/// of it.
pub proof fn law_reported_mount_is_on_the_device(
    entries: Seq<MountEntry>,
    name: Seq<char>,
    rdev: u64,
    k: int,
)
    requires
        0 <= k < active_mounts(entries, name, rdev).len(),
    ensures
        exists|i: int|
            0 <= i < entries.len() && (#[trigger] entries[i]).text() == active_mounts(
                entries,
                name,
                rdev,
            )[k] && (entries[i].rdev == Some(rdev) || base_name(entries[i].resolved@) == name
                || is_partition_of(base_name(entries[i].resolved@), name)),
    decreases entries.len(),
{
    let rest = entries.drop_last();
    let earlier = active_mounts(rest, name, rdev);
    if k < earlier.len() {
        law_reported_mount_is_on_the_device(rest, name, rdev, k);
        let i = choose|i: int|
            0 <= i < rest.len() && (#[trigger] rest[i]).text() == earlier[k] && (rest[i].rdev
                == Some(rdev) || base_name(rest[i].resolved@) == name || is_partition_of(
                base_name(rest[i].resolved@),
                name,
            ));
        assert(entries[i] == rest[i]);
    } else {
        assert(entries[entries.len() - 1].text() == active_mounts(entries, name, rdev)[k]);
    }
}

/// A mounted partition of a device is in the way of wiping the device, though
/// its number is another one. The path of the partition is that of the device
/// and the number of the partition, with a `p` in between where the path of
/// the device ends in a digit.
pub proof fn law_mounted_partition_is_in_the_way(
    entry: MountEntry,
    path: Seq<char>,
    number: Seq<char>,
    rdev: u64,
)
    requires
        base_name(path).len() > 0,
        base_name(path) == after_last_slash(path),
        is_number(number),
        entry.resolved@ == path + partition_mark(path) + number,
    ensures
        entry.is_on(base_name(path), rdev),
{
    let device = base_name(path);
    let suffix = partition_mark(path) + number;
    assert(path.last() == device.last());
    assert forall|i: int| 0 <= i < suffix.len() implies #[trigger] suffix[i] != '/' by {
        if i >= partition_mark(path).len() {
            assert(is_digit(number[i - partition_mark(path).len()]));
        }
    }
    assert(path + partition_mark(path) + number =~= path + suffix);
    lemma_name_goes_on(path, suffix);
    let name = after_last_slash(path + suffix);
    assert(name.last() == number.last());
    assert(is_digit(number[number.len() - 1]));
    assert(seq!['.'].last() == '.' && seq!['.', '.'].last() == '.');
    assert(base_name(path + suffix) == name);
    let stem = device + partition_mark(device);
    assert(name =~= stem + number);
    assert(name.take(stem.len() as int) =~= stem);
    assert(name.skip(stem.len() as int) =~= number);
}

/// A device whose name goes on behind the name of another, but not by the
/// number of a partition, is not in the way of wiping that other device: a
/// mount of `sdaa1` does not keep `sda` from being wiped.
pub proof fn law_mount_of_another_device_is_not_in_the_way(
    entry: MountEntry,
    name: Seq<char>,
    more: Seq<char>,
    rdev: u64,
)
    requires
        entry.rdev != Some(rdev),
        base_name(entry.resolved@) == name + more,
        more.len() > 0,
        forall|number: Seq<char>|
            is_number(number) ==> more != #[trigger] (partition_mark(name) + number),
    ensures
        !entry.is_on(name, rdev),
{
    let whole = name + more;
    let stem = name + partition_mark(name);
    if is_partition_of(whole, name) {
        let number = whole.skip(stem.len() as int);
        assert(whole =~= stem + number);
        assert(more =~= whole.skip(name.len() as int));
        assert(more =~= partition_mark(name) + number);
    }
}

// ---------------------------------------------------------------------------
// What was seen of a target
// ---------------------------------------------------------------------------

/// What the guardrails go by, as it was seen right before the run.
#[derive(Debug)]
pub struct GuardrailReport {
    /// The path that the operator gave, by which the target was looked up.
    pub path: String,
    /// The path of the target device behind all links.
    pub target_path: String,
    /// The number of the target device, where it can be looked up.
    pub target_rdev: Option<u64>,
    /// The numbers of the devices that hold the protected mount points.
    pub protected_devs: [Option<u64>; 5],
    /// The mount table, or the reason why it cannot be read.
    pub mount_table: Result<Vec<MountEntry>, String>,
}

impl GuardrailReport {
    /// Whether the target at `path` may be wiped: it is the one that was looked
    /// up, it is not the boot drive, and nothing of it is mounted.
    pub open spec fn clears(&self, path: Seq<char>) -> bool {
        &&& self.path@ == path
        &&& !is_protected(self.target_rdev, self.protected_devs@)
        &&& self.mount_table is Ok
        &&& active_mounts(
            self.mount_table->Ok_0@,
            base_name(self.target_path@),
            self.target_rdev->0,
        ).len() == 0
    }

    /// Why the target at `path` may not be wiped, if it may not. A target that
    /// was not looked up is taken for the boot drive.
    pub open spec fn objection(&self, path: Seq<char>) -> Option<ErrorView> {
        if self.path@ != path || is_protected(self.target_rdev, self.protected_devs@) {
            Some(ErrorView::BootDriveProtection(path))
        } else {
            match self.mount_table {
                Err(m) => Some(ErrorView::Io(m@)),
                Ok(entries) => {
                    let mounts = active_mounts(
                        entries@,
                        base_name(self.target_path@),
                        self.target_rdev->0,
                    );
                    if mounts.len() > 0 {
                        Some(
                            ErrorView::DeviceMounted(
                                path,
                                joined(mounts, ", "@),
                            ),
                        )
                    } else {
                        None
                    }
                },
            }
        }
    }

    /// Refuses the target at `path` if it may not be wiped.
    pub fn check(&self, path: &str) -> (r: TitanResult<()>)
        ensures
            match r {
                Ok(_) => self.objection(path@) is None,
                Err(e) => self.objection(path@) == Some(e@),
            },
            r is Ok <==> self.clears(path@),
    {
        if !same_text(self.path.as_str(), path) || is_boot_drive(
            self.target_rdev,
            &self.protected_devs,
        ) {
            return Err(TitanError::BootDriveProtection(path.to_owned()));
        }
        match get_active_mounts(
            path,
            self.target_path.as_str(),
            self.target_rdev,
            &self.mount_table,
        ) {
            Err(e) => Err(e),
            Ok(mounts) => {
                proof {
                    assert(views(mounts@).len() == mounts@.len());
                }
                if mounts.len() > 0 {
                    let list = join(&mounts, ", ");
                    Err(TitanError::DeviceMounted(path.to_owned(), list))
                } else {
                    Ok(())
                }
            },
        }
    }
}

/// The boot drive is protected, on whichever of the protected mount points it
/// shows; so is a device that cannot be looked up. No other device is.
pub proof fn law_boot_drive_is_protected(
    target: Option<u64>,
    protected: Seq<Option<u64>>,
    i: int,
)
    requires
        0 <= i < protected.len(),
    ensures
        target is None ==> is_protected(target, protected),
        target is Some && protected[i] == target ==> is_protected(target, protected),
        is_protected(target, protected) && target is Some ==> exists|k: int|
            0 <= k < protected.len() && #[trigger] protected[k] == target,
{
}

/// Every entry of the mount table that is on the device, by its number, by its
/// name or as one of its partitions, is reported.
pub proof fn law_every_mount_on_the_device_is_reported(
    entries: Seq<MountEntry>,
    name: Seq<char>,
    rdev: u64,
    i: int,
)
    requires
        0 <= i < entries.len(),
        entries[i].rdev == Some(rdev) || base_name(entries[i].resolved@) == name
            || is_partition_of(base_name(entries[i].resolved@), name),
    ensures
        active_mounts(entries, name, rdev).contains(
            entries[i].dev_path@ + " → "@ + entries[i].mount_point@,
        ),
    decreases entries.len(),
{
    let rest = entries.drop_last();
    let earlier = active_mounts(rest, name, rdev);
    let all = active_mounts(entries, name, rdev);
    let text = entries[i].dev_path@ + " → "@ + entries[i].mount_point@;
    if i < rest.len() {
        assert(rest[i] == entries[i]);
        law_every_mount_on_the_device_is_reported(rest, name, rdev, i);
        let k = choose|k: int| 0 <= k < earlier.len() && earlier[k] == text;
        assert(all[k] == text);
    } else {
        assert(all[all.len() - 1] == text);
    }
}

/// The name of a partition is that of the device and its number, with a `p`
/// in between exactly where the device's own name ends in a digit.
pub proof fn law_names_of_partitions(device: Seq<char>, number: Seq<char>)
    requires
        device.len() > 0,
        number.len() > 0,
        all_digits(number),
    ensures
        is_digit(device.last()) ==> is_partition_of(device + seq!['p'] + number, device)
            && !is_partition_of(device + number, device),
        !is_digit(device.last()) ==> is_partition_of(device + number, device) && !is_partition_of(
            device + seq!['p'] + number,
            device,
        ),
        !is_partition_of(device, device),
{
    let n = device.len() as int;
    let plain = device + number;
    let marked = device + seq!['p'] + number;
    assert(plain.take(n) =~= device);
    assert(plain.skip(n) =~= number);
    assert(marked.take(n) =~= device);
    assert(marked.skip(n)[0] == 'p');
    assert(device.skip(n).len() == 0);
    if is_digit(device.last()) {
        let stem = device + seq!['p'];
        assert(marked.take(n + 1) =~= stem);
        assert(marked.skip(n + 1) =~= number);
        if has_prefix(plain, stem) {
            assert(plain.take(n + 1)[n] == stem[n]);
            assert(is_digit(number[0]));
        }
    } else {
        assert(device + Seq::<char>::empty() =~= device);
    }
}

/// Why a target is refused: it is another one than was looked up, or the boot
/// drive; else the mount table cannot be read; else something of it is
/// mounted, and then all of that is named. A target to which none of this
/// applies is cleared, and no other.
pub proof fn law_reasons_to_refuse(report: GuardrailReport, path: Seq<char>)
    ensures
        report.clears(path) <==> report.objection(path) is None,
        report.path@ != path || is_protected(report.target_rdev, report.protected_devs@)
            <==> report.objection(path) == Some(ErrorView::BootDriveProtection(path)),
        report.path@ == path && !is_protected(report.target_rdev, report.protected_devs@) ==> (
        match report.mount_table {
            Err(m) => report.objection(path) == Some(ErrorView::Io(m@)),
            Ok(entries) => {
                let mounts = active_mounts(
                    entries@,
                    base_name(report.target_path@),
                    report.target_rdev->0,
                );
                report.objection(path) == if mounts.len() == 0 {
                    None
                } else {
                    Some(ErrorView::DeviceMounted(path, joined(mounts, ", "@)))
                }
            },
        }),
{
}

} // verus!
