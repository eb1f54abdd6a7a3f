//! Which of the system's block devices are listed, and in which order.

use vstd::prelude::*;

use crate::error::TitanResult;
use crate::text::{chars_of, concat2, has_prefix, starts_with};
use crate::types::{DiskTarget, DiskView};

verus! {

// ---------------------------------------------------------------------------
// Names
// ---------------------------------------------------------------------------

/// Whether a block device is a physical drive by its name: no loop device, no
/// device mapper target, no RAM disk and no optical drive.
pub open spec fn is_physical(name: Seq<char>) -> bool {
    !(has_prefix(name, "loop"@) || has_prefix(name, "dm-"@) || has_prefix(name, "ram"@)
        || has_prefix(name, "zram"@) || has_prefix(name, "sr"@))
}

/// The path of the device that a block device's name stands for; there is none
/// where the device is not physical.
pub fn device_path(name: &str) -> (r: Option<String>)
    ensures
        match r {
            Some(path) => is_physical(name@) && path@ == "/dev/"@ + name@,
            None => !is_physical(name@),
        },
{
    if starts_with(name, "loop") || starts_with(name, "dm-") || starts_with(name, "ram")
        || starts_with(name, "zram") || starts_with(name, "sr") {
        None
    } else {
        Some(concat2("/dev/", name))
    }
}

// ---------------------------------------------------------------------------
// Order
// ---------------------------------------------------------------------------

/// The rank of a character in a path: the separator comes before all others,
/// so that paths are ordered component by component.
pub open spec fn path_rank(c: char) -> int {
    if c == '/' {
        0
    } else {
        c as u32 + 1
    }
}

/// Whether a path comes before another.
pub open spec fn path_less(a: Seq<char>, b: Seq<char>) -> bool
    decreases a.len(),
{
    if b.len() == 0 {
        false
    } else if a.len() == 0 {
        true
    } else if a[0] == b[0] {
        path_less(a.drop_first(), b.drop_first())
    } else {
        path_rank(a[0]) < path_rank(b[0])
    }
}

/// Whether a path comes before another.
pub fn path_before(a: &str, b: &str) -> (r: bool)
    ensures
        r == path_less(a@, b@),
{
    let left = chars_of(a);
    let right = chars_of(b);
    let mut i: usize = 0;
    proof {
        assert(a@.skip(0) =~= a@);
        assert(b@.skip(0) =~= b@);
    }
    while i < left.len() && i < right.len()
        invariant
            left@ == a@,
            right@ == b@,
            i <= a@.len(),
            i <= b@.len(),
            path_less(a@, b@) == path_less(a@.skip(i as int), b@.skip(i as int)),
        decreases a@.len() - i,
    {
        let c: char = left[i];
        let d: char = right[i];
        if c != d {
            return c == '/' || (d != '/' && (c as u32) < (d as u32));
        }
        proof {
            assert(a@.skip(i as int).drop_first() =~= a@.skip(i + 1));
            assert(b@.skip(i as int).drop_first() =~= b@.skip(i + 1));
        }
        i = i + 1;
    }
    i < right.len()
}

proof fn lemma_ranks_differ(c: char, d: char)
    ensures
        path_rank(c) >= 0,
        path_rank(c) == path_rank(d) <==> c == d,
{
}

/// The order of paths is total: of two paths that are not the same one comes
/// before the other, and only one.
pub proof fn law_paths_are_ordered(a: Seq<char>, b: Seq<char>)
    ensures
        path_less(a, b) <==> a != b && !path_less(b, a),
    decreases a.len(),
{
    if a.len() > 0 && b.len() > 0 {
        law_paths_are_ordered(a.drop_first(), b.drop_first());
        if a[0] != b[0] {
            lemma_ranks_differ(a[0], b[0]);
        } else {
            assert(a =~= seq![a[0]] + a.drop_first());
            assert(b =~= seq![b[0]] + b.drop_first());
            assert(a == b ==> a.drop_first() == b.drop_first());
        }
    } else if a.len() == 0 && b.len() == 0 {
        assert(a =~= b);
    }
}

proof fn lemma_path_order_transitive(a: Seq<char>, b: Seq<char>, c: Seq<char>)
    requires
        !path_less(b, a),
        !path_less(c, b),
    ensures
        !path_less(c, a),
    decreases a.len(),
{
    if a.len() > 0 && b.len() > 0 && c.len() > 0 {
        lemma_ranks_differ(a[0], b[0]);
        lemma_ranks_differ(b[0], c[0]);
        lemma_ranks_differ(a[0], c[0]);
        if a[0] == b[0] && b[0] == c[0] {
            lemma_path_order_transitive(a.drop_first(), b.drop_first(), c.drop_first());
        }
    }
}

// ---------------------------------------------------------------------------
// The list
// ---------------------------------------------------------------------------

/// The disks of a list.
pub open spec fn disk_views(disks: Seq<DiskTarget>) -> Seq<DiskView> {
    disks.map_values(|d: DiskTarget| d@)
}

/// The disks that could be inspected, in the order of the inspections.
pub open spec fn inspected(results: Seq<TitanResult<DiskTarget>>) -> Seq<DiskView>
    decreases results.len(),
{
    if results.len() == 0 {
        Seq::empty()
    } else {
        match results[0] {
            Ok(disk) => seq![disk@] + inspected(results.drop_first()),
            Err(_) => inspected(results.drop_first()),
        }
    }
}

/// The disks of a list that have a given path, in the order of the list.
pub open spec fn with_path(disks: Seq<DiskView>, path: Seq<char>) -> Seq<DiskView> {
    disks.filter(|d: DiskView| d.path == path)
}

/// Whether no disk of a list comes behind one that its path belongs before.
pub open spec fn in_path_order(disks: Seq<DiskView>) -> bool {
    forall|i: int, j: int|
        #![trigger disks[i], disks[j]]
        0 <= i < j < disks.len() ==> !path_less(disks[j].path, disks[i].path)
}

/// A disk that is put in front of all that do not come before it keeps the
/// order, and comes first among the disks of its path.
proof fn lemma_put_in_order(list: Seq<DiskView>, at: int, disk: DiskView)
    requires
        in_path_order(list),
        0 <= at <= list.len(),
        forall|i: int| 0 <= i < at ==> path_less((#[trigger] list[i]).path, disk.path),
        at < list.len() ==> !path_less(list[at].path, disk.path),
    ensures
        in_path_order(list.insert(at, disk)),
        forall|path: Seq<char>| #[trigger]
            with_path(list.insert(at, disk), path) == with_path(seq![disk], path) + with_path(
                list,
                path,
            ),
{
    let new = list.insert(at, disk);
    assert forall|i: int, j: int|
        #![trigger new[i], new[j]]
        0 <= i < j < new.len() implies !path_less(new[j].path, new[i].path) by {
        if j == at {
            law_paths_are_ordered(list[i].path, disk.path);
        } else if i == at {
            if j - 1 > at {
                assert(!path_less(list[j - 1].path, list[at].path));
            } else {
                law_paths_are_ordered(list[at].path, list[at].path);
            }
            lemma_path_order_transitive(disk.path, list[at].path, list[j - 1].path);
        }
    }
    assert forall|path: Seq<char>| #[trigger]
        with_path(new, path) == with_path(seq![disk], path) + with_path(list, path) by {
        let pred = |d: DiskView| d.path == path;
        let front = list.take(at);
        let back = list.skip(at);
        assert(new =~= front + seq![disk] + back);
        assert(list =~= front + back);
        Seq::filter_distributes_over_add(front + seq![disk], back, pred);
        Seq::filter_distributes_over_add(front, seq![disk], pred);
        Seq::filter_distributes_over_add(front, back, pred);
        if path == disk.path {
            assert forall|i: int| 0 <= i < front.len() implies (#[trigger] front[i]).path
                != path by {
                law_paths_are_ordered(list[i].path, path);
            }
            lemma_filter_none(front, path);
        } else {
            lemma_filter_none(seq![disk], path);
        }
        assert(with_path(new, path) =~= with_path(seq![disk], path) + with_path(list, path));
    }
}

proof fn lemma_filter_none(list: Seq<DiskView>, path: Seq<char>)
    requires
        forall|i: int| 0 <= i < list.len() ==> (#[trigger] list[i]).path != path,
    ensures
        with_path(list, path) == Seq::<DiskView>::empty(),
    decreases list.len(),
{
    reveal(Seq::filter);
    if list.len() > 0 {
        lemma_filter_none(list.drop_last(), path);
    }
}

/// The devices that could be inspected, ordered by path; of two with the same
/// path the one that was inspected first comes first.
pub fn list_block_devices(results: Vec<TitanResult<DiskTarget>>) -> (r: Vec<DiskTarget>)
    ensures
        in_path_order(disk_views(r@)),
        forall|i: int, j: int|
            #![trigger r@[i], r@[j]]
            0 <= i < j < r@.len() ==> !path_less(r@[j].path@, r@[i].path@),
        forall|path: Seq<char>| #[trigger]
            with_path(disk_views(r@), path) == with_path(inspected(results@), path),
{
    let ghost all = results@;
    let mut rest = results;
    let mut out: Vec<DiskTarget> = Vec::new();
    proof {
        assert(all.skip(all.len() as int) =~= Seq::empty());
        assert(disk_views(out@) =~= inspected(all.skip(all.len() as int)));
    }
    while rest.len() > 0
        invariant
            rest@.len() <= all.len(),
            rest@ == all.take(rest@.len() as int),
            in_path_order(disk_views(out@)),
            forall|path: Seq<char>| #[trigger]
                with_path(disk_views(out@), path) == with_path(
                    inspected(all.skip(rest@.len() as int)),
                    path,
                ),
        decreases rest@.len(),
    {
        let ghost n = rest@.len() as int;
        let ghost before = disk_views(out@);
        proof {
            assert(all.skip(n - 1).drop_first() =~= all.skip(n));
            assert(all.skip(n - 1)[0] == all[n - 1]);
        }
        match rest.pop() {
            Some(Ok(disk)) => {
                let mut at: usize = 0;
                while at < out.len() && path_before(out[at].path.as_str(), disk.path.as_str())
                    invariant
                        at <= out@.len(),
                        before == disk_views(out@),
                        forall|i: int|
                            0 <= i < at ==> path_less((#[trigger] before[i]).path, disk@.path),
                    ensures
                        at < out@.len() ==> !path_less(before[at as int].path, disk@.path),
                    decreases out@.len() - at,
                {
                    at = at + 1;
                }
                let ghost view = disk@;
                out.insert(at, disk);
                proof {
                    assert(disk_views(out@) =~= before.insert(at as int, view));
                    lemma_put_in_order(before, at as int, view);
                    assert forall|path: Seq<char>| #[trigger]
                        with_path(disk_views(out@), path) == with_path(
                            inspected(all.skip(n - 1)),
                            path,
                        ) by {
                        let pred = |d: DiskView| d.path == path;
                        let later = inspected(all.skip(n));
                        assert(with_path(before, path) == with_path(later, path));
                        Seq::filter_distributes_over_add(seq![view], later, pred);
                    }
                }
            },
            _ => {},
        }
    }
    proof {
        assert(all.skip(0) =~= all);
        let disks = disk_views(out@);
        assert forall|i: int, j: int|
            #![trigger out@[i], out@[j]]
            0 <= i < j < out@.len() implies !path_less(out@[j].path@, out@[i].path@) by {
            assert(disks[i] == out@[i]@ && disks[j] == out@[j]@);
        }
    }
    out
}

// ---------------------------------------------------------------------------
// Laws
// ---------------------------------------------------------------------------

/// A block device is left out exactly where its name begins with that of a
/// loop device, a device mapper target, a RAM disk or an optical drive.
pub proof fn law_only_virtual_devices_are_left_out(name: Seq<char>, rest: Seq<char>)
    ensures
        !is_physical("loop"@ + rest),
        !is_physical("dm-"@ + rest),
        !is_physical("ram"@ + rest),
        !is_physical("zram"@ + rest),
        !is_physical("sr"@ + rest),
        !is_physical(name) ==> has_prefix(name, "loop"@) || has_prefix(name, "dm-"@) || has_prefix(
            name,
            "ram"@,
        ) || has_prefix(name, "zram"@) || has_prefix(name, "sr"@),
{
    assert(("loop"@ + rest).take("loop"@.len() as int) =~= "loop"@);
    assert(("dm-"@ + rest).take("dm-"@.len() as int) =~= "dm-"@);
    assert(("ram"@ + rest).take("ram"@.len() as int) =~= "ram"@);
    assert(("zram"@ + rest).take("zram"@.len() as int) =~= "zram"@);
    assert(("sr"@ + rest).take("sr"@.len() as int) =~= "sr"@);
}

/// Of two paths the first character in which they differ decides: the lower
/// one comes first, and the separator before all others. A path comes before
/// its own continuations.
pub proof fn law_first_difference_decides(
    common: Seq<char>,
    a: Seq<char>,
    b: Seq<char>,
)
    ensures
        a.len() == 0 && b.len() > 0 ==> path_less(common + a, common + b),
        a.len() > 0 && b.len() > 0 && a[0] != b[0] ==> (path_less(common + a, common + b) <==> (
        a[0] == '/' || (b[0] != '/' && (a[0] as u32) < (b[0] as u32)))),
    decreases common.len(),
{
    if common.len() > 0 {
        assert((common + a)[0] == common[0] && (common + b)[0] == common[0]);
        assert((common + a).drop_first() =~= common.drop_first() + a);
        assert((common + b).drop_first() =~= common.drop_first() + b);
        law_first_difference_decides(common.drop_first(), a, b);
    } else {
        assert(common + a =~= a);
        assert(common + b =~= b);
        if a.len() > 0 && b.len() > 0 {
            lemma_ranks_differ(a[0], b[0]);
        }
    }
}

/// A device that could be inspected is listed, and one that could not is not:
/// the inspected disks are those of the successful inspections, in order.
pub proof fn law_inspected_disks(
    results: Seq<TitanResult<DiskTarget>>,
    next: TitanResult<DiskTarget>,
)
    ensures
        inspected(Seq::empty()) == Seq::<DiskView>::empty(),
        inspected(results.push(next)) == match next {
            Ok(disk) => inspected(results).push(disk@),
            Err(_) => inspected(results),
        },
    decreases results.len(),
{
    let all = results.push(next);
    if results.len() == 0 {
        assert(all.drop_first() =~= Seq::empty());
        assert(inspected(all.drop_first()) == Seq::<DiskView>::empty());
        assert(all[0] == next);
        if let Ok(disk) = next {
            assert(seq![disk@] + Seq::<DiskView>::empty() =~= Seq::<DiskView>::empty().push(disk@));
        }
    } else {
        assert(all.drop_first() =~= results.drop_first().push(next));
        assert(all[0] == results[0]);
        law_inspected_disks(results.drop_first(), next);
        if let Ok(disk) = next {
            let rest = inspected(results.drop_first());
            if let Ok(first) = results[0] {
                assert(seq![first@] + rest.push(disk@) =~= (seq![first@] + rest).push(disk@));
            }
        }
    }
}

/// Two lists that hold the same disks of every path hold the same disks: a list
/// that is ordered by path loses no disk and adds none.
pub proof fn law_listed_disks_are_the_inspected_ones(
    listed: Seq<DiskView>,
    found: Seq<DiskView>,
    disk: DiskView,
)
    requires
        forall|path: Seq<char>| #[trigger] with_path(listed, path) == with_path(found, path),
    ensures
        listed.contains(disk) <==> found.contains(disk),
{
    let pred = |d: DiskView| d.path == disk.path;
    assert(with_path(listed, disk.path) == with_path(found, disk.path));
    if listed.contains(disk) {
        let i = choose|i: int| 0 <= i < listed.len() && listed[i] == disk;
        listed.lemma_filter_contains(pred, i);
        lemma_filter_part(found, pred, disk);
    }
    if found.contains(disk) {
        let i = choose|i: int| 0 <= i < found.len() && found[i] == disk;
        found.lemma_filter_contains(pred, i);
        lemma_filter_part(listed, pred, disk);
    }
}

proof fn lemma_filter_part(list: Seq<DiskView>, pred: spec_fn(DiskView) -> bool, disk: DiskView)
    requires
        list.filter(pred).contains(disk),
    ensures
        list.contains(disk),
    decreases list.len(),
{
    reveal(Seq::filter);
    if list.len() > 0 {
        let front = list.drop_last();
        let k = choose|k: int| 0 <= k < list.filter(pred).len() && list.filter(pred)[k] == disk;
        if k < front.filter(pred).len() {
            assert(front.filter(pred)[k] == disk);
            assert(front.filter(pred).contains(disk));
            lemma_filter_part(front, pred, disk);
            let i = choose|i: int| 0 <= i < front.len() && front[i] == disk;
            assert(list[i] == disk);
        } else {
            assert(list[list.len() - 1] == disk);
        }
    }
}

} // verus!
