//! What a wipe plan does to the bytes of a device.

use vstd::prelude::*;

use crate::ata::AtaCommand;
use crate::patterns::{clear_passes, dod_passes, gutmann_passes, random_passes, PassPattern};
use crate::spot_check::expected_byte;
use crate::types::WipeAlgorithm;
use crate::wipe::{
    block_count, closing_ops, overwrite_ops, pass_ops, passes_of, reported_passes, wipe_plan,
    write_op, write_ops, WipeOp, BLOCK_SIZE,
};

verus! {

/// Whether an operation writes the byte at `i`.
pub open spec fn covers(op: WipeOp, i: int) -> bool {
    op matches WipeOp::WriteBlock { offset, len, .. } && offset <= i < offset + len
}

/// What is known of the byte at `i` behind an operation, when `was` is known
/// of it before. A discarded byte keeps its value or reads as zero. What a
/// controller's erase leaves behind is not known.
pub open spec fn known_after(op: WipeOp, i: int, was: Option<u8>) -> Option<u8> {
    match op {
        WipeOp::WriteBlock { offset, pattern, .. } => if covers(op, i) {
            pattern.byte_at(i - offset)
        } else {
            was
        },
        WipeOp::BeginPass { .. } | WipeOp::Sync => was,
        WipeOp::Discard { .. } => if was == Some(0u8) {
            was
        } else {
            None
        },
        WipeOp::NvmeFormat | WipeOp::Ata(_) => None,
    }
}

/// What is known of the byte at `i` behind a sequence of operations.
pub open spec fn known(ops: Seq<WipeOp>, i: int, was: Option<u8>) -> Option<u8>
    decreases ops.len(),
{
    if ops.len() == 0 {
        was
    } else {
        known_after(ops.last(), i, known(ops.drop_last(), i, was))
    }
}

/// Operations one behind the other.
pub proof fn lemma_known_concat(a: Seq<WipeOp>, b: Seq<WipeOp>, i: int, was: Option<u8>)
    ensures
        known(a + b, i, was) == known(b, i, known(a, i, was)),
    decreases b.len(),
{
    if b.len() == 0 {
        assert(a + b =~= a);
    } else {
        assert((a + b).drop_last() =~= a + b.drop_last());
        lemma_known_concat(a, b.drop_last(), i, was);
    }
}

/// A single operation.
pub proof fn lemma_known_single(op: WipeOp, i: int, was: Option<u8>)
    ensures
        known(seq![op], i, was) == known_after(op, i, was),
{
    reveal_with_fuel(known, 2);
    assert(seq![op].drop_last() =~= Seq::<WipeOp>::empty());
}

/// The writes of a pass lie in the device, are not empty, follow one another
/// without a gap, and reach from the device's start to its end.
pub proof fn law_writes_tile_the_device(size: u64, pattern: PassPattern, k: int)
    requires
        0 <= k < write_ops(size as int, pattern).len(),
    ensures
        ({
            let writes = write_ops(size as int, pattern);
            match writes[k] {
                WipeOp::WriteBlock { offset, len, pattern: written } => {
                    &&& written == pattern
                    &&& offset == k * BLOCK_SIZE
                    &&& 0 < len <= BLOCK_SIZE
                    &&& offset + len == if k + 1 < writes.len() {
                        (k + 1) * BLOCK_SIZE
                    } else {
                        size as int
                    }
                },
                _ => false,
            }
        }),
{
    assert(write_ops(size as int, pattern)[k] == write_op(k, size as int, pattern));
}

/// Every byte of the device is written in a pass, and by one write only.
pub proof fn law_every_byte_is_written_once(size: u64, pattern: PassPattern, i: int, k: int)
    requires
        0 <= i < size,
        0 <= k < write_ops(size as int, pattern).len(),
    ensures
        i / (BLOCK_SIZE as int) < write_ops(size as int, pattern).len(),
        covers(write_ops(size as int, pattern)[k], i) <==> k == i / BLOCK_SIZE as int,
{
    law_writes_tile_the_device(size, pattern, k);
}

/// The first `k` writes of a pass put the pattern into the first `k` blocks
/// and leave the others alone.
proof fn lemma_known_writes(size: u64, pattern: PassPattern, k: int, i: int, was: Option<u8>)
    requires
        0 <= i < size,
        0 <= k <= write_ops(size as int, pattern).len(),
    ensures
        known(write_ops(size as int, pattern).take(k), i, was) == if i < k * BLOCK_SIZE {
            pattern.byte_at(i)
        } else {
            was
        },
    decreases k,
{
    let writes = write_ops(size as int, pattern);
    if k > 0 {
        assert(writes.take(k).drop_last() =~= writes.take(k - 1));
        assert(writes.take(k).last() == writes[k - 1]);
        lemma_known_writes(size, pattern, k - 1, i, was);
        law_writes_tile_the_device(size, pattern, k - 1);
        let offset = (k - 1) * BLOCK_SIZE;
        assert((i - offset) % 2 == i % 2);
    }
}

/// A pass leaves its pattern at every position of the device.
pub proof fn law_pass_leaves_its_pattern(
    passes: Seq<PassPattern>,
    pass: int,
    size: u64,
    i: int,
    was: Option<u8>,
)
    requires
        0 <= pass < passes.len(),
        0 <= i < size,
    ensures
        known(pass_ops(passes, pass, size as int), i, was) == passes[pass].byte_at(i),
{
    let writes = write_ops(size as int, passes[pass]);
    let op = WipeOp::BeginPass {
        number: (pass + 1) as usize,
        total: passes.len() as usize,
        pattern: passes[pass],
    };
    let begin = seq![op];
    let end = seq![WipeOp::Sync];
    lemma_known_concat(begin + writes, end, i, was);
    lemma_known_concat(begin, writes, i, was);
    lemma_known_single(op, i, was);
    lemma_known_single(WipeOp::Sync, i, known(begin + writes, i, was));
    let n = writes.len() as int;
    assert(writes.take(n) =~= writes);
    lemma_known_writes(size, passes[pass], n, i, known(begin, i, was));
}

/// After all passes every position of the device holds what the last pass
/// puts there, whatever it held before.
pub proof fn law_last_pass_stays(
    passes: Seq<PassPattern>,
    from: int,
    size: u64,
    i: int,
    was: Option<u8>,
)
    requires
        0 <= from < passes.len(),
        0 <= i < size,
    ensures
        known(overwrite_ops(passes, from, size as int), i, was) == passes.last().byte_at(i),
    decreases passes.len() - from,
{
    let first = pass_ops(passes, from, size as int);
    let later = overwrite_ops(passes, from + 1, size as int);
    lemma_known_concat(first, later, i, was);
    law_pass_leaves_its_pattern(passes, from, size, i, was);
    if from + 1 < passes.len() {
        law_last_pass_stays(passes, from + 1, size, i, known(first, i, was));
    }
}

/// After the whole plan of an algorithm every position of the device holds
/// exactly the byte that verification expects there, whatever it held before;
/// where verification expects none, none is known.
pub proof fn law_plan_leaves_what_verification_expects(
    algorithm: WipeAlgorithm,
    enhanced: bool,
    size: u64,
    i: int,
    was: Option<u8>,
)
    requires
        0 <= i < size,
    ensures
        known(wipe_plan(algorithm, enhanced, size), i, was) == expected_byte(algorithm),
{
    let passes = passes_of(algorithm);
    let overwrite = overwrite_ops(passes, 0, size as int);
    let closing = closing_ops(algorithm, enhanced, size);
    let middle = known(overwrite, i, was);
    lemma_known_concat(overwrite, closing, i, was);
    match algorithm {
        WipeAlgorithm::NistNvmeCryptoErase => {
            lemma_known_single(WipeOp::NvmeFormat, i, middle);
        },
        WipeAlgorithm::NistAtaSecureErase => {
            reveal_with_fuel(known, 2);
            assert(closing.last() == WipeOp::Discard { size });
            let commands = closing.drop_last();
            assert(commands.last() is Ata);
        },
        WipeAlgorithm::NistClear => {
            law_last_pass_stays(passes, 0, size, i, was);
            lemma_known_single(WipeOp::Discard { size }, i, middle);
        },
        _ => {
            law_last_pass_stays(passes, 0, size, i, was);
        },
    }
}

// ---------------------------------------------------------------------------
// Order
// ---------------------------------------------------------------------------

/// How many passes begin in a sequence of operations.
pub open spec fn begun_passes(ops: Seq<WipeOp>) -> nat
    decreases ops.len(),
{
    if ops.len() == 0 {
        0
    } else if ops.last() is BeginPass {
        begun_passes(ops.drop_last()) + 1
    } else {
        begun_passes(ops.drop_last())
    }
}

proof fn lemma_begun_concat(a: Seq<WipeOp>, b: Seq<WipeOp>)
    ensures
        begun_passes(a + b) == begun_passes(a) + begun_passes(b),
    decreases b.len(),
{
    if b.len() == 0 {
        assert(a + b =~= a);
    } else {
        assert((a + b).drop_last() =~= a + b.drop_last());
        lemma_begun_concat(a, b.drop_last());
    }
}

proof fn lemma_begun_none(ops: Seq<WipeOp>)
    requires
        forall|k: int| 0 <= k < ops.len() ==> !(#[trigger] ops[k] is BeginPass),
    ensures
        begun_passes(ops) == 0,
    decreases ops.len(),
{
    if ops.len() > 0 {
        lemma_begun_none(ops.drop_last());
    }
}

proof fn lemma_begun_overwrite(passes: Seq<PassPattern>, from: int, size: int)
    requires
        0 <= from <= passes.len(),
    ensures
        begun_passes(overwrite_ops(passes, from, size)) == passes.len() - from,
    decreases passes.len() - from,
{
    if from < passes.len() {
        let writes = write_ops(size, passes[from]);
        let begin = seq![
            WipeOp::BeginPass {
                number: (from + 1) as usize,
                total: passes.len() as usize,
                pattern: passes[from],
            },
        ];
        let end = seq![WipeOp::Sync];
        lemma_begun_concat(pass_ops(passes, from, size), overwrite_ops(passes, from + 1, size));
        lemma_begun_concat(begin + writes, end);
        lemma_begun_concat(begin, writes);
        assert(begin.drop_last() =~= Seq::<WipeOp>::empty());
        lemma_begun_none(begin.drop_last());
        lemma_begun_none(writes);
        lemma_begun_none(end);
        lemma_begun_overwrite(passes, from + 1, size);
    }
}

/// The number of passes that a certificate reports is the number of passes
/// that the plan begins; a hardware erase begins none and is reported as one.
pub proof fn law_reported_passes_are_the_passes_begun(
    algorithm: WipeAlgorithm,
    enhanced: bool,
    size: u64,
)
    ensures
        algorithm.is_hardware_erase() ==> reported_passes(algorithm) == 1,
        begun_passes(wipe_plan(algorithm, enhanced, size)) == if algorithm.is_hardware_erase() {
            0
        } else {
            reported_passes(algorithm)
        },
{
    let passes = passes_of(algorithm);
    lemma_begun_concat(
        overwrite_ops(passes, 0, size as int),
        closing_ops(algorithm, enhanced, size),
    );
    lemma_begun_overwrite(passes, 0, size as int);
    lemma_begun_none(closing_ops(algorithm, enhanced, size));
}

/// Whether some operation between two places forces the writes out.
pub open spec fn sync_between(ops: Seq<WipeOp>, i: int, j: int) -> bool {
    exists|k: int| i < k < j && #[trigger] ops[k] is Sync
}

/// Every write of the passes is forced out before the next pass begins, and
/// before the passes are over.
pub proof fn law_writes_are_forced_out(
    passes: Seq<PassPattern>,
    from: int,
    size: u64,
    i: int,
    j: int,
)
    requires
        0 <= from,
        0 <= i < j <= overwrite_ops(passes, from, size as int).len(),
        overwrite_ops(passes, from, size as int)[i] is WriteBlock,
        j == overwrite_ops(passes, from, size as int).len() || overwrite_ops(
            passes,
            from,
            size as int,
        )[j] is BeginPass,
    ensures
        sync_between(overwrite_ops(passes, from, size as int), i, j),
    decreases passes.len() - from,
{
    let ops = overwrite_ops(passes, from, size as int);
    let first = pass_ops(passes, from, size as int);
    let later = overwrite_ops(passes, from + 1, size as int);
    let n = first.len() as int;
    if i < n {
        assert(ops[n - 1] == first[n - 1]);
        assert(first[n - 1] is Sync);
        assert(ops[i] == first[i]);
        if j < n {
            assert(ops[j] == first[j]);
            assert(!(first[j] is BeginPass));
        }
    } else {
        assert(ops[i] == later[i - n]);
        if j < ops.len() {
            assert(ops[j] == later[j - n]);
        }
        law_writes_are_forced_out(passes, from + 1, size, i - n, j - n);
        let k = choose|k: int| i - n < k < j - n && #[trigger] later[k] is Sync;
        assert(ops[k + n] == later[k]);
    }
}

// ---------------------------------------------------------------------------
// The plan, place by place
// ---------------------------------------------------------------------------

/// Each overwrite algorithm runs the passes that are prescribed for it; the
/// hardware erases run none.
pub proof fn law_algorithms_run_their_passes(algorithm: WipeAlgorithm)
    ensures
        algorithm.is_hardware_erase() <==> algorithm is NistNvmeCryptoErase
            || algorithm is NistAtaSecureErase,
        algorithm.is_hardware_erase() <==> passes_of(algorithm).len() == 0,
        algorithm is NistClear ==> passes_of(algorithm) == clear_passes(),
        algorithm is Dod5220 ==> passes_of(algorithm) == dod_passes(),
        algorithm is Gutmann35 ==> passes_of(algorithm) == gutmann_passes(),
        algorithm is RandomSingle ==> passes_of(algorithm) == random_passes(),
        reported_passes(algorithm) == if algorithm is Dod5220 {
            7
        } else if algorithm is Gutmann35 {
            35
        } else {
            1nat
        },
{
}

/// Where the operations of a pass stand among those of all passes.
proof fn lemma_pass_position(passes: Seq<PassPattern>, from: int, size: int, pass: int, j: int)
    requires
        0 <= size,
        0 <= from <= passes.len(),
    ensures
        overwrite_ops(passes, from, size).len() == (passes.len() - from) * (block_count(size) + 2),
        from <= pass < passes.len() && 0 <= j < block_count(size) + 2 ==> {
            let at = (pass - from) * (block_count(size) + 2) + j;
            &&& 0 <= at < overwrite_ops(passes, from, size).len()
            &&& overwrite_ops(passes, from, size)[at] == pass_ops(passes, pass, size)[j]
        },
    decreases passes.len() - from,
{
    let span = block_count(size) + 2;
    if from < passes.len() {
        let first = pass_ops(passes, from, size);
        let later = overwrite_ops(passes, from + 1, size);
        lemma_pass_position(passes, from + 1, size, pass, j);
        assert(first.len() == span);
        assert((passes.len() - from) * span == span + (passes.len() - (from + 1)) * span)
            by (nonlinear_arith);
        assert((pass - from) * span == span + (pass - (from + 1)) * span) by (nonlinear_arith);
        assert(pass == from ==> (pass - from) * span == 0) by (nonlinear_arith);
        if from < pass && pass < passes.len() && 0 <= j < span {
            let at = (pass - from) * span + j;
            assert(overwrite_ops(passes, from, size)[at] == later[at - span]);
        }
    } else {
        assert((passes.len() - from) * span == 0) by (nonlinear_arith)
            requires
                passes.len() == from,
        ;
    }
}

/// The plan of an overwrite, place by place: pass number `number` begins, then
/// writes the blocks one behind the other with its own pattern, and is forced
/// out; the next pass follows at once.
pub proof fn law_plan_runs_pass_by_pass(
    algorithm: WipeAlgorithm,
    enhanced: bool,
    size: u64,
    number: int,
    k: int,
)
    requires
        1 <= number <= passes_of(algorithm).len(),
    ensures
        ({
            let plan = wipe_plan(algorithm, enhanced, size);
            let passes = passes_of(algorithm);
            let blocks = block_count(size as int);
            let start = (number - 1) * (blocks + 2);
            &&& (blocks - 1) * BLOCK_SIZE < size <= blocks * BLOCK_SIZE
            &&& 0 <= start && start + blocks + 1 < plan.len()
            &&& plan[start] == WipeOp::BeginPass {
                number: number as usize,
                total: passes.len() as usize,
                pattern: passes[number - 1],
            }
            &&& 0 <= k < blocks ==> plan[start + 1 + k] == WipeOp::WriteBlock {
                offset: (k * BLOCK_SIZE) as u64,
                len: (if k == blocks - 1 {
                    size - k * BLOCK_SIZE
                } else {
                    BLOCK_SIZE as int
                }) as usize,
                pattern: passes[number - 1],
            }
            &&& plan[start + 1 + blocks] == WipeOp::Sync
        }),
{
    let passes = passes_of(algorithm);
    let blocks = block_count(size as int);
    let start = (number - 1) * (blocks + 2);
    let overwrite = overwrite_ops(passes, 0, size as int);
    let plan = wipe_plan(algorithm, enhanced, size);
    let ops = pass_ops(passes, number - 1, size as int);
    assert(0 <= start) by (nonlinear_arith)
        requires
            start == (number - 1) * (blocks + 2),
            1 <= number,
            0 <= blocks,
    ;
    lemma_pass_position(passes, 0, size as int, number - 1, 0);
    lemma_pass_position(passes, 0, size as int, number - 1, blocks + 1);
    assert(plan[start] == overwrite[start]);
    assert(plan[start + 1 + blocks] == overwrite[start + 1 + blocks]);
    if 0 <= k < blocks {
        lemma_pass_position(passes, 0, size as int, number - 1, 1 + k);
        assert(plan[start + 1 + k] == overwrite[start + 1 + k]);
        assert(ops[1 + k] == write_op(k, size as int, passes[number - 1]));
    }
}

/// What follows the passes, or stands in their place: nothing for the
/// multi-pass overwrites and the random one, a TRIM of the whole device behind
/// the Clear pass, the erase command of the NVMe controller, and the three ATA
/// commands with a TRIM behind them. The erase is enhanced exactly where the
/// drive reports that it can be.
pub proof fn law_plan_closes(algorithm: WipeAlgorithm, enhanced: bool, size: u64)
    ensures
        ({
            let plan = wipe_plan(algorithm, enhanced, size);
            let start = passes_of(algorithm).len() * (block_count(size as int) + 2);
            match algorithm {
                WipeAlgorithm::NistNvmeCryptoErase => plan == seq![WipeOp::NvmeFormat],
                WipeAlgorithm::NistAtaSecureErase => plan == seq![
                    WipeOp::Ata(AtaCommand::SetPassword),
                    WipeOp::Ata(AtaCommand::ErasePrepare),
                    WipeOp::Ata(AtaCommand::EraseUnit { enhanced }),
                    WipeOp::Discard { size },
                ],
                WipeAlgorithm::NistClear => plan.len() == start + 1 && plan.last()
                    == (WipeOp::Discard { size }),
                _ => plan.len() == start,
            }
        }),
{
    let plan = wipe_plan(algorithm, enhanced, size);
    lemma_pass_position(passes_of(algorithm), 0, size as int, 0, 0);
    match algorithm {
        WipeAlgorithm::NistNvmeCryptoErase => {
            assert(plan =~= seq![WipeOp::NvmeFormat]);
        },
        WipeAlgorithm::NistAtaSecureErase => {
            assert(plan =~= seq![
                WipeOp::Ata(AtaCommand::SetPassword),
                WipeOp::Ata(AtaCommand::ErasePrepare),
                WipeOp::Ata(AtaCommand::EraseUnit { enhanced }),
                WipeOp::Discard { size },
            ]);
        },
        _ => {},
    }
}

/// The last operation of a sequence that writes the byte at `i`.
pub open spec fn last_write(ops: Seq<WipeOp>, i: int) -> Option<WipeOp>
    decreases ops.len(),
{
    if ops.len() == 0 {
        None
    } else if covers(ops.last(), i) {
        Some(ops.last())
    } else {
        last_write(ops.drop_last(), i)
    }
}

proof fn lemma_last_write_concat(a: Seq<WipeOp>, b: Seq<WipeOp>, i: int)
    ensures
        last_write(a + b, i) == if last_write(b, i) is Some {
            last_write(b, i)
        } else {
            last_write(a, i)
        },
    decreases b.len(),
{
    if b.len() == 0 {
        assert(a + b =~= a);
    } else {
        assert((a + b).drop_last() =~= a + b.drop_last());
        assert((a + b).last() == b.last());
        lemma_last_write_concat(a, b.drop_last(), i);
    }
}

proof fn lemma_last_write_none(ops: Seq<WipeOp>, i: int)
    requires
        forall|k: int| 0 <= k < ops.len() ==> !covers(#[trigger] ops[k], i),
    ensures
        last_write(ops, i) is None,
    decreases ops.len(),
{
    if ops.len() > 0 {
        lemma_last_write_none(ops.drop_last(), i);
    }
}

proof fn lemma_last_write_of_pass(size: u64, pattern: PassPattern, k: int, i: int)
    requires
        0 <= i < size,
        0 <= k <= write_ops(size as int, pattern).len(),
    ensures
        last_write(write_ops(size as int, pattern).take(k), i) == if i / (BLOCK_SIZE as int) < k {
            Some(write_ops(size as int, pattern)[i / (BLOCK_SIZE as int)])
        } else {
            None
        },
    decreases k,
{
    let writes = write_ops(size as int, pattern);
    if k > 0 {
        assert(writes.take(k).drop_last() =~= writes.take(k - 1));
        assert(writes.take(k).last() == writes[k - 1]);
        lemma_last_write_of_pass(size, pattern, k - 1, i);
        law_every_byte_is_written_once(size, pattern, i, k - 1);
    }
}

proof fn lemma_last_write_of_overwrite(passes: Seq<PassPattern>, from: int, size: u64, i: int)
    requires
        0 <= from < passes.len(),
        0 <= i < size,
    ensures
        last_write(overwrite_ops(passes, from, size as int), i) == Some(
            write_op(i / (BLOCK_SIZE as int), size as int, passes.last()),
        ),
    decreases passes.len() - from,
{
    let first = pass_ops(passes, from, size as int);
    let later = overwrite_ops(passes, from + 1, size as int);
    lemma_last_write_concat(first, later, i);
    if from + 1 < passes.len() {
        lemma_last_write_of_overwrite(passes, from + 1, size, i);
    } else {
        let writes = write_ops(size as int, passes[from]);
        let begin = seq![
            WipeOp::BeginPass {
                number: (from + 1) as usize,
                total: passes.len() as usize,
                pattern: passes[from],
            },
        ];
        let end = seq![WipeOp::Sync];
        lemma_last_write_none(later, i);
        lemma_last_write_none(end, i);
        lemma_last_write_concat(begin + writes, end, i);
        lemma_last_write_concat(begin, writes, i);
        let n = writes.len() as int;
        assert(writes.take(n) =~= writes);
        law_every_byte_is_written_once(size, passes[from], i, 0);
        lemma_last_write_of_pass(size, passes[from], n, i);
        assert(writes[i / (BLOCK_SIZE as int)] == write_op(
            i / (BLOCK_SIZE as int),
            size as int,
            passes[from],
        ));
    }
}

/// The last write to every byte of the device is one of the whole block that
/// the byte lies in. It is a random one for the Gutmann method and the random
/// overwrite, one of zeros for Clear, and one of the marker for DoD 5220.22-M.
/// A hardware erase writes no byte itself.
pub proof fn law_last_write_to_every_byte(
    algorithm: WipeAlgorithm,
    enhanced: bool,
    size: u64,
    i: int,
)
    requires
        0 <= i < size,
    ensures
        ({
            let last = last_write(wipe_plan(algorithm, enhanced, size), i);
            let start = i - i % (BLOCK_SIZE as int);
            &&& algorithm.is_hardware_erase() <==> last is None
            &&& last is Some ==> match last->0 {
                WipeOp::WriteBlock { offset, len, pattern } => {
                    &&& offset == start
                    &&& len == if size - start < BLOCK_SIZE {
                        size - start
                    } else {
                        BLOCK_SIZE as int
                    }
                    &&& pattern == match algorithm {
                        WipeAlgorithm::NistClear => PassPattern::Constant(0x00),
                        WipeAlgorithm::Dod5220 => PassPattern::Constant(0xAA),
                        _ => PassPattern::CryptographicRandom,
                    }
                },
                _ => false,
            }
        }),
{
    let passes = passes_of(algorithm);
    let overwrite = overwrite_ops(passes, 0, size as int);
    let closing = closing_ops(algorithm, enhanced, size);
    lemma_last_write_concat(overwrite, closing, i);
    lemma_last_write_none(closing, i);
    if passes.len() > 0 {
        lemma_last_write_of_overwrite(passes, 0, size, i);
        law_every_byte_is_written_once(size, passes.last(), i, 0);
    }
}

} // verus!
