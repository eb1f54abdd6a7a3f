//! Reading back after an overwrite: which blocks, and what they have to hold.

use vstd::prelude::*;

use crate::types::WipeAlgorithm;
use crate::wipe::BLOCK_SIZE;

verus! {

/// How many blocks are read back at most.
pub const VERIFY_SAMPLE_BLOCKS: u64 = 512;

/// The number of full blocks on a device.
pub open spec fn whole_blocks(size: int) -> int {
    size / BLOCK_SIZE as int
}

/// The blocks that are read back from a device, in ascending order: all full
/// blocks, where there are no more of them than are sampled; otherwise the
/// first, the last, and as many in between as are left, evenly distributed. A
/// device without a full block is read from its start.
pub open spec fn sampled_blocks(size: int) -> Seq<u64> {
    let blocks = whole_blocks(size);
    if blocks == 0 {
        seq![0u64]
    } else if blocks <= VERIFY_SAMPLE_BLOCKS {
        Seq::new(blocks as nat, |k: int| k as u64)
    } else {
        Seq::new(
            VERIFY_SAMPLE_BLOCKS as nat,
            |k: int| (k * (blocks - 1) / (VERIFY_SAMPLE_BLOCKS - 1)) as u64,
        )
    }
}

/// The blocks that are read back from a device, in ascending order.
pub fn sample_blocks(size: u64) -> (r: Vec<u64>)
    ensures
        r@ == sampled_blocks(size as int),
{
    let blocks: u64 = size / BLOCK_SIZE as u64;
    let mut out: Vec<u64> = Vec::new();
    proof {
        assert(blocks == size / 4_194_304);
        assert(size / 4_194_304 <= 0x400_0000_0000);
    }
    if blocks == 0 {
        out.push(0);
        return out;
    }
    let count: u64 = if blocks <= VERIFY_SAMPLE_BLOCKS {
        blocks
    } else {
        VERIFY_SAMPLE_BLOCKS
    };
    let mut k: u64 = 0;
    while k < count
        invariant
            blocks == whole_blocks(size as int),
            0 < blocks <= 0x400_0000_0000,
            count == sampled_blocks(size as int).len(),
            count <= VERIFY_SAMPLE_BLOCKS,
            k <= count,
            out@ == sampled_blocks(size as int).take(k as int),
        decreases count - k,
    {
        let block: u64 = if blocks <= VERIFY_SAMPLE_BLOCKS {
            k
        } else {
            proof {
                assert(0 <= k * (blocks - 1) <= 511 * 0x400_0000_0000) by (nonlinear_arith)
                    requires
                        0 <= k <= 511,
                        0 < blocks <= 0x400_0000_0000,
                ;
            }
            k * (blocks - 1) / (VERIFY_SAMPLE_BLOCKS - 1)
        };
        out.push(block);
        k = k + 1;
        proof {
            assert(out@ =~= sampled_blocks(size as int).take(k as int));
        }
    }
    proof {
        assert(out@ =~= sampled_blocks(size as int));
    }
    out
}

/// One place of the even distribution: it does not leave the device, and the
/// next place is `gap / 511` or one more behind it.
proof fn lemma_even_places(k: int, gap: int)
    requires
        0 <= k <= 511,
        0 <= gap,
    ensures
        0 <= k * gap / 511 <= gap,
        k * gap / 511 + gap / 511 <= (k + 1) * gap / 511 <= k * gap / 511 + gap / 511 + 1,
        0 * gap / 511 == 0,
        511 * gap / 511 == gap,
{
    assert(0 <= k * gap <= 511 * gap) by (nonlinear_arith)
        requires
            0 <= k <= 511,
            0 <= gap,
    ;
    assert((k + 1) * gap == k * gap + gap) by (nonlinear_arith);
    assert(0 * gap == 0);
}

proof fn lemma_even_places_ascend(k: int, l: int, gap: int)
    requires
        0 <= k < l <= 511,
        511 <= gap,
    ensures
        k * gap / 511 < l * gap / 511,
    decreases l - k,
{
    lemma_even_places(l - 1, gap);
    if k < l - 1 {
        lemma_even_places_ascend(k, l - 1, gap);
    }
}

/// The first block and the last full block are read back, and 512 at most are.
/// Of a device with at most 512 full blocks every one is read; of a larger one
/// exactly 512 are, and the distance between two neighbours is nowhere more
/// than one block above the even one. No block is read twice, they come in
/// ascending order, and none lies behind the end of the device.
pub proof fn law_sample_spans_the_device(size: u64)
    ensures
        ({
            let blocks = whole_blocks(size as int);
            let sample = sampled_blocks(size as int);
            &&& blocks * BLOCK_SIZE <= size < (blocks + 1) * BLOCK_SIZE
            &&& sample.len() > 0
            &&& sample.first() == 0
            &&& blocks > 0 ==> sample.last() == blocks - 1
            &&& sample.len() <= VERIFY_SAMPLE_BLOCKS
            &&& blocks >= VERIFY_SAMPLE_BLOCKS ==> sample.len() == VERIFY_SAMPLE_BLOCKS
            &&& blocks <= VERIFY_SAMPLE_BLOCKS ==> forall|block: u64|
                block < blocks ==> #[trigger] sample.contains(block)
            &&& forall|i: int, j: int| 0 <= i < j < sample.len() ==> sample[i] < sample[j]
            &&& forall|i: int, j: int|
                #![trigger sample[i], sample[j]]
                0 <= i < sample.len() && j == i + 1 && j < sample.len() ==> sample[j] - sample[i]
                    <= (blocks - 1) / (VERIFY_SAMPLE_BLOCKS - 1) + 1
            &&& forall|i: int| 0 <= i < sample.len() ==> #[trigger] sample[i] * BLOCK_SIZE <= size
        }),
{
    let blocks = whole_blocks(size as int);
    let sample = sampled_blocks(size as int);
    if blocks <= VERIFY_SAMPLE_BLOCKS {
        assert forall|block: u64| block < blocks implies #[trigger] sample.contains(block) by {
            assert(sample[block as int] == block);
        }
    } else {
        let gap = blocks - 1;
        assert forall|k: int| 0 <= k < sample.len() implies #[trigger] sample[k] == k * gap / 511
            && k * gap / 511 <= gap by {
            lemma_even_places(k, gap);
        }
        lemma_even_places(0, gap);
        assert(sample[0] == 0 * gap / 511);
        assert(sample[511] == 511 * gap / 511);
        assert forall|i: int, j: int| 0 <= i < j < sample.len() implies sample[i] < sample[j] by {
            lemma_even_places_ascend(i, j, gap);
        }
        assert forall|i: int, j: int|
            #![trigger sample[i], sample[j]]
            0 <= i < sample.len() && j == i + 1 && j < sample.len() implies sample[j] - sample[i]
            <= gap / 511 + 1 by {
            lemma_even_places(i, gap);
        }
    }
}

// ---------------------------------------------------------------------------
// What a block has to hold
// ---------------------------------------------------------------------------

/// The byte that every position holds after the last pass, where the last
/// pass writes a constant.
pub open spec fn expected_byte(algorithm: WipeAlgorithm) -> Option<u8> {
    match algorithm {
        WipeAlgorithm::NistClear => Some(0x00),
        WipeAlgorithm::Dod5220 => Some(0xAA),
        _ => None,
    }
}

/// The byte that every position holds after the last pass.
pub fn last_pass_byte(algorithm: WipeAlgorithm) -> (r: Option<u8>)
    ensures
        r == expected_byte(algorithm),
{
    match algorithm {
        WipeAlgorithm::NistClear => Some(0x00),
        WipeAlgorithm::Dod5220 => Some(0xAA),
        _ => None,
    }
}

/// Whether every byte is `b`.
pub open spec fn all_bytes(bytes: Seq<u8>, b: u8) -> bool {
    forall|i: int| 0 <= i < bytes.len() ==> #[trigger] bytes[i] == b
}

/// Whether every byte is `expected`.
pub fn holds_only(bytes: &[u8], expected: u8) -> (r: bool)
    ensures
        r == all_bytes(bytes@, expected),
{
    let n: usize = bytes.len();
    let mut i: usize = 0;
    while i < n
        invariant
            i <= n,
            n == bytes@.len(),
            forall|j: int| 0 <= j < i ==> #[trigger] bytes@[j] == expected,
        decreases n - i,
    {
        if bytes[i] != expected {
            return false;
        }
        i = i + 1;
    }
    true
}

/// Whether bytes can have come from a random pass: there are none, or they are
/// not all the same.
pub open spec fn plausibly_random(bytes: Seq<u8>) -> bool {
    bytes.len() == 0 || !all_bytes(bytes, bytes[0])
}

/// Whether bytes can have come from a random pass.
pub fn verify_random_last_pass(bytes: &[u8]) -> (r: bool)
    ensures
        r == plausibly_random(bytes@),
{
    bytes.len() == 0 || !holds_only(bytes, bytes[0])
}

/// Bytes pass for random exactly where two of them differ, wherever these two
/// stand, or where there are none.
pub proof fn law_two_bytes_that_differ_pass_for_random(bytes: Seq<u8>)
    ensures
        plausibly_random(bytes) <==> bytes.len() == 0 || exists|i: int, j: int|
            #![trigger bytes[i], bytes[j]]
            0 <= i < j < bytes.len() && bytes[i] != bytes[j],
{
    if plausibly_random(bytes) && bytes.len() > 0 {
        let j = choose|j: int| 0 <= j < bytes.len() && #[trigger] bytes[j] != bytes[0];
        assert(bytes[0] != bytes[j]);
    }
    if exists|i: int, j: int|
        #![trigger bytes[i], bytes[j]]
        0 <= i < j < bytes.len() && bytes[i] != bytes[j] {
        let (i, j) = choose|i: int, j: int|
            #![trigger bytes[i], bytes[j]]
            0 <= i < j < bytes.len() && bytes[i] != bytes[j];
        if all_bytes(bytes, bytes[0]) {
            assert(bytes[i] == bytes[0] && bytes[j] == bytes[0]);
        }
    }
}

} // verus!
