use titan_wipe::ata::AtaCommand;
use titan_wipe::patterns::PassPattern;
use titan_wipe::spot_check::{holds_only, last_pass_byte, sample_blocks, verify_random_last_pass};
use titan_wipe::types::WipeAlgorithm;
use titan_wipe::wipe::{
    algorithm_passes, blk_discard_trim, passes_completed, WipeCursor, WipeOp, BLOCK_SIZE,
};

const ALL: [WipeAlgorithm; 6] = [
    WipeAlgorithm::NistNvmeCryptoErase,
    WipeAlgorithm::NistAtaSecureErase,
    WipeAlgorithm::NistClear,
    WipeAlgorithm::Dod5220,
    WipeAlgorithm::Gutmann35,
    WipeAlgorithm::RandomSingle,
];

fn plan(algorithm: WipeAlgorithm, enhanced: bool, size: u64) -> Vec<WipeOp> {
    let mut cursor = WipeCursor::new(algorithm, enhanced, size);
    let mut ops = Vec::new();
    loop {
        let (op, rest) = cursor.next();
        match op {
            Some(op) => ops.push(op),
            None => return ops,
        }
        cursor = rest;
    }
}

#[test]
fn block_size_is_four_mebibytes() {
    assert_eq!(BLOCK_SIZE, 4 * 1024 * 1024);
}

#[test]
fn hardware_plans() {
    assert_eq!(plan(WipeAlgorithm::NistNvmeCryptoErase, true, 100), vec![WipeOp::NvmeFormat]);
    assert_eq!(
        plan(WipeAlgorithm::NistAtaSecureErase, true, 100),
        vec![
            WipeOp::Ata(AtaCommand::SetPassword),
            WipeOp::Ata(AtaCommand::ErasePrepare),
            WipeOp::Ata(AtaCommand::EraseUnit { enhanced: true }),
            WipeOp::Discard { size: 100 },
        ]
    );
    assert_eq!(
        plan(WipeAlgorithm::NistAtaSecureErase, false, 100)[2],
        WipeOp::Ata(AtaCommand::EraseUnit { enhanced: false })
    );
}

#[test]
fn clear_plan_ends_with_a_short_block_and_a_trim() {
    let b = BLOCK_SIZE as u64;
    let zero = PassPattern::Constant(0);
    assert_eq!(
        plan(WipeAlgorithm::NistClear, false, 2 * b + 5),
        vec![
            WipeOp::BeginPass { number: 1, total: 1, pattern: zero },
            WipeOp::WriteBlock { offset: 0, len: BLOCK_SIZE, pattern: zero },
            WipeOp::WriteBlock { offset: b, len: BLOCK_SIZE, pattern: zero },
            WipeOp::WriteBlock { offset: 2 * b, len: 5, pattern: zero },
            WipeOp::Sync,
            WipeOp::Discard { size: 2 * b + 5 },
        ]
    );
}

#[test]
fn empty_device_has_passes_without_writes() {
    let ops = plan(WipeAlgorithm::Dod5220, false, 0);
    assert_eq!(ops.len(), 14);
    assert!(ops.iter().all(|op| !matches!(op, WipeOp::WriteBlock { .. })));
}

#[test]
fn every_pass_tiles_the_device_and_is_synced() {
    let b = BLOCK_SIZE as u64;
    for size in [1, b - 1, b, b + 1, 3 * b, 3 * b + 7] {
        for algorithm in ALL {
            let passes = algorithm_passes(algorithm);
            let mut begun = 0usize;
            let mut reached = 0u64;
            for op in plan(algorithm, false, size) {
                match op {
                    WipeOp::BeginPass { number, total, pattern } => {
                        assert_eq!(number, begun + 1);
                        assert_eq!(total, passes.len());
                        assert_eq!(pattern, passes[begun]);
                        begun += 1;
                        reached = 0;
                    }
                    WipeOp::WriteBlock { offset, len, pattern } => {
                        assert_eq!(offset, reached);
                        assert!(len > 0);
                        assert_eq!(pattern, passes[begun - 1]);
                        reached += len as u64;
                    }
                    WipeOp::Sync => assert_eq!(reached, size),
                    _ => assert_eq!(begun, passes.len()),
                }
            }
            assert_eq!(begun, passes.len());
            let counted = if passes.is_empty() { 1 } else { begun as u32 };
            assert_eq!(passes_completed(algorithm), counted);
        }
    }
}

#[test]
fn reported_pass_counts() {
    let counts: Vec<u32> = ALL.iter().map(|a| passes_completed(*a)).collect();
    assert_eq!(counts, vec![1, 1, 1, 7, 35, 1]);
}

#[test]
fn cursor_of_a_dry_run_is_empty() {
    let (op, rest) = WipeCursor::nothing().next();
    assert_eq!(op, None);
    assert_eq!(rest.next().0, None);
}

#[test]
fn abort_points_and_optional_operations() {
    let pattern = PassPattern::Constant(0);
    let begin = WipeOp::BeginPass { number: 2, total: 7, pattern };
    assert!(begin.abortable());
    assert_eq!(begin.label(), "Pass 2/7 [0x00]");
    assert!(WipeOp::WriteBlock { offset: 0, len: BLOCK_SIZE, pattern }.abortable());
    assert!(!WipeOp::WriteBlock { offset: 0, len: 5, pattern }.abortable());
    assert!(!WipeOp::Sync.abortable());
    assert!(!WipeOp::NvmeFormat.abortable());
    assert!(WipeOp::Discard { size: 1 }.optional());
    assert!(!WipeOp::Sync.optional());
    assert_eq!(WipeOp::Sync.label(), "");
    assert_eq!(WipeOp::NvmeFormat.failure_prefix(), "NVMe Format NVM crypto erase failed: ");
    assert_eq!(
        WipeOp::Ata(AtaCommand::ErasePrepare).failure_prefix(),
        "ATA SECURITY ERASE PREPARE failed: "
    );
}

#[test]
fn trim_covers_the_device() {
    assert_eq!(blk_discard_trim(12345), [0, 12345]);
}

#[test]
fn sample_of_a_large_device() {
    let b = BLOCK_SIZE as u64;
    let sample = sample_blocks(1000204886016);
    let blocks = 1000204886016 / b;
    assert_eq!(blocks, 238467);
    assert_eq!(sample.len(), 512);
    assert_eq!(sample[0], 0);
    assert_eq!(sample[1], 466);
    assert_eq!(sample[2], 933);
    assert_eq!(sample[510], 237999);
    assert_eq!(sample[511], blocks - 1);
    for pair in sample.windows(2) {
        assert!(pair[0] < pair[1]);
    }
}

#[test]
fn sample_of_small_devices() {
    let b = BLOCK_SIZE as u64;
    assert_eq!(sample_blocks(0), vec![0]);
    assert_eq!(sample_blocks(b - 1), vec![0]);
    assert_eq!(sample_blocks(b), vec![0]);
    assert_eq!(sample_blocks(2 * b), vec![0, 1]);
    assert_eq!(sample_blocks(3 * b), vec![0, 1, 2]);
    assert_eq!(sample_blocks(3 * b + 7), vec![0, 1, 2]);
    for blocks in [510, 511, 512] {
        assert_eq!(sample_blocks(blocks * b), (0..blocks).collect::<Vec<u64>>());
    }
}

#[test]
fn sample_is_evenly_distributed() {
    let b = BLOCK_SIZE as u64;
    for blocks in [513u64, 1021, 1022, 1023, 5000] {
        let sample = sample_blocks(blocks * b);
        assert_eq!(sample.len(), 512);
        assert_eq!((sample[0], sample[511]), (0, blocks - 1));
        for pair in sample.windows(2) {
            assert!(pair[0] < pair[1]);
            assert!(pair[1] - pair[0] <= (blocks - 1) / 511 + 1);
        }
    }
    assert_eq!(sample_blocks(1021 * b)[..4], [0, 1, 3, 5]);
}

#[test]
fn expected_bytes() {
    let expected: Vec<Option<u8>> = ALL.iter().map(|a| last_pass_byte(*a)).collect();
    assert_eq!(expected, vec![None, None, Some(0x00), Some(0xAA), None, None]);
}

#[test]
fn checks_on_blocks() {
    assert!(holds_only(&[], 7));
    assert!(holds_only(&[7, 7], 7));
    assert!(!holds_only(&[7, 8], 7));
    assert!(verify_random_last_pass(&[]));
    assert!(!verify_random_last_pass(&[9]));
    assert!(!verify_random_last_pass(&[9, 9, 9]));
    assert!(verify_random_last_pass(&[9, 9, 8]));
}
