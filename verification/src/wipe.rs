//! The operations that wipe a device, and the order in which they are issued.

use vstd::prelude::*;
use vstd::string::StringExecFns;

use crate::ata::{ata_secure_erase, secure_erase_commands, AtaCommand};
use crate::numerals::{decimal, decimal_text};
use crate::patterns::{
    clear_passes, dod_5220_22m_ece_passes, dod_passes, gutmann_35_passes, gutmann_passes,
    nist_clear_passes, random_passes, random_single_passes, PassPattern,
};
use crate::text::concat2;
use crate::types::WipeAlgorithm;

verus! {

/// Bytes in one block of sequential input and output: 4 MiB.
pub const BLOCK_SIZE: usize = 4_194_304;

/// One operation on the device that is wiped.
#[derive(Debug, Clone, Copy, PartialEq, Eq, Structural)]
pub enum WipeOp {
    /// Cryptographic erase by the NVMe controller.
    NvmeFormat,
    /// A command of the ATA Secure Erase sequence.
    Ata(AtaCommand),
    /// TRIM of the whole device.
    Discard { size: u64 },
    /// Start of an overwrite pass: open the device for writing, at its start.
    BeginPass { number: usize, total: usize, pattern: PassPattern },
    /// Write `len` bytes of the pattern at `offset`.
    WriteBlock { offset: u64, len: usize, pattern: PassPattern },
    /// Force what was written out to the device.
    Sync,
}

impl WipeOp {
    /// Whether the operator's abort is honoured right in front of it: at the
    /// start of a pass and at every full block.
    pub open spec fn is_abortable(self) -> bool {
        match self {
            WipeOp::BeginPass { .. } => true,
            WipeOp::WriteBlock { len, .. } => len == BLOCK_SIZE,
            _ => false,
        }
    }

    /// Whether the run goes on where it fails.
    pub open spec fn is_optional(self) -> bool {
        self is Discard
    }

    /// What a failed kernel command is reported as, up to the system's own
    /// words.
    pub open spec fn failure_text(self) -> Seq<char> {
        match self {
            WipeOp::NvmeFormat => "NVMe Format NVM crypto erase failed: "@,
            WipeOp::Ata(command) => command.failure_text(),
            _ => ""@,
        }
    }

    /// The progress label of a pass.
    pub open spec fn label_text(self) -> Seq<char> {
        match self {
            WipeOp::BeginPass { number, total, pattern } => "Pass "@ + decimal(number as nat) + "/"@
                + decimal(total as nat) + " ["@ + pattern.text() + "]"@,
            _ => ""@,
        }
    }

    /// Whether the operator's abort is honoured right in front of it.
    pub fn abortable(self) -> (r: bool)
        ensures
            r == self.is_abortable(),
    {
        match self {
            WipeOp::BeginPass { .. } => true,
            WipeOp::WriteBlock { len, .. } => len == BLOCK_SIZE,
            _ => false,
        }
    }

    /// Whether the run goes on where it fails.
    pub fn optional(self) -> (r: bool)
        ensures
            r == self.is_optional(),
    {
        match self {
            WipeOp::Discard { .. } => true,
            _ => false,
        }
    }

    /// What a failed kernel command is reported as, up to the system's own
    /// words.
    pub fn failure_prefix(self) -> (r: &'static str)
        ensures
            r@ == self.failure_text(),
    {
        match self {
            WipeOp::NvmeFormat => "NVMe Format NVM crypto erase failed: ",
            WipeOp::Ata(command) => command.failure_prefix(),
            _ => "",
        }
    }

    /// The progress label of a pass; other operations have the empty one.
    pub fn label(self) -> (r: String)
        ensures
            r@ == self.label_text(),
    {
        match self {
            WipeOp::BeginPass { number, total, pattern } => {
                let mut out = concat2("Pass ", decimal_text(number as u64).as_str());
                out.append("/");
                out.append(decimal_text(total as u64).as_str());
                out.append(" [");
                out.append(pattern.description().as_str());
                out.append("]");
                out
            },
            _ => "".to_owned(),
        }
    }
}

/// The range that TRIM is asked for: its start and its length.
pub fn blk_discard_trim(size_bytes: u64) -> (r: [u64; 2])
    ensures
        r@ == seq![0u64, size_bytes],
{
    let r: [u64; 2] = [0, size_bytes];
    proof {
        assert(r@ =~= seq![0u64, size_bytes]);
    }
    r
}

// ---------------------------------------------------------------------------
// The plan
// ---------------------------------------------------------------------------

/// The passes of an algorithm; the hardware erases have none.
pub open spec fn passes_of(algorithm: WipeAlgorithm) -> Seq<PassPattern> {
    match algorithm {
        WipeAlgorithm::NistNvmeCryptoErase | WipeAlgorithm::NistAtaSecureErase => Seq::empty(),
        WipeAlgorithm::NistClear => clear_passes(),
        WipeAlgorithm::Dod5220 => dod_passes(),
        WipeAlgorithm::Gutmann35 => gutmann_passes(),
        WipeAlgorithm::RandomSingle => random_passes(),
    }
}

/// The number of passes that a certificate reports; a hardware erase counts
/// as one.
pub open spec fn reported_passes(algorithm: WipeAlgorithm) -> nat {
    if algorithm.is_hardware_erase() {
        1
    } else {
        passes_of(algorithm).len()
    }
}

/// The number of blocks on a device, a short last one counted in.
pub open spec fn block_count(size: int) -> int {
    (size + BLOCK_SIZE - 1) / BLOCK_SIZE as int
}

/// The write of block `k`.
pub open spec fn write_op(k: int, size: int, pattern: PassPattern) -> WipeOp {
    let rest = size - k * BLOCK_SIZE;
    WipeOp::WriteBlock {
        offset: (k * BLOCK_SIZE) as u64,
        len: (if rest < BLOCK_SIZE {
            rest
        } else {
            BLOCK_SIZE as int
        }) as usize,
        pattern,
    }
}

/// All writes of one pass, from the first block to the last.
pub open spec fn write_ops(size: int, pattern: PassPattern) -> Seq<WipeOp> {
    Seq::new(block_count(size) as nat, |k: int| write_op(k, size, pattern))
}

/// One pass: it begins, writes every block, and is forced out.
pub open spec fn pass_ops(passes: Seq<PassPattern>, pass: int, size: int) -> Seq<WipeOp> {
    seq![
        WipeOp::BeginPass {
            number: (pass + 1) as usize,
            total: passes.len() as usize,
            pattern: passes[pass],
        },
    ] + write_ops(size, passes[pass]) + seq![WipeOp::Sync]
}

/// The passes from number `from` on, one behind the other.
pub open spec fn overwrite_ops(passes: Seq<PassPattern>, from: int, size: int) -> Seq<WipeOp>
    decreases passes.len() - from,
{
    if from < passes.len() {
        pass_ops(passes, from, size) + overwrite_ops(passes, from + 1, size)
    } else {
        Seq::empty()
    }
}

/// What follows the passes, or stands in their place.
pub open spec fn closing_ops(algorithm: WipeAlgorithm, enhanced: bool, size: u64) -> Seq<WipeOp> {
    match algorithm {
        WipeAlgorithm::NistNvmeCryptoErase => seq![WipeOp::NvmeFormat],
        WipeAlgorithm::NistAtaSecureErase => secure_erase_commands(enhanced).map_values(
            |c: AtaCommand| WipeOp::Ata(c),
        ).push(WipeOp::Discard { size }),
        WipeAlgorithm::NistClear => seq![WipeOp::Discard { size }],
        _ => Seq::empty(),
    }
}

/// Everything that an algorithm does to a device, in order.
pub open spec fn wipe_plan(algorithm: WipeAlgorithm, enhanced: bool, size: u64) -> Seq<WipeOp> {
    overwrite_ops(passes_of(algorithm), 0, size as int) + closing_ops(algorithm, enhanced, size)
}

// ---------------------------------------------------------------------------
// Issuing the plan
// ---------------------------------------------------------------------------

/// The part of a plan that is still to be issued; that is its view.
pub struct WipeCursor {
    passes: Vec<PassPattern>,
    size: u64,
    /// The pass at hand, and how many of its operations were issued.
    pass: usize,
    step: u64,
    closing: Vec<WipeOp>,
    /// How many of the closing operations were issued.
    closed: usize,
}

impl View for WipeCursor {
    type V = Seq<WipeOp>;

    closed spec fn view(&self) -> Seq<WipeOp> {
        let overwrite = if self.pass < self.passes@.len() {
            pass_ops(self.passes@, self.pass as int, self.size as int).skip(self.step as int)
                + overwrite_ops(self.passes@, self.pass + 1, self.size as int)
        } else {
            Seq::empty()
        };
        overwrite + self.closing@.skip(self.closed as int)
    }
}

fn exec_block_count(size: u64) -> (r: u64)
    ensures
        r == block_count(size as int),
{
    let whole: u64 = size / BLOCK_SIZE as u64;
    if size % BLOCK_SIZE as u64 == 0 {
        whole
    } else {
        whole + 1
    }
}

/// The passes of an algorithm; the hardware erases have none.
pub fn algorithm_passes(algorithm: WipeAlgorithm) -> (r: Vec<PassPattern>)
    ensures
        r@ == passes_of(algorithm),
{
    match algorithm {
        WipeAlgorithm::NistNvmeCryptoErase | WipeAlgorithm::NistAtaSecureErase => Vec::new(),
        WipeAlgorithm::NistClear => nist_clear_passes(),
        WipeAlgorithm::Dod5220 => dod_5220_22m_ece_passes(),
        WipeAlgorithm::Gutmann35 => gutmann_35_passes(),
        WipeAlgorithm::RandomSingle => random_single_passes(),
    }
}

/// The number of passes that a certificate reports.
pub fn passes_completed(algorithm: WipeAlgorithm) -> (r: u32)
    ensures
        r == reported_passes(algorithm),
{
    match algorithm {
        WipeAlgorithm::NistNvmeCryptoErase | WipeAlgorithm::NistAtaSecureErase => 1,
        _ => {
            let passes = algorithm_passes(algorithm);
            proof {
                assert(passes@.len() <= 35);
            }
            passes.len() as u32
        },
    }
}

fn algorithm_closing(algorithm: WipeAlgorithm, enhanced: bool, size: u64) -> (r: Vec<WipeOp>)
    ensures
        r@ == closing_ops(algorithm, enhanced, size),
{
    match algorithm {
        WipeAlgorithm::NistNvmeCryptoErase => vec![WipeOp::NvmeFormat],
        WipeAlgorithm::NistAtaSecureErase => {
            let commands = ata_secure_erase(enhanced);
            let mut out: Vec<WipeOp> = Vec::new();
            let mut i: usize = 0;
            while i < commands.len()
                invariant
                    i <= commands@.len(),
                    out@ == commands@.take(i as int).map_values(|c: AtaCommand| WipeOp::Ata(c)),
                decreases commands@.len() - i,
            {
                out.push(WipeOp::Ata(commands[i]));
                i = i + 1;
                proof {
                    assert(out@ =~= commands@.take(i as int).map_values(
                        |c: AtaCommand| WipeOp::Ata(c),
                    ));
                }
            }
            proof {
                assert(commands@.take(i as int) =~= commands@);
            }
            out.push(WipeOp::Discard { size });
            out
        },
        WipeAlgorithm::NistClear => vec![WipeOp::Discard { size }],
        _ => Vec::new(),
    }
}

impl WipeCursor {
    #[verifier::type_invariant]
    closed spec fn well_formed(&self) -> bool {
        &&& self.pass <= self.passes@.len()
        &&& self.step <= block_count(self.size as int) + 1
        &&& self.closed <= self.closing@.len()
    }

    /// The whole plan of an algorithm.
    pub fn new(algorithm: WipeAlgorithm, enhanced: bool, size: u64) -> (r: WipeCursor)
        ensures
            r@ == wipe_plan(algorithm, enhanced, size),
    {
        let passes = algorithm_passes(algorithm);
        let closing = algorithm_closing(algorithm, enhanced, size);
        let r = WipeCursor { passes, size, pass: 0, step: 0, closing, closed: 0 };
        proof {
            assert(closing@.skip(0) =~= closing@);
            if passes@.len() > 0 {
                assert(pass_ops(passes@, 0, size as int).skip(0) =~= pass_ops(
                    passes@,
                    0,
                    size as int,
                ));
            }
        }
        r
    }

    /// The plan of a dry run: nothing.
    pub fn nothing() -> (r: WipeCursor)
        ensures
            r@ == Seq::<WipeOp>::empty(),
    {
        WipeCursor {
            passes: Vec::new(),
            size: 0,
            pass: 0,
            step: 0,
            closing: Vec::new(),
            closed: 0,
        }
    }

    /// The next operation of the plan, and what is left behind it.
    pub fn next(self) -> (r: (Option<WipeOp>, WipeCursor))
        ensures
            self@.len() == 0 ==> r.0 is None && r.1@ == self@,
            self@.len() > 0 ==> r.0 == Some(self@[0]) && r.1@ == self@.drop_first(),
    {
        proof {
            use_type_invariant(&self);
        }
        let WipeCursor { passes, size, pass, step, closing, closed } = self;
        if pass < passes.len() {
            let total: usize = passes.len();
            let pattern: PassPattern = passes[pass];
            let blocks: u64 = exec_block_count(size);
            let ghost ops = pass_ops(passes@, pass as int, size as int);
            let ghost later = overwrite_ops(passes@, pass + 1, size as int);
            proof {
                assert(ops.len() == blocks + 2);
                assert(self@[0] == ops[step as int]);
                assert(self@.drop_first() =~= ops.skip(step + 1) + later + closing@.skip(
                    closed as int,
                ));
            }
            if step == 0 {
                let op = WipeOp::BeginPass { number: pass + 1, total, pattern };
                (Some(op), WipeCursor { passes, size, pass, step: 1, closing, closed })
            } else if step <= blocks {
                let k: u64 = step - 1;
                let offset: u64 = k * BLOCK_SIZE as u64;
                let rest: u64 = size - offset;
                let len: usize = if rest < BLOCK_SIZE as u64 {
                    rest as usize
                } else {
                    BLOCK_SIZE
                };
                let op = WipeOp::WriteBlock { offset, len, pattern };
                proof {
                    assert(ops[step as int] == write_ops(size as int, pattern)[k as int]);
                }
                (Some(op), WipeCursor { passes, size, pass, step: step + 1, closing, closed })
            } else {
                let r = WipeCursor { passes, size, pass: pass + 1, step: 0, closing, closed };
                proof {
                    assert(ops.skip(step + 1) =~= Seq::<WipeOp>::empty());
                    if pass + 1 < passes@.len() {
                        assert(pass_ops(passes@, pass + 1, size as int).skip(0) =~= pass_ops(
                            passes@,
                            pass + 1,
                            size as int,
                        ));
                    }
                    assert(r@ =~= self@.drop_first());
                }
                (Some(WipeOp::Sync), r)
            }
        } else if closed < closing.len() {
            let op: WipeOp = closing[closed];
            let r = WipeCursor { passes, size, pass, step, closing, closed: closed + 1 };
            proof {
                assert(r@ =~= self@.drop_first());
            }
            (Some(op), r)
        } else {
            (None, WipeCursor { passes, size, pass, step, closing, closed })
        }
    }
}

/// The label of a pass shows its number, the number of passes and the pattern.
pub proof fn law_label_shows_the_pass(number: usize, total: usize, pattern: PassPattern)
    ensures
        (WipeOp::BeginPass { number, total, pattern }).label_text() == "Pass "@ + decimal(
            number as nat,
        ) + "/"@ + decimal(total as nat) + " ["@ + pattern.text() + "]"@,
{
}

} // verus!
