//! Runs on a device that does what it is told: what is read back of what was
//! written.

use vstd::prelude::*;

use crate::effects::{
    known, known_after, law_plan_leaves_what_verification_expects, lemma_known_concat,
    lemma_known_single,
};
use crate::engine::{
    verdict, DeviceAction, EngineView, JobView, PhaseView, ReadPurpose, ReplyView, StepView,
};
use crate::fingerprint::fingerprint_of;
use crate::runs::{outcome, Exchange};
use crate::spot_check::{
    all_bytes, expected_byte, law_sample_spans_the_device,
    law_two_bytes_that_differ_pass_for_random, plausibly_random, sampled_blocks,
    VERIFY_SAMPLE_BLOCKS,
};
use crate::types::{CertificateView, VerificationStatus};
use crate::wipe::{WipeOp, BLOCK_SIZE};

verus! {

/// A device: its bytes, and where the next sequential read begins.
#[verifier::ext_equal]
pub struct Device {
    pub bytes: Seq<u8>,
    pub position: int,
}

/// The bytes of the block that begins at `offset`; the last one may be short,
/// and there are none at the end of the device.
pub open spec fn block_at(bytes: Seq<u8>, offset: int) -> Seq<u8> {
    if offset >= bytes.len() {
        Seq::empty()
    } else if offset + BLOCK_SIZE <= bytes.len() {
        bytes.subrange(offset, offset + BLOCK_SIZE)
    } else {
        bytes.subrange(offset, bytes.len() as int)
    }
}

impl Device {
    /// Whether the device performs an action without reporting a failure,
    /// gives this reply and is `after` behind it. A sequential read may stop
    /// short of a block, but not short of one byte, and gives no more than a
    /// block. Where the device keeps what is written, what is known of a byte
    /// behind an operation of the wipe holds; where it does not, the bytes can
    /// be any.
    pub open spec fn performs(
        self,
        action: DeviceAction,
        reply: ReplyView,
        after: Device,
        keeps: bool,
    ) -> bool {
        &&& after.bytes.len() == self.bytes.len()
        &&& reply is Data
        &&& match action {
            DeviceAction::OpenForRead(_) => after == (Device { bytes: self.bytes, position: 0 }),
            DeviceAction::ReadNext => {
                let end = self.position + reply->Data_0.len();
                &&& after == (Device { bytes: self.bytes, position: end })
                &&& reply->Data_0.len() <= BLOCK_SIZE
                &&& end <= self.bytes.len()
                &&& reply->Data_0 == self.bytes.subrange(self.position, end)
                &&& self.position < self.bytes.len() ==> reply->Data_0.len() > 0
            },
            DeviceAction::ReadAt { offset } => {
                &&& after.bytes == self.bytes
                &&& reply->Data_0 == block_at(self.bytes, offset as int)
            },
            DeviceAction::Wipe(op) => keeps ==> forall|i: int|
                #![trigger after.bytes[i]]
                0 <= i < self.bytes.len() && known_after(op, i, Some(self.bytes[i])) is Some
                    ==> known_after(op, i, Some(self.bytes[i])) == Some(after.bytes[i]),
        }
    }
}

/// Whether a device goes through the given exchanges with a run that waits for
/// `action`, and is as `states` says behind each of them. The operator does
/// not abort. There are no exchanges behind the end of the run.
pub open spec fn goes_through(
    device: Device,
    action: DeviceAction,
    engine: EngineView,
    exchanges: Seq<Exchange>,
    states: Seq<Device>,
    keeps: bool,
) -> bool
    decreases exchanges.len(),
{
    &&& states.len() == exchanges.len()
    &&& exchanges.len() > 0 ==> {
        &&& !exchanges[0].aborted
        &&& device.performs(action, exchanges[0].reply, states[0], keeps)
        &&& match engine.step(exchanges[0]) {
            StepView::Act { action: next, engine: later } => goes_through(
                states[0],
                next,
                later,
                exchanges.drop_first(),
                states.drop_first(),
                keeps,
            ),
            StepView::Finished(_) => exchanges.len() == 1,
        }
    }
}

/// Whether all sampled blocks of a device hold one byte only.
pub open spec fn sample_holds(bytes: Seq<u8>, sample: Seq<u64>, b: u8) -> bool {
    forall|k: int|
        0 <= k < sample.len() ==> all_bytes(block_at(bytes, #[trigger] sample[k] * BLOCK_SIZE), b)
}

/// What a job has made of a device that held `before`: nothing in a dry run;
/// otherwise the byte of the last pass at every position, where that pass
/// writes a constant and the device keeps it.
pub open spec fn achieved(job: JobView, before: Seq<u8>, bytes: Seq<u8>, keeps: bool) -> bool {
    if job.dry_run {
        bytes == before
    } else {
        keeps ==> (expected_byte(job.algorithm) matches Some(b) ==> all_bytes(bytes, b))
    }
}

/// Whether a status is what the first `n` bytes of a device, read back behind a
/// random pass, make of the verification: it has passed exactly where one of
/// them differs from the first, or the device has no bytes.
pub open spec fn decided_by_start(bytes: Seq<u8>, n: int, status: VerificationStatus) -> bool {
    &&& 0 <= n <= bytes.len()
    &&& n <= BLOCK_SIZE
    &&& bytes.len() > 0 ==> n > 0
    &&& status == if n == 0 || exists|i: int| 0 < i < n && #[trigger] bytes[i] != bytes[0] {
        VerificationStatus::Passed
    } else {
        VerificationStatus::Failed
    }
}

/// Whether a certificate tells the truth of a device that held `before` and
/// now holds `bytes`.
pub open spec fn tells_the_truth(
    certificate: CertificateView,
    job: JobView,
    before: Seq<u8>,
    bytes: Seq<u8>,
    keeps: bool,
) -> bool {
    &&& certificate.pre_wipe_hash == fingerprint_of(before)
    &&& !job.skip_verify ==> certificate.post_wipe_hash == fingerprint_of(bytes)
    &&& achieved(job, before, bytes, keeps)
    &&& !job.skip_verify ==> (expected_byte(job.algorithm) matches Some(b)
        ==> certificate.verification_status == verdict(
        sample_holds(bytes, sampled_blocks(job.target.size_bytes as int), b),
    ))
    &&& !job.skip_verify && !job.algorithm.is_hardware_erase() && expected_byte(
        job.algorithm,
    ) is None && bytes.len() > 0 && all_bytes(block_at(bytes, 0), bytes[0])
        ==> certificate.verification_status is Failed
    &&& !job.skip_verify && !job.algorithm.is_hardware_erase() && expected_byte(
        job.algorithm,
    ) is None ==> exists|n: int| #[trigger]
        decided_by_start(bytes, n, certificate.verification_status)
}

// ---------------------------------------------------------------------------
// The invariant of a run
// ---------------------------------------------------------------------------

/// Whether the rest of a plan leaves the expected byte everywhere.
spec fn settles(job: JobView, rest: Seq<WipeOp>, bytes: Seq<u8>, keeps: bool) -> bool {
    keeps ==> (expected_byte(job.algorithm) matches Some(b) ==> forall|i: int|
        0 <= i < bytes.len() ==> known(rest, i, Some(#[trigger] bytes[i])) == Some(b))
}

/// Whether the phase of a run fits the device that it runs on.
#[verifier::opaque]
spec fn fits(
    engine: EngineView,
    action: DeviceAction,
    before: Seq<u8>,
    device: Device,
    keeps: bool,
) -> bool {
    let job = engine.job;
    let bytes = device.bytes;
    &&& bytes.len() == job.target.size_bytes
    &&& before.len() == job.target.size_bytes
    &&& match engine.phase {
        PhaseView::Created => false,
        PhaseView::Opening { earlier } => {
            &&& action is OpenForRead
            &&& match earlier {
                None => bytes == before,
                Some(pre) => pre == fingerprint_of(before) && achieved(job, before, bytes, keeps)
                    && !job.skip_verify,
            }
        },
        PhaseView::Hashing { earlier, so_far } => {
            &&& action is ReadNext
            &&& 0 <= device.position <= bytes.len()
            &&& so_far == bytes.take(device.position)
            &&& match earlier {
                None => bytes == before,
                Some(pre) => pre == fingerprint_of(before) && achieved(job, before, bytes, keeps)
                    && !job.skip_verify,
            }
        },
        PhaseView::Wiping { pre_hash, issued, rest } => {
            &&& !job.dry_run
            &&& action == DeviceAction::Wipe(issued)
            &&& pre_hash == fingerprint_of(before)
            &&& settles(job, seq![issued] + rest, bytes, keeps)
        },
        PhaseView::CheckOpening { pre_hash, post_hash } => {
            &&& action is OpenForRead
            &&& pre_hash == fingerprint_of(before)
            &&& post_hash == fingerprint_of(bytes)
            &&& achieved(job, before, bytes, keeps)
        },
        PhaseView::CheckingBlocks { pre_hash, post_hash, expected, left } => {
            let sample = sampled_blocks(job.target.size_bytes as int);
            let done = sample.len() - left.len();
            &&& left.len() > 0
            &&& action == DeviceAction::ReadAt { offset: (left[0] * BLOCK_SIZE) as u64 }
            &&& pre_hash == fingerprint_of(before)
            &&& post_hash == fingerprint_of(bytes)
            &&& achieved(job, before, bytes, keeps)
            &&& expected_byte(job.algorithm) == Some(expected)
            &&& 0 <= done
            &&& left == sample.skip(done)
            &&& sample_holds(bytes, sample.take(done), expected)
        },
        PhaseView::CheckingRandom { pre_hash, post_hash } => {
            &&& action is ReadNext
            &&& device.position == 0
            &&& pre_hash == fingerprint_of(before)
            &&& post_hash == fingerprint_of(bytes)
            &&& achieved(job, before, bytes, keeps)
            &&& expected_byte(job.algorithm) is None
        },
    }
}

/// What is known stays known where more is known before.
proof fn lemma_known_monotone(ops: Seq<WipeOp>, i: int, b: u8, was: Option<u8>)
    requires
        known(ops, i, None) == Some(b),
    ensures
        known(ops, i, was) == Some(b),
    decreases ops.len(),
{
    if ops.len() > 0 {
        let before = ops.drop_last();
        if known(before, i, None) is Some {
            lemma_known_monotone(before, i, known(before, i, None)->0, was);
        }
    }
}

/// An operation that is performed brings the device closer to the end of the
/// plan.
proof fn lemma_settles_step(
    job: JobView,
    op: WipeOp,
    rest: Seq<WipeOp>,
    device: Device,
    reply: ReplyView,
    after: Device,
    keeps: bool,
)
    requires
        settles(job, seq![op] + rest, device.bytes, keeps),
        device.performs(DeviceAction::Wipe(op), reply, after, keeps),
    ensures
        settles(job, rest, after.bytes, keeps),
{
    if keeps && expected_byte(job.algorithm) is Some {
        let b = expected_byte(job.algorithm)->0;
        assert forall|i: int| 0 <= i < after.bytes.len() implies known(
            rest,
            i,
            Some(#[trigger] after.bytes[i]),
        ) == Some(b) by {
            let was = Some(device.bytes[i]);
            assert(known(seq![op] + rest, i, was) == Some(b));
            lemma_known_concat(seq![op], rest, i, was);
            lemma_known_single(op, i, was);
            if known_after(op, i, was) is None {
                lemma_known_monotone(rest, i, b, Some(after.bytes[i]));
            }
        }
    }
}

/// Whether a step fits the device that it was taken on.
spec fn step_fits(
    step: StepView,
    job: JobView,
    before: Seq<u8>,
    device: Device,
    keeps: bool,
) -> bool {
    match step {
        StepView::Act { action, engine } => engine.job == job && fits(
            engine,
            action,
            before,
            device,
            keeps,
        ),
        StepView::Finished(Ok(certificate)) => tells_the_truth(
            certificate,
            job,
            before,
            device.bytes,
            keeps,
        ),
        StepView::Finished(Err(_)) => false,
    }
}

proof fn lemma_wipe_on_fits(
    job: JobView,
    rest: Seq<WipeOp>,
    end: Seq<char>,
    before: Seq<u8>,
    device: Device,
    keeps: bool,
)
    requires
        device.bytes.len() == job.target.size_bytes,
        before.len() == job.target.size_bytes,
        job.dry_run ==> rest.len() == 0 && device.bytes == before,
        !job.dry_run ==> settles(job, rest, device.bytes, keeps),
    ensures
        step_fits(
            job.wipe_on(fingerprint_of(before), rest, false, end),
            job,
            before,
            device,
            keeps,
        ),
{
    reveal(fits);
    if rest.len() > 0 {
        assert(seq![rest[0]] + rest.drop_first() =~= rest);
    } else {
        assert(achieved(job, before, device.bytes, keeps));
    }
}

proof fn lemma_hashed_fits(
    job: JobView,
    earlier: Option<Seq<char>>,
    end: Seq<char>,
    before: Seq<u8>,
    device: Device,
    keeps: bool,
)
    requires
        device.bytes.len() == job.target.size_bytes,
        before.len() == job.target.size_bytes,
        earlier is None ==> device.bytes == before,
        earlier matches Some(pre) ==> pre == fingerprint_of(before) && achieved(
            job,
            before,
            device.bytes,
            keeps,
        ) && !job.skip_verify,
    ensures
        step_fits(
            job.hashed(earlier, fingerprint_of(device.bytes), false, end),
            job,
            before,
            device,
            keeps,
        ),
{
    match earlier {
        None => {
            if !job.dry_run {
                assert forall|i: int| 0 <= i < device.bytes.len() implies known(
                    job.plan(),
                    i,
                    Some(#[trigger] device.bytes[i]),
                ) == expected_byte(job.algorithm) by {
                    law_plan_leaves_what_verification_expects(
                        job.algorithm,
                        job.target.supports_enhanced_erase,
                        job.target.size_bytes,
                        i,
                        Some(device.bytes[i]),
                    );
                }
            }
            lemma_wipe_on_fits(job, job.plan(), end, before, device, keeps);
        },
        Some(_) => {
            reveal(fits);
        },
    }
}

/// Where all of the expected bytes are in place, every sample of them is.
proof fn lemma_block_part(bytes: Seq<u8>, offset: int, b: u8)
    requires
        0 <= offset,
        all_bytes(bytes, b),
    ensures
        all_bytes(block_at(bytes, offset), b),
{
    let block = block_at(bytes, offset);
    assert forall|i: int| 0 <= i < block.len() implies #[trigger] block[i] == b by {
        assert(block[i] == bytes[offset + i]);
    }
}

/// A step of a run on a device that performs every action.
proof fn lemma_step_fits(
    engine: EngineView,
    action: DeviceAction,
    exchange: Exchange,
    before: Seq<u8>,
    device: Device,
    after: Device,
    keeps: bool,
)
    requires
        fits(engine, action, before, device, keeps),
        device.performs(action, exchange.reply, after, keeps),
        !exchange.aborted,
    ensures
        engine.has_room(exchange.reply),
        step_fits(engine.step(exchange), engine.job, before, after, keeps),
{
    reveal(fits);
    let job = engine.job;
    let data = exchange.reply->Data_0;
    match engine.phase {
        PhaseView::Created => {},
        PhaseView::Opening { .. } => {
            assert(after.bytes.take(0) =~= Seq::<u8>::empty());
        },
        PhaseView::Hashing { earlier, so_far } => {
            if data.len() == 0 {
                assert(so_far =~= after.bytes);
                lemma_hashed_fits(job, earlier, exchange.end, before, after, keeps);
            } else {
                assert(so_far + data =~= after.bytes.take(after.position));
            }
        },
        PhaseView::Wiping { issued, rest, .. } => {
            lemma_settles_step(job, issued, rest, device, exchange.reply, after, keeps);
            lemma_wipe_on_fits(job, rest, exchange.end, before, after, keeps);
        },
        PhaseView::CheckOpening { pre_hash, post_hash } => {
            let sample = sampled_blocks(job.target.size_bytes as int);
            law_sample_spans_the_device(job.target.size_bytes);
            assert(sample.skip(0) =~= sample);
            assert(sample.take(0).len() == 0);
        },
        PhaseView::CheckingBlocks { expected, left, .. } => {
            lemma_checking_step(engine, action, exchange, before, device, after, keeps);
        },
        PhaseView::CheckingRandom { .. } => {
            let n = data.len() as int;
            let passed = n == 0 || exists|i: int|
                0 < i < n && #[trigger] after.bytes[i] != after.bytes[0];
            assert forall|i: int| 0 <= i < n implies #[trigger] data[i] == after.bytes[i] by {}
            law_two_bytes_that_differ_pass_for_random(data);
            if passed && n > 0 {
                let i = choose|i: int| 0 < i < n && #[trigger] after.bytes[i] != after.bytes[0];
                assert(data[0] != data[i]);
            }
            if plausibly_random(data) && n > 0 {
                let (i, j) = choose|i: int, j: int|
                    #![trigger data[i], data[j]]
                    0 <= i < j < data.len() && data[i] != data[j];
                assert(data[i] == after.bytes[i] && data[j] == after.bytes[j]);
                assert(after.bytes[i] != after.bytes[0] || after.bytes[j] != after.bytes[0]);
            }
            assert(decided_by_start(after.bytes, n, verdict(plausibly_random(data))));
            let block = block_at(after.bytes, 0);
            if after.bytes.len() > 0 && all_bytes(block, after.bytes[0]) {
                assert forall|i: int| 0 <= i < data.len() implies #[trigger] data[i]
                    == data[0] by {
                    assert(data[i] == block[i]);
                    assert(data[0] == block[0]);
                }
            }
        },
    }
}

proof fn lemma_checking_step(
    engine: EngineView,
    action: DeviceAction,
    exchange: Exchange,
    before: Seq<u8>,
    device: Device,
    after: Device,
    keeps: bool,
)
    requires
        engine.phase is CheckingBlocks,
        fits(engine, action, before, device, keeps),
        device.performs(action, exchange.reply, after, keeps),
    ensures
        step_fits(engine.step(exchange), engine.job, before, after, keeps),
{
    reveal(fits);
    let job = engine.job;
    let data = exchange.reply->Data_0;
    let size = job.target.size_bytes;
    let sample = sampled_blocks(size as int);
    let expected = engine.phase->expected;
    let left = engine.phase->left;
    let done = sample.len() - left.len();
    law_sample_spans_the_device(size);
    assert(left[0] == sample[done]);
    assert(sample[done] * BLOCK_SIZE <= size);
    assert(data == block_at(after.bytes, sample[done] * BLOCK_SIZE));
    if data.len() == 0 {
        assert forall|k: int| 0 <= k < sample.len() implies all_bytes(
            block_at(after.bytes, #[trigger] sample[k] * BLOCK_SIZE),
            expected,
        ) by {
            if k < done {
                assert(sample.take(done)[k] == sample[k]);
            } else if k > done {
                assert(sample[done] < sample[k]);
            }
        }
    } else if all_bytes(data, expected) {
        assert(left.drop_first() =~= sample.skip(done + 1));
        assert forall|k: int| 0 <= k < done + 1 implies all_bytes(
            block_at(after.bytes, #[trigger] sample.take(done + 1)[k] * BLOCK_SIZE),
            expected,
        ) by {
            if k < done {
                assert(sample.take(done)[k] == sample[k]);
            }
        }
        assert(sample.take(sample.len() as int) =~= sample);
    } else {
        assert(!sample_holds(after.bytes, sample, expected));
    }
}

proof fn lemma_run_fits(
    device: Device,
    action: DeviceAction,
    engine: EngineView,
    exchanges: Seq<Exchange>,
    states: Seq<Device>,
    before: Seq<u8>,
    keeps: bool,
)
    requires
        fits(engine, action, before, device, keeps),
        goes_through(device, action, engine, exchanges, states, keeps),
    ensures
        match outcome(engine, exchanges) {
            None => true,
            Some(Ok(certificate)) => tells_the_truth(
                certificate,
                engine.job,
                before,
                states.last().bytes,
                keeps,
            ),
            Some(Err(_)) => false,
        },
    decreases exchanges.len(),
{
    if exchanges.len() > 0 {
        lemma_step_fits(engine, action, exchanges[0], before, device, states[0], keeps);
        match engine.step(exchanges[0]) {
            StepView::Act { action: next, engine: later } => {
                lemma_run_fits(
                    states[0],
                    next,
                    later,
                    exchanges.drop_first(),
                    states.drop_first(),
                    before,
                    keeps,
                );
            },
            StepView::Finished(_) => {},
        }
    }
}

/// A bound on the exchanges that a run still takes.
spec fn exchanges_left(engine: EngineView) -> int {
    let size = engine.job.target.size_bytes;
    let check = VERIFY_SAMPLE_BLOCKS + 1;
    let wipe = engine.job.plan().len() + 1;
    match engine.phase {
        PhaseView::Created => 0,
        PhaseView::Opening { earlier } => size + 2 + check + if earlier is None {
            size + 2 + wipe
        } else {
            0
        },
        PhaseView::Hashing { earlier, so_far } => size - so_far.len() + 1 + check
            + if earlier is None {
            size + 2 + wipe
        } else {
            0
        },
        PhaseView::Wiping { rest, .. } => rest.len() + 1 + size + 2 + check,
        PhaseView::CheckOpening { .. } => check,
        PhaseView::CheckingBlocks { left, .. } => left.len() as int,
        PhaseView::CheckingRandom { .. } => 1,
    }
}

proof fn lemma_exchanges_left(
    engine: EngineView,
    action: DeviceAction,
    exchange: Exchange,
    before: Seq<u8>,
    device: Device,
    after: Device,
    keeps: bool,
)
    requires
        fits(engine, action, before, device, keeps),
        device.performs(action, exchange.reply, after, keeps),
        !exchange.aborted,
    ensures
        exchanges_left(engine) > 0,
        engine.step(exchange) matches StepView::Act { engine: later, .. } ==> exchanges_left(later)
            < exchanges_left(engine),
{
    reveal(fits);
    law_sample_spans_the_device(engine.job.target.size_bytes);
}

/// Whether the engine can take every reply of a series of exchanges.
pub open spec fn takes_all(engine: EngineView, exchanges: Seq<Exchange>) -> bool
    decreases exchanges.len(),
{
    exchanges.len() > 0 ==> engine.has_room(exchanges[0].reply) && match engine.step(exchanges[0]) {
        StepView::Act { engine: later, .. } => takes_all(later, exchanges.drop_first()),
        StepView::Finished(_) => true,
    }
}

proof fn lemma_run_ends(
    device: Device,
    action: DeviceAction,
    engine: EngineView,
    exchanges: Seq<Exchange>,
    states: Seq<Device>,
    before: Seq<u8>,
    keeps: bool,
)
    requires
        fits(engine, action, before, device, keeps),
        goes_through(device, action, engine, exchanges, states, keeps),
    ensures
        exchanges.len() <= exchanges_left(engine) || exchanges.len() == 0,
        takes_all(engine, exchanges),
    decreases exchanges.len(),
{
    if exchanges.len() > 0 {
        lemma_step_fits(engine, action, exchanges[0], before, device, states[0], keeps);
        lemma_exchanges_left(engine, action, exchanges[0], before, device, states[0], keeps);
        match engine.step(exchanges[0]) {
            StepView::Act { action: next, engine: later } => {
                lemma_run_ends(
                    states[0],
                    next,
                    later,
                    exchanges.drop_first(),
                    states.drop_first(),
                    before,
                    keeps,
                );
            },
            StepView::Finished(_) => {},
        }
    }
}

// ---------------------------------------------------------------------------
// Laws
// ---------------------------------------------------------------------------

/// Whether a device goes through a whole run from its start, the first call
/// of which may bring any reply.
pub open spec fn runs_on(
    device: Device,
    engine: EngineView,
    first: Exchange,
    exchanges: Seq<Exchange>,
    states: Seq<Device>,
    keeps: bool,
) -> bool {
    &&& engine.phase is Created
    &&& device.bytes.len() == engine.job.target.size_bytes
    &&& match engine.step(first) {
        StepView::Act { action, engine: opened } => goes_through(
            device,
            action,
            opened,
            exchanges,
            states,
            keeps,
        ),
        StepView::Finished(_) => false,
    }
}

/// On a device that reports no failure, a run that nobody aborts never ends in
/// an error. Its certificate carries the fingerprint of all bytes of the
/// device, however the reads were split: first as they were before the wipe,
/// then as they are behind it. Where the last pass writes a constant,
/// verification passes exactly where every sampled block holds that constant
/// alone, whether or not the device has kept what was written to it. Where the
/// last pass is random, verification passes exactly where the bytes that are
/// read back from the device's start are not all the same; so a first block of
/// one byte alone fails it.
pub proof fn law_certificate_tells_the_truth(
    device: Device,
    engine: EngineView,
    first: Exchange,
    exchanges: Seq<Exchange>,
    states: Seq<Device>,
    keeps: bool,
)
    requires
        runs_on(device, engine, first, exchanges, states, keeps),
    ensures
        match outcome(engine, seq![first] + exchanges) {
            None => true,
            Some(Ok(certificate)) => tells_the_truth(
                certificate,
                engine.job,
                device.bytes,
                states.last().bytes,
                keeps,
            ),
            Some(Err(_)) => false,
        },
{
    let all = seq![first] + exchanges;
    assert(all.drop_first() =~= exchanges);
    let opened = EngineView {
        job: engine.job,
        phase: PhaseView::Opening { earlier: None },
    };
    let action = DeviceAction::OpenForRead(ReadPurpose::PreWipe);
    assert(fits(opened, action, device.bytes, device, keeps)) by {
        reveal(fits);
    }
    lemma_run_fits(device, action, opened, exchanges, states, device.bytes, keeps);
}

/// A run with a constant last pass on a device that keeps what is written to
/// it leaves that constant at every position of the device, and verification
/// passes.
pub proof fn law_kept_writes_pass_verification(
    device: Device,
    engine: EngineView,
    first: Exchange,
    exchanges: Seq<Exchange>,
    states: Seq<Device>,
    b: u8,
)
    requires
        runs_on(device, engine, first, exchanges, states, true),
        !engine.job.dry_run,
        expected_byte(engine.job.algorithm) == Some(b),
        outcome(engine, seq![first] + exchanges) is Some,
    ensures
        all_bytes(states.last().bytes, b),
        outcome(engine, seq![first] + exchanges) matches Some(Ok(certificate)) && (
        !engine.job.skip_verify ==> certificate.verification_status
            == VerificationStatus::Passed),
{
    law_certificate_tells_the_truth(device, engine, first, exchanges, states, true);
    let bytes = states.last().bytes;
    let sample = sampled_blocks(engine.job.target.size_bytes as int);
    assert forall|k: int| 0 <= k < sample.len() implies all_bytes(
        block_at(bytes, #[trigger] sample[k] * BLOCK_SIZE),
        b,
    ) by {
        lemma_block_part(bytes, sample[k] * BLOCK_SIZE, b);
    }
}

/// A dry run leaves every byte of the device as it was.
pub proof fn law_dry_run_keeps_every_byte(
    device: Device,
    engine: EngineView,
    first: Exchange,
    exchanges: Seq<Exchange>,
    states: Seq<Device>,
    keeps: bool,
)
    requires
        runs_on(device, engine, first, exchanges, states, keeps),
        engine.job.dry_run,
        outcome(engine, seq![first] + exchanges) is Some,
    ensures
        states.last().bytes == device.bytes,
{
    law_certificate_tells_the_truth(device, engine, first, exchanges, states, keeps);
}

/// On a device that reports no failure a run comes to an end, and the engine
/// can take every reply on the way there.
pub proof fn law_run_comes_to_an_end(
    device: Device,
    engine: EngineView,
    first: Exchange,
    exchanges: Seq<Exchange>,
    states: Seq<Device>,
    keeps: bool,
)
    requires
        runs_on(device, engine, first, exchanges, states, keeps),
    ensures
        exchanges.len() <= 2 * device.bytes.len() + engine.job.plan().len() + 520,
        takes_all(engine, seq![first] + exchanges),
{
    let all = seq![first] + exchanges;
    assert(all.drop_first() =~= exchanges);
    let opened = EngineView {
        job: engine.job,
        phase: PhaseView::Opening { earlier: None },
    };
    let action = DeviceAction::OpenForRead(ReadPurpose::PreWipe);
    assert(fits(opened, action, device.bytes, device, keeps)) by {
        reveal(fits);
    }
    lemma_run_ends(device, action, opened, exchanges, states, device.bytes, keeps);
}

} // verus!
