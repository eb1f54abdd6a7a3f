//! Whole runs of the engine: what is done to the device, in which order, and
//! what the certificate says of it.

use vstd::prelude::*;

use crate::ata::AtaCommand;
use crate::engine::{
    DeviceAction, EngineView, FailureView, JobView, PhaseView, ReplyView, StepView,
};
use crate::error::ErrorView;
use crate::spot_check::{all_bytes, law_two_bytes_that_differ_pass_for_random};
use crate::types::{CertificateView, VerificationStatus};
use crate::wipe::{reported_passes, wipe_plan, WipeOp, BLOCK_SIZE};

verus! {

/// What one call of the engine is given, and the time at which it would give
/// out a certificate.
#[verifier::ext_equal]
pub struct Exchange {
    pub aborted: bool,
    pub reply: ReplyView,
    pub end: Seq<char>,
}

impl EngineView {
    /// The step that an exchange leads to.
    pub open spec fn step(self, exchange: Exchange) -> StepView {
        self.next(exchange.aborted, exchange.reply, exchange.end)
    }
}

/// The operation of the wipe that an action is, if it is one.
pub open spec fn op_of(action: DeviceAction) -> Seq<WipeOp> {
    match action {
        DeviceAction::Wipe(op) => seq![op],
        _ => Seq::empty(),
    }
}

/// The operations of the wipe that are issued over a series of exchanges.
pub open spec fn ops_issued(engine: EngineView, exchanges: Seq<Exchange>) -> Seq<WipeOp>
    decreases exchanges.len(),
{
    if exchanges.len() == 0 {
        Seq::empty()
    } else {
        match engine.step(exchanges[0]) {
            StepView::Act { action, engine: later } => op_of(action) + ops_issued(
                later,
                exchanges.drop_first(),
            ),
            StepView::Finished(_) => Seq::empty(),
        }
    }
}

/// What a run comes to over a series of exchanges, if it comes to an end.
pub open spec fn outcome(
    engine: EngineView,
    exchanges: Seq<Exchange>,
) -> Option<Result<CertificateView, ErrorView>>
    decreases exchanges.len(),
{
    if exchanges.len() == 0 {
        None
    } else {
        match engine.step(exchanges[0]) {
            StepView::Act { engine: later, .. } => outcome(later, exchanges.drop_first()),
            StepView::Finished(result) => Some(result),
        }
    }
}

// ---------------------------------------------------------------------------
// The plan is kept
// ---------------------------------------------------------------------------

/// What a run has still to do to the device.
#[verifier::opaque]
spec fn pending(engine: EngineView) -> Seq<WipeOp> {
    match engine.phase {
        PhaseView::Created => engine.job.plan(),
        PhaseView::Opening { earlier } => if earlier is None {
            engine.job.plan()
        } else {
            Seq::empty()
        },
        PhaseView::Hashing { earlier, .. } => if earlier is None {
            engine.job.plan()
        } else {
            Seq::empty()
        },
        PhaseView::Wiping { rest, .. } => rest,
        _ => Seq::empty(),
    }
}

proof fn lemma_pending_step(engine: EngineView, exchange: Exchange)
    ensures
        match engine.step(exchange) {
            StepView::Act { action, engine: later } => pending(engine) == op_of(action) + pending(
                later,
            ),
            StepView::Finished(Ok(_)) => pending(engine).len() == 0,
            StepView::Finished(Err(_)) => true,
        },
{
    reveal(pending);
    match engine.step(exchange) {
        StepView::Act { action, engine: later } => {
            assert(pending(engine) =~= op_of(action) + pending(later));
        },
        _ => {},
    }
}

proof fn lemma_concat_prefix(first: Seq<WipeOp>, part: Seq<WipeOp>, whole: Seq<WipeOp>)
    requires
        part.is_prefix_of(whole),
    ensures
        (first + part).is_prefix_of(first + whole),
{
    assert((first + whole).subrange(0, (first + part).len() as int) =~= first + whole.subrange(
        0,
        part.len() as int,
    ));
}

proof fn lemma_pending_is_issued(engine: EngineView, exchanges: Seq<Exchange>)
    ensures
        ops_issued(engine, exchanges).is_prefix_of(pending(engine)),
        outcome(engine, exchanges) matches Some(Ok(_)) ==> ops_issued(engine, exchanges)
            == pending(engine),
    decreases exchanges.len(),
{
    if exchanges.len() > 0 {
        lemma_pending_step(engine, exchanges[0]);
        match engine.step(exchanges[0]) {
            StepView::Act { action, engine: later } => {
                let rest = exchanges.drop_first();
                lemma_pending_is_issued(later, rest);
                lemma_concat_prefix(op_of(action), ops_issued(later, rest), pending(later));
            },
            StepView::Finished(_) => {},
        }
    }
}

/// Whatever the replies and whenever the operator aborts, the operations that
/// a run performs on the device are the plan's, in the plan's order, none
/// twice and none left out. A run that ends with a certificate has performed
/// them all. The plan is that of the algorithm for the target: for its whole
/// size, and with the enhanced erase where the target reports it.
pub proof fn law_run_keeps_to_the_plan(engine: EngineView, exchanges: Seq<Exchange>)
    requires
        engine.phase is Created,
    ensures
        ops_issued(engine, exchanges).is_prefix_of(engine.job.plan()),
        outcome(engine, exchanges) matches Some(Ok(_)) ==> ops_issued(engine, exchanges)
            == engine.job.plan(),
        engine.job.plan() == if engine.job.dry_run {
            Seq::empty()
        } else {
            wipe_plan(
                engine.job.algorithm,
                engine.job.target.supports_enhanced_erase,
                engine.job.target.size_bytes,
            )
        },
{
    reveal(pending);
    lemma_pending_is_issued(engine, exchanges);
}

/// A dry run does nothing to the device.
pub proof fn law_dry_run_writes_nothing(engine: EngineView, exchanges: Seq<Exchange>)
    requires
        engine.phase is Created,
        engine.job.dry_run,
    ensures
        ops_issued(engine, exchanges) == Seq::<WipeOp>::empty(),
{
    reveal(pending);
    lemma_pending_is_issued(engine, exchanges);
}

/// Once the operator has aborted, no pass begins, no full block is written,
/// and no block is read for a fingerprint.
pub proof fn law_abort_stops_the_run(engine: EngineView, exchange: Exchange)
    requires
        exchange.aborted,
    ensures
        match engine.step(exchange) {
            StepView::Act { action: DeviceAction::Wipe(op), .. } => {
                &&& !op.is_abortable()
                &&& !(op is BeginPass)
                &&& op matches WipeOp::WriteBlock { len, .. } ==> len != BLOCK_SIZE
            },
            StepView::Act { engine: later, .. } => !(later.phase is Hashing),
            StepView::Finished(_) => true,
        },
{
}

/// What aborts a run is reported as such, before a pass and before a full
/// block, and in front of every read for a fingerprint.
pub proof fn law_abort_is_reported(engine: EngineView, exchange: Exchange)
    requires
        exchange.aborted,
        exchange.reply is Data,
        match engine.phase {
            PhaseView::Opening { .. } => true,
            PhaseView::Hashing { .. } => exchange.reply->Data_0.len() > 0,
            PhaseView::Wiping { rest, .. } => rest.len() > 0 && rest[0].is_abortable(),
            _ => false,
        },
    ensures
        engine.step(exchange) == StepView::Finished(Err(ErrorView::UserAborted)),
{
}

/// Everything but the start of a pass and a full block goes on after an abort:
/// the short last block, the flush behind a pass, the commands of a hardware
/// erase and the TRIM.
pub proof fn law_abort_leaves_the_rest_alone(
    engine: EngineView,
    reply: ReplyView,
    end: Seq<char>,
)
    requires
        engine.phase matches PhaseView::Wiping { rest, .. } && rest.len() > 0 && match rest[0] {
            WipeOp::BeginPass { .. } => false,
            WipeOp::WriteBlock { len, .. } => len < BLOCK_SIZE,
            _ => true,
        },
    ensures
        engine.next(true, reply, end) == engine.next(false, reply, end),
{
}

/// An abort does one thing only: it ends the run in place of the next read for
/// a fingerprint, the start of a pass, or the write of a full block. Every other
/// step is the one that would be taken without it.
pub proof fn law_abort_has_no_other_effect(engine: EngineView, reply: ReplyView, end: Seq<char>)
    ensures
        ({
            let without = engine.next(false, reply, end);
            let stopped = match without {
                StepView::Act { action: DeviceAction::ReadNext, engine: later } =>
                    later.phase is Hashing,
                StepView::Act { action: DeviceAction::Wipe(WipeOp::BeginPass { .. }), .. } => true,
                StepView::Act {
                    action: DeviceAction::Wipe(WipeOp::WriteBlock { len, .. }),
                    ..
                } => len == BLOCK_SIZE,
                _ => false,
            };
            engine.next(true, reply, end) == if stopped {
                StepView::Finished(Err(ErrorView::UserAborted))
            } else {
                without
            }
        }),
{
}

// ---------------------------------------------------------------------------
// What a certificate says
// ---------------------------------------------------------------------------

/// Whether a certificate is one of a job, and its verdicts agree with each
/// other and with what was asked for.
pub open spec fn certifies(certificate: CertificateView, job: JobView) -> bool {
    &&& certificate.certificate_id == job.certificate_id
    &&& certificate.timestamp_start == job.timestamp_start
    &&& certificate.device_path == job.target.path
    &&& certificate.model == job.target.model
    &&& certificate.serial == job.target.serial_number
    &&& certificate.firmware_rev == job.target.firmware_rev
    &&& certificate.size_bytes == job.target.size_bytes
    &&& certificate.drive_type == job.target.drive_type.name_text()
    &&& certificate.algorithm_used == job.algorithm.text()
    &&& certificate.passes_completed == reported_passes(job.algorithm)
    &&& certificate.operator_note == Seq::<char>::empty()
    &&& certificate.verification_status is Skipped <==> job.skip_verify
    &&& certificate.verification_status is Skipped ==> certificate.post_wipe_hash == "SKIPPED"@
    &&& certificate.verification_status is NotApplicable <==> !job.skip_verify
        && job.algorithm.is_hardware_erase()
    &&& certificate.status is PartialFailure <==> certificate.verification_status is Failed
    &&& certificate.status is Success <==> !(certificate.verification_status is Failed)
}

/// The phases that a run of a job can be in.
spec fn reachable(engine: EngineView) -> bool {
    let job = engine.job;
    match engine.phase {
        PhaseView::Opening { earlier: Some(_) } => !job.skip_verify,
        PhaseView::Hashing { earlier: Some(_), .. } => !job.skip_verify,
        PhaseView::CheckOpening { .. }
        | PhaseView::CheckingBlocks { .. }
        | PhaseView::CheckingRandom { .. } => !job.skip_verify
            && !job.algorithm.is_hardware_erase(),
        _ => true,
    }
}

proof fn lemma_certificate(engine: EngineView, exchanges: Seq<Exchange>)
    requires
        reachable(engine),
    ensures
        outcome(engine, exchanges) matches Some(Ok(certificate)) ==> certifies(
            certificate,
            engine.job,
        ),
    decreases exchanges.len(),
{
    if exchanges.len() > 0 {
        match engine.step(exchanges[0]) {
            StepView::Act { engine: later, .. } => {
                lemma_certificate(later, exchanges.drop_first());
            },
            StepView::Finished(_) => {},
        }
    }
}

/// A certificate describes the run that it was given out for: its target, its
/// algorithm and its passes. Verification is reported as skipped exactly where
/// that was asked for, and as not applicable exactly after a hardware erase.
/// The run is a partial failure exactly where verification failed, and a
/// success otherwise.
pub proof fn law_certificate_describes_the_run(engine: EngineView, exchanges: Seq<Exchange>)
    requires
        engine.phase is Created,
    ensures
        outcome(engine, exchanges) matches Some(Ok(certificate)) ==> certifies(
            certificate,
            engine.job,
        ),
{
    lemma_certificate(engine, exchanges);
}

/// A certificate is dated with the time at which the run came to its end, in
/// the last exchange that it took.
pub proof fn law_certificate_is_dated(engine: EngineView, exchanges: Seq<Exchange>)
    ensures
        outcome(engine, exchanges) matches Some(Ok(certificate)) ==> exists|k: int|
            #![trigger exchanges[k]]
            0 <= k < exchanges.len() && exchanges[k].end == certificate.timestamp_end && outcome(
                engine,
                exchanges.take(k),
            ) is None,
    decreases exchanges.len(),
{
    if exchanges.len() > 0 {
        match engine.step(exchanges[0]) {
            StepView::Act { engine: later, .. } => {
                let rest = exchanges.drop_first();
                law_certificate_is_dated(later, rest);
                if let Some(Ok(certificate)) = outcome(later, rest) {
                    let k = choose|k: int|
                        #![trigger rest[k]]
                        0 <= k < rest.len() && rest[k].end == certificate.timestamp_end && outcome(
                            later,
                            rest.take(k),
                        ) is None;
                    assert(exchanges[k + 1] == rest[k]);
                    assert(exchanges.take(k + 1).drop_first() =~= rest.take(k));
                    assert(exchanges.take(k + 1)[0] == exchanges[0]);
                }
            },
            StepView::Finished(_) => {
                assert(exchanges.take(0).len() == 0);
            },
        }
    }
}

// ---------------------------------------------------------------------------
// Failures
// ---------------------------------------------------------------------------

/// The failed replies to operations of the wipe over a series of exchanges,
/// each with its operation. `pending` is the action that the first exchange
/// replies to.
pub open spec fn refused_ops(
    engine: EngineView,
    pending: Option<DeviceAction>,
    exchanges: Seq<Exchange>,
) -> Seq<(WipeOp, FailureView)>
    decreases exchanges.len(),
{
    if exchanges.len() == 0 {
        Seq::empty()
    } else {
        let first = match (pending, exchanges[0].reply) {
            (Some(DeviceAction::Wipe(op)), ReplyView::Failed(failure)) => seq![(op, failure)],
            _ => Seq::empty(),
        };
        match engine.step(exchanges[0]) {
            StepView::Act { action, engine: later } => first + refused_ops(
                later,
                Some(action),
                exchanges.drop_first(),
            ),
            StepView::Finished(_) => first,
        }
    }
}

/// Whether an engine waits for an action.
spec fn waits_for(engine: EngineView, pending: Option<DeviceAction>) -> bool {
    match (pending, engine.phase) {
        (Some(DeviceAction::Wipe(op)), PhaseView::Wiping { issued, .. }) => op == issued,
        (Some(DeviceAction::Wipe(_)), _) => false,
        (_, PhaseView::Wiping { .. }) => false,
        _ => true,
    }
}

proof fn lemma_waits(engine: EngineView, pending: Option<DeviceAction>, exchange: Exchange)
    requires
        waits_for(engine, pending),
    ensures
        engine.step(exchange) matches StepView::Act { action, engine: later } ==> waits_for(
            later,
            Some(action),
        ),
{
}

/// What a refused operation is reported as.
pub open spec fn reports_refusal(error: ErrorView, op: WipeOp, failure: FailureView) -> bool {
    match failure {
        FailureView::Io(m) => error == ErrorView::Io(m),
        FailureView::Ioctl { code, os_error } => {
            let words = match op {
                WipeOp::NvmeFormat => "NVMe Format NVM crypto erase failed: "@,
                WipeOp::Ata(AtaCommand::SetPassword) => "ATA SECURITY SET PASSWORD failed: "@,
                WipeOp::Ata(AtaCommand::ErasePrepare) => "ATA SECURITY ERASE PREPARE failed: "@,
                WipeOp::Ata(AtaCommand::EraseUnit { .. }) => "ATA SECURITY ERASE UNIT failed: "@,
                _ => ""@,
            };
            error == (ErrorView::IoctlFailed { code, message: words + os_error })
        },
    }
}

proof fn lemma_refusal_step(
    engine: EngineView,
    op: WipeOp,
    failure: FailureView,
    exchange: Exchange,
)
    requires
        waits_for(engine, Some(DeviceAction::Wipe(op))),
        exchange.reply == ReplyView::Failed(failure),
        !(op is Discard),
    ensures
        engine.step(exchange) matches StepView::Finished(Err(e)) && reports_refusal(e, op, failure),
{
}

proof fn lemma_refusals(
    engine: EngineView,
    pending: Option<DeviceAction>,
    exchanges: Seq<Exchange>,
    k: int,
)
    requires
        waits_for(engine, pending),
        0 <= k < refused_ops(engine, pending, exchanges).len(),
        !(refused_ops(engine, pending, exchanges)[k].0 is Discard),
    ensures
        k == refused_ops(engine, pending, exchanges).len() - 1,
        outcome(engine, exchanges) matches Some(Err(e)) && reports_refusal(
            e,
            refused_ops(engine, pending, exchanges)[k].0,
            refused_ops(engine, pending, exchanges)[k].1,
        ),
    decreases exchanges.len(),
{
    let exchange = exchanges[0];
    let refused = refused_ops(engine, pending, exchanges);
    lemma_waits(engine, pending, exchange);
    let first = match (pending, exchange.reply) {
        (Some(DeviceAction::Wipe(op)), ReplyView::Failed(failure)) => seq![(op, failure)],
        _ => Seq::empty(),
    };
    if k < first.len() {
        lemma_refusal_step(engine, first[0].0, first[0].1, exchange);
    } else {
        match engine.step(exchange) {
            StepView::Act { action, engine: later } => {
                let rest = refused_ops(later, Some(action), exchanges.drop_first());
                assert(refused[k] == rest[k - first.len()]);
                lemma_refusals(later, Some(action), exchanges.drop_first(), k - first.len());
            },
            StepView::Finished(_) => {},
        }
    }
}

/// An operation of the wipe that fails ends the run there and then, with the
/// error of that failure: the start of a pass, a write, a flush, the NVMe
/// command and each of the ATA commands. Only a TRIM may fail. So a run that
/// ends with a certificate had no other failure while it wiped.
pub proof fn law_failed_operation_ends_the_run(
    engine: EngineView,
    exchanges: Seq<Exchange>,
    k: int,
)
    requires
        engine.phase is Created,
        0 <= k < refused_ops(engine, None, exchanges).len(),
    ensures
        ({
            let refused = refused_ops(engine, None, exchanges);
            &&& !(refused[k].0 is Discard) ==> k == refused.len() - 1
            &&& !(refused[k].0 is Discard) ==> (outcome(engine, exchanges) matches Some(Err(e))
                && reports_refusal(e, refused[k].0, refused[k].1))
            &&& outcome(engine, exchanges) matches Some(Ok(_)) ==> refused[k].0 is Discard
        }),
{
    if !(refused_ops(engine, None, exchanges)[k].0 is Discard) {
        lemma_refusals(engine, None, exchanges, k);
    }
}

/// A TRIM that fails changes nothing in the run: the next step is the one that
/// follows where it succeeds.
pub proof fn law_failed_trim_is_passed_over(
    engine: EngineView,
    failure: FailureView,
    bytes: Seq<u8>,
    aborted: bool,
    end: Seq<char>,
)
    requires
        engine.phase matches PhaseView::Wiping { issued, .. } && issued is Discard,
    ensures
        engine.next(aborted, ReplyView::Failed(failure), end) == engine.next(
            aborted,
            ReplyView::Data(bytes),
            end,
        ),
{
}

/// A device that cannot be opened or read for a fingerprint ends the run with
/// that error; one that cannot be opened or read back for verification is a
/// failed verification, and the run still ends with a certificate.
pub proof fn law_failed_read(
    engine: EngineView,
    message: Seq<char>,
    aborted: bool,
    end: Seq<char>,
)
    ensures
        ({
            let step = engine.next(aborted, ReplyView::Failed(FailureView::Io(message)), end);
            match engine.phase {
                PhaseView::Opening { .. } | PhaseView::Hashing { .. } => step
                    == StepView::Finished(Err(ErrorView::Io(message))),
                PhaseView::CheckOpening { pre_hash, post_hash }
                | PhaseView::CheckingBlocks { pre_hash, post_hash, .. }
                | PhaseView::CheckingRandom { pre_hash, post_hash } => {
                    &&& step matches StepView::Finished(Ok(certificate))
                    &&& certificate.verification_status is Failed
                    &&& certificate.status is PartialFailure
                    &&& certificate.pre_wipe_hash == pre_hash
                    &&& certificate.post_wipe_hash == post_hash
                },
                _ => true,
            }
        }),
{
}

// ---------------------------------------------------------------------------
// Single steps
// ---------------------------------------------------------------------------

/// What is read back decides the verification, and nothing else does. After a
/// random last pass it passes exactly where two of the bytes differ, or there
/// are none. After a constant one it fails exactly where a byte is another,
/// and goes on to the next block, or has passed behind the last one, otherwise.
pub proof fn law_read_back_decides(
    engine: EngineView,
    bytes: Seq<u8>,
    aborted: bool,
    end: Seq<char>,
)
    requires
        engine.phase matches PhaseView::CheckingBlocks { left, .. } ==> left.len() > 0,
    ensures
        ({
            let step = engine.next(aborted, ReplyView::Data(bytes), end);
            match engine.phase {
                PhaseView::CheckingRandom { .. } => {
                    &&& step matches StepView::Finished(Ok(certificate))
                    &&& certificate.verification_status == if bytes.len() == 0 || exists|
                        i: int,
                        j: int,
                    |
                        #![trigger bytes[i], bytes[j]]
                        0 <= i < j < bytes.len() && bytes[i] != bytes[j] {
                        VerificationStatus::Passed
                    } else {
                        VerificationStatus::Failed
                    }
                },
                PhaseView::CheckingBlocks { expected, left, .. } => {
                    let wrong = exists|i: int|
                        0 <= i < bytes.len() && #[trigger] bytes[i] != expected;
                    match step {
                        StepView::Finished(Ok(certificate)) => {
                            &&& wrong || bytes.len() == 0 || left.len() <= 1
                            &&& certificate.verification_status == if wrong {
                                VerificationStatus::Failed
                            } else {
                                VerificationStatus::Passed
                            }
                        },
                        StepView::Finished(Err(_)) => false,
                        StepView::Act { action, .. } => {
                            &&& !wrong && bytes.len() > 0 && left.len() > 1
                            &&& action == DeviceAction::ReadAt {
                                offset: (left[1] * BLOCK_SIZE) as u64,
                            }
                        },
                    }
                },
                _ => true,
            }
        }),
{
    law_two_bytes_that_differ_pass_for_random(bytes);
    if engine.phase is CheckingBlocks {
        let expected = engine.phase->expected;
        let left = engine.phase->left;
        assert(left.len() > 1 ==> left.drop_first()[0] == left[1]);
        if !all_bytes(bytes, expected) {
            let i = choose|i: int| 0 <= i < bytes.len() && #[trigger] bytes[i] != expected;
            assert(bytes[i] != expected);
        }
        if exists|i: int| 0 <= i < bytes.len() && #[trigger] bytes[i] != expected {
            let i = choose|i: int| 0 <= i < bytes.len() && #[trigger] bytes[i] != expected;
            assert(!all_bytes(bytes, expected));
        }
    }
}

} // verus!
