//! The sanitization engine: fingerprint, wipe, fingerprint, verification,
//! certificate. The engine decides; its caller performs each action on the
//! device and comes back with the reply.

use vstd::prelude::*;

use crate::error::{ErrorView, TitanError, TitanResult};
use crate::fingerprint::{fingerprint_of, Fingerprint};
use crate::guardrails::GuardrailReport;
use crate::numerals::{upper, upper_text};
use crate::outside::{is_random_uuid, is_utc_time, random_uuid, utc_now};
use crate::spot_check::{
    all_bytes, expected_byte, holds_only, last_pass_byte, law_sample_spans_the_device,
    plausibly_random, sample_blocks, sampled_blocks, verify_random_last_pass,
};
use crate::text::concat2;
use crate::types::{
    CertificateView, DiskTarget, DiskView, SanitizationCertificate, SanitizationStatus,
    VerificationStatus, WipeAlgorithm,
};
use crate::wipe::{passes_completed, reported_passes, wipe_plan, WipeCursor, WipeOp, BLOCK_SIZE};

verus! {

// ---------------------------------------------------------------------------
// Actions and replies
// ---------------------------------------------------------------------------

/// What the device is read for.
#[derive(Debug, Clone, Copy, PartialEq, Eq, Structural)]
pub enum ReadPurpose {
    PreWipe,
    PostWipe,
    Verification,
}

impl ReadPurpose {
    /// The progress label.
    pub open spec fn text(self) -> Seq<char> {
        match self {
            ReadPurpose::PreWipe => "Pre-wipe fingerprint"@,
            ReadPurpose::PostWipe => "Post-wipe fingerprint"@,
            ReadPurpose::Verification => "Verification"@,
        }
    }

    /// The progress label.
    pub fn label(self) -> (r: &'static str)
        ensures
            r@ == self.text(),
    {
        match self {
            ReadPurpose::PreWipe => "Pre-wipe fingerprint",
            ReadPurpose::PostWipe => "Post-wipe fingerprint",
            ReadPurpose::Verification => "Verification",
        }
    }
}

/// What the caller has to do with the device next.
#[derive(Debug, Clone, Copy, PartialEq, Eq, Structural)]
pub enum DeviceAction {
    /// Open the device for reading, at its start.
    OpenForRead(ReadPurpose),
    /// Read up to `BLOCK_SIZE` bytes where the last read ended.
    ReadNext,
    /// Read up to `BLOCK_SIZE` bytes at `offset`.
    ReadAt { offset: u64 },
    /// Perform an operation of the wipe.
    Wipe(WipeOp),
}

/// Why an action failed.
#[derive(Debug)]
pub enum DeviceFailure {
    /// An open, a read, a write or a flush: the system's words.
    Io(String),
    /// A kernel command: its code and the system's words.
    Ioctl { code: i32, os_error: String },
}

/// A `DeviceFailure` with its text as a sequence of characters.
#[verifier::ext_equal]
pub enum FailureView {
    Io(Seq<char>),
    Ioctl { code: i32, os_error: Seq<char> },
}

impl View for DeviceFailure {
    type V = FailureView;

    open spec fn view(&self) -> FailureView {
        match *self {
            DeviceFailure::Io(m) => FailureView::Io(m@),
            DeviceFailure::Ioctl { code, os_error } => FailureView::Ioctl {
                code,
                os_error: os_error@,
            },
        }
    }
}

impl FailureView {
    /// The failure as an error; a kernel command's begins with `prefix`.
    pub open spec fn error(self, prefix: Seq<char>) -> ErrorView {
        match self {
            FailureView::Io(m) => ErrorView::Io(m),
            FailureView::Ioctl { code, os_error } => ErrorView::IoctlFailed {
                code,
                message: prefix + os_error,
            },
        }
    }
}

impl DeviceFailure {
    /// The failure as an error; a kernel command's begins with `prefix`.
    pub fn into_error(self, prefix: &str) -> (r: TitanError)
        ensures
            r@ == self@.error(prefix@),
    {
        match self {
            DeviceFailure::Io(m) => TitanError::Io(m),
            DeviceFailure::Ioctl { code, os_error } => TitanError::IoctlFailed {
                code,
                message: concat2(prefix, os_error.as_str()),
            },
        }
    }
}

/// How an action went: the bytes that were read, none where nothing was to be
/// read, or the failure.
pub enum DeviceReply<'a> {
    Data(&'a [u8]),
    Failed(DeviceFailure),
}

/// A `DeviceReply` over sequences.
#[verifier::ext_equal]
pub enum ReplyView {
    Data(Seq<u8>),
    Failed(FailureView),
}

impl<'a> View for DeviceReply<'a> {
    type V = ReplyView;

    open spec fn view(&self) -> ReplyView {
        match *self {
            DeviceReply::Data(bytes) => ReplyView::Data(bytes@),
            DeviceReply::Failed(failure) => ReplyView::Failed(failure@),
        }
    }
}

// ---------------------------------------------------------------------------
// States
// ---------------------------------------------------------------------------

/// Where a run stands: always at an action that was issued and whose reply is
/// still out. `earlier` is the fingerprint from before the wipe, once there is
/// one.
enum Phase {
    Created,
    Opening { earlier: Option<String> },
    Hashing { earlier: Option<String>, so_far: Fingerprint },
    Wiping { pre_hash: String, issued: WipeOp, rest: WipeCursor },
    CheckOpening { pre_hash: String, post_hash: String },
    CheckingBlocks {
        pre_hash: String,
        post_hash: String,
        expected: u8,
        blocks: Vec<u64>,
        at: usize,
    },
    CheckingRandom { pre_hash: String, post_hash: String },
}

/// The phases of a run, over sequences.
#[verifier::ext_equal]
pub enum PhaseView {
    /// Nothing was issued yet.
    Created,
    /// The device is being opened for a fingerprint.
    Opening { earlier: Option<Seq<char>> },
    /// The next block of a fingerprint is being read.
    Hashing { earlier: Option<Seq<char>>, so_far: Seq<u8> },
    /// The operation `issued` is being performed; `rest` is left of the plan.
    Wiping { pre_hash: Seq<char>, issued: WipeOp, rest: Seq<WipeOp> },
    /// The device is being opened for verification.
    CheckOpening { pre_hash: Seq<char>, post_hash: Seq<char> },
    /// The first block of `left` is being read back.
    CheckingBlocks {
        pre_hash: Seq<char>,
        post_hash: Seq<char>,
        expected: u8,
        left: Seq<u64>,
    },
    /// The first block is being read back after a random pass.
    CheckingRandom { pre_hash: Seq<char>, post_hash: Seq<char> },
}

pub open spec fn text_view(t: Option<String>) -> Option<Seq<char>> {
    match t {
        Some(s) => Some(s@),
        None => None,
    }
}

impl View for Phase {
    type V = PhaseView;

    closed spec fn view(&self) -> PhaseView {
        match *self {
            Phase::Created => PhaseView::Created,
            Phase::Opening { earlier } => PhaseView::Opening { earlier: text_view(earlier) },
            Phase::Hashing { earlier, so_far } => PhaseView::Hashing {
                earlier: text_view(earlier),
                so_far: so_far@,
            },
            Phase::Wiping { pre_hash, issued, rest } => PhaseView::Wiping {
                pre_hash: pre_hash@,
                issued,
                rest: rest@,
            },
            Phase::CheckOpening { pre_hash, post_hash } => PhaseView::CheckOpening {
                pre_hash: pre_hash@,
                post_hash: post_hash@,
            },
            Phase::CheckingBlocks { pre_hash, post_hash, expected, blocks, at } =>
                PhaseView::CheckingBlocks {
                    pre_hash: pre_hash@,
                    post_hash: post_hash@,
                    expected,
                    left: blocks@.skip(at as int),
                },
            Phase::CheckingRandom { pre_hash, post_hash } => PhaseView::CheckingRandom {
                pre_hash: pre_hash@,
                post_hash: post_hash@,
            },
        }
    }
}

impl Phase {
    spec fn well_formed(&self) -> bool {
        self matches Phase::CheckingBlocks { blocks, at, .. } ==> at < blocks@.len()
            && readable_blocks(blocks@)
    }
}

/// What a run is about; it never changes.
#[verifier::ext_equal]
pub struct JobView {
    pub target: DiskView,
    pub algorithm: WipeAlgorithm,
    pub skip_verify: bool,
    pub dry_run: bool,
    pub certificate_id: Seq<char>,
    pub timestamp_start: Seq<char>,
}

struct Job {
    target: DiskTarget,
    algorithm: WipeAlgorithm,
    skip_verify: bool,
    dry_run: bool,
    certificate_id: String,
    timestamp_start: String,
}

impl View for Job {
    type V = JobView;

    closed spec fn view(&self) -> JobView {
        JobView {
            target: self.target@,
            algorithm: self.algorithm,
            skip_verify: self.skip_verify,
            dry_run: self.dry_run,
            certificate_id: self.certificate_id@,
            timestamp_start: self.timestamp_start@,
        }
    }
}

/// A run of the sanitization pipeline on one device.
pub struct SanitizerEngine {
    job: Job,
    phase: Phase,
}

/// A `SanitizerEngine` over sequences.
#[verifier::ext_equal]
pub struct EngineView {
    pub job: JobView,
    pub phase: PhaseView,
}

impl View for SanitizerEngine {
    type V = EngineView;

    closed spec fn view(&self) -> EngineView {
        EngineView { job: self.job@, phase: self.phase@ }
    }
}

/// What a run comes to next.
pub enum RunStep {
    /// Perform the action, and go on with the engine and the reply.
    Act { action: DeviceAction, engine: SanitizerEngine },
    /// The run is over.
    Finished(TitanResult<SanitizationCertificate>),
}

/// A `RunStep` over sequences.
#[verifier::ext_equal]
pub enum StepView {
    Act { action: DeviceAction, engine: EngineView },
    Finished(Result<CertificateView, ErrorView>),
}

impl View for RunStep {
    type V = StepView;

    open spec fn view(&self) -> StepView {
        match *self {
            RunStep::Act { action, engine } => StepView::Act { action, engine: engine@ },
            RunStep::Finished(Ok(certificate)) => StepView::Finished(Ok(certificate@)),
            RunStep::Finished(Err(e)) => StepView::Finished(Err(e@)),
        }
    }
}

impl StepView {
    /// The end time in the certificate, if the step gives one out.
    pub open spec fn end_time(self) -> Seq<char> {
        match self {
            StepView::Finished(Ok(certificate)) => certificate.timestamp_end,
            _ => Seq::empty(),
        }
    }
}

// ---------------------------------------------------------------------------
// The pipeline
// ---------------------------------------------------------------------------

impl JobView {
    /// Everything that the run does to the device, in order. A dry run does
    /// nothing.
    pub open spec fn plan(self) -> Seq<WipeOp> {
        if self.dry_run {
            Seq::empty()
        } else {
            wipe_plan(
                self.algorithm,
                self.target.supports_enhanced_erase,
                self.target.size_bytes,
            )
        }
    }

    /// The certificate of the run.
    pub open spec fn certificate(
        self,
        pre_hash: Seq<char>,
        post_hash: Seq<char>,
        verification: VerificationStatus,
        end: Seq<char>,
    ) -> CertificateView {
        CertificateView {
            certificate_id: self.certificate_id,
            timestamp_start: self.timestamp_start,
            timestamp_end: end,
            device_path: self.target.path,
            model: self.target.model,
            serial: self.target.serial_number,
            firmware_rev: self.target.firmware_rev,
            size_bytes: self.target.size_bytes,
            drive_type: self.target.drive_type.name_text(),
            algorithm_used: self.algorithm.text(),
            passes_completed: reported_passes(self.algorithm) as u32,
            pre_wipe_hash: pre_hash,
            post_wipe_hash: post_hash,
            verification_status: verification,
            status: if verification is Failed {
                SanitizationStatus::PartialFailure
            } else {
                SanitizationStatus::Success
            },
            operator_note: Seq::empty(),
        }
    }

    /// The run ends with a certificate.
    pub open spec fn finish(
        self,
        pre_hash: Seq<char>,
        post_hash: Seq<char>,
        verification: VerificationStatus,
        end: Seq<char>,
    ) -> StepView {
        StepView::Finished(Ok(self.certificate(pre_hash, post_hash, verification, end)))
    }

    /// The run waits for an action in a phase.
    pub open spec fn act(self, action: DeviceAction, phase: PhaseView) -> StepView {
        StepView::Act { action, engine: EngineView { job: self, phase } }
    }

    /// The next read of a fingerprint, unless the operator aborts.
    pub open spec fn read_on(
        self,
        earlier: Option<Seq<char>>,
        so_far: Seq<u8>,
        aborted: bool,
    ) -> StepView {
        if aborted {
            StepView::Finished(Err(ErrorView::UserAborted))
        } else {
            self.act(DeviceAction::ReadNext, PhaseView::Hashing { earlier, so_far })
        }
    }

    /// The next operation of the plan, unless the operator aborts in front of
    /// it; what follows the wipe where the plan is done.
    pub open spec fn wipe_on(
        self,
        pre_hash: Seq<char>,
        rest: Seq<WipeOp>,
        aborted: bool,
        end: Seq<char>,
    ) -> StepView {
        if rest.len() > 0 {
            if aborted && rest[0].is_abortable() {
                StepView::Finished(Err(ErrorView::UserAborted))
            } else {
                self.act(
                    DeviceAction::Wipe(rest[0]),
                    PhaseView::Wiping { pre_hash, issued: rest[0], rest: rest.drop_first() },
                )
            }
        } else if self.skip_verify {
            self.finish(pre_hash, "SKIPPED"@, VerificationStatus::Skipped, end)
        } else {
            self.act(
                DeviceAction::OpenForRead(ReadPurpose::PostWipe),
                PhaseView::Opening { earlier: Some(pre_hash) },
            )
        }
    }

    /// What follows a finished fingerprint: the wipe behind the first, the
    /// verification behind the second. What a controller has erased cannot be
    /// verified by reading.
    pub open spec fn hashed(
        self,
        earlier: Option<Seq<char>>,
        hash: Seq<char>,
        aborted: bool,
        end: Seq<char>,
    ) -> StepView {
        match earlier {
            None => self.wipe_on(hash, self.plan(), aborted, end),
            Some(pre) => if self.algorithm.is_hardware_erase() {
                self.finish(pre, hash, VerificationStatus::NotApplicable, end)
            } else {
                self.act(
                    DeviceAction::OpenForRead(ReadPurpose::Verification),
                    PhaseView::CheckOpening { pre_hash: pre, post_hash: hash },
                )
            },
        }
    }

    /// The next block to read back; the verification has passed where none is
    /// left.
    pub open spec fn check_on(
        self,
        pre_hash: Seq<char>,
        post_hash: Seq<char>,
        expected: u8,
        left: Seq<u64>,
        end: Seq<char>,
    ) -> StepView {
        if left.len() > 0 {
            self.act(
                DeviceAction::ReadAt { offset: (left[0] * BLOCK_SIZE) as u64 },
                PhaseView::CheckingBlocks { pre_hash, post_hash, expected, left },
            )
        } else {
            self.finish(pre_hash, post_hash, VerificationStatus::Passed, end)
        }
    }
}

/// The verdict of a check.
pub open spec fn verdict(passed: bool) -> VerificationStatus {
    if passed {
        VerificationStatus::Passed
    } else {
        VerificationStatus::Failed
    }
}

impl EngineView {
    /// The step that a reply leads to. `end` is the time at which a
    /// certificate is given out.
    pub open spec fn next(self, aborted: bool, reply: ReplyView, end: Seq<char>) -> StepView {
        let job = self.job;
        match (self.phase, reply) {
            (PhaseView::Created, _) => job.act(
                DeviceAction::OpenForRead(ReadPurpose::PreWipe),
                PhaseView::Opening { earlier: None },
            ),
            (PhaseView::Opening { earlier }, ReplyView::Data(_)) => job.read_on(
                earlier,
                Seq::empty(),
                aborted,
            ),
            (PhaseView::Hashing { earlier, so_far }, ReplyView::Data(bytes)) => if bytes.len()
                == 0 {
                job.hashed(earlier, fingerprint_of(so_far), aborted, end)
            } else {
                job.read_on(earlier, so_far + bytes, aborted)
            },
            (PhaseView::Opening { .. }, ReplyView::Failed(failure))
            | (PhaseView::Hashing { .. }, ReplyView::Failed(failure)) => StepView::Finished(
                Err(failure.error(""@)),
            ),
            (PhaseView::Wiping { pre_hash, issued, rest }, ReplyView::Data(_)) => job.wipe_on(
                pre_hash,
                rest,
                aborted,
                end,
            ),
            (PhaseView::Wiping { pre_hash, issued, rest }, ReplyView::Failed(failure)) =>
                if issued.is_optional() {
                    job.wipe_on(pre_hash, rest, aborted, end)
                } else {
                    StepView::Finished(Err(failure.error(issued.failure_text())))
                },
            (PhaseView::CheckOpening { pre_hash, post_hash }, ReplyView::Data(_)) =>
                match expected_byte(job.algorithm) {
                    Some(expected) => job.check_on(
                        pre_hash,
                        post_hash,
                        expected,
                        sampled_blocks(job.target.size_bytes as int),
                        end,
                    ),
                    None => job.act(
                        DeviceAction::ReadNext,
                        PhaseView::CheckingRandom { pre_hash, post_hash },
                    ),
                },
            (
                PhaseView::CheckingBlocks { pre_hash, post_hash, expected, left },
                ReplyView::Data(bytes),
            ) => if bytes.len() == 0 || !all_bytes(bytes, expected) {
                job.finish(pre_hash, post_hash, verdict(bytes.len() == 0), end)
            } else {
                job.check_on(pre_hash, post_hash, expected, left.drop_first(), end)
            },
            (PhaseView::CheckingRandom { pre_hash, post_hash }, ReplyView::Data(bytes)) =>
                job.finish(pre_hash, post_hash, verdict(plausibly_random(bytes)), end),
            (PhaseView::CheckOpening { pre_hash, post_hash }, ReplyView::Failed(_))
            | (PhaseView::CheckingBlocks { pre_hash, post_hash, .. }, ReplyView::Failed(_))
            | (PhaseView::CheckingRandom { pre_hash, post_hash }, ReplyView::Failed(_)) =>
                job.finish(pre_hash, post_hash, VerificationStatus::Failed, end),
        }
    }

    /// Whether the fingerprint at hand can take in the bytes of a reply: it
    /// counts them in 64 bits.
    pub open spec fn has_room(self, reply: ReplyView) -> bool {
        match (self.phase, reply) {
            (PhaseView::Hashing { so_far, .. }, ReplyView::Data(bytes)) => so_far.len()
                + bytes.len() <= u64::MAX,
            _ => true,
        }
    }
}

// ---------------------------------------------------------------------------
// Running the pipeline
// ---------------------------------------------------------------------------

/// A run that is done but for the certificate's end time.
pub struct Completion {
    job: Job,
    pre_hash: String,
    post_hash: String,
    verification: VerificationStatus,
}

impl Completion {
    /// The certificate as of an end time.
    pub closed spec fn certificate_at(&self, end: Seq<char>) -> CertificateView {
        self.job@.certificate(self.pre_hash@, self.post_hash@, self.verification, end)
    }

    /// The certificate as of an end time.
    pub fn certificate(self, timestamp_end: String) -> (r: SanitizationCertificate)
        ensures
            r@ == self.certificate_at(timestamp_end@),
    {
        let Completion { job, pre_hash, post_hash, verification } = self;
        let drive_type = job.target.drive_type.name();
        let algorithm_used = job.algorithm.display();
        let status = match verification {
            VerificationStatus::Failed => SanitizationStatus::PartialFailure,
            _ => SanitizationStatus::Success,
        };
        let operator_note = String::new();
        proof {
            assert(operator_note@ =~= Seq::<char>::empty());
        }
        SanitizationCertificate {
            certificate_id: job.certificate_id,
            timestamp_start: job.timestamp_start,
            timestamp_end,
            device_path: job.target.path,
            model: job.target.model,
            serial: job.target.serial_number,
            firmware_rev: job.target.firmware_rev,
            size_bytes: job.target.size_bytes,
            drive_type,
            algorithm_used,
            passes_completed: passes_completed(job.algorithm),
            pre_wipe_hash: pre_hash,
            post_wipe_hash: post_hash,
            verification_status: verification,
            status,
            operator_note,
        }
    }
}

/// What a run comes to next, before the clock is read.
pub enum Progress {
    /// Perform the action, and go on with the engine and the reply.
    Act { action: DeviceAction, engine: SanitizerEngine },
    /// The run has failed.
    Failed(TitanError),
    /// The run is done.
    Complete(Completion),
}

impl Progress {
    /// The step that this is at an end time.
    pub open spec fn at_time(&self, end: Seq<char>) -> StepView {
        match *self {
            Progress::Act { action, engine } => StepView::Act { action, engine: engine@ },
            Progress::Failed(e) => StepView::Finished(Err(e@)),
            Progress::Complete(completion) => StepView::Finished(
                Ok(completion.certificate_at(end)),
            ),
        }
    }
}

impl Job {
    fn act(self, action: DeviceAction, phase: Phase) -> (r: Progress)
        requires
            phase.well_formed(),
        ensures
            forall|end: Seq<char>| #[trigger] r.at_time(end) == self@.act(action, phase@),
    {
        Progress::Act { action, engine: SanitizerEngine { job: self, phase } }
    }

    fn finish(
        self,
        pre_hash: String,
        post_hash: String,
        verification: VerificationStatus,
    ) -> (r: Progress)
        ensures
            forall|end: Seq<char>| #[trigger]
                r.at_time(end) == self@.finish(pre_hash@, post_hash@, verification, end),
    {
        Progress::Complete(Completion { job: self, pre_hash, post_hash, verification })
    }

    fn read_on(self, earlier: Option<String>, so_far: Fingerprint, aborted: bool) -> (r: Progress)
        ensures
            forall|end: Seq<char>| #[trigger]
                r.at_time(end) == self@.read_on(text_view(earlier), so_far@, aborted),
    {
        if aborted {
            Progress::Failed(TitanError::UserAborted)
        } else {
            self.act(DeviceAction::ReadNext, Phase::Hashing { earlier, so_far })
        }
    }

    fn wipe_on(self, pre_hash: String, rest: WipeCursor, aborted: bool) -> (r: Progress)
        ensures
            forall|end: Seq<char>| #[trigger]
                r.at_time(end) == self@.wipe_on(pre_hash@, rest@, aborted, end),
    {
        match rest.next() {
            (Some(op), later) => {
                if aborted && op.abortable() {
                    Progress::Failed(TitanError::UserAborted)
                } else {
                    self.act(
                        DeviceAction::Wipe(op),
                        Phase::Wiping { pre_hash, issued: op, rest: later },
                    )
                }
            },
            (None, _) => {
                if self.skip_verify {
                    self.finish(pre_hash, "SKIPPED".to_owned(), VerificationStatus::Skipped)
                } else {
                    self.act(
                        DeviceAction::OpenForRead(ReadPurpose::PostWipe),
                        Phase::Opening { earlier: Some(pre_hash) },
                    )
                }
            },
        }
    }

    fn hashed(self, earlier: Option<String>, hash: String, aborted: bool) -> (r: Progress)
        ensures
            forall|end: Seq<char>| #[trigger]
                r.at_time(end) == self@.hashed(text_view(earlier), hash@, aborted, end),
    {
        match earlier {
            None => {
                let plan = if self.dry_run {
                    WipeCursor::nothing()
                } else {
                    WipeCursor::new(
                        self.algorithm,
                        self.target.supports_enhanced_erase,
                        self.target.size_bytes,
                    )
                };
                self.wipe_on(hash, plan, aborted)
            },
            Some(pre) => match self.algorithm {
                WipeAlgorithm::NistNvmeCryptoErase | WipeAlgorithm::NistAtaSecureErase =>
                    self.finish(pre, hash, VerificationStatus::NotApplicable),
                _ => self.act(
                    DeviceAction::OpenForRead(ReadPurpose::Verification),
                    Phase::CheckOpening { pre_hash: pre, post_hash: hash },
                ),
            },
        }
    }

    fn check_on(
        self,
        pre_hash: String,
        post_hash: String,
        expected: u8,
        blocks: Vec<u64>,
        at: usize,
    ) -> (r: Progress)
        requires
            at <= blocks@.len(),
            readable_blocks(blocks@),
        ensures
            forall|end: Seq<char>| #[trigger]
                r.at_time(end) == self@.check_on(
                    pre_hash@,
                    post_hash@,
                    expected,
                    blocks@.skip(at as int),
                    end,
                ),
    {
        if at < blocks.len() {
            let block: u64 = blocks[at];
            let offset: u64 = block * BLOCK_SIZE as u64;
            self.act(
                DeviceAction::ReadAt { offset },
                Phase::CheckingBlocks { pre_hash, post_hash, expected, blocks, at },
            )
        } else {
            self.finish(pre_hash, post_hash, VerificationStatus::Passed)
        }
    }
}

/// Whether the offset of each block fits in 64 bits.
spec fn readable_blocks(blocks: Seq<u64>) -> bool {
    forall|i: int| 0 <= i < blocks.len() ==> #[trigger] blocks[i] * BLOCK_SIZE <= u64::MAX
}

fn verdict_of(passed: bool) -> (r: VerificationStatus)
    ensures
        r == verdict(passed),
{
    if passed {
        VerificationStatus::Passed
    } else {
        VerificationStatus::Failed
    }
}

/// Whether a text is a certificate's number: a random UUID in upper case.
pub open spec fn is_certificate_id(s: Seq<char>) -> bool {
    exists|uuid: Seq<char>| #[trigger] is_random_uuid(uuid) && s == upper(uuid)
}

impl SanitizerEngine {
    #[verifier::type_invariant]
    closed spec fn well_formed(&self) -> bool {
        self.phase.well_formed()
    }

    /// A run on a target that the guardrails clear, under a given certificate
    /// number and start time.
    pub fn with_identity(
        target: DiskTarget,
        algorithm: WipeAlgorithm,
        skip_verify: bool,
        dry_run: bool,
        report: &GuardrailReport,
        certificate_id: String,
        timestamp_start: String,
    ) -> (r: TitanResult<SanitizerEngine>)
        ensures
            r is Ok <==> report.clears(target@.path),
            match r {
                Ok(engine) => engine@ == (EngineView {
                    job: JobView {
                        target: target@,
                        algorithm,
                        skip_verify,
                        dry_run,
                        certificate_id: certificate_id@,
                        timestamp_start: timestamp_start@,
                    },
                    phase: PhaseView::Created,
                }),
                Err(e) => report.objection(target@.path) == Some(e@),
            },
    {
        match report.check(target.path.as_str()) {
            Err(e) => Err(e),
            Ok(_) => Ok(
                SanitizerEngine {
                    job: Job {
                        target,
                        algorithm,
                        skip_verify,
                        dry_run,
                        certificate_id,
                        timestamp_start,
                    },
                    phase: Phase::Created,
                },
            ),
        }
    }

    /// A run on a target that the guardrails clear. Its certificate number is
    /// drawn by chance and its start time read off the clock: of these two
    /// only the shape is stated.
    pub fn new(
        target: DiskTarget,
        algorithm: WipeAlgorithm,
        skip_verify: bool,
        dry_run: bool,
        report: &GuardrailReport,
    ) -> (r: TitanResult<SanitizerEngine>)
        ensures
            r is Ok <==> report.clears(target@.path),
            match r {
                Ok(engine) => {
                    &&& is_certificate_id(engine@.job.certificate_id)
                    &&& is_utc_time(engine@.job.timestamp_start)
                    &&& engine@ == (EngineView {
                        job: JobView {
                            target: target@,
                            algorithm,
                            skip_verify,
                            dry_run,
                            certificate_id: engine@.job.certificate_id,
                            timestamp_start: engine@.job.timestamp_start,
                        },
                        phase: PhaseView::Created,
                    })
                },
                Err(e) => report.objection(target@.path) == Some(e@),
            },
    {
        let uuid = random_uuid();
        let certificate_id = upper_text(uuid.as_str());
        let timestamp_start = utc_now();
        SanitizerEngine::with_identity(
            target,
            algorithm,
            skip_verify,
            dry_run,
            report,
            certificate_id,
            timestamp_start,
        )
    }

    /// Whether `advance` and `run` can take this reply.
    pub fn takes(&self, reply: &DeviceReply) -> (r: bool)
        ensures
            r == self@.has_room(reply@),
    {
        match (&self.phase, reply) {
            (Phase::Hashing { so_far, .. }, DeviceReply::Data(bytes)) => so_far.has_room(
                bytes.len(),
            ),
            _ => true,
        }
    }

    /// Takes the reply to the action that was issued last, and says what comes
    /// next. `aborted` is whether the operator has asked to stop. The first
    /// call of a run may bring any reply.
    pub fn advance(self, aborted: bool, reply: DeviceReply) -> (r: Progress)
        requires
            self@.has_room(reply@),
        ensures
            forall|end: Seq<char>| #[trigger]
                r.at_time(end) == self@.next(aborted, reply@, end),
    {
        proof {
            use_type_invariant(&self);
        }
        let SanitizerEngine { job, phase } = self;
        match phase {
            Phase::Created => job.act(
                DeviceAction::OpenForRead(ReadPurpose::PreWipe),
                Phase::Opening { earlier: None },
            ),
            Phase::Opening { earlier } => match reply {
                DeviceReply::Data(_) => job.read_on(earlier, Fingerprint::new(), aborted),
                DeviceReply::Failed(failure) => Progress::Failed(failure.into_error("")),
            },
            Phase::Hashing { earlier, so_far } => match reply {
                DeviceReply::Data(bytes) => {
                    if bytes.len() == 0 {
                        let hash = so_far.digest();
                        job.hashed(earlier, hash, aborted)
                    } else {
                        let more = so_far.feed(bytes);
                        job.read_on(earlier, more, aborted)
                    }
                },
                DeviceReply::Failed(failure) => Progress::Failed(failure.into_error("")),
            },
            Phase::Wiping { pre_hash, issued, rest } => match reply {
                DeviceReply::Data(_) => job.wipe_on(pre_hash, rest, aborted),
                DeviceReply::Failed(failure) => {
                    if issued.optional() {
                        job.wipe_on(pre_hash, rest, aborted)
                    } else {
                        Progress::Failed(failure.into_error(issued.failure_prefix()))
                    }
                },
            },
            Phase::CheckOpening { pre_hash, post_hash } => match reply {
                DeviceReply::Data(_) => match last_pass_byte(job.algorithm) {
                    Some(expected) => {
                        let blocks = sample_blocks(job.target.size_bytes);
                        proof {
                            law_sample_spans_the_device(job.target.size_bytes);
                            assert(blocks@.skip(0) =~= blocks@);
                        }
                        job.check_on(pre_hash, post_hash, expected, blocks, 0)
                    },
                    None => job.act(
                        DeviceAction::ReadNext,
                        Phase::CheckingRandom { pre_hash, post_hash },
                    ),
                },
                DeviceReply::Failed(_) => job.finish(
                    pre_hash,
                    post_hash,
                    VerificationStatus::Failed,
                ),
            },
            Phase::CheckingBlocks { pre_hash, post_hash, expected, blocks, at } => match reply {
                DeviceReply::Data(bytes) => {
                    if bytes.len() == 0 || !holds_only(bytes, expected) {
                        job.finish(pre_hash, post_hash, verdict_of(bytes.len() == 0))
                    } else {
                        let count: usize = blocks.len();
                        proof {
                            assert(at < count);
                            assert(blocks@.skip(at as int).drop_first() =~= blocks@.skip(at + 1));
                        }
                        job.check_on(pre_hash, post_hash, expected, blocks, at + 1)
                    }
                },
                DeviceReply::Failed(_) => job.finish(
                    pre_hash,
                    post_hash,
                    VerificationStatus::Failed,
                ),
            },
            Phase::CheckingRandom { pre_hash, post_hash } => match reply {
                DeviceReply::Data(bytes) => {
                    let passed = verify_random_last_pass(bytes);
                    job.finish(pre_hash, post_hash, verdict_of(passed))
                },
                DeviceReply::Failed(_) => job.finish(
                    pre_hash,
                    post_hash,
                    VerificationStatus::Failed,
                ),
            },
        }
    }

    /// Takes the reply to the action that was issued last, and says what comes
    /// next; a certificate carries the time at which it is given out.
    pub fn run(self, aborted: bool, reply: DeviceReply) -> (r: RunStep)
        requires
            self@.has_room(reply@),
        ensures
            r@ == self@.next(aborted, reply@, r@.end_time()),
            r@ matches StepView::Finished(Ok(_)) ==> is_utc_time(r@.end_time()),
    {
        let ghost before = self@;
        let ghost reply_view = reply@;
        let progress = self.advance(aborted, reply);
        match progress {
            Progress::Act { action, engine } => {
                proof {
                    assert(progress.at_time(Seq::empty()) == before.next(
                        aborted,
                        reply_view,
                        Seq::empty(),
                    ));
                }
                RunStep::Act { action, engine }
            },
            Progress::Failed(e) => {
                proof {
                    assert(progress.at_time(Seq::empty()) == before.next(
                        aborted,
                        reply_view,
                        Seq::empty(),
                    ));
                }
                RunStep::Finished(Err(e))
            },
            Progress::Complete(completion) => {
                let now = utc_now();
                let ghost end = now@;
                let certificate = completion.certificate(now);
                proof {
                    assert(progress.at_time(end) == before.next(aborted, reply_view, end));
                    assert(certificate@.timestamp_end == end);
                }
                RunStep::Finished(Ok(certificate))
            },
        }
    }
}

} // verus!
