//! One invocation of the program: from the operator's wish to the exit code.

use vstd::prelude::*;

use crate::cli::{
    device_table_text, is_consent, print_device_table, run_consent_handshake, ListedDisk,
};
use crate::engine::{is_certificate_id, EngineView, JobView, PhaseView, SanitizerEngine};
use crate::error::{ErrorView, TitanError, TitanResult};
use crate::guardrails::GuardrailReport;
use crate::layout::can_clip;
use crate::outside::is_utc_time;
use crate::runs::certifies;
use crate::text::concat3;
use crate::types::{
    CertificateView, DiskTarget, DiskView, SanitizationStatus, WipeAlgorithm,
};

verus! {

// ---------------------------------------------------------------------------
// Starting a wipe
// ---------------------------------------------------------------------------

/// How a device is to be wiped.
#[derive(Debug, Clone, Copy)]
pub struct WipeOptions {
    /// The algorithm; the recommended one where there is none.
    pub algorithm: Option<WipeAlgorithm>,
    /// Leave out the verification.
    pub skip_verify: bool,
    /// Go through the run without writing anything.
    pub dry_run: bool,
    /// Leave out the consent handshake.
    pub force: bool,
}

impl WipeOptions {
    /// The algorithm that a disk is wiped with.
    pub open spec fn algorithm_for(self, disk: DiskView) -> WipeAlgorithm {
        match self.algorithm {
            Some(algorithm) => algorithm,
            None => disk.recommended(),
        }
    }

    /// Whether the operator has to consent.
    pub open spec fn asks_for_consent(self) -> bool {
        !self.force && !self.dry_run
    }

    /// Why a wipe may not start, if it may not. Consent comes first, then the
    /// guardrails, which no option switches off.
    pub open spec fn refusal(
        self,
        disk: DiskView,
        answer: Option<Seq<char>>,
        report: GuardrailReport,
    ) -> Option<ErrorView> {
        if self.asks_for_consent() && !is_consent(disk, answer) {
            Some(ErrorView::UserAborted)
        } else {
            report.objection(disk.path)
        }
    }

    /// The algorithm that a disk is wiped with.
    pub fn select_algorithm(&self, target: &DiskTarget) -> (r: WipeAlgorithm)
        ensures
            r == self.algorithm_for(target@),
    {
        match self.algorithm {
            Some(algorithm) => algorithm,
            None => target.recommended_algorithm(),
        }
    }

    /// Whether the operator has to consent.
    pub fn needs_consent(&self) -> (r: bool)
        ensures
            r == self.asks_for_consent(),
    {
        !self.force && !self.dry_run
    }
}

/// The line that the operator typed, where one could be read.
pub open spec fn answer_view(answer: Option<&str>) -> Option<Seq<char>> {
    match answer {
        Some(line) => Some(line@),
        None => None,
    }
}

/// The run that wipes a target, where the operator has consented and the
/// guardrails clear the target. `answer` is the line that the operator typed,
/// where one was asked for and could be read.
pub fn begin_wipe(
    target: DiskTarget,
    options: WipeOptions,
    answer: Option<&str>,
    report: &GuardrailReport,
) -> (r: TitanResult<SanitizerEngine>)
    requires
        options.asks_for_consent() ==> can_clip(target@.serial_number, 8),
    ensures
        r is Ok <==> options.refusal(target@, answer_view(answer), *report) is None,
        match r {
            Ok(engine) => {
                &&& is_certificate_id(engine@.job.certificate_id)
                &&& is_utc_time(engine@.job.timestamp_start)
                &&& engine@ == (EngineView {
                    job: JobView {
                        target: target@,
                        algorithm: options.algorithm_for(target@),
                        skip_verify: options.skip_verify,
                        dry_run: options.dry_run,
                        certificate_id: engine@.job.certificate_id,
                        timestamp_start: engine@.job.timestamp_start,
                    },
                    phase: PhaseView::Created,
                })
            },
            Err(e) => options.refusal(target@, answer_view(answer), *report) == Some(e@),
        },
{
    if options.needs_consent() && !run_consent_handshake(&target, answer) {
        return Err(TitanError::UserAborted);
    }
    let algorithm = options.select_algorithm(&target);
    SanitizerEngine::new(target, algorithm, options.skip_verify, options.dry_run, report)
}

/// No wipe starts on a target that the guardrails do not clear, whatever the
/// options and whatever the operator types.
pub proof fn law_guardrails_cannot_be_bypassed(
    options: WipeOptions,
    disk: DiskView,
    answer: Option<Seq<char>>,
    report: GuardrailReport,
)
    requires
        !report.clears(disk.path),
    ensures
        options.refusal(disk, answer, report) is Some,
{
}

/// Unless consent is waived by the force option, no wipe that writes starts
/// without the device's phrase: any other input, or none, is answered by an
/// abort, and the guardrails are not even asked.
pub proof fn law_writing_takes_consent(
    options: WipeOptions,
    disk: DiskView,
    answer: Option<Seq<char>>,
    report: GuardrailReport,
)
    requires
        !options.force,
        !options.dry_run,
        !is_consent(disk, answer),
    ensures
        options.refusal(disk, answer, report) == Some(ErrorView::UserAborted),
{
}

/// The line that names the selected algorithm.
pub fn selected_algorithm_line(algorithm: WipeAlgorithm) -> (r: String)
    ensures
        r@ == "  Selected Algorithm: "@ + algorithm.text() + "\n\n"@,
{
    concat3("  Selected Algorithm: ", algorithm.display().as_str(), "\n\n")
}

// ---------------------------------------------------------------------------
// Listing
// ---------------------------------------------------------------------------

/// What the list command prints.
pub fn list_report(devices: &Vec<ListedDisk>) -> (r: String)
    requires
        forall|i: int| 0 <= i < devices@.len() ==> (#[trigger] devices@[i]).fits(),
    ensures
        r@ == if devices@.len() == 0 {
            "No physical block devices found.\n"@
        } else {
            device_table_text(devices@)
        },
{
    if devices.len() == 0 {
        "No physical block devices found.\n".to_owned()
    } else {
        print_device_table(devices)
    }
}

// ---------------------------------------------------------------------------
// Exit code
// ---------------------------------------------------------------------------

/// How an invocation ended.
#[derive(Debug, Clone, Copy, PartialEq, Eq, Structural)]
pub enum Ending {
    /// The caller is not root.
    Unprivileged,
    /// An error was reported.
    Failed,
    /// A list or a description was printed.
    Reported,
    /// A certificate was given out, with this status.
    Certified(SanitizationStatus),
}

impl Ending {
    /// The exit code.
    pub open spec fn code(self) -> i32 {
        match self {
            Ending::Unprivileged => 1,
            Ending::Failed => 2,
            Ending::Reported => 0,
            Ending::Certified(status) => if status is Success {
                0
            } else {
                3
            },
        }
    }

    /// The exit code.
    pub fn exit_code(self) -> (r: i32)
        ensures
            r == self.code(),
    {
        match self {
            Ending::Unprivileged => 1,
            Ending::Failed => 2,
            Ending::Reported => 0,
            Ending::Certified(SanitizationStatus::Success) => 0,
            Ending::Certified(_) => 3,
        }
    }
}

/// A run that was certified ends with exit code 3 exactly where verification
/// failed, and with 0 otherwise.
pub proof fn law_exit_code_tells_verification(certificate: CertificateView, job: JobView)
    requires
        certifies(certificate, job),
    ensures
        Ending::Certified(certificate.status).code() == (
        if certificate.verification_status is Failed {
            3i32
        } else {
            0i32
        }),
{
}

/// The algorithm that the operator names is the one that is used; where none is
/// named it is the recommended one.
pub proof fn law_named_algorithm_is_used(
    options: WipeOptions,
    disk: DiskView,
    algorithm: WipeAlgorithm,
)
    ensures
        options.algorithm == Some(algorithm) ==> options.algorithm_for(disk) == algorithm,
        options.algorithm is None ==> options.algorithm_for(disk) == disk.recommended(),
{
}

/// Where the operator has typed the phrase, or need not, the guardrails alone
/// decide.
pub proof fn law_guardrails_decide_after_consent(
    options: WipeOptions,
    disk: DiskView,
    answer: Option<Seq<char>>,
    report: GuardrailReport,
)
    requires
        options.force || options.dry_run || is_consent(disk, answer),
    ensures
        options.refusal(disk, answer, report) is None <==> report.clears(disk.path),
        options.refusal(disk, answer, report) == report.objection(disk.path),
{
}

} // verus!
