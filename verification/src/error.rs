//! What can go wrong, and how it is worded.

use vstd::prelude::*;
use vstd::string::StringExecFns;

use crate::numerals::{signed_decimal, signed_decimal_text};
use crate::text::{concat2, concat3};

verus! {

/// Every way in which an operation can fail.
#[derive(Debug)]
pub enum TitanError {
    /// The operating system refused a read, a write or an open.
    Io(String),
    /// The target holds the running system.
    BootDriveProtection(String),
    /// The target has mounted partitions: the target, then the mounts.
    DeviceMounted(String, String),
    /// The target is no block device.
    NotABlockDevice(String),
    /// The target is not there or cannot be reached.
    DeviceNotFound(String),
    /// The caller is not root.
    InsufficientPrivileges,
    /// A device command was refused by the kernel.
    IoctlFailed { code: i32, message: String },
    /// The device could not be described.
    InspectionFailed(String),
    /// The operator stopped the run, or withheld consent.
    UserAborted,
    /// The device holds unexpected data after the wipe.
    VerificationFailed(String),
    /// A certificate could not be written as JSON.
    Serialization(String),
}

/// The result of an operation that can fail.
pub type TitanResult<T> = Result<T, TitanError>;

/// A `TitanError` with its texts as sequences of characters.
#[verifier::ext_equal]
pub enum ErrorView {
    Io(Seq<char>),
    BootDriveProtection(Seq<char>),
    DeviceMounted(Seq<char>, Seq<char>),
    NotABlockDevice(Seq<char>),
    DeviceNotFound(Seq<char>),
    InsufficientPrivileges,
    IoctlFailed { code: i32, message: Seq<char> },
    InspectionFailed(Seq<char>),
    UserAborted,
    VerificationFailed(Seq<char>),
    Serialization(Seq<char>),
}

impl View for TitanError {
    type V = ErrorView;

    open spec fn view(&self) -> ErrorView {
        match *self {
            TitanError::Io(m) => ErrorView::Io(m@),
            TitanError::BootDriveProtection(p) => ErrorView::BootDriveProtection(p@),
            TitanError::DeviceMounted(p, m) => ErrorView::DeviceMounted(p@, m@),
            TitanError::NotABlockDevice(p) => ErrorView::NotABlockDevice(p@),
            TitanError::DeviceNotFound(p) => ErrorView::DeviceNotFound(p@),
            TitanError::InsufficientPrivileges => ErrorView::InsufficientPrivileges,
            TitanError::IoctlFailed { code, message } => ErrorView::IoctlFailed {
                code,
                message: message@,
            },
            TitanError::InspectionFailed(m) => ErrorView::InspectionFailed(m@),
            TitanError::UserAborted => ErrorView::UserAborted,
            TitanError::VerificationFailed(h) => ErrorView::VerificationFailed(h@),
            TitanError::Serialization(m) => ErrorView::Serialization(m@),
        }
    }
}

impl ErrorView {
    /// The sentence shown to the operator.
    pub open spec fn text(self) -> Seq<char> {
        match self {
            ErrorView::Io(m) => "I/O error: "@ + m,
            ErrorView::BootDriveProtection(p) => "FATAL GUARDRAIL: Target '"@ + p
                + "' is the active boot/OS drive. Operation aborted."@,
            ErrorView::DeviceMounted(p, m) => "FATAL GUARDRAIL: Target '"@ + p
                + "' has active mounted partitions: "@ + m + ". Unmount before proceeding."@,
            ErrorView::NotABlockDevice(p) => "Target '"@ + p + "' is not a block device."@,
            ErrorView::DeviceNotFound(p) => "Target device '"@ + p
                + "' not found or inaccessible."@,
            ErrorView::InsufficientPrivileges =>
                "Insufficient privileges. This utility requires root/administrator access."@,
            ErrorView::IoctlFailed { code, message } => "Kernel IOCTL error (code "@
                + signed_decimal(code as int) + "): "@ + message,
            ErrorView::InspectionFailed(m) => "Device inspection failed: "@ + m,
            ErrorView::UserAborted => "Sanitization aborted by user."@,
            ErrorView::VerificationFailed(h) =>
                "Verification failed: post-wipe read returned unexpected data. Hash: "@ + h,
            ErrorView::Serialization(m) => "Serialization error: "@ + m,
        }
    }
}

impl TitanError {
    /// The sentence shown to the operator.
    pub fn message(&self) -> (r: String)
        ensures
            r@ == self@.text(),
    {
        match self {
            TitanError::Io(m) => concat2("I/O error: ", m.as_str()),
            TitanError::BootDriveProtection(p) => concat3(
                "FATAL GUARDRAIL: Target '",
                p.as_str(),
                "' is the active boot/OS drive. Operation aborted.",
            ),
            TitanError::DeviceMounted(p, m) => {
                let mut out = concat3(
                    "FATAL GUARDRAIL: Target '",
                    p.as_str(),
                    "' has active mounted partitions: ",
                );
                out.append(m.as_str());
                out.append(". Unmount before proceeding.");
                out
            },
            TitanError::NotABlockDevice(p) => concat3(
                "Target '",
                p.as_str(),
                "' is not a block device.",
            ),
            TitanError::DeviceNotFound(p) => concat3(
                "Target device '",
                p.as_str(),
                "' not found or inaccessible.",
            ),
            TitanError::InsufficientPrivileges =>
                "Insufficient privileges. This utility requires root/administrator access.".to_owned(),
            TitanError::IoctlFailed { code, message } => {
                let number = signed_decimal_text(*code);
                let mut out = concat3("Kernel IOCTL error (code ", number.as_str(), "): ");
                out.append(message.as_str());
                out
            },
            TitanError::InspectionFailed(m) => concat2("Device inspection failed: ", m.as_str()),
            TitanError::UserAborted => "Sanitization aborted by user.".to_owned(),
            TitanError::VerificationFailed(h) => concat2(
                "Verification failed: post-wipe read returned unexpected data. Hash: ",
                h.as_str(),
            ),
            TitanError::Serialization(m) => concat2("Serialization error: ", m.as_str()),
        }
    }
}

} // verus!
