//! The failure causes of the transport and of the link operations.

use vstd::prelude::*;
use crate::consts::{EINVAL, ENOTRECOVERABLE};

verus! {

/// Why a transaction on the transport failed.
#[derive(Clone, Copy, Debug, PartialEq, Eq, Structural)]
pub enum NlError {
    /// The kernel answered with an error reply; `code` is the number as it
    /// stood in the reply, which is negative for a rejection.
    Nlmsgerr { code: i32 },
    /// A reply carried another sequence number than the request.  The
    /// transport can no longer pair replies with requests.
    BadSeq,
    /// The reply that the request was owed never came, or was of another
    /// shape than an acknowledgment.
    NoAck,
    /// A reply or one of its attributes could not be read as the expected
    /// shape.
    De,
    /// The request could not be put into its wire form.
    Ser,
    /// The sequence counter is held by another transaction.
    LockBusy,
    /// A holder of the sequence counter died; the transport is unusable.
    LockPoisoned,
    /// The socket or a descriptor operation failed with this error number.
    Io { errno: i32 },
}

/// The error that the link operations hand to their callers: one value
/// for each cause of failure, with the data that explains it.
#[derive(Clone, Copy, Debug, PartialEq, Eq, Structural)]
pub enum IoError {
    /// The kernel rejected the request; `errno` is the error number that
    /// the rejection stands for.
    KernelRejected { errno: i32 },
    /// A reply carried another sequence number than the request; the
    /// transport is to be discarded.
    SequenceMismatch,
    /// The reply that the request was owed did not come.
    MissingAck,
    /// A reply or one of its attributes could not be read.
    Decode,
    /// The request could not be put into its wire form.
    Serialize,
    /// The sequence counter is held by another transaction.
    LockBusy,
    /// A holder of the sequence counter died; the transport is unusable.
    LockPoisoned,
    /// A socket or descriptor operation failed with this error number of
    /// the operating system.
    Resource { errno: i32 },
}

/// Why a request on the scalar control path failed.
#[derive(Clone, Copy, Debug, PartialEq, Eq, Structural)]
pub enum ScalarError {
    /// An argument that no request can carry.
    InvalidInput,
    /// The interface did not take the state that it was given.
    NotApplied,
    /// The operating system failed the request with this error number.
    Os { errno: i32 },
    /// The operating system failed the request and gave no number.
    Unknown,
}

/// The error number that a kernel reply code stands for: its negation.
/// The one code without a negation in 32 bits stays as it is.
pub open spec fn negated(code: i32) -> i32 {
    if code == i32::MIN {
        code
    } else {
        (-code) as i32
    }
}

/// What a transport failure becomes for the caller of a link operation:
/// each cause keeps a value of its own, and the causes that carry a
/// number keep it.
pub open spec fn nl_error_to_io_spec(error: NlError) -> IoError {
    match error {
        NlError::Nlmsgerr { code } => IoError::KernelRejected { errno: negated(code) },
        NlError::BadSeq => IoError::SequenceMismatch,
        NlError::NoAck => IoError::MissingAck,
        NlError::De => IoError::Decode,
        NlError::Ser => IoError::Serialize,
        NlError::LockBusy => IoError::LockBusy,
        NlError::LockPoisoned => IoError::LockPoisoned,
        NlError::Io { errno } => IoError::Resource { errno },
    }
}

/// Two different causes of failure never become the same value for the
/// caller, and a kernel rejection keeps the number that the kernel gave.
pub proof fn lemma_causes_stay_apart(a: NlError, b: NlError)
    ensures
        nl_error_to_io_spec(a) == nl_error_to_io_spec(b) ==> a == b,
        nl_error_to_io_spec(a) is KernelRejected <==> a is Nlmsgerr,
        nl_error_to_io_spec(a) is Resource <==> a is Io,
{
}

/// The error number under which the operating system knows a failure of
/// the scalar control path, if it knows it under one.
pub open spec fn scalar_errno(error: ScalarError) -> Option<i32> {
    match error {
        ScalarError::InvalidInput => Some(EINVAL),
        ScalarError::NotApplied => Some(ENOTRECOVERABLE),
        ScalarError::Os { errno } => Some(errno),
        ScalarError::Unknown => None,
    }
}

/// Negates a kernel reply code without overflow.
pub fn negate_code(code: i32) -> (errno: i32)
    ensures
        errno == negated(code),
{
    if code == i32::MIN {
        code
    } else {
        -code
    }
}

/// Translates a transport failure for the caller of a link operation.  A
/// kernel rejection keeps its error number, negated into the positive
/// range; a socket failure keeps its number; every other cause becomes
/// the value that stands for that cause alone.
pub fn nl_error_to_io(error: NlError) -> (e: IoError)
    ensures
        e == nl_error_to_io_spec(error),
{
    match error {
        NlError::Nlmsgerr { code } => IoError::KernelRejected { errno: negate_code(code) },
        NlError::BadSeq => IoError::SequenceMismatch,
        NlError::NoAck => IoError::MissingAck,
        NlError::De => IoError::Decode,
        NlError::Ser => IoError::Serialize,
        NlError::LockBusy => IoError::LockBusy,
        NlError::LockPoisoned => IoError::LockPoisoned,
        NlError::Io { errno } => IoError::Resource { errno },
    }
}

impl ScalarError {
    /// The error number under which the operating system knows this
    /// failure.
    pub fn raw_os_error(self) -> (errno: Option<i32>)
        ensures
            errno == scalar_errno(self),
    {
        match self {
            ScalarError::InvalidInput => Some(EINVAL),
            ScalarError::NotApplied => Some(ENOTRECOVERABLE),
            ScalarError::Os { errno } => Some(errno),
            ScalarError::Unknown => None,
        }
    }
}

impl NlError {
    /// True for a rejection by the kernel, as opposed to a failure of the
    /// transport itself.
    pub open spec fn is_kernel_rejected(self) -> bool {
        self is Nlmsgerr
    }
}

} // verus!
