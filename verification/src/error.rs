//! Error taxonomy of the library and the status codes handed back to the
//! external runtime.

use vstd::prelude::*;

verus! {

/// Status code delivered to the external runtime when a request completes or
/// an operation returns.
#[derive(Clone, Copy, Debug, PartialEq, Eq, Structural)]
pub enum Status {
    Success,
    InvalidParameter,
    InsufficientResources,
    BufferOverflow,
    EndOfFile,
}

/// The failures this library reports.
///
/// `AllocationFailure` is an exhausted pool; `BufferOverflow` a growth request
/// beyond the addressable element count of a non-empty buffer;
/// `InvalidParameter` an unsupported operation code or a device-kind mismatch;
/// `EndOfFile` a positioned operation beyond the supported offset;
/// `UserAccessFailure` a failed bounds check against the caller-supplied
/// buffer.
#[derive(Clone, Copy, Debug, PartialEq, Eq, Structural)]
pub enum ErrorKind {
    AllocationFailure,
    BufferOverflow,
    InvalidParameter,
    EndOfFile,
    UserAccessFailure,
}

impl ErrorKind {
    /// The status code an error is reported as.
    pub open spec fn status_spec(self) -> Status {
        match self {
            ErrorKind::AllocationFailure => Status::InsufficientResources,
            ErrorKind::BufferOverflow => Status::BufferOverflow,
            ErrorKind::InvalidParameter => Status::InvalidParameter,
            ErrorKind::EndOfFile => Status::EndOfFile,
            ErrorKind::UserAccessFailure => Status::InvalidParameter,
        }
    }

    /// Maps the error to the status code delivered to the external runtime.
    pub fn to_status(self) -> (s: Status)
        ensures
            s == self.status_spec(),
    {
        match self {
            ErrorKind::AllocationFailure => Status::InsufficientResources,
            ErrorKind::BufferOverflow => Status::BufferOverflow,
            ErrorKind::InvalidParameter => Status::InvalidParameter,
            ErrorKind::EndOfFile => Status::EndOfFile,
            ErrorKind::UserAccessFailure => Status::InvalidParameter,
        }
    }
}

} // verus!
