//! The error kinds shared by every table of the kernel.

use vstd::prelude::*;

verus! {

/// Why a kernel operation did not succeed.
#[derive(Debug, Clone, Copy, PartialEq, Eq, Structural)]
pub enum KernelError {
    /// A file, descriptor, pipe or process that the call names does not exist.
    NotFound,
    /// The arguments cannot be honoured: unknown flag bits, a request of size zero.
    InvalidArgument,
    /// An allocator or a counter has run out.
    ResourceExhausted,
    /// The end of the pipe that the call uses has been closed.
    ClosedEndpoint,
    /// A pipe was written to that no reader holds any more.
    BrokenPipe,
    /// Nothing can be done right now; the caller is expected to poll.
    WouldBlock,
    /// The descriptor is of a kind on which the operation makes no sense.
    Unsupported,
}

impl KernelError {
    /// A short human-readable description of the error kind.
    pub open spec fn spec_message(self) -> Seq<char> {
        match self {
            KernelError::NotFound => "not found"@,
            KernelError::InvalidArgument => "invalid argument"@,
            KernelError::ResourceExhausted => "resource exhausted"@,
            KernelError::ClosedEndpoint => "endpoint closed"@,
            KernelError::BrokenPipe => "broken pipe"@,
            KernelError::WouldBlock => "would block"@,
            KernelError::Unsupported => "unsupported operation"@,
        }
    }

    /// A short human-readable description of the error kind.
    pub fn message(&self) -> (text: &'static str)
        ensures
            text@ == self.spec_message(),
    {
        match self {
            KernelError::NotFound => "not found",
            KernelError::InvalidArgument => "invalid argument",
            KernelError::ResourceExhausted => "resource exhausted",
            KernelError::ClosedEndpoint => "endpoint closed",
            KernelError::BrokenPipe => "broken pipe",
            KernelError::WouldBlock => "would block",
            KernelError::Unsupported => "unsupported operation",
        }
    }
}

} // verus!
