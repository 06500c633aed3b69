use vstd::prelude::*;

verus! {

/// Errors reported by the kernel.
#[derive(Debug, Clone, Copy, PartialEq, Eq, Structural)]
pub enum WhyError {
    OutOfMemory,
    MaxTasksReached,
    InvalidOperation,
    InvalidTaskId,
    InternalError,
    InvalidHandle,
}

/// Result of a kernel operation.
pub type WhyResult<T> = Result<T, WhyError>;

impl WhyError {
    /// Human-readable description of the error.
    pub fn as_str(&self) -> (r: &'static str)
        ensures
            *self == WhyError::OutOfMemory ==> r@ == "Out of memory"@,
            *self == WhyError::MaxTasksReached ==> r@ == "Maximum number of tasks reached"@,
            *self == WhyError::InvalidOperation ==> r@ == "Invalid operation"@,
            *self == WhyError::InvalidTaskId ==> r@ == "Invalid task ID"@,
            *self == WhyError::InternalError ==> r@ == "Internal error"@,
            *self == WhyError::InvalidHandle ==> r@ == "Invalid handle"@,
    {
        match self {
            WhyError::OutOfMemory => "Out of memory",
            WhyError::MaxTasksReached => "Maximum number of tasks reached",
            WhyError::InvalidOperation => "Invalid operation",
            WhyError::InvalidTaskId => "Invalid task ID",
            WhyError::InternalError => "Internal error",
            WhyError::InvalidHandle => "Invalid handle",
        }
    }

    /// The error's numeric code, as returned to tasks by system calls.
    pub fn code(&self) -> (r: u8)
        ensures
            r == error_code(*self),
    {
        match self {
            WhyError::OutOfMemory => 0,
            WhyError::MaxTasksReached => 1,
            WhyError::InvalidOperation => 2,
            WhyError::InvalidTaskId => 3,
            WhyError::InternalError => 4,
            WhyError::InvalidHandle => 5,
        }
    }
}

/// The numeric code of each error: its position in declaration order.
pub open spec fn error_code(e: WhyError) -> u8 {
    match e {
        WhyError::OutOfMemory => 0,
        WhyError::MaxTasksReached => 1,
        WhyError::InvalidOperation => 2,
        WhyError::InvalidTaskId => 3,
        WhyError::InternalError => 4,
        WhyError::InvalidHandle => 5,
    }
}

} // verus!
