//! Values exchanged with the kernel: handles, and what a failed call reports.
//!
//! The library makes no system call itself. It says which call is due, and
//! takes the outcome of the call as a value.

use vstd::prelude::*;

verus! {

/// A handle that the kernel gave out for a map or a program.
pub type Handle = u32;

/// The system's error value, `std::io::Error`. The library carries it from
/// the failed call to the error it reports and never looks inside.
#[verifier::external_type_specification]
#[verifier::external_body]
pub struct ExIoError(std::io::Error);

/// What a failed system call reports: the code it returned and the system's
/// error.
#[derive(Debug)]
pub struct SysError {
    pub code: i64,
    pub io_error: std::io::Error,
}

} // verus!
