//! A raw file descriptor and the reading of the values that C library calls
//! on it return (a negative value signals failure, with the cause in `errno`).
use vstd::prelude::*;

verus! {

#[verifier::external_type_specification]
#[verifier::external_body]
pub struct ExIoError(std::io::Error);

/// The error that the last failed OS call left in `errno`.
///
/// Trusted: calls `std::io::Error::last_os_error`. What it holds depends on
/// the state of the thread, so nothing is said of it.
#[verifier::external_body]
fn last_os_error() -> std::io::Error {
    std::io::Error::last_os_error()
}

/// A signed integer that a C library call returns.
pub trait SyscallReturn: Copy {
    /// The returned value as an integer.
    spec fn spec_value(self) -> int;

    /// Whether the value is below zero.
    fn is_negative(self) -> (r: bool)
        ensures
            r == (self.spec_value() < 0),
    ;
}

impl SyscallReturn for i32 {
    open spec fn spec_value(self) -> int {
        self as int
    }

    fn is_negative(self) -> (r: bool) {
        self < 0
    }
}

impl SyscallReturn for i8 {
    open spec fn spec_value(self) -> int {
        self as int
    }

    fn is_negative(self) -> (r: bool) {
        self < 0
    }
}

impl SyscallReturn for i16 {
    open spec fn spec_value(self) -> int {
        self as int
    }

    fn is_negative(self) -> (r: bool) {
        self < 0
    }
}

impl SyscallReturn for i128 {
    open spec fn spec_value(self) -> int {
        self as int
    }

    fn is_negative(self) -> (r: bool) {
        self < 0
    }
}

impl SyscallReturn for isize {
    open spec fn spec_value(self) -> int {
        self as int
    }

    fn is_negative(self) -> (r: bool) {
        self < 0
    }
}

impl SyscallReturn for i64 {
    open spec fn spec_value(self) -> int {
        self as int
    }

    fn is_negative(self) -> (r: bool) {
        self < 0
    }
}

/// The value a C library call returned, or, when it is negative, the error
/// that the call left in `errno`.
pub fn libc_check_error<T: SyscallReturn>(val: T) -> (r: Result<T, std::io::Error>)
    ensures
        r is Err <==> val.spec_value() < 0,
        r matches Ok(v) ==> v == val,
{
    if val.is_negative() {
        Err(last_os_error())
    } else {
        Ok(val)
    }
}

/// The byte count that a `read` or `write` call returned, or the error it
/// left in `errno` when it returned a negative value.
pub fn checked_len(ret: isize) -> (r: Result<usize, std::io::Error>)
    ensures
        r is Err <==> ret < 0,
        r matches Ok(n) ==> n == ret,
{
    match libc_check_error(ret) {
        Ok(v) => Ok(v as usize),
        Err(e) => Err(e),
    }
}

/// A raw file descriptor, closed only when asked to.
#[derive(Debug)]
pub struct SmolFd {
    pub raw: i32,
}

impl SmolFd {
    /// Wraps the descriptor `fd`.
    pub fn new(fd: i32) -> (r: SmolFd)
        ensures
            r.raw == fd,
    {
        SmolFd { raw: fd }
    }

    /// The wrapped descriptor.
    pub fn as_raw_fd(&self) -> (r: i32)
        ensures
            r == self.raw,
    {
        self.raw
    }
}

} // verus!
