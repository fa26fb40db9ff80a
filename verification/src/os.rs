//! What the library takes from `libc` and from the errors of `std::io`.

use vstd::prelude::*;

verus! {

/// How an operating system error is classified.
#[derive(Debug, PartialEq, Eq, Clone, Copy, Structural)]
pub enum ErrorKind {
    /// The thing that was asked for does not exist.
    NotFound,
    /// Anything else.
    Other,
}

/// An error reported by the operating system.
#[derive(Debug, PartialEq, Eq, Clone, Copy)]
pub struct OsError {
    /// The class of the error.
    pub kind: ErrorKind,
    /// The error number, where there is one.
    pub raw_os_error: Option<i32>,
}

/// Whether `code` is the error number of "message too long" on some Linux target.
pub open spec fn linux_emsgsize(code: i32) -> bool {
    code == 90 || code == 97 || code == 40
}

/// Reads `libc::EMSGSIZE`, the error number of "message too long".
///
/// Its value belongs to the target: among the Linux ones it is 97 on MIPS, 40 on SPARC
/// and 90 on all the others. Which of them the program was built for is not stated.
#[verifier::external_body]
fn emsgsize() -> (code: i32)
    ensures
        linux_emsgsize(code),
{
    libc::EMSGSIZE
}

/// Whether `code` is the error number of "file name too long" on some Linux target.
pub open spec fn linux_enametoolong(code: i32) -> bool {
    code == 36 || code == 78 || code == 63
}

/// Reads `libc::ENAMETOOLONG`, the error number of "file name too long".
///
/// Its value belongs to the target: among the Linux ones it is 78 on MIPS, 63 on SPARC
/// and 36 on all the others. Which of them the program was built for is not stated.
#[verifier::external_body]
fn enametoolong() -> (code: i32)
    ensures
        linux_enametoolong(code),
{
    libc::ENAMETOOLONG
}

/// Calls `std::io::Error::last_os_error` and copies out the kind and the error number.
///
/// An error made this way always has a number. Number 2, "no such file" on Linux and
/// macOS, is of the kind that opening a missing file gives. Which number the last failed
/// call of this thread left behind is not known here.
#[verifier::external_body]
fn last_os_error() -> (last: OsError)
    ensures
        last.raw_os_error is Some,
        last.raw_os_error == Some(2i32) ==> last.kind == ErrorKind::NotFound,
{
    let error = std::io::Error::last_os_error();
    let kind = match error.kind() {
        std::io::ErrorKind::NotFound => ErrorKind::NotFound,
        _ => ErrorKind::Other,
    };
    OsError { kind, raw_os_error: error.raw_os_error() }
}

/// Whether `error` is what was read as the thread's last error, kind and number.
pub closed spec fn read_as_last_error(error: OsError) -> bool {
    call_ensures(last_os_error, (), error)
}

/// Whether `code` was read as the error number of "message too long" on this target.
pub closed spec fn read_as_emsgsize(code: i32) -> bool {
    call_ensures(emsgsize, (), code)
}

/// Whether `code` was read as the error number of "file name too long" on this target.
pub closed spec fn read_as_enametoolong(code: i32) -> bool {
    call_ensures(enametoolong, (), code)
}

/// The thread's last error.
pub(crate) fn last_error() -> (error: OsError)
    ensures
        read_as_last_error(error),
{
    last_os_error()
}

/// The error number of "message too long".
pub(crate) fn message_too_long() -> (code: i32)
    ensures
        read_as_emsgsize(code),
{
    emsgsize()
}

/// The error number of "file name too long".
pub(crate) fn name_too_long() -> (code: i32)
    ensures
        read_as_enametoolong(code),
{
    enametoolong()
}

/// Only what the system gave counts as read from it.
proof fn readings_come_from_the_system(error: OsError, code: i32)
    ensures
        read_as_last_error(error) ==> call_ensures(last_os_error, (), error),
        read_as_emsgsize(code) ==> call_ensures(emsgsize, (), code),
        read_as_enametoolong(code) ==> call_ensures(enametoolong, (), code),
{
}

/// The thread's last error always has a number, and if that is the number of "no such
/// file", the error is of the kind that says so.
pub proof fn last_errors_are_numbered(error: OsError)
    requires
        read_as_last_error(error),
    ensures
        error.raw_os_error is Some,
        error.raw_os_error == Some(2i32) ==> error.kind == ErrorKind::NotFound,
{
}

/// The error number of "message too long" is that of some Linux target.
pub proof fn emsgsize_is_known(code: i32)
    requires
        read_as_emsgsize(code),
    ensures
        linux_emsgsize(code),
        code == 90 || code == 97 || code == 40,
{
}

/// The error number of "file name too long" is that of some Linux target.
pub proof fn enametoolong_is_known(code: i32)
    requires
        read_as_enametoolong(code),
    ensures
        linux_enametoolong(code),
        code == 36 || code == 78 || code == 63,
{
}

} // verus!
