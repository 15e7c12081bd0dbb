//! Errors of the 9P layer.
//!
//! 9P2000.L reports failures as Linux errno numbers. An error of this
//! library is either such a number or an I/O failure that is turned into one
//! when the reply is built.

use vstd::prelude::*;

verus! {

/// Operation not permitted
pub const EPERM: u32 = 1;

/// No such file or directory
pub const ENOENT: u32 = 2;

/// Interrupted system call
pub const EINTR: u32 = 4;

/// Input/output error
pub const EIO: u32 = 5;

/// Bad file descriptor
pub const EBADF: u32 = 9;

/// Resource temporarily unavailable
pub const EAGAIN: u32 = 11;

/// Invalid argument
pub const EINVAL: u32 = 22;

/// Broken pipe
pub const EPIPE: u32 = 32;

/// Operation not supported
pub const EOPNOTSUPP: u32 = 95;

/// Address already in use
pub const EADDRINUSE: u32 = 98;

/// Cannot assign requested address
pub const EADDRNOTAVAIL: u32 = 99;

/// Software caused connection abort
pub const ECONNABORTED: u32 = 103;

/// Connection reset by peer
pub const ECONNRESET: u32 = 104;

/// Transport endpoint is not connected
pub const ENOTCONN: u32 = 107;

/// Connection timed out
pub const ETIMEDOUT: u32 = 110;

/// Connection refused
pub const ECONNREFUSED: u32 = 111;

/// Operation already in progress
pub const EALREADY: u32 = 114;

/// The kinds of I/O failure that have an errno of their own when the
/// operating system gave none.
#[derive(Clone, Copy, Debug, PartialEq, Eq, Structural)]
pub enum IoErrorKind {
    NotFound,
    PermissionDenied,
    ConnectionRefused,
    ConnectionReset,
    ConnectionAborted,
    NotConnected,
    AddrInUse,
    AddrNotAvailable,
    BrokenPipe,
    AlreadyExists,
    WouldBlock,
    InvalidInput,
    InvalidData,
    TimedOut,
    WriteZero,
    Interrupted,
    Other,
}

/// What the library reads of a failed I/O operation.
#[derive(Clone, Copy, Debug, PartialEq, Eq, Structural)]
pub struct IoError {
    /// The errno the operating system reported, if it reported one.
    pub raw_os_error: Option<i32>,
    pub kind: IoErrorKind,
}

/// A 9P error, convertible to the errno sent in `Rlerror`.
#[derive(Clone, Copy, Debug, PartialEq, Eq, Structural)]
pub enum Error {
    /// A system error, by its errno.
    No(u32),
    /// An I/O error.
    Io(IoError),
}

/// Why a byte sequence is not a 9P message.
#[derive(Clone, Copy, Debug, PartialEq, Eq, Structural)]
pub enum DecodeError {
    /// The input ended inside a field.
    UnexpectedEof,
    /// A string field does not hold UTF-8.
    InvalidUtf8,
    /// The type code names no 9P2000.L message.
    InvalidType,
    /// A frame is longer than the message it holds.
    FrameMismatch,
}

/// The errno for a kind of I/O failure.
pub open spec fn errno_of_kind(kind: IoErrorKind) -> u32 {
    match kind {
        IoErrorKind::NotFound => ENOENT,
        IoErrorKind::PermissionDenied => EPERM,
        IoErrorKind::ConnectionRefused => ECONNREFUSED,
        IoErrorKind::ConnectionReset => ECONNRESET,
        IoErrorKind::ConnectionAborted => ECONNABORTED,
        IoErrorKind::NotConnected => ENOTCONN,
        IoErrorKind::AddrInUse => EADDRINUSE,
        IoErrorKind::AddrNotAvailable => EADDRNOTAVAIL,
        IoErrorKind::BrokenPipe => EPIPE,
        IoErrorKind::AlreadyExists => EALREADY,
        IoErrorKind::WouldBlock => EAGAIN,
        IoErrorKind::InvalidInput => EINVAL,
        IoErrorKind::InvalidData => EINVAL,
        IoErrorKind::TimedOut => ETIMEDOUT,
        IoErrorKind::WriteZero => EAGAIN,
        IoErrorKind::Interrupted => EINTR,
        IoErrorKind::Other => EIO,
    }
}

/// Whether `raw` is one of the errno numbers that this library names.
pub open spec fn names_errno(raw: i32) -> bool {
    ||| raw == EPERM
    ||| raw == ENOENT
    ||| raw == EINTR
    ||| raw == EIO
    ||| raw == EBADF
    ||| raw == EAGAIN
    ||| raw == EINVAL
    ||| raw == EPIPE
    ||| raw == EOPNOTSUPP
    ||| raw == EADDRINUSE
    ||| raw == EADDRNOTAVAIL
    ||| raw == ECONNABORTED
    ||| raw == ECONNRESET
    ||| raw == ENOTCONN
    ||| raw == ETIMEDOUT
    ||| raw == ECONNREFUSED
    ||| raw == EALREADY
}

/// Whether `errno` may stand for the raw number `raw`. An errno that this
/// library names stands for itself. Any other number stands for itself if
/// the operating system knows it as an errno, and is zero if not.
pub open spec fn stands_for_raw(errno: u32, raw: i32) -> bool {
    if names_errno(raw) {
        errno == raw
    } else {
        errno == 0 || errno == raw
    }
}

/// What `errno` may be for the I/O failure `e`.
pub open spec fn stands_for_io_error(errno: u32, e: IoError) -> bool {
    match e.raw_os_error {
        Some(raw) => stands_for_raw(errno, raw),
        None => errno == errno_of_kind(e.kind),
    }
}

/// Calls `nix::errno::from_i32` and hands back the number of the variant it
/// chose. That function matches its argument against the errno constants
/// of Linux and picks the variant of that value, or `UnknownErrno`, which
/// is zero, when none matches. Every errno that this library names is among
/// those constants, under the number that Linux gives it.
#[verifier::external_body]
fn known_errno(raw: i32) -> (errno: u32)
    ensures
        stands_for_raw(errno, raw),
{
    nix::errno::from_i32(raw) as i32 as u32
}

/// The errno for a kind of I/O failure.
pub fn errno_from_kind(kind: IoErrorKind) -> (errno: u32)
    ensures
        errno == errno_of_kind(kind),
{
    match kind {
        IoErrorKind::NotFound => ENOENT,
        IoErrorKind::PermissionDenied => EPERM,
        IoErrorKind::ConnectionRefused => ECONNREFUSED,
        IoErrorKind::ConnectionReset => ECONNRESET,
        IoErrorKind::ConnectionAborted => ECONNABORTED,
        IoErrorKind::NotConnected => ENOTCONN,
        IoErrorKind::AddrInUse => EADDRINUSE,
        IoErrorKind::AddrNotAvailable => EADDRNOTAVAIL,
        IoErrorKind::BrokenPipe => EPIPE,
        IoErrorKind::AlreadyExists => EALREADY,
        IoErrorKind::WouldBlock => EAGAIN,
        IoErrorKind::InvalidInput => EINVAL,
        IoErrorKind::InvalidData => EINVAL,
        IoErrorKind::TimedOut => ETIMEDOUT,
        IoErrorKind::WriteZero => EAGAIN,
        IoErrorKind::Interrupted => EINTR,
        IoErrorKind::Other => EIO,
    }
}

/// The errno for an I/O failure: the one the operating system reported, as
/// far as it is a known errno, else the one of the failure's kind.
pub fn errno_from_io_error(e: &IoError) -> (errno: u32)
    ensures
        stands_for_io_error(errno, *e),
{
    match e.raw_os_error {
        Some(raw) => known_errno(raw),
        None => errno_from_kind(e.kind),
    }
}

impl Error {
    /// What `errno` may be for this error.
    pub open spec fn has_errno(self, errno: u32) -> bool {
        match self {
            Error::No(e) => errno == e,
            Error::Io(e) => stands_for_io_error(errno, e),
        }
    }

    /// The errno that `Rlerror` carries for this error.
    pub fn errno(&self) -> (errno: u32)
        ensures
            self.has_errno(errno),
    {
        match self {
            Error::No(e) => *e,
            Error::Io(e) => errno_from_io_error(e),
        }
    }
}

} // verus!
