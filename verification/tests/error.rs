use p9cpu::error::{
    errno_from_io_error, errno_from_kind, Error, IoError, IoErrorKind, EADDRINUSE,
    EADDRNOTAVAIL, EAGAIN, EALREADY, EBADF, ECONNABORTED, ECONNREFUSED, ECONNRESET, EINTR,
    EINVAL, EIO, ENOENT, ENOTCONN, EOPNOTSUPP, EPERM, EPIPE, ETIMEDOUT,
};

#[test]
fn errno_numbers_are_those_of_linux() {
    assert_eq!(
        [EPERM, ENOENT, EINTR, EIO, EBADF, EAGAIN, EINVAL, EPIPE, EOPNOTSUPP],
        [1, 2, 4, 5, 9, 11, 22, 32, 95]
    );
    assert_eq!(
        [
            EADDRINUSE,
            EADDRNOTAVAIL,
            ECONNABORTED,
            ECONNRESET,
            ENOTCONN,
            ETIMEDOUT,
            ECONNREFUSED,
            EALREADY
        ],
        [98, 99, 103, 104, 107, 110, 111, 114]
    );
}

#[test]
fn errno_of_each_kind() {
    let table = [
        (IoErrorKind::NotFound, ENOENT),
        (IoErrorKind::PermissionDenied, EPERM),
        (IoErrorKind::ConnectionRefused, ECONNREFUSED),
        (IoErrorKind::ConnectionReset, ECONNRESET),
        (IoErrorKind::ConnectionAborted, ECONNABORTED),
        (IoErrorKind::NotConnected, ENOTCONN),
        (IoErrorKind::AddrInUse, EADDRINUSE),
        (IoErrorKind::AddrNotAvailable, EADDRNOTAVAIL),
        (IoErrorKind::BrokenPipe, EPIPE),
        (IoErrorKind::AlreadyExists, EALREADY),
        (IoErrorKind::WouldBlock, EAGAIN),
        (IoErrorKind::InvalidInput, EINVAL),
        (IoErrorKind::InvalidData, EINVAL),
        (IoErrorKind::TimedOut, ETIMEDOUT),
        (IoErrorKind::WriteZero, EAGAIN),
        (IoErrorKind::Interrupted, EINTR),
        (IoErrorKind::Other, EIO),
    ];
    for (kind, errno) in table {
        assert_eq!(errno_from_kind(kind), errno);
        assert_eq!(errno_from_io_error(&IoError { raw_os_error: None, kind }), errno);
        assert_eq!(Error::Io(IoError { raw_os_error: None, kind }).errno(), errno);
    }
}

#[test]
fn errno_of_the_operating_system_comes_first() {
    let e = IoError { raw_os_error: Some(2), kind: IoErrorKind::Other };
    assert_eq!(errno_from_io_error(&e), ENOENT);
    let e = IoError { raw_os_error: Some(13), kind: IoErrorKind::PermissionDenied };
    assert_eq!(Error::Io(e).errno(), 13);
}

#[test]
fn unknown_raw_errno_is_zero() {
    let e = IoError { raw_os_error: Some(99_999), kind: IoErrorKind::NotFound };
    assert_eq!(errno_from_io_error(&e), 0);
    let e = IoError { raw_os_error: Some(-5), kind: IoErrorKind::NotFound };
    assert_eq!(errno_from_io_error(&e), 0);
}

#[test]
fn errno_of_a_system_error() {
    assert_eq!(Error::No(EBADF).errno(), 9);
    assert_eq!(Error::No(77).errno(), 77);
}

#[test]
fn named_errnos_stand_for_themselves() {
    for raw in [1, 2, 4, 5, 9, 11, 22, 32, 95, 98, 99, 103, 104, 107, 110, 111, 114] {
        let e = IoError { raw_os_error: Some(raw), kind: IoErrorKind::Other };
        assert_eq!(errno_from_io_error(&e), raw as u32);
        assert_eq!(Error::Io(e).errno(), raw as u32);
    }
}
