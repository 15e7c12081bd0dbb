use p9cpu::rpc::RpcServer;
use p9cpu::server::{rpc_based, ChildExit, Error, Server, Session};

#[test]
fn dial_then_start_then_wait() {
    let mut s = Server::new();
    assert_eq!(s.dial(7), Ok(()));
    assert_eq!(s.session(7), Err(Error::NotStarted));
    assert_eq!(s.start(7, false, false), Ok(Session { tty: false, ninep: None }));
    assert_eq!(s.session(7), Ok(Session { tty: false, ninep: None }));
    assert_eq!(s.wait(7, ChildExit::Code(3)), Ok(3));
    assert_eq!(s.session(7), Err(Error::SessionNotExist));
}

#[test]
fn start_without_dial() {
    let mut s = Server::new();
    assert_eq!(s.start(1, false, false), Err(Error::SessionNotExist));
    assert_eq!(s.session(1), Err(Error::SessionNotExist));
    // Another session does not help.
    assert_eq!(s.dial(2), Ok(()));
    assert_eq!(s.start(1, false, false), Err(Error::SessionNotExist));
    assert_eq!(s.session(2), Err(Error::NotStarted));
}

#[test]
fn second_start() {
    let mut s = Server::new();
    s.dial(1).unwrap();
    s.start(1, false, true).unwrap();
    assert_eq!(s.start(1, false, true), Err(Error::AlreadyStarted));
    assert_eq!(s.start(1, true, false), Err(Error::AlreadyStarted));
    assert_eq!(s.session(1), Ok(Session { tty: true, ninep: None }));
}

#[test]
fn wait_returns_the_exit_code() {
    for code in [0, 1, 42, 255, -1, i32::MIN, i32::MAX] {
        let mut s = Server::new();
        s.dial(1).unwrap();
        s.dial(2).unwrap();
        s.start(1, false, false).unwrap();
        s.start(2, false, false).unwrap();
        assert_eq!(s.wait(1, ChildExit::Code(code)), Ok(code));
        assert_eq!(s.session(1), Err(Error::SessionNotExist));
        assert_eq!(s.wait(1, ChildExit::Code(code)), Err(Error::SessionNotExist));
        assert!(s.session(2).is_ok());
    }
}

#[test]
fn wait_without_a_code() {
    let mut s = Server::new();
    s.dial(1).unwrap();
    s.start(1, false, false).unwrap();
    assert_eq!(s.wait(1, ChildExit::NoCode), Err(Error::NoReturnCode));
    assert_eq!(s.session(1), Err(Error::SessionNotExist));

    s.dial(2).unwrap();
    s.start(2, false, false).unwrap();
    assert_eq!(s.wait(2, ChildExit::WaitFailed), Err(Error::CommandError));
    assert_eq!(s.session(2), Err(Error::SessionNotExist));
}

#[test]
fn wait_before_start() {
    let mut s = Server::new();
    s.dial(1).unwrap();
    assert_eq!(s.wait(1, ChildExit::Code(0)), Err(Error::NotStarted));
    assert_eq!(s.session(1), Err(Error::NotStarted));
    assert_eq!(s.wait(9, ChildExit::Code(0)), Err(Error::SessionNotExist));
}

#[test]
fn ids_are_taken_once() {
    let mut s = Server::new();
    assert_eq!(s.dial(1), Ok(()));
    assert_eq!(s.dial(1), Err(Error::DuplicateId));
    s.start(1, false, false).unwrap();
    assert_eq!(s.dial(1), Err(Error::DuplicateId));
    s.wait(1, ChildExit::Code(0)).unwrap();
    assert_eq!(s.dial(1), Ok(()));
}

#[test]
fn ninep_needs_a_port() {
    let mut s = Server::new();
    s.dial(1).unwrap();
    assert_eq!(s.start(1, true, false), Err(Error::No9pPort));
    // The session is gone.
    assert_eq!(s.session(1), Err(Error::SessionNotExist));
    assert_eq!(s.start(1, false, false), Err(Error::SessionNotExist));

    s.dial(2).unwrap();
    assert_eq!(s.ninep_forward(2, 4242), Ok(()));
    assert_eq!(s.start(2, true, false), Ok(Session { tty: false, ninep: Some(4242) }));
}

#[test]
fn ninep_forward_is_for_pending_sessions() {
    let mut s = Server::new();
    assert_eq!(s.ninep_forward(1, 1), Err(Error::SessionNotExist));
    s.dial(1).unwrap();
    s.start(1, false, false).unwrap();
    assert_eq!(s.ninep_forward(1, 1), Err(Error::AlreadyStarted));
    assert_eq!(s.session(1), Ok(Session { tty: false, ninep: None }));
}

#[test]
fn terminal_sessions_have_no_stderr() {
    let mut s = Server::new();
    s.dial(1).unwrap();
    s.dial(2).unwrap();
    assert_eq!(s.stderr(1), Err(Error::NotStarted));
    s.start(1, false, true).unwrap();
    s.start(2, false, false).unwrap();
    assert_eq!(s.stderr(1), Ok(false));
    assert_eq!(s.stderr(2), Ok(true));
    assert_eq!(s.stderr(3), Err(Error::SessionNotExist));
}

#[test]
fn abandoned_session_is_gone() {
    let mut s = Server::new();
    s.dial(1).unwrap();
    s.start(1, false, false).unwrap();
    s.abandon(1);
    assert_eq!(s.session(1), Err(Error::SessionNotExist));
    s.abandon(1);
    assert_eq!(s.dial(1), Ok(()));
}

#[test]
fn served_over_rpc() {
    assert_eq!(rpc_based(), RpcServer {});
}
