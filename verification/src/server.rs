//! The session manager of the daemon.
//!
//! A session is pending from `Dial` until `Start`, then running until
//! `Wait` has returned. The manager keeps what decides the answers: which
//! sessions there are, in which state, whether they run on a terminal and
//! whether a 9P port was set up. The child process, the endpoints of its
//! streams and the tasks that copy them are the caller's, under the same
//! session id.

use std::collections::HashMap;
use vstd::prelude::*;

verus! {

/// What can go wrong in the session manager.
#[derive(Clone, Copy, Debug, PartialEq, Eq, Structural)]
pub enum Error {
    /// Failed to spawn
    SpawnFail,
    /// Session does not exist
    SessionNotExist,
    /// IO Error
    IoErr,
    /// Duplicate session id
    DuplicateId,
    /// Command exited without return code.
    NoReturnCode,
    /// Command error
    CommandError,
    /// Cannot open pty device
    OpenPtyFail,
    /// Cannot clone file descriptor
    FdCloneFail,
    /// Cannot create directory
    MkDir,
    /// Invalid FsTab
    InvalidFsTab,
    /// Cannot bind listener
    BindFail,
    /// 9p forward not setup
    No9pPort,
    /// String contains null
    StringContainsNull,
    /// Channel closed
    ChannelClosed,
    /// Command already started
    AlreadyStarted,
    /// Command not started
    NotStarted,
}

/// A session that was dialed and not yet started.
#[derive(Clone, Copy, Debug, PartialEq, Eq, Structural)]
pub struct PendingSession {
    /// The port at which the child will find the client's files, once the
    /// 9P forward was set up.
    pub ninep: Option<u16>,
}

/// A session whose command runs.
#[derive(Clone, Copy, Debug, PartialEq, Eq, Structural)]
pub struct Session {
    /// Whether the command runs on a terminal. It has no stream for errors
    /// of its own then.
    pub tty: bool,
    /// The port at which the child finds the client's files.
    pub ninep: Option<u16>,
}

/// How the wait for a child ended.
#[derive(Clone, Copy, Debug, PartialEq, Eq, Structural)]
pub enum ChildExit {
    /// The child exited with this code.
    Code(i32),
    /// The child ended without an exit code.
    NoCode,
    /// Waiting failed.
    WaitFailed,
}

/// The sessions of a daemon.
pub struct Server {
    sessions: HashMap<u128, Session>,
    pending: HashMap<u128, PendingSession>,
}

/// The mathematical value of the session manager.
pub struct ServerView {
    pub pending: Map<u128, PendingSession>,
    pub sessions: Map<u128, Session>,
}

impl ServerView {
    /// No session is pending and running at once.
    pub open spec fn wf(self) -> bool {
        forall|sid: u128| !(self.pending.contains_key(sid) && self.sessions.contains_key(sid))
    }

    /// A manager without sessions.
    pub open spec fn empty() -> ServerView {
        ServerView { pending: Map::empty(), sessions: Map::empty() }
    }

    /// `Dial`: a new session, pending, unless the id is taken.
    pub open spec fn dial(self, sid: u128) -> (ServerView, Result<(), Error>) {
        if self.pending.contains_key(sid) || self.sessions.contains_key(sid) {
            (self, Err(Error::DuplicateId))
        } else {
            (
                ServerView {
                    pending: self.pending.insert(sid, PendingSession { ninep: None }),
                    ..self
                },
                Ok(()),
            )
        }
    }

    /// The state of a session: running, or not started, or unknown.
    pub open spec fn session(self, sid: u128) -> Result<Session, Error> {
        if self.sessions.contains_key(sid) {
            Ok(self.sessions[sid])
        } else if self.pending.contains_key(sid) {
            Err(Error::NotStarted)
        } else {
            Err(Error::SessionNotExist)
        }
    }

    /// `NinepForward`: notes the port of a pending session.
    pub open spec fn ninep_forward(self, sid: u128, port: u16) -> (ServerView, Result<
        (),
        Error,
    >) {
        if self.sessions.contains_key(sid) {
            (self, Err(Error::AlreadyStarted))
        } else if !self.pending.contains_key(sid) {
            (self, Err(Error::SessionNotExist))
        } else {
            (
                ServerView {
                    pending: self.pending.insert(sid, PendingSession { ninep: Some(port) }),
                    ..self
                },
                Ok(()),
            )
        }
    }

    /// `Start`: a pending session becomes a running one. A session that
    /// asks for 9P without a port having been set up is dropped.
    pub open spec fn start(self, sid: u128, ninep: bool, tty: bool) -> (ServerView, Result<
        Session,
        Error,
    >) {
        if self.sessions.contains_key(sid) {
            (self, Err(Error::AlreadyStarted))
        } else if !self.pending.contains_key(sid) {
            (self, Err(Error::SessionNotExist))
        } else {
            let port = self.pending[sid].ninep;
            let pending = self.pending.remove(sid);
            if ninep && port is None {
                (ServerView { pending, ..self }, Err(Error::No9pPort))
            } else {
                let session = Session { tty, ninep: port };
                (
                    ServerView { pending, sessions: self.sessions.insert(sid, session) },
                    Ok(session),
                )
            }
        }
    }

    /// A running session whose command could not be launched is dropped.
    pub open spec fn abandon(self, sid: u128) -> ServerView {
        ServerView { sessions: self.sessions.remove(sid), ..self }
    }

    /// `Wait`: the exit code of the child of a running session, which is
    /// dropped.
    pub open spec fn wait(self, sid: u128, exit: ChildExit) -> (ServerView, Result<i32, Error>) {
        match self.session(sid) {
            Err(e) => (self, Err(e)),
            Ok(_) => (
                self.abandon(sid),
                match exit {
                    ChildExit::Code(code) => Ok(code),
                    ChildExit::NoCode => Err(Error::NoReturnCode),
                    ChildExit::WaitFailed => Err(Error::CommandError),
                },
            ),
        }
    }
}

impl View for Server {
    type V = ServerView;

    closed spec fn view(&self) -> ServerView {
        ServerView { pending: self.pending@, sessions: self.sessions@ }
    }
}

impl Server {
    /// A manager without sessions.
    pub fn new() -> (server: Server)
        ensures
            server@ == ServerView::empty(),
    {
        Server { sessions: HashMap::new(), pending: HashMap::new() }
    }

    /// `Dial`: makes `sid` a pending session.
    pub fn dial(&mut self, sid: u128) -> (res: Result<(), Error>)
        ensures
            (final(self)@, res) == old(self)@.dial(sid),
    {
        if self.pending.contains_key(&sid) || self.sessions.contains_key(&sid) {
            return Err(Error::DuplicateId);
        }
        self.pending.insert(sid, PendingSession { ninep: None });
        Ok(())
    }

    /// The running session `sid`.
    pub fn session(&self, sid: u128) -> (res: Result<Session, Error>)
        ensures
            res == self@.session(sid),
    {
        match self.sessions.get(&sid) {
            Some(session) => Ok(*session),
            None => {
                if self.pending.contains_key(&sid) {
                    Err(Error::NotStarted)
                } else {
                    Err(Error::SessionNotExist)
                }
            },
        }
    }

    /// `NinepForward`: notes the port at which the child of the pending
    /// session `sid` will find the client's files.
    pub fn ninep_forward(&mut self, sid: u128, port: u16) -> (res: Result<(), Error>)
        ensures
            (final(self)@, res) == old(self)@.ninep_forward(sid, port),
    {
        if self.sessions.contains_key(&sid) {
            return Err(Error::AlreadyStarted);
        }
        if !self.pending.contains_key(&sid) {
            return Err(Error::SessionNotExist);
        }
        self.pending.insert(sid, PendingSession { ninep: Some(port) });
        Ok(())
    }

    /// `Start`: makes the pending session `sid` a running one and says what
    /// to launch it with.
    pub fn start(&mut self, sid: u128, ninep: bool, tty: bool) -> (res: Result<Session, Error>)
        ensures
            (final(self)@, res) == old(self)@.start(sid, ninep, tty),
    {
        if self.sessions.contains_key(&sid) {
            return Err(Error::AlreadyStarted);
        }
        let port = match self.pending.remove(&sid) {
            Some(pending) => pending.ninep,
            None => {
                assert(self.pending@ =~= old(self).pending@);
                return Err(Error::SessionNotExist);
            },
        };
        if ninep && port.is_none() {
            return Err(Error::No9pPort);
        }
        let session = Session { tty, ninep: port };
        self.sessions.insert(sid, session);
        Ok(session)
    }

    /// Drops the running session `sid`, whose command could not be
    /// launched.
    pub fn abandon(&mut self, sid: u128)
        ensures
            final(self)@ == old(self)@.abandon(sid),
    {
        self.sessions.remove(&sid);
    }

    /// Whether the session `sid` has a stream for errors of its own: a
    /// session on a terminal has none.
    pub fn stderr(&self, sid: u128) -> (res: Result<bool, Error>)
        ensures
            res == (match self@.session(sid) {
                Ok(session) => Ok::<bool, Error>(!session.tty),
                Err(e) => Err::<bool, Error>(e),
            }),
    {
        match self.session(sid) {
            Ok(session) => Ok(!session.tty),
            Err(e) => Err(e),
        }
    }

    /// `Wait`: takes how the wait for the child of the running session
    /// `sid` ended, drops the session and returns the exit code.
    pub fn wait(&mut self, sid: u128, exit: ChildExit) -> (res: Result<i32, Error>)
        ensures
            (final(self)@, res) == old(self)@.wait(sid, exit),
    {
        match self.session(sid) {
            Err(e) => Err(e),
            Ok(_) => {
                self.sessions.remove(&sid);
                match exit {
                    ChildExit::Code(code) => Ok(code),
                    ChildExit::NoCode => Err(Error::NoReturnCode),
                    ChildExit::WaitFailed => Err(Error::CommandError),
                }
            },
        }
    }
}

/// Whatever is asked of the manager, no session is ever pending and running
/// at once.
pub proof fn lemma_states_stay_apart(
    s: ServerView,
    sid: u128,
    port: u16,
    ninep: bool,
    tty: bool,
    exit: ChildExit,
)
    requires
        s.wf(),
    ensures
        ServerView::empty().wf(),
        s.dial(sid).0.wf(),
        s.ninep_forward(sid, port).0.wf(),
        s.start(sid, ninep, tty).0.wf(),
        s.abandon(sid).wf(),
        s.wait(sid, exit).0.wf(),
{
    let d = s.dial(sid).0;
    assert forall|x: u128| !(d.pending.contains_key(x) && d.sessions.contains_key(x)) by {
        assert(!(s.pending.contains_key(x) && s.sessions.contains_key(x)));
    }
    let n = s.ninep_forward(sid, port).0;
    assert forall|x: u128| !(n.pending.contains_key(x) && n.sessions.contains_key(x)) by {
        assert(!(s.pending.contains_key(x) && s.sessions.contains_key(x)));
    }
    let t = s.start(sid, ninep, tty).0;
    assert forall|x: u128| !(t.pending.contains_key(x) && t.sessions.contains_key(x)) by {
        assert(!(s.pending.contains_key(x) && s.sessions.contains_key(x)));
    }
    let a = s.abandon(sid);
    assert forall|x: u128| !(a.pending.contains_key(x) && a.sessions.contains_key(x)) by {
        assert(!(s.pending.contains_key(x) && s.sessions.contains_key(x)));
    }
}

/// A dial succeeds exactly if the id belongs to no session yet, so no two
/// sessions ever share an id.
pub proof fn lemma_dial_takes_fresh_ids(s: ServerView, sid: u128)
    ensures
        s.dial(sid).1 is Ok <==> !s.pending.contains_key(sid) && !s.sessions.contains_key(sid),
        s.dial(sid).1 is Ok ==> s.dial(sid).0.session(sid) == Err::<Session, Error>(
            Error::NotStarted,
        ),
{
}

/// A start of a session that was never dialed fails: the session does not
/// exist, and nothing changes.
pub proof fn lemma_start_needs_dial(s: ServerView, sid: u128, ninep: bool, tty: bool)
    requires
        !s.pending.contains_key(sid),
        !s.sessions.contains_key(sid),
    ensures
        s.start(sid, ninep, tty) == (s, Err::<Session, Error>(Error::SessionNotExist)),
{
}

/// A dialed session starts, unless it asks for 9P without a port.
pub proof fn lemma_start_after_dial(s: ServerView, sid: u128, ninep: bool, tty: bool)
    requires
        s.dial(sid).1 is Ok,
    ensures
        s.dial(sid).0.start(sid, false, tty).1 == Ok::<Session, Error>(
            Session { tty, ninep: None },
        ),
        s.dial(sid).0.start(sid, true, tty).1 == Err::<Session, Error>(Error::No9pPort),
{
}

/// A second start of a session fails: it was started already, and nothing
/// changes.
pub proof fn lemma_second_start_fails(
    s: ServerView,
    sid: u128,
    ninep: bool,
    tty: bool,
    ninep2: bool,
    tty2: bool,
)
    requires
        s.start(sid, ninep, tty).1 is Ok,
    ensures
        s.start(sid, ninep, tty).0.start(sid, ninep2, tty2) == (
            s.start(sid, ninep, tty).0,
            Err::<Session, Error>(Error::AlreadyStarted),
        ),
{
}

/// A wait for a running session returns exactly the exit code of the child
/// and removes the session: a second wait finds no session.
pub proof fn lemma_wait_returns_code_and_removes(s: ServerView, sid: u128, code: i32)
    requires
        s.wf(),
        s.sessions.contains_key(sid),
    ensures
        s.wait(sid, ChildExit::Code(code)).1 == Ok::<i32, Error>(code),
        !s.wait(sid, ChildExit::Code(code)).0.sessions.contains_key(sid),
        s.wait(sid, ChildExit::Code(code)).0.session(sid) == Err::<Session, Error>(
            Error::SessionNotExist,
        ),
        forall|other: u128|
            other != sid ==> #[trigger] s.wait(sid, ChildExit::Code(code)).0.session(other)
                == s.session(other),
{
}

/// The daemon that is served over the transport.
pub fn rpc_based() -> (server: crate::rpc::RpcServer)
    ensures
        server == (crate::rpc::RpcServer {  }),
{
    crate::rpc::RpcServer {  }
}

} // verus!
