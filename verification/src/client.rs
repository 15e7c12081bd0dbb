//! The client driver: what it sends for a command line, how it keeps track
//! of its one session, and what it makes of the outcome.

use vstd::prelude::*;
use crate::cmd::{fstab_of_lines, parse_fstab, CmdView, Command, FsTab, FsTabError, FsTabView};
use crate::unpfs::moved;
use crate::{namespace_of, parse_namespace};

verus! {

/// The most bytes of standard input that travel in one piece.
pub const STDIN_BUF_SIZE: usize = 128;

/// What can go wrong in a client.
#[derive(Clone, Copy, Debug, PartialEq, Eq, Structural)]
pub enum ClientError {
    /// Command not started
    NotStarted,
    /// Command exits with a code that is not zero
    NonZeroExitCode(i32),
    /// Command already started
    AlreadyStarted,
    /// IO error
    IoErr,
    /// System error
    Sys,
    /// Channel closed
    ChannelClosed,
    /// An error of the transport
    Inner,
}

/// The session of a client.
#[derive(Clone, Copy, Debug, PartialEq, Eq, Structural)]
pub struct SessionInfo {
    pub sid: u128,
    /// Whether the command runs on a terminal: the local terminal is put
    /// into raw mode while the client waits, and errors come with the
    /// output.
    pub tty: bool,
}

/// A client, which runs one command at a time.
#[derive(Clone, Copy, Debug, PartialEq, Eq, Structural)]
pub struct P9cpuClient {
    pub session_info: Option<SessionInfo>,
}

impl P9cpuClient {
    /// A client with no command under way.
    pub fn new() -> (client: P9cpuClient)
        ensures
            client.session_info is None,
    {
        P9cpuClient { session_info: None }
    }

    /// Asks whether a command may be started: not while one is under way.
    pub fn check_start(&self) -> (res: Result<(), ClientError>)
        ensures
            res == (if self.session_info is Some {
                Err::<(), ClientError>(ClientError::AlreadyStarted)
            } else {
                Ok::<(), ClientError>(())
            }),
    {
        if self.session_info.is_some() {
            Err(ClientError::AlreadyStarted)
        } else {
            Ok(())
        }
    }

    /// Notes that the daemon started the command as session `sid`. While a
    /// command is under way another start changes nothing.
    pub fn start(&mut self, sid: u128, tty: bool) -> (res: Result<(), ClientError>)
        ensures
            old(self).session_info is Some ==> res == Err::<(), ClientError>(
                ClientError::AlreadyStarted,
            ) && *final(self) == *old(self),
            old(self).session_info is None ==> res == Ok::<(), ClientError>(())
                && final(self).session_info == Some(SessionInfo { sid, tty }),
    {
        if self.session_info.is_some() {
            return Err(ClientError::AlreadyStarted);
        }
        self.session_info = Some(SessionInfo { sid, tty });
        Ok(())
    }

    /// Takes the session to wait for; afterwards no command is under way.
    pub fn wait(&mut self) -> (res: Result<SessionInfo, ClientError>)
        ensures
            final(self).session_info is None,
            res == (match old(self).session_info {
                Some(info) => Ok::<SessionInfo, ClientError>(info),
                None => Err::<SessionInfo, ClientError>(ClientError::NotStarted),
            }),
    {
        match self.session_info.take() {
            Some(info) => Ok(info),
            None => Err(ClientError::NotStarted),
        }
    }
}

/// What the exit code of the command means: zero is success.
pub fn wait_inner(code: i32) -> (res: Result<(), ClientError>)
    ensures
        res == (if code == 0 {
            Ok::<(), ClientError>(())
        } else {
            Err::<(), ClientError>(ClientError::NonZeroExitCode(code))
        }),
{
    if code == 0 {
        Ok(())
    } else {
        Err(ClientError::NonZeroExitCode(code))
    }
}

/// The exit code of the client: that of the command, and 1 for an error of
/// the client itself.
pub fn exit_code(outcome: Result<(), ClientError>) -> (code: i32)
    ensures
        code == (match outcome {
            Ok(_) => 0i32,
            Err(ClientError::NonZeroExitCode(c)) => c,
            Err(_) => 1i32,
        }),
{
    match outcome {
        Ok(_) => 0,
        Err(ClientError::NonZeroExitCode(c)) => c,
        Err(_) => 1,
    }
}

/// Whether the client asks for a stream of the command's errors: a command
/// on a terminal writes them to its output.
pub fn wants_stderr(tty: bool) -> (wanted: bool)
    ensures
        wanted == !tty,
{
    !tty
}

/// The piece that is sent on after a read of `len` bytes into `buf`: the
/// bytes read, or nothing at the end of the input.
pub fn chunk(buf: Vec<u8>, len: usize) -> (piece: Option<Vec<u8>>)
    ensures
        len == 0 ==> piece is None,
        len > 0 ==> piece is Some && piece->0@ == moved(buf@, len as int),
{
    if len == 0 {
        None
    } else {
        let ghost whole = buf@;
        let mut buf = buf;
        buf.truncate(len);
        assert(buf@ =~= moved(whole, len as int));
        Some(buf)
    }
}

/// Why no command can be built.
#[derive(Clone, Copy, Debug, PartialEq, Eq)]
pub enum BuildError {
    /// `tmp_mnt` cannot be empty
    EmptyTmpMnt,
    /// A line of the fstab file is no mount.
    FsTab(FsTabError),
}

/// What the user asks for.
#[derive(Clone, Debug)]
pub struct Request {
    pub program: String,
    pub args: Vec<String>,
    pub envs: Vec<(Vec<u8>, Vec<u8>)>,
    pub namespace: String,
    /// The lines of the fstab file, if one was named.
    pub fs_tab: Option<Vec<String>>,
    pub tmp_mnt: String,
    pub tty: bool,
    pub uid: u32,
    pub gid: u32,
}

/// The mathematical value of a `Request`.
pub struct RequestView {
    pub program: Seq<char>,
    pub args: Seq<Seq<char>>,
    pub envs: Seq<(Seq<u8>, Seq<u8>)>,
    pub namespace: Seq<char>,
    pub fs_tab: Option<Seq<Seq<char>>>,
    pub tmp_mnt: Seq<char>,
    pub tty: bool,
    pub uid: u32,
    pub gid: u32,
}

impl View for Request {
    type V = RequestView;

    open spec fn view(&self) -> RequestView {
        RequestView {
            program: self.program@,
            args: self.args.deep_view(),
            envs: self.envs.deep_view(),
            namespace: self.namespace@,
            fs_tab: match self.fs_tab {
                Some(lines) => Some(lines.deep_view()),
                None => None,
            },
            tmp_mnt: self.tmp_mnt@,
            tty: self.tty,
            uid: self.uid,
            gid: self.gid,
        }
    }
}

/// The mounts of the fstab file of a request, or the fault of the file.
pub open spec fn file_mounts(fs_tab: Option<Seq<Seq<char>>>) -> Result<Seq<FsTabView>, FsTabError> {
    match fs_tab {
        Some(lines) => fstab_of_lines(lines),
        None => Ok(Seq::empty()),
    }
}

/// The command that a request asks for. The mounts of the namespace come
/// first, then those of the fstab file. The command sees the client's files
/// over 9P exactly if the namespace asks for a mount.
pub open spec fn command_of(req: RequestView) -> Result<CmdView, BuildError> {
    if req.tmp_mnt.len() == 0 {
        Err(BuildError::EmptyTmpMnt)
    } else {
        match file_mounts(req.fs_tab) {
            Err(e) => Err(BuildError::FsTab(e)),
            Ok(mounts) => {
                let bound = namespace_of(req.namespace, req.tmp_mnt);
                Ok(
                    CmdView {
                        program: req.program,
                        args: req.args,
                        envs: req.envs,
                        fstab: bound + mounts,
                        tty: req.tty,
                        ninep: bound.len() > 0,
                        tmp_mnt: req.tmp_mnt,
                        uid: req.uid,
                        gid: req.gid,
                    },
                )
            },
        }
    }
}

/// Builds the command that a request asks for.
pub fn build_command(req: Request) -> (res: Result<Command, BuildError>)
    ensures
        match (res, command_of(req@)) {
            (Ok(command), Ok(v)) => command@ == v,
            (Err(e), Err(v)) => e == v,
            _ => false,
        },
{
    if req.tmp_mnt.as_str().is_empty() {
        return Err(BuildError::EmptyTmpMnt);
    }
    let mut fs_tab_lines = parse_namespace(req.namespace.as_str(), req.tmp_mnt.as_str());
    let ninep = fs_tab_lines.len() > 0;
    let ghost bound = fs_tab_lines.deep_view();
    match &req.fs_tab {
        Some(lines) => {
            match parse_fstab(lines) {
                Ok(mounts) => {
                    let mut mounts = mounts;
                    let ghost added = mounts.deep_view();
                    fs_tab_lines.append(&mut mounts);
                    assert(fs_tab_lines.deep_view() =~= bound + added);
                },
                Err(e) => {
                    return Err(BuildError::FsTab(e));
                },
            }
        },
        None => {
            assert(fs_tab_lines.deep_view() =~= bound + Seq::<FsTabView>::empty());
        },
    }
    let ghost want = command_of(req@)->Ok_0;
    let mut cmd = Command::new(req.program);
    cmd.args(req.args);
    cmd.envs(req.envs);
    cmd.ninep(ninep);
    cmd.fstab(fs_tab_lines);
    cmd.tty(req.tty);
    cmd.tmp_mnt(req.tmp_mnt);
    cmd.ugid(req.uid, req.gid);
    proof {
        assert(cmd@.args =~= want.args);
        assert(cmd@.envs =~= want.envs);
        assert(cmd@.fstab =~= want.fstab);
    }
    Ok(cmd)
}

} // verus!
