//! The launcher: the helper that a daemon starts for each command. It
//! enters a mount namespace of its own, takes the command from the daemon
//! over a loopback socket, makes the mounts, drops its privileges and
//! becomes the command.
//!
//! Here is what the launcher decides: how the command is framed on the
//! socket, what each mount is made with, what is done in which order, and
//! what a failure does. The system calls are the caller's.

use vstd::prelude::*;
use vstd::string::StringSliceAdditionalSpecFns;
use crate::cmd::{Cmd, CmdView, FsTab, FsTabView};
use crate::serialize::{get_u64_le, put_u64_le};
use crate::text::{decimal_text, digits, join, joined, split, split_at, Separator};
use crate::wire::{from_le64, le64};

verus! {

/// The flag with which a daemon starts itself as a launcher; the port
/// follows it.
pub const LAUNCH_FLAG: &'static str = "--launch";

/// The arguments with which a daemon starts itself as the launcher that
/// connects to `port`.
pub fn launch_args(port: u16) -> (args: Vec<String>)
    ensures
        args.deep_view() == seq![LAUNCH_FLAG@, digits(port as nat)],
{
    let mut args: Vec<String> = Vec::new();
    args.push(LAUNCH_FLAG.to_owned());
    args.push(decimal_text(port as u32));
    assert(args.deep_view() =~= seq![LAUNCH_FLAG@, digits(port as nat)]);
    args
}

/// Mount flag: make a bind mount.
pub const MS_BIND: u64 = 0x1000;

/// Mount flag: apply to the whole subtree.
pub const MS_REC: u64 = 0x4000;

/// Mount flag: keep later mounts from showing elsewhere.
pub const MS_PRIVATE: u64 = 0x4_0000;

/// The flags with which `/` is mounted anew before any other mount.
pub const ROOT_MOUNT_FLAGS: u64 = 0x4_4000;

/// What can stop a launcher.
#[derive(Clone, Copy, Debug, PartialEq, Eq, Structural)]
pub enum Error {
    Unshare,
    MountRoot,
    UnexpectedBytes,
    ShutdownSocket,
    ConvertCString,
    Exec,
    ConnectToPort,
    ReadUds,
    ProtoDecode,
    SetSid,
    SetControllingTerminal,
    SetUid,
    SetGid,
}

/// The options of a mount: the word `bind` asks for a bind mount, the word
/// `defaults` says nothing, and every other option is handed to the file
/// system as it stands.
pub open spec fn is_data_option(option: Seq<char>) -> bool {
    option != "defaults"@ && option != "bind"@
}

/// The mount flags that the options of a mount ask for.
pub open spec fn mount_flags_of(mntops: Seq<char>) -> u64 {
    if split(mntops, Separator::Char(',')).contains("bind"@) {
        MS_BIND
    } else {
        0
    }
}

/// The options that are handed to the file system, with commas between
/// them.
pub open spec fn mount_data_of(mntops: Seq<char>) -> Seq<char> {
    joined(
        split(mntops, Separator::Char(',')).filter(|option: Seq<char>| is_data_option(option)),
        ","@,
    )
}

/// Reads the options of a mount: the flags they ask for, and what is handed
/// to the file system.
pub fn parse_fstab_opt(opt: &str) -> (res: (u64, String))
    ensures
        res.0 == mount_flags_of(opt@),
        res.1@ == mount_data_of(opt@),
{
    let options = split_at(opt, Separator::Char(','));
    let defaults = "defaults".to_owned();
    let bind = "bind".to_owned();
    let ghost all = options.deep_view();
    let ghost keep = |option: Seq<char>| is_data_option(option);
    let mut opts: Vec<String> = Vec::new();
    let mut flag: u64 = 0;
    let mut i: usize = 0;
    assert(opts.deep_view() =~= all.take(0).filter(keep)) by {
        reveal(Seq::filter);
    }
    while i < options.len()
        invariant
            i <= options.len(),
            all == options.deep_view(),
            keep == |option: Seq<char>| is_data_option(option),
            defaults@ == "defaults"@,
            bind@ == "bind"@,
            flag == (if all.take(i as int).contains("bind"@) {
                MS_BIND
            } else {
                0
            }),
            opts.deep_view() == all.take(i as int).filter(keep),
        decreases options.len() - i,
    {
        let ghost before = opts.deep_view();
        let ghost seen = all.take(i as int);
        let ghost next = all.take(i + 1);
        proof {
            reveal(Seq::filter);
            reveal_strlit("defaults");
            reveal_strlit("bind");
            assert("defaults"@.len() == 8);
            assert("bind"@.len() == 4);
            assert(next.drop_last() =~= seen);
            assert(next.last() == options[i as int]@);
            if seen.contains("bind"@) {
                let j = choose|j: int| 0 <= j < seen.len() && seen[j] == "bind"@;
                assert(next[j] == "bind"@);
            }
        }
        if options[i] == defaults {
        } else if options[i] == bind {
            assert(next[i as int] == "bind"@);
            flag = MS_BIND;
        } else {
            opts.push(options[i].clone());
            assert(opts.deep_view() =~= before.push(options[i as int]@));
        }
        proof {
            if options[i as int]@ != "bind"@ && next.contains("bind"@) {
                let j = choose|j: int| 0 <= j < next.len() && next[j] == "bind"@;
                assert(seen[j] == "bind"@);
            }
        }
        i = i + 1;
    }
    assert(all.take(i as int) =~= all);
    (flag, join(&opts, ","))
}

/// A text of a mount call, or nothing where the text is empty.
pub fn get_ptr(s: &str) -> (p: Option<&str>)
    ensures
        p is Some <==> s@.len() > 0,
        p matches Some(t) ==> t@ == s@,
{
    if s.is_empty() {
        None
    } else {
        Some(s)
    }
}

/// What a mount is made with.
#[derive(Clone, Debug, PartialEq, Eq)]
pub struct MountCall {
    pub source: Option<String>,
    pub target: String,
    pub fstype: Option<String>,
    pub flags: u64,
    pub data: Option<String>,
}

/// The mathematical value of a `MountCall`.
pub struct MountCallView {
    pub source: Option<Seq<char>>,
    pub target: Seq<char>,
    pub fstype: Option<Seq<char>>,
    pub flags: u64,
    pub data: Option<Seq<char>>,
}

impl View for MountCall {
    type V = MountCallView;

    open spec fn view(&self) -> MountCallView {
        MountCallView {
            source: match self.source {
                Some(s) => Some(s@),
                None => None,
            },
            target: self.target@,
            fstype: match self.fstype {
                Some(s) => Some(s@),
                None => None,
            },
            flags: self.flags,
            data: match self.data {
                Some(s) => Some(s@),
                None => None,
            },
        }
    }
}

/// A text, or nothing where it is empty.
pub open spec fn non_empty(s: Seq<char>) -> Option<Seq<char>> {
    if s.len() == 0 {
        None
    } else {
        Some(s)
    }
}

/// What the mount of an fstab entry is made with. An empty source, type or
/// data is not given at all.
pub open spec fn mount_call_of(tab: FsTabView) -> MountCallView {
    MountCallView {
        source: non_empty(tab.spec),
        target: tab.file,
        fstype: non_empty(tab.vfstype),
        flags: mount_flags_of(tab.mntops),
        data: non_empty(mount_data_of(tab.mntops)),
    }
}

/// An owned text, or nothing where the text is empty.
fn owned_non_empty(s: &str) -> (p: Option<String>)
    ensures
        (match p {
            Some(t) => Some(t@),
            None => None,
        }) == non_empty(s@),
{
    match get_ptr(s) {
        Some(t) => Some(t.to_owned()),
        None => None,
    }
}

/// What the mount of an fstab entry is made with.
pub fn mount_call(tab: &FsTab) -> (call: MountCall)
    ensures
        call@ == mount_call_of(tab@),
{
    let (flags, data) = parse_fstab_opt(tab.mntops.as_str());
    MountCall {
        source: owned_non_empty(tab.spec.as_str()),
        target: tab.file.clone(),
        fstype: owned_non_empty(tab.vfstype.as_str()),
        flags,
        data: owned_non_empty(data.as_str()),
    }
}

/// The bytes in which a daemon hands a command to its launcher: the length
/// of the encoded command in eight bytes, little-endian, then the encoded
/// command.
pub open spec fn command_frame_of(payload: Seq<u8>) -> Seq<u8> {
    le64(payload.len() as u64) + payload
}

/// Frames an encoded command for the launcher.
pub fn command_frame(payload: Vec<u8>) -> (frame: Vec<u8>)
    ensures
        frame@ == command_frame_of(payload@),
{
    let ghost bytes = payload@;
    let mut payload = payload;
    let mut frame: Vec<u8> = Vec::new();
    put_u64_le(&mut frame, payload.len() as u64);
    frame.append(&mut payload);
    assert(frame@ =~= command_frame_of(bytes));
    frame
}

/// The length of the encoded command that follows the eight bytes of
/// `header`; a header of another length says nothing.
pub fn command_len(header: &Vec<u8>) -> (len: Option<u64>)
    ensures
        len == (if header@.len() == 8 {
            Some(from_le64(header@))
        } else {
            None
        }),
{
    if header.len() != 8 {
        return None;
    }
    assert(header@.subrange(0, 8) =~= header@);
    Some(get_u64_le(header, 0))
}

/// After the command the daemon closes its side. The launcher reads once
/// more and goes on only if that read found the end: `read` is the number
/// of bytes that it returned, or nothing if it failed.
pub fn expect_eof(read: Option<usize>) -> (res: Result<(), Error>)
    ensures
        res == (if read == Some(0usize) {
            Ok::<(), Error>(())
        } else {
            Err::<(), Error>(Error::UnexpectedBytes)
        }),
{
    match read {
        Some(0) => Ok(()),
        _ => Err(Error::UnexpectedBytes),
    }
}

/// Whether a text holds a zero byte, which no argument of a program can.
pub fn has_nul(s: &str) -> (found: bool)
    ensures
        found == s.spec_bytes().contains(0u8),
{
    let bytes = s.as_bytes();
    let mut i: usize = 0;
    while i < bytes.len()
        invariant
            i <= bytes.len(),
            bytes@ == s.spec_bytes(),
            forall|j: int| 0 <= j < i ==> bytes@[j] != 0,
        decreases bytes.len() - i,
    {
        if bytes[i] == 0 {
            return true;
        }
        i = i + 1;
    }
    false
}

/// The argument vector of a command: the program, then its arguments.
pub open spec fn argv_of(cmd: CmdView) -> Seq<Seq<char>> {
    seq![cmd.program] + cmd.args
}

/// Whether no text of `texts` holds a zero byte.
pub open spec fn nul_free(texts: Seq<Seq<char>>) -> bool {
    forall|i: int|
        0 <= i < texts.len() ==> !vstd::utf8::encode_utf8(#[trigger] texts[i]).contains(0u8)
}

/// The argument vector with which the command is executed. A program or an
/// argument with a zero byte in it cannot be handed on.
pub fn exec_args(cmd: &Cmd) -> (res: Result<Vec<String>, Error>)
    ensures
        match res {
            Ok(argv) => nul_free(argv_of(cmd@)) && argv.deep_view() == argv_of(cmd@),
            Err(e) => !nul_free(argv_of(cmd@)) && e == Error::ConvertCString,
        },
{
    let ghost want = argv_of(cmd@);
    if has_nul(cmd.program.as_str()) {
        assert(want[0] == cmd.program@);
        return Err(Error::ConvertCString);
    }
    let mut argv: Vec<String> = Vec::new();
    argv.push(cmd.program.clone());
    assert(argv.deep_view() =~= want.take(1));
    let mut i: usize = 0;
    while i < cmd.args.len()
        invariant
            i <= cmd.args.len(),
            want == argv_of(cmd@),
            want.len() == cmd.args.len() + 1,
            argv.deep_view() == want.take(i + 1),
            forall|j: int|
                0 <= j < i + 1 ==> !vstd::utf8::encode_utf8(#[trigger] want[j]).contains(0u8),
        decreases cmd.args.len() - i,
    {
        assert(want[i + 1] == cmd.args[i as int]@);
        if has_nul(cmd.args[i].as_str()) {
            return Err(Error::ConvertCString);
        }
        let ghost before = argv.deep_view();
        argv.push(cmd.args[i].clone());
        assert(argv.deep_view() =~= before.push(cmd.args[i as int]@));
        assert(want.take(i + 2) =~= want.take(i + 1).push(want[i + 1]));
        i = i + 1;
    }
    assert(want.take(i + 1) =~= want);
    Ok(argv)
}

/// A step of a launcher.
#[derive(Clone, Copy, Debug, PartialEq, Eq, Structural)]
pub enum Step {
    /// Enter a mount namespace of its own.
    Unshare,
    /// Connect to the daemon on the loopback address.
    Connect,
    /// Read the length and the bytes of the command.
    ReadCommand,
    /// Decode the command.
    DecodeCommand,
    /// Mount `/` anew, private and with its whole subtree.
    MountRoot,
    /// Make the mount of this entry of the command's fstab.
    Mount(usize),
    /// Read once more and find the end.
    ExpectEof,
    /// Shut the socket down, both ways.
    Shutdown,
    /// Set this variable of the command's environment.
    SetEnv(usize),
    /// Turn the program and its arguments into C strings.
    PrepareArgs,
    /// Begin a session of its own.
    SetSid,
    /// Make the standard input the controlling terminal.
    SetControllingTerminal,
    /// Become the group of the command.
    SetGid,
    /// Become the user of the command.
    SetUid,
    /// Become the program.
    Exec,
}

/// The steps that `make` gives for the numbers below `n`, in their order.
pub open spec fn numbered(make: spec_fn(usize) -> Step, n: nat) -> Seq<Step> {
    Seq::new(n, |i: int| make(i as usize))
}

/// The steps of a launcher before it knows the command.
pub open spec fn first_steps() -> Seq<Step> {
    seq![Step::Unshare, Step::Connect, Step::ReadCommand, Step::DecodeCommand]
}

/// The steps of a launcher once it knows the command, in their order: the
/// mounts, the end of the talk with the daemon, the environment, and then
/// what turns the launcher into the command. Only a command on a terminal
/// gets a session and a controlling terminal of its own. The group is set
/// before the user, as long as the launcher still may.
pub open spec fn steps_of(cmd: CmdView) -> Seq<Step> {
    let mounts = numbered(|i: usize| Step::Mount(i), cmd.fstab.len());
    let envs = numbered(|i: usize| Step::SetEnv(i), cmd.envs.len());
    let terminal = if cmd.tty {
        seq![Step::SetSid, Step::SetControllingTerminal]
    } else {
        Seq::empty()
    };
    seq![Step::MountRoot] + mounts + seq![Step::ExpectEof, Step::Shutdown] + envs + seq![
        Step::PrepareArgs,
    ] + terminal + seq![Step::SetGid, Step::SetUid, Step::Exec]
}

/// The steps of a launcher before it knows the command.
pub fn first() -> (steps: Vec<Step>)
    ensures
        steps@ == first_steps(),
{
    let mut steps: Vec<Step> = Vec::new();
    steps.push(Step::Unshare);
    steps.push(Step::Connect);
    steps.push(Step::ReadCommand);
    steps.push(Step::DecodeCommand);
    assert(steps@ =~= first_steps());
    steps
}

/// The steps of a launcher once it knows the command.
pub fn steps(cmd: &Cmd) -> (steps: Vec<Step>)
    ensures
        steps@ == steps_of(cmd@),
{
    let mut steps: Vec<Step> = Vec::new();
    steps.push(Step::MountRoot);
    let ghost mounts = numbered(|i: usize| Step::Mount(i), cmd@.fstab.len());
    let ghost envs = numbered(|i: usize| Step::SetEnv(i), cmd@.envs.len());
    let mut i: usize = 0;
    while i < cmd.fstab.len()
        invariant
            i <= cmd.fstab.len(),
            cmd.fstab.len() == cmd@.fstab.len(),
            mounts == numbered(|i: usize| Step::Mount(i), cmd@.fstab.len()),
            steps@ == seq![Step::MountRoot] + mounts.take(i as int),
        decreases cmd.fstab.len() - i,
    {
        steps.push(Step::Mount(i));
        assert(steps@ =~= seq![Step::MountRoot] + mounts.take(i + 1));
        i = i + 1;
    }
    assert(mounts.take(i as int) =~= mounts);
    steps.push(Step::ExpectEof);
    steps.push(Step::Shutdown);
    let ghost head = seq![Step::MountRoot] + mounts + seq![Step::ExpectEof, Step::Shutdown];
    assert(steps@ =~= head);
    let mut j: usize = 0;
    while j < cmd.envs.len()
        invariant
            j <= cmd.envs.len(),
            cmd.envs.len() == cmd@.envs.len(),
            envs == numbered(|i: usize| Step::SetEnv(i), cmd@.envs.len()),
            steps@ == head + envs.take(j as int),
        decreases cmd.envs.len() - j,
    {
        steps.push(Step::SetEnv(j));
        assert(steps@ =~= head + envs.take(j + 1));
        j = j + 1;
    }
    assert(envs.take(j as int) =~= envs);
    steps.push(Step::PrepareArgs);
    if cmd.tty {
        steps.push(Step::SetSid);
        steps.push(Step::SetControllingTerminal);
    }
    steps.push(Step::SetGid);
    steps.push(Step::SetUid);
    steps.push(Step::Exec);
    assert(steps@ =~= steps_of(cmd@));
    steps
}

/// What the failure of a step does: the error that stops the launcher, or
/// nothing where the launcher goes on. A mount that fails is reported and
/// passed over; setting a variable cannot fail.
pub fn failure(step: Step) -> (stop: Option<Error>)
    ensures
        stop == (match step {
            Step::Unshare => Some(Error::Unshare),
            Step::Connect => Some(Error::ConnectToPort),
            Step::ReadCommand => Some(Error::ReadUds),
            Step::DecodeCommand => Some(Error::ProtoDecode),
            Step::MountRoot => Some(Error::MountRoot),
            Step::Mount(_) => None,
            Step::ExpectEof => Some(Error::UnexpectedBytes),
            Step::Shutdown => Some(Error::ShutdownSocket),
            Step::SetEnv(_) => None,
            Step::PrepareArgs => Some(Error::ConvertCString),
            Step::SetSid => Some(Error::SetSid),
            Step::SetControllingTerminal => Some(Error::SetControllingTerminal),
            Step::SetGid => Some(Error::SetGid),
            Step::SetUid => Some(Error::SetUid),
            Step::Exec => Some(Error::Exec),
        }),
{
    match step {
        Step::Unshare => Some(Error::Unshare),
        Step::Connect => Some(Error::ConnectToPort),
        Step::ReadCommand => Some(Error::ReadUds),
        Step::DecodeCommand => Some(Error::ProtoDecode),
        Step::MountRoot => Some(Error::MountRoot),
        Step::Mount(_) => None,
        Step::ExpectEof => Some(Error::UnexpectedBytes),
        Step::Shutdown => Some(Error::ShutdownSocket),
        Step::SetEnv(_) => None,
        Step::PrepareArgs => Some(Error::ConvertCString),
        Step::SetSid => Some(Error::SetSid),
        Step::SetControllingTerminal => Some(Error::SetControllingTerminal),
        Step::SetGid => Some(Error::SetGid),
        Step::SetUid => Some(Error::SetUid),
        Step::Exec => Some(Error::Exec),
    }
}

} // verus!
