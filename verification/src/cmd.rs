//! The command that a client asks a daemon to run, and the mounts that go
//! with it.

use vstd::prelude::*;
use vstd::slice::slice_to_vec;
use crate::text::{parse_u32, spells_u32, decimal, digits_of, words, words_of, Separator};

verus! {

/// One mount, with the six fields of a line of `/etc/fstab`.
#[derive(Clone, Debug, PartialEq, Eq, Hash)]
pub struct FsTab {
    pub spec: String,
    pub file: String,
    pub vfstype: String,
    pub mntops: String,
    pub freq: u32,
    pub passno: u32,
}

/// The mathematical value of an `FsTab`.
pub struct FsTabView {
    pub spec: Seq<char>,
    pub file: Seq<char>,
    pub vfstype: Seq<char>,
    pub mntops: Seq<char>,
    pub freq: u32,
    pub passno: u32,
}

impl View for FsTab {
    type V = FsTabView;

    open spec fn view(&self) -> FsTabView {
        FsTabView {
            spec: self.spec@,
            file: self.file@,
            vfstype: self.vfstype@,
            mntops: self.mntops@,
            freq: self.freq,
            passno: self.passno,
        }
    }
}

impl DeepView for FsTab {
    type V = FsTabView;

    open spec fn deep_view(&self) -> FsTabView {
        self.view()
    }
}

/// Why a line is no mount.
#[derive(Clone, Copy, Debug, PartialEq, Eq)]
pub enum FsTabError {
    /// line does not contain 6 fields.
    NotSixFields,
    /// The named field is no number.
    InvalidNumber(&'static str),
}

/// The name under which a number that cannot be read is reported.
pub const FREQ: &'static str = "freq";

/// The name under which a number that cannot be read is reported.
pub const PASSNO: &'static str = "passno";

/// What a line of an fstab file says. A line is six fields with white space
/// between them, the last two of them numbers. The fields are looked at from
/// the left, and the first fault found is reported.
pub open spec fn fstab_of_line(line: Seq<char>) -> Result<FsTabView, FsTabError> {
    let fields = words(line, Separator::Whitespace);
    if fields.len() < 5 {
        Err(FsTabError::NotSixFields)
    } else if !spells_u32(fields[4]) {
        Err(FsTabError::InvalidNumber(FREQ))
    } else if fields.len() < 6 {
        Err(FsTabError::NotSixFields)
    } else if !spells_u32(fields[5]) {
        Err(FsTabError::InvalidNumber(PASSNO))
    } else if fields.len() > 6 {
        Err(FsTabError::NotSixFields)
    } else {
        Ok(
            FsTabView {
                spec: fields[0],
                file: fields[1],
                vfstype: fields[2],
                mntops: fields[3],
                freq: decimal(digits_of(fields[4])) as u32,
                passno: decimal(digits_of(fields[5])) as u32,
            },
        )
    }
}

/// Whether `res` is what the line says.
pub open spec fn is_fstab_of_line(line: Seq<char>, res: Result<FsTab, FsTabError>) -> bool {
    match (res, fstab_of_line(line)) {
        (Ok(tab), Ok(v)) => tab@ == v,
        (Err(e), Err(v)) => e == v,
        _ => false,
    }
}

impl FsTab {
    /// Reads a mount from a line of an fstab file.
    pub fn try_from(line: &str) -> (res: Result<FsTab, FsTabError>)
        ensures
            is_fstab_of_line(line@, res),
    {
        let fields = words_of(line, Separator::Whitespace);
        if fields.len() < 5 {
            return Err(FsTabError::NotSixFields);
        }
        let freq = match parse_u32(fields[4].as_str()) {
            Some(n) => n,
            None => {
                return Err(FsTabError::InvalidNumber(FREQ));
            },
        };
        if fields.len() < 6 {
            return Err(FsTabError::NotSixFields);
        }
        let passno = match parse_u32(fields[5].as_str()) {
            Some(n) => n,
            None => {
                return Err(FsTabError::InvalidNumber(PASSNO));
            },
        };
        if fields.len() > 6 {
            return Err(FsTabError::NotSixFields);
        }
        Ok(
            FsTab {
                spec: fields[0].clone(),
                file: fields[1].clone(),
                vfstype: fields[2].clone(),
                mntops: fields[3].clone(),
                freq,
                passno,
            },
        )
    }
}

/// Whether a line of an fstab file is a comment.
pub fn is_comment(line: &str) -> (b: bool)
    ensures
        b == (line@.len() > 0 && line@[0] == '#'),
{
    vstd::string::StrSliceExecFns::unicode_len(line) > 0 && vstd::string::StrSliceExecFns::get_char(
        line,
        0,
    ) == '#'
}

/// What the lines of an fstab file say: the mounts of the lines that are no
/// comments, or the fault of the first such line that has one.
pub open spec fn fstab_of_lines(lines: Seq<Seq<char>>) -> Result<Seq<FsTabView>, FsTabError>
    decreases lines.len(),
{
    if lines.len() == 0 {
        Ok(Seq::empty())
    } else {
        match fstab_of_lines(lines.drop_last()) {
            Err(e) => Err(e),
            Ok(tabs) => {
                let line = lines.last();
                if line.len() > 0 && line[0] == '#' {
                    Ok(tabs)
                } else {
                    match fstab_of_line(line) {
                        Err(e) => Err(e),
                        Ok(tab) => Ok(tabs.push(tab)),
                    }
                }
            },
        }
    }
}

/// Reads the mounts from the lines of an fstab file; lines that begin with
/// `#` are passed over.
pub fn parse_fstab(lines: &Vec<String>) -> (res: Result<Vec<FsTab>, FsTabError>)
    ensures
        match (res, fstab_of_lines(lines.deep_view())) {
            (Ok(tabs), Ok(v)) => tabs.deep_view() == v,
            (Err(e), Err(v)) => e == v,
            _ => false,
        },
{
    let mut tabs: Vec<FsTab> = Vec::new();
    let ghost all = lines.deep_view();
    let mut i: usize = 0;
    assert(tabs.deep_view() =~= Seq::<FsTabView>::empty());
    while i < lines.len()
        invariant
            i <= lines.len(),
            all == lines.deep_view(),
            fstab_of_lines(all.take(i as int)) == Ok::<Seq<FsTabView>, FsTabError>(
                tabs.deep_view(),
            ),
        decreases lines.len() - i,
    {
        proof {
            assert(all.take(i + 1).drop_last() =~= all.take(i as int));
            assert(all.take(i + 1).last() == lines[i as int]@);
        }
        if !is_comment(lines[i].as_str()) {
            match FsTab::try_from(lines[i].as_str()) {
                Ok(tab) => {
                    let ghost before = tabs.deep_view();
                    let ghost added = tab@;
                    tabs.push(tab);
                    assert(tabs.deep_view() =~= before.push(added));
                },
                Err(e) => {
                    proof {
                        lemma_fault_stays(all, i + 1);
                    }
                    return Err(e);
                },
            }
        }
        i = i + 1;
    }
    assert(all.take(i as int) =~= all);
    Ok(tabs)
}

/// A fault among the first lines is the fault of the whole.
proof fn lemma_fault_stays(lines: Seq<Seq<char>>, k: int)
    requires
        0 <= k <= lines.len(),
        fstab_of_lines(lines.take(k)) is Err,
    ensures
        fstab_of_lines(lines) == fstab_of_lines(lines.take(k)),
    decreases lines.len() - k,
{
    if k < lines.len() {
        assert(lines.take(k + 1).drop_last() =~= lines.take(k));
        lemma_fault_stays(lines, k + 1);
    } else {
        assert(lines.take(k) =~= lines);
    }
}

/// A variable of the environment.
#[derive(Clone, Debug, PartialEq, Eq, Hash)]
pub struct EnvVar {
    pub key: Vec<u8>,
    pub val: Vec<u8>,
}

impl View for EnvVar {
    type V = (Seq<u8>, Seq<u8>);

    open spec fn view(&self) -> (Seq<u8>, Seq<u8>) {
        (self.key@, self.val@)
    }
}

impl DeepView for EnvVar {
    type V = (Seq<u8>, Seq<u8>);

    open spec fn deep_view(&self) -> (Seq<u8>, Seq<u8>) {
        self.view()
    }
}

/// The record that tells a launcher what to run, and how.
#[derive(Clone, Debug, PartialEq, Eq, Hash)]
pub struct Cmd {
    pub program: String,
    pub args: Vec<String>,
    pub envs: Vec<EnvVar>,
    pub fstab: Vec<FsTab>,
    pub tty: bool,
    pub ninep: bool,
    pub tmp_mnt: String,
    pub uid: u32,
    pub gid: u32,
}

/// The mathematical value of a `Cmd`.
pub struct CmdView {
    pub program: Seq<char>,
    pub args: Seq<Seq<char>>,
    pub envs: Seq<(Seq<u8>, Seq<u8>)>,
    pub fstab: Seq<FsTabView>,
    pub tty: bool,
    pub ninep: bool,
    pub tmp_mnt: Seq<char>,
    pub uid: u32,
    pub gid: u32,
}

impl View for Cmd {
    type V = CmdView;

    open spec fn view(&self) -> CmdView {
        CmdView {
            program: self.program@,
            args: self.args.deep_view(),
            envs: self.envs.deep_view(),
            fstab: self.fstab.deep_view(),
            tty: self.tty,
            ninep: self.ninep,
            tmp_mnt: self.tmp_mnt@,
            uid: self.uid,
            gid: self.gid,
        }
    }
}

impl CmdView {
    /// The command that runs `program` with nothing else said.
    pub open spec fn of_program(program: Seq<char>) -> CmdView {
        CmdView {
            program,
            args: Seq::empty(),
            envs: Seq::empty(),
            fstab: Seq::empty(),
            tty: false,
            ninep: false,
            tmp_mnt: Seq::empty(),
            uid: 0,
            gid: 0,
        }
    }
}

/// Builds up the command that a client sends.
#[derive(Clone, Debug)]
pub struct Command {
    cmd: Cmd,
}

impl View for Command {
    type V = CmdView;

    closed spec fn view(&self) -> CmdView {
        self.cmd@
    }
}

impl Command {
    /// The command that runs `program`, with nothing else said.
    pub fn new(program: String) -> (c: Command)
        ensures
            c@ == CmdView::of_program(program@),
    {
        let c = Command {
            cmd: Cmd {
                program,
                args: Vec::new(),
                envs: Vec::new(),
                fstab: Vec::new(),
                tty: false,
                ninep: false,
                tmp_mnt: String::new(),
                uid: 0,
                gid: 0,
            },
        };
        assert(c.cmd.args.deep_view() =~= Seq::<Seq<char>>::empty());
        assert(c.cmd.envs.deep_view() =~= Seq::<(Seq<u8>, Seq<u8>)>::empty());
        assert(c.cmd.fstab.deep_view() =~= Seq::<FsTabView>::empty());
        c
    }

    /// Adds arguments for the program.
    pub fn args(&mut self, args: Vec<String>) -> (r: &mut Self)
        ensures
            r@ == (CmdView { args: old(self)@.args + args.deep_view(), ..old(self)@ }),
            *final(self) == *final(r),
    {
        let mut args = args;
        let ghost before = self.cmd.args.deep_view();
        let ghost added = args.deep_view();
        self.cmd.args.append(&mut args);
        assert(self.cmd.args.deep_view() =~= before + added);
        self
    }

    /// Adds variables for the environment of the program.
    pub fn envs(&mut self, vars: Vec<(Vec<u8>, Vec<u8>)>) -> (r: &mut Self)
        ensures
            r@ == (CmdView { envs: old(self)@.envs + vars.deep_view(), ..old(self)@ }),
            *final(self) == *final(r),
    {
        let mut vars = vars;
        let ghost all = vars.deep_view();
        let ghost before = self.cmd.envs.deep_view();
        let mut i: usize = 0;
        let n = vars.len();
        while i < n
            invariant
                i <= n,
                n == vars.len(),
                all == vars.deep_view(),
                self.cmd.envs.deep_view() == before + all.take(i as int),
                (CmdView { envs: before, ..self@ }) == old(self)@,
            decreases n - i,
        {
            let key = slice_to_vec(vars[i].0.as_slice());
            let val = slice_to_vec(vars[i].1.as_slice());
            let ghost had = self.cmd.envs.deep_view();
            self.cmd.envs.push(EnvVar { key, val });
            proof {
                assert(vars[i as int].0.deep_view() =~= vars[i as int].0@);
                assert(vars[i as int].1.deep_view() =~= vars[i as int].1@);
                assert(self.cmd.envs.deep_view() =~= had.push(all[i as int]));
                assert(all.take(i + 1) =~= all.take(i as int).push(all[i as int]));
                assert(before + all.take(i + 1) =~= (before + all.take(i as int)).push(
                    all[i as int],
                ));
            }
            i = i + 1;
        }
        assert(all.take(i as int) =~= all);
        self
    }

    /// Adds mounts for the program to see.
    pub fn fstab(&mut self, tab: Vec<FsTab>) -> (r: &mut Self)
        ensures
            r@ == (CmdView { fstab: old(self)@.fstab + tab.deep_view(), ..old(self)@ }),
            *final(self) == *final(r),
    {
        let mut tab = tab;
        let ghost before = self.cmd.fstab.deep_view();
        let ghost added = tab.deep_view();
        self.cmd.fstab.append(&mut tab);
        assert(self.cmd.fstab.deep_view() =~= before + added);
        self
    }

    /// Says whether the program sees the client's files over 9P.
    pub fn ninep(&mut self, enable: bool) -> (r: &mut Self)
        ensures
            r@ == (CmdView { ninep: enable, ..old(self)@ }),
            *final(self) == *final(r),
    {
        self.cmd.ninep = enable;
        self
    }

    /// Says whether the program runs on a terminal.
    pub fn tty(&mut self, enable: bool) -> (r: &mut Self)
        ensures
            r@ == (CmdView { tty: enable, ..old(self)@ }),
            *final(self) == *final(r),
    {
        self.cmd.tty = enable;
        self
    }

    /// Names the directory under which the client's files are mounted.
    pub fn tmp_mnt(&mut self, tmp_mnt: String) -> (r: &mut Self)
        ensures
            r@ == (CmdView { tmp_mnt: tmp_mnt@, ..old(self)@ }),
            *final(self) == *final(r),
    {
        self.cmd.tmp_mnt = tmp_mnt;
        self
    }

    /// Names the user and the group that the program runs as.
    pub fn ugid(&mut self, uid: u32, gid: u32) -> (r: &mut Self)
        ensures
            r@ == (CmdView { uid, gid, ..old(self)@ }),
            *final(self) == *final(r),
    {
        self.cmd.uid = uid;
        self.cmd.gid = gid;
        self
    }

    /// The command as built so far.
    pub fn into_cmd(self) -> (cmd: Cmd)
        ensures
            cmd@ == self@,
    {
        self.cmd
    }
}

} // verus!
