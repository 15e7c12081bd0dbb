//! The rules of a file server that hands a directory of the host through:
//! which flags reach the host, how a walk ends, what a directory read
//! returns, and what a change of attributes does, in which order.
//!
//! The calls on the host are the caller's. It makes them as these functions
//! say and hands in what the host answered.

use vstd::prelude::*;
use crate::error::{Error, IoError, IoErrorKind, EBADF};
use crate::fcall::{
    dirents_size, Data, DirEntry, DirEntryData, DirEntryView, Fcall, FcallView, Qid, QidType,
    SetAttr, SetattrMask, Statfs, Time, DIRENT_FIXED_SIZE,
};
use crate::srv::fids_after;

verus! {

/// Open for reading only.
pub const O_RDONLY: u32 = 0o0;

/// Open for writing only.
pub const O_WRONLY: u32 = 0o1;

/// Open for reading and writing.
pub const O_RDWR: u32 = 0o2;

/// Create the file if it is not there.
pub const O_CREAT: u32 = 0o100;

/// Cut the file to no length.
pub const O_TRUNC: u32 = 0o1000;

/// The open flags that reach the host. Clients pass on flags of their own
/// callers, such as `O_DIRECT`, that the server cannot honour.
pub const UNIX_FLAGS: u32 = 0o1103;

/// The part of the open flags of a request that reaches the host.
pub fn host_flags(flags: u32) -> (host: u32)
    ensures
        host == flags & UNIX_FLAGS,
        host & !UNIX_FLAGS == 0,
        UNIX_FLAGS == O_RDONLY | O_WRONLY | O_RDWR | O_CREAT | O_TRUNC,
{
    assert((flags & 0o1103u32) & !0o1103u32 == 0) by (bit_vector);
    assert(0o1103u32 == 0o0u32 | 0o1u32 | 0o2u32 | 0o100u32 | 0o1000u32) by (bit_vector);
    flags & UNIX_FLAGS
}

/// The type bits of a file of the host: those of a directory and of a
/// symbolic link, as far as it is one.
pub fn qid_type(is_dir: bool, is_symlink: bool) -> (typ: QidType)
    ensures
        typ == qid_type_of(is_dir, is_symlink),
{
    let mut typ = QidType::from_bits_truncate(QidType::FILE);
    assert(0u8 & 0xffu8 == 0) by (bit_vector);
    if is_dir {
        typ.insert(QidType::DIR);
    }
    if is_symlink {
        typ.insert(QidType::SYMLINK);
    }
    proof {
        let b = typ.bits;
        assert(0u8 | (0x80u8 & 0xffu8) == 0x80u8 | 0u8) by (bit_vector);
        assert(0u8 | (0x02u8 & 0xffu8) == 0u8 | 0x02u8) by (bit_vector);
        assert((0u8 | (0x80u8 & 0xffu8)) | (0x02u8 & 0xffu8) == 0x80u8 | 0x02u8) by (bit_vector);
        assert(0u8 == 0u8 | 0u8) by (bit_vector);
    }
    typ
}

/// The qid of a file of the host: its type, and its inode number as path.
pub fn qid_from_attr(is_dir: bool, is_symlink: bool, ino: u64) -> (qid: Qid)
    ensures
        qid == (Qid { typ: qid_type_of(is_dir, is_symlink), version: 0, path: ino }),
{
    Qid { typ: qid_type(is_dir, is_symlink), version: 0, path: ino }
}

/// The type bits of a file of the host: those of a directory and of a
/// symbolic link, as far as it is one.
pub open spec fn qid_type_of(is_dir: bool, is_symlink: bool) -> QidType {
    QidType {
        bits: (if is_dir {
            QidType::DIR
        } else {
            QidType::FILE
        }) | (if is_symlink {
            QidType::SYMLINK
        } else {
            QidType::FILE
        }),
    }
}

/// What `Tlopen` does on the host: nothing for a directory, which is only
/// marked as open, and for any other file an open with these flags.
pub fn open_flags(qid: &Qid, flags: u32) -> (host: Option<u32>)
    ensures
        host == (if qid.typ.bits & QidType::DIR == QidType::DIR {
            None
        } else {
            Some(flags & UNIX_FLAGS)
        }),
        host matches Some(h) ==> h & !UNIX_FLAGS == 0,
{
    if qid.typ.contains(QidType::DIR) {
        None
    } else {
        Some(host_flags(flags))
    }
}

/// An operation on the open file of a fid.
#[derive(Clone, Copy, Debug, PartialEq, Eq, Structural)]
pub enum FileOp {
    Read,
    Write,
    Fsync,
}

/// The error of an operation on a fid that was not opened: `EBADF` for a
/// sync, an invalid input for a read or a write.
pub fn not_open(op: FileOp) -> (e: Error)
    ensures
        e == (match op {
            FileOp::Fsync => Error::No(EBADF),
            _ => Error::Io(IoError { raw_os_error: None, kind: IoErrorKind::InvalidInput }),
        }),
{
    match op {
        FileOp::Fsync => Error::No(EBADF),
        _ => Error::Io(IoError { raw_os_error: None, kind: IoErrorKind::InvalidInput }),
    }
}

/// The bytes that a read or a write of `n` bytes moved, of those of `buf`:
/// the first `n`, or all where there are no more.
pub open spec fn moved(buf: Seq<u8>, n: int) -> Seq<u8> {
    if n < buf.len() {
        buf.take(n)
    } else {
        buf
    }
}

/// The reply to a read for which the host filled the first `n` bytes of
/// `buf`: a read may return fewer bytes than were asked for.
pub fn rread_reply(buf: Vec<u8>, n: usize) -> (reply: Fcall)
    ensures
        reply@ == (FcallView::Rread { data: moved(buf@, n as int) }),
{
    let ghost whole = buf@;
    let mut buf = buf;
    buf.truncate(n);
    assert(buf@ =~= moved(whole, n as int));
    Fcall::Rread { data: Data(buf) }
}

/// The reply to a write of which the host took `n` bytes. The count
/// travels in 32 bits.
pub fn rwrite_reply(n: usize) -> (reply: Fcall)
    ensures
        reply@ == (FcallView::Rwrite { count: (n as u64 & 0xffff_ffff) as u32 }),
{
    let low = n as u64 & 0xffff_ffff;
    assert(low <= 0xffff_ffff) by (bit_vector)
        requires
            low == n as u64 & 0xffff_ffff,
    ;
    Fcall::Rwrite { count: low as u32 }
}

/// The file system record for what `statvfs` told of the host. The type of
/// the file system is not told and is reported as zero.
pub fn statfs_from(
    block_size: u64,
    blocks: u64,
    blocks_free: u64,
    blocks_available: u64,
    files: u64,
    files_free: u64,
    filesystem_id: u64,
    name_max: u64,
) -> (statfs: Statfs)
    ensures
        statfs == (Statfs {
            typ: 0,
            bsize: (block_size & 0xffff_ffff) as u32,
            blocks,
            bfree: blocks_free,
            bavail: blocks_available,
            files,
            ffree: files_free,
            fsid: filesystem_id,
            namelen: (name_max & 0xffff_ffff) as u32,
        }),
{
    assert(block_size & 0xffff_ffff <= 0xffff_ffff) by (bit_vector);
    assert(name_max & 0xffff_ffff <= 0xffff_ffff) by (bit_vector);
    Statfs {
        typ: 0,
        bsize: (block_size & 0xffff_ffff) as u32,
        blocks,
        bfree: blocks_free,
        bavail: blocks_available,
        files,
        ffree: files_free,
        fsid: filesystem_id,
        namelen: (name_max & 0xffff_ffff) as u32,
    }
}

// Changes of attributes

/// One change that `Tsetattr` makes on the host.
#[derive(Clone, Copy, Debug, PartialEq, Eq, Structural)]
pub enum SetattrOp {
    /// Change the permissions.
    Chmod { mode: u32 },
    /// Change the owner, the group, or both.
    Chown { uid: Option<u32>, gid: Option<u32> },
    /// Change the length of the file, which must exist.
    Truncate { size: u64 },
    /// Change the times of last access and modification; a time that is not
    /// given stays as it is.
    SetTimes { atime: Option<Time>, mtime: Option<Time> },
}

/// Whether `bits` has every bit of `mask`.
pub open spec fn has(bits: u32, mask: u32) -> bool {
    bits & mask == mask
}

/// The changes that a `Tsetattr` asks for, in the order in which they are
/// made: permissions, ownership, length, times. A change is made only if
/// its bit is set in `valid`; the time of the last status change cannot be
/// set.
pub open spec fn setattr_ops(valid: SetattrMask, stat: SetAttr) -> Seq<SetattrOp> {
    let v = valid.bits;
    let chmod = if has(v, SetattrMask::MODE) {
        seq![SetattrOp::Chmod { mode: stat.mode }]
    } else {
        Seq::empty()
    };
    let chown = if has(v, SetattrMask::UID) || has(v, SetattrMask::GID) {
        seq![
            SetattrOp::Chown {
                uid: if has(v, SetattrMask::UID) {
                    Some(stat.uid)
                } else {
                    None
                },
                gid: if has(v, SetattrMask::GID) {
                    Some(stat.gid)
                } else {
                    None
                },
            },
        ]
    } else {
        Seq::empty()
    };
    let truncate = if has(v, SetattrMask::SIZE) {
        seq![SetattrOp::Truncate { size: stat.size }]
    } else {
        Seq::empty()
    };
    let times = if has(v, SetattrMask::ATIME_SET) || has(v, SetattrMask::MTIME_SET) {
        seq![
            SetattrOp::SetTimes {
                atime: if has(v, SetattrMask::ATIME_SET) {
                    Some(stat.atime)
                } else {
                    None
                },
                mtime: if has(v, SetattrMask::MTIME_SET) {
                    Some(stat.mtime)
                } else {
                    None
                },
            },
        ]
    } else {
        Seq::empty()
    };
    chmod + chown + truncate + times
}

/// The changes that a `Tsetattr` asks for, in the order in which they are
/// made.
pub fn setattr_plan(valid: SetattrMask, stat: &SetAttr) -> (ops: Vec<SetattrOp>)
    ensures
        ops@ == setattr_ops(valid, *stat),
{
    let mut ops: Vec<SetattrOp> = Vec::new();
    if valid.contains(SetattrMask::MODE) {
        ops.push(SetattrOp::Chmod { mode: stat.mode });
    }
    let set_uid = valid.contains(SetattrMask::UID);
    let set_gid = valid.contains(SetattrMask::GID);
    if set_uid || set_gid {
        let uid = if set_uid {
            Some(stat.uid)
        } else {
            None
        };
        let gid = if set_gid {
            Some(stat.gid)
        } else {
            None
        };
        ops.push(SetattrOp::Chown { uid, gid });
    }
    if valid.contains(SetattrMask::SIZE) {
        ops.push(SetattrOp::Truncate { size: stat.size });
    }
    let set_atime = valid.contains(SetattrMask::ATIME_SET);
    let set_mtime = valid.contains(SetattrMask::MTIME_SET);
    if set_atime || set_mtime {
        let atime = if set_atime {
            Some(stat.atime)
        } else {
            None
        };
        let mtime = if set_mtime {
            Some(stat.mtime)
        } else {
            None
        };
        ops.push(SetattrOp::SetTimes { atime, mtime });
    }
    assert(ops@ =~= setattr_ops(valid, *stat));
    ops
}

// Walks

/// A walk in progress: the qids of the names looked up so far, and how the
/// walk stands.
#[derive(Debug)]
pub struct Walk {
    names: usize,
    wqids: Vec<Qid>,
    failure: Option<Error>,
    stopped: bool,
}

/// The mathematical value of a walk in progress.
pub struct WalkView {
    /// The number of names to look up.
    pub names: nat,
    /// The qids of the names that were found.
    pub wqids: Seq<Qid>,
    /// The error of the first name, if it was not found.
    pub failure: Option<Error>,
    /// Whether a name after the first was not found.
    pub stopped: bool,
}

impl WalkView {
    /// A walk over `names` names of which none was looked up yet.
    pub open spec fn start(names: nat) -> WalkView {
        WalkView { names, wqids: Seq::empty(), failure: None, stopped: false }
    }

    /// Whether the walk goes on to another name.
    pub open spec fn goes_on(self) -> bool {
        self.failure is None && !self.stopped && self.wqids.len() < self.names
    }

    /// The walk after the answer of the host for the next name. The first
    /// name failing fails the walk; a later name failing ends it with the
    /// qids found so far.
    pub open spec fn record(self, lookup: Result<Qid, Error>) -> WalkView {
        if !self.goes_on() {
            self
        } else {
            match lookup {
                Ok(qid) => WalkView { wqids: self.wqids.push(qid), ..self },
                Err(e) => if self.wqids.len() == 0 {
                    WalkView { failure: Some(e), ..self }
                } else {
                    WalkView { stopped: true, ..self }
                },
            }
        }
    }

    /// The walk after the answers of the host for one name after the other.
    pub open spec fn record_all(self, lookups: Seq<Result<Qid, Error>>) -> WalkView
        decreases lookups.len(),
    {
        if lookups.len() == 0 {
            self
        } else {
            self.record_all(lookups.drop_last()).record(lookups.last())
        }
    }

    /// The outcome of the walk: the error of the first name, or the qids
    /// found.
    pub open spec fn outcome(self) -> Result<FcallView, Error> {
        match self.failure {
            Some(e) => Err(e),
            None => Ok(FcallView::Rwalk { wqids: self.wqids }),
        }
    }
}

impl View for Walk {
    type V = WalkView;

    closed spec fn view(&self) -> WalkView {
        WalkView {
            names: self.names as nat,
            wqids: self.wqids@,
            failure: self.failure,
            stopped: self.stopped,
        }
    }
}

impl Walk {
    /// Begins a walk over `names` names.
    pub fn new(names: usize) -> (walk: Walk)
        ensures
            walk@ == WalkView::start(names as nat),
    {
        Walk { names, wqids: Vec::new(), failure: None, stopped: false }
    }

    /// The index of the name to look up next, if the walk goes on.
    pub fn next(&self) -> (index: Option<usize>)
        ensures
            index is Some <==> self@.goes_on(),
            index matches Some(i) ==> i == self@.wqids.len(),
    {
        if self.failure.is_none() && !self.stopped && self.wqids.len() < self.names {
            Some(self.wqids.len())
        } else {
            None
        }
    }

    /// Takes the answer of the host for the next name.
    pub fn record(&mut self, lookup: Result<Qid, Error>)
        ensures
            final(self)@ == old(self)@.record(lookup),
    {
        if self.next().is_none() {
            return ;
        }
        match lookup {
            Ok(qid) => {
                self.wqids.push(qid);
            },
            Err(e) => {
                if self.wqids.len() == 0 {
                    self.failure = Some(e);
                } else {
                    self.stopped = true;
                }
            },
        }
    }

    /// The outcome of the walk.
    pub fn finish(self) -> (res: Result<Fcall, Error>)
        ensures
            match res {
                Ok(reply) => self@.outcome() == Ok::<FcallView, Error>(reply@),
                Err(e) => self@.outcome() == Err::<FcallView, Error>(e),
            },
    {
        match self.failure {
            Some(e) => Err(e),
            None => {
                assert(self.wqids.deep_view() =~= self.wqids@);
                Ok(Fcall::Rwalk { wqids: self.wqids })
            },
        }
    }
}

/// The answers of the host up to `n` are all qids.
pub open spec fn all_found(lookups: Seq<Result<Qid, Error>>, n: int) -> bool {
    forall|i: int| 0 <= i < n ==> (#[trigger] lookups[i]) is Ok
}

/// The qids of the first `n` answers.
pub open spec fn found(lookups: Seq<Result<Qid, Error>>, n: int) -> Seq<Qid> {
    Seq::new(n as nat, |i: int| lookups[i]->Ok_0)
}

/// A walk whose names are all found returns the qid of each, in order.
pub proof fn lemma_walk_complete(lookups: Seq<Result<Qid, Error>>)
    requires
        all_found(lookups, lookups.len() as int),
    ensures
        WalkView::start(lookups.len()).record_all(lookups).outcome() == Ok::<FcallView, Error>(
            FcallView::Rwalk { wqids: found(lookups, lookups.len() as int) },
        ),
{
    lemma_walk_prefix(lookups.len(), lookups, lookups.len() as int);
    assert(lookups.take(lookups.len() as int) =~= lookups);
}

/// As long as names are found the walk collects their qids and goes on.
proof fn lemma_walk_prefix(names: nat, lookups: Seq<Result<Qid, Error>>, n: int)
    requires
        0 <= n <= lookups.len(),
        n <= names,
        all_found(lookups, n),
    ensures
        WalkView::start(names).record_all(lookups.take(n)) == (WalkView {
            names,
            wqids: found(lookups, n),
            failure: None,
            stopped: false,
        }),
    decreases n,
{
    if n == 0 {
        assert(found(lookups, 0) =~= Seq::<Qid>::empty());
    } else {
        lemma_walk_prefix(names, lookups, n - 1);
        assert(lookups.take(n).drop_last() =~= lookups.take(n - 1));
        assert(lookups.take(n).last() == lookups[n - 1]);
        assert(found(lookups, n) =~= found(lookups, n - 1).push(lookups[n - 1]->Ok_0));
    }
}

/// A walk ends at the first name that is not found. If that is the first
/// name of all, the walk fails with the error of the host. If it is a later
/// one, the walk returns the qids of the names before it, and so fewer qids
/// than there are names.
pub proof fn lemma_walk_ends_at_first_failure(
    names: nat,
    lookups: Seq<Result<Qid, Error>>,
    j: int,
)
    requires
        0 <= j < lookups.len(),
        lookups.len() <= names,
        all_found(lookups, j),
        lookups[j] is Err,
    ensures
        j == 0 ==> WalkView::start(names).record_all(lookups).outcome() == Err::<
            FcallView,
            Error,
        >(lookups[0]->Err_0),
        j > 0 ==> WalkView::start(names).record_all(lookups).outcome() == Ok::<FcallView, Error>(
            FcallView::Rwalk { wqids: found(lookups, j) },
        ),
        !WalkView::start(names).record_all(lookups).goes_on(),
{
    lemma_walk_prefix(names, lookups, j);
    lemma_walk_stays(names, lookups, j + 1);
    assert(lookups.take(j + 1).drop_last() =~= lookups.take(j));
    assert(lookups.take(j + 1).last() == lookups[j]);
}

/// A walk whose names are all found makes its new fid known to the server.
pub proof fn lemma_complete_walk_publishes(
    known: Set<u32>,
    fid: u32,
    newfid: u32,
    wnames: Seq<Seq<char>>,
    lookups: Seq<Result<Qid, Error>>,
)
    requires
        lookups.len() == wnames.len(),
        all_found(lookups, lookups.len() as int),
    ensures
        WalkView::start(wnames.len()).record_all(lookups).outcome() matches Ok(reply)
            && fids_after(known, FcallView::Twalk { fid, newfid, wnames }, reply) == known.insert(
            newfid,
        ),
{
    lemma_walk_complete(lookups);
}

/// A walk that ends before its last name answers with the qids it found
/// and makes no fid known to the server: the new fid stays unknown unless
/// it was known before.
pub proof fn lemma_short_walk_publishes_nothing(
    known: Set<u32>,
    fid: u32,
    newfid: u32,
    wnames: Seq<Seq<char>>,
    lookups: Seq<Result<Qid, Error>>,
    j: int,
)
    requires
        0 < j < lookups.len(),
        lookups.len() <= wnames.len(),
        all_found(lookups, j),
        lookups[j] is Err,
    ensures
        WalkView::start(wnames.len()).record_all(lookups).outcome() == Ok::<FcallView, Error>(
            FcallView::Rwalk { wqids: found(lookups, j) },
        ),
        fids_after(
            known,
            FcallView::Twalk { fid, newfid, wnames },
            FcallView::Rwalk { wqids: found(lookups, j) },
        ) == known,
{
    lemma_walk_ends_at_first_failure(wnames.len(), lookups, j);
}

/// Once a walk has ended, further answers change nothing.
proof fn lemma_walk_stays(names: nat, lookups: Seq<Result<Qid, Error>>, n: int)
    requires
        0 <= n <= lookups.len(),
        !WalkView::start(names).record_all(lookups.take(n)).goes_on(),
    ensures
        WalkView::start(names).record_all(lookups) == WalkView::start(names).record_all(
            lookups.take(n),
        ),
    decreases lookups.len() - n,
{
    if n < lookups.len() {
        assert(lookups.take(n + 1).drop_last() =~= lookups.take(n));
        lemma_walk_stays(names, lookups, n + 1);
    } else {
        assert(lookups.take(n) =~= lookups);
    }
}

// Directory reads

/// An entry of a directory of the host.
#[derive(Clone, Debug, PartialEq, Eq, Hash)]
pub struct HostEntry {
    pub qid: Qid,
    pub name: String,
}

/// The mathematical value of a `HostEntry`.
pub struct HostEntryView {
    pub qid: Qid,
    pub name: Seq<char>,
}

impl View for HostEntry {
    type V = HostEntryView;

    open spec fn view(&self) -> HostEntryView {
        HostEntryView { qid: self.qid, name: self.name@ }
    }
}

impl DeepView for HostEntry {
    type V = HostEntryView;

    open spec fn deep_view(&self) -> HostEntryView {
        self.view()
    }
}

/// The offset under which entry `i` of the host is handed out. The offsets
/// 0 and 1 are those of `.` and `..`; the host's entries follow from 2.
pub open spec fn host_offset(i: int) -> u64 {
    (i as u64).wrapping_add(2)
}

/// Entry `i` of the host as it is handed out.
pub open spec fn host_dirent(host: Seq<HostEntryView>, i: int) -> DirEntryView {
    DirEntryView { qid: host[i].qid, offset: host_offset(i), typ: 0, name: host[i].name }
}

/// The entries of the host from entry `from` on.
pub open spec fn host_listing(host: Seq<HostEntryView>, from: int) -> Seq<DirEntryView> {
    if 0 <= from < host.len() {
        Seq::new((host.len() - from) as nat, |k: int| host_dirent(host, from + k))
    } else {
        Seq::empty()
    }
}

/// The entries `.` and `..`.
pub open spec fn dot_entries(dot: Qid, dotdot: Qid) -> Seq<DirEntryView> {
    seq![
        DirEntryView { qid: dot, offset: 0, typ: 0, name: "."@ },
        DirEntryView { qid: dotdot, offset: 1, typ: 0, name: ".."@ },
    ]
}

/// What there is to read of a directory at offset `off`. At offset 0 it is
/// `.`, `..` and every entry of the host; at a later offset it is the
/// entries of the host from entry `off - 1` on.
pub open spec fn listing(off: u64, dot: Qid, dotdot: Qid, host: Seq<HostEntryView>) -> Seq<
    DirEntryView,
> {
    if off == 0 {
        dot_entries(dot, dotdot) + host_listing(host, 0)
    } else {
        host_listing(host, off - 1)
    }
}

/// How many of the entries, from the first on, take no more than `count`
/// bytes together.
pub open spec fn fitting(entries: Seq<DirEntryView>, count: int) -> nat
    decreases entries.len(),
{
    if entries.len() == 0 || entries[0].size() > count {
        0
    } else {
        1 + fitting(entries.drop_first(), count - entries[0].size())
    }
}

/// What a read of a directory at offset `off` returns: of what there is to
/// read, as many entries as fit in `count` bytes.
pub open spec fn readdir_entries(
    off: u64,
    count: u32,
    dot: Qid,
    dotdot: Qid,
    host: Seq<HostEntryView>,
) -> Seq<DirEntryView> {
    let all = listing(off, dot, dotdot, host);
    all.take(fitting(all, count as int) as int)
}

/// Adds `entry` if it takes no more than `room` bytes.
fn push_if_fits(data: &mut DirEntryData, room: &mut u64, entry: DirEntry) -> (pushed: bool)
    ensures
        pushed == (entry@.size() <= *old(room)),
        pushed ==> final(data)@ == old(data)@.push(entry@) && *final(room) == *old(room)
            - entry@.size(),
        !pushed ==> final(data)@ == old(data)@ && *final(room) == *old(room),
{
    let len: u64 = entry.name.as_str().as_bytes().len() as u64;
    match len.checked_add(DIRENT_FIXED_SIZE as u64) {
        Some(size) => {
            if size <= *room {
                *room = *room - size;
                data.push(entry);
                true
            } else {
                false
            }
        },
        None => false,
    }
}

/// Reads a directory at offset `off`: `dot` and `dotdot` are the qids of
/// the directory and of its parent, `host` the entries of the host.
pub fn readdir(off: u64, count: u32, dot: Qid, dotdot: Qid, host: &Vec<HostEntry>) -> (data:
    DirEntryData)
    ensures
        data@ == readdir_entries(off, count, dot, dotdot, host.deep_view()),
        dirents_size(data@) <= count,
{
    let ghost hv = host.deep_view();
    let ghost all = listing(off, dot, dotdot, hv);
    let mut data = DirEntryData::new();
    let mut room: u64 = count as u64;
    let ghost mut k: int = 0;
    let mut i: usize = 0;
    assert(all.take(0) =~= Seq::<DirEntryView>::empty());
    assert(all.skip(0) =~= all);
    if off == 0 {
        let e = DirEntry { qid: dot, offset: 0, typ: 0, name: ".".to_owned() };
        assert(all[0] == e@);
        if !push_if_fits(&mut data, &mut room, e) {
            return data;
        }
        proof {
            lemma_size_push(all.take(0), all[0]);
            assert(all.take(1) =~= all.take(0).push(all[0]));
            assert(all.drop_first() =~= all.skip(1));
            assert(fitting(all, count as int) == 1 + fitting(all.skip(1), room as int));
        }
        let e = DirEntry { qid: dotdot, offset: 1, typ: 0, name: "..".to_owned() };
        assert(all.skip(1)[0] == e@);
        if !push_if_fits(&mut data, &mut room, e) {
            return data;
        }
        proof {
            k = 2;
            lemma_size_push(all.take(1), all[1]);
            assert(all.take(2) =~= all.take(1).push(all[1]));
            assert(all.skip(1).drop_first() =~= all.skip(2));
            assert(all.skip(2) =~= host_listing(hv, 0));
        }
    } else {
        if off - 1 >= host.len() as u64 {
            return data;
        }
        i = (off - 1) as usize;
    }
    while i < host.len()
        invariant
            hv == host.deep_view(),
            all == listing(off, dot, dotdot, hv),
            i <= host.len(),
            0 <= k <= all.len(),
            data@ == all.take(k),
            all.skip(k) == host_listing(hv, i as int),
            room == count - dirents_size(data@),
            fitting(all, count as int) == k + fitting(all.skip(k), room as int),
        decreases host.len() - i,
    {
        let e = DirEntry {
            qid: host[i].qid,
            offset: (i as u64).wrapping_add(2),
            typ: 0,
            name: host[i].name.clone(),
        };
        proof {
            assert(all.skip(k)[0] == host_dirent(hv, i as int));
            assert(hv[i as int] == host[i as int]@);
            assert(e@ == all[k]);
            assert(all.skip(k).drop_first() =~= all.skip(k + 1));
            assert(all.take(k + 1) =~= all.take(k).push(all[k]));
            assert(all.skip(k + 1) =~= host_listing(hv, i + 1));
            lemma_size_push(all.take(k), all[k]);
        }
        if !push_if_fits(&mut data, &mut room, e) {
            return data;
        }
        proof {
            k = k + 1;
        }
        i = i + 1;
    }
    assert(all.take(k) =~= all.take(fitting(all, count as int) as int));
    data
}

/// One more entry takes its size more.
proof fn lemma_size_push(entries: Seq<DirEntryView>, e: DirEntryView)
    ensures
        dirents_size(entries.push(e)) == dirents_size(entries) + e.size(),
{
    assert(entries.push(e).drop_last() =~= entries);
}

/// The size of entries is that of the first and that of the others.
proof fn lemma_size_first(entries: Seq<DirEntryView>)
    requires
        entries.len() > 0,
    ensures
        dirents_size(entries) == entries[0].size() + dirents_size(entries.drop_first()),
    decreases entries.len(),
{
    if entries.len() == 1 {
        assert(entries.drop_last() =~= Seq::<DirEntryView>::empty());
        assert(entries.drop_first() =~= Seq::<DirEntryView>::empty());
    } else {
        let init = entries.drop_last();
        lemma_size_first(init);
        assert(entries.drop_first().drop_last() =~= init.drop_first());
        assert(entries.drop_first().last() == entries.last());
    }
}

/// A read with room for everything returns everything there is to read.
pub proof fn lemma_fitting_all(entries: Seq<DirEntryView>, count: int)
    requires
        dirents_size(entries) <= count,
    ensures
        fitting(entries, count) == entries.len(),
    decreases entries.len(),
{
    if entries.len() > 0 {
        lemma_size_first(entries);
        lemma_fitting_all(entries.drop_first(), count - entries[0].size());
    }
}

/// What a read returns takes no more than `count` bytes, and the entry
/// after it, if there is one, would not fit any more.
pub proof fn lemma_fitting_is_longest(entries: Seq<DirEntryView>, count: int)
    requires
        0 <= count,
    ensures
        fitting(entries, count) <= entries.len(),
        dirents_size(entries.take(fitting(entries, count) as int)) <= count,
        fitting(entries, count) < entries.len() ==> dirents_size(
            entries.take(fitting(entries, count) as int + 1),
        ) > count,
    decreases entries.len(),
{
    if entries.len() == 0 || entries[0].size() > count {
        assert(entries.take(0) =~= Seq::<DirEntryView>::empty());
        if entries.len() > 0 {
            lemma_size_first(entries.take(1));
        }
    } else {
        let rest = entries.drop_first();
        let n = fitting(rest, count - entries[0].size()) as int;
        lemma_fitting_is_longest(rest, count - entries[0].size());
        lemma_size_first(entries.take(n + 1));
        assert(entries.take(n + 1).drop_first() =~= rest.take(n));
        if n < rest.len() {
            lemma_size_first(entries.take(n + 2));
            assert(entries.take(n + 2).drop_first() =~= rest.take(n + 1));
        }
    }
}

/// Every entry of a directory read from its start is handed out under its
/// place in the listing as offset.
pub proof fn lemma_offsets_count_up(dot: Qid, dotdot: Qid, host: Seq<HostEntryView>, i: int)
    requires
        host.len() + 2 <= u64::MAX,
        0 <= i < listing(0, dot, dotdot, host).len(),
    ensures
        listing(0, dot, dotdot, host).len() == host.len() + 2,
        listing(0, dot, dotdot, host)[i].offset == i,
{
}

/// A read from the start of a directory with room for `.` and `..` begins
/// with `.` under offset 0 and `..` under offset 1, whatever the host
/// holds.
pub proof fn lemma_readdir_begins_with_dots(
    count: u32,
    dot: Qid,
    dotdot: Qid,
    host: Seq<HostEntryView>,
)
    requires
        dirents_size(dot_entries(dot, dotdot)) <= count,
    ensures
        readdir_entries(0, count, dot, dotdot, host).len() >= 2,
        readdir_entries(0, count, dot, dotdot, host).take(2) == dot_entries(dot, dotdot),
        host.len() == 0 ==> readdir_entries(0, count, dot, dotdot, host) == dot_entries(
            dot,
            dotdot,
        ),
{
    let dots = dot_entries(dot, dotdot);
    let all = listing(0, dot, dotdot, host);
    lemma_size_first(dots);
    lemma_size_first(dots.drop_first());
    assert(dots.drop_first().drop_first() =~= Seq::<DirEntryView>::empty());
    assert(dots.drop_first()[0] == dots[1]);
    assert(dirents_size(dots.drop_first().drop_first()) == 0);
    assert(dirents_size(dots) == dots[0].size() + dots[1].size());
    let rest = all.drop_first();
    assert(all.len() == 2 + host_listing(host, 0).len());
    assert(all[0] == dots[0]);
    assert(rest[0] == dots[1]);
    assert(fitting(all, count as int) == 1 + fitting(rest, count - dots[0].size()));
    assert(fitting(rest, count - dots[0].size()) == 1 + fitting(
        rest.drop_first(),
        count - dots[0].size() - dots[1].size(),
    ));
    lemma_fitting_is_longest(all, count as int);
    assert(all.take(fitting(all, count as int) as int).take(2) =~= dots);
    if host.len() == 0 {
        assert(all =~= dots);
        assert(all.take(fitting(all, count as int) as int) =~= dots);
    }
}

/// A read at an offset other than 0 hands out neither `.` nor `..` again:
/// what it returns are entries of the host, one after the other from entry
/// `off - 1` on, each under an offset of 2 or more. Past the last entry of
/// the host it returns nothing.
pub proof fn lemma_readdir_past_dots(
    off: u64,
    count: u32,
    dot: Qid,
    dotdot: Qid,
    host: Seq<HostEntryView>,
    i: int,
)
    requires
        off > 0,
        host.len() + 2 <= u64::MAX,
        0 <= i < readdir_entries(off, count, dot, dotdot, host).len(),
    ensures
        off - 1 + i < host.len(),
        readdir_entries(off, count, dot, dotdot, host)[i] == host_dirent(host, off - 1 + i),
        readdir_entries(off, count, dot, dotdot, host)[i].offset == off + 1 + i,
{
    let all = listing(off, dot, dotdot, host);
    lemma_fitting_is_longest(all, count as int);
}

/// A read that begins past the last entry of the host returns nothing.
pub proof fn lemma_readdir_ends(
    off: u64,
    count: u32,
    dot: Qid,
    dotdot: Qid,
    host: Seq<HostEntryView>,
)
    requires
        off > host.len(),
    ensures
        readdir_entries(off, count, dot, dotdot, host).len() == 0,
{
}

/// A read that goes on from the offset of the last entry it was given
/// finds what the read before it left, no entry twice and none left out.
pub proof fn lemma_readdir_resumes(
    off: u64,
    count: u32,
    dot: Qid,
    dotdot: Qid,
    host: Seq<HostEntryView>,
)
    requires
        host.len() + 2 <= u64::MAX,
        readdir_entries(off, count, dot, dotdot, host).len() > 0,
        readdir_entries(off, count, dot, dotdot, host).last().offset > 0,
    ensures
        listing(readdir_entries(off, count, dot, dotdot, host).last().offset, dot, dotdot, host)
            == listing(off, dot, dotdot, host).skip(
            readdir_entries(off, count, dot, dotdot, host).len() as int,
        ),
{
    let all = listing(off, dot, dotdot, host);
    let reply = readdir_entries(off, count, dot, dotdot, host);
    lemma_fitting_is_longest(all, count as int);
    let n = reply.len() as int;
    assert(reply.last() == all[n - 1]);
    let next = reply.last().offset;
    assert(listing(next, dot, dotdot, host) =~= all.skip(n));
}


/// What `rounds` reads of a directory return one after the other, the first
/// at offset `off` and each later one at the offset of the last entry that
/// the read before it returned, up to the first read that returns nothing.
pub open spec fn enumeration(
    off: u64,
    count: u32,
    dot: Qid,
    dotdot: Qid,
    host: Seq<HostEntryView>,
    rounds: nat,
) -> Seq<DirEntryView>
    decreases rounds,
{
    let reply = readdir_entries(off, count, dot, dotdot, host);
    if rounds == 0 || reply.len() == 0 {
        Seq::empty()
    } else {
        reply + enumeration(reply.last().offset, count, dot, dotdot, host, (rounds - 1) as nat)
    }
}

/// Whether a read of `count` bytes has room for `.` and `..` together and
/// for each entry of the host by itself, so that every read gets on.
pub open spec fn gets_on(count: u32, dot: Qid, dotdot: Qid, host: Seq<HostEntryView>) -> bool {
    &&& dirents_size(dot_entries(dot, dotdot)) <= count
    &&& forall|i: int| 0 <= i < host.len() ==> (#[trigger] host_dirent(host, i)).size() <= count
}

/// Reads that go on from offset `off`, each with room to get on, return
/// what there is to read at `off`.
proof fn lemma_enumeration_from(
    off: u64,
    count: u32,
    dot: Qid,
    dotdot: Qid,
    host: Seq<HostEntryView>,
    rounds: nat,
)
    requires
        host.len() + 2 <= u64::MAX,
        gets_on(count, dot, dotdot, host),
        rounds >= listing(off, dot, dotdot, host).len(),
    ensures
        enumeration(off, count, dot, dotdot, host, rounds) == listing(off, dot, dotdot, host),
    decreases rounds,
{
    let all = listing(off, dot, dotdot, host);
    let reply = readdir_entries(off, count, dot, dotdot, host);
    lemma_fitting_is_longest(all, count as int);
    if all.len() == 0 {
        assert(enumeration(off, count, dot, dotdot, host, rounds) =~= all);
    } else {
        if off == 0 {
            lemma_readdir_begins_with_dots(count, dot, dotdot, host);
            lemma_offsets_count_up(dot, dotdot, host, reply.len() - 1);
        } else {
            assert(all[0] == host_dirent(host, off - 1));
            assert(fitting(all, count as int) >= 1);
            lemma_readdir_past_dots(off, count, dot, dotdot, host, reply.len() - 1);
        }
        let next = reply.last().offset;
        lemma_readdir_resumes(off, count, dot, dotdot, host);
        lemma_enumeration_from(next, count, dot, dotdot, host, (rounds - 1) as nat);
        assert(reply + all.skip(reply.len() as int) =~= all);
    }
}

/// Reads of a directory that begin at offset 0 and go on, each from the
/// offset of the last entry that the read before it returned, hand out `.`,
/// `..` and the entries of the host, each once and in this order, as long
/// as every read has room to get on. No more reads are needed than there
/// are entries.
pub proof fn lemma_readdir_enumerates(
    count: u32,
    dot: Qid,
    dotdot: Qid,
    host: Seq<HostEntryView>,
    rounds: nat,
)
    requires
        host.len() + 2 <= u64::MAX,
        gets_on(count, dot, dotdot, host),
        rounds >= host.len() + 2,
    ensures
        enumeration(0, count, dot, dotdot, host, rounds) == dot_entries(dot, dotdot)
            + host_listing(host, 0),
{
    lemma_enumeration_from(0, count, dot, dotdot, host, rounds);
}

} // verus!
