//! Server side 9P library.
//!
//! A connection owns a table of fids. Each request is handed to the
//! [`Filesystem`] that serves the connection; the table follows the outcome.
//!
//! # Protocol
//! 9P2000.L

use std::collections::HashMap;
use vstd::prelude::*;
use crate::error::{DecodeError, Error, EBADF, EOPNOTSUPP};
use crate::fcall::{
    Data, Fcall, FcallView, Flock, GetattrMask, Getlock, Msg, MsgType, MsgView, SetAttr,
    SetattrMask, NOFID, P92000L, VERSION_UNKNOWN,
};
use crate::serialize::{read_frame, write_frame, Decoder};
use crate::wire::{take_frame, wire_frame, Cur};

verus! {

/// Represents a fid of clients holding associated `Filesystem::Fid`.
#[derive(Clone, Debug, PartialEq, Eq, Hash)]
pub struct Fid<T> {
    /// Raw client side fid.
    fid: u32,
    /// `Filesystem::Fid` associated with this fid.
    /// Changing this value affects the continuous callbacks.
    pub aux: T,
}

impl<T> Fid<T> {
    /// The raw fid.
    pub closed spec fn raw(&self) -> u32 {
        self.fid
    }

    /// Get the raw fid.
    pub fn fid(&self) -> (fid: u32)
        ensures
            fid == self.raw(),
    {
        self.fid
    }
}

/// The answer to `Tversion` of a server that speaks 9P2000.L and nothing
/// else: the client's message size, and the client's version if it is
/// 9P2000.L, else "unknown".
pub open spec fn version_reply(msize: u32, ver: Seq<char>) -> FcallView {
    FcallView::Rversion {
        msize,
        version: if ver == P92000L@ {
            ver
        } else {
            VERSION_UNKNOWN@
        },
    }
}

/// The answer to `Tversion` of a server that speaks 9P2000.L and nothing
/// else.
pub fn rversion_reply(msize: u32, ver: &str) -> (reply: Fcall)
    ensures
        reply@ == version_reply(msize, ver@),
{
    let version = if ver.to_owned() == P92000L.to_owned() {
        ver.to_owned()
    } else {
        VERSION_UNKNOWN.to_owned()
    };
    Fcall::Rversion { msize, version }
}

/// Filesystem server trait.
///
/// Implementors can represent an error condition by returning an `Err`.
/// Otherwise, they must return `Fcall` with the required fields filled.
///
/// The default implementation, returning EOPNOTSUPP error, is provided to the all methods
/// except Rversion.
/// The default implementation of Rversion returns a message accepting 9P2000.L.
///
/// # Protocol
/// 9P2000.L
pub trait Filesystem {
    /// User defined fid type to be associated with a client's fid.
    type Fid: Default;

    fn rstatfs(&self, _fid: &Fid<Self::Fid>) -> (res: Result<Fcall, Error>)
        ensures
            !self.answers(MsgType::Tstatfs) ==> not_supported(res),
    {
        Err(Error::No(EOPNOTSUPP))
    }

    fn rlopen(&self, _fid: &Fid<Self::Fid>, _flags: u32) -> (res: Result<Fcall, Error>)
        ensures
            !self.answers(MsgType::Tlopen) ==> not_supported(res),
    {
        Err(Error::No(EOPNOTSUPP))
    }

    fn rlcreate(
        &self,
        _fid: &Fid<Self::Fid>,
        _name: &str,
        _flags: u32,
        _mode: u32,
        _gid: u32,
    ) -> (res: Result<Fcall, Error>)
        ensures
            !self.answers(MsgType::Tlcreate) ==> not_supported(res),
    {
        Err(Error::No(EOPNOTSUPP))
    }

    fn rsymlink(
        &self,
        _fid: &Fid<Self::Fid>,
        _name: &str,
        _sym: &str,
        _gid: u32,
    ) -> (res: Result<Fcall, Error>)
        ensures
            !self.answers(MsgType::Tsymlink) ==> not_supported(res),
    {
        Err(Error::No(EOPNOTSUPP))
    }

    fn rmknod(
        &self,
        _dfid: &Fid<Self::Fid>,
        _name: &str,
        _mode: u32,
        _major: u32,
        _minor: u32,
        _gid: u32,
    ) -> (res: Result<Fcall, Error>)
        ensures
            !self.answers(MsgType::Tmknod) ==> not_supported(res),
    {
        Err(Error::No(EOPNOTSUPP))
    }

    fn rrename(
        &self,
        _fid: &Fid<Self::Fid>,
        _dfid: &Fid<Self::Fid>,
        _name: &str,
    ) -> (res: Result<Fcall, Error>)
        ensures
            !self.answers(MsgType::Trename) ==> not_supported(res),
    {
        Err(Error::No(EOPNOTSUPP))
    }

    fn rreadlink(&self, _fid: &Fid<Self::Fid>) -> (res: Result<Fcall, Error>)
        ensures
            !self.answers(MsgType::Treadlink) ==> not_supported(res),
    {
        Err(Error::No(EOPNOTSUPP))
    }

    fn rgetattr(
        &self,
        _fid: &Fid<Self::Fid>,
        _req_mask: GetattrMask,
    ) -> (res: Result<Fcall, Error>)
        ensures
            !self.answers(MsgType::Tgetattr) ==> not_supported(res),
    {
        Err(Error::No(EOPNOTSUPP))
    }

    fn rsetattr(
        &self,
        _fid: &Fid<Self::Fid>,
        _valid: SetattrMask,
        _stat: &SetAttr,
    ) -> (res: Result<Fcall, Error>)
        ensures
            !self.answers(MsgType::Tsetattr) ==> not_supported(res),
    {
        Err(Error::No(EOPNOTSUPP))
    }

    fn rxattrwalk(
        &self,
        _fid: &Fid<Self::Fid>,
        _newfid: &Fid<Self::Fid>,
        _name: &str,
    ) -> (res: Result<Fcall, Error>)
        ensures
            !self.answers(MsgType::Txattrwalk) ==> not_supported(res),
    {
        Err(Error::No(EOPNOTSUPP))
    }

    fn rxattrcreate(
        &self,
        _fid: &Fid<Self::Fid>,
        _name: &str,
        _attr_size: u64,
        _flags: u32,
    ) -> (res: Result<Fcall, Error>)
        ensures
            !self.answers(MsgType::Txattrcreate) ==> not_supported(res),
    {
        Err(Error::No(EOPNOTSUPP))
    }

    fn rreaddir(
        &self,
        _fid: &Fid<Self::Fid>,
        _offset: u64,
        _count: u32,
    ) -> (res: Result<Fcall, Error>)
        ensures
            !self.answers(MsgType::Treaddir) ==> not_supported(res),
    {
        Err(Error::No(EOPNOTSUPP))
    }

    fn rfsync(&self, _fid: &Fid<Self::Fid>) -> (res: Result<Fcall, Error>)
        ensures
            !self.answers(MsgType::Tfsync) ==> not_supported(res),
    {
        Err(Error::No(EOPNOTSUPP))
    }

    fn rlock(&self, _fid: &Fid<Self::Fid>, _lock: &Flock) -> (res: Result<Fcall, Error>)
        ensures
            !self.answers(MsgType::Tlock) ==> not_supported(res),
    {
        Err(Error::No(EOPNOTSUPP))
    }

    fn rgetlock(&self, _fid: &Fid<Self::Fid>, _lock: &Getlock) -> (res: Result<Fcall, Error>)
        ensures
            !self.answers(MsgType::Tgetlock) ==> not_supported(res),
    {
        Err(Error::No(EOPNOTSUPP))
    }

    fn rlink(
        &self,
        _dfid: &Fid<Self::Fid>,
        _fid: &Fid<Self::Fid>,
        _name: &str,
    ) -> (res: Result<Fcall, Error>)
        ensures
            !self.answers(MsgType::Tlink) ==> not_supported(res),
    {
        Err(Error::No(EOPNOTSUPP))
    }

    fn rmkdir(
        &self,
        _dfid: &Fid<Self::Fid>,
        _name: &str,
        _mode: u32,
        _gid: u32,
    ) -> (res: Result<Fcall, Error>)
        ensures
            !self.answers(MsgType::Tmkdir) ==> not_supported(res),
    {
        Err(Error::No(EOPNOTSUPP))
    }

    fn rrenameat(
        &self,
        _olddir: &Fid<Self::Fid>,
        _oldname: &str,
        _newdir: &Fid<Self::Fid>,
        _newname: &str,
    ) -> (res: Result<Fcall, Error>)
        ensures
            !self.answers(MsgType::Trenameat) ==> not_supported(res),
    {
        Err(Error::No(EOPNOTSUPP))
    }

    fn runlinkat(
        &self,
        _dir: &Fid<Self::Fid>,
        _name: &str,
        _flags: u32,
    ) -> (res: Result<Fcall, Error>)
        ensures
            !self.answers(MsgType::Tunlinkat) ==> not_supported(res),
    {
        Err(Error::No(EOPNOTSUPP))
    }

    fn rauth(
        &self,
        _afid: &Fid<Self::Fid>,
        _uname: &str,
        _aname: &str,
        _n_uname: u32,
    ) -> (res: Result<Fcall, Error>)
        ensures
            !self.answers(MsgType::Tauth) ==> not_supported(res),
    {
        Err(Error::No(EOPNOTSUPP))
    }

    fn rattach(
        &self,
        _fid: &Fid<Self::Fid>,
        _afid: Option<&Fid<Self::Fid>>,
        _uname: &str,
        _aname: &str,
        _n_uname: u32,
    ) -> (res: Result<Fcall, Error>)
        ensures
            !self.answers(MsgType::Tattach) ==> not_supported(res),
    {
        Err(Error::No(EOPNOTSUPP))
    }

    /// Told of a `Tflush`. The request that the flush names has been
    /// answered by then, so there is nothing to call off, and the server
    /// answers `Rflush` whatever this returns.
    fn rflush(&self, _old: Option<&Fcall>) -> (res: Result<Fcall, Error>)
        ensures
            !self.answers(MsgType::Tflush) ==> not_supported(res),
    {
        Err(Error::No(EOPNOTSUPP))
    }

    fn rwalk(
        &self,
        _fid: &Fid<Self::Fid>,
        _newfid: &Fid<Self::Fid>,
        _wnames: &Vec<String>,
    ) -> (res: Result<Fcall, Error>)
        ensures
            !self.answers(MsgType::Twalk) ==> not_supported(res),
    {
        Err(Error::No(EOPNOTSUPP))
    }

    fn rread(
        &self,
        _fid: &Fid<Self::Fid>,
        _offset: u64,
        _count: u32,
    ) -> (res: Result<Fcall, Error>)
        ensures
            !self.answers(MsgType::Tread) ==> not_supported(res),
    {
        Err(Error::No(EOPNOTSUPP))
    }

    fn rwrite(
        &self,
        _fid: &Fid<Self::Fid>,
        _offset: u64,
        _data: &Data,
    ) -> (res: Result<Fcall, Error>)
        ensures
            !self.answers(MsgType::Twrite) ==> not_supported(res),
    {
        Err(Error::No(EOPNOTSUPP))
    }

    fn rclunk(&self, _fid: &Fid<Self::Fid>) -> (res: Result<Fcall, Error>)
        ensures
            !self.answers(MsgType::Tclunk) ==> not_supported(res),
    {
        Err(Error::No(EOPNOTSUPP))
    }

    fn rremove(&self, _fid: &Fid<Self::Fid>) -> (res: Result<Fcall, Error>)
        ensures
            !self.answers(MsgType::Tremove) ==> not_supported(res),
    {
        Err(Error::No(EOPNOTSUPP))
    }

    fn rversion(&self, msize: u32, ver: &str) -> (res: Result<Fcall, Error>)
        ensures
            !self.answers(MsgType::Tversion) ==> accepts_version(res, msize, ver@),
    {
        Ok(rversion_reply(msize, ver))
    }

    /// Whether this file system answers requests of this type itself. The
    /// requests that it does not answer itself are answered as this trait
    /// answers them: `Tversion` by accepting 9P2000.L and nothing else, every
    /// other request by `EOPNOTSUPP`.
    spec fn answers(&self, request: MsgType) -> bool;
}

/// The outcome of an operation that a file system does not support.
pub open spec fn not_supported(res: Result<Fcall, Error>) -> bool {
    res == Err::<Fcall, Error>(Error::No(EOPNOTSUPP))
}

/// The outcome of a version handshake with a server that speaks 9P2000.L
/// and nothing else.
pub open spec fn accepts_version(res: Result<Fcall, Error>, msize: u32, ver: Seq<char>) -> bool {
    res matches Ok(reply) && reply@ == version_reply(msize, ver)
}

/// Every entry of a fid table stands under its own raw fid.
pub open spec fn table_wf<T>(table: Map<u32, Fid<T>>) -> bool {
    forall|fid: u32| #[trigger] table.contains_key(fid) ==> table[fid].raw() == fid
}

/// Whether a message is a request that the server hands to a callback.
pub open spec fn is_request(body: FcallView) -> bool {
    !body.msg_type().is_reply()
}

/// Whether every fid that a request refers to is known.
pub open spec fn resolvable(body: FcallView, known: Set<u32>) -> bool {
    forall|i: int| 0 <= i < body.fids().len() ==> known.contains(#[trigger] body.fids()[i])
}

/// Whether `reply` tells of success: it is a reply, and no `Rlerror`.
pub open spec fn succeeds(reply: FcallView) -> bool {
    reply.msg_type().is_reply() && !(reply is Rlerror)
}

/// Whether the success `reply` to `body` brings the new fid of `body` into
/// being. A walk does so only if it reached the end of its names.
pub open spec fn publishes(body: FcallView, reply: FcallView) -> bool {
    match body {
        FcallView::Twalk { wnames, .. } => reply matches FcallView::Rwalk { wqids }
            && wqids.len() == wnames.len(),
        _ => body.newfid() is Some,
    }
}

/// The fids that are known after `body` was answered with `reply`. Nothing
/// changes unless the answer is a success. A successful `Tversion` starts
/// the connection afresh, a successful `Tclunk` forgets its fid, and a
/// successful request for a new fid makes that fid known.
pub open spec fn fids_after(known: Set<u32>, body: FcallView, reply: FcallView) -> Set<u32> {
    if !succeeds(reply) {
        known
    } else {
        match body {
            FcallView::Tversion { .. } => Set::empty(),
            FcallView::Tclunk { fid } => known.remove(fid),
            _ => if publishes(body, reply) {
                known.insert(body.newfid()->0)
            } else {
                known
            },
        }
    }
}

/// Whether `reply` is the message with this tag and body.
pub open spec fn is_reply_with(reply: Option<Msg>, tag: u16, body: FcallView) -> bool {
    reply matches Some(m) && m@ == (MsgView { tag, body })
}

/// What an outcome looks like to the client: the reply, or `Rlerror`.
pub open spec fn outcome_view(outcome: Result<Fcall, Error>) -> FcallView {
    match outcome {
        Ok(body) => body@,
        Err(_) => FcallView::Rlerror { ecode: 0 },
    }
}

/// Whether a request is one that a file system does not answer itself, so
/// that it is answered as the trait answers it.
pub open spec fn left_to_defaults<Fs: Filesystem>(fs: &Fs, body: FcallView) -> bool {
    is_request(body) && !fs.answers(body.msg_type())
}

impl<T> Fid<T> {
    /// The file system's own value under this fid.
    pub closed spec fn held(&self) -> T {
        self.aux
    }

    /// Get the file system's own value under this fid.
    pub fn aux(&self) -> (aux: &T)
        ensures
            *aux == self.held(),
    {
        &self.aux
    }
}

/// The record that stands for the new fid of a request while the request
/// is served: one under that fid, with the file system's default value of
/// its own. A request without a new fid has none.
pub open spec fn fresh_for<T: Default>(body: FcallView, fresh: Option<Fid<T>>) -> bool {
    match body.newfid() {
        Some(fid) => fresh matches Some(f) && f.raw() == fid && call_ensures(
            T::default,
            (),
            f.held(),
        ),
        None => fresh is None,
    }
}

/// The record of the fid by which an attach is authenticated, if it names
/// one.
pub open spec fn auth_fid<'a, T>(table: Map<u32, Fid<T>>, afid: u32) -> Option<&'a Fid<T>> {
    if afid != NOFID {
        Some(&table[afid])
    } else {
        None
    }
}

/// Whether `res` is what the callback for the request `body` returned when
/// it was handed the records of the fids that the request names, the record
/// for its new fid, and its other fields. A `Tflush` is answered `Rflush`
/// once its callback has returned, whatever it returned.
pub open spec fn called<Fs: Filesystem>(
    fs: &Fs,
    table: Map<u32, Fid<Fs::Fid>>,
    fresh: Option<Fid<Fs::Fid>>,
    body: Fcall,
    res: Result<Fcall, Error>,
) -> bool {
    match body {
        Fcall::Tstatfs { fid } => call_ensures(
            Fs::rstatfs,
            (fs, &table[fid]),
            res,
        ),
        Fcall::Tlopen { fid, flags } => call_ensures(
            Fs::rlopen,
            (fs, &table[fid], flags),
            res,
        ),
        Fcall::Tlcreate { fid, name, flags, mode, gid } => exists|name_text: &str|
            name_text@ == name@ && #[trigger] call_ensures(
                Fs::rlcreate,
                (fs, &table[fid], name_text, flags, mode, gid),
                res,
            ),
        Fcall::Tsymlink { fid, name, symtgt, gid } => exists|name_text: &str, symtgt_text: &str|
            name_text@ == name@ && symtgt_text@ == symtgt@ && #[trigger] call_ensures(
                Fs::rsymlink,
                (fs, &table[fid], name_text, symtgt_text, gid),
                res,
            ),
        Fcall::Tmknod { dfid, name, mode, major, minor, gid } => exists|name_text: &str|
            name_text@ == name@ && #[trigger] call_ensures(
                Fs::rmknod,
                (fs, &table[dfid], name_text, mode, major, minor, gid),
                res,
            ),
        Fcall::Trename { fid, dfid, name } => exists|name_text: &str|
            name_text@ == name@ && #[trigger] call_ensures(
                Fs::rrename,
                (fs, &table[fid], &table[dfid], name_text),
                res,
            ),
        Fcall::Treadlink { fid } => call_ensures(
            Fs::rreadlink,
            (fs, &table[fid]),
            res,
        ),
        Fcall::Tgetattr { fid, req_mask } => call_ensures(
            Fs::rgetattr,
            (fs, &table[fid], req_mask),
            res,
        ),
        Fcall::Tsetattr { fid, valid, stat } => call_ensures(
            Fs::rsetattr,
            (fs, &table[fid], valid, &stat),
            res,
        ),
        Fcall::Txattrwalk { fid, name, .. } => fresh matches Some(nf) && exists|name_text: &str|
            name_text@ == name@ && #[trigger] call_ensures(
                Fs::rxattrwalk,
                (fs, &table[fid], &nf, name_text),
                res,
            ),
        Fcall::Txattrcreate { fid, name, attr_size, flags } => exists|name_text: &str|
            name_text@ == name@ && #[trigger] call_ensures(
                Fs::rxattrcreate,
                (fs, &table[fid], name_text, attr_size, flags),
                res,
            ),
        Fcall::Treaddir { fid, offset, count } => call_ensures(
            Fs::rreaddir,
            (fs, &table[fid], offset, count),
            res,
        ),
        Fcall::Tfsync { fid } => call_ensures(
            Fs::rfsync,
            (fs, &table[fid]),
            res,
        ),
        Fcall::Tlock { fid, flock } => call_ensures(
            Fs::rlock,
            (fs, &table[fid], &flock),
            res,
        ),
        Fcall::Tgetlock { fid, flock } => call_ensures(
            Fs::rgetlock,
            (fs, &table[fid], &flock),
            res,
        ),
        Fcall::Tlink { dfid, fid, name } => exists|name_text: &str|
            name_text@ == name@ && #[trigger] call_ensures(
                Fs::rlink,
                (fs, &table[dfid], &table[fid], name_text),
                res,
            ),
        Fcall::Tmkdir { dfid, name, mode, gid } => exists|name_text: &str|
            name_text@ == name@ && #[trigger] call_ensures(
                Fs::rmkdir,
                (fs, &table[dfid], name_text, mode, gid),
                res,
            ),
        Fcall::Trenameat { olddirfid, oldname, newdirfid, newname } => exists|
            oldname_text: &str,
            newname_text: &str,
        |
            oldname_text@ == oldname@ && newname_text@ == newname@ && #[trigger] call_ensures(
                Fs::rrenameat,
                (fs, &table[olddirfid], oldname_text, &table[newdirfid], newname_text),
                res,
            ),
        Fcall::Tunlinkat { dirfd, name, flags } => exists|name_text: &str|
            name_text@ == name@ && #[trigger] call_ensures(
                Fs::runlinkat,
                (fs, &table[dirfd], name_text, flags),
                res,
            ),
        Fcall::Tauth { uname, aname, n_uname, .. } => fresh matches Some(nf) && exists|
            uname_text: &str,
            aname_text: &str,
        |
            uname_text@ == uname@ && aname_text@ == aname@ && #[trigger] call_ensures(
                Fs::rauth,
                (fs, &nf, uname_text, aname_text, n_uname),
                res,
            ),
        Fcall::Tattach { afid, uname, aname, n_uname, .. } => fresh matches Some(nf) && exists|
            uname_text: &str,
            aname_text: &str,
        |
            uname_text@ == uname@ && aname_text@ == aname@ && #[trigger] call_ensures(
                Fs::rattach,
                (fs, &nf, auth_fid(table, afid), uname_text, aname_text, n_uname),
                res,
            ),
        Fcall::Tversion { msize, version } => exists|version_text: &str|
            version_text@ == version@ && #[trigger] call_ensures(
                Fs::rversion,
                (fs, msize, version_text),
                res,
            ),
        Fcall::Twalk { fid, wnames, .. } => fresh matches Some(nf) && call_ensures(
            Fs::rwalk,
            (fs, &table[fid], &nf, &wnames),
            res,
        ),
        Fcall::Tread { fid, offset, count } => call_ensures(
            Fs::rread,
            (fs, &table[fid], offset, count),
            res,
        ),
        Fcall::Twrite { fid, offset, data } => call_ensures(
            Fs::rwrite,
            (fs, &table[fid], offset, &data),
            res,
        ),
        Fcall::Tclunk { fid } => call_ensures(
            Fs::rclunk,
            (fs, &table[fid]),
            res,
        ),
        Fcall::Tremove { fid } => call_ensures(
            Fs::rremove,
            (fs, &table[fid]),
            res,
        ),
        Fcall::Tflush { .. } => (res matches Ok(reply) && reply@ == FcallView::Rflush) && exists|
            told: Result<Fcall, Error>,
        | #[trigger] call_ensures(Fs::rflush, (fs, None::<&Fcall>), told),
        _ => true,
    }
}

/// How the outcome of a request comes about. A message that is no request
/// is `EOPNOTSUPP`, and a request that names an unknown fid is `EBADF`,
/// without any callback being called. Every other outcome is that of the
/// callback.
pub open spec fn outcome_of<Fs: Filesystem>(
    fs: &Fs,
    table: Map<u32, Fid<Fs::Fid>>,
    fresh: Option<Fid<Fs::Fid>>,
    body: Fcall,
    res: Result<Fcall, Error>,
) -> bool {
    if !is_request(body@) {
        res == Err::<Fcall, Error>(Error::No(EOPNOTSUPP))
    } else if !resolvable(body@, table.dom()) {
        res == Err::<Fcall, Error>(Error::No(EBADF))
    } else {
        called(fs, table, fresh, body, res)
    }
}

/// The fid table after `body` was answered with `reply`. Nothing changes
/// unless the answer is a success. A successful `Tversion` empties the
/// table, a successful `Tclunk` takes its fid out, and a successful request
/// for a new fid puts the record that the callback was handed under that
/// fid.
pub open spec fn table_after<T>(
    table: Map<u32, Fid<T>>,
    fresh: Option<Fid<T>>,
    body: FcallView,
    reply: FcallView,
) -> Map<u32, Fid<T>> {
    if !succeeds(reply) {
        table
    } else {
        match body {
            FcallView::Tversion { .. } => Map::empty(),
            FcallView::Tclunk { fid } => table.remove(fid),
            _ => if publishes(body, reply) && fresh is Some {
                table.insert(body.newfid()->0, fresh->0)
            } else {
                table
            },
        }
    }
}

/// What serving a request does: the outcome comes about as `outcome_of`
/// says, with a fresh record for the new fid of the request, and the table
/// follows the outcome as `table_after` says.
pub open spec fn serves<Fs: Filesystem>(
    fs: &Fs,
    before: Map<u32, Fid<Fs::Fid>>,
    body: Fcall,
    res: Result<Fcall, Error>,
    after: Map<u32, Fid<Fs::Fid>>,
) -> bool {
    exists|fresh: Option<Fid<Fs::Fid>>|
        {
            &&& #[trigger] fresh_for(body@, fresh)
            &&& outcome_of(fs, before, fresh, body, res)
            &&& after == table_after(before, fresh, body@, outcome_view(res))
        }
}

/// The message that goes back for an outcome, if one goes back: the
/// callback's answer under the tag of the request where it is a reply,
/// nothing where it is no reply, and for an error `Rlerror` with the errno
/// of the error.
pub open spec fn replies(tag: u16, outcome: Result<Fcall, Error>, reply: Option<Msg>) -> bool {
    match outcome {
        Ok(body) => if body@.msg_type().is_reply() {
            reply == Some(Msg { tag, body })
        } else {
            reply is None
        },
        Err(e) => {
            &&& reply matches Some(m)
            &&& m.tag == tag
            &&& m.body matches Fcall::Rlerror { ecode }
            &&& e.has_errno(ecode)
        },
    }
}

/// Whether `out` is what goes on the wire for `reply`: its frame, or
/// nothing where there is no reply.
pub open spec fn framed(reply: Option<Msg>, out: Option<Vec<u8>>) -> bool {
    match (reply, out) {
        (Some(m), Some(bytes)) => bytes@ == wire_frame(m@),
        (None, None) => true,
        _ => false,
    }
}

/// Looks a fid up; an unknown fid is `EBADF`.
fn get_fid<T>(fsfids: &HashMap<u32, Fid<T>>, fid: u32) -> (res: Result<&Fid<T>, Error>)
    ensures
        match res {
            Ok(f) => fsfids@.contains_key(fid) && *f == fsfids@[fid],
            Err(e) => !fsfids@.contains_key(fid) && e == Error::No(EBADF),
        },
{
    match fsfids.get(&fid) {
        Some(f) => Ok(f),
        None => Err(Error::No(EBADF)),
    }
}

/// Whether the success `reply` to `body` brings the new fid of `body` into
/// being.
fn reply_publishes(body: &Fcall, reply: &Fcall) -> (b: bool)
    ensures
        b == publishes(body@, reply@),
{
    match body {
        Fcall::Twalk { wnames, .. } => match reply {
            Fcall::Rwalk { wqids } => wqids.len() == wnames.len(),
            _ => false,
        },
        _ => body.newfid().is_some(),
    }
}

/// Whether `reply` answers a request with success.
fn reply_succeeds(reply: &Fcall) -> (b: bool)
    ensures
        b == succeeds(reply@),
{
    match reply {
        Fcall::Rlerror { .. } => false,
        _ => MsgType::from(reply).is_r(),
    }
}

/// Hands a request to the callback it is meant for.
///
/// A message that is no request is answered `EOPNOTSUPP`, a request that
/// names an unknown fid `EBADF`; the callback is not called for either.
/// `Tflush` is answered `Rflush` whatever the callback says. Every other
/// outcome is the callback's.
fn call<Fs: Filesystem>(
    msg: &Msg,
    fs: &Fs,
    fsfids: &HashMap<u32, Fid<Fs::Fid>>,
    newfid: &Option<Fid<Fs::Fid>>,
) -> (res: Result<Fcall, Error>)
    requires
        newfid is Some <==> msg.body@.newfid() is Some,
    ensures
        outcome_of(fs, fsfids@, *newfid, msg.body, res),
        !is_request(msg.body@) ==> res == Err::<Fcall, Error>(Error::No(EOPNOTSUPP)),
        is_request(msg.body@) && !resolvable(msg.body@, fsfids@.dom()) ==> res == Err::<
            Fcall,
            Error,
        >(Error::No(EBADF)),
        msg.body is Tflush ==> (res matches Ok(reply) && reply@ == FcallView::Rflush),
        left_to_defaults(fs, msg.body@) && resolvable(msg.body@, fsfids@.dom()) ==> (
        match msg.body@ {
            FcallView::Tflush { .. } => true,
            FcallView::Tversion { msize, version } => accepts_version(res, msize, version),
            _ => not_supported(res),
        }),
{
    match &msg.body {
        Fcall::Tstatfs { fid } => {
            assert(msg.body@.fids()[0] == *fid);
            let fid_rec = get_fid(fsfids, *fid)?;
            fs.rstatfs(fid_rec)
        },
        Fcall::Tlopen { fid, flags } => {
            assert(msg.body@.fids()[0] == *fid);
            let fid_rec = get_fid(fsfids, *fid)?;
            fs.rlopen(fid_rec, *flags)
        },
        Fcall::Tlcreate { fid, name, flags, mode, gid } => {
            assert(msg.body@.fids()[0] == *fid);
            let fid_rec = get_fid(fsfids, *fid)?;
            let name_text = name.as_str();
            let res = fs.rlcreate(fid_rec, name_text, *flags, *mode, *gid);
            assert(call_ensures(Fs::rlcreate, (fs, fid_rec, name_text, *flags, *mode, *gid), res));
            res
        },
        Fcall::Tsymlink { fid, name, symtgt, gid } => {
            assert(msg.body@.fids()[0] == *fid);
            let fid_rec = get_fid(fsfids, *fid)?;
            let name_text = name.as_str();
            let symtgt_text = symtgt.as_str();
            let res = fs.rsymlink(fid_rec, name_text, symtgt_text, *gid);
            assert(call_ensures(Fs::rsymlink, (fs, fid_rec, name_text, symtgt_text, *gid), res));
            res
        },
        Fcall::Tmknod { dfid, name, mode, major, minor, gid } => {
            assert(msg.body@.fids()[0] == *dfid);
            let dfid_rec = get_fid(fsfids, *dfid)?;
            let name_text = name.as_str();
            let res = fs.rmknod(dfid_rec, name_text, *mode, *major, *minor, *gid);
            assert(call_ensures(
                Fs::rmknod,
                (fs, dfid_rec, name_text, *mode, *major, *minor, *gid),
                res,
            ));
            res
        },
        Fcall::Trename { fid, dfid, name } => {
            assert(msg.body@.fids()[0] == *fid);
            assert(msg.body@.fids()[1] == *dfid);
            let fid_rec = get_fid(fsfids, *fid)?;
            let dfid_rec = get_fid(fsfids, *dfid)?;
            let name_text = name.as_str();
            let res = fs.rrename(fid_rec, dfid_rec, name_text);
            assert(call_ensures(Fs::rrename, (fs, fid_rec, dfid_rec, name_text), res));
            res
        },
        Fcall::Treadlink { fid } => {
            assert(msg.body@.fids()[0] == *fid);
            let fid_rec = get_fid(fsfids, *fid)?;
            fs.rreadlink(fid_rec)
        },
        Fcall::Tgetattr { fid, req_mask } => {
            assert(msg.body@.fids()[0] == *fid);
            let fid_rec = get_fid(fsfids, *fid)?;
            fs.rgetattr(fid_rec, *req_mask)
        },
        Fcall::Tsetattr { fid, valid, stat } => {
            assert(msg.body@.fids()[0] == *fid);
            let fid_rec = get_fid(fsfids, *fid)?;
            fs.rsetattr(fid_rec, *valid, stat)
        },
        Fcall::Txattrwalk { fid, name, .. } => {
            assert(msg.body@.fids()[0] == *fid);
            let fid_rec = get_fid(fsfids, *fid)?;
            match newfid {
                Some(nf) => {
                    let name_text = name.as_str();
                    let res = fs.rxattrwalk(fid_rec, nf, name_text);
                    assert(call_ensures(Fs::rxattrwalk, (fs, fid_rec, nf, name_text), res));
                    res
                },
                None => Err(Error::No(EBADF)),
            }
        },
        Fcall::Txattrcreate { fid, name, attr_size, flags } => {
            assert(msg.body@.fids()[0] == *fid);
            let fid_rec = get_fid(fsfids, *fid)?;
            let name_text = name.as_str();
            let res = fs.rxattrcreate(fid_rec, name_text, *attr_size, *flags);
            assert(call_ensures(
                Fs::rxattrcreate,
                (fs, fid_rec, name_text, *attr_size, *flags),
                res,
            ));
            res
        },
        Fcall::Treaddir { fid, offset, count } => {
            assert(msg.body@.fids()[0] == *fid);
            let fid_rec = get_fid(fsfids, *fid)?;
            fs.rreaddir(fid_rec, *offset, *count)
        },
        Fcall::Tfsync { fid } => {
            assert(msg.body@.fids()[0] == *fid);
            let fid_rec = get_fid(fsfids, *fid)?;
            fs.rfsync(fid_rec)
        },
        Fcall::Tlock { fid, flock } => {
            assert(msg.body@.fids()[0] == *fid);
            let fid_rec = get_fid(fsfids, *fid)?;
            fs.rlock(fid_rec, flock)
        },
        Fcall::Tgetlock { fid, flock } => {
            assert(msg.body@.fids()[0] == *fid);
            let fid_rec = get_fid(fsfids, *fid)?;
            fs.rgetlock(fid_rec, flock)
        },
        Fcall::Tlink { dfid, fid, name } => {
            assert(msg.body@.fids()[0] == *dfid);
            assert(msg.body@.fids()[1] == *fid);
            let dfid_rec = get_fid(fsfids, *dfid)?;
            let fid_rec = get_fid(fsfids, *fid)?;
            let name_text = name.as_str();
            let res = fs.rlink(dfid_rec, fid_rec, name_text);
            assert(call_ensures(Fs::rlink, (fs, dfid_rec, fid_rec, name_text), res));
            res
        },
        Fcall::Tmkdir { dfid, name, mode, gid } => {
            assert(msg.body@.fids()[0] == *dfid);
            let dfid_rec = get_fid(fsfids, *dfid)?;
            let name_text = name.as_str();
            let res = fs.rmkdir(dfid_rec, name_text, *mode, *gid);
            assert(call_ensures(Fs::rmkdir, (fs, dfid_rec, name_text, *mode, *gid), res));
            res
        },
        Fcall::Trenameat { olddirfid, oldname, newdirfid, newname } => {
            assert(msg.body@.fids()[0] == *olddirfid);
            assert(msg.body@.fids()[1] == *newdirfid);
            let olddirfid_rec = get_fid(fsfids, *olddirfid)?;
            let newdirfid_rec = get_fid(fsfids, *newdirfid)?;
            let oldname_text = oldname.as_str();
            let newname_text = newname.as_str();
            let res = fs.rrenameat(olddirfid_rec, oldname_text, newdirfid_rec, newname_text);
            assert(call_ensures(
                Fs::rrenameat,
                (fs, olddirfid_rec, oldname_text, newdirfid_rec, newname_text),
                res,
            ));
            res
        },
        Fcall::Tunlinkat { dirfd, name, flags } => {
            assert(msg.body@.fids()[0] == *dirfd);
            let dirfd_rec = get_fid(fsfids, *dirfd)?;
            let name_text = name.as_str();
            let res = fs.runlinkat(dirfd_rec, name_text, *flags);
            assert(call_ensures(Fs::runlinkat, (fs, dirfd_rec, name_text, *flags), res));
            res
        },
        Fcall::Tauth { uname, aname, n_uname, .. } => {
            match newfid {
                Some(nf) => {
                    let uname_text = uname.as_str();
                    let aname_text = aname.as_str();
                    let res = fs.rauth(nf, uname_text, aname_text, *n_uname);
                    assert(call_ensures(
                        Fs::rauth,
                        (fs, nf, uname_text, aname_text, *n_uname),
                        res,
                    ));
                    res
                },
                None => Err(Error::No(EBADF)),
            }
        },
        Fcall::Tattach { afid, uname, aname, n_uname, .. } => {
            let auth = if *afid != NOFID {
                assert(msg.body@.fids()[0] == *afid);
                Some(get_fid(fsfids, *afid)?)
            } else {
                None
            };
            match newfid {
                Some(nf) => {
                    let uname_text = uname.as_str();
                    let aname_text = aname.as_str();
                    let res = fs.rattach(nf, auth, uname_text, aname_text, *n_uname);
                    assert(call_ensures(
                        Fs::rattach,
                        (fs, nf, auth_fid(fsfids@, *afid), uname_text, aname_text, *n_uname),
                        res,
                    ));
                    res
                },
                None => Err(Error::No(EBADF)),
            }
        },
        Fcall::Tversion { msize, version } => {
            let version_text = version.as_str();
            let res = fs.rversion(*msize, version_text);
            assert(call_ensures(Fs::rversion, (fs, *msize, version_text), res));
            res
        },
        Fcall::Twalk { fid, wnames, .. } => {
            assert(msg.body@.fids()[0] == *fid);
            let fid_rec = get_fid(fsfids, *fid)?;
            match newfid {
                Some(nf) => {
                    fs.rwalk(fid_rec, nf, wnames)
                },
                None => Err(Error::No(EBADF)),
            }
        },
        Fcall::Tread { fid, offset, count } => {
            assert(msg.body@.fids()[0] == *fid);
            let fid_rec = get_fid(fsfids, *fid)?;
            fs.rread(fid_rec, *offset, *count)
        },
        Fcall::Twrite { fid, offset, data } => {
            assert(msg.body@.fids()[0] == *fid);
            let fid_rec = get_fid(fsfids, *fid)?;
            fs.rwrite(fid_rec, *offset, data)
        },
        Fcall::Tclunk { fid } => {
            assert(msg.body@.fids()[0] == *fid);
            let fid_rec = get_fid(fsfids, *fid)?;
            fs.rclunk(fid_rec)
        },
        Fcall::Tremove { fid } => {
            assert(msg.body@.fids()[0] == *fid);
            let fid_rec = get_fid(fsfids, *fid)?;
            fs.rremove(fid_rec)
        },
        Fcall::Tflush { .. } => {
            let told = fs.rflush(None);
            assert(call_ensures(Fs::rflush, (fs, None::<&Fcall>), told));
            Ok(Fcall::Rflush)
        },
        _ => Err(Error::No(EOPNOTSUPP)),
    }
}

/// Serves one request. The callback of the request is handed the records
/// of the fids that the request names and, where the request brings a fid
/// into being, a fresh record under that fid; what it returns is the
/// outcome. The fid table follows the outcome: a request that does not
/// succeed leaves the table as it was, and a new fid is published with the
/// record that the callback was handed.
pub fn dispatch_once<Fs: Filesystem>(
    msg: &Msg,
    fs: &Fs,
    fsfids: &mut HashMap<u32, Fid<Fs::Fid>>,
) -> (res: Result<Fcall, Error>)
    ensures
        table_wf(old(fsfids)@) ==> table_wf(final(fsfids)@),
        !is_request(msg.body@) ==> res == Err::<Fcall, Error>(Error::No(EOPNOTSUPP)),
        is_request(msg.body@) && !resolvable(msg.body@, old(fsfids)@.dom()) ==> res == Err::<
            Fcall,
            Error,
        >(Error::No(EBADF)),
        msg.body is Tflush ==> (res matches Ok(reply) && reply@ == FcallView::Rflush),
        left_to_defaults(fs, msg.body@) && resolvable(msg.body@, old(fsfids)@.dom()) ==> (
        match msg.body@ {
            FcallView::Tflush { .. } => true,
            FcallView::Tversion { msize, version } => accepts_version(res, msize, version),
            _ => not_supported(res),
        }),
        serves(fs, old(fsfids)@, msg.body, res, final(fsfids)@),
        !succeeds(outcome_view(res)) ==> final(fsfids)@ == old(fsfids)@,
        final(fsfids)@.dom() == fids_after(old(fsfids)@.dom(), msg.body@, outcome_view(res)),
        forall|fid: u32|
            final(fsfids)@.contains_key(fid) && msg.body@.newfid() != Some(fid) ==> old(
                fsfids,
            )@.contains_key(fid) && #[trigger] final(fsfids)@[fid] == old(fsfids)@[fid],
        succeeds(outcome_view(res)) && publishes(msg.body@, outcome_view(res))
            ==> final(fsfids)@[msg.body@.newfid()->0].raw() == msg.body@.newfid()->0,
{
    let newfid: Option<Fid<Fs::Fid>> = match msg.body.newfid() {
        Some(fid) => Some(Fid { fid, aux: Default::default() }),
        None => None,
    };
    let ghost fresh = newfid;
    assert(fresh_for(msg.body@, fresh));
    let response = call(msg, fs, fsfids, &newfid)?;
    if !reply_succeeds(&response) {
        return Ok(response);
    }
    match &msg.body {
        Fcall::Tversion { .. } => {
            fsfids.clear();
            assert(fsfids@.dom() =~= Set::<u32>::empty());
        },
        Fcall::Tclunk { fid } => {
            fsfids.remove(fid);
        },
        _ => {
            if reply_publishes(&msg.body, &response) {
                match newfid {
                    Some(nf) => {
                        fsfids.insert(nf.fid, nf);
                    },
                    None => {},
                }
            }
        },
    }
    assert(fsfids@ =~= table_after(old(fsfids)@, fresh, msg.body@, response@));
    Ok(response)
}

/// Serves one request as `dispatch_once` does and builds the message that
/// answers it, under the tag of the request. An error, the callback's or
/// the server's own, becomes `Rlerror` with the error's errno. Where the
/// callback answered with a message that is no reply, nothing is sent back.
pub fn dispatch<Fs: Filesystem>(
    msg: &Msg,
    fs: &Fs,
    fsfids: &mut HashMap<u32, Fid<Fs::Fid>>,
) -> (reply: Option<Msg>)
    ensures
        table_wf(old(fsfids)@) ==> table_wf(final(fsfids)@),
        reply matches Some(m) ==> m.tag == msg.tag && m.body@.msg_type().is_reply(),
        !is_request(msg.body@) ==> is_reply_with(
            reply,
            msg.tag,
            FcallView::Rlerror { ecode: EOPNOTSUPP },
        ),
        is_request(msg.body@) && !resolvable(msg.body@, old(fsfids)@.dom()) ==> is_reply_with(
            reply,
            msg.tag,
            FcallView::Rlerror { ecode: EBADF },
        ),
        msg.body is Tflush ==> is_reply_with(reply, msg.tag, FcallView::Rflush),
        left_to_defaults(fs, msg.body@) && resolvable(msg.body@, old(fsfids)@.dom()) ==> (
        match msg.body@ {
            FcallView::Tflush { .. } => true,
            FcallView::Tversion { msize, version } => is_reply_with(
                reply,
                msg.tag,
                version_reply(msize, version),
            ),
            _ => is_reply_with(reply, msg.tag, FcallView::Rlerror { ecode: EOPNOTSUPP }),
        }),
        match reply {
            Some(m) => final(fsfids)@.dom() == fids_after(
                old(fsfids)@.dom(),
                msg.body@,
                m.body@,
            ),
            None => final(fsfids)@.dom() == old(fsfids)@.dom(),
        },
        forall|fid: u32|
            final(fsfids)@.contains_key(fid) && msg.body@.newfid() != Some(fid) ==> old(
                fsfids,
            )@.contains_key(fid) && #[trigger] final(fsfids)@[fid] == old(fsfids)@[fid],
        exists|outcome: Result<Fcall, Error>|
            {
                &&& #[trigger] serves(fs, old(fsfids)@, msg.body, outcome, final(fsfids)@)
                &&& replies(msg.tag, outcome, reply)
            },
        match reply {
            Some(m) => !succeeds(m.body@) ==> final(fsfids)@ == old(fsfids)@,
            None => final(fsfids)@ == old(fsfids)@,
        },
{
    let outcome = dispatch_once(msg, fs, fsfids);
    let ghost served = outcome;
    let body = match outcome {
        Ok(body) => body,
        Err(e) => Fcall::Rlerror { ecode: e.errno() },
    };
    if MsgType::from(&body).is_r() {
        let reply = Some(Msg { tag: msg.tag, body });
        assert(replies(msg.tag, served, reply));
        reply
    } else {
        assert(replies(msg.tag, served, None));
        None
    }
}

/// Serves the request that one frame holds as `dispatch` does and builds
/// the frame that answers it. A frame that holds no message is a protocol
/// error: the connection is to be closed, and the fid table is as it was.
pub fn serve_frame<Fs: Filesystem>(
    frame: Vec<u8>,
    fs: &Fs,
    fsfids: &mut HashMap<u32, Fid<Fs::Fid>>,
) -> (res: Result<Option<Vec<u8>>, DecodeError>)
    ensures
        table_wf(old(fsfids)@) ==> table_wf(final(fsfids)@),
        match res {
            Err(e) => {
                &&& take_frame(Cur::ok(frame@)).1.err == Some(e)
                &&& final(fsfids)@ == old(fsfids)@
            },
            Ok(out) => {
                &&& take_frame(Cur::ok(frame@)).1.good()
                &&& exists|msg: Msg, outcome: Result<Fcall, Error>, reply: Option<Msg>|
                    {
                        &&& msg@ == take_frame(Cur::ok(frame@)).0
                        &&& #[trigger] serves(fs, old(fsfids)@, msg.body, outcome, final(fsfids)@)
                        &&& #[trigger] replies(msg.tag, outcome, reply)
                        &&& framed(reply, out)
                    }
                &&& match out {
                    Some(bytes) => exists|m: Msg|
                        {
                            &&& bytes@ == wire_frame(m@)
                            &&& m.tag == take_frame(Cur::ok(frame@)).0.tag
                            &&& m.body@.msg_type().is_reply()
                            &&& final(fsfids)@.dom() == fids_after(
                                old(fsfids)@.dom(),
                                take_frame(Cur::ok(frame@)).0.body,
                                m.body@,
                            )
                        },
                    None => final(fsfids)@ == old(fsfids)@,
                }
            },
        },
{
    let mut r = Decoder::new(frame);
    let msg = read_frame(&mut r)?;
    let reply = dispatch(&msg, fs, fsfids);
    let ghost sent = reply;
    let ghost outcome = choose|outcome: Result<Fcall, Error>|
        #[trigger] serves(fs, old(fsfids)@, msg.body, outcome, fsfids@) && replies(
            msg.tag,
            outcome,
            sent,
        );
    match reply {
        Some(reply) => {
            let mut out: Vec<u8> = Vec::new();
            write_frame(&mut out, &reply);
            assert(out@ =~= wire_frame(reply@));
            assert(framed(sent, Some(out)));
            assert(serves(fs, old(fsfids)@, msg.body, outcome, fsfids@) && replies(
                msg.tag,
                outcome,
                sent,
            ));
            Ok(Some(out))
        },
        None => {
            assert(framed(sent, None));
            assert(serves(fs, old(fsfids)@, msg.body, outcome, fsfids@) && replies(
                msg.tag,
                outcome,
                sent,
            ));
            Ok(None)
        },
    }
}

/// A request and the reply that went back for it, if one went back.
pub struct Exchange {
    pub request: FcallView,
    pub reply: Option<FcallView>,
}

/// The fids that are known after one more exchange.
pub open spec fn fids_after_exchange(known: Set<u32>, x: Exchange) -> Set<u32> {
    match x.reply {
        Some(reply) => fids_after(known, x.request, reply),
        None => known,
    }
}

/// The fids that are known after the exchanges of `trace`, on a connection
/// that knew none at first.
pub open spec fn fids_after_all(trace: Seq<Exchange>) -> Set<u32>
    decreases trace.len(),
{
    if trace.len() == 0 {
        Set::empty()
    } else {
        fids_after_exchange(fids_after_all(trace.drop_last()), trace.last())
    }
}

/// The exchange is a success that brought `fid` into being: an attach, an
/// auth, a walk to the end of its names, or an xattr walk.
pub open spec fn introduces(x: Exchange, fid: u32) -> bool {
    &&& x.reply matches Some(reply)
    &&& succeeds(reply)
    &&& publishes(x.request, reply)
    &&& x.request.newfid() == Some(fid)
}

/// The exchange is a success that took `fid` away: a clunk of it, or a
/// version handshake, which takes every fid away.
pub open spec fn forgets(x: Exchange, fid: u32) -> bool {
    &&& x.reply matches Some(reply)
    &&& succeeds(reply)
    &&& (x.request is Tversion || x.request == (FcallView::Tclunk { fid }))
}

/// Exchange `i` of `trace` introduced `fid`, and no later one took it away.
pub open spec fn introduced_and_kept(trace: Seq<Exchange>, fid: u32, i: int) -> bool {
    &&& 0 <= i < trace.len()
    &&& introduces(trace[i], fid)
    &&& forall|j: int| i < j < trace.len() ==> !forgets(#[trigger] trace[j], fid)
}

/// After any sequence of exchanges the known fids are exactly those that a
/// successful request introduced and that no later successful clunk or
/// version handshake took away.
pub proof fn lemma_fids_are_those_introduced_and_kept(trace: Seq<Exchange>, fid: u32)
    ensures
        fids_after_all(trace).contains(fid) <==> exists|i: int|
            introduced_and_kept(trace, fid, i),
    decreases trace.len(),
{
    if trace.len() > 0 {
        let init = trace.drop_last();
        let x = trace.last();
        let last = trace.len() - 1;
        let known = fids_after_all(init);
        lemma_fids_are_those_introduced_and_kept(init, fid);
        assert forall|i: int| 0 <= i < init.len() implies (introduced_and_kept(trace, fid, i) <==> (
        introduced_and_kept(init, fid, i) && !forgets(x, fid))) by {
            assert(trace[i] == init[i]);
            if introduced_and_kept(trace, fid, i) {
                assert forall|j: int| i < j < init.len() implies !forgets(
                    #[trigger] init[j],
                    fid,
                ) by {
                    assert(init[j] == trace[j]);
                }
                assert(!forgets(trace[last], fid));
            }
            if introduced_and_kept(init, fid, i) && !forgets(x, fid) {
                assert forall|j: int| i < j < trace.len() implies !forgets(
                    #[trigger] trace[j],
                    fid,
                ) by {
                    if j < init.len() {
                        assert(trace[j] == init[j]);
                    }
                }
            }
        }
        assert(introduced_and_kept(trace, fid, last) <==> introduces(x, fid));
        if fids_after_all(trace).contains(fid) {
            if introduces(x, fid) {
                assert(introduced_and_kept(trace, fid, last));
            } else {
                assert(known.contains(fid) && !forgets(x, fid));
                let i = choose|i: int| introduced_and_kept(init, fid, i);
                assert(introduced_and_kept(trace, fid, i));
            }
        }
        if exists|i: int| introduced_and_kept(trace, fid, i) {
            let i = choose|i: int| introduced_and_kept(trace, fid, i);
            if i != last {
                assert(introduced_and_kept(init, fid, i) && !forgets(x, fid));
                assert(known.contains(fid));
            }
        }
    }
}

/// The exchange is a successful clunk of `fid`.
pub open spec fn clunks(x: Exchange, fid: u32) -> bool {
    &&& x.reply matches Some(reply)
    &&& succeeds(reply)
    &&& x.request == (FcallView::Tclunk { fid })
}

/// No exchange of `trace` is a successful version handshake.
pub open spec fn no_handshake(trace: Seq<Exchange>) -> bool {
    forall|i: int|
        0 <= i < trace.len() ==> !((#[trigger] trace[i]).request is Tversion && (
        trace[i].reply matches Some(reply) && succeeds(reply)))
}

/// Exchange `i` of `trace` introduced `fid`, and no later one clunked it.
pub open spec fn introduced_and_not_clunked(trace: Seq<Exchange>, fid: u32, i: int) -> bool {
    &&& 0 <= i < trace.len()
    &&& introduces(trace[i], fid)
    &&& forall|j: int| i < j < trace.len() ==> !clunks(#[trigger] trace[j], fid)
}

/// As long as the version is not negotiated anew, the known fids are
/// exactly those that a successful attach, auth, walk or xattr walk
/// introduced, less those that a successful clunk removed.
pub proof fn lemma_fids_are_those_introduced_less_clunked(trace: Seq<Exchange>, fid: u32)
    requires
        no_handshake(trace),
    ensures
        fids_after_all(trace).contains(fid) <==> exists|i: int|
            introduced_and_not_clunked(trace, fid, i),
{
    lemma_fids_are_those_introduced_and_kept(trace, fid);
    assert forall|j: int| 0 <= j < trace.len() implies (forgets(#[trigger] trace[j], fid)
        <==> clunks(trace[j], fid)) by {}
    if exists|i: int| introduced_and_kept(trace, fid, i) {
        let i = choose|i: int| introduced_and_kept(trace, fid, i);
        assert(introduced_and_not_clunked(trace, fid, i));
    }
    if exists|i: int| introduced_and_not_clunked(trace, fid, i) {
        let i = choose|i: int| introduced_and_not_clunked(trace, fid, i);
        assert(introduced_and_kept(trace, fid, i));
    }
}

/// A fid that was clunked with success is unknown afterwards: a second
/// clunk of it names an unknown fid.
pub proof fn lemma_clunked_fid_is_unknown(known: Set<u32>, fid: u32, reply: FcallView)
    requires
        succeeds(reply),
    ensures
        !resolvable(
            FcallView::Tclunk { fid },
            fids_after(known, FcallView::Tclunk { fid }, reply),
        ),
{
    let body = FcallView::Tclunk { fid };
    assert(body.fids()[0] == fid);
}

/// A successful version handshake leaves no fid known.
pub proof fn lemma_version_forgets_all(
    known: Set<u32>,
    msize: u32,
    version: Seq<char>,
    reply: FcallView,
)
    requires
        succeeds(reply),
    ensures
        fids_after(known, FcallView::Tversion { msize, version }, reply) == Set::<u32>::empty(),
{
}

} // verus!
