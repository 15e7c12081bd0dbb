use p9cpu::error::{DecodeError, Error, IoError, IoErrorKind, EBADF, EIO, ENOENT, EOPNOTSUPP};
use p9cpu::fcall::{Data, Fcall, Msg, MsgType, Qid, NOFID, NOTAG};
use p9cpu::serialize::{read_frame, write_frame, Decoder};
use p9cpu::srv::{dispatch, dispatch_once, rversion_reply, serve_frame, Fid, Filesystem};
use p9cpu::unpfs::{
    host_flags, not_open, open_flags, qid_from_attr, readdir, rread_reply, FileOp, HostEntry, Walk,
    O_RDONLY, O_RDWR,
};
use std::cell::RefCell;
use std::collections::HashMap;

/// A file system that answers everything as the trait does by default.
struct Bare;

impl Filesystem for Bare {
    type Fid = ();

    fn answers(&self, _request: MsgType) -> bool {
        false
    }
}

#[derive(Default)]
struct MemFid {
    path: RefCell<Vec<String>>,
    open: RefCell<bool>,
}

/// A small tree in memory: `/etc/hostname`, and an empty `/tmp`.
struct MemFs {
    /// The flags of every open that reached the host.
    opened_with: RefCell<Vec<u32>>,
}

const HOSTNAME: &[u8] = b"verified\n";

impl MemFs {
    fn new() -> MemFs {
        MemFs { opened_with: RefCell::new(Vec::new()) }
    }

    fn lookup(&self, path: &[String]) -> Result<Qid, Error> {
        let names: Vec<&str> = path.iter().map(|s| s.as_str()).collect();
        match names.as_slice() {
            [] => Ok(qid_from_attr(true, false, 1)),
            ["etc"] => Ok(qid_from_attr(true, false, 2)),
            ["etc", "hostname"] => Ok(qid_from_attr(false, false, 3)),
            ["tmp"] => Ok(qid_from_attr(true, false, 4)),
            _ => Err(Error::No(ENOENT)),
        }
    }
}

impl Filesystem for MemFs {
    type Fid = MemFid;

    fn answers(&self, request: MsgType) -> bool {
        matches!(
            request,
            MsgType::Tattach
                | MsgType::Twalk
                | MsgType::Tlopen
                | MsgType::Tread
                | MsgType::Treaddir
                | MsgType::Tfsync
                | MsgType::Tclunk
                | MsgType::Tremove
                | MsgType::Tstatfs
        )
    }

    fn rattach(
        &self,
        fid: &Fid<MemFid>,
        _afid: Option<&Fid<MemFid>>,
        _uname: &str,
        _aname: &str,
        _n_uname: u32,
    ) -> Result<Fcall, Error> {
        fid.aux.path.borrow_mut().clear();
        Ok(Fcall::Rattach { qid: self.lookup(&[])? })
    }

    fn rwalk(
        &self,
        fid: &Fid<MemFid>,
        newfid: &Fid<MemFid>,
        wnames: &Vec<String>,
    ) -> Result<Fcall, Error> {
        let mut path = fid.aux.path.borrow().clone();
        let mut walk = Walk::new(wnames.len());
        while let Some(i) = walk.next() {
            path.push(wnames[i].clone());
            walk.record(self.lookup(&path));
        }
        *newfid.aux.path.borrow_mut() = path;
        walk.finish()
    }

    fn rlopen(&self, fid: &Fid<MemFid>, flags: u32) -> Result<Fcall, Error> {
        let qid = self.lookup(&fid.aux.path.borrow())?;
        if let Some(host) = open_flags(&qid, flags) {
            self.opened_with.borrow_mut().push(host);
        }
        *fid.aux.open.borrow_mut() = true;
        Ok(Fcall::Rlopen { qid, iounit: 0 })
    }

    fn rread(&self, fid: &Fid<MemFid>, offset: u64, count: u32) -> Result<Fcall, Error> {
        if !*fid.aux.open.borrow() {
            return Err(not_open(FileOp::Read));
        }
        let from = (offset as usize).min(HOSTNAME.len());
        let n = (count as usize).min(HOSTNAME.len() - from);
        let mut buf = vec![0u8; count as usize];
        buf[..n].copy_from_slice(&HOSTNAME[from..from + n]);
        Ok(rread_reply(buf, n))
    }

    fn rreaddir(&self, fid: &Fid<MemFid>, offset: u64, count: u32) -> Result<Fcall, Error> {
        let path = fid.aux.path.borrow().clone();
        let dot = self.lookup(&path)?;
        let host: Vec<HostEntry> = match path.first().map(|s| s.as_str()) {
            None => vec![
                HostEntry { qid: qid_from_attr(true, false, 2), name: "etc".to_owned() },
                HostEntry { qid: qid_from_attr(true, false, 4), name: "tmp".to_owned() },
            ],
            Some("etc") => vec![HostEntry {
                qid: qid_from_attr(false, false, 3),
                name: "hostname".to_owned(),
            }],
            _ => vec![],
        };
        Ok(Fcall::Rreaddir { data: readdir(offset, count, dot, qid_from_attr(true, false, 1), &host) })
    }

    fn rfsync(&self, fid: &Fid<MemFid>) -> Result<Fcall, Error> {
        if !*fid.aux.open.borrow() {
            return Err(not_open(FileOp::Fsync));
        }
        Ok(Fcall::Rfsync)
    }

    fn rclunk(&self, _fid: &Fid<MemFid>) -> Result<Fcall, Error> {
        Ok(Fcall::Rclunk)
    }

    fn rremove(&self, _fid: &Fid<MemFid>) -> Result<Fcall, Error> {
        Err(Error::Io(IoError { raw_os_error: None, kind: IoErrorKind::Other }))
    }

    fn rstatfs(&self, _fid: &Fid<MemFid>) -> Result<Fcall, Error> {
        // An answer that is no reply.
        Ok(Fcall::Tstatfs { fid: 0 })
    }
}

fn msg(tag: u16, body: Fcall) -> Msg {
    Msg { tag, body }
}

fn attach(fid: u32) -> Fcall {
    Fcall::Tattach {
        fid,
        afid: NOFID,
        uname: "user".to_owned(),
        aname: "/".to_owned(),
        n_uname: 0,
    }
}

fn walk(fid: u32, newfid: u32, names: &[&str]) -> Fcall {
    Fcall::Twalk { fid, newfid, wnames: names.iter().map(|s| s.to_string()).collect() }
}

fn known(fids: &HashMap<u32, Fid<MemFid>>) -> Vec<u32> {
    let mut v: Vec<u32> = fids.keys().copied().collect();
    v.sort();
    v
}

fn error(tag: u16, ecode: u32) -> Option<Msg> {
    Some(msg(tag, Fcall::Rlerror { ecode }))
}

#[test]
fn version_handshake() {
    let mut fids = HashMap::new();
    let t = msg(NOTAG, Fcall::Tversion { msize: 8192, version: "9P2000.L".to_owned() });
    assert_eq!(
        dispatch(&t, &Bare, &mut fids),
        Some(msg(NOTAG, Fcall::Rversion { msize: 8192, version: "9P2000.L".to_owned() }))
    );
}

#[test]
fn version_unknown() {
    let mut fids = HashMap::new();
    let t = msg(NOTAG, Fcall::Tversion { msize: 8192, version: "9P2000".to_owned() });
    assert_eq!(
        dispatch(&t, &Bare, &mut fids),
        Some(msg(NOTAG, Fcall::Rversion { msize: 8192, version: "unknown".to_owned() }))
    );
    assert_eq!(
        rversion_reply(40, "9P2000.u"),
        Fcall::Rversion { msize: 40, version: "unknown".to_owned() }
    );
}

#[test]
fn callbacks_default_to_not_supported() {
    let mut fids = HashMap::new();
    assert_eq!(dispatch(&msg(1, attach(1)), &Bare, &mut fids), error(1, EOPNOTSUPP));
    assert!(fids.is_empty());
    assert_eq!(
        dispatch(
            &msg(2, Fcall::Tauth {
                afid: 3,
                uname: "u".to_owned(),
                aname: "a".to_owned(),
                n_uname: 0
            }),
            &Bare,
            &mut fids
        ),
        error(2, EOPNOTSUPP)
    );
    assert!(fids.is_empty());
}

#[test]
fn walk_read_round_trip() {
    let fs = MemFs::new();
    let mut fids = HashMap::new();
    assert!(matches!(
        dispatch(&msg(1, attach(1)), &fs, &mut fids),
        Some(Msg { tag: 1, body: Fcall::Rattach { .. } })
    ));
    match dispatch(&msg(2, walk(1, 2, &["etc", "hostname"])), &fs, &mut fids) {
        Some(Msg { tag: 2, body: Fcall::Rwalk { wqids } }) => {
            assert_eq!(wqids, vec![qid_from_attr(true, false, 2), qid_from_attr(false, false, 3)])
        }
        other => panic!("{:?}", other),
    }
    assert_eq!(known(&fids), vec![1, 2]);
    assert!(matches!(
        dispatch(&msg(3, Fcall::Tlopen { fid: 2, flags: O_RDONLY }), &fs, &mut fids),
        Some(Msg { tag: 3, body: Fcall::Rlopen { .. } })
    ));
    assert_eq!(
        dispatch(&msg(4, Fcall::Tread { fid: 2, offset: 0, count: 64 }), &fs, &mut fids),
        Some(msg(4, Fcall::Rread { data: Data(HOSTNAME.to_vec()) }))
    );
    assert_eq!(
        dispatch(&msg(5, Fcall::Tclunk { fid: 2 }), &fs, &mut fids),
        Some(msg(5, Fcall::Rclunk))
    );
    assert_eq!(known(&fids), vec![1]);
    assert_eq!(
        dispatch(&msg(6, Fcall::Tread { fid: 2, offset: 0, count: 64 }), &fs, &mut fids),
        error(6, EBADF)
    );
}

#[test]
fn short_walk() {
    let fs = MemFs::new();
    let mut fids = HashMap::new();
    dispatch(&msg(1, attach(1)), &fs, &mut fids);
    assert_eq!(
        dispatch(&msg(2, walk(1, 2, &["tmp", "does-not-exist"])), &fs, &mut fids),
        Some(msg(2, Fcall::Rwalk { wqids: vec![qid_from_attr(true, false, 4)] }))
    );
    assert_eq!(known(&fids), vec![1]);
    assert_eq!(
        dispatch(&msg(3, Fcall::Tclunk { fid: 2 }), &fs, &mut fids),
        error(3, EBADF)
    );
}

#[test]
fn walk_that_fails_at_once() {
    let fs = MemFs::new();
    let mut fids = HashMap::new();
    dispatch(&msg(1, attach(1)), &fs, &mut fids);
    assert_eq!(
        dispatch(&msg(2, walk(1, 2, &["nowhere", "etc"])), &fs, &mut fids),
        error(2, ENOENT)
    );
    assert_eq!(known(&fids), vec![1]);
}

#[test]
fn empty_walk_clones_the_fid() {
    let fs = MemFs::new();
    let mut fids = HashMap::new();
    dispatch(&msg(1, attach(1)), &fs, &mut fids);
    dispatch(&msg(2, walk(1, 2, &["etc"])), &fs, &mut fids);
    assert_eq!(
        dispatch(&msg(3, walk(2, 3, &[])), &fs, &mut fids),
        Some(msg(3, Fcall::Rwalk { wqids: vec![] }))
    );
    assert_eq!(known(&fids), vec![1, 2, 3]);
    assert_eq!(fids[&3].fid(), 3);
    assert_eq!(*fids[&3].aux.path.borrow(), vec!["etc".to_owned()]);
}

#[test]
fn flag_stripping() {
    const O_DIRECT: u32 = 0o40000;
    let fs = MemFs::new();
    let mut fids = HashMap::new();
    dispatch(&msg(1, attach(1)), &fs, &mut fids);
    dispatch(&msg(2, walk(1, 2, &["etc", "hostname"])), &fs, &mut fids);
    assert!(matches!(
        dispatch(&msg(3, Fcall::Tlopen { fid: 2, flags: O_RDWR | O_DIRECT }), &fs, &mut fids),
        Some(Msg { tag: 3, body: Fcall::Rlopen { .. } })
    ));
    assert_eq!(*fs.opened_with.borrow(), vec![O_RDWR]);
    assert_eq!(host_flags(O_RDWR | O_DIRECT), O_RDWR);
    // A directory is not opened on the host at all.
    dispatch(&msg(4, Fcall::Tlopen { fid: 1, flags: O_RDONLY }), &fs, &mut fids);
    assert_eq!(fs.opened_with.borrow().len(), 1);
}

#[test]
fn readdir_bootstrap() {
    let fs = MemFs::new();
    let mut fids = HashMap::new();
    dispatch(&msg(1, attach(1)), &fs, &mut fids);
    dispatch(&msg(2, walk(1, 2, &["tmp"])), &fs, &mut fids);
    match dispatch(&msg(3, Fcall::Treaddir { fid: 2, offset: 0, count: 8192 }), &fs, &mut fids) {
        Some(Msg { tag: 3, body: Fcall::Rreaddir { data } }) => {
            let seen: Vec<(&str, u64)> =
                data.data().iter().map(|e| (e.name.as_str(), e.offset)).collect();
            assert_eq!(seen, vec![(".", 0), ("..", 1)]);
        }
        other => panic!("{:?}", other),
    }
    match dispatch(&msg(4, Fcall::Treaddir { fid: 2, offset: 2, count: 8192 }), &fs, &mut fids) {
        Some(Msg { tag: 4, body: Fcall::Rreaddir { data } }) => assert!(data.data().is_empty()),
        other => panic!("{:?}", other),
    }
}

#[test]
fn unknown_fid_is_ebadf() {
    let fs = MemFs::new();
    let mut fids = HashMap::new();
    let requests = vec![
        Fcall::Tstatfs { fid: 7 },
        Fcall::Tlopen { fid: 7, flags: 0 },
        Fcall::Tread { fid: 7, offset: 0, count: 1 },
        Fcall::Twrite { fid: 7, offset: 0, data: Data(vec![1]) },
        Fcall::Tclunk { fid: 7 },
        Fcall::Tremove { fid: 7 },
        walk(7, 8, &["etc"]),
        Fcall::Treaddir { fid: 7, offset: 0, count: 10 },
        Fcall::Tfsync { fid: 7 },
        Fcall::Tgetattr { fid: 7, req_mask: p9cpu::fcall::GetattrMask::empty() },
        Fcall::Trename { fid: 7, dfid: 7, name: "n".to_owned() },
        Fcall::Tattach {
            fid: 1,
            afid: 7,
            uname: "u".to_owned(),
            aname: "a".to_owned(),
            n_uname: 0,
        },
    ];
    for (i, body) in requests.into_iter().enumerate() {
        assert_eq!(dispatch(&msg(i as u16, body), &fs, &mut fids), error(i as u16, EBADF));
        assert!(fids.is_empty());
    }
    // One known fid does not make the other known.
    dispatch(&msg(1, attach(1)), &fs, &mut fids);
    assert_eq!(
        dispatch(&msg(2, Fcall::Tlink { dfid: 1, fid: 7, name: "n".to_owned() }), &fs, &mut fids),
        error(2, EBADF)
    );
    assert_eq!(
        dispatch_once(&msg(2, Fcall::Tclunk { fid: 9 }), &fs, &mut fids),
        Err(Error::No(EBADF))
    );
}

#[test]
fn second_clunk_is_ebadf() {
    let fs = MemFs::new();
    let mut fids = HashMap::new();
    dispatch(&msg(1, attach(1)), &fs, &mut fids);
    assert_eq!(
        dispatch(&msg(2, Fcall::Tclunk { fid: 1 }), &fs, &mut fids),
        Some(msg(2, Fcall::Rclunk))
    );
    assert_eq!(dispatch(&msg(3, Fcall::Tclunk { fid: 1 }), &fs, &mut fids), error(3, EBADF));
}

#[test]
fn fid_table_follows_the_exchanges() {
    let fs = MemFs::new();
    let mut fids = HashMap::new();
    dispatch(&msg(1, attach(1)), &fs, &mut fids);
    dispatch(&msg(2, walk(1, 2, &["etc"])), &fs, &mut fids);
    dispatch(&msg(3, walk(1, 3, &["nowhere"])), &fs, &mut fids);
    dispatch(&msg(4, walk(2, 4, &["hostname"])), &fs, &mut fids);
    dispatch(&msg(5, walk(2, 5, &["hostname", "deeper"])), &fs, &mut fids);
    assert_eq!(known(&fids), vec![1, 2, 4]);
    dispatch(&msg(6, Fcall::Tclunk { fid: 2 }), &fs, &mut fids);
    dispatch(&msg(7, Fcall::Tclunk { fid: 2 }), &fs, &mut fids);
    // A failed remove takes nothing away.
    assert_eq!(dispatch(&msg(8, Fcall::Tremove { fid: 4 }), &fs, &mut fids), error(8, EIO));
    assert_eq!(known(&fids), vec![1, 4]);
    for (fid, entry) in fids.iter() {
        assert_eq!(*fid, entry.fid());
    }
}

#[test]
fn version_starts_afresh() {
    let fs = MemFs::new();
    let mut fids = HashMap::new();
    dispatch(&msg(1, attach(1)), &fs, &mut fids);
    dispatch(&msg(2, walk(1, 2, &["etc"])), &fs, &mut fids);
    assert_eq!(known(&fids), vec![1, 2]);
    dispatch(
        &msg(NOTAG, Fcall::Tversion { msize: 8192, version: "9P2000.L".to_owned() }),
        &fs,
        &mut fids,
    );
    assert!(fids.is_empty());
    assert_eq!(
        dispatch(&msg(3, Fcall::Tread { fid: 1, offset: 0, count: 1 }), &fs, &mut fids),
        error(3, EBADF)
    );
}

#[test]
fn flush_is_always_answered() {
    let mut fids = HashMap::new();
    assert_eq!(
        dispatch(&msg(7, Fcall::Tflush { oldtag: 3 }), &Bare, &mut fids),
        Some(msg(7, Fcall::Rflush))
    );
    assert_eq!(
        dispatch_once(&msg(7, Fcall::Tflush { oldtag: 3 }), &MemFs::new(), &mut HashMap::new()),
        Ok(Fcall::Rflush)
    );
}

#[test]
fn reply_as_request_is_not_supported() {
    let mut fids = HashMap::new();
    assert_eq!(dispatch(&msg(1, Fcall::Rclunk), &Bare, &mut fids), error(1, EOPNOTSUPP));
    assert_eq!(
        dispatch(&msg(2, Fcall::Rlerror { ecode: 1 }), &Bare, &mut fids),
        error(2, EOPNOTSUPP)
    );
}

#[test]
fn answer_that_is_no_reply_is_not_sent() {
    let fs = MemFs::new();
    let mut fids = HashMap::new();
    dispatch(&msg(1, attach(1)), &fs, &mut fids);
    assert_eq!(dispatch(&msg(2, Fcall::Tstatfs { fid: 1 }), &fs, &mut fids), None);
    assert_eq!(known(&fids), vec![1]);
}

#[test]
fn operation_on_unopened_fid() {
    let fs = MemFs::new();
    let mut fids = HashMap::new();
    dispatch(&msg(1, attach(1)), &fs, &mut fids);
    assert_eq!(dispatch(&msg(2, Fcall::Tfsync { fid: 1 }), &fs, &mut fids), error(2, EBADF));
    assert_eq!(
        dispatch(&msg(3, Fcall::Tread { fid: 1, offset: 0, count: 1 }), &fs, &mut fids),
        error(3, p9cpu::error::EINVAL)
    );
}

#[test]
fn frames_in_frames_out() {
    let fs = MemFs::new();
    let mut fids = HashMap::new();
    let mut frame = Vec::new();
    write_frame(&mut frame, &msg(1, attach(1)));
    let out = serve_frame(frame, &fs, &mut fids).unwrap().unwrap();
    let mut r = Decoder::new(out);
    assert_eq!(
        read_frame(&mut r),
        Ok(msg(1, Fcall::Rattach { qid: qid_from_attr(true, false, 1) }))
    );
    assert_eq!(known(&fids), vec![1]);

    let mut frame = Vec::new();
    write_frame(&mut frame, &msg(2, Fcall::Tstatfs { fid: 1 }));
    assert_eq!(serve_frame(frame, &fs, &mut fids), Ok(None));
}

#[test]
fn broken_frame_is_a_protocol_error() {
    let fs = MemFs::new();
    let mut fids = HashMap::new();
    dispatch(&msg(1, attach(1)), &fs, &mut fids);
    assert_eq!(serve_frame(vec![1, 0, 0], &fs, &mut fids), Err(DecodeError::UnexpectedEof));
    assert_eq!(
        serve_frame(vec![3, 0, 0, 0, 200, 0, 0], &fs, &mut fids),
        Err(DecodeError::InvalidType)
    );
    assert_eq!(
        serve_frame(vec![4, 0, 0, 0, 121, 0, 0, 0], &fs, &mut fids),
        Err(DecodeError::FrameMismatch)
    );
    assert_eq!(
        serve_frame(vec![6, 0, 0, 0, 23, 0, 0, 1, 0, 0xff], &fs, &mut fids),
        Err(DecodeError::InvalidUtf8)
    );
    assert_eq!(known(&fids), vec![1]);
}

#[test]
fn failed_request_leaves_the_table_as_it_was() {
    let fs = MemFs::new();
    let mut fids = HashMap::new();
    dispatch(&msg(1, attach(1)), &fs, &mut fids);
    dispatch(&msg(2, walk(1, 2, &["etc"])), &fs, &mut fids);
    assert_eq!(*fids[&2].aux.path.borrow(), vec!["etc".to_owned()]);
    // A walk onto fid 2 that fails at its first name does not touch fid 2.
    assert_eq!(
        dispatch(&msg(3, walk(1, 2, &["nowhere"])), &fs, &mut fids),
        error(3, ENOENT)
    );
    assert_eq!(known(&fids), vec![1, 2]);
    assert_eq!(*fids[&2].aux.path.borrow(), vec!["etc".to_owned()]);
    // Nor does one that ends early.
    assert_eq!(
        dispatch(&msg(4, walk(1, 2, &["tmp", "does-not-exist"])), &fs, &mut fids),
        Some(msg(4, Fcall::Rwalk { wqids: vec![qid_from_attr(true, false, 4)] }))
    );
    assert_eq!(*fids[&2].aux.path.borrow(), vec!["etc".to_owned()]);
    // Nor a request on an unknown fid.
    assert_eq!(dispatch(&msg(5, walk(9, 2, &[])), &fs, &mut fids), error(5, EBADF));
    assert_eq!(*fids[&2].aux.path.borrow(), vec!["etc".to_owned()]);
}

#[test]
fn published_fid_stands_under_its_own_number() {
    let fs = MemFs::new();
    let mut fids = HashMap::new();
    assert!(dispatch_once(&msg(1, attach(7)), &fs, &mut fids).is_ok());
    assert_eq!(fids[&7].fid(), 7);
    assert!(dispatch_once(&msg(2, walk(7, 8, &["etc", "hostname"])), &fs, &mut fids).is_ok());
    assert_eq!(fids[&8].fid(), 8);
    assert_eq!(*fids[&8].aux.path.borrow(), vec!["etc".to_owned(), "hostname".to_owned()]);
    assert_eq!(fids[&7].fid(), 7);
    assert!(fids[&7].aux().path.borrow().is_empty());
}

#[test]
fn callback_gets_the_record_of_the_fid_it_is_asked_about() {
    let fs = MemFs::new();
    let mut fids = HashMap::new();
    dispatch(&msg(1, attach(1)), &fs, &mut fids);
    dispatch(&msg(2, walk(1, 2, &["etc", "hostname"])), &fs, &mut fids);
    dispatch(&msg(3, walk(1, 3, &["etc", "hostname"])), &fs, &mut fids);
    dispatch(&msg(4, Fcall::Tlopen { fid: 3, flags: O_RDONLY }), &fs, &mut fids);
    // Fid 3 was opened and fid 2 was not, though both name one file.
    assert!(*fids[&3].aux.open.borrow());
    assert!(!*fids[&2].aux.open.borrow());
    assert_eq!(
        dispatch_once(&msg(5, Fcall::Tread { fid: 3, offset: 3, count: 4 }), &fs, &mut fids),
        Ok(Fcall::Rread { data: Data(b"ifie".to_vec()) })
    );
    assert_eq!(
        dispatch(&msg(6, Fcall::Tread { fid: 2, offset: 3, count: 4 }), &fs, &mut fids),
        error(6, 22)
    );
}

#[test]
fn error_of_a_callback_goes_back_as_its_errno() {
    let fs = MemFs::new();
    let mut fids = HashMap::new();
    dispatch(&msg(1, attach(1)), &fs, &mut fids);
    assert_eq!(
        dispatch_once(&msg(2, Fcall::Tremove { fid: 1 }), &fs, &mut fids),
        Err(Error::Io(IoError { raw_os_error: None, kind: IoErrorKind::Other }))
    );
    assert_eq!(dispatch(&msg(3, Fcall::Tremove { fid: 1 }), &fs, &mut fids), error(3, EIO));
    assert_eq!(known(&fids), vec![1]);
}
