use p9cpu::error::{Error, IoError, IoErrorKind, EBADF, ENOENT};
use p9cpu::fcall::{
    Data, DirEntry, Fcall, Qid, QidType, SetAttr, SetattrMask, Statfs, Time,
};
use p9cpu::unpfs::{
    host_flags, not_open, open_flags, qid_from_attr, qid_type, readdir, rread_reply,
    rwrite_reply, setattr_plan, statfs_from, FileOp, HostEntry, SetattrOp, Walk, O_CREAT,
    O_RDONLY, O_RDWR, O_TRUNC, O_WRONLY, UNIX_FLAGS,
};

fn q(path: u64) -> Qid {
    Qid { typ: QidType { bits: 0 }, version: 0, path }
}

fn host(names: &[&str]) -> Vec<HostEntry> {
    names
        .iter()
        .enumerate()
        .map(|(i, n)| HostEntry { qid: q(100 + i as u64), name: n.to_string() })
        .collect()
}

fn names(data: &p9cpu::fcall::DirEntryData) -> Vec<(String, u64)> {
    data.data().iter().map(|e| (e.name.clone(), e.offset)).collect()
}

#[test]
fn host_flags_are_masked() {
    assert_eq!(UNIX_FLAGS, O_RDONLY | O_WRONLY | O_RDWR | O_CREAT | O_TRUNC);
    assert_eq!(UNIX_FLAGS, 0x243);
    assert_eq!(host_flags(0xffff_ffff), UNIX_FLAGS);
    assert_eq!(host_flags(O_WRONLY | O_CREAT | O_TRUNC | 0o2000), O_WRONLY | O_CREAT | O_TRUNC);
    assert_eq!(host_flags(0o40000), 0);
    for flags in [0u32, 1, 2, 0o100, 0o1000, 0o4000, 0o40000, 0o200000, 0x8000_0000] {
        assert_eq!(host_flags(flags) & !UNIX_FLAGS, 0);
    }
}

#[test]
fn directories_are_not_opened() {
    let dir = qid_from_attr(true, false, 1);
    let file = qid_from_attr(false, false, 2);
    assert_eq!(open_flags(&dir, O_RDWR), None);
    assert_eq!(open_flags(&file, O_RDWR | 0o40000), Some(O_RDWR));
}

#[test]
fn qid_of_a_host_file() {
    assert_eq!(qid_type(false, false).bits(), QidType::FILE);
    assert_eq!(qid_type(true, false).bits(), QidType::DIR);
    assert_eq!(qid_type(false, true).bits(), QidType::SYMLINK);
    assert_eq!(qid_type(true, true).bits(), QidType::DIR | QidType::SYMLINK);
    assert_eq!(
        qid_from_attr(true, false, 77),
        Qid { typ: QidType { bits: 0x80 }, version: 0, path: 77 }
    );
}

#[test]
fn unopened_fid_errors() {
    assert_eq!(not_open(FileOp::Fsync), Error::No(EBADF));
    let invalid = Error::Io(IoError { raw_os_error: None, kind: IoErrorKind::InvalidInput });
    assert_eq!(not_open(FileOp::Read), invalid);
    assert_eq!(not_open(FileOp::Write), invalid);
}

#[test]
fn short_read_is_obeyed() {
    assert_eq!(rread_reply(vec![1, 2, 3, 4], 2), Fcall::Rread { data: Data(vec![1, 2]) });
    assert_eq!(rread_reply(vec![1, 2, 3, 4], 0), Fcall::Rread { data: Data(vec![]) });
    assert_eq!(rread_reply(vec![1, 2], 2), Fcall::Rread { data: Data(vec![1, 2]) });
    assert_eq!(rread_reply(vec![1, 2], 9), Fcall::Rread { data: Data(vec![1, 2]) });
}

#[test]
fn short_write_is_reported() {
    assert_eq!(rwrite_reply(3), Fcall::Rwrite { count: 3 });
    assert_eq!(rwrite_reply(0), Fcall::Rwrite { count: 0 });
}

#[test]
fn statfs_has_no_type() {
    assert_eq!(
        statfs_from(4096, 1, 2, 3, 4, 5, 6, 255),
        Statfs {
            typ: 0,
            bsize: 4096,
            blocks: 1,
            bfree: 2,
            bavail: 3,
            files: 4,
            ffree: 5,
            fsid: 6,
            namelen: 255
        }
    );
    assert_eq!(statfs_from(0x1_0000_0010, 0, 0, 0, 0, 0, 0, 0x2_0000_0003).bsize, 0x10);
    assert_eq!(statfs_from(0x1_0000_0010, 0, 0, 0, 0, 0, 0, 0x2_0000_0003).namelen, 3);
}

fn attr() -> SetAttr {
    SetAttr {
        mode: 0o640,
        uid: 10,
        gid: 20,
        size: 30,
        atime: Time { sec: 1, nsec: 2 },
        mtime: Time { sec: 3, nsec: 4 },
    }
}

#[test]
fn setattr_changes_what_is_asked() {
    let plan = |bits| setattr_plan(SetattrMask::from_bits_truncate(bits), &attr());
    assert_eq!(plan(0), vec![]);
    assert_eq!(plan(SetattrMask::MODE), vec![SetattrOp::Chmod { mode: 0o640 }]);
    assert_eq!(plan(SetattrMask::UID), vec![SetattrOp::Chown { uid: Some(10), gid: None }]);
    assert_eq!(plan(SetattrMask::GID), vec![SetattrOp::Chown { uid: None, gid: Some(20) }]);
    assert_eq!(
        plan(SetattrMask::UID | SetattrMask::GID),
        vec![SetattrOp::Chown { uid: Some(10), gid: Some(20) }]
    );
    assert_eq!(plan(SetattrMask::SIZE), vec![SetattrOp::Truncate { size: 30 }]);
    assert_eq!(
        plan(SetattrMask::ATIME_SET),
        vec![SetattrOp::SetTimes { atime: Some(Time { sec: 1, nsec: 2 }), mtime: None }]
    );
    assert_eq!(
        plan(SetattrMask::MTIME_SET),
        vec![SetattrOp::SetTimes { atime: None, mtime: Some(Time { sec: 3, nsec: 4 }) }]
    );
    // Without the bits that say that a time is given, no time is set.
    assert_eq!(plan(SetattrMask::ATIME | SetattrMask::MTIME | SetattrMask::CTIME), vec![]);
}

#[test]
fn setattr_changes_in_order() {
    let all = setattr_plan(SetattrMask::from_bits_truncate(!0), &attr());
    assert_eq!(
        all,
        vec![
            SetattrOp::Chmod { mode: 0o640 },
            SetattrOp::Chown { uid: Some(10), gid: Some(20) },
            SetattrOp::Truncate { size: 30 },
            SetattrOp::SetTimes {
                atime: Some(Time { sec: 1, nsec: 2 }),
                mtime: Some(Time { sec: 3, nsec: 4 })
            },
        ]
    );
}

fn run_walk(lookups: &[Result<Qid, Error>]) -> (Result<Fcall, Error>, usize) {
    let mut walk = Walk::new(lookups.len());
    let mut asked = 0;
    while let Some(i) = walk.next() {
        assert_eq!(i, asked);
        walk.record(lookups[i].clone());
        asked += 1;
    }
    (walk.finish(), asked)
}

#[test]
fn walk_collects_qids() {
    assert_eq!(run_walk(&[]), (Ok(Fcall::Rwalk { wqids: vec![] }), 0));
    assert_eq!(
        run_walk(&[Ok(q(1)), Ok(q(2)), Ok(q(3))]),
        (Ok(Fcall::Rwalk { wqids: vec![q(1), q(2), q(3)] }), 3)
    );
}

#[test]
fn walk_stops_at_first_failure() {
    let gone = Err(Error::No(ENOENT));
    // The first name failing fails the walk, and nothing more is looked up.
    assert_eq!(run_walk(&[gone.clone(), Ok(q(2))]), (Err(Error::No(ENOENT)), 1));
    // A later name failing ends the walk with what was found.
    assert_eq!(
        run_walk(&[Ok(q(1)), gone.clone(), Ok(q(3))]),
        (Ok(Fcall::Rwalk { wqids: vec![q(1)] }), 2)
    );
    assert_eq!(
        run_walk(&[Ok(q(1)), Ok(q(2)), gone]),
        (Ok(Fcall::Rwalk { wqids: vec![q(1), q(2)] }), 3)
    );
}

#[test]
fn finished_walk_takes_no_more() {
    let mut walk = Walk::new(1);
    walk.record(Ok(q(1)));
    assert_eq!(walk.next(), None);
    walk.record(Ok(q(2)));
    walk.record(Err(Error::No(ENOENT)));
    assert_eq!(walk.finish(), Ok(Fcall::Rwalk { wqids: vec![q(1)] }));
}

#[test]
fn readdir_from_the_start() {
    let data = readdir(0, 8192, q(1), q(2), &host(&["a", "bb", "ccc"]));
    assert_eq!(
        data.data().to_vec(),
        vec![
            DirEntry { qid: q(1), offset: 0, typ: 0, name: ".".to_owned() },
            DirEntry { qid: q(2), offset: 1, typ: 0, name: "..".to_owned() },
            DirEntry { qid: q(100), offset: 2, typ: 0, name: "a".to_owned() },
            DirEntry { qid: q(101), offset: 3, typ: 0, name: "bb".to_owned() },
            DirEntry { qid: q(102), offset: 4, typ: 0, name: "ccc".to_owned() },
        ]
    );
}

#[test]
fn readdir_of_an_empty_directory() {
    let data = readdir(0, 8192, q(1), q(2), &Vec::new());
    assert_eq!(names(&data), vec![(".".to_owned(), 0), ("..".to_owned(), 1)]);
    assert!(readdir(2, 8192, q(1), q(2), &Vec::new()).data().is_empty());
    assert!(readdir(1, 8192, q(1), q(2), &Vec::new()).data().is_empty());
}

#[test]
fn readdir_stops_when_full() {
    let h = host(&["a", "bb", "ccc"]);
    // "." takes 25 bytes, ".." 26, "a" 25, "bb" 26, "ccc" 27.
    assert!(readdir(0, 24, q(1), q(2), &h).data().is_empty());
    assert_eq!(readdir(0, 25, q(1), q(2), &h).data().len(), 1);
    assert_eq!(readdir(0, 50, q(1), q(2), &h).data().len(), 1);
    assert_eq!(readdir(0, 51, q(1), q(2), &h).data().len(), 2);
    assert_eq!(readdir(0, 76, q(1), q(2), &h).data().len(), 3);
    assert_eq!(readdir(0, 101, q(1), q(2), &h).data().len(), 3);
    assert_eq!(readdir(0, 102, q(1), q(2), &h).data().len(), 4);
    assert_eq!(readdir(0, 129, q(1), q(2), &h).data().len(), 5);
    for count in 0..200 {
        assert!(readdir(0, count, q(1), q(2), &h).size() <= count);
        assert!(readdir(3, count, q(1), q(2), &h).size() <= count);
    }
}

#[test]
fn readdir_resumes_after_the_last_offset() {
    let h = host(&["a", "bb", "ccc", "dddd", "eeeee"]);
    let whole = names(&readdir(0, 8192, q(1), q(2), &h));
    assert_eq!(whole.len(), 7);
    for count in [51u32, 60, 80, 110, 8192] {
        let mut seen = Vec::new();
        let mut off = 0;
        loop {
            let part = names(&readdir(off, count, q(1), q(2), &h));
            match part.last() {
                Some((_, last)) => off = *last,
                None => break,
            }
            seen.extend(part);
        }
        assert_eq!(seen, whole);
    }
}

#[test]
fn readdir_past_the_end() {
    let h = host(&["a"]);
    assert_eq!(names(&readdir(1, 8192, q(1), q(2), &h)), vec![("a".to_owned(), 2)]);
    assert!(readdir(2, 8192, q(1), q(2), &h).data().is_empty());
    assert!(readdir(u64::MAX, 8192, q(1), q(2), &h).data().is_empty());
}
