use p9cpu::fcall::{
    DirEntry, DirEntryData, Fcall, GetattrMask, LockType, MsgType, Qid, QidType, SetattrMask,
    IOHDRSZ, NOFID, NONUNAME, NOTAG, P92000, READDIRHDRSZ, V9FS_PORT,
};

fn qid(path: u64) -> Qid {
    Qid { typ: QidType::from_bits_truncate(QidType::FILE), version: 0, path }
}

#[test]
fn magic_numbers() {
    assert_eq!(NOTAG, !0u16);
    assert_eq!(NOFID, !0u32);
    assert_eq!(NONUNAME, !0u32);
    assert_eq!(IOHDRSZ, 24);
    assert_eq!(READDIRHDRSZ, 24);
    assert_eq!(V9FS_PORT, 564);
    assert_eq!(P92000, "9P2000");
}

#[test]
fn type_codes_match_v9fs() {
    let table = [
        (MsgType::Tlerror, 6),
        (MsgType::Rlerror, 7),
        (MsgType::Tstatfs, 8),
        (MsgType::Rstatfs, 9),
        (MsgType::Tlopen, 12),
        (MsgType::Rlopen, 13),
        (MsgType::Tlcreate, 14),
        (MsgType::Rlcreate, 15),
        (MsgType::Tsymlink, 16),
        (MsgType::Rsymlink, 17),
        (MsgType::Tmknod, 18),
        (MsgType::Rmknod, 19),
        (MsgType::Trename, 20),
        (MsgType::Rrename, 21),
        (MsgType::Treadlink, 22),
        (MsgType::Rreadlink, 23),
        (MsgType::Tgetattr, 24),
        (MsgType::Rgetattr, 25),
        (MsgType::Tsetattr, 26),
        (MsgType::Rsetattr, 27),
        (MsgType::Txattrwalk, 30),
        (MsgType::Rxattrwalk, 31),
        (MsgType::Txattrcreate, 32),
        (MsgType::Rxattrcreate, 33),
        (MsgType::Treaddir, 40),
        (MsgType::Rreaddir, 41),
        (MsgType::Tfsync, 50),
        (MsgType::Rfsync, 51),
        (MsgType::Tlock, 52),
        (MsgType::Rlock, 53),
        (MsgType::Tgetlock, 54),
        (MsgType::Rgetlock, 55),
        (MsgType::Tlink, 70),
        (MsgType::Rlink, 71),
        (MsgType::Tmkdir, 72),
        (MsgType::Rmkdir, 73),
        (MsgType::Trenameat, 74),
        (MsgType::Rrenameat, 75),
        (MsgType::Tunlinkat, 76),
        (MsgType::Runlinkat, 77),
        (MsgType::Tversion, 100),
        (MsgType::Rversion, 101),
        (MsgType::Tauth, 102),
        (MsgType::Rauth, 103),
        (MsgType::Tattach, 104),
        (MsgType::Rattach, 105),
        (MsgType::Tflush, 108),
        (MsgType::Rflush, 109),
        (MsgType::Twalk, 110),
        (MsgType::Rwalk, 111),
        (MsgType::Tread, 116),
        (MsgType::Rread, 117),
        (MsgType::Twrite, 118),
        (MsgType::Rwrite, 119),
        (MsgType::Tclunk, 120),
        (MsgType::Rclunk, 121),
        (MsgType::Tremove, 122),
        (MsgType::Rremove, 123),
    ];
    for (t, code) in table {
        assert_eq!(t.to_u8(), code);
        assert_eq!(MsgType::from_u8(code), Some(t));
        assert_eq!(t.is_r(), code % 2 == 1);
        assert_eq!(t.is_t(), code % 2 == 0);
    }
    let known: Vec<u8> = table.iter().map(|(_, c)| *c).collect();
    for code in 0..=255u8 {
        if !known.contains(&code) {
            assert_eq!(MsgType::from_u8(code), None);
        }
    }
}

#[test]
fn type_of_a_body() {
    assert_eq!(MsgType::from(&Fcall::Rflush), MsgType::Rflush);
    assert_eq!(MsgType::from(&Fcall::Tclunk { fid: 1 }), MsgType::Tclunk);
    assert_eq!(MsgType::from(&Fcall::Rlerror { ecode: 2 }), MsgType::Rlerror);
}

#[test]
fn fids_of_a_request() {
    assert_eq!(Fcall::Tstatfs { fid: 3 }.fids(), vec![3]);
    assert_eq!(Fcall::Trename { fid: 1, dfid: 2, name: "n".to_owned() }.fids(), vec![1, 2]);
    assert_eq!(Fcall::Tlink { dfid: 1, fid: 2, name: "n".to_owned() }.fids(), vec![1, 2]);
    assert_eq!(
        Fcall::Trenameat {
            olddirfid: 4,
            oldname: "a".to_owned(),
            newdirfid: 5,
            newname: "b".to_owned()
        }
        .fids(),
        vec![4, 5]
    );
    let attach = |afid| Fcall::Tattach {
        fid: 1,
        afid,
        uname: "u".to_owned(),
        aname: "a".to_owned(),
        n_uname: 0,
    };
    assert_eq!(attach(NOFID).fids(), Vec::<u32>::new());
    assert_eq!(attach(9).fids(), vec![9]);
    assert_eq!(Fcall::Twalk { fid: 1, newfid: 2, wnames: vec![] }.fids(), vec![1]);
    assert_eq!(Fcall::Tversion { msize: 1, version: "v".to_owned() }.fids(), Vec::<u32>::new());
    assert_eq!(Fcall::Rclunk.fids(), Vec::<u32>::new());
}

#[test]
fn newfid_of_a_request() {
    assert_eq!(Fcall::Twalk { fid: 1, newfid: 2, wnames: vec![] }.newfid(), Some(2));
    assert_eq!(Fcall::Txattrwalk { fid: 1, newfid: 3, name: "n".to_owned() }.newfid(), Some(3));
    assert_eq!(
        Fcall::Tauth { afid: 4, uname: "u".to_owned(), aname: "a".to_owned(), n_uname: 0 }
            .newfid(),
        Some(4)
    );
    assert_eq!(
        Fcall::Tattach {
            fid: 5,
            afid: NOFID,
            uname: "u".to_owned(),
            aname: "a".to_owned(),
            n_uname: 0
        }
        .newfid(),
        Some(5)
    );
    assert_eq!(Fcall::Tclunk { fid: 1 }.newfid(), None);
}

#[test]
fn qids_of_a_reply() {
    assert_eq!(Fcall::Rattach { qid: qid(1) }.qids(), vec![qid(1)]);
    assert_eq!(Fcall::Rauth { aqid: qid(2) }.qids(), vec![qid(2)]);
    assert_eq!(Fcall::Rwalk { wqids: vec![qid(3), qid(4)] }.qids(), vec![qid(3), qid(4)]);
    assert_eq!(Fcall::Rclunk.qids(), Vec::<Qid>::new());
}

#[test]
fn sizes_on_the_wire() {
    assert_eq!(qid(1).size(), 13);
    let e = DirEntry { qid: qid(1), offset: 0, typ: 0, name: "héllo".to_owned() };
    assert_eq!(e.size(), 13 + 8 + 1 + 2 + 6);
    let mut data = DirEntryData::new();
    assert_eq!(data.size(), 0);
    data.push(e.clone());
    data.push(e);
    assert_eq!(data.size(), 60);
    assert_eq!(data.data().len(), 2);
}

#[test]
fn flags_keep_known_bits() {
    assert_eq!(LockType::from_bits_truncate(0xff).bits(), 3);
    assert_eq!(GetattrMask::from_bits_truncate(!0).bits(), 0x3fff);
    assert_eq!(SetattrMask::from_bits_truncate(!0).bits(), 0x1ff);
    assert_eq!(QidType::from_bits_truncate(0xff).bits(), 0xff);
    assert_eq!(QidType::empty().bits(), 0);
}

#[test]
fn flags_are_tested_and_set() {
    let mut t = QidType::from_bits_truncate(QidType::FILE);
    assert!(!t.contains(QidType::DIR));
    t.insert(QidType::DIR);
    assert!(t.contains(QidType::DIR));
    assert!(!t.contains(QidType::DIR | QidType::SYMLINK));
    assert!(t.intersects(QidType::DIR | QidType::SYMLINK));
    assert!(!t.intersects(QidType::SYMLINK));
    let mut m = SetattrMask::empty();
    m.insert(0xffff_0000 | SetattrMask::UID);
    assert_eq!(m.bits(), SetattrMask::UID);
}
