use p9cpu::error::DecodeError;
use p9cpu::fcall::{
    Data, DirEntry, DirEntryData, Fcall, Flock, GetattrMask, Getlock, LockFlag, LockStatus,
    LockType, Msg, Qid, QidType, SetAttr, SetattrMask, Stat, Statfs, Time, NOTAG, P92000L,
};
use p9cpu::serialize::{
    frame_body_len, read_frame, read_msg, write_frame, write_msg, Decodable, Decoder, Encodable,
    Encoder,
};

#[test]
fn encoder_test1() {
    let expected: Vec<u8> = (0..10).collect();
    let mut encoder = Vec::new();
    for i in 0..10 {
        (&(i as u8)).encode(&mut encoder);
    }
    assert_eq!(expected, encoder);
}

#[test]
fn decoder_test1() {
    let expected: Vec<u8> = (0..10).collect();
    let mut decoder = Decoder::new(expected.clone());
    let mut actual: Vec<u8> = Vec::new();
    loop {
        match Decodable::decode(&mut decoder) {
            Ok(i) => actual.push(i),
            Err(_) => break,
        }
    }
    assert_eq!(expected, actual);
}

#[test]
fn msg_encode_decode1() {
    let expected = Msg {
        tag: 0xdead,
        body: Fcall::Rversion {
            msize: 40,
            version: P92000L.to_owned(),
        },
    };
    let mut buf = Vec::new();
    let _ = expected.encode(&mut buf);

    let mut readbuf = Decoder::new(buf);
    let actual = Decodable::decode(&mut readbuf);

    assert_eq!(expected, actual.unwrap());
}

fn qid(path: u64) -> Qid {
    Qid { typ: QidType::from_bits_truncate(QidType::DIR), version: 7, path }
}

fn time(sec: u64) -> Time {
    Time { sec, nsec: sec + 1 }
}

fn stat() -> Stat {
    Stat {
        mode: 0o100644,
        uid: 1000,
        gid: 1001,
        nlink: 2,
        rdev: 3,
        size: 4096,
        blksize: 512,
        blocks: 8,
        atime: time(10),
        mtime: time(20),
        ctime: time(30),
    }
}

fn round_trip(body: Fcall) {
    let msg = Msg { tag: 0x1234, body };
    let mut bytes = Vec::new();
    let n = write_msg(&mut bytes, &msg);
    assert_eq!(n, bytes.len());
    let mut r = Decoder::new(bytes.clone());
    assert_eq!(read_msg(&mut r), Ok(msg.clone()));
    assert_eq!(r.unread(), 0);

    let mut frame = Vec::new();
    let n = write_frame(&mut frame, &msg);
    assert_eq!(n, bytes.len() + 4);
    assert_eq!(frame[4..], bytes[..]);
    assert_eq!(frame_body_len(&frame[..4].to_vec()), Some(bytes.len() as u32));
    let mut r = Decoder::new(frame);
    assert_eq!(read_frame(&mut r), Ok(msg));
    assert_eq!(r.unread(), 0);
}

#[test]
fn integers_are_little_endian() {
    let mut w = Vec::new();
    assert_eq!(0x0102u16.encode(&mut w), 2);
    assert_eq!(0x0304_0506u32.encode(&mut w), 4);
    assert_eq!(0x0708_090a_0b0c_0d0eu64.encode(&mut w), 8);
    assert_eq!(
        w,
        vec![0x02, 0x01, 0x06, 0x05, 0x04, 0x03, 0x0e, 0x0d, 0x0c, 0x0b, 0x0a, 0x09, 0x08, 0x07]
    );
    let mut r = Decoder::new(w);
    assert_eq!(u16::decode(&mut r), Ok(0x0102));
    assert_eq!(u32::decode(&mut r), Ok(0x0304_0506));
    assert_eq!(u64::decode(&mut r), Ok(0x0708_090a_0b0c_0d0e));
    assert_eq!(u8::decode(&mut r), Err(DecodeError::UnexpectedEof));
}

#[test]
fn string_is_length_then_bytes() {
    let mut w = Vec::new();
    assert_eq!("héllo".to_owned().encode(&mut w), 8);
    assert_eq!(w, vec![6, 0, b'h', 0xc3, 0xa9, b'l', b'l', b'o']);
    let mut r = Decoder::new(w);
    assert_eq!(String::decode(&mut r), Ok("héllo".to_owned()));
}

#[test]
fn string_must_be_utf8() {
    let mut r = Decoder::new(vec![2, 0, 0xff, 0xfe]);
    assert_eq!(String::decode(&mut r), Err(DecodeError::InvalidUtf8));
}

#[test]
fn string_must_be_whole() {
    let mut r = Decoder::new(vec![5, 0, b'a', b'b']);
    assert_eq!(String::decode(&mut r), Err(DecodeError::UnexpectedEof));
    let mut r = Decoder::new(vec![5]);
    assert_eq!(String::decode(&mut r), Err(DecodeError::UnexpectedEof));
}

#[test]
fn tversion_bytes() {
    let msg = Msg {
        tag: NOTAG,
        body: Fcall::Tversion { msize: 8192, version: "9P2000.L".to_owned() },
    };
    let mut frame = Vec::new();
    assert_eq!(write_frame(&mut frame, &msg), 21);
    assert_eq!(
        frame,
        vec![
            17, 0, 0, 0, 100, 0xff, 0xff, 0x00, 0x20, 0, 0, 8, 0, b'9', b'P', b'2', b'0', b'0',
            b'0', b'.', b'L'
        ]
    );
}

#[test]
fn frame_prefix_counts_the_rest() {
    let msg = Msg { tag: 1, body: Fcall::Rclunk };
    let mut frame = Vec::new();
    write_frame(&mut frame, &msg);
    assert_eq!(frame, vec![3, 0, 0, 0, 121, 1, 0]);
}

#[test]
fn frame_with_wrong_size_is_rejected() {
    // One byte more than the message takes.
    let mut r = Decoder::new(vec![4, 0, 0, 0, 121, 1, 0, 0]);
    assert_eq!(read_frame(&mut r), Err(DecodeError::FrameMismatch));
    // One byte less than the message takes.
    let mut r = Decoder::new(vec![2, 0, 0, 0, 121, 1, 0]);
    assert_eq!(read_frame(&mut r), Err(DecodeError::UnexpectedEof));
    // More announced than there is.
    let mut r = Decoder::new(vec![9, 0, 0, 0, 121, 1, 0]);
    assert_eq!(read_frame(&mut r), Err(DecodeError::UnexpectedEof));
    let mut r = Decoder::new(vec![9, 0]);
    assert_eq!(read_frame(&mut r), Err(DecodeError::UnexpectedEof));
}

#[test]
fn frames_follow_each_other() {
    let a = Msg { tag: 1, body: Fcall::Tclunk { fid: 5 } };
    let b = Msg { tag: 2, body: Fcall::Rclunk };
    let mut bytes = Vec::new();
    write_frame(&mut bytes, &a);
    write_frame(&mut bytes, &b);
    let mut r = Decoder::new(bytes);
    assert_eq!(read_frame(&mut r), Ok(a));
    assert_eq!(read_frame(&mut r), Ok(b));
    assert_eq!(r.unread(), 0);
}

#[test]
fn unknown_type_is_rejected() {
    let mut r = Decoder::new(vec![255, 0, 0]);
    assert_eq!(read_msg(&mut r), Err(DecodeError::InvalidType));
    // Tlerror is kept free.
    let mut r = Decoder::new(vec![6, 0, 0, 1, 0, 0, 0]);
    assert_eq!(read_msg(&mut r), Err(DecodeError::InvalidType));
    // Codes of the older protocol.
    let mut r = Decoder::new(vec![112, 0, 0]);
    assert_eq!(read_msg(&mut r), Err(DecodeError::InvalidType));
    // The tag is read before the type is looked at.
    let mut r = Decoder::new(vec![255]);
    assert_eq!(read_msg(&mut r), Err(DecodeError::UnexpectedEof));
}

#[test]
fn truncated_message_is_rejected() {
    let msg = Msg {
        tag: 3,
        body: Fcall::Twalk { fid: 1, newfid: 2, wnames: vec!["etc".to_owned(), "x".to_owned()] },
    };
    let mut bytes = Vec::new();
    write_msg(&mut bytes, &msg);
    for len in 0..bytes.len() {
        let mut r = Decoder::new(bytes[..len].to_vec());
        assert_eq!(read_msg(&mut r), Err(DecodeError::UnexpectedEof));
    }
}

#[test]
fn rgetattr_ends_with_reserved_words() {
    let msg = Msg {
        tag: 9,
        body: Fcall::Rgetattr {
            valid: GetattrMask::from_bits_truncate(GetattrMask::BASIC),
            qid: qid(42),
            stat: stat(),
        },
    };
    let mut bytes = Vec::new();
    assert_eq!(write_msg(&mut bytes, &msg), 188);
    assert_eq!(bytes.len(), 3 + 8 + 13 + 100 + 64);
    assert!(bytes[bytes.len() - 64..].iter().all(|b| *b == 0));
    // What the reserved words hold does not matter.
    let n = bytes.len();
    for b in bytes[n - 64..].iter_mut() {
        *b = 0xaa;
    }
    let mut r = Decoder::new(bytes.clone());
    assert_eq!(read_msg(&mut r), Ok(msg));
    // They must be there, though.
    let mut r = Decoder::new(bytes[..n - 1].to_vec());
    assert_eq!(read_msg(&mut r), Err(DecodeError::UnexpectedEof));
}

#[test]
fn flags_lose_unknown_bits() {
    let mut bytes = vec![24, 1, 0, 7, 0, 0, 0];
    bytes.extend_from_slice(&0xffff_ffff_ffff_ffffu64.to_le_bytes());
    let mut r = Decoder::new(bytes);
    assert_eq!(
        read_msg(&mut r),
        Ok(Msg {
            tag: 1,
            body: Fcall::Tgetattr { fid: 7, req_mask: GetattrMask { bits: GetattrMask::ALL } },
        })
    );
}

#[test]
fn readdir_data_is_sized_in_bytes() {
    let data = DirEntryData::with(vec![
        DirEntry { qid: qid(1), offset: 0, typ: 0, name: ".".to_owned() },
        DirEntry { qid: qid(2), offset: 1, typ: 0, name: "..".to_owned() },
    ]);
    assert_eq!(data.size(), 25 + 26);
    let mut bytes = Vec::new();
    assert_eq!(data.encode(&mut bytes), 4 + 51);
    assert_eq!(bytes[..4], [51, 0, 0, 0]);
    let mut r = Decoder::new(bytes.clone());
    assert_eq!(DirEntryData::decode(&mut r), Ok(data));
    // An entry that runs over the announced size is an error.
    bytes[0] = 50;
    let mut r = Decoder::new(bytes);
    assert_eq!(DirEntryData::decode(&mut r), Err(DecodeError::UnexpectedEof));
}

#[test]
fn every_message_round_trips() {
    let s = |t: &str| t.to_owned();
    let flock = Flock {
        typ: LockType::from_bits_truncate(LockType::WRLOCK),
        flags: LockFlag::from_bits_truncate(LockFlag::BLOCK),
        start: 1,
        length: 2,
        proc_id: 3,
        client_id: s("client"),
    };
    let getlock = Getlock {
        typ: LockType::from_bits_truncate(LockType::UNLOCK),
        start: 4,
        length: 5,
        proc_id: 6,
        client_id: s("other"),
    };
    let setattr =
        SetAttr { mode: 1, uid: 2, gid: 3, size: 4, atime: time(5), mtime: time(6) };
    let statfs = Statfs {
        typ: 1,
        bsize: 2,
        blocks: 3,
        bfree: 4,
        bavail: 5,
        files: 6,
        ffree: 7,
        fsid: 8,
        namelen: 9,
    };
    let all = vec![
        Fcall::Rlerror { ecode: 9 },
        Fcall::Tstatfs { fid: 1 },
        Fcall::Rstatfs { statfs },
        Fcall::Tlopen { fid: 1, flags: 2 },
        Fcall::Rlopen { qid: qid(1), iounit: 0 },
        Fcall::Tlcreate { fid: 1, name: s("new"), flags: 2, mode: 3, gid: 4 },
        Fcall::Rlcreate { qid: qid(2), iounit: 5 },
        Fcall::Tsymlink { fid: 1, name: s("link"), symtgt: s("/target"), gid: 2 },
        Fcall::Rsymlink { qid: qid(3) },
        Fcall::Tmknod { dfid: 1, name: s("node"), mode: 2, major: 3, minor: 4, gid: 5 },
        Fcall::Rmknod { qid: qid(4) },
        Fcall::Trename { fid: 1, dfid: 2, name: s("renamed") },
        Fcall::Rrename,
        Fcall::Treadlink { fid: 1 },
        Fcall::Rreadlink { target: s("/somewhere") },
        Fcall::Tgetattr { fid: 1, req_mask: GetattrMask::from_bits_truncate(GetattrMask::ALL) },
        Fcall::Rgetattr {
            valid: GetattrMask::from_bits_truncate(GetattrMask::BASIC),
            qid: qid(5),
            stat: stat(),
        },
        Fcall::Tsetattr {
            fid: 1,
            valid: SetattrMask::from_bits_truncate(SetattrMask::MODE | SetattrMask::MTIME_SET),
            stat: setattr,
        },
        Fcall::Rsetattr,
        Fcall::Txattrwalk { fid: 1, newfid: 2, name: s("user.x") },
        Fcall::Rxattrwalk { size: 99 },
        Fcall::Txattrcreate { fid: 1, name: s("user.y"), attr_size: 7, flags: 1 },
        Fcall::Rxattrcreate,
        Fcall::Treaddir { fid: 1, offset: 2, count: 8192 },
        Fcall::Rreaddir {
            data: DirEntryData::with(vec![
                DirEntry { qid: qid(6), offset: 2, typ: 4, name: s("etc") },
                DirEntry { qid: qid(7), offset: 3, typ: 8, name: s("грамота") },
            ]),
        },
        Fcall::Rreaddir { data: DirEntryData::new() },
        Fcall::Tfsync { fid: 1 },
        Fcall::Rfsync,
        Fcall::Tlock { fid: 1, flock },
        Fcall::Rlock { status: LockStatus::from_bits_truncate(LockStatus::GRACE) },
        Fcall::Tgetlock { fid: 1, flock: getlock.clone() },
        Fcall::Rgetlock { flock: getlock },
        Fcall::Tlink { dfid: 1, fid: 2, name: s("hard") },
        Fcall::Rlink,
        Fcall::Tmkdir { dfid: 1, name: s("dir"), mode: 0o755, gid: 2 },
        Fcall::Rmkdir { qid: qid(8) },
        Fcall::Trenameat { olddirfid: 1, oldname: s("a"), newdirfid: 2, newname: s("b") },
        Fcall::Rrenameat,
        Fcall::Tunlinkat { dirfd: 1, name: s("gone"), flags: 0 },
        Fcall::Runlinkat,
        Fcall::Tauth { afid: 1, uname: s("user"), aname: s(""), n_uname: 1000 },
        Fcall::Rauth { aqid: qid(9) },
        Fcall::Tattach { fid: 1, afid: 0xffff_ffff, uname: s("user"), aname: s("/"), n_uname: 0 },
        Fcall::Rattach { qid: qid(10) },
        Fcall::Tversion { msize: 8192, version: s("9P2000.L") },
        Fcall::Rversion { msize: 8192, version: s("unknown") },
        Fcall::Tflush { oldtag: 17 },
        Fcall::Rflush,
        Fcall::Twalk { fid: 1, newfid: 2, wnames: vec![s("etc"), s("hostname")] },
        Fcall::Twalk { fid: 1, newfid: 2, wnames: vec![] },
        Fcall::Rwalk { wqids: vec![qid(11), qid(12)] },
        Fcall::Rwalk { wqids: vec![] },
        Fcall::Tread { fid: 1, offset: 0, count: 64 },
        Fcall::Rread { data: Data(vec![1, 2, 3]) },
        Fcall::Twrite { fid: 1, offset: 8, data: Data(vec![]) },
        Fcall::Rwrite { count: 3 },
        Fcall::Tclunk { fid: 1 },
        Fcall::Rclunk,
        Fcall::Tremove { fid: 1 },
        Fcall::Rremove,
    ];
    for body in all {
        round_trip(body);
    }
}

#[test]
fn encoder_counts_bytes() {
    let mut e = Encoder::new(vec![9, 9]);
    assert_eq!(e.bytes_written(), 0);
    assert_eq!(e.encode(&7u32), 4);
    assert_eq!(e.encode(&"ab".to_owned()), 4);
    assert_eq!(e.bytes_written(), 8);
    assert_eq!(e.into_inner(), vec![9, 9, 7, 0, 0, 0, 2, 0, b'a', b'b']);
}

#[test]
fn decoder_hands_its_bytes_back() {
    let mut d = Decoder::new(vec![1, 0, 2]);
    let v: u16 = d.decode().unwrap();
    assert_eq!(v, 1);
    assert_eq!(d.unread(), 1);
    assert_eq!(d.into_inner(), vec![1, 0, 2]);
}

#[test]
fn frame_prefix_needs_four_bytes() {
    assert_eq!(frame_body_len(&vec![1, 2, 0, 0]), Some(0x0201));
    assert_eq!(frame_body_len(&vec![1, 2, 0]), None);
    assert_eq!(frame_body_len(&vec![1, 2, 0, 0, 0]), None);
}
