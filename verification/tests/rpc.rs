use p9cpu::rpc::{
    exit_code_from_bytes, exit_code_to_bytes, frame, new_session_id, session_id_from_bytes,
    session_id_to_bytes, session_of_first, status_from_u8, status_of, status_to_u8, Method,
    PrependedStream, Status, SESSION_ID_LEN,
};
use p9cpu::server::Error;

#[test]
fn session_id_is_sixteen_bytes() {
    assert_eq!(SESSION_ID_LEN, 16);
    let sid = 0x0102_0304_0506_0708_090a_0b0c_0d0e_0f10u128;
    let bytes = session_id_to_bytes(sid);
    assert_eq!(bytes, vec![1, 2, 3, 4, 5, 6, 7, 8, 9, 10, 11, 12, 13, 14, 15, 16]);
    assert_eq!(session_id_from_bytes(&bytes), Some(sid));
    assert_eq!(session_id_to_bytes(0), vec![0; 16]);
    assert_eq!(session_id_from_bytes(&vec![0xff; 16]), Some(u128::MAX));
}

#[test]
fn session_id_of_another_length() {
    assert_eq!(session_id_from_bytes(&vec![]), None);
    assert_eq!(session_id_from_bytes(&vec![0; 15]), None);
    assert_eq!(session_id_from_bytes(&vec![0; 17]), None);
}

#[test]
fn new_session_ids_are_random_uuids() {
    let mut seen = Vec::new();
    for _ in 0..64 {
        let sid = new_session_id();
        assert_eq!((sid >> 76) & 0xf, 4);
        assert_eq!((sid >> 62) & 0x3, 2);
        assert_eq!(session_id_from_bytes(&session_id_to_bytes(sid)), Some(sid));
        assert!(!seen.contains(&sid));
        seen.push(sid);
    }
}

#[test]
fn first_message_names_the_session() {
    assert_eq!(session_of_first(&None), Err(Status::InvalidArgument));
    assert_eq!(session_of_first(&Some(vec![1, 2, 3])), Err(Status::InvalidArgument));
    let mut bytes = vec![0; 16];
    bytes[15] = 9;
    assert_eq!(session_of_first(&Some(bytes)), Ok(9));
}

#[test]
fn status_of_session_errors() {
    for e in [Error::SessionNotExist, Error::DuplicateId, Error::AlreadyStarted, Error::NotStarted]
    {
        assert_eq!(status_of(e), Status::InvalidArgument);
    }
    for e in [
        Error::SpawnFail,
        Error::IoErr,
        Error::NoReturnCode,
        Error::CommandError,
        Error::OpenPtyFail,
        Error::FdCloneFail,
        Error::MkDir,
        Error::InvalidFsTab,
        Error::BindFail,
        Error::No9pPort,
        Error::StringContainsNull,
        Error::ChannelClosed,
    ] {
        assert_eq!(status_of(e), Status::Internal);
    }
}

#[test]
fn prepended_item_comes_first() {
    let mut s = PrependedStream::new(vec![2, 3], 1);
    assert_eq!(s.take_item(), Some(1));
    assert_eq!(s.take_item(), None);
    assert_eq!(s.stream, vec![2, 3]);
}

#[test]
fn seven_calls() {
    let all = [
        (Method::Dial, 1, false, false),
        (Method::Start, 2, false, false),
        (Method::Stdin, 3, true, false),
        (Method::Stdout, 4, false, true),
        (Method::Stderr, 5, false, true),
        (Method::NinepForward, 6, true, true),
        (Method::Wait, 7, false, false),
    ];
    for (method, code, streams_in, streams_out) in all {
        assert_eq!(method.to_u8(), code);
        assert_eq!(Method::from_u8(code), Some(method));
        assert_eq!(method.streams_in(), streams_in);
        assert_eq!(method.streams_out(), streams_out);
    }
    assert_eq!(Method::from_u8(0), None);
    assert_eq!(Method::from_u8(8), None);
}

#[test]
fn status_travels_as_a_number() {
    assert_eq!(status_to_u8(Ok(())), 0);
    assert_eq!(status_to_u8(Err(Status::InvalidArgument)), 3);
    assert_eq!(status_to_u8(Err(Status::Internal)), 13);
    for outcome in [Ok(()), Err(Status::InvalidArgument), Err(Status::Internal)] {
        assert_eq!(status_from_u8(status_to_u8(outcome)), outcome);
    }
    assert_eq!(status_from_u8(200), Err(Status::Internal));
}

#[test]
fn pieces_travel_behind_their_length() {
    assert_eq!(frame(vec![]), Some(vec![0, 0, 0, 0]));
    assert_eq!(frame(vec![9, 8]), Some(vec![2, 0, 0, 0, 9, 8]));
    assert_eq!(frame(vec![7; 258]).unwrap()[..5], [2, 1, 0, 0, 7]);
}

#[test]
fn exit_code_travels_in_four_bytes() {
    assert_eq!(exit_code_to_bytes(0), vec![0, 0, 0, 0]);
    assert_eq!(exit_code_to_bytes(258), vec![2, 1, 0, 0]);
    assert_eq!(exit_code_to_bytes(-1), vec![0xff, 0xff, 0xff, 0xff]);
    for code in [0, 1, -1, 255, i32::MIN, i32::MAX] {
        assert_eq!(exit_code_from_bytes(&exit_code_to_bytes(code)), Some(code));
    }
    assert_eq!(exit_code_from_bytes(&vec![0, 0, 0]), None);
    assert_eq!(exit_code_from_bytes(&vec![0; 5]), None);
}
