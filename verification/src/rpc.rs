//! What the transport between client and daemon needs of the library:
//! session ids as they travel, the first message of a stream, and how an
//! error of the session manager is classed.

use vstd::prelude::*;
use crate::serialize::{get_u32_le, put_u32_le};
use crate::server;
use crate::wire::{from_le32, le32, lemma_le32};

verus! {

/// The length of a session id on the wire.
pub const SESSION_ID_LEN: usize = 16;

/// The number that bytes spell, the first byte counting most.
pub open spec fn be_value(bytes: Seq<u8>) -> nat
    decreases bytes.len(),
{
    if bytes.len() == 0 {
        0
    } else {
        be_value(bytes.drop_last()) * 256 + bytes.last() as nat
    }
}

/// Whether `sid` has the shape of a random UUID: version 4, and the variant
/// of RFC 9562.
pub open spec fn is_v4(sid: u128) -> bool {
    (sid >> 76) & 0xf == 4 && (sid >> 62) & 0x3 == 2
}

/// `uuid::Uuid::new_v4`, as a number. The call draws 128 random bits and
/// overwrites those of version and variant; nothing else is known of the
/// outcome.
#[verifier::external_body]
fn uuid_new_v4() -> (sid: u128)
    ensures
        is_v4(sid),
{
    uuid::Uuid::new_v4().as_u128()
}

/// `uuid::Uuid::from_slice`, as a number: the bytes must be 16, and the
/// first of them counts most.
#[verifier::external_body]
fn uuid_from_slice(bytes: &Vec<u8>) -> (sid: Option<u128>)
    ensures
        sid is Some <==> bytes@.len() == SESSION_ID_LEN,
        sid matches Some(v) ==> v == be_value(bytes@),
{
    match uuid::Uuid::from_slice(bytes) {
        Ok(id) => Some(id.as_u128()),
        Err(_) => None,
    }
}

/// `uuid::Uuid::from_u128` and `into_bytes`: the 16 bytes of the number,
/// the one that counts most first.
#[verifier::external_body]
fn uuid_into_bytes(sid: u128) -> (bytes: Vec<u8>)
    ensures
        bytes@.len() == SESSION_ID_LEN,
        be_value(bytes@) == sid,
{
    uuid::Uuid::from_u128(sid).into_bytes().to_vec()
}

/// A new session id, drawn at random.
pub fn new_session_id() -> (sid: u128)
    ensures
        is_v4(sid),
{
    uuid_new_v4()
}

/// The session id that `bytes` spell, if they are 16.
pub fn session_id_from_bytes(bytes: &Vec<u8>) -> (sid: Option<u128>)
    ensures
        sid is Some <==> bytes@.len() == SESSION_ID_LEN,
        sid matches Some(v) ==> v == be_value(bytes@),
{
    uuid_from_slice(bytes)
}

/// The 16 bytes of a session id.
pub fn session_id_to_bytes(sid: u128) -> (bytes: Vec<u8>)
    ensures
        bytes@.len() == SESSION_ID_LEN,
        be_value(bytes@) == sid,
{
    uuid_into_bytes(sid)
}

/// How a request fails.
#[derive(Clone, Copy, Debug, PartialEq, Eq, Structural)]
pub enum Status {
    /// The request does not say what it must, or names a session that is
    /// not in the state that the request is for.
    InvalidArgument,
    /// The daemon failed at what was asked.
    Internal,
}

/// How a request fails for an error of the session manager.
pub fn status_of(e: server::Error) -> (status: Status)
    ensures
        status == (match e {
            server::Error::SessionNotExist => Status::InvalidArgument,
            server::Error::DuplicateId => Status::InvalidArgument,
            server::Error::AlreadyStarted => Status::InvalidArgument,
            server::Error::NotStarted => Status::InvalidArgument,
            _ => Status::Internal,
        }),
{
    match e {
        server::Error::SessionNotExist => Status::InvalidArgument,
        server::Error::DuplicateId => Status::InvalidArgument,
        server::Error::AlreadyStarted => Status::InvalidArgument,
        server::Error::NotStarted => Status::InvalidArgument,
        _ => Status::Internal,
    }
}

/// The session that the first message of a stream names. The first message
/// of a stream of input carries the session id, the later ones bytes only.
pub fn session_of_first(id: &Option<Vec<u8>>) -> (res: Result<u128, Status>)
    ensures
        match res {
            Ok(sid) => id matches Some(bytes) && bytes@.len() == SESSION_ID_LEN && sid
                == be_value(bytes@),
            Err(status) => status == Status::InvalidArgument && !(id matches Some(bytes)
                && bytes@.len() == SESSION_ID_LEN),
        },
{
    match id {
        Some(bytes) => match session_id_from_bytes(bytes) {
            Some(sid) => Ok(sid),
            None => Err(Status::InvalidArgument),
        },
        None => Err(Status::InvalidArgument),
    }
}

/// The calls that a daemon serves.
#[derive(Clone, Copy, Debug, PartialEq, Eq, Structural)]
pub enum Method {
    /// Makes a session and returns its id.
    Dial,
    /// Starts the command of a session.
    Start,
    /// Carries the standard input of the command to the daemon.
    Stdin,
    /// Carries the standard output of the command to the client.
    Stdout,
    /// Carries the standard error of the command to the client.
    Stderr,
    /// Carries 9P requests to the client and the replies back.
    NinepForward,
    /// Waits for the command and returns its exit code.
    Wait,
}

impl Method {
    /// The number that stands for the call on the wire.
    pub open spec fn code(self) -> u8 {
        match self {
            Method::Dial => 1,
            Method::Start => 2,
            Method::Stdin => 3,
            Method::Stdout => 4,
            Method::Stderr => 5,
            Method::NinepForward => 6,
            Method::Wait => 7,
        }
    }

    /// The call that a number stands for, if it stands for one.
    pub open spec fn of_code(code: u8) -> Option<Method> {
        if code == 1 {
            Some(Method::Dial)
        } else if code == 2 {
            Some(Method::Start)
        } else if code == 3 {
            Some(Method::Stdin)
        } else if code == 4 {
            Some(Method::Stdout)
        } else if code == 5 {
            Some(Method::Stderr)
        } else if code == 6 {
            Some(Method::NinepForward)
        } else if code == 7 {
            Some(Method::Wait)
        } else {
            None
        }
    }

    /// The number that stands for the call on the wire.
    pub fn to_u8(self) -> (code: u8)
        ensures
            code == self.code(),
            Method::of_code(code) == Some(self),
    {
        match self {
            Method::Dial => 1,
            Method::Start => 2,
            Method::Stdin => 3,
            Method::Stdout => 4,
            Method::Stderr => 5,
            Method::NinepForward => 6,
            Method::Wait => 7,
        }
    }

    /// The call that a number stands for, if it stands for one.
    pub fn from_u8(code: u8) -> (method: Option<Method>)
        ensures
            method == Method::of_code(code),
    {
        match code {
            1 => Some(Method::Dial),
            2 => Some(Method::Start),
            3 => Some(Method::Stdin),
            4 => Some(Method::Stdout),
            5 => Some(Method::Stderr),
            6 => Some(Method::NinepForward),
            7 => Some(Method::Wait),
            _ => None,
        }
    }

    /// Whether the client sends a stream of pieces after the session id.
    pub fn streams_in(self) -> (b: bool)
        ensures
            b == (self == Method::Stdin || self == Method::NinepForward),
    {
        match self {
            Method::Stdin => true,
            Method::NinepForward => true,
            _ => false,
        }
    }

    /// Whether the daemon answers with a stream of pieces.
    pub fn streams_out(self) -> (b: bool)
        ensures
            b == (self == Method::Stdout || self == Method::Stderr || self
                == Method::NinepForward),
    {
        match self {
            Method::Stdout => true,
            Method::Stderr => true,
            Method::NinepForward => true,
            _ => false,
        }
    }
}

/// The number that tells how a call ended: zero for success.
pub open spec fn status_code(outcome: Result<(), Status>) -> u8 {
    match outcome {
        Ok(_) => 0,
        Err(Status::InvalidArgument) => 3,
        Err(Status::Internal) => 13,
    }
}

/// The number that tells how a call ended.
pub fn status_to_u8(outcome: Result<(), Status>) -> (code: u8)
    ensures
        code == status_code(outcome),
{
    match outcome {
        Ok(_) => 0,
        Err(Status::InvalidArgument) => 3,
        Err(Status::Internal) => 13,
    }
}

/// How a call ended, from the number that tells it. A number that the
/// daemon does not send is taken as a failure of the daemon.
pub open spec fn status_of_code(code: u8) -> Result<(), Status> {
    if code == 0 {
        Ok(())
    } else if code == 3 {
        Err(Status::InvalidArgument)
    } else {
        Err(Status::Internal)
    }
}

/// How a call ended, from the number that tells it.
pub fn status_from_u8(code: u8) -> (outcome: Result<(), Status>)
    ensures
        outcome == status_of_code(code),
{
    if code == 0 {
        Ok(())
    } else if code == 3 {
        Err(Status::InvalidArgument)
    } else {
        Err(Status::Internal)
    }
}

/// How a call ended is read back from its number as it was.
pub proof fn lemma_status_round_trip(outcome: Result<(), Status>)
    ensures
        status_of_code(status_code(outcome)) == outcome,
{
    match outcome {
        Ok(unit) => {
            assert(unit == ());
        },
        Err(_) => {},
    }
}

/// A piece as it travels: its length in four bytes, little-endian, then its
/// bytes.
pub open spec fn piece_frame(payload: Seq<u8>) -> Seq<u8> {
    le32(payload.len() as u32) + payload
}

/// Frames a piece; one of more bytes than four bytes can count is not
/// framed.
pub fn frame(payload: Vec<u8>) -> (framed: Option<Vec<u8>>)
    ensures
        framed is Some <==> payload@.len() <= u32::MAX,
        framed matches Some(bytes) ==> bytes@ == piece_frame(payload@),
{
    let ghost bytes = payload@;
    let mut payload = payload;
    if payload.len() > u32::MAX as usize {
        return None;
    }
    let mut framed: Vec<u8> = Vec::new();
    put_u32_le(&mut framed, payload.len() as u32);
    framed.append(&mut payload);
    assert(framed@ =~= piece_frame(bytes));
    Some(framed)
}

/// The four bytes in which an exit code travels.
pub open spec fn exit_code_bytes(code: i32) -> Seq<u8> {
    le32(code as u32)
}

/// The four bytes in which an exit code travels.
pub fn exit_code_to_bytes(code: i32) -> (bytes: Vec<u8>)
    ensures
        bytes@ == exit_code_bytes(code),
{
    let mut bytes: Vec<u8> = Vec::new();
    put_u32_le(&mut bytes, #[verifier::truncate] (code as u32));
    assert(bytes@ =~= exit_code_bytes(code));
    bytes
}

/// The exit code that four bytes carry; other than four carry none.
pub fn exit_code_from_bytes(bytes: &Vec<u8>) -> (code: Option<i32>)
    ensures
        code == (if bytes@.len() == 4 {
            Some(from_le32(bytes@) as i32)
        } else {
            None
        }),
{
    if bytes.len() != 4 {
        return None;
    }
    assert(bytes@.subrange(0, 4) =~= bytes@);
    let raw = get_u32_le(bytes, 0);
    Some(#[verifier::truncate] (raw as i32))
}

/// An exit code is read back from its bytes as it was.
pub proof fn lemma_exit_code_round_trip(code: i32)
    ensures
        exit_code_bytes(code).len() == 4,
        from_le32(exit_code_bytes(code)) as i32 == code,
{
    lemma_le32(code as u32);
    assert((code as u32) as i32 == code) by (bit_vector);
}

/// A stream with an extra item prepended to its head.
pub struct PrependedStream<I, S> {
    pub stream: S,
    pub item: Option<I>,
}

impl<I, S> PrependedStream<I, S> {
    /// Generates a new stream by prepending an extra item to an existing stream.
    pub fn new(stream: S, item: I) -> (r: Self)
        ensures
            r.stream == stream,
            r.item == Some(item),
    {
        PrependedStream { stream, item: Some(item) }
    }

    /// The prepended item, the first time; afterwards the stream itself is
    /// to be asked.
    pub fn take_item(&mut self) -> (item: Option<I>)
        ensures
            item == old(self).item,
            final(self).item is None,
            final(self).stream == old(self).stream,
    {
        self.item.take()
    }
}

/// The daemon as it is reached over the transport.
#[derive(Clone, Copy, Debug, PartialEq, Eq, Structural)]
pub struct RpcServer {}

} // verus!
