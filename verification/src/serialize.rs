//! Serialize/deserialize 9P messages into/from binary.
//!
//! Values are written to the end of a byte vector and read through a
//! [`Decoder`], which walks over a byte vector. What is written and what is
//! read is stated by the functions of [`crate::wire`].

use byteorder::{ByteOrder, LittleEndian, WriteBytesExt};
use vstd::prelude::*;
use vstd::slice::{slice_subrange, slice_to_vec};
use vstd::string::StrSliceExecFns;
use vstd::utf8::{decode_utf8, valid_utf8};
use crate::error::DecodeError;
use crate::fcall::{
    Data, DirEntry, DirEntryData, DirEntryView, Fcall, Flock, FlockView, GetattrMask, Getlock,
    GetlockView, LockFlag, LockStatus, LockType, Msg, MsgType, MsgView, Qid, QidType, SetAttr,
    SetattrMask, Stat, Statfs, Time,
};
use crate::wire::{
    from_le16, from_le32, from_le64, le16, le32, le64, lemma_errors_stay,
    lemma_take_dirent_advances, lemma_wire_dirent_seq_push, lemma_wire_qid_seq_push,
    lemma_wire_str_seq_push, take_body, take_data, take_dirent, take_dirent_all, take_dirents,
    take_flock, take_frame, take_getlock, take_msg, take_qid, take_qid_seq, take_qids,
    take_reserved, take_setattr, take_stat, take_statfs, take_str, take_str_seq, take_strs,
    take_time, take_u16, take_u32, take_u64, take_u8, wire_body, wire_data, wire_dirent,
    wire_dirent_seq, wire_dirents, wire_flock, wire_frame, wire_getlock, wire_msg, wire_qid,
    wire_qid_seq, wire_qids, wire_reserved, wire_setattr, wire_stat, wire_statfs, wire_str,
    wire_str_seq, wire_strs, wire_time, wire_u8, Cur, RGETATTR_RESERVED,
};

verus! {

/// Appends `v` with byteorder's `WriteBytesExt::write_u16::<LittleEndian>`.
/// On a vector that call cannot fail; it appends the two bytes of `v`, the
/// low byte first.
#[verifier::external_body]
fn put_u16_le(w: &mut Vec<u8>, v: u16)
    ensures
        final(w)@ == old(w)@ + le16(v),
{
    let _ = w.write_u16::<LittleEndian>(v);
}

/// Appends `v` with byteorder's `WriteBytesExt::write_u32::<LittleEndian>`:
/// the four bytes of `v`, the low byte first.
#[verifier::external_body]
pub(crate) fn put_u32_le(w: &mut Vec<u8>, v: u32)
    ensures
        final(w)@ == old(w)@ + le32(v),
{
    let _ = w.write_u32::<LittleEndian>(v);
}

/// Appends `v` with byteorder's `WriteBytesExt::write_u64::<LittleEndian>`:
/// the eight bytes of `v`, the low byte first.
#[verifier::external_body]
pub(crate) fn put_u64_le(w: &mut Vec<u8>, v: u64)
    ensures
        final(w)@ == old(w)@ + le64(v),
{
    let _ = w.write_u64::<LittleEndian>(v);
}

/// Reads two bytes at `at` with byteorder's `LittleEndian::read_u16`, which
/// takes the first two bytes of the slice it is given, the low byte first.
#[verifier::external_body]
fn get_u16_le(buf: &Vec<u8>, at: usize) -> (v: u16)
    requires
        at + 2 <= buf@.len(),
    ensures
        v == from_le16(buf@.subrange(at as int, at + 2)),
{
    LittleEndian::read_u16(&buf[at..])
}

/// Reads four bytes at `at` with byteorder's `LittleEndian::read_u32`, which
/// takes the first four bytes of the slice it is given, the low byte first.
#[verifier::external_body]
pub(crate) fn get_u32_le(buf: &Vec<u8>, at: usize) -> (v: u32)
    requires
        at + 4 <= buf@.len(),
    ensures
        v == from_le32(buf@.subrange(at as int, at + 4)),
{
    LittleEndian::read_u32(&buf[at..])
}

/// Reads eight bytes at `at` with byteorder's `LittleEndian::read_u64`, which
/// takes the first eight bytes of the slice it is given, the low byte first.
#[verifier::external_body]
pub(crate) fn get_u64_le(buf: &Vec<u8>, at: usize) -> (v: u64)
    requires
        at + 8 <= buf@.len(),
    ensures
        v == from_le64(buf@.subrange(at as int, at + 8)),
{
    LittleEndian::read_u64(&buf[at..])
}

/// `String::from_utf8`: the string that the bytes spell, if they are UTF-8,
/// and nothing if they are not.
#[verifier::external_body]
fn string_from_utf8(bytes: Vec<u8>) -> (s: Option<String>)
    ensures
        s is Some <==> valid_utf8(bytes@),
        s is Some ==> s->0@ == decode_utf8(bytes@),
{
    String::from_utf8(bytes).ok()
}

/// A type which can be serialized into binary
pub trait Encodable: DeepView {
    /// The bytes of a value.
    spec fn wire(v: <Self as DeepView>::V) -> Seq<u8>;

    /// Appends the bytes of `self` to `w` and returns their number.
    fn encode(&self, w: &mut Vec<u8>) -> (n: usize)
        ensures
            final(w)@ == old(w)@ + Self::wire(self.deep_view()),
            n == Self::wire(self.deep_view()).len(),
    ;
}

/// A type which can be deserialized from binary
pub trait Decodable: Sized + DeepView {
    /// The value at the front of an input, and the input behind it.
    spec fn take(c: Cur) -> (<Self as DeepView>::V, Cur);

    /// Reads a value from where `r` stands. After an error `r` is of no
    /// further use.
    fn decode(r: &mut Decoder) -> (res: Result<Self, DecodeError>)
        ensures
            final(r).input() == old(r).input(),
            final(r).limit() == old(r).limit(),
            match res {
                Ok(v) => Self::take(old(r).cur()) == (v.deep_view(), final(r).cur()),
                Err(e) => Self::take(old(r).cur()).1.err == Some(e),
            },
    ;
}

/// Collects what is encoded into a byte vector and counts the bytes.
#[derive(Clone, Debug)]
pub struct Encoder {
    writer: Vec<u8>,
    bytes: usize,
}

impl Encoder {
    /// The count is that of bytes that the encoder holds.
    pub closed spec fn wf(&self) -> bool {
        self.bytes <= self.writer@.len()
    }

    /// The bytes held so far.
    pub closed spec fn output(&self) -> Seq<u8> {
        self.writer@
    }

    /// The number of bytes encoded so far.
    pub closed spec fn count(&self) -> nat {
        self.bytes as nat
    }

    /// An encoder that appends to `writer`.
    pub fn new(writer: Vec<u8>) -> (e: Encoder)
        ensures
            e.wf(),
            e.output() == writer@,
            e.count() == 0,
    {
        Encoder { writer, bytes: 0 }
    }

    /// Return total bytes written
    pub fn bytes_written(&self) -> (n: usize)
        ensures
            n == self.count(),
    {
        self.bytes
    }

    /// Encode data
    pub fn encode<T: Encodable>(&mut self, data: &T) -> (n: usize)
        requires
            old(self).wf(),
        ensures
            final(self).wf(),
            final(self).output() == old(self).output() + T::wire(data.deep_view()),
            final(self).count() == old(self).count() + n,
            n == T::wire(data.deep_view()).len(),
    {
        let n = data.encode(&mut self.writer);
        assert(self.writer@.len() == old(self).writer@.len() + n);
        assert(self.writer@.len() <= usize::MAX) by {
            vstd::std_specs::vec::axiom_spec_len(&self.writer);
        }
        self.bytes = self.bytes + n;
        n
    }

    /// Get inner writer
    pub fn into_inner(self) -> (w: Vec<u8>)
        ensures
            w@ == self.output(),
    {
        self.writer
    }
}

/// Walks over a byte vector and decodes what it holds.
#[derive(Debug)]
pub struct Decoder {
    reader: Vec<u8>,
    pos: usize,
    end: usize,
}

impl Decoder {
    #[verifier::type_invariant]
    spec fn inv(self) -> bool {
        self.pos <= self.end <= self.reader@.len()
    }

    /// The bytes that the decoder walks over.
    pub closed spec fn input(&self) -> Seq<u8> {
        self.reader@
    }

    /// How many bytes were read.
    pub closed spec fn position(&self) -> nat {
        self.pos as nat
    }

    /// Where reading ends.
    pub closed spec fn limit(&self) -> nat {
        self.end as nat
    }

    /// The bytes not yet read.
    pub open spec fn remaining(&self) -> Seq<u8> {
        self.input().subrange(self.position() as int, self.limit() as int)
    }

    /// The decoder as an input of which nothing was read yet.
    pub open spec fn cur(&self) -> Cur {
        Cur::ok(self.remaining())
    }

    /// A decoder at the start of `reader`.
    pub fn new(reader: Vec<u8>) -> (d: Decoder)
        ensures
            d.input() == reader@,
            d.position() == 0,
            d.limit() == reader@.len(),
            d.remaining() == reader@,
    {
        let end = reader.len();
        assert(reader@.subrange(0, end as int) =~= reader@);
        Decoder { reader, pos: 0, end }
    }

    /// Decode data
    pub fn decode<T: Decodable>(&mut self) -> (res: Result<T, DecodeError>)
        ensures
            final(self).input() == old(self).input(),
            final(self).limit() == old(self).limit(),
            match res {
                Ok(v) => T::take(old(self).cur()) == (v.deep_view(), final(self).cur()),
                Err(e) => T::take(old(self).cur()).1.err == Some(e),
            },
    {
        T::decode(self)
    }

    /// The number of bytes not yet read.
    pub fn unread(&self) -> (n: usize)
        ensures
            n == self.remaining().len(),
            self.position() + n == self.limit(),
            self.limit() <= self.input().len(),
    {
        proof {
            use_type_invariant(self);
        }
        self.end - self.pos
    }

    /// Get inner reader
    pub fn into_inner(self) -> (reader: Vec<u8>)
        ensures
            reader@ == self.input(),
    {
        self.reader
    }

    /// Claims the next `n` bytes and says where they start.
    fn advance(&mut self, n: usize) -> (res: Result<usize, DecodeError>)
        ensures
            final(self).reader == old(self).reader,
            final(self).end == old(self).end,
            old(self).pos <= old(self).end <= old(self).reader@.len(),
            match res {
                Ok(at) => {
                    &&& at == old(self).pos
                    &&& at + n <= old(self).end
                    &&& final(self).pos == at + n
                    &&& old(self).remaining().take(n as int) == old(self).reader@.subrange(
                        at as int,
                        at + n,
                    )
                    &&& final(self).remaining() == old(self).remaining().skip(n as int)
                },
                Err(e) => {
                    &&& e == DecodeError::UnexpectedEof
                    &&& old(self).remaining().len() < n
                    &&& final(self).pos == old(self).pos
                },
            },
    {
        proof {
            use_type_invariant(&*self);
        }
        if self.end - self.pos < n {
            Err(DecodeError::UnexpectedEof)
        } else {
            let at = self.pos;
            self.pos = self.pos + n;
            proof {
                let rem = old(self).remaining();
                assert(rem.take(n as int) =~= self.reader@.subrange(at as int, at + n));
                assert(self.remaining() =~= rem.skip(n as int));
            }
            Ok(at)
        }
    }

    /// Copies the next `n` bytes out.
    fn take_bytes(&mut self, n: usize) -> (res: Result<Vec<u8>, DecodeError>)
        ensures
            final(self).reader == old(self).reader,
            final(self).end == old(self).end,
            match res {
                Ok(v) => {
                    &&& n <= old(self).remaining().len()
                    &&& v@ == old(self).remaining().take(n as int)
                    &&& final(self).remaining() == old(self).remaining().skip(n as int)
                },
                Err(e) => {
                    &&& e == DecodeError::UnexpectedEof
                    &&& old(self).remaining().len() < n
                },
            },
    {
        let at = self.advance(n)?;
        let part = slice_subrange(self.reader.as_slice(), at, at + n);
        Ok(slice_to_vec(part))
    }
}

impl Encodable for u8 {
    open spec fn wire(v: u8) -> Seq<u8> {
        wire_u8(v)
    }

    fn encode(&self, w: &mut Vec<u8>) -> (n: usize) {
        w.push(*self);
        assert(w@ =~= old(w)@ + wire_u8(*self));
        1
    }
}

impl Encodable for u16 {
    open spec fn wire(v: u16) -> Seq<u8> {
        le16(v)
    }

    fn encode(&self, w: &mut Vec<u8>) -> (n: usize) {
        put_u16_le(w, *self);
        2
    }
}

impl Encodable for u32 {
    open spec fn wire(v: u32) -> Seq<u8> {
        le32(v)
    }

    fn encode(&self, w: &mut Vec<u8>) -> (n: usize) {
        put_u32_le(w, *self);
        4
    }
}

impl Encodable for u64 {
    open spec fn wire(v: u64) -> Seq<u8> {
        le64(v)
    }

    fn encode(&self, w: &mut Vec<u8>) -> (n: usize) {
        put_u64_le(w, *self);
        8
    }
}

impl Decodable for u8 {
    open spec fn take(c: Cur) -> (u8, Cur) {
        take_u8(c)
    }

    fn decode(r: &mut Decoder) -> (res: Result<u8, DecodeError>) {
        proof {
            reveal(take_u8);
        }
        let at = r.advance(1)?;
        assert(old(r).remaining().take(1)[0] == old(r).remaining()[0]);
        Ok(r.reader[at])
    }
}

impl Decodable for u16 {
    open spec fn take(c: Cur) -> (u16, Cur) {
        take_u16(c)
    }

    fn decode(r: &mut Decoder) -> (res: Result<u16, DecodeError>) {
        proof {
            reveal(take_u16);
        }
        let at = r.advance(2)?;
        Ok(get_u16_le(&r.reader, at))
    }
}

impl Decodable for u32 {
    open spec fn take(c: Cur) -> (u32, Cur) {
        take_u32(c)
    }

    fn decode(r: &mut Decoder) -> (res: Result<u32, DecodeError>) {
        proof {
            reveal(take_u32);
        }
        let at = r.advance(4)?;
        Ok(get_u32_le(&r.reader, at))
    }
}

impl Decodable for u64 {
    open spec fn take(c: Cur) -> (u64, Cur) {
        take_u64(c)
    }

    fn decode(r: &mut Decoder) -> (res: Result<u64, DecodeError>) {
        proof {
            reveal(take_u64);
        }
        let at = r.advance(8)?;
        Ok(get_u64_le(&r.reader, at))
    }
}

impl Encodable for String {
    open spec fn wire(v: Seq<char>) -> Seq<u8> {
        wire_str(v)
    }

    fn encode(&self, w: &mut Vec<u8>) -> (n: usize) {
        let start = w.len();
        let mut bytes = self.as_str().as_bytes_vec();
        let len: usize = bytes.len();
        let low: u16 = (len & 0xffff) as u16;
        proof {
            reveal(wire_str);
            assert(len & 0xffff == len % 0x1_0000) by (bit_vector);
        }
        put_u16_le(w, low);
        w.append(&mut bytes);
        w.len() - start
    }
}

impl Decodable for String {
    open spec fn take(c: Cur) -> (Seq<char>, Cur) {
        take_str(c)
    }

    fn decode(r: &mut Decoder) -> (res: Result<String, DecodeError>) {
        proof {
            reveal(take_str);
        }
        let len = u16::decode(r)?;
        let bytes = r.take_bytes(len as usize)?;
        match string_from_utf8(bytes) {
            Some(s) => Ok(s),
            None => Err(DecodeError::InvalidUtf8),
        }
    }
}

impl Encodable for Data {
    open spec fn wire(v: Seq<u8>) -> Seq<u8> {
        wire_data(v)
    }

    fn encode(&self, w: &mut Vec<u8>) -> (n: usize) {
        let start = w.len();
        let len: u64 = self.0.len() as u64;
        let low: u32 = (len & 0xffff_ffff) as u32;
        proof {
            reveal(wire_data);
            assert(len & 0xffff_ffff == len % 0x1_0000_0000) by (bit_vector);
        }
        put_u32_le(w, low);
        let mut bytes = slice_to_vec(self.0.as_slice());
        w.append(&mut bytes);
        w.len() - start
    }
}

impl Decodable for Data {
    open spec fn take(c: Cur) -> (Seq<u8>, Cur) {
        take_data(c)
    }

    fn decode(r: &mut Decoder) -> (res: Result<Data, DecodeError>) {
        proof {
            reveal(take_data);
        }
        let len = u32::decode(r)?;
        let bytes = r.take_bytes(len as usize)?;
        Ok(Data(bytes))
    }
}

impl Encodable for Qid {
    open spec fn wire(v: Qid) -> Seq<u8> {
        wire_qid(v)
    }

    fn encode(&self, w: &mut Vec<u8>) -> (n: usize) {
        proof {
            reveal(wire_qid);
        }
        let start = w.len();
        self.typ.bits().encode(w);
        self.version.encode(w);
        self.path.encode(w);
        w.len() - start
    }
}

impl Decodable for Qid {
    open spec fn take(c: Cur) -> (Qid, Cur) {
        take_qid(c)
    }

    fn decode(r: &mut Decoder) -> (res: Result<Qid, DecodeError>) {
        proof {
            reveal(take_qid);
            lemma_errors_stay();
        }
        let typ = QidType::from_bits_truncate(u8::decode(r)?);
        let version = u32::decode(r)?;
        let path = u64::decode(r)?;
        Ok(Qid { typ, version, path })
    }
}

impl Encodable for Statfs {
    open spec fn wire(v: Statfs) -> Seq<u8> {
        wire_statfs(v)
    }

    fn encode(&self, w: &mut Vec<u8>) -> (n: usize) {
        proof {
            reveal(wire_statfs);
        }
        let start = w.len();
        self.typ.encode(w);
        self.bsize.encode(w);
        self.blocks.encode(w);
        self.bfree.encode(w);
        self.bavail.encode(w);
        self.files.encode(w);
        self.ffree.encode(w);
        self.fsid.encode(w);
        self.namelen.encode(w);
        w.len() - start
    }
}

impl Decodable for Statfs {
    open spec fn take(c: Cur) -> (Statfs, Cur) {
        take_statfs(c)
    }

    fn decode(r: &mut Decoder) -> (res: Result<Statfs, DecodeError>) {
        proof {
            reveal(take_statfs);
            lemma_errors_stay();
        }
        let typ = u32::decode(r)?;
        let bsize = u32::decode(r)?;
        let blocks = u64::decode(r)?;
        let bfree = u64::decode(r)?;
        let bavail = u64::decode(r)?;
        let files = u64::decode(r)?;
        let ffree = u64::decode(r)?;
        let fsid = u64::decode(r)?;
        let namelen = u32::decode(r)?;
        Ok(Statfs { typ, bsize, blocks, bfree, bavail, files, ffree, fsid, namelen })
    }
}

impl Encodable for Time {
    open spec fn wire(v: Time) -> Seq<u8> {
        wire_time(v)
    }

    fn encode(&self, w: &mut Vec<u8>) -> (n: usize) {
        proof {
            reveal(wire_time);
        }
        let start = w.len();
        self.sec.encode(w);
        self.nsec.encode(w);
        w.len() - start
    }
}

impl Decodable for Time {
    open spec fn take(c: Cur) -> (Time, Cur) {
        take_time(c)
    }

    fn decode(r: &mut Decoder) -> (res: Result<Time, DecodeError>) {
        proof {
            reveal(take_time);
            lemma_errors_stay();
        }
        let sec = u64::decode(r)?;
        let nsec = u64::decode(r)?;
        Ok(Time { sec, nsec })
    }
}

impl Encodable for Stat {
    open spec fn wire(v: Stat) -> Seq<u8> {
        wire_stat(v)
    }

    fn encode(&self, w: &mut Vec<u8>) -> (n: usize) {
        proof {
            reveal(wire_stat);
        }
        let start = w.len();
        self.mode.encode(w);
        self.uid.encode(w);
        self.gid.encode(w);
        self.nlink.encode(w);
        self.rdev.encode(w);
        self.size.encode(w);
        self.blksize.encode(w);
        self.blocks.encode(w);
        self.atime.encode(w);
        self.mtime.encode(w);
        self.ctime.encode(w);
        w.len() - start
    }
}

impl Decodable for Stat {
    open spec fn take(c: Cur) -> (Stat, Cur) {
        take_stat(c)
    }

    fn decode(r: &mut Decoder) -> (res: Result<Stat, DecodeError>) {
        proof {
            reveal(take_stat);
            lemma_errors_stay();
        }
        let mode = u32::decode(r)?;
        let uid = u32::decode(r)?;
        let gid = u32::decode(r)?;
        let nlink = u64::decode(r)?;
        let rdev = u64::decode(r)?;
        let size = u64::decode(r)?;
        let blksize = u64::decode(r)?;
        let blocks = u64::decode(r)?;
        let atime = Time::decode(r)?;
        let mtime = Time::decode(r)?;
        let ctime = Time::decode(r)?;
        Ok(Stat { mode, uid, gid, nlink, rdev, size, blksize, blocks, atime, mtime, ctime })
    }
}

impl Encodable for SetAttr {
    open spec fn wire(v: SetAttr) -> Seq<u8> {
        wire_setattr(v)
    }

    fn encode(&self, w: &mut Vec<u8>) -> (n: usize) {
        proof {
            reveal(wire_setattr);
        }
        let start = w.len();
        self.mode.encode(w);
        self.uid.encode(w);
        self.gid.encode(w);
        self.size.encode(w);
        self.atime.encode(w);
        self.mtime.encode(w);
        w.len() - start
    }
}

impl Decodable for SetAttr {
    open spec fn take(c: Cur) -> (SetAttr, Cur) {
        take_setattr(c)
    }

    fn decode(r: &mut Decoder) -> (res: Result<SetAttr, DecodeError>) {
        proof {
            reveal(take_setattr);
            lemma_errors_stay();
        }
        let mode = u32::decode(r)?;
        let uid = u32::decode(r)?;
        let gid = u32::decode(r)?;
        let size = u64::decode(r)?;
        let atime = Time::decode(r)?;
        let mtime = Time::decode(r)?;
        Ok(SetAttr { mode, uid, gid, size, atime, mtime })
    }
}

impl Encodable for DirEntry {
    open spec fn wire(v: DirEntryView) -> Seq<u8> {
        wire_dirent(v)
    }

    fn encode(&self, w: &mut Vec<u8>) -> (n: usize) {
        proof {
            reveal(wire_dirent);
        }
        let start = w.len();
        self.qid.encode(w);
        self.offset.encode(w);
        self.typ.encode(w);
        self.name.encode(w);
        w.len() - start
    }
}

impl Decodable for DirEntry {
    open spec fn take(c: Cur) -> (DirEntryView, Cur) {
        take_dirent(c)
    }

    fn decode(r: &mut Decoder) -> (res: Result<DirEntry, DecodeError>) {
        proof {
            reveal(take_dirent);
            lemma_errors_stay();
        }
        let qid = Qid::decode(r)?;
        let offset = u64::decode(r)?;
        let typ = u8::decode(r)?;
        let name = String::decode(r)?;
        Ok(DirEntry { qid, offset, typ, name })
    }
}

impl Encodable for Flock {
    open spec fn wire(v: FlockView) -> Seq<u8> {
        wire_flock(v)
    }

    fn encode(&self, w: &mut Vec<u8>) -> (n: usize) {
        proof {
            reveal(wire_flock);
        }
        let start = w.len();
        self.typ.bits().encode(w);
        self.flags.bits().encode(w);
        self.start.encode(w);
        self.length.encode(w);
        self.proc_id.encode(w);
        self.client_id.encode(w);
        w.len() - start
    }
}

impl Decodable for Flock {
    open spec fn take(c: Cur) -> (FlockView, Cur) {
        take_flock(c)
    }

    fn decode(r: &mut Decoder) -> (res: Result<Flock, DecodeError>) {
        proof {
            reveal(take_flock);
            lemma_errors_stay();
        }
        let typ = LockType::from_bits_truncate(u8::decode(r)?);
        let flags = LockFlag::from_bits_truncate(u32::decode(r)?);
        let start = u64::decode(r)?;
        let length = u64::decode(r)?;
        let proc_id = u32::decode(r)?;
        let client_id = String::decode(r)?;
        Ok(Flock { typ, flags, start, length, proc_id, client_id })
    }
}

impl Encodable for Getlock {
    open spec fn wire(v: GetlockView) -> Seq<u8> {
        wire_getlock(v)
    }

    fn encode(&self, w: &mut Vec<u8>) -> (n: usize) {
        proof {
            reveal(wire_getlock);
        }
        let start = w.len();
        self.typ.bits().encode(w);
        self.start.encode(w);
        self.length.encode(w);
        self.proc_id.encode(w);
        self.client_id.encode(w);
        w.len() - start
    }
}

impl Decodable for Getlock {
    open spec fn take(c: Cur) -> (GetlockView, Cur) {
        take_getlock(c)
    }

    fn decode(r: &mut Decoder) -> (res: Result<Getlock, DecodeError>) {
        proof {
            reveal(take_getlock);
            lemma_errors_stay();
        }
        let typ = LockType::from_bits_truncate(u8::decode(r)?);
        let start = u64::decode(r)?;
        let length = u64::decode(r)?;
        let proc_id = u32::decode(r)?;
        let client_id = String::decode(r)?;
        Ok(Getlock { typ, start, length, proc_id, client_id })
    }
}

impl Encodable for Vec<String> {
    open spec fn wire(v: Seq<Seq<char>>) -> Seq<u8> {
        wire_strs(v)
    }

    fn encode(&self, w: &mut Vec<u8>) -> (n: usize) {
        let start = w.len();
        let len: usize = self.len();
        let low: u16 = (len & 0xffff) as u16;
        proof {
            reveal(wire_strs);
            assert(len & 0xffff == len % 0x1_0000) by (bit_vector);
        }
        put_u16_le(w, low);
        let ghost all = self.deep_view();
        let mut i: usize = 0;
        while i < self.len()
            invariant
                i <= self.len(),
                all == self.deep_view(),
                w@ == old(w)@ + le16(low) + wire_str_seq(all.take(i as int)),
            decreases self.len() - i,
        {
            proof {
                assert(all.take(i + 1) =~= all.take(i as int).push(self[i as int]@));
                lemma_wire_str_seq_push(all.take(i as int), self[i as int]@);
            }
            self[i].encode(w);
            i = i + 1;
        }
        assert(all.take(i as int) =~= all);
        w.len() - start
    }
}

impl Decodable for Vec<String> {
    open spec fn take(c: Cur) -> (Seq<Seq<char>>, Cur) {
        take_strs(c)
    }

    fn decode(r: &mut Decoder) -> (res: Result<Vec<String>, DecodeError>) {
        proof {
            reveal(take_strs);
            lemma_errors_stay();
        }
        let len = u16::decode(r)?;
        let ghost start = r.cur();
        let mut buf: Vec<String> = Vec::new();
        let mut i: u16 = 0;
        while i < len
            invariant
                i <= len,
                r.input() == old(r).input(),
                r.limit() == old(r).limit(),
                buf.len() == i,
                take_strs(old(r).cur()) == take_str_seq(start, len as nat),
                take_str_seq(start, len as nat) == (
                    buf.deep_view() + take_str_seq(r.cur(), (len - i) as nat).0,
                    take_str_seq(r.cur(), (len - i) as nat).1,
                ),
            decreases len - i,
        {
            let ghost before = r.cur();
            proof {
                lemma_errors_stay();
                assert(take_str_seq(before, (len - i) as nat).1 == take_str_seq(
                    take_str(before).1,
                    (len - i - 1) as nat,
                ).1);
            }
            let s = String::decode(r)?;
            let ghost prev = buf.deep_view();
            let ghost item = s@;
            buf.push(s);
            proof {
                let rest = take_str_seq(r.cur(), (len - i - 1) as nat).0;
                assert(buf.deep_view() =~= prev.push(item));
                assert(prev + (seq![item] + rest) =~= prev.push(item) + rest);
            }
            i = i + 1;
        }
        assert(buf.deep_view() + Seq::<Seq<char>>::empty() =~= buf.deep_view());
        Ok(buf)
    }
}

impl Encodable for Vec<Qid> {
    open spec fn wire(v: Seq<Qid>) -> Seq<u8> {
        wire_qids(v)
    }

    fn encode(&self, w: &mut Vec<u8>) -> (n: usize) {
        let start = w.len();
        let len: usize = self.len();
        let low: u16 = (len & 0xffff) as u16;
        proof {
            reveal(wire_qids);
            assert(len & 0xffff == len % 0x1_0000) by (bit_vector);
        }
        put_u16_le(w, low);
        let ghost all = self.deep_view();
        let mut i: usize = 0;
        while i < self.len()
            invariant
                i <= self.len(),
                all == self.deep_view(),
                w@ == old(w)@ + le16(low) + wire_qid_seq(all.take(i as int)),
            decreases self.len() - i,
        {
            proof {
                assert(all.take(i + 1) =~= all.take(i as int).push(self[i as int]));
                lemma_wire_qid_seq_push(all.take(i as int), self[i as int]);
            }
            self[i].encode(w);
            i = i + 1;
        }
        assert(all.take(i as int) =~= all);
        w.len() - start
    }
}

impl Decodable for Vec<Qid> {
    open spec fn take(c: Cur) -> (Seq<Qid>, Cur) {
        take_qids(c)
    }

    fn decode(r: &mut Decoder) -> (res: Result<Vec<Qid>, DecodeError>) {
        proof {
            reveal(take_qids);
            lemma_errors_stay();
        }
        let len = u16::decode(r)?;
        let ghost start = r.cur();
        let mut buf: Vec<Qid> = Vec::new();
        let mut i: u16 = 0;
        while i < len
            invariant
                i <= len,
                r.input() == old(r).input(),
                r.limit() == old(r).limit(),
                buf.len() == i,
                take_qids(old(r).cur()) == take_qid_seq(start, len as nat),
                take_qid_seq(start, len as nat) == (
                    buf.deep_view() + take_qid_seq(r.cur(), (len - i) as nat).0,
                    take_qid_seq(r.cur(), (len - i) as nat).1,
                ),
            decreases len - i,
        {
            let ghost before = r.cur();
            proof {
                lemma_errors_stay();
                assert(take_qid_seq(before, (len - i) as nat).1 == take_qid_seq(
                    take_qid(before).1,
                    (len - i - 1) as nat,
                ).1);
            }
            let q = Qid::decode(r)?;
            let ghost prev = buf.deep_view();
            buf.push(q);
            proof {
                let rest = take_qid_seq(r.cur(), (len - i - 1) as nat).0;
                assert(buf.deep_view() =~= prev.push(q));
                assert(prev + (seq![q] + rest) =~= prev.push(q) + rest);
            }
            i = i + 1;
        }
        assert(buf.deep_view() + Seq::<Qid>::empty() =~= buf.deep_view());
        Ok(buf)
    }
}

impl Encodable for DirEntryData {
    open spec fn wire(v: Seq<DirEntryView>) -> Seq<u8> {
        wire_dirents(v)
    }

    fn encode(&self, w: &mut Vec<u8>) -> (n: usize) {
        let start = w.len();
        let size = self.size();
        proof {
            reveal(wire_dirents);
        }
        put_u32_le(w, size);
        let ghost all = self@;
        let mut i: usize = 0;
        while i < self.data.len()
            invariant
                i <= self.data.len(),
                all == self@,
                w@ == old(w)@ + le32(size) + wire_dirent_seq(all.take(i as int)),
            decreases self.data.len() - i,
        {
            proof {
                assert(all.take(i + 1) =~= all.take(i as int).push(self.data[i as int]@));
                lemma_wire_dirent_seq_push(all.take(i as int), self.data[i as int]@);
            }
            self.data[i].encode(w);
            i = i + 1;
        }
        assert(all.take(i as int) =~= all);
        w.len() - start
    }
}

impl Decodable for DirEntryData {
    open spec fn take(c: Cur) -> (Seq<DirEntryView>, Cur) {
        take_dirents(c)
    }

    fn decode(r: &mut Decoder) -> (res: Result<DirEntryData, DecodeError>) {
        proof {
            reveal(take_dirents);
            lemma_errors_stay();
        }
        let size = u32::decode(r)?;
        if r.unread() < size as usize {
            return Err(DecodeError::UnexpectedEof);
        }
        let ghost outer = r.cur();
        let outer_end = r.end;
        r.end = r.pos + size as usize;
        let ghost window = r.cur();
        assert(window.bytes =~= outer.bytes.take(size as int));
        assert(outer.bytes.skip(size as int) =~= r.reader@.subrange(
            r.end as int,
            outer_end as int,
        ));
        let mut data: Vec<DirEntry> = Vec::new();
        while r.pos < r.end
            invariant
                r.reader@ == old(r).reader@,
                r.end <= outer_end <= r.reader@.len(),
                outer_end == old(r).end,
                r.pos <= r.end,
                outer.bytes.skip(size as int) == r.reader@.subrange(r.end as int, outer_end as int),
                take_dirents(old(r).cur()).1.err == take_dirent_all(window).1.err,
                take_dirent_all(window).1.good() ==> take_dirents(old(r).cur()) == (
                    take_dirent_all(window).0,
                    Cur::ok(outer.bytes.skip(size as int)),
                ),
                take_dirent_all(window) == (
                    data.deep_view() + take_dirent_all(r.cur()).0,
                    take_dirent_all(r.cur()).1,
                ),
            decreases r.end - r.pos,
        {
            let ghost before = r.cur();
            match DirEntry::decode(r) {
                Ok(e) => {
                    let ghost prev = data.deep_view();
                    let ghost item = e@;
                    data.push(e);
                    proof {
                        use_type_invariant(&*r);
                        lemma_take_dirent_advances(before);
                        let rest = take_dirent_all(r.cur()).0;
                        assert(data.deep_view() =~= prev.push(item));
                        assert(prev + (seq![item] + rest) =~= prev.push(item) + rest);
                    }
                },
                Err(e) => {
                    proof {
                        use_type_invariant(&*r);
                    }
                    r.end = outer_end;
                    return Err(e);
                },
            }
        }
        assert(data.deep_view() + Seq::<DirEntryView>::empty() =~= data.deep_view());
        r.end = outer_end;
        Ok(DirEntryData { data })
    }
}

/// Appends the zero bytes that end the body of `Rgetattr`.
fn put_reserved(w: &mut Vec<u8>)
    ensures
        final(w)@ == old(w)@ + wire_reserved(),
{
    let mut i: usize = 0;
    while i < RGETATTR_RESERVED
        invariant
            i <= RGETATTR_RESERVED,
            w@ == old(w)@ + Seq::new(i as nat, |k: int| 0u8),
        decreases RGETATTR_RESERVED - i,
    {
        w.push(0u8);
        assert(w@ =~= old(w)@ + Seq::new((i + 1) as nat, |k: int| 0u8));
        i = i + 1;
    }
}

/// Passes over the bytes that end the body of `Rgetattr`.
fn skip_reserved(r: &mut Decoder) -> (res: Result<(), DecodeError>)
    ensures
        final(r).input() == old(r).input(),
        final(r).limit() == old(r).limit(),
        match res {
            Ok(_) => take_reserved(old(r).cur()) == final(r).cur(),
            Err(e) => take_reserved(old(r).cur()).err == Some(e),
        },
{
    let _ = r.advance(RGETATTR_RESERVED)?;
    Ok(())
}

/// Appends the fields of a message body: the messages about files and their attributes.
fn encode_file_body(body: &Fcall, w: &mut Vec<u8>)
    requires
        7 <= body@.msg_type().code() <= 33,
    ensures
        final(w)@ == old(w)@ + wire_body(body@),
{
    match body {
        Fcall::Rlerror { ecode } => {
            ecode.encode(w);
        },
        Fcall::Tstatfs { fid } => {
            fid.encode(w);
        },
        Fcall::Rstatfs { statfs } => {
            statfs.encode(w);
        },
        Fcall::Tlopen { fid, flags } => {
            fid.encode(w);
            flags.encode(w);
        },
        Fcall::Rlopen { qid, iounit } => {
            qid.encode(w);
            iounit.encode(w);
        },
        Fcall::Tlcreate { fid, name, flags, mode, gid } => {
            fid.encode(w);
            name.encode(w);
            flags.encode(w);
            mode.encode(w);
            gid.encode(w);
        },
        Fcall::Rlcreate { qid, iounit } => {
            qid.encode(w);
            iounit.encode(w);
        },
        Fcall::Tsymlink { fid, name, symtgt, gid } => {
            fid.encode(w);
            name.encode(w);
            symtgt.encode(w);
            gid.encode(w);
        },
        Fcall::Rsymlink { qid } => {
            qid.encode(w);
        },
        Fcall::Tmknod { dfid, name, mode, major, minor, gid } => {
            dfid.encode(w);
            name.encode(w);
            mode.encode(w);
            major.encode(w);
            minor.encode(w);
            gid.encode(w);
        },
        Fcall::Rmknod { qid } => {
            qid.encode(w);
        },
        Fcall::Trename { fid, dfid, name } => {
            fid.encode(w);
            dfid.encode(w);
            name.encode(w);
        },
        Fcall::Treadlink { fid } => {
            fid.encode(w);
        },
        Fcall::Rreadlink { target } => {
            target.encode(w);
        },
        Fcall::Tgetattr { fid, req_mask } => {
            fid.encode(w);
            req_mask.bits().encode(w);
        },
        Fcall::Rgetattr { valid, qid, stat } => {
            valid.bits().encode(w);
            qid.encode(w);
            stat.encode(w);
            put_reserved(w);
        },
        Fcall::Tsetattr { fid, valid, stat } => {
            fid.encode(w);
            valid.bits().encode(w);
            stat.encode(w);
        },
        Fcall::Txattrwalk { fid, newfid, name } => {
            fid.encode(w);
            newfid.encode(w);
            name.encode(w);
        },
        Fcall::Rxattrwalk { size } => {
            size.encode(w);
        },
        Fcall::Txattrcreate { fid, name, attr_size, flags } => {
            fid.encode(w);
            name.encode(w);
            attr_size.encode(w);
            flags.encode(w);
        },
        _ => {
            assert(w@ =~= old(w)@ + wire_body(body@));
        },
    }
}

/// Appends the fields of a message body: the messages about directories, locks and links.
fn encode_dir_body(body: &Fcall, w: &mut Vec<u8>)
    requires
        40 <= body@.msg_type().code() <= 77,
    ensures
        final(w)@ == old(w)@ + wire_body(body@),
{
    match body {
        Fcall::Treaddir { fid, offset, count } => {
            fid.encode(w);
            offset.encode(w);
            count.encode(w);
        },
        Fcall::Rreaddir { data } => {
            data.encode(w);
        },
        Fcall::Tfsync { fid } => {
            fid.encode(w);
        },
        Fcall::Tlock { fid, flock } => {
            fid.encode(w);
            flock.encode(w);
        },
        Fcall::Rlock { status } => {
            status.bits().encode(w);
        },
        Fcall::Tgetlock { fid, flock } => {
            fid.encode(w);
            flock.encode(w);
        },
        Fcall::Rgetlock { flock } => {
            flock.encode(w);
        },
        Fcall::Tlink { dfid, fid, name } => {
            dfid.encode(w);
            fid.encode(w);
            name.encode(w);
        },
        Fcall::Tmkdir { dfid, name, mode, gid } => {
            dfid.encode(w);
            name.encode(w);
            mode.encode(w);
            gid.encode(w);
        },
        Fcall::Rmkdir { qid } => {
            qid.encode(w);
        },
        Fcall::Trenameat { olddirfid, oldname, newdirfid, newname } => {
            olddirfid.encode(w);
            oldname.encode(w);
            newdirfid.encode(w);
            newname.encode(w);
        },
        Fcall::Tunlinkat { dirfd, name, flags } => {
            dirfd.encode(w);
            name.encode(w);
            flags.encode(w);
        },
        _ => {
            assert(w@ =~= old(w)@ + wire_body(body@));
        },
    }
}

/// Appends the fields of a message body: the messages of the base protocol.
fn encode_session_body(body: &Fcall, w: &mut Vec<u8>)
    requires
        100 <= body@.msg_type().code() <= 123,
    ensures
        final(w)@ == old(w)@ + wire_body(body@),
{
    match body {
        Fcall::Tauth { afid, uname, aname, n_uname } => {
            afid.encode(w);
            uname.encode(w);
            aname.encode(w);
            n_uname.encode(w);
        },
        Fcall::Rauth { aqid } => {
            aqid.encode(w);
        },
        Fcall::Tattach { fid, afid, uname, aname, n_uname } => {
            fid.encode(w);
            afid.encode(w);
            uname.encode(w);
            aname.encode(w);
            n_uname.encode(w);
        },
        Fcall::Rattach { qid } => {
            qid.encode(w);
        },
        Fcall::Tversion { msize, version } => {
            msize.encode(w);
            version.encode(w);
        },
        Fcall::Rversion { msize, version } => {
            msize.encode(w);
            version.encode(w);
        },
        Fcall::Tflush { oldtag } => {
            oldtag.encode(w);
        },
        Fcall::Twalk { fid, newfid, wnames } => {
            fid.encode(w);
            newfid.encode(w);
            wnames.encode(w);
        },
        Fcall::Rwalk { wqids } => {
            wqids.encode(w);
        },
        Fcall::Tread { fid, offset, count } => {
            fid.encode(w);
            offset.encode(w);
            count.encode(w);
        },
        Fcall::Rread { data } => {
            data.encode(w);
        },
        Fcall::Twrite { fid, offset, data } => {
            fid.encode(w);
            offset.encode(w);
            data.encode(w);
        },
        Fcall::Rwrite { count } => {
            count.encode(w);
        },
        Fcall::Tclunk { fid } => {
            fid.encode(w);
        },
        Fcall::Tremove { fid } => {
            fid.encode(w);
        },
        _ => {
            assert(w@ =~= old(w)@ + wire_body(body@));
        },
    }
}

/// Appends the fields of a message body.
fn encode_body(body: &Fcall, w: &mut Vec<u8>)
    ensures
        final(w)@ == old(w)@ + wire_body(body@),
{
    let code = MsgType::from(body).to_u8();
    if code <= 33 {
        encode_file_body(body, w)
    } else if code <= 77 {
        encode_dir_body(body, w)
    } else {
        encode_session_body(body, w)
    }
}

/// Reads the fields of a message body of type `t`: the messages about files and their attributes.
fn decode_file_body(t: MsgType, r: &mut Decoder) -> (res: Result<Fcall, DecodeError>)
    requires
        7 <= t.code() <= 33,
    ensures
        final(r).input() == old(r).input(),
        final(r).limit() == old(r).limit(),
        match res {
            Ok(body) => take_body(t, old(r).cur()) == (body@, final(r).cur()),
            Err(e) => take_body(t, old(r).cur()).1.err == Some(e),
        },
{
    proof {
        lemma_errors_stay();
    }
    let body = match t {
        MsgType::Rlerror => {
            let ecode = u32::decode(r)?;
            Fcall::Rlerror { ecode }
        },
        MsgType::Tstatfs => {
            let fid = u32::decode(r)?;
            Fcall::Tstatfs { fid }
        },
        MsgType::Rstatfs => {
            let statfs = Statfs::decode(r)?;
            Fcall::Rstatfs { statfs }
        },
        MsgType::Tlopen => {
            let fid = u32::decode(r)?;
            let flags = u32::decode(r)?;
            Fcall::Tlopen { fid, flags }
        },
        MsgType::Rlopen => {
            let qid = Qid::decode(r)?;
            let iounit = u32::decode(r)?;
            Fcall::Rlopen { qid, iounit }
        },
        MsgType::Tlcreate => {
            let fid = u32::decode(r)?;
            let name = String::decode(r)?;
            let flags = u32::decode(r)?;
            let mode = u32::decode(r)?;
            let gid = u32::decode(r)?;
            Fcall::Tlcreate { fid, name, flags, mode, gid }
        },
        MsgType::Rlcreate => {
            let qid = Qid::decode(r)?;
            let iounit = u32::decode(r)?;
            Fcall::Rlcreate { qid, iounit }
        },
        MsgType::Tsymlink => {
            let fid = u32::decode(r)?;
            let name = String::decode(r)?;
            let symtgt = String::decode(r)?;
            let gid = u32::decode(r)?;
            Fcall::Tsymlink { fid, name, symtgt, gid }
        },
        MsgType::Rsymlink => {
            let qid = Qid::decode(r)?;
            Fcall::Rsymlink { qid }
        },
        MsgType::Tmknod => {
            let dfid = u32::decode(r)?;
            let name = String::decode(r)?;
            let mode = u32::decode(r)?;
            let major = u32::decode(r)?;
            let minor = u32::decode(r)?;
            let gid = u32::decode(r)?;
            Fcall::Tmknod { dfid, name, mode, major, minor, gid }
        },
        MsgType::Rmknod => {
            let qid = Qid::decode(r)?;
            Fcall::Rmknod { qid }
        },
        MsgType::Trename => {
            let fid = u32::decode(r)?;
            let dfid = u32::decode(r)?;
            let name = String::decode(r)?;
            Fcall::Trename { fid, dfid, name }
        },
        MsgType::Rrename => Fcall::Rrename,
        MsgType::Treadlink => {
            let fid = u32::decode(r)?;
            Fcall::Treadlink { fid }
        },
        MsgType::Rreadlink => {
            let target = String::decode(r)?;
            Fcall::Rreadlink { target }
        },
        MsgType::Tgetattr => {
            let fid = u32::decode(r)?;
            let req_mask = GetattrMask::from_bits_truncate(u64::decode(r)?);
            Fcall::Tgetattr { fid, req_mask }
        },
        MsgType::Rgetattr => {
            let valid = GetattrMask::from_bits_truncate(u64::decode(r)?);
            let qid = Qid::decode(r)?;
            let stat = Stat::decode(r)?;
            skip_reserved(r)?;
            Fcall::Rgetattr { valid, qid, stat }
        },
        MsgType::Tsetattr => {
            let fid = u32::decode(r)?;
            let valid = SetattrMask::from_bits_truncate(u32::decode(r)?);
            let stat = SetAttr::decode(r)?;
            Fcall::Tsetattr { fid, valid, stat }
        },
        MsgType::Rsetattr => Fcall::Rsetattr,
        MsgType::Txattrwalk => {
            let fid = u32::decode(r)?;
            let newfid = u32::decode(r)?;
            let name = String::decode(r)?;
            Fcall::Txattrwalk { fid, newfid, name }
        },
        MsgType::Rxattrwalk => {
            let size = u64::decode(r)?;
            Fcall::Rxattrwalk { size }
        },
        MsgType::Txattrcreate => {
            let fid = u32::decode(r)?;
            let name = String::decode(r)?;
            let attr_size = u64::decode(r)?;
            let flags = u32::decode(r)?;
            Fcall::Txattrcreate { fid, name, attr_size, flags }
        },
        MsgType::Rxattrcreate => Fcall::Rxattrcreate,
        _ => {
            return Err(DecodeError::InvalidType);
        },
    };
    Ok(body)
}

/// Reads the fields of a message body of type `t`: the messages about directories, locks and links.
fn decode_dir_body(t: MsgType, r: &mut Decoder) -> (res: Result<Fcall, DecodeError>)
    requires
        40 <= t.code() <= 77,
    ensures
        final(r).input() == old(r).input(),
        final(r).limit() == old(r).limit(),
        match res {
            Ok(body) => take_body(t, old(r).cur()) == (body@, final(r).cur()),
            Err(e) => take_body(t, old(r).cur()).1.err == Some(e),
        },
{
    proof {
        lemma_errors_stay();
    }
    let body = match t {
        MsgType::Treaddir => {
            let fid = u32::decode(r)?;
            let offset = u64::decode(r)?;
            let count = u32::decode(r)?;
            Fcall::Treaddir { fid, offset, count }
        },
        MsgType::Rreaddir => {
            let data = DirEntryData::decode(r)?;
            Fcall::Rreaddir { data }
        },
        MsgType::Tfsync => {
            let fid = u32::decode(r)?;
            Fcall::Tfsync { fid }
        },
        MsgType::Rfsync => Fcall::Rfsync,
        MsgType::Tlock => {
            let fid = u32::decode(r)?;
            let flock = Flock::decode(r)?;
            Fcall::Tlock { fid, flock }
        },
        MsgType::Rlock => {
            let status = LockStatus::from_bits_truncate(u8::decode(r)?);
            Fcall::Rlock { status }
        },
        MsgType::Tgetlock => {
            let fid = u32::decode(r)?;
            let flock = Getlock::decode(r)?;
            Fcall::Tgetlock { fid, flock }
        },
        MsgType::Rgetlock => {
            let flock = Getlock::decode(r)?;
            Fcall::Rgetlock { flock }
        },
        MsgType::Tlink => {
            let dfid = u32::decode(r)?;
            let fid = u32::decode(r)?;
            let name = String::decode(r)?;
            Fcall::Tlink { dfid, fid, name }
        },
        MsgType::Rlink => Fcall::Rlink,
        MsgType::Tmkdir => {
            let dfid = u32::decode(r)?;
            let name = String::decode(r)?;
            let mode = u32::decode(r)?;
            let gid = u32::decode(r)?;
            Fcall::Tmkdir { dfid, name, mode, gid }
        },
        MsgType::Rmkdir => {
            let qid = Qid::decode(r)?;
            Fcall::Rmkdir { qid }
        },
        MsgType::Trenameat => {
            let olddirfid = u32::decode(r)?;
            let oldname = String::decode(r)?;
            let newdirfid = u32::decode(r)?;
            let newname = String::decode(r)?;
            Fcall::Trenameat { olddirfid, oldname, newdirfid, newname }
        },
        MsgType::Rrenameat => Fcall::Rrenameat,
        MsgType::Tunlinkat => {
            let dirfd = u32::decode(r)?;
            let name = String::decode(r)?;
            let flags = u32::decode(r)?;
            Fcall::Tunlinkat { dirfd, name, flags }
        },
        MsgType::Runlinkat => Fcall::Runlinkat,
        _ => {
            return Err(DecodeError::InvalidType);
        },
    };
    Ok(body)
}

/// Reads the fields of a message body of type `t`: the messages of the base protocol.
fn decode_session_body(t: MsgType, r: &mut Decoder) -> (res: Result<Fcall, DecodeError>)
    requires
        100 <= t.code() <= 123,
    ensures
        final(r).input() == old(r).input(),
        final(r).limit() == old(r).limit(),
        match res {
            Ok(body) => take_body(t, old(r).cur()) == (body@, final(r).cur()),
            Err(e) => take_body(t, old(r).cur()).1.err == Some(e),
        },
{
    proof {
        lemma_errors_stay();
    }
    let body = match t {
        MsgType::Tauth => {
            let afid = u32::decode(r)?;
            let uname = String::decode(r)?;
            let aname = String::decode(r)?;
            let n_uname = u32::decode(r)?;
            Fcall::Tauth { afid, uname, aname, n_uname }
        },
        MsgType::Rauth => {
            let aqid = Qid::decode(r)?;
            Fcall::Rauth { aqid }
        },
        MsgType::Tattach => {
            let fid = u32::decode(r)?;
            let afid = u32::decode(r)?;
            let uname = String::decode(r)?;
            let aname = String::decode(r)?;
            let n_uname = u32::decode(r)?;
            Fcall::Tattach { fid, afid, uname, aname, n_uname }
        },
        MsgType::Rattach => {
            let qid = Qid::decode(r)?;
            Fcall::Rattach { qid }
        },
        MsgType::Tversion => {
            let msize = u32::decode(r)?;
            let version = String::decode(r)?;
            Fcall::Tversion { msize, version }
        },
        MsgType::Rversion => {
            let msize = u32::decode(r)?;
            let version = String::decode(r)?;
            Fcall::Rversion { msize, version }
        },
        MsgType::Tflush => {
            let oldtag = u16::decode(r)?;
            Fcall::Tflush { oldtag }
        },
        MsgType::Rflush => Fcall::Rflush,
        MsgType::Twalk => {
            let fid = u32::decode(r)?;
            let newfid = u32::decode(r)?;
            let wnames = Vec::<String>::decode(r)?;
            Fcall::Twalk { fid, newfid, wnames }
        },
        MsgType::Rwalk => {
            let wqids = Vec::<Qid>::decode(r)?;
            Fcall::Rwalk { wqids }
        },
        MsgType::Tread => {
            let fid = u32::decode(r)?;
            let offset = u64::decode(r)?;
            let count = u32::decode(r)?;
            Fcall::Tread { fid, offset, count }
        },
        MsgType::Rread => {
            let data = Data::decode(r)?;
            Fcall::Rread { data }
        },
        MsgType::Twrite => {
            let fid = u32::decode(r)?;
            let offset = u64::decode(r)?;
            let data = Data::decode(r)?;
            Fcall::Twrite { fid, offset, data }
        },
        MsgType::Rwrite => {
            let count = u32::decode(r)?;
            Fcall::Rwrite { count }
        },
        MsgType::Tclunk => {
            let fid = u32::decode(r)?;
            Fcall::Tclunk { fid }
        },
        MsgType::Rclunk => Fcall::Rclunk,
        MsgType::Tremove => {
            let fid = u32::decode(r)?;
            Fcall::Tremove { fid }
        },
        MsgType::Rremove => Fcall::Rremove,
        _ => {
            return Err(DecodeError::InvalidType);
        },
    };
    Ok(body)
}

/// Reads the fields of a message body of type `t`.
fn decode_body(t: MsgType, r: &mut Decoder) -> (res: Result<Fcall, DecodeError>)
    ensures
        final(r).input() == old(r).input(),
        final(r).limit() == old(r).limit(),
        match res {
            Ok(body) => take_body(t, old(r).cur()) == (body@, final(r).cur()),
            Err(e) => take_body(t, old(r).cur()).1.err == Some(e),
        },
{
    let code = t.to_u8();
    if code < 7 {
        Err(DecodeError::InvalidType)
    } else if code <= 33 {
        decode_file_body(t, r)
    } else if code <= 77 {
        decode_dir_body(t, r)
    } else {
        decode_session_body(t, r)
    }
}

impl Encodable for Msg {
    open spec fn wire(v: MsgView) -> Seq<u8> {
        wire_msg(v)
    }

    fn encode(&self, w: &mut Vec<u8>) -> (n: usize) {
        let start = w.len();
        let typ = MsgType::from(&self.body);
        typ.to_u8().encode(w);
        self.tag.encode(w);
        encode_body(&self.body, w);
        w.len() - start
    }
}

impl Decodable for Msg {
    open spec fn take(c: Cur) -> (MsgView, Cur) {
        take_msg(c)
    }

    fn decode(r: &mut Decoder) -> (res: Result<Msg, DecodeError>) {
        proof {
            lemma_errors_stay();
        }
        let code = u8::decode(r)?;
        let tag = u16::decode(r)?;
        match MsgType::from_u8(code) {
            None => Err(DecodeError::InvalidType),
            Some(t) => {
                let body = decode_body(t, r)?;
                Ok(Msg { tag, body })
            },
        }
    }
}

/// Reads a 9P message from where `r` stands.
pub fn read_msg(r: &mut Decoder) -> (res: Result<Msg, DecodeError>)
    ensures
        final(r).input() == old(r).input(),
        final(r).limit() == old(r).limit(),
        match res {
            Ok(m) => take_msg(old(r).cur()) == (m@, final(r).cur()),
            Err(e) => take_msg(old(r).cur()).1.err == Some(e),
        },
{
    Msg::decode(r)
}

/// Appends a 9P message to `w` and returns the number of its bytes.
pub fn write_msg(w: &mut Vec<u8>, msg: &Msg) -> (n: usize)
    ensures
        final(w)@ == old(w)@ + wire_msg(msg@),
        n == wire_msg(msg@).len(),
{
    msg.encode(w)
}

/// Reads a frame from where `r` stands: the size, then a message that fills
/// exactly that many bytes.
pub fn read_frame(r: &mut Decoder) -> (res: Result<Msg, DecodeError>)
    ensures
        final(r).input() == old(r).input(),
        final(r).limit() == old(r).limit(),
        match res {
            Ok(m) => take_frame(old(r).cur()) == (m@, final(r).cur()),
            Err(e) => take_frame(old(r).cur()).1.err == Some(e),
        },
{
    let size = u32::decode(r)?;
    if r.unread() < size as usize {
        return Err(DecodeError::UnexpectedEof);
    }
    let ghost outer = r.cur();
    let outer_end = r.end;
    r.end = r.pos + size as usize;
    assert(r.cur().bytes =~= outer.bytes.take(size as int));
    let decoded = Msg::decode(r);
    proof {
        use_type_invariant(&*r);
    }
    let whole = r.pos == r.end;
    let ghost inner_end = r.end;
    r.end = outer_end;
    match decoded {
        Err(e) => Err(e),
        Ok(m) => {
            if whole {
                assert(r.cur().bytes =~= outer.bytes.skip(size as int));
                Ok(m)
            } else {
                Err(DecodeError::FrameMismatch)
            }
        },
    }
}

/// Appends the frame of a 9P message to `w` and returns the number of its
/// bytes.
pub fn write_frame(w: &mut Vec<u8>, msg: &Msg) -> (n: usize)
    ensures
        final(w)@ == old(w)@ + wire_frame(msg@),
        n == wire_frame(msg@).len(),
{
    let start = w.len();
    let mut body: Vec<u8> = Vec::new();
    msg.encode(&mut body);
    assert(body@ =~= wire_msg(msg@));
    let len: u64 = body.len() as u64;
    let low: u32 = (len & 0xffff_ffff) as u32;
    proof {
        assert(len & 0xffff_ffff == len % 0x1_0000_0000) by (bit_vector);
    }
    put_u32_le(w, low);
    w.append(&mut body);
    w.len() - start
}

/// The number of bytes that follow the four bytes of `prefix` in their
/// frame; a prefix of another length says nothing.
pub fn frame_body_len(prefix: &Vec<u8>) -> (n: Option<u32>)
    ensures
        n == (if prefix@.len() == 4 {
            Some(from_le32(prefix@))
        } else {
            None
        }),
{
    if prefix.len() != 4 {
        return None;
    }
    assert(prefix@.subrange(0, 4) =~= prefix@);
    Some(get_u32_le(prefix, 0))
}

} // verus!
