//! The byte format of 9P2000.L messages, as mathematical functions.
//!
//! All integers are little-endian. A string is its length in bytes, in two
//! bytes, and then its UTF-8 bytes. A message is its type code, its tag and
//! the fields of its body in the order of their declaration. On a stream a
//! message travels in a frame: the number of bytes of the message, in four
//! bytes, and then the message.
//!
//! `wire_*` give the bytes of a value, `take_*` read a value off the front of
//! an input. Reading what was written gives the value back.

use vstd::prelude::*;
use vstd::utf8::*;
use crate::error::DecodeError;
use crate::fcall::{
    dirents_size, lemma_code_names_type, DirEntryView, FcallView, FlockView, GetattrMask,
    GetlockView, LockFlag, LockStatus, LockType, MsgType, MsgView, Qid, QidType, SetAttr,
    SetattrMask, Stat, Statfs, Time, DIRENT_FIXED_SIZE,
};

verus! {

/// An input while it is being read: the bytes not yet read, and the first
/// error met. Once an error is met, nothing more is read and the error stays.
pub struct Cur {
    pub bytes: Seq<u8>,
    pub err: Option<DecodeError>,
}

impl Cur {
    /// An input of which nothing was read yet.
    pub open spec fn ok(bytes: Seq<u8>) -> Cur {
        Cur { bytes, err: None }
    }

    /// Whether no error was met yet.
    pub open spec fn good(self) -> bool {
        self.err is None
    }

    /// The input after the error `e` was met: the first error stays.
    pub open spec fn fail(self, e: DecodeError) -> Cur {
        if self.err is Some {
            self
        } else {
            Cur { bytes: self.bytes, err: Some(e) }
        }
    }

    /// The input after `n` more bytes were read.
    pub open spec fn skip(self, n: int) -> Cur {
        Cur { bytes: self.bytes.skip(n), err: None }
    }
}

/// The bytes that the body of `Rgetattr` keeps for later use, after its
/// last field: eight words of eight bytes.
pub const RGETATTR_RESERVED: usize = 64;

// Integers

/// The 2 bytes of a number of 16 bits, the low byte first.
pub open spec fn le16(v: u16) -> Seq<u8> {
    seq![(v & 0xff) as u8, ((v >> 8) & 0xff) as u8]
}

/// The number of 16 bits that the first 2 bytes of `b` spell, the low byte first.
pub open spec fn from_le16(b: Seq<u8>) -> u16 {
    (b[0] as u16) | ((b[1] as u16) << 8)
}

/// The 4 bytes of a number of 32 bits, the low byte first.
pub open spec fn le32(v: u32) -> Seq<u8> {
    seq![
        (v & 0xff) as u8,
        ((v >> 8) & 0xff) as u8,
        ((v >> 16) & 0xff) as u8,
        ((v >> 24) & 0xff) as u8,
    ]
}

/// The number of 32 bits that the first 4 bytes of `b` spell, the low byte first.
pub open spec fn from_le32(b: Seq<u8>) -> u32 {
    (b[0] as u32) | ((b[1] as u32) << 8) | ((b[2] as u32) << 16) | ((b[3] as u32) << 24)
}

/// The 8 bytes of a number of 64 bits, the low byte first.
pub open spec fn le64(v: u64) -> Seq<u8> {
    seq![
        (v & 0xff) as u8,
        ((v >> 8) & 0xff) as u8,
        ((v >> 16) & 0xff) as u8,
        ((v >> 24) & 0xff) as u8,
        ((v >> 32) & 0xff) as u8,
        ((v >> 40) & 0xff) as u8,
        ((v >> 48) & 0xff) as u8,
        ((v >> 56) & 0xff) as u8,
    ]
}

/// The number of 64 bits that the first 8 bytes of `b` spell, the low byte first.
pub open spec fn from_le64(b: Seq<u8>) -> u64 {
    (b[0] as u64) | ((b[1] as u64) << 8) | ((b[2] as u64) << 16) | ((b[3] as u64) << 24) | ((
    b[4] as u64) << 32) | ((b[5] as u64) << 40) | ((b[6] as u64) << 48) | ((b[7] as u64) << 56)
}

/// A number of 16 bits is read back from its bytes as it was.
pub proof fn lemma_le16(v: u16)
    ensures
        le16(v).len() == 2,
        from_le16(le16(v)) == v,
{
    assert(((v & 0xff) as u8 as u16) | ((((v >> 8) & 0xff) as u8 as u16) << 8) == v)
        by (bit_vector);
}

/// A number of 32 bits is read back from its bytes as it was.
pub proof fn lemma_le32(v: u32)
    ensures
        le32(v).len() == 4,
        from_le32(le32(v)) == v,
{
    assert(((v & 0xff) as u8 as u32) | ((((v >> 8) & 0xff) as u8 as u32) << 8) | ((((v >> 16)
        & 0xff) as u8 as u32) << 16) | ((((v >> 24) & 0xff) as u8 as u32) << 24) == v)
        by (bit_vector);
}

/// A number of 64 bits is read back from its bytes as it was.
pub proof fn lemma_le64(v: u64)
    ensures
        le64(v).len() == 8,
        from_le64(le64(v)) == v,
{
    assert(((v & 0xff) as u8 as u64) | ((((v >> 8) & 0xff) as u8 as u64) << 8) | ((((v >> 16)
        & 0xff) as u8 as u64) << 16) | ((((v >> 24) & 0xff) as u8 as u64) << 24) | ((((v >> 32)
        & 0xff) as u8 as u64) << 32) | ((((v >> 40) & 0xff) as u8 as u64) << 40) | ((((v >> 48)
        & 0xff) as u8 as u64) << 48) | ((((v >> 56) & 0xff) as u8 as u64) << 56) == v)
        by (bit_vector);
}

/// The bytes of a byte.
pub open spec fn wire_u8(v: u8) -> Seq<u8> {
    seq![v]
}

/// Reads a byte off the front of an input.
#[verifier::opaque]
pub open spec fn take_u8(c: Cur) -> (u8, Cur) {
    if !c.good() {
        (arbitrary(), c)
    } else if c.bytes.len() < 1 {
        (arbitrary(), c.fail(DecodeError::UnexpectedEof))
    } else {
        (c.bytes[0], c.skip(1))
    }
}

/// Reads a number of 16 bits off the front of an input.
#[verifier::opaque]
pub open spec fn take_u16(c: Cur) -> (u16, Cur) {
    if !c.good() {
        (arbitrary(), c)
    } else if c.bytes.len() < 2 {
        (arbitrary(), c.fail(DecodeError::UnexpectedEof))
    } else {
        (from_le16(c.bytes.take(2)), c.skip(2))
    }
}

/// Reads a number of 32 bits off the front of an input.
#[verifier::opaque]
pub open spec fn take_u32(c: Cur) -> (u32, Cur) {
    if !c.good() {
        (arbitrary(), c)
    } else if c.bytes.len() < 4 {
        (arbitrary(), c.fail(DecodeError::UnexpectedEof))
    } else {
        (from_le32(c.bytes.take(4)), c.skip(4))
    }
}

/// Reads a number of 64 bits off the front of an input.
#[verifier::opaque]
pub open spec fn take_u64(c: Cur) -> (u64, Cur) {
    if !c.good() {
        (arbitrary(), c)
    } else if c.bytes.len() < 8 {
        (arbitrary(), c.fail(DecodeError::UnexpectedEof))
    } else {
        (from_le64(c.bytes.take(8)), c.skip(8))
    }
}

/// Reading the bytes of a byte gives it back, and leaves what followed them.
pub proof fn lemma_take_u8(v: u8, tail: Seq<u8>)
    ensures
        take_u8(Cur::ok(wire_u8(v) + tail)) == (v, Cur::ok(tail)),
{
    reveal(take_u8);
    assert((wire_u8(v) + tail).skip(1) =~= tail);
}

/// Reading the bytes of a number of 16 bits gives it back, and leaves what followed them.
pub proof fn lemma_take_u16(v: u16, tail: Seq<u8>)
    ensures
        take_u16(Cur::ok(le16(v) + tail)) == (v, Cur::ok(tail)),
{
    reveal(take_u16);
    lemma_le16(v);
    assert((le16(v) + tail).take(2) =~= le16(v));
    assert((le16(v) + tail).skip(2) =~= tail);
}

/// Reading the bytes of a number of 32 bits gives it back, and leaves what followed them.
pub proof fn lemma_take_u32(v: u32, tail: Seq<u8>)
    ensures
        take_u32(Cur::ok(le32(v) + tail)) == (v, Cur::ok(tail)),
{
    reveal(take_u32);
    lemma_le32(v);
    assert((le32(v) + tail).take(4) =~= le32(v));
    assert((le32(v) + tail).skip(4) =~= tail);
}

/// Reading the bytes of a number of 64 bits gives it back, and leaves what followed them.
pub proof fn lemma_take_u64(v: u64, tail: Seq<u8>)
    ensures
        take_u64(Cur::ok(le64(v) + tail)) == (v, Cur::ok(tail)),
{
    reveal(take_u64);
    lemma_le64(v);
    assert((le64(v) + tail).take(8) =~= le64(v));
    assert((le64(v) + tail).skip(8) =~= tail);
}

// Strings

/// A string that fits the two bytes that hold its length.
pub open spec fn wf_str(s: Seq<char>) -> bool {
    encode_utf8(s).len() <= 0xffff
}

/// The bytes of a string.
#[verifier::opaque]
pub open spec fn wire_str(s: Seq<char>) -> Seq<u8> {
    le16((encode_utf8(s).len() % 0x1_0000) as u16) + encode_utf8(s)
}

/// Reads a string off the front of an input.
#[verifier::opaque]
pub open spec fn take_str(c: Cur) -> (Seq<char>, Cur) {
    let (n, c1) = take_u16(c);
    if !c1.good() {
        (arbitrary(), c1)
    } else if c1.bytes.len() < n {
        (arbitrary(), c1.fail(DecodeError::UnexpectedEof))
    } else if !valid_utf8(c1.bytes.take(n as int)) {
        (arbitrary(), c1.fail(DecodeError::InvalidUtf8))
    } else {
        (decode_utf8(c1.bytes.take(n as int)), c1.skip(n as int))
    }
}

/// Reading the bytes of a string gives it back, and leaves what followed them.
pub proof fn lemma_take_str(s: Seq<char>, tail: Seq<u8>)
    requires
        wf_str(s),
    ensures
        take_str(Cur::ok(wire_str(s) + tail)) == (s, Cur::ok(tail)),
{
    reveal(wire_str);
    reveal(take_str);
    let b = encode_utf8(s);
    let n = (b.len() % 0x1_0000) as u16;
    assert((le16(n) + b) + tail =~= le16(n) + (b + tail));
    lemma_take_u16(n, b + tail);
    assert((b + tail).take(n as int) =~= b);
    assert((b + tail).skip(n as int) =~= tail);
    encode_utf8_valid_utf8(s);
    encode_utf8_decode_utf8(s);
}

/// The strings of `v`, one after the other.
pub open spec fn wire_str_seq(v: Seq<Seq<char>>) -> Seq<u8>
    decreases v.len(),
{
    if v.len() == 0 {
        Seq::empty()
    } else {
        wire_str(v[0]) + wire_str_seq(v.drop_first())
    }
}

/// Reads `n` strings.
pub open spec fn take_str_seq(c: Cur, n: nat) -> (Seq<Seq<char>>, Cur)
    decreases n,
{
    if !c.good() {
        (arbitrary(), c)
    } else if n == 0 {
        (Seq::empty(), c)
    } else {
        let (s, c1) = take_str(c);
        let (rest, c2) = take_str_seq(c1, (n - 1) as nat);
        (seq![s] + rest, c2)
    }
}

/// Whether a list of strings fits the fields that carry it.
pub open spec fn wf_strs(v: Seq<Seq<char>>) -> bool {
    &&& v.len() <= 0xffff
    &&& forall|i: int| 0 <= i < v.len() ==> wf_str(#[trigger] v[i])
}

/// A count in two bytes, then the strings.
#[verifier::opaque]
pub open spec fn wire_strs(v: Seq<Seq<char>>) -> Seq<u8> {
    le16((v.len() % 0x1_0000) as u16) + wire_str_seq(v)
}

/// Reads a list of strings off the front of an input.
#[verifier::opaque]
pub open spec fn take_strs(c: Cur) -> (Seq<Seq<char>>, Cur) {
    let (n, c1) = take_u16(c);
    take_str_seq(c1, n as nat)
}

/// The bytes of a list with one more item are those of the list and then those of the item.
pub proof fn lemma_wire_str_seq_push(v: Seq<Seq<char>>, s: Seq<char>)
    ensures
        wire_str_seq(v.push(s)) == wire_str_seq(v) + wire_str(s),
    decreases v.len(),
{
    let w = v.push(s);
    if v.len() == 0 {
        assert(w.drop_first() =~= Seq::<Seq<char>>::empty());
        assert(wire_str_seq(w.drop_first()) =~= Seq::<u8>::empty());
    } else {
        assert(w.drop_first() =~= v.drop_first().push(s));
        lemma_wire_str_seq_push(v.drop_first(), s);
    }
    assert(wire_str_seq(w) =~= wire_str_seq(v) + wire_str(s));
}

/// Reading the bytes of strings gives it back, and leaves what followed them.
pub proof fn lemma_take_str_seq(v: Seq<Seq<char>>, tail: Seq<u8>)
    requires
        forall|i: int| 0 <= i < v.len() ==> wf_str(#[trigger] v[i]),
    ensures
        take_str_seq(Cur::ok(wire_str_seq(v) + tail), v.len()) == (v, Cur::ok(tail)),
    decreases v.len(),
{
    if v.len() == 0 {
        assert(wire_str_seq(v) + tail =~= tail);
        assert(v =~= Seq::<Seq<char>>::empty());
    } else {
        let rest = v.drop_first();
        assert((wire_str(v[0]) + wire_str_seq(rest)) + tail =~= wire_str(v[0]) + (wire_str_seq(
            rest,
        ) + tail));
        assert(wf_str(v[0]));
        lemma_take_str(v[0], wire_str_seq(rest) + tail);
        assert forall|i: int| 0 <= i < rest.len() implies wf_str(#[trigger] rest[i]) by {
            assert(rest[i] == v[i + 1]);
        }
        lemma_take_str_seq(rest, tail);
        assert(seq![v[0]] + rest =~= v);
    }
}

/// Reading the bytes of a list of strings gives it back, and leaves what followed them.
pub proof fn lemma_take_strs(v: Seq<Seq<char>>, tail: Seq<u8>)
    requires
        wf_strs(v),
    ensures
        take_strs(Cur::ok(wire_strs(v) + tail)) == (v, Cur::ok(tail)),
{
    reveal(wire_strs);
    reveal(take_strs);
    let n = (v.len() % 0x1_0000) as u16;
    assert((le16(n) + wire_str_seq(v)) + tail =~= le16(n) + (wire_str_seq(v) + tail));
    lemma_take_u16(n, wire_str_seq(v) + tail);
    lemma_take_str_seq(v, tail);
}

// Byte strings

/// Whether a byte string fits the fields that carry it.
pub open spec fn wf_data(d: Seq<u8>) -> bool {
    d.len() <= 0xffff_ffff
}

/// A length in four bytes, then the bytes.
#[verifier::opaque]
pub open spec fn wire_data(d: Seq<u8>) -> Seq<u8> {
    le32((d.len() % 0x1_0000_0000) as u32) + d
}

/// Reads a byte string off the front of an input.
#[verifier::opaque]
pub open spec fn take_data(c: Cur) -> (Seq<u8>, Cur) {
    let (n, c1) = take_u32(c);
    if !c1.good() {
        (arbitrary(), c1)
    } else if c1.bytes.len() < n {
        (arbitrary(), c1.fail(DecodeError::UnexpectedEof))
    } else {
        (c1.bytes.take(n as int), c1.skip(n as int))
    }
}

/// Reading the bytes of a byte string gives it back, and leaves what followed them.
pub proof fn lemma_take_data(d: Seq<u8>, tail: Seq<u8>)
    requires
        wf_data(d),
    ensures
        take_data(Cur::ok(wire_data(d) + tail)) == (d, Cur::ok(tail)),
{
    reveal(wire_data);
    reveal(take_data);
    let n = (d.len() % 0x1_0000_0000) as u32;
    assert((le32(n) + d) + tail =~= le32(n) + (d + tail));
    lemma_take_u32(n, d + tail);
    assert((d + tail).take(n as int) =~= d);
    assert((d + tail).skip(n as int) =~= tail);
}

// Flags

/// Flags without a bit that has no meaning lose nothing when they are read.
pub proof fn lemma_truncated_wf()
    ensures
        forall|m: QidType| #[trigger] QidType::truncated(m.bits) == m,
        forall|m: LockType| m.wf() ==> #[trigger] LockType::truncated(m.bits) == m,
        forall|m: LockFlag| m.wf() ==> #[trigger] LockFlag::truncated(m.bits) == m,
        forall|m: LockStatus| m.wf() ==> #[trigger] LockStatus::truncated(m.bits) == m,
        forall|m: GetattrMask| m.wf() ==> #[trigger] GetattrMask::truncated(m.bits) == m,
        forall|m: SetattrMask| m.wf() ==> #[trigger] SetattrMask::truncated(m.bits) == m,
{
    assert forall|m: QidType| #[trigger] QidType::truncated(m.bits) == m by {
        let b = m.bits;
        assert(b & 0xff == b) by (bit_vector);
    }
    assert forall|m: LockType| m.wf() implies #[trigger] LockType::truncated(m.bits) == m by {
        let b = m.bits;
        assert(b & !3u8 == 0 ==> b & 3 == b) by (bit_vector);
    }
    assert forall|m: LockFlag| m.wf() implies #[trigger] LockFlag::truncated(m.bits) == m by {
        let b = m.bits;
        assert(b & !3u32 == 0 ==> b & 3 == b) by (bit_vector);
    }
    assert forall|m: LockStatus| m.wf() implies #[trigger] LockStatus::truncated(m.bits) == m by {
        let b = m.bits;
        assert(b & !3u8 == 0 ==> b & 3 == b) by (bit_vector);
    }
    assert forall|m: GetattrMask| m.wf() implies #[trigger] GetattrMask::truncated(m.bits)
        == m by {
        let b = m.bits;
        assert(b & !0x3fffu64 == 0 ==> b & 0x3fff == b) by (bit_vector);
    }
    assert forall|m: SetattrMask| m.wf() implies #[trigger] SetattrMask::truncated(m.bits)
        == m by {
        let b = m.bits;
        assert(b & !0x1ffu32 == 0 ==> b & 0x1ff == b) by (bit_vector);
    }
}

// Grouping

/// 2 runs of bytes and a tail, one after the other, are grouped at will.
proof fn lemma_cat2(p1: Seq<u8>, p2: Seq<u8>, tail: Seq<u8>)
    ensures
        p1 + p2 + tail == p1 + (p2 + tail),
{
    assert(p1 + p2 + tail =~= p1 + (p2 + tail));
}

/// 3 runs of bytes and a tail, one after the other, are grouped at will.
proof fn lemma_cat3(p1: Seq<u8>, p2: Seq<u8>, p3: Seq<u8>, tail: Seq<u8>)
    ensures
        p1 + p2 + p3 + tail == p1 + (p2 + (p3 + tail)),
{
    assert(p1 + p2 + p3 + tail =~= p1 + (p2 + (p3 + tail)));
}

/// 4 runs of bytes and a tail, one after the other, are grouped at will.
proof fn lemma_cat4(p1: Seq<u8>, p2: Seq<u8>, p3: Seq<u8>, p4: Seq<u8>, tail: Seq<u8>)
    ensures
        p1 + p2 + p3 + p4 + tail == p1 + (p2 + (p3 + (p4 + tail))),
{
    assert(p1 + p2 + p3 + p4 + tail =~= p1 + (p2 + (p3 + (p4 + tail))));
}

/// 5 runs of bytes and a tail, one after the other, are grouped at will.
proof fn lemma_cat5(
    p1: Seq<u8>,
    p2: Seq<u8>,
    p3: Seq<u8>,
    p4: Seq<u8>,
    p5: Seq<u8>,
    tail: Seq<u8>,
)
    ensures
        p1 + p2 + p3 + p4 + p5 + tail == p1 + (p2 + (p3 + (p4 + (p5 + tail)))),
{
    assert(p1 + p2 + p3 + p4 + p5 + tail =~= p1 + (p2 + (p3 + (p4 + (p5 + tail)))));
}

/// 6 runs of bytes and a tail, one after the other, are grouped at will.
proof fn lemma_cat6(
    p1: Seq<u8>,
    p2: Seq<u8>,
    p3: Seq<u8>,
    p4: Seq<u8>,
    p5: Seq<u8>,
    p6: Seq<u8>,
    tail: Seq<u8>,
)
    ensures
        p1 + p2 + p3 + p4 + p5 + p6 + tail == p1 + (p2 + (p3 + (p4 + (p5 + (p6 + tail))))),
{
    assert(p1 + p2 + p3 + p4 + p5 + p6 + tail =~= p1 + (p2 + (p3 + (p4 + (p5 + (p6 + tail))))));
}

/// 9 runs of bytes and a tail, one after the other, are grouped at will.
proof fn lemma_cat9(
    p1: Seq<u8>,
    p2: Seq<u8>,
    p3: Seq<u8>,
    p4: Seq<u8>,
    p5: Seq<u8>,
    p6: Seq<u8>,
    p7: Seq<u8>,
    p8: Seq<u8>,
    p9: Seq<u8>,
    tail: Seq<u8>,
)
    ensures
        p1 + p2 + p3 + p4 + p5 + p6 + p7 + p8 + p9 + tail
            == p1 + (p2 + (p3 + (p4 + (p5 + (p6 + (p7 + (p8 + (p9 + tail)))))))),
{
    assert(p1 + p2 + p3 + p4 + p5 + p6 + p7 + p8 + p9 + tail
        =~= p1 + (p2 + (p3 + (p4 + (p5 + (p6 + (p7 + (p8 + (p9 + tail)))))))));
}

/// 11 runs of bytes and a tail, one after the other, are grouped at will.
proof fn lemma_cat11(
    p1: Seq<u8>,
    p2: Seq<u8>,
    p3: Seq<u8>,
    p4: Seq<u8>,
    p5: Seq<u8>,
    p6: Seq<u8>,
    p7: Seq<u8>,
    p8: Seq<u8>,
    p9: Seq<u8>,
    p10: Seq<u8>,
    p11: Seq<u8>,
    tail: Seq<u8>,
)
    ensures
        p1 + p2 + p3 + p4 + p5 + p6 + p7 + p8 + p9 + p10 + p11 + tail
            == p1 + (p2 + (p3 + (p4 + (p5 + (p6 + (p7 + (p8 + (p9 + (p10 + (p11 + tail)))))))))),
{
    assert(p1 + p2 + p3 + p4 + p5 + p6 + p7 + p8 + p9 + p10 + p11 + tail
        =~= p1 + (p2 + (p3 + (p4 + (p5 + (p6 + (p7 + (p8 + (p9 + (p10 + (p11 + tail)))))))))));
}

/// The bytes of the type bits of a qid.
pub open spec fn wire_qid_type(m: QidType) -> Seq<u8> {
    wire_u8(m.bits)
}

/// Reads the type bits of a qid off the front of an input.
pub open spec fn take_qid_type(c: Cur) -> (QidType, Cur) {
    let (bits, c1) = take_u8(c);
    (QidType::truncated(bits), c1)
}

/// Reading the bytes of the type bits of a qid gives it back, and leaves what followed them.
pub proof fn lemma_take_qid_type(m: QidType, tail: Seq<u8>)
    ensures
        take_qid_type(Cur::ok(wire_qid_type(m) + tail)) == (m, Cur::ok(tail)),
{
    lemma_take_u8(m.bits, tail);
    lemma_truncated_wf();
}

/// The bytes of a lock type.
pub open spec fn wire_lock_type(m: LockType) -> Seq<u8> {
    wire_u8(m.bits)
}

/// Reads a lock type off the front of an input.
pub open spec fn take_lock_type(c: Cur) -> (LockType, Cur) {
    let (bits, c1) = take_u8(c);
    (LockType::truncated(bits), c1)
}

/// Reading the bytes of a lock type gives it back, and leaves what followed them.
pub proof fn lemma_take_lock_type(m: LockType, tail: Seq<u8>)
    requires
        m.wf(),
    ensures
        take_lock_type(Cur::ok(wire_lock_type(m) + tail)) == (m, Cur::ok(tail)),
{
    lemma_take_u8(m.bits, tail);
    lemma_truncated_wf();
}

/// The bytes of the flags of a lock.
pub open spec fn wire_lock_flag(m: LockFlag) -> Seq<u8> {
    le32(m.bits)
}

/// Reads the flags of a lock off the front of an input.
pub open spec fn take_lock_flag(c: Cur) -> (LockFlag, Cur) {
    let (bits, c1) = take_u32(c);
    (LockFlag::truncated(bits), c1)
}

/// Reading the bytes of the flags of a lock gives it back, and leaves what followed them.
pub proof fn lemma_take_lock_flag(m: LockFlag, tail: Seq<u8>)
    requires
        m.wf(),
    ensures
        take_lock_flag(Cur::ok(wire_lock_flag(m) + tail)) == (m, Cur::ok(tail)),
{
    lemma_take_u32(m.bits, tail);
    lemma_truncated_wf();
}

/// The bytes of a lock status.
pub open spec fn wire_lock_status(m: LockStatus) -> Seq<u8> {
    wire_u8(m.bits)
}

/// Reads a lock status off the front of an input.
pub open spec fn take_lock_status(c: Cur) -> (LockStatus, Cur) {
    let (bits, c1) = take_u8(c);
    (LockStatus::truncated(bits), c1)
}

/// Reading the bytes of a lock status gives it back, and leaves what followed them.
pub proof fn lemma_take_lock_status(m: LockStatus, tail: Seq<u8>)
    requires
        m.wf(),
    ensures
        take_lock_status(Cur::ok(wire_lock_status(m) + tail)) == (m, Cur::ok(tail)),
{
    lemma_take_u8(m.bits, tail);
    lemma_truncated_wf();
}

/// The bytes of a `GetattrMask`.
pub open spec fn wire_getattr_mask(m: GetattrMask) -> Seq<u8> {
    le64(m.bits)
}

/// Reads a `GetattrMask` off the front of an input.
pub open spec fn take_getattr_mask(c: Cur) -> (GetattrMask, Cur) {
    let (bits, c1) = take_u64(c);
    (GetattrMask::truncated(bits), c1)
}

/// Reading the bytes of a `GetattrMask` gives it back, and leaves what followed them.
pub proof fn lemma_take_getattr_mask(m: GetattrMask, tail: Seq<u8>)
    requires
        m.wf(),
    ensures
        take_getattr_mask(Cur::ok(wire_getattr_mask(m) + tail)) == (m, Cur::ok(tail)),
{
    lemma_take_u64(m.bits, tail);
    lemma_truncated_wf();
}

/// The bytes of a `SetattrMask`.
pub open spec fn wire_setattr_mask(m: SetattrMask) -> Seq<u8> {
    le32(m.bits)
}

/// Reads a `SetattrMask` off the front of an input.
pub open spec fn take_setattr_mask(c: Cur) -> (SetattrMask, Cur) {
    let (bits, c1) = take_u32(c);
    (SetattrMask::truncated(bits), c1)
}

/// Reading the bytes of a `SetattrMask` gives it back, and leaves what followed them.
pub proof fn lemma_take_setattr_mask(m: SetattrMask, tail: Seq<u8>)
    requires
        m.wf(),
    ensures
        take_setattr_mask(Cur::ok(wire_setattr_mask(m) + tail)) == (m, Cur::ok(tail)),
{
    lemma_take_u32(m.bits, tail);
    lemma_truncated_wf();
}

// Records

/// The bytes of a qid.
#[verifier::opaque]
pub open spec fn wire_qid(v: Qid) -> Seq<u8> {
    wire_qid_type(v.typ) + le32(v.version) + le64(v.path)
}

/// Reads a qid off the front of an input.
#[verifier::opaque]
pub open spec fn take_qid(c: Cur) -> (Qid, Cur) {
    let (typ, c1) = take_qid_type(c);
    let (version, c2) = take_u32(c1);
    let (path, c3) = take_u64(c2);
    (Qid { typ, version, path }, c3)
}

/// Reading the bytes of a qid gives it back, and leaves what followed them.
pub proof fn lemma_take_qid(v: Qid, tail: Seq<u8>)
    ensures
        take_qid(Cur::ok(wire_qid(v) + tail)) == (v, Cur::ok(tail)),
{
    reveal(wire_qid);
    reveal(take_qid);
    let t2 = le64(v.path) + tail;
    let t1 = le32(v.version) + t2;
    lemma_cat3(wire_qid_type(v.typ), le32(v.version), le64(v.path), tail);
    lemma_take_qid_type(v.typ, t1);
    lemma_take_u32(v.version, t2);
    lemma_take_u64(v.path, tail);
}

/// The bytes of a `Statfs`.
#[verifier::opaque]
pub open spec fn wire_statfs(v: Statfs) -> Seq<u8> {
    le32(v.typ)
        + le32(v.bsize)
        + le64(v.blocks)
        + le64(v.bfree)
        + le64(v.bavail)
        + le64(v.files)
        + le64(v.ffree)
        + le64(v.fsid)
        + le32(v.namelen)
}

/// Reads a `Statfs` off the front of an input.
#[verifier::opaque]
pub open spec fn take_statfs(c: Cur) -> (Statfs, Cur) {
    let (typ, c1) = take_u32(c);
    let (bsize, c2) = take_u32(c1);
    let (blocks, c3) = take_u64(c2);
    let (bfree, c4) = take_u64(c3);
    let (bavail, c5) = take_u64(c4);
    let (files, c6) = take_u64(c5);
    let (ffree, c7) = take_u64(c6);
    let (fsid, c8) = take_u64(c7);
    let (namelen, c9) = take_u32(c8);
    (Statfs { typ, bsize, blocks, bfree, bavail, files, ffree, fsid, namelen }, c9)
}

/// Reading the bytes of a `Statfs` gives it back, and leaves what followed them.
pub proof fn lemma_take_statfs(v: Statfs, tail: Seq<u8>)
    ensures
        take_statfs(Cur::ok(wire_statfs(v) + tail)) == (v, Cur::ok(tail)),
{
    reveal(wire_statfs);
    reveal(take_statfs);
    let t8 = le32(v.namelen) + tail;
    let t7 = le64(v.fsid) + t8;
    let t6 = le64(v.ffree) + t7;
    let t5 = le64(v.files) + t6;
    let t4 = le64(v.bavail) + t5;
    let t3 = le64(v.bfree) + t4;
    let t2 = le64(v.blocks) + t3;
    let t1 = le32(v.bsize) + t2;
    lemma_cat9(le32(v.typ), le32(v.bsize), le64(v.blocks), le64(v.bfree), le64(v.bavail), le64(v.files), le64(v.ffree), le64(v.fsid), le32(v.namelen), tail);
    lemma_take_u32(v.typ, t1);
    lemma_take_u32(v.bsize, t2);
    lemma_take_u64(v.blocks, t3);
    lemma_take_u64(v.bfree, t4);
    lemma_take_u64(v.bavail, t5);
    lemma_take_u64(v.files, t6);
    lemma_take_u64(v.ffree, t7);
    lemma_take_u64(v.fsid, t8);
    lemma_take_u32(v.namelen, tail);
}

/// The bytes of a time.
#[verifier::opaque]
pub open spec fn wire_time(v: Time) -> Seq<u8> {
    le64(v.sec) + le64(v.nsec)
}

/// Reads a time off the front of an input.
#[verifier::opaque]
pub open spec fn take_time(c: Cur) -> (Time, Cur) {
    let (sec, c1) = take_u64(c);
    let (nsec, c2) = take_u64(c1);
    (Time { sec, nsec }, c2)
}

/// Reading the bytes of a time gives it back, and leaves what followed them.
pub proof fn lemma_take_time(v: Time, tail: Seq<u8>)
    ensures
        take_time(Cur::ok(wire_time(v) + tail)) == (v, Cur::ok(tail)),
{
    reveal(wire_time);
    reveal(take_time);
    let t1 = le64(v.nsec) + tail;
    lemma_cat2(le64(v.sec), le64(v.nsec), tail);
    lemma_take_u64(v.sec, t1);
    lemma_take_u64(v.nsec, tail);
}

/// The bytes of a `Stat`.
#[verifier::opaque]
pub open spec fn wire_stat(v: Stat) -> Seq<u8> {
    le32(v.mode)
        + le32(v.uid)
        + le32(v.gid)
        + le64(v.nlink)
        + le64(v.rdev)
        + le64(v.size)
        + le64(v.blksize)
        + le64(v.blocks)
        + wire_time(v.atime)
        + wire_time(v.mtime)
        + wire_time(v.ctime)
}

/// Reads a `Stat` off the front of an input.
#[verifier::opaque]
pub open spec fn take_stat(c: Cur) -> (Stat, Cur) {
    let (mode, c1) = take_u32(c);
    let (uid, c2) = take_u32(c1);
    let (gid, c3) = take_u32(c2);
    let (nlink, c4) = take_u64(c3);
    let (rdev, c5) = take_u64(c4);
    let (size, c6) = take_u64(c5);
    let (blksize, c7) = take_u64(c6);
    let (blocks, c8) = take_u64(c7);
    let (atime, c9) = take_time(c8);
    let (mtime, c10) = take_time(c9);
    let (ctime, c11) = take_time(c10);
    (Stat { mode, uid, gid, nlink, rdev, size, blksize, blocks, atime, mtime, ctime }, c11)
}

/// Reading the bytes of a `Stat` gives it back, and leaves what followed them.
pub proof fn lemma_take_stat(v: Stat, tail: Seq<u8>)
    ensures
        take_stat(Cur::ok(wire_stat(v) + tail)) == (v, Cur::ok(tail)),
{
    reveal(wire_stat);
    reveal(take_stat);
    let t10 = wire_time(v.ctime) + tail;
    let t9 = wire_time(v.mtime) + t10;
    let t8 = wire_time(v.atime) + t9;
    let t7 = le64(v.blocks) + t8;
    let t6 = le64(v.blksize) + t7;
    let t5 = le64(v.size) + t6;
    let t4 = le64(v.rdev) + t5;
    let t3 = le64(v.nlink) + t4;
    let t2 = le32(v.gid) + t3;
    let t1 = le32(v.uid) + t2;
    lemma_cat11(le32(v.mode), le32(v.uid), le32(v.gid), le64(v.nlink), le64(v.rdev), le64(v.size), le64(v.blksize), le64(v.blocks), wire_time(v.atime), wire_time(v.mtime), wire_time(v.ctime), tail);
    lemma_take_u32(v.mode, t1);
    lemma_take_u32(v.uid, t2);
    lemma_take_u32(v.gid, t3);
    lemma_take_u64(v.nlink, t4);
    lemma_take_u64(v.rdev, t5);
    lemma_take_u64(v.size, t6);
    lemma_take_u64(v.blksize, t7);
    lemma_take_u64(v.blocks, t8);
    lemma_take_time(v.atime, t9);
    lemma_take_time(v.mtime, t10);
    lemma_take_time(v.ctime, tail);
}

/// The bytes of a `SetAttr`.
#[verifier::opaque]
pub open spec fn wire_setattr(v: SetAttr) -> Seq<u8> {
    le32(v.mode)
        + le32(v.uid)
        + le32(v.gid)
        + le64(v.size)
        + wire_time(v.atime)
        + wire_time(v.mtime)
}

/// Reads a `SetAttr` off the front of an input.
#[verifier::opaque]
pub open spec fn take_setattr(c: Cur) -> (SetAttr, Cur) {
    let (mode, c1) = take_u32(c);
    let (uid, c2) = take_u32(c1);
    let (gid, c3) = take_u32(c2);
    let (size, c4) = take_u64(c3);
    let (atime, c5) = take_time(c4);
    let (mtime, c6) = take_time(c5);
    (SetAttr { mode, uid, gid, size, atime, mtime }, c6)
}

/// Reading the bytes of a `SetAttr` gives it back, and leaves what followed them.
pub proof fn lemma_take_setattr(v: SetAttr, tail: Seq<u8>)
    ensures
        take_setattr(Cur::ok(wire_setattr(v) + tail)) == (v, Cur::ok(tail)),
{
    reveal(wire_setattr);
    reveal(take_setattr);
    let t5 = wire_time(v.mtime) + tail;
    let t4 = wire_time(v.atime) + t5;
    let t3 = le64(v.size) + t4;
    let t2 = le32(v.gid) + t3;
    let t1 = le32(v.uid) + t2;
    lemma_cat6(le32(v.mode), le32(v.uid), le32(v.gid), le64(v.size), wire_time(v.atime), wire_time(v.mtime), tail);
    lemma_take_u32(v.mode, t1);
    lemma_take_u32(v.uid, t2);
    lemma_take_u32(v.gid, t3);
    lemma_take_u64(v.size, t4);
    lemma_take_time(v.atime, t5);
    lemma_take_time(v.mtime, tail);
}

/// Whether a directory entry fits the fields that carry it.
pub open spec fn wf_dirent(v: DirEntryView) -> bool {
    wf_str(v.name)
}

/// The bytes of a directory entry.
#[verifier::opaque]
pub open spec fn wire_dirent(v: DirEntryView) -> Seq<u8> {
    wire_qid(v.qid) + le64(v.offset) + wire_u8(v.typ) + wire_str(v.name)
}

/// Reads a directory entry off the front of an input.
#[verifier::opaque]
pub open spec fn take_dirent(c: Cur) -> (DirEntryView, Cur) {
    let (qid, c1) = take_qid(c);
    let (offset, c2) = take_u64(c1);
    let (typ, c3) = take_u8(c2);
    let (name, c4) = take_str(c3);
    (DirEntryView { qid, offset, typ, name }, c4)
}

/// Reading the bytes of a directory entry gives it back, and leaves what followed them.
pub proof fn lemma_take_dirent(v: DirEntryView, tail: Seq<u8>)
    requires
        wf_dirent(v),
    ensures
        take_dirent(Cur::ok(wire_dirent(v) + tail)) == (v, Cur::ok(tail)),
{
    reveal(wire_dirent);
    reveal(take_dirent);
    let t3 = wire_str(v.name) + tail;
    let t2 = wire_u8(v.typ) + t3;
    let t1 = le64(v.offset) + t2;
    lemma_cat4(wire_qid(v.qid), le64(v.offset), wire_u8(v.typ), wire_str(v.name), tail);
    lemma_take_qid(v.qid, t1);
    lemma_take_u64(v.offset, t2);
    lemma_take_u8(v.typ, t3);
    lemma_take_str(v.name, tail);
}

/// Whether a `Flock` fits the fields that carry it.
pub open spec fn wf_flock(v: FlockView) -> bool {
    &&& v.typ.wf()
    &&& v.flags.wf()
    &&& wf_str(v.client_id)
}

/// The bytes of a `Flock`.
#[verifier::opaque]
pub open spec fn wire_flock(v: FlockView) -> Seq<u8> {
    wire_lock_type(v.typ)
        + wire_lock_flag(v.flags)
        + le64(v.start)
        + le64(v.length)
        + le32(v.proc_id)
        + wire_str(v.client_id)
}

/// Reads a `Flock` off the front of an input.
#[verifier::opaque]
pub open spec fn take_flock(c: Cur) -> (FlockView, Cur) {
    let (typ, c1) = take_lock_type(c);
    let (flags, c2) = take_lock_flag(c1);
    let (start, c3) = take_u64(c2);
    let (length, c4) = take_u64(c3);
    let (proc_id, c5) = take_u32(c4);
    let (client_id, c6) = take_str(c5);
    (FlockView { typ, flags, start, length, proc_id, client_id }, c6)
}

/// Reading the bytes of a `Flock` gives it back, and leaves what followed them.
pub proof fn lemma_take_flock(v: FlockView, tail: Seq<u8>)
    requires
        wf_flock(v),
    ensures
        take_flock(Cur::ok(wire_flock(v) + tail)) == (v, Cur::ok(tail)),
{
    reveal(wire_flock);
    reveal(take_flock);
    let t5 = wire_str(v.client_id) + tail;
    let t4 = le32(v.proc_id) + t5;
    let t3 = le64(v.length) + t4;
    let t2 = le64(v.start) + t3;
    let t1 = wire_lock_flag(v.flags) + t2;
    lemma_cat6(wire_lock_type(v.typ), wire_lock_flag(v.flags), le64(v.start), le64(v.length), le32(v.proc_id), wire_str(v.client_id), tail);
    lemma_take_lock_type(v.typ, t1);
    lemma_take_lock_flag(v.flags, t2);
    lemma_take_u64(v.start, t3);
    lemma_take_u64(v.length, t4);
    lemma_take_u32(v.proc_id, t5);
    lemma_take_str(v.client_id, tail);
}

/// Whether a `Getlock` fits the fields that carry it.
pub open spec fn wf_getlock(v: GetlockView) -> bool {
    &&& v.typ.wf()
    &&& wf_str(v.client_id)
}

/// The bytes of a `Getlock`.
#[verifier::opaque]
pub open spec fn wire_getlock(v: GetlockView) -> Seq<u8> {
    wire_lock_type(v.typ)
        + le64(v.start)
        + le64(v.length)
        + le32(v.proc_id)
        + wire_str(v.client_id)
}

/// Reads a `Getlock` off the front of an input.
#[verifier::opaque]
pub open spec fn take_getlock(c: Cur) -> (GetlockView, Cur) {
    let (typ, c1) = take_lock_type(c);
    let (start, c2) = take_u64(c1);
    let (length, c3) = take_u64(c2);
    let (proc_id, c4) = take_u32(c3);
    let (client_id, c5) = take_str(c4);
    (GetlockView { typ, start, length, proc_id, client_id }, c5)
}

/// Reading the bytes of a `Getlock` gives it back, and leaves what followed them.
pub proof fn lemma_take_getlock(v: GetlockView, tail: Seq<u8>)
    requires
        wf_getlock(v),
    ensures
        take_getlock(Cur::ok(wire_getlock(v) + tail)) == (v, Cur::ok(tail)),
{
    reveal(wire_getlock);
    reveal(take_getlock);
    let t4 = wire_str(v.client_id) + tail;
    let t3 = le32(v.proc_id) + t4;
    let t2 = le64(v.length) + t3;
    let t1 = le64(v.start) + t2;
    lemma_cat5(wire_lock_type(v.typ), le64(v.start), le64(v.length), le32(v.proc_id), wire_str(v.client_id), tail);
    lemma_take_lock_type(v.typ, t1);
    lemma_take_u64(v.start, t2);
    lemma_take_u64(v.length, t3);
    lemma_take_u32(v.proc_id, t4);
    lemma_take_str(v.client_id, tail);
}

// Lists of qids

/// The qids of `v`, one after the other.
pub open spec fn wire_qid_seq(v: Seq<Qid>) -> Seq<u8>
    decreases v.len(),
{
    if v.len() == 0 {
        Seq::empty()
    } else {
        wire_qid(v[0]) + wire_qid_seq(v.drop_first())
    }
}

/// Reads `n` qids.
pub open spec fn take_qid_seq(c: Cur, n: nat) -> (Seq<Qid>, Cur)
    decreases n,
{
    if !c.good() {
        (arbitrary(), c)
    } else if n == 0 {
        (Seq::empty(), c)
    } else {
        let (q, c1) = take_qid(c);
        let (rest, c2) = take_qid_seq(c1, (n - 1) as nat);
        (seq![q] + rest, c2)
    }
}

/// Whether a list of qids fits the fields that carry it.
pub open spec fn wf_qids(v: Seq<Qid>) -> bool {
    v.len() <= 0xffff
}

/// A count in two bytes, then the qids.
#[verifier::opaque]
pub open spec fn wire_qids(v: Seq<Qid>) -> Seq<u8> {
    le16((v.len() % 0x1_0000) as u16) + wire_qid_seq(v)
}

/// Reads a list of qids off the front of an input.
#[verifier::opaque]
pub open spec fn take_qids(c: Cur) -> (Seq<Qid>, Cur) {
    let (n, c1) = take_u16(c);
    take_qid_seq(c1, n as nat)
}

/// The bytes of a list with one more item are those of the list and then those of the item.
pub proof fn lemma_wire_qid_seq_push(v: Seq<Qid>, q: Qid)
    ensures
        wire_qid_seq(v.push(q)) == wire_qid_seq(v) + wire_qid(q),
    decreases v.len(),
{
    let w = v.push(q);
    if v.len() == 0 {
        assert(w.drop_first() =~= Seq::<Qid>::empty());
        assert(wire_qid_seq(w.drop_first()) =~= Seq::<u8>::empty());
    } else {
        assert(w.drop_first() =~= v.drop_first().push(q));
        lemma_wire_qid_seq_push(v.drop_first(), q);
    }
    assert(wire_qid_seq(w) =~= wire_qid_seq(v) + wire_qid(q));
}

/// Reading the bytes of qids gives it back, and leaves what followed them.
pub proof fn lemma_take_qid_seq(v: Seq<Qid>, tail: Seq<u8>)
    ensures
        take_qid_seq(Cur::ok(wire_qid_seq(v) + tail), v.len()) == (v, Cur::ok(tail)),
    decreases v.len(),
{
    if v.len() == 0 {
        assert(wire_qid_seq(v) + tail =~= tail);
        assert(v =~= Seq::<Qid>::empty());
    } else {
        let rest = v.drop_first();
        assert((wire_qid(v[0]) + wire_qid_seq(rest)) + tail =~= wire_qid(v[0]) + (wire_qid_seq(
            rest,
        ) + tail));
        lemma_take_qid(v[0], wire_qid_seq(rest) + tail);
        lemma_take_qid_seq(rest, tail);
        assert(seq![v[0]] + rest =~= v);
    }
}

/// Reading the bytes of a list of qids gives it back, and leaves what followed them.
pub proof fn lemma_take_qids(v: Seq<Qid>, tail: Seq<u8>)
    requires
        wf_qids(v),
    ensures
        take_qids(Cur::ok(wire_qids(v) + tail)) == (v, Cur::ok(tail)),
{
    reveal(wire_qids);
    reveal(take_qids);
    let n = (v.len() % 0x1_0000) as u16;
    assert((le16(n) + wire_qid_seq(v)) + tail =~= le16(n) + (wire_qid_seq(v) + tail));
    lemma_take_u16(n, wire_qid_seq(v) + tail);
    lemma_take_qid_seq(v, tail);
}

// Directory entries

/// The entries of `v`, one after the other.
pub open spec fn wire_dirent_seq(v: Seq<DirEntryView>) -> Seq<u8>
    decreases v.len(),
{
    if v.len() == 0 {
        Seq::empty()
    } else {
        wire_dirent(v[0]) + wire_dirent_seq(v.drop_first())
    }
}

/// Reads entries until the input is used up.
pub open spec fn take_dirent_all(c: Cur) -> (Seq<DirEntryView>, Cur)
    decreases c.bytes.len(),
{
    if !c.good() {
        (arbitrary(), c)
    } else if c.bytes.len() == 0 {
        (Seq::empty(), c)
    } else {
        let (e, c1) = take_dirent(c);
        if c1.good() && c1.bytes.len() < c.bytes.len() {
            let (rest, c2) = take_dirent_all(c1);
            (seq![e] + rest, c2)
        } else {
            (arbitrary(), c1)
        }
    }
}

/// Whether a list of directory entries fits the fields that carry it.
pub open spec fn wf_dirents(v: Seq<DirEntryView>) -> bool {
    &&& dirents_size(v) <= 0xffff_ffff
    &&& forall|i: int| 0 <= i < v.len() ==> wf_dirent(#[trigger] v[i])
}

/// The number of bytes that the entries take, in four bytes, then the
/// entries.
#[verifier::opaque]
pub open spec fn wire_dirents(v: Seq<DirEntryView>) -> Seq<u8> {
    le32((dirents_size(v) % 0x1_0000_0000) as u32) + wire_dirent_seq(v)
}

/// Reads the number of bytes, then entries from exactly that many bytes.
#[verifier::opaque]
pub open spec fn take_dirents(c: Cur) -> (Seq<DirEntryView>, Cur) {
    let (n, c1) = take_u32(c);
    if !c1.good() {
        (arbitrary(), c1)
    } else if c1.bytes.len() < n {
        (arbitrary(), c1.fail(DecodeError::UnexpectedEof))
    } else {
        let (entries, inner) = take_dirent_all(Cur::ok(c1.bytes.take(n as int)));
        if inner.good() {
            (entries, c1.skip(n as int))
        } else {
            (arbitrary(), Cur { bytes: c1.bytes, err: inner.err })
        }
    }
}

/// A successful read of an entry uses up at least the entry's fixed part.
pub proof fn lemma_take_dirent_advances(c: Cur)
    requires
        c.good(),
        take_dirent(c).1.good(),
    ensures
        take_dirent(c).1.bytes.len() + DIRENT_FIXED_SIZE <= c.bytes.len(),
{
    reveal(take_dirent);
    reveal(take_qid);
    reveal(take_str);
    reveal(take_u8);
    reveal(take_u16);
    reveal(take_u32);
    reveal(take_u64);
}

/// An entry takes as many bytes as its size says.
pub proof fn lemma_wire_dirent_len(e: DirEntryView)
    requires
        wf_dirent(e),
    ensures
        wire_dirent(e).len() == e.size(),
{
    reveal(wire_dirent);
    reveal(wire_qid);
    reveal(wire_str);
    lemma_le16((encode_utf8(e.name).len() % 0x1_0000) as u16);
    lemma_le32(e.qid.version);
    lemma_le64(e.qid.path);
    lemma_le64(e.offset);
}

/// The bytes of a list with one more item are those of the list and then those of the item.
pub proof fn lemma_wire_dirent_seq_push(v: Seq<DirEntryView>, e: DirEntryView)
    ensures
        wire_dirent_seq(v.push(e)) == wire_dirent_seq(v) + wire_dirent(e),
    decreases v.len(),
{
    let w = v.push(e);
    if v.len() == 0 {
        assert(w.drop_first() =~= Seq::<DirEntryView>::empty());
        assert(wire_dirent_seq(w.drop_first()) =~= Seq::<u8>::empty());
    } else {
        assert(w.drop_first() =~= v.drop_first().push(e));
        lemma_wire_dirent_seq_push(v.drop_first(), e);
    }
    assert(wire_dirent_seq(w) =~= wire_dirent_seq(v) + wire_dirent(e));
}

/// The entries take as many bytes as their sizes add up to.
pub proof fn lemma_wire_dirent_seq_len(v: Seq<DirEntryView>)
    requires
        forall|i: int| 0 <= i < v.len() ==> wf_dirent(#[trigger] v[i]),
    ensures
        wire_dirent_seq(v).len() == dirents_size(v),
    decreases v.len(),
{
    if v.len() > 0 {
        let init = v.drop_last();
        assert(init.push(v.last()) =~= v);
        lemma_wire_dirent_seq_push(init, v.last());
        assert forall|i: int| 0 <= i < init.len() implies wf_dirent(#[trigger] init[i]) by {
            assert(init[i] == v[i]);
        }
        lemma_wire_dirent_seq_len(init);
        lemma_wire_dirent_len(v.last());
    }
}

/// Reading the bytes of entries that fill an input gives it back, and leaves what followed them.
pub proof fn lemma_take_dirent_all(v: Seq<DirEntryView>)
    requires
        forall|i: int| 0 <= i < v.len() ==> wf_dirent(#[trigger] v[i]),
    ensures
        take_dirent_all(Cur::ok(wire_dirent_seq(v))) == (v, Cur::ok(Seq::empty())),
    decreases v.len(),
{
    if v.len() == 0 {
        assert(v =~= Seq::<DirEntryView>::empty());
    } else {
        let rest = v.drop_first();
        assert(wf_dirent(v[0]));
        lemma_wire_dirent_len(v[0]);
        lemma_take_dirent(v[0], wire_dirent_seq(rest));
        assert forall|i: int| 0 <= i < rest.len() implies wf_dirent(#[trigger] rest[i]) by {
            assert(rest[i] == v[i + 1]);
        }
        lemma_take_dirent_all(rest);
        assert(seq![v[0]] + rest =~= v);
    }
}

/// Reading the bytes of a list of directory entries gives it back, and leaves what followed them.
pub proof fn lemma_take_dirents(v: Seq<DirEntryView>, tail: Seq<u8>)
    requires
        wf_dirents(v),
    ensures
        take_dirents(Cur::ok(wire_dirents(v) + tail)) == (v, Cur::ok(tail)),
{
    reveal(wire_dirents);
    reveal(take_dirents);
    let n = (dirents_size(v) % 0x1_0000_0000) as u32;
    let body = wire_dirent_seq(v);
    lemma_wire_dirent_seq_len(v);
    assert((le32(n) + body) + tail =~= le32(n) + (body + tail));
    lemma_take_u32(n, body + tail);
    assert((body + tail).take(n as int) =~= body);
    assert((body + tail).skip(n as int) =~= tail);
    lemma_take_dirent_all(v);
}

// The reserved end of `Rgetattr`

/// Zero bytes in place of the fields that `Rgetattr` keeps for later use.
pub open spec fn wire_reserved() -> Seq<u8> {
    Seq::new(RGETATTR_RESERVED as nat, |i: int| 0u8)
}

/// Passes over the reserved bytes, whatever they hold.
pub open spec fn take_reserved(c: Cur) -> Cur {
    if !c.good() {
        c
    } else if c.bytes.len() < RGETATTR_RESERVED {
        c.fail(DecodeError::UnexpectedEof)
    } else {
        c.skip(RGETATTR_RESERVED as int)
    }
}

/// Passing over the reserved bytes leaves what followed them.
pub proof fn lemma_take_reserved(tail: Seq<u8>)
    ensures
        take_reserved(Cur::ok(wire_reserved() + tail)) == Cur::ok(tail),
{
    assert((wire_reserved() + tail).skip(RGETATTR_RESERVED as int) =~= tail);
}

// Message bodies

/// A message body whose strings, lists and flags fit their fields.
pub open spec fn wf_body(b: FcallView) -> bool {
    match b {
        FcallView::Tlcreate { name, .. } => wf_str(name),
        FcallView::Tsymlink { name, symtgt, .. } => wf_str(name) && wf_str(symtgt),
        FcallView::Tmknod { name, .. } => wf_str(name),
        FcallView::Trename { name, .. } => wf_str(name),
        FcallView::Rreadlink { target, .. } => wf_str(target),
        FcallView::Tgetattr { req_mask, .. } => req_mask.wf(),
        FcallView::Rgetattr { valid, .. } => valid.wf(),
        FcallView::Tsetattr { valid, .. } => valid.wf(),
        FcallView::Txattrwalk { name, .. } => wf_str(name),
        FcallView::Txattrcreate { name, .. } => wf_str(name),
        FcallView::Rreaddir { data, .. } => wf_dirents(data),
        FcallView::Tlock { flock, .. } => wf_flock(flock),
        FcallView::Rlock { status, .. } => status.wf(),
        FcallView::Tgetlock { flock, .. } => wf_getlock(flock),
        FcallView::Rgetlock { flock, .. } => wf_getlock(flock),
        FcallView::Tlink { name, .. } => wf_str(name),
        FcallView::Tmkdir { name, .. } => wf_str(name),
        FcallView::Trenameat { oldname, newname, .. } => wf_str(oldname) && wf_str(newname),
        FcallView::Tunlinkat { name, .. } => wf_str(name),
        FcallView::Tauth { uname, aname, .. } => wf_str(uname) && wf_str(aname),
        FcallView::Tattach { uname, aname, .. } => wf_str(uname) && wf_str(aname),
        FcallView::Tversion { version, .. } => wf_str(version),
        FcallView::Rversion { version, .. } => wf_str(version),
        FcallView::Twalk { wnames, .. } => wf_strs(wnames),
        FcallView::Rwalk { wqids, .. } => wf_qids(wqids),
        FcallView::Rread { data, .. } => wf_data(data),
        FcallView::Twrite { data, .. } => wf_data(data),
        _ => true,
    }
}

/// The fields of a message body, in the order of their declaration.
pub open spec fn wire_body(b: FcallView) -> Seq<u8> {
    match b {
        FcallView::Rlerror { ecode } => le32(ecode),
        FcallView::Tstatfs { fid } => le32(fid),
        FcallView::Rstatfs { statfs } => wire_statfs(statfs),
        FcallView::Tlopen { fid, flags } => le32(fid) + le32(flags),
        FcallView::Rlopen { qid, iounit } => wire_qid(qid) + le32(iounit),
        FcallView::Tlcreate { fid, name, flags, mode, gid } => {
            le32(fid)
                + wire_str(name)
                + le32(flags)
                + le32(mode)
                + le32(gid)
        },
        FcallView::Rlcreate { qid, iounit } => wire_qid(qid) + le32(iounit),
        FcallView::Tsymlink { fid, name, symtgt, gid } => {
            le32(fid)
                + wire_str(name)
                + wire_str(symtgt)
                + le32(gid)
        },
        FcallView::Rsymlink { qid } => wire_qid(qid),
        FcallView::Tmknod { dfid, name, mode, major, minor, gid } => {
            le32(dfid)
                + wire_str(name)
                + le32(mode)
                + le32(major)
                + le32(minor)
                + le32(gid)
        },
        FcallView::Rmknod { qid } => wire_qid(qid),
        FcallView::Trename { fid, dfid, name } => le32(fid) + le32(dfid) + wire_str(name),
        FcallView::Rrename => Seq::empty(),
        FcallView::Treadlink { fid } => le32(fid),
        FcallView::Rreadlink { target } => wire_str(target),
        FcallView::Tgetattr { fid, req_mask } => le32(fid) + wire_getattr_mask(req_mask),
        FcallView::Rgetattr { valid, qid, stat } => {
            wire_getattr_mask(valid)
                + wire_qid(qid)
                + wire_stat(stat)
                + wire_reserved()
        },
        FcallView::Tsetattr { fid, valid, stat } => {
            le32(fid)
                + wire_setattr_mask(valid)
                + wire_setattr(stat)
        },
        FcallView::Rsetattr => Seq::empty(),
        FcallView::Txattrwalk { fid, newfid, name } => le32(fid) + le32(newfid) + wire_str(name),
        FcallView::Rxattrwalk { size } => le64(size),
        FcallView::Txattrcreate { fid, name, attr_size, flags } => {
            le32(fid)
                + wire_str(name)
                + le64(attr_size)
                + le32(flags)
        },
        FcallView::Rxattrcreate => Seq::empty(),
        FcallView::Treaddir { fid, offset, count } => le32(fid) + le64(offset) + le32(count),
        FcallView::Rreaddir { data } => wire_dirents(data),
        FcallView::Tfsync { fid } => le32(fid),
        FcallView::Rfsync => Seq::empty(),
        FcallView::Tlock { fid, flock } => le32(fid) + wire_flock(flock),
        FcallView::Rlock { status } => wire_lock_status(status),
        FcallView::Tgetlock { fid, flock } => le32(fid) + wire_getlock(flock),
        FcallView::Rgetlock { flock } => wire_getlock(flock),
        FcallView::Tlink { dfid, fid, name } => le32(dfid) + le32(fid) + wire_str(name),
        FcallView::Rlink => Seq::empty(),
        FcallView::Tmkdir { dfid, name, mode, gid } => {
            le32(dfid)
                + wire_str(name)
                + le32(mode)
                + le32(gid)
        },
        FcallView::Rmkdir { qid } => wire_qid(qid),
        FcallView::Trenameat { olddirfid, oldname, newdirfid, newname } => {
            le32(olddirfid)
                + wire_str(oldname)
                + le32(newdirfid)
                + wire_str(newname)
        },
        FcallView::Rrenameat => Seq::empty(),
        FcallView::Tunlinkat { dirfd, name, flags } => le32(dirfd) + wire_str(name) + le32(flags),
        FcallView::Runlinkat => Seq::empty(),
        FcallView::Tauth { afid, uname, aname, n_uname } => {
            le32(afid)
                + wire_str(uname)
                + wire_str(aname)
                + le32(n_uname)
        },
        FcallView::Rauth { aqid } => wire_qid(aqid),
        FcallView::Tattach { fid, afid, uname, aname, n_uname } => {
            le32(fid)
                + le32(afid)
                + wire_str(uname)
                + wire_str(aname)
                + le32(n_uname)
        },
        FcallView::Rattach { qid } => wire_qid(qid),
        FcallView::Tversion { msize, version } => le32(msize) + wire_str(version),
        FcallView::Rversion { msize, version } => le32(msize) + wire_str(version),
        FcallView::Tflush { oldtag } => le16(oldtag),
        FcallView::Rflush => Seq::empty(),
        FcallView::Twalk { fid, newfid, wnames } => le32(fid) + le32(newfid) + wire_strs(wnames),
        FcallView::Rwalk { wqids } => wire_qids(wqids),
        FcallView::Tread { fid, offset, count } => le32(fid) + le64(offset) + le32(count),
        FcallView::Rread { data } => wire_data(data),
        FcallView::Twrite { fid, offset, data } => le32(fid) + le64(offset) + wire_data(data),
        FcallView::Rwrite { count } => le32(count),
        FcallView::Tclunk { fid } => le32(fid),
        FcallView::Rclunk => Seq::empty(),
        FcallView::Tremove { fid } => le32(fid),
        FcallView::Rremove => Seq::empty(),
    }
}

/// Reads the body of a message of type `t`.
pub open spec fn take_body(t: MsgType, c: Cur) -> (FcallView, Cur) {
    match t {
        MsgType::Tlerror => (arbitrary(), c.fail(DecodeError::InvalidType)),
        MsgType::Rlerror => {
            let (ecode, c1) = take_u32(c);
            (FcallView::Rlerror { ecode }, c1)
        },
        MsgType::Tstatfs => {
            let (fid, c1) = take_u32(c);
            (FcallView::Tstatfs { fid }, c1)
        },
        MsgType::Rstatfs => {
            let (statfs, c1) = take_statfs(c);
            (FcallView::Rstatfs { statfs }, c1)
        },
        MsgType::Tlopen => {
            let (fid, c1) = take_u32(c);
            let (flags, c2) = take_u32(c1);
            (FcallView::Tlopen { fid, flags }, c2)
        },
        MsgType::Rlopen => {
            let (qid, c1) = take_qid(c);
            let (iounit, c2) = take_u32(c1);
            (FcallView::Rlopen { qid, iounit }, c2)
        },
        MsgType::Tlcreate => {
            let (fid, c1) = take_u32(c);
            let (name, c2) = take_str(c1);
            let (flags, c3) = take_u32(c2);
            let (mode, c4) = take_u32(c3);
            let (gid, c5) = take_u32(c4);
            (FcallView::Tlcreate { fid, name, flags, mode, gid }, c5)
        },
        MsgType::Rlcreate => {
            let (qid, c1) = take_qid(c);
            let (iounit, c2) = take_u32(c1);
            (FcallView::Rlcreate { qid, iounit }, c2)
        },
        MsgType::Tsymlink => {
            let (fid, c1) = take_u32(c);
            let (name, c2) = take_str(c1);
            let (symtgt, c3) = take_str(c2);
            let (gid, c4) = take_u32(c3);
            (FcallView::Tsymlink { fid, name, symtgt, gid }, c4)
        },
        MsgType::Rsymlink => {
            let (qid, c1) = take_qid(c);
            (FcallView::Rsymlink { qid }, c1)
        },
        MsgType::Tmknod => {
            let (dfid, c1) = take_u32(c);
            let (name, c2) = take_str(c1);
            let (mode, c3) = take_u32(c2);
            let (major, c4) = take_u32(c3);
            let (minor, c5) = take_u32(c4);
            let (gid, c6) = take_u32(c5);
            (FcallView::Tmknod { dfid, name, mode, major, minor, gid }, c6)
        },
        MsgType::Rmknod => {
            let (qid, c1) = take_qid(c);
            (FcallView::Rmknod { qid }, c1)
        },
        MsgType::Trename => {
            let (fid, c1) = take_u32(c);
            let (dfid, c2) = take_u32(c1);
            let (name, c3) = take_str(c2);
            (FcallView::Trename { fid, dfid, name }, c3)
        },
        MsgType::Rrename => (FcallView::Rrename, c),
        MsgType::Treadlink => {
            let (fid, c1) = take_u32(c);
            (FcallView::Treadlink { fid }, c1)
        },
        MsgType::Rreadlink => {
            let (target, c1) = take_str(c);
            (FcallView::Rreadlink { target }, c1)
        },
        MsgType::Tgetattr => {
            let (fid, c1) = take_u32(c);
            let (req_mask, c2) = take_getattr_mask(c1);
            (FcallView::Tgetattr { fid, req_mask }, c2)
        },
        MsgType::Rgetattr => {
            let (valid, c1) = take_getattr_mask(c);
            let (qid, c2) = take_qid(c1);
            let (stat, c3) = take_stat(c2);
            let c4 = take_reserved(c3);
            (FcallView::Rgetattr { valid, qid, stat }, c4)
        },
        MsgType::Tsetattr => {
            let (fid, c1) = take_u32(c);
            let (valid, c2) = take_setattr_mask(c1);
            let (stat, c3) = take_setattr(c2);
            (FcallView::Tsetattr { fid, valid, stat }, c3)
        },
        MsgType::Rsetattr => (FcallView::Rsetattr, c),
        MsgType::Txattrwalk => {
            let (fid, c1) = take_u32(c);
            let (newfid, c2) = take_u32(c1);
            let (name, c3) = take_str(c2);
            (FcallView::Txattrwalk { fid, newfid, name }, c3)
        },
        MsgType::Rxattrwalk => {
            let (size, c1) = take_u64(c);
            (FcallView::Rxattrwalk { size }, c1)
        },
        MsgType::Txattrcreate => {
            let (fid, c1) = take_u32(c);
            let (name, c2) = take_str(c1);
            let (attr_size, c3) = take_u64(c2);
            let (flags, c4) = take_u32(c3);
            (FcallView::Txattrcreate { fid, name, attr_size, flags }, c4)
        },
        MsgType::Rxattrcreate => (FcallView::Rxattrcreate, c),
        MsgType::Treaddir => {
            let (fid, c1) = take_u32(c);
            let (offset, c2) = take_u64(c1);
            let (count, c3) = take_u32(c2);
            (FcallView::Treaddir { fid, offset, count }, c3)
        },
        MsgType::Rreaddir => {
            let (data, c1) = take_dirents(c);
            (FcallView::Rreaddir { data }, c1)
        },
        MsgType::Tfsync => {
            let (fid, c1) = take_u32(c);
            (FcallView::Tfsync { fid }, c1)
        },
        MsgType::Rfsync => (FcallView::Rfsync, c),
        MsgType::Tlock => {
            let (fid, c1) = take_u32(c);
            let (flock, c2) = take_flock(c1);
            (FcallView::Tlock { fid, flock }, c2)
        },
        MsgType::Rlock => {
            let (status, c1) = take_lock_status(c);
            (FcallView::Rlock { status }, c1)
        },
        MsgType::Tgetlock => {
            let (fid, c1) = take_u32(c);
            let (flock, c2) = take_getlock(c1);
            (FcallView::Tgetlock { fid, flock }, c2)
        },
        MsgType::Rgetlock => {
            let (flock, c1) = take_getlock(c);
            (FcallView::Rgetlock { flock }, c1)
        },
        MsgType::Tlink => {
            let (dfid, c1) = take_u32(c);
            let (fid, c2) = take_u32(c1);
            let (name, c3) = take_str(c2);
            (FcallView::Tlink { dfid, fid, name }, c3)
        },
        MsgType::Rlink => (FcallView::Rlink, c),
        MsgType::Tmkdir => {
            let (dfid, c1) = take_u32(c);
            let (name, c2) = take_str(c1);
            let (mode, c3) = take_u32(c2);
            let (gid, c4) = take_u32(c3);
            (FcallView::Tmkdir { dfid, name, mode, gid }, c4)
        },
        MsgType::Rmkdir => {
            let (qid, c1) = take_qid(c);
            (FcallView::Rmkdir { qid }, c1)
        },
        MsgType::Trenameat => {
            let (olddirfid, c1) = take_u32(c);
            let (oldname, c2) = take_str(c1);
            let (newdirfid, c3) = take_u32(c2);
            let (newname, c4) = take_str(c3);
            (FcallView::Trenameat { olddirfid, oldname, newdirfid, newname }, c4)
        },
        MsgType::Rrenameat => (FcallView::Rrenameat, c),
        MsgType::Tunlinkat => {
            let (dirfd, c1) = take_u32(c);
            let (name, c2) = take_str(c1);
            let (flags, c3) = take_u32(c2);
            (FcallView::Tunlinkat { dirfd, name, flags }, c3)
        },
        MsgType::Runlinkat => (FcallView::Runlinkat, c),
        MsgType::Tauth => {
            let (afid, c1) = take_u32(c);
            let (uname, c2) = take_str(c1);
            let (aname, c3) = take_str(c2);
            let (n_uname, c4) = take_u32(c3);
            (FcallView::Tauth { afid, uname, aname, n_uname }, c4)
        },
        MsgType::Rauth => {
            let (aqid, c1) = take_qid(c);
            (FcallView::Rauth { aqid }, c1)
        },
        MsgType::Tattach => {
            let (fid, c1) = take_u32(c);
            let (afid, c2) = take_u32(c1);
            let (uname, c3) = take_str(c2);
            let (aname, c4) = take_str(c3);
            let (n_uname, c5) = take_u32(c4);
            (FcallView::Tattach { fid, afid, uname, aname, n_uname }, c5)
        },
        MsgType::Rattach => {
            let (qid, c1) = take_qid(c);
            (FcallView::Rattach { qid }, c1)
        },
        MsgType::Tversion => {
            let (msize, c1) = take_u32(c);
            let (version, c2) = take_str(c1);
            (FcallView::Tversion { msize, version }, c2)
        },
        MsgType::Rversion => {
            let (msize, c1) = take_u32(c);
            let (version, c2) = take_str(c1);
            (FcallView::Rversion { msize, version }, c2)
        },
        MsgType::Tflush => {
            let (oldtag, c1) = take_u16(c);
            (FcallView::Tflush { oldtag }, c1)
        },
        MsgType::Rflush => (FcallView::Rflush, c),
        MsgType::Twalk => {
            let (fid, c1) = take_u32(c);
            let (newfid, c2) = take_u32(c1);
            let (wnames, c3) = take_strs(c2);
            (FcallView::Twalk { fid, newfid, wnames }, c3)
        },
        MsgType::Rwalk => {
            let (wqids, c1) = take_qids(c);
            (FcallView::Rwalk { wqids }, c1)
        },
        MsgType::Tread => {
            let (fid, c1) = take_u32(c);
            let (offset, c2) = take_u64(c1);
            let (count, c3) = take_u32(c2);
            (FcallView::Tread { fid, offset, count }, c3)
        },
        MsgType::Rread => {
            let (data, c1) = take_data(c);
            (FcallView::Rread { data }, c1)
        },
        MsgType::Twrite => {
            let (fid, c1) = take_u32(c);
            let (offset, c2) = take_u64(c1);
            let (data, c3) = take_data(c2);
            (FcallView::Twrite { fid, offset, data }, c3)
        },
        MsgType::Rwrite => {
            let (count, c1) = take_u32(c);
            (FcallView::Rwrite { count }, c1)
        },
        MsgType::Tclunk => {
            let (fid, c1) = take_u32(c);
            (FcallView::Tclunk { fid }, c1)
        },
        MsgType::Rclunk => (FcallView::Rclunk, c),
        MsgType::Tremove => {
            let (fid, c1) = take_u32(c);
            (FcallView::Tremove { fid }, c1)
        },
        MsgType::Rremove => (FcallView::Rremove, c),
    }
}

/// Once an error is met, every further read leaves the input as it is.
pub proof fn lemma_errors_stay()
    ensures
        forall|c: Cur| !c.good() ==> (#[trigger] take_u8(c)).1 == c,
        forall|c: Cur| !c.good() ==> (#[trigger] take_u16(c)).1 == c,
        forall|c: Cur| !c.good() ==> (#[trigger] take_u32(c)).1 == c,
        forall|c: Cur| !c.good() ==> (#[trigger] take_u64(c)).1 == c,
        forall|c: Cur| !c.good() ==> (#[trigger] take_str(c)).1 == c,
        forall|c: Cur| !c.good() ==> (#[trigger] take_strs(c)).1 == c,
        forall|c: Cur| !c.good() ==> (#[trigger] take_data(c)).1 == c,
        forall|c: Cur| !c.good() ==> (#[trigger] take_qid(c)).1 == c,
        forall|c: Cur| !c.good() ==> (#[trigger] take_qids(c)).1 == c,
        forall|c: Cur| !c.good() ==> (#[trigger] take_statfs(c)).1 == c,
        forall|c: Cur| !c.good() ==> (#[trigger] take_time(c)).1 == c,
        forall|c: Cur| !c.good() ==> (#[trigger] take_stat(c)).1 == c,
        forall|c: Cur| !c.good() ==> (#[trigger] take_setattr(c)).1 == c,
        forall|c: Cur| !c.good() ==> (#[trigger] take_dirent(c)).1 == c,
        forall|c: Cur| !c.good() ==> (#[trigger] take_dirents(c)).1 == c,
        forall|c: Cur| !c.good() ==> (#[trigger] take_flock(c)).1 == c,
        forall|c: Cur| !c.good() ==> (#[trigger] take_getlock(c)).1 == c,
        forall|c: Cur| !c.good() ==> (#[trigger] take_qid_type(c)).1 == c,
        forall|c: Cur| !c.good() ==> (#[trigger] take_lock_type(c)).1 == c,
        forall|c: Cur| !c.good() ==> (#[trigger] take_lock_flag(c)).1 == c,
        forall|c: Cur| !c.good() ==> (#[trigger] take_lock_status(c)).1 == c,
        forall|c: Cur| !c.good() ==> (#[trigger] take_getattr_mask(c)).1 == c,
        forall|c: Cur| !c.good() ==> (#[trigger] take_setattr_mask(c)).1 == c,
        forall|c: Cur| !c.good() ==> #[trigger] take_reserved(c) == c,
        forall|c: Cur, n: nat| !c.good() ==> (#[trigger] take_str_seq(c, n)).1 == c,
        forall|c: Cur, n: nat| !c.good() ==> (#[trigger] take_qid_seq(c, n)).1 == c,
        forall|c: Cur| !c.good() ==> (#[trigger] take_dirent_all(c)).1 == c,
        forall|c: Cur, t: MsgType| !c.good() ==> (#[trigger] take_body(t, c)).1 == c,
{
    reveal(take_u8);
    reveal(take_u16);
    reveal(take_u32);
    reveal(take_u64);
    reveal(take_str);
    reveal(take_strs);
    reveal(take_data);
    reveal(take_time);
    reveal(take_qid);
    reveal(take_qids);
    reveal(take_statfs);
    reveal(take_stat);
    reveal(take_setattr);
    reveal(take_dirent);
    reveal(take_dirents);
    reveal(take_flock);
    reveal(take_getlock);
}

/// Reading the bytes of the body of `Rlerror` gives it back.
proof fn lemma_take_rlerror(ecode: u32, tail: Seq<u8>)
    ensures
        ({
            let b = FcallView::Rlerror { ecode };
            take_body(MsgType::Rlerror, Cur::ok(wire_body(b) + tail)) == (b, Cur::ok(tail))
        }),
{
    lemma_take_u32(ecode, tail);
}

/// Reading the bytes of the body of `Tstatfs` gives it back.
proof fn lemma_take_tstatfs(fid: u32, tail: Seq<u8>)
    ensures
        ({
            let b = FcallView::Tstatfs { fid };
            take_body(MsgType::Tstatfs, Cur::ok(wire_body(b) + tail)) == (b, Cur::ok(tail))
        }),
{
    lemma_take_u32(fid, tail);
}

/// Reading the bytes of the body of `Rstatfs` gives it back.
proof fn lemma_take_rstatfs(statfs: Statfs, tail: Seq<u8>)
    ensures
        ({
            let b = FcallView::Rstatfs { statfs };
            take_body(MsgType::Rstatfs, Cur::ok(wire_body(b) + tail)) == (b, Cur::ok(tail))
        }),
{
    lemma_take_statfs(statfs, tail);
}

/// Reading the bytes of the body of `Tlopen` gives it back.
proof fn lemma_take_tlopen(fid: u32, flags: u32, tail: Seq<u8>)
    ensures
        ({
            let b = FcallView::Tlopen { fid, flags };
            take_body(MsgType::Tlopen, Cur::ok(wire_body(b) + tail)) == (b, Cur::ok(tail))
        }),
{
    let t1 = le32(flags) + tail;
    lemma_cat2(le32(fid), le32(flags), tail);
    lemma_take_u32(fid, t1);
    lemma_take_u32(flags, tail);
}

/// Reading the bytes of the body of `Rlopen` gives it back.
proof fn lemma_take_rlopen(qid: Qid, iounit: u32, tail: Seq<u8>)
    ensures
        ({
            let b = FcallView::Rlopen { qid, iounit };
            take_body(MsgType::Rlopen, Cur::ok(wire_body(b) + tail)) == (b, Cur::ok(tail))
        }),
{
    let t1 = le32(iounit) + tail;
    lemma_cat2(wire_qid(qid), le32(iounit), tail);
    lemma_take_qid(qid, t1);
    lemma_take_u32(iounit, tail);
}

/// Reading the bytes of the body of `Tlcreate` gives it back.
proof fn lemma_take_tlcreate(
    fid: u32,
    name: Seq<char>,
    flags: u32,
    mode: u32,
    gid: u32,
    tail: Seq<u8>,
)
    requires
        wf_str(name),
    ensures
        ({
            let b = FcallView::Tlcreate { fid, name, flags, mode, gid };
            take_body(MsgType::Tlcreate, Cur::ok(wire_body(b) + tail)) == (b, Cur::ok(tail))
        }),
{
    let t4 = le32(gid) + tail;
    let t3 = le32(mode) + t4;
    let t2 = le32(flags) + t3;
    let t1 = wire_str(name) + t2;
    lemma_cat5(le32(fid), wire_str(name), le32(flags), le32(mode), le32(gid), tail);
    lemma_take_u32(fid, t1);
    lemma_take_str(name, t2);
    lemma_take_u32(flags, t3);
    lemma_take_u32(mode, t4);
    lemma_take_u32(gid, tail);
}

/// Reading the bytes of the body of `Rlcreate` gives it back.
proof fn lemma_take_rlcreate(qid: Qid, iounit: u32, tail: Seq<u8>)
    ensures
        ({
            let b = FcallView::Rlcreate { qid, iounit };
            take_body(MsgType::Rlcreate, Cur::ok(wire_body(b) + tail)) == (b, Cur::ok(tail))
        }),
{
    let t1 = le32(iounit) + tail;
    lemma_cat2(wire_qid(qid), le32(iounit), tail);
    lemma_take_qid(qid, t1);
    lemma_take_u32(iounit, tail);
}

/// Reading the bytes of the body of `Tsymlink` gives it back.
proof fn lemma_take_tsymlink(
    fid: u32,
    name: Seq<char>,
    symtgt: Seq<char>,
    gid: u32,
    tail: Seq<u8>,
)
    requires
        wf_str(name),
        wf_str(symtgt),
    ensures
        ({
            let b = FcallView::Tsymlink { fid, name, symtgt, gid };
            take_body(MsgType::Tsymlink, Cur::ok(wire_body(b) + tail)) == (b, Cur::ok(tail))
        }),
{
    let t3 = le32(gid) + tail;
    let t2 = wire_str(symtgt) + t3;
    let t1 = wire_str(name) + t2;
    lemma_cat4(le32(fid), wire_str(name), wire_str(symtgt), le32(gid), tail);
    lemma_take_u32(fid, t1);
    lemma_take_str(name, t2);
    lemma_take_str(symtgt, t3);
    lemma_take_u32(gid, tail);
}

/// Reading the bytes of the body of `Rsymlink` gives it back.
proof fn lemma_take_rsymlink(qid: Qid, tail: Seq<u8>)
    ensures
        ({
            let b = FcallView::Rsymlink { qid };
            take_body(MsgType::Rsymlink, Cur::ok(wire_body(b) + tail)) == (b, Cur::ok(tail))
        }),
{
    lemma_take_qid(qid, tail);
}

/// Reading the bytes of the body of `Tmknod` gives it back.
proof fn lemma_take_tmknod(
    dfid: u32,
    name: Seq<char>,
    mode: u32,
    major: u32,
    minor: u32,
    gid: u32,
    tail: Seq<u8>,
)
    requires
        wf_str(name),
    ensures
        ({
            let b = FcallView::Tmknod { dfid, name, mode, major, minor, gid };
            take_body(MsgType::Tmknod, Cur::ok(wire_body(b) + tail)) == (b, Cur::ok(tail))
        }),
{
    let t5 = le32(gid) + tail;
    let t4 = le32(minor) + t5;
    let t3 = le32(major) + t4;
    let t2 = le32(mode) + t3;
    let t1 = wire_str(name) + t2;
    lemma_cat6(le32(dfid), wire_str(name), le32(mode), le32(major), le32(minor), le32(gid), tail);
    lemma_take_u32(dfid, t1);
    lemma_take_str(name, t2);
    lemma_take_u32(mode, t3);
    lemma_take_u32(major, t4);
    lemma_take_u32(minor, t5);
    lemma_take_u32(gid, tail);
}

/// Reading the bytes of the body of `Rmknod` gives it back.
proof fn lemma_take_rmknod(qid: Qid, tail: Seq<u8>)
    ensures
        ({
            let b = FcallView::Rmknod { qid };
            take_body(MsgType::Rmknod, Cur::ok(wire_body(b) + tail)) == (b, Cur::ok(tail))
        }),
{
    lemma_take_qid(qid, tail);
}

/// Reading the bytes of the body of `Trename` gives it back.
proof fn lemma_take_trename(fid: u32, dfid: u32, name: Seq<char>, tail: Seq<u8>)
    requires
        wf_str(name),
    ensures
        ({
            let b = FcallView::Trename { fid, dfid, name };
            take_body(MsgType::Trename, Cur::ok(wire_body(b) + tail)) == (b, Cur::ok(tail))
        }),
{
    let t2 = wire_str(name) + tail;
    let t1 = le32(dfid) + t2;
    lemma_cat3(le32(fid), le32(dfid), wire_str(name), tail);
    lemma_take_u32(fid, t1);
    lemma_take_u32(dfid, t2);
    lemma_take_str(name, tail);
}

/// Reading the bytes of the body of `Treadlink` gives it back.
proof fn lemma_take_treadlink(fid: u32, tail: Seq<u8>)
    ensures
        ({
            let b = FcallView::Treadlink { fid };
            take_body(MsgType::Treadlink, Cur::ok(wire_body(b) + tail)) == (b, Cur::ok(tail))
        }),
{
    lemma_take_u32(fid, tail);
}

/// Reading the bytes of the body of `Rreadlink` gives it back.
proof fn lemma_take_rreadlink(target: Seq<char>, tail: Seq<u8>)
    requires
        wf_str(target),
    ensures
        ({
            let b = FcallView::Rreadlink { target };
            take_body(MsgType::Rreadlink, Cur::ok(wire_body(b) + tail)) == (b, Cur::ok(tail))
        }),
{
    lemma_take_str(target, tail);
}

/// Reading the bytes of the body of `Tgetattr` gives it back.
proof fn lemma_take_tgetattr(fid: u32, req_mask: GetattrMask, tail: Seq<u8>)
    requires
        req_mask.wf(),
    ensures
        ({
            let b = FcallView::Tgetattr { fid, req_mask };
            take_body(MsgType::Tgetattr, Cur::ok(wire_body(b) + tail)) == (b, Cur::ok(tail))
        }),
{
    let t1 = wire_getattr_mask(req_mask) + tail;
    lemma_cat2(le32(fid), wire_getattr_mask(req_mask), tail);
    lemma_take_u32(fid, t1);
    lemma_take_getattr_mask(req_mask, tail);
}

/// Reading the bytes of the body of `Rgetattr` gives it back.
proof fn lemma_take_rgetattr(valid: GetattrMask, qid: Qid, stat: Stat, tail: Seq<u8>)
    requires
        valid.wf(),
    ensures
        ({
            let b = FcallView::Rgetattr { valid, qid, stat };
            take_body(MsgType::Rgetattr, Cur::ok(wire_body(b) + tail)) == (b, Cur::ok(tail))
        }),
{
    let t3 = wire_reserved() + tail;
    let t2 = wire_stat(stat) + t3;
    let t1 = wire_qid(qid) + t2;
    lemma_cat4(wire_getattr_mask(valid), wire_qid(qid), wire_stat(stat), wire_reserved(), tail);
    lemma_take_getattr_mask(valid, t1);
    lemma_take_qid(qid, t2);
    lemma_take_stat(stat, t3);
    lemma_take_reserved(tail);
}

/// Reading the bytes of the body of `Tsetattr` gives it back.
proof fn lemma_take_tsetattr(fid: u32, valid: SetattrMask, stat: SetAttr, tail: Seq<u8>)
    requires
        valid.wf(),
    ensures
        ({
            let b = FcallView::Tsetattr { fid, valid, stat };
            take_body(MsgType::Tsetattr, Cur::ok(wire_body(b) + tail)) == (b, Cur::ok(tail))
        }),
{
    let t2 = wire_setattr(stat) + tail;
    let t1 = wire_setattr_mask(valid) + t2;
    lemma_cat3(le32(fid), wire_setattr_mask(valid), wire_setattr(stat), tail);
    lemma_take_u32(fid, t1);
    lemma_take_setattr_mask(valid, t2);
    lemma_take_setattr(stat, tail);
}

/// Reading the bytes of the body of `Txattrwalk` gives it back.
proof fn lemma_take_txattrwalk(fid: u32, newfid: u32, name: Seq<char>, tail: Seq<u8>)
    requires
        wf_str(name),
    ensures
        ({
            let b = FcallView::Txattrwalk { fid, newfid, name };
            take_body(MsgType::Txattrwalk, Cur::ok(wire_body(b) + tail)) == (b, Cur::ok(tail))
        }),
{
    let t2 = wire_str(name) + tail;
    let t1 = le32(newfid) + t2;
    lemma_cat3(le32(fid), le32(newfid), wire_str(name), tail);
    lemma_take_u32(fid, t1);
    lemma_take_u32(newfid, t2);
    lemma_take_str(name, tail);
}

/// Reading the bytes of the body of `Rxattrwalk` gives it back.
proof fn lemma_take_rxattrwalk(size: u64, tail: Seq<u8>)
    ensures
        ({
            let b = FcallView::Rxattrwalk { size };
            take_body(MsgType::Rxattrwalk, Cur::ok(wire_body(b) + tail)) == (b, Cur::ok(tail))
        }),
{
    lemma_take_u64(size, tail);
}

/// Reading the bytes of the body of `Txattrcreate` gives it back.
proof fn lemma_take_txattrcreate(
    fid: u32,
    name: Seq<char>,
    attr_size: u64,
    flags: u32,
    tail: Seq<u8>,
)
    requires
        wf_str(name),
    ensures
        ({
            let b = FcallView::Txattrcreate { fid, name, attr_size, flags };
            take_body(MsgType::Txattrcreate, Cur::ok(wire_body(b) + tail)) == (b, Cur::ok(tail))
        }),
{
    let t3 = le32(flags) + tail;
    let t2 = le64(attr_size) + t3;
    let t1 = wire_str(name) + t2;
    lemma_cat4(le32(fid), wire_str(name), le64(attr_size), le32(flags), tail);
    lemma_take_u32(fid, t1);
    lemma_take_str(name, t2);
    lemma_take_u64(attr_size, t3);
    lemma_take_u32(flags, tail);
}

/// Reading the bytes of the body of `Treaddir` gives it back.
proof fn lemma_take_treaddir(fid: u32, offset: u64, count: u32, tail: Seq<u8>)
    ensures
        ({
            let b = FcallView::Treaddir { fid, offset, count };
            take_body(MsgType::Treaddir, Cur::ok(wire_body(b) + tail)) == (b, Cur::ok(tail))
        }),
{
    let t2 = le32(count) + tail;
    let t1 = le64(offset) + t2;
    lemma_cat3(le32(fid), le64(offset), le32(count), tail);
    lemma_take_u32(fid, t1);
    lemma_take_u64(offset, t2);
    lemma_take_u32(count, tail);
}

/// Reading the bytes of the body of `Rreaddir` gives it back.
proof fn lemma_take_rreaddir(data: Seq<DirEntryView>, tail: Seq<u8>)
    requires
        wf_dirents(data),
    ensures
        ({
            let b = FcallView::Rreaddir { data };
            take_body(MsgType::Rreaddir, Cur::ok(wire_body(b) + tail)) == (b, Cur::ok(tail))
        }),
{
    lemma_take_dirents(data, tail);
}

/// Reading the bytes of the body of `Tfsync` gives it back.
proof fn lemma_take_tfsync(fid: u32, tail: Seq<u8>)
    ensures
        ({
            let b = FcallView::Tfsync { fid };
            take_body(MsgType::Tfsync, Cur::ok(wire_body(b) + tail)) == (b, Cur::ok(tail))
        }),
{
    lemma_take_u32(fid, tail);
}

/// Reading the bytes of the body of `Tlock` gives it back.
proof fn lemma_take_tlock(fid: u32, flock: FlockView, tail: Seq<u8>)
    requires
        wf_flock(flock),
    ensures
        ({
            let b = FcallView::Tlock { fid, flock };
            take_body(MsgType::Tlock, Cur::ok(wire_body(b) + tail)) == (b, Cur::ok(tail))
        }),
{
    let t1 = wire_flock(flock) + tail;
    lemma_cat2(le32(fid), wire_flock(flock), tail);
    lemma_take_u32(fid, t1);
    lemma_take_flock(flock, tail);
}

/// Reading the bytes of the body of `Rlock` gives it back.
proof fn lemma_take_rlock(status: LockStatus, tail: Seq<u8>)
    requires
        status.wf(),
    ensures
        ({
            let b = FcallView::Rlock { status };
            take_body(MsgType::Rlock, Cur::ok(wire_body(b) + tail)) == (b, Cur::ok(tail))
        }),
{
    lemma_take_lock_status(status, tail);
}

/// Reading the bytes of the body of `Tgetlock` gives it back.
proof fn lemma_take_tgetlock(fid: u32, flock: GetlockView, tail: Seq<u8>)
    requires
        wf_getlock(flock),
    ensures
        ({
            let b = FcallView::Tgetlock { fid, flock };
            take_body(MsgType::Tgetlock, Cur::ok(wire_body(b) + tail)) == (b, Cur::ok(tail))
        }),
{
    let t1 = wire_getlock(flock) + tail;
    lemma_cat2(le32(fid), wire_getlock(flock), tail);
    lemma_take_u32(fid, t1);
    lemma_take_getlock(flock, tail);
}

/// Reading the bytes of the body of `Rgetlock` gives it back.
proof fn lemma_take_rgetlock(flock: GetlockView, tail: Seq<u8>)
    requires
        wf_getlock(flock),
    ensures
        ({
            let b = FcallView::Rgetlock { flock };
            take_body(MsgType::Rgetlock, Cur::ok(wire_body(b) + tail)) == (b, Cur::ok(tail))
        }),
{
    lemma_take_getlock(flock, tail);
}

/// Reading the bytes of the body of `Tlink` gives it back.
proof fn lemma_take_tlink(dfid: u32, fid: u32, name: Seq<char>, tail: Seq<u8>)
    requires
        wf_str(name),
    ensures
        ({
            let b = FcallView::Tlink { dfid, fid, name };
            take_body(MsgType::Tlink, Cur::ok(wire_body(b) + tail)) == (b, Cur::ok(tail))
        }),
{
    let t2 = wire_str(name) + tail;
    let t1 = le32(fid) + t2;
    lemma_cat3(le32(dfid), le32(fid), wire_str(name), tail);
    lemma_take_u32(dfid, t1);
    lemma_take_u32(fid, t2);
    lemma_take_str(name, tail);
}

/// Reading the bytes of the body of `Tmkdir` gives it back.
proof fn lemma_take_tmkdir(dfid: u32, name: Seq<char>, mode: u32, gid: u32, tail: Seq<u8>)
    requires
        wf_str(name),
    ensures
        ({
            let b = FcallView::Tmkdir { dfid, name, mode, gid };
            take_body(MsgType::Tmkdir, Cur::ok(wire_body(b) + tail)) == (b, Cur::ok(tail))
        }),
{
    let t3 = le32(gid) + tail;
    let t2 = le32(mode) + t3;
    let t1 = wire_str(name) + t2;
    lemma_cat4(le32(dfid), wire_str(name), le32(mode), le32(gid), tail);
    lemma_take_u32(dfid, t1);
    lemma_take_str(name, t2);
    lemma_take_u32(mode, t3);
    lemma_take_u32(gid, tail);
}

/// Reading the bytes of the body of `Rmkdir` gives it back.
proof fn lemma_take_rmkdir(qid: Qid, tail: Seq<u8>)
    ensures
        ({
            let b = FcallView::Rmkdir { qid };
            take_body(MsgType::Rmkdir, Cur::ok(wire_body(b) + tail)) == (b, Cur::ok(tail))
        }),
{
    lemma_take_qid(qid, tail);
}

/// Reading the bytes of the body of `Trenameat` gives it back.
proof fn lemma_take_trenameat(
    olddirfid: u32,
    oldname: Seq<char>,
    newdirfid: u32,
    newname: Seq<char>,
    tail: Seq<u8>,
)
    requires
        wf_str(oldname),
        wf_str(newname),
    ensures
        ({
            let b = FcallView::Trenameat { olddirfid, oldname, newdirfid, newname };
            take_body(MsgType::Trenameat, Cur::ok(wire_body(b) + tail)) == (b, Cur::ok(tail))
        }),
{
    let t3 = wire_str(newname) + tail;
    let t2 = le32(newdirfid) + t3;
    let t1 = wire_str(oldname) + t2;
    lemma_cat4(le32(olddirfid), wire_str(oldname), le32(newdirfid), wire_str(newname), tail);
    lemma_take_u32(olddirfid, t1);
    lemma_take_str(oldname, t2);
    lemma_take_u32(newdirfid, t3);
    lemma_take_str(newname, tail);
}

/// Reading the bytes of the body of `Tunlinkat` gives it back.
proof fn lemma_take_tunlinkat(dirfd: u32, name: Seq<char>, flags: u32, tail: Seq<u8>)
    requires
        wf_str(name),
    ensures
        ({
            let b = FcallView::Tunlinkat { dirfd, name, flags };
            take_body(MsgType::Tunlinkat, Cur::ok(wire_body(b) + tail)) == (b, Cur::ok(tail))
        }),
{
    let t2 = le32(flags) + tail;
    let t1 = wire_str(name) + t2;
    lemma_cat3(le32(dirfd), wire_str(name), le32(flags), tail);
    lemma_take_u32(dirfd, t1);
    lemma_take_str(name, t2);
    lemma_take_u32(flags, tail);
}

/// Reading the bytes of the body of `Tauth` gives it back.
proof fn lemma_take_tauth(
    afid: u32,
    uname: Seq<char>,
    aname: Seq<char>,
    n_uname: u32,
    tail: Seq<u8>,
)
    requires
        wf_str(uname),
        wf_str(aname),
    ensures
        ({
            let b = FcallView::Tauth { afid, uname, aname, n_uname };
            take_body(MsgType::Tauth, Cur::ok(wire_body(b) + tail)) == (b, Cur::ok(tail))
        }),
{
    let t3 = le32(n_uname) + tail;
    let t2 = wire_str(aname) + t3;
    let t1 = wire_str(uname) + t2;
    lemma_cat4(le32(afid), wire_str(uname), wire_str(aname), le32(n_uname), tail);
    lemma_take_u32(afid, t1);
    lemma_take_str(uname, t2);
    lemma_take_str(aname, t3);
    lemma_take_u32(n_uname, tail);
}

/// Reading the bytes of the body of `Rauth` gives it back.
proof fn lemma_take_rauth(aqid: Qid, tail: Seq<u8>)
    ensures
        ({
            let b = FcallView::Rauth { aqid };
            take_body(MsgType::Rauth, Cur::ok(wire_body(b) + tail)) == (b, Cur::ok(tail))
        }),
{
    lemma_take_qid(aqid, tail);
}

/// Reading the bytes of the body of `Tattach` gives it back.
proof fn lemma_take_tattach(
    fid: u32,
    afid: u32,
    uname: Seq<char>,
    aname: Seq<char>,
    n_uname: u32,
    tail: Seq<u8>,
)
    requires
        wf_str(uname),
        wf_str(aname),
    ensures
        ({
            let b = FcallView::Tattach { fid, afid, uname, aname, n_uname };
            take_body(MsgType::Tattach, Cur::ok(wire_body(b) + tail)) == (b, Cur::ok(tail))
        }),
{
    let t4 = le32(n_uname) + tail;
    let t3 = wire_str(aname) + t4;
    let t2 = wire_str(uname) + t3;
    let t1 = le32(afid) + t2;
    lemma_cat5(le32(fid), le32(afid), wire_str(uname), wire_str(aname), le32(n_uname), tail);
    lemma_take_u32(fid, t1);
    lemma_take_u32(afid, t2);
    lemma_take_str(uname, t3);
    lemma_take_str(aname, t4);
    lemma_take_u32(n_uname, tail);
}

/// Reading the bytes of the body of `Rattach` gives it back.
proof fn lemma_take_rattach(qid: Qid, tail: Seq<u8>)
    ensures
        ({
            let b = FcallView::Rattach { qid };
            take_body(MsgType::Rattach, Cur::ok(wire_body(b) + tail)) == (b, Cur::ok(tail))
        }),
{
    lemma_take_qid(qid, tail);
}

/// Reading the bytes of the body of `Tversion` gives it back.
proof fn lemma_take_tversion(msize: u32, version: Seq<char>, tail: Seq<u8>)
    requires
        wf_str(version),
    ensures
        ({
            let b = FcallView::Tversion { msize, version };
            take_body(MsgType::Tversion, Cur::ok(wire_body(b) + tail)) == (b, Cur::ok(tail))
        }),
{
    let t1 = wire_str(version) + tail;
    lemma_cat2(le32(msize), wire_str(version), tail);
    lemma_take_u32(msize, t1);
    lemma_take_str(version, tail);
}

/// Reading the bytes of the body of `Rversion` gives it back.
proof fn lemma_take_rversion(msize: u32, version: Seq<char>, tail: Seq<u8>)
    requires
        wf_str(version),
    ensures
        ({
            let b = FcallView::Rversion { msize, version };
            take_body(MsgType::Rversion, Cur::ok(wire_body(b) + tail)) == (b, Cur::ok(tail))
        }),
{
    let t1 = wire_str(version) + tail;
    lemma_cat2(le32(msize), wire_str(version), tail);
    lemma_take_u32(msize, t1);
    lemma_take_str(version, tail);
}

/// Reading the bytes of the body of `Tflush` gives it back.
proof fn lemma_take_tflush(oldtag: u16, tail: Seq<u8>)
    ensures
        ({
            let b = FcallView::Tflush { oldtag };
            take_body(MsgType::Tflush, Cur::ok(wire_body(b) + tail)) == (b, Cur::ok(tail))
        }),
{
    lemma_take_u16(oldtag, tail);
}

/// Reading the bytes of the body of `Twalk` gives it back.
proof fn lemma_take_twalk(fid: u32, newfid: u32, wnames: Seq<Seq<char>>, tail: Seq<u8>)
    requires
        wf_strs(wnames),
    ensures
        ({
            let b = FcallView::Twalk { fid, newfid, wnames };
            take_body(MsgType::Twalk, Cur::ok(wire_body(b) + tail)) == (b, Cur::ok(tail))
        }),
{
    let t2 = wire_strs(wnames) + tail;
    let t1 = le32(newfid) + t2;
    lemma_cat3(le32(fid), le32(newfid), wire_strs(wnames), tail);
    lemma_take_u32(fid, t1);
    lemma_take_u32(newfid, t2);
    lemma_take_strs(wnames, tail);
}

/// Reading the bytes of the body of `Rwalk` gives it back.
proof fn lemma_take_rwalk(wqids: Seq<Qid>, tail: Seq<u8>)
    requires
        wf_qids(wqids),
    ensures
        ({
            let b = FcallView::Rwalk { wqids };
            take_body(MsgType::Rwalk, Cur::ok(wire_body(b) + tail)) == (b, Cur::ok(tail))
        }),
{
    lemma_take_qids(wqids, tail);
}

/// Reading the bytes of the body of `Tread` gives it back.
proof fn lemma_take_tread(fid: u32, offset: u64, count: u32, tail: Seq<u8>)
    ensures
        ({
            let b = FcallView::Tread { fid, offset, count };
            take_body(MsgType::Tread, Cur::ok(wire_body(b) + tail)) == (b, Cur::ok(tail))
        }),
{
    let t2 = le32(count) + tail;
    let t1 = le64(offset) + t2;
    lemma_cat3(le32(fid), le64(offset), le32(count), tail);
    lemma_take_u32(fid, t1);
    lemma_take_u64(offset, t2);
    lemma_take_u32(count, tail);
}

/// Reading the bytes of the body of `Rread` gives it back.
proof fn lemma_take_rread(data: Seq<u8>, tail: Seq<u8>)
    requires
        wf_data(data),
    ensures
        ({
            let b = FcallView::Rread { data };
            take_body(MsgType::Rread, Cur::ok(wire_body(b) + tail)) == (b, Cur::ok(tail))
        }),
{
    lemma_take_data(data, tail);
}

/// Reading the bytes of the body of `Twrite` gives it back.
proof fn lemma_take_twrite(fid: u32, offset: u64, data: Seq<u8>, tail: Seq<u8>)
    requires
        wf_data(data),
    ensures
        ({
            let b = FcallView::Twrite { fid, offset, data };
            take_body(MsgType::Twrite, Cur::ok(wire_body(b) + tail)) == (b, Cur::ok(tail))
        }),
{
    let t2 = wire_data(data) + tail;
    let t1 = le64(offset) + t2;
    lemma_cat3(le32(fid), le64(offset), wire_data(data), tail);
    lemma_take_u32(fid, t1);
    lemma_take_u64(offset, t2);
    lemma_take_data(data, tail);
}

/// Reading the bytes of the body of `Rwrite` gives it back.
proof fn lemma_take_rwrite(count: u32, tail: Seq<u8>)
    ensures
        ({
            let b = FcallView::Rwrite { count };
            take_body(MsgType::Rwrite, Cur::ok(wire_body(b) + tail)) == (b, Cur::ok(tail))
        }),
{
    lemma_take_u32(count, tail);
}

/// Reading the bytes of the body of `Tclunk` gives it back.
proof fn lemma_take_tclunk(fid: u32, tail: Seq<u8>)
    ensures
        ({
            let b = FcallView::Tclunk { fid };
            take_body(MsgType::Tclunk, Cur::ok(wire_body(b) + tail)) == (b, Cur::ok(tail))
        }),
{
    lemma_take_u32(fid, tail);
}

/// Reading the bytes of the body of `Tremove` gives it back.
proof fn lemma_take_tremove(fid: u32, tail: Seq<u8>)
    ensures
        ({
            let b = FcallView::Tremove { fid };
            take_body(MsgType::Tremove, Cur::ok(wire_body(b) + tail)) == (b, Cur::ok(tail))
        }),
{
    lemma_take_u32(fid, tail);
}

/// Reading the bytes of a body gives the body back.
pub proof fn lemma_take_body(b: FcallView, tail: Seq<u8>)
    requires
        wf_body(b),
    ensures
        take_body(b.msg_type(), Cur::ok(wire_body(b) + tail)) == (b, Cur::ok(tail)),
{
    match b {
        FcallView::Rlerror { ecode } => lemma_take_rlerror(ecode, tail),
        FcallView::Tstatfs { fid } => lemma_take_tstatfs(fid, tail),
        FcallView::Rstatfs { statfs } => lemma_take_rstatfs(statfs, tail),
        FcallView::Tlopen { fid, flags } => lemma_take_tlopen(fid, flags, tail),
        FcallView::Rlopen { qid, iounit } => lemma_take_rlopen(qid, iounit, tail),
        FcallView::Tlcreate { fid, name, flags, mode, gid } => {
            lemma_take_tlcreate(fid, name, flags, mode, gid, tail)
        },
        FcallView::Rlcreate { qid, iounit } => lemma_take_rlcreate(qid, iounit, tail),
        FcallView::Tsymlink { fid, name, symtgt, gid } => {
            lemma_take_tsymlink(fid, name, symtgt, gid, tail)
        },
        FcallView::Rsymlink { qid } => lemma_take_rsymlink(qid, tail),
        FcallView::Tmknod { dfid, name, mode, major, minor, gid } => {
            lemma_take_tmknod(dfid, name, mode, major, minor, gid, tail)
        },
        FcallView::Rmknod { qid } => lemma_take_rmknod(qid, tail),
        FcallView::Trename { fid, dfid, name } => lemma_take_trename(fid, dfid, name, tail),
        FcallView::Treadlink { fid } => lemma_take_treadlink(fid, tail),
        FcallView::Rreadlink { target } => lemma_take_rreadlink(target, tail),
        FcallView::Tgetattr { fid, req_mask } => lemma_take_tgetattr(fid, req_mask, tail),
        FcallView::Rgetattr { valid, qid, stat } => lemma_take_rgetattr(valid, qid, stat, tail),
        FcallView::Tsetattr { fid, valid, stat } => lemma_take_tsetattr(fid, valid, stat, tail),
        FcallView::Txattrwalk { fid, newfid, name } => {
            lemma_take_txattrwalk(fid, newfid, name, tail)
        },
        FcallView::Rxattrwalk { size } => lemma_take_rxattrwalk(size, tail),
        FcallView::Txattrcreate { fid, name, attr_size, flags } => {
            lemma_take_txattrcreate(fid, name, attr_size, flags, tail)
        },
        FcallView::Treaddir { fid, offset, count } => {
            lemma_take_treaddir(fid, offset, count, tail)
        },
        FcallView::Rreaddir { data } => lemma_take_rreaddir(data, tail),
        FcallView::Tfsync { fid } => lemma_take_tfsync(fid, tail),
        FcallView::Tlock { fid, flock } => lemma_take_tlock(fid, flock, tail),
        FcallView::Rlock { status } => lemma_take_rlock(status, tail),
        FcallView::Tgetlock { fid, flock } => lemma_take_tgetlock(fid, flock, tail),
        FcallView::Rgetlock { flock } => lemma_take_rgetlock(flock, tail),
        FcallView::Tlink { dfid, fid, name } => lemma_take_tlink(dfid, fid, name, tail),
        FcallView::Tmkdir { dfid, name, mode, gid } => {
            lemma_take_tmkdir(dfid, name, mode, gid, tail)
        },
        FcallView::Rmkdir { qid } => lemma_take_rmkdir(qid, tail),
        FcallView::Trenameat { olddirfid, oldname, newdirfid, newname } => {
            lemma_take_trenameat(olddirfid, oldname, newdirfid, newname, tail)
        },
        FcallView::Tunlinkat { dirfd, name, flags } => {
            lemma_take_tunlinkat(dirfd, name, flags, tail)
        },
        FcallView::Tauth { afid, uname, aname, n_uname } => {
            lemma_take_tauth(afid, uname, aname, n_uname, tail)
        },
        FcallView::Rauth { aqid } => lemma_take_rauth(aqid, tail),
        FcallView::Tattach { fid, afid, uname, aname, n_uname } => {
            lemma_take_tattach(fid, afid, uname, aname, n_uname, tail)
        },
        FcallView::Rattach { qid } => lemma_take_rattach(qid, tail),
        FcallView::Tversion { msize, version } => lemma_take_tversion(msize, version, tail),
        FcallView::Rversion { msize, version } => lemma_take_rversion(msize, version, tail),
        FcallView::Tflush { oldtag } => lemma_take_tflush(oldtag, tail),
        FcallView::Twalk { fid, newfid, wnames } => lemma_take_twalk(fid, newfid, wnames, tail),
        FcallView::Rwalk { wqids } => lemma_take_rwalk(wqids, tail),
        FcallView::Tread { fid, offset, count } => lemma_take_tread(fid, offset, count, tail),
        FcallView::Rread { data } => lemma_take_rread(data, tail),
        FcallView::Twrite { fid, offset, data } => lemma_take_twrite(fid, offset, data, tail),
        FcallView::Rwrite { count } => lemma_take_rwrite(count, tail),
        FcallView::Tclunk { fid } => lemma_take_tclunk(fid, tail),
        FcallView::Tremove { fid } => lemma_take_tremove(fid, tail),
        _ => {
            assert(wire_body(b) + tail =~= tail);
        },
    }
}

// Messages

/// Whether a message fits the fields that carry it.
pub open spec fn wf_msg(m: MsgView) -> bool {
    wf_body(m.body)
}

/// The type code, the tag, the body.
pub open spec fn wire_msg(m: MsgView) -> Seq<u8> {
    wire_u8(m.body.msg_type().code()) + le16(m.tag) + wire_body(m.body)
}

/// A message that carries `Rgetattr` takes 188 bytes whatever it holds: the
/// type code, the tag, the mask, the qid, the attributes, and the eight
/// words of eight bytes that are kept for later use.
pub proof fn lemma_rgetattr_length(tag: u16, valid: GetattrMask, qid: Qid, stat: Stat)
    ensures
        wire_msg(MsgView { tag, body: FcallView::Rgetattr { valid, qid, stat } }).len() == 188,
        wire_reserved().len() == 64,
{
    reveal(wire_qid);
    reveal(wire_stat);
    reveal(wire_time);
}

/// Reads a message off the front of an input.
pub open spec fn take_msg(c: Cur) -> (MsgView, Cur) {
    let (code, c1) = take_u8(c);
    let (tag, c2) = take_u16(c1);
    if !c2.good() {
        (arbitrary(), c2)
    } else {
        match MsgType::of_code(code) {
            None => (arbitrary(), c2.fail(DecodeError::InvalidType)),
            Some(t) => {
                let (body, c3) = take_body(t, c2);
                (MsgView { tag, body }, c3)
            },
        }
    }
}

/// Reading the bytes of a message gives the message back, and leaves what
/// followed them.
pub proof fn lemma_take_msg(m: MsgView, tail: Seq<u8>)
    requires
        wf_msg(m),
    ensures
        take_msg(Cur::ok(wire_msg(m) + tail)) == (m, Cur::ok(tail)),
{
    let t = m.body.msg_type();
    let t2 = wire_body(m.body) + tail;
    let t1 = le16(m.tag) + t2;
    assert(wire_msg(m) + tail =~= wire_u8(t.code()) + t1);
    lemma_take_u8(t.code(), t1);
    lemma_take_u16(m.tag, t2);
    lemma_code_names_type(t);
    lemma_take_body(m.body, tail);
}

// Frames

/// A message that fits the four bytes that hold a frame's size.
pub open spec fn wf_frame(m: MsgView) -> bool {
    &&& wf_msg(m)
    &&& wire_msg(m).len() <= 0xffff_ffff
}

/// The number of bytes of the message, in four bytes, then the message.
pub open spec fn wire_frame(m: MsgView) -> Seq<u8> {
    le32((wire_msg(m).len() % 0x1_0000_0000) as u32) + wire_msg(m)
}

/// Reads the size, then a message that fills exactly that many bytes.
pub open spec fn take_frame(c: Cur) -> (MsgView, Cur) {
    let (n, c1) = take_u32(c);
    if !c1.good() {
        (arbitrary(), c1)
    } else if c1.bytes.len() < n {
        (arbitrary(), c1.fail(DecodeError::UnexpectedEof))
    } else {
        let (m, inner) = take_msg(Cur::ok(c1.bytes.take(n as int)));
        if !inner.good() {
            (arbitrary(), Cur { bytes: c1.bytes, err: inner.err })
        } else if inner.bytes.len() != 0 {
            (arbitrary(), c1.fail(DecodeError::FrameMismatch))
        } else {
            (m, c1.skip(n as int))
        }
    }
}

/// Reading a frame gives its message back, and leaves what followed the
/// frame.
pub proof fn lemma_take_frame(m: MsgView, tail: Seq<u8>)
    requires
        wf_frame(m),
    ensures
        take_frame(Cur::ok(wire_frame(m) + tail)) == (m, Cur::ok(tail)),
{
    let body = wire_msg(m);
    let n = (body.len() % 0x1_0000_0000) as u32;
    assert((le32(n) + body) + tail =~= le32(n) + (body + tail));
    lemma_take_u32(n, body + tail);
    assert((body + tail).take(n as int) =~= body);
    assert((body + tail).skip(n as int) =~= tail);
    assert(body + Seq::<u8>::empty() =~= body);
    lemma_take_msg(m, Seq::empty());
}

/// The first four bytes of a frame are the little-endian size of what
/// follows them.
pub proof fn lemma_frame_starts_with_size(m: MsgView)
    requires
        wf_frame(m),
    ensures
        wire_frame(m).len() >= 4,
        from_le32(wire_frame(m).take(4)) == wire_frame(m).len() - 4,
        wire_frame(m).skip(4) == wire_msg(m),
{
    let n = (wire_msg(m).len() % 0x1_0000_0000) as u32;
    lemma_le32(n);
    assert(wire_frame(m).take(4) =~= le32(n));
    assert(wire_frame(m).skip(4) =~= wire_msg(m));
}

/// An input that is read as one frame, with nothing left, starts with the
/// size of its remainder: where the two disagree the input is rejected.
pub proof fn lemma_frame_size_is_checked(input: Seq<u8>)
    requires
        take_frame(Cur::ok(input)).1 == Cur::ok(Seq::<u8>::empty()),
    ensures
        input.len() >= 4,
        from_le32(input.take(4)) == input.len() - 4,
{
    reveal(take_u32);
    let (n, c1) = take_u32(Cur::ok(input));
    assert(c1.good());
    assert(c1.bytes.len() >= n);
    assert(c1.skip(n as int).bytes.len() == 0);
}

} // verus!
