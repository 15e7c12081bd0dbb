//! 9P protocol data types and constants.
//!
//! # Protocol
//! 9P2000.L

use vstd::prelude::*;

verus! {

/// 9P2000 version string
pub const P92000: &'static str = "9P2000";

/// 9P2000.L version string
pub const P92000L: &'static str = "9P2000.L";

/// The version string that comes with Rversion when the server does not understand
/// the client's version string
pub const VERSION_UNKNOWN: &'static str = "unknown";

/// Special tag which `Tversion`/`Rversion` must use as `tag`
pub const NOTAG: u16 = 0xffff;

/// Special value which `Tattach` with no auth must use as `afid`
///
/// If the client does not wish to authenticate the connection, or knows that authentication is
/// not required, the afid field in the attach message should be set to `NOFID`
pub const NOFID: u32 = 0xffff_ffff;

/// Special uid which `Tauth`/`Tattach` use as `n_uname` to indicate no uid is specified
pub const NONUNAME: u32 = 0xffff_ffff;

/// Ample room for `Twrite`/`Rread` header
///
/// size[4] Tread/Twrite[2] tag[2] fid[4] offset[8] count[4]
pub const IOHDRSZ: u32 = 24;

/// Room for readdir header
pub const READDIRHDRSZ: u32 = 24;

/// v9fs default port
pub const V9FS_PORT: u16 = 564;

/// The bytes a `Qid` takes on the wire.
pub const QID_SIZE: u32 = 13;

/// The bytes a `DirEntry` takes on the wire besides those of its name.
pub const DIRENT_FIXED_SIZE: u32 = 24;

/// File lock type, `Flock.typ`
#[derive(Clone, Copy, Debug, PartialEq, Eq, Hash, Structural)]
pub struct LockType {
    pub bits: u8,
}

impl LockType {
    /// Lock for reading
    pub const RDLOCK: u8 = 0;

    /// Lock for writing
    pub const WRLOCK: u8 = 1;

    /// Release the lock
    pub const UNLOCK: u8 = 2;

    /// Every bit that has a meaning.
    pub const ALL_BITS: u8 = 3;

    /// No bit is set that has no meaning.
    pub open spec fn wf(self) -> bool {
        self.bits & !LockType::ALL_BITS == 0
    }

    /// The value with the bits of `bits` that have a meaning.
    pub open spec fn truncated(bits: u8) -> LockType {
        LockType { bits: bits & LockType::ALL_BITS }
    }

    /// The value with no bit set.
    pub fn empty() -> (r: LockType)
        ensures
            r.bits == 0,
    {
        LockType { bits: 0 }
    }

    /// The bits.
    pub fn bits(&self) -> (r: u8)
        ensures
            r == self.bits,
    {
        self.bits
    }

    /// Takes the bits that have a meaning and drops the others.
    pub fn from_bits_truncate(bits: u8) -> (r: LockType)
        ensures
            r == LockType::truncated(bits),
            r.wf(),
    {
        assert((bits & 3) & !3 == 0) by (bit_vector);
        LockType { bits: bits & LockType::ALL_BITS }
    }

    /// Whether every bit of `mask` is set.
    pub fn contains(&self, mask: u8) -> (r: bool)
        ensures
            r == (self.bits & mask == mask),
    {
        self.bits & mask == mask
    }

    /// Whether some bit of `mask` is set.
    pub fn intersects(&self, mask: u8) -> (r: bool)
        ensures
            r == (self.bits & mask != 0),
    {
        self.bits & mask != 0
    }

    /// Sets the bits of `mask` that have a meaning.
    pub fn insert(&mut self, mask: u8)
        ensures
            final(self).bits == old(self).bits | (mask & LockType::ALL_BITS),
    {
        self.bits = self.bits | (mask & LockType::ALL_BITS);
    }
}

/// File lock flags, `Flock.flags`
#[derive(Clone, Copy, Debug, PartialEq, Eq, Hash, Structural)]
pub struct LockFlag {
    pub bits: u32,
}

impl LockFlag {
    /// Blocking request
    pub const BLOCK: u32 = 1;

    /// Reserved for future use
    pub const RECLAIM: u32 = 2;

    /// Every bit that has a meaning.
    pub const ALL_BITS: u32 = 3;

    /// No bit is set that has no meaning.
    pub open spec fn wf(self) -> bool {
        self.bits & !LockFlag::ALL_BITS == 0
    }

    /// The value with the bits of `bits` that have a meaning.
    pub open spec fn truncated(bits: u32) -> LockFlag {
        LockFlag { bits: bits & LockFlag::ALL_BITS }
    }

    /// The value with no bit set.
    pub fn empty() -> (r: LockFlag)
        ensures
            r.bits == 0,
    {
        LockFlag { bits: 0 }
    }

    /// The bits.
    pub fn bits(&self) -> (r: u32)
        ensures
            r == self.bits,
    {
        self.bits
    }

    /// Takes the bits that have a meaning and drops the others.
    pub fn from_bits_truncate(bits: u32) -> (r: LockFlag)
        ensures
            r == LockFlag::truncated(bits),
            r.wf(),
    {
        assert((bits & 3) & !3 == 0) by (bit_vector);
        LockFlag { bits: bits & LockFlag::ALL_BITS }
    }

    /// Whether every bit of `mask` is set.
    pub fn contains(&self, mask: u32) -> (r: bool)
        ensures
            r == (self.bits & mask == mask),
    {
        self.bits & mask == mask
    }

    /// Whether some bit of `mask` is set.
    pub fn intersects(&self, mask: u32) -> (r: bool)
        ensures
            r == (self.bits & mask != 0),
    {
        self.bits & mask != 0
    }

    /// Sets the bits of `mask` that have a meaning.
    pub fn insert(&mut self, mask: u32)
        ensures
            final(self).bits == old(self).bits | (mask & LockFlag::ALL_BITS),
    {
        self.bits = self.bits | (mask & LockFlag::ALL_BITS);
    }
}

/// File lock status
#[derive(Clone, Copy, Debug, PartialEq, Eq, Hash, Structural)]
pub struct LockStatus {
    pub bits: u8,
}

impl LockStatus {
    /// The lock was granted
    pub const SUCCESS: u8 = 0;

    /// The lock is held by another
    pub const BLOCKED: u8 = 1;

    /// The request failed
    pub const ERROR: u8 = 2;

    /// The server is in its grace period
    pub const GRACE: u8 = 3;

    /// Every bit that has a meaning.
    pub const ALL_BITS: u8 = 3;

    /// No bit is set that has no meaning.
    pub open spec fn wf(self) -> bool {
        self.bits & !LockStatus::ALL_BITS == 0
    }

    /// The value with the bits of `bits` that have a meaning.
    pub open spec fn truncated(bits: u8) -> LockStatus {
        LockStatus { bits: bits & LockStatus::ALL_BITS }
    }

    /// The value with no bit set.
    pub fn empty() -> (r: LockStatus)
        ensures
            r.bits == 0,
    {
        LockStatus { bits: 0 }
    }

    /// The bits.
    pub fn bits(&self) -> (r: u8)
        ensures
            r == self.bits,
    {
        self.bits
    }

    /// Takes the bits that have a meaning and drops the others.
    pub fn from_bits_truncate(bits: u8) -> (r: LockStatus)
        ensures
            r == LockStatus::truncated(bits),
            r.wf(),
    {
        assert((bits & 3) & !3 == 0) by (bit_vector);
        LockStatus { bits: bits & LockStatus::ALL_BITS }
    }

    /// Whether every bit of `mask` is set.
    pub fn contains(&self, mask: u8) -> (r: bool)
        ensures
            r == (self.bits & mask == mask),
    {
        self.bits & mask == mask
    }

    /// Whether some bit of `mask` is set.
    pub fn intersects(&self, mask: u8) -> (r: bool)
        ensures
            r == (self.bits & mask != 0),
    {
        self.bits & mask != 0
    }

    /// Sets the bits of `mask` that have a meaning.
    pub fn insert(&mut self, mask: u8)
        ensures
            final(self).bits == old(self).bits | (mask & LockStatus::ALL_BITS),
    {
        self.bits = self.bits | (mask & LockStatus::ALL_BITS);
    }
}

/// Bits in `Qid.typ`
#[derive(Clone, Copy, Debug, PartialEq, Eq, Hash, Structural)]
pub struct QidType {
    pub bits: u8,
}

impl QidType {
    /// Type bit for directories
    pub const DIR: u8 = 0x80;

    /// Type bit for append only files
    pub const APPEND: u8 = 0x40;

    /// Type bit for exclusive use files
    pub const EXCL: u8 = 0x20;

    /// Type bit for mounted channel
    pub const MOUNT: u8 = 0x10;

    /// Type bit for authentication file
    pub const AUTH: u8 = 0x08;

    /// Type bit for not-backed-up file
    pub const TMP: u8 = 0x04;

    /// Type bit for symbolic links
    pub const SYMLINK: u8 = 0x02;

    /// Type bit for hard links
    pub const LINK: u8 = 0x01;

    /// Plain file
    pub const FILE: u8 = 0x00;

    /// Every bit that has a meaning.
    pub const ALL_BITS: u8 = 0xff;

    /// No bit is set that has no meaning.
    pub open spec fn wf(self) -> bool {
        self.bits & !QidType::ALL_BITS == 0
    }

    /// The value with the bits of `bits` that have a meaning.
    pub open spec fn truncated(bits: u8) -> QidType {
        QidType { bits: bits & QidType::ALL_BITS }
    }

    /// The value with no bit set.
    pub fn empty() -> (r: QidType)
        ensures
            r.bits == 0,
    {
        QidType { bits: 0 }
    }

    /// The bits.
    pub fn bits(&self) -> (r: u8)
        ensures
            r == self.bits,
    {
        self.bits
    }

    /// Takes the bits that have a meaning and drops the others.
    pub fn from_bits_truncate(bits: u8) -> (r: QidType)
        ensures
            r == QidType::truncated(bits),
            r.wf(),
    {
        assert((bits & 0xff) & !0xff == 0) by (bit_vector);
        QidType { bits: bits & QidType::ALL_BITS }
    }

    /// Whether every bit of `mask` is set.
    pub fn contains(&self, mask: u8) -> (r: bool)
        ensures
            r == (self.bits & mask == mask),
    {
        self.bits & mask == mask
    }

    /// Whether some bit of `mask` is set.
    pub fn intersects(&self, mask: u8) -> (r: bool)
        ensures
            r == (self.bits & mask != 0),
    {
        self.bits & mask != 0
    }

    /// Sets the bits of `mask` that have a meaning.
    pub fn insert(&mut self, mask: u8)
        ensures
            final(self).bits == old(self).bits | (mask & QidType::ALL_BITS),
    {
        self.bits = self.bits | (mask & QidType::ALL_BITS);
    }
}

/// Bits in `mask` and `valid` of `Tgetattr` and `Rgetattr`.
#[derive(Clone, Copy, Debug, PartialEq, Eq, Hash, Structural)]
pub struct GetattrMask {
    pub bits: u64,
}

impl GetattrMask {
    /// The mode
    pub const MODE: u64 = 0x00000001;

    /// The number of links
    pub const NLINK: u64 = 0x00000002;

    /// The owner
    pub const UID: u64 = 0x00000004;

    /// The group
    pub const GID: u64 = 0x00000008;

    /// The device
    pub const RDEV: u64 = 0x00000010;

    /// The time of last access
    pub const ATIME: u64 = 0x00000020;

    /// The time of last modification
    pub const MTIME: u64 = 0x00000040;

    /// The time of last status change
    pub const CTIME: u64 = 0x00000080;

    /// The inode number
    pub const INO: u64 = 0x00000100;

    /// The size
    pub const SIZE: u64 = 0x00000200;

    /// The number of blocks
    pub const BLOCKS: u64 = 0x00000400;

    /// The time of creation
    pub const BTIME: u64 = 0x00000800;

    /// The generation
    pub const GEN: u64 = 0x00001000;

    /// The version of the data
    pub const DATA_VERSION: u64 = 0x00002000;

    /// Mask for fields up to BLOCKS
    pub const BASIC: u64 = 0x000007ff;

    /// Mask for all fields above
    pub const ALL: u64 = 0x00003fff;

    /// Every bit that has a meaning.
    pub const ALL_BITS: u64 = 0x3fff;

    /// No bit is set that has no meaning.
    pub open spec fn wf(self) -> bool {
        self.bits & !GetattrMask::ALL_BITS == 0
    }

    /// The value with the bits of `bits` that have a meaning.
    pub open spec fn truncated(bits: u64) -> GetattrMask {
        GetattrMask { bits: bits & GetattrMask::ALL_BITS }
    }

    /// The value with no bit set.
    pub fn empty() -> (r: GetattrMask)
        ensures
            r.bits == 0,
    {
        GetattrMask { bits: 0 }
    }

    /// The bits.
    pub fn bits(&self) -> (r: u64)
        ensures
            r == self.bits,
    {
        self.bits
    }

    /// Takes the bits that have a meaning and drops the others.
    pub fn from_bits_truncate(bits: u64) -> (r: GetattrMask)
        ensures
            r == GetattrMask::truncated(bits),
            r.wf(),
    {
        assert((bits & 0x3fff) & !0x3fff == 0) by (bit_vector);
        GetattrMask { bits: bits & GetattrMask::ALL_BITS }
    }

    /// Whether every bit of `mask` is set.
    pub fn contains(&self, mask: u64) -> (r: bool)
        ensures
            r == (self.bits & mask == mask),
    {
        self.bits & mask == mask
    }

    /// Whether some bit of `mask` is set.
    pub fn intersects(&self, mask: u64) -> (r: bool)
        ensures
            r == (self.bits & mask != 0),
    {
        self.bits & mask != 0
    }

    /// Sets the bits of `mask` that have a meaning.
    pub fn insert(&mut self, mask: u64)
        ensures
            final(self).bits == old(self).bits | (mask & GetattrMask::ALL_BITS),
    {
        self.bits = self.bits | (mask & GetattrMask::ALL_BITS);
    }
}

/// Bits in `mask` of `Tsetattr`.
#[derive(Clone, Copy, Debug, PartialEq, Eq, Hash, Structural)]
pub struct SetattrMask {
    pub bits: u32,
}

impl SetattrMask {
    /// The mode
    pub const MODE: u32 = 0x00000001;

    /// The owner
    pub const UID: u32 = 0x00000002;

    /// The group
    pub const GID: u32 = 0x00000004;

    /// The size
    pub const SIZE: u32 = 0x00000008;

    /// The time of last access
    pub const ATIME: u32 = 0x00000010;

    /// The time of last modification
    pub const MTIME: u32 = 0x00000020;

    /// The time of last status change
    pub const CTIME: u32 = 0x00000040;

    /// The time of last access is the one given
    pub const ATIME_SET: u32 = 0x00000080;

    /// The time of last modification is the one given
    pub const MTIME_SET: u32 = 0x00000100;

    /// Every bit that has a meaning.
    pub const ALL_BITS: u32 = 0x1ff;

    /// No bit is set that has no meaning.
    pub open spec fn wf(self) -> bool {
        self.bits & !SetattrMask::ALL_BITS == 0
    }

    /// The value with the bits of `bits` that have a meaning.
    pub open spec fn truncated(bits: u32) -> SetattrMask {
        SetattrMask { bits: bits & SetattrMask::ALL_BITS }
    }

    /// The value with no bit set.
    pub fn empty() -> (r: SetattrMask)
        ensures
            r.bits == 0,
    {
        SetattrMask { bits: 0 }
    }

    /// The bits.
    pub fn bits(&self) -> (r: u32)
        ensures
            r == self.bits,
    {
        self.bits
    }

    /// Takes the bits that have a meaning and drops the others.
    pub fn from_bits_truncate(bits: u32) -> (r: SetattrMask)
        ensures
            r == SetattrMask::truncated(bits),
            r.wf(),
    {
        assert((bits & 0x1ff) & !0x1ff == 0) by (bit_vector);
        SetattrMask { bits: bits & SetattrMask::ALL_BITS }
    }

    /// Whether every bit of `mask` is set.
    pub fn contains(&self, mask: u32) -> (r: bool)
        ensures
            r == (self.bits & mask == mask),
    {
        self.bits & mask == mask
    }

    /// Whether some bit of `mask` is set.
    pub fn intersects(&self, mask: u32) -> (r: bool)
        ensures
            r == (self.bits & mask != 0),
    {
        self.bits & mask != 0
    }

    /// Sets the bits of `mask` that have a meaning.
    pub fn insert(&mut self, mask: u32)
        ensures
            final(self).bits == old(self).bits | (mask & SetattrMask::ALL_BITS),
    {
        self.bits = self.bits | (mask & SetattrMask::ALL_BITS);
    }
}


/// Server side data type for path tracking
///
/// The server's unique identification for the file being accessed
#[derive(Clone, Copy, Debug, PartialEq, Eq, Hash, Structural)]
pub struct Qid {
    /// Specify whether the file is a directory, append-only file, etc.
    pub typ: QidType,
    /// Version number for a file; typically, it is incremented every time the file is modified
    pub version: u32,
    /// An integer which is unique among all files in the hierarchy
    pub path: u64,
}

impl DeepView for Qid {
    type V = Qid;

    open spec fn deep_view(&self) -> Qid {
        *self
    }
}

impl Qid {
    /// The bytes the qid takes on the wire.
    pub fn size(&self) -> (n: u32)
        ensures
            n == QID_SIZE,
    {
        QID_SIZE
    }
}

/// Filesystem information corresponding to `struct statfs` of Linux.
#[derive(Clone, Copy, Debug, PartialEq, Eq, Hash, Structural)]
pub struct Statfs {
    /// Type of file system
    pub typ: u32,
    /// Optimal transfer block size
    pub bsize: u32,
    /// Total data blocks in file system
    pub blocks: u64,
    /// Free blocks in fs
    pub bfree: u64,
    /// Free blocks avail to non-superuser
    pub bavail: u64,
    /// Total file nodes in file system
    pub files: u64,
    /// Free file nodes in fs
    pub ffree: u64,
    /// Filesystem ID
    pub fsid: u64,
    /// Maximum length of filenames
    pub namelen: u32,
}

impl DeepView for Statfs {
    type V = Statfs;

    open spec fn deep_view(&self) -> Statfs {
        *self
    }
}

/// Time struct
#[derive(Clone, Copy, Debug, PartialEq, Eq, Hash, Structural)]
pub struct Time {
    pub sec: u64,
    pub nsec: u64,
}

impl DeepView for Time {
    type V = Time;

    open spec fn deep_view(&self) -> Time {
        *self
    }
}

/// File attributes corresponding to `struct stat` of Linux.
#[derive(Clone, Copy, Debug, PartialEq, Eq, Hash, Structural)]
pub struct Stat {
    /// Protection
    pub mode: u32,
    /// User ID of owner
    pub uid: u32,
    /// Group ID of owner
    pub gid: u32,
    /// Number of hard links
    pub nlink: u64,
    /// Device ID (if special file)
    pub rdev: u64,
    /// Total size, in bytes
    pub size: u64,
    /// Blocksize for file system I/O
    pub blksize: u64,
    /// Number of 512B blocks allocated
    pub blocks: u64,
    /// Time of last access
    pub atime: Time,
    /// Time of last modification
    pub mtime: Time,
    /// Time of last status change
    pub ctime: Time,
}

impl DeepView for Stat {
    type V = Stat;

    open spec fn deep_view(&self) -> Stat {
        *self
    }
}

/// Subset of `Stat` used for `Tsetattr`
#[derive(Clone, Copy, Debug, PartialEq, Eq, Hash, Structural)]
pub struct SetAttr {
    pub mode: u32,
    pub uid: u32,
    pub gid: u32,
    pub size: u64,
    pub atime: Time,
    pub mtime: Time,
}

impl DeepView for SetAttr {
    type V = SetAttr;

    open spec fn deep_view(&self) -> SetAttr {
        *self
    }
}

/// Directory entry used in `Rreaddir`
#[derive(Clone, Debug, PartialEq, Eq, Hash)]
pub struct DirEntry {
    /// Qid for this directory
    pub qid: Qid,
    /// The index of this entry
    pub offset: u64,
    /// Corresponds to `d_type` of `struct dirent`
    ///
    /// Use `0` if you can't set this properly. It might be enough.
    pub typ: u8,
    /// Directory name
    pub name: String,
}

/// The mathematical value of a directory entry.
pub struct DirEntryView {
    pub qid: Qid,
    pub offset: u64,
    pub typ: u8,
    pub name: Seq<char>,
}

impl View for DirEntry {
    type V = DirEntryView;

    open spec fn view(&self) -> DirEntryView {
        DirEntryView { qid: self.qid, offset: self.offset, typ: self.typ, name: self.name@ }
    }
}

impl DeepView for DirEntry {
    type V = DirEntryView;

    open spec fn deep_view(&self) -> DirEntryView {
        self.view()
    }
}

impl DirEntryView {
    /// The bytes the entry takes on the wire, as long as its name fits the
    /// two bytes that hold the name's length.
    pub open spec fn size(self) -> nat {
        DIRENT_FIXED_SIZE as nat + vstd::utf8::encode_utf8(self.name).len()
    }
}

/// The bytes that a sequence of entries takes on the wire.
pub open spec fn dirents_size(entries: Seq<DirEntryView>) -> nat
    decreases entries.len(),
{
    if entries.len() == 0 {
        0
    } else {
        dirents_size(entries.drop_last()) + entries.last().size()
    }
}

impl DirEntry {
    /// The bytes the entry takes on the wire, modulo 2^32.
    pub fn size(&self) -> (n: u32)
        ensures
            n == self@.size() % 0x1_0000_0000,
    {
        let len: u64 = self.name.as_str().as_bytes().len() as u64;
        proof {
            assert(len & 0xffff_ffff == len % 0x1_0000_0000) by (bit_vector);
            lemma_add_mod(DIRENT_FIXED_SIZE as int, len as int);
        }
        let low: u32 = (len & 0xffff_ffff) as u32;
        low.wrapping_add(DIRENT_FIXED_SIZE)
    }
}

/// Directory entry array
#[derive(Clone, Debug, PartialEq, Eq, Hash)]
pub struct DirEntryData {
    pub data: Vec<DirEntry>,
}

impl View for DirEntryData {
    type V = Seq<DirEntryView>;

    open spec fn view(&self) -> Seq<DirEntryView> {
        self.data.deep_view()
    }
}

impl DeepView for DirEntryData {
    type V = Seq<DirEntryView>;

    open spec fn deep_view(&self) -> Seq<DirEntryView> {
        self.view()
    }
}

impl DirEntryData {
    /// No entries.
    pub fn new() -> (r: DirEntryData)
        ensures
            r@ == Seq::<DirEntryView>::empty(),
    {
        Self::with(Vec::new())
    }

    /// The entries of `v`.
    pub fn with(v: Vec<DirEntry>) -> (r: DirEntryData)
        ensures
            r.data == v,
    {
        DirEntryData { data: v }
    }

    /// The entries.
    pub fn data(&self) -> (r: &Vec<DirEntry>)
        ensures
            *r == self.data,
    {
        &self.data
    }

    /// The bytes the entries take on the wire, modulo 2^32.
    pub fn size(&self) -> (n: u32)
        ensures
            n == dirents_size(self@) % 0x1_0000_0000,
    {
        let mut total: u32 = 0;
        let mut i: usize = 0;
        while i < self.data.len()
            invariant
                i <= self.data.len(),
                total == dirents_size(self@.take(i as int)) % 0x1_0000_0000,
            decreases self.data.len() - i,
        {
            let n = self.data[i].size();
            proof {
                let before = self@.take(i as int);
                let after = self@.take(i + 1);
                assert(after.drop_last() =~= before);
                assert(after.last() == self.data[i as int]@);
                lemma_add_mod(dirents_size(before) as int, self.data[i as int]@.size() as int);
            }
            total = total.wrapping_add(n);
            i = i + 1;
        }
        assert(self@.take(i as int) =~= self@);
        total
    }

    /// Adds an entry at the end.
    pub fn push(&mut self, entry: DirEntry)
        ensures
            final(self)@ == old(self)@.push(entry@),
    {
        self.data.push(entry);
        assert(self@ =~= old(self)@.push(entry@));
    }
}

/// Adding two numbers modulo 2^32 is adding their remainders modulo 2^32.
proof fn lemma_add_mod(a: int, b: int)
    requires
        0 <= a,
        0 <= b,
    ensures
        (a + b) % 0x1_0000_0000 == ((a % 0x1_0000_0000) + (b % 0x1_0000_0000)) % 0x1_0000_0000,
{
    vstd::arithmetic::div_mod::lemma_add_mod_noop(a, b, 0x1_0000_0000);
}

/// Data type used in `Rread` and `Twrite`
#[derive(Clone, Debug, PartialEq, Eq, Hash)]
pub struct Data(pub Vec<u8>);

impl View for Data {
    type V = Seq<u8>;

    open spec fn view(&self) -> Seq<u8> {
        self.0@
    }
}

impl DeepView for Data {
    type V = Seq<u8>;

    open spec fn deep_view(&self) -> Seq<u8> {
        self.view()
    }
}

/// Similar to Linux `struct flock`
#[derive(Clone, Debug, PartialEq, Eq, Hash)]
pub struct Flock {
    pub typ: LockType,
    pub flags: LockFlag,
    pub start: u64,
    pub length: u64,
    pub proc_id: u32,
    pub client_id: String,
}

/// The mathematical value of a `Flock`.
pub struct FlockView {
    pub typ: LockType,
    pub flags: LockFlag,
    pub start: u64,
    pub length: u64,
    pub proc_id: u32,
    pub client_id: Seq<char>,
}

impl View for Flock {
    type V = FlockView;

    open spec fn view(&self) -> FlockView {
        FlockView {
            typ: self.typ,
            flags: self.flags,
            start: self.start,
            length: self.length,
            proc_id: self.proc_id,
            client_id: self.client_id@,
        }
    }
}

impl DeepView for Flock {
    type V = FlockView;

    open spec fn deep_view(&self) -> FlockView {
        self.view()
    }
}

/// Getlock structure
#[derive(Clone, Debug, PartialEq, Eq, Hash)]
pub struct Getlock {
    pub typ: LockType,
    pub start: u64,
    pub length: u64,
    pub proc_id: u32,
    pub client_id: String,
}

/// The mathematical value of a `Getlock`.
pub struct GetlockView {
    pub typ: LockType,
    pub start: u64,
    pub length: u64,
    pub proc_id: u32,
    pub client_id: Seq<char>,
}

impl View for Getlock {
    type V = GetlockView;

    open spec fn view(&self) -> GetlockView {
        GetlockView {
            typ: self.typ,
            start: self.start,
            length: self.length,
            proc_id: self.proc_id,
            client_id: self.client_id@,
        }
    }
}

impl DeepView for Getlock {
    type V = GetlockView;

    open spec fn deep_view(&self) -> GetlockView {
        self.view()
    }
}

/// The type of a message, by the name of its 9P operation.
#[derive(Clone, Copy, Debug, PartialEq, Eq, Hash, Structural)]
pub enum MsgType {
    /// Not a message of the protocol: its code is kept free.
    Tlerror,
    Rlerror,
    Tstatfs,
    Rstatfs,
    Tlopen,
    Rlopen,
    Tlcreate,
    Rlcreate,
    Tsymlink,
    Rsymlink,
    Tmknod,
    Rmknod,
    Trename,
    Rrename,
    Treadlink,
    Rreadlink,
    Tgetattr,
    Rgetattr,
    Tsetattr,
    Rsetattr,
    Txattrwalk,
    Rxattrwalk,
    Txattrcreate,
    Rxattrcreate,
    Treaddir,
    Rreaddir,
    Tfsync,
    Rfsync,
    Tlock,
    Rlock,
    Tgetlock,
    Rgetlock,
    Tlink,
    Rlink,
    Tmkdir,
    Rmkdir,
    Trenameat,
    Rrenameat,
    Tunlinkat,
    Runlinkat,
    Tversion,
    Rversion,
    Tauth,
    Rauth,
    Tattach,
    Rattach,
    Tflush,
    Rflush,
    Twalk,
    Rwalk,
    Tread,
    Rread,
    Twrite,
    Rwrite,
    Tclunk,
    Rclunk,
    Tremove,
    Rremove,
}

impl MsgType {
    /// The code that stands for the type on the wire.
    pub open spec fn code(self) -> u8 {
        match self {
            MsgType::Tlerror => 6,
            MsgType::Rlerror => 7,
            MsgType::Tstatfs => 8,
            MsgType::Rstatfs => 9,
            MsgType::Tlopen => 12,
            MsgType::Rlopen => 13,
            MsgType::Tlcreate => 14,
            MsgType::Rlcreate => 15,
            MsgType::Tsymlink => 16,
            MsgType::Rsymlink => 17,
            MsgType::Tmknod => 18,
            MsgType::Rmknod => 19,
            MsgType::Trename => 20,
            MsgType::Rrename => 21,
            MsgType::Treadlink => 22,
            MsgType::Rreadlink => 23,
            MsgType::Tgetattr => 24,
            MsgType::Rgetattr => 25,
            MsgType::Tsetattr => 26,
            MsgType::Rsetattr => 27,
            MsgType::Txattrwalk => 30,
            MsgType::Rxattrwalk => 31,
            MsgType::Txattrcreate => 32,
            MsgType::Rxattrcreate => 33,
            MsgType::Treaddir => 40,
            MsgType::Rreaddir => 41,
            MsgType::Tfsync => 50,
            MsgType::Rfsync => 51,
            MsgType::Tlock => 52,
            MsgType::Rlock => 53,
            MsgType::Tgetlock => 54,
            MsgType::Rgetlock => 55,
            MsgType::Tlink => 70,
            MsgType::Rlink => 71,
            MsgType::Tmkdir => 72,
            MsgType::Rmkdir => 73,
            MsgType::Trenameat => 74,
            MsgType::Rrenameat => 75,
            MsgType::Tunlinkat => 76,
            MsgType::Runlinkat => 77,
            MsgType::Tversion => 100,
            MsgType::Rversion => 101,
            MsgType::Tauth => 102,
            MsgType::Rauth => 103,
            MsgType::Tattach => 104,
            MsgType::Rattach => 105,
            MsgType::Tflush => 108,
            MsgType::Rflush => 109,
            MsgType::Twalk => 110,
            MsgType::Rwalk => 111,
            MsgType::Tread => 116,
            MsgType::Rread => 117,
            MsgType::Twrite => 118,
            MsgType::Rwrite => 119,
            MsgType::Tclunk => 120,
            MsgType::Rclunk => 121,
            MsgType::Tremove => 122,
            MsgType::Rremove => 123,
        }
    }

    /// The type that a code stands for, if it stands for one.
    pub open spec fn of_code(code: u8) -> Option<MsgType> {
        if code == 6 {
            Some(MsgType::Tlerror)
        } else if code == 7 {
            Some(MsgType::Rlerror)
        } else if code == 8 {
            Some(MsgType::Tstatfs)
        } else if code == 9 {
            Some(MsgType::Rstatfs)
        } else if code == 12 {
            Some(MsgType::Tlopen)
        } else if code == 13 {
            Some(MsgType::Rlopen)
        } else if code == 14 {
            Some(MsgType::Tlcreate)
        } else if code == 15 {
            Some(MsgType::Rlcreate)
        } else if code == 16 {
            Some(MsgType::Tsymlink)
        } else if code == 17 {
            Some(MsgType::Rsymlink)
        } else if code == 18 {
            Some(MsgType::Tmknod)
        } else if code == 19 {
            Some(MsgType::Rmknod)
        } else if code == 20 {
            Some(MsgType::Trename)
        } else if code == 21 {
            Some(MsgType::Rrename)
        } else if code == 22 {
            Some(MsgType::Treadlink)
        } else if code == 23 {
            Some(MsgType::Rreadlink)
        } else if code == 24 {
            Some(MsgType::Tgetattr)
        } else if code == 25 {
            Some(MsgType::Rgetattr)
        } else if code == 26 {
            Some(MsgType::Tsetattr)
        } else if code == 27 {
            Some(MsgType::Rsetattr)
        } else if code == 30 {
            Some(MsgType::Txattrwalk)
        } else if code == 31 {
            Some(MsgType::Rxattrwalk)
        } else if code == 32 {
            Some(MsgType::Txattrcreate)
        } else if code == 33 {
            Some(MsgType::Rxattrcreate)
        } else if code == 40 {
            Some(MsgType::Treaddir)
        } else if code == 41 {
            Some(MsgType::Rreaddir)
        } else if code == 50 {
            Some(MsgType::Tfsync)
        } else if code == 51 {
            Some(MsgType::Rfsync)
        } else if code == 52 {
            Some(MsgType::Tlock)
        } else if code == 53 {
            Some(MsgType::Rlock)
        } else if code == 54 {
            Some(MsgType::Tgetlock)
        } else if code == 55 {
            Some(MsgType::Rgetlock)
        } else if code == 70 {
            Some(MsgType::Tlink)
        } else if code == 71 {
            Some(MsgType::Rlink)
        } else if code == 72 {
            Some(MsgType::Tmkdir)
        } else if code == 73 {
            Some(MsgType::Rmkdir)
        } else if code == 74 {
            Some(MsgType::Trenameat)
        } else if code == 75 {
            Some(MsgType::Rrenameat)
        } else if code == 76 {
            Some(MsgType::Tunlinkat)
        } else if code == 77 {
            Some(MsgType::Runlinkat)
        } else if code == 100 {
            Some(MsgType::Tversion)
        } else if code == 101 {
            Some(MsgType::Rversion)
        } else if code == 102 {
            Some(MsgType::Tauth)
        } else if code == 103 {
            Some(MsgType::Rauth)
        } else if code == 104 {
            Some(MsgType::Tattach)
        } else if code == 105 {
            Some(MsgType::Rattach)
        } else if code == 108 {
            Some(MsgType::Tflush)
        } else if code == 109 {
            Some(MsgType::Rflush)
        } else if code == 110 {
            Some(MsgType::Twalk)
        } else if code == 111 {
            Some(MsgType::Rwalk)
        } else if code == 116 {
            Some(MsgType::Tread)
        } else if code == 117 {
            Some(MsgType::Rread)
        } else if code == 118 {
            Some(MsgType::Twrite)
        } else if code == 119 {
            Some(MsgType::Rwrite)
        } else if code == 120 {
            Some(MsgType::Tclunk)
        } else if code == 121 {
            Some(MsgType::Rclunk)
        } else if code == 122 {
            Some(MsgType::Tremove)
        } else if code == 123 {
            Some(MsgType::Rremove)
        } else {
            None
        }
    }

    /// Whether the type is that of a reply.
    pub open spec fn is_reply(self) -> bool {
        self.code() % 2 == 1
    }

    /// The code that stands for the type on the wire.
    pub fn to_u8(self) -> (code: u8)
        ensures
            code == self.code(),
    {
        match self {
            MsgType::Tlerror => 6,
            MsgType::Rlerror => 7,
            MsgType::Tstatfs => 8,
            MsgType::Rstatfs => 9,
            MsgType::Tlopen => 12,
            MsgType::Rlopen => 13,
            MsgType::Tlcreate => 14,
            MsgType::Rlcreate => 15,
            MsgType::Tsymlink => 16,
            MsgType::Rsymlink => 17,
            MsgType::Tmknod => 18,
            MsgType::Rmknod => 19,
            MsgType::Trename => 20,
            MsgType::Rrename => 21,
            MsgType::Treadlink => 22,
            MsgType::Rreadlink => 23,
            MsgType::Tgetattr => 24,
            MsgType::Rgetattr => 25,
            MsgType::Tsetattr => 26,
            MsgType::Rsetattr => 27,
            MsgType::Txattrwalk => 30,
            MsgType::Rxattrwalk => 31,
            MsgType::Txattrcreate => 32,
            MsgType::Rxattrcreate => 33,
            MsgType::Treaddir => 40,
            MsgType::Rreaddir => 41,
            MsgType::Tfsync => 50,
            MsgType::Rfsync => 51,
            MsgType::Tlock => 52,
            MsgType::Rlock => 53,
            MsgType::Tgetlock => 54,
            MsgType::Rgetlock => 55,
            MsgType::Tlink => 70,
            MsgType::Rlink => 71,
            MsgType::Tmkdir => 72,
            MsgType::Rmkdir => 73,
            MsgType::Trenameat => 74,
            MsgType::Rrenameat => 75,
            MsgType::Tunlinkat => 76,
            MsgType::Runlinkat => 77,
            MsgType::Tversion => 100,
            MsgType::Rversion => 101,
            MsgType::Tauth => 102,
            MsgType::Rauth => 103,
            MsgType::Tattach => 104,
            MsgType::Rattach => 105,
            MsgType::Tflush => 108,
            MsgType::Rflush => 109,
            MsgType::Twalk => 110,
            MsgType::Rwalk => 111,
            MsgType::Tread => 116,
            MsgType::Rread => 117,
            MsgType::Twrite => 118,
            MsgType::Rwrite => 119,
            MsgType::Tclunk => 120,
            MsgType::Rclunk => 121,
            MsgType::Tremove => 122,
            MsgType::Rremove => 123,
        }
    }

    /// The type that a code stands for, if it stands for one.
    pub fn from_u8(code: u8) -> (t: Option<MsgType>)
        ensures
            t == MsgType::of_code(code),
    {
        match code {
            6 => Some(MsgType::Tlerror),
            7 => Some(MsgType::Rlerror),
            8 => Some(MsgType::Tstatfs),
            9 => Some(MsgType::Rstatfs),
            12 => Some(MsgType::Tlopen),
            13 => Some(MsgType::Rlopen),
            14 => Some(MsgType::Tlcreate),
            15 => Some(MsgType::Rlcreate),
            16 => Some(MsgType::Tsymlink),
            17 => Some(MsgType::Rsymlink),
            18 => Some(MsgType::Tmknod),
            19 => Some(MsgType::Rmknod),
            20 => Some(MsgType::Trename),
            21 => Some(MsgType::Rrename),
            22 => Some(MsgType::Treadlink),
            23 => Some(MsgType::Rreadlink),
            24 => Some(MsgType::Tgetattr),
            25 => Some(MsgType::Rgetattr),
            26 => Some(MsgType::Tsetattr),
            27 => Some(MsgType::Rsetattr),
            30 => Some(MsgType::Txattrwalk),
            31 => Some(MsgType::Rxattrwalk),
            32 => Some(MsgType::Txattrcreate),
            33 => Some(MsgType::Rxattrcreate),
            40 => Some(MsgType::Treaddir),
            41 => Some(MsgType::Rreaddir),
            50 => Some(MsgType::Tfsync),
            51 => Some(MsgType::Rfsync),
            52 => Some(MsgType::Tlock),
            53 => Some(MsgType::Rlock),
            54 => Some(MsgType::Tgetlock),
            55 => Some(MsgType::Rgetlock),
            70 => Some(MsgType::Tlink),
            71 => Some(MsgType::Rlink),
            72 => Some(MsgType::Tmkdir),
            73 => Some(MsgType::Rmkdir),
            74 => Some(MsgType::Trenameat),
            75 => Some(MsgType::Rrenameat),
            76 => Some(MsgType::Tunlinkat),
            77 => Some(MsgType::Runlinkat),
            100 => Some(MsgType::Tversion),
            101 => Some(MsgType::Rversion),
            102 => Some(MsgType::Tauth),
            103 => Some(MsgType::Rauth),
            104 => Some(MsgType::Tattach),
            105 => Some(MsgType::Rattach),
            108 => Some(MsgType::Tflush),
            109 => Some(MsgType::Rflush),
            110 => Some(MsgType::Twalk),
            111 => Some(MsgType::Rwalk),
            116 => Some(MsgType::Tread),
            117 => Some(MsgType::Rread),
            118 => Some(MsgType::Twrite),
            119 => Some(MsgType::Rwrite),
            120 => Some(MsgType::Tclunk),
            121 => Some(MsgType::Rclunk),
            122 => Some(MsgType::Tremove),
            123 => Some(MsgType::Rremove),
            _ => None,
        }
    }

    /// If the message type is T-message
    pub fn is_t(&self) -> (r: bool)
        ensures
            r == !self.is_reply(),
    {
        !self.is_r()
    }

    /// If the message type is R-message
    pub fn is_r(&self) -> (r: bool)
        ensures
            r == self.is_reply(),
    {
        match *self {
            MsgType::Rlerror
            | MsgType::Rstatfs
            | MsgType::Rlopen
            | MsgType::Rlcreate
            | MsgType::Rsymlink
            | MsgType::Rmknod
            | MsgType::Rrename
            | MsgType::Rreadlink
            | MsgType::Rgetattr
            | MsgType::Rsetattr
            | MsgType::Rxattrwalk
            | MsgType::Rxattrcreate
            | MsgType::Rreaddir
            | MsgType::Rfsync
            | MsgType::Rlock
            | MsgType::Rgetlock
            | MsgType::Rlink
            | MsgType::Rmkdir
            | MsgType::Rrenameat
            | MsgType::Runlinkat
            | MsgType::Rauth
            | MsgType::Rattach
            | MsgType::Rversion
            | MsgType::Rflush
            | MsgType::Rwalk
            | MsgType::Rread
            | MsgType::Rwrite
            | MsgType::Rclunk
            | MsgType::Rremove => true,
            _ => false,
        }
    }

    /// The type of a message body.
    pub fn from(fcall: &Fcall) -> (t: MsgType)
        ensures
            t == fcall@.msg_type(),
    {
        match *fcall {
            Fcall::Rlerror { .. } => MsgType::Rlerror,
            Fcall::Tstatfs { .. } => MsgType::Tstatfs,
            Fcall::Rstatfs { .. } => MsgType::Rstatfs,
            Fcall::Tlopen { .. } => MsgType::Tlopen,
            Fcall::Rlopen { .. } => MsgType::Rlopen,
            Fcall::Tlcreate { .. } => MsgType::Tlcreate,
            Fcall::Rlcreate { .. } => MsgType::Rlcreate,
            Fcall::Tsymlink { .. } => MsgType::Tsymlink,
            Fcall::Rsymlink { .. } => MsgType::Rsymlink,
            Fcall::Tmknod { .. } => MsgType::Tmknod,
            Fcall::Rmknod { .. } => MsgType::Rmknod,
            Fcall::Trename { .. } => MsgType::Trename,
            Fcall::Rrename => MsgType::Rrename,
            Fcall::Treadlink { .. } => MsgType::Treadlink,
            Fcall::Rreadlink { .. } => MsgType::Rreadlink,
            Fcall::Tgetattr { .. } => MsgType::Tgetattr,
            Fcall::Rgetattr { .. } => MsgType::Rgetattr,
            Fcall::Tsetattr { .. } => MsgType::Tsetattr,
            Fcall::Rsetattr => MsgType::Rsetattr,
            Fcall::Txattrwalk { .. } => MsgType::Txattrwalk,
            Fcall::Rxattrwalk { .. } => MsgType::Rxattrwalk,
            Fcall::Txattrcreate { .. } => MsgType::Txattrcreate,
            Fcall::Rxattrcreate => MsgType::Rxattrcreate,
            Fcall::Treaddir { .. } => MsgType::Treaddir,
            Fcall::Rreaddir { .. } => MsgType::Rreaddir,
            Fcall::Tfsync { .. } => MsgType::Tfsync,
            Fcall::Rfsync => MsgType::Rfsync,
            Fcall::Tlock { .. } => MsgType::Tlock,
            Fcall::Rlock { .. } => MsgType::Rlock,
            Fcall::Tgetlock { .. } => MsgType::Tgetlock,
            Fcall::Rgetlock { .. } => MsgType::Rgetlock,
            Fcall::Tlink { .. } => MsgType::Tlink,
            Fcall::Rlink => MsgType::Rlink,
            Fcall::Tmkdir { .. } => MsgType::Tmkdir,
            Fcall::Rmkdir { .. } => MsgType::Rmkdir,
            Fcall::Trenameat { .. } => MsgType::Trenameat,
            Fcall::Rrenameat => MsgType::Rrenameat,
            Fcall::Tunlinkat { .. } => MsgType::Tunlinkat,
            Fcall::Runlinkat => MsgType::Runlinkat,
            Fcall::Tauth { .. } => MsgType::Tauth,
            Fcall::Rauth { .. } => MsgType::Rauth,
            Fcall::Tattach { .. } => MsgType::Tattach,
            Fcall::Rattach { .. } => MsgType::Rattach,
            Fcall::Tversion { .. } => MsgType::Tversion,
            Fcall::Rversion { .. } => MsgType::Rversion,
            Fcall::Tflush { .. } => MsgType::Tflush,
            Fcall::Rflush => MsgType::Rflush,
            Fcall::Twalk { .. } => MsgType::Twalk,
            Fcall::Rwalk { .. } => MsgType::Rwalk,
            Fcall::Tread { .. } => MsgType::Tread,
            Fcall::Rread { .. } => MsgType::Rread,
            Fcall::Twrite { .. } => MsgType::Twrite,
            Fcall::Rwrite { .. } => MsgType::Rwrite,
            Fcall::Tclunk { .. } => MsgType::Tclunk,
            Fcall::Rclunk => MsgType::Rclunk,
            Fcall::Tremove { .. } => MsgType::Tremove,
            Fcall::Rremove => MsgType::Rremove,
        }
    }
}

/// A type is found again from its code.
pub proof fn lemma_code_names_type(t: MsgType)
    ensures
        MsgType::of_code(t.code()) == Some(t),
{
}

/// A data type encapsulating the various 9P messages
#[derive(Clone, Debug, PartialEq, Eq, Hash)]
#[allow(inconsistent_fields)]
pub enum Fcall {
    Rlerror {
        ecode: u32,
    },
    Tstatfs {
        fid: u32,
    },
    Rstatfs {
        statfs: Statfs,
    },
    Tlopen {
        fid: u32,
        flags: u32,
    },
    Rlopen {
        qid: Qid,
        iounit: u32,
    },
    Tlcreate {
        fid: u32,
        name: String,
        flags: u32,
        mode: u32,
        gid: u32,
    },
    Rlcreate {
        qid: Qid,
        iounit: u32,
    },
    Tsymlink {
        fid: u32,
        name: String,
        symtgt: String,
        gid: u32,
    },
    Rsymlink {
        qid: Qid,
    },
    Tmknod {
        dfid: u32,
        name: String,
        mode: u32,
        major: u32,
        minor: u32,
        gid: u32,
    },
    Rmknod {
        qid: Qid,
    },
    Trename {
        fid: u32,
        dfid: u32,
        name: String,
    },
    Rrename,
    Treadlink {
        fid: u32,
    },
    Rreadlink {
        target: String,
    },
    Tgetattr {
        fid: u32,
        req_mask: GetattrMask,
    },
    /// The reserved words that follow on the wire are not part of the value.
    Rgetattr {
        valid: GetattrMask,
        qid: Qid,
        stat: Stat,
    },
    Tsetattr {
        fid: u32,
        valid: SetattrMask,
        stat: SetAttr,
    },
    Rsetattr,
    Txattrwalk {
        fid: u32,
        newfid: u32,
        name: String,
    },
    Rxattrwalk {
        size: u64,
    },
    Txattrcreate {
        fid: u32,
        name: String,
        attr_size: u64,
        flags: u32,
    },
    Rxattrcreate,
    Treaddir {
        fid: u32,
        offset: u64,
        count: u32,
    },
    Rreaddir {
        data: DirEntryData,
    },
    Tfsync {
        fid: u32,
    },
    Rfsync,
    Tlock {
        fid: u32,
        flock: Flock,
    },
    Rlock {
        status: LockStatus,
    },
    Tgetlock {
        fid: u32,
        flock: Getlock,
    },
    Rgetlock {
        flock: Getlock,
    },
    Tlink {
        dfid: u32,
        fid: u32,
        name: String,
    },
    Rlink,
    Tmkdir {
        dfid: u32,
        name: String,
        mode: u32,
        gid: u32,
    },
    Rmkdir {
        qid: Qid,
    },
    Trenameat {
        olddirfid: u32,
        oldname: String,
        newdirfid: u32,
        newname: String,
    },
    Rrenameat,
    Tunlinkat {
        dirfd: u32,
        name: String,
        flags: u32,
    },
    Runlinkat,
    Tauth {
        afid: u32,
        uname: String,
        aname: String,
        n_uname: u32,
    },
    Rauth {
        aqid: Qid,
    },
    Tattach {
        fid: u32,
        afid: u32,
        uname: String,
        aname: String,
        n_uname: u32,
    },
    Rattach {
        qid: Qid,
    },
    Tversion {
        msize: u32,
        version: String,
    },
    Rversion {
        msize: u32,
        version: String,
    },
    Tflush {
        oldtag: u16,
    },
    Rflush,
    Twalk {
        fid: u32,
        newfid: u32,
        wnames: Vec<String>,
    },
    Rwalk {
        wqids: Vec<Qid>,
    },
    Tread {
        fid: u32,
        offset: u64,
        count: u32,
    },
    Rread {
        data: Data,
    },
    Twrite {
        fid: u32,
        offset: u64,
        data: Data,
    },
    Rwrite {
        count: u32,
    },
    Tclunk {
        fid: u32,
    },
    Rclunk,
    Tremove {
        fid: u32,
    },
    Rremove,
}

/// The mathematical value of a message body.
#[allow(inconsistent_fields)]
pub enum FcallView {
    Rlerror {
        ecode: u32,
    },
    Tstatfs {
        fid: u32,
    },
    Rstatfs {
        statfs: Statfs,
    },
    Tlopen {
        fid: u32,
        flags: u32,
    },
    Rlopen {
        qid: Qid,
        iounit: u32,
    },
    Tlcreate {
        fid: u32,
        name: Seq<char>,
        flags: u32,
        mode: u32,
        gid: u32,
    },
    Rlcreate {
        qid: Qid,
        iounit: u32,
    },
    Tsymlink {
        fid: u32,
        name: Seq<char>,
        symtgt: Seq<char>,
        gid: u32,
    },
    Rsymlink {
        qid: Qid,
    },
    Tmknod {
        dfid: u32,
        name: Seq<char>,
        mode: u32,
        major: u32,
        minor: u32,
        gid: u32,
    },
    Rmknod {
        qid: Qid,
    },
    Trename {
        fid: u32,
        dfid: u32,
        name: Seq<char>,
    },
    Rrename,
    Treadlink {
        fid: u32,
    },
    Rreadlink {
        target: Seq<char>,
    },
    Tgetattr {
        fid: u32,
        req_mask: GetattrMask,
    },
    Rgetattr {
        valid: GetattrMask,
        qid: Qid,
        stat: Stat,
    },
    Tsetattr {
        fid: u32,
        valid: SetattrMask,
        stat: SetAttr,
    },
    Rsetattr,
    Txattrwalk {
        fid: u32,
        newfid: u32,
        name: Seq<char>,
    },
    Rxattrwalk {
        size: u64,
    },
    Txattrcreate {
        fid: u32,
        name: Seq<char>,
        attr_size: u64,
        flags: u32,
    },
    Rxattrcreate,
    Treaddir {
        fid: u32,
        offset: u64,
        count: u32,
    },
    Rreaddir {
        data: Seq<DirEntryView>,
    },
    Tfsync {
        fid: u32,
    },
    Rfsync,
    Tlock {
        fid: u32,
        flock: FlockView,
    },
    Rlock {
        status: LockStatus,
    },
    Tgetlock {
        fid: u32,
        flock: GetlockView,
    },
    Rgetlock {
        flock: GetlockView,
    },
    Tlink {
        dfid: u32,
        fid: u32,
        name: Seq<char>,
    },
    Rlink,
    Tmkdir {
        dfid: u32,
        name: Seq<char>,
        mode: u32,
        gid: u32,
    },
    Rmkdir {
        qid: Qid,
    },
    Trenameat {
        olddirfid: u32,
        oldname: Seq<char>,
        newdirfid: u32,
        newname: Seq<char>,
    },
    Rrenameat,
    Tunlinkat {
        dirfd: u32,
        name: Seq<char>,
        flags: u32,
    },
    Runlinkat,
    Tauth {
        afid: u32,
        uname: Seq<char>,
        aname: Seq<char>,
        n_uname: u32,
    },
    Rauth {
        aqid: Qid,
    },
    Tattach {
        fid: u32,
        afid: u32,
        uname: Seq<char>,
        aname: Seq<char>,
        n_uname: u32,
    },
    Rattach {
        qid: Qid,
    },
    Tversion {
        msize: u32,
        version: Seq<char>,
    },
    Rversion {
        msize: u32,
        version: Seq<char>,
    },
    Tflush {
        oldtag: u16,
    },
    Rflush,
    Twalk {
        fid: u32,
        newfid: u32,
        wnames: Seq<Seq<char>>,
    },
    Rwalk {
        wqids: Seq<Qid>,
    },
    Tread {
        fid: u32,
        offset: u64,
        count: u32,
    },
    Rread {
        data: Seq<u8>,
    },
    Twrite {
        fid: u32,
        offset: u64,
        data: Seq<u8>,
    },
    Rwrite {
        count: u32,
    },
    Tclunk {
        fid: u32,
    },
    Rclunk,
    Tremove {
        fid: u32,
    },
    Rremove,
}

impl View for Fcall {
    type V = FcallView;

    open spec fn view(&self) -> FcallView {
        match *self {
            Fcall::Rlerror { ecode } => FcallView::Rlerror { ecode },
            Fcall::Tstatfs { fid } => FcallView::Tstatfs { fid },
            Fcall::Rstatfs { statfs } => FcallView::Rstatfs { statfs },
            Fcall::Tlopen { fid, flags } => FcallView::Tlopen { fid, flags },
            Fcall::Rlopen { qid, iounit } => FcallView::Rlopen { qid, iounit },
            Fcall::Tlcreate { fid, name, flags, mode, gid } => FcallView::Tlcreate {
                fid,
                name: name@,
                flags,
                mode,
                gid,
            },
            Fcall::Rlcreate { qid, iounit } => FcallView::Rlcreate { qid, iounit },
            Fcall::Tsymlink { fid, name, symtgt, gid } => FcallView::Tsymlink {
                fid,
                name: name@,
                symtgt: symtgt@,
                gid,
            },
            Fcall::Rsymlink { qid } => FcallView::Rsymlink { qid },
            Fcall::Tmknod { dfid, name, mode, major, minor, gid } => FcallView::Tmknod {
                dfid,
                name: name@,
                mode,
                major,
                minor,
                gid,
            },
            Fcall::Rmknod { qid } => FcallView::Rmknod { qid },
            Fcall::Trename { fid, dfid, name } => FcallView::Trename { fid, dfid, name: name@ },
            Fcall::Rrename => FcallView::Rrename,
            Fcall::Treadlink { fid } => FcallView::Treadlink { fid },
            Fcall::Rreadlink { target } => FcallView::Rreadlink { target: target@ },
            Fcall::Tgetattr { fid, req_mask } => FcallView::Tgetattr { fid, req_mask },
            Fcall::Rgetattr { valid, qid, stat } => FcallView::Rgetattr { valid, qid, stat },
            Fcall::Tsetattr { fid, valid, stat } => FcallView::Tsetattr { fid, valid, stat },
            Fcall::Rsetattr => FcallView::Rsetattr,
            Fcall::Txattrwalk { fid, newfid, name } => FcallView::Txattrwalk {
                fid,
                newfid,
                name: name@,
            },
            Fcall::Rxattrwalk { size } => FcallView::Rxattrwalk { size },
            Fcall::Txattrcreate { fid, name, attr_size, flags } => FcallView::Txattrcreate {
                fid,
                name: name@,
                attr_size,
                flags,
            },
            Fcall::Rxattrcreate => FcallView::Rxattrcreate,
            Fcall::Treaddir { fid, offset, count } => FcallView::Treaddir { fid, offset, count },
            Fcall::Rreaddir { data } => FcallView::Rreaddir { data: data@ },
            Fcall::Tfsync { fid } => FcallView::Tfsync { fid },
            Fcall::Rfsync => FcallView::Rfsync,
            Fcall::Tlock { fid, flock } => FcallView::Tlock { fid, flock: flock@ },
            Fcall::Rlock { status } => FcallView::Rlock { status },
            Fcall::Tgetlock { fid, flock } => FcallView::Tgetlock { fid, flock: flock@ },
            Fcall::Rgetlock { flock } => FcallView::Rgetlock { flock: flock@ },
            Fcall::Tlink { dfid, fid, name } => FcallView::Tlink { dfid, fid, name: name@ },
            Fcall::Rlink => FcallView::Rlink,
            Fcall::Tmkdir { dfid, name, mode, gid } => FcallView::Tmkdir {
                dfid,
                name: name@,
                mode,
                gid,
            },
            Fcall::Rmkdir { qid } => FcallView::Rmkdir { qid },
            Fcall::Trenameat { olddirfid, oldname, newdirfid, newname } => FcallView::Trenameat {
                olddirfid,
                oldname: oldname@,
                newdirfid,
                newname: newname@,
            },
            Fcall::Rrenameat => FcallView::Rrenameat,
            Fcall::Tunlinkat { dirfd, name, flags } => FcallView::Tunlinkat {
                dirfd,
                name: name@,
                flags,
            },
            Fcall::Runlinkat => FcallView::Runlinkat,
            Fcall::Tauth { afid, uname, aname, n_uname } => FcallView::Tauth {
                afid,
                uname: uname@,
                aname: aname@,
                n_uname,
            },
            Fcall::Rauth { aqid } => FcallView::Rauth { aqid },
            Fcall::Tattach { fid, afid, uname, aname, n_uname } => FcallView::Tattach {
                fid,
                afid,
                uname: uname@,
                aname: aname@,
                n_uname,
            },
            Fcall::Rattach { qid } => FcallView::Rattach { qid },
            Fcall::Tversion { msize, version } => FcallView::Tversion {
                msize,
                version: version@,
            },
            Fcall::Rversion { msize, version } => FcallView::Rversion {
                msize,
                version: version@,
            },
            Fcall::Tflush { oldtag } => FcallView::Tflush { oldtag },
            Fcall::Rflush => FcallView::Rflush,
            Fcall::Twalk { fid, newfid, wnames } => FcallView::Twalk {
                fid,
                newfid,
                wnames: wnames.deep_view(),
            },
            Fcall::Rwalk { wqids } => FcallView::Rwalk { wqids: wqids.deep_view() },
            Fcall::Tread { fid, offset, count } => FcallView::Tread { fid, offset, count },
            Fcall::Rread { data } => FcallView::Rread { data: data@ },
            Fcall::Twrite { fid, offset, data } => FcallView::Twrite { fid, offset, data: data@ },
            Fcall::Rwrite { count } => FcallView::Rwrite { count },
            Fcall::Tclunk { fid } => FcallView::Tclunk { fid },
            Fcall::Rclunk => FcallView::Rclunk,
            Fcall::Tremove { fid } => FcallView::Tremove { fid },
            Fcall::Rremove => FcallView::Rremove,
        }
    }
}

impl DeepView for Fcall {
    type V = FcallView;

    open spec fn deep_view(&self) -> FcallView {
        self.view()
    }
}

impl FcallView {
    /// The type of the message.
    pub open spec fn msg_type(self) -> MsgType {
        match self {
            FcallView::Rlerror { .. } => MsgType::Rlerror,
            FcallView::Tstatfs { .. } => MsgType::Tstatfs,
            FcallView::Rstatfs { .. } => MsgType::Rstatfs,
            FcallView::Tlopen { .. } => MsgType::Tlopen,
            FcallView::Rlopen { .. } => MsgType::Rlopen,
            FcallView::Tlcreate { .. } => MsgType::Tlcreate,
            FcallView::Rlcreate { .. } => MsgType::Rlcreate,
            FcallView::Tsymlink { .. } => MsgType::Tsymlink,
            FcallView::Rsymlink { .. } => MsgType::Rsymlink,
            FcallView::Tmknod { .. } => MsgType::Tmknod,
            FcallView::Rmknod { .. } => MsgType::Rmknod,
            FcallView::Trename { .. } => MsgType::Trename,
            FcallView::Rrename => MsgType::Rrename,
            FcallView::Treadlink { .. } => MsgType::Treadlink,
            FcallView::Rreadlink { .. } => MsgType::Rreadlink,
            FcallView::Tgetattr { .. } => MsgType::Tgetattr,
            FcallView::Rgetattr { .. } => MsgType::Rgetattr,
            FcallView::Tsetattr { .. } => MsgType::Tsetattr,
            FcallView::Rsetattr => MsgType::Rsetattr,
            FcallView::Txattrwalk { .. } => MsgType::Txattrwalk,
            FcallView::Rxattrwalk { .. } => MsgType::Rxattrwalk,
            FcallView::Txattrcreate { .. } => MsgType::Txattrcreate,
            FcallView::Rxattrcreate => MsgType::Rxattrcreate,
            FcallView::Treaddir { .. } => MsgType::Treaddir,
            FcallView::Rreaddir { .. } => MsgType::Rreaddir,
            FcallView::Tfsync { .. } => MsgType::Tfsync,
            FcallView::Rfsync => MsgType::Rfsync,
            FcallView::Tlock { .. } => MsgType::Tlock,
            FcallView::Rlock { .. } => MsgType::Rlock,
            FcallView::Tgetlock { .. } => MsgType::Tgetlock,
            FcallView::Rgetlock { .. } => MsgType::Rgetlock,
            FcallView::Tlink { .. } => MsgType::Tlink,
            FcallView::Rlink => MsgType::Rlink,
            FcallView::Tmkdir { .. } => MsgType::Tmkdir,
            FcallView::Rmkdir { .. } => MsgType::Rmkdir,
            FcallView::Trenameat { .. } => MsgType::Trenameat,
            FcallView::Rrenameat => MsgType::Rrenameat,
            FcallView::Tunlinkat { .. } => MsgType::Tunlinkat,
            FcallView::Runlinkat => MsgType::Runlinkat,
            FcallView::Tauth { .. } => MsgType::Tauth,
            FcallView::Rauth { .. } => MsgType::Rauth,
            FcallView::Tattach { .. } => MsgType::Tattach,
            FcallView::Rattach { .. } => MsgType::Rattach,
            FcallView::Tversion { .. } => MsgType::Tversion,
            FcallView::Rversion { .. } => MsgType::Rversion,
            FcallView::Tflush { .. } => MsgType::Tflush,
            FcallView::Rflush => MsgType::Rflush,
            FcallView::Twalk { .. } => MsgType::Twalk,
            FcallView::Rwalk { .. } => MsgType::Rwalk,
            FcallView::Tread { .. } => MsgType::Tread,
            FcallView::Rread { .. } => MsgType::Rread,
            FcallView::Twrite { .. } => MsgType::Twrite,
            FcallView::Rwrite { .. } => MsgType::Rwrite,
            FcallView::Tclunk { .. } => MsgType::Tclunk,
            FcallView::Rclunk => MsgType::Rclunk,
            FcallView::Tremove { .. } => MsgType::Tremove,
            FcallView::Rremove => MsgType::Rremove,
        }
    }

    /// The fids that the message names and that must be known already.
    pub open spec fn fids(self) -> Seq<u32> {
        match self {
            FcallView::Tstatfs { fid } => seq![fid],
            FcallView::Tlopen { fid, .. } => seq![fid],
            FcallView::Tlcreate { fid, .. } => seq![fid],
            FcallView::Tsymlink { fid, .. } => seq![fid],
            FcallView::Tmknod { dfid, .. } => seq![dfid],
            FcallView::Trename { fid, dfid, .. } => seq![fid, dfid],
            FcallView::Treadlink { fid } => seq![fid],
            FcallView::Tgetattr { fid, .. } => seq![fid],
            FcallView::Tsetattr { fid, .. } => seq![fid],
            FcallView::Txattrwalk { fid, .. } => seq![fid],
            FcallView::Txattrcreate { fid, .. } => seq![fid],
            FcallView::Treaddir { fid, .. } => seq![fid],
            FcallView::Tfsync { fid } => seq![fid],
            FcallView::Tlock { fid, .. } => seq![fid],
            FcallView::Tgetlock { fid, .. } => seq![fid],
            FcallView::Tlink { dfid, fid, .. } => seq![dfid, fid],
            FcallView::Tmkdir { dfid, .. } => seq![dfid],
            FcallView::Trenameat { olddirfid, newdirfid, .. } => seq![olddirfid, newdirfid],
            FcallView::Tunlinkat { dirfd, .. } => seq![dirfd],
            FcallView::Tattach { afid, .. } => if afid != NOFID {
                seq![afid]
            } else {
                Seq::empty()
            },
            FcallView::Twalk { fid, .. } => seq![fid],
            FcallView::Tread { fid, .. } => seq![fid],
            FcallView::Twrite { fid, .. } => seq![fid],
            FcallView::Tclunk { fid } => seq![fid],
            FcallView::Tremove { fid } => seq![fid],
            _ => Seq::empty(),
        }
    }

    /// The fid that the message asks the server to bring into being.
    pub open spec fn newfid(self) -> Option<u32> {
        match self {
            FcallView::Txattrwalk { newfid, .. } => Some(newfid),
            FcallView::Tauth { afid, .. } => Some(afid),
            FcallView::Tattach { fid, .. } => Some(fid),
            FcallView::Twalk { newfid, .. } => Some(newfid),
            _ => None,
        }
    }

    /// The qids that the message carries.
    pub open spec fn qids(self) -> Seq<Qid> {
        match self {
            FcallView::Rlopen { qid, .. } => seq![qid],
            FcallView::Rlcreate { qid, .. } => seq![qid],
            FcallView::Rsymlink { qid } => seq![qid],
            FcallView::Rmknod { qid } => seq![qid],
            FcallView::Rgetattr { qid, .. } => seq![qid],
            FcallView::Rmkdir { qid } => seq![qid],
            FcallView::Rauth { aqid } => seq![aqid],
            FcallView::Rattach { qid } => seq![qid],
            FcallView::Rwalk { wqids } => wqids,
            _ => Seq::empty(),
        }
    }
}


impl Fcall {
    /// Get the fids which self contains
    pub fn fids(&self) -> (r: Vec<u32>)
        ensures
            r@ == self@.fids(),
    {
        match *self {
            Fcall::Tstatfs { fid } => vec![fid],
            Fcall::Tlopen { fid, .. } => vec![fid],
            Fcall::Tlcreate { fid, .. } => vec![fid],
            Fcall::Tsymlink { fid, .. } => vec![fid],
            Fcall::Tmknod { dfid, .. } => vec![dfid],
            Fcall::Trename { fid, dfid, .. } => vec![fid, dfid],
            Fcall::Treadlink { fid } => vec![fid],
            Fcall::Tgetattr { fid, .. } => vec![fid],
            Fcall::Tsetattr { fid, .. } => vec![fid],
            Fcall::Txattrwalk { fid, .. } => vec![fid],
            Fcall::Txattrcreate { fid, .. } => vec![fid],
            Fcall::Treaddir { fid, .. } => vec![fid],
            Fcall::Tfsync { fid, .. } => vec![fid],
            Fcall::Tlock { fid, .. } => vec![fid],
            Fcall::Tgetlock { fid, .. } => vec![fid],
            Fcall::Tlink { dfid, fid, .. } => vec![dfid, fid],
            Fcall::Tmkdir { dfid, .. } => vec![dfid],
            Fcall::Trenameat { olddirfid, newdirfid, .. } => vec![olddirfid, newdirfid],
            Fcall::Tunlinkat { dirfd, .. } => vec![dirfd],
            Fcall::Tattach { afid, .. } => {
                if afid != NOFID {
                    vec![afid]
                } else {
                    Vec::new()
                }
            },
            Fcall::Twalk { fid, .. } => vec![fid],
            Fcall::Tread { fid, .. } => vec![fid],
            Fcall::Twrite { fid, .. } => vec![fid],
            Fcall::Tclunk { fid, .. } => vec![fid],
            Fcall::Tremove { fid } => vec![fid],
            _ => Vec::new(),
        }
    }

    /// Get the newfid which self contains
    pub fn newfid(&self) -> (r: Option<u32>)
        ensures
            r == self@.newfid(),
    {
        match *self {
            Fcall::Txattrwalk { newfid, .. } => Some(newfid),
            Fcall::Tauth { afid, .. } => Some(afid),
            Fcall::Tattach { fid, .. } => Some(fid),
            Fcall::Twalk { newfid, .. } => Some(newfid),
            _ => None,
        }
    }

    /// Get the qids which self contains
    pub fn qids(&self) -> (r: Vec<Qid>)
        ensures
            r@ == self@.qids(),
    {
        match self {
            Fcall::Rlopen { qid, .. } => vec![*qid],
            Fcall::Rlcreate { qid, .. } => vec![*qid],
            Fcall::Rsymlink { qid } => vec![*qid],
            Fcall::Rmknod { qid } => vec![*qid],
            Fcall::Rgetattr { qid, .. } => vec![*qid],
            Fcall::Rmkdir { qid } => vec![*qid],
            Fcall::Rauth { aqid } => vec![*aqid],
            Fcall::Rattach { qid } => vec![*qid],
            Fcall::Rwalk { wqids } => {
                let mut copy: Vec<Qid> = Vec::new();
                let mut i: usize = 0;
                while i < wqids.len()
                    invariant
                        i <= wqids.len(),
                        copy@ == wqids@.take(i as int),
                    decreases wqids.len() - i,
                {
                    copy.push(wqids[i]);
                    assert(copy@ =~= wqids@.take(i + 1));
                    i = i + 1;
                }
                assert(wqids@.take(i as int) =~= wqids@);
                assert(wqids.deep_view() =~= wqids@);
                copy
            },
            _ => Vec::new(),
        }
    }
}

/// Envelope for 9P messages
#[derive(Clone, Debug, PartialEq, Eq, Hash)]
pub struct Msg {
    /// Chosen and used by the client to identify the message.
    /// The reply to the message will have the same tag
    pub tag: u16,
    /// Message body encapsulating the various 9P messages
    pub body: Fcall,
}

/// The mathematical value of a message.
pub struct MsgView {
    pub tag: u16,
    pub body: FcallView,
}

impl View for Msg {
    type V = MsgView;

    open spec fn view(&self) -> MsgView {
        MsgView { tag: self.tag, body: self.body@ }
    }
}

impl DeepView for Msg {
    type V = MsgView;

    open spec fn deep_view(&self) -> MsgView {
        self.view()
    }
}

} // verus!
