//! File trait and inode status.
use vstd::prelude::*;

verus! {

/// A user-space buffer, as the list of the byte ranges it spans.
pub struct UserBuffer {
    /// The byte ranges, in order.
    pub buffers: Vec<Vec<u8>>,
}

/// Total length of the first `n` ranges.
pub open spec fn total_len(bufs: Seq<Vec<u8>>, n: int) -> int
    decreases n,
{
    if n <= 0 {
        0
    } else {
        total_len(bufs, n - 1) + bufs[n - 1]@.len()
    }
}

impl UserBuffer {
    /// A buffer made of the given byte ranges.
    pub fn new(buffers: Vec<Vec<u8>>) -> (ub: Self)
        ensures
            ub.buffers@ == buffers@,
    {
        Self { buffers }
    }

    /// Total number of bytes in the buffer.
    pub fn len(&self) -> (n: usize)
        requires
            total_len(self.buffers@, self.buffers@.len() as int) <= usize::MAX,
        ensures
            n == total_len(self.buffers@, self.buffers@.len() as int),
    {
        let mut total: usize = 0;
        let mut i: usize = 0;
        while i < self.buffers.len()
            invariant
                0 <= i <= self.buffers@.len(),
                total == total_len(self.buffers@, i as int),
                total_len(self.buffers@, self.buffers@.len() as int) <= usize::MAX,
            decreases self.buffers@.len() - i,
        {
            proof {
                lemma_total_len_monotone(self.buffers@, i as int + 1, self.buffers@.len() as int);
            }
            total = total + self.buffers[i].len();
            i = i + 1;
        }
        total
    }
}

/// Total length only grows as more ranges are counted.
pub proof fn lemma_total_len_monotone(bufs: Seq<Vec<u8>>, m: int, n: int)
    requires
        m <= n,
    ensures
        total_len(bufs, m) <= total_len(bufs, n),
    decreases n - m,
{
    if m < n {
        lemma_total_len_monotone(bufs, m, n - 1);
    }
}

/// Operations every kind of file offers.
pub trait File: Send + Sync {
    /// Whether the file can be read.
    fn readable(&self) -> bool;

    /// Whether the file can be written.
    fn writable(&self) -> bool;

    /// Reads from the file into `buf`; returns the number of bytes read.
    fn read(&self, buf: UserBuffer) -> usize;

    /// Writes `buf` to the file; returns the number of bytes written.
    fn write(&self, buf: UserBuffer) -> usize;

    /// Inode number of the file.
    fn inode(&self) -> usize;

    /// Number of hard links to the file.
    fn nlink(&self) -> usize;
}

/// The mode of an inode: whether a directory or a file.
#[derive(Copy, Clone, Debug, PartialEq, Eq, Structural)]
pub struct StatMode {
    bits: u32,
}

impl StatMode {
    /// The mode bits.
    pub closed spec fn spec_bits(self) -> u32 {
        self.bits
    }

    /// The mode bits.
    pub fn bits(&self) -> (b: u32)
        ensures
            b == self.spec_bits(),
    {
        self.bits
    }

    /// No type.
    pub fn null() -> (m: Self)
        ensures
            m.spec_bits() == 0,
    {
        StatMode { bits: 0 }
    }

    /// Directory.
    pub fn dir() -> (m: Self)
        ensures
            m.spec_bits() == 0o040000,
    {
        StatMode { bits: 0o040000 }
    }

    /// Ordinary regular file.
    pub fn file() -> (m: Self)
        ensures
            m.spec_bits() == 0o100000,
    {
        StatMode { bits: 0o100000 }
    }
}

/// The status of an inode.
#[derive(Clone, Debug)]
pub struct Stat {
    /// ID of the device containing the file.
    pub dev: u64,
    /// Inode number.
    pub ino: u64,
    /// File type and mode.
    pub mode: StatMode,
    /// Number of hard links.
    pub nlink: u32,
    /// Unused padding.
    pub pad: [u64; 7],
}

impl Stat {
    /// Overwrites the status with that of a regular file with inode number
    /// `inode` and one link, on device 0.
    pub fn new(&mut self, inode: u64)
        ensures
            final(self).dev == 0,
            final(self).ino == inode,
            final(self).mode.spec_bits() == 0o100000,
            final(self).nlink == 1,
            forall|i: int| 0 <= i < 7 ==> #[trigger] final(self).pad[i] == 0,
    {
        *self = Stat { dev: 0, ino: inode, mode: StatMode::file(), nlink: 1, pad: [0; 7] };
    }
}

} // verus!
