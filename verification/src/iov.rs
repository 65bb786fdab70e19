use vstd::prelude::*;
use crate::errno::Errno;

verus! {

/// Most buffers one `readv` or `writev` call takes.
pub const IOV_MAX: u64 = 1024;
/// Size in bytes of one `struct iovec`.
pub const IOVEC_SIZE: usize = 16;

/// One buffer of a vectored transfer.
#[derive(Clone, Copy, Debug, PartialEq, Eq, Structural)]
pub struct IoVec {
    pub base: u64,
    pub len: u64,
}

/// `readv` and `writev` refuse more than `IOV_MAX` buffers.
pub fn check_iovcnt(iovcnt: u64) -> (r: Result<(), Errno>)
    ensures
        r == if iovcnt > IOV_MAX {
            Err::<(), Errno>(Errno::EINVAL)
        } else {
            Ok(())
        },
{
    if iovcnt > IOV_MAX {
        Err(Errno::EINVAL)
    } else {
        Ok(())
    }
}

/// The number whose little-endian bytes are `b[off..off + 8]`.
pub open spec fn le_u64_at(b: Seq<u8>, off: int) -> int {
    b[off] + 0x100 * b[off + 1] + 0x1_0000 * b[off + 2] + 0x100_0000 * b[off + 3] + 0x1_0000_0000
        * b[off + 4] + 0x100_0000_0000 * b[off + 5] + 0x1_0000_0000_0000 * b[off + 6]
        + 0x100_0000_0000_0000 * b[off + 7]
}

/// Reads a little-endian word.
fn read_le_u64(b: &[u8], off: usize) -> (r: u64)
    requires
        off + 8 <= b@.len(),
    ensures
        r == le_u64_at(b@, off as int),
{
    b[off] as u64 + 0x100 * (b[off + 1] as u64) + 0x1_0000 * (b[off + 2] as u64) + 0x100_0000 * (
    b[off + 3] as u64) + 0x1_0000_0000 * (b[off + 4] as u64) + 0x100_0000_0000 * (b[off
        + 5] as u64) + 0x1_0000_0000_0000 * (b[off + 6] as u64) + 0x100_0000_0000_0000 * (b[off
        + 7] as u64)
}

/// The buffers described by the `struct iovec` array `b` (little-endian
/// base and length); bytes after the last whole entry are ignored.
pub open spec fn iovecs_of(b: Seq<u8>) -> Seq<IoVec> {
    Seq::new(
        b.len() / 16,
        |i: int| IoVec { base: le_u64_at(b, 16 * i) as u64, len: le_u64_at(b, 16 * i + 8) as u64 },
    )
}

/// Reads the `struct iovec` array `b`.
pub fn parse_iovecs(b: &[u8]) -> (r: Vec<IoVec>)
    ensures
        r@ == iovecs_of(b@),
{
    let n = b.len() / IOVEC_SIZE;
    let mut out: Vec<IoVec> = Vec::new();
    let mut i: usize = 0;
    while i < n
        invariant
            n == b@.len() / 16,
            i <= n,
            out@ =~= iovecs_of(b@).take(i as int),
        decreases n - i,
    {
        assert(16 * i + 16 <= b@.len()) by (nonlinear_arith)
            requires
                i < n,
                n == b@.len() / 16,
        ;
        let blen = b.len();
        assert(16 * i <= blen);
        let off = 16 * i;
        let base = read_le_u64(b, off);
        let len = read_le_u64(b, off + 8);
        out.push(IoVec { base, len });
        i = i + 1;
    }
    out
}

/// A vectored transfer in progress: the buffers, the next one to move, and
/// the bytes moved so far.
#[derive(Debug)]
pub struct VectoredTransfer {
    pub iovs: Vec<IoVec>,
    pub next: usize,
    pub total: u64,
    pub done: bool,
}

impl VectoredTransfer {
    /// A transfer over `iovs` that has moved nothing yet.
    pub fn new(iovs: Vec<IoVec>) -> (r: Self)
        ensures
            r.iovs@ == iovs@,
            r.next == 0,
            r.total == 0,
            !r.done,
    {
        VectoredTransfer { iovs, next: 0, total: 0, done: false }
    }

    /// The next non-empty buffer to move, skipping empty ones; `None` once
    /// the transfer has ended (all buffers moved, or one moved short).
    pub fn next_buffer(&mut self) -> (r: Option<IoVec>)
        requires
            old(self).next <= old(self).iovs@.len(),
        ensures
            final(self).iovs@ == old(self).iovs@,
            final(self).total == old(self).total,
            final(self).done == old(self).done,
            final(self).next <= final(self).iovs@.len(),
            old(self).next <= final(self).next,
            forall|i: int| old(self).next <= i < final(self).next ==> (#[trigger] old(self).iovs@[i]).len == 0,
            old(self).done ==> r is None && final(self).next == old(self).next,
            !old(self).done ==> match r {
                Some(v) => final(self).next < final(self).iovs@.len() && v == final(self).iovs@[final(self).next as int] && v.len > 0,
                None => final(self).next == final(self).iovs@.len(),
            },
    {
        if self.done {
            return None;
        }
        while self.next < self.iovs.len() && self.iovs[self.next].len == 0
            invariant
                self.iovs@ == old(self).iovs@,
                self.total == old(self).total,
                self.done == old(self).done,
                old(self).next <= self.next <= self.iovs@.len(),
                forall|i: int| old(self).next <= i < self.next ==> (#[trigger] old(self).iovs@[i]).len == 0,
            decreases self.iovs@.len() - self.next,
        {
            self.next = self.next + 1;
        }
        if self.next < self.iovs.len() {
            Some(self.iovs[self.next])
        } else {
            None
        }
    }

    /// Records that `n` bytes of the current buffer moved: the total grows
    /// by `n`, and a short move ends the transfer.
    pub fn record(&mut self, n: u64)
        requires
            old(self).next < old(self).iovs@.len(),
            old(self).total + n <= u64::MAX,
        ensures
            final(self).iovs@ == old(self).iovs@,
            final(self).total == old(self).total + n,
            final(self).next == old(self).next + 1,
            final(self).done == (old(self).done || n < old(self).iovs@[old(self).next as int].len),
    {
        let count = self.iovs.len();
        let len = self.iovs[self.next].len;
        assert(self.next < count);
        self.total = self.total + n;
        self.next = self.next + 1;
        if n < len {
            self.done = true;
        }
    }
}

/// The vector count of the file layer's `writev(fd, iov, iocnt)`: `EINVAL`
/// outside 0 to 1024, nothing to do (0) for an empty vector, `EFAULT` for a
/// null vector, the count otherwise.
pub fn writev_count(iocnt: i32, iov_null: bool) -> (r: Result<usize, Errno>)
    ensures
        r == if iocnt < 0 || iocnt > 1024 {
            Err::<usize, Errno>(Errno::EINVAL)
        } else if iocnt == 0 {
            Ok(0usize)
        } else if iov_null {
            Err(Errno::EFAULT)
        } else {
            Ok(iocnt as usize)
        },
{
    if iocnt < 0 || iocnt > 1024 {
        Err(Errno::EINVAL)
    } else if iocnt == 0 {
        Ok(0)
    } else if iov_null {
        Err(Errno::EFAULT)
    } else {
        Ok(iocnt as usize)
    }
}

} // verus!
