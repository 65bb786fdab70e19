use vstd::prelude::*;
use crate::errno::Errno;

verus! {

/// Capacity in bytes of a pipe's ring buffer.
pub const PIPE_BUF_SIZE: usize = 256;

/// Fill state of a ring buffer; head and tail coincide both when it is empty
/// and when it is full, and this tells the two apart.
#[derive(Clone, Copy, PartialEq, Eq, Structural, Debug)]
pub enum RingBufferStatus {
    Full,
    Empty,
    Normal,
}

/// The byte queue shared by the two ends of a pipe.
#[derive(Debug)]
pub struct PipeRingBuffer {
    data: [u8; 256],
    head: usize,
    tail: usize,
    status: RingBufferStatus,
}

impl PipeRingBuffer {
    /// Number of bytes held, as the positions and the status say.
    pub closed spec fn len_spec(&self) -> nat {
        if self.status == RingBufferStatus::Empty {
            0
        } else if self.status == RingBufferStatus::Full {
            256
        } else if self.tail > self.head {
            (self.tail - self.head) as nat
        } else {
            (self.tail + 256 - self.head) as nat
        }
    }

    /// The internal consistency of positions and status.
    pub closed spec fn wf(&self) -> bool {
        &&& self.head < 256
        &&& self.tail < 256
        &&& (self.status == RingBufferStatus::Normal ==> self.head != self.tail)
        &&& (self.status != RingBufferStatus::Normal ==> self.head == self.tail)
    }

    /// The bytes held, oldest first.
    pub closed spec fn view(&self) -> Seq<u8> {
        Seq::new(self.len_spec(), |i: int| self.data[(self.head + i) % 256])
    }

    /// An empty buffer.
    pub fn new() -> (r: Self)
        ensures
            r.wf(),
            r@ == Seq::<u8>::empty(),
    {
        let r = PipeRingBuffer { data: [0u8; 256], head: 0, tail: 0, status: RingBufferStatus::Empty };
        assert(r@ =~= Seq::<u8>::empty());
        r
    }

    /// Appends `byte` at the back.
    pub fn write_byte(&mut self, byte: u8)
        requires
            old(self).wf(),
            old(self)@.len() < 256,
        ensures
            final(self).wf(),
            final(self)@ == old(self)@.push(byte),
    {
        let ghost before = self@;
        self.status = RingBufferStatus::Normal;
        let t = self.tail;
        self.data[t] = byte;
        self.tail = (self.tail + 1) % PIPE_BUF_SIZE;
        if self.tail == self.head {
            self.status = RingBufferStatus::Full;
        }
        assert(self@ =~= before.push(byte));
    }

    /// Removes and returns the byte at the front.
    pub fn read_byte(&mut self) -> (byte: u8)
        requires
            old(self).wf(),
            old(self)@.len() > 0,
        ensures
            final(self).wf(),
            byte == old(self)@[0],
            final(self)@ == old(self)@.drop_first(),
    {
        let ghost before = self@;
        self.status = RingBufferStatus::Normal;
        let byte = self.data[self.head];
        self.head = (self.head + 1) % PIPE_BUF_SIZE;
        if self.head == self.tail {
            self.status = RingBufferStatus::Empty;
        }
        assert(self@ =~= before.drop_first());
        byte
    }

    /// Number of bytes that can be read.
    pub fn available_read(&self) -> (r: usize)
        requires
            self.wf(),
        ensures
            r == self@.len(),
    {
        if self.status == RingBufferStatus::Empty {
            0
        } else if self.status == RingBufferStatus::Full {
            PIPE_BUF_SIZE
        } else if self.tail > self.head {
            self.tail - self.head
        } else {
            self.tail + PIPE_BUF_SIZE - self.head
        }
    }

    /// Number of bytes that can be written before the buffer is full.
    pub fn available_write(&self) -> (r: usize)
        requires
            self.wf(),
        ensures
            r == 256 - self@.len(),
    {
        if self.status == RingBufferStatus::Full {
            0
        } else {
            PIPE_BUF_SIZE - self.available_read()
        }
    }
}


/// One call on a pipe's ring buffer: `write_byte` of a byte or `read_byte`.
#[derive(Clone, Copy, PartialEq, Eq, Structural, Debug)]
pub enum RingOp {
    Write(u8),
    Read,
}

/// A run of `ops` on a ring buffer fresh from `new`, step by step as
/// `write_byte` and `read_byte` state: the bytes held after it, the bytes the
/// reads returned in order, and whether each write found room
/// (`available_write() > 0`) and each read found a byte
/// (`available_read() > 0`).
pub open spec fn ring_run(ops: Seq<RingOp>) -> (Seq<u8>, Seq<u8>, bool)
    decreases ops.len(),
{
    if ops.len() == 0 {
        (Seq::empty(), Seq::empty(), true)
    } else {
        let (held, out, ok) = ring_run(ops.drop_last());
        match ops.last() {
            RingOp::Write(b) => (held.push(b), out, ok && held.len() < 256),
            RingOp::Read => (held.drop_first(), out.push(held[0]), ok && held.len() > 0),
        }
    }
}

/// The bytes of the writes among `ops`, in order.
pub open spec fn ring_written(ops: Seq<RingOp>) -> Seq<u8>
    decreases ops.len(),
{
    if ops.len() == 0 {
        Seq::empty()
    } else {
        match ops.last() {
            RingOp::Write(b) => ring_written(ops.drop_last()).push(b),
            RingOp::Read => ring_written(ops.drop_last()),
        }
    }
}

/// The number of reads among `ops`.
pub open spec fn ring_reads(ops: Seq<RingOp>) -> nat
    decreases ops.len(),
{
    if ops.len() == 0 {
        0
    } else {
        ring_reads(ops.drop_last()) + if ops.last() == RingOp::Read { 1nat } else { 0nat }
    }
}

/// Over any run of writes and reads on a fresh ring buffer, each write made
/// while there is room and each read while there is a byte, the reads return
/// the written bytes oldest first and the buffer holds the rest: what was
/// read followed by what is held is exactly what was written. It holds
/// `writes - reads` bytes, at most 256, so `available_read()` and
/// `available_write()` (its length and 256 minus it) sum to 256.
pub proof fn ring_fifo_law(ops: Seq<RingOp>)
    requires
        ring_run(ops).2,
    ensures
        ring_run(ops).1 + ring_run(ops).0 == ring_written(ops),
        ring_run(ops).0.len() <= 256,
        ring_run(ops).0.len() == ring_written(ops).len() - ring_reads(ops),
        ring_run(ops).0.len() + (256 - ring_run(ops).0.len()) == 256,
    decreases ops.len(),
{
    if ops.len() > 0 {
        let prev = ops.drop_last();
        let (held, out, ok) = ring_run(prev);
        assert(ok);
        ring_fifo_law(prev);
        match ops.last() {
            RingOp::Write(b) => {
                assert(out + held.push(b) =~= (out + held).push(b));
            },
            RingOp::Read => {
                assert(out.push(held[0]) + held.drop_first() =~= out + held);
            },
        }
    }
}

/// Readiness of a descriptor for reading and writing.
#[derive(Clone, Copy, PartialEq, Eq, Structural, Debug)]
pub struct PollState {
    pub readable: bool,
    pub writable: bool,
}

/// What one pass of a blocking pipe transfer came to.
#[derive(PartialEq, Eq, Debug)]
pub enum PipeStep {
    /// The call returns this result.
    Done(Result<usize, Errno>),
    /// Nothing can move now: the caller yields and tries again.
    Wait,
}

/// What one pass of a read takes from a ring holding `ring` for a reader
/// that has `have` of the `want` bytes it asked for, and what stays.
pub open spec fn read_pass(ring: Seq<u8>, have: int, want: int) -> (Seq<u8>, Seq<u8>) {
    let n = if ring.len() < want - have {
        ring.len() as int
    } else {
        want - have
    };
    (ring.take(n), ring.skip(n))
}

/// The ring after one pass of a write of `src` from position `written` on,
/// and how much of `src` is then written: as much as the ring has room for.
pub open spec fn write_pass(ring: Seq<u8>, src: Seq<u8>, written: int) -> (Seq<u8>, int) {
    let k = if 256 - ring.len() < src.len() - written {
        256 - ring.len()
    } else {
        src.len() - written
    };
    (ring + src.subrange(written, written + k), written + k)
}

/// A pipe is first in, first out: bytes written in two writes to an empty
/// pipe with room for both are read back in one read, in the order they were
/// written, and the pipe is empty again.
pub proof fn pipe_fifo(a: Seq<u8>, b: Seq<u8>)
    requires
        a.len() + b.len() <= 256,
    ensures
        write_pass(Seq::empty(), a, 0).1 == a.len(),
        write_pass(write_pass(Seq::empty(), a, 0).0, b, 0).1 == b.len(),
        read_pass(write_pass(write_pass(Seq::empty(), a, 0).0, b, 0).0, 0, (a.len() + b.len()) as int)
            == (a + b, Seq::<u8>::empty()),
{
    let r1 = write_pass(Seq::empty(), a, 0).0;
    assert(a.subrange(0, a.len() as int) =~= a);
    assert(r1 =~= a);
    assert(b.subrange(0, b.len() as int) =~= b);
    let r2 = write_pass(r1, b, 0).0;
    assert(r2 =~= a + b);
    assert((a + b).take((a + b).len() as int) =~= a + b);
    assert((a + b).skip((a + b).len() as int) =~= Seq::<u8>::empty());
}

/// One pass of a pipe read: moves up to `want - out.len()` bytes from the
/// ring into `out`, or says why the read ends or must wait.
pub fn pipe_read_step(
    readable: bool,
    ring: &mut PipeRingBuffer,
    out: &mut Vec<u8>,
    want: usize,
    peer_closed: bool,
    nonblocking: bool,
) -> (r: PipeStep)
    requires
        old(ring).wf(),
        old(out).len() <= want,
    ensures
        final(ring).wf(),
        !readable ==> r == PipeStep::Done(Err(Errno::EBADF)) && final(ring)@ == old(ring)@
            && final(out)@ == old(out)@,
        readable && old(out).len() == want ==> r == PipeStep::Done(Ok(want))
            && final(ring)@ == old(ring)@ && final(out)@ == old(out)@,
        readable && old(out).len() < want && old(ring)@.len() == 0 ==> {
            &&& final(ring)@ == old(ring)@
            &&& final(out)@ == old(out)@
            &&& r == if old(out).len() > 0 || peer_closed {
                PipeStep::Done(Ok(old(out).len() as usize))
            } else if nonblocking {
                PipeStep::Done(Err(Errno::EAGAIN))
            } else {
                PipeStep::Wait
            }
        },
        readable && old(out).len() < want && old(ring)@.len() > 0 ==> {
            &&& final(out)@ == old(out)@ + read_pass(old(ring)@, old(out).len() as int, want as int).0
            &&& final(ring)@ == read_pass(old(ring)@, old(out).len() as int, want as int).1
            &&& r == PipeStep::Done(Ok(final(out).len() as usize))
        },
{
    if !readable {
        return PipeStep::Done(Err(Errno::EBADF));
    }
    if out.len() >= want {
        return PipeStep::Done(Ok(out.len()));
    }
    let available = ring.available_read();
    if available == 0 {
        if out.len() > 0 || peer_closed {
            return PipeStep::Done(Ok(out.len()));
        }
        if nonblocking {
            return PipeStep::Done(Err(Errno::EAGAIN));
        }
        return PipeStep::Wait;
    }
    let ghost ring0 = ring@;
    let ghost out0 = out@;
    let n = if available < want - out.len() { available } else { want - out.len() };
    let mut i: usize = 0;
    while i < n
        invariant
            0 <= i <= n,
            n <= ring0.len(),
            ring.wf(),
            ring@ == ring0.skip(i as int),
            out@ == out0 + ring0.take(i as int),
        decreases n - i,
    {
        let b = ring.read_byte();
        out.push(b);
        i += 1;
        assert(ring@ =~= ring0.skip(i as int));
        assert(out@ =~= out0 + ring0.take(i as int));
    }
    PipeStep::Done(Ok(out.len()))
}

/// One pass of a pipe write: moves bytes of `src` from position `written` on
/// into the ring until all are in or the ring is full.
pub fn pipe_write_step(
    writable: bool,
    ring: &mut PipeRingBuffer,
    src: &[u8],
    written: usize,
    peer_closed: bool,
) -> (r: (PipeStep, usize))
    requires
        old(ring).wf(),
        written <= src.len(),
    ensures
        final(ring).wf(),
        !writable ==> r.0 == PipeStep::Done(Err(Errno::EBADF)) && final(ring)@ == old(ring)@
            && r.1 == written,
        writable && peer_closed ==> final(ring)@ == old(ring)@ && r.1 == written && r.0 == if written > 0 {
            PipeStep::Done(Ok(written))
        } else {
            PipeStep::Done(Err(Errno::EPIPE))
        },
        writable && !peer_closed ==> {
            &&& r.1 == write_pass(old(ring)@, src@, written as int).1
            &&& final(ring)@ == write_pass(old(ring)@, src@, written as int).0
            &&& r.0 == if r.1 == src.len() { PipeStep::Done(Ok(src.len())) } else { PipeStep::Wait }
        },
{
    if !writable {
        return (PipeStep::Done(Err(Errno::EBADF)), written);
    }
    if peer_closed {
        if written > 0 {
            return (PipeStep::Done(Ok(written)), written);
        }
        return (PipeStep::Done(Err(Errno::EPIPE)), written);
    }
    let ghost ring0 = ring@;
    let space = ring.available_write();
    let k = if space < src.len() - written { space } else { src.len() - written };
    let mut i: usize = 0;
    while i < k
        invariant
            0 <= i <= k,
            written + k <= src.len(),
            k + ring0.len() <= 256,
            ring.wf(),
            ring@ == ring0 + src@.subrange(written as int, written + i),
        decreases k - i,
    {
        ring.write_byte(src[written + i]);
        i += 1;
        assert(ring@ =~= ring0 + src@.subrange(written as int, written + i));
    }
    let now = written + k;
    if now == src.len() {
        (PipeStep::Done(Ok(src.len())), now)
    } else {
        (PipeStep::Wait, now)
    }
}

/// Result of a pipe write that a pending signal interrupts while it waits.
pub fn pipe_write_interrupted(written: usize) -> (r: Result<usize, Errno>)
    ensures
        r == if written > 0 { Ok(written) } else { Err::<usize, Errno>(Errno::EINTR) },
{
    if written > 0 { Ok(written) } else { Err(Errno::EINTR) }
}

/// Readiness of one end of a pipe.
pub fn pipe_poll(readable: bool, ring: &PipeRingBuffer, peer_closed: bool) -> (r: PollState)
    requires
        ring.wf(),
    ensures
        r.readable == (readable && (ring@.len() > 0 || peer_closed)),
        r.writable == (!readable && (ring@.len() < 256 || peer_closed)),
{
    PollState {
        readable: readable && (ring.available_read() > 0 || peer_closed),
        writable: !readable && (ring.available_write() > 0 || peer_closed),
    }
}

} // verus!
