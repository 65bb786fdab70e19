use vstd::prelude::*;
use crate::errno::Errno;
use crate::pipe::{
    pipe_poll, pipe_read_step, pipe_write_step, read_pass, write_pass, PipeRingBuffer, PipeStep,
    PollState,
};

verus! {

/// One of the two ends of a local stream connection.
#[derive(Clone, Copy, Debug, PartialEq, Eq, Structural)]
pub enum Side {
    Left,
    Right,
}

/// The other end.
pub open spec fn other(side: Side) -> Side {
    match side {
        Side::Left => Side::Right,
        Side::Right => Side::Left,
    }
}

/// A connected pair of local stream sockets: two pipes, one each way.
#[derive(Debug)]
pub struct LocalStreamSocket {
    /// Bytes the left end sent that the right end has not read.
    left_to_right: PipeRingBuffer,
    /// Bytes the right end sent that the left end has not read.
    right_to_left: PipeRingBuffer,
    left_closed: bool,
    right_closed: bool,
    left_nonblocking: bool,
    right_nonblocking: bool,
}

impl LocalStreamSocket {
    /// The rings are consistent.
    pub closed spec fn wf(&self) -> bool {
        self.left_to_right.wf() && self.right_to_left.wf()
    }

    /// The bytes waiting to be read by `side`, oldest first.
    pub closed spec fn incoming(&self, side: Side) -> Seq<u8> {
        match side {
            Side::Left => self.right_to_left@,
            Side::Right => self.left_to_right@,
        }
    }

    /// Whether `side` has been closed.
    pub closed spec fn is_closed(&self, side: Side) -> bool {
        match side {
            Side::Left => self.left_closed,
            Side::Right => self.right_closed,
        }
    }

    /// Whether reads on `side` do not wait.
    pub closed spec fn is_nonblocking(&self, side: Side) -> bool {
        match side {
            Side::Left => self.left_nonblocking,
            Side::Right => self.right_nonblocking,
        }
    }

    /// A new connection: nothing in flight, both ends open and blocking.
    pub fn new_pair() -> (r: Self)
        ensures
            r.wf(),
            r.incoming(Side::Left) == Seq::<u8>::empty(),
            r.incoming(Side::Right) == Seq::<u8>::empty(),
            !r.is_closed(Side::Left) && !r.is_closed(Side::Right),
            !r.is_nonblocking(Side::Left) && !r.is_nonblocking(Side::Right),
    {
        LocalStreamSocket {
            left_to_right: PipeRingBuffer::new(),
            right_to_left: PipeRingBuffer::new(),
            left_closed: false,
            right_closed: false,
            left_nonblocking: false,
            right_nonblocking: false,
        }
    }

    /// One pass of a receive on `side` that has `out` of the `want` bytes it
    /// asked for: as a read of the pipe from the other end, whose closing
    /// ends the stream.
    pub fn recv_step(&mut self, side: Side, out: &mut Vec<u8>, want: usize) -> (r: PipeStep)
        requires
            old(self).wf(),
            old(out).len() <= want,
        ensures
            final(self).wf(),
            final(self).incoming(other(side)) == old(self).incoming(other(side)),
            forall|s: Side| final(self).is_closed(s) == old(self).is_closed(s),
            forall|s: Side| final(self).is_nonblocking(s) == old(self).is_nonblocking(s),
            old(out).len() == want ==> r == PipeStep::Done(Ok(want)) && final(self).incoming(side)
                == old(self).incoming(side) && final(out)@ == old(out)@,
            old(out).len() < want && old(self).incoming(side).len() == 0 ==> {
                &&& final(self).incoming(side) == old(self).incoming(side)
                &&& final(out)@ == old(out)@
                &&& r == if old(out).len() > 0 || old(self).is_closed(other(side)) {
                    PipeStep::Done(Ok(old(out).len() as usize))
                } else if old(self).is_nonblocking(side) {
                    PipeStep::Done(Err(Errno::EAGAIN))
                } else {
                    PipeStep::Wait
                }
            },
            old(out).len() < want && old(self).incoming(side).len() > 0 ==> {
                &&& final(out)@ == old(out)@ + read_pass(old(self).incoming(side), old(out).len() as int, want as int).0
                &&& final(self).incoming(side) == read_pass(old(self).incoming(side), old(out).len() as int, want as int).1
                &&& r == PipeStep::Done(Ok(final(out).len() as usize))
            },
    {
        match side {
            Side::Left => pipe_read_step(true, &mut self.right_to_left, out, want, self.right_closed, self.left_nonblocking),
            Side::Right => pipe_read_step(true, &mut self.left_to_right, out, want, self.left_closed, self.right_nonblocking),
        }
    }

    /// One pass of a send on `side` of the bytes of `src` from `written` on:
    /// as a write to the pipe towards the other end, which refuses it once
    /// that end is closed.
    pub fn send_step(&mut self, side: Side, src: &[u8], written: usize) -> (r: (PipeStep, usize))
        requires
            old(self).wf(),
            written <= src.len(),
        ensures
            final(self).wf(),
            final(self).incoming(side) == old(self).incoming(side),
            forall|s: Side| final(self).is_closed(s) == old(self).is_closed(s),
            forall|s: Side| final(self).is_nonblocking(s) == old(self).is_nonblocking(s),
            old(self).is_closed(other(side)) ==> final(self).incoming(other(side)) == old(self).incoming(other(side))
                && r.1 == written && r.0 == if written > 0 {
                PipeStep::Done(Ok(written))
            } else {
                PipeStep::Done(Err(Errno::EPIPE))
            },
            !old(self).is_closed(other(side)) ==> {
                &&& r.1 == write_pass(old(self).incoming(other(side)), src@, written as int).1
                &&& final(self).incoming(other(side)) == write_pass(old(self).incoming(other(side)), src@, written as int).0
                &&& r.0 == if r.1 == src.len() { PipeStep::Done(Ok(src.len())) } else { PipeStep::Wait }
            },
    {
        match side {
            Side::Left => pipe_write_step(true, &mut self.left_to_right, src, written, self.right_closed),
            Side::Right => pipe_write_step(true, &mut self.right_to_left, src, written, self.left_closed),
        }
    }

    /// Readiness of `side`: readable as its incoming pipe, writable as its
    /// outgoing one.
    pub fn poll(&self, side: Side) -> (r: PollState)
        requires
            self.wf(),
        ensures
            r.readable == (self.incoming(side).len() > 0 || self.is_closed(other(side))),
            r.writable == (self.incoming(other(side)).len() < 256 || self.is_closed(other(side))),
    {
        match side {
            Side::Left => {
                let read = pipe_poll(true, &self.right_to_left, self.right_closed);
                let write = pipe_poll(false, &self.left_to_right, self.right_closed);
                PollState { readable: read.readable, writable: write.writable }
            },
            Side::Right => {
                let read = pipe_poll(true, &self.left_to_right, self.left_closed);
                let write = pipe_poll(false, &self.right_to_left, self.left_closed);
                PollState { readable: read.readable, writable: write.writable }
            },
        }
    }

    /// Switches whether reads on `side` wait.
    pub fn set_nonblocking(&mut self, side: Side, nonblocking: bool)
        requires
            old(self).wf(),
        ensures
            final(self).wf(),
            final(self).is_nonblocking(side) == nonblocking,
            final(self).is_nonblocking(other(side)) == old(self).is_nonblocking(other(side)),
            forall|s: Side| final(self).incoming(s) == old(self).incoming(s),
            forall|s: Side| final(self).is_closed(s) == old(self).is_closed(s),
    {
        match side {
            Side::Left => self.left_nonblocking = nonblocking,
            Side::Right => self.right_nonblocking = nonblocking,
        }
    }

    /// `shutdown`: accepted, with no effect.
    pub fn shutdown(&self, side: Side) -> (r: Result<(), Errno>)
        ensures
            r is Ok,
    {
        Ok(())
    }

    /// Closes `side`, as dropping its socket does.
    pub fn close(&mut self, side: Side)
        requires
            old(self).wf(),
        ensures
            final(self).wf(),
            final(self).is_closed(side),
            final(self).is_closed(other(side)) == old(self).is_closed(other(side)),
            forall|s: Side| final(self).incoming(s) == old(self).incoming(s),
            forall|s: Side| final(self).is_nonblocking(s) == old(self).is_nonblocking(s),
    {
        match side {
            Side::Left => self.left_closed = true,
            Side::Right => self.right_closed = true,
        }
    }
}

/// A stream is first in, first out between its ends: what one end sends in
/// two sends over an empty connection with room for both is, in the order
/// it was sent, what the other end has to receive, and one receive of that
/// many bytes takes all of it.
pub proof fn stream_delivers_in_order(
    s0: LocalStreamSocket,
    s1: LocalStreamSocket,
    s2: LocalStreamSocket,
    side: Side,
    a: Seq<u8>,
    b: Seq<u8>,
)
    requires
        s0.incoming(other(side)).len() == 0,
        a.len() + b.len() <= 256,
        s1.incoming(other(side)) == write_pass(s0.incoming(other(side)), a, 0).0,
        s2.incoming(other(side)) == write_pass(s1.incoming(other(side)), b, 0).0,
    ensures
        s2.incoming(other(side)) == a + b,
        read_pass(s2.incoming(other(side)), 0, (a.len() + b.len()) as int) == (a + b, Seq::<u8>::empty()),
{
    assert(s0.incoming(other(side)) =~= Seq::<u8>::empty());
    crate::pipe::pipe_fifo(a, b);
    assert(a.subrange(0, a.len() as int) =~= a);
    assert(b.subrange(0, b.len() as int) =~= b);
    assert(s1.incoming(other(side)) =~= a);
    assert(s2.incoming(other(side)) =~= a + b);
}

} // verus!
