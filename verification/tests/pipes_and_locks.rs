use posix_api::errno::{neg_errno, Errno};
use posix_api::localsock::{LocalStreamSocket, Side};
use posix_api::mutex::{classify_lock_attempt, unlock_outcome, LockAttempt, PthreadMutex};
use posix_api::pipe::{
    pipe_poll, pipe_read_step, pipe_write_interrupted, pipe_write_step, PipeRingBuffer, PipeStep,
    PollState,
};
use posix_api::poll::{poll_round, PollEvent, POLLERR, POLLHUP, POLLIN, POLLNVAL, POLLOUT};
use posix_api::shebang::{shebang_words, split_whitespace, ShebangError};

fn words(v: &[&str]) -> Vec<Vec<u8>> {
    v.iter().map(|s| s.as_bytes().to_vec()).collect()
}

#[test]
fn ring_buffer_is_fifo() {
    let mut ring = PipeRingBuffer::new();
    assert_eq!(ring.available_read(), 0);
    assert_eq!(ring.available_write(), 256);
    ring.write_byte(1);
    ring.write_byte(2);
    ring.write_byte(3);
    assert_eq!(ring.available_read(), 3);
    assert_eq!(ring.available_write(), 253);
    assert_eq!(ring.read_byte(), 1);
    assert_eq!(ring.read_byte(), 2);
    assert_eq!(ring.read_byte(), 3);
    assert_eq!(ring.available_read(), 0);
}

#[test]
fn ring_buffer_wraps_and_fills() {
    let mut ring = PipeRingBuffer::new();
    for i in 0..200u32 {
        ring.write_byte(i as u8);
    }
    for i in 0..200u32 {
        assert_eq!(ring.read_byte(), i as u8);
    }
    for i in 0..256u32 {
        ring.write_byte((i % 251) as u8);
    }
    assert_eq!(ring.available_write(), 0);
    assert_eq!(ring.available_read(), 256);
    for i in 0..256u32 {
        assert_eq!(ring.read_byte(), (i % 251) as u8);
    }
    assert_eq!(ring.available_read(), 0);
}

#[test]
fn pipe_write_then_read_in_order() {
    let mut ring = PipeRingBuffer::new();
    let (step, n) = pipe_write_step(true, &mut ring, b"hello", 0, false);
    assert_eq!(step, PipeStep::Done(Ok(5)));
    assert_eq!(n, 5);
    let (step, n) = pipe_write_step(true, &mut ring, b" world", 0, false);
    assert_eq!(step, PipeStep::Done(Ok(6)));
    assert_eq!(n, 6);
    let mut out = Vec::new();
    let step = pipe_read_step(true, &mut ring, &mut out, 11, false, false);
    assert_eq!(step, PipeStep::Done(Ok(11)));
    assert_eq!(out, b"hello world".to_vec());
    assert_eq!(ring.available_read(), 0);
}

#[test]
fn pipe_read_takes_at_most_what_was_asked() {
    let mut ring = PipeRingBuffer::new();
    pipe_write_step(true, &mut ring, b"abcdef", 0, false);
    let mut out = Vec::new();
    let step = pipe_read_step(true, &mut ring, &mut out, 4, false, false);
    assert_eq!(step, PipeStep::Done(Ok(4)));
    assert_eq!(out, b"abcd".to_vec());
    assert_eq!(ring.available_read(), 2);
}

#[test]
fn pipe_read_on_empty_ring() {
    let mut ring = PipeRingBuffer::new();
    let mut out = Vec::new();
    assert_eq!(pipe_read_step(true, &mut ring, &mut out, 4, false, false), PipeStep::Wait);
    assert_eq!(
        pipe_read_step(true, &mut ring, &mut out, 4, false, true),
        PipeStep::Done(Err(Errno::EAGAIN))
    );
    assert_eq!(pipe_read_step(true, &mut ring, &mut out, 4, true, false), PipeStep::Done(Ok(0)));
    assert_eq!(
        pipe_read_step(false, &mut ring, &mut out, 4, false, false),
        PipeStep::Done(Err(Errno::EBADF))
    );
    let mut partial = vec![7u8];
    assert_eq!(pipe_read_step(true, &mut ring, &mut partial, 4, false, false), PipeStep::Done(Ok(1)));
    let mut full = vec![1u8, 2];
    assert_eq!(pipe_read_step(true, &mut ring, &mut full, 2, false, false), PipeStep::Done(Ok(2)));
}

#[test]
fn pipe_write_waits_when_full() {
    let mut ring = PipeRingBuffer::new();
    let big = vec![9u8; 300];
    let (step, n) = pipe_write_step(true, &mut ring, &big, 0, false);
    assert_eq!(step, PipeStep::Wait);
    assert_eq!(n, 256);
    let mut out = Vec::new();
    pipe_read_step(true, &mut ring, &mut out, 100, false, false);
    assert_eq!(out.len(), 100);
    let (step, n) = pipe_write_step(true, &mut ring, &big, 256, false);
    assert_eq!(step, PipeStep::Done(Ok(300)));
    assert_eq!(n, 300);
    assert_eq!(ring.available_read(), 200);
}

#[test]
fn pipe_write_errors() {
    let mut ring = PipeRingBuffer::new();
    assert_eq!(pipe_write_step(false, &mut ring, b"x", 0, false), (PipeStep::Done(Err(Errno::EBADF)), 0));
    assert_eq!(pipe_write_step(true, &mut ring, b"x", 0, true), (PipeStep::Done(Err(Errno::EPIPE)), 0));
    assert_eq!(pipe_write_step(true, &mut ring, b"xy", 1, true), (PipeStep::Done(Ok(1)), 1));
    assert_eq!(pipe_write_interrupted(0), Err(Errno::EINTR));
    assert_eq!(pipe_write_interrupted(3), Ok(3));
}

#[test]
fn pipe_readiness() {
    let mut ring = PipeRingBuffer::new();
    assert_eq!(pipe_poll(true, &ring, false), PollState { readable: false, writable: false });
    assert_eq!(pipe_poll(true, &ring, true), PollState { readable: true, writable: false });
    assert_eq!(pipe_poll(false, &ring, false), PollState { readable: false, writable: true });
    ring.write_byte(1);
    assert_eq!(pipe_poll(true, &ring, false), PollState { readable: true, writable: false });
}

#[test]
fn poll_round_fills_revents() {
    let mut events = vec![
        PollEvent { fd: 3, events: POLLIN | POLLOUT, revents: 0 },
        PollEvent { fd: -1, events: POLLIN, revents: 0 },
        PollEvent { fd: 9, events: POLLIN, revents: 0 },
        PollEvent { fd: 4, events: POLLOUT, revents: 0 },
        PollEvent { fd: 5, events: POLLIN, revents: 0 },
    ];
    let results = vec![
        Ok(PollState { readable: true, writable: false }),
        Ok(PollState { readable: true, writable: true }),
        Err(Errno::EBADF),
        Err(Errno::EIO),
        Ok(PollState { readable: false, writable: true }),
    ];
    let n = poll_round(&mut events, &results);
    assert_eq!(n, 3);
    assert_eq!(events[0].revents, POLLIN);
    assert_eq!(events[1].revents, 0);
    assert_eq!(events[2].revents, POLLNVAL);
    assert_eq!(events[3].revents, POLLERR | POLLHUP);
    assert_eq!(events[4].revents, 0);
}

#[test]
fn mutex_attempts() {
    let m = PthreadMutex::new();
    let mut first = m.try_lock(7);
    while let LockAttempt::Busy(0) = first {
        first = m.try_lock(7);
    }
    assert_eq!(first, LockAttempt::Acquired);
    assert_eq!(m.try_lock(7), LockAttempt::Reentrant);
    assert_eq!(m.try_lock(8), LockAttempt::Busy(7));
    assert_eq!(m.unlock(8), Err(7));
    assert_eq!(m.unlock(8), Err(0));
    let mut again = m.try_lock(8);
    while let LockAttempt::Busy(0) = again {
        again = m.try_lock(8);
    }
    assert_eq!(again, LockAttempt::Acquired);
    assert_eq!(m.unlock(8), Ok(()));
}

#[test]
fn mutex_outcome_rules() {
    assert_eq!(classify_lock_attempt(Ok(0), 5), LockAttempt::Acquired);
    assert_eq!(classify_lock_attempt(Err(5), 5), LockAttempt::Reentrant);
    assert_eq!(classify_lock_attempt(Err(6), 5), LockAttempt::Busy(6));
    assert_eq!(unlock_outcome(5, 5), Ok(()));
    assert_eq!(unlock_outcome(4, 5), Err(4));
}

#[test]
fn shebang_lines() {
    assert_eq!(shebang_words(b"\x7fELF"), Ok(None));
    assert_eq!(shebang_words(b"#"), Ok(None));
    assert_eq!(shebang_words(b"#!/bin/sh\necho hi\n"), Ok(Some(words(&["/bin/sh"]))));
    assert_eq!(
        shebang_words(b"#!  /usr/bin/env   python3 -u\nprint()"),
        Ok(Some(words(&["/usr/bin/env", "python3", "-u"])))
    );
    assert_eq!(shebang_words(b"#!/bin/busybox sh"), Ok(Some(words(&["/bin/busybox", "sh"]))));
    assert_eq!(shebang_words(b"#!   \nrest"), Err(ShebangError::Empty));
    assert_eq!(shebang_words(b"#!\n"), Err(ShebangError::Empty));
    assert_eq!(shebang_words(b"#!/bin/\xff\xfe\n"), Err(ShebangError::Invalid));
}

#[test]
fn whitespace_split_matches_std() {
    let cases: [&str; 6] = ["", "   ", "a b", "\ta\n\x0bb\x0c c\r", "x\u{a0}y", "p\u{3000}q\u{2028}r\u{85}s"];
    for c in cases.iter() {
        let expected: Vec<Vec<u8>> = c.split_whitespace().map(|w| w.as_bytes().to_vec()).collect();
        assert_eq!(split_whitespace(c.as_bytes()), expected, "case {:?}", c);
    }
}

#[test]
fn error_numbers() {
    assert_eq!(Errno::EPERM.code(), 1);
    assert_eq!(Errno::ENOENT.code(), 2);
    assert_eq!(Errno::EBADF.code(), 9);
    assert_eq!(Errno::EAGAIN.code(), 11);
    assert_eq!(Errno::EINVAL.code(), 22);
    assert_eq!(Errno::EMFILE.code(), 24);
    assert_eq!(Errno::EPIPE.code(), 32);
    assert_eq!(Errno::ENOSYS.code(), 38);
    assert_eq!(Errno::ETIMEDOUT.code(), 110);
    assert_eq!(neg_errno(Errno::EINTR), -4);
    assert_eq!(neg_errno(Errno::ECONNREFUSED), -111);
}

#[test]
fn local_stream_pairs() {
    let mut s = LocalStreamSocket::new_pair();
    assert_eq!(s.poll(Side::Left), PollState { readable: false, writable: true });
    let (step, n) = s.send_step(Side::Left, b"ping", 0);
    assert_eq!((step, n), (PipeStep::Done(Ok(4)), 4));
    assert_eq!(s.poll(Side::Right), PollState { readable: true, writable: true });
    assert_eq!(s.poll(Side::Left), PollState { readable: false, writable: true });
    let mut out = Vec::new();
    assert_eq!(s.recv_step(Side::Right, &mut out, 10), PipeStep::Done(Ok(4)));
    assert_eq!(out, b"ping".to_vec());
    let mut none = Vec::new();
    assert_eq!(s.recv_step(Side::Right, &mut none, 10), PipeStep::Wait);
    s.set_nonblocking(Side::Right, true);
    assert_eq!(s.recv_step(Side::Right, &mut none, 10), PipeStep::Done(Err(Errno::EAGAIN)));
    assert_eq!(s.send_step(Side::Right, b"pong", 0), (PipeStep::Done(Ok(4)), 4));
    let mut back = Vec::new();
    assert_eq!(s.recv_step(Side::Left, &mut back, 2), PipeStep::Done(Ok(2)));
    assert_eq!(back, b"po".to_vec());
    assert_eq!(s.shutdown(Side::Left), Ok(()));
    s.close(Side::Left);
    assert_eq!(s.send_step(Side::Right, b"x", 0), (PipeStep::Done(Err(Errno::EPIPE)), 0));
    let mut rest = Vec::new();
    assert_eq!(s.recv_step(Side::Right, &mut rest, 5), PipeStep::Done(Ok(0)));
    assert_eq!(s.poll(Side::Right), PollState { readable: true, writable: true });
}

#[test]
fn ring_keeps_fifo_order_over_a_long_run() {
    let mut ring = PipeRingBuffer::new();
    assert_eq!((ring.available_read(), ring.available_write()), (0, 256));
    let mut written: Vec<u8> = Vec::new();
    let mut read: Vec<u8> = Vec::new();
    let mut next: u8 = 0;
    for round in 0..40usize {
        for _ in 0..(round * 7 % 200) {
            if ring.available_write() > 0 {
                ring.write_byte(next);
                written.push(next);
                next = next.wrapping_add(13);
            }
        }
        for _ in 0..(round * 5 % 180) {
            if ring.available_read() > 0 {
                read.push(ring.read_byte());
            }
        }
        assert_eq!(ring.available_read() + ring.available_write(), 256);
        assert_eq!(ring.available_read(), written.len() - read.len());
        assert_eq!(&written[..read.len()], &read[..]);
    }
}
