use posix_api::errno::Errno;
use posix_api::iov::{check_iovcnt, parse_iovecs, IoVec, VectoredTransfer};
use posix_api::riscv::{riscv_b_type_next_pc, riscv_branch_next_pc, riscv_compressed_branch_next_pc, sign_extend};
use posix_api::signal::{signal_entry, SignalEntry};
use posix_api::sockets::{new_fd_flags, socket_flags, socketpair_check, NewFdFlags};
use posix_api::sockopt::{
    buffer_size_of, getsockopt_reply, reads_len, setsockopt_plan, socket_option, SetPlan, SockOpt,
    SockOptState,
};
use posix_api::stack::{build_initial_stack, words_to_bytes};
use posix_api::syscall::{classify_syscall, syscall_result, yields_to_exit_group, Syscall};

#[test]
fn syscall_numbers() {
    assert_eq!(classify_syscall(63), Some(Syscall::Read));
    assert_eq!(classify_syscall(64), Some(Syscall::Write));
    assert_eq!(classify_syscall(220), Some(Syscall::Clone));
    assert_eq!(classify_syscall(98), Some(Syscall::Futex));
    assert_eq!(classify_syscall(174), Some(Syscall::Zero));
    assert_eq!(classify_syscall(228), Some(Syscall::Zero));
    assert_eq!(classify_syscall(94), Some(Syscall::ExitGroup));
    assert_eq!(classify_syscall(1000), None);
    assert_eq!(classify_syscall(194), None);
    assert!(yields_to_exit_group(63));
    assert!(!yields_to_exit_group(93));
    assert!(!yields_to_exit_group(94));
}

#[test]
fn riscv_branches() {
    assert_eq!(sign_extend(0x1ffe, 13), -2);
    assert_eq!(sign_extend(0x0ffe, 13), 0xffe);
    assert_eq!(sign_extend(0x100, 9), -256);
    // beq a0, zero, +8: imm[3] = bit 9 (imm[4:1] at bits 11:8).
    let beqz = 0x63 | (10 << 15) | (0 << 20) | (4 << 8);
    assert_eq!(riscv_b_type_next_pc(0x1000, beqz, 0), Some(0x1008));
    assert_eq!(riscv_b_type_next_pc(0x1000, beqz, 1), Some(0x1004));
    // bne zero, a0, -4
    let bnez_back = 0x63 | (1 << 12) | (0 << 15) | (10 << 20) | (1u32 << 31) | (0x3f << 25) | (0xe << 8) | (1 << 7);
    assert_eq!(riscv_b_type_next_pc(0x1000, bnez_back, 5), Some(0xffc));
    assert_eq!(riscv_b_type_next_pc(0x1000, 0x13, 0), None);
    // c.beqz a0, +4: rs1' = 2 (a0), offset bit 2 at inst bit 11? offset[2:1] at bits 4:3.
    let cbeqz: u16 = 0x1 | (6 << 13) | (2 << 7) | (2 << 3);
    assert_eq!(riscv_compressed_branch_next_pc(0x2000, cbeqz, 0), Some(0x2004));
    assert_eq!(riscv_compressed_branch_next_pc(0x2000, cbeqz, 3), Some(0x2002));
    let cbnez: u16 = 0x1 | (7 << 13) | (2 << 7) | (2 << 3);
    assert_eq!(riscv_compressed_branch_next_pc(0x2000, cbnez, 3), Some(0x2004));
    assert_eq!(riscv_compressed_branch_next_pc(0x2000, 0x1 | (6 << 13) | (3 << 7), 0), None);
}

#[test]
fn vectored_io() {
    assert_eq!(check_iovcnt(1024), Ok(()));
    assert_eq!(check_iovcnt(1025), Err(Errno::EINVAL));
    let mut raw = Vec::new();
    for (b, l) in [(0x1000u64, 4u64), (0x2000, 0), (0x3000, 8)] {
        raw.extend_from_slice(&b.to_le_bytes());
        raw.extend_from_slice(&l.to_le_bytes());
    }
    raw.push(9);
    let iovs = parse_iovecs(&raw);
    assert_eq!(iovs, vec![IoVec { base: 0x1000, len: 4 }, IoVec { base: 0x2000, len: 0 }, IoVec { base: 0x3000, len: 8 }]);
    let mut t = VectoredTransfer::new(iovs);
    assert_eq!(t.next_buffer(), Some(IoVec { base: 0x1000, len: 4 }));
    t.record(4);
    assert_eq!(t.next_buffer(), Some(IoVec { base: 0x3000, len: 8 }));
    t.record(3);
    assert_eq!(t.next_buffer(), None);
    assert_eq!(t.total, 7);
}

#[test]
fn signal_frames() {
    assert_eq!(signal_entry(0, 0x8000, 0x400, 0x3f0, 0, 0x80, 10), None);
    assert_eq!(signal_entry(1, 0x8000, 0x400, 0x3f0, 0, 0x80, 10), None);
    assert_eq!(
        signal_entry(0x4000, 0x8008, 0x400, 0x3f0, 0, 0x80, 10),
        Some(SignalEntry { frame: 0x7c00, ra: 0x7ff0, a0: 10, a1: 0x7c00, a2: 0x7c80, pc: 0x4000 })
    );
}

#[test]
fn socket_argument_checks() {
    assert_eq!(socket_flags(1 | 0o2000000), NewFdFlags { cloexec: true, nonblock: false, base_type: 1 });
    assert_eq!(socketpair_check(1, 1 | 0o4000, 0, 0x1000), Ok(NewFdFlags { cloexec: false, nonblock: true, base_type: 1 }));
    assert_eq!(socketpair_check(1, 1, 0, 0), Err(Errno::EFAULT));
    assert_eq!(socketpair_check(2, 1, 0, 0x1000), Err(Errno::EAFNOSUPPORT));
    assert_eq!(socketpair_check(1, 2, 0, 0x1000), Err(Errno::EINVAL));
    assert_eq!(socketpair_check(1, 1, 6, 0x1000), Err(Errno::EINVAL));
    assert_eq!(new_fd_flags(0o2004000), Ok(NewFdFlags { cloexec: true, nonblock: true, base_type: 0 }));
    assert_eq!(new_fd_flags(1), Err(Errno::EINVAL));
}

#[test]
fn socket_options() {
    assert_eq!(socket_option(1, 20), Some(SockOpt::RecvTimeout));
    assert_eq!(socket_option(6, 13), Some(SockOpt::TcpCongestion));
    assert_eq!(socket_option(6, 99), None);
    assert_eq!(setsockopt_plan(Some(SockOpt::RecvTimeout), 0, 16), Err(Errno::EFAULT));
    assert_eq!(setsockopt_plan(Some(SockOpt::SendTimeout), 0x10, 16), Ok(SetPlan::Timeout { recv: false }));
    assert_eq!(setsockopt_plan(Some(SockOpt::RecvBuf), 0x10, 2), Err(Errno::EINVAL));
    assert_eq!(setsockopt_plan(Some(SockOpt::SendBuf), 0x10, 4), Ok(SetPlan::BufSize { recv: false }));
    assert_eq!(setsockopt_plan(Some(SockOpt::KeepAlive), 0x10, 0), Err(Errno::EFAULT));
    assert_eq!(setsockopt_plan(Some(SockOpt::ReuseAddr), 0x10, 4), Ok(SetPlan::Ignore));
    assert_eq!(setsockopt_plan(Some(SockOpt::TcpNoDelay), 0x10, 4), Ok(SetPlan::NoDelay));
    assert_eq!(setsockopt_plan(Some(SockOpt::Type), 0x10, 4), Err(Errno::EINVAL));
    assert_eq!(setsockopt_plan(None, 0x10, 4), Err(Errno::EINVAL));
    assert_eq!(buffer_size_of(-1), Err(Errno::EINVAL));
    assert_eq!(buffer_size_of(4096), Ok(4096));
    assert!(reads_len(SockOpt::Type));
    assert!(!reads_len(SockOpt::Error));
    let st = SockOptState {
        socket_type: 1,
        recv_buf: 65536,
        send_buf: 4096,
        recv_timeout_us: 2_000_500,
        send_timeout_us: 0,
        pending_error: 111,
        nodelay: Ok(true),
    };
    let r = getsockopt_reply(Some(SockOpt::Type), 4, st).unwrap();
    assert_eq!((r.value, r.len), (vec![1, 0, 0, 0], 4));
    assert_eq!(getsockopt_reply(Some(SockOpt::Type), 2, st).unwrap_err(), Errno::EINVAL);
    let r = getsockopt_reply(Some(SockOpt::Error), 0, st).unwrap();
    assert_eq!(r.value, vec![111, 0, 0, 0]);
    let r = getsockopt_reply(Some(SockOpt::RecvBuf), 4, st).unwrap();
    assert_eq!(r.value, 65536i32.to_le_bytes().to_vec());
    let r = getsockopt_reply(Some(SockOpt::RecvTimeout), 16, st).unwrap();
    let mut tv = 2i64.to_le_bytes().to_vec();
    tv.extend_from_slice(&500i64.to_le_bytes());
    assert_eq!((r.value, r.len), (tv, 16));
    let r = getsockopt_reply(Some(SockOpt::TcpNoDelay), 4, st).unwrap();
    assert_eq!(r.value, vec![1, 0, 0, 0]);
    let r = getsockopt_reply(Some(SockOpt::TcpMaxSeg), 4, st).unwrap();
    assert_eq!(r.value, 1460i32.to_le_bytes().to_vec());
    let r = getsockopt_reply(Some(SockOpt::TcpCongestion), 3, st).unwrap();
    assert_eq!((r.value, r.len), (b"ren".to_vec(), 3));
    let r = getsockopt_reply(Some(SockOpt::TcpCongestion), 8, st).unwrap();
    assert_eq!((r.value, r.len), (b"reno\0\0\0\0".to_vec(), 5));
    assert_eq!(getsockopt_reply(Some(SockOpt::TcpCongestion), 0, st).unwrap_err(), Errno::EINVAL);
    let r = getsockopt_reply(Some(SockOpt::TcpInfo), 6, st).unwrap();
    assert_eq!((r.value, r.len), (vec![0; 6], 6));
    assert_eq!(getsockopt_reply(Some(SockOpt::ReuseAddr), 4, st).unwrap_err(), Errno::EINVAL);
    let failing = SockOptState { nodelay: Err(Errno::ENOTSOCK), ..st };
    assert_eq!(getsockopt_reply(Some(SockOpt::TcpNoDelay), 4, failing).unwrap_err(), Errno::ENOTSOCK);
}

#[test]
fn initial_stack_layout() {
    assert_eq!(words_to_bytes(&[0x0102030405060708, 1]), vec![8, 7, 6, 5, 4, 3, 2, 1, 1, 0, 0, 0, 0, 0, 0, 0]);
    let argv = vec![b"sh".to_vec(), b"-c".to_vec()];
    let plan = build_initial_stack(0x1000, 0x10000, &argv, b"/bin/sh", b"riscv64", 0x400000, 0, 0x400040, 56, 3).unwrap();
    assert_eq!(plan.sp % 16, 0);
    // random block, path, platform, two arguments, then the words.
    assert_eq!(plan.writes.len(), 6);
    assert_eq!(plan.writes[0].addr, 0x10000 - 16);
    assert_eq!(plan.writes[0].bytes, vec![0x55; 16]);
    assert_eq!(plan.writes[1].bytes, b"/bin/sh\0".to_vec());
    assert_eq!(plan.writes[1].addr, 0x10000 - 16 - 8);
    assert_eq!(plan.writes[2].bytes, b"riscv64\0".to_vec());
    assert_eq!(plan.writes[3].bytes, b"-c\0".to_vec());
    assert_eq!(plan.writes[4].bytes, b"sh\0".to_vec());
    let words = &plan.writes[5];
    assert_eq!(words.addr, plan.sp);
    // argc, argv[0], argv[1], NULL, NULL (no environment), 20 auxv pairs.
    assert_eq!(words.bytes.len(), 8 * (1 + 2 + 2 + 40));
    assert_eq!(&words.bytes[0..8], &2u64.to_le_bytes());
    assert_eq!(&words.bytes[8..16], &plan.writes[4].addr.to_le_bytes());
    assert_eq!(&words.bytes[16..24], &plan.writes[3].addr.to_le_bytes());
    assert_eq!(&words.bytes[40..48], &6u64.to_le_bytes());
    assert_eq!(&words.bytes[48..56], &4096u64.to_le_bytes());
    assert!(build_initial_stack(0xff00, 0x10000, &argv, b"/bin/sh", b"riscv64", 0, 0, 0, 0, 0).is_err());
}

#[test]
fn branch_by_instruction_length() {
    let beqz: u32 = 0x63 | (10 << 15) | (4 << 8);
    let low = (beqz & 0xffff) as u16;
    assert_eq!(riscv_branch_next_pc(0x1000, low, Some(beqz), 0), Some(0x1008));
    assert_eq!(riscv_branch_next_pc(0x1000, low, None, 0), None);
    let cbeqz: u16 = 0x1 | (6 << 13) | (2 << 7) | (2 << 3);
    assert_eq!(riscv_branch_next_pc(0x2000, cbeqz, None, 0), Some(0x2004));
    assert_eq!(riscv_branch_next_pc(0x2000, cbeqz, Some(0), 7), Some(0x2002));
}

#[test]
fn syscalls_answered_without_handler() {
    assert_eq!(syscall_result(classify_syscall(9999), 5, 1, 7), Some(-38));
    assert_eq!(syscall_result(classify_syscall(174), 5, 1, 7), Some(0));
    assert_eq!(syscall_result(classify_syscall(172), 5, 1, 7), Some(5));
    assert_eq!(syscall_result(classify_syscall(173), 5, 1, 7), Some(1));
    assert_eq!(syscall_result(classify_syscall(178), 5, 1, 7), Some(7));
    assert_eq!(syscall_result(classify_syscall(63), 5, 1, 7), None);
}
