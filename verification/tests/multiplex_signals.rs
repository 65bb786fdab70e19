use posix_api::epoll::{
    epoll_wait_capacity, EpollEvent, EpollInstance, EPOLLERR, EPOLLIN, EPOLLOUT, EPOLL_CTL_ADD,
    EPOLL_CTL_DEL, EPOLL_CTL_MOD,
};
use posix_api::errno::Errno;
use posix_api::fdset::{FdPoll, FdSets};
use posix_api::pipe::PollState;
use posix_api::signal::{
    check_sigset_size, handler_mask, kill_target, make_signal_info, musl_pthread_self,
    process_delivery, signal_is_blocked, signal_mask_bit, sigprocmask_next, validate_sigaction_signum,
    validate_signal_target, KillTarget, ProcessDelivery, SA_NODEFER, SIG_BLOCK, SIG_SETMASK,
    SIG_UNBLOCK,
};

fn ev(events: u32, data: u64) -> Option<EpollEvent> {
    Some(EpollEvent { events, data })
}

const READY_IN: FdPoll = FdPoll::Ready(PollState { readable: true, writable: false });
const READY_OUT: FdPoll = FdPoll::Ready(PollState { readable: false, writable: true });
const READY_BOTH: FdPoll = FdPoll::Ready(PollState { readable: true, writable: true });

#[test]
fn epoll_control_rules() {
    let mut ep = EpollInstance::new(0);
    assert_eq!(ep.control(EPOLL_CTL_ADD, 5, ev(EPOLLIN, 50), true), Ok(0));
    assert_eq!(ep.control(EPOLL_CTL_ADD, 3, ev(EPOLLOUT, 30), true), Ok(0));
    assert_eq!(ep.control(EPOLL_CTL_ADD, 5, ev(EPOLLIN, 51), true), Err(Errno::EEXIST));
    assert_eq!(ep.control(EPOLL_CTL_ADD, 7, None, true), Err(Errno::EFAULT));
    assert_eq!(ep.control(EPOLL_CTL_ADD, 7, ev(EPOLLIN, 70), false), Err(Errno::EBADF));
    assert_eq!(ep.control(EPOLL_CTL_MOD, 9, ev(EPOLLIN, 90), true), Err(Errno::ENOENT));
    assert_eq!(ep.control(EPOLL_CTL_DEL, 9, None, true), Err(Errno::ENOENT));
    assert_eq!(ep.control(42, 5, ev(EPOLLIN, 1), true), Err(Errno::EINVAL));
    assert_eq!(ep.len(), 2);
    assert_eq!(ep.fd_at(0), 3);
    assert_eq!(ep.fd_at(1), 5);
    assert_eq!(ep.registered_fds(), vec![3, 5]);
    assert_eq!(ep.control(EPOLL_CTL_MOD, 5, ev(EPOLLIN | EPOLLOUT, 55), true), Ok(0));
    assert_eq!(ep.control(EPOLL_CTL_DEL, 3, None, true), Ok(0));
    assert_eq!(ep.len(), 1);
    assert_eq!(ep.fd_at(0), 5);
}

#[test]
fn epoll_add_then_delete_leaves_nothing() {
    let mut ep = EpollInstance::new(0);
    assert_eq!(ep.control(EPOLL_CTL_ADD, 4, ev(EPOLLIN, 1), true), Ok(0));
    assert_eq!(ep.control(EPOLL_CTL_DEL, 4, None, true), Ok(0));
    assert_eq!(ep.len(), 0);
}

#[test]
fn epoll_wait_reports_ready_events() {
    let mut ep = EpollInstance::new(0);
    ep.control(EPOLL_CTL_ADD, 1, ev(EPOLLIN | EPOLLOUT, 10), true).unwrap();
    ep.control(EPOLL_CTL_ADD, 2, ev(EPOLLIN | EPOLLERR, 20), true).unwrap();
    ep.control(EPOLL_CTL_ADD, 3, ev(EPOLLOUT, 30), true).unwrap();
    let polls = [READY_BOTH, FdPoll::Failed, READY_IN];
    let mut out = Vec::new();
    assert_eq!(ep.poll_all(&mut out, 10, &polls), Ok(3));
    assert_eq!(
        out,
        vec![
            EpollEvent { events: EPOLLIN, data: 10 },
            EpollEvent { events: EPOLLOUT, data: 10 },
            EpollEvent { events: EPOLLERR, data: 20 },
        ]
    );
    let mut out = Vec::new();
    assert_eq!(ep.poll_all(&mut out, 1, &polls), Ok(1));
    assert_eq!(out, vec![EpollEvent { events: EPOLLIN, data: 10 }]);
    let mut out = Vec::new();
    assert_eq!(ep.poll_all(&mut out, 10, &[READY_OUT, FdPoll::Missing, READY_OUT]), Err(Errno::EBADF));
    assert_eq!(epoll_wait_capacity(0), Err(Errno::EINVAL));
    assert_eq!(epoll_wait_capacity(-3), Err(Errno::EINVAL));
    assert_eq!(epoll_wait_capacity(16), Ok(16));
}

#[test]
fn select_sets() {
    let mut req = FdSets::empty(70);
    assert_eq!(req.nfds, 70);
    assert_eq!(req.nfds_words(), 2);
    req.set_fd(0, 0);
    req.set_fd(0, 65);
    req.set_fd(1, 1);
    req.set_fd(2, 2);
    assert_eq!(req.words(0)[0], 1);
    assert_eq!(req.words(0)[1], 2);
    let mut polls = vec![READY_OUT; 70];
    polls[0] = READY_IN;
    polls[1] = READY_BOTH;
    polls[2] = FdPoll::Failed;
    polls[65] = READY_IN;
    let mut result = FdSets::empty(70);
    assert_eq!(req.poll_all(&mut result, &polls), Ok(4));
    assert_eq!(result.words(0)[0], 1);
    assert_eq!(result.words(0)[1], 2);
    assert_eq!(result.words(1)[0], 2);
    assert_eq!(result.words(2)[0], 4);
    polls[65] = FdPoll::Missing;
    let mut result = FdSets::empty(70);
    assert_eq!(req.poll_all(&mut result, &polls), Err(Errno::EBADF));
    assert_eq!(FdSets::empty(5000).nfds, 1024);
}

#[test]
fn select_set_copy_and_clear() {
    let mut s = FdSets::empty(64);
    s.copy_from_fd_set(1, &[0xF0, 0xFF]);
    assert_eq!(s.words(1)[0], 0xF0);
    assert_eq!(s.words(1)[1], 0);
    s.clear();
    assert_eq!(s.words(1)[0], 0);
}

#[test]
fn signal_masks() {
    assert_eq!(signal_mask_bit(1), 1);
    assert_eq!(signal_mask_bit(64), 1u64 << 63);
    assert_eq!(signal_mask_bit(0), 0);
    assert_eq!(signal_mask_bit(65), 0);
    assert!(signal_is_blocked(0b100, 3));
    assert!(!signal_is_blocked(0b100, 2));
    assert!(!signal_is_blocked(u64::MAX, 0));
    assert_eq!(sigprocmask_next(SIG_BLOCK, 0b0011, 0b0110), Ok(0b0111));
    assert_eq!(sigprocmask_next(SIG_UNBLOCK, 0b0111, 0b0110), Ok(0b0001));
    assert_eq!(sigprocmask_next(SIG_SETMASK, 0b0111, 0b1000), Ok(0b1000));
    assert_eq!(sigprocmask_next(7, 0, 0), Err(Errno::EINVAL));
    let blocked = sigprocmask_next(SIG_BLOCK, 0b0001, 0b0110).unwrap();
    assert_eq!(sigprocmask_next(SIG_UNBLOCK, blocked, 0b0110), Ok(0b0001));
    assert_eq!(handler_mask(0b1, 0b10, 0, 3), 0b111);
    assert_eq!(handler_mask(0b1, 0b10, SA_NODEFER, 3), 0b11);
}

#[test]
fn signal_argument_checks() {
    assert_eq!(check_sigset_size(0), Ok(()));
    assert_eq!(check_sigset_size(4), Err(Errno::EINVAL));
    assert_eq!(check_sigset_size(8), Ok(()));
    assert_eq!(check_sigset_size(128), Ok(()));
    assert_eq!(validate_signal_target(0), Ok(()));
    assert_eq!(validate_signal_target(64), Ok(()));
    assert_eq!(validate_signal_target(65), Err(Errno::EINVAL));
    assert_eq!(validate_signal_target(-1), Err(Errno::EINVAL));
    assert_eq!(validate_sigaction_signum(0), Err(Errno::EINVAL));
    assert_eq!(validate_sigaction_signum(64), Ok(()));
    assert_eq!(validate_sigaction_signum(65), Err(Errno::EINVAL));
    assert_eq!(musl_pthread_self(1000), 800);
    assert_eq!(musl_pthread_self(100), 0);
}

#[test]
fn kill_routing() {
    assert_eq!(kill_target(10, 0, 10, 5), Ok(KillTarget::Done));
    assert_eq!(kill_target(10, 15, 10, 5), Ok(KillTarget::Thread(10)));
    assert_eq!(kill_target(0, 15, 10, 5), Ok(KillTarget::Process(5)));
    assert_eq!(kill_target(5, 15, 10, 5), Ok(KillTarget::Process(5)));
    assert_eq!(kill_target(77, 15, 10, 5), Ok(KillTarget::Process(77)));
    assert_eq!(kill_target(-3, 15, 10, 5), Err(Errno::ESRCH));
    assert_eq!(kill_target(10, 99, 10, 5), Err(Errno::EINVAL));
    assert_eq!(process_delivery(0, 9), Err(Errno::ESRCH));
    assert_eq!(process_delivery(2, 0), Ok(ProcessDelivery::Done));
    assert_eq!(process_delivery(2, 9), Ok(ProcessDelivery::KillAll(137)));
    assert_eq!(process_delivery(2, 15), Ok(ProcessDelivery::FirstThread));
}

#[test]
fn signal_info_record() {
    let info = make_signal_info(10, -6, 0x1234);
    assert_eq!(&info[0..4], &10i32.to_le_bytes());
    assert_eq!(&info[4..8], &[0, 0, 0, 0]);
    assert_eq!(&info[8..12], &(-6i32).to_le_bytes());
    assert_eq!(&info[12..16], &[0, 0, 0, 0]);
    assert_eq!(&info[16..20], &0x1234i32.to_le_bytes());
    assert!(info[20..].iter().all(|b| *b == 0));
}
