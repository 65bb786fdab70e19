use posix_api::errno::Errno;
use posix_api::waitstep::{
    poll_step, pselect_nfds, pselect_step, wait_child_step, ChildWait, PollStep, PselectStep,
};

#[test]
fn poll_loop_decisions() {
    assert_eq!(poll_step(2, true, true), PollStep::Ready(2));
    assert_eq!(poll_step(0, true, true), PollStep::TimedOut);
    assert_eq!(poll_step(0, false, true), PollStep::Interrupted);
    assert_eq!(poll_step(0, false, false), PollStep::Wait);
}

#[test]
fn pselect_loop_decisions() {
    assert_eq!(pselect_nfds(-1), Err(Errno::EINVAL));
    assert_eq!(pselect_nfds(5), Ok(5));
    assert_eq!(pselect_nfds(5000), Ok(1024));
    let mut sets = [[0u64; 16]; 3];
    sets[0][0] = 0b101;
    sets[1][0] = 0b1;
    match pselect_step([2, 1, 0], sets, true) {
        PselectStep::Ready { count, sets: out } => {
            assert_eq!(count, 3);
            assert_eq!(out, sets);
        }
        _ => panic!("expected ready"),
    }
    match pselect_step([0, 0, 0], sets, true) {
        PselectStep::TimedOut { sets: out } => assert_eq!(out, [[0u64; 16]; 3]),
        _ => panic!("expected a timeout"),
    }
    assert!(matches!(pselect_step([0, 0, 0], sets, false), PselectStep::Wait));
}

#[test]
fn wait4_loop_decisions() {
    assert_eq!(wait_child_step(Err(Errno::ECHILD), false, Some(3), true), ChildWait::Fail(Errno::ECHILD));
    assert_eq!(wait_child_step(Ok(Some(1)), false, Some(3), true), ChildWait::Reap(1));
    assert_eq!(wait_child_step(Ok(None), true, Some(3), true), ChildWait::NoneReady);
    assert_eq!(wait_child_step(Ok(None), false, Some(3), true), ChildWait::ExitGroup(3));
    assert_eq!(wait_child_step(Ok(None), false, None, true), ChildWait::Fail(Errno::EINTR));
    assert_eq!(wait_child_step(Ok(None), false, None, false), ChildWait::Sleep);
}
