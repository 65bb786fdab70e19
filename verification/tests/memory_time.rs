use posix_api::errno::Errno;
use posix_api::futex::{
    futex_command, futex_wait_check, futex_wait_result, requeue_result, wake_op_condition,
    wake_op_value, FutexCommand,
};
use posix_api::futex::{futex_wake_plan, futex_wake_reaches};
use posix_api::timeutil::{setitimer_value, ITimerVal, ITIMER_REAL};
use posix_api::memory::{
    align_down, align_up, brk_update, choose_shmat_addr, initial_brk, interp_load_base, mmap_target,
    nodemask_len, page_range, user_stack_range, BrkState, USER_MMAP_BASE,
};
use posix_api::timeutil::{
    apply_utime_updates, clock_source, dur_saturating_sub, dur_to_timespec, socket_timeout_timeval,
    timespec_duration, timeval_to_timeout_us, utime_update, validate_clock_id, ClockSource, Dur,
    FileTimes, TimeSpec, UtimeUpdate, UTIME_NOW_NSEC, UTIME_OMIT_NSEC,
};

fn brk() -> BrkState {
    BrkState { start: 0x10000, end: 0x10000, limit: 0x20000, next_mmap: USER_MMAP_BASE }
}

#[test]
fn alignment() {
    assert_eq!(align_down(0x1234, 0x1000), 0x1000);
    assert_eq!(align_up(0x1234, 0x1000), 0x2000);
    assert_eq!(align_up(0x2000, 0x1000), 0x2000);
    assert_eq!(align_up(0, 0x1000), 0);
    assert_eq!(align_up(17, 16), 32);
}

#[test]
fn program_break() {
    let mut b = brk();
    assert_eq!(brk_update(&mut b, 0), 0x10000);
    assert_eq!(brk_update(&mut b, 0x18000), 0x18000);
    assert_eq!(b.end, 0x18000);
    assert_eq!(brk_update(&mut b, 0x30000), 0x18000);
    assert_eq!(brk_update(&mut b, 0x8000), 0x18000);
}

#[test]
fn mmap_placement() {
    let mut b = brk();
    assert_eq!(mmap_target(&mut b, 0, 100), Ok((USER_MMAP_BASE, 0x1000)));
    assert_eq!(b.next_mmap, USER_MMAP_BASE + 0x2000);
    assert_eq!(mmap_target(&mut b, 0, 0x1001), Ok((USER_MMAP_BASE + 0x2000, 0x2000)));
    let mut c = brk();
    assert_eq!(mmap_target(&mut c, USER_MMAP_BASE + 0x1234, 10), Ok((USER_MMAP_BASE + 0x1000, 0x1000)));
    assert_eq!(c.next_mmap, USER_MMAP_BASE);
    assert_eq!(mmap_target(&mut c, 0x1000, 10), Err(Errno::ENOMEM));
}

#[test]
fn page_ranges_and_masks() {
    assert_eq!(page_range(0x1234, 0x10), Ok((0x1000, 0x2000)));
    assert_eq!(page_range(0x1000, 0), Err(Errno::EINVAL));
    assert_eq!(page_range(0x1000, 0x1000), Ok((0x1000, 0x2000)));
    assert_eq!(nodemask_len(0), 0);
    assert_eq!(nodemask_len(1), 8);
    assert_eq!(nodemask_len(64), 8);
    assert_eq!(nodemask_len(65), 16);
}

#[test]
fn shmat_addresses() {
    let mut b = brk();
    assert_eq!(choose_shmat_addr(&mut b, 0, 0, 0x1000), Ok(USER_MMAP_BASE));
    assert_eq!(b.next_mmap, USER_MMAP_BASE + 0x2000);
    assert_eq!(choose_shmat_addr(&mut b, USER_MMAP_BASE + 0x10_0001, 0, 0x1000), Err(Errno::EINVAL));
    assert_eq!(choose_shmat_addr(&mut b, USER_MMAP_BASE + 0x10_0001, 0o20000, 0x1000), Ok(USER_MMAP_BASE + 0x10_0000));
    assert_eq!(choose_shmat_addr(&mut b, 0x5000, 0, 0x1000), Err(Errno::EINVAL));
}

#[test]
fn load_layout() {
    assert_eq!(interp_load_base(0x20_0000), USER_MMAP_BASE);
    assert_eq!(interp_load_base(USER_MMAP_BASE + 0x1234), USER_MMAP_BASE + 0x3000);
    let b = initial_brk(0x12345, 0x12345).unwrap();
    assert_eq!(b.start, 0x13000);
    assert_eq!(b.end, 0x13000);
    assert_eq!(b.limit, 0x13000 + 64 * 1024 * 1024);
    assert_eq!(b.next_mmap, USER_MMAP_BASE);
    assert_eq!(initial_brk(0x20_0000_0000, 0), None);
    let (top, base) = user_stack_range();
    assert_eq!(top % 4096, 0);
    assert_eq!(top - base, 8 * 1024 * 1024);
}

#[test]
fn futex_decoding() {
    assert_eq!(futex_command(0x1000, 0, 0, 0), Ok(FutexCommand::Wait { bitset: false, realtime: false }));
    assert_eq!(futex_command(0x1000, 128, 0, 0), Ok(FutexCommand::Wait { bitset: false, realtime: false }));
    assert_eq!(futex_command(0x1000, 9 | 0x100, 0, 1), Ok(FutexCommand::Wait { bitset: true, realtime: true }));
    assert_eq!(futex_command(0x1000, 9, 0, 0), Err(Errno::EINVAL));
    assert_eq!(futex_command(0x1002, 1, 0, 0), Err(Errno::EINVAL));
    assert_eq!(futex_command(0, 1, 0, 0), Err(Errno::EINVAL));
    assert_eq!(futex_command(0x1000, 1, 0, 0), Ok(FutexCommand::Wake));
    assert_eq!(futex_command(0x1000, 10, 0, 0), Err(Errno::EINVAL));
    assert_eq!(futex_command(0x1000, 3, 0, 0), Err(Errno::EFAULT));
    assert_eq!(futex_command(0x1000, 4, 0x2000, 0), Ok(FutexCommand::Requeue { compare: true }));
    assert_eq!(futex_command(0x1000, 5, 0, 0), Ok(FutexCommand::WakeOp));
    assert_eq!(futex_command(0x1000, 6, 0, 0), Err(Errno::ENOSYS));
    assert_eq!(futex_wait_check(3, 3), Ok(()));
    assert_eq!(futex_wait_check(3, 4), Err(Errno::EAGAIN));
    assert_eq!(futex_wait_check(3, 0x1_0000_0003), Ok(()));
    assert_eq!(futex_wait_result(true, true, true), Err(Errno::ETIMEDOUT));
    assert_eq!(futex_wait_result(false, false, true), Err(Errno::EINTR));
    assert_eq!(futex_wait_result(false, true, true), Ok(()));
    assert_eq!(requeue_result(u64::MAX, 3), u64::MAX);
    assert_eq!(requeue_result(2, 3), 5);
}

#[test]
fn futex_wake_op() {
    // FUTEX_OP(SET, 5, CMP_EQ, 1)
    let set = (0 << 28) | (0 << 24) | (5 << 12) | 1;
    assert_eq!(wake_op_value(1, set), Ok(5));
    assert_eq!(wake_op_condition(1, set), Ok(true));
    assert_eq!(wake_op_condition(2, set), Ok(false));
    // FUTEX_OP(ADD, 1, CMP_GT, 0) on u32::MAX wraps.
    let add = (1 << 28) | (4 << 24) | (1 << 12);
    assert_eq!(wake_op_value(u32::MAX, add), Ok(0));
    assert_eq!(wake_op_condition(u32::MAX, add), Ok(false));
    // OR with a shifted operand: 1 << 3.
    let or_shift = ((2 | 8) << 28) | (3 << 12);
    assert_eq!(wake_op_value(1, or_shift), Ok(9));
    assert_eq!(wake_op_value(0xff, (3 << 28) | (0xf << 12)), Ok(0xf0));
    assert_eq!(wake_op_value(0xff, (4 << 28) | (0xf << 12)), Ok(0xf0));
    assert_eq!(wake_op_value(0, 5 << 28), Err(Errno::ENOSYS));
    assert_eq!(wake_op_condition(0, 6 << 24), Err(Errno::ENOSYS));
    assert_eq!(wake_op_value(0, (8 << 28) | (40 << 12)), Ok(0));
}

#[test]
fn timespecs() {
    assert_eq!(timespec_duration(TimeSpec { tv_sec: 1, tv_nsec: 5 }), Ok(Dur { secs: 1, nanos: 5 }));
    assert_eq!(timespec_duration(TimeSpec { tv_sec: -1, tv_nsec: 0 }), Err(Errno::EINVAL));
    assert_eq!(timespec_duration(TimeSpec { tv_sec: 0, tv_nsec: 1_000_000_000 }), Err(Errno::EINVAL));
    let d = Dur { secs: 3, nanos: 999_999_999 };
    assert_eq!(timespec_duration(dur_to_timespec(d)), Ok(d));
    assert_eq!(dur_saturating_sub(Dur { secs: 2, nanos: 1 }, Dur { secs: 1, nanos: 2 }), Dur { secs: 0, nanos: 999_999_999 });
    assert_eq!(dur_saturating_sub(Dur { secs: 1, nanos: 0 }, Dur { secs: 2, nanos: 0 }), Dur { secs: 0, nanos: 0 });
    assert_eq!(clock_source(0), Ok(ClockSource::Wall));
    assert_eq!(clock_source(1), Ok(ClockSource::Monotonic));
    assert_eq!(clock_source(8), Err(Errno::EINVAL));
    assert_eq!(validate_clock_id(11), Ok(()));
    assert_eq!(validate_clock_id(10), Err(Errno::EINVAL));
    assert_eq!(timeval_to_timeout_us(16, 2, 500), Ok(2_000_500));
    assert_eq!(timeval_to_timeout_us(8, 2, 500), Err(Errno::EINVAL));
    assert_eq!(timeval_to_timeout_us(16, 0, 1_000_000), Err(Errno::EINVAL));
    assert_eq!(socket_timeout_timeval(2_000_500), (2, 500));
}

#[test]
fn file_times() {
    let now = TimeSpec { tv_sec: 100, tv_nsec: 0 };
    let old = TimeSpec { tv_sec: 1, tv_nsec: 0 };
    let cur = FileTimes { atime: old, mtime: old, ctime: old };
    let set = TimeSpec { tv_sec: 50, tv_nsec: 7 };
    assert_eq!(utime_update(TimeSpec { tv_sec: 0, tv_nsec: UTIME_NOW_NSEC }, now), Ok(UtimeUpdate { time: Some(now), omit: false }));
    assert_eq!(utime_update(TimeSpec { tv_sec: 0, tv_nsec: UTIME_OMIT_NSEC }, now), Ok(UtimeUpdate { time: None, omit: true }));
    assert_eq!(utime_update(set, now), Ok(UtimeUpdate { time: Some(set), omit: false }));
    assert_eq!(utime_update(TimeSpec { tv_sec: -5, tv_nsec: 0 }, now), Err(Errno::EINVAL));
    let a = utime_update(set, now).unwrap();
    let omit = UtimeUpdate { time: None, omit: true };
    let r = apply_utime_updates(cur, a, omit, now);
    assert_eq!(r, FileTimes { atime: set, mtime: old, ctime: now });
    assert_eq!(apply_utime_updates(cur, omit, omit, now), cur);
}

#[test]
fn futex_wakes_split_over_queues() {
    assert_eq!(futex_wake_plan(&[2, 3, 5], 4), vec![2, 2]);
    assert_eq!(futex_wake_plan(&[2, 3], 10), vec![2, 3]);
    assert_eq!(futex_wake_plan(&[0, 1], 1), vec![0, 1]);
    assert_eq!(futex_wake_plan(&[4, 1], 0), vec![0]);
    assert_eq!(futex_wake_plan(&[], 3), Vec::<u64>::new());
    assert!(futex_wake_reaches(0x1000, 0b10, 0x1000, u32::MAX));
    assert!(!futex_wake_reaches(0x1000, 0b10, 0x1000, 0b01));
    assert!(!futex_wake_reaches(0x1004, 0b10, 0x1000, u32::MAX));
}

#[test]
fn interval_timer_requests() {
    let v = ITimerVal { interval_sec: 1, interval_usec: 0, value_sec: 2, value_usec: 500 };
    assert_eq!(setitimer_value(ITIMER_REAL, Some(v)), Ok(v));
    assert_eq!(
        setitimer_value(ITIMER_REAL, None),
        Ok(ITimerVal { interval_sec: 0, interval_usec: 0, value_sec: 0, value_usec: 0 })
    );
    assert_eq!(setitimer_value(1, Some(v)), Err(Errno::EINVAL));
}
