use posix_api::errno::Errno;
use posix_api::timeutil::{gettime_clock, nanosleep_request_check, ClockSource};
use posix_api::iov::writev_count;
use posix_api::epoll::epoll_create_check;
use posix_api::process::getrlimit_check;
use posix_api::fdentry::{poll_state, FdEntry, OpenFile};
use posix_api::fdtable::FdTable;
use posix_api::path::{check_user_string, execve_argv, getcwd_bytes};
use posix_api::pipe::PollState;
use posix_api::shm::{shmctl_command, SharedMemState, ShmCtl, IPC_CREAT};
use posix_api::signal::{robust_list_target, tgkill_check, thread_target_check, tkill_check};
use posix_api::timeutil::{FileTimes, TimeSpec};

#[test]
fn shm_status_records() {
    let mut s = SharedMemState::new();
    let id = s.create_segment(42, IPC_CREAT | 0o640, 100, 0x9000_0000, 1, 7, 1000);
    let ds = s.stat(id).unwrap();
    assert_eq!((ds.key, ds.mode, ds.segsz, ds.cpid, ds.lpid, ds.nattch), (42, 0o640, 100, 7, 0, 0));
    assert_eq!((ds.atime, ds.dtime, ds.ctime), (0, 0, 1000));
    assert_eq!(s.attach(id, 9, 1005), Ok((4096, 0x9000_0000)));
    assert_eq!(s.remove_id(id), Ok(None));
    let ds = s.stat(id).unwrap();
    assert_eq!(ds.mode, 0o640 | 0o1000);
    assert_eq!((ds.lpid, ds.nattch, ds.atime), (9, 1, 1005));
    assert_eq!(s.stat(99), Err(Errno::EINVAL));
    assert_eq!(shmctl_command(2), Ok(ShmCtl::Stat));
    assert_eq!(shmctl_command(0), Ok(ShmCtl::Remove));
    assert_eq!(shmctl_command(1), Ok(ShmCtl::SetAttributes));
    assert_eq!(shmctl_command(3), Err(Errno::EINVAL));
}

#[test]
fn thread_signal_checks() {
    assert_eq!(tkill_check(0, 9), Err(Errno::EINVAL));
    assert_eq!(tkill_check(5, 65), Err(Errno::EINVAL));
    assert_eq!(tkill_check(5, 0), Ok(()));
    assert_eq!(thread_target_check(None, 3, None), Err(Errno::ESRCH));
    assert_eq!(thread_target_check(Some(4), 3, None), Err(Errno::ESRCH));
    assert_eq!(thread_target_check(Some(3), 3, None), Ok(()));
    assert_eq!(thread_target_check(Some(3), 3, Some(4)), Err(Errno::ESRCH));
    assert_eq!(thread_target_check(Some(3), 3, Some(3)), Ok(()));
    assert_eq!(tgkill_check(0, 1), Err(Errno::EINVAL));
    assert_eq!(tgkill_check(1, 0), Err(Errno::EINVAL));
    assert_eq!(tgkill_check(1, 1), Ok(()));
    assert_eq!(robust_list_target(0, 12, Some(3), 3), (12, Ok(())));
    assert_eq!(robust_list_target(15, 12, Some(4), 3), (15, Err(Errno::EPERM)));
    assert_eq!(robust_list_target(15, 12, None, 3), (15, Err(Errno::ESRCH)));
}

#[test]
fn process_strings() {
    assert_eq!(getcwd_bytes(b"/home", 6), Ok(b"/home\0".to_vec()));
    assert_eq!(getcwd_bytes(b"/home", 5), Err(Errno::ERANGE));
    assert_eq!(getcwd_bytes(b"/", 100), Ok(b"/\0".to_vec()));
    assert_eq!(execve_argv(Vec::new(), b"/bin/ls"), vec![b"/bin/ls".to_vec()]);
    assert_eq!(execve_argv(vec![b"ls".to_vec(), b"-l".to_vec()], b"/bin/ls"), vec![b"ls".to_vec(), b"-l".to_vec()]);
    assert_eq!(check_user_string(b"/tmp/\xc3\xa9"), Ok(()));
    assert_eq!(check_user_string(b"/tmp/\xc3"), Err(Errno::EINVAL));
}

#[test]
fn descriptor_readiness() {
    let z = TimeSpec { tv_sec: 0, tv_nsec: 0 };
    let times = FileTimes { atime: z, mtime: z, ctime: z };
    let mut t: FdTable<FdEntry<u8, u8, u8>> = FdTable::new(FdEntry::Stdin, FdEntry::Stdout, FdEntry::Stderr);
    let f = t.insert(FdEntry::File(OpenFile { handle: 0, path: b"/f".to_vec(), times })).unwrap();
    let d = t.insert(FdEntry::Directory(OpenFile { handle: 0, path: b"/".to_vec(), times })).unwrap();
    let p = t.insert(FdEntry::Pipe(0)).unwrap();
    let pipe = PollState { readable: false, writable: true };
    assert_eq!(poll_state(&t, 0, pipe), Ok(PollState { readable: false, writable: false }));
    assert_eq!(poll_state(&t, 2, pipe), Ok(PollState { readable: false, writable: true }));
    assert_eq!(poll_state(&t, f, pipe), Ok(PollState { readable: true, writable: true }));
    assert_eq!(poll_state(&t, d, pipe), Ok(PollState { readable: true, writable: false }));
    assert_eq!(poll_state(&t, p, pipe), Ok(pipe));
    assert_eq!(poll_state(&t, 40, pipe), Err(Errno::EBADF));
}

#[test]
fn file_layer_argument_checks() {
    assert_eq!(writev_count(-1, false), Err(Errno::EINVAL));
    assert_eq!(writev_count(1025, false), Err(Errno::EINVAL));
    assert_eq!(writev_count(0, true), Ok(0));
    assert_eq!(writev_count(3, true), Err(Errno::EFAULT));
    assert_eq!(writev_count(3, false), Ok(3));
    assert_eq!(epoll_create_check(-1), Err(Errno::EINVAL));
    assert_eq!(epoll_create_check(0), Ok(()));
    let ts = TimeSpec { tv_sec: -5, tv_nsec: 10 };
    assert_eq!(nanosleep_request_check(Some(ts)), Ok(ts));
    assert_eq!(nanosleep_request_check(None), Err(Errno::EINVAL));
    assert_eq!(
        nanosleep_request_check(Some(TimeSpec { tv_sec: 0, tv_nsec: 1_000_000_000 })),
        Err(Errno::EINVAL)
    );
    assert_eq!(gettime_clock(0, false), Ok(ClockSource::Wall));
    assert_eq!(gettime_clock(1, false), Ok(ClockSource::Monotonic));
    assert_eq!(gettime_clock(4, false), Err(Errno::EINVAL));
    assert_eq!(gettime_clock(0, true), Err(Errno::EFAULT));
    assert_eq!(getrlimit_check(2, false), Ok(true));
    assert_eq!(getrlimit_check(7, true), Ok(false));
    assert_eq!(getrlimit_check(5, false), Err(Errno::EINVAL));
}
