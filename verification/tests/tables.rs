use posix_api::errno::Errno;
use posix_api::fdtable::{FdTable, F_DUPFD, F_DUPFD_CLOEXEC, F_GETFD, F_GETFL, F_SETFD, O_CLOEXEC};
use posix_api::process::{
    check_new_rlimit, check_prlimit_target, check_wait_options, default_rlimit, plan_clone,
    select_exited_child, wait_status, ChildEntry, ClonePlan, RlimitTable, UserRlimit,
    RLIMIT_NOFILE, RLIMIT_STACK,
};
use posix_api::shm::{shm_pages, shmget_plan, SharedMemState, ShmGet, IPC_CREAT, IPC_EXCL, IPC_PRIVATE};

fn table() -> FdTable<&'static str> {
    FdTable::new("stdin", "stdout", "stderr")
}

#[test]
fn fd_insert_takes_lowest() {
    let mut t = table();
    assert_eq!(t.insert("a"), Ok(3));
    assert_eq!(t.insert("b"), Ok(4));
    assert_eq!(t.close(1), Ok(()));
    assert_eq!(t.entry(1), Err(Errno::EBADF));
    assert_eq!(t.insert("c"), Ok(1));
    assert_eq!(*t.entry(1).unwrap(), "c");
    assert_eq!(t.close(9), Err(Errno::EBADF));
    assert_eq!(t.close(-1), Err(Errno::EBADF));
    assert_eq!(t.insert_min("d", 10), Ok(10));
    assert_eq!(t.insert_min("e", 5), Ok(5));
}

#[test]
fn fd_limit_gives_emfile() {
    let mut t = table();
    t.set_limit(4);
    assert_eq!(t.insert("a"), Ok(3));
    assert_eq!(t.insert("b"), Err(Errno::EMFILE));
    assert_eq!(t.insert_min("c", 4), Err(Errno::EMFILE));
    assert_eq!(t.insert_pair("p", "q", false), Err(Errno::EMFILE));
}

#[test]
fn fd_flags_and_exec() {
    let mut t = table();
    let fd = t.insert("file").unwrap();
    assert_eq!(t.fd_flags(fd), Ok(0));
    assert_eq!(t.set_fd_flags(fd, 1), Ok(()));
    assert_eq!(t.fd_flags(fd), Ok(1));
    assert_eq!(t.set_fd_flags(7, 1), Err(Errno::EBADF));
    t.close_on_exec();
    assert_eq!(t.entry(fd), Err(Errno::EBADF));
    assert_eq!(*t.entry(0).unwrap(), "stdin");
}

#[test]
fn fd_dup_family() {
    let mut t = table();
    assert_eq!(t.dup(1), Ok(3));
    assert_eq!(*t.entry(3).unwrap(), "stdout");
    assert_eq!(t.dup(8), Err(Errno::EBADF));
    assert_eq!(t.dup3(1, 1, 0, 1024), Err(Errno::EINVAL));
    assert_eq!(t.dup3(2, 7, O_CLOEXEC, 1024), Ok(7));
    assert_eq!(t.fd_flags(7), Ok(1));
    assert_eq!(*t.entry(7).unwrap(), "stderr");
    assert_eq!(t.dup3(2, 2000, 0, 1024), Err(Errno::EBADF));
    assert_eq!(t.dup3(9, 5, 0, 1024), Err(Errno::EBADF));
    assert_eq!(t.fcntl(0, F_DUPFD, 5, false, false), Ok(5));
    assert_eq!(t.fcntl(0, F_DUPFD_CLOEXEC, 5, false, false), Ok(6));
    assert_eq!(t.fd_flags(6), Ok(1));
    assert_eq!(t.fcntl(0, F_DUPFD, -1, false, false), Err(Errno::EINVAL));
    assert_eq!(t.fcntl(0, F_GETFD, 0, true, false), Ok(1));
    assert_eq!(t.fcntl(0, F_GETFL, 0, false, true), Ok(0o4000));
    assert_eq!(t.fcntl(0, F_SETFD, 1, false, false), Ok(0));
    assert_eq!(t.fcntl(42, F_GETFD, 0, false, false), Err(Errno::EBADF));
}

#[test]
fn fd_pairs() {
    let mut t = table();
    t.close(1).unwrap();
    assert_eq!(t.insert_pair("r", "w", true), Ok((1, 3)));
    assert_eq!(t.fd_flags(1), Ok(1));
    assert_eq!(t.fd_flags(3), Ok(1));
    assert_eq!(*t.entry(3).unwrap(), "w");
}

#[test]
fn wait_selection() {
    let kids = [ChildEntry { pid: 5, exited: false }, ChildEntry { pid: 6, exited: true }];
    assert_eq!(select_exited_child(&kids, -1), Ok(Some(1)));
    assert_eq!(select_exited_child(&kids, 5), Ok(None));
    assert_eq!(select_exited_child(&kids, 6), Ok(Some(1)));
    assert_eq!(select_exited_child(&kids, 7), Err(Errno::ECHILD));
    assert_eq!(select_exited_child(&kids, 0), Err(Errno::EINVAL));
    assert_eq!(select_exited_child(&[], -1), Err(Errno::ECHILD));
    assert_eq!(check_wait_options(1), Ok(true));
    assert_eq!(check_wait_options(0x4000_0000), Ok(false));
    assert_eq!(check_wait_options(4), Err(Errno::EINVAL));
    assert_eq!(wait_status(3), 0x300);
    assert_eq!(wait_status(-1), 0xff00);
    assert_eq!((wait_status(260) >> 8) & 0xff, 4);
}

#[test]
fn clone_plans() {
    // fork(): SIGCHLD only.
    assert_eq!(
        plan_clone(17, 0, 0, 0, 0),
        Ok(ClonePlan { thread: false, tls: None, parent_tid: None, child_set_tid: None, child_clear_tid: 0 })
    );
    // vfork: CLONE_VM | CLONE_VFORK | SIGCHLD.
    assert!(matches!(plan_clone(0x4100 | 17, 0, 0, 0, 0), Ok(ClonePlan { thread: false, .. })));
    // CLONE_VM alone is neither a fork nor a thread.
    assert_eq!(plan_clone(0x100, 0x1000, 0, 0, 0), Err(Errno::ENOSYS));
    // An exit signal other than SIGCHLD is not supported for a fork.
    assert_eq!(plan_clone(9, 0, 0, 0, 0), Err(Errno::ENOSYS));
    // pthread_create: VM|FS|FILES|SIGHAND|THREAD|SYSVSEM|SETTLS|PARENT_SETTID|CHILD_CLEARTID.
    let flags = 0x100 | 0x200 | 0x400 | 0x800 | 0x10000 | 0x40000 | 0x80000 | 0x100000 | 0x200000;
    assert_eq!(
        plan_clone(flags, 0x8000, 0x1000, 0x2000, 0x3000),
        Ok(ClonePlan {
            thread: true,
            tls: Some(0x2000),
            parent_tid: Some(0x1000),
            child_set_tid: None,
            child_clear_tid: 0x3000,
        })
    );
    assert_eq!(plan_clone(flags, 0, 0x1000, 0x2000, 0x3000), Err(Errno::ENOSYS));
    assert_eq!(plan_clone(flags, 0x8000, 0, 0x2000, 0x3000), Err(Errno::EFAULT));
    assert_eq!(plan_clone(flags, 0x8000, 0x1000, 0x2000, 0), Err(Errno::EFAULT));
}

#[test]
fn rlimits() {
    let mut t = RlimitTable::new();
    assert_eq!(t.get_rlimit(RLIMIT_STACK), UserRlimit { rlim_cur: 8 << 20, rlim_max: 8 << 20 });
    assert_eq!(t.get_rlimit(RLIMIT_NOFILE), default_rlimit(RLIMIT_NOFILE));
    assert_eq!(t.get_rlimit(99).rlim_cur, u64::MAX);
    assert_eq!(t.nofile_limit(), 1024);
    t.set_rlimit(RLIMIT_NOFILE, UserRlimit { rlim_cur: 64, rlim_max: 128 });
    assert_eq!(t.get_rlimit(RLIMIT_NOFILE), UserRlimit { rlim_cur: 64, rlim_max: 128 });
    assert_eq!(t.nofile_limit(), 64);
    t.set_rlimit(RLIMIT_NOFILE, UserRlimit { rlim_cur: 5000, rlim_max: 5000 });
    assert_eq!(t.nofile_limit(), 1024);
    assert_eq!(check_prlimit_target(0, 7), Ok(()));
    assert_eq!(check_prlimit_target(7, 7), Ok(()));
    assert_eq!(check_prlimit_target(8, 7), Err(Errno::ESRCH));
    assert_eq!(check_new_rlimit(UserRlimit { rlim_cur: 2, rlim_max: 1 }), Err(Errno::EINVAL));
    assert_eq!(check_new_rlimit(UserRlimit { rlim_cur: 1, rlim_max: 1 }), Ok(()));
}

#[test]
fn shared_memory_lifecycle() {
    let mut s = SharedMemState::new();
    assert_eq!(shmget_plan(s.existing(42), 42, 100, 0), Err(Errno::ENOENT));
    assert_eq!(shmget_plan(s.existing(42), 42, 0, IPC_CREAT), Err(Errno::EINVAL));
    assert_eq!(shmget_plan(s.existing(42), 42, 100, IPC_CREAT), Ok(ShmGet::Create));
    assert_eq!(shm_pages(100), 1);
    assert_eq!(shm_pages(0), 1);
    assert_eq!(shm_pages(4097), 2);
    let id = s.create_segment(42, IPC_CREAT | 0o600, 100, 0x9000_0000, 1, 7, 1000);
    assert_eq!(id, 1);
    assert_eq!(s.existing(42), Some((1, 100)));
    assert_eq!(shmget_plan(s.existing(42), 42, 50, 0), Ok(ShmGet::Existing(1)));
    assert_eq!(shmget_plan(s.existing(42), 42, 200, 0), Err(Errno::EINVAL));
    assert_eq!(shmget_plan(s.existing(42), 42, 50, IPC_CREAT | IPC_EXCL), Err(Errno::EEXIST));
    let private = s.create_segment(IPC_PRIVATE, IPC_CREAT, 10, 0xa000_0000, 1, 7, 1000);
    assert_eq!(private, 2);
    assert_eq!(s.existing(IPC_PRIVATE), None);
    assert_eq!(s.attach(1, 8, 1001), Ok((4096, 0x9000_0000)));
    assert_eq!(s.remove_id(1), Ok(None));
    assert_eq!(s.existing(42), None);
    assert_eq!(s.release(1, 8, 1002, true), Ok(Some((0x9000_0000, 1))));
    assert_eq!(s.attach(1, 8, 1003), Err(Errno::EINVAL));
    assert_eq!(s.remove_id(2), Ok(Some((0xa000_0000, 1))));
    assert_eq!(s.remove_id(3), Err(Errno::EINVAL));
}

#[test]
fn forked_process_inherits_attachments() {
    let mut s = SharedMemState::new();
    let a = s.create_segment(5, IPC_CREAT, 64, 0x9000_0000, 1, 3, 10);
    let b = s.create_segment(IPC_PRIVATE, IPC_CREAT, 64, 0x9100_0000, 1, 3, 10);
    assert_eq!(s.attach(a, 3, 11), Ok((4096, 0x9000_0000)));
    s.inherit_attaches(&[a, a, 77, b]);
    assert_eq!(s.segments.get(&a).map(|seg| seg.nattch), Some(3));
    assert_eq!(s.segments.get(&b).map(|seg| seg.nattch), Some(1));
    assert_eq!(s.segments.len(), 2);
}
