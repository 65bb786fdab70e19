use vstd::prelude::*;
use crate::errno::{neg_errno, Errno};

verus! {

/// The system calls the layer serves, by what they do.
#[derive(Clone, Copy, Debug, PartialEq, Eq, Structural)]
pub enum Syscall {
    Read,
    Pread64,
    Pwrite64,
    Write,
    Writev,
    Readv,
    Getcwd,
    Chdir,
    Openat,
    Mkdirat,
    Unlinkat,
    Pipe2,
    Ftruncate,
    Fsync,
    Fdatasync,
    Socket,
    Socketpair,
    Bind,
    Listen,
    Accept,
    Accept4,
    Connect,
    Getsockname,
    Getpeername,
    Sendto,
    Recvfrom,
    Setsockopt,
    Getsockopt,
    Shutdown,
    Readlinkat,
    Faccessat,
    Utimensat,
    Renameat2,
    Close,
    Newfstatat,
    Fstat,
    Statx,
    Statfs,
    Fstatfs,
    Getdents64,
    Lseek,
    Dup,
    Dup3,
    Fcntl,
    Ppoll,
    Pselect6,
    Ioctl,
    ClockGettime,
    ClockGetres,
    Gettimeofday,
    Getrandom,
    Setitimer,
    Umask,
    Times,
    Getrusage,
    Sysinfo,
    Uname,
    Nanosleep,
    ClockNanosleep,
    SchedYield,
    SchedSetparam,
    SchedGetparam,
    SchedSetscheduler,
    SchedGetscheduler,
    SchedSetaffinity,
    SchedGetaffinity,
    Syslog,
    Gettid,
    Setsid,
    Brk,
    Mmap,
    Mprotect,
    Munmap,
    Mbind,
    GetMempolicy,
    SetMempolicy,
    SetTidAddress,
    SetRobustList,
    GetRobustList,
    Futex,
    Kill,
    Tkill,
    Tgkill,
    RtSigtimedwait,
    RtSigaction,
    RtSigreturn,
    RtSigprocmask,
    Prlimit64,
    Getpid,
    Getppid,
    Clone,
    Execve,
    Wait4,
    Exit,
    ExitGroup,
    /// A call that always succeeds with 0 (memory locking, user and group ids).
    Zero,
}

/// Number of `read`.
pub const NR_READ: u32 = 63;
/// Number of `pread64`.
pub const NR_PREAD64: u32 = 67;
/// Number of `pwrite64`.
pub const NR_PWRITE64: u32 = 68;
/// Number of `write`.
pub const NR_WRITE: u32 = 64;
/// Number of `writev`.
pub const NR_WRITEV: u32 = 66;
/// Number of `readv`.
pub const NR_READV: u32 = 65;
/// Number of `getcwd`.
pub const NR_GETCWD: u32 = 17;
/// Number of `chdir`.
pub const NR_CHDIR: u32 = 49;
/// Number of `openat`.
pub const NR_OPENAT: u32 = 56;
/// Number of `mkdirat`.
pub const NR_MKDIRAT: u32 = 34;
/// Number of `unlinkat`.
pub const NR_UNLINKAT: u32 = 35;
/// Number of `pipe2`.
pub const NR_PIPE2: u32 = 59;
/// Number of `ftruncate`.
pub const NR_FTRUNCATE: u32 = 46;
/// Number of `fsync`.
pub const NR_FSYNC: u32 = 82;
/// Number of `fdatasync`.
pub const NR_FDATASYNC: u32 = 83;
/// Number of `socket`.
pub const NR_SOCKET: u32 = 198;
/// Number of `socketpair`.
pub const NR_SOCKETPAIR: u32 = 199;
/// Number of `bind`.
pub const NR_BIND: u32 = 200;
/// Number of `listen`.
pub const NR_LISTEN: u32 = 201;
/// Number of `accept`.
pub const NR_ACCEPT: u32 = 202;
/// Number of `accept4`.
pub const NR_ACCEPT4: u32 = 242;
/// Number of `connect`.
pub const NR_CONNECT: u32 = 203;
/// Number of `getsockname`.
pub const NR_GETSOCKNAME: u32 = 204;
/// Number of `getpeername`.
pub const NR_GETPEERNAME: u32 = 205;
/// Number of `sendto`.
pub const NR_SENDTO: u32 = 206;
/// Number of `recvfrom`.
pub const NR_RECVFROM: u32 = 207;
/// Number of `setsockopt`.
pub const NR_SETSOCKOPT: u32 = 208;
/// Number of `getsockopt`.
pub const NR_GETSOCKOPT: u32 = 209;
/// Number of `shutdown`.
pub const NR_SHUTDOWN: u32 = 210;
/// Number of `readlinkat`.
pub const NR_READLINKAT: u32 = 78;
/// Number of `faccessat`.
pub const NR_FACCESSAT: u32 = 48;
/// Number of `utimensat`.
pub const NR_UTIMENSAT: u32 = 88;
/// Number of `renameat2`.
pub const NR_RENAMEAT2: u32 = 276;
/// Number of `close`.
pub const NR_CLOSE: u32 = 57;
/// Number of `newfstatat`.
pub const NR_NEWFSTATAT: u32 = 79;
/// Number of `fstat`.
pub const NR_FSTAT: u32 = 80;
/// Number of `statx`.
pub const NR_STATX: u32 = 291;
/// Number of `statfs`.
pub const NR_STATFS: u32 = 43;
/// Number of `fstatfs`.
pub const NR_FSTATFS: u32 = 44;
/// Number of `getdents64`.
pub const NR_GETDENTS64: u32 = 61;
/// Number of `lseek`.
pub const NR_LSEEK: u32 = 62;
/// Number of `dup`.
pub const NR_DUP: u32 = 23;
/// Number of `dup3`.
pub const NR_DUP3: u32 = 24;
/// Number of `fcntl`.
pub const NR_FCNTL: u32 = 25;
/// Number of `ppoll`.
pub const NR_PPOLL: u32 = 73;
/// Number of `pselect6`.
pub const NR_PSELECT6: u32 = 72;
/// Number of `ioctl`.
pub const NR_IOCTL: u32 = 29;
/// Number of `clock_gettime`.
pub const NR_CLOCK_GETTIME: u32 = 113;
/// Number of `clock_getres`.
pub const NR_CLOCK_GETRES: u32 = 114;
/// Number of `gettimeofday`.
pub const NR_GETTIMEOFDAY: u32 = 169;
/// Number of `getrandom`.
pub const NR_GETRANDOM: u32 = 278;
/// Number of `setitimer`.
pub const NR_SETITIMER: u32 = 103;
/// Number of `umask`.
pub const NR_UMASK: u32 = 166;
/// Number of `times`.
pub const NR_TIMES: u32 = 153;
/// Number of `getrusage`.
pub const NR_GETRUSAGE: u32 = 165;
/// Number of `sysinfo`.
pub const NR_SYSINFO: u32 = 179;
/// Number of `uname`.
pub const NR_UNAME: u32 = 160;
/// Number of `nanosleep`.
pub const NR_NANOSLEEP: u32 = 101;
/// Number of `clock_nanosleep`.
pub const NR_CLOCK_NANOSLEEP: u32 = 115;
/// Number of `sched_yield`.
pub const NR_SCHED_YIELD: u32 = 124;
/// Number of `sched_setparam`.
pub const NR_SCHED_SETPARAM: u32 = 118;
/// Number of `sched_getparam`.
pub const NR_SCHED_GETPARAM: u32 = 121;
/// Number of `sched_setscheduler`.
pub const NR_SCHED_SETSCHEDULER: u32 = 119;
/// Number of `sched_getscheduler`.
pub const NR_SCHED_GETSCHEDULER: u32 = 120;
/// Number of `sched_setaffinity`.
pub const NR_SCHED_SETAFFINITY: u32 = 122;
/// Number of `sched_getaffinity`.
pub const NR_SCHED_GETAFFINITY: u32 = 123;
/// Number of `syslog`.
pub const NR_SYSLOG: u32 = 116;
/// Number of `gettid`.
pub const NR_GETTID: u32 = 178;
/// Number of `setsid`.
pub const NR_SETSID: u32 = 157;
/// Number of `brk`.
pub const NR_BRK: u32 = 214;
/// Number of `mmap`.
pub const NR_MMAP: u32 = 222;
/// Number of `mprotect`.
pub const NR_MPROTECT: u32 = 226;
/// Number of `munmap`.
pub const NR_MUNMAP: u32 = 215;
/// Number of `mbind`.
pub const NR_MBIND: u32 = 235;
/// Number of `get_mempolicy`.
pub const NR_GET_MEMPOLICY: u32 = 236;
/// Number of `set_mempolicy`.
pub const NR_SET_MEMPOLICY: u32 = 237;
/// Number of `set_tid_address`.
pub const NR_SET_TID_ADDRESS: u32 = 96;
/// Number of `set_robust_list`.
pub const NR_SET_ROBUST_LIST: u32 = 99;
/// Number of `get_robust_list`.
pub const NR_GET_ROBUST_LIST: u32 = 100;
/// Number of `futex`.
pub const NR_FUTEX: u32 = 98;
/// Number of `kill`.
pub const NR_KILL: u32 = 129;
/// Number of `tkill`.
pub const NR_TKILL: u32 = 130;
/// Number of `tgkill`.
pub const NR_TGKILL: u32 = 131;
/// Number of `rt_sigtimedwait`.
pub const NR_RT_SIGTIMEDWAIT: u32 = 137;
/// Number of `rt_sigaction`.
pub const NR_RT_SIGACTION: u32 = 134;
/// Number of `rt_sigreturn`.
pub const NR_RT_SIGRETURN: u32 = 139;
/// Number of `rt_sigprocmask`.
pub const NR_RT_SIGPROCMASK: u32 = 135;
/// Number of `prlimit64`.
pub const NR_PRLIMIT64: u32 = 261;
/// Number of `getpid`.
pub const NR_GETPID: u32 = 172;
/// Number of `getppid`.
pub const NR_GETPPID: u32 = 173;
/// Number of `clone`.
pub const NR_CLONE: u32 = 220;
/// Number of `execve`.
pub const NR_EXECVE: u32 = 221;
/// Number of `wait4`.
pub const NR_WAIT4: u32 = 260;
/// Number of `exit`.
pub const NR_EXIT: u32 = 93;
/// Number of `exit_group`.
pub const NR_EXIT_GROUP: u32 = 94;
/// Number of `mlock`.
pub const NR_MLOCK: u32 = 228;
/// Number of `munlock`.
pub const NR_MUNLOCK: u32 = 229;
/// Number of `mlockall`.
pub const NR_MLOCKALL: u32 = 230;
/// Number of `munlockall`.
pub const NR_MUNLOCKALL: u32 = 231;
/// Number of `mlock2`.
pub const NR_MLOCK2: u32 = 284;
/// Number of `getuid`.
pub const NR_GETUID: u32 = 174;
/// Number of `geteuid`.
pub const NR_GETEUID: u32 = 175;
/// Number of `getgid`.
pub const NR_GETGID: u32 = 176;
/// Number of `getegid`.
pub const NR_GETEGID: u32 = 177;
/// Number of `setuid`.
pub const NR_SETUID: u32 = 146;
/// Number of `setgid`.
pub const NR_SETGID: u32 = 144;

/// The system call that number `nr` selects; `None` for the numbers the
/// layer does not serve (`ENOSYS`).
pub open spec fn syscall_of(nr: u32) -> Option<Syscall> {
    if nr == NR_READ {
        Some(Syscall::Read)
    } else if nr == NR_PREAD64 {
        Some(Syscall::Pread64)
    } else if nr == NR_PWRITE64 {
        Some(Syscall::Pwrite64)
    } else if nr == NR_WRITE {
        Some(Syscall::Write)
    } else if nr == NR_WRITEV {
        Some(Syscall::Writev)
    } else if nr == NR_READV {
        Some(Syscall::Readv)
    } else if nr == NR_GETCWD {
        Some(Syscall::Getcwd)
    } else if nr == NR_CHDIR {
        Some(Syscall::Chdir)
    } else if nr == NR_OPENAT {
        Some(Syscall::Openat)
    } else if nr == NR_MKDIRAT {
        Some(Syscall::Mkdirat)
    } else if nr == NR_UNLINKAT {
        Some(Syscall::Unlinkat)
    } else if nr == NR_PIPE2 {
        Some(Syscall::Pipe2)
    } else if nr == NR_FTRUNCATE {
        Some(Syscall::Ftruncate)
    } else if nr == NR_FSYNC {
        Some(Syscall::Fsync)
    } else if nr == NR_FDATASYNC {
        Some(Syscall::Fdatasync)
    } else if nr == NR_SOCKET {
        Some(Syscall::Socket)
    } else if nr == NR_SOCKETPAIR {
        Some(Syscall::Socketpair)
    } else if nr == NR_BIND {
        Some(Syscall::Bind)
    } else if nr == NR_LISTEN {
        Some(Syscall::Listen)
    } else if nr == NR_ACCEPT {
        Some(Syscall::Accept)
    } else if nr == NR_ACCEPT4 {
        Some(Syscall::Accept4)
    } else if nr == NR_CONNECT {
        Some(Syscall::Connect)
    } else if nr == NR_GETSOCKNAME {
        Some(Syscall::Getsockname)
    } else if nr == NR_GETPEERNAME {
        Some(Syscall::Getpeername)
    } else if nr == NR_SENDTO {
        Some(Syscall::Sendto)
    } else if nr == NR_RECVFROM {
        Some(Syscall::Recvfrom)
    } else if nr == NR_SETSOCKOPT {
        Some(Syscall::Setsockopt)
    } else if nr == NR_GETSOCKOPT {
        Some(Syscall::Getsockopt)
    } else if nr == NR_SHUTDOWN {
        Some(Syscall::Shutdown)
    } else if nr == NR_READLINKAT {
        Some(Syscall::Readlinkat)
    } else if nr == NR_FACCESSAT {
        Some(Syscall::Faccessat)
    } else if nr == NR_UTIMENSAT {
        Some(Syscall::Utimensat)
    } else if nr == NR_RENAMEAT2 {
        Some(Syscall::Renameat2)
    } else if nr == NR_CLOSE {
        Some(Syscall::Close)
    } else if nr == NR_NEWFSTATAT {
        Some(Syscall::Newfstatat)
    } else if nr == NR_FSTAT {
        Some(Syscall::Fstat)
    } else if nr == NR_STATX {
        Some(Syscall::Statx)
    } else if nr == NR_STATFS {
        Some(Syscall::Statfs)
    } else if nr == NR_FSTATFS {
        Some(Syscall::Fstatfs)
    } else if nr == NR_GETDENTS64 {
        Some(Syscall::Getdents64)
    } else if nr == NR_LSEEK {
        Some(Syscall::Lseek)
    } else if nr == NR_DUP {
        Some(Syscall::Dup)
    } else if nr == NR_DUP3 {
        Some(Syscall::Dup3)
    } else if nr == NR_FCNTL {
        Some(Syscall::Fcntl)
    } else if nr == NR_PPOLL {
        Some(Syscall::Ppoll)
    } else if nr == NR_PSELECT6 {
        Some(Syscall::Pselect6)
    } else if nr == NR_IOCTL {
        Some(Syscall::Ioctl)
    } else if nr == NR_CLOCK_GETTIME {
        Some(Syscall::ClockGettime)
    } else if nr == NR_CLOCK_GETRES {
        Some(Syscall::ClockGetres)
    } else if nr == NR_GETTIMEOFDAY {
        Some(Syscall::Gettimeofday)
    } else if nr == NR_GETRANDOM {
        Some(Syscall::Getrandom)
    } else if nr == NR_SETITIMER {
        Some(Syscall::Setitimer)
    } else if nr == NR_UMASK {
        Some(Syscall::Umask)
    } else if nr == NR_TIMES {
        Some(Syscall::Times)
    } else if nr == NR_GETRUSAGE {
        Some(Syscall::Getrusage)
    } else if nr == NR_SYSINFO {
        Some(Syscall::Sysinfo)
    } else if nr == NR_UNAME {
        Some(Syscall::Uname)
    } else if nr == NR_NANOSLEEP {
        Some(Syscall::Nanosleep)
    } else if nr == NR_CLOCK_NANOSLEEP {
        Some(Syscall::ClockNanosleep)
    } else if nr == NR_SCHED_YIELD {
        Some(Syscall::SchedYield)
    } else if nr == NR_SCHED_SETPARAM {
        Some(Syscall::SchedSetparam)
    } else if nr == NR_SCHED_GETPARAM {
        Some(Syscall::SchedGetparam)
    } else if nr == NR_SCHED_SETSCHEDULER {
        Some(Syscall::SchedSetscheduler)
    } else if nr == NR_SCHED_GETSCHEDULER {
        Some(Syscall::SchedGetscheduler)
    } else if nr == NR_SCHED_SETAFFINITY {
        Some(Syscall::SchedSetaffinity)
    } else if nr == NR_SCHED_GETAFFINITY {
        Some(Syscall::SchedGetaffinity)
    } else if nr == NR_SYSLOG {
        Some(Syscall::Syslog)
    } else if nr == NR_GETTID {
        Some(Syscall::Gettid)
    } else if nr == NR_SETSID {
        Some(Syscall::Setsid)
    } else if nr == NR_BRK {
        Some(Syscall::Brk)
    } else if nr == NR_MMAP {
        Some(Syscall::Mmap)
    } else if nr == NR_MPROTECT {
        Some(Syscall::Mprotect)
    } else if nr == NR_MUNMAP {
        Some(Syscall::Munmap)
    } else if nr == NR_MBIND {
        Some(Syscall::Mbind)
    } else if nr == NR_GET_MEMPOLICY {
        Some(Syscall::GetMempolicy)
    } else if nr == NR_SET_MEMPOLICY {
        Some(Syscall::SetMempolicy)
    } else if nr == NR_SET_TID_ADDRESS {
        Some(Syscall::SetTidAddress)
    } else if nr == NR_SET_ROBUST_LIST {
        Some(Syscall::SetRobustList)
    } else if nr == NR_GET_ROBUST_LIST {
        Some(Syscall::GetRobustList)
    } else if nr == NR_FUTEX {
        Some(Syscall::Futex)
    } else if nr == NR_KILL {
        Some(Syscall::Kill)
    } else if nr == NR_TKILL {
        Some(Syscall::Tkill)
    } else if nr == NR_TGKILL {
        Some(Syscall::Tgkill)
    } else if nr == NR_RT_SIGTIMEDWAIT {
        Some(Syscall::RtSigtimedwait)
    } else if nr == NR_RT_SIGACTION {
        Some(Syscall::RtSigaction)
    } else if nr == NR_RT_SIGRETURN {
        Some(Syscall::RtSigreturn)
    } else if nr == NR_RT_SIGPROCMASK {
        Some(Syscall::RtSigprocmask)
    } else if nr == NR_PRLIMIT64 {
        Some(Syscall::Prlimit64)
    } else if nr == NR_GETPID {
        Some(Syscall::Getpid)
    } else if nr == NR_GETPPID {
        Some(Syscall::Getppid)
    } else if nr == NR_CLONE {
        Some(Syscall::Clone)
    } else if nr == NR_EXECVE {
        Some(Syscall::Execve)
    } else if nr == NR_WAIT4 {
        Some(Syscall::Wait4)
    } else if nr == NR_EXIT {
        Some(Syscall::Exit)
    } else if nr == NR_EXIT_GROUP {
        Some(Syscall::ExitGroup)
    } else if nr == NR_MLOCK || nr == NR_MUNLOCK || nr == NR_MLOCKALL || nr == NR_MUNLOCKALL || nr == NR_MLOCK2 || nr == NR_GETUID || nr == NR_GETEUID || nr == NR_GETGID || nr == NR_GETEGID || nr == NR_SETUID || nr == NR_SETGID {
        Some(Syscall::Zero)
    } else {
        None
    }
}

/// The number of system call `s`; the calls that always succeed stand for
/// several numbers, of which this gives `getuid`'s.
pub open spec fn syscall_number(s: Syscall) -> u32 {
    match s {
        Syscall::Read => NR_READ,
        Syscall::Pread64 => NR_PREAD64,
        Syscall::Pwrite64 => NR_PWRITE64,
        Syscall::Write => NR_WRITE,
        Syscall::Writev => NR_WRITEV,
        Syscall::Readv => NR_READV,
        Syscall::Getcwd => NR_GETCWD,
        Syscall::Chdir => NR_CHDIR,
        Syscall::Openat => NR_OPENAT,
        Syscall::Mkdirat => NR_MKDIRAT,
        Syscall::Unlinkat => NR_UNLINKAT,
        Syscall::Pipe2 => NR_PIPE2,
        Syscall::Ftruncate => NR_FTRUNCATE,
        Syscall::Fsync => NR_FSYNC,
        Syscall::Fdatasync => NR_FDATASYNC,
        Syscall::Socket => NR_SOCKET,
        Syscall::Socketpair => NR_SOCKETPAIR,
        Syscall::Bind => NR_BIND,
        Syscall::Listen => NR_LISTEN,
        Syscall::Accept => NR_ACCEPT,
        Syscall::Accept4 => NR_ACCEPT4,
        Syscall::Connect => NR_CONNECT,
        Syscall::Getsockname => NR_GETSOCKNAME,
        Syscall::Getpeername => NR_GETPEERNAME,
        Syscall::Sendto => NR_SENDTO,
        Syscall::Recvfrom => NR_RECVFROM,
        Syscall::Setsockopt => NR_SETSOCKOPT,
        Syscall::Getsockopt => NR_GETSOCKOPT,
        Syscall::Shutdown => NR_SHUTDOWN,
        Syscall::Readlinkat => NR_READLINKAT,
        Syscall::Faccessat => NR_FACCESSAT,
        Syscall::Utimensat => NR_UTIMENSAT,
        Syscall::Renameat2 => NR_RENAMEAT2,
        Syscall::Close => NR_CLOSE,
        Syscall::Newfstatat => NR_NEWFSTATAT,
        Syscall::Fstat => NR_FSTAT,
        Syscall::Statx => NR_STATX,
        Syscall::Statfs => NR_STATFS,
        Syscall::Fstatfs => NR_FSTATFS,
        Syscall::Getdents64 => NR_GETDENTS64,
        Syscall::Lseek => NR_LSEEK,
        Syscall::Dup => NR_DUP,
        Syscall::Dup3 => NR_DUP3,
        Syscall::Fcntl => NR_FCNTL,
        Syscall::Ppoll => NR_PPOLL,
        Syscall::Pselect6 => NR_PSELECT6,
        Syscall::Ioctl => NR_IOCTL,
        Syscall::ClockGettime => NR_CLOCK_GETTIME,
        Syscall::ClockGetres => NR_CLOCK_GETRES,
        Syscall::Gettimeofday => NR_GETTIMEOFDAY,
        Syscall::Getrandom => NR_GETRANDOM,
        Syscall::Setitimer => NR_SETITIMER,
        Syscall::Umask => NR_UMASK,
        Syscall::Times => NR_TIMES,
        Syscall::Getrusage => NR_GETRUSAGE,
        Syscall::Sysinfo => NR_SYSINFO,
        Syscall::Uname => NR_UNAME,
        Syscall::Nanosleep => NR_NANOSLEEP,
        Syscall::ClockNanosleep => NR_CLOCK_NANOSLEEP,
        Syscall::SchedYield => NR_SCHED_YIELD,
        Syscall::SchedSetparam => NR_SCHED_SETPARAM,
        Syscall::SchedGetparam => NR_SCHED_GETPARAM,
        Syscall::SchedSetscheduler => NR_SCHED_SETSCHEDULER,
        Syscall::SchedGetscheduler => NR_SCHED_GETSCHEDULER,
        Syscall::SchedSetaffinity => NR_SCHED_SETAFFINITY,
        Syscall::SchedGetaffinity => NR_SCHED_GETAFFINITY,
        Syscall::Syslog => NR_SYSLOG,
        Syscall::Gettid => NR_GETTID,
        Syscall::Setsid => NR_SETSID,
        Syscall::Brk => NR_BRK,
        Syscall::Mmap => NR_MMAP,
        Syscall::Mprotect => NR_MPROTECT,
        Syscall::Munmap => NR_MUNMAP,
        Syscall::Mbind => NR_MBIND,
        Syscall::GetMempolicy => NR_GET_MEMPOLICY,
        Syscall::SetMempolicy => NR_SET_MEMPOLICY,
        Syscall::SetTidAddress => NR_SET_TID_ADDRESS,
        Syscall::SetRobustList => NR_SET_ROBUST_LIST,
        Syscall::GetRobustList => NR_GET_ROBUST_LIST,
        Syscall::Futex => NR_FUTEX,
        Syscall::Kill => NR_KILL,
        Syscall::Tkill => NR_TKILL,
        Syscall::Tgkill => NR_TGKILL,
        Syscall::RtSigtimedwait => NR_RT_SIGTIMEDWAIT,
        Syscall::RtSigaction => NR_RT_SIGACTION,
        Syscall::RtSigreturn => NR_RT_SIGRETURN,
        Syscall::RtSigprocmask => NR_RT_SIGPROCMASK,
        Syscall::Prlimit64 => NR_PRLIMIT64,
        Syscall::Getpid => NR_GETPID,
        Syscall::Getppid => NR_GETPPID,
        Syscall::Clone => NR_CLONE,
        Syscall::Execve => NR_EXECVE,
        Syscall::Wait4 => NR_WAIT4,
        Syscall::Exit => NR_EXIT,
        Syscall::ExitGroup => NR_EXIT_GROUP,
        Syscall::Zero => NR_SETGID,
        Syscall::Zero => NR_GETUID,
    }
}

/// Each number the layer serves selects the system call of that number, so
/// no two numbers select the same handler; the only calls shared by several
/// numbers are those that always succeed (`mlock` and friends and the user
/// and group id calls).
pub proof fn syscall_table_is_exact(nr: u32)
    ensures
        syscall_of(nr) matches Some(s) ==> (s != Syscall::Zero ==> syscall_number(s) == nr),
        syscall_of(nr) == Some(Syscall::Zero) <==> (nr == NR_MLOCK || nr == NR_MUNLOCK || nr == NR_MLOCKALL || nr == NR_MUNLOCKALL || nr == NR_MLOCK2 || nr == NR_GETUID || nr == NR_GETEUID || nr == NR_GETGID || nr == NR_GETEGID || nr == NR_SETUID || nr == NR_SETGID),
        syscall_of(NR_PREAD64) == Some(Syscall::Pread64),
        syscall_of(NR_READ) == Some(Syscall::Read),
{
}

/// Every system call is selected by its own number.
pub proof fn syscall_number_selects(s: Syscall)
    ensures
        syscall_of(syscall_number(s)) == Some(s),
{
}

/// Selects the system call for number `nr`.
pub fn classify_syscall(nr: u32) -> (r: Option<Syscall>)
    ensures
        r == syscall_of(nr),
        r matches Some(s) ==> (s != Syscall::Zero ==> syscall_number(s) == nr),
{
    if nr == NR_READ {
        Some(Syscall::Read)
    } else if nr == NR_PREAD64 {
        Some(Syscall::Pread64)
    } else if nr == NR_PWRITE64 {
        Some(Syscall::Pwrite64)
    } else if nr == NR_WRITE {
        Some(Syscall::Write)
    } else if nr == NR_WRITEV {
        Some(Syscall::Writev)
    } else if nr == NR_READV {
        Some(Syscall::Readv)
    } else if nr == NR_GETCWD {
        Some(Syscall::Getcwd)
    } else if nr == NR_CHDIR {
        Some(Syscall::Chdir)
    } else if nr == NR_OPENAT {
        Some(Syscall::Openat)
    } else if nr == NR_MKDIRAT {
        Some(Syscall::Mkdirat)
    } else if nr == NR_UNLINKAT {
        Some(Syscall::Unlinkat)
    } else if nr == NR_PIPE2 {
        Some(Syscall::Pipe2)
    } else if nr == NR_FTRUNCATE {
        Some(Syscall::Ftruncate)
    } else if nr == NR_FSYNC {
        Some(Syscall::Fsync)
    } else if nr == NR_FDATASYNC {
        Some(Syscall::Fdatasync)
    } else if nr == NR_SOCKET {
        Some(Syscall::Socket)
    } else if nr == NR_SOCKETPAIR {
        Some(Syscall::Socketpair)
    } else if nr == NR_BIND {
        Some(Syscall::Bind)
    } else if nr == NR_LISTEN {
        Some(Syscall::Listen)
    } else if nr == NR_ACCEPT {
        Some(Syscall::Accept)
    } else if nr == NR_ACCEPT4 {
        Some(Syscall::Accept4)
    } else if nr == NR_CONNECT {
        Some(Syscall::Connect)
    } else if nr == NR_GETSOCKNAME {
        Some(Syscall::Getsockname)
    } else if nr == NR_GETPEERNAME {
        Some(Syscall::Getpeername)
    } else if nr == NR_SENDTO {
        Some(Syscall::Sendto)
    } else if nr == NR_RECVFROM {
        Some(Syscall::Recvfrom)
    } else if nr == NR_SETSOCKOPT {
        Some(Syscall::Setsockopt)
    } else if nr == NR_GETSOCKOPT {
        Some(Syscall::Getsockopt)
    } else if nr == NR_SHUTDOWN {
        Some(Syscall::Shutdown)
    } else if nr == NR_READLINKAT {
        Some(Syscall::Readlinkat)
    } else if nr == NR_FACCESSAT {
        Some(Syscall::Faccessat)
    } else if nr == NR_UTIMENSAT {
        Some(Syscall::Utimensat)
    } else if nr == NR_RENAMEAT2 {
        Some(Syscall::Renameat2)
    } else if nr == NR_CLOSE {
        Some(Syscall::Close)
    } else if nr == NR_NEWFSTATAT {
        Some(Syscall::Newfstatat)
    } else if nr == NR_FSTAT {
        Some(Syscall::Fstat)
    } else if nr == NR_STATX {
        Some(Syscall::Statx)
    } else if nr == NR_STATFS {
        Some(Syscall::Statfs)
    } else if nr == NR_FSTATFS {
        Some(Syscall::Fstatfs)
    } else if nr == NR_GETDENTS64 {
        Some(Syscall::Getdents64)
    } else if nr == NR_LSEEK {
        Some(Syscall::Lseek)
    } else if nr == NR_DUP {
        Some(Syscall::Dup)
    } else if nr == NR_DUP3 {
        Some(Syscall::Dup3)
    } else if nr == NR_FCNTL {
        Some(Syscall::Fcntl)
    } else if nr == NR_PPOLL {
        Some(Syscall::Ppoll)
    } else if nr == NR_PSELECT6 {
        Some(Syscall::Pselect6)
    } else if nr == NR_IOCTL {
        Some(Syscall::Ioctl)
    } else if nr == NR_CLOCK_GETTIME {
        Some(Syscall::ClockGettime)
    } else if nr == NR_CLOCK_GETRES {
        Some(Syscall::ClockGetres)
    } else if nr == NR_GETTIMEOFDAY {
        Some(Syscall::Gettimeofday)
    } else if nr == NR_GETRANDOM {
        Some(Syscall::Getrandom)
    } else if nr == NR_SETITIMER {
        Some(Syscall::Setitimer)
    } else if nr == NR_UMASK {
        Some(Syscall::Umask)
    } else if nr == NR_TIMES {
        Some(Syscall::Times)
    } else if nr == NR_GETRUSAGE {
        Some(Syscall::Getrusage)
    } else if nr == NR_SYSINFO {
        Some(Syscall::Sysinfo)
    } else if nr == NR_UNAME {
        Some(Syscall::Uname)
    } else if nr == NR_NANOSLEEP {
        Some(Syscall::Nanosleep)
    } else if nr == NR_CLOCK_NANOSLEEP {
        Some(Syscall::ClockNanosleep)
    } else if nr == NR_SCHED_YIELD {
        Some(Syscall::SchedYield)
    } else if nr == NR_SCHED_SETPARAM {
        Some(Syscall::SchedSetparam)
    } else if nr == NR_SCHED_GETPARAM {
        Some(Syscall::SchedGetparam)
    } else if nr == NR_SCHED_SETSCHEDULER {
        Some(Syscall::SchedSetscheduler)
    } else if nr == NR_SCHED_GETSCHEDULER {
        Some(Syscall::SchedGetscheduler)
    } else if nr == NR_SCHED_SETAFFINITY {
        Some(Syscall::SchedSetaffinity)
    } else if nr == NR_SCHED_GETAFFINITY {
        Some(Syscall::SchedGetaffinity)
    } else if nr == NR_SYSLOG {
        Some(Syscall::Syslog)
    } else if nr == NR_GETTID {
        Some(Syscall::Gettid)
    } else if nr == NR_SETSID {
        Some(Syscall::Setsid)
    } else if nr == NR_BRK {
        Some(Syscall::Brk)
    } else if nr == NR_MMAP {
        Some(Syscall::Mmap)
    } else if nr == NR_MPROTECT {
        Some(Syscall::Mprotect)
    } else if nr == NR_MUNMAP {
        Some(Syscall::Munmap)
    } else if nr == NR_MBIND {
        Some(Syscall::Mbind)
    } else if nr == NR_GET_MEMPOLICY {
        Some(Syscall::GetMempolicy)
    } else if nr == NR_SET_MEMPOLICY {
        Some(Syscall::SetMempolicy)
    } else if nr == NR_SET_TID_ADDRESS {
        Some(Syscall::SetTidAddress)
    } else if nr == NR_SET_ROBUST_LIST {
        Some(Syscall::SetRobustList)
    } else if nr == NR_GET_ROBUST_LIST {
        Some(Syscall::GetRobustList)
    } else if nr == NR_FUTEX {
        Some(Syscall::Futex)
    } else if nr == NR_KILL {
        Some(Syscall::Kill)
    } else if nr == NR_TKILL {
        Some(Syscall::Tkill)
    } else if nr == NR_TGKILL {
        Some(Syscall::Tgkill)
    } else if nr == NR_RT_SIGTIMEDWAIT {
        Some(Syscall::RtSigtimedwait)
    } else if nr == NR_RT_SIGACTION {
        Some(Syscall::RtSigaction)
    } else if nr == NR_RT_SIGRETURN {
        Some(Syscall::RtSigreturn)
    } else if nr == NR_RT_SIGPROCMASK {
        Some(Syscall::RtSigprocmask)
    } else if nr == NR_PRLIMIT64 {
        Some(Syscall::Prlimit64)
    } else if nr == NR_GETPID {
        Some(Syscall::Getpid)
    } else if nr == NR_GETPPID {
        Some(Syscall::Getppid)
    } else if nr == NR_CLONE {
        Some(Syscall::Clone)
    } else if nr == NR_EXECVE {
        Some(Syscall::Execve)
    } else if nr == NR_WAIT4 {
        Some(Syscall::Wait4)
    } else if nr == NR_EXIT {
        Some(Syscall::Exit)
    } else if nr == NR_EXIT_GROUP {
        Some(Syscall::ExitGroup)
    } else if nr == NR_MLOCK || nr == NR_MUNLOCK || nr == NR_MLOCKALL || nr == NR_MUNLOCKALL || nr == NR_MLOCK2 || nr == NR_GETUID || nr == NR_GETEUID || nr == NR_GETGID || nr == NR_GETEGID || nr == NR_SETUID || nr == NR_SETGID {
        Some(Syscall::Zero)
    } else {
        None
    }
}

/// Whether a pending `exit_group` ends the calling thread before it runs
/// system call `nr`: every call but `exit` and `exit_group` yields to it.
pub fn yields_to_exit_group(nr: u32) -> (r: bool)
    ensures
        r == (nr != NR_EXIT && nr != NR_EXIT_GROUP),
{
    nr != NR_EXIT && nr != NR_EXIT_GROUP
}

/// What the dispatcher answers without a handler: `-ENOSYS` for a number it
/// does not serve, 0 for the calls that always succeed, the process id,
/// parent id and thread id for `getpid`, `getppid` and `gettid`; `None` for
/// every call that has a handler of its own.
pub open spec fn syscall_result_of(c: Option<Syscall>, pid: i32, ppid: i32, tid: i32) -> Option<isize> {
    match c {
        None => Some(-38isize),
        Some(Syscall::Zero) => Some(0isize),
        Some(Syscall::Getpid) => Some(pid as isize),
        Some(Syscall::Getppid) => Some(ppid as isize),
        Some(Syscall::Gettid) => Some(tid as isize),
        Some(_) => None,
    }
}

/// Answers the system calls that need no handler (see `syscall_result_of`).
pub fn syscall_result(c: Option<Syscall>, pid: i32, ppid: i32, tid: i32) -> (r: Option<isize>)
    ensures
        r == syscall_result_of(c, pid, ppid, tid),
{
    match c {
        None => Some(neg_errno(Errno::ENOSYS)),
        Some(Syscall::Zero) => Some(0),
        Some(Syscall::Getpid) => Some(pid as isize),
        Some(Syscall::Getppid) => Some(ppid as isize),
        Some(Syscall::Gettid) => Some(tid as isize),
        Some(_) => None,
    }
}

} // verus!
