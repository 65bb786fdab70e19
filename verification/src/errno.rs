use vstd::prelude::*;

verus! {

/// The Linux error numbers that the system-call layer reports.
#[derive(Clone, Copy, Debug, PartialEq, Eq, Structural)]
pub enum Errno {
    EPERM,
    ENOENT,
    ESRCH,
    EINTR,
    EIO,
    ENOEXEC,
    EBADF,
    ECHILD,
    EAGAIN,
    ENOMEM,
    EFAULT,
    EEXIST,
    ENOTDIR,
    EISDIR,
    EINVAL,
    EMFILE,
    ENOTTY,
    ESPIPE,
    EPIPE,
    ERANGE,
    ENOSYS,
    ENOTSOCK,
    EPROTONOSUPPORT,
    EOPNOTSUPP,
    EAFNOSUPPORT,
    EISCONN,
    ETIMEDOUT,
    ECONNREFUSED,
}

/// The number that Linux assigns to each error.
pub open spec fn errno_number(e: Errno) -> i32 {
    match e {
        Errno::EPERM => 1,
        Errno::ENOENT => 2,
        Errno::ESRCH => 3,
        Errno::EINTR => 4,
        Errno::EIO => 5,
        Errno::ENOEXEC => 8,
        Errno::EBADF => 9,
        Errno::ECHILD => 10,
        Errno::EAGAIN => 11,
        Errno::ENOMEM => 12,
        Errno::EFAULT => 14,
        Errno::EEXIST => 17,
        Errno::ENOTDIR => 20,
        Errno::EISDIR => 21,
        Errno::EINVAL => 22,
        Errno::EMFILE => 24,
        Errno::ENOTTY => 25,
        Errno::ESPIPE => 29,
        Errno::EPIPE => 32,
        Errno::ERANGE => 34,
        Errno::ENOSYS => 38,
        Errno::ENOTSOCK => 88,
        Errno::EPROTONOSUPPORT => 93,
        Errno::EOPNOTSUPP => 95,
        Errno::EAFNOSUPPORT => 97,
        Errno::EISCONN => 106,
        Errno::ETIMEDOUT => 110,
        Errno::ECONNREFUSED => 111,
    }
}

impl Errno {
    /// The positive Linux error number.
    pub fn code(self) -> (r: i32)
        ensures
            r == errno_number(self),
            r > 0,
    {
        match self {
            Errno::EPERM => 1,
            Errno::ENOENT => 2,
            Errno::ESRCH => 3,
            Errno::EINTR => 4,
            Errno::EIO => 5,
            Errno::ENOEXEC => 8,
            Errno::EBADF => 9,
            Errno::ECHILD => 10,
            Errno::EAGAIN => 11,
            Errno::ENOMEM => 12,
            Errno::EFAULT => 14,
            Errno::EEXIST => 17,
            Errno::ENOTDIR => 20,
            Errno::EISDIR => 21,
            Errno::EINVAL => 22,
            Errno::EMFILE => 24,
            Errno::ENOTTY => 25,
            Errno::ESPIPE => 29,
            Errno::EPIPE => 32,
            Errno::ERANGE => 34,
            Errno::ENOSYS => 38,
            Errno::ENOTSOCK => 88,
            Errno::EPROTONOSUPPORT => 93,
            Errno::EOPNOTSUPP => 95,
            Errno::EAFNOSUPPORT => 97,
            Errno::EISCONN => 106,
            Errno::ETIMEDOUT => 110,
            Errno::ECONNREFUSED => 111,
        }
    }
}

/// The negated error number that a system call hands back to user space.
pub fn neg_errno(err: Errno) -> (r: isize)
    ensures
        r == -errno_number(err),
{
    -(err.code() as isize)
}

} // verus!
