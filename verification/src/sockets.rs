use vstd::prelude::*;
use crate::errno::Errno;

verus! {

/// `O_CLOEXEC`, also `SOCK_CLOEXEC`.
pub const O_CLOEXEC: u32 = 0o2000000;
/// `O_NONBLOCK`, also `SOCK_NONBLOCK`.
pub const O_NONBLOCK: u32 = 0o4000;
/// `AF_UNIX` (also `AF_LOCAL`).
pub const AF_UNIX: u32 = 1;
/// `SOCK_STREAM`.
pub const SOCK_STREAM: u32 = 1;

/// The flags a descriptor-creating call was given.
#[derive(Clone, Copy, Debug, PartialEq, Eq, Structural)]
pub struct NewFdFlags {
    /// The new descriptors are closed on exec.
    pub cloexec: bool,
    /// The new files do not block.
    pub nonblock: bool,
    /// The socket type with the two flags taken out.
    pub base_type: u32,
}

/// Splits a `socket` type word into its flags and the type itself.
pub open spec fn socket_flags_of(socktype: u32) -> NewFdFlags {
    NewFdFlags {
        cloexec: socktype & O_CLOEXEC != 0,
        nonblock: socktype & O_NONBLOCK != 0,
        base_type: socktype & !(O_CLOEXEC | O_NONBLOCK),
    }
}

/// Splits a `socket` type word into its flags and the type itself.
pub fn socket_flags(socktype: u32) -> (r: NewFdFlags)
    ensures
        r == socket_flags_of(socktype),
{
    NewFdFlags {
        cloexec: socktype & O_CLOEXEC != 0,
        nonblock: socktype & O_NONBLOCK != 0,
        base_type: socktype & !(O_CLOEXEC | O_NONBLOCK),
    }
}

/// Checks a `socketpair` call: `EFAULT` without a place for the two
/// descriptors, `EAFNOSUPPORT` outside `AF_UNIX`, `EINVAL` for anything but
/// a stream with the default protocol.
pub fn socketpair_check(domain: u32, socktype: u32, protocol: u32, sv: u64) -> (r: Result<
    NewFdFlags,
    Errno,
>)
    ensures
        r == if sv == 0 {
            Err::<NewFdFlags, Errno>(Errno::EFAULT)
        } else if domain != AF_UNIX {
            Err(Errno::EAFNOSUPPORT)
        } else if socket_flags_of(socktype).base_type != SOCK_STREAM || protocol != 0 {
            Err(Errno::EINVAL)
        } else {
            Ok(socket_flags_of(socktype))
        },
{
    if sv == 0 {
        return Err(Errno::EFAULT);
    }
    if domain != AF_UNIX {
        return Err(Errno::EAFNOSUPPORT);
    }
    let f = socket_flags(socktype);
    if f.base_type != SOCK_STREAM || protocol != 0 {
        return Err(Errno::EINVAL);
    }
    Ok(f)
}

/// Checks the flags of `pipe2` and `accept4`: only `O_CLOEXEC` and
/// `O_NONBLOCK` are accepted, anything else is `EINVAL`.
pub fn new_fd_flags(flags: u32) -> (r: Result<NewFdFlags, Errno>)
    ensures
        r == if flags & !(O_CLOEXEC | O_NONBLOCK) != 0 {
            Err::<NewFdFlags, Errno>(Errno::EINVAL)
        } else {
            Ok(socket_flags_of(flags))
        },
{
    if flags & !(O_CLOEXEC | O_NONBLOCK) != 0 {
        return Err(Errno::EINVAL);
    }
    Ok(socket_flags(flags))
}

} // verus!
