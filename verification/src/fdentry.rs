use vstd::prelude::*;
use crate::errno::Errno;
use crate::sockopt::{
    default_socket_options, getsockopt_reply, getsockopt_reply_of, opt_state, opt_state_of, reads_len,
    reads_len_of, set_option_of, socket_option, socket_option_of, OptInput, OptReply, SetEffect,
    SocketOptions,
};
use crate::fdtable::FdTable;
use crate::path::views;
use crate::pipe::PollState;
use crate::sysinfo::{current_terminal_size, TerminalSize};
use crate::fdset::{has_fd, lemma_or_bit, lemma_zero_bit};
use crate::timeutil::{FileTimes, TimeSpec, UtimeUpdate, apply_utime_updates};
use crate::fsmeta::{FileStat, stdio_stat, socket_stat, device_stat_of, ST_MODE_CHR, ST_MODE_SOCK};
use crate::path::{lit, normalized, normalize_path};
use crate::bytes::{bytes_eq, starts_with, append_bytes, copy_range, has_prefix};
use crate::decimal::{decimal, decimal_of, parse_i32, parse_i32_spec};
use crate::path::{dev_shm_of, dev_shm_host_path};
use crate::runtime::{
    push_unique, push_runtime_candidate, absolute_candidates, library_candidates,
    runtime_absolute_path_candidates, runtime_library_name_candidates,
};

verus! {

/// `AF_INET`.
pub const AF_INET: u16 = 2;
/// `SOCK_STREAM`.
pub const SOCK_STREAM: u32 = 1;
/// `SOCK_DGRAM`.
pub const SOCK_DGRAM: u32 = 2;
/// The bits of a socket type word that hold the type.
pub const SOCK_TYPE_MASK: u32 = 0xf;
/// `SOCK_CLOEXEC`.
pub const SOCK_CLOEXEC: u32 = 0o2000000;
/// `SOCK_NONBLOCK`.
pub const SOCK_NONBLOCK: u32 = 0o4000;
/// `IPPROTO_TCP`.
pub const IPPROTO_TCP: u32 = 6;
/// `IPPROTO_UDP`.
pub const IPPROTO_UDP: u32 = 17;
/// The lowest port handed to a socket bound to port 0.
pub const FIRST_EPHEMERAL_PORT: u16 = 40000;
/// 127.0.0.1, the address every peer reports.
pub const LOOPBACK_ADDR: u32 = 0x7f00_0001;
/// Size of a `sockaddr_in`.
pub const SOCKADDR_IN_LEN: usize = 16;

/// The kind of a loopback socket.
#[derive(Clone, Copy, Debug, PartialEq, Eq, Structural)]
pub enum SocketKind {
    Stream,
    Datagram,
}

/// A socket of the in-process loopback network.
#[derive(Debug)]
pub struct SocketEntry {
    pub kind: SocketKind,
    pub cloexec: bool,
    pub nonblock: bool,
    /// The port it is bound to, 0 when unbound.
    pub local_port: u16,
    /// Datagrams received and not yet read, oldest first.
    pub recv_queue: Vec<Vec<u8>>,
    pub listening: bool,
    /// A connection is waiting to be accepted.
    pub pending_stream: bool,
    /// Its buffer sizes and timeouts.
    pub options: SocketOptions,
}

/// An open file or directory: the caller's handle, the path it was opened
/// at and the times recorded for it.
#[derive(Debug)]
pub struct OpenFile<H> {
    pub handle: H,
    pub path: Vec<u8>,
    pub times: FileTimes,
}

/// What a descriptor refers to: a standard stream, the null device, a file,
/// a directory or a pipe end (held as the caller's own handles), or a
/// loopback socket.
#[derive(Debug)]
pub enum FdEntry<F, D, P> {
    Stdin,
    Stdout,
    Stderr,
    DevNull,
    File(OpenFile<F>),
    Directory(OpenFile<D>),
    Pipe(P),
    Socket(SocketEntry),
}

/// An IPv4 socket address, port and address in host order.
#[derive(Clone, Copy, Debug, PartialEq, Eq, Structural)]
pub struct SockAddrIn {
    pub family: u16,
    pub port: u16,
    pub addr: u32,
}

/// The mathematical content of a socket.
pub struct SocketView {
    pub kind: SocketKind,
    pub cloexec: bool,
    pub nonblock: bool,
    pub local_port: u16,
    pub queue: Seq<Seq<u8>>,
    pub listening: bool,
    pub pending_stream: bool,
    pub options: SocketOptions,
}

/// The content of the socket `s`.
pub open spec fn sview(s: SocketEntry) -> SocketView {
    SocketView {
        kind: s.kind,
        cloexec: s.cloexec,
        nonblock: s.nonblock,
        local_port: s.local_port,
        queue: views(s.recv_queue@),
        listening: s.listening,
        pending_stream: s.pending_stream,
        options: s.options,
    }
}

/// The socket that descriptor `fd` of `t` refers to, if it is one.
pub open spec fn socket_at<F, D, P>(t: FdTable<FdEntry<F, D, P>>, fd: int) -> Option<SocketView> {
    match t.slot(fd) {
        Some(FdEntry::Socket(s)) => Some(sview(s)),
        _ => None,
    }
}

/// `t1` differs from `t0` at most in what descriptor `fd` refers to, which
/// is still a socket, with the content `v`.
pub open spec fn socket_updated<F, D, P>(
    t0: FdTable<FdEntry<F, D, P>>,
    t1: FdTable<FdEntry<F, D, P>>,
    fd: int,
    v: SocketView,
) -> bool {
    &&& t1.wf()
    &&& t1.limit == t0.limit
    &&& socket_at(t1, fd) == Some(v)
    &&& t1.cloexec_at(fd) == t0.cloexec_at(fd)
    &&& t1.same_except(t0, fd)
}

/// `t1` is `t0` unchanged.
pub open spec fn unchanged<F, D, P>(t0: FdTable<FdEntry<F, D, P>>, t1: FdTable<FdEntry<F, D, P>>) -> bool {
    &&& t1.entries@ == t0.entries@
    &&& t1.fd_flags@ == t0.fd_flags@
    &&& t1.limit == t0.limit
}

/// The socket kind a `socket(AF_INET, ty, protocol)` call asks for.
pub open spec fn requested_kind(ty: u32, protocol: u32) -> Option<SocketKind> {
    if ty & SOCK_TYPE_MASK == SOCK_DGRAM && (protocol == 0 || protocol == IPPROTO_UDP) {
        Some(SocketKind::Datagram)
    } else if ty & SOCK_TYPE_MASK == SOCK_STREAM && (protocol == 0 || protocol == IPPROTO_TCP) {
        Some(SocketKind::Stream)
    } else {
        None
    }
}

/// The new, unbound socket of a `socket` call, or why there is none:
/// `EAFNOSUPPORT` outside `AF_INET`, `EPROTONOSUPPORT` for a type and
/// protocol other than a UDP datagram or a TCP stream socket.
pub fn new_socket(domain: u32, ty: u32, protocol: u32) -> (r: Result<SocketEntry, Errno>)
    ensures
        domain != AF_INET ==> (r matches Err(e) && e == Errno::EAFNOSUPPORT),
        domain == AF_INET ==> match requested_kind(ty, protocol) {
            None => (r matches Err(e) && e == Errno::EPROTONOSUPPORT),
            Some(k) => (r matches Ok(s) && sview(s) == (SocketView {
                kind: k,
                cloexec: ty & SOCK_CLOEXEC != 0,
                nonblock: ty & SOCK_NONBLOCK != 0,
                local_port: 0,
                queue: Seq::empty(),
                listening: false,
                pending_stream: false,
                options: default_socket_options(),
            })),
        },
{
    if domain != AF_INET as u32 {
        return Err(Errno::EAFNOSUPPORT);
    }
    let t = ty & SOCK_TYPE_MASK;
    let kind = if t == SOCK_DGRAM && (protocol == 0 || protocol == IPPROTO_UDP) {
        SocketKind::Datagram
    } else if t == SOCK_STREAM && (protocol == 0 || protocol == IPPROTO_TCP) {
        SocketKind::Stream
    } else {
        return Err(Errno::EPROTONOSUPPORT);
    };
    let s = SocketEntry {
        kind,
        cloexec: ty & SOCK_CLOEXEC != 0,
        nonblock: ty & SOCK_NONBLOCK != 0,
        local_port: 0,
        recv_queue: Vec::new(),
        listening: false,
        pending_stream: false,
        options: SocketOptions::new(),
    };
    assert(views(s.recv_queue@) =~= Seq::<Seq<u8>>::empty());
    Ok(s)
}

/// `socket`: creates a socket and opens the lowest free descriptor for it.
pub fn socket<F, D, P>(table: &mut FdTable<FdEntry<F, D, P>>, domain: u32, ty: u32, protocol: u32) -> (r:
    Result<i32, Errno>)
    requires
        old(table).wf(),
    ensures
        final(table).wf(),
        final(table).limit == old(table).limit,
        domain != AF_INET ==> r == Err::<i32, Errno>(Errno::EAFNOSUPPORT) && unchanged(*old(table), *final(table)),
        domain == AF_INET && requested_kind(ty, protocol) is None ==> r == Err::<i32, Errno>(
            Errno::EPROTONOSUPPORT,
        ) && unchanged(*old(table), *final(table)),
        domain == AF_INET && requested_kind(ty, protocol) is Some ==> exists|e: FdEntry<F, D, P>|
            #[trigger] crate::fdtable::inserted(*old(table), *final(table), e, 0, r) && (e matches FdEntry::Socket(s)
                && sview(s) == SocketView {
                kind: requested_kind(ty, protocol)->0,
                cloexec: ty & SOCK_CLOEXEC != 0,
                nonblock: ty & SOCK_NONBLOCK != 0,
                local_port: 0,
                queue: Seq::empty(),
                listening: false,
                pending_stream: false,
                options: default_socket_options(),
            }),
{
    let s = new_socket(domain, ty, protocol)?;
    let e = FdEntry::Socket(s);
    let ghost ge = e;
    let r = table.insert(e);
    assert(crate::fdtable::inserted(*old(table), *table, ge, 0, r));
    r
}

/// Puts the socket `s` back at descriptor `fd`, whose entry the caller took out.
fn put_socket<F, D, P>(table: &mut FdTable<FdEntry<F, D, P>>, fd: i32, s: SocketEntry)
    requires
        old(table).wf(),
        old(table).slot(fd as int) is Some,
    ensures
        final(table).wf(),
        final(table).limit == old(table).limit,
        final(table).slot(fd as int) == Some(FdEntry::<F, D, P>::Socket(s)),
        socket_at(*final(table), fd as int) == Some(sview(s)),
        final(table).cloexec_at(fd as int) == old(table).cloexec_at(fd as int),
        final(table).same_except(*old(table), fd as int),
{
    let _ = table.replace_entry(fd, FdEntry::Socket(s));
}

/// Takes the socket of descriptor `fd` out of the table, leaving the null
/// device in its place; `EBADF` when `fd` is not open and `ENOTSOCK` when it
/// is not a socket, with the table unchanged.
fn take_socket<F, D, P>(table: &mut FdTable<FdEntry<F, D, P>>, fd: i32) -> (r: Result<SocketEntry, Errno>)
    requires
        old(table).wf(),
    ensures
        final(table).wf(),
        final(table).limit == old(table).limit,
        match old(table).slot(fd as int) {
            None => r == Err::<SocketEntry, Errno>(Errno::EBADF) && unchanged(*old(table), *final(table)),
            Some(FdEntry::Socket(s)) => {
                &&& r == Ok::<SocketEntry, Errno>(s)
                &&& final(table).slot(fd as int) is Some
                &&& final(table).cloexec_at(fd as int) == old(table).cloexec_at(fd as int)
                &&& final(table).same_except(*old(table), fd as int)
            },
            Some(_) => r == Err::<SocketEntry, Errno>(Errno::ENOTSOCK) && final(table).same_except(
                *old(table),
                -1,
            ),
        },
{
    match table.replace_entry(fd, FdEntry::DevNull) {
        Err(e) => Err(e),
        Ok(FdEntry::Socket(s)) => Ok(s),
        Ok(other) => {
            let ghost mid = *table;
            let _ = table.replace_entry(fd, other);
            Err(Errno::ENOTSOCK)
        },
    }
}

/// The port that binding to `port` takes and the next port to hand out:
/// port 0 takes the next ephemeral port.
pub open spec fn bound_port(next: u16, port: u16) -> (u16, u16) {
    if port == 0 {
        let n: int = if next + 1 > u16::MAX { u16::MAX as int } else { next + 1 };
        (next, if n > FIRST_EPHEMERAL_PORT { n as u16 } else { FIRST_EPHEMERAL_PORT })
    } else {
        (port, next)
    }
}

/// `bind`: binds the socket of `fd` to the port of `addr`, or to the next
/// ephemeral port (`next_port`, which then advances) for port 0. The port
/// is taken before the descriptor is looked at.
pub fn bind_socket<F, D, P>(
    table: &mut FdTable<FdEntry<F, D, P>>,
    next_port: &mut u16,
    fd: i32,
    addr: SockAddrIn,
) -> (r: Result<(), Errno>)
    requires
        old(table).wf(),
    ensures
        final(table).wf(),
        final(table).limit == old(table).limit,
        addr.family != AF_INET ==> r == Err::<(), Errno>(Errno::EAFNOSUPPORT) && unchanged(
            *old(table),
            *final(table),
        ) && *final(next_port) == *old(next_port),
        addr.family == AF_INET ==> {
            &&& *final(next_port) == bound_port(*old(next_port), addr.port).1
            &&& match old(table).slot(fd as int) {
                None => r == Err::<(), Errno>(Errno::EBADF) && unchanged(*old(table), *final(table)),
                Some(FdEntry::Socket(s)) => r is Ok && socket_updated(
                    *old(table),
                    *final(table),
                    fd as int,
                    SocketView { local_port: bound_port(*old(next_port), addr.port).0, ..sview(s) },
                ),
                Some(_) => r == Err::<(), Errno>(Errno::ENOTSOCK) && final(table).same_except(
                    *old(table),
                    -1,
                ),
            }
        },
{
    if addr.family != AF_INET {
        return Err(Errno::EAFNOSUPPORT);
    }
    let assigned = if addr.port == 0 {
        let p = *next_port;
        let n = p.saturating_add(1);
        *next_port = if n > FIRST_EPHEMERAL_PORT { n } else { FIRST_EPHEMERAL_PORT };
        p
    } else {
        addr.port
    };
    let mut s = take_socket(table, fd)?;
    s.local_port = assigned;
    put_socket(table, fd, s);
    Ok(())
}

/// `getsockname`: the address of the socket of `fd`.
pub fn socket_name<F, D, P>(table: &FdTable<FdEntry<F, D, P>>, fd: i32) -> (r: Result<SockAddrIn, Errno>)
    ensures
        r == match table.slot(fd as int) {
            None => Err::<SockAddrIn, Errno>(Errno::EBADF),
            Some(FdEntry::Socket(s)) => Ok(SockAddrIn { family: AF_INET, port: s.local_port, addr: 0 }),
            Some(_) => Err(Errno::ENOTSOCK),
        },
{
    match table.entry(fd)? {
        FdEntry::Socket(s) => Ok(SockAddrIn { family: AF_INET, port: s.local_port, addr: 0 }),
        _ => Err(Errno::ENOTSOCK),
    }
}

/// `listen`: marks the stream socket of `fd` as listening.
pub fn listen_socket<F, D, P>(table: &mut FdTable<FdEntry<F, D, P>>, fd: i32) -> (r: Result<(), Errno>)
    requires
        old(table).wf(),
    ensures
        final(table).wf(),
        final(table).limit == old(table).limit,
        match old(table).slot(fd as int) {
            None => r == Err::<(), Errno>(Errno::EBADF) && unchanged(*old(table), *final(table)),
            Some(FdEntry::Socket(s)) => if s.kind != SocketKind::Stream {
                r == Err::<(), Errno>(Errno::EOPNOTSUPP) && final(table).same_except(*old(table), -1)
            } else {
                r is Ok && socket_updated(*old(table), *final(table), fd as int, SocketView { listening: true, ..sview(s) })
            },
            Some(_) => r == Err::<(), Errno>(Errno::ENOTSOCK) && final(table).same_except(*old(table), -1),
        },
{
    let mut s = take_socket(table, fd)?;
    if s.kind != SocketKind::Stream {
        put_socket(table, fd, s);
        return Err(Errno::EOPNOTSUPP);
    }
    s.listening = true;
    put_socket(table, fd, s);
    Ok(())
}

/// The `SO_TYPE` of a socket of kind `k`.
pub open spec fn socket_type_of(k: SocketKind) -> i32 {
    match k {
        SocketKind::Stream => SOCK_STREAM as i32,
        SocketKind::Datagram => SOCK_DGRAM as i32,
    }
}

/// `setsockopt(fd, level, optname, optval, optlen)` with `input` read from
/// `optval`: `EBADF` when `fd` is not open and `ENOTSOCK` when it is not a
/// socket, with the table unchanged; otherwise the socket's options become
/// what `set_option_of` makes of them, or stay as they were on an error.
pub fn setsockopt_socket<F, D, P>(
    table: &mut FdTable<FdEntry<F, D, P>>,
    fd: i32,
    level: i32,
    optname: i32,
    optval: u64,
    optlen: u64,
    input: OptInput,
) -> (r: Result<SetEffect, Errno>)
    requires
        old(table).wf(),
        input matches OptInput::Timeval { sec, usec } ==> sec < 0 || sec * 1_000_000 + 999_999
            <= u64::MAX,
    ensures
        final(table).wf(),
        final(table).limit == old(table).limit,
        match old(table).slot(fd as int) {
            None => r == Err::<SetEffect, Errno>(Errno::EBADF) && unchanged(*old(table), *final(table)),
            Some(FdEntry::Socket(s)) => match set_option_of(
                s.options,
                socket_option_of(level, optname),
                optval,
                optlen,
                input,
            ) {
                Ok((o, eff)) => r == Ok::<SetEffect, Errno>(eff) && socket_updated(
                    *old(table),
                    *final(table),
                    fd as int,
                    SocketView { options: o, ..sview(s) },
                ),
                Err(e) => r == Err::<SetEffect, Errno>(e) && socket_updated(
                    *old(table),
                    *final(table),
                    fd as int,
                    sview(s),
                ),
            },
            Some(_) => r == Err::<SetEffect, Errno>(Errno::ENOTSOCK) && final(table).same_except(
                *old(table),
                -1,
            ),
        },
{
    let mut s = take_socket(table, fd)?;
    let opt = socket_option(level, optname);
    let r = s.options.set_option(opt, optval, optlen, input);
    put_socket(table, fd, s);
    r
}

/// What `getsockopt(fd, level, optname, optval, optlen)` reports, given the
/// buffer length read at `optlen` (`None` when it cannot be read), the
/// socket's pending error and the network stack's `TCP_NODELAY` answer: a
/// null `optval` or `optlen` is `EFAULT` before anything else, then `EBADF`
/// and `ENOTSOCK` for a descriptor that is not a socket, then `EFAULT` when
/// the option needs the length and it cannot be read; otherwise what
/// `getsockopt_reply_of` reports for the socket's type and options.
pub open spec fn getsockopt_of<F, D, P>(
    t: FdTable<FdEntry<F, D, P>>,
    fd: int,
    level: i32,
    optname: i32,
    optval: u64,
    optlen: u64,
    len: Option<u32>,
    pending_error: i32,
    nodelay: Result<bool, Errno>,
) -> Result<(Seq<u8>, u32), Errno> {
    if optval == 0 || optlen == 0 {
        Err(Errno::EFAULT)
    } else {
        match t.slot(fd) {
            None => Err(Errno::EBADF),
            Some(FdEntry::Socket(s)) => {
                let opt = socket_option_of(level, optname);
                if (opt matches Some(o) && reads_len_of(o)) && len is None {
                    Err(Errno::EFAULT)
                } else {
                    getsockopt_reply_of(
                        opt,
                        match len {
                            Some(l) => l,
                            None => 0u32,
                        },
                        opt_state_of(s.options, socket_type_of(s.kind), pending_error, nodelay),
                    )
                }
            },
            Some(_) => Err(Errno::ENOTSOCK),
        }
    }
}

/// Computes what `getsockopt` reports (see `getsockopt_of`).
pub fn getsockopt_socket<F, D, P>(
    table: &FdTable<FdEntry<F, D, P>>,
    fd: i32,
    level: i32,
    optname: i32,
    optval: u64,
    optlen: u64,
    len: Option<u32>,
    pending_error: i32,
    nodelay: Result<bool, Errno>,
) -> (r: Result<OptReply, Errno>)
    ensures
        match (r, getsockopt_of(*table, fd as int, level, optname, optval, optlen, len, pending_error, nodelay)) {
            (Ok(rep), Ok((bytes, l))) => rep.value@ == bytes && rep.len == l,
            (Err(e), Err(f)) => e == f,
            _ => false,
        },
{
    if optval == 0 || optlen == 0 {
        return Err(Errno::EFAULT);
    }
    let s = match table.entry(fd)? {
        FdEntry::Socket(s) => s,
        _ => return Err(Errno::ENOTSOCK),
    };
    let opt = socket_option(level, optname);
    let needs_len = match opt {
        Some(o) => reads_len(o),
        None => false,
    };
    if needs_len && len.is_none() {
        return Err(Errno::EFAULT);
    }
    let l = match len {
        Some(l) => l,
        None => 0,
    };
    let ty: i32 = match s.kind {
        SocketKind::Stream => SOCK_STREAM as i32,
        SocketKind::Datagram => SOCK_DGRAM as i32,
    };
    let st = opt_state(&s.options, ty, pending_error, nodelay);
    getsockopt_reply(opt, l, st)
}

/// Descriptor `i` of `t` is a socket of kind `kind` bound to `port`, and
/// listening if `need_listening`.
pub open spec fn socket_matches<F, D, P>(
    t: FdTable<FdEntry<F, D, P>>,
    i: int,
    kind: SocketKind,
    port: u16,
    need_listening: bool,
) -> bool {
    socket_at(t, i) matches Some(s) && s.kind == kind && s.local_port == port && (!need_listening
        || s.listening)
}

/// The lowest descriptor of `t` that is a socket of kind `kind` bound to
/// `port` (listening, if `need_listening`).
pub fn find_socket<F, D, P>(
    table: &FdTable<FdEntry<F, D, P>>,
    kind: SocketKind,
    port: u16,
    need_listening: bool,
) -> (r: Option<usize>)
    ensures
        match r {
            Some(i) => socket_matches(*table, i as int, kind, port, need_listening) && i < table.entries@.len()
                && forall|j: int| 0 <= j < i ==> !#[trigger] socket_matches(*table, j, kind, port, need_listening),
            None => forall|j: int| !#[trigger] socket_matches(*table, j, kind, port, need_listening),
        },
{
    let mut i: usize = 0;
    while i < table.entries.len()
        invariant
            i <= table.entries@.len(),
            forall|j: int| 0 <= j < i ==> !#[trigger] socket_matches(*table, j, kind, port, need_listening),
        decreases table.entries@.len() - i,
    {
        match &table.entries[i] {
            Some(FdEntry::Socket(s)) => {
                if s.kind == kind && s.local_port == port && (!need_listening || s.listening) {
                    return Some(i);
                }
            },
            _ => {},
        }
        i = i + 1;
    }
    None
}

/// `connect`: connects the stream socket of `fd` to the listening stream
/// socket bound to the port of `addr` (the lowest such descriptor), which
/// then has a connection waiting; `ECONNREFUSED` when there is none.
pub fn connect_socket<F, D, P>(table: &mut FdTable<FdEntry<F, D, P>>, fd: i32, addr: SockAddrIn) -> (r:
    Result<(), Errno>)
    requires
        old(table).wf(),
        old(table).entries@.len() <= i32::MAX,
    ensures
        final(table).wf(),
        final(table).limit == old(table).limit,
        match old(table).slot(fd as int) {
            None => r == Err::<(), Errno>(Errno::EBADF) && unchanged(*old(table), *final(table)),
            Some(FdEntry::Socket(c)) => if c.kind != SocketKind::Stream {
                r == Err::<(), Errno>(Errno::EOPNOTSUPP) && unchanged(*old(table), *final(table))
            } else if forall|j: int| !#[trigger] socket_matches(*old(table), j, SocketKind::Stream, addr.port, true) {
                r == Err::<(), Errno>(Errno::ECONNREFUSED) && unchanged(*old(table), *final(table))
            } else {
                r is Ok && exists|l: int| {
                    &&& #[trigger] socket_matches(*old(table), l, SocketKind::Stream, addr.port, true)
                    &&& forall|j: int| 0 <= j < l ==> !#[trigger] socket_matches(*old(table), j, SocketKind::Stream, addr.port, true)
                    &&& socket_updated(*old(table), *final(table), l, SocketView {
                        pending_stream: true,
                        ..socket_at(*old(table), l)->0
                    })
                }
            },
            Some(_) => r == Err::<(), Errno>(Errno::ENOTSOCK) && unchanged(*old(table), *final(table)),
        },
{
    match table.entry(fd)? {
        FdEntry::Socket(c) => {
            if c.kind != SocketKind::Stream {
                return Err(Errno::EOPNOTSUPP);
            }
        },
        _ => return Err(Errno::ENOTSOCK),
    }
    let l = match find_socket(table, SocketKind::Stream, addr.port, true) {
        Some(l) => l,
        None => return Err(Errno::ECONNREFUSED),
    };
    let ghost t0 = *table;
    let mut s = match take_socket(table, l as i32) {
        Ok(s) => s,
        Err(e) => return Err(e),
    };
    s.pending_stream = true;
    put_socket(table, l as i32, s);
    proof {
        assert(socket_matches(t0, l as int, SocketKind::Stream, addr.port, true));
    }
    Ok(())
}

/// The descriptor part of what `accept` returns.
pub open spec fn fd_part(r: Result<(i32, SockAddrIn), Errno>) -> Result<i32, Errno> {
    match r {
        Ok((n, _)) => Ok(n),
        Err(x) => Err(x),
    }
}

/// `accept`: takes the connection waiting on the listening stream socket of
/// `fd` and opens a descriptor for the new, connected socket, which shares
/// the listener's port; the peer is reported at 127.0.0.1 on that port.
/// `EINVAL` when `fd` is not a listening stream socket.
pub fn accept_socket<F, D, P>(table: &mut FdTable<FdEntry<F, D, P>>, fd: i32, flags: u32) -> (r: Result<
    (i32, SockAddrIn),
    Errno,
>)
    requires
        old(table).wf(),
    ensures
        final(table).wf(),
        final(table).limit == old(table).limit,
        match old(table).slot(fd as int) {
            None => r == Err::<(i32, SockAddrIn), Errno>(Errno::EBADF) && unchanged(*old(table), *final(table)),
            Some(FdEntry::Socket(l)) => if l.kind != SocketKind::Stream || !l.listening {
                r == Err::<(i32, SockAddrIn), Errno>(Errno::EINVAL) && final(table).same_except(*old(table), -1)
            } else {
                exists|mid: FdTable<FdEntry<F, D, P>>, e: FdEntry<F, D, P>| {
                    &&& socket_updated(*old(table), mid, fd as int, SocketView { pending_stream: false, ..sview(l) })
                    &&& #[trigger] crate::fdtable::inserted(mid, *final(table), e, 0, fd_part(r))
                    &&& (e matches FdEntry::Socket(a) && sview(a) == SocketView {
                        kind: SocketKind::Stream,
                        cloexec: flags & SOCK_CLOEXEC != 0,
                        nonblock: flags & SOCK_NONBLOCK != 0,
                        local_port: l.local_port,
                        queue: Seq::empty(),
                        listening: false,
                        pending_stream: false,
                        options: default_socket_options(),
                    })
                    &&& (r matches Ok((_, a)) ==> a == SockAddrIn { family: AF_INET, port: l.local_port, addr: LOOPBACK_ADDR })
                }
            },
            Some(_) => r == Err::<(i32, SockAddrIn), Errno>(Errno::ENOTSOCK) && final(table).same_except(*old(table), -1),
        },
{
    let mut l = take_socket(table, fd)?;
    if l.kind != SocketKind::Stream || !l.listening {
        put_socket(table, fd, l);
        return Err(Errno::EINVAL);
    }
    l.pending_stream = false;
    let port = l.local_port;
    put_socket(table, fd, l);
    let ghost mid = *table;
    let addr = SockAddrIn { family: AF_INET, port, addr: LOOPBACK_ADDR };
    let accepted = SocketEntry {
        kind: SocketKind::Stream,
        cloexec: flags & SOCK_CLOEXEC != 0,
        nonblock: flags & SOCK_NONBLOCK != 0,
        local_port: port,
        recv_queue: Vec::new(),
        listening: false,
        pending_stream: false,
        options: SocketOptions::new(),
    };
    assert(views(accepted.recv_queue@) =~= Seq::<Seq<u8>>::empty());
    let e = FdEntry::Socket(accepted);
    let ghost ge = e;
    let r = table.insert(e);
    assert(crate::fdtable::inserted(mid, *table, ge, 0, r));
    match r {
        Ok(n) => Ok((n, addr)),
        Err(x) => Err(x),
    }
}

/// `sendto`: queues a copy of `data` on the lowest datagram socket bound to
/// the port of `addr` (the sender itself included) and reports its length;
/// `ECONNREFUSED` when no socket is bound there.
pub fn sendto_socket<F, D, P>(
    table: &mut FdTable<FdEntry<F, D, P>>,
    fd: i32,
    data: &[u8],
    addr: SockAddrIn,
) -> (r: Result<usize, Errno>)
    requires
        old(table).wf(),
        old(table).entries@.len() <= i32::MAX,
    ensures
        final(table).wf(),
        final(table).limit == old(table).limit,
        match old(table).slot(fd as int) {
            None => r == Err::<usize, Errno>(Errno::EBADF) && unchanged(*old(table), *final(table)),
            Some(FdEntry::Socket(c)) => if c.kind != SocketKind::Datagram {
                r == Err::<usize, Errno>(Errno::EOPNOTSUPP) && unchanged(*old(table), *final(table))
            } else if forall|j: int| !#[trigger] socket_matches(*old(table), j, SocketKind::Datagram, addr.port, false) {
                r == Err::<usize, Errno>(Errno::ECONNREFUSED) && unchanged(*old(table), *final(table))
            } else {
                r == Ok::<usize, Errno>(data@.len() as usize) && exists|d: int| {
                    &&& #[trigger] socket_matches(*old(table), d, SocketKind::Datagram, addr.port, false)
                    &&& forall|j: int| 0 <= j < d ==> !#[trigger] socket_matches(*old(table), j, SocketKind::Datagram, addr.port, false)
                    &&& socket_updated(*old(table), *final(table), d, SocketView {
                        queue: socket_at(*old(table), d)->0.queue.push(data@),
                        ..socket_at(*old(table), d)->0
                    })
                }
            },
            Some(_) => r == Err::<usize, Errno>(Errno::ENOTSOCK) && unchanged(*old(table), *final(table)),
        },
{
    match table.entry(fd)? {
        FdEntry::Socket(c) => {
            if c.kind != SocketKind::Datagram {
                return Err(Errno::EOPNOTSUPP);
            }
        },
        _ => return Err(Errno::ENOTSOCK),
    }
    let d = match find_socket(table, SocketKind::Datagram, addr.port, false) {
        Some(d) => d,
        None => return Err(Errno::ECONNREFUSED),
    };
    let ghost t0 = *table;
    let mut s = match take_socket(table, d as i32) {
        Ok(s) => s,
        Err(e) => return Err(e),
    };
    let ghost q0 = views(s.recv_queue@);
    let mut copy: Vec<u8> = Vec::new();
    let mut i: usize = 0;
    while i < data.len()
        invariant
            i <= data@.len(),
            copy@ == data@.subrange(0, i as int),
        decreases data@.len() - i,
    {
        copy.push(data[i]);
        i = i + 1;
        assert(copy@ =~= data@.subrange(0, i as int));
    }
    assert(data@.subrange(0, data@.len() as int) =~= data@);
    s.recv_queue.push(copy);
    assert(views(s.recv_queue@) =~= q0.push(data@));
    put_socket(table, d as i32, s);
    proof {
        assert(socket_matches(t0, d as int, SocketKind::Datagram, addr.port, false));
    }
    Ok(data.len())
}

/// `recvfrom` (and `read`) on the datagram socket of `fd`: takes the oldest
/// queued datagram, copies as much of it as fits into `dst` (the rest is
/// lost) and reports the length copied and the sender, 127.0.0.1 on the
/// socket's own port; `EAGAIN` when nothing is queued.
pub fn recvfrom_socket<F, D, P>(table: &mut FdTable<FdEntry<F, D, P>>, fd: i32, dst: &mut [u8]) -> (r: Result<
    (usize, SockAddrIn),
    Errno,
>)
    requires
        old(table).wf(),
    ensures
        final(table).wf(),
        final(table).limit == old(table).limit,
        final(dst)@.len() == old(dst)@.len(),
        match old(table).slot(fd as int) {
            None => r == Err::<(usize, SockAddrIn), Errno>(Errno::EBADF) && unchanged(*old(table), *final(table))
                && final(dst)@ == old(dst)@,
            Some(FdEntry::Socket(s)) => if s.kind != SocketKind::Datagram {
                r == Err::<(usize, SockAddrIn), Errno>(Errno::EOPNOTSUPP) && final(table).same_except(*old(table), -1)
                    && final(dst)@ == old(dst)@
            } else if s.recv_queue@.len() == 0 {
                r == Err::<(usize, SockAddrIn), Errno>(Errno::EAGAIN) && final(table).same_except(*old(table), -1)
                    && final(dst)@ == old(dst)@
            } else {
                let first = s.recv_queue@[0]@;
                let n = if old(dst)@.len() < first.len() { old(dst)@.len() as int } else { first.len() as int };
                &&& r == Ok::<(usize, SockAddrIn), Errno>((n as usize, SockAddrIn { family: AF_INET, port: s.local_port, addr: LOOPBACK_ADDR }))
                &&& final(dst)@ == first.subrange(0, n) + old(dst)@.subrange(n, old(dst)@.len() as int)
                &&& socket_updated(*old(table), *final(table), fd as int, SocketView {
                    queue: sview(s).queue.drop_first(),
                    ..sview(s)
                })
            },
            Some(_) => r == Err::<(usize, SockAddrIn), Errno>(Errno::ENOTSOCK) && final(table).same_except(*old(table), -1)
                && final(dst)@ == old(dst)@,
        },
{
    let mut s = take_socket(table, fd)?;
    if s.kind != SocketKind::Datagram {
        put_socket(table, fd, s);
        return Err(Errno::EOPNOTSUPP);
    }
    if s.recv_queue.len() == 0 {
        put_socket(table, fd, s);
        return Err(Errno::EAGAIN);
    }
    let ghost q0 = views(s.recv_queue@);
    let data = s.recv_queue.remove(0);
    assert(views(s.recv_queue@) =~= q0.drop_first());
    let n = if dst.len() < data.len() { dst.len() } else { data.len() };
    let ghost d0 = dst@;
    let mut i: usize = 0;
    while i < n
        invariant
            n <= dst@.len(),
            n <= data@.len(),
            i <= n,
            dst@.len() == d0.len(),
            forall|k: int| 0 <= k < i ==> dst@[k] == data@[k],
            forall|k: int| i <= k < d0.len() ==> dst@[k] == d0[k],
        decreases n - i,
    {
        dst[i] = data[i];
        i = i + 1;
    }
    assert(dst@ =~= data@.subrange(0, n as int) + d0.subrange(n as int, d0.len() as int));
    let port = s.local_port;
    put_socket(table, fd, s);
    Ok((n, SockAddrIn { family: AF_INET, port, addr: LOOPBACK_ADDR }))
}

/// The `sockaddr_in` bytes of `a`: the family in little-endian order, then
/// the port and the address in network order, then eight zero bytes.
pub open spec fn sockaddr_bytes_of(a: SockAddrIn) -> Seq<u8> {
    seq![
        (a.family & 0xff) as u8, (a.family >> 8u16) as u8,
        (a.port >> 8u16) as u8, (a.port & 0xff) as u8,
        (a.addr >> 24u32) as u8, ((a.addr >> 16u32) & 0xff) as u8, ((a.addr >> 8u32) & 0xff) as u8, (a.addr & 0xff) as u8,
        0u8, 0u8, 0u8, 0u8, 0u8, 0u8, 0u8, 0u8
    ]
}

/// Encodes `a` as the 16 bytes of a `sockaddr_in`.
pub fn sockaddr_in_bytes(a: SockAddrIn) -> (r: [u8; 16])
    ensures
        r@ == sockaddr_bytes_of(a),
{
    let r = [
        (a.family & 0xff) as u8, (a.family >> 8u16) as u8,
        (a.port >> 8u16) as u8, (a.port & 0xff) as u8,
        (a.addr >> 24u32) as u8, ((a.addr >> 16u32) & 0xff) as u8, ((a.addr >> 8u32) & 0xff) as u8, (a.addr & 0xff) as u8,
        0, 0, 0, 0, 0, 0, 0, 0,
    ];
    assert(r@ =~= sockaddr_bytes_of(a));
    r
}

/// The address that the bytes of a `sockaddr_in` hold.
pub open spec fn sockaddr_of_bytes(b: Seq<u8>) -> SockAddrIn {
    SockAddrIn {
        family: (b[0] as u16) | ((b[1] as u16) << 8u16),
        port: ((b[2] as u16) << 8u16) | (b[3] as u16),
        addr: ((b[4] as u32) << 24u32) | ((b[5] as u32) << 16u32) | ((b[6] as u32) << 8u32) | (b[7] as u32),
    }
}

/// Checks the arguments that point at a `sockaddr_in` to read: a null
/// pointer or a length below 16 is `EINVAL`.
pub fn check_sockaddr_args(addr_ptr: u64, addrlen: u64) -> (r: Result<(), Errno>)
    ensures
        r == if addr_ptr == 0 || addrlen < 16 { Err::<(), Errno>(Errno::EINVAL) } else { Ok(()) },
{
    if addr_ptr == 0 || addrlen < 16 {
        Err(Errno::EINVAL)
    } else {
        Ok(())
    }
}

/// Decodes the 16 bytes of a `sockaddr_in`; `EAFNOSUPPORT` unless it is an
/// `AF_INET` address.
pub fn parse_sockaddr_in(b: &[u8; 16]) -> (r: Result<SockAddrIn, Errno>)
    ensures
        r == if sockaddr_of_bytes(b@).family != AF_INET {
            Err::<SockAddrIn, Errno>(Errno::EAFNOSUPPORT)
        } else {
            Ok(sockaddr_of_bytes(b@))
        },
{
    let a = SockAddrIn {
        family: (b[0] as u16) | ((b[1] as u16) << 8u16),
        port: ((b[2] as u16) << 8u16) | (b[3] as u16),
        addr: ((b[4] as u32) << 24u32) | ((b[5] as u32) << 16u32) | ((b[6] as u32) << 8u32) | (b[7] as u32),
    };
    if a.family != AF_INET {
        return Err(Errno::EAFNOSUPPORT);
    }
    Ok(a)
}

/// Decoding the bytes that encoding an address gives yields the address.
pub proof fn sockaddr_round_trip(a: SockAddrIn)
    ensures
        sockaddr_of_bytes(sockaddr_bytes_of(a)) == a,
{
    let b = sockaddr_bytes_of(a);
    let f = a.family;
    let p = a.port;
    let x = a.addr;
    assert(((f & 0xff) as u8 as u16) | (((f >> 8u16) as u8 as u16) << 8u16) == f) by (bit_vector);
    assert((((p >> 8u16) as u8 as u16) << 8u16) | ((p & 0xff) as u8 as u16) == p) by (bit_vector);
    assert((((x >> 24u32) as u8 as u32) << 24u32) | ((((x >> 16u32) & 0xff) as u8 as u32) << 16u32)
        | ((((x >> 8u32) & 0xff) as u8 as u32) << 8u32) | ((x & 0xff) as u8 as u32) == x) by (bit_vector);
}

/// A datagram sent to a socket with nothing queued is what that socket reads
/// next, and reading it leaves every socket as it was before the send.
pub proof fn datagram_round_trip<F, D, P>(
    t0: FdTable<FdEntry<F, D, P>>,
    t1: FdTable<FdEntry<F, D, P>>,
    t2: FdTable<FdEntry<F, D, P>>,
    d: int,
    data: Seq<u8>,
)
    requires
        socket_at(t0, d) matches Some(s) && s.queue.len() == 0,
        socket_updated(t0, t1, d, SocketView { queue: socket_at(t0, d)->0.queue.push(data), ..socket_at(t0, d)->0 }),
        socket_updated(t1, t2, d, SocketView { queue: socket_at(t1, d)->0.queue.drop_first(), ..socket_at(t1, d)->0 }),
    ensures
        socket_at(t1, d)->0.queue[0] == data,
        forall|j: int| #[trigger] socket_at(t2, j) == socket_at(t0, j),
{
    let s0 = socket_at(t0, d)->0;
    assert(s0.queue.push(data).drop_first() =~= s0.queue);
    assert forall|j: int| #[trigger] socket_at(t2, j) == socket_at(t0, j) by {
        if j != d {
            assert(t2.slot(j) == t1.slot(j));
            assert(t1.slot(j) == t0.slot(j));
        }
    }
}

/// What `select` asks of a descriptor.
#[derive(Clone, Copy, Debug, PartialEq, Eq, Structural)]
pub enum SelectMode {
    Read,
    Write,
    Except,
}

/// Whether descriptor `fd` of `table` is ready in `mode`, given the
/// readiness `pipe` of the pipe it may refer to.
pub open spec fn mode_ready<F, D, P>(table: FdTable<FdEntry<F, D, P>>, fd: int, mode: SelectMode, pipe: PollState) -> bool {
    match table.slot(fd) {
        None => mode == SelectMode::Except,
        Some(e) => match mode {
            SelectMode::Read => match e {
                FdEntry::Stdin | FdEntry::Stdout | FdEntry::Stderr => false,
                FdEntry::DevNull | FdEntry::File(_) | FdEntry::Directory(_) => true,
                FdEntry::Pipe(_) => pipe.readable,
                FdEntry::Socket(s) => s.recv_queue@.len() > 0 || s.listening,
            },
            SelectMode::Write => match e {
                FdEntry::Stdin | FdEntry::Directory(_) => false,
                FdEntry::Pipe(_) => pipe.writable,
                _ => true,
            },
            SelectMode::Except => false,
        },
    }
}

/// Whether descriptor `fd` is ready in `mode`, given the readiness `pipe` of
/// the pipe it may refer to: files, directories and the null device are
/// always readable, the standard streams never, a socket is readable when a
/// datagram is queued or it listens, and writing is possible everywhere but
/// on standard input and directories. A descriptor that is not open counts
/// only as an exception.
pub fn poll_mode<F, D, P>(table: &FdTable<FdEntry<F, D, P>>, fd: i32, mode: SelectMode, pipe: PollState) -> (r: bool)
    ensures
        r == mode_ready(*table, fd as int, mode, pipe),
{
    let e = match table.entry(fd) {
        Ok(e) => e,
        Err(_) => return mode == SelectMode::Except,
    };
    match mode {
        SelectMode::Read => match e {
            FdEntry::Stdin | FdEntry::Stdout | FdEntry::Stderr => false,
            FdEntry::DevNull | FdEntry::File(_) | FdEntry::Directory(_) => true,
            FdEntry::Pipe(_) => pipe.readable,
            FdEntry::Socket(s) => s.recv_queue.len() > 0 || s.listening,
        },
        SelectMode::Write => match e {
            FdEntry::Stdin | FdEntry::Directory(_) => false,
            FdEntry::Pipe(_) => pipe.writable,
            _ => true,
        },
        SelectMode::Except => false,
    }
}

/// `whence` of `lseek`: from the start.
pub const SEEK_SET: u32 = 0;
/// `whence` of `lseek`: from the current position.
pub const SEEK_CUR: u32 = 1;
/// `whence` of `lseek`: from the end.
pub const SEEK_END: u32 = 2;

/// What `lseek` does.
#[derive(Clone, Copy, Debug, PartialEq, Eq, Structural)]
pub enum LseekAction {
    /// Seek the file to this place.
    SeekFile(crate::fsmeta::SeekFrom),
    /// Report this position without moving.
    Position(u64),
}

/// `lseek(fd, offset, whence)`: the seek asked for (a negative offset from
/// the start counts as 0), then what the descriptor allows: files seek, the
/// null device stays at 0, directories are `EISDIR` and everything else
/// `ESPIPE`.
pub fn lseek_plan<F, D, P>(table: &FdTable<FdEntry<F, D, P>>, fd: i32, offset: i64, whence: u32) -> (r: Result<
    LseekAction,
    Errno,
>)
    ensures
        r == if whence != SEEK_SET && whence != SEEK_CUR && whence != SEEK_END {
            Err::<LseekAction, Errno>(Errno::EINVAL)
        } else {
            match table.slot(fd as int) {
                None => Err(Errno::EBADF),
                Some(FdEntry::File(_)) => Ok(LseekAction::SeekFile(
                    if whence == SEEK_SET {
                        crate::fsmeta::SeekFrom::Start(if offset < 0 { 0u64 } else { offset as u64 })
                    } else if whence == SEEK_CUR {
                        crate::fsmeta::SeekFrom::Current(offset)
                    } else {
                        crate::fsmeta::SeekFrom::End(offset)
                    },
                )),
                Some(FdEntry::DevNull) => Ok(LseekAction::Position(0)),
                Some(FdEntry::Directory(_)) => Err(Errno::EISDIR),
                Some(_) => Err(Errno::ESPIPE),
            }
        },
{
    let pos = if whence == SEEK_SET {
        crate::fsmeta::SeekFrom::Start(if offset < 0 { 0 } else { offset as u64 })
    } else if whence == SEEK_CUR {
        crate::fsmeta::SeekFrom::Current(offset)
    } else if whence == SEEK_END {
        crate::fsmeta::SeekFrom::End(offset)
    } else {
        return Err(Errno::EINVAL);
    };
    match table.entry(fd)? {
        FdEntry::File(_) => Ok(LseekAction::SeekFile(pos)),
        FdEntry::DevNull => Ok(LseekAction::Position(0)),
        FdEntry::Directory(_) => Err(Errno::EISDIR),
        _ => Err(Errno::ESPIPE),
    }
}

/// How `read` or `write` is carried out for a descriptor.
#[derive(Clone, Copy, Debug, PartialEq, Eq, Structural)]
pub enum TransferAction {
    /// Nothing moves; the call returns this count.
    Done(usize),
    /// Read from or write to the file.
    File,
    /// Read from or write to the pipe.
    Pipe,
    /// Write to the console.
    Console,
    /// Read the oldest datagram of the socket.
    Socket,
}

/// How `read` of `len` bytes goes on descriptor `fd`: standard input and the
/// null device are at end of file, directories are `EISDIR`, output streams
/// are `EBADF`.
pub fn read_action<F, D, P>(table: &FdTable<FdEntry<F, D, P>>, fd: i32) -> (r: Result<TransferAction, Errno>)
    ensures
        r == match table.slot(fd as int) {
            None => Err::<TransferAction, Errno>(Errno::EBADF),
            Some(FdEntry::Stdin) | Some(FdEntry::DevNull) => Ok(TransferAction::Done(0)),
            Some(FdEntry::File(_)) => Ok(TransferAction::File),
            Some(FdEntry::Directory(_)) => Err(Errno::EISDIR),
            Some(FdEntry::Pipe(_)) => Ok(TransferAction::Pipe),
            Some(FdEntry::Socket(_)) => Ok(TransferAction::Socket),
            Some(_) => Err(Errno::EBADF),
        },
{
    match table.entry(fd)? {
        FdEntry::Stdin | FdEntry::DevNull => Ok(TransferAction::Done(0)),
        FdEntry::File(_) => Ok(TransferAction::File),
        FdEntry::Directory(_) => Err(Errno::EISDIR),
        FdEntry::Pipe(_) => Ok(TransferAction::Pipe),
        FdEntry::Socket(_) => Ok(TransferAction::Socket),
        _ => Err(Errno::EBADF),
    }
}

/// How `write` of `len` bytes goes on descriptor `fd`: the null device and
/// sockets take everything, standard input and directories are `EBADF`.
pub fn write_action<F, D, P>(table: &FdTable<FdEntry<F, D, P>>, fd: i32, len: usize) -> (r: Result<TransferAction, Errno>)
    ensures
        r == match table.slot(fd as int) {
            None => Err::<TransferAction, Errno>(Errno::EBADF),
            Some(FdEntry::Stdout) | Some(FdEntry::Stderr) => Ok(TransferAction::Console),
            Some(FdEntry::DevNull) | Some(FdEntry::Socket(_)) => Ok(TransferAction::Done(len)),
            Some(FdEntry::File(_)) => Ok(TransferAction::File),
            Some(FdEntry::Pipe(_)) => Ok(TransferAction::Pipe),
            Some(_) => Err(Errno::EBADF),
        },
{
    match table.entry(fd)? {
        FdEntry::Stdout | FdEntry::Stderr => Ok(TransferAction::Console),
        FdEntry::DevNull | FdEntry::Socket(_) => Ok(TransferAction::Done(len)),
        FdEntry::File(_) => Ok(TransferAction::File),
        FdEntry::Pipe(_) => Ok(TransferAction::Pipe),
        _ => Err(Errno::EBADF),
    }
}

/// `read` on the socket of `fd`: takes the oldest queued datagram and copies
/// as much of it as fits into `dst`; `EAGAIN` when nothing is queued.
pub fn read_socket<F, D, P>(table: &mut FdTable<FdEntry<F, D, P>>, fd: i32, dst: &mut [u8]) -> (r: Result<usize, Errno>)
    requires
        old(table).wf(),
    ensures
        final(table).wf(),
        final(table).limit == old(table).limit,
        final(dst)@.len() == old(dst)@.len(),
        match old(table).slot(fd as int) {
            None => r == Err::<usize, Errno>(Errno::EBADF) && unchanged(*old(table), *final(table))
                && final(dst)@ == old(dst)@,
            Some(FdEntry::Socket(s)) => if s.recv_queue@.len() == 0 {
                r == Err::<usize, Errno>(Errno::EAGAIN) && final(table).same_except(*old(table), -1)
                    && final(dst)@ == old(dst)@
            } else {
                let first = s.recv_queue@[0]@;
                let n = if old(dst)@.len() < first.len() { old(dst)@.len() as int } else { first.len() as int };
                &&& r == Ok::<usize, Errno>(n as usize)
                &&& final(dst)@ == first.subrange(0, n) + old(dst)@.subrange(n, old(dst)@.len() as int)
                &&& socket_updated(*old(table), *final(table), fd as int, SocketView {
                    queue: sview(s).queue.drop_first(),
                    ..sview(s)
                })
            },
            Some(_) => r == Err::<usize, Errno>(Errno::ENOTSOCK) && final(table).same_except(*old(table), -1)
                && final(dst)@ == old(dst)@,
        },
{
    let mut s = take_socket(table, fd)?;
    if s.recv_queue.len() == 0 {
        put_socket(table, fd, s);
        return Err(Errno::EAGAIN);
    }
    let ghost q0 = views(s.recv_queue@);
    let data = s.recv_queue.remove(0);
    assert(views(s.recv_queue@) =~= q0.drop_first());
    let n = if dst.len() < data.len() { dst.len() } else { data.len() };
    let ghost d0 = dst@;
    let mut i: usize = 0;
    while i < n
        invariant
            n <= dst@.len(),
            n <= data@.len(),
            i <= n,
            dst@.len() == d0.len(),
            forall|k: int| 0 <= k < i ==> dst@[k] == data@[k],
            forall|k: int| i <= k < d0.len() ==> dst@[k] == d0[k],
        decreases n - i,
    {
        dst[i] = data[i];
        i = i + 1;
    }
    assert(dst@ =~= data@.subrange(0, n as int) + d0.subrange(n as int, d0.len() as int));
    put_socket(table, fd, s);
    Ok(n)
}

/// What `/proc/self/fd/<fd>` links to for descriptor `fd`.
pub open spec fn link_target_of<F, D, P>(e: FdEntry<F, D, P>, fd: i32) -> Seq<u8> {
    match e {
        FdEntry::Stdin | FdEntry::Stdout | FdEntry::Stderr => lit("/dev/console"),
        FdEntry::DevNull => lit("/dev/null"),
        FdEntry::File(f) => f.path@,
        FdEntry::Directory(d) => d.path@,
        FdEntry::Pipe(_) => lit("pipe:[") + decimal_of(fd as int) + lit("]"),
        FdEntry::Socket(_) => lit("socket:[") + decimal_of(fd as int) + lit("]"),
    }
}

/// The `/proc` link of descriptor `fd`; none when it is not open.
pub fn fd_link_target<F, D, P>(table: &FdTable<FdEntry<F, D, P>>, fd: i32) -> (r: Option<Vec<u8>>)
    ensures
        match table.slot(fd as int) {
            None => r is None,
            Some(e) => r matches Some(t) && t@ == link_target_of(e, fd),
        },
{
    let e = match table.entry(fd) {
        Ok(e) => e,
        Err(_) => return None,
    };
    let mut t: Vec<u8> = Vec::new();
    let head = match e {
        FdEntry::Stdin | FdEntry::Stdout | FdEntry::Stderr => {
            append_bytes(&mut t, "/dev/console".as_bytes());
            return Some(t);
        },
        FdEntry::DevNull => {
            append_bytes(&mut t, "/dev/null".as_bytes());
            return Some(t);
        },
        FdEntry::File(f) => {
            append_bytes(&mut t, f.path.as_slice());
            return Some(t);
        },
        FdEntry::Directory(d) => {
            append_bytes(&mut t, d.path.as_slice());
            return Some(t);
        },
        FdEntry::Pipe(_) => "pipe:[".as_bytes(),
        FdEntry::Socket(_) => "socket:[".as_bytes(),
    };
    append_bytes(&mut t, head);
    let d = decimal(fd as i64);
    append_bytes(&mut t, d.as_slice());
    append_bytes(&mut t, "]".as_bytes());
    proof {
        assert(t@ =~= link_target_of(*e, fd));
    }
    Some(t)
}

/// What a `/proc` magic link names.
#[derive(Debug)]
pub enum ProcLink {
    /// The path of the running program.
    ExecPath,
    /// The current working directory.
    Cwd,
    /// This text.
    Text(Vec<u8>),
    /// The target of this descriptor.
    Fd(i32),
}

/// The view of a `/proc` magic link.
pub enum ProcLinkView {
    ExecPath,
    Cwd,
    Text(Seq<u8>),
    Fd(i32),
}

/// The view of `l`.
pub open spec fn proc_link_view(l: ProcLink) -> ProcLinkView {
    match l {
        ProcLink::ExecPath => ProcLinkView::ExecPath,
        ProcLink::Cwd => ProcLinkView::Cwd,
        ProcLink::Text(t) => ProcLinkView::Text(t@),
        ProcLink::Fd(fd) => ProcLinkView::Fd(fd),
    }
}

/// `/proc/` followed by the decimal process id `pid` and `tail`.
pub open spec fn proc_pid_path(pid: i32, tail: Seq<u8>) -> Seq<u8> {
    lit("/proc/") + decimal_of(pid as int) + tail
}

/// What the path `path` names as a `/proc` magic link of thread `tid` of
/// process `pid`: its program, working directory, root or thread directory,
/// or one of its descriptors (by number, which must parse as an `i32`).
pub open spec fn proc_link_of(path: Seq<u8>, pid: i32, tid: i32) -> Option<ProcLinkView> {
    let n = normalized(lit("/"), path);
    if n == lit("/proc/self/exe") || n == proc_pid_path(pid, lit("/exe")) {
        Some(ProcLinkView::ExecPath)
    } else if n == lit("/proc/self/cwd") || n == proc_pid_path(pid, lit("/cwd")) {
        Some(ProcLinkView::Cwd)
    } else if n == lit("/proc/self/root") || n == proc_pid_path(pid, lit("/root")) {
        Some(ProcLinkView::Text(lit("/")))
    } else if n == lit("/proc/thread-self") {
        Some(ProcLinkView::Text(proc_pid_path(pid, lit("/task/") + decimal_of(tid as int))))
    } else if has_prefix(n, lit("/proc/self/fd/")) {
        match parse_i32_spec(n.skip(lit("/proc/self/fd/").len() as int)) {
            Some(fd) => Some(ProcLinkView::Fd(fd)),
            None => None,
        }
    } else if has_prefix(n, proc_pid_path(pid, lit("/fd/"))) {
        match parse_i32_spec(n.skip(proc_pid_path(pid, lit("/fd/")).len() as int)) {
            Some(fd) => Some(ProcLinkView::Fd(fd)),
            None => None,
        }
    } else {
        None
    }
}

/// `/proc/<pid>` followed by `tail`.
fn proc_pid_text(pid: i32, tail: &[u8]) -> (r: Vec<u8>)
    ensures
        r@ == proc_pid_path(pid, tail@),
{
    let mut t: Vec<u8> = Vec::new();
    append_bytes(&mut t, "/proc/".as_bytes());
    let d = decimal(pid as i64);
    append_bytes(&mut t, d.as_slice());
    append_bytes(&mut t, tail);
    t
}

/// Resolves a `/proc` magic link for thread `tid` of process `pid`.
pub fn proc_magiclink(path: &[u8], pid: i32, tid: i32) -> (r: Option<ProcLink>)
    ensures
        match r {
            Some(l) => proc_link_of(path@, pid, tid) == Some(proc_link_view(l)),
            None => proc_link_of(path@, pid, tid) is None,
        },
{
    let n = normalize_path("/".as_bytes(), path).unwrap();
    let ns = n.as_slice();
    let exe = proc_pid_text(pid, "/exe".as_bytes());
    if bytes_eq(ns, "/proc/self/exe".as_bytes()) || bytes_eq(ns, exe.as_slice()) {
        return Some(ProcLink::ExecPath);
    }
    let cwd = proc_pid_text(pid, "/cwd".as_bytes());
    if bytes_eq(ns, "/proc/self/cwd".as_bytes()) || bytes_eq(ns, cwd.as_slice()) {
        return Some(ProcLink::Cwd);
    }
    let root = proc_pid_text(pid, "/root".as_bytes());
    if bytes_eq(ns, "/proc/self/root".as_bytes()) || bytes_eq(ns, root.as_slice()) {
        let mut t: Vec<u8> = Vec::new();
        append_bytes(&mut t, "/".as_bytes());
        return Some(ProcLink::Text(t));
    }
    if bytes_eq(ns, "/proc/thread-self".as_bytes()) {
        let mut tail: Vec<u8> = Vec::new();
        append_bytes(&mut tail, "/task/".as_bytes());
        let d = decimal(tid as i64);
        append_bytes(&mut tail, d.as_slice());
        return Some(ProcLink::Text(proc_pid_text(pid, tail.as_slice())));
    }
    let self_fd = "/proc/self/fd/".as_bytes();
    if starts_with(ns, self_fd) {
        let rest = copy_range(ns, self_fd.len(), ns.len());
        assert(rest@ =~= n@.skip(self_fd@.len() as int));
        return match parse_i32(rest.as_slice()) {
            Some(fd) => Some(ProcLink::Fd(fd)),
            None => None,
        };
    }
    let pid_fd = proc_pid_text(pid, "/fd/".as_bytes());
    if starts_with(ns, pid_fd.as_slice()) {
        let rest = copy_range(ns, pid_fd.len(), ns.len());
        assert(rest@ =~= n@.skip(pid_fd@.len() as int));
        return match parse_i32(rest.as_slice()) {
            Some(fd) => Some(ProcLink::Fd(fd)),
            None => None,
        };
    }
    None
}

/// `dirfd` value that stands for the current working directory.
pub const AT_FDCWD: i32 = -100;

/// Whether `path` is absolute.
pub open spec fn is_absolute(path: Seq<u8>) -> bool {
    path.len() > 0 && path[0] == 47
}

/// The directory a path given relative to `dirfd` is resolved from:
/// absolute paths from `/`, relative ones from `cwd` for `AT_FDCWD` and
/// otherwise from the directory `dirfd` refers to (`EBADF` when it is not
/// open, `ENOTDIR` when it is not a directory).
pub open spec fn dirfd_base<F, D, P>(
    table: FdTable<FdEntry<F, D, P>>,
    cwd: Seq<u8>,
    dirfd: i32,
    path: Seq<u8>,
) -> Result<Seq<u8>, Errno> {
    if is_absolute(path) {
        Ok(lit("/"))
    } else if dirfd == AT_FDCWD {
        Ok(cwd)
    } else {
        match table.slot(dirfd as int) {
            None => Err(Errno::EBADF),
            Some(FdEntry::Directory(d)) => Ok(d.path@),
            Some(_) => Err(Errno::ENOTDIR),
        }
    }
}

/// The directory of descriptor `dirfd`, or why there is none.
fn directory_path<F, D, P>(table: &FdTable<FdEntry<F, D, P>>, dirfd: i32) -> (r: Result<&[u8], Errno>)
    ensures
        match table.slot(dirfd as int) {
            None => r == Err::<&[u8], Errno>(Errno::EBADF),
            Some(FdEntry::Directory(d)) => r matches Ok(p) && p@ == d.path@,
            Some(_) => r == Err::<&[u8], Errno>(Errno::ENOTDIR),
        },
{
    match table.entry(dirfd)? {
        FdEntry::Directory(d) => Ok(d.path.as_slice()),
        _ => Err(Errno::ENOTDIR),
    }
}

/// The absolute path that `path` names relative to `dirfd`, for a process
/// whose working directory is `cwd`.
pub fn resolve_dirfd_path<F, D, P>(table: &FdTable<FdEntry<F, D, P>>, cwd: &[u8], dirfd: i32, path: &[u8]) -> (r:
    Result<Vec<u8>, Errno>)
    ensures
        match dirfd_base(*table, cwd@, dirfd, path@) {
            Ok(b) => r matches Ok(v) && v@ == normalized(b, path@),
            Err(e) => r == Err::<Vec<u8>, Errno>(e),
        },
{
    if path.len() > 0 && path[0] == 47 {
        return Ok(normalize_path("/".as_bytes(), path).unwrap());
    }
    if dirfd == AT_FDCWD {
        return Ok(normalize_path(cwd, path).unwrap());
    }
    let base = directory_path(table, dirfd)?;
    Ok(normalize_path(base, path).unwrap())
}

/// `c` extended with each of `xs` in turn that it does not hold yet.
pub open spec fn push_all_unique(c: Seq<Seq<u8>>, xs: Seq<Seq<u8>>) -> Seq<Seq<u8>>
    decreases xs.len(),
{
    if xs.len() == 0 {
        c
    } else {
        push_unique(push_all_unique(c, xs.drop_last()), xs.last())
    }
}

/// Appends each of `xs` that `c` does not hold yet.
fn extend_unique(c: &mut Vec<Vec<u8>>, xs: Vec<Vec<u8>>)
    ensures
        views(final(c)@) == push_all_unique(views(old(c)@), views(xs@)),
{
    let ghost c0 = views(c@);
    let mut i: usize = 0;
    while i < xs.len()
        invariant
            i <= xs@.len(),
            views(c@) == push_all_unique(c0, views(xs@).take(i as int)),
        decreases xs@.len() - i,
    {
        let x = crate::path::copy_all(xs[i].as_slice());
        push_runtime_candidate(c, Some(x));
        assert(views(xs@).take(i + 1).drop_last() =~= views(xs@).take(i as int));
        i = i + 1;
    }
    assert(views(xs@).take(xs@.len() as int) =~= views(xs@));
}

/// The paths an `openat` of `path` relative to `dirfd` tries, in order, for a
/// process with working directory `cwd` whose programs live under
/// `exec_root`, and whether they lie in the shared-memory directory (which
/// must then exist): a `/dev/shm/` path maps to its host directory, another
/// absolute path to its runtime candidates, and a relative path to its
/// resolution followed by the runtime library candidates of its name.
pub open spec fn open_targets_of<F, D, P>(
    table: FdTable<FdEntry<F, D, P>>,
    cwd: Seq<u8>,
    exec_root: Seq<u8>,
    dirfd: i32,
    path: Seq<u8>,
) -> Result<(Seq<Seq<u8>>, bool), Errno> {
    if is_absolute(path) {
        match dev_shm_of(path) {
            Some(p) => Ok((seq![p], true)),
            None => if absolute_candidates(exec_root, path).len() == 0 {
                Err(Errno::EINVAL)
            } else {
                Ok((absolute_candidates(exec_root, path), false))
            },
        }
    } else {
        match dirfd_base(table, cwd, dirfd, path) {
            Err(e) => Err(e),
            Ok(b) => Ok((push_all_unique(seq![normalized(b, path)], library_candidates(exec_root, path)), false)),
        }
    }
}

/// The paths an `openat` tries.
#[derive(Debug)]
pub struct OpenTargets {
    pub paths: Vec<Vec<u8>>,
    /// The paths lie in the shared-memory directory, which must exist.
    pub shm: bool,
}

/// The paths an `openat` of `path` relative to `dirfd` tries.
pub fn open_targets<F, D, P>(
    table: &FdTable<FdEntry<F, D, P>>,
    cwd: &[u8],
    exec_root: &[u8],
    dirfd: i32,
    path: &[u8],
) -> (r: Result<OpenTargets, Errno>)
    ensures
        match open_targets_of(*table, cwd@, exec_root@, dirfd, path@) {
            Ok((ps, shm)) => r matches Ok(t) && views(t.paths@) == ps && t.shm == shm,
            Err(e) => r matches Err(f) && f == e,
        },
{
    if path.len() > 0 && path[0] == 47 {
        if let Some(p) = dev_shm_host_path(path) {
            let mut paths: Vec<Vec<u8>> = Vec::new();
            let ghost pv = p@;
            paths.push(p);
            assert(views(paths@) =~= seq![pv]);
            return Ok(OpenTargets { paths, shm: true });
        }
        let paths = runtime_absolute_path_candidates(exec_root, path);
        if paths.len() == 0 {
            return Err(Errno::EINVAL);
        }
        return Ok(OpenTargets { paths, shm: false });
    }
    let primary = if dirfd == AT_FDCWD {
        normalize_path(cwd, path).unwrap()
    } else {
        let base = directory_path(table, dirfd)?;
        normalize_path(base, path).unwrap()
    };
    let mut paths: Vec<Vec<u8>> = Vec::new();
    let ghost pv = primary@;
    paths.push(primary);
    assert(views(paths@) =~= seq![pv]);
    let extra = runtime_library_name_candidates(exec_root, path);
    extend_unique(&mut paths, extra);
    Ok(OpenTargets { paths, shm: false })
}

/// What follows a failed attempt to open one of the paths `openat` tries.
#[derive(Clone, Copy, Debug, PartialEq, Eq, Structural)]
pub enum OpenNext {
    /// Try the next path; when none is left, the call fails with `ENOENT`.
    TryNext,
    /// The path is a directory: open it as one.
    OpenAsDirectory,
    /// The call fails with this error.
    Fail(Errno),
}

/// What follows the error `err` of opening one path, as a directory when
/// `prefer_dir`: a missing path moves on to the next, a file path that is a
/// directory is opened as one, any other error ends the call.
pub fn open_error_next(prefer_dir: bool, err: Errno) -> (r: OpenNext)
    ensures
        r == if err == Errno::ENOENT {
            OpenNext::TryNext
        } else if !prefer_dir && err == Errno::EISDIR {
            OpenNext::OpenAsDirectory
        } else {
            OpenNext::Fail(err)
        },
{
    if err == Errno::ENOENT {
        OpenNext::TryNext
    } else if !prefer_dir && err == Errno::EISDIR {
        OpenNext::OpenAsDirectory
    } else {
        OpenNext::Fail(err)
    }
}

/// Where the `stat` record of a descriptor comes from.
#[derive(Debug)]
pub enum StatSource {
    /// This record.
    Ready(FileStat),
    /// The attributes of the file or directory at `path`, with `times`.
    Attributes { path: Vec<u8>, times: FileTimes },
    /// The pipe's own record.
    Pipe,
}

/// Where `fstat(fd)` takes its record from: standard input is a readable
/// character device, the other standard streams and the null device
/// writable ones, a socket a socket; files and directories report their
/// attributes with their recorded times.
pub fn stat_source<F, D, P>(table: &FdTable<FdEntry<F, D, P>>, fd: i32) -> (r: Result<StatSource, Errno>)
    ensures
        match table.slot(fd as int) {
            None => r matches Err(e) && e == Errno::EBADF,
            Some(FdEntry::Stdin) => r matches Ok(StatSource::Ready(st)) && st == device_stat_of(ST_MODE_CHR | 0o440u32),
            Some(FdEntry::Stdout) | Some(FdEntry::Stderr) | Some(FdEntry::DevNull) => r matches Ok(
                StatSource::Ready(st),
            ) && st == device_stat_of(ST_MODE_CHR | 0o220u32),
            Some(FdEntry::Socket(_)) => r matches Ok(StatSource::Ready(st)) && st == device_stat_of(ST_MODE_SOCK | 0o666u32),
            Some(FdEntry::File(f)) => r matches Ok(StatSource::Attributes { path, times }) && path@ == f.path@
                && times == f.times,
            Some(FdEntry::Directory(d)) => r matches Ok(StatSource::Attributes { path, times }) && path@ == d.path@
                && times == d.times,
            Some(FdEntry::Pipe(_)) => r matches Ok(StatSource::Pipe),
        },
{
    match table.entry(fd)? {
        FdEntry::Stdin => Ok(StatSource::Ready(stdio_stat(true))),
        FdEntry::Stdout | FdEntry::Stderr | FdEntry::DevNull => Ok(StatSource::Ready(stdio_stat(false))),
        FdEntry::Socket(_) => Ok(StatSource::Ready(socket_stat())),
        FdEntry::File(f) => Ok(StatSource::Attributes { path: crate::path::copy_all(f.path.as_slice()), times: f.times }),
        FdEntry::Directory(d) => Ok(StatSource::Attributes { path: crate::path::copy_all(d.path.as_slice()), times: d.times }),
        FdEntry::Pipe(_) => Ok(StatSource::Pipe),
    }
}

/// `futimens`-style update of the times of descriptor `fd` at time `now`:
/// a file or directory takes the new times and the path and times to
/// record are handed back; the null device ignores the call; anything else
/// is `EINVAL`.
pub fn update_fd_times<F, D, P>(
    table: &mut FdTable<FdEntry<F, D, P>>,
    fd: i32,
    atime: UtimeUpdate,
    mtime: UtimeUpdate,
    now: TimeSpec,
) -> (r: Result<Option<(Vec<u8>, FileTimes)>, Errno>)
    requires
        old(table).wf(),
    ensures
        final(table).wf(),
        final(table).limit == old(table).limit,
        match old(table).slot(fd as int) {
            None => r matches Err(e) && e == Errno::EBADF && unchanged(*old(table), *final(table)),
            Some(FdEntry::DevNull) => r matches Ok(None) && final(table).same_except(*old(table), -1),
            Some(FdEntry::File(f)) => r matches Ok(Some((p, t))) && p@ == f.path@
                && t == apply_times_spec(f.times, atime, mtime, now) && (final(table).slot(fd as int) matches Some(
                FdEntry::File(g)) && g.path == f.path && g.handle == f.handle && g.times == t)
                && final(table).cloexec_at(fd as int) == old(table).cloexec_at(fd as int)
                && final(table).same_except(*old(table), fd as int),
            Some(FdEntry::Directory(d)) => r matches Ok(Some((p, t))) && p@ == d.path@
                && t == apply_times_spec(d.times, atime, mtime, now) && (final(table).slot(fd as int) matches Some(
                FdEntry::Directory(g)) && g.path == d.path && g.handle == d.handle && g.times == t)
                && final(table).cloexec_at(fd as int) == old(table).cloexec_at(fd as int)
                && final(table).same_except(*old(table), fd as int),
            Some(_) => r matches Err(e) && e == Errno::EINVAL && final(table).same_except(*old(table), -1),
        },
{
    let e = match table.replace_entry(fd, FdEntry::DevNull) {
        Ok(e) => e,
        Err(x) => return Err(x),
    };
    match e {
        FdEntry::File(f) => {
            let t = apply_utime_updates(f.times, atime, mtime, now);
            let p = crate::path::copy_all(f.path.as_slice());
            let _ = table.replace_entry(fd, FdEntry::File(OpenFile { handle: f.handle, path: f.path, times: t }));
            Ok(Some((p, t)))
        },
        FdEntry::Directory(d) => {
            let t = apply_utime_updates(d.times, atime, mtime, now);
            let p = crate::path::copy_all(d.path.as_slice());
            let _ = table.replace_entry(fd, FdEntry::Directory(OpenFile { handle: d.handle, path: d.path, times: t }));
            Ok(Some((p, t)))
        },
        FdEntry::DevNull => {
            let _ = table.replace_entry(fd, FdEntry::DevNull);
            Ok(None)
        },
        other => {
            let _ = table.replace_entry(fd, other);
            Err(Errno::EINVAL)
        },
    }
}

/// The times after a `utimensat`-style update at time `now`.
pub open spec fn apply_times_spec(current: FileTimes, atime: UtimeUpdate, mtime: UtimeUpdate, now: TimeSpec) -> FileTimes {
    FileTimes {
        atime: match atime.time {
            Some(t) => t,
            None => current.atime,
        },
        mtime: match mtime.time {
            Some(t) => t,
            None => current.mtime,
        },
        ctime: if !atime.omit || !mtime.omit { now } else { current.ctime },
    }
}

/// `ioctl` request: the terminal's window size.
pub const TIOCGWINSZ: u32 = 0x5413;
/// `ioctl` request: mark the descriptor close-on-exec.
pub const FIOCLEX: u32 = 0x5451;
/// `ioctl` request: switch non-blocking mode.
pub const FIONBIO: u32 = 0x5421;

/// What an `ioctl` does.
#[derive(Clone, Copy, Debug, PartialEq, Eq, Structural)]
pub enum IoctlAction {
    /// Report this window size.
    WindowSize(TerminalSize),
    /// Done; the call returns 0.
    Done,
    /// Read the flag at the argument and set the socket's non-blocking mode.
    SocketNonblocking,
    /// A request on a file, which a device file may answer.
    FileRequest,
}

/// `ioctl(fd, req)`: the window size of a standard stream, `FIOCLEX` on
/// any open descriptor (which is then closed on exec), `FIONBIO` on a
/// socket and requests on files; anything else is `ENOTTY`.
pub fn ioctl_action<F, D, P>(table: &mut FdTable<FdEntry<F, D, P>>, fd: i32, req: u32) -> (r: Result<IoctlAction, Errno>)
    requires
        old(table).wf(),
    ensures
        final(table).wf(),
        final(table).limit == old(table).limit,
        req == TIOCGWINSZ && 0 <= fd <= 2 ==> r == Ok::<IoctlAction, Errno>(IoctlAction::WindowSize(TerminalSize { rows: 24, cols: 80 }))
            && unchanged(*old(table), *final(table)),
        !(req == TIOCGWINSZ && 0 <= fd <= 2) ==> match old(table).slot(fd as int) {
            None => r == Err::<IoctlAction, Errno>(Errno::EBADF) && final(table).same_except(*old(table), -1),
            Some(e) => if req == FIOCLEX {
                r == Ok::<IoctlAction, Errno>(IoctlAction::Done) && final(table).slot(fd as int) == Some(e)
                    && final(table).cloexec_at(fd as int) && final(table).same_except(*old(table), fd as int)
            } else {
                &&& final(table).same_except(*old(table), -1)
                &&& r == match e {
                    FdEntry::Socket(_) => if req == FIONBIO {
                        Ok::<IoctlAction, Errno>(IoctlAction::SocketNonblocking)
                    } else {
                        Err(Errno::ENOTTY)
                    },
                    FdEntry::File(_) => Ok(IoctlAction::FileRequest),
                    _ => Err(Errno::ENOTTY),
                }
            },
        },
{
    if req == TIOCGWINSZ && table.is_stdio(fd) {
        return Ok(IoctlAction::WindowSize(current_terminal_size()));
    }
    if req == FIOCLEX {
        let _ = table.entry(fd)?;
        table.set_fd_flags(fd, crate::fdtable::FD_CLOEXEC)?;
        assert(1u32 & 1u32 != 0) by (bit_vector);
        return Ok(IoctlAction::Done);
    }
    match table.entry(fd)? {
        FdEntry::Socket(_) => if req == FIONBIO {
            Ok(IoctlAction::SocketNonblocking)
        } else {
            Err(Errno::ENOTTY)
        },
        FdEntry::File(_) => Ok(IoctlAction::FileRequest),
        _ => Err(Errno::ENOTTY),
    }
}

/// Number of descriptors below `n` that `bits` asks about and that are
/// ready in `mode`.
pub open spec fn fd_set_hits<F, D, P>(
    table: FdTable<FdEntry<F, D, P>>,
    bits: Seq<u64>,
    mode: SelectMode,
    pipes: Seq<PollState>,
    n: int,
) -> int
    decreases n,
{
    if n <= 0 {
        0
    } else {
        fd_set_hits(table, bits, mode, pipes, n - 1) + if has_fd(bits, n - 1) && mode_ready(table, n - 1, mode, pipes[n - 1]) {
            1int
        } else {
            0
        }
    }
}

/// One pass of `pselect6` over one descriptor set: the descriptors below
/// `nfds` that `bits` asks about and that are ready in `mode` (`pipes[fd]`
/// being the readiness of the pipe descriptor `fd` may refer to), as a set,
/// and how many there are.
pub fn poll_fd_set<F, D, P>(
    table: &FdTable<FdEntry<F, D, P>>,
    nfds: usize,
    bits: &[u64; 16],
    mode: SelectMode,
    pipes: &[PollState],
) -> (r: ([u64; 16], usize))
    requires
        nfds <= 1024,
        pipes@.len() >= nfds,
    ensures
        r.1 == fd_set_hits(*table, bits@, mode, pipes@, nfds as int),
        forall|fd: int| 0 <= fd < 1024 ==> #[trigger] has_fd(r.0@, fd) == (fd < nfds && has_fd(bits@, fd)
            && mode_ready(*table, fd, mode, pipes@[fd])),
{
    let mut ready = [0u64; 16];
    let mut count: usize = 0;
    let mut fd: usize = 0;
    proof {
        assert forall|f: int| 0 <= f < 1024 implies !#[trigger] has_fd(ready@, f) by {
            lemma_zero_bit((f % 64) as u64);
        }
    }
    while fd < nfds
        invariant
            nfds <= 1024,
            pipes@.len() >= nfds,
            fd <= nfds,
            count == fd_set_hits(*table, bits@, mode, pipes@, fd as int),
            count <= fd,
            forall|f: int| 0 <= f < 1024 ==> #[trigger] has_fd(ready@, f) == (f < fd && has_fd(bits@, f)
                && mode_ready(*table, f, mode, pipes@[f])),
        decreases nfds - fd,
    {
        let w = fd / 64;
        let b = (fd % 64) as u64;
        let asked = (bits[w] >> b) & 1u64 == 1u64;
        assert(asked == has_fd(bits@, fd as int));
        let hit = if asked { poll_mode(table, fd as i32, mode, pipes[fd]) } else { false };
        assert(hit == (has_fd(bits@, fd as int) && mode_ready(*table, fd as int, mode, pipes@[fd as int])));
        if hit {
            let ghost before = ready@;
            ready[w] = ready[w] | (1u64 << b);
            proof {
                assert forall|f: int| 0 <= f < 1024 implies #[trigger] has_fd(ready@, f) == (f < fd + 1 && has_fd(bits@, f)
                    && mode_ready(*table, f, mode, pipes@[f])) by {
                    assert(ready@ == before.update(w as int, before[w as int] | (1u64 << b)));
                    if f / 64 == w as int {
                        lemma_or_bit(before[w as int], b, (f % 64) as u64);
                        if f % 64 == b as int {
                            assert(f == fd);
                            assert(has_fd(ready@, f));
                        } else {
                            assert(f != fd);
                            assert(has_fd(ready@, f) == has_fd(before, f));
                        }
                    } else {
                        assert(ready@[f / 64] == before[f / 64]);
                        assert(has_fd(ready@, f) == has_fd(before, f));
                        assert(f != fd);
                    }
                }
            }
            count = count + 1;
        } else {
            proof {
                assert forall|f: int| 0 <= f < 1024 implies #[trigger] has_fd(ready@, f) == (f < fd + 1 && has_fd(bits@, f)
                    && mode_ready(*table, f, mode, pipes@[f])) by {
                    if f == fd {
                        assert(!hit);
                        assert(!has_fd(ready@, f));
                        assert(!(has_fd(bits@, f) && mode_ready(*table, f, mode, pipes@[f])));
                    } else {
                        assert(has_fd(ready@, f) == (f < fd && has_fd(bits@, f) && mode_ready(*table, f, mode, pipes@[f])));
                    }
                }
            }
        }
        fd = fd + 1;
    }
    (ready, count)
}

/// The readiness of what descriptor `fd` refers to, given the readiness
/// `pipe` of the pipe it may refer to: standard input is never ready,
/// standard output and error are writable, the null device and files both
/// readable and writable, directories readable, and a socket writable and
/// readable when a datagram is queued or it listens; `EBADF` when `fd` is
/// not open.
pub fn poll_state<F, D, P>(table: &FdTable<FdEntry<F, D, P>>, fd: i32, pipe: PollState) -> (r: Result<PollState, Errno>)
    ensures
        r == match table.slot(fd as int) {
            None => Err::<PollState, Errno>(Errno::EBADF),
            Some(e) => Ok(match e {
                FdEntry::Stdin => PollState { readable: false, writable: false },
                FdEntry::Stdout | FdEntry::Stderr => PollState { readable: false, writable: true },
                FdEntry::DevNull | FdEntry::File(_) => PollState { readable: true, writable: true },
                FdEntry::Directory(_) => PollState { readable: true, writable: false },
                FdEntry::Pipe(_) => pipe,
                FdEntry::Socket(s) => PollState { readable: s.recv_queue@.len() > 0 || s.listening, writable: true },
            }),
        },
{
    match table.entry(fd)? {
        FdEntry::Stdin => Ok(PollState { readable: false, writable: false }),
        FdEntry::Stdout | FdEntry::Stderr => Ok(PollState { readable: false, writable: true }),
        FdEntry::DevNull | FdEntry::File(_) => Ok(PollState { readable: true, writable: true }),
        FdEntry::Directory(_) => Ok(PollState { readable: true, writable: false }),
        FdEntry::Pipe(_) => Ok(pipe),
        FdEntry::Socket(s) => Ok(PollState { readable: s.recv_queue.len() > 0 || s.listening, writable: true }),
    }
}

} // verus!
