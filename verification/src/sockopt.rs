use vstd::prelude::*;
use crate::errno::Errno;
use crate::stack::{le_bytes, words_to_bytes, words_bytes};
use crate::timeutil::{timeval_to_timeout_us};

verus! {

/// Socket option levels and names.
pub const SOL_SOCKET: i32 = 1;
pub const IPPROTO_TCP: i32 = 6;
pub const SO_REUSEADDR: i32 = 2;
pub const SO_TYPE: i32 = 3;
pub const SO_ERROR: i32 = 4;
pub const SO_BROADCAST: i32 = 6;
pub const SO_SNDBUF: i32 = 7;
pub const SO_RCVBUF: i32 = 8;
pub const SO_KEEPALIVE: i32 = 9;
pub const SO_REUSEPORT: i32 = 15;
pub const SO_RCVTIMEO: i32 = 20;
pub const SO_SNDTIMEO: i32 = 21;
pub const TCP_NODELAY: i32 = 1;
pub const TCP_MAXSEG: i32 = 2;
pub const TCP_INFO: i32 = 11;
pub const TCP_CONGESTION: i32 = 13;
/// The segment size reported for `TCP_MAXSEG`.
pub const DEFAULT_TCP_MAXSEG: i32 = 1460;

/// The socket options the layer knows.
#[derive(Clone, Copy, Debug, PartialEq, Eq, Structural)]
pub enum SockOpt {
    RecvTimeout,
    SendTimeout,
    RecvBuf,
    SendBuf,
    ReuseAddr,
    ReusePort,
    KeepAlive,
    Broadcast,
    Type,
    Error,
    TcpNoDelay,
    TcpMaxSeg,
    TcpCongestion,
    TcpInfo,
}

/// The option that `level` and `optname` name.
pub open spec fn socket_option_of(level: i32, optname: i32) -> Option<SockOpt> {
    if level == SOL_SOCKET {
        if optname == SO_RCVTIMEO {
            Some(SockOpt::RecvTimeout)
        } else if optname == SO_SNDTIMEO {
            Some(SockOpt::SendTimeout)
        } else if optname == SO_RCVBUF {
            Some(SockOpt::RecvBuf)
        } else if optname == SO_SNDBUF {
            Some(SockOpt::SendBuf)
        } else if optname == SO_REUSEADDR {
            Some(SockOpt::ReuseAddr)
        } else if optname == SO_REUSEPORT {
            Some(SockOpt::ReusePort)
        } else if optname == SO_KEEPALIVE {
            Some(SockOpt::KeepAlive)
        } else if optname == SO_BROADCAST {
            Some(SockOpt::Broadcast)
        } else if optname == SO_TYPE {
            Some(SockOpt::Type)
        } else if optname == SO_ERROR {
            Some(SockOpt::Error)
        } else {
            None
        }
    } else if level == IPPROTO_TCP {
        if optname == TCP_NODELAY {
            Some(SockOpt::TcpNoDelay)
        } else if optname == TCP_MAXSEG {
            Some(SockOpt::TcpMaxSeg)
        } else if optname == TCP_CONGESTION {
            Some(SockOpt::TcpCongestion)
        } else if optname == TCP_INFO {
            Some(SockOpt::TcpInfo)
        } else {
            None
        }
    } else {
        None
    }
}

/// Names the option of `level` and `optname`.
pub fn socket_option(level: i32, optname: i32) -> (r: Option<SockOpt>)
    ensures
        r == socket_option_of(level, optname),
{
    if level == SOL_SOCKET {
        if optname == SO_RCVTIMEO {
            Some(SockOpt::RecvTimeout)
        } else if optname == SO_SNDTIMEO {
            Some(SockOpt::SendTimeout)
        } else if optname == SO_RCVBUF {
            Some(SockOpt::RecvBuf)
        } else if optname == SO_SNDBUF {
            Some(SockOpt::SendBuf)
        } else if optname == SO_REUSEADDR {
            Some(SockOpt::ReuseAddr)
        } else if optname == SO_REUSEPORT {
            Some(SockOpt::ReusePort)
        } else if optname == SO_KEEPALIVE {
            Some(SockOpt::KeepAlive)
        } else if optname == SO_BROADCAST {
            Some(SockOpt::Broadcast)
        } else if optname == SO_TYPE {
            Some(SockOpt::Type)
        } else if optname == SO_ERROR {
            Some(SockOpt::Error)
        } else {
            None
        }
    } else if level == IPPROTO_TCP {
        if optname == TCP_NODELAY {
            Some(SockOpt::TcpNoDelay)
        } else if optname == TCP_MAXSEG {
            Some(SockOpt::TcpMaxSeg)
        } else if optname == TCP_CONGESTION {
            Some(SockOpt::TcpCongestion)
        } else if optname == TCP_INFO {
            Some(SockOpt::TcpInfo)
        } else {
            None
        }
    } else {
        None
    }
}

/// What `setsockopt` does with the value it is given.
#[derive(Clone, Copy, Debug, PartialEq, Eq, Structural)]
pub enum SetPlan {
    /// Read a `struct timeval` and set the receive (or send) timeout.
    Timeout { recv: bool },
    /// Read an `int` and set the receive (or send) buffer size.
    BufSize { recv: bool },
    /// Accept the option and change nothing.
    Ignore,
    /// Read an `int` and turn `TCP_NODELAY` on or off.
    NoDelay,
}

/// How `setsockopt` treats option `opt` with a value at `optval` of `optlen`
/// bytes: a null value is `EFAULT` for the timeouts and the accepted flags
/// (so is an empty one for the flags), a value shorter than an `int` or null
/// is `EINVAL` for the buffer sizes and `TCP_NODELAY`, and every other
/// option is `EINVAL`.
pub open spec fn setsockopt_plan_of(opt: Option<SockOpt>, optval: u64, optlen: u64) -> Result<SetPlan, Errno> {
    match opt {
        Some(SockOpt::RecvTimeout) | Some(SockOpt::SendTimeout) => if optval == 0 {
            Err(Errno::EFAULT)
        } else {
            Ok(SetPlan::Timeout { recv: opt == Some(SockOpt::RecvTimeout) })
        },
        Some(SockOpt::RecvBuf) | Some(SockOpt::SendBuf) => if optlen < 4 || optval == 0 {
            Err(Errno::EINVAL)
        } else {
            Ok(SetPlan::BufSize { recv: opt == Some(SockOpt::RecvBuf) })
        },
        Some(SockOpt::ReuseAddr) | Some(SockOpt::ReusePort) | Some(SockOpt::KeepAlive) | Some(
            SockOpt::Broadcast,
        ) => if optval == 0 || optlen == 0 {
            Err(Errno::EFAULT)
        } else {
            Ok(SetPlan::Ignore)
        },
        Some(SockOpt::TcpNoDelay) => if optlen < 4 || optval == 0 {
            Err(Errno::EINVAL)
        } else {
            Ok(SetPlan::NoDelay)
        },
        _ => Err(Errno::EINVAL),
    }
}

/// Decides what `setsockopt` does.
pub fn setsockopt_plan(opt: Option<SockOpt>, optval: u64, optlen: u64) -> (r: Result<SetPlan, Errno>)
    ensures
        r == setsockopt_plan_of(opt, optval, optlen),
{
    match opt {
        Some(SockOpt::RecvTimeout) | Some(SockOpt::SendTimeout) => if optval == 0 {
            Err(Errno::EFAULT)
        } else {
            Ok(SetPlan::Timeout { recv: opt == Some(SockOpt::RecvTimeout) })
        },
        Some(SockOpt::RecvBuf) | Some(SockOpt::SendBuf) => if optlen < 4 || optval == 0 {
            Err(Errno::EINVAL)
        } else {
            Ok(SetPlan::BufSize { recv: opt == Some(SockOpt::RecvBuf) })
        },
        Some(SockOpt::ReuseAddr) | Some(SockOpt::ReusePort) | Some(SockOpt::KeepAlive) | Some(
            SockOpt::Broadcast,
        ) => if optval == 0 || optlen == 0 {
            Err(Errno::EFAULT)
        } else {
            Ok(SetPlan::Ignore)
        },
        Some(SockOpt::TcpNoDelay) => if optlen < 4 || optval == 0 {
            Err(Errno::EINVAL)
        } else {
            Ok(SetPlan::NoDelay)
        },
        _ => Err(Errno::EINVAL),
    }
}

/// A buffer size given to `setsockopt`: negative sizes are `EINVAL`.
pub fn buffer_size_of(v: i32) -> (r: Result<u32, Errno>)
    ensures
        r == if v < 0 {
            Err::<u32, Errno>(Errno::EINVAL)
        } else {
            Ok(v as u32)
        },
{
    if v < 0 {
        Err(Errno::EINVAL)
    } else {
        Ok(v as u32)
    }
}

/// What `getsockopt` may report of a socket.
#[derive(Clone, Copy, Debug)]
pub struct SockOptState {
    pub socket_type: i32,
    pub recv_buf: u32,
    pub send_buf: u32,
    pub recv_timeout_us: u64,
    pub send_timeout_us: u64,
    /// The pending error, which reading `SO_ERROR` takes.
    pub pending_error: i32,
    /// Whether `TCP_NODELAY` is on, as the network stack answers.
    pub nodelay: Result<bool, Errno>,
}

/// What `getsockopt` stores: the bytes at `optval` and the length at
/// `optlen`.
#[derive(Debug)]
pub struct OptReply {
    pub value: Vec<u8>,
    pub len: u32,
}

/// The four little-endian bytes of `v`.
pub open spec fn le32(v: i32) -> Seq<u8> {
    le_bytes(v as u64).take(4)
}

/// The congestion control name `getsockopt(TCP_CONGESTION)` reports,
/// NUL-terminated.
pub open spec fn congestion_name() -> Seq<u8> {
    seq![114u8, 101u8, 110u8, 111u8, 0u8]
}

/// Whether `getsockopt` reads the caller's buffer length for `opt`.
pub open spec fn reads_len_of(opt: SockOpt) -> bool {
    opt == SockOpt::Type || opt == SockOpt::RecvBuf || opt == SockOpt::SendBuf || opt
        == SockOpt::TcpMaxSeg || opt == SockOpt::TcpCongestion || opt == SockOpt::TcpInfo
}

/// Whether `getsockopt` reads the caller's buffer length for `opt`.
pub fn reads_len(opt: SockOpt) -> (r: bool)
    ensures
        r == reads_len_of(opt),
{
    match opt {
        SockOpt::Type | SockOpt::RecvBuf | SockOpt::SendBuf | SockOpt::TcpMaxSeg
        | SockOpt::TcpCongestion | SockOpt::TcpInfo => true,
        _ => false,
    }
}

/// What `getsockopt(opt)` reports for a socket in state `st` to a caller
/// whose buffer holds `len` bytes: an `int` for the type, buffer sizes, error,
/// `TCP_NODELAY` and `TCP_MAXSEG` (a buffer shorter than an `int` is
/// `EINVAL` where the length is read); a `struct timeval` for the timeouts;
/// the congestion control name cut to `len` and padded with zeros (`EINVAL`
/// for an empty buffer); `len` zero bytes for `TCP_INFO`; `EINVAL` for any
/// other option.
pub open spec fn getsockopt_reply_of(opt: Option<SockOpt>, len: u32, st: SockOptState) -> Result<(Seq<u8>, u32), Errno> {
    match opt {
        Some(SockOpt::Type) => if len < 4 {
            Err(Errno::EINVAL)
        } else {
            Ok((le32(st.socket_type), 4u32))
        },
        Some(SockOpt::Error) => Ok((le32(st.pending_error), 4u32)),
        Some(SockOpt::RecvBuf) | Some(SockOpt::SendBuf) => if len < 4 {
            Err(Errno::EINVAL)
        } else {
            Ok(
                (
                    le32(
                        if opt == Some(SockOpt::RecvBuf) {
                            st.recv_buf as i32
                        } else {
                            st.send_buf as i32
                        },
                    ),
                    4u32,
                ),
            )
        },
        Some(SockOpt::RecvTimeout) | Some(SockOpt::SendTimeout) => {
            let us = if opt == Some(SockOpt::RecvTimeout) {
                st.recv_timeout_us
            } else {
                st.send_timeout_us
            };
            Ok((le_bytes((us / 1_000_000) as u64) + le_bytes((us % 1_000_000) as u64), 16u32))
        },
        Some(SockOpt::TcpNoDelay) => match st.nodelay {
            Ok(b) => Ok((le32(if b { 1 } else { 0 }), 4u32)),
            Err(e) => Err(e),
        },
        Some(SockOpt::TcpMaxSeg) => if len < 4 {
            Err(Errno::EINVAL)
        } else {
            Ok((le32(DEFAULT_TCP_MAXSEG), 4u32))
        },
        Some(SockOpt::TcpCongestion) => if len == 0 {
            Err(Errno::EINVAL)
        } else {
            let n = if len < 5 { len as int } else { 5 };
            Ok(
                (
                    congestion_name().take(n) + Seq::new((len - n) as nat, |i: int| 0u8),
                    n as u32,
                ),
            )
        },
        Some(SockOpt::TcpInfo) => Ok((Seq::new(len as nat, |i: int| 0u8), len)),
        _ => Err(Errno::EINVAL),
    }
}

/// The little-endian bytes of an `int`.
fn int_bytes(v: i32) -> (r: Vec<u8>)
    ensures
        r@ == le32(v),
{
    let w: [u64; 1] = [v as u64];
    let mut b = words_to_bytes(&w);
    proof {
        assert(w@.drop_last() =~= Seq::<u64>::empty());
        assert(words_bytes(w@) =~= le_bytes(v as u64));
    }
    b.truncate(4);
    assert(b@ =~= le32(v));
    b
}

/// `n` zero bytes.
fn zeros(n: u32) -> (r: Vec<u8>)
    ensures
        r@ == Seq::new(n as nat, |i: int| 0u8),
{
    let mut v: Vec<u8> = Vec::new();
    let mut i: u32 = 0;
    while i < n
        invariant
            i <= n,
            v@ =~= Seq::new(i as nat, |k: int| 0u8),
        decreases n - i,
    {
        v.push(0);
        i = i + 1;
    }
    v
}

/// Computes what `getsockopt` reports.
pub fn getsockopt_reply(opt: Option<SockOpt>, len: u32, st: SockOptState) -> (r: Result<OptReply, Errno>)
    ensures
        match (r, getsockopt_reply_of(opt, len, st)) {
            (Ok(rep), Ok((bytes, l))) => rep.value@ == bytes && rep.len == l,
            (Err(e), Err(f)) => e == f,
            _ => false,
        },
{
    match opt {
        Some(SockOpt::Type) => if len < 4 {
            Err(Errno::EINVAL)
        } else {
            Ok(OptReply { value: int_bytes(st.socket_type), len: 4 })
        },
        Some(SockOpt::Error) => Ok(OptReply { value: int_bytes(st.pending_error), len: 4 }),
        Some(SockOpt::RecvBuf) | Some(SockOpt::SendBuf) => if len < 4 {
            Err(Errno::EINVAL)
        } else {
            let size = if opt == Some(SockOpt::RecvBuf) {
                st.recv_buf as i32
            } else {
                st.send_buf as i32
            };
            Ok(OptReply { value: int_bytes(size), len: 4 })
        },
        Some(SockOpt::RecvTimeout) | Some(SockOpt::SendTimeout) => {
            let us = if opt == Some(SockOpt::RecvTimeout) {
                st.recv_timeout_us
            } else {
                st.send_timeout_us
            };
            let w: [u64; 2] = [us / 1_000_000, us % 1_000_000];
            let b = words_to_bytes(&w);
            proof {
                reveal_with_fuel(words_bytes, 3);
                assert(w@.drop_last().drop_last() =~= Seq::<u64>::empty());
                assert(w@.drop_last() =~= seq![us / 1_000_000]);
                assert(words_bytes(w@.drop_last()) =~= le_bytes((us / 1_000_000) as u64));
                assert(words_bytes(w@) =~= le_bytes((us / 1_000_000) as u64) + le_bytes(
                    (us % 1_000_000) as u64,
                ));
            }
            Ok(OptReply { value: b, len: 16 })
        },
        Some(SockOpt::TcpNoDelay) => match st.nodelay {
            Ok(b) => Ok(OptReply { value: int_bytes(if b { 1 } else { 0 }), len: 4 }),
            Err(e) => Err(e),
        },
        Some(SockOpt::TcpMaxSeg) => if len < 4 {
            Err(Errno::EINVAL)
        } else {
            Ok(OptReply { value: int_bytes(DEFAULT_TCP_MAXSEG), len: 4 })
        },
        Some(SockOpt::TcpCongestion) => if len == 0 {
            Err(Errno::EINVAL)
        } else {
            let name: [u8; 5] = [114, 101, 110, 111, 0];
            let n: u32 = if len < 5 { len } else { 5 };
            let mut v: Vec<u8> = Vec::new();
            let mut i: u32 = 0;
            while i < n
                invariant
                    i <= n,
                    n <= 5,
                    name@ == congestion_name(),
                    v@ =~= congestion_name().take(i as int),
                decreases n - i,
            {
                v.push(name[i as usize]);
                i = i + 1;
            }
            let pad = zeros(len - n);
            let mut out = v;
            let ghost head = out@;
            let mut j: usize = 0;
            while j < pad.len()
                invariant
                    j <= pad@.len(),
                    out@ =~= head + pad@.subrange(0, j as int),
                decreases pad@.len() - j,
            {
                out.push(pad[j]);
                j = j + 1;
            }
            assert(pad@.subrange(0, pad@.len() as int) =~= pad@);
            Ok(OptReply { value: out, len: n })
        },
        Some(SockOpt::TcpInfo) => Ok(OptReply { value: zeros(len), len }),
        _ => Err(Errno::EINVAL),
    }
}

/// The buffer sizes a new socket reports.
pub const DEFAULT_SOCKET_BUFFER_SIZE: u32 = 256 * 1024;

/// The options a socket keeps: its buffer sizes and its timeouts (in
/// microseconds, 0 for none).
#[derive(Clone, Copy, Debug, PartialEq, Eq, Structural)]
pub struct SocketOptions {
    pub recv_buf: u32,
    pub send_buf: u32,
    pub recv_timeout_us: u64,
    pub send_timeout_us: u64,
}

/// The options of a new socket: default buffer sizes and no timeouts.
pub open spec fn default_socket_options() -> SocketOptions {
    SocketOptions {
        recv_buf: DEFAULT_SOCKET_BUFFER_SIZE,
        send_buf: DEFAULT_SOCKET_BUFFER_SIZE,
        recv_timeout_us: 0,
        send_timeout_us: 0,
    }
}

/// The value `setsockopt` read at `optval`, as the option asks for it.
#[derive(Clone, Copy, Debug, PartialEq, Eq, Structural)]
pub enum OptInput {
    /// A `struct timeval`.
    Timeval { sec: i64, usec: i64 },
    /// An `int`.
    Int(i32),
    /// Nothing was read.
    Nothing,
    /// The value could not be read.
    Unreadable,
}

/// What `setsockopt` asks of the network stack besides the stored options.
#[derive(Clone, Copy, Debug, PartialEq, Eq, Structural)]
pub enum SetEffect {
    /// Nothing more.
    Stored,
    /// Turn `TCP_NODELAY` on or off.
    NoDelay(bool),
}

/// What `setsockopt(opt)` with `input` read from `optval` (of `optlen`
/// bytes) makes of the options `o`: the new options and what else to do, or
/// the error, with the options unchanged. The checks of `setsockopt_plan_of`
/// come first; a timeout shorter than a `struct timeval` is `EINVAL` before
/// it is read, one that is negative or unnormalized is `EINVAL` after; a
/// negative buffer size is `EINVAL`; an unreadable value is `EFAULT`.
pub open spec fn set_option_of(
    o: SocketOptions,
    opt: Option<SockOpt>,
    optval: u64,
    optlen: u64,
    input: OptInput,
) -> Result<(SocketOptions, SetEffect), Errno> {
    match setsockopt_plan_of(opt, optval, optlen) {
        Err(e) => Err(e),
        Ok(SetPlan::Timeout { recv }) => if optlen < 16 {
            Err(Errno::EINVAL)
        } else {
            match input {
                OptInput::Timeval { sec, usec } => if sec < 0 || usec < 0 || usec >= 1_000_000 {
                    Err(Errno::EINVAL)
                } else {
                    let us = (sec * 1_000_000 + usec) as u64;
                    Ok(
                        (
                            if recv {
                                SocketOptions { recv_timeout_us: us, ..o }
                            } else {
                                SocketOptions { send_timeout_us: us, ..o }
                            },
                            SetEffect::Stored,
                        ),
                    )
                },
                _ => Err(Errno::EFAULT),
            }
        },
        Ok(SetPlan::BufSize { recv }) => match input {
            OptInput::Int(v) => if v < 0 {
                Err(Errno::EINVAL)
            } else {
                Ok(
                    (
                        if recv {
                            SocketOptions { recv_buf: v as u32, ..o }
                        } else {
                            SocketOptions { send_buf: v as u32, ..o }
                        },
                        SetEffect::Stored,
                    ),
                )
            },
            _ => Err(Errno::EFAULT),
        },
        Ok(SetPlan::Ignore) => Ok((o, SetEffect::Stored)),
        Ok(SetPlan::NoDelay) => match input {
            OptInput::Int(v) => Ok((o, SetEffect::NoDelay(v != 0))),
            _ => Err(Errno::EFAULT),
        },
    }
}

impl SocketOptions {
    /// The options of a new socket (see `default_socket_options`).
    pub fn new() -> (r: Self)
        ensures
            r == default_socket_options(),
    {
        SocketOptions {
            recv_buf: DEFAULT_SOCKET_BUFFER_SIZE,
            send_buf: DEFAULT_SOCKET_BUFFER_SIZE,
            recv_timeout_us: 0,
            send_timeout_us: 0,
        }
    }

    /// `setsockopt`: stores option `opt` from `input` (see `set_option_of`).
    pub fn set_option(&mut self, opt: Option<SockOpt>, optval: u64, optlen: u64, input: OptInput) -> (r: Result<
        SetEffect,
        Errno,
    >)
        requires
            input matches OptInput::Timeval { sec, usec } ==> sec < 0 || sec * 1_000_000 + 999_999
                <= u64::MAX,
        ensures
            match set_option_of(*old(self), opt, optval, optlen, input) {
                Ok((o, eff)) => r == Ok::<SetEffect, Errno>(eff) && *final(self) == o,
                Err(e) => r == Err::<SetEffect, Errno>(e) && *final(self) == *old(self),
            },
    {
        match setsockopt_plan(opt, optval, optlen)? {
            SetPlan::Timeout { recv } => {
                if optlen < 16 {
                    return Err(Errno::EINVAL);
                }
                match input {
                    OptInput::Timeval { sec, usec } => {
                        let us = timeval_to_timeout_us(optlen, sec, usec)?;
                        if recv {
                            self.recv_timeout_us = us;
                        } else {
                            self.send_timeout_us = us;
                        }
                        Ok(SetEffect::Stored)
                    },
                    _ => Err(Errno::EFAULT),
                }
            },
            SetPlan::BufSize { recv } => match input {
                OptInput::Int(v) => {
                    let size = buffer_size_of(v)?;
                    if recv {
                        self.recv_buf = size;
                    } else {
                        self.send_buf = size;
                    }
                    Ok(SetEffect::Stored)
                },
                _ => Err(Errno::EFAULT),
            },
            SetPlan::Ignore => Ok(SetEffect::Stored),
            SetPlan::NoDelay => match input {
                OptInput::Int(v) => Ok(SetEffect::NoDelay(v != 0)),
                _ => Err(Errno::EFAULT),
            },
        }
    }
}

/// What `getsockopt` may report of a socket of type `socket_type` with
/// options `o`, pending error `pending_error` and `TCP_NODELAY` answer
/// `nodelay`.
pub open spec fn opt_state_of(o: SocketOptions, socket_type: i32, pending_error: i32, nodelay: Result<bool, Errno>) -> SockOptState {
    SockOptState {
        socket_type,
        recv_buf: o.recv_buf,
        send_buf: o.send_buf,
        recv_timeout_us: o.recv_timeout_us,
        send_timeout_us: o.send_timeout_us,
        pending_error,
        nodelay,
    }
}

/// Gathers what `getsockopt` may report (see `opt_state_of`).
pub fn opt_state(o: &SocketOptions, socket_type: i32, pending_error: i32, nodelay: Result<bool, Errno>) -> (r: SockOptState)
    ensures
        r == opt_state_of(*o, socket_type, pending_error, nodelay),
{
    SockOptState {
        socket_type,
        recv_buf: o.recv_buf,
        send_buf: o.send_buf,
        recv_timeout_us: o.recv_timeout_us,
        send_timeout_us: o.send_timeout_us,
        pending_error,
        nodelay,
    }
}

/// A timeout set with `setsockopt` reads back with `getsockopt` as the same
/// `struct timeval`, and a buffer size set reads back as the same `int`.
pub proof fn option_round_trip(
    o: SocketOptions,
    recv: bool,
    sec: i64,
    usec: i64,
    size: i32,
    len: u32,
    socket_type: i32,
    pending_error: i32,
    nodelay: Result<bool, Errno>,
)
    requires
        0 <= sec,
        sec * 1_000_000 + 999_999 <= u64::MAX,
        0 <= usec < 1_000_000,
        0 <= size,
        len >= 4,
    ensures
        ({
            let opt = if recv { SockOpt::RecvTimeout } else { SockOpt::SendTimeout };
            let set = set_option_of(o, Some(opt), 1, 16, OptInput::Timeval { sec, usec });
            &&& set is Ok
            &&& getsockopt_reply_of(Some(opt), len, opt_state_of(set->Ok_0.0, socket_type, pending_error, nodelay))
                == Ok::<(Seq<u8>, u32), Errno>((le_bytes(sec as u64) + le_bytes(usec as u64), 16u32))
        }),
        ({
            let opt = if recv { SockOpt::RecvBuf } else { SockOpt::SendBuf };
            let set = set_option_of(o, Some(opt), 1, 4, OptInput::Int(size));
            &&& set is Ok
            &&& getsockopt_reply_of(Some(opt), len, opt_state_of(set->Ok_0.0, socket_type, pending_error, nodelay))
                == Ok::<(Seq<u8>, u32), Errno>((le32(size), 4u32))
        }),
{
    let us = (sec * 1_000_000 + usec) as u64;
    assert(us / 1_000_000 == sec && us % 1_000_000 == usec) by (nonlinear_arith)
        requires
            us == sec * 1_000_000 + usec,
            0 <= sec,
            0 <= usec < 1_000_000,
    ;
    assert((size as u32) as i32 == size);
}

} // verus!
