use posix_api::decimal::{decimal, parse_i32};
use posix_api::errno::Errno;
use posix_api::fdentry::{
    accept_socket, bind_socket, connect_socket, fd_link_target, listen_socket, lseek_plan,
    open_error_next, open_targets, parse_sockaddr_in, poll_mode, proc_magiclink, read_action,
    read_socket, recvfrom_socket, resolve_dirfd_path, sendto_socket, sockaddr_in_bytes, socket,
    socket_name, stat_source, update_fd_times, write_action, FdEntry, LseekAction, OpenFile,
    OpenNext, ProcLink, SelectMode, SockAddrIn, StatSource, TransferAction, AF_INET, AT_FDCWD,
    LOOPBACK_ADDR,
};
use posix_api::fdtable::FdTable;
use posix_api::fdentry::{getsockopt_socket, setsockopt_socket};
use posix_api::sockopt::{OptInput, SetEffect};
use posix_api::fdentry::poll_fd_set;
use posix_api::fsmeta::write_dirents;
use posix_api::fdentry::{ioctl_action, IoctlAction, FIOCLEX, FIONBIO, TIOCGWINSZ};
use posix_api::sysinfo::TerminalSize;
use posix_api::fsmeta::{
    default_statfs, dirent_type, open_at_options, socket_stat, stat_to_statx, stdio_stat, FileKind,
    SeekFrom,
};
use posix_api::pipe::PollState;
use posix_api::timeutil::{FileTimes, TimeSpec, UtimeUpdate};

type Entry = FdEntry<u32, u32, u32>;

fn ts(s: i64, n: i64) -> TimeSpec {
    TimeSpec { tv_sec: s, tv_nsec: n }
}

fn times() -> FileTimes {
    FileTimes { atime: ts(1, 0), mtime: ts(2, 0), ctime: ts(3, 0) }
}

fn table() -> FdTable<Entry> {
    FdTable::new(FdEntry::Stdin, FdEntry::Stdout, FdEntry::Stderr)
}

fn addr(port: u16) -> SockAddrIn {
    SockAddrIn { family: AF_INET, port, addr: LOOPBACK_ADDR }
}

#[test]
fn decimal_text_and_parsing() {
    assert_eq!(decimal(0), b"0".to_vec());
    assert_eq!(decimal(42), b"42".to_vec());
    assert_eq!(decimal(-7), b"-7".to_vec());
    assert_eq!(decimal(i64::MIN), i64::MIN.to_string().into_bytes());
    for s in ["0", "12", "+5", "-5", "2147483647", "-2147483648", "2147483648", "-2147483649", "", "-", "+", "1a", " 1", "007", "99999999999"] {
        assert_eq!(parse_i32(s.as_bytes()), s.parse::<i32>().ok(), "{:?}", s);
    }
}

#[test]
fn datagram_sockets() {
    let mut t = table();
    let mut next: u16 = 40000;
    let a = socket(&mut t, 2, 2, 0).unwrap();
    let b = socket(&mut t, 2, 2, 17).unwrap();
    assert_eq!((a, b), (3, 4));
    assert_eq!(socket(&mut t, 1, 2, 0), Err(Errno::EAFNOSUPPORT));
    assert_eq!(socket(&mut t, 2, 2, 6), Err(Errno::EPROTONOSUPPORT));
    assert_eq!(bind_socket(&mut t, &mut next, b, addr(0)), Ok(()));
    assert_eq!(next, 40001);
    assert_eq!(socket_name(&t, b), Ok(SockAddrIn { family: AF_INET, port: 40000, addr: 0 }));
    assert_eq!(bind_socket(&mut t, &mut next, b, SockAddrIn { family: 10, port: 1, addr: 0 }), Err(Errno::EAFNOSUPPORT));
    assert_eq!(sendto_socket(&mut t, a, b"hello", addr(40000)), Ok(5));
    assert_eq!(sendto_socket(&mut t, a, b"second", addr(40000)), Ok(6));
    assert_eq!(sendto_socket(&mut t, a, b"x", addr(9)), Err(Errno::ECONNREFUSED));
    assert_eq!(sendto_socket(&mut t, 1, b"x", addr(40000)), Err(Errno::ENOTSOCK));
    assert!(poll_mode(&t, b, SelectMode::Read, PollState { readable: false, writable: false }));
    assert!(!poll_mode(&t, a, SelectMode::Read, PollState { readable: false, writable: false }));
    let mut buf = [0u8; 3];
    assert_eq!(recvfrom_socket(&mut t, b, &mut buf), Ok((3, addr(40000))));
    assert_eq!(&buf, b"hel");
    let mut big = [0u8; 16];
    assert_eq!(read_socket(&mut t, b, &mut big), Ok(6));
    assert_eq!(&big[..6], b"second");
    assert_eq!(recvfrom_socket(&mut t, b, &mut big), Err(Errno::EAGAIN));
    assert_eq!(recvfrom_socket(&mut t, 0, &mut big), Err(Errno::ENOTSOCK));
    assert_eq!(recvfrom_socket(&mut t, 77, &mut big), Err(Errno::EBADF));
}

#[test]
fn stream_sockets() {
    let mut t = table();
    let mut next: u16 = 40000;
    let server = socket(&mut t, 2, 1, 0).unwrap();
    let client = socket(&mut t, 2, 1 | 0o4000, 6).unwrap();
    assert_eq!(bind_socket(&mut t, &mut next, server, addr(8080)), Ok(()));
    assert_eq!(next, 40000);
    assert_eq!(connect_socket(&mut t, client, addr(8080)), Err(Errno::ECONNREFUSED));
    assert_eq!(accept_socket(&mut t, server, 0).unwrap_err(), Errno::EINVAL);
    assert_eq!(listen_socket(&mut t, server), Ok(()));
    assert!(poll_mode(&t, server, SelectMode::Read, PollState { readable: false, writable: false }));
    assert_eq!(connect_socket(&mut t, client, addr(8080)), Ok(()));
    match t.entry(server).unwrap() {
        FdEntry::Socket(s) => assert!(s.pending_stream && s.listening),
        _ => panic!("not a socket"),
    }
    let (fd, peer) = accept_socket(&mut t, server, 0o2000000).unwrap();
    assert_eq!(fd, 5);
    assert_eq!(peer, addr(8080));
    match t.entry(fd).unwrap() {
        FdEntry::Socket(s) => assert!(s.cloexec && !s.nonblock && s.local_port == 8080 && !s.listening),
        _ => panic!("not a socket"),
    }
    match t.entry(server).unwrap() {
        FdEntry::Socket(s) => assert!(!s.pending_stream),
        _ => panic!("not a socket"),
    }
    let dgram = socket(&mut t, 2, 2, 0).unwrap();
    assert_eq!(listen_socket(&mut t, dgram), Err(Errno::EOPNOTSUPP));
    assert_eq!(connect_socket(&mut t, dgram, addr(8080)), Err(Errno::EOPNOTSUPP));
    assert_eq!(listen_socket(&mut t, 0), Err(Errno::ENOTSOCK));
}

#[test]
fn ephemeral_ports_saturate() {
    let mut t = table();
    let s = socket(&mut t, 2, 2, 0).unwrap();
    let mut next: u16 = u16::MAX;
    bind_socket(&mut t, &mut next, s, addr(0)).unwrap();
    assert_eq!(next, u16::MAX);
    assert_eq!(socket_name(&t, s).unwrap().port, u16::MAX);
    let mut low: u16 = 7;
    bind_socket(&mut t, &mut low, s, addr(0)).unwrap();
    assert_eq!(low, 40000);
    assert_eq!(bind_socket(&mut t, &mut low, 99, addr(0)), Err(Errno::EBADF));
    assert_eq!(low, 40001);
}

#[test]
fn sockaddr_bytes() {
    let a = SockAddrIn { family: AF_INET, port: 0x1f90, addr: 0x7f00_0001 };
    let b = sockaddr_in_bytes(a);
    assert_eq!(b, [2, 0, 0x1f, 0x90, 127, 0, 0, 1, 0, 0, 0, 0, 0, 0, 0, 0]);
    assert_eq!(parse_sockaddr_in(&b), Ok(a));
    let mut v6 = b;
    v6[0] = 10;
    assert_eq!(parse_sockaddr_in(&v6), Err(Errno::EAFNOSUPPORT));
}

fn file(path: &str) -> Entry {
    FdEntry::File(OpenFile { handle: 1, path: path.as_bytes().to_vec(), times: times() })
}

fn dir(path: &str) -> Entry {
    FdEntry::Directory(OpenFile { handle: 2, path: path.as_bytes().to_vec(), times: times() })
}

#[test]
fn descriptor_kinds() {
    let mut t = table();
    let f = t.insert(file("/a/f.txt")).unwrap();
    let d = t.insert(dir("/a")).unwrap();
    let p = t.insert(FdEntry::Pipe(9)).unwrap();
    let n = t.insert(FdEntry::DevNull).unwrap();
    let pipe_state = PollState { readable: true, writable: false };
    assert!(!poll_mode(&t, 0, SelectMode::Read, pipe_state));
    assert!(!poll_mode(&t, 0, SelectMode::Write, pipe_state));
    assert!(poll_mode(&t, 1, SelectMode::Write, pipe_state));
    assert!(poll_mode(&t, f, SelectMode::Read, pipe_state));
    assert!(!poll_mode(&t, d, SelectMode::Write, pipe_state));
    assert!(poll_mode(&t, p, SelectMode::Read, pipe_state));
    assert!(!poll_mode(&t, p, SelectMode::Write, pipe_state));
    assert!(!poll_mode(&t, f, SelectMode::Except, pipe_state));
    assert!(poll_mode(&t, 50, SelectMode::Except, pipe_state));
    assert!(!poll_mode(&t, 50, SelectMode::Read, pipe_state));
    assert_eq!(lseek_plan(&t, f, -4, 0), Ok(LseekAction::SeekFile(SeekFrom::Start(0))));
    assert_eq!(lseek_plan(&t, f, -4, 1), Ok(LseekAction::SeekFile(SeekFrom::Current(-4))));
    assert_eq!(lseek_plan(&t, f, 4, 2), Ok(LseekAction::SeekFile(SeekFrom::End(4))));
    assert_eq!(lseek_plan(&t, f, 4, 3), Err(Errno::EINVAL));
    assert_eq!(lseek_plan(&t, n, 4, 0), Ok(LseekAction::Position(0)));
    assert_eq!(lseek_plan(&t, d, 4, 0), Err(Errno::EISDIR));
    assert_eq!(lseek_plan(&t, p, 4, 0), Err(Errno::ESPIPE));
    assert_eq!(lseek_plan(&t, 1, 4, 0), Err(Errno::ESPIPE));
    assert_eq!(lseek_plan(&t, 60, 4, 3), Err(Errno::EINVAL));
    assert_eq!(lseek_plan(&t, 60, 4, 0), Err(Errno::EBADF));
    assert_eq!(read_action(&t, 0), Ok(TransferAction::Done(0)));
    assert_eq!(read_action(&t, 1), Err(Errno::EBADF));
    assert_eq!(read_action(&t, d), Err(Errno::EISDIR));
    assert_eq!(read_action(&t, f), Ok(TransferAction::File));
    assert_eq!(read_action(&t, p), Ok(TransferAction::Pipe));
    assert_eq!(write_action(&t, 2, 9), Ok(TransferAction::Console));
    assert_eq!(write_action(&t, n, 9), Ok(TransferAction::Done(9)));
    assert_eq!(write_action(&t, 0, 9), Err(Errno::EBADF));
    assert_eq!(write_action(&t, d, 9), Err(Errno::EBADF));
}

#[test]
fn link_targets() {
    let mut t = table();
    let f = t.insert(file("/a/f.txt")).unwrap();
    let p = t.insert(FdEntry::Pipe(9)).unwrap();
    let s = socket(&mut t, 2, 2, 0).unwrap();
    assert_eq!(fd_link_target(&t, 0), Some(b"/dev/console".to_vec()));
    assert_eq!(fd_link_target(&t, f), Some(b"/a/f.txt".to_vec()));
    assert_eq!(fd_link_target(&t, p), Some(b"pipe:[4]".to_vec()));
    assert_eq!(fd_link_target(&t, s), Some(b"socket:[5]".to_vec()));
    assert_eq!(fd_link_target(&t, 9), None);
    assert!(matches!(proc_magiclink(b"/proc/self/exe", 12, 13), Some(ProcLink::ExecPath)));
    assert!(matches!(proc_magiclink(b"/proc/12/exe", 12, 13), Some(ProcLink::ExecPath)));
    assert!(matches!(proc_magiclink(b"/proc/./self/cwd", 12, 13), Some(ProcLink::Cwd)));
    assert!(matches!(proc_magiclink(b"/proc/12/root", 12, 13), Some(ProcLink::Text(ref t)) if t == b"/"));
    assert!(matches!(proc_magiclink(b"/proc/thread-self", 12, 13), Some(ProcLink::Text(ref t)) if t == b"/proc/12/task/13"));
    assert!(matches!(proc_magiclink(b"/proc/self/fd/3", 12, 13), Some(ProcLink::Fd(3))));
    assert!(matches!(proc_magiclink(b"/proc/12/fd/17", 12, 13), Some(ProcLink::Fd(17))));
    assert!(proc_magiclink(b"/proc/self/fd/x", 12, 13).is_none());
    assert!(proc_magiclink(b"/proc/13/exe", 12, 13).is_none());
    assert!(proc_magiclink(b"/etc/passwd", 12, 13).is_none());
}

#[test]
fn dirfd_paths() {
    let mut t = table();
    let d = t.insert(dir("/srv/data")).unwrap();
    let f = t.insert(file("/srv/x")).unwrap();
    assert_eq!(resolve_dirfd_path(&t, b"/home", AT_FDCWD, b"a/../b"), Ok(b"/home/b".to_vec()));
    assert_eq!(resolve_dirfd_path(&t, b"/home", d, b"sub/file"), Ok(b"/srv/data/sub/file".to_vec()));
    assert_eq!(resolve_dirfd_path(&t, b"/home", 99, b"/etc//hosts"), Ok(b"/etc/hosts".to_vec()));
    assert_eq!(resolve_dirfd_path(&t, b"/home", f, b"y"), Err(Errno::ENOTDIR));
    assert_eq!(resolve_dirfd_path(&t, b"/home", 99, b"y"), Err(Errno::EBADF));
    let o = open_targets(&t, b"/home", b"/", AT_FDCWD, b"notes.txt").unwrap();
    assert_eq!(o.paths[0], b"/home/notes.txt".to_vec());
    assert!(!o.shm);
    let o = open_targets(&t, b"/home", b"/", AT_FDCWD, b"/dev/shm/seg").unwrap();
    assert_eq!(o.paths, vec![b"/tmp/shm/seg".to_vec()]);
    assert!(o.shm);
    let o = open_targets(&t, b"/home", b"/", d, b"in.txt").unwrap();
    assert_eq!(o.paths[0], b"/srv/data/in.txt".to_vec());
    assert_eq!(open_targets(&t, b"/home", b"/", f, b"in.txt").unwrap_err(), Errno::ENOTDIR);
    let o = open_targets(&t, b"/", b"/musl", AT_FDCWD, b"/etc/passwd").unwrap();
    assert!(!o.paths.is_empty());
    assert_eq!(open_error_next(false, Errno::ENOENT), OpenNext::TryNext);
    assert_eq!(open_error_next(false, Errno::EISDIR), OpenNext::OpenAsDirectory);
    assert_eq!(open_error_next(true, Errno::EISDIR), OpenNext::Fail(Errno::EISDIR));
    assert_eq!(open_error_next(true, Errno::ENOENT), OpenNext::TryNext);
    assert_eq!(open_error_next(false, Errno::EPERM), OpenNext::Fail(Errno::EPERM));
}

#[test]
fn stats_and_times() {
    let mut t = table();
    let f = t.insert(file("/a/f.txt")).unwrap();
    let s = socket(&mut t, 2, 1, 0).unwrap();
    let p = t.insert(FdEntry::Pipe(1)).unwrap();
    assert!(matches!(stat_source(&t, 0), Ok(StatSource::Ready(st)) if st == stdio_stat(true)));
    assert!(matches!(stat_source(&t, 2), Ok(StatSource::Ready(st)) if st == stdio_stat(false)));
    assert!(matches!(stat_source(&t, s), Ok(StatSource::Ready(st)) if st == socket_stat()));
    assert!(matches!(stat_source(&t, p), Ok(StatSource::Pipe)));
    assert!(matches!(stat_source(&t, 40), Err(Errno::EBADF)));
    match stat_source(&t, f) {
        Ok(StatSource::Attributes { path, times: tm }) => {
            assert_eq!(path, b"/a/f.txt".to_vec());
            assert_eq!(tm, times());
        }
        _ => panic!("expected attributes"),
    }
    assert_eq!(stdio_stat(true).mode, 0o020440);
    assert_eq!(stdio_stat(false).mode, 0o020220);
    assert_eq!(socket_stat().mode, 0o140666);
    let now = ts(100, 5);
    let keep = UtimeUpdate { time: None, omit: true };
    let set = UtimeUpdate { time: Some(ts(50, 0)), omit: false };
    let (path, tm) = update_fd_times(&mut t, f, set, keep, now).unwrap().unwrap();
    assert_eq!(path, b"/a/f.txt".to_vec());
    assert_eq!(tm, FileTimes { atime: ts(50, 0), mtime: ts(2, 0), ctime: now });
    match t.entry(f).unwrap() {
        FdEntry::File(of) => assert_eq!(of.times, tm),
        _ => panic!("not a file"),
    }
    assert_eq!(update_fd_times(&mut t, f, keep, keep, now).unwrap().unwrap().1.ctime, now);
    assert_eq!(update_fd_times(&mut t, p, set, set, now).unwrap_err(), Errno::EINVAL);
    assert_eq!(update_fd_times(&mut t, 77, set, set, now).unwrap_err(), Errno::EBADF);
    let n = t.insert(FdEntry::DevNull).unwrap();
    assert_eq!(update_fd_times(&mut t, n, set, set, now), Ok(None));
}

#[test]
fn statx_and_dirent_types() {
    let st = posix_api::fsmeta::metadata_to_stat(
        FileKind::File,
        0o644,
        10,
        1,
        Some(b"/x"),
        Some(FileTimes { atime: ts(1, -5), mtime: ts(2, 2_000_000_000), ctime: ts(3, 7) }),
    );
    let x = stat_to_statx(&st);
    assert_eq!(x.mask, 0x7ff);
    assert_eq!(x.mode, 0o100644);
    assert_eq!((x.size, x.blocks, x.blksize, x.nlink), (10, 1, 512, 1));
    assert_eq!((x.atime.tv_sec, x.atime.tv_nsec), (1, 0));
    assert_eq!(x.mtime.tv_nsec, 999_999_999);
    assert_eq!(x.ctime.tv_nsec, 7);
    let d = default_statfs();
    assert_eq!((d.f_type, d.f_blocks, d.f_bfree, d.f_files, d.f_ffree), (0xef53, 1 << 20, 1 << 19, 1 << 20, 1 << 19));
    assert_eq!(dirent_type(FileKind::Dir), 4);
    assert_eq!(dirent_type(FileKind::File), 8);
    assert_eq!(dirent_type(FileKind::SymLink), 10);
    assert_eq!(dirent_type(FileKind::Socket), 12);
    let (p, dir_only) = open_at_options(0o200000);
    assert!(p.read && !p.write && dir_only);
    let (p, _) = open_at_options(3);
    assert!(p.read && !p.write);
    let (p, _) = open_at_options(1 | 0o200 | 0o100);
    assert!(!p.read && p.write && p.create && p.create_new);
    let (p, _) = open_at_options(2);
    assert!(p.read && p.write);
}

#[test]
fn directory_records() {
    let names = vec![b"a".to_vec(), b"hello".to_vec()];
    let types = vec![8u8, 4u8];
    let mut dst = [0xaau8; 64];
    assert_eq!(write_dirents(&mut dst, &names, &types), 56);
    assert_eq!(&dst[0..8], &1u64.to_le_bytes());
    assert_eq!(&dst[8..16], &[0u8; 8]);
    assert_eq!(&dst[16..18], &24u16.to_le_bytes());
    assert_eq!(dst[18], 8);
    assert_eq!(&dst[19..21], b"a\0");
    assert_eq!(&dst[21..24], &[0xaa, 0xaa, 0xaa]);
    assert_eq!(&dst[24..32], &2u64.to_le_bytes());
    assert_eq!(&dst[40..42], &32u16.to_le_bytes());
    assert_eq!(dst[42], 4);
    assert_eq!(&dst[43..49], b"hello\0");
    assert_eq!(&dst[56..64], &[0xaa; 8]);
    let mut small = [0u8; 50];
    assert_eq!(write_dirents(&mut small, &names, &types), 24);
    let mut tiny = [0u8; 10];
    assert_eq!(write_dirents(&mut tiny, &names, &types), 0);
    assert_eq!(tiny, [0u8; 10]);
}

#[test]
fn ioctl_requests() {
    let mut t = table();
    let f = t.insert(file("/dev/rtc0")).unwrap();
    let s = socket(&mut t, 2, 2, 0).unwrap();
    assert_eq!(ioctl_action(&mut t, 1, TIOCGWINSZ), Ok(IoctlAction::WindowSize(TerminalSize { rows: 24, cols: 80 })));
    assert_eq!(ioctl_action(&mut t, f, TIOCGWINSZ), Ok(IoctlAction::FileRequest));
    assert_eq!(ioctl_action(&mut t, s, FIONBIO), Ok(IoctlAction::SocketNonblocking));
    assert_eq!(ioctl_action(&mut t, s, TIOCGWINSZ), Err(Errno::ENOTTY));
    assert_eq!(ioctl_action(&mut t, 0, FIONBIO), Err(Errno::ENOTTY));
    assert_eq!(t.fd_flags(s), Ok(0));
    assert_eq!(ioctl_action(&mut t, s, FIOCLEX), Ok(IoctlAction::Done));
    assert_eq!(t.fd_flags(s), Ok(1));
    assert_eq!(ioctl_action(&mut t, 30, FIOCLEX), Err(Errno::EBADF));
}

#[test]
fn select_one_set() {
    let mut t = table();
    let f = t.insert(file("/x")).unwrap();
    let p = t.insert(FdEntry::Pipe(0)).unwrap();
    let mut bits = [0u64; 16];
    bits[0] = (1 << 0) | (1 << 1) | (1 << f) | (1 << p) | (1 << 9);
    let mut pipes = vec![PollState { readable: false, writable: false }; 10];
    pipes[p as usize] = PollState { readable: true, writable: false };
    let (ready, n) = poll_fd_set(&t, 10, &bits, SelectMode::Read, &pipes);
    assert_eq!(n, 2);
    assert_eq!(ready[0], (1 << f) | (1 << p));
    let (ready, n) = poll_fd_set(&t, 10, &bits, SelectMode::Write, &pipes);
    assert_eq!(n, 2);
    assert_eq!(ready[0], (1 << 1) | (1 << f));
    let (ready, n) = poll_fd_set(&t, 10, &bits, SelectMode::Except, &pipes);
    assert_eq!(n, 1);
    assert_eq!(ready[0], 1 << 9);
    let (_, n) = poll_fd_set(&t, 4, &bits, SelectMode::Read, &pipes);
    assert_eq!(n, 1);
}

#[test]
fn socket_options_are_stored_and_read_back() {
    let mut t = table();
    let s = socket(&mut t, 2, 1, 0).unwrap();
    // SOL_SOCKET = 1; SO_TYPE = 3, SO_RCVBUF = 8, SO_SNDTIMEO = 21.
    assert_eq!(getsockopt_socket(&t, s, 1, 8, 0, 0x100, Some(4), 0, Ok(false)).unwrap_err(), Errno::EFAULT);
    assert_eq!(getsockopt_socket(&t, 99, 1, 8, 0x10, 0x100, Some(4), 0, Ok(false)).unwrap_err(), Errno::EBADF);
    assert_eq!(getsockopt_socket(&t, 0, 1, 8, 0x10, 0x100, Some(4), 0, Ok(false)).unwrap_err(), Errno::ENOTSOCK);
    assert_eq!(getsockopt_socket(&t, s, 1, 8, 0x10, 0x100, None, 0, Ok(false)).unwrap_err(), Errno::EFAULT);
    let ty = getsockopt_socket(&t, s, 1, 3, 0x10, 0x100, Some(4), 0, Ok(false)).unwrap();
    assert_eq!((ty.value, ty.len), (1i32.to_le_bytes().to_vec(), 4));
    let buf = getsockopt_socket(&t, s, 1, 8, 0x10, 0x100, Some(4), 0, Ok(false)).unwrap();
    assert_eq!(buf.value, (256 * 1024i32).to_le_bytes().to_vec());
    assert_eq!(setsockopt_socket(&mut t, s, 1, 8, 0x10, 4, OptInput::Int(4096)), Ok(SetEffect::Stored));
    let buf = getsockopt_socket(&t, s, 1, 8, 0x10, 0x100, Some(4), 0, Ok(false)).unwrap();
    assert_eq!(buf.value, 4096i32.to_le_bytes().to_vec());
    assert_eq!(setsockopt_socket(&mut t, s, 1, 8, 0x10, 4, OptInput::Int(-1)), Err(Errno::EINVAL));
    assert_eq!(
        setsockopt_socket(&mut t, s, 1, 21, 0x10, 16, OptInput::Timeval { sec: 3, usec: 250 }),
        Ok(SetEffect::Stored)
    );
    let tv = getsockopt_socket(&t, s, 1, 21, 0x10, 0x100, None, 0, Ok(false)).unwrap();
    let mut want = 3u64.to_le_bytes().to_vec();
    want.extend_from_slice(&250u64.to_le_bytes());
    assert_eq!((tv.value, tv.len), (want, 16));
    assert_eq!(setsockopt_socket(&mut t, s, 1, 21, 0x10, 8, OptInput::Nothing), Err(Errno::EINVAL));
    assert_eq!(setsockopt_socket(&mut t, s, 1, 21, 0x10, 16, OptInput::Unreadable), Err(Errno::EFAULT));
    assert_eq!(setsockopt_socket(&mut t, s, 1, 99, 0x10, 16, OptInput::Nothing), Err(Errno::EINVAL));
    assert_eq!(setsockopt_socket(&mut t, s, 6, 1, 0x10, 4, OptInput::Int(1)), Ok(SetEffect::NoDelay(true)));
    assert_eq!(setsockopt_socket(&mut t, 0, 1, 8, 0x10, 4, OptInput::Int(1)), Err(Errno::ENOTSOCK));
}
