use vstd::prelude::*;
use std::collections::BTreeMap;
use crate::errno::Errno;
use crate::timeutil::{FileTimes, TimeSpec};
use crate::stack::le_bytes;
use crate::path::views;

verus! {

/// Open for writing only.
pub const O_WRONLY: u32 = 0o1;
/// Open for reading and writing.
pub const O_RDWR: u32 = 0o2;
/// Create the file if it does not exist.
pub const O_CREAT: u32 = 0o100;
/// Truncate the file to length 0.
pub const O_TRUNC: u32 = 0o1000;
/// Append on each write.
pub const O_APPEND: u32 = 0o2000;
/// Open for execution only (musl's value, shared with `O_PATH`).
pub const O_EXEC: u32 = 0o10000000;

/// How a file is to be opened.
#[derive(Clone, Copy, Debug, PartialEq, Eq, Structural)]
pub struct OpenPlan {
    pub read: bool,
    pub write: bool,
    pub append: bool,
    pub truncate: bool,
    pub create: bool,
    pub create_new: bool,
}

/// The open options that the `open` flags ask for: access mode 0 reads, 1
/// writes, any other value does both; `O_EXEC` asks for a new file.
pub fn flags_to_options(flags: i32) -> (r: OpenPlan)
    ensures
        r.read == ((flags as u32) & 3 != O_WRONLY),
        r.write == ((flags as u32) & 3 != 0),
        r.append == ((flags as u32) & O_APPEND != 0),
        r.truncate == ((flags as u32) & O_TRUNC != 0),
        r.create == ((flags as u32) & O_CREAT != 0),
        r.create_new == ((flags as u32) & O_EXEC != 0),
{
    let f = flags as u32;
    let access = f & 3;
    OpenPlan {
        read: access != O_WRONLY,
        write: access != 0,
        append: f & O_APPEND != 0,
        truncate: f & O_TRUNC != 0,
        create: f & O_CREAT != 0,
        create_new: f & O_EXEC != 0,
    }
}

/// Where a seek is measured from.
#[derive(Clone, Copy, Debug, PartialEq, Eq, Structural)]
pub enum SeekFrom {
    Start(u64),
    Current(i64),
    End(i64),
}

/// The seek that `lseek(fd, offset, whence)` asks for: `whence` 0, 1 and 2
/// measure from the start (the offset taken as unsigned), the current
/// position and the end; any other `whence` is `EINVAL`.
pub fn seek_from(offset: i64, whence: i32) -> (r: Result<SeekFrom, Errno>)
    ensures
        r == if whence == 0 {
            Ok::<SeekFrom, Errno>(SeekFrom::Start(offset as u64))
        } else if whence == 1 {
            Ok(SeekFrom::Current(offset))
        } else if whence == 2 {
            Ok(SeekFrom::End(offset))
        } else {
            Err(Errno::EINVAL)
        },
{
    if whence == 0 {
        Ok(SeekFrom::Start(offset as u64))
    } else if whence == 1 {
        Ok(SeekFrom::Current(offset))
    } else if whence == 2 {
        Ok(SeekFrom::End(offset))
    } else {
        Err(Errno::EINVAL)
    }
}

/// Block size that `statfs` reports.
pub const STATFS_BLOCK_SIZE: u64 = 4096;
pub const EXT4_SUPER_MAGIC: i64 = 0xEF53;
pub const MSDOS_SUPER_MAGIC: i64 = 0x4d44;
pub const PROC_SUPER_MAGIC: i64 = 0x9fa0;
pub const SYSFS_MAGIC: i64 = 0x62656572;
pub const TMPFS_MAGIC: i64 = 0x0102_1994;
pub const DEVFS_MAGIC: i64 = 0x1373;
/// `statfs` flag: mounted read-only.
pub const ST_RDONLY: i64 = 1;

/// The kind of file system a path is mounted on.
#[derive(Clone, Copy, Debug, PartialEq, Eq, Structural)]
pub enum MountKind {
    Fat,
    Ext4,
    DevFs,
    RamFs,
    ProcFs,
    SysFs,
}

/// The `f_type` magic number of a file system kind.
pub open spec fn magic_of(kind: MountKind) -> i64 {
    match kind {
        MountKind::Fat => MSDOS_SUPER_MAGIC,
        MountKind::Ext4 => EXT4_SUPER_MAGIC,
        MountKind::DevFs => DEVFS_MAGIC,
        MountKind::RamFs => TMPFS_MAGIC,
        MountKind::ProcFs => PROC_SUPER_MAGIC,
        MountKind::SysFs => SYSFS_MAGIC,
    }
}

/// The `f_type` magic number of a file system kind.
pub fn statfs_magic(kind: MountKind) -> (r: i64)
    ensures
        r == magic_of(kind),
{
    match kind {
        MountKind::Fat => MSDOS_SUPER_MAGIC,
        MountKind::Ext4 => EXT4_SUPER_MAGIC,
        MountKind::DevFs => DEVFS_MAGIC,
        MountKind::RamFs => TMPFS_MAGIC,
        MountKind::ProcFs => PROC_SUPER_MAGIC,
        MountKind::SysFs => SYSFS_MAGIC,
    }
}

/// `s[i..j]` is one of the comma-separated items of `s`.
pub open spec fn is_item(s: Seq<u8>, i: int, j: int) -> bool {
    &&& 0 <= i <= j <= s.len()
    &&& (i == 0 || s[i - 1] == 44)
    &&& (j == s.len() || s[j] == 44)
    &&& forall|k: int| i <= k < j ==> s[k] != 44
}

/// Some comma-separated item of `options` is `ro`.
pub open spec fn has_ro_item(options: Seq<u8>) -> bool {
    exists|i: int| #[trigger] is_item(options, i, i + 2) && options[i] == 114 && options[i + 1] == 111
}

/// The `statfs` flags of a mount with options `options`: read-only when one
/// of its comma-separated options is `ro`.
pub fn statfs_flags(options: &[u8]) -> (r: i64)
    ensures
        r == if has_ro_item(options@) { ST_RDONLY } else { 0 },
{
    let n = options.len();
    let mut start: usize = 0;
    let mut i: usize = 0;
    while i < n
        invariant
            n == options@.len(),
            start <= i <= n,
            forall|k: int| start <= k < i ==> options@[k] != 44,
            start == 0 || options@[start - 1] == 44,
            forall|a: int| 0 <= a < start && #[trigger] is_item(options@, a, a + 2) ==> !(options@[a]
                == 114 && options@[a + 1] == 111),
        decreases n - i,
    {
        if options[i] == 44 {
            if i - start == 2 && options[start] == 114 && options[start + 1] == 111 {
                assert(is_item(options@, start as int, start + 2));
                return ST_RDONLY;
            }
            proof {
                assert forall|a: int| 0 <= a < i + 1 && #[trigger] is_item(options@, a, a + 2) implies !(
                options@[a] == 114 && options@[a + 1] == 111) by {
                    if a > start {
                        assert(options@[a - 1] != 44);
                    } else if a == start {
                        if i - start > 2 {
                            assert(options@[start + 2] != 44);
                        } else if i - start < 2 {
                            assert(options@[i as int] == 44);
                        }
                    }
                }
            }
            start = i + 1;
        }
        i = i + 1;
    }
    if n - start == 2 && options[start] == 114 && options[start + 1] == 111 {
        assert(is_item(options@, start as int, start + 2));
        return ST_RDONLY;
    }
    proof {
        assert forall|a: int| #[trigger] is_item(options@, a, a + 2) implies !(options@[a] == 114
            && options@[a + 1] == 111) by {
            if a > start {
                assert(options@[a - 1] != 44);
            } else if a == start && n - start > 2 {
                assert(options@[start + 2] != 44);
            }
        }
    }
    0
}

/// What `statfs` reports of a file system.
#[derive(Clone, Copy, Debug, PartialEq, Eq, Structural)]
pub struct FsStat {
    pub f_type: i64,
    pub f_bsize: i64,
    pub f_blocks: u64,
    pub f_bfree: u64,
    pub f_bavail: u64,
    pub f_files: u64,
    pub f_ffree: u64,
    pub f_namelen: i64,
    pub f_frsize: i64,
    pub f_flags: i64,
}

/// Whether a file system kind lives in memory and reports memory as space.
pub open spec fn has_space(kind: MountKind) -> bool {
    kind == MountKind::Fat || kind == MountKind::Ext4 || kind == MountKind::RamFs
}

/// `statfs` of a mount of `kind` with options `options` on a machine with
/// `total_ram` bytes of memory of which `free_ram` are free: kernel file
/// systems report no space, the others the machine's memory in 4 KiB blocks.
pub fn statfs_summary(kind: MountKind, options: &[u8], total_ram: u64, free_ram: u64) -> (r: FsStat)
    ensures
        r.f_type == magic_of(kind),
        r.f_bsize == 4096,
        r.f_blocks == if has_space(kind) { total_ram / 4096 } else { 0 },
        r.f_bfree == if has_space(kind) { free_ram / 4096 } else { 0 },
        r.f_bavail == r.f_bfree,
        r.f_files == 1024,
        r.f_ffree == 1024,
        r.f_namelen == 255,
        r.f_frsize == 4096,
        r.f_flags == if has_ro_item(options@) { ST_RDONLY } else { 0 },
{
    let space = match kind {
        MountKind::Fat | MountKind::Ext4 | MountKind::RamFs => true,
        _ => false,
    };
    let total = if space { total_ram } else { 0 };
    let free = if space { free_ram } else { 0 };
    FsStat {
        f_type: statfs_magic(kind),
        f_bsize: 4096,
        f_blocks: total / STATFS_BLOCK_SIZE,
        f_bfree: free / STATFS_BLOCK_SIZE,
        f_bavail: free / STATFS_BLOCK_SIZE,
        f_files: 1024,
        f_ffree: 1024,
        f_namelen: 255,
        f_frsize: 4096,
        f_flags: statfs_flags(options),
    }
}

/// FNV-1a offset basis.
pub const FNV_OFFSET: u64 = 0xcbf2_9ce4_8422_2325;
/// FNV-1a prime.
pub const FNV_PRIME: u64 = 0x0000_0100_0000_01b3;

/// The 64-bit FNV-1a hash of `s`.
pub open spec fn fnv1a(s: Seq<u8>) -> u64
    decreases s.len(),
{
    if s.len() == 0 {
        FNV_OFFSET
    } else {
        vstd::wrapping::u64_specs::wrapping_mul(fnv1a(s.drop_last()) ^ (s.last() as u64), FNV_PRIME)
    }
}

/// The inode number reported for `path`: 1 without a path, otherwise the
/// FNV-1a hash of its bytes, 1 when that is 0.
pub open spec fn inode_of(path: Option<Seq<u8>>) -> u64 {
    match path {
        None => 1,
        Some(p) => if fnv1a(p) == 0 { 1 } else { fnv1a(p) },
    }
}

/// The inode number reported for `path`.
pub fn path_inode(path: Option<&[u8]>) -> (r: u64)
    ensures
        r == inode_of(match path {
            Some(p) => Some(p@),
            None => None,
        }),
        r >= 1,
{
    let p = match path {
        Some(p) => p,
        None => return 1,
    };
    let mut hash: u64 = FNV_OFFSET;
    let mut i: usize = 0;
    while i < p.len()
        invariant
            i <= p@.len(),
            hash == fnv1a(p@.take(i as int)),
        decreases p@.len() - i,
    {
        proof {
            assert(p@.take(i + 1).drop_last() =~= p@.take(i as int));
        }
        hash = (hash ^ (p[i] as u64)).wrapping_mul(FNV_PRIME);
        i = i + 1;
    }
    assert(p@.take(p@.len() as int) =~= p@);
    if hash < 1 { 1 } else { hash }
}

/// `st_mode` bits of a directory.
pub const ST_MODE_DIR: u32 = 0o040000;
/// `st_mode` bits of a regular file.
pub const ST_MODE_FILE: u32 = 0o100000;
/// `st_mode` bits of a character device.
pub const ST_MODE_CHR: u32 = 0o020000;
/// `st_mode` bits of a symbolic link.
pub const ST_MODE_LNK: u32 = 0o120000;

/// The type of a file.
#[derive(Clone, Copy, Debug, PartialEq, Eq, Structural)]
pub enum FileKind {
    Fifo,
    CharDevice,
    Dir,
    BlockDevice,
    File,
    SymLink,
    Socket,
}

/// The `st_mode` type bits reported for a file type; types without their
/// own bits are reported as regular files.
pub open spec fn type_mode_of(kind: FileKind) -> u32 {
    match kind {
        FileKind::Dir => ST_MODE_DIR,
        FileKind::CharDevice => ST_MODE_CHR,
        FileKind::SymLink => ST_MODE_LNK,
        _ => ST_MODE_FILE,
    }
}

/// The `st_mode` type bits reported for a file type.
pub fn file_type_mode(kind: FileKind) -> (r: u32)
    ensures
        r == type_mode_of(kind),
{
    match kind {
        FileKind::Dir => ST_MODE_DIR,
        FileKind::CharDevice => ST_MODE_CHR,
        FileKind::SymLink => ST_MODE_LNK,
        _ => ST_MODE_FILE,
    }
}

/// A `stat` record.
#[derive(Clone, Copy, Debug, PartialEq, Eq, Structural)]
pub struct FileStat {
    pub dev: u64,
    pub ino: u64,
    pub mode: u32,
    pub nlink: u32,
    pub size: u64,
    pub blksize: u32,
    pub blocks: u64,
    pub atime: TimeSpec,
    pub mtime: TimeSpec,
    pub ctime: TimeSpec,
}

/// The zero time.
pub open spec fn zero_time() -> TimeSpec {
    TimeSpec { tv_sec: 0, tv_nsec: 0 }
}

/// The access, modification and change times `times`, or zero.
pub open spec fn times_or_zero(times: Option<FileTimes>) -> FileTimes {
    match times {
        Some(t) => t,
        None => FileTimes { atime: zero_time(), mtime: zero_time(), ctime: zero_time() },
    }
}

/// The zero time.
fn zero_timespec() -> (r: TimeSpec)
    ensures
        r == zero_time(),
{
    TimeSpec { tv_sec: 0, tv_nsec: 0 }
}

/// The times recorded for a path, or zero.
fn recorded_times(times: Option<FileTimes>) -> (r: FileTimes)
    ensures
        r == times_or_zero(times),
{
    match times {
        Some(t) => t,
        None => FileTimes { atime: zero_timespec(), mtime: zero_timespec(), ctime: zero_timespec() },
    }
}

/// The `stat` record of a file of type `kind` with permission bits `perm`,
/// `size` bytes and `blocks` blocks, found at `path`, with the times
/// recorded for it (zero when none are).
pub fn metadata_to_stat(
    kind: FileKind,
    perm: u16,
    size: u64,
    blocks: u64,
    path: Option<&[u8]>,
    times: Option<FileTimes>,
) -> (r: FileStat)
    ensures
        r == (FileStat {
            dev: 1,
            ino: inode_of(match path {
                Some(p) => Some(p@),
                None => None,
            }),
            mode: type_mode_of(kind) | (perm as u32),
            nlink: 1,
            size,
            blksize: 512,
            blocks,
            atime: times_or_zero(times).atime,
            mtime: times_or_zero(times).mtime,
            ctime: times_or_zero(times).ctime,
        }),
{
    let t = recorded_times(times);
    FileStat {
        dev: 1,
        ino: path_inode(path),
        mode: file_type_mode(kind) | perm as u32,
        nlink: 1,
        size,
        blksize: 512,
        blocks,
        atime: t.atime,
        mtime: t.mtime,
        ctime: t.ctime,
    }
}

/// The `stat` record of a symbolic link at `path` whose target is
/// `target_len` bytes long, with the times recorded for it.
pub fn symlink_stat(path: &[u8], target_len: u64, times: Option<FileTimes>) -> (r: FileStat)
    ensures
        r == (FileStat {
            dev: 1,
            ino: inode_of(Some(path@)),
            mode: ST_MODE_LNK | 0o777,
            nlink: 1,
            size: target_len,
            blksize: 512,
            blocks: 0,
            atime: times_or_zero(times).atime,
            mtime: times_or_zero(times).mtime,
            ctime: times_or_zero(times).ctime,
        }),
{
    let t = recorded_times(times);
    FileStat {
        dev: 1,
        ino: path_inode(Some(path)),
        mode: ST_MODE_LNK | 0o777,
        nlink: 1,
        size: target_len,
        blksize: 512,
        blocks: 0,
        atime: t.atime,
        mtime: t.mtime,
        ctime: t.ctime,
    }
}

/// The `stat` record with only a mode and the fixed fields of a device or
/// socket set.
pub open spec fn device_stat_of(mode: u32) -> FileStat {
    FileStat {
        dev: 0,
        ino: 1,
        mode,
        nlink: 1,
        size: 0,
        blksize: 512,
        blocks: 0,
        atime: zero_time(),
        mtime: zero_time(),
        ctime: zero_time(),
    }
}

/// The `stat` record of a standard stream: a character device readable or
/// writable by its owner and group.
pub fn stdio_stat(readable: bool) -> (r: FileStat)
    ensures
        r == device_stat_of(ST_MODE_CHR | if readable { 0o440u32 } else { 0o220u32 }),
{
    let perm: u32 = if readable { 0o440 } else { 0o220 };
    FileStat {
        dev: 0,
        ino: 1,
        mode: ST_MODE_CHR | perm,
        nlink: 1,
        size: 0,
        blksize: 512,
        blocks: 0,
        atime: zero_timespec(),
        mtime: zero_timespec(),
        ctime: zero_timespec(),
    }
}

/// `st_mode` bits of a socket.
pub const ST_MODE_SOCK: u32 = 0o140000;

/// The `stat` record of a socket.
pub fn socket_stat() -> (r: FileStat)
    ensures
        r == device_stat_of(ST_MODE_SOCK | 0o666),
{
    FileStat {
        dev: 0,
        ino: 1,
        mode: ST_MODE_SOCK | 0o666,
        nlink: 1,
        size: 0,
        blksize: 512,
        blocks: 0,
        atime: zero_timespec(),
        mtime: zero_timespec(),
        ctime: zero_timespec(),
    }
}

/// `statx` mask of the basic fields.
pub const STATX_BASIC_STATS: u32 = 0x7ff;

/// A `statx` time.
#[derive(Clone, Copy, Debug, PartialEq, Eq, Structural)]
pub struct StatxTime {
    pub tv_sec: i64,
    pub tv_nsec: u32,
}

/// A `statx` record.
#[derive(Clone, Copy, Debug, PartialEq, Eq, Structural)]
pub struct Statx {
    pub mask: u32,
    pub blksize: u32,
    pub nlink: u32,
    pub uid: u32,
    pub gid: u32,
    pub mode: u16,
    pub ino: u64,
    pub size: u64,
    pub blocks: u64,
    pub atime: StatxTime,
    pub mtime: StatxTime,
    pub ctime: StatxTime,
}

/// A time as `statx` reports it: the nanoseconds clamped to a second.
pub open spec fn statx_time_of(t: TimeSpec) -> StatxTime {
    StatxTime {
        tv_sec: t.tv_sec,
        tv_nsec: if t.tv_nsec < 0 { 0 } else if t.tv_nsec > 999_999_999 { 999_999_999 } else { t.tv_nsec as u32 },
    }
}

/// A time as `statx` reports it.
fn statx_time(t: TimeSpec) -> (r: StatxTime)
    ensures
        r == statx_time_of(t),
{
    let nsec: u32 = if t.tv_nsec < 0 { 0 } else if t.tv_nsec > 999_999_999 { 999_999_999 } else { t.tv_nsec as u32 };
    StatxTime { tv_sec: t.tv_sec, tv_nsec: nsec }
}

/// The `statx` record of a file whose `stat` record is `st`: the basic
/// fields, owner and group 0, the mode cut to 16 bits.
pub fn stat_to_statx(st: &FileStat) -> (r: Statx)
    ensures
        r == (Statx {
            mask: STATX_BASIC_STATS,
            blksize: st.blksize,
            nlink: st.nlink,
            uid: 0,
            gid: 0,
            mode: (st.mode % 0x10000) as u16,
            ino: st.ino,
            size: st.size,
            blocks: st.blocks,
            atime: statx_time_of(st.atime),
            mtime: statx_time_of(st.mtime),
            ctime: statx_time_of(st.ctime),
        }),
{
    Statx {
        mask: STATX_BASIC_STATS,
        blksize: st.blksize,
        nlink: st.nlink,
        uid: 0,
        gid: 0,
        mode: (st.mode % 0x10000) as u16,
        ino: st.ino,
        size: st.size,
        blocks: st.blocks,
        atime: statx_time(st.atime),
        mtime: statx_time(st.mtime),
        ctime: statx_time(st.ctime),
    }
}

/// What `statfs` reports when no mount is known: an ext4 file system of a
/// million 4 KiB blocks, half of them free.
pub fn default_statfs() -> (r: FsStat)
    ensures
        r == (FsStat {
            f_type: EXT4_SUPER_MAGIC,
            f_bsize: 4096,
            f_blocks: 1048576,
            f_bfree: 524288,
            f_bavail: 524288,
            f_files: 1048576,
            f_ffree: 524288,
            f_namelen: 255,
            f_frsize: 4096,
            f_flags: 0,
        }),
{
    FsStat {
        f_type: EXT4_SUPER_MAGIC,
        f_bsize: 4096,
        f_blocks: 1024 * 1024,
        f_bfree: 512 * 1024,
        f_bavail: 512 * 1024,
        f_files: 1024 * 1024,
        f_ffree: 512 * 1024,
        f_namelen: 255,
        f_frsize: 4096,
        f_flags: 0,
    }
}

/// Directory entry types of `getdents64`.
pub const DT_FIFO: u8 = 1;
pub const DT_CHR: u8 = 2;
pub const DT_DIR: u8 = 4;
pub const DT_BLK: u8 = 6;
pub const DT_REG: u8 = 8;
pub const DT_LNK: u8 = 10;
pub const DT_SOCK: u8 = 12;

/// The `d_type` of a directory entry of type `kind`.
pub open spec fn dirent_type_of(kind: FileKind) -> u8 {
    match kind {
        FileKind::Dir => DT_DIR,
        FileKind::CharDevice => DT_CHR,
        FileKind::BlockDevice => DT_BLK,
        FileKind::Fifo => DT_FIFO,
        FileKind::Socket => DT_SOCK,
        FileKind::SymLink => DT_LNK,
        FileKind::File => DT_REG,
    }
}

/// The `d_type` of a directory entry of type `kind`.
pub fn dirent_type(kind: FileKind) -> (r: u8)
    ensures
        r == dirent_type_of(kind),
{
    match kind {
        FileKind::Dir => DT_DIR,
        FileKind::CharDevice => DT_CHR,
        FileKind::BlockDevice => DT_BLK,
        FileKind::Fifo => DT_FIFO,
        FileKind::Socket => DT_SOCK,
        FileKind::SymLink => DT_LNK,
        FileKind::File => DT_REG,
    }
}

/// Create only a new file (`openat`).
pub const O_EXCL: u32 = 0o200;
/// Open only a directory.
pub const O_DIRECTORY: u32 = 0o200000;

/// How `openat` with `flags` opens: access mode 1 writes, 2 reads and
/// writes, anything else reads; `O_EXCL` asks for a new file and
/// `O_DIRECTORY` for a directory.
pub fn open_at_options(flags: u32) -> (r: (OpenPlan, bool))
    ensures
        r.0.read == (flags & 3 != O_WRONLY),
        r.0.write == (flags & 3 == O_WRONLY || flags & 3 == O_RDWR),
        r.0.append == (flags & O_APPEND != 0),
        r.0.truncate == (flags & O_TRUNC != 0),
        r.0.create == (flags & O_CREAT != 0),
        r.0.create_new == (flags & O_EXCL != 0),
        r.1 == (flags & O_DIRECTORY != 0),
{
    let access = flags & 3;
    (
        OpenPlan {
            read: access != O_WRONLY,
            write: access == O_WRONLY || access == O_RDWR,
            append: flags & O_APPEND != 0,
            truncate: flags & O_TRUNC != 0,
            create: flags & O_CREAT != 0,
            create_new: flags & O_EXCL != 0,
        },
        flags & O_DIRECTORY != 0,
    )
}

/// The file-creation mask a process starts with.
pub const DEFAULT_UMASK: u32 = 0o022;

/// The file-creation masks of the processes that have set one.
pub struct UmaskTable {
    pub masks: BTreeMap<i32, u32>,
}

impl UmaskTable {
    /// The mask in force for `pid`: the one it set, else the default.
    pub open spec fn mask_of(self, pid: i32) -> u32 {
        if self.masks@.contains_key(pid) {
            self.masks@[pid]
        } else {
            DEFAULT_UMASK
        }
    }

    /// A table in which no process has set a mask.
    pub fn new() -> (r: Self)
        ensures
            r.masks@ == Map::<i32, u32>::empty(),
    {
        UmaskTable { masks: BTreeMap::new() }
    }

    /// `umask`: sets the mask of `pid` to the permission bits of `mask` and
    /// returns the mask it replaces.
    pub fn set_process_umask(&mut self, pid: i32, mask: u32) -> (r: u32)
        ensures
            r == old(self).mask_of(pid),
            final(self).masks@ == old(self).masks@.insert(pid, mask & 0o777),
    {
        match self.masks.insert(pid, mask & 0o777) {
            Some(prev) => prev,
            None => DEFAULT_UMASK,
        }
    }

    /// Forgets the mask of an exited process.
    pub fn clear_process_umask(&mut self, pid: i32)
        ensures
            final(self).masks@ == old(self).masks@.remove(pid),
    {
        self.masks.remove(&pid);
    }
}

/// `umask` hands back the mask the previous call set: after setting `m`,
/// the next call for the same process returns the permission bits of `m`,
/// and other processes keep theirs.
pub proof fn umask_returns_previous(t0: UmaskTable, t1: UmaskTable, pid: i32, m: u32, other: i32)
    requires
        t1.masks@ == t0.masks@.insert(pid, m & 0o777),
    ensures
        t1.mask_of(pid) == m & 0o777,
        other != pid ==> t1.mask_of(other) == t0.mask_of(other),
{
}

/// Longest name a directory record can hold: its length must fit the
/// 16-bit record length.
pub const MAX_DIRENT_NAME: usize = 65500;

/// Length of the `getdents64` record of a name of `len` bytes: the 19-byte
/// header, the name and its NUL, rounded up to 8.
pub open spec fn dirent_reclen(len: int) -> int {
    (19 + len + 1 + 7) / 8 * 8
}

/// Where record `k` starts.
pub open spec fn dirent_offset(names: Seq<Seq<u8>>, k: int) -> int
    decreases k,
{
    if k <= 0 {
        0
    } else {
        dirent_offset(names, k - 1) + dirent_reclen(names[k - 1].len() as int)
    }
}

/// The number of records from `k` on that fit in `cap` bytes, taken in
/// order while they fit.
pub open spec fn dirents_fitting(names: Seq<Seq<u8>>, cap: int, k: int) -> int
    decreases names.len() - k,
{
    if k < 0 || k >= names.len() || dirent_offset(names, k + 1) > cap {
        k
    } else {
        dirents_fitting(names, cap, k + 1)
    }
}

/// The bytes of record `k` up to its padding: the inode number `k + 1`,
/// offset 0, the record length (little-endian), the type, the name and a NUL.
pub open spec fn dirent_head(k: int, name: Seq<u8>, ty: u8) -> Seq<u8> {
    let rl = dirent_reclen(name.len() as int) as u16;
    le_bytes((k + 1) as u64) + Seq::new(8, |i: int| 0u8) + seq![(rl & 0xff) as u8, ((rl >> 8u16) & 0xff) as u8]
        + seq![ty] + name + seq![0u8]
}

/// Byte `p` lies in the head of one of the first `n` records.
pub open spec fn in_dirent_head(names: Seq<Seq<u8>>, n: int, p: int) -> bool {
    exists|k: int| 0 <= k < n && #[trigger] dirent_offset(names, k) <= p < dirent_offset(names, k) + 20 + names[k].len()
}

proof fn lemma_offset_grows(names: Seq<Seq<u8>>, j: int, k: int)
    requires
        0 <= j <= k,
    ensures
        dirent_offset(names, j) <= dirent_offset(names, k),
    decreases k - j,
{
    if j < k {
        lemma_offset_grows(names, j, k - 1);
    }
}

/// `getdents64`: writes the records of the directory entries named `names`
/// with types `types` into `dst`, in order, as many as fit, and returns the
/// number of bytes they take. Padding bytes after each name's NUL keep what
/// `dst` held.
pub fn write_dirents(dst: &mut [u8], names: &[Vec<u8>], types: &[u8]) -> (r: usize)
    requires
        names@.len() == types@.len(),
        forall|i: int| 0 <= i < names@.len() ==> (#[trigger] names@[i])@.len() <= MAX_DIRENT_NAME,
    ensures
        final(dst)@.len() == old(dst)@.len(),
        ({
            let nv = views(names@);
            let n = dirents_fitting(nv, old(dst)@.len() as int, 0);
            &&& r == dirent_offset(nv, n)
            &&& forall|k: int, j: int| 0 <= k < n && 0 <= j < 20 + nv[k].len() ==> final(dst)@[dirent_offset(nv, k) + j]
                == #[trigger] dirent_head(k, nv[k], types@[k])[j]
            &&& forall|p: int| 0 <= p < old(dst)@.len() && !in_dirent_head(nv, n, p) ==> #[trigger] final(dst)@[p] == old(dst)@[p]
        }),
{
    let ghost nv = views(names@);
    let ghost d0 = dst@;
    let cap = dst.len();
    let mut written: usize = 0;
    let mut k: usize = 0;
    while k < names.len()
        invariant_except_break
            k <= names@.len(),
            nv == views(names@),
            names@.len() == types@.len(),
            forall|i: int| 0 <= i < names@.len() ==> (#[trigger] names@[i])@.len() <= MAX_DIRENT_NAME,
            dst@.len() == cap,
            cap == d0.len(),
            written == dirent_offset(nv, k as int),
            written <= cap,
            dirents_fitting(nv, cap as int, 0) == dirents_fitting(nv, cap as int, k as int),
            forall|a: int, j: int| 0 <= a < k && 0 <= j < 20 + nv[a].len() ==> dst@[dirent_offset(nv, a) + j]
                == #[trigger] dirent_head(a, nv[a], types@[a])[j],
            forall|p: int| 0 <= p < cap && !in_dirent_head(nv, k as int, p) ==> #[trigger] dst@[p] == d0[p],
        ensures
            dst@.len() == cap,
            written == dirent_offset(nv, dirents_fitting(nv, cap as int, 0)),
            forall|a: int, j: int| 0 <= a < dirents_fitting(nv, cap as int, 0) && 0 <= j < 20 + nv[a].len()
                ==> dst@[dirent_offset(nv, a) + j] == #[trigger] dirent_head(a, nv[a], types@[a])[j],
            forall|p: int| 0 <= p < cap && !in_dirent_head(nv, dirents_fitting(nv, cap as int, 0), p)
                ==> #[trigger] dst@[p] == d0[p],
        decreases names@.len() - k,
    {
        let name = names[k].as_slice();
        assert(name@ == nv[k as int]);
        let reclen: usize = (19 + name.len() + 1 + 7) / 8 * 8;
        if reclen > cap - written {
            assert(dirent_offset(nv, k + 1) > cap);
            break;
        }
        let rl = reclen as u16;
        let v = (k + 1) as u64;
        let mut head: Vec<u8> = Vec::new();
        head.push((v & 0xff) as u8);
        head.push(((v >> 8) & 0xff) as u8);
        head.push(((v >> 16) & 0xff) as u8);
        head.push(((v >> 24) & 0xff) as u8);
        head.push(((v >> 32) & 0xff) as u8);
        head.push(((v >> 40) & 0xff) as u8);
        head.push(((v >> 48) & 0xff) as u8);
        head.push(((v >> 56) & 0xff) as u8);
        let mut z: usize = 0;
        while z < 8
            invariant
                z <= 8,
                head@ == le_bytes(v) + Seq::new(z as nat, |i: int| 0u8),
            decreases 8 - z,
        {
            head.push(0);
            z = z + 1;
            assert(head@ =~= le_bytes(v) + Seq::new(z as nat, |i: int| 0u8));
        }
        head.push((rl & 0xff) as u8);
        head.push(((rl >> 8u16) & 0xff) as u8);
        head.push(types[k]);
        crate::bytes::append_bytes(&mut head, name);
        head.push(0);
        assert(head@ =~= dirent_head(k as int, nv[k as int], types@[k as int]));
        let ghost before = dst@;
        let mut j: usize = 0;
        while j < head.len()
            invariant
                j <= head@.len(),
                head@.len() == 20 + name@.len(),
                written + head@.len() <= cap,
                dst@.len() == cap,
                forall|q: int| 0 <= q < j ==> dst@[written + q] == head@[q],
                forall|p: int| 0 <= p < cap && (p < written || p >= written + j) ==> dst@[p] == before[p],
            decreases head@.len() - j,
        {
            dst[written + j] = head[j];
            j = j + 1;
        }
        proof {
            lemma_offset_grows(nv, 0, k as int);
            assert forall|a: int, q: int| 0 <= a < k + 1 && 0 <= q < 20 + nv[a].len() implies dst@[dirent_offset(nv, a) + q]
                == #[trigger] dirent_head(a, nv[a], types@[a])[q] by {
                if a < k {
                    lemma_offset_grows(nv, a + 1, k as int);
                    lemma_offset_grows(nv, 0, a);
                    let l = nv[a].len() as int;
                    assert((19 + l + 1 + 7) / 8 * 8 >= 20 + l);
                    assert(dirent_offset(nv, a + 1) == dirent_offset(nv, a) + dirent_reclen(l));
                    assert(dirent_offset(nv, a) + q < written);
                    assert(dst@[dirent_offset(nv, a) + q] == before[dirent_offset(nv, a) + q]);
                } else {
                    assert(dst@[written + q] == head@[q]);
                }
            }
            assert forall|p: int| 0 <= p < cap && !in_dirent_head(nv, k + 1, p) implies #[trigger] dst@[p] == d0[p] by {
                if written <= p < written + 20 + nv[k as int].len() {
                    assert(in_dirent_head(nv, k + 1, p)) by {
                        assert(dirent_offset(nv, k as int) <= p < dirent_offset(nv, k as int) + 20 + nv[k as int].len());
                    }
                }
                assert(dst@[p] == before[p]);
                if in_dirent_head(nv, k as int, p) {
                    let b = choose|b: int| 0 <= b < k && #[trigger] dirent_offset(nv, b) <= p < dirent_offset(nv, b) + 20 + nv[b].len();
                    assert(in_dirent_head(nv, k + 1, p));
                }
            }
        }
        written = written + reclen;
        k = k + 1;
    }
    written
}

} // verus!
