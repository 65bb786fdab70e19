use vstd::prelude::*;
use crate::errno::Errno;

verus! {

/// Clock ticks per second, as `times` and `getrusage` count them.
pub const CLOCK_TICKS_PER_SECOND: u64 = 100;

/// What `sysinfo` reports.
#[derive(Clone, Copy, Debug)]
pub struct SystemInfo {
    pub uptime: i64,
    pub loads: [u64; 3],
    pub totalram: u64,
    pub freeram: u64,
    pub sharedram: u64,
    pub bufferram: u64,
    pub totalswap: u64,
    pub freeswap: u64,
    pub procs: u16,
    pub totalhigh: u64,
    pub freehigh: u64,
    pub mem_unit: u32,
}

/// The system information of a machine up for `uptime_secs` seconds with
/// `totalram` bytes of memory of which `freeram` are free: one process, no
/// load, no swap, memory counted in bytes.
pub fn system_info(uptime_secs: u64, totalram: u64, freeram: u64) -> (r: SystemInfo)
    ensures
        r.uptime == if uptime_secs > i64::MAX { i64::MAX as int } else { uptime_secs as int },
        r.loads@ == seq![0u64, 0u64, 0u64],
        r.totalram == totalram,
        r.freeram == freeram,
        r.sharedram == 0 && r.bufferram == 0 && r.totalswap == 0 && r.freeswap == 0,
        r.procs == 1,
        r.totalhigh == 0 && r.freehigh == 0,
        r.mem_unit == 1,
{
    let uptime: i64 = if uptime_secs > i64::MAX as u64 { i64::MAX } else { uptime_secs as i64 };
    let r = SystemInfo {
        uptime,
        loads: [0; 3],
        totalram,
        freeram,
        sharedram: 0,
        bufferram: 0,
        totalswap: 0,
        freeswap: 0,
        procs: 1,
        totalhigh: 0,
        freehigh: 0,
        mem_unit: 1,
    };
    assert(r.loads@ =~= seq![0u64, 0u64, 0u64]);
    r
}

/// The clock ticks in a monotonic time of `secs` seconds and `subsec_nanos`
/// nanoseconds, each part saturating, at most `i64::MAX`.
pub open spec fn ticks_of(secs: u64, subsec_nanos: u32) -> int {
    let a = if secs * 100 > u64::MAX { u64::MAX as int } else { secs * 100 };
    let b = (subsec_nanos * 100) / 1_000_000_000int;
    let s = if a + b > u64::MAX { u64::MAX as int } else { a + b };
    if s > i64::MAX { i64::MAX as int } else { s }
}

/// The clock ticks in a monotonic time of `secs` seconds and `subsec_nanos`
/// nanoseconds.
pub fn monotonic_ticks(secs: u64, subsec_nanos: u32) -> (r: i64)
    ensures
        r == ticks_of(secs, subsec_nanos),
        r >= 0,
{
    let whole = match secs.checked_mul(CLOCK_TICKS_PER_SECOND) {
        Some(v) => v,
        None => u64::MAX,
    };
    let frac = (subsec_nanos as u64) * CLOCK_TICKS_PER_SECOND / 1_000_000_000;
    let total = whole.saturating_add(frac);
    if total > i64::MAX as u64 { i64::MAX } else { total as i64 }
}

/// `getrusage` of the caller.
pub const RUSAGE_SELF: i32 = 0;
/// `getrusage` of the caller's children.
pub const RUSAGE_CHILDREN: i32 = -1;
/// `getrusage` of the calling thread.
pub const RUSAGE_THREAD: i32 = 1;

/// The user time that `getrusage` reports, in seconds and microseconds; the
/// system time is 0.
#[derive(Clone, Copy, Debug, PartialEq, Eq, Structural)]
pub struct Rusage {
    pub utime_sec: i64,
    pub utime_usec: i64,
}

/// `getrusage(who)` after `ticks` clock ticks of monotonic time: all of it
/// counted as user time, for the caller, its threads and its children alike.
pub fn getrusage(who: i32, ticks: i64) -> (r: Result<Rusage, Errno>)
    requires
        ticks >= 0,
    ensures
        r == if who != RUSAGE_SELF && who != RUSAGE_THREAD && who != RUSAGE_CHILDREN {
            Err::<Rusage, Errno>(Errno::EINVAL)
        } else {
            Ok(Rusage {
                utime_sec: (ticks / 100) as i64,
                utime_usec: ((ticks % 100) * 1_000_000 / 100) as i64,
            })
        },
{
    if who != RUSAGE_SELF && who != RUSAGE_THREAD && who != RUSAGE_CHILDREN {
        return Err(Errno::EINVAL);
    }
    Ok(Rusage { utime_sec: ticks / 100, utime_usec: (ticks % 100) * 1_000_000 / 100 })
}

/// `getrandom` flag: do not block.
pub const GRND_NONBLOCK: u32 = 1;
/// `getrandom` flag: use the blocking pool.
pub const GRND_RANDOM: u32 = 2;
/// `getrandom` flag: return bytes that may not be cryptographically secure.
pub const GRND_INSECURE: u32 = 4;

/// Checks the flags of `getrandom`: only the three known flags are allowed.
pub fn check_getrandom_flags(flags: u32) -> (r: Result<(), Errno>)
    ensures
        r == if flags & !(GRND_NONBLOCK | GRND_RANDOM | GRND_INSECURE) != 0 {
            Err::<(), Errno>(Errno::EINVAL)
        } else {
            Ok(())
        },
{
    if flags & !(GRND_NONBLOCK | GRND_RANDOM | GRND_INSECURE) != 0 {
        Err(Errno::EINVAL)
    } else {
        Ok(())
    }
}

/// What a `syslog` action does.
#[derive(Clone, Copy, Debug, PartialEq, Eq, Structural)]
pub enum SyslogAction {
    /// Copy the kernel log into the buffer, clearing it when `clear`.
    ReadLog { clear: bool },
    /// Report the size of the kernel log.
    LogLen,
    /// Nothing to do; report 0.
    Nothing,
}

/// The `syslog` action of type `log_type`; reading (3 and 4) needs a buffer.
pub fn syslog_action(log_type: i32, has_buf: bool) -> (r: Result<SyslogAction, Errno>)
    ensures
        r == if log_type == 3 || log_type == 4 {
            if has_buf {
                Ok::<SyslogAction, Errno>(SyslogAction::ReadLog { clear: log_type == 4 })
            } else {
                Err(Errno::EINVAL)
            }
        } else if log_type == 10 {
            Ok(SyslogAction::LogLen)
        } else if 6 <= log_type <= 8 {
            Ok(SyslogAction::Nothing)
        } else {
            Err(Errno::EINVAL)
        },
{
    if log_type == 3 || log_type == 4 {
        if has_buf {
            Ok(SyslogAction::ReadLog { clear: log_type == 4 })
        } else {
            Err(Errno::EINVAL)
        }
    } else if log_type == 10 {
        Ok(SyslogAction::LogLen)
    } else if 6 <= log_type && log_type <= 8 {
        Ok(SyslogAction::Nothing)
    } else {
        Err(Errno::EINVAL)
    }
}

/// Copies `src` into `dst` as a NUL-terminated C string: as much of it as
/// fits before a final NUL, the rest of `dst` zero.
pub fn write_c_string(dst: &mut [u8], src: &[u8])
    ensures
        final(dst)@.len() == old(dst)@.len(),
        old(dst)@.len() > 0 ==> {
            let n = if src@.len() < old(dst)@.len() - 1 { src@.len() as int } else { old(dst)@.len() - 1 };
            &&& forall|i: int| 0 <= i < n ==> final(dst)@[i] == src@[i]
            &&& forall|i: int| n <= i < old(dst)@.len() ==> final(dst)@[i] == 0
        },
{
    let len = dst.len();
    if len == 0 {
        return;
    }
    let n = if src.len() < len - 1 { src.len() } else { len - 1 };
    let mut i: usize = 0;
    while i < len
        invariant
            dst@.len() == len,
            n < len,
            n <= src@.len(),
            i <= len,
            forall|k: int| 0 <= k < i && k < n ==> dst@[k] == src@[k],
            forall|k: int| n <= k < i ==> dst@[k] == 0,
        decreases len - i,
    {
        if i < n {
            dst[i] = src[i];
        } else {
            dst[i] = 0;
        }
        i = i + 1;
    }
}

/// Length of each `utsname` field, its NUL included.
pub const UTS_FIELD_LEN: usize = 65;

/// What `uname` reports, each field a NUL-terminated string.
#[derive(Clone, Copy, Debug)]
pub struct UtsName {
    pub sysname: [u8; 65],
    pub nodename: [u8; 65],
    pub release: [u8; 65],
    pub version: [u8; 65],
    pub machine: [u8; 65],
    pub domainname: [u8; 65],
}

/// `field` holds `s` as a C string, cut to 64 bytes.
pub open spec fn holds_c_string(field: Seq<u8>, s: Seq<u8>) -> bool {
    let n = if s.len() < 64 { s.len() as int } else { 64 };
    &&& field.len() == 65
    &&& forall|i: int| 0 <= i < n ==> field[i] == s[i]
    &&& forall|i: int| n <= i < 65 ==> field[i] == 0
}

/// A C string field holding `s`.
fn c_string_field(s: &[u8]) -> (r: [u8; 65])
    ensures
        holds_c_string(r@, s@),
{
    let mut field = [0u8; 65];
    write_c_string(&mut field, s);
    field
}

/// The `utsname` record of a system with the given names.
pub fn utsname(
    sysname: &[u8],
    nodename: &[u8],
    release: &[u8],
    version: &[u8],
    machine: &[u8],
    domainname: &[u8],
) -> (r: UtsName)
    ensures
        holds_c_string(r.sysname@, sysname@),
        holds_c_string(r.nodename@, nodename@),
        holds_c_string(r.release@, release@),
        holds_c_string(r.version@, version@),
        holds_c_string(r.machine@, machine@),
        holds_c_string(r.domainname@, domainname@),
{
    UtsName {
        sysname: c_string_field(sysname),
        nodename: c_string_field(nodename),
        release: c_string_field(release),
        version: c_string_field(version),
        machine: c_string_field(machine),
        domainname: c_string_field(domainname),
    }
}

/// Scheduling policy `SCHED_OTHER`.
pub const SCHED_OTHER: u32 = 0;
/// Scheduling policy `SCHED_FIFO`.
pub const SCHED_FIFO: u32 = 1;
/// Scheduling policy `SCHED_RR`.
pub const SCHED_RR: u32 = 2;
/// Scheduling policy `SCHED_BATCH`.
pub const SCHED_BATCH: u32 = 3;
/// Scheduling policy `SCHED_IDLE`.
pub const SCHED_IDLE: u32 = 5;

/// Whether `pid` names the caller for the scheduling calls: 0, the calling
/// thread or its process.
pub fn is_same_sched_target(process_pid: i32, current_tid: i32, pid: i32) -> (r: bool)
    ensures
        r == (pid == 0 || pid == current_tid || pid == process_pid),
{
    pid == 0 || pid == current_tid || pid == process_pid
}

/// `sched_setparam`: only priority 0 is accepted.
pub fn validate_sched_param(priority: i32) -> (r: Result<(), Errno>)
    ensures
        r == if priority == 0 { Ok::<(), Errno>(()) } else { Err(Errno::EINVAL) },
{
    if priority == 0 {
        Ok(())
    } else {
        Err(Errno::EINVAL)
    }
}

/// `sched_setscheduler`: the real-time policies take a priority from 1 to
/// 99, the others priority 0; an unknown policy is refused.
pub fn validate_scheduler(policy: u32, priority: i32) -> (r: Result<i32, Errno>)
    ensures
        r == if (policy == SCHED_OTHER && priority == 0) || ((policy == SCHED_FIFO || policy
            == SCHED_RR) && 1 <= priority <= 99) || ((policy == SCHED_BATCH || policy == SCHED_IDLE)
            && priority == 0) {
            Ok::<i32, Errno>(0)
        } else {
            Err(Errno::EINVAL)
        },
{
    if policy == SCHED_OTHER && priority == 0 {
        Ok(0)
    } else if (policy == SCHED_FIFO || policy == SCHED_RR) && 1 <= priority && priority <= 99 {
        Ok(0)
    } else if (policy == SCHED_BATCH || policy == SCHED_IDLE) && priority == 0 {
        Ok(0)
    } else {
        Err(Errno::EINVAL)
    }
}

/// `setsid` for the process `process_pid`: it becomes the leader of a new
/// session named after it.
pub fn setsid(process_pid: i32) -> (r: Result<i32, Errno>)
    ensures
        r == if process_pid <= 0 { Err::<i32, Errno>(Errno::EINVAL) } else { Ok(process_pid) },
{
    if process_pid <= 0 {
        Err(Errno::EINVAL)
    } else {
        Ok(process_pid)
    }
}

/// Bytes of a CPU mask for `cpu_num` CPUs: one bit each, at least one byte.
pub open spec fn affinity_size_of(cpu_num: int) -> int {
    if cpu_num <= 8 { 1 } else { (cpu_num + 7) / 8 }
}

/// Bytes of a CPU mask for `cpu_num` CPUs.
pub fn affinity_size(cpu_num: usize) -> (r: usize)
    ensures
        r == affinity_size_of(cpu_num as int),
        r >= 1,
{
    if cpu_num <= 8 {
        1
    } else {
        cpu_num / 8 + if cpu_num % 8 == 0 { 0 } else { 1 }
    }
}

/// Whether the mask bytes `bytes` select CPU `cpu`.
pub open spec fn cpu_bit(bytes: Seq<u8>, cpu: int) -> bool {
    bytes[cpu / 8] & (1u8 << ((cpu % 8) as u8)) != 0
}

/// `sched_setaffinity`: the CPUs among the first `cpu_num` that the mask
/// bytes `src` select; `EINVAL` when `src` is shorter than a mask or selects
/// none of them.
pub fn affinity_from_bytes(src: &[u8], cpu_num: usize) -> (r: Result<Vec<bool>, Errno>)
    ensures
        src@.len() < affinity_size_of(cpu_num as int) ==> r == Err::<Vec<bool>, Errno>(Errno::EINVAL),
        src@.len() >= affinity_size_of(cpu_num as int) ==> match r {
            Ok(v) => v@.len() == cpu_num && (forall|c: int| 0 <= c < cpu_num ==> v@[c] == cpu_bit(src@, c))
                && exists|c: int| 0 <= c < cpu_num && cpu_bit(src@, c),
            Err(e) => e == Errno::EINVAL && forall|c: int| 0 <= c < cpu_num ==> !cpu_bit(src@, c),
        },
{
    let required = affinity_size(cpu_num);
    if src.len() < required {
        return Err(Errno::EINVAL);
    }
    let mut mask: Vec<bool> = Vec::new();
    let mut any = false;
    let mut cpu: usize = 0;
    while cpu < cpu_num
        invariant
            src@.len() >= affinity_size_of(cpu_num as int),
            cpu <= cpu_num,
            mask@.len() == cpu,
            forall|c: int| 0 <= c < cpu ==> mask@[c] == cpu_bit(src@, c),
            any == exists|c: int| 0 <= c < cpu && cpu_bit(src@, c),
        decreases cpu_num - cpu,
    {
        assert(cpu / 8 < affinity_size_of(cpu_num as int));
        let bit = src[cpu / 8] & (1u8 << ((cpu % 8) as u8)) != 0;
        proof {
            if any {
                let w = choose|c: int| 0 <= c < cpu && cpu_bit(src@, c);
                assert(0 <= w < cpu + 1 && cpu_bit(src@, w));
            }
            if bit {
                assert(cpu_bit(src@, cpu as int));
            }
        }
        mask.push(bit);
        any = any || bit;
        cpu = cpu + 1;
    }
    if !any {
        return Err(Errno::EINVAL);
    }
    Ok(mask)
}

/// The mask byte `b` for the CPUs `mask` selects among the first `cpu_num`,
/// built from its bits 0 to `k - 1`.
pub open spec fn mask_byte_upto(mask: Seq<bool>, cpu_num: int, b: int, k: int) -> u8
    decreases k,
{
    if k <= 0 {
        0
    } else {
        let prev = mask_byte_upto(mask, cpu_num, b, k - 1);
        let c = 8 * b + k - 1;
        if c < cpu_num && mask[c] { prev | (1u8 << ((k - 1) as u8)) } else { prev }
    }
}

/// `sched_getaffinity`: writes the mask of the CPUs `mask` selects among the
/// first `cpu_num` into `dst` (the rest zero) and returns its size, or
/// `EINVAL` when `dst` is shorter than a mask.
pub fn affinity_to_bytes(dst: &mut [u8], mask: &[bool], cpu_num: usize) -> (r: Result<usize, Errno>)
    requires
        mask@.len() >= cpu_num,
    ensures
        old(dst)@.len() < affinity_size_of(cpu_num as int) ==> r == Err::<usize, Errno>(Errno::EINVAL)
            && final(dst)@ == old(dst)@,
        old(dst)@.len() >= affinity_size_of(cpu_num as int) ==> {
            &&& r == Ok::<usize, Errno>(affinity_size_of(cpu_num as int) as usize)
            &&& final(dst)@.len() == old(dst)@.len()
            &&& forall|b: int| 0 <= b < final(dst)@.len() ==> #[trigger] final(dst)@[b] == mask_byte_upto(
                mask@,
                cpu_num as int,
                b,
                8,
            )
        },
{
    let required = affinity_size(cpu_num);
    let len = dst.len();
    if len < required {
        return Err(Errno::EINVAL);
    }
    let mut b: usize = 0;
    while b < len
        invariant
            dst@.len() == len,
            mask@.len() >= cpu_num,
            b <= len,
            forall|j: int| 0 <= j < b ==> #[trigger] dst@[j] == mask_byte_upto(mask@, cpu_num as int, j, 8),
        decreases len - b,
    {
        let mut byte: u8 = 0;
        let mut k: usize = 0;
        while k < 8
            invariant
                k <= 8,
                b < len,
                mask@.len() >= cpu_num,
                byte == mask_byte_upto(mask@, cpu_num as int, b as int, k as int),
            decreases 8 - k,
        {
            let c_big = b as u128 * 8 + k as u128;
            if c_big < cpu_num as u128 {
                let c = c_big as usize;
                if mask[c] {
                    byte = byte | (1u8 << (k as u8));
                }
            }
            k = k + 1;
        }
        dst[b] = byte;
        b = b + 1;
    }
    Ok(required)
}

/// The size of the console, in character cells.
#[derive(Clone, Copy, Debug, PartialEq, Eq, Structural)]
pub struct TerminalSize {
    pub rows: u16,
    pub cols: u16,
}

/// The size reported for the console: 24 rows of 80 columns.
pub fn current_terminal_size() -> (r: TerminalSize)
    ensures
        r == (TerminalSize { rows: 24, cols: 80 }),
{
    TerminalSize { rows: 24, cols: 80 }
}

} // verus!
