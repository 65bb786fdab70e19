use vstd::prelude::*;
use crate::errno::Errno;

verus! {

/// Nanoseconds in a second.
pub const NSEC_PER_SEC: u64 = 1_000_000_000;
/// Microseconds in a second.
pub const USEC_PER_SEC: u64 = 1_000_000;
/// `tv_nsec` of a `utimensat` time that means "now".
pub const UTIME_NOW_NSEC: i64 = 0x3fff_ffff;
/// `tv_nsec` of a `utimensat` time that means "leave unchanged".
pub const UTIME_OMIT_NSEC: i64 = 0x3fff_fffe;

/// A `struct timespec` as user space passes it.
#[derive(Clone, Copy, Debug, PartialEq, Eq, Structural)]
pub struct TimeSpec {
    pub tv_sec: i64,
    pub tv_nsec: i64,
}

/// A non-negative span of time: whole seconds and the nanoseconds beyond.
#[derive(Clone, Copy, Debug, PartialEq, Eq, Structural)]
pub struct Dur {
    pub secs: u64,
    pub nanos: u32,
}

impl Dur {
    /// The span in nanoseconds.
    pub open spec fn total(self) -> int {
        self.secs * NSEC_PER_SEC + self.nanos
    }

    /// A well-formed span keeps fewer than a second of nanoseconds.
    pub open spec fn wf(self) -> bool {
        self.nanos < NSEC_PER_SEC
    }
}

/// Whether `ts` is a valid span: non-negative seconds and nanoseconds below
/// one second.
pub open spec fn timespec_valid(ts: TimeSpec) -> bool {
    ts.tv_sec >= 0 && 0 <= ts.tv_nsec < NSEC_PER_SEC
}

/// The span that `ts` stands for, or `EINVAL` when it is not valid.
pub open spec fn duration_of(ts: TimeSpec) -> Result<Dur, Errno> {
    if timespec_valid(ts) {
        Ok(Dur { secs: ts.tv_sec as u64, nanos: ts.tv_nsec as u32 })
    } else {
        Err(Errno::EINVAL)
    }
}

/// The `timespec` of a span.
pub open spec fn timespec_of(d: Dur) -> TimeSpec {
    TimeSpec { tv_sec: d.secs as i64, tv_nsec: d.nanos as i64 }
}

/// A span turned into a `timespec` and read back is the same span.
pub proof fn timespec_round_trip(d: Dur)
    requires
        d.wf(),
        d.secs <= i64::MAX,
    ensures
        duration_of(timespec_of(d)) == Ok::<Dur, Errno>(d),
{
}

/// The span `ts` stands for, or `EINVAL` when it is not valid.
pub fn timespec_duration(ts: TimeSpec) -> (r: Result<Dur, Errno>)
    ensures
        r == duration_of(ts),
        r matches Ok(d) ==> d.wf() && d.total() == ts.tv_sec * NSEC_PER_SEC + ts.tv_nsec,
{
    if ts.tv_sec < 0 || ts.tv_nsec < 0 || ts.tv_nsec >= 1_000_000_000 {
        return Err(Errno::EINVAL);
    }
    Ok(Dur { secs: ts.tv_sec as u64, nanos: ts.tv_nsec as u32 })
}

/// `a - b`, or zero when `b` is the longer span.
pub fn dur_saturating_sub(a: Dur, b: Dur) -> (r: Dur)
    requires
        a.wf(),
        b.wf(),
    ensures
        r.wf(),
        r.total() == if a.total() > b.total() {
            a.total() - b.total()
        } else {
            0
        },
{
    if a.secs < b.secs || (a.secs == b.secs && a.nanos <= b.nanos) {
        assert(a.total() <= b.total()) by (nonlinear_arith)
            requires
                a.secs < b.secs || (a.secs == b.secs && a.nanos <= b.nanos),
                a.nanos < NSEC_PER_SEC,
                b.nanos < NSEC_PER_SEC,
        ;
        return Dur { secs: 0, nanos: 0 };
    }
    if a.nanos >= b.nanos {
        let r = Dur { secs: a.secs - b.secs, nanos: a.nanos - b.nanos };
        assert(r.total() == a.total() - b.total()) by (nonlinear_arith)
            requires
                r.secs == a.secs - b.secs,
                r.nanos == a.nanos - b.nanos,
        ;
        r
    } else {
        let r = Dur { secs: a.secs - b.secs - 1, nanos: a.nanos + 1_000_000_000 - b.nanos };
        assert(r.total() == a.total() - b.total()) by (nonlinear_arith)
            requires
                r.secs == a.secs - b.secs - 1,
                r.nanos == a.nanos + 1_000_000_000 - b.nanos,
        ;
        r
    }
}

/// The `timespec` of a span.
pub fn dur_to_timespec(d: Dur) -> (r: TimeSpec)
    requires
        d.secs <= i64::MAX,
    ensures
        r == timespec_of(d),
{
    TimeSpec { tv_sec: d.secs as i64, tv_nsec: d.nanos as i64 }
}

// ----- clocks -----

/// Clock ids.
pub const CLOCK_REALTIME: u32 = 0;
pub const CLOCK_MONOTONIC: u32 = 1;
pub const CLOCK_PROCESS_CPUTIME_ID: u32 = 2;
pub const CLOCK_THREAD_CPUTIME_ID: u32 = 3;
pub const CLOCK_MONOTONIC_RAW: u32 = 4;
pub const CLOCK_REALTIME_COARSE: u32 = 5;
pub const CLOCK_MONOTONIC_COARSE: u32 = 6;
pub const CLOCK_BOOTTIME: u32 = 7;
pub const CLOCK_REALTIME_ALARM: u32 = 8;
pub const CLOCK_BOOTTIME_ALARM: u32 = 9;
pub const CLOCK_TAI: u32 = 11;

/// Which time source a clock reads.
#[derive(Clone, Copy, Debug, PartialEq, Eq, Structural)]
pub enum ClockSource {
    /// Wall-clock time.
    Wall,
    /// Time since boot.
    Monotonic,
}

/// The time source of `clockid`, or `EINVAL` for the alarm clocks and
/// unknown ids.
pub open spec fn clock_source_of(clockid: u32) -> Result<ClockSource, Errno> {
    if clockid == CLOCK_REALTIME || clockid == CLOCK_REALTIME_COARSE || clockid == CLOCK_TAI {
        Ok(ClockSource::Wall)
    } else if clockid == CLOCK_MONOTONIC || clockid == CLOCK_MONOTONIC_RAW || clockid
        == CLOCK_MONOTONIC_COARSE || clockid == CLOCK_BOOTTIME || clockid
        == CLOCK_PROCESS_CPUTIME_ID || clockid == CLOCK_THREAD_CPUTIME_ID {
        Ok(ClockSource::Monotonic)
    } else {
        Err(Errno::EINVAL)
    }
}

/// The time source of `clockid`.
pub fn clock_source(clockid: u32) -> (r: Result<ClockSource, Errno>)
    ensures
        r == clock_source_of(clockid),
        r == Ok::<ClockSource, Errno>(ClockSource::Wall) <==> (clockid == CLOCK_REALTIME || clockid
            == CLOCK_REALTIME_COARSE || clockid == CLOCK_TAI),
        clockid == CLOCK_BOOTTIME ==> r == Ok::<ClockSource, Errno>(ClockSource::Monotonic),
{
    if clockid == CLOCK_REALTIME || clockid == CLOCK_REALTIME_COARSE || clockid == CLOCK_TAI {
        Ok(ClockSource::Wall)
    } else if clockid == CLOCK_MONOTONIC || clockid == CLOCK_MONOTONIC_RAW || clockid
        == CLOCK_MONOTONIC_COARSE || clockid == CLOCK_BOOTTIME || clockid
        == CLOCK_PROCESS_CPUTIME_ID || clockid == CLOCK_THREAD_CPUTIME_ID {
        Ok(ClockSource::Monotonic)
    } else {
        Err(Errno::EINVAL)
    }
}

/// Only `CLOCK_REALTIME`, `CLOCK_REALTIME_COARSE` and `CLOCK_TAI` read the
/// wall clock; `CLOCK_MONOTONIC` and its variants, `CLOCK_BOOTTIME` and the
/// CPU-time clocks read the time since boot; every other clock, the alarm
/// clocks among them, is refused.
pub proof fn clock_sources(clockid: u32)
    ensures
        clock_source_of(clockid) == Ok::<ClockSource, Errno>(ClockSource::Wall) <==> (clockid == 0
            || clockid == 5 || clockid == 11),
        clock_source_of(clockid) == Ok::<ClockSource, Errno>(ClockSource::Monotonic) <==> (clockid
            == 1 || clockid == 2 || clockid == 3 || clockid == 4 || clockid == 6 || clockid == 7),
        clock_source_of(clockid) is Err <==> !(clockid <= 7 || clockid == 11),
        clock_source_of(CLOCK_BOOTTIME) == Ok::<ClockSource, Errno>(ClockSource::Monotonic),
        clock_source_of(clockid) is Err ==> clock_source_of(clockid) == Err::<ClockSource, Errno>(
            Errno::EINVAL,
        ),
{
}

/// Accepts the clocks that can be read, refuses the others with `EINVAL`.
pub fn validate_clock_id(clockid: u32) -> (r: Result<(), Errno>)
    ensures
        r is Ok <==> clock_source_of(clockid) is Ok,
        r matches Err(e) ==> e == Errno::EINVAL,
{
    match clock_source(clockid) {
        Ok(_) => Ok(()),
        Err(e) => Err(e),
    }
}

// ----- socket timeouts -----

/// A socket timeout given as `struct timeval`, in microseconds; `EINVAL`
/// when the option is too short or the value is negative or unnormalized.
pub fn timeval_to_timeout_us(optlen: u64, tv_sec: i64, tv_usec: i64) -> (r: Result<u64, Errno>)
    requires
        tv_sec < 0 || tv_sec * 1_000_000 + 999_999 <= u64::MAX,
    ensures
        r == if optlen < 16 || tv_sec < 0 || tv_usec < 0 || tv_usec >= 1_000_000 {
            Err::<u64, Errno>(Errno::EINVAL)
        } else {
            Ok((tv_sec * 1_000_000 + tv_usec) as u64)
        },
{
    if optlen < 16 {
        return Err(Errno::EINVAL);
    }
    if tv_sec < 0 || tv_usec < 0 || tv_usec >= 1_000_000 {
        return Err(Errno::EINVAL);
    }
    Ok(tv_sec as u64 * 1_000_000 + tv_usec as u64)
}

/// A timeout in microseconds as the seconds and microseconds of a
/// `struct timeval`.
pub fn socket_timeout_timeval(timeout_us: u64) -> (r: (i64, i64))
    ensures
        r.0 == timeout_us / 1_000_000,
        r.1 == timeout_us % 1_000_000,
{
    ((timeout_us / 1_000_000) as i64, (timeout_us % 1_000_000) as i64)
}

// ----- file times -----

/// The access, modification and change times of a file.
#[derive(Clone, Copy, Debug, PartialEq, Eq, Structural)]
pub struct FileTimes {
    pub atime: TimeSpec,
    pub mtime: TimeSpec,
    pub ctime: TimeSpec,
}

/// One time of a `utimensat` request: the time to set, if any, and whether
/// the caller asked to leave it alone.
#[derive(Clone, Copy, Debug, PartialEq, Eq, Structural)]
pub struct UtimeUpdate {
    pub time: Option<TimeSpec>,
    pub omit: bool,
}

/// What one `utimensat` time asks for, `now` being the current time:
/// `UTIME_NOW` sets `now`, `UTIME_OMIT` leaves the time, a valid time sets
/// it, anything else is `EINVAL`.
pub open spec fn utime_update_of(ts: TimeSpec, now: TimeSpec) -> Result<UtimeUpdate, Errno> {
    if ts.tv_nsec == UTIME_NOW_NSEC {
        Ok(UtimeUpdate { time: Some(now), omit: false })
    } else if ts.tv_nsec == UTIME_OMIT_NSEC {
        Ok(UtimeUpdate { time: None, omit: true })
    } else if 0 <= ts.tv_nsec < NSEC_PER_SEC && ts.tv_sec >= 0 {
        Ok(UtimeUpdate { time: Some(ts), omit: false })
    } else {
        Err(Errno::EINVAL)
    }
}

/// Reads one `utimensat` time.
pub fn utime_update(ts: TimeSpec, now: TimeSpec) -> (r: Result<UtimeUpdate, Errno>)
    ensures
        r == utime_update_of(ts, now),
{
    if ts.tv_nsec == UTIME_NOW_NSEC {
        Ok(UtimeUpdate { time: Some(now), omit: false })
    } else if ts.tv_nsec == UTIME_OMIT_NSEC {
        Ok(UtimeUpdate { time: None, omit: true })
    } else if 0 <= ts.tv_nsec && ts.tv_nsec < 1_000_000_000 && ts.tv_sec >= 0 {
        Ok(UtimeUpdate { time: Some(ts), omit: false })
    } else {
        Err(Errno::EINVAL)
    }
}

/// The times of a file after a `utimensat` call at time `now`: each time
/// given is set, and the change time moves to `now` unless both were
/// omitted.
pub fn apply_utime_updates(current: FileTimes, atime: UtimeUpdate, mtime: UtimeUpdate, now: TimeSpec) -> (r: FileTimes)
    ensures
        r.atime == match atime.time {
            Some(t) => t,
            None => current.atime,
        },
        r.mtime == match mtime.time {
            Some(t) => t,
            None => current.mtime,
        },
        r.ctime == if !atime.omit || !mtime.omit {
            now
        } else {
            current.ctime
        },
{
    let changed = !atime.omit || !mtime.omit;
    let mut out = current;
    if let Some(t) = atime.time {
        out.atime = t;
    }
    if let Some(t) = mtime.time {
        out.mtime = t;
    }
    if changed {
        out.ctime = now;
    }
    out
}

/// The only interval timer supported: the one counting wall time.
pub const ITIMER_REAL: i32 = 0;

/// A `struct itimerval`: the reload interval and the time left, each in
/// seconds and microseconds.
#[derive(Clone, Copy, Debug, PartialEq, Eq, Structural)]
pub struct ITimerVal {
    pub interval_sec: i64,
    pub interval_usec: i64,
    pub value_sec: i64,
    pub value_usec: i64,
}

/// The timer setting `setitimer(which, new_value)` installs, given the value
/// read from user memory (`None` for a null pointer, which disarms the
/// timer): `EINVAL` for any timer but `ITIMER_REAL`.
pub fn setitimer_value(which: i32, new_value: Option<ITimerVal>) -> (r: Result<ITimerVal, Errno>)
    ensures
        r == if which != ITIMER_REAL {
            Err::<ITimerVal, Errno>(Errno::EINVAL)
        } else {
            match new_value {
                Some(v) => Ok(v),
                None => Ok(ITimerVal { interval_sec: 0, interval_usec: 0, value_sec: 0, value_usec: 0 }),
            }
        },
{
    if which != ITIMER_REAL {
        return Err(Errno::EINVAL);
    }
    match new_value {
        Some(v) => Ok(v),
        None => Ok(ITimerVal { interval_sec: 0, interval_usec: 0, value_sec: 0, value_usec: 0 }),
    }
}

/// The request of the file layer's `nanosleep`: a null request, or one
/// whose nanoseconds lie outside 0 to 999 999 999, is `EINVAL`; the seconds
/// are not checked.
pub fn nanosleep_request_check(req: Option<TimeSpec>) -> (r: Result<TimeSpec, Errno>)
    ensures
        r == match req {
            None => Err::<TimeSpec, Errno>(Errno::EINVAL),
            Some(ts) => if ts.tv_nsec < 0 || ts.tv_nsec > 999_999_999 {
                Err(Errno::EINVAL)
            } else {
                Ok(ts)
            },
        },
{
    match req {
        None => Err(Errno::EINVAL),
        Some(ts) => if ts.tv_nsec < 0 || ts.tv_nsec > 999_999_999 {
            Err(Errno::EINVAL)
        } else {
            Ok(ts)
        },
    }
}

/// The clock the file layer's `clock_gettime(clk, ts)` reads: `EFAULT` for
/// a null `ts`, then only `CLOCK_REALTIME` (wall time) and
/// `CLOCK_MONOTONIC`; any other clock is `EINVAL`.
pub fn gettime_clock(clk: i32, ts_null: bool) -> (r: Result<ClockSource, Errno>)
    ensures
        r == if ts_null {
            Err::<ClockSource, Errno>(Errno::EFAULT)
        } else if clk == CLOCK_REALTIME {
            Ok(ClockSource::Wall)
        } else if clk == CLOCK_MONOTONIC {
            Ok(ClockSource::Monotonic)
        } else {
            Err(Errno::EINVAL)
        },
{
    if ts_null {
        Err(Errno::EFAULT)
    } else if clk == CLOCK_REALTIME as i32 {
        Ok(ClockSource::Wall)
    } else if clk == CLOCK_MONOTONIC as i32 {
        Ok(ClockSource::Monotonic)
    } else {
        Err(Errno::EINVAL)
    }
}

} // verus!
