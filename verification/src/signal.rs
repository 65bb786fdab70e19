use vstd::prelude::*;
use crate::errno::Errno;

verus! {

/// `how` of `rt_sigprocmask` that adds signals to the mask.
pub const SIG_BLOCK: usize = 0;
/// `how` of `rt_sigprocmask` that removes signals from the mask.
pub const SIG_UNBLOCK: usize = 1;
/// `how` of `rt_sigprocmask` that replaces the mask.
pub const SIG_SETMASK: usize = 2;
/// Size in bytes of the kernel's signal set.
pub const KERNEL_SIGSET_BYTES: usize = 8;
/// `sa_flags` bit that leaves a signal unblocked while its handler runs.
pub const SA_NODEFER: u64 = 0x4000_0000;
/// The signal that kills a process.
pub const SIGKILL: i32 = 9;

/// The bit of signal `sig` in a signal mask (none for signals outside 1 to 64).
pub open spec fn mask_bit(sig: i32) -> u64 {
    if 1 <= sig <= 64 { 1u64 << ((sig - 1) as u64) } else { 0 }
}

/// The bit of signal `sig` in a signal mask.
pub fn signal_mask_bit(sig: i32) -> (r: u64)
    ensures
        r == mask_bit(sig),
{
    if 1 <= sig && sig <= 64 {
        1u64 << ((sig - 1) as u32)
    } else {
        0
    }
}

/// Whether `sig` is blocked by `mask`.
pub fn signal_is_blocked(mask: u64, sig: i32) -> (r: bool)
    ensures
        r == (mask_bit(sig) != 0 && mask & mask_bit(sig) != 0),
{
    let bit = signal_mask_bit(sig);
    bit != 0 && mask & bit != 0
}

/// The signal mask that `rt_sigprocmask` installs.
pub fn sigprocmask_next(how: usize, current: u64, set: u64) -> (r: Result<u64, Errno>)
    ensures
        r == if how == SIG_BLOCK {
            Ok::<u64, Errno>(current | set)
        } else if how == SIG_UNBLOCK {
            Ok(current & !set)
        } else if how == SIG_SETMASK {
            Ok(set)
        } else {
            Err(Errno::EINVAL)
        },
{
    if how == SIG_BLOCK {
        Ok(current | set)
    } else if how == SIG_UNBLOCK {
        Ok(current & !set)
    } else if how == SIG_SETMASK {
        Ok(set)
    } else {
        Err(Errno::EINVAL)
    }
}

/// Checks the `sigsetsize` argument: zero or at least the kernel's set size.
pub fn check_sigset_size(sigsetsize: usize) -> (r: Result<(), Errno>)
    ensures
        r == if sigsetsize != 0 && sigsetsize < KERNEL_SIGSET_BYTES {
            Err::<(), Errno>(Errno::EINVAL)
        } else {
            Ok(())
        },
{
    if sigsetsize != 0 && sigsetsize < KERNEL_SIGSET_BYTES {
        Err(Errno::EINVAL)
    } else {
        Ok(())
    }
}

/// Checks a signal number given to `kill`-like calls (0 to 64; 0 probes).
pub fn validate_signal_target(sig: i32) -> (r: Result<(), Errno>)
    ensures
        r == if sig < 0 || sig > 64 { Err::<(), Errno>(Errno::EINVAL) } else { Ok(()) },
{
    if sig < 0 || sig > 64 {
        return Err(Errno::EINVAL);
    }
    Ok(())
}

/// Checks a signal number given to `rt_sigaction` (1 to 64).
pub fn validate_sigaction_signum(signum: usize) -> (r: Result<(), Errno>)
    ensures
        r == if signum == 0 || signum >= 65 { Err::<(), Errno>(Errno::EINVAL) } else { Ok(()) },
{
    if signum == 0 || signum >= 65 {
        return Err(Errno::EINVAL);
    }
    Ok(())
}

/// The signal mask while the handler of `sig` runs.
pub fn handler_mask(current: u64, action_mask: u64, sa_flags: u64, sig: i32) -> (r: u64)
    ensures
        r == if sa_flags & SA_NODEFER == 0 {
            (current | action_mask) | mask_bit(sig)
        } else {
            current | action_mask
        },
{
    let mut next = current | action_mask;
    if sa_flags & SA_NODEFER == 0 {
        next = next | signal_mask_bit(sig);
    }
    next
}

/// The address of musl's thread descriptor given the thread pointer.
pub fn musl_pthread_self(tp: usize) -> (r: usize)
    ensures
        r == if tp >= 200 { (tp - 200) as usize } else { 0usize },
{
    tp.saturating_sub(200)
}

/// Little-endian bytes of a 32-bit value.
pub open spec fn le_byte(v: u32, k: int) -> u8 {
    ((v >> ((8 * k) as u32)) & 0xffu32) as u8
}

/// The `siginfo` record of a signal sent by `tkill`: signal number, error 0,
/// code and sender's thread id (little-endian), the rest zero.
pub fn make_signal_info(sig: i32, code: i32, tid: i32) -> (r: [u8; 128])
    ensures
        forall|k: int| 0 <= k < 4 ==> #[trigger] r@[k] == le_byte(sig as u32, k),
        forall|k: int| 0 <= k < 4 ==> #[trigger] r@[8 + k] == le_byte(code as u32, k),
        forall|k: int| 0 <= k < 4 ==> #[trigger] r@[16 + k] == le_byte(tid as u32, k),
        forall|k: int| 0 <= k < 128 && !(0 <= k < 4 || 8 <= k < 12 || 16 <= k < 20) ==> #[trigger] r@[k] == 0,
{
    let mut bytes = [0u8; 128];
    let ghost b0 = bytes@;
    put_le32(&mut bytes, 0, sig as u32);
    let ghost b1 = bytes@;
    put_le32(&mut bytes, 8, code as u32);
    let ghost b2 = bytes@;
    put_le32(&mut bytes, 16, tid as u32);
    assert forall|k: int| 0 <= k < 4 implies #[trigger] bytes@[k] == le_byte(sig as u32, k) by {
        assert(bytes@[k] == b2[k]);
        assert(b2[k] == b1[k]);
        assert(b1[0 + k] == le_byte(sig as u32, k));
    }
    assert forall|k: int| 0 <= k < 4 implies #[trigger] bytes@[8 + k] == le_byte(code as u32, k) by {
        assert(bytes@[8 + k] == b2[8 + k]);
    }
    assert forall|k: int| 0 <= k < 128 && !(0 <= k < 4 || 8 <= k < 12 || 16 <= k < 20) implies #[trigger] bytes@[k] == 0 by {
        assert(bytes@[k] == b2[k]);
        assert(b2[k] == b1[k]);
        assert(b1[k] == b0[k]);
    }
    bytes
}

/// Writes `v` little-endian at `at`.
fn put_le32(bytes: &mut [u8; 128], at: usize, v: u32)
    requires
        at + 4 <= 128,
    ensures
        forall|k: int| 0 <= k < 4 ==> #[trigger] final(bytes)@[at + k] == le_byte(v, k),
        forall|k: int| 0 <= k < 128 && !(at <= k < at + 4) ==> #[trigger] final(bytes)@[k] == old(bytes)@[k],
{
    bytes[at] = (v & 0xff) as u8;
    bytes[at + 1] = ((v >> 8) & 0xff) as u8;
    bytes[at + 2] = ((v >> 16) & 0xff) as u8;
    bytes[at + 3] = ((v >> 24) & 0xff) as u8;
    assert(v >> 0u32 == v) by (bit_vector);
    assert(bytes@[at as int] == le_byte(v, 0));
    assert(bytes@[at + 1] == le_byte(v, 1));
    assert(bytes@[at + 2] == le_byte(v, 2));
    assert(bytes@[at + 3] == le_byte(v, 3));
    assert forall|k: int| 0 <= k < 4 implies #[trigger] bytes@[at + k] == le_byte(v, k) by {
        if k == 0 {} else if k == 1 {} else if k == 2 {} else {}
    }
}

/// Whom a `kill` call reaches.
#[derive(Clone, Copy, PartialEq, Eq, Structural, Debug)]
pub enum KillTarget {
    /// Nothing to deliver; the call succeeds.
    Done,
    /// The calling thread itself.
    Thread(i32),
    /// The process with this id.
    Process(i32),
}

/// Who a `kill(pid, sig)` made by thread `current_tid` of process
/// `process_pid` is aimed at.
pub fn kill_target(pid: i32, sig: i32, current_tid: i32, process_pid: i32) -> (r: Result<KillTarget, Errno>)
    ensures
        r == if sig < 0 || sig > 64 {
            Err(Errno::EINVAL)
        } else if pid == current_tid {
            if sig == 0 { Ok(KillTarget::Done) } else { Ok(KillTarget::Thread(pid)) }
        } else if pid == 0 || pid == process_pid {
            Ok(KillTarget::Process(process_pid))
        } else if pid > 0 {
            Ok(KillTarget::Process(pid))
        } else {
            Err(Errno::ESRCH)
        },
{
    validate_signal_target(sig)?;
    if pid == current_tid {
        if sig == 0 {
            return Ok(KillTarget::Done);
        }
        return Ok(KillTarget::Thread(pid));
    }
    if pid == 0 || pid == process_pid {
        return Ok(KillTarget::Process(process_pid));
    }
    if pid > 0 {
        return Ok(KillTarget::Process(pid));
    }
    Err(Errno::ESRCH)
}

/// How a signal reaches a process with `threads` live threads.
#[derive(Clone, Copy, PartialEq, Eq, Structural, Debug)]
pub enum ProcessDelivery {
    /// Nothing to deliver; the call succeeds.
    Done,
    /// Ask the whole process to exit with this code and signal every thread.
    KillAll(i32),
    /// Signal the process's first thread.
    FirstThread,
}

/// How `kill` delivers `sig` to a process that has `threads` threads.
pub fn process_delivery(threads: usize, sig: i32) -> (r: Result<ProcessDelivery, Errno>)
    requires
        0 <= sig <= 64,
    ensures
        r == if threads == 0 {
            Err(Errno::ESRCH)
        } else if sig == 0 {
            Ok(ProcessDelivery::Done)
        } else if sig == SIGKILL {
            Ok(ProcessDelivery::KillAll((128 + sig) as i32))
        } else {
            Ok(ProcessDelivery::FirstThread)
        },
{
    if threads == 0 {
        return Err(Errno::ESRCH);
    }
    if sig == 0 {
        return Ok(ProcessDelivery::Done);
    }
    if sig == SIGKILL {
        return Ok(ProcessDelivery::KillAll(128 + sig));
    }
    Ok(ProcessDelivery::FirstThread)
}


/// Blocking a set of signals and unblocking it again gives back the mask
/// there was, when none of them was blocked before; `SIG_SETMASK` installs
/// the set as it is.
pub proof fn block_then_unblock_restores(current: u64, set: u64)
    ensures
        current & set == 0 ==> (current | set) & !set == current,
        (current | set) & set == set,
{
    assert(current & set == 0 ==> (current | set) & !set == current) by (bit_vector);
    assert((current | set) & set == set) by (bit_vector);
}

/// Where a signal handler starts: the frame below the interrupted stack,
/// and the registers the handler sees.
#[derive(Clone, Copy, Debug, PartialEq, Eq, Structural)]
pub struct SignalEntry {
    /// The signal frame, which is also the handler's stack pointer.
    pub frame: u64,
    /// Return address: the trampoline that calls `rt_sigreturn`.
    pub ra: u64,
    /// First argument: the signal number.
    pub a0: u64,
    /// Second argument: the `siginfo` record.
    pub a1: u64,
    /// Third argument: the `ucontext` record.
    pub a2: u64,
    /// Where execution continues: the handler.
    pub pc: u64,
}

/// How a thread enters the handler `handler` of signal `sig` from the stack
/// pointer `sp`, with a signal frame of `frame_size` bytes whose trampoline,
/// `siginfo` and `ucontext` lie at the given offsets: the frame goes below
/// the stack, 16-byte aligned (stopping at 0). The default and ignore
/// dispositions (`handler` 0 or 1) take no frame: the signal is dropped.
pub open spec fn signal_entry_of(
    handler: u64,
    sp: u64,
    frame_size: u64,
    tramp_off: u64,
    info_off: u64,
    uctx_off: u64,
    sig: i32,
) -> Option<SignalEntry> {
    if handler <= 1 {
        None
    } else {
        let below = if sp >= frame_size { sp - frame_size } else { 0 };
        let frame = below - below % 16;
        Some(
            SignalEntry {
                frame: frame as u64,
                ra: (frame + tramp_off) as u64,
                a0: sig as u64,
                a1: (frame + info_off) as u64,
                a2: (frame + uctx_off) as u64,
                pc: handler,
            },
        )
    }
}

/// Computes how a thread enters a signal handler.
pub fn signal_entry(
    handler: u64,
    sp: u64,
    frame_size: u64,
    tramp_off: u64,
    info_off: u64,
    uctx_off: u64,
    sig: i32,
) -> (r: Option<SignalEntry>)
    requires
        tramp_off < frame_size,
        info_off < frame_size,
        uctx_off < frame_size,
        frame_size < u64::MAX / 2,
    ensures
        r == signal_entry_of(handler, sp, frame_size, tramp_off, info_off, uctx_off, sig),
{
    if handler <= 1 {
        return None;
    }
    let below = sp.saturating_sub(frame_size);
    let frame = below - below % 16;
    assert(frame <= below);
    assert(below == 0 || below + frame_size <= u64::MAX);
    Some(
        SignalEntry {
            frame,
            ra: frame + tramp_off,
            a0: sig as u64,
            a1: frame + info_off,
            a2: frame + uctx_off,
            pc: handler,
        },
    )
}

/// `tkill(tid, sig)` before the thread is looked up: `EINVAL` for a thread
/// id that is not positive or a signal number outside 0 to 64.
pub fn tkill_check(tid: i32, sig: i32) -> (r: Result<(), Errno>)
    ensures
        r == if tid <= 0 || sig < 0 || sig > 64 { Err::<(), Errno>(Errno::EINVAL) } else { Ok(()) },
{
    if tid <= 0 {
        return Err(Errno::EINVAL);
    }
    validate_signal_target(sig)
}

/// The thread a signal is sent to, found in process `found_pid` (none when
/// no thread has the id), must belong to the caller's process `process_pid`
/// and, for `tgkill`, to the process `tgid` named.
pub fn thread_target_check(found_pid: Option<i32>, process_pid: i32, tgid: Option<i32>) -> (r: Result<(), Errno>)
    ensures
        r == match found_pid {
            None => Err::<(), Errno>(Errno::ESRCH),
            Some(p) => if p != process_pid || (tgid matches Some(g) && p != g) {
                Err(Errno::ESRCH)
            } else {
                Ok(())
            },
        },
{
    match found_pid {
        None => Err(Errno::ESRCH),
        Some(p) => {
            if p != process_pid {
                return Err(Errno::ESRCH);
            }
            match tgid {
                Some(g) => if p != g { Err(Errno::ESRCH) } else { Ok(()) },
                None => Ok(()),
            }
        },
    }
}

/// `tgkill(tgid, tid, sig)` before the thread is looked up: `EINVAL` unless
/// both ids are positive.
pub fn tgkill_check(tgid: i32, tid: i32) -> (r: Result<(), Errno>)
    ensures
        r == if tgid <= 0 || tid <= 0 { Err::<(), Errno>(Errno::EINVAL) } else { Ok(()) },
{
    if tgid <= 0 || tid <= 0 {
        Err(Errno::EINVAL)
    } else {
        Ok(())
    }
}

/// The thread whose robust list `get_robust_list(pid)` reads: the caller for
/// `pid` 0. Once it is found (in process `found_pid`), it must belong to the
/// caller's process: `ESRCH` when there is no such thread, `EPERM` when it
/// belongs to another process.
pub fn robust_list_target(pid: i32, current_tid: i32, found_pid: Option<i32>, process_pid: i32) -> (r: (i32, Result<(), Errno>))
    ensures
        r.0 == if pid == 0 { current_tid } else { pid },
        r.1 == match found_pid {
            None => Err::<(), Errno>(Errno::ESRCH),
            Some(p) => if p != process_pid { Err(Errno::EPERM) } else { Ok(()) },
        },
{
    let tid = if pid == 0 { current_tid } else { pid };
    let check = match found_pid {
        None => Err(Errno::ESRCH),
        Some(p) => if p != process_pid { Err(Errno::EPERM) } else { Ok(()) },
    };
    (tid, check)
}

} // verus!
