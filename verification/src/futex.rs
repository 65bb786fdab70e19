use vstd::prelude::*;
use crate::errno::Errno;

verus! {

/// `futex` commands.
pub const FUTEX_WAIT: u32 = 0;
pub const FUTEX_WAKE: u32 = 1;
pub const FUTEX_REQUEUE: u32 = 3;
pub const FUTEX_CMP_REQUEUE: u32 = 4;
pub const FUTEX_WAKE_OP: u32 = 5;
pub const FUTEX_WAIT_BITSET: u32 = 9;
pub const FUTEX_WAKE_BITSET: u32 = 10;
/// The bits of the operation word that select the command (without
/// `FUTEX_PRIVATE_FLAG` and `FUTEX_CLOCK_REALTIME`).
pub const FUTEX_CMD_MASK: u32 = 0xffff_fe7f;
/// `FUTEX_CLOCK_REALTIME`: an absolute timeout reads the wall clock.
pub const FUTEX_CLOCK_REALTIME: u32 = 0x100;

/// A decoded `futex` call.
#[derive(Clone, Copy, Debug, PartialEq, Eq, Structural)]
pub enum FutexCommand {
    /// Sleep while the word holds the expected value; `bitset` calls take an
    /// absolute timeout on the clock `realtime` selects, others a relative one.
    Wait { bitset: bool, realtime: bool },
    /// Wake up to `val` waiters.
    Wake,
    /// Wake waiters and move others to the second word; `compare` first
    /// checks the word against `val3`.
    Requeue { compare: bool },
    /// Change the second word and wake waiters on one or both words.
    WakeOp,
}

/// What `futex(uaddr, op, .., uaddr2, val3)` asks for: an unaligned or null
/// word is `EINVAL`, so is a bitset call with an empty bitset; a requeue
/// without a second word is `EFAULT`; other commands are `ENOSYS`.
pub open spec fn futex_command_of(uaddr: u64, op: u32, uaddr2: u64, val3: u64) -> Result<
    FutexCommand,
    Errno,
> {
    let cmd = op & FUTEX_CMD_MASK;
    if uaddr == 0 || uaddr % 4 != 0 {
        Err(Errno::EINVAL)
    } else if cmd == FUTEX_WAIT || cmd == FUTEX_WAIT_BITSET {
        if cmd == FUTEX_WAIT_BITSET && val3 == 0 {
            Err(Errno::EINVAL)
        } else {
            Ok(
                FutexCommand::Wait {
                    bitset: cmd == FUTEX_WAIT_BITSET,
                    realtime: op & FUTEX_CLOCK_REALTIME != 0,
                },
            )
        }
    } else if cmd == FUTEX_WAKE || cmd == FUTEX_WAKE_BITSET {
        if cmd == FUTEX_WAKE_BITSET && val3 == 0 {
            Err(Errno::EINVAL)
        } else {
            Ok(FutexCommand::Wake)
        }
    } else if cmd == FUTEX_REQUEUE || cmd == FUTEX_CMP_REQUEUE {
        if uaddr2 == 0 {
            Err(Errno::EFAULT)
        } else {
            Ok(FutexCommand::Requeue { compare: cmd == FUTEX_CMP_REQUEUE })
        }
    } else if cmd == FUTEX_WAKE_OP {
        Ok(FutexCommand::WakeOp)
    } else {
        Err(Errno::ENOSYS)
    }
}

/// Decodes a `futex` call.
pub fn futex_command(uaddr: u64, op: u32, uaddr2: u64, val3: u64) -> (r: Result<
    FutexCommand,
    Errno,
>)
    ensures
        r == futex_command_of(uaddr, op, uaddr2, val3),
{
    let cmd = op & FUTEX_CMD_MASK;
    if uaddr == 0 || uaddr % 4 != 0 {
        return Err(Errno::EINVAL);
    }
    if cmd == FUTEX_WAIT || cmd == FUTEX_WAIT_BITSET {
        if cmd == FUTEX_WAIT_BITSET && val3 == 0 {
            return Err(Errno::EINVAL);
        }
        return Ok(
            FutexCommand::Wait {
                bitset: cmd == FUTEX_WAIT_BITSET,
                realtime: op & FUTEX_CLOCK_REALTIME != 0,
            },
        );
    }
    if cmd == FUTEX_WAKE || cmd == FUTEX_WAKE_BITSET {
        if cmd == FUTEX_WAKE_BITSET && val3 == 0 {
            return Err(Errno::EINVAL);
        }
        return Ok(FutexCommand::Wake);
    }
    if cmd == FUTEX_REQUEUE || cmd == FUTEX_CMP_REQUEUE {
        if uaddr2 == 0 {
            return Err(Errno::EFAULT);
        }
        return Ok(FutexCommand::Requeue { compare: cmd == FUTEX_CMP_REQUEUE });
    }
    if cmd == FUTEX_WAKE_OP {
        return Ok(FutexCommand::WakeOp);
    }
    Err(Errno::ENOSYS)
}

/// A wait goes to sleep only while the word still holds the value the caller
/// expected; otherwise it fails with `EAGAIN` at once.
pub fn futex_wait_check(current: u32, expected: u64) -> (r: Result<(), Errno>)
    ensures
        r == if current != expected as u32 {
            Err::<(), Errno>(Errno::EAGAIN)
        } else {
            Ok(())
        },
{
    if current != expected as u32 {
        Err(Errno::EAGAIN)
    } else {
        Ok(())
    }
}

/// How a wait that has ended is reported: `ETIMEDOUT` when its timeout
/// expired; `EINTR` when nothing woke it but a pending cancellation (which
/// the caller then arms for delivery); success otherwise.
pub fn futex_wait_result(timed_out: bool, changed: bool, cancel_pending: bool) -> (r: Result<
    (),
    Errno,
>)
    ensures
        r == if timed_out {
            Err::<(), Errno>(Errno::ETIMEDOUT)
        } else if !changed && cancel_pending {
            Err(Errno::EINTR)
        } else {
            Ok(())
        },
{
    if timed_out {
        Err(Errno::ETIMEDOUT)
    } else if !changed && cancel_pending {
        Err(Errno::EINTR)
    } else {
        Ok(())
    }
}

/// The operation field of a `FUTEX_WAKE_OP` word.
pub open spec fn wake_op_code(enc: u32) -> u32 {
    (enc >> 28) & 0xf
}

/// The comparison field of a `FUTEX_WAKE_OP` word.
pub open spec fn wake_op_relation(enc: u32) -> u32 {
    (enc >> 24) & 0xf
}

/// The operand of a `FUTEX_WAKE_OP` word, `1 << oparg` (0 when too wide)
/// when the shift bit is set.
pub open spec fn wake_op_arg(enc: u32) -> u32 {
    let oparg = (enc >> 12) & 0xfff;
    if wake_op_code(enc) & 8 != 0 {
        if oparg < 32 {
            1u32 << oparg
        } else {
            0
        }
    } else {
        oparg
    }
}

/// The comparison operand of a `FUTEX_WAKE_OP` word.
pub open spec fn wake_op_bound(enc: u32) -> u32 {
    enc & 0xfff
}

/// The value `FUTEX_WAKE_OP` stores in the second word when it held `old`:
/// set, add (wrapping), or, and-not or xor with the operand; other
/// operations are `ENOSYS`.
pub open spec fn wake_op_value_of(old: u32, enc: u32) -> Result<u32, Errno> {
    let op = wake_op_code(enc) & 7;
    let arg = wake_op_arg(enc);
    if op == 0 {
        Ok(arg)
    } else if op == 1 {
        Ok(vstd::wrapping::u32_specs::wrapping_add(old, arg))
    } else if op == 2 {
        Ok(old | arg)
    } else if op == 3 {
        Ok(old & !arg)
    } else if op == 4 {
        Ok(old ^ arg)
    } else {
        Err(Errno::ENOSYS)
    }
}

/// Whether `FUTEX_WAKE_OP` also wakes waiters on the second word, comparing
/// its old value (as a signed number) with the operand; other comparisons
/// are `ENOSYS`.
pub open spec fn wake_op_condition_of(old: u32, enc: u32) -> Result<bool, Errno> {
    let relation = wake_op_relation(enc);
    let a = old as i32;
    let b = wake_op_bound(enc) as i32;
    if relation == 0 {
        Ok(a == b)
    } else if relation == 1 {
        Ok(a != b)
    } else if relation == 2 {
        Ok(a < b)
    } else if relation == 3 {
        Ok(a <= b)
    } else if relation == 4 {
        Ok(a > b)
    } else if relation == 5 {
        Ok(a >= b)
    } else {
        Err(Errno::ENOSYS)
    }
}

fn wake_op_operand(enc: u32) -> (r: u32)
    ensures
        r == wake_op_arg(enc),
{
    let op = (enc >> 28) & 0xf;
    let oparg = (enc >> 12) & 0xfff;
    if op & 8 != 0 {
        if oparg < 32 {
            1u32 << oparg
        } else {
            0
        }
    } else {
        oparg
    }
}

/// Computes what `FUTEX_WAKE_OP` stores in the second word.
pub fn wake_op_value(old: u32, enc: u32) -> (r: Result<u32, Errno>)
    ensures
        r == wake_op_value_of(old, enc),
{
    let op = ((enc >> 28) & 0xf) & 7;
    let arg = wake_op_operand(enc);
    if op == 0 {
        Ok(arg)
    } else if op == 1 {
        Ok(old.wrapping_add(arg))
    } else if op == 2 {
        Ok(old | arg)
    } else if op == 3 {
        Ok(old & !arg)
    } else if op == 4 {
        Ok(old ^ arg)
    } else {
        Err(Errno::ENOSYS)
    }
}

/// Decides whether `FUTEX_WAKE_OP` wakes waiters on the second word.
pub fn wake_op_condition(old: u32, enc: u32) -> (r: Result<bool, Errno>)
    ensures
        r == wake_op_condition_of(old, enc),
{
    let relation = (enc >> 24) & 0xf;
    let a = old as i32;
    let b = (enc & 0xfff) as i32;
    if relation == 0 {
        Ok(a == b)
    } else if relation == 1 {
        Ok(a != b)
    } else if relation == 2 {
        Ok(a < b)
    } else if relation == 3 {
        Ok(a <= b)
    } else if relation == 4 {
        Ok(a > b)
    } else if relation == 5 {
        Ok(a >= b)
    } else {
        Err(Errno::ENOSYS)
    }
}

/// What a requeue reports: the woken and moved waiters together, saturating.
pub fn requeue_result(woken: u64, requeued: u64) -> (r: u64)
    ensures
        r == if woken + requeued > u64::MAX {
            u64::MAX as int
        } else {
            woken + requeued
        },
{
    woken.saturating_add(requeued)
}

/// Whether a waiter queued on word `key_uaddr` with bitset `key_bitset` is
/// among those a wake of `uaddr` with `wake_bitset` reaches.
pub open spec fn wake_reaches(key_uaddr: u64, key_bitset: u32, uaddr: u64, wake_bitset: u32) -> bool {
    key_uaddr == uaddr && key_bitset & wake_bitset != 0
}

/// Decides whether a wake reaches a queue (see `wake_reaches`).
pub fn futex_wake_reaches(key_uaddr: u64, key_bitset: u32, uaddr: u64, wake_bitset: u32) -> (r: bool)
    ensures
        r == wake_reaches(key_uaddr, key_bitset, uaddr, wake_bitset),
{
    key_uaddr == uaddr && key_bitset & wake_bitset != 0
}

/// How many waiters the first `i` queues give up when at most `count` are
/// woken, queue by queue, each as many as it holds and the budget allows.
pub open spec fn woken_before(waiting: Seq<u64>, count: int, i: int) -> int
    decreases i,
{
    if i <= 0 {
        0
    } else {
        let prev = woken_before(waiting, count, i - 1);
        prev + if waiting[i - 1] < count - prev { waiting[i - 1] as int } else { count - prev }
    }
}

/// The sum of `s`.
pub open spec fn total_of(s: Seq<u64>) -> int
    decreases s.len(),
{
    if s.len() == 0 {
        0
    } else {
        total_of(s.drop_last()) + s.last()
    }
}

/// Splits a wake of at most `count` waiters over the queues it reaches, in
/// their order, whose waiters are counted in `waiting`. The result holds, for
/// each queue visited, how many of its waiters are woken; every visited queue
/// has its wake sequence advanced. The visit stops after the queue that uses
/// up the budget, so at least the first queue is visited when there is one.
pub fn futex_wake_plan(waiting: &[u64], count: u64) -> (r: Vec<u64>)
    ensures
        r@.len() <= waiting@.len(),
        waiting@.len() > 0 ==> r@.len() >= 1,
        forall|i: int| 0 <= i < r@.len() ==> #[trigger] r@[i] == if waiting@[i] < count
            - woken_before(waiting@, count as int, i) {
            waiting@[i] as int
        } else {
            count - woken_before(waiting@, count as int, i)
        },
        forall|i: int| 1 <= i < r@.len() ==> #[trigger] woken_before(waiting@, count as int, i) < count,
        r@.len() < waiting@.len() ==> woken_before(waiting@, count as int, r@.len() as int) >= count,
        total_of(r@) == woken_before(waiting@, count as int, r@.len() as int),
        total_of(r@) <= count,
{
    let mut out: Vec<u64> = Vec::new();
    let mut woken: u64 = 0;
    let mut i: usize = 0;
    while i < waiting.len() && !(i > 0 && woken >= count)
        invariant
            i == out@.len(),
            i <= waiting@.len(),
            woken == woken_before(waiting@, count as int, i as int),
            woken <= count,
            total_of(out@) == woken,
            forall|j: int| 0 <= j < i ==> #[trigger] out@[j] == if waiting@[j] < count
                - woken_before(waiting@, count as int, j) {
                waiting@[j] as int
            } else {
                count - woken_before(waiting@, count as int, j)
            },
            forall|j: int| 1 <= j < i ==> #[trigger] woken_before(waiting@, count as int, j) < count,
        decreases waiting@.len() - i,
    {
        let w = if waiting[i] < count - woken { waiting[i] } else { count - woken };
        let ghost before = out@;
        out.push(w);
        assert(out@.drop_last() =~= before);
        woken = woken + w;
        i = i + 1;
    }
    out
}

} // verus!
