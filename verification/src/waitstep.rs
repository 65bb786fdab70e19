use vstd::prelude::*;
use crate::errno::Errno;

verus! {

/// What a `poll` loop does after one pass over its entries.
#[derive(Clone, Copy, Debug, PartialEq, Eq, Structural)]
pub enum PollStep {
    /// Return this many entries with returned events.
    Ready(usize),
    /// The timeout ran out: return 0.
    TimedOut,
    /// A signal arrived: fail with `EINTR`.
    Interrupted,
    /// Yield and poll again.
    Wait,
}

/// After a pass of `poll` that found `ready` entries with returned events:
/// those are reported first, then a passed deadline ends the wait with 0,
/// then a pending signal interrupts it; otherwise the loop goes on. (Before
/// each pass, a pending signal fails the call with `EINTR` at once.)
pub fn poll_step(ready: usize, deadline_passed: bool, interrupted: bool) -> (r: PollStep)
    ensures
        r == if ready > 0 {
            PollStep::Ready(ready)
        } else if deadline_passed {
            PollStep::TimedOut
        } else if interrupted {
            PollStep::Interrupted
        } else {
            PollStep::Wait
        },
{
    if ready > 0 {
        PollStep::Ready(ready)
    } else if deadline_passed {
        PollStep::TimedOut
    } else if interrupted {
        PollStep::Interrupted
    } else {
        PollStep::Wait
    }
}

/// What a `pselect6` loop does after one pass over its three sets.
#[derive(Clone, Copy, Debug)]
pub enum PselectStep {
    /// Write back these sets (read, write, except) and return the count.
    Ready { count: usize, sets: [[u64; 16]; 3] },
    /// The timeout ran out: write back these (empty) sets and return 0.
    TimedOut { sets: [[u64; 16]; 3] },
    /// Yield and poll again.
    Wait,
}

/// The number of descriptors `pselect6(nfds, ..)` looks at: `EINVAL` for a
/// negative count, and never more than 1024.
pub fn pselect_nfds(nfds: i32) -> (r: Result<usize, Errno>)
    ensures
        r == if nfds < 0 {
            Err::<usize, Errno>(Errno::EINVAL)
        } else if nfds > 1024 {
            Ok(1024usize)
        } else {
            Ok(nfds as usize)
        },
{
    if nfds < 0 {
        Err(Errno::EINVAL)
    } else if nfds > 1024 {
        Ok(1024)
    } else {
        Ok(nfds as usize)
    }
}

/// After a pass of `pselect6` that found `counts` ready descriptors in the
/// ready sets `sets` (read, write, except): any ready descriptor ends the
/// wait with the sets and the total; a passed deadline ends it with three
/// empty sets; otherwise the loop goes on.
pub fn pselect_step(counts: [usize; 3], sets: [[u64; 16]; 3], deadline_passed: bool) -> (r: PselectStep)
    requires
        counts[0] + counts[1] + counts[2] <= usize::MAX,
    ensures
        counts[0] + counts[1] + counts[2] > 0 ==> (r matches PselectStep::Ready { count, sets: out }
            && count == counts[0] + counts[1] + counts[2] && out == sets),
        counts[0] + counts[1] + counts[2] == 0 && deadline_passed ==> (r matches PselectStep::TimedOut {
            sets: out,
        } && forall|k: int, w: int| 0 <= k < 3 && 0 <= w < 16 ==> #[trigger] out[k][w] == 0),
        counts[0] + counts[1] + counts[2] == 0 && !deadline_passed ==> r is Wait,
{
    let total = counts[0] + counts[1] + counts[2];
    if total > 0 {
        PselectStep::Ready { count: total, sets }
    } else if deadline_passed {
        let empty: [[u64; 16]; 3] = [[0u64; 16], [0u64; 16], [0u64; 16]];
        assert(forall|k: int, w: int| 0 <= k < 3 && 0 <= w < 16 ==> #[trigger] empty[k][w] == 0);
        PselectStep::TimedOut { sets: empty }
    } else {
        PselectStep::Wait
    }
}

/// What a `wait4` loop does after one look at the children.
#[derive(Clone, Copy, Debug, PartialEq, Eq, Structural)]
pub enum ChildWait {
    /// Reap the child at this index and report it.
    Reap(usize),
    /// No child is ready and the caller does not wait: report none.
    NoneReady,
    /// Fail with this error.
    Fail(Errno),
    /// The process is ending: end the calling thread with this code.
    ExitGroup(i32),
    /// Sleep a little and look again.
    Sleep,
}

/// After `select_exited_child` answered `selected` for the children as they
/// are now: its error or its child are final; with no child ready, `WNOHANG`
/// reports none, a pending `exit_group` ends the thread, an unblocked pending
/// signal fails the wait with `EINTR`, and otherwise the caller sleeps.
pub fn wait_child_step(
    selected: Result<Option<usize>, Errno>,
    nohang: bool,
    exit_group: Option<i32>,
    signal_pending: bool,
) -> (r: ChildWait)
    ensures
        r == match selected {
            Err(e) => ChildWait::Fail(e),
            Ok(Some(i)) => ChildWait::Reap(i),
            Ok(None) => if nohang {
                ChildWait::NoneReady
            } else {
                match exit_group {
                    Some(code) => ChildWait::ExitGroup(code),
                    None => if signal_pending {
                        ChildWait::Fail(Errno::EINTR)
                    } else {
                        ChildWait::Sleep
                    },
                }
            },
        },
{
    match selected {
        Err(e) => ChildWait::Fail(e),
        Ok(Some(i)) => ChildWait::Reap(i),
        Ok(None) => if nohang {
            ChildWait::NoneReady
        } else {
            match exit_group {
                Some(code) => ChildWait::ExitGroup(code),
                None => if signal_pending {
                    ChildWait::Fail(Errno::EINTR)
                } else {
                    ChildWait::Sleep
                },
            }
        },
    }
}

} // verus!
