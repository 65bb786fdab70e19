use vstd::prelude::*;
use std::collections::BTreeMap;
use crate::errno::Errno;

verus! {

// ----- waiting for children -----

/// `wait4` option bits.
pub const WNOHANG: u32 = 1;
pub const WUNTRACED: u32 = 2;
pub const WCONTINUED: u32 = 8;
pub const WNOTHREAD: u32 = 0x2000_0000;
pub const WALL: u32 = 0x4000_0000;
pub const WCLONE: u32 = 0x8000_0000;
/// Every option bit `wait4` accepts.
pub const SUPPORTED_WAIT_OPTIONS: u32 = 0xe000_000b;

/// What a parent knows of one child when it looks for one to reap.
#[derive(Clone, Copy, Debug, PartialEq, Eq, Structural)]
pub struct ChildEntry {
    pub pid: i32,
    pub exited: bool,
}

/// Index of the first child with process id `pid`.
pub open spec fn child_index(children: Seq<ChildEntry>, pid: i32) -> Option<int>
    decreases children.len(),
{
    if children.len() == 0 {
        None
    } else if children.last().pid == pid && child_index(children.drop_last(), pid) is None {
        Some(children.len() - 1)
    } else {
        child_index(children.drop_last(), pid)
    }
}

/// Index of the first child that has exited.
pub open spec fn exited_index(children: Seq<ChildEntry>) -> Option<int>
    decreases children.len(),
{
    if children.len() == 0 {
        None
    } else if children.last().exited && exited_index(children.drop_last()) is None {
        Some(children.len() - 1)
    } else {
        exited_index(children.drop_last())
    }
}

pub proof fn lemma_child_index(children: Seq<ChildEntry>, pid: i32)
    ensures
        child_index(children, pid) matches Some(i) ==> 0 <= i < children.len() && children[i].pid
            == pid && forall|j: int| 0 <= j < i ==> #[trigger] children[j].pid != pid,
        child_index(children, pid) is None ==> forall|j: int|
            0 <= j < children.len() ==> #[trigger] children[j].pid != pid,
    decreases children.len(),
{
    if children.len() > 0 {
        lemma_child_index(children.drop_last(), pid);
        let d = children.drop_last();
        assert(forall|j: int| 0 <= j < d.len() ==> d[j] == children[j]);
    }
}

pub proof fn lemma_exited_index(children: Seq<ChildEntry>)
    ensures
        exited_index(children) matches Some(i) ==> 0 <= i < children.len() && children[i].exited
            && forall|j: int| 0 <= j < i ==> !(#[trigger] children[j].exited),
        exited_index(children) is None ==> forall|j: int|
            0 <= j < children.len() ==> !(#[trigger] children[j].exited),
    decreases children.len(),
{
    if children.len() > 0 {
        lemma_exited_index(children.drop_last());
        let d = children.drop_last();
        assert(forall|j: int| 0 <= j < d.len() ==> d[j] == children[j]);
    }
}

/// Which child `wait4(pid)` reaps now: with no children `ECHILD`; for
/// `pid == -1` the first child that has exited; for `pid > 0` that child
/// once it has exited (`ECHILD` when there is no such child); any other
/// `pid` is `EINVAL`. `None` means the chosen child has not exited yet.
pub open spec fn reapable(children: Seq<ChildEntry>, pid: i32) -> Result<Option<int>, Errno> {
    if children.len() == 0 {
        Err(Errno::ECHILD)
    } else if pid == -1 {
        Ok(exited_index(children))
    } else if pid > 0 {
        match child_index(children, pid) {
            None => Err(Errno::ECHILD),
            Some(i) => if children[i].exited {
                Ok(Some(i))
            } else {
                Ok(None)
            },
        }
    } else {
        Err(Errno::EINVAL)
    }
}

/// Picks the child that `wait4(pid)` reaps now, by its index in `children`.
pub fn select_exited_child(children: &[ChildEntry], pid: i32) -> (r: Result<Option<usize>, Errno>)
    ensures
        match (r, reapable(children@, pid)) {
            (Ok(Some(i)), Ok(Some(j))) => i == j,
            (Ok(None), Ok(None)) => true,
            (Err(e), Err(f)) => e == f,
            _ => false,
        },
{
    proof {
        lemma_child_index(children@, pid);
        lemma_exited_index(children@);
    }
    if children.len() == 0 {
        return Err(Errno::ECHILD);
    }
    if pid == -1 {
        let mut i: usize = 0;
        while i < children.len()
            invariant
                i <= children@.len(),
                children@.len() > 0,
                pid == -1,
                forall|j: int| 0 <= j < i ==> !(#[trigger] children@[j].exited),
            decreases children@.len() - i,
        {
            if children[i].exited {
                proof {
                    lemma_exited_index(children@);
                    match exited_index(children@) {
                        Some(k) => {
                            if k < i {
                                assert(!children@[k].exited);
                            } else if k > i {
                                assert(!children@[i as int].exited);
                            }
                        },
                        None => {
                            assert(!children@[i as int].exited);
                        },
                    }
                }
                return Ok(Some(i));
            }
            i = i + 1;
        }
        return Ok(None);
    }
    if pid > 0 {
        let mut i: usize = 0;
        while i < children.len()
            invariant
                i <= children@.len(),
                children@.len() > 0,
                pid > 0,
                forall|j: int| 0 <= j < i ==> #[trigger] children@[j].pid != pid,
            decreases children@.len() - i,
        {
            if children[i].pid == pid {
                proof {
                    lemma_child_index(children@, pid);
                    match child_index(children@, pid) {
                        Some(k) => {
                            if k < i {
                                assert(children@[k].pid != pid);
                            } else if k > i {
                                assert(children@[i as int].pid != pid);
                            }
                        },
                        None => {
                            assert(children@[i as int].pid != pid);
                        },
                    }
                }
                if children[i].exited {
                    return Ok(Some(i));
                }
                return Ok(None);
            }
            i = i + 1;
        }
        return Err(Errno::ECHILD);
    }
    Err(Errno::EINVAL)
}

/// Checks the options of `wait4`: `EINVAL` for an unknown bit, otherwise
/// whether `WNOHANG` was asked.
pub fn check_wait_options(options: u32) -> (r: Result<bool, Errno>)
    ensures
        r == if options & !SUPPORTED_WAIT_OPTIONS != 0 {
            Err::<bool, Errno>(Errno::EINVAL)
        } else {
            Ok(options & WNOHANG != 0)
        },
{
    if options & !SUPPORTED_WAIT_OPTIONS != 0 {
        return Err(Errno::EINVAL);
    }
    Ok(options & WNOHANG != 0)
}

/// The status word `wait4` reports for a child that exited with `code`.
pub fn wait_status(code: i32) -> (r: i32)
    ensures
        r == (code & 0xff) * 256,
        0 <= r <= 0xff00,
{
    let low = code & 0xff;
    assert(0 <= low <= 0xff) by (bit_vector)
        requires
            low == code & 0xff,
    ;
    assert(low << 8 == low * 256) by (bit_vector)
        requires
            0 <= low <= 0xff,
    ;
    low << 8
}

// ----- clone -----

/// `clone` flag bits.
pub const CLONE_VM: u64 = 0x100;
pub const CLONE_FS: u64 = 0x200;
pub const CLONE_FILES: u64 = 0x400;
pub const CLONE_SIGHAND: u64 = 0x800;
pub const CLONE_VFORK: u64 = 0x4000;
pub const CLONE_THREAD: u64 = 0x10000;
pub const CLONE_SYSVSEM: u64 = 0x40000;
pub const CLONE_SETTLS: u64 = 0x80000;
pub const CLONE_PARENT_SETTID: u64 = 0x100000;
pub const CLONE_CHILD_CLEARTID: u64 = 0x200000;
pub const CLONE_DETACHED: u64 = 0x400000;
pub const CLONE_UNTRACED: u64 = 0x800000;
pub const CLONE_CHILD_SETTID: u64 = 0x1000000;
/// The signal a forked child sends its parent when it exits.
pub const SIGCHLD: u64 = 17;
/// `CLONE_VM | CLONE_VFORK`.
pub const VFORK_FLAGS: u64 = 0x4100;
/// Flags a new process may be created with.
pub const PROCESS_ALLOWED_FLAGS: u64 = 0x1384100;
/// Flags every new thread must be created with.
pub const THREAD_REQUIRED_FLAGS: u64 = 0x50f00;
/// Flags a new thread may be created with.
pub const THREAD_ALLOWED_FLAGS: u64 = 0x1fd0f00;

/// How to create what a `clone` call asks for.
#[derive(Clone, Copy, Debug, PartialEq, Eq, Structural)]
pub struct ClonePlan {
    /// A new thread of the caller's process rather than a new process.
    pub thread: bool,
    /// The thread pointer the child starts with, if it is set.
    pub tls: Option<u64>,
    /// Where to store the child's id in the parent, if asked.
    pub parent_tid: Option<u64>,
    /// Where to store the child's id in the child, if asked.
    pub child_set_tid: Option<u64>,
    /// Where the child's id is cleared (and waiters woken) when it exits, 0
    /// for nowhere.
    pub child_clear_tid: u64,
}

/// Whether `clone_flags` (without the exit signal) ask for a new process.
pub open spec fn fork_like(clone_flags: u64) -> bool {
    clone_flags & !PROCESS_ALLOWED_FLAGS == 0 && (clone_flags & CLONE_VM == 0 || clone_flags
        & VFORK_FLAGS == VFORK_FLAGS)
}

/// The child described by `clone_flags` once its addresses are checked.
pub open spec fn clone_plan_of(clone_flags: u64, thread: bool, ptid: u64, tls: u64, ctid: u64) -> ClonePlan {
    ClonePlan {
        thread,
        tls: if clone_flags & CLONE_SETTLS != 0 { Some(tls) } else { None },
        parent_tid: if clone_flags & CLONE_PARENT_SETTID != 0 { Some(ptid) } else { None },
        child_set_tid: if clone_flags & CLONE_CHILD_SETTID != 0 { Some(ctid) } else { None },
        child_clear_tid: if clone_flags & CLONE_CHILD_CLEARTID != 0 { ctid } else { 0 },
    }
}

/// What `clone(flags, child_stack, ptid, tls, ctid)` does: a new process
/// (fork or vfork) or a new thread, or the error it reports.
pub open spec fn clone_outcome(flags: u64, child_stack: u64, ptid: u64, tls: u64, ctid: u64) -> Result<
    ClonePlan,
    Errno,
> {
    let exit_signal = flags & 0xff;
    let clone_flags = flags & !0xffu64;
    let bad_addr = (clone_flags & CLONE_PARENT_SETTID != 0 && ptid == 0) || (clone_flags & (
    CLONE_CHILD_SETTID | CLONE_CHILD_CLEARTID) != 0 && ctid == 0);
    if fork_like(clone_flags) {
        if exit_signal != 0 && exit_signal != SIGCHLD {
            Err(Errno::ENOSYS)
        } else if bad_addr {
            Err(Errno::EFAULT)
        } else {
            Ok(clone_plan_of(clone_flags, false, ptid, tls, ctid))
        }
    } else if exit_signal != 0 || clone_flags & THREAD_REQUIRED_FLAGS != THREAD_REQUIRED_FLAGS
        || clone_flags & !THREAD_ALLOWED_FLAGS != 0 || child_stack == 0 {
        Err(Errno::ENOSYS)
    } else if bad_addr {
        Err(Errno::EFAULT)
    } else {
        Ok(clone_plan_of(clone_flags, true, ptid, tls, ctid))
    }
}

/// Decides what a `clone` call creates.
pub fn plan_clone(flags: u64, child_stack: u64, ptid: u64, tls: u64, ctid: u64) -> (r: Result<
    ClonePlan,
    Errno,
>)
    ensures
        r == clone_outcome(flags, child_stack, ptid, tls, ctid),
        r matches Ok(p) ==> {
            &&& p.thread == (flags & CLONE_THREAD != 0)
            &&& p.child_set_tid == if flags & CLONE_CHILD_SETTID != 0 { Some(ctid) } else { None }
            &&& p.child_clear_tid == if flags & CLONE_CHILD_CLEARTID != 0 { ctid } else { 0 }
            &&& p.parent_tid == if flags & CLONE_PARENT_SETTID != 0 { Some(ptid) } else { None }
            &&& p.tls == if flags & CLONE_SETTLS != 0 { Some(tls) } else { None }
        },
{
    proof {
        lemma_clone_bits(flags);
    }
    let exit_signal = flags & 0xff;
    let clone_flags = flags & !0xffu64;
    let bad_addr = (clone_flags & CLONE_PARENT_SETTID != 0 && ptid == 0) || (clone_flags & (
    CLONE_CHILD_SETTID | CLONE_CHILD_CLEARTID) != 0 && ctid == 0);
    let fork = clone_flags & !PROCESS_ALLOWED_FLAGS == 0 && (clone_flags & CLONE_VM == 0
        || clone_flags & VFORK_FLAGS == VFORK_FLAGS);
    let thread = if fork {
        if exit_signal != 0 && exit_signal != SIGCHLD {
            return Err(Errno::ENOSYS);
        }
        false
    } else {
        if exit_signal != 0 || clone_flags & THREAD_REQUIRED_FLAGS != THREAD_REQUIRED_FLAGS
            || clone_flags & !THREAD_ALLOWED_FLAGS != 0 || child_stack == 0 {
            return Err(Errno::ENOSYS);
        }
        true
    };
    if bad_addr {
        return Err(Errno::EFAULT);
    }
    Ok(ClonePlan {
        thread,
        tls: if clone_flags & CLONE_SETTLS != 0 { Some(tls) } else { None },
        parent_tid: if clone_flags & CLONE_PARENT_SETTID != 0 { Some(ptid) } else { None },
        child_set_tid: if clone_flags & CLONE_CHILD_SETTID != 0 { Some(ctid) } else { None },
        child_clear_tid: if clone_flags & CLONE_CHILD_CLEARTID != 0 { ctid } else { 0 },
    })
}

/// The bits of `flags` above the exit signal.
proof fn lemma_clone_bits(flags: u64)
    ensures
        (flags & !0xffu64) & CLONE_CHILD_SETTID == flags & CLONE_CHILD_SETTID,
        (flags & !0xffu64) & CLONE_CHILD_CLEARTID == flags & CLONE_CHILD_CLEARTID,
        (flags & !0xffu64) & CLONE_PARENT_SETTID == flags & CLONE_PARENT_SETTID,
        (flags & !0xffu64) & CLONE_SETTLS == flags & CLONE_SETTLS,
        (flags & !0xffu64) & CLONE_THREAD == flags & CLONE_THREAD,
        (flags & !0xffu64) & !PROCESS_ALLOWED_FLAGS == 0 ==> flags & CLONE_THREAD == 0,
        (flags & !0xffu64) & THREAD_REQUIRED_FLAGS == THREAD_REQUIRED_FLAGS ==> flags & CLONE_THREAD != 0,
{
    assert((flags & !0xffu64) & 0x1000000u64 == flags & 0x1000000u64) by (bit_vector);
    assert((flags & !0xffu64) & 0x200000u64 == flags & 0x200000u64) by (bit_vector);
    assert((flags & !0xffu64) & 0x100000u64 == flags & 0x100000u64) by (bit_vector);
    assert((flags & !0xffu64) & 0x80000u64 == flags & 0x80000u64) by (bit_vector);
    assert((flags & !0xffu64) & 0x10000u64 == flags & 0x10000u64) by (bit_vector);
    assert((flags & !0xffu64) & !0x1384100u64 == 0 ==> flags & 0x10000u64 == 0) by (bit_vector);
    assert((flags & !0xffu64) & 0x50f00u64 == 0x50f00u64 ==> flags & 0x10000u64 != 0) by (bit_vector);
}

/// An accepted `clone` creates a thread exactly when `CLONE_THREAD` is asked
/// for, and a process otherwise; whether process or thread, it stores the
/// child's id at `ctid` exactly when `CLONE_CHILD_SETTID` is set, clears it
/// there at exit exactly when `CLONE_CHILD_CLEARTID` is set, stores it in the
/// parent at `ptid` exactly when `CLONE_PARENT_SETTID` is set, and sets the
/// thread pointer to `tls` exactly when `CLONE_SETTLS` is set.
pub proof fn clone_follows_flags(flags: u64, child_stack: u64, ptid: u64, tls: u64, ctid: u64)
    ensures
        clone_outcome(flags, child_stack, ptid, tls, ctid) matches Ok(p) ==> {
            &&& p.thread == (flags & CLONE_THREAD != 0)
            &&& p.child_set_tid == if flags & CLONE_CHILD_SETTID != 0 { Some(ctid) } else { None }
            &&& p.child_clear_tid == if flags & CLONE_CHILD_CLEARTID != 0 { ctid } else { 0 }
            &&& p.parent_tid == if flags & CLONE_PARENT_SETTID != 0 { Some(ptid) } else { None }
            &&& p.tls == if flags & CLONE_SETTLS != 0 { Some(tls) } else { None }
        },
{
    lemma_clone_bits(flags);
}

/// glibc's `fork()` (`CLONE_CHILD_SETTID | CLONE_CHILD_CLEARTID | SIGCHLD`
/// with a child id address) creates a process that stores and later clears
/// its id at that address.
pub proof fn glibc_fork_is_accepted(ctid: u64)
    requires
        ctid != 0,
    ensures
        clone_outcome(0x1200011, 0, 0, 0, ctid) == Ok::<ClonePlan, Errno>(
            ClonePlan { thread: false, tls: None, parent_tid: None, child_set_tid: Some(ctid), child_clear_tid: ctid },
        ),
{
    assert(0x1200011u64 & 0xff == 17) by (bit_vector);
    assert(0x1200011u64 & !0xffu64 == 0x1200000) by (bit_vector);
    assert(0x1200000u64 & !0x1384100u64 == 0) by (bit_vector);
    assert(0x1200000u64 & 0x100u64 == 0) by (bit_vector);
    assert(0x1200000u64 & 0x100000u64 == 0) by (bit_vector);
    assert(0x1200000u64 & (0x1000000u64 | 0x200000u64) != 0) by (bit_vector);
    assert(0x1200000u64 & 0x80000u64 == 0) by (bit_vector);
    assert(0x1200000u64 & 0x1000000u64 != 0) by (bit_vector);
    assert(0x1200000u64 & 0x200000u64 != 0) by (bit_vector);
}

// ----- resource limits -----

/// `RLIMIT_STACK`.
pub const RLIMIT_STACK: u32 = 3;
/// `RLIMIT_NOFILE`.
pub const RLIMIT_NOFILE: u32 = 7;
/// Limit on open descriptors when none is set.
pub const DEFAULT_NOFILE: u64 = 1024;
/// Size of the main thread's stack.
pub const STACK_LIMIT: u64 = 8 * 1024 * 1024;

/// A soft and a hard resource limit.
#[derive(Clone, Copy, Debug, PartialEq, Eq, Structural)]
pub struct UserRlimit {
    pub rlim_cur: u64,
    pub rlim_max: u64,
}

/// The limit a process has for `resource` until it sets one.
pub open spec fn default_rlimit_of(resource: u32) -> UserRlimit {
    if resource == RLIMIT_STACK {
        UserRlimit { rlim_cur: STACK_LIMIT, rlim_max: STACK_LIMIT }
    } else if resource == RLIMIT_NOFILE {
        UserRlimit { rlim_cur: DEFAULT_NOFILE, rlim_max: DEFAULT_NOFILE }
    } else {
        UserRlimit { rlim_cur: u64::MAX, rlim_max: u64::MAX }
    }
}

/// The limit a process has for `resource` until it sets one.
pub fn default_rlimit(resource: u32) -> (r: UserRlimit)
    ensures
        r == default_rlimit_of(resource),
{
    if resource == RLIMIT_STACK {
        UserRlimit { rlim_cur: STACK_LIMIT, rlim_max: STACK_LIMIT }
    } else if resource == RLIMIT_NOFILE {
        UserRlimit { rlim_cur: DEFAULT_NOFILE, rlim_max: DEFAULT_NOFILE }
    } else {
        UserRlimit { rlim_cur: u64::MAX, rlim_max: u64::MAX }
    }
}

/// The resource limits a process has set.
#[derive(Debug)]
pub struct RlimitTable {
    pub limits: BTreeMap<u32, UserRlimit>,
}

impl RlimitTable {
    /// The limit in force for `resource`: the one set, else the default.
    pub open spec fn limit_of(self, resource: u32) -> UserRlimit {
        if self.limits@.contains_key(resource) {
            self.limits@[resource]
        } else {
            default_rlimit_of(resource)
        }
    }

    /// A table in which no limit is set.
    pub fn new() -> (r: Self)
        ensures
            r.limits@ == Map::<u32, UserRlimit>::empty(),
    {
        RlimitTable { limits: BTreeMap::new() }
    }

    /// The limit in force for `resource`.
    pub fn get_rlimit(&self, resource: u32) -> (r: UserRlimit)
        ensures
            r == self.limit_of(resource),
    {
        match self.limits.get(&resource) {
            Some(l) => *l,
            None => default_rlimit(resource),
        }
    }

    /// Sets the limit for `resource`.
    pub fn set_rlimit(&mut self, resource: u32, limit: UserRlimit)
        ensures
            final(self).limits@ == old(self).limits@.insert(resource, limit),
    {
        self.limits.insert(resource, limit);
    }

    /// How many descriptors the process may have open: its soft
    /// `RLIMIT_NOFILE`, at most the default.
    pub fn nofile_limit(&self) -> (r: u64)
        ensures
            r == if self.limit_of(RLIMIT_NOFILE).rlim_cur < DEFAULT_NOFILE {
                self.limit_of(RLIMIT_NOFILE).rlim_cur
            } else {
                DEFAULT_NOFILE
            },
    {
        let cur = self.get_rlimit(RLIMIT_NOFILE).rlim_cur;
        if cur < DEFAULT_NOFILE {
            cur
        } else {
            DEFAULT_NOFILE
        }
    }
}

/// A limit that is set is the one read back; the others are unchanged.
pub proof fn rlimit_set_then_get(
    t0: RlimitTable,
    t1: RlimitTable,
    resource: u32,
    limit: UserRlimit,
    other: u32,
)
    requires
        t1.limits@ == t0.limits@.insert(resource, limit),
    ensures
        t1.limit_of(resource) == limit,
        other != resource ==> t1.limit_of(other) == t0.limit_of(other),
{
}

/// The exit code a parent reads from the status word (its second byte) is
/// the low byte of the code the child exited with.
pub proof fn wait_status_round_trip(code: i32)
    ensures
        ((code & 0xff) * 256) / 256 == code & 0xff,
        ((code & 0xff) * 256) % 256 == 0,
{
    assert(0 <= code & 0xff <= 0xff) by (bit_vector);
}

/// `prlimit64` acts only on the calling thread (`pid` 0 or its own id).
pub fn check_prlimit_target(pid: i32, current_tid: i32) -> (r: Result<(), Errno>)
    ensures
        r == if pid != 0 && pid != current_tid {
            Err::<(), Errno>(Errno::ESRCH)
        } else {
            Ok(())
        },
{
    if pid != 0 && pid != current_tid {
        Err(Errno::ESRCH)
    } else {
        Ok(())
    }
}

/// A new limit is refused when its soft part exceeds its hard part.
pub fn check_new_rlimit(limit: UserRlimit) -> (r: Result<(), Errno>)
    ensures
        r == if limit.rlim_cur > limit.rlim_max {
            Err::<(), Errno>(Errno::EINVAL)
        } else {
            Ok(())
        },
{
    if limit.rlim_cur > limit.rlim_max {
        Err(Errno::EINVAL)
    } else {
        Ok(())
    }
}

/// `RLIMIT_DATA`.
pub const RLIMIT_DATA: u32 = 2;

/// The resources the file layer's `getrlimit(resource, rlimits)` answers:
/// `RLIMIT_DATA`, `RLIMIT_STACK` and `RLIMIT_NOFILE`, others are `EINVAL`;
/// whether the limit is then written out (`false` for a null `rlimits`,
/// where the call succeeds and writes nothing).
pub fn getrlimit_check(resource: i32, rlimits_null: bool) -> (r: Result<bool, Errno>)
    ensures
        r == if resource != RLIMIT_DATA && resource != RLIMIT_STACK && resource != RLIMIT_NOFILE {
            Err::<bool, Errno>(Errno::EINVAL)
        } else {
            Ok(!rlimits_null)
        },
{
    if resource != RLIMIT_DATA as i32 && resource != RLIMIT_STACK as i32 && resource
        != RLIMIT_NOFILE as i32 {
        Err(Errno::EINVAL)
    } else {
        Ok(!rlimits_null)
    }
}

} // verus!
