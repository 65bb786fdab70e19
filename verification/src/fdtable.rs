use vstd::prelude::*;
use crate::errno::Errno;

verus! {

/// Largest number of descriptors a table can hold: every descriptor fits in
/// an `i32`.
pub const MAX_FDS: usize = 0x7fff_ffff;
/// Number of descriptors a new table allows.
pub const DEFAULT_NOFILE_LIMIT: usize = 1024;
/// The close-on-exec descriptor flag.
pub const FD_CLOEXEC: u32 = 1;
/// `O_CLOEXEC` as `dup3` takes it.
pub const O_CLOEXEC: u32 = 0o2000000;
/// `O_NONBLOCK` as `fcntl(F_GETFL)` reports it.
pub const O_NONBLOCK: u32 = 0o4000;
/// `fcntl` commands.
pub const F_DUPFD: u32 = 0;
pub const F_GETFD: u32 = 1;
pub const F_SETFD: u32 = 2;
pub const F_GETFL: u32 = 3;
pub const F_SETFL: u32 = 4;
pub const F_DUPFD_CLOEXEC: u32 = 1030;

/// A process's descriptor table: slot `fd` holds the open file of
/// descriptor `fd`, and `fd_flags[fd]` its close-on-exec flag.
#[derive(Debug)]
pub struct FdTable<E> {
    pub entries: Vec<Option<E>>,
    pub fd_flags: Vec<u32>,
    pub limit: usize,
}

/// `t1` is `t0` after putting `entry` in the lowest closed descriptor at or
/// above `min_fd` below the limit, with answer `r`; `EMFILE` and no change
/// when there is none.
pub open spec fn inserted<E>(t0: FdTable<E>, t1: FdTable<E>, entry: E, min_fd: int, r: Result<i32, Errno>) -> bool {
    match r {
        Ok(fd) => {
            &&& min_fd <= fd < t0.limit
            &&& t0.slot(fd as int) is None
            &&& forall|j: int| min_fd <= j < fd ==> #[trigger] t0.slot(j) is Some
            &&& t1.slot(fd as int) == Some(entry)
            &&& !t1.cloexec_at(fd as int)
            &&& t1.same_except(t0, fd as int)
        },
        Err(e) => {
            &&& e == Errno::EMFILE
            &&& forall|j: int| min_fd <= j < t0.limit ==> #[trigger] t0.slot(j) is Some
            &&& t1.same_except(t0, -1)
        },
    }
}

/// `t1` is `t0` after closing descriptor `fd`, with answer `r`: `EBADF` and
/// no change when it is not open.
pub open spec fn closed<E>(t0: FdTable<E>, t1: FdTable<E>, fd: int, r: Result<(), Errno>) -> bool {
    &&& (r is Err <==> t0.slot(fd) is None)
    &&& (r matches Err(e) ==> e == Errno::EBADF && t1.same_except(t0, -1))
    &&& (r is Ok ==> t1.slot(fd) is None && !t1.cloexec_at(fd) && t1.same_except(t0, fd))
}

/// Descriptors are handed out lowest first: once the lowest open descriptor
/// above a run of open ones is closed, the next one opened takes its number.
pub proof fn close_then_insert_reuses<E>(
    t0: FdTable<E>,
    t1: FdTable<E>,
    t2: FdTable<E>,
    fd: int,
    entry: E,
    r1: Result<(), Errno>,
    r2: Result<i32, Errno>,
)
    requires
        0 <= fd < t0.limit,
        t1.limit == t0.limit,
        forall|j: int| 0 <= j < fd ==> #[trigger] t0.slot(j) is Some,
        closed(t0, t1, fd, r1),
        r1 is Ok,
        inserted(t1, t2, entry, 0, r2),
    ensures
        r2 == Ok::<i32, Errno>(fd as i32),
        t2.slot(fd) == Some(entry),
{
    assert forall|j: int| 0 <= j < fd implies #[trigger] t1.slot(j) is Some by {
        assert(t1.slot(j) == t0.slot(j));
    }
    match r2 {
        Ok(n) => {
            if n < fd {
                assert(t1.slot(n as int) is Some);
            } else if n > fd {
                assert(t1.slot(fd) is Some);
            }
        },
        Err(_) => {
            assert(t1.slot(fd) is Some);
        },
    }
}

/// Writing slot `i` (and its flags) changes no other descriptor.
pub proof fn lemma_set_slot<E>(a: FdTable<E>, b: FdTable<E>, i: int)
    requires
        a.wf(),
        0 <= i < a.entries@.len(),
        b.entries@ == a.entries@.update(i, b.entries@[i]),
        b.fd_flags@ == a.fd_flags@.update(i, b.fd_flags@[i]),
        b.fd_flags@[i] == 0 || b.fd_flags@[i] == FD_CLOEXEC,
        b.entries@[i] is None ==> b.fd_flags@[i] == 0,
        b.limit == a.limit,
    ensures
        b.wf(),
        b.same_except(a, i),
        b.slot(i) == b.entries@[i],
        b.cloexec_at(i) == (b.fd_flags@[i] == FD_CLOEXEC),
{
    assert forall|j: int| j != i implies #[trigger] b.slot(j) == a.slot(j) && b.cloexec_at(j)
        == a.cloexec_at(j) by {}
    assert forall|k: int|
        0 <= k < b.fd_flags@.len() implies (#[trigger] b.fd_flags@[k] == 0 || b.fd_flags@[k]
            == FD_CLOEXEC) by {
        if k != i {
            assert(b.fd_flags@[k] == a.fd_flags@[k]);
        }
    }
    assert forall|k: int|
        0 <= k < b.entries@.len() && (#[trigger] b.entries@[k]) is None implies b.fd_flags@[k]
            == 0 by {
        if k != i {
            assert(b.entries@[k] == a.entries@[k]);
            assert(b.fd_flags@[k] == a.fd_flags@[k]);
        }
    }
}

/// Appending an open slot with clear flags changes no other descriptor.
pub proof fn lemma_push_slot<E>(a: FdTable<E>, b: FdTable<E>)
    requires
        a.wf(),
        a.entries@.len() < MAX_FDS,
        b.entries@ == a.entries@.push(b.entries@[a.entries@.len() as int]),
        b.fd_flags@ == a.fd_flags@.push(0),
        b.entries@[a.entries@.len() as int] is Some,
        b.limit == a.limit,
    ensures
        b.wf(),
        b.same_except(a, a.entries@.len() as int),
        b.slot(a.entries@.len() as int) == b.entries@[a.entries@.len() as int],
        !b.cloexec_at(a.entries@.len() as int),
{
    let n = a.entries@.len() as int;
    assert forall|j: int| j != n implies #[trigger] b.slot(j) == a.slot(j) && b.cloexec_at(j)
        == a.cloexec_at(j) by {}
    assert forall|k: int|
        0 <= k < b.fd_flags@.len() implies (#[trigger] b.fd_flags@[k] == 0 || b.fd_flags@[k]
            == FD_CLOEXEC) by {
        if k != n {
            assert(b.fd_flags@[k] == a.fd_flags@[k]);
        }
    }
    assert forall|k: int|
        0 <= k < b.entries@.len() && (#[trigger] b.entries@[k]) is None implies b.fd_flags@[k]
            == 0 by {
        if k != n {
            assert(b.entries@[k] == a.entries@[k]);
            assert(b.fd_flags@[k] == a.fd_flags@[k]);
        }
    }
}

impl<E> FdTable<E> {
    /// What descriptor `fd` refers to.
    pub open spec fn slot(self, fd: int) -> Option<E> {
        if 0 <= fd < self.entries@.len() {
            self.entries@[fd]
        } else {
            None
        }
    }

    /// Whether descriptor `fd` is closed when the process executes a program.
    pub open spec fn cloexec_at(self, fd: int) -> bool {
        0 <= fd < self.fd_flags@.len() && self.fd_flags@[fd] == FD_CLOEXEC
    }

    /// The table's invariant.
    pub open spec fn wf(self) -> bool {
        &&& self.entries@.len() == self.fd_flags@.len()
        &&& self.entries@.len() <= MAX_FDS
        &&& self.limit <= MAX_FDS
        &&& forall|i: int|
            0 <= i < self.fd_flags@.len() ==> (#[trigger] self.fd_flags@[i] == 0
                || self.fd_flags@[i] == FD_CLOEXEC)
        &&& forall|i: int|
            0 <= i < self.entries@.len() && (#[trigger] self.entries@[i]) is None
                ==> self.fd_flags@[i] == 0
    }

    /// `self` and `other` agree on every descriptor but `fd`.
    pub open spec fn same_except(self, other: Self, fd: int) -> bool {
        forall|j: int|
            j != fd ==> #[trigger] self.slot(j) == other.slot(j) && self.cloexec_at(j)
                == other.cloexec_at(j)
    }

    /// A table whose first three descriptors hold standard input, output and
    /// error.
    pub fn new(stdin: E, stdout: E, stderr: E) -> (r: Self)
        ensures
            r.wf(),
            r.limit == DEFAULT_NOFILE_LIMIT,
            r.slot(0) == Some(stdin),
            r.slot(1) == Some(stdout),
            r.slot(2) == Some(stderr),
            forall|j: int| j < 0 || j > 2 ==> #[trigger] r.slot(j) is None,
            forall|j: int| !(#[trigger] r.cloexec_at(j)),
    {
        let mut entries: Vec<Option<E>> = Vec::new();
        entries.push(Some(stdin));
        entries.push(Some(stdout));
        entries.push(Some(stderr));
        let mut fd_flags: Vec<u32> = Vec::new();
        fd_flags.push(0);
        fd_flags.push(0);
        fd_flags.push(0);
        FdTable { entries, fd_flags, limit: DEFAULT_NOFILE_LIMIT }
    }

    /// Changes the number of descriptors the table allows.
    pub fn set_limit(&mut self, limit: usize)
        requires
            old(self).wf(),
            limit <= MAX_FDS,
        ensures
            final(self).wf(),
            final(self).limit == limit,
            final(self).entries@ == old(self).entries@,
            final(self).fd_flags@ == old(self).fd_flags@,
    {
        self.limit = limit;
    }

    /// Whether `fd` is a standard stream.
    pub fn is_stdio(&self, fd: i32) -> (r: bool)
        ensures
            r == (0 <= fd <= 2),
    {
        0 <= fd && fd <= 2
    }

    /// The open file of descriptor `fd`, or `EBADF`.
    pub fn entry(&self, fd: i32) -> (r: Result<&E, Errno>)
        ensures
            match self.slot(fd as int) {
                Some(e) => r == Ok::<&E, Errno>(&e),
                None => r == Err::<&E, Errno>(Errno::EBADF),
            },
    {
        if fd < 0 {
            return Err(Errno::EBADF);
        }
        let i = fd as usize;
        if i >= self.entries.len() {
            return Err(Errno::EBADF);
        }
        match &self.entries[i] {
            Some(e) => Ok(e),
            None => Err(Errno::EBADF),
        }
    }

    /// Puts `entry` in place of what the open descriptor `fd` refers to, and
    /// hands that back; `EBADF` and no change when `fd` is not open.
    pub fn replace_entry(&mut self, fd: i32, entry: E) -> (r: Result<E, Errno>)
        requires
            old(self).wf(),
        ensures
            final(self).wf(),
            final(self).limit == old(self).limit,
            match old(self).slot(fd as int) {
                Some(prev) => {
                    &&& r == Ok::<E, Errno>(prev)
                    &&& final(self).slot(fd as int) == Some(entry)
                    &&& final(self).cloexec_at(fd as int) == old(self).cloexec_at(fd as int)
                    &&& final(self).same_except(*old(self), fd as int)
                },
                None => {
                    &&& r == Err::<E, Errno>(Errno::EBADF)
                    &&& final(self).entries@ == old(self).entries@
                    &&& final(self).fd_flags@ == old(self).fd_flags@
                },
            },
    {
        if fd < 0 || fd as usize >= self.entries.len() {
            return Err(Errno::EBADF);
        }
        let i = fd as usize;
        if self.entries[i].is_none() {
            return Err(Errno::EBADF);
        }
        let ghost before = *self;
        let prev = self.entries.remove(i);
        self.entries.insert(i, Some(entry));
        proof {
            assert(self.entries@ =~= before.entries@.update(i as int, Some(entry)));
            assert(self.fd_flags@ =~= before.fd_flags@.update(i as int, self.fd_flags@[i as int]));
            lemma_set_slot(before, *self, i as int);
        }
        Ok(prev.unwrap())
    }

    /// Extends the table with closed slots until it has `len` of them.
    fn grow_to(&mut self, len: usize)
        requires
            old(self).wf(),
            len <= MAX_FDS,
        ensures
            final(self).wf(),
            final(self).limit == old(self).limit,
            final(self).entries@.len() == if len > old(self).entries@.len() {
                len as int
            } else {
                old(self).entries@.len() as int
            },
            forall|j: int| #[trigger] final(self).slot(j) == old(self).slot(j),
            forall|j: int| #[trigger] final(self).cloexec_at(j) == old(self).cloexec_at(j),
            forall|j: int|
                0 <= j < old(self).entries@.len() ==> #[trigger] final(self).entries@[j] == old(
                    self,
                ).entries@[j],
    {
        while self.entries.len() < len
            invariant
                self.wf(),
                self.limit == old(self).limit,
                len <= MAX_FDS,
                old(self).entries@.len() <= self.entries@.len(),
                self.entries@.len() <= len || self.entries@.len() == old(self).entries@.len(),
                forall|j: int| #[trigger] self.slot(j) == old(self).slot(j),
                forall|j: int| #[trigger] self.cloexec_at(j) == old(self).cloexec_at(j),
                forall|j: int|
                    0 <= j < old(self).entries@.len() ==> #[trigger] self.entries@[j] == old(
                        self,
                    ).entries@[j],
            decreases len - self.entries@.len(),
        {
            let ghost before = *self;
            self.entries.push(None);
            self.fd_flags.push(0);
            assert forall|j: int| #[trigger] self.slot(j) == before.slot(j) by {
                if j == before.entries@.len() {
                }
            }
            assert forall|j: int| #[trigger] self.cloexec_at(j) == before.cloexec_at(j) by {
                if j == before.fd_flags@.len() {
                }
            }
            assert forall|j: int|
                0 <= j < old(self).entries@.len() implies #[trigger] self.entries@[j] == old(
                    self,
                ).entries@[j] by {
                assert(self.entries@[j] == before.entries@[j]);
            }
            assert forall|i: int|
                0 <= i < self.fd_flags@.len() implies (#[trigger] self.fd_flags@[i] == 0
                    || self.fd_flags@[i] == FD_CLOEXEC) by {
                if i < before.fd_flags@.len() {
                    assert(self.fd_flags@[i] == before.fd_flags@[i]);
                }
            }
            assert forall|i: int|
                0 <= i < self.entries@.len() && (#[trigger] self.entries@[i]) is None
                    implies self.fd_flags@[i] == 0 by {
                if i < before.entries@.len() {
                    assert(self.entries@[i] == before.entries@[i]);
                    assert(self.fd_flags@[i] == before.fd_flags@[i]);
                }
            }
        }
    }

    /// Puts `entry` in the lowest closed descriptor at or above `min_fd`
    /// below the limit, or fails with `EMFILE` when there is none.
    pub fn insert_min(&mut self, entry: E, min_fd: usize) -> (r: Result<i32, Errno>)
        requires
            old(self).wf(),
        ensures
            final(self).wf(),
            final(self).limit == old(self).limit,
            inserted(*old(self), *final(self), entry, min_fd as int, r),
    {
        if min_fd >= self.limit {
            return Err(Errno::EMFILE);
        }
        self.grow_to(min_fd);
        let ghost g = *self;
        let mut i: usize = min_fd;
        while i < self.entries.len() && i < self.limit
            invariant
                self.wf(),
                *self == g,
                self.limit == old(self).limit,
                min_fd <= i,
                i <= self.entries@.len() || i == min_fd,
                self.entries@.len() >= min_fd,
                forall|j: int| min_fd <= j < i ==> #[trigger] old(self).slot(j) is Some,
                forall|j: int| #[trigger] self.slot(j) == old(self).slot(j),
                forall|j: int| #[trigger] self.cloexec_at(j) == old(self).cloexec_at(j),
            decreases self.entries@.len() - i,
        {
            if self.entries[i].is_none() {
                let ghost before = *self;
                self.entries.set(i, Some(entry));
                self.fd_flags.set(i, 0);
                proof {
                    lemma_set_slot(before, *self, i as int);
                    assert(old(self).slot(i as int) is None) by {
                        assert(before.slot(i as int) is None);
                    }
                    assert forall|j: int| j != i implies #[trigger] self.slot(j) == old(self).slot(
                        j,
                    ) && self.cloexec_at(j) == old(self).cloexec_at(j) by {
                        assert(self.slot(j) == before.slot(j));
                        assert(self.cloexec_at(j) == before.cloexec_at(j));
                    }
                }
                return Ok(i as i32);
            }
            assert(old(self).slot(i as int) is Some) by {
                assert(self.slot(i as int) is Some);
            }
            i = i + 1;
        }
        if self.entries.len() >= self.limit {
            return Err(Errno::EMFILE);
        }
        let ghost before = *self;
        self.entries.push(Some(entry));
        self.fd_flags.push(0);
        let fd = self.entries.len() - 1;
        proof {
            lemma_push_slot(before, *self);
            assert forall|j: int| j != fd implies #[trigger] self.slot(j) == old(self).slot(j)
                && self.cloexec_at(j) == old(self).cloexec_at(j) by {
                assert(self.slot(j) == before.slot(j));
                assert(self.cloexec_at(j) == before.cloexec_at(j));
            }
            assert forall|j: int| min_fd <= j < fd implies #[trigger] old(self).slot(j) is Some by {
                assert(before.slot(j) == old(self).slot(j));
            }
            assert(old(self).slot(fd as int) is None) by {
                assert(before.slot(fd as int) is None);
            }
        }
        Ok(fd as i32)
    }

    /// Puts `entry` in the lowest closed descriptor below the limit.
    pub fn insert(&mut self, entry: E) -> (r: Result<i32, Errno>)
        requires
            old(self).wf(),
        ensures
            final(self).wf(),
            final(self).limit == old(self).limit,
            inserted(*old(self), *final(self), entry, 0, r),
    {
        self.insert_min(entry, 0)
    }

    /// Closes descriptor `fd`, or fails with `EBADF` when it is not open.
    pub fn close(&mut self, fd: i32) -> (r: Result<(), Errno>)
        requires
            old(self).wf(),
        ensures
            final(self).wf(),
            final(self).limit == old(self).limit,
            closed(*old(self), *final(self), fd as int, r),
    {
        if fd < 0 || fd as usize >= self.entries.len() {
            return Err(Errno::EBADF);
        }
        let i = fd as usize;
        if self.entries[i].is_none() {
            return Err(Errno::EBADF);
        }
        let ghost before = *self;
        self.entries.set(i, None);
        self.fd_flags.set(i, 0);
        proof {
            lemma_set_slot(before, *self, i as int);
        }
        Ok(())
    }

    /// Closes every descriptor marked close-on-exec.
    pub fn close_on_exec(&mut self)
        requires
            old(self).wf(),
        ensures
            final(self).wf(),
            final(self).limit == old(self).limit,
            forall|j: int|
                #[trigger] final(self).slot(j) == if old(self).cloexec_at(j) {
                    None
                } else {
                    old(self).slot(j)
                },
            forall|j: int| !(#[trigger] final(self).cloexec_at(j)),
    {
        let mut i: usize = 0;
        while i < self.entries.len()
            invariant
                self.wf(),
                self.limit == old(self).limit,
                self.entries@.len() == old(self).entries@.len(),
                i <= self.entries@.len(),
                forall|j: int|
                    0 <= j < i ==> #[trigger] self.slot(j) == if old(self).cloexec_at(j) {
                        None
                    } else {
                        old(self).slot(j)
                    },
                forall|j: int| 0 <= j < i ==> !(#[trigger] self.cloexec_at(j)),
                forall|j: int| i <= j ==> #[trigger] self.slot(j) == old(self).slot(j),
                forall|j: int| i <= j ==> #[trigger] self.cloexec_at(j) == old(self).cloexec_at(j),
            decreases self.entries@.len() - i,
        {
            if self.fd_flags[i] & FD_CLOEXEC != 0 {
                assert(self.fd_flags@[i as int] == FD_CLOEXEC) by {
                    let f = self.fd_flags@[i as int];
                    assert(f == 0 || f == 1);
                    assert(0u32 & 1u32 == 0) by (bit_vector);
                }
                let ghost before = *self;
                self.entries.set(i, None);
                self.fd_flags.set(i, 0);
                proof {
                    lemma_set_slot(before, *self, i as int);
                    assert(old(self).cloexec_at(i as int) == before.cloexec_at(i as int));
                    assert forall|j: int| 0 <= j < i + 1 implies #[trigger] self.slot(j) == if old(
                        self,
                    ).cloexec_at(j) {
                        None
                    } else {
                        old(self).slot(j)
                    } by {
                        if j < i {
                            assert(self.slot(j) == before.slot(j));
                        }
                    }
                    assert forall|j: int| 0 <= j < i + 1 implies !(#[trigger] self.cloexec_at(j)) by {
                        if j < i {
                            assert(self.cloexec_at(j) == before.cloexec_at(j));
                        }
                    }
                    assert forall|j: int| i + 1 <= j implies #[trigger] self.slot(j) == old(
                        self,
                    ).slot(j) by {
                        assert(self.slot(j) == before.slot(j));
                    }
                    assert forall|j: int| i + 1 <= j implies #[trigger] self.cloexec_at(j) == old(
                        self,
                    ).cloexec_at(j) by {
                        assert(self.cloexec_at(j) == before.cloexec_at(j));
                    }
                }
            } else {
                assert(self.fd_flags@[i as int] == 0) by {
                    let f = self.fd_flags@[i as int];
                    assert(f == 0 || f == 1);
                    assert(1u32 & 1u32 == 1) by (bit_vector);
                }
                assert(!old(self).cloexec_at(i as int)) by {
                    assert(self.cloexec_at(i as int) == old(self).cloexec_at(i as int));
                }
            }
            i = i + 1;
        }
    }

    /// Sets the close-on-exec flag of descriptor `fd` from `flags`.
    pub fn set_fd_flags(&mut self, fd: i32, flags: u32) -> (r: Result<(), Errno>)
        requires
            old(self).wf(),
        ensures
            final(self).wf(),
            final(self).limit == old(self).limit,
            r is Err <==> old(self).slot(fd as int) is None,
            r matches Err(e) ==> e == Errno::EBADF && final(self).same_except(*old(self), -1),
            r is Ok ==> final(self).slot(fd as int) == old(self).slot(fd as int)
                && final(self).cloexec_at(fd as int) == (flags & FD_CLOEXEC != 0)
                && final(self).same_except(*old(self), fd as int),
    {
        if fd < 0 || fd as usize >= self.entries.len() {
            return Err(Errno::EBADF);
        }
        let i = fd as usize;
        if self.entries[i].is_none() {
            return Err(Errno::EBADF);
        }
        let v = flags & FD_CLOEXEC;
        assert(v == 0 || v == 1) by (bit_vector)
            requires
                v == flags & 1u32,
        ;
        let ghost before = *self;
        self.fd_flags.set(i, v);
        proof {
            assert(self.entries@ == before.entries@.update(i as int, self.entries@[i as int]));
            assert(before.entries@[i as int] is Some);
            lemma_set_slot(before, *self, i as int);
            assert(0u32 & 1u32 == 0 && 1u32 & 1u32 == 1) by (bit_vector);
        }
        Ok(())
    }

    /// The descriptor flags of `fd`: `FD_CLOEXEC` or 0.
    pub fn fd_flags(&self, fd: i32) -> (r: Result<u32, Errno>)
        requires
            self.wf(),
        ensures
            match self.slot(fd as int) {
                Some(_) => r == Ok::<u32, Errno>(
                    if self.cloexec_at(fd as int) {
                        FD_CLOEXEC
                    } else {
                        0
                    },
                ),
                None => r == Err::<u32, Errno>(Errno::EBADF),
            },
    {
        if fd < 0 || fd as usize >= self.entries.len() {
            return Err(Errno::EBADF);
        }
        let i = fd as usize;
        if self.entries[i].is_none() {
            return Err(Errno::EBADF);
        }
        Ok(self.fd_flags[i])
    }
}


impl<E> FdTable<E> {
    /// Puts `a` and `b` in the two lowest closed descriptors (the lower one
    /// for `a`), both close-on-exec when `cloexec` is set, as `pipe2` and
    /// `socketpair` do; `EMFILE` and no change when fewer than two are free.
    pub fn insert_pair(&mut self, a: E, b: E, cloexec: bool) -> (r: Result<(i32, i32), Errno>)
        requires
            old(self).wf(),
        ensures
            final(self).wf(),
            final(self).limit == old(self).limit,
            match r {
                Ok((fa, fb)) => {
                    &&& 0 <= fa < fb < old(self).limit
                    &&& old(self).slot(fa as int) is None
                    &&& old(self).slot(fb as int) is None
                    &&& forall|j: int| 0 <= j < fb && j != fa ==> #[trigger] old(self).slot(j) is Some
                    &&& final(self).slot(fa as int) == Some(a)
                    &&& final(self).slot(fb as int) == Some(b)
                    &&& final(self).cloexec_at(fa as int) == cloexec
                    &&& final(self).cloexec_at(fb as int) == cloexec
                    &&& forall|j: int|
                        j != fa && j != fb ==> #[trigger] final(self).slot(j) == old(self).slot(j)
                            && final(self).cloexec_at(j) == old(self).cloexec_at(j)
                },
                Err(e) => {
                    &&& e == Errno::EMFILE
                    &&& forall|j: int, k: int|
                        0 <= j < k < old(self).limit ==> #[trigger] old(self).slot(j) is Some
                            || #[trigger] old(self).slot(k) is Some
                    &&& final(self).same_except(*old(self), -1)
                },
            },
    {
        let ghost t0 = *self;
        let fa = match self.insert(a) {
            Ok(fd) => fd,
            Err(e) => {
                assert forall|j: int, k: int|
                    0 <= j < k < t0.limit implies #[trigger] t0.slot(j) is Some
                        || #[trigger] t0.slot(k) is Some by {}
                return Err(e);
            },
        };
        let ghost t1 = *self;
        let fb = match self.insert(b) {
            Ok(fd) => fd,
            Err(e) => {
                let c = self.close(fa);
                assert(c is Ok);
                proof {
                    assert forall|j: int, k: int|
                        0 <= j < k < t0.limit implies #[trigger] t0.slot(j) is Some
                            || #[trigger] t0.slot(k) is Some by {
                        if j != fa && k != fa {
                            assert(t1.slot(k) is Some);
                        } else if j == fa {
                            assert(t1.slot(k) is Some);
                        } else {
                            assert(t1.slot(j) is Some);
                        }
                    }
                    assert forall|j: int| j != -1 implies #[trigger] self.slot(j) == t0.slot(j)
                        && self.cloexec_at(j) == t0.cloexec_at(j) by {
                        if j != fa {
                        } else {
                            assert(t0.slot(j) is None);
                            assert(!t0.cloexec_at(j)) by {
                                if 0 <= j < t0.fd_flags@.len() {
                                    assert(t0.entries@[j] is None);
                                }
                            }
                        }
                    }
                }
                return Err(e);
            },
        };
        proof {
            assert(fb > fa) by {
                if fb < fa {
                    assert(t0.slot(fb as int) is Some);
                }
            }
        }
        if cloexec {
            let r1 = self.set_fd_flags(fa, FD_CLOEXEC);
            let r2 = self.set_fd_flags(fb, FD_CLOEXEC);
            assert(r1 is Ok && r2 is Ok);
            assert(1u32 & 1u32 != 0) by (bit_vector);
        }
        proof {
            assert forall|j: int| 0 <= j < fb && j != fa implies #[trigger] t0.slot(j) is Some by {
                assert(t1.slot(j) is Some);
            }
        }
        Ok((fa, fb))
    }
}

impl<E: Clone> FdTable<E> {
    /// A copy of the open file of descriptor `fd`, or `EBADF`.
    fn duplicate_entry(&self, fd: i32) -> (r: Result<E, Errno>)
        ensures
            match self.slot(fd as int) {
                Some(e) => r matches Ok(c) && cloned(e, c),
                None => r == Err::<E, Errno>(Errno::EBADF),
            },
    {
        if fd < 0 || fd as usize >= self.entries.len() {
            return Err(Errno::EBADF);
        }
        match &self.entries[fd as usize] {
            Some(e) => Ok(e.clone()),
            None => Err(Errno::EBADF),
        }
    }

    /// `dup3`: makes `newfd` refer to the open file of `oldfd`, closing what
    /// `newfd` referred to; `O_CLOEXEC` in `flags` marks it close-on-exec.
    pub fn dup3(&mut self, oldfd: i32, newfd: i32, flags: u32, nofile_limit: usize) -> (r: Result<
        i32,
        Errno,
    >)
        requires
            old(self).wf(),
        ensures
            final(self).wf(),
            final(self).limit == old(self).limit,
            oldfd == newfd ==> r == Err::<i32, Errno>(Errno::EINVAL),
            oldfd != newfd && old(self).slot(oldfd as int) is None ==> r == Err::<i32, Errno>(
                Errno::EBADF,
            ),
            oldfd != newfd && old(self).slot(oldfd as int) is Some && (newfd < 0 || newfd
                >= old(self).limit || newfd >= nofile_limit) ==> r == Err::<i32, Errno>(
                Errno::EBADF,
            ),
            r is Err ==> final(self).same_except(*old(self), -1),
            r matches Ok(fd) ==> {
                &&& fd == newfd
                &&& oldfd != newfd
                &&& 0 <= newfd < old(self).limit
                &&& newfd < nofile_limit
                &&& old(self).slot(oldfd as int) is Some
                &&& final(self).slot(newfd as int) matches Some(e) && cloned(
                    old(self).slot(oldfd as int)->0,
                    e,
                )
                &&& final(self).cloexec_at(newfd as int) == (flags & O_CLOEXEC != 0)
                &&& final(self).same_except(*old(self), newfd as int)
            },
    {
        if oldfd == newfd {
            return Err(Errno::EINVAL);
        }
        let entry = match self.duplicate_entry(oldfd) {
            Ok(e) => e,
            Err(e) => return Err(e),
        };
        if newfd < 0 || newfd as usize >= self.limit || newfd as usize >= nofile_limit {
            return Err(Errno::EBADF);
        }
        let i = newfd as usize;
        self.grow_to(i + 1);
        let ghost before = *self;
        let v: u32 = if flags & O_CLOEXEC != 0 {
            FD_CLOEXEC
        } else {
            0
        };
        self.entries.set(i, Some(entry));
        self.fd_flags.set(i, v);
        proof {
            lemma_set_slot(before, *self, i as int);
            assert forall|j: int| j != i implies #[trigger] self.slot(j) == old(self).slot(j)
                && self.cloexec_at(j) == old(self).cloexec_at(j) by {
                assert(self.slot(j) == before.slot(j));
                assert(self.cloexec_at(j) == before.cloexec_at(j));
            }
        }
        Ok(newfd)
    }

    /// Duplicates `fd` into the lowest closed descriptor at or above
    /// `min_fd`, with the close-on-exec flag taken from `flags`.
    pub fn dup_min_with_flags(&mut self, fd: i32, min_fd: i32, flags: u32) -> (r: Result<
        i32,
        Errno,
    >)
        requires
            old(self).wf(),
        ensures
            final(self).wf(),
            final(self).limit == old(self).limit,
            min_fd < 0 ==> r == Err::<i32, Errno>(Errno::EINVAL),
            min_fd >= 0 && old(self).slot(fd as int) is None ==> r == Err::<i32, Errno>(
                Errno::EBADF,
            ),
            min_fd >= 0 && old(self).slot(fd as int) is Some && (forall|j: int|
                min_fd <= j < old(self).limit ==> #[trigger] old(self).slot(j) is Some) ==> r
                == Err::<i32, Errno>(Errno::EMFILE),
            r is Err ==> final(self).same_except(*old(self), -1),
            r matches Ok(nfd) ==> {
                &&& min_fd <= nfd < old(self).limit
                &&& old(self).slot(nfd as int) is None
                &&& forall|j: int| min_fd <= j < nfd ==> #[trigger] old(self).slot(j) is Some
                &&& old(self).slot(fd as int) is Some
                &&& final(self).slot(nfd as int) matches Some(e) && cloned(
                    old(self).slot(fd as int)->0,
                    e,
                )
                &&& final(self).cloexec_at(nfd as int) == (flags & FD_CLOEXEC != 0)
                &&& final(self).same_except(*old(self), nfd as int)
            },
    {
        if min_fd < 0 {
            return Err(Errno::EINVAL);
        }
        let entry = match self.duplicate_entry(fd) {
            Ok(e) => e,
            Err(e) => return Err(e),
        };
        let ghost e0 = entry;
        let newfd = match self.insert_min(entry, min_fd as usize) {
            Ok(n) => n,
            Err(e) => return Err(e),
        };
        let ghost mid = *self;
        let res = self.set_fd_flags(newfd, flags);
        assert(res is Ok);
        proof {
            assert forall|j: int| j != newfd implies #[trigger] self.slot(j) == old(self).slot(j)
                && self.cloexec_at(j) == old(self).cloexec_at(j) by {
                assert(self.slot(j) == mid.slot(j));
                assert(self.cloexec_at(j) == mid.cloexec_at(j));
            }
        }
        Ok(newfd)
    }

    /// Duplicates `fd` into the lowest closed descriptor.
    pub fn dup(&mut self, fd: i32) -> (r: Result<i32, Errno>)
        requires
            old(self).wf(),
        ensures
            final(self).wf(),
            final(self).limit == old(self).limit,
            old(self).slot(fd as int) is None ==> r == Err::<i32, Errno>(Errno::EBADF),
            old(self).slot(fd as int) is Some && (forall|j: int|
                0 <= j < old(self).limit ==> #[trigger] old(self).slot(j) is Some) ==> r
                == Err::<i32, Errno>(Errno::EMFILE),
            r is Err ==> final(self).same_except(*old(self), -1),
            r matches Ok(nfd) ==> {
                &&& 0 <= nfd < old(self).limit
                &&& old(self).slot(nfd as int) is None
                &&& forall|j: int| 0 <= j < nfd ==> #[trigger] old(self).slot(j) is Some
                &&& final(self).slot(nfd as int) matches Some(e) && cloned(
                    old(self).slot(fd as int)->0,
                    e,
                )
                &&& !final(self).cloexec_at(nfd as int)
                &&& final(self).same_except(*old(self), nfd as int)
            },
    {
        let r = self.dup_min_with_flags(fd, 0, 0);
        assert(0u32 & 1u32 == 0) by (bit_vector);
        r
    }

    /// `fcntl`: duplicates `fd` for `F_DUPFD` and `F_DUPFD_CLOEXEC`; reports
    /// the flags of the open file (`cloexec` and `nonblock`, as its kind keeps
    /// them) for `F_GETFD` and `F_GETFL`; accepts every other command as a
    /// no-op. A closed `fd` fails with `EBADF`.
    pub fn fcntl(&mut self, fd: i32, cmd: u32, arg: i32, cloexec: bool, nonblock: bool) -> (r:
        Result<i32, Errno>)
        requires
            old(self).wf(),
        ensures
            final(self).wf(),
            final(self).limit == old(self).limit,
            old(self).slot(fd as int) is None ==> r == Err::<i32, Errno>(Errno::EBADF),
            old(self).slot(fd as int) is Some && cmd != F_DUPFD && cmd != F_DUPFD_CLOEXEC ==> {
                &&& final(self).same_except(*old(self), -1)
                &&& r == Ok::<i32, Errno>(
                    if cmd == F_GETFD && cloexec {
                        1
                    } else if cmd == F_GETFL && nonblock {
                        0o4000
                    } else {
                        0
                    },
                )
            },
            old(self).slot(fd as int) is Some && (cmd == F_DUPFD || cmd == F_DUPFD_CLOEXEC) ==> {
                &&& arg < 0 ==> r == Err::<i32, Errno>(Errno::EINVAL)
                &&& arg >= 0 && (forall|j: int|
                    arg <= j < old(self).limit ==> #[trigger] old(self).slot(j) is Some) ==> r
                    == Err::<i32, Errno>(Errno::EMFILE)
                &&& r is Err ==> final(self).same_except(*old(self), -1)
                &&& r matches Ok(nfd) ==> {
                    &&& arg <= nfd < old(self).limit
                    &&& old(self).slot(nfd as int) is None
                    &&& forall|j: int| arg <= j < nfd ==> #[trigger] old(self).slot(j) is Some
                    &&& final(self).slot(nfd as int) matches Some(e) && cloned(
                        old(self).slot(fd as int)->0,
                        e,
                    )
                    &&& final(self).cloexec_at(nfd as int) == (cmd == F_DUPFD_CLOEXEC)
                    &&& final(self).same_except(*old(self), nfd as int)
                }
            },
    {
        match self.entry(fd) {
            Ok(_) => {},
            Err(e) => return Err(e),
        }
        if cmd == F_DUPFD || cmd == F_DUPFD_CLOEXEC {
            let flags: u32 = if cmd == F_DUPFD_CLOEXEC {
                FD_CLOEXEC
            } else {
                0
            };
            assert(1u32 & 1u32 == 1 && 0u32 & 1u32 == 0) by (bit_vector);
            return self.dup_min_with_flags(fd, arg, flags);
        }
        if cmd == F_GETFD {
            return Ok(if cloexec { 1 } else { 0 });
        }
        if cmd == F_GETFL {
            return Ok(if nonblock { 0o4000 } else { 0 });
        }
        Ok(0)
    }
}

} // verus!
