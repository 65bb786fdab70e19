use vstd::prelude::*;
use std::collections::BTreeMap;
use crate::errno::Errno;

verus! {

/// The key that always creates a new segment.
pub const IPC_PRIVATE: i32 = 0;
/// `shmget` flags.
pub const IPC_CREAT: i32 = 0o1000;
pub const IPC_EXCL: i32 = 0o2000;
/// `shmctl` commands.
pub const IPC_RMID: i32 = 0;
pub const IPC_SET: i32 = 1;
pub const IPC_STAT: i32 = 2;
/// Mode bit reported for a segment marked for removal.
pub const SHM_DEST: u32 = 0o1000;
/// Largest segment id handed out.
pub const MAX_SHMID: i32 = 0x7fff_ffff;

/// A System V shared memory segment.
#[derive(Clone, Copy, Debug, PartialEq, Eq, Structural)]
pub struct SharedMemSegment {
    pub key: i32,
    pub mode: u32,
    pub size: u64,
    pub map_size: u64,
    pub start_vaddr: u64,
    pub num_pages: u64,
    pub cpid: i32,
    pub lpid: i32,
    pub nattch: u64,
    pub atime: i64,
    pub dtime: i64,
    pub ctime: i64,
    pub seq: u32,
    pub marked_destroy: bool,
}

/// All shared memory segments, by id, and the ids of the keyed ones.
#[derive(Debug)]
pub struct SharedMemState {
    pub next_id: i32,
    pub next_seq: u32,
    pub segments: BTreeMap<i32, SharedMemSegment>,
    pub key_map: BTreeMap<i32, i32>,
}

/// What `shmget` must do.
#[derive(Clone, Copy, Debug, PartialEq, Eq, Structural)]
pub enum ShmGet {
    /// Return this existing segment.
    Existing(i32),
    /// Allocate a new segment.
    Create,
}

/// What `shmget(key, size, flags)` does when `existing` is the segment
/// (id and size) that `key` names: an existing segment is returned unless
/// `IPC_CREAT | IPC_EXCL` asks for a new one (`EEXIST`) or a larger size is
/// asked (`EINVAL`); without one, only `IPC_CREAT` or the private key create
/// (`ENOENT` otherwise), and never with size 0 (`EINVAL`).
pub open spec fn shmget_plan_of(existing: Option<(i32, u64)>, key: i32, size: u64, flags: i32) -> Result<ShmGet, Errno> {
    let create = flags & IPC_CREAT != 0;
    let excl = flags & IPC_EXCL != 0;
    match existing {
        Some((id, existing_size)) => if create && excl {
            Err(Errno::EEXIST)
        } else if size != 0 && size > existing_size {
            Err(Errno::EINVAL)
        } else {
            Ok(ShmGet::Existing(id))
        },
        None => if !create && key != IPC_PRIVATE {
            Err(Errno::ENOENT)
        } else if size == 0 {
            Err(Errno::EINVAL)
        } else {
            Ok(ShmGet::Create)
        },
    }
}

/// Decides what `shmget` does.
pub fn shmget_plan(existing: Option<(i32, u64)>, key: i32, size: u64, flags: i32) -> (r: Result<ShmGet, Errno>)
    ensures
        r == shmget_plan_of(existing, key, size, flags),
        existing is None && key == IPC_PRIVATE && size > 0 ==> r == Ok::<ShmGet, Errno>(ShmGet::Create),
        existing is None && flags & IPC_CREAT != 0 && size > 0 ==> r == Ok::<ShmGet, Errno>(ShmGet::Create),
{
    let create = flags & IPC_CREAT != 0;
    let excl = flags & IPC_EXCL != 0;
    match existing {
        Some((id, existing_size)) => if create && excl {
            Err(Errno::EEXIST)
        } else if size != 0 && size > existing_size {
            Err(Errno::EINVAL)
        } else {
            Ok(ShmGet::Existing(id))
        },
        None => if !create && key != IPC_PRIVATE {
            Err(Errno::ENOENT)
        } else if size == 0 {
            Err(Errno::EINVAL)
        } else {
            Ok(ShmGet::Create)
        },
    }
}

/// `shmget` without a segment under the key: the private key always creates
/// one, whatever `IPC_CREAT` says, as does any key with `IPC_CREAT`, unless
/// the size is 0 (`EINVAL`); any other key is `ENOENT`. With a segment under
/// the key: it is returned when neither `IPC_CREAT | IPC_EXCL` nor a larger
/// size is asked for, and never is a new one created.
pub proof fn shmget_creates_when_asked(id: i32, existing_size: u64, key: i32, size: u64, flags: i32)
    ensures
        key == IPC_PRIVATE && size > 0 ==> shmget_plan_of(None, key, size, flags) == Ok::<ShmGet, Errno>(
            ShmGet::Create,
        ),
        flags & IPC_CREAT != 0 && size > 0 ==> shmget_plan_of(None, key, size, flags) == Ok::<ShmGet, Errno>(
            ShmGet::Create,
        ),
        shmget_plan_of(None, key, size, flags) is Ok ==> size > 0,
        key != IPC_PRIVATE && flags & IPC_CREAT == 0 ==> shmget_plan_of(None, key, size, flags)
            == Err::<ShmGet, Errno>(Errno::ENOENT),
        !(flags & IPC_CREAT != 0 && flags & IPC_EXCL != 0) && size <= existing_size ==> shmget_plan_of(
            Some((id, existing_size)),
            key,
            size,
            flags,
        ) == Ok::<ShmGet, Errno>(ShmGet::Existing(id)),
        shmget_plan_of(Some((id, existing_size)), key, size, flags) != Ok::<ShmGet, Errno>(ShmGet::Create),
{
}

/// Number of pages a segment of `size` bytes takes (at least one).
pub fn shm_pages(size: u64) -> (r: u64)
    requires
        size <= u64::MAX - 4095,
    ensures
        r == if size == 0 {
            1
        } else {
            (size + 4095) / 4096
        },
{
    let s = if size > 1 { size } else { 1 };
    (s + 4095) / 4096
}

/// How many entries of `s` are `k`.
pub open spec fn occurrences(s: Seq<i32>, k: i32) -> nat
    decreases s.len(),
{
    if s.len() == 0 {
        0
    } else {
        occurrences(s.drop_last(), k) + if s.last() == k { 1nat } else { 0nat }
    }
}

/// `s` holds `k` no more often than it is long.
pub proof fn lemma_occurrences_bound(s: Seq<i32>, k: i32)
    ensures
        occurrences(s, k) <= s.len(),
    decreases s.len(),
{
    if s.len() > 0 {
        lemma_occurrences_bound(s.drop_last(), k);
    }
}

impl SharedMemState {
    /// Every segment id is below the next one handed out.
    pub open spec fn wf(self) -> bool {
        &&& 1 <= self.next_id
        &&& forall|id: i32| #[trigger] self.segments@.contains_key(id) ==> 1 <= id < self.next_id
    }

    /// No segments yet; ids and sequence numbers start at 1.
    pub fn new() -> (r: Self)
        ensures
            r.wf(),
            r.next_id == 1,
            r.next_seq == 1,
            r.segments@ == Map::<i32, SharedMemSegment>::empty(),
            r.key_map@ == Map::<i32, i32>::empty(),
    {
        SharedMemState { next_id: 1, next_seq: 1, segments: BTreeMap::new(), key_map: BTreeMap::new() }
    }

    /// The segment (id and size) that `key` names, if any; the private key
    /// names none.
    pub open spec fn existing_of(self, key: i32) -> Option<(i32, u64)> {
        if key == IPC_PRIVATE || !self.key_map@.contains_key(key) || !self.segments@.contains_key(
            self.key_map@[key],
        ) {
            None
        } else {
            Some((self.key_map@[key], self.segments@[self.key_map@[key]].size))
        }
    }

    /// Looks up the segment `key` names.
    pub fn existing(&self, key: i32) -> (r: Option<(i32, u64)>)
        ensures
            r == self.existing_of(key),
    {
        if key == IPC_PRIVATE {
            return None;
        }
        match self.key_map.get(&key) {
            None => None,
            Some(id) => match self.segments.get(id) {
                None => None,
                Some(seg) => Some((*id, seg.size)),
            },
        }
    }

    /// Records a new segment of `size` bytes held in `num_pages` pages at
    /// `start_vaddr`, created by `pid` at time `now`, and returns its id.
    pub fn create_segment(
        &mut self,
        key: i32,
        flags: i32,
        size: u64,
        start_vaddr: u64,
        num_pages: u64,
        pid: i32,
        now: i64,
    ) -> (r: i32)
        requires
            old(self).wf(),
            old(self).next_id < MAX_SHMID,
            old(self).next_seq < u32::MAX,
            num_pages <= u64::MAX / 4096,
        ensures
            final(self).wf(),
            r == old(self).next_id,
            !old(self).segments@.contains_key(r),
            final(self).next_id == old(self).next_id + 1,
            final(self).next_seq == old(self).next_seq + 1,
            final(self).segments@ == old(self).segments@.insert(
                r,
                SharedMemSegment {
                    key,
                    mode: (flags as u32) & 0o777,
                    size,
                    map_size: (num_pages * 4096) as u64,
                    start_vaddr,
                    num_pages,
                    cpid: pid,
                    lpid: 0,
                    nattch: 0,
                    atime: 0,
                    dtime: 0,
                    ctime: now,
                    seq: old(self).next_seq,
                    marked_destroy: false,
                },
            ),
            final(self).key_map@ == if key != IPC_PRIVATE {
                old(self).key_map@.insert(key, r)
            } else {
                old(self).key_map@
            },
    {
        let id = self.next_id;
        self.next_id = self.next_id + 1;
        let seq = self.next_seq;
        self.next_seq = self.next_seq + 1;
        let seg = SharedMemSegment {
            key,
            mode: (flags as u32) & 0o777,
            size,
            map_size: num_pages * 4096,
            start_vaddr,
            num_pages,
            cpid: pid,
            lpid: 0,
            nattch: 0,
            atime: 0,
            dtime: 0,
            ctime: now,
            seq,
            marked_destroy: false,
        };
        self.segments.insert(id, seg);
        if key != IPC_PRIVATE {
            self.key_map.insert(key, id);
        }
        proof {
            assert forall|k: i32| #[trigger] self.segments@.contains_key(k) implies 1 <= k
                < self.next_id by {
                if k != id {
                    assert(old(self).segments@.contains_key(k));
                }
            }
        }
        id
    }

    /// Removes segment `shmid` once it is marked for removal and no longer
    /// attached, with the key it was found under; returns its pages to free.
    pub fn collect_destroyed_shared_segment(&mut self, shmid: i32) -> (r: Option<(u64, u64)>)
        requires
            old(self).wf(),
        ensures
            final(self).wf(),
            final(self).next_id == old(self).next_id,
            final(self).next_seq == old(self).next_seq,
            match old(self).segments@.get(shmid) {
                Some(seg) => if seg.marked_destroy && seg.nattch == 0 {
                    &&& r == Some((seg.start_vaddr, seg.num_pages))
                    &&& final(self).segments@ == old(self).segments@.remove(shmid)
                    &&& final(self).key_map@ == old(self).key_map@.remove(seg.key)
                } else {
                    &&& r is None
                    &&& final(self).segments@ == old(self).segments@
                    &&& final(self).key_map@ == old(self).key_map@
                },
                None => {
                    &&& r is None
                    &&& final(self).segments@ == old(self).segments@
                    &&& final(self).key_map@ == old(self).key_map@
                },
            },
    {
        let seg = match self.segments.get(&shmid) {
            None => return None,
            Some(s) => *s,
        };
        if !seg.marked_destroy || seg.nattch != 0 {
            return None;
        }
        self.segments.remove(&shmid);
        self.key_map.remove(&seg.key);
        proof {
            assert forall|k: i32| #[trigger] self.segments@.contains_key(k) implies 1 <= k
                < self.next_id by {
                assert(old(self).segments@.contains_key(k));
            }
        }
        Some((seg.start_vaddr, seg.num_pages))
    }

    /// `shmctl(IPC_RMID)`: marks segment `shmid` for removal, forgets its
    /// key, and removes it at once when nothing is attached; `EINVAL` for an
    /// unknown segment.
    pub fn remove_id(&mut self, shmid: i32) -> (r: Result<Option<(u64, u64)>, Errno>)
        requires
            old(self).wf(),
        ensures
            final(self).wf(),
            final(self).next_id == old(self).next_id,
            match old(self).segments@.get(shmid) {
                None => r == Err::<Option<(u64, u64)>, Errno>(Errno::EINVAL)
                    && final(self).segments@ == old(self).segments@ && final(self).key_map@
                    == old(self).key_map@,
                Some(seg) => {
                    &&& final(self).key_map@ == old(self).key_map@.remove(seg.key)
                    &&& if seg.nattch == 0 {
                        &&& r == Ok::<Option<(u64, u64)>, Errno>(
                            Some((seg.start_vaddr, seg.num_pages)),
                        )
                        &&& final(self).segments@ == old(self).segments@.remove(shmid)
                    } else {
                        &&& r == Ok::<Option<(u64, u64)>, Errno>(None)
                        &&& final(self).segments@ == old(self).segments@.insert(
                            shmid,
                            SharedMemSegment { marked_destroy: true, ..seg },
                        )
                    }
                },
            },
    {
        let seg = match self.segments.get(&shmid) {
            None => return Err(Errno::EINVAL),
            Some(s) => *s,
        };
        let marked = SharedMemSegment { marked_destroy: true, ..seg };
        self.segments.insert(shmid, marked);
        self.key_map.remove(&seg.key);
        proof {
            assert forall|k: i32| #[trigger] self.segments@.contains_key(k) implies 1 <= k
                < self.next_id by {
                if k != shmid {
                    assert(old(self).segments@.contains_key(k));
                }
            }
        }
        let ghost mid = self.key_map@;
        let freed = self.collect_destroyed_shared_segment(shmid);
        proof {
            if seg.nattch == 0 {
                assert(self.segments@ =~= old(self).segments@.remove(shmid));
                assert(self.key_map@ =~= old(self).key_map@.remove(seg.key));
            }
        }
        Ok(freed)
    }

    /// `shmat` bookkeeping: one more attachment of segment `shmid` by `pid`
    /// at time `now`; its mapped size and first address, or `EINVAL`.
    pub fn attach(&mut self, shmid: i32, pid: i32, now: i64) -> (r: Result<(u64, u64), Errno>)
        requires
            old(self).wf(),
            old(self).segments@.contains_key(shmid) ==> old(self).segments@[shmid].nattch
                < u64::MAX,
        ensures
            final(self).wf(),
            final(self).next_id == old(self).next_id,
            final(self).key_map@ == old(self).key_map@,
            match old(self).segments@.get(shmid) {
                None => r == Err::<(u64, u64), Errno>(Errno::EINVAL) && final(self).segments@
                    == old(self).segments@,
                Some(seg) => r == Ok::<(u64, u64), Errno>((seg.map_size, seg.start_vaddr))
                    && final(self).segments@ == old(self).segments@.insert(
                    shmid,
                    SharedMemSegment { nattch: (seg.nattch + 1) as u64, lpid: pid, atime: now, ..seg },
                ),
            },
    {
        let seg = match self.segments.get(&shmid) {
            None => return Err(Errno::EINVAL),
            Some(s) => *s,
        };
        let updated = SharedMemSegment { nattch: seg.nattch + 1, lpid: pid, atime: now, ..seg };
        self.segments.insert(shmid, updated);
        proof {
            assert forall|k: i32| #[trigger] self.segments@.contains_key(k) implies 1 <= k
                < self.next_id by {
                if k != shmid {
                    assert(old(self).segments@.contains_key(k));
                }
            }
        }
        Ok((seg.map_size, seg.start_vaddr))
    }

    /// A forked process inherits its parent's attachments: each segment
    /// gains one attachment per entry of `shmids` that names it; entries that
    /// name no segment are skipped.
    pub fn inherit_attaches(&mut self, shmids: &[i32])
        requires
            old(self).wf(),
            forall|k: i32| #[trigger] old(self).segments@.contains_key(k)
                ==> old(self).segments@[k].nattch + shmids@.len() <= u64::MAX,
        ensures
            final(self).wf(),
            final(self).next_id == old(self).next_id,
            final(self).next_seq == old(self).next_seq,
            final(self).key_map@ == old(self).key_map@,
            final(self).segments@.dom() == old(self).segments@.dom(),
            forall|k: i32| #[trigger] old(self).segments@.contains_key(k)
                ==> final(self).segments@[k] == (SharedMemSegment {
                    nattch: (old(self).segments@[k].nattch + occurrences(shmids@, k)) as u64,
                    ..old(self).segments@[k]
                }),
    {
        let mut i: usize = 0;
        while i < shmids.len()
            invariant
                0 <= i <= shmids@.len(),
                self.wf(),
                self.next_id == old(self).next_id,
                self.next_seq == old(self).next_seq,
                self.key_map@ == old(self).key_map@,
                self.segments@.dom() == old(self).segments@.dom(),
                forall|k: i32| #[trigger] old(self).segments@.contains_key(k)
                    ==> old(self).segments@[k].nattch + shmids@.len() <= u64::MAX,
                forall|k: i32| #[trigger] old(self).segments@.contains_key(k)
                    ==> self.segments@[k] == (SharedMemSegment {
                        nattch: (old(self).segments@[k].nattch + occurrences(shmids@.take(i as int), k)) as u64,
                        ..old(self).segments@[k]
                    }),
            decreases shmids@.len() - i,
        {
            let id = shmids[i];
            proof {
                assert(shmids@.take(i as int + 1).drop_last() =~= shmids@.take(i as int));
                assert forall|k: i32| #[trigger] old(self).segments@.contains_key(k)
                    implies occurrences(shmids@.take(i as int + 1), k) == occurrences(
                    shmids@.take(i as int), k) + if k == id { 1int } else { 0int } by {
                    lemma_occurrences_bound(shmids@.take(i as int), k);
                }
                lemma_occurrences_bound(shmids@.take(i as int), id);
            }
            match self.segments.get(&id) {
                None => {},
                Some(seg) => {
                    let updated = SharedMemSegment { nattch: seg.nattch + 1, ..*seg };
                    self.segments.insert(id, updated);
                    assert(self.segments@.dom() =~= old(self).segments@.dom());
                },
            }
            i = i + 1;
        }
        assert(shmids@.take(shmids@.len() as int) =~= shmids@);
    }

    /// One attachment of segment `shmid` fewer (saturating), by `pid` at time
    /// `now` when `detach_time` is set (a detach rather than a failed attach);
    /// then collects the segment if it is marked and unattached. `EINVAL` for
    /// an unknown segment.
    pub fn release(&mut self, shmid: i32, pid: i32, now: i64, detach_time: bool) -> (r: Result<
        Option<(u64, u64)>,
        Errno,
    >)
        requires
            old(self).wf(),
        ensures
            final(self).wf(),
            final(self).next_id == old(self).next_id,
            match old(self).segments@.get(shmid) {
                None => r == Err::<Option<(u64, u64)>, Errno>(Errno::EINVAL)
                    && final(self).segments@ == old(self).segments@ && final(self).key_map@
                    == old(self).key_map@,
                Some(seg) => {
                    let n = if seg.nattch > 0 { (seg.nattch - 1) as u64 } else { 0u64 };
                    let updated = if detach_time {
                        SharedMemSegment { nattch: n, lpid: pid, dtime: now, ..seg }
                    } else {
                        SharedMemSegment { nattch: n, ..seg }
                    };
                    if updated.marked_destroy && n == 0 {
                        &&& r == Ok::<Option<(u64, u64)>, Errno>(
                            Some((seg.start_vaddr, seg.num_pages)),
                        )
                        &&& final(self).segments@ == old(self).segments@.remove(shmid)
                        &&& final(self).key_map@ == old(self).key_map@.remove(seg.key)
                    } else {
                        &&& r == Ok::<Option<(u64, u64)>, Errno>(None)
                        &&& final(self).segments@ == old(self).segments@.insert(shmid, updated)
                        &&& final(self).key_map@ == old(self).key_map@
                    }
                },
            },
    {
        let seg = match self.segments.get(&shmid) {
            None => return Err(Errno::EINVAL),
            Some(s) => *s,
        };
        let n = if seg.nattch > 0 { seg.nattch - 1 } else { 0 };
        let updated = if detach_time {
            SharedMemSegment { nattch: n, lpid: pid, dtime: now, ..seg }
        } else {
            SharedMemSegment { nattch: n, ..seg }
        };
        self.segments.insert(shmid, updated);
        proof {
            assert forall|k: i32| #[trigger] self.segments@.contains_key(k) implies 1 <= k
                < self.next_id by {
                if k != shmid {
                    assert(old(self).segments@.contains_key(k));
                }
            }
        }
        let freed = self.collect_destroyed_shared_segment(shmid);
        proof {
            if updated.marked_destroy && n == 0 {
                assert(self.segments@ =~= old(self).segments@.remove(shmid));
            }
        }
        Ok(freed)
    }
}


/// A segment created under a key is the one `shmget` then finds by that key,
/// with the size it was created with.
pub proof fn created_segment_is_found(
    t0: SharedMemState,
    t1: SharedMemState,
    key: i32,
    id: i32,
    seg: SharedMemSegment,
)
    requires
        key != IPC_PRIVATE,
        seg.key == key,
        t1.segments@ == t0.segments@.insert(id, seg),
        t1.key_map@ == t0.key_map@.insert(key, id),
    ensures
        t1.existing_of(key) == Some((id, seg.size)),
        shmget_plan_of(t1.existing_of(key), key, seg.size, 0) == Ok::<ShmGet, Errno>(
            ShmGet::Existing(id),
        ),
{
    assert(0i32 & 0o1000i32 == 0 && 0i32 & 0o2000i32 == 0) by (bit_vector);
}

/// Once a segment is removed with `IPC_RMID`, its key no longer finds it,
/// and it is gone at once when nothing is attached.
pub proof fn removed_segment_is_forgotten(
    t0: SharedMemState,
    t1: SharedMemState,
    shmid: i32,
    seg: SharedMemSegment,
)
    requires
        t0.segments@.get(shmid) == Some(seg),
        t1.key_map@ == t0.key_map@.remove(seg.key),
    ensures
        t1.existing_of(seg.key) is None,
{
}

/// What `shmctl(IPC_STAT)` reports of a segment.
#[derive(Clone, Copy, Debug, PartialEq, Eq, Structural)]
pub struct ShmidDs {
    pub key: i32,
    /// The permission bits, with `SHM_DEST` when the segment is marked for removal.
    pub mode: u32,
    pub seq: u32,
    pub segsz: u64,
    pub atime: i64,
    pub dtime: i64,
    pub ctime: i64,
    pub cpid: i32,
    pub lpid: i32,
    pub nattch: u64,
}

/// The `IPC_STAT` record of segment `s`.
pub open spec fn ds_of(s: SharedMemSegment) -> ShmidDs {
    ShmidDs {
        key: s.key,
        mode: s.mode | if s.marked_destroy { SHM_DEST } else { 0u32 },
        seq: s.seq,
        segsz: s.size,
        atime: s.atime,
        dtime: s.dtime,
        ctime: s.ctime,
        cpid: s.cpid,
        lpid: s.lpid,
        nattch: s.nattch,
    }
}

/// What a `shmctl` command asks for.
#[derive(Clone, Copy, Debug, PartialEq, Eq, Structural)]
pub enum ShmCtl {
    /// Report the segment (`IPC_STAT`).
    Stat,
    /// Mark the segment for removal (`IPC_RMID`).
    Remove,
    /// Accepted and ignored (`IPC_SET`).
    SetAttributes,
}

/// The `shmctl` command `cmd`; any other is `EINVAL`.
pub fn shmctl_command(cmd: i32) -> (r: Result<ShmCtl, Errno>)
    ensures
        r == if cmd == IPC_STAT {
            Ok::<ShmCtl, Errno>(ShmCtl::Stat)
        } else if cmd == IPC_RMID {
            Ok(ShmCtl::Remove)
        } else if cmd == IPC_SET {
            Ok(ShmCtl::SetAttributes)
        } else {
            Err(Errno::EINVAL)
        },
{
    if cmd == IPC_STAT {
        Ok(ShmCtl::Stat)
    } else if cmd == IPC_RMID {
        Ok(ShmCtl::Remove)
    } else if cmd == IPC_SET {
        Ok(ShmCtl::SetAttributes)
    } else {
        Err(Errno::EINVAL)
    }
}

impl SharedMemState {
    /// `shmctl(shmid, IPC_STAT)`: the record of segment `shmid`, or `EINVAL`
    /// when there is none.
    pub fn stat(&self, shmid: i32) -> (r: Result<ShmidDs, Errno>)
        ensures
            r == match self.segments@.get(shmid) {
                None => Err::<ShmidDs, Errno>(Errno::EINVAL),
                Some(s) => Ok(ds_of(s)),
            },
    {
        match self.segments.get(&shmid) {
            None => Err(Errno::EINVAL),
            Some(s) => Ok(ShmidDs {
                key: s.key,
                mode: s.mode | if s.marked_destroy { SHM_DEST } else { 0 },
                seq: s.seq,
                segsz: s.size,
                atime: s.atime,
                dtime: s.dtime,
                ctime: s.ctime,
                cpid: s.cpid,
                lpid: s.lpid,
                nattch: s.nattch,
            }),
        }
    }
}

} // verus!
