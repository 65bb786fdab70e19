use vstd::prelude::*;
use crate::errno::Errno;
use crate::fdset::FdPoll;
use crate::regorder::sorted_registrations;
use std::collections::BTreeMap;

verus! {

/// `epoll_ctl` operation that registers a descriptor.
pub const EPOLL_CTL_ADD: usize = 1;
/// `epoll_ctl` operation that unregisters a descriptor.
pub const EPOLL_CTL_DEL: usize = 2;
/// `epoll_ctl` operation that changes a registration.
pub const EPOLL_CTL_MOD: usize = 3;
/// Readable.
pub const EPOLLIN: u32 = 0x001;
/// Writable.
pub const EPOLLOUT: u32 = 0x004;
/// Error condition.
pub const EPOLLERR: u32 = 0x008;

/// The event mask and user data of one `epoll_event`.
#[derive(Clone, Copy, PartialEq, Eq, Structural, Debug)]
pub struct EpollEvent {
    pub events: u32,
    pub data: u64,
}

/// One registration: a descriptor and the event it was registered with.
#[derive(Clone, Copy, PartialEq, Eq, Structural, Debug)]
pub struct EpollEntry {
    pub fd: usize,
    pub event: EpollEvent,
}

/// An epoll instance: its registrations, by descriptor.
pub struct EpollInstance {
    entries: BTreeMap<usize, EpollEvent>,
}

/// The registrations of `s` as a map from descriptor to event.
pub open spec fn entries_map(s: Seq<EpollEntry>) -> Map<usize, EpollEvent>
    decreases s.len(),
{
    if s.len() == 0 {
        Map::empty()
    } else {
        entries_map(s.drop_last()).insert(s.last().fd, s.last().event)
    }
}

/// Descriptors appear in strictly increasing order.
pub open spec fn sorted_fds(s: Seq<EpollEntry>) -> bool {
    forall|i: int, j: int| 0 <= i < j < s.len() ==> s[i].fd < s[j].fd
}

/// In a sorted list of registrations each descriptor is registered with
/// the event of its entry, and only listed descriptors are registered.
pub proof fn lemma_entries_map(s: Seq<EpollEntry>)
    requires
        sorted_fds(s),
    ensures
        forall|fd: usize| #[trigger] entries_map(s).contains_key(fd)
            <==> exists|i: int| 0 <= i < s.len() && s[i].fd == fd,
        forall|i: int| 0 <= i < s.len() ==> #[trigger] entries_map(s)[s[i].fd] == s[i].event,
        entries_map(s).dom().finite(),
    decreases s.len(),
{
    if s.len() > 0 {
        let t = s.drop_last();
        lemma_entries_map(t);
        assert forall|fd: usize| #[trigger] entries_map(s).contains_key(fd)
            <==> exists|i: int| 0 <= i < s.len() && s[i].fd == fd by {
            if entries_map(s).contains_key(fd) && fd != s.last().fd {
                let i = choose|i: int| 0 <= i < t.len() && t[i].fd == fd;
                assert(s[i].fd == fd);
            }
            if exists|i: int| 0 <= i < s.len() && s[i].fd == fd {
                let i = choose|i: int| 0 <= i < s.len() && s[i].fd == fd;
                if i < s.len() - 1 {
                    assert(t[i].fd == fd);
                }
            }
        }
        assert forall|i: int| 0 <= i < s.len() implies #[trigger] entries_map(s)[s[i].fd] == s[i].event by {
            if i < s.len() - 1 {
                assert(t[i] == s[i]);
                assert(s[i].fd < s.last().fd);
            }
        }
    }
}

/// Two lists of registrations held in increasing descriptor order that make
/// up the same map are the same list.
pub proof fn lemma_sorted_entries_unique(s1: Seq<EpollEntry>, s2: Seq<EpollEntry>)
    requires
        sorted_fds(s1),
        sorted_fds(s2),
        entries_map(s1) == entries_map(s2),
    ensures
        s1 == s2,
    decreases s1.len() + s2.len(),
{
    lemma_entries_map(s1);
    lemma_entries_map(s2);
    if s1.len() == 0 && s2.len() == 0 {
        assert(s1 =~= s2);
    } else if s1.len() == 0 {
        assert(entries_map(s2).contains_key(s2[0].fd));
        assert(!entries_map(s1).contains_key(s2[0].fd));
    } else if s2.len() == 0 {
        assert(entries_map(s1).contains_key(s1[0].fd));
        assert(!entries_map(s2).contains_key(s1[0].fd));
    } else {
        let l1 = s1.last();
        let l2 = s2.last();
        let t1 = s1.drop_last();
        let t2 = s2.drop_last();
        assert(entries_map(s1).contains_key(s1[s1.len() - 1].fd));
        assert(entries_map(s2).contains_key(s2[s2.len() - 1].fd));
        let j2 = choose|j: int| 0 <= j < s2.len() && s2[j].fd == l1.fd;
        let j1 = choose|j: int| 0 <= j < s1.len() && s1[j].fd == l2.fd;
        assert(l1.fd <= l2.fd) by {
            if j2 < s2.len() - 1 {
                assert(s2[j2].fd < s2[s2.len() - 1].fd);
            }
        }
        assert(l2.fd <= l1.fd) by {
            if j1 < s1.len() - 1 {
                assert(s1[j1].fd < s1[s1.len() - 1].fd);
            }
        }
        assert(entries_map(s1)[s1[s1.len() - 1].fd] == l1.event);
        assert(entries_map(s2)[s2[s2.len() - 1].fd] == l2.event);
        assert(l1 == l2);
        assert(sorted_fds(t1));
        assert(sorted_fds(t2));
        lemma_entries_map(t1);
        lemma_entries_map(t2);
        assert(!entries_map(t1).contains_key(l1.fd)) by {
            if entries_map(t1).contains_key(l1.fd) {
                let i = choose|i: int| 0 <= i < t1.len() && t1[i].fd == l1.fd;
                assert(s1[i].fd < s1[s1.len() - 1].fd);
            }
        }
        assert(!entries_map(t2).contains_key(l2.fd)) by {
            if entries_map(t2).contains_key(l2.fd) {
                let i = choose|i: int| 0 <= i < t2.len() && t2[i].fd == l2.fd;
                assert(s2[i].fd < s2[s2.len() - 1].fd);
            }
        }
        assert(entries_map(t1) =~= entries_map(s1).remove(l1.fd));
        assert(entries_map(t2) =~= entries_map(s2).remove(l2.fd));
        lemma_sorted_entries_unique(t1, t2);
        assert(s1 =~= t1.push(l1));
        assert(s2 =~= t2.push(l2));
    }
}

/// The answer of `epoll_ctl(op, fd, event)` on the registrations `m`, and
/// the registrations after it: a closed `fd` is `EBADF`; adding needs an
/// event (`EFAULT`) and a new descriptor (`EEXIST`); changing needs an event
/// and a registered descriptor (`ENOENT`); removing needs a registered
/// descriptor; other operations are `EINVAL`. A refused call changes nothing.
pub open spec fn control_outcome(
    m: Map<usize, EpollEvent>,
    op: usize,
    fd: usize,
    event: Option<EpollEvent>,
    fd_open: bool,
) -> (Result<usize, Errno>, Map<usize, EpollEvent>) {
    let r: Result<usize, Errno> = if !fd_open {
        Err(Errno::EBADF)
    } else if op == EPOLL_CTL_ADD {
        if event is None {
            Err(Errno::EFAULT)
        } else if m.contains_key(fd) {
            Err(Errno::EEXIST)
        } else {
            Ok(0usize)
        }
    } else if op == EPOLL_CTL_MOD {
        if event is None {
            Err(Errno::EFAULT)
        } else if !m.contains_key(fd) {
            Err(Errno::ENOENT)
        } else {
            Ok(0usize)
        }
    } else if op == EPOLL_CTL_DEL {
        if !m.contains_key(fd) {
            Err(Errno::ENOENT)
        } else {
            Ok(0usize)
        }
    } else {
        Err(Errno::EINVAL)
    };
    (
        r,
        if r is Err {
            m
        } else if op == EPOLL_CTL_DEL {
            m.remove(fd)
        } else {
            m.insert(fd, event.unwrap())
        },
    )
}

/// What a successful `epoll_ctl` does to the registrations: adding
/// registers a descriptor that was not registered, with the given event;
/// changing replaces the event of a registered descriptor with the given one;
/// removing forgets a registered descriptor. A refused call changes nothing.
/// Every operation on an open descriptor with an event succeeds exactly when
/// the descriptor's registration allows it.
pub proof fn control_effect(m: Map<usize, EpollEvent>, op: usize, fd: usize, event: Option<EpollEvent>)
    ensures
        ({
            let (r, m2) = control_outcome(m, op, fd, event, true);
            &&& r is Err ==> m2 == m
            &&& (op == EPOLL_CTL_ADD && event is Some) ==> ((r is Ok <==> !m.contains_key(fd))
                && (r is Ok ==> m2 == m.insert(fd, event->0)))
            &&& (op == EPOLL_CTL_MOD && event is Some) ==> ((r is Ok <==> m.contains_key(fd))
                && (r is Ok ==> m2 == m.insert(fd, event->0) && m2[fd] == event->0))
            &&& op == EPOLL_CTL_DEL ==> ((r is Ok <==> m.contains_key(fd)) && (r is Ok ==> m2
                == m.remove(fd) && !m2.contains_key(fd)))
            &&& r is Ok ==> r == Ok::<usize, Errno>(0)
        }),
        control_outcome(m, op, fd, event, false) == (Err::<usize, Errno>(Errno::EBADF), m),
{
}

/// Changing the event of a registered descriptor makes it registered with
/// the new event, whatever it was registered with before.
pub proof fn modify_replaces_event(m: Map<usize, EpollEvent>, fd: usize, old_event: EpollEvent, e: EpollEvent)
    ensures
        control_outcome(m.insert(fd, old_event), EPOLL_CTL_MOD, fd, Some(e), true) == (
            Ok::<usize, Errno>(0),
            m.insert(fd, e),
        ),
{
    assert(m.insert(fd, old_event).insert(fd, e) =~= m.insert(fd, e));
}

/// Registering a new descriptor and then removing it leaves the
/// registrations as they were; registering it twice fails the second time.
pub proof fn add_then_delete_restores(m: Map<usize, EpollEvent>, fd: usize, e: EpollEvent, e2: EpollEvent)
    requires
        !m.contains_key(fd),
    ensures
        control_outcome(m, EPOLL_CTL_ADD, fd, Some(e), true).0 == Ok::<usize, Errno>(0),
        control_outcome(control_outcome(m, EPOLL_CTL_ADD, fd, Some(e), true).1, EPOLL_CTL_DEL, fd, None, true)
            == (Ok::<usize, Errno>(0), m),
        control_outcome(control_outcome(m, EPOLL_CTL_ADD, fd, Some(e), true).1, EPOLL_CTL_ADD, fd, Some(e2), true).0
            == Err::<usize, Errno>(Errno::EEXIST),
{
    let m1 = m.insert(fd, e);
    assert(m1.remove(fd) =~= m);
}

impl EpollInstance {
    /// Registered descriptors and their events.
    pub closed spec fn view(&self) -> Map<usize, EpollEvent> {
        self.entries@
    }

    /// The registrations in increasing descriptor order.
    pub closed spec fn ordered(&self) -> Seq<EpollEntry> {
        choose|s: Seq<EpollEntry>| sorted_fds(s) && entries_map(s) == self.entries@
    }

    /// The registrations in increasing descriptor order make up the map of
    /// registrations, and are the only list in that order that does.
    pub proof fn lemma_ordered(&self, s: Seq<EpollEntry>)
        requires
            sorted_fds(s),
            entries_map(s) == self@,
        ensures
            self.ordered() == s,
            sorted_fds(self.ordered()),
            self@ == entries_map(self.ordered()),
    {
        let o = self.ordered();
        assert(sorted_fds(o) && entries_map(o) == self.entries@);
        lemma_sorted_entries_unique(o, s);
    }

    /// A new instance with no registrations; the flags are not interpreted.
    pub fn new(_flags: usize) -> (r: Self)
        ensures
            r@ == Map::<usize, EpollEvent>::empty(),
    {
        EpollInstance { entries: BTreeMap::new() }
    }

    /// The registrations in increasing descriptor order.
    fn registrations(&self) -> (r: Vec<EpollEntry>)
        ensures
            r@ == self.ordered(),
    {
        let r = sorted_registrations(&self.entries);
        proof {
            self.lemma_ordered(r@);
        }
        r
    }

    /// `epoll_ctl`: adds, changes or removes the registration of `fd`.
    /// `fd_open` tells whether `fd` is an open descriptor.
    pub fn control(&mut self, op: usize, fd: usize, event: Option<EpollEvent>, fd_open: bool) -> (r: Result<usize, Errno>)
        ensures
            (r, final(self)@) == control_outcome(old(self)@, op, fd, event, fd_open),
            r is Err ==> final(self)@ == old(self)@,
            fd_open && op == EPOLL_CTL_MOD && event is Some && old(self)@.contains_key(fd) ==> r
                == Ok::<usize, Errno>(0) && final(self)@ == old(self)@.insert(fd, event->0),
            fd_open && op == EPOLL_CTL_ADD && event is Some && !old(self)@.contains_key(fd) ==> r
                == Ok::<usize, Errno>(0) && final(self)@ == old(self)@.insert(fd, event->0),
            fd_open && op == EPOLL_CTL_DEL && old(self)@.contains_key(fd) ==> r == Ok::<usize, Errno>(0)
                && final(self)@ == old(self)@.remove(fd),
    {
        if !fd_open {
            return Err(Errno::EBADF);
        }
        let found = self.entries.contains_key(&fd);
        if op == EPOLL_CTL_ADD {
            let Some(ev) = event else {
                return Err(Errno::EFAULT);
            };
            if found {
                return Err(Errno::EEXIST);
            }
            self.entries.insert(fd, ev);
            return Ok(0);
        }
        if op == EPOLL_CTL_MOD {
            let Some(ev) = event else {
                return Err(Errno::EFAULT);
            };
            if !found {
                return Err(Errno::ENOENT);
            }
            self.entries.insert(fd, ev);
            return Ok(0);
        }
        if op == EPOLL_CTL_DEL {
            if !found {
                return Err(Errno::ENOENT);
            }
            self.entries.remove(&fd);
            return Ok(0);
        }
        Err(Errno::EINVAL)
    }
}

/// The events that `epoll_wait` reports, scanning the registrations from
/// position `i` on with `out` already reported and room for `max` in all;
/// the scan stops when an event does not fit and fails at a closed descriptor.
pub open spec fn scan(
    entries: Seq<EpollEntry>,
    polls: Seq<FdPoll>,
    i: int,
    out: Seq<EpollEvent>,
    max: int,
) -> Result<Seq<EpollEvent>, Errno>
    decreases entries.len() - i,
{
    if i < 0 || i >= entries.len() {
        Ok(out)
    } else {
        let e = entries[i];
        match polls[i] {
            FdPoll::Missing => Err(Errno::EBADF),
            FdPoll::Failed => {
                if e.event.events & EPOLLERR != 0 {
                    if out.len() >= max {
                        Ok(out)
                    } else {
                        scan(entries, polls, i + 1, out.push(EpollEvent { events: EPOLLERR, data: e.event.data }), max)
                    }
                } else {
                    scan(entries, polls, i + 1, out, max)
                }
            },
            FdPoll::Ready(st) => {
                let want_in = st.readable && e.event.events & EPOLLIN != 0;
                let want_out = st.writable && e.event.events & EPOLLOUT != 0;
                if want_in && out.len() >= max {
                    Ok(out)
                } else {
                    let out1 = if want_in { out.push(EpollEvent { events: EPOLLIN, data: e.event.data }) } else { out };
                    if want_out && out1.len() >= max {
                        Ok(out1)
                    } else {
                        let out2 = if want_out {
                            out1.push(EpollEvent { events: EPOLLOUT, data: e.event.data })
                        } else {
                            out1
                        };
                        scan(entries, polls, i + 1, out2, max)
                    }
                }
            },
        }
    }
}

/// Appends a ready event unless `out` already holds `max` events.
fn push_ready_event(out: &mut Vec<EpollEvent>, max: usize, event_mask: u32, data: u64) -> (r: bool)
    ensures
        r == (old(out).len() < max),
        final(out)@ == if r { old(out)@.push(EpollEvent { events: event_mask, data }) } else { old(out)@ },
{
    if out.len() >= max {
        return false;
    }
    out.push(EpollEvent { events: event_mask, data });
    true
}

impl EpollInstance {
    /// Number of registrations.
    pub fn len(&self) -> (r: usize)
        ensures
            r == self.ordered().len(),
    {
        self.registrations().len()
    }

    /// The descriptor of the registration at position `i` (in descriptor order).
    pub fn fd_at(&self, i: usize) -> (r: usize)
        requires
            i < self.ordered().len(),
        ensures
            r == self.ordered()[i as int].fd,
    {
        self.registrations()[i].fd
    }

    /// The registered descriptors in increasing order.
    pub fn registered_fds(&self) -> (r: Vec<usize>)
        ensures
            r@ == self.ordered().map_values(|e: EpollEntry| e.fd),
    {
        let regs = self.registrations();
        let mut out: Vec<usize> = Vec::new();
        let mut i: usize = 0;
        while i < regs.len()
            invariant
                i <= regs@.len(),
                out@ =~= regs@.take(i as int).map_values(|e: EpollEntry| e.fd),
            decreases regs@.len() - i,
        {
            out.push(regs[i].fd);
            i += 1;
            assert(out@ =~= regs@.take(i as int).map_values(|e: EpollEntry| e.fd));
        }
        assert(regs@.take(regs@.len() as int) =~= regs@);
        out
    }

    /// One pass of `epoll_wait`: given how polling the registered descriptors
    /// went (in descriptor order), collects up to `max` ready events in `out`.
    pub fn poll_all(&self, out: &mut Vec<EpollEvent>, max: usize, polls: &[FdPoll]) -> (r: Result<usize, Errno>)
        requires
            old(out).len() == 0,
            polls.len() >= self.ordered().len(),
        ensures
            match scan(self.ordered(), polls@, 0, seq![], max as int) {
                Ok(evs) => r == Ok::<usize, Errno>(evs.len() as usize) && final(out)@ == evs,
                Err(e) => r == Err::<usize, Errno>(e),
            },
    {
        let entries = self.registrations();
        let mut i: usize = 0;
        assert(out@ =~= seq![]);
        while i < entries.len()
            invariant
                entries@ == self.ordered(),
                polls.len() >= entries.len(),
                i <= entries.len(),
                out.len() <= max,
                scan(entries@, polls@, 0, seq![], max as int)
                    == scan(entries@, polls@, i as int, out@, max as int),
            decreases entries.len() - i,
        {
            let e = entries[i];
            match polls[i] {
                FdPoll::Missing => {
                    return Err(Errno::EBADF);
                },
                FdPoll::Failed => {
                    if e.event.events & EPOLLERR != 0 {
                        if !push_ready_event(out, max, EPOLLERR, e.event.data) {
                            return Ok(out.len());
                        }
                    }
                },
                FdPoll::Ready(st) => {
                    if st.readable && (e.event.events & EPOLLIN != 0) {
                        if !push_ready_event(out, max, EPOLLIN, e.event.data) {
                            return Ok(out.len());
                        }
                    }
                    if st.writable && (e.event.events & EPOLLOUT != 0) {
                        if !push_ready_event(out, max, EPOLLOUT, e.event.data) {
                            return Ok(out.len());
                        }
                    }
                },
            }
            i += 1;
        }
        Ok(out.len())
    }
}

/// Checks the `maxevents` argument of `epoll_wait`.
pub fn epoll_wait_capacity(maxevents: i32) -> (r: Result<usize, Errno>)
    ensures
        r == if maxevents <= 0 { Err::<usize, Errno>(Errno::EINVAL) } else { Ok(maxevents as usize) },
{
    if maxevents <= 0 {
        return Err(Errno::EINVAL);
    }
    Ok(maxevents as usize)
}

/// The size argument of `epoll_create`: a negative size is `EINVAL`; any
/// other is accepted and not interpreted.
pub fn epoll_create_check(size: i32) -> (r: Result<(), Errno>)
    ensures
        r == if size < 0 { Err::<(), Errno>(Errno::EINVAL) } else { Ok(()) },
{
    if size < 0 {
        Err(Errno::EINVAL)
    } else {
        Ok(())
    }
}

} // verus!
