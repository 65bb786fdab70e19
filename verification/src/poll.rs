use vstd::prelude::*;
use crate::errno::Errno;
use crate::pipe::PollState;

verus! {

/// Readable data.
pub const POLLIN: i16 = 0x001;
/// Writing possible.
pub const POLLOUT: i16 = 0x004;
/// Error condition.
pub const POLLERR: i16 = 0x008;
/// Hang-up.
pub const POLLHUP: i16 = 0x010;
/// Not an open descriptor.
pub const POLLNVAL: i16 = 0x020;

/// One entry of a `poll` request.
#[derive(Clone, Copy, PartialEq, Eq, Structural, Debug)]
pub struct PollEvent {
    pub fd: i32,
    pub events: i16,
    pub revents: i16,
}

/// The returned events of `ev` given how polling its descriptor went.
pub open spec fn revents_of(ev: PollEvent, res: Result<PollState, Errno>) -> i16 {
    if ev.fd < 0 {
        0
    } else {
        match res {
            Ok(st) => {
                let a: i16 = if st.readable && ev.events & POLLIN != 0 { 0i16 | POLLIN } else { 0i16 };
                if st.writable && ev.events & POLLOUT != 0 { a | POLLOUT } else { a }
            },
            Err(Errno::EBADF) => 0i16 | POLLNVAL,
            Err(_) => 0i16 | (POLLERR | POLLHUP),
        }
    }
}

/// Number of entries among the first `n` that have returned events.
pub open spec fn ready_entries(evs: Seq<PollEvent>, n: int) -> int
    decreases n,
{
    if n <= 0 { 0 } else { ready_entries(evs, n - 1) + if evs[n - 1].revents != 0 { 1int } else { 0 } }
}

/// One pass of `poll`: fills in the returned events of each entry from the
/// outcome of polling its descriptor (`results[i]` for entry `i`; entries
/// with a negative descriptor are skipped) and counts the entries that have any.
pub fn poll_round(events: &mut Vec<PollEvent>, results: &[Result<PollState, Errno>]) -> (r: usize)
    requires
        results.len() >= old(events).len(),
    ensures
        final(events).len() == old(events).len(),
        forall|i: int| 0 <= i < final(events).len() ==> #[trigger] final(events)@[i] == (PollEvent {
            revents: revents_of(old(events)@[i], results@[i]),
            ..old(events)@[i]
        }),
        r == ready_entries(final(events)@, final(events).len() as int),
{
    let mut ready: usize = 0;
    let mut i: usize = 0;
    while i < events.len()
        invariant
            results.len() >= old(events).len(),
            events.len() == old(events).len(),
            i <= events.len(),
            ready <= i,
            forall|k: int| 0 <= k < i ==> #[trigger] events@[k] == (PollEvent {
                revents: revents_of(old(events)@[k], results@[k]),
                ..old(events)@[k]
            }),
            forall|k: int| i <= k < events.len() ==> #[trigger] events@[k] == old(events)@[k],
            ready == ready_entries(events@, i as int),
        decreases events.len() - i,
    {
        let mut ev = events[i];
        let mut revents: i16 = 0;
        if ev.fd >= 0 {
            match &results[i] {
                Ok(state) => {
                    if state.readable && ev.events & POLLIN != 0 {
                        revents = revents | POLLIN;
                    }
                    if state.writable && ev.events & POLLOUT != 0 {
                        revents = revents | POLLOUT;
                    }
                },
                Err(Errno::EBADF) => {
                    revents = revents | POLLNVAL;
                },
                Err(_) => {
                    revents = revents | (POLLERR | POLLHUP);
                },
            }
        }
        ev.revents = revents;
        let ghost before = events@;
        events.set(i, ev);
        assert(ready_entries(events@, i as int) == ready_entries(before, i as int)) by {
            lemma_ready_prefix(events@, before, i as int);
        }
        if revents != 0 {
            ready += 1;
        }
        i += 1;
    }
    ready
}

pub proof fn lemma_ready_prefix(a: Seq<PollEvent>, b: Seq<PollEvent>, n: int)
    requires
        0 <= n <= a.len(),
        n <= b.len(),
        forall|k: int| 0 <= k < n ==> a[k] == b[k],
    ensures
        ready_entries(a, n) == ready_entries(b, n),
    decreases n,
{
    if n > 0 {
        lemma_ready_prefix(a, b, n - 1);
    }
}

} // verus!
