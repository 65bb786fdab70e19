use vstd::prelude::*;
use crate::errno::Errno;
use crate::pipe::PollState;

verus! {

/// Largest descriptor count that `select` looks at.
pub const FD_SETSIZE: usize = 1024;

/// Bits in one word of a descriptor set.
pub const BITS_PER_WORD: usize = 64;

/// How polling one descriptor turned out.
#[derive(Clone, Copy, PartialEq, Eq, Structural, Debug)]
pub enum FdPoll {
    /// The descriptor is not open.
    Missing,
    /// The descriptor is open but polling it failed.
    Failed,
    /// The descriptor's readiness.
    Ready(PollState),
}

/// Whether descriptor `fd` is in the set held by `words`.
pub open spec fn has_fd(words: Seq<u64>, fd: int) -> bool {
    (words[fd / 64] >> ((fd % 64) as u64)) & 1u64 == 1u64
}

/// Setting bit `b` of a word sets that bit and keeps the others.
pub proof fn lemma_or_bit(w: u64, b: u64, k: u64)
    requires
        b < 64,
        k < 64,
    ensures
        ((w | (1u64 << b)) >> k) & 1u64 == if k == b { 1u64 } else { (w >> k) & 1u64 },
{
    assert(((w | (1u64 << b)) >> k) & 1u64 == if k == b { 1u64 } else { (w >> k) & 1u64 })
        by (bit_vector)
        requires
            b < 64,
            k < 64,
    ;
}

/// No bit of 0 is set.
pub proof fn lemma_zero_bit(k: u64)
    ensures
        (0u64 >> k) & 1u64 == 0u64,
{
    assert((0u64 >> k) & 1u64 == 0u64) by (bit_vector);
}

/// The read, write and exception sets of a `select` call.
pub struct FdSets {
    pub nfds: usize,
    pub read: [u64; 16],
    pub write: [u64; 16],
    pub except: [u64; 16],
}

/// The words of set number `idx` (0 read, 1 write, 2 exception).
pub open spec fn set_words(s: FdSets, idx: int) -> Seq<u64> {
    if idx == 0 { s.read@ } else if idx == 1 { s.write@ } else { s.except@ }
}

/// One past the highest descriptor counted.
pub open spec fn words_for(nfds: int) -> int {
    (nfds + 63) / 64
}

impl FdSets {
    /// Number of descriptors covered.
    pub open spec fn nfds_spec(&self) -> int {
        self.nfds as int
    }

    /// Whether `fd` is in set `idx`.
    pub open spec fn contains_fd(&self, idx: int, fd: int) -> bool {
        has_fd(set_words(*self, idx), fd)
    }

    /// Empty sets covering `nfds` descriptors, at most [`FD_SETSIZE`].
    pub fn empty(nfds: usize) -> (r: Self)
        ensures
            r.nfds == if nfds < 1024 { nfds } else { 1024 },
            forall|idx: int, fd: int| 0 <= fd < 1024 ==> !#[trigger] r.contains_fd(idx, fd),
    {
        let r = FdSets {
            nfds: if nfds < FD_SETSIZE { nfds } else { FD_SETSIZE },
            read: [0u64; 16],
            write: [0u64; 16],
            except: [0u64; 16],
        };
        assert forall|idx: int, fd: int| 0 <= fd < 1024 implies !#[trigger] r.contains_fd(idx, fd) by {
            lemma_zero_bit((fd % 64) as u64);
        }
        r
    }

    /// Number of words that hold the covered descriptors.
    pub fn nfds_words(&self) -> (r: usize)
        requires
            self.nfds <= 1024,
        ensures
            r == words_for(self.nfds as int),
            r <= 16,
    {
        (self.nfds + 63) / 64
    }

    /// Copies the covered words of set `idx` from `src`.
    pub fn copy_from_fd_set(&mut self, idx: usize, src: &[u64])
        requires
            old(self).nfds <= 1024,
            idx < 3,
            src.len() >= words_for(old(self).nfds as int),
        ensures
            final(self).nfds == old(self).nfds,
            forall|i: int| 0 <= i < 3 && i != idx ==> set_words(*final(self), i) == set_words(*old(self), i),
            forall|w: int| 0 <= w < 16 ==> set_words(*final(self), idx as int)[w]
                == if w < words_for(old(self).nfds as int) { src@[w] } else { set_words(*old(self), idx as int)[w] },
    {
        let words = self.nfds_words();
        let mut i: usize = 0;
        while i < words
            invariant
                words == words_for(self.nfds as int),
                words <= 16,
                src.len() >= words,
                i <= words,
                idx < 3,
                self.nfds == old(self).nfds,
                idx != 0 ==> self.read == old(self).read,
                idx != 1 ==> self.write == old(self).write,
                idx != 2 ==> self.except == old(self).except,
                idx == 0 ==> forall|w: int| 0 <= w < 16 ==> self.read[w] == if w < i { src@[w] } else { old(self).read[w] },
                idx == 1 ==> forall|w: int| 0 <= w < 16 ==> self.write[w] == if w < i { src@[w] } else { old(self).write[w] },
                idx == 2 ==> forall|w: int| 0 <= w < 16 ==> self.except[w] == if w < i { src@[w] } else { old(self).except[w] },
            decreases words - i,
        {
            if idx == 0 {
                self.read[i] = src[i];
            } else if idx == 1 {
                self.write[i] = src[i];
            } else {
                self.except[i] = src[i];
            }
            i += 1;
        }
    }

    /// The words of set `idx`.
    pub fn words(&self, idx: usize) -> (r: [u64; 16])
        requires
            idx < 3,
        ensures
            r@ == set_words(*self, idx as int),
    {
        if idx == 0 { self.read } else if idx == 1 { self.write } else { self.except }
    }

    /// Clears the covered words of all three sets.
    pub fn clear(&mut self)
        requires
            old(self).nfds <= 1024,
        ensures
            final(self).nfds == old(self).nfds,
            forall|k: int, w: int| 0 <= k < 3 && 0 <= w < 16 ==> set_words(*final(self), k)[w]
                == if w < words_for(old(self).nfds as int) { 0u64 } else { set_words(*old(self), k)[w] },
    {
        let words = self.nfds_words();
        let mut i: usize = 0;
        while i < words
            invariant
                words == words_for(self.nfds as int),
                words <= 16,
                i <= words,
                self.nfds == old(self).nfds,
                forall|w: int| 0 <= w < 16 ==> self.read[w] == if w < i { 0u64 } else { old(self).read[w] },
                forall|w: int| 0 <= w < 16 ==> self.write[w] == if w < i { 0u64 } else { old(self).write[w] },
                forall|w: int| 0 <= w < 16 ==> self.except[w] == if w < i { 0u64 } else { old(self).except[w] },
            decreases words - i,
        {
            self.read[i] = 0;
            self.write[i] = 0;
            self.except[i] = 0;
            i += 1;
        }
    }

    /// Adds `fd` to set `idx`.
    pub fn set_fd(&mut self, idx: usize, fd: usize)
        requires
            idx < 3,
            fd < 1024,
        ensures
            final(self).nfds == old(self).nfds,
            forall|k: int| 0 <= k < 3 && k != idx ==> set_words(*final(self), k) == set_words(*old(self), k),
            forall|f: int| 0 <= f < 1024 ==> #[trigger] final(self).contains_fd(idx as int, f)
                == (f == fd || old(self).contains_fd(idx as int, f)),
            forall|w: int| 0 <= w < 16 && w != fd / 64 ==> set_words(*final(self), idx as int)[w]
                == set_words(*old(self), idx as int)[w],
    {
        let w = fd / 64;
        let b = (fd % 64) as u64;
        if idx == 0 {
            self.read[w] = self.read[w] | (1u64 << b);
        } else if idx == 1 {
            self.write[w] = self.write[w] | (1u64 << b);
        } else {
            self.except[w] = self.except[w] | (1u64 << b);
        }
        assert forall|f: int| 0 <= f < 1024 implies #[trigger] self.contains_fd(idx as int, f)
            == (f == fd || old(self).contains_fd(idx as int, f)) by {
            let ow = set_words(*old(self), idx as int);
            lemma_or_bit(ow[w as int], b, (f % 64) as u64);
            if f / 64 == w as int && f % 64 == b as int {
                assert(f == fd);
            }
        }
    }
}


/// Whether `fd` counts as ready in set `idx` of the result.
pub open spec fn ready_in(sets: FdSets, polls: Seq<FdPoll>, idx: int, fd: int) -> bool {
    if idx == 0 {
        sets.contains_fd(0, fd) && (polls[fd] matches FdPoll::Ready(st) && st.readable)
    } else if idx == 1 {
        sets.contains_fd(1, fd) && (polls[fd] matches FdPoll::Ready(st) && st.writable)
    } else {
        sets.contains_fd(2, fd) && polls[fd] is Failed
    }
}

/// `fd` was asked about and is not an open descriptor.
pub open spec fn missing_at(sets: FdSets, polls: Seq<FdPoll>, fd: int) -> bool {
    (sets.contains_fd(0, fd) || sets.contains_fd(1, fd) || sets.contains_fd(2, fd))
        && polls[fd] is Missing
}

/// Number of (descriptor, set) pairs ready among the descriptors below `n`.
pub open spec fn ready_count(sets: FdSets, polls: Seq<FdPoll>, n: int) -> int
    decreases n,
{
    if n <= 0 {
        0
    } else {
        ready_count(sets, polls, n - 1) + (if ready_in(sets, polls, 0, n - 1) { 1int } else { 0 })
            + (if ready_in(sets, polls, 1, n - 1) { 1int } else { 0 })
            + (if ready_in(sets, polls, 2, n - 1) { 1int } else { 0 })
    }
}

/// Whether bit `b` of `w` is set.
fn bit_of(w: u64, b: u64) -> (r: bool)
    requires
        b < 64,
    ensures
        r == ((w >> b) & 1u64 == 1u64),
{
    (w >> b) & 1u64 == 1u64
}

impl FdSets {
    /// One pass of `select`: records in `result` which requested descriptors
    /// are ready, given how polling each descriptor (indexed by number) went.
    /// A requested descriptor that is not open ends the pass with `EBADF`,
    /// leaving in `result` what was found below it.
    pub fn poll_all(&self, result: &mut FdSets, polls: &[FdPoll]) -> (r: Result<usize, Errno>)
        requires
            self.nfds <= 1024,
            polls.len() >= self.nfds,
            old(result).nfds == self.nfds,
        ensures
            final(result).nfds == self.nfds,
            forall|k: int, w: int| 0 <= k < 3 && words_for(self.nfds as int) <= w < 16
                ==> set_words(*final(result), k)[w] == set_words(*old(result), k)[w],
            forall|k: int, fd: int| 0 <= k < 3 && self.nfds <= fd < words_for(self.nfds as int) * 64
                ==> !#[trigger] final(result).contains_fd(k, fd),
            match r {
                Ok(c) => {
                    &&& c == ready_count(*self, polls@, self.nfds as int)
                    &&& forall|fd: int| 0 <= fd < self.nfds ==> !#[trigger] missing_at(*self, polls@, fd)
                    &&& forall|k: int, fd: int| 0 <= k < 3 && 0 <= fd < self.nfds
                        ==> #[trigger] final(result).contains_fd(k, fd) == ready_in(*self, polls@, k, fd)
                },
                Err(e) => {
                    &&& e == Errno::EBADF
                    &&& exists|m: int| {
                        &&& 0 <= m < self.nfds
                        &&& missing_at(*self, polls@, m)
                        &&& forall|fd: int| 0 <= fd < m ==> !#[trigger] missing_at(*self, polls@, fd)
                        &&& forall|k: int, fd: int| 0 <= k < 3 && 0 <= fd < self.nfds
                            ==> #[trigger] final(result).contains_fd(k, fd) == (fd < m && ready_in(*self, polls@, k, fd))
                    }
                },
            },
    {
        result.clear();
        proof {
            assert forall|k: int, fd: int| 0 <= k < 3 && 0 <= fd < words_for(self.nfds as int) * 64
                implies !#[trigger] result.contains_fd(k, fd) by {
                lemma_zero_bit((fd % 64) as u64);
            }
        }
        let mut count: usize = 0;
        let mut fd: usize = 0;
        while fd < self.nfds
            invariant
                self.nfds <= 1024,
                polls.len() >= self.nfds,
                fd <= self.nfds,
                result.nfds == self.nfds,
                count == ready_count(*self, polls@, fd as int),
                count <= 3 * fd,
                forall|k: int, w: int| 0 <= k < 3 && words_for(self.nfds as int) <= w < 16
                    ==> set_words(*result, k)[w] == set_words(*old(result), k)[w],
                forall|g: int| 0 <= g < fd ==> !#[trigger] missing_at(*self, polls@, g),
                forall|k: int, g: int| 0 <= k < 3 && 0 <= g < words_for(self.nfds as int) * 64
                    ==> #[trigger] result.contains_fd(k, g) == (g < fd && ready_in(*self, polls@, k, g)),
            decreases self.nfds - fd,
        {
            let w = fd / 64;
            let b = (fd % 64) as u64;
            let want_r = bit_of(self.read[w], b);
            let want_w = bit_of(self.write[w], b);
            let want_e = bit_of(self.except[w], b);
            assert(want_r == self.contains_fd(0, fd as int));
            assert(want_w == self.contains_fd(1, fd as int));
            assert(want_e == self.contains_fd(2, fd as int));
            let ghost before = *result;
            let mut set_r = false;
            let mut set_w = false;
            let mut set_e = false;
            if want_r || want_w || want_e {
                match polls[fd] {
                    FdPoll::Missing => {
                        assert(missing_at(*self, polls@, fd as int));
                        return Err(Errno::EBADF);
                    },
                    FdPoll::Ready(st) => {
                        set_r = st.readable && want_r;
                        set_w = st.writable && want_w;
                    },
                    FdPoll::Failed => {
                        set_e = want_e;
                    },
                }
            }
            assert(set_r == ready_in(*self, polls@, 0, fd as int));
            assert(set_w == ready_in(*self, polls@, 1, fd as int));
            assert(set_e == ready_in(*self, polls@, 2, fd as int));
            assert(!missing_at(*self, polls@, fd as int));
            if set_r {
                result.set_fd(0, fd);
                count += 1;
            }
            let ghost mid1 = *result;
            if set_w {
                result.set_fd(1, fd);
                count += 1;
            }
            let ghost mid2 = *result;
            if set_e {
                result.set_fd(2, fd);
                count += 1;
            }
            proof {
                assert forall|k: int, g: int| 0 <= k < 3 && 0 <= g < 1024
                    implies #[trigger] result.contains_fd(k, g) == (before.contains_fd(k, g) || (g == fd && ready_in(*self, polls@, k, g))) by {
                    if k == 0 {
                        assert(set_words(*result, 0) == set_words(mid2, 0));
                        assert(set_words(mid2, 0) == set_words(mid1, 0));
                        assert(mid1.contains_fd(0, g) == (before.contains_fd(0, g) || (g == fd && set_r)));
                    } else if k == 1 {
                        assert(set_words(*result, 1) == set_words(mid2, 1));
                        assert(set_words(mid1, 1) == set_words(before, 1));
                        assert(mid2.contains_fd(1, g) == (mid1.contains_fd(1, g) || (g == fd && set_w)));
                    } else {
                        assert(set_words(mid2, 2) == set_words(mid1, 2));
                        assert(set_words(mid1, 2) == set_words(before, 2));
                        assert(result.contains_fd(2, g) == (mid2.contains_fd(2, g) || (g == fd && set_e)));
                    }
                }
                assert forall|k: int, g: int| 0 <= k < 3 && 0 <= g < words_for(self.nfds as int) * 64
                    implies #[trigger] result.contains_fd(k, g) == (g < fd + 1 && ready_in(*self, polls@, k, g)) by {
                    assert(before.contains_fd(k, g) == (g < fd && ready_in(*self, polls@, k, g)));
                }
            }
            fd += 1;
        }
        Ok(count)
    }
}

} // verus!
