use vstd::prelude::*;
use crate::errno::Errno;

verus! {

/// Size of a page.
pub const PAGE_SIZE_4K: u64 = 4096;
/// Lowest address of the user address space.
pub const USER_ASPACE_BASE: u64 = 0x1_0000;
/// Size of the user address space.
pub const USER_ASPACE_SIZE: u64 = 0x20_0000_0000;
/// Size of the main thread's stack.
pub const USER_STACK_SIZE: u64 = 8 * 1024 * 1024;
/// Unmapped gap above the user stack.
pub const USER_STACK_GUARD: u64 = 0x1_0000;
/// Top of the user stack.
pub const USER_STACK_TOP: u64 = 0x20_0000_0000 + 0x1_0000 - 0x1_0000;
/// Lowest address handed out by `mmap` and `shmat`.
pub const USER_MMAP_BASE: u64 = 0x10_0000_0000;
/// Size of the area reserved for the program break.
pub const USER_BRK_GROW_SIZE: u64 = 64 * 1024 * 1024;
/// `mmap` flag: place the mapping exactly at the address.
pub const MAP_FIXED: u32 = 16;
/// `shmat` flag: round the address down to a page.
pub const SHM_RND_FLAG: i32 = 0o20000;

/// An alignment for which rounding by masking is rounding by arithmetic.
pub open spec fn usual_align(a: u64) -> bool {
    a == 1 || a == 8 || a == 16 || a == 4096
}

pub proof fn lemma_mask_is_mod(v: u64, a: u64)
    requires
        usual_align(a),
    ensures
        v & !((a - 1) as u64) == v - v % a,
{
    if a == 4096 {
        assert(v & !(4095u64) == v - v % 4096) by (bit_vector);
    } else if a == 16 {
        assert(v & !(15u64) == v - v % 16) by (bit_vector);
    } else if a == 8 {
        assert(v & !(7u64) == v - v % 8) by (bit_vector);
    } else {
        assert(v & !(0u64) == v) by (bit_vector);
    }
}

/// `value` with the bits below the power-of-two `align` cleared.
pub fn align_down(value: u64, align: u64) -> (r: u64)
    requires
        align > 0,
    ensures
        r == value & !((align - 1) as u64),
        usual_align(align) ==> r == value - value % align,
{
    proof {
        if usual_align(align) {
            lemma_mask_is_mod(value, align);
        }
    }
    value & !(align - 1)
}

/// `value` rounded up to the power-of-two `align` (0 stays 0).
pub fn align_up(value: u64, align: u64) -> (r: u64)
    requires
        align > 0,
        value + align - 1 <= u64::MAX,
    ensures
        r == if value == 0 { 0 } else { ((value + align - 1) as u64) & !((align - 1) as u64) },
        usual_align(align) && value != 0 ==> r == (value + align - 1) - (value + align - 1) % (align as int),
        usual_align(align) && value != 0 ==> r >= value && r < value + align && r % align == 0,
{
    proof {
        if usual_align(align) {
            lemma_mask_is_mod((value + align - 1) as u64, align);
        }
    }
    if value == 0 {
        0
    } else {
        align_down(value + (align - 1), align)
    }
}

/// The program break and the next `mmap` address of a process.
#[derive(Clone, Copy, PartialEq, Eq, Structural, Debug)]
pub struct BrkState {
    pub start: u64,
    pub end: u64,
    pub limit: u64,
    pub next_mmap: u64,
}

/// `brk`: moves the break to `addr` when it lies in the reserved area, and
/// returns the break either way (`addr == 0` only asks).
pub fn brk_update(brk: &mut BrkState, addr: u64) -> (r: u64)
    ensures
        final(brk).end == if addr != 0 && old(brk).start <= addr <= old(brk).limit { addr } else { old(brk).end },
        final(brk).start == old(brk).start,
        final(brk).limit == old(brk).limit,
        final(brk).next_mmap == old(brk).next_mmap,
        r == final(brk).end,
        old(brk).start <= old(brk).end <= old(brk).limit ==> final(brk).start <= final(brk).end
            <= final(brk).limit,
{
    if addr == 0 {
        return brk.end;
    }
    if addr < brk.start || addr > brk.limit {
        return brk.end;
    }
    brk.end = addr;
    brk.end
}

/// Whether `[start, start + size)` lies in the `mmap` area below the stack.
pub open spec fn in_mmap_area(start: int, size: int) -> bool {
    start >= USER_MMAP_BASE && start + size < USER_STACK_TOP - USER_STACK_SIZE
}

/// Tests `in_mmap_area` without leaving the range of `u64`.
fn fits_mmap_area(start: u64, size: u64) -> (r: bool)
    ensures
        r == in_mmap_area(start as int, size as int),
{
    let limit: u64 = USER_STACK_TOP - USER_STACK_SIZE;
    start >= USER_MMAP_BASE && size < limit && start < limit - size
}

/// Rounds `x` up to whole pages.
pub open spec fn page_up(x: int) -> int {
    if x == 0 { 0 } else { (x + 4095) - (x + 4095) % 4096 }
}

/// A page-rounded size is a whole number of pages, covers what it rounds,
/// and adds less than a page.
pub proof fn lemma_page_up(x: int)
    requires
        x >= 0,
    ensures
        page_up(x) % 4096 == 0,
        x <= page_up(x) < x + 4096,
{
    if x != 0 {
        assert(((x + 4095) - (x + 4095) % 4096) % 4096 == 0) by (nonlinear_arith);
        assert((x + 4095) % 4096 < 4096) by (nonlinear_arith);
    }
}

/// `mmap`: the address of a new mapping of `len` bytes at the hint `addr`
/// (0: anywhere); it and its page-rounded size, or `ENOMEM` when it falls
/// outside the `mmap` area. Without a hint it takes the next free address.
pub fn mmap_target(brk: &mut BrkState, addr: u64, len: u64) -> (r: Result<(u64, u64), Errno>)
    requires
        len <= u64::MAX - 8192,
        old(brk).next_mmap <= u64::MAX - 4096,
    ensures
        ({
            let size = page_up(if len == 0 { 1int } else { len as int });
            let start = if addr == 0 { page_up(old(brk).next_mmap as int) } else { addr - addr % 4096 };
            &&& r == if in_mmap_area(start, size) {
                Ok::<(u64, u64), Errno>((start as u64, size as u64))
            } else {
                Err(Errno::ENOMEM)
            }
            &&& final(brk).next_mmap == if addr == 0 && start + size + 4096 <= u64::MAX {
                (start + size + 4096) as u64
            } else {
                old(brk).next_mmap
            }
        }),
        final(brk).start == old(brk).start,
        final(brk).end == old(brk).end,
        final(brk).limit == old(brk).limit,
        r matches Ok((start, size)) ==> start % 4096 == 0 && size % 4096 == 0 && size >= len
            && size > 0 && in_mmap_area(start as int, size as int),
{
    proof {
        lemma_page_up(if len == 0 { 1int } else { len as int });
        lemma_page_up(old(brk).next_mmap as int);
        if addr != 0 {
            assert((addr - addr % 4096) % 4096 == 0) by (nonlinear_arith);
        }
    }
    let size = align_up(if len > 1 { len } else { 1 }, PAGE_SIZE_4K);
    let start = if addr == 0 {
        let s = align_up(brk.next_mmap, PAGE_SIZE_4K);
        if s <= u64::MAX - size - PAGE_SIZE_4K {
            brk.next_mmap = s + size + PAGE_SIZE_4K;
        } else {
            return Err(Errno::ENOMEM);
        }
        s
    } else {
        align_down(addr, PAGE_SIZE_4K)
    };
    if !fits_mmap_area(start, size) {
        return Err(Errno::ENOMEM);
    }
    Ok((start, size))
}

/// `munmap` and `mprotect`: the page-rounded range `[start, end)` that covers
/// `[addr, addr + len)` (saturating at the top), or `EINVAL` when it is empty.
pub fn page_range(addr: u64, len: u64) -> (r: Result<(u64, u64), Errno>)
    ensures
        ({
            let hi: int = if addr + len > u64::MAX { u64::MAX as int } else { addr + len };
            let start = addr - addr % 4096;
            let end = if hi == 0 { 0 } else if hi + 4095 > u64::MAX { -1 } else { page_up(hi) };
            r == if len == 0 || end <= start {
                Err::<(u64, u64), Errno>(Errno::EINVAL)
            } else {
                Ok((start as u64, end as u64))
            }
        }),
{
    if len == 0 {
        return Err(Errno::EINVAL);
    }
    let start = align_down(addr, PAGE_SIZE_4K);
    let hi = addr.saturating_add(len);
    if hi > u64::MAX - 4095 {
        return Err(Errno::EINVAL);
    }
    let end = align_up(hi, PAGE_SIZE_4K);
    if end <= start {
        return Err(Errno::EINVAL);
    }
    Ok((start, end))
}

/// `shmat`: the address at which to attach a segment of `size` bytes; an
/// explicit `shmaddr` must be page aligned (or rounded with `SHM_RND`) and
/// lie in the `mmap` area, otherwise the next free `mmap` address is taken.
pub fn choose_shmat_addr(brk: &mut BrkState, shmaddr: u64, flags: i32, size: u64) -> (r: Result<u64, Errno>)
    requires
        size <= u64::MAX - 8192,
        old(brk).next_mmap <= u64::MAX - 4096,
    ensures
        shmaddr != 0 ==> *final(brk) == *old(brk) && r == ({
            let addr = if flags & SHM_RND_FLAG != 0 { shmaddr - shmaddr % 4096 } else { shmaddr as int };
            if flags & SHM_RND_FLAG == 0 && shmaddr % 4096 != 0 {
                Err(Errno::EINVAL)
            } else if !in_mmap_area(addr, size as int) {
                Err(Errno::EINVAL)
            } else {
                Ok(addr as u64)
            }
        }),
        shmaddr == 0 ==> ({
            let start = page_up(old(brk).next_mmap as int);
            &&& r == if in_mmap_area(start, size as int) { Ok(start as u64) } else { Err(Errno::ENOMEM) }
            &&& final(brk).next_mmap == if in_mmap_area(start, size as int) {
                (start + size + 4096) as u64
            } else {
                old(brk).next_mmap
            }
            &&& final(brk).start == old(brk).start
            &&& final(brk).end == old(brk).end
            &&& final(brk).limit == old(brk).limit
        }),
{
    if shmaddr != 0 {
        let addr = if flags & SHM_RND_FLAG != 0 {
            align_down(shmaddr, PAGE_SIZE_4K)
        } else if shmaddr % PAGE_SIZE_4K == 0 {
            shmaddr
        } else {
            return Err(Errno::EINVAL);
        };
        if !fits_mmap_area(addr, size) {
            return Err(Errno::EINVAL);
        }
        return Ok(addr);
    }
    let start = align_up(brk.next_mmap, PAGE_SIZE_4K);
    if !fits_mmap_area(start, size) {
        return Err(Errno::ENOMEM);
    }
    brk.next_mmap = start + size + PAGE_SIZE_4K;
    Ok(start)
}

/// Length in bytes of a NUMA node mask of `maxnode` bits, in whole words.
pub fn nodemask_len(maxnode: u64) -> (r: u64)
    ensures
        r == if maxnode == 0 { 0 } else { ((maxnode as int + 63) / 64) * 8 },
{
    if maxnode == 0 {
        0
    } else {
        (maxnode / 64 + if maxnode % 64 != 0 { 1 } else { 0 }) * 8
    }
}


/// Where a program's interpreter is placed: the first page at least a page
/// above the program's end and inside the `mmap` area.
pub fn interp_load_base(max_mapped_end: u64) -> (r: u64)
    requires
        max_mapped_end + 4096 + 4095 <= u64::MAX,
    ensures
        r == page_up(
            if max_mapped_end + 4096 > USER_MMAP_BASE {
                max_mapped_end + 4096
            } else {
                USER_MMAP_BASE as int
            },
        ),
{
    let low = if max_mapped_end + PAGE_SIZE_4K > USER_MMAP_BASE {
        max_mapped_end + PAGE_SIZE_4K
    } else {
        USER_MMAP_BASE
    };
    align_up(low, PAGE_SIZE_4K)
}

/// The program break of a program whose image ends at `main_end`, with
/// everything mapped so far ending at `max_mapped_end`: the break area
/// starts on the page after the image and may grow by
/// `USER_BRK_GROW_SIZE`; `mmap` starts a page above both the mappings and
/// the break area, and never below the `mmap` area. `None` when the break
/// area would reach the stack.
pub open spec fn initial_brk_of(main_end: int, max_mapped_end: int) -> Option<BrkState> {
    let start = page_up(main_end);
    let limit = page_up(start + USER_BRK_GROW_SIZE);
    if limit > USER_STACK_TOP - USER_STACK_SIZE {
        None
    } else {
        let a = max_mapped_end + 4096;
        let b = if limit + 4096 > USER_MMAP_BASE {
            limit + 4096
        } else {
            USER_MMAP_BASE as int
        };
        Some(
            BrkState {
                start: start as u64,
                end: start as u64,
                limit: limit as u64,
                next_mmap: page_up(if a > b { a } else { b }) as u64,
            },
        )
    }
}

/// Sets up the program break of a newly loaded program.
pub fn initial_brk(main_end: u64, max_mapped_end: u64) -> (r: Option<BrkState>)
    requires
        page_up(main_end as int) + USER_BRK_GROW_SIZE + 4095 <= u64::MAX,
        max_mapped_end + 4096 + 4095 <= u64::MAX,
    ensures
        r == initial_brk_of(main_end as int, max_mapped_end as int),
{
    let start = align_up(main_end, PAGE_SIZE_4K);
    let limit = align_up(start + USER_BRK_GROW_SIZE, PAGE_SIZE_4K);
    if limit > USER_STACK_TOP - USER_STACK_SIZE {
        return None;
    }
    let a = max_mapped_end + PAGE_SIZE_4K;
    let b = if limit + PAGE_SIZE_4K > USER_MMAP_BASE {
        limit + PAGE_SIZE_4K
    } else {
        USER_MMAP_BASE
    };
    let next = align_up(if a > b { a } else { b }, PAGE_SIZE_4K);
    Some(BrkState { start, end: start, limit, next_mmap: next })
}

/// The page-aligned top of the user stack and its base.
pub fn user_stack_range() -> (r: (u64, u64))
    ensures
        r.0 == USER_STACK_TOP - USER_STACK_TOP % 4096,
        r.1 == r.0 - USER_STACK_SIZE,
{
    let top = align_down(USER_STACK_TOP, PAGE_SIZE_4K);
    (top, top - USER_STACK_SIZE)
}

/// `mmap` protection: readable.
pub const PROT_READ: u32 = 1;
/// `mmap` protection: writable.
pub const PROT_WRITE: u32 = 2;
/// `mmap` protection: executable.
pub const PROT_EXEC: u32 = 4;
/// ELF segment flag: executable.
pub const PF_X: u32 = 1;
/// ELF segment flag: writable.
pub const PF_W: u32 = 2;
/// ELF segment flag: readable.
pub const PF_R: u32 = 4;
/// Largest range (in bytes) whose writable pages `mprotect` touches in
/// advance, and the size of a thread stack the tracing looks at.
pub const SMALL_RANGE: u64 = 0x40000;

/// The access rights of a user mapping; user mode may always reach it.
#[derive(Clone, Copy, Debug, PartialEq, Eq, Structural)]
pub struct MapPerms {
    pub read: bool,
    pub write: bool,
    pub execute: bool,
}

/// The rights of an `mmap`/`mprotect` protection: writing or executing
/// implies reading.
pub fn mmap_prot_to_perms(prot: u32) -> (r: MapPerms)
    ensures
        r.write == (prot & PROT_WRITE != 0),
        r.execute == (prot & PROT_EXEC != 0),
        r.read == (prot & PROT_READ != 0 || prot & PROT_WRITE != 0 || prot & PROT_EXEC != 0),
{
    let write = prot & PROT_WRITE != 0;
    let execute = prot & PROT_EXEC != 0;
    MapPerms { read: prot & PROT_READ != 0 || write || execute, write, execute }
}

/// The rights of an ELF segment with flags `flags`: executable code is
/// readable too.
pub fn perms_from_ph(flags: u32) -> (r: MapPerms)
    ensures
        r.read == (flags & PF_R != 0 || flags & PF_X != 0),
        r.write == (flags & PF_W != 0),
        r.execute == (flags & PF_X != 0),
{
    MapPerms {
        read: flags & PF_R != 0 || flags & PF_X != 0,
        write: flags & PF_W != 0,
        execute: flags & PF_X != 0,
    }
}

/// How `munmap` removes a range.
#[derive(Clone, Copy, Debug, PartialEq, Eq, Structural)]
pub enum UnmapPlan {
    /// Unmap `[start, start + len)` now.
    Now { start: u64, len: u64 },
    /// The range holds the caller's own stack: remember it and unmap it when
    /// the thread leaves user space.
    Deferred { start: u64, len: u64 },
}

/// The page-rounded range of `munmap(addr, len)` as `page_range` computes it.
pub open spec fn munmap_range(addr: u64, len: u64) -> Option<(int, int)> {
    let hi: int = if addr + len > u64::MAX { u64::MAX as int } else { addr + len };
    let start = addr - addr % 4096;
    let end = if hi == 0 { 0 } else if hi + 4095 > u64::MAX { -1 } else { page_up(hi) };
    if len == 0 || end <= start { None } else { Some((start, end)) }
}

/// `munmap(addr, len)` by a thread whose stack pointer is `sp`; a range
/// that holds the stack is deferred when the thread has the bookkeeping for
/// it (`can_defer`).
pub fn munmap_plan(addr: u64, len: u64, sp: u64, can_defer: bool) -> (r: Result<UnmapPlan, Errno>)
    ensures
        r == match munmap_range(addr, len) {
            None => Err::<UnmapPlan, Errno>(Errno::EINVAL),
            Some((start, end)) => Ok(if can_defer && start <= sp < end {
                UnmapPlan::Deferred { start: start as u64, len: (end - start) as u64 }
            } else {
                UnmapPlan::Now { start: start as u64, len: (end - start) as u64 }
            }),
        },
{
    let (start, end) = page_range(addr, len)?;
    if can_defer && start <= sp && sp < end {
        Ok(UnmapPlan::Deferred { start, len: end - start })
    } else {
        Ok(UnmapPlan::Now { start, len: end - start })
    }
}

/// What `mprotect` changes: the range, its new rights, and the pages it
/// touches in advance once the change is made.
#[derive(Clone, Copy, Debug, PartialEq, Eq, Structural)]
pub struct ProtectPlan {
    pub start: u64,
    pub len: u64,
    pub perms: MapPerms,
    /// The top two pages of a small range made writable, so that a thread
    /// stack created without access can be used at once.
    pub prefault: Option<PageSpan>,
}

/// The pages of `[from, to)`.
#[derive(Clone, Copy, Debug, PartialEq, Eq, Structural)]
pub struct PageSpan {
    pub from: u64,
    pub to: u64,
}

/// `mprotect(addr, len, prot)`.
pub fn mprotect_plan(addr: u64, len: u64, prot: u32) -> (r: Result<ProtectPlan, Errno>)
    ensures
        munmap_range(addr, len) is None ==> r == Err::<ProtectPlan, Errno>(Errno::EINVAL),
        munmap_range(addr, len) matches Some((start, end)) ==> (r matches Ok(p) && {
            &&& p.start == start
            &&& p.len == end - start
            &&& p.perms == mmap_prot_to_perms_spec(prot)
            &&& p.prefault == if prot & PROT_WRITE != 0 && end - start <= SMALL_RANGE {
                Some(PageSpan { from: (if end - 8192 > start { end - 8192 } else { start }) as u64, to: end as u64 })
            } else {
                None
            }
        }),
{
    let (start, end) = page_range(addr, len)?;
    let perms = mmap_prot_to_perms(prot);
    let prefault = if prot & PROT_WRITE != 0 && end - start <= SMALL_RANGE {
        let low = end.saturating_sub(2 * PAGE_SIZE_4K);
        Some(PageSpan { from: if low > start { low } else { start }, to: end })
    } else {
        None
    };
    Ok(ProtectPlan { start, len: end - start, perms, prefault })
}

/// The rights `mmap_prot_to_perms` gives a protection.
pub open spec fn mmap_prot_to_perms_spec(prot: u32) -> MapPerms {
    MapPerms {
        read: prot & PROT_READ != 0 || prot & PROT_WRITE != 0 || prot & PROT_EXEC != 0,
        write: prot & PROT_WRITE != 0,
        execute: prot & PROT_EXEC != 0,
    }
}

/// What follows a page fault.
#[derive(Clone, Copy, Debug, PartialEq, Eq, Structural)]
pub enum FaultFollowup {
    /// The fault handler reports this.
    Done(bool),
    /// Send `SIGSEGV` to the faulting thread.
    DeliverSegv,
    /// End the thread's process with this exit code.
    Terminate(i32),
}

/// Exit code of a process killed by `SIGSEGV`.
pub const SEGV_EXIT_CODE: i32 = 128 + 11;

/// What follows a fault that the address space `handled` or not: an
/// unhandled fault from user mode is turned into `SIGSEGV` when the thread
/// can take it (`can_signal`: it is known and does not block the signal),
/// and otherwise ends the process.
pub fn page_fault_followup(handled: bool, from_user: bool, can_signal: bool) -> (r: FaultFollowup)
    ensures
        r == if handled || !from_user {
            FaultFollowup::Done(handled)
        } else if can_signal {
            FaultFollowup::DeliverSegv
        } else {
            FaultFollowup::Terminate(SEGV_EXIT_CODE)
        },
{
    if handled || !from_user {
        FaultFollowup::Done(handled)
    } else if can_signal {
        FaultFollowup::DeliverSegv
    } else {
        FaultFollowup::Terminate(SEGV_EXIT_CODE)
    }
}

/// What follows an attempt to send `SIGSEGV` for an unhandled fault.
pub fn segv_delivery_followup(delivered: bool) -> (r: FaultFollowup)
    ensures
        r == if delivered { FaultFollowup::Done(true) } else { FaultFollowup::Terminate(SEGV_EXIT_CODE) },
{
    if delivered { FaultFollowup::Done(true) } else { FaultFollowup::Terminate(SEGV_EXIT_CODE) }
}

} // verus!
