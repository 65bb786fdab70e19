use vstd::prelude::*;
use crate::path::views;
use crate::bytes::append_bytes;

verus! {

/// Auxiliary vector keys.
pub const AT_NULL: u64 = 0;
pub const AT_PHDR: u64 = 3;
pub const AT_PHENT: u64 = 4;
pub const AT_PHNUM: u64 = 5;
pub const AT_PAGESZ: u64 = 6;
pub const AT_BASE: u64 = 7;
pub const AT_FLAGS: u64 = 8;
pub const AT_ENTRY: u64 = 9;
pub const AT_UID: u64 = 11;
pub const AT_EUID: u64 = 12;
pub const AT_GID: u64 = 13;
pub const AT_EGID: u64 = 14;
pub const AT_PLATFORM: u64 = 15;
pub const AT_HWCAP: u64 = 16;
pub const AT_CLKTCK: u64 = 17;
pub const AT_SECURE: u64 = 23;
pub const AT_BASE_PLATFORM: u64 = 24;
pub const AT_RANDOM: u64 = 25;
pub const AT_HWCAP2: u64 = 26;
pub const AT_EXECFN: u64 = 31;
/// Clock ticks per second reported in the auxiliary vector.
pub const AUX_CLOCK_TICKS: u64 = 100;
/// The byte that fills the `AT_RANDOM` block.
pub const RANDOM_FILL: u8 = 0x55;

/// The eight little-endian bytes of `w`.
pub open spec fn le_bytes(w: u64) -> Seq<u8> {
    seq![
        (w & 0xff) as u8,
        ((w >> 8) & 0xff) as u8,
        ((w >> 16) & 0xff) as u8,
        ((w >> 24) & 0xff) as u8,
        ((w >> 32) & 0xff) as u8,
        ((w >> 40) & 0xff) as u8,
        ((w >> 48) & 0xff) as u8,
        ((w >> 56) & 0xff) as u8,
    ]
}

/// The bytes of `words`, each in little-endian order.
pub open spec fn words_bytes(words: Seq<u64>) -> Seq<u8>
    decreases words.len(),
{
    if words.len() == 0 {
        Seq::empty()
    } else {
        words_bytes(words.drop_last()) + le_bytes(words.last())
    }
}

/// The memory image of `words` as a 64-bit little-endian machine stores it.
pub fn words_to_bytes(words: &[u64]) -> (r: Vec<u8>)
    ensures
        r@ == words_bytes(words@),
        r@.len() == 8 * words@.len(),
{
    let mut out: Vec<u8> = Vec::new();
    let mut i: usize = 0;
    while i < words.len()
        invariant
            i <= words@.len(),
            out@ == words_bytes(words@.subrange(0, i as int)),
            out@.len() == 8 * i,
        decreases words@.len() - i,
    {
        let w = words[i];
        out.push((w & 0xff) as u8);
        out.push(((w >> 8) & 0xff) as u8);
        out.push(((w >> 16) & 0xff) as u8);
        out.push(((w >> 24) & 0xff) as u8);
        out.push(((w >> 32) & 0xff) as u8);
        out.push(((w >> 40) & 0xff) as u8);
        out.push(((w >> 48) & 0xff) as u8);
        out.push(((w >> 56) & 0xff) as u8);
        let ghost prefix = words@.subrange(0, i + 1);
        assert(prefix.drop_last() =~= words@.subrange(0, i as int));
        assert(prefix.last() == w);
        assert(out@ =~= words_bytes(words@.subrange(0, i as int)) + le_bytes(w));
        i = i + 1;
    }
    assert(words@.subrange(0, words@.len() as int) =~= words@);
    out
}

/// The stack pointer after pushing `len` bytes below `sp` at alignment
/// `align` (the subtraction stops at 0).
pub open spec fn push_down(sp: int, len: int, align: int) -> int {
    let s = if sp >= len {
        sp - len
    } else {
        0
    };
    s - s % align
}

/// Where the strings of `args` go when they are pushed, NUL-terminated, below
/// `sp`, the last one first; in the order of `args`.
pub open spec fn arg_slots(sp: int, args: Seq<Seq<u8>>) -> Seq<int>
    decreases args.len(),
{
    if args.len() == 0 {
        Seq::empty()
    } else {
        let p = push_down(sp, args.last().len() + 1int, 1);
        arg_slots(p, args.drop_last()).push(p)
    }
}

/// The stack pointer once the strings of `args` are pushed below `sp`.
pub open spec fn args_floor(sp: int, args: Seq<Seq<u8>>) -> int {
    if args.len() == 0 {
        sp
    } else {
        arg_slots(sp, args)[0]
    }
}

/// The auxiliary vector, as key-value words.
pub open spec fn aux_words(
    platform: u64,
    random: u64,
    phdr: u64,
    phent: u64,
    phnum: u64,
    interp_base: u64,
    entry: u64,
    execfn: u64,
) -> Seq<u64> {
    seq![
        AT_PAGESZ, 4096, AT_UID, 0, AT_EUID, 0, AT_GID, 0, AT_EGID, 0, AT_SECURE, 0, AT_FLAGS, 0,
        AT_CLKTCK, AUX_CLOCK_TICKS, AT_HWCAP, 0, AT_HWCAP2, 0, AT_PLATFORM, platform,
        AT_BASE_PLATFORM, platform, AT_RANDOM, random, AT_PHDR, phdr, AT_PHENT, phent, AT_PHNUM,
        phnum, AT_BASE, interp_base, AT_ENTRY, entry, AT_EXECFN, execfn, AT_NULL, 0,
    ]
}

/// One block of bytes to store at an address of the new stack.
#[derive(Debug)]
pub struct StackWrite {
    pub addr: u64,
    pub bytes: Vec<u8>,
}

/// What to store on a new program's stack, and where its stack pointer ends.
#[derive(Debug)]
pub struct StackPlan {
    pub writes: Vec<StackWrite>,
    pub sp: u64,
}

/// The stack does not have room for what the program starts with.
#[derive(Clone, Copy, Debug, PartialEq, Eq, Structural)]
pub struct StackOverflow;

/// `s` followed by a NUL byte.
pub open spec fn cstr(s: Seq<u8>) -> Seq<u8> {
    s.push(0)
}

/// The view of a stack write.
pub open spec fn write_view(w: StackWrite) -> (int, Seq<u8>) {
    (w.addr as int, w.bytes@)
}

/// A copy of `s` with a NUL byte after it.
fn nul_terminated(s: &[u8]) -> (r: Vec<u8>)
    ensures
        r@ == cstr(s@),
{
    let mut v: Vec<u8> = Vec::new();
    append_bytes(&mut v, s);
    v.push(0);
    assert(v@ =~= cstr(s@));
    v
}

/// `sp` lowered by `len` bytes (stopping at 0) and aligned down to `align`.
fn push_pos(sp: u64, len: u64, align: u64) -> (r: u64)
    requires
        align == 1 || align == 16,
    ensures
        r == push_down(sp as int, len as int, align as int),
        r <= sp,
{
    let s = sp.saturating_sub(len);
    s - s % align
}


/// `sp` lowered by a string of `len` bytes and its NUL (stopping at 0).
fn push_str_pos(sp: u64, len: usize) -> (r: u64)
    ensures
        r == push_down(sp as int, len + 1int, 1),
        r <= sp,
{
    sp.saturating_sub(len as u64).saturating_sub(1)
}

pub proof fn lemma_arg_slots(sp: int, args: Seq<Seq<u8>>)
    requires
        sp >= 0,
    ensures
        arg_slots(sp, args).len() == args.len(),
        args_floor(sp, args) <= sp,
        args_floor(sp, args) >= 0,
    decreases args.len(),
{
    if args.len() > 0 {
        let p = push_down(sp, args.last().len() + 1int, 1);
        lemma_arg_slots(p, args.drop_last());
    }
}

/// The words at the stack pointer of a new program: `argc`, the argument
/// pointers, the empty argument and environment terminators, then the
/// auxiliary vector.
pub open spec fn initial_words(slots: Seq<int>, aux: Seq<u64>) -> Seq<u64> {
    seq![slots.len() as u64] + slots.map_values(|x: int| x as u64) + seq![0u64, 0u64] + aux
}

/// The plan that `build_initial_stack` must produce, or `None` when the
/// stack overflows.
pub open spec fn stack_layout(
    base: int,
    top: int,
    argv: Seq<Seq<u8>>,
    execfn: Seq<u8>,
    platform: Seq<u8>,
    entry: u64,
    interp_base: u64,
    phdr: u64,
    phent: u64,
    phnum: u64,
) -> Option<(Seq<(int, Seq<u8>)>, int)> {
    let rnd = push_down(top, 16, 16);
    let ex = push_down(rnd, execfn.len() + 1int, 1);
    let pl = push_down(ex, platform.len() + 1int, 1);
    let slots = arg_slots(pl, argv);
    let low = args_floor(pl, argv);
    let words = initial_words(
        slots,
        aux_words(pl as u64, rnd as u64, phdr, phent, phnum, interp_base, entry, ex as u64),
    );
    let sp = push_down(low, 8 * words.len() as int, 16);
    let n = argv.len();
    if rnd < base || ex < base || pl < base || low < base || sp < base || sp + 8 * words.len()
        > top {
        None
    } else {
        Some(
            (
                seq![(rnd, Seq::new(16, |i: int| RANDOM_FILL)), (ex, cstr(execfn)), (pl, cstr(platform))]
                    + Seq::new(n, |k: int| (slots[n - 1 - k], cstr(argv[n - 1 - k])))
                    + seq![(sp, words_bytes(words))],
                sp,
            ),
        )
    }
}

/// Lays out the stack of a new program between `stack_base` and
/// `stack_top`: a random block, the executable's path, the platform name,
/// the argument strings, then the argument vector and auxiliary vector
/// words at a 16-byte aligned stack pointer. The caller stores each block in
/// order; the stack pointer is where the program starts.
pub fn build_initial_stack(
    stack_base: u64,
    stack_top: u64,
    argv: &[Vec<u8>],
    execfn: &[u8],
    platform: &[u8],
    entry: u64,
    interp_base: u64,
    phdr: u64,
    phent: u64,
    phnum: u64,
) -> (r: Result<StackPlan, StackOverflow>)
    ensures
        match (
            r,
            stack_layout(
                stack_base as int,
                stack_top as int,
                views(argv@),
                execfn@,
                platform@,
                entry,
                interp_base,
                phdr,
                phent,
                phnum,
            ),
        ) {
            (Err(_), None) => true,
            (Ok(plan), Some((writes, sp))) => plan.writes@.map_values(|w: StackWrite| write_view(w))
                == writes && plan.sp == sp,
            _ => false,
        },
{
    let ghost a = views(argv@);
    let ghost n = a.len();
    let mut writes: Vec<StackWrite> = Vec::new();
    let rnd = push_pos(stack_top, 16, 16);
    if rnd < stack_base {
        return Err(StackOverflow);
    }
    let mut block: Vec<u8> = Vec::new();
    let mut i: usize = 0;
    while i < 16
        invariant
            i <= 16,
            block@ =~= Seq::new(i as nat, |j: int| RANDOM_FILL),
        decreases 16 - i,
    {
        block.push(RANDOM_FILL);
        i = i + 1;
    }
    writes.push(StackWrite { addr: rnd, bytes: block });
    let ex = push_str_pos(rnd, execfn.len());
    if ex < stack_base {
        return Err(StackOverflow);
    }
    writes.push(StackWrite { addr: ex, bytes: nul_terminated(execfn) });
    let pl = push_str_pos(ex, platform.len());
    if pl < stack_base {
        return Err(StackOverflow);
    }
    writes.push(StackWrite { addr: pl, bytes: nul_terminated(platform) });
    let ghost head = writes@.map_values(|w: StackWrite| write_view(w));
    // Argument strings, the last one first.
    let mut slots_rev: Vec<u64> = Vec::new();
    let mut cur = pl;
    let mut k: usize = 0;
    let ghost mut done: Seq<int> = Seq::empty();
    proof {
        assert(a.take(n as int) =~= a);
        lemma_arg_slots(pl as int, a);
    }
    while k < argv.len()
        invariant
            a == views(argv@),
            n == a.len(),
            rnd == push_down(stack_top as int, 16, 16),
            ex == push_down(rnd as int, execfn@.len() + 1int, 1),
            pl == push_down(ex as int, platform@.len() + 1int, 1),
            k <= n,
            stack_base <= cur <= pl,
            done.len() == k,
            k > 0 ==> done[0] == cur,
            arg_slots(pl as int, a) == arg_slots(cur as int, a.take(n - k)) + done,
            slots_rev@.len() == k,
            forall|j: int| 0 <= j < k ==> #[trigger] slots_rev@[j] == done[k - 1 - j],
            writes@.map_values(|w: StackWrite| write_view(w)) == head + Seq::new(
                k as nat,
                |j: int| (done[k - 1 - j], cstr(a[n - 1 - j])),
            ),
            args_floor(pl as int, a) == args_floor(cur as int, a.take(n - k)),
        decreases n - k,
    {
        let idx = argv.len() - 1 - k;
        let arg = &argv[idx];
        let p = push_str_pos(cur, arg.len());
        let ghost m = n - k;
        let ghost t = a.take(m);
        proof {
            assert(t.drop_last() =~= a.take(m - 1));
            assert(t.last() == a[m - 1]);
            assert(a[m - 1] == arg@);
            lemma_arg_slots(p as int, a.take(m - 1));
        }
        if p < stack_base {
            proof {
                assert(args_floor(cur as int, t) == args_floor(p as int, a.take(m - 1))) by {
                    if m - 1 > 0 {
                        lemma_arg_slots(p as int, a.take(m - 1));
                    }
                }
                assert(args_floor(pl as int, a) < stack_base);
                assert(stack_layout(
                    stack_base as int,
                    stack_top as int,
                    a,
                    execfn@,
                    platform@,
                    entry,
                    interp_base,
                    phdr,
                    phent,
                    phnum,
                ) is None);
            }
            return Err(StackOverflow);
        }
        let ghost old_done = done;
        let ghost before = writes@.map_values(|w: StackWrite| write_view(w));
        proof {
            done = seq![p as int] + old_done;
            assert(arg_slots(cur as int, t) == arg_slots(p as int, a.take(m - 1)).push(p as int));
            assert(arg_slots(pl as int, a) =~= arg_slots(p as int, a.take(m - 1)) + done);
        }
        writes.push(StackWrite { addr: p, bytes: nul_terminated(arg.as_slice()) });
        slots_rev.push(p);
        proof {
            assert(writes@.map_values(|w: StackWrite| write_view(w)) =~= before.push(
                (p as int, cstr(a[n - 1 - k])),
            ));
            assert(head + Seq::new((k + 1) as nat, |j: int| (done[k + 1 - 1 - j], cstr(a[n - 1 - j])))
                =~= (head + Seq::new(k as nat, |j: int| (old_done[k - 1 - j], cstr(a[n - 1 - j])))).push(
                (p as int, cstr(a[n - 1 - k])),
            ));
            assert(args_floor(cur as int, t) == args_floor(p as int, a.take(m - 1))) by {
                if m - 1 > 0 {
                    lemma_arg_slots(p as int, a.take(m - 1));
                }
            }
        }
        cur = p;
        k = k + 1;
    }
    proof {
        assert(a.take(0) =~= Seq::<Seq<u8>>::empty());
        assert(arg_slots(pl as int, a) =~= done);
    }
    let low = cur;
    // The argument vector and the auxiliary vector.
    let mut words: Vec<u64> = Vec::new();
    words.push(argv.len() as u64);
    let mut j: usize = 0;
    while j < slots_rev.len()
        invariant
            j <= slots_rev@.len(),
            slots_rev@.len() == n,
            n == a.len(),
            done == arg_slots(pl as int, a),
            done.len() == n,
            forall|i: int| 0 <= i < n ==> #[trigger] slots_rev@[i] == done[n - 1 - i],
            words@ =~= seq![n as u64] + done.subrange(0, j as int).map_values(|x: int| x as u64),
        decreases slots_rev@.len() - j,
    {
        let v = slots_rev[slots_rev.len() - 1 - j];
        words.push(v);
        assert(done.subrange(0, j + 1) =~= done.subrange(0, j as int).push(done[j as int]));
        j = j + 1;
    }
    assert(done.subrange(0, n as int) =~= done);
    words.push(0);
    words.push(0);
    let aux: [u64; 40] = [
        AT_PAGESZ, 4096, AT_UID, 0, AT_EUID, 0, AT_GID, 0, AT_EGID, 0, AT_SECURE, 0, AT_FLAGS, 0,
        AT_CLKTCK, AUX_CLOCK_TICKS, AT_HWCAP, 0, AT_HWCAP2, 0, AT_PLATFORM, pl,
        AT_BASE_PLATFORM, pl, AT_RANDOM, rnd, AT_PHDR, phdr, AT_PHENT, phent, AT_PHNUM,
        phnum, AT_BASE, interp_base, AT_ENTRY, entry, AT_EXECFN, ex, AT_NULL, 0,
    ];
    let mut q: usize = 0;
    let ghost w0 = words@;
    while q < 40
        invariant
            q <= 40,
            words@ == w0 + aux@.subrange(0, q as int),
        decreases 40 - q,
    {
        words.push(aux[q]);
        assert(aux@.subrange(0, q + 1) =~= aux@.subrange(0, q as int).push(aux@[q as int]));
        q = q + 1;
    }
    proof {
        assert(aux@.subrange(0, 40) =~= aux@);
        assert(aux@ =~= aux_words(pl, rnd, phdr, phent, phnum, interp_base, entry, ex));
        assert(words@ =~= initial_words(
            arg_slots(pl as int, a),
            aux_words(pl, rnd, phdr, phent, phnum, interp_base, entry, ex),
        ));
    }
    let bytes = words_to_bytes(words.as_slice());
    let sp = push_pos(low, bytes.len() as u64, 16);
    if sp < stack_base || bytes.len() as u64 > stack_top - sp {
        return Err(StackOverflow);
    }
    let ghost before = writes@.map_values(|w: StackWrite| write_view(w));
    writes.push(StackWrite { addr: sp, bytes });
    proof {
        assert(writes@.map_values(|w: StackWrite| write_view(w)) =~= before.push(
            (sp as int, words_bytes(words@)),
        ));
    }
    Ok(StackPlan { writes, sp })
}


pub proof fn lemma_words_bytes_len(words: Seq<u64>)
    ensures
        words_bytes(words).len() == 8 * words.len(),
    decreases words.len(),
{
    if words.len() > 0 {
        lemma_words_bytes_len(words.drop_last());
    }
}

/// Without reaching address 0, each argument string is stored below the
/// ones pushed before it, above `base`.
pub proof fn lemma_arg_slots_bounds(sp: int, args: Seq<Seq<u8>>, base: int)
    requires
        sp >= 0,
        base > 0,
        args_floor(sp, args) >= base,
    ensures
        forall|k: int|
            0 <= k < args.len() ==> base <= #[trigger] arg_slots(sp, args)[k] && arg_slots(
                sp,
                args,
            )[k] + args[k].len() + 1 <= sp,
    decreases args.len(),
{
    if args.len() > 0 {
        let l = args.last().len() + 1int;
        let p = push_down(sp, l, 1);
        let dl = args.drop_last();
        lemma_arg_slots(p, dl);
        lemma_arg_slots(sp, args);
        assert(p >= 0);
        assert(p >= base) by {
            if dl.len() > 0 {
                assert(arg_slots(sp, args)[0] == arg_slots(p, dl)[0]);
            } else {
                assert(arg_slots(sp, args)[0] == p);
            }
        }
        assert(p + l == sp) by {
            let t = if sp >= l { sp - l } else { 0 };
            assert(t % 1 == 0);
        }
        if dl.len() > 0 {
            assert(arg_slots(sp, args)[0] == arg_slots(p, dl)[0]);
            lemma_arg_slots_bounds(p, dl, base);
        }
        assert forall|k: int| 0 <= k < args.len() implies base <= #[trigger] arg_slots(
            sp,
            args,
        )[k] && arg_slots(sp, args)[k] + args[k].len() + 1 <= sp by {
            if k < dl.len() {
                assert(arg_slots(sp, args)[k] == arg_slots(p, dl)[k]);
                assert(args[k] == dl[k]);
            }
        }
    }
}

/// A new program's stack pointer is 16-byte aligned, and every block put on
/// its stack lies between the stack's base and top (the base above 0, so
/// that no push stops at address 0).
pub proof fn stack_layout_in_bounds(
    base: int,
    top: int,
    argv: Seq<Seq<u8>>,
    execfn: Seq<u8>,
    platform: Seq<u8>,
    entry: u64,
    interp_base: u64,
    phdr: u64,
    phent: u64,
    phnum: u64,
)
    requires
        0 < base <= top,
    ensures
        stack_layout(base, top, argv, execfn, platform, entry, interp_base, phdr, phent, phnum)
            matches Some((writes, sp)) ==> {
            &&& sp % 16 == 0
            &&& base <= sp
            &&& forall|i: int|
                0 <= i < writes.len() ==> base <= #[trigger] writes[i].0 && writes[i].0
                    + writes[i].1.len() <= top
        },
{
    let rnd = push_down(top, 16, 16);
    let ex = push_down(rnd, execfn.len() + 1int, 1);
    let pl = push_down(ex, platform.len() + 1int, 1);
    let slots = arg_slots(pl, argv);
    let low = args_floor(pl, argv);
    let words = initial_words(
        slots,
        aux_words(pl as u64, rnd as u64, phdr, phent, phnum, interp_base, entry, ex as u64),
    );
    let len = 8 * words.len() as int;
    let n = argv.len();
    match stack_layout(base, top, argv, execfn, platform, entry, interp_base, phdr, phent, phnum) {
        Some((writes, sp)) => {
            let t = if low >= len { low - len } else { 0 };
            assert(sp == t - t % 16);
            assert((t - t % 16) % 16 == 0) by (nonlinear_arith);
            let t0 = if top >= 16 { top - 16 } else { 0 };
            assert(rnd == t0 - t0 % 16);
            assert(rnd + 16 <= top) by (nonlinear_arith)
                requires
                    rnd == t0 - t0 % 16,
                    t0 == if top >= 16 { top - 16 } else { 0 },
                    rnd >= base,
                    base > 0,
            ;
            let t1 = if rnd >= execfn.len() + 1 { rnd - (execfn.len() + 1) } else { 0 };
            assert(ex == t1 - t1 % 1);
            assert(t1 % 1 == 0);
            assert(ex + execfn.len() + 1 <= rnd);
            let t2 = if ex >= platform.len() + 1 { ex - (platform.len() + 1) } else { 0 };
            assert(t2 % 1 == 0);
            assert(pl + platform.len() + 1 <= ex);
            lemma_arg_slots(pl, argv);
            lemma_arg_slots_bounds(pl, argv, base);
            lemma_words_bytes_len(words);
            assert forall|i: int| 0 <= i < writes.len() implies base <= #[trigger] writes[i].0
                && writes[i].0 + writes[i].1.len() <= top by {
                if i == 0 {
                } else if i == 1 {
                } else if i == 2 {
                } else if i < 3 + n {
                    let k = n - 1 - (i - 3);
                    assert(writes[i] == (slots[k], cstr(argv[k])));
                } else {
                    assert(writes[i] == (sp, words_bytes(words)));
                }
            }
        },
        None => {},
    }
}

} // verus!
