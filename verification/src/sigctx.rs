use vstd::prelude::*;
use crate::errno::Errno;

verus! {

/// Signal number that musl uses for thread cancellation.
pub const SIGCANCEL_NUM: i32 = 33;

/// The user registers a trap saves: the program counter and the 32
/// architectural integer registers in their architectural order (register 0
/// is the hard-wired zero).
#[derive(Clone, Copy, Debug)]
pub struct UserContext {
    pub pc: u64,
    pub regs: [u64; 32],
}

/// The RISC-V `sigcontext` register block of `ctx`: the program counter in
/// slot 0, then registers `x1` to `x31`.
pub open spec fn riscv_gregs_of(ctx: UserContext) -> Seq<u64> {
    Seq::new(32, |i: int| if i == 0 { ctx.pc } else { ctx.regs@[i] })
}

/// The context a register block restores onto: the program counter and
/// registers 1 to 31 from the block, register 0 cleared.
pub open spec fn restored_from_riscv(gregs: Seq<u64>) -> (u64, Seq<u64>) {
    (gregs[0], Seq::new(32, |i: int| if i == 0 { 0u64 } else { gregs[i] }))
}

/// Saves `ctx` as a RISC-V `sigcontext` register block.
pub fn riscv_sigcontext(ctx: &UserContext) -> (r: [u64; 32])
    ensures
        r@ == riscv_gregs_of(*ctx),
{
    let mut g = ctx.regs;
    g[0] = ctx.pc;
    assert(g@ =~= riscv_gregs_of(*ctx));
    g
}

/// Restores the registers of `ctx` from a RISC-V `sigcontext` block.
pub fn apply_riscv_sigcontext(ctx: &mut UserContext, gregs: &[u64; 32])
    ensures
        (final(ctx).pc, final(ctx).regs@) == restored_from_riscv(gregs@),
{
    let mut r = *gregs;
    r[0] = 0;
    ctx.pc = gregs[0];
    ctx.regs = r;
    assert(ctx.regs@ =~= restored_from_riscv(gregs@).1);
}

/// The LoongArch `mcontext` of `ctx`: the program counter and the 32
/// registers as they are.
pub fn loongarch_mcontext(ctx: &UserContext) -> (r: (u64, [u64; 32]))
    ensures
        r.0 == ctx.pc,
        r.1@ == ctx.regs@,
{
    (ctx.pc, ctx.regs)
}

/// Restores the registers of `ctx` from a LoongArch `mcontext`: the program
/// counter and registers 1 to 31, register 0 cleared.
pub fn apply_loongarch_mcontext(ctx: &mut UserContext, pc: u64, regs: &[u64; 32])
    ensures
        final(ctx).pc == pc,
        final(ctx).regs@ == regs@.update(0, 0u64),
{
    let mut r = *regs;
    r[0] = 0;
    ctx.pc = pc;
    ctx.regs = r;
}

/// A context whose register 0 holds zero, as every trap saves it.
pub open spec fn zero_reg_clear(ctx: UserContext) -> bool {
    ctx.regs@[0] == 0
}

/// Returning from a signal handler gives back the registers that entering it
/// saved: restoring a saved RISC-V register block, or a saved LoongArch
/// context, yields the context it was saved from.
pub proof fn sigreturn_restores(ctx: UserContext)
    requires
        zero_reg_clear(ctx),
    ensures
        restored_from_riscv(riscv_gregs_of(ctx)) == (ctx.pc, ctx.regs@),
        ctx.regs@.update(0, 0u64) == ctx.regs@,
{
    assert(restored_from_riscv(riscv_gregs_of(ctx)).1 =~= ctx.regs@);
    assert(ctx.regs@.update(0, 0u64) =~= ctx.regs@);
}

/// The context of the system-call instruction itself: the program counter
/// moved back over the 4-byte instruction (stopping at 0), so that the call
/// runs again.
pub fn syscall_instruction_context(ctx: &UserContext) -> (r: UserContext)
    ensures
        r.pc == if ctx.pc >= 4 { (ctx.pc - 4) as u64 } else { 0u64 },
        r.regs == ctx.regs,
{
    UserContext { pc: ctx.pc.saturating_sub(4), regs: ctx.regs }
}

/// What `rt_sigreturn` restores.
#[derive(Clone, Copy, Debug)]
pub struct SigreturnOutcome {
    /// The registers to return to user space with.
    pub context: UserContext,
    /// The signal mask saved in the frame, now installed again.
    pub mask: u64,
    /// Whether a cancellation signal must be made pending again.
    pub requeue_cancel: bool,
}

/// `rt_sigreturn` on RISC-V for a thread whose signal frame is at
/// `frame_addr` (0 when none is active) and whose context before the handler
/// is `saved`, given the register block, mask and signal number read from the
/// frame, and whether musl's cancellation is still pending for the thread
/// pointer the block restores (`gregs[4]`).
pub fn riscv_sigreturn(
    frame_addr: u64,
    saved: Option<UserContext>,
    gregs: &[u64; 32],
    frame_mask: u64,
    frame_sig: i32,
    cancel_pending: bool,
) -> (r: Result<SigreturnOutcome, Errno>)
    ensures
        frame_addr == 0 || saved is None ==> r == Err::<SigreturnOutcome, Errno>(Errno::EINVAL),
        frame_addr != 0 && saved is Some ==> (r matches Ok(o) && (o.context.pc, o.context.regs@)
            == restored_from_riscv(gregs@) && o.mask == frame_mask && o.requeue_cancel == (
        frame_sig == SIGCANCEL_NUM && cancel_pending)),
{
    if frame_addr == 0 {
        return Err(Errno::EINVAL);
    }
    let mut ctx = match saved {
        Some(c) => c,
        None => return Err(Errno::EINVAL),
    };
    apply_riscv_sigcontext(&mut ctx, gregs);
    Ok(SigreturnOutcome {
        context: ctx,
        mask: frame_mask,
        requeue_cancel: frame_sig == SIGCANCEL_NUM && cancel_pending,
    })
}

/// `rt_sigreturn` on LoongArch: as on RISC-V, with the frame's `mcontext`
/// (program counter `pc`, registers `regs`; the thread pointer is `regs[2]`).
pub fn loongarch_sigreturn(
    frame_addr: u64,
    saved: Option<UserContext>,
    pc: u64,
    regs: &[u64; 32],
    frame_mask: u64,
    frame_sig: i32,
    cancel_pending: bool,
) -> (r: Result<SigreturnOutcome, Errno>)
    ensures
        frame_addr == 0 || saved is None ==> r == Err::<SigreturnOutcome, Errno>(Errno::EINVAL),
        frame_addr != 0 && saved is Some ==> (r matches Ok(o) && o.context.pc == pc
            && o.context.regs@ == regs@.update(0, 0u64) && o.mask == frame_mask
            && o.requeue_cancel == (frame_sig == SIGCANCEL_NUM && cancel_pending)),
{
    if frame_addr == 0 {
        return Err(Errno::EINVAL);
    }
    let mut ctx = match saved {
        Some(c) => c,
        None => return Err(Errno::EINVAL),
    };
    apply_loongarch_mcontext(&mut ctx, pc, regs);
    Ok(SigreturnOutcome {
        context: ctx,
        mask: frame_mask,
        requeue_cancel: frame_sig == SIGCANCEL_NUM && cancel_pending,
    })
}

/// The two instruction sets user programs run on.
#[derive(Clone, Copy, Debug, PartialEq, Eq, Structural)]
pub enum Isa {
    RiscV64,
    LoongArch64,
}

/// Index of the first argument and return value register (`a0`): `x10` on
/// RISC-V, `r4` on LoongArch.
pub open spec fn a0_index(isa: Isa) -> int {
    match isa {
        Isa::RiscV64 => 10,
        Isa::LoongArch64 => 4,
    }
}

/// Index of the stack pointer: `x2` on RISC-V, `r3` on LoongArch.
pub open spec fn sp_index(isa: Isa) -> int {
    match isa {
        Isa::RiscV64 => 2,
        Isa::LoongArch64 => 3,
    }
}

/// The context a child of `clone` starts from: the parent's registers with
/// `a0` (the call's result in the child) cleared, the stack pointer set to
/// `child_stack` unless that is 0, and the program counter past the
/// four-byte system call instruction.
pub fn child_context(isa: Isa, parent: &UserContext, child_stack: u64) -> (r: UserContext)
    requires
        parent.pc + 4 <= u64::MAX,
    ensures
        r.pc == parent.pc + 4,
        r.regs@ == if child_stack != 0 {
            parent.regs@.update(a0_index(isa), 0u64).update(sp_index(isa), child_stack)
        } else {
            parent.regs@.update(a0_index(isa), 0u64)
        },
{
    let (a0, sp): (usize, usize) = match isa {
        Isa::RiscV64 => (10, 2),
        Isa::LoongArch64 => (4, 3),
    };
    let mut regs = parent.regs;
    regs[a0] = 0;
    if child_stack != 0 {
        regs[sp] = child_stack;
    }
    UserContext { pc: parent.pc + 4, regs }
}

/// What the return path to user space does first.
#[derive(Clone, Copy, Debug, PartialEq, Eq, Structural)]
pub enum ReturnHook {
    /// Nothing to do.
    Proceed,
    /// A handler returned: resume the context saved before it ran.
    RestoreSaved,
    /// Run the handler of the pending signal.
    Deliver,
    /// The pending signal is musl's cancellation: ask `cancel_delivery`.
    AskCancel,
}

/// On the way back to user space: with no signal frame active, a saved
/// context is resumed first; otherwise a pending (nonzero) signal that is not
/// blocked is delivered, the cancellation signal after a further check.
pub open spec fn return_hook_of(frame_active: bool, has_saved: bool, sig: i32, blocked: bool) -> ReturnHook {
    if frame_active {
        ReturnHook::Proceed
    } else if has_saved {
        ReturnHook::RestoreSaved
    } else if sig == 0 || blocked {
        ReturnHook::Proceed
    } else if sig == SIGCANCEL_NUM {
        ReturnHook::AskCancel
    } else {
        ReturnHook::Deliver
    }
}

/// Decides the first step of the return path (see `return_hook_of`).
pub fn return_hook(frame_active: bool, has_saved: bool, sig: i32, blocked: bool) -> (r: ReturnHook)
    ensures
        r == return_hook_of(frame_active, has_saved, sig, blocked),
{
    if frame_active {
        ReturnHook::Proceed
    } else if has_saved {
        ReturnHook::RestoreSaved
    } else if sig == 0 || blocked {
        ReturnHook::Proceed
    } else if sig == SIGCANCEL_NUM {
        ReturnHook::AskCancel
    } else {
        ReturnHook::Deliver
    }
}

/// Whether a pending cancellation is delivered now, given that the thread
/// disabled cancellation, asked for asynchronous cancellation, and whether a
/// cancellation point armed the delivery: `None` to leave it pending,
/// otherwise `Some(from_cancel_point)`.
pub fn cancel_delivery(disabled: bool, async_cancel: bool, armed: bool) -> (r: Option<bool>)
    ensures
        r == if disabled || (!armed && !async_cancel) {
            None
        } else {
            Some(armed)
        },
{
    if disabled {
        None
    } else if !armed && !async_cancel {
        None
    } else {
        Some(armed)
    }
}

} // verus!
