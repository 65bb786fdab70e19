use posix_api::calendar::rtc_time_of;
use posix_api::elf::{segment_copy, segment_mapping, ElfError, ElfSegment, PhKind};
use posix_api::errno::Errno;
use posix_api::fsmeta::{
    flags_to_options, metadata_to_stat, path_inode, seek_from, statfs_flags, statfs_magic,
    statfs_summary, symlink_stat, FileKind, MountKind, SeekFrom, UmaskTable, ST_RDONLY,
};
use posix_api::memory::{
    mmap_prot_to_perms, mprotect_plan, munmap_plan, page_fault_followup, perms_from_ph,
    segv_delivery_followup, FaultFollowup, MapPerms, PageSpan, UnmapPlan,
};
use posix_api::sigctx::{
    apply_loongarch_mcontext, apply_riscv_sigcontext, loongarch_mcontext, loongarch_sigreturn,
    riscv_sigcontext, riscv_sigreturn, syscall_instruction_context, UserContext, SIGCANCEL_NUM,
};
use posix_api::sigctx::{cancel_delivery, child_context, return_hook, Isa, ReturnHook};
use posix_api::sysinfo::{
    affinity_from_bytes, affinity_size, affinity_to_bytes, check_getrandom_flags, getrusage,
    is_same_sched_target, monotonic_ticks, setsid, syslog_action, system_info, utsname,
    validate_sched_param, validate_scheduler, write_c_string, Rusage, SyslogAction,
};

fn sample_context() -> UserContext {
    let mut regs = [0u64; 32];
    for (i, r) in regs.iter_mut().enumerate().skip(1) {
        *r = 1000 + i as u64;
    }
    UserContext { pc: 0x4000, regs }
}

#[test]
fn riscv_context_round_trip() {
    let ctx = sample_context();
    let gregs = riscv_sigcontext(&ctx);
    assert_eq!(gregs[0], 0x4000);
    assert_eq!(gregs[2], 1002);
    assert_eq!(gregs[31], 1031);
    let mut back = UserContext { pc: 0, regs: [7; 32] };
    apply_riscv_sigcontext(&mut back, &gregs);
    assert_eq!(back.pc, ctx.pc);
    assert_eq!(back.regs, ctx.regs);
}

#[test]
fn loongarch_context_round_trip() {
    let ctx = sample_context();
    let (pc, regs) = loongarch_mcontext(&ctx);
    let mut back = UserContext { pc: 1, regs: [9; 32] };
    apply_loongarch_mcontext(&mut back, pc, &regs);
    assert_eq!(back.pc, 0x4000);
    assert_eq!(back.regs, ctx.regs);
    let mut dirty = regs;
    dirty[0] = 55;
    apply_loongarch_mcontext(&mut back, pc, &dirty);
    assert_eq!(back.regs[0], 0);
}

#[test]
fn sigreturn_decisions() {
    let ctx = sample_context();
    let gregs = riscv_sigcontext(&ctx);
    assert_eq!(riscv_sigreturn(0, Some(ctx), &gregs, 0, 10, false).unwrap_err(), Errno::EINVAL);
    assert_eq!(riscv_sigreturn(0x1000, None, &gregs, 0, 10, false).unwrap_err(), Errno::EINVAL);
    let out = riscv_sigreturn(0x1000, Some(UserContext { pc: 3, regs: [3; 32] }), &gregs, 0b101, SIGCANCEL_NUM, true)
        .unwrap();
    assert_eq!(out.context.pc, 0x4000);
    assert_eq!(out.context.regs, ctx.regs);
    assert_eq!(out.mask, 0b101);
    assert!(out.requeue_cancel);
    let out = riscv_sigreturn(0x1000, Some(ctx), &gregs, 0, 10, true).unwrap();
    assert!(!out.requeue_cancel);
    let out = loongarch_sigreturn(8, Some(ctx), 0x88, &ctx.regs, 4, SIGCANCEL_NUM, false).unwrap();
    assert_eq!(out.context.pc, 0x88);
    assert!(!out.requeue_cancel);
    assert_eq!(syscall_instruction_context(&ctx).pc, 0x3ffc);
    assert_eq!(syscall_instruction_context(&UserContext { pc: 2, regs: [0; 32] }).pc, 0);
}

#[test]
fn mapping_rights() {
    assert_eq!(mmap_prot_to_perms(0), MapPerms { read: false, write: false, execute: false });
    assert_eq!(mmap_prot_to_perms(1), MapPerms { read: true, write: false, execute: false });
    assert_eq!(mmap_prot_to_perms(2), MapPerms { read: true, write: true, execute: false });
    assert_eq!(mmap_prot_to_perms(4), MapPerms { read: true, write: false, execute: true });
    assert_eq!(perms_from_ph(1), MapPerms { read: true, write: false, execute: true });
    assert_eq!(perms_from_ph(6), MapPerms { read: true, write: true, execute: false });
    assert_eq!(perms_from_ph(0), MapPerms { read: false, write: false, execute: false });
}

#[test]
fn unmap_and_protect_plans() {
    assert_eq!(munmap_plan(0x1000, 0, 0, true), Err(Errno::EINVAL));
    assert_eq!(munmap_plan(0x1234, 0x10, 0, true), Ok(UnmapPlan::Now { start: 0x1000, len: 0x1000 }));
    assert_eq!(munmap_plan(0x10000, 0x3000, 0x11000, true), Ok(UnmapPlan::Deferred { start: 0x10000, len: 0x3000 }));
    assert_eq!(munmap_plan(0x10000, 0x3000, 0x11000, false), Ok(UnmapPlan::Now { start: 0x10000, len: 0x3000 }));
    assert_eq!(munmap_plan(0x10000, 0x3000, 0x13000, true), Ok(UnmapPlan::Now { start: 0x10000, len: 0x3000 }));
    let p = mprotect_plan(0x20000, 0x10000, 3).unwrap();
    assert_eq!((p.start, p.len), (0x20000, 0x10000));
    assert_eq!(p.perms, MapPerms { read: true, write: true, execute: false });
    assert_eq!(p.prefault, Some(PageSpan { from: 0x2e000, to: 0x30000 }));
    let p = mprotect_plan(0x20000, 0x1000, 2).unwrap();
    assert_eq!(p.prefault, Some(PageSpan { from: 0x20000, to: 0x21000 }));
    assert_eq!(mprotect_plan(0x20000, 0x100000, 2).unwrap().prefault, None);
    assert_eq!(mprotect_plan(0x20000, 0x1000, 1).unwrap().prefault, None);
    assert_eq!(mprotect_plan(0, 0, 1), Err(Errno::EINVAL));
}

#[test]
fn page_fault_outcomes() {
    assert_eq!(page_fault_followup(true, true, false), FaultFollowup::Done(true));
    assert_eq!(page_fault_followup(false, false, true), FaultFollowup::Done(false));
    assert_eq!(page_fault_followup(false, true, true), FaultFollowup::DeliverSegv);
    assert_eq!(page_fault_followup(false, true, false), FaultFollowup::Terminate(139));
    assert_eq!(segv_delivery_followup(true), FaultFollowup::Done(true));
    assert_eq!(segv_delivery_followup(false), FaultFollowup::Terminate(139));
}

#[test]
fn elf_segment_plans() {
    let seg = ElfSegment { kind: PhKind::Load, vaddr: 0x1234, mem_size: 0x2000, offset: 0x100, file_size: 0x80, flags: 5 };
    let m = segment_mapping(&seg, 0x10000).unwrap();
    assert_eq!(m.start, 0x11000);
    assert_eq!(m.start + m.size, 0x14000);
    assert_eq!(m.perms, MapPerms { read: true, write: false, execute: true });
    let c = segment_copy(&seg, 0x10000, 0x1000).unwrap().unwrap();
    assert_eq!((c.dst, c.offset, c.len), (0x11234, 0x100, 0x80));
    assert_eq!(segment_copy(&seg, 0x10000, 0x120), Err(ElfError::SegmentOutOfImage));
    let wide = ElfSegment { offset: u64::MAX, ..seg };
    assert_eq!(segment_copy(&wide, 0, 0x1000), Err(ElfError::SegmentRangeOverflow));
    let empty = ElfSegment { mem_size: 0, ..seg };
    assert!(segment_mapping(&empty, 0).is_none());
    assert_eq!(segment_copy(&empty, 0, 0), Ok(None));
    let bss = ElfSegment { file_size: 0, ..seg };
    assert_eq!(segment_copy(&bss, 0, 0), Ok(None));
}

#[test]
fn open_flags_and_seeks() {
    let p = flags_to_options(0);
    assert!(p.read && !p.write && !p.append && !p.truncate && !p.create && !p.create_new);
    let p = flags_to_options(1);
    assert!(!p.read && p.write);
    let p = flags_to_options(2 | 0o100 | 0o1000 | 0o2000);
    assert!(p.read && p.write && p.create && p.truncate && p.append);
    let p = flags_to_options(3);
    assert!(p.read && p.write);
    assert!(flags_to_options(0o10000000).create_new);
    assert_eq!(seek_from(-5, 0), Ok(SeekFrom::Start(u64::MAX - 4)));
    assert_eq!(seek_from(-5, 1), Ok(SeekFrom::Current(-5)));
    assert_eq!(seek_from(7, 2), Ok(SeekFrom::End(7)));
    assert_eq!(seek_from(7, 3), Err(Errno::EINVAL));
}

#[test]
fn statfs_reports() {
    assert_eq!(statfs_flags(b"ro"), ST_RDONLY);
    assert_eq!(statfs_flags(b"rw,ro,noatime"), ST_RDONLY);
    assert_eq!(statfs_flags(b"noatime,ro"), ST_RDONLY);
    assert_eq!(statfs_flags(b"rw,rox,xro"), 0);
    assert_eq!(statfs_flags(b"r,o"), 0);
    assert_eq!(statfs_flags(b""), 0);
    assert_eq!(statfs_magic(MountKind::Ext4), 0xEF53);
    assert_eq!(statfs_magic(MountKind::RamFs), 0x0102_1994);
    let s = statfs_summary(MountKind::Fat, b"rw", 1 << 30, 1 << 20);
    assert_eq!(s.f_type, 0x4d44);
    assert_eq!(s.f_blocks, 262144);
    assert_eq!(s.f_bfree, 256);
    assert_eq!(s.f_bavail, 256);
    assert_eq!((s.f_files, s.f_ffree, s.f_namelen, s.f_frsize, s.f_flags), (1024, 1024, 255, 4096, 0));
    let s = statfs_summary(MountKind::ProcFs, b"ro", 1 << 30, 1 << 20);
    assert_eq!((s.f_blocks, s.f_bfree, s.f_flags), (0, 0, ST_RDONLY));
}

fn fnv(bytes: &[u8]) -> u64 {
    let mut h: u64 = 0xcbf2_9ce4_8422_2325;
    for b in bytes {
        h ^= *b as u64;
        h = h.wrapping_mul(0x100_0000_01b3);
    }
    h
}

#[test]
fn inodes_and_stats() {
    assert_eq!(path_inode(None), 1);
    assert_eq!(path_inode(Some(b"")), 0xcbf2_9ce4_8422_2325);
    assert_eq!(path_inode(Some(b"a")), 0xaf63_dc4c_8601_ec8c);
    assert_eq!(path_inode(Some(b"/etc/passwd")), fnv(b"/etc/passwd"));
    let st = metadata_to_stat(FileKind::Dir, 0o755, 4096, 8, Some(b"/tmp"), None);
    assert_eq!(st.mode, 0o040755);
    assert_eq!((st.dev, st.nlink, st.size, st.blksize, st.blocks), (1, 1, 4096, 512, 8));
    assert_eq!(st.ino, fnv(b"/tmp"));
    assert_eq!(metadata_to_stat(FileKind::File, 0o644, 1, 1, None, None).ino, 1);
    assert_eq!(metadata_to_stat(FileKind::Fifo, 0o600, 0, 0, None, None).mode, 0o100600);
    assert_eq!(metadata_to_stat(FileKind::CharDevice, 0o666, 0, 0, None, None).mode, 0o020666);
    let l = symlink_stat(b"/lib/x", 9, None);
    assert_eq!((l.mode, l.size, l.blocks), (0o120777, 9, 0));
}

#[test]
fn umask_table() {
    let mut t = UmaskTable::new();
    assert_eq!(t.set_process_umask(5, 0o077), 0o022);
    assert_eq!(t.set_process_umask(5, 0o7002), 0o077);
    assert_eq!(t.set_process_umask(5, 0), 0o002);
    assert_eq!(t.set_process_umask(6, 0o027), 0o022);
    t.clear_process_umask(5);
    assert_eq!(t.set_process_umask(5, 0), 0o022);
}

#[test]
fn rtc_fields() {
    let t = rtc_time_of(0);
    assert_eq!((t.tm_year, t.tm_mon, t.tm_mday, t.tm_hour, t.tm_min, t.tm_sec), (70, 0, 1, 0, 0, 0));
    assert_eq!((t.tm_wday, t.tm_yday, t.tm_isdst), (4, 0, 0));
    // 2024-02-29 12:34:56 UTC
    let t = rtc_time_of(1_709_210_096);
    assert_eq!((t.tm_year, t.tm_mon, t.tm_mday, t.tm_hour, t.tm_min, t.tm_sec), (124, 1, 29, 12, 34, 56));
    assert_eq!((t.tm_wday, t.tm_yday), (4, 59));
    // 1969-12-31 23:59:59 UTC
    let t = rtc_time_of(-1);
    assert_eq!((t.tm_year, t.tm_mon, t.tm_mday, t.tm_hour, t.tm_min, t.tm_sec), (69, 11, 31, 23, 59, 59));
    assert_eq!((t.tm_wday, t.tm_yday), (3, 364));
}

#[test]
fn system_reports() {
    let s = system_info(u64::MAX, 100, 50);
    assert_eq!(s.uptime, i64::MAX);
    assert_eq!((s.totalram, s.freeram, s.procs, s.mem_unit), (100, 50, 1, 1));
    assert_eq!(system_info(42, 0, 0).uptime, 42);
    assert_eq!(monotonic_ticks(3, 500_000_000), 350);
    assert_eq!(monotonic_ticks(u64::MAX, 0), i64::MAX);
    assert_eq!(getrusage(0, 1234), Ok(Rusage { utime_sec: 12, utime_usec: 340000 }));
    assert_eq!(getrusage(-1, 5), Ok(Rusage { utime_sec: 0, utime_usec: 50000 }));
    assert_eq!(getrusage(2, 5), Err(Errno::EINVAL));
    assert_eq!(check_getrandom_flags(7), Ok(()));
    assert_eq!(check_getrandom_flags(8), Err(Errno::EINVAL));
    assert_eq!(syslog_action(3, true), Ok(SyslogAction::ReadLog { clear: false }));
    assert_eq!(syslog_action(4, true), Ok(SyslogAction::ReadLog { clear: true }));
    assert_eq!(syslog_action(4, false), Err(Errno::EINVAL));
    assert_eq!(syslog_action(10, false), Ok(SyslogAction::LogLen));
    assert_eq!(syslog_action(7, false), Ok(SyslogAction::Nothing));
    assert_eq!(syslog_action(9, false), Err(Errno::EINVAL));
}

#[test]
fn c_strings() {
    let mut dst = [0xffu8; 5];
    write_c_string(&mut dst, b"hello world");
    assert_eq!(&dst, b"hell\0");
    let mut dst = [0xffu8; 5];
    write_c_string(&mut dst, b"hi");
    assert_eq!(&dst, b"hi\0\0\0");
    let mut empty: [u8; 0] = [];
    write_c_string(&mut empty, b"x");
    let u = utsname(b"Linux", b"riscv64-qemu-virt", b"0.1.0", b"ArceOS 0.1.0", b"riscv64", b"localdomain");
    assert_eq!(&u.sysname[..6], b"Linux\0");
    assert_eq!(&u.machine[..8], b"riscv64\0");
    assert!(u.domainname[11..].iter().all(|b| *b == 0));
}

#[test]
fn scheduling_checks() {
    assert!(is_same_sched_target(10, 11, 0));
    assert!(is_same_sched_target(10, 11, 11));
    assert!(is_same_sched_target(10, 11, 10));
    assert!(!is_same_sched_target(10, 11, 12));
    assert_eq!(validate_sched_param(0), Ok(()));
    assert_eq!(validate_sched_param(1), Err(Errno::EINVAL));
    assert_eq!(validate_scheduler(0, 0), Ok(0));
    assert_eq!(validate_scheduler(0, 1), Err(Errno::EINVAL));
    assert_eq!(validate_scheduler(1, 99), Ok(0));
    assert_eq!(validate_scheduler(2, 0), Err(Errno::EINVAL));
    assert_eq!(validate_scheduler(3, 0), Ok(0));
    assert_eq!(validate_scheduler(5, 0), Ok(0));
    assert_eq!(validate_scheduler(4, 0), Err(Errno::EINVAL));
    assert_eq!(setsid(7), Ok(7));
    assert_eq!(setsid(0), Err(Errno::EINVAL));
}

#[test]
fn cpu_affinity() {
    assert_eq!(affinity_size(1), 1);
    assert_eq!(affinity_size(8), 1);
    assert_eq!(affinity_size(9), 2);
    assert_eq!(affinity_size(16), 2);
    assert_eq!(affinity_from_bytes(&[0b101], 4), Ok(vec![true, false, true, false]));
    assert_eq!(affinity_from_bytes(&[0b1_0000], 4), Err(Errno::EINVAL));
    assert_eq!(affinity_from_bytes(&[1], 9), Err(Errno::EINVAL));
    assert_eq!(affinity_from_bytes(&[0, 1], 9), Ok(vec![false, false, false, false, false, false, false, false, true]));
    let mut dst = [0xffu8; 3];
    assert_eq!(affinity_to_bytes(&mut dst, &[true, false, true, true, false, false, false, false, true], 9), Ok(2));
    assert_eq!(dst, [0b1101, 1, 0]);
    let mut short = [0u8; 1];
    assert_eq!(affinity_to_bytes(&mut short, &[true; 9], 9), Err(Errno::EINVAL));
}

#[test]
fn clone_child_context() {
    let mut regs = [7u64; 32];
    regs[0] = 0;
    let parent = UserContext { pc: 0x4000, regs };
    let c = child_context(Isa::RiscV64, &parent, 0x8000);
    assert_eq!(c.pc, 0x4004);
    assert_eq!(c.regs[10], 0);
    assert_eq!(c.regs[2], 0x8000);
    assert_eq!(c.regs[4], 7);
    let l = child_context(Isa::LoongArch64, &parent, 0);
    assert_eq!(l.regs[4], 0);
    assert_eq!(l.regs[3], 7);
    assert_eq!(l.regs[10], 7);
}

#[test]
fn return_path_decisions() {
    assert_eq!(return_hook(true, true, 10, false), ReturnHook::Proceed);
    assert_eq!(return_hook(false, true, 10, false), ReturnHook::RestoreSaved);
    assert_eq!(return_hook(false, false, 0, false), ReturnHook::Proceed);
    assert_eq!(return_hook(false, false, 10, true), ReturnHook::Proceed);
    assert_eq!(return_hook(false, false, 10, false), ReturnHook::Deliver);
    assert_eq!(return_hook(false, false, SIGCANCEL_NUM, false), ReturnHook::AskCancel);
    assert_eq!(cancel_delivery(true, true, true), None);
    assert_eq!(cancel_delivery(false, false, false), None);
    assert_eq!(cancel_delivery(false, true, false), Some(false));
    assert_eq!(cancel_delivery(false, false, true), Some(true));
}
