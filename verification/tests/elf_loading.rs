use posix_api::elf::{image_plan, ImagePlanError};
use posix_api::elf::{file_header, load_elf_info, program_headers, read_interp_path, ElfError, ElfMachine, PhKind};

fn put16(b: &mut [u8], at: usize, v: u16) {
    b[at..at + 2].copy_from_slice(&v.to_le_bytes());
}

fn put32(b: &mut [u8], at: usize, v: u32) {
    b[at..at + 4].copy_from_slice(&v.to_le_bytes());
}

fn put64(b: &mut [u8], at: usize, v: u64) {
    b[at..at + 8].copy_from_slice(&v.to_le_bytes());
}

/// A little-endian ELF64 image of the given type and machine with a loadable
/// segment of type `load_type` and a `PT_INTERP` header naming `/lib/ld.so`.
fn image(elf_type: u16, machine: u16, load_type: u32) -> Vec<u8> {
    let mut b = vec![0u8; 192];
    b[0..4].copy_from_slice(b"\x7fELF");
    b[4] = 2;
    b[5] = 1;
    b[6] = 1;
    put16(&mut b, 16, elf_type);
    put16(&mut b, 18, machine);
    put32(&mut b, 20, 1);
    put64(&mut b, 24, 0x1040);
    put64(&mut b, 32, 64);
    put16(&mut b, 52, 64);
    put16(&mut b, 54, 56);
    put16(&mut b, 56, 2);
    // program header 0
    put32(&mut b, 64, load_type);
    put32(&mut b, 68, 5);
    put64(&mut b, 72, 0);
    put64(&mut b, 80, 0x1000);
    put64(&mut b, 88, 0x1000);
    put64(&mut b, 96, 192);
    put64(&mut b, 104, 0x2500);
    put64(&mut b, 112, 0x1000);
    // program header 1: PT_INTERP
    put32(&mut b, 120, 3);
    put32(&mut b, 124, 4);
    put64(&mut b, 128, 176);
    put64(&mut b, 152, 11);
    put64(&mut b, 160, 11);
    put64(&mut b, 168, 1);
    b[176..187].copy_from_slice(b"/lib/ld.so\0");
    assert_eq!(b.as_ptr() as usize % 8, 0);
    b
}

const RISCV: u16 = 243;

#[test]
fn shared_object_is_placed_above_the_base() {
    let img = image(3, RISCV, 1);
    let info = load_elf_info(&img, 0x40000, ElfMachine::RiscV).unwrap();
    assert_eq!(info.load_bias, 0x3F000);
    assert_eq!(info.entry, 0x40040);
    assert_eq!(info.phdr, 0x40040);
    assert_eq!(info.max_segment_end, 0x43000);
    assert_eq!(info.base, 0x3F000);
    assert_eq!(info.interpreter, Some(b"/lib/ld.so".to_vec()));
}

#[test]
fn executable_is_not_moved() {
    let img = image(2, RISCV, 1);
    let info = load_elf_info(&img, 0x40000, ElfMachine::RiscV).unwrap();
    assert_eq!(info.load_bias, 0);
    assert_eq!(info.entry, 0x1040);
    assert_eq!(info.phdr, 0x1040);
    assert_eq!(info.max_segment_end, 0x4000);
    assert_eq!(info.base, 0);
}

#[test]
fn elf_refusals() {
    let junk = vec![0u8; 64];
    assert_eq!(load_elf_info(&junk, 0, ElfMachine::RiscV).unwrap_err(), ElfError::InvalidElf);
    let img = image(3, RISCV, 1);
    assert_eq!(load_elf_info(&img, 0, ElfMachine::X86_64).unwrap_err(), ElfError::MachineMismatch);
    let img = image(1, RISCV, 1);
    assert_eq!(load_elf_info(&img, 0, ElfMachine::RiscV).unwrap_err(), ElfError::UnsupportedType);
    let img = image(3, RISCV, 4);
    assert_eq!(load_elf_info(&img, 0, ElfMachine::RiscV).unwrap_err(), ElfError::NoLoadSegments);
    let img = image(3, RISCV, 0x1234);
    assert_eq!(load_elf_info(&img, 0, ElfMachine::RiscV).unwrap_err(), ElfError::InvalidSegmentType);
    let img = image(3, 62, 1);
    assert_eq!(load_elf_info(&img, 0, ElfMachine::X86_64).unwrap().load_bias, 0);
}

#[test]
fn interpreter_paths() {
    let img = b"xx/lib/ld-musl.so\0\0yy";
    assert_eq!(read_interp_path(img, 2, 17), Ok(b"/lib/ld-musl.so".to_vec()));
    assert_eq!(read_interp_path(img, 2, 15), Ok(b"/lib/ld-musl.so".to_vec()));
    assert_eq!(read_interp_path(img, 2, 40), Err(ElfError::InterpOutOfImage));
    assert_eq!(read_interp_path(img, u64::MAX, 2), Err(ElfError::InterpRangeOverflow));
    assert_eq!(read_interp_path(img, 17, 2), Err(ElfError::EmptyInterp));
    assert_eq!(read_interp_path(b"\xff\xfe\0", 0, 3), Err(ElfError::InvalidInterp));
}

#[test]
fn program_header_list() {
    let img = image(3, RISCV, 1);
    let segs = program_headers(&img).unwrap();
    assert_eq!(segs.len(), 2);
    assert_eq!(segs[0].kind, PhKind::Load);
    assert_eq!((segs[0].vaddr, segs[0].mem_size, segs[0].file_size, segs[0].flags), (0x1000, 0x2500, 192, 5));
    assert_eq!(segs[1].kind, PhKind::Interp);
    assert_eq!((segs[1].offset, segs[1].file_size), (176, 11));
    assert!(program_headers(&[0u8; 64]).is_none());
}

#[test]
fn file_header_fields() {
    let h = file_header(&image(3, RISCV, 1)).unwrap();
    assert_eq!((h.elf_type, h.entry, h.ph_offset, h.ph_entry_size, h.ph_count), (3, 0x1040, 64, 56, 2));
    assert!(file_header(&[0u8; 64]).is_none());
}

#[test]
fn unaligned_or_truncated_images_are_refused_without_panic() {
    let img = image(3, RISCV, 1);
    // The same image one byte into a buffer: still read correctly.
    let mut shifted = vec![0u8; img.len() + 1];
    shifted[1..].copy_from_slice(&img);
    let h = file_header(&shifted[1..]).unwrap();
    assert!(h.class64);
    assert_eq!(h.machine, ElfMachine::RiscV);
    assert_eq!(program_headers(&shifted[1..]).unwrap().len(), 2);
    assert_eq!(load_elf_info(&shifted[1..], 0x40000, ElfMachine::RiscV).unwrap().entry, 0x40040);
    // Program header table past the end of the image.
    let cut = &img[..100];
    assert!(program_headers(cut).is_none());
    assert_eq!(load_elf_info(cut, 0, ElfMachine::RiscV).unwrap_err(), ElfError::ProgramHeadersUnreadable);
    // Entries smaller than a program header.
    let mut small = img.clone();
    put16(&mut small, 54, 8);
    assert_eq!(load_elf_info(&small, 0, ElfMachine::RiscV).unwrap_err(), ElfError::ProgramHeadersUnreadable);
    // Misaligned table.
    let mut odd = img.clone();
    put64(&mut odd, 32, 65);
    assert_eq!(load_elf_info(&odd, 0, ElfMachine::RiscV).unwrap_err(), ElfError::ProgramHeadersUnreadable);
}

#[test]
fn program_starts_at_interpreter_entry() {
    let img = image(3, RISCV, 1);
    let main = load_elf_info(&img, 0x40000, ElfMachine::RiscV).unwrap();
    let interp = load_elf_info(&img, 0x10_0000_0000, ElfMachine::RiscV).unwrap();
    let alone = image_plan(&main, None).unwrap();
    assert_eq!(alone.entry, main.entry);
    assert_eq!(alone.interp_base, 0);
    assert_eq!(alone.brk.start, 0x43000);
    assert_eq!(alone.brk.end, 0x43000);
    assert_eq!(alone.brk.limit, 0x43000 + 64 * 1024 * 1024);
    let with = image_plan(&main, Some(&interp)).unwrap();
    assert_eq!(with.entry, interp.entry);
    assert_eq!(with.interp_base, interp.base);
    assert_eq!(with.brk.start, 0x43000);
    assert!(with.brk.next_mmap > interp.max_segment_end);
    let mut far = load_elf_info(&img, 0x40000, ElfMachine::RiscV).unwrap();
    far.max_segment_end = 0x1f_ff00_0000;
    assert_eq!(image_plan(&far, None), Err(ImagePlanError::AddressSpaceTooSmall));
    far.max_segment_end = u64::MAX - 10;
    assert_eq!(image_plan(&far, None), Err(ImagePlanError::AddressOverflow));
}

#[test]
fn program_header_count_follows_the_header() {
    let img = image(3, RISCV, 1);
    assert_eq!(program_headers(&img).unwrap().len(), 2);
    let mut none = img.clone();
    put64(&mut none, 32, 0);
    assert_eq!(program_headers(&none).unwrap().len(), 0);
    let mut one = img.clone();
    put16(&mut one, 56, 1);
    assert_eq!(program_headers(&one).unwrap().len(), 1);
}
