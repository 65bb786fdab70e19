use vstd::prelude::*;
use crate::bytes::{first_index_of, lemma_first_index_of_bounds, copy_range, find_byte};
use crate::shebang::{is_utf8, utf8_ok};
use crate::memory::{page_up, align_up, align_down, MapPerms, perms_from_ph, PF_R, PF_W, PF_X};
use crate::memory::{initial_brk, initial_brk_of, lemma_page_up, BrkState, USER_BRK_GROW_SIZE};
use xmas_elf::header::{Class, Machine};
use xmas_elf::program::Type as PhType;

verus! {

/// The fields of an ELF file header that loading reads.
#[derive(Clone, Copy, Debug, PartialEq, Eq, Structural)]
pub struct ElfHeader {
    /// Whether the file is a 64-bit one (`ELFCLASS64`) rather than 32-bit.
    pub class64: bool,
    /// The machine the file is built for.
    pub machine: ElfMachine,
    /// `e_type`: 2 for an executable, 3 for a shared object.
    pub elf_type: u16,
    pub entry: u64,
    pub ph_offset: u64,
    pub ph_entry_size: u16,
    pub ph_count: u16,
}

/// The machine an ELF file is built for.
#[derive(Clone, Copy, Debug, PartialEq, Eq, Structural)]
pub enum ElfMachine {
    NoMachine,
    Sparc,
    X86,
    Mips,
    PowerPC,
    Arm,
    SuperH,
    Ia64,
    X86_64,
    AArch64,
    RiscV,
    Bpf,
    Other(u16),
}

/// The type of a program header; `Invalid` for a type the format does not
/// define.
#[derive(Clone, Copy, Debug, PartialEq, Eq, Structural)]
pub enum PhKind {
    Null,
    Load,
    Dynamic,
    Interp,
    Note,
    ShLib,
    Phdr,
    Tls,
    GnuRelro,
    OsSpecific(u32),
    ProcessorSpecific(u32),
    Invalid,
}

/// A program header.
#[derive(Clone, Copy, Debug, PartialEq, Eq, Structural)]
pub struct ElfSegment {
    pub kind: PhKind,
    pub vaddr: u64,
    pub mem_size: u64,
    pub offset: u64,
    pub file_size: u64,
    pub flags: u32,
}

/// The type of an ELF program header.
#[verifier::external_type_specification]
#[verifier::external_body]
pub struct ExPhType(xmas_elf::program::Type);

/// The machine of an ELF header.
#[verifier::external_type_specification]
#[verifier::external_body]
pub struct ExMachine(xmas_elf::header::Machine);

/// The file header that `xmas_elf` reads from `image`, `None` when it
/// refuses the image.
pub uninterp spec fn elf_header_of(image: Seq<u8>) -> Option<ElfHeader>;

/// The program headers that `xmas_elf` reads from `image`, in order.
pub uninterp spec fn elf_segments_of(image: Seq<u8>) -> Option<Seq<ElfSegment>>;

/// Whether `xmas_elf` can read every program header that header `h`
/// announces from an image of `len` bytes placed at an 8-byte aligned
/// address: it reads none when there are none, when the table offset is 0 or
/// when the entry size is 0; otherwise each entry must be at least as large
/// as a program header of the file's class (56 bytes, 32 for a 32-bit file),
/// lie at an address aligned for it (8 bytes, 4 for a 32-bit file), and lie
/// inside the image.
pub open spec fn ph_table_readable(h: ElfHeader, len: int) -> bool {
    let size: int = if h.class64 { 56 } else { 32 };
    let align: int = if h.class64 { 8 } else { 4 };
    ||| h.ph_count == 0
    ||| h.ph_offset == 0
    ||| h.ph_entry_size == 0
    ||| {
        &&& h.ph_entry_size >= size
        &&& (h.ph_offset as int) % align == 0
        &&& (h.ph_entry_size as int) % align == 0
        &&& h.ph_offset + h.ph_count * h.ph_entry_size <= len
    }
}

/// How many program headers `xmas_elf` reads for header `h`: none when the
/// table offset or the entry size is 0, every announced one otherwise.
pub open spec fn ph_read_count(h: ElfHeader) -> int {
    if h.ph_offset == 0 || h.ph_entry_size == 0 { 0 } else { h.ph_count as int }
}

/// Decides `ph_table_readable` for an image of `len` bytes.
pub fn ph_table_readable_check(h: ElfHeader, len: usize) -> (r: bool)
    ensures
        r == ph_table_readable(h, len as int),
{
    if h.ph_count == 0 || h.ph_offset == 0 || h.ph_entry_size == 0 {
        return true;
    }
    let size: u16 = if h.class64 { 56 } else { 32 };
    let align: u64 = if h.class64 { 8 } else { 4 };
    let count = h.ph_count as u64;
    let esz = h.ph_entry_size as u64;
    assert(count * esz <= 0xffff * 0xffff) by (nonlinear_arith)
        requires
            count <= 0xffff,
            esz <= 0xffff,
    ;
    let table = count * esz;
    if h.ph_offset > u64::MAX - table {
        return false;
    }
    h.ph_entry_size >= size && h.ph_offset % align == 0 && esz % align == 0
        && h.ph_offset + table <= len as u64
}

/// `xmas_elf::header::Machine_::as_machine`'s result as a machine, one arm
/// per variant.
#[verifier::external_body]
fn machine_kind(m: Machine) -> (r: ElfMachine) {
    match m {
        Machine::None => ElfMachine::NoMachine, Machine::Sparc => ElfMachine::Sparc,
        Machine::X86 => ElfMachine::X86, Machine::Mips => ElfMachine::Mips,
        Machine::PowerPC => ElfMachine::PowerPC, Machine::Arm => ElfMachine::Arm,
        Machine::SuperH => ElfMachine::SuperH, Machine::Ia64 => ElfMachine::Ia64,
        Machine::X86_64 => ElfMachine::X86_64, Machine::AArch64 => ElfMachine::AArch64,
        Machine::RISC_V => ElfMachine::RiscV, Machine::BPF => ElfMachine::Bpf,
        Machine::Other(x) => ElfMachine::Other(x),
    }
}

/// `xmas_elf::ElfFile::new` and the header getters `class`, `machine`,
/// `type_`, `entry_point`, `ph_offset`, `ph_entry_size` and `ph_count`: the
/// parsed header, a function of the image. `xmas_elf` reads the header in
/// place and asserts its alignment, so the image is first copied to an
/// 8-byte aligned buffer; `ElfFile::new` checks the lengths it reads, so the
/// call then returns for every image.
#[verifier::external_body]
fn elf_header(image: &[u8]) -> (r: Option<ElfHeader>)
    ensures
        r == elf_header_of(image@),
{
    let mut buf = vec![0u8; image.len() + 8];
    let at = (8 - buf.as_ptr() as usize % 8) % 8;
    buf[at..at + image.len()].copy_from_slice(image);
    let elf = xmas_elf::ElfFile::new(&buf[at..at + image.len()]).ok()?;
    let pt2 = &elf.header.pt2;
    Some(ElfHeader {
        class64: match elf.header.pt1.class() { Class::SixtyFour => true, _ => false },
        machine: machine_kind(pt2.machine().as_machine()), elf_type: pt2.type_().0,
        entry: pt2.entry_point(), ph_offset: pt2.ph_offset(),
        ph_entry_size: pt2.ph_entry_size(), ph_count: pt2.ph_count(),
    })
}

/// `xmas_elf::program::ProgramHeader::get_type` as a kind, one arm per
/// variant; an error is `Invalid`.
#[verifier::external_body]
fn ph_kind(t: Result<PhType, &'static str>) -> (r: PhKind) {
    match t {
        Ok(PhType::Null) => PhKind::Null, Ok(PhType::Load) => PhKind::Load,
        Ok(PhType::Dynamic) => PhKind::Dynamic, Ok(PhType::Interp) => PhKind::Interp,
        Ok(PhType::Note) => PhKind::Note, Ok(PhType::ShLib) => PhKind::ShLib,
        Ok(PhType::Phdr) => PhKind::Phdr, Ok(PhType::Tls) => PhKind::Tls,
        Ok(PhType::GnuRelro) => PhKind::GnuRelro, Ok(PhType::OsSpecific(x)) => PhKind::OsSpecific(x),
        Ok(PhType::ProcessorSpecific(x)) => PhKind::ProcessorSpecific(x), Err(_) => PhKind::Invalid,
    }
}

/// `xmas_elf::ElfFile::program_iter` and the getters of each program header:
/// the program headers, a function of the image, present exactly when the
/// header is. The image is copied to an 8-byte aligned buffer first, as for
/// `elf_header`; `xmas_elf` slices and reads each program header in place, so
/// the table must be readable (`ph_table_readable`) for the call to return.
/// Its iterator stops at the announced count, and at once when the table
/// offset or the entry size is 0 (`ph_read_count`).
#[verifier::external_body]
fn elf_segments(image: &[u8]) -> (r: Option<Vec<ElfSegment>>)
    requires
        elf_header_of(image@) matches Some(h) ==> ph_table_readable(h, image@.len() as int),
    ensures
        r matches Some(v) ==> elf_segments_of(image@) == Some(v@),
        r is None ==> elf_segments_of(image@) is None,
        r is Some <==> elf_header_of(image@) is Some,
        r matches Some(v) ==> (elf_header_of(image@) matches Some(h) && v@.len() == ph_read_count(h)),
{
    let mut buf = vec![0u8; image.len() + 8];
    let at = (8 - buf.as_ptr() as usize % 8) % 8;
    buf[at..at + image.len()].copy_from_slice(image);
    let elf = xmas_elf::ElfFile::new(&buf[at..at + image.len()]).ok()?;
    let mut out = Vec::new();
    for ph in elf.program_iter() {
        out.push(ElfSegment {
            kind: ph_kind(ph.get_type()), vaddr: ph.virtual_addr(), mem_size: ph.mem_size(),
            offset: ph.offset(), file_size: ph.file_size(), flags: ph.flags().0,
        });
    }
    Some(out)
}

/// Why an ELF image cannot be loaded.
#[derive(Clone, Copy, Debug, PartialEq, Eq, Structural)]
pub enum ElfError {
    /// `xmas_elf` refuses the image.
    InvalidElf,
    /// The image is built for another machine.
    MachineMismatch,
    /// A program header has a type the format does not define.
    InvalidSegmentType,
    /// The `PT_INTERP` range does not fit in 64 bits.
    InterpRangeOverflow,
    /// The `PT_INTERP` range ends beyond the image.
    InterpOutOfImage,
    /// The interpreter path is not valid UTF-8.
    InvalidInterp,
    /// The interpreter path is empty.
    EmptyInterp,
    /// The image has no loadable segment.
    NoLoadSegments,
    /// The image is neither an executable nor a shared object.
    UnsupportedType,
    /// An address computed for the image does not fit in 64 bits.
    AddressOverflow,
    /// The file range of a loadable segment does not fit in 64 bits.
    SegmentRangeOverflow,
    /// The file range of a loadable segment ends beyond the image.
    SegmentOutOfImage,
    /// The program header table cannot be read from the image: it lies
    /// (partly) beyond the image, its entries are too small, or it is
    /// misaligned.
    ProgramHeadersUnreadable,
}

/// Where an ELF image goes in memory.
#[derive(Debug)]
pub struct ElfLoadInfo {
    /// What is added to every address of the image.
    pub load_bias: u64,
    /// Where execution starts.
    pub entry: u64,
    /// Where the program headers are in memory, 0 when no segment holds them.
    pub phdr: u64,
    /// The page-aligned end of the highest segment.
    pub max_segment_end: u64,
    /// The load address of a shared object, 0 for an executable.
    pub base: u64,
    /// The interpreter the image asks for.
    pub interpreter: Option<Vec<u8>>,
}

/// `e_type` of an executable.
pub const ET_EXEC: u16 = 2;
/// `e_type` of a shared object.
pub const ET_DYN: u16 = 3;

/// The interpreter path a `PT_INTERP` header at `offset` with `file_size`
/// bytes names: its bytes up to the first NUL.
pub open spec fn interp_path_of(image: Seq<u8>, offset: u64, file_size: u64) -> Result<Seq<u8>, ElfError> {
    if offset + file_size > u64::MAX {
        Err(ElfError::InterpRangeOverflow)
    } else if offset + file_size > image.len() {
        Err(ElfError::InterpOutOfImage)
    } else {
        let raw = image.subrange(offset as int, offset + file_size);
        let path = match first_index_of(raw, 0) {
            Some(i) => raw.subrange(0, i),
            None => raw,
        };
        if !is_utf8(path) {
            Err(ElfError::InvalidInterp)
        } else if path.len() == 0 {
            Err(ElfError::EmptyInterp)
        } else {
            Ok(path)
        }
    }
}

/// Reads the interpreter path of a `PT_INTERP` header.
pub fn read_interp_path(image: &[u8], offset: u64, file_size: u64) -> (r: Result<Vec<u8>, ElfError>)
    ensures
        match (r, interp_path_of(image@, offset, file_size)) {
            (Ok(v), Ok(p)) => v@ == p,
            (Err(e), Err(f)) => e == f,
            _ => false,
        },
{
    if offset > u64::MAX - file_size {
        return Err(ElfError::InterpRangeOverflow);
    }
    let end = offset + file_size;
    if end > image.len() as u64 {
        return Err(ElfError::InterpOutOfImage);
    }
    let raw = copy_range(image, offset as usize, end as usize);
    let path = match find_byte(raw.as_slice(), 0) {
        Some(i) => {
            proof {
                lemma_first_index_of_bounds(raw@, 0);
            }
            copy_range(raw.as_slice(), 0, i)
        },
        None => {
            let v = copy_range(raw.as_slice(), 0, raw.len());
            assert(raw@.subrange(0, raw@.len() as int) =~= raw@);
            v
        },
    };
    if !utf8_ok(path.as_slice()) {
        return Err(ElfError::InvalidInterp);
    }
    if path.len() == 0 {
        return Err(ElfError::EmptyInterp);
    }
    Ok(path)
}

/// What a pass over the program headers has found so far: the lowest
/// page-aligned segment start, the highest page-aligned segment end, and the
/// interpreter.
pub struct ScanState {
    pub min_load: Option<int>,
    pub max_end: int,
    pub interp: Option<Seq<u8>>,
}

/// The page-aligned start of a loadable segment.
pub open spec fn seg_start(s: ElfSegment) -> int {
    s.vaddr - s.vaddr % 4096
}

/// The page-aligned end of a loadable segment.
pub open spec fn seg_end(s: ElfSegment) -> int {
    page_up(s.vaddr + s.mem_size)
}

/// The pass over the program headers `segs`, in order, stopping at the
/// first one that cannot be read.
pub open spec fn elf_scan(segs: Seq<ElfSegment>, image: Seq<u8>) -> Result<ScanState, ElfError>
    decreases segs.len(),
{
    if segs.len() == 0 {
        Ok(ScanState { min_load: None, max_end: 0, interp: None })
    } else {
        match elf_scan(segs.drop_last(), image) {
            Err(e) => Err(e),
            Ok(st) => {
                let s = segs.last();
                match s.kind {
                    PhKind::Invalid => Err(ElfError::InvalidSegmentType),
                    PhKind::Load => Ok(
                        ScanState {
                            min_load: Some(
                                match st.min_load {
                                    Some(m) => if seg_start(s) < m {
                                        seg_start(s)
                                    } else {
                                        m
                                    },
                                    None => seg_start(s),
                                },
                            ),
                            max_end: if seg_end(s) > st.max_end {
                                seg_end(s)
                            } else {
                                st.max_end
                            },
                            interp: st.interp,
                        },
                    ),
                    PhKind::Interp => match interp_path_of(image, s.offset, s.file_size) {
                        Err(e) => Err(e),
                        Ok(p) => Ok(ScanState { min_load: st.min_load, max_end: st.max_end, interp: Some(p) }),
                    },
                    _ => Ok(st),
                }
            },
        }
    }
}

/// Every loadable segment the pass reaches ends within 64 bits, page
/// rounding included.
pub open spec fn scan_fits(segs: Seq<ElfSegment>, image: Seq<u8>) -> bool
    decreases segs.len(),
{
    if segs.len() == 0 {
        true
    } else {
        let s = segs.last();
        &&& scan_fits(segs.drop_last(), image)
        &&& (elf_scan(segs.drop_last(), image) is Ok && s.kind == PhKind::Load) ==> (s.vaddr
            + s.mem_size == 0 || s.vaddr + s.mem_size + 4095 <= u64::MAX)
    }
}

/// Where the program headers at file offset `phoff` are in memory: inside
/// the first loadable segment whose file range holds them; `None` when no
/// segment does, when a header before it cannot be read, or when a file
/// range before it does not fit in 64 bits.
pub open spec fn phdr_of(segs: Seq<ElfSegment>, phoff: u64, bias: int) -> Option<int>
    decreases segs.len(),
{
    if segs.len() == 0 {
        None
    } else {
        let s = segs[0];
        if s.kind == PhKind::Invalid {
            None
        } else if s.kind != PhKind::Load {
            phdr_of(segs.drop_first(), phoff, bias)
        } else if s.offset + s.file_size > u64::MAX {
            None
        } else if s.offset <= phoff < s.offset + s.file_size {
            Some(bias + s.vaddr + (phoff - s.offset))
        } else {
            phdr_of(segs.drop_first(), phoff, bias)
        }
    }
}

/// The load bias of an image whose lowest segment starts at `min_load`,
/// placed at `preferred_base` or above when it is a shared object.
pub open spec fn load_bias_of(elf_type: u16, min_load: int, preferred_base: u64) -> int {
    if elf_type == ET_DYN {
        page_up(if preferred_base > min_load { preferred_base as int } else { min_load }) - min_load
    } else {
        0
    }
}

/// The machine matches, every header can be read, and there is a loadable
/// segment: what the addresses of a loadable image are computed from.
pub open spec fn elf_loadable(
    h: ElfHeader,
    machine: ElfMachine,
    expected: ElfMachine,
    segs: Seq<ElfSegment>,
    image: Seq<u8>,
) -> bool {
    &&& machine == expected
    &&& elf_scan(segs, image) matches Ok(st) && st.min_load is Some
    &&& (h.elf_type == ET_EXEC || h.elf_type == ET_DYN)
}

/// Every address `analyze_elf` computes for the image fits in 64 bits.
pub open spec fn elf_fits(
    h: ElfHeader,
    machine: ElfMachine,
    expected: ElfMachine,
    segs: Seq<ElfSegment>,
    image: Seq<u8>,
    preferred_base: u64,
) -> bool {
    machine == expected ==> {
        &&& scan_fits(segs, image)
        &&& elf_loadable(h, machine, expected, segs, image) ==> {
            let st = elf_scan(segs, image)->Ok_0;
            let m = st.min_load->0;
            let top = if preferred_base > m { preferred_base as int } else { m };
            let bias = load_bias_of(h.elf_type, m, preferred_base);
            &&& (h.elf_type == ET_DYN ==> top == 0 || top + 4095 <= u64::MAX)
            &&& bias + h.entry <= u64::MAX
            &&& bias + st.max_end <= u64::MAX
            &&& phdr_of(segs, h.ph_offset, bias) matches Some(p) ==> p <= u64::MAX
        }
    }
}

/// The placement of the image, or why it cannot be loaded.
pub open spec fn elf_info_of(
    h: ElfHeader,
    machine: ElfMachine,
    expected: ElfMachine,
    segs: Seq<ElfSegment>,
    image: Seq<u8>,
    preferred_base: u64,
) -> Result<(int, int, int, int, int, Option<Seq<u8>>), ElfError> {
    if machine != expected {
        Err(ElfError::MachineMismatch)
    } else {
        match elf_scan(segs, image) {
            Err(e) => Err(e),
            Ok(st) => match st.min_load {
                None => Err(ElfError::NoLoadSegments),
                Some(m) => if h.elf_type != ET_EXEC && h.elf_type != ET_DYN {
                    Err(ElfError::UnsupportedType)
                } else {
                    let bias = load_bias_of(h.elf_type, m, preferred_base);
                    Ok(
                        (
                            bias,
                            bias + h.entry,
                            match phdr_of(segs, h.ph_offset, bias) {
                                Some(p) => p,
                                None => 0,
                            },
                            bias + st.max_end,
                            bias,
                            st.interp,
                        ),
                    )
                },
            },
        }
    }
}

/// The view of a placement.
pub open spec fn load_info_view(i: ElfLoadInfo) -> (int, int, int, int, int, Option<Seq<u8>>) {
    (
        i.load_bias as int,
        i.entry as int,
        i.phdr as int,
        i.max_segment_end as int,
        i.base as int,
        match i.interpreter {
            Some(v) => Some(v@),
            None => None,
        },
    )
}


/// What holds of the pass over all program headers holds of every prefix.
pub proof fn lemma_scan_fits_prefix(segs: Seq<ElfSegment>, image: Seq<u8>, i: int)
    requires
        scan_fits(segs, image),
        0 <= i <= segs.len(),
    ensures
        scan_fits(segs.take(i), image),
    decreases segs.len() - i,
{
    if i == segs.len() {
        assert(segs.take(i) =~= segs);
    } else {
        lemma_scan_fits_prefix(segs, image, i + 1);
        assert(segs.take(i + 1).drop_last() =~= segs.take(i));
    }
}

/// Once the pass fails on a prefix, it fails the same way on the whole.
pub proof fn lemma_scan_err_extends(segs: Seq<ElfSegment>, image: Seq<u8>, i: int)
    requires
        0 <= i <= segs.len(),
        elf_scan(segs.take(i), image) is Err,
    ensures
        elf_scan(segs, image) == elf_scan(segs.take(i), image),
    decreases segs.len() - i,
{
    if i == segs.len() {
        assert(segs.take(i) =~= segs);
    } else {
        assert(segs.take(i + 1).drop_last() =~= segs.take(i));
        lemma_scan_err_extends(segs, image, i + 1);
    }
}

/// The view of a scan state.
pub open spec fn scan_view(min_load: Option<u64>, max_end: u64, interp: Option<Vec<u8>>) -> ScanState {
    ScanState {
        min_load: match min_load {
            Some(m) => Some(m as int),
            None => None,
        },
        max_end: max_end as int,
        interp: match interp {
            Some(v) => Some(v@),
            None => None,
        },
    }
}

/// Passes over the program headers: the lowest segment start, the highest
/// segment end and the interpreter.
pub fn scan_segments(segs: &[ElfSegment], image: &[u8]) -> (r: Result<
    (Option<u64>, u64, Option<Vec<u8>>),
    ElfError,
>)
    requires
        scan_fits(segs@, image@),
    ensures
        match (r, elf_scan(segs@, image@)) {
            (Ok((m, e, p)), Ok(st)) => scan_view(m, e, p) == st,
            (Err(e), Err(f)) => e == f,
            _ => false,
        },
{
    let mut min_load: Option<u64> = None;
    let mut max_end: u64 = 0;
    let mut interp: Option<Vec<u8>> = None;
    let mut i: usize = 0;
    proof {
        assert(segs@.take(0) =~= Seq::<ElfSegment>::empty());
    }
    while i < segs.len()
        invariant
            i <= segs@.len(),
            scan_fits(segs@, image@),
            elf_scan(segs@.take(i as int), image@) == Ok::<ScanState, ElfError>(
                scan_view(min_load, max_end, interp),
            ),
        decreases segs@.len() - i,
    {
        let s = segs[i];
        proof {
            lemma_scan_fits_prefix(segs@, image@, i + 1);
            assert(segs@.take(i + 1).drop_last() =~= segs@.take(i as int));
            assert(segs@.take(i + 1).last() == s);
        }
        match s.kind {
            PhKind::Invalid => {
                proof {
                    lemma_scan_err_extends(segs@, image@, i + 1);
                }
                return Err(ElfError::InvalidSegmentType);
            },
            PhKind::Load => {
                let start = align_down(s.vaddr, 4096);
                let end = align_up(s.vaddr + s.mem_size, 4096);
                assert(end == seg_end(s));
                min_load = Some(
                    match min_load {
                        Some(m) => if start < m {
                            start
                        } else {
                            m
                        },
                        None => start,
                    },
                );
                if end > max_end {
                    max_end = end;
                }
            },
            PhKind::Interp => {
                match read_interp_path(image, s.offset, s.file_size) {
                    Ok(p) => {
                        interp = Some(p);
                    },
                    Err(e) => {
                        proof {
                            lemma_scan_err_extends(segs@, image@, i + 1);
                        }
                        return Err(e);
                    },
                }
            },
            _ => {},
        }
        i = i + 1;
    }
    proof {
        assert(segs@.take(segs@.len() as int) =~= segs@);
    }
    Ok((min_load, max_end, interp))
}

/// Where the program headers are in memory (see `phdr_of`).
pub fn phdr_addr(segs: &[ElfSegment], phoff: u64, bias: u64) -> (r: Option<u64>)
    requires
        phdr_of(segs@, phoff, bias as int) matches Some(p) ==> p <= u64::MAX,
    ensures
        match phdr_of(segs@, phoff, bias as int) {
            Some(p) => r matches Some(x) && x as int == p,
            None => r is None,
        },
{
    let mut i: usize = 0;
    assert(segs@.skip(0) =~= segs@);
    while i < segs.len()
        invariant
            i <= segs@.len(),
            phdr_of(segs@, phoff, bias as int) == phdr_of(segs@.skip(i as int), phoff, bias as int),
            phdr_of(segs@, phoff, bias as int) matches Some(p) ==> p <= u64::MAX,
        decreases segs@.len() - i,
    {
        let s = segs[i];
        proof {
            let t = segs@.skip(i as int);
            assert(t[0] == s);
            assert(t.drop_first() =~= segs@.skip(i + 1));
        }
        match s.kind {
            PhKind::Invalid => {
                return None;
            },
            PhKind::Load => {
                if s.offset > u64::MAX - s.file_size {
                    return None;
                }
                if s.offset <= phoff && phoff < s.offset + s.file_size {
                    return Some(bias + s.vaddr + (phoff - s.offset));
                }
            },
            _ => {},
        }
        i = i + 1;
    }
    proof {
        assert(segs@.skip(segs@.len() as int) =~= Seq::<ElfSegment>::empty());
    }
    None
}


/// Once the pass has failed, no later segment is reached.
pub proof fn lemma_fits_after_err(segs: Seq<ElfSegment>, image: Seq<u8>, i: int)
    requires
        0 <= i <= segs.len(),
        elf_scan(segs.take(i), image) is Err,
        scan_fits(segs.take(i), image),
    ensures
        scan_fits(segs, image),
    decreases segs.len() - i,
{
    if i == segs.len() {
        assert(segs.take(i) =~= segs);
    } else {
        let t = segs.take(i + 1);
        assert(t.drop_last() =~= segs.take(i));
        assert(t.take(i) =~= segs.take(i));
        lemma_scan_err_extends(t, image, i);
        lemma_fits_after_err(segs, image, i + 1);
    }
}

/// Whether every loadable segment the pass reaches ends within 64 bits.
pub fn scan_fits_check(segs: &[ElfSegment], image: &[u8]) -> (r: bool)
    ensures
        r == scan_fits(segs@, image@),
{
    let mut i: usize = 0;
    assert(segs@.take(0) =~= Seq::<ElfSegment>::empty());
    while i < segs.len()
        invariant
            i <= segs@.len(),
            scan_fits(segs@.take(i as int), image@),
            elf_scan(segs@.take(i as int), image@) is Ok,
        decreases segs@.len() - i,
    {
        let s = segs[i];
        let ghost t = segs@.take(i + 1);
        proof {
            assert(t.drop_last() =~= segs@.take(i as int));
            assert(t.last() == s);
        }
        match s.kind {
            PhKind::Invalid => {
                proof {
                    lemma_fits_after_err(segs@, image@, i + 1);
                }
                return true;
            },
            PhKind::Load => {
                if s.vaddr > u64::MAX - s.mem_size || (s.vaddr + s.mem_size != 0 && s.vaddr
                    + s.mem_size > u64::MAX - 4095) {
                    proof {
                        if scan_fits(segs@, image@) {
                            lemma_scan_fits_prefix(segs@, image@, i + 1);
                        }
                    }
                    return false;
                }
            },
            PhKind::Interp => {
                if read_interp_path(image, s.offset, s.file_size).is_err() {
                    proof {
                        lemma_fits_after_err(segs@, image@, i + 1);
                    }
                    return true;
                }
            },
            _ => {},
        }
        i = i + 1;
    }
    assert(segs@.take(segs@.len() as int) =~= segs@);
    true
}

/// Where the program headers are in memory, computed without bound.
fn phdr_wide(segs: &[ElfSegment], phoff: u64, bias: u64) -> (r: Option<u128>)
    ensures
        match phdr_of(segs@, phoff, bias as int) {
            Some(p) => r matches Some(x) && x as int == p,
            None => r is None,
        },
{
    let mut i: usize = 0;
    assert(segs@.skip(0) =~= segs@);
    while i < segs.len()
        invariant
            i <= segs@.len(),
            phdr_of(segs@, phoff, bias as int) == phdr_of(segs@.skip(i as int), phoff, bias as int),
        decreases segs@.len() - i,
    {
        let s = segs[i];
        proof {
            let t = segs@.skip(i as int);
            assert(t[0] == s);
            assert(t.drop_first() =~= segs@.skip(i + 1));
        }
        match s.kind {
            PhKind::Invalid => {
                return None;
            },
            PhKind::Load => {
                if s.offset > u64::MAX - s.file_size {
                    return None;
                }
                if s.offset <= phoff && phoff < s.offset + s.file_size {
                    return Some(bias as u128 + s.vaddr as u128 + (phoff - s.offset) as u128);
                }
            },
            _ => {},
        }
        i = i + 1;
    }
    assert(segs@.skip(segs@.len() as int) =~= Seq::<ElfSegment>::empty());
    None
}

/// Whether every address `analyze_elf` computes for the image fits in 64
/// bits.
pub fn elf_fits_check(
    h: ElfHeader,
    machine: ElfMachine,
    expected: ElfMachine,
    segs: &[ElfSegment],
    image: &[u8],
    preferred_base: u64,
) -> (r: bool)
    ensures
        r == elf_fits(h, machine, expected, segs@, image@, preferred_base),
{
    if machine != expected {
        return true;
    }
    if !scan_fits_check(segs, image) {
        return false;
    }
    let (min_load, max_end, _interp) = match scan_segments(segs, image) {
        Ok(st) => st,
        Err(_) => return true,
    };
    let m = match min_load {
        Some(m) => m,
        None => return true,
    };
    if h.elf_type != ET_EXEC && h.elf_type != ET_DYN {
        return true;
    }
    let bias: u64 = if h.elf_type == ET_DYN {
        let top = if preferred_base > m {
            preferred_base
        } else {
            m
        };
        if top != 0 && top > u64::MAX - 4095 {
            return false;
        }
        let mapped = align_up(top, 4096);
        mapped - m
    } else {
        0
    };
    if bias > u64::MAX - h.entry || bias > u64::MAX - max_end {
        return false;
    }
    match phdr_wide(segs, h.ph_offset, bias) {
        Some(p) => p <= u64::MAX as u128,
        None => true,
    }
}

/// Places an ELF image whose header `h`, machine and program headers `segs`
/// were read from `image`: checks the machine, passes over the program
/// headers, and computes the load bias (a shared object goes at
/// `preferred_base` or above), the entry point, the program headers' address
/// and the end of the image.
pub fn analyze_elf(
    h: ElfHeader,
    machine: ElfMachine,
    expected: ElfMachine,
    segs: &[ElfSegment],
    image: &[u8],
    preferred_base: u64,
) -> (r: Result<ElfLoadInfo, ElfError>)
    requires
        elf_fits(h, machine, expected, segs@, image@, preferred_base),
    ensures
        match (r, elf_info_of(h, machine, expected, segs@, image@, preferred_base)) {
            (Ok(i), Ok(v)) => load_info_view(i) == v,
            (Err(e), Err(f)) => e == f,
            _ => false,
        },
{
    if machine != expected {
        return Err(ElfError::MachineMismatch);
    }
    let (min_load, max_end, interp) = match scan_segments(segs, image) {
        Ok(st) => st,
        Err(e) => return Err(e),
    };
    let m = match min_load {
        Some(m) => m,
        None => return Err(ElfError::NoLoadSegments),
    };
    let bias: u64 = if h.elf_type == ET_EXEC {
        0
    } else if h.elf_type == ET_DYN {
        let top = if preferred_base > m {
            preferred_base
        } else {
            m
        };
        let mapped = align_up(top, 4096);
        mapped - m
    } else {
        return Err(ElfError::UnsupportedType);
    };
    let phdr = match phdr_addr(segs, h.ph_offset, bias) {
        Some(p) => p,
        None => 0,
    };
    let info = ElfLoadInfo {
        load_bias: bias,
        entry: bias + h.entry,
        phdr,
        max_segment_end: bias + max_end,
        base: bias,
        interpreter: interp,
    };
    Ok(info)
}

/// Reads `image` with `xmas_elf` and places it: `InvalidElf` when
/// `xmas_elf` refuses the image, `ProgramHeadersUnreadable` when its program
/// header table cannot be read from it, `AddressOverflow` when an address
/// computed for it would not fit in 64 bits, otherwise what `analyze_elf`
/// decides.
pub fn load_elf_info(image: &[u8], preferred_base: u64, expected: ElfMachine) -> (r: Result<
    ElfLoadInfo,
    ElfError,
>)
    ensures
        match elf_header_of(image@) {
            None => r matches Err(e) && e == ElfError::InvalidElf,
            Some(h) => if !ph_table_readable(h, image@.len() as int) {
                r matches Err(e) && e == ElfError::ProgramHeadersUnreadable
            } else {
                match elf_segments_of(image@) {
                    Some(segs) => if elf_fits(h, h.machine, expected, segs, image@, preferred_base) {
                        match (r, elf_info_of(h, h.machine, expected, segs, image@, preferred_base)) {
                            (Ok(i), Ok(v)) => load_info_view(i) == v,
                            (Err(e), Err(f)) => e == f,
                            _ => false,
                        }
                    } else {
                        r matches Err(e) && e == ElfError::AddressOverflow
                    },
                    None => false,
                }
            },
        },
{
    let h = match elf_header(image) {
        Some(h) => h,
        None => return Err(ElfError::InvalidElf),
    };
    if !ph_table_readable_check(h, image.len()) {
        return Err(ElfError::ProgramHeadersUnreadable);
    }
    let segs = match elf_segments(image) {
        Some(s) => s,
        None => return Err(ElfError::InvalidElf),
    };
    if !elf_fits_check(h, h.machine, expected, segs.as_slice(), image, preferred_base) {
        return Err(ElfError::AddressOverflow);
    }
    analyze_elf(h, h.machine, expected, segs.as_slice(), image, preferred_base)
}

/// The memory a loadable segment occupies: its page-rounded range and its
/// access rights.
#[derive(Clone, Copy, Debug, PartialEq, Eq, Structural)]
pub struct SegmentMapping {
    pub start: u64,
    pub size: u64,
    pub perms: MapPerms,
}

/// What of the file a loadable segment copies: `len` bytes from `offset` of
/// the image to address `dst`.
#[derive(Clone, Copy, Debug, PartialEq, Eq, Structural)]
pub struct SegmentCopy {
    pub dst: u64,
    pub offset: u64,
    pub len: u64,
}

/// The range and rights to map for the loadable segment `seg` of an image
/// placed with load bias `bias`; nothing for an empty segment.
pub fn segment_mapping(seg: &ElfSegment, bias: u64) -> (r: Option<SegmentMapping>)
    requires
        bias + seg.vaddr <= u64::MAX,
        seg.mem_size != 0 ==> bias + seg.vaddr + seg.mem_size + 4095 <= u64::MAX,
    ensures
        seg.mem_size == 0 ==> r is None,
        seg.mem_size != 0 ==> (r matches Some(m) && {
            let s = bias + seg.vaddr;
            &&& m.start == s - s % 4096
            &&& m.start + m.size == page_up(s + seg.mem_size)
            &&& m.perms.read == (seg.flags & PF_R != 0 || seg.flags & PF_X != 0)
            &&& m.perms.write == (seg.flags & PF_W != 0)
            &&& m.perms.execute == (seg.flags & PF_X != 0)
        }),
{
    if seg.mem_size == 0 {
        return None;
    }
    let start = bias + seg.vaddr;
    let seg_start = align_down(start, 4096);
    let seg_end = align_up(start + seg.mem_size, 4096);
    proof {
        crate::memory::lemma_page_up(start + seg.mem_size);
    }
    Some(SegmentMapping { start: seg_start, size: seg_end - seg_start, perms: perms_from_ph(seg.flags) })
}

/// The bytes of the image that fill the loadable segment `seg` once it is
/// mapped (with load bias `bias`): nothing for an empty segment or one with
/// no file bytes, an error when its file range does not fit or lies beyond
/// the image of `image_len` bytes.
pub fn segment_copy(seg: &ElfSegment, bias: u64, image_len: u64) -> (r: Result<Option<SegmentCopy>, ElfError>)
    requires
        bias + seg.vaddr <= u64::MAX,
    ensures
        r == if seg.mem_size == 0 || seg.file_size == 0 {
            Ok::<Option<SegmentCopy>, ElfError>(None)
        } else if seg.offset + seg.file_size > u64::MAX {
            Err(ElfError::SegmentRangeOverflow)
        } else if seg.offset + seg.file_size > image_len {
            Err(ElfError::SegmentOutOfImage)
        } else {
            Ok(Some(SegmentCopy { dst: (bias + seg.vaddr) as u64, offset: seg.offset, len: seg.file_size }))
        },
{
    if seg.mem_size == 0 || seg.file_size == 0 {
        return Ok(None);
    }
    if seg.offset > u64::MAX - seg.file_size {
        return Err(ElfError::SegmentRangeOverflow);
    }
    if seg.offset + seg.file_size > image_len {
        return Err(ElfError::SegmentOutOfImage);
    }
    Ok(Some(SegmentCopy { dst: bias + seg.vaddr, offset: seg.offset, len: seg.file_size }))
}

/// The program headers of `image`, in order, as `xmas_elf` reads them; none
/// when it refuses the image or when its program header table cannot be read
/// from it.
pub fn program_headers(image: &[u8]) -> (r: Option<Vec<ElfSegment>>)
    ensures
        r matches Some(v) ==> elf_segments_of(image@) == Some(v@),
        r matches Some(v) ==> (elf_header_of(image@) matches Some(h) && v@.len() == ph_read_count(h)),
        r is Some <==> (elf_header_of(image@) matches Some(h) && ph_table_readable(
            h,
            image@.len() as int,
        )),
{
    let h = match elf_header(image) {
        Some(h) => h,
        None => return None,
    };
    if !ph_table_readable_check(h, image.len()) {
        return None;
    }
    elf_segments(image)
}

/// The file header of `image` as `xmas_elf` reads it; none when it refuses
/// the image.
pub fn file_header(image: &[u8]) -> (r: Option<ElfHeader>)
    ensures
        r == elf_header_of(image@),
{
    elf_header(image)
}

/// Where a loaded program starts running and its break area.
#[derive(Clone, Copy, Debug, PartialEq, Eq, Structural)]
pub struct ImagePlan {
    /// The first instruction: the interpreter's entry when there is one,
    /// the program's own otherwise.
    pub entry: u64,
    /// The interpreter's load address (`AT_BASE`), 0 without one.
    pub interp_base: u64,
    /// The break area, above everything mapped.
    pub brk: BrkState,
}

/// Why a program's memory layout cannot be made.
#[derive(Clone, Copy, Debug, PartialEq, Eq, Structural)]
pub enum ImagePlanError {
    /// An address of the layout does not fit in 64 bits.
    AddressOverflow,
    /// The break area does not fit below the stack.
    AddressSpaceTooSmall,
}

/// The layout of a program placed as `main`, with the interpreter placed
/// as `interp` when it has one (see `image_plan`).
pub open spec fn image_plan_of(
    main_end: u64,
    main_entry: u64,
    interp: Option<(u64, u64, u64)>,
) -> Result<ImagePlan, ImagePlanError> {
    let (entry, base, mapped_end) = match interp {
        Some((e, b, end)) => (e, b, if end > main_end { end } else { main_end }),
        None => (main_entry, 0u64, main_end),
    };
    if main_end > u64::MAX - USER_BRK_GROW_SIZE - 8191 || mapped_end > u64::MAX - 4096 - 4095 {
        Err(ImagePlanError::AddressOverflow)
    } else {
        match initial_brk_of(main_end as int, mapped_end as int) {
            Some(brk) => Ok(ImagePlan { entry, interp_base: base, brk }),
            None => Err(ImagePlanError::AddressSpaceTooSmall),
        }
    }
}

/// The layout of a loaded program placed as `main` and, when it asks for
/// one, its interpreter placed as `interp`: execution starts at the
/// interpreter's entry when there is one and at the program's otherwise;
/// the interpreter's base is reported; the break area starts on the page
/// after the program's image and stays clear of everything mapped.
pub fn image_plan(main: &ElfLoadInfo, interp: Option<&ElfLoadInfo>) -> (r: Result<ImagePlan, ImagePlanError>)
    ensures
        r == image_plan_of(
            main.max_segment_end,
            main.entry,
            match interp {
                Some(i) => Some((i.entry, i.base, i.max_segment_end)),
                None => None,
            },
        ),
{
    let main_end = main.max_segment_end;
    let (entry, base, mapped_end) = match interp {
        Some(i) => (i.entry, i.base, if i.max_segment_end > main_end { i.max_segment_end } else { main_end }),
        None => (main.entry, 0u64, main_end),
    };
    if main_end > u64::MAX - USER_BRK_GROW_SIZE - 8191 || mapped_end > u64::MAX - 4096 - 4095 {
        return Err(ImagePlanError::AddressOverflow);
    }
    proof {
        lemma_page_up(main_end as int);
    }
    match initial_brk(main_end, mapped_end) {
        Some(brk) => Ok(ImagePlan { entry, interp_base: base, brk }),
        None => Err(ImagePlanError::AddressSpaceTooSmall),
    }
}

} // verus!
