use vstd::prelude::*;

verus! {

/// `value`, which holds `bits` bits, read as a two's-complement number.
pub open spec fn signed_of(value: int, bits: nat) -> int {
    if value >= vstd::arithmetic::power2::pow2((bits - 1) as nat) {
        value - vstd::arithmetic::power2::pow2(bits)
    } else {
        value
    }
}

/// Sign-extends the low `bits` bits of `value` (13 for conditional
/// branches, 9 for compressed ones).
pub fn sign_extend(value: u64, bits: u64) -> (r: i64)
    requires
        bits == 13 || bits == 9,
        value < vstd::arithmetic::power2::pow2(bits as nat),
    ensures
        r == signed_of(value as int, bits as nat),
{
    proof {
        vstd::arithmetic::power2::lemma2_to64();
    }
    let shift = 64 - bits;
    let r = ((value << shift) as i64) >> shift;
    if bits == 13 {
        assert(value < 0x2000 ==> (((value << 51u64) as i64) >> 51u64) == if value >= 0x1000 {
            value - 0x2000
        } else {
            value as int
        }) by (bit_vector);
    } else {
        assert(value < 0x200 ==> (((value << 55u64) as i64) >> 55u64) == if value >= 0x100 {
            value - 0x200
        } else {
            value as int
        }) by (bit_vector);
    }
    r
}

/// The offset of a B-type (conditional branch) instruction.
pub open spec fn b_imm(inst: u32) -> u32 {
    (((inst >> 31) & 0x1) << 12) | (((inst >> 7) & 0x1) << 11) | (((inst >> 25) & 0x3f) << 5) | (((
    inst >> 8) & 0xf) << 1)
}

/// `pc` moved by a signed offset, wrapping around the address space.
pub open spec fn pc_plus(pc: u64, off: int) -> u64 {
    if pc + off > u64::MAX {
        (pc + off - 0x1_0000_0000_0000_0000int) as u64
    } else if pc + off < 0 {
        (pc + off + 0x1_0000_0000_0000_0000int) as u64
    } else {
        (pc + off) as u64
    }
}

/// Where a B-type instruction `inst` at `pc` goes when it compares `a0` with
/// the zero register (either way round): the branch target if the
/// comparison holds, the next instruction otherwise. `None` for any other
/// instruction.
pub open spec fn b_type_next_of(pc: u64, inst: u32, a0: u64) -> Option<u64> {
    let funct3 = (inst >> 12) & 0x7;
    let rs1 = (inst >> 15) & 0x1f;
    let rs2 = (inst >> 20) & 0x1f;
    let v1: u64 = if rs1 == 10 { a0 } else { 0 };
    let v2: u64 = if rs2 == 10 { a0 } else { 0 };
    if inst & 0x7f != 0x63 {
        None
    } else if !((rs1 == 10 && rs2 == 0) || (rs1 == 0 && rs2 == 10)) {
        None
    } else if funct3 == 2 || funct3 == 3 {
        None
    } else {
        let taken = if funct3 == 0 {
            v1 == v2
        } else if funct3 == 1 {
            v1 != v2
        } else if funct3 == 4 {
            (v1 as i64) < (v2 as i64)
        } else if funct3 == 5 {
            (v1 as i64) >= (v2 as i64)
        } else if funct3 == 6 {
            v1 < v2
        } else {
            v1 >= v2
        };
        Some(
            if taken {
                pc_plus(pc, signed_of(b_imm(inst) as int, 13))
            } else {
                (pc + 4) as u64
            },
        )
    }
}

/// Follows one conditional branch on `a0` (see `b_type_next_of`).
pub fn riscv_b_type_next_pc(pc: u64, inst: u32, a0: u64) -> (r: Option<u64>)
    requires
        pc + 4 <= u64::MAX,
    ensures
        r == b_type_next_of(pc, inst, a0),
{
    if inst & 0x7f != 0x63 {
        return None;
    }
    let funct3 = (inst >> 12) & 0x7;
    let rs1 = (inst >> 15) & 0x1f;
    let rs2 = (inst >> 20) & 0x1f;
    if !((rs1 == 10 && rs2 == 0) || (rs1 == 0 && rs2 == 10)) {
        return None;
    }
    assert(funct3 < 8) by (bit_vector)
        requires
            funct3 == (inst >> 12) & 0x7,
    ;
    let v1: u64 = if rs1 == 10 { a0 } else { 0 };
    let v2: u64 = if rs2 == 10 { a0 } else { 0 };
    let taken = if funct3 == 0 {
        v1 == v2
    } else if funct3 == 1 {
        v1 != v2
    } else if funct3 == 4 {
        (v1 as i64) < (v2 as i64)
    } else if funct3 == 5 {
        (v1 as i64) >= (v2 as i64)
    } else if funct3 == 6 {
        v1 < v2
    } else if funct3 == 7 {
        v1 >= v2
    } else {
        return None;
    };
    let imm = (((inst >> 31) & 0x1) << 12) | (((inst >> 7) & 0x1) << 11) | (((inst >> 25) & 0x3f)
        << 5) | (((inst >> 8) & 0xf) << 1);
    assert(imm < 0x2000) by (bit_vector)
        requires
            imm == (((inst >> 31) & 0x1) << 12) | (((inst >> 7) & 0x1) << 11) | (((inst >> 25)
                & 0x3f) << 5) | (((inst >> 8) & 0xf) << 1),
    ;
    proof {
        vstd::arithmetic::power2::lemma2_to64();
    }
    let off = sign_extend(imm as u64, 13);
    let target = pc.wrapping_add_signed(off);
    Some(if taken { target } else { pc + 4 })
}

/// The offset of a compressed branch `inst`.
pub open spec fn cb_imm(inst: u16) -> u16 {
    (((inst >> 12) & 0x1) << 8) | (((inst >> 10) & 0x3) << 3) | (((inst >> 2) & 0x1) << 5) | (((inst
        >> 5) & 0x3) << 6) | (((inst >> 3) & 0x3) << 1)
}

/// Where a compressed `c.beqz`/`c.bnez` on `a0` at `pc` goes: the target if
/// it is taken, the next instruction otherwise. `None` for any other
/// instruction.
pub open spec fn compressed_next_of(pc: u64, inst: u16, a0: u64) -> Option<u64> {
    let funct3 = (inst >> 13) & 0x7;
    let rs1 = 8 + ((inst >> 7) & 0x7);
    if inst & 0x3 != 0x1 {
        None
    } else if funct3 != 6 && funct3 != 7 {
        None
    } else if rs1 != 10 {
        None
    } else {
        let taken = if funct3 == 6 {
            a0 == 0
        } else {
            a0 != 0
        };
        Some(
            if taken {
                pc_plus(pc, signed_of(cb_imm(inst) as int, 9))
            } else {
                (pc + 2) as u64
            },
        )
    }
}

/// Follows one compressed branch on `a0` (see `compressed_next_of`).
pub fn riscv_compressed_branch_next_pc(pc: u64, inst: u16, a0: u64) -> (r: Option<u64>)
    requires
        pc + 2 <= u64::MAX,
    ensures
        r == compressed_next_of(pc, inst, a0),
{
    if inst & 0x3 != 0x1 {
        return None;
    }
    let funct3 = (inst >> 13) & 0x7;
    if funct3 != 6 && funct3 != 7 {
        return None;
    }
    let reg = (inst >> 7) & 0x7;
    assert(reg < 8) by (bit_vector)
        requires
            reg == (inst >> 7) & 0x7,
    ;
    let rs1 = 8 + reg;
    if rs1 != 10 {
        return None;
    }
    let taken = if funct3 == 6 {
        a0 == 0
    } else {
        a0 != 0
    };
    let imm = (((inst >> 12) & 0x1) << 8) | (((inst >> 10) & 0x3) << 3) | (((inst >> 2) & 0x1)
        << 5) | (((inst >> 5) & 0x3) << 6) | (((inst >> 3) & 0x3) << 1);
    assert(imm < 0x200) by (bit_vector)
        requires
            imm == (((inst >> 12) & 0x1) << 8) | (((inst >> 10) & 0x3) << 3) | (((inst >> 2)
                & 0x1) << 5) | (((inst >> 5) & 0x3) << 6) | (((inst >> 3) & 0x3) << 1),
    ;
    proof {
        vstd::arithmetic::power2::lemma2_to64();
    }
    let off = sign_extend(imm as u64, 9);
    let target = pc.wrapping_add_signed(off);
    Some(if taken { target } else { pc + 2 })
}

/// Where the branch at `pc` leads on `a0`: a full-width instruction (low two
/// bits of its first half-word set) is read as `word`, which is `None` when
/// it cannot be read; anything else is a compressed one.
pub open spec fn branch_next_of(pc: u64, low: u16, word: Option<u32>, a0: u64) -> Option<u64> {
    if low & 0x3 == 0x3 {
        match word {
            Some(inst) => b_type_next_of(pc, inst, a0),
            None => None,
        }
    } else {
        compressed_next_of(pc, low, a0)
    }
}

/// Follows the branch at `pc`, given its first half-word `low` and its full
/// word (see `branch_next_of`).
pub fn riscv_branch_next_pc(pc: u64, low: u16, word: Option<u32>, a0: u64) -> (r: Option<u64>)
    requires
        pc + 4 <= u64::MAX,
    ensures
        r == branch_next_of(pc, low, word, a0),
{
    if low & 0x3 == 0x3 {
        match word {
            Some(inst) => riscv_b_type_next_pc(pc, inst, a0),
            None => None,
        }
    } else {
        riscv_compressed_branch_next_pc(pc, low, a0)
    }
}

} // verus!
