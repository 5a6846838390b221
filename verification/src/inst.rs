//! Accessors for the external VM's decoded instruction word.  The decoder
//! hands each RISC-V instruction over as one 64-bit word with the opcode in
//! its low byte, flags holding the instruction length, and register indices
//! and immediate packed into the upper bytes; the accessors here read that
//! packing and are verified against its specification.

use vstd::prelude::*;

verus! {

/// Addition modulo two to the sixty-fourth power.
pub open spec fn wrap_add64(a: u64, b: u64) -> u64 {
    (((a as int) + (b as int)) % 0x1_0000_0000_0000_0000) as u64
}

/// Opcode of the direct jump-and-link instruction.
pub const OP_JAL: u16 = 0xa7;

/// Opcode of the register-indirect jump-and-link instruction, oldest
/// machine version.
pub const OP_JALR_VERSION0: u16 = 0xa8;

/// Opcode of the register-indirect jump-and-link instruction, later
/// machine versions.
pub const OP_JALR_VERSION1: u16 = 0xa9;

/// Opcode of the fused far jump relative to the program counter.
pub const OP_FAR_JUMP_REL: u16 = 0xaa;

/// Opcode of the fused far jump to an absolute address.
pub const OP_FAR_JUMP_ABS: u16 = 0xab;

/// The opcode packed into a decoded instruction word: its low byte plus the
/// secondary opcode byte.
pub open spec fn spec_opcode(inst: u64) -> u16 {
    (((inst >> 8) & 0xff00) | (inst & 0x00ff)) as u16
}

/// The instruction's byte length, stored halved in the flag byte.
pub open spec fn spec_inst_length(inst: u64) -> u64 {
    ((inst >> 24) & 0x0f) << 1
}

/// The register index field `rs1`.
pub open spec fn spec_rs1(inst: u64) -> int {
    ((inst >> 32) & 0xff) as int
}

/// The U-type immediate, sign-extended to sixty-four bits: the top four
/// bytes of the word, negative when the word's top bit is set.
pub open spec fn spec_imm_u(inst: u64) -> u64 {
    if (inst >> 63) & 1 == 1 {
        (inst >> 32) | 0xffffffff_00000000
    } else {
        inst >> 32
    }
}

/// The I-type immediate, sign-extended to sixty-four bits: the top three
/// bytes of the word, negative when the word's top bit is set.
pub open spec fn spec_imm_i(inst: u64) -> u64 {
    if (inst >> 63) & 1 == 1 {
        (inst >> 40) | 0xffffffff_ff000000
    } else {
        inst >> 40
    }
}

/// A register read that yields zero for an index outside the register
/// file; the external decoder only produces indices below thirty-two.
pub open spec fn reg_at(regs: Seq<u64>, idx: int) -> u64 {
    if 0 <= idx < regs.len() {
        regs[idx]
    } else {
        0
    }
}

/// Where a control-transfer instruction jumps, and the address the jump
/// would return to: the target is computed from the program counter, the
/// immediate and, for register-indirect jumps, the `rs1` register, with its
/// lowest bit cleared; any other instruction transfers no control.
pub open spec fn spec_transfer(inst: u64, pc: u64, regs: Seq<u64>) -> Option<(u64, u64)> {
    let op = spec_opcode(inst);
    let link = wrap_add64(pc, spec_inst_length(inst));
    if op == OP_JAL {
        Some((wrap_add64(pc, spec_imm_u(inst)) & 0xfffffffffffffffe, link))
    } else if op == OP_JALR_VERSION0 || op == OP_JALR_VERSION1 {
        Some(
            (
                wrap_add64(reg_at(regs, spec_rs1(inst)), spec_imm_i(inst)) & 0xfffffffffffffffe,
                link,
            ),
        )
    } else if op == OP_FAR_JUMP_ABS {
        Some((spec_imm_u(inst) & 0xfffffffffffffffe, link))
    } else if op == OP_FAR_JUMP_REL {
        Some((wrap_add64(pc, spec_imm_u(inst)) & 0xfffffffffffffffe, link))
    } else {
        None
    }
}

/// Read the opcode out of a decoded instruction word.
pub fn extract_opcode(inst: u64) -> (r: u16)
    ensures
        r == spec_opcode(inst),
{
    (((inst >> 8) & 0xff00) | (inst & 0x00ff)) as u16
}

/// Read the instruction's byte length out of a decoded instruction word.
pub fn instruction_length(inst: u64) -> (r: u64)
    ensures
        r == spec_inst_length(inst),
{
    ((inst >> 24) & 0x0f) << 1
}

/// Read the sign-extended U-type immediate.
pub fn imm_u(inst: u64) -> (r: u64)
    ensures
        r == spec_imm_u(inst),
{
    if (inst >> 63) & 1 == 1 {
        (inst >> 32) | 0xffffffff_00000000
    } else {
        inst >> 32
    }
}

/// Read the sign-extended I-type immediate.
pub fn imm_i(inst: u64) -> (r: u64)
    ensures
        r == spec_imm_i(inst),
{
    if (inst >> 63) & 1 == 1 {
        (inst >> 40) | 0xffffffff_ff000000
    } else {
        inst >> 40
    }
}

/// Classify a decoded instruction word as a control transfer or not; for a
/// transfer, return its target address and return link.
pub fn decode_transfer(inst: u64, pc: u64, regs: &[u64; 32]) -> (r: Option<(u64, u64)>)
    ensures
        r == spec_transfer(inst, pc, regs@),
{
    let op = extract_opcode(inst);
    if op != OP_JAL && op != OP_JALR_VERSION0 && op != OP_JALR_VERSION1 && op != OP_FAR_JUMP_ABS
        && op != OP_FAR_JUMP_REL {
        return None;
    }
    let link = pc.wrapping_add(instruction_length(inst));
    proof {
        assert(link == wrap_add64(pc, spec_inst_length(inst)));
    }
    if op == OP_JAL {
        let target = pc.wrapping_add(imm_u(inst)) & 0xfffffffffffffffe;
        Some((target, link))
    } else if op == OP_JALR_VERSION0 || op == OP_JALR_VERSION1 {
        let idx = #[verifier::truncate] (((inst >> 32) & 0xff) as usize);
        let base = if idx < 32 {
            regs[idx]
        } else {
            0
        };
        proof {
            assert(regs@.len() == 32);
            assert(idx as int == spec_rs1(inst)) by (bit_vector)
                requires
                    idx == #[verifier::truncate] (((inst >> 32) & 0xff) as usize),
            ;
            assert(base == reg_at(regs@, spec_rs1(inst)));
        }
        let target = base.wrapping_add(imm_i(inst)) & 0xfffffffffffffffe;
        Some((target, link))
    } else if op == OP_FAR_JUMP_ABS {
        let target = imm_u(inst) & 0xfffffffffffffffe;
        Some((target, link))
    } else {
        let target = pc.wrapping_add(imm_u(inst)) & 0xfffffffffffffffe;
        Some((target, link))
    }
}

} // verus!
