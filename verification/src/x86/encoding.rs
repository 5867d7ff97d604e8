//! The bytes of machine instructions, as the manual of the processor has them, and what the layouts
//! say of them.

use super::inst::BlockId;
use super::laws::{address_regs, any_large, inst_regs, rm_regs, rmi_regs};
use super::layout::{binop_layout, test_layout, DispLayout, ModRMLayout, OpcodeLayout};
use super::layout::{PAMode, PInst, PRegMem, PRegMemImm};
use super::mode::{Offset, RegMem};
use super::ops::{Binop, Cmp, ExtMode, Unop, CC};
use super::reg::{IsReg, PReg, RAX, RBP, RSP};
use crate::size::Size;
use vstd::prelude::*;

verus! {

// ---------------------------------------------------------------------------------------------
// The REX byte

/// Whether an instruction works at 64 bits, where its opcode alone does not say so. Pushes and pops
/// always do, and so do jumps. A move of 32 bits clears the upper half of a register by itself.
pub open spec fn wide(i: PInst) -> bool {
    match i {
        PInst::Binop { sz, .. } => sz == Size::S64,
        PInst::Unop { sz, .. } => sz == Size::S64,
        PInst::DivRem { sz, .. } => sz == Size::S64,
        PInst::Mul { sz, .. } => sz == Size::S64,
        PInst::Imm { sz, .. } => sz == Size::S64,
        PInst::MovRR { sz, .. } => sz == Size::S64,
        PInst::MovzxRmR { ext_mode, .. } => ext_mode == ExtMode::BQ || ext_mode == ExtMode::WQ,
        PInst::MovsxRmR { ext_mode, .. } => ext_mode == ExtMode::BQ || ext_mode == ExtMode::WQ
            || ext_mode == ExtMode::LQ,
        PInst::Load64 { .. } => true,
        PInst::Lea { .. } => true,
        PInst::Store { sz, .. } => sz == Size::S64,
        PInst::Shift { sz, .. } => sz == Size::S64,
        PInst::Cmp { sz, .. } => sz == Size::S64,
        PInst::CMov { sz, .. } => sz == Size::S64,
        _ => false,
    }
}

/// An instruction has a REX byte exactly where it works at 64 bits or mentions a register whose
/// number does not fit in three bits.
pub proof fn law_rex_exactly(i: PInst)
    ensures
        i.layout().rex <==> wide(i) || any_large(inst_regs(i)),
{
    let rs = inst_regs(i);
    match i {
        PInst::Binop { dst, src, .. } => {
            lemma_reg_and_rmi(dst, src, rs);
        },
        PInst::Cmp { src1, src2, .. } => {
            lemma_reg_and_rmi(src1, src2, rs);
        },
        PInst::Push64 { src } => {
            lemma_rmi_large(src);
        },
        PInst::DivRem { src, .. } => {
            lemma_rm_large(src);
        },
        PInst::Mul { src, .. } => {
            lemma_rm_large(src);
        },
        PInst::MovzxRmR { dst, src, .. } => {
            lemma_rm_large(src);
            lemma_large_first(dst, rm_regs(src), rs);
        },
        PInst::MovsxRmR { dst, src, .. } => {
            lemma_rm_large(src);
            lemma_large_first(dst, rm_regs(src), rs);
        },
        PInst::CMov { dst, src, .. } => {
            lemma_rm_large(src);
            lemma_large_first(dst, rm_regs(src), rs);
        },
        PInst::Store { dst, src, .. } => {
            lemma_address_large(dst);
            lemma_large_first(src, address_regs(dst), rs);
        },
        PInst::MovRR { dst, src, .. } => {
            assert(rs[0] == dst);
            assert(rs[1] == src);
        },
        PInst::Unop { dst, .. } => {
            assert(rs[0] == dst);
        },
        PInst::Imm { dst, .. } => {
            assert(rs[0] == dst);
        },
        PInst::Shift { dst, .. } => {
            assert(rs[0] == dst);
        },
        PInst::SetCC { dst, .. } => {
            assert(rs[0] == dst);
        },
        PInst::Pop64 { dst } => {
            assert(rs[0] == dst);
        },
        _ => {},
    }
}

/// Of the sixteen registers, those numbered from 8 on have numbers that do not fit in three bits.
pub proof fn law_large_registers(r: PReg)
    requires
        r.hw < 16,
    ensures
        r.large() <==> r.hw >= 8,
        r.hw == r.low() + (if r.large() {
            8int
        } else {
            0int
        }),
{
}

proof fn lemma_large_first(r: PReg, more: Seq<PReg>, rs: Seq<PReg>)
    requires
        rs == seq![r] + more,
    ensures
        any_large(rs) == (r.large() || any_large(more)),
{
    assert(rs[0] == r);
    if any_large(more) {
        let k = choose|k: int| 0 <= k < more.len() && (#[trigger] more[k]).large();
        assert(rs[k + 1] == more[k]);
    }
    if any_large(rs) && !r.large() {
        let k = choose|k: int| 0 <= k < rs.len() && (#[trigger] rs[k]).large();
        assert(more[k - 1] == rs[k]);
    }
}

proof fn lemma_reg_and_rmi(r: PReg, rmi: PRegMemImm, rs: Seq<PReg>)
    requires
        rs == seq![r] + rmi_regs(rmi),
    ensures
        any_large(rs) == (r.large() || rmi.needs_rex()),
{
    lemma_rmi_large(rmi);
    lemma_large_first(r, rmi_regs(rmi), rs);
}

proof fn lemma_address_large(a: PAMode)
    ensures
        any_large(address_regs(a)) == a.needs_rex(),
{
    let rs = address_regs(a);
    if a.base != PReg::none() {
        assert(rs[0] == a.base);
    }
    if let Some(si) = a.si {
        assert(rs[rs.len() - 1] == si.index);
    }
}

proof fn lemma_rm_large(rm: PRegMem)
    ensures
        any_large(rm_regs(rm)) == rm.needs_rex(),
{
    match rm {
        RegMem::Reg(r) => {
            assert(rm_regs(rm)[0] == r);
        },
        RegMem::Mem(a) => {
            lemma_address_large(a);
        },
    }
}

proof fn lemma_rmi_large(rmi: PRegMemImm)
    ensures
        any_large(rmi_regs(rmi)) == rmi.needs_rex(),
{
    match rmi {
        PRegMemImm::Reg(r) => {
            assert(rmi_regs(rmi)[0] == r);
        },
        PRegMemImm::Mem(a) => {
            lemma_address_large(a);
        },
        PRegMemImm::Imm(_) => {},
    }
}

// ---------------------------------------------------------------------------------------------
// Numbers

/// A 32 bit number as a signed one.
pub open spec fn signed32(n: u32) -> int {
    if n < 0x8000_0000 {
        n as int
    } else {
        n - 0x1_0000_0000
    }
}

/// A 64 bit number as a signed one.
pub open spec fn signed64(n: u64) -> int {
    if n < 0x8000_0000_0000_0000 {
        n as int
    } else {
        n - 0x1_0000_0000_0000_0000
    }
}

/// The number of bytes of an immediate operand that the machine extends from one byte or takes as
/// four.
pub open spec fn short_or_long(n: u32) -> int {
    if -128 <= signed32(n) <= 127 {
        1
    } else {
        4
    }
}

// ---------------------------------------------------------------------------------------------
// Addresses

/// Whether a SIB byte follows the ModRM byte of an address. It holds the index. There must also be
/// one where there is no base, and where the last bits of the base are those that announce it.
pub open spec fn sib_needed(a: PAMode) -> bool {
    a.base == PReg::none() || a.si is Some || a.base.hw % 8 == 4
}

/// The number of bytes of the displacement of an address. Where there is no base, or the place is
/// not known yet, there are four. Otherwise there are as few as will do. After a SIB byte, a base
/// of RBP without a displacement would mean that there is no base.
pub open spec fn displacement_bytes(a: PAMode) -> int {
    if a.base == PReg::none() {
        4
    } else {
        match a.off {
            Offset::Real(n) => if n == 0 {
                if sib_needed(a) && a.base.hw == RBP {
                    1
                } else {
                    0
                }
            } else {
                short_or_long(n)
            },
            _ => 4,
        }
    }
}

/// The number of bytes of an address: the ModRM byte, the SIB byte and the displacement.
pub open spec fn address_bytes(a: PAMode) -> int {
    1 + (if sib_needed(a) {
        1int
    } else {
        0int
    }) + displacement_bytes(a)
}

/// The number of bytes of a displacement in the layout of an operand.
pub open spec fn disp_part(m: ModRMLayout) -> int {
    match m {
        ModRMLayout::Reg => 0,
        ModRMLayout::RIP => 4,
        ModRMLayout::Sib0 => 4,
        ModRMLayout::SibReg(d) => d.size(),
        ModRMLayout::Disp(d) => d.size(),
    }
}

/// The layout of an address has a SIB byte exactly where the machine needs one, and a displacement
/// of as many bytes as it takes.
pub proof fn law_address_layout(a: PAMode)
    requires
        a.physical(),
    ensures
        a.modrm() !is Reg,
        a.modrm() !is RIP,
        a.modrm() is Sib0 <==> a.base == PReg::none(),
        a.modrm() is Sib0 || a.modrm() is SibReg <==> sib_needed(a),
        disp_part(a.modrm()) == displacement_bytes(a),
        a.modrm().size() == address_bytes(a),
{
}

/// A displacement of no bytes stands for zero only. One of one byte stands for what a signed byte
/// can hold.
pub proof fn law_displacements_hold_offsets(a: PAMode, n: u32)
    requires
        a.physical(),
        a.off == Offset::Real(n),
        a.base != PReg::none(),
    ensures
        disp_part(a.modrm()) == 0 ==> n == 0,
        disp_part(a.modrm()) == 1 ==> -128 <= signed32(n) <= 127,
        disp_part(a.modrm()) == 4 ==> signed32(n) < -128 || signed32(n) > 127,
        disp_part(a.modrm()) == 0 || disp_part(a.modrm()) == 1 || disp_part(a.modrm()) == 4,
{
}

/// The sizes of displacements are those that they are named after.
pub proof fn law_displacement_sizes(d: DispLayout)
    ensures
        d.size() == 0 <==> d == DispLayout::S0,
        d.size() == 1 <==> d == DispLayout::S8,
        d.size() == 4 <==> d == DispLayout::S32,
{
}

// ---------------------------------------------------------------------------------------------
// Lengths

/// The number of bytes of a register or address.
pub open spec fn rm_bytes(rm: PRegMem) -> int {
    match rm {
        RegMem::Reg(_) => 1,
        RegMem::Mem(a) => address_bytes(a),
    }
}

/// The number of bytes of a register or address beside another register, where the operand is not a
/// number.
pub open spec fn rmi_bytes(rmi: PRegMemImm) -> int {
    match rmi {
        PRegMemImm::Reg(_) => 1,
        PRegMemImm::Mem(a) => address_bytes(a),
        PRegMemImm::Imm(_) => 1,
    }
}

/// The number of bytes after the REX byte and the opcode of an operation with a number: the
/// register, which the short form with RAX leaves out, and the number.
pub open spec fn number_bytes(dst: PReg, imm: int) -> int {
    if dst.hw == RAX && imm > 1 {
        imm
    } else {
        1 + imm
    }
}

/// The number of bytes that the machine takes for an instruction, without the REX byte.
pub open spec fn plain_bytes(i: PInst) -> int {
    match i {
        PInst::Binop { dst, src, .. } => 1 + match src {
            PRegMemImm::Imm(n) => number_bytes(dst, short_or_long(n)),
            _ => rmi_bytes(src),
        },
        PInst::Unop { .. } => 2,
        PInst::DivRem { src, .. } => 1 + rm_bytes(src),
        PInst::Mul { src, .. } => 1 + rm_bytes(src),
        PInst::Imm { src, .. } => if src == 0 {
            2
        } else if -0x8000_0000 <= signed64(src) < 0x8000_0000 {
            5
        } else {
            9
        },
        PInst::MovRR { .. } => 2,
        PInst::MovzxRmR { ext_mode, src, .. } => if ext_mode == ExtMode::LQ {
            1 + rm_bytes(src)
        } else {
            2 + rm_bytes(src)
        },
        PInst::MovsxRmR { ext_mode, src, .. } => if ext_mode == ExtMode::LQ {
            1 + rm_bytes(src)
        } else {
            2 + rm_bytes(src)
        },
        PInst::Load64 { src, .. } => 1 + address_bytes(src),
        PInst::Lea { addr, .. } => 1 + address_bytes(addr),
        PInst::Store { dst, .. } => 1 + address_bytes(dst),
        PInst::Shift { num_bits, .. } => if num_bits is Some {
            3
        } else {
            2
        },
        PInst::Cmp { op: Cmp::Cmp, src1, src2, .. } => 1 + match src2 {
            PRegMemImm::Imm(n) => number_bytes(src1, short_or_long(n)),
            _ => rmi_bytes(src2),
        },
        PInst::Cmp { op: Cmp::Test, sz, src1, src2 } => 1 + match src2 {
            PRegMemImm::Imm(_) => (if src1.hw == RAX {
                0int
            } else {
                1int
            }) + (if sz == Size::S8 {
                1int
            } else {
                4int
            }),
            _ => rmi_bytes(src2),
        },
        PInst::SetCC { .. } => 3,
        PInst::CMov { src, .. } => 2 + rm_bytes(src),
        PInst::Push64 { src } => match src {
            PRegMemImm::Imm(n) => 1 + short_or_long(n),
            PRegMemImm::Reg(_) => 1,
            PRegMemImm::Mem(a) => 1 + address_bytes(a),
        },
        PInst::Pop64 { .. } => 1,
        PInst::CallKnown { .. } => 5,
        PInst::Ret => 1,
        PInst::JmpKnown { short, .. } => if short {
            2
        } else {
            5
        },
        PInst::JmpCond { short, .. } => if short {
            2
        } else {
            6
        },
        // A short conditional jump over the trap.
        PInst::TrapIf { .. } => 4,
        PInst::Ud2 => 2,
    }
}

/// The length of an instruction is the number of bytes that the machine takes for it.
pub proof fn law_length(i: PInst)
    requires
        i.physical(),
    ensures
        i.layout().size() == plain_bytes(i) + (if wide(i) || any_large(inst_regs(i)) {
            1int
        } else {
            0int
        }),
{
    law_rex_exactly(i);
    match i {
        PInst::Binop { sz, dst, src, .. } => {
            lemma_binop_bytes(sz, dst, src);
        },
        PInst::Cmp { sz, op, src1, src2 } => match op {
            Cmp::Cmp => {
                lemma_binop_bytes(sz, src1, src2);
            },
            Cmp::Test => {
                lemma_test_bytes(sz, src1, src2);
            },
        },
        PInst::DivRem { src, .. } => {
            lemma_rm_bytes(src);
        },
        PInst::Mul { src, .. } => {
            lemma_rm_bytes(src);
        },
        PInst::MovzxRmR { src, .. } => {
            lemma_rm_bytes(src);
        },
        PInst::MovsxRmR { src, .. } => {
            lemma_rm_bytes(src);
        },
        PInst::CMov { src, .. } => {
            lemma_rm_bytes(src);
        },
        PInst::Load64 { src, .. } => {
            law_address_layout(src);
        },
        PInst::Lea { addr, .. } => {
            law_address_layout(addr);
        },
        PInst::Store { dst, .. } => {
            law_address_layout(dst);
        },
        PInst::Push64 { src } => {
            if let PRegMemImm::Mem(a) = src {
                law_address_layout(a);
            }
        },
        PInst::Imm { src, .. } => {
            lemma_imm_bytes(i, src);
        },
        _ => {},
    }
}

proof fn lemma_rm_bytes(rm: PRegMem)
    requires
        rm.physical(),
    ensures
        rm.modrm().size() == rm_bytes(rm),
{
    if let RegMem::Mem(a) = rm {
        law_address_layout(a);
    }
}

proof fn lemma_imm_bytes(i: PInst, src: u64)
    requires
        i matches PInst::Imm { src: n, .. } && n == src,
    ensures
        i.layout().opc.size() == plain_bytes(i),
{
}

proof fn lemma_binop_bytes(sz: Size, dst: PReg, src: PRegMemImm)
    requires
        src.physical(),
    ensures
        binop_layout(sz, dst, src).opc.size() == 1 + match src {
            PRegMemImm::Imm(n) => number_bytes(dst, short_or_long(n)),
            _ => rmi_bytes(src),
        },
{
    if let PRegMemImm::Mem(a) = src {
        law_address_layout(a);
    }
}

proof fn lemma_test_bytes(sz: Size, dst: PReg, src: PRegMemImm)
    requires
        src.physical(),
    ensures
        test_layout(sz, dst, src).opc.size() == 1 + match src {
            PRegMemImm::Imm(_) => (if dst.hw == RAX {
                0int
            } else {
                1int
            }) + (if sz == Size::S8 {
                1int
            } else {
                4int
            }),
            _ => rmi_bytes(src),
        },
{
    if let PRegMemImm::Mem(a) = src {
        law_address_layout(a);
    }
}

// ---------------------------------------------------------------------------------------------
// Opcodes

/// The number of an ALU operation in its opcode.
pub open spec fn alu_number(op: Binop) -> int {
    match op {
        Binop::Add => 0,
        Binop::Or => 1,
        Binop::Adc => 2,
        Binop::Sbb => 3,
        Binop::And => 4,
        Binop::Sub => 5,
        Binop::Xor => 6,
    }
}

/// The number of an operation with one operand in its ModRM byte. Incrementing and decrementing have
/// an opcode of their own, where they come first.
pub open spec fn unary_number(op: Unop) -> int {
    match op {
        Unop::Inc => 0,
        Unop::Dec => 1,
        Unop::Not => 2,
        Unop::Neg => 3,
    }
}

/// The numbers of operations are those in their encodings, and no two operations have the same.
pub proof fn law_operation_numbers(a: Binop, b: Binop, c: Unop, d: Unop)
    ensures
        a.number() == alu_number(a),
        a.number() == b.number() <==> a == b,
        a.number() < 7,
        c.number() == unary_number(c),
        c.number() == d.number() <==> c == d,
        c.number() < 4,
{
}

/// The opcode of an ALU operation with its number: one for a small number, one for a large number
/// and RAX, one for a large number and any other register, and one for a register or address.
pub open spec fn alu_opcode(n: int, dst: PReg, src: PRegMemImm) -> int {
    match src {
        PRegMemImm::Imm(i) => if short_or_long(i) == 1 {
            0x83
        } else if dst.hw == RAX {
            8 * n + 5
        } else {
            0x81
        },
        _ => 8 * n + 3,
    }
}

/// The opcode of an instruction in the manual of the processor, in the form for operands of more
/// than one byte. Where there are two bytes, the first is 0F, and this is the second.
pub open spec fn opcode(i: PInst) -> int {
    match i {
        PInst::Binop { op, dst, src, .. } => alu_opcode(alu_number(op), dst, src),
        PInst::Unop { op, .. } => if op == Unop::Inc || op == Unop::Dec {
            0xff
        } else {
            0xf7
        },
        PInst::DivRem { .. } => 0xf7,
        PInst::Mul { .. } => 0xf7,
        PInst::Imm { dst, src, .. } => if src == 0 {
            0x33
        } else {
            0xb8 + dst.hw % 8
        },
        PInst::MovRR { .. } => 0x8b,
        PInst::MovzxRmR { ext_mode, .. } => if ext_mode == ExtMode::LQ {
            0x8b
        } else if ext_mode == ExtMode::BL || ext_mode == ExtMode::BQ {
            0xb6
        } else {
            0xb7
        },
        PInst::MovsxRmR { ext_mode, .. } => if ext_mode == ExtMode::LQ {
            0x63
        } else if ext_mode == ExtMode::BL || ext_mode == ExtMode::BQ {
            0xbe
        } else {
            0xbf
        },
        PInst::Load64 { .. } => 0x8b,
        PInst::Lea { .. } => 0x8d,
        PInst::Store { .. } => 0x89,
        PInst::Shift { num_bits, .. } => if num_bits is Some {
            0xc1
        } else {
            0xd3
        },
        PInst::Cmp { op: Cmp::Cmp, src1, src2, .. } => alu_opcode(7, src1, src2),
        PInst::Cmp { op: Cmp::Test, src1, src2, .. } => if src2 is Imm {
            if src1.hw == RAX {
                0xa9
            } else {
                0xf7
            }
        } else {
            0x85
        },
        PInst::SetCC { cc, .. } => 0x90 + cc.bits(),
        PInst::CMov { cc, .. } => 0x40 + cc.bits(),
        PInst::Push64 { src } => match src {
            PRegMemImm::Imm(n) => if short_or_long(n) == 1 {
                0x6a
            } else {
                0x68
            },
            PRegMemImm::Reg(r) => 0x50 + r.hw % 8,
            PRegMemImm::Mem(_) => 0xff,
        },
        PInst::Pop64 { dst } => 0x58 + dst.hw % 8,
        PInst::CallKnown { .. } => 0xe8,
        PInst::Ret => 0xc3,
        PInst::JmpKnown { short, .. } => if short {
            0xeb
        } else {
            0xe9
        },
        PInst::JmpCond { cc, short, .. } => if short {
            0x70 + cc.bits()
        } else {
            0x80 + cc.bits()
        },
        PInst::TrapIf { cc } => 0x70 + cc.opposite().bits(),
        PInst::Ud2 => 0x0b,
    }
}

/// Whether the opcode of an instruction has two bytes.
pub open spec fn two_byte(i: PInst) -> bool {
    match i {
        PInst::MovzxRmR { ext_mode, .. } => ext_mode != ExtMode::LQ,
        PInst::MovsxRmR { ext_mode, .. } => ext_mode != ExtMode::LQ,
        PInst::SetCC { .. } => true,
        PInst::CMov { .. } => true,
        PInst::JmpCond { short, .. } => !short,
        PInst::Ud2 => true,
        _ => false,
    }
}

/// The opcodes that a layout is for: whether they have two bytes, and what the last one is.
pub open spec fn layout_opcode(opc: OpcodeLayout, two: bool, b: int) -> bool {
    match opc {
        OpcodeLayout::BinopRAX => !two && 0 <= b < 0x40 && b % 8 == 5,
        OpcodeLayout::BinopImm(_) => !two && b == 0x81,
        OpcodeLayout::BinopImm8(_) => !two && b == 0x83,
        OpcodeLayout::BinopReg(_) => !two && 0 <= b < 0x40 && b % 8 == 3,
        OpcodeLayout::BinopHi(_) => !two && b == 0xc1,
        OpcodeLayout::BinopHiReg(_) => !two && b == 0xd3,
        OpcodeLayout::MovSX(_) => !two && b == 0x63,
        OpcodeLayout::MovReg(_) => !two && (b == 0x89 || b == 0x8b),
        OpcodeLayout::Mov32 => !two && 0xb8 <= b < 0xc0,
        OpcodeLayout::Mov64 => !two && 0xb8 <= b < 0xc0,
        OpcodeLayout::MovImm(_) => !two && b == 0xc7,
        OpcodeLayout::PushImm8 => !two && b == 0x6a,
        OpcodeLayout::PushImm32 => !two && b == 0x68,
        OpcodeLayout::PushReg => !two && 0x50 <= b < 0x58,
        OpcodeLayout::PopReg => !two && 0x58 <= b < 0x60,
        OpcodeLayout::Jump8 => !two && b == 0xeb,
        OpcodeLayout::Jump32 => !two && b == 0xe9,
        OpcodeLayout::Jcc8 => !two && 0x70 <= b < 0x80,
        OpcodeLayout::Call => !two && b == 0xe8,
        OpcodeLayout::Ret => !two && b == 0xc3,
        OpcodeLayout::Lea(_) => !two && b == 0x8d,
        OpcodeLayout::Test(_) => !two && b == 0x85,
        OpcodeLayout::TestRAX8 => !two && b == 0xa9,
        OpcodeLayout::TestRAX32 => !two && b == 0xa9,
        OpcodeLayout::Hi(_) => !two && (b == 0xf7 || b == 0xff),
        OpcodeLayout::HiTest8(_) => !two && b == 0xf7,
        OpcodeLayout::HiTest32(_) => !two && b == 0xf7,
        OpcodeLayout::TwoSetCC(_) => two && 0x90 <= b < 0xa0,
        OpcodeLayout::TwoCMov(_) => two && 0x40 <= b < 0x50,
        OpcodeLayout::TwoMovX(_) => two && (b == 0xb6 || b == 0xb7 || b == 0xbe || b == 0xbf),
        OpcodeLayout::TwoJcc => two && 0x80 <= b < 0x90,
        OpcodeLayout::TrapIf => !two && 0x70 <= b < 0x80,
        OpcodeLayout::Ud2 => two && b == 0x0b,
    }
}

/// The layout of an instruction is one for its opcode. A trap is the only other use of the opcodes of
/// short conditional jumps.
pub proof fn law_opcode(i: PInst)
    ensures
        layout_opcode(i.layout().opc, two_byte(i), opcode(i)),
        i.layout().opc is TrapIf <==> i is TrapIf,
        i.layout().opc is Hi ==> i !is Cmp,
{
    match i {
        PInst::Binop { op, sz, dst, src } => {
            lemma_alu_opcodes(alu_number(op), sz, dst, src);
        },
        PInst::Cmp { sz, op, src1, src2 } => {
            lemma_alu_opcodes(7, sz, src1, src2);
        },
        PInst::SetCC { cc, .. } => {
            lemma_condition_bits(cc);
        },
        PInst::CMov { cc, .. } => {
            lemma_condition_bits(cc);
        },
        PInst::JmpCond { cc, .. } => {
            lemma_condition_bits(cc);
        },
        PInst::TrapIf { cc } => {
            lemma_condition_bits(cc.opposite());
        },
        _ => {},
    }
}

proof fn lemma_condition_bits(cc: CC)
    ensures
        cc.bits() < 16,
{
}

proof fn lemma_alu_opcodes(n: int, sz: Size, dst: PReg, src: PRegMemImm)
    requires
        0 <= n < 8,
    ensures
        layout_opcode(binop_layout(sz, dst, src).opc, false, alu_opcode(n, dst, src)),
        binop_layout(sz, dst, src).opc !is Hi,
        binop_layout(sz, dst, src).opc !is TrapIf,
{
    assert((8 * n + 3) % 8 == 3);
    assert((8 * n + 5) % 8 == 5);
}

/// The operand that the layout of an instruction has room for, where it has room for a register or
/// an address, is that of the instruction.
pub proof fn law_operand_layout(i: PInst)
    requires
        i.physical(),
    ensures
        i.layout().opc.modrm() matches Some(m) ==> match memory_operand(i) {
            Some(a) => m == a.modrm(),
            None => m == ModRMLayout::Reg,
        },
        memory_operand(i) is Some ==> i.layout().opc.modrm() is Some,
{
}

/// The address of the operand in an operand that may be in memory.
pub open spec fn rm_address(rm: PRegMem) -> Option<PAMode> {
    match rm {
        RegMem::Mem(a) => Some(a),
        _ => None,
    }
}

/// The address of the operand in an operand that may be in memory.
pub open spec fn rmi_address(rmi: PRegMemImm) -> Option<PAMode> {
    match rmi {
        PRegMemImm::Mem(a) => Some(a),
        _ => None,
    }
}

/// The address of the operand in memory that an instruction has.
pub open spec fn memory_operand(i: PInst) -> Option<PAMode> {
    match i {
        PInst::Binop { src, .. } => rmi_address(src),
        PInst::DivRem { src, .. } => rm_address(src),
        PInst::Mul { src, .. } => rm_address(src),
        PInst::MovzxRmR { src, .. } => rm_address(src),
        PInst::Load64 { src, .. } => Some(src),
        PInst::Lea { addr, .. } => Some(addr),
        PInst::MovsxRmR { src, .. } => rm_address(src),
        PInst::Store { dst, .. } => Some(dst),
        PInst::Cmp { src2, .. } => rmi_address(src2),
        PInst::CMov { src, .. } => rm_address(src),
        PInst::Push64 { src } => rmi_address(src),
        _ => None,
    }
}

// ---------------------------------------------------------------------------------------------
// Jumps

/// What a jump does, apart from how it is encoded: the condition, where there is one, and the block.
pub open spec fn jump_of(i: PInst) -> Option<(Option<CC>, BlockId)> {
    match i {
        PInst::JmpKnown { dst, .. } => Some((None, dst)),
        PInst::JmpCond { cc, dst, .. } => Some((Some(cc), dst)),
        _ => None,
    }
}

/// The block that a jump is said to go to is the one that it goes to. A shortened jump has the same
/// condition and the same block, and takes two bytes. Nothing else changes when it is shortened.
pub proof fn law_jumps(i: PInst)
    ensures
        i.target() == (match jump_of(i) {
            Some((_, dst)) => Some(dst),
            None => None,
        }),
        jump_of(i.shortened()) == jump_of(i),
        jump_of(i) is Some ==> i.shortened().layout().size() == 2,
        jump_of(i) is None ==> i.shortened() == i,
        i.layout().size() == 2 && jump_of(i) is Some ==> i.shortened() == i,
{
}

// ---------------------------------------------------------------------------------------------
// Layouts

/// The number of bytes of the number that a layout ends in, which most layouts are named after.
pub open spec fn number_part(opc: OpcodeLayout) -> int {
    match opc {
        OpcodeLayout::BinopImm8(_) | OpcodeLayout::BinopHi(_) | OpcodeLayout::PushImm8
        | OpcodeLayout::Jump8 | OpcodeLayout::Jcc8 | OpcodeLayout::TestRAX8
        | OpcodeLayout::HiTest8(_) => 1,
        OpcodeLayout::BinopRAX | OpcodeLayout::BinopImm(_) | OpcodeLayout::Mov32
        | OpcodeLayout::MovImm(_) | OpcodeLayout::PushImm32 | OpcodeLayout::Jump32
        | OpcodeLayout::Call | OpcodeLayout::TestRAX32 | OpcodeLayout::HiTest32(_)
        | OpcodeLayout::TwoJcc => 4,
        OpcodeLayout::Mov64 => 8,
        _ => 0,
    }
}

/// The size of a layout is that of an opcode that it is for, of the operand in it, and of the number
/// at its end. A trap is a short conditional jump and a two byte instruction.
pub proof fn law_layout_sizes(opc: OpcodeLayout, two: bool, b: int)
    requires
        layout_opcode(opc, two, b),
    ensures
        opc is TrapIf ==> opc.size() == 2 + 2,
        opc !is TrapIf ==> opc.size() == (if two {
            2int
        } else {
            1int
        }) + number_part(opc) + (match opc.modrm() {
            Some(m) => 1 + disp_part(m) + (if m is Sib0 || m is SibReg {
                1int
            } else {
                0int
            }),
            None => 0,
        }),
{
}

/// An address in a spill slot is relative to the stack pointer, and any other to its base.
pub proof fn law_base_of_address(a: PAMode)
    ensures
        a.off is Spill ==> a.base_reg() == (PReg { hw: RSP }),
        a.off !is Spill ==> a.base_reg() == a.base,
        a.physical() <==> a.off !is Spill,
{
}

} // verus!
