//! Instructions before register allocation.

use super::mode::{AMode, RegMem, RegMemImm};
use super::ops::{Binop, Cmp, ExtMode, ShiftKind, Unop, CC};
use super::reg::{preg, reg_def, reg_fixed_def, reg_fixed_use, reg_reuse_def, reg_use};
use super::reg::{Operand, PReg, VReg, RAX, RCX, RDX};
use crate::size::Size;
use vstd::prelude::*;

verus! {

/// A basic block.
#[derive(Clone, Copy, Debug, PartialEq, Eq, Structural)]
pub struct BlockId(pub u32);

/// A procedure.
#[derive(Clone, Copy, Debug, PartialEq, Eq, Structural)]
pub struct ProcId(pub u32);

/// An instruction, by its place in the code.
#[derive(Clone, Copy, Debug, PartialEq, Eq, Structural)]
pub struct InstId(pub u32);

/// An instruction with virtual registers.
#[allow(inconsistent_fields)]
#[derive(Debug)]
pub enum Inst {
    /// Jump to the given block ID. This is required to be the immediately following instruction,
    /// so no code need be emitted.
    Fallthrough { dst: BlockId },
    /// Integer arithmetic/bit-twiddling: `reg <- (add|sub|and|or|xor|adc|sbb) (32|64) reg rmi`.
    /// The size is 4 or 8, and `dst = src1`.
    Binop { op: Binop, sz: Size, dst: VReg, src1: VReg, src2: RegMemImm },
    /// Unary ALU operations: `reg <- (not|neg) (8|16|32|64) reg`. The size is 1, 2, 4 or 8, and
    /// `dst = src`.
    Unop { op: Unop, sz: Size, dst: VReg, src: VReg },
    /// Unsigned integer quotient and remainder pseudo-operation:
    /// `RDX:RAX <- cdq RAX`, `RAX,RDX <- divrem RDX:RAX r/m.` The size is 2, 4 or 8, `dst_div = RAX`,
    /// `dst_rem = RDX` and `src1 = RAX`.
    DivRem { sz: Size, dst_div: VReg, dst_rem: VReg, src1: VReg, src2: RegMem },
    /// Unsigned integer multiplication: `RDX:RAX <- mul RAX r/m.` The size is 2, 4 or 8,
    /// `dst_lo = RAX`, `dst_hi = RDX` and `src1 = RAX`.
    Mul { sz: Size, dst_lo: VReg, dst_hi: VReg, src1: VReg, src2: RegMem },
    /// Constant materialization: `reg <- (imm32|imm64)`.
    /// Either: movl $imm32, %reg32 or movabsq $imm64, %reg32. The size is 4 or 8.
    Imm { sz: Size, dst: VReg, src: u64 },
    /// GPR to GPR move: `reg <- mov (64|32) reg`. This is always a pure move, because we require
    /// that a 32 bit source register has zeroed high part. The size is 4 or 8.
    MovRR { sz: Size, dst: VReg, src: VReg },
    /// Move into a fixed reg: `preg <- mov (64|32) reg`. The size is 4 or 8.
    MovRP { sz: Size, dst: (VReg, PReg), src: VReg },
    /// Move from a fixed reg: `reg <- mov (64|32) preg`. The size is 4 or 8.
    MovPR { sz: Size, dst: VReg, src: (VReg, PReg) },
    /// Zero-extended loads, except for 64 bits: `reg <- movz (bl|bq|wl|wq|lq) r/m`.
    /// Note that the lq variant doesn't really exist since the default zero-extend rule makes it
    /// unnecessary. For that case we emit the equivalent "movl AM, reg32".
    MovzxRmR { ext_mode: ExtMode, dst: VReg, src: RegMem },
    /// A plain 64-bit integer load, since `MovzxRmR` can't represent that.
    Load64 { dst: VReg, src: AMode },
    /// Load effective address: `dst <- addr`
    Lea { dst: VReg, addr: AMode },
    /// Sign-extended loads and moves: `reg <- movs (bl|bq|wl|wq|lq) [addr]`.
    MovsxRmR { ext_mode: ExtMode, dst: VReg, src: RegMem },
    /// Integer stores: `[addr] <- mov (b|w|l|q) reg`. The size is 1, 2, 4 or 8.
    Store { sz: Size, dst: AMode, src: VReg },
    /// Arithmetic shifts: `reg <- (shl|shr|sar) (b|w|l|q) reg, imm`. The size is 1, 2, 4 or 8, the
    /// shift count is less than the number of bits, and `dst = src`.
    ShiftImm { sz: Size, kind: ShiftKind, num_bits: u8, dst: VReg, src: VReg },
    /// Arithmetic shifts: `reg <- (shl|shr|sar) (b|w|l|q) reg, CL`. The size is 1, 2, 4 or 8,
    /// `dst = src` and `src2 = CL`.
    ShiftRR { sz: Size, kind: ShiftKind, dst: VReg, src: VReg, src2: VReg },
    /// Integer comparisons/tests: `flags <- (cmp|test) (b|w|l|q) reg rmi`. The size is 1, 2, 4 or 8.
    Cmp { sz: Size, op: Cmp, src1: VReg, src2: RegMemImm },
    /// Materializes the requested condition code in the destination reg.
    /// `dst <- if cc { 1 } else { 0 }`
    SetCC { cc: CC, dst: VReg },
    /// Integer conditional move. Overwrites the destination register. The size is 2, 4, or 8, and
    /// `dst = src1`.
    CMov { sz: Size, cc: CC, dst: VReg, src1: VReg, src2: RegMem },
    /// `pushq rmi`
    Push64 { src: RegMemImm },
    /// `popq reg`
    Pop64 { dst: VReg },
    /// Direct call: `call f`. If `clobbers = None` then this call does not return.
    CallKnown { f: ProcId, operands: Vec<Operand>, clobbers: Option<Vec<PReg>> },
    /// Function epilogue placeholder.
    Epilogue { params: Vec<Operand> },
    /// Jump to a known target: `jmp simm32`.
    /// The params are block parameters; they are turned into movs after register allocation.
    JmpKnown { dst: BlockId, params: Vec<Operand> },
    /// Two-way conditional branch: `if cc { jmp taken } else { jmp not_taken }`.
    JmpCond { cc: CC, taken: BlockId, not_taken: BlockId },
    /// Traps if the condition code is set.
    TrapIf { cc: CC },
    /// An instruction that will always trigger the illegal instruction exception.
    Ud2,
}

impl Inst {
    /// The mentions of registers in an instruction, in the order in which the register allocator
    /// numbers them. It handles moves by itself, so there are none for these.
    pub open spec fn operands(self) -> Seq<Operand> {
        match self {
            Inst::Imm { dst, .. } => seq![dst.defined()],
            Inst::SetCC { dst, .. } => seq![dst.defined()],
            Inst::Pop64 { dst } => seq![dst.defined()],
            Inst::Unop { dst, src, .. } => seq![src.used(), dst.redefined(0)],
            Inst::ShiftImm { dst, src, .. } => seq![src.used(), dst.redefined(0)],
            Inst::Binop { dst, src1, src2, .. } => seq![src1.used()] + src2.operands() + seq![
                dst.redefined(0),
            ],
            Inst::Mul { dst_lo, dst_hi, src1, src2, .. } => seq![src1.used_in(PReg { hw: RAX })]
                + src2.operands() + seq![
                dst_lo.defined_in(PReg { hw: RAX }),
                dst_hi.defined_in(PReg { hw: RDX }),
            ],
            Inst::DivRem { dst_div, dst_rem, src1, src2, .. } => seq![
                src1.used_in(PReg { hw: RAX }),
            ] + src2.operands() + seq![
                dst_div.defined_in(PReg { hw: RAX }),
                dst_rem.defined_in(PReg { hw: RDX }),
            ],
            Inst::MovzxRmR { dst, src, .. } => src.operands() + seq![dst.defined()],
            Inst::MovsxRmR { dst, src, .. } => src.operands() + seq![dst.defined()],
            Inst::Load64 { dst, src } => src.operands() + seq![dst.defined()],
            Inst::Lea { dst, addr } => addr.operands() + seq![dst.defined()],
            Inst::Store { dst, src, .. } => seq![src.used()] + dst.operands(),
            Inst::ShiftRR { dst, src, src2, .. } => seq![
                src.used(),
                src2.used_in(PReg { hw: RCX }),
                dst.redefined(0),
            ],
            Inst::Cmp { src1, src2, .. } => seq![src1.used()] + src2.operands(),
            Inst::CMov { dst, src1, src2, .. } => seq![src1.used()] + src2.operands() + seq![
                dst.redefined(0),
            ],
            Inst::Push64 { src } => src.operands(),
            Inst::CallKnown { operands, .. } => operands@,
            Inst::JmpKnown { params, .. } => params@,
            Inst::Epilogue { params } => params@,
            Inst::MovRR { .. } => Seq::empty(),
            Inst::MovPR { .. } => Seq::empty(),
            Inst::MovRP { .. } => Seq::empty(),
            Inst::Fallthrough { .. } => Seq::empty(),
            Inst::JmpCond { .. } => Seq::empty(),
            Inst::TrapIf { .. } => Seq::empty(),
            Inst::Ud2 => Seq::empty(),
        }
    }

    /// Whether the registers are ones that can be mentioned.
    pub open spec fn in_range(self) -> bool {
        match self {
            Inst::Imm { dst, .. } => dst.in_range(),
            Inst::SetCC { dst, .. } => dst.in_range(),
            Inst::Pop64 { dst } => dst.in_range(),
            Inst::Unop { dst, src, .. } => dst.in_range() && src.in_range(),
            Inst::ShiftImm { dst, src, .. } => dst.in_range() && src.in_range(),
            Inst::Binop { dst, src1, src2, .. } => dst.in_range() && src1.in_range()
                && src2.in_range(),
            Inst::Mul { dst_lo, dst_hi, src1, src2, .. } => dst_lo.in_range() && dst_hi.in_range()
                && src1.in_range() && src2.in_range(),
            Inst::DivRem { dst_div, dst_rem, src1, src2, .. } => dst_div.in_range()
                && dst_rem.in_range() && src1.in_range() && src2.in_range(),
            Inst::MovzxRmR { dst, src, .. } => dst.in_range() && src.in_range(),
            Inst::MovsxRmR { dst, src, .. } => dst.in_range() && src.in_range(),
            Inst::Load64 { dst, src } => dst.in_range() && src.in_range(),
            Inst::Lea { dst, addr } => dst.in_range() && addr.in_range(),
            Inst::Store { dst, src, .. } => dst.in_range() && src.in_range(),
            Inst::ShiftRR { dst, src, src2, .. } => dst.in_range() && src.in_range()
                && src2.in_range(),
            Inst::Cmp { src1, src2, .. } => src1.in_range() && src2.in_range(),
            Inst::CMov { dst, src1, src2, .. } => dst.in_range() && src1.in_range()
                && src2.in_range(),
            Inst::Push64 { src } => src.in_range(),
            Inst::MovRR { dst, src, .. } => dst.in_range() && src.in_range(),
            Inst::MovPR { dst, src, .. } => dst.in_range() && src.0.in_range() && src.1.in_range(),
            Inst::MovRP { dst, src, .. } => dst.0.in_range() && dst.1.in_range() && src.in_range(),
            _ => true,
        }
    }

    /// What a move reads, and what it writes.
    pub open spec fn moved(self) -> Option<(Operand, Operand)> {
        match self {
            Inst::MovRR { dst, src, .. } => Some((src.used(), dst.defined())),
            Inst::MovRP { dst, src, .. } => Some((src.used(), dst.0.defined_in(dst.1))),
            Inst::MovPR { dst, src, .. } => Some((src.0.used_in(src.1), dst.defined())),
            _ => None,
        }
    }

    /// Whether this is a call.
    pub fn is_call(&self) -> (r: bool)
        ensures
            r == (self is CallKnown),
    {
        matches!(self, Inst::CallKnown { .. })
    }

    /// Whether this returns from the procedure.
    pub fn is_ret(&self) -> (r: bool)
        ensures
            r == (self is Epilogue),
    {
        matches!(self, Inst::Epilogue { .. })
    }

    /// Whether this is a branch.
    pub fn is_branch(&self) -> (r: bool)
        ensures
            r == (self is JmpCond || self is JmpKnown),
    {
        matches!(self, Inst::JmpCond { .. } | Inst::JmpKnown { .. })
    }

    /// The place of the first block parameter among the operands of a branch.
    pub fn branch_blockparam_arg_offset(&self) -> (r: usize)
        ensures
            r == 0,
    {
        0
    }

    /// What this reads and writes, where it is a move.
    pub fn is_move(&self) -> (r: Option<(Operand, Operand)>)
        requires
            self.in_range(),
        ensures
            r == self.moved(),
    {
        match self {
            Inst::MovRR { dst, src, .. } => Some((reg_use(*src), reg_def(*dst))),
            Inst::MovRP { dst, src, .. } => Some((reg_use(*src), reg_fixed_def(dst.0, dst.1))),
            Inst::MovPR { dst, src, .. } => Some((reg_fixed_use(src.0, src.1), reg_def(*dst))),
            _ => None,
        }
    }

    /// Adds the mentions of registers in the instruction.
    pub fn collect_operands(&self, args: &mut Vec<Operand>)
        requires
            self.in_range(),
        ensures
            final(args)@ == old(args)@ + self.operands(),
    {
        let ghost before = args@;
        match self {
            Inst::Imm { dst, .. } | Inst::SetCC { dst, .. } | Inst::Pop64 { dst } => {
                args.push(reg_def(*dst));
            },
            Inst::Unop { dst, src, .. } | Inst::ShiftImm { dst, src, .. } => {
                args.push(reg_use(*src));
                args.push(reg_reuse_def(*dst, 0));
            },
            Inst::Binop { dst, src1, src2, .. } => {
                args.push(reg_use(*src1));
                src2.collect_operands(args);
                args.push(reg_reuse_def(*dst, 0));
            },
            Inst::Mul { dst_lo, dst_hi, src1, src2, .. } => {
                args.push(reg_fixed_use(*src1, preg(RAX)));
                src2.collect_operands(args);
                args.push(reg_fixed_def(*dst_lo, preg(RAX)));
                args.push(reg_fixed_def(*dst_hi, preg(RDX)));
            },
            Inst::DivRem { dst_div, dst_rem, src1, src2, .. } => {
                args.push(reg_fixed_use(*src1, preg(RAX)));
                src2.collect_operands(args);
                args.push(reg_fixed_def(*dst_div, preg(RAX)));
                args.push(reg_fixed_def(*dst_rem, preg(RDX)));
            },
            Inst::MovzxRmR { dst, src, .. } | Inst::MovsxRmR { dst, src, .. } => {
                src.collect_operands(args);
                args.push(reg_def(*dst));
            },
            Inst::Load64 { dst, src } => {
                src.collect_operands(args);
                args.push(reg_def(*dst));
            },
            Inst::Lea { dst, addr } => {
                addr.collect_operands(args);
                args.push(reg_def(*dst));
            },
            Inst::Store { dst, src, .. } => {
                args.push(reg_use(*src));
                dst.collect_operands(args);
            },
            Inst::ShiftRR { dst, src, src2, .. } => {
                args.push(reg_use(*src));
                args.push(reg_fixed_use(*src2, preg(RCX)));
                args.push(reg_reuse_def(*dst, 0));
            },
            Inst::Cmp { src1, src2, .. } => {
                args.push(reg_use(*src1));
                src2.collect_operands(args);
            },
            Inst::CMov { dst, src1, src2, .. } => {
                args.push(reg_use(*src1));
                src2.collect_operands(args);
                args.push(reg_reuse_def(*dst, 0));
            },
            Inst::Push64 { src } => src.collect_operands(args),
            Inst::CallKnown { operands: params, .. } | Inst::JmpKnown { params, .. }
            | Inst::Epilogue { params } => {
                args.extend_from_slice(params.as_slice());
            },
            // Moves are handled specially by the register allocator.
            Inst::MovRR { .. } | Inst::MovPR { .. } | Inst::MovRP { .. }
            | Inst::Fallthrough { .. } | Inst::JmpCond { .. } | Inst::TrapIf { .. }
            | Inst::Ud2 => {},
        }
        assert(args@ =~= before + self.operands());
    }

    /// The machine registers that a call may change.
    pub open spec fn clobbered(self) -> Seq<PReg> {
        match self {
            Inst::CallKnown { clobbers: Some(cl), .. } => cl@,
            _ => Seq::empty(),
        }
    }

    /// The machine registers that a call may change.
    pub fn clobbers(&self) -> (r: &[PReg])
        ensures
            r@ == (match *self {
                Inst::CallKnown { clobbers: Some(cl), .. } => cl@,
                _ => Seq::empty(),
            }),
            r@ == self.clobbered(),
    {
        if let Inst::CallKnown { clobbers: Some(cl), .. } = self {
            cl.as_slice()
        } else {
            &[]
        }
    }

    /// The instruction that loads a value of the given size.
    pub open spec fn load(sz: Size, dst: VReg, src: AMode) -> Inst {
        match sz {
            Size::S8 => Inst::MovzxRmR { ext_mode: ExtMode::BQ, dst, src: RegMem::Mem(src) },
            Size::S16 => Inst::MovzxRmR { ext_mode: ExtMode::WQ, dst, src: RegMem::Mem(src) },
            Size::S32 => Inst::MovzxRmR { ext_mode: ExtMode::LQ, dst, src: RegMem::Mem(src) },
            _ => Inst::Load64 { dst, src },
        }
    }

    /// The instruction that loads a value of the given size, which must be one that fits in a
    /// register.
    pub fn load_mem(sz: Size, dst: VReg, src: AMode) -> (r: Inst)
        requires
            sz != Size::Inf,
        ensures
            r == Inst::load(sz, dst, src),
    {
        match sz {
            Size::S8 => Inst::MovzxRmR { ext_mode: ExtMode::BQ, dst, src: RegMem::Mem(src) },
            Size::S16 => Inst::MovzxRmR { ext_mode: ExtMode::WQ, dst, src: RegMem::Mem(src) },
            Size::S32 => Inst::MovzxRmR { ext_mode: ExtMode::LQ, dst, src: RegMem::Mem(src) },
            _ => Inst::Load64 { dst, src },
        }
    }
}

} // verus!
