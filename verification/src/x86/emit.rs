//! Code with virtual registers, and the emission of instructions.

use super::inst::{BlockId, Inst, InstId};
use super::mode::{AMode, Offset, RegMem, RegMemImm, ShiftIndex, SpillId};
use super::ops::{Binop, Cmp, ShiftKind, Unop, CC};
use super::reg::{vreg, IsReg, VReg, VREG_MAX};
use crate::size::Size;
use vstd::prelude::*;
use vstd::std_specs::convert::IntoSpec;

verus! {

/// Code with virtual registers.
#[derive(Debug)]
pub struct VCode<I> {
    /// The instructions.
    pub insts: Vec<I>,
    /// The number of virtual registers.
    pub num_vregs: usize,
    /// The sizes of the spill slots in bytes.
    pub spills: Vec<u32>,
}

/// The model of code with virtual registers.
#[verifier::ext_equal]
pub struct Code<I> {
    /// The instructions.
    pub insts: Seq<I>,
    /// The number of virtual registers.
    pub vregs: int,
    /// The sizes of the spill slots in bytes.
    pub spills: Seq<u32>,
}

impl<I> View for VCode<I> {
    type V = Code<I>;

    open spec fn view(&self) -> Code<I> {
        Code { insts: self.insts@, vregs: self.num_vregs as int, spills: self.spills@ }
    }
}

impl<I> Code<I> {
    /// Whether there are numbers for all the instructions, virtual registers and spill slots.
    pub open spec fn fits(self) -> bool {
        &&& self.insts.len() <= u32::MAX + 1
        &&& self.vregs <= VREG_MAX + 1
        &&& self.spills.len() <= u32::MAX + 1
    }

    /// Whether there are numbers for as many more virtual registers and instructions.
    pub open spec fn has_room(self, vregs: int, insts: int) -> bool {
        &&& self.fits()
        &&& self.insts.len() + insts <= u32::MAX + 1
        &&& self.vregs + vregs <= VREG_MAX + 1
    }

    /// The next virtual register.
    pub open spec fn next_vreg(self) -> VReg {
        VReg { index: self.vregs as u32 }
    }

    /// The code with one more virtual register.
    pub open spec fn with_vreg(self) -> Code<I> {
        Code { vregs: self.vregs + 1, ..self }
    }

    /// The code with one more spill slot.
    pub open spec fn with_spill(self, sz: u32) -> Code<I> {
        Code { spills: self.spills.push(sz), ..self }
    }

    /// The code with one more instruction.
    pub open spec fn with_inst(self, i: I) -> Code<I> {
        Code { insts: self.insts.push(i), ..self }
    }
}

impl<I> VCode<I> {
    /// A virtual register that is not in use.
    pub fn fresh_vreg(&mut self) -> (r: VReg)
        requires
            old(self)@.with_vreg().fits(),
        ensures
            r == old(self)@.next_vreg(),
            final(self)@ == old(self)@.with_vreg(),
    {
        let r = vreg(self.num_vregs);
        self.num_vregs = self.num_vregs + 1;
        r
    }

    /// A spill slot that is not in use, of the given size in bytes.
    pub fn fresh_spill(&mut self, sz: u32) -> (r: SpillId)
        requires
            old(self)@.with_spill(sz).fits(),
        ensures
            r.0 == old(self)@.spills.len(),
            final(self)@ == old(self)@.with_spill(sz),
    {
        let n = self.spills.len() as u32;
        self.spills.push(sz);
        SpillId(n)
    }

    /// Adds an instruction.
    pub fn emit(&mut self, inst: I) -> (r: InstId)
        requires
            old(self)@.with_inst(inst).fits(),
        ensures
            r.0 == old(self)@.insts.len(),
            final(self)@ == old(self)@.with_inst(inst),
    {
        let n = self.insts.len() as u32;
        self.insts.push(inst);
        InstId(n)
    }
}

/// The conversion of a value to its own type, `<T as std::convert::From<T>>::from`. It returns its
/// argument unchanged.
pub assume_specification<Whole>[ <Whole as std::convert::From<Whole>>::from ](x: Whole) -> (y: Whole)
    ensures
        y == x,
;

/// Whether `y` is what `x` is converted to.
pub open spec fn converted<T: Into<U>, U>(x: T, y: U) -> bool {
    &&& call_ensures(T::into, (x,), y)
    &&& T::obeys_into_spec() ==> y == x.into_spec()
}

// ---------------------------------------------------------------------------------------------
// Single instructions

impl Code<Inst> {
    /// The code with an instruction that puts an address into a new register.
    pub open spec fn lea(self, addr: AMode) -> Code<Inst> {
        self.with_vreg().with_inst(Inst::Lea { dst: self.next_vreg(), addr })
    }

    /// The code with an instruction that puts a number into a new register.
    pub open spec fn imm(self, sz: Size, src: u64) -> Code<Inst> {
        self.with_vreg().with_inst(Inst::Imm { sz, dst: self.next_vreg(), src })
    }

    /// The code with a multiplication into two new registers.
    pub open spec fn mul(self, sz: Size, src1: VReg, src2: RegMem) -> Code<Inst> {
        self.with_vreg().with_vreg().with_inst(
            Inst::Mul {
                sz,
                dst_lo: self.next_vreg(),
                dst_hi: self.with_vreg().next_vreg(),
                src1,
                src2,
            },
        )
    }

    /// The code with an instruction that loads a value into a new register.
    pub open spec fn load(self, sz: Size, a: AMode) -> Code<Inst> {
        self.with_vreg().with_inst(Inst::load(sz, self.next_vreg(), a))
    }

    /// The code with an ALU operation into a new register.
    pub open spec fn binop(self, sz: Size, op: Binop, src1: VReg, src2: RegMemImm) -> Code<Inst> {
        self.with_vreg().with_inst(Inst::Binop { sz, op, dst: self.next_vreg(), src1, src2 })
    }

    /// The code with an ALU operation with one operand into a new register.
    pub open spec fn unop(self, sz: Size, op: Unop, src: VReg) -> Code<Inst> {
        self.with_vreg().with_inst(Inst::Unop { sz, op, dst: self.next_vreg(), src })
    }

    /// The code with a shift into a new register.
    pub open spec fn shift(
        self,
        sz: Size,
        kind: ShiftKind,
        src: VReg,
        amount: Result<u8, VReg>,
    ) -> Code<Inst> {
        let dst = self.next_vreg();
        self.with_vreg().with_inst(
            match amount {
                Ok(num_bits) => Inst::ShiftImm { sz, kind, dst, src, num_bits },
                Err(src2) => Inst::ShiftRR { sz, kind, dst, src, src2 },
            },
        )
    }

    /// The code with a comparison.
    pub open spec fn compare(self, sz: Size, op: Cmp, src1: VReg, src2: RegMemImm) -> Code<Inst> {
        self.with_inst(Inst::Cmp { sz, op, src1, src2 })
    }

    /// The code with an instruction that puts the truth value of a condition into a new register.
    pub open spec fn set(self, cc: CC) -> Code<Inst> {
        self.with_vreg().with_inst(Inst::SetCC { cc, dst: self.next_vreg() })
    }

    /// The code with an instruction that puts one of two values into a new register.
    pub open spec fn select(self, sz: Size, cc: CC, tru: RegMem, fal: VReg) -> Code<Inst> {
        self.with_vreg().with_inst(
            Inst::CMov { sz, cc, dst: self.next_vreg(), src1: fal, src2: tru },
        )
    }

    /// The code with a jump to one of two blocks.
    pub open spec fn branch(self, cc: CC, tru: BlockId, fal: BlockId) -> Code<Inst> {
        self.with_inst(Inst::JmpCond { cc, taken: tru, not_taken: fal })
    }
}

impl VCode<Inst> {
    /// Emits an instruction that puts an address into a new register.
    pub fn emit_lea(&mut self, addr: AMode) -> (dst: VReg)
        requires
            old(self)@.has_room(1, 1),
        ensures
            dst == old(self)@.next_vreg(),
            final(self)@ == old(self)@.lea(addr),
    {
        let dst = self.fresh_vreg();
        self.emit(Inst::Lea { dst, addr });
        dst
    }

    /// Emits an ALU operation with a new register for the result.
    pub fn emit_binop<T: Into<RegMemImm>>(
        &mut self,
        sz: Size,
        op: Binop,
        src1: VReg,
        src2: T,
    ) -> (dst: VReg)
        requires
            old(self)@.has_room(1, 1),
        ensures
            dst == old(self)@.next_vreg(),
            exists|rmi: RegMemImm| #[trigger]
                converted(src2, rmi) && final(self)@ == old(self)@.with_vreg().with_inst(
                    (Inst::Binop { sz, op, dst, src1, src2: rmi }),
                ) && final(self)@ == old(self)@.binop(sz, op, src1, rmi),
    {
        let dst = self.fresh_vreg();
        let rmi: RegMemImm = src2.into();
        assert(converted(src2, rmi));
        self.emit(Inst::Binop { sz, op, dst, src1, src2: rmi });
        dst
    }

    /// Emits an ALU operation with one operand, with a new register for the result.
    pub fn emit_unop(&mut self, sz: Size, op: Unop, src: VReg) -> (dst: VReg)
        requires
            old(self)@.has_room(1, 1),
        ensures
            dst == old(self)@.next_vreg(),
            final(self)@ == old(self)@.with_vreg().with_inst((Inst::Unop { sz, op, dst, src })),
            final(self)@ == old(self)@.unop(sz, op, src),
    {
        let dst = self.fresh_vreg();
        self.emit(Inst::Unop { sz, op, dst, src });
        dst
    }

    /// Emits an instruction that puts a number into a new register.
    pub fn emit_imm<T: Into<u64>>(&mut self, sz: Size, src: T) -> (dst: VReg)
        requires
            old(self)@.has_room(1, 1),
        ensures
            dst == old(self)@.next_vreg(),
            exists|n: u64| #[trigger]
                converted(src, n) && final(self)@ == old(self)@.imm(sz, n),
    {
        let dst = self.fresh_vreg();
        let n: u64 = src.into();
        assert(converted(src, n));
        self.emit(Inst::Imm { sz, dst, src: n });
        dst
    }

    /// Emits a multiplication with new registers for the two halves of the result, the lower half
    /// first.
    pub fn emit_mul<T: Into<RegMem>>(&mut self, sz: Size, src1: VReg, src2: T) -> (r: (VReg, VReg))
        requires
            old(self)@.has_room(2, 1),
        ensures
            r.0 == old(self)@.next_vreg(),
            r.1 == old(self)@.with_vreg().next_vreg(),
            exists|rm: RegMem| #[trigger]
                converted(src2, rm) && final(self)@ == old(self)@.mul(sz, src1, rm),
    {
        let dst_lo = self.fresh_vreg();
        let dst_hi = self.fresh_vreg();
        let rm: RegMem = src2.into();
        assert(converted(src2, rm));
        self.emit(Inst::Mul { sz, dst_lo, dst_hi, src1, src2: rm });
        (dst_lo, dst_hi)
    }

    /// Emits a shift by a fixed amount or by the amount in a register, with a new register for the
    /// result.
    pub fn emit_shift(&mut self, sz: Size, kind: ShiftKind, src1: VReg, src2: Result<u8, VReg>) -> (dst:
        VReg)
        requires
            old(self)@.has_room(1, 1),
        ensures
            dst == old(self)@.next_vreg(),
            final(self)@ == old(self)@.with_vreg().with_inst(
                match src2 {
                    Ok(num_bits) => Inst::ShiftImm { sz, kind, dst, src: src1, num_bits },
                    Err(src2) => Inst::ShiftRR { sz, kind, dst, src: src1, src2 },
                },
            ),
            final(self)@ == old(self)@.shift(sz, kind, src1, src2),
    {
        let dst = self.fresh_vreg();
        self.emit(
            match src2 {
                Ok(num_bits) => Inst::ShiftImm { sz, kind, dst, src: src1, num_bits },
                Err(src2) => Inst::ShiftRR { sz, kind, dst, src: src1, src2 },
            },
        );
        dst
    }

    /// Emits a comparison. The result is to be used before anything else is emitted, since other
    /// instructions change the flags.
    pub fn emit_cmp<T: Into<RegMemImm>>(
        &mut self,
        sz: Size,
        op: Cmp,
        cc: CC,
        src1: VReg,
        src2: T,
    ) -> (r: Flags<'_>)
        requires
            old(self)@.has_room(0, 1),
        ensures
            r.cc == cc,
            exists|rmi: RegMemImm| #[trigger]
                converted(src2, rmi) && r.code@ == old(self)@.with_inst(
                    (Inst::Cmp { sz, op, src1, src2: rmi }),
                ) && r.code@ == old(self)@.compare(sz, op, src1, rmi),
            *final(self) == *final(r.code),
    {
        let rmi: RegMemImm = src2.into();
        assert(converted(src2, rmi));
        self.emit(Inst::Cmp { sz, op, src1, src2: rmi });
        Flags { code: self, cc }
    }
}

// ---------------------------------------------------------------------------------------------
// Flags

/// The flags that were set by a comparison, with the condition that is tested on them. While it is
/// held, nothing else can be emitted.
#[must_use]
pub struct Flags<'a> {
    /// The code up to the comparison.
    pub code: &'a mut VCode<Inst>,
    /// The condition.
    pub cc: CC,
}

impl<'a> Flags<'a> {
    /// Puts the truth value of the condition into a new register.
    pub fn into_reg(self) -> (dst: VReg)
        requires
            old(self.code)@.has_room(1, 1),
        ensures
            dst == old(self.code)@.next_vreg(),
            final(self.code)@ == old(self.code)@.with_vreg().with_inst(
                (Inst::SetCC { cc: self.cc, dst }),
            ),
            final(self.code)@ == old(self.code)@.set(self.cc),
    {
        let dst = self.code.fresh_vreg();
        self.code.emit(Inst::SetCC { cc: self.cc, dst });
        dst
    }

    /// Puts one of two values into a new register: `tru` where the condition holds, and `fal`
    /// otherwise.
    pub fn select<T: Into<RegMem>>(self, sz: Size, tru: T, fal: VReg) -> (dst: VReg)
        requires
            old(self.code)@.has_room(1, 1),
        ensures
            dst == old(self.code)@.next_vreg(),
            exists|rm: RegMem| #[trigger]
                converted(tru, rm) && final(self.code)@ == old(self.code)@.with_vreg().with_inst(
                    (Inst::CMov { sz, cc: self.cc, dst, src1: fal, src2: rm }),
                ) && final(self.code)@ == old(self.code)@.select(sz, self.cc, rm, fal),
    {
        let dst = self.code.fresh_vreg();
        let rm: RegMem = tru.into();
        assert(converted(tru, rm));
        self.code.emit(Inst::CMov { sz, cc: self.cc, dst, src1: fal, src2: rm });
        dst
    }

    /// Traps where the condition holds.
    pub fn trap_if(self) -> (r: InstId)
        requires
            old(self.code)@.has_room(0, 1),
        ensures
            r.0 == old(self.code)@.insts.len(),
            final(self.code)@ == old(self.code)@.with_inst((Inst::TrapIf { cc: self.cc })),
    {
        self.code.emit(Inst::TrapIf { cc: self.cc })
    }

    /// Goes to one of two blocks: `tru` where the condition holds, and `fal` otherwise.
    pub fn branch(self, tru: BlockId, fal: BlockId) -> (r: InstId)
        requires
            old(self.code)@.has_room(0, 1),
        ensures
            r.0 == old(self.code)@.insts.len(),
            final(self.code)@ == old(self.code)@.with_inst(
                (Inst::JmpCond { cc: self.cc, taken: tru, not_taken: fal }),
            ),
            final(self.code)@ == old(self.code)@.branch(self.cc, tru, fal),
    {
        self.code.emit(Inst::JmpCond { cc: self.cc, taken: tru, not_taken: fal })
    }
}

// ---------------------------------------------------------------------------------------------
// Copies

impl Code<Inst> {
    /// The code with instructions that copy a value from one place to another. What is not written
    /// is not copied. There is no instruction from memory or from a number to memory, so these go
    /// through a new register.
    pub open spec fn copy(self, sz: Size, dst: RegMem, src: RegMemImm<u64>) -> Code<Inst> {
        match (dst, src) {
            (_, RegMemImm::Uninit) => self,
            (RegMem::Reg(dst), RegMemImm::Reg(src)) => self.with_inst(
                Inst::MovRR { sz, dst, src },
            ),
            (RegMem::Reg(dst), RegMemImm::Mem(src)) => self.with_inst(Inst::load(sz, dst, src)),
            (RegMem::Reg(dst), RegMemImm::Imm(src)) => self.with_inst(Inst::Imm { sz, dst, src }),
            (RegMem::Mem(dst), RegMemImm::Reg(src)) => self.with_inst(
                Inst::Store { sz, dst, src },
            ),
            (RegMem::Mem(dst), RegMemImm::Mem(src)) => self.load(sz, src).with_inst(
                Inst::Store { sz, dst, src: self.next_vreg() },
            ),
            (RegMem::Mem(dst), RegMemImm::Imm(src)) => self.imm(sz, src).with_inst(
                Inst::Store { sz, dst, src: self.next_vreg() },
            ),
        }
    }
}

impl VCode<Inst> {
    /// Copies a value from one place to another.
    pub fn emit_copy<T: Into<RegMemImm<u64>>>(&mut self, sz: Size, dst: RegMem, src: T)
        requires
            forall|rmi: RegMemImm<u64>| #[trigger]
                converted(src, rmi) ==> old(self)@.copy(sz, dst, rmi).fits() && (rmi is Mem ==> sz
                    != Size::Inf),
        ensures
            exists|rmi: RegMemImm<u64>| #[trigger]
                converted(src, rmi) && final(self)@ == old(self)@.copy(sz, dst, rmi),
    {
        let rmi: RegMemImm<u64> = src.into();
        assert(converted(src, rmi));
        self.copy(sz, dst, rmi);
    }

    fn copy(&mut self, sz: Size, dst: RegMem, src: RegMemImm<u64>)
        requires
            old(self)@.copy(sz, dst, src).fits(),
            src is Mem ==> sz != Size::Inf,
        ensures
            final(self)@ == old(self)@.copy(sz, dst, src),
        decreases (dst is Mem && !(src is Reg)) as int,
    {
        match (dst, src) {
            (_, RegMemImm::Uninit) => {},
            (RegMem::Reg(dst), RegMemImm::Reg(src)) => {
                self.emit(Inst::MovRR { sz, dst, src });
            },
            (RegMem::Reg(dst), RegMemImm::Mem(src)) => {
                self.emit(Inst::load_mem(sz, dst, src));
            },
            (RegMem::Reg(dst), RegMemImm::Imm(src)) => {
                self.emit(Inst::Imm { sz, dst, src });
            },
            (RegMem::Mem(dst), RegMemImm::Reg(src)) => {
                self.emit(Inst::Store { sz, dst, src });
            },
            _ => {
                let temp = self.fresh_vreg();
                self.copy(sz, temp.into(), src);
                self.copy(sz, dst, temp.into());
            },
        }
    }
}

// ---------------------------------------------------------------------------------------------
// Addresses

impl AMode {
    /// Whether no register can be added as the base: there is one, or the address is relative to
    /// the stack pointer.
    pub open spec fn base_taken(self) -> bool {
        self.base != VReg::none() || self.off is Spill
    }

    /// The address of what is `sc` times `reg` after this one, with the code that it takes to make
    /// it. One register can be added as the base, and one shifted by up to three bits. Where there
    /// is a shifted register already, the address is put into a new register first. Where `sc` is
    /// not such a factor, the product is put into a new register.
    pub open spec fn scaled(self, code: Code<Inst>, sc: u64, reg: VReg) -> (Code<Inst>, AMode)
        decreases (self.si is Some) as int,
    {
        let shifted = |shift: u8| Some(ShiftIndex { index: reg, shift });
        if sc == 1 && !self.base_taken() {
            (code, AMode { base: reg, ..self })
        } else if self.si is Some {
            let a = AMode { off: Offset::Real(0), base: code.next_vreg(), si: None };
            a.scaled(code.lea(self), sc, reg)
        } else if sc == 1 {
            (code, AMode { si: shifted(0), ..self })
        } else if sc == 2 {
            (code, AMode { si: shifted(1), ..self })
        } else if sc == 4 {
            (code, AMode { si: shifted(2), ..self })
        } else if sc == 8 {
            (code, AMode { si: shifted(3), ..self })
        } else if sc == 3 && !self.base_taken() {
            (code, AMode { base: reg, si: shifted(1), ..self })
        } else if sc == 5 && !self.base_taken() {
            (code, AMode { base: reg, si: shifted(2), ..self })
        } else if sc == 9 && !self.base_taken() {
            (code, AMode { base: reg, si: shifted(3), ..self })
        } else {
            let code1 = code.imm(Size::S64, sc);
            let code2 = code1.mul(Size::S64, reg, RegMem::Reg(code.next_vreg()));
            (
                code2,
                AMode { si: Some(ShiftIndex { index: code1.next_vreg(), shift: 0 }), ..self },
            )
        }
    }

    /// Loads the value at the address into a new register.
    pub fn emit_load(&self, code: &mut VCode<Inst>, sz: Size) -> (dst: VReg)
        requires
            old(code)@.has_room(1, 1),
            sz != Size::Inf,
        ensures
            dst == old(code)@.next_vreg(),
            final(code)@ == old(code)@.load(sz, *self),
    {
        let dst = code.fresh_vreg();
        code.emit(Inst::load_mem(sz, dst, *self));
        dst
    }

    /// The address of what is `sc` times `reg` after this one.
    pub fn add_scaled(&self, code: &mut VCode<Inst>, sc: u64, reg: VReg) -> (r: AMode)
        requires
            self.scaled(old(code)@, sc, reg).0.fits(),
        ensures
            (final(code)@, r) == self.scaled(old(code)@, sc, reg),
        decreases (self.si is Some) as int,
    {
        let base_taken = self.base.is_valid() || matches!(self.off, Offset::Spill(_, _));
        if sc == 1 && !base_taken {
            return AMode { off: self.off, base: reg, si: self.si };
        }
        proof {
            reveal_with_fuel(AMode::scaled, 2);
        }
        if self.si.is_some() {
            return AMode::reg(code.emit_lea(*self)).add_scaled(code, sc, reg);
        }
        if sc == 1 || sc == 2 || sc == 4 || sc == 8 {
            let shift: u8 = if sc == 1 {
                0
            } else if sc == 2 {
                1
            } else if sc == 4 {
                2
            } else {
                3
            };
            return AMode {
                off: self.off,
                base: self.base,
                si: Some(ShiftIndex { index: reg, shift }),
            };
        }
        if !base_taken && (sc == 3 || sc == 5 || sc == 9) {
            let shift: u8 = if sc == 3 {
                1
            } else if sc == 5 {
                2
            } else {
                3
            };
            return AMode { off: self.off, base: reg, si: Some(ShiftIndex { index: reg, shift }) };
        }
        let factor = code.emit_imm(Size::S64, sc);
        let (mul, _) = code.emit_mul(Size::S64, reg, factor);
        AMode { off: self.off, base: self.base, si: Some(ShiftIndex { index: mul, shift: 0 }) }
    }
}

// ---------------------------------------------------------------------------------------------
// Operands

impl RegMem {
    /// The operand in a register, with the code that it takes to put it there.
    pub open spec fn in_reg(self, code: Code<Inst>, sz: Size) -> (Code<Inst>, VReg) {
        match self {
            RegMem::Reg(r) => (code, r),
            RegMem::Mem(a) => (code.load(sz, a), code.next_vreg()),
        }
    }

    /// The operand in a register.
    pub fn into_reg(self, code: &mut VCode<Inst>, sz: Size) -> (r: VReg)
        requires
            self is Mem ==> old(code)@.has_room(1, 1) && sz != Size::Inf,
        ensures
            match self {
                RegMem::Reg(reg) => r == reg && final(code)@ == old(code)@,
                RegMem::Mem(a) => r == old(code)@.next_vreg() && final(code)@ == old(code)@.load(
                    sz,
                    a,
                ),
            },
            (final(code)@, r) == self.in_reg(old(code)@, sz),
    {
        match self {
            RegMem::Reg(r) => r,
            RegMem::Mem(a) => a.emit_load(code, sz),
        }
    }

    /// The operand in memory. A register is stored in a new spill slot.
    pub fn into_mem(self, code: &mut VCode<Inst>, sz: Size) -> (r: AMode)
        requires
            self is Reg ==> old(code)@.has_room(0, 1) && old(code)@.spills.len() <= u32::MAX && sz
                != Size::Inf,
        ensures
            match self {
                RegMem::Reg(reg) => {
                    &&& r == AMode::<VReg>::at(
                        Offset::Spill(SpillId(old(code)@.spills.len() as u32), 0),
                    )
                    &&& final(code)@ == old(code)@.with_spill(
                        sz.byte_count().unwrap() as u32,
                    ).with_inst((Inst::Store { sz, dst: r, src: reg }))
                    &&& final(code)@ == old(code)@.spilled(sz, reg, r)
                },
                RegMem::Mem(a) => r == a && final(code)@ == old(code)@,
            },
    {
        match self {
            RegMem::Reg(r) => {
                let bytes: u32 = match sz.bytes() {
                    Some(n) => n.into(),
                    None => 0,
                };
                let a: AMode = AMode::spill(code.fresh_spill(bytes));
                code.copy(sz, a.into(), r.into());
                a
            },
            RegMem::Mem(a) => a,
        }
    }

    /// The address that the operand holds.
    pub fn emit_deref(&self, code: &mut VCode<Inst>, sz: Size) -> (r: AMode)
        requires
            *self is Mem ==> old(code)@.has_room(1, 1) && sz != Size::Inf,
        ensures
            match *self {
                RegMem::Reg(reg) => r == (AMode { off: Offset::Real(0), base: reg, si: None })
                    && final(code)@ == old(code)@,
                RegMem::Mem(a) => r == (AMode {
                    off: Offset::Real(0),
                    base: old(code)@.next_vreg(),
                    si: None,
                }) && final(code)@ == old(code)@.load(sz, a),
            },
            final(code)@ == self.in_reg(old(code)@, sz).0,
            r == AMode::<VReg>::based(self.in_reg(old(code)@, sz).1),
    {
        AMode::reg(self.into_reg(code, sz))
    }
}

impl<N: Into<u64>> RegMemImm<N> {
    /// The operand in a register or in memory. For an unwritten value, any register will do.
    pub fn into_rm(self, code: &mut VCode<Inst>, sz: Size) -> (r: RegMem)
        requires
            self is Imm ==> old(code)@.has_room(1, 1),
            self is Uninit ==> old(code)@.has_room(1, 0),
        ensures
            match self {
                RegMemImm::Reg(reg) => r == RegMem::Reg(reg) && final(code)@ == old(code)@,
                RegMemImm::Mem(a) => r == RegMem::<VReg>::Mem(a) && final(code)@ == old(code)@,
                RegMemImm::Imm(i) => r == RegMem::Reg(old(code)@.next_vreg()) && exists|n: u64|
                    #[trigger] converted(i, n) && final(code)@ == old(code)@.imm(sz, n),
                RegMemImm::Uninit => r == RegMem::Reg(old(code)@.next_vreg()) && final(code)@
                    == old(code)@.with_vreg(),
            },
    {
        match self {
            RegMemImm::Reg(r) => RegMem::Reg(r),
            RegMemImm::Mem(a) => RegMem::Mem(a),
            RegMemImm::Imm(i) => RegMem::Reg(code.emit_imm(sz, i)),
            RegMemImm::Uninit => RegMem::Reg(code.fresh_vreg()),
        }
    }

    /// The operand in a register.
    pub fn into_reg(self, code: &mut VCode<Inst>, sz: Size) -> (r: VReg)
        requires
            self is Mem ==> old(code)@.has_room(1, 1) && sz != Size::Inf,
            self is Imm ==> old(code)@.has_room(1, 1),
            self is Uninit ==> old(code)@.has_room(1, 0),
        ensures
            match self {
                RegMemImm::Reg(reg) => r == reg && final(code)@ == old(code)@,
                RegMemImm::Mem(a) => r == old(code)@.next_vreg() && final(code)@ == old(
                    code,
                )@.load(sz, a),
                RegMemImm::Imm(i) => r == old(code)@.next_vreg() && exists|n: u64| #[trigger]
                    converted(i, n) && final(code)@ == old(code)@.imm(sz, n),
                RegMemImm::Uninit => r == old(code)@.next_vreg() && final(code)@ == old(
                    code,
                )@.with_vreg(),
            },
    {
        match self {
            RegMemImm::Reg(r) => r,
            RegMemImm::Mem(a) => a.emit_load(code, sz),
            RegMemImm::Imm(i) => code.emit_imm(sz, i),
            RegMemImm::Uninit => code.fresh_vreg(),
        }
    }

    /// The operand in memory. What is not there is put into a register and stored in a new spill
    /// slot.
    pub fn into_mem(self, code: &mut VCode<Inst>, sz: Size) -> (r: AMode)
        requires
            !(self is Mem) ==> old(code)@.spills.len() <= u32::MAX && sz != Size::Inf,
            self is Reg ==> old(code)@.has_room(0, 1),
            self is Imm ==> old(code)@.has_room(1, 2),
            self is Uninit ==> old(code)@.has_room(1, 1),
        ensures
            match self {
                RegMemImm::Mem(a) => r == a && final(code)@ == old(code)@,
                _ => r == AMode::<VReg>::at(
                    Offset::Spill(SpillId(old(code)@.spills.len() as u32), 0),
                ),
            },
            match self {
                RegMemImm::Reg(reg) => final(code)@ == old(code)@.spilled(sz, reg, r),
                RegMemImm::Imm(i) => exists|n: u64| #[trigger]
                    converted(i, n) && final(code)@ == old(code)@.imm(sz, n).spilled(
                        sz,
                        old(code)@.next_vreg(),
                        r,
                    ),
                RegMemImm::Uninit => final(code)@ == old(code)@.with_vreg().spilled(
                    sz,
                    old(code)@.next_vreg(),
                    r,
                ),
                RegMemImm::Mem(_) => true,
            },
    {
        self.into_rm(code, sz).into_mem(code, sz)
    }
}

impl Code<Inst> {
    /// The code with a register stored in a new spill slot.
    pub open spec fn spilled(self, sz: Size, src: VReg, slot: AMode) -> Code<Inst> {
        self.with_spill(sz.byte_count().unwrap() as u32).with_inst(
            Inst::Store { sz, dst: slot, src },
        )
    }
}

impl RegMemImm<u64> {
    /// The operand with a 32 bit immediate, with the code that it takes. In a 64 bit instruction
    /// such an immediate stands for its sign extension, so only a number below 2^31 stands for
    /// itself at every size. A larger number is put into a register.
    pub open spec fn narrowed(self, code: Code<Inst>) -> (Code<Inst>, RegMemImm) {
        match self {
            RegMemImm::Reg(r) => (code, RegMemImm::Reg(r)),
            RegMemImm::Mem(a) => (code, RegMemImm::Mem(a)),
            RegMemImm::Imm(i) => if i < 0x8000_0000 {
                (code, RegMemImm::Imm(i as u32))
            } else {
                (code.imm(Size::S64, i), RegMemImm::Reg(code.next_vreg()))
            },
            RegMemImm::Uninit => (code, RegMemImm::Uninit),
        }
    }

    /// The operand with a 32 bit immediate. A number that such an immediate does not stand for at
    /// every size is put into a register.
    pub fn into_rmi_32(self, code: &mut VCode<Inst>) -> (r: RegMemImm)
        requires
            self matches RegMemImm::Imm(i) && i >= 0x8000_0000 ==> old(code)@.has_room(1, 1),
        ensures
            (final(code)@, r) == self.narrowed(old(code)@),
    {
        match self {
            RegMemImm::Reg(r) => RegMemImm::Reg(r),
            RegMemImm::Mem(a) => RegMemImm::Mem(a),
            RegMemImm::Imm(i) => if i < 0x8000_0000 {
                RegMemImm::Imm(i as u32)
            } else {
                RegMemImm::Reg(code.emit_imm(Size::S64, i))
            },
            RegMemImm::Uninit => RegMemImm::Uninit,
        }
    }
}

} // verus!
