//! Instructions after register allocation, and the lengths of their encodings.

use super::inst::{BlockId, ProcId};
use super::mode::{AMode, Offset, RegMem, ShiftIndex};
use super::ops::{Binop, Cmp, ExtMode, ShiftKind, Unop, CC};
use super::reg::{large_preg, preg, IsReg, PReg, RAX, RBP, RSP};
use crate::size::Size;
use vstd::prelude::*;

verus! {

/// A version of `ShiftIndex` post-register allocation.
pub type PShiftIndex = ShiftIndex<PReg>;

/// A version of `AMode` post-register allocation.
/// [`Offset::Spill`] is not permitted in a physical address.
pub type PAMode = AMode<PReg>;

/// A version of `RegMem` post-register allocation.
pub type PRegMem = RegMem<PReg>;

/// A version of `RegMemImm` post-register allocation.
#[derive(Clone, Copy, PartialEq, Eq, Structural)]
pub enum PRegMemImm {
    Reg(PReg),
    Mem(PAMode),
    Imm(u32),
}

/// An instruction with machine registers.
#[allow(inconsistent_fields)]
#[derive(Clone, Copy, Debug, PartialEq, Eq, Structural)]
pub enum PInst {
    /// Integer arithmetic/bit-twiddling: `reg <- (add|sub|and|or|xor|adc|sbb) (32|64) reg rmi`. The
    /// size is 4 or 8.
    Binop { op: Binop, sz: Size, dst: PReg, src: PRegMemImm },
    /// Unary ALU operations: `reg <- (not|neg) (8|16|32|64) reg`. The size is 1, 2, 4 or 8.
    Unop { op: Unop, sz: Size, dst: PReg },
    /// Unsigned integer quotient and remainder pseudo-operation:
    /// `RDX:RAX <- cdq RAX`, `RAX,RDX <- divrem RDX:RAX r/m.` The size is 2, 4 or 8.
    DivRem { sz: Size, src: PRegMem },
    /// Unsigned integer multiplication: `RDX:RAX <- mul RAX r/m.` The size is 2, 4 or 8.
    Mul { sz: Size, src: PRegMem },
    /// Constant materialization: `reg <- (imm32|imm64)`.
    /// Either: movl $imm32, %reg32 or movabsq $imm64, %reg32. The size is 4 or 8.
    Imm { sz: Size, dst: PReg, src: u64 },
    /// GPR to GPR move: `reg <- mov (64|32) reg`. This is always a pure move, because we require
    /// that a 32 bit source register has zeroed high part. The size is 4 or 8.
    MovRR { sz: Size, dst: PReg, src: PReg },
    /// Zero-extended loads, except for 64 bits: `reg <- movz (bl|bq|wl|wq|lq) r/m`.
    /// Note that the lq variant doesn't really exist since the default zero-extend rule makes it
    /// unnecessary. For that case we emit the equivalent "movl AM, reg32".
    MovzxRmR { ext_mode: ExtMode, dst: PReg, src: PRegMem },
    /// A plain 64-bit integer load, since `MovzxRmR` can't represent that.
    Load64 { dst: PReg, src: PAMode },
    /// Load effective address: `dst <- addr`
    Lea { dst: PReg, addr: PAMode },
    /// Sign-extended loads and moves: `reg <- movs (bl|bq|wl|wq|lq) [addr]`.
    MovsxRmR { ext_mode: ExtMode, dst: PReg, src: PRegMem },
    /// Integer stores: `[addr] <- mov (b|w|l|q) reg`. The size is 1, 2, 4 or 8.
    Store { sz: Size, dst: PAMode, src: PReg },
    /// Arithmetic shifts: `reg <- (shl|shr|sar) (b|w|l|q) reg, imm/CL`. The size is 1, 2, 4 or 8.
    /// The shift count is less than the number of bits, or `None` for CL.
    Shift { sz: Size, kind: ShiftKind, dst: PReg, num_bits: Option<u8> },
    /// Integer comparisons/tests: `flags <- (cmp|test) (b|w|l|q) reg rmi`. The size is 1, 2, 4 or 8.
    Cmp { sz: Size, op: Cmp, src1: PReg, src2: PRegMemImm },
    /// Materializes the requested condition code in the destination reg.
    /// `dst <- if cc { 1 } else { 0 }`
    SetCC { cc: CC, dst: PReg },
    /// Integer conditional move. Overwrites the destination register. The size is 2, 4, or 8.
    CMov { sz: Size, cc: CC, dst: PReg, src: PRegMem },
    /// `pushq rmi`
    Push64 { src: PRegMemImm },
    /// `popq reg`
    Pop64 { dst: PReg },
    /// Direct call: `call f`.
    CallKnown { f: ProcId },
    /// Return.
    Ret,
    /// Jump to a known target: `jmp simm32`. `short` is true if we know that the branch can be
    /// encoded by a `RIP + i8` relative jump.
    JmpKnown { dst: BlockId, short: bool },
    /// Conditional jump: `if cc { jmp dst }`. `short` is true if we know that the branch can be
    /// encoded by a `RIP + i8` relative jump.
    JmpCond { cc: CC, dst: BlockId, short: bool },
    /// Traps if the condition code is set.
    TrapIf { cc: CC },
    /// An instruction that will always trigger the illegal instruction exception.
    Ud2,
}

/// How the displacement of an address is encoded.
#[derive(Clone, Copy, Debug, PartialEq, Eq, Structural)]
pub enum DispLayout {
    /// Not at all.
    S0,
    /// In one byte.
    S8,
    /// In four bytes.
    S32,
}

impl DispLayout {
    /// The number of bytes.
    pub open spec fn size(self) -> int {
        match self {
            DispLayout::S0 => 0,
            DispLayout::S8 => 1,
            DispLayout::S32 => 4,
        }
    }

    /// The number of bytes.
    pub fn len(self) -> (r: u8)
        ensures
            r == self.size(),
    {
        match self {
            DispLayout::S0 => 0,
            DispLayout::S8 => 1,
            DispLayout::S32 => 4,
        }
    }
}

/// How the register or address of an operand is encoded.
#[derive(Clone, Copy, Debug, PartialEq, Eq, Structural)]
pub enum ModRMLayout {
    /// A register: ModRM.
    Reg,
    /// An address relative to the instruction: ModRM + imm32.
    RIP,
    /// An address without a base register: ModRM + SIB + imm32.
    Sib0,
    /// An address with a base register and a scaled one: ModRM + SIB + disp0/8/32.
    SibReg(DispLayout),
    /// An address with a base register: ModRM + disp0/8/32.
    Disp(DispLayout),
}

impl ModRMLayout {
    /// The number of bytes.
    pub open spec fn size(self) -> int {
        match self {
            ModRMLayout::Reg => 1,
            ModRMLayout::RIP => 5,
            ModRMLayout::Sib0 => 6,
            ModRMLayout::SibReg(disp) => 2 + disp.size(),
            ModRMLayout::Disp(disp) => 1 + disp.size(),
        }
    }

    /// The number of bytes.
    pub fn len(self) -> (r: u8)
        ensures
            r == self.size(),
            1 <= r <= 6,
    {
        match self {
            ModRMLayout::Reg => 1,
            ModRMLayout::RIP => 5,
            ModRMLayout::Sib0 => 6,
            ModRMLayout::SibReg(disp) => 2 + disp.len(),
            ModRMLayout::Disp(disp) => 1 + disp.len(),
        }
    }
}

/// How an instruction is encoded, but for the REX byte.
#[derive(Clone, Copy, Debug, PartialEq, Eq, Structural)]
pub enum OpcodeLayout {
    /// `decodeBinopRAX` layout: `00ooo01v + imm32`
    BinopRAX,
    /// `decodeBinopImm` layout: `1000000v + modrm + imm32`
    BinopImm(ModRMLayout),
    /// `decodeBinopImm8` layout: `0x83 + modrm + imm8`
    BinopImm8(ModRMLayout),
    /// `decodeBinopReg` layout: `00ooo0dv + modrm`
    BinopReg(ModRMLayout),
    /// `decodeBinopHi` layout: `1100000v + modrm + imm8`
    BinopHi(ModRMLayout),
    /// `decodeBinopHiReg` layout: `110100xv + modrm`
    BinopHiReg(ModRMLayout),
    /// `decodeMovSX` layout: `0x63 + modrm`
    MovSX(ModRMLayout),
    /// `decodeMovReg` layout: `100010dv + modrm`
    MovReg(ModRMLayout),
    /// `decodeMov64` layout, but for 32 bit: `1011vrrr + imm32`
    Mov32,
    /// `decodeMov64` layout: `1011vrrr + imm64`
    Mov64,
    /// `decodeMovImm` layout: `1100011v + modrm + imm32`
    MovImm(ModRMLayout),
    /// `decodePushImm` layout with 8 bit immediate: `0x6A + imm8`
    PushImm8,
    /// `decodePushImm` layout with 32 bit immediate: `0x68 + imm32`
    PushImm32,
    /// `decodePushReg` layout: `01010rrr`
    PushReg,
    /// `decodePopReg` layout: `01011rrr`
    PopReg,
    /// `decodeJump` layout with 8 bit immediate: `0xEB + imm8`
    Jump8,
    /// `decodeJump` layout with 32 bit immediate: `0xE9 + imm32`
    Jump32,
    /// `decodeJCC8` layout: `0111cccc + imm8`
    Jcc8,
    /// `decodeCall` layout: `0xE8 + imm32`
    Call,
    /// `decodeRet` layout: `0xC3`
    Ret,
    /// `decodeLea` layout: `0x8D + modrm`
    Lea(ModRMLayout),
    /// `decodeTest` layout: `1000010v + modrm`
    Test(ModRMLayout),
    /// `decodeTestRAX` layout with 8 bit immediate: `1010100v + imm8`
    TestRAX8,
    /// `decodeTestRAX` layout with 32 bit immediate: `1010100v + imm32`
    TestRAX32,
    /// `decodeHi` layout: `1111x11v + modrm`
    Hi(ModRMLayout),
    /// `decodeHi` layout for `Test` with 8 bit immediate: `1111x11v + modrm + imm8`
    HiTest8(ModRMLayout),
    /// `decodeHi` layout for `Test` with 32 bit immediate: `1111x11v + modrm + imm32`
    HiTest32(ModRMLayout),
    /// `decodeTwoSetCC` layout: `0x0F + 1001cccc + modrm`
    TwoSetCC(ModRMLayout),
    /// `decodeTwoCMov` layout: `0x0F + 0100cccc + modrm`
    TwoCMov(ModRMLayout),
    /// `decodeTwoMovX` layout: `0x0F + 1011s11v + modrm`
    TwoMovX(ModRMLayout),
    /// `decodeTwoJCC` layout: `0x0F + 1000cccc + imm32`
    TwoJcc,
    /// `trapIf` pseudo-instruction: `jcc !cond l; ud2; l:`
    TrapIf,
    /// `ud2` instruction: `0x0F 0x0B`
    Ud2,
}

impl OpcodeLayout {
    /// The number of bytes of the opcode. One of a `jcc` and two of a `ud2` make up a trap.
    pub open spec fn opcode_bytes(self) -> int {
        match self {
            OpcodeLayout::TwoSetCC(_) => 2,
            OpcodeLayout::TwoCMov(_) => 2,
            OpcodeLayout::TwoMovX(_) => 2,
            OpcodeLayout::TwoJcc => 2,
            OpcodeLayout::Ud2 => 2,
            OpcodeLayout::TrapIf => 3,
            _ => 1,
        }
    }

    /// The register or address, if there is one.
    pub open spec fn modrm(self) -> Option<ModRMLayout> {
        match self {
            OpcodeLayout::BinopImm(m) => Some(m),
            OpcodeLayout::BinopImm8(m) => Some(m),
            OpcodeLayout::BinopReg(m) => Some(m),
            OpcodeLayout::BinopHi(m) => Some(m),
            OpcodeLayout::BinopHiReg(m) => Some(m),
            OpcodeLayout::MovSX(m) => Some(m),
            OpcodeLayout::MovReg(m) => Some(m),
            OpcodeLayout::MovImm(m) => Some(m),
            OpcodeLayout::Lea(m) => Some(m),
            OpcodeLayout::Test(m) => Some(m),
            OpcodeLayout::Hi(m) => Some(m),
            OpcodeLayout::HiTest8(m) => Some(m),
            OpcodeLayout::HiTest32(m) => Some(m),
            OpcodeLayout::TwoSetCC(m) => Some(m),
            OpcodeLayout::TwoCMov(m) => Some(m),
            OpcodeLayout::TwoMovX(m) => Some(m),
            _ => None,
        }
    }

    /// The number of bytes of the immediate operand.
    pub open spec fn imm_bytes(self) -> int {
        match self {
            OpcodeLayout::BinopRAX => 4,
            OpcodeLayout::BinopImm(_) => 4,
            OpcodeLayout::Mov32 => 4,
            OpcodeLayout::MovImm(_) => 4,
            OpcodeLayout::PushImm32 => 4,
            OpcodeLayout::Jump32 => 4,
            OpcodeLayout::Call => 4,
            OpcodeLayout::TestRAX32 => 4,
            OpcodeLayout::HiTest32(_) => 4,
            OpcodeLayout::TwoJcc => 4,
            OpcodeLayout::BinopImm8(_) => 1,
            OpcodeLayout::BinopHi(_) => 1,
            OpcodeLayout::PushImm8 => 1,
            OpcodeLayout::Jump8 => 1,
            OpcodeLayout::Jcc8 => 1,
            OpcodeLayout::TestRAX8 => 1,
            OpcodeLayout::HiTest8(_) => 1,
            OpcodeLayout::TrapIf => 1,
            OpcodeLayout::Mov64 => 8,
            _ => 0,
        }
    }

    /// The number of bytes.
    pub open spec fn size(self) -> int {
        self.opcode_bytes() + self.imm_bytes() + match self.modrm() {
            Some(m) => m.size(),
            None => 0,
        }
    }

    /// The number of bytes without the register or address.
    fn fixed_len(self) -> (r: u8)
        ensures
            r == self.opcode_bytes() + self.imm_bytes(),
            r <= 9,
            self.modrm() is Some ==> r <= 5,
    {
        match self {
            // opcode
            OpcodeLayout::Ret | OpcodeLayout::PushReg | OpcodeLayout::PopReg
            | OpcodeLayout::BinopReg(_) | OpcodeLayout::BinopHiReg(_) | OpcodeLayout::MovSX(_)
            | OpcodeLayout::MovReg(_) | OpcodeLayout::Lea(_) | OpcodeLayout::Test(_)
            | OpcodeLayout::Hi(_) => 1,
            // opcode + imm8
            OpcodeLayout::PushImm8 | OpcodeLayout::Jump8 | OpcodeLayout::Jcc8
            | OpcodeLayout::TestRAX8 | OpcodeLayout::BinopImm8(_) | OpcodeLayout::BinopHi(_)
            | OpcodeLayout::HiTest8(_) => 2,
            // 0F + opcode
            OpcodeLayout::Ud2 | OpcodeLayout::TwoSetCC(_) | OpcodeLayout::TwoCMov(_)
            | OpcodeLayout::TwoMovX(_) => 2,
            // jcc8 + ud2
            OpcodeLayout::TrapIf => 4,
            // opcode + imm32
            OpcodeLayout::BinopRAX | OpcodeLayout::Mov32 | OpcodeLayout::PushImm32
            | OpcodeLayout::Jump32 | OpcodeLayout::Call | OpcodeLayout::TestRAX32
            | OpcodeLayout::BinopImm(_) | OpcodeLayout::MovImm(_) | OpcodeLayout::HiTest32(_) => 5,
            // 0F + opcode + imm32
            OpcodeLayout::TwoJcc => 6,
            // opcode + imm64
            OpcodeLayout::Mov64 => 9,
        }
    }

    /// The register or address, if there is one.
    fn modrm_part(self) -> (r: Option<ModRMLayout>)
        ensures
            r == self.modrm(),
    {
        match self {
            OpcodeLayout::BinopImm(m) => Some(m),
            OpcodeLayout::BinopImm8(m) => Some(m),
            OpcodeLayout::BinopReg(m) => Some(m),
            OpcodeLayout::BinopHi(m) => Some(m),
            OpcodeLayout::BinopHiReg(m) => Some(m),
            OpcodeLayout::MovSX(m) => Some(m),
            OpcodeLayout::MovReg(m) => Some(m),
            OpcodeLayout::MovImm(m) => Some(m),
            OpcodeLayout::Lea(m) => Some(m),
            OpcodeLayout::Test(m) => Some(m),
            OpcodeLayout::Hi(m) => Some(m),
            OpcodeLayout::HiTest8(m) => Some(m),
            OpcodeLayout::HiTest32(m) => Some(m),
            OpcodeLayout::TwoSetCC(m) => Some(m),
            OpcodeLayout::TwoCMov(m) => Some(m),
            OpcodeLayout::TwoMovX(m) => Some(m),
            _ => None,
        }
    }

    /// The number of bytes.
    pub fn len(self) -> (r: u8)
        ensures
            r == self.size(),
            r <= 11,
    {
        let fixed = self.fixed_len();
        match self.modrm_part() {
            Some(m) => fixed + m.len(),
            None => fixed,
        }
    }
}

/// How an instruction is encoded.
#[derive(Clone, Copy, Debug, PartialEq, Eq, Structural)]
pub struct InstLayout {
    /// Whether there is a REX byte.
    pub rex: bool,
    /// What follows.
    pub opc: OpcodeLayout,
}

impl InstLayout {
    /// The number of bytes.
    pub open spec fn size(self) -> int {
        if self.rex {
            1 + self.opc.size()
        } else {
            self.opc.size()
        }
    }

    /// The number of bytes.
    pub fn len(self) -> (r: u8)
        ensures
            r == self.size(),
    {
        let n = self.opc.len();
        if self.rex {
            1 + n
        } else {
            n
        }
    }
}

// ---------------------------------------------------------------------------------------------
// Immediates and displacements

/// Whether a number is the sign extension of its last eight bits.
pub open spec fn fits_i8(n: u32) -> bool {
    n < 0x80 || n >= 0xffff_ff80
}

/// Whether a number is the sign extension of its last 32 bits.
pub open spec fn fits_i32(n: u64) -> bool {
    n < 0x8000_0000 || n >= 0xffff_ffff_8000_0000
}

/// How a displacement is encoded.
pub open spec fn disp_of(n: u32) -> DispLayout {
    if n == 0 {
        DispLayout::S0
    } else if fits_i8(n) {
        DispLayout::S8
    } else {
        DispLayout::S32
    }
}

/// How the offset of an address is encoded. The place of a global or a constant is not known yet.
pub open spec fn disp_of_offset(off: Offset) -> DispLayout {
    match off {
        Offset::Real(n) => disp_of(n),
        _ => DispLayout::S32,
    }
}

fn is_i8(n: u32) -> (r: bool)
    ensures
        r == fits_i8(n),
{
    assert((n as i8 as u32 == n) == (n < 0x80 || n >= 0xffff_ff80)) by (bit_vector);
    #[verifier::truncate]
    let m = n as i8;
    #[verifier::truncate]
    let k = m as u32;
    k == n
}

fn is_i32(n: u64) -> (r: bool)
    ensures
        r == fits_i32(n),
{
    assert((n as i32 as u64 == n) == (n < 0x8000_0000 || n >= 0xffff_ffff_8000_0000))
        by (bit_vector);
    #[verifier::truncate]
    let m = n as i32;
    #[verifier::truncate]
    let k = m as u64;
    k == n
}

fn layout_u32(n: u32) -> (r: DispLayout)
    ensures
        r == disp_of(n),
{
    if n == 0 {
        DispLayout::S0
    } else if is_i8(n) {
        DispLayout::S8
    } else {
        DispLayout::S32
    }
}

fn layout_offset(off: &Offset) -> (r: DispLayout)
    requires
        *off !is Spill,
    ensures
        r == disp_of_offset(*off),
{
    match off {
        Offset::Real(n) => layout_u32(*n),
        _ => DispLayout::S32,
    }
}

// ---------------------------------------------------------------------------------------------
// Registers and addresses

impl PAMode {
    /// The register that the address is relative to.
    pub open spec fn base_reg(self) -> PReg {
        if self.off is Spill {
            PReg { hw: RSP }
        } else {
            self.base
        }
    }

    /// The register that the address is relative to.
    pub fn base(&self) -> (r: PReg)
        ensures
            r == self.base_reg(),
    {
        if let Offset::Spill(_, _) = self.off {
            preg(RSP)
        } else {
            self.base
        }
    }

    /// Whether the address is a physical one.
    pub open spec fn physical(self) -> bool {
        self.off !is Spill
    }

    /// Whether one of the registers needs a REX byte.
    pub open spec fn needs_rex(self) -> bool {
        ||| self.base != PReg::none() && self.base.large()
        ||| self.si matches Some(si) && si.index.large()
    }

    /// How the address is encoded. Without a base register, this takes a SIB byte and a 32 bit
    /// displacement. With a base register alone, it takes no SIB byte unless the last bits of the
    /// register say that there is one. With a SIB byte, RBP cannot go without a displacement.
    pub open spec fn modrm(self) -> ModRMLayout {
        if self.base_reg() == PReg::none() {
            ModRMLayout::Sib0
        } else if self.si is None && self.base_reg().low() != 4 {
            ModRMLayout::Disp(disp_of_offset(self.off))
        } else if self.base.hw == RBP && disp_of_offset(self.off) == DispLayout::S0 {
            ModRMLayout::SibReg(DispLayout::S8)
        } else {
            ModRMLayout::SibReg(disp_of_offset(self.off))
        }
    }
}

impl PRegMem {
    /// Whether the operand is in a register or at a physical address.
    pub open spec fn physical(self) -> bool {
        self matches RegMem::Mem(a) ==> a.physical()
    }

    /// Whether one of the registers needs a REX byte.
    pub open spec fn needs_rex(self) -> bool {
        match self {
            RegMem::Reg(r) => r.large(),
            RegMem::Mem(a) => a.needs_rex(),
        }
    }

    /// How the operand is encoded.
    pub open spec fn modrm(self) -> ModRMLayout {
        match self {
            RegMem::Reg(_) => ModRMLayout::Reg,
            RegMem::Mem(a) => a.modrm(),
        }
    }
}

impl PRegMemImm {
    /// Whether the operand is not at an address that is not physical.
    pub open spec fn physical(self) -> bool {
        self matches PRegMemImm::Mem(a) ==> a.physical()
    }

    /// Whether one of the registers needs a REX byte.
    pub open spec fn needs_rex(self) -> bool {
        match self {
            PRegMemImm::Reg(r) => r.large(),
            PRegMemImm::Mem(a) => a.needs_rex(),
            PRegMemImm::Imm(_) => false,
        }
    }

    /// How the operand is encoded, where it is not an immediate.
    pub open spec fn modrm(self) -> ModRMLayout {
        match self {
            PRegMemImm::Mem(a) => a.modrm(),
            _ => ModRMLayout::Reg,
        }
    }
}

fn layout_opc_reg(rex: &mut bool, rm: PReg) -> (r: ModRMLayout)
    ensures
        *final(rex) == (*old(rex) || rm.large()),
        r == ModRMLayout::Reg,
{
    if large_preg(rm) {
        *rex = true;
    }
    ModRMLayout::Reg
}

fn layout_opc_mem(rex: &mut bool, a: &PAMode) -> (r: ModRMLayout)
    requires
        a.physical(),
    ensures
        *final(rex) == (*old(rex) || a.needs_rex()),
        r == a.modrm(),
{
    if a.base.is_valid() {
        if large_preg(a.base) {
            *rex = true;
        }
    }
    if let Some(si) = a.si {
        if large_preg(si.index) {
            *rex = true;
        }
    }
    if !a.base().is_valid() {
        return ModRMLayout::Sib0;
    }
    if a.si.is_none() {
        let hw = a.base().hw;
        assert((hw & 7) == hw % 8) by (bit_vector);
        if hw & 7 != 4 {
            return ModRMLayout::Disp(layout_offset(&a.off));
        }
    }
    let layout = layout_offset(&a.off);
    if a.base.hw == RBP && layout == DispLayout::S0 {
        ModRMLayout::SibReg(DispLayout::S8)
    } else {
        ModRMLayout::SibReg(layout)
    }
}

fn layout_opc_rm(rex: &mut bool, rm: &PRegMem) -> (r: ModRMLayout)
    requires
        rm.physical(),
    ensures
        *final(rex) == (*old(rex) || rm.needs_rex()),
        r == rm.modrm(),
{
    match rm {
        RegMem::Reg(r) => layout_opc_reg(rex, *r),
        RegMem::Mem(a) => layout_opc_mem(rex, a),
    }
}

fn layout_opc_rmi(rex: &mut bool, rm: &PRegMemImm) -> (r: ModRMLayout)
    requires
        rm.physical(),
        *rm !is Imm,
    ensures
        *final(rex) == (*old(rex) || rm.needs_rex()),
        r == rm.modrm(),
{
    match rm {
        PRegMemImm::Reg(r) => layout_opc_reg(rex, *r),
        PRegMemImm::Mem(a) => layout_opc_mem(rex, a),
        PRegMemImm::Imm(_) => ModRMLayout::Reg,
    }
}

fn layout_reg(rex: &mut bool, r: PReg, rm: PReg) -> (m: ModRMLayout)
    ensures
        *final(rex) == (*old(rex) || r.large() || rm.large()),
        m == ModRMLayout::Reg,
{
    if large_preg(r) {
        *rex = true;
    }
    layout_opc_reg(rex, rm)
}

fn layout_mem(rex: &mut bool, r: PReg, a: &PAMode) -> (m: ModRMLayout)
    requires
        a.physical(),
    ensures
        *final(rex) == (*old(rex) || r.large() || a.needs_rex()),
        m == a.modrm(),
{
    if large_preg(r) {
        *rex = true;
    }
    layout_opc_mem(rex, a)
}

fn layout_rm(rex: &mut bool, r: PReg, rm: &PRegMem) -> (m: ModRMLayout)
    requires
        rm.physical(),
    ensures
        *final(rex) == (*old(rex) || r.large() || rm.needs_rex()),
        m == rm.modrm(),
{
    if large_preg(r) {
        *rex = true;
    }
    layout_opc_rm(rex, rm)
}

fn layout_rmi(rex: &mut bool, r: PReg, rm: &PRegMemImm) -> (m: ModRMLayout)
    requires
        rm.physical(),
        *rm !is Imm,
    ensures
        *final(rex) == (*old(rex) || r.large() || rm.needs_rex()),
        m == rm.modrm(),
{
    if large_preg(r) {
        *rex = true;
    }
    layout_opc_rmi(rex, rm)
}

// ---------------------------------------------------------------------------------------------
// Instructions

/// How an ALU operation is encoded. A small immediate takes one byte. A larger one takes four, and
/// with RAX there is a shorter form for that.
pub open spec fn binop_layout(sz: Size, dst: PReg, src: PRegMemImm) -> InstLayout {
    InstLayout {
        rex: sz == Size::S64 || dst.large() || src.needs_rex(),
        opc: match src {
            PRegMemImm::Imm(i) => if fits_i8(i) {
                OpcodeLayout::BinopImm8(ModRMLayout::Reg)
            } else if dst.hw == RAX {
                OpcodeLayout::BinopRAX
            } else {
                OpcodeLayout::BinopImm(ModRMLayout::Reg)
            },
            _ => OpcodeLayout::BinopReg(src.modrm()),
        },
    }
}

/// How a test is encoded. With RAX and an immediate there is a shorter form.
pub open spec fn test_layout(sz: Size, dst: PReg, src: PRegMemImm) -> InstLayout {
    InstLayout {
        rex: sz == Size::S64 || dst.large() || src.needs_rex(),
        opc: match src {
            PRegMemImm::Imm(_) => if dst.hw == RAX {
                if sz == Size::S8 {
                    OpcodeLayout::TestRAX8
                } else {
                    OpcodeLayout::TestRAX32
                }
            } else if sz == Size::S8 {
                OpcodeLayout::HiTest8(ModRMLayout::Reg)
            } else {
                OpcodeLayout::HiTest32(ModRMLayout::Reg)
            },
            _ => OpcodeLayout::Test(src.modrm()),
        },
    }
}

fn layout_binop_lo(sz: Size, dst: PReg, src: &PRegMemImm) -> (r: InstLayout)
    requires
        src.physical(),
    ensures
        r == binop_layout(sz, dst, *src),
{
    let mut rex = sz == Size::S64;
    let mut opc = match src {
        PRegMemImm::Imm(i) => if is_i8(*i) {
            OpcodeLayout::BinopImm8(layout_opc_reg(&mut rex, dst))
        } else {
            OpcodeLayout::BinopImm(layout_opc_reg(&mut rex, dst))
        },
        _ => OpcodeLayout::BinopReg(layout_rmi(&mut rex, dst, src)),
    };
    if dst.hw == RAX && matches!(src, PRegMemImm::Imm(_)) && OpcodeLayout::BinopRAX.len()
        <= opc.len() {
        opc = OpcodeLayout::BinopRAX;
    }
    InstLayout { rex, opc }
}

fn layout_test(sz: Size, dst: PReg, src: &PRegMemImm) -> (r: InstLayout)
    requires
        src.physical(),
    ensures
        r == test_layout(sz, dst, *src),
{
    let mut rex = sz == Size::S64;
    let opc = match src {
        PRegMemImm::Imm(_) => if dst.hw == RAX {
            if sz == Size::S8 {
                OpcodeLayout::TestRAX8
            } else {
                OpcodeLayout::TestRAX32
            }
        } else if sz == Size::S8 {
            OpcodeLayout::HiTest8(layout_opc_reg(&mut rex, dst))
        } else {
            OpcodeLayout::HiTest32(layout_opc_reg(&mut rex, dst))
        },
        _ => OpcodeLayout::Test(layout_rmi(&mut rex, dst, src)),
    };
    InstLayout { rex, opc }
}

impl PInst {
    /// Whether the addresses in the instruction are physical ones.
    pub open spec fn physical(self) -> bool {
        match self {
            PInst::Binop { src, .. } => src.physical(),
            PInst::DivRem { src, .. } => src.physical(),
            PInst::Mul { src, .. } => src.physical(),
            PInst::MovzxRmR { src, .. } => src.physical(),
            PInst::Load64 { src, .. } => src.physical(),
            PInst::Lea { addr, .. } => addr.physical(),
            PInst::MovsxRmR { src, .. } => src.physical(),
            PInst::Store { dst, .. } => dst.physical(),
            PInst::Cmp { src2, .. } => src2.physical(),
            PInst::CMov { src, .. } => src.physical(),
            PInst::Push64 { src } => src.physical(),
            _ => true,
        }
    }

    /// How the instruction is encoded.
    pub open spec fn layout(self) -> InstLayout {
        match self {
            PInst::Binop { sz, dst, src, .. } => binop_layout(sz, dst, src),
            PInst::Unop { sz, dst, .. } => InstLayout {
                rex: sz == Size::S64 || dst.large(),
                opc: OpcodeLayout::Hi(ModRMLayout::Reg),
            },
            PInst::DivRem { sz, src } => InstLayout {
                rex: sz == Size::S64 || src.needs_rex(),
                opc: OpcodeLayout::Hi(src.modrm()),
            },
            PInst::Mul { sz, src } => InstLayout {
                rex: sz == Size::S64 || src.needs_rex(),
                opc: OpcodeLayout::Hi(src.modrm()),
            },
            PInst::Imm { sz, dst, src } => InstLayout {
                rex: sz == Size::S64 || dst.large(),
                // Zero is made by `xor dst, dst`.
                opc: if src == 0 {
                    OpcodeLayout::BinopReg(ModRMLayout::Reg)
                } else if fits_i32(src) {
                    OpcodeLayout::Mov32
                } else {
                    OpcodeLayout::Mov64
                },
            },
            PInst::MovRR { sz, dst, src } => InstLayout {
                rex: sz == Size::S64 || dst.large() || src.large(),
                opc: OpcodeLayout::MovReg(ModRMLayout::Reg),
            },
            PInst::MovzxRmR { ext_mode, dst, src } => if ext_mode == ExtMode::LQ {
                InstLayout {
                    rex: dst.large() || src.needs_rex(),
                    opc: OpcodeLayout::MovReg(src.modrm()),
                }
            } else {
                InstLayout {
                    rex: ext_mode.to_size() == Size::S64 || dst.large() || src.needs_rex(),
                    opc: OpcodeLayout::TwoMovX(src.modrm()),
                }
            },
            PInst::MovsxRmR { ext_mode, dst, src } => if ext_mode == ExtMode::LQ {
                InstLayout { rex: true, opc: OpcodeLayout::MovSX(src.modrm()) }
            } else {
                InstLayout {
                    rex: ext_mode.to_size() == Size::S64 || dst.large() || src.needs_rex(),
                    opc: OpcodeLayout::TwoMovX(src.modrm()),
                }
            },
            PInst::Load64 { dst, src } => InstLayout {
                rex: true,
                opc: OpcodeLayout::MovReg(src.modrm()),
            },
            PInst::Lea { dst, addr } => InstLayout {
                rex: true,
                opc: OpcodeLayout::Lea(addr.modrm()),
            },
            PInst::Store { sz, dst, src } => InstLayout {
                rex: sz == Size::S64 || src.large() || dst.needs_rex(),
                opc: OpcodeLayout::MovReg(dst.modrm()),
            },
            PInst::Shift { sz, dst, num_bits, .. } => InstLayout {
                rex: sz == Size::S64 || dst.large(),
                opc: match num_bits {
                    None => OpcodeLayout::BinopHiReg(ModRMLayout::Reg),
                    Some(_) => OpcodeLayout::BinopHi(ModRMLayout::Reg),
                },
            },
            PInst::Cmp { sz, op, src1, src2 } => match op {
                Cmp::Cmp => binop_layout(sz, src1, src2),
                Cmp::Test => test_layout(sz, src1, src2),
            },
            PInst::SetCC { dst, .. } => InstLayout {
                rex: dst.large(),
                opc: OpcodeLayout::TwoSetCC(ModRMLayout::Reg),
            },
            PInst::CMov { sz, dst, src, .. } => InstLayout {
                rex: sz == Size::S64 || dst.large() || src.needs_rex(),
                opc: OpcodeLayout::TwoCMov(src.modrm()),
            },
            PInst::Push64 { src } => InstLayout {
                rex: src.needs_rex(),
                opc: match src {
                    PRegMemImm::Imm(i) => if fits_i8(i) {
                        OpcodeLayout::PushImm8
                    } else {
                        OpcodeLayout::PushImm32
                    },
                    PRegMemImm::Reg(_) => OpcodeLayout::PushReg,
                    PRegMemImm::Mem(a) => OpcodeLayout::Hi(a.modrm()),
                },
            },
            PInst::Pop64 { dst } => InstLayout { rex: dst.large(), opc: OpcodeLayout::PopReg },
            PInst::CallKnown { .. } => InstLayout { rex: false, opc: OpcodeLayout::Call },
            PInst::Ret => InstLayout { rex: false, opc: OpcodeLayout::Ret },
            PInst::JmpKnown { short, .. } => InstLayout {
                rex: false,
                opc: if short {
                    OpcodeLayout::Jump8
                } else {
                    OpcodeLayout::Jump32
                },
            },
            PInst::JmpCond { short, .. } => InstLayout {
                rex: false,
                opc: if short {
                    OpcodeLayout::Jcc8
                } else {
                    OpcodeLayout::TwoJcc
                },
            },
            PInst::TrapIf { .. } => InstLayout { rex: false, opc: OpcodeLayout::TrapIf },
            PInst::Ud2 => InstLayout { rex: false, opc: OpcodeLayout::Ud2 },
        }
    }

    /// The length of the encoding in bytes.
    pub fn len(&self) -> (r: u8)
        requires
            self.physical(),
        ensures
            r == self.layout().size(),
    {
        self.layout_inst().len()
    }

    /// How the instruction is encoded.
    pub fn layout_inst(&self) -> (r: InstLayout)
        requires
            self.physical(),
        ensures
            r == self.layout(),
    {
        match self {
            PInst::Binop { sz, dst, src, .. } => layout_binop_lo(*sz, *dst, src),
            PInst::Unop { sz, dst, .. } => {
                let mut rex = *sz == Size::S64;
                let opc = OpcodeLayout::Hi(layout_opc_reg(&mut rex, *dst));
                InstLayout { rex, opc }
            },
            PInst::DivRem { sz, src } | PInst::Mul { sz, src } => {
                let mut rex = *sz == Size::S64;
                let opc = OpcodeLayout::Hi(layout_opc_rm(&mut rex, src));
                InstLayout { rex, opc }
            },
            PInst::Imm { sz, dst, src } => {
                let opc = if *src == 0 {
                    OpcodeLayout::BinopReg(ModRMLayout::Reg)
                } else if is_i32(*src) {
                    OpcodeLayout::Mov32
                } else {
                    OpcodeLayout::Mov64
                };
                InstLayout { rex: *sz == Size::S64 || large_preg(*dst), opc }
            },
            PInst::MovRR { sz, dst, src } => {
                let mut rex = *sz == Size::S64;
                let opc = OpcodeLayout::MovReg(layout_reg(&mut rex, *dst, *src));
                InstLayout { rex, opc }
            },
            PInst::MovzxRmR { ext_mode: ExtMode::LQ, dst, src } => {
                let mut rex = false;
                let opc = OpcodeLayout::MovReg(layout_rm(&mut rex, *dst, src));
                InstLayout { rex, opc }
            },
            PInst::MovsxRmR { ext_mode: ExtMode::LQ, dst, src } => {
                let mut rex = true;
                let opc = OpcodeLayout::MovSX(layout_rm(&mut rex, *dst, src));
                InstLayout { rex, opc }
            },
            PInst::MovzxRmR { ext_mode, dst, src } | PInst::MovsxRmR { ext_mode, dst, src } => {
                let mut rex = ext_mode.dst() == Size::S64;
                let opc = OpcodeLayout::TwoMovX(layout_rm(&mut rex, *dst, src));
                InstLayout { rex, opc }
            },
            PInst::Load64 { dst, src } => {
                let mut rex = true;
                let opc = OpcodeLayout::MovReg(layout_mem(&mut rex, *dst, src));
                InstLayout { rex, opc }
            },
            PInst::Lea { dst, addr } => {
                let mut rex = true;
                let opc = OpcodeLayout::Lea(layout_mem(&mut rex, *dst, addr));
                InstLayout { rex, opc }
            },
            PInst::Store { sz, dst, src } => {
                let mut rex = *sz == Size::S64;
                let opc = OpcodeLayout::MovReg(layout_mem(&mut rex, *src, dst));
                InstLayout { rex, opc }
            },
            PInst::Shift { sz, dst, num_bits: None, .. } => {
                let mut rex = *sz == Size::S64;
                let opc = OpcodeLayout::BinopHiReg(layout_opc_reg(&mut rex, *dst));
                InstLayout { rex, opc }
            },
            PInst::Shift { sz, dst, num_bits: Some(_), .. } => {
                let mut rex = *sz == Size::S64;
                let opc = OpcodeLayout::BinopHi(layout_opc_reg(&mut rex, *dst));
                InstLayout { rex, opc }
            },
            PInst::Cmp { sz, op: Cmp::Cmp, src1, src2 } => layout_binop_lo(*sz, *src1, src2),
            PInst::Cmp { sz, op: Cmp::Test, src1, src2 } => layout_test(*sz, *src1, src2),
            PInst::SetCC { dst, .. } => {
                let mut rex = false;
                let opc = OpcodeLayout::TwoSetCC(layout_opc_reg(&mut rex, *dst));
                InstLayout { rex, opc }
            },
            PInst::CMov { sz, dst, src, .. } => {
                let mut rex = *sz == Size::S64;
                let opc = OpcodeLayout::TwoCMov(layout_rm(&mut rex, *dst, src));
                InstLayout { rex, opc }
            },
            PInst::Push64 { src } => {
                let mut rex = false;
                let opc = match src {
                    PRegMemImm::Imm(i) => if is_i8(*i) {
                        OpcodeLayout::PushImm8
                    } else {
                        OpcodeLayout::PushImm32
                    },
                    PRegMemImm::Reg(r) => {
                        rex = large_preg(*r);
                        OpcodeLayout::PushReg
                    },
                    PRegMemImm::Mem(a) => OpcodeLayout::Hi(layout_opc_mem(&mut rex, a)),
                };
                InstLayout { rex, opc }
            },
            PInst::Pop64 { dst } => InstLayout { rex: large_preg(*dst), opc: OpcodeLayout::PopReg },
            PInst::CallKnown { .. } => InstLayout { rex: false, opc: OpcodeLayout::Call },
            PInst::Ret => InstLayout { rex: false, opc: OpcodeLayout::Ret },
            PInst::JmpKnown { short: true, .. } => InstLayout {
                rex: false,
                opc: OpcodeLayout::Jump8,
            },
            PInst::JmpKnown { short: false, .. } => InstLayout {
                rex: false,
                opc: OpcodeLayout::Jump32,
            },
            PInst::JmpCond { short: true, .. } => InstLayout {
                rex: false,
                opc: OpcodeLayout::Jcc8,
            },
            PInst::JmpCond { short: false, .. } => InstLayout {
                rex: false,
                opc: OpcodeLayout::TwoJcc,
            },
            PInst::TrapIf { .. } => InstLayout { rex: false, opc: OpcodeLayout::TrapIf },
            PInst::Ud2 => InstLayout { rex: false, opc: OpcodeLayout::Ud2 },
        }
    }

    /// The block that a jump goes to.
    pub open spec fn target(self) -> Option<BlockId> {
        match self {
            PInst::JmpKnown { dst, .. } => Some(dst),
            PInst::JmpCond { dst, .. } => Some(dst),
            _ => None,
        }
    }

    /// The instruction with a short jump, if it is a jump.
    pub open spec fn shortened(self) -> PInst {
        match self {
            PInst::JmpKnown { dst, .. } => PInst::JmpKnown { dst, short: true },
            PInst::JmpCond { cc, dst, .. } => PInst::JmpCond { cc, dst, short: true },
            _ => self,
        }
    }

    /// The block that this jumps to, if it is a jump.
    pub fn is_jump(&self) -> (r: Option<BlockId>)
        ensures
            r == self.target(),
    {
        match self {
            PInst::JmpKnown { dst, .. } | PInst::JmpCond { dst, .. } => Some(*dst),
            _ => None,
        }
    }

    /// Makes a jump a short one.
    pub fn shorten(&mut self)
        ensures
            *final(self) == old(self).shortened(),
    {
        match self {
            PInst::JmpKnown { short, .. } => {
                *short = true;
            },
            PInst::JmpCond { short, .. } => {
                *short = true;
            },
            _ => {},
        }
    }

    /// The least and the greatest length that the encoding can have, depending on whether a jump
    /// turns out to be a short one.
    pub fn len_bound(&self) -> (r: (u8, u8))
        requires
            self.physical(),
        ensures
            r.0 == self.shortened().layout().size(),
            r.1 == self.layout().size(),
    {
        match self {
            PInst::JmpKnown { dst, short: false } => (
                (PInst::JmpKnown { dst: *dst, short: true }).len(),
                (PInst::JmpKnown { dst: *dst, short: false }).len(),
            ),
            PInst::JmpCond { cc, dst, short: false } => (
                (PInst::JmpCond { cc: *cc, dst: *dst, short: true }).len(),
                (PInst::JmpCond { cc: *cc, dst: *dst, short: false }).len(),
            ),
            _ => {
                let len = self.len();
                (len, len)
            },
        }
    }
}

} // verus!
