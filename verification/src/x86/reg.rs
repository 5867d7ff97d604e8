//! Registers, and the way in which instructions mention them.

use regalloc2::{Operand as ROperand, PReg as RPReg, RegClass, VReg as RVReg};
use regalloc2::{OperandConstraint as RConstraint, OperandKind as RKind, OperandPos as RPos};
use vstd::prelude::*;

verus! {

/// An integer register of the machine, known by the number that encodes it.
#[derive(Clone, Copy, PartialEq, Eq, Structural)]
pub struct PReg {
    /// The number that encodes the register.
    pub hw: u8,
}

/// A virtual integer register, which the register allocator assigns a place to.
#[derive(Clone, Copy, PartialEq, Eq, Structural)]
pub struct VReg {
    /// The number of the register.
    pub index: u32,
}

/// The largest number of a machine register, which stands for none.
pub const PREG_MAX: u8 = 63;

/// The largest number of a virtual register, which stands for none.
pub const VREG_MAX: u32 = 2097151;

pub const RAX: u8 = 0;

pub const RCX: u8 = 1;

pub const RDX: u8 = 2;

pub const RBX: u8 = 3;

pub const RSP: u8 = 4;

pub const RBP: u8 = 5;

pub const RSI: u8 = 6;

pub const RDI: u8 = 7;

pub const R8: u8 = 8;

pub const R9: u8 = 9;

pub const R10: u8 = 10;

pub const R11: u8 = 11;

pub const R12: u8 = 12;

pub const R13: u8 = 13;

pub const R14: u8 = 14;

pub const R15: u8 = 15;

/// The register that is kept free to resolve cycles of moves.
pub const SCRATCH: u8 = R11;

// ---------------------------------------------------------------------------------------------
// The register allocator's own numbering

/// Calls `regalloc2::PReg::new` for an integer register. The register that it makes has the number
/// that it is given. It panics where that does not fit in six bits.
#[verifier::external_body]
pub(crate) fn preg(i: u8) -> (r: PReg)
    requires
        i <= PREG_MAX,
    ensures
        r.hw == i,
{
    PReg { hw: RPReg::new(i as usize, RegClass::Int).hw_enc() as u8 }
}

/// Calls `regalloc2::PReg::invalid`, which gives the integer register with the largest number that
/// fits in six bits.
#[verifier::external_body]
fn invalid_preg() -> (r: PReg)
    ensures
        r.hw == PREG_MAX,
{
    PReg { hw: RPReg::invalid().hw_enc() as u8 }
}

/// Calls `regalloc2::VReg::new` for an integer register. The register that it makes has the number
/// that it is given. It panics where that does not fit in 21 bits.
#[verifier::external_body]
pub(crate) fn vreg(i: usize) -> (r: VReg)
    requires
        i <= VREG_MAX,
    ensures
        r.index == i,
{
    VReg { index: RVReg::new(i, RegClass::Int).vreg() as u32 }
}

/// Calls `regalloc2::VReg::invalid`, which gives the integer register with the largest number that
/// fits in 21 bits.
#[verifier::external_body]
fn invalid_vreg() -> (r: VReg)
    ensures
        r.index == VREG_MAX,
{
    VReg { index: RVReg::invalid().vreg() as u32 }
}

/// A kind of register, one of which stands for none.
pub trait IsReg: Sized {
    /// The register that stands for none.
    spec fn none() -> Self;

    /// The register that stands for none.
    fn invalid() -> (r: Self)
        ensures
            r == Self::none(),
    ;

    /// Whether this is a register.
    fn is_valid(&self) -> (r: bool)
        ensures
            r == (*self != Self::none()),
    ;
}

impl IsReg for VReg {
    open spec fn none() -> VReg {
        VReg { index: VREG_MAX }
    }

    fn invalid() -> (r: VReg) {
        invalid_vreg()
    }

    fn is_valid(&self) -> (r: bool) {
        *self != invalid_vreg()
    }
}

impl IsReg for PReg {
    open spec fn none() -> PReg {
        PReg { hw: PREG_MAX }
    }

    fn invalid() -> (r: PReg) {
        invalid_preg()
    }

    fn is_valid(&self) -> (r: bool) {
        *self != invalid_preg()
    }
}

impl PReg {
    /// Whether the number is one that a machine register can have.
    pub open spec fn in_range(self) -> bool {
        self.hw <= PREG_MAX
    }

    /// The fourth bit of the number.
    pub open spec fn large(self) -> bool {
        (self.hw / 8) % 2 == 1
    }

    /// The last three bits of the number.
    pub open spec fn low(self) -> u8 {
        self.hw % 8
    }
}

/// If true, then a REX byte is needed to encode this register.
pub fn large_preg(r: PReg) -> (b: bool)
    ensures
        b == r.large(),
{
    let hw = r.hw;
    assert((hw & 8 != 0) == ((hw / 8) % 2 == 1)) by (bit_vector);
    hw & 8 != 0
}

// ---------------------------------------------------------------------------------------------
// Sets of registers

/// A set of machine registers with numbers below 16.
#[derive(Clone, Copy, Debug)]
pub struct PRegSet(u16);

impl View for PRegSet {
    type V = Set<PReg>;

    closed spec fn view(&self) -> Set<PReg> {
        let bits = self.0;
        Set::new(|r: PReg| r.hw < 16 && bits & (1u16 << (r.hw as u16)) != 0)
    }
}

impl Default for PRegSet {
    fn default() -> (r: PRegSet)
        ensures
            r@ == Set::<PReg>::empty(),
    {
        let r = PRegSet(0);
        assert forall|p: PReg| !(#[trigger] r@.contains(p)) by {
            let i = p.hw as u16;
            assert(0u16 & (1u16 << i) == 0) by (bit_vector);
        }
        assert(r@ =~= Set::empty());
        r
    }
}

impl PRegSet {
    /// Adds a register.
    pub fn insert(&mut self, r: PReg)
        requires
            r.hw < 16,
        ensures
            final(self)@ == old(self)@.insert(r),
    {
        let ghost before = *self;
        let bits = self.0;
        let i = r.hw as u16;
        self.0 = bits | (1u16 << i);
        assert forall|p: PReg| #[trigger] self@.contains(p) == before@.insert(r).contains(p) by {
            let j = p.hw as u16;
            if p.hw < 16 {
                assert(((bits | (1u16 << i)) & (1u16 << j) != 0) == (bits & (1u16 << j) != 0 || i
                    == j)) by (bit_vector)
                    requires
                        i < 16,
                        j < 16,
                ;
            }
        }
        assert(self@ =~= before@.insert(r));
    }

    /// Whether the register is in the set.
    pub fn get(self, r: PReg) -> (b: bool)
        requires
            r.hw < 16,
        ensures
            b == self@.contains(r),
    {
        self.0 & (1u16 << (r.hw as u16)) != 0
    }
}

// ---------------------------------------------------------------------------------------------
// The calling convention

/// The registers with the given numbers.
pub open spec fn pregs(ns: Seq<u8>) -> Seq<PReg> {
    ns.map_values(|n: u8| PReg { hw: n })
}

/// The numbers of the registers that the first arguments of a call are passed in.
pub open spec fn arg_reg_numbers() -> Seq<u8> {
    seq![RDI, RSI, RDX, RCX, R8, R9]
}

/// The numbers of the registers that a call may change.
pub open spec fn caller_saved_numbers() -> Seq<u8> {
    seq![RAX, RDI, RSI, RDX, RCX, R8, R9, R10]
}

/// The numbers of the registers that a call keeps.
pub open spec fn callee_saved_numbers() -> Seq<u8> {
    seq![RBX, RBP, R12, R13, R14, R15]
}

fn pregs_of(ns: &[u8]) -> (r: Vec<PReg>)
    requires
        forall|i: int| 0 <= i < ns@.len() ==> ns@[i] <= PREG_MAX,
    ensures
        r@ == pregs(ns@),
{
    let mut v: Vec<PReg> = Vec::new();
    let mut i: usize = 0;
    while i < ns.len()
        invariant
            i <= ns@.len(),
            forall|i: int| 0 <= i < ns@.len() ==> ns@[i] <= PREG_MAX,
            v@ == pregs(ns@).take(i as int),
        decreases ns@.len() - i,
    {
        v.push(preg(ns[i]));
        i = i + 1;
        assert(v@ =~= pregs(ns@).take(i as int));
    }
    assert(pregs(ns@).take(ns@.len() as int) =~= pregs(ns@));
    v
}

/// The registers that the first arguments of a call are passed in.
pub fn arg_regs() -> (r: Vec<PReg>)
    ensures
        r@ == pregs(arg_reg_numbers()),
{
    let ns: [u8; 6] = [RDI, RSI, RDX, RCX, R8, R9];
    assert(ns@ =~= arg_reg_numbers());
    pregs_of(&ns)
}

/// The registers that a call may change.
pub fn caller_saved() -> (r: Vec<PReg>)
    ensures
        r@ == pregs(caller_saved_numbers()),
{
    let ns: [u8; 8] = [RAX, RDI, RSI, RDX, RCX, R8, R9, R10];
    assert(ns@ =~= caller_saved_numbers());
    pregs_of(&ns)
}

/// The registers that a call keeps.
pub fn callee_saved() -> (r: Vec<PReg>)
    ensures
        r@ == pregs(callee_saved_numbers()),
{
    let ns: [u8; 6] = [RBX, RBP, R12, R13, R14, R15];
    assert(ns@ =~= callee_saved_numbers());
    pregs_of(&ns)
}

/// The registers that the register allocator works with.
#[derive(Debug)]
pub struct MachineEnv {
    /// The registers that are used first.
    pub preferred: Vec<PReg>,
    /// The registers that are used when no preferred one is left.
    pub non_preferred: Vec<PReg>,
    /// The register that is kept free.
    pub scratch: PReg,
    /// All of these.
    pub regs: Vec<PReg>,
}

/// The registers that the register allocator works with.
pub fn machine_env() -> (r: MachineEnv)
    ensures
        r.preferred@ == pregs(caller_saved_numbers()),
        r.non_preferred@ == pregs(callee_saved_numbers()),
        r.scratch == (PReg { hw: SCRATCH }),
        r.regs@ == r.preferred@ + r.non_preferred@ + seq![r.scratch],
{
    let preferred = caller_saved();
    let non_preferred = callee_saved();
    let scratch = preg(SCRATCH);
    let mut regs = caller_saved();
    let mut more = callee_saved();
    regs.append(&mut more);
    regs.push(scratch);
    assert(regs@ =~= preferred@ + non_preferred@ + seq![scratch]);
    MachineEnv { preferred, non_preferred, scratch, regs }
}

// ---------------------------------------------------------------------------------------------
// Operands

/// Where the value of an operand must be.
#[derive(Clone, Copy, Debug, PartialEq, Eq, Structural)]
pub enum OperandConstraint {
    /// Anywhere.
    Any,
    /// In a register.
    Reg,
    /// On the stack.
    Stack,
    /// In the given register.
    FixedReg(PReg),
    /// In the register of the operand with the given place in the list of operands.
    Reuse(usize),
}

/// Whether an operand is read or written.
#[derive(Clone, Copy, Debug, PartialEq, Eq, Structural)]
pub enum OperandKind {
    /// It is written.
    Def,
    /// It is read and then written.
    Mod,
    /// It is read.
    Use,
}

/// When an operand is read or written.
#[derive(Clone, Copy, Debug, PartialEq, Eq, Structural)]
pub enum OperandPos {
    /// Before the instruction does its work.
    Early,
    /// After it.
    Late,
}

/// A mention of a virtual register in an instruction.
#[derive(Clone, Copy, Debug, PartialEq, Eq, Structural)]
pub struct Operand {
    /// The register.
    pub vreg: VReg,
    /// Where its value must be.
    pub constraint: OperandConstraint,
    /// Whether it is read or written.
    pub kind: OperandKind,
    /// When.
    pub pos: OperandPos,
}

impl VReg {
    /// Whether the number is one that a virtual register can have.
    pub open spec fn in_range(self) -> bool {
        self.index <= VREG_MAX
    }

    /// This register, read from any register.
    pub open spec fn used(self) -> Operand {
        Operand {
            vreg: self,
            constraint: OperandConstraint::Reg,
            kind: OperandKind::Use,
            pos: OperandPos::Early,
        }
    }

    /// This register, written to any register.
    pub open spec fn defined(self) -> Operand {
        Operand {
            vreg: self,
            constraint: OperandConstraint::Reg,
            kind: OperandKind::Def,
            pos: OperandPos::Late,
        }
    }

    /// This register, written to the register of the operand number `i`.
    pub open spec fn redefined(self, i: usize) -> Operand {
        Operand {
            vreg: self,
            constraint: OperandConstraint::Reuse(i),
            kind: OperandKind::Def,
            pos: OperandPos::Late,
        }
    }

    /// This register, read from the machine register number `p`.
    pub open spec fn used_in(self, p: PReg) -> Operand {
        Operand {
            vreg: self,
            constraint: OperandConstraint::FixedReg(p),
            kind: OperandKind::Use,
            pos: OperandPos::Early,
        }
    }

    /// This register, written to the machine register number `p`.
    pub open spec fn defined_in(self, p: PReg) -> Operand {
        Operand {
            vreg: self,
            constraint: OperandConstraint::FixedReg(p),
            kind: OperandKind::Def,
            pos: OperandPos::Late,
        }
    }
}

/// Calls `regalloc2::Operand::reg_use`: the register is read early, from any register.
#[verifier::external_body]
pub(crate) fn reg_use(v: VReg) -> (r: Operand)
    requires
        v.in_range(),
    ensures
        r == v.used(),
{
    let o = ROperand::reg_use(RVReg::new(v.index as usize, RegClass::Int));
    let constraint = match o.constraint() {
        RConstraint::Any => OperandConstraint::Any,
        RConstraint::Reg => OperandConstraint::Reg,
        RConstraint::Stack => OperandConstraint::Stack,
        RConstraint::FixedReg(p) => OperandConstraint::FixedReg(PReg { hw: p.hw_enc() as u8 }),
        RConstraint::Reuse(i) => OperandConstraint::Reuse(i),
    };
    let kind = match o.kind() {
        RKind::Def => OperandKind::Def,
        RKind::Mod => OperandKind::Mod,
        RKind::Use => OperandKind::Use,
    };
    let pos = if o.pos() == RPos::Early { OperandPos::Early } else { OperandPos::Late };
    Operand { vreg: VReg { index: o.vreg().vreg() as u32 }, constraint, kind, pos }
}

/// Calls `regalloc2::Operand::reg_def`: the register is written late, to any register.
#[verifier::external_body]
pub(crate) fn reg_def(v: VReg) -> (r: Operand)
    requires
        v.in_range(),
    ensures
        r == v.defined(),
{
    let o = ROperand::reg_def(RVReg::new(v.index as usize, RegClass::Int));
    let constraint = match o.constraint() {
        RConstraint::Any => OperandConstraint::Any,
        RConstraint::Reg => OperandConstraint::Reg,
        RConstraint::Stack => OperandConstraint::Stack,
        RConstraint::FixedReg(p) => OperandConstraint::FixedReg(PReg { hw: p.hw_enc() as u8 }),
        RConstraint::Reuse(i) => OperandConstraint::Reuse(i),
    };
    let kind = match o.kind() {
        RKind::Def => OperandKind::Def,
        RKind::Mod => OperandKind::Mod,
        RKind::Use => OperandKind::Use,
    };
    let pos = if o.pos() == RPos::Early { OperandPos::Early } else { OperandPos::Late };
    Operand { vreg: VReg { index: o.vreg().vreg() as u32 }, constraint, kind, pos }
}

/// Calls `regalloc2::Operand::reg_reuse_def`: the register is written late, to the register of the
/// operand number `i`. The number is packed into five bits.
#[verifier::external_body]
pub(crate) fn reg_reuse_def(v: VReg, i: usize) -> (r: Operand)
    requires
        v.in_range(),
        i <= 31,
    ensures
        r == v.redefined(i),
{
    let o = ROperand::reg_reuse_def(RVReg::new(v.index as usize, RegClass::Int), i);
    let constraint = match o.constraint() {
        RConstraint::Any => OperandConstraint::Any,
        RConstraint::Reg => OperandConstraint::Reg,
        RConstraint::Stack => OperandConstraint::Stack,
        RConstraint::FixedReg(p) => OperandConstraint::FixedReg(PReg { hw: p.hw_enc() as u8 }),
        RConstraint::Reuse(i) => OperandConstraint::Reuse(i),
    };
    let kind = match o.kind() {
        RKind::Def => OperandKind::Def,
        RKind::Mod => OperandKind::Mod,
        RKind::Use => OperandKind::Use,
    };
    let pos = if o.pos() == RPos::Early { OperandPos::Early } else { OperandPos::Late };
    Operand { vreg: VReg { index: o.vreg().vreg() as u32 }, constraint, kind, pos }
}

/// Calls `regalloc2::Operand::reg_fixed_use`: the register is read early, from the machine register
/// `p`.
#[verifier::external_body]
pub(crate) fn reg_fixed_use(v: VReg, p: PReg) -> (r: Operand)
    requires
        v.in_range(),
        p.in_range(),
    ensures
        r == v.used_in(p),
{
    let o = ROperand::reg_fixed_use(RVReg::new(v.index as usize, RegClass::Int), RPReg::new(p.hw as usize, RegClass::Int));
    let constraint = match o.constraint() {
        RConstraint::Any => OperandConstraint::Any,
        RConstraint::Reg => OperandConstraint::Reg,
        RConstraint::Stack => OperandConstraint::Stack,
        RConstraint::FixedReg(p) => OperandConstraint::FixedReg(PReg { hw: p.hw_enc() as u8 }),
        RConstraint::Reuse(i) => OperandConstraint::Reuse(i)
    };
    let kind = match o.kind() {
        RKind::Def => OperandKind::Def,
        RKind::Mod => OperandKind::Mod,
        RKind::Use => OperandKind::Use
    };
    let pos = if o.pos() == RPos::Early { OperandPos::Early } else { OperandPos::Late };
    Operand { vreg: VReg { index: o.vreg().vreg() as u32 }, constraint, kind, pos }
}

/// Calls `regalloc2::Operand::reg_fixed_def`: the register is written late, to the machine register
/// `p`.
#[verifier::external_body]
pub(crate) fn reg_fixed_def(v: VReg, p: PReg) -> (r: Operand)
    requires
        v.in_range(),
        p.in_range(),
    ensures
        r == v.defined_in(p),
{
    let o = ROperand::reg_fixed_def(RVReg::new(v.index as usize, RegClass::Int), RPReg::new(p.hw as usize, RegClass::Int));
    let constraint = match o.constraint() {
        RConstraint::Any => OperandConstraint::Any,
        RConstraint::Reg => OperandConstraint::Reg,
        RConstraint::Stack => OperandConstraint::Stack,
        RConstraint::FixedReg(p) => OperandConstraint::FixedReg(PReg { hw: p.hw_enc() as u8 }),
        RConstraint::Reuse(i) => OperandConstraint::Reuse(i)
    };
    let kind = match o.kind() {
        RKind::Def => OperandKind::Def,
        RKind::Mod => OperandKind::Mod,
        RKind::Use => OperandKind::Use
    };
    let pos = if o.pos() == RPos::Early { OperandPos::Early } else { OperandPos::Late };
    Operand { vreg: VReg { index: o.vreg().vreg() as u32 }, constraint, kind, pos }
}

} // verus!
