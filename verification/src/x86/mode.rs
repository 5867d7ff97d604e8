//! Addresses, and the operands that can be in memory.

use super::reg::{reg_use, IsReg, Operand, VReg};
use std::ops::Add;
use vstd::prelude::*;
use vstd::std_specs::convert::{FromSpecImpl, TryFromSpecImpl};
use vstd::std_specs::ops::{AddSpec, AddSpecImpl};

verus! {

/// A spill slot on the stack.
#[derive(Clone, Copy, PartialEq, Eq, Structural)]
pub struct SpillId(pub u32);

/// A global variable.
#[derive(Clone, Copy, PartialEq, Eq, Structural)]
pub struct GlobalId(pub u32);

/// A named constant.
#[derive(Clone, Copy, PartialEq, Eq, Structural)]
pub struct ConstId(pub u32);

/// A shift amount, which can be used as an addend in an addressing mode.
#[derive(Clone, Copy, Debug, PartialEq, Eq, Structural)]
pub struct ShiftIndex<Reg = VReg> {
    /// The register.
    pub index: Reg,
    /// By how many bits it is shifted: 0 to 3 only.
    pub shift: u8,
}

/// What a shift multiplies by.
pub open spec fn factor(shift: u8) -> int {
    if shift == 0 {
        1
    } else if shift == 1 {
        2
    } else if shift == 2 {
        4
    } else {
        8
    }
}

/// A base offset for an addressing mode.
#[derive(Clone, Copy, PartialEq, Eq, Structural)]
pub enum Offset<N = u32> {
    /// A real offset, relative to zero.
    Real(N),
    /// An offset relative to the given spill slot. `base` must be 0 in this case because it is
    /// pinned to `RSP`.
    Spill(SpillId, N),
    /// An offset into the given global (in the .data / .bss section).
    Global(GlobalId, N),
    /// An offset into the given constant (in the .rodata section).
    Const(ConstId, N),
}

impl<N> Offset<N> {
    /// The number that is added.
    pub open spec fn amount(self) -> N {
        match self {
            Offset::Real(n) => n,
            Offset::Spill(_, n) => n,
            Offset::Global(_, n) => n,
            Offset::Const(_, n) => n,
        }
    }

    /// The same place with another number added.
    pub open spec fn with_amount<M>(self, n: M) -> Offset<M> {
        match self {
            Offset::Real(_) => Offset::Real(n),
            Offset::Spill(s, _) => Offset::Spill(s, n),
            Offset::Global(g, _) => Offset::Global(g, n),
            Offset::Const(c, _) => Offset::Const(c, n),
        }
    }
}

impl Offset {
    /// No offset.
    pub fn zero() -> (r: Offset)
        ensures
            r == Offset::Real(0u32),
    {
        Offset::Real(0)
    }
}

impl Offset<u64> {
    /// No offset.
    pub fn zero64() -> (r: Offset<u64>)
        ensures
            r == Offset::Real(0u64),
    {
        Offset::Real(0)
    }
}

impl<N> From<N> for Offset<N> {
    fn from(n: N) -> (r: Offset<N>) {
        Offset::Real(n)
    }
}

impl<N> FromSpecImpl<N> for Offset<N> {
    open spec fn obeys_from_spec() -> bool {
        true
    }

    open spec fn from_spec(n: N) -> Offset<N> {
        Offset::Real(n)
    }
}

impl From<i32> for Offset {
    fn from(n: i32) -> (r: Offset) {
        assert(n as u32 == (if n >= 0 {
            n as int
        } else {
            n + 0x1_0000_0000
        })) by (bit_vector);
        Offset::Real(n as u32)
    }
}

impl FromSpecImpl<i32> for Offset {
    open spec fn obeys_from_spec() -> bool {
        true
    }

    /// A negative number is taken modulo 2^32.
    open spec fn from_spec(n: i32) -> Offset {
        Offset::Real(
            if n >= 0 {
                n as u32
            } else {
                (n + 0x1_0000_0000) as u32
            },
        )
    }
}

impl From<Offset> for Offset<u64> {
    fn from(imm: Offset) -> (r: Offset<u64>) {
        match imm {
            Offset::Real(i) => Offset::Real(i.into()),
            Offset::Spill(s, i) => Offset::Spill(s, i.into()),
            Offset::Global(g, i) => Offset::Global(g, i.into()),
            Offset::Const(c, i) => Offset::Const(c, i.into()),
        }
    }
}

impl FromSpecImpl<Offset> for Offset<u64> {
    open spec fn obeys_from_spec() -> bool {
        true
    }

    open spec fn from_spec(imm: Offset) -> Offset<u64> {
        imm.with_amount(imm.amount() as u64)
    }
}

impl TryFrom<Offset<u64>> for Offset {
    type Error = std::num::TryFromIntError;

    fn try_from(imm: Offset<u64>) -> (r: Result<Offset, std::num::TryFromIntError>) {
        match imm {
            Offset::Real(i) => match u32::try_from(i) {
                Ok(i) => Ok(Offset::Real(i)),
                Err(e) => Err(e),
            },
            Offset::Spill(s, i) => match u32::try_from(i) {
                Ok(i) => Ok(Offset::Spill(s, i)),
                Err(e) => Err(e),
            },
            Offset::Global(g, i) => match u32::try_from(i) {
                Ok(i) => Ok(Offset::Global(g, i)),
                Err(e) => Err(e),
            },
            Offset::Const(c, i) => match u32::try_from(i) {
                Ok(i) => Ok(Offset::Const(c, i)),
                Err(e) => Err(e),
            },
        }
    }
}

impl TryFromSpecImpl<Offset<u64>> for Offset {
    open spec fn obeys_try_from_spec() -> bool {
        true
    }

    open spec fn try_from_spec(imm: Offset<u64>) -> Result<Offset, std::num::TryFromIntError> {
        if imm.amount() <= u32::MAX {
            Ok(imm.with_amount(imm.amount() as u32))
        } else {
            Err(arbitrary())
        }
    }
}

impl<N: Add<Output = N>> Add<N> for Offset<N> {
    type Output = Offset<N>;

    fn add(self, n: N) -> (r: Offset<N>) {
        match self {
            Offset::Real(i) => Offset::Real(i + n),
            Offset::Spill(s, i) => Offset::Spill(s, i + n),
            Offset::Global(g, i) => Offset::Global(g, i + n),
            Offset::Const(c, i) => Offset::Const(c, i + n),
        }
    }
}

impl<N: Add<Output = N>> AddSpecImpl<N> for Offset<N> {
    open spec fn obeys_add_spec() -> bool {
        N::obeys_add_spec()
    }

    open spec fn add_req(self, n: N) -> bool {
        self.amount().add_req(n)
    }

    open spec fn add_spec(self, n: N) -> Offset<N> {
        self.with_amount(self.amount().add_spec(n))
    }
}

/// A memory address. This has the form `off+base+si`, where `off` is a base memory location (a 32
/// bit address, or an offset from a stack slot, named global or named constant), `base` is a
/// register or 0, and `si` is a shifted register or 0. Note that `base` must be 0 if `off` is
/// `Spill(..)` because spill slots are RSP-relative, so there is no space for a second register in
/// the encoding.
#[derive(Clone, Copy, PartialEq, Eq, Structural)]
pub struct AMode<Reg = VReg> {
    /// The base memory location.
    pub off: Offset,
    /// The invalid register means no added register.
    pub base: Reg,
    /// Optionally add a shifted register.
    pub si: Option<ShiftIndex<Reg>>,
}

impl<Reg: IsReg> AMode<Reg> {
    /// The address of a base memory location.
    pub open spec fn at(off: Offset) -> AMode<Reg> {
        AMode { off, base: Reg::none(), si: None }
    }

    /// The address that is in a register.
    pub open spec fn based(r: Reg) -> AMode<Reg> {
        AMode { off: Offset::Real(0), base: r, si: None }
    }

    /// Whether `base` is 0 where the base memory location is a spill slot, and the shift amount is
    /// one that can be encoded.
    pub open spec fn wf(self) -> bool {
        &&& self.off is Spill ==> self.base == Reg::none()
        &&& self.si matches Some(si) ==> si.shift <= 3
    }
}

impl<Reg: IsReg> From<Offset> for AMode<Reg> {
    fn from(off: Offset) -> (r: AMode<Reg>) {
        AMode { off, base: Reg::invalid(), si: None }
    }
}

impl<Reg: IsReg> FromSpecImpl<Offset> for AMode<Reg> {
    open spec fn obeys_from_spec() -> bool {
        true
    }

    open spec fn from_spec(off: Offset) -> AMode<Reg> {
        AMode::at(off)
    }
}

impl<Reg: IsReg> AMode<Reg> {
    /// The address that is in a register.
    pub fn reg(r: Reg) -> (a: AMode<Reg>)
        ensures
            a == (AMode { off: Offset::Real(0), base: r, si: None }),
            a == AMode::<Reg>::based(r),
    {
        AMode { off: Offset::zero(), base: r, si: None }
    }

    /// The address of a spill slot.
    pub fn spill(i: SpillId) -> (a: AMode<Reg>)
        ensures
            a == AMode::<Reg>::at(Offset::Spill(i, 0)),
    {
        Offset::Spill(i, 0).into()
    }

    /// The address of a global variable.
    pub fn global(i: GlobalId) -> (a: AMode<Reg>)
        ensures
            a == AMode::<Reg>::at(Offset::Global(i, 0)),
    {
        Offset::Global(i, 0).into()
    }

    /// The address of a named constant.
    pub fn const_(i: ConstId) -> (a: AMode<Reg>)
        ensures
            a == AMode::<Reg>::at(Offset::Const(i, 0)),
    {
        Offset::Const(i, 0).into()
    }
}

impl AMode {
    /// The mentions of registers in an address: the base, where there is one, and the register that
    /// is shifted.
    pub open spec fn operands(self) -> Seq<Operand> {
        let base = if self.base != VReg::none() {
            seq![self.base.used()]
        } else {
            Seq::empty()
        };
        match self.si {
            Some(si) => base.push(si.index.used()),
            None => base,
        }
    }

    /// Whether the registers are ones that can be mentioned.
    pub open spec fn in_range(self) -> bool {
        self.base.in_range() && (self.si matches Some(si) ==> si.index.in_range())
    }

    /// Adds the mentions of registers in the address.
    pub(crate) fn collect_operands(&self, args: &mut Vec<Operand>)
        requires
            self.in_range(),
        ensures
            final(args)@ == old(args)@ + self.operands(),
    {
        let ghost before = args@;
        if self.base.is_valid() {
            args.push(reg_use(self.base));
        }
        if let Some(si) = &self.si {
            args.push(reg_use(si.index));
        }
        assert(args@ =~= before + self.operands());
    }
}

impl Add<u32> for &AMode {
    type Output = AMode;

    fn add(self, n: u32) -> (r: AMode) {
        AMode { off: self.off + n, base: self.base, si: self.si }
    }
}

impl AddSpecImpl<u32> for &AMode {
    open spec fn obeys_add_spec() -> bool {
        true
    }

    open spec fn add_req(self, n: u32) -> bool {
        self.off.amount() + n <= u32::MAX
    }

    open spec fn add_spec(self, n: u32) -> AMode {
        AMode {
            off: self.off.with_amount((self.off.amount() + n) as u32),
            base: self.base,
            si: self.si,
        }
    }
}

/// An operand which is either an integer register or a value in memory. This can denote an 8, 16,
/// 32, 64, or 128 bit value.
#[derive(Clone, Copy, PartialEq, Eq, Structural)]
pub enum RegMem<Reg = VReg> {
    Reg(Reg),
    Mem(AMode<Reg>),
}

impl<Reg> From<Reg> for RegMem<Reg> {
    fn from(r: Reg) -> (rm: RegMem<Reg>) {
        RegMem::Reg(r)
    }
}

impl<Reg> FromSpecImpl<Reg> for RegMem<Reg> {
    open spec fn obeys_from_spec() -> bool {
        true
    }

    open spec fn from_spec(r: Reg) -> RegMem<Reg> {
        RegMem::Reg(r)
    }
}

impl<Reg> From<AMode<Reg>> for RegMem<Reg> {
    fn from(a: AMode<Reg>) -> (r: RegMem<Reg>) {
        RegMem::Mem(a)
    }
}

impl<Reg> FromSpecImpl<AMode<Reg>> for RegMem<Reg> {
    open spec fn obeys_from_spec() -> bool {
        true
    }

    open spec fn from_spec(a: AMode<Reg>) -> RegMem<Reg> {
        RegMem::Mem(a)
    }
}

impl RegMem {
    /// The mentions of registers in the operand.
    pub open spec fn operands(self) -> Seq<Operand> {
        match self {
            RegMem::Reg(r) => seq![r.used()],
            RegMem::Mem(a) => a.operands(),
        }
    }

    /// Whether the registers are ones that can be mentioned.
    pub open spec fn in_range(self) -> bool {
        match self {
            RegMem::Reg(r) => r.in_range(),
            RegMem::Mem(a) => a.in_range(),
        }
    }

    /// Adds the mentions of registers in the operand.
    pub(crate) fn collect_operands(&self, args: &mut Vec<Operand>)
        requires
            self.in_range(),
        ensures
            final(args)@ == old(args)@ + self.operands(),
    {
        match self {
            RegMem::Reg(r) => {
                let ghost before = args@;
                args.push(reg_use(*r));
                assert(args@ =~= before + self.operands());
            },
            RegMem::Mem(a) => a.collect_operands(args),
        }
    }
}

/// An operand which is either an integer register, a value in memory or an immediate. This can
/// denote an 8, 16, 32 or 64 bit value. For the immediate form, in the 8- and 16-bit case, only the
/// lower 8 or 16 bits of `simm32` is relevant. In the 64-bit case, the value denoted by `simm32` is
/// its sign-extension out to 64 bits.
#[derive(Clone, Copy, PartialEq, Eq, Structural)]
pub enum RegMemImm<N = u32> {
    Reg(VReg),
    Mem(AMode),
    Imm(N),
    Uninit,
}

impl<N> From<VReg> for RegMemImm<N> {
    fn from(r: VReg) -> (rmi: RegMemImm<N>) {
        RegMemImm::Reg(r)
    }
}

impl<N> FromSpecImpl<VReg> for RegMemImm<N> {
    open spec fn obeys_from_spec() -> bool {
        true
    }

    open spec fn from_spec(r: VReg) -> RegMemImm<N> {
        RegMemImm::Reg(r)
    }
}

impl<N> From<AMode> for RegMemImm<N> {
    fn from(a: AMode) -> (r: RegMemImm<N>) {
        RegMemImm::Mem(a)
    }
}

impl<N> FromSpecImpl<AMode> for RegMemImm<N> {
    open spec fn obeys_from_spec() -> bool {
        true
    }

    open spec fn from_spec(a: AMode) -> RegMemImm<N> {
        RegMemImm::Mem(a)
    }
}

impl<N> From<RegMem> for RegMemImm<N> {
    fn from(rm: RegMem) -> (r: RegMemImm<N>) {
        match rm {
            RegMem::Reg(r) => RegMemImm::Reg(r),
            RegMem::Mem(a) => RegMemImm::Mem(a),
        }
    }
}

impl<N> FromSpecImpl<RegMem> for RegMemImm<N> {
    open spec fn obeys_from_spec() -> bool {
        true
    }

    open spec fn from_spec(rm: RegMem) -> RegMemImm<N> {
        match rm {
            RegMem::Reg(r) => RegMemImm::Reg(r),
            RegMem::Mem(a) => RegMemImm::Mem(a),
        }
    }
}

impl From<RegMemImm> for RegMemImm<u64> {
    fn from(rmi: RegMemImm) -> (r: RegMemImm<u64>) {
        match rmi {
            RegMemImm::Reg(r) => RegMemImm::Reg(r),
            RegMemImm::Mem(a) => RegMemImm::Mem(a),
            RegMemImm::Imm(i) => RegMemImm::Imm(i.into()),
            RegMemImm::Uninit => RegMemImm::Uninit,
        }
    }
}

impl FromSpecImpl<RegMemImm> for RegMemImm<u64> {
    open spec fn obeys_from_spec() -> bool {
        true
    }

    open spec fn from_spec(rmi: RegMemImm) -> RegMemImm<u64> {
        match rmi {
            RegMemImm::Reg(r) => RegMemImm::Reg(r),
            RegMemImm::Mem(a) => RegMemImm::Mem(a),
            RegMemImm::Imm(i) => RegMemImm::Imm(i as u64),
            RegMemImm::Uninit => RegMemImm::Uninit,
        }
    }
}

impl From<u32> for RegMemImm {
    fn from(i: u32) -> (r: RegMemImm) {
        RegMemImm::Imm(i)
    }
}

impl FromSpecImpl<u32> for RegMemImm {
    open spec fn obeys_from_spec() -> bool {
        true
    }

    open spec fn from_spec(i: u32) -> RegMemImm {
        RegMemImm::Imm(i)
    }
}

impl From<u64> for RegMemImm<u64> {
    fn from(i: u64) -> (r: RegMemImm<u64>) {
        RegMemImm::Imm(i)
    }
}

impl FromSpecImpl<u64> for RegMemImm<u64> {
    open spec fn obeys_from_spec() -> bool {
        true
    }

    open spec fn from_spec(i: u64) -> RegMemImm<u64> {
        RegMemImm::Imm(i)
    }
}

impl<N> RegMemImm<N> {
    /// The mentions of registers in the operand.
    pub open spec fn operands(self) -> Seq<Operand> {
        match self {
            RegMemImm::Reg(r) => seq![r.used()],
            RegMemImm::Mem(a) => a.operands(),
            RegMemImm::Imm(_) => Seq::empty(),
            RegMemImm::Uninit => Seq::empty(),
        }
    }

    /// Whether the registers are ones that can be mentioned.
    pub open spec fn in_range(self) -> bool {
        match self {
            RegMemImm::Reg(r) => r.in_range(),
            RegMemImm::Mem(a) => a.in_range(),
            RegMemImm::Imm(_) => true,
            RegMemImm::Uninit => true,
        }
    }

    /// Adds the mentions of registers in the operand.
    pub(crate) fn collect_operands(&self, args: &mut Vec<Operand>)
        requires
            self.in_range(),
        ensures
            final(args)@ == old(args)@ + self.operands(),
    {
        let ghost before = args@;
        match self {
            RegMemImm::Reg(r) => {
                args.push(reg_use(*r));
                assert(args@ =~= before + self.operands());
            },
            RegMemImm::Mem(a) => a.collect_operands(args),
            RegMemImm::Imm(_) | RegMemImm::Uninit => {
                assert(args@ =~= before + self.operands());
            },
        }
    }
}

} // verus!
