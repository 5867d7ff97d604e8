//! Operands as text.

use super::layout::PRegMemImm;
use super::mode::{factor, AMode, ConstId, GlobalId, Offset, RegMem, RegMemImm, SpillId};
use super::reg::{IsReg, PReg, VReg};
use crate::text::{decimal, decimal_text};
use vstd::prelude::*;
use vstd::std_specs::convert::FromSpec;
use vstd::string::StringExecFns;

verus! {

/// Calls the `Debug` formatting of `regalloc2::VReg` for an integer register, which gives its number
/// and its class.
#[verifier::external_body]
fn vreg_text(v: VReg) -> (r: String)
    requires
        v.in_range(),
    ensures
        r@ == "VReg(vreg = "@ + decimal(v.index as int) + ", class = Int)"@,
{
    format!("{:?}", regalloc2::VReg::new(v.index as usize, regalloc2::RegClass::Int))
}

/// Calls the `Debug` formatting of `regalloc2::PReg` for an integer register, which gives its number,
/// its class, and its place among the registers of all classes. The integer registers come first.
#[verifier::external_body]
fn preg_text(p: PReg) -> (r: String)
    requires
        p.in_range(),
    ensures
        r@ == "PReg(hw = "@ + decimal(p.hw as int) + ", class = Int, index = "@ + decimal(
            p.hw as int,
        ) + ")"@,
{
    format!("{:?}", regalloc2::PReg::new(p.hw as usize, regalloc2::RegClass::Int))
}

/// Calls `num::Zero::is_zero` on a `u64`, which tells whether it is zero.
#[verifier::external_body]
fn is_zero(n: u64) -> (r: bool)
    ensures
        r == (n == 0),
{
    num::Zero::is_zero(&n)
}

/// Registers that can be shown.
pub trait ShowReg: IsReg {
    /// Whether the register can be shown.
    spec fn showable(self) -> bool;

    /// The register as text.
    spec fn shown(self) -> Seq<char>;

    /// The register as text.
    fn text(&self) -> (r: String)
        requires
            self.showable(),
        ensures
            r@ == self.shown(),
    ;
}

impl ShowReg for VReg {
    open spec fn showable(self) -> bool {
        self.in_range()
    }

    open spec fn shown(self) -> Seq<char> {
        "VReg(vreg = "@ + decimal(self.index as int) + ", class = Int)"@
    }

    fn text(&self) -> (r: String) {
        vreg_text(*self)
    }
}

impl ShowReg for PReg {
    open spec fn showable(self) -> bool {
        self.in_range()
    }

    open spec fn shown(self) -> Seq<char> {
        "PReg(hw = "@ + decimal(self.hw as int) + ", class = Int, index = "@ + decimal(
            self.hw as int,
        ) + ")"@
    }

    fn text(&self) -> (r: String) {
        preg_text(*self)
    }
}

fn id_text(prefix: &str, n: u32) -> (r: String)
    ensures
        r@ == prefix@ + decimal(n as int),
{
    prefix.to_owned().concat(decimal_text(n as u64).as_str())
}

impl SpillId {
    /// The spill slot as text.
    pub open spec fn shown(self) -> Seq<char> {
        "s"@ + decimal(self.0 as int)
    }

    /// The spill slot as text.
    pub fn text(&self) -> (r: String)
        ensures
            r@ == self.shown(),
    {
        id_text("s", self.0)
    }
}

impl GlobalId {
    /// The global variable as text.
    pub open spec fn shown(self) -> Seq<char> {
        "g"@ + decimal(self.0 as int)
    }

    /// The global variable as text.
    pub fn text(&self) -> (r: String)
        ensures
            r@ == self.shown(),
    {
        id_text("g", self.0)
    }
}

impl ConstId {
    /// The named constant as text.
    pub open spec fn shown(self) -> Seq<char> {
        "c"@ + decimal(self.0 as int)
    }

    /// The named constant as text.
    pub fn text(&self) -> (r: String)
        ensures
            r@ == self.shown(),
    {
        id_text("c", self.0)
    }
}

/// A place with what is added to it. Where that is zero it is left out.
pub open spec fn plus(place: Seq<char>, n: u64) -> Seq<char> {
    if n == 0 {
        place
    } else {
        place + " + "@ + decimal(n as int)
    }
}

fn plus_text(place: String, n: u64) -> (r: String)
    ensures
        r@ == plus(place@, n),
{
    if is_zero(n) {
        place
    } else {
        place.concat(" + ").concat(decimal_text(n).as_str())
    }
}

impl Offset<u64> {
    /// The offset as text.
    pub open spec fn shown(self) -> Seq<char> {
        match self {
            Offset::Real(n) => decimal(n as int),
            Offset::Spill(i, n) => plus(i.shown(), n),
            Offset::Global(i, n) => plus(i.shown(), n),
            Offset::Const(i, n) => plus(i.shown(), n),
        }
    }

    /// The offset as text.
    pub fn text(&self) -> (r: String)
        ensures
            r@ == self.shown(),
    {
        match self {
            Offset::Real(n) => decimal_text(*n),
            Offset::Spill(i, n) => plus_text(i.text(), *n),
            Offset::Global(i, n) => plus_text(i.text(), *n),
            Offset::Const(i, n) => plus_text(i.text(), *n),
        }
    }
}

impl Offset {
    /// The offset as text.
    pub open spec fn shown32(self) -> Seq<char> {
        self.with_amount(self.amount() as u64).shown()
    }

    /// The offset as text.
    pub fn text32(&self) -> (r: String)
        ensures
            r@ == self.shown32(),
    {
        let wide: Offset<u64> = (*self).into();
        wide.text()
    }
}

impl<Reg: ShowReg> AMode<Reg> {
    /// Whether the registers can be shown, and the shift amount is one that can be encoded.
    pub open spec fn showable(self) -> bool {
        &&& self.base.showable()
        &&& self.si matches Some(si) ==> si.index.showable() && si.shift <= 3
    }

    /// The address as text: `[off + base + factor*index]`, without the parts that are not there.
    pub open spec fn shown(self) -> Seq<char> {
        let off = "["@ + self.off.shown32();
        let base = if self.base != Reg::none() {
            off + " + "@ + self.base.shown()
        } else {
            off
        };
        let si = match self.si {
            Some(si) => base + " + "@ + decimal(factor(si.shift)) + "*"@
                + si.index.shown(),
            None => base,
        };
        si + "]"@
    }

    /// The address as text.
    pub fn text(&self) -> (r: String)
        requires
            self.showable(),
        ensures
            r@ == self.shown(),
    {
        let mut s = "[".to_owned().concat(self.off.text32().as_str());
        if self.base.is_valid() {
            s = s.concat(" + ").concat(self.base.text().as_str());
        }
        if let Some(si) = &self.si {
            let shift = si.shift;
            assert(0 <= shift <= 3 ==> 1u64 << shift == (if shift == 0 {
                1u64
            } else if shift == 1 {
                2
            } else if shift == 2 {
                4
            } else {
                8
            })) by (bit_vector);
            let factor = decimal_text(1u64 << shift);
            s = s.concat(" + ").concat(factor.as_str()).concat("*").concat(si.index.text().as_str());
        }
        s.concat("]")
    }
}

impl<Reg: ShowReg> RegMem<Reg> {
    /// Whether the registers can be shown, and the shift amount is one that can be encoded.
    pub open spec fn showable(self) -> bool {
        match self {
            RegMem::Reg(r) => r.showable(),
            RegMem::Mem(a) => a.showable(),
        }
    }

    /// The operand as text.
    pub open spec fn shown(self) -> Seq<char> {
        match self {
            RegMem::Reg(r) => r.shown(),
            RegMem::Mem(a) => a.shown(),
        }
    }

    /// The operand as text.
    pub fn text(&self) -> (r: String)
        requires
            self.showable(),
        ensures
            r@ == self.shown(),
    {
        match self {
            RegMem::Reg(r) => r.text(),
            RegMem::Mem(a) => a.text(),
        }
    }
}

impl RegMemImm<u64> {
    /// Whether the registers can be shown, and the shift amount is one that can be encoded.
    pub open spec fn showable(self) -> bool {
        match self {
            RegMemImm::Reg(r) => r.showable(),
            RegMemImm::Mem(a) => a.showable(),
            _ => true,
        }
    }

    /// The operand as text.
    pub open spec fn shown(self) -> Seq<char> {
        match self {
            RegMemImm::Reg(r) => r.shown(),
            RegMemImm::Mem(a) => a.shown(),
            RegMemImm::Imm(i) => decimal(i as int),
            RegMemImm::Uninit => "\"uninit\""@,
        }
    }

    /// The operand as text.
    pub fn text(&self) -> (r: String)
        requires
            self.showable(),
        ensures
            r@ == self.shown(),
    {
        match self {
            RegMemImm::Reg(r) => r.text(),
            RegMemImm::Mem(a) => a.text(),
            RegMemImm::Imm(i) => decimal_text(*i),
            RegMemImm::Uninit => "\"uninit\"".to_owned(),
        }
    }
}

impl RegMemImm {
    /// The operand as text.
    pub fn text32(&self) -> (r: String)
        requires
            RegMemImm::<u64>::from_spec(*self).showable(),
        ensures
            r@ == RegMemImm::<u64>::from_spec(*self).shown(),
    {
        let wide: RegMemImm<u64> = (*self).into();
        wide.text()
    }
}

impl PRegMemImm {
    /// Whether the registers can be shown, and the shift amount is one that can be encoded.
    pub open spec fn showable(self) -> bool {
        match self {
            PRegMemImm::Reg(r) => r.showable(),
            PRegMemImm::Mem(a) => a.showable(),
            PRegMemImm::Imm(_) => true,
        }
    }

    /// The operand as text.
    pub open spec fn shown(self) -> Seq<char> {
        match self {
            PRegMemImm::Reg(r) => r.shown(),
            PRegMemImm::Mem(a) => a.shown(),
            PRegMemImm::Imm(i) => decimal(i as int),
        }
    }

    /// The operand as text.
    pub fn text(&self) -> (r: String)
        requires
            self.showable(),
        ensures
            r@ == self.shown(),
    {
        match self {
            PRegMemImm::Reg(r) => r.text(),
            PRegMemImm::Mem(a) => a.text(),
            PRegMemImm::Imm(i) => decimal_text(*i as u64),
        }
    }
}

// ---------------------------------------------------------------------------------------------
// What the texts have in common

/// The letter that the names of places start with.
pub open spec fn place_letter(off: Offset<u64>) -> Seq<char> {
    match off {
        Offset::Real(_) => Seq::empty(),
        Offset::Spill(_, _) => "s"@,
        Offset::Global(_, _) => "g"@,
        Offset::Const(_, _) => "c"@,
    }
}

/// The number in the name of a place.
pub open spec fn place_number(off: Offset<u64>) -> u32 {
    match off {
        Offset::Real(_) => 0,
        Offset::Spill(i, _) => i.0,
        Offset::Global(i, _) => i.0,
        Offset::Const(i, _) => i.0,
    }
}

/// Parts in a row, with a plus sign between any two of them.
pub open spec fn sum_text(parts: Seq<Seq<char>>) -> Seq<char>
    decreases parts.len(),
{
    if parts.len() == 0 {
        Seq::empty()
    } else if parts.len() == 1 {
        parts[0]
    } else {
        sum_text(parts.drop_last()) + " + "@ + parts.last()
    }
}

/// An offset that is relative to a place is shown as a sum of the name of the place and the number,
/// without the number where that is zero. Any other is shown as the number.
pub proof fn law_offset_text(off: Offset<u64>)
    ensures
        ({
            let name = place_letter(off) + decimal(place_number(off) as int);
            let number = decimal(off.amount() as int);
            off.shown() == (if off is Real {
                number
            } else if off.amount() == 0 {
                name
            } else {
                sum_text(seq![name, number])
            })
        }),
{
    let name = place_letter(off) + decimal(place_number(off) as int);
    let number = decimal(off.amount() as int);
    let parts = seq![name, number];
    assert(parts.drop_last() =~= seq![name]);
    reveal_with_fuel(sum_text, 2);
}

/// The parts of an address as text: the offset, the base where there is one, and the index with its
/// factor where there is one.
pub open spec fn address_parts<Reg: ShowReg>(a: AMode<Reg>) -> Seq<Seq<char>> {
    let off = seq![a.off.shown32()];
    let base = if a.base != Reg::none() {
        seq![a.base.shown()]
    } else {
        Seq::empty()
    };
    let index = match a.si {
        Some(si) => seq![decimal(factor(si.shift)) + "*"@ + si.index.shown()],
        None => Seq::empty(),
    };
    off + base + index
}

/// An address is shown as the sum of its parts in brackets.
pub proof fn law_address_text<Reg: ShowReg>(a: AMode<Reg>)
    ensures
        a.shown() == "["@ + sum_text(address_parts(a)) + "]"@,
{
    let parts = address_parts(a);
    reveal_with_fuel(sum_text, 3);
    if parts.len() == 1 {
    } else if parts.len() == 2 {
        assert(parts.drop_last() =~= seq![parts[0]]);
    } else {
        assert(parts.drop_last() =~= seq![parts[0], parts[1]]);
        assert(seq![parts[0], parts[1]].drop_last() =~= seq![parts[0]]);
    }
    assert(a.shown() =~= "["@ + sum_text(parts) + "]"@);
}

/// An operand is shown as its register, its address or its number, and a narrow one as a wide one.
pub proof fn law_operand_text(
    r: VReg,
    p: PReg,
    a: AMode,
    b: AMode<PReg>,
    n: u64,
    m: u32,
    off: Offset,
)
    ensures
        RegMem::Reg(r).shown() == r.shown(),
        RegMem::Mem(a).shown() == a.shown(),
        RegMem::Reg(p).shown() == p.shown(),
        RegMem::Mem(b).shown() == b.shown(),
        RegMemImm::<u64>::Reg(r).shown() == r.shown(),
        RegMemImm::<u64>::Mem(a).shown() == a.shown(),
        RegMemImm::Imm(n).shown() == decimal(n as int),
        PRegMemImm::Reg(p).shown() == p.shown(),
        PRegMemImm::Mem(b).shown() == b.shown(),
        PRegMemImm::Imm(m).shown() == decimal(m as int),
        off.shown32() == <Offset<u64> as FromSpec<Offset>>::from_spec(off).shown(),
{
}

} // verus!
