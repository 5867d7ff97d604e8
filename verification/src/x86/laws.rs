//! What holds of the back end as a whole.

use super::emit::{Code, VCode};
use super::inst::Inst;
use super::layout::{ModRMLayout, PAMode, PInst, PRegMem, PRegMemImm};
use super::mode::{factor, AMode, Offset, RegMem, RegMemImm};
use super::ops::{ExtMode, FlagBits, CC};
use super::reg::{arg_reg_numbers, callee_saved_numbers, caller_saved_numbers, pregs};
use super::reg::{IsReg, Operand, OperandConstraint, OperandKind, OperandPos, PReg, VReg};
use super::reg::{RAX, RSP, SCRATCH, VREG_MAX};
use crate::size::Size;
use vstd::arithmetic::div_mod::{lemma_add_mod_noop, lemma_mod_twice};
use vstd::prelude::*;
use vstd::std_specs::convert::FromSpec;
use vstd::std_specs::ops::AddSpec;

verus! {

// ---------------------------------------------------------------------------------------------
// Conditions and extensions

/// The opposite of a condition holds exactly where the condition does not. It differs from it in
/// the last bit of the encoding, and the opposite of the opposite is the condition itself.
pub proof fn law_opposite_conditions(cc: CC, f: FlagBits)
    ensures
        cc.opposite().holds(f) == !cc.holds(f),
        cc.opposite().bits() == cc.bits() ^ 1,
        cc.opposite() != cc,
        cc.opposite().opposite() == cc,
{
    let b = cc.bits();
    assert(b % 2 == 0 ==> b ^ 1 == b + 1) by (bit_vector);
    assert(b % 2 == 1 ==> b ^ 1 == b - 1) by (bit_vector);
}

/// No two conditions are encoded alike.
pub proof fn law_condition_codes(a: CC, b: CC)
    ensures
        a.bits() < 16,
        a.bits() == b.bits() ==> a == b,
{
}

/// What the upper three bits of the encoding of a condition test.
pub open spec fn tested(n: int, f: FlagBits) -> bool {
    if n == 0 {
        f.overflow
    } else if n == 1 {
        f.carry
    } else if n == 2 {
        f.zero
    } else if n == 3 {
        f.carry || f.zero
    } else if n == 4 {
        f.sign
    } else if n == 5 {
        f.parity
    } else if n == 6 {
        f.sign != f.overflow
    } else {
        f.zero || f.sign != f.overflow
    }
}

/// The machine finds out from the encoding of a condition whether it holds: the upper three bits say
/// what is tested, and the last one whether it is to be false.
pub proof fn law_condition_encoding(cc: CC, f: FlagBits)
    ensures
        cc.holds(f) == (tested(cc.bits() as int / 2, f) != (cc.bits() % 2 == 1)),
{
}

/// A register as a signed number.
pub open spec fn signed(a: u64) -> int {
    if a < 0x8000_0000_0000_0000 {
        a as int
    } else {
        a - word()
    }
}

/// The flags after a comparison of two registers, which subtracts the second from the first. The
/// parity is left open.
pub open spec fn compared(a: u64, b: u64, parity: bool) -> FlagBits {
    let difference = signed(a) - signed(b);
    FlagBits {
        overflow: difference < -0x8000_0000_0000_0000 || difference >= 0x8000_0000_0000_0000,
        carry: a < b,
        zero: a == b,
        sign: difference % word() >= 0x8000_0000_0000_0000,
        parity,
    }
}

/// After a comparison, the conditions hold where the first number is less than the second, or less
/// or equal, or equal, as unsigned numbers and as signed ones.
pub proof fn law_conditions_compare(a: u64, b: u64, parity: bool)
    ensures
        ({
            let f = compared(a, b, parity);
            &&& CC::B.holds(f) == (a < b)
            &&& CC::NB.holds(f) == (a >= b)
            &&& CC::BE.holds(f) == (a <= b)
            &&& CC::NBE.holds(f) == (a > b)
            &&& CC::Z.holds(f) == (a == b)
            &&& CC::NZ.holds(f) == (a != b)
            &&& CC::L.holds(f) == (signed(a) < signed(b))
            &&& CC::NL.holds(f) == (signed(a) >= signed(b))
            &&& CC::LE.holds(f) == (signed(a) <= signed(b))
            &&& CC::NLE.holds(f) == (signed(a) > signed(b))
        }),
{
}

/// There is a mode for widening one size to another exactly where both are sizes of machine numbers
/// and the second is larger. It widens the first size, to the second or, for 16 bits, to 32.
pub proof fn law_extension_modes(from: Size, to: Size)
    ensures
        ExtMode::between(from, to) is Some <==> (from.byte_count() matches Some(m)
            && to.byte_count() matches Some(n) && m < n),
        ExtMode::between(from, to) matches Some(mode) ==> mode.from_size() == from
            && mode.to_size() == (if to == Size::S16 {
            Size::S32
        } else {
            to
        }),
{
}

/// Every mode is the one for its own sizes.
pub proof fn law_extension_mode_of_sizes(mode: ExtMode)
    ensures
        ExtMode::between(mode.from_size(), mode.to_size()) == Some(mode),
{
}

/// The modes are named after their sizes: bytes, words, long words of 32 bits, and quad words of 64.
pub proof fn law_extension_names(mode: ExtMode)
    ensures
        mode.from_size() == Size::S8 <==> mode == ExtMode::BL || mode == ExtMode::BQ,
        mode.from_size() == Size::S16 <==> mode == ExtMode::WL || mode == ExtMode::WQ,
        mode.from_size() == Size::S32 <==> mode == ExtMode::LQ,
        mode.to_size() == Size::S32 <==> mode == ExtMode::BL || mode == ExtMode::WL,
        mode.to_size() == Size::S64 || mode.to_size() == Size::S32,
{
}

/// A byte has eight bits, and each size has twice as many bytes as the one before it.
pub proof fn law_sizes()
    ensures
        Size::S8.byte_count() == Some(1u8),
        Size::S16.byte_count().unwrap() == 2 * Size::S8.byte_count().unwrap(),
        Size::S32.byte_count().unwrap() == 2 * Size::S16.byte_count().unwrap(),
        Size::S64.byte_count().unwrap() == 2 * Size::S32.byte_count().unwrap(),
        forall|sz: Size| #[trigger] sz.byte_count() is None <==> sz == Size::Inf,
{
}

/// Shifting by one more bit multiplies by two.
pub proof fn law_factors(shift: u8)
    ensures
        factor(0) == 1,
        shift < 3 ==> factor((shift + 1) as u8) == 2 * factor(shift),
{
}

// ---------------------------------------------------------------------------------------------
// Registers

/// The registers that the register allocator works with are all different: those that a call may
/// change, those that it keeps, and the one that is kept free. The stack pointer is none of them.
/// The arguments of a call are passed in registers that it may change.
pub proof fn law_register_sets()
    ensures
        ({
            let all = caller_saved_numbers() + callee_saved_numbers() + seq![SCRATCH];
            &&& all.no_duplicates()
            &&& !all.contains(RSP)
            &&& forall|i: int| 0 <= i < all.len() ==> (#[trigger] all[i]) < 16
        }),
        forall|i: int|
            0 <= i < arg_reg_numbers().len() ==> caller_saved_numbers().contains(
                #[trigger] arg_reg_numbers()[i],
            ),
{
    let c = caller_saved_numbers();
    let all = c + callee_saved_numbers() + seq![SCRATCH];
    assert(all.len() == 15);
    assert(c[1] == arg_reg_numbers()[0]);
    assert(c[2] == arg_reg_numbers()[1]);
    assert(c[3] == arg_reg_numbers()[2]);
    assert(c[4] == arg_reg_numbers()[3]);
    assert(c[5] == arg_reg_numbers()[4]);
    assert(c[6] == arg_reg_numbers()[5]);
}

/// Every register is the stack pointer, or the one that is kept free, or one that a call may change,
/// or one that it keeps.
pub proof fn law_all_registers(n: u8)
    requires
        n < 16,
    ensures
        n == RSP || n == SCRATCH || caller_saved_numbers().contains(n)
            || callee_saved_numbers().contains(n),
{
    let c = caller_saved_numbers();
    let k = callee_saved_numbers();
    assert(c[0] == 0 && c[1] == 7 && c[2] == 6 && c[3] == 2 && c[4] == 1 && c[5] == 8 && c[6] == 9
        && c[7] == 10);
    assert(k[0] == 3 && k[1] == 5 && k[2] == 12 && k[3] == 13 && k[4] == 14 && k[5] == 15);
}

/// A list of registers has one with each of the numbers, in their order.
pub proof fn law_register_lists(ns: Seq<u8>, k: int)
    requires
        0 <= k < ns.len(),
    ensures
        pregs(ns).len() == ns.len(),
        pregs(ns)[k].hw == ns[k],
{
}

/// The arguments of a call are passed in the registers that it may change, after the one that the
/// result is in, and in the same order: RDI, RSI, RDX, RCX, and then the first two of those that have
/// no name.
pub proof fn law_argument_registers()
    ensures
        arg_reg_numbers() == seq![7u8, 6u8, 2u8, 1u8, 8u8, 9u8],
        caller_saved_numbers()[0] == RAX,
        arg_reg_numbers() == caller_saved_numbers().subrange(1, 7),
{
    assert(arg_reg_numbers() =~= caller_saved_numbers().subrange(1, 7));
    assert(arg_reg_numbers() =~= seq![7u8, 6u8, 2u8, 1u8, 8u8, 9u8]);
}

// ---------------------------------------------------------------------------------------------
// Operands of instructions

/// Whether an instruction brings its own list of operands.
pub open spec fn has_own_operands(i: Inst) -> bool {
    i is CallKnown || i is JmpKnown || i is Epilogue
}

/// An operand is read before the instruction does its work, or written after it.
pub open spec fn early_use_or_late_def(o: Operand) -> bool {
    ||| o.kind == OperandKind::Use && o.pos == OperandPos::Early
    ||| o.kind == OperandKind::Def && o.pos == OperandPos::Late
}

/// Every operand of an instruction is read early or written late. One that takes the register of
/// another refers to the first, which is read from any register.
pub proof fn law_operands(inst: Inst, i: int)
    requires
        !has_own_operands(inst),
        0 <= i < inst.operands().len(),
    ensures
        early_use_or_late_def(inst.operands()[i]),
        inst.operands()[i].constraint matches OperandConstraint::Reuse(k) ==> {
            &&& k == 0
            &&& i > 0
            &&& is_use(inst.operands()[0])
        },
{
    match inst {
        Inst::Binop { src2, .. } => {
            lemma_rmi_operands(src2);
        },
        Inst::Mul { src2, .. } => {
            lemma_rm_operands(src2);
        },
        Inst::DivRem { src2, .. } => {
            lemma_rm_operands(src2);
        },
        Inst::MovzxRmR { src, .. } => {
            lemma_rm_operands(src);
        },
        Inst::MovsxRmR { src, .. } => {
            lemma_rm_operands(src);
        },
        Inst::Load64 { src, .. } => {
            lemma_address_operands(src);
        },
        Inst::Lea { addr, .. } => {
            lemma_address_operands(addr);
        },
        Inst::Store { dst, .. } => {
            lemma_address_operands(dst);
        },
        Inst::Cmp { src2, .. } => {
            lemma_rmi_operands(src2);
        },
        Inst::CMov { src2, .. } => {
            lemma_rm_operands(src2);
        },
        Inst::Push64 { src } => {
            lemma_rmi_operands(src);
        },
        _ => {},
    }
}

/// Whether an operand is read from any register.
pub open spec fn is_use(o: Operand) -> bool {
    o == o.vreg.used()
}

proof fn lemma_address_operands(a: AMode)
    ensures
        forall|i: int| 0 <= i < a.operands().len() ==> is_use(#[trigger] a.operands()[i]),
{
}

proof fn lemma_rm_operands(rm: RegMem)
    ensures
        forall|i: int| 0 <= i < rm.operands().len() ==> is_use(#[trigger] rm.operands()[i]),
{
    if let RegMem::Mem(a) = rm {
        lemma_address_operands(a);
    }
}

proof fn lemma_rmi_operands(rmi: RegMemImm)
    ensures
        forall|i: int| 0 <= i < rmi.operands().len() ==> is_use(#[trigger] rmi.operands()[i]),
{
    if let RegMemImm::Mem(a) = rmi {
        lemma_address_operands(a);
    }
}

/// The register allocator is told of a move as a move, and of no operands. It is told of operands
/// for nothing that is a move.
pub proof fn law_moves(inst: Inst)
    ensures
        inst.moved() is Some ==> inst.operands().len() == 0,
        inst.moved() matches Some((from, to)) ==> from.kind == OperandKind::Use && to.kind
            == OperandKind::Def && early_use_or_late_def(from) && early_use_or_late_def(to),
{
}

// ---------------------------------------------------------------------------------------------
// Lengths

/// The encoding of an instruction takes between 1 and 10 bytes.
pub proof fn law_lengths(i: PInst)
    ensures
        1 <= i.layout().size() <= 10,
{
    let opc = i.layout().opc;
    if let Some(m) = opc.modrm() {
        lemma_modrm_size(m);
        lemma_with_modrm(i);
    }
}

proof fn lemma_modrm_size(m: ModRMLayout)
    ensures
        1 <= m.size() <= 6,
{
}

/// A register or address comes with at most three other bytes, or is a register.
proof fn lemma_with_modrm(i: PInst)
    ensures
        ({
            let opc = i.layout().opc;
            opc.modrm() matches Some(m) ==> m == ModRMLayout::Reg || opc.opcode_bytes()
                + opc.imm_bytes() <= 3
        }),
{
}

/// Shortening an instruction changes nothing but the length of a jump. It does not make it longer.
/// Shortening it again changes nothing.
pub proof fn law_shorten(i: PInst)
    ensures
        i.shortened().layout().size() <= i.layout().size(),
        i.shortened().target() == i.target(),
        i.shortened().physical() == i.physical(),
        i.shortened().shortened() == i.shortened(),
        i.target() is None ==> i.shortened() == i,
        i.target() is Some && i.shortened() != i ==> i.shortened().layout().size() == 2,
{
}

/// The registers that an address mentions.
pub open spec fn address_regs(a: PAMode) -> Seq<PReg> {
    let base = if a.base != PReg::none() {
        seq![a.base]
    } else {
        Seq::empty()
    };
    match a.si {
        Some(si) => base.push(si.index),
        None => base,
    }
}

/// The registers that an operand mentions.
pub open spec fn rm_regs(rm: PRegMem) -> Seq<PReg> {
    match rm {
        RegMem::Reg(r) => seq![r],
        RegMem::Mem(a) => address_regs(a),
    }
}

/// The registers that an operand mentions.
pub open spec fn rmi_regs(rmi: PRegMemImm) -> Seq<PReg> {
    match rmi {
        PRegMemImm::Reg(r) => seq![r],
        PRegMemImm::Mem(a) => address_regs(a),
        PRegMemImm::Imm(_) => Seq::empty(),
    }
}

/// The registers that an instruction mentions.
pub open spec fn inst_regs(i: PInst) -> Seq<PReg> {
    match i {
        PInst::Binop { dst, src, .. } => seq![dst] + rmi_regs(src),
        PInst::Unop { dst, .. } => seq![dst],
        PInst::DivRem { src, .. } => rm_regs(src),
        PInst::Mul { src, .. } => rm_regs(src),
        PInst::Imm { dst, .. } => seq![dst],
        PInst::MovRR { dst, src, .. } => seq![dst, src],
        PInst::MovzxRmR { dst, src, .. } => seq![dst] + rm_regs(src),
        PInst::Load64 { dst, src } => seq![dst] + address_regs(src),
        PInst::Lea { dst, addr } => seq![dst] + address_regs(addr),
        PInst::MovsxRmR { dst, src, .. } => seq![dst] + rm_regs(src),
        PInst::Store { dst, src, .. } => seq![src] + address_regs(dst),
        PInst::Shift { dst, .. } => seq![dst],
        PInst::Cmp { src1, src2, .. } => seq![src1] + rmi_regs(src2),
        PInst::SetCC { dst, .. } => seq![dst],
        PInst::CMov { dst, src, .. } => seq![dst] + rm_regs(src),
        PInst::Push64 { src } => rmi_regs(src),
        PInst::Pop64 { dst } => seq![dst],
        _ => Seq::empty(),
    }
}

/// Whether one of the registers needs a REX byte.
pub open spec fn any_large(rs: Seq<PReg>) -> bool {
    exists|k: int| 0 <= k < rs.len() && (#[trigger] rs[k]).large()
}

/// An instruction that mentions a register that needs a REX byte has one.
pub proof fn law_rex(i: PInst)
    ensures
        any_large(inst_regs(i)) ==> i.layout().rex,
{
    match i {
        PInst::Binop { src, .. } => {
            lemma_rmi_rex(src);
        },
        PInst::DivRem { src, .. } => {
            lemma_rm_rex(src);
        },
        PInst::Mul { src, .. } => {
            lemma_rm_rex(src);
        },
        PInst::MovzxRmR { src, .. } => {
            lemma_rm_rex(src);
        },
        PInst::MovsxRmR { src, .. } => {
            lemma_rm_rex(src);
        },
        PInst::Store { dst, .. } => {
            lemma_address_rex(dst);
        },
        PInst::Cmp { src2, .. } => {
            lemma_rmi_rex(src2);
        },
        PInst::CMov { src, .. } => {
            lemma_rm_rex(src);
        },
        PInst::Push64 { src } => {
            lemma_rmi_rex(src);
        },
        _ => {},
    }
}

proof fn lemma_address_rex(a: PAMode)
    ensures
        forall|k: int|
            0 <= k < address_regs(a).len() && !a.needs_rex() ==> !(
            #[trigger] address_regs(a)[k]).large(),
{
}

proof fn lemma_rm_rex(rm: PRegMem)
    ensures
        forall|k: int|
            0 <= k < rm_regs(rm).len() && !rm.needs_rex() ==> !(#[trigger] rm_regs(rm)[k]).large(),
{
    if let RegMem::Mem(a) = rm {
        lemma_address_rex(a);
    }
}

proof fn lemma_rmi_rex(rmi: PRegMemImm)
    ensures
        forall|k: int|
            0 <= k < rmi_regs(rmi).len() && !rmi.needs_rex() ==> !(
            #[trigger] rmi_regs(rmi)[k]).large(),
{
    if let PRegMemImm::Mem(a) = rmi {
        lemma_address_rex(a);
    }
}

// ---------------------------------------------------------------------------------------------
// Conversions

/// The addresses that are made from a register or from a base memory location can be encoded, and
/// stay so when a number is added.
pub proof fn law_addresses_well_formed(r: VReg, off: Offset, a: AMode, n: u32)
    ensures
        (AMode { off: Offset::Real(0), base: r, si: None }).wf(),
        AMode::<VReg>::at(off).wf(),
        a.wf() && (&a).add_req(n) ==> (&a).add_spec(n).wf(),
{
}

/// An offset that is widened and narrowed again is the same.
pub proof fn law_offset_round_trip(off: Offset)
    ensures
        off.with_amount(off.amount() as u64).amount() <= u32::MAX,
        off.with_amount(off.amount() as u64).with_amount(off.amount()) == off,
{
}

/// The value of a 32 bit immediate in a 64 bit instruction: its sign extension.
pub open spec fn sign_extended(n: u32) -> u64 {
    if n < 0x8000_0000 {
        n as u64
    } else {
        (n + 0xffff_ffff_0000_0000) as u64
    }
}

/// Narrowing an immediate keeps its value. The 32 bit immediate is the number itself, and so is its
/// sign extension, which it stands for in a 64 bit instruction. Otherwise the number is what the
/// new instruction puts into the register. That happens only where no 32 bit immediate would do.
pub proof fn law_narrow_immediates(i: u64, code: Code<Inst>)
    ensures
        match RegMemImm::Imm(i).narrowed(code) {
            (code1, RegMemImm::Imm(n)) => code1 == code && n == i && sign_extended(n) == i,
            (code1, RegMemImm::Reg(r)) => code1.insts == code.insts.push(
                Inst::Imm { sz: Size::S64, dst: r, src: i },
            ) && r == code.next_vreg(),
            _ => false,
        },
        RegMemImm::Imm(i).narrowed(code).1 is Imm <==> exists|n: u32| n == i && sign_extended(n) == i,
{
    if i < 0x8000_0000 {
        assert(i as u32 == i && sign_extended(i as u32) == i);
    }
}

/// An operand that is narrowed and widened again is the same, unless it had to be put into a register.
/// It is put into a register only where it is a number.
pub proof fn law_narrow_operands(rmi: RegMemImm<u64>, code: Code<Inst>)
    ensures
        ({
            let (code1, r) = rmi.narrowed(code);
            &&& code1 == code ==> RegMemImm::<u64>::from_spec(r) == rmi
            &&& code1 != code ==> rmi is Imm && r == RegMemImm::<u32>::Reg(code.next_vreg())
        }),
{
    let (code1, r) = rmi.narrowed(code);
    if let RegMemImm::Imm(i) = rmi {
        if i >= 0x8000_0000 {
            assert(code1.insts.len() == code.insts.len() + 1);
        }
    }
}

/// Adding to an offset adds to the number in it, and leaves the place that it is relative to as it is.
pub proof fn law_offset_add(off: Offset, n: u32)
    requires
        off.amount() + n <= u32::MAX,
    ensures
        off.add_spec(n).amount() == off.amount() + n,
        off.add_spec(n).with_amount(off.amount()) == off,
{
}

/// Adding to an address adds to what it comes to, where the numbers in offsets do.
pub proof fn law_address_add(a: AMode, n: u32, place: spec_fn(Offset) -> int, regs: Map<VReg, int>)
    requires
        (&a).add_req(n),
        forall|off: Offset, k: u32| #[trigger]
            place(off.with_amount(k)) == place(off) + k - off.amount(),
    ensures
        address((&a).add_spec(n), place, regs) == address(a, place, regs) + n,
{
}

/// A signed number and the offset that it is converted to are the same modulo 2^32.
pub proof fn law_offset_of_signed(n: i32)
    ensures
        (<Offset as FromSpec<i32>>::from_spec(n).amount() - n) % 0x1_0000_0000 == 0,
        <Offset as FromSpec<i32>>::from_spec(n) is Real,
{
}

/// The address in a register is the value of the register, and the address of a place is the place.
pub proof fn law_plain_addresses(
    r: VReg,
    off: Offset,
    place: spec_fn(Offset) -> int,
    regs: Map<VReg, int>,
)
    requires
        r != VReg::none(),
        place(Offset::Real(0)) == 0,
    ensures
        address(AMode::<VReg>::based(r), place, regs) == regs[r],
        address(AMode::<VReg>::at(off), place, regs) == place(off),
{
}

/// An operand that is put into a register is there, and nothing that was in use has changed. One that
/// is in a register stays there.
pub proof fn law_operand_in_register(
    rm: RegMem,
    code: Code<Inst>,
    sz: Size,
    place: spec_fn(Offset) -> int,
    m: Machine,
)
    requires
        0 <= code.vregs <= u32::MAX,
    ensures
        ({
            let (code1, r) = rm.in_reg(code, sz);
            let new = code1.insts.skip(code.insts.len() as int);
            let m1 = m.after_all(new, place);
            &&& m1.regs[r] == m.read(rm, place)
            &&& m1.mem == m.mem
            &&& forall|q: VReg| q.index < code.vregs ==> #[trigger] m1.regs[q] == m.regs[q]
            &&& code1.insts.take(code.insts.len() as int) == code.insts
            &&& code1.spills == code.spills
            &&& rm is Reg ==> code1 == code
        }),
{
    reveal_with_fuel(Machine::after_all, 2);
    let (code1, r) = rm.in_reg(code, sz);
    let new = code1.insts.skip(code.insts.len() as int);
    match rm {
        RegMem::Reg(_) => {
            assert(new =~= Seq::empty());
        },
        RegMem::Mem(a) => {
            assert(new =~= seq![Inst::load(sz, r, a)]);
            assert(new.drop_first() =~= Seq::empty());
        },
    }
    assert(code1.insts.take(code.insts.len() as int) =~= code.insts);
}

/// Storing a register in a new spill slot makes a slot with as many bytes as the value has, and puts
/// the value there.
pub proof fn law_spilled(
    code: Code<Inst>,
    sz: Size,
    src: VReg,
    slot: AMode,
    place: spec_fn(Offset) -> int,
    m: Machine,
)
    requires
        sz != Size::Inf,
    ensures
        ({
            let code1 = code.spilled(sz, src, slot);
            let new = code1.insts.skip(code.insts.len() as int);
            let m1 = m.after_all(new, place);
            &&& sz.byte_count() == Some(code1.spills.last() as u8)
            &&& code1.spills.drop_last() == code.spills
            &&& code1.vregs == code.vregs
            &&& m1.read(RegMem::Mem(slot), place) == m.regs[src]
            &&& m1.regs == m.regs
        }),
{
    reveal_with_fuel(Machine::after_all, 2);
    let code1 = code.spilled(sz, src, slot);
    let new = code1.insts.skip(code.insts.len() as int);
    assert(new =~= seq![Inst::Store { sz, dst: slot, src }]);
    assert(new.drop_first() =~= Seq::empty());
    assert(code1.spills.drop_last() =~= code.spills);
}

// ---------------------------------------------------------------------------------------------
// Emission

/// The model of code has its instructions, registers and spill slots. It fits where each of them has
/// a number: an instruction and a spill slot one of 32 bits, and a register one of 21 bits.
pub proof fn law_code(code: VCode<Inst>, i: Inst, sz: u32)
    ensures
        code@.insts == code.insts@,
        code@.vregs == code.num_vregs,
        code@.spills == code.spills@,
        code@.fits() <==> {
            &&& code.insts@.len() <= 0x1_0000_0000
            &&& code.num_vregs <= 0x20_0000
            &&& code.spills@.len() <= 0x1_0000_0000
        },
        code@.with_inst(i) == (Code { insts: code.insts@.push(i), ..code@ }),
        code@.with_spill(sz) == (Code { spills: code.spills@.push(sz), ..code@ }),
{
}

/// Whether `b` is `a` with more at the end.
pub open spec fn appends(a: Code<Inst>, b: Code<Inst>) -> bool {
    &&& a.insts.is_prefix_of(b.insts)
    &&& a.vregs <= b.vregs
    &&& a.spills.is_prefix_of(b.spills)
}

/// A copy adds at most two instructions and one register to the code, and changes nothing that was
/// there. It goes through a register only where both ends are not registers.
pub proof fn law_copy_appends(code: Code<Inst>, sz: Size, dst: RegMem, src: RegMemImm<u64>)
    ensures
        appends(code, code.copy(sz, dst, src)),
        code.copy(sz, dst, src).insts.len() <= code.insts.len() + 2,
        dst is Reg || src is Reg ==> code.copy(sz, dst, src).vregs == code.vregs,
{
}

/// An unwritten value takes no instruction, and a copy from or to a register takes one.
pub proof fn law_copy_cost(code: Code<Inst>, sz: Size, dst: RegMem, src: RegMemImm<u64>)
    ensures
        src is Uninit ==> code.copy(sz, dst, src) == code,
        src !is Uninit && (dst is Reg || src is Reg) ==> code.copy(sz, dst, src).insts.len()
            == code.insts.len() + 1,
        code.copy(sz, dst, src).spills == code.spills,
        code.copy(sz, dst, src).vregs <= code.vregs + 1,
{
}

/// A scaled address takes no instruction where the machine can add the scaled register: where there is
/// no index yet and the scale is a power of two up to eight, or one more than that and there is room
/// for a base.
pub proof fn law_scaled_cost(a: AMode, code: Code<Inst>, sc: u64, reg: VReg)
    ensures
        a.si is None && (sc == 1 || sc == 2 || sc == 4 || sc == 8) ==> a.scaled(code, sc, reg).0
            == code,
        a.si is None && a.base == VReg::none() && a.off !is Spill && (sc == 3 || sc == 5 || sc == 9)
            ==> a.scaled(code, sc, reg).0 == code,
        sc == 1 && a.base == VReg::none() && a.off !is Spill ==> a.scaled(code, sc, reg).0 == code,
        a.si is None ==> a.scaled(code, sc, reg).1.off == a.off,
        a.si is None && a.base != VReg::none() ==> a.scaled(code, sc, reg).1.base == a.base,
{
    reveal_with_fuel(AMode::scaled, 2);
}

/// Making a scaled address adds at most three instructions and four registers to the code, and
/// changes nothing that was there.
pub proof fn law_scaled_appends(a: AMode, code: Code<Inst>, sc: u64, reg: VReg)
    ensures
        appends(code, a.scaled(code, sc, reg).0),
        a.scaled(code, sc, reg).0.insts.len() <= code.insts.len() + 3,
        a.scaled(code, sc, reg).0.vregs <= code.vregs + 4,
        a.scaled(code, sc, reg).0.spills == code.spills,
{
    reveal_with_fuel(AMode::scaled, 2);
}

// ---------------------------------------------------------------------------------------------
// Addresses

/// The number of values of a register.
pub open spec fn word() -> int {
    0x1_0000_0000_0000_0000
}

/// What an address comes to, given where the base memory locations are and what is in the
/// registers. The machine computes it modulo 2^64.
pub open spec fn address(a: AMode, place: spec_fn(Offset) -> int, regs: Map<VReg, int>) -> int {
    let base = if a.base == VReg::none() {
        0
    } else {
        regs[a.base]
    };
    let scaled = match a.si {
        Some(si) => regs[si.index] * factor(si.shift),
        None => 0,
    };
    place(a.off) + base + scaled
}

/// What the instructions that make addresses do to the registers. Others are left open.
pub open spec fn step(i: Inst, place: spec_fn(Offset) -> int, regs: Map<VReg, int>) -> Map<
    VReg,
    int,
> {
    match i {
        Inst::Lea { dst, addr } => regs.insert(dst, address(addr, place, regs) % word()),
        Inst::Imm { sz: Size::S64, dst, src } => regs.insert(dst, src as int),
        Inst::Mul { sz: Size::S64, dst_lo, dst_hi, src1, src2: RegMem::Reg(r) } => {
            let product = regs[src1] * regs[r];
            regs.insert(dst_lo, product % word()).insert(dst_hi, product / word())
        },
        _ => arbitrary(),
    }
}

/// What instructions do to the registers, one after the other.
pub open spec fn run(
    insts: Seq<Inst>,
    place: spec_fn(Offset) -> int,
    regs: Map<VReg, int>,
) -> Map<VReg, int>
    decreases insts.len(),
{
    if insts.len() == 0 {
        regs
    } else {
        run(insts.drop_first(), place, step(insts[0], place, regs))
    }
}

/// Whether the registers in an address are among the first `n`.
pub open spec fn regs_below(a: AMode, n: int) -> bool {
    &&& a.base == VReg::none() || a.base.index < n
    &&& a.si matches Some(si) ==> si.index.index < n
}

/// The scaled address comes to the old address and `sc` times the register, after the new
/// instructions have run. They leave the registers that were in use as they were. The address is
/// still one that can be encoded.
#[verifier::spinoff_prover]
pub proof fn law_scaled_address(
    a: AMode,
    code: Code<Inst>,
    sc: u64,
    reg: VReg,
    place: spec_fn(Offset) -> int,
    regs: Map<VReg, int>,
)
    requires
        a.wf(),
        0 <= code.vregs,
        regs_below(a, code.vregs),
        reg.index < code.vregs,
        a.scaled(code, sc, reg).0.vregs <= VREG_MAX,
        forall|n: u32| #[trigger] place(Offset::Real(n)) == n,
    ensures
        ({
            let (code1, b) = a.scaled(code, sc, reg);
            let regs1 = run(code1.insts.skip(code.insts.len() as int), place, regs);
            &&& address(b, place, regs1) % word() == (address(a, place, regs) + sc * regs[reg])
                % word()
            &&& forall|v: VReg| v.index < code.vregs ==> #[trigger] regs1[v] == regs[v]
            &&& b.wf()
            &&& regs_below(b, code1.vregs)
        }),
    decreases (a.si is Some) as int,
{
    let (code1, b) = a.scaled(code, sc, reg);
    let n = code.insts.len() as int;
    let new = code1.insts.skip(n);
    let x = regs[reg];
    if sc == 1 && !a.base_taken() {
        assert(new =~= Seq::empty());
        assert(sc * x == x) by (nonlinear_arith)
            requires
                sc == 1,
        ;
    } else if a.si is Some {
        let t = code.next_vreg();
        let c = AMode { off: Offset::Real(0), base: t, si: None };
        let lea = Inst::Lea { dst: t, addr: a };
        let regs0 = regs.insert(t, address(a, place, regs) % word());
        law_scaled_appends(c, code.lea(a), sc, reg);
        assert(code1.vregs >= code.vregs + 1);
        law_scaled_address(c, code.lea(a), sc, reg, place, regs0);
        assert(code1.insts[n] == code.lea(a).insts[n]);
        assert(new[0] == lea);
        assert(new.drop_first() =~= code1.insts.skip(n + 1));
        assert(step(lea, place, regs) == regs0);
        assert(run(new, place, regs) == run(new.drop_first(), place, regs0));
        assert(regs0[reg] == x);
        let old = address(a, place, regs);
        assert(address(c, place, regs0) == old % word());
        lemma_sum_mod(old, sc * x);
    } else if sc == 1 || sc == 2 || sc == 4 || sc == 8 {
        assert(new =~= Seq::empty());
        assert(sc * x == x * factor(b.si.unwrap().shift)) by (nonlinear_arith)
            requires
                sc == factor(b.si.unwrap().shift),
        ;
    } else if (sc == 3 || sc == 5 || sc == 9) && !a.base_taken() {
        assert(new =~= Seq::empty());
        assert(sc * x == x + x * factor(b.si.unwrap().shift)) by (nonlinear_arith)
            requires
                sc == 1 + factor(b.si.unwrap().shift),
        ;
    } else {
        let t = code.next_vreg();
        let c1 = code.imm(Size::S64, sc);
        let lo = c1.next_vreg();
        let hi = c1.with_vreg().next_vreg();
        let i1 = Inst::Imm { sz: Size::S64, dst: t, src: sc };
        let i2 = Inst::Mul { sz: Size::S64, dst_lo: lo, dst_hi: hi, src1: reg, src2: RegMem::Reg(t) };
        assert(new =~= seq![i1, i2]);
        let regs0 = regs.insert(t, sc as int);
        let p = x * sc;
        let regs1 = regs0.insert(lo, p % word()).insert(hi, p / word());
        assert(step(i1, place, regs) == regs0);
        assert(step(i2, place, regs0) == regs1);
        assert(new.drop_first() =~= seq![i2]);
        assert(seq![i2].drop_first() =~= Seq::empty());
        reveal_with_fuel(run, 3);
        assert(run(new, place, regs) == regs1);
        assert(p == sc * x) by (nonlinear_arith)
            requires
                p == x * sc,
        ;
        lemma_sum_mod(p, address(a, place, regs));
    }
}

/// A summand can be reduced before the sum is.
proof fn lemma_sum_mod(x: int, y: int)
    ensures
        (x % word() + y) % word() == (x + y) % word(),
        (y + x % word()) % word() == (y + x) % word(),
{
    lemma_add_mod_noop(x % word(), y, word());
    lemma_add_mod_noop(x, y, word());
    lemma_mod_twice(x, word());
}

// ---------------------------------------------------------------------------------------------
// Copies

/// What is in the registers, and in memory at each address. All values are of the size of a copy.
pub struct Machine {
    pub regs: Map<VReg, int>,
    pub mem: Map<int, int>,
}

impl Machine {
    /// The address that the machine computes.
    pub open spec fn at(self, a: AMode, place: spec_fn(Offset) -> int) -> int {
        address(a, place, self.regs) % word()
    }

    /// The value of an operand.
    pub open spec fn read(self, rm: RegMem, place: spec_fn(Offset) -> int) -> int {
        match rm {
            RegMem::Reg(r) => self.regs[r],
            RegMem::Mem(a) => self.mem[self.at(a, place)],
        }
    }

    /// The machine with another value in an operand.
    pub open spec fn write(self, rm: RegMem, place: spec_fn(Offset) -> int, v: int) -> Machine {
        match rm {
            RegMem::Reg(r) => Machine { regs: self.regs.insert(r, v), ..self },
            RegMem::Mem(a) => Machine { mem: self.mem.insert(self.at(a, place), v), ..self },
        }
    }

    /// What the instructions that copy do. Others are left open.
    pub open spec fn after(self, i: Inst, place: spec_fn(Offset) -> int) -> Machine {
        match i {
            Inst::MovRR { dst, src, .. } => self.write(RegMem::Reg(dst), place, self.regs[src]),
            Inst::Imm { dst, src, .. } => self.write(RegMem::Reg(dst), place, src as int),
            Inst::MovzxRmR { dst, src, .. } => self.write(
                RegMem::Reg(dst),
                place,
                self.read(src, place),
            ),
            Inst::Load64 { dst, src } => self.write(
                RegMem::Reg(dst),
                place,
                self.read(RegMem::Mem(src), place),
            ),
            Inst::Store { dst, src, .. } => self.write(RegMem::Mem(dst), place, self.regs[src]),
            _ => arbitrary(),
        }
    }

    /// What such instructions do one after the other.
    pub open spec fn after_all(self, insts: Seq<Inst>, place: spec_fn(Offset) -> int) -> Machine
        decreases insts.len(),
    {
        if insts.len() == 0 {
            self
        } else {
            self.after(insts[0], place).after_all(insts.drop_first(), place)
        }
    }
}

/// The value that is copied.
pub open spec fn copied(m: Machine, src: RegMemImm<u64>, place: spec_fn(Offset) -> int) -> int {
    match src {
        RegMemImm::Reg(r) => m.regs[r],
        RegMemImm::Mem(a) => m.read(RegMem::Mem(a), place),
        RegMemImm::Imm(n) => n as int,
        RegMemImm::Uninit => arbitrary(),
    }
}

/// Whether the registers in the destination of a copy are among the first `n`.
pub open spec fn dst_below(dst: RegMem, n: int) -> bool {
    match dst {
        RegMem::Reg(r) => r.index < n,
        RegMem::Mem(a) => regs_below(a, n),
    }
}

/// A copy puts the value into its destination. Apart from the destination, it leaves memory and the
/// registers that were in use as they were. An unwritten value changes nothing at all.
pub proof fn law_copy(
    code: Code<Inst>,
    sz: Size,
    dst: RegMem,
    src: RegMemImm<u64>,
    place: spec_fn(Offset) -> int,
    m: Machine,
)
    requires
        0 <= code.vregs,
        dst_below(dst, code.vregs),
        code.copy(sz, dst, src).vregs <= VREG_MAX,
    ensures
        ({
            let new = code.copy(sz, dst, src).insts.skip(code.insts.len() as int);
            let m1 = m.after_all(new, place);
            let want = m.write(dst, place, copied(m, src, place));
            &&& src is Uninit ==> m1 == m
            &&& !(src is Uninit) ==> m1.mem == want.mem && forall|v: VReg|
                v.index < code.vregs ==> #[trigger] m1.regs[v] == want.regs[v]
        }),
{
    reveal_with_fuel(Machine::after_all, 3);
    let code1 = code.copy(sz, dst, src);
    let new = code1.insts.skip(code.insts.len() as int);
    let t = code.next_vreg();
    match (dst, src) {
        (_, RegMemImm::Uninit) => {
            assert(new =~= Seq::empty());
        },
        (RegMem::Mem(a), RegMemImm::Mem(b)) => {
            let i1 = Inst::load(sz, t, b);
            let i2 = Inst::Store { sz, dst: a, src: t };
            assert(new =~= seq![i1, i2]);
            assert(new.drop_first() =~= seq![i2]);
            assert(seq![i2].drop_first() =~= Seq::empty());
        },
        (RegMem::Mem(a), RegMemImm::Imm(n)) => {
            let i1 = Inst::Imm { sz, dst: t, src: n };
            let i2 = Inst::Store { sz, dst: a, src: t };
            assert(new =~= seq![i1, i2]);
            assert(new.drop_first() =~= seq![i2]);
            assert(seq![i2].drop_first() =~= Seq::empty());
        },
        _ => {
            assert(new =~= seq![code1.insts.last()]);
            assert(new.drop_first() =~= Seq::empty());
        },
    }
}

} // verus!
