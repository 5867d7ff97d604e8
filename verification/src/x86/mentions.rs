//! Which registers an instruction reads and which it writes, and what the register allocator is told
//! of them.

use super::emit::Code;
use super::inst::{BlockId, Inst};
use super::laws::has_own_operands;
use super::mode::{AMode, Offset, RegMem, RegMemImm};
use super::ops::{Binop, Cmp, FlagBits, ShiftKind, Unop, CC};
use super::reg::{IsReg, Operand, OperandConstraint, OperandKind, OperandPos, PReg, VReg};
use super::reg::{RAX, RCX, RDX};
use crate::size::Size;
use vstd::prelude::*;
use vstd::std_specs::convert::{FromSpec, TryFromSpec};

verus! {

/// The registers that an address is computed from: the base, where there is one, and the index.
pub open spec fn address_sources(a: AMode) -> Seq<VReg> {
    let index = match a.si {
        Some(si) => seq![si.index],
        None => Seq::empty(),
    };
    if a.base == VReg::none() {
        index
    } else {
        seq![a.base] + index
    }
}

/// The registers that the value of an operand is got from.
pub open spec fn rm_sources(rm: RegMem) -> Seq<VReg> {
    match rm {
        RegMem::Reg(r) => seq![r],
        RegMem::Mem(a) => address_sources(a),
    }
}

/// The registers that the value of an operand is got from. A number needs none.
pub open spec fn rmi_sources(rmi: RegMemImm) -> Seq<VReg> {
    match rmi {
        RegMemImm::Reg(r) => seq![r],
        RegMemImm::Mem(a) => address_sources(a),
        RegMemImm::Imm(_) => Seq::empty(),
        RegMemImm::Uninit => Seq::empty(),
    }
}

/// The registers that an instruction reads.
pub open spec fn sources(i: Inst) -> Seq<VReg> {
    match i {
        Inst::Binop { src1, src2, .. } => seq![src1] + rmi_sources(src2),
        Inst::Unop { src, .. } => seq![src],
        Inst::DivRem { src1, src2, .. } => seq![src1] + rm_sources(src2),
        Inst::Mul { src1, src2, .. } => seq![src1] + rm_sources(src2),
        Inst::MovRR { src, .. } => seq![src],
        Inst::MovRP { src, .. } => seq![src],
        Inst::MovPR { src, .. } => seq![src.0],
        Inst::MovzxRmR { src, .. } => rm_sources(src),
        Inst::Load64 { src, .. } => address_sources(src),
        Inst::Lea { addr, .. } => address_sources(addr),
        Inst::MovsxRmR { src, .. } => rm_sources(src),
        Inst::Store { dst, src, .. } => seq![src] + address_sources(dst),
        Inst::ShiftImm { src, .. } => seq![src],
        Inst::ShiftRR { src, src2, .. } => seq![src, src2],
        Inst::Cmp { src1, src2, .. } => seq![src1] + rmi_sources(src2),
        Inst::CMov { src1, src2, .. } => seq![src1] + rm_sources(src2),
        Inst::Push64 { src } => rmi_sources(src),
        _ => Seq::empty(),
    }
}

/// The registers that an instruction writes.
pub open spec fn targets(i: Inst) -> Seq<VReg> {
    match i {
        Inst::Binop { dst, .. } => seq![dst],
        Inst::Unop { dst, .. } => seq![dst],
        Inst::DivRem { dst_div, dst_rem, .. } => seq![dst_div, dst_rem],
        Inst::Mul { dst_lo, dst_hi, .. } => seq![dst_lo, dst_hi],
        Inst::Imm { dst, .. } => seq![dst],
        Inst::MovRR { dst, .. } => seq![dst],
        Inst::MovRP { dst, .. } => seq![dst.0],
        Inst::MovPR { dst, .. } => seq![dst],
        Inst::MovzxRmR { dst, .. } => seq![dst],
        Inst::Load64 { dst, .. } => seq![dst],
        Inst::Lea { dst, .. } => seq![dst],
        Inst::MovsxRmR { dst, .. } => seq![dst],
        Inst::ShiftImm { dst, .. } => seq![dst],
        Inst::ShiftRR { dst, .. } => seq![dst],
        Inst::SetCC { dst, .. } => seq![dst],
        Inst::CMov { dst, .. } => seq![dst],
        Inst::Pop64 { dst } => seq![dst],
        _ => Seq::empty(),
    }
}

/// Whether an instruction is a move between registers.
pub open spec fn is_register_move(i: Inst) -> bool {
    i is MovRR || i is MovRP || i is MovPR
}

/// Every register that an instruction reads is among its operands as one that is read, and every
/// register that it writes as one that is written. What is read comes first, and there are no other
/// operands.
pub proof fn law_mentions(i: Inst)
    requires
        !has_own_operands(i),
        !is_register_move(i),
    ensures
        ({
            let ops = i.operands();
            let n = sources(i).len();
            &&& ops.len() == n + targets(i).len()
            &&& forall|k: int|
                0 <= k < n ==> (#[trigger] ops[k]).vreg == sources(i)[k] && ops[k].kind
                    == OperandKind::Use && ops[k].pos == OperandPos::Early
            &&& forall|k: int|
                n <= k < ops.len() ==> (#[trigger] ops[k]).vreg == targets(i)[k - n] && ops[k].kind
                    == OperandKind::Def && ops[k].pos == OperandPos::Late
        }),
{
    match i {
        Inst::Binop { src2, .. } => {
            lemma_rmi_sources(src2);
        },
        Inst::Cmp { src2, .. } => {
            lemma_rmi_sources(src2);
        },
        Inst::Push64 { src } => {
            lemma_rmi_sources(src);
        },
        Inst::Mul { src2, .. } => {
            lemma_rm_sources(src2);
        },
        Inst::DivRem { src2, .. } => {
            lemma_rm_sources(src2);
        },
        Inst::CMov { src2, .. } => {
            lemma_rm_sources(src2);
        },
        Inst::MovzxRmR { src, .. } => {
            lemma_rm_sources(src);
        },
        Inst::MovsxRmR { src, .. } => {
            lemma_rm_sources(src);
        },
        Inst::Load64 { src, .. } => {
            lemma_address_sources(src);
        },
        Inst::Lea { addr, .. } => {
            lemma_address_sources(addr);
        },
        Inst::Store { dst, .. } => {
            lemma_address_sources(dst);
        },
        _ => {},
    }
}

/// The registers in a row, each of them read from any register.
spec fn all_used(rs: Seq<VReg>) -> Seq<Operand> {
    Seq::new(rs.len(), |k: int| rs[k].used())
}

proof fn lemma_address_sources(a: AMode)
    ensures
        a.operands() == all_used(address_sources(a)),
{
    assert(a.operands() =~= all_used(address_sources(a)));
}

proof fn lemma_rm_sources(rm: RegMem)
    ensures
        rm.operands() == all_used(rm_sources(rm)),
{
    match rm {
        RegMem::Reg(_) => {
            assert(rm.operands() =~= all_used(rm_sources(rm)));
        },
        RegMem::Mem(a) => {
            lemma_address_sources(a);
        },
    }
}

proof fn lemma_rmi_sources(rmi: RegMemImm)
    ensures
        rmi.operands() == all_used(rmi_sources(rmi)),
{
    match rmi {
        RegMemImm::Mem(a) => {
            lemma_address_sources(a);
        },
        _ => {
            assert(rmi.operands() =~= all_used(rmi_sources(rmi)));
        },
    }
}

/// The machine register that the machine wants the operand number `k` of an instruction in, where
/// `n` operands are read. A product or a dividend is in RAX and RDX, and a shift count in RCX.
pub open spec fn wired(i: Inst, n: int, k: int) -> Option<u8> {
    if i is Mul || i is DivRem {
        if k == 0 || k == n {
            Some(RAX)
        } else if k == n + 1 {
            Some(RDX)
        } else {
            None
        }
    } else if i is ShiftRR && k == 1 {
        Some(RCX)
    } else {
        None
    }
}

/// Whether the machine overwrites the first register that the instruction reads.
pub open spec fn in_place(i: Inst) -> bool {
    i is Binop || i is Unop || i is ShiftImm || i is ShiftRR || i is CMov
}

/// An operand must be in the machine register that the machine wants it in. Where the machine
/// overwrites the first register that it reads, what is written must be in that register. All other
/// operands can be in any register.
pub proof fn law_constraints(i: Inst, k: int)
    requires
        !has_own_operands(i),
        !is_register_move(i),
        0 <= k < i.operands().len(),
    ensures
        ({
            let n = sources(i).len() as int;
            i.operands()[k].constraint == match wired(i, n, k) {
                Some(p) => OperandConstraint::FixedReg(PReg { hw: p }),
                None => if in_place(i) && k == n {
                    OperandConstraint::Reuse(0)
                } else {
                    OperandConstraint::Reg
                },
            }
        }),
{
    law_mentions(i);
}

/// An instruction that brings a list of operands has these as its operands.
pub proof fn law_own_operands(i: Inst)
    ensures
        i matches Inst::CallKnown { operands, .. } ==> i.operands() == operands@,
        i matches Inst::JmpKnown { params, .. } ==> i.operands() == params@,
        i matches Inst::Epilogue { params } ==> i.operands() == params@,
{
}

/// Where the value of an operand must be, where it is bound to a machine register or not.
pub open spec fn bound_to(p: Option<PReg>) -> OperandConstraint {
    match p {
        Some(p) => OperandConstraint::FixedReg(p),
        None => OperandConstraint::Reg,
    }
}

/// The machine registers that a move is bound to at its two ends.
pub open spec fn move_ends(i: Inst) -> (Option<PReg>, Option<PReg>) {
    match i {
        Inst::MovRP { dst, .. } => (None, Some(dst.1)),
        Inst::MovPR { src, .. } => (Some(src.1), None),
        _ => (None, None),
    }
}

/// The register allocator is told of every move between registers, and of nothing else, that it is
/// one: from the register that it reads to the register that it writes.
pub proof fn law_move_ends(i: Inst)
    ensures
        i.moved() is Some <==> is_register_move(i),
        i.moved() matches Some((from, to)) ==> {
            &&& sources(i) == seq![from.vreg]
            &&& targets(i) == seq![to.vreg]
            &&& from.kind == OperandKind::Use
            &&& to.kind == OperandKind::Def
            &&& from.constraint == bound_to(move_ends(i).0)
            &&& to.constraint == bound_to(move_ends(i).1)
        },
{
}

/// A call that returns may change the registers that it is said to change. Nothing else changes a
/// register that it does not mention.
pub proof fn law_clobbers(i: Inst)
    ensures
        i matches Inst::CallKnown { clobbers: Some(cl), .. } ==> i.clobbered() == cl@,
        i.clobbered().len() > 0 ==> i matches Inst::CallKnown { clobbers: Some(_), .. },
{
}

/// The size of the value that an instruction copies.
pub open spec fn copied_size(i: Inst) -> Option<Size> {
    match i {
        Inst::MovRR { sz, .. } => Some(sz),
        Inst::Imm { sz, .. } => Some(sz),
        Inst::Store { sz, .. } => Some(sz),
        Inst::MovzxRmR { ext_mode, .. } => Some(ext_mode.from_size()),
        Inst::Load64 { .. } => Some(Size::S64),
        _ => None,
    }
}

/// The instruction that loads a value reads as many bytes as the value has, from the given address
/// into the given register, and fills the register up with zeros.
pub proof fn law_loads(sz: Size, dst: VReg, src: AMode)
    requires
        sz != Size::Inf,
    ensures
        ({
            let i = Inst::load(sz, dst, src);
            &&& copied_size(i) == Some(sz)
            &&& targets(i) == seq![dst]
            &&& i matches Inst::MovzxRmR { ext_mode, src: s, .. } ==> ext_mode.to_size()
                == Size::S64 && s == RegMem::<VReg>::Mem(src)
            &&& i matches Inst::Load64 { src: s, .. } ==> s == src
            &&& i is MovzxRmR || i is Load64
        }),
{
}

/// All the instructions of a copy are of its size.
pub proof fn law_copy_sizes(code: Code<Inst>, sz: Size, dst: RegMem, src: RegMemImm<u64>, k: int)
    requires
        sz != Size::Inf,
        code.insts.len() <= k < code.copy(sz, dst, src).insts.len(),
    ensures
        copied_size(code.copy(sz, dst, src).insts[k]) == Some(sz),
{
}

/// The next virtual register is one that is not in use, and is in use afterwards.
pub proof fn law_fresh_registers(code: Code<Inst>, r: VReg)
    requires
        0 <= code.vregs <= u32::MAX,
        r.index < code.vregs,
    ensures
        code.next_vreg() != r,
        code.next_vreg().index < code.with_vreg().vregs,
        code.with_vreg().vregs == code.vregs + 1,
        code.with_vreg().insts == code.insts,
        code.with_vreg().spills == code.spills,
{
}

/// Single instructions are added after the others. They put their results into new registers, and
/// take their operands from where they are said to be.
pub proof fn law_single_instructions(
    code: Code<Inst>,
    sz: Size,
    a: AMode,
    n: u64,
    src1: VReg,
    src2: RegMem,
)
    requires
        sz != Size::Inf,
    ensures
        ({
            let i = code.lea(a).insts.last();
            &&& code.lea(a).insts.drop_last() == code.insts
            &&& code.lea(a).vregs == code.vregs + 1
            &&& targets(i) == seq![code.next_vreg()]
            &&& i matches Inst::Lea { addr, .. } && addr == a
        }),
        ({
            let i = code.imm(sz, n).insts.last();
            &&& code.imm(sz, n).insts.drop_last() == code.insts
            &&& code.imm(sz, n).vregs == code.vregs + 1
            &&& targets(i) == seq![code.next_vreg()]
            &&& copied_size(i) == Some(sz)
            &&& i matches Inst::Imm { src, .. } && src == n
        }),
        ({
            let i = code.mul(sz, src1, src2).insts.last();
            &&& code.mul(sz, src1, src2).insts.drop_last() == code.insts
            &&& code.mul(sz, src1, src2).vregs == code.vregs + 2
            &&& targets(i) == seq![code.next_vreg(), code.with_vreg().next_vreg()]
            &&& sources(i) == seq![src1] + rm_sources(src2)
            &&& i matches Inst::Mul { sz: s, src2: rm, .. } && s == sz && rm == src2
        }),
        ({
            let i = code.load(sz, a).insts.last();
            &&& code.load(sz, a).insts.drop_last() == code.insts
            &&& code.load(sz, a).vregs == code.vregs + 1
            &&& targets(i) == seq![code.next_vreg()]
            &&& sources(i) == address_sources(a)
            &&& copied_size(i) == Some(sz)
        }),
        code.lea(a).spills == code.spills,
        code.imm(sz, n).spills == code.spills,
        code.mul(sz, src1, src2).spills == code.spills,
        code.load(sz, a).spills == code.spills,
{
    assert(code.lea(a).insts.drop_last() =~= code.insts);
    assert(code.imm(sz, n).insts.drop_last() =~= code.insts);
    assert(code.mul(sz, src1, src2).insts.drop_last() =~= code.insts);
    assert(code.load(sz, a).insts.drop_last() =~= code.insts);
    law_loads(sz, code.next_vreg(), a);
}

/// The operands of conversions are the operands that are converted.
pub proof fn law_converted_operands(rm: RegMem, rmi: RegMemImm, off: Offset)
    ensures
        rmi_sources(<RegMemImm as FromSpec<RegMem>>::from_spec(rm)) == rm_sources(rm),
        <RegMemImm as FromSpec<RegMem>>::from_spec(rm) is Reg <==> rm is Reg,
        <RegMemImm<u64> as FromSpec<RegMemImm>>::from_spec(rmi).operands() == rmi.operands(),
        rmi matches RegMemImm::Imm(n) ==> (<RegMemImm<u64> as FromSpec<RegMemImm>>::from_spec(
            rmi,
        ) matches RegMemImm::Imm(m) && m == n),
        rmi is Uninit <==> <RegMemImm<u64> as FromSpec<RegMemImm>>::from_spec(rmi) is Uninit,
        address_sources(AMode::at(off)).len() == 0,
        AMode::<VReg>::at(off).off == off,
{
}

/// A wide offset is narrowed exactly where the number in it fits, and comes back when it is widened.
pub proof fn law_offset_narrowing(wide: Offset<u64>)
    ensures
        <Offset as TryFromSpec<Offset<u64>>>::try_from_spec(wide) is Ok <==> wide.amount()
            <= u32::MAX,
        <Offset as TryFromSpec<Offset<u64>>>::try_from_spec(wide) matches Ok(off) ==> <Offset<
            u64,
        > as FromSpec<Offset>>::from_spec(off) == wide,
{
}

// ---------------------------------------------------------------------------------------------
// Operations and conditions

/// The operand of an instruction that can be a number.
pub open spec fn wide_operand(i: Inst) -> Option<RegMemImm> {
    match i {
        Inst::Binop { src2, .. } => Some(src2),
        Inst::Cmp { src2, .. } => Some(src2),
        Inst::Push64 { src } => Some(src),
        _ => None,
    }
}

/// The size that an operation works at.
pub open spec fn worked_size(i: Inst) -> Option<Size> {
    match i {
        Inst::Binop { sz, .. } => Some(sz),
        Inst::Unop { sz, .. } => Some(sz),
        Inst::ShiftImm { sz, .. } => Some(sz),
        Inst::ShiftRR { sz, .. } => Some(sz),
        Inst::Cmp { sz, .. } => Some(sz),
        Inst::CMov { sz, .. } => Some(sz),
        _ => None,
    }
}

/// Operations are added after the others, at the size that is asked for. They read their operands in
/// the order in which these are given, and write a new register, but for a comparison, which writes
/// none.
pub proof fn law_operations(
    code: Code<Inst>,
    sz: Size,
    op: Binop,
    un: Unop,
    cm: Cmp,
    kind: ShiftKind,
    a: VReg,
    b: RegMemImm,
    amount: Result<u8, VReg>,
)
    ensures
        ({
            let c = code.binop(sz, op, a, b);
            let i = c.insts.last();
            &&& c == (Code { insts: code.insts.push(i), ..code.with_vreg() })
            &&& targets(i) == seq![code.next_vreg()]
            &&& sources(i) == seq![a] + rmi_sources(b)
            &&& wide_operand(i) == Some(b)
            &&& worked_size(i) == Some(sz)
            &&& i matches Inst::Binop { op: o, .. } && o == op
        }),
        ({
            let c = code.unop(sz, un, a);
            let i = c.insts.last();
            &&& c == (Code { insts: code.insts.push(i), ..code.with_vreg() })
            &&& targets(i) == seq![code.next_vreg()]
            &&& sources(i) == seq![a]
            &&& worked_size(i) == Some(sz)
            &&& i matches Inst::Unop { op: o, .. } && o == un
        }),
        ({
            let c = code.shift(sz, kind, a, amount);
            let i = c.insts.last();
            &&& c == (Code { insts: code.insts.push(i), ..code.with_vreg() })
            &&& targets(i) == seq![code.next_vreg()]
            &&& worked_size(i) == Some(sz)
            &&& match amount {
                Ok(n) => sources(i) == seq![a] && (i matches Inst::ShiftImm { kind: k, num_bits, .. }
                    && k == kind && num_bits == n),
                Err(r) => sources(i) == seq![a, r] && (i matches Inst::ShiftRR { kind: k, .. } && k
                    == kind),
            }
        }),
        ({
            let c = code.compare(sz, cm, a, b);
            let i = c.insts.last();
            &&& c == (Code { insts: code.insts.push(i), ..code })
            &&& targets(i) == Seq::<VReg>::empty()
            &&& sources(i) == seq![a] + rmi_sources(b)
            &&& wide_operand(i) == Some(b)
            &&& worked_size(i) == Some(sz)
            &&& i matches Inst::Cmp { op: o, .. } && o == cm
        }),
{
}

/// The value that an instruction puts into its register, where the flags are `f` and `read` gives the
/// values of operands.
pub open spec fn chosen(i: Inst, f: FlagBits, read: spec_fn(RegMem) -> int) -> Option<int> {
    match i {
        Inst::SetCC { cc, .. } => Some(
            if cc.holds(f) {
                1
            } else {
                0
            },
        ),
        Inst::CMov { cc, src1, src2, .. } => Some(
            if cc.holds(f) {
                read(src2)
            } else {
                read(RegMem::Reg(src1))
            },
        ),
        _ => None,
    }
}

/// The block that an instruction goes to, where the flags are `f`.
pub open spec fn goes_to(i: Inst, f: FlagBits) -> Option<BlockId> {
    match i {
        Inst::JmpCond { cc, taken, not_taken } => Some(
            if cc.holds(f) {
                taken
            } else {
                not_taken
            },
        ),
        _ => None,
    }
}

/// What is done with a condition depends on the flags as the condition says: it is one or zero, it
/// chooses one of two values, or it goes to one of two blocks.
pub proof fn law_conditions(
    code: Code<Inst>,
    sz: Size,
    cc: CC,
    f: FlagBits,
    read: spec_fn(RegMem) -> int,
    tru: RegMem,
    fal: VReg,
    yes: BlockId,
    no: BlockId,
)
    ensures
        ({
            let c = code.set(cc);
            let i = c.insts.last();
            &&& c == (Code { insts: code.insts.push(i), ..code.with_vreg() })
            &&& targets(i) == seq![code.next_vreg()]
            &&& chosen(i, f, read) == Some(cc.holds(f) as int)
        }),
        ({
            let c = code.select(sz, cc, tru, fal);
            let i = c.insts.last();
            &&& c == (Code { insts: code.insts.push(i), ..code.with_vreg() })
            &&& targets(i) == seq![code.next_vreg()]
            &&& worked_size(i) == Some(sz)
            &&& cc.holds(f) ==> chosen(i, f, read) == Some(read(tru))
            &&& !cc.holds(f) ==> chosen(i, f, read) == Some(read(RegMem::Reg(fal)))
        }),
        ({
            let c = code.branch(cc, yes, no);
            let i = c.insts.last();
            &&& c == (Code { insts: code.insts.push(i), ..code })
            &&& cc.holds(f) ==> goes_to(i, f) == Some(yes)
            &&& !cc.holds(f) ==> goes_to(i, f) == Some(no)
        }),
{
}

} // verus!
