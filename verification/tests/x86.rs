use mmc::size::Size;
use mmc::x86::emit::VCode;
use mmc::x86::inst::{BlockId, Inst, InstId, ProcId};
use mmc::x86::layout::{DispLayout, InstLayout, ModRMLayout, OpcodeLayout, PAMode, PInst, PRegMemImm};
use mmc::x86::mode::{AMode, ConstId, GlobalId, Offset, RegMem, RegMemImm, ShiftIndex, SpillId};
use mmc::x86::ops::{Binop, Cmp, ExtMode, ShiftKind, Unop, CC};
use mmc::x86::reg::{arg_regs, callee_saved, caller_saved, large_preg, machine_env};
use mmc::x86::reg::{IsReg, Operand, OperandConstraint, OperandKind, OperandPos, PReg, PRegSet, VReg};
use mmc::x86::reg::{R8, RAX, RBP, RBX, RCX, RDX, RSP, SCRATCH};
use mmc::x86::text::ShowReg;
use std::convert::TryFrom;

fn v(index: u32) -> VReg {
    VReg { index }
}

fn p(hw: u8) -> PReg {
    PReg { hw }
}

fn code(vregs: usize) -> VCode<Inst> {
    VCode { insts: vec![], num_vregs: vregs, spills: vec![] }
}

fn dump(code: &VCode<Inst>) -> Vec<String> {
    code.insts.iter().map(|i| format!("{:?}", i)).collect()
}

fn same(i: &Inst, j: Inst) -> bool {
    format!("{:?}", i) == format!("{:?}", j)
}

// ---------------------------------------------------------------------------------------------
// Registers

#[test]
fn register_lists() {
    let hw = |rs: Vec<PReg>| rs.iter().map(|r| r.hw).collect::<Vec<u8>>();
    assert_eq!(hw(arg_regs()), vec![7, 6, 2, 1, 8, 9]);
    assert_eq!(hw(caller_saved()), vec![0, 7, 6, 2, 1, 8, 9, 10]);
    assert_eq!(hw(callee_saved()), vec![3, 5, 12, 13, 14, 15]);
}

#[test]
fn registers_of_the_allocator_are_disjoint() {
    let env = machine_env();
    assert_eq!(env.scratch, p(SCRATCH));
    assert_eq!(env.regs.len(), 15);
    let mut set = PRegSet::default();
    for r in &env.regs {
        assert!(!set.get(*r));
        set.insert(*r);
        assert!(set.get(*r));
    }
    assert!(!set.get(p(RSP)));
    for r in arg_regs() {
        assert!(env.preferred.contains(&r));
    }
}

#[test]
fn large_registers() {
    for hw in 0..16u8 {
        assert_eq!(large_preg(p(hw)), hw >= 8);
    }
}

#[test]
fn invalid_registers() {
    assert_eq!(VReg::invalid(), v(2097151));
    assert_eq!(PReg::invalid(), p(63));
    assert!(!v(2097151).is_valid());
    assert!(v(0).is_valid());
    assert!(!p(63).is_valid());
    assert!(p(RAX).is_valid());
}

// ---------------------------------------------------------------------------------------------
// Operations

#[test]
fn conditions_and_their_opposites() {
    let all = [
        CC::O, CC::NO, CC::B, CC::NB, CC::Z, CC::NZ, CC::BE, CC::NBE, CC::S, CC::NS, CC::P, CC::NP,
        CC::L, CC::NL, CC::LE, CC::NLE,
    ];
    for (i, cc) in all.iter().enumerate() {
        assert_eq!(cc.code() as usize, i);
        assert_eq!(cc.invert().code(), cc.code() ^ 1);
        assert_eq!(cc.invert().invert(), *cc);
    }
}

#[test]
fn operation_codes() {
    assert_eq!(Binop::Add.code(), 0);
    assert_eq!(Binop::Sub.code(), 5);
    assert_eq!(Binop::Xor.code(), 6);
    assert_eq!(Unop::Inc.code(), 0);
    assert_eq!(Unop::Neg.code(), 3);
}

#[test]
fn extension_modes() {
    assert_eq!(ExtMode::new(Size::S8, Size::S16), Some(ExtMode::BL));
    assert_eq!(ExtMode::new(Size::S8, Size::S64), Some(ExtMode::BQ));
    assert_eq!(ExtMode::new(Size::S16, Size::S32), Some(ExtMode::WL));
    assert_eq!(ExtMode::new(Size::S16, Size::S16), None);
    assert_eq!(ExtMode::new(Size::S64, Size::S32), None);
    assert_eq!(ExtMode::new(Size::S8, Size::Inf), None);
    for m in [ExtMode::BL, ExtMode::BQ, ExtMode::WL, ExtMode::WQ, ExtMode::LQ] {
        assert_eq!(ExtMode::new(m.src(), m.dst()), Some(m));
    }
}

#[test]
fn sizes_in_bytes() {
    assert_eq!(Size::S8.bytes(), Some(1));
    assert_eq!(Size::S64.bytes(), Some(8));
    assert_eq!(Size::Inf.bytes(), None);
}

// ---------------------------------------------------------------------------------------------
// Offsets and addresses

#[test]
fn offsets_convert() {
    assert_eq!(Offset::from(-1i32), Offset::Real(u32::MAX));
    assert_eq!(Offset::from(7i32), Offset::Real(7u32));
    assert!(Offset::from(7i8) == Offset::Real(7i8));
    assert_eq!(Offset::<u64>::from(9u64), Offset::Real(9));
    let off: Offset = Offset::Global(GlobalId(2), u32::MAX);
    let wide: Offset<u64> = off.into();
    assert_eq!(wide, Offset::Global(GlobalId(2), u32::MAX as u64));
    assert_eq!(Offset::<u32>::try_from(wide), Ok(off));
    assert!(Offset::<u32>::try_from(wide + 1).is_err());
    assert_eq!(Offset::<u32>::zero(), Offset::Real(0));
    assert_eq!(Offset::zero64(), Offset::Real(0));
}

#[test]
fn offsets_add() {
    assert_eq!(Offset::Real(3u32) + 4, Offset::Real(7));
    assert_eq!(Offset::Spill(SpillId(1), 3u32) + 4, Offset::Spill(SpillId(1), 7));
    let a: AMode = AMode::const_(ConstId(5));
    assert_eq!((&a + 8).off, Offset::Const(ConstId(5), 8));
}

#[test]
fn simple_addresses() {
    let a: AMode = AMode::reg(v(3));
    assert_eq!(a, AMode { off: Offset::Real(0), base: v(3), si: None });
    let a: AMode = AMode::spill(SpillId(4));
    assert_eq!(a, AMode { off: Offset::Spill(SpillId(4), 0), base: VReg::invalid(), si: None });
    let a: PAMode = AMode::global(GlobalId(1));
    assert_eq!(a, AMode { off: Offset::Global(GlobalId(1), 0), base: PReg::invalid(), si: None });
}

#[test]
fn operands_convert() {
    let a: AMode = AMode::reg(v(1));
    assert_eq!(RegMem::from(v(1)), RegMem::Reg(v(1)));
    assert_eq!(RegMem::from(a), RegMem::Mem(a));
    assert_eq!(RegMemImm::<u32>::from(v(1)), RegMemImm::Reg(v(1)));
    assert_eq!(RegMemImm::<u32>::from(RegMem::Mem(a)), RegMemImm::Mem(a));
    assert_eq!(RegMemImm::from(5u32), RegMemImm::Imm(5));
    assert_eq!(RegMemImm::<u64>::from(RegMemImm::Imm(5u32)), RegMemImm::Imm(5u64));
    assert_eq!(RegMemImm::<u64>::from(RegMemImm::<u32>::Uninit), RegMemImm::Uninit);
}

// ---------------------------------------------------------------------------------------------
// Operands of instructions

fn operands(i: Inst) -> Vec<Operand> {
    let mut args = vec![];
    i.collect_operands(&mut args);
    args
}

fn use_(r: u32) -> Operand {
    Operand { vreg: v(r), constraint: OperandConstraint::Reg, kind: OperandKind::Use, pos: OperandPos::Early }
}

fn def(r: u32) -> Operand {
    Operand { vreg: v(r), constraint: OperandConstraint::Reg, kind: OperandKind::Def, pos: OperandPos::Late }
}

fn reuse(r: u32) -> Operand {
    Operand { constraint: OperandConstraint::Reuse(0), ..def(r) }
}

fn use_in(r: u32, hw: u8) -> Operand {
    Operand { constraint: OperandConstraint::FixedReg(p(hw)), ..use_(r) }
}

fn def_in(r: u32, hw: u8) -> Operand {
    Operand { constraint: OperandConstraint::FixedReg(p(hw)), ..def(r) }
}

#[test]
fn operands_of_instructions() {
    let a = AMode { off: Offset::Real(4), base: v(7), si: Some(ShiftIndex { index: v(8), shift: 2 }) };
    let sz = Size::S64;
    assert_eq!(operands(Inst::Imm { sz, dst: v(1), src: 5 }), vec![def(1)]);
    assert_eq!(operands(Inst::Unop { op: Unop::Neg, sz, dst: v(1), src: v(2) }), vec![use_(2), reuse(1)]);
    assert_eq!(
        operands(Inst::Binop { op: Binop::Add, sz, dst: v(1), src1: v(2), src2: RegMemImm::Mem(a) }),
        vec![use_(2), use_(7), use_(8), reuse(1)]
    );
    assert_eq!(
        operands(Inst::Binop { op: Binop::Add, sz, dst: v(1), src1: v(2), src2: RegMemImm::Imm(3) }),
        vec![use_(2), reuse(1)]
    );
    assert_eq!(
        operands(Inst::Mul { sz, dst_lo: v(1), dst_hi: v(2), src1: v(3), src2: RegMem::Reg(v(4)) }),
        vec![use_in(3, RAX), use_(4), def_in(1, RAX), def_in(2, RDX)]
    );
    assert_eq!(
        operands(Inst::DivRem { sz, dst_div: v(1), dst_rem: v(2), src1: v(3), src2: RegMem::Mem(a) }),
        vec![use_in(3, RAX), use_(7), use_(8), def_in(1, RAX), def_in(2, RDX)]
    );
    assert_eq!(
        operands(Inst::ShiftRR { sz, kind: ShiftKind::Shl, dst: v(1), src: v(2), src2: v(3) }),
        vec![use_(2), use_in(3, RCX), reuse(1)]
    );
    assert_eq!(operands(Inst::Store { sz, dst: AMode::spill(SpillId(0)), src: v(2) }), vec![use_(2)]);
    assert_eq!(operands(Inst::Lea { dst: v(1), addr: a }), vec![use_(7), use_(8), def(1)]);
    assert_eq!(operands(Inst::Cmp { sz, op: Cmp::Test, src1: v(1), src2: RegMemImm::Reg(v(2)) }), vec![use_(1), use_(2)]);
    assert_eq!(
        operands(Inst::CMov { sz, cc: CC::Z, dst: v(1), src1: v(2), src2: RegMem::Reg(v(3)) }),
        vec![use_(2), use_(3), reuse(1)]
    );
    assert_eq!(operands(Inst::Push64 { src: RegMemImm::Uninit }), vec![]);
    assert_eq!(operands(Inst::Epilogue { params: vec![use_in(1, RBX)] }), vec![use_in(1, RBX)]);
    assert_eq!(operands(Inst::JmpCond { cc: CC::Z, taken: BlockId(1), not_taken: BlockId(2) }), vec![]);
}

#[test]
fn operands_are_appended() {
    let mut args = vec![def(9)];
    Inst::Pop64 { dst: v(1) }.collect_operands(&mut args);
    assert_eq!(args, vec![def(9), def(1)]);
}

#[test]
fn moves_have_no_operands() {
    let sz = Size::S64;
    let i = Inst::MovRR { sz, dst: v(1), src: v(2) };
    assert_eq!(i.is_move(), Some((use_(2), def(1))));
    assert_eq!(operands(i), vec![]);
    let i = Inst::MovRP { sz, dst: (v(1), p(RBX)), src: v(2) };
    assert_eq!(i.is_move(), Some((use_(2), def_in(1, RBX))));
    let i = Inst::MovPR { sz, dst: v(1), src: (v(2), p(R8)) };
    assert_eq!(i.is_move(), Some((use_in(2, R8), def(1))));
    assert_eq!(Inst::Ud2.is_move(), None);
}

#[test]
fn kinds_of_instructions() {
    let call = Inst::CallKnown { f: ProcId(1), operands: vec![], clobbers: Some(vec![p(RAX)]) };
    assert!(call.is_call() && !call.is_ret() && !call.is_branch());
    assert_eq!(call.clobbers(), &[p(RAX)]);
    let call = Inst::CallKnown { f: ProcId(1), operands: vec![], clobbers: None };
    assert!(call.clobbers().is_empty());
    assert!(Inst::Epilogue { params: vec![] }.is_ret());
    let jmp = Inst::JmpKnown { dst: BlockId(0), params: vec![] };
    assert!(jmp.is_branch());
    assert_eq!(jmp.branch_blockparam_arg_offset(), 0);
    assert!(!Inst::Fallthrough { dst: BlockId(0) }.is_branch());
}

// ---------------------------------------------------------------------------------------------
// Emission

#[test]
fn registers_and_slots_are_fresh() {
    let mut c = code(5);
    assert_eq!((c.fresh_vreg(), c.fresh_vreg(), c.num_vregs), (v(5), v(6), 7));
    assert_eq!((c.fresh_spill(8), c.fresh_spill(4)), (SpillId(0), SpillId(1)));
    assert_eq!(c.spills, vec![8, 4]);
    assert_eq!((c.emit(Inst::Ud2), c.emit(Inst::Ud2)), (InstId(0), InstId(1)));
}

#[test]
fn operations_are_emitted() {
    let mut c = code(10);
    let sz = Size::S32;
    assert_eq!(c.emit_binop(sz, Binop::Sub, v(1), 7u32), v(10));
    assert_eq!(c.emit_unop(sz, Unop::Not, v(1)), v(11));
    assert_eq!(c.emit_imm(sz, 9u32), v(12));
    assert_eq!(c.emit_mul(sz, v(1), v(2)), (v(13), v(14)));
    assert_eq!(c.emit_shift(sz, ShiftKind::ShrA, v(1), Ok(3)), v(15));
    assert_eq!(c.emit_shift(sz, ShiftKind::Shl, v(1), Err(v(2))), v(16));
    assert!(same(&c.insts[0], Inst::Binop { sz, op: Binop::Sub, dst: v(10), src1: v(1), src2: RegMemImm::Imm(7) }));
    assert!(same(&c.insts[1], Inst::Unop { sz, op: Unop::Not, dst: v(11), src: v(1) }));
    assert!(same(&c.insts[2], Inst::Imm { sz, dst: v(12), src: 9 }));
    assert!(same(&c.insts[3], Inst::Mul { sz, dst_lo: v(13), dst_hi: v(14), src1: v(1), src2: RegMem::Reg(v(2)) }));
    assert!(same(&c.insts[4], Inst::ShiftImm { sz, kind: ShiftKind::ShrA, num_bits: 3, dst: v(15), src: v(1) }));
    assert!(same(&c.insts[5], Inst::ShiftRR { sz, kind: ShiftKind::Shl, dst: v(16), src: v(1), src2: v(2) }));
}

#[test]
fn conversion_to_the_same_type_changes_nothing() {
    let mut c = code(0);
    c.emit_binop(Size::S64, Binop::And, v(1), RegMemImm::Imm(7u32));
    c.emit_imm(Size::S64, u64::MAX);
    assert!(same(&c.insts[0], Inst::Binop { sz: Size::S64, op: Binop::And, dst: v(0), src1: v(1), src2: RegMemImm::Imm(7) }));
    assert!(same(&c.insts[1], Inst::Imm { sz: Size::S64, dst: v(1), src: u64::MAX }));
}

#[test]
fn flags_are_used() {
    let mut c = code(3);
    let sz = Size::S64;
    assert_eq!(c.emit_cmp(sz, Cmp::Cmp, CC::L, v(0), 1u32).into_reg(), v(3));
    assert_eq!(c.emit_cmp(sz, Cmp::Test, CC::Z, v(0), v(1)).select(sz, v(1), v(2)), v(4));
    assert_eq!(c.emit_cmp(sz, Cmp::Test, CC::Z, v(0), v(1)).trap_if(), InstId(5));
    assert_eq!(c.emit_cmp(sz, Cmp::Test, CC::Z, v(0), v(1)).branch(BlockId(1), BlockId(2)), InstId(7));
    assert!(same(&c.insts[0], Inst::Cmp { sz, op: Cmp::Cmp, src1: v(0), src2: RegMemImm::Imm(1) }));
    assert!(same(&c.insts[1], Inst::SetCC { cc: CC::L, dst: v(3) }));
    assert!(same(&c.insts[3], Inst::CMov { sz, cc: CC::Z, dst: v(4), src1: v(2), src2: RegMem::Reg(v(1)) }));
    assert!(same(&c.insts[5], Inst::TrapIf { cc: CC::Z }));
    assert!(same(&c.insts[7], Inst::JmpCond { cc: CC::Z, taken: BlockId(1), not_taken: BlockId(2) }));
}

#[test]
fn copies() {
    let sz = Size::S32;
    let a: AMode = AMode::reg(v(1));
    let b: AMode = AMode::global(GlobalId(0));
    let copy = |dst: RegMem, src: RegMemImm<u64>| {
        let mut c = code(5);
        c.emit_copy(sz, dst, src);
        c
    };
    assert!(dump(&copy(RegMem::Mem(a), RegMemImm::Uninit)).is_empty());
    assert!(same(&copy(RegMem::Reg(v(2)), RegMemImm::Reg(v(3))).insts[0], Inst::MovRR { sz, dst: v(2), src: v(3) }));
    assert!(same(
        &copy(RegMem::Reg(v(2)), RegMemImm::Mem(a)).insts[0],
        Inst::MovzxRmR { ext_mode: ExtMode::LQ, dst: v(2), src: RegMem::Mem(a) }
    ));
    assert!(same(&copy(RegMem::Reg(v(2)), RegMemImm::Imm(6)).insts[0], Inst::Imm { sz, dst: v(2), src: 6 }));
    assert!(same(&copy(RegMem::Mem(a), RegMemImm::Reg(v(3))).insts[0], Inst::Store { sz, dst: a, src: v(3) }));
    // Through a register.
    let c = copy(RegMem::Mem(a), RegMemImm::Mem(b));
    assert_eq!((c.insts.len(), c.num_vregs), (2, 6));
    assert!(same(&c.insts[0], Inst::MovzxRmR { ext_mode: ExtMode::LQ, dst: v(5), src: RegMem::Mem(b) }));
    assert!(same(&c.insts[1], Inst::Store { sz, dst: a, src: v(5) }));
    let c = copy(RegMem::Mem(a), RegMemImm::Imm(6));
    assert!(same(&c.insts[0], Inst::Imm { sz, dst: v(5), src: 6 }));
    assert!(same(&c.insts[1], Inst::Store { sz, dst: a, src: v(5) }));
}

#[test]
fn loads() {
    let a: AMode = AMode::reg(v(1));
    let load = |sz: Size| format!("{:?}", Inst::load_mem(sz, v(0), a));
    let ext = |ext_mode: ExtMode| format!("{:?}", Inst::MovzxRmR { ext_mode, dst: v(0), src: RegMem::Mem(a) });
    assert_eq!(load(Size::S8), ext(ExtMode::BQ));
    assert_eq!(load(Size::S16), ext(ExtMode::WQ));
    assert_eq!(load(Size::S32), ext(ExtMode::LQ));
    assert_eq!(load(Size::S64), format!("{:?}", Inst::Load64 { dst: v(0), src: a }));
    let mut c = code(3);
    assert_eq!(a.emit_load(&mut c, Size::S64), v(3));
    assert_eq!(RegMem::Mem(a).emit_deref(&mut c, Size::S64), AMode::reg(v(4)));
    assert_eq!(RegMem::Reg(v(2)).emit_deref(&mut c, Size::S64), AMode::reg(v(2)));
    assert_eq!(c.insts.len(), 2);
}

#[test]
fn operands_into_places() {
    let mut c = code(3);
    let a: AMode = AMode::reg(v(1));
    assert_eq!(RegMem::Reg(v(2)).into_reg(&mut c, Size::S8), v(2));
    assert_eq!(RegMem::Mem(a).into_mem(&mut c, Size::S8), a);
    assert!(c.insts.is_empty());
    let slot = RegMem::Reg(v(2)).into_mem(&mut c, Size::S16);
    assert_eq!(slot, AMode::spill(SpillId(0)));
    assert_eq!(c.spills, vec![2]);
    assert!(same(&c.insts[0], Inst::Store { sz: Size::S16, dst: slot, src: v(2) }));
    assert_eq!(RegMemImm::Imm(8u32).into_rm(&mut c, Size::S32), RegMem::Reg(v(3)));
    assert_eq!(RegMemImm::<u32>::Uninit.into_reg(&mut c, Size::S32), v(4));
    assert_eq!(c.insts.len(), 2);
    let slot = RegMemImm::Imm(8u64).into_mem(&mut c, Size::S64);
    assert_eq!(slot, AMode::spill(SpillId(1)));
    assert!(same(&c.insts[2], Inst::Imm { sz: Size::S64, dst: v(5), src: 8 }));
    assert!(same(&c.insts[3], Inst::Store { sz: Size::S64, dst: slot, src: v(5) }));
}

#[test]
fn large_numbers_go_to_registers() {
    let mut c = code(0);
    // No 32 bit immediate stands for one of these at every size.
    for (k, i) in [0x8000_0000u64, u32::MAX as u64, 1 << 32, u64::MAX].into_iter().enumerate() {
        assert_eq!(RegMemImm::Imm(i).into_rmi_32(&mut c), RegMemImm::Reg(v(k as u32)));
        assert!(same(&c.insts[k], Inst::Imm { sz: Size::S64, dst: v(k as u32), src: i }));
    }
}

#[test]
fn narrow_immediates_keep_small_numbers() {
    let mut c = code(0);
    assert_eq!(RegMemImm::Imm(0x7fff_ffffu64).into_rmi_32(&mut c), RegMemImm::Imm(0x7fff_ffff));
    assert_eq!(RegMemImm::<u64>::Reg(v(4)).into_rmi_32(&mut c), RegMemImm::Reg(v(4)));
    assert_eq!(RegMemImm::<u64>::Uninit.into_rmi_32(&mut c), RegMemImm::Uninit);
    assert!(c.insts.is_empty());
}

#[test]
fn scaled_addresses() {
    let none = VReg::invalid();
    let at = |base: VReg, si: Option<ShiftIndex>| AMode { off: Offset::Real(16), base, si };
    let si = |index: u32, shift: u8| Some(ShiftIndex { index: v(index), shift });
    let add = |a: AMode, sc: u64| {
        let mut c = code(10);
        let r = a.add_scaled(&mut c, sc, v(2));
        (r, c.insts.len(), c.num_vregs)
    };
    // The register becomes the base, or is shifted, or both.
    assert_eq!(add(at(none, None), 1), (at(v(2), None), 0, 10));
    assert_eq!(add(at(none, si(3, 2)), 1), (at(v(2), si(3, 2)), 0, 10));
    assert_eq!(add(at(v(1), None), 1), (at(v(1), si(2, 0)), 0, 10));
    assert_eq!(add(at(v(1), None), 4), (at(v(1), si(2, 2)), 0, 10));
    assert_eq!(add(at(none, None), 8), (at(none, si(2, 3)), 0, 10));
    assert_eq!(add(at(none, None), 3), (at(v(2), si(2, 1)), 0, 10));
    assert_eq!(add(at(none, None), 9), (at(v(2), si(2, 3)), 0, 10));
    // A spill slot has no room for a base.
    let slot = AMode { off: Offset::Spill(SpillId(0), 0), base: none, si: None };
    assert_eq!(add(slot, 1).0, AMode { si: si(2, 0), ..slot });
    // A product.
    assert_eq!(add(at(v(1), None), 3), (at(v(1), si(11, 0)), 2, 13));
    assert_eq!(add(at(none, None), 6), (at(none, si(11, 0)), 2, 13));
    // The address goes into a register first.
    let full = at(v(1), si(3, 1));
    assert_eq!(add(full, 2), (AMode { off: Offset::Real(0), base: v(10), si: si(2, 1) }, 1, 11));
    assert_eq!(add(full, 7), (AMode { off: Offset::Real(0), base: v(10), si: si(12, 0) }, 3, 14));
}

#[test]
fn a_scaled_address_comes_to_the_sum() {
    // Runs the few instructions that are emitted.
    let value = |a: &AMode, regs: &[u64]| {
        let off = match a.off {
            Offset::Real(n) => n as u64,
            _ => panic!(),
        };
        let base = if a.base.is_valid() { regs[a.base.index as usize] } else { 0 };
        let scaled = a.si.map_or(0, |si| regs[si.index.index as usize] << si.shift);
        off.wrapping_add(base).wrapping_add(scaled)
    };
    for sc in 0..20u64 {
        for base in [VReg::invalid(), v(0)] {
            for si in [None, Some(ShiftIndex { index: v(1), shift: 3 })] {
                let a = AMode { off: Offset::Real(5), base, si };
                let mut regs = vec![1000, 77, 13];
                let before = value(&a, &regs);
                let mut c = code(3);
                let b = a.add_scaled(&mut c, sc, v(2));
                for i in &c.insts {
                    match i {
                        Inst::Lea { addr, .. } => {
                            let n = value(addr, &regs);
                            regs.push(n);
                        }
                        Inst::Imm { src, .. } => regs.push(*src),
                        Inst::Mul { src1, src2: RegMem::Reg(r), .. } => {
                            let n = regs[src1.index as usize] * regs[r.index as usize];
                            regs.push(n);
                            regs.push(0);
                        }
                        i => panic!("{:?}", i),
                    }
                }
                assert_eq!(value(&b, &regs), before + sc * 13);
            }
        }
    }
}

// ---------------------------------------------------------------------------------------------
// Layouts

fn mem(off: Offset, base: u8, si: Option<u8>) -> PAMode {
    AMode { off, base: p(base), si: si.map(|i| ShiftIndex { index: p(i), shift: 1 }) }
}

fn load(a: PAMode) -> OpcodeLayout {
    PInst::Load64 { dst: p(RAX), src: a }.layout_inst().opc
}

#[test]
fn layouts_of_addresses() {
    let none = 63;
    let reg = |m: ModRMLayout| OpcodeLayout::MovReg(m);
    assert_eq!(load(mem(Offset::Real(0), none, None)), reg(ModRMLayout::Sib0));
    assert_eq!(load(mem(Offset::Real(0), RBX, None)), reg(ModRMLayout::Disp(DispLayout::S0)));
    assert_eq!(load(mem(Offset::Real(127), RBX, None)), reg(ModRMLayout::Disp(DispLayout::S8)));
    assert_eq!(load(mem(Offset::Real(128), RBX, None)), reg(ModRMLayout::Disp(DispLayout::S32)));
    assert_eq!(load(mem(Offset::Real(0xffff_ff80), RBX, None)), reg(ModRMLayout::Disp(DispLayout::S8)));
    assert_eq!(load(mem(Offset::Real(0xffff_ff7f), RBX, None)), reg(ModRMLayout::Disp(DispLayout::S32)));
    assert_eq!(load(mem(Offset::Global(GlobalId(0), 0), RBX, None)), reg(ModRMLayout::Disp(DispLayout::S32)));
    // RSP and R12 take a SIB byte.
    assert_eq!(load(mem(Offset::Real(0), RSP, None)), reg(ModRMLayout::SibReg(DispLayout::S0)));
    assert_eq!(load(mem(Offset::Real(0), 12, None)), reg(ModRMLayout::SibReg(DispLayout::S0)));
    assert_eq!(load(mem(Offset::Real(0), RBX, Some(RAX))), reg(ModRMLayout::SibReg(DispLayout::S0)));
    assert_eq!(load(mem(Offset::Real(0), RBP, Some(RAX))), reg(ModRMLayout::SibReg(DispLayout::S8)));
}

#[test]
fn the_base_of_a_spill_slot_is_the_stack_pointer() {
    let a: PAMode = AMode::spill(SpillId(0));
    assert_eq!(a.base(), p(RSP));
    assert_eq!(mem(Offset::Real(0), RBX, None).base(), p(RBX));
}

fn len(i: PInst) -> u8 {
    let (lo, hi) = i.len_bound();
    assert!(1 <= lo && lo <= hi && hi <= 10);
    assert_eq!(hi, i.len());
    i.len()
}

#[test]
fn lengths_of_operations() {
    let binop = |sz: Size, dst: u8, src: PRegMemImm| len(PInst::Binop { op: Binop::Add, sz, dst: p(dst), src });
    assert_eq!(binop(Size::S32, RBX, PRegMemImm::Reg(p(RAX))), 2);
    assert_eq!(binop(Size::S64, RBX, PRegMemImm::Reg(p(RAX))), 3);
    assert_eq!(binop(Size::S32, RBX, PRegMemImm::Reg(p(R8))), 3);
    assert_eq!(binop(Size::S32, RAX, PRegMemImm::Imm(1)), 3);
    assert_eq!(binop(Size::S32, RAX, PRegMemImm::Imm(1000)), 5);
    assert_eq!(binop(Size::S32, RBX, PRegMemImm::Imm(1000)), 6);
    assert_eq!(binop(Size::S64, RBX, PRegMemImm::Imm(u32::MAX)), 4);
    let test = |sz: Size, src1: u8, src2: PRegMemImm| len(PInst::Cmp { sz, op: Cmp::Test, src1: p(src1), src2 });
    assert_eq!(test(Size::S8, RAX, PRegMemImm::Imm(1)), 2);
    assert_eq!(test(Size::S32, RAX, PRegMemImm::Imm(1)), 5);
    assert_eq!(test(Size::S8, RBX, PRegMemImm::Imm(1)), 3);
    assert_eq!(test(Size::S64, RBX, PRegMemImm::Imm(1)), 7);
    assert_eq!(test(Size::S64, RBX, PRegMemImm::Reg(p(RAX))), 3);
    assert_eq!(len(PInst::Cmp { sz: Size::S32, op: Cmp::Cmp, src1: p(RAX), src2: PRegMemImm::Imm(1000) }), 5);
    assert_eq!(len(PInst::Unop { op: Unop::Neg, sz: Size::S32, dst: p(RBX) }), 2);
    assert_eq!(len(PInst::Mul { sz: Size::S64, src: RegMem::Reg(p(RBX)) }), 3);
    assert_eq!(len(PInst::DivRem { sz: Size::S32, src: RegMem::Mem(mem(Offset::Real(0), 63, None)) }), 7);
    assert_eq!(len(PInst::Shift { sz: Size::S32, kind: ShiftKind::Shl, dst: p(RBX), num_bits: None }), 2);
    assert_eq!(len(PInst::Shift { sz: Size::S32, kind: ShiftKind::Shl, dst: p(RBX), num_bits: Some(1) }), 3);
    assert_eq!(len(PInst::SetCC { cc: CC::Z, dst: p(RBX) }), 3);
    assert_eq!(len(PInst::CMov { sz: Size::S64, cc: CC::Z, dst: p(RBX), src: RegMem::Reg(p(RAX)) }), 4);
}

#[test]
fn lengths_of_moves() {
    let imm = |sz: Size, dst: u8, src: u64| len(PInst::Imm { sz, dst: p(dst), src });
    assert_eq!(imm(Size::S32, RBX, 0), 2);
    assert_eq!(imm(Size::S32, R8, 0), 3);
    assert_eq!(imm(Size::S32, RBX, 0x7fff_ffff), 5);
    assert_eq!(imm(Size::S64, RBX, 0xffff_ffff_8000_0000), 6);
    assert_eq!(imm(Size::S64, RBX, 0x8000_0000), 10);
    assert_eq!(len(PInst::MovRR { sz: Size::S32, dst: p(RAX), src: p(RBX) }), 2);
    let src = RegMem::Reg(p(RBX));
    assert_eq!(len(PInst::MovzxRmR { ext_mode: ExtMode::LQ, dst: p(RAX), src }), 2);
    assert_eq!(len(PInst::MovzxRmR { ext_mode: ExtMode::BL, dst: p(RAX), src }), 3);
    assert_eq!(len(PInst::MovzxRmR { ext_mode: ExtMode::BQ, dst: p(RAX), src }), 4);
    assert_eq!(len(PInst::MovsxRmR { ext_mode: ExtMode::LQ, dst: p(RAX), src }), 3);
    assert_eq!(len(PInst::Lea { dst: p(RAX), addr: mem(Offset::Real(1), RBX, Some(RCX)) }), 5);
    assert_eq!(len(PInst::Store { sz: Size::S32, dst: mem(Offset::Real(0), RBX, None), src: p(RAX) }), 2);
    assert_eq!(len(PInst::Push64 { src: PRegMemImm::Imm(1) }), 2);
    assert_eq!(len(PInst::Push64 { src: PRegMemImm::Imm(1000) }), 5);
    assert_eq!(len(PInst::Push64 { src: PRegMemImm::Reg(p(R8)) }), 2);
    assert_eq!(len(PInst::Push64 { src: PRegMemImm::Mem(mem(Offset::Real(0), RBX, None)) }), 2);
    assert_eq!(len(PInst::Pop64 { dst: p(RBX) }), 1);
}

#[test]
fn lengths_of_jumps() {
    let jmp = |short: bool| PInst::JmpKnown { dst: BlockId(3), short };
    let jcc = |short: bool| PInst::JmpCond { cc: CC::Z, dst: BlockId(3), short };
    assert_eq!(jmp(false).len_bound(), (2, 5));
    assert_eq!(jmp(true).len_bound(), (2, 2));
    assert_eq!(jcc(false).len_bound(), (2, 6));
    assert_eq!(jcc(true).len_bound(), (2, 2));
    for i in [jmp(false), jcc(false), PInst::Ret, PInst::CallKnown { f: ProcId(0) }] {
        let mut j = i;
        j.shorten();
        assert_eq!(j.len(), i.len_bound().0);
        assert_eq!(j.is_jump(), i.is_jump());
        let again = j;
        j.shorten();
        assert_eq!(j, again);
    }
    assert_eq!(jmp(true).is_jump(), Some(BlockId(3)));
    assert_eq!(PInst::Ret.is_jump(), None);
    assert_eq!((len(PInst::Ret), len(PInst::CallKnown { f: ProcId(0) })), (1, 5));
    assert_eq!((len(PInst::TrapIf { cc: CC::Z }), len(PInst::Ud2)), (4, 2));
}

#[test]
fn large_registers_take_a_rex_byte() {
    let rex = |i: PInst| i.layout_inst().rex;
    assert!(rex(PInst::Pop64 { dst: p(R8) }));
    assert!(rex(PInst::Store { sz: Size::S32, dst: mem(Offset::Real(0), 9, None), src: p(RAX) }));
    assert!(rex(PInst::Store { sz: Size::S32, dst: mem(Offset::Real(0), 1, Some(9)), src: p(RAX) }));
    assert!(!rex(PInst::Store { sz: Size::S32, dst: mem(Offset::Real(0), 63, None), src: p(RAX) }));
    assert!(!rex(PInst::Pop64 { dst: p(RBX) }));
    let l = InstLayout { rex: true, opc: OpcodeLayout::Ret };
    assert_eq!(l.len(), 2);
}

// ---------------------------------------------------------------------------------------------
// Text

#[test]
fn operands_as_text() {
    assert_eq!(v(12).text(), "VReg(vreg = 12, class = Int)");
    assert_eq!(p(10).text(), "PReg(hw = 10, class = Int, index = 10)");
    assert_eq!(Offset::Real(1234567890u64).text(), "1234567890");
    assert_eq!(Offset::Spill(SpillId(3), 0u32).text32(), "s3");
    assert_eq!(Offset::Global(GlobalId(3), 10u32).text32(), "g3 + 10");
    assert_eq!(Offset::Const(ConstId(0), 7u64).text(), "c0 + 7");
    let a = AMode { off: Offset::Real(0), base: v(1), si: Some(ShiftIndex { index: v(2), shift: 3 }) };
    assert_eq!(a.text(), "[0 + VReg(vreg = 1, class = Int) + 8*VReg(vreg = 2, class = Int)]");
    let b: PAMode = AMode::global(GlobalId(5));
    assert_eq!(b.text(), "[g5]");
    assert_eq!(RegMem::Mem(b).text(), "[g5]");
    assert_eq!(RegMem::Reg(v(1)).text(), v(1).text());
    assert_eq!(RegMemImm::Imm(5u64).text(), "5");
    assert_eq!(RegMemImm::<u32>::Uninit.text32(), "\"uninit\"");
    assert_eq!(PRegMemImm::Imm(70).text(), "70");
    assert_eq!(PRegMemImm::Mem(b).text(), "[g5]");
}

#[test]
fn operands_print_as_text() {
    let a: AMode = AMode { si: Some(ShiftIndex { index: v(2), shift: 3 }), ..AMode::reg(v(1)) };
    let b: AMode<PReg> = AMode::global(GlobalId(5));
    assert_eq!(format!("{:?}", v(12)), "VReg(vreg = 12, class = Int)");
    assert_eq!(format!("{:?}", p(10)), "PReg(hw = 10, class = Int, index = 10)");
    assert_eq!(format!("{:?} {:?} {:?}", SpillId(1), GlobalId(2), ConstId(3)), "s1 g2 c3");
    assert_eq!(format!("{:?}", Offset::Real(12u32)), "12");
    assert_eq!(format!("{:?}", Offset::Spill(SpillId(3), 0u64)), "s3");
    assert_eq!(format!("{:?}", Offset::Const(ConstId(0), 7u32)), "c0 + 7");
    assert_eq!(format!("{:?}", a), a.text());
    assert_eq!(format!("{:?}", b), "[g5]");
    assert_eq!(format!("{:?}", RegMem::Mem(b)), "[g5]");
    assert_eq!(format!("{:?}", RegMem::Reg(v(1))), v(1).text());
    assert_eq!(format!("{:?}", RegMemImm::<u64>::Mem(a)), a.text());
    assert_eq!(format!("{:?}", RegMemImm::Imm(5u32)), "5");
    assert_eq!(format!("{:?}", RegMemImm::<u32>::Uninit), "\"uninit\"");
    assert_eq!(format!("{:?}", PRegMemImm::Mem(b)), "[g5]");
    assert_eq!(format!("{:?}", PRegMemImm::Imm(70)), "70");
    let i = Inst::Imm { sz: Size::S64, dst: v(0), src: 8 };
    assert_eq!(format!("{:?}", i), "Imm { sz: S64, dst: VReg(vreg = 0, class = Int), src: 8 }");
}

#[test]
fn numbers_follow_the_format() {
    assert_eq!(format!("{:#x?}", Offset::Real(255u32)), "0xff");
    assert_eq!(format!("{:5?}|", Offset::Real(255u64)), "  255|");
    assert_eq!(format!("{:<5?}|", RegMemImm::Imm(7u32)), "7    |");
    assert_eq!(format!("{:03?}", PRegMemImm::Imm(7)), "007");
    // Beside anything else a number is written plainly.
    assert_eq!(format!("{:5?}|", Offset::Global(GlobalId(1), 2u32)), "g1 + 2|");
    assert_eq!(format!("{:#x?}", AMode::<VReg>::from(Offset::Real(255u32))), "[255]");
}
