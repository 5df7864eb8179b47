use nil::block::{BasicBlock, BlockLink};
use nil::emit::HostInst;
use nil::guest::{GuestMmu, GuestState, ProgramCounter};
use nil::ir::{BindOp, Operation, Var, VarKind};
use nil::lift::{dispatch_arm, TranslateError};
use nil::lut::ArmLut;
use nil::regalloc::{HostRegister, RegisterPool, StorageLoc, StorageMap};
use nil::runtime::RuntimeExitCode;
use nil::Jit;

fn lift_single(op: u32, pc: u32) -> BasicBlock {
    let lut = ArmLut::create_lut();
    let state = GuestState::new(pc, 0);
    let mut bb = BasicBlock::new(state.pc);
    bb.guest_ops.push(op);
    dispatch_arm(&mut bb, &lut, op).expect("instruction should lift");
    bb
}

fn writes_of(bb: &BasicBlock) -> Vec<(u32, Var)> {
    let mut out = Vec::new();
    for inst in bb.data.iter() {
        if let Operation::Bind(BindOp::WriteGuestReg(r, v)) = inst.rh {
            out.push((r, v));
        }
    }
    out
}

#[test]
fn mov_immediate_writes_constant_one() {
    // mov r0, #1: the lifted block binds the constant 1 to r0.
    let bb = lift_single(0xE3A0_0001, 0);
    let writes = writes_of(&bb);
    assert_eq!(writes.len(), 1);
    let (reg, v) = writes[0];
    assert_eq!(reg, 0);
    assert_eq!(v.kind, VarKind::Constant(1));
}

#[test]
fn sub_immediate_with_flags_writes_all_four() {
    // subs r1, r1, #3: result goes to r1 and all four flags are written.
    let bb = lift_single(0xE251_1003, 0);
    let writes = writes_of(&bb);
    assert_eq!(writes.len(), 1);
    assert_eq!(writes[0].0, 1);
    let mut flag_writes = 0;
    let mut has_subf = false;
    for inst in bb.data.iter() {
        if let Operation::Bind(BindOp::WriteFlag(_, _)) = inst.rh {
            flag_writes += 1;
        }
        if inst.lh_c.is_some() && inst.lh_v.is_some() {
            has_subf = true;
        }
    }
    assert_eq!(flag_writes, 4);
    assert!(has_subf);
}

#[test]
fn load_literal_computes_address() {
    // ldr r0, [pc, #0xf8] at fetch PC 0: the literal address is
    // exec_pc (8) + 0xf8 = 0x100, baked in as a constant operand.
    let bb = lift_single(0xE59F_00F8, 0);
    let has_addr = bb.data.iter().any(|i| match i.lh {
        Some(v) => v.kind == VarKind::Constant(0x100),
        None => false,
    });
    assert!(has_addr);
    let writes = writes_of(&bb);
    assert_eq!(writes.len(), 1);
    assert_eq!(writes[0].0, 0);
}

#[test]
fn store_post_index_writes_back_base() {
    // str r0, [r1], #4: stores r0 at [r1], then writes r1 + 4 back.
    let bb = lift_single(0xE481_0004, 0);
    let has_store = bb
        .data
        .iter()
        .any(|i| matches!(i.rh, Operation::Memory(nil::ir::MemoryOp::Store32(_, _))));
    assert!(has_store);
    let writes = writes_of(&bb);
    assert_eq!(writes.len(), 1);
    assert_eq!(writes[0].0, 1);
}

#[test]
fn store_with_post_index_writeback_is_rejected() {
    // The P=0, W=1 encoding decodes as an unprivileged store, which the
    // lifter does not implement.
    let lut = ArmLut::create_lut();
    let mut bb = BasicBlock::new(ProgramCounter(0));
    bb.guest_ops.push(0xE4A1_0004);
    assert_eq!(
        dispatch_arm(&mut bb, &lut, 0xE4A1_0004),
        Err(TranslateError::Unimplemented)
    );
}

#[test]
fn conditional_data_processing_is_rejected() {
    let lut = ArmLut::create_lut();
    let mut bb = BasicBlock::new(ProgramCounter(0));
    bb.guest_ops.push(0x13A0_0001); // movne r0, #1
    assert_eq!(
        dispatch_arm(&mut bb, &lut, 0x13A0_0001),
        Err(TranslateError::CondNotAl)
    );
}

#[test]
fn pc_destination_is_rejected() {
    let lut = ArmLut::create_lut();
    let mut bb = BasicBlock::new(ProgramCounter(0));
    bb.guest_ops.push(0xE3A0_F001); // mov pc, #1
    assert_eq!(
        dispatch_arm(&mut bb, &lut, 0xE3A0_F001),
        Err(TranslateError::DestIsPc)
    );
}

#[test]
fn invalid_condition_is_rejected() {
    let lut = ArmLut::create_lut();
    let mut bb = BasicBlock::new(ProgramCounter(0));
    bb.guest_ops.push(0xF3A0_0001);
    assert_eq!(
        dispatch_arm(&mut bb, &lut, 0xF3A0_0001),
        Err(TranslateError::InvalidCond)
    );
}

#[test]
fn unconditional_branch_targets_pc_plus_offset() {
    // b forward at fetch PC 0x1000: the 24-bit offset 3 scales to 12
    // bytes past the visible PC 0x1008, giving 0x1014.
    let mut mmu = GuestMmu::new();
    mmu.write_buf(0x1000, &0xEA00_0003u32.to_be_bytes());
    let state = GuestState::new(0x1000, 0);
    let lut = ArmLut::create_lut();
    let bb = BasicBlock::lift(&state, &mmu, &lut).expect("lift should succeed");
    match bb.link {
        Some(BlockLink::Branch(t)) => assert_eq!(t.kind, VarKind::Constant(0x1014)),
        other => panic!("unexpected terminator {:?}", other),
    }
    assert_eq!(bb.guest_ops, vec![0xEA00_0003]);
}

#[test]
fn branch_and_link_records_return_address() {
    // bl at fetch PC 0x2000 with offset field 5: target is the visible
    // PC 0x2008 plus 20 bytes, 0x201C; the link register gets 0x2004.
    let mut mmu = GuestMmu::new();
    mmu.write_buf(0x2000, &0xEB00_0005u32.to_be_bytes());
    let state = GuestState::new(0x2000, 0);
    let lut = ArmLut::create_lut();
    let bb = BasicBlock::lift(&state, &mmu, &lut).expect("lift should succeed");
    match bb.link {
        Some(BlockLink::BranchAndLink(t, l)) => {
            assert_eq!(t.kind, VarKind::Constant(0x201C));
            assert_eq!(l.kind, VarKind::Constant(0x2004));
        },
        other => panic!("unexpected terminator {:?}", other),
    }
}

#[test]
fn conditional_branch_keeps_fall_through() {
    // beq at fetch PC 0x1000: taken target 0x1014, fall-through 0x1004.
    let mut mmu = GuestMmu::new();
    mmu.write_buf(0x1000, &0x0A00_0003u32.to_be_bytes());
    let state = GuestState::new(0x1000, 0);
    let lut = ArmLut::create_lut();
    let bb = BasicBlock::lift(&state, &mmu, &lut).expect("lift should succeed");
    match bb.link {
        Some(BlockLink::BranchCond(c, t, f)) => {
            assert_eq!(c, nil::guest::Cond::EQ);
            assert_eq!(t.kind, VarKind::Constant(0x1014));
            assert_eq!(f.kind, VarKind::Constant(0x1004));
        },
        other => panic!("unexpected terminator {:?}", other),
    }
}

#[test]
fn ssa_ids_are_unique_across_a_block() {
    // Every id is bound at most once over lh, lh_c and lh_v.
    let mut mmu = GuestMmu::new();
    mmu.write_buf(0x0, &0xE3A0_0001u32.to_be_bytes());
    mmu.write_buf(0x4, &0xE251_1003u32.to_be_bytes());
    mmu.write_buf(0x8, &0xEA00_0003u32.to_be_bytes());
    let state = GuestState::new(0, 0);
    let lut = ArmLut::create_lut();
    let bb = BasicBlock::lift(&state, &mmu, &lut).expect("lift should succeed");
    let mut seen = Vec::new();
    for inst in bb.data.iter() {
        for slot in [inst.lh, inst.lh_c, inst.lh_v] {
            if let Some(v) = slot {
                assert!(!seen.contains(&v.id), "id {} bound twice", v.id);
                seen.push(v.id);
            }
        }
    }
    assert!(bb.link.is_some());
}

#[test]
fn prune_drops_dead_flag_producers_and_is_idempotent() {
    // mov r0, #1 (no S bit) then a branch: the shifter's carry read is dead
    // and pruned; pruning a second time changes nothing.
    let mut mmu = GuestMmu::new();
    mmu.write_buf(0x0, &0xE3A0_0001u32.to_be_bytes());
    mmu.write_buf(0x4, &0xEA00_0003u32.to_be_bytes());
    let state = GuestState::new(0, 0);
    let lut = ArmLut::create_lut();
    let mut bb = BasicBlock::lift(&state, &mmu, &lut).expect("lift should succeed");
    bb.prune_dead_vars();
    let data1 = bb.data.clone();
    let consts1 = bb.lb.consts.clone();
    let link1 = bb.link;
    bb.prune_dead_vars();
    assert_eq!(bb.data, data1);
    assert_eq!(bb.lb.consts, consts1);
    assert_eq!(bb.link, link1);
    // No read of the carry flag survives in this block.
    let has_flag_read = bb
        .data
        .iter()
        .any(|i| matches!(i.rh, Operation::Bind(BindOp::ReadFlag(_))));
    assert!(!has_flag_read);
}

#[test]
fn recompile_lowers_branch_terminator() {
    // A translated block writes the guest PC slot and returns exit code 0.
    let mut mmu = GuestMmu::new();
    mmu.write_buf(0x1000, &0xEA00_0003u32.to_be_bytes());
    let state = GuestState::new(0x1000, 0);
    let lut = ArmLut::create_lut();
    let mut bb = BasicBlock::lift(&state, &mmu, &lut).expect("lift should succeed");
    bb.prune_dead_vars();
    bb.recompile().expect("recompile should succeed");
    let n = bb.host_code.len();
    assert!(n >= 2);
    assert_eq!(bb.host_code[n - 1], HostInst::RetCode { code: 0 });
    assert_eq!(bb.host_code[n - 2], HostInst::WriteGuestImm { idx: 15, imm: 0x1014 });
}

#[test]
fn recompile_lowers_mov_and_link_register() {
    // mov r0, #1 then bl: r0 is written with the immediate, the link slot
    // with the return address, and the PC with the target.
    let mut mmu = GuestMmu::new();
    mmu.write_buf(0x0, &0xE3A0_0001u32.to_be_bytes());
    mmu.write_buf(0x4, &0xEB00_0005u32.to_be_bytes());
    let state = GuestState::new(0, 0);
    let lut = ArmLut::create_lut();
    let mut bb = BasicBlock::lift(&state, &mmu, &lut).expect("lift should succeed");
    bb.prune_dead_vars();
    bb.recompile().expect("recompile should succeed");
    let code = &bb.host_code;
    assert!(code.contains(&HostInst::WriteGuestImm { idx: 0, imm: 1 }));
    let n = code.len();
    assert_eq!(code[n - 1], HostInst::RetCode { code: 0 });
    assert_eq!(code[n - 2], HostInst::WriteGuestImm { idx: 15, imm: 0x0020 });
    assert_eq!(code[n - 3], HostInst::WriteGuestImm { idx: 14, imm: 0x0008 });
}

#[test]
fn register_pool_hands_out_rax_first() {
    let mut pool = RegisterPool::new();
    assert_eq!(pool.take(), HostRegister::RAX);
    assert_eq!(pool.take(), HostRegister::RCX);
    pool.put_back(HostRegister::RAX);
    assert_eq!(pool.take(), HostRegister::RAX);
    assert!(!pool.is_empty());
}

#[test]
fn storage_map_binds_and_replaces() {
    let mut sm = StorageMap::new();
    let v = Var { id: 3, width: 32, kind: VarKind::Local };
    assert_eq!(sm.get(&v), None);
    sm.bind(v, StorageLoc::Gpr(0));
    assert_eq!(sm.get(&v), Some(StorageLoc::Gpr(0)));
    sm.bind(v, StorageLoc::Const(7));
    assert_eq!(sm.get(&v), Some(StorageLoc::Const(7)));
}

#[test]
fn exit_codes_round_trip() {
    assert_eq!(RuntimeExitCode::from_code(0), RuntimeExitCode::NextBlock);
    assert_eq!(RuntimeExitCode::from_code(1), RuntimeExitCode::Halt);
    assert_eq!(RuntimeExitCode::Halt.code(), 1);
    assert_eq!(RuntimeExitCode::NextBlock.code(), 0);
}

#[test]
fn jit_translates_and_caches_a_block() {
    let mut jit = Jit::new();
    jit.mmu.write_buf(0x1000, &0xEA00_0003u32.to_be_bytes());
    jit.state.pc = ProgramCounter(0x1000);
    jit.translate().expect("translation should succeed");
    let bb = jit.cache.get(&0x1000).expect("block should be cached");
    assert_eq!(bb.base_pc, ProgramCounter(0x1000));
    let n = bb.host_code.len();
    assert_eq!(bb.host_code[n - 2], HostInst::WriteGuestImm { idx: 15, imm: 0x1014 });
    // A second translation is a cache hit and succeeds trivially.
    jit.translate().expect("cache hit should succeed");
}

#[test]
fn fetch_outside_arena_is_rejected() {
    let mut jit = Jit::new();
    jit.state.pc = ProgramCounter(0xFFFF_FFF0);
    assert_eq!(jit.translate(), Err(TranslateError::FetchOutOfBounds));
}

#[test]
fn stmdb_stores_registers_descending() {
    // stmdb sp!, {r4, lr}: two stores below the base, then writeback.
    let bb = lift_single(0xE92D_4010, 0);
    let stores = bb
        .data
        .iter()
        .filter(|i| matches!(i.rh, Operation::Memory(nil::ir::MemoryOp::Store32(_, _))))
        .count();
    assert_eq!(stores, 2);
    let writes = writes_of(&bb);
    assert_eq!(writes.len(), 1);
    assert_eq!(writes[0].0, 13);
}

#[test]
fn recompile_materializes_subs_flags() {
    // subs r1, r1, #3 then a branch: the block now compiles, with the
    // carry/overflow materialized right after the subtraction and all four
    // CPSR flag writes selected.
    let mut mmu = GuestMmu::new();
    mmu.write_buf(0x0, &0xE251_1003u32.to_be_bytes());
    mmu.write_buf(0x4, &0xEA00_0003u32.to_be_bytes());
    let state = GuestState::new(0, 0);
    let lut = ArmLut::create_lut();
    let mut bb = BasicBlock::lift(&state, &mmu, &lut).expect("lift should succeed");
    bb.prune_dead_vars();
    bb.recompile().expect("a flag-setting subtraction must compile");
    let code = &bb.host_code;
    assert!(code.iter().any(|i| matches!(i, HostInst::SetIfNoBorrow { .. })));
    assert!(code.iter().any(|i| matches!(i, HostInst::SetIfOverflow { .. })));
    assert!(code.iter().any(|i| matches!(i, HostInst::TestSetZero { .. })));
    assert!(code.iter().any(|i| matches!(i, HostInst::ShrImm { imm: 31, .. })));
    let cpsr_writes = code
        .iter()
        .filter(|i| matches!(i, HostInst::WriteCpsrFlag { .. } | HostInst::WriteCpsrFlagImm { .. }))
        .count();
    assert_eq!(cpsr_writes, 4);
}

#[test]
fn recompile_lowers_conditional_branch() {
    // beq at 0x1000: the terminator selects between 0x1014 and 0x1004 on
    // the zero flag and leaves with exit code 0.
    let mut mmu = GuestMmu::new();
    mmu.write_buf(0x1000, &0x0A00_0003u32.to_be_bytes());
    let state = GuestState::new(0x1000, 0);
    let lut = ArmLut::create_lut();
    let mut bb = BasicBlock::lift(&state, &mmu, &lut).expect("lift should succeed");
    bb.prune_dead_vars();
    bb.recompile().expect("a conditional branch must compile");
    let n = bb.host_code.len();
    assert_eq!(bb.host_code[n - 1], HostInst::RetCode { code: 0 });
    assert_eq!(
        bb.host_code[n - 2],
        HostInst::WritePcCond { cond: nil::guest::Cond::EQ, taken: 0x1014, not_taken: 0x1004 }
    );
}

#[test]
fn stmdb_base_counts_the_pc_slot() {
    // stmdb with bit 15 set lowers the base by one word per named register,
    // the PC slot included: {r0, pc} at r1 lowers by 8.
    let bb = lift_single(0xE921_8001, 0);
    let has_off = bb.data.iter().any(|i| match i.lh {
        Some(v) => v.kind == VarKind::Constant(8),
        None => false,
    });
    assert!(has_off);
}
