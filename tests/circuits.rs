use ceno_zkvm::circuit_builder::{CircuitBuilder, ROMType, RAMType, ZKVMError, MAX_COLUMNS};
use ceno_zkvm::expr::{Expression, Fixed, WitIn};
use ceno_zkvm::global_state::GlobalStateChip;
use ceno_zkvm::ops_table::{padded_len, OpTableConfig};
use ceno_zkvm::r_insn::{InsnKind, RInstructionConfig, RegAccess, StepRecord, R_INSN_WITIN};
use ceno_zkvm::witness::LkMultiplicity;
use std::collections::HashMap;

fn access(previous_cycle: u64, value_before: u32) -> RegAccess {
    RegAccess { previous_cycle, value_before }
}

fn step(cycle: u64, prev: [u64; 3]) -> StepRecord {
    StepRecord {
        cycle,
        pc: 0x1000,
        rs1_id: 1,
        rs2_id: 2,
        rd_id: 3,
        rs1: Some(access(prev[0], 0)),
        rs2: Some(access(prev[1], 0)),
        rd: Some(access(prev[2], 0x0001_0002)),
    }
}

fn template() -> (CircuitBuilder, RInstructionConfig) {
    let mut cb = CircuitBuilder::new();
    let cfg = RInstructionConfig::construct_circuit(
        &mut cb,
        InsnKind::ADD,
        &vec![Expression::Constant(5)],
        &vec![Expression::Constant(6)],
        &vec![Expression::Constant(11)],
    )
    .unwrap();
    (cb, cfg)
}

fn value(e: &Expression, row: &Vec<u64>) -> i128 {
    e.evaluate(row, &vec![]).unwrap()
}

#[test]
fn r_type_step_end_to_end() {
    let (cb, cfg) = template();
    assert_eq!(cb.num_witin, R_INSN_WITIN);
    let mut row = vec![0u64; R_INSN_WITIN];
    let mut lk = LkMultiplicity::new();
    assert_eq!(cfg.assign_instance(&mut row, &mut lk, &step(1, [0, 0, 0])), Ok(()));
    assert_eq!(row[cfg.pc.id], 0x1000);
    assert_eq!(row[cfg.ts.id], 1);
    assert_eq!(row[cfg.rs1_id.id], 1);
    assert_eq!(row[cfg.rs2_id.id], 2);
    assert_eq!(row[cfg.rd_id.id], 3);
    assert_eq!(row[cfg.prev_rs1_ts.id], 0);
    assert_eq!(row[cfg.prev_rs2_ts.id], 0);
    assert_eq!(row[cfg.prev_rd_ts.id], 0);
    assert_eq!(row[cfg.prev_rd_value[0].id], 2);
    assert_eq!(row[cfg.prev_rd_value[1].id], 1);
    // Register accesses: read rs1, write rs1, read rs2, write rs2, read rd, write rd.
    let ram = &cb.ram;
    assert_eq!(ram.len(), 8);
    assert_eq!(ram[1].ram, RAMType::Register);
    assert_eq!(value(&ram[1].ts, &row), 0);
    assert_eq!(value(&ram[2].ts, &row), 1);
    assert_eq!(value(&ram[3].ts, &row), 0);
    assert_eq!(value(&ram[4].ts, &row), 2);
    assert_eq!(value(&ram[5].ts, &row), 0);
    assert_eq!(value(&ram[6].ts, &row), 3);
    // State in and out.
    assert_eq!(ram[0].ram, RAMType::GlobalState);
    assert!(!ram[0].write);
    assert_eq!(value(&ram[0].key[1], &row), 0x1000);
    assert_eq!(value(&ram[0].key[2], &row), 1);
    assert!(ram[7].write);
    assert_eq!(value(&ram[7].key[1], &row), 0x1004);
    // The timestamp after the write is 4; the next step starts one later.
    assert_eq!(value(&ram[7].key[2], &row), 5);
    // Every ordering constraint holds on the assigned row.
    assert_eq!(cb.zeros.len(), 3);
    for z in &cb.zeros {
        assert_eq!(value(z, &row), 0);
    }
    // One fetch and six range checks.
    assert_eq!(lk.records.len(), 7);
    assert_eq!(lk.records[0], (ROMType::Instruction, 0x1000));
    assert_eq!(lk.records[1], (ROMType::U16, 0));
    assert_eq!(lk.records[3], (ROMType::U16, 1));
    assert_eq!(lk.records[5], (ROMType::U16, 2));
}

#[test]
fn fetch_key_carries_instruction_codes() {
    let (cb, cfg) = template();
    assert_eq!(cb.lookups[0].rom, ROMType::Instruction);
    let mut row = vec![0u64; R_INSN_WITIN];
    let mut lk = LkMultiplicity::new();
    cfg.assign_instance(&mut row, &mut lk, &step(8, [1, 2, 3])).unwrap();
    let key: Vec<i128> = cb.lookups[0].key.iter().map(|e| value(e, &row)).collect();
    assert_eq!(key, vec![0x33, 3, 0, 1, 2, 0, 0x1000]);
    let mut cb2 = CircuitBuilder::new();
    RInstructionConfig::construct_circuit(&mut cb2, InsnKind::SUB, &vec![], &vec![], &vec![])
        .unwrap();
    assert_eq!(value(&cb2.lookups[0].key[5], &row), 0x20);
}

#[test]
fn consecutive_steps_link_state() {
    let (cb, cfg) = template();
    let mut row1 = vec![0u64; R_INSN_WITIN];
    let mut row2 = vec![0u64; R_INSN_WITIN];
    let mut lk = LkMultiplicity::new();
    let s1 = step(4, [0, 1, 2]);
    let mut s2 = step(8, [4, 5, 6]);
    s2.pc = 0x1004;
    cfg.assign_instance(&mut row1, &mut lk, &s1).unwrap();
    cfg.assign_instance(&mut row2, &mut lk, &s2).unwrap();
    let out: Vec<i128> = cb.ram[7].key.iter().map(|e| value(e, &row1)).collect();
    let inn: Vec<i128> = cb.ram[0].key.iter().map(|e| value(e, &row2)).collect();
    assert_eq!(out, inn);
}

#[test]
fn long_timestamp_gap_breaks_ordering_constraint() {
    let (cb, cfg) = template();
    let mut row = vec![7u64; R_INSN_WITIN];
    let mut lk = LkMultiplicity::new();
    let gap = 1u64 << 32;
    // A gap of exactly 2^32 still fits: the limbs hold 2^32 - 1.
    assert_eq!(cfg.assign_instance(&mut row, &mut lk, &step(gap, [0, gap, gap])), Ok(()));
    assert_eq!(row[cfg.lt_rs1_cfg.diff[0].id], 0xffff);
    assert_eq!(row[cfg.lt_rs1_cfg.diff[1].id], 0xffff);
    for z in &cb.zeros {
        assert_eq!(value(z, &row), 0);
    }
    // One more and the rs1 constraint no longer holds.
    assert_eq!(cfg.assign_instance(&mut row, &mut lk, &step(gap + 1, [0, gap, gap])), Ok(()));
    assert_ne!(value(&cb.zeros[0], &row), 0);
    assert_eq!(value(&cb.zeros[1], &row), 0);
    assert_eq!(value(&cb.zeros[2], &row), 0);
}

#[test]
fn stale_timestamp_is_assigned_but_rejected() {
    let (cb, cfg) = template();
    let mut row = vec![0u64; R_INSN_WITIN];
    let mut lk = LkMultiplicity::new();
    // rs1's previous access at the access timestamp itself.
    assert_eq!(cfg.assign_instance(&mut row, &mut lk, &step(5, [5, 0, 0])), Ok(()));
    assert_eq!(row[cfg.prev_rs1_ts.id], 5);
    assert_eq!(row[cfg.ts.id], 5);
    // The gap wraps to 2^64 - 1, whose low limbs are both 0xffff.
    assert_eq!(row[cfg.lt_rs1_cfg.diff[0].id], 0xffff);
    assert_eq!(row[cfg.lt_rs1_cfg.diff[1].id], 0xffff);
    assert_eq!(lk.records.len(), 7);
    assert_ne!(value(&cb.zeros[0], &row), 0);
    assert_eq!(value(&cb.zeros[1], &row), 0);
    assert_eq!(value(&cb.zeros[2], &row), 0);
    // rs2 is accessed at cycle + 1, so a previous access at cycle is fine.
    let mut row = vec![0u64; R_INSN_WITIN];
    assert_eq!(cfg.assign_instance(&mut row, &mut lk, &step(5, [4, 5, 6])), Ok(()));
    for z in &cb.zeros {
        assert_eq!(value(z, &row), 0);
    }
    assert_eq!(cfg.assign_instance(&mut row, &mut lk, &step(5, [4, 5, 7])), Ok(()));
    assert_ne!(value(&cb.zeros[2], &row), 0);
}

#[test]
fn column_exhaustion_is_an_error() {
    let mut cb = CircuitBuilder::new();
    cb.num_witin = MAX_COLUMNS - R_INSN_WITIN + 1;
    let r = RInstructionConfig::construct_circuit(&mut cb, InsnKind::ADD, &vec![], &vec![], &vec![]);
    assert!(matches!(r, Err(ZKVMError::TooManyColumns)));
    let mut cb = CircuitBuilder::new();
    cb.num_fixed = MAX_COLUMNS - 2;
    assert!(matches!(
        OpTableConfig::construct_circuit(&mut cb, ROMType::And),
        Err(ZKVMError::TooManyColumns)
    ));
    let mut cb = CircuitBuilder::new();
    cb.num_witin = MAX_COLUMNS;
    assert_eq!(cb.create_witin(), Err(ZKVMError::TooManyColumns));
    cb.num_witin = MAX_COLUMNS - 1;
    assert_eq!(cb.create_witin(), Ok(WitIn { id: MAX_COLUMNS - 1 }));
}

fn op_table() -> (CircuitBuilder, OpTableConfig) {
    let mut cb = CircuitBuilder::new();
    let cfg = OpTableConfig::construct_circuit(&mut cb, ROMType::Xor).unwrap();
    (cb, cfg)
}

#[test]
fn op_table_declares_its_rows() {
    let (cb, cfg) = op_table();
    assert_eq!(cfg.abc, [Fixed(0), Fixed(1), Fixed(2)]);
    assert_eq!(cfg.mlt, WitIn { id: 0 });
    assert_eq!(cb.num_fixed, 3);
    assert_eq!(cb.num_witin, 1);
    assert_eq!(cb.tables.len(), 1);
    let t = &cb.tables[0];
    assert_eq!(t.rom, ROMType::Xor);
    let fixed_row = vec![10u64, 20, 30];
    let key: Vec<i128> = t.key.iter().map(|e| e.evaluate(&vec![], &fixed_row).unwrap()).collect();
    assert_eq!(key, vec![4, 10, 20, 30]);
    assert_eq!(t.mlt.evaluate(&vec![9], &vec![]), Some(9));
}

#[test]
fn fixed_traces_pad_with_zeros() {
    let (_, cfg) = op_table();
    let content = vec![[1, 2, 3], [4, 5, 6], [7, 8, 9]];
    let m = cfg.generate_fixed_traces(3, content.clone());
    assert_eq!(m.num_col, 3);
    assert_eq!(m.values, vec![1, 2, 3, 4, 5, 6, 7, 8, 9, 0, 0, 0]);
    let again = cfg.generate_fixed_traces(3, content);
    assert_eq!(m.values, again.values);
    let wide = cfg.generate_fixed_traces(4, vec![[1, 2, 3]]);
    assert_eq!(wide.values, vec![1, 2, 3, 0]);
    let empty = cfg.generate_fixed_traces(3, vec![]);
    assert_eq!(empty.values, vec![0, 0, 0]);
}

#[test]
fn multiplicities_land_at_their_rows() {
    let (_, cfg) = op_table();
    let mut mult = HashMap::new();
    mult.insert(0u64, 2usize);
    mult.insert(2u64, 5usize);
    let m = cfg.assign_instances(1, &mult, 3).unwrap();
    assert_eq!(m.values, vec![2, 0, 5, 0]);
    let m = cfg.assign_instances(2, &HashMap::new(), 5).unwrap();
    assert_eq!(m.values, vec![0; 16]);
}

fn offered(fixed: &Vec<u64>, mlt: &Vec<u64>, key: [u64; 3]) -> u64 {
    let mut n = 0;
    for i in 0..mlt.len() {
        if fixed[3 * i..3 * i + 3] == key {
            n += mlt[i];
        }
    }
    n
}

#[test]
fn table_membership_counts() {
    let (_, cfg) = op_table();
    let content = vec![[1, 2, 3], [4, 5, 6], [7, 8, 9]];
    let fixed = cfg.generate_fixed_traces(3, content).values;
    let mut mult = HashMap::new();
    mult.insert(0u64, 2usize);
    mult.insert(2u64, 1usize);
    let mlt = cfg.assign_instances(1, &mult, 3).unwrap().values;
    assert_eq!(offered(&fixed, &mlt, [1, 2, 3]), 2);
    assert_eq!(offered(&fixed, &mlt, [7, 8, 9]), 1);
    assert_eq!(offered(&fixed, &mlt, [4, 5, 6]), 0);
    // The padding row holds (0, 0, 0) and never counts.
    assert_eq!(offered(&fixed, &mlt, [0, 0, 0]), 0);
    assert_eq!(offered(&fixed, &mlt, [9, 9, 9]), 0);
}

#[test]
fn padded_lengths() {
    assert_eq!(padded_len(0), 1);
    assert_eq!(padded_len(1), 1);
    assert_eq!(padded_len(3), 4);
    assert_eq!(padded_len(4), 4);
    assert_eq!(padded_len(5), 8);
    assert_eq!(padded_len(1000), 1024);
}

#[test]
fn global_state_keys() {
    let mut cb = CircuitBuilder::new();
    let e = |i: usize| Expression::WitIn(i);
    GlobalStateChip::state_in(&mut cb, &vec![e(0)], &vec![e(1), e(2)], &vec![e(3)], e(4), e(5));
    GlobalStateChip::state_out(&mut cb, &vec![e(0)], &vec![e(1), e(2)], &vec![e(3)], e(4), e(6));
    assert_eq!(cb.ram.len(), 2);
    assert!(!cb.ram[0].write);
    assert!(cb.ram[1].write);
    let row = vec![10, 11, 12, 13, 14, 15, 16];
    let k_in: Vec<i128> = cb.ram[0].key.iter().map(|x| value(x, &row)).collect();
    let k_out: Vec<i128> = cb.ram[1].key.iter().map(|x| value(x, &row)).collect();
    assert_eq!(k_in, vec![0, 10, 11, 12, 13, 14, 15]);
    assert_eq!(k_out, vec![0, 10, 11, 12, 13, 14, 16]);
}

#[test]
fn expression_evaluation() {
    let e = Expression::Sum(
        Box::new(Expression::Product(Box::new(Expression::WitIn(0)), Box::new(Expression::Constant(3)))),
        Box::new(Expression::Neg(Box::new(Expression::Fixed(1)))),
    );
    assert_eq!(e.evaluate(&vec![5], &vec![0, 4]), Some(11));
    assert_eq!(e.evaluate(&vec![], &vec![0, 4]), None);
    assert_eq!(e.dup().evaluate(&vec![5], &vec![0, 4]), Some(11));
    assert_eq!(InsnKind::MUL.codes().func7, 1);
    assert_eq!(ROMType::Ltu.tag(), 5);
    assert_eq!(RAMType::Register.tag(), 1);
}

#[test]
fn recorded_lookups_become_counts() {
    let mut lk = LkMultiplicity::new();
    lk.fetch(8);
    lk.assert_u16(3);
    lk.fetch(8);
    lk.fetch(12);
    lk.assert_u16(3);
    lk.assert_u16(4);
    let fetches = lk.counts(ROMType::Instruction);
    assert_eq!(fetches.len(), 2);
    assert_eq!(fetches[&8], 2);
    assert_eq!(fetches[&12], 1);
    let ranges = lk.counts(ROMType::U16);
    assert_eq!(ranges.len(), 2);
    assert_eq!(ranges[&3], 2);
    assert_eq!(ranges[&4], 1);
    assert!(lk.counts(ROMType::And).is_empty());
}
