//! The global machine-state chip of the stack machine: a step reads the
//! state it starts from and writes the state it ends in, under one key.
use vstd::prelude::*;
use crate::circuit_builder::{CircuitBuilder, RAMModel, RAMType, Registered, ram_tag, registered};
use crate::expr::{Expression, dup_all};

verus! {

/// The key `(tag, pc, stack_ts, memory_ts, stack_top, clk)`.
pub open spec fn global_state_key(
    pc: Seq<Expression>,
    stack_ts: Seq<Expression>,
    memory_ts: Seq<Expression>,
    stack_top: Expression,
    clk: Expression,
) -> Seq<Expression> {
    seq![Expression::Constant(ram_tag(RAMType::GlobalState))] + pc + stack_ts + memory_ts + seq![
        stack_top,
        clk,
    ]
}

pub open spec fn global_state_access(write: bool, key: Seq<Expression>) -> RAMModel {
    RAMModel {
        ram: RAMType::GlobalState,
        write,
        key,
        ts: Expression::Constant(0),
        value: Seq::empty(),
    }
}

fn state_key_of(
    pc: &Vec<Expression>,
    stack_ts: &Vec<Expression>,
    memory_ts: &Vec<Expression>,
    stack_top: Expression,
    clk: Expression,
) -> (r: Vec<Expression>)
    ensures
        r@ == global_state_key(pc@, stack_ts@, memory_ts@, stack_top, clk),
{
    let mut key = vec![Expression::Constant(RAMType::GlobalState.tag())];
    let mut p = dup_all(pc);
    let mut s = dup_all(stack_ts);
    let mut m = dup_all(memory_ts);
    key.append(&mut p);
    key.append(&mut s);
    key.append(&mut m);
    key.push(stack_top);
    key.push(clk);
    assert(key@ =~= global_state_key(pc@, stack_ts@, memory_ts@, stack_top, clk));
    key
}

pub struct GlobalStateChip {}

impl GlobalStateChip {
    /// Reads the state a step starts from.
    pub fn state_in(
        circuit_builder: &mut CircuitBuilder,
        pc: &Vec<Expression>,
        stack_ts: &Vec<Expression>,
        memory_ts: &Vec<Expression>,
        stack_top: Expression,
        clk: Expression,
    )
        ensures
            final(circuit_builder).num_witin == old(circuit_builder).num_witin,
            final(circuit_builder).num_fixed == old(circuit_builder).num_fixed,
            registered(*final(circuit_builder)) == (Registered {
                ram: registered(*old(circuit_builder)).ram.push(
                    global_state_access(
                        false,
                        global_state_key(pc@, stack_ts@, memory_ts@, stack_top, clk),
                    ),
                ),
                ..registered(*old(circuit_builder))
            }),
    {
        let key = state_key_of(pc, stack_ts, memory_ts, stack_top, clk);
        circuit_builder.ram_record(
            RAMType::GlobalState,
            false,
            key,
            Expression::Constant(0),
            Vec::new(),
        );
    }

    /// Writes the state a step ends in.
    pub fn state_out(
        circuit_builder: &mut CircuitBuilder,
        pc: &Vec<Expression>,
        stack_ts: &Vec<Expression>,
        memory_ts: &Vec<Expression>,
        stack_top: Expression,
        clk: Expression,
    )
        ensures
            final(circuit_builder).num_witin == old(circuit_builder).num_witin,
            final(circuit_builder).num_fixed == old(circuit_builder).num_fixed,
            registered(*final(circuit_builder)) == (Registered {
                ram: registered(*old(circuit_builder)).ram.push(
                    global_state_access(
                        true,
                        global_state_key(pc@, stack_ts@, memory_ts@, stack_top, clk),
                    ),
                ),
                ..registered(*old(circuit_builder))
            }),
    {
        let key = state_key_of(pc, stack_ts, memory_ts, stack_top, clk);
        circuit_builder.ram_record(
            RAMType::GlobalState,
            true,
            key,
            Expression::Constant(0),
            Vec::new(),
        );
    }
}

} // verus!
