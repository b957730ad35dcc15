//! The circuit template shared by R-type instructions: state in and out,
//! instruction fetch, and three timestamped register accesses.
use vstd::prelude::*;
use crate::circuit_builder::{
    CircuitBuilder, ExprLtConfig, MAX_COLUMNS, RAMModel, RAMType, ROMType, Registered,
    ZKVMError, limb_sum, limb_term, lt_constraint, lt_fresh, lt_lookups, reg_access, registered,
    state_key,
};
use crate::expr::{Expression, WitIn, eval};
use crate::witness::LkMultiplicity;

verus! {

/// How far the program counter moves in one step.
pub const PC_STEP_SIZE: u64 = 4;

/// Witness columns that the template allocates.
pub const R_INSN_WITIN: usize = 16;

/// The fixed encoding fields of an instruction kind.
#[derive(Clone, Copy, Debug, PartialEq, Eq, Structural)]
pub struct InsnCodes {
    pub opcode: u64,
    pub func3: u64,
    pub func7: u64,
}

/// The R-type instruction kinds.
#[derive(Clone, Copy, Debug, PartialEq, Eq, Structural)]
pub enum InsnKind {
    ADD,
    SUB,
    SLL,
    SLT,
    SLTU,
    XOR,
    SRL,
    SRA,
    OR,
    AND,
    MUL,
}

pub open spec fn codes_of(k: InsnKind) -> InsnCodes {
    let (f3, f7): (u64, u64) = match k {
        InsnKind::ADD => (0, 0),
        InsnKind::SUB => (0, 0x20),
        InsnKind::SLL => (1, 0),
        InsnKind::SLT => (2, 0),
        InsnKind::SLTU => (3, 0),
        InsnKind::XOR => (4, 0),
        InsnKind::SRL => (5, 0),
        InsnKind::SRA => (5, 0x20),
        InsnKind::OR => (6, 0),
        InsnKind::AND => (7, 0),
        InsnKind::MUL => (0, 1),
    };
    InsnCodes { opcode: 0x33, func3: f3, func7: f7 }
}

impl InsnKind {
    pub fn codes(&self) -> (r: InsnCodes)
        ensures
            r == codes_of(*self),
    {
        let (f3, f7): (u64, u64) = match self {
            InsnKind::ADD => (0, 0),
            InsnKind::SUB => (0, 0x20),
            InsnKind::SLL => (1, 0),
            InsnKind::SLT => (2, 0),
            InsnKind::SLTU => (3, 0),
            InsnKind::XOR => (4, 0),
            InsnKind::SRL => (5, 0),
            InsnKind::SRA => (5, 0x20),
            InsnKind::OR => (6, 0),
            InsnKind::AND => (7, 0),
            InsnKind::MUL => (0, 1),
        };
        InsnCodes { opcode: 0x33, func3: f3, func7: f7 }
    }
}

/// One register access of a step: when the register was last touched, and
/// the value it held before this step.
#[derive(Clone, Copy, Debug, PartialEq, Eq, Structural)]
pub struct RegAccess {
    pub previous_cycle: u64,
    pub value_before: u32,
}

/// One step of an execution trace.
#[derive(Clone, Copy, Debug, PartialEq, Eq, Structural)]
pub struct StepRecord {
    pub cycle: u64,
    pub pc: u32,
    pub rs1_id: u32,
    pub rs2_id: u32,
    pub rd_id: u32,
    pub rs1: Option<RegAccess>,
    pub rs2: Option<RegAccess>,
    pub rd: Option<RegAccess>,
}

/// The columns and gadgets of the R-type template.
#[derive(Clone, Copy, Debug)]
pub struct RInstructionConfig {
    pub pc: WitIn,
    pub ts: WitIn,
    pub rs1_id: WitIn,
    pub rs2_id: WitIn,
    pub rd_id: WitIn,
    pub prev_rs1_ts: WitIn,
    pub prev_rs2_ts: WitIn,
    pub prev_rd_ts: WitIn,
    pub prev_rd_value: [WitIn; 2],
    pub lt_rs1_cfg: ExprLtConfig,
    pub lt_rs2_cfg: ExprLtConfig,
    pub lt_prev_ts_cfg: ExprLtConfig,
}

/// The template's columns are the consecutive witness columns from `b`.
pub open spec fn layout_at(c: RInstructionConfig, b: int) -> bool {
    &&& c.pc.id == b
    &&& c.ts.id == b + 1
    &&& c.rs1_id.id == b + 2
    &&& c.rs2_id.id == b + 3
    &&& c.rd_id.id == b + 4
    &&& c.prev_rs1_ts.id == b + 5
    &&& c.prev_rs2_ts.id == b + 6
    &&& c.prev_rd_ts.id == b + 7
    &&& c.prev_rd_value[0].id == b + 8
    &&& c.prev_rd_value[1].id == b + 9
    &&& lt_fresh(c.lt_rs1_cfg, b + 10)
    &&& lt_fresh(c.lt_rs2_cfg, b + 12)
    &&& lt_fresh(c.lt_prev_ts_cfg, b + 14)
}

pub open spec fn w(x: WitIn) -> Expression {
    Expression::WitIn(x.id)
}

/// Timestamp after the first, second and third register access.
pub open spec fn ts_after(c: RInstructionConfig, k: nat) -> Expression
    decreases k,
{
    if k == 0 {
        w(c.ts)
    } else {
        ts_after(c, (k - 1) as nat).plus_spec(1)
    }
}

/// The instruction-table key `(opcode, rd, func3, rs1, rs2, func7, pc)`.
pub open spec fn fetch_key(c: RInstructionConfig, k: InsnCodes) -> Seq<Expression> {
    seq![
        Expression::Constant(k.opcode),
        w(c.rd_id),
        Expression::Constant(k.func3),
        w(c.rs1_id),
        w(c.rs2_id),
        Expression::Constant(k.func7),
        w(c.pc),
    ]
}

pub open spec fn global_state(write: bool, pc: Expression, ts: Expression) -> RAMModel {
    RAMModel {
        ram: RAMType::GlobalState,
        write,
        key: state_key(pc, ts),
        ts: Expression::Constant(0),
        value: Seq::empty(),
    }
}

/// The RAM accesses of one step: state in, the three register accesses,
/// and state out with `pc + 4` and the timestamp after the write plus one.
pub open spec fn template_ram(
    c: RInstructionConfig,
    rs1: Seq<Expression>,
    rs2: Seq<Expression>,
    rd: Seq<Expression>,
) -> Seq<RAMModel> {
    seq![global_state(false, w(c.pc), w(c.ts))] + reg_access(
        c.rs1_id,
        w(c.prev_rs1_ts),
        ts_after(c, 0),
        rs1,
        rs1,
    ) + reg_access(c.rs2_id, w(c.prev_rs2_ts), ts_after(c, 1), rs2, rs2) + reg_access(
        c.rd_id,
        w(c.prev_rd_ts),
        ts_after(c, 2),
        seq![w(c.prev_rd_value[0]), w(c.prev_rd_value[1])],
        rd,
    ) + seq![global_state(true, w(c.pc).plus_spec(PC_STEP_SIZE), ts_after(c, 3).plus_spec(1))]
}

pub open spec fn template_lookups(c: RInstructionConfig, k: InsnCodes) -> Seq<
    (ROMType, Seq<Expression>),
> {
    seq![(ROMType::Instruction, fetch_key(c, k))] + lt_lookups(c.lt_rs1_cfg) + lt_lookups(
        c.lt_rs2_cfg,
    ) + lt_lookups(c.lt_prev_ts_cfg)
}

pub open spec fn template_zeros(c: RInstructionConfig) -> Seq<Expression> {
    seq![
        lt_constraint(w(c.prev_rs1_ts), ts_after(c, 0), c.lt_rs1_cfg),
        lt_constraint(w(c.prev_rs2_ts), ts_after(c, 1), c.lt_rs2_cfg),
        lt_constraint(w(c.prev_rd_ts), ts_after(c, 2), c.lt_prev_ts_cfg),
    ]
}

/// Limb `i` (16 bits) of `d`.
pub open spec fn limb_of(d: u64, i: u64) -> u64 {
    if i == 0 {
        d & 0xffff
    } else if i == 1 {
        (d >> 16u64) & 0xffff
    } else if i == 2 {
        (d >> 32u64) & 0xffff
    } else {
        (d >> 48u64) & 0xffff
    }
}

fn limb(d: u64, i: u64) -> (r: u64)
    ensures
        r == limb_of(d, i),
{
    if i == 0 {
        d & 0xffff
    } else if i == 1 {
        (d >> 16u64) & 0xffff
    } else if i == 2 {
        (d >> 32u64) & 0xffff
    } else {
        (d >> 48u64) & 0xffff
    }
}

/// The row with the gadget's limbs of `d` written in.
pub open spec fn lt_row(row: Seq<u64>, c: ExprLtConfig, d: u64) -> Seq<u64> {
    row.update(c.diff[0].id as int, limb_of(d, 0)).update(c.diff[1].id as int, limb_of(d, 1))
}

/// The range checks that the gadget's limbs of `d` record.
pub open spec fn lt_records(d: u64) -> Seq<(ROMType, u64)> {
    seq![
        (ROMType::U16, limb_of(d, 0)),
        (ROMType::U16, limb_of(d, 1)),
    ]
}

/// The largest gap between a previous timestamp and its access, plus one,
/// that the ordering gadget's two 16-bit limbs can show.
pub const MAX_TS_GAP: u64 = 0x1_0000_0000;

/// The step carries all three register accesses, and each previous
/// timestamp lies strictly before its access: rs1 at `cycle`, rs2 at
/// `cycle + 1`, rd at `cycle + 2`.
pub open spec fn step_ordered(s: StepRecord) -> bool {
    &&& s.rs1 is Some
    &&& s.rs2 is Some
    &&& s.rd is Some
    &&& s.rs1->Some_0.previous_cycle < s.cycle
    &&& s.rs2->Some_0.previous_cycle < s.cycle + 1
    &&& s.rd->Some_0.previous_cycle < s.cycle + 2
}

/// The step is ordered, and no access comes `2^32` or more timestamps
/// after the register's previous access.
pub open spec fn step_ok(s: StepRecord) -> bool {
    &&& step_ordered(s)
    &&& s.cycle - s.rs1->Some_0.previous_cycle <= MAX_TS_GAP
    &&& s.cycle + 1 - s.rs2->Some_0.previous_cycle <= MAX_TS_GAP
    &&& s.cycle + 2 - s.rd->Some_0.previous_cycle <= MAX_TS_GAP
}

/// `rhs - lhs - 1` modulo `2^64`: the gap the ordering gadget decomposes.
pub open spec fn lt_gap(lhs: u64, rhs: u64) -> u64 {
    if lhs < rhs {
        (rhs - lhs - 1) as u64
    } else {
        (u64::MAX - (lhs - rhs)) as u64
    }
}

fn gap(lhs: u64, rhs: u64) -> (r: u64)
    ensures
        r == lt_gap(lhs, rhs),
{
    if lhs < rhs {
        rhs - lhs - 1
    } else {
        u64::MAX - (lhs - rhs)
    }
}

/// The row of one step, written over `row`.
pub open spec fn assigned_row(row: Seq<u64>, c: RInstructionConfig, s: StepRecord) -> Seq<u64> {
    let a1 = s.rs1->Some_0;
    let a2 = s.rs2->Some_0;
    let a3 = s.rd->Some_0;
    let base = row.update(c.pc.id as int, s.pc as u64).update(c.ts.id as int, s.cycle).update(
        c.rs1_id.id as int,
        s.rs1_id as u64,
    ).update(c.rs2_id.id as int, s.rs2_id as u64).update(c.rd_id.id as int, s.rd_id as u64).update(
        c.prev_rs1_ts.id as int,
        a1.previous_cycle,
    ).update(c.prev_rs2_ts.id as int, a2.previous_cycle).update(
        c.prev_rd_ts.id as int,
        a3.previous_cycle,
    ).update(c.prev_rd_value[0].id as int, (a3.value_before & 0xffff) as u64).update(
        c.prev_rd_value[1].id as int,
        (a3.value_before >> 16) as u64,
    );
    lt_row(
        lt_row(
            lt_row(base, c.lt_rs1_cfg, lt_gap(a1.previous_cycle, s.cycle)),
            c.lt_rs2_cfg,
            lt_gap(a2.previous_cycle, (s.cycle + 1) as u64),
        ),
        c.lt_prev_ts_cfg,
        lt_gap(a3.previous_cycle, (s.cycle + 2) as u64),
    )
}

/// The lookups one step records: its fetch, then the range checks of the
/// three gadgets.
pub open spec fn assigned_lookups(s: StepRecord) -> Seq<(ROMType, u64)> {
    seq![(ROMType::Instruction, s.pc as u64)] + lt_records(
        lt_gap(s.rs1->Some_0.previous_cycle, s.cycle),
    ) + lt_records(lt_gap(s.rs2->Some_0.previous_cycle, (s.cycle + 1) as u64)) + lt_records(
        lt_gap(s.rd->Some_0.previous_cycle, (s.cycle + 2) as u64),
    )
}

fn assign_lt(
    instance: &mut Vec<u64>,
    lk: &mut LkMultiplicity,
    c: &ExprLtConfig,
    lhs: u64,
    rhs: u64,
)
    requires
        forall|i: int| 0 <= i < 2 ==> #[trigger] c.diff[i].id < old(instance)@.len(),
    ensures
        final(instance)@ == lt_row(old(instance)@, *c, lt_gap(lhs, rhs)),
        final(lk)@ == old(lk)@ + lt_records(lt_gap(lhs, rhs)),
{
    let d = gap(lhs, rhs);
    let v0 = limb(d, 0);
    let v1 = limb(d, 1);
    instance.set(c.diff[0].id, v0);
    instance.set(c.diff[1].id, v1);
    lk.assert_u16(v0);
    lk.assert_u16(v1);
}

fn fresh(cb: &mut CircuitBuilder) -> (r: WitIn)
    requires
        old(cb).num_witin < MAX_COLUMNS,
    ensures
        r.id == old(cb).num_witin,
        final(cb).num_witin == old(cb).num_witin + 1,
        final(cb).num_fixed == old(cb).num_fixed,
        registered(*final(cb)) == registered(*old(cb)),
{
    match cb.create_witin() {
        Ok(x) => x,
        Err(_) => WitIn { id: 0 },
    }
}

impl RInstructionConfig {
    /// Builds the template for `insn_kind` on the operand expressions that
    /// the instruction's own circuit supplies: the values read from rs1 and
    /// rs2 and the value written to rd.
    pub fn construct_circuit(
        circuit_builder: &mut CircuitBuilder,
        insn_kind: InsnKind,
        rs1_read: &Vec<Expression>,
        rs2_read: &Vec<Expression>,
        rd_written: &Vec<Expression>,
    ) -> (r: Result<Self, ZKVMError>)
        ensures
            old(circuit_builder).num_witin + R_INSN_WITIN > MAX_COLUMNS ==> r == Err::<
                Self,
                ZKVMError,
            >(ZKVMError::TooManyColumns) && *final(circuit_builder) == *old(circuit_builder),
            old(circuit_builder).num_witin + R_INSN_WITIN <= MAX_COLUMNS ==> r is Ok && layout_at(
                r->Ok_0,
                old(circuit_builder).num_witin as int,
            ) && final(circuit_builder).num_witin == old(circuit_builder).num_witin + R_INSN_WITIN
                && final(circuit_builder).num_fixed == old(circuit_builder).num_fixed && registered(
                *final(circuit_builder),
            ) == (Registered {
                lookups: registered(*old(circuit_builder)).lookups + template_lookups(
                    r->Ok_0,
                    codes_of(insn_kind),
                ),
                tables: registered(*old(circuit_builder)).tables,
                ram: registered(*old(circuit_builder)).ram + template_ram(
                    r->Ok_0,
                    rs1_read@,
                    rs2_read@,
                    rd_written@,
                ),
                zeros: registered(*old(circuit_builder)).zeros + template_zeros(r->Ok_0),
            }),
    {
        let cb = circuit_builder;
        if cb.num_witin > MAX_COLUMNS - R_INSN_WITIN {
            return Err(ZKVMError::TooManyColumns);
        }
        let ghost r0 = registered(*cb);
        // State in.
        let pc = fresh(cb);
        let cur_ts = fresh(cb);
        cb.state_in(pc.expr(), cur_ts.expr());
        // Register indexes.
        let rs1_id = fresh(cb);
        let rs2_id = fresh(cb);
        let rd_id = fresh(cb);
        // Fetch the instruction.
        let codes = insn_kind.codes();
        let key = vec![
            Expression::Constant(codes.opcode),
            rd_id.expr(),
            Expression::Constant(codes.func3),
            rs1_id.expr(),
            rs2_id.expr(),
            Expression::Constant(codes.func7),
            pc.expr(),
        ];
        let ghost r1 = registered(*cb);
        cb.lk_record(ROMType::Instruction, key);
        // Register state.
        let prev_rs1_ts = fresh(cb);
        let prev_rs2_ts = fresh(cb);
        let prev_rd_ts = fresh(cb);
        let v0 = fresh(cb);
        let v1 = fresh(cb);
        let prev_rd_value = [v0, v1];
        let prev_rd_exprs = vec![v0.expr(), v1.expr()];
        let ghost r2 = registered(*cb);
        // Register read and write.
        let (ts, lt_rs1_cfg) = match cb.register_access(
            rs1_id,
            prev_rs1_ts.expr(),
            cur_ts.expr(),
            rs1_read,
            rs1_read,
        ) {
            Ok(x) => x,
            Err(e) => return Err(e),
        };
        let ghost r3 = registered(*cb);
        let (ts, lt_rs2_cfg) = match cb.register_access(
            rs2_id,
            prev_rs2_ts.expr(),
            ts,
            rs2_read,
            rs2_read,
        ) {
            Ok(x) => x,
            Err(e) => return Err(e),
        };
        let ghost r4 = registered(*cb);
        let (ts, lt_prev_ts_cfg) = match cb.register_access(
            rd_id,
            prev_rd_ts.expr(),
            ts,
            &prev_rd_exprs,
            rd_written,
        ) {
            Ok(x) => x,
            Err(e) => return Err(e),
        };
        let ghost r5 = registered(*cb);
        // State out.
        cb.state_out(pc.expr().plus(PC_STEP_SIZE), ts.plus(1));
        let c = RInstructionConfig {
            pc,
            ts: cur_ts,
            rs1_id,
            rs2_id,
            rd_id,
            prev_rs1_ts,
            prev_rs2_ts,
            prev_rd_ts,
            prev_rd_value,
            lt_rs1_cfg,
            lt_rs2_cfg,
            lt_prev_ts_cfg,
        };
        proof {
            reveal_with_fuel(ts_after, 4);
            assert(key@ =~= fetch_key(c, codes_of(insn_kind)));
            assert(prev_rd_exprs@ =~= seq![w(c.prev_rd_value[0]), w(c.prev_rd_value[1])]);
            assert(registered(*cb).lookups =~= r0.lookups + template_lookups(c, codes_of(insn_kind)));
            assert(registered(*cb).ram =~= r0.ram + template_ram(c, rs1_read@, rs2_read@, rd_written@));
            assert(registered(*cb).zeros =~= r0.zeros + template_zeros(c));
        }
        Ok(c)
    }
}

impl RInstructionConfig {
    /// Fills one instance's row from a trace step that carries all three
    /// register accesses, and records the step's lookups. Each ordering
    /// gadget gets the gap between the previous timestamp and the access,
    /// modulo `2^64`; a step whose accesses are out of order still gets a
    /// row, one that the template's constraints reject.
    pub fn assign_instance(
        &self,
        instance: &mut Vec<u64>,
        lk_multiplicity: &mut LkMultiplicity,
        step: &StepRecord,
    ) -> (r: Result<(), ZKVMError>)
        requires
            layout_at(*self, self.pc.id as int),
            self.pc.id + R_INSN_WITIN <= old(instance)@.len(),
            step.cycle + 2 <= u64::MAX,
            step.rs1 is Some,
            step.rs2 is Some,
            step.rd is Some,
        ensures
            r is Ok && final(instance)@ == assigned_row(
                old(instance)@,
                *self,
                *step,
            ) && final(lk_multiplicity)@ == old(lk_multiplicity)@ + assigned_lookups(*step),
    {
        let a1 = step.rs1.unwrap();
        let a2 = step.rs2.unwrap();
        let a3 = step.rd.unwrap();
        let ghost l0 = lk_multiplicity@;
        // State in.
        instance.set(self.pc.id, step.pc as u64);
        instance.set(self.ts.id, step.cycle);
        // Register indexes.
        instance.set(self.rs1_id.id, step.rs1_id as u64);
        instance.set(self.rs2_id.id, step.rs2_id as u64);
        instance.set(self.rd_id.id, step.rd_id as u64);
        // Fetch the instruction.
        lk_multiplicity.fetch(step.pc);
        // Register state.
        instance.set(self.prev_rs1_ts.id, a1.previous_cycle);
        instance.set(self.prev_rs2_ts.id, a2.previous_cycle);
        instance.set(self.prev_rd_ts.id, a3.previous_cycle);
        instance.set(self.prev_rd_value[0].id, (a3.value_before & 0xffff) as u64);
        instance.set(self.prev_rd_value[1].id, (a3.value_before >> 16) as u64);
        // Register read and write.
        assign_lt(instance, lk_multiplicity, &self.lt_rs1_cfg, a1.previous_cycle, step.cycle);
        assign_lt(instance, lk_multiplicity, &self.lt_rs2_cfg, a2.previous_cycle, step.cycle + 1);
        assign_lt(instance, lk_multiplicity, &self.lt_prev_ts_cfg, a3.previous_cycle, step.cycle + 2);
        proof {
            assert(lk_multiplicity@ =~= l0 + assigned_lookups(*step));
        }
        Ok(())
    }
}

/// The values of a key's expressions on a witness row.
pub open spec fn eval_key(k: Seq<Expression>, row: Seq<u64>) -> Seq<int> {
    k.map_values(|e: Expression| eval(e, row, Seq::empty()))
}

/// On every assigned instance, the three accesses happen at `cycle`,
/// `cycle + 1` and `cycle + 2`, strictly increasing, and each previous
/// timestamp lies strictly before its access.
pub proof fn lemma_timestamp_monotonicity(c: RInstructionConfig, row: Seq<u64>, s: StepRecord)
    requires
        layout_at(c, c.pc.id as int),
        c.pc.id + R_INSN_WITIN <= row.len(),
        step_ok(s),
    ensures
        ({
            let r = assigned_row(row, c, s);
            &&& eval(ts_after(c, 0), r, Seq::empty()) == s.cycle
            &&& eval(ts_after(c, 1), r, Seq::empty()) == s.cycle + 1
            &&& eval(ts_after(c, 2), r, Seq::empty()) == s.cycle + 2
            &&& r[c.prev_rs1_ts.id as int] < eval(ts_after(c, 0), r, Seq::empty())
            &&& r[c.prev_rs2_ts.id as int] < eval(ts_after(c, 1), r, Seq::empty())
            &&& r[c.prev_rd_ts.id as int] < eval(ts_after(c, 2), r, Seq::empty())
            &&& eval(ts_after(c, 0), r, Seq::empty()) < eval(ts_after(c, 1), r, Seq::empty())
            &&& eval(ts_after(c, 1), r, Seq::empty()) < eval(ts_after(c, 2), r, Seq::empty())
        }),
{
    reveal_with_fuel(ts_after, 3);
    reveal_with_fuel(eval, 5);
    let r = assigned_row(row, c, s);
    assert(r[c.ts.id as int] == s.cycle);
    assert(r[c.prev_rs1_ts.id as int] == s.rs1->Some_0.previous_cycle);
    assert(r[c.prev_rs2_ts.id as int] == s.rs2->Some_0.previous_cycle);
    assert(r[c.prev_rd_ts.id as int] == s.rd->Some_0.previous_cycle);
}

/// The state a step writes out, read on its row, is the state the next
/// step reads in, read on that step's row, exactly when the next step
/// starts at `pc + 4` and at timestamp `cycle + 4`.
pub proof fn lemma_state_continuity(
    c: RInstructionConfig,
    row1: Seq<u64>,
    s1: StepRecord,
    row2: Seq<u64>,
    s2: StepRecord,
)
    requires
        layout_at(c, c.pc.id as int),
        c.pc.id + R_INSN_WITIN <= row1.len(),
        c.pc.id + R_INSN_WITIN <= row2.len(),
        step_ok(s1),
        step_ok(s2),
    ensures
        eval_key(
            state_key(w(c.pc).plus_spec(PC_STEP_SIZE), ts_after(c, 3).plus_spec(1)),
            assigned_row(row1, c, s1),
        ) == eval_key(state_key(w(c.pc), w(c.ts)), assigned_row(row2, c, s2)) <==> (s2.pc
            == s1.pc + PC_STEP_SIZE && s2.cycle == s1.cycle + 4),
{
    reveal_with_fuel(ts_after, 4);
    reveal_with_fuel(eval, 6);
    let r1 = assigned_row(row1, c, s1);
    let r2 = assigned_row(row2, c, s2);
    assert(r1[c.ts.id as int] == s1.cycle);
    assert(r1[c.pc.id as int] == s1.pc);
    assert(r2[c.ts.id as int] == s2.cycle);
    assert(r2[c.pc.id as int] == s2.pc);
    let k1 = eval_key(state_key(w(c.pc).plus_spec(PC_STEP_SIZE), ts_after(c, 3).plus_spec(1)), r1);
    let k2 = eval_key(state_key(w(c.pc), w(c.ts)), r2);
    assert(k1[1] == s1.pc + 4);
    assert(k1[2] == s1.cycle + 4);
    assert(k2[1] == s2.pc);
    assert(k2[2] == s2.cycle);
    if s2.pc == s1.pc + PC_STEP_SIZE && s2.cycle == s1.cycle + 4 {
        assert(k1 =~= k2);
    }
}

proof fn lemma_limbs(d: u64)
    requires
        d < MAX_TS_GAP,
    ensures
        d as int == limb_of(d, 0) + limb_of(d, 1) * 0x1_0000,
{
    let l0 = d & 0xffff;
    let l1 = (d >> 16u64) & 0xffff;
    assert(d == l0 + l1 * 0x1_0000) by (bit_vector)
        requires
            d < 0x1_0000_0000,
            l0 == d & 0xffff,
            l1 == (d >> 16u64) & 0xffff,
    ;
    assert(l0 < 0x10000 && l1 < 0x10000) by (bit_vector)
        requires
            l0 == d & 0xffff,
            l1 == (d >> 16u64) & 0xffff,
    ;
}

proof fn lemma_lt_eval(r: Seq<u64>, lhs: Expression, rhs: Expression, c: ExprLtConfig, d: u64)
    requires
        forall|i: int| 0 <= i < 2 ==> r[#[trigger] c.diff[i].id as int] == limb_of(d, i as u64),
    ensures
        eval(lt_constraint(lhs, rhs, c), r, Seq::empty()) == eval(lhs, r, Seq::empty()) + 1
            + limb_of(d, 0) + limb_of(d, 1) * 0x1_0000 - eval(rhs, r, Seq::empty()),
        limb_of(d, 0) < 0x1_0000,
        limb_of(d, 1) < 0x1_0000,
{
    reveal_with_fuel(eval, 4);
    let e = Seq::<u64>::empty();
    assert(r[c.diff[0].id as int] == limb_of(d, 0));
    assert(r[c.diff[1].id as int] == limb_of(d, 1));
    assert(eval(limb_term(c.diff[0], 0), r, e) == limb_of(d, 0) * 1);
    assert(eval(limb_term(c.diff[1], 1), r, e) == limb_of(d, 1) * 0x1_0000);
    let l0 = d & 0xffff;
    let l1 = (d >> 16u64) & 0xffff;
    assert(l0 < 0x10000 && l1 < 0x10000) by (bit_vector)
        requires
            l0 == d & 0xffff,
            l1 == (d >> 16u64) & 0xffff,
    ;
}

/// The ordering constraint is sound modulo any modulus `p` that exceeds
/// `2^32` plus both timestamps: if `lhs + 1 + limbs - rhs` is a multiple of
/// `p` with two 16-bit limbs, then `lhs < rhs`. Over a 64-bit prime field
/// this holds for timestamps below `2^62`.
pub proof fn lemma_ordering_sound_mod(lhs: int, rhs: int, l0: int, l1: int, p: int)
    requires
        0 <= lhs,
        0 <= rhs,
        0 <= l0 < 0x1_0000,
        0 <= l1 < 0x1_0000,
        lhs + rhs + 0x1_0000_0000 < p,
        (lhs + 1 + l0 + l1 * 0x1_0000 - rhs) % p == 0,
    ensures
        lhs < rhs,
{
    let x = lhs + 1 + l0 + l1 * 0x1_0000 - rhs;
    assert(0 <= l1 * 0x1_0000 < 0x1_0000_0000 - 0x1_0000 + 1) by (nonlinear_arith)
        requires
            0 <= l1 < 0x1_0000,
    ;
    assert(-p < x < p);
    vstd::arithmetic::div_mod::lemma_fundamental_div_mod(x, p);
    let q = x / p;
    assert(x == p * q);
    assert(q == 0) by (nonlinear_arith)
        requires
            x == p * q,
            -p < x < p,
            p > 0,
    ;
}

/// The row assigned from a step satisfies all three ordering constraints
/// of the template exactly when each previous timestamp lies strictly
/// before its access, by at most `2^32`: a step with an access out of order
/// yields a row that the constraints reject.
pub proof fn lemma_assigned_row_satisfies_ordering(
    c: RInstructionConfig,
    row: Seq<u64>,
    s: StepRecord,
)
    requires
        layout_at(c, c.pc.id as int),
        c.pc.id + R_INSN_WITIN <= row.len(),
        s.rs1 is Some,
        s.rs2 is Some,
        s.rd is Some,
        s.cycle + 2 <= u64::MAX,
    ensures
        (forall|k: int|
            0 <= k < 3 ==> eval(#[trigger] template_zeros(c)[k], assigned_row(row, c, s), Seq::empty())
                == 0) <==> step_ok(s),
{
    let r = assigned_row(row, c, s);
    let e = Seq::<u64>::empty();
    let p1 = s.rs1->Some_0.previous_cycle;
    let p2 = s.rs2->Some_0.previous_cycle;
    let p3 = s.rd->Some_0.previous_cycle;
    let d1 = lt_gap(p1, s.cycle);
    let d2 = lt_gap(p2, (s.cycle + 1) as u64);
    let d3 = lt_gap(p3, (s.cycle + 2) as u64);
    reveal_with_fuel(eval, 5);
    reveal_with_fuel(ts_after, 3);
    assert(r[c.ts.id as int] == s.cycle);
    assert(r[c.prev_rs1_ts.id as int] == p1);
    assert(r[c.prev_rs2_ts.id as int] == p2);
    assert(r[c.prev_rd_ts.id as int] == p3);
    assert(eval(ts_after(c, 0), r, e) == s.cycle);
    assert(eval(ts_after(c, 1), r, e) == s.cycle + 1);
    assert(eval(ts_after(c, 2), r, e) == s.cycle + 2);
    assert forall|i: int| 0 <= i < 2 implies r[#[trigger] c.lt_rs1_cfg.diff[i].id as int] == limb_of(
        d1,
        i as u64,
    ) by {}
    assert forall|i: int| 0 <= i < 2 implies r[#[trigger] c.lt_rs2_cfg.diff[i].id as int] == limb_of(
        d2,
        i as u64,
    ) by {}
    assert forall|i: int| 0 <= i < 2 implies r[#[trigger] c.lt_prev_ts_cfg.diff[i].id as int] == limb_of(
        d3,
        i as u64,
    ) by {}
    lemma_lt_eval(r, w(c.prev_rs1_ts), ts_after(c, 0), c.lt_rs1_cfg, d1);
    lemma_lt_eval(r, w(c.prev_rs2_ts), ts_after(c, 1), c.lt_rs2_cfg, d2);
    lemma_lt_eval(r, w(c.prev_rd_ts), ts_after(c, 2), c.lt_prev_ts_cfg, d3);
    let z = template_zeros(c);
    if step_ok(s) {
        lemma_limbs(d1);
        lemma_limbs(d2);
        lemma_limbs(d3);
        assert forall|k: int| 0 <= k < 3 implies eval(#[trigger] z[k], r, e) == 0 by {
            if k == 0 {
                assert(z[0] == lt_constraint(w(c.prev_rs1_ts), ts_after(c, 0), c.lt_rs1_cfg));
            } else if k == 1 {
                assert(z[1] == lt_constraint(w(c.prev_rs2_ts), ts_after(c, 1), c.lt_rs2_cfg));
            } else {
                assert(z[2] == lt_constraint(w(c.prev_rd_ts), ts_after(c, 2), c.lt_prev_ts_cfg));
            }
        }
    }
    if forall|k: int| 0 <= k < 3 ==> eval(#[trigger] z[k], r, e) == 0 {
        assert(eval(z[0], r, e) == 0);
        assert(eval(z[1], r, e) == 0);
        assert(eval(z[2], r, e) == 0);
        assert(step_ok(s));
    }
}

} // verus!
