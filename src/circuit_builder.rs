//! The constraint-allocation context: hands out fresh columns and collects
//! lookups, table records, RAM accesses and zero constraints for one circuit.
use vstd::prelude::*;
use crate::expr::{Expression, Fixed, WitIn, dup_all};

verus! {

/// The most columns of each kind that one circuit may allocate.
pub const MAX_COLUMNS: usize = 65536;

/// The fixed lookup tables, told apart by a small tag.
#[derive(Clone, Copy, Debug, PartialEq, Eq, Structural)]
pub enum ROMType {
    U16,
    Instruction,
    And,
    Or,
    Xor,
    Ltu,
}

/// The read/write memories whose accesses are matched across the trace.
#[derive(Clone, Copy, Debug, PartialEq, Eq, Structural)]
pub enum RAMType {
    GlobalState,
    Register,
    Memory,
}

pub open spec fn rom_tag(r: ROMType) -> u64 {
    match r {
        ROMType::U16 => 0,
        ROMType::Instruction => 1,
        ROMType::And => 2,
        ROMType::Or => 3,
        ROMType::Xor => 4,
        ROMType::Ltu => 5,
    }
}

pub open spec fn ram_tag(r: RAMType) -> u64 {
    match r {
        RAMType::GlobalState => 0,
        RAMType::Register => 1,
        RAMType::Memory => 2,
    }
}

impl ROMType {
    pub fn tag(&self) -> (r: u64)
        ensures
            r == rom_tag(*self),
    {
        match self {
            ROMType::U16 => 0,
            ROMType::Instruction => 1,
            ROMType::And => 2,
            ROMType::Or => 3,
            ROMType::Xor => 4,
            ROMType::Ltu => 5,
        }
    }
}

impl RAMType {
    pub fn tag(&self) -> (r: u64)
        ensures
            r == ram_tag(*self),
    {
        match self {
            RAMType::GlobalState => 0,
            RAMType::Register => 1,
            RAMType::Memory => 2,
        }
    }
}

/// Why building or assigning a circuit failed.
#[derive(Clone, Copy, Debug, PartialEq, Eq, Structural)]
pub enum ZKVMError {
    /// The circuit asked for more columns than one circuit may hold.
    TooManyColumns,
}

/// A lookup of `key` into table `rom`.
#[derive(Debug)]
pub struct LookupRecord {
    pub rom: ROMType,
    pub key: Vec<Expression>,
}

/// A table row declaration: `key` is present with multiplicity `mlt`.
#[derive(Debug)]
pub struct TableRecord {
    pub rom: ROMType,
    pub key: Vec<Expression>,
    pub mlt: Expression,
}

/// A read or write of `value` at `key` in memory `ram`, at timestamp `ts`.
#[derive(Debug)]
pub struct RAMRecord {
    pub ram: RAMType,
    pub write: bool,
    pub key: Vec<Expression>,
    pub ts: Expression,
    pub value: Vec<Expression>,
}

/// A RAM access in the model.
pub struct RAMModel {
    pub ram: RAMType,
    pub write: bool,
    pub key: Seq<Expression>,
    pub ts: Expression,
    pub value: Seq<Expression>,
}

impl View for LookupRecord {
    type V = (ROMType, Seq<Expression>);

    open spec fn view(&self) -> (ROMType, Seq<Expression>) {
        (self.rom, self.key@)
    }
}

impl View for TableRecord {
    type V = (ROMType, Seq<Expression>, Expression);

    open spec fn view(&self) -> (ROMType, Seq<Expression>, Expression) {
        (self.rom, self.key@, self.mlt)
    }
}

impl View for RAMRecord {
    type V = RAMModel;

    open spec fn view(&self) -> RAMModel {
        RAMModel {
            ram: self.ram,
            write: self.write,
            key: self.key@,
            ts: self.ts,
            value: self.value@,
        }
    }
}

/// The strict-less-than gadget: `lhs < rhs` is shown by two 16-bit limbs
/// of `rhs - lhs - 1`, so the gap between the two is below `2^32`.
#[derive(Clone, Copy, Debug)]
pub struct ExprLtConfig {
    pub diff: [WitIn; 2],
}

/// The circuit under construction.
#[derive(Debug)]
pub struct CircuitBuilder {
    pub num_witin: usize,
    pub num_fixed: usize,
    pub lookups: Vec<LookupRecord>,
    pub tables: Vec<TableRecord>,
    pub ram: Vec<RAMRecord>,
    pub zeros: Vec<Expression>,
}

/// Everything a circuit has registered, in the model.
pub struct Registered {
    pub lookups: Seq<(ROMType, Seq<Expression>)>,
    pub tables: Seq<(ROMType, Seq<Expression>, Expression)>,
    pub ram: Seq<RAMModel>,
    pub zeros: Seq<Expression>,
}

pub open spec fn registered(cb: CircuitBuilder) -> Registered {
    Registered {
        lookups: cb.lookups@.map_values(|r: LookupRecord| r@),
        tables: cb.tables@.map_values(|r: TableRecord| r@),
        ram: cb.ram@.map_values(|r: RAMRecord| r@),
        zeros: cb.zeros@,
    }
}

/// `lhs + 1 + sum(diff[i] * 2^(16 i)) - rhs`, which the gadget asserts zero.
pub open spec fn lt_constraint(lhs: Expression, rhs: Expression, c: ExprLtConfig) -> Expression {
    Expression::Sum(
        Box::new(Expression::Sum(Box::new(lhs), Box::new(Expression::Constant(1)))),
        Box::new(
            Expression::Sum(
                Box::new(limb_sum(c)),
                Box::new(Expression::Neg(Box::new(rhs))),
            ),
        ),
    )
}

/// The weight of limb `i` (0 or 1): `2^(16 i)`.
pub open spec fn limb_weight(i: nat) -> u64 {
    if i == 0 {
        1
    } else {
        0x1_0000
    }
}

pub open spec fn limb_term(w: WitIn, i: nat) -> Expression {
    Expression::Product(
        Box::new(Expression::WitIn(w.id)),
        Box::new(Expression::Constant(limb_weight(i))),
    )
}

pub open spec fn limb_sum(c: ExprLtConfig) -> Expression {
    Expression::Sum(
        Box::new(limb_term(c.diff[0], 0)),
        Box::new(limb_term(c.diff[1], 1)),
    )
}

/// The range-check lookups the gadget registers, one per limb.
pub open spec fn lt_lookups(c: ExprLtConfig) -> Seq<(ROMType, Seq<Expression>)> {
    Seq::new(2, |i: int| (ROMType::U16, seq![Expression::WitIn(c.diff[i].id)]))
}

/// The gadget's limb columns are the two columns allocated from `start`.
pub open spec fn lt_fresh(c: ExprLtConfig, start: int) -> bool {
    forall|i: int| 0 <= i < 2 ==> #[trigger] c.diff[i].id == start + i
}

impl CircuitBuilder {
    pub fn new() -> (r: Self)
        ensures
            r.num_witin == 0,
            r.num_fixed == 0,
            registered(r) == (Registered {
                lookups: Seq::empty(),
                tables: Seq::empty(),
                ram: Seq::empty(),
                zeros: Seq::empty(),
            }),
    {
        let r = CircuitBuilder {
            num_witin: 0,
            num_fixed: 0,
            lookups: Vec::new(),
            tables: Vec::new(),
            ram: Vec::new(),
            zeros: Vec::new(),
        };
        assert(registered(r).lookups =~= Seq::empty());
        assert(registered(r).tables =~= Seq::empty());
        assert(registered(r).ram =~= Seq::empty());
        r
    }

    /// Allocates the next witness column.
    pub fn create_witin(&mut self) -> (r: Result<WitIn, ZKVMError>)
        ensures
            registered(*final(self)) == registered(*old(self)),
            final(self).num_fixed == old(self).num_fixed,
            old(self).num_witin < MAX_COLUMNS ==> r == Ok::<WitIn, ZKVMError>(
                WitIn { id: old(self).num_witin },
            ) && final(self).num_witin == old(self).num_witin + 1,
            old(self).num_witin >= MAX_COLUMNS ==> r == Err::<WitIn, ZKVMError>(
                ZKVMError::TooManyColumns,
            ) && final(self).num_witin == old(self).num_witin,
    {
        if self.num_witin >= MAX_COLUMNS {
            return Err(ZKVMError::TooManyColumns);
        }
        let id = self.num_witin;
        self.num_witin = id + 1;
        Ok(WitIn { id })
    }

    /// Allocates the next fixed column.
    pub fn create_fixed(&mut self) -> (r: Result<Fixed, ZKVMError>)
        ensures
            registered(*final(self)) == registered(*old(self)),
            final(self).num_witin == old(self).num_witin,
            old(self).num_fixed < MAX_COLUMNS ==> r == Ok::<Fixed, ZKVMError>(
                Fixed(old(self).num_fixed),
            ) && final(self).num_fixed == old(self).num_fixed + 1,
            old(self).num_fixed >= MAX_COLUMNS ==> r == Err::<Fixed, ZKVMError>(
                ZKVMError::TooManyColumns,
            ) && final(self).num_fixed == old(self).num_fixed,
    {
        if self.num_fixed >= MAX_COLUMNS {
            return Err(ZKVMError::TooManyColumns);
        }
        let id = self.num_fixed;
        self.num_fixed = id + 1;
        Ok(Fixed(id))
    }

    /// Registers a lookup of `key` into table `rom`.
    pub fn lk_record(&mut self, rom: ROMType, key: Vec<Expression>)
        ensures
            final(self).num_witin == old(self).num_witin,
            final(self).num_fixed == old(self).num_fixed,
            registered(*final(self)) == (Registered {
                lookups: registered(*old(self)).lookups.push((rom, key@)),
                ..registered(*old(self))
            }),
    {
        let ghost pre = registered(*self);
        self.lookups.push(LookupRecord { rom, key });
        assert(registered(*self).lookups =~= pre.lookups.push((rom, key@)));
    }

    /// Declares the rows of table `rom`: `key` with multiplicity `mlt`.
    pub fn lk_table_record(&mut self, rom: ROMType, key: Vec<Expression>, mlt: Expression)
        ensures
            final(self).num_witin == old(self).num_witin,
            final(self).num_fixed == old(self).num_fixed,
            registered(*final(self)) == (Registered {
                tables: registered(*old(self)).tables.push((rom, key@, mlt)),
                ..registered(*old(self))
            }),
    {
        let ghost pre = registered(*self);
        let ghost m = mlt;
        self.tables.push(TableRecord { rom, key, mlt });
        assert(registered(*self).tables =~= pre.tables.push((rom, key@, m)));
    }

    /// Registers an access to memory `ram`.
    pub fn ram_record(
        &mut self,
        ram: RAMType,
        write: bool,
        key: Vec<Expression>,
        ts: Expression,
        value: Vec<Expression>,
    )
        ensures
            final(self).num_witin == old(self).num_witin,
            final(self).num_fixed == old(self).num_fixed,
            registered(*final(self)) == (Registered {
                ram: registered(*old(self)).ram.push(
                    RAMModel { ram, write, key: key@, ts, value: value@ },
                ),
                ..registered(*old(self))
            }),
    {
        let ghost pre = registered(*self);
        let ghost m = RAMModel { ram, write, key: key@, ts, value: value@ };
        self.ram.push(RAMRecord { ram, write, key, ts, value });
        assert(registered(*self).ram =~= pre.ram.push(m));
    }

    /// Asserts that `e` is zero on every row.
    pub fn require_zero(&mut self, e: Expression)
        ensures
            final(self).num_witin == old(self).num_witin,
            final(self).num_fixed == old(self).num_fixed,
            registered(*final(self)) == (Registered {
                zeros: registered(*old(self)).zeros.push(e),
                ..registered(*old(self))
            }),
    {
        self.zeros.push(e);
    }
}

/// The key under which the machine state `(pc, ts)` is read and written.
pub open spec fn state_key(pc: Expression, ts: Expression) -> Seq<Expression> {
    seq![Expression::Constant(ram_tag(RAMType::GlobalState)), pc, ts]
}

/// The two records of one register access: the old value is read at the
/// previous timestamp and the new value written at the access timestamp.
pub open spec fn reg_access(
    reg: WitIn,
    prev_ts: Expression,
    ts: Expression,
    before: Seq<Expression>,
    after: Seq<Expression>,
) -> Seq<RAMModel> {
    seq![
        RAMModel {
            ram: RAMType::Register,
            write: false,
            key: seq![Expression::WitIn(reg.id)],
            ts: prev_ts,
            value: before,
        },
        RAMModel {
            ram: RAMType::Register,
            write: true,
            key: seq![Expression::WitIn(reg.id)],
            ts: ts,
            value: after,
        },
    ]
}

fn limb(w: WitIn, weight: u64) -> (r: Expression)
    ensures
        r == Expression::Product(Box::new(Expression::WitIn(w.id)), Box::new(Expression::Constant(weight))),
{
    Expression::Product(Box::new(Expression::WitIn(w.id)), Box::new(Expression::Constant(weight)))
}

impl CircuitBuilder {
    /// Builds the strict-less-than gadget for `lhs < rhs`.
    pub fn less_than(&mut self, lhs: Expression, rhs: Expression) -> (r: Result<ExprLtConfig, ZKVMError>)
        ensures
            final(self).num_fixed == old(self).num_fixed,
            old(self).num_witin + 2 > MAX_COLUMNS ==> r == Err::<ExprLtConfig, ZKVMError>(
                ZKVMError::TooManyColumns,
            ) && *final(self) == *old(self),
            old(self).num_witin + 2 <= MAX_COLUMNS ==> r is Ok && lt_fresh(r->Ok_0, old(self).num_witin as int)
                && final(self).num_witin == old(self).num_witin + 2 && registered(*final(self)) == (Registered {
                lookups: registered(*old(self)).lookups + lt_lookups(r->Ok_0),
                zeros: registered(*old(self)).zeros.push(lt_constraint(lhs, rhs, r->Ok_0)),
                ..registered(*old(self))
            }),
    {
        if self.num_witin > MAX_COLUMNS - 2 {
            return Err(ZKVMError::TooManyColumns);
        }
        let ghost pre = registered(*self);
        let base = self.num_witin;
        let c = ExprLtConfig {
            diff: [
                WitIn { id: base },
                WitIn { id: base + 1 },
            ],
        };
        self.num_witin = base + 2;
        let mut i: usize = 0;
        while i < 2
            invariant
                i <= 2,
                self.num_witin == base + 2,
                self.num_fixed == old(self).num_fixed,
                registered(*self) == (Registered {
                    lookups: pre.lookups + lt_lookups(c).subrange(0, i as int),
                    ..pre
                }),
            decreases 2 - i,
        {
            let key = vec![c.diff[i].expr()];
            assert(key@ =~= seq![Expression::WitIn(c.diff[i as int].id)]);
            self.lk_record(ROMType::U16, key);
            assert(pre.lookups + lt_lookups(c).subrange(0, i + 1) =~= (pre.lookups + lt_lookups(
                c,
            ).subrange(0, i as int)).push(lt_lookups(c)[i as int]));
            i += 1;
        }
        let sum = Expression::Sum(
            Box::new(limb(c.diff[0], 1)),
            Box::new(limb(c.diff[1], 0x1_0000)),
        );
        let e = Expression::Sum(
            Box::new(Expression::Sum(Box::new(lhs), Box::new(Expression::Constant(1)))),
            Box::new(Expression::Sum(Box::new(sum), Box::new(Expression::Neg(Box::new(rhs))))),
        );
        self.require_zero(e);
        proof {
            assert(lt_lookups(c).subrange(0, 2) =~= lt_lookups(c));
            assert(registered(*self).lookups =~= pre.lookups + lt_lookups(c));
        }
        Ok(c)
    }

    /// Accesses register `reg`: the gadget shows `prev_ts < ts`, the value
    /// `before` is read back at `prev_ts` and `after` written at `ts`.
    /// Returns the timestamp after the access, `ts + 1`.
    pub fn register_access(
        &mut self,
        reg: WitIn,
        prev_ts: Expression,
        ts: Expression,
        before: &Vec<Expression>,
        after: &Vec<Expression>,
    ) -> (r: Result<(Expression, ExprLtConfig), ZKVMError>)
        ensures
            final(self).num_fixed == old(self).num_fixed,
            old(self).num_witin + 2 > MAX_COLUMNS ==> r is Err && r->Err_0 == ZKVMError::TooManyColumns
                && *final(self) == *old(self),
            old(self).num_witin + 2 <= MAX_COLUMNS ==> r is Ok && r->Ok_0.0 == ts.plus_spec(1)
                && lt_fresh(r->Ok_0.1, old(self).num_witin as int) && final(self).num_witin
                == old(self).num_witin + 2 && registered(*final(self)) == (Registered {
                lookups: registered(*old(self)).lookups + lt_lookups(r->Ok_0.1),
                ram: registered(*old(self)).ram + reg_access(reg, prev_ts, ts, before@, after@),
                zeros: registered(*old(self)).zeros.push(lt_constraint(prev_ts, ts, r->Ok_0.1)),
                ..registered(*old(self))
            }),
    {
        let ghost pre = registered(*self);
        let lt = match self.less_than(prev_ts.dup(), ts.dup()) {
            Ok(lt) => lt,
            Err(e) => return Err(e),
        };
        let ghost mid = registered(*self);
        let key_r = vec![reg.expr()];
        let key_w = vec![reg.expr()];
        assert(key_r@ =~= seq![Expression::WitIn(reg.id)]);
        assert(key_w@ =~= seq![Expression::WitIn(reg.id)]);
        let ts_w = ts.dup();
        let ghost pts = prev_ts;
        self.ram_record(RAMType::Register, false, key_r, prev_ts, dup_all(before));
        self.ram_record(RAMType::Register, true, key_w, ts_w, dup_all(after));
        proof {
            let acc = reg_access(reg, pts, ts, before@, after@);
            assert(registered(*self).ram =~= mid.ram.push(acc[0]).push(acc[1]));
            assert(registered(*self).ram =~= pre.ram + acc);
        }
        Ok((ts.plus(1), lt))
    }

    /// Reads the machine state `(pc, ts)` at the start of a step.
    pub fn state_in(&mut self, pc: Expression, ts: Expression)
        ensures
            final(self).num_witin == old(self).num_witin,
            final(self).num_fixed == old(self).num_fixed,
            registered(*final(self)) == (Registered {
                ram: registered(*old(self)).ram.push(
                    RAMModel {
                        ram: RAMType::GlobalState,
                        write: false,
                        key: state_key(pc, ts),
                        ts: Expression::Constant(0),
                        value: Seq::empty(),
                    },
                ),
                ..registered(*old(self))
            }),
    {
        let ghost k = state_key(pc, ts);
        let key = vec![Expression::Constant(RAMType::GlobalState.tag()), pc, ts];
        assert(key@ =~= k);
        self.ram_record(RAMType::GlobalState, false, key, Expression::Constant(0), Vec::new());
    }

    /// Writes the machine state `(pc, ts)` at the end of a step.
    pub fn state_out(&mut self, pc: Expression, ts: Expression)
        ensures
            final(self).num_witin == old(self).num_witin,
            final(self).num_fixed == old(self).num_fixed,
            registered(*final(self)) == (Registered {
                ram: registered(*old(self)).ram.push(
                    RAMModel {
                        ram: RAMType::GlobalState,
                        write: true,
                        key: state_key(pc, ts),
                        ts: Expression::Constant(0),
                        value: Seq::empty(),
                    },
                ),
                ..registered(*old(self))
            }),
    {
        let ghost k = state_key(pc, ts);
        let key = vec![Expression::Constant(RAMType::GlobalState.tag()), pc, ts];
        assert(key@ =~= k);
        self.ram_record(RAMType::GlobalState, true, key, Expression::Constant(0), Vec::new());
    }
}

} // verus!
