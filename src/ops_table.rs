//! A fixed operation table keyed by `(tag, a, b, c)`, with its multiplicity
//! column. Padding rows are zero in every column, so they never count.
use vstd::prelude::*;
use std::collections::HashMap;
use crate::circuit_builder::{CircuitBuilder, MAX_COLUMNS, ROMType, Registered, ZKVMError, registered, rom_tag};
use crate::expr::{Expression, Fixed, WitIn};
use crate::witness::RowMajorMatrix;

verus! {

broadcast use vstd::std_specs::hash::group_hash_axioms;

/// The smallest power of two that is at least `n`, searching up from `p`.
pub open spec fn pow2_from(p: nat, n: nat) -> nat
    decreases n - p,
{
    if p == 0 || p >= n {
        p
    } else if 2 * p >= n {
        2 * p
    } else {
        pow2_from(2 * p, n)
    }
}

/// The number of rows of a table of `n` entries: the smallest power of two
/// that is at least `n` (one row for an empty table).
pub open spec fn table_len(n: nat) -> nat {
    pow2_from(1, n)
}

/// The rows a table of `n` entries is padded to.
pub fn padded_len(n: usize) -> (r: usize)
    requires
        n <= usize::MAX / 2,
    ensures
        r == table_len(n as nat),
        n <= r,
        r <= 2 * n || r == 1,
{
    let mut p: usize = 1;
    while p < n
        invariant
            1 <= p,
            p <= 2 * n || p == 1,
            n <= usize::MAX / 2,
            pow2_from(p as nat, n as nat) == table_len(n as nat),
        decreases 2 * n - p,
    {
        p = p * 2;
    }
    p
}

/// The three fixed operand columns and the multiplicity witness of an
/// operation table.
#[derive(Clone, Copy, Debug)]
pub struct OpTableConfig {
    pub abc: [Fixed; 3],
    pub mlt: WitIn,
}

/// The key `(tag, a, b, c)` under which the table's rows are declared.
pub open spec fn table_key(rom: ROMType, c: OpTableConfig) -> Seq<Expression> {
    seq![
        Expression::Constant(rom_tag(rom)),
        Expression::Fixed(c.abc[0].0),
        Expression::Fixed(c.abc[1].0),
        Expression::Fixed(c.abc[2].0),
    ]
}

/// The fixed columns are distinct columns below `num_fixed`.
pub open spec fn fixed_wf(c: OpTableConfig, num_fixed: int) -> bool {
    &&& forall|j: int| 0 <= j < 3 ==> #[trigger] c.abc[j].0 < num_fixed
    &&& c.abc[0].0 != c.abc[1].0
    &&& c.abc[0].0 != c.abc[2].0
    &&& c.abc[1].0 != c.abc[2].0
}

/// The fixed value of row `i`, operand `j`: the entry's operand, zero on
/// padding rows.
pub open spec fn fixed_value(content: Seq<[u64; 3]>, i: int, j: int) -> u64 {
    if i < content.len() {
        content[i][j]
    } else {
        0
    }
}

/// The multiplicity of row `i`: its count in the map, zero when absent.
pub open spec fn mlt_value(m: Map<u64, usize>, i: int) -> u64 {
    if 0 <= i <= u64::MAX && m.contains_key(i as u64) {
        m[i as u64] as u64
    } else {
        0
    }
}

/// `m` is the fixed trace of `content` for the table with columns `c`.
pub open spec fn is_fixed_trace(c: OpTableConfig, num_fixed: int, content: Seq<[u64; 3]>, m: RowMajorMatrix) -> bool {
    &&& m.num_col == num_fixed
    &&& m.values@.len() == table_len(content.len()) * num_fixed
    &&& forall|i: int, j: int|
        0 <= i < table_len(content.len()) && 0 <= j < 3 ==> #[trigger] m.at(i, c.abc[j].0 as int)
            == fixed_value(content, i, j)
}

/// `m` is the multiplicity trace of `mult` for a table of `length` rows.
pub open spec fn is_mlt_trace(
    c: OpTableConfig,
    num_witin: int,
    mult: Map<u64, usize>,
    length: nat,
    m: RowMajorMatrix,
) -> bool {
    &&& m.num_col == num_witin
    &&& m.values@.len() == table_len(length) * num_witin
    &&& forall|i: int|
        0 <= i < table_len(length) ==> #[trigger] m.at(i, c.mlt.id as int) == mlt_value(mult, i)
}

/// Row `i` of the table holds the operands `k`.
pub open spec fn row_is(content: Seq<[u64; 3]>, i: int, k: [u64; 3]) -> bool {
    &&& fixed_value(content, i, 0) == k[0]
    &&& fixed_value(content, i, 1) == k[1]
    &&& fixed_value(content, i, 2) == k[2]
}

/// How often the first `upto` rows offer the operands `k`: the sum of the
/// multiplicities of the rows that hold `k`.
pub open spec fn row_count(content: Seq<[u64; 3]>, mult: Map<u64, usize>, k: [u64; 3], upto: nat) -> int
    decreases upto,
{
    if upto == 0 {
        0
    } else {
        row_count(content, mult, k, (upto - 1) as nat) + if row_is(content, upto - 1, k) {
            mlt_value(mult, upto - 1)
        } else {
            0
        }
    }
}

proof fn lemma_cell(i: int, j: int, nc: int, rows: int)
    requires
        0 <= i < rows,
        0 <= j < nc,
    ensures
        i * nc <= i * nc + j < (i + 1) * nc,
        (i + 1) * nc <= rows * nc,
{
    assert((i + 1) * nc <= rows * nc) by (nonlinear_arith)
        requires
            i + 1 <= rows,
            0 <= nc,
    ;
    assert((i + 1) * nc == i * nc + nc) by (nonlinear_arith);
}

proof fn lemma_rows_below(i: int, k: int, nc: int)
    requires
        0 <= k <= i,
        0 <= nc,
    ensures
        k * nc <= i * nc,
{
    assert(k * nc <= i * nc) by (nonlinear_arith)
        requires
            k <= i,
            0 <= nc,
    ;
}

impl OpTableConfig {
    /// Allocates the operand and multiplicity columns and declares the
    /// table's rows under the key `(tag, a, b, c)` with multiplicity `mlt`.
    pub fn construct_circuit(cb: &mut CircuitBuilder, rom_type: ROMType) -> (r: Result<
        Self,
        ZKVMError,
    >)
        ensures
            (old(cb).num_fixed + 3 > MAX_COLUMNS || old(cb).num_witin + 1 > MAX_COLUMNS) ==> r
                == Err::<Self, ZKVMError>(ZKVMError::TooManyColumns) && *final(cb) == *old(cb),
            (old(cb).num_fixed + 3 <= MAX_COLUMNS && old(cb).num_witin + 1 <= MAX_COLUMNS) ==> r is Ok
                && r->Ok_0.abc[0].0 == old(cb).num_fixed && r->Ok_0.abc[1].0 == old(cb).num_fixed + 1
                && r->Ok_0.abc[2].0 == old(cb).num_fixed + 2 && r->Ok_0.mlt.id == old(cb).num_witin
                && final(cb).num_fixed == old(cb).num_fixed + 3 && final(cb).num_witin == old(
                cb,
            ).num_witin + 1 && registered(*final(cb)) == (Registered {
                tables: registered(*old(cb)).tables.push(
                    (rom_type, table_key(rom_type, r->Ok_0), Expression::WitIn(r->Ok_0.mlt.id)),
                ),
                ..registered(*old(cb))
            }),
    {
        if cb.num_fixed > MAX_COLUMNS - 3 || cb.num_witin >= MAX_COLUMNS {
            return Err(ZKVMError::TooManyColumns);
        }
        let a = match cb.create_fixed() {
            Ok(x) => x,
            Err(e) => return Err(e),
        };
        let b = match cb.create_fixed() {
            Ok(x) => x,
            Err(e) => return Err(e),
        };
        let c = match cb.create_fixed() {
            Ok(x) => x,
            Err(e) => return Err(e),
        };
        let mlt = match cb.create_witin() {
            Ok(x) => x,
            Err(e) => return Err(e),
        };
        let cfg = OpTableConfig { abc: [a, b, c], mlt };
        let key = vec![
            Expression::Constant(rom_type.tag()),
            Expression::Fixed(a.0),
            Expression::Fixed(b.0),
            Expression::Fixed(c.0),
        ];
        assert(key@ =~= table_key(rom_type, cfg));
        cb.lk_table_record(rom_type, key, mlt.expr());
        Ok(cfg)
    }

    /// The fixed columns of the table: row `i` holds `content[i]` in the
    /// operand columns, and every padding row holds zeros.
    pub fn generate_fixed_traces(&self, num_fixed: usize, content: Vec<[u64; 3]>) -> (r:
        RowMajorMatrix)
        requires
            fixed_wf(*self, num_fixed as int),
            content@.len() <= usize::MAX / 2,
            table_len(content@.len()) * num_fixed <= usize::MAX,
        ensures
            is_fixed_trace(*self, num_fixed as int, content@, r),
    {
        let n = content.len();
        let rows = padded_len(n);
        let mut fixed = RowMajorMatrix::zeros(rows, num_fixed);
        let nc = num_fixed;
        let mut i: usize = 0;
        while i < n
            invariant
                fixed_wf(*self, nc as int),
                n == content@.len(),
                n <= rows,
                rows == table_len(n as nat),
                rows * nc <= usize::MAX,
                fixed.num_col == nc,
                fixed.values@.len() == rows * nc,
                i <= n,
                forall|k: int, j: int|
                    0 <= k < i && 0 <= j < 3 ==> #[trigger] fixed.values@[k * nc + self.abc[j].0]
                        == content@[k][j],
                forall|k: int| i * nc <= k < rows * nc ==> #[trigger] fixed.values@[k] == 0,
            decreases n - i,
        {
            let ghost before = fixed.values@;
            let row = content[i];
            let mut j: usize = 0;
            while j < 3
                invariant
                    fixed_wf(*self, nc as int),
                    n == content@.len(),
                    i < n,
                    n <= rows,
                    rows * nc <= usize::MAX,
                    row == content@[i as int],
                    fixed.num_col == nc,
                    fixed.values@.len() == rows * nc,
                    j <= 3,
                    forall|k: int|
                        (0 <= k < i * nc || (i + 1) * nc <= k < rows * nc) ==> #[trigger] fixed.values@[k]
                            == before[k],
                    forall|k: int|
                        i * nc <= k < (i + 1) * nc && (forall|b: int|
                            0 <= b < j ==> k != i * nc + self.abc[b].0) ==> #[trigger] fixed.values@[k]
                            == before[k],
                    forall|b: int| 0 <= b < j ==> #[trigger] fixed.values@[i * nc + self.abc[b].0] == row[b],
                decreases 3 - j,
            {
                proof {
                    lemma_cell(i as int, self.abc[j as int].0 as int, nc as int, rows as int);
                }
                let idx = i * nc + self.abc[j].0;
                let ghost pre_set = fixed.values@;
                fixed.values.set(idx, row[j]);
                proof {
                    assert forall|b: int| 0 <= b < j + 1 implies #[trigger] fixed.values@[i * nc
                        + self.abc[b].0] == row[b] by {
                        if b < j {
                            assert(self.abc[b].0 != self.abc[j as int].0);
                            lemma_cell(i as int, self.abc[b].0 as int, nc as int, rows as int);
                            assert(pre_set[i * nc + self.abc[b].0] == row[b]);
                        }
                    }
                }
                j += 1;
            }
            proof {
                assert forall|k: int, b: int| 0 <= k < i + 1 && 0 <= b < 3 implies #[trigger] fixed.values@[
                    k * nc + self.abc[b].0] == content@[k][b] by {
                    if k < i {
                        lemma_cell(k, self.abc[b].0 as int, nc as int, i as int);
                        assert(fixed.values@[k * nc + self.abc[b].0] == before[k * nc + self.abc[b].0]);
                    }
                }
                assert forall|k: int| (i + 1) * nc <= k < rows * nc implies #[trigger] fixed.values@[k]
                    == 0 by {
                    lemma_cell(i as int, 0, nc as int, rows as int);
                }
            }
            i += 1;
        }
        proof {
            assert forall|a: int, j: int| 0 <= a < rows && 0 <= j < 3 implies #[trigger] fixed.at(
                a,
                self.abc[j].0 as int,
            ) == fixed_value(content@, a, j) by {
                if a >= n {
                    lemma_rows_below(a, n as int, nc as int);
                    lemma_cell(a, self.abc[j].0 as int, nc as int, rows as int);
                }
            }
        }
        fixed
    }

    /// The multiplicity column: row `i` holds the count the map gives index
    /// `i`, and every other row, padding included, holds zero. Every index
    /// in the map must name a row of the table.
    pub fn assign_instances(
        &self,
        num_witin: usize,
        multiplicity: &HashMap<u64, usize>,
        length: usize,
    ) -> (r: Result<RowMajorMatrix, ZKVMError>)
        requires
            self.mlt.id < num_witin,
            length <= usize::MAX / 2,
            table_len(length as nat) * num_witin <= usize::MAX,
            forall|k: u64| multiplicity@.contains_key(k) ==> k < length,
        ensures
            r is Ok,
            is_mlt_trace(*self, num_witin as int, multiplicity@, length as nat, r->Ok_0),
    {
        let rows = padded_len(length);
        let nc = num_witin;
        let mut witness = RowMajorMatrix::zeros(rows, nc);
        let mut i: usize = 0;
        while i < length
            invariant
                self.mlt.id < nc,
                length <= rows,
                rows == table_len(length as nat),
                rows * nc <= usize::MAX,
                witness.num_col == nc,
                witness.values@.len() == rows * nc,
                i <= length,
                forall|k: int|
                    0 <= k < i ==> #[trigger] witness.values@[k * nc + self.mlt.id] == mlt_value(
                        multiplicity@,
                        k,
                    ),
                forall|k: int| i * nc <= k < rows * nc ==> #[trigger] witness.values@[k] == 0,
            decreases length - i,
        {
            proof {
                lemma_cell(i as int, self.mlt.id as int, nc as int, rows as int);
            }
            let key = i as u64;
            let m: u64 = match multiplicity.get(&key) {
                Some(v) => *v as u64,
                None => 0,
            };
            let ghost pre_set = witness.values@;
            witness.values.set(i * nc + self.mlt.id, m);
            proof {
                assert forall|k: int| 0 <= k < i + 1 implies #[trigger] witness.values@[k * nc
                    + self.mlt.id] == mlt_value(multiplicity@, k) by {
                    if k < i {
                        lemma_cell(k, self.mlt.id as int, nc as int, i as int);
                        assert(pre_set[k * nc + self.mlt.id] == mlt_value(multiplicity@, k));
                    }
                }
                assert forall|k: int| (i + 1) * nc <= k < rows * nc implies #[trigger] witness.values@[k]
                    == 0 by {
                    assert(pre_set[k] == 0);
                }
            }
            i += 1;
        }
        proof {
            assert forall|a: int| 0 <= a < rows implies #[trigger] witness.at(a, self.mlt.id as int)
                == mlt_value(multiplicity@, a) by {
                if a >= length {
                    lemma_rows_below(a, length as int, nc as int);
                    lemma_cell(a, self.mlt.id as int, nc as int, rows as int);
                    if 0 <= a <= u64::MAX {
                        assert(!multiplicity@.contains_key(a as u64));
                    }
                }
            }
        }
        Ok(witness)
    }
}

/// Two fixed traces of the same content agree on every operand cell, and
/// every padding row is zero.
pub proof fn lemma_fixed_traces_agree(
    c: OpTableConfig,
    num_fixed: int,
    content: Seq<[u64; 3]>,
    m1: RowMajorMatrix,
    m2: RowMajorMatrix,
)
    requires
        is_fixed_trace(c, num_fixed, content, m1),
        is_fixed_trace(c, num_fixed, content, m2),
    ensures
        forall|i: int, j: int|
            0 <= i < table_len(content.len()) && 0 <= j < 3 ==> #[trigger] m1.at(i, c.abc[j].0 as int)
                == m2.at(i, c.abc[j].0 as int),
        forall|i: int, j: int|
            content.len() <= i < table_len(content.len()) && 0 <= j < 3 ==> #[trigger] m1.at(
                i,
                c.abc[j].0 as int,
            ) == 0,
{
    assert forall|i: int, j: int|
        0 <= i < table_len(content.len()) && 0 <= j < 3 implies #[trigger] m1.at(i, c.abc[j].0 as int)
        == m2.at(i, c.abc[j].0 as int) by {
        assert(m1.at(i, c.abc[j].0 as int) == fixed_value(content, i, j));
        assert(m2.at(i, c.abc[j].0 as int) == fixed_value(content, i, j));
    }
    assert forall|i: int, j: int|
        content.len() <= i < table_len(content.len()) && 0 <= j < 3 implies #[trigger] m1.at(
        i,
        c.abc[j].0 as int,
    ) == 0 by {
        assert(m1.at(i, c.abc[j].0 as int) == fixed_value(content, i, j));
    }
}

/// The multiplicity trace of a map holds each index's count at that index
/// and zero at every other row.
pub proof fn lemma_multiplicity_round_trip(
    c: OpTableConfig,
    num_witin: int,
    mult: Map<u64, usize>,
    length: nat,
    m: RowMajorMatrix,
)
    requires
        is_mlt_trace(c, num_witin, mult, length, m),
        forall|k: u64| mult.contains_key(k) ==> k < length,
    ensures
        forall|k: u64| #[trigger] mult.contains_key(k) ==> m.at(k as int, c.mlt.id as int) == mult[k],
        forall|i: int|
            0 <= i < table_len(length) && !(i <= u64::MAX && mult.contains_key(i as u64)) ==> #[trigger] m.at(
                i,
                c.mlt.id as int,
            ) == 0,
{
    assert(length <= table_len(length)) by {
        lemma_table_len_covers(1, length);
    }
    assert forall|k: u64| #[trigger] mult.contains_key(k) implies m.at(k as int, c.mlt.id as int)
        == mult[k] by {
        assert(m.at(k as int, c.mlt.id as int) == mlt_value(mult, k as int));
    }
}

proof fn lemma_table_len_covers(p: nat, n: nat)
    ensures
        p > 0 ==> n <= pow2_from(p, n),
    decreases n - p,
{
    if p > 0 && p < n && 2 * p < n {
        lemma_table_len_covers(2 * p, n);
    }
}

/// A key that no row holds is offered zero times, padding rows included,
/// so a nonzero claimed count for it cannot balance.
pub proof fn lemma_absent_key_not_offered(
    content: Seq<[u64; 3]>,
    mult: Map<u64, usize>,
    k: [u64; 3],
    upto: nat,
    claimed: int,
)
    requires
        forall|i: int| 0 <= i < content.len() ==> !#[trigger] row_is(content, i, k),
        forall|key: u64| mult.contains_key(key) ==> key < content.len(),
        claimed != 0,
    ensures
        row_count(content, mult, k, upto) == 0,
        claimed != row_count(content, mult, k, upto),
    decreases upto,
{
    if upto > 0 {
        lemma_absent_key_not_offered(content, mult, k, (upto - 1) as nat, claimed);
        let i = upto - 1;
        if i >= content.len() && i <= u64::MAX {
            assert(!mult.contains_key(i as u64));
        }
    }
}

/// A key held by exactly one row is offered exactly that row's count.
pub proof fn lemma_present_key_offered(
    content: Seq<[u64; 3]>,
    mult: Map<u64, usize>,
    k: [u64; 3],
    row: int,
    upto: nat,
)
    requires
        0 <= row < content.len(),
        row_is(content, row, k),
        forall|i: int| 0 <= i < content.len() && i != row ==> !#[trigger] row_is(content, i, k),
        forall|key: u64| mult.contains_key(key) ==> key < content.len(),
    ensures
        row_count(content, mult, k, upto) == if row < upto {
            mlt_value(mult, row)
        } else {
            0
        },
    decreases upto,
{
    if upto > 0 {
        lemma_present_key_offered(content, mult, k, row, (upto - 1) as nat);
        let i = upto - 1;
        if i >= content.len() && i <= u64::MAX {
            assert(!mult.contains_key(i as u64));
        }
    }
}

} // verus!
