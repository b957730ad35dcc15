//! Column matrices and the lookup-multiplicity accumulator.
use vstd::prelude::*;
use crate::circuit_builder::ROMType;
use std::collections::HashMap;

verus! {

broadcast use vstd::std_specs::hash::group_hash_axioms;

/// A row-major matrix of column values, one row per instance or table row.
/// Values are the integers that the commitment stage embeds into the field.
#[derive(Debug)]
pub struct RowMajorMatrix {
    pub values: Vec<u64>,
    pub num_col: usize,
}

impl RowMajorMatrix {
    pub open spec fn num_rows(&self) -> int {
        if self.num_col == 0 {
            0
        } else {
            (self.values@.len() as int) / (self.num_col as int)
        }
    }

    /// The value in row `i`, column `j`.
    pub open spec fn at(&self, i: int, j: int) -> u64 {
        self.values@[i * self.num_col + j]
    }

    /// A matrix of `rows` rows and `num_col` columns, all zero.
    pub fn zeros(rows: usize, num_col: usize) -> (r: Self)
        requires
            rows * num_col <= usize::MAX,
        ensures
            r.num_col == num_col,
            r.values@.len() == rows * num_col,
            forall|k: int| 0 <= k < rows * num_col ==> #[trigger] r.values@[k] == 0,
    {
        let n = rows * num_col;
        let mut values: Vec<u64> = Vec::new();
        let mut k: usize = 0;
        while k < n
            invariant
                k <= n,
                values@.len() == k,
                forall|b: int| 0 <= b < k ==> #[trigger] values@[b] == 0,
            decreases n - k,
        {
            values.push(0);
            k += 1;
        }
        RowMajorMatrix { values, num_col }
    }
}

/// How often `(rom, k)` occurs in `s`.
pub open spec fn count_of(s: Seq<(ROMType, u64)>, rom: ROMType, k: u64) -> nat
    decreases s.len(),
{
    if s.len() == 0 {
        0
    } else {
        count_of(s.drop_last(), rom, k) + if s.last() == (rom, k) {
            1nat
        } else {
            0nat
        }
    }
}

proof fn lemma_count_bounded(s: Seq<(ROMType, u64)>, rom: ROMType, k: u64)
    ensures
        count_of(s, rom, k) <= s.len(),
    decreases s.len(),
{
    if s.len() > 0 {
        lemma_count_bounded(s.drop_last(), rom, k);
    }
}

/// The occurrences of lookup keys recorded while a trace is scanned.
#[derive(Debug)]
pub struct LkMultiplicity {
    pub records: Vec<(ROMType, u64)>,
}

impl View for LkMultiplicity {
    type V = Seq<(ROMType, u64)>;

    open spec fn view(&self) -> Seq<(ROMType, u64)> {
        self.records@
    }
}

impl LkMultiplicity {
    pub fn new() -> (r: Self)
        ensures
            r@ == Seq::<(ROMType, u64)>::empty(),
    {
        LkMultiplicity { records: Vec::new() }
    }

    /// Records one fetch of the instruction at `pc`.
    pub fn fetch(&mut self, pc: u32)
        ensures
            final(self)@ == old(self)@.push((ROMType::Instruction, pc as u64)),
    {
        self.records.push((ROMType::Instruction, pc as u64));
    }

    /// The sparse multiplicity map of table `rom`: each key recorded for it,
    /// with how often it was recorded.
    pub fn counts(&self, rom: ROMType) -> (r: HashMap<u64, usize>)
        ensures
            forall|k: u64| #[trigger] r@.contains_key(k) <==> count_of(self@, rom, k) > 0,
            forall|k: u64| #[trigger] r@.contains_key(k) ==> r@[k] == count_of(self@, rom, k),
    {
        let mut r: HashMap<u64, usize> = HashMap::new();
        let mut i: usize = 0;
        while i < self.records.len()
            invariant
                i <= self@.len(),
                forall|k: u64|
                    #[trigger] r@.contains_key(k) <==> count_of(self@.subrange(0, i as int), rom, k)
                        > 0,
                forall|k: u64|
                    #[trigger] r@.contains_key(k) ==> r@[k] == count_of(
                        self@.subrange(0, i as int),
                        rom,
                        k,
                    ),
            decreases self@.len() - i,
        {
            let ghost pre = self@.subrange(0, i as int);
            let ghost next = self@.subrange(0, i + 1);
            assert(next.drop_last() =~= pre);
            let (t, k) = self.records[i];
            if t == rom {
                let c: usize = match r.get(&k) {
                    Some(v) => *v,
                    None => 0,
                };
                proof {
                    lemma_count_bounded(pre, rom, k);
                }
                r.insert(k, c + 1);
            }
            i += 1;
        }
        assert(self@.subrange(0, self@.len() as int) =~= self@);
        r
    }

    /// Records one range check of a 16-bit value.
    pub fn assert_u16(&mut self, v: u64)
        ensures
            final(self)@ == old(self)@.push((ROMType::U16, v)),
    {
        self.records.push((ROMType::U16, v));
    }
}

} // verus!
