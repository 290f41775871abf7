use vstd::arithmetic::power2::{pow2, lemma2_to64, lemma_pow2_unfold};
use vstd::prelude::*;

use crate::circuit::ConstraintSystem;
use crate::expr::{expr_in_bounds, AdviceColumn, Expression, Selector, TableColumn};

verus! {

/// Why a witness could not be laid out.
#[derive(Clone, Copy, Debug, PartialEq, Eq, Structural)]
pub enum SynthesisError {
    /// The column was not allocated in the constraint system the layout was made for.
    ColumnNotInLayout,
    /// The row lies beyond the circuit's `2^k` rows.
    NotEnoughRows,
    /// The table cell already holds a value.
    TableCellReassigned,
}

/// The witness matrix of a circuit with `2^k` rows: one column of flags per
/// selector, one column of values per advice column and per table column. A cell
/// that was never assigned is `None`; every assigned value is reduced modulo
/// `modulus`.
#[derive(Debug)]
pub struct Assignment {
    pub k: u32,
    pub n: usize,
    pub modulus: u64,
    pub selectors: Vec<Vec<bool>>,
    pub advice: Vec<Vec<Option<u64>>>,
    pub tables: Vec<Vec<Option<u64>>>,
}

/// The largest `k` for which a layout is made.
pub const MAX_K: u32 = 30;

/// The field value that a cell stands for: an unassigned cell reads as zero.
pub open spec fn cell_value(c: Option<u64>) -> int {
    match c {
        Some(v) => v as int,
        None => 0,
    }
}

/// Every column of `cols` has `n` rows.
pub open spec fn columns_of_len<T>(cols: Seq<Vec<T>>, n: nat) -> bool {
    forall|c: int| 0 <= c < cols.len() ==> (#[trigger] cols[c])@.len() == n
}

/// Every assigned value in `cols` lies below `m`.
pub open spec fn values_below(cols: Seq<Vec<Option<u64>>>, m: int) -> bool {
    forall|c: int, r: int|
        0 <= c < cols.len() && 0 <= r < cols[c]@.len() ==> (#[trigger] cols[c]@[r] matches Some(v) ==> v < m)
}

/// `count` columns of `len` unassigned cells.
fn empty_columns(count: usize, len: usize) -> (r: Vec<Vec<Option<u64>>>)
    ensures
        r@.len() == count,
        columns_of_len(r@, len as nat),
        forall|c: int, i: int| 0 <= c < count && 0 <= i < len ==> #[trigger] r@[c]@[i] is None,
{
    let mut cols: Vec<Vec<Option<u64>>> = Vec::new();
    let mut c: usize = 0;
    while c < count
        invariant
            c <= count,
            cols@.len() == c,
            columns_of_len(cols@, len as nat),
            forall|j: int, i: int| 0 <= j < c && 0 <= i < len ==> #[trigger] cols@[j]@[i] is None,
        decreases count - c,
    {
        let mut col: Vec<Option<u64>> = Vec::new();
        let mut i: usize = 0;
        while i < len
            invariant
                i <= len,
                col@.len() == i,
                forall|j: int| 0 <= j < i ==> #[trigger] col@[j] is None,
            decreases len - i,
        {
            col.push(None);
            i = i + 1;
        }
        cols.push(col);
        c = c + 1;
    }
    cols
}

/// `count` selector columns of `len` rows, all off.
fn disabled_selectors(count: usize, len: usize) -> (r: Vec<Vec<bool>>)
    ensures
        r@.len() == count,
        columns_of_len(r@, len as nat),
        forall|c: int, i: int| 0 <= c < count && 0 <= i < len ==> !#[trigger] r@[c]@[i],
{
    let mut cols: Vec<Vec<bool>> = Vec::new();
    let mut c: usize = 0;
    while c < count
        invariant
            c <= count,
            cols@.len() == c,
            columns_of_len(cols@, len as nat),
            forall|j: int, i: int| 0 <= j < c && 0 <= i < len ==> !#[trigger] cols@[j]@[i],
        decreases count - c,
    {
        let mut col: Vec<bool> = Vec::new();
        let mut i: usize = 0;
        while i < len
            invariant
                i <= len,
                col@.len() == i,
                forall|j: int| 0 <= j < i ==> !#[trigger] col@[j],
            decreases len - i,
        {
            col.push(false);
            i = i + 1;
        }
        cols.push(col);
        c = c + 1;
    }
    cols
}

/// Overwrites row `r` of column `c`.
fn set_cell<T>(cols: &mut Vec<Vec<T>>, c: usize, r: usize, v: T)
    requires
        c < old(cols)@.len(),
        r < old(cols)@[c as int]@.len(),
    ensures
        final(cols)@.len() == old(cols)@.len(),
        forall|i: int| 0 <= i < old(cols)@.len() && i != c ==> final(cols)@[i] == old(cols)@[i],
        final(cols)@[c as int]@ == old(cols)@[c as int]@.update(r as int, v),
{
    cols[c].set(r, v);
}

/// `2^k`, computed by doubling.
fn rows_for(k: u32) -> (r: usize)
    requires
        k <= MAX_K,
    ensures
        r == pow2(k as nat),
{
    let mut n: usize = 1;
    let mut i: u32 = 0;
    proof {
        lemma2_to64();
    }
    while i < k
        invariant
            i <= k <= MAX_K,
            n == pow2(i as nat),
            pow2(30) == 0x4000_0000,
        decreases k - i,
    {
        proof {
            lemma_pow2_unfold((i + 1) as nat);
            vstd::arithmetic::power2::lemma_pow2_strictly_increases(i as nat, 30);
        }
        n = n * 2;
        i = i + 1;
    }
    n
}

impl Assignment {
    /// `2^k` rows in every column, and every assigned value reduced.
    pub open spec fn wf(&self) -> bool {
        &&& self.modulus >= 2
        &&& self.k <= MAX_K
        &&& self.n == pow2(self.k as nat)
        &&& columns_of_len(self.selectors@, self.n as nat)
        &&& columns_of_len(self.advice@, self.n as nat)
        &&& columns_of_len(self.tables@, self.n as nat)
        &&& values_below(self.advice@, self.modulus as int)
        &&& values_below(self.tables@, self.modulus as int)
    }

    /// The layout has exactly the columns of `cs`, over its modulus.
    pub open spec fn fits(&self, cs: &ConstraintSystem) -> bool {
        &&& self.modulus == cs.modulus
        &&& self.selectors@.len() == cs.num_selectors
        &&& self.advice@.len() == cs.num_advice
        &&& self.tables@.len() == cs.num_tables
    }

    /// The value of `e` on row `row`, in the integers modulo `modulus`.
    pub open spec fn eval(&self, e: Expression, row: int) -> int
        decreases e,
    {
        let m = self.modulus as int;
        match e {
            Expression::Constant(c) => c as int % m,
            Expression::Selector(s) => if self.selectors@[s.0 as int]@[row] { 1 } else { 0 },
            Expression::Advice(c) => cell_value(self.advice@[c.0 as int]@[row]),
            Expression::Negated(a) => (m - self.eval(*a, row)) % m,
            Expression::Sum(a, b) => (self.eval(*a, row) + self.eval(*b, row)) % m,
            Expression::Product(a, b) => (self.eval(*a, row) * self.eval(*b, row)) % m,
        }
    }

    /// Some row of table column `t` holds `v`.
    pub open spec fn table_holds(&self, t: TableColumn, v: int) -> bool {
        exists|r: int| 0 <= r < self.n && #[trigger] self.tables@[t.0 as int]@[r] == Some(v as u64) && 0 <= v <= u64::MAX
    }

    /// An empty layout of `2^k` rows for the columns of `cs`.
    pub fn new(cs: &ConstraintSystem, k: u32) -> (r: Assignment)
        requires
            cs.wf(),
            k <= MAX_K,
        ensures
            r.wf(),
            r.fits(cs),
            r.k == k,
            forall|c: int, i: int| 0 <= c < r.selectors@.len() && 0 <= i < r.n ==> !#[trigger] r.selectors@[c]@[i],
            forall|c: int, i: int| 0 <= c < r.advice@.len() && 0 <= i < r.n ==> #[trigger] r.advice@[c]@[i] is None,
            forall|c: int, i: int| 0 <= c < r.tables@.len() && 0 <= i < r.n ==> #[trigger] r.tables@[c]@[i] is None,
    {
        let n = rows_for(k);
        Assignment {
            k,
            n,
            modulus: cs.modulus,
            selectors: disabled_selectors(cs.num_selectors, n),
            advice: empty_columns(cs.num_advice, n),
            tables: empty_columns(cs.num_tables, n),
        }
    }

    /// Writes `value` (reduced modulo `modulus`) into row `row` of table column
    /// `table`; a table cell is written at most once.
    pub fn assign_table_cell(&mut self, table: TableColumn, row: usize, value: u64) -> (r: Result<(), SynthesisError>)
        requires
            old(self).wf(),
        ensures
            final(self).wf(),
            final(self).k == old(self).k,
            final(self).n == old(self).n,
            final(self).modulus == old(self).modulus,
            final(self).selectors@ == old(self).selectors@,
            final(self).advice@ == old(self).advice@,
            table.0 >= old(self).tables@.len() ==> r == Err::<(), SynthesisError>(SynthesisError::ColumnNotInLayout),
            table.0 < old(self).tables@.len() && row >= old(self).n ==> r == Err::<(), SynthesisError>(SynthesisError::NotEnoughRows),
            table.0 < old(self).tables@.len() && row < old(self).n && old(self).tables@[table.0 as int]@[row as int] is Some
                ==> r == Err::<(), SynthesisError>(SynthesisError::TableCellReassigned),
            r is Ok <==> table.0 < old(self).tables@.len() && row < old(self).n
                && old(self).tables@[table.0 as int]@[row as int] is None,
            r is Err ==> final(self).tables@ == old(self).tables@,
            r is Ok ==> {
                &&& table.0 < old(self).tables@.len()
                &&& row < old(self).n
                &&& old(self).tables@[table.0 as int]@[row as int] is None
                &&& final(self).tables@.len() == old(self).tables@.len()
                &&& forall|t: int| 0 <= t < old(self).tables@.len() && t != table.0 ==> final(self).tables@[t] == old(self).tables@[t]
                &&& final(self).tables@[table.0 as int]@ == old(self).tables@[table.0 as int]@.update(row as int, Some((value % old(self).modulus) as u64))
            },
    {
        if table.0 >= self.tables.len() {
            return Err(SynthesisError::ColumnNotInLayout);
        }
        if row >= self.n {
            return Err(SynthesisError::NotEnoughRows);
        }
        if self.tables[table.0][row].is_some() {
            return Err(SynthesisError::TableCellReassigned);
        }
        let v = value % self.modulus;
        set_cell(&mut self.tables, table.0, row, Some(v));
        proof {
            assert forall|c: int, i: int| 0 <= c < self.tables@.len() && 0 <= i < self.tables@[c]@.len()
                implies (#[trigger] self.tables@[c]@[i] matches Some(x) ==> x < self.modulus) by {
                if c != table.0 || i != row {
                    assert(old(self).tables@[c]@[i] == self.tables@[c]@[i]);
                }
            }
        }
        Ok(())
    }

    /// Writes `value` (reduced modulo `modulus`) into row `row` of advice column
    /// `column`, replacing what it held.
    pub fn assign_advice(&mut self, column: AdviceColumn, row: usize, value: u64) -> (r: Result<(), SynthesisError>)
        requires
            old(self).wf(),
        ensures
            final(self).wf(),
            final(self).k == old(self).k,
            final(self).n == old(self).n,
            final(self).modulus == old(self).modulus,
            final(self).selectors@ == old(self).selectors@,
            final(self).tables@ == old(self).tables@,
            column.0 >= old(self).advice@.len() ==> r == Err::<(), SynthesisError>(SynthesisError::ColumnNotInLayout),
            column.0 < old(self).advice@.len() && row >= old(self).n ==> r == Err::<(), SynthesisError>(SynthesisError::NotEnoughRows),
            r is Ok <==> column.0 < old(self).advice@.len() && row < old(self).n,
            r is Err ==> final(self).advice@ == old(self).advice@,
            r is Ok ==> {
                &&& column.0 < old(self).advice@.len()
                &&& row < old(self).n
                &&& final(self).advice@.len() == old(self).advice@.len()
                &&& forall|c: int| 0 <= c < old(self).advice@.len() && c != column.0 ==> final(self).advice@[c] == old(self).advice@[c]
                &&& final(self).advice@[column.0 as int]@ == old(self).advice@[column.0 as int]@.update(row as int, Some((value % old(self).modulus) as u64))
            },
    {
        if column.0 >= self.advice.len() {
            return Err(SynthesisError::ColumnNotInLayout);
        }
        if row >= self.n {
            return Err(SynthesisError::NotEnoughRows);
        }
        let v = value % self.modulus;
        set_cell(&mut self.advice, column.0, row, Some(v));
        proof {
            assert forall|c: int, i: int| 0 <= c < self.advice@.len() && 0 <= i < self.advice@[c]@.len()
                implies (#[trigger] self.advice@[c]@[i] matches Some(x) ==> x < self.modulus) by {
                if c != column.0 || i != row {
                    assert(old(self).advice@[c]@[i] == self.advice@[c]@[i]);
                }
            }
        }
        Ok(())
    }

    /// Turns selector `selector` on at row `row`.
    pub fn enable_selector(&mut self, selector: Selector, row: usize) -> (r: Result<(), SynthesisError>)
        requires
            old(self).wf(),
        ensures
            final(self).wf(),
            final(self).k == old(self).k,
            final(self).n == old(self).n,
            final(self).modulus == old(self).modulus,
            final(self).advice@ == old(self).advice@,
            final(self).tables@ == old(self).tables@,
            selector.0 >= old(self).selectors@.len() ==> r == Err::<(), SynthesisError>(SynthesisError::ColumnNotInLayout),
            selector.0 < old(self).selectors@.len() && row >= old(self).n ==> r == Err::<(), SynthesisError>(SynthesisError::NotEnoughRows),
            r is Ok <==> selector.0 < old(self).selectors@.len() && row < old(self).n,
            r is Err ==> final(self).selectors@ == old(self).selectors@,
            r is Ok ==> {
                &&& selector.0 < old(self).selectors@.len()
                &&& row < old(self).n
                &&& final(self).selectors@.len() == old(self).selectors@.len()
                &&& forall|c: int| 0 <= c < old(self).selectors@.len() && c != selector.0 ==> final(self).selectors@[c] == old(self).selectors@[c]
                &&& final(self).selectors@[selector.0 as int]@ == old(self).selectors@[selector.0 as int]@.update(row as int, true)
            },
    {
        if selector.0 >= self.selectors.len() {
            return Err(SynthesisError::ColumnNotInLayout);
        }
        if row >= self.n {
            return Err(SynthesisError::NotEnoughRows);
        }
        set_cell(&mut self.selectors, selector.0, row, true);
        Ok(())
    }

    /// The value in row `row` of table column `table`.
    pub fn table_cell(&self, table: TableColumn, row: usize) -> (r: Option<u64>)
        requires
            self.wf(),
            table.0 < self.tables@.len(),
            row < self.n,
        ensures
            r == self.tables@[table.0 as int]@[row as int],
    {
        self.tables[table.0][row]
    }

    /// The value in row `row` of advice column `column`.
    pub fn advice_cell(&self, column: AdviceColumn, row: usize) -> (r: Option<u64>)
        requires
            self.wf(),
            column.0 < self.advice@.len(),
            row < self.n,
        ensures
            r == self.advice@[column.0 as int]@[row as int],
    {
        self.advice[column.0][row]
    }

    /// Whether selector `selector` is on at row `row`.
    pub fn is_enabled(&self, selector: Selector, row: usize) -> (r: bool)
        requires
            self.wf(),
            selector.0 < self.selectors@.len(),
            row < self.n,
        ensures
            r == self.selectors@[selector.0 as int]@[row as int],
    {
        self.selectors[selector.0][row]
    }

    /// The value of `e` on row `row`.
    pub fn evaluate(&self, e: &Expression, row: usize) -> (r: u64)
        requires
            self.wf(),
            expr_in_bounds(*e, self.selectors@.len(), self.advice@.len()),
            row < self.n,
        ensures
            r == self.eval(*e, row as int),
            r < self.modulus,
        decreases e,
    {
        let m = self.modulus;
        match e {
            Expression::Constant(c) => *c % m,
            Expression::Selector(s) => if self.selectors[s.0][row] { 1 } else { 0 },
            Expression::Advice(c) => {
                let cell = self.advice[c.0][row];
                match cell {
                    Some(v) => {
                        assert(self.advice@[c.0 as int]@[row as int] matches Some(x) ==> x < m);
                        v
                    },
                    None => 0,
                }
            },
            Expression::Negated(a) => {
                let x = self.evaluate(a, row);
                (m - x) % m
            },
            Expression::Sum(a, b) => {
                let x = self.evaluate(a, row);
                let y = self.evaluate(b, row);
                (((x as u128) + (y as u128)) % (m as u128)) as u64
            },
            Expression::Product(a, b) => {
                let x = self.evaluate(a, row);
                let y = self.evaluate(b, row);
                proof {
                    assert(x * y <= 0xffff_ffff_ffff_ffffu64 * 0xffff_ffff_ffff_ffffu64) by (nonlinear_arith)
                        requires x <= 0xffff_ffff_ffff_ffffu64, y <= 0xffff_ffff_ffff_ffffu64;
                }
                (((x as u128) * (y as u128)) % (m as u128)) as u64
            },
        }
    }
}

} // verus!
