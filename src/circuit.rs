use vstd::prelude::*;

use crate::expr::{
    difference, expr_in_bounds, product, sum, check_in_bounds, AdviceColumn, Expression,
    Selector, TableColumn,
};
use crate::layout::{Assignment, SynthesisError};

verus! {

/// A lookup relation: on every row, `input` must evaluate to a value that the table
/// column holds on some row.
#[derive(Debug)]
pub struct Lookup {
    pub input: Expression,
    pub table: TableColumn,
}

/// A lookup was registered against a column that was never allocated.
#[derive(Clone, Copy, Debug, PartialEq, Eq, Structural)]
pub enum ConfigurationError {
    UnallocatedColumn,
}

/// The columns allocated so far and the lookup relations registered against them,
/// over the integers modulo `modulus`.
#[derive(Debug)]
pub struct ConstraintSystem {
    pub modulus: u64,
    pub num_selectors: usize,
    pub num_advice: usize,
    pub num_tables: usize,
    pub lookups: Vec<Lookup>,
}

/// A lookup whose input and table refer only to allocated columns.
pub open spec fn lookup_in_bounds(l: Lookup, cs: ConstraintSystem) -> bool {
    &&& expr_in_bounds(l.input, cs.num_selectors as nat, cs.num_advice as nat)
    &&& l.table.0 < cs.num_tables
}

impl ConstraintSystem {
    /// The modulus is at least two and every registered lookup is in bounds.
    pub open spec fn wf(&self) -> bool {
        &&& self.modulus >= 2
        &&& forall|i: int| 0 <= i < self.lookups@.len() ==> lookup_in_bounds(#[trigger] self.lookups@[i], *self)
    }

    /// Whether one more column of each kind can still be allocated.
    pub open spec fn has_room(&self) -> bool {
        &&& self.num_selectors < usize::MAX
        &&& self.num_advice < usize::MAX
        &&& self.num_tables < usize::MAX
    }

    /// An empty constraint system over the integers modulo `modulus`.
    pub fn new(modulus: u64) -> (r: ConstraintSystem)
        requires
            modulus >= 2,
        ensures
            r.wf(),
            r.modulus == modulus,
            r.num_selectors == 0,
            r.num_advice == 0,
            r.num_tables == 0,
            r.lookups@.len() == 0,
    {
        ConstraintSystem { modulus, num_selectors: 0, num_advice: 0, num_tables: 0, lookups: Vec::new() }
    }

    /// Allocates a selector that may appear inside lookup expressions.
    pub fn complex_selector(&mut self) -> (r: Selector)
        requires
            old(self).wf(),
            old(self).num_selectors < usize::MAX,
        ensures
            r.0 == old(self).num_selectors,
            final(self).num_selectors == old(self).num_selectors + 1,
            final(self).num_advice == old(self).num_advice,
            final(self).num_tables == old(self).num_tables,
            final(self).modulus == old(self).modulus,
            final(self).lookups@ == old(self).lookups@,
            final(self).wf(),
    {
        let r = Selector(self.num_selectors);
        self.num_selectors = self.num_selectors + 1;
        proof { self.lemma_grow_keeps_lookups(*old(self)); }
        r
    }

    /// Allocates a fixed column that holds a lookup table.
    pub fn lookup_table_column(&mut self) -> (r: TableColumn)
        requires
            old(self).wf(),
            old(self).num_tables < usize::MAX,
        ensures
            r.0 == old(self).num_tables,
            final(self).num_tables == old(self).num_tables + 1,
            final(self).num_selectors == old(self).num_selectors,
            final(self).num_advice == old(self).num_advice,
            final(self).modulus == old(self).modulus,
            final(self).lookups@ == old(self).lookups@,
            final(self).wf(),
    {
        let r = TableColumn(self.num_tables);
        self.num_tables = self.num_tables + 1;
        proof { self.lemma_grow_keeps_lookups(*old(self)); }
        r
    }

    /// Allocates an advice column.
    pub fn advice_column(&mut self) -> (r: AdviceColumn)
        requires
            old(self).wf(),
            old(self).num_advice < usize::MAX,
        ensures
            r.0 == old(self).num_advice,
            final(self).num_advice == old(self).num_advice + 1,
            final(self).num_selectors == old(self).num_selectors,
            final(self).num_tables == old(self).num_tables,
            final(self).modulus == old(self).modulus,
            final(self).lookups@ == old(self).lookups@,
            final(self).wf(),
    {
        let r = AdviceColumn(self.num_advice);
        self.num_advice = self.num_advice + 1;
        proof { self.lemma_grow_keeps_lookups(*old(self)); }
        r
    }

    /// Allocating columns keeps every registered lookup in bounds.
    proof fn lemma_grow_keeps_lookups(&self, before: ConstraintSystem)
        requires
            before.wf(),
            self.modulus == before.modulus,
            self.lookups@ == before.lookups@,
            self.num_selectors >= before.num_selectors,
            self.num_advice >= before.num_advice,
            self.num_tables >= before.num_tables,
        ensures
            self.wf(),
    {
        assert forall|i: int| 0 <= i < self.lookups@.len() implies lookup_in_bounds(#[trigger] self.lookups@[i], *self) by {
            assert(lookup_in_bounds(before.lookups@[i], before));
            lemma_in_bounds_monotone(self.lookups@[i].input, before.num_selectors as nat,
                before.num_advice as nat, self.num_selectors as nat, self.num_advice as nat);
        }
    }

    /// Registers the lookup of `input` into `table`, returning its index; refuses one
    /// that refers to an unallocated column.
    pub fn lookup(&mut self, input: Expression, table: TableColumn) -> (r: Result<usize, ConfigurationError>)
        requires
            old(self).wf(),
        ensures
            final(self).wf(),
            final(self).modulus == old(self).modulus,
            final(self).num_selectors == old(self).num_selectors,
            final(self).num_advice == old(self).num_advice,
            final(self).num_tables == old(self).num_tables,
            r is Ok <==> lookup_in_bounds(Lookup { input, table }, *old(self)),
            r matches Ok(i) ==> {
                &&& i == old(self).lookups@.len()
                &&& final(self).lookups@ == old(self).lookups@.push(Lookup { input, table })
            },
            r is Err ==> final(self).lookups@ == old(self).lookups@,
    {
        if !check_in_bounds(&input, self.num_selectors, self.num_advice) || table.0 >= self.num_tables {
            return Err(ConfigurationError::UnallocatedColumn);
        }
        let index = self.lookups.len();
        self.lookups.push(Lookup { input, table });
        assert forall|i: int| 0 <= i < self.lookups@.len() implies lookup_in_bounds(#[trigger] self.lookups@[i], *self) by {
            if i < index {
                assert(self.lookups@[i] == old(self).lookups@[i]);
                assert(lookup_in_bounds(old(self).lookups@[i], *old(self)));
            }
        }
        Ok(index)
    }
}

/// Raising the column counts keeps an expression in bounds.
pub proof fn lemma_in_bounds_monotone(e: Expression, s1: nat, a1: nat, s2: nat, a2: nat)
    requires
        expr_in_bounds(e, s1, a1),
        s1 <= s2,
        a1 <= a2,
    ensures
        expr_in_bounds(e, s2, a2),
    decreases e,
{
    match e {
        Expression::Negated(a) => lemma_in_bounds_monotone(*a, s1, a1, s2, a2),
        Expression::Sum(a, b) => {
            lemma_in_bounds_monotone(*a, s1, a1, s2, a2);
            lemma_in_bounds_monotone(*b, s1, a1, s2, a2);
        },
        Expression::Product(a, b) => {
            lemma_in_bounds_monotone(*a, s1, a1, s2, a2);
            lemma_in_bounds_monotone(*b, s1, a1, s2, a2);
        },
        _ => {},
    }
}

/// The columns of the lookup circuit.
#[derive(Clone, Copy, Debug, PartialEq, Eq, Structural)]
pub struct SimpleLookupConfig {
    pub selector: Selector,
    pub table: TableColumn,
    pub advice: AdviceColumn,
}

/// The lookup input `selector * advice + (1 - selector)`: the advice value where the
/// selector is on, and the table-resident default `1` where it is off.
pub open spec fn spec_lookup_input(config: SimpleLookupConfig) -> Expression {
    Expression::Sum(
        Box::new(Expression::Product(
            Box::new(Expression::Selector(config.selector)),
            Box::new(Expression::Advice(config.advice)),
        )),
        Box::new(Expression::Sum(
            Box::new(Expression::Constant(1)),
            Box::new(Expression::Negated(Box::new(Expression::Selector(config.selector)))),
        )),
    )
}

/// Builds `spec_lookup_input(config)`.
pub fn lookup_input(config: SimpleLookupConfig) -> (r: Expression)
    ensures
        r == spec_lookup_input(config),
{
    let not_selector = difference(Expression::Constant(1), Expression::Selector(config.selector));
    sum(product(Expression::Selector(config.selector), Expression::Advice(config.advice)), not_selector)
}

/// The number of rows of the lookup table: every 3-bit value, shifted up by one.
pub const TABLE_ROWS: usize = 8;

/// The number of rows on which the selector is enabled and the advice column assigned.
pub const REGION_ROWS: usize = 16;

/// What `synthesize` returns on `asg`: the table phase is checked before the region
/// phase, and within each the columns before the rows.
pub open spec fn synthesis_outcome(config: SimpleLookupConfig, asg: &Assignment) -> Result<(), SynthesisError> {
    if config.table.0 >= asg.tables@.len() {
        Err(SynthesisError::ColumnNotInLayout)
    } else if asg.n < TABLE_ROWS {
        Err(SynthesisError::NotEnoughRows)
    } else if exists|j: int| 0 <= j < TABLE_ROWS && #[trigger] asg.tables@[config.table.0 as int]@[j] is Some {
        Err(SynthesisError::TableCellReassigned)
    } else if config.selector.0 >= asg.selectors@.len() || config.advice.0 >= asg.advice@.len() {
        Err(SynthesisError::ColumnNotInLayout)
    } else if asg.n < REGION_ROWS {
        Err(SynthesisError::NotEnoughRows)
    } else {
        Ok(())
    }
}

/// `after` is `before` with the lookup table and the witness region filled in, and
/// every other cell as it was.
pub open spec fn synthesized(config: SimpleLookupConfig, before: &Assignment, after: &Assignment) -> bool {
    let m = before.modulus as int;
    &&& after.k == before.k
    &&& after.n == before.n
    &&& after.modulus == before.modulus
    &&& after.selectors@.len() == before.selectors@.len()
    &&& after.advice@.len() == before.advice@.len()
    &&& after.tables@.len() == before.tables@.len()
    &&& forall|t: int, j: int| 0 <= t < after.tables@.len() && 0 <= j < after.n ==>
        #[trigger] after.tables@[t]@[j] == if t == config.table.0 && j < TABLE_ROWS {
            Some(((j + 1) % m) as u64)
        } else {
            before.tables@[t]@[j]
        }
    &&& forall|s: int, j: int| 0 <= s < after.selectors@.len() && 0 <= j < after.n ==>
        #[trigger] after.selectors@[s]@[j] == if s == config.selector.0 && j < REGION_ROWS {
            true
        } else {
            before.selectors@[s]@[j]
        }
    &&& forall|c: int, j: int| 0 <= c < after.advice@.len() && 0 <= j < after.n ==>
        #[trigger] after.advice@[c]@[j] == if c == config.advice.0 && j < REGION_ROWS {
            Some(((j % 8 + 1) % m) as u64)
        } else {
            before.advice@[c]@[j]
        }
}

/// The lookup circuit; it holds no witness of its own, since every value it
/// assigns is fixed by its row.
#[derive(Clone, Copy, Debug, PartialEq, Eq, Structural)]
pub struct SimpleLookupCircuit;

impl SimpleLookupCircuit {
    /// The same circuit with its witness left unknown.
    pub fn without_witnesses(&self) -> (r: SimpleLookupCircuit)
        ensures
            r == *self,
    {
        SimpleLookupCircuit
    }

    /// Allocates one complex selector, one table column and one advice column, and
    /// registers the lookup of `spec_lookup_input` into the table column.
    pub fn configure(meta: &mut ConstraintSystem) -> (r: SimpleLookupConfig)
        requires
            old(meta).wf(),
            old(meta).has_room(),
        ensures
            final(meta).wf(),
            r.selector.0 == old(meta).num_selectors,
            r.table.0 == old(meta).num_tables,
            r.advice.0 == old(meta).num_advice,
            final(meta).modulus == old(meta).modulus,
            final(meta).num_selectors == old(meta).num_selectors + 1,
            final(meta).num_tables == old(meta).num_tables + 1,
            final(meta).num_advice == old(meta).num_advice + 1,
            final(meta).lookups@ == old(meta).lookups@.push(
                Lookup { input: spec_lookup_input(r), table: r.table },
            ),
    {
        let config = SimpleLookupConfig {
            selector: meta.complex_selector(),
            table: meta.lookup_table_column(),
            advice: meta.advice_column(),
        };
        let input = lookup_input(config);
        proof {
            reveal_with_fuel(expr_in_bounds, 4);
        }
        let r = meta.lookup(input, config.table);
        assert(r is Ok);
        config
    }

    /// Fills the lookup table and the witness region: table rows `0..8` hold
    /// `row + 1`, and on rows `0..16` the selector is on and the advice cell holds
    /// `row % 8 + 1`. Nothing is written unless all of it can be.
    pub fn synthesize(&self, config: SimpleLookupConfig, layouter: &mut Assignment) -> (r: Result<(), SynthesisError>)
        requires
            old(layouter).wf(),
        ensures
            final(layouter).wf(),
            r == synthesis_outcome(config, &*old(layouter)),
            r is Err ==> *final(layouter) == *old(layouter),
            r is Ok ==> synthesized(config, &*old(layouter), &*final(layouter)),
    {
        let ghost before: Assignment = *layouter;
        if config.table.0 >= layouter.tables.len() {
            return Err(SynthesisError::ColumnNotInLayout);
        }
        if layouter.n < TABLE_ROWS {
            return Err(SynthesisError::NotEnoughRows);
        }
        let mut row: usize = 0;
        while row < TABLE_ROWS
            invariant
                layouter.wf(),
                config.table.0 < layouter.tables@.len(),
                TABLE_ROWS <= layouter.n,
                row <= TABLE_ROWS,
                forall|j: int| 0 <= j < row ==> #[trigger] layouter.tables@[config.table.0 as int]@[j] is None,
            decreases TABLE_ROWS - row,
        {
            if layouter.tables[config.table.0][row].is_some() {
                return Err(SynthesisError::TableCellReassigned);
            }
            row = row + 1;
        }
        if config.selector.0 >= layouter.selectors.len() || config.advice.0 >= layouter.advice.len() {
            return Err(SynthesisError::ColumnNotInLayout);
        }
        if layouter.n < REGION_ROWS {
            return Err(SynthesisError::NotEnoughRows);
        }
        let ghost m = layouter.modulus as int;
        let mut row: usize = 0;
        while row < TABLE_ROWS
            invariant
                layouter.wf(),
                layouter.k == before.k,
                layouter.n == before.n,
                layouter.modulus == before.modulus,
                m == before.modulus,
                REGION_ROWS <= layouter.n,
                config.table.0 < layouter.tables@.len(),
                layouter.selectors@ == before.selectors@,
                layouter.advice@ == before.advice@,
                layouter.tables@.len() == before.tables@.len(),
                row <= TABLE_ROWS,
                forall|t: int, j: int| 0 <= t < layouter.tables@.len() && 0 <= j < layouter.n ==>
                    #[trigger] layouter.tables@[t]@[j] == if t == config.table.0 && j < row {
                        Some(((j + 1) % m) as u64)
                    } else {
                        before.tables@[t]@[j]
                    },
                forall|j: int| 0 <= j < TABLE_ROWS ==> #[trigger] before.tables@[config.table.0 as int]@[j] is None,
            decreases TABLE_ROWS - row,
        {
            let ghost prev: Assignment = *layouter;
            let res = layouter.assign_table_cell(config.table, row, (row + 1) as u64);
            assert(prev.tables@[config.table.0 as int]@[row as int] == before.tables@[config.table.0 as int]@[row as int]);
            assert(res is Ok);
            proof {
                assert forall|t: int, j: int| 0 <= t < layouter.tables@.len() && 0 <= j < layouter.n implies
                    #[trigger] layouter.tables@[t]@[j] == if t == config.table.0 && j < row + 1 {
                        Some(((j + 1) % m) as u64)
                    } else {
                        before.tables@[t]@[j]
                    } by {
                    if t != config.table.0 || j != row {
                        assert(layouter.tables@[t]@[j] == prev.tables@[t]@[j]);
                    }
                }
            }
            row = row + 1;
        }
        let ghost mid: Assignment = *layouter;
        let mut row: usize = 0;
        while row < REGION_ROWS
            invariant
                layouter.wf(),
                layouter.k == before.k,
                layouter.n == before.n,
                layouter.modulus == before.modulus,
                m == before.modulus,
                REGION_ROWS <= layouter.n,
                config.selector.0 < layouter.selectors@.len(),
                config.advice.0 < layouter.advice@.len(),
                layouter.tables@ == mid.tables@,
                layouter.selectors@.len() == before.selectors@.len(),
                layouter.advice@.len() == before.advice@.len(),
                mid.selectors@ == before.selectors@,
                mid.advice@ == before.advice@,
                row <= REGION_ROWS,
                forall|s: int, j: int| 0 <= s < layouter.selectors@.len() && 0 <= j < layouter.n ==>
                    #[trigger] layouter.selectors@[s]@[j] == if s == config.selector.0 && j < row {
                        true
                    } else {
                        before.selectors@[s]@[j]
                    },
                forall|c: int, j: int| 0 <= c < layouter.advice@.len() && 0 <= j < layouter.n ==>
                    #[trigger] layouter.advice@[c]@[j] == if c == config.advice.0 && j < row {
                        Some(((j % 8 + 1) % m) as u64)
                    } else {
                        before.advice@[c]@[j]
                    },
            decreases REGION_ROWS - row,
        {
            let ghost prev: Assignment = *layouter;
            let res = layouter.enable_selector(config.selector, row);
            assert(res is Ok);
            let ghost prev2: Assignment = *layouter;
            let res = layouter.assign_advice(config.advice, row, (row % 8 + 1) as u64);
            assert(res is Ok);
            proof {
                assert forall|s: int, j: int| 0 <= s < layouter.selectors@.len() && 0 <= j < layouter.n implies
                    #[trigger] layouter.selectors@[s]@[j] == if s == config.selector.0 && j < row + 1 {
                        true
                    } else {
                        before.selectors@[s]@[j]
                    } by {
                    if s != config.selector.0 || j != row {
                        assert(layouter.selectors@[s]@[j] == prev.selectors@[s]@[j]);
                    }
                }
                assert forall|c: int, j: int| 0 <= c < layouter.advice@.len() && 0 <= j < layouter.n implies
                    #[trigger] layouter.advice@[c]@[j] == if c == config.advice.0 && j < row + 1 {
                        Some(((j % 8 + 1) % m) as u64)
                    } else {
                        before.advice@[c]@[j]
                    } by {
                    if c != config.advice.0 || j != row {
                        assert(layouter.advice@[c]@[j] == prev2.advice@[c]@[j]);
                    }
                }
            }
            row = row + 1;
        }
        Ok(())
    }
}

} // verus!
