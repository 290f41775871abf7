use vstd::prelude::*;

use crate::circuit::{lookup_in_bounds, ConstraintSystem, Lookup};
use crate::expr::TableColumn;
use crate::layout::Assignment;

verus! {

/// The first lookup relation, in registration order, that fails, and the first row
/// on which it fails.
#[derive(Clone, Copy, Debug, PartialEq, Eq, Structural)]
pub struct LookupFailure {
    pub lookup: usize,
    pub row: usize,
}

/// On row `row`, the input of `l` evaluates to a value that its table holds.
pub open spec fn lookup_holds_at(asg: &Assignment, l: Lookup, row: int) -> bool {
    asg.table_holds(l.table, asg.eval(l.input, row))
}

/// Every lookup relation of `cs` holds on every row of `asg`.
pub open spec fn lookups_satisfied(cs: &ConstraintSystem, asg: &Assignment) -> bool {
    forall|i: int, row: int|
        0 <= i < cs.lookups@.len() && 0 <= row < asg.n ==> #[trigger] lookup_holds_at(asg, cs.lookups@[i], row)
}

/// Whether some row of table column `table` holds `v`.
pub fn table_contains(asg: &Assignment, table: TableColumn, v: u64) -> (r: bool)
    requires
        asg.wf(),
        table.0 < asg.tables@.len(),
    ensures
        r == asg.table_holds(table, v as int),
{
    let mut row: usize = 0;
    while row < asg.n
        invariant
            asg.wf(),
            table.0 < asg.tables@.len(),
            row <= asg.n,
            forall|j: int| 0 <= j < row ==> #[trigger] asg.tables@[table.0 as int]@[j] != Some(v),
        decreases asg.n - row,
    {
        if asg.tables[table.0][row] == Some(v) {
            return true;
        }
        row = row + 1;
    }
    false
}

/// Checks every lookup relation of `cs` on every row of `asg`, reporting the first
/// violation.
pub fn verify_lookups(cs: &ConstraintSystem, asg: &Assignment) -> (r: Result<(), LookupFailure>)
    requires
        cs.wf(),
        asg.wf(),
        asg.fits(cs),
    ensures
        r is Ok <==> lookups_satisfied(cs, asg),
        r matches Err(f) ==> {
            &&& f.lookup < cs.lookups@.len()
            &&& f.row < asg.n
            &&& !lookup_holds_at(asg, cs.lookups@[f.lookup as int], f.row as int)
            &&& forall|i: int, row: int| 0 <= i < f.lookup && 0 <= row < asg.n
                ==> #[trigger] lookup_holds_at(asg, cs.lookups@[i], row)
            &&& forall|row: int| 0 <= row < f.row
                ==> #[trigger] lookup_holds_at(asg, cs.lookups@[f.lookup as int], row)
        },
{
    let mut i: usize = 0;
    while i < cs.lookups.len()
        invariant
            cs.wf(),
            asg.wf(),
            asg.fits(cs),
            i <= cs.lookups@.len(),
            forall|j: int, row: int| 0 <= j < i && 0 <= row < asg.n
                ==> #[trigger] lookup_holds_at(asg, cs.lookups@[j], row),
        decreases cs.lookups@.len() - i,
    {
        let l = &cs.lookups[i];
        assert(lookup_in_bounds(cs.lookups@[i as int], *cs));
        let mut row: usize = 0;
        while row < asg.n
            invariant
                cs.wf(),
                asg.wf(),
                asg.fits(cs),
                i < cs.lookups@.len(),
                *l == cs.lookups@[i as int],
                lookup_in_bounds(*l, *cs),
                row <= asg.n,
                forall|j: int, row: int| 0 <= j < i && 0 <= row < asg.n
                    ==> #[trigger] lookup_holds_at(asg, cs.lookups@[j], row),
                forall|j: int| 0 <= j < row ==> #[trigger] lookup_holds_at(asg, cs.lookups@[i as int], j),
            decreases asg.n - row,
        {
            let v = asg.evaluate(&l.input, row);
            if !table_contains(asg, l.table, v) {
                assert(!lookup_holds_at(asg, cs.lookups@[i as int], row as int));
                return Err(LookupFailure { lookup: i, row });
            }
            row = row + 1;
        }
        i = i + 1;
    }
    Ok(())
}

} // verus!
