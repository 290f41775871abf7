use vstd::prelude::*;

use crate::check::{lookup_holds_at, lookups_satisfied};
use crate::circuit::{
    spec_lookup_input, synthesized, ConstraintSystem, Lookup, SimpleLookupConfig, REGION_ROWS,
    TABLE_ROWS,
};
use crate::layout::{cell_value, Assignment};

verus! {

/// The columns of `config` exist in `asg`.
pub open spec fn config_in_layout(config: SimpleLookupConfig, asg: &Assignment) -> bool {
    &&& config.selector.0 < asg.selectors@.len()
    &&& config.table.0 < asg.tables@.len()
    &&& config.advice.0 < asg.advice@.len()
}

/// On a row where the selector is on, the lookup input is the advice value.
pub proof fn lemma_enabled_row_reads_advice(config: SimpleLookupConfig, asg: &Assignment, row: int)
    requires
        asg.wf(),
        config_in_layout(config, asg),
        0 <= row < asg.n,
        asg.selectors@[config.selector.0 as int]@[row],
    ensures
        asg.eval(spec_lookup_input(config), row) == cell_value(asg.advice@[config.advice.0 as int]@[row]),
{
    reveal_with_fuel(Assignment::eval, 4);
    let m = asg.modulus as int;
    let v = cell_value(asg.advice@[config.advice.0 as int]@[row]);
    assert(0 <= v < m) by {
        assert(asg.advice@[config.advice.0 as int]@[row] matches Some(x) ==> x < m);
    }
    assert((1 * v) % m == v) by {
        vstd::arithmetic::div_mod::lemma_small_mod(v as nat, m as nat);
    }
    assert((m - 1) % m == m - 1) by {
        vstd::arithmetic::div_mod::lemma_small_mod((m - 1) as nat, m as nat);
    }
    assert(1int % m == 1) by {
        vstd::arithmetic::div_mod::lemma_small_mod(1, m as nat);
    }
    assert((1 + (m - 1)) % m == 0) by {
        vstd::arithmetic::div_mod::lemma_mod_self_0(m);
    }
    assert((v + 0) % m == v) by {
        vstd::arithmetic::div_mod::lemma_small_mod(v as nat, m as nat);
    }
}

/// On a row where the selector is off, the lookup input is the default `1`,
/// whatever the advice cell holds.
pub proof fn lemma_disabled_row_reads_one(config: SimpleLookupConfig, asg: &Assignment, row: int)
    requires
        asg.wf(),
        config_in_layout(config, asg),
        0 <= row < asg.n,
        !asg.selectors@[config.selector.0 as int]@[row],
    ensures
        asg.eval(spec_lookup_input(config), row) == 1,
{
    reveal_with_fuel(Assignment::eval, 4);
    let m = asg.modulus as int;
    let v = cell_value(asg.advice@[config.advice.0 as int]@[row]);
    assert((0 * v) % m == 0) by {
        vstd::arithmetic::div_mod::lemma_small_mod(0, m as nat);
    }
    assert((m - 0) % m == 0) by {
        vstd::arithmetic::div_mod::lemma_mod_self_0(m);
    }
    assert(1int % m == 1) by {
        vstd::arithmetic::div_mod::lemma_small_mod(1, m as nat);
    }
    assert((1int + 0) % m == 1);
    assert((0int + 1) % m == 1);
}

/// A row whose selector is off never fails the circuit's lookup, provided the table
/// holds the default `1`.
pub proof fn lemma_disabled_row_passes(config: SimpleLookupConfig, asg: &Assignment, row: int)
    requires
        asg.wf(),
        config_in_layout(config, asg),
        0 <= row < asg.n,
        !asg.selectors@[config.selector.0 as int]@[row],
        asg.table_holds(config.table, 1),
    ensures
        lookup_holds_at(asg, Lookup { input: spec_lookup_input(config), table: config.table }, row),
{
    lemma_disabled_row_reads_one(config, asg, row);
}

/// A row whose selector is on and whose advice value the table does not hold makes
/// every constraint system that registers the circuit's lookup reject the witness.
pub proof fn lemma_out_of_table_advice_rejected(
    cs: &ConstraintSystem,
    config: SimpleLookupConfig,
    asg: &Assignment,
    i: int,
    row: int,
)
    requires
        asg.wf(),
        config_in_layout(config, asg),
        0 <= i < cs.lookups@.len(),
        cs.lookups@[i] == (Lookup { input: spec_lookup_input(config), table: config.table }),
        0 <= row < asg.n,
        asg.selectors@[config.selector.0 as int]@[row],
        !asg.table_holds(config.table, cell_value(asg.advice@[config.advice.0 as int]@[row])),
    ensures
        !lookups_satisfied(cs, asg),
{
    lemma_enabled_row_reads_advice(config, asg, row);
    assert(!lookup_holds_at(asg, cs.lookups@[i], row));
}

/// After synthesis, table rows `0..8` hold `row + 1`, in a field of more than eight
/// elements.
pub proof fn lemma_table_complete(config: SimpleLookupConfig, before: &Assignment, after: &Assignment)
    requires
        before.wf(),
        after.wf(),
        config_in_layout(config, before),
        before.n >= REGION_ROWS,
        before.modulus > TABLE_ROWS,
        synthesized(config, before, after),
    ensures
        forall|j: int| 0 <= j < TABLE_ROWS ==> #[trigger] after.tables@[config.table.0 as int]@[j] == Some((j + 1) as u64),
{
    assert forall|j: int| 0 <= j < TABLE_ROWS implies #[trigger] after.tables@[config.table.0 as int]@[j] == Some((j + 1) as u64) by {
        vstd::arithmetic::div_mod::lemma_small_mod((j + 1) as nat, before.modulus as nat);
    }
}

/// After synthesis, rows `0..16` have the selector on and advice `row % 8 + 1`, a
/// value in `1..=8`, in a field of more than eight elements.
pub proof fn lemma_region_in_table_range(config: SimpleLookupConfig, before: &Assignment, after: &Assignment)
    requires
        before.wf(),
        after.wf(),
        config_in_layout(config, before),
        before.n >= REGION_ROWS,
        before.modulus > TABLE_ROWS,
        synthesized(config, before, after),
    ensures
        forall|j: int| 0 <= j < REGION_ROWS ==> #[trigger] after.selectors@[config.selector.0 as int]@[j],
        forall|j: int| 0 <= j < REGION_ROWS ==> {
            &&& #[trigger] after.advice@[config.advice.0 as int]@[j] == Some((j % 8 + 1) as u64)
            &&& 1 <= j % 8 + 1 <= 8
        },
{
    assert forall|j: int| 0 <= j < REGION_ROWS implies {
        &&& #[trigger] after.advice@[config.advice.0 as int]@[j] == Some((j % 8 + 1) as u64)
        &&& 1 <= j % 8 + 1 <= 8
    } by {
        vstd::arithmetic::div_mod::lemma_small_mod((j % 8 + 1) as nat, before.modulus as nat);
    }
}

/// Synthesizing the circuit into a layout of at least sixteen rows whose selector
/// column starts off satisfies its lookup on every row, whatever the modulus: rows
/// with the selector on read an advice value that the table holds, the others read
/// `1`, which the table's first row holds.
pub proof fn lemma_synthesized_lookups_hold(
    cs: &ConstraintSystem,
    config: SimpleLookupConfig,
    before: &Assignment,
    after: &Assignment,
)
    requires
        before.wf(),
        after.wf(),
        config_in_layout(config, before),
        cs.lookups@ == seq![Lookup { input: spec_lookup_input(config), table: config.table }],
        before.n >= REGION_ROWS,
        forall|j: int| 0 <= j < before.n ==> !#[trigger] before.selectors@[config.selector.0 as int]@[j],
        synthesized(config, before, after),
    ensures
        lookups_satisfied(cs, after),
{
    let m = before.modulus as int;
    assert(after.tables@[config.table.0 as int]@[0] == Some(((0int + 1) % m) as u64));
    assert(1int % m == 1) by {
        vstd::arithmetic::div_mod::lemma_small_mod(1, m as nat);
    }
    assert(after.table_holds(config.table, 1));
    assert forall|i: int, row: int| 0 <= i < cs.lookups@.len() && 0 <= row < after.n implies
        #[trigger] lookup_holds_at(after, cs.lookups@[i], row) by {
        assert(cs.lookups@[i] == Lookup { input: spec_lookup_input(config), table: config.table });
        if row < REGION_ROWS {
            assert(after.selectors@[config.selector.0 as int]@[row]);
            lemma_enabled_row_reads_advice(config, after, row);
            let t = row % 8;
            let v = (t + 1) % m;
            assert(0 <= v < m);
            assert(after.tables@[config.table.0 as int]@[t] == Some(v as u64));
            assert(after.advice@[config.advice.0 as int]@[row] == Some(v as u64));
            assert(after.table_holds(config.table, v));
        } else {
            assert(!before.selectors@[config.selector.0 as int]@[row]);
            assert(!after.selectors@[config.selector.0 as int]@[row]);
            lemma_disabled_row_passes(config, after, row);
        }
    }
}

/// Synthesis is deterministic: from the same layout, two synthesized layouts agree
/// on every column.
pub proof fn lemma_synthesis_deterministic(
    config: SimpleLookupConfig,
    before: &Assignment,
    a: &Assignment,
    b: &Assignment,
)
    requires
        a.wf(),
        b.wf(),
        synthesized(config, before, a),
        synthesized(config, before, b),
    ensures
        a.n == b.n,
        a.modulus == b.modulus,
        a.selectors@.len() == b.selectors@.len(),
        a.advice@.len() == b.advice@.len(),
        a.tables@.len() == b.tables@.len(),
        forall|s: int| 0 <= s < a.selectors@.len() ==> (#[trigger] a.selectors@[s])@ == b.selectors@[s]@,
        forall|c: int| 0 <= c < a.advice@.len() ==> (#[trigger] a.advice@[c])@ == b.advice@[c]@,
        forall|t: int| 0 <= t < a.tables@.len() ==> (#[trigger] a.tables@[t])@ == b.tables@[t]@,
{
    assert forall|s: int| 0 <= s < a.selectors@.len() implies (#[trigger] a.selectors@[s])@ == b.selectors@[s]@ by {
        assert(a.selectors@[s]@ =~= b.selectors@[s]@);
    }
    assert forall|c: int| 0 <= c < a.advice@.len() implies (#[trigger] a.advice@[c])@ == b.advice@[c]@ by {
        assert(a.advice@[c]@ =~= b.advice@[c]@);
    }
    assert forall|t: int| 0 <= t < a.tables@.len() implies (#[trigger] a.tables@[t])@ == b.tables@[t]@ by {
        assert(a.tables@[t]@ =~= b.tables@[t]@);
    }
}

} // verus!
