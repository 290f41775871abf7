//! A selector-gated lookup circuit: the constraint system that it registers, the
//! witness that it assigns, the satisfaction check of its lookup relation, and the
//! byte comparison that two provers' serialized proofs are held to.

mod check;
mod circuit;
mod expr;
mod laws;
mod layout;
mod parity;
mod pipeline;

pub use check::{lookup_holds_at, lookups_satisfied, table_contains, verify_lookups, LookupFailure};
pub use circuit::{
    lemma_in_bounds_monotone, lookup_in_bounds, lookup_input, spec_lookup_input, synthesis_outcome,
    synthesized, ConfigurationError, ConstraintSystem, Lookup, SimpleLookupCircuit,
    SimpleLookupConfig, REGION_ROWS, TABLE_ROWS,
};
pub use expr::{
    check_in_bounds, difference, expr_in_bounds, product, sum, AdviceColumn, Expression, Selector,
    TableColumn,
};
pub use laws::{
    config_in_layout, lemma_disabled_row_passes, lemma_disabled_row_reads_one,
    lemma_enabled_row_reads_advice, lemma_out_of_table_advice_rejected,
    lemma_region_in_table_range, lemma_synthesis_deterministic, lemma_synthesized_lookups_hold,
    lemma_table_complete,
};
pub use layout::{cell_value, columns_of_len, values_below, Assignment, SynthesisError, MAX_K};
pub use parity::{check_parity, first_difference, ParityMismatch};
pub use pipeline::{check_circuit, CircuitError};
