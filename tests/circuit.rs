use simple_lookup::{
    check_circuit, verify_lookups, AdviceColumn, Assignment, CircuitError, ConfigurationError,
    ConstraintSystem, Expression, LookupFailure, Selector, SimpleLookupCircuit,
    SimpleLookupConfig, SynthesisError, TableColumn,
};

/// The largest prime below 2^64.
const P: u64 = 18446744073709551557;

fn configured() -> (ConstraintSystem, SimpleLookupConfig) {
    let mut cs = ConstraintSystem::new(P);
    let config = SimpleLookupCircuit::configure(&mut cs);
    (cs, config)
}

fn synthesized(k: u32) -> (ConstraintSystem, SimpleLookupConfig, Assignment) {
    let (cs, config) = configured();
    let mut asg = Assignment::new(&cs, k);
    SimpleLookupCircuit.synthesize(config, &mut asg).expect("synthesis should not fail");
    (cs, config, asg)
}

#[test]
fn configure_allocates_one_column_of_each_kind() {
    let (cs, config) = configured();
    assert_eq!(cs.num_selectors, 1);
    assert_eq!(cs.num_tables, 1);
    assert_eq!(cs.num_advice, 1);
    assert_eq!(config.selector, Selector(0));
    assert_eq!(config.table, TableColumn(0));
    assert_eq!(config.advice, AdviceColumn(0));
    assert_eq!(cs.lookups.len(), 1);
    assert_eq!(cs.lookups[0].table, TableColumn(0));
}

#[test]
fn configure_registers_gated_input_with_default_one() {
    let (cs, _) = configured();
    let Expression::Sum(gated, default) = &cs.lookups[0].input else {
        panic!("lookup input is not a sum");
    };
    assert!(matches!(
        (&**gated, &**default),
        (Expression::Product(_, _), Expression::Sum(_, _))
    ));
    let Expression::Sum(one, not_selector) = &**default else {
        unreachable!()
    };
    assert!(matches!(**one, Expression::Constant(1)));
    assert!(matches!(&**not_selector, Expression::Negated(s) if matches!(**s, Expression::Selector(Selector(0)))));
}

#[test]
fn configure_twice_allocates_fresh_columns() {
    let (mut cs, _) = configured();
    let second = SimpleLookupCircuit::configure(&mut cs);
    assert_eq!(second.selector, Selector(1));
    assert_eq!(second.table, TableColumn(1));
    assert_eq!(second.advice, AdviceColumn(1));
    assert_eq!(cs.lookups.len(), 2);
}

#[test]
fn lookup_on_unallocated_column_is_refused() {
    let mut cs = ConstraintSystem::new(P);
    let t = cs.lookup_table_column();
    assert_eq!(
        cs.lookup(Expression::Advice(AdviceColumn(0)), t),
        Err(ConfigurationError::UnallocatedColumn)
    );
    assert_eq!(
        cs.lookup(Expression::Constant(1), TableColumn(1)),
        Err(ConfigurationError::UnallocatedColumn)
    );
    assert_eq!(cs.lookups.len(), 0);
    assert_eq!(cs.lookup(Expression::Constant(1), t), Ok(0));
}

#[test]
fn without_witnesses_is_the_same_circuit() {
    assert_eq!(SimpleLookupCircuit.without_witnesses(), SimpleLookupCircuit);
}

#[test]
fn table_is_complete() {
    let (_, config, asg) = synthesized(5);
    assert_eq!(asg.n, 32);
    for row in 0..8usize {
        assert_eq!(asg.table_cell(config.table, row), Some(row as u64 + 1));
    }
    for row in 8..32usize {
        assert_eq!(asg.table_cell(config.table, row), None);
    }
}

#[test]
fn region_values_are_table_resident() {
    let (_, config, asg) = synthesized(5);
    for row in 0..16usize {
        assert!(asg.is_enabled(config.selector, row));
        let v = asg.advice_cell(config.advice, row).unwrap();
        assert_eq!(v, (row as u64 % 8) + 1);
        assert!((1..=8).contains(&v));
    }
    for row in 16..32usize {
        assert!(!asg.is_enabled(config.selector, row));
        assert_eq!(asg.advice_cell(config.advice, row), None);
    }
}

#[test]
fn synthesized_circuit_satisfies_lookup() {
    let (cs, _, asg) = synthesized(5);
    assert_eq!(verify_lookups(&cs, &asg), Ok(()));
}

#[test]
fn disabled_rows_read_default_one() {
    let (cs, config, asg) = synthesized(5);
    let input = &cs.lookups[0].input;
    for row in 16..32usize {
        assert_eq!(asg.evaluate(input, row), 1);
    }
    assert_eq!(asg.evaluate(input, 3), 4);
    assert_eq!(asg.evaluate(input, 11), 4);
    assert!(!asg.is_enabled(config.selector, 20));
}

#[test]
fn disabled_row_with_out_of_table_advice_passes() {
    let (cs, config, mut asg) = synthesized(5);
    asg.assign_advice(config.advice, 20, 9).unwrap();
    assert_eq!(asg.evaluate(&cs.lookups[0].input, 20), 1);
    assert_eq!(verify_lookups(&cs, &asg), Ok(()));
}

#[test]
fn out_of_table_advice_is_rejected() {
    let (cs, config, mut asg) = synthesized(5);
    asg.assign_advice(config.advice, 3, 9).unwrap();
    assert_eq!(
        verify_lookups(&cs, &asg),
        Err(LookupFailure { lookup: 0, row: 3 })
    );
}

#[test]
fn zero_advice_on_enabled_row_is_rejected() {
    let (cs, config, mut asg) = synthesized(5);
    asg.assign_advice(config.advice, 15, 0).unwrap();
    assert_eq!(
        verify_lookups(&cs, &asg),
        Err(LookupFailure { lookup: 0, row: 15 })
    );
}

#[test]
fn enabling_an_unassigned_row_is_rejected() {
    let (cs, config, mut asg) = synthesized(5);
    asg.enable_selector(config.selector, 17).unwrap();
    assert_eq!(asg.evaluate(&cs.lookups[0].input, 17), 0);
    assert_eq!(
        verify_lookups(&cs, &asg),
        Err(LookupFailure { lookup: 0, row: 17 })
    );
}

#[test]
fn synthesis_is_deterministic() {
    let (_, _, a) = synthesized(5);
    let (_, _, b) = synthesized(5);
    assert_eq!(a.selectors, b.selectors);
    assert_eq!(a.advice, b.advice);
    assert_eq!(a.tables, b.tables);
}

#[test]
fn too_few_rows_for_region() {
    let (cs, config) = configured();
    let mut asg = Assignment::new(&cs, 3);
    assert_eq!(
        SimpleLookupCircuit.synthesize(config, &mut asg),
        Err(SynthesisError::NotEnoughRows)
    );
    assert_eq!(asg.table_cell(config.table, 0), None);
}

#[test]
fn too_few_rows_for_table() {
    let (cs, config) = configured();
    let mut asg = Assignment::new(&cs, 2);
    assert_eq!(asg.n, 4);
    assert_eq!(
        SimpleLookupCircuit.synthesize(config, &mut asg),
        Err(SynthesisError::NotEnoughRows)
    );
}

#[test]
fn table_reassignment_is_refused() {
    let (_, config, mut asg) = synthesized(4);
    assert_eq!(
        SimpleLookupCircuit.synthesize(config, &mut asg),
        Err(SynthesisError::TableCellReassigned)
    );
    assert_eq!(
        asg.assign_table_cell(config.table, 7, 8),
        Err(SynthesisError::TableCellReassigned)
    );
    assert_eq!(asg.assign_table_cell(config.table, 8, 9), Ok(()));
    assert_eq!(asg.table_cell(config.table, 8), Some(9));
}

#[test]
fn layout_without_columns_is_refused() {
    let (_, config) = configured();
    let empty = ConstraintSystem::new(P);
    let mut asg = Assignment::new(&empty, 5);
    assert_eq!(
        SimpleLookupCircuit.synthesize(config, &mut asg),
        Err(SynthesisError::ColumnNotInLayout)
    );
}

#[test]
fn cell_writes_check_bounds() {
    let (_, config) = configured();
    let mut cs = ConstraintSystem::new(P);
    SimpleLookupCircuit::configure(&mut cs);
    let mut asg = Assignment::new(&cs, 4);
    assert_eq!(asg.assign_advice(config.advice, 16, 1), Err(SynthesisError::NotEnoughRows));
    assert_eq!(asg.assign_advice(AdviceColumn(1), 0, 1), Err(SynthesisError::ColumnNotInLayout));
    assert_eq!(asg.enable_selector(config.selector, 16), Err(SynthesisError::NotEnoughRows));
    assert_eq!(asg.enable_selector(Selector(2), 0), Err(SynthesisError::ColumnNotInLayout));
    assert_eq!(asg.assign_table_cell(config.table, 16, 1), Err(SynthesisError::NotEnoughRows));
    assert_eq!(asg.assign_table_cell(TableColumn(1), 0, 1), Err(SynthesisError::ColumnNotInLayout));
}

#[test]
fn values_are_reduced_by_the_modulus() {
    let mut cs = ConstraintSystem::new(7);
    let config = SimpleLookupCircuit::configure(&mut cs);
    let mut asg = Assignment::new(&cs, 4);
    asg.assign_table_cell(config.table, 0, 10).unwrap();
    assert_eq!(asg.table_cell(config.table, 0), Some(3));
    asg.assign_advice(config.advice, 0, 20).unwrap();
    assert_eq!(asg.advice_cell(config.advice, 0), Some(6));
}

#[test]
fn evaluation_is_modular() {
    let mut cs = ConstraintSystem::new(7);
    let config = SimpleLookupCircuit::configure(&mut cs);
    let mut asg = Assignment::new(&cs, 4);
    asg.assign_advice(config.advice, 2, 5).unwrap();
    let a = || Expression::Advice(config.advice);
    let c = |v: u64| Expression::Constant(v);
    assert_eq!(asg.evaluate(&simple_lookup::product(a(), c(3)), 2), 1);
    assert_eq!(asg.evaluate(&simple_lookup::sum(a(), c(4)), 2), 2);
    assert_eq!(asg.evaluate(&simple_lookup::difference(c(1), a()), 2), 3);
    assert_eq!(asg.evaluate(&Expression::Negated(Box::new(c(0))), 2), 0);
    assert_eq!(asg.evaluate(&a(), 1), 0);
    assert_eq!(asg.evaluate(&Expression::Selector(config.selector), 2), 0);
}

#[test]
fn small_modulus_circuit_still_satisfies_lookup() {
    let mut cs = ConstraintSystem::new(5);
    let config = SimpleLookupCircuit::configure(&mut cs);
    let mut asg = Assignment::new(&cs, 5);
    SimpleLookupCircuit.synthesize(config, &mut asg).unwrap();
    assert_eq!(asg.table_cell(config.table, 4), Some(0));
    assert_eq!(verify_lookups(&cs, &asg), Ok(()));
}

#[test]
fn check_circuit_needs_sixteen_rows() {
    assert_eq!(check_circuit(P, 5), Ok(()));
    assert_eq!(check_circuit(P, 4), Ok(()));
    assert_eq!(
        check_circuit(P, 3),
        Err(CircuitError::Synthesis(SynthesisError::NotEnoughRows))
    );
    assert_eq!(
        check_circuit(P, 0),
        Err(CircuitError::Synthesis(SynthesisError::NotEnoughRows))
    );
}
