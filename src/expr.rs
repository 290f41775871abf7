use vstd::prelude::*;

verus! {

/// An identifier of a selector column.
#[derive(Clone, Copy, Debug, PartialEq, Eq, Structural)]
pub struct Selector(pub usize);

/// An identifier of a fixed lookup-table column.
#[derive(Clone, Copy, Debug, PartialEq, Eq, Structural)]
pub struct TableColumn(pub usize);

/// An identifier of an advice (witness) column.
#[derive(Clone, Copy, Debug, PartialEq, Eq, Structural)]
pub struct AdviceColumn(pub usize);

/// A polynomial expression over the cells of one row, evaluated in the field of
/// integers modulo the constraint system's modulus.
#[derive(Debug)]
pub enum Expression {
    Constant(u64),
    Selector(Selector),
    Advice(AdviceColumn),
    Negated(Box<Expression>),
    Sum(Box<Expression>, Box<Expression>),
    Product(Box<Expression>, Box<Expression>),
}

/// Every column that `e` queries lies below the given column counts.
pub open spec fn expr_in_bounds(e: Expression, num_selectors: nat, num_advice: nat) -> bool
    decreases e,
{
    match e {
        Expression::Constant(_) => true,
        Expression::Selector(s) => s.0 < num_selectors,
        Expression::Advice(c) => c.0 < num_advice,
        Expression::Negated(a) => expr_in_bounds(*a, num_selectors, num_advice),
        Expression::Sum(a, b) => expr_in_bounds(*a, num_selectors, num_advice)
            && expr_in_bounds(*b, num_selectors, num_advice),
        Expression::Product(a, b) => expr_in_bounds(*a, num_selectors, num_advice)
            && expr_in_bounds(*b, num_selectors, num_advice),
    }
}

/// Decides `expr_in_bounds`.
pub fn check_in_bounds(e: &Expression, num_selectors: usize, num_advice: usize) -> (r: bool)
    ensures
        r == expr_in_bounds(*e, num_selectors as nat, num_advice as nat),
    decreases e,
{
    match e {
        Expression::Constant(_) => true,
        Expression::Selector(s) => s.0 < num_selectors,
        Expression::Advice(c) => c.0 < num_advice,
        Expression::Negated(a) => check_in_bounds(a, num_selectors, num_advice),
        Expression::Sum(a, b) => check_in_bounds(a, num_selectors, num_advice)
            && check_in_bounds(b, num_selectors, num_advice),
        Expression::Product(a, b) => check_in_bounds(a, num_selectors, num_advice)
            && check_in_bounds(b, num_selectors, num_advice),
    }
}

/// The expression `a + b`.
pub fn sum(a: Expression, b: Expression) -> (r: Expression)
    ensures
        r == Expression::Sum(Box::new(a), Box::new(b)),
{
    Expression::Sum(Box::new(a), Box::new(b))
}

/// The expression `a * b`.
pub fn product(a: Expression, b: Expression) -> (r: Expression)
    ensures
        r == Expression::Product(Box::new(a), Box::new(b)),
{
    Expression::Product(Box::new(a), Box::new(b))
}

/// The expression `a - b`, written as `a + (-b)`.
pub fn difference(a: Expression, b: Expression) -> (r: Expression)
    ensures
        r == Expression::Sum(Box::new(a), Box::new(Expression::Negated(Box::new(b)))),
{
    Expression::Sum(Box::new(a), Box::new(Expression::Negated(Box::new(b))))
}

} // verus!
