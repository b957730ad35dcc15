//! Column handles and arithmetic expressions over them.
use vstd::prelude::*;

verus! {

/// A witness column: one value per circuit instance, taken from the trace.
#[derive(Clone, Copy, Debug, PartialEq, Eq, Structural)]
pub struct WitIn {
    pub id: usize,
}

/// A fixed column: one value per row, set by the table definition.
#[derive(Clone, Copy, Debug, PartialEq, Eq, Structural)]
pub struct Fixed(pub usize);

/// An arithmetic expression over the columns of one row.
#[derive(Debug)]
pub enum Expression {
    Constant(u64),
    WitIn(usize),
    Fixed(usize),
    Sum(Box<Expression>, Box<Expression>),
    Product(Box<Expression>, Box<Expression>),
    Neg(Box<Expression>),
}

/// The value of `e` on a row whose witness values are `wit` and whose fixed
/// values are `fixed`, as an integer (before reduction into the field).
pub open spec fn eval(e: Expression, wit: Seq<u64>, fixed: Seq<u64>) -> int
    decreases e,
{
    match e {
        Expression::Constant(c) => c as int,
        Expression::WitIn(i) => wit[i as int] as int,
        Expression::Fixed(i) => fixed[i as int] as int,
        Expression::Sum(a, b) => eval(*a, wit, fixed) + eval(*b, wit, fixed),
        Expression::Product(a, b) => eval(*a, wit, fixed) * eval(*b, wit, fixed),
        Expression::Neg(a) => -eval(*a, wit, fixed),
    }
}

/// Every column that `e` reads exists, and every intermediate value of its
/// evaluation lies in the `i128` range.
pub open spec fn evaluable(e: Expression, wit: Seq<u64>, fixed: Seq<u64>) -> bool
    decreases e,
{
    match e {
        Expression::Constant(_) => true,
        Expression::WitIn(i) => i < wit.len(),
        Expression::Fixed(i) => i < fixed.len(),
        Expression::Sum(a, b) => evaluable(*a, wit, fixed) && evaluable(*b, wit, fixed)
            && i128::MIN <= eval(*a, wit, fixed) + eval(*b, wit, fixed) <= i128::MAX,
        Expression::Product(a, b) => evaluable(*a, wit, fixed) && evaluable(*b, wit, fixed)
            && i128::MIN <= eval(*a, wit, fixed) * eval(*b, wit, fixed) <= i128::MAX,
        Expression::Neg(a) => evaluable(*a, wit, fixed) && eval(*a, wit, fixed) > i128::MIN,
    }
}

impl WitIn {
    pub fn expr(&self) -> (r: Expression)
        ensures
            r == Expression::WitIn(self.id),
    {
        Expression::WitIn(self.id)
    }
}

impl Expression {
    pub fn dup(&self) -> (r: Self)
        ensures
            r == *self,
        decreases self,
    {
        match self {
            Expression::Constant(c) => Expression::Constant(*c),
            Expression::WitIn(i) => Expression::WitIn(*i),
            Expression::Fixed(i) => Expression::Fixed(*i),
            Expression::Sum(a, b) => Expression::Sum(Box::new(a.dup()), Box::new(b.dup())),
            Expression::Product(a, b) => Expression::Product(Box::new(a.dup()), Box::new(b.dup())),
            Expression::Neg(a) => Expression::Neg(Box::new(a.dup())),
        }
    }

    /// The value of the expression on a row, or `None` where a column is
    /// missing or an intermediate value leaves the `i128` range.
    pub fn evaluate(&self, wit: &Vec<u64>, fixed: &Vec<u64>) -> (r: Option<i128>)
        ensures
            r is Some <==> evaluable(*self, wit@, fixed@),
            r is Some ==> r->Some_0 == eval(*self, wit@, fixed@),
        decreases self,
    {
        match self {
            Expression::Constant(c) => Some(*c as i128),
            Expression::WitIn(i) => if *i < wit.len() {
                Some(wit[*i] as i128)
            } else {
                None
            },
            Expression::Fixed(i) => if *i < fixed.len() {
                Some(fixed[*i] as i128)
            } else {
                None
            },
            Expression::Sum(a, b) => match (a.evaluate(wit, fixed), b.evaluate(wit, fixed)) {
                (Some(x), Some(y)) => x.checked_add(y),
                _ => None,
            },
            Expression::Product(a, b) => match (a.evaluate(wit, fixed), b.evaluate(wit, fixed)) {
                (Some(x), Some(y)) => x.checked_mul(y),
                _ => None,
            },
            Expression::Neg(a) => match a.evaluate(wit, fixed) {
                Some(x) => if x > i128::MIN {
                    Some(-x)
                } else {
                    None
                },
                None => None,
            },
        }
    }

    pub open spec fn plus_spec(self, k: u64) -> Self {
        Expression::Sum(Box::new(self), Box::new(Expression::Constant(k)))
    }

    /// `self + k`.
    pub fn plus(self, k: u64) -> (r: Self)
        ensures
            r == self.plus_spec(k),
    {
        Expression::Sum(Box::new(self), Box::new(Expression::Constant(k)))
    }
}

/// Copies a list of expressions.
pub fn dup_all(v: &Vec<Expression>) -> (r: Vec<Expression>)
    ensures
        r@ == v@,
{
    let mut r: Vec<Expression> = Vec::new();
    let mut i: usize = 0;
    while i < v.len()
        invariant
            i <= v@.len(),
            r@ == v@.subrange(0, i as int),
        decreases v@.len() - i,
    {
        r.push(v[i].dup());
        i += 1;
    }
    assert(r@ =~= v@);
    r
}

} // verus!
