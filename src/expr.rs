//! Gate polynomials as expression trees over queries of the advice column at
//! forward row offsets.
use crate::field::{fe_add, fe_mul, fe_neg, fp_add, fp_mul, fp_neg};
use halo2_proofs::pasta::Fp;
use vstd::prelude::*;

verus! {

/// A polynomial over advice-column queries. `Query(k)` reads the advice
/// value `k` rows below the row the expression is evaluated at.
pub enum Expr {
    Constant(Fp),
    Query(usize),
    Add(Box<Expr>, Box<Expr>),
    Mul(Box<Expr>, Box<Expr>),
    Neg(Box<Expr>),
}

/// The value of `cells` at `row`, if the row lies in the table and is assigned.
pub open spec fn cell_at(cells: Seq<Option<Fp>>, row: int) -> Option<Fp> {
    if 0 <= row < cells.len() {
        cells[row]
    } else {
        None
    }
}

/// The larger of two naturals.
pub open spec fn max_nat(a: nat, b: nat) -> nat {
    if a >= b {
        a
    } else {
        b
    }
}

impl Expr {
    /// The value of the expression at `row`, or `None` where it reads a cell
    /// that is outside the table or unassigned.
    pub open spec fn eval(self, cells: Seq<Option<Fp>>, row: int) -> Option<Fp>
        decreases self,
    {
        match self {
            Expr::Constant(c) => Some(c),
            Expr::Query(k) => cell_at(cells, row + k),
            Expr::Add(a, b) => match (a.eval(cells, row), b.eval(cells, row)) {
                (Some(x), Some(y)) => Some(fp_add(x, y)),
                _ => None,
            },
            Expr::Mul(a, b) => match (a.eval(cells, row), b.eval(cells, row)) {
                (Some(x), Some(y)) => Some(fp_mul(x, y)),
                _ => None,
            },
            Expr::Neg(a) => match a.eval(cells, row) {
                Some(x) => Some(fp_neg(x)),
                None => None,
            },
        }
    }

    /// The largest row offset that the expression queries (0 if none).
    pub open spec fn max_off(self) -> nat
        decreases self,
    {
        match self {
            Expr::Constant(_) => 0,
            Expr::Query(k) => k as nat,
            Expr::Add(a, b) => max_nat(a.max_off(), b.max_off()),
            Expr::Mul(a, b) => max_nat(a.max_off(), b.max_off()),
            Expr::Neg(a) => a.max_off(),
        }
    }

    /// The polynomial degree of the expression in the queried cells.
    pub open spec fn degree(self) -> nat
        decreases self,
    {
        match self {
            Expr::Constant(_) => 0,
            Expr::Query(_) => 1,
            Expr::Add(a, b) => max_nat(a.degree(), b.degree()),
            Expr::Mul(a, b) => a.degree() + b.degree(),
            Expr::Neg(a) => a.degree(),
        }
    }

    /// Evaluates the expression at `row` of `cells`.
    pub fn evaluate(&self, cells: &Vec<Option<Fp>>, row: usize) -> (r: Option<Fp>)
        ensures
            r == self.eval(cells@, row as int),
        decreases self,
    {
        match self {
            Expr::Constant(c) => Some(*c),
            Expr::Query(k) => {
                if *k < cells.len() && row < cells.len() - *k {
                    cells[row + *k]
                } else {
                    None
                }
            },
            Expr::Add(a, b) => match (a.evaluate(cells, row), b.evaluate(cells, row)) {
                (Some(x), Some(y)) => Some(fe_add(&x, &y)),
                _ => None,
            },
            Expr::Mul(a, b) => match (a.evaluate(cells, row), b.evaluate(cells, row)) {
                (Some(x), Some(y)) => Some(fe_mul(&x, &y)),
                _ => None,
            },
            Expr::Neg(a) => match a.evaluate(cells, row) {
                Some(x) => Some(fe_neg(&x)),
                None => None,
            },
        }
    }

    /// The largest row offset that the expression queries.
    pub fn max_offset(&self) -> (r: usize)
        ensures
            r as nat == self.max_off(),
        decreases self,
    {
        match self {
            Expr::Constant(_) => 0,
            Expr::Query(k) => *k,
            Expr::Add(a, b) | Expr::Mul(a, b) => {
                let x = a.max_offset();
                let y = b.max_offset();
                if x >= y {
                    x
                } else {
                    y
                }
            },
            Expr::Neg(a) => a.max_offset(),
        }
    }

    /// The degree of the expression, or `None` where it does not fit a `u64`.
    pub fn degree_checked(&self) -> (r: Option<u64>)
        ensures
            r == if self.degree() <= u64::MAX as nat {
                Some(self.degree() as u64)
            } else {
                None
            },
        decreases self,
    {
        match self {
            Expr::Constant(_) => Some(0),
            Expr::Query(_) => Some(1),
            Expr::Add(a, b) => match (a.degree_checked(), b.degree_checked()) {
                (Some(x), Some(y)) => if x >= y {
                    Some(x)
                } else {
                    Some(y)
                },
                _ => None,
            },
            Expr::Mul(a, b) => match (a.degree_checked(), b.degree_checked()) {
                (Some(x), Some(y)) => x.checked_add(y),
                _ => None,
            },
            Expr::Neg(a) => a.degree_checked(),
        }
    }
}

} // verus!
