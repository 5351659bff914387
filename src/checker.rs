//! The satisfiability self-test: every enabled gate must evaluate to zero and
//! every copy constraint must hold. All failures are reported, in row order
//! and then gate order, followed by the failing bindings in recording order.
use crate::circuit::{ConstraintSystem, Gate, Table, TableView};
use crate::expr::{cell_at, Expr};
use crate::field::{fe_eq, fe_from_u64, fp_zero};
use halo2_proofs::pasta::Fp;
use vstd::prelude::*;

verus! {

/// One failure found by the checker.
#[derive(Debug, Clone, Copy, PartialEq)]
pub enum Violation {
    /// Gate `gate` does not vanish at `row`; `value` is what it evaluated to
    /// (`None` where it read an unassigned cell).
    Gate { gate: usize, row: usize, value: Option<Fp> },
    /// Copy constraint `index` (advice `row` against public input `slot`) does
    /// not hold.
    Binding { index: usize, slot: usize, row: usize, expected: Option<Fp>, actual: Option<Fp> },
}

/// The polynomials of `gates`, in order.
pub open spec fn gate_polys(gates: Seq<Gate>) -> Seq<Expr> {
    gates.map_values(|g: Gate| g.poly)
}

/// Gate `g` is active at `row` and does not evaluate to zero there.
pub open spec fn gate_fails(polys: Seq<Expr>, t: TableView, g: int, row: int) -> bool {
    t.enabled[row] && polys[g].eval(t.cells, row) != Some(fp_zero())
}

/// Copy constraint `i` of `t` does not hold.
pub open spec fn binding_fails(t: TableView, i: int) -> bool {
    let b = t.bindings[i];
    !(b.slot < t.public.len() && cell_at(t.cells, b.row as int) == Some(
        t.public[b.slot as int],
    ))
}

/// Every enabled gate vanishes and every copy constraint holds.
pub open spec fn satisfied(polys: Seq<Expr>, t: TableView) -> bool {
    &&& forall|row: int, g: int|
        0 <= row < t.enabled.len() && 0 <= g < polys.len() ==> !#[trigger] gate_fails(
            polys,
            t,
            g,
            row,
        )
    &&& forall|i: int| 0 <= i < t.bindings.len() ==> !#[trigger] binding_fails(t, i)
}

/// Failures at `row` among the first `n` gates.
pub open spec fn row_violations(polys: Seq<Expr>, t: TableView, row: int, n: nat) -> Seq<Violation>
    decreases n,
{
    if n == 0 {
        Seq::empty()
    } else {
        let g = n - 1;
        let prev = row_violations(polys, t, row, (n - 1) as nat);
        if gate_fails(polys, t, g, row) {
            prev.push(
                Violation::Gate {
                    gate: g as usize,
                    row: row as usize,
                    value: polys[g].eval(t.cells, row),
                },
            )
        } else {
            prev
        }
    }
}

/// Failures of any gate in the first `rows` rows.
pub open spec fn gate_violations(polys: Seq<Expr>, t: TableView, rows: nat) -> Seq<Violation>
    decreases rows,
{
    if rows == 0 {
        Seq::empty()
    } else {
        gate_violations(polys, t, (rows - 1) as nat) + row_violations(
            polys,
            t,
            rows - 1,
            polys.len(),
        )
    }
}

/// The report for copy constraint `i`.
pub open spec fn binding_violation(t: TableView, i: int) -> Violation {
    let b = t.bindings[i];
    Violation::Binding {
        index: i as usize,
        slot: b.slot,
        row: b.row,
        expected: if b.slot < t.public.len() {
            Some(t.public[b.slot as int])
        } else {
            None
        },
        actual: cell_at(t.cells, b.row as int),
    }
}

/// The failures among the first `n` copy constraints.
pub open spec fn binding_violations(t: TableView, n: nat) -> Seq<Violation>
    decreases n,
{
    if n == 0 {
        Seq::empty()
    } else {
        let prev = binding_violations(t, (n - 1) as nat);
        if binding_fails(t, n - 1) {
            prev.push(binding_violation(t, n - 1))
        } else {
            prev
        }
    }
}

/// Everything the checker reports for `t`.
pub open spec fn violations(polys: Seq<Expr>, t: TableView) -> Seq<Violation> {
    gate_violations(polys, t, t.enabled.len()) + binding_violations(t, t.bindings.len())
}

/// What `check` returns for `t`: success exactly when nothing fails, and
/// otherwise the full list of failures.
pub open spec fn check_outcome(polys: Seq<Expr>, t: TableView, r: Result<(), Vec<Violation>>) -> bool {
    &&& r is Ok <==> violations(polys, t).len() == 0
    &&& r is Ok <==> satisfied(polys, t)
    &&& r is Err ==> r->Err_0@ == violations(polys, t)
}

proof fn lemma_row_violations_empty(polys: Seq<Expr>, t: TableView, row: int, n: nat)
    ensures
        row_violations(polys, t, row, n).len() == 0 <==> forall|g: int|
            0 <= g < n ==> !#[trigger] gate_fails(polys, t, g, row),
    decreases n,
{
    if n > 0 {
        lemma_row_violations_empty(polys, t, row, (n - 1) as nat);
    }
}

proof fn lemma_gate_violations_empty(polys: Seq<Expr>, t: TableView, rows: nat)
    ensures
        gate_violations(polys, t, rows).len() == 0 <==> forall|row: int, g: int|
            0 <= row < rows && 0 <= g < polys.len() ==> !#[trigger] gate_fails(polys, t, g, row),
    decreases rows,
{
    if rows > 0 {
        lemma_gate_violations_empty(polys, t, (rows - 1) as nat);
        lemma_row_violations_empty(polys, t, rows - 1, polys.len());
    }
}

proof fn lemma_binding_violations_empty(t: TableView, n: nat)
    ensures
        binding_violations(t, n).len() == 0 <==> forall|i: int|
            0 <= i < n ==> !#[trigger] binding_fails(t, i),
    decreases n,
{
    if n > 0 {
        lemma_binding_violations_empty(t, (n - 1) as nat);
    }
}

/// The checker reports nothing exactly when every enabled gate vanishes and
/// every copy constraint holds.
pub proof fn lemma_no_violations_iff_satisfied(polys: Seq<Expr>, t: TableView)
    ensures
        violations(polys, t).len() == 0 <==> satisfied(polys, t),
{
    lemma_gate_violations_empty(polys, t, t.enabled.len());
    lemma_binding_violations_empty(t, t.bindings.len());
}

/// Checking the same frozen table twice gives the same outcome and the same
/// list of violations.
pub proof fn lemma_check_idempotent(
    polys: Seq<Expr>,
    t: TableView,
    r1: Result<(), Vec<Violation>>,
    r2: Result<(), Vec<Violation>>,
)
    requires
        check_outcome(polys, t, r1),
        check_outcome(polys, t, r2),
    ensures
        r1 is Ok <==> r2 is Ok,
        r1 is Err ==> r1->Err_0@ == r2->Err_0@,
{
}

/// Evaluates every enabled gate on every row and every copy constraint of
/// the frozen table `t`, and reports all that fail.
pub fn check(cs: &ConstraintSystem, t: &Table) -> (r: Result<(), Vec<Violation>>)
    ensures
        check_outcome(gate_polys(cs.gates@), t@, r),
{
    let zero = fe_from_u64(0);
    let mut vs: Vec<Violation> = Vec::new();
    let mut row: usize = 0;
    while row < t.enabled.len()
        invariant
            row <= t.enabled.len(),
            zero == fp_zero(),
            vs@ == gate_violations(gate_polys(cs.gates@), t@, row as nat),
        decreases t.enabled.len() - row,
    {
        let ghost before = vs@;
        let mut g: usize = 0;
        while g < cs.gates.len()
            invariant
                row < t.enabled.len(),
                g <= cs.gates@.len(),
                zero == fp_zero(),
                vs@ == before + row_violations(gate_polys(cs.gates@), t@, row as int, g as nat),
            decreases cs.gates@.len() - g,
        {
            let ghost mid = row_violations(gate_polys(cs.gates@), t@, row as int, g as nat);
            if t.enabled[row] {
                let v = cs.gates[g].poly.evaluate(&t.cells, row);
                let vanishes = match v {
                    Some(x) => fe_eq(&x, &zero),
                    None => false,
                };
                if !vanishes {
                    vs.push(Violation::Gate { gate: g, row, value: v });
                    proof {
                        assert((before + mid).push(
                            Violation::Gate { gate: g, row, value: v },
                        ) =~= before + mid.push(Violation::Gate { gate: g, row, value: v }));
                    }
                }
            }
            g = g + 1;
        }
        row = row + 1;
    }
    let ghost gv = vs@;
    let mut i: usize = 0;
    while i < t.bindings.len()
        invariant
            i <= t.bindings.len(),
            gv == gate_violations(gate_polys(cs.gates@), t@, t@.enabled.len()),
            vs@ == gv + binding_violations(t@, i as nat),
        decreases t.bindings.len() - i,
    {
        let ghost mid = binding_violations(t@, i as nat);
        let b = t.bindings[i];
        let expected = if b.slot < t.public.len() {
            Some(t.public[b.slot])
        } else {
            None
        };
        let actual = if b.row < t.cells.len() {
            t.cells[b.row]
        } else {
            None
        };
        let holds = match (expected, actual) {
            (Some(x), Some(y)) => fe_eq(&x, &y),
            _ => false,
        };
        if !holds {
            let v = Violation::Binding { index: i, slot: b.slot, row: b.row, expected, actual };
            vs.push(v);
            proof {
                assert((gv + mid).push(v) =~= gv + mid.push(v));
            }
        }
        i = i + 1;
    }
    proof {
        lemma_no_violations_iff_satisfied(gate_polys(cs.gates@), t@);
    }
    if vs.len() == 0 {
        Ok(())
    } else {
        Err(vs)
    }
}

} // verus!
