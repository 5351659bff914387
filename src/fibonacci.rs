//! A chip for the recurrence `x[n] = x[n-3]*x[n-2] + x[n-2]*x[n-1]` on one
//! advice column, seeded from the first three public inputs.
use crate::checker::{binding_fails, check, check_outcome, gate_polys, Violation};
use crate::circuit::{
    column_taken, gate_degree, gates_max_off, lemma_column_taken_push, lemma_slot_bound_push,
    Column, ColumnKind, name_taken, slot_bound, AssignedCell, Binding,
    CircuitError, ConstraintSystem, Region, Table, TableView,
};
use crate::expr::Expr;
use crate::field::{fp_add, fp_mul};
use halo2_proofs::pasta::Fp;
use vstd::prelude::*;

verus! {

/// One step of the recurrence: `a*b + b*c`.
pub open spec fn recur(a: Fp, b: Fp, c: Fp) -> Fp {
    fp_add(fp_mul(a, b), fp_mul(b, c))
}

/// The `n`-th value of the sequence seeded with `x0, x1, x2`.
pub open spec fn fib_seq(x0: Fp, x1: Fp, x2: Fp, n: nat) -> Fp
    decreases n,
{
    if n == 0 {
        x0
    } else if n == 1 {
        x1
    } else if n == 2 {
        x2
    } else {
        recur(
            fib_seq(x0, x1, x2, (n - 3) as nat),
            fib_seq(x0, x1, x2, (n - 2) as nat),
            fib_seq(x0, x1, x2, (n - 1) as nat),
        )
    }
}

/// Applies `(a, b, c) -> (b, c, a*b + b*c)` to the window `k` times.
pub open spec fn iterate(a: Fp, b: Fp, c: Fp, k: nat) -> (Fp, Fp, Fp)
    decreases k,
{
    if k == 0 {
        (a, b, c)
    } else {
        iterate(b, c, recur(a, b, c), (k - 1) as nat)
    }
}

/// The step polynomial `q0*q1 + q1*q2`, read from a base row.
pub open spec fn step_spec() -> Expr {
    Expr::Add(
        Box::new(Expr::Mul(Box::new(Expr::Query(0)), Box::new(Expr::Query(1)))),
        Box::new(Expr::Mul(Box::new(Expr::Query(1)), Box::new(Expr::Query(2)))),
    )
}

/// Polynomial of the recurrence gate: `q0*q1 + q1*q2 - q3`.
pub open spec fn gate_spec() -> Expr {
    Expr::Add(Box::new(step_spec()), Box::new(Expr::Neg(Box::new(Expr::Query(3)))))
}

fn step_expr() -> (e: Expr)
    ensures
        e == step_spec(),
{
    Expr::Add(
        Box::new(Expr::Mul(Box::new(Expr::Query(0)), Box::new(Expr::Query(1)))),
        Box::new(Expr::Mul(Box::new(Expr::Query(1)), Box::new(Expr::Query(2)))),
    )
}

proof fn lemma_step_eval(cells: Seq<Option<Fp>>, base: int, a: Fp, b: Fp, c: Fp)
    requires
        0 <= base,
        base + 2 < cells.len(),
        cells[base] == Some(a),
        cells[base + 1] == Some(b),
        cells[base + 2] == Some(c),
    ensures
        step_spec().eval(cells, base) == Some(recur(a, b, c)),
{
    let q0 = Expr::Query(0);
    let q1 = Expr::Query(1);
    let q2 = Expr::Query(2);
    assert(q0.eval(cells, base) == Some(a));
    assert(q1.eval(cells, base) == Some(b));
    assert(q2.eval(cells, base) == Some(c));
    let m1 = Expr::Mul(Box::new(q0), Box::new(q1));
    let m2 = Expr::Mul(Box::new(q1), Box::new(q2));
    assert(m1.eval(cells, base) == Some(fp_mul(a, b)));
    assert(m2.eval(cells, base) == Some(fp_mul(b, c)));
}

proof fn lemma_iterate_window(x0: Fp, x1: Fp, x2: Fp, i: nat, k: nat)
    ensures
        iterate(fib_seq(x0, x1, x2, i), fib_seq(x0, x1, x2, i + 1), fib_seq(x0, x1, x2, i + 2), k)
            == (
            fib_seq(x0, x1, x2, i + k),
            fib_seq(x0, x1, x2, i + k + 1),
            fib_seq(x0, x1, x2, i + k + 2),
        ),
    decreases k,
{
    if k > 0 {
        assert(fib_seq(x0, x1, x2, i + 3) == recur(
            fib_seq(x0, x1, x2, i),
            fib_seq(x0, x1, x2, i + 1),
            fib_seq(x0, x1, x2, i + 2),
        ));
        lemma_iterate_window(x0, x1, x2, i + 1, (k - 1) as nat);
    }
}

/// For every seed and every height `h >= 4`, the value in the last row is
/// the third component after `h - 3` steps of the recurrence from the seeds.
pub proof fn lemma_final_row_is_iterated_step(x0: Fp, x1: Fp, x2: Fp, h: nat)
    requires
        h >= 4,
    ensures
        fib_seq(x0, x1, x2, (h - 1) as nat) == iterate(x0, x1, x2, (h - 3) as nat).2,
{
    lemma_iterate_window(x0, x1, x2, 0, (h - 3) as nat);
}

/// The rows, seeds or selector window that `assign` needs do not fit `region`.
pub open spec fn assign_out_of_range(region: Region, nrows: usize) -> bool {
    nrows < 4 || nrows > region.height || region.public@.len() < 3 || region.max_offset >= nrows
}

/// One of the seed slots 0, 1, 2 is already the target of a copy constraint.
pub open spec fn seeds_bound(bindings: Seq<Binding>) -> bool {
    slot_bound(bindings, 0) || slot_bound(bindings, 1) || slot_bound(bindings, 2)
}

/// Where the chip's columns sit among the declared columns, and its gate
/// among the registered gates.
#[derive(Debug, Clone, Copy, PartialEq, Eq, Structural)]
pub struct FibonacciConfig {
    pub selector: usize,
    pub advice: usize,
    pub instance: usize,
    pub gate: usize,
}

/// `configure` refuses `cs`: the degree of its gate is above the maximum, or one
/// of the names it declares is taken.
pub open spec fn configure_refused(cs: ConstraintSystem) -> bool {
    ||| cs.max_degree < 3
    ||| column_taken(cs.columns@, "selector"@)
    ||| column_taken(cs.columns@, "advice"@)
    ||| column_taken(cs.columns@, "instance"@)
    ||| name_taken(cs.gates@, "add"@)
}

/// `after` is `before` with the chip's three columns declared and its gate
/// registered, at the places that `c` records.
pub open spec fn configured(before: ConstraintSystem, after: ConstraintSystem, c: FibonacciConfig) -> bool {
    let n = before.columns@.len() as int;
    &&& after.max_degree == before.max_degree
    &&& after.columns@.len() == n + 3
    &&& after.columns@.subrange(0, n) == before.columns@
    &&& c.selector == n && after.columns@[n].kind == ColumnKind::Selector
    &&& after.columns@[n].name@ == "selector"@
    &&& c.advice == n + 1 && after.columns@[n + 1].kind == ColumnKind::Advice
    &&& after.columns@[n + 1].name@ == "advice"@
    &&& c.instance == n + 2 && after.columns@[n + 2].kind == ColumnKind::Instance
    &&& after.columns@[n + 2].name@ == "instance"@
    &&& c.gate == before.gates@.len()
    &&& after.gates@.len() == before.gates@.len() + 1
    &&& after.gates@.drop_last() == before.gates@
    &&& after.gates@.last().name@ == "add"@
    &&& after.gates@.last().poly == gate_spec()
}

/// Lays out the recurrence in a region and binds its output to a public input.
pub struct FibonacciChip {
    pub config: FibonacciConfig,
}

impl FibonacciChip {
    pub fn construct(config: FibonacciConfig) -> (r: FibonacciChip)
        ensures
            r.config == config,
    {
        FibonacciChip { config }
    }

    /// Declares the selector `selector`, the advice column `advice` and the
    /// instance column `instance`, and registers a gate `add` enforcing
    /// `selector * (q0*q1 + q1*q2 - q3)`, a constraint of degree 3. Refused,
    /// with nothing declared, when the degree is above the maximum or a name
    /// is taken.
    pub fn configure(cs: &mut ConstraintSystem) -> (r: Result<FibonacciConfig, CircuitError>)
        ensures
            final(cs).max_degree == old(cs).max_degree,
            r is Err <==> configure_refused(*old(cs)),
            r is Err ==> r == Err::<FibonacciConfig, CircuitError>(CircuitError::Configuration)
                && *final(cs) == *old(cs),
            r is Ok ==> configured(*old(cs), *final(cs), r->Ok_0),
    {
        let selector_name = "selector".to_owned();
        let advice_name = "advice".to_owned();
        let instance_name = "instance".to_owned();
        let gate_name = "add".to_owned();
        if cs.max_degree < 3 || cs.column_name_taken(&selector_name) || cs.column_name_taken(
            &advice_name,
        ) || cs.column_name_taken(&instance_name) || cs.gate_name_taken(&gate_name) {
            return Err(CircuitError::Configuration);
        }
        let poly = Expr::Add(
            Box::new(step_expr()),
            Box::new(Expr::Neg(Box::new(Expr::Query(3)))),
        );
        assert(gate_degree(poly) == 3) by {
            let q0 = Expr::Query(0);
            let q1 = Expr::Query(1);
            let q2 = Expr::Query(2);
            assert(q0.degree() == 1 && q1.degree() == 1 && q2.degree() == 1);
            assert(Expr::Mul(Box::new(q0), Box::new(q1)).degree() == 2);
            assert(Expr::Mul(Box::new(q1), Box::new(q2)).degree() == 2);
            assert(step_spec().degree() == 2);
            assert(Expr::Query(3).degree() == 1);
            assert(Expr::Neg(Box::new(Expr::Query(3))).degree() == 1);
            assert(poly.degree() == 2);
        }
        let ghost cols0 = cs.columns@;
        let ghost gates0 = cs.gates@;
        proof {
            reveal_strlit("selector");
            reveal_strlit("advice");
            reveal_strlit("instance");
            assert("selector"@.len() == 8 && "advice"@.len() == 6 && "instance"@.len() == 8);
            assert("selector"@ != "advice"@ && "advice"@ != "instance"@);
            assert("selector"@ != "instance"@) by {
                assert("selector"@[0] != "instance"@[0]);
            }
            let c0 = Column { kind: ColumnKind::Selector, name: selector_name };
            let c1 = Column { kind: ColumnKind::Advice, name: advice_name };
            lemma_column_taken_push(cols0, c0, "advice"@);
            lemma_column_taken_push(cols0, c0, "instance"@);
            lemma_column_taken_push(cols0.push(c0), c1, "instance"@);
        }
        let selector = match cs.register_selector(selector_name) {
            Ok(i) => i,
            Err(e) => return Err(e),
        };
        let advice = match cs.register_advice_column(advice_name) {
            Ok(i) => i,
            Err(e) => return Err(e),
        };
        let instance = match cs.register_instance_column(instance_name) {
            Ok(i) => i,
            Err(e) => return Err(e),
        };
        let gate = cs.gates.len();
        match cs.create_gate(gate_name, poly) {
            Ok(()) => {
                assert(cs.gates@.drop_last() =~= gates0);
                assert(cs.columns@.subrange(0, cols0.len() as int) =~= cols0);
                Ok(FibonacciConfig { selector, advice, instance, gate })
            },
            Err(e) => Err(e),
        }
    }

    /// Copies the three seeds from public inputs 0, 1, 2 into rows 0, 1, 2,
    /// fills rows 3 to `nrows - 1` with the recurrence, enables the selector
    /// on every row whose query window `max_offset` fits in the `nrows` rows,
    /// and returns the cell of the last row. On error the region is left as
    /// it was.
    pub fn assign(&self, region: &mut Region, nrows: usize) -> (r: Result<
        AssignedCell,
        CircuitError,
    >)
        requires
            old(region).wf(),
        ensures
            final(region).wf(),
            final(region).height == old(region).height,
            final(region).max_offset == old(region).max_offset,
            final(region).public@ == old(region).public@,
            r is Err <==> (assign_out_of_range(*old(region), nrows) || seeds_bound(
                old(region).bindings@,
            )),
            assign_out_of_range(*old(region), nrows) ==> r == Err::<AssignedCell, CircuitError>(
                CircuitError::Range,
            ),
            r is Err && !assign_out_of_range(*old(region), nrows) ==> r == Err::<
                AssignedCell,
                CircuitError,
            >(CircuitError::DuplicateBinding),
            r is Err ==> *final(region) == *old(region),
            r is Ok ==> {
                let p = old(region).public@;
                &&& r->Ok_0.row == nrows - 1
                &&& r->Ok_0.value == fib_seq(p[0], p[1], p[2], (nrows - 1) as nat)
                &&& forall|i: int|
                    0 <= i < nrows ==> #[trigger] final(region).cells@[i] == Some(
                        fib_seq(p[0], p[1], p[2], i as nat),
                    )
                &&& forall|i: int|
                    nrows <= i < old(region).height ==> #[trigger] final(region).cells@[i]
                        == old(region).cells@[i]
                &&& forall|i: int|
                    0 <= i < old(region).height ==> #[trigger] final(region).enabled@[i] == (
                    old(region).enabled@[i] || i < nrows - old(region).max_offset)
                &&& final(region).bindings@ == old(region).bindings@ + seq![
                    Binding { row: 0, slot: 0 },
                    Binding { row: 1, slot: 1 },
                    Binding { row: 2, slot: 2 },
                ]
            },
    {
        if nrows < 4 || nrows > region.height || region.public.len() < 3 || region.max_offset
            >= nrows {
            return Err(CircuitError::Range);
        }
        if region.slot_taken(0) || region.slot_taken(1) || region.slot_taken(2) {
            return Err(CircuitError::DuplicateBinding);
        }
        let ghost p = region.public@;
        let ghost x0 = p[0];
        let ghost x1 = p[1];
        let ghost x2 = p[2];
        let ghost cells0 = region.cells@;
        let ghost enabled0 = region.enabled@;
        let ghost bindings0 = region.bindings@;
        proof {
            lemma_slot_bound_push(bindings0, Binding { row: 0, slot: 0 }, 1);
            lemma_slot_bound_push(bindings0, Binding { row: 0, slot: 0 }, 2);
            lemma_slot_bound_push(
                bindings0.push(Binding { row: 0, slot: 0 }),
                Binding { row: 1, slot: 1 },
                2,
            );
        }
        let mut a = match region.assign_from_instance(0, 0) {
            Ok(c) => c,
            Err(e) => return Err(e),
        };
        let mut b = match region.assign_from_instance(1, 1) {
            Ok(c) => c,
            Err(e) => return Err(e),
        };
        let mut c = match region.assign_from_instance(2, 2) {
            Ok(c) => c,
            Err(e) => return Err(e),
        };
        assert(region.bindings@ =~= bindings0 + seq![
            Binding { row: 0, slot: 0 },
            Binding { row: 1, slot: 1 },
            Binding { row: 2, slot: 2 },
        ]);
        let mut row: usize = 0;
        while row < nrows - region.max_offset
            invariant
                4 <= nrows <= region.height,
                region.max_offset < nrows,
                region.wf(),
                region.height == old(region).height,
                region.max_offset == old(region).max_offset,
                region.public@ == p,
                region.bindings@ == bindings0 + seq![
                    Binding { row: 0, slot: 0 },
                    Binding { row: 1, slot: 1 },
                    Binding { row: 2, slot: 2 },
                ],
                region.cells@ == cells0.update(0, Some(x0)).update(1, Some(x1)).update(2, Some(x2)),
                row <= nrows - region.max_offset,
                forall|i: int|
                    0 <= i < region.height ==> #[trigger] region.enabled@[i] == (enabled0[i] || i
                        < row),
            decreases nrows - region.max_offset - row,
        {
            match region.enable_selector(row) {
                Ok(()) => {},
                Err(e) => return Err(e),
            }
            row = row + 1;
        }
        let step = step_expr();
        let mut row: usize = 3;
        while row < nrows
            invariant
                3 <= row <= nrows <= region.height,
                region.wf(),
                region.height == old(region).height,
                region.max_offset == old(region).max_offset,
                region.public@ == p,
                x0 == p[0] && x1 == p[1] && x2 == p[2],
                step == step_spec(),
                region.bindings@ == bindings0 + seq![
                    Binding { row: 0, slot: 0 },
                    Binding { row: 1, slot: 1 },
                    Binding { row: 2, slot: 2 },
                ],
                forall|i: int|
                    0 <= i < row ==> #[trigger] region.cells@[i] == Some(
                        fib_seq(x0, x1, x2, i as nat),
                    ),
                forall|i: int| row <= i < region.height ==> #[trigger] region.cells@[i] == cells0[i],
                forall|i: int|
                    0 <= i < region.height ==> #[trigger] region.enabled@[i] == (enabled0[i] || i
                        < nrows - region.max_offset),
                a.value == fib_seq(x0, x1, x2, (row - 3) as nat),
                b.value == fib_seq(x0, x1, x2, (row - 2) as nat),
                c.value == fib_seq(x0, x1, x2, (row - 1) as nat),
                c.row == row - 1,
            decreases nrows - row,
        {
            proof {
                lemma_step_eval(region.cells@, row - 3, a.value, b.value, c.value);
            }
            let d = match region.assign_advice(row, &step, row - 3) {
                Ok(d) => d,
                Err(e) => return Err(e),
            };
            a = b;
            b = c;
            c = d;
            row = row + 1;
        }
        Ok(c)
    }

    /// Binds the advice cell `cell` to public input `slot`.
    pub fn expose_public(&self, region: &mut Region, cell: AssignedCell, slot: usize) -> (r:
        Result<(), CircuitError>)
        requires
            old(region).wf(),
        ensures
            final(region).wf(),
            r is Err <==> slot >= old(region).public@.len() || cell.row >= old(region).height
                || slot_bound(old(region).bindings@, slot),
            slot >= old(region).public@.len() || cell.row >= old(region).height ==> r == Err::<
                (),
                CircuitError,
            >(CircuitError::Range),
            r is Err && slot < old(region).public@.len() && cell.row < old(region).height ==> r
                == Err::<(), CircuitError>(CircuitError::DuplicateBinding),
            r is Err ==> *final(region) == *old(region),
            r is Ok ==> final(region).bindings@ == old(region).bindings@.push(
                Binding { row: cell.row, slot },
            ),
            final(region).height == old(region).height,
            final(region).max_offset == old(region).max_offset,
            final(region).public@ == old(region).public@,
            final(region).cells@ == old(region).cells@,
            final(region).enabled@ == old(region).enabled@,
    {
        region.expose_public(cell.row, slot)
    }
}

/// The largest degree a gate of the example circuit may have.
pub const MAX_GATE_DEGREE: u64 = 4;

/// The rows of the recurrence that the example circuit lays out.
pub const CIRCUIT_ROWS: usize = 6;

/// The public input that the last row of the recurrence is bound to.
pub const OUTPUT_SLOT: usize = 3;

/// The example circuit: the recurrence over `CIRCUIT_ROWS` rows, seeded from
/// public inputs 0, 1, 2, with its last value exposed as `OUTPUT_SLOT`.
pub struct MyCircuit;

impl MyCircuit {
    /// Configures the circuit's one chip, as `FibonacciChip::configure` does.
    pub fn configure(cs: &mut ConstraintSystem) -> (r: Result<FibonacciConfig, CircuitError>)
        ensures
            final(cs).max_degree == old(cs).max_degree,
            r is Err <==> configure_refused(*old(cs)),
            r is Err ==> r == Err::<FibonacciConfig, CircuitError>(CircuitError::Configuration)
                && *final(cs) == *old(cs),
            r is Ok ==> configured(*old(cs), *final(cs), r->Ok_0),
    {
        FibonacciChip::configure(cs)
    }

    /// Assigns the recurrence and binds its last cell to `OUTPUT_SLOT`. On
    /// error the region is left as it was.
    pub fn synthesize(&self, config: FibonacciConfig, region: &mut Region) -> (r: Result<
        (),
        CircuitError,
    >)
        requires
            old(region).wf(),
        ensures
            final(region).wf(),
            final(region).height == old(region).height,
            final(region).public@ == old(region).public@,
            r is Err <==> (synthesize_out_of_range(*old(region)) || seeds_bound(
                old(region).bindings@,
            ) || slot_bound(old(region).bindings@, OUTPUT_SLOT)),
            synthesize_out_of_range(*old(region)) ==> r == Err::<(), CircuitError>(
                CircuitError::Range,
            ),
            r is Err && !synthesize_out_of_range(*old(region)) ==> r == Err::<(), CircuitError>(
                CircuitError::DuplicateBinding,
            ),
            r is Err ==> *final(region) == *old(region),
            r is Ok ==> {
                let p = old(region).public@;
                &&& forall|i: int|
                    0 <= i < CIRCUIT_ROWS ==> #[trigger] final(region).cells@[i] == Some(
                        fib_seq(p[0], p[1], p[2], i as nat),
                    )
                &&& forall|i: int|
                    CIRCUIT_ROWS <= i < old(region).height ==> #[trigger] final(region).cells@[i]
                        == old(region).cells@[i]
                &&& forall|i: int|
                    0 <= i < old(region).height ==> #[trigger] final(region).enabled@[i] == (
                    old(region).enabled@[i] || i < CIRCUIT_ROWS - old(region).max_offset)
                &&& final(region).bindings@ == old(region).bindings@ + circuit_bindings()
            },
    {
        if CIRCUIT_ROWS > region.height || region.public.len() <= OUTPUT_SLOT || region.max_offset
            >= CIRCUIT_ROWS {
            return Err(CircuitError::Range);
        }
        if region.slot_taken(OUTPUT_SLOT) {
            return Err(CircuitError::DuplicateBinding);
        }
        let chip = FibonacciChip::construct(config);
        let ghost before = region.bindings@;
        proof {
            let b0 = Binding { row: 0, slot: 0 };
            let b1 = Binding { row: 1, slot: 1 };
            let b2 = Binding { row: 2, slot: 2 };
            lemma_slot_bound_push(before, b0, OUTPUT_SLOT);
            lemma_slot_bound_push(before.push(b0), b1, OUTPUT_SLOT);
            lemma_slot_bound_push(before.push(b0).push(b1), b2, OUTPUT_SLOT);
            assert(before + seq![b0, b1, b2] =~= before.push(b0).push(b1).push(b2));
        }
        let out = match chip.assign(region, CIRCUIT_ROWS) {
            Ok(c) => c,
            Err(e) => return Err(e),
        };
        let r = chip.expose_public(region, out, OUTPUT_SLOT);
        assert(r is Ok ==> region.bindings@ =~= before + circuit_bindings());
        r
    }
}

/// The rows, inputs or selector window that `synthesize` needs do not fit
/// `region`.
pub open spec fn synthesize_out_of_range(region: Region) -> bool {
    CIRCUIT_ROWS > region.height || region.public@.len() <= OUTPUT_SLOT || region.max_offset
        >= CIRCUIT_ROWS
}

/// The copy constraints of the example circuit.
pub open spec fn circuit_bindings() -> Seq<Binding> {
    seq![
        Binding { row: 0, slot: 0 },
        Binding { row: 1, slot: 1 },
        Binding { row: 2, slot: 2 },
        Binding { row: (CIRCUIT_ROWS - 1) as usize, slot: OUTPUT_SLOT },
    ]
}

/// The table that the example circuit yields for `public` on `height` rows.
pub open spec fn expected_table(height: nat, public: Seq<Fp>, t: TableView) -> bool {
    &&& t.public == public
    &&& t.cells.len() == height
    &&& t.enabled.len() == height
    &&& forall|i: int|
        0 <= i < height ==> #[trigger] t.cells[i] == if i < CIRCUIT_ROWS {
            Some(fib_seq(public[0], public[1], public[2], i as nat))
        } else {
            None
        }
    &&& forall|i: int| 0 <= i < height ==> #[trigger] t.enabled[i] == (i <= CIRCUIT_ROWS - 4)
    &&& t.bindings == circuit_bindings()
}

/// What `run_circuit` returns for `height` rows and the public inputs `public`.
pub open spec fn pipeline_outcome(
    height: nat,
    public: Seq<Fp>,
    r: Result<(Table, Result<(), Vec<Violation>>), CircuitError>,
) -> bool {
    &&& r is Err <==> (height < CIRCUIT_ROWS || public.len() <= OUTPUT_SLOT)
    &&& r is Err ==> r == Err::<(Table, Result<(), Vec<Violation>>), CircuitError>(
        CircuitError::Range,
    )
    &&& r is Ok ==> {
        &&& expected_table(height, public, r->Ok_0.0@)
        &&& check_outcome(seq![gate_spec()], r->Ok_0.0@, r->Ok_0.1)
    }
}

proof fn lemma_gate_max_off()
    ensures
        gate_spec().max_off() == 3,
{
    let q0 = Expr::Query(0);
    let q1 = Expr::Query(1);
    let q2 = Expr::Query(2);
    let q3 = Expr::Query(3);
    assert(q0.max_off() == 0 && q1.max_off() == 1 && q2.max_off() == 2 && q3.max_off() == 3);
    assert(Expr::Mul(Box::new(q0), Box::new(q1)).max_off() == 1);
    assert(Expr::Mul(Box::new(q1), Box::new(q2)).max_off() == 2);
    assert(step_spec().max_off() == 2);
    assert(Expr::Neg(Box::new(q3)).max_off() == 3);
}

/// Configures the example circuit, assigns it in a table of `height` rows
/// with the public inputs `public`, freezes the table and checks it.
pub fn run_circuit(height: usize, public: Vec<Fp>) -> (r: Result<
    (Table, Result<(), Vec<Violation>>),
    CircuitError,
>)
    ensures
        pipeline_outcome(height as nat, public@, r),
{
    let ghost p = public@;
    let mut cs = ConstraintSystem::new(MAX_GATE_DEGREE);
    let config = match MyCircuit::configure(&mut cs) {
        Ok(c) => c,
        Err(e) => return Err(e),
    };
    proof {
        lemma_gate_max_off();
        assert(cs.gates@.drop_last().len() == 0);
        assert(gate_polys(cs.gates@) =~= seq![gate_spec()]);
        assert(gates_max_off(cs.gates@.drop_last()) == 0);
    }
    let mut region = Region::begin(&cs, height, public);
    let circuit = MyCircuit;
    match circuit.synthesize(config, &mut region) {
        Ok(()) => {},
        Err(e) => return Err(e),
    }
    let t = region.freeze();
    assert(t.bindings@ =~= circuit_bindings());
    let res = check(&cs, &t);
    Ok((t, res))
}

/// A table in which the output input differs from the value the recurrence
/// gives for the seed inputs is never reported satisfied: whatever single
/// input is changed, the check fails unless the change leaves the output
/// consistent with the seeds.
pub proof fn lemma_wrong_output_rejected(
    height: nat,
    public: Seq<Fp>,
    r: Result<(Table, Result<(), Vec<Violation>>), CircuitError>,
)
    requires
        pipeline_outcome(height, public, r),
        height >= CIRCUIT_ROWS,
        public.len() > OUTPUT_SLOT,
        public[OUTPUT_SLOT as int] != fib_seq(
            public[0],
            public[1],
            public[2],
            (CIRCUIT_ROWS - 1) as nat,
        ),
    ensures
        r is Ok,
        r->Ok_0.1 is Err,
{
    if r is Ok {
        let t = r->Ok_0.0@;
        if r->Ok_0.1 is Ok {
            assert(t.bindings[3] == Binding { row: 5, slot: 3 });
            assert(!binding_fails(t, 3));
            assert(t.cells[5] == Some(fib_seq(public[0], public[1], public[2], 5)));
        }
    }
}

/// Running the whole pipeline twice on the same inputs yields the same table
/// and the same check result.
pub proof fn lemma_pipeline_deterministic(
    height: nat,
    public: Seq<Fp>,
    r1: Result<(Table, Result<(), Vec<Violation>>), CircuitError>,
    r2: Result<(Table, Result<(), Vec<Violation>>), CircuitError>,
)
    requires
        pipeline_outcome(height, public, r1),
        pipeline_outcome(height, public, r2),
    ensures
        r1 is Ok <==> r2 is Ok,
        r1 is Err ==> r1 == r2,
        r1 is Ok ==> {
            &&& r1->Ok_0.0@ == r2->Ok_0.0@
            &&& (r1->Ok_0.1 is Ok <==> r2->Ok_0.1 is Ok)
            &&& r1->Ok_0.1 is Err ==> r1->Ok_0.1->Err_0@ == r2->Ok_0.1->Err_0@
        },
{
    if r1 is Ok {
        let t1 = r1->Ok_0.0@;
        let t2 = r2->Ok_0.0@;
        assert(t1.cells =~= t2.cells);
        assert(t1.enabled =~= t2.enabled);
        assert(t1 == t2);
    }
}

} // verus!
