use fib_circuit::checker::{check, Violation};
use fib_circuit::circuit::{CircuitError, ColumnKind, ConstraintSystem, Region};
use fib_circuit::expr::Expr;
use fib_circuit::fibonacci::{run_circuit, FibonacciChip, MyCircuit};
use halo2_proofs::pasta::Fp;

fn fp(n: u64) -> Fp {
    Fp::from(n)
}

fn step(a: Fp, b: Fp, c: Fp) -> Fp {
    a * b + b * c
}

fn fib_region(height: usize, public: Vec<Fp>) -> (ConstraintSystem, Region) {
    let mut cs = ConstraintSystem::new(4);
    MyCircuit::configure(&mut cs).unwrap();
    let region = Region::begin(&cs, height, public);
    (cs, region)
}

#[test]
fn fibonacci_example3() {
    let k = 4;

    let a = fp(1);
    let b = fp(2);
    let c = fp(3);
    let out = fp(264);

    let public_input = vec![a, b, c, out];

    let (_table, result) = run_circuit(1usize << k, public_input.clone()).unwrap();
    assert!(result.is_ok());
}

#[test]
fn final_row_matches_iterated_step() {
    let seeds = [(1u64, 2u64, 3u64), (0, 0, 0), (5, 7, 11), (u64::MAX, 2, 9)];
    for &(x0, x1, x2) in seeds.iter() {
        for h in 4usize..10 {
            let public = vec![fp(x0), fp(x1), fp(x2)];
            let mut cs = ConstraintSystem::new(4);
            let config = FibonacciChip::configure(&mut cs).unwrap();
            let chip = FibonacciChip::construct(config);
            let mut region = Region::begin(&cs, h, public);
            let cell = chip.assign(&mut region, h).unwrap();
            let (mut a, mut b, mut c) = (fp(x0), fp(x1), fp(x2));
            for _ in 0..(h - 3) {
                let d = step(a, b, c);
                a = b;
                b = c;
                c = d;
            }
            assert_eq!(cell.row, h - 1);
            assert!(cell.value == c);
            assert!(region.cells[h - 1] == Some(c));
        }
    }
}

#[test]
fn seeds_one_two_three_give_264() {
    let (table, result) = run_circuit(6, vec![fp(1), fp(2), fp(3), fp(264)]).unwrap();
    assert!(result.is_ok());
    let expected = [1u64, 2, 3, 8, 30, 264];
    for (i, v) in expected.iter().enumerate() {
        assert!(table.cells[i] == Some(fp(*v)));
    }
    assert_eq!(table.enabled, vec![true, true, true, false, false, false]);
}

#[test]
fn changed_seed_is_rejected() {
    let (_table, result) = run_circuit(16, vec![fp(1), fp(2), fp(4), fp(264)]).unwrap();
    let violations = result.unwrap_err();
    assert_eq!(violations.len(), 1);
    match violations[0] {
        Violation::Binding { index, slot, row, expected, actual } => {
            assert_eq!(index, 3);
            assert_eq!(slot, 3);
            assert_eq!(row, 5);
            assert!(expected == Some(fp(264)));
            assert!(actual != Some(fp(264)));
        }
        _ => panic!("expected a binding violation"),
    }
}

#[test]
fn changed_output_is_rejected() {
    let (_table, result) = run_circuit(16, vec![fp(1), fp(2), fp(3), fp(265)]).unwrap();
    assert!(result.is_err());
    let (_table, result) = run_circuit(16, vec![fp(2), fp(2), fp(3), fp(264)]).unwrap();
    assert!(result.is_err());
}

#[test]
fn pipeline_range_errors() {
    assert_eq!(run_circuit(5, vec![fp(1), fp(2), fp(3), fp(264)]).err(), Some(CircuitError::Range));
    assert_eq!(run_circuit(16, vec![fp(1), fp(2), fp(3)]).err(), Some(CircuitError::Range));
}

#[test]
fn selector_refused_on_last_rows() {
    let (_cs, mut region) = fib_region(8, vec![fp(1), fp(2), fp(3)]);
    assert_eq!(region.max_offset, 3);
    for row in 0..5 {
        assert_eq!(region.enable_selector(row), Ok(()));
    }
    for row in 5..10 {
        assert_eq!(region.enable_selector(row), Err(CircuitError::Range));
    }
    assert_eq!(region.enabled, vec![true, true, true, true, true, false, false, false]);
}

#[test]
fn unassigned_operand_leaves_table_unchanged() {
    let (_cs, mut region) = fib_region(8, vec![fp(1), fp(2), fp(3)]);
    region.assign_from_instance(0, 0).unwrap();
    region.assign_from_instance(1, 1).unwrap();
    let before = region.cells.clone();
    let compute = Expr::Add(
        Box::new(Expr::Mul(Box::new(Expr::Query(0)), Box::new(Expr::Query(1)))),
        Box::new(Expr::Mul(Box::new(Expr::Query(1)), Box::new(Expr::Query(2)))),
    );
    assert_eq!(region.assign_advice(3, &compute, 0).err(), Some(CircuitError::UnassignedOperand));
    assert!(region.cells == before);
    assert_eq!(region.assign_advice(8, &compute, 0).err(), Some(CircuitError::Range));
    region.assign_from_instance(2, 2).unwrap();
    let cell = region.assign_advice(3, &compute, 0).unwrap();
    assert!(cell.value == fp(8));
}

#[test]
fn instance_copy_out_of_range() {
    let (_cs, mut region) = fib_region(8, vec![fp(1), fp(2), fp(3)]);
    assert_eq!(region.assign_from_instance(3, 0).err(), Some(CircuitError::Range));
    assert_eq!(region.assign_from_instance(0, 8).err(), Some(CircuitError::Range));
    assert_eq!(region.expose_public(0, 3), Err(CircuitError::Range));
    assert_eq!(region.expose_public(8, 0), Err(CircuitError::Range));
    assert!(region.bindings.is_empty());
}

#[test]
fn check_twice_gives_same_result() {
    let (cs, mut region) = fib_region(8, vec![fp(1), fp(2), fp(3), fp(7)]);
    let chip = FibonacciChip::construct(fib_circuit::fibonacci::FibonacciConfig { selector: 0, advice: 1, instance: 2, gate: 0 });
    let cell = chip.assign(&mut region, 6).unwrap();
    chip.expose_public(&mut region, cell, 3).unwrap();
    region.enable_selector(4).unwrap();
    let table = region.freeze();
    let first = check(&cs, &table);
    let second = check(&cs, &table);
    assert_eq!(first, second);
    let violations = first.unwrap_err();
    assert_eq!(violations.len(), 2);
    assert!(matches!(violations[0], Violation::Gate { gate: 0, row: 4, value: None }));
    assert!(matches!(violations[1], Violation::Binding { index: 3, .. }));
}

#[test]
fn gate_violation_reports_value() {
    let (cs, mut region) = fib_region(4, vec![fp(1), fp(2), fp(3), fp(9)]);
    for (slot, row) in [(0usize, 0usize), (1, 1), (2, 2), (3, 3)] {
        region.assign_from_instance(slot, row).unwrap();
    }
    region.enable_selector(0).unwrap();
    let table = region.freeze();
    let violations = check(&cs, &table).unwrap_err();
    assert_eq!(violations.len(), 1);
    match violations[0] {
        Violation::Gate { gate, row, value } => {
            assert_eq!(gate, 0);
            assert_eq!(row, 0);
            assert!(value == Some(fp(8) - fp(9)));
        }
        _ => panic!("expected a gate violation"),
    }
}

#[test]
fn pipeline_twice_gives_identical_tables() {
    let public = vec![fp(4), fp(5), fp(6), fp(1)];
    let (t1, r1) = run_circuit(12, public.clone()).unwrap();
    let (t2, r2) = run_circuit(12, public).unwrap();
    assert!(t1.cells == t2.cells);
    assert_eq!(t1.enabled, t2.enabled);
    assert_eq!(t1.bindings, t2.bindings);
    assert!(t1.public == t2.public);
    assert_eq!(r1, r2);
}

#[test]
fn configuration_errors() {
    let mut cs = ConstraintSystem::new(4);
    let config = FibonacciChip::configure(&mut cs).unwrap();
    assert_eq!(config.selector, 0);
    assert_eq!(config.advice, 1);
    assert_eq!(config.instance, 2);
    assert_eq!(config.gate, 0);
    assert_eq!(cs.columns.len(), 3);
    assert_eq!(cs.columns[1].kind, ColumnKind::Advice);
    assert_eq!(cs.columns[1].name, "advice");
    assert_eq!(FibonacciChip::configure(&mut cs).err(), Some(CircuitError::Configuration));
    assert_eq!(cs.gates.len(), 1);
    assert_eq!(cs.columns.len(), 3);
    // Gate `add` enforces selector * (q0*q1 + q1*q2 - q3), of degree 3.
    let mut two = ConstraintSystem::new(2);
    assert_eq!(FibonacciChip::configure(&mut two).err(), Some(CircuitError::Configuration));
    assert!(two.columns.is_empty());
    let mut three = ConstraintSystem::new(3);
    assert!(MyCircuit::configure(&mut three).is_ok());
    let cube = Expr::Mul(
        Box::new(Expr::Query(0)),
        Box::new(Expr::Mul(Box::new(Expr::Query(1)), Box::new(Expr::Query(2)))),
    );
    assert_eq!(three.create_gate("cube".to_string(), cube), Err(CircuitError::Configuration));
    assert_eq!(three.gates.len(), 1);
    let square = Expr::Mul(Box::new(Expr::Query(0)), Box::new(Expr::Query(0)));
    assert_eq!(three.create_gate("square".to_string(), square), Ok(()));
}

#[test]
fn column_name_collision_is_refused() {
    let mut cs = ConstraintSystem::new(4);
    assert_eq!(cs.register_advice_column("advice".to_string()), Ok(0));
    assert_eq!(cs.register_instance_column("advice".to_string()), Err(CircuitError::Configuration));
    assert_eq!(cs.register_instance_column("public".to_string()), Ok(1));
    assert_eq!(cs.register_selector("s".to_string()), Ok(2));
    assert_eq!(cs.register_selector("public".to_string()), Err(CircuitError::Configuration));
    assert_eq!(cs.columns.len(), 3);
    assert_eq!(FibonacciChip::configure(&mut cs).err(), Some(CircuitError::Configuration));
    assert!(cs.gates.is_empty());
    assert_eq!(cs.columns.len(), 3);
}

#[test]
fn failed_assign_leaves_region_unchanged() {
    let (_cs, mut region) = fib_region(8, vec![fp(1), fp(2)]);
    let chip = FibonacciChip::construct(fib_circuit::fibonacci::FibonacciConfig { selector: 0, advice: 1, instance: 2, gate: 0 });
    assert_eq!(chip.assign(&mut region, 6).err(), Some(CircuitError::Range));
    assert!(region.cells.iter().all(|c| c.is_none()));
    assert!(region.enabled.iter().all(|e| !*e));
    assert!(region.bindings.is_empty());
    assert_eq!(chip.assign(&mut region, 3).err(), Some(CircuitError::Range));
    let (_cs, mut short) = fib_region(8, vec![fp(1), fp(2), fp(3), fp(264)]);
    short.expose_public(7, 3).unwrap();
    let circuit = MyCircuit;
    assert_eq!(
        circuit.synthesize(fib_circuit::fibonacci::FibonacciConfig { selector: 0, advice: 1, instance: 2, gate: 0 }, &mut short),
        Err(CircuitError::DuplicateBinding)
    );
    assert!(short.cells.iter().all(|c| c.is_none()));
    assert!(short.enabled.iter().all(|e| !*e));
    assert_eq!(short.bindings.len(), 1);
}

#[test]
fn expression_arithmetic() {
    let cells = vec![Some(fp(3)), Some(fp(4)), None];
    let e = Expr::Add(
        Box::new(Expr::Mul(Box::new(Expr::Query(0)), Box::new(Expr::Query(1)))),
        Box::new(Expr::Neg(Box::new(Expr::Constant(fp(5))))),
    );
    assert!(e.evaluate(&cells, 0) == Some(fp(7)));
    assert!(Expr::Neg(Box::new(Expr::Query(0))).evaluate(&cells, 1) == Some(-fp(4)));
    assert!(Expr::Query(1).evaluate(&cells, 1).is_none());
    assert!(Expr::Query(0).evaluate(&cells, 3).is_none());
    assert_eq!(e.max_offset(), 1);
    assert_eq!(e.degree_checked(), Some(2));
}

#[test]
fn slot_bound_twice_is_refused() {
    let (_cs, mut region) = fib_region(8, vec![fp(1), fp(2), fp(3), fp(264)]);
    region.assign_from_instance(0, 0).unwrap();
    assert_eq!(region.assign_from_instance(0, 4).err(), Some(CircuitError::DuplicateBinding));
    assert_eq!(region.expose_public(3, 0), Err(CircuitError::DuplicateBinding));
    assert!(region.cells[4].is_none());
    assert_eq!(region.bindings.len(), 1);
    let chip = FibonacciChip::construct(fib_circuit::fibonacci::FibonacciConfig { selector: 0, advice: 1, instance: 2, gate: 0 });
    assert_eq!(chip.assign(&mut region, 6).err(), Some(CircuitError::DuplicateBinding));
    assert_eq!(region.bindings.len(), 1);
    assert!(region.cells[1].is_none());
    assert!(region.enabled.iter().all(|e| !*e));
}
