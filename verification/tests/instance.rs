use jsplr::formula::{SolveOutcome, MAX_VARIABLES};
use jsplr::instance::{model_of, refutes, Instance};

fn with_variables(count: i32) -> Instance {
    let mut instance = Instance::create();
    for _ in 0..count {
        instance.add_variable();
    }
    instance
}

fn holds(model: &[i32], clause: &[i32]) -> bool {
    clause.iter().any(|lit| model[(lit.unsigned_abs() - 1) as usize] == *lit)
}

fn is_total(model: &[i32], variables: i32) -> bool {
    model.len() == variables as usize
        && model.iter().enumerate().all(|(i, lit)| lit.unsigned_abs() as usize == i + 1)
}

#[test]
fn new_instance_has_no_variable() {
    let instance = Instance::create();
    assert_eq!(instance.num_variables(), 0);
    assert!(!instance.is_refuted());
}

#[test]
fn variables_are_counted_and_numbered() {
    for k in [0, 1, 2, 7, 50] {
        let mut instance = Instance::create();
        for i in 1..=k {
            assert_eq!(instance.add_variable(), i);
            assert_eq!(instance.num_variables(), i);
        }
        assert_eq!(instance.num_variables(), k);
    }
}

#[test]
fn try_add_variable_numbers_as_add_variable() {
    let mut instance = Instance::create();
    assert_eq!(instance.try_add_variable(), Some(1));
    assert_eq!(instance.add_variable(), 2);
    assert_eq!(instance.try_add_variable(), Some(3));
    assert_eq!(instance.num_variables(), 3);
}

#[test]
fn variable_limit_fits_the_literal_encoding() {
    assert_eq!(MAX_VARIABLES, 1_073_741_823);
    assert!(2 * (MAX_VARIABLES as i64) + 1 <= i32::MAX as i64);
}

#[test]
fn literal_then_complement_fails_on_second_call() {
    let mut instance = with_variables(5);
    assert!(instance.add_clause_1(5));
    assert!(!instance.add_clause_1(-5));
    assert!(instance.is_refuted());
}

#[test]
fn complement_then_literal_fails_on_second_call() {
    let mut instance = with_variables(3);
    assert!(instance.add_clause_1(-2));
    assert!(!instance.add_clause_1(2));
    assert!(instance.add_clause_1(-2));
    assert!(instance.is_refuted());
}

#[test]
fn repeated_literal_is_accepted() {
    let mut instance = with_variables(2);
    assert!(instance.add_clause_1(1));
    assert!(instance.add_clause_1(1));
    assert!(!instance.is_refuted());
    assert_eq!(instance.solve().map(|m| m[0]), Some(1));
}

#[test]
fn unit_and_complement_make_solve_absent() {
    let mut instance = with_variables(1);
    assert!(instance.add_clause_1(1));
    assert!(!instance.add_clause_1(-1));
    assert_eq!(instance.solve(), None);
    assert_eq!(instance.solve(), None);
}

#[test]
fn unit_and_complement_as_arrays_make_solve_absent() {
    let mut instance = with_variables(1);
    assert!(instance.add_clause_n(&[1]));
    assert!(!instance.add_clause_n(&[-1]));
    assert!(instance.is_refuted());
    assert_eq!(instance.solve(), None);
}

#[test]
fn refuted_instance_stays_refuted() {
    let mut instance = with_variables(2);
    assert!(instance.add_clause_1(1));
    assert!(!instance.add_clause_1(-1));
    assert!(instance.add_clause_1(2));
    assert_eq!(instance.add_variable(), 3);
    assert!(instance.add_clause_2(2, 3));
    assert!(instance.is_refuted());
    assert_eq!(instance.num_variables(), 3);
    assert_eq!(instance.solve(), None);
}

#[test]
fn empty_clause_is_a_contradiction() {
    let mut instance = with_variables(2);
    let none: [i32; 0] = [];
    assert!(!instance.add_clause_n(&none));
    assert!(instance.is_refuted());
    assert_eq!(instance.num_variables(), 2);
    assert_eq!(instance.solve(), None);
}

#[test]
fn empty_clause_on_new_instance_does_not_crash() {
    let mut instance = Instance::create();
    assert!(!instance.add_clause_n(&[]));
    assert!(instance.is_refuted());
    assert_eq!(instance.solve(), None);
}

#[test]
fn invalid_literal_is_refused_and_changes_nothing() {
    let mut instance = with_variables(2);
    assert!(!instance.add_clause_1(0));
    assert!(!instance.add_clause_1(3));
    assert!(!instance.add_clause_1(-3));
    assert!(!instance.add_clause_1(i32::MIN));
    assert!(!instance.add_clause_1(i32::MAX));
    assert!(!instance.add_clause_2(1, 0));
    assert!(!instance.add_clause_3(1, 2, 3));
    assert!(!instance.add_clause_n(&[1, -2, 9]));
    assert!(!instance.add_clause_n(&[i32::MIN]));
    assert!(!instance.is_refuted());
    assert_eq!(instance.num_variables(), 2);
    let model = instance.solve().unwrap();
    assert!(is_total(&model, 2));
}

#[test]
fn literal_of_missing_variable_is_refused_on_new_instance() {
    let mut instance = Instance::create();
    assert!(!instance.add_clause_1(5));
    assert!(!instance.add_clause_1(-5));
    assert!(!instance.is_refuted());
    assert_eq!(instance.solve(), Some(vec![]));
}

#[test]
fn new_variable_can_be_forced_either_way() {
    let mut positive = with_variables(3);
    let v = positive.add_variable();
    assert!(positive.add_clause_1(v));
    assert_eq!(positive.solve().map(|m| m[3]), Some(4));

    let mut negative = with_variables(3);
    let w = negative.add_variable();
    assert!(negative.add_clause_1(-w));
    assert_eq!(negative.solve().map(|m| m[3]), Some(-4));
}

#[test]
fn clause_with_one_open_literal_forces_it() {
    let mut instance = with_variables(3);
    assert!(instance.add_clause_1(-1));
    assert!(instance.add_clause_2(1, 2));
    assert!(!instance.add_clause_1(-2));
    assert!(instance.is_refuted());
}

#[test]
fn clause_with_repeated_open_literal_forces_it() {
    let mut instance = with_variables(3);
    assert!(instance.add_clause_1(-1));
    assert!(instance.add_clause_3(3, 1, 3));
    assert!(!instance.add_clause_1(-3));
}

#[test]
fn clause_with_two_open_literals_forces_nothing() {
    let mut instance = with_variables(3);
    assert!(instance.add_clause_2(1, 2));
    assert!(instance.add_clause_1(-1));
    assert!(instance.add_clause_1(-3));
    assert!(!instance.is_refuted());
}

#[test]
fn satisfied_clause_forces_nothing() {
    let mut instance = with_variables(2);
    assert!(instance.add_clause_1(1));
    assert!(instance.add_clause_2(1, 2));
    assert!(instance.add_clause_1(-2));
    assert!(!instance.is_refuted());
    assert_eq!(instance.solve(), Some(vec![1, -2]));
}

#[test]
fn tautology_is_accepted_and_forces_nothing() {
    let mut instance = with_variables(2);
    assert!(instance.add_clause_2(1, -1));
    assert!(instance.add_clause_1(-1));
    assert!(instance.add_clause_3(2, -2, 2));
    assert!(instance.add_clause_1(-2));
    assert_eq!(instance.solve(), Some(vec![-1, -2]));
}

#[test]
fn falsified_clause_is_a_contradiction() {
    let mut instance = with_variables(3);
    assert!(instance.add_clause_1(-1));
    assert!(instance.add_clause_1(-2));
    assert!(instance.add_clause_1(3));
    assert!(!instance.add_clause_2(1, 2));
    assert!(instance.is_refuted());

    let mut other = with_variables(3);
    assert!(other.add_clause_1(-1));
    assert!(other.add_clause_1(-2));
    assert!(other.add_clause_1(3));
    assert!(!other.add_clause_3(1, 2, -3));
    assert!(!other.add_clause_n(&[2, 2, 1, -3, 1]));
    assert_eq!(other.solve(), None);
}

#[test]
fn satisfiable_formula_has_a_total_model_that_holds() {
    let clauses: [&[i32]; 6] = [&[1, 2, 3], &[-1, -2], &[-2, -3], &[2, 4], &[-4, 5, 1], &[-5, -1]];
    let mut instance = with_variables(5);
    for clause in clauses {
        assert!(instance.add_clause_n(clause));
    }
    let model = instance.solve().unwrap();
    assert_eq!(model.len() as i32, instance.num_variables());
    assert!(is_total(&model, 5));
    for clause in clauses {
        assert!(holds(&model, clause));
    }
}

#[test]
fn forced_literals_show_in_the_model() {
    let mut instance = with_variables(4);
    assert!(instance.add_clause_1(-1));
    assert!(instance.add_clause_1(2));
    assert!(instance.add_clause_1(-3));
    assert!(instance.add_clause_1(4));
    assert_eq!(instance.solve(), Some(vec![-1, 2, -3, 4]));
}

#[test]
fn formula_without_variables_has_the_empty_model() {
    let mut instance = Instance::create();
    assert_eq!(instance.solve(), Some(vec![]));
}

#[test]
fn unsatisfiable_by_search_is_absent_and_remembered() {
    let mut instance = with_variables(2);
    assert!(instance.add_clause_2(1, 2));
    assert!(instance.add_clause_2(-1, 2));
    assert!(instance.add_clause_2(1, -2));
    assert!(instance.add_clause_2(-1, -2));
    assert!(!instance.is_refuted());
    assert_eq!(instance.solve(), None);
    assert!(instance.is_refuted());
    assert_eq!(instance.solve(), None);
    assert_eq!(instance.num_variables(), 2);
}

#[test]
fn unsatisfiable_formula_stays_without_model_however_often_it_is_solved() {
    let mut instance = with_variables(3);
    assert!(instance.solve().is_some());
    assert!(instance.add_clause_2(3, -1));
    assert!(instance.add_clause_3(-3, 2, -1));
    assert!(instance.add_clause_2(-3, -3));
    assert!(instance.add_clause_2(1, 1));
    for _ in 0..5 {
        assert_eq!(instance.solve(), None);
    }
    assert_eq!(instance.add_variable(), 4);
    assert!(instance.add_clause_1(4));
    assert_eq!(instance.solve(), None);
}

#[test]
fn solve_can_be_repeated_after_more_clauses() {
    let mut instance = with_variables(3);
    assert!(instance.add_clause_2(1, 2));
    let first = instance.solve().unwrap();
    assert!(is_total(&first, 3));
    assert!(holds(&first, &[1, 2]));
    let again = instance.solve().unwrap();
    assert!(is_total(&again, 3));
    assert!(holds(&again, &[1, 2]));

    assert_eq!(instance.add_variable(), 4);
    assert!(instance.add_clause_3(-1, -2, 4));
    assert!(instance.add_clause_2(-4, 3));
    let second = instance.solve().unwrap();
    assert!(is_total(&second, 4));
    for clause in [&[1, 2][..], &[-1, -2, 4], &[-4, 3]] {
        assert!(holds(&second, clause));
    }
}

#[test]
fn contradiction_after_a_solve_is_remembered() {
    let mut instance = with_variables(4);
    assert!(instance.add_clause_n(&[1, 2]));
    assert!(instance.add_clause_n(&[-1]));
    assert!(instance.add_clause_n(&[1, -3]));
    assert!(instance.solve().is_some());
    assert!(instance.add_clause_n(&[3, 4]));
    assert!(!instance.add_clause_n(&[-4, 1]));
    assert!(instance.is_refuted());
    assert_eq!(instance.solve(), None);
}

#[test]
fn model_of_keeps_only_a_satisfying_result() {
    assert_eq!(model_of(SolveOutcome::Sat(vec![1, -2, 3])), Some(vec![1, -2, 3]));
    assert_eq!(model_of(SolveOutcome::Sat(vec![])), Some(vec![]));
    assert_eq!(model_of(SolveOutcome::Unsat), None);
    assert_eq!(model_of(SolveOutcome::Failed), None);
}

#[test]
fn conclude_hands_out_a_model_and_leaves_no_mark() {
    let mut instance = with_variables(2);
    assert!(instance.add_clause_2(1, 2));
    assert_eq!(instance.conclude(SolveOutcome::Sat(vec![1, -2])), Some(vec![1, -2]));
    assert!(!instance.is_refuted());
    assert_eq!(instance.num_variables(), 2);
    assert!(instance.solve().is_some());
}

#[test]
fn conclude_forgets_a_failed_run() {
    let mut instance = with_variables(2);
    assert!(instance.add_clause_2(1, 2));
    assert_eq!(instance.conclude(SolveOutcome::Failed), None);
    assert!(!instance.is_refuted());
    let model = instance.solve().unwrap();
    assert!(is_total(&model, 2));
    assert!(holds(&model, &[1, 2]));
}

#[test]
fn conclude_remembers_that_there_is_no_model() {
    let mut instance = with_variables(2);
    assert_eq!(instance.conclude(SolveOutcome::Unsat), None);
    assert!(instance.is_refuted());
    assert_eq!(instance.num_variables(), 2);
    assert_eq!(instance.solve(), None);
    assert_eq!(instance.conclude(SolveOutcome::Failed), None);
    assert!(instance.is_refuted());
}

#[test]
fn refutes_only_the_verdict_that_there_is_no_model() {
    assert!(refutes(&SolveOutcome::Unsat));
    assert!(!refutes(&SolveOutcome::Failed));
    assert!(!refutes(&SolveOutcome::Sat(vec![1])));
}

#[test]
fn destroy_ends_a_legitimate_sequence() {
    let mut instance = with_variables(2);
    assert!(instance.add_clause_2(1, -2));
    assert!(instance.solve().is_some());
    instance.destroy();

    let untouched = Instance::create();
    untouched.destroy();

    let mut refuted = with_variables(1);
    assert!(!instance_refuses_empty(&mut refuted));
    refuted.destroy();
}

fn instance_refuses_empty(instance: &mut Instance) -> bool {
    instance.add_clause_n(&[])
}

#[test]
fn end_to_end_four_variables_four_clauses() {
    let mut instance = Instance::create();
    for i in 1..=4 {
        assert_eq!(instance.add_variable(), i);
    }
    assert!(instance.add_clause_n(&[1, 2]));
    assert!(instance.add_clause_n(&[-1]));
    assert!(instance.add_clause_n(&[1, -3]));
    assert!(instance.add_clause_n(&[-1, 2]));
    let model = instance.solve().unwrap();
    assert_eq!(model.len(), 4);
    assert!(is_total(&model, 4));
    assert_eq!(&model[..3], &[-1, 2, -3]);
    for clause in [&[1, 2][..], &[-1], &[1, -3], &[-1, 2]] {
        assert!(holds(&model, clause));
    }
    instance.destroy();
}
