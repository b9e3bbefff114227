//! The calls into `splr`. Nothing in this file is proved: each contract says
//! what the solver's source shows of the call it stands for.

use crate::formula::{
    is_model, models_after_clause, models_after_variable, AddOutcome, Assignment, SolveOutcome,
    MAX_VARIABLES,
};
use splr::types::{CNFDescription, Instantiate};
use splr::{Certificate, Config, SatSolverIF, SolveIF, Solver, SolverError};
use vstd::prelude::*;

verus! {

/// `splr::Solver`, opaque to the verifier.
#[verifier::external_type_specification]
#[verifier::external_body]
pub struct ExSolver(Solver);

/// The number of variables of a solver: its field `asg.num_vars`.
pub uninterp spec fn solver_variables(solver: Solver) -> nat;

/// The truth values that a solver holds at its top decision level, by
/// variable: what its assignment table shows when no search is under way.
pub uninterp spec fn solver_values(solver: Solver) -> Map<int, bool>;

/// The solver stands at its top decision level, so that its assignment table
/// shows `solver_values` and nothing else.
pub uninterp spec fn solver_at_top(solver: Solver) -> bool;

/// The models of a solver as it stands: the sequences with one literal for
/// each of its variables, in their order, that agree with every value of the
/// top decision level and satisfy every live clause of its clause store.
pub uninterp spec fn solver_models(solver: Solver) -> Set<Seq<i32>>;

/// What the contracts see of a solver's variables and values.
pub open spec fn solver_view(solver: Solver) -> Assignment {
    Assignment { variables: solver_variables(solver), values: solver_values(solver) }
}

/// `Solver::instantiate` with the default configuration and the default
/// problem description: a solver without variables and without clauses, with
/// an assignment table that holds no value. Its one model is the sequence
/// without entries.
#[verifier::external_body]
pub(crate) fn solver_new() -> (solver: Solver)
    ensures
        solver_variables(solver) == 0,
        solver_values(solver) == Assignment::empty().values,
        forall|m: Seq<i32>| #[trigger] solver_models(solver).contains(m) <==> is_model(m, 0),
        solver_at_top(solver),
{
    Solver::instantiate(&Config::default(), &CNFDescription::default())
}

/// Reads `asg.num_vars`.
#[verifier::external_body]
pub(crate) fn solver_num_vars(solver: &Solver) -> (count: usize)
    ensures
        count == solver_variables(*solver),
{
    solver.asg.num_vars
}

/// `SatSolverIF::add_var`: appends one variable without a value, of which no
/// clause speaks, and returns the new number of variables. The models are
/// the old ones with one more entry, of either sign.
#[verifier::external_body]
pub(crate) fn solver_add_var(solver: &mut Solver) -> (count: usize)
    requires
        solver_variables(*old(solver)) < MAX_VARIABLES,
    ensures
        solver_variables(*final(solver)) == solver_variables(*old(solver)) + 1,
        solver_values(*final(solver)) == solver_values(*old(solver)),
        models_after_variable(
            solver_models(*old(solver)),
            solver_models(*final(solver)),
            solver_variables(*old(solver)),
        ),
        solver_at_top(*final(solver)) == solver_at_top(*old(solver)),
        count == solver_variables(*final(solver)),
{
    solver.add_var()
}

/// `SatSolverIF::add_assignment`: refuses a literal that is zero or beyond
/// the last variable, reports a conflict where the literal is false in the
/// table, and else leaves the literal true in the table: of the models,
/// those stay in which the literal holds.
#[verifier::external_body]
pub(crate) fn solver_add_assignment(solver: &mut Solver, lit: i32) -> (outcome: AddOutcome)
    requires
        solver_variables(*old(solver)) <= MAX_VARIABLES,
        solver_at_top(*old(solver)),
    ensures
        solver_at_top(*final(solver)),
        outcome == solver_view(*old(solver)).outcome_of_literal(lit),
        solver_variables(*final(solver)) == solver_variables(*old(solver)),
        solver_values(*final(solver)) == solver_view(*old(solver)).after_literal(lit).values,
        models_after_clause(
            solver_models(*old(solver)),
            solver_models(*final(solver)),
            outcome,
            seq![lit],
        ),
{
    match solver.add_assignment(lit) {
        Ok(_) => AddOutcome::Added,
        Err(SolverError::InvalidLiteral) => AddOutcome::Invalid,
        Err(_) => AddOutcome::Contradiction,
    }
}

/// `SatSolverIF::add_clause`: refuses a clause with an entry that is zero or
/// beyond the last variable; reports an empty clause where no literal is left
/// after the false ones are dropped; drops a clause that holds a true literal
/// or a variable in both polarities; makes the literal true where exactly one
/// is left; and stores what is left otherwise. In each case where the clause
/// is taken, those models stay that satisfy it: the literals that were
/// dropped are false in every model, a true literal holds in every model,
/// and a variable in both polarities is satisfied by any.
#[verifier::external_body]
pub(crate) fn solver_add_clause(solver: &mut Solver, lits: &[i32]) -> (outcome: AddOutcome)
    requires
        solver_variables(*old(solver)) <= MAX_VARIABLES,
        solver_at_top(*old(solver)),
    ensures
        solver_at_top(*final(solver)),
        outcome == solver_view(*old(solver)).outcome(lits@),
        solver_variables(*final(solver)) == solver_variables(*old(solver)),
        solver_values(*final(solver)) == solver_view(*old(solver)).after_clause(lits@).values,
        models_after_clause(
            solver_models(*old(solver)),
            solver_models(*final(solver)),
            outcome,
            lits@,
        ),
{
    match solver.add_clause(lits) {
        Ok(_) => AddOutcome::Added,
        Err(SolverError::InvalidLiteral) => AddOutcome::Invalid,
        Err(_) => AddOutcome::Contradiction,
    }
}

/// `SatSolverIF::reset`: returns the solver to its top decision level;
/// variables, clause store and the values of that level stay as they are.
#[verifier::external_body]
pub(crate) fn solver_reset(solver: &mut Solver)
    ensures
        solver_at_top(*final(solver)),
        solver_variables(*final(solver)) == solver_variables(*old(solver)),
        solver_values(*final(solver)) == solver_values(*old(solver)),
        solver_models(*final(solver)) == solver_models(*old(solver)),
{
    solver.reset()
}

/// `SolveIF::solve`: the search. It takes back only what it assigned above
/// the top decision level: the values of that level stay, and no variable is
/// added. What it learns, fixes or rewrites in the clause store follows from
/// what was there, so no model is gained. With a model or with the verdict
/// that there is none it returns at the top level; a run that fails may stop
/// in the middle of the search. A model is made of the full table as the
/// search left it, one entry for each variable, its index or the negated
/// index; so it agrees with every value of the top level. `Certificate::SAT`
/// is documented to carry a satisfying assignment, and `solve` validates the
/// model against its clause store before it returns one: the model is among
/// the models of the solver. Whether a model is found depends on the search
/// and on the time it takes, so nothing is said of that.
#[verifier::external_body]
pub(crate) fn solver_solve(solver: &mut Solver) -> (outcome: SolveOutcome)
    requires
        solver_variables(*old(solver)) <= MAX_VARIABLES,
        solver_at_top(*old(solver)),
    ensures
        !(outcome is Failed) ==> solver_at_top(*final(solver)),
        solver_variables(*final(solver)) == solver_variables(*old(solver)),
        solver_view(*old(solver)).extended_by(solver_view(*final(solver))),
        solver_models(*final(solver)).subset_of(solver_models(*old(solver))),
        forall|v: int| #[trigger]
            solver_values(*final(solver)).dom().contains(v) ==> 1 <= v <= solver_variables(
                *old(solver),
            ),
        outcome matches SolveOutcome::Sat(model) ==> is_model(
            model@,
            solver_variables(*final(solver)),
        ) && solver_view(*final(solver)).respected_by(model@) && solver_models(
            *final(solver),
        ).contains(model@),
{
    match solver.solve() {
        Ok(Certificate::SAT(model)) => SolveOutcome::Sat(model),
        Ok(Certificate::UNSAT) => SolveOutcome::Unsat,
        Err(_) => SolveOutcome::Failed,
    }
}

} // verus!
