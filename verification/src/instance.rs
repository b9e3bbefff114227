//! One solver instance and the operations a host may perform on it.

use crate::backend::{
    solver_add_assignment, solver_add_clause, solver_add_var, solver_at_top, solver_models,
    solver_new, solver_num_vars, solver_reset, solver_solve, solver_view,
};
use crate::formula::{
    clauses_after, is_model, lemma_after_clause_wf, lemma_after_literal_wf, lemma_clause_of_one,
    lemma_longer_model_satisfies, model_satisfies, model_satisfies_all, models_after_clause,
    AddOutcome, Assignment, SolveOutcome, MAX_VARIABLES,
};
use splr::Solver;
use vstd::prelude::*;

verus! {

/// What an instance holds, as the contracts see it.
pub struct State {
    /// The variables and the values fixed so far.
    pub assignment: Assignment,
    /// The clauses that were accepted, in their order.
    pub clauses: Seq<Seq<i32>>,
    /// The formula is known to be unsatisfiable: a clause was offered that
    /// cannot hold, or the solver found that there is no model.
    pub refuted: bool,
}

impl State {
    /// The state of a new instance.
    pub open spec fn fresh() -> State {
        State { assignment: Assignment::empty(), clauses: Seq::empty(), refuted: false }
    }

    /// The state after one more variable was added.
    pub open spec fn after_variable(self) -> State {
        State { assignment: self.assignment.after_variable(), ..self }
    }

    /// The state after `count` more variables were added, one by one.
    pub open spec fn after_variables(self, count: nat) -> State
        decreases count,
    {
        if count == 0 {
            self
        } else {
            self.after_variables((count - 1) as nat).after_variable()
        }
    }

    /// Offering `lits` as a clause succeeds.
    pub open spec fn accepts(self, lits: Seq<i32>) -> bool {
        self.assignment.outcome(lits) == AddOutcome::Added
    }

    /// The state after `lits` was offered as a clause. An accepted clause
    /// joins the formula; a contradiction is remembered; an invalid clause
    /// changes nothing.
    pub open spec fn after_clause(self, lits: Seq<i32>) -> State {
        State {
            assignment: self.assignment.after_clause(lits),
            clauses: clauses_after(self.clauses, self.assignment.outcome(lits), lits),
            refuted: self.refuted || self.assignment.outcome(lits) == AddOutcome::Contradiction,
        }
    }
}

/// The model that a run of the solver gives the host, if it gives one.
pub open spec fn model_of_outcome(outcome: SolveOutcome) -> Option<Vec<i32>> {
    match outcome {
        SolveOutcome::Sat(model) => Some(model),
        SolveOutcome::Unsat => None,
        SolveOutcome::Failed => None,
    }
}

/// Picks the model out of what a run of the solver ended in: there is one
/// only where the formula was found satisfiable.
pub fn model_of(outcome: SolveOutcome) -> (model: Option<Vec<i32>>)
    ensures
        model == model_of_outcome(outcome),
{
    match outcome {
        SolveOutcome::Sat(model) => Some(model),
        SolveOutcome::Unsat => None,
        SolveOutcome::Failed => None,
    }
}

/// Whether a run of the solver settles that the formula has no model.
pub open spec fn refutes_outcome(outcome: SolveOutcome) -> bool {
    outcome is Unsat
}

/// Tells whether a run of the solver has shown the formula unsatisfiable. A
/// run that failed shows nothing.
pub fn refutes(outcome: &SolveOutcome) -> (refuted: bool)
    ensures
        refuted == refutes_outcome(*outcome),
{
    match outcome {
        SolveOutcome::Sat(_) => false,
        SolveOutcome::Unsat => true,
        SolveOutcome::Failed => false,
    }
}

/// A solver instance.
pub struct Instance {
    solver: Solver,
    /// The clauses that were accepted, in their order. The solver keeps no
    /// such list: it drops what is satisfied and rewrites what it stores.
    clauses: Ghost<Seq<Seq<i32>>>,
    refuted: bool,
}

impl View for Instance {
    type V = State;

    closed spec fn view(&self) -> State {
        State {
            assignment: solver_view(self.solver),
            clauses: self.clauses@,
            refuted: self.refuted,
        }
    }
}

impl Instance {
    /// The invariant of an instance: every operation keeps it. The solver
    /// stands at its top level, its assignment is well formed, and each of
    /// its models satisfies every clause that was accepted.
    pub closed spec fn wf(&self) -> bool {
        &&& self@.assignment.wf()
        &&& solver_at_top(self.solver)
        &&& forall|m: Seq<i32>| #[trigger]
            solver_models(self.solver).contains(m) ==> model_satisfies_all(m, self.clauses@)
    }

    /// A well-formed instance has a well-formed assignment.
    pub proof fn lemma_wf(&self)
        requires
            self.wf(),
        ensures
            self@.assignment.wf(),
    {
    }

    /// A new instance: no variable, no clause.
    pub fn create() -> (instance: Instance)
        ensures
            instance.wf(),
            instance@ == State::fresh(),
    {
        Instance { solver: solver_new(), clauses: Ghost(Seq::empty()), refuted: false }
    }

    /// The number of variables.
    pub fn num_variables(&self) -> (count: i32)
        requires
            self.wf(),
        ensures
            count == self@.assignment.variables,
    {
        let count: usize = solver_num_vars(&self.solver);
        count as i32
    }

    /// Adds one variable and returns its index.
    pub fn add_variable(&mut self) -> (index: i32)
        requires
            old(self).wf(),
            old(self)@.assignment.variables < MAX_VARIABLES,
        ensures
            final(self).wf(),
            final(self)@ == old(self)@.after_variable(),
            index == old(self)@.assignment.next_variable(),
    {
        let count: usize = solver_add_var(&mut self.solver);
        proof {
            assert(self@ == old(self)@.after_variable());
            assert forall|m: Seq<i32>| #[trigger]
                solver_models(self.solver).contains(m) implies model_satisfies_all(
                m,
                self.clauses@,
            ) by {
                assert(solver_models(old(self).solver).contains(m.drop_last()));
                lemma_longer_model_satisfies(m, self.clauses@);
            }
        }
        count as i32
    }

    /// Adds one variable and returns its index, unless the instance is full.
    pub fn try_add_variable(&mut self) -> (index: Option<i32>)
        requires
            old(self).wf(),
        ensures
            final(self).wf(),
            old(self)@.assignment.variables < MAX_VARIABLES ==> {
                &&& final(self)@ == old(self)@.after_variable()
                &&& index == Some(old(self)@.assignment.next_variable() as i32)
            },
            old(self)@.assignment.variables >= MAX_VARIABLES ==> {
                &&& final(self)@ == old(self)@
                &&& index is None
            },
    {
        if solver_num_vars(&self.solver) < MAX_VARIABLES {
            Some(self.add_variable())
        } else {
            None
        }
    }

    /// Whether the formula is known to be unsatisfiable.
    pub fn is_refuted(&self) -> (refuted: bool)
        ensures
            refuted == self@.refuted,
    {
        self.refuted
    }

    /// Takes note of how offering `lits` to the solver ended: an accepted
    /// clause joins the list, a contradiction is remembered.
    fn record(&mut self, outcome: AddOutcome, Ghost(lits): Ghost<Seq<i32>>) -> (ok: bool)
        ensures
            final(self).solver == old(self).solver,
            final(self).clauses@ == clauses_after(old(self).clauses@, outcome, lits),
            final(self).refuted == (old(self).refuted || outcome == AddOutcome::Contradiction),
            ok == (outcome == AddOutcome::Added),
    {
        match outcome {
            AddOutcome::Added => {
                self.clauses = Ghost(self.clauses@.push(lits));
                true
            },
            AddOutcome::Invalid => false,
            AddOutcome::Contradiction => {
                self.refuted = true;
                false
            },
        }
    }

    /// Adds the clause of the single literal `lit`, as a forced assignment.
    /// Fails, and changes nothing, where `lit` is no literal of the instance;
    /// fails, and leaves the instance refuted, where `lit` is already false.
    pub fn add_clause_1(&mut self, lit: i32) -> (ok: bool)
        requires
            old(self).wf(),
        ensures
            final(self).wf(),
            ok == old(self)@.accepts(seq![lit]),
            final(self)@ == old(self)@.after_clause(seq![lit]),
    {
        proof {
            lemma_clause_of_one(solver_view(self.solver), lit);
            lemma_after_literal_wf(solver_view(self.solver), lit);
        }
        let ghost clause: Seq<i32> = seq![lit];
        let outcome = solver_add_assignment(&mut self.solver, lit);
        let ok = self.record(outcome, Ghost(clause));
        proof {
            Self::lemma_models_satisfy(
                solver_models(old(self).solver),
                solver_models(self.solver),
                old(self).clauses@,
                outcome,
                seq![lit],
            );
        }
        ok
    }

    /// Adds a clause, given as a slice of literals. Fails, and changes
    /// nothing, where an entry is no literal of the instance; fails, and
    /// leaves the instance refuted, where every literal is already false, as
    /// in the clause without literals.
    pub fn add_clause_n(&mut self, lits: &[i32]) -> (ok: bool)
        requires
            old(self).wf(),
        ensures
            final(self).wf(),
            ok == old(self)@.accepts(lits@),
            final(self)@ == old(self)@.after_clause(lits@),
    {
        proof {
            lemma_after_clause_wf(solver_view(self.solver), lits@);
        }
        let outcome = solver_add_clause(&mut self.solver, lits);
        let ok = self.record(outcome, Ghost(lits@));
        proof {
            Self::lemma_models_satisfy(
                solver_models(old(self).solver),
                solver_models(self.solver),
                old(self).clauses@,
                outcome,
                lits@,
            );
        }
        ok
    }

    /// Where the models that stay are those that satisfy an accepted clause,
    /// they satisfy the list with that clause at its end.
    proof fn lemma_models_satisfy(
        before: Set<Seq<i32>>,
        after: Set<Seq<i32>>,
        clauses: Seq<Seq<i32>>,
        outcome: AddOutcome,
        lits: Seq<i32>,
    )
        requires
            forall|m: Seq<i32>| #[trigger] before.contains(m) ==> model_satisfies_all(m, clauses),
            models_after_clause(before, after, outcome, lits),
        ensures
            forall|m: Seq<i32>| #[trigger]
                after.contains(m) ==> model_satisfies_all(m, clauses_after(clauses, outcome, lits)),
    {
        let longer = clauses_after(clauses, outcome, lits);
        assert forall|m: Seq<i32>| #[trigger] after.contains(m) implies model_satisfies_all(
            m,
            longer,
        ) by {
            assert(before.contains(m));
            assert forall|i: int| 0 <= i < longer.len() implies model_satisfies(
                m,
                #[trigger] longer[i],
            ) by {
                if i < clauses.len() {
                    assert(longer[i] == clauses[i]);
                }
            }
        }
    }

    /// Adds the clause of two literals.
    pub fn add_clause_2(&mut self, lit1: i32, lit2: i32) -> (ok: bool)
        requires
            old(self).wf(),
        ensures
            final(self).wf(),
            ok == old(self)@.accepts(seq![lit1, lit2]),
            final(self)@ == old(self)@.after_clause(seq![lit1, lit2]),
    {
        let lits: Vec<i32> = vec![lit1, lit2];
        assert(lits@ =~= seq![lit1, lit2]);
        self.add_clause_n(lits.as_slice())
    }

    /// Adds the clause of three literals.
    pub fn add_clause_3(&mut self, lit1: i32, lit2: i32, lit3: i32) -> (ok: bool)
        requires
            old(self).wf(),
        ensures
            final(self).wf(),
            ok == old(self)@.accepts(seq![lit1, lit2, lit3]),
            final(self)@ == old(self)@.after_clause(seq![lit1, lit2, lit3]),
    {
        let lits: Vec<i32> = vec![lit1, lit2, lit3];
        assert(lits@ =~= seq![lit1, lit2, lit3]);
        self.add_clause_n(lits.as_slice())
    }

    /// Takes in what a run of the solver ended in: a model goes to the
    /// caller, the verdict that there is none is remembered, a failed run
    /// leaves no trace. Variables, values and clauses are not touched.
    pub fn conclude(&mut self, outcome: SolveOutcome) -> (model: Option<Vec<i32>>)
        requires
            old(self).wf(),
        ensures
            final(self).wf(),
            final(self)@.assignment == old(self)@.assignment,
            final(self)@.clauses == old(self)@.clauses,
            final(self)@.refuted == (old(self)@.refuted || refutes_outcome(outcome)),
            model == model_of_outcome(outcome),
    {
        if refutes(&outcome) {
            self.refuted = true;
        }
        model_of(outcome)
    }

    /// Decides the formula. An instance that is known to be unsatisfiable has
    /// no model, and is not touched. Otherwise the solver is reset and run,
    /// and `conclude` takes in what the run ended in: the variables, the
    /// clauses and the values fixed so far stay. A model, if one comes back,
    /// has one entry for each variable (so its length fits the host's 32-bit
    /// array length), gives every variable with a fixed value that value,
    /// and satisfies every clause that was accepted.
    pub fn solve(&mut self) -> (model: Option<Vec<i32>>)
        requires
            old(self).wf(),
        ensures
            final(self).wf(),
            old(self)@.assignment.extended_by(final(self)@.assignment),
            final(self)@.clauses == old(self)@.clauses,
            old(self)@.refuted ==> model is None && final(self)@ == old(self)@,
            final(self)@.refuted ==> model is None,
            model matches Some(m) ==> {
                &&& is_model(m@, old(self)@.assignment.variables)
                &&& m@.len() <= MAX_VARIABLES
                &&& old(self)@.assignment.respected_by(m@)
                &&& final(self)@.assignment.respected_by(m@)
                &&& model_satisfies_all(m@, old(self)@.clauses)
            },
    {
        if self.refuted {
            return None;
        }
        solver_reset(&mut self.solver);
        let outcome = solver_solve(&mut self.solver);
        solver_reset(&mut self.solver);
        proof {
            if outcome is Sat {
                assert(solver_models(old(self).solver).contains(outcome->Sat_0@));
            }
        }
        self.conclude(outcome)
    }

    /// Releases the instance.
    pub fn destroy(self) {
    }
}

} // verus!
