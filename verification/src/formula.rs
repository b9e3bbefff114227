//! The model over which the contracts of an instance are stated.
//!
//! A clause is a sequence of literals; a literal is a non-zero `i32` whose
//! magnitude is the 1-based index of a variable and whose sign is the
//! polarity. A model is a sequence with one literal for each variable. Of a
//! solver the contracts see how many variables it has, which truth values it
//! has fixed, and which models it still has. Whether a clause is taken
//! depends on the first two alone: they make an [`Assignment`]. The clauses
//! that were accepted are kept by the instance, not by the solver.

use vstd::prelude::*;

verus! {

/// The largest number of variables an instance can hold. A literal travels as
/// an `i32`, and the solver folds it into `2 * index + 1`, which has to fit.
pub const MAX_VARIABLES: usize = 0x3FFF_FFFF;

/// How an attempt to add a clause ends.
#[derive(Clone, Copy, Debug, PartialEq, Eq, Structural)]
pub enum AddOutcome {
    /// The clause was taken.
    Added,
    /// Some entry is zero or names a variable that does not exist; nothing
    /// changed.
    Invalid,
    /// Every literal of the clause is already false (so, too, for the clause
    /// without literals): the formula cannot be satisfied.
    Contradiction,
}

/// The variable that a literal speaks of.
pub open spec fn variable_of(lit: i32) -> int {
    if lit < 0 {
        -lit
    } else {
        lit as int
    }
}

/// The truth value that makes a literal true.
pub open spec fn polarity_of(lit: i32) -> bool {
    lit > 0
}

/// The variables of a solver and the values fixed at its top level.
pub struct Assignment {
    /// The number of variables; they are numbered from 1.
    pub variables: nat,
    /// The truth value of each variable that has one.
    pub values: Map<int, bool>,
}

impl Assignment {
    /// No variable, no value.
    pub open spec fn empty() -> Assignment {
        Assignment { variables: 0, values: Map::empty() }
    }

    /// The count is within the limit and only existing variables have a value.
    pub open spec fn wf(self) -> bool {
        &&& self.variables <= MAX_VARIABLES
        &&& forall|v: int| #[trigger] self.values.dom().contains(v) ==> 1 <= v <= self.variables
    }

    /// `lit` is not zero and its variable exists.
    pub open spec fn is_literal(self, lit: i32) -> bool {
        lit != 0 && -self.variables <= lit <= self.variables
    }

    /// Every entry of `lits` is a literal.
    pub open spec fn is_clause(self, lits: Seq<i32>) -> bool {
        forall|i: int| 0 <= i < lits.len() ==> self.is_literal(#[trigger] lits[i])
    }

    /// The truth value of `lit`, if its variable has one.
    pub open spec fn value(self, lit: i32) -> Option<bool> {
        if self.values.dom().contains(variable_of(lit)) {
            Some(self.values[variable_of(lit)] == polarity_of(lit))
        } else {
            None
        }
    }

    /// Some literal of `lits` is true.
    pub open spec fn satisfies(self, lits: Seq<i32>) -> bool {
        exists|i: int| 0 <= i < lits.len() && self.value(#[trigger] lits[i]) == Some(true)
    }

    /// Every literal of `lits` is false.
    pub open spec fn falsifies(self, lits: Seq<i32>) -> bool {
        forall|i: int| 0 <= i < lits.len() ==> self.value(#[trigger] lits[i]) == Some(false)
    }

    /// How adding `lits` as a clause ends.
    pub open spec fn outcome(self, lits: Seq<i32>) -> AddOutcome {
        if !self.is_clause(lits) {
            AddOutcome::Invalid
        } else if self.falsifies(lits) {
            AddOutcome::Contradiction
        } else {
            AddOutcome::Added
        }
    }

    /// No literal of `lits` is true, and `lit` is the one literal of `lits`
    /// without a value: the clause can only hold if `lit` does.
    pub open spec fn forces(self, lits: Seq<i32>, lit: i32) -> bool {
        &&& !self.satisfies(lits)
        &&& lits.contains(lit)
        &&& self.value(lit) is None
        &&& forall|i: int|
            0 <= i < lits.len() && self.value(#[trigger] lits[i]) is None ==> lits[i] == lit
    }

    /// The assignment with `lit` made true.
    pub open spec fn with(self, lit: i32) -> Assignment {
        Assignment { values: self.values.insert(variable_of(lit), polarity_of(lit)), ..self }
    }

    /// The assignment after `lits` was offered as a clause. Only a clause that
    /// was taken and forces a literal changes it.
    pub open spec fn after_clause(self, lits: Seq<i32>) -> Assignment {
        if self.outcome(lits) == AddOutcome::Added && exists|lit: i32| self.forces(lits, lit) {
            self.with(choose|lit: i32| self.forces(lits, lit))
        } else {
            self
        }
    }

    /// How forcing the single literal `lit` ends.
    pub open spec fn outcome_of_literal(self, lit: i32) -> AddOutcome {
        if !self.is_literal(lit) {
            AddOutcome::Invalid
        } else if self.value(lit) == Some(false) {
            AddOutcome::Contradiction
        } else {
            AddOutcome::Added
        }
    }

    /// The assignment after `lit` was offered as a forced literal: a literal
    /// without a value becomes true, anything else changes nothing.
    pub open spec fn after_literal(self, lit: i32) -> Assignment {
        if self.is_literal(lit) && self.value(lit) is None {
            self.with(lit)
        } else {
            self
        }
    }

    /// The assignment after one more variable was added; the new variable has
    /// no value.
    pub open spec fn after_variable(self) -> Assignment {
        Assignment { variables: self.variables + 1, ..self }
    }

    /// `later` has the same variables and every value that `self` has.
    pub open spec fn extended_by(self, later: Assignment) -> bool {
        &&& later.variables == self.variables
        &&& forall|v: int| #[trigger]
            self.values.dom().contains(v) ==> later.values.dom().contains(v) && later.values[v]
                == self.values[v]
    }

    /// `model` gives every variable that has a value here that same value.
    pub open spec fn respected_by(self, model: Seq<i32>) -> bool {
        forall|v: int| #[trigger]
            self.values.dom().contains(v) ==> 1 <= v <= model.len() && polarity_of(model[v - 1])
                == self.values[v]
    }

    /// The index that the next variable gets.
    pub open spec fn next_variable(self) -> nat {
        self.variables + 1
    }
}

/// A clause forces at most one literal.
pub proof fn lemma_forced_literal_is_unique(a: Assignment, lits: Seq<i32>, x: i32, y: i32)
    requires
        a.forces(lits, x),
        a.forces(lits, y),
    ensures
        x == y,
{
    let i = choose|i: int| 0 <= i < lits.len() && lits[i] == x;
    assert(a.value(lits[i]) is None);
}

/// Offering a clause keeps an assignment well formed.
pub proof fn lemma_after_clause_wf(a: Assignment, lits: Seq<i32>)
    requires
        a.wf(),
    ensures
        a.after_clause(lits).wf(),
        a.after_clause(lits).variables == a.variables,
{
    if a.outcome(lits) == AddOutcome::Added && exists|lit: i32| a.forces(lits, lit) {
        let lit = choose|lit: i32| a.forces(lits, lit);
        let i = choose|i: int| 0 <= i < lits.len() && lits[i] == lit;
        assert(a.is_literal(lits[i]));
    }
}

/// Offering a forced literal keeps an assignment well formed.
pub proof fn lemma_after_literal_wf(a: Assignment, lit: i32)
    requires
        a.wf(),
    ensures
        a.after_literal(lit).wf(),
        a.after_literal(lit).variables == a.variables,
{
}

/// A clause of one literal behaves as that literal forced.
pub proof fn lemma_clause_of_one(a: Assignment, lit: i32)
    ensures
        a.outcome(seq![lit]) == a.outcome_of_literal(lit),
        a.after_clause(seq![lit]) == a.after_literal(lit),
{
    let lits = seq![lit];
    assert(lits.len() == 1 && lits[0] == lit);
    if a.is_literal(lit) {
        assert(a.is_clause(lits));
        if a.value(lit) == Some(false) {
            assert(a.falsifies(lits));
        } else {
            assert(a.value(lits[0]) != Some(false));
            assert(!a.falsifies(lits));
            if a.value(lit) is None {
                assert(a.forces(lits, lit));
                let chosen = choose|l: i32| a.forces(lits, l);
                lemma_forced_literal_is_unique(a, lits, lit, chosen);
            } else {
                assert(a.satisfies(lits));
            }
        }
    } else {
        assert(!a.is_literal(lits[0]));
    }
}

/// What a run of the solver ends in.
pub enum SolveOutcome {
    /// The formula is satisfiable, and this is a model.
    Sat(Vec<i32>),
    /// The formula is unsatisfiable.
    Unsat,
    /// The solver gave up or failed.
    Failed,
}

/// `model` has one entry for each of `variables` variables, in their order:
/// the variable's index where it is true, the negated index where it is false.
pub open spec fn is_model(model: Seq<i32>, variables: nat) -> bool {
    &&& model.len() == variables
    &&& forall|i: int| 0 <= i < model.len() ==> variable_of(#[trigger] model[i]) == i + 1
}

/// `model` makes `lit` true: its entry for the variable of `lit` is `lit`.
pub open spec fn model_holds(model: Seq<i32>, lit: i32) -> bool {
    1 <= variable_of(lit) <= model.len() && model[variable_of(lit) - 1] == lit
}

/// `model` makes some literal of `lits` true.
pub open spec fn model_satisfies(model: Seq<i32>, lits: Seq<i32>) -> bool {
    exists|i: int| 0 <= i < lits.len() && model_holds(model, #[trigger] lits[i])
}

/// `model` satisfies every clause of `clauses`.
pub open spec fn model_satisfies_all(model: Seq<i32>, clauses: Seq<Seq<i32>>) -> bool {
    forall|i: int| 0 <= i < clauses.len() ==> model_satisfies(model, #[trigger] clauses[i])
}

/// `after` holds those members of `before` that satisfy `lits`, where the
/// clause was taken, and all of them where it was not.
pub open spec fn models_after_clause(
    before: Set<Seq<i32>>,
    after: Set<Seq<i32>>,
    outcome: AddOutcome,
    lits: Seq<i32>,
) -> bool {
    forall|m: Seq<i32>| #[trigger]
        after.contains(m) <==> before.contains(m) && (outcome == AddOutcome::Added
            ==> model_satisfies(m, lits))
}

/// `after` holds the members of `before`, each with one more entry at its
/// end, for the variable after the `variables` there were, of either sign.
pub open spec fn models_after_variable(
    before: Set<Seq<i32>>,
    after: Set<Seq<i32>>,
    variables: nat,
) -> bool {
    forall|m: Seq<i32>| #[trigger]
        after.contains(m) <==> m.len() == variables + 1 && variable_of(m.last()) == variables + 1
            && before.contains(m.drop_last())
}

/// A model that is made longer by one entry still satisfies what it
/// satisfied.
pub proof fn lemma_longer_model_satisfies(model: Seq<i32>, clauses: Seq<Seq<i32>>)
    requires
        model.len() >= 1,
        model_satisfies_all(model.drop_last(), clauses),
    ensures
        model_satisfies_all(model, clauses),
{
    let shorter = model.drop_last();
    assert forall|i: int| 0 <= i < clauses.len() implies model_satisfies(
        model,
        #[trigger] clauses[i],
    ) by {
        let lits = clauses[i];
        assert(model_satisfies(shorter, lits));
        let j = choose|j: int| 0 <= j < lits.len() && model_holds(shorter, #[trigger] lits[j]);
        assert(shorter[variable_of(lits[j]) - 1] == model[variable_of(lits[j]) - 1]);
        assert(model_holds(model, lits[j]));
    }
}

/// The clauses taken so far, with `lits` at the end where it was taken.
pub open spec fn clauses_after(
    clauses: Seq<Seq<i32>>,
    outcome: AddOutcome,
    lits: Seq<i32>,
) -> Seq<Seq<i32>> {
    if outcome == AddOutcome::Added {
        clauses.push(lits)
    } else {
        clauses
    }
}

} // verus!
