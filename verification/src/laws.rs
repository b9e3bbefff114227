//! What holds of an instance whatever was done with it, stated over the model
//! in which the operations' contracts are written.

use crate::formula::{
    is_model, model_holds, model_satisfies, model_satisfies_all, variable_of, AddOutcome,
    Assignment, MAX_VARIABLES,
};
use crate::instance::State;
use vstd::prelude::*;

verus! {

/// The literal of the other polarity.
pub open spec fn complement(lit: i32) -> i32 {
    (0 - lit) as i32
}

/// Adding variables adds to the count, and changes nothing else.
pub proof fn lemma_after_variables(s: State, count: nat)
    ensures
        s.after_variables(count).assignment.variables == s.assignment.variables + count,
        s.after_variables(count).assignment.values == s.assignment.values,
        s.after_variables(count).clauses == s.clauses,
        s.after_variables(count).refuted == s.refuted,
    decreases count,
{
    if count > 0 {
        lemma_after_variables(s, (count - 1) as nat);
    }
}

/// After `count` variables were added to a new instance, it has `count`
/// variables.
pub proof fn law_variables_are_counted(count: nat)
    ensures
        State::fresh().after_variables(count).assignment.variables == count,
{
    lemma_after_variables(State::fresh(), count);
}

/// The `nth` variable added to a new instance gets the index `nth`.
pub proof fn law_variables_are_numbered(nth: nat)
    requires
        nth >= 1,
    ensures
        State::fresh().after_variables((nth - 1) as nat).assignment.next_variable() == nth,
{
    lemma_after_variables(State::fresh(), (nth - 1) as nat);
}

/// Up to the limit, the `nth` variable is granted: the new instance with
/// `nth - 1` variables is well formed and not full, and the next index, which
/// is `nth`, fits the host's 32-bit integer.
pub proof fn law_variables_are_granted_up_to_the_limit(nth: nat)
    requires
        1 <= nth <= MAX_VARIABLES,
    ensures
        State::fresh().after_variables((nth - 1) as nat).assignment.wf(),
        State::fresh().after_variables((nth - 1) as nat).assignment.variables < MAX_VARIABLES,
        State::fresh().after_variables((nth - 1) as nat).assignment.next_variable() as i32 == nth,
{
    lemma_after_variables(State::fresh(), (nth - 1) as nat);
}

/// A variable that was just added has no value: either of its literals can
/// still be forced.
pub proof fn law_new_variable_is_free(s: State)
    requires
        s.assignment.wf(),
    ensures
        s.after_variable().accepts(seq![s.assignment.next_variable() as i32]),
        s.after_variable().accepts(seq![complement(s.assignment.next_variable() as i32)]),
{
    let t = s.after_variable();
    let lit = s.assignment.next_variable() as i32;
    assert(!t.assignment.values.dom().contains(variable_of(lit)));
    crate::formula::lemma_clause_of_one(t.assignment, lit);
    crate::formula::lemma_clause_of_one(t.assignment, complement(lit));
}

/// Once a literal was accepted as a clause, the clause of its complement is
/// refused as a contradiction.
pub proof fn law_complement_is_refused(s: State, lit: i32)
    requires
        s.assignment.wf(),
        s.accepts(seq![lit]),
    ensures
        s.after_clause(seq![lit]).assignment.outcome(seq![complement(lit)])
            == AddOutcome::Contradiction,
        !s.after_clause(seq![lit]).accepts(seq![complement(lit)]),
{
    let a = s.assignment;
    crate::formula::lemma_clause_of_one(a, lit);
    crate::formula::lemma_clause_of_one(a.after_clause(seq![lit]), complement(lit));
}

/// A literal and its complement, offered one after the other, leave the
/// instance refuted, whatever it held before.
pub proof fn law_literal_and_complement_refute(s: State, lit: i32)
    requires
        s.assignment.wf(),
        s.assignment.is_literal(lit),
    ensures
        s.after_clause(seq![lit]).after_clause(seq![complement(lit)]).refuted,
{
    let a = s.assignment;
    crate::formula::lemma_clause_of_one(a, lit);
    crate::formula::lemma_clause_of_one(a.after_clause(seq![lit]), complement(lit));
}

/// The clause without literals is refused and leaves the instance refuted.
pub proof fn law_empty_clause_refutes(s: State)
    ensures
        !s.accepts(Seq::empty()),
        s.after_clause(Seq::empty()).refuted,
        s.after_clause(Seq::empty()).assignment == s.assignment,
{
    let lits = Seq::<i32>::empty();
    assert(s.assignment.is_clause(lits));
    assert(s.assignment.falsifies(lits));
}

/// A clause that is refused as invalid changes nothing.
pub proof fn law_invalid_clause_changes_nothing(s: State, lits: Seq<i32>)
    requires
        !s.assignment.is_clause(lits),
    ensures
        !s.accepts(lits),
        s.after_clause(lits) == s,
{
}

/// No operation on an instance takes a refutation back.
pub proof fn law_refuted_stays(s: State, lits: Seq<i32>, count: nat)
    requires
        s.refuted,
    ensures
        s.after_clause(lits).refuted,
        s.after_variables(count).refuted,
{
    lemma_after_variables(s, count);
}

/// What was true stays true: offering a clause never changes the value that
/// a variable already has.
pub proof fn law_values_are_kept(s: State, lits: Seq<i32>, lit: i32)
    requires
        s.assignment.value(lit) is Some,
    ensures
        s.after_clause(lits).assignment.value(lit) == s.assignment.value(lit),
{
    let a = s.assignment;
    if a.outcome(lits) == AddOutcome::Added && exists|l: i32| a.forces(lits, l) {
        let l = choose|l: i32| a.forces(lits, l);
        assert(a.value(l) is None);
    }
}

/// Every entry of a model is a literal of the instance it came from, and the
/// entry at position `i` speaks of variable `i + 1`.
pub proof fn law_model_is_made_of_literals(a: Assignment, model: Seq<i32>)
    requires
        a.wf(),
        is_model(model, a.variables),
    ensures
        a.is_clause(model),
        model.len() <= i32::MAX,
{
    assert forall|i: int| 0 <= i < model.len() implies a.is_literal(#[trigger] model[i]) by {
        assert(variable_of(model[i]) == i + 1);
    }
}

/// A literal that is true in an assignment is true in every model that
/// respects the assignment.
pub proof fn law_true_literal_holds_in_model(a: Assignment, model: Seq<i32>, lit: i32)
    requires
        a.wf(),
        is_model(model, a.variables),
        a.respected_by(model),
        a.value(lit) == Some(true),
    ensures
        model_holds(model, lit),
{
    let v = variable_of(lit);
    assert(a.values.dom().contains(v));
    assert(variable_of(model[v - 1]) == v);
}

/// A literal that was accepted as a clause holds in every model of the
/// instance as it then stands.
pub proof fn law_accepted_literal_holds_in_model(s: State, lit: i32, model: Seq<i32>)
    requires
        s.assignment.wf(),
        s.accepts(seq![lit]),
        is_model(model, s.assignment.variables),
        s.after_clause(seq![lit]).assignment.respected_by(model),
    ensures
        model_holds(model, lit),
{
    let a = s.assignment;
    crate::formula::lemma_clause_of_one(a, lit);
    crate::formula::lemma_after_literal_wf(a, lit);
    law_true_literal_holds_in_model(a.after_literal(lit), model, lit);
}

/// A clause that the fixed values already satisfy holds in every model that
/// respects them.
pub proof fn law_satisfied_clause_holds_in_model(a: Assignment, model: Seq<i32>, lits: Seq<i32>)
    requires
        a.wf(),
        is_model(model, a.variables),
        a.respected_by(model),
        a.satisfies(lits),
    ensures
        model_satisfies(model, lits),
{
    let i = choose|i: int| 0 <= i < lits.len() && a.value(#[trigger] lits[i]) == Some(true);
    law_true_literal_holds_in_model(a, model, lits[i]);
}

/// A clause that forces a literal holds in every model of the instance as it
/// stands after the clause was added.
pub proof fn law_forcing_clause_holds_in_model(
    s: State,
    lits: Seq<i32>,
    lit: i32,
    model: Seq<i32>,
)
    requires
        s.assignment.wf(),
        s.accepts(lits),
        s.assignment.forces(lits, lit),
        is_model(model, s.assignment.variables),
        s.after_clause(lits).assignment.respected_by(model),
    ensures
        model_holds(model, lit),
        model_satisfies(model, lits),
{
    let a = s.assignment;
    let chosen = choose|l: i32| a.forces(lits, l);
    crate::formula::lemma_forced_literal_is_unique(a, lits, lit, chosen);
    crate::formula::lemma_after_clause_wf(a, lits);
    let i = choose|i: int| 0 <= i < lits.len() && lits[i] == lit;
    assert(a.is_literal(lits[i]));
    law_true_literal_holds_in_model(a.after_clause(lits), model, lit);
    assert(model_holds(model, lits[i]));
}

/// A clause joins the formula exactly when it is accepted, and then it comes
/// last; clauses that were there stay.
pub proof fn law_accepted_clause_joins_formula(s: State, lits: Seq<i32>)
    ensures
        s.accepts(lits) ==> s.after_clause(lits).clauses == s.clauses.push(lits),
        !s.accepts(lits) ==> s.after_clause(lits).clauses == s.clauses,
        forall|i: int| 0 <= i < s.clauses.len() ==> s.after_clause(lits).clauses[i] == s.clauses[i],
{
}

/// A model that satisfies the formula as it stands after a clause was
/// accepted satisfies that clause, and every clause accepted before it.
pub proof fn law_model_satisfies_accepted_clause(s: State, lits: Seq<i32>, model: Seq<i32>)
    requires
        s.accepts(lits),
        model_satisfies_all(model, s.after_clause(lits).clauses),
    ensures
        model_satisfies(model, lits),
        model_satisfies_all(model, s.clauses),
{
    let after = s.after_clause(lits).clauses;
    assert(after[s.clauses.len() as int] == lits);
    assert forall|i: int| 0 <= i < s.clauses.len() implies model_satisfies(
        model,
        #[trigger] s.clauses[i],
    ) by {
        assert(after[i] == s.clauses[i]);
    }
}

/// Values that a model respects are respected wherever that model respects
/// an extension of them.
pub proof fn law_model_of_extension_respects(a: Assignment, later: Assignment, model: Seq<i32>)
    requires
        a.extended_by(later),
        later.respected_by(model),
    ensures
        a.respected_by(model),
{
}

} // verus!
