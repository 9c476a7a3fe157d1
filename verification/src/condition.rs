//! Condition builder helpers.
use vstd::prelude::*;

use crate::identity::{Fact, FactId};
use crate::policy_model::{conds_of, lemma_condition_list_view, Condition, ConditionView};

verus! {

/// Builds a condition that always succeeds.
pub fn always() -> (c: Condition)
    ensures
        c@ == ConditionView::Always,
{
    Condition::Always
}

/// Builds a condition that always fails.
pub fn never() -> (c: Condition)
    ensures
        c@ == ConditionView::Never,
{
    Condition::Never
}

/// Builds a condition requiring a typed fact.
pub fn has<F: Fact>() -> (c: Condition)
    ensures
        c@ == ConditionView::Has(F::spec_id()),
{
    let id = F::id();
    Condition::Has(FactId::from_trusted(id.as_str()))
}

/// Builds a condition requiring a runtime fact identifier.
pub fn has_id(fact: FactId) -> (c: Condition)
    ensures
        c@ == ConditionView::Has(fact@),
{
    Condition::Has(fact)
}

/// Builds a negated condition.
pub fn not(condition: Condition) -> (c: Condition)
    ensures
        c@ == ConditionView::Not(Box::new(condition@)),
{
    Condition::Not(Box::new(condition))
}

/// Builds a conjunction. Empty input fails closed.
pub fn all(conditions: Vec<Condition>) -> (c: Condition)
    ensures
        conditions@.len() == 0 ==> c@ == ConditionView::Never,
        conditions@.len() > 0 ==> c@ == ConditionView::All(conds_of(conditions@)),
{
    if conditions.len() == 0 {
        Condition::Never
    } else {
        proof {
            lemma_condition_list_view(conditions);
        }
        Condition::All(conditions)
    }
}

/// Builds a disjunction. Empty input fails closed.
pub fn any(conditions: Vec<Condition>) -> (c: Condition)
    ensures
        conditions@.len() == 0 ==> c@ == ConditionView::Never,
        conditions@.len() > 0 ==> c@ == ConditionView::Any(conds_of(conditions@)),
{
    if conditions.len() == 0 {
        Condition::Never
    } else {
        proof {
            lemma_condition_list_view(conditions);
        }
        Condition::Any(conditions)
    }
}

} // verus!
