use vstd::prelude::*;

use crate::facts::Presence;
use crate::evaluate::{copy_facts, copy_label, copy_obligations, copy_outcome, copy_reads, copy_reason};
use crate::identity::{ClauseLabel, FactId, ObligationId, ReasonCode};
use crate::policy_model::Lattice;

verus! {

/// Disclosure shape for a denied grant.
#[derive(Clone, Copy, Debug, PartialEq, Eq, Structural)]
pub enum DenyShape {
    /// The denial may disclose that the protected resource exists.
    Forbidden,
    /// The denial should be presented as if the protected resource does not exist.
    Hidden,
}

/// Permit or deny effect produced by evaluation.
#[derive(Clone, Debug, PartialEq, Eq)]
pub enum Effect<O> {
    /// Policy permitted with an outcome grade.
    Permit(O),
    /// Policy denied.
    Deny,
}

/// Typed decisive clause.
#[derive(Clone, Debug, PartialEq, Eq)]
pub enum DecisiveClause<O> {
    /// Permit clause that fixed the decision.
    Permit {
        /// Granted outcome.
        granted: O,
        /// Facts that satisfied the deciding condition.
        satisfied: Vec<FactId>,
        /// Optional stable clause label.
        label: Option<ClauseLabel>,
    },
    /// Deny clause that fixed the decision.
    Deny {
        /// Outcome requested by the denied grant, when one exists.
        denied: Option<O>,
        /// Facts that caused the deciding condition to fail.
        unsatisfied: Vec<FactId>,
        /// Optional stable clause label.
        label: Option<ClauseLabel>,
        /// Optional stable reason code.
        reason: Option<ReasonCode>,
        /// Disclosure shape for presentation.
        shape: DenyShape,
    },
}

/// Mathematical view of a decisive clause; identifiers are named by their text.
#[verifier::ext_equal]
pub enum DecisiveView<O> {
    /// Permit clause that fixed the decision.
    Permit { granted: O, satisfied: Seq<Seq<char>>, label: Option<Seq<char>> },
    /// Deny clause that fixed the decision.
    Deny {
        denied: Option<O>,
        unsatisfied: Seq<Seq<char>>,
        label: Option<Seq<char>>,
        reason: Option<Seq<char>>,
        shape: DenyShape,
    },
}

impl<O> View for DecisiveClause<O> {
    type V = DecisiveView<O>;

    open spec fn view(&self) -> DecisiveView<O> {
        match self {
            DecisiveClause::Permit { granted, satisfied, label } => DecisiveView::Permit {
                granted: *granted,
                satisfied: satisfied.deep_view(),
                label: label.deep_view(),
            },
            DecisiveClause::Deny { denied, unsatisfied, label, reason, shape } => DecisiveView::Deny {
                denied: *denied,
                unsatisfied: unsatisfied.deep_view(),
                label: label.deep_view(),
                reason: reason.deep_view(),
                shape: *shape,
            },
        }
    }
}

/// Typed trace produced by pure evaluation.
#[derive(Clone, Debug, PartialEq, Eq)]
pub struct DecisionTrace<O> {
    /// Facts read by the evaluator in first-read order.
    pub consulted: Vec<(FactId, Presence)>,
    /// Clause that fixed the decision effect.
    pub decisive: DecisiveClause<O>,
}

/// Structured policy decision with obligations and a typed trace.
#[derive(Clone, Debug, PartialEq, Eq)]
pub struct Decision<O> {
    /// Permit or deny effect.
    pub effect: Effect<O>,
    /// Obligations attached to the decisive permit path.
    pub obligations: Vec<ObligationId>,
    /// Typed trace returned by pure evaluation.
    pub trace: DecisionTrace<O>,
}

/// Mathematical view of a decision.
#[verifier::ext_equal]
pub struct DecisionView<O> {
    pub effect: Effect<O>,
    pub obligations: Seq<Seq<char>>,
    pub consulted: Seq<(Seq<char>, Presence)>,
    pub decisive: DecisiveView<O>,
}

impl<O> View for Decision<O> {
    type V = DecisionView<O>;

    open spec fn view(&self) -> DecisionView<O> {
        DecisionView {
            effect: self.effect,
            obligations: self.obligations.deep_view(),
            consulted: self.trace.consulted.deep_view(),
            decisive: self.trace.decisive@,
        }
    }
}

impl<O> Decision<O> {
    /// Returns true when the decision is a permit.
    pub fn is_permit(&self) -> (b: bool)
        ensures
            b == (self.effect is Permit),
    {
        match self.effect {
            Effect::Permit(_) => true,
            Effect::Deny => false,
        }
    }
}


impl<O: Lattice> Effect<O> {
    /// Returns an equal copy of this effect.
    pub fn duplicate(&self) -> (e: Self)
        ensures
            e == *self,
    {
        match self {
            Effect::Permit(o) => Effect::Permit(o.duplicate()),
            Effect::Deny => Effect::Deny,
        }
    }
}

impl<O: Lattice> DecisiveClause<O> {
    /// Returns an equal copy of this clause.
    pub fn duplicate(&self) -> (c: Self)
        ensures
            c@ == self@,
    {
        match self {
            DecisiveClause::Permit { granted, satisfied, label } => DecisiveClause::Permit {
                granted: granted.duplicate(),
                satisfied: copy_facts(satisfied),
                label: copy_label(label),
            },
            DecisiveClause::Deny { denied, unsatisfied, label, reason, shape } => DecisiveClause::Deny {
                denied: copy_outcome(denied),
                unsatisfied: copy_facts(unsatisfied),
                label: copy_label(label),
                reason: copy_reason(reason),
                shape: *shape,
            },
        }
    }
}

impl<O: Lattice> Decision<O> {
    /// Returns an equal copy of this decision.
    pub fn duplicate(&self) -> (d: Self)
        ensures
            d@ == self@,
    {
        Decision {
            effect: self.effect.duplicate(),
            obligations: copy_obligations(&self.obligations),
            trace: DecisionTrace {
                consulted: copy_reads(&self.trace.consulted),
                decisive: self.trace.decisive.duplicate(),
            },
        }
    }
}

} // verus!
