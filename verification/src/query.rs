//! Lowering residual policies into backend queries.
use vstd::prelude::*;

use crate::context::Context;
use crate::identity::FactId;
use crate::policy_model::ResidualPolicy;

verus! {

/// Backend filter and grade projection produced by query lowering.
#[derive(Clone, Debug, PartialEq, Eq)]
pub struct Lowered<F, P> {
    /// Boolean filter selecting authorized rows.
    pub filter: F,
    /// Projection computing the row's granted outcome.
    pub grade: P,
}

/// Error returned by query-lowering adapters.
#[derive(Debug, Clone, PartialEq, Eq)]
pub enum LowerError {
    /// A residual fact has no backend predicate.
    Unlowerable(FactId),
    /// The outcome lattice cannot be represented as a total-order projection.
    NonTotalGrade,
}

/// Lowers a residual policy into a backend filter and grade projection.
pub trait QueryLowering<O> {
    /// Backend-specific boolean filter type.
    type Filter;
    /// Backend-specific grade projection type.
    type Projection;

    /// Lowers a residual policy for an authorized-list query; fails when a
    /// residual fact has no backend mapping or the outcome lattice cannot be
    /// projected by the backend.
    fn lower(&self, residual: &ResidualPolicy<O>, cx: &Context) -> Result<Lowered<Self::Filter, Self::Projection>, LowerError>;
}

} // verus!
