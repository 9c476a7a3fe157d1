//! Folds, builders and static identifiers on concrete values.

use gatekeep::{
    condition, partial_evaluate, policy, Fact, GatekeepError, ObligationSpec, PartialFacts,
    ReasonCode, Residual, ResidualPolicy, ResidualPolicyNode, StaticFactId, StaticObligationId,
    StaticTenantId,
};

struct Owner;
impl Fact for Owner {
    fn id() -> StaticFactId {
        StaticFactId::new("owner")
    }
}

struct Member;
impl Fact for Member {
    fn id() -> StaticFactId {
        StaticFactId::new("member")
    }
}

struct Notify;
impl ObligationSpec for Notify {
    fn id() -> StaticObligationId {
        StaticObligationId::new("notify")
    }
}

fn size(node: ResidualPolicyNode<'_, (), usize>) -> usize {
    match node {
        ResidualPolicyNode::All { arms, .. } | ResidualPolicyNode::Any { arms, .. } => {
            1 + arms.iter().sum::<usize>()
        }
        ResidualPolicyNode::OrElse { primary, fallback, .. } => 1 + primary + fallback.unwrap_or(0),
        _ => 1,
    }
}

fn pending_residual() -> Result<ResidualPolicy<()>, String> {
    let policy = policy::or_else(
        policy::all(vec![
            policy::grant((), condition::has::<Owner>()),
            policy::grant((), condition::has::<Member>()),
        ]),
        policy::any(vec![policy::grant((), condition::has::<Member>()), policy::deny()]),
    );
    match partial_evaluate(&policy, &PartialFacts::new().with_unknown::<Owner>().with_unknown::<Member>()) {
        Residual::Pending { residual, .. } => Ok(residual),
        Residual::Resolved(_) => Err("expected a pending residual".to_owned()),
    }
}

#[test]
fn descending_pruned_fold_equals_try_fold() -> Result<(), String> {
    let residual = pending_residual()?;
    let plain: Result<usize, ()> = residual.try_fold(&mut |n| Ok(size(n)));
    let pruned: Result<usize, ()> = residual.try_fold_pruned(&mut |_b| true, &mut |n| Ok(size(n)));
    assert_eq!(plain, pruned);
    assert_eq!(plain, Ok(7));
    let skipped: Result<usize, ()> = residual.try_fold_pruned(&mut |_b| false, &mut |n| Ok(size(n)));
    assert_eq!(skipped, Ok(4));
    Ok(())
}

#[test]
fn infallible_try_fold_equals_fold() -> Result<(), String> {
    let residual = pending_residual()?;
    let folded = residual.fold(&mut size);
    let tried: Result<usize, ()> = residual.try_fold(&mut |n| Ok(size(n)));
    assert_eq!(tried, Ok(folded));
    Ok(())
}

#[test]
fn grant_builder_matches_policy_builder() -> Result<(), String> {
    let label = gatekeep::ClauseLabel::new("owner_only").map_err(|e| format!("{e:?}"))?;
    let reason = ReasonCode::new("not_owner").map_err(|e| format!("{e:?}"))?;
    let built = policy::grant_clause((), condition::has::<Owner>())
        .labeled(label.clone())
        .reason(reason.clone())
        .hidden()
        .with_obligation::<Notify>()
        .into_policy();
    let chained = policy::grant((), condition::has::<Owner>())
        .labeled(label)
        .reason(reason)
        .hidden()
        .with_obligation::<Notify>();
    assert!(built == chained);
    assert!(
        policy::grant_clause((), condition::has::<Owner>()).into_policy()
            == policy::grant((), condition::has::<Owner>())
    );
    Ok(())
}

#[test]
fn static_identifiers_have_checked_constructors() {
    assert_eq!(StaticFactId::try_new("owner").map(StaticFactId::as_str), Ok("owner"));
    assert_eq!(
        StaticFactId::try_new(" \u{3000}").map(StaticFactId::as_str),
        Err(GatekeepError::EmptyIdentifier { field: "fact_id" })
    );
    assert_eq!(StaticTenantId::try_new("tenant_a").map(StaticTenantId::as_str), Ok("tenant_a"));
    assert!(StaticTenantId::try_new("tenant\u{85}").is_err());
    assert!(StaticTenantId::try_new("").is_err());
}
