//! Authoring diagnostics distinguish authority, explanations and retained evidence.

use gatekeep::testing::{check_lattice, compare_scenario};
use gatekeep::{condition, policy, Fact, KnownFacts, StaticFactId};

struct Owner;
impl Fact for Owner {
    fn id() -> StaticFactId {
        StaticFactId::new("owner")
    }
}

#[test]
fn comparison_distinguishes_relabeling_from_broader_authority() -> Result<(), gatekeep::GatekeepError>
{
    let original = policy::grant_clause((), condition::has::<Owner>())
        .try_labeled("owner")?
        .into_policy();
    let relabeled = policy::grant_clause((), condition::has::<Owner>())
        .try_labeled("ownership")?
        .into_policy();
    let present = KnownFacts::new().with_bool::<Owner>(true);
    let labels = compare_scenario(&original, &relabeled, &present);
    assert!(!labels.authority_changed());
    assert!(labels.explanation_changed());
    let absent = KnownFacts::new().with_bool::<Owner>(false);
    let broadened = compare_scenario(&original, &policy::permit(()), &absent);
    assert!(broadened.authority_changed());
    Ok(())
}

#[test]
fn finite_lattice_checks_reject_incomplete_domains() {
    assert!(check_lattice(&[()]).is_ok());
    assert_eq!(
        check_lattice::<()>(&[]).map_err(|error| error.law),
        Err("listed bounds")
    );
}
