//! Identity-boundary validation tests.

use gatekeep::{DecisionAuditId, GatekeepError, SubjectRef};

#[test]
fn decision_audit_ids_reject_only_the_reserved_legacy_prefix() -> Result<(), GatekeepError> {
    assert_eq!(
        DecisionAuditId::new("legacy-123"),
        Err(GatekeepError::ReservedIdentifierPrefix {
            field: "decision_audit_id",
            prefix: "legacy-",
        })
    );
    assert!(DecisionAuditId::new("Legacy-123").is_ok());
    assert!(DecisionAuditId::new("legacy").is_ok());
    assert!(DecisionAuditId::new("legacy--123").is_err());
    let legacy = DecisionAuditId::from_legacy_import("legacy-outbox-123")?;
    assert_eq!(legacy.as_str(), "legacy-outbox-123");
    Ok(())
}

#[test]
fn subject_ref_constructor_rejects_empty_parts() {
    assert_eq!(
        SubjectRef::new("", "alice"),
        Err(GatekeepError::EmptyIdentifier {
            field: "subject_kind"
        })
    );
    assert_eq!(
        SubjectRef::new("user", " "),
        Err(GatekeepError::EmptyIdentifier {
            field: "subject_id"
        })
    );
}

#[test]
fn subject_ref_keeps_valid_parts() -> Result<(), GatekeepError> {
    let subject = SubjectRef::new("user", "alice")?;

    assert_eq!(subject.kind(), "user");
    assert_eq!(subject.id(), "alice");
    Ok(())
}
