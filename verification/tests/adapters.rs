//! Tenant identity contract shared with audit storage.

use gatekeep::TenantId;

#[test]
fn tenant_id_uses_dovecote_string_contract() {
    assert!(matches!(
        TenantId::new(""),
        Err(gatekeep::GatekeepError::EmptyIdentifier { field: "tenant_id" })
    ));
    assert!(matches!(
        TenantId::new("   "),
        Err(gatekeep::GatekeepError::EmptyIdentifier { field: "tenant_id" })
    ));
    assert!(matches!(
        TenantId::new(&"x".repeat(gatekeep::MAX_TENANT_ID_BYTES + 1)),
        Err(gatekeep::GatekeepError::TenantIdTooLong { .. })
    ));
    assert!(TenantId::new(&"é".repeat(127)).is_ok());
    assert!(matches!(
        TenantId::new(&"é".repeat(128)),
        Err(gatekeep::GatekeepError::TenantIdTooLong { .. })
    ));
    assert!(matches!(
        TenantId::new("line\nbreak"),
        Err(gatekeep::GatekeepError::TenantIdControlCharacter { .. })
    ));
    assert!(matches!(
        TenantId::new("noncharacter\u{FDD0}"),
        Err(gatekeep::GatekeepError::TenantIdNoncharacter { .. })
    ));
}
