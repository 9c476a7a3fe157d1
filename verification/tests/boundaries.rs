//! Tenant, context, resolution, occurrence, audit and replay boundaries.

use gatekeep::{
    condition, evaluate, policy, ApplicationVerifiedTenantBinding, AuditEntry, AuditEntryError,
    BindingAuthority, BindingProvenance, Context, ContextError, DecisionAuditId,
    DecisionAuditOccurrence, DecisionAuditOccurrenceError, DecisiveClause, EffectKind,
    EvidenceDigest, Fact, FactId, FactObservation, FactResolution, FactResolutionError,
    FactResolutionEvidence, FactResolutionMetadata, KnownFacts, LegacyAuditEntry,
    LegacyPolicyAnchor, Locale, ObservationError, PendingDecision, PolicyAdvice, PolicyAnchor,
    PolicyHash, PolicyId, PreparedPolicy, Presence, ReplayError, StaticFactId, SubjectRef,
    SubjectSlot, TenantBinding, TenantBindingError, TenantBindingEvidence, TenantId, Timestamp,
    TrustedServiceBinding,
};
use time::OffsetDateTime;

fn ok<T, E: std::fmt::Debug>(r: Result<T, E>) -> Result<T, String> {
    r.map_err(|e| format!("{e:?}"))
}

fn ts(t: OffsetDateTime) -> Timestamp {
    Timestamp {
        unix_seconds: t.unix_timestamp(),
        nanosecond: t.nanosecond(),
        offset_seconds: t.offset().whole_seconds(),
    }
}

fn issuer_evidence(at: OffsetDateTime) -> Result<TenantBindingEvidence, String> {
    Ok(TenantBindingEvidence::new(
        BindingAuthority::Issuer {
            issuer: ok(BindingProvenance::new("test"))?,
            key_id: None,
        },
        ts(at),
        EvidenceDigest::new([0; 32]),
    ))
}

struct Owner;
impl Fact for Owner {
    fn id() -> StaticFactId {
        StaticFactId::new("owner")
    }
}

#[test]
fn fact_resolution_rejects_invalid_or_expired_freshness() -> Result<(), String> {
    let observed_at = OffsetDateTime::UNIX_EPOCH + time::Duration::hours(2);
    let fresh_until = observed_at - time::Duration::hours(1);
    let source = ok(BindingProvenance::new("test.facts"))?;
    let metadata = FactResolutionMetadata::new(source, None, Some(ts(fresh_until)));

    assert!(matches!(
        FactResolution::new(KnownFacts::new(), Some(metadata), ts(observed_at)),
        Err(FactResolutionError::InvalidFreshnessWindow { .. })
    ));

    let fresh_until = observed_at + time::Duration::hours(1);
    let metadata = FactResolutionMetadata::new(
        ok(BindingProvenance::new("test.facts"))?,
        None,
        Some(ts(fresh_until)),
    );
    let resolution = ok(FactResolution::new(KnownFacts::new(), Some(metadata), ts(observed_at)))?;
    assert!(matches!(
        resolution.validate_at(ts(fresh_until)),
        Err(FactResolutionError::Expired { .. })
    ));

    let observed_at = OffsetDateTime::UNIX_EPOCH + time::Duration::hours(3);
    let received_at = observed_at - time::Duration::minutes(1);
    let resolution = ok(FactResolution::new(KnownFacts::new(), None, ts(observed_at)))?;
    assert!(matches!(
        resolution.validate_at(ts(received_at)),
        Err(FactResolutionError::ObservedInFuture { .. })
    ));
    Ok(())
}

#[test]
fn context_rejects_mismatched_tenant_binding() -> Result<(), String> {
    let now = OffsetDateTime::UNIX_EPOCH;
    let binding = ok(ApplicationVerifiedTenantBinding::new(
        ok(TenantId::new("tenant_a"))?,
        issuer_evidence(now)?,
        ts(now),
        ts(now + time::Duration::hours(1)),
    ))?;

    let result = Context::new_at(
        ok(TenantId::new("tenant_b"))?,
        TenantBinding::ApplicationVerified(binding),
        ok(SubjectRef::new("user", "mari"))?,
        ok(Locale::new("en-US"))?,
        ts(now),
    );

    assert!(matches!(result, Err(ContextError::TenantMismatch { .. })));
    Ok(())
}

#[test]
fn application_binding_rejects_not_yet_valid_and_stale_windows() -> Result<(), String> {
    let now = OffsetDateTime::UNIX_EPOCH;
    let future = ok(ApplicationVerifiedTenantBinding::new(
        ok(TenantId::new("tenant_a"))?,
        issuer_evidence(now)?,
        ts(now + time::Duration::minutes(1)),
        ts(now + time::Duration::minutes(2)),
    ))?;
    let stale = ok(ApplicationVerifiedTenantBinding::new(
        ok(TenantId::new("tenant_a"))?,
        issuer_evidence(now - time::Duration::minutes(2))?,
        ts(now - time::Duration::minutes(2)),
        ts(now - time::Duration::minutes(1)),
    ))?;

    assert!(matches!(
        future.validate_at(ts(now)),
        Err(TenantBindingError::NotYetValid { .. })
    ));
    assert!(matches!(
        stale.validate_at(ts(now)),
        Err(TenantBindingError::Stale { .. })
    ));

    let future_auth = ok(ApplicationVerifiedTenantBinding::new(
        ok(TenantId::new("tenant_a"))?,
        issuer_evidence(now + time::Duration::minutes(1))?,
        ts(now - time::Duration::minutes(1)),
        ts(now + time::Duration::hours(1)),
    ))?;
    assert!(matches!(
        future_auth.validate_at(ts(now)),
        Err(TenantBindingError::AuthenticatedInFuture { .. })
    ));
    Ok(())
}

#[test]
fn trusted_service_binding_is_explicitly_named() -> Result<(), String> {
    let binding = ok(TrustedServiceBinding::new(ok(TenantId::new("tenant_a"))?, "billing-worker"))?;
    let context = ok(Context::from_trusted_service(
        binding,
        ok(SubjectRef::new("service", "billing-worker"))?,
        ok(Locale::new("en-US"))?,
    ))?;

    assert!(matches!(context.binding(), TenantBinding::TrustedService(_)));
    Ok(())
}

#[test]
fn generated_decision_audit_ids_are_valid_and_distinct() {
    let first = DecisionAuditId::generate();
    let second = DecisionAuditId::generate();

    assert!(!first.as_str().is_empty());
    assert_ne!(first, second);
    assert!(DecisionAuditId::new(first.as_str()).is_ok());
}

#[test]
fn decision_occurrence_normalizes_utc_at_microsecond_precision() -> Result<(), String> {
    let id = ok(DecisionAuditId::new("decision-1"))?;
    let at = ok(OffsetDateTime::from_unix_timestamp_nanos(123_000))?
        .to_offset(ok(time::UtcOffset::from_hms(2, 0, 0))?);

    let occurrence = ok(DecisionAuditOccurrence::new(id, ts(at)))?;

    assert_eq!(
        occurrence.occurred_at(),
        ts(OffsetDateTime::UNIX_EPOCH + time::Duration::microseconds(123))
    );
    assert_eq!(occurrence.occurred_at().offset_seconds, 0);
    Ok(())
}

#[test]
fn decision_occurrence_normalizes_submicroseconds_and_rejects_invalid_endpoints() -> Result<(), String> {
    let id = ok(DecisionAuditId::new("decision-1"))?;
    let submicrosecond = ok(OffsetDateTime::from_unix_timestamp_nanos(1))?;
    let normalized = ok(DecisionAuditOccurrence::new(id.clone(), ts(submicrosecond)))?;
    assert_eq!(normalized.occurred_at(), ts(OffsetDateTime::UNIX_EPOCH));

    let before_epoch = OffsetDateTime::UNIX_EPOCH - time::Duration::nanoseconds(1_000);
    assert_eq!(
        DecisionAuditOccurrence::new(id.clone(), ts(before_epoch)),
        Err(DecisionAuditOccurrenceError::OutOfRange)
    );

    let after_max = OffsetDateTime::new_in_offset(
        ok(time::Date::from_calendar_date(9999, time::Month::December, 31))?,
        ok(time::Time::from_hms_micro(23, 59, 59, 999_999))?,
        ok(time::UtcOffset::from_hms(-1, 0, 0))?,
    );
    assert_eq!(
        DecisionAuditOccurrence::new(id, ts(after_max)),
        Err(DecisionAuditOccurrenceError::OutOfRange)
    );
    Ok(())
}

#[test]
fn negative_observations_are_retained_and_conflicts_rejected() -> Result<(), String> {
    let now = ts(OffsetDateTime::now_utc());
    let fact = ok(FactId::new("record.owner"))?;
    let resolution = || -> Result<FactResolution<KnownFacts>, String> {
        let facts = ok(KnownFacts::from_entries(vec![(fact.clone(), Presence::Absent)]))?;
        ok(FactResolution::new(facts, None, now))
    };
    let positive = ok(FactObservation::new(fact.clone(), true, None, now))?;
    assert!(matches!(
        resolution()?.with_observations(vec![positive]),
        Err(ObservationError::Mismatch)
    ));
    let negative = ok(FactObservation::new(fact.clone(), false, None, now))?;
    assert!(matches!(
        resolution()?.with_observations(vec![negative.clone(), negative.clone()]),
        Err(ObservationError::Duplicate)
    ));
    let resolution = ok(resolution()?.with_observations(vec![negative.clone()]))?;
    let evidence = ok(FactResolutionEvidence::from_resolution(&resolution, b"facts"))?;
    assert_eq!(evidence.observations(), &[negative]);
    Ok(())
}

#[test]
fn selected_fact_expiry_is_enforced_even_without_set_expiry() -> Result<(), String> {
    let now = ts(OffsetDateTime::now_utc());
    let fact = ok(FactId::new("emergency"))?;
    let metadata = FactResolutionMetadata::new(ok(BindingProvenance::new("grants"))?, None, Some(now));
    let observation = ok(FactObservation::new(fact.clone(), true, Some(metadata), now))?;
    let resolution = ok(ok(FactResolution::new(
        ok(KnownFacts::from_entries(vec![(fact, Presence::Present)]))?,
        None,
        now,
    ))?
    .with_observations(vec![observation]))?;
    assert!(matches!(
        resolution.validate_at(now),
        Err(FactResolutionError::Expired { .. })
    ));
    Ok(())
}

/// Freezes a decision the way an authorization boundary does: the context
/// and resolution are checked at `now`, evidence is digested, the policy is
/// evaluated and an audit entry is built for a fresh occurrence.
fn prepare_resolution(
    prepared: &PreparedPolicy<()>,
    context: &Context,
    resolution: &FactResolution<KnownFacts>,
    now: Timestamp,
) -> Result<PendingDecision<()>, String> {
    let (decision, evidence, occurrence) = ok(gatekeep::assemble_decision::<(), (), ()>(
        prepared.policy(),
        Some(prepared.required_facts()),
        context,
        resolution,
        now,
        b"facts",
        DecisionAuditId::generate(),
        now,
    ))?;
    let outcome = serde_json::Value::Null;
    let entry = ok(AuditEntry::from_decision(
        occurrence,
        prepared.anchor().duplicate(),
        &decision,
        context,
        evidence,
        outcome,
    ))?;
    Ok(PendingDecision::new(decision, entry))
}

#[test]
fn replay_requires_matching_policy_and_explicit_observations() -> Result<(), String> {
    let now = ts(OffsetDateTime::now_utc());
    let context = ok(Context::from_trusted_service(
        ok(TrustedServiceBinding::new(ok(TenantId::new("one"))?, "test"))?,
        ok(SubjectRef::new("person", "alex"))?,
        ok(Locale::new("en"))?,
    ))?;
    let prepared = PreparedPolicy::new(
        ok(PolicyId::new("read"))?,
        policy::grant_clause((), condition::has::<Owner>()).into_policy(),
        b"grant owner",
    );
    let resolution = || ok(FactResolution::new(KnownFacts::new().with_bool::<Owner>(false), None, now));
    let incomplete = prepare_resolution(&prepared, &context, &resolution()?, now)?;
    assert_eq!(
        prepared.replay(incomplete.entry()),
        Err(ReplayError::MissingObservations(vec![ok(FactId::new("owner"))?]))
    );
    let complete = ok(resolution()?.with_observations(vec![ok(FactObservation::new(
        ok(FactId::new("owner"))?,
        false,
        None,
        now,
    ))?]))?;
    let pending = prepare_resolution(&prepared, &context, &complete, now)?;
    assert_eq!(&ok(prepared.replay(pending.entry()))?, pending.decision());
    let different = PreparedPolicy::new(ok(PolicyId::new("read"))?, policy::permit(()), b"permit");
    assert_eq!(different.replay(pending.entry()), Err(ReplayError::PolicyMismatch));
    Ok(())
}

#[test]
fn policy_hash_is_blake3_hex_of_the_encoding() -> Result<(), String> {
    let policy = policy::permit(());
    assert_eq!(
        policy.hash(b"").as_str(),
        "af1349b9f5f9a1a6a0404dea36dcc9499bcb25c9adc112b7cc9a93cae41f3262"
    );
    assert_ne!(policy.hash(b"a").as_str(), policy.hash(b"b").as_str());
    let prepared = PreparedPolicy::new(ok(PolicyId::new("read"))?, policy::permit(()), b"");
    assert_eq!(prepared.anchor().policy_hash_version(), gatekeep::POLICY_HASH_FORMAT_VERSION);
    assert_eq!(
        prepared.anchor().policy_hash().as_str(),
        "af1349b9f5f9a1a6a0404dea36dcc9499bcb25c9adc112b7cc9a93cae41f3262"
    );
    Ok(())
}

#[test]
fn evidence_digest_is_blake3_of_the_fact_encoding() -> Result<(), String> {
    let resolution = ok(FactResolution::new(KnownFacts::new(), None, ts(OffsetDateTime::UNIX_EPOCH)))?;
    let evidence = ok(FactResolutionEvidence::from_resolution(&resolution, b""))?;
    let expected = [
        0xaf, 0x13, 0x49, 0xb9, 0xf5, 0xf9, 0xa1, 0xa6, 0xa0, 0x40, 0x4d, 0xea, 0x36, 0xdc, 0xc9, 0x49,
        0x9b, 0xcb, 0x25, 0xc9, 0xad, 0xc1, 0x12, 0xb7, 0xcc, 0x9a, 0x93, 0xca, 0xe4, 0x1f, 0x32, 0x62,
    ];
    assert_eq!(evidence.fact_set_digest().as_bytes(), &expected);
    Ok(())
}

fn trusted_context(tenant: &str) -> Result<Context, String> {
    ok(Context::from_trusted_service(
        ok(TrustedServiceBinding::new(ok(TenantId::new(tenant))?, "worker"))?,
        ok(SubjectRef::new("user", "mari"))?,
        ok(Locale::new("en-US"))?,
    ))
}

fn entry_for(decision: &gatekeep::Decision<()>, id: &str) -> Result<AuditEntry, String> {
    let context = trusted_context("tenant_a")?;
    let resolution = ok(FactResolution::new(KnownFacts::new(), None, ts(OffsetDateTime::UNIX_EPOCH)))?;
    let evidence = ok(FactResolutionEvidence::from_resolution(&resolution, b""))?;
    let occurrence = ok(DecisionAuditOccurrence::new(
        ok(DecisionAuditId::new(id))?,
        ts(OffsetDateTime::UNIX_EPOCH),
    ))?;
    ok(AuditEntry::from_decision(
        occurrence,
        PolicyAnchor::new(ok(PolicyId::new("case_read"))?, ok(PolicyHash::new("hash"))?),
        decision,
        &context,
        evidence,
        serde_json::Value::Null,
    ))
}

#[test]
fn audit_entries_built_from_decisions_validate() -> Result<(), String> {
    let permit = evaluate(&policy::grant((), condition::always()), &KnownFacts::new());
    let entry = entry_for(&permit, "decision-permit")?;
    assert_eq!(entry.schema_version(), gatekeep::AUDIT_ENTRY_SCHEMA_VERSION);
    assert_eq!(entry.effect(), EffectKind::Permit);
    assert!(entry.validate_current().is_ok());
    assert!(entry.denial_reason().is_none());

    let deny = evaluate(
        &policy::grant((), condition::has::<Owner>())
            .labeled(ok(gatekeep::ClauseLabel::new("owner_only"))?),
        &KnownFacts::new(),
    );
    let entry = entry_for(&deny, "decision-deny")?;
    assert_eq!(entry.effect(), EffectKind::Deny);
    assert!(entry.validate_current().is_ok());
    let reason = entry.denial_reason().ok_or("denial reason")?;
    assert_eq!(reason.code.as_str(), "owner_only");
    assert_eq!(reason.params.len(), 2);
    assert_eq!(reason.params[0].0.as_str(), "denied_outcome");
    assert_eq!(reason.params[1].0.as_str(), "missing_fact");
    Ok(())
}

#[test]
fn contradictory_audit_fields_are_rejected() -> Result<(), String> {
    let permit = evaluate(&policy::grant((), condition::always()), &KnownFacts::new());
    let trace = permit.to_trace(serde_json::Value::Null);
    let decisive = permit.to_trace(serde_json::Value::Null).decisive;
    let occurrence = ok(DecisionAuditOccurrence::new(
        ok(DecisionAuditId::new("decision-contradictory"))?,
        ts(OffsetDateTime::UNIX_EPOCH),
    ))?;
    let context = trusted_context("tenant_a")?;
    let resolution = ok(FactResolution::new(KnownFacts::new(), None, ts(OffsetDateTime::UNIX_EPOCH)))?;
    let result = AuditEntry::new(
        occurrence,
        None,
        PolicyAnchor::new(ok(PolicyId::new("case_read"))?, ok(PolicyHash::new("hash"))?),
        EffectKind::Deny,
        Vec::new(),
        trace.consulted.clone(),
        decisive,
        None,
        trace,
        context.binding().duplicate(),
        ok(FactResolutionEvidence::from_resolution(&resolution, b""))?,
        ok(TenantId::new("tenant_a"))?,
        ok(SubjectRef::new("user", "mari"))?,
        Vec::new(),
        ok(Locale::new("en-US"))?,
    );
    assert!(matches!(result, Err(AuditEntryError::EffectTraceMismatch)));

    let other = trusted_context("tenant_b")?;
    let trace = permit.to_trace(serde_json::Value::Null);
    let result = AuditEntry::new(
        ok(DecisionAuditOccurrence::new(
            ok(DecisionAuditId::new("decision-other-tenant"))?,
            ts(OffsetDateTime::UNIX_EPOCH),
        ))?,
        None,
        PolicyAnchor::new(ok(PolicyId::new("case_read"))?, ok(PolicyHash::new("hash"))?),
        EffectKind::Permit,
        Vec::new(),
        trace.consulted.clone(),
        permit.to_trace(serde_json::Value::Null).decisive,
        None,
        trace,
        other.binding().duplicate(),
        ok(FactResolutionEvidence::from_resolution(&resolution, b""))?,
        ok(TenantId::new("tenant_a"))?,
        ok(SubjectRef::new("user", "mari"))?,
        Vec::new(),
        ok(Locale::new("en-US"))?,
    );
    assert!(matches!(result, Err(AuditEntryError::BindingTenantMismatch)));
    Ok(())
}

#[test]
fn policy_anchor_requires_current_hash_format() -> Result<(), String> {
    let recorded = PolicyAnchor::from_recorded(ok(PolicyId::new("case_read"))?, ok(PolicyHash::new("hash"))?, 99);
    assert_eq!(
        recorded,
        Err(AuditEntryError::UnsupportedPolicyHashVersion { expected: 1, actual: 99 })
    );
    let current = ok(PolicyAnchor::from_recorded(ok(PolicyId::new("case_read"))?, ok(PolicyHash::new("hash"))?, 1))?;
    assert_eq!(current.policy_id().as_str(), "case_read");
    Ok(())
}

#[test]
fn legacy_audit_is_imported_with_a_new_occurrence() -> Result<(), String> {
    let decision = evaluate(&policy::grant((), condition::always()), &KnownFacts::new());
    let legacy = || -> Result<LegacyAuditEntry, String> {
        let trace = decision.to_trace(serde_json::Value::Null);
        Ok(LegacyAuditEntry {
            decision_audit_id: "legacy-outbox-1".to_owned(),
            occurred_at: ts(OffsetDateTime::UNIX_EPOCH),
            request_id: None,
            anchor: LegacyPolicyAnchor {
                policy_id: ok(PolicyId::new("case_read"))?,
                policy_hash: ok(PolicyHash::new("hash"))?,
            },
            effect: EffectKind::from(&decision),
            obligations: Vec::new(),
            consulted: trace.consulted.clone(),
            decisive: decision.to_trace(serde_json::Value::Null).decisive,
            denial_reason: None,
            trace,
            binding: None,
            fact_resolution: None,
            tenant: ok(TenantId::new("tenant_a"))?,
            principal: ok(SubjectRef::new("user", "mari"))?,
            subjects: Vec::new(),
            locale: ok(Locale::new("en-US"))?,
        })
    };
    assert!(legacy()?.validate_semantics().is_ok());
    let context = trusted_context("tenant_a")?;
    let resolution = ok(FactResolution::new(KnownFacts::new(), None, ts(OffsetDateTime::UNIX_EPOCH)))?;
    let occurrence = || {
        ok(DecisionAuditOccurrence::new(
            ok(DecisionAuditId::new("decision-imported"))?,
            ts(OffsetDateTime::UNIX_EPOCH),
        ))
    };
    let wrong_version = legacy()?.into_current(
        occurrence()?,
        99,
        context.binding().duplicate(),
        ok(FactResolutionEvidence::from_resolution(&resolution, b""))?,
    );
    assert!(matches!(
        wrong_version,
        Err(AuditEntryError::UnsupportedPolicyHashVersion { expected: 1, actual: 99 })
    ));
    let imported = ok(legacy()?.into_current(
        occurrence()?,
        gatekeep::POLICY_HASH_FORMAT_VERSION,
        context.binding().duplicate(),
        ok(FactResolutionEvidence::from_resolution(&resolution, b""))?,
    ))?;
    assert_eq!(imported.schema_version(), gatekeep::AUDIT_ENTRY_SCHEMA_VERSION);
    assert_eq!(imported.decision_audit_id().as_str(), "decision-imported");
    assert_eq!(imported.anchor().policy_hash_version(), gatekeep::POLICY_HASH_FORMAT_VERSION);
    Ok(())
}

#[test]
fn context_subjects_replace_by_slot() -> Result<(), String> {
    let context = trusted_context("tenant_a")?
        .with_subject(ok(SubjectSlot::new("case"))?, ok(SubjectRef::new("case", "1"))?)
        .with_subject(ok(SubjectSlot::new("team"))?, ok(SubjectRef::new("team", "7"))?)
        .with_subject(ok(SubjectSlot::new("case"))?, ok(SubjectRef::new("case", "2"))?);
    let subjects = context.subjects();
    assert_eq!(subjects.len(), 2);
    let case = subjects
        .iter()
        .find(|(slot, _)| slot.as_str() == "case")
        .ok_or("case slot")?;
    assert_eq!(case.1.id(), "2");
    Ok(())
}

#[test]
fn provenance_labels_are_bounded_and_printable() {
    assert!(BindingProvenance::new("issuer").is_ok());
    assert!(matches!(
        BindingProvenance::new("   "),
        Err(TenantBindingError::InvalidProvenance { .. })
    ));
    assert!(BindingProvenance::new("bad\u{7}label").is_err());
    assert!(BindingProvenance::new(&"x".repeat(128)).is_ok());
    assert!(BindingProvenance::new(&"x".repeat(129)).is_err());
}

#[test]
fn inverted_binding_windows_are_rejected() -> Result<(), String> {
    let now = OffsetDateTime::UNIX_EPOCH;
    let inverted = ApplicationVerifiedTenantBinding::new(
        ok(TenantId::new("tenant_a"))?,
        issuer_evidence(now)?,
        ts(now),
        ts(now),
    );
    assert!(matches!(inverted, Err(TenantBindingError::InvalidWindow)));
    let late_auth = ApplicationVerifiedTenantBinding::new(
        ok(TenantId::new("tenant_a"))?,
        issuer_evidence(now + time::Duration::hours(2))?,
        ts(now),
        ts(now + time::Duration::hours(1)),
    );
    assert!(matches!(late_auth, Err(TenantBindingError::InvalidWindow)));
    Ok(())
}

#[test]
fn observation_identities_are_bounded() -> Result<(), String> {
    let now = ts(OffsetDateTime::UNIX_EPOCH);
    let long = ok(FactId::new(&"f".repeat(129)))?;
    assert!(matches!(
        FactObservation::new(long, true, None, now),
        Err(ObservationError::InvalidIdentity)
    ));
    let ok_id = ok(FactId::new(&"f".repeat(128)))?;
    assert!(FactObservation::new(ok_id, true, None, now).is_ok());
    Ok(())
}

#[test]
fn inspection_reports_labels_reasons_and_advice() -> Result<(), String> {
    let label = || ok(gatekeep::ClauseLabel::new("owner"));
    let policy = policy::all(vec![
        policy::grant((), condition::has::<Owner>()).labeled(label()?),
        policy::grant((), condition::always()).labeled(label()?),
        policy::grant((), condition::always()),
    ]);
    let prepared = PreparedPolicy::new(ok(PolicyId::new("read"))?, policy, b"");
    let inspection = prepared.inspect();
    let labels = inspection.labels.iter().map(|l| l.as_str()).collect::<Vec<_>>();
    assert_eq!(labels, vec!["owner"]);
    assert_eq!(inspection.reasons, vec!["owner"]);
    assert_eq!(inspection.advice.len(), 3);
    assert!(matches!(inspection.advice[0], PolicyAdvice::DuplicateLabel(l) if l.as_str() == "owner"));
    assert_eq!(inspection.advice[1], PolicyAdvice::UnlabeledGrant);
    assert_eq!(inspection.advice[2], PolicyAdvice::MissingReason);
    Ok(())
}

#[test]
fn occurrence_of_entry_round_trips() -> Result<(), String> {
    let decision = evaluate(&policy::grant((), condition::always()), &KnownFacts::new());
    let entry = entry_for(&decision, "decision-round-trip")?;
    let occurrence = entry.occurrence();
    assert_eq!(occurrence.decision_audit_id().as_str(), "decision-round-trip");
    assert!(occurrence.validate().is_ok());
    let DecisiveClause::Permit { .. } = &decision.trace.decisive else {
        return Err("permit".to_owned());
    };
    Ok(())
}

#[test]
fn inconsistent_decisions_are_refused_as_audit_entries() -> Result<(), String> {
    let mut permit = evaluate(&policy::grant((), condition::always()), &KnownFacts::new());
    permit.effect = gatekeep::Effect::Deny;
    match AuditEntry::from_decision(
        ok(DecisionAuditOccurrence::new(
            ok(DecisionAuditId::new("decision-inconsistent"))?,
            ts(OffsetDateTime::UNIX_EPOCH),
        ))?,
        PolicyAnchor::new(ok(PolicyId::new("case_read"))?, ok(PolicyHash::new("hash"))?),
        &permit,
        &trusted_context("tenant_a")?,
        ok(FactResolutionEvidence::from_resolution(
            &ok(FactResolution::new(KnownFacts::new(), None, ts(OffsetDateTime::UNIX_EPOCH)))?,
            b"",
        ))?,
        serde_json::Value::Null,
    ) {
        Err(gatekeep::AuditConstructionError::Entry(AuditEntryError::EffectTraceMismatch)) => {}
        other => return Err(format!("unexpected {other:?}")),
    }

    let mut deny = evaluate(&policy::grant((), condition::has::<Owner>()), &KnownFacts::new());
    deny.obligations.push(ok(gatekeep::ObligationId::new("notify"))?);
    match AuditEntry::from_decision(
        ok(DecisionAuditOccurrence::new(
            ok(DecisionAuditId::new("decision-obligated-denial"))?,
            ts(OffsetDateTime::UNIX_EPOCH),
        ))?,
        PolicyAnchor::new(ok(PolicyId::new("case_read"))?, ok(PolicyHash::new("hash"))?),
        &deny,
        &trusted_context("tenant_a")?,
        ok(FactResolutionEvidence::from_resolution(
            &ok(FactResolution::new(KnownFacts::new(), None, ts(OffsetDateTime::UNIX_EPOCH)))?,
            b"",
        ))?,
        serde_json::Value::Null,
    ) {
        Err(gatekeep::AuditConstructionError::Entry(AuditEntryError::DenyWithObligations)) => {}
        other => return Err(format!("unexpected {other:?}")),
    }
    Ok(())
}

#[test]
fn known_fact_entries_list_each_recorded_fact_once() -> Result<(), String> {
    let facts = KnownFacts::new()
        .with_present::<Owner>()
        .with_absent::<Owner>()
        .try_with_fact(ok(FactId::new("member"))?, Presence::Present)
        .map_err(|e| format!("{e:?}"))?;
    let entries = facts.entries();
    assert_eq!(entries.len(), 2);
    let owner = entries
        .iter()
        .find(|(fact, _)| fact.as_str() == "owner")
        .ok_or("owner entry")?;
    assert_eq!(owner.1, Presence::Absent);
    Ok(())
}

#[test]
fn recorded_evidence_is_reordered_and_revalidated() -> Result<(), String> {
    let at = ts(OffsetDateTime::UNIX_EPOCH + time::Duration::hours(1));
    let early = ts(OffsetDateTime::UNIX_EPOCH);
    let zeta = ok(FactObservation::new(ok(FactId::new("zeta"))?, true, None, at))?;
    let alpha = ok(FactObservation::new(ok(FactId::new("alpha"))?, false, None, at))?;

    let evidence = ok(FactResolutionEvidence::from_recorded(
        None,
        None,
        at,
        None,
        EvidenceDigest::new([7; 32]),
        vec![zeta.duplicate(), alpha.duplicate()],
    ))?;
    let facts: Vec<&str> = evidence.observations().iter().map(|o| o.fact().as_str()).collect();
    assert_eq!(facts, vec!["alpha", "zeta"]);
    assert_eq!(evidence.fact_set_digest().as_bytes(), &[7; 32]);

    assert!(matches!(
        FactResolutionEvidence::from_recorded(
            None,
            None,
            at,
            Some(early),
            EvidenceDigest::new([0; 32]),
            Vec::new(),
        ),
        Err(ObservationError::Freshness(FactResolutionError::InvalidFreshnessWindow { .. }))
    ));
    assert!(matches!(
        FactResolutionEvidence::from_recorded(
            None,
            None,
            at,
            None,
            EvidenceDigest::new([0; 32]),
            vec![alpha.duplicate(), alpha],
        ),
        Err(ObservationError::Duplicate)
    ));
    Ok(())
}

#[test]
fn recorded_audit_entries_require_the_current_schema() -> Result<(), String> {
    let decision = evaluate(&policy::grant((), condition::always()), &KnownFacts::new());
    let entry = entry_for(&decision, "decision-recorded")?;
    let rebuild = |schema: u16| {
        AuditEntry::from_recorded(
            schema,
            entry.decision_audit_id().duplicate(),
            entry.occurred_at(),
            None,
            entry.anchor().duplicate(),
            entry.effect(),
            Vec::new(),
            entry.consulted().clone(),
            decision.to_trace(serde_json::Value::Null).decisive,
            None,
            decision.to_trace(serde_json::Value::Null),
            entry.binding().duplicate(),
            entry.fact_resolution().duplicate(),
            entry.tenant().duplicate(),
            entry.principal().duplicate(),
            Vec::new(),
            entry.locale().duplicate(),
        )
    };
    let current = ok(rebuild(gatekeep::AUDIT_ENTRY_SCHEMA_VERSION))?;
    assert_eq!(current.decision_audit_id().as_str(), "decision-recorded");
    assert!(current.validate_current().is_ok());
    assert!(matches!(
        rebuild(gatekeep::AUDIT_ENTRY_SCHEMA_VERSION + 1),
        Err(AuditEntryError::UnsupportedSchemaVersion { expected: 1, actual: 2 })
    ));
    Ok(())
}

#[test]
fn batch_bounds_are_checked_before_loading() -> Result<(), String> {
    assert!(matches!(gatekeep::check_batch_size::<()>(3, 2), Err(gatekeep::BatchError::Limit)));
    assert!(gatekeep::check_batch_size::<()>(2, 2).is_ok());
    assert!(matches!(
        gatekeep::check_batch_cardinality::<()>(2, 1),
        Err(gatekeep::BatchError::Cardinality { expected: 2, actual: 1 })
    ));
    assert!(gatekeep::check_batch_cardinality::<()>(2, 2).is_ok());

    let start = OffsetDateTime::UNIX_EPOCH + time::Duration::days(1);
    let binding = ok(ApplicationVerifiedTenantBinding::new(
        ok(TenantId::new("tenant_a"))?,
        issuer_evidence(start)?,
        ts(start),
        ts(start + time::Duration::hours(1)),
    ))?;
    let context = ok(Context::new_at(
        ok(TenantId::new("tenant_a"))?,
        TenantBinding::ApplicationVerified(binding),
        ok(SubjectRef::new("user", "mari"))?,
        ok(Locale::new("en-US"))?,
        ts(start + time::Duration::minutes(1)),
    ))?;
    assert!(gatekeep::check_batch_context::<()>(0, &context, ts(start + time::Duration::minutes(2))).is_ok());
    assert!(matches!(
        gatekeep::check_batch_context::<()>(4, &context, ts(start + time::Duration::hours(2))),
        Err(gatekeep::BatchError::Context {
            index: 4,
            source: ContextError::Binding(TenantBindingError::Stale { .. })
        })
    ));
    Ok(())
}

#[test]
fn failed_attempts_are_recorded_in_the_context_scope() -> Result<(), String> {
    let context = trusted_context("tenant_a")?
        .with_request_id(ok(gatekeep::RequestId::new("req-7"))?);
    let anchor = PolicyAnchor::new(ok(PolicyId::new("case_read"))?, ok(PolicyHash::new("hash"))?);
    let at = ts(OffsetDateTime::UNIX_EPOCH + time::Duration::nanoseconds(1_500));
    let attempt = ok(gatekeep::AuthorizationAttempt::for_failure(
        &context,
        anchor.duplicate(),
        gatekeep::AttemptFailure::Resolution,
        ok(DecisionAuditId::new("attempt-1"))?,
        at,
    ))?;
    assert_eq!(attempt.failure(), gatekeep::AttemptFailure::Resolution);
    assert_eq!(attempt.tenant().as_str(), "tenant_a");
    assert_eq!(attempt.request_id().map(|r| r.as_str()), Some("req-7"));
    assert_eq!(attempt.occurrence().decision_audit_id().as_str(), "attempt-1");
    assert_eq!(attempt.occurrence().occurred_at().nanosecond, 1_000);
    assert!(attempt.validate().is_ok());

    let late = ts(OffsetDateTime::UNIX_EPOCH - time::Duration::seconds(1));
    assert!(matches!(
        gatekeep::AuthorizationAttempt::for_failure(
            &context,
            anchor,
            gatekeep::AttemptFailure::Trace,
            ok(DecisionAuditId::new("attempt-2"))?,
            late,
        ),
        Err(gatekeep::AttemptValidationError::Occurrence(DecisionAuditOccurrenceError::OutOfRange))
    ));
    Ok(())
}

#[test]
fn decisions_are_assembled_only_from_complete_fresh_inputs() -> Result<(), String> {
    let now = ts(OffsetDateTime::UNIX_EPOCH + time::Duration::hours(1));
    let prepared = PreparedPolicy::new(
        ok(PolicyId::new("case_read"))?,
        policy::grant((), condition::has::<Owner>()),
        b"policy",
    );
    let context = trusted_context("tenant_a")?;
    let empty = ok(FactResolution::new(KnownFacts::new(), None, now))?;
    match gatekeep::assemble_decision::<(), (), ()>(
        prepared.policy(),
        Some(prepared.required_facts()),
        &context,
        &empty,
        now,
        b"",
        ok(DecisionAuditId::new("decision-missing"))?,
        now,
    ) {
        Err(gatekeep::AuthorizationError::Resolve(gatekeep::ResolveError::MissingFact(fact))) => {
            assert_eq!(fact.as_str(), "owner");
        }
        other => return Err(format!("unexpected {:?}", other.map(|_| ()))),
    }

    let unchecked = ok(gatekeep::assemble_decision::<(), (), ()>(
        prepared.policy(),
        None,
        &context,
        &empty,
        now,
        b"",
        ok(DecisionAuditId::new("decision-unchecked"))?,
        now,
    ))?;
    assert!(!unchecked.0.is_permit());
    assert_eq!(unchecked.2.decision_audit_id().as_str(), "decision-unchecked");

    let facts = KnownFacts::new().with_present::<Owner>();
    let resolution = ok(FactResolution::new(facts, None, now))?;
    let carried = ok(DecisionAuditOccurrence::new(ok(DecisionAuditId::new("decision-retry"))?, now))?;
    let retried = trusted_context("tenant_a")?.with_decision_audit_occurrence(carried);
    let (decision, evidence, occurrence) = ok(gatekeep::assemble_decision::<(), (), ()>(
        prepared.policy(),
        Some(prepared.required_facts()),
        &retried,
        &resolution,
        now,
        b"",
        ok(DecisionAuditId::new("decision-unused"))?,
        now,
    ))?;
    assert!(decision.is_permit());
    assert_eq!(occurrence.decision_audit_id().as_str(), "decision-retry");
    assert_eq!(evidence.observed_at(), now);

    let early = ts(OffsetDateTime::UNIX_EPOCH);
    assert!(matches!(
        gatekeep::assemble_decision::<(), (), ()>(
            prepared.policy(),
            Some(prepared.required_facts()),
            &context,
            &resolution,
            early,
            b"",
            ok(DecisionAuditId::new("decision-early"))?,
            early,
        ),
        Err(gatekeep::AuthorizationError::Resolve(gatekeep::ResolveError::Resolution(
            FactResolutionError::ObservedInFuture { .. }
        )))
    ));
    Ok(())
}

#[test]
fn entries_assembled_from_evaluated_decisions_pass_semantic_checks() -> Result<(), String> {
    for facts in [KnownFacts::new(), KnownFacts::new().with_present::<Owner>()] {
        let decision = evaluate(
            &policy::grant((), condition::has::<Owner>())
                .labeled(ok(gatekeep::ClauseLabel::new("owner_only"))?),
            &facts,
        );
        let build = |effect: EffectKind| -> Result<Result<AuditEntry, AuditEntryError>, String> {
            let trace = decision.to_trace(serde_json::Value::Null);
            let decisive = decision.to_trace(serde_json::Value::Null).decisive;
            let reason = ok(decision.denial_reason(serde_json::Value::Null))?;
            let context = trusted_context("tenant_a")?;
            let resolution = ok(FactResolution::new(KnownFacts::new(), None, ts(OffsetDateTime::UNIX_EPOCH)))?;
            Ok(AuditEntry::new(
                ok(DecisionAuditOccurrence::new(
                    ok(DecisionAuditId::new("decision-assembled"))?,
                    ts(OffsetDateTime::UNIX_EPOCH),
                ))?,
                None,
                PolicyAnchor::new(ok(PolicyId::new("case_read"))?, ok(PolicyHash::new("hash"))?),
                effect,
                decision.obligations.clone(),
                trace.consulted.clone(),
                decisive,
                reason,
                trace,
                context.binding().duplicate(),
                ok(FactResolutionEvidence::from_resolution(&resolution, b""))?,
                ok(TenantId::new("tenant_a"))?,
                ok(SubjectRef::new("user", "mari"))?,
                Vec::new(),
                ok(Locale::new("en-US"))?,
            ))
        };
        let effect = if decision.is_permit() { EffectKind::Permit } else { EffectKind::Deny };
        let entry = ok(build(effect)?)?;
        assert!(entry.validate_semantics().is_ok());
        let flipped = if decision.is_permit() { EffectKind::Deny } else { EffectKind::Permit };
        assert!(matches!(build(flipped)?, Err(AuditEntryError::EffectTraceMismatch)));
    }
    Ok(())
}
