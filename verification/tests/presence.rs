use arda_aule::digest_ids::deterministic_presence_event_id;
use arda_aule::ledger::select_new_records_by_id;
use arda_aule::presence::{
    anchor_valid, invalid_anchor_message, invalid_timestamp_message, invalid_token_message,
    plan_presence_event, token_allowed, PresenceError, PresenceField,
};

fn some(v: &str) -> Option<String> {
    Some(v.to_string())
}

fn plan(mode: &str, event_id: Option<String>, ts: Option<String>) -> Result<arda_aule::presence::PresencePlan, PresenceError> {
    plan_presence_event(
        &event_id,
        "arandur",
        mode,
        "elevated",
        "cyan",
        "boardroom.hologram_anchor",
        &some("gate-3.5n-test"),
        &ts,
        "2026-01-01T00:00:00Z",
    )
}

#[test]
fn presence_event_writer_is_bounded_append_only_and_idempotent() {
    let first = plan("advising", some("presence_test_event"), some("2026-05-18T00:00:00Z")).unwrap();
    let second = plan("advising", some("presence_test_event"), some("2026-05-18T00:00:00Z")).unwrap();
    assert_eq!(first.id, "presence_test_event");
    assert_eq!(first.timestamp, "2026-05-18T00:00:00Z");
    assert_eq!(first.correlation_id, "gate-3.5n-test");
    let ledger: Vec<String> = vec![];
    let appended = select_new_records_by_id(&ledger, &vec![Some(first.id.clone())]);
    assert_eq!(appended.len(), 1);
    let ledger = vec![first.id.clone()];
    let again = select_new_records_by_id(&ledger, &vec![Some(second.id.clone())]);
    assert_eq!(again.len(), 0);
    assert_eq!(
        plan("teleporting", some("presence_invalid"), some("2026-05-18T00:00:00Z")).err(),
        Some(PresenceError::InvalidToken(PresenceField::Mode))
    );
}

#[test]
fn presence_timestamps_are_normalized_to_utc_seconds() {
    let p = plan("observing", None, some("2026-05-17T10:00:00+02:00")).unwrap();
    assert_eq!(p.timestamp, "2026-05-17T08:00:00Z");
    assert_eq!(
        p.id,
        deterministic_presence_event_id("arandur", "observing", "elevated", "2026-05-17T08:00:00Z", "gate-3.5n-test")
    );
    assert!(p.id.starts_with("presence_"));
    assert_eq!(p.id.len(), "presence_".len() + 24);
    let now = plan("observing", None, None).unwrap();
    assert_eq!(now.timestamp, "2026-01-01T00:00:00Z");
    assert_eq!(plan("observing", None, some("yesterday")).err(), Some(PresenceError::InvalidTimestamp));
    assert_eq!(
        invalid_timestamp_message("yesterday"),
        "timestamp_utc must be RFC3339: yesterday"
    );
}

#[test]
fn presence_vocabularies_and_anchors_are_closed() {
    assert!(token_allowed(PresenceField::Agent, "manwe"));
    assert!(!token_allowed(PresenceField::Accent, "pink"));
    assert_eq!(
        invalid_token_message(PresenceField::Mode, "teleporting"),
        "invalid mode 'teleporting'; allowed values: observing, advising, coordinating, escalating, executing, offline"
    );
    assert!(anchor_valid("boardroom.hologram_anchor"));
    assert!(!anchor_valid(""));
    assert!(!anchor_valid("bad anchor"));
    assert!(!anchor_valid(&"a".repeat(97)));
    assert!(anchor_valid(&"a".repeat(96)));
    assert_eq!(
        invalid_anchor_message("x y"),
        "invalid anchor_target 'x y'; use a non-empty named scene anchor containing only [A-Za-z0-9_.-] and <= 96 chars"
    );
    let bad_anchor = plan_presence_event(
        &None, "arandur", "advising", "elevated", "cyan", "no way", &None, &None, "2026-01-01T00:00:00Z",
    );
    assert_eq!(bad_anchor.err(), Some(PresenceError::InvalidAnchor));
}
