use pact_core::json::JsonValue;
use pact_core::sync_message::SynchronousMessages;
use pact_core::provider_states::ProviderState;
use pact_core::bodies::Body;
use pact_core::message::MessageContents;

fn base() -> SynchronousMessages {
    let mut sm = SynchronousMessages::default();
    sm.description = "fetch the catalogue".to_string();
    sm.request = MessageContents::empty();
    sm.request.contents = Body::Present {
        content: b"catalogue?page=1".to_vec(),
        content_type: Some("text/plain".to_string()),
    };
    sm.response.push(MessageContents::empty());
    sm.provider_states.push(ProviderState {
        name: "catalogue has pages".to_string(),
        params: vec![("pages".to_string(), JsonValue::Int(3))],
    });
    sm
}

#[test]
fn with_key_is_idempotent() {
    let once = base().with_key();
    let twice = base().with_key().with_key();
    assert_eq!(once.key, twice.key);
}

#[test]
fn with_key_preserves_an_existing_key() {
    let mut sm = base();
    sm.key = Some("kept".to_string());
    let keyed = sm.with_key();
    assert_eq!(keyed.key, Some("kept".to_string()));
}

#[test]
fn key_ignores_comments_and_id() {
    let plain = base().with_key();
    let mut noisy = base();
    noisy.id = Some("broker-123".to_string());
    noisy
        .comments
        .push(("note".to_string(), JsonValue::Str("anything".to_string())));
    let noisy = noisy.with_key();
    assert_eq!(plain.key, noisy.key);
}

#[test]
fn key_follows_the_description() {
    let a = base().with_key();
    let mut b = base();
    b.description = "fetch something else".to_string();
    let b = b.with_key();
    assert_ne!(a.key, b.key);
}

#[test]
fn key_follows_provider_state_params() {
    let a = base().with_key();
    let mut b = base();
    b.provider_states[0].params[0].1 = JsonValue::Int(4);
    let b = b.with_key();
    assert_ne!(a.key, b.key);
}

#[test]
fn key_follows_the_request_contents() {
    let a = base().with_key();
    let mut b = base();
    b.request.contents = Body::Present {
        content: b"catalogue?page=2".to_vec(),
        content_type: Some("text/plain".to_string()),
    };
    let b = b.with_key();
    assert_ne!(a.key, b.key);
}

#[test]
fn key_follows_the_pending_flag() {
    let a = base().with_key();
    let mut b = base();
    b.pending = true;
    let b = b.with_key();
    assert_ne!(a.key, b.key);
}

#[test]
fn key_ignores_metadata_order() {
    let mut a = base();
    a.request
        .metadata
        .push(("one".to_string(), JsonValue::Int(1)));
    a.request
        .metadata
        .push(("two".to_string(), JsonValue::Int(2)));
    let mut b = base();
    b.request
        .metadata
        .push(("two".to_string(), JsonValue::Int(2)));
    b.request
        .metadata
        .push(("one".to_string(), JsonValue::Int(1)));
    // The identity hash canonicalizes every mapping by key first.
    assert_eq!(a.calc_hash(), b.calc_hash());
}

#[test]
fn semantic_equality_ignores_annotations() {
    let mut a = base();
    a.id = Some("broker-1".to_string());
    a.key = Some("k1".to_string());
    a.comments
        .push(("note".to_string(), JsonValue::Str("x".to_string())));
    let b = base();
    assert!(a.semantic_eq(&b));
    let mut c = base();
    c.description = "something else".to_string();
    assert!(!a.semantic_eq(&c));
    let mut d = base();
    d.pending = true;
    assert!(!a.semantic_eq(&d));
}
