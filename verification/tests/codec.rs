use pact_core::json::{JsonValue, json_eq, json_text, json_to_string, canonical_json};
use pact_core::bodies::Body;
use pact_core::message::MessageContents;
use pact_core::sync_message::SynchronousMessages;
use pact_core::provider_states::ProviderState;
use pact_core::errors::DecodeError;
use pact_core::matchingrules::{MatchingRule, MatchingRules, RuleGroup};

fn obj(entries: Vec<(&str, JsonValue)>) -> JsonValue {
    JsonValue::Obj(entries.into_iter().map(|(k, v)| (k.to_string(), v)).collect())
}

fn s(v: &str) -> JsonValue {
    JsonValue::Str(v.to_string())
}

fn sample_message() -> MessageContents {
    let mut m = MessageContents::empty();
    m.contents = Body::Present {
        content: b"{\"a\":1}".to_vec(),
        content_type: Some("application/json".to_string()),
    };
    m.metadata
        .push(("origin".to_string(), s("recorder")));
    m
}

fn sample_interaction() -> SynchronousMessages {
    let mut sm = SynchronousMessages::default();
    sm.description = "a request for order 42".to_string();
    sm.request = sample_message();
    sm.response.push(sample_message());
    sm.provider_states.push(ProviderState {
        name: "an order exists".to_string(),
        params: vec![("orderId".to_string(), JsonValue::Int(42))],
    });
    sm
}

#[test]
fn message_contents_round_trip() {
    let m = sample_message();
    let encoded = m.to_json();
    let decoded = MessageContents::from_json(&encoded).unwrap();
    assert_eq!(decoded, m);
}

#[test]
fn message_contents_rejects_non_object() {
    let err = MessageContents::from_json(&JsonValue::Int(3)).unwrap_err();
    assert_eq!(err, DecodeError::NotAnObject("3".to_string()));
}

#[test]
fn interaction_round_trip_with_key() {
    let sm = sample_interaction().with_key();
    let encoded = sm.to_json();
    let decoded = SynchronousMessages::from_json(&encoded, 0).unwrap();
    assert_eq!(decoded, sm);
}

#[test]
fn empty_parts_decode_as_defaults() {
    let mut sm = sample_interaction();
    sm.provider_states.clear();
    sm.comments.clear();
    let sm = sm.with_key();
    let encoded = sm.to_json();
    // The encoder omits empty provider states and comments entirely.
    assert!(encoded.get("providerStates").is_none());
    assert!(encoded.get("comments").is_none());
    let decoded = SynchronousMessages::from_json(&encoded, 0).unwrap();
    assert!(decoded.provider_states.is_empty());
    assert!(decoded.comments.is_empty());
    assert_eq!(decoded, sm);
}

#[test]
fn missing_request_is_reported() {
    let v = obj(vec![("response", JsonValue::Arr(vec![]))]);
    let err = SynchronousMessages::from_json(&v, 0).unwrap_err();
    assert_eq!(err, DecodeError::MissingRequest);
}

#[test]
fn missing_response_is_reported() {
    let v = obj(vec![("request", obj(vec![]))]);
    let err = SynchronousMessages::from_json(&v, 0).unwrap_err();
    assert_eq!(err, DecodeError::MissingResponse);
}

#[test]
fn aggregate_decode_keeps_every_failure() {
    // Two malformed elements in the response array: both messages survive.
    let v = obj(vec![
        ("request", obj(vec![])),
        (
            "response",
            JsonValue::Arr(vec![JsonValue::Int(1), obj(vec![]), JsonValue::Bool(true)]),
        ),
    ]);
    let err = SynchronousMessages::from_json(&v, 0).unwrap_err();
    match &err {
        DecodeError::Aggregate(msgs) => {
            assert_eq!(msgs.len(), 2);
            assert!(msgs[0].contains("got 1"));
            assert!(msgs[1].contains("got true"));
        }
        other => panic!("expected an aggregate error, got {:?}", other),
    }
    let message = err.message();
    assert!(message.contains("got 1"));
    assert!(message.contains("got true"));
}

#[test]
fn default_description_names_the_index() {
    let v = obj(vec![("request", obj(vec![])), ("response", JsonValue::Arr(vec![]))]);
    let sm = SynchronousMessages::from_json(&v, 7).unwrap();
    assert_eq!(sm.description, "Interaction 7");
}

#[test]
fn binary_bodies_round_trip_through_hex() {
    let mut m = MessageContents::empty();
    m.contents = Body::Present {
        content: vec![0, 159, 146, 150],
        content_type: None,
    };
    let encoded = m.to_json();
    let decoded = MessageContents::from_json(&encoded).unwrap();
    assert_eq!(decoded, m);
}

#[test]
fn json_text_renders_canonically() {
    let v = obj(vec![
        ("b", JsonValue::Int(-5)),
        ("a", JsonValue::Arr(vec![JsonValue::Null, JsonValue::Bool(true), s("x\"y")])),
    ]);
    assert_eq!(json_text(&v), "{\"b\":-5,\"a\":[null,true,\"x\\\"y\"]}");
    let c = canonical_json(&v);
    assert_eq!(json_text(&c), "{\"a\":[null,true,\"x\\\"y\"],\"b\":-5}");
}

#[test]
fn json_to_string_reads_scalars() {
    assert_eq!(json_to_string(&s("plain")), "plain");
    assert_eq!(json_to_string(&JsonValue::Int(12)), "12");
    assert_eq!(json_to_string(&JsonValue::Bool(false)), "false");
}

#[test]
fn json_eq_is_structural() {
    let a = obj(vec![("x", JsonValue::Arr(vec![JsonValue::Int(1)]))]);
    let b = obj(vec![("x", JsonValue::Arr(vec![JsonValue::Int(1)]))]);
    let c = obj(vec![("x", JsonValue::Arr(vec![JsonValue::Int(2)]))]);
    assert!(json_eq(&a, &b));
    assert!(!json_eq(&a, &c));
}

#[test]
fn snake_case_provider_states_are_read() {
    let v = obj(vec![
        ("request", obj(vec![])),
        ("response", JsonValue::Arr(vec![])),
        (
            "provider_states",
            JsonValue::Arr(vec![obj(vec![("name", s("an order exists"))])]),
        ),
    ]);
    let sm = SynchronousMessages::from_json(&v, 0).unwrap();
    assert_eq!(sm.provider_states.len(), 1);
    assert_eq!(sm.provider_states[0].name, "an order exists");
}

#[test]
fn skipped_elements_and_malformed_comments_leave_warnings() {
    let v = obj(vec![
        ("request", obj(vec![])),
        ("response", JsonValue::Arr(vec![])),
        (
            "providerStates",
            JsonValue::Arr(vec![
                obj(vec![("name", s("good"))]),
                JsonValue::Int(3),
            ]),
        ),
        ("comments", s("not an object")),
    ]);
    let (sm, warnings) = SynchronousMessages::from_json_with_warnings(&v, 0).unwrap();
    assert_eq!(sm.provider_states.len(), 1);
    assert!(sm.comments.is_empty());
    assert_eq!(warnings.len(), 2);
    assert!(warnings[0].contains("provider state element skipped"));
    assert!(warnings[1].contains("comments must be a JSON object"));
}

#[test]
fn scalar_metadata_values_project_onto_the_content_type() {
    let mut m = MessageContents::empty();
    m.contents = Body::Present {
        content: b"x".to_vec(),
        content_type: None,
    };
    m.metadata
        .push(("content-type".to_string(), JsonValue::Int(7)));
    assert_eq!(m.message_content_type(), Some("7".to_string()));
}

#[test]
fn counts_fit_guards_the_codec() {
    let mut sm = sample_interaction();
    assert!(sm.counts_fit());
    sm.request.matching_rules = MatchingRules {
        categories: vec![(
            "body".to_string(),
            vec![(
                "$".to_string(),
                RuleGroup { or_logic: false, rules: vec![MatchingRule::MinType(u64::MAX)] },
            )],
        )],
    };
    assert!(!sm.counts_fit());
}
