use pact_core::json::JsonValue;
use pact_core::bodies::Body;
use pact_core::message::MessageContents;
use pact_core::matchingrules::{MatchingRule, MatchingRules, RuleGroup, rule_to_json, rule_from_json, group_to_json, group_from_json};
use pact_core::generators::{Generator, Generators, gen_to_json, gen_from_json};
use pact_core::response::ResponseBuilder;

#[test]
fn explicit_content_type_wins_over_metadata() {
    let mut m = MessageContents::empty();
    m.contents = Body::Present {
        content: b"{}".to_vec(),
        content_type: Some("application/json".to_string()),
    };
    m.metadata.push((
        "content-type".to_string(),
        JsonValue::Str("text/plain".to_string()),
    ));
    assert_eq!(m.message_content_type(), Some("application/json".to_string()));
}

#[test]
fn metadata_content_type_is_case_insensitive() {
    let mut m = MessageContents::empty();
    m.contents = Body::Present {
        content: b"x".to_vec(),
        content_type: None,
    };
    m.metadata.push((
        "Content-Type".to_string(),
        JsonValue::Str("text/csv".to_string()),
    ));
    assert_eq!(m.message_content_type(), Some("text/csv".to_string()));
}

#[test]
fn content_type_is_sniffed_as_a_last_resort() {
    let mut m = MessageContents::empty();
    m.contents = Body::Present {
        content: b"{\"a\":1}".to_vec(),
        content_type: None,
    };
    assert_eq!(m.message_content_type(), Some("application/json".to_string()));
    let mut x = MessageContents::empty();
    x.contents = Body::Present {
        content: b"<doc/>".to_vec(),
        content_type: None,
    };
    assert_eq!(x.message_content_type(), Some("application/xml".to_string()));
    let mut u = MessageContents::empty();
    u.contents = Body::Present {
        content: b"plain".to_vec(),
        content_type: None,
    };
    assert_eq!(u.message_content_type(), None);
}

#[test]
fn rules_round_trip() {
    let rules = vec![
        MatchingRule::Equality,
        MatchingRule::Regex("^\\d+$".to_string()),
        MatchingRule::Type,
        MatchingRule::MinType(2),
        MatchingRule::MaxType(9),
        MatchingRule::MinMaxType(1, 4),
        MatchingRule::Include("frag".to_string()),
        MatchingRule::Integer,
        MatchingRule::Number,
        MatchingRule::Boolean,
        MatchingRule::NotEmpty,
        MatchingRule::Date("%Y-%m-%d".to_string()),
        MatchingRule::Time("%H:%M:%S".to_string()),
        MatchingRule::Datetime("%Y-%m-%dT%H:%M:%S".to_string()),
        MatchingRule::EachValue(Box::new(MatchingRule::Type)),
        MatchingRule::EachKey(Box::new(MatchingRule::Regex("^[a-z]+$".to_string()))),
    ];
    for r in rules {
        let v = rule_to_json(&r);
        assert_eq!(rule_from_json(&v), r);
    }
}

#[test]
fn unknown_rule_kinds_survive_a_round_trip() {
    let raw = JsonValue::Obj(vec![
        ("match".to_string(), JsonValue::Str("futureKind".to_string())),
        ("knob".to_string(), JsonValue::Int(3)),
    ]);
    let decoded = rule_from_json(&raw);
    match &decoded {
        MatchingRule::Unknown(payload) => assert_eq!(payload, &raw),
        other => panic!("expected the catch-all case, got {:?}", other),
    }
    assert_eq!(rule_to_json(&decoded), raw);
}

#[test]
fn groups_round_trip() {
    let g = RuleGroup {
        or_logic: true,
        rules: vec![MatchingRule::Type, MatchingRule::NotEmpty],
    };
    let v = group_to_json(&g);
    assert_eq!(group_from_json(&v), g);
}

#[test]
fn generators_round_trip() {
    let gens = vec![
        Generator::RandomInt(0, 10),
        Generator::RandomString(20),
        Generator::RandomBoolean,
        Generator::Uuid,
        Generator::Regex("\\d{4}".to_string()),
        Generator::ProviderState("$.userId".to_string()),
        Generator::MockServerURL(".*".to_string(), "http://localhost/x".to_string()),
        Generator::RequestPath,
    ];
    for g in gens {
        let v = gen_to_json(&g);
        assert_eq!(gen_from_json(&v), g);
    }
}

#[test]
fn rule_table_round_trips_inside_a_message() {
    let mut m = MessageContents::empty();
    m.matching_rules = MatchingRules {
        categories: vec![(
            "body".to_string(),
            vec![(
                "$.id".to_string(),
                RuleGroup {
                    or_logic: false,
                    rules: vec![MatchingRule::Integer],
                },
            )],
        )],
    };
    m.generators = Generators {
        categories: vec![(
            "body".to_string(),
            vec![("$.id".to_string(), Generator::RandomInt(1, 99))],
        )],
    };
    let v = m.to_json();
    let back = MessageContents::from_json(&v).unwrap();
    assert_eq!(back, m);
}

#[test]
fn response_builder_records_status_codes() {
    let mut b = ResponseBuilder::default();
    b.status(418);
    assert_eq!(b.build().status, 418);
    let mut b = ResponseBuilder::default();
    b.not_found();
    assert_eq!(b.build().status, 404);
    let mut b = ResponseBuilder::default();
    b.created();
    let mut c = ResponseBuilder::default();
    c.no_content();
    let mut u = ResponseBuilder::default();
    u.unauthorized();
    let mut f = ResponseBuilder::default();
    f.forbidden();
    let mut o = ResponseBuilder::default();
    o.ok();
    assert_eq!(b.build().status, 201);
    assert_eq!(c.build().status, 204);
    assert_eq!(u.build().status, 401);
    assert_eq!(f.build().status, 403);
    assert_eq!(o.build().status, 200);
}

#[test]
fn response_builder_accumulates_fragments() {
    let mut b = ResponseBuilder::default();
    b.status(200);
    b.header("content-type".to_string(), "application/json".to_string());
    b.body(Body::Present {
        content: b"{}".to_vec(),
        content_type: Some("application/json".to_string()),
    });
    b.matching_rule(
        "body".to_string(),
        "$.id".to_string(),
        RuleGroup {
            or_logic: false,
            rules: vec![MatchingRule::Integer],
        },
    );
    let r = b.build();
    assert_eq!(r.status, 200);
    assert_eq!(r.headers.len(), 1);
    assert_eq!(r.headers[0].0, "content-type");
    assert_eq!(r.headers[0].1, vec!["application/json".to_string()]);
    assert_eq!(r.matching_rules.categories.len(), 1);
}

#[test]
fn interaction_accessors_report_the_variant() {
    let sm = pact_core::sync_message::SynchronousMessages::default();
    assert!(!sm.is_request_response());
    assert!(!sm.is_message());
    assert_eq!(sm.v4_type(), "Synchronous/Messages");
    assert_eq!(sm.type_of(), "V4 Synchronous/Messages");
    assert_eq!(sm.contents(), Body::Missing);
    assert_eq!(sm.contents_for_verification(), Body::Missing);
    assert!(!sm.pending());
}
