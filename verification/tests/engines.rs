use pact_core::json::JsonValue;
use pact_core::matchingrules::{MatchingRule, RuleGroup};
use pact_core::paths::{PathPart, parse_path};
use pact_core::generators::Generator;
use pact_core::generation::{
    apply_generator, apply_generators, GenError, GeneratorContext, SeedStream,
};

fn s(v: &str) -> JsonValue {
    JsonValue::Str(v.to_string())
}

fn body_category(path: &str, rules: Vec<MatchingRule>) -> Vec<(String, RuleGroup)> {
    vec![(path.to_string(), RuleGroup { or_logic: false, rules })]
}

fn root() -> Vec<PathPart> {
    Vec::new()
}

#[test]
fn regex_matches_digits() {
    let cat = body_category("$", vec![MatchingRule::Regex("^\\d+$".to_string())]);
    let mismatches = pact_core::matching::matches(&cat, &root(), &s("999"), &s("123"));
    assert!(mismatches.is_empty());
}

#[test]
fn regex_mismatch_cites_path_and_rule() {
    let cat = body_category("$", vec![MatchingRule::Regex("^\\d+$".to_string())]);
    let mismatches = pact_core::matching::matches(&cat, &root(), &s("999"), &s("12a"));
    assert_eq!(mismatches.len(), 1);
    assert_eq!(mismatches[0].path, "$");
    assert_eq!(mismatches[0].kind, "regex");
    assert_eq!(mismatches[0].actual, s("12a"));
}

#[test]
fn min_type_reports_short_arrays() {
    let cat = body_category("$", vec![MatchingRule::MinType(2)]);
    let short = JsonValue::Arr(vec![s("only")]);
    let mismatches = pact_core::matching::matches(&cat, &root(), &JsonValue::Arr(vec![]), &short);
    assert_eq!(mismatches.len(), 1);
    assert_eq!(mismatches[0].kind, "minType");
    let long = JsonValue::Arr(vec![s("a"), s("b")]);
    assert!(pact_core::matching::matches(&cat, &root(), &JsonValue::Arr(vec![]), &long).is_empty());
}

#[test]
fn each_value_reports_the_failing_index() {
    let cat = body_category(
        "$",
        vec![MatchingRule::EachValue(Box::new(MatchingRule::Type))],
    );
    let expected = JsonValue::Arr(vec![s("template")]);
    let actual = JsonValue::Arr(vec![s("a"), JsonValue::Int(2)]);
    let mismatches = pact_core::matching::matches(&cat, &root(), &expected, &actual);
    assert_eq!(mismatches.len(), 1);
    assert_eq!(mismatches[0].path, "$[1]");
    assert_eq!(mismatches[0].kind, "type");
}

#[test]
fn most_specific_path_wins() {
    let cat = vec![
        (
            "$.items[*]".to_string(),
            RuleGroup { or_logic: false, rules: vec![MatchingRule::Boolean] },
        ),
        (
            "$.items[0]".to_string(),
            RuleGroup { or_logic: false, rules: vec![MatchingRule::Integer] },
        ),
    ];
    let path = vec![
        PathPart::Field("items".to_string()),
        PathPart::Index(0),
    ];
    // The exact index is more specific than the wildcard: the integer rule runs.
    let ok = pact_core::matching::matches(&cat, &path, &JsonValue::Int(1), &JsonValue::Int(5));
    assert!(ok.is_empty());
    let bad = pact_core::matching::matches(&cat, &path, &JsonValue::Int(1), &s("five"));
    assert_eq!(bad.len(), 1);
    assert_eq!(bad[0].kind, "integer");
}

#[test]
fn no_applicable_rule_falls_back_to_equality() {
    let cat: Vec<(String, RuleGroup)> = Vec::new();
    assert!(pact_core::matching::matches(&cat, &root(), &s("x"), &s("x")).is_empty());
    let mismatches = pact_core::matching::matches(&cat, &root(), &s("x"), &s("y"));
    assert_eq!(mismatches.len(), 1);
    assert_eq!(mismatches[0].kind, "equality");
}

#[test]
fn or_logic_passes_on_any_rule() {
    let cat = vec![(
        "$".to_string(),
        RuleGroup {
            or_logic: true,
            rules: vec![MatchingRule::Integer, MatchingRule::Boolean],
        },
    )];
    assert!(pact_core::matching::matches(&cat, &root(), &JsonValue::Null, &JsonValue::Bool(true)).is_empty());
    let both = pact_core::matching::matches(&cat, &root(), &JsonValue::Null, &s("no"));
    assert_eq!(both.len(), 2);
}

#[test]
fn matching_is_deterministic() {
    let cat = body_category(
        "$",
        vec![MatchingRule::Regex("^a".to_string()), MatchingRule::Include("zz".to_string())],
    );
    let first = pact_core::matching::matches(&cat, &root(), &s("abc"), &s("bcd"));
    let second = pact_core::matching::matches(&cat, &root(), &s("abc"), &s("bcd"));
    assert_eq!(first, second);
    assert_eq!(first.len(), 2);
}

#[test]
fn paths_parse_and_reject() {
    assert!(parse_path("$.a.b[3][*].*").is_some());
    let parts = parse_path("$.userId").unwrap();
    assert_eq!(parts, vec![PathPart::Field("userId".to_string())]);
    assert!(parse_path("").is_none());
    assert!(parse_path("a.b").is_none());
    assert!(parse_path("$.").is_none());
    assert!(parse_path("$[12").is_none());
    assert!(parse_path("$[x]").is_none());
}

#[test]
fn provider_state_generator_substitutes_the_parameter() {
    let ctx = GeneratorContext {
        provider_state_params: vec![("userId".to_string(), JsonValue::Int(7))],
        mock_server_url: None,
        request_path: None,
    };
    let mut rng = SeedStream::with_seed(1);
    let g = Generator::ProviderState("$.userId".to_string());
    let out = apply_generator(&g, &ctx, &mut rng).unwrap();
    assert_eq!(out, JsonValue::Int(7));
}

#[test]
fn missing_provider_state_param_leaves_the_value_unchanged() {
    let ctx = GeneratorContext {
        provider_state_params: Vec::new(),
        mock_server_url: None,
        request_path: None,
    };
    let mut rng = SeedStream::with_seed(1);
    let g = Generator::ProviderState("$.userId".to_string());
    let err = apply_generator(&g, &ctx, &mut rng).unwrap_err();
    assert_eq!(err, GenError::MissingProviderStateParam("$.userId".to_string()));

    // A whole pass: the failing path keeps its value, the unrelated path is
    // still generated, and the failure is reported without anything thrown.
    let category = vec![
        ("$.userId".to_string(), Generator::ProviderState("$.userId".to_string())),
        ("$.flag".to_string(), Generator::RandomBoolean),
    ];
    let value = JsonValue::Obj(vec![
        ("userId".to_string(), JsonValue::Str("template".to_string())),
        ("flag".to_string(), JsonValue::Null),
    ]);
    let mut reports = Vec::new();
    let out = apply_generators(&category, &value, &ctx, &mut rng, &Vec::new(), &mut reports);
    match &out {
        JsonValue::Obj(entries) => {
            assert_eq!(entries[0].1, JsonValue::Str("template".to_string()));
            assert!(matches!(entries[1].1, JsonValue::Bool(_)));
        }
        other => panic!("expected an object, got {:?}", other),
    }
    assert_eq!(reports.len(), 1);
    assert_eq!(reports[0].path, "$.userId");
    assert_eq!(
        reports[0].error,
        GenError::MissingProviderStateParam("$.userId".to_string())
    );
}

#[test]
fn random_generators_respect_their_bounds() {
    let ctx = GeneratorContext {
        provider_state_params: Vec::new(),
        mock_server_url: None,
        request_path: None,
    };
    let mut rng = SeedStream::with_seed(42);
    match apply_generator(&Generator::RandomInt(5, 9), &ctx, &mut rng).unwrap() {
        JsonValue::Int(v) => assert!((5..=9).contains(&v)),
        other => panic!("expected an integer, got {:?}", other),
    }
    match apply_generator(&Generator::RandomString(12), &ctx, &mut rng).unwrap() {
        JsonValue::Str(v) => assert_eq!(v.chars().count(), 12),
        other => panic!("expected a string, got {:?}", other),
    }
    match apply_generator(&Generator::Uuid, &ctx, &mut rng).unwrap() {
        JsonValue::Str(v) => assert_eq!(v.chars().count(), 36),
        other => panic!("expected a string, got {:?}", other),
    }
}

#[test]
fn seeded_generation_is_reproducible() {
    let ctx = GeneratorContext {
        provider_state_params: Vec::new(),
        mock_server_url: None,
        request_path: None,
    };
    let mut a = SeedStream::with_seed(11);
    let mut b = SeedStream::with_seed(11);
    let x = apply_generator(&Generator::RandomString(8), &ctx, &mut a).unwrap();
    let y = apply_generator(&Generator::RandomString(8), &ctx, &mut b).unwrap();
    assert_eq!(x, y);
}

#[test]
fn mock_server_url_generator_uses_the_context() {
    let ctx = GeneratorContext {
        provider_state_params: Vec::new(),
        mock_server_url: Some("http://127.0.0.1:8080".to_string()),
        request_path: None,
    };
    let mut rng = SeedStream::with_seed(1);
    let g = Generator::MockServerURL(".*".to_string(), "http://example/x".to_string());
    let out = apply_generator(&g, &ctx, &mut rng).unwrap();
    assert_eq!(out, JsonValue::Str("http://127.0.0.1:8080".to_string()));
}

#[test]
fn mismatch_messages_cite_the_rule_parameters() {
    let cat = body_category("$", vec![MatchingRule::Regex("^\\d+$".to_string())]);
    let mismatches = pact_core::matching::matches(&cat, &root(), &s("999"), &s("12a"));
    let msg = mismatches[0].message();
    assert!(msg.contains("$"));
    assert!(msg.contains("^\\d+$"));
    assert!(msg.contains("12a"));

    let cat = body_category("$", vec![MatchingRule::MinType(2)]);
    let short = JsonValue::Arr(vec![s("only")]);
    let mismatches =
        pact_core::matching::matches(&cat, &root(), &JsonValue::Arr(vec![]), &short);
    let msg = mismatches[0].message();
    assert!(msg.contains("minimum length 2"));
}

#[test]
fn date_and_time_matchers_validate_formats() {
    let cat = body_category("$", vec![MatchingRule::Date("%Y-%m-%d".to_string())]);
    assert!(pact_core::matching::matches(&cat, &root(), &s("2000-01-01"), &s("2023-11-05")).is_empty());
    let bad = pact_core::matching::matches(&cat, &root(), &s("2000-01-01"), &s("05/11/2023"));
    assert_eq!(bad.len(), 1);
    assert_eq!(bad[0].kind, "date");

    let cat = body_category("$", vec![MatchingRule::Time("%H:%M:%S".to_string())]);
    assert!(pact_core::matching::matches(&cat, &root(), &s("00:00:00"), &s("23:59:01")).is_empty());
    assert_eq!(
        pact_core::matching::matches(&cat, &root(), &s("00:00:00"), &s("25:99")).len(),
        1
    );

    let cat = body_category(
        "$",
        vec![MatchingRule::Datetime("%Y-%m-%dT%H:%M:%S".to_string())],
    );
    assert!(pact_core::matching::matches(
        &cat,
        &root(),
        &s("2000-01-01T00:00:00"),
        &s("2023-11-05T12:30:00")
    )
    .is_empty());
    assert_eq!(
        pact_core::matching::matches(&cat, &root(), &s("2000-01-01T00:00:00"), &s("never")).len(),
        1
    );
}

#[test]
fn regex_generator_produces_matching_text() {
    let ctx = GeneratorContext {
        provider_state_params: Vec::new(),
        mock_server_url: None,
        request_path: None,
    };
    let mut rng = SeedStream::with_seed(3);
    let g = Generator::Regex("[0-9]{4}".to_string());
    match apply_generator(&g, &ctx, &mut rng).unwrap() {
        JsonValue::Str(v) => {
            assert_eq!(v.chars().count(), 4);
            assert!(v.chars().all(|c| c.is_ascii_digit()));
        }
        other => panic!("expected a string, got {:?}", other),
    }
    // Anchors are outside the generation library's grammar: reported, not silent.
    let bad = Generator::Regex("^now$".to_string());
    assert_eq!(
        apply_generator(&bad, &ctx, &mut rng).unwrap_err(),
        GenError::UnsupportedGenerator
    );
}

#[test]
fn each_key_checks_object_keys() {
    let cat = body_category(
        "$",
        vec![MatchingRule::EachKey(Box::new(MatchingRule::Regex("^[a-z]+$".to_string())))],
    );
    let good = JsonValue::Obj(vec![
        ("alpha".to_string(), JsonValue::Int(1)),
        ("beta".to_string(), JsonValue::Int(2)),
    ]);
    assert!(pact_core::matching::matches(&cat, &root(), &good, &good).is_empty());
    let bad = JsonValue::Obj(vec![
        ("alpha".to_string(), JsonValue::Int(1)),
        ("Bad-Key".to_string(), JsonValue::Int(2)),
    ]);
    let mismatches = pact_core::matching::matches(&cat, &root(), &good, &bad);
    assert_eq!(mismatches.len(), 1);
    assert_eq!(mismatches[0].path, "$.Bad-Key");
    assert_eq!(mismatches[0].kind, "regex");
}
