//! Matching rules: the per-path predicates that say how liberally an actual
//! value may differ from the recorded expected one, grouped per category and
//! path, with their JSON codec.

use vstd::prelude::*;
use crate::json::{JsonValue, JsonData, spec_lookup, spec_lookup_from, spec_entries, entries_get, entries_find};
use crate::strutil::str_eq;

verus! {

/// The mathematical model of one matching rule.
#[verifier::ext_equal]
pub ghost enum RuleModel {
    Equality,
    Regex(Seq<char>),
    Type,
    MinType(int),
    MaxType(int),
    MinMaxType(int, int),
    Include(Seq<char>),
    Integer,
    Number,
    Boolean,
    NotEmpty,
    Date(Seq<char>),
    Time(Seq<char>),
    Datetime(Seq<char>),
    EachValue(Box<RuleModel>),
    EachKey(Box<RuleModel>),
    Unknown(JsonData),
}

/// One matching rule. An unrecognized rule kind is kept whole, raw payload and
/// all, so that nothing is lost on a round trip through newer contract files.
#[derive(Debug, PartialEq)]
pub enum MatchingRule {
    Equality,
    Regex(String),
    Type,
    MinType(u64),
    MaxType(u64),
    MinMaxType(u64, u64),
    Include(String),
    Integer,
    Number,
    Boolean,
    NotEmpty,
    Date(String),
    Time(String),
    Datetime(String),
    EachValue(Box<MatchingRule>),
    EachKey(Box<MatchingRule>),
    Unknown(JsonValue),
}

impl View for MatchingRule {
    type V = RuleModel;

    open spec fn view(&self) -> RuleModel
        decreases self,
    {
        match self {
            MatchingRule::Equality => RuleModel::Equality,
            MatchingRule::Regex(p) => RuleModel::Regex(p@),
            MatchingRule::Type => RuleModel::Type,
            MatchingRule::MinType(n) => RuleModel::MinType(*n as int),
            MatchingRule::MaxType(n) => RuleModel::MaxType(*n as int),
            MatchingRule::MinMaxType(a, b) => RuleModel::MinMaxType(*a as int, *b as int),
            MatchingRule::Include(s) => RuleModel::Include(s@),
            MatchingRule::Integer => RuleModel::Integer,
            MatchingRule::Number => RuleModel::Number,
            MatchingRule::Boolean => RuleModel::Boolean,
            MatchingRule::NotEmpty => RuleModel::NotEmpty,
            MatchingRule::Date(f) => RuleModel::Date(f@),
            MatchingRule::Time(f) => RuleModel::Time(f@),
            MatchingRule::Datetime(f) => RuleModel::Datetime(f@),
            MatchingRule::EachValue(b) => RuleModel::EachValue(Box::new((**b)@)),
            MatchingRule::EachKey(b) => RuleModel::EachKey(Box::new((**b)@)),
            MatchingRule::Unknown(v) => RuleModel::Unknown(v@),
        }
    }
}

/// The JSON form of one rule.
pub open spec fn spec_rule_to_json(r: RuleModel) -> JsonData
    decreases r,
{
    match r {
        RuleModel::Equality => JsonData::Obj(
            seq![("match"@, JsonData::Str("equality"@))],
        ),
        RuleModel::Regex(p) => JsonData::Obj(
            seq![("match"@, JsonData::Str("regex"@)), ("regex"@, JsonData::Str(p))],
        ),
        RuleModel::Type => JsonData::Obj(seq![("match"@, JsonData::Str("type"@))]),
        RuleModel::MinType(n) => JsonData::Obj(
            seq![("match"@, JsonData::Str("type"@)), ("min"@, JsonData::Int(n))],
        ),
        RuleModel::MaxType(n) => JsonData::Obj(
            seq![("match"@, JsonData::Str("type"@)), ("max"@, JsonData::Int(n))],
        ),
        RuleModel::MinMaxType(a, b) => JsonData::Obj(
            seq![
                ("match"@, JsonData::Str("type"@)),
                ("min"@, JsonData::Int(a)),
                ("max"@, JsonData::Int(b)),
            ],
        ),
        RuleModel::Include(s) => JsonData::Obj(
            seq![("match"@, JsonData::Str("include"@)), ("value"@, JsonData::Str(s))],
        ),
        RuleModel::Integer => JsonData::Obj(seq![("match"@, JsonData::Str("integer"@))]),
        RuleModel::Number => JsonData::Obj(seq![("match"@, JsonData::Str("number"@))]),
        RuleModel::Boolean => JsonData::Obj(seq![("match"@, JsonData::Str("boolean"@))]),
        RuleModel::NotEmpty => JsonData::Obj(seq![("match"@, JsonData::Str("notEmpty"@))]),
        RuleModel::Date(f) => JsonData::Obj(
            seq![("match"@, JsonData::Str("date"@)), ("format"@, JsonData::Str(f))],
        ),
        RuleModel::Time(f) => JsonData::Obj(
            seq![("match"@, JsonData::Str("time"@)), ("format"@, JsonData::Str(f))],
        ),
        RuleModel::Datetime(f) => JsonData::Obj(
            seq![("match"@, JsonData::Str("datetime"@)), ("format"@, JsonData::Str(f))],
        ),
        RuleModel::EachValue(b) => JsonData::Obj(
            seq![
                ("match"@, JsonData::Str("eachValue"@)),
                ("rules"@, JsonData::Arr(seq![spec_rule_to_json(*b)])),
            ],
        ),
        RuleModel::EachKey(b) => JsonData::Obj(
            seq![
                ("match"@, JsonData::Str("eachKey"@)),
                ("rules"@, JsonData::Arr(seq![spec_rule_to_json(*b)])),
            ],
        ),
        RuleModel::Unknown(d) => d,
    }
}

/// The rule read from its JSON form. Unrecognized or malformed rule payloads
/// read as the catch-all case, kept whole: decoding never fails.
pub open spec fn spec_rule_from_json(d: JsonData) -> RuleModel
    decreases d,
    via spec_rule_from_json_decreases
{
    if !(d is Obj) {
        RuleModel::Unknown(d)
    } else {
        let e = d->Obj_0;
        match spec_lookup(e, "match"@) {
            Some(JsonData::Str(m)) => {
                if m == "equality"@ {
                    RuleModel::Equality
                } else if m == "regex"@ {
                    match spec_lookup(e, "regex"@) {
                        Some(JsonData::Str(p)) => RuleModel::Regex(p),
                        _ => RuleModel::Unknown(d),
                    }
                } else if m == "type"@ {
                    match (spec_lookup(e, "min"@), spec_lookup(e, "max"@)) {
                        (Some(JsonData::Int(a)), Some(JsonData::Int(b))) => if 0 <= a <= u64::MAX
                            && 0 <= b <= u64::MAX {
                            RuleModel::MinMaxType(a, b)
                        } else {
                            RuleModel::Unknown(d)
                        },
                        (Some(JsonData::Int(a)), None) => if 0 <= a <= u64::MAX {
                            RuleModel::MinType(a)
                        } else {
                            RuleModel::Unknown(d)
                        },
                        (None, Some(JsonData::Int(b))) => if 0 <= b <= u64::MAX {
                            RuleModel::MaxType(b)
                        } else {
                            RuleModel::Unknown(d)
                        },
                        (None, None) => RuleModel::Type,
                        _ => RuleModel::Unknown(d),
                    }
                } else if m == "include"@ {
                    match spec_lookup(e, "value"@) {
                        Some(JsonData::Str(s)) => RuleModel::Include(s),
                        _ => RuleModel::Unknown(d),
                    }
                } else if m == "integer"@ {
                    RuleModel::Integer
                } else if m == "number"@ {
                    RuleModel::Number
                } else if m == "boolean"@ {
                    RuleModel::Boolean
                } else if m == "notEmpty"@ {
                    RuleModel::NotEmpty
                } else if m == "date"@ {
                    match spec_lookup(e, "format"@) {
                        Some(JsonData::Str(f)) => RuleModel::Date(f),
                        _ => RuleModel::Unknown(d),
                    }
                } else if m == "time"@ {
                    match spec_lookup(e, "format"@) {
                        Some(JsonData::Str(f)) => RuleModel::Time(f),
                        _ => RuleModel::Unknown(d),
                    }
                } else if m == "datetime"@ {
                    match spec_lookup(e, "format"@) {
                        Some(JsonData::Str(f)) => RuleModel::Datetime(f),
                        _ => RuleModel::Unknown(d),
                    }
                } else if m == "eachValue"@ {
                    match spec_lookup(e, "rules"@) {
                        Some(JsonData::Arr(items)) => if items.len() == 1 {
                            RuleModel::EachValue(Box::new(spec_rule_from_json(items[0])))
                        } else {
                            RuleModel::Unknown(d)
                        },
                        _ => RuleModel::Unknown(d),
                    }
                } else if m == "eachKey"@ {
                    match spec_lookup(e, "rules"@) {
                        Some(JsonData::Arr(items)) => if items.len() == 1 {
                            RuleModel::EachKey(Box::new(spec_rule_from_json(items[0])))
                        } else {
                            RuleModel::Unknown(d)
                        },
                        _ => RuleModel::Unknown(d),
                    }
                } else {
                    RuleModel::Unknown(d)
                }
            },
            _ => RuleModel::Unknown(d),
        }
    }
}

#[via_fn]
proof fn spec_rule_from_json_decreases(d: JsonData) {
    if d is Obj {
        let e = d->Obj_0;
        match spec_lookup(e, "match"@) {
            Some(JsonData::Str(m)) => {
                match spec_lookup(e, "rules"@) {
                    Some(JsonData::Arr(items)) => {
                        crate::json::lemma_lookup_decreases(d, "rules"@);
                        if items.len() == 1 {
                            assert(decreases_to!(JsonData::Arr(items) => items));
                            assert(decreases_to!(items => items[0]));
                        }
                    },
                    _ => {},
                }
            },
            _ => {},
        }
    }
}

/// Well-formedness of a rule model: counts fit the machine word, nested rules
/// are well formed, and a kept raw payload is one that really reads back as
/// itself (which decoding guarantees).
pub open spec fn rule_model_wf(r: RuleModel) -> bool
    decreases r,
{
    match r {
        RuleModel::MinType(n) => 0 <= n <= u64::MAX,
        RuleModel::MaxType(n) => 0 <= n <= u64::MAX,
        RuleModel::MinMaxType(a, b) => 0 <= a <= u64::MAX && 0 <= b <= u64::MAX,
        RuleModel::EachValue(b) => rule_model_wf(*b),
        RuleModel::EachKey(b) => rule_model_wf(*b),
        RuleModel::Unknown(d) => spec_rule_from_json(d) == RuleModel::Unknown(d),
        _ => true,
    }
}

/// Whatever JSON is read, the rule it decodes to is well formed.
pub proof fn lemma_rule_from_json_wf(d: JsonData)
    ensures
        rule_model_wf(spec_rule_from_json(d)),
    decreases d,
{
    let r = spec_rule_from_json(d);
    if d is Obj {
        let e = d->Obj_0;
        match spec_lookup(e, "match"@) {
            Some(JsonData::Str(m)) => {
                if m == "eachValue"@ || m == "eachKey"@ {
                    match spec_lookup(e, "rules"@) {
                        Some(JsonData::Arr(items)) => {
                            if items.len() == 1 {
                                crate::json::lemma_lookup_decreases(d, "rules"@);
                                assert(decreases_to!(JsonData::Arr(items) => items));
                                assert(decreases_to!(items => items[0]));
                                lemma_rule_from_json_wf(items[0]);
                            }
                        },
                        _ => {},
                    }
                }
            },
            _ => {},
        }
    }
}

/// A well-formed rule reads back from its JSON form unchanged.
pub proof fn lemma_rule_round_trip(r: RuleModel)
    requires
        rule_model_wf(r),
    ensures
        spec_rule_from_json(spec_rule_to_json(r)) == r,
    decreases r,
{
    reveal_strlit("match");
    reveal_strlit("regex");
    reveal_strlit("min");
    reveal_strlit("max");
    reveal_strlit("value");
    reveal_strlit("rules");
    reveal_strlit("equality");
    reveal_strlit("type");
    reveal_strlit("include");
    reveal_strlit("integer");
    reveal_strlit("number");
    reveal_strlit("boolean");
    reveal_strlit("notEmpty");
    reveal_strlit("eachValue");
    reveal_strlit("eachKey");
    reveal_strlit("date");
    reveal_strlit("time");
    reveal_strlit("datetime");
    reveal_strlit("format");
    assert("date"@.len() == 4);
    assert("time"@.len() == 4);
    assert("datetime"@.len() == 8);
    assert("format"@.len() == 6);
    assert("date"@[0] == 'd' && "type"@[0] == 't' && "time"@[0] == 't');
    assert("date"@ != "type"@ && "date"@ != "time"@);
    assert("time"@[1] == 'i' && "type"@[1] == 'y');
    assert("time"@ != "type"@);
    assert("datetime"@[0] == 'd' && "equality"@[0] == 'e' && "notEmpty"@[0] == 'n');
    assert("datetime"@ != "equality"@ && "datetime"@ != "notEmpty"@);
    assert("match"@.len() == 5);
    assert("regex"@.len() == 5);
    assert("min"@.len() == 3);
    assert("max"@.len() == 3);
    assert("value"@.len() == 5);
    assert("rules"@.len() == 5);
    assert("min"@[1] == 'i' && "max"@[1] == 'a');
    assert("min"@ != "max"@);
    assert("equality"@.len() == 8);
    assert("type"@.len() == 4);
    assert("include"@.len() == 7);
    assert("integer"@.len() == 7);
    assert("number"@.len() == 6);
    assert("boolean"@.len() == 7);
    assert("notEmpty"@.len() == 8);
    assert("eachValue"@.len() == 9);
    assert("eachKey"@.len() == 7);
    assert("eachKey"@[0] == 'e' && "include"@[0] == 'i' && "integer"@[0] == 'i'
        && "boolean"@[0] == 'b');
    assert("eachKey"@ != "include"@ && "eachKey"@ != "integer"@ && "eachKey"@ != "boolean"@);
    assert("include"@[0] == 'i' && "integer"@[0] == 'i' && "boolean"@[0] == 'b');
    assert("include"@[2] == 'c' && "integer"@[2] == 't');
    assert("include"@ != "integer"@ && "include"@ != "boolean"@ && "integer"@ != "boolean"@);
    assert("equality"@[0] == 'e' && "notEmpty"@[0] == 'n');
    assert("equality"@ != "notEmpty"@);
    let d = spec_rule_to_json(r);
    match r {
        RuleModel::Unknown(p) => {
            assert(spec_rule_to_json(r) == p);
            assert(spec_rule_from_json(p) == RuleModel::Unknown(p));
            assert(spec_rule_from_json(spec_rule_to_json(r)) == r);
        },
        RuleModel::EachValue(b) => {
            let e = d->Obj_0;
            assert(spec_lookup(e, "match"@) == Some(JsonData::Str("eachValue"@)));
            assert(e[1].0 == "rules"@);
            assert("match"@[0] == 'm' && "rules"@[0] == 'r');
            assert("match"@ != "rules"@);
            assert(spec_lookup_from(e, "rules"@, 1) == Some(e[1].1));
            assert(spec_lookup(e, "rules"@) == Some(e[1].1));
            lemma_rule_round_trip(*b);
        },
        RuleModel::EachKey(b) => {
            let e = d->Obj_0;
            assert(spec_lookup(e, "match"@) == Some(JsonData::Str("eachKey"@)));
            assert(e[1].0 == "rules"@);
            assert("match"@[0] == 'm' && "rules"@[0] == 'r');
            assert("match"@ != "rules"@);
            assert(spec_lookup_from(e, "rules"@, 1) == Some(e[1].1));
            assert(spec_lookup(e, "rules"@) == Some(e[1].1));
            lemma_rule_round_trip(*b);
        },
        RuleModel::Equality => {
            let e = d->Obj_0;
            assert(spec_lookup(e, "match"@) == Some(e[0].1));
        },
        RuleModel::Regex(p) => {
            let e = d->Obj_0;
            assert(spec_lookup(e, "match"@) == Some(e[0].1));
            assert("match"@[0] == 'm' && "regex"@[0] == 'r');
            assert("match"@ != "regex"@);
            assert(spec_lookup_from(e, "regex"@, 1) == Some(JsonData::Str(p)));
            assert(spec_lookup(e, "regex"@) == Some(JsonData::Str(p)));
        },
        RuleModel::Type => {
            let e = d->Obj_0;
            assert(spec_lookup(e, "match"@) == Some(e[0].1));
            assert(spec_lookup_from(e, "min"@, 1) is None);
            assert(spec_lookup(e, "min"@) is None);
            assert(spec_lookup_from(e, "max"@, 1) is None);
            assert(spec_lookup(e, "max"@) is None);
        },
        RuleModel::MinType(n) => {
            let e = d->Obj_0;
            assert(spec_lookup(e, "match"@) == Some(e[0].1));
            assert(spec_lookup_from(e, "min"@, 1) == Some(JsonData::Int(n)));
            assert(spec_lookup(e, "min"@) == Some(JsonData::Int(n)));
            assert(spec_lookup_from(e, "max"@, 2) is None);
            assert(spec_lookup_from(e, "max"@, 1) is None);
            assert(spec_lookup(e, "max"@) is None);
        },
        RuleModel::MaxType(n) => {
            let e = d->Obj_0;
            assert(spec_lookup(e, "match"@) == Some(e[0].1));
            assert(spec_lookup_from(e, "max"@, 1) == Some(JsonData::Int(n)));
            assert(spec_lookup(e, "max"@) == Some(JsonData::Int(n)));
            assert(spec_lookup_from(e, "min"@, 2) is None);
            assert(spec_lookup_from(e, "min"@, 1) is None);
            assert(spec_lookup(e, "min"@) is None);
        },
        RuleModel::MinMaxType(a, b) => {
            let e = d->Obj_0;
            assert(spec_lookup(e, "match"@) == Some(e[0].1));
            assert(spec_lookup_from(e, "min"@, 1) == Some(JsonData::Int(a)));
            assert(spec_lookup(e, "min"@) == Some(JsonData::Int(a)));
            assert(spec_lookup_from(e, "max"@, 2) == Some(JsonData::Int(b)));
            assert(spec_lookup_from(e, "max"@, 1) == Some(JsonData::Int(b)));
            assert(spec_lookup(e, "max"@) == Some(JsonData::Int(b)));
        },
        RuleModel::Include(v) => {
            let e = d->Obj_0;
            assert(spec_lookup(e, "match"@) == Some(e[0].1));
            assert("match"@[0] == 'm' && "value"@[0] == 'v');
            assert("match"@ != "value"@);
            assert(spec_lookup_from(e, "value"@, 1) == Some(JsonData::Str(v)));
            assert(spec_lookup(e, "value"@) == Some(JsonData::Str(v)));
        },
        RuleModel::Integer => {
            let e = d->Obj_0;
            assert(spec_lookup(e, "match"@) == Some(e[0].1));
        },
        RuleModel::Number => {
            let e = d->Obj_0;
            assert(spec_lookup(e, "match"@) == Some(e[0].1));
        },
        RuleModel::Boolean => {
            let e = d->Obj_0;
            assert(spec_lookup(e, "match"@) == Some(e[0].1));
        },
        RuleModel::NotEmpty => {
            let e = d->Obj_0;
            assert(spec_lookup(e, "match"@) == Some(e[0].1));
        },
        RuleModel::Date(f) => {
            let e = d->Obj_0;
            assert(spec_lookup(e, "match"@) == Some(e[0].1));
            assert(spec_lookup_from(e, "format"@, 1) == Some(JsonData::Str(f)));
            assert(spec_lookup(e, "format"@) == Some(JsonData::Str(f)));
        },
        RuleModel::Time(f) => {
            let e = d->Obj_0;
            assert(spec_lookup(e, "match"@) == Some(e[0].1));
            assert(spec_lookup_from(e, "format"@, 1) == Some(JsonData::Str(f)));
            assert(spec_lookup(e, "format"@) == Some(JsonData::Str(f)));
        },
        RuleModel::Datetime(f) => {
            let e = d->Obj_0;
            assert(spec_lookup(e, "match"@) == Some(e[0].1));
            assert(spec_lookup_from(e, "format"@, 1) == Some(JsonData::Str(f)));
            assert(spec_lookup(e, "format"@) == Some(JsonData::Str(f)));
        },
    }
}

/// Whether the counts in a rule fit a JSON integer of the codec.
pub open spec fn rule_counts_fit(r: RuleModel) -> bool
    decreases r,
{
    match r {
        RuleModel::MinType(n) => n <= i64::MAX,
        RuleModel::MaxType(n) => n <= i64::MAX,
        RuleModel::MinMaxType(a, b) => a <= i64::MAX && b <= i64::MAX,
        RuleModel::EachValue(b) => rule_counts_fit(*b),
        RuleModel::EachKey(b) => rule_counts_fit(*b),
        _ => true,
    }
}

/// Encodes one rule as JSON.
pub fn rule_to_json(r: &MatchingRule) -> (v: JsonValue)
    requires
        rule_counts_fit(r@),
    ensures
        v@ == spec_rule_to_json(r@),
    decreases r,
{
    let m = String::from_str("match");
    match r {
        MatchingRule::Equality => {
            let mut e: Vec<(String, JsonValue)> = Vec::new();
            e.push((m, JsonValue::Str(String::from_str("equality"))));
            proof {
                assert(spec_entries(e@) =~= spec_rule_to_json(r@)->Obj_0);
            }
            JsonValue::Obj(e)
        },
        MatchingRule::Regex(p) => {
            let mut e: Vec<(String, JsonValue)> = Vec::new();
            e.push((m, JsonValue::Str(String::from_str("regex"))));
            e.push((String::from_str("regex"), JsonValue::Str(p.clone())));
            proof {
                assert(spec_entries(e@) =~= spec_rule_to_json(r@)->Obj_0);
            }
            JsonValue::Obj(e)
        },
        MatchingRule::Type => {
            let mut e: Vec<(String, JsonValue)> = Vec::new();
            e.push((m, JsonValue::Str(String::from_str("type"))));
            proof {
                assert(spec_entries(e@) =~= spec_rule_to_json(r@)->Obj_0);
            }
            JsonValue::Obj(e)
        },
        MatchingRule::MinType(n) => {
            let mut e: Vec<(String, JsonValue)> = Vec::new();
            e.push((m, JsonValue::Str(String::from_str("type"))));
            e.push((String::from_str("min"), JsonValue::Int(*n as i64)));
            proof {
                assert(spec_entries(e@) =~= spec_rule_to_json(r@)->Obj_0);
            }
            JsonValue::Obj(e)
        },
        MatchingRule::MaxType(n) => {
            let mut e: Vec<(String, JsonValue)> = Vec::new();
            e.push((m, JsonValue::Str(String::from_str("type"))));
            e.push((String::from_str("max"), JsonValue::Int(*n as i64)));
            proof {
                assert(spec_entries(e@) =~= spec_rule_to_json(r@)->Obj_0);
            }
            JsonValue::Obj(e)
        },
        MatchingRule::MinMaxType(a, b) => {
            let mut e: Vec<(String, JsonValue)> = Vec::new();
            e.push((m, JsonValue::Str(String::from_str("type"))));
            e.push((String::from_str("min"), JsonValue::Int(*a as i64)));
            e.push((String::from_str("max"), JsonValue::Int(*b as i64)));
            proof {
                assert(spec_entries(e@) =~= spec_rule_to_json(r@)->Obj_0);
            }
            JsonValue::Obj(e)
        },
        MatchingRule::Include(v) => {
            let mut e: Vec<(String, JsonValue)> = Vec::new();
            e.push((m, JsonValue::Str(String::from_str("include"))));
            e.push((String::from_str("value"), JsonValue::Str(v.clone())));
            proof {
                assert(spec_entries(e@) =~= spec_rule_to_json(r@)->Obj_0);
            }
            JsonValue::Obj(e)
        },
        MatchingRule::Integer => {
            let mut e: Vec<(String, JsonValue)> = Vec::new();
            e.push((m, JsonValue::Str(String::from_str("integer"))));
            proof {
                assert(spec_entries(e@) =~= spec_rule_to_json(r@)->Obj_0);
            }
            JsonValue::Obj(e)
        },
        MatchingRule::Number => {
            let mut e: Vec<(String, JsonValue)> = Vec::new();
            e.push((m, JsonValue::Str(String::from_str("number"))));
            proof {
                assert(spec_entries(e@) =~= spec_rule_to_json(r@)->Obj_0);
            }
            JsonValue::Obj(e)
        },
        MatchingRule::Boolean => {
            let mut e: Vec<(String, JsonValue)> = Vec::new();
            e.push((m, JsonValue::Str(String::from_str("boolean"))));
            proof {
                assert(spec_entries(e@) =~= spec_rule_to_json(r@)->Obj_0);
            }
            JsonValue::Obj(e)
        },
        MatchingRule::NotEmpty => {
            let mut e: Vec<(String, JsonValue)> = Vec::new();
            e.push((m, JsonValue::Str(String::from_str("notEmpty"))));
            proof {
                assert(spec_entries(e@) =~= spec_rule_to_json(r@)->Obj_0);
            }
            JsonValue::Obj(e)
        },
        MatchingRule::Date(f) => {
            let mut e: Vec<(String, JsonValue)> = Vec::new();
            e.push((m, JsonValue::Str(String::from_str("date"))));
            e.push((String::from_str("format"), JsonValue::Str(f.clone())));
            proof {
                assert(spec_entries(e@) =~= spec_rule_to_json(r@)->Obj_0);
            }
            JsonValue::Obj(e)
        },
        MatchingRule::Time(f) => {
            let mut e: Vec<(String, JsonValue)> = Vec::new();
            e.push((m, JsonValue::Str(String::from_str("time"))));
            e.push((String::from_str("format"), JsonValue::Str(f.clone())));
            proof {
                assert(spec_entries(e@) =~= spec_rule_to_json(r@)->Obj_0);
            }
            JsonValue::Obj(e)
        },
        MatchingRule::Datetime(f) => {
            let mut e: Vec<(String, JsonValue)> = Vec::new();
            e.push((m, JsonValue::Str(String::from_str("datetime"))));
            e.push((String::from_str("format"), JsonValue::Str(f.clone())));
            proof {
                assert(spec_entries(e@) =~= spec_rule_to_json(r@)->Obj_0);
            }
            JsonValue::Obj(e)
        },
        MatchingRule::EachValue(b) => {
            let inner = rule_to_json(b);
            let mut items: Vec<JsonValue> = Vec::new();
            items.push(inner);
            proof {
                assert(crate::json::spec_arr_view(items@) =~= seq![
                    spec_rule_to_json(*r@->EachValue_0),
                ]);
            }
            let mut e: Vec<(String, JsonValue)> = Vec::new();
            e.push((m, JsonValue::Str(String::from_str("eachValue"))));
            e.push((String::from_str("rules"), JsonValue::Arr(items)));
            proof {
                assert(spec_entries(e@) =~= spec_rule_to_json(r@)->Obj_0);
            }
            JsonValue::Obj(e)
        },
        MatchingRule::EachKey(b) => {
            let inner = rule_to_json(b);
            let mut items: Vec<JsonValue> = Vec::new();
            items.push(inner);
            proof {
                assert(crate::json::spec_arr_view(items@) =~= seq![
                    spec_rule_to_json(*r@->EachKey_0),
                ]);
            }
            let mut e: Vec<(String, JsonValue)> = Vec::new();
            e.push((m, JsonValue::Str(String::from_str("eachKey"))));
            e.push((String::from_str("rules"), JsonValue::Arr(items)));
            proof {
                assert(spec_entries(e@) =~= spec_rule_to_json(r@)->Obj_0);
            }
            JsonValue::Obj(e)
        },
        MatchingRule::Unknown(p) => p.deep_copy(),
    }
}

/// Decodes one rule from JSON; an unrecognized or malformed payload is kept
/// whole as the catch-all case, so decoding never fails.
pub fn rule_from_json(v: &JsonValue) -> (r: MatchingRule)
    ensures
        r@ == spec_rule_from_json(v@),
    decreases v,
{
    let entries = match v {
        JsonValue::Obj(entries) => entries,
        _ => {
            return MatchingRule::Unknown(v.deep_copy());
        },
    };
    let m = match entries_get(entries, "match") {
        Some(JsonValue::Str(m)) => m.clone(),
        _ => {
            return MatchingRule::Unknown(v.deep_copy());
        },
    };
    let ms = m.as_str();
    if str_eq(ms, "equality") {
        MatchingRule::Equality
    } else if str_eq(ms, "regex") {
        match entries_get(entries, "regex") {
            Some(JsonValue::Str(p)) => MatchingRule::Regex(p.clone()),
            _ => MatchingRule::Unknown(v.deep_copy()),
        }
    } else if str_eq(ms, "type") {
        let mn = entries_get(entries, "min");
        let mx = entries_get(entries, "max");
        match (mn, mx) {
            (Some(JsonValue::Int(a)), Some(JsonValue::Int(b))) => if 0 <= *a && 0 <= *b {
                MatchingRule::MinMaxType(*a as u64, *b as u64)
            } else {
                MatchingRule::Unknown(v.deep_copy())
            },
            (Some(JsonValue::Int(a)), None) => if 0 <= *a {
                MatchingRule::MinType(*a as u64)
            } else {
                MatchingRule::Unknown(v.deep_copy())
            },
            (None, Some(JsonValue::Int(b))) => if 0 <= *b {
                MatchingRule::MaxType(*b as u64)
            } else {
                MatchingRule::Unknown(v.deep_copy())
            },
            (None, None) => MatchingRule::Type,
            _ => MatchingRule::Unknown(v.deep_copy()),
        }
    } else if str_eq(ms, "include") {
        match entries_get(entries, "value") {
            Some(JsonValue::Str(s)) => MatchingRule::Include(s.clone()),
            _ => MatchingRule::Unknown(v.deep_copy()),
        }
    } else if str_eq(ms, "integer") {
        MatchingRule::Integer
    } else if str_eq(ms, "number") {
        MatchingRule::Number
    } else if str_eq(ms, "boolean") {
        MatchingRule::Boolean
    } else if str_eq(ms, "notEmpty") {
        MatchingRule::NotEmpty
    } else if str_eq(ms, "date") {
        match entries_get(entries, "format") {
            Some(JsonValue::Str(f)) => MatchingRule::Date(f.clone()),
            _ => MatchingRule::Unknown(v.deep_copy()),
        }
    } else if str_eq(ms, "time") {
        match entries_get(entries, "format") {
            Some(JsonValue::Str(f)) => MatchingRule::Time(f.clone()),
            _ => MatchingRule::Unknown(v.deep_copy()),
        }
    } else if str_eq(ms, "datetime") {
        match entries_get(entries, "format") {
            Some(JsonValue::Str(f)) => MatchingRule::Datetime(f.clone()),
            _ => MatchingRule::Unknown(v.deep_copy()),
        }
    } else if str_eq(ms, "eachValue") {
        match entries_find(entries, "rules") {
            Some(j) => {
                match &entries[j].1 {
                    JsonValue::Arr(items) => {
                        if items.len() == 1 {
                            let inner = rule_from_json(&items[0]);
                            proof {
                                assert(crate::json::spec_arr_view(items@)[0] == items@[0]@);
                            }
                            MatchingRule::EachValue(Box::new(inner))
                        } else {
                            MatchingRule::Unknown(v.deep_copy())
                        }
                    },
                    _ => MatchingRule::Unknown(v.deep_copy()),
                }
            },
            None => MatchingRule::Unknown(v.deep_copy()),
        }
    } else if str_eq(ms, "eachKey") {
        match entries_find(entries, "rules") {
            Some(j) => {
                match &entries[j].1 {
                    JsonValue::Arr(items) => {
                        if items.len() == 1 {
                            let inner = rule_from_json(&items[0]);
                            proof {
                                assert(crate::json::spec_arr_view(items@)[0] == items@[0]@);
                            }
                            MatchingRule::EachKey(Box::new(inner))
                        } else {
                            MatchingRule::Unknown(v.deep_copy())
                        }
                    },
                    _ => MatchingRule::Unknown(v.deep_copy()),
                }
            },
            None => MatchingRule::Unknown(v.deep_copy()),
        }
    } else {
        MatchingRule::Unknown(v.deep_copy())
    }
}

/// The mathematical model of a rule group.
#[verifier::ext_equal]
pub ghost struct GroupModel {
    pub or_logic: bool,
    pub rules: Seq<RuleModel>,
}

/// The rules attached to one path, with their combination logic: every rule
/// must pass (the default), or any one of them.
#[derive(Debug, PartialEq)]
pub struct RuleGroup {
    pub or_logic: bool,
    pub rules: Vec<MatchingRule>,
}

/// The model of a list of rules.
pub open spec fn spec_rules_view(s: Seq<MatchingRule>) -> Seq<RuleModel> {
    Seq::new(
        s.len(),
        |i: int|
            if 0 <= i < s.len() {
                s[i]@
            } else {
                RuleModel::Type
            },
    )
}

impl View for RuleGroup {
    type V = GroupModel;

    open spec fn view(&self) -> GroupModel {
        GroupModel { or_logic: self.or_logic, rules: spec_rules_view(self.rules@) }
    }
}

/// All counts in a list of rules fit the codec's integers.
pub open spec fn rules_counts_fit(s: Seq<RuleModel>) -> bool {
    forall|i: int| 0 <= i < s.len() ==> rule_counts_fit(#[trigger] s[i])
}

/// All rules in a list are well formed.
pub open spec fn rules_wf(s: Seq<RuleModel>) -> bool {
    forall|i: int| 0 <= i < s.len() ==> rule_model_wf(#[trigger] s[i])
}

/// The JSON forms of a list of rules.
pub open spec fn spec_rules_to_json(s: Seq<RuleModel>) -> Seq<JsonData> {
    Seq::new(
        s.len(),
        |i: int|
            if 0 <= i < s.len() {
                spec_rule_to_json(s[i])
            } else {
                JsonData::Null
            },
    )
}

/// The rules read back from a list of JSON forms.
pub open spec fn spec_rules_from_json(items: Seq<JsonData>) -> Seq<RuleModel> {
    Seq::new(
        items.len(),
        |i: int|
            if 0 <= i < items.len() {
                spec_rule_from_json(items[i])
            } else {
                RuleModel::Type
            },
    )
}

/// The JSON form of a rule group.
pub open spec fn spec_group_to_json(g: GroupModel) -> JsonData {
    JsonData::Obj(
        seq![
            (
                "combine"@,
                JsonData::Str(
                    if g.or_logic {
                        "OR"@
                    } else {
                        "AND"@
                    },
                ),
            ),
            ("matchers"@, JsonData::Arr(spec_rules_to_json(g.rules))),
        ],
    )
}

/// The rule group read from its JSON form; anything malformed reads as an
/// empty group combined with the default logic.
pub open spec fn spec_group_from_json(d: JsonData) -> GroupModel {
    if !(d is Obj) {
        GroupModel { or_logic: false, rules: Seq::empty() }
    } else {
        let e = d->Obj_0;
        let or_logic = spec_lookup(e, "combine"@) == Some(JsonData::Str("OR"@));
        let rules = match spec_lookup(e, "matchers"@) {
            Some(JsonData::Arr(items)) => spec_rules_from_json(items),
            _ => Seq::empty(),
        };
        GroupModel { or_logic, rules }
    }
}

/// A well-formed group reads back from its JSON form unchanged.
pub proof fn lemma_group_round_trip(g: GroupModel)
    requires
        rules_wf(g.rules),
    ensures
        spec_group_from_json(spec_group_to_json(g)) == g,
{
    reveal_strlit("combine");
    reveal_strlit("matchers");
    reveal_strlit("OR");
    reveal_strlit("AND");
    assert("combine"@.len() == 7);
    assert("matchers"@.len() == 8);
    assert("OR"@.len() == 2);
    assert("AND"@.len() == 3);
    let d = spec_group_to_json(g);
    let e = d->Obj_0;
    assert(spec_lookup(e, "combine"@) == Some(e[0].1));
    assert(spec_lookup_from(e, "matchers"@, 1) == Some(e[1].1));
    assert(spec_lookup(e, "matchers"@) == Some(e[1].1));
    let back = spec_rules_from_json(spec_rules_to_json(g.rules));
    assert forall|i: int| 0 <= i < g.rules.len() implies back[i] == g.rules[i] by {
        lemma_rule_round_trip(g.rules[i]);
    }
    assert(back =~= g.rules);
    assert(spec_group_from_json(d) =~= g);
}

impl RuleGroup {
    /// An empty group with the default logic.
    pub fn empty() -> (r: RuleGroup)
        ensures
            r@ == (GroupModel { or_logic: false, rules: Seq::<RuleModel>::empty() }),
    {
        let r = RuleGroup { or_logic: false, rules: Vec::new() };
        proof {
            assert(spec_rules_view(Seq::empty()) =~= Seq::<RuleModel>::empty());
        }
        r
    }
}

/// Encodes a rule group as JSON.
pub fn group_to_json(g: &RuleGroup) -> (v: JsonValue)
    requires
        rules_counts_fit(g@.rules),
    ensures
        v@ == spec_group_to_json(g@),
{
    let mut items: Vec<JsonValue> = Vec::new();
    let mut i: usize = 0;
    while i < g.rules.len()
        invariant
            i <= g.rules@.len(),
            rules_counts_fit(g@.rules),
            g@.rules == spec_rules_view(g.rules@),
            items@.len() == i,
            forall|j: int| 0 <= j < i ==> items@[j]@ == spec_rule_to_json(g@.rules[j]),
        decreases g.rules@.len() - i,
    {
        proof {
            assert(g@.rules[i as int] == g.rules@[i as int]@);
        }
        let v = rule_to_json(&g.rules[i]);
        items.push(v);
        i += 1;
    }
    let mut e: Vec<(String, JsonValue)> = Vec::new();
    let logic = if g.or_logic {
        String::from_str("OR")
    } else {
        String::from_str("AND")
    };
    e.push((String::from_str("combine"), JsonValue::Str(logic)));
    e.push((String::from_str("matchers"), JsonValue::Arr(items)));
    proof {
        assert(crate::json::spec_arr_view(items@) =~= spec_rules_to_json(g@.rules));
        assert(spec_entries(e@) =~= spec_group_to_json(g@)->Obj_0);
    }
    JsonValue::Obj(e)
}

/// Decodes a rule group from JSON.
pub fn group_from_json(v: &JsonValue) -> (g: RuleGroup)
    ensures
        g@ == spec_group_from_json(v@),
{
    let entries = match v {
        JsonValue::Obj(entries) => entries,
        _ => {
            return RuleGroup::empty();
        },
    };
    let or_logic = match entries_get(entries, "combine") {
        Some(JsonValue::Str(s)) => str_eq(s.as_str(), "OR"),
        _ => false,
    };
    let mut rules: Vec<MatchingRule> = Vec::new();
    match entries_find(entries, "matchers") {
        Some(j) => {
            match &entries[j].1 {
                JsonValue::Arr(items) => {
                    let mut i: usize = 0;
                    while i < items.len()
                        invariant
                            i <= items@.len(),
                            rules@.len() == i,
                            forall|k: int| 0 <= k < i ==> rules@[k]@ == spec_rule_from_json(
                                items@[k]@,
                            ),
                        decreases items@.len() - i,
                    {
                        let r = rule_from_json(&items[i]);
                        rules.push(r);
                        i += 1;
                    }
                    proof {
                        assert(spec_rules_view(rules@) =~= spec_rules_from_json(
                            crate::json::spec_arr_view(items@),
                        ));
                    }
                    let g = RuleGroup { or_logic, rules };
                    proof {
                        assert(g@ =~= spec_group_from_json(v@));
                    }
                    return g;
                },
                _ => {},
            }
        },
        None => {},
    }
    let g = RuleGroup { or_logic, rules };
    proof {
        assert(spec_rules_view(Seq::empty()) =~= Seq::<RuleModel>::empty());
        assert(g@ =~= spec_group_from_json(v@));
    }
    g
}

/// The model of one category's path table.
pub type CategoryModel = Seq<(Seq<char>, GroupModel)>;

/// The model of a full rule table: category name to path table.
pub type TableModel = Seq<(Seq<char>, CategoryModel)>;

/// The full rule table of an interaction part: for each category (body,
/// header, metadata, ...) the groups attached to each path.
#[derive(Debug, PartialEq)]
pub struct MatchingRules {
    pub categories: Vec<(String, Vec<(String, RuleGroup)>)>,
}

/// The model of one category's entry list.
pub open spec fn spec_category_view(s: Seq<(String, RuleGroup)>) -> CategoryModel {
    Seq::new(
        s.len(),
        |i: int|
            if 0 <= i < s.len() {
                (s[i].0@, s[i].1@)
            } else {
                (Seq::empty(), GroupModel { or_logic: false, rules: Seq::empty() })
            },
    )
}

/// The model of the whole category list.
pub open spec fn spec_table_view(s: Seq<(String, Vec<(String, RuleGroup)>)>) -> TableModel {
    Seq::new(
        s.len(),
        |i: int|
            if 0 <= i < s.len() {
                (s[i].0@, spec_category_view(s[i].1@))
            } else {
                (Seq::empty(), Seq::empty())
            },
    )
}

impl View for MatchingRules {
    type V = TableModel;

    open spec fn view(&self) -> TableModel {
        spec_table_view(self.categories@)
    }
}

/// Every group in a table has well-formed rules.
pub open spec fn table_wf(t: TableModel) -> bool {
    forall|i: int, j: int|
        0 <= i < t.len() && 0 <= j < t[i].1.len() ==> rules_wf((#[trigger] t[i].1[j]).1.rules)
}

/// Every count in a table fits the codec's integers.
pub open spec fn table_counts_fit(t: TableModel) -> bool {
    forall|i: int, j: int|
        0 <= i < t.len() && 0 <= j < t[i].1.len() ==> rules_counts_fit(
            (#[trigger] t[i].1[j]).1.rules,
        )
}

/// The JSON form of one category's path table.
pub open spec fn spec_category_to_json(c: CategoryModel) -> JsonData {
    JsonData::Obj(
        Seq::new(
            c.len(),
            |i: int|
                if 0 <= i < c.len() {
                    (c[i].0, spec_group_to_json(c[i].1))
                } else {
                    (Seq::empty(), JsonData::Null)
                },
        ),
    )
}

/// The JSON form of a full rule table.
pub open spec fn spec_table_to_json(t: TableModel) -> JsonData {
    JsonData::Obj(
        Seq::new(
            t.len(),
            |i: int|
                if 0 <= i < t.len() {
                    (t[i].0, spec_category_to_json(t[i].1))
                } else {
                    (Seq::empty(), JsonData::Null)
                },
        ),
    )
}

/// One category's path table read from its JSON form.
pub open spec fn spec_category_from_json(d: JsonData) -> CategoryModel {
    if !(d is Obj) {
        Seq::empty()
    } else {
        let e = d->Obj_0;
        Seq::new(
            e.len(),
            |i: int|
                if 0 <= i < e.len() {
                    (e[i].0, spec_group_from_json(e[i].1))
                } else {
                    (Seq::empty(), GroupModel { or_logic: false, rules: Seq::empty() })
                },
        )
    }
}

/// A full rule table read from its JSON form; anything malformed reads as
/// empty.
pub open spec fn spec_table_from_json(d: JsonData) -> TableModel {
    if !(d is Obj) {
        Seq::empty()
    } else {
        let e = d->Obj_0;
        Seq::new(
            e.len(),
            |i: int|
                if 0 <= i < e.len() {
                    (e[i].0, spec_category_from_json(e[i].1))
                } else {
                    (Seq::empty(), Seq::empty())
                },
        )
    }
}

/// A well-formed table reads back from its JSON form unchanged.
pub proof fn lemma_table_round_trip(t: TableModel)
    requires
        table_wf(t),
    ensures
        spec_table_from_json(spec_table_to_json(t)) == t,
{
    let back = spec_table_from_json(spec_table_to_json(t));
    assert forall|i: int| 0 <= i < t.len() implies back[i] == t[i] by {
        let c = t[i].1;
        let cback = spec_category_from_json(spec_category_to_json(c));
        assert forall|j: int| 0 <= j < c.len() implies cback[j] == c[j] by {
            assert(rules_wf(c[j].1.rules));
            lemma_group_round_trip(c[j].1);
        }
        assert(cback =~= c);
    }
    assert(back =~= t);
}

impl MatchingRules {
    /// An empty table.
    pub fn empty() -> (r: MatchingRules)
        ensures
            r@ == Seq::<(Seq<char>, CategoryModel)>::empty(),
    {
        let r = MatchingRules { categories: Vec::new() };
        proof {
            assert(r@ =~= Seq::<(Seq<char>, CategoryModel)>::empty());
        }
        r
    }

    /// Whether the table holds no category at all.
    pub fn is_empty(&self) -> (r: bool)
        ensures
            r == (self@.len() == 0),
    {
        self.categories.len() == 0
    }

    /// Encodes the table as JSON.
    pub fn to_json(&self) -> (v: JsonValue)
        requires
            table_counts_fit(self@),
        ensures
            v@ == spec_table_to_json(self@),
    {
        let mut out: Vec<(String, JsonValue)> = Vec::new();
        let mut i: usize = 0;
        while i < self.categories.len()
            invariant
                i <= self.categories@.len(),
                table_counts_fit(self@),
                self@ == spec_table_view(self.categories@),
                out@.len() == i,
                forall|k: int| 0 <= k < i ==> out@[k].0@ == self@[k].0 && out@[k].1@
                    == spec_category_to_json(self@[k].1),
            decreases self.categories@.len() - i,
        {
            let name = self.categories[i].0.clone();
            let cat = &self.categories[i].1;
            let mut centries: Vec<(String, JsonValue)> = Vec::new();
            let mut j: usize = 0;
            while j < cat.len()
                invariant
                    j <= cat@.len(),
                    i < self.categories@.len(),
                    cat == &self.categories@[i as int].1,
                    table_counts_fit(self@),
                    self@ == spec_table_view(self.categories@),
                    centries@.len() == j,
                    forall|k: int| 0 <= k < j ==> centries@[k].0@ == spec_category_view(cat@)[k].0
                        && centries@[k].1@ == spec_group_to_json(spec_category_view(cat@)[k].1),
                decreases cat@.len() - j,
            {
                proof {
                    assert(spec_category_view(cat@)[j as int]
                        == (cat@[j as int].0@, cat@[j as int].1@));
                    assert(self@[i as int].1 == spec_category_view(cat@));
                    assert(rules_counts_fit(cat@[j as int].1@.rules));
                }
                let p = cat[j].0.clone();
                let gv = group_to_json(&cat[j].1);
                centries.push((p, gv));
                j += 1;
            }
            proof {
                assert(spec_entries(centries@) =~= spec_category_to_json(
                    spec_category_view(cat@),
                )->Obj_0);
            }
            out.push((name, JsonValue::Obj(centries)));
            i += 1;
        }
        proof {
            assert(spec_entries(out@) =~= spec_table_to_json(self@)->Obj_0);
        }
        JsonValue::Obj(out)
    }

    /// Decodes a table from JSON; anything malformed reads as empty.
    pub fn from_json(v: &JsonValue) -> (r: MatchingRules)
        ensures
            r@ == spec_table_from_json(v@),
    {
        let entries = match v {
            JsonValue::Obj(entries) => entries,
            _ => {
                let r = MatchingRules::empty();
                proof {
                    assert(r@ =~= spec_table_from_json(v@));
                }
                return r;
            },
        };
        let mut cats: Vec<(String, Vec<(String, RuleGroup)>)> = Vec::new();
        let mut i: usize = 0;
        while i < entries.len()
            invariant
                i <= entries@.len(),
                cats@.len() == i,
                forall|k: int| 0 <= k < i ==> cats@[k].0@ == entries@[k].0@
                    && spec_category_view(cats@[k].1@) == spec_category_from_json(
                    entries@[k].1@,
                ),
            decreases entries@.len() - i,
        {
            let name = entries[i].0.clone();
            let mut paths: Vec<(String, RuleGroup)> = Vec::new();
            match &entries[i].1 {
                JsonValue::Obj(pes) => {
                    let mut j: usize = 0;
                    while j < pes.len()
                        invariant
                            j <= pes@.len(),
                            paths@.len() == j,
                            forall|k: int| 0 <= k < j ==> paths@[k].0@ == pes@[k].0@
                                && paths@[k].1@ == spec_group_from_json(pes@[k].1@),
                        decreases pes@.len() - j,
                    {
                        let p = pes[j].0.clone();
                        let g = group_from_json(&pes[j].1);
                        paths.push((p, g));
                        j += 1;
                    }
                    proof {
                        assert(spec_category_view(paths@) =~= spec_category_from_json(
                            entries@[i as int].1@,
                        ));
                    }
                },
                _ => {
                    proof {
                        assert(spec_category_view(paths@) =~= spec_category_from_json(
                            entries@[i as int].1@,
                        ));
                    }
                },
            }
            cats.push((name, paths));
            i += 1;
        }
        let r = MatchingRules { categories: cats };
        proof {
            assert(r@ =~= spec_table_from_json(v@));
        }
        r
    }
}

impl MatchingRule {
    /// A copy whose model is the same.
    pub fn dup(&self) -> (r: MatchingRule)
        ensures
            r@ == self@,
        decreases self,
    {
        match self {
            MatchingRule::Equality => MatchingRule::Equality,
            MatchingRule::Regex(p) => MatchingRule::Regex(p.clone()),
            MatchingRule::Type => MatchingRule::Type,
            MatchingRule::MinType(n) => MatchingRule::MinType(*n),
            MatchingRule::MaxType(n) => MatchingRule::MaxType(*n),
            MatchingRule::MinMaxType(a, b) => MatchingRule::MinMaxType(*a, *b),
            MatchingRule::Include(s) => MatchingRule::Include(s.clone()),
            MatchingRule::Integer => MatchingRule::Integer,
            MatchingRule::Number => MatchingRule::Number,
            MatchingRule::Boolean => MatchingRule::Boolean,
            MatchingRule::NotEmpty => MatchingRule::NotEmpty,
            MatchingRule::Date(f) => MatchingRule::Date(f.clone()),
            MatchingRule::Time(f) => MatchingRule::Time(f.clone()),
            MatchingRule::Datetime(f) => MatchingRule::Datetime(f.clone()),
            MatchingRule::EachValue(b) => MatchingRule::EachValue(Box::new(b.dup())),
            MatchingRule::EachKey(b) => MatchingRule::EachKey(Box::new(b.dup())),
            MatchingRule::Unknown(v) => MatchingRule::Unknown(v.deep_copy()),
        }
    }
}

/// Structural equality of two rules, decided on their models.
pub fn rule_eq(a: &MatchingRule, b: &MatchingRule) -> (r: bool)
    ensures
        r == (a@ == b@),
    decreases a,
{
    match (a, b) {
        (MatchingRule::Equality, MatchingRule::Equality) => true,
        (MatchingRule::Regex(x), MatchingRule::Regex(y)) => str_eq(x.as_str(), y.as_str()),
        (MatchingRule::Type, MatchingRule::Type) => true,
        (MatchingRule::MinType(x), MatchingRule::MinType(y)) => x == y,
        (MatchingRule::MaxType(x), MatchingRule::MaxType(y)) => x == y,
        (MatchingRule::MinMaxType(x1, x2), MatchingRule::MinMaxType(y1, y2)) => x1 == y1 && x2
            == y2,
        (MatchingRule::Include(x), MatchingRule::Include(y)) => str_eq(x.as_str(), y.as_str()),
        (MatchingRule::Integer, MatchingRule::Integer) => true,
        (MatchingRule::Number, MatchingRule::Number) => true,
        (MatchingRule::Boolean, MatchingRule::Boolean) => true,
        (MatchingRule::NotEmpty, MatchingRule::NotEmpty) => true,
        (MatchingRule::Date(x), MatchingRule::Date(y)) => str_eq(x.as_str(), y.as_str()),
        (MatchingRule::Time(x), MatchingRule::Time(y)) => str_eq(x.as_str(), y.as_str()),
        (MatchingRule::Datetime(x), MatchingRule::Datetime(y)) => str_eq(x.as_str(), y.as_str()),
        (MatchingRule::EachValue(x), MatchingRule::EachValue(y)) => rule_eq(x, y),
        (MatchingRule::EachKey(x), MatchingRule::EachKey(y)) => rule_eq(x, y),
        (MatchingRule::Unknown(x), MatchingRule::Unknown(y)) => crate::json::json_eq(x, y),
        _ => {
            assert(a@ != b@);
            false
        },
    }
}

fn rules_eq_from(a: &Vec<MatchingRule>, b: &Vec<MatchingRule>, i: usize) -> (r: bool)
    requires
        a@.len() == b@.len(),
        i <= a@.len(),
    ensures
        r == (forall|j: int| i <= j < a@.len() ==> a@[j]@ == b@[j]@),
    decreases a@.len() - i,
{
    if i >= a.len() {
        true
    } else if rule_eq(&a[i], &b[i]) {
        rules_eq_from(a, b, i + 1)
    } else {
        false
    }
}

/// Structural equality of two rule groups, decided on their models.
pub fn group_eq(a: &RuleGroup, b: &RuleGroup) -> (r: bool)
    ensures
        r == (a@ == b@),
{
    if a.or_logic != b.or_logic {
        return false;
    }
    if a.rules.len() != b.rules.len() {
        assert(a@.rules.len() != b@.rules.len());
        return false;
    }
    let r = rules_eq_from(&a.rules, &b.rules, 0);
    proof {
        if r {
            assert(spec_rules_view(a.rules@) =~= spec_rules_view(b.rules@));
            assert(a@ =~= b@);
        } else {
            assert(exists|j: int| 0 <= j < a.rules@.len() && a.rules@[j]@ != b.rules@[j]@);
            let j = choose|j: int| 0 <= j < a.rules@.len() && a.rules@[j]@ != b.rules@[j]@;
            assert(a@.rules[j] != b@.rules[j]);
        }
    }
    r
}

fn category_eq_from(
    a: &Vec<(String, RuleGroup)>,
    b: &Vec<(String, RuleGroup)>,
    i: usize,
) -> (r: bool)
    requires
        a@.len() == b@.len(),
        i <= a@.len(),
    ensures
        r == (forall|j: int|
            i <= j < a@.len() ==> a@[j].0@ == b@[j].0@ && a@[j].1@ == b@[j].1@),
    decreases a@.len() - i,
{
    if i >= a.len() {
        true
    } else if str_eq(a[i].0.as_str(), b[i].0.as_str()) && group_eq(&a[i].1, &b[i].1) {
        category_eq_from(a, b, i + 1)
    } else {
        false
    }
}

/// Structural equality of one category's path tables.
pub fn category_eq(a: &Vec<(String, RuleGroup)>, b: &Vec<(String, RuleGroup)>) -> (r: bool)
    ensures
        r == (spec_category_view(a@) == spec_category_view(b@)),
{
    if a.len() != b.len() {
        assert(spec_category_view(a@).len() != spec_category_view(b@).len());
        return false;
    }
    let r = category_eq_from(a, b, 0);
    proof {
        if r {
            assert(spec_category_view(a@) =~= spec_category_view(b@));
        } else {
            assert(exists|j: int|
                0 <= j < a@.len() && !(a@[j].0@ == b@[j].0@ && a@[j].1@ == b@[j].1@));
            let j = choose|j: int|
                0 <= j < a@.len() && !(a@[j].0@ == b@[j].0@ && a@[j].1@ == b@[j].1@);
            assert(spec_category_view(a@)[j] != spec_category_view(b@)[j]);
        }
    }
    r
}

impl MatchingRules {
    /// Structural equality of two rule tables, decided on their models.
    pub fn table_eq(&self, other: &MatchingRules) -> (r: bool)
        ensures
            r == (self@ == other@),
    {
        if self.categories.len() != other.categories.len() {
            assert(self@.len() != other@.len());
            return false;
        }
        let mut i: usize = 0;
        while i < self.categories.len()
            invariant
                i <= self.categories@.len(),
                self.categories@.len() == other.categories@.len(),
                forall|j: int| 0 <= j < i ==> #[trigger] spec_table_view(self.categories@)[j]
                    == spec_table_view(other.categories@)[j],
            decreases self.categories@.len() - i,
        {
            let names = str_eq(self.categories[i].0.as_str(), other.categories[i].0.as_str());
            let cats = category_eq(&self.categories[i].1, &other.categories[i].1);
            if !names || !cats {
                assert(spec_table_view(self.categories@)[i as int] != spec_table_view(
                    other.categories@,
                )[i as int]);
                assert(self@ != other@);
                return false;
            }
            assert(spec_table_view(self.categories@)[i as int] == spec_table_view(
                other.categories@,
            )[i as int]);
            i += 1;
        }
        proof {
            assert(self@ =~= other@);
        }
        true
    }
}

fn rule_counts_ok(r: &MatchingRule) -> (ok: bool)
    ensures
        ok == rule_counts_fit(r@),
    decreases r,
{
    match r {
        MatchingRule::MinType(n) => *n <= 0x7fffffffffffffffu64,
        MatchingRule::MaxType(n) => *n <= 0x7fffffffffffffffu64,
        MatchingRule::MinMaxType(a, b) => *a <= 0x7fffffffffffffffu64 && *b
            <= 0x7fffffffffffffffu64,
        MatchingRule::EachValue(b) => rule_counts_ok(b),
        MatchingRule::EachKey(b) => rule_counts_ok(b),
        _ => true,
    }
}

fn group_counts_ok(g: &RuleGroup) -> (ok: bool)
    ensures
        ok == rules_counts_fit(g@.rules),
{
    let mut i: usize = 0;
    while i < g.rules.len()
        invariant
            i <= g.rules@.len(),
            forall|j: int| 0 <= j < i ==> rule_counts_fit(#[trigger] spec_rules_view(
                g.rules@,
            )[j]),
        decreases g.rules@.len() - i,
    {
        if !rule_counts_ok(&g.rules[i]) {
            assert(!rule_counts_fit(spec_rules_view(g.rules@)[i as int]));
            return false;
        }
        assert(rule_counts_fit(spec_rules_view(g.rules@)[i as int]));
        i += 1;
    }
    true
}

impl MatchingRules {
    /// Whether every count in the table fits the codec's integers, so that
    /// `to_json` may run.
    pub fn counts_fit(&self) -> (ok: bool)
        ensures
            ok == table_counts_fit(self@),
    {
        let mut i: usize = 0;
        while i < self.categories.len()
            invariant
                i <= self.categories@.len(),
                forall|k: int, j: int|
                    0 <= k < i && 0 <= j < self@[k].1.len() ==> rules_counts_fit(
                        (#[trigger] self@[k].1[j]).1.rules,
                    ),
            decreases self.categories@.len() - i,
        {
            let cat = &self.categories[i].1;
            let mut j: usize = 0;
            while j < cat.len()
                invariant
                    j <= cat@.len(),
                    i < self.categories@.len(),
                    cat == &self.categories@[i as int].1,
                    self@[i as int].1 == spec_category_view(cat@),
                    forall|k: int| 0 <= k < j ==> rules_counts_fit(
                        (#[trigger] spec_category_view(cat@)[k]).1.rules,
                    ),
                decreases cat@.len() - j,
            {
                if !group_counts_ok(&cat[j].1) {
                    assert(!rules_counts_fit(spec_category_view(cat@)[j as int].1.rules));
                    assert(!table_counts_fit(self@));
                    return false;
                }
                assert(spec_category_view(cat@)[j as int].1 == cat@[j as int].1@);
                j += 1;
            }
            i += 1;
        }
        true
    }
}

} // verus!
