//! The matching-rule engine: selects the most specific rule group whose path
//! pattern matches the concrete path, evaluates every rule in it, and reports
//! every mismatch rather than the first. With no applicable group, plain
//! structural equality decides.

use vstd::prelude::*;
use crate::json::{JsonValue, JsonData, json_eq, json_to_string, spec_json_to_string};
use crate::strutil::{str_contains, spec_str_contains, push_char, append_dec};
use crate::matchingrules::{MatchingRule, RuleModel, RuleGroup, GroupModel, CategoryModel,
    spec_category_view, spec_rules_view};
use crate::paths::{PathPart, PathPartData, spec_parts_view, parse_path, spec_parse_path,
    path_matches, spec_path_matches, specificity, spec_specificity, append_path_text,
    spec_path_text, lemma_specificity_bounds};
use crate::outside::{regex_valid, regex_is_match, regex_match, date_parses, time_parses,
    datetime_parses, date_parse_check, time_parse_check, datetime_parse_check};

verus! {

/// The mathematical model of one mismatch.
#[verifier::ext_equal]
pub ghost struct MismatchData {
    pub path: Seq<char>,
    pub kind: Seq<char>,
    pub rule: RuleModel,
    pub expected: JsonData,
    pub actual: JsonData,
}

/// One failing rule: where it failed, the rule kind, the rule itself with its
/// parameters, and the two values.
#[derive(Debug, PartialEq)]
pub struct Mismatch {
    pub path: String,
    pub kind: String,
    pub rule: MatchingRule,
    pub expected: JsonValue,
    pub actual: JsonValue,
}

impl View for Mismatch {
    type V = MismatchData;

    open spec fn view(&self) -> MismatchData {
        MismatchData {
            path: self.path@,
            kind: self.kind@,
            rule: self.rule@,
            expected: self.expected@,
            actual: self.actual@,
        }
    }
}

/// The model of a mismatch list.
pub open spec fn spec_mismatches_view(s: Seq<Mismatch>) -> Seq<MismatchData> {
    Seq::new(
        s.len(),
        |i: int|
            if 0 <= i < s.len() {
                s[i]@
            } else {
                MismatchData {
                    path: Seq::empty(),
                    kind: Seq::empty(),
                    rule: RuleModel::Equality,
                    expected: JsonData::Null,
                    actual: JsonData::Null,
                }
            },
    )
}

/// The wording of one rule inside a mismatch message, its parameters included.
pub open spec fn spec_rule_text(r: RuleModel) -> Seq<char>
    decreases r,
{
    match r {
        RuleModel::Equality => "equality"@,
        RuleModel::Regex(p) => "regex pattern "@ + p,
        RuleModel::Type => "type"@,
        RuleModel::MinType(n) => "type with minimum length "@ + crate::json::spec_int_text(n),
        RuleModel::MaxType(n) => "type with maximum length "@ + crate::json::spec_int_text(n),
        RuleModel::MinMaxType(a, b) => "type with minimum length "@ + crate::json::spec_int_text(
            a,
        ) + " and maximum length "@ + crate::json::spec_int_text(b),
        RuleModel::Include(sub) => "include substring "@ + sub,
        RuleModel::Integer => "integer"@,
        RuleModel::Number => "number"@,
        RuleModel::Boolean => "boolean"@,
        RuleModel::NotEmpty => "not empty"@,
        RuleModel::Date(f) => "date with format "@ + f,
        RuleModel::Time(f) => "time with format "@ + f,
        RuleModel::Datetime(f) => "datetime with format "@ + f,
        RuleModel::EachValue(b) => "each value: "@ + spec_rule_text(*b),
        RuleModel::EachKey(b) => "each key: "@ + spec_rule_text(*b),
        RuleModel::Unknown(_) => "unknown matcher kind"@,
    }
}

/// The full message of one mismatch: the path, the rule with its parameters,
/// and the actual value.
pub open spec fn spec_mismatch_message(m: MismatchData) -> Seq<char> {
    "value at "@ + m.path + " does not satisfy "@ + spec_rule_text(m.rule) + ", got "@
        + crate::json::spec_json_text(m.actual)
}

fn append_rule_text(out: &mut String, r: &MatchingRule)
    ensures
        final(out)@ == old(out)@ + spec_rule_text(r@),
    decreases r,
{
    match r {
        MatchingRule::Equality => out.append("equality"),
        MatchingRule::Regex(p) => {
            out.append("regex pattern ");
            out.append(p.as_str());
            assert(out@ =~= old(out)@ + spec_rule_text(r@));
        },
        MatchingRule::Type => out.append("type"),
        MatchingRule::MinType(n) => {
            out.append("type with minimum length ");
            crate::strutil::append_dec(out, *n);
            assert(out@ =~= old(out)@ + spec_rule_text(r@));
        },
        MatchingRule::MaxType(n) => {
            out.append("type with maximum length ");
            crate::strutil::append_dec(out, *n);
            assert(out@ =~= old(out)@ + spec_rule_text(r@));
        },
        MatchingRule::MinMaxType(a, b) => {
            out.append("type with minimum length ");
            crate::strutil::append_dec(out, *a);
            out.append(" and maximum length ");
            crate::strutil::append_dec(out, *b);
            assert(out@ =~= old(out)@ + spec_rule_text(r@));
        },
        MatchingRule::Include(sub) => {
            out.append("include substring ");
            out.append(sub.as_str());
            assert(out@ =~= old(out)@ + spec_rule_text(r@));
        },
        MatchingRule::Integer => out.append("integer"),
        MatchingRule::Number => out.append("number"),
        MatchingRule::Boolean => out.append("boolean"),
        MatchingRule::NotEmpty => out.append("not empty"),
        MatchingRule::Date(f) => {
            out.append("date with format ");
            out.append(f.as_str());
            assert(out@ =~= old(out)@ + spec_rule_text(r@));
        },
        MatchingRule::Time(f) => {
            out.append("time with format ");
            out.append(f.as_str());
            assert(out@ =~= old(out)@ + spec_rule_text(r@));
        },
        MatchingRule::Datetime(f) => {
            out.append("datetime with format ");
            out.append(f.as_str());
            assert(out@ =~= old(out)@ + spec_rule_text(r@));
        },
        MatchingRule::EachValue(b) => {
            out.append("each value: ");
            append_rule_text(out, b);
            assert(out@ =~= old(out)@ + spec_rule_text(r@));
        },
        MatchingRule::EachKey(b) => {
            out.append("each key: ");
            append_rule_text(out, b);
            assert(out@ =~= old(out)@ + spec_rule_text(r@));
        },
        MatchingRule::Unknown(_) => out.append("unknown matcher kind"),
    }
}

impl Mismatch {
    /// Renders the mismatch as one message, citing the path, the rule with
    /// its parameters, and the actual value.
    pub fn message(&self) -> (r: String)
        ensures
            r@ == spec_mismatch_message(self@),
    {
        let mut out = String::from_str("value at ");
        out.append(self.path.as_str());
        out.append(" does not satisfy ");
        append_rule_text(&mut out, &self.rule);
        out.append(", got ");
        let actual_text = crate::json::json_text(&self.actual);
        out.append(actual_text.as_str());
        proof {
            assert(out@ =~= spec_mismatch_message(self@));
        }
        out
    }
}

/// Whether two values have the same shape: both null, both booleans, both
/// numbers, both strings, both arrays or both objects.
pub open spec fn spec_same_kind(a: JsonData, b: JsonData) -> bool {
    ||| (a is Null && b is Null)
    ||| (a is Bool && b is Bool)
    ||| (a is Int && b is Int)
    ||| (a is Str && b is Str)
    ||| (a is Arr && b is Arr)
    ||| (a is Obj && b is Obj)
}

/// One mismatch report.
pub open spec fn spec_mm(
    path: Seq<char>,
    kind: Seq<char>,
    rule: RuleModel,
    expected: JsonData,
    actual: JsonData,
) -> Seq<MismatchData> {
    seq![MismatchData { path, kind, rule, expected, actual }]
}

/// The reference element an each-value rule compares against: the first
/// element of an expected array, else the expected value itself.
pub open spec fn spec_elem_expected(expected: JsonData) -> JsonData {
    if expected is Arr && expected->Arr_0.len() > 0 {
        expected->Arr_0[0]
    } else {
        expected
    }
}

/// The mismatches of one rule against an expected/actual pair at a path.
pub open spec fn spec_eval_rule(
    r: RuleModel,
    expected: JsonData,
    actual: JsonData,
    path: Seq<char>,
) -> Seq<MismatchData>
    decreases r, 0int, 0int,
{
    match r {
        RuleModel::Equality => if expected == actual {
            Seq::empty()
        } else {
            spec_mm(path, "equality"@, r, expected, actual)
        },
        RuleModel::Regex(p) => if regex_valid(p) && regex_is_match(
            p,
            spec_json_to_string(actual),
        ) {
            Seq::empty()
        } else {
            spec_mm(path, "regex"@, r, expected, actual)
        },
        RuleModel::Type => if spec_same_kind(expected, actual) {
            Seq::empty()
        } else {
            spec_mm(path, "type"@, r, expected, actual)
        },
        RuleModel::MinType(n) => if actual is Arr {
            if actual->Arr_0.len() >= n {
                Seq::empty()
            } else {
                spec_mm(path, "minType"@, r, expected, actual)
            }
        } else if spec_same_kind(expected, actual) {
            Seq::empty()
        } else {
            spec_mm(path, "minType"@, r, expected, actual)
        },
        RuleModel::MaxType(n) => if actual is Arr {
            if actual->Arr_0.len() <= n {
                Seq::empty()
            } else {
                spec_mm(path, "maxType"@, r, expected, actual)
            }
        } else if spec_same_kind(expected, actual) {
            Seq::empty()
        } else {
            spec_mm(path, "maxType"@, r, expected, actual)
        },
        RuleModel::MinMaxType(a, b) => if actual is Arr {
            if a <= actual->Arr_0.len() <= b {
                Seq::empty()
            } else {
                spec_mm(path, "minMaxType"@, r, expected, actual)
            }
        } else if spec_same_kind(expected, actual) {
            Seq::empty()
        } else {
            spec_mm(path, "minMaxType"@, r, expected, actual)
        },
        RuleModel::Include(sub) => if spec_str_contains(spec_json_to_string(actual), sub) {
            Seq::empty()
        } else {
            spec_mm(path, "include"@, r, expected, actual)
        },
        RuleModel::Integer => if actual is Int {
            Seq::empty()
        } else {
            spec_mm(path, "integer"@, r, expected, actual)
        },
        // In this value model every number is an integer, so the number rule
        // coincides with the integer rule.
        RuleModel::Number => if actual is Int {
            Seq::empty()
        } else {
            spec_mm(path, "number"@, r, expected, actual)
        },
        RuleModel::Boolean => if actual is Bool {
            Seq::empty()
        } else {
            spec_mm(path, "boolean"@, r, expected, actual)
        },
        RuleModel::NotEmpty => {
            let ok = match actual {
                JsonData::Str(s) => s.len() > 0,
                JsonData::Arr(a) => a.len() > 0,
                JsonData::Obj(o) => o.len() > 0,
                JsonData::Null => false,
                _ => true,
            };
            if ok {
                Seq::empty()
            } else {
                spec_mm(path, "notEmpty"@, r, expected, actual)
            }
        },
        RuleModel::Date(f) => if date_parses(spec_json_to_string(actual), f) {
            Seq::empty()
        } else {
            spec_mm(path, "date"@, r, expected, actual)
        },
        RuleModel::Time(f) => if time_parses(spec_json_to_string(actual), f) {
            Seq::empty()
        } else {
            spec_mm(path, "time"@, r, expected, actual)
        },
        RuleModel::Datetime(f) => if datetime_parses(spec_json_to_string(actual), f) {
            Seq::empty()
        } else {
            spec_mm(path, "datetime"@, r, expected, actual)
        },
        RuleModel::EachValue(b) => if actual is Arr {
            spec_eval_each(*b, spec_elem_expected(expected), actual->Arr_0, 0, path)
        } else {
            spec_mm(path, "eachValue"@, r, expected, actual)
        },
        RuleModel::EachKey(b) => if actual is Obj {
            spec_eval_keys(*b, spec_key_expected(expected), actual->Obj_0, 0, path)
        } else {
            spec_mm(path, "eachKey"@, r, expected, actual)
        },
        RuleModel::Unknown(_) => Seq::empty(),
    }
}

/// The reference key an each-key rule compares against: the first key of an
/// expected object, else the expected value itself.
pub open spec fn spec_key_expected(expected: JsonData) -> JsonData {
    if expected is Obj && expected->Obj_0.len() > 0 {
        JsonData::Str(expected->Obj_0[0].0)
    } else {
        expected
    }
}

/// The mismatches of one rule against each element of an array, the element
/// index appended to the path.
pub open spec fn spec_eval_each(
    b: RuleModel,
    exp: JsonData,
    items: Seq<JsonData>,
    i: int,
    path: Seq<char>,
) -> Seq<MismatchData>
    decreases b, 1int, items.len() - i,
{
    if i < 0 || i >= items.len() {
        Seq::empty()
    } else {
        spec_eval_rule(
            b,
            exp,
            items[i],
            path + seq!['['] + crate::strutil::spec_dec_digits(i as nat) + seq![']'],
        ) + spec_eval_each(b, exp, items, i + 1, path)
    }
}

/// The mismatches of one rule against each key of an object, the key appended
/// to the path.
pub open spec fn spec_eval_keys(
    b: RuleModel,
    exp: JsonData,
    entries: Seq<(Seq<char>, JsonData)>,
    i: int,
    path: Seq<char>,
) -> Seq<MismatchData>
    decreases b, 1int, entries.len() - i,
{
    if i < 0 || i >= entries.len() {
        Seq::empty()
    } else {
        spec_eval_rule(b, exp, JsonData::Str(entries[i].0), path + seq!['.'] + entries[i].0)
            + spec_eval_keys(b, exp, entries, i + 1, path)
    }
}

/// The concatenated mismatches of a list of rules.
pub open spec fn spec_eval_rules(
    rules: Seq<RuleModel>,
    i: int,
    expected: JsonData,
    actual: JsonData,
    path: Seq<char>,
) -> Seq<MismatchData>
    decreases rules.len() - i,
{
    if i < 0 || i >= rules.len() {
        Seq::empty()
    } else {
        spec_eval_rule(rules[i], expected, actual, path) + spec_eval_rules(
            rules,
            i + 1,
            expected,
            actual,
            path,
        )
    }
}

/// Whether some rule of the list passes outright.
pub open spec fn spec_any_pass(
    rules: Seq<RuleModel>,
    expected: JsonData,
    actual: JsonData,
    path: Seq<char>,
) -> bool {
    exists|i: int|
        0 <= i < rules.len() && spec_eval_rule(#[trigger] rules[i], expected, actual, path).len()
            == 0
}

/// The verdict of a rule group: under OR logic one passing rule clears
/// everything; otherwise every rule's mismatches are reported, none dropped.
pub open spec fn spec_eval_group(
    g: GroupModel,
    expected: JsonData,
    actual: JsonData,
    path: Seq<char>,
) -> Seq<MismatchData> {
    if g.or_logic && spec_any_pass(g.rules, expected, actual, path) {
        Seq::empty()
    } else {
        spec_eval_rules(g.rules, 0, expected, actual, path)
    }
}

/// The most specific group of a category whose path pattern matches the
/// concrete path: a higher count of non-wildcard segments wins, and the first
/// declared wins a tie. Entries whose path does not parse are passed over.
pub open spec fn spec_select(
    cat: CategoryModel,
    con: Seq<PathPartData>,
    i: int,
    best_score: int,
    best: Option<GroupModel>,
) -> Option<GroupModel>
    decreases cat.len() - i,
{
    if i < 0 || i >= cat.len() {
        best
    } else {
        match spec_parse_path(cat[i].0) {
            Some(pat) => if spec_path_matches(pat, con) && spec_specificity(pat, 0)
                > best_score {
                spec_select(cat, con, i + 1, spec_specificity(pat, 0), Some(cat[i].1))
            } else {
                spec_select(cat, con, i + 1, best_score, best)
            },
            None => spec_select(cat, con, i + 1, best_score, best),
        }
    }
}

/// The whole answer for one question: what the chosen group reports, or
/// plain structural equality when no group applies.
pub open spec fn spec_matches(
    cat: CategoryModel,
    con: Seq<PathPartData>,
    expected: JsonData,
    actual: JsonData,
) -> Seq<MismatchData> {
    let path = seq!['$'] + spec_path_text(con, 0);
    match spec_select(cat, con, 0, -1, None) {
        Some(g) => spec_eval_group(g, expected, actual, path),
        None => if expected == actual {
            Seq::empty()
        } else {
            spec_mm(path, "equality"@, RuleModel::Equality, expected, actual)
        },
    }
}

/// Matching is a pure function of the category, the path, the expected and
/// the actual value: two results of the same question are the same mismatch
/// list, order included.
pub proof fn lemma_matching_deterministic(
    cat: CategoryModel,
    con: Seq<PathPartData>,
    expected: JsonData,
    actual: JsonData,
    r1: Seq<MismatchData>,
    r2: Seq<MismatchData>,
)
    requires
        r1 == spec_matches(cat, con, expected, actual),
        r2 == spec_matches(cat, con, expected, actual),
    ensures
        r1 == r2,
{
}

fn mm(
    path: &String,
    kind: &str,
    rule: &MatchingRule,
    expected: &JsonValue,
    actual: &JsonValue,
    out: &mut Vec<Mismatch>,
)
    ensures
        spec_mismatches_view(final(out)@) == spec_mismatches_view(old(out)@) + spec_mm(
            path@,
            kind@,
            rule@,
            expected@,
            actual@,
        ),
{
    out.push(
        Mismatch {
            path: path.clone(),
            kind: kind.to_owned(),
            rule: rule.dup(),
            expected: expected.deep_copy(),
            actual: actual.deep_copy(),
        },
    );
    proof {
        assert(spec_mismatches_view(out@) =~= spec_mismatches_view(old(out)@) + spec_mm(
            path@,
            kind@,
            rule@,
            expected@,
            actual@,
        ));
    }
}

fn same_kind(a: &JsonValue, b: &JsonValue) -> (r: bool)
    ensures
        r == spec_same_kind(a@, b@),
{
    match (a, b) {
        (JsonValue::Null, JsonValue::Null) => true,
        (JsonValue::Bool(_), JsonValue::Bool(_)) => true,
        (JsonValue::Int(_), JsonValue::Int(_)) => true,
        (JsonValue::Str(_), JsonValue::Str(_)) => true,
        (JsonValue::Arr(_), JsonValue::Arr(_)) => true,
        (JsonValue::Obj(_), JsonValue::Obj(_)) => true,
        _ => false,
    }
}

/// Appends the mismatches of one rule at a path.
pub fn eval_rule(
    r: &MatchingRule,
    expected: &JsonValue,
    actual: &JsonValue,
    path: &String,
    out: &mut Vec<Mismatch>,
)
    ensures
        spec_mismatches_view(final(out)@) == spec_mismatches_view(old(out)@) + spec_eval_rule(
            r@,
            expected@,
            actual@,
            path@,
        ),
    decreases r, 0int, 0int,
{
    let ghost pre = spec_mismatches_view(out@);
    match r {
        MatchingRule::Equality => {
            if !json_eq(expected, actual) {
                mm(path, "equality", r, expected, actual, out);
            }
        },
        MatchingRule::Regex(p) => {
            let text = json_to_string(actual);
            let ok = match regex_match(p.as_str(), text.as_str()) {
                Some(b) => b,
                None => false,
            };
            if !ok {
                mm(path, "regex", r, expected, actual, out);
            }
        },
        MatchingRule::Type => {
            if !same_kind(expected, actual) {
                mm(path, "type", r, expected, actual, out);
            }
        },
        MatchingRule::MinType(n) => {
            let ok = match actual {
                JsonValue::Arr(items) => items.len() as u64 >= *n,
                _ => same_kind(expected, actual),
            };
            if !ok {
                mm(path, "minType", r, expected, actual, out);
            }
        },
        MatchingRule::MaxType(n) => {
            let ok = match actual {
                JsonValue::Arr(items) => items.len() as u64 <= *n,
                _ => same_kind(expected, actual),
            };
            if !ok {
                mm(path, "maxType", r, expected, actual, out);
            }
        },
        MatchingRule::MinMaxType(a, b) => {
            let ok = match actual {
                JsonValue::Arr(items) => *a <= items.len() as u64 && items.len() as u64 <= *b,
                _ => same_kind(expected, actual),
            };
            if !ok {
                mm(path, "minMaxType", r, expected, actual, out);
            }
        },
        MatchingRule::Include(sub) => {
            let text = json_to_string(actual);
            if !str_contains(text.as_str(), sub.as_str()) {
                mm(path, "include", r, expected, actual, out);
            }
        },
        MatchingRule::Integer => {
            if !(matches!(actual, JsonValue::Int(_))) {
                mm(path, "integer", r, expected, actual, out);
            }
        },
        MatchingRule::Number => {
            if !(matches!(actual, JsonValue::Int(_))) {
                mm(path, "number", r, expected, actual, out);
            }
        },
        MatchingRule::Boolean => {
            if !(matches!(actual, JsonValue::Bool(_))) {
                mm(path, "boolean", r, expected, actual, out);
            }
        },
        MatchingRule::NotEmpty => {
            let ok = match actual {
                JsonValue::Str(s) => s.as_str().unicode_len() > 0,
                JsonValue::Arr(a) => a.len() > 0,
                JsonValue::Obj(o) => o.len() > 0,
                JsonValue::Null => false,
                _ => true,
            };
            proof {
                match actual {
                    JsonValue::Arr(a) => {
                        assert(crate::json::spec_arr_view(a@).len() == a@.len());
                    },
                    JsonValue::Obj(o) => {
                        assert(crate::json::spec_entries(o@).len() == o@.len());
                    },
                    _ => {},
                }
                assert(ok == (match actual@ {
                    JsonData::Str(s) => s.len() > 0,
                    JsonData::Arr(a) => a.len() > 0,
                    JsonData::Obj(o) => o.len() > 0,
                    JsonData::Null => false,
                    _ => true,
                }));
            }
            if !ok {
                mm(path, "notEmpty", r, expected, actual, out);
            }
        },
        MatchingRule::Date(f) => {
            let text = json_to_string(actual);
            if !date_parse_check(text.as_str(), f.as_str()) {
                mm(path, "date", r, expected, actual, out);
            }
        },
        MatchingRule::Time(f) => {
            let text = json_to_string(actual);
            if !time_parse_check(text.as_str(), f.as_str()) {
                mm(path, "time", r, expected, actual, out);
            }
        },
        MatchingRule::Datetime(f) => {
            let text = json_to_string(actual);
            if !datetime_parse_check(text.as_str(), f.as_str()) {
                mm(path, "datetime", r, expected, actual, out);
            }
        },
        MatchingRule::EachValue(b) => {
            match actual {
                JsonValue::Arr(items) => {
                    let exp_elem: &JsonValue = match expected {
                        JsonValue::Arr(es) => {
                            if es.len() > 0 {
                                &es[0]
                            } else {
                                expected
                            }
                        },
                        _ => expected,
                    };
                    proof {
                        assert(exp_elem@ == spec_elem_expected(expected@));
                    }
                    eval_each(b, exp_elem, items, 0, path, out);
                    proof {
                        assert(crate::json::spec_arr_view(items@) == actual@->Arr_0);
                    }
                },
                _ => {
                    mm(path, "eachValue", r, expected, actual, out);
                },
            }
        },
        MatchingRule::EachKey(b) => {
            match actual {
                JsonValue::Obj(entries) => {
                    let exp_key: JsonValue = match expected {
                        JsonValue::Obj(es) => {
                            if es.len() > 0 {
                                proof {
                                    assert(expected@->Obj_0 == crate::json::spec_entries(es@));
                                    assert(crate::json::spec_entries(es@)[0] == (
                                        es@[0].0@,
                                        es@[0].1@,
                                    ));
                                }
                                JsonValue::Str(es[0].0.clone())
                            } else {
                                expected.deep_copy()
                            }
                        },
                        _ => expected.deep_copy(),
                    };
                    proof {
                        assert(exp_key@ == spec_key_expected(expected@));
                    }
                    eval_keys(b, &exp_key, entries, 0, path, out);
                    proof {
                        assert(crate::json::spec_entries(entries@) == actual@->Obj_0);
                    }
                },
                _ => {
                    mm(path, "eachKey", r, expected, actual, out);
                },
            }
        },
        MatchingRule::Unknown(_) => {},
    }
    proof {
        match r {
            MatchingRule::EachValue(b2) => {
                assert(*r@->EachValue_0 == (**b2)@);
            },
            MatchingRule::EachKey(b2) => {
                assert(*r@->EachKey_0 == (**b2)@);
            },
            _ => {},
        }
        assert(spec_mismatches_view(out@) =~= pre + spec_eval_rule(
            r@,
            expected@,
            actual@,
            path@,
        ));
    }
}

fn eval_each(
    b: &MatchingRule,
    exp: &JsonValue,
    items: &Vec<JsonValue>,
    i: usize,
    path: &String,
    out: &mut Vec<Mismatch>,
)
    requires
        i <= items@.len(),
    ensures
        spec_mismatches_view(final(out)@) == spec_mismatches_view(old(out)@) + spec_eval_each(
            b@,
            exp@,
            crate::json::spec_arr_view(items@),
            i as int,
            path@,
        ),
    decreases b, 1int, items@.len() - i,
{
    let ghost model = crate::json::spec_arr_view(items@);
    if i >= items.len() {
        proof {
            assert(spec_mismatches_view(out@) =~= spec_mismatches_view(out@) + spec_eval_each(
                b@,
                exp@,
                model,
                i as int,
                path@,
            ));
        }
    } else {
        let mut sub_path = path.clone();
        push_char(&mut sub_path, '[');
        append_dec(&mut sub_path, i as u64);
        push_char(&mut sub_path, ']');
        proof {
            assert(sub_path@ =~= path@ + seq!['['] + crate::strutil::spec_dec_digits(i as nat)
                + seq![']']);
        }
        eval_rule(b, exp, &items[i], &sub_path, out);
        eval_each(b, exp, items, i + 1, path, out);
        proof {
            assert(spec_mismatches_view(out@) =~= spec_mismatches_view(old(out)@)
                + spec_eval_each(b@, exp@, model, i as int, path@));
        }
    }
}

fn eval_keys(
    b: &MatchingRule,
    exp: &JsonValue,
    entries: &Vec<(String, JsonValue)>,
    i: usize,
    path: &String,
    out: &mut Vec<Mismatch>,
)
    requires
        i <= entries@.len(),
    ensures
        spec_mismatches_view(final(out)@) == spec_mismatches_view(old(out)@) + spec_eval_keys(
            b@,
            exp@,
            crate::json::spec_entries(entries@),
            i as int,
            path@,
        ),
    decreases b, 1int, entries@.len() - i,
{
    let ghost model = crate::json::spec_entries(entries@);
    if i >= entries.len() {
        proof {
            assert(spec_mismatches_view(out@) =~= spec_mismatches_view(out@) + spec_eval_keys(
                b@,
                exp@,
                model,
                i as int,
                path@,
            ));
        }
    } else {
        let mut sub_path = path.clone();
        push_char(&mut sub_path, '.');
        sub_path.append(entries[i].0.as_str());
        proof {
            assert(sub_path@ =~= path@ + seq!['.'] + model[i as int].0);
        }
        let key_value = JsonValue::Str(entries[i].0.clone());
        proof {
            assert(key_value@ == JsonData::Str(model[i as int].0));
        }
        eval_rule(b, exp, &key_value, &sub_path, out);
        eval_keys(b, exp, entries, i + 1, path, out);
        proof {
            assert(spec_mismatches_view(out@) =~= spec_mismatches_view(old(out)@)
                + spec_eval_keys(b@, exp@, model, i as int, path@));
        }
    }
}

fn eval_rules(
    rules: &Vec<MatchingRule>,
    i: usize,
    expected: &JsonValue,
    actual: &JsonValue,
    path: &String,
    out: &mut Vec<Mismatch>,
)
    requires
        i <= rules@.len(),
    ensures
        spec_mismatches_view(final(out)@) == spec_mismatches_view(old(out)@) + spec_eval_rules(
            spec_rules_view(rules@),
            i as int,
            expected@,
            actual@,
            path@,
        ),
    decreases rules@.len() - i,
{
    let ghost model = spec_rules_view(rules@);
    if i >= rules.len() {
        proof {
            assert(spec_mismatches_view(out@) =~= spec_mismatches_view(out@) + spec_eval_rules(
                model,
                i as int,
                expected@,
                actual@,
                path@,
            ));
        }
    } else {
        eval_rule(&rules[i], expected, actual, path, out);
        eval_rules(rules, i + 1, expected, actual, path, out);
        proof {
            assert(spec_mismatches_view(out@) =~= spec_mismatches_view(old(out)@)
                + spec_eval_rules(model, i as int, expected@, actual@, path@));
        }
    }
}

/// Evaluates a rule group: under OR logic one passing rule clears the group;
/// otherwise every rule's mismatches are returned, none dropped.
pub fn eval_group(
    g: &RuleGroup,
    expected: &JsonValue,
    actual: &JsonValue,
    path: &String,
) -> (r: Vec<Mismatch>)
    ensures
        spec_mismatches_view(r@) == spec_eval_group(g@, expected@, actual@, path@),
{
    let mut any_pass = false;
    if g.or_logic {
        let mut i: usize = 0;
        while i < g.rules.len()
            invariant
                i <= g.rules@.len(),
                any_pass == exists|j: int|
                    0 <= j < i && spec_eval_rule(
                        #[trigger] spec_rules_view(g.rules@)[j],
                        expected@,
                        actual@,
                        path@,
                    ).len() == 0,
            decreases g.rules@.len() - i,
        {
            let mut probe: Vec<Mismatch> = Vec::new();
            eval_rule(&g.rules[i], expected, actual, path, &mut probe);
            if probe.len() == 0 {
                proof {
                    assert(spec_eval_rule(
                        spec_rules_view(g.rules@)[i as int],
                        expected@,
                        actual@,
                        path@,
                    ).len() == 0);
                }
                any_pass = true;
            }
            i += 1;
        }
    }
    proof {
        if any_pass {
            assert(spec_any_pass(spec_rules_view(g.rules@), expected@, actual@, path@));
        }
    }
    if g.or_logic && any_pass {
        let r: Vec<Mismatch> = Vec::new();
        proof {
            assert(spec_mismatches_view(r@) =~= Seq::<MismatchData>::empty());
        }
        r
    } else {
        proof {
            if g.or_logic {
                assert(!spec_any_pass(spec_rules_view(g.rules@), expected@, actual@, path@));
            }
        }
        let mut out: Vec<Mismatch> = Vec::new();
        proof {
            assert(spec_mismatches_view(out@) =~= Seq::<MismatchData>::empty());
        }
        eval_rules(&g.rules, 0, expected, actual, path, &mut out);
        proof {
            assert(spec_mismatches_view(out@) =~= Seq::<MismatchData>::empty()
                + spec_eval_rules(spec_rules_view(g.rules@), 0, expected@, actual@, path@));
            assert(Seq::<MismatchData>::empty() + spec_eval_rules(
                spec_rules_view(g.rules@),
                0,
                expected@,
                actual@,
                path@,
            ) =~= spec_eval_rules(spec_rules_view(g.rules@), 0, expected@, actual@, path@));
        }
        out
    }
}

/// The full verdict of one category against a concrete path: the most
/// specific matching group decides, a tie going to the first declared; with
/// no applicable group, plain structural equality decides. All mismatches are
/// returned, none dropped.
pub fn matches(
    category: &Vec<(String, RuleGroup)>,
    path: &Vec<PathPart>,
    expected: &JsonValue,
    actual: &JsonValue,
) -> (r: Vec<Mismatch>)
    ensures
        spec_mismatches_view(r@) == spec_matches(
            spec_category_view(category@),
            spec_parts_view(path@),
            expected@,
            actual@,
        ),
{
    let ghost cat = spec_category_view(category@);
    let ghost con = spec_parts_view(path@);
    let mut path_text = String::new();
    push_char(&mut path_text, '$');
    append_path_text(&mut path_text, path, 0);
    proof {
        assert(path_text@ =~= seq!['$'] + spec_path_text(con, 0));
    }
    let mut best: Option<&RuleGroup> = None;
    let mut best_score: u64 = 0;
    let mut have_best = false;
    let mut i: usize = 0;
    while i < category.len()
        invariant
            i <= category@.len(),
            cat == spec_category_view(category@),
            con == spec_parts_view(path@),
            have_best == (best is Some),
            match best {
                Some(g) => spec_select(cat, con, 0, -1, None) == spec_select(
                    cat,
                    con,
                    i as int,
                    best_score as int,
                    Some(g@),
                ),
                None => spec_select(cat, con, 0, -1, None) == spec_select(
                    cat,
                    con,
                    i as int,
                    -1,
                    None,
                ) && best_score == 0,
            },
        decreases category@.len() - i,
    {
        proof {
            assert(cat[i as int] == (category@[i as int].0@, category@[i as int].1@));
        }
        match parse_path(category[i].0.as_str()) {
            Some(pat) => {
                if path_matches(&pat, path) {
                    let _len: usize = pat.len();
                    proof {
                        lemma_specificity_bounds(spec_parts_view(pat@), 0);
                    }
                    let score = specificity(&pat, 0);
                    let better = if have_best {
                        score > best_score
                    } else {
                        true
                    };
                    if better {
                        best = Some(&category[i].1);
                        best_score = score;
                        have_best = true;
                    }
                }
            },
            None => {},
        }
        i += 1;
    }
    match best {
        Some(g) => eval_group(g, expected, actual, &path_text),
        None => {
            let mut out: Vec<Mismatch> = Vec::new();
            if !json_eq(expected, actual) {
                mm(&path_text, "equality", &MatchingRule::Equality, expected, actual, &mut out);
                proof {
                    assert(spec_mismatches_view(out@) =~= spec_matches(
                        cat,
                        con,
                        expected@,
                        actual@,
                    ));
                }
            } else {
                proof {
                    assert(spec_mismatches_view(out@) =~= spec_matches(
                        cat,
                        con,
                        expected@,
                        actual@,
                    ));
                }
            }
            out
        },
    }
}

} // verus!
