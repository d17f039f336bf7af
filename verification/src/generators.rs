//! Generators: the per-path specifications that synthesize concrete example
//! values at run time, grouped per category and path, with their JSON codec.

use vstd::prelude::*;
use crate::json::{JsonValue, JsonData, spec_lookup, spec_lookup_from, spec_entries, entries_get};
use crate::strutil::str_eq;

verus! {

/// The mathematical model of one generator.
#[verifier::ext_equal]
pub ghost enum GenModel {
    RandomInt(int, int),
    RandomString(int),
    RandomBoolean,
    Uuid,
    Regex(Seq<char>),
    ProviderState(Seq<char>),
    MockServerURL(Seq<char>, Seq<char>),
    RequestPath,
    Unknown(JsonData),
}

/// One generator. An unrecognized kind keeps its raw payload whole, so nothing
/// is lost on a round trip through newer contract files.
#[derive(Debug, PartialEq)]
pub enum Generator {
    RandomInt(i64, i64),
    RandomString(u64),
    RandomBoolean,
    Uuid,
    Regex(String),
    ProviderState(String),
    MockServerURL(String, String),
    RequestPath,
    Unknown(JsonValue),
}

impl View for Generator {
    type V = GenModel;

    open spec fn view(&self) -> GenModel {
        match self {
            Generator::RandomInt(a, b) => GenModel::RandomInt(*a as int, *b as int),
            Generator::RandomString(n) => GenModel::RandomString(*n as int),
            Generator::RandomBoolean => GenModel::RandomBoolean,
            Generator::Uuid => GenModel::Uuid,
            Generator::Regex(p) => GenModel::Regex(p@),
            Generator::ProviderState(e) => GenModel::ProviderState(e@),
            Generator::MockServerURL(p, e) => GenModel::MockServerURL(p@, e@),
            Generator::RequestPath => GenModel::RequestPath,
            Generator::Unknown(v) => GenModel::Unknown(v@),
        }
    }
}

/// Whether the numbers in a generator fit the codec's integers, with a sane
/// range where one is carried.
pub open spec fn gen_model_wf(g: GenModel) -> bool {
    match g {
        GenModel::RandomInt(a, b) => i64::MIN <= a <= b <= i64::MAX,
        GenModel::RandomString(n) => 0 <= n <= i64::MAX,
        GenModel::Unknown(d) => spec_gen_from_json(d) == GenModel::Unknown(d),
        _ => true,
    }
}

/// The JSON form of one generator.
pub open spec fn spec_gen_to_json(g: GenModel) -> JsonData {
    match g {
        GenModel::RandomInt(a, b) => JsonData::Obj(
            seq![
                ("type"@, JsonData::Str("RandomInt"@)),
                ("min"@, JsonData::Int(a)),
                ("max"@, JsonData::Int(b)),
            ],
        ),
        GenModel::RandomString(n) => JsonData::Obj(
            seq![("type"@, JsonData::Str("RandomString"@)), ("size"@, JsonData::Int(n))],
        ),
        GenModel::RandomBoolean => JsonData::Obj(
            seq![("type"@, JsonData::Str("RandomBoolean"@))],
        ),
        GenModel::Uuid => JsonData::Obj(seq![("type"@, JsonData::Str("Uuid"@))]),
        GenModel::Regex(p) => JsonData::Obj(
            seq![("type"@, JsonData::Str("Regex"@)), ("regex"@, JsonData::Str(p))],
        ),
        GenModel::ProviderState(e) => JsonData::Obj(
            seq![("type"@, JsonData::Str("ProviderState"@)), ("expression"@, JsonData::Str(e))],
        ),
        GenModel::MockServerURL(p, ex) => JsonData::Obj(
            seq![
                ("type"@, JsonData::Str("MockServerURL"@)),
                ("regex"@, JsonData::Str(p)),
                ("example"@, JsonData::Str(ex)),
            ],
        ),
        GenModel::RequestPath => JsonData::Obj(seq![("type"@, JsonData::Str("RequestPath"@))]),
        GenModel::Unknown(d) => d,
    }
}

/// The generator read from its JSON form. Unrecognized or malformed payloads
/// read as the catch-all case, kept whole: decoding never fails.
pub open spec fn spec_gen_from_json(d: JsonData) -> GenModel {
    if !(d is Obj) {
        GenModel::Unknown(d)
    } else {
        let e = d->Obj_0;
        match spec_lookup(e, "type"@) {
            Some(JsonData::Str(t)) => {
                if t == "RandomInt"@ {
                    match (spec_lookup(e, "min"@), spec_lookup(e, "max"@)) {
                        (Some(JsonData::Int(a)), Some(JsonData::Int(b))) => if i64::MIN <= a <= b
                            <= i64::MAX {
                            GenModel::RandomInt(a, b)
                        } else {
                            GenModel::Unknown(d)
                        },
                        _ => GenModel::Unknown(d),
                    }
                } else if t == "RandomString"@ {
                    match spec_lookup(e, "size"@) {
                        Some(JsonData::Int(n)) => if 0 <= n <= i64::MAX {
                            GenModel::RandomString(n)
                        } else {
                            GenModel::Unknown(d)
                        },
                        _ => GenModel::Unknown(d),
                    }
                } else if t == "RandomBoolean"@ {
                    GenModel::RandomBoolean
                } else if t == "Uuid"@ {
                    GenModel::Uuid
                } else if t == "Regex"@ {
                    match spec_lookup(e, "regex"@) {
                        Some(JsonData::Str(p)) => GenModel::Regex(p),
                        _ => GenModel::Unknown(d),
                    }
                } else if t == "ProviderState"@ {
                    match spec_lookup(e, "expression"@) {
                        Some(JsonData::Str(ex)) => GenModel::ProviderState(ex),
                        _ => GenModel::Unknown(d),
                    }
                } else if t == "MockServerURL"@ {
                    match (spec_lookup(e, "regex"@), spec_lookup(e, "example"@)) {
                        (Some(JsonData::Str(p)), Some(JsonData::Str(ex))) => GenModel::MockServerURL(
                            p,
                            ex,
                        ),
                        _ => GenModel::Unknown(d),
                    }
                } else if t == "RequestPath"@ {
                    GenModel::RequestPath
                } else {
                    GenModel::Unknown(d)
                }
            },
            _ => GenModel::Unknown(d),
        }
    }
}

/// Whatever JSON is read, the generator it decodes to is well formed.
pub proof fn lemma_gen_from_json_wf(d: JsonData)
    ensures
        gen_model_wf(spec_gen_from_json(d)),
{
}

/// A well-formed generator reads back from its JSON form unchanged.
pub proof fn lemma_gen_round_trip(g: GenModel)
    requires
        gen_model_wf(g),
    ensures
        spec_gen_from_json(spec_gen_to_json(g)) == g,
{
    reveal_strlit("type");
    reveal_strlit("min");
    reveal_strlit("max");
    reveal_strlit("size");
    reveal_strlit("regex");
    reveal_strlit("expression");
    reveal_strlit("example");
    reveal_strlit("RandomInt");
    reveal_strlit("RandomString");
    reveal_strlit("RandomBoolean");
    reveal_strlit("Uuid");
    reveal_strlit("Regex");
    reveal_strlit("ProviderState");
    reveal_strlit("MockServerURL");
    reveal_strlit("RequestPath");
    assert("type"@.len() == 4);
    assert("min"@.len() == 3);
    assert("max"@.len() == 3);
    assert("size"@.len() == 4);
    assert("regex"@.len() == 5);
    assert("expression"@.len() == 10);
    assert("example"@.len() == 7);
    assert("min"@[1] == 'i' && "max"@[1] == 'a');
    assert("min"@ != "max"@);
    assert("type"@[0] == 't' && "size"@[0] == 's');
    assert("type"@ != "size"@);
    assert("RandomInt"@.len() == 9);
    assert("RandomString"@.len() == 12);
    assert("RandomBoolean"@.len() == 13);
    assert("Uuid"@.len() == 4);
    assert("Regex"@.len() == 5);
    assert("ProviderState"@.len() == 13);
    assert("MockServerURL"@.len() == 13);
    assert("RequestPath"@.len() == 11);
    assert("RandomBoolean"@[0] == 'R' && "ProviderState"@[0] == 'P' && "MockServerURL"@[0]
        == 'M');
    assert("RandomBoolean"@ != "ProviderState"@ && "RandomBoolean"@ != "MockServerURL"@
        && "ProviderState"@ != "MockServerURL"@);
    let d = spec_gen_to_json(g);
    match g {
        GenModel::Unknown(p) => {
            assert(spec_gen_to_json(g) == p);
            assert(spec_gen_from_json(p) == GenModel::Unknown(p));
        },
        GenModel::RandomInt(a, b) => {
            let e = d->Obj_0;
            assert(spec_lookup(e, "type"@) == Some(e[0].1));
            assert(spec_lookup_from(e, "min"@, 1) == Some(JsonData::Int(a)));
            assert(spec_lookup(e, "min"@) == Some(JsonData::Int(a)));
            assert(spec_lookup_from(e, "max"@, 2) == Some(JsonData::Int(b)));
            assert(spec_lookup_from(e, "max"@, 1) == Some(JsonData::Int(b)));
            assert(spec_lookup(e, "max"@) == Some(JsonData::Int(b)));
        },
        GenModel::RandomString(n) => {
            let e = d->Obj_0;
            assert(spec_lookup(e, "type"@) == Some(e[0].1));
            assert(spec_lookup_from(e, "size"@, 1) == Some(JsonData::Int(n)));
            assert(spec_lookup(e, "size"@) == Some(JsonData::Int(n)));
        },
        GenModel::RandomBoolean => {
            let e = d->Obj_0;
            assert(spec_lookup(e, "type"@) == Some(e[0].1));
        },
        GenModel::Uuid => {
            let e = d->Obj_0;
            assert(spec_lookup(e, "type"@) == Some(e[0].1));
        },
        GenModel::Regex(p) => {
            let e = d->Obj_0;
            assert(spec_lookup(e, "type"@) == Some(e[0].1));
            assert("type"@[0] == 't' && "regex"@[0] == 'r');
            assert("type"@ != "regex"@);
            assert(spec_lookup_from(e, "regex"@, 1) == Some(JsonData::Str(p)));
            assert(spec_lookup(e, "regex"@) == Some(JsonData::Str(p)));
        },
        GenModel::ProviderState(ex) => {
            let e = d->Obj_0;
            assert(spec_lookup(e, "type"@) == Some(e[0].1));
            assert(spec_lookup_from(e, "expression"@, 1) == Some(JsonData::Str(ex)));
            assert(spec_lookup(e, "expression"@) == Some(JsonData::Str(ex)));
        },
        GenModel::MockServerURL(p, ex) => {
            let e = d->Obj_0;
            assert(spec_lookup(e, "type"@) == Some(e[0].1));
            assert("type"@[0] == 't' && "regex"@[0] == 'r');
            assert("type"@ != "regex"@);
            assert(spec_lookup_from(e, "regex"@, 1) == Some(JsonData::Str(p)));
            assert(spec_lookup(e, "regex"@) == Some(JsonData::Str(p)));
            assert(spec_lookup_from(e, "example"@, 2) == Some(JsonData::Str(ex)));
            assert(spec_lookup_from(e, "example"@, 1) == Some(JsonData::Str(ex)));
            assert(spec_lookup(e, "example"@) == Some(JsonData::Str(ex)));
        },
        GenModel::RequestPath => {
            let e = d->Obj_0;
            assert(spec_lookup(e, "type"@) == Some(e[0].1));
        },
    }
}

/// Encodes one generator as JSON.
pub fn gen_to_json(g: &Generator) -> (v: JsonValue)
    requires
        match g@ {
            GenModel::RandomString(n) => n <= i64::MAX,
            _ => true,
        },
    ensures
        v@ == spec_gen_to_json(g@),
{
    let t = String::from_str("type");
    match g {
        Generator::RandomInt(a, b) => {
            let mut e: Vec<(String, JsonValue)> = Vec::new();
            e.push((t, JsonValue::Str(String::from_str("RandomInt"))));
            e.push((String::from_str("min"), JsonValue::Int(*a)));
            e.push((String::from_str("max"), JsonValue::Int(*b)));
            proof {
                assert(spec_entries(e@) =~= spec_gen_to_json(g@)->Obj_0);
            }
            JsonValue::Obj(e)
        },
        Generator::RandomString(n) => {
            let mut e: Vec<(String, JsonValue)> = Vec::new();
            e.push((t, JsonValue::Str(String::from_str("RandomString"))));
            e.push((String::from_str("size"), JsonValue::Int(*n as i64)));
            proof {
                assert(spec_entries(e@) =~= spec_gen_to_json(g@)->Obj_0);
            }
            JsonValue::Obj(e)
        },
        Generator::RandomBoolean => {
            let mut e: Vec<(String, JsonValue)> = Vec::new();
            e.push((t, JsonValue::Str(String::from_str("RandomBoolean"))));
            proof {
                assert(spec_entries(e@) =~= spec_gen_to_json(g@)->Obj_0);
            }
            JsonValue::Obj(e)
        },
        Generator::Uuid => {
            let mut e: Vec<(String, JsonValue)> = Vec::new();
            e.push((t, JsonValue::Str(String::from_str("Uuid"))));
            proof {
                assert(spec_entries(e@) =~= spec_gen_to_json(g@)->Obj_0);
            }
            JsonValue::Obj(e)
        },
        Generator::Regex(p) => {
            let mut e: Vec<(String, JsonValue)> = Vec::new();
            e.push((t, JsonValue::Str(String::from_str("Regex"))));
            e.push((String::from_str("regex"), JsonValue::Str(p.clone())));
            proof {
                assert(spec_entries(e@) =~= spec_gen_to_json(g@)->Obj_0);
            }
            JsonValue::Obj(e)
        },
        Generator::ProviderState(ex) => {
            let mut e: Vec<(String, JsonValue)> = Vec::new();
            e.push((t, JsonValue::Str(String::from_str("ProviderState"))));
            e.push((String::from_str("expression"), JsonValue::Str(ex.clone())));
            proof {
                assert(spec_entries(e@) =~= spec_gen_to_json(g@)->Obj_0);
            }
            JsonValue::Obj(e)
        },
        Generator::MockServerURL(p, ex) => {
            let mut e: Vec<(String, JsonValue)> = Vec::new();
            e.push((t, JsonValue::Str(String::from_str("MockServerURL"))));
            e.push((String::from_str("regex"), JsonValue::Str(p.clone())));
            e.push((String::from_str("example"), JsonValue::Str(ex.clone())));
            proof {
                assert(spec_entries(e@) =~= spec_gen_to_json(g@)->Obj_0);
            }
            JsonValue::Obj(e)
        },
        Generator::RequestPath => {
            let mut e: Vec<(String, JsonValue)> = Vec::new();
            e.push((t, JsonValue::Str(String::from_str("RequestPath"))));
            proof {
                assert(spec_entries(e@) =~= spec_gen_to_json(g@)->Obj_0);
            }
            JsonValue::Obj(e)
        },
        Generator::Unknown(p) => p.deep_copy(),
    }
}

/// Decodes one generator from JSON; an unrecognized or malformed payload is
/// kept whole as the catch-all case, so decoding never fails.
pub fn gen_from_json(v: &JsonValue) -> (g: Generator)
    ensures
        g@ == spec_gen_from_json(v@),
{
    let entries = match v {
        JsonValue::Obj(entries) => entries,
        _ => {
            return Generator::Unknown(v.deep_copy());
        },
    };
    let t = match entries_get(entries, "type") {
        Some(JsonValue::Str(t)) => t.clone(),
        _ => {
            return Generator::Unknown(v.deep_copy());
        },
    };
    let ts = t.as_str();
    if str_eq(ts, "RandomInt") {
        match (entries_get(entries, "min"), entries_get(entries, "max")) {
            (Some(JsonValue::Int(a)), Some(JsonValue::Int(b))) => if *a <= *b {
                Generator::RandomInt(*a, *b)
            } else {
                Generator::Unknown(v.deep_copy())
            },
            _ => Generator::Unknown(v.deep_copy()),
        }
    } else if str_eq(ts, "RandomString") {
        match entries_get(entries, "size") {
            Some(JsonValue::Int(n)) => if 0 <= *n {
                Generator::RandomString(*n as u64)
            } else {
                Generator::Unknown(v.deep_copy())
            },
            _ => Generator::Unknown(v.deep_copy()),
        }
    } else if str_eq(ts, "RandomBoolean") {
        Generator::RandomBoolean
    } else if str_eq(ts, "Uuid") {
        Generator::Uuid
    } else if str_eq(ts, "Regex") {
        match entries_get(entries, "regex") {
            Some(JsonValue::Str(p)) => Generator::Regex(p.clone()),
            _ => Generator::Unknown(v.deep_copy()),
        }
    } else if str_eq(ts, "ProviderState") {
        match entries_get(entries, "expression") {
            Some(JsonValue::Str(ex)) => Generator::ProviderState(ex.clone()),
            _ => Generator::Unknown(v.deep_copy()),
        }
    } else if str_eq(ts, "MockServerURL") {
        match (entries_get(entries, "regex"), entries_get(entries, "example")) {
            (Some(JsonValue::Str(p)), Some(JsonValue::Str(ex))) => Generator::MockServerURL(
                p.clone(),
                ex.clone(),
            ),
            _ => Generator::Unknown(v.deep_copy()),
        }
    } else if str_eq(ts, "RequestPath") {
        Generator::RequestPath
    } else {
        Generator::Unknown(v.deep_copy())
    }
}

/// The model of one category's generator table.
pub type GenCategoryModel = Seq<(Seq<char>, GenModel)>;

/// The model of a full generator table: category name to path table.
pub type GenTableModel = Seq<(Seq<char>, GenCategoryModel)>;

/// The full generator table of an interaction part: for each category the
/// generator attached to each path.
#[derive(Debug, PartialEq)]
pub struct Generators {
    pub categories: Vec<(String, Vec<(String, Generator)>)>,
}

/// The model of one category's entry list.
pub open spec fn spec_gen_category_view(s: Seq<(String, Generator)>) -> GenCategoryModel {
    Seq::new(
        s.len(),
        |i: int|
            if 0 <= i < s.len() {
                (s[i].0@, s[i].1@)
            } else {
                (Seq::empty(), GenModel::RequestPath)
            },
    )
}

/// The model of the whole category list.
pub open spec fn spec_gen_table_view(s: Seq<(String, Vec<(String, Generator)>)>) -> GenTableModel {
    Seq::new(
        s.len(),
        |i: int|
            if 0 <= i < s.len() {
                (s[i].0@, spec_gen_category_view(s[i].1@))
            } else {
                (Seq::empty(), Seq::empty())
            },
    )
}

impl View for Generators {
    type V = GenTableModel;

    open spec fn view(&self) -> GenTableModel {
        spec_gen_table_view(self.categories@)
    }
}

/// Every generator in a table is well formed.
pub open spec fn gen_table_wf(t: GenTableModel) -> bool {
    forall|i: int, j: int|
        0 <= i < t.len() && 0 <= j < t[i].1.len() ==> gen_model_wf((#[trigger] t[i].1[j]).1)
}

/// The JSON form of one category's generator table.
pub open spec fn spec_gen_category_to_json(c: GenCategoryModel) -> JsonData {
    JsonData::Obj(
        Seq::new(
            c.len(),
            |i: int|
                if 0 <= i < c.len() {
                    (c[i].0, spec_gen_to_json(c[i].1))
                } else {
                    (Seq::empty(), JsonData::Null)
                },
        ),
    )
}

/// The JSON form of a full generator table.
pub open spec fn spec_gen_table_to_json(t: GenTableModel) -> JsonData {
    JsonData::Obj(
        Seq::new(
            t.len(),
            |i: int|
                if 0 <= i < t.len() {
                    (t[i].0, spec_gen_category_to_json(t[i].1))
                } else {
                    (Seq::empty(), JsonData::Null)
                },
        ),
    )
}

/// One category's generator table read from its JSON form.
pub open spec fn spec_gen_category_from_json(d: JsonData) -> GenCategoryModel {
    if !(d is Obj) {
        Seq::empty()
    } else {
        let e = d->Obj_0;
        Seq::new(
            e.len(),
            |i: int|
                if 0 <= i < e.len() {
                    (e[i].0, spec_gen_from_json(e[i].1))
                } else {
                    (Seq::empty(), GenModel::RequestPath)
                },
        )
    }
}

/// A full generator table read from its JSON form; anything malformed reads as
/// empty.
pub open spec fn spec_gen_table_from_json(d: JsonData) -> GenTableModel {
    if !(d is Obj) {
        Seq::empty()
    } else {
        let e = d->Obj_0;
        Seq::new(
            e.len(),
            |i: int|
                if 0 <= i < e.len() {
                    (e[i].0, spec_gen_category_from_json(e[i].1))
                } else {
                    (Seq::empty(), Seq::empty())
                },
        )
    }
}

/// A well-formed generator table reads back from its JSON form unchanged.
pub proof fn lemma_gen_table_round_trip(t: GenTableModel)
    requires
        gen_table_wf(t),
    ensures
        spec_gen_table_from_json(spec_gen_table_to_json(t)) == t,
{
    let back = spec_gen_table_from_json(spec_gen_table_to_json(t));
    assert forall|i: int| 0 <= i < t.len() implies back[i] == t[i] by {
        let c = t[i].1;
        let cback = spec_gen_category_from_json(spec_gen_category_to_json(c));
        assert forall|j: int| 0 <= j < c.len() implies cback[j] == c[j] by {
            assert(gen_model_wf(c[j].1));
            lemma_gen_round_trip(c[j].1);
        }
        assert(cback =~= c);
    }
    assert(back =~= t);
}

impl Generators {
    /// An empty table.
    pub fn empty() -> (r: Generators)
        ensures
            r@ == Seq::<(Seq<char>, GenCategoryModel)>::empty(),
    {
        let r = Generators { categories: Vec::new() };
        proof {
            assert(r@ =~= Seq::<(Seq<char>, GenCategoryModel)>::empty());
        }
        r
    }

    /// Whether the table holds no category at all.
    pub fn is_empty(&self) -> (r: bool)
        ensures
            r == (self@.len() == 0),
    {
        self.categories.len() == 0
    }

    /// Encodes the table as JSON.
    pub fn to_json(&self) -> (v: JsonValue)
        requires
            forall|i: int, j: int|
                0 <= i < self@.len() && 0 <= j < self@[i].1.len() ==> match (#[trigger] self@[i].1[j]).1 {
                    GenModel::RandomString(n) => n <= i64::MAX,
                    _ => true,
                },
        ensures
            v@ == spec_gen_table_to_json(self@),
    {
        let mut out: Vec<(String, JsonValue)> = Vec::new();
        let mut i: usize = 0;
        while i < self.categories.len()
            invariant
                i <= self.categories@.len(),
                self@ == spec_gen_table_view(self.categories@),
                forall|k: int, j: int|
                    0 <= k < self@.len() && 0 <= j < self@[k].1.len() ==> match (
                    #[trigger] self@[k].1[j]).1 {
                        GenModel::RandomString(n) => n <= i64::MAX,
                        _ => true,
                    },
                out@.len() == i,
                forall|k: int| 0 <= k < i ==> out@[k].0@ == self@[k].0 && out@[k].1@
                    == spec_gen_category_to_json(self@[k].1),
            decreases self.categories@.len() - i,
        {
            let name = self.categories[i].0.clone();
            let cat = &self.categories[i].1;
            let mut centries: Vec<(String, JsonValue)> = Vec::new();
            let mut j: usize = 0;
            while j < cat.len()
                invariant
                    j <= cat@.len(),
                    i < self.categories@.len(),
                    cat == &self.categories@[i as int].1,
                    self@ == spec_gen_table_view(self.categories@),
                    forall|k: int, l: int|
                        0 <= k < self@.len() && 0 <= l < self@[k].1.len() ==> match (
                        #[trigger] self@[k].1[l]).1 {
                            GenModel::RandomString(n) => n <= i64::MAX,
                            _ => true,
                        },
                    centries@.len() == j,
                    forall|k: int| 0 <= k < j ==> centries@[k].0@ == spec_gen_category_view(
                        cat@,
                    )[k].0 && centries@[k].1@ == spec_gen_to_json(
                        spec_gen_category_view(cat@)[k].1,
                    ),
                decreases cat@.len() - j,
            {
                proof {
                    assert(spec_gen_category_view(cat@)[j as int] == (
                        cat@[j as int].0@,
                        cat@[j as int].1@,
                    ));
                    assert(self@[i as int].1 == spec_gen_category_view(cat@));
                    assert(self@[i as int].1[j as int].1 == cat@[j as int].1@);
                }
                let p = cat[j].0.clone();
                let gv = gen_to_json(&cat[j].1);
                centries.push((p, gv));
                j += 1;
            }
            proof {
                assert(spec_entries(centries@) =~= spec_gen_category_to_json(
                    spec_gen_category_view(cat@),
                )->Obj_0);
            }
            out.push((name, JsonValue::Obj(centries)));
            i += 1;
        }
        proof {
            assert(spec_entries(out@) =~= spec_gen_table_to_json(self@)->Obj_0);
        }
        JsonValue::Obj(out)
    }

    /// Decodes a table from JSON; anything malformed reads as empty.
    pub fn from_json(v: &JsonValue) -> (r: Generators)
        ensures
            r@ == spec_gen_table_from_json(v@),
    {
        let entries = match v {
            JsonValue::Obj(entries) => entries,
            _ => {
                let r = Generators::empty();
                proof {
                    assert(r@ =~= spec_gen_table_from_json(v@));
                }
                return r;
            },
        };
        let mut cats: Vec<(String, Vec<(String, Generator)>)> = Vec::new();
        let mut i: usize = 0;
        while i < entries.len()
            invariant
                i <= entries@.len(),
                cats@.len() == i,
                forall|k: int| 0 <= k < i ==> cats@[k].0@ == entries@[k].0@
                    && spec_gen_category_view(cats@[k].1@) == spec_gen_category_from_json(
                    entries@[k].1@,
                ),
            decreases entries@.len() - i,
        {
            let name = entries[i].0.clone();
            let mut paths: Vec<(String, Generator)> = Vec::new();
            match &entries[i].1 {
                JsonValue::Obj(pes) => {
                    let mut j: usize = 0;
                    while j < pes.len()
                        invariant
                            j <= pes@.len(),
                            paths@.len() == j,
                            forall|k: int| 0 <= k < j ==> paths@[k].0@ == pes@[k].0@
                                && paths@[k].1@ == spec_gen_from_json(pes@[k].1@),
                        decreases pes@.len() - j,
                    {
                        let p = pes[j].0.clone();
                        let g = gen_from_json(&pes[j].1);
                        paths.push((p, g));
                        j += 1;
                    }
                    proof {
                        assert(spec_gen_category_view(paths@) =~= spec_gen_category_from_json(
                            entries@[i as int].1@,
                        ));
                    }
                },
                _ => {
                    proof {
                        assert(spec_gen_category_view(paths@) =~= spec_gen_category_from_json(
                            entries@[i as int].1@,
                        ));
                    }
                },
            }
            cats.push((name, paths));
            i += 1;
        }
        let r = Generators { categories: cats };
        proof {
            assert(r@ =~= spec_gen_table_from_json(v@));
        }
        r
    }
}

/// Structural equality of two generators, decided on their models.
pub fn gen_eq(a: &Generator, b: &Generator) -> (r: bool)
    ensures
        r == (a@ == b@),
{
    match (a, b) {
        (Generator::RandomInt(x1, x2), Generator::RandomInt(y1, y2)) => x1 == y1 && x2 == y2,
        (Generator::RandomString(x), Generator::RandomString(y)) => x == y,
        (Generator::RandomBoolean, Generator::RandomBoolean) => true,
        (Generator::Uuid, Generator::Uuid) => true,
        (Generator::Regex(x), Generator::Regex(y)) => str_eq(x.as_str(), y.as_str()),
        (Generator::ProviderState(x), Generator::ProviderState(y)) => str_eq(
            x.as_str(),
            y.as_str(),
        ),
        (Generator::MockServerURL(x1, x2), Generator::MockServerURL(y1, y2)) => str_eq(
            x1.as_str(),
            y1.as_str(),
        ) && str_eq(x2.as_str(), y2.as_str()),
        (Generator::RequestPath, Generator::RequestPath) => true,
        (Generator::Unknown(x), Generator::Unknown(y)) => crate::json::json_eq(x, y),
        _ => {
            assert(a@ != b@);
            false
        },
    }
}

fn gen_category_eq_from(
    a: &Vec<(String, Generator)>,
    b: &Vec<(String, Generator)>,
    i: usize,
) -> (r: bool)
    requires
        a@.len() == b@.len(),
        i <= a@.len(),
    ensures
        r == (forall|j: int|
            i <= j < a@.len() ==> a@[j].0@ == b@[j].0@ && a@[j].1@ == b@[j].1@),
    decreases a@.len() - i,
{
    if i >= a.len() {
        true
    } else if str_eq(a[i].0.as_str(), b[i].0.as_str()) && gen_eq(&a[i].1, &b[i].1) {
        gen_category_eq_from(a, b, i + 1)
    } else {
        false
    }
}

/// Structural equality of one category's generator tables.
pub fn gen_category_eq(a: &Vec<(String, Generator)>, b: &Vec<(String, Generator)>) -> (r: bool)
    ensures
        r == (spec_gen_category_view(a@) == spec_gen_category_view(b@)),
{
    if a.len() != b.len() {
        assert(spec_gen_category_view(a@).len() != spec_gen_category_view(b@).len());
        return false;
    }
    let r = gen_category_eq_from(a, b, 0);
    proof {
        if r {
            assert(spec_gen_category_view(a@) =~= spec_gen_category_view(b@));
        } else {
            assert(exists|j: int|
                0 <= j < a@.len() && !(a@[j].0@ == b@[j].0@ && a@[j].1@ == b@[j].1@));
            let j = choose|j: int|
                0 <= j < a@.len() && !(a@[j].0@ == b@[j].0@ && a@[j].1@ == b@[j].1@);
            assert(spec_gen_category_view(a@)[j] != spec_gen_category_view(b@)[j]);
        }
    }
    r
}

impl Generators {
    /// Structural equality of two generator tables, decided on their models.
    pub fn table_eq(&self, other: &Generators) -> (r: bool)
        ensures
            r == (self@ == other@),
    {
        if self.categories.len() != other.categories.len() {
            assert(self@.len() != other@.len());
            return false;
        }
        let mut i: usize = 0;
        while i < self.categories.len()
            invariant
                i <= self.categories@.len(),
                self.categories@.len() == other.categories@.len(),
                forall|j: int| 0 <= j < i ==> #[trigger] spec_gen_table_view(
                    self.categories@,
                )[j] == spec_gen_table_view(other.categories@)[j],
            decreases self.categories@.len() - i,
        {
            let names = str_eq(self.categories[i].0.as_str(), other.categories[i].0.as_str());
            let cats = gen_category_eq(&self.categories[i].1, &other.categories[i].1);
            if !names || !cats {
                assert(spec_gen_table_view(self.categories@)[i as int] != spec_gen_table_view(
                    other.categories@,
                )[i as int]);
                assert(self@ != other@);
                return false;
            }
            assert(spec_gen_table_view(self.categories@)[i as int] == spec_gen_table_view(
                other.categories@,
            )[i as int]);
            i += 1;
        }
        proof {
            assert(self@ =~= other@);
        }
        true
    }
}

impl Generators {
    /// Whether every size in the table fits the codec's integers, so that
    /// `to_json` may run.
    pub fn counts_fit(&self) -> (ok: bool)
        ensures
            ok == (forall|i: int, j: int|
                0 <= i < self@.len() && 0 <= j < self@[i].1.len() ==> match (
                #[trigger] self@[i].1[j]).1 {
                    GenModel::RandomString(n) => n <= i64::MAX,
                    _ => true,
                }),
    {
        let mut i: usize = 0;
        while i < self.categories.len()
            invariant
                i <= self.categories@.len(),
                forall|k: int, j: int|
                    0 <= k < i && 0 <= j < self@[k].1.len() ==> match (
                    #[trigger] self@[k].1[j]).1 {
                        GenModel::RandomString(n) => n <= i64::MAX,
                        _ => true,
                    },
            decreases self.categories@.len() - i,
        {
            let cat = &self.categories[i].1;
            let mut j: usize = 0;
            while j < cat.len()
                invariant
                    j <= cat@.len(),
                    i < self.categories@.len(),
                    cat == &self.categories@[i as int].1,
                    self@[i as int].1 == spec_gen_category_view(cat@),
                    forall|k: int| 0 <= k < j ==> match (#[trigger] spec_gen_category_view(
                        cat@,
                    )[k]).1 {
                        GenModel::RandomString(n) => n <= i64::MAX,
                        _ => true,
                    },
                decreases cat@.len() - j,
            {
                let bad = match &cat[j].1 {
                    Generator::RandomString(n) => *n > 0x7fffffffffffffffu64,
                    _ => false,
                };
                if bad {
                    assert(spec_gen_category_view(cat@)[j as int].1 == cat@[j as int].1@);
                    return false;
                }
                assert(spec_gen_category_view(cat@)[j as int].1 == cat@[j as int].1@);
                j += 1;
            }
            i += 1;
        }
        true
    }
}

} // verus!
