//! The generator engine: applies the generators recorded for a category to a
//! value tree against a runtime context. Whether a generator succeeds depends
//! on the generator and the context alone; a failing one reports its error
//! and leaves the original value untouched, and unrelated paths in the same
//! pass are still generated.

use vstd::prelude::*;
use crate::json::{JsonValue, JsonData, spec_lookup, entries_get, spec_entries, spec_arr_view};
use crate::strutil::push_char;
use crate::generators::{Generator, GenModel, GenCategoryModel, spec_gen_category_view};
use crate::paths::{
    PathPart, PathPartData, spec_parts_view, parse_path, spec_parse_path, path_matches,
    spec_path_matches, specificity, spec_specificity, append_path_text, spec_path_text,
    lemma_specificity_bounds,
};
use crate::outside::{random_u64, regex_gen_valid, regex_generate};

verus! {

/// The mathematical model of the runtime context.
#[verifier::ext_equal]
pub ghost struct GeneratorContextData {
    pub params: Seq<(Seq<char>, JsonData)>,
    pub mock_server_url: Option<Seq<char>>,
    pub request_path: Option<Seq<char>>,
}

/// The externally supplied bag a generation pass runs against: resolved
/// provider-state parameters, the mock server's base URL, and the path of the
/// request being generated.
#[derive(Debug)]
pub struct GeneratorContext {
    pub provider_state_params: Vec<(String, JsonValue)>,
    pub mock_server_url: Option<String>,
    pub request_path: Option<String>,
}

impl View for GeneratorContext {
    type V = GeneratorContextData;

    open spec fn view(&self) -> GeneratorContextData {
        GeneratorContextData {
            params: spec_entries(self.provider_state_params@),
            mock_server_url: match &self.mock_server_url {
                Some(u) => Some(u@),
                None => None,
            },
            request_path: match &self.request_path {
                Some(p) => Some(p@),
                None => None,
            },
        }
    }
}

/// Why one generator produced nothing. Every failure leaves the original
/// value in place.
#[derive(Debug, PartialEq)]
pub enum GenError {
    /// A provider-state expression named a parameter the context lacks.
    MissingProviderStateParam(String),
    /// A provider-state expression outside the path grammar.
    MalformedExpression(String),
    /// The context carries no mock server URL.
    MissingMockServerUrl,
    /// The context carries no request path.
    MissingRequestPath,
    /// A pattern the generation library rejects (anchors, word boundaries,
    /// non-text output), or an empty integer range.
    UnsupportedGenerator,
    /// An unrecognized generator kind, skipped with its report.
    UnknownKind,
}

/// The mathematical model of a generation failure.
#[verifier::ext_equal]
pub ghost enum GenErrorData {
    MissingProviderStateParam(Seq<char>),
    MalformedExpression(Seq<char>),
    MissingMockServerUrl,
    MissingRequestPath,
    UnsupportedGenerator,
    UnknownKind,
}

impl View for GenError {
    type V = GenErrorData;

    open spec fn view(&self) -> GenErrorData {
        match self {
            GenError::MissingProviderStateParam(e) => GenErrorData::MissingProviderStateParam(e@),
            GenError::MalformedExpression(e) => GenErrorData::MalformedExpression(e@),
            GenError::MissingMockServerUrl => GenErrorData::MissingMockServerUrl,
            GenError::MissingRequestPath => GenErrorData::MissingRequestPath,
            GenError::UnsupportedGenerator => GenErrorData::UnsupportedGenerator,
            GenError::UnknownKind => GenErrorData::UnknownKind,
        }
    }
}

/// One failure of a generation pass: where, and why. The value at that path
/// was left unchanged.
#[derive(Debug, PartialEq)]
pub struct GenReport {
    pub path: String,
    pub error: GenError,
}

/// One step of the deterministic pseudo-random stream.
pub open spec fn spec_next_state(x: u64) -> u64 {
    let a = x ^ (x << 13);
    let b = a ^ (a >> 7);
    b ^ (b << 17)
}

/// A seedable pseudo-random stream. Deterministic runs seed it themselves;
/// the default seed comes from the process-wide random source.
#[derive(Debug)]
pub struct SeedStream {
    pub state: u64,
}

impl SeedStream {
    /// A stream from a fixed seed, for deterministic runs.
    pub fn with_seed(seed: u64) -> (r: SeedStream)
        ensures
            r.state == if seed == 0 {
                0x9e3779b97f4a7c15u64
            } else {
                seed
            },
    {
        SeedStream { state: if seed == 0 { 0x9e3779b97f4a7c15 } else { seed } }
    }

    /// A stream seeded from the process-wide random source.
    pub fn fresh() -> (r: SeedStream) {
        let seed = random_u64();
        SeedStream::with_seed(seed)
    }

    /// The next word of the stream.
    pub fn next(&mut self) -> (r: u64)
        ensures
            r == spec_next_state(old(self).state),
            final(self).state == r,
    {
        let x = self.state;
        let a = x ^ (x << 13u64);
        let b = a ^ (a >> 7u64);
        let c = b ^ (b << 17u64);
        self.state = c;
        c
    }
}

fn alnum_char(d: u64) -> (c: char)
    requires
        d < 62,
{
    if d < 10 {
        (48 + d as u8) as char
    } else if d < 36 {
        (97 + (d - 10) as u8) as char
    } else {
        (65 + (d - 36) as u8) as char
    }
}

fn append_hex_word(out: &mut String, w: u64, nibbles: u64)
    requires
        nibbles <= 16,
    ensures
        final(out)@.len() == old(out)@.len() + nibbles,
{
    let mut i: u64 = 0;
    let mut w = w;
    while i < nibbles
        invariant
            i <= nibbles,
            out@.len() == old(out)@.len() + i,
        decreases nibbles - i,
    {
        let d = (w % 16) as u8;
        let c = if d < 10 {
            (48 + d) as char
        } else {
            (87 + d) as char
        };
        push_char(out, c);
        w = w / 16;
        i += 1;
    }
}

/// Whether a generator succeeds or fails against a context, and with which
/// error: success and failure never depend on the random stream, only the
/// produced value does.
pub open spec fn spec_gen_outcome(g: GenModel, ctx: GeneratorContextData) -> Option<
    GenErrorData,
> {
    match g {
        GenModel::ProviderState(expr) => match spec_parse_path(expr) {
            Some(parts) => if parts.len() == 1 && parts[0] is Field {
                match spec_lookup(ctx.params, parts[0]->Field_0) {
                    Some(_) => None,
                    None => Some(GenErrorData::MissingProviderStateParam(expr)),
                }
            } else {
                Some(GenErrorData::MalformedExpression(expr))
            },
            None => Some(GenErrorData::MalformedExpression(expr)),
        },
        GenModel::RandomInt(a, b) => if a <= b {
            None
        } else {
            Some(GenErrorData::UnsupportedGenerator)
        },
        GenModel::RandomBoolean => None,
        GenModel::RandomString(_) => None,
        GenModel::Uuid => None,
        GenModel::MockServerURL(_, _) => match ctx.mock_server_url {
            Some(_) => None,
            None => Some(GenErrorData::MissingMockServerUrl),
        },
        GenModel::RequestPath => match ctx.request_path {
            Some(_) => None,
            None => Some(GenErrorData::MissingRequestPath),
        },
        GenModel::Regex(p) => if regex_gen_valid(p) {
            None
        } else {
            Some(GenErrorData::UnsupportedGenerator)
        },
        GenModel::Unknown(_) => Some(GenErrorData::UnknownKind),
    }
}

/// What holds of a successfully generated value: exact for context-driven
/// generators, shape and bounds for the random ones.
pub open spec fn spec_generated_ok(
    g: GenModel,
    ctx: GeneratorContextData,
    out: JsonData,
) -> bool {
    match g {
        GenModel::ProviderState(expr) => match spec_parse_path(expr) {
            Some(parts) => parts.len() == 1 && parts[0] is Field && spec_lookup(
                ctx.params,
                parts[0]->Field_0,
            ) == Some(out),
            None => false,
        },
        GenModel::RandomInt(a, b) => out is Int && a <= out->Int_0 <= b,
        GenModel::RandomBoolean => out is Bool,
        GenModel::RandomString(n) => out is Str && out->Str_0.len() == n,
        GenModel::Uuid => out is Str && out->Str_0.len() == 36,
        GenModel::MockServerURL(_, _) => ctx.mock_server_url matches Some(u) && out
            == JsonData::Str(u),
        GenModel::RequestPath => ctx.request_path matches Some(p) && out == JsonData::Str(p),
        GenModel::Regex(p) => regex_gen_valid(p) && out is Str,
        GenModel::Unknown(_) => false,
    }
}

/// Applies one generator against the context. Whether it succeeds, and with
/// which error it fails, depends on the generator and the context alone; only
/// the produced value draws on the random stream.
pub fn apply_generator(
    g: &Generator,
    ctx: &GeneratorContext,
    rng: &mut SeedStream,
) -> (r: Result<JsonValue, GenError>)
    ensures
        match spec_gen_outcome(g@, ctx@) {
            None => r matches Ok(nv) && spec_generated_ok(g@, ctx@, nv@),
            Some(e) => r matches Err(err) && err@ == e,
        },
{
    match g {
        Generator::ProviderState(expr) => {
            match parse_path(expr.as_str()) {
                Some(parts) => {
                    if parts.len() == 1 {
                        match &parts[0] {
                            PathPart::Field(name) => {
                                proof {
                                    assert(spec_parts_view(parts@)[0] == parts@[0]@);
                                }
                                match entries_get(&ctx.provider_state_params, name.as_str()) {
                                    Some(v) => Ok(v.deep_copy()),
                                    None => Err(
                                        GenError::MissingProviderStateParam(expr.clone()),
                                    ),
                                }
                            },
                            _ => Err(GenError::MalformedExpression(expr.clone())),
                        }
                    } else {
                        proof {
                            assert(spec_parts_view(parts@).len() == parts@.len());
                        }
                        Err(GenError::MalformedExpression(expr.clone()))
                    }
                },
                None => Err(GenError::MalformedExpression(expr.clone())),
            }
        },
        Generator::RandomInt(a, b) => {
            if *a > *b {
                return Err(GenError::UnsupportedGenerator);
            }
            let w = rng.next();
            let span: u64 = (((*b as i128) - (*a as i128)) as u64);
            let off: u64 = if span == u64::MAX {
                w
            } else {
                w % (span + 1)
            };
            let val: i64 = (((*a as i128) + (off as i128)) as i64);
            Ok(JsonValue::Int(val))
        },
        Generator::RandomBoolean => {
            let w = rng.next();
            Ok(JsonValue::Bool(w % 2 == 0))
        },
        Generator::RandomString(n) => {
            let mut out = String::new();
            let mut i: u64 = 0;
            while i < *n
                invariant
                    i <= *n,
                    out@.len() == i,
                decreases *n - i,
            {
                let w = rng.next();
                push_char(&mut out, alnum_char(w % 62));
                i += 1;
            }
            Ok(JsonValue::Str(out))
        },
        Generator::Uuid => {
            let h1 = rng.next();
            let h2 = rng.next();
            let mut out = String::new();
            append_hex_word(&mut out, h1, 8);
            push_char(&mut out, '-');
            append_hex_word(&mut out, h1 / 0x100000000, 4);
            push_char(&mut out, '-');
            append_hex_word(&mut out, h1 / 0x1000000000000, 4);
            push_char(&mut out, '-');
            append_hex_word(&mut out, h2, 4);
            push_char(&mut out, '-');
            append_hex_word(&mut out, h2 / 0x10000, 12);
            Ok(JsonValue::Str(out))
        },
        Generator::MockServerURL(_, _) => {
            match &ctx.mock_server_url {
                Some(u) => Ok(JsonValue::Str(u.clone())),
                None => Err(GenError::MissingMockServerUrl),
            }
        },
        Generator::RequestPath => {
            match &ctx.request_path {
                Some(p) => Ok(JsonValue::Str(p.clone())),
                None => Err(GenError::MissingRequestPath),
            }
        },
        Generator::Regex(p) => {
            match regex_generate(p.as_str()) {
                Some(text) => Ok(JsonValue::Str(text)),
                None => Err(GenError::UnsupportedGenerator),
            }
        },
        Generator::Unknown(_) => Err(GenError::UnknownKind),
    }
}

/// The model of one generation failure report.
#[verifier::ext_equal]
pub ghost struct GenReportData {
    pub path: Seq<char>,
    pub error: GenErrorData,
}

impl View for GenReport {
    type V = GenReportData;

    open spec fn view(&self) -> GenReportData {
        GenReportData { path: self.path@, error: self.error@ }
    }
}

/// The model of a report list.
pub open spec fn spec_reports_view(s: Seq<GenReport>) -> Seq<GenReportData> {
    Seq::new(
        s.len(),
        |i: int|
            if 0 <= i < s.len() {
                s[i]@
            } else {
                GenReportData { path: Seq::empty(), error: GenErrorData::UnknownKind }
            },
    )
}

/// The most specific generator of a category whose path pattern matches the
/// concrete path: more non-wildcard segments win, the first declared wins a
/// tie, and entries whose path does not parse are passed over.
pub open spec fn spec_select_gen(
    cat: GenCategoryModel,
    con: Seq<PathPartData>,
    i: int,
    best_score: int,
    best: Option<GenModel>,
) -> Option<GenModel>
    decreases cat.len() - i,
{
    if i < 0 || i >= cat.len() {
        best
    } else {
        match spec_parse_path(cat[i].0) {
            Some(pat) => if spec_path_matches(pat, con) && spec_specificity(pat, 0)
                > best_score {
                spec_select_gen(cat, con, i + 1, spec_specificity(pat, 0), Some(cat[i].1))
            } else {
                spec_select_gen(cat, con, i + 1, best_score, best)
            },
            None => spec_select_gen(cat, con, i + 1, best_score, best),
        }
    }
}

fn select_generator<'a>(
    category: &'a Vec<(String, Generator)>,
    path: &Vec<PathPart>,
) -> (r: Option<&'a Generator>)
    ensures
        match r {
            Some(g) => spec_select_gen(
                spec_gen_category_view(category@),
                spec_parts_view(path@),
                0,
                -1,
                None,
            ) == Some(g@),
            None => spec_select_gen(
                spec_gen_category_view(category@),
                spec_parts_view(path@),
                0,
                -1,
                None,
            ) is None,
        },
{
    let ghost cat = spec_gen_category_view(category@);
    let ghost con = spec_parts_view(path@);
    let mut best: Option<&'a Generator> = None;
    let mut best_score: u64 = 0;
    let mut have_best = false;
    let mut i: usize = 0;
    while i < category.len()
        invariant
            i <= category@.len(),
            cat == spec_gen_category_view(category@),
            con == spec_parts_view(path@),
            have_best == (best is Some),
            match best {
                Some(g) => spec_select_gen(cat, con, 0, -1, None) == spec_select_gen(
                    cat,
                    con,
                    i as int,
                    best_score as int,
                    Some(g@),
                ),
                None => spec_select_gen(cat, con, 0, -1, None) == spec_select_gen(
                    cat,
                    con,
                    i as int,
                    -1,
                    None,
                ) && best_score == 0,
            },
        decreases category@.len() - i,
    {
        proof {
            assert(cat[i as int] == (category@[i as int].0@, category@[i as int].1@));
        }
        match parse_path(category[i].0.as_str()) {
            Some(pat) => {
                if path_matches(&pat, path) {
                    let _len: usize = pat.len();
                    proof {
                        lemma_specificity_bounds(spec_parts_view(pat@), 0);
                    }
                    let score = specificity(&pat, 0);
                    if !have_best || score > best_score {
                        best = Some(&category[i].1);
                        best_score = score;
                        have_best = true;
                    }
                }
            },
            None => {},
        }
        i += 1;
    }
    best
}

/// Whether one node of a generation pass came out right: where a most
/// specific matching generator exists and succeeds, the result is what it
/// generated; where it fails, and where no generator matches, the children
/// are passed recursively and scalars keep their value exactly.
pub open spec fn spec_pass_value_ok(
    cat: GenCategoryModel,
    ctx: GeneratorContextData,
    value: JsonData,
    con: Seq<PathPartData>,
    result: JsonData,
) -> bool
    decreases value, 1int, 0int,
{
    match spec_select_gen(cat, con, 0, -1, None) {
        Some(g) => match spec_gen_outcome(g, ctx) {
            None => spec_generated_ok(g, ctx, result),
            Some(_) => spec_children_ok(cat, ctx, value, con, result),
        },
        None => spec_children_ok(cat, ctx, value, con, result),
    }
}

/// The children relation of a pass: arrays and objects keep their length,
/// order and keys, each child passed at its own path; anything else keeps its
/// value exactly.
pub open spec fn spec_children_ok(
    cat: GenCategoryModel,
    ctx: GeneratorContextData,
    value: JsonData,
    con: Seq<PathPartData>,
    result: JsonData,
) -> bool
    decreases value, 0int, 0int,
{
    match value {
        JsonData::Arr(items) => result is Arr && result->Arr_0.len() == items.len()
            && spec_arr_children_ok(cat, ctx, items, result->Arr_0, 0, con),
        JsonData::Obj(entries) => result is Obj && result->Obj_0.len() == entries.len()
            && spec_obj_children_ok(cat, ctx, entries, result->Obj_0, 0, con),
        _ => result == value,
    }
}

/// Each array element from `i` on is passed at its indexed path.
pub open spec fn spec_arr_children_ok(
    cat: GenCategoryModel,
    ctx: GeneratorContextData,
    items: Seq<JsonData>,
    outs: Seq<JsonData>,
    i: int,
    con: Seq<PathPartData>,
) -> bool
    decreases items, 0int, items.len() - i,
{
    if i < 0 {
        false
    } else if i >= items.len() {
        true
    } else {
        i < outs.len() && spec_pass_value_ok(
            cat,
            ctx,
            items[i],
            con.push(PathPartData::Index(i)),
            outs[i],
        ) && spec_arr_children_ok(cat, ctx, items, outs, i + 1, con)
    }
}

/// Each object entry from `i` on keeps its key and is passed at its named
/// path.
pub open spec fn spec_obj_children_ok(
    cat: GenCategoryModel,
    ctx: GeneratorContextData,
    entries: Seq<(Seq<char>, JsonData)>,
    outs: Seq<(Seq<char>, JsonData)>,
    i: int,
    con: Seq<PathPartData>,
) -> bool
    decreases entries, 0int, entries.len() - i,
{
    if i < 0 {
        false
    } else if i >= entries.len() {
        true
    } else {
        i < outs.len() && outs[i].0 == entries[i].0 && spec_pass_value_ok(
            cat,
            ctx,
            entries[i].1,
            con.push(PathPartData::Field(entries[i].0)),
            outs[i].1,
        ) && spec_obj_children_ok(cat, ctx, entries, outs, i + 1, con)
    }
}

/// The reports of one node of a pass: exactly one report with the node's
/// path where the selected generator fails, followed by the children's
/// reports; none where it succeeds; the children's alone where none matches.
pub open spec fn spec_pass_reports(
    cat: GenCategoryModel,
    ctx: GeneratorContextData,
    value: JsonData,
    con: Seq<PathPartData>,
) -> Seq<GenReportData>
    decreases value, 1int, 0int,
{
    match spec_select_gen(cat, con, 0, -1, None) {
        Some(g) => match spec_gen_outcome(g, ctx) {
            None => Seq::empty(),
            Some(e) => seq![
                GenReportData { path: seq!['$'] + spec_path_text(con, 0), error: e },
            ] + spec_children_reports(cat, ctx, value, con),
        },
        None => spec_children_reports(cat, ctx, value, con),
    }
}

/// The reports of a node's children, in order.
pub open spec fn spec_children_reports(
    cat: GenCategoryModel,
    ctx: GeneratorContextData,
    value: JsonData,
    con: Seq<PathPartData>,
) -> Seq<GenReportData>
    decreases value, 0int, 0int,
{
    match value {
        JsonData::Arr(items) => spec_arr_reports(cat, ctx, items, 0, con),
        JsonData::Obj(entries) => spec_obj_reports(cat, ctx, entries, 0, con),
        _ => Seq::empty(),
    }
}

/// The concatenated reports of array elements from `i` on.
pub open spec fn spec_arr_reports(
    cat: GenCategoryModel,
    ctx: GeneratorContextData,
    items: Seq<JsonData>,
    i: int,
    con: Seq<PathPartData>,
) -> Seq<GenReportData>
    decreases items, 0int, items.len() - i,
{
    if i < 0 || i >= items.len() {
        Seq::empty()
    } else {
        spec_pass_reports(cat, ctx, items[i], con.push(PathPartData::Index(i)))
            + spec_arr_reports(cat, ctx, items, i + 1, con)
    }
}

/// The concatenated reports of object entries from `i` on.
pub open spec fn spec_obj_reports(
    cat: GenCategoryModel,
    ctx: GeneratorContextData,
    entries: Seq<(Seq<char>, JsonData)>,
    i: int,
    con: Seq<PathPartData>,
) -> Seq<GenReportData>
    decreases entries, 0int, entries.len() - i,
{
    if i < 0 || i >= entries.len() {
        Seq::empty()
    } else {
        spec_pass_reports(cat, ctx, entries[i].1, con.push(PathPartData::Field(entries[i].0)))
            + spec_obj_reports(cat, ctx, entries, i + 1, con)
    }
}

fn dup_path_with(path: &Vec<PathPart>, last: PathPart) -> (r: Vec<PathPart>)
    ensures
        spec_parts_view(r@) == spec_parts_view(path@).push(last@),
{
    let ghost lv = last@;
    let mut r: Vec<PathPart> = Vec::new();
    let mut k: usize = 0;
    while k < path.len()
        invariant
            k <= path@.len(),
            r@.len() == k,
            forall|j: int| 0 <= j < k ==> r@[j]@ == path@[j]@,
        decreases path@.len() - k,
    {
        let p = match &path[k] {
            PathPart::Field(f) => PathPart::Field(f.clone()),
            PathPart::Index(n) => PathPart::Index(*n),
            PathPart::Star => PathPart::Star,
            PathPart::StarIndex => PathPart::StarIndex,
        };
        r.push(p);
        k += 1;
    }
    r.push(last);
    proof {
        assert(spec_parts_view(r@) =~= spec_parts_view(path@).push(lv));
    }
    r
}

/// One generation pass over a value tree, depth first. At each node the most
/// specific matching generator runs: on success its value replaces the node;
/// on failure the original value stays, exactly one report with that node's
/// path and error is appended, and the pass goes on below and beside it.
/// Nodes without a matching generator pass their children and keep scalars
/// exactly.
#[verifier::loop_isolation(false)]
pub fn apply_generators(
    category: &Vec<(String, Generator)>,
    value: &JsonValue,
    ctx: &GeneratorContext,
    rng: &mut SeedStream,
    path: &Vec<PathPart>,
    reports: &mut Vec<GenReport>,
) -> (r: JsonValue)
    ensures
        spec_pass_value_ok(
            spec_gen_category_view(category@),
            ctx@,
            value@,
            spec_parts_view(path@),
            r@,
        ),
        spec_reports_view(final(reports)@) == spec_reports_view(old(reports)@)
            + spec_pass_reports(
            spec_gen_category_view(category@),
            ctx@,
            value@,
            spec_parts_view(path@),
        ),
    decreases value,
{
    let ghost cat = spec_gen_category_view(category@);
    let ghost con = spec_parts_view(path@);
    let ghost base = spec_reports_view(reports@);
    match select_generator(category, path) {
        Some(g) => {
            match apply_generator(g, ctx, rng) {
                Ok(nv) => {
                    proof {
                        assert(spec_reports_view(reports@) =~= base + spec_pass_reports(
                            cat,
                            ctx@,
                            value@,
                            con,
                        ));
                    }
                    return nv;
                },
                Err(e) => {
                    let mut path_text = String::new();
                    push_char(&mut path_text, '$');
                    append_path_text(&mut path_text, path, 0);
                    proof {
                        assert(path_text@ =~= seq!['$'] + spec_path_text(con, 0));
                    }
                    reports.push(GenReport { path: path_text, error: e });
                    proof {
                        assert(spec_reports_view(reports@) =~= base + seq![
                            GenReportData {
                                path: seq!['$'] + spec_path_text(con, 0),
                                error: spec_gen_outcome(g@, ctx@)->Some_0,
                            },
                        ]);
                    }
                },
            }
        },
        None => {},
    }
    let ghost mid = spec_reports_view(reports@);
    let result = match value {
        JsonValue::Arr(items) => {
            let ghost items_model = spec_arr_view(items@);
            let mut out: Vec<JsonValue> = Vec::new();
            let mut i: usize = 0;
            while i < items.len()
                invariant
                    i <= items@.len(),
                    out@.len() == i,
                    forall|j: int| 0 <= j < i ==> spec_pass_value_ok(
                        cat,
                        ctx@,
                        items_model[j],
                        con.push(PathPartData::Index(j)),
                        #[trigger] out@[j]@,
                    ),
                    mid + spec_arr_reports(cat, ctx@, items_model, 0, con) == spec_reports_view(
                        reports@,
                    ) + spec_arr_reports(cat, ctx@, items_model, i as int, con),
                decreases items@.len() - i,
            {
                let child_path = dup_path_with(path, PathPart::Index(i as u64));
                let ghost before = spec_reports_view(reports@);
                let nv = apply_generators(category, &items[i], ctx, rng, &child_path, reports);
                proof {
                    assert(items_model[i as int] == items@[i as int]@);
                    assert(spec_arr_reports(cat, ctx@, items_model, i as int, con)
                        == spec_pass_reports(
                        cat,
                        ctx@,
                        items_model[i as int],
                        con.push(PathPartData::Index(i as int)),
                    ) + spec_arr_reports(cat, ctx@, items_model, i + 1, con));
                    assert(mid + spec_arr_reports(cat, ctx@, items_model, 0, con)
                        =~= spec_reports_view(reports@) + spec_arr_reports(
                        cat,
                        ctx@,
                        items_model,
                        i + 1,
                        con,
                    ));
                }
                out.push(nv);
                i += 1;
            }
            proof {
                assert(spec_arr_reports(cat, ctx@, items_model, items_model.len() as int, con)
                    =~= Seq::<GenReportData>::empty());
                assert(spec_reports_view(reports@) =~= mid + spec_arr_reports(
                    cat,
                    ctx@,
                    items_model,
                    0,
                    con,
                ));
                assert forall|j: int| 0 <= j < items_model.len() implies spec_pass_value_ok(
                    cat,
                    ctx@,
                    items_model[j],
                    con.push(PathPartData::Index(j)),
                    #[trigger] spec_arr_view(out@)[j],
                ) by {
                    assert(spec_arr_view(out@)[j] == out@[j]@);
                }
                lemma_arr_children_ok(cat, ctx@, items_model, spec_arr_view(out@), 0, con);
            }
            JsonValue::Arr(out)
        },
        JsonValue::Obj(entries) => {
            let ghost entries_model = spec_entries(entries@);
            let mut out: Vec<(String, JsonValue)> = Vec::new();
            let mut i: usize = 0;
            while i < entries.len()
                invariant
                    i <= entries@.len(),
                    out@.len() == i,
                    forall|j: int| 0 <= j < i ==> (#[trigger] out@[j].0@) == entries_model[j].0
                        && spec_pass_value_ok(
                        cat,
                        ctx@,
                        entries_model[j].1,
                        con.push(PathPartData::Field(entries_model[j].0)),
                        out@[j].1@,
                    ),
                    mid + spec_obj_reports(cat, ctx@, entries_model, 0, con)
                        == spec_reports_view(reports@) + spec_obj_reports(
                        cat,
                        ctx@,
                        entries_model,
                        i as int,
                        con,
                    ),
                decreases entries@.len() - i,
            {
                let key = entries[i].0.clone();
                let child_path = dup_path_with(path, PathPart::Field(entries[i].0.clone()));
                let nv = apply_generators(category, &entries[i].1, ctx, rng, &child_path, reports);
                proof {
                    assert(entries_model[i as int] == (entries@[i as int].0@, entries@[
                        i as int].1@));
                    assert(spec_obj_reports(cat, ctx@, entries_model, i as int, con)
                        == spec_pass_reports(
                        cat,
                        ctx@,
                        entries_model[i as int].1,
                        con.push(PathPartData::Field(entries_model[i as int].0)),
                    ) + spec_obj_reports(cat, ctx@, entries_model, i + 1, con));
                    assert(mid + spec_obj_reports(cat, ctx@, entries_model, 0, con)
                        =~= spec_reports_view(reports@) + spec_obj_reports(
                        cat,
                        ctx@,
                        entries_model,
                        i + 1,
                        con,
                    ));
                }
                out.push((key, nv));
                i += 1;
            }
            proof {
                assert(spec_obj_reports(cat, ctx@, entries_model, entries_model.len() as int, con)
                    =~= Seq::<GenReportData>::empty());
                assert(spec_reports_view(reports@) =~= mid + spec_obj_reports(
                    cat,
                    ctx@,
                    entries_model,
                    0,
                    con,
                ));
                assert forall|j: int| 0 <= j < entries_model.len() implies (#[trigger] spec_entries(
                    out@,
                )[j]).0 == entries_model[j].0 && spec_pass_value_ok(
                    cat,
                    ctx@,
                    entries_model[j].1,
                    con.push(PathPartData::Field(entries_model[j].0)),
                    spec_entries(out@)[j].1,
                ) by {
                    assert(spec_entries(out@)[j] == (out@[j].0@, out@[j].1@));
                }
                lemma_obj_children_ok(cat, ctx@, entries_model, spec_entries(out@), 0, con);
            }
            JsonValue::Obj(out)
        },
        _ => {
            proof {
                assert(spec_reports_view(reports@) =~= mid + spec_children_reports(
                    cat,
                    ctx@,
                    value@,
                    con,
                ));
            }
            value.deep_copy()
        },
    };
    proof {
        assert(spec_children_ok(cat, ctx@, value@, con, result@));
        assert(spec_reports_view(reports@) =~= base + spec_pass_reports(cat, ctx@, value@, con));
    }
    result
}

/// Elementwise child relations give the recursive one.
proof fn lemma_arr_children_ok(
    cat: GenCategoryModel,
    ctx: GeneratorContextData,
    items: Seq<JsonData>,
    outs: Seq<JsonData>,
    i: int,
    con: Seq<PathPartData>,
)
    requires
        0 <= i <= items.len(),
        outs.len() == items.len(),
        forall|j: int| i <= j < items.len() ==> spec_pass_value_ok(
            cat,
            ctx,
            items[j],
            con.push(PathPartData::Index(j)),
            #[trigger] outs[j],
        ),
    ensures
        spec_arr_children_ok(cat, ctx, items, outs, i, con),
    decreases items.len() - i,
{
    if i < items.len() {
        lemma_arr_children_ok(cat, ctx, items, outs, i + 1, con);
    }
}

/// Elementwise child relations give the recursive one, keys included.
proof fn lemma_obj_children_ok(
    cat: GenCategoryModel,
    ctx: GeneratorContextData,
    entries: Seq<(Seq<char>, JsonData)>,
    outs: Seq<(Seq<char>, JsonData)>,
    i: int,
    con: Seq<PathPartData>,
)
    requires
        0 <= i <= entries.len(),
        outs.len() == entries.len(),
        forall|j: int| i <= j < entries.len() ==> (#[trigger] outs[j]).0 == entries[j].0
            && spec_pass_value_ok(
            cat,
            ctx,
            entries[j].1,
            con.push(PathPartData::Field(entries[j].0)),
            outs[j].1,
        ),
    ensures
        spec_obj_children_ok(cat, ctx, entries, outs, i, con),
    decreases entries.len() - i,
{
    if i < entries.len() {
        lemma_obj_children_ok(cat, ctx, entries, outs, i + 1, con);
    }
}

} // verus!
