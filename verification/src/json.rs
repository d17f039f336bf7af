//! The structured value model: a JSON-like tree of nulls, booleans, integers,
//! strings, arrays and objects. Objects are ordered lists of key/value pairs;
//! insertion order is kept by the codec and ignored by identity hashing.

use vstd::prelude::*;
use crate::strutil::{
    str_eq, str_le, push_char, append_dec, spec_dec_digits, spec_lex_le,
};

verus! {

/// The mathematical model of a structured value.
#[verifier::ext_equal]
pub ghost enum JsonData {
    Null,
    Bool(bool),
    Int(int),
    Str(Seq<char>),
    Arr(Seq<JsonData>),
    Obj(Seq<(Seq<char>, JsonData)>),
}

/// A structured value, as the codec and the engines hold it.
#[derive(Debug, PartialEq)]
pub enum JsonValue {
    Null,
    Bool(bool),
    Int(i64),
    Str(String),
    Arr(Vec<JsonValue>),
    Obj(Vec<(String, JsonValue)>),
}

/// The model of a list of array elements.
pub open spec fn spec_arr_view(s: Seq<JsonValue>) -> Seq<JsonData>
    decreases s,
{
    Seq::new(
        s.len(),
        |i: int|
            if 0 <= i < s.len() {
                s[i]@
            } else {
                JsonData::Null
            },
    )
}

/// The model of a list of object entries.
pub open spec fn spec_entries(s: Seq<(String, JsonValue)>) -> Seq<(Seq<char>, JsonData)>
    decreases s,
{
    Seq::new(
        s.len(),
        |i: int|
            if 0 <= i < s.len() {
                (s[i].0@, s[i].1@)
            } else {
                (Seq::empty(), JsonData::Null)
            },
    )
}

impl View for JsonValue {
    type V = JsonData;

    open spec fn view(&self) -> JsonData
        decreases self,
    {
        match self {
            JsonValue::Null => JsonData::Null,
            JsonValue::Bool(b) => JsonData::Bool(*b),
            JsonValue::Int(i) => JsonData::Int(*i as int),
            JsonValue::Str(s) => JsonData::Str(s@),
            JsonValue::Arr(items) => JsonData::Arr(spec_arr_view(items@)),
            JsonValue::Obj(entries) => JsonData::Obj(spec_entries(entries@)),
        }
    }
}

/// First-match lookup in an entry list, read from position `i` on.
pub open spec fn spec_lookup_from(
    s: Seq<(Seq<char>, JsonData)>,
    k: Seq<char>,
    i: int,
) -> Option<JsonData>
    decreases s.len() - i,
{
    if i < 0 || i >= s.len() {
        None
    } else if s[i].0 == k {
        Some(s[i].1)
    } else {
        spec_lookup_from(s, k, i + 1)
    }
}

/// First-match lookup in an entry list.
pub open spec fn spec_lookup(s: Seq<(Seq<char>, JsonData)>, k: Seq<char>) -> Option<JsonData> {
    spec_lookup_from(s, k, 0)
}

fn entries_get_from<'a>(
    entries: &'a Vec<(String, JsonValue)>,
    key: &str,
    i: usize,
) -> (r: Option<&'a JsonValue>)
    ensures
        match r {
            Some(v) => spec_lookup_from(spec_entries(entries@), key@, i as int) == Some(v@),
            None => spec_lookup_from(spec_entries(entries@), key@, i as int) is None,
        },
    decreases entries@.len() - i,
{
    if i >= entries.len() {
        None
    } else if str_eq(entries[i].0.as_str(), key) {
        Some(&entries[i].1)
    } else {
        entries_get_from(entries, key, i + 1)
    }
}

/// First-match lookup of `key` in an entry list.
pub fn entries_get<'a>(
    entries: &'a Vec<(String, JsonValue)>,
    key: &str,
) -> (r: Option<&'a JsonValue>)
    ensures
        match r {
            Some(v) => spec_lookup(spec_entries(entries@), key@) == Some(v@),
            None => spec_lookup(spec_entries(entries@), key@) is None,
        },
{
    entries_get_from(entries, key, 0)
}

impl JsonValue {
    /// Field lookup: `Some` exactly when the value is an object holding the key.
    pub fn get<'a>(&'a self, key: &str) -> (r: Option<&'a JsonValue>)
        ensures
            match r {
                Some(v) => self@ is Obj && spec_lookup(self@->Obj_0, key@) == Some(v@),
                None => !(self@ is Obj) || spec_lookup(self@->Obj_0, key@) is None,
            },
    {
        match self {
            JsonValue::Obj(entries) => entries_get(entries, key),
            _ => None,
        }
    }

    /// A deep copy whose model is the same.
    #[verifier::loop_isolation(false)]
    pub fn deep_copy(&self) -> (r: JsonValue)
        ensures
            r@ == self@,
        decreases self,
    {
        match self {
            JsonValue::Null => JsonValue::Null,
            JsonValue::Bool(b) => JsonValue::Bool(*b),
            JsonValue::Int(i) => JsonValue::Int(*i),
            JsonValue::Str(s) => JsonValue::Str(s.clone()),
            JsonValue::Arr(items) => {
                let mut out: Vec<JsonValue> = Vec::new();
                let mut i: usize = 0;
                while i < items.len()
                    invariant
                        i <= items@.len(),
                        out@.len() == i,
                        forall|j: int| 0 <= j < i ==> out@[j]@ == items@[j]@,
                    decreases items@.len() - i,
                {
                    let c = items[i].deep_copy();
                    out.push(c);
                    i += 1;
                }
                proof {
                    assert(spec_arr_view(out@) =~= spec_arr_view(items@));
                }
                JsonValue::Arr(out)
            },
            JsonValue::Obj(entries) => {
                let mut out: Vec<(String, JsonValue)> = Vec::new();
                let mut i: usize = 0;
                while i < entries.len()
                    invariant
                        i <= entries@.len(),
                        out@.len() == i,
                        forall|j: int| 0 <= j < i ==> out@[j].0@ == entries@[j].0@
                            && out@[j].1@ == entries@[j].1@,
                    decreases entries@.len() - i,
                {
                    let k = entries[i].0.clone();
                    let v = entries[i].1.deep_copy();
                    out.push((k, v));
                    i += 1;
                }
                proof {
                    assert(spec_entries(out@) =~= spec_entries(entries@));
                }
                JsonValue::Obj(out)
            },
        }
    }
}

fn arr_eq_from(a: &Vec<JsonValue>, b: &Vec<JsonValue>, i: usize) -> (r: bool)
    requires
        a@.len() == b@.len(),
        i <= a@.len(),
    ensures
        r == (forall|j: int| i <= j < a@.len() ==> a@[j]@ == b@[j]@),
    decreases a, a@.len() - i,
{
    if i >= a.len() {
        true
    } else if json_eq(&a[i], &b[i]) {
        arr_eq_from(a, b, i + 1)
    } else {
        false
    }
}

fn obj_eq_from(a: &Vec<(String, JsonValue)>, b: &Vec<(String, JsonValue)>, i: usize) -> (r: bool)
    requires
        a@.len() == b@.len(),
        i <= a@.len(),
    ensures
        r == (forall|j: int|
            i <= j < a@.len() ==> a@[j].0@ == b@[j].0@ && a@[j].1@ == b@[j].1@),
    decreases a, a@.len() - i,
{
    if i >= a.len() {
        true
    } else if str_eq(a[i].0.as_str(), b[i].0.as_str()) && json_eq(&a[i].1, &b[i].1) {
        obj_eq_from(a, b, i + 1)
    } else {
        false
    }
}

/// Structural equality of two values, decided on their models.
pub fn json_eq(a: &JsonValue, b: &JsonValue) -> (r: bool)
    ensures
        r == (a@ == b@),
    decreases a, 0nat,
{
    match (a, b) {
        (JsonValue::Null, JsonValue::Null) => true,
        (JsonValue::Bool(x), JsonValue::Bool(y)) => x == y,
        (JsonValue::Int(x), JsonValue::Int(y)) => x == y,
        (JsonValue::Str(x), JsonValue::Str(y)) => str_eq(x.as_str(), y.as_str()),
        (JsonValue::Arr(x), JsonValue::Arr(y)) => {
            if x.len() != y.len() {
                assert(a@->Arr_0.len() != b@->Arr_0.len());
                false
            } else {
                let r = arr_eq_from(x, y, 0);
                proof {
                    if r {
                        assert(spec_arr_view(x@) =~= spec_arr_view(y@));
                    } else {
                        assert(exists|j: int| 0 <= j < x@.len() && x@[j]@ != y@[j]@);
                        let j = choose|j: int| 0 <= j < x@.len() && x@[j]@ != y@[j]@;
                        assert(spec_arr_view(x@)[j] != spec_arr_view(y@)[j]);
                    }
                }
                r
            }
        },
        (JsonValue::Obj(x), JsonValue::Obj(y)) => {
            if x.len() != y.len() {
                assert(spec_entries(x@).len() == x@.len());
                assert(spec_entries(y@).len() == y@.len());
                assert(a@ == JsonData::Obj(spec_entries(x@)));
                assert(b@ == JsonData::Obj(spec_entries(y@)));
                false
            } else {
                let r = obj_eq_from(x, y, 0);
                proof {
                    if r {
                        assert(spec_entries(x@) =~= spec_entries(y@));
                    } else {
                        assert(exists|j: int|
                            0 <= j < x@.len() && !(x@[j].0@ == y@[j].0@ && x@[j].1@ == y@[j].1@));
                        let j = choose|j: int|
                            0 <= j < x@.len() && !(x@[j].0@ == y@[j].0@ && x@[j].1@ == y@[j].1@);
                        assert(spec_entries(x@)[j] != spec_entries(y@)[j]);
                    }
                }
                r
            }
        },
        _ => {
            assert(a@ != b@);
            false
        },
    }
}

/// The escaped rendering of one character inside a string literal.
pub open spec fn spec_esc_char(c: char) -> Seq<char> {
    if c == '"' {
        seq!['\\', '"']
    } else if c == '\\' {
        seq!['\\', '\\']
    } else if c == '\n' {
        seq!['\\', 'n']
    } else if c == '\r' {
        seq!['\\', 'r']
    } else if c == '\t' {
        seq!['\\', 't']
    } else {
        seq![c]
    }
}

/// The escaped rendering of a string, read from position `i` on.
pub open spec fn spec_escape_from(s: Seq<char>, i: int) -> Seq<char>
    decreases s.len() - i,
{
    if i < 0 || i >= s.len() {
        Seq::empty()
    } else {
        spec_esc_char(s[i]) + spec_escape_from(s, i + 1)
    }
}

/// The rendering of a string literal, quotes included.
pub open spec fn spec_str_text(s: Seq<char>) -> Seq<char> {
    seq!['"'] + spec_escape_from(s, 0) + seq!['"']
}

/// The rendering of an integer, decimal with a leading minus sign when negative.
pub open spec fn spec_int_text(i: int) -> Seq<char> {
    if i < 0 {
        seq!['-'] + spec_dec_digits((-i) as nat)
    } else {
        spec_dec_digits(i as nat)
    }
}

/// The canonical text of a value. Arrays and objects render their elements in
/// order, separated by commas, with no whitespace.
pub open spec fn spec_json_text(d: JsonData) -> Seq<char>
    decreases d, 1nat, 0int,
{
    match d {
        JsonData::Null => seq!['n', 'u', 'l', 'l'],
        JsonData::Bool(b) => if b {
            seq!['t', 'r', 'u', 'e']
        } else {
            seq!['f', 'a', 'l', 's', 'e']
        },
        JsonData::Int(i) => spec_int_text(i),
        JsonData::Str(s) => spec_str_text(s),
        JsonData::Arr(items) => seq!['['] + spec_items_text(items, 0) + seq![']'],
        JsonData::Obj(entries) => seq!['{'] + spec_obj_text(entries, 0) + seq!['}'],
    }
}

/// The comma-separated renderings of array elements from position `i` on.
pub open spec fn spec_items_text(items: Seq<JsonData>, i: int) -> Seq<char>
    decreases items, 0nat, items.len() - i,
{
    if i < 0 || i >= items.len() {
        Seq::empty()
    } else if i + 1 == items.len() {
        spec_json_text(items[i])
    } else {
        spec_json_text(items[i]) + seq![','] + spec_items_text(items, i + 1)
    }
}

/// The comma-separated renderings of object entries from position `i` on.
pub open spec fn spec_obj_text(entries: Seq<(Seq<char>, JsonData)>, i: int) -> Seq<char>
    decreases entries, 0nat, entries.len() - i,
{
    if i < 0 || i >= entries.len() {
        Seq::empty()
    } else {
        let one = spec_str_text(entries[i].0) + seq![':'] + spec_json_text(entries[i].1);
        if i + 1 == entries.len() {
            one
        } else {
            one + seq![','] + spec_obj_text(entries, i + 1)
        }
    }
}

fn append_escaped_from(out: &mut String, s: &str, i: usize)
    requires
        i <= s@.len(),
    ensures
        final(out)@ == old(out)@ + spec_escape_from(s@, i as int),
    decreases s@.len() - i,
{
    let len = s.unicode_len();
    if i >= len {
        assert(out@ =~= out@ + spec_escape_from(s@, i as int));
    } else {
        let c = s.get_char(i);
        if c == '"' {
            push_char(out, '\\');
            push_char(out, '"');
        } else if c == '\\' {
            push_char(out, '\\');
            push_char(out, '\\');
        } else if c == '\n' {
            push_char(out, '\\');
            push_char(out, 'n');
        } else if c == '\r' {
            push_char(out, '\\');
            push_char(out, 'r');
        } else if c == '\t' {
            push_char(out, '\\');
            push_char(out, 't');
        } else {
            push_char(out, c);
        }
        assert(out@ =~= old(out)@ + spec_esc_char(s@[i as int]));
        append_escaped_from(out, s, i + 1);
        assert(out@ =~= old(out)@ + spec_escape_from(s@, i as int));
    }
}

fn append_str_text(out: &mut String, s: &str)
    ensures
        final(out)@ == old(out)@ + spec_str_text(s@),
{
    push_char(out, '"');
    append_escaped_from(out, s, 0);
    push_char(out, '"');
    assert(out@ =~= old(out)@ + spec_str_text(s@));
}

fn append_int_text(out: &mut String, i: i64)
    ensures
        final(out)@ == old(out)@ + spec_int_text(i as int),
{
    if i < 0 {
        push_char(out, '-');
        let m: u64 = ((-(i + 1)) as u64) + 1;
        assert(m as nat == (-(i as int)) as nat);
        append_dec(out, m);
        assert(out@ =~= old(out)@ + spec_int_text(i as int));
    } else {
        append_dec(out, i as u64);
    }
}

fn append_items_text(out: &mut String, items: &Vec<JsonValue>, i: usize)
    requires
        i <= items@.len(),
    ensures
        final(out)@ == old(out)@ + spec_items_text(spec_arr_view(items@), i as int),
    decreases items, 0nat, items@.len() - i,
{
    let ghost model = spec_arr_view(items@);
    if i >= items.len() {
        assert(out@ =~= out@ + spec_items_text(model, i as int));
    } else {
        append_json_text(out, &items[i]);
        if i + 1 == items.len() {
            assert(out@ =~= old(out)@ + spec_items_text(model, i as int));
        } else {
            push_char(out, ',');
            append_items_text(out, items, i + 1);
            assert(out@ =~= old(out)@ + spec_items_text(model, i as int));
        }
    }
}

fn append_obj_text(out: &mut String, entries: &Vec<(String, JsonValue)>, i: usize)
    requires
        i <= entries@.len(),
    ensures
        final(out)@ == old(out)@ + spec_obj_text(spec_entries(entries@), i as int),
    decreases entries, 0nat, entries@.len() - i,
{
    let ghost model = spec_entries(entries@);
    if i >= entries.len() {
        assert(out@ =~= out@ + spec_obj_text(model, i as int));
    } else {
        append_str_text(out, entries[i].0.as_str());
        push_char(out, ':');
        append_json_text(out, &entries[i].1);
        if i + 1 == entries.len() {
            assert(out@ =~= old(out)@ + spec_obj_text(model, i as int));
        } else {
            push_char(out, ',');
            append_obj_text(out, entries, i + 1);
            assert(out@ =~= old(out)@ + spec_obj_text(model, i as int));
        }
    }
}

/// Appends the canonical text of `v` to `out`.
pub fn append_json_text(out: &mut String, v: &JsonValue)
    ensures
        final(out)@ == old(out)@ + spec_json_text(v@),
    decreases v, 1nat, 0int,
{
    match v {
        JsonValue::Null => {
            push_char(out, 'n');
            push_char(out, 'u');
            push_char(out, 'l');
            push_char(out, 'l');
            assert(out@ =~= old(out)@ + spec_json_text(v@));
        },
        JsonValue::Bool(b) => {
            if *b {
                push_char(out, 't');
                push_char(out, 'r');
                push_char(out, 'u');
                push_char(out, 'e');
            } else {
                push_char(out, 'f');
                push_char(out, 'a');
                push_char(out, 'l');
                push_char(out, 's');
                push_char(out, 'e');
            }
            assert(out@ =~= old(out)@ + spec_json_text(v@));
        },
        JsonValue::Int(i) => {
            append_int_text(out, *i);
        },
        JsonValue::Str(s) => {
            append_str_text(out, s.as_str());
        },
        JsonValue::Arr(items) => {
            push_char(out, '[');
            append_items_text(out, items, 0);
            push_char(out, ']');
            assert(out@ =~= old(out)@ + spec_json_text(v@));
        },
        JsonValue::Obj(entries) => {
            push_char(out, '{');
            append_obj_text(out, entries, 0);
            push_char(out, '}');
            assert(out@ =~= old(out)@ + spec_json_text(v@));
        },
    }
}

/// The canonical text of `v` as a fresh string.
pub fn json_text(v: &JsonValue) -> (r: String)
    ensures
        r@ == spec_json_text(v@),
{
    let mut out = String::new();
    append_json_text(&mut out, v);
    out
}

/// The plain-string reading of a value: a string gives its characters, any
/// other value gives its canonical text.
pub open spec fn spec_json_to_string(d: JsonData) -> Seq<char> {
    match d {
        JsonData::Str(s) => s,
        _ => spec_json_text(d),
    }
}

/// The plain-string reading of a value.
pub fn json_to_string(v: &JsonValue) -> (r: String)
    ensures
        r@ == spec_json_to_string(v@),
{
    match v {
        JsonValue::Str(s) => s.clone(),
        _ => json_text(v),
    }
}

/// Insertion of one entry into a key-sorted entry list.
pub open spec fn spec_insert_sorted(
    e: (Seq<char>, JsonData),
    s: Seq<(Seq<char>, JsonData)>,
) -> Seq<(Seq<char>, JsonData)>
    decreases s.len(),
{
    if s.len() == 0 {
        seq![e]
    } else if spec_lex_le(e.0, s[0].0) {
        seq![e] + s
    } else {
        seq![s[0]] + spec_insert_sorted(e, s.drop_first())
    }
}

/// Key-sorted reordering of an entry list, stable for equal keys.
pub open spec fn spec_sort_entries(s: Seq<(Seq<char>, JsonData)>) -> Seq<(Seq<char>, JsonData)>
    decreases s.len(),
{
    if s.len() == 0 {
        Seq::empty()
    } else {
        spec_insert_sorted(s[0], spec_sort_entries(s.drop_first()))
    }
}

#[verifier::loop_isolation(false)]
fn insert_sorted(e: (String, JsonValue), s: Vec<(String, JsonValue)>) -> (r: Vec<
    (String, JsonValue),
>)
    ensures
        spec_entries(r@) == spec_insert_sorted((e.0@, e.1@), spec_entries(s@)),
    decreases s@.len(),
{
    let ghost orig = spec_entries(s@);
    let ghost e_model = (e.0@, e.1@);
    let mut s = s;
    if s.len() == 0 {
        let mut r: Vec<(String, JsonValue)> = Vec::new();
        r.push(e);
        proof {
            assert(spec_entries(r@) =~= spec_insert_sorted(e_model, orig));
        }
        r
    } else if str_le(e.0.as_str(), s[0].0.as_str()) {
        let mut r: Vec<(String, JsonValue)> = Vec::new();
        r.push(e);
        let ghost e_view = (r@[0].0@, r@[0].1@);
        let mut i: usize = 0;
        while i < s.len()
            invariant
                i <= s@.len(),
                r@.len() == i + 1,
                (r@[0].0@, r@[0].1@) == e_view,
                forall|j: int| 0 <= j < i ==> r@[j + 1].0@ == s@[j].0@ && r@[j + 1].1@
                    == s@[j].1@,
            decreases s@.len() - i,
        {
            let k = s[i].0.clone();
            let v = s[i].1.deep_copy();
            r.push((k, v));
            i += 1;
        }
        proof {
            assert(spec_entries(r@) =~= seq![e_view] + orig);
        }
        r
    } else {
        let head = s.remove(0);
        proof {
            assert(orig.drop_first() =~= spec_entries(s@));
            assert(orig[0] == (head.0@, head.1@));
        }
        let rest = insert_sorted(e, s);
        let mut r: Vec<(String, JsonValue)> = Vec::new();
        r.push(head);
        let ghost head_view = (r@[0].0@, r@[0].1@);
        let mut i: usize = 0;
        while i < rest.len()
            invariant
                i <= rest@.len(),
                r@.len() == i + 1,
                (r@[0].0@, r@[0].1@) == head_view,
                forall|j: int| 0 <= j < i ==> r@[j + 1].0@ == rest@[j].0@ && r@[j + 1].1@
                    == rest@[j].1@,
            decreases rest@.len() - i,
        {
            let k = rest[i].0.clone();
            let v = rest[i].1.deep_copy();
            r.push((k, v));
            i += 1;
        }
        proof {
            assert(spec_entries(r@) =~= seq![head_view] + spec_entries(rest@));
            assert(spec_entries(r@) =~= spec_insert_sorted(e_model, orig));
        }
        r
    }
}

/// Reorders an entry list by key, stable for equal keys.
pub fn sort_entries(s: Vec<(String, JsonValue)>) -> (r: Vec<(String, JsonValue)>)
    ensures
        spec_entries(r@) == spec_sort_entries(spec_entries(s@)),
    decreases s@.len(),
{
    let ghost orig = spec_entries(s@);
    let mut s = s;
    if s.len() == 0 {
        let r: Vec<(String, JsonValue)> = Vec::new();
        proof {
            assert(spec_entries(r@) =~= spec_sort_entries(orig));
        }
        r
    } else {
        let head = s.remove(0);
        proof {
            assert(orig.drop_first() =~= spec_entries(s@));
            assert(orig[0] == (head.0@, head.1@));
        }
        let sorted = sort_entries(s);
        insert_sorted(head, sorted)
    }
}

/// A successful lookup hands back one of the list's own values.
pub proof fn lemma_lookup_element(s: Seq<(Seq<char>, JsonData)>, k: Seq<char>, i: int)
    requires
        spec_lookup_from(s, k, i) is Some,
    ensures
        exists|j: int|
            0 <= j < s.len() && s[j].1 == spec_lookup_from(s, k, i)->Some_0,
    decreases s.len() - i,
{
    if 0 <= i < s.len() {
        if s[i].0 == k {
        } else {
            lemma_lookup_element(s, k, i + 1);
        }
    }
}

/// A value found inside an object is below the object in the height order.
pub proof fn lemma_lookup_decreases(d: JsonData, k: Seq<char>)
    requires
        d is Obj,
        spec_lookup(d->Obj_0, k) is Some,
    ensures
        decreases_to!(d => spec_lookup(d->Obj_0, k)->Some_0),
{
    let e = d->Obj_0;
    let v = spec_lookup(e, k)->Some_0;
    lemma_lookup_element(e, k, 0);
    let j = choose|j: int| 0 <= j < e.len() && e[j].1 == v;
    assert(decreases_to!(d => e));
    assert(decreases_to!(e => e[j]));
    assert(decreases_to!(e[j] => e[j].1));
}

fn entries_find_from(
    entries: &Vec<(String, JsonValue)>,
    key: &str,
    i: usize,
) -> (r: Option<usize>)
    requires
        i <= entries@.len(),
    ensures
        match r {
            Some(j) => i <= j < entries@.len() && entries@[j as int].0@ == key@
                && spec_lookup_from(spec_entries(entries@), key@, i as int)
                == Some(entries@[j as int].1@),
            None => spec_lookup_from(spec_entries(entries@), key@, i as int) is None,
        },
    decreases entries@.len() - i,
{
    if i >= entries.len() {
        None
    } else if str_eq(entries[i].0.as_str(), key) {
        Some(i)
    } else {
        entries_find_from(entries, key, i + 1)
    }
}

/// The index of the first entry under `key`, beside what the lookup finds there.
pub fn entries_find(entries: &Vec<(String, JsonValue)>, key: &str) -> (r: Option<usize>)
    ensures
        match r {
            Some(j) => j < entries@.len() && entries@[j as int].0@ == key@ && spec_lookup(
                spec_entries(entries@),
                key@,
            ) == Some(entries@[j as int].1@),
            None => spec_lookup(spec_entries(entries@), key@) is None,
        },
{
    entries_find_from(entries, key, 0)
}

/// The canonical forms of a list of values.
pub open spec fn spec_canon_items(items: Seq<JsonData>) -> Seq<JsonData>
    decreases items,
{
    Seq::new(
        items.len(),
        |i: int|
            if 0 <= i < items.len() {
                spec_canonical(items[i])
            } else {
                JsonData::Null
            },
    )
}

/// The canonical forms of a list of entries' values, keys untouched.
pub open spec fn spec_canon_entries(
    entries: Seq<(Seq<char>, JsonData)>,
) -> Seq<(Seq<char>, JsonData)>
    decreases entries,
{
    Seq::new(
        entries.len(),
        |i: int|
            if 0 <= i < entries.len() {
                (entries[i].0, spec_canonical(entries[i].1))
            } else {
                (Seq::empty(), JsonData::Null)
            },
    )
}

/// The canonical form of a value: every object reordered by key, recursively.
/// Scalars and array order are untouched.
pub open spec fn spec_canonical(d: JsonData) -> JsonData
    decreases d,
{
    match d {
        JsonData::Arr(items) => JsonData::Arr(spec_canon_items(items)),
        JsonData::Obj(entries) => JsonData::Obj(spec_sort_entries(spec_canon_entries(entries))),
        _ => d,
    }
}

/// Builds the canonical form of a value.
#[verifier::loop_isolation(false)]
pub fn canonical_json(v: &JsonValue) -> (r: JsonValue)
    ensures
        r@ == spec_canonical(v@),
    decreases v,
{
    match v {
        JsonValue::Null => JsonValue::Null,
        JsonValue::Bool(b) => JsonValue::Bool(*b),
        JsonValue::Int(i) => JsonValue::Int(*i),
        JsonValue::Str(s) => JsonValue::Str(s.clone()),
        JsonValue::Arr(items) => {
            let mut out: Vec<JsonValue> = Vec::new();
            let mut i: usize = 0;
            while i < items.len()
                invariant
                    i <= items@.len(),
                    out@.len() == i,
                    forall|j: int| 0 <= j < i ==> out@[j]@ == spec_canonical(items@[j]@),
                decreases items@.len() - i,
            {
                let c = canonical_json(&items[i]);
                out.push(c);
                i += 1;
            }
            proof {
                assert(spec_arr_view(out@) =~= spec_canon_items(v@->Arr_0));
            }
            JsonValue::Arr(out)
        },
        JsonValue::Obj(entries) => {
            let mut mapped: Vec<(String, JsonValue)> = Vec::new();
            let mut i: usize = 0;
            while i < entries.len()
                invariant
                    i <= entries@.len(),
                    mapped@.len() == i,
                    forall|j: int| 0 <= j < i ==> mapped@[j].0@ == entries@[j].0@
                        && mapped@[j].1@ == spec_canonical(entries@[j].1@),
                decreases entries@.len() - i,
            {
                let k = entries[i].0.clone();
                let c = canonical_json(&entries[i].1);
                mapped.push((k, c));
                i += 1;
            }
            proof {
                assert(spec_entries(mapped@) =~= spec_canon_entries(spec_entries(entries@)));
            }
            let sorted = sort_entries(mapped);
            JsonValue::Obj(sorted)
        },
    }
}

/// Looking past a prefix: positions at or beyond `a.len()` in `a + b` read `b`.
pub proof fn lemma_lookup_tail(
    a: Seq<(Seq<char>, JsonData)>,
    b: Seq<(Seq<char>, JsonData)>,
    k: Seq<char>,
    j: int,
)
    requires
        0 <= j,
    ensures
        spec_lookup_from(a + b, k, a.len() + j) == spec_lookup_from(b, k, j),
    decreases b.len() - j,
{
    if j < b.len() {
        assert((a + b)[a.len() + j] == b[j]);
        if b[j].0 == k {
        } else {
            lemma_lookup_tail(a, b, k, j + 1);
        }
    }
}

/// A lookup in a concatenation finds what the first part holds, else what the
/// second part holds.
pub proof fn lemma_lookup_concat(
    a: Seq<(Seq<char>, JsonData)>,
    b: Seq<(Seq<char>, JsonData)>,
    k: Seq<char>,
    i: int,
)
    requires
        0 <= i <= a.len(),
    ensures
        spec_lookup_from(a + b, k, i) == (if spec_lookup_from(a, k, i) is Some {
            spec_lookup_from(a, k, i)
        } else {
            spec_lookup(b, k)
        }),
    decreases a.len() - i,
{
    if i >= a.len() {
        lemma_lookup_tail(a, b, k, 0);
    } else {
        assert((a + b)[i] == a[i]);
        if a[i].0 == k {
        } else {
            lemma_lookup_concat(a, b, k, i + 1);
        }
    }
}

/// Structural equality of two entry lists, decided on their models.
pub fn entries_eq(a: &Vec<(String, JsonValue)>, b: &Vec<(String, JsonValue)>) -> (r: bool)
    ensures
        r == (spec_entries(a@) == spec_entries(b@)),
{
    if a.len() != b.len() {
        assert(spec_entries(a@).len() != spec_entries(b@).len());
        return false;
    }
    let r = obj_eq_from(a, b, 0);
    proof {
        if r {
            assert(spec_entries(a@) =~= spec_entries(b@));
        } else {
            assert(exists|j: int|
                0 <= j < a@.len() && !(a@[j].0@ == b@[j].0@ && a@[j].1@ == b@[j].1@));
            let j = choose|j: int|
                0 <= j < a@.len() && !(a@[j].0@ == b@[j].0@ && a@[j].1@ == b@[j].1@);
            assert(spec_entries(a@)[j] != spec_entries(b@)[j]);
        }
    }
    r
}

} // verus!
