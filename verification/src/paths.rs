//! The path expression language: `$.a.b[3][*].*` names a location inside a
//! structured body. Parsing is total over its grammar and never panics;
//! patterns with wildcards match concrete paths, and more specific patterns
//! win over wildcard ones.

use vstd::prelude::*;
use crate::strutil::push_char;

verus! {

/// The mathematical model of one path segment.
#[verifier::ext_equal]
pub ghost enum PathPartData {
    Field(Seq<char>),
    Index(int),
    Star,
    StarIndex,
}

/// One segment of a path: a field name, an array index, or a wildcard over
/// fields (`.*`) or indices (`[*]`).
#[derive(Debug, PartialEq)]
pub enum PathPart {
    Field(String),
    Index(u64),
    Star,
    StarIndex,
}

impl View for PathPart {
    type V = PathPartData;

    open spec fn view(&self) -> PathPartData {
        match self {
            PathPart::Field(f) => PathPartData::Field(f@),
            PathPart::Index(n) => PathPartData::Index(*n as int),
            PathPart::Star => PathPartData::Star,
            PathPart::StarIndex => PathPartData::StarIndex,
        }
    }
}

/// The model of a segment list.
pub open spec fn spec_parts_view(s: Seq<PathPart>) -> Seq<PathPartData> {
    Seq::new(
        s.len(),
        |i: int|
            if 0 <= i < s.len() {
                s[i]@
            } else {
                PathPartData::Star
            },
    )
}

/// Whether a character is a decimal digit.
pub open spec fn spec_is_digit(c: char) -> bool {
    '0' <= c <= '9'
}

/// The first position at or after `i` that ends a field name: a dot, an open
/// bracket, or the end of the text.
pub open spec fn spec_ident_end(s: Seq<char>, i: int) -> int
    decreases s.len() - i,
{
    if i < 0 || i >= s.len() {
        s.len() as int
    } else if s[i] == '.' || s[i] == '[' {
        i
    } else {
        spec_ident_end(s, i + 1)
    }
}

/// The ident end lies between `i` and the end of the text.
pub proof fn lemma_ident_end_bounds(s: Seq<char>, i: int)
    requires
        0 <= i <= s.len(),
    ensures
        i <= spec_ident_end(s, i) <= s.len(),
    decreases s.len() - i,
{
    if i < s.len() && !(s[i] == '.' || s[i] == '[') {
        lemma_ident_end_bounds(s, i + 1);
    }
}

/// The first position at or after `i` holding no digit.
pub open spec fn spec_digits_end(s: Seq<char>, i: int) -> int
    decreases s.len() - i,
{
    if i < 0 || i >= s.len() {
        s.len() as int
    } else if spec_is_digit(s[i]) {
        spec_digits_end(s, i + 1)
    } else {
        i
    }
}

/// Everything before the digits end is a digit.
pub proof fn lemma_digits_end_digits(s: Seq<char>, i: int)
    requires
        0 <= i <= s.len(),
    ensures
        forall|k: int| i <= k < spec_digits_end(s, i) ==> spec_is_digit(#[trigger] s[k]),
    decreases s.len() - i,
{
    if i < s.len() && spec_is_digit(s[i]) {
        lemma_digits_end_digits(s, i + 1);
    }
}

/// The digits end lies between `i` and the end of the text.
pub proof fn lemma_digits_end_bounds(s: Seq<char>, i: int)
    requires
        0 <= i <= s.len(),
    ensures
        i <= spec_digits_end(s, i) <= s.len(),
    decreases s.len() - i,
{
    if i < s.len() && spec_is_digit(s[i]) {
        lemma_digits_end_bounds(s, i + 1);
    }
}

/// The number written in `s` between `i` and `j`, most significant digit
/// first.
pub open spec fn spec_num(s: Seq<char>, i: int, j: int) -> int
    decreases j - i,
{
    if j <= i {
        0
    } else {
        spec_num(s, i, j - 1) * 10 + (s[j - 1] as int - '0' as int)
    }
}

/// The segments read from the text after the leading `$`, from `i` on; `None`
/// where the grammar is broken.
pub open spec fn spec_parse_from(s: Seq<char>, i: int) -> Option<Seq<PathPartData>>
    decreases s.len() - i, 0int,
    via spec_parse_from_decreases
{
    if i < 0 {
        None
    } else if i >= s.len() {
        Some(Seq::empty())
    } else if s[i] == '.' {
        let j = spec_ident_end(s, i + 1);
        if j == i + 1 {
            None
        } else {
            let name = s.subrange(i + 1, j);
            let part = if name == seq!['*'] {
                PathPartData::Star
            } else {
                PathPartData::Field(name)
            };
            match spec_parse_from(s, j) {
                Some(rest) => Some(seq![part] + rest),
                None => None,
            }
        }
    } else if s[i] == '[' {
        if i + 2 < s.len() && s[i + 1] == '*' && s[i + 2] == ']' {
            match spec_parse_from(s, i + 3) {
                Some(rest) => Some(seq![PathPartData::StarIndex] + rest),
                None => None,
            }
        } else {
            let j = spec_digits_end(s, i + 1);
            if j == i + 1 || j >= s.len() || s[j] != ']' || spec_num(s, i + 1, j) > u64::MAX {
                None
            } else {
                match spec_parse_from(s, j + 1) {
                    Some(rest) => Some(seq![PathPartData::Index(spec_num(s, i + 1, j))] + rest),
                    None => None,
                }
            }
        }
    } else {
        None
    }
}

#[via_fn]
proof fn spec_parse_from_decreases(s: Seq<char>, i: int) {
    if 0 <= i < s.len() {
        if s[i] == '.' {
            lemma_ident_end_bounds(s, i + 1);
        } else if s[i] == '[' {
            lemma_digits_end_bounds(s, i + 1);
        }
    }
}

/// The segments of a path text: a `$` followed by field and index segments;
/// `None` for anything outside the grammar.
pub open spec fn spec_parse_path(s: Seq<char>) -> Option<Seq<PathPartData>> {
    if s.len() == 0 || s[0] != '$' {
        None
    } else {
        spec_parse_from(s, 1)
    }
}

fn ident_end(s: &str, i: usize) -> (r: usize)
    requires
        i <= s@.len(),
    ensures
        r == spec_ident_end(s@, i as int),
        i <= r <= s@.len(),
    decreases s@.len() - i,
{
    let len = s.unicode_len();
    if i >= len {
        len
    } else {
        let c = s.get_char(i);
        if c == '.' || c == '[' {
            i
        } else {
            ident_end(s, i + 1)
        }
    }
}

fn digits_end(s: &str, i: usize) -> (r: usize)
    requires
        i <= s@.len(),
    ensures
        r == spec_digits_end(s@, i as int),
        i <= r <= s@.len(),
    decreases s@.len() - i,
{
    let len = s.unicode_len();
    if i >= len {
        len
    } else {
        let c = s.get_char(i);
        if '0' <= c && c <= '9' {
            digits_end(s, i + 1)
        } else {
            i
        }
    }
}

fn read_num(s: &str, i: usize, j: usize) -> (r: Option<u64>)
    requires
        i <= j <= s@.len(),
        forall|k: int| i <= k < j ==> spec_is_digit(s@[k]),
    ensures
        match r {
            Some(n) => n as int == spec_num(s@, i as int, j as int) && spec_num(
                s@,
                i as int,
                j as int,
            ) <= u64::MAX,
            None => spec_num(s@, i as int, j as int) > u64::MAX,
        },
    decreases j - i,
{
    let mut acc: u64 = 0;
    let mut k: usize = i;
    while k < j
        invariant
            i <= k <= j <= s@.len(),
            forall|t: int| i <= t < j ==> spec_is_digit(s@[t]),
            acc as int == spec_num(s@, i as int, k as int),
        decreases j - k,
    {
        let c = s.get_char(k);
        let d = (c as u32) - 48;
        if acc > (u64::MAX - (d as u64)) / 10 {
            proof {
                lemma_num_grows(s@, i as int, k + 1, j as int);
            }
            return None;
        }
        acc = acc * 10 + (d as u64);
        k += 1;
    }
    Some(acc)
}

/// Appending digits never shrinks the number.
proof fn lemma_num_grows(s: Seq<char>, i: int, k: int, j: int)
    requires
        i <= k <= j <= s.len(),
        forall|t: int| i <= t < j ==> spec_is_digit(s[t]),
    ensures
        spec_num(s, i, j) >= spec_num(s, i, k),
    decreases j - k,
{
    if k < j {
        lemma_num_grows(s, i, k + 1, j);
        assert(spec_num(s, i, k + 1) == spec_num(s, i, k) * 10 + (s[k] as int - '0' as int));
        assert(s[k] as int - '0' as int >= 0);
        assert(spec_num(s, i, k) >= 0) by {
            lemma_num_nonneg(s, i, k);
        }
    }
}

/// A number read from digits is never negative.
proof fn lemma_num_nonneg(s: Seq<char>, i: int, j: int)
    requires
        i <= j <= s.len(),
        forall|t: int| i <= t < j ==> spec_is_digit(s[t]),
    ensures
        spec_num(s, i, j) >= 0,
    decreases j - i,
{
    if i < j {
        lemma_num_nonneg(s, i, j - 1);
        assert(s[j - 1] as int - '0' as int >= 0);
    }
}

fn parse_from(s: &str, i: usize) -> (r: Option<Vec<PathPart>>)
    requires
        i <= s@.len(),
    ensures
        match r {
            Some(parts) => spec_parse_from(s@, i as int) == Some(spec_parts_view(parts@)),
            None => spec_parse_from(s@, i as int) is None,
        },
    decreases s@.len() - i,
{
    let len = s.unicode_len();
    if i >= len {
        let parts: Vec<PathPart> = Vec::new();
        proof {
            assert(spec_parts_view(parts@) =~= Seq::<PathPartData>::empty());
        }
        return Some(parts);
    }
    let c = s.get_char(i);
    if c == '.' {
        let j = ident_end(s, i + 1);
        if j == i + 1 {
            return None;
        }
        let name = s.substring_char(i + 1, j);
        let part = if str_is_star(name) {
            PathPart::Star
        } else {
            PathPart::Field(name.to_owned())
        };
        match parse_from(s, j) {
            Some(rest) => Some(prepend(part, rest)),
            None => None,
        }
    } else if c == '[' {
        if len - i > 2 && s.get_char(i + 1) == '*' && s.get_char(i + 2) == ']' {
            match parse_from(s, i + 3) {
                Some(rest) => Some(prepend(PathPart::StarIndex, rest)),
                None => None,
            }
        } else {
            let j = digits_end(s, i + 1);
            if j == i + 1 || j >= len {
                return None;
            }
            if s.get_char(j) != ']' {
                return None;
            }
            proof {
                lemma_digits_end_digits(s@, i + 1);
            }
            match read_num(s, i + 1, j) {
                Some(n) => {
                    match parse_from(s, j + 1) {
                        Some(rest) => Some(prepend(PathPart::Index(n), rest)),
                        None => None,
                    }
                },
                None => None,
            }
        }
    } else {
        None
    }
}

fn str_is_star(s: &str) -> (r: bool)
    ensures
        r == (s@ == seq!['*']),
{
    let len = s.unicode_len();
    if len != 1 {
        assert(s@ != seq!['*']) by {
            assert(s@.len() != seq!['*'].len());
        }
        false
    } else {
        let r = s.get_char(0) == '*';
        proof {
            if r {
                assert(s@ =~= seq!['*']);
            }
        }
        r
    }
}

fn prepend(p: PathPart, rest: Vec<PathPart>) -> (r: Vec<PathPart>)
    ensures
        spec_parts_view(r@) == seq![p@] + spec_parts_view(rest@),
{
    let ghost orig = spec_parts_view(rest@);
    let ghost pv = p@;
    let mut rest = rest;
    let mut r: Vec<PathPart> = Vec::new();
    r.push(p);
    while rest.len() > 0
        invariant
            r@.len() >= 1,
            r@[0]@ == pv,
            orig.len() == r@.len() - 1 + rest@.len(),
            forall|j: int| 0 <= j < r@.len() - 1 ==> r@[j + 1]@ == orig[j],
            forall|j: int| 0 <= j < rest@.len() ==> rest@[j]@ == orig[r@.len() - 1 + j],
        decreases rest@.len(),
    {
        let one = rest.remove(0);
        r.push(one);
    }
    proof {
        assert(spec_parts_view(r@) =~= seq![pv] + orig);
    }
    r
}

/// Parses a path text into its segments: `None` exactly on text outside the
/// grammar (a malformed bracket, an empty segment, a missing `$`), with no
/// panic on any input.
pub fn parse_path(s: &str) -> (r: Option<Vec<PathPart>>)
    ensures
        match r {
            Some(parts) => spec_parse_path(s@) == Some(spec_parts_view(parts@)),
            None => spec_parse_path(s@) is None,
        },
{
    let len = s.unicode_len();
    if len == 0 || s.get_char(0) != '$' {
        None
    } else {
        parse_from(s, 1)
    }
}

/// Whether one pattern segment accepts one concrete segment.
pub open spec fn spec_part_matches(p: PathPartData, c: PathPartData) -> bool {
    match p {
        PathPartData::Field(f) => c == PathPartData::Field(f),
        PathPartData::Index(n) => c == PathPartData::Index(n),
        PathPartData::Star => c is Field,
        PathPartData::StarIndex => c is Index,
    }
}

/// Whether a pattern matches a concrete path: same length, segment by segment.
pub open spec fn spec_path_matches(pat: Seq<PathPartData>, con: Seq<PathPartData>) -> bool {
    pat.len() == con.len() && (forall|i: int|
        0 <= i < pat.len() ==> spec_part_matches(#[trigger] pat[i], con[i]))
}

/// How specific a pattern is: the number of its non-wildcard segments.
pub open spec fn spec_specificity(pat: Seq<PathPartData>, i: int) -> int
    decreases pat.len() - i,
{
    if i < 0 || i >= pat.len() {
        0
    } else {
        (match pat[i] {
            PathPartData::Field(_) => 1int,
            PathPartData::Index(_) => 1int,
            _ => 0int,
        }) + spec_specificity(pat, i + 1)
    }
}

fn part_matches(p: &PathPart, c: &PathPart) -> (r: bool)
    ensures
        r == spec_part_matches(p@, c@),
{
    match (p, c) {
        (PathPart::Field(f), PathPart::Field(g)) => crate::strutil::str_eq(f.as_str(), g.as_str()),
        (PathPart::Index(n), PathPart::Index(m)) => n == m,
        (PathPart::Star, PathPart::Field(_)) => true,
        (PathPart::StarIndex, PathPart::Index(_)) => true,
        _ => {
            assert(!spec_part_matches(p@, c@));
            false
        },
    }
}

/// Whether a pattern matches a concrete path.
pub fn path_matches(pat: &Vec<PathPart>, con: &Vec<PathPart>) -> (r: bool)
    ensures
        r == spec_path_matches(spec_parts_view(pat@), spec_parts_view(con@)),
{
    if pat.len() != con.len() {
        return false;
    }
    let mut i: usize = 0;
    while i < pat.len()
        invariant
            i <= pat@.len(),
            pat@.len() == con@.len(),
            forall|j: int| 0 <= j < i ==> spec_part_matches(
                spec_parts_view(pat@)[j],
                spec_parts_view(con@)[j],
            ),
        decreases pat@.len() - i,
    {
        if !part_matches(&pat[i], &con[i]) {
            assert(!spec_part_matches(
                spec_parts_view(pat@)[i as int],
                spec_parts_view(con@)[i as int],
            ));
            return false;
        }
        i += 1;
    }
    true
}

/// Counts the non-wildcard segments of a pattern.
pub fn specificity(pat: &Vec<PathPart>, i: usize) -> (r: u64)
    requires
        i <= pat@.len(),
        pat@.len() <= u64::MAX,
    ensures
        r as int == spec_specificity(spec_parts_view(pat@), i as int),
    decreases pat@.len() - i,
{
    if i >= pat.len() {
        0
    } else {
        let here: u64 = match &pat[i] {
            PathPart::Field(_) => 1,
            PathPart::Index(_) => 1,
            _ => 0,
        };
        proof {
            lemma_specificity_bounds(spec_parts_view(pat@), i + 1);
        }
        here + specificity(pat, i + 1)
    }
}

/// A pattern's specificity never exceeds its length.
pub proof fn lemma_specificity_bounds(pat: Seq<PathPartData>, i: int)
    requires
        0 <= i <= pat.len(),
    ensures
        0 <= spec_specificity(pat, i) <= pat.len() - i,
    decreases pat.len() - i,
{
    if i < pat.len() {
        lemma_specificity_bounds(pat, i + 1);
    }
}

/// The text of a concrete path: `$` then `.field` or `[index]` per segment.
pub open spec fn spec_path_text(parts: Seq<PathPartData>, i: int) -> Seq<char>
    decreases parts.len() - i,
{
    if i < 0 || i >= parts.len() {
        Seq::empty()
    } else {
        (match parts[i] {
            PathPartData::Field(f) => seq!['.'] + f,
            PathPartData::Index(n) => seq!['['] + crate::strutil::spec_dec_digits(
                if n >= 0 {
                    n as nat
                } else {
                    0nat
                },
            ) + seq![']'],
            PathPartData::Star => seq!['.', '*'],
            PathPartData::StarIndex => seq!['[', '*', ']'],
        }) + spec_path_text(parts, i + 1)
    }
}

/// Appends the text of the segments from `i` on to `out`.
pub fn append_path_text(out: &mut String, parts: &Vec<PathPart>, i: usize)
    requires
        i <= parts@.len(),
    ensures
        final(out)@ == old(out)@ + spec_path_text(spec_parts_view(parts@), i as int),
    decreases parts@.len() - i,
{
    let ghost model = spec_parts_view(parts@);
    if i >= parts.len() {
        assert(out@ =~= out@ + spec_path_text(model, i as int));
    } else {
        match &parts[i] {
            PathPart::Field(f) => {
                push_char(out, '.');
                out.append(f.as_str());
            },
            PathPart::Index(n) => {
                push_char(out, '[');
                crate::strutil::append_dec(out, *n);
                push_char(out, ']');
            },
            PathPart::Star => {
                push_char(out, '.');
                push_char(out, '*');
            },
            PathPart::StarIndex => {
                push_char(out, '[');
                push_char(out, '*');
                push_char(out, ']');
            },
        }
        append_path_text(out, parts, i + 1);
        assert(out@ =~= old(out)@ + spec_path_text(model, i as int));
    }
}

} // verus!
