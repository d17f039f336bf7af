//! Trusted declarations for the outside calls the engines make.

use vstd::prelude::*;

verus! {

/// Whether a regular expression pattern compiles: what `regex::Regex::new`
/// accepts, a function of the pattern alone.
pub uninterp spec fn regex_valid(p: Seq<char>) -> bool;

/// Whether a compiled pattern matches a haystack: what
/// `regex::Regex::is_match` answers, a function of the pattern and the
/// haystack alone.
pub uninterp spec fn regex_is_match(p: Seq<char>, hay: Seq<char>) -> bool;

/// Relies on regex::Regex::new and regex::Regex::is_match: `new` accepts a
/// pattern or rejects it, on the pattern alone; `is_match` answers from the
/// pattern and the haystack alone. A rejected pattern gives `None`.
#[verifier::external_body]
pub fn regex_match(pattern: &str, hay: &str) -> (r: Option<bool>)
    ensures
        r is Some <==> regex_valid(pattern@),
        r matches Some(b) ==> b == regex_is_match(pattern@, hay@),
{
    match regex::Regex::new(pattern) {
        Ok(re) => Some(re.is_match(hay)),
        Err(_) => None,
    }
}

/// Relies on rand::random: one machine word drawn from the process-wide
/// random source. Nothing is promised of the value; every caller must hold
/// for every outcome.
#[verifier::external_body]
pub fn random_u64() -> (r: u64) {
    rand::random::<u64>()
}

/// Whether a text parses as a calendar date under a format: what
/// `chrono::NaiveDate::parse_from_str` accepts, a function of the text and the
/// format alone.
pub uninterp spec fn date_parses(s: Seq<char>, fmt: Seq<char>) -> bool;

/// Whether a text parses as a time of day under a format: what
/// `chrono::NaiveTime::parse_from_str` accepts, a function of the text and the
/// format alone.
pub uninterp spec fn time_parses(s: Seq<char>, fmt: Seq<char>) -> bool;

/// Whether a text parses as a date and time under a format: what
/// `chrono::NaiveDateTime::parse_from_str` accepts, a function of the text and
/// the format alone.
pub uninterp spec fn datetime_parses(s: Seq<char>, fmt: Seq<char>) -> bool;

/// Relies on chrono::NaiveDate::parse_from_str: deterministic in the text and
/// the format, rejecting rather than panicking on anything malformed.
#[verifier::external_body]
pub fn date_parse_check(s: &str, fmt: &str) -> (r: bool)
    ensures
        r == date_parses(s@, fmt@),
{
    chrono::NaiveDate::parse_from_str(s, fmt).is_ok()
}

/// Relies on chrono::NaiveTime::parse_from_str: deterministic in the text and
/// the format, rejecting rather than panicking on anything malformed.
#[verifier::external_body]
pub fn time_parse_check(s: &str, fmt: &str) -> (r: bool)
    ensures
        r == time_parses(s@, fmt@),
{
    chrono::NaiveTime::parse_from_str(s, fmt).is_ok()
}

/// Relies on chrono::NaiveDateTime::parse_from_str: deterministic in the text
/// and the format, rejecting rather than panicking on anything malformed.
#[verifier::external_body]
pub fn datetime_parse_check(s: &str, fmt: &str) -> (r: bool)
    ensures
        r == datetime_parses(s@, fmt@),
{
    chrono::NaiveDateTime::parse_from_str(s, fmt).is_ok()
}

/// Whether a pattern can drive string generation: what
/// `rand_regex::Regex::compile` accepts (no anchors or word-boundary
/// assertions) and generates valid text from, a function of the pattern alone.
pub uninterp spec fn regex_gen_valid(p: Seq<char>) -> bool;

/// Relies on rand_regex::Regex::compile, rand_regex's string sampling and
/// rand::thread_rng: whether the pattern compiles for generation and yields
/// text depends on the pattern alone; the sampled string is random, so nothing
/// is promised of its content. A rejected or non-text pattern gives `None`.
#[verifier::external_body]
pub fn regex_generate(pattern: &str) -> (r: Option<String>)
    ensures
        r is Some <==> regex_gen_valid(pattern@),
{
    match rand_regex::Regex::compile(pattern, 8) {
        Ok(dist) => {
            if dist.is_utf8() {
                Some(rand::Rng::sample(&mut rand::thread_rng(), &dist))
            } else {
                None
            }
        },
        Err(_) => None,
    }
}

} // verus!
