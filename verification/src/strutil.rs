//! Small string utilities shared by the codec and the engines.

use vstd::prelude::*;

verus! {

/// Character-by-character string equality, with the view equality as its meaning.
pub fn str_eq(a: &str, b: &str) -> (r: bool)
    ensures
        r == (a@ == b@),
{
    let alen = a.unicode_len();
    let blen = b.unicode_len();
    if alen != blen {
        assert(a@ != b@) by {
            assert(a@.len() != b@.len());
        }
        return false;
    }
    let mut i: usize = 0;
    while i < alen
        invariant
            i <= alen,
            alen == a@.len(),
            alen == b@.len(),
            forall|j: int| 0 <= j < i ==> a@[j] == b@[j],
        decreases alen - i,
    {
        if a.get_char(i) != b.get_char(i) {
            assert(a@ != b@);
            return false;
        }
        i += 1;
    }
    proof {
        assert(a@ =~= b@);
    }
    true
}

/// Relies on std's String::push: appends one character at the end of the string.
#[verifier::external_body]
pub fn push_char(s: &mut String, c: char)
    ensures
        final(s)@ == old(s)@.push(c),
{
    s.push(c);
}

/// The character for one decimal or hexadecimal digit.
pub open spec fn spec_digit_char(d: nat) -> char {
    if d < 10 {
        ((48 + d) as u8) as char
    } else {
        ((87 + d) as u8) as char
    }
}

/// The decimal rendering of a natural number, most significant digit first.
pub open spec fn spec_dec_digits(n: nat) -> Seq<char>
    decreases n,
{
    if n < 10 {
        seq![spec_digit_char(n)]
    } else {
        spec_dec_digits(n / 10).push(spec_digit_char(n % 10))
    }
}

/// The hexadecimal rendering of a natural number, most significant digit first,
/// lower-case letters.
pub open spec fn spec_hex_digits(n: nat) -> Seq<char>
    decreases n,
{
    if n < 16 {
        seq![spec_digit_char(n)]
    } else {
        spec_hex_digits(n / 16).push(spec_digit_char(n % 16))
    }
}

fn digit_char(d: u8) -> (c: char)
    requires
        d < 16,
    ensures
        c == spec_digit_char(d as nat),
{
    if d < 10 {
        (48 + d) as char
    } else {
        (87 + d) as char
    }
}

/// Appends the decimal rendering of `n` to `out`.
pub fn append_dec(out: &mut String, n: u64)
    ensures
        final(out)@ == old(out)@ + spec_dec_digits(n as nat),
    decreases n,
{
    if n < 10 {
        push_char(out, digit_char(n as u8));
        assert(out@ =~= old(out)@ + spec_dec_digits(n as nat));
    } else {
        append_dec(out, n / 10);
        push_char(out, digit_char((n % 10) as u8));
        assert(out@ =~= old(out)@ + spec_dec_digits(n as nat));
    }
}

/// Appends the hexadecimal rendering of `n` to `out`.
pub fn append_hex(out: &mut String, n: u64)
    ensures
        final(out)@ == old(out)@ + spec_hex_digits(n as nat),
    decreases n,
{
    if n < 16 {
        push_char(out, digit_char(n as u8));
        assert(out@ =~= old(out)@ + spec_hex_digits(n as nat));
    } else {
        append_hex(out, n / 16);
        push_char(out, digit_char((n % 16) as u8));
        assert(out@ =~= old(out)@ + spec_hex_digits(n as nat));
    }
}

/// Lexicographic "less or equal" on character sequences, read from position `i` on.
pub open spec fn spec_lex_le_from(a: Seq<char>, b: Seq<char>, i: int) -> bool
    decreases a.len() - i,
{
    if i >= a.len() {
        true
    } else if i >= b.len() {
        false
    } else if a[i] != b[i] {
        a[i] < b[i]
    } else {
        spec_lex_le_from(a, b, i + 1)
    }
}

/// Lexicographic "less or equal" on character sequences.
pub open spec fn spec_lex_le(a: Seq<char>, b: Seq<char>) -> bool {
    spec_lex_le_from(a, b, 0)
}

fn str_le_from(a: &str, b: &str, i: usize) -> (r: bool)
    requires
        i <= a@.len(),
        i <= b@.len(),
    ensures
        r == spec_lex_le_from(a@, b@, i as int),
    decreases a@.len() - i,
{
    let alen = a.unicode_len();
    let blen = b.unicode_len();
    if i >= alen {
        true
    } else if i >= blen {
        false
    } else {
        let ca = a.get_char(i);
        let cb = b.get_char(i);
        if ca != cb {
            ca < cb
        } else {
            str_le_from(a, b, i + 1)
        }
    }
}

/// Lexicographic "less or equal" on strings.
pub fn str_le(a: &str, b: &str) -> (r: bool)
    ensures
        r == spec_lex_le(a@, b@),
{
    str_le_from(a, b, 0)
}

/// Whether `n` occurs as a contiguous run inside `h`, starting at `i` or later.
pub open spec fn spec_contains_from(h: Seq<char>, n: Seq<char>, i: int) -> bool
    decreases h.len() + 1 - i,
{
    if i < 0 || i + n.len() > h.len() {
        false
    } else if h.subrange(i, i + n.len() as int) == n {
        true
    } else {
        spec_contains_from(h, n, i + 1)
    }
}

/// Whether `n` occurs as a contiguous run inside `h`.
pub open spec fn spec_str_contains(h: Seq<char>, n: Seq<char>) -> bool {
    spec_contains_from(h, n, 0)
}

fn matches_at(h: &str, n: &str, i: usize) -> (r: bool)
    requires
        i + n@.len() <= h@.len(),
    ensures
        r == (h@.subrange(i as int, i + n@.len() as int) == n@),
{
    let hlen = h.unicode_len();
    let nlen = n.unicode_len();
    let mut j: usize = 0;
    while j < nlen
        invariant
            j <= nlen,
            nlen == n@.len(),
            hlen == h@.len(),
            i + nlen <= hlen,
            forall|k: int| 0 <= k < j ==> h@[i + k] == n@[k],
        decreases nlen - j,
    {
        if h.get_char(i + j) != n.get_char(j) {
            assert(h@.subrange(i as int, i + n@.len() as int)[j as int] == h@[i + j]);
            assert(h@.subrange(i as int, i + n@.len() as int) != n@);
            return false;
        }
        j += 1;
    }
    proof {
        assert(h@.subrange(i as int, i + n@.len() as int) =~= n@);
    }
    true
}

fn str_contains_from(h: &str, n: &str, i: usize) -> (r: bool)
    ensures
        r == spec_contains_from(h@, n@, i as int),
    decreases h@.len() + 1 - i,
{
    let hlen = h.unicode_len();
    let nlen = n.unicode_len();
    if i > hlen || nlen > hlen - i {
        false
    } else if matches_at(h, n, i) {
        true
    } else {
        proof {
            if n@.len() == 0 {
                assert(h@.subrange(i as int, i as int) =~= n@);
            }
        }
        str_contains_from(h, n, i + 1)
    }
}

/// Whether `n` occurs as a contiguous substring of `h`.
pub fn str_contains(h: &str, n: &str) -> (r: bool)
    ensures
        r == spec_str_contains(h@, n@),
{
    str_contains_from(h, n, 0)
}

} // verus!
