//! The tri-state body of an interaction part, its JSON envelope, and
//! content-type resolution.

use vstd::prelude::*;
use crate::json::{JsonValue, JsonData, spec_lookup, spec_lookup_from, spec_entries};
use crate::strutil::{push_char, str_eq, spec_digit_char};

verus! {

/// The mathematical model of a body.
#[verifier::ext_equal]
pub ghost enum BodyData {
    Missing,
    Null,
    Present { content: Seq<u8>, content_type: Option<Seq<char>> },
}

/// A body: absent, explicitly null, or present with bytes and an optional
/// declared content type.
#[derive(Debug, PartialEq)]
pub enum Body {
    Missing,
    Null,
    Present { content: Vec<u8>, content_type: Option<String> },
}

impl View for Body {
    type V = BodyData;

    open spec fn view(&self) -> BodyData {
        match self {
            Body::Missing => BodyData::Missing,
            Body::Null => BodyData::Null,
            Body::Present { content, content_type } => BodyData::Present {
                content: content@,
                content_type: match content_type {
                    Some(ct) => Some(ct@),
                    None => None,
                },
            },
        }
    }
}

impl Body {
    /// A copy whose model is the same.
    pub fn dup(&self) -> (r: Body)
        ensures
            r@ == self@,
    {
        match self {
            Body::Missing => Body::Missing,
            Body::Null => Body::Null,
            Body::Present { content, content_type } => Body::Present {
                content: content.clone(),
                content_type: match content_type {
                    Some(ct) => Some(ct.clone()),
                    None => None,
                },
            },
        }
    }

    /// The declared content type, when the body carries one.
    pub fn content_type(&self) -> (r: Option<&String>)
        ensures
            match r {
                Some(ct) => self@ is Present && self@->Present_content_type == Some(ct@),
                None => !(self@ is Present) || self@->Present_content_type is None,
            },
    {
        match self {
            Body::Present { content_type: Some(ct), .. } => Some(ct),
            _ => None,
        }
    }
}

/// Whether every byte is printable ASCII, so the envelope can hold the bytes
/// as plain text.
pub open spec fn spec_all_printable(s: Seq<u8>) -> bool {
    forall|i: int| 0 <= i < s.len() ==> 0x20 <= #[trigger] s[i] <= 0x7e
}

fn all_printable(s: &Vec<u8>) -> (r: bool)
    ensures
        r == spec_all_printable(s@),
{
    let mut i: usize = 0;
    while i < s.len()
        invariant
            i <= s@.len(),
            forall|j: int| 0 <= j < i ==> 0x20 <= #[trigger] s@[j] <= 0x7e,
        decreases s@.len() - i,
    {
        if s[i] < 0x20 || s[i] > 0x7e {
            return false;
        }
        i += 1;
    }
    true
}

/// The text form of printable bytes: each byte read as one character.
pub open spec fn spec_bytes_text(s: Seq<u8>) -> Seq<char> {
    Seq::new(s.len(), |i: int| s[i] as char)
}

fn bytes_text(s: &Vec<u8>) -> (r: String)
    requires
        spec_all_printable(s@),
    ensures
        r@ == spec_bytes_text(s@),
{
    let mut out = String::new();
    let mut i: usize = 0;
    while i < s.len()
        invariant
            i <= s@.len(),
            spec_all_printable(s@),
            out@.len() == i,
            forall|j: int| 0 <= j < i ==> out@[j] == s@[j] as char,
        decreases s@.len() - i,
    {
        push_char(&mut out, s[i] as char);
        i += 1;
    }
    proof {
        assert(out@ =~= spec_bytes_text(s@));
    }
    out
}

/// The bytes of a text form, when every character is printable ASCII.
pub open spec fn spec_text_bytes(s: Seq<char>) -> Option<Seq<u8>> {
    if forall|i: int| 0 <= i < s.len() ==> 0x20 <= (#[trigger] s[i]) as u32 <= 0x7e {
        Some(Seq::new(s.len(), |i: int| s[i] as u8))
    } else {
        None
    }
}

fn text_bytes(s: &str) -> (r: Option<Vec<u8>>)
    ensures
        match r {
            Some(b) => spec_text_bytes(s@) == Some(b@),
            None => spec_text_bytes(s@) is None,
        },
{
    let len = s.unicode_len();
    let mut out: Vec<u8> = Vec::new();
    let mut i: usize = 0;
    while i < len
        invariant
            i <= len,
            len == s@.len(),
            out@.len() == i,
            forall|j: int| 0 <= j < i ==> 0x20 <= (#[trigger] s@[j]) as u32 <= 0x7e,
            forall|j: int| 0 <= j < i ==> out@[j] == s@[j] as u8,
        decreases len - i,
    {
        let c = s.get_char(i);
        let code = c as u32;
        if code < 0x20 || code > 0x7e {
            return None;
        }
        out.push(c as u8);
        i += 1;
    }
    proof {
        assert(out@ =~= Seq::new(s@.len(), |i: int| s@[i] as u8));
    }
    Some(out)
}

/// The hexadecimal form of arbitrary bytes, two digits per byte.
pub open spec fn spec_bytes_hex(s: Seq<u8>, i: int) -> Seq<char>
    decreases s.len() - i,
{
    if i < 0 || i >= s.len() {
        Seq::empty()
    } else {
        seq![
            spec_digit_char((s[i] / 16) as nat),
            spec_digit_char((s[i] % 16) as nat),
        ] + spec_bytes_hex(s, i + 1)
    }
}

/// The value of one hexadecimal digit character.
pub open spec fn spec_hex_val(c: char) -> Option<u8> {
    if c == '0' { Some(0u8) }
    else if c == '1' { Some(1u8) }
    else if c == '2' { Some(2u8) }
    else if c == '3' { Some(3u8) }
    else if c == '4' { Some(4u8) }
    else if c == '5' { Some(5u8) }
    else if c == '6' { Some(6u8) }
    else if c == '7' { Some(7u8) }
    else if c == '8' { Some(8u8) }
    else if c == '9' { Some(9u8) }
    else if c == 'a' { Some(10u8) }
    else if c == 'b' { Some(11u8) }
    else if c == 'c' { Some(12u8) }
    else if c == 'd' { Some(13u8) }
    else if c == 'e' { Some(14u8) }
    else if c == 'f' { Some(15u8) }
    else { None }
}

/// The bytes encoded by a hexadecimal text, when it is well formed.
pub open spec fn spec_hex_bytes(s: Seq<char>) -> Option<Seq<u8>>
    decreases s.len(),
{
    if s.len() == 0 {
        Some(Seq::empty())
    } else if s.len() == 1 {
        None
    } else {
        match (spec_hex_val(s[0]), spec_hex_val(s[1])) {
            (Some(hi), Some(lo)) => match spec_hex_bytes(s.skip(2)) {
                Some(rest) => Some(seq![(hi * 16 + lo) as u8] + rest),
                None => None,
            },
            _ => None,
        }
    }
}

/// Each digit character reads back as its value.
pub proof fn lemma_hex_val_digit(d: nat)
    requires
        d < 16,
    ensures
        spec_hex_val(spec_digit_char(d)) == Some(d as u8),
{
}

fn hex_digit(d: u8) -> (c: char)
    requires
        d < 16,
    ensures
        c == spec_digit_char(d as nat),
{
    if d < 10 {
        (48 + d) as char
    } else {
        (87 + d) as char
    }
}

fn hex_val(c: char) -> (r: Option<u8>)
    ensures
        r == spec_hex_val(c),
{
    let code = c as u32;
    if 0x30 <= code && code <= 0x39 {
        Some((code - 0x30) as u8)
    } else if 0x61 <= code && code <= 0x66 {
        Some((code - 0x61 + 10) as u8)
    } else {
        None
    }
}

fn bytes_hex(s: &Vec<u8>) -> (r: String)
    ensures
        r@ == spec_bytes_hex(s@, 0),
{
    bytes_hex_from(s, 0)
}

fn bytes_hex_from(s: &Vec<u8>, i: usize) -> (r: String)
    requires
        i <= s@.len(),
    ensures
        r@ == spec_bytes_hex(s@, i as int),
    decreases s@.len() - i,
{
    let mut out = String::new();
    if i < s.len() {
        push_char(&mut out, hex_digit(s[i] / 16));
        push_char(&mut out, hex_digit(s[i] % 16));
        let rest = bytes_hex_from(s, i + 1);
        out.append(rest.as_str());
        assert(out@ =~= spec_bytes_hex(s@, i as int));
    } else {
        assert(out@ =~= spec_bytes_hex(s@, i as int));
    }
    out
}

fn hex_bytes_from(s: &str, i: usize) -> (r: Option<Vec<u8>>)
    requires
        i <= s@.len(),
    ensures
        match r {
            Some(b) => spec_hex_bytes(s@.skip(i as int)) == Some(b@),
            None => spec_hex_bytes(s@.skip(i as int)) is None,
        },
    decreases s@.len() - i,
{
    let ghost tail = s@.skip(i as int);
    let len = s.unicode_len();
    if i == len {
        let out: Vec<u8> = Vec::new();
        proof {
            assert(tail.len() == 0);
            assert(out@ =~= Seq::<u8>::empty());
        }
        Some(out)
    } else if i + 1 >= len {
        None
    } else {
        let hi = hex_val(s.get_char(i));
        let lo = hex_val(s.get_char(i + 1));
        proof {
            assert(tail[0] == s@[i as int]);
            assert(tail[1] == s@[i + 1]);
            assert(tail.skip(2) =~= s@.skip(i + 2));
        }
        match (hi, lo) {
            (Some(hi), Some(lo)) => {
                match hex_bytes_from(s, i + 2) {
                    Some(rest) => {
                        let mut out: Vec<u8> = Vec::new();
                        out.push(hi * 16 + lo);
                        let mut k: usize = 0;
                        while k < rest.len()
                            invariant
                                k <= rest@.len(),
                                out@.len() == k + 1,
                                out@[0] == (hi * 16 + lo) as u8,
                                hi < 16,
                                lo < 16,
                                forall|j: int| 0 <= j < k ==> out@[j + 1] == rest@[j],
                            decreases rest@.len() - k,
                        {
                            out.push(rest[k]);
                            k += 1;
                        }
                        proof {
                            assert(out@ =~= seq![(hi * 16 + lo) as u8] + rest@);
                        }
                        Some(out)
                    },
                    None => None,
                }
            },
            _ => None,
        }
    }
}

fn hex_bytes(s: &str) -> (r: Option<Vec<u8>>)
    ensures
        match r {
            Some(b) => spec_hex_bytes(s@) == Some(b@),
            None => spec_hex_bytes(s@) is None,
        },
{
    proof {
        assert(s@.skip(0) =~= s@);
    }
    hex_bytes_from(s, 0)
}

/// Hexadecimal encoding reads back as the bytes it was made from.
pub proof fn lemma_hex_round_trip(s: Seq<u8>, i: int)
    requires
        0 <= i <= s.len(),
    ensures
        spec_hex_bytes(spec_bytes_hex(s, i)) == Some(s.skip(i)),
    decreases s.len() - i,
{
    if i == s.len() {
        assert(spec_bytes_hex(s, i).len() == 0);
        assert(s.skip(i) =~= Seq::<u8>::empty());
    } else {
        let hi = (s[i] / 16) as nat;
        let lo = (s[i] % 16) as nat;
        lemma_hex_val_digit(hi);
        lemma_hex_val_digit(lo);
        lemma_hex_round_trip(s, i + 1);
        let h = spec_bytes_hex(s, i);
        assert(h[0] == spec_digit_char(hi));
        assert(h[1] == spec_digit_char(lo));
        assert(h.skip(2) =~= spec_bytes_hex(s, i + 1));
        assert((hi * 16 + lo) as u8 == s[i]);
        assert(seq![s[i]] + s.skip(i + 1) =~= s.skip(i));
    }
}

/// The JSON envelope of a body. A missing body has no envelope at all.
pub open spec fn spec_body_to_json(b: BodyData) -> Option<JsonData> {
    match b {
        BodyData::Missing => None,
        BodyData::Null => Some(JsonData::Obj(seq![("content"@, JsonData::Null)])),
        BodyData::Present { content, content_type } => {
            let payload = if spec_all_printable(content) {
                seq![
                    ("content"@, JsonData::Str(spec_bytes_text(content))),
                    ("encoding"@, JsonData::Str("text"@)),
                ]
            } else {
                seq![
                    ("content"@, JsonData::Str(spec_bytes_hex(content, 0))),
                    ("encoding"@, JsonData::Str("hex"@)),
                ]
            };
            match content_type {
                Some(ct) => Some(JsonData::Obj(payload.push(("contentType"@, JsonData::Str(ct))))),
                None => Some(JsonData::Obj(payload)),
            }
        },
    }
}

/// The body read from a JSON envelope. Absent or malformed envelopes read as a
/// missing body; nothing panics and nothing fails.
pub open spec fn spec_body_from_json(v: Option<JsonData>) -> BodyData {
    match v {
        None => BodyData::Missing,
        Some(d) => if !(d is Obj) {
            BodyData::Missing
        } else {
            let entries = d->Obj_0;
            let ct = match spec_lookup(entries, "contentType"@) {
                Some(JsonData::Str(c)) => Some(c),
                _ => None,
            };
            match spec_lookup(entries, "content"@) {
                Some(JsonData::Null) => BodyData::Null,
                Some(JsonData::Str(s)) => {
                    if spec_lookup(entries, "encoding"@) == Some(JsonData::Str("hex"@)) {
                        match spec_hex_bytes(s) {
                            Some(b) => BodyData::Present { content: b, content_type: ct },
                            None => BodyData::Missing,
                        }
                    } else {
                        match spec_text_bytes(s) {
                            Some(b) => BodyData::Present { content: b, content_type: ct },
                            None => BodyData::Missing,
                        }
                    }
                },
                _ => BodyData::Missing,
            }
        },
    }
}

/// Encodes a body as its JSON envelope.
pub fn body_to_json(b: &Body) -> (r: Option<JsonValue>)
    ensures
        match r {
            Some(v) => spec_body_to_json(b@) == Some(v@),
            None => spec_body_to_json(b@) is None,
        },
{
    match b {
        Body::Missing => None,
        Body::Null => {
            let mut entries: Vec<(String, JsonValue)> = Vec::new();
            entries.push((String::from_str("content"), JsonValue::Null));
            proof {
                assert(spec_entries(entries@) =~= seq![("content"@, JsonData::Null)]);
            }
            Some(JsonValue::Obj(entries))
        },
        Body::Present { content, content_type } => {
            let mut entries: Vec<(String, JsonValue)> = Vec::new();
            if all_printable(content) {
                entries.push((String::from_str("content"), JsonValue::Str(bytes_text(content))));
                entries.push((String::from_str("encoding"), JsonValue::Str(String::from_str("text"))));
            } else {
                entries.push((String::from_str("content"), JsonValue::Str(bytes_hex(content))));
                entries.push((String::from_str("encoding"), JsonValue::Str(String::from_str("hex"))));
            }
            match content_type {
                Some(ct) => {
                    entries.push((String::from_str("contentType"), JsonValue::Str(ct.clone())));
                },
                None => {},
            }
            proof {
                let m = spec_body_to_json(b@);
                assert(m matches Some(d) && d is Obj && spec_entries(entries@) =~= d->Obj_0);
            }
            Some(JsonValue::Obj(entries))
        },
    }
}

/// Decodes a body from its JSON envelope.
pub fn body_from_json(v: Option<&JsonValue>) -> (r: Body)
    ensures
        r@ == spec_body_from_json(
            match v {
                Some(x) => Some(x@),
                None => None,
            },
        ),
{
    let x = match v {
        Some(x) => x,
        None => {
            return Body::Missing;
        },
    };
    match x {
        JsonValue::Obj(_) => {},
        _ => {
            return Body::Missing;
        },
    }
    let ct: Option<String> = match x.get("contentType") {
        Some(JsonValue::Str(c)) => Some(c.clone()),
        _ => None,
    };
    match x.get("content") {
        Some(JsonValue::Null) => Body::Null,
        Some(JsonValue::Str(s)) => {
            let is_hex = match x.get("encoding") {
                Some(JsonValue::Str(e)) => str_eq(e.as_str(), "hex"),
                _ => false,
            };
            if is_hex {
                match hex_bytes(s.as_str()) {
                    Some(b) => Body::Present { content: b, content_type: ct },
                    None => Body::Missing,
                }
            } else {
                match text_bytes(s.as_str()) {
                    Some(b) => Body::Present { content: b, content_type: ct },
                    None => Body::Missing,
                }
            }
        },
        _ => Body::Missing,
    }
}

/// Printable bytes read back from their text form unchanged.
pub proof fn lemma_text_round_trip(b: Seq<u8>)
    requires
        spec_all_printable(b),
    ensures
        spec_text_bytes(spec_bytes_text(b)) == Some(b),
{
    let s = spec_bytes_text(b);
    assert forall|i: int| 0 <= i < s.len() implies 0x20 <= (#[trigger] s[i]) as u32 <= 0x7e by {
        assert(b[i] <= 0x7e);
    }
    match spec_text_bytes(s) {
        Some(bb) => {
            assert(bb =~= b);
        },
        None => {},
    }
}

/// A body reads back from its envelope unchanged: the codec loses nothing.
pub proof fn lemma_body_round_trip(b: BodyData)
    ensures
        spec_body_from_json(spec_body_to_json(b)) == b,
{
    reveal_strlit("content");
    reveal_strlit("contentType");
    reveal_strlit("encoding");
    reveal_strlit("text");
    reveal_strlit("hex");
    match b {
        BodyData::Missing => {},
        BodyData::Null => {
            let entries = seq![("content"@, JsonData::Null)];
            assert("content"@.len() == 7);
            assert("contentType"@.len() == 11);
            assert("content"@ != "contentType"@);
            assert(spec_lookup(entries, "contentType"@) == spec_lookup_from(entries, "contentType"@, 1));
            assert(spec_lookup(entries, "content"@) == Some(JsonData::Null));
        },
        BodyData::Present { content, content_type } => {
            let payload = if spec_all_printable(content) {
                seq![
                    ("content"@, JsonData::Str(spec_bytes_text(content))),
                    ("encoding"@, JsonData::Str("text"@)),
                ]
            } else {
                seq![
                    ("content"@, JsonData::Str(spec_bytes_hex(content, 0))),
                    ("encoding"@, JsonData::Str("hex"@)),
                ]
            };
            let entries = match content_type {
                Some(ct) => payload.push(("contentType"@, JsonData::Str(ct))),
                None => payload,
            };
            assert("content"@.len() == 7);
            assert("contentType"@.len() == 11);
            assert("encoding"@.len() == 8);
            assert("text"@.len() == 4);
            assert("hex"@.len() == 3);
            assert(entries[0].0 == "content"@);
            assert(entries[1].0 == "encoding"@);
            assert(spec_lookup(entries, "content"@) == Some(entries[0].1));
            assert(spec_lookup_from(entries, "encoding"@, 1) == Some(entries[1].1));
            assert(spec_lookup(entries, "encoding"@) == Some(entries[1].1));
            match content_type {
                Some(ct) => {
                    assert(entries.len() == 3 && entries[2].0 == "contentType"@);
                    assert(spec_lookup_from(entries, "contentType"@, 2) == Some(JsonData::Str(ct)));
                    assert(spec_lookup_from(entries, "contentType"@, 1) == Some(JsonData::Str(ct)));
                    assert(spec_lookup(entries, "contentType"@) == Some(JsonData::Str(ct)));
                },
                None => {
                    assert(entries.len() == 2);
                    assert(spec_lookup_from(entries, "contentType"@, 2) is None);
                    assert(spec_lookup_from(entries, "contentType"@, 1) is None);
                    assert(spec_lookup(entries, "contentType"@) is None);
                },
            }
            assert("text"@ != "hex"@);
            if spec_all_printable(content) {
                lemma_text_round_trip(content);
            } else {
                lemma_hex_round_trip(content, 0);
                assert(content.skip(0) =~= content);
            }
        },
    }
}

/// One lower-case ASCII character.
pub open spec fn spec_lower_char(c: char) -> char {
    if 'A' <= c <= 'Z' {
        ((c as u8) + 32) as char
    } else {
        c
    }
}

/// The lower-case ASCII form of a string.
pub open spec fn spec_lower(s: Seq<char>) -> Seq<char> {
    Seq::new(s.len(), |i: int| spec_lower_char(s[i]))
}

fn lower(s: &str) -> (r: String)
    ensures
        r@ == spec_lower(s@),
{
    let len = s.unicode_len();
    let mut out = String::new();
    let mut i: usize = 0;
    while i < len
        invariant
            i <= len,
            len == s@.len(),
            out@.len() == i,
            forall|j: int| 0 <= j < i ==> out@[j] == spec_lower_char(s@[j]),
        decreases len - i,
    {
        let c = s.get_char(i);
        if 'A' <= c && c <= 'Z' {
            push_char(&mut out, ((c as u8) + 32) as char);
        } else {
            push_char(&mut out, c);
        }
        i += 1;
    }
    proof {
        assert(out@ =~= spec_lower(s@));
    }
    out
}

/// Whether a metadata key names the content type, whatever its case.
pub open spec fn spec_is_ct_key(k: Seq<char>) -> bool {
    spec_lower(k) == "content-type"@ || spec_lower(k) == "contenttype"@
}

/// Whether a metadata value is scalar and so projects onto the header view.
pub open spec fn spec_is_scalar(d: JsonData) -> bool {
    !(d is Arr) && !(d is Obj)
}

/// The content type stored in a metadata map: the first entry under a
/// `content-type`-like key, read case-insensitively, whose value is scalar;
/// the scalar projects onto its plain-string reading.
pub open spec fn spec_meta_content_type(
    entries: Seq<(Seq<char>, JsonData)>,
    i: int,
) -> Option<Seq<char>>
    decreases entries.len() - i,
{
    if i < 0 || i >= entries.len() {
        None
    } else if spec_is_ct_key(entries[i].0) && spec_is_scalar(entries[i].1) {
        Some(crate::json::spec_json_to_string(entries[i].1))
    } else {
        spec_meta_content_type(entries, i + 1)
    }
}

fn meta_content_type_from(entries: &Vec<(String, JsonValue)>, i: usize) -> (r: Option<String>)
    ensures
        match r {
            Some(ct) => spec_meta_content_type(spec_entries(entries@), i as int) == Some(ct@),
            None => spec_meta_content_type(spec_entries(entries@), i as int) is None,
        },
    decreases entries@.len() - i,
{
    if i >= entries.len() {
        None
    } else {
        let low = lower(entries[i].0.as_str());
        let is_ct = str_eq(low.as_str(), "content-type") || str_eq(low.as_str(), "contenttype");
        if is_ct {
            match &entries[i].1 {
                JsonValue::Arr(_) => {},
                JsonValue::Obj(_) => {},
                other => {
                    return Some(crate::json::json_to_string(other));
                },
            }
        }
        meta_content_type_from(entries, i + 1)
    }
}

/// The content type stored in a metadata map, if any.
pub fn meta_content_type(entries: &Vec<(String, JsonValue)>) -> (r: Option<String>)
    ensures
        match r {
            Some(ct) => spec_meta_content_type(spec_entries(entries@), 0) == Some(ct@),
            None => spec_meta_content_type(spec_entries(entries@), 0) is None,
        },
{
    meta_content_type_from(entries, 0)
}

/// The class a byte prefix sniffs as: a JSON open character gives
/// `application/json`, an angle bracket gives `application/xml`, a UTF-8 byte
/// order mark is skipped first. Anything else is unresolved.
pub open spec fn spec_sniff(content: Seq<u8>) -> Option<Seq<char>> {
    let body = if content.len() >= 3 && content[0] == 0xef && content[1] == 0xbb && content[2]
        == 0xbf {
        content.skip(3)
    } else {
        content
    };
    if body.len() == 0 {
        None
    } else if body[0] == 0x7b || body[0] == 0x5b {
        Some("application/json"@)
    } else if body[0] == 0x3c {
        Some("application/xml"@)
    } else {
        None
    }
}

fn sniff(content: &Vec<u8>) -> (r: Option<String>)
    ensures
        match r {
            Some(ct) => spec_sniff(content@) == Some(ct@),
            None => spec_sniff(content@) is None,
        },
{
    let start: usize = if content.len() >= 3 && content[0] == 0xef && content[1] == 0xbb
        && content[2] == 0xbf {
        3
    } else {
        0
    };
    proof {
        if start == 3 {
            assert(content@.skip(3).len() == content@.len() - 3);
            if content@.len() > 3 {
                assert(content@.skip(3)[0] == content@[3]);
            }
        }
    }
    if start >= content.len() {
        None
    } else if content[start] == 0x7b || content[start] == 0x5b {
        Some(String::from_str("application/json"))
    } else if content[start] == 0x3c {
        Some(String::from_str("application/xml"))
    } else {
        None
    }
}

/// The effective content type of a body beside a metadata map, in the fixed
/// precedence order: the type declared on the body itself, then a
/// `content-type`-like metadata entry, then sniffing the body's bytes.
pub open spec fn spec_resolve_content_type(
    b: BodyData,
    metadata: Seq<(Seq<char>, JsonData)>,
) -> Option<Seq<char>> {
    if b is Present && b->Present_content_type is Some {
        b->Present_content_type
    } else if spec_meta_content_type(metadata, 0) is Some {
        spec_meta_content_type(metadata, 0)
    } else if b is Present {
        spec_sniff(b->Present_content)
    } else {
        None
    }
}

/// Resolves the effective content type of a body beside a metadata map.
pub fn resolve_content_type(b: &Body, metadata: &Vec<(String, JsonValue)>) -> (r: Option<String>)
    ensures
        match r {
            Some(ct) => spec_resolve_content_type(b@, spec_entries(metadata@)) == Some(ct@),
            None => spec_resolve_content_type(b@, spec_entries(metadata@)) is None,
        },
{
    match b {
        Body::Present { content_type: Some(ct), .. } => Some(ct.clone()),
        Body::Present { content, content_type: None } => {
            match meta_content_type(metadata) {
                Some(ct) => Some(ct),
                None => sniff(content),
            }
        },
        _ => meta_content_type(metadata),
    }
}

/// A content type declared on the body itself wins over any metadata entry.
pub proof fn lemma_explicit_content_type_wins(
    b: BodyData,
    metadata: Seq<(Seq<char>, JsonData)>,
)
    requires
        b is Present,
        b->Present_content_type is Some,
    ensures
        spec_resolve_content_type(b, metadata) == b->Present_content_type,
{
}

fn bytes_eq(a: &Vec<u8>, b: &Vec<u8>) -> (r: bool)
    ensures
        r == (a@ == b@),
{
    if a.len() != b.len() {
        assert(a@.len() != b@.len());
        return false;
    }
    let mut i: usize = 0;
    while i < a.len()
        invariant
            i <= a@.len(),
            a@.len() == b@.len(),
            forall|j: int| 0 <= j < i ==> a@[j] == b@[j],
        decreases a@.len() - i,
    {
        if a[i] != b[i] {
            return false;
        }
        i += 1;
    }
    proof {
        assert(a@ =~= b@);
    }
    true
}

/// Structural equality of two bodies, decided on their models.
pub fn body_eq(a: &Body, b: &Body) -> (r: bool)
    ensures
        r == (a@ == b@),
{
    match (a, b) {
        (Body::Missing, Body::Missing) => true,
        (Body::Null, Body::Null) => true,
        (
            Body::Present { content: ca, content_type: ta },
            Body::Present { content: cb, content_type: tb },
        ) => {
            let ct_same = match (ta, tb) {
                (Some(x), Some(y)) => str_eq(x.as_str(), y.as_str()),
                (None, None) => true,
                _ => false,
            };
            ct_same && bytes_eq(ca, cb)
        },
        _ => {
            assert(a@ != b@);
            false
        },
    }
}

} // verus!
