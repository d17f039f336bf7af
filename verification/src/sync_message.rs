//! Synchronous message interactions: one request message answered by an
//! ordered sequence of response messages, with the JSON codec, the stable
//! identity key, and the accessors the verifier and mock server consume.

use vstd::prelude::*;
use crate::json::{
    JsonValue, JsonData, spec_lookup, spec_lookup_from, spec_entries, entries_find,
    lemma_lookup_concat, spec_json_text, spec_json_to_string, json_text, json_to_string,
    spec_canonical, canonical_json,
};
use crate::strutil::{
    push_char, append_dec, append_hex, spec_dec_digits, spec_hex_digits,
};
use crate::message::{
    MessageContents, MessageContentsData, spec_mc_to_json, spec_mc_from_json, spec_mc_wf,
    spec_mc_counts_fit, lemma_mc_round_trip,
};
use crate::provider_states::{
    ProviderState, ProviderStateData, spec_ps_to_json, spec_ps_from_json,
    spec_ps_list_from_json, lemma_ps_round_trip,
};
use crate::bodies::{Body, BodyData, spec_resolve_content_type};
use crate::errors::{DecodeError, DecodeErrorData, spec_error_message};

verus! {

/// The mathematical model of a synchronous message interaction.
#[verifier::ext_equal]
pub ghost struct SyncData {
    pub id: Option<Seq<char>>,
    pub key: Option<Seq<char>>,
    pub description: Seq<char>,
    pub provider_states: Seq<ProviderStateData>,
    pub comments: Seq<(Seq<char>, JsonData)>,
    pub request: MessageContentsData,
    pub response: Seq<MessageContentsData>,
    pub pending: bool,
}

/// A synchronous message interaction: one request message and the ordered
/// responses recorded for it, with its identity and annotations.
#[derive(Debug, PartialEq)]
pub struct SynchronousMessages {
    /// Set only when the contract was fetched from a broker.
    pub id: Option<String>,
    /// The stable identity key of the interaction inside its contract file.
    pub key: Option<String>,
    /// A description, unique within the contract file.
    pub description: String,
    /// The provider states the interaction assumes.
    pub provider_states: Vec<ProviderState>,
    /// Annotations; never part of the identity key.
    pub comments: Vec<(String, JsonValue)>,
    /// The request message.
    pub request: MessageContents,
    /// The response messages, in order.
    pub response: Vec<MessageContents>,
    /// A pending interaction never fails the build.
    pub pending: bool,
}

/// The model of a list of provider states.
pub open spec fn spec_ps_vec_view(s: Seq<ProviderState>) -> Seq<ProviderStateData> {
    Seq::new(
        s.len(),
        |i: int|
            if 0 <= i < s.len() {
                s[i]@
            } else {
                ProviderStateData { name: Seq::empty(), params: Seq::empty() }
            },
    )
}

/// The model of a list of message contents.
pub open spec fn spec_mc_vec_view(s: Seq<MessageContents>) -> Seq<MessageContentsData> {
    Seq::new(
        s.len(),
        |i: int|
            if 0 <= i < s.len() {
                s[i]@
            } else {
                MessageContentsData {
                    contents: BodyData::Missing,
                    metadata: Seq::empty(),
                    matching_rules: Seq::empty(),
                    generators: Seq::empty(),
                }
            },
    )
}

impl View for SynchronousMessages {
    type V = SyncData;

    open spec fn view(&self) -> SyncData {
        SyncData {
            id: match &self.id {
                Some(s) => Some(s@),
                None => None,
            },
            key: match &self.key {
                Some(s) => Some(s@),
                None => None,
            },
            description: self.description@,
            provider_states: spec_ps_vec_view(self.provider_states@),
            comments: spec_entries(self.comments@),
            request: self.request@,
            response: spec_mc_vec_view(self.response@),
            pending: self.pending,
        }
    }
}

/// Well-formedness: the request's and every response's tables are well formed.
pub open spec fn spec_sm_wf(s: SyncData) -> bool {
    spec_mc_wf(s.request) && (forall|i: int|
        0 <= i < s.response.len() ==> spec_mc_wf(#[trigger] s.response[i]))
}

/// All counts fit the codec's integers.
pub open spec fn spec_sm_counts_fit(s: SyncData) -> bool {
    spec_mc_counts_fit(s.request) && (forall|i: int|
        0 <= i < s.response.len() ==> spec_mc_counts_fit(#[trigger] s.response[i]))
}

/// The JSON forms of a list of message contents.
pub open spec fn spec_mc_list_to_json(s: Seq<MessageContentsData>) -> Seq<JsonData> {
    Seq::new(
        s.len(),
        |i: int|
            if 0 <= i < s.len() {
                spec_mc_to_json(s[i])
            } else {
                JsonData::Null
            },
    )
}

/// The JSON forms of a list of provider states.
pub open spec fn spec_ps_list_to_json(s: Seq<ProviderStateData>) -> Seq<JsonData> {
    Seq::new(
        s.len(),
        |i: int|
            if 0 <= i < s.len() {
                spec_ps_to_json(s[i])
            } else {
                JsonData::Null
            },
    )
}

/// The semantically meaningful fields of an interaction, as one JSON value:
/// description, provider states, request, responses and the pending flag.
/// The id, the key and the comments are annotations and stay out.
pub open spec fn spec_sm_projection(s: SyncData) -> JsonData {
    JsonData::Obj(
        seq![
            ("description"@, JsonData::Str(s.description)),
            ("pending"@, JsonData::Bool(s.pending)),
            ("providerStates"@, JsonData::Arr(spec_ps_list_to_json(s.provider_states))),
            ("request"@, spec_mc_to_json(s.request)),
            ("response"@, JsonData::Arr(spec_mc_list_to_json(s.response))),
        ],
    )
}

/// One mixing step of the content hash.
pub open spec fn spec_hash_step(h: u64, c: char) -> u64 {
    (((h ^ (c as u64)) * 0x100000001b3) % 0x10000000000000000) as u64
}

/// The content hash of a text, folded left to right from the fixed offset.
pub open spec fn spec_hash_text(s: Seq<char>, i: int, h: u64) -> u64
    decreases s.len() - i,
{
    if i < 0 || i >= s.len() {
        h
    } else {
        spec_hash_text(s, i + 1, spec_hash_step(h, s[i]))
    }
}

/// The derived identity key: the hexadecimal content hash of the canonical
/// text of the semantic projection. Every mapping inside is first reordered
/// by key, so the key is independent of insertion order.
pub open spec fn spec_calc_key(s: SyncData) -> Seq<char> {
    spec_hex_digits(
        spec_hash_text(
            spec_json_text(spec_canonical(spec_sm_projection(s))),
            0,
            0xcbf29ce484222325u64,
        ) as nat,
    )
}

/// The value after deriving a key: an interaction that already carries one is
/// left as it is; only one without a key gets the derived key.
pub open spec fn spec_with_key(s: SyncData) -> SyncData {
    if s.key is Some {
        s
    } else {
        SyncData { key: Some(spec_calc_key(s)), ..s }
    }
}

fn hash_step(h: u64, c: char) -> (r: u64)
    ensures
        r == spec_hash_step(h, c),
{
    let y: u64 = h ^ (c as u64);
    proof {
        assert((y as u128) * 0x100000001b3u128 <= 0xffffffffffffffffu128 * 0x100000001b3u128)
            by (nonlinear_arith)
            requires
                y <= 0xffffffffffffffffu64,
        ;
    }
    let prod: u128 = (y as u128) * 0x100000001b3u128;
    (prod % 0x10000000000000000u128) as u64
}

fn hash_text(s: &str, h0: u64) -> (r: u64)
    ensures
        r == spec_hash_text(s@, 0, h0),
{
    let len = s.unicode_len();
    let mut h = h0;
    let mut i: usize = 0;
    while i < len
        invariant
            i <= len,
            len == s@.len(),
            spec_hash_text(s@, 0, h0) == spec_hash_text(s@, i as int, h),
        decreases len - i,
    {
        let c = s.get_char(i);
        h = hash_step(h, c);
        i += 1;
    }
    h
}

/// The identity key depends on nothing but the semantic fields: two
/// interactions that agree on description, provider states, request,
/// responses and the pending flag derive the same key, whatever their ids,
/// keys or comments.
pub proof fn lemma_key_reads_semantic_fields_only(a: SyncData, b: SyncData)
    requires
        a.description == b.description,
        a.provider_states == b.provider_states,
        a.request == b.request,
        a.response == b.response,
        a.pending == b.pending,
    ensures
        spec_calc_key(a) == spec_calc_key(b),
{
    assert(spec_sm_projection(a) == spec_sm_projection(b));
}

/// Deriving a key is idempotent: a second derivation keeps the key of the
/// first, and never disturbs an existing key.
pub proof fn lemma_with_key_stable(s: SyncData)
    ensures
        spec_with_key(spec_with_key(s)).key == spec_with_key(s).key,
{
}


proof fn lemma_one_entry_lookup(seg: Seq<(Seq<char>, JsonData)>, key0: Seq<char>, k: Seq<char>)
    requires
        seg.len() == 0 || (seg.len() == 1 && seg[0].0 == key0),
        k != key0,
    ensures
        spec_lookup(seg, k) is None,
{
    if seg.len() == 1 {
        assert(spec_lookup_from(seg, k, 1) is None);
    }
}

/// Whether every element of a response array decodes.
pub open spec fn spec_mc_list_ok(items: Seq<JsonData>) -> bool {
    forall|i: int| 0 <= i < items.len() ==> spec_mc_from_json(#[trigger] items[i]) is Some
}

/// The decoded response messages, position by position.
pub open spec fn spec_mc_list_from_json(items: Seq<JsonData>) -> Seq<MessageContentsData> {
    Seq::new(
        items.len(),
        |i: int|
            if 0 <= i < items.len() && spec_mc_from_json(items[i]) is Some {
                spec_mc_from_json(items[i])->Some_0
            } else {
                MessageContentsData {
                    contents: BodyData::Missing,
                    metadata: Seq::empty(),
                    matching_rules: Seq::empty(),
                    generators: Seq::empty(),
                }
            },
    )
}

/// The messages of the elements that do not decode, in order, none dropped.
pub open spec fn spec_fail_msgs(items: Seq<JsonData>, i: int) -> Seq<Seq<char>>
    decreases items.len() - i,
{
    if i < 0 || i >= items.len() {
        Seq::empty()
    } else if spec_mc_from_json(items[i]) is None {
        seq![
            spec_error_message(DecodeErrorData::NotAnObject(spec_json_text(items[i]))),
        ] + spec_fail_msgs(items, i + 1)
    } else {
        spec_fail_msgs(items, i + 1)
    }
}

/// The JSON form of an interaction. The key entry always holds a key: the one
/// carried, or the derived one. The id is never emitted; empty provider
/// states and comments are omitted whole.
pub open spec fn spec_sm_to_json(s: SyncData) -> JsonData {
    let a1 = seq![("type"@, JsonData::Str("Synchronous/Messages"@))];
    let a2 = seq![
        (
            "key"@,
            JsonData::Str(
                match s.key {
                    Some(k) => k,
                    None => spec_calc_key(s),
                },
            ),
        ),
    ];
    let a3 = seq![("description"@, JsonData::Str(s.description))];
    let a4 = seq![("pending"@, JsonData::Bool(s.pending))];
    let a5 = seq![("request"@, spec_mc_to_json(s.request))];
    let a6 = seq![("response"@, JsonData::Arr(spec_mc_list_to_json(s.response)))];
    let a7 = if s.provider_states.len() == 0 {
        Seq::<(Seq<char>, JsonData)>::empty()
    } else {
        seq![("providerStates"@, JsonData::Arr(spec_ps_list_to_json(s.provider_states)))]
    };
    let a8 = if s.comments.len() == 0 {
        Seq::<(Seq<char>, JsonData)>::empty()
    } else {
        seq![("comments"@, JsonData::Obj(s.comments))]
    };
    JsonData::Obj(a1 + (a2 + (a3 + (a4 + (a5 + (a6 + (a7 + a8)))))))
}


/// The model of a list of messages.
pub open spec fn spec_msgs_view(s: Seq<String>) -> Seq<Seq<char>> {
    Seq::new(
        s.len(),
        |i: int|
            if 0 <= i < s.len() {
                s[i]@
            } else {
                Seq::<char>::empty()
            },
    )
}

/// One warning for each provider-state element that does not decode, in order.
pub open spec fn spec_ps_skip_warnings(items: Seq<JsonData>, i: int) -> Seq<Seq<char>>
    decreases items.len() - i,
{
    if i < 0 || i >= items.len() {
        Seq::empty()
    } else if spec_ps_from_json(items[i]) is None {
        seq![
            "provider state element skipped: not an object with a string name"@,
        ] + spec_ps_skip_warnings(items, i + 1)
    } else {
        spec_ps_skip_warnings(items, i + 1)
    }
}

/// The diagnostics of a successful decode: one warning per skipped
/// provider-state element, then one where a comments entry is present but not
/// an object. Nothing is ever dropped without at least one of these.
pub open spec fn spec_sm_warnings(d: JsonData) -> Seq<Seq<char>> {
    if !(d is Obj) {
        Seq::empty()
    } else {
        let e = d->Obj_0;
        let ps_w = match spec_lookup(e, "providerStates"@) {
            Some(JsonData::Arr(ps)) => spec_ps_skip_warnings(ps, 0),
            _ => match spec_lookup(e, "provider_states"@) {
                Some(JsonData::Arr(ps)) => spec_ps_skip_warnings(ps, 0),
                _ => Seq::<Seq<char>>::empty(),
            },
        };
        let c_w = match spec_lookup(e, "comments"@) {
            Some(JsonData::Obj(_)) => Seq::<Seq<char>>::empty(),
            Some(_) => seq!["interaction comments must be a JSON object; ignored"@],
            None => Seq::<Seq<char>>::empty(),
        };
        ps_w + c_w
    }
}
/// The interaction read from JSON. A value that is not an object, a missing
/// request, a missing or non-array response all fail; elements of the
/// response array that fail to decode are aggregated into one error that
/// carries every child message.
pub open spec fn spec_sm_from_json(d: JsonData, index: nat) -> Result<SyncData, DecodeErrorData> {
    if !(d is Obj) {
        Err(DecodeErrorData::NotAnObject(spec_json_text(d)))
    } else {
        let e = d->Obj_0;
        match spec_lookup(e, "request"@) {
            None => Err(DecodeErrorData::MissingRequest),
            Some(reqv) => match spec_lookup(e, "response"@) {
                Some(JsonData::Arr(items)) => if !spec_mc_list_ok(items) {
                    Err(DecodeErrorData::Aggregate(spec_fail_msgs(items, 0)))
                } else {
                    match spec_mc_from_json(reqv) {
                        None => Err(DecodeErrorData::NotAnObject(spec_json_text(reqv))),
                        Some(req) => Ok(
                            SyncData {
                                id: match spec_lookup(e, "_id"@) {
                                    Some(x) => Some(spec_json_to_string(x)),
                                    None => None,
                                },
                                key: match spec_lookup(e, "key"@) {
                                    Some(x) => Some(spec_json_to_string(x)),
                                    None => None,
                                },
                                description: match spec_lookup(e, "description"@) {
                                    Some(JsonData::Str(sd)) => sd,
                                    Some(x) => spec_json_text(x),
                                    None => "Interaction "@ + spec_dec_digits(index),
                                },
                                provider_states: match spec_lookup(e, "providerStates"@) {
                                    Some(JsonData::Arr(ps)) => spec_ps_list_from_json(ps, 0),
                                    _ => match spec_lookup(e, "provider_states"@) {
                                        Some(JsonData::Arr(ps)) => spec_ps_list_from_json(ps, 0),
                                        _ => Seq::empty(),
                                    },
                                },
                                comments: match spec_lookup(e, "comments"@) {
                                    Some(JsonData::Obj(ce)) => ce,
                                    _ => Seq::empty(),
                                },
                                request: req,
                                response: spec_mc_list_from_json(items),
                                pending: spec_lookup(e, "pending"@) == Some(JsonData::Bool(true)),
                            },
                        ),
                    }
                },
                _ => Err(DecodeErrorData::MissingResponse),
            },
        }
    }
}

/// An interaction that carries a key and no broker id reads back from its JSON
/// form unchanged; empty provider states and comments read back as their
/// empty defaults.
pub proof fn lemma_sm_round_trip(s: SyncData, index: nat)
    requires
        spec_sm_wf(s),
        s.key is Some,
        s.id is None,
    ensures
        spec_sm_from_json(spec_sm_to_json(s), index) == Ok::<SyncData, DecodeErrorData>(s),
{
    reveal_strlit("type");
    reveal_strlit("key");
    reveal_strlit("description");
    reveal_strlit("pending");
    reveal_strlit("request");
    reveal_strlit("response");
    reveal_strlit("providerStates");
    reveal_strlit("comments");
    reveal_strlit("_id");
    reveal_strlit("provider_states");
    assert("type"@.len() == 4);
    assert("key"@.len() == 3);
    assert("description"@.len() == 11);
    assert("pending"@.len() == 7);
    assert("request"@.len() == 7);
    assert("response"@.len() == 8);
    assert("providerStates"@.len() == 14);
    assert("comments"@.len() == 8);
    assert("_id"@.len() == 3);
    assert("provider_states"@.len() == 15);
    assert("pending"@[0] == 'p' && "request"@[0] == 'r');
    assert("pending"@ != "request"@);
    assert("response"@[0] == 'r' && "comments"@[0] == 'c');
    assert("response"@ != "comments"@);
    assert("key"@[0] == 'k' && "_id"@[0] == '_');
    assert("key"@ != "_id"@);
    let a1 = seq![("type"@, JsonData::Str("Synchronous/Messages"@))];
    let a2 = seq![
        (
            "key"@,
            JsonData::Str(
                match s.key {
                    Some(k) => k,
                    None => spec_calc_key(s),
                },
            ),
        ),
    ];
    let a3 = seq![("description"@, JsonData::Str(s.description))];
    let a4 = seq![("pending"@, JsonData::Bool(s.pending))];
    let a5 = seq![("request"@, spec_mc_to_json(s.request))];
    let a6 = seq![("response"@, JsonData::Arr(spec_mc_list_to_json(s.response)))];
    let a7 = if s.provider_states.len() == 0 {
        Seq::<(Seq<char>, JsonData)>::empty()
    } else {
        seq![("providerStates"@, JsonData::Arr(spec_ps_list_to_json(s.provider_states)))]
    };
    let a8 = if s.comments.len() == 0 {
        Seq::<(Seq<char>, JsonData)>::empty()
    } else {
        seq![("comments"@, JsonData::Obj(s.comments))]
    };
    let r8 = a8;
    let r7 = a7 + r8;
    let r6 = a6 + r7;
    let r5 = a5 + r6;
    let r4 = a4 + r5;
    let r3 = a3 + r4;
    let r2 = a2 + r3;
    let e = a1 + r2;
    assert(spec_sm_to_json(s) == JsonData::Obj(e));
    lemma_lookup_concat(a1, r2, "type"@, 0);
    lemma_lookup_concat(a2, r3, "type"@, 0);
    lemma_lookup_concat(a3, r4, "type"@, 0);
    lemma_lookup_concat(a4, r5, "type"@, 0);
    lemma_lookup_concat(a5, r6, "type"@, 0);
    lemma_lookup_concat(a6, r7, "type"@, 0);
    lemma_lookup_concat(a7, r8, "type"@, 0);
    lemma_one_entry_lookup(a2, "key"@, "type"@);
    lemma_one_entry_lookup(a3, "description"@, "type"@);
    lemma_one_entry_lookup(a4, "pending"@, "type"@);
    lemma_one_entry_lookup(a5, "request"@, "type"@);
    lemma_one_entry_lookup(a6, "response"@, "type"@);
    lemma_one_entry_lookup(a7, "providerStates"@, "type"@);
    lemma_one_entry_lookup(a8, "comments"@, "type"@);
    lemma_lookup_concat(a1, r2, "key"@, 0);
    lemma_lookup_concat(a2, r3, "key"@, 0);
    lemma_lookup_concat(a3, r4, "key"@, 0);
    lemma_lookup_concat(a4, r5, "key"@, 0);
    lemma_lookup_concat(a5, r6, "key"@, 0);
    lemma_lookup_concat(a6, r7, "key"@, 0);
    lemma_lookup_concat(a7, r8, "key"@, 0);
    lemma_one_entry_lookup(a1, "type"@, "key"@);
    lemma_one_entry_lookup(a3, "description"@, "key"@);
    lemma_one_entry_lookup(a4, "pending"@, "key"@);
    lemma_one_entry_lookup(a5, "request"@, "key"@);
    lemma_one_entry_lookup(a6, "response"@, "key"@);
    lemma_one_entry_lookup(a7, "providerStates"@, "key"@);
    lemma_one_entry_lookup(a8, "comments"@, "key"@);
    lemma_lookup_concat(a1, r2, "description"@, 0);
    lemma_lookup_concat(a2, r3, "description"@, 0);
    lemma_lookup_concat(a3, r4, "description"@, 0);
    lemma_lookup_concat(a4, r5, "description"@, 0);
    lemma_lookup_concat(a5, r6, "description"@, 0);
    lemma_lookup_concat(a6, r7, "description"@, 0);
    lemma_lookup_concat(a7, r8, "description"@, 0);
    lemma_one_entry_lookup(a1, "type"@, "description"@);
    lemma_one_entry_lookup(a2, "key"@, "description"@);
    lemma_one_entry_lookup(a4, "pending"@, "description"@);
    lemma_one_entry_lookup(a5, "request"@, "description"@);
    lemma_one_entry_lookup(a6, "response"@, "description"@);
    lemma_one_entry_lookup(a7, "providerStates"@, "description"@);
    lemma_one_entry_lookup(a8, "comments"@, "description"@);
    lemma_lookup_concat(a1, r2, "pending"@, 0);
    lemma_lookup_concat(a2, r3, "pending"@, 0);
    lemma_lookup_concat(a3, r4, "pending"@, 0);
    lemma_lookup_concat(a4, r5, "pending"@, 0);
    lemma_lookup_concat(a5, r6, "pending"@, 0);
    lemma_lookup_concat(a6, r7, "pending"@, 0);
    lemma_lookup_concat(a7, r8, "pending"@, 0);
    lemma_one_entry_lookup(a1, "type"@, "pending"@);
    lemma_one_entry_lookup(a2, "key"@, "pending"@);
    lemma_one_entry_lookup(a3, "description"@, "pending"@);
    lemma_one_entry_lookup(a5, "request"@, "pending"@);
    lemma_one_entry_lookup(a6, "response"@, "pending"@);
    lemma_one_entry_lookup(a7, "providerStates"@, "pending"@);
    lemma_one_entry_lookup(a8, "comments"@, "pending"@);
    lemma_lookup_concat(a1, r2, "request"@, 0);
    lemma_lookup_concat(a2, r3, "request"@, 0);
    lemma_lookup_concat(a3, r4, "request"@, 0);
    lemma_lookup_concat(a4, r5, "request"@, 0);
    lemma_lookup_concat(a5, r6, "request"@, 0);
    lemma_lookup_concat(a6, r7, "request"@, 0);
    lemma_lookup_concat(a7, r8, "request"@, 0);
    lemma_one_entry_lookup(a1, "type"@, "request"@);
    lemma_one_entry_lookup(a2, "key"@, "request"@);
    lemma_one_entry_lookup(a3, "description"@, "request"@);
    lemma_one_entry_lookup(a4, "pending"@, "request"@);
    lemma_one_entry_lookup(a6, "response"@, "request"@);
    lemma_one_entry_lookup(a7, "providerStates"@, "request"@);
    lemma_one_entry_lookup(a8, "comments"@, "request"@);
    lemma_lookup_concat(a1, r2, "response"@, 0);
    lemma_lookup_concat(a2, r3, "response"@, 0);
    lemma_lookup_concat(a3, r4, "response"@, 0);
    lemma_lookup_concat(a4, r5, "response"@, 0);
    lemma_lookup_concat(a5, r6, "response"@, 0);
    lemma_lookup_concat(a6, r7, "response"@, 0);
    lemma_lookup_concat(a7, r8, "response"@, 0);
    lemma_one_entry_lookup(a1, "type"@, "response"@);
    lemma_one_entry_lookup(a2, "key"@, "response"@);
    lemma_one_entry_lookup(a3, "description"@, "response"@);
    lemma_one_entry_lookup(a4, "pending"@, "response"@);
    lemma_one_entry_lookup(a5, "request"@, "response"@);
    lemma_one_entry_lookup(a7, "providerStates"@, "response"@);
    lemma_one_entry_lookup(a8, "comments"@, "response"@);
    lemma_lookup_concat(a1, r2, "providerStates"@, 0);
    lemma_lookup_concat(a2, r3, "providerStates"@, 0);
    lemma_lookup_concat(a3, r4, "providerStates"@, 0);
    lemma_lookup_concat(a4, r5, "providerStates"@, 0);
    lemma_lookup_concat(a5, r6, "providerStates"@, 0);
    lemma_lookup_concat(a6, r7, "providerStates"@, 0);
    lemma_lookup_concat(a7, r8, "providerStates"@, 0);
    lemma_one_entry_lookup(a1, "type"@, "providerStates"@);
    lemma_one_entry_lookup(a2, "key"@, "providerStates"@);
    lemma_one_entry_lookup(a3, "description"@, "providerStates"@);
    lemma_one_entry_lookup(a4, "pending"@, "providerStates"@);
    lemma_one_entry_lookup(a5, "request"@, "providerStates"@);
    lemma_one_entry_lookup(a6, "response"@, "providerStates"@);
    lemma_one_entry_lookup(a8, "comments"@, "providerStates"@);
    lemma_lookup_concat(a1, r2, "comments"@, 0);
    lemma_lookup_concat(a2, r3, "comments"@, 0);
    lemma_lookup_concat(a3, r4, "comments"@, 0);
    lemma_lookup_concat(a4, r5, "comments"@, 0);
    lemma_lookup_concat(a5, r6, "comments"@, 0);
    lemma_lookup_concat(a6, r7, "comments"@, 0);
    lemma_lookup_concat(a7, r8, "comments"@, 0);
    lemma_one_entry_lookup(a1, "type"@, "comments"@);
    lemma_one_entry_lookup(a2, "key"@, "comments"@);
    lemma_one_entry_lookup(a3, "description"@, "comments"@);
    lemma_one_entry_lookup(a4, "pending"@, "comments"@);
    lemma_one_entry_lookup(a5, "request"@, "comments"@);
    lemma_one_entry_lookup(a6, "response"@, "comments"@);
    lemma_one_entry_lookup(a7, "providerStates"@, "comments"@);
    lemma_lookup_concat(a1, r2, "_id"@, 0);
    lemma_lookup_concat(a2, r3, "_id"@, 0);
    lemma_lookup_concat(a3, r4, "_id"@, 0);
    lemma_lookup_concat(a4, r5, "_id"@, 0);
    lemma_lookup_concat(a5, r6, "_id"@, 0);
    lemma_lookup_concat(a6, r7, "_id"@, 0);
    lemma_lookup_concat(a7, r8, "_id"@, 0);
    lemma_one_entry_lookup(a1, "type"@, "_id"@);
    lemma_one_entry_lookup(a2, "key"@, "_id"@);
    lemma_one_entry_lookup(a3, "description"@, "_id"@);
    lemma_one_entry_lookup(a4, "pending"@, "_id"@);
    lemma_one_entry_lookup(a5, "request"@, "_id"@);
    lemma_one_entry_lookup(a6, "response"@, "_id"@);
    lemma_one_entry_lookup(a7, "providerStates"@, "_id"@);
    lemma_one_entry_lookup(a8, "comments"@, "_id"@);
    lemma_lookup_concat(a1, r2, "provider_states"@, 0);
    lemma_lookup_concat(a2, r3, "provider_states"@, 0);
    lemma_lookup_concat(a3, r4, "provider_states"@, 0);
    lemma_lookup_concat(a4, r5, "provider_states"@, 0);
    lemma_lookup_concat(a5, r6, "provider_states"@, 0);
    lemma_lookup_concat(a6, r7, "provider_states"@, 0);
    lemma_lookup_concat(a7, r8, "provider_states"@, 0);
    lemma_one_entry_lookup(a1, "type"@, "provider_states"@);
    lemma_one_entry_lookup(a2, "key"@, "provider_states"@);
    lemma_one_entry_lookup(a3, "description"@, "provider_states"@);
    lemma_one_entry_lookup(a4, "pending"@, "provider_states"@);
    lemma_one_entry_lookup(a5, "request"@, "provider_states"@);
    lemma_one_entry_lookup(a6, "response"@, "provider_states"@);
    lemma_one_entry_lookup(a7, "providerStates"@, "provider_states"@);
    lemma_one_entry_lookup(a8, "comments"@, "provider_states"@);
    assert(spec_lookup(e, "provider_states"@) is None);
    assert(spec_lookup(e, "key"@) == spec_lookup(a2, "key"@));
    assert(spec_lookup(e, "description"@) == spec_lookup(a3, "description"@));
    assert(spec_lookup(e, "pending"@) == spec_lookup(a4, "pending"@));
    assert(spec_lookup(e, "request"@) == spec_lookup(a5, "request"@));
    assert(spec_lookup(e, "response"@) == spec_lookup(a6, "response"@));
    assert(spec_lookup(e, "providerStates"@) == spec_lookup(a7, "providerStates"@));
    assert(spec_lookup(e, "comments"@) == spec_lookup(a8, "comments"@));
    assert(spec_lookup(e, "_id"@) is None);
    assert(spec_lookup(a2, "key"@) == Some(a2[0].1));
    assert(spec_lookup(a3, "description"@) == Some(JsonData::Str(s.description)));
    assert(spec_lookup(a4, "pending"@) == Some(JsonData::Bool(s.pending)));
    assert(spec_lookup(a5, "request"@) == Some(spec_mc_to_json(s.request)));
    assert(spec_lookup(a6, "response"@) == Some(
        JsonData::Arr(spec_mc_list_to_json(s.response)),
    ));
    if s.provider_states.len() != 0 {
        assert(spec_lookup(a7, "providerStates"@) == Some(
            JsonData::Arr(spec_ps_list_to_json(s.provider_states)),
        ));
    }
    if s.comments.len() != 0 {
        assert(spec_lookup(a8, "comments"@) == Some(JsonData::Obj(s.comments)));
    }
    lemma_mc_round_trip(s.request);
    let items = spec_mc_list_to_json(s.response);
    assert forall|i: int| 0 <= i < items.len() implies spec_mc_from_json(
        #[trigger] items[i],
    ) is Some by {
        assert(spec_mc_wf(s.response[i]));
        lemma_mc_round_trip(s.response[i]);
    }
    assert(spec_mc_list_ok(items));
    assert forall|i: int| 0 <= i < items.len() implies spec_mc_list_from_json(items)[i]
        == s.response[i] by {
        lemma_mc_round_trip(s.response[i]);
    }
    assert(spec_mc_list_from_json(items) =~= s.response);
    if s.provider_states.len() != 0 {
        lemma_ps_list_round_trip(s.provider_states, 0);
        assert(s.provider_states.skip(0) =~= s.provider_states);
    }
    let back = spec_sm_from_json(spec_sm_to_json(s), index);
    assert(back is Ok);
    assert(back->Ok_0 =~= s);
}

/// An encoded provider-state list reads back element for element.
pub proof fn lemma_ps_list_round_trip(ps: Seq<ProviderStateData>, i: int)
    requires
        0 <= i <= ps.len(),
    ensures
        spec_ps_list_from_json(spec_ps_list_to_json(ps), i) == ps.skip(i),
    decreases ps.len() - i,
{
    let enc = spec_ps_list_to_json(ps);
    if i == ps.len() {
        assert(ps.skip(i) =~= Seq::<ProviderStateData>::empty());
    } else {
        lemma_ps_round_trip(ps[i]);
        lemma_ps_list_round_trip(ps, i + 1);
        assert(spec_ps_list_from_json(enc, i) == seq![ps[i]] + spec_ps_list_from_json(
            enc,
            i + 1,
        ));
        assert(seq![ps[i]] + ps.skip(i + 1) =~= ps.skip(i));
    }
}

impl SynchronousMessages {
    /// Derives the stable identity key: the content hash of the canonical
    /// form of the semantic fields. The id, the key and the comments never
    /// enter the hash.
    pub fn calc_hash(&self) -> (r: String)
        requires
            spec_sm_counts_fit(self@),
        ensures
            r@ == spec_calc_key(self@),
    {
        let mut pe: Vec<(String, JsonValue)> = Vec::new();
        pe.push((String::from_str("description"), JsonValue::Str(self.description.clone())));
        pe.push((String::from_str("pending"), JsonValue::Bool(self.pending)));
        let mut psv: Vec<JsonValue> = Vec::new();
        let mut i: usize = 0;
        while i < self.provider_states.len()
            invariant
                i <= self.provider_states@.len(),
                psv@.len() == i,
                forall|j: int| 0 <= j < i ==> psv@[j]@ == spec_ps_to_json(
                    spec_ps_vec_view(self.provider_states@)[j],
                ),
            decreases self.provider_states@.len() - i,
        {
            proof {
                assert(spec_ps_vec_view(self.provider_states@)[i as int]
                    == self.provider_states@[i as int]@);
            }
            let pv = self.provider_states[i].to_json();
            psv.push(pv);
            i += 1;
        }
        proof {
            assert(crate::json::spec_arr_view(psv@) =~= spec_ps_list_to_json(
                self@.provider_states,
            ));
        }
        pe.push((String::from_str("providerStates"), JsonValue::Arr(psv)));
        let rv = self.request.to_json();
        pe.push((String::from_str("request"), rv));
        let mut rsv: Vec<JsonValue> = Vec::new();
        let mut k: usize = 0;
        while k < self.response.len()
            invariant
                k <= self.response@.len(),
                spec_sm_counts_fit(self@),
                self@.response == spec_mc_vec_view(self.response@),
                rsv@.len() == k,
                forall|j: int| 0 <= j < k ==> rsv@[j]@ == spec_mc_to_json(self@.response[j]),
            decreases self.response@.len() - k,
        {
            proof {
                assert(self@.response[k as int] == self.response@[k as int]@);
                assert(spec_mc_counts_fit(self@.response[k as int]));
            }
            let mv = self.response[k].to_json();
            rsv.push(mv);
            k += 1;
        }
        proof {
            assert(crate::json::spec_arr_view(rsv@) =~= spec_mc_list_to_json(self@.response));
        }
        pe.push((String::from_str("response"), JsonValue::Arr(rsv)));
        let projection = JsonValue::Obj(pe);
        proof {
            assert(spec_entries(projection->Obj_0@) =~= spec_sm_projection(self@)->Obj_0);
        }
        let canon = canonical_json(&projection);
        let text = json_text(&canon);
        let h = hash_text(text.as_str(), 0xcbf29ce484222325u64);
        let mut out = String::new();
        append_hex(&mut out, h);
        out
    }

    /// A new value with a derived key. A key already carried is preserved
    /// untouched; only an interaction without one gets the derived key.
    pub fn with_key(self) -> (r: SynchronousMessages)
        requires
            spec_sm_counts_fit(self@),
        ensures
            r@ == spec_with_key(self@),
    {
        if self.key.is_some() {
            self
        } else {
            let key = self.calc_hash();
            SynchronousMessages { key: Some(key), ..self }
        }
    }

    /// Encodes the interaction as JSON. The key entry always holds a key; the
    /// id is never emitted; empty provider states and comments are omitted.
    pub fn to_json(&self) -> (v: JsonValue)
        requires
            spec_sm_counts_fit(self@),
        ensures
            v@ == spec_sm_to_json(self@),
    {
        let mut out: Vec<(String, JsonValue)> = Vec::new();
        out.push((
            String::from_str("type"),
            JsonValue::Str(String::from_str("Synchronous/Messages")),
        ));
        let key = match &self.key {
            Some(k) => k.clone(),
            None => self.calc_hash(),
        };
        out.push((String::from_str("key"), JsonValue::Str(key)));
        out.push((String::from_str("description"), JsonValue::Str(self.description.clone())));
        out.push((String::from_str("pending"), JsonValue::Bool(self.pending)));
        let rv = self.request.to_json();
        out.push((String::from_str("request"), rv));
        let mut rsv: Vec<JsonValue> = Vec::new();
        let mut k: usize = 0;
        while k < self.response.len()
            invariant
                k <= self.response@.len(),
                spec_sm_counts_fit(self@),
                self@.response == spec_mc_vec_view(self.response@),
                rsv@.len() == k,
                forall|j: int| 0 <= j < k ==> rsv@[j]@ == spec_mc_to_json(self@.response[j]),
            decreases self.response@.len() - k,
        {
            proof {
                assert(self@.response[k as int] == self.response@[k as int]@);
                assert(spec_mc_counts_fit(self@.response[k as int]));
            }
            let mv = self.response[k].to_json();
            rsv.push(mv);
            k += 1;
        }
        proof {
            assert(crate::json::spec_arr_view(rsv@) =~= spec_mc_list_to_json(self@.response));
        }
        out.push((String::from_str("response"), JsonValue::Arr(rsv)));
        if self.provider_states.len() > 0 {
            let mut psv: Vec<JsonValue> = Vec::new();
            let mut i: usize = 0;
            while i < self.provider_states.len()
                invariant
                    i <= self.provider_states@.len(),
                    psv@.len() == i,
                    forall|j: int| 0 <= j < i ==> psv@[j]@ == spec_ps_to_json(
                        spec_ps_vec_view(self.provider_states@)[j],
                    ),
                decreases self.provider_states@.len() - i,
            {
                proof {
                    assert(spec_ps_vec_view(self.provider_states@)[i as int]
                        == self.provider_states@[i as int]@);
                }
                let pv = self.provider_states[i].to_json();
                psv.push(pv);
                i += 1;
            }
            proof {
                assert(crate::json::spec_arr_view(psv@) =~= spec_ps_list_to_json(
                    self@.provider_states,
                ));
            }
            out.push((String::from_str("providerStates"), JsonValue::Arr(psv)));
        }
        if self.comments.len() > 0 {
            let mut ce: Vec<(String, JsonValue)> = Vec::new();
            let mut i: usize = 0;
            while i < self.comments.len()
                invariant
                    i <= self.comments@.len(),
                    ce@.len() == i,
                    forall|j: int| 0 <= j < i ==> ce@[j].0@ == self.comments@[j].0@ && ce@[j].1@
                        == self.comments@[j].1@,
                decreases self.comments@.len() - i,
            {
                let ck = self.comments[i].0.clone();
                let cv = self.comments[i].1.deep_copy();
                ce.push((ck, cv));
                i += 1;
            }
            proof {
                assert(spec_entries(ce@) =~= spec_entries(self.comments@));
            }
            out.push((String::from_str("comments"), JsonValue::Obj(ce)));
        }
        proof {
            assert(spec_entries(out@) =~= spec_sm_to_json(self@)->Obj_0);
        }
        JsonValue::Obj(out)
    }

    /// Decodes an interaction from JSON, with its diagnostics. A value that is
    /// not an object, a missing request, a missing or non-array response each
    /// fail; every response element that fails to decode contributes its
    /// message to one aggregated error, none dropped. `index` names the
    /// interaction in the default description when none is given. Skipped
    /// provider-state elements and a malformed comments entry each leave one
    /// warning; nothing is dropped silently.
    pub fn from_json_with_warnings(v: &JsonValue, index: u64) -> (r: Result<
        (SynchronousMessages, Vec<String>),
        DecodeError,
    >)
        ensures
            match r {
                Ok(p) => spec_sm_from_json(v@, index as nat) == Ok::<
                    SyncData,
                    DecodeErrorData,
                >(p.0@) && spec_msgs_view(p.1@) == spec_sm_warnings(v@),
                Err(e) => spec_sm_from_json(v@, index as nat) == Err::<
                    SyncData,
                    DecodeErrorData,
                >(e@),
            },
    {
        let entries = match v {
            JsonValue::Obj(entries) => entries,
            _ => {
                return Err(DecodeError::NotAnObject(json_text(v)));
            },
        };
        let req_idx = match entries_find(entries, "request") {
            Some(j) => j,
            None => {
                return Err(DecodeError::MissingRequest);
            },
        };
        let resp_idx = match entries_find(entries, "response") {
            Some(j) => j,
            None => {
                return Err(DecodeError::MissingResponse);
            },
        };
        let items = match &entries[resp_idx].1 {
            JsonValue::Arr(items) => items,
            _ => {
                return Err(DecodeError::MissingResponse);
            },
        };
        let ghost items_model = crate::json::spec_arr_view(items@);
        let mut responses: Vec<MessageContents> = Vec::new();
        let mut msgs: Vec<String> = Vec::new();
        let mut i: usize = 0;
        while i < items.len()
            invariant
                i <= items@.len(),
                items_model == crate::json::spec_arr_view(items@),
                items_model.len() == items@.len(),
                forall|j: int| 0 <= j < items@.len() ==> items_model[j] == items@[j]@,
                spec_fail_msgs(items_model, 0) == Seq::new(
                    msgs@.len(),
                    |k: int|
                        if 0 <= k < msgs@.len() {
                            msgs@[k]@
                        } else {
                            Seq::<char>::empty()
                        },
                ) + spec_fail_msgs(items_model, i as int),
                msgs@.len() == 0 ==> (responses@.len() == i && forall|j: int|
                    0 <= j < i ==> spec_mc_from_json(items_model[j]) == Some(
                        #[trigger] responses@[j]@,
                    )),
            decreases items@.len() - i,
        {
            let ghost msgs_model = Seq::new(
                msgs@.len(),
                |k: int|
                    if 0 <= k < msgs@.len() {
                        msgs@[k]@
                    } else {
                        Seq::<char>::empty()
                    },
            );
            match MessageContents::from_json(&items[i]) {
                Ok(m) => {
                    responses.push(m);
                    proof {
                        assert(spec_fail_msgs(items_model, i as int) == spec_fail_msgs(
                            items_model,
                            i + 1,
                        ));
                    }
                },
                Err(e) => {
                    let msg = e.message();
                    msgs.push(msg);
                    proof {
                        let new_model = Seq::new(
                            msgs@.len(),
                            |k: int|
                                if 0 <= k < msgs@.len() {
                                    msgs@[k]@
                                } else {
                                    Seq::<char>::empty()
                                },
                        );
                        assert(new_model =~= msgs_model.push(
                            spec_error_message(
                                DecodeErrorData::NotAnObject(spec_json_text(items_model[i as int])),
                            ),
                        ));
                        assert(spec_fail_msgs(items_model, i as int) == seq![
                            spec_error_message(
                                DecodeErrorData::NotAnObject(spec_json_text(items_model[i as int])),
                            ),
                        ] + spec_fail_msgs(items_model, i + 1));
                        assert(msgs_model + spec_fail_msgs(items_model, i as int) =~= new_model
                            + spec_fail_msgs(items_model, i + 1));
                    }
                },
            }
            i += 1;
        }
        proof {
            assert(spec_fail_msgs(items_model, items_model.len() as int)
                =~= Seq::<Seq<char>>::empty());
        }
        if msgs.len() > 0 {
            proof {
                let msgs_model = Seq::new(
                    msgs@.len(),
                    |k: int|
                        if 0 <= k < msgs@.len() {
                            msgs@[k]@
                        } else {
                            Seq::<char>::empty()
                        },
                );
                assert(spec_fail_msgs(items_model, 0) =~= msgs_model + Seq::<
                    Seq<char>,
                >::empty());
                assert(spec_fail_msgs(items_model, 0) =~= msgs_model);
                assert(spec_fail_msgs(items_model, 0).len() > 0);
                if spec_mc_list_ok(items_model) {
                    lemma_fail_msgs_empty(items_model, 0);
                }
            }
            return Err(DecodeError::Aggregate(msgs));
        }
        proof {
            assert forall|j: int| 0 <= j < items_model.len() implies spec_mc_from_json(
                #[trigger] items_model[j],
            ) is Some by {
                assert(spec_mc_from_json(items_model[j]) == Some(responses@[j]@));
            }
            assert(spec_mc_list_ok(items_model));
            assert(spec_mc_vec_view(responses@) =~= spec_mc_list_from_json(items_model));
        }
        let request = match MessageContents::from_json(&entries[req_idx].1) {
            Ok(m) => m,
            Err(e) => {
                return Err(e);
            },
        };
        let id = match entries_find(entries, "_id") {
            Some(j) => Some(json_to_string(&entries[j].1)),
            None => None,
        };
        let key = match entries_find(entries, "key") {
            Some(j) => Some(json_to_string(&entries[j].1)),
            None => None,
        };
        let description = match entries_find(entries, "description") {
            Some(j) => {
                match &entries[j].1 {
                    JsonValue::Str(sd) => sd.clone(),
                    other => json_text(other),
                }
            },
            None => {
                let mut d = String::from_str("Interaction ");
                append_dec(&mut d, index);
                d
            },
        };
        let mut warnings: Vec<String> = Vec::new();
        let mut provider_states: Vec<ProviderState> = Vec::new();
        let ps_entry = match entries_find(entries, "providerStates") {
            Some(j) => {
                match &entries[j].1 {
                    JsonValue::Arr(_) => Some(j),
                    _ => entries_find(entries, "provider_states"),
                }
            },
            None => entries_find(entries, "provider_states"),
        };
        match ps_entry {
            Some(j) => {
                match &entries[j].1 {
                    JsonValue::Arr(ps_items) => {
                        let ghost ps_model = crate::json::spec_arr_view(ps_items@);
                        let mut pi: usize = 0;
                        while pi < ps_items.len()
                            invariant
                                pi <= ps_items@.len(),
                                ps_model == crate::json::spec_arr_view(ps_items@),
                                forall|j2: int| 0 <= j2 < ps_items@.len() ==> ps_model[j2]
                                    == ps_items@[j2]@,
                                spec_ps_list_from_json(ps_model, 0) == spec_ps_vec_view(
                                    provider_states@,
                                ) + spec_ps_list_from_json(ps_model, pi as int),
                                spec_ps_skip_warnings(ps_model, 0) == spec_msgs_view(warnings@)
                                    + spec_ps_skip_warnings(ps_model, pi as int),
                            decreases ps_items@.len() - pi,
                        {
                            let ghost before = spec_ps_vec_view(provider_states@);
                            let ghost wbefore = spec_msgs_view(warnings@);
                            match ProviderState::from_json(&ps_items[pi]) {
                                Some(p) => {
                                    provider_states.push(p);
                                    proof {
                                        assert(spec_ps_vec_view(provider_states@) =~= before.push(
                                            spec_ps_from_json(ps_model[pi as int])->Some_0,
                                        ));
                                        assert(before + spec_ps_list_from_json(
                                            ps_model,
                                            pi as int,
                                        ) =~= spec_ps_vec_view(provider_states@)
                                            + spec_ps_list_from_json(ps_model, pi + 1));
                                        assert(spec_ps_skip_warnings(ps_model, pi as int)
                                            =~= spec_ps_skip_warnings(ps_model, pi + 1));
                                    }
                                },
                                None => {
                                    warnings.push(
                                        String::from_str(
                                            "provider state element skipped: not an object with a string name",
                                        ),
                                    );
                                    proof {
                                        assert(spec_msgs_view(warnings@) =~= wbefore.push(
                                            "provider state element skipped: not an object with a string name"@,
                                        ));
                                        assert(wbefore + spec_ps_skip_warnings(
                                            ps_model,
                                            pi as int,
                                        ) =~= spec_msgs_view(warnings@) + spec_ps_skip_warnings(
                                            ps_model,
                                            pi + 1,
                                        ));
                                    }
                                },
                            }
                            pi += 1;
                        }
                        proof {
                            assert(spec_ps_list_from_json(ps_model, ps_model.len() as int)
                                =~= Seq::<ProviderStateData>::empty());
                            assert(spec_ps_vec_view(provider_states@) + Seq::<
                                ProviderStateData,
                            >::empty() =~= spec_ps_vec_view(provider_states@));
                            assert(spec_ps_skip_warnings(ps_model, ps_model.len() as int)
                                =~= Seq::<Seq<char>>::empty());
                            assert(spec_msgs_view(warnings@) + Seq::<Seq<char>>::empty()
                                =~= spec_msgs_view(warnings@));
                        }
                    },
                    _ => {
                        proof {
                            assert(spec_ps_vec_view(provider_states@)
                                =~= Seq::<ProviderStateData>::empty());
                        }
                    },
                }
            },
            None => {
                proof {
                    assert(spec_ps_vec_view(provider_states@)
                        =~= Seq::<ProviderStateData>::empty());
                }
            },
        }
        let ghost ps_warnings = spec_msgs_view(warnings@);
        let mut comments: Vec<(String, JsonValue)> = Vec::new();
        match entries_find(entries, "comments") {
            Some(j) => {
                match &entries[j].1 {
                    JsonValue::Obj(ce) => {
                        let mut ci: usize = 0;
                        while ci < ce.len()
                            invariant
                                ci <= ce@.len(),
                                comments@.len() == ci,
                                forall|k: int| 0 <= k < ci ==> comments@[k].0@ == ce@[k].0@
                                    && comments@[k].1@ == ce@[k].1@,
                            decreases ce@.len() - ci,
                        {
                            let ck = ce[ci].0.clone();
                            let cv = ce[ci].1.deep_copy();
                            comments.push((ck, cv));
                            ci += 1;
                        }
                        proof {
                            assert(spec_entries(comments@) =~= spec_entries(ce@));
                        }
                    },
                    _ => {
                        warnings.push(
                            String::from_str(
                                "interaction comments must be a JSON object; ignored",
                            ),
                        );
                        proof {
                            assert(spec_entries(comments@) =~= Seq::<(
                                Seq<char>,
                                JsonData,
                            )>::empty());
                            assert(spec_msgs_view(warnings@) =~= ps_warnings + seq![
                                "interaction comments must be a JSON object; ignored"@,
                            ]);
                        }
                    },
                }
            },
            None => {
                proof {
                    assert(spec_entries(comments@) =~= Seq::<(Seq<char>, JsonData)>::empty());
                }
            },
        }
        let pending = match entries_find(entries, "pending") {
            Some(j) => {
                match &entries[j].1 {
                    JsonValue::Bool(b) => *b,
                    _ => false,
                }
            },
            None => false,
        };
        let s = SynchronousMessages {
            id,
            key,
            description,
            provider_states,
            comments,
            request,
            response: responses,
            pending,
        };
        proof {
            assert(s@ =~= spec_sm_from_json(v@, index as nat)->Ok_0);
            assert(spec_msgs_view(warnings@) =~= spec_sm_warnings(v@));
        }
        Ok((s, warnings))
    }

    /// Decodes an interaction from JSON, discarding the diagnostics; the
    /// sibling with warnings keeps them.
    pub fn from_json(v: &JsonValue, index: u64) -> (r: Result<
        SynchronousMessages,
        DecodeError,
    >)
        ensures
            match r {
                Ok(s) => spec_sm_from_json(v@, index as nat) == Ok::<
                    SyncData,
                    DecodeErrorData,
                >(s@),
                Err(e) => spec_sm_from_json(v@, index as nat) == Err::<
                    SyncData,
                    DecodeErrorData,
                >(e@),
            },
    {
        match SynchronousMessages::from_json_with_warnings(v, index) {
            Ok((s, _)) => Ok(s),
            Err(e) => Err(e),
        }
    }
}

/// Where every element decodes, no failure message exists.
proof fn lemma_fail_msgs_empty(items: Seq<JsonData>, i: int)
    requires
        spec_mc_list_ok(items),
        0 <= i,
    ensures
        spec_fail_msgs(items, i).len() == 0,
    decreases items.len() - i,
{
    if i < items.len() {
        lemma_fail_msgs_empty(items, i + 1);
    }
}

impl SynchronousMessages {
    /// The interaction's description.
    pub fn description(&self) -> (r: String)
        ensures
            r@ == self@.description,
    {
        self.description.clone()
    }

    /// The broker id, when the contract came from a broker.
    pub fn id(&self) -> (r: &Option<String>)
        ensures
            match r {
                Some(s) => self@.id == Some(s@),
                None => self@.id is None,
            },
    {
        &self.id
    }

    /// The stable identity key, when one has been set or derived.
    pub fn key(&self) -> (r: &Option<String>)
        ensures
            match r {
                Some(s) => self@.key == Some(s@),
                None => self@.key is None,
            },
    {
        &self.key
    }

    /// The provider states the interaction assumes.
    pub fn provider_states(&self) -> (r: &Vec<ProviderState>)
        ensures
            spec_ps_vec_view(r@) == self@.provider_states,
    {
        &self.provider_states
    }

    /// The annotations attached to the interaction.
    pub fn comments(&self) -> (r: &Vec<(String, JsonValue)>)
        ensures
            spec_entries(r@) == self@.comments,
    {
        &self.comments
    }

    /// Whether the interaction is pending: a pending one never fails a build.
    pub fn pending(&self) -> (r: bool)
        ensures
            r == self@.pending,
    {
        self.pending
    }

    /// A message interaction carries no single request/response body of its
    /// own: this accessor is the missing body.
    pub fn contents(&self) -> (r: Body)
        ensures
            r@ == BodyData::Missing,
    {
        Body::Missing
    }

    /// The payload the verifier checks: the first response's body, or a
    /// missing body when there is no response.
    pub fn contents_for_verification(&self) -> (r: Body)
        ensures
            r@ == if self@.response.len() > 0 {
                self@.response[0].contents
            } else {
                BodyData::Missing
            },
    {
        if self.response.len() > 0 {
            self.response[0].contents.dup()
        } else {
            Body::Missing
        }
    }

    /// The effective content type: the request message's resolved type.
    pub fn content_type(&self) -> (r: Option<String>)
        ensures
            match r {
                Some(ct) => spec_resolve_content_type(
                    self@.request.contents,
                    self@.request.metadata,
                ) == Some(ct@),
                None => spec_resolve_content_type(
                    self@.request.contents,
                    self@.request.metadata,
                ) is None,
            },
    {
        self.request.message_content_type()
    }

    /// The interaction's kind, as contract files name it.
    pub fn v4_type(&self) -> (r: String)
        ensures
            r@ == "Synchronous/Messages"@,
    {
        String::from_str("Synchronous/Messages")
    }

    /// The interaction's kind with its model generation.
    pub fn type_of(&self) -> (r: String)
        ensures
            r@ == "V4 Synchronous/Messages"@,
    {
        String::from_str("V4 Synchronous/Messages")
    }

    /// A message interaction is never an HTTP request/response pair.
    pub fn is_request_response(&self) -> (r: bool)
        ensures
            r == false,
    {
        false
    }

    /// A synchronous message interaction is not a one-way message.
    pub fn is_message(&self) -> (r: bool)
        ensures
            r == false,
    {
        false
    }
}

impl Default for SynchronousMessages {
    /// The default interaction: no key, no responses, not pending, with the
    /// default description.
    fn default() -> (r: SynchronousMessages)
        ensures
            r@.id is None,
            r@.key is None,
            r@.description == "Synchronous/Message Interaction"@,
            r@.provider_states.len() == 0,
            r@.comments.len() == 0,
            r@.request == (MessageContentsData {
                contents: BodyData::Missing,
                metadata: Seq::<(Seq<char>, JsonData)>::empty(),
                matching_rules: Seq::empty(),
                generators: Seq::empty(),
            }),
            r@.response.len() == 0,
            r@.pending == false,
    {
        let r = SynchronousMessages {
            id: None,
            key: None,
            description: String::from_str("Synchronous/Message Interaction"),
            provider_states: Vec::new(),
            comments: Vec::new(),
            request: MessageContents::empty(),
            response: Vec::new(),
            pending: false,
        };
        proof {
            assert(spec_ps_vec_view(r.provider_states@).len() == 0);
            assert(spec_entries(r.comments@).len() == 0);
            assert(spec_mc_vec_view(r.response@).len() == 0);
        }
        r
    }
}

fn ps_list_eq(a: &Vec<ProviderState>, b: &Vec<ProviderState>) -> (r: bool)
    ensures
        r == (spec_ps_vec_view(a@) == spec_ps_vec_view(b@)),
{
    if a.len() != b.len() {
        assert(spec_ps_vec_view(a@).len() != spec_ps_vec_view(b@).len());
        return false;
    }
    let mut i: usize = 0;
    while i < a.len()
        invariant
            i <= a@.len(),
            a@.len() == b@.len(),
            forall|j: int| 0 <= j < i ==> #[trigger] spec_ps_vec_view(a@)[j]
                == spec_ps_vec_view(b@)[j],
        decreases a@.len() - i,
    {
        if !crate::provider_states::ps_eq(&a[i], &b[i]) {
            assert(spec_ps_vec_view(a@)[i as int] != spec_ps_vec_view(b@)[i as int]);
            return false;
        }
        assert(spec_ps_vec_view(a@)[i as int] == spec_ps_vec_view(b@)[i as int]);
        i += 1;
    }
    proof {
        assert(spec_ps_vec_view(a@) =~= spec_ps_vec_view(b@));
    }
    true
}

fn mc_list_eq(a: &Vec<MessageContents>, b: &Vec<MessageContents>) -> (r: bool)
    ensures
        r == (spec_mc_vec_view(a@) == spec_mc_vec_view(b@)),
{
    if a.len() != b.len() {
        assert(spec_mc_vec_view(a@).len() != spec_mc_vec_view(b@).len());
        return false;
    }
    let mut i: usize = 0;
    while i < a.len()
        invariant
            i <= a@.len(),
            a@.len() == b@.len(),
            forall|j: int| 0 <= j < i ==> #[trigger] spec_mc_vec_view(a@)[j]
                == spec_mc_vec_view(b@)[j],
        decreases a@.len() - i,
    {
        if !crate::message::mc_eq(&a[i], &b[i]) {
            assert(spec_mc_vec_view(a@)[i as int] != spec_mc_vec_view(b@)[i as int]);
            return false;
        }
        assert(spec_mc_vec_view(a@)[i as int] == spec_mc_vec_view(b@)[i as int]);
        i += 1;
    }
    proof {
        assert(spec_mc_vec_view(a@) =~= spec_mc_vec_view(b@));
    }
    true
}

impl SynchronousMessages {
    /// Semantic equality: two interactions are the same exchange exactly when
    /// their description, provider states, request, responses and pending flag
    /// agree. The id, the key and the comments are annotations and never
    /// influence it.
    pub fn semantic_eq(&self, other: &SynchronousMessages) -> (r: bool)
        ensures
            r == (self@.description == other@.description && self@.provider_states
                == other@.provider_states && self@.request == other@.request && self@.response
                == other@.response && self@.pending == other@.pending),
    {
        crate::strutil::str_eq(self.description.as_str(), other.description.as_str())
            && self.pending == other.pending && ps_list_eq(
            &self.provider_states,
            &other.provider_states,
        ) && crate::message::mc_eq(&self.request, &other.request) && mc_list_eq(
            &self.response,
            &other.response,
        )
    }
}

impl SynchronousMessages {
    /// Whether every count in the request's and responses' tables fits the
    /// codec's integers, so that `to_json`, `calc_hash` and `with_key` may run.
    pub fn counts_fit(&self) -> (ok: bool)
        ensures
            ok == spec_sm_counts_fit(self@),
    {
        if !self.request.counts_fit() {
            return false;
        }
        let mut i: usize = 0;
        while i < self.response.len()
            invariant
                i <= self.response@.len(),
                spec_mc_counts_fit(self@.request),
                self@.response == spec_mc_vec_view(self.response@),
                forall|j: int| 0 <= j < i ==> spec_mc_counts_fit(#[trigger] self@.response[j]),
            decreases self.response@.len() - i,
        {
            proof {
                assert(self@.response[i as int] == self.response@[i as int]@);
            }
            if !self.response[i].counts_fit() {
                return false;
            }
            i += 1;
        }
        true
    }
}

} // verus!
