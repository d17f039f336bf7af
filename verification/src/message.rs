//! The reusable payload of every message-style interaction part: a body, a
//! metadata map, a matching-rule table and a generator table, with the JSON
//! codec that round-trips them.

use vstd::prelude::*;
use crate::json::{
    JsonValue, JsonData, spec_lookup, spec_lookup_from, spec_entries, entries_find,
    lemma_lookup_concat, spec_json_text, json_text,
};
use crate::bodies::{
    Body, BodyData, spec_body_to_json, spec_body_from_json, body_to_json, body_from_json,
    lemma_body_round_trip, spec_resolve_content_type, resolve_content_type,
};
use crate::matchingrules::{
    MatchingRules, TableModel, table_wf, table_counts_fit, spec_table_to_json,
    spec_table_from_json, lemma_table_round_trip,
};
use crate::generators::{
    Generators, GenTableModel, GenModel, gen_table_wf, spec_gen_table_to_json,
    spec_gen_table_from_json, lemma_gen_table_round_trip,
};
use crate::errors::DecodeError;

verus! {

/// The mathematical model of a message's contents.
#[verifier::ext_equal]
pub ghost struct MessageContentsData {
    pub contents: BodyData,
    pub metadata: Seq<(Seq<char>, JsonData)>,
    pub matching_rules: TableModel,
    pub generators: GenTableModel,
}

/// The contents of one message: body, metadata, matching rules and generators.
#[derive(Debug, PartialEq)]
pub struct MessageContents {
    pub contents: Body,
    pub metadata: Vec<(String, JsonValue)>,
    pub matching_rules: MatchingRules,
    pub generators: Generators,
}

impl View for MessageContents {
    type V = MessageContentsData;

    open spec fn view(&self) -> MessageContentsData {
        MessageContentsData {
            contents: self.contents@,
            metadata: spec_entries(self.metadata@),
            matching_rules: self.matching_rules@,
            generators: self.generators@,
        }
    }
}

/// Well-formedness of a message's contents: the rule and generator tables are
/// well formed.
pub open spec fn spec_mc_wf(m: MessageContentsData) -> bool {
    table_wf(m.matching_rules) && gen_table_wf(m.generators)
}

/// All counts in the tables fit the codec's integers.
pub open spec fn spec_mc_counts_fit(m: MessageContentsData) -> bool {
    table_counts_fit(m.matching_rules) && (forall|i: int, j: int|
        0 <= i < m.generators.len() && 0 <= j < m.generators[i].1.len() ==> match (
        #[trigger] m.generators[i].1[j]).1 {
            GenModel::RandomString(n) => n <= i64::MAX,
            _ => true,
        })
}

/// The JSON form of a message's contents. Every empty part is omitted whole,
/// so the emitted JSON stays diff-friendly.
pub open spec fn spec_mc_to_json(m: MessageContentsData) -> JsonData {
    let s1 = match spec_body_to_json(m.contents) {
        Some(env) => seq![("contents"@, env)],
        None => Seq::empty(),
    };
    let s2 = if m.metadata.len() == 0 {
        Seq::empty()
    } else {
        seq![("metadata"@, JsonData::Obj(m.metadata))]
    };
    let s3 = if m.matching_rules.len() == 0 {
        Seq::empty()
    } else {
        seq![("matchingRules"@, spec_table_to_json(m.matching_rules))]
    };
    let s4 = if m.generators.len() == 0 {
        Seq::empty()
    } else {
        seq![("generators"@, spec_gen_table_to_json(m.generators))]
    };
    JsonData::Obj(s1 + (s2 + (s3 + s4)))
}

/// The message contents read from JSON. Anything but an object fails; inside
/// an object, a missing or malformed part reads as its empty default.
pub open spec fn spec_mc_from_json(d: JsonData) -> Option<MessageContentsData> {
    if !(d is Obj) {
        None
    } else {
        let e = d->Obj_0;
        Some(
            MessageContentsData {
                contents: spec_body_from_json(spec_lookup(e, "contents"@)),
                metadata: match spec_lookup(e, "metadata"@) {
                    Some(JsonData::Obj(me)) => me,
                    _ => Seq::empty(),
                },
                matching_rules: match spec_lookup(e, "matchingRules"@) {
                    Some(x) => spec_table_from_json(x),
                    None => Seq::empty(),
                },
                generators: match spec_lookup(e, "generators"@) {
                    Some(x) => spec_gen_table_from_json(x),
                    None => Seq::empty(),
                },
            },
        )
    }
}


proof fn lemma_seg_lookup(seg: Seq<(Seq<char>, JsonData)>, key0: Seq<char>, k: Seq<char>)
    requires
        seg.len() == 0 || (seg.len() == 1 && seg[0].0 == key0),
        k != key0,
    ensures
        spec_lookup(seg, k) is None,
{
    if seg.len() == 1 {
        assert(spec_lookup_from(seg, k, 1) is None);
    }
}

/// Message contents read back from their JSON form unchanged.
pub proof fn lemma_mc_round_trip(m: MessageContentsData)
    requires
        spec_mc_wf(m),
    ensures
        spec_mc_from_json(spec_mc_to_json(m)) == Some(m),
{
    reveal_strlit("contents");
    reveal_strlit("metadata");
    reveal_strlit("matchingRules");
    reveal_strlit("generators");
    assert("contents"@.len() == 8);
    assert("metadata"@.len() == 8);
    assert("matchingRules"@.len() == 13);
    assert("generators"@.len() == 10);
    assert("contents"@[0] == 'c' && "metadata"@[0] == 'm');
    assert("contents"@ != "metadata"@);
    let s1 = match spec_body_to_json(m.contents) {
        Some(env) => seq![("contents"@, env)],
        None => Seq::<(Seq<char>, JsonData)>::empty(),
    };
    let s2 = if m.metadata.len() == 0 {
        Seq::<(Seq<char>, JsonData)>::empty()
    } else {
        seq![("metadata"@, JsonData::Obj(m.metadata))]
    };
    let s3 = if m.matching_rules.len() == 0 {
        Seq::<(Seq<char>, JsonData)>::empty()
    } else {
        seq![("matchingRules"@, spec_table_to_json(m.matching_rules))]
    };
    let s4 = if m.generators.len() == 0 {
        Seq::<(Seq<char>, JsonData)>::empty()
    } else {
        seq![("generators"@, spec_gen_table_to_json(m.generators))]
    };
    let rest2 = s2 + (s3 + s4);
    let rest3 = s3 + s4;
    let e = s1 + rest2;
    assert(spec_mc_to_json(m) == JsonData::Obj(e));
    let kc = "contents"@;
    let km = "metadata"@;
    let kr = "matchingRules"@;
    let kg = "generators"@;
    assert(kc != km && kc != kr && kc != kg && km != kr && km != kg && kr != kg);
    lemma_lookup_concat(s1, rest2, kc, 0);
    lemma_lookup_concat(s2, rest3, kc, 0);
    lemma_lookup_concat(s3, s4, kc, 0);
    lemma_seg_lookup(s2, km, kc);
    lemma_seg_lookup(s3, kr, kc);
    lemma_seg_lookup(s4, kg, kc);
    if s1.len() == 1 {
        assert(spec_lookup(s1, kc) == Some(s1[0].1));
    }
    assert(spec_lookup(e, kc) == spec_lookup(s1, kc));
    lemma_lookup_concat(s1, rest2, km, 0);
    lemma_lookup_concat(s2, rest3, km, 0);
    lemma_lookup_concat(s3, s4, km, 0);
    lemma_seg_lookup(s1, kc, km);
    lemma_seg_lookup(s3, kr, km);
    lemma_seg_lookup(s4, kg, km);
    if s2.len() == 1 {
        assert(spec_lookup(s2, km) == Some(s2[0].1));
    }
    assert(spec_lookup(e, km) == spec_lookup(s2, km));
    lemma_lookup_concat(s1, rest2, kr, 0);
    lemma_lookup_concat(s2, rest3, kr, 0);
    lemma_lookup_concat(s3, s4, kr, 0);
    lemma_seg_lookup(s1, kc, kr);
    lemma_seg_lookup(s2, km, kr);
    lemma_seg_lookup(s4, kg, kr);
    if s3.len() == 1 {
        assert(spec_lookup(s3, kr) == Some(s3[0].1));
    }
    assert(spec_lookup(e, kr) == spec_lookup(s3, kr));
    lemma_lookup_concat(s1, rest2, kg, 0);
    lemma_lookup_concat(s2, rest3, kg, 0);
    lemma_lookup_concat(s3, s4, kg, 0);
    lemma_seg_lookup(s1, kc, kg);
    lemma_seg_lookup(s2, km, kg);
    lemma_seg_lookup(s3, kr, kg);
    if s4.len() == 1 {
        assert(spec_lookup(s4, kg) == Some(s4[0].1));
    }
    assert(spec_lookup(e, kg) == spec_lookup(s4, kg));
    lemma_body_round_trip(m.contents);
    if m.contents is Missing {
        assert(spec_lookup(e, "contents"@) is None);
    }
    if m.matching_rules.len() != 0 {
        lemma_table_round_trip(m.matching_rules);
    }
    if m.generators.len() != 0 {
        lemma_gen_table_round_trip(m.generators);
    }
    let back = spec_mc_from_json(spec_mc_to_json(m))->Some_0;
    assert(back =~= m);
}

impl MessageContents {
    /// Contents with nothing in them: a missing body and empty tables.
    pub fn empty() -> (r: MessageContents)
        ensures
            r@ == (MessageContentsData {
                contents: BodyData::Missing,
                metadata: Seq::<(Seq<char>, JsonData)>::empty(),
                matching_rules: Seq::empty(),
                generators: Seq::empty(),
            }),
    {
        let r = MessageContents {
            contents: Body::Missing,
            metadata: Vec::new(),
            matching_rules: MatchingRules::empty(),
            generators: Generators::empty(),
        };
        proof {
            assert(spec_entries(r.metadata@) =~= Seq::<(Seq<char>, JsonData)>::empty());
        }
        r
    }

    /// Encodes the contents as JSON, omitting every empty part.
    pub fn to_json(&self) -> (v: JsonValue)
        requires
            spec_mc_counts_fit(self@),
        ensures
            v@ == spec_mc_to_json(self@),
    {
        let mut out: Vec<(String, JsonValue)> = Vec::new();
        match body_to_json(&self.contents) {
            Some(env) => {
                out.push((String::from_str("contents"), env));
            },
            None => {},
        }
        if self.metadata.len() > 0 {
            let mut me: Vec<(String, JsonValue)> = Vec::new();
            let mut i: usize = 0;
            while i < self.metadata.len()
                invariant
                    i <= self.metadata@.len(),
                    me@.len() == i,
                    forall|j: int| 0 <= j < i ==> me@[j].0@ == self.metadata@[j].0@ && me@[j].1@
                        == self.metadata@[j].1@,
                decreases self.metadata@.len() - i,
            {
                let k = self.metadata[i].0.clone();
                let v = self.metadata[i].1.deep_copy();
                me.push((k, v));
                i += 1;
            }
            proof {
                assert(spec_entries(me@) =~= spec_entries(self.metadata@));
            }
            out.push((String::from_str("metadata"), JsonValue::Obj(me)));
        }
        if !self.matching_rules.is_empty() {
            let rv = self.matching_rules.to_json();
            out.push((String::from_str("matchingRules"), rv));
        }
        if !self.generators.is_empty() {
            let gv = self.generators.to_json();
            out.push((String::from_str("generators"), gv));
        }
        proof {
            assert(spec_entries(out@) =~= spec_mc_to_json(self@)->Obj_0);
        }
        JsonValue::Obj(out)
    }

    /// Decodes message contents from JSON. Only a value that is not an object
    /// fails, with its canonical text in the error; a missing or malformed
    /// part inside an object reads as its empty default.
    pub fn from_json(v: &JsonValue) -> (r: Result<MessageContents, DecodeError>)
        ensures
            match r {
                Ok(m) => spec_mc_from_json(v@) == Some(m@),
                Err(e) => !(v@ is Obj) && e@ == crate::errors::DecodeErrorData::NotAnObject(
                    spec_json_text(v@),
                ),
            },
    {
        let entries = match v {
            JsonValue::Obj(entries) => entries,
            _ => {
                return Err(DecodeError::NotAnObject(json_text(v)));
            },
        };
        let contents = match entries_find(entries, "contents") {
            Some(j) => body_from_json(Some(&entries[j].1)),
            None => body_from_json(None),
        };
        let mut metadata: Vec<(String, JsonValue)> = Vec::new();
        match entries_find(entries, "metadata") {
            Some(j) => {
                match &entries[j].1 {
                    JsonValue::Obj(me) => {
                        let mut i: usize = 0;
                        while i < me.len()
                            invariant
                                i <= me@.len(),
                                metadata@.len() == i,
                                forall|k: int| 0 <= k < i ==> metadata@[k].0@ == me@[k].0@
                                    && metadata@[k].1@ == me@[k].1@,
                            decreases me@.len() - i,
                        {
                            let k = me[i].0.clone();
                            let mv = me[i].1.deep_copy();
                            metadata.push((k, mv));
                            i += 1;
                        }
                        proof {
                            assert(spec_entries(metadata@) =~= spec_entries(me@));
                        }
                    },
                    _ => {
                        proof {
                            assert(spec_entries(metadata@) =~= Seq::<(
                                Seq<char>,
                                JsonData,
                            )>::empty());
                        }
                    },
                }
            },
            None => {
                proof {
                    assert(spec_entries(metadata@) =~= Seq::<(Seq<char>, JsonData)>::empty());
                }
            },
        }
        let matching_rules = match entries_find(entries, "matchingRules") {
            Some(j) => MatchingRules::from_json(&entries[j].1),
            None => MatchingRules::empty(),
        };
        let generators = match entries_find(entries, "generators") {
            Some(j) => Generators::from_json(&entries[j].1),
            None => Generators::empty(),
        };
        let m = MessageContents { contents, metadata, matching_rules, generators };
        proof {
            assert(m@ =~= spec_mc_from_json(v@)->Some_0);
        }
        Ok(m)
    }

    /// The effective content type of the message: the type declared on the
    /// body wins, then a content-type metadata entry, then sniffing the bytes.
    pub fn message_content_type(&self) -> (r: Option<String>)
        ensures
            match r {
                Some(ct) => spec_resolve_content_type(self@.contents, self@.metadata) == Some(
                    ct@,
                ),
                None => spec_resolve_content_type(self@.contents, self@.metadata) is None,
            },
    {
        resolve_content_type(&self.contents, &self.metadata)
    }
}

/// Structural equality of two message contents, decided on their models.
pub fn mc_eq(a: &MessageContents, b: &MessageContents) -> (r: bool)
    ensures
        r == (a@ == b@),
{
    let r = crate::bodies::body_eq(&a.contents, &b.contents) && crate::json::entries_eq(
        &a.metadata,
        &b.metadata,
    ) && a.matching_rules.table_eq(&b.matching_rules) && a.generators.table_eq(&b.generators);
    proof {
        if r {
            assert(a@ =~= b@);
        }
    }
    r
}

impl MessageContents {
    /// Whether every count in the tables fits the codec's integers, so that
    /// `to_json` may run.
    pub fn counts_fit(&self) -> (ok: bool)
        ensures
            ok == spec_mc_counts_fit(self@),
    {
        self.matching_rules.counts_fit() && self.generators.counts_fit()
    }
}

} // verus!
