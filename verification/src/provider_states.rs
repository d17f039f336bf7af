//! Provider states: named preconditions with parameters that the provider
//! must establish before an interaction is replayed against it.

use vstd::prelude::*;
use crate::json::{
    JsonValue, JsonData, spec_lookup, spec_lookup_from, spec_entries, entries_find,
    lemma_lookup_concat,
};

verus! {

/// The mathematical model of a provider state.
#[verifier::ext_equal]
pub ghost struct ProviderStateData {
    pub name: Seq<char>,
    pub params: Seq<(Seq<char>, JsonData)>,
}

/// A named precondition with parameters.
#[derive(Debug, PartialEq)]
pub struct ProviderState {
    pub name: String,
    pub params: Vec<(String, JsonValue)>,
}

impl View for ProviderState {
    type V = ProviderStateData;

    open spec fn view(&self) -> ProviderStateData {
        ProviderStateData { name: self.name@, params: spec_entries(self.params@) }
    }
}

/// The JSON form of one provider state; empty parameters are omitted.
pub open spec fn spec_ps_to_json(p: ProviderStateData) -> JsonData {
    let s1 = seq![("name"@, JsonData::Str(p.name))];
    let s2 = if p.params.len() == 0 {
        Seq::<(Seq<char>, JsonData)>::empty()
    } else {
        seq![("params"@, JsonData::Obj(p.params))]
    };
    JsonData::Obj(s1 + s2)
}

/// The provider state read from one JSON element; an element without a string
/// name is skipped by the list decoder.
pub open spec fn spec_ps_from_json(d: JsonData) -> Option<ProviderStateData> {
    if !(d is Obj) {
        None
    } else {
        let e = d->Obj_0;
        match spec_lookup(e, "name"@) {
            Some(JsonData::Str(n)) => Some(
                ProviderStateData {
                    name: n,
                    params: match spec_lookup(e, "params"@) {
                        Some(JsonData::Obj(pe)) => pe,
                        _ => Seq::empty(),
                    },
                },
            ),
            _ => None,
        }
    }
}

/// The provider states read from a JSON array, in order; elements that do not
/// decode are skipped with nothing lost from the rest.
pub open spec fn spec_ps_list_from_json(items: Seq<JsonData>, i: int) -> Seq<ProviderStateData>
    decreases items.len() - i,
{
    if i < 0 || i >= items.len() {
        Seq::empty()
    } else {
        match spec_ps_from_json(items[i]) {
            Some(p) => seq![p] + spec_ps_list_from_json(items, i + 1),
            None => spec_ps_list_from_json(items, i + 1),
        }
    }
}

/// A provider state reads back from its JSON form unchanged.
pub proof fn lemma_ps_round_trip(p: ProviderStateData)
    ensures
        spec_ps_from_json(spec_ps_to_json(p)) == Some(p),
{
    reveal_strlit("name");
    reveal_strlit("params");
    assert("name"@.len() == 4);
    assert("params"@.len() == 6);
    let s1 = seq![("name"@, JsonData::Str(p.name))];
    let s2 = if p.params.len() == 0 {
        Seq::<(Seq<char>, JsonData)>::empty()
    } else {
        seq![("params"@, JsonData::Obj(p.params))]
    };
    let e = s1 + s2;
    lemma_lookup_concat(s1, s2, "name"@, 0);
    lemma_lookup_concat(s1, s2, "params"@, 0);
    assert(spec_lookup(s1, "name"@) == Some(JsonData::Str(p.name)));
    assert(spec_lookup_from(s1, "params"@, 1) is None);
    assert(spec_lookup(s1, "params"@) is None);
    if p.params.len() != 0 {
        assert(spec_lookup(s2, "params"@) == Some(JsonData::Obj(p.params)));
    }
    assert(spec_ps_from_json(spec_ps_to_json(p))->Some_0 =~= p);
}

impl ProviderState {
    /// Encodes the provider state as JSON.
    pub fn to_json(&self) -> (v: JsonValue)
        ensures
            v@ == spec_ps_to_json(self@),
    {
        let mut e: Vec<(String, JsonValue)> = Vec::new();
        e.push((String::from_str("name"), JsonValue::Str(self.name.clone())));
        if self.params.len() > 0 {
            let mut pe: Vec<(String, JsonValue)> = Vec::new();
            let mut i: usize = 0;
            while i < self.params.len()
                invariant
                    i <= self.params@.len(),
                    pe@.len() == i,
                    forall|j: int| 0 <= j < i ==> pe@[j].0@ == self.params@[j].0@ && pe@[j].1@
                        == self.params@[j].1@,
                decreases self.params@.len() - i,
            {
                let k = self.params[i].0.clone();
                let v = self.params[i].1.deep_copy();
                pe.push((k, v));
                i += 1;
            }
            proof {
                assert(spec_entries(pe@) =~= spec_entries(self.params@));
            }
            e.push((String::from_str("params"), JsonValue::Obj(pe)));
        }
        proof {
            assert(spec_entries(e@) =~= spec_ps_to_json(self@)->Obj_0);
        }
        JsonValue::Obj(e)
    }

    /// Decodes one provider state from a JSON element.
    pub fn from_json(v: &JsonValue) -> (r: Option<ProviderState>)
        ensures
            match r {
                Some(p) => spec_ps_from_json(v@) == Some(p@),
                None => spec_ps_from_json(v@) is None,
            },
    {
        let entries = match v {
            JsonValue::Obj(entries) => entries,
            _ => {
                return None;
            },
        };
        let name = match crate::json::entries_get(entries, "name") {
            Some(JsonValue::Str(n)) => n.clone(),
            _ => {
                return None;
            },
        };
        let mut params: Vec<(String, JsonValue)> = Vec::new();
        match entries_find(entries, "params") {
            Some(j) => {
                match &entries[j].1 {
                    JsonValue::Obj(pe) => {
                        let mut i: usize = 0;
                        while i < pe.len()
                            invariant
                                i <= pe@.len(),
                                params@.len() == i,
                                forall|k: int| 0 <= k < i ==> params@[k].0@ == pe@[k].0@
                                    && params@[k].1@ == pe@[k].1@,
                            decreases pe@.len() - i,
                        {
                            let k = pe[i].0.clone();
                            let pv = pe[i].1.deep_copy();
                            params.push((k, pv));
                            i += 1;
                        }
                        proof {
                            assert(spec_entries(params@) =~= spec_entries(pe@));
                        }
                    },
                    _ => {
                        proof {
                            assert(spec_entries(params@) =~= Seq::<(
                                Seq<char>,
                                JsonData,
                            )>::empty());
                        }
                    },
                }
            },
            None => {
                proof {
                    assert(spec_entries(params@) =~= Seq::<(Seq<char>, JsonData)>::empty());
                }
            },
        }
        let p = ProviderState { name, params };
        proof {
            assert(p@ =~= spec_ps_from_json(v@)->Some_0);
        }
        Some(p)
    }

    /// Looks a parameter up by name.
    pub fn param<'a>(&'a self, key: &str) -> (r: Option<&'a JsonValue>)
        ensures
            match r {
                Some(v) => spec_lookup(self@.params, key@) == Some(v@),
                None => spec_lookup(self@.params, key@) is None,
            },
    {
        crate::json::entries_get(&self.params, key)
    }
}

/// Structural equality of two provider states, decided on their models.
pub fn ps_eq(a: &ProviderState, b: &ProviderState) -> (r: bool)
    ensures
        r == (a@ == b@),
{
    let r = crate::strutil::str_eq(a.name.as_str(), b.name.as_str()) && crate::json::entries_eq(
        &a.params,
        &b.params,
    );
    proof {
        if r {
            assert(a@ =~= b@);
        }
    }
    r
}

} // verus!
