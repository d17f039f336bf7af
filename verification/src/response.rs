//! The HTTP response model and its builder: an explicit builder that
//! accumulates immutable fragments and assembles the response once, so no
//! half-built value is ever observable.

use vstd::prelude::*;
use crate::bodies::{Body, BodyData};
use crate::matchingrules::{MatchingRules, TableModel, RuleGroup, GroupModel, spec_category_view};
use crate::generators::{Generators, GenTableModel};

verus! {

/// The mathematical model of an HTTP response.
#[verifier::ext_equal]
pub ghost struct HttpResponseData {
    pub status: u16,
    pub headers: Seq<(Seq<char>, Seq<Seq<char>>)>,
    pub body: BodyData,
    pub matching_rules: TableModel,
    pub generators: GenTableModel,
}

/// An HTTP response: status, headers, body, matching rules and generators.
#[derive(Debug, PartialEq)]
pub struct HttpResponse {
    pub status: u16,
    pub headers: Vec<(String, Vec<String>)>,
    pub body: Body,
    pub matching_rules: MatchingRules,
    pub generators: Generators,
}

/// The model of a header list.
pub open spec fn spec_headers_view(s: Seq<(String, Vec<String>)>) -> Seq<(Seq<char>, Seq<Seq<char>>)> {
    Seq::new(
        s.len(),
        |i: int|
            if 0 <= i < s.len() {
                (s[i].0@, Seq::new(s[i].1@.len(), |j: int|
                    if 0 <= j < s[i].1@.len() {
                        s[i].1@[j]@
                    } else {
                        Seq::<char>::empty()
                    }))
            } else {
                (Seq::<char>::empty(), Seq::<Seq<char>>::empty())
            },
    )
}

impl View for HttpResponse {
    type V = HttpResponseData;

    open spec fn view(&self) -> HttpResponseData {
        HttpResponseData {
            status: self.status,
            headers: spec_headers_view(self.headers@),
            body: self.body@,
            matching_rules: self.matching_rules@,
            generators: self.generators@,
        }
    }
}

/// Builder for `HttpResponse` values. The status defaults to 200 OK; each
/// call records one fragment, and `build` assembles the final response.
#[derive(Debug)]
pub struct ResponseBuilder {
    response: HttpResponse,
}

impl ResponseBuilder {
    /// The response assembled so far.
    pub closed spec fn current(&self) -> HttpResponseData {
        self.response@
    }

    /// Sets the status code of the response.
    pub fn status(&mut self, status: u16)
        ensures
            final(self).current() == (HttpResponseData { status, ..old(self).current() }),
    {
        self.response.status = status;
    }

    /// Sets the status code to 200 OK, the default.
    pub fn ok(&mut self)
        ensures
            final(self).current() == (HttpResponseData { status: 200, ..old(self).current() }),
    {
        self.status(200)
    }

    /// Sets the status code to 201 Created.
    pub fn created(&mut self)
        ensures
            final(self).current() == (HttpResponseData { status: 201, ..old(self).current() }),
    {
        self.status(201)
    }

    /// Sets the status code to 204 No Content.
    pub fn no_content(&mut self)
        ensures
            final(self).current() == (HttpResponseData { status: 204, ..old(self).current() }),
    {
        self.status(204)
    }

    /// Sets the status code to 401 Unauthorized.
    pub fn unauthorized(&mut self)
        ensures
            final(self).current() == (HttpResponseData { status: 401, ..old(self).current() }),
    {
        self.status(401)
    }

    /// Sets the status code to 403 Forbidden.
    pub fn forbidden(&mut self)
        ensures
            final(self).current() == (HttpResponseData { status: 403, ..old(self).current() }),
    {
        self.status(403)
    }

    /// Sets the status code to 404 Not Found.
    pub fn not_found(&mut self)
        ensures
            final(self).current() == (HttpResponseData { status: 404, ..old(self).current() }),
    {
        self.status(404)
    }

    /// Adds one header value under the given name.
    pub fn header(&mut self, name: String, value: String)
        ensures
            final(self).current().status == old(self).current().status,
            final(self).current().body == old(self).current().body,
            final(self).current().headers == old(self).current().headers.push(
                (name@, seq![value@]),
            ),
    {
        let ghost nv = name@;
        let ghost vv = value@;
        let mut vs: Vec<String> = Vec::new();
        vs.push(value);
        self.response.headers.push((name, vs));
        proof {
            assert(spec_headers_view(self.response.headers@) =~~= old(
                self,
            ).current().headers.push((nv, seq![vv])));
        }
    }

    /// Sets the body of the response.
    pub fn body(&mut self, body: Body)
        ensures
            final(self).current() == (HttpResponseData { body: body@, ..old(self).current() }),
    {
        self.response.body = body;
    }

    /// Attaches a rule group to a path in a category of the matching rules.
    pub fn matching_rule(&mut self, category: String, path: String, group: RuleGroup)
        ensures
            final(self).current().status == old(self).current().status,
            final(self).current().body == old(self).current().body,
            final(self).current().headers == old(self).current().headers,
            final(self).current().matching_rules == old(
                self,
            ).current().matching_rules.push(
                (category@, seq![(path@, group@)]),
            ),
    {
        let mut paths: Vec<(String, RuleGroup)> = Vec::new();
        let ghost gv = group@;
        paths.push((path, group));
        proof {
            assert(spec_category_view(paths@) =~= seq![(paths@[0].0@, gv)]);
        }
        self.response.matching_rules.categories.push((category, paths));
        proof {
            let cs = self.response.matching_rules.categories@;
            assert(crate::matchingrules::spec_table_view(cs) =~= old(
                self,
            ).current().matching_rules.push((cs[cs.len() - 1].0@, spec_category_view(
                cs[cs.len() - 1].1@,
            ))));
        }
    }

    /// Assembles the response recorded so far.
    pub fn build(self) -> (r: HttpResponse)
        ensures
            r@ == self.current(),
    {
        self.response
    }
}

impl Default for ResponseBuilder {
    /// A builder holding the default response: 200 OK with nothing else.
    fn default() -> (r: ResponseBuilder)
        ensures
            r.current().status == 200,
            r.current().headers.len() == 0,
            r.current().body == BodyData::Missing,
            r.current().matching_rules.len() == 0,
            r.current().generators.len() == 0,
    {
        let r = ResponseBuilder {
            response: HttpResponse {
                status: 200,
                headers: Vec::new(),
                body: Body::Missing,
                matching_rules: MatchingRules::empty(),
                generators: Generators::empty(),
            },
        };
        proof {
            assert(spec_headers_view(r.response.headers@).len() == 0);
        }
        r
    }
}

} // verus!
