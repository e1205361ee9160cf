//! The normalised, renderer-ready model of an API description.

use crate::assoc::{
    assoc_map, distinct_keys, has_key, lemma_assoc_dom, lemma_assoc_insert, lemma_assoc_update,
    lemma_assoc_value,
};
use crate::text::{
    clone_opt_text, clone_texts, lemma_text_le_antisymmetric, lemma_text_le_total,
    lemma_text_lt_transitive, opt_text, str_eq, str_le, text_le, text_lt, texts,
};
use vstd::prelude::*;

verus! {

/// The verbs an operation can be declared for.
#[derive(Debug, Clone, Copy, PartialEq, Eq, Structural)]
pub enum HttpMethod {
    Get,
    Post,
    Put,
    Delete,
    Patch,
    Head,
    Options,
    Trace,
}

impl HttpMethod {
    /// The upper-case name of the verb.
    pub open spec fn label(self) -> Seq<char> {
        match self {
            HttpMethod::Get => "GET"@,
            HttpMethod::Post => "POST"@,
            HttpMethod::Put => "PUT"@,
            HttpMethod::Delete => "DELETE"@,
            HttpMethod::Patch => "PATCH"@,
            HttpMethod::Head => "HEAD"@,
            HttpMethod::Options => "OPTIONS"@,
            HttpMethod::Trace => "TRACE"@,
        }
    }

    /// The place of the verb in the display order
    /// GET, POST, PUT, PATCH, DELETE, HEAD, OPTIONS, TRACE.
    pub open spec fn rank(self) -> int {
        match self {
            HttpMethod::Get => 0,
            HttpMethod::Post => 1,
            HttpMethod::Put => 2,
            HttpMethod::Patch => 3,
            HttpMethod::Delete => 4,
            HttpMethod::Head => 5,
            HttpMethod::Options => 6,
            HttpMethod::Trace => 7,
        }
    }

    /// The verb's name as an owned string.
    pub fn to_string(&self) -> (s: String)
        ensures
            s@ == self.label(),
    {
        match self {
            HttpMethod::Get => "GET".to_owned(),
            HttpMethod::Post => "POST".to_owned(),
            HttpMethod::Put => "PUT".to_owned(),
            HttpMethod::Delete => "DELETE".to_owned(),
            HttpMethod::Patch => "PATCH".to_owned(),
            HttpMethod::Head => "HEAD".to_owned(),
            HttpMethod::Options => "OPTIONS".to_owned(),
            HttpMethod::Trace => "TRACE".to_owned(),
        }
    }
}

/// Where a parameter is carried in a request.
#[derive(Debug, Clone, Copy, PartialEq, Eq, Hash, Structural)]
pub enum ParameterLocation {
    Path,
    Query,
    Header,
    Cookie,
}

impl ParameterLocation {
    /// The lower-case name of the location.
    pub open spec fn label(self) -> Seq<char> {
        match self {
            ParameterLocation::Path => "path"@,
            ParameterLocation::Query => "query"@,
            ParameterLocation::Header => "header"@,
            ParameterLocation::Cookie => "cookie"@,
        }
    }

    /// The location's name as an owned string.
    pub fn to_string(&self) -> (s: String)
        ensures
            s@ == self.label(),
    {
        match self {
            ParameterLocation::Path => "path".to_owned(),
            ParameterLocation::Query => "query".to_owned(),
            ParameterLocation::Header => "header".to_owned(),
            ParameterLocation::Cookie => "cookie".to_owned(),
        }
    }
}

/// One parameter of an endpoint.
#[derive(Debug)]
pub struct Parameter {
    pub name: String,
    pub location: ParameterLocation,
    pub description: Option<String>,
    pub required: bool,
    pub schema_type: Option<String>,
}

/// What a [`Parameter`] holds.
pub struct ParameterView {
    pub name: Seq<char>,
    pub location: ParameterLocation,
    pub description: Option<Seq<char>>,
    pub required: bool,
    pub schema_type: Option<Seq<char>>,
}

impl View for Parameter {
    type V = ParameterView;

    open spec fn view(&self) -> ParameterView {
        ParameterView {
            name: self.name@,
            location: self.location,
            description: opt_text(self.description),
            required: self.required,
            schema_type: opt_text(self.schema_type),
        }
    }
}

impl Clone for Parameter {
    fn clone(&self) -> (r: Parameter)
        ensures
            r@ == self@,
    {
        Parameter {
            name: self.name.clone(),
            location: self.location,
            description: clone_opt_text(&self.description),
            required: self.required,
            schema_type: clone_opt_text(&self.schema_type),
        }
    }
}

impl ParameterView {
    /// The identity of a parameter within one endpoint.
    pub open spec fn key(self) -> (Seq<char>, ParameterLocation) {
        (self.name, self.location)
    }
}

/// The body an endpoint accepts.
#[derive(Debug)]
pub struct RequestBody {
    pub description: Option<String>,
    pub required: bool,
    pub content_types: Vec<String>,
    pub schema: Option<String>,
}

/// What a [`RequestBody`] holds.
pub struct RequestBodyView {
    pub description: Option<Seq<char>>,
    pub required: bool,
    pub content_types: Seq<Seq<char>>,
    pub schema: Option<Seq<char>>,
}

impl View for RequestBody {
    type V = RequestBodyView;

    open spec fn view(&self) -> RequestBodyView {
        RequestBodyView {
            description: opt_text(self.description),
            required: self.required,
            content_types: texts(self.content_types@),
            schema: opt_text(self.schema),
        }
    }
}

impl Clone for RequestBody {
    fn clone(&self) -> (r: RequestBody)
        ensures
            r@ == self@,
    {
        RequestBody {
            description: clone_opt_text(&self.description),
            required: self.required,
            content_types: clone_texts(&self.content_types),
            schema: clone_opt_text(&self.schema),
        }
    }
}

/// One response an endpoint can give.
#[derive(Debug)]
pub struct Response {
    pub description: String,
    pub content_types: Vec<String>,
    pub schema: Option<String>,
}

/// What a [`Response`] holds.
pub struct ResponseView {
    pub description: Seq<char>,
    pub content_types: Seq<Seq<char>>,
    pub schema: Option<Seq<char>>,
}

impl View for Response {
    type V = ResponseView;

    open spec fn view(&self) -> ResponseView {
        ResponseView {
            description: self.description@,
            content_types: texts(self.content_types@),
            schema: opt_text(self.schema),
        }
    }
}

impl Clone for Response {
    fn clone(&self) -> (r: Response)
        ensures
            r@ == self@,
    {
        Response {
            description: self.description.clone(),
            content_types: clone_texts(&self.content_types),
            schema: clone_opt_text(&self.schema),
        }
    }
}

/// In `s` the status labels ascend strictly.
pub open spec fn ascending_labels(s: Seq<(Seq<char>, ResponseView)>) -> bool {
    forall|i: int, j: int| 0 <= i < j < s.len() ==> text_lt((#[trigger] s[i]).0, (#[trigger] s[j]).0)
}

/// A list with ascending labels has no label twice.
pub proof fn lemma_ascending_distinct(s: Seq<(Seq<char>, ResponseView)>)
    requires
        ascending_labels(s),
    ensures
        distinct_keys(s),
{
}

/// The tail of an ascending list stands for the list's map without the
/// first label.
proof fn lemma_tail_map(s: Seq<(Seq<char>, ResponseView)>)
    requires
        ascending_labels(s),
        s.len() > 0,
    ensures
        ascending_labels(s.drop_first()),
        assoc_map(s.drop_first()) == assoc_map(s).remove(s[0].0),
{
    let t = s.drop_first();
    let m = assoc_map(s).remove(s[0].0);
    assert forall|i: int, j: int| 0 <= i < j < t.len() implies text_lt(
        (#[trigger] t[i]).0,
        (#[trigger] t[j]).0,
    ) by {
        assert(t[i] == s[i + 1] && t[j] == s[j + 1]);
    }
    lemma_assoc_dom(s);
    lemma_assoc_dom(t);
    assert forall|q: Seq<char>| assoc_map(t).dom().contains(q) <==> m.dom().contains(q) by {
        if has_key(t, q) {
            let i = choose|i: int| 0 <= i < t.len() && (#[trigger] t[i]).0 == q;
            assert(t[i] == s[i + 1]);
            assert(text_lt(s[0].0, s[i + 1].0));
            assert(has_key(s, q));
        }
        if has_key(s, q) && q != s[0].0 {
            let i = choose|i: int| 0 <= i < s.len() && (#[trigger] s[i]).0 == q;
            assert(t[i - 1] == s[i]);
            assert(has_key(t, q));
        }
    }
    assert forall|q: Seq<char>| assoc_map(t).dom().contains(q) implies assoc_map(t)[q]
        == m[q] by {
        let i = choose|i: int| 0 <= i < t.len() && (#[trigger] t[i]).0 == q;
        assert(t[i] == s[i + 1]);
        lemma_assoc_value(t, i);
        lemma_assoc_value(s, i + 1);
    }
    assert(assoc_map(t) =~= m);
}

/// The map decides the list: two lists with ascending labels that stand
/// for one map are equal.
pub proof fn lemma_listing_determined(
    a: Seq<(Seq<char>, ResponseView)>,
    b: Seq<(Seq<char>, ResponseView)>,
)
    requires
        ascending_labels(a),
        ascending_labels(b),
        assoc_map(a) == assoc_map(b),
    ensures
        a == b,
    decreases a.len(),
{
    lemma_assoc_dom(a);
    lemma_assoc_dom(b);
    if a.len() == 0 {
        if b.len() > 0 {
            assert(has_key(b, b[0].0));
            assert(assoc_map(b).dom().contains(b[0].0));
            assert(has_key(a, b[0].0));
        }
        assert(a =~= b);
    } else {
        assert(has_key(a, a[0].0));
        assert(assoc_map(a).dom().contains(a[0].0));
        assert(assoc_map(b).dom().contains(a[0].0));
        assert(has_key(b, a[0].0));
        let j = choose|j: int| 0 <= j < b.len() && (#[trigger] b[j]).0 == a[0].0;
        assert(has_key(b, b[0].0));
        assert(assoc_map(b).dom().contains(b[0].0));
        assert(assoc_map(a).dom().contains(b[0].0));
        assert(has_key(a, b[0].0));
        let i = choose|i: int| 0 <= i < a.len() && (#[trigger] a[i]).0 == b[0].0;
        if i > 0 && j > 0 {
            assert(text_lt(a[0].0, a[i].0));
            assert(text_lt(b[0].0, b[j].0));
            lemma_text_le_antisymmetric(a[0].0, b[0].0);
        }
        if i > 0 && j == 0 {
            assert(text_lt(a[0].0, a[i].0));
        }
        if i == 0 && j > 0 {
            assert(text_lt(b[0].0, b[j].0));
        }
        assert(a[0].0 == b[0].0);
        lemma_assoc_value(a, 0);
        lemma_assoc_value(b, 0);
        assert(a[0] == b[0]);
        lemma_tail_map(a);
        lemma_tail_map(b);
        lemma_listing_determined(a.drop_first(), b.drop_first());
        assert(a =~= seq![a[0]] + a.drop_first());
        assert(b =~= seq![b[0]] + b.drop_first());
    }
}

/// The responses of one endpoint, keyed by status label and kept in
/// ascending order of the labels.
#[derive(Debug)]
pub struct ResponseTable {
    entries: Vec<(String, Response)>,
}

impl Clone for ResponseTable {
    fn clone(&self) -> (r: ResponseTable)
        ensures
            r.listing() == self.listing(),
            r@ == self@,
    {
        proof {
            use_type_invariant(self);
        }
        let mut entries: Vec<(String, Response)> = Vec::new();
        let mut i: usize = 0;
        while i < self.entries.len()
            invariant
                i <= self.entries.len(),
                entries@.len() == i,
                self.listing().len() == self.entries.len(),
                pair_views(entries@) == self.listing().take(i as int),
            decreases self.entries.len() - i,
        {
            let ghost earlier = entries@;
            let label = self.entries[i].0.clone();
            let response = self.entries[i].1.clone();
            entries.push((label, response));
            assert forall|j: int| 0 <= j < i + 1 implies pair_views(entries@)[j]
                == self.listing()[j] by {
                if j < i {
                    assert(entries@[j] == earlier[j]);
                    assert(pair_views(earlier)[j] == self.listing().take(i as int)[j]);
                }
            }
            assert(pair_views(entries@) =~= self.listing().take(i + 1));
            i = i + 1;
        }
        assert(self.listing().take(self.entries.len() as int) =~= self.listing());
        ResponseTable { entries }
    }
}

/// What a list of labelled responses holds.
pub open spec fn pair_views(s: Seq<(String, Response)>) -> Seq<(Seq<char>, ResponseView)> {
    s.map_values(|e: (String, Response)| (e.0@, e.1@))
}

impl View for ResponseTable {
    type V = Map<Seq<char>, ResponseView>;

    open spec fn view(&self) -> Map<Seq<char>, ResponseView> {
        assoc_map(self.listing())
    }
}

impl ResponseTable {
    /// The labels ascend strictly: the table holds each label once.
    #[verifier::type_invariant]
    spec fn ordered(&self) -> bool {
        ascending_labels(self.listing())
    }

    /// The entries in the order in which the table holds them.
    pub closed spec fn listing(&self) -> Seq<(Seq<char>, ResponseView)> {
        pair_views(self.entries@)
    }

    /// The empty table.
    pub fn new() -> (t: ResponseTable)
        ensures
            t@ == Map::<Seq<char>, ResponseView>::empty(),
            t.listing() == Seq::<(Seq<char>, ResponseView)>::empty(),
    {
        let t = ResponseTable { entries: Vec::new() };
        assert(t.listing() =~= Seq::empty());
        t
    }

    /// The number of entries.
    pub fn len(&self) -> (n: usize)
        ensures
            n == self.listing().len(),
    {
        self.entries.len()
    }

    /// Whether the table has no entry.
    pub fn is_empty(&self) -> (b: bool)
        ensures
            b == (self.listing().len() == 0),
    {
        self.entries.len() == 0
    }

    /// The entries, in ascending order of their labels.
    pub fn entries(&self) -> (v: &Vec<(String, Response)>)
        ensures
            pair_views(v@) == self.listing(),
            ascending_labels(self.listing()),
            distinct_keys(self.listing()),
    {
        proof {
            use_type_invariant(self);
        }
        &self.entries
    }

    /// The position of the first entry whose label is not below `key`.
    fn position(&self, key: &str) -> (i: usize)
        ensures
            i <= self.listing().len(),
            forall|j: int| 0 <= j < i ==> text_lt((#[trigger] self.listing()[j]).0, key@),
            i < self.listing().len() ==> text_le(key@, self.listing()[i as int].0),
    {
        let mut i: usize = 0;
        while i < self.entries.len()
            invariant
                i <= self.entries.len(),
                self.entries.len() == self.listing().len(),
                forall|j: int| 0 <= j < i ==> text_lt((#[trigger] self.listing()[j]).0, key@),
            decreases self.entries.len() - i,
        {
            if str_le(key, self.entries[i].0.as_str()) {
                return i;
            }
            proof {
                lemma_text_le_total(key@, self.listing()[i as int].0);
            }
            i = i + 1;
        }
        i
    }

    /// Looks a status label up.
    pub fn get(&self, key: &str) -> (r: Option<&Response>)
        ensures
            match r {
                Some(v) => self@.dom().contains(key@) && self@[key@] == v@,
                None => !self@.dom().contains(key@),
            },
    {
        proof {
            use_type_invariant(self);
            lemma_assoc_dom(self.listing());
        }
        let i = self.position(key);
        if i < self.entries.len() && str_eq(self.entries[i].0.as_str(), key) {
            proof {
                lemma_assoc_value(self.listing(), i as int);
            }
            Some(&self.entries[i].1)
        } else {
            proof {
                if has_key(self.listing(), key@) {
                    let j = choose|j: int|
                        0 <= j < self.listing().len() && (#[trigger] self.listing()[j]).0 == key@;
                    if j > i {
                        lemma_text_le_antisymmetric(key@, self.listing()[i as int].0);
                    }
                }
            }
            None
        }
    }

    /// Whether the table has an entry for a status label.
    pub fn contains_key(&self, key: &str) -> (b: bool)
        ensures
            b == self@.dom().contains(key@),
    {
        self.get(key).is_some()
    }

    /// Sets the response for a status label and returns the response that
    /// the label had before, if it had one.
    pub fn insert(&mut self, key: String, value: Response) -> (r: Option<Response>)
        ensures
            final(self)@ == old(self)@.insert(key@, value@),
            match r {
                Some(v) => old(self)@.dom().contains(key@) && old(self)@[key@] == v@,
                None => !old(self)@.dom().contains(key@),
            },
    {
        proof {
            use_type_invariant(&*self);
            lemma_assoc_dom(self.listing());
        }
        let ghost before = self.listing();
        let i = self.position(key.as_str());
        let replaces = i < self.entries.len() && str_eq(
            self.entries[i].0.as_str(),
            key.as_str(),
        );
        let mut entries: Vec<(String, Response)> = Vec::new();
        std::mem::swap(&mut self.entries, &mut entries);
        if replaces {
            let previous = entries.remove(i);
            entries.insert(i, (key, value));
            proof {
                let after = pair_views(entries@);
                assert(after =~= before.update(i as int, (before[i as int].0, value@)));
                lemma_assoc_update(before, i as int, value@);
                lemma_assoc_value(before, i as int);
                assert(previous.1@ == before[i as int].1);
                assert forall|a: int, b: int| 0 <= a < b < after.len() implies text_lt(
                    (#[trigger] after[a]).0,
                    (#[trigger] after[b]).0,
                ) by {
                    assert(after[a].0 == before[a].0);
                    assert(after[b].0 == before[b].0);
                }
            }
            self.entries = entries;
            Some(previous.1)
        } else {
            entries.insert(i, (key, value));
            proof {
                let after = pair_views(entries@);
                if has_key(before, key@) {
                    let j = choose|j: int| 0 <= j < before.len() && (#[trigger] before[j]).0 == key@;
                    if j > i {
                        lemma_text_le_antisymmetric(key@, before[i as int].0);
                    }
                }
                assert(after =~= before.insert(i as int, (key@, value@)));
                lemma_assoc_insert(before, i as int, key@, value@);
                assert forall|a: int, b: int| 0 <= a < b < after.len() implies text_lt(
                    (#[trigger] after[a]).0,
                    (#[trigger] after[b]).0,
                ) by {
                    let a0 = if a < i { a } else { a - 1 };
                    let b0 = if b < i { b } else { b - 1 };
                    if a == i {
                        assert(after[b] == before[b0]);
                        if b0 > i {
                            lemma_text_lt_transitive(key@, before[i as int].0, before[b0].0);
                        }
                    } else if b == i {
                        assert(after[a] == before[a0]);
                    } else {
                        assert(after[a] == before[a0]);
                        assert(after[b] == before[b0]);
                    }
                }
            }
            self.entries = entries;
            None
        }
    }
}

/// One operation of the API: a verb on a path.
#[derive(Debug)]
pub struct Endpoint {
    pub method: HttpMethod,
    pub path: String,
    pub summary: Option<String>,
    pub description: Option<String>,
    pub operation_id: Option<String>,
    pub tags: Vec<String>,
    pub parameters: Vec<Parameter>,
    pub request_body: Option<RequestBody>,
    pub responses: ResponseTable,
}

/// What an [`Endpoint`] holds.
pub struct EndpointView {
    pub method: HttpMethod,
    pub path: Seq<char>,
    pub summary: Option<Seq<char>>,
    pub description: Option<Seq<char>>,
    pub operation_id: Option<Seq<char>>,
    pub tags: Seq<Seq<char>>,
    pub parameters: Seq<ParameterView>,
    pub request_body: Option<RequestBodyView>,
    pub responses: Map<Seq<char>, ResponseView>,
}

impl View for Endpoint {
    type V = EndpointView;

    open spec fn view(&self) -> EndpointView {
        EndpointView {
            method: self.method,
            path: self.path@,
            summary: opt_text(self.summary),
            description: opt_text(self.description),
            operation_id: opt_text(self.operation_id),
            tags: texts(self.tags@),
            parameters: parameter_views(self.parameters@),
            request_body: opt_body(self.request_body),
            responses: self.responses@,
        }
    }
}

impl Clone for Endpoint {
    fn clone(&self) -> (r: Endpoint)
        ensures
            r@ == self@,
            r.responses.listing() == self.responses.listing(),
    {
        let mut parameters: Vec<Parameter> = Vec::new();
        let mut i: usize = 0;
        while i < self.parameters.len()
            invariant
                i <= self.parameters.len(),
                parameters@.len() == i,
                forall|j: int| 0 <= j < i ==> (#[trigger] parameters@[j])@ == self.parameters@[j]@,
            decreases self.parameters.len() - i,
        {
            parameters.push(self.parameters[i].clone());
            i = i + 1;
        }
        assert(parameter_views(parameters@) =~= parameter_views(self.parameters@));
        Endpoint {
            method: self.method,
            path: self.path.clone(),
            summary: clone_opt_text(&self.summary),
            description: clone_opt_text(&self.description),
            operation_id: clone_opt_text(&self.operation_id),
            tags: clone_texts(&self.tags),
            parameters,
            request_body: match &self.request_body {
                Some(body) => Some(body.clone()),
                None => None,
            },
            responses: self.responses.clone(),
        }
    }
}

/// A whole API description after normalisation.
#[derive(Debug)]
pub struct ApiSpec {
    pub title: String,
    pub version: String,
    pub description: Option<String>,
    pub endpoints: Vec<Endpoint>,
}

impl Clone for ApiSpec {
    fn clone(&self) -> (r: ApiSpec)
        ensures
            r@ == self@,
    {
        let mut endpoints: Vec<Endpoint> = Vec::new();
        let mut i: usize = 0;
        while i < self.endpoints.len()
            invariant
                i <= self.endpoints.len(),
                endpoints@.len() == i,
                forall|j: int| 0 <= j < i ==> (#[trigger] endpoints@[j])@ == self.endpoints@[j]@,
            decreases self.endpoints.len() - i,
        {
            endpoints.push(self.endpoints[i].clone());
            i = i + 1;
        }
        assert(endpoint_views(endpoints@) =~= endpoint_views(self.endpoints@));
        ApiSpec {
            title: self.title.clone(),
            version: self.version.clone(),
            description: clone_opt_text(&self.description),
            endpoints,
        }
    }
}

/// What an [`ApiSpec`] holds.
pub struct ApiSpecView {
    pub title: Seq<char>,
    pub version: Seq<char>,
    pub description: Option<Seq<char>>,
    pub endpoints: Seq<EndpointView>,
}

impl View for ApiSpec {
    type V = ApiSpecView;

    open spec fn view(&self) -> ApiSpecView {
        ApiSpecView {
            title: self.title@,
            version: self.version@,
            description: opt_text(self.description),
            endpoints: endpoint_views(self.endpoints@),
        }
    }
}

/// The views of a sequence of parameters.
pub open spec fn parameter_views(s: Seq<Parameter>) -> Seq<ParameterView> {
    s.map_values(|p: Parameter| p@)
}

/// The view of an optional request body.
pub open spec fn opt_body(b: Option<RequestBody>) -> Option<RequestBodyView> {
    match b {
        Some(b) => Some(b@),
        None => None,
    }
}

/// The views of a sequence of endpoints.
pub open spec fn endpoint_views(s: Seq<Endpoint>) -> Seq<EndpointView> {
    s.map_values(|e: Endpoint| e@)
}

} // verus!
