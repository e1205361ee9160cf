//! Normalisation: from a description as written to the flat, sorted list of
//! endpoints.

use crate::document::{
    Components, Document, MediaDecl, OperationDecl, ParameterDecl, PathDecl, PathItemDecl,
    ReferenceOr, RequestBodyDecl, ResponseDecl, StatusDecl, StatusKey,
};
use crate::model::{
    endpoint_views, parameter_views, ApiSpec, ApiSpecView, Endpoint, EndpointView, HttpMethod,
    Parameter, ParameterLocation, ParameterView, RequestBody, RequestBodyView, Response,
    ResponseTable, ResponseView,
};
use crate::parameters::{distinct_parameters, lemma_merged_parameters};
use crate::resolve::{
    resolve_parameter, resolve_request_body, resolve_response, resolved_parameter,
    resolved_request_body, resolved_response, schema_type_to_string, summarized,
};
use crate::sorting::{
    lemma_sorted_len, lemma_sorted_ordered, ordered, sort_endpoints, sorted_endpoints,
};
use crate::text::{
    clone_opt_text, clone_texts, decimal, decimal_text, opt_text, str_eq, string_push, texts,
};
use vstd::prelude::*;

verus! {

/// The content types of a content mapping, in declaration order.
pub open spec fn content_types(content: Seq<MediaDecl>) -> Seq<Seq<char>> {
    content.map_values(|m: MediaDecl| m.content_type@)
}

/// The label of a content mapping: that of the schema of its first entry.
pub open spec fn content_summary(content: Seq<MediaDecl>) -> Option<Seq<char>> {
    if content.len() == 0 {
        None
    } else {
        match content[0].schema {
            Some(schema) => summarized(schema),
            None => None,
        }
    }
}

/// Lists the content types of a content mapping.
pub fn collect_content_types(content: &Vec<MediaDecl>) -> (r: Vec<String>)
    ensures
        texts(r@) == content_types(content@),
{
    let mut r: Vec<String> = Vec::new();
    let mut i: usize = 0;
    while i < content.len()
        invariant
            i <= content.len(),
            r@.len() == i,
            forall|j: int| 0 <= j < i ==> (#[trigger] r@[j])@ == content@[j].content_type@,
        decreases content.len() - i,
    {
        r.push(content[i].content_type.clone());
        i = i + 1;
    }
    assert(texts(r@) =~= content_types(content@));
    r
}

/// Summarises the first entry of a content mapping.
pub fn summarize_content(content: &Vec<MediaDecl>) -> (r: Option<String>)
    ensures
        opt_text(r) == content_summary(content@),
{
    if content.len() == 0 {
        None
    } else {
        match &content[0].schema {
            Some(schema) => schema_type_to_string(schema),
            None => None,
        }
    }
}

/// The summary of a declared response.
pub open spec fn response_view(decl: ResponseDecl) -> ResponseView {
    ResponseView {
        description: decl.description@,
        content_types: content_types(decl.content@),
        schema: content_summary(decl.content@),
    }
}

/// The summary of a declared request body.
pub open spec fn request_body_view(decl: RequestBodyDecl) -> RequestBodyView {
    RequestBodyView {
        description: opt_text(decl.description),
        required: decl.required,
        content_types: content_types(decl.content@),
        schema: content_summary(decl.content@),
    }
}

/// The parameter a declaration describes.
pub open spec fn parameter_view(decl: ParameterDecl) -> ParameterView {
    ParameterView {
        name: decl.name@,
        location: decl.location,
        description: opt_text(decl.description),
        required: decl.required,
        schema_type: match decl.schema {
            Some(schema) => summarized(schema),
            None => None,
        },
    }
}

/// Summarises a declared response.
pub fn convert_response(resp: &ResponseDecl) -> (r: Response)
    ensures
        r@ == response_view(*resp),
{
    Response {
        description: resp.description.clone(),
        content_types: collect_content_types(&resp.content),
        schema: summarize_content(&resp.content),
    }
}

/// Summarises a declared request body.
pub fn convert_request_body(body: &RequestBodyDecl) -> (r: RequestBody)
    ensures
        r@ == request_body_view(*body),
{
    RequestBody {
        description: clone_opt_text(&body.description),
        required: body.required,
        content_types: collect_content_types(&body.content),
        schema: summarize_content(&body.content),
    }
}

/// The parameter a possibly-referenced declaration contributes, if it
/// resolves.
pub open spec fn parameter_of(
    r: ReferenceOr<ParameterDecl>,
    components: Option<Components>,
) -> Option<ParameterView> {
    match resolved_parameter(r, components) {
        Some(decl) => Some(parameter_view(decl)),
        None => None,
    }
}

/// Resolves and converts one declared parameter.
pub fn convert_parameter(
    param: &ReferenceOr<ParameterDecl>,
    components: &Option<Components>,
) -> (r: Option<Parameter>)
    ensures
        match r {
            Some(p) => parameter_of(*param, *components) == Some(p@),
            None => parameter_of(*param, *components).is_none(),
        },
{
    match resolve_parameter(param, components) {
        Some(decl) => {
            let schema_type = match &decl.schema {
                Some(schema) => schema_type_to_string(schema),
                None => None,
            };
            Some(
                Parameter {
                    name: decl.name.clone(),
                    location: decl.location,
                    description: clone_opt_text(&decl.description),
                    required: decl.required,
                    schema_type,
                },
            )
        },
        None => None,
    }
}

/// The position of the first parameter of `s` with the key `k`, or the
/// length of `s` when there is none.
pub open spec fn index_of_key(s: Seq<ParameterView>, k: (Seq<char>, ParameterLocation)) -> int
    decreases s.len(),
{
    if s.len() == 0 {
        0
    } else if s[0].key() == k {
        0
    } else {
        1 + index_of_key(s.drop_first(), k)
    }
}

/// `s` with `p` written into it: `p` takes the place of the parameter with
/// its key, or comes last when `s` has none.
pub open spec fn upsert(s: Seq<ParameterView>, p: ParameterView) -> Seq<ParameterView> {
    let i = index_of_key(s, p.key());
    if i < s.len() {
        s.update(i, p)
    } else {
        s.push(p)
    }
}

/// `acc` after the declarations of `decls` that resolve were written into
/// it, first to last.
pub open spec fn merge_into(
    acc: Seq<ParameterView>,
    decls: Seq<ReferenceOr<ParameterDecl>>,
    components: Option<Components>,
) -> Seq<ParameterView>
    decreases decls.len(),
{
    if decls.len() == 0 {
        acc
    } else {
        let earlier = merge_into(acc, decls.drop_last(), components);
        match parameter_of(decls.last(), components) {
            Some(p) => upsert(earlier, p),
            None => earlier,
        }
    }
}

/// The parameters of an operation: those of its path, overridden and
/// extended by its own.
pub open spec fn merged_parameters(
    path_params: Seq<ReferenceOr<ParameterDecl>>,
    op_params: Seq<ReferenceOr<ParameterDecl>>,
    components: Option<Components>,
) -> Seq<ParameterView> {
    merge_into(merge_into(Seq::empty(), path_params, components), op_params, components)
}

/// Finds the first parameter with the name and location of `p`.
fn find_parameter(params: &Vec<Parameter>, p: &Parameter) -> (i: usize)
    ensures
        i == index_of_key(parameter_views(params@), p@.key()),
        i <= params.len(),
{
    let ghost views = parameter_views(params@);
    let mut i: usize = 0;
    assert(views.skip(0) =~= views);
    while i < params.len()
        invariant
            i <= params.len(),
            views == parameter_views(params@),
            index_of_key(views, p@.key()) == i + index_of_key(views.skip(i as int), p@.key()),
        decreases params.len() - i,
    {
        assert(views.skip(i as int)[0] == params@[i as int]@);
        if params[i].location == p.location && str_eq(params[i].name.as_str(), p.name.as_str()) {
            return i;
        }
        assert(views.skip(i as int).drop_first() =~= views.skip(i + 1));
        i = i + 1;
    }
    assert(views.skip(i as int).len() == 0);
    i
}

/// Writes one parameter into a parameter list.
pub fn upsert_parameter(params: &mut Vec<Parameter>, p: Parameter)
    ensures
        parameter_views(final(params)@) == upsert(parameter_views(old(params)@), p@),
{
    let i = find_parameter(params, &p);
    let ghost before = parameter_views(params@);
    if i < params.len() {
        params.set(i, p);
        assert(parameter_views(params@) =~= before.update(i as int, p@));
    } else {
        params.push(p);
        assert(parameter_views(params@) =~= before.push(p@));
    }
}

/// Writes the declarations that resolve into a parameter list, in order.
pub fn merge_parameters(
    params: &mut Vec<Parameter>,
    decls: &Vec<ReferenceOr<ParameterDecl>>,
    components: &Option<Components>,
)
    ensures
        parameter_views(final(params)@) == merge_into(
            parameter_views(old(params)@),
            decls@,
            *components,
        ),
{
    let ghost start = parameter_views(params@);
    let mut i: usize = 0;
    while i < decls.len()
        invariant
            i <= decls.len(),
            parameter_views(params@) == merge_into(start, decls@.take(i as int), *components),
        decreases decls.len() - i,
    {
        assert(decls@.take(i + 1).drop_last() =~= decls@.take(i as int));
        assert(decls@.take(i + 1).last() == decls@[i as int]);
        match convert_parameter(&decls[i], components) {
            Some(p) => upsert_parameter(params, p),
            None => {},
        }
        i = i + 1;
    }
    assert(decls@.take(decls.len() as int) =~= decls@);
}

/// The label a response is stored under: a code in decimal, or the leading
/// digit of a range followed by `XX`.
pub open spec fn status_text(status: StatusKey) -> Seq<char> {
    match status {
        StatusKey::Code(code) => decimal(code as nat),
        StatusKey::Range(digit) => decimal(digit as nat).push('X').push('X'),
    }
}

/// The label the default response is stored under.
pub open spec fn default_label() -> Seq<char> {
    "default"@
}

/// Formats a status as the label it is stored under.
pub fn status_label(status: &StatusKey) -> (s: String)
    ensures
        s@ == status_text(*status),
{
    match status {
        StatusKey::Code(code) => decimal_text(*code as usize),
        StatusKey::Range(digit) => {
            let mut s = decimal_text(*digit as usize);
            string_push(&mut s, 'X');
            string_push(&mut s, 'X');
            s
        },
    }
}

/// The summary a possibly-referenced response contributes, if it resolves.
pub open spec fn response_of(
    r: ReferenceOr<ResponseDecl>,
    components: Option<Components>,
) -> Option<ResponseView> {
    match resolved_response(r, components) {
        Some(decl) => Some(response_view(decl)),
        None => None,
    }
}

/// The responses declared for statuses: each one that resolves, under the
/// label of its status; an unresolved one leaves no entry.
pub open spec fn status_responses(
    decls: Seq<StatusDecl>,
    components: Option<Components>,
) -> Map<Seq<char>, ResponseView>
    decreases decls.len(),
{
    if decls.len() == 0 {
        Map::empty()
    } else {
        let earlier = status_responses(decls.drop_last(), components);
        match response_of(decls.last().response, components) {
            Some(v) => earlier.insert(status_text(decls.last().status), v),
            None => earlier,
        }
    }
}

/// All responses of an operation: those declared for statuses and, under
/// `default`, the default response if it is declared and resolves.
pub open spec fn operation_responses(
    op: OperationDecl,
    components: Option<Components>,
) -> Map<Seq<char>, ResponseView> {
    let declared = status_responses(op.responses@, components);
    match op.default_response {
        Some(r) => match response_of(r, components) {
            Some(v) => declared.insert(default_label(), v),
            None => declared,
        },
        None => declared,
    }
}

/// Builds the response table of an operation.
pub fn collect_responses(op: &OperationDecl, components: &Option<Components>) -> (table:
    ResponseTable)
    ensures
        table@ == operation_responses(*op, *components),
{
    let mut table = ResponseTable::new();
    let mut i: usize = 0;
    assert(op.responses@.take(0) =~= Seq::empty());
    while i < op.responses.len()
        invariant
            i <= op.responses.len(),
            table@ == status_responses(op.responses@.take(i as int), *components),
        decreases op.responses.len() - i,
    {
        assert(op.responses@.take(i + 1).drop_last() =~= op.responses@.take(i as int));
        assert(op.responses@.take(i + 1).last() == op.responses@[i as int]);
        match resolve_response(&op.responses[i].response, components) {
            Some(decl) => {
                let label = status_label(&op.responses[i].status);
                table.insert(label, convert_response(decl));
            },
            None => {},
        }
        i = i + 1;
    }
    assert(op.responses@.take(op.responses.len() as int) =~= op.responses@);
    match &op.default_response {
        Some(r) => {
            match resolve_response(r, components) {
                Some(decl) => {
                    table.insert("default".to_owned(), convert_response(decl));
                },
                None => {},
            }
        },
        None => {},
    }
    table
}

/// The request body of an operation, if one is declared and resolves.
pub open spec fn operation_body(
    op: OperationDecl,
    components: Option<Components>,
) -> Option<RequestBodyView> {
    match op.request_body {
        Some(r) => match resolved_request_body(r, components) {
            Some(decl) => Some(request_body_view(decl)),
            None => None,
        },
        None => None,
    }
}

/// The endpoint record of one operation declared under a path.
pub open spec fn endpoint_of(
    path: Seq<char>,
    method: HttpMethod,
    op: OperationDecl,
    path_params: Seq<ReferenceOr<ParameterDecl>>,
    components: Option<Components>,
) -> EndpointView {
    EndpointView {
        method,
        path,
        summary: opt_text(op.summary),
        description: opt_text(op.description),
        operation_id: opt_text(op.operation_id),
        tags: texts(op.tags@),
        parameters: merged_parameters(path_params, op.parameters@, components),
        request_body: operation_body(op, components),
        responses: operation_responses(op, components),
    }
}

/// Builds the endpoint record of one operation.
pub fn convert_operation(
    path: &str,
    method: HttpMethod,
    op: &OperationDecl,
    path_params: &Vec<ReferenceOr<ParameterDecl>>,
    components: &Option<Components>,
) -> (endpoint: Endpoint)
    ensures
        endpoint@ == endpoint_of(path@, method, *op, path_params@, *components),
        distinct_parameters(endpoint@.parameters),
{
    proof {
        lemma_merged_parameters(path_params@, op.parameters@, *components);
    }
    let mut parameters: Vec<Parameter> = Vec::new();
    assert(parameter_views(parameters@) =~= Seq::empty());
    merge_parameters(&mut parameters, path_params, components);
    merge_parameters(&mut parameters, &op.parameters, components);

    let request_body = match &op.request_body {
        Some(r) => match resolve_request_body(r, components) {
            Some(decl) => Some(convert_request_body(decl)),
            None => None,
        },
        None => None,
    };

    let responses = collect_responses(op, components);

    Endpoint {
        method,
        path: path.to_owned(),
        summary: clone_opt_text(&op.summary),
        description: clone_opt_text(&op.description),
        operation_id: clone_opt_text(&op.operation_id),
        tags: clone_texts(&op.tags),
        parameters,
        request_body,
        responses,
    }
}

/// The endpoint a verb's slot of a path contributes: one record when an
/// operation is declared in it, none otherwise.
pub open spec fn slot_endpoints(
    path: Seq<char>,
    method: HttpMethod,
    slot: Option<OperationDecl>,
    path_params: Seq<ReferenceOr<ParameterDecl>>,
    components: Option<Components>,
) -> Seq<EndpointView> {
    match slot {
        Some(op) => seq![endpoint_of(path, method, op, path_params, components)],
        None => Seq::empty(),
    }
}

/// The endpoints of one path, one for each verb with a declared operation.
pub open spec fn item_endpoints(
    path: Seq<char>,
    item: PathItemDecl,
    components: Option<Components>,
) -> Seq<EndpointView> {
    let p = item.parameters@;
    slot_endpoints(path, HttpMethod::Get, item.get, p, components) + slot_endpoints(
        path,
        HttpMethod::Post,
        item.post,
        p,
        components,
    ) + slot_endpoints(path, HttpMethod::Put, item.put, p, components) + slot_endpoints(
        path,
        HttpMethod::Delete,
        item.delete,
        p,
        components,
    ) + slot_endpoints(path, HttpMethod::Patch, item.patch, p, components) + slot_endpoints(
        path,
        HttpMethod::Head,
        item.head,
        p,
        components,
    ) + slot_endpoints(path, HttpMethod::Options, item.options, p, components) + slot_endpoints(
        path,
        HttpMethod::Trace,
        item.trace,
        p,
        components,
    )
}

/// Appends the endpoint of one verb's slot, if an operation is declared in
/// it.
fn push_operation(
    endpoints: &mut Vec<Endpoint>,
    path: &str,
    method: HttpMethod,
    slot: &Option<OperationDecl>,
    path_params: &Vec<ReferenceOr<ParameterDecl>>,
    components: &Option<Components>,
)
    ensures
        endpoint_views(final(endpoints)@) == endpoint_views(old(endpoints)@) + slot_endpoints(
            path@,
            method,
            *slot,
            path_params@,
            *components,
        ),
{
    let ghost before = endpoint_views(endpoints@);
    match slot {
        Some(op) => {
            let endpoint = convert_operation(path, method, op, path_params, components);
            endpoints.push(endpoint);
            assert(endpoint_views(endpoints@) =~= before + seq![endpoint@]);
        },
        None => {
            assert(before =~= before + Seq::<EndpointView>::empty());
        },
    }
}

/// Builds the endpoints of one path.
pub fn extract_endpoints(path: &str, item: &PathItemDecl, components: &Option<Components>) -> (r:
    Vec<Endpoint>)
    ensures
        endpoint_views(r@) == item_endpoints(path@, *item, *components),
{
    let mut endpoints: Vec<Endpoint> = Vec::new();
    assert(endpoint_views(endpoints@) =~= Seq::empty());
    let params = &item.parameters;
    push_operation(&mut endpoints, path, HttpMethod::Get, &item.get, params, components);
    assert(endpoint_views(endpoints@) =~= slot_endpoints(
        path@,
        HttpMethod::Get,
        item.get,
        params@,
        *components,
    ));
    push_operation(&mut endpoints, path, HttpMethod::Post, &item.post, params, components);
    push_operation(&mut endpoints, path, HttpMethod::Put, &item.put, params, components);
    push_operation(&mut endpoints, path, HttpMethod::Delete, &item.delete, params, components);
    push_operation(&mut endpoints, path, HttpMethod::Patch, &item.patch, params, components);
    push_operation(&mut endpoints, path, HttpMethod::Head, &item.head, params, components);
    push_operation(&mut endpoints, path, HttpMethod::Options, &item.options, params, components);
    push_operation(&mut endpoints, path, HttpMethod::Trace, &item.trace, params, components);
    endpoints
}

/// The endpoints a path table declares, path by path; a path whose item is
/// a reference contributes none.
pub open spec fn declared_endpoints(
    paths: Seq<PathDecl>,
    components: Option<Components>,
) -> Seq<EndpointView>
    decreases paths.len(),
{
    if paths.len() == 0 {
        Seq::empty()
    } else {
        declared_endpoints(paths.drop_last(), components) + match paths.last().item {
            ReferenceOr::Item(item) => item_endpoints(paths.last().path@, item, components),
            ReferenceOr::Reference(_) => Seq::empty(),
        }
    }
}

/// The model a description is normalised to: its title, version and
/// description, and its declared endpoints in sorted order.
pub open spec fn normalized(document: Document) -> ApiSpecView {
    ApiSpecView {
        title: document.title@,
        version: document.version@,
        description: opt_text(document.description),
        endpoints: sorted_endpoints(declared_endpoints(document.paths@, document.components)),
    }
}

/// The number of operations a path declares.
pub open spec fn item_operation_count(item: PathItemDecl) -> nat {
    let one = |slot: Option<OperationDecl>| if slot.is_some() { 1nat } else { 0nat };
    one(item.get) + one(item.post) + one(item.put) + one(item.delete) + one(item.patch) + one(
        item.head,
    ) + one(item.options) + one(item.trace)
}

/// The number of (path, verb) pairs with a declared operation among the
/// paths whose item is written in place.
pub open spec fn operation_count(paths: Seq<PathDecl>) -> nat
    decreases paths.len(),
{
    if paths.len() == 0 {
        0
    } else {
        operation_count(paths.drop_last()) + match paths.last().item {
            ReferenceOr::Item(item) => item_operation_count(item),
            ReferenceOr::Reference(_) => 0,
        }
    }
}

/// A path contributes one endpoint for each operation it declares.
pub proof fn lemma_item_endpoints_len(
    path: Seq<char>,
    item: PathItemDecl,
    components: Option<Components>,
)
    ensures
        item_endpoints(path, item, components).len() == item_operation_count(item),
{
}

/// A path table contributes one endpoint for each (path, verb) pair with a
/// declared operation in a path item written in place.
pub proof fn lemma_declared_len(paths: Seq<PathDecl>, components: Option<Components>)
    ensures
        declared_endpoints(paths, components).len() == operation_count(paths),
    decreases paths.len(),
{
    if paths.len() > 0 {
        lemma_declared_len(paths.drop_last(), components);
        match paths.last().item {
            ReferenceOr::Item(item) => {
                lemma_item_endpoints_len(paths.last().path@, item, components);
            },
            ReferenceOr::Reference(_) => {},
        }
    }
}

/// Normalises a description: every operation declared under a path written
/// in place becomes one endpoint, and the endpoints are sorted by path and
/// then by verb.
pub fn convert_openapi(document: &Document) -> (spec: ApiSpec)
    ensures
        spec@ == normalized(*document),
        spec.endpoints@.len() == operation_count(document.paths@),
        ordered(spec@.endpoints),
{
    let mut endpoints: Vec<Endpoint> = Vec::new();
    let mut i: usize = 0;
    assert(endpoint_views(endpoints@) =~= Seq::empty());
    assert(document.paths@.take(0) =~= Seq::empty());
    while i < document.paths.len()
        invariant
            i <= document.paths.len(),
            endpoint_views(endpoints@) == declared_endpoints(
                document.paths@.take(i as int),
                document.components,
            ),
        decreases document.paths.len() - i,
    {
        let ghost before = endpoint_views(endpoints@);
        assert(document.paths@.take(i + 1).drop_last() =~= document.paths@.take(i as int));
        assert(document.paths@.take(i + 1).last() == document.paths@[i as int]);
        match &document.paths[i].item {
            ReferenceOr::Item(item) => {
                let mut found = extract_endpoints(
                    document.paths[i].path.as_str(),
                    item,
                    &document.components,
                );
                let ghost added = endpoint_views(found@);
                endpoints.append(&mut found);
                assert(endpoint_views(endpoints@) =~= before + added);
            },
            ReferenceOr::Reference(_) => {
                assert(before =~= before + Seq::<EndpointView>::empty());
            },
        }
        i = i + 1;
    }
    assert(document.paths@.take(document.paths.len() as int) =~= document.paths@);
    let ghost declared = endpoint_views(endpoints@);
    let endpoints = sort_endpoints(endpoints);
    proof {
        lemma_declared_len(document.paths@, document.components);
        lemma_sorted_len(declared);
        lemma_sorted_ordered(declared);
    }
    ApiSpec {
        title: document.title.clone(),
        version: document.version.clone(),
        description: clone_opt_text(&document.description),
        endpoints,
    }
}

} // verus!
