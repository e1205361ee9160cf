//! References and schema labels: what a possibly-referenced item stands
//! for, given the component tables, and the short label of a schema.

use crate::document::{
    Components, Named, ParameterDecl, Primitive, ReferenceOr, RequestBodyDecl, ResponseDecl,
    SchemaDecl,
};
use crate::text::{clone_opt_text, opt_text, starts_with, str_eq, str_strip_prefix};
use vstd::prelude::*;

verus! {

/// The entry of the first component named `name`.
pub open spec fn lookup<T>(table: Seq<Named<T>>, name: Seq<char>) -> Option<ReferenceOr<T>>
    decreases table.len(),
{
    if table.len() == 0 {
        None
    } else if table[0].name@ == name {
        Some(table[0].entry)
    } else {
        lookup(table.drop_first(), name)
    }
}

/// What a possibly-referenced item stands for. An item written in place
/// stands for itself. A reference stands for the component it names, when it
/// starts with `prefix`, the table exists, and the component is itself
/// written in place; any other reference stands for nothing.
pub open spec fn resolved<T>(
    r: ReferenceOr<T>,
    prefix: Seq<char>,
    table: Option<Seq<Named<T>>>,
) -> Option<T> {
    match r {
        ReferenceOr::Item(item) => Some(item),
        ReferenceOr::Reference(reference) => {
            if starts_with(reference@, prefix) && table.is_some() {
                match lookup(table.unwrap(), reference@.skip(prefix.len() as int)) {
                    Some(ReferenceOr::Item(item)) => Some(item),
                    _ => None,
                }
            } else {
                None
            }
        },
    }
}

/// Finds the entry of the first component named `name`.
pub fn find_component<'a, T>(table: &'a Vec<Named<T>>, name: &str) -> (r: Option<
    &'a ReferenceOr<T>,
>)
    ensures
        match r {
            Some(entry) => lookup(table@, name@) == Some(*entry),
            None => lookup(table@, name@).is_none(),
        },
{
    let mut i: usize = 0;
    assert(table@.skip(0) =~= table@);
    while i < table.len()
        invariant
            i <= table.len(),
            lookup(table@, name@) == lookup(table@.skip(i as int), name@),
        decreases table.len() - i,
    {
        if str_eq(table[i].name.as_str(), name) {
            assert(table@.skip(i as int)[0] == table@[i as int]);
            return Some(&table[i].entry);
        }
        assert(table@.skip(i as int)[0] == table@[i as int]);
        assert(table@.skip(i as int).drop_first() =~= table@.skip(i + 1));
        i = i + 1;
    }
    assert(table@.skip(i as int).len() == 0);
    None
}

/// Resolves a possibly-referenced item against a component table. The
/// lookup is a single hop: a component that is itself a reference is not
/// followed.
pub fn resolve_ref<'a, T>(
    ref_or_item: &'a ReferenceOr<T>,
    prefix: &str,
    table: Option<&'a Vec<Named<T>>>,
) -> (r: Option<&'a T>)
    ensures
        match r {
            Some(item) => resolved(*ref_or_item, prefix@, table_view(table)) == Some(*item),
            None => resolved(*ref_or_item, prefix@, table_view(table)).is_none(),
        },
{
    match ref_or_item {
        ReferenceOr::Item(item) => Some(item),
        ReferenceOr::Reference(reference) => {
            let name = match str_strip_prefix(reference.as_str(), prefix) {
                Some(name) => name,
                None => { return None; },
            };
            let table = match table {
                Some(table) => table,
                None => { return None; },
            };
            match find_component(table, name) {
                Some(ReferenceOr::Item(item)) => Some(item),
                _ => None,
            }
        },
    }
}

/// The contents of a table that may be missing.
pub open spec fn table_view<T>(table: Option<&Vec<Named<T>>>) -> Option<Seq<Named<T>>> {
    match table {
        Some(t) => Some(t@),
        None => None,
    }
}

/// The prefix of a reference into the parameter components.
pub open spec fn parameter_prefix() -> Seq<char> {
    "#/components/parameters/"@
}

/// The prefix of a reference into the request-body components.
pub open spec fn request_body_prefix() -> Seq<char> {
    "#/components/requestBodies/"@
}

/// The prefix of a reference into the response components.
pub open spec fn response_prefix() -> Seq<char> {
    "#/components/responses/"@
}

/// The prefix of a reference into the schema components.
pub open spec fn schema_prefix() -> Seq<char> {
    "#/components/schemas/"@
}

/// The declaration a possibly-referenced parameter stands for.
pub open spec fn resolved_parameter(
    r: ReferenceOr<ParameterDecl>,
    components: Option<Components>,
) -> Option<ParameterDecl> {
    resolved(
        r,
        parameter_prefix(),
        match components {
            Some(c) => Some(c.parameters@),
            None => None,
        },
    )
}

/// The declaration a possibly-referenced request body stands for.
pub open spec fn resolved_request_body(
    r: ReferenceOr<RequestBodyDecl>,
    components: Option<Components>,
) -> Option<RequestBodyDecl> {
    resolved(
        r,
        request_body_prefix(),
        match components {
            Some(c) => Some(c.request_bodies@),
            None => None,
        },
    )
}

/// The declaration a possibly-referenced response stands for.
pub open spec fn resolved_response(
    r: ReferenceOr<ResponseDecl>,
    components: Option<Components>,
) -> Option<ResponseDecl> {
    resolved(
        r,
        response_prefix(),
        match components {
            Some(c) => Some(c.responses@),
            None => None,
        },
    )
}

/// Resolves a parameter against the parameter components.
pub fn resolve_parameter<'a>(
    param: &'a ReferenceOr<ParameterDecl>,
    components: &'a Option<Components>,
) -> (r: Option<&'a ParameterDecl>)
    ensures
        match r {
            Some(item) => resolved_parameter(*param, *components) == Some(*item),
            None => resolved_parameter(*param, *components).is_none(),
        },
{
    let table = match components {
        Some(c) => Some(&c.parameters),
        None => None,
    };
    resolve_ref(param, "#/components/parameters/", table)
}

/// Resolves a request body against the request-body components.
pub fn resolve_request_body<'a>(
    rb: &'a ReferenceOr<RequestBodyDecl>,
    components: &'a Option<Components>,
) -> (r: Option<&'a RequestBodyDecl>)
    ensures
        match r {
            Some(item) => resolved_request_body(*rb, *components) == Some(*item),
            None => resolved_request_body(*rb, *components).is_none(),
        },
{
    let table = match components {
        Some(c) => Some(&c.request_bodies),
        None => None,
    };
    resolve_ref(rb, "#/components/requestBodies/", table)
}

/// Resolves a response against the response components.
pub fn resolve_response<'a>(
    resp: &'a ReferenceOr<ResponseDecl>,
    components: &'a Option<Components>,
) -> (r: Option<&'a ResponseDecl>)
    ensures
        match r {
            Some(item) => resolved_response(*resp, *components) == Some(*item),
            None => resolved_response(*resp, *components).is_none(),
        },
{
    let table = match components {
        Some(c) => Some(&c.responses),
        None => None,
    };
    resolve_ref(resp, "#/components/responses/", table)
}

/// The short label of a schema: the name of the schema component it refers
/// to, else the name of its primitive kind, else its type hint, else nothing.
pub open spec fn summarized(schema: ReferenceOr<SchemaDecl>) -> Option<Seq<char>> {
    match schema {
        ReferenceOr::Reference(reference) => {
            if starts_with(reference@, schema_prefix()) {
                Some(reference@.skip(schema_prefix().len() as int))
            } else {
                None
            }
        },
        ReferenceOr::Item(SchemaDecl::Typed(kind)) => Some(kind.label()),
        ReferenceOr::Item(SchemaDecl::Untyped(hint)) => opt_text(hint),
        ReferenceOr::Item(SchemaDecl::Composite) => None,
    }
}

/// The canonical name of a primitive kind.
pub fn type_to_string(t: &Primitive) -> (s: &'static str)
    ensures
        s@ == t.label(),
{
    match t {
        Primitive::String => "string",
        Primitive::Number => "number",
        Primitive::Integer => "integer",
        Primitive::Boolean => "boolean",
        Primitive::Array => "array",
        Primitive::Object => "object",
    }
}

/// Reduces a schema to its short label.
pub fn schema_type_to_string(schema: &ReferenceOr<SchemaDecl>) -> (r: Option<String>)
    ensures
        opt_text(r) == summarized(*schema),
{
    match schema {
        ReferenceOr::Reference(reference) => {
            match str_strip_prefix(reference.as_str(), "#/components/schemas/") {
                Some(name) => Some(name.to_owned()),
                None => None,
            }
        },
        ReferenceOr::Item(SchemaDecl::Typed(kind)) => Some(type_to_string(kind).to_owned()),
        ReferenceOr::Item(SchemaDecl::Untyped(hint)) => clone_opt_text(hint),
        ReferenceOr::Item(SchemaDecl::Composite) => None,
    }
}

} // verus!
