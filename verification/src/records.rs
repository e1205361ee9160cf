//! One record per operation: a description whose paths are all different is
//! normalised to endpoints of which no two share path and verb.

use crate::document::{Components, Document, OperationDecl, ParameterDecl, PathDecl, ReferenceOr};
use crate::model::{EndpointView, HttpMethod};
use crate::parser::{declared_endpoints, item_endpoints, normalized, slot_endpoints};
use crate::sorting::{
    insertion_point, lemma_insertion_point_bounds, lemma_sorted_permutes, sorted_endpoints,
};
use vstd::prelude::*;

verus! {

/// No path occurs twice in the path table.
pub open spec fn distinct_paths(paths: Seq<PathDecl>) -> bool {
    forall|i: int, j: int|
        0 <= i < j < paths.len() ==> (#[trigger] paths[i]).path@ != (#[trigger] paths[j]).path@
}

/// No two endpoints share path and verb.
pub open spec fn distinct_endpoints(s: Seq<EndpointView>) -> bool {
    forall|i: int, j: int|
        0 <= i < j < s.len() ==> !((#[trigger] s[i]).path == (#[trigger] s[j]).path && s[i].method
            == s[j].method)
}

/// The place of a verb among the slots of a path.
pub open spec fn slot_of(method: HttpMethod) -> int {
    match method {
        HttpMethod::Get => 0,
        HttpMethod::Post => 1,
        HttpMethod::Put => 2,
        HttpMethod::Delete => 3,
        HttpMethod::Patch => 4,
        HttpMethod::Head => 5,
        HttpMethod::Options => 6,
        HttpMethod::Trace => 7,
    }
}

/// The endpoints of `s` are on `path`, their verbs come in the order of the
/// slots, and all of them stand before the slot `bound`.
pub open spec fn in_slot_order(s: Seq<EndpointView>, path: Seq<char>, bound: int) -> bool {
    &&& forall|i: int|
        0 <= i < s.len() ==> (#[trigger] s[i]).path == path && slot_of(s[i].method) < bound
    &&& forall|i: int, j: int|
        0 <= i < j < s.len() ==> slot_of((#[trigger] s[i]).method) < slot_of(
            (#[trigger] s[j]).method,
        )
}

/// Appending the endpoint of the next slot keeps the slot order.
proof fn lemma_slot_appended(
    before: Seq<EndpointView>,
    path: Seq<char>,
    method: HttpMethod,
    slot: Option<OperationDecl>,
    path_params: Seq<ReferenceOr<ParameterDecl>>,
    components: Option<Components>,
)
    requires
        in_slot_order(before, path, slot_of(method)),
    ensures
        in_slot_order(
            before + slot_endpoints(path, method, slot, path_params, components),
            path,
            slot_of(method) + 1,
        ),
{
    let added = slot_endpoints(path, method, slot, path_params, components);
    let s = before + added;
    assert forall|i: int| 0 <= i < s.len() implies (#[trigger] s[i]).path == path && slot_of(
        s[i].method,
    ) < slot_of(method) + 1 by {
        if i < before.len() {
            assert(s[i] == before[i]);
        } else {
            assert(s[i] == added[i - before.len()]);
        }
    }
    assert forall|i: int, j: int| 0 <= i < j < s.len() implies slot_of((#[trigger] s[i]).method)
        < slot_of((#[trigger] s[j]).method) by {
        assert(s[i] == before[i]);
        if j < before.len() {
            assert(s[j] == before[j]);
        } else {
            assert(s[j] == added[j - before.len()]);
        }
    }
}

/// The endpoints of one path are on that path and differ in their verbs.
pub proof fn lemma_item_endpoints_distinct(
    path: Seq<char>,
    item: crate::document::PathItemDecl,
    components: Option<Components>,
)
    ensures
        in_slot_order(item_endpoints(path, item, components), path, 8),
        distinct_endpoints(item_endpoints(path, item, components)),
{
    let p = item.parameters@;
    let none = Seq::<EndpointView>::empty();
    let s0 = none + slot_endpoints(path, HttpMethod::Get, item.get, p, components);
    let s1 = s0 + slot_endpoints(path, HttpMethod::Post, item.post, p, components);
    let s2 = s1 + slot_endpoints(path, HttpMethod::Put, item.put, p, components);
    let s3 = s2 + slot_endpoints(path, HttpMethod::Delete, item.delete, p, components);
    let s4 = s3 + slot_endpoints(path, HttpMethod::Patch, item.patch, p, components);
    let s5 = s4 + slot_endpoints(path, HttpMethod::Head, item.head, p, components);
    let s6 = s5 + slot_endpoints(path, HttpMethod::Options, item.options, p, components);
    let s7 = s6 + slot_endpoints(path, HttpMethod::Trace, item.trace, p, components);
    lemma_slot_appended(none, path, HttpMethod::Get, item.get, p, components);
    lemma_slot_appended(s0, path, HttpMethod::Post, item.post, p, components);
    lemma_slot_appended(s1, path, HttpMethod::Put, item.put, p, components);
    lemma_slot_appended(s2, path, HttpMethod::Delete, item.delete, p, components);
    lemma_slot_appended(s3, path, HttpMethod::Patch, item.patch, p, components);
    lemma_slot_appended(s4, path, HttpMethod::Head, item.head, p, components);
    lemma_slot_appended(s5, path, HttpMethod::Options, item.options, p, components);
    lemma_slot_appended(s6, path, HttpMethod::Trace, item.trace, p, components);
    assert(s0 =~= slot_endpoints(path, HttpMethod::Get, item.get, p, components));
    assert(s7 == item_endpoints(path, item, components));
    assert forall|i: int, j: int| 0 <= i < j < s7.len() implies !((#[trigger] s7[i]).path == (
    #[trigger] s7[j]).path && s7[i].method == s7[j].method) by {
        assert(slot_of(s7[i].method) < slot_of(s7[j].method));
    }
}

/// Every declared endpoint is on one of the paths of the table.
pub proof fn lemma_declared_paths(paths: Seq<PathDecl>, components: Option<Components>, i: int)
    requires
        0 <= i < declared_endpoints(paths, components).len(),
    ensures
        exists|k: int|
            0 <= k < paths.len() && (#[trigger] paths[k]).path@ == declared_endpoints(
                paths,
                components,
            )[i].path,
    decreases paths.len(),
{
    let earlier = declared_endpoints(paths.drop_last(), components);
    if i < earlier.len() {
        lemma_declared_paths(paths.drop_last(), components, i);
        let k = choose|k: int|
            0 <= k < paths.drop_last().len() && (#[trigger] paths.drop_last()[k]).path@
                == earlier[i].path;
        assert(paths[k] == paths.drop_last()[k]);
    } else {
        match paths.last().item {
            ReferenceOr::Item(item) => {
                lemma_item_endpoints_distinct(paths.last().path@, item, components);
                let tail = item_endpoints(paths.last().path@, item, components);
                assert(declared_endpoints(paths, components)[i] == tail[i - earlier.len()]);
                assert(paths[paths.len() - 1].path@ == tail[i - earlier.len()].path);
            },
            ReferenceOr::Reference(_) => {},
        }
    }
}

/// A table of different paths declares endpoints of which no two share
/// path and verb.
pub proof fn lemma_declared_distinct(paths: Seq<PathDecl>, components: Option<Components>)
    requires
        distinct_paths(paths),
    ensures
        distinct_endpoints(declared_endpoints(paths, components)),
    decreases paths.len(),
{
    if paths.len() > 0 {
        let front = paths.drop_last();
        let earlier = declared_endpoints(front, components);
        let all = declared_endpoints(paths, components);
        assert(distinct_paths(front)) by {
            assert forall|i: int, j: int| 0 <= i < j < front.len() implies (
            #[trigger] front[i]).path@ != (#[trigger] front[j]).path@ by {
                assert(front[i] == paths[i] && front[j] == paths[j]);
            }
        }
        lemma_declared_distinct(front, components);
        match paths.last().item {
            ReferenceOr::Item(item) => {
                let tail = item_endpoints(paths.last().path@, item, components);
                lemma_item_endpoints_distinct(paths.last().path@, item, components);
                assert forall|i: int, j: int| 0 <= i < j < all.len() implies !((
                #[trigger] all[i]).path == (#[trigger] all[j]).path && all[i].method
                    == all[j].method) by {
                    if j < earlier.len() {
                        assert(all[i] == earlier[i] && all[j] == earlier[j]);
                    } else if i >= earlier.len() {
                        assert(all[i] == tail[i - earlier.len()]);
                        assert(all[j] == tail[j - earlier.len()]);
                    } else {
                        assert(all[i] == earlier[i]);
                        assert(all[j] == tail[j - earlier.len()]);
                        lemma_declared_paths(front, components, i);
                        let k = choose|k: int|
                            0 <= k < front.len() && (#[trigger] front[k]).path@
                                == earlier[i].path;
                        assert(front[k] == paths[k]);
                        assert(paths[k].path@ != paths[paths.len() - 1].path@);
                    }
                }
            },
            ReferenceOr::Reference(_) => {
                assert(all =~= earlier);
            },
        }
    }
}

/// Sorting keeps endpoints apart that differ in path or verb.
pub proof fn lemma_sorted_distinct(s: Seq<EndpointView>)
    requires
        distinct_endpoints(s),
    ensures
        distinct_endpoints(sorted_endpoints(s)),
    decreases s.len(),
{
    broadcast use vstd::seq_lib::group_to_multiset_ensures;

    if s.len() > 0 {
        let tail = s.drop_first();
        let rest = sorted_endpoints(tail);
        let e = s[0];
        let at = insertion_point(rest, e);
        let out = rest.insert(at, e);
        assert(distinct_endpoints(tail)) by {
            assert forall|i: int, j: int| 0 <= i < j < tail.len() implies !((
            #[trigger] tail[i]).path == (#[trigger] tail[j]).path && tail[i].method
                == tail[j].method) by {
                assert(tail[i] == s[i + 1] && tail[j] == s[j + 1]);
            }
        }
        lemma_sorted_distinct(tail);
        lemma_sorted_permutes(tail);
        lemma_insertion_point_bounds(rest, e);
        assert forall|k: int| 0 <= k < rest.len() implies !((#[trigger] rest[k]).path == e.path
            && rest[k].method == e.method) by {
            assert(rest.contains(rest[k]));
            assert(rest.to_multiset().count(rest[k]) > 0);
            assert(tail.to_multiset().count(rest[k]) > 0);
            assert(tail.contains(rest[k]));
            let m = choose|m: int| 0 <= m < tail.len() && tail[m] == rest[k];
            assert(tail[m] == s[m + 1]);
            assert(!(s[0].path == s[m + 1].path && s[0].method == s[m + 1].method));
        }
        assert forall|i: int, j: int| 0 <= i < j < out.len() implies !((#[trigger] out[i]).path
            == (#[trigger] out[j]).path && out[i].method == out[j].method) by {
            let i0 = if i < at { i } else { i - 1 };
            let j0 = if j < at { j } else { j - 1 };
            if i == at {
                assert(out[j] == rest[j0]);
            } else if j == at {
                assert(out[i] == rest[i0]);
            } else {
                assert(out[i] == rest[i0] && out[j] == rest[j0]);
            }
        }
    }
}

/// A description whose paths are all different is normalised to one record
/// for each path and verb with a declared operation: no two of its
/// endpoints share path and verb.
pub proof fn lemma_one_record_per_operation(document: Document)
    requires
        distinct_paths(document.paths@),
    ensures
        distinct_endpoints(normalized(document).endpoints),
{
    lemma_declared_distinct(document.paths@, document.components);
    lemma_sorted_distinct(declared_endpoints(document.paths@, document.components));
}

} // verus!
