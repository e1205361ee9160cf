//! The order of the endpoint list: by path, then by verb in the order GET,
//! POST, PUT, PATCH, DELETE, HEAD, OPTIONS, TRACE.

use crate::model::{endpoint_views, Endpoint, EndpointView, HttpMethod};
use crate::text::{
    lemma_text_le_antisymmetric, lemma_text_le_reflexive, lemma_text_le_total, str_eq, str_le,
    text_le,
};
use vstd::prelude::*;

verus! {

/// The place of a verb in the display order.
pub fn method_order(method: &HttpMethod) -> (r: u8)
    ensures
        r == method.rank(),
{
    match method {
        HttpMethod::Get => 0,
        HttpMethod::Post => 1,
        HttpMethod::Put => 2,
        HttpMethod::Patch => 3,
        HttpMethod::Delete => 4,
        HttpMethod::Head => 5,
        HttpMethod::Options => 6,
        HttpMethod::Trace => 7,
    }
}

/// `a` may stand directly before `b` in the endpoint list: its path is not
/// above that of `b`, and where the paths are equal its verb does not rank
/// above that of `b`.
pub open spec fn precedes(a: EndpointView, b: EndpointView) -> bool {
    text_le(a.path, b.path) && (a.path == b.path ==> a.method.rank() <= b.method.rank())
}

/// Every endpoint of `s` may stand before its successor.
pub open spec fn ordered(s: Seq<EndpointView>) -> bool {
    forall|i: int| 0 <= i < s.len() - 1 ==> precedes(#[trigger] s[i], s[i + 1])
}

/// The position at which `e` enters the ordered list `s`: before the first
/// endpoint that it may precede.
pub open spec fn insertion_point(s: Seq<EndpointView>, e: EndpointView) -> int
    decreases s.len(),
{
    if s.len() == 0 {
        0
    } else if precedes(e, s[0]) {
        0
    } else {
        1 + insertion_point(s.drop_first(), e)
    }
}

/// `s` sorted by path and then by verb; endpoints that agree in both keep
/// the order that they have in `s`.
pub open spec fn sorted_endpoints(s: Seq<EndpointView>) -> Seq<EndpointView>
    decreases s.len(),
{
    if s.len() == 0 {
        Seq::empty()
    } else {
        let rest = sorted_endpoints(s.drop_first());
        rest.insert(insertion_point(rest, s[0]), s[0])
    }
}

/// Decides whether one endpoint may stand directly before another.
fn may_precede(a: &Endpoint, b: &Endpoint) -> (r: bool)
    ensures
        r == precedes(a@, b@),
{
    if str_eq(a.path.as_str(), b.path.as_str()) {
        proof {
            lemma_text_le_reflexive(a.path@);
        }
        method_order(&a.method) <= method_order(&b.method)
    } else {
        str_le(a.path.as_str(), b.path.as_str())
    }
}

/// Finds the position at which an endpoint enters an ordered list.
fn find_insertion_point(list: &Vec<Endpoint>, e: &Endpoint) -> (i: usize)
    ensures
        i == insertion_point(endpoint_views(list@), e@),
        i <= list.len(),
{
    let ghost views = endpoint_views(list@);
    let mut i: usize = 0;
    assert(views.skip(0) =~= views);
    while i < list.len()
        invariant
            i <= list.len(),
            views == endpoint_views(list@),
            insertion_point(views, e@) == i + insertion_point(views.skip(i as int), e@),
        decreases list.len() - i,
    {
        assert(views.skip(i as int)[0] == list@[i as int]@);
        if may_precede(e, &list[i]) {
            return i;
        }
        assert(views.skip(i as int).drop_first() =~= views.skip(i + 1));
        i = i + 1;
    }
    assert(views.skip(i as int).len() == 0);
    i
}

/// Sorts endpoints by path and then by verb, keeping the order of those
/// that agree in both.
pub fn sort_endpoints(endpoints: Vec<Endpoint>) -> (r: Vec<Endpoint>)
    ensures
        endpoint_views(r@) == sorted_endpoints(endpoint_views(endpoints@)),
{
    let ghost all = endpoint_views(endpoints@);
    let mut input = endpoints;
    let mut out: Vec<Endpoint> = Vec::new();
    assert(all.skip(all.len() as int) =~= Seq::empty());
    assert(endpoint_views(out@) =~= Seq::empty());
    assert(all.take(all.len() as int) =~= all);
    while input.len() > 0
        invariant
            input.len() <= all.len(),
            endpoint_views(input@) == all.take(input.len() as int),
            endpoint_views(out@) == sorted_endpoints(all.skip(input.len() as int)),
        decreases input.len(),
    {
        let ghost n = input.len() as int;
        let ghost rest = endpoint_views(out@);
        let e = input.pop().unwrap();
        assert(e@ == all.take(n)[n - 1]);
        let i = find_insertion_point(&out, &e);
        out.insert(i, e);
        proof {
            assert(endpoint_views(out@) =~= rest.insert(i as int, e@));
            assert(all.skip(n - 1)[0] == e@);
            assert(all.skip(n - 1).drop_first() =~= all.skip(n));
            assert(endpoint_views(input@) =~= all.take(n - 1));
        }
    }
    assert(all.skip(0) =~= all);
    out
}

/// Sorting neither adds nor drops an endpoint.
pub proof fn lemma_sorted_len(s: Seq<EndpointView>)
    ensures
        sorted_endpoints(s).len() == s.len(),
    decreases s.len(),
{
    if s.len() > 0 {
        lemma_sorted_len(s.drop_first());
        lemma_insertion_point_bounds(sorted_endpoints(s.drop_first()), s[0]);
    }
}

/// The insertion point lies within the list; every endpoint before it may
/// precede the new one and not the other way round, and the new one may
/// precede the endpoint at it.
pub proof fn lemma_insertion_point_bounds(s: Seq<EndpointView>, e: EndpointView)
    ensures
        0 <= insertion_point(s, e) <= s.len(),
        forall|j: int|
            0 <= j < insertion_point(s, e) ==> precedes(#[trigger] s[j], e) && !precedes(e, s[j]),
        insertion_point(s, e) < s.len() ==> precedes(e, s[insertion_point(s, e)]),
    decreases s.len(),
{
    if s.len() > 0 && !precedes(e, s[0]) {
        let t = s.drop_first();
        lemma_insertion_point_bounds(t, e);
        lemma_precedes_total(e, s[0]);
        assert forall|j: int| 0 <= j < insertion_point(s, e) implies precedes(
            #[trigger] s[j],
            e,
        ) && !precedes(e, s[j]) by {
            if j > 0 {
                assert(s[j] == t[j - 1]);
            }
        }
        if insertion_point(s, e) < s.len() {
            assert(s[insertion_point(s, e)] == t[insertion_point(t, e)]);
        }
    }
}

/// Of two endpoints one may precede the other.
pub proof fn lemma_precedes_total(a: EndpointView, b: EndpointView)
    ensures
        precedes(a, b) || precedes(b, a),
{
    lemma_text_le_total(a.path, b.path);
    if text_le(a.path, b.path) && text_le(b.path, a.path) {
        lemma_text_le_antisymmetric(a.path, b.path);
    }
}

/// The sorted list is ordered: paths ascend, and on one path the verbs
/// ascend in rank.
pub proof fn lemma_sorted_ordered(s: Seq<EndpointView>)
    ensures
        ordered(sorted_endpoints(s)),
    decreases s.len(),
{
    if s.len() > 0 {
        let rest = sorted_endpoints(s.drop_first());
        let e = s[0];
        let i = insertion_point(rest, e);
        lemma_sorted_ordered(s.drop_first());
        lemma_insertion_point_bounds(rest, e);
        let out = rest.insert(i, e);
        assert forall|j: int| 0 <= j < out.len() - 1 implies precedes(
            #[trigger] out[j],
            out[j + 1],
        ) by {
            if j + 1 < i {
                assert(out[j] == rest[j] && out[j + 1] == rest[j + 1]);
            } else if j + 1 == i {
                assert(out[j] == rest[j]);
            } else if j == i {
                assert(out[j + 1] == rest[i]);
            } else {
                assert(out[j] == rest[j - 1] && out[j + 1] == rest[j]);
            }
        }
    }
}

/// Sorting rearranges: the sorted list holds each endpoint as often as the
/// list that was sorted.
pub proof fn lemma_sorted_permutes(s: Seq<EndpointView>)
    ensures
        sorted_endpoints(s).to_multiset() == s.to_multiset(),
    decreases s.len(),
{
    broadcast use vstd::seq_lib::group_to_multiset_ensures;

    if s.len() > 0 {
        let rest = sorted_endpoints(s.drop_first());
        let i = insertion_point(rest, s[0]);
        lemma_sorted_permutes(s.drop_first());
        lemma_insertion_point_bounds(rest, s[0]);
        vstd::seq_lib::to_multiset_insert(rest, i, s[0]);
        assert(s =~= seq![s[0]] + s.drop_first());
        vstd::seq_lib::lemma_multiset_commutative(seq![s[0]], s.drop_first());
        assert(seq![s[0]] =~= Seq::<EndpointView>::empty().push(s[0]));
        assert(s.to_multiset() =~= s.drop_first().to_multiset().insert(s[0]));
    } else {
        assert(sorted_endpoints(s) =~= s);
    }
}

/// The test for an endpoint on `path` with the verb `method`.
pub open spec fn at_place(path: Seq<char>, method: HttpMethod) -> spec_fn(EndpointView) -> bool {
    |e: EndpointView| e.path == path && e.method == method
}

/// Nothing of a list passes a test that none of its members passes.
proof fn lemma_filter_none(s: Seq<EndpointView>, pred: spec_fn(EndpointView) -> bool)
    requires
        forall|i: int| 0 <= i < s.len() ==> !pred(#[trigger] s[i]),
    ensures
        s.filter(pred) == Seq::<EndpointView>::empty(),
    decreases s.len(),
{
    reveal(Seq::filter);
    if s.len() > 0 {
        assert forall|i: int| 0 <= i < s.drop_last().len() implies !pred(
            #[trigger] s.drop_last()[i],
        ) by {
            assert(s.drop_last()[i] == s[i]);
        }
        lemma_filter_none(s.drop_last(), pred);
        assert(!pred(s[s.len() - 1]));
    }
}

/// Sorting is stable: the endpoints on one path with one verb come out in
/// the order in which they went in.
pub proof fn lemma_sorted_stable(s: Seq<EndpointView>, path: Seq<char>, method: HttpMethod)
    ensures
        sorted_endpoints(s).filter(at_place(path, method)) == s.filter(at_place(path, method)),
    decreases s.len(),
{
    let pred = at_place(path, method);
    if s.len() > 0 {
        let tail = s.drop_first();
        let rest = sorted_endpoints(tail);
        let e = s[0];
        let at = insertion_point(rest, e);
        let front = rest.take(at);
        let back = rest.skip(at);
        lemma_sorted_stable(tail, path, method);
        lemma_insertion_point_bounds(rest, e);
        assert(rest =~= front + back);
        assert(rest.insert(at, e) =~= front + seq![e] + back);
        assert(s =~= seq![e] + tail);
        Seq::filter_distributes_over_add(front, back, pred);
        Seq::filter_distributes_over_add(front, seq![e], pred);
        Seq::filter_distributes_over_add(front + seq![e], back, pred);
        Seq::filter_distributes_over_add(seq![e], tail, pred);
        if pred(e) {
            assert forall|i: int| 0 <= i < front.len() implies !pred(#[trigger] front[i]) by {
                assert(front[i] == rest[i]);
                if pred(rest[i]) {
                    lemma_text_le_reflexive(e.path);
                    assert(precedes(e, rest[i]));
                }
            }
            lemma_filter_none(front, pred);
            assert(front.filter(pred) + seq![e].filter(pred) =~= seq![e].filter(pred));
            assert(front.filter(pred) + back.filter(pred) =~= back.filter(pred));
        } else {
            assert forall|i: int| 0 <= i < seq![e].len() implies !pred(#[trigger] seq![e][i]) by {
            }
            lemma_filter_none(seq![e], pred);
            assert(front.filter(pred) + seq![e].filter(pred) =~= front.filter(pred));
            assert(seq![e].filter(pred) + tail.filter(pred) =~= tail.filter(pred));
        }
    } else {
        assert(sorted_endpoints(s) =~= s);
    }
}

} // verus!
