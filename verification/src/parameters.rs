//! What the merge of path-level and operation-level parameters guarantees:
//! one parameter per name and location, and the last declaration written
//! for a name and location is the one that stays.

use crate::assoc::{
    assoc_map, distinct_keys, has_key, lemma_assoc_dom, lemma_assoc_update, lemma_assoc_value,
};
use crate::document::{Components, ParameterDecl, ReferenceOr};
use crate::model::{ParameterLocation, ParameterView};
use crate::parser::{index_of_key, merge_into, merged_parameters, parameter_of, upsert};
use vstd::prelude::*;

verus! {

/// The parameters of `s`, each paired with its name and location.
pub open spec fn keyed(s: Seq<ParameterView>) -> Seq<
    ((Seq<char>, ParameterLocation), ParameterView),
> {
    s.map_values(|p: ParameterView| (p.key(), p))
}

/// No two parameters of `s` share name and location.
pub open spec fn distinct_parameters(s: Seq<ParameterView>) -> bool {
    forall|i: int, j: int|
        0 <= i < j < s.len() ==> (#[trigger] s[i]).key() != (#[trigger] s[j]).key()
}

/// The map from name and location to parameter that `s` stands for.
pub open spec fn parameter_map(s: Seq<ParameterView>) -> Map<
    (Seq<char>, ParameterLocation),
    ParameterView,
> {
    assoc_map(keyed(s))
}

/// `m` after the declarations of `decls` that resolve were written into it
/// under their name and location, first to last.
pub open spec fn written(
    m: Map<(Seq<char>, ParameterLocation), ParameterView>,
    decls: Seq<ReferenceOr<ParameterDecl>>,
    components: Option<Components>,
) -> Map<(Seq<char>, ParameterLocation), ParameterView>
    decreases decls.len(),
{
    if decls.len() == 0 {
        m
    } else {
        let earlier = written(m, decls.drop_last(), components);
        match parameter_of(decls.last(), components) {
            Some(p) => earlier.insert(p.key(), p),
            None => earlier,
        }
    }
}

/// No declaration of `decls` resolves to a parameter with the key `k`.
pub open spec fn silent_on(
    decls: Seq<ReferenceOr<ParameterDecl>>,
    components: Option<Components>,
    k: (Seq<char>, ParameterLocation),
) -> bool {
    forall|i: int|
        0 <= i < decls.len() ==> match parameter_of(#[trigger] decls[i], components) {
            Some(p) => p.key() != k,
            None => true,
        }
}

/// `index_of_key` finds the first parameter with the key, if there is one.
pub proof fn lemma_index_of_key(s: Seq<ParameterView>, k: (Seq<char>, ParameterLocation))
    ensures
        0 <= index_of_key(s, k) <= s.len(),
        forall|j: int| 0 <= j < index_of_key(s, k) ==> (#[trigger] s[j]).key() != k,
        index_of_key(s, k) < s.len() ==> s[index_of_key(s, k)].key() == k,
    decreases s.len(),
{
    if s.len() > 0 && s[0].key() != k {
        let t = s.drop_first();
        lemma_index_of_key(t, k);
        assert forall|j: int| 0 <= j < index_of_key(s, k) implies (#[trigger] s[j]).key()
            != k by {
            if j > 0 {
                assert(s[j] == t[j - 1]);
            }
        }
        if index_of_key(s, k) < s.len() {
            assert(s[index_of_key(s, k)] == t[index_of_key(t, k)]);
        }
    }
}

/// The two ways of saying that no key repeats agree.
proof fn lemma_keyed_distinct(s: Seq<ParameterView>)
    ensures
        distinct_parameters(s) <==> distinct_keys(keyed(s)),
{
    let ks = keyed(s);
    if distinct_parameters(s) {
        assert forall|i: int, j: int| 0 <= i < j < ks.len() implies (#[trigger] ks[i]).0 != (
        #[trigger] ks[j]).0 by {
            assert(ks[i].0 == s[i].key() && ks[j].0 == s[j].key());
        }
    }
    if distinct_keys(ks) {
        assert forall|i: int, j: int| 0 <= i < j < s.len() implies (#[trigger] s[i]).key() != (
        #[trigger] s[j]).key() by {
            assert(ks[i].0 == s[i].key() && ks[j].0 == s[j].key());
        }
    }
}

/// Writing a parameter into a list without repeated keys leaves it without
/// repeated keys, and sets the entry of the parameter's key.
pub proof fn lemma_upsert(s: Seq<ParameterView>, p: ParameterView)
    requires
        distinct_parameters(s),
    ensures
        distinct_parameters(upsert(s, p)),
        parameter_map(upsert(s, p)) == parameter_map(s).insert(p.key(), p),
{
    let i = index_of_key(s, p.key());
    let ks = keyed(s);
    lemma_index_of_key(s, p.key());
    lemma_keyed_distinct(s);
    lemma_keyed_distinct(upsert(s, p));
    if i < s.len() {
        assert(ks[i].0 == p.key());
        assert(keyed(upsert(s, p)) =~= ks.update(i, (ks[i].0, p)));
        lemma_assoc_update(ks, i, p);
    } else {
        let out = keyed(upsert(s, p));
        assert(out =~= ks.push((p.key(), p)));
        assert(out.drop_last() =~= ks);
        assert forall|a: int, b: int| 0 <= a < b < out.len() implies (#[trigger] out[a]).0 != (
        #[trigger] out[b]).0 by {
            if b == ks.len() {
                assert(out[a].0 == s[a].key());
            } else {
                assert(out[a] == ks[a] && out[b] == ks[b]);
            }
        }
    }
}

/// Merging declarations into a list without repeated keys leaves it without
/// repeated keys, and writes each resolved declaration under its key.
pub proof fn lemma_merge_into(
    acc: Seq<ParameterView>,
    decls: Seq<ReferenceOr<ParameterDecl>>,
    components: Option<Components>,
)
    requires
        distinct_parameters(acc),
    ensures
        distinct_parameters(merge_into(acc, decls, components)),
        parameter_map(merge_into(acc, decls, components)) == written(
            parameter_map(acc),
            decls,
            components,
        ),
    decreases decls.len(),
{
    if decls.len() > 0 {
        lemma_merge_into(acc, decls.drop_last(), components);
        match parameter_of(decls.last(), components) {
            Some(p) => {
                lemma_upsert(merge_into(acc, decls.drop_last(), components), p);
            },
            None => {},
        }
    }
}

/// The parameters of an endpoint never repeat a name and location, and as a
/// map they are the path-level declarations overwritten by the
/// operation-level ones.
pub proof fn lemma_merged_parameters(
    path_params: Seq<ReferenceOr<ParameterDecl>>,
    op_params: Seq<ReferenceOr<ParameterDecl>>,
    components: Option<Components>,
)
    ensures
        distinct_parameters(merged_parameters(path_params, op_params, components)),
        parameter_map(merged_parameters(path_params, op_params, components)) == written(
            written(Map::empty(), path_params, components),
            op_params,
            components,
        ),
{
    let empty = Seq::<ParameterView>::empty();
    assert(keyed(empty) =~= Seq::empty());
    assert(parameter_map(empty) =~= Map::empty());
    lemma_merge_into(empty, path_params, components);
    lemma_merge_into(merge_into(empty, path_params, components), op_params, components);
}

/// The last declaration that resolves to a key is the entry of that key.
pub proof fn lemma_written_last(
    m: Map<(Seq<char>, ParameterLocation), ParameterView>,
    decls: Seq<ReferenceOr<ParameterDecl>>,
    components: Option<Components>,
    j: int,
)
    requires
        0 <= j < decls.len(),
        parameter_of(decls[j], components).is_some(),
        silent_on(
            decls.skip(j + 1),
            components,
            parameter_of(decls[j], components).unwrap().key(),
        ),
    ensures
        written(m, decls, components).dom().contains(
            parameter_of(decls[j], components).unwrap().key(),
        ),
        written(m, decls, components)[parameter_of(decls[j], components).unwrap().key()]
            == parameter_of(decls[j], components).unwrap(),
    decreases decls.len(),
{
    let p = parameter_of(decls[j], components).unwrap();
    if j < decls.len() - 1 {
        let t = decls.drop_last();
        assert(t[j] == decls[j]);
        assert forall|i: int| 0 <= i < t.skip(j + 1).len() implies match parameter_of(
            #[trigger] t.skip(j + 1)[i],
            components,
        ) {
            Some(q) => q.key() != p.key(),
            None => true,
        } by {
            assert(t.skip(j + 1)[i] == decls.skip(j + 1)[i]);
        }
        lemma_written_last(m, t, components, j);
        assert(decls.last() == decls.skip(j + 1)[decls.len() - j - 2]);
    }
}

/// A key to which no declaration resolves keeps the entry it had.
pub proof fn lemma_written_untouched(
    m: Map<(Seq<char>, ParameterLocation), ParameterView>,
    decls: Seq<ReferenceOr<ParameterDecl>>,
    components: Option<Components>,
    k: (Seq<char>, ParameterLocation),
)
    requires
        silent_on(decls, components, k),
    ensures
        written(m, decls, components).dom().contains(k) == m.dom().contains(k),
        m.dom().contains(k) ==> written(m, decls, components)[k] == m[k],
    decreases decls.len(),
{
    if decls.len() > 0 {
        let t = decls.drop_last();
        assert forall|i: int| 0 <= i < t.len() implies match parameter_of(
            #[trigger] t[i],
            components,
        ) {
            Some(q) => q.key() != k,
            None => true,
        } by {
            assert(t[i] == decls[i]);
        }
        lemma_written_untouched(m, t, components, k);
        assert(decls.last() == decls[decls.len() - 1]);
    }
}

/// In a list without repeated keys, the entry of a key in the list's map is
/// the one parameter of the list with that key.
pub proof fn lemma_single_entry(s: Seq<ParameterView>, k: (Seq<char>, ParameterLocation))
    requires
        distinct_parameters(s),
        parameter_map(s).dom().contains(k),
    ensures
        exists|i: int|
            0 <= i < s.len() && #[trigger] s[i] == parameter_map(s)[k] && s[i].key() == k
                && forall|a: int| 0 <= a < s.len() && (#[trigger] s[a]).key() == k ==> a == i,
{
    let ks = keyed(s);
    lemma_keyed_distinct(s);
    lemma_assoc_dom(ks);
    assert(has_key(ks, k));
    let i = choose|i: int| 0 <= i < ks.len() && (#[trigger] ks[i]).0 == k;
    lemma_assoc_value(ks, i);
    assert(ks[i] == (s[i].key(), s[i]));
    assert(s[i] == parameter_map(s)[k]);
    assert forall|a: int| 0 <= a < s.len() && (#[trigger] s[a]).key() == k implies a == i by {
        if a != i {
            if a < i {
                assert(s[a].key() != s[i].key());
            } else {
                assert(s[i].key() != s[a].key());
            }
        }
    }
}

/// An operation-level parameter overrides: where a declaration of the
/// operation resolves, and no later declaration of the operation resolves
/// to the same name and location, the endpoint has exactly one parameter
/// with that name and location, and it is the one so declared, whatever
/// the path declares for them.
pub proof fn lemma_operation_level_wins(
    path_params: Seq<ReferenceOr<ParameterDecl>>,
    op_params: Seq<ReferenceOr<ParameterDecl>>,
    components: Option<Components>,
    j: int,
)
    requires
        0 <= j < op_params.len(),
        parameter_of(op_params[j], components).is_some(),
        silent_on(
            op_params.skip(j + 1),
            components,
            parameter_of(op_params[j], components).unwrap().key(),
        ),
    ensures
        ({
            let p = parameter_of(op_params[j], components).unwrap();
            let merged = merged_parameters(path_params, op_params, components);
            exists|i: int|
                0 <= i < merged.len() && #[trigger] merged[i] == p && forall|a: int|
                    0 <= a < merged.len() && (#[trigger] merged[a]).key() == p.key() ==> a == i
        }),
{
    let p = parameter_of(op_params[j], components).unwrap();
    let merged = merged_parameters(path_params, op_params, components);
    lemma_merged_parameters(path_params, op_params, components);
    lemma_written_last(written(Map::empty(), path_params, components), op_params, components, j);
    lemma_single_entry(merged, p.key());
}

/// A path-level parameter is inherited: where a declaration of the path
/// resolves, no later declaration of the path and no declaration of the
/// operation resolves to the same name and location, the endpoint has
/// exactly one parameter with that name and location, and it is the one the
/// path declares.
pub proof fn lemma_path_level_inherited(
    path_params: Seq<ReferenceOr<ParameterDecl>>,
    op_params: Seq<ReferenceOr<ParameterDecl>>,
    components: Option<Components>,
    j: int,
)
    requires
        0 <= j < path_params.len(),
        parameter_of(path_params[j], components).is_some(),
        silent_on(
            path_params.skip(j + 1),
            components,
            parameter_of(path_params[j], components).unwrap().key(),
        ),
        silent_on(op_params, components, parameter_of(path_params[j], components).unwrap().key()),
    ensures
        ({
            let p = parameter_of(path_params[j], components).unwrap();
            let merged = merged_parameters(path_params, op_params, components);
            exists|i: int|
                0 <= i < merged.len() && #[trigger] merged[i] == p && forall|a: int|
                    0 <= a < merged.len() && (#[trigger] merged[a]).key() == p.key() ==> a == i
        }),
{
    let p = parameter_of(path_params[j], components).unwrap();
    let merged = merged_parameters(path_params, op_params, components);
    let from_path = written(Map::empty(), path_params, components);
    lemma_merged_parameters(path_params, op_params, components);
    lemma_written_last(Map::empty(), path_params, components, j);
    lemma_written_untouched(from_path, op_params, components, p.key());
    lemma_single_entry(merged, p.key());
}

} // verus!
