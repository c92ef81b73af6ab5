//! What holds of every listing, proved from the definitions in `model`.

use vstd::prelude::*;
use vstd::multiset::Multiset;
use vstd::seq_lib::{group_to_multiset_ensures, lemma_flatten_concat, lemma_multiset_commutative};
use crate::filter::is_allowed;
use crate::gvk::GvkView;
use crate::model::{
    group_ids, ids_of_group, ids_of_version, in_scope, installed_ids, is_listing_of, reported_ids,
    version_ids, GroupView, VersionView,
};

verus! {

/// The predicate that holds of the identifiers whose group is in scope.
pub open spec fn id_in_scope() -> spec_fn(GvkView) -> bool {
    |id: GvkView| is_allowed(id.group)
}

/// What one group adds to a listing: its identifiers where it is in scope,
/// nothing where it is not.
spec fn contribution(group: GroupView) -> Seq<GvkView> {
    if is_allowed(group.name) {
        group_ids(group)
    } else {
        Seq::empty()
    }
}

proof fn lemma_filter_keeps_all<A>(s: Seq<A>, pred: spec_fn(A) -> bool)
    requires
        forall|i: int| 0 <= i < s.len() ==> pred(#[trigger] s[i]),
    ensures
        s.filter(pred) == s,
    decreases s.len(),
{
    reveal(Seq::filter);
    if s.len() > 0 {
        lemma_filter_keeps_all(s.drop_last(), pred);
        assert(s.drop_last().push(s.last()) =~= s);
    }
}

proof fn lemma_filter_keeps_none<A>(s: Seq<A>, pred: spec_fn(A) -> bool)
    requires
        forall|i: int| 0 <= i < s.len() ==> !pred(#[trigger] s[i]),
    ensures
        s.filter(pred) == Seq::<A>::empty(),
    decreases s.len(),
{
    reveal(Seq::filter);
    if s.len() > 0 {
        lemma_filter_keeps_none(s.drop_last(), pred);
    } else {
        assert(s =~= Seq::<A>::empty());
    }
}

proof fn lemma_filter_count<A>(s: Seq<A>, pred: spec_fn(A) -> bool, x: A)
    ensures
        s.filter(pred).to_multiset().count(x) == if pred(x) {
            s.to_multiset().count(x)
        } else {
            0
        },
    decreases s.len(),
{
    broadcast use group_to_multiset_ensures;

    reveal(Seq::filter);
    if s.len() > 0 {
        let init = s.drop_last();
        lemma_filter_count(init, pred, x);
        assert(init.push(s.last()) =~= s);
        init.lemma_filter_push(s.last(), pred);
        init.to_multiset_ensures();
        init.filter(pred).to_multiset_ensures();
    } else {
        s.to_multiset_ensures();
        s.filter(pred).to_multiset_ensures();
        assert(!s.contains(x));
        assert(!s.filter(pred).contains(x));
    }
}

proof fn lemma_flat_map_empty<A, B>(f: spec_fn(A) -> Seq<B>)
    ensures
        Seq::<A>::empty().flat_map(f) == Seq::<B>::empty(),
{
    assert(Seq::<A>::empty().map_values(f) =~= Seq::<Seq<B>>::empty());
}

proof fn lemma_flat_map_concat<A, B>(x: Seq<A>, y: Seq<A>, f: spec_fn(A) -> Seq<B>)
    ensures
        (x + y).flat_map(f) == x.flat_map(f) + y.flat_map(f),
{
    assert((x + y).map_values(f) =~= x.map_values(f) + y.map_values(f));
    lemma_flatten_concat(x.map_values(f), y.map_values(f));
}

proof fn lemma_flat_map_contains<A, B>(s: Seq<A>, f: spec_fn(A) -> Seq<B>, i: int, j: int)
    requires
        0 <= i < s.len(),
        0 <= j < f(s[i]).len(),
    ensures
        s.flat_map(f).contains(f(s[i])[j]),
{
    let before = s.take(i);
    let here = seq![s[i]];
    let after = s.skip(i + 1);
    assert(s =~= before + here + after);
    lemma_flat_map_concat(before + here, after, f);
    lemma_flat_map_concat(before, here, f);
    here.lemma_flat_map_singleton(f);
    let flat = s.flat_map(f);
    assert(flat =~= before.flat_map(f) + f(s[i]) + after.flat_map(f));
    assert(flat[before.flat_map(f).len() + j] == f(s[i])[j]);
}

/// Every identifier of a group bears the group's name.
pub proof fn lemma_group_ids_bear_its_name(group: GroupView)
    ensures
        forall|i: int|
            0 <= i < group_ids(group).len() ==> (#[trigger] group_ids(group)[i]).group
                == group.name,
{
    lemma_versions_bear_the_name(group.name, group.versions);
}

proof fn lemma_versions_bear_the_name(name: Seq<char>, versions: Seq<VersionView>)
    ensures
        forall|i: int|
            0 <= i < versions.flat_map(ids_of_version(name)).len() ==> (
            #[trigger] versions.flat_map(ids_of_version(name))[i]).group == name,
    decreases versions.len(),
{
    let f = ids_of_version(name);
    if versions.len() == 0 {
        assert(versions =~= Seq::<VersionView>::empty());
        lemma_flat_map_empty(f);
    } else {
        let init = versions.drop_last();
        lemma_versions_bear_the_name(name, init);
        assert(init.push(versions.last()) =~= versions);
        init.lemma_flat_map_push(f, versions.last());
        assert(versions.flat_map(f) =~= init.flat_map(f) + version_ids(name, versions.last()));
    }
}

/// A listing is what the cluster reports, less the identifiers whose group is
/// out of scope: nothing else is dropped, nothing is added, and the order is
/// kept.
pub proof fn lemma_installed_is_reported_in_scope(groups: Seq<GroupView>)
    ensures
        installed_ids(groups) == reported_ids(groups).filter(id_in_scope()),
    decreases groups.len(),
{
    if groups.len() == 0 {
        assert(groups =~= Seq::<GroupView>::empty());
        lemma_filter_keeps_all(groups, in_scope());
        lemma_flat_map_empty(ids_of_group());
        lemma_filter_keeps_all(Seq::<GvkView>::empty(), id_in_scope());
    } else {
        let init = groups.drop_last();
        let last = groups.last();
        lemma_installed_is_reported_in_scope(init);
        assert(init.push(last) =~= groups);
        init.lemma_filter_push(last, in_scope());
        init.filter(in_scope()).lemma_flat_map_push(ids_of_group(), last);
        init.lemma_flat_map_push(ids_of_group(), last);
        assert(reported_ids(groups) == reported_ids(init) + group_ids(last));
        Seq::filter_distributes_over_add(reported_ids(init), group_ids(last), id_in_scope());
        lemma_group_ids_bear_its_name(last);
        if is_allowed(last.name) {
            lemma_filter_keeps_all(group_ids(last), id_in_scope());
        } else {
            lemma_filter_keeps_none(group_ids(last), id_in_scope());
            assert(reported_ids(init).filter(id_in_scope()) + Seq::<GvkView>::empty()
                =~= reported_ids(init).filter(id_in_scope()));
        }
    }
}

/// An identifier of a group that is not in scope is in no listing, whatever
/// the cluster serves.
pub proof fn lemma_out_of_scope_is_absent(groups: Seq<GroupView>, id: GvkView)
    requires
        !is_allowed(id.group),
    ensures
        !installed_ids(groups).contains(id),
{
    lemma_installed_is_reported_in_scope(groups);
    let reported = reported_ids(groups);
    if reported.filter(id_in_scope()).contains(id) {
        let i = choose|i: int|
            0 <= i < reported.filter(id_in_scope()).len() && reported.filter(id_in_scope())[i]
                == id;
        reported.lemma_filter_pred(id_in_scope(), i);
    }
}

/// Where no group that the cluster serves is in scope, the listing is empty.
pub proof fn lemma_nothing_in_scope_lists_nothing(groups: Seq<GroupView>)
    requires
        forall|i: int| 0 <= i < groups.len() ==> !is_allowed(#[trigger] groups[i].name),
    ensures
        installed_ids(groups) == Seq::<GvkView>::empty(),
{
    lemma_filter_keeps_none(groups, in_scope());
    lemma_flat_map_empty(ids_of_group());
}

/// An identifier of a group in scope is in a listing exactly as often as the
/// cluster reports it: none is dropped and none is merged with its equal.
pub proof fn lemma_in_scope_is_kept(groups: Seq<GroupView>, id: GvkView)
    requires
        is_allowed(id.group),
    ensures
        installed_ids(groups).to_multiset().count(id) == reported_ids(groups).to_multiset().count(
            id,
        ),
{
    lemma_installed_is_reported_in_scope(groups);
    lemma_filter_count(reported_ids(groups), id_in_scope(), id);
}

/// Each resource that a group in scope lists under one of its versions has
/// its identifier in the listing.
pub proof fn lemma_every_served_kind_is_listed(groups: Seq<GroupView>, g: int, v: int, k: int)
    requires
        0 <= g < groups.len(),
        0 <= v < groups[g].versions.len(),
        0 <= k < groups[g].versions[v].kinds.len(),
        is_allowed(groups[g].name),
    ensures
        installed_ids(groups).contains(
            GvkView {
                group: groups[g].name,
                version: groups[g].versions[v].version,
                kind: groups[g].versions[v].kinds[k],
            },
        ),
{
    broadcast use group_to_multiset_ensures;

    let group = groups[g];
    let id = GvkView {
        group: group.name,
        version: group.versions[v].version,
        kind: group.versions[v].kinds[k],
    };
    assert(version_ids(group.name, group.versions[v])[k] == id);
    lemma_flat_map_contains(group.versions, ids_of_version(group.name), v, k);
    let j = choose|j: int| 0 <= j < group_ids(group).len() && group_ids(group)[j] == id;
    lemma_flat_map_contains(groups, ids_of_group(), g, j);
    assert(reported_ids(groups).contains(id));
    lemma_in_scope_is_kept(groups, id);
    reported_ids(groups).to_multiset_ensures();
    installed_ids(groups).to_multiset_ensures();
}

/// The listing of two runs of groups is the listing of the first followed by
/// the listing of the second.
pub proof fn lemma_installed_concat(first: Seq<GroupView>, second: Seq<GroupView>)
    ensures
        installed_ids(first + second) == installed_ids(first) + installed_ids(second),
{
    Seq::filter_distributes_over_add(first, second, in_scope());
    lemma_flat_map_concat(first.filter(in_scope()), second.filter(in_scope()), ids_of_group());
}

proof fn lemma_installed_single(group: GroupView)
    ensures
        installed_ids(seq![group]) == contribution(group),
{
    let none = Seq::<GroupView>::empty();
    assert(none.push(group) =~= seq![group]);
    lemma_filter_keeps_all(none, in_scope());
    none.lemma_filter_push(group, in_scope());
    lemma_flat_map_empty(ids_of_group());
    none.lemma_flat_map_push(ids_of_group(), group);
    assert(Seq::<GvkView>::empty() + group_ids(group) =~= group_ids(group));
}

proof fn lemma_installed_remove(groups: Seq<GroupView>, i: int)
    requires
        0 <= i < groups.len(),
    ensures
        installed_ids(groups).to_multiset() == installed_ids(groups.remove(i)).to_multiset().add(
            contribution(groups[i]).to_multiset(),
        ),
{
    let before = groups.take(i);
    let here = seq![groups[i]];
    let after = groups.skip(i + 1);
    assert(groups =~= before + here + after);
    assert(groups.remove(i) =~= before + after);
    lemma_installed_concat(before + here, after);
    lemma_installed_concat(before, here);
    lemma_installed_concat(before, after);
    lemma_installed_single(groups[i]);
    lemma_multiset_commutative(installed_ids(before) + installed_ids(here), installed_ids(after));
    lemma_multiset_commutative(installed_ids(before), installed_ids(here));
    lemma_multiset_commutative(installed_ids(before), installed_ids(after));
    assert(installed_ids(groups).to_multiset() =~= installed_ids(
        groups.remove(i),
    ).to_multiset().add(contribution(groups[i]).to_multiset()));
}

/// The order in which the groups are walked moves identifiers about and does
/// no more: two walks of the same groups list the same identifiers, each as
/// often in the one as in the other.
pub proof fn lemma_order_of_groups_is_all_that_varies(
    first: Seq<GroupView>,
    second: Seq<GroupView>,
)
    requires
        first.to_multiset() == second.to_multiset(),
    ensures
        installed_ids(first).to_multiset() == installed_ids(second).to_multiset(),
    decreases first.len(),
{
    first.to_multiset_ensures();
    second.to_multiset_ensures();
    if first.len() == 0 {
        assert(first =~= second);
    } else {
        let i = first.len() - 1;
        let group = first[i];
        assert(first.contains(group));
        assert(second.to_multiset().count(group) > 0);
        assert(second.contains(group));
        let j = choose|j: int| 0 <= j < second.len() && second[j] == group;
        assert(first.remove(i).to_multiset() =~= second.remove(j).to_multiset());
        lemma_order_of_groups_is_all_that_varies(first.remove(i), second.remove(j));
        lemma_installed_remove(first, i);
        lemma_installed_remove(second, j);
    }
}

/// Two listings of a cluster that serves the same groups hold the same
/// identifiers, each as often in the one as in the other.
pub proof fn lemma_listings_of_one_state_agree(
    first: Seq<GvkView>,
    second: Seq<GvkView>,
    groups: Multiset<GroupView>,
)
    requires
        is_listing_of(first, groups),
        is_listing_of(second, groups),
    ensures
        first.to_multiset() == second.to_multiset(),
{
    let walk = choose|order: Seq<GroupView>|
        #[trigger] order.to_multiset() == groups && first == installed_ids(order);
    let other = choose|order: Seq<GroupView>|
        #[trigger] order.to_multiset() == groups && second == installed_ids(order);
    lemma_order_of_groups_is_all_that_varies(walk, other);
}

} // verus!
