//! What a cluster serves, as plain mathematical values, and the identifiers
//! that follow from it.

use vstd::prelude::*;
use vstd::multiset::Multiset;
use crate::filter::is_allowed;
use crate::gvk::GvkView;

verus! {

/// One served version of a group, with the kinds of its resources in the
/// order in which they are listed.
pub struct VersionView {
    pub version: Seq<char>,
    pub kinds: Seq<Seq<char>>,
}

/// One served API group: its name and its versions, in the order in which
/// the group lists them.
pub struct GroupView {
    pub name: Seq<char>,
    pub versions: Seq<VersionView>,
}

/// One identifier for each kind of `served`, in the order of the kinds.
pub open spec fn version_ids(group: Seq<char>, served: VersionView) -> Seq<GvkView> {
    Seq::new(
        served.kinds.len(),
        |i: int| GvkView { group, version: served.version, kind: served.kinds[i] },
    )
}

/// The function that maps a version of the group named `group` to its
/// identifiers.
pub open spec fn ids_of_version(group: Seq<char>) -> spec_fn(VersionView) -> Seq<GvkView> {
    |served: VersionView| version_ids(group, served)
}

/// The identifiers of a group: those of its first version, then those of its
/// second, and so on.
pub open spec fn group_ids(group: GroupView) -> Seq<GvkView> {
    group.versions.flat_map(ids_of_version(group.name))
}

/// The function that maps a group to its identifiers.
pub open spec fn ids_of_group() -> spec_fn(GroupView) -> Seq<GvkView> {
    |group: GroupView| group_ids(group)
}

/// The predicate that holds of the groups in scope.
pub open spec fn in_scope() -> spec_fn(GroupView) -> bool {
    |group: GroupView| is_allowed(group.name)
}

/// Every identifier that `groups` gives rise to, group after group, whether
/// the group is in scope or not.
pub open spec fn reported_ids(groups: Seq<GroupView>) -> Seq<GvkView> {
    groups.flat_map(ids_of_group())
}

/// The identifiers of the groups in scope, group after group: what a listing
/// of installed kinds holds when the cluster serves `groups` in this order.
pub open spec fn installed_ids(groups: Seq<GroupView>) -> Seq<GvkView> {
    groups.filter(in_scope()).flat_map(ids_of_group())
}

/// Whether `ids` lists the installed kinds of a cluster that serves `groups`:
/// the groups in scope, walked in some order, each with its versions and their
/// resources in the group's own order.
pub open spec fn is_listing_of(ids: Seq<GvkView>, groups: Multiset<GroupView>) -> bool {
    exists|order: Seq<GroupView>|
        #[trigger] order.to_multiset() == groups && ids == installed_ids(order)
}

} // verus!
