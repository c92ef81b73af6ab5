//! The parts of `kube` that the library touches. Nothing in this file is
//! proved: each contract restates what `kube`'s source shows.

use vstd::prelude::*;
use vstd::multiset::Multiset;
use kube::discovery::ApiGroup;
use kube::Discovery;
use crate::model::{GroupView, VersionView};

verus! {

/// `kube::Client`, a shared handle to a cluster connection. Opaque here.
#[verifier::external_type_specification]
#[verifier::external_body]
pub struct ExClient(kube::Client);

/// `kube::Error`, whatever went wrong while talking to the cluster. Opaque
/// here.
#[verifier::external_type_specification]
#[verifier::external_body]
pub struct ExKubeError(kube::Error);

/// `kube::Discovery`, the cache of the API groups that a discovery run found.
/// Opaque here.
#[verifier::external_type_specification]
#[verifier::external_body]
pub struct ExDiscovery(kube::Discovery);

/// `kube::discovery::ApiGroup`, one discovered API group with its versions
/// and their resources. Opaque here.
#[verifier::external_type_specification]
#[verifier::external_body]
pub struct ExApiGroup(kube::discovery::ApiGroup);

/// The name of a group: what `ApiGroup::name` returns.
pub uninterp spec fn group_name(group: ApiGroup) -> Seq<char>;

/// The versions that a group serves, in the order in which
/// `ApiGroup::versions` yields them.
pub uninterp spec fn group_versions(group: ApiGroup) -> Seq<Seq<char>>;

/// The kinds of the resources that `ApiGroup::versioned_resources` returns
/// for `version`, in its order.
pub uninterp spec fn version_kinds(group: ApiGroup, version: Seq<char>) -> Seq<Seq<char>>;

/// The groups that a discovery holds, each as often as it holds it. The hash
/// map that keeps them has no order worth a name.
pub uninterp spec fn discovered_groups(discovery: Discovery) -> Multiset<GroupView>;

/// The groups that a discovery is restricted to, where `Discovery::filter`
/// set any.
pub uninterp spec fn allow_list(discovery: Discovery) -> Option<Seq<Seq<char>>>;

/// The views of string slices, in order.
pub open spec fn str_views(strs: Seq<&str>) -> Seq<Seq<char>> {
    Seq::new(strs.len(), |i: int| strs[i]@)
}

/// The views of strings, in order.
pub open spec fn string_views(strings: Seq<String>) -> Seq<Seq<char>> {
    Seq::new(strings.len(), |i: int| strings[i]@)
}

/// A group as plain values: its name, and for each version that it lists,
/// the kinds that it hands out for that version.
pub open spec fn group_view(group: ApiGroup) -> GroupView {
    GroupView {
        name: group_name(group),
        versions: Seq::new(
            group_versions(group).len(),
            |i: int|
                VersionView {
                    version: group_versions(group)[i],
                    kinds: version_kinds(group, group_versions(group)[i]),
                },
        ),
    }
}

/// The plain values of a list of groups, in order.
pub open spec fn group_views(groups: Seq<&ApiGroup>) -> Seq<GroupView> {
    Seq::new(groups.len(), |i: int| group_view(*groups[i]))
}

/// `Discovery::new` on a clone of the handle: a discovery that holds no group
/// yet and is not restricted.
#[verifier::external_body]
pub(crate) fn new_discovery(client: &kube::Client) -> (discovery: Discovery)
    ensures
        discovered_groups(discovery) == Multiset::<GroupView>::empty(),
        allow_list(discovery) is None,
{
    Discovery::new(client.clone())
}

/// `Discovery::filter`: the same discovery, from now on restricted to the
/// groups of `allow`. What it holds is left as it was.
#[verifier::external_body]
pub(crate) fn restrict_discovery(discovery: Discovery, allow: &[&str]) -> (restricted: Discovery)
    ensures
        discovered_groups(restricted) == discovered_groups(discovery),
        allow_list(restricted) == Some(str_views(allow@)),
{
    discovery.filter(allow)
}

/// `Discovery::groups`, collected: every group that the discovery holds,
/// in the order in which its hash map is walked, which nothing fixes.
#[verifier::external_body]
pub(crate) fn served_groups<'a>(discovery: &'a Discovery) -> (groups: Vec<&'a ApiGroup>)
    ensures
        group_views(groups@).to_multiset() == discovered_groups(*discovery),
{
    discovery.groups().collect()
}

/// `ApiGroup::name`.
#[verifier::external_body]
pub(crate) fn name_of<'a>(group: &'a ApiGroup) -> (name: &'a str)
    ensures
        name@ == group_name(*group),
{
    group.name()
}

/// `ApiGroup::versions`, collected.
#[verifier::external_body]
pub(crate) fn versions_of<'a>(group: &'a ApiGroup) -> (versions: Vec<&'a str>)
    ensures
        str_views(versions@) == group_versions(*group),
{
    group.versions().collect()
}

/// `ApiGroup::versioned_resources`, keeping of each resource its kind.
#[verifier::external_body]
pub(crate) fn kinds_of(group: &ApiGroup, version: &str) -> (kinds: Vec<String>)
    ensures
        string_views(kinds@) == version_kinds(*group, version@),
{
    group.versioned_resources(version).into_iter().map(|(resource, _)| resource.kind).collect()
}

} // verus!
