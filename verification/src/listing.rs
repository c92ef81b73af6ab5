//! From discovered groups to identifiers: groups, then the versions of each
//! group, then the resources of each version.

use vstd::prelude::*;
use kube::discovery::ApiGroup;
use crate::cluster::{group_view, group_views, kinds_of, name_of, string_views, versions_of};
use crate::filter::{is_allowed, is_stackable_group};
use crate::gvk::{gvk_views, GroupVersionKind, GvkView};
use crate::laws::lemma_out_of_scope_is_absent;
use crate::model::{
    group_ids, ids_of_group, ids_of_version, in_scope, installed_ids, version_ids, VersionView,
};

verus! {

/// One identifier for each of `kinds`, all under `group` and `version`.
pub fn version_gvks(group: &str, version: &str, kinds: &Vec<String>) -> (gvks: Vec<GroupVersionKind>)
    ensures
        gvk_views(gvks@) == version_ids(
            group@,
            VersionView { version: version@, kinds: string_views(kinds@) },
        ),
{
    let ghost served = VersionView { version: version@, kinds: string_views(kinds@) };
    let mut gvks: Vec<GroupVersionKind> = Vec::new();
    let mut i: usize = 0;
    while i < kinds.len()
        invariant
            i <= kinds.len(),
            served == (VersionView { version: version@, kinds: string_views(kinds@) }),
            gvks@.len() == i,
            forall|j: int| 0 <= j < i ==> (#[trigger] gvks@[j])@ == version_ids(group@, served)[j],
        decreases kinds.len() - i,
    {
        gvks.push(GroupVersionKind::gvk(group, version, kinds[i].as_str()));
        i += 1;
    }
    assert(gvk_views(gvks@) =~= version_ids(group@, served));
    gvks
}

/// The identifiers of one group: for each version that the group lists, in
/// its order, one for each resource that it hands out for that version.
pub fn group_gvks(group: &ApiGroup) -> (gvks: Vec<GroupVersionKind>)
    ensures
        gvk_views(gvks@) == group_ids(group_view(*group)),
{
    let name = name_of(group);
    let versions = versions_of(group);
    let ghost served = group_view(*group).versions;
    let mut gvks: Vec<GroupVersionKind> = Vec::new();
    let mut i: usize = 0;
    assert(served.take(0).flat_map(ids_of_version(name@)) =~= Seq::<GvkView>::empty());
    while i < versions.len()
        invariant
            i <= versions.len(),
            name@ == group_view(*group).name,
            served == group_view(*group).versions,
            served.len() == versions.len(),
            forall|j: int| 0 <= j < versions.len() ==> (#[trigger] versions@[j])@ == served[j].version,
            gvk_views(gvks@) == served.take(i as int).flat_map(ids_of_version(name@)),
        decreases versions.len() - i,
    {
        let version = versions[i];
        let kinds = kinds_of(group, version);
        let mut more = version_gvks(name, version, &kinds);
        proof {
            assert(served[i as int] == (VersionView {
                version: version@,
                kinds: string_views(kinds@),
            }));
            served.lemma_flat_map_take_append(ids_of_version(name@), i as int);
            assert(gvk_views(gvks@ + more@) =~= gvk_views(gvks@) + gvk_views(more@));
        }
        gvks.append(&mut more);
        i += 1;
    }
    assert(served.take(i as int) =~= served);
    gvks
}

/// The identifiers of the groups in scope among `groups`, group after group
/// in the order of `groups`. A group out of scope contributes nothing.
pub fn installed_gvks(groups: &Vec<&ApiGroup>) -> (gvks: Vec<GroupVersionKind>)
    ensures
        gvk_views(gvks@) == installed_ids(group_views(groups@)),
        forall|i: int| 0 <= i < gvks@.len() ==> is_allowed((#[trigger] gvks@[i]).group@),
{
    let ghost served = group_views(groups@);
    let mut gvks: Vec<GroupVersionKind> = Vec::new();
    let mut i: usize = 0;
    assert(served.take(0).filter(in_scope()).flat_map(ids_of_group()) =~= Seq::<GvkView>::empty()) by {
        assert(served.take(0) =~= Seq::empty());
        reveal(Seq::filter);
    }
    while i < groups.len()
        invariant
            i <= groups.len(),
            served == group_views(groups@),
            gvk_views(gvks@) == served.take(i as int).filter(in_scope()).flat_map(ids_of_group()),
        decreases groups.len() - i,
    {
        let group = groups[i];
        proof {
            let before = served.take(i as int);
            assert(served.take(i + 1) =~= before.push(served[i as int]));
            before.lemma_filter_push(served[i as int], in_scope());
            before.filter(in_scope()).lemma_flat_map_push(ids_of_group(), served[i as int]);
        }
        if is_stackable_group(name_of(group)) {
            let mut more = group_gvks(group);
            proof {
                assert(gvk_views(gvks@ + more@) =~= gvk_views(gvks@) + gvk_views(more@));
            }
            gvks.append(&mut more);
        }
        i += 1;
    }
    assert(served.take(i as int) =~= served);
    assert forall|j: int| 0 <= j < gvks@.len() implies is_allowed((#[trigger] gvks@[j]).group@) by {
        assert(gvk_views(gvks@)[j] == gvks@[j]@);
        if !is_allowed(gvks@[j].group@) {
            lemma_out_of_scope_is_absent(served, gvks@[j]@);
        }
    }
    gvks
}

} // verus!
