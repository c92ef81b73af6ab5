//! Group/version/kind identifiers.

use vstd::prelude::*;

verus! {

/// What an identifier is: the three names that point at one resource type.
pub struct GvkView {
    pub group: Seq<char>,
    pub version: Seq<char>,
    pub kind: Seq<char>,
}

/// Identifies one resource type that an API server serves.
#[derive(Debug, Clone, PartialEq, Eq, Hash)]
pub struct GroupVersionKind {
    /// API group
    pub group: String,
    /// Version
    pub version: String,
    /// Kind
    pub kind: String,
}

impl View for GroupVersionKind {
    type V = GvkView;

    open spec fn view(&self) -> GvkView {
        GvkView { group: self.group@, version: self.version@, kind: self.kind@ }
    }
}

/// The identifiers that a vector holds, in its order.
pub open spec fn gvk_views(gvks: Seq<GroupVersionKind>) -> Seq<GvkView> {
    Seq::new(gvks.len(), |i: int| gvks[i]@)
}

impl GroupVersionKind {
    /// Builds an identifier from explicit group, version and kind.
    pub fn gvk(group: &str, version: &str, kind: &str) -> (id: Self)
        ensures
            id@ == (GvkView { group: group@, version: version@, kind: kind@ }),
    {
        GroupVersionKind {
            group: group.to_owned(),
            version: version.to_owned(),
            kind: kind.to_owned(),
        }
    }
}

} // verus!
