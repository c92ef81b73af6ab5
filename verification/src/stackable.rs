//! The entry point: a handle to a cluster, and the listing of the kinds that
//! the cluster serves for the platform's operators.

use vstd::prelude::*;
use vstd::multiset::Multiset;
use kube::Discovery;
use crate::cluster::{
    allow_list, discovered_groups, group_views, new_discovery, restrict_discovery, served_groups,
    str_views,
};
use crate::filter::{allowed_groups, is_allowed, GROUP_FILTER};
use crate::gvk::{gvk_views, GroupVersionKind};
use crate::listing::installed_gvks;
use crate::model::{is_listing_of, GroupView};

verus! {

/// Why a listing could not be made.
#[derive(Debug)]
pub enum StackableError {
    /// The cluster could not be asked, or its answer could not be used.
    KubeError { source: kube::Error },
}

impl StackableError {
    /// What went wrong, in words.
    pub fn message(&self) -> (text: String)
        ensures
            text@ == "Kubernetes error"@,
    {
        "Kubernetes error".to_owned()
    }
}

impl From<kube::Error> for StackableError {
    fn from(source: kube::Error) -> (error: StackableError) {
        StackableError::KubeError { source }
    }
}

impl vstd::std_specs::convert::FromSpecImpl<kube::Error> for StackableError {
    open spec fn obeys_from_spec() -> bool {
        true
    }

    open spec fn from_spec(source: kube::Error) -> StackableError {
        StackableError::KubeError { source }
    }
}

/// This can be used to interact with Stackable components in various ways.
pub struct StackableApi {
    client: kube::Client,
}

impl StackableApi {
    /// The cluster connection that this value was made with.
    pub closed spec fn handle(&self) -> kube::Client {
        self.client
    }

    /// Keeps the handle for later use. Nothing is asked of the cluster yet.
    pub fn new(client: kube::Client) -> (api: Self)
        ensures
            api.handle() == client,
    {
        Self { client }
    }

    /// The cluster connection, for the caller who runs the discovery.
    pub fn client(&self) -> (client: &kube::Client)
        ensures
            *client == self.handle(),
    {
        &self.client
    }

    /// A discovery on this cluster that has not run yet: it holds no group,
    /// and is restricted to the groups in scope.
    pub fn discovery(&self) -> (discovery: Discovery)
        ensures
            allow_list(discovery) == Some(allowed_groups()),
            discovered_groups(discovery) == Multiset::<GroupView>::empty(),
    {
        let fresh = new_discovery(&self.client);
        let filter = GROUP_FILTER;
        let allow = filter.as_slice();
        assert(str_views(allow@) =~= allowed_groups());
        restrict_discovery(fresh, allow)
    }

    /// This returns a list of all Stackable CRDs that are installed in the
    /// current cluster/context, given the outcome of a discovery run on it.
    /// This does not yet mean that they are in use anywhere, i.e. that there
    /// are any operators installed for these CRDs or any products deployed.
    ///
    /// A failed run gives the error that wraps its cause, and no list. A run
    /// that succeeded gives one identifier for each resource of each version
    /// of each group in scope, in the order in which the discovery hands its
    /// groups out. No identifier of a group out of scope is in the list,
    /// whatever the discovery holds.
    ///
    /// Results are not currently cached!
    pub fn get_installed_stackable_crds(
        &self,
        discovered: Result<Discovery, kube::Error>,
    ) -> (crds: Result<Vec<GroupVersionKind>, StackableError>)
        ensures
            match discovered {
                Err(source) => crds == Err::<Vec<GroupVersionKind>, StackableError>(
                    StackableError::KubeError { source },
                ),
                Ok(discovery) => crds is Ok && is_listing_of(
                    gvk_views(crds->Ok_0@),
                    discovered_groups(discovery),
                ),
            },
            crds is Ok ==> forall|i: int|
                0 <= i < crds->Ok_0@.len() ==> is_allowed((#[trigger] crds->Ok_0@[i]).group@),
    {
        match discovered {
            Err(source) => Err(StackableError::from(source)),
            Ok(discovery) => {
                let groups = served_groups(&discovery);
                let gvks = installed_gvks(&groups);
                assert(group_views(groups@).to_multiset() == discovered_groups(discovery));
                Ok(gvks)
            },
        }
    }
}

} // verus!
