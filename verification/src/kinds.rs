//! Concrete resource-type descriptors.
//!
//! Each resource kind is one small descriptor implementing
//! [`MustGatherK8sResource`]; further kinds are defined the same way.

use vstd::prelude::*;

use crate::k8s_resources::{
    default_kind_plural, default_plural, K8sResourceScope, MustGatherK8sResource,
};

verus! {

/// The Machine resources of the machine API group.
pub struct Machine;

impl MustGatherK8sResource for Machine {
    open spec fn spec_group() -> Seq<char> {
        "machine.openshift.io"@
    }

    open spec fn spec_kind() -> Seq<char> {
        "machine"@
    }

    open spec fn spec_kind_plural() -> Seq<char> {
        default_plural(Self::spec_kind())
    }

    fn get_group() -> (r: String) {
        "machine.openshift.io".to_owned()
    }

    fn get_kind() -> (r: String) {
        "machine".to_owned()
    }

    fn get_kind_plural() -> (r: String) {
        default_kind_plural("machine")
    }

    fn get_resource_scope() -> K8sResourceScope {
        K8sResourceScope::Namespaced
    }
}

/// The Deployment resources of the apps group.
pub struct Deployment;

impl MustGatherK8sResource for Deployment {
    open spec fn spec_group() -> Seq<char> {
        "apps"@
    }

    open spec fn spec_kind() -> Seq<char> {
        "deployment"@
    }

    open spec fn spec_kind_plural() -> Seq<char> {
        default_plural(Self::spec_kind())
    }

    fn get_group() -> (r: String) {
        "apps".to_owned()
    }

    fn get_kind() -> (r: String) {
        "deployment".to_owned()
    }

    fn get_kind_plural() -> (r: String) {
        default_kind_plural("deployment")
    }

    fn get_resource_scope() -> K8sResourceScope {
        K8sResourceScope::Namespaced
    }
}

} // verus!
