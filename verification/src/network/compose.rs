//! The part of a compose file that networking reads.
use vstd::prelude::*;

use crate::keymap::{Duplicate, NameMap};

verus! {

/// How a network is driven.
#[derive(Clone, Copy, Debug, PartialEq, Eq, Structural)]
pub enum NetworkDriver {
    Bridge,
    Overlay,
    Host,
}

/// The definition of a network.
#[derive(Clone, Copy, Debug, PartialEq, Eq, Structural)]
pub struct NetworkSpec {
    pub external: Option<bool>,
    pub driver: Option<NetworkDriver>,
}

/// What networking reads of the definition of a service.
#[derive(Debug)]
pub struct ServiceSpec {
    pub container_name: Option<String>,
    pub networks: Vec<String>,
}

/// A compose file: its networks, where it defines any, and its services.
pub struct ComposeSpec {
    pub networks: Option<NameMap<NetworkSpec>>,
    pub services: NameMap<ServiceSpec>,
}

/// What a `ServiceSpec` stands for.
#[verifier::ext_equal]
pub struct ServiceSpecView {
    pub container_name: Option<Seq<char>>,
    pub networks: Seq<Seq<char>>,
}

impl DeepView for NetworkSpec {
    type V = NetworkSpec;

    open spec fn deep_view(&self) -> NetworkSpec {
        *self
    }
}

impl DeepView for ServiceSpec {
    type V = ServiceSpecView;

    open spec fn deep_view(&self) -> ServiceSpecView {
        ServiceSpecView {
            container_name: self.container_name.deep_view(),
            networks: self.networks.deep_view(),
        }
    }
}

impl Duplicate for NetworkSpec {
    fn duplicate(&self) -> (r: Self) {
        *self
    }
}

impl Duplicate for ServiceSpec {
    fn duplicate(&self) -> (r: Self) {
        ServiceSpec {
            container_name: self.container_name.duplicate(),
            networks: self.networks.duplicate(),
        }
    }
}

/// The services of a compose file, each with its name.
pub type Services = Seq<(Seq<char>, ServiceSpecView)>;

} // verus!
