//! What can go wrong with a network.
use vstd::prelude::*;
use vstd::string::*;

use crate::text::{decimal, decimal_text};

verus! {

#[derive(Debug)]
pub enum NetworkError {
    /// A service names a network that is not defined.
    NotDefined { network: String },
    /// No bridge interface was allocated for the network.
    NoInterface { network: String },
    /// The container has no address.
    EmptyAddress { container: String },
    /// The container's address is not an IPv4 one.
    UnsupportedIpv6,
    /// The state of the container holds no process id.
    NoPid { container: String },
    /// The container's network namespace is not there.
    NoNetns { container: String, path: String },
    /// Netavark could not set the container's networks up.
    SetupFailed { container: String, reason: String },
    /// The DNS daemon did not take a record.
    RecordRefused { service: String, reply: String },
    /// The DNS daemon could not be reached.
    Unreachable { attempts: usize, reason: String },
}

impl NetworkError {
    /// Whether the error says that `name` is not defined.
    pub open spec fn reports_undefined(&self, name: Seq<char>) -> bool {
        match self {
            NetworkError::NotDefined { network } => network@ == name,
            _ => false,
        }
    }

    /// The text shown for the error.
    pub open spec fn text(&self) -> Seq<char> {
        match self {
            NetworkError::NotDefined { network } => {
                "bad network's definition network "@ + network@ + " is not defined"@
            },
            NetworkError::NoInterface { network } => {
                "Failed to find bridge interface for network "@ + network@
            },
            NetworkError::EmptyAddress { container } => {
                "[container "@ + container@ + "]Empty IP address"@
            },
            NetworkError::UnsupportedIpv6 => "Unsupported ipv6 type"@,
            NetworkError::NoPid { container } => {
                "[container "@ + container@ + "] PID not found"@
            },
            NetworkError::NoNetns { container, path } => {
                "[container "@ + container@ + "] netns path not found: "@ + path@
            },
            NetworkError::SetupFailed { container, reason } => {
                "[container "@ + container@ + "] netavark setup failed: "@ + reason@
            },
            NetworkError::RecordRefused { service, reply } => {
                "fail to add "@ + service@ + "'s dns record, got DNS Server response: "@ + reply@
            },
            NetworkError::Unreachable { attempts, reason } => {
                "Fatal error: failed to connect local DNS SOCKET after "@ + decimal(
                    *attempts as nat,
                ) + " attempts: "@ + reason@
            },
        }
    }

    /// The text shown for the error.
    pub fn message(&self) -> (r: String)
        ensures
            r@ == self.text(),
            r@ == (match self {
                NetworkError::NotDefined { network } => {
                    "bad network's definition network "@ + network@ + " is not defined"@
                },
                NetworkError::NoInterface { network } => {
                    "Failed to find bridge interface for network "@ + network@
                },
                NetworkError::EmptyAddress { container } => {
                    "[container "@ + container@ + "]Empty IP address"@
                },
                NetworkError::UnsupportedIpv6 => "Unsupported ipv6 type"@,
                NetworkError::NoPid { container } => {
                    "[container "@ + container@ + "] PID not found"@
                },
                NetworkError::NoNetns { container, path } => {
                    "[container "@ + container@ + "] netns path not found: "@ + path@
                },
                NetworkError::SetupFailed { container, reason } => {
                    "[container "@ + container@ + "] netavark setup failed: "@ + reason@
                },
                NetworkError::RecordRefused { service, reply } => {
                    "fail to add "@ + service@ + "'s dns record, got DNS Server response: "@ + reply@
                },
                NetworkError::Unreachable { attempts, reason } => {
                    "Fatal error: failed to connect local DNS SOCKET after "@ + decimal(
                        *attempts as nat,
                    ) + " attempts: "@ + reason@
                },
            }),
    {
        match self {
            NetworkError::NotDefined { network } => {
                "bad network's definition network ".to_string().concat(network.as_str()).concat(
                    " is not defined",
                )
            },
            NetworkError::NoInterface { network } => {
                "Failed to find bridge interface for network ".to_string().concat(network.as_str())
            },
            NetworkError::EmptyAddress { container } => {
                "[container ".to_string().concat(container.as_str()).concat("]Empty IP address")
            },
            NetworkError::UnsupportedIpv6 => "Unsupported ipv6 type".to_string(),
            NetworkError::NoPid { container } => {
                "[container ".to_string().concat(container.as_str()).concat("] PID not found")
            },
            NetworkError::NoNetns { container, path } => {
                "[container ".to_string().concat(container.as_str()).concat(
                    "] netns path not found: ",
                ).concat(path.as_str())
            },
            NetworkError::SetupFailed { container, reason } => {
                "[container ".to_string().concat(container.as_str()).concat(
                    "] netavark setup failed: ",
                ).concat(reason.as_str())
            },
            NetworkError::RecordRefused { service, reply } => {
                "fail to add ".to_string().concat(service.as_str()).concat(
                    "'s dns record, got DNS Server response: ",
                ).concat(reply.as_str())
            },
            NetworkError::Unreachable { attempts, reason } => {
                "Fatal error: failed to connect local DNS SOCKET after ".to_string().concat(
                    decimal_text(*attempts as u64).as_str(),
                ).concat(" attempts: ").concat(reason.as_str())
            },
        }
    }
}

/// An error reports that a network is undefined exactly if it is of that kind and has the name
/// of that network.
pub proof fn undefined_networks_are_named(error: NetworkError, name: Seq<char>)
    ensures
        error.reports_undefined(name) <==> error is NotDefined && (error->NotDefined_network)@
            == name,
{
}

} // verus!
