//! Changes to the records of the DNS daemon, and where it listens.
use vstd::prelude::*;
use vstd::string::*;

use crate::dns::name::{lower_name, LowerName};
use crate::network::addr::{IpAddr, Ipv4Addr};
use crate::network::error::NetworkError;
use crate::network::manager::NetworkManager;
use crate::network::setup::StartedContainer;
use crate::text::{decimal, decimal_text};

verus! {

/// What to do with a record.
#[derive(Clone, Copy, Debug, PartialEq, Eq, Structural)]
pub enum UpdateAction {
    Add,
    Update,
    Delete,
}

/// A change to the record of a name.
#[derive(Debug)]
pub struct DNSUpdateMsg {
    pub action: UpdateAction,
    pub name: LowerName,
    pub ip: Ipv4Addr,
}

/// How often the connection to the DNS daemon is tried.
pub const CONNECT_RETRIES: usize = 5;

/// How long to wait before it is tried again.
pub const CONNECT_DELAY_MS: u64 = 200;

impl NetworkManager {
    /// The change that puts `ip` under `domain`, which must be a name.
    pub fn add_dns_record(&self, domain: &str, ip: Ipv4Addr) -> (r: DNSUpdateMsg)
        requires
            lower_name(domain@) is Some,
        ensures
            r.action == UpdateAction::Add,
            Some(r.name.deep_view()) == lower_name(domain@),
            r.ip == ip,
    {
        DNSUpdateMsg {
            action: UpdateAction::Add,
            name: LowerName::parse(domain).unwrap(),
            ip,
        }
    }

    /// The change that puts `ip` under `domain`, where `domain` is a name.
    pub fn try_add_dns_record(&self, domain: &str, ip: Ipv4Addr) -> (r: Option<DNSUpdateMsg>)
        ensures
            r is Some <==> lower_name(domain@) is Some,
            r matches Some(msg) ==> msg.action == UpdateAction::Add && Some(msg.name.deep_view())
                == lower_name(domain@) && msg.ip == ip,
    {
        match LowerName::parse(domain) {
            Some(_) => Some(self.add_dns_record(domain, ip)),
            None => None,
        }
    }
}

impl NetworkManager {
    /// The change that makes a container that has started known under `domain`, which must be
    /// a name; the container must have an IPv4 address.
    pub fn record_of_started(&self, domain: &str, runner: &StartedContainer) -> (r: Result<
        DNSUpdateMsg,
        NetworkError,
    >)
        requires
            lower_name(domain@) is Some,
        ensures
            match runner.ip {
                Some(IpAddr::V4(ip)) => {
                    &&& r matches Ok(msg)
                    &&& msg.action == UpdateAction::Add
                    &&& Some(msg.name.deep_view()) == lower_name(domain@)
                    &&& msg.ip == ip
                },
                Some(IpAddr::V6(_)) => r matches Err(NetworkError::UnsupportedIpv6),
                None => {
                    r matches Err(NetworkError::EmptyAddress { container }) && container@
                        == runner.id@
                },
            },
    {
        match runner.ip {
            Some(IpAddr::V4(ip)) => Ok(self.add_dns_record(domain, ip)),
            Some(IpAddr::V6(_)) => Err(NetworkError::UnsupportedIpv6),
            None => Err(NetworkError::EmptyAddress { container: runner.id.clone() }),
        }
    }

    /// The change that makes a container that has started known under `domain`, where
    /// `domain` is a name.
    pub fn try_record_of_started(&self, domain: &str, runner: &StartedContainer) -> (r: Option<
        Result<DNSUpdateMsg, NetworkError>,
    >)
        ensures
            r is Some <==> lower_name(domain@) is Some,
            r matches Some(record) ==> match runner.ip {
                Some(IpAddr::V4(ip)) => {
                    &&& record matches Ok(msg)
                    &&& msg.action == UpdateAction::Add
                    &&& Some(msg.name.deep_view()) == lower_name(domain@)
                    &&& msg.ip == ip
                },
                Some(IpAddr::V6(_)) => record matches Err(NetworkError::UnsupportedIpv6),
                None => {
                    record matches Err(NetworkError::EmptyAddress { container }) && container@
                        == runner.id@
                },
            },
    {
        match LowerName::parse(domain) {
            Some(_) => Some(self.record_of_started(domain, runner)),
            None => None,
        }
    }
}

/// Where the DNS daemon listens: on `port` of every address of the host.
pub fn listen_address(port: u16) -> (r: String)
    ensures
        r@ == "0.0.0.0:"@ + decimal(port as nat),
{
    "0.0.0.0:".to_string().concat(decimal_text(port as u64).as_str())
}

} // verus!
