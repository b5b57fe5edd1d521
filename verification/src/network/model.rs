//! What a compose file asks of the networks of a project.
use vstd::prelude::*;

use crate::keymap::list_of;
use crate::network::compose::{NetworkDriver, NetworkSpec, ServiceSpecView, Services};
use crate::text::decimal;

verus! {

/// The state of a network manager.
#[verifier::ext_equal]
pub struct Networks {
    /// The name of the project.
    pub project: Seq<char>,
    /// The networks that are defined.
    pub defined: Map<Seq<char>, NetworkSpec>,
    /// The names of those networks, oldest first.
    pub order: Seq<Seq<char>>,
    /// The bridge interface of a network.
    pub interfaces: Map<Seq<char>, Seq<char>>,
    /// The networks that a service names.
    pub attachments: Map<Seq<char>, Seq<Seq<char>>>,
    /// The services in a network.
    pub members: Map<Seq<char>, Services>,
    /// Whether a compose file without networks was read.
    pub is_default: bool,
}

/// Whether the order of a state lists its networks, each of them once.
pub open spec fn well_ordered(s: Networks) -> bool {
    &&& s.order.no_duplicates()
    &&& forall|n: Seq<char>| s.order.contains(n) <==> #[trigger] s.defined.contains_key(n)
}

/// The network for services that name none.
pub open spec fn default_network(project: Seq<char>) -> Seq<char> {
    project + "_default"@
}

/// How the default network is defined.
pub open spec fn plain_bridge() -> NetworkSpec {
    NetworkSpec { external: None, driver: Some(NetworkDriver::Bridge) }
}

/// One service that joins one network; `by_default` when the service names no network.
#[verifier::ext_equal]
pub struct Join {
    pub service: (Seq<char>, ServiceSpecView),
    pub network: Seq<char>,
    pub by_default: bool,
}

/// The networks that one service joins: those that it names, in its order, or else the
/// default network.
pub open spec fn joins_of(service: (Seq<char>, ServiceSpecView), default: Seq<char>) -> Seq<Join> {
    if service.1.networks.len() == 0 {
        seq![Join { service, network: default, by_default: true }]
    } else {
        Seq::new(
            service.1.networks.len(),
            |j: int| Join { service, network: service.1.networks[j], by_default: false },
        )
    }
}

/// The networks that all services join, service by service.
pub open spec fn joins(services: Services, default: Seq<char>) -> Seq<Join>
    decreases services.len(),
{
    if services.len() == 0 {
        Seq::empty()
    } else {
        joins(services.drop_last(), default) + joins_of(services.last(), default)
    }
}

/// The services that join `network`.
pub open spec fn joining(js: Seq<Join>, network: Seq<char>) -> Services {
    js.filter(|j: Join| j.network == network).map_values(|j: Join| j.service)
}

/// The networks that the service `name` names.
pub open spec fn named_by(js: Seq<Join>, name: Seq<char>) -> Seq<Seq<char>> {
    js.filter(|j: Join| !j.by_default && j.service.0 == name).map_values(|j: Join| j.network)
}

/// Whether some service joins the default network for want of another.
pub open spec fn any_by_default(js: Seq<Join>) -> bool {
    exists|k: int| 0 <= k < js.len() && (#[trigger] js[k]).by_default
}

/// The state with `network` defined as a plain bridge.
pub open spec fn with_bridge(s: Networks, network: Seq<char>) -> Networks {
    Networks {
        defined: s.defined.insert(network, plain_bridge()),
        order: if s.defined.contains_key(network) {
            s.order
        } else {
            s.order.push(network)
        },
        ..s
    }
}

/// The state once `js` have been entered: the default network is defined where one of them
/// needs it, each network lists the services that join it behind those that it had, and each
/// service lists the networks that it names.
pub open spec fn entered(s: Networks, js: Seq<Join>) -> Networks {
    let base = if any_by_default(js) {
        with_bridge(s, default_network(s.project))
    } else {
        s
    };
    Networks {
        members: Map::new(
            |n: Seq<char>| s.members.contains_key(n) || joining(js, n).len() > 0,
            |n: Seq<char>| list_of(s.members, n) + joining(js, n),
        ),
        attachments: Map::new(
            |n: Seq<char>| s.attachments.contains_key(n) || named_by(js, n).len() > 0,
            |n: Seq<char>| list_of(s.attachments, n) + named_by(js, n),
        ),
        ..base
    }
}

/// Whether the network of the join in place `k` is defined when its turn comes.
pub open spec fn accepted(s: Networks, js: Seq<Join>, k: int) -> bool {
    js[k].by_default || entered(s, js.take(k)).defined.contains_key(js[k].network)
}

/// Whether every network that a service names is defined when its turn comes.
pub open spec fn all_accepted(s: Networks, js: Seq<Join>) -> bool {
    forall|k: int| 0 <= k < js.len() ==> #[trigger] accepted(s, js, k)
}

/// Whether the join in place `k` is the first whose network is not defined.
pub open spec fn first_refused(s: Networks, js: Seq<Join>, k: int) -> bool {
    &&& 0 <= k < js.len()
    &&& !accepted(s, js, k)
    &&& forall|i: int| 0 <= i < k ==> #[trigger] accepted(s, js, i)
}

/// The state once the networks of a compose file have been read.
pub open spec fn opened(
    s: Networks,
    networks: Option<(Map<Seq<char>, NetworkSpec>, Seq<Seq<char>>)>,
) -> Networks {
    match networks {
        Some(n) => Networks { defined: n.0, order: n.1, ..s },
        None => Networks { is_default: true, ..s },
    }
}

/// The state once all services have been entered. A project without networks of its own gets
/// the default network, with every service in it.
pub open spec fn validated(s: Networks, services: Services) -> Networks {
    let default = default_network(s.project);
    let e = entered(s, joins(services, default));
    if s.is_default {
        Networks { members: e.members.insert(default, services), ..with_bridge(e, default) }
    } else {
        e
    }
}

/// The name of the bridge interface of the network in place `i`.
pub open spec fn interface_name(i: int) -> Seq<char> {
    "rCompose"@ + decimal((i + 1) as nat)
}

/// Whether `network` is driven by a bridge.
pub open spec fn is_bridged(s: Networks, network: Seq<char>) -> bool {
    s.defined.contains_key(network) && s.defined[network].driver == Some(NetworkDriver::Bridge)
}

/// The state once each bridged network has an interface, numbered by its place among the
/// networks.
pub open spec fn allocated(s: Networks) -> Networks {
    Networks {
        interfaces: Map::new(
            |n: Seq<char>| s.interfaces.contains_key(n) || is_bridged(s, n),
            |n: Seq<char>|
                if is_bridged(s, n) {
                    interface_name(s.order.index_of(n))
                } else {
                    s.interfaces[n]
                },
        ),
        ..s
    }
}

/// Whether every network has a driver that interfaces can be allocated for.
pub open spec fn drivable(s: Networks) -> bool {
    forall|n: Seq<char>| #[trigger]
        s.defined.contains_key(n) ==> s.defined[n].driver != Some(NetworkDriver::Overlay)
            && s.defined[n].driver != Some(NetworkDriver::Host)
}

/// `js` with one more join at its end, sorted by a property of joins.
proof fn filter_of_push(js: Seq<Join>, j: Join, p: spec_fn(Join) -> bool)
    ensures
        js.push(j).filter(p) == (if p(j) {
            js.filter(p).push(j)
        } else {
            js.filter(p)
        }),
{
    reveal(Seq::filter);
    assert(js.push(j).drop_last() =~= js);
}

/// Nothing has been entered where there are no joins.
pub proof fn entered_nothing(s: Networks)
    ensures
        entered(s, Seq::empty()) == s,
{
    reveal(Seq::filter);
    let none = Seq::<Join>::empty();
    let nobody: Services = Seq::empty();
    assert forall|n: Seq<char>| joining(none, n) =~= nobody by {
    }
    assert forall|n: Seq<char>| named_by(none, n) =~= Seq::<Seq<char>>::empty() by {
    }
    assert forall|n: Seq<char>| s.members.contains_key(n) implies list_of(s.members, n) + joining(
        none,
        n,
    ) =~= s.members[n] by {
    }
    assert forall|n: Seq<char>| s.attachments.contains_key(n) implies list_of(s.attachments, n)
        + named_by(none, n) =~= s.attachments[n] by {
    }
    assert(entered(s, none).members =~= s.members);
    assert(entered(s, none).attachments =~= s.attachments);
    assert(entered(s, none) =~= s);
}

/// The state with `service` behind the services that `network` had.
pub open spec fn with_member(
    s: Networks,
    network: Seq<char>,
    service: (Seq<char>, ServiceSpecView),
) -> Networks {
    Networks {
        members: s.members.insert(network, list_of(s.members, network).push(service)),
        ..s
    }
}

/// The state with `network` behind the networks that the service `name` had.
pub open spec fn with_attachment(s: Networks, name: Seq<char>, network: Seq<char>) -> Networks {
    Networks {
        attachments: s.attachments.insert(name, list_of(s.attachments, name).push(network)),
        ..s
    }
}

/// What one more join adds.
pub proof fn entered_push(s: Networks, js: Seq<Join>, j: Join)
    ensures
        entered(s, js.push(j)) == (if j.by_default {
            with_bridge(
                with_member(entered(s, js), j.network, j.service),
                default_network(s.project),
            )
        } else {
            with_member(
                with_attachment(entered(s, js), j.service.0, j.network),
                j.network,
                j.service,
            )
        }),
{
    let e = entered(s, js);
    let f = entered(s, js.push(j));
    assert forall|n: Seq<char>| joining(js.push(j), n) =~= (if j.network == n {
        joining(js, n).push(j.service)
    } else {
        joining(js, n)
    }) by {
        filter_of_push(js, j, |x: Join| x.network == n);
    }
    assert forall|n: Seq<char>| named_by(js.push(j), n) =~= (if !j.by_default && j.service.0 == n {
        named_by(js, n).push(j.network)
    } else {
        named_by(js, n)
    }) by {
        filter_of_push(js, j, |x: Join| !x.by_default && x.service.0 == n);
    }
    let members = e.members.insert(j.network, list_of(e.members, j.network).push(j.service));
    assert forall|n: Seq<char>| members.contains_key(n) implies f.members[n] =~= members[n] by {
        if n == j.network {
            assert(list_of(e.members, n) =~= list_of(s.members, n) + joining(js, n));
        }
    }
    assert(f.members =~= members);
    if j.by_default {
        assert(f.attachments =~= e.attachments);
    } else {
        let name = j.service.0;
        let attachments = e.attachments.insert(
            name,
            list_of(e.attachments, name).push(j.network),
        );
        assert forall|n: Seq<char>| attachments.contains_key(n) implies f.attachments[n]
            =~= attachments[n] by {
            if n == name {
                assert(list_of(e.attachments, n) =~= list_of(s.attachments, n) + named_by(js, n));
            }
        }
        assert(f.attachments =~= attachments);
    }
    assert(any_by_default(js.push(j)) == (any_by_default(js) || j.by_default)) by {
        if any_by_default(js) {
            let k = choose|k: int| 0 <= k < js.len() && (#[trigger] js[k]).by_default;
            assert(js.push(j)[k].by_default);
        }
        if j.by_default {
            assert(js.push(j)[js.len() as int].by_default);
        }
        if any_by_default(js.push(j)) {
            let k = choose|k: int|
                0 <= k < js.push(j).len() && (#[trigger] js.push(j)[k]).by_default;
            if k < js.len() {
                assert(js[k].by_default);
            }
        }
    }
    let d = default_network(s.project);
    assert(with_bridge(with_bridge(s, d), d).defined =~= with_bridge(s, d).defined);
}

/// The joins of the first services are a prefix of the joins of all.
pub proof fn joins_prefix(services: Services, default: Seq<char>, i: int)
    requires
        0 <= i <= services.len(),
    ensures
        joins(services.take(i), default).is_prefix_of(joins(services, default)),
        i < services.len() ==> (joins(services.take(i), default) + joins_of(services[i], default)
            == joins(services.take(i + 1), default)),
    decreases services.len() - i,
{
    if i == services.len() {
        assert(services.take(i) =~= services);
    } else {
        assert(services.take(i + 1).drop_last() =~= services.take(i));
        joins_prefix(services, default, i + 1);
        let shorter = joins(services.take(i), default);
        let longer = joins(services.take(i + 1), default);
        assert(longer == shorter + joins_of(services[i], default));
        let all = joins(services, default);
        assert(all.take(shorter.len() as int) =~= all.take(longer.len() as int).take(
            shorter.len() as int,
        ));
        assert(shorter =~= all.take(shorter.len() as int));
    }
}

} // verus!
