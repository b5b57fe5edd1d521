//! What holds of the networks of a project as a whole.
use vstd::prelude::*;

use crate::keymap::list_of;
use crate::network::addr::Ipv4Addr;
use crate::network::compose::{ServiceSpecView, Services};
use crate::network::model::{
    accepted, all_accepted, allocated, any_by_default, default_network, entered, interface_name,
    is_bridged, joining, joins, joins_of, joins_prefix, plain_bridge, validated, well_ordered,
    Join, Networks,
};
use crate::network::setup::{in_network, interface_of, options_for, runs_service};
use crate::text::{decimal, decimal_is_injective};

verus! {

/// Projects with different names have different default networks.
pub proof fn projects_do_not_share_their_default_network(p: Seq<char>, q: Seq<char>)
    requires
        p != q,
    ensures
        default_network(p) != default_network(q),
{
    let suffix = "_default"@;
    if p + suffix == q + suffix {
        assert((p + suffix).len() == p.len() + suffix.len());
        assert((q + suffix).len() == q.len() + suffix.len());
        assert(p =~= (p + suffix).take(p.len() as int));
        assert(q =~= (q + suffix).take(q.len() as int));
    }
}

/// Interfaces of different places have different names.
pub proof fn interface_names_differ(i: int, j: int)
    requires
        0 <= i,
        0 <= j,
        i != j,
    ensures
        interface_name(i) != interface_name(j),
{
    let prefix = "rCompose"@;
    let a = decimal((i + 1) as nat);
    let b = decimal((j + 1) as nat);
    if prefix + a == prefix + b {
        assert((prefix + a).skip(prefix.len() as int) =~= a);
        assert((prefix + b).skip(prefix.len() as int) =~= b);
        decimal_is_injective((i + 1) as nat, (j + 1) as nat);
    }
}

/// Every bridged network gets an interface, and no two of them the same.
pub proof fn bridged_networks_have_interfaces_of_their_own(
    s: Networks,
    m: Seq<char>,
    n: Seq<char>,
)
    requires
        well_ordered(s),
        is_bridged(s, m),
        is_bridged(s, n),
        m != n,
    ensures
        allocated(s).interfaces.contains_key(m),
        allocated(s).interfaces.contains_key(n),
        allocated(s).interfaces[m] != allocated(s).interfaces[n],
{
    assert(s.order.contains(m));
    assert(s.order.contains(n));
    interface_names_differ(s.order.index_of(m), s.order.index_of(n));
}

/// The join of `service` to the `j`-th network that it names is among the joins of all
/// services.
proof fn join_is_listed(services: Services, default: Seq<char>, i: int, j: int)
    requires
        0 <= i < services.len(),
        0 <= j < joins_of(services[i], default).len(),
    ensures
        joins(services, default).contains(joins_of(services[i], default)[j]),
{
    let before = joins(services.take(i), default);
    let own = joins_of(services[i], default);
    let all = joins(services, default);
    joins_prefix(services, default, i);
    joins_prefix(services, default, i + 1);
    assert((before + own)[before.len() + j] == own[j]);
    assert(all[before.len() + j] == (before + own)[before.len() + j]);
}

/// Every join is one of some service.
proof fn join_has_a_service(services: Services, default: Seq<char>, k: int)
    requires
        0 <= k < joins(services, default).len(),
    ensures
        exists|i: int|
            0 <= i < services.len() && #[trigger] joins_of(services[i], default).contains(
                joins(services, default)[k],
            ),
    decreases services.len(),
{
    let rest = services.drop_last();
    let before = joins(rest, default);
    let own = joins_of(services.last(), default);
    let join = joins(services, default)[k];
    if k < before.len() {
        join_has_a_service(rest, default, k);
        let i = choose|i: int|
            0 <= i < rest.len() && #[trigger] joins_of(rest[i], default).contains(before[k]);
        assert(services[i] == rest[i]);
        assert(joins_of(services[i], default).contains(join));
    } else {
        assert(join == own[k - before.len()]);
        assert(own.contains(join));
        assert(joins_of(services[services.len() - 1], default).contains(join));
    }
}

/// A join puts its service among those that join its network.
proof fn join_makes_a_member(js: Seq<Join>, k: int)
    requires
        0 <= k < js.len(),
    ensures
        joining(js, js[k].network).contains(js[k].service),
{
    let p = |j: Join| j.network == js[k].network;
    let f = |j: Join| j.service;
    let kept = js.filter(p);
    assert(p(js[k]));
    js.lemma_filter_contains(p, k);
    assert(kept.contains(js[k]));
    let i = kept.index_of(js[k]);
    assert(kept.map_values(f)[i] == js[k].service);
}

/// Once a compose file has been taken in, each service is a member of every network that it
/// names, and of the default network where it names none, unless the file defines no networks;
/// then every service is a member of the default network.
pub proof fn services_are_members_of_their_networks(s: Networks, services: Services, i: int, j: int)
    requires
        0 <= i < services.len(),
        0 <= j < joins_of(services[i], default_network(s.project)).len(),
    ensures
        ({
            let d = default_network(s.project);
            let n = joins_of(services[i], d)[j].network;
            let v = validated(s, services);
            &&& v.members.contains_key(n)
            &&& v.members[n].contains(services[i])
        }),
{
    let d = default_network(s.project);
    let js = joins(services, d);
    let join = joins_of(services[i], d)[j];
    let n = join.network;
    join_is_listed(services, d, i, j);
    let k = js.index_of(join);
    assert(js[k] == join);
    join_makes_a_member(js, k);
    let mine = joining(js, n);
    let at = mine.index_of(services[i]);
    assert(mine[at] == services[i]);
    let e = entered(s, js);
    assert(e.members.contains_key(n));
    let old_members = list_of(s.members, n);
    assert((old_members + mine)[old_members.len() + at] == services[i]);
    if s.is_default && n == d {
        assert(services.contains(services[i]));
    }
}

/// Where a compose file defines no networks, the default network is made: a plain bridge with
/// exactly the services of the file in it.
pub proof fn default_network_holds_every_service(s: Networks, services: Services)
    requires
        s.is_default,
    ensures
        ({
            let d = default_network(s.project);
            let v = validated(s, services);
            &&& v.defined.contains_key(d)
            &&& v.defined[d] == plain_bridge()
            &&& v.members.contains_key(d)
            &&& v.members[d] == services
        }),
{
}

/// A compose file is taken in whenever each network that a service names is defined.
pub proof fn defined_networks_are_accepted(s: Networks, services: Services)
    requires
        forall|i: int, j: int|
            0 <= i < services.len() && 0 <= j < services[i].1.networks.len()
                ==> s.defined.contains_key(#[trigger] services[i].1.networks[j]),
    ensures
        all_accepted(s, joins(services, default_network(s.project))),
{
    let d = default_network(s.project);
    let js = joins(services, d);
    assert forall|k: int| 0 <= k < js.len() implies #[trigger] accepted(s, js, k) by {
        join_has_a_service(services, d, k);
        let i = choose|i: int|
            0 <= i < services.len() && #[trigger] joins_of(services[i], d).contains(js[k]);
        let own = joins_of(services[i], d);
        let j = own.index_of(js[k]);
        assert(own[j] == js[k]);
        if !js[k].by_default {
            assert(js[k].network == services[i].1.networks[j]);
            assert(s.defined.contains_key(js[k].network));
        }
    }
}

/// A compose file is refused whenever a service names a network that is neither defined nor
/// the default one, and entering services before that allocates no interface.
pub proof fn undefined_networks_are_refused(s: Networks, services: Services, i: int, j: int)
    requires
        0 <= i < services.len(),
        0 <= j < services[i].1.networks.len(),
        !s.defined.contains_key(services[i].1.networks[j]),
        services[i].1.networks[j] != default_network(s.project),
    ensures
        !all_accepted(s, joins(services, default_network(s.project))),
        forall|js: Seq<Join>| (#[trigger] entered(s, js)).interfaces == s.interfaces,
{
    let d = default_network(s.project);
    let js = joins(services, d);
    let own = joins_of(services[i], d);
    join_is_listed(services, d, i, j);
    let k = js.index_of(own[j]);
    assert(js[k] == own[j]);
    assert(!accepted(s, js, k));
}

/// No network has members without being defined, once a compose file has been taken in by a
/// state where that was so.
pub proof fn members_are_in_defined_networks(s: Networks, services: Services, n: Seq<char>)
    requires
        all_accepted(s, joins(services, default_network(s.project))),
        forall|x: Seq<char>| #[trigger] s.members.contains_key(x) ==> s.defined.contains_key(x),
        validated(s, services).members.contains_key(n),
    ensures
        validated(s, services).defined.contains_key(n),
{
    let d = default_network(s.project);
    let js = joins(services, d);
    if !s.members.contains_key(n) && joining(js, n).len() > 0 {
        let p = |j: Join| j.network == n;
        let kept = js.filter(p);
        js.lemma_filter_pred(p, 0);
        assert(kept.contains(kept[0]));
        js.lemma_filter_contains_rev(p, kept[0]);
        assert(js.contains(kept[0]));
        let k = js.index_of(kept[0]);
        assert(js[k].network == n);
        assert(accepted(s, js, k));
        if js[k].by_default {
            join_has_a_service(services, d, k);
            assert(any_by_default(js));
            let i = choose|i: int|
                0 <= i < services.len() && #[trigger] joins_of(services[i], d).contains(js[k]);
            let own = joins_of(services[i], d);
            assert(own[own.index_of(js[k])] == js[k]);
            assert(n == d);
        } else if !s.defined.contains_key(n) {
            let before = js.take(k);
            assert(any_by_default(before));
            let h = choose|h: int| 0 <= h < before.len() && (#[trigger] before[h]).by_default;
            assert(js[h].by_default);
            assert(any_by_default(js));
            assert(n == d);
        }
    }
}

/// Netavark is told about a network exactly where it is told what holds for the container in
/// it, and that is every network that lists the container's service.
pub proof fn netavark_hears_of_every_network_twice(
    s: Networks,
    id: Seq<char>,
    ip: Ipv4Addr,
    n: Seq<char>,
)
    ensures
        ({
            let o = options_for(s, id, ip);
            &&& o.networks.contains_key(n) <==> o.network_info.contains_key(n)
            &&& o.networks.contains_key(n) <==> in_network(s, n, id)
            &&& o.network_info.contains_key(n) ==> o.network_info[n].name == n
        }),
{
}

/// The container of a service that a taken-in compose file lists under its container name is
/// put into each of the service's networks, under the interface allocated for the network.
pub proof fn started_container_joins_its_networks(
    s: Networks,
    services: Services,
    i: int,
    j: int,
    id: Seq<char>,
    ip: Ipv4Addr,
)
    requires
        all_accepted(s, joins(services, default_network(s.project))),
        forall|x: Seq<char>| #[trigger] s.members.contains_key(x) ==> s.defined.contains_key(x),
        0 <= i < services.len(),
        0 <= j < joins_of(services[i], default_network(s.project)).len(),
        services[i].1.container_name == Some(id),
    ensures
        ({
            let n = joins_of(services[i], default_network(s.project))[j].network;
            let a = allocated(validated(s, services));
            let o = options_for(a, id, ip);
            &&& o.networks.contains_key(n)
            &&& o.networks[n].interface_name == interface_of(a, n)
            &&& is_bridged(a, n) ==> o.networks[n].interface_name == a.interfaces[n]
        }),
{
    let d = default_network(s.project);
    let n = joins_of(services[i], d)[j].network;
    let v = validated(s, services);
    let a = allocated(v);
    services_are_members_of_their_networks(s, services, i, j);
    members_are_in_defined_networks(s, services, n);
    let at = v.members[n].index_of(services[i]);
    assert(runs_service(a, n, id, at));
    assert(in_network(a, n, id));
}

} // verus!
