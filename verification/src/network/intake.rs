//! What taking in a compose file comes to, in terms of the file.
use vstd::prelude::*;

use crate::keymap::list_of;
use crate::network::compose::{
    ComposeSpec, NetworkDriver, NetworkSpec, ServiceSpec, ServiceSpecView, Services,
};
use crate::network::model::{
    accepted, all_accepted, allocated, any_by_default, default_network, drivable, entered,
    entered_nothing, entered_push, first_refused, joins, joins_of, joins_prefix, opened, validated,
    well_ordered, Join, Networks,
};
use crate::text::decimal;

verus! {

/// The default network of a project is named after it.
pub proof fn default_network_is_named_after_the_project(project: Seq<char>)
    ensures
        default_network(project).take(project.len() as int) == project,
        default_network(project).skip(project.len() as int) == "_default"@,
{
    assert(default_network(project).take(project.len() as int) =~= project);
    assert(default_network(project).skip(project.len() as int) =~= "_default"@);
}

/// A file that defines networks replaces those that were there, and one that defines none
/// leaves them and asks for the default network; nothing else changes.
pub proof fn reading_the_networks(
    s: Networks,
    defined: Map<Seq<char>, NetworkSpec>,
    order: Seq<Seq<char>>,
)
    ensures
        ({
            let o = opened(s, Some((defined, order)));
            &&& o.defined == defined && o.order == order && o.is_default == s.is_default
            &&& o.project == s.project && o.interfaces == s.interfaces
            &&& o.attachments == s.attachments && o.members == s.members
        }),
        ({
            let o = opened(s, None);
            &&& o.is_default
            &&& o.defined == s.defined && o.order == s.order && o.project == s.project
            &&& o.interfaces == s.interfaces && o.attachments == s.attachments
            &&& o.members == s.members
        }),
{
}

proof fn count_of_one_more(names: Seq<Seq<char>>, name: Seq<char>, n: Seq<char>)
    ensures
        names.push(name).to_multiset().count(n) == names.to_multiset().count(n) + (if name == n {
            1int
        } else {
            0
        }),
{
    names.to_multiset_ensures();
}

proof fn count_of_a_single(name: Seq<char>, n: Seq<char>)
    ensures
        seq![name].to_multiset().count(n) == (if name == n {
            1int
        } else {
            0
        }),
{
    let none = Seq::<Seq<char>>::empty();
    none.to_multiset_ensures();
    assert(none.to_multiset().len() == 0);
    count_of_one_more(none, name, n);
    assert(none.push(name) =~= seq![name]);
}

/// What the first `j` networks that `x` names add.
proof fn entering_named_networks(
    s: Networks,
    js: Seq<Join>,
    x: (Seq<char>, ServiceSpecView),
    d: Seq<char>,
    j: int,
)
    requires
        0 <= j <= x.1.networks.len(),
        x.1.networks.len() > 0,
    ensures
        ({
            let e = entered(s, js);
            let f = entered(s, js + joins_of(x, d).take(j));
            let names = x.1.networks.take(j);
            &&& f.defined == e.defined && f.order == e.order && f.project == e.project
            &&& f.interfaces == e.interfaces && f.is_default == e.is_default
            &&& forall|n: Seq<char>| #[trigger]
                f.members.contains_key(n) <==> e.members.contains_key(n) || names.to_multiset().count(n) > 0
            &&& forall|n: Seq<char>| #[trigger]
                list_of(f.members, n) == list_of(e.members, n) + Seq::new(
                    names.to_multiset().count(n),
                    |k: int| x,
                )
            &&& forall|a: Seq<char>| #[trigger]
                f.attachments.contains_key(a) <==> e.attachments.contains_key(a) || a == x.0 && j
                    > 0
            &&& forall|a: Seq<char>| #[trigger]
                list_of(f.attachments, a) == list_of(e.attachments, a) + (if a == x.0 {
                    names
                } else {
                    Seq::empty()
                })
        }),
    decreases j,
{
    let own = joins_of(x, d);
    let e = entered(s, js);
    let f = entered(s, js + own.take(j));
    let names = x.1.networks.take(j);
    if j == 0 {
        assert(js + own.take(0) =~= js);
        assert(names =~= Seq::empty());
        names.to_multiset_ensures();
        assert(names.to_multiset().len() == 0);
        assert forall|n: Seq<char>| #[trigger] list_of(f.members, n) == list_of(e.members, n)
            + Seq::new(names.to_multiset().count(n), |k: int| x) by {
            assert(list_of(e.members, n) + Seq::new(
                names.to_multiset().count(n),
                |k: int| x,
            ) =~= list_of(e.members, n));
        }
        assert forall|a: Seq<char>| #[trigger] list_of(f.attachments, a) == list_of(
            e.attachments,
            a,
        ) + (if a == x.0 {
            names
        } else {
            Seq::empty()
        }) by {
            assert(list_of(e.attachments, a) + Seq::<Seq<char>>::empty() =~= list_of(
                e.attachments,
                a,
            ));
        }
    } else {
        entering_named_networks(s, js, x, d, j - 1);
        let before = js + own.take(j - 1);
        let g = entered(s, before);
        let name = x.1.networks[j - 1];
        let less = x.1.networks.take(j - 1);
        assert(js + own.take(j) =~= before.push(own[j - 1]));
        entered_push(s, before, own[j - 1]);
        assert(names =~= less.push(name));
        assert forall|n: Seq<char>| #[trigger] f.members.contains_key(n) <==> (
        e.members.contains_key(n) || names.to_multiset().count(n) > 0) by {
            count_of_one_more(less, name, n);
        }
        assert forall|n: Seq<char>| #[trigger] list_of(f.members, n) == list_of(e.members, n)
            + Seq::new(names.to_multiset().count(n), |k: int| x) by {
            count_of_one_more(less, name, n);
            let old_copies = Seq::new(less.to_multiset().count(n), |k: int| x);
            let copies = Seq::new(names.to_multiset().count(n), |k: int| x);
            assert(list_of(g.members, n) == list_of(e.members, n) + old_copies);
            if n == name {
                assert(list_of(f.members, n) == list_of(g.members, n).push(x));
                assert(copies =~= old_copies.push(x));
                assert((list_of(e.members, n) + old_copies).push(x) =~= list_of(e.members, n)
                    + copies);
            } else {
                assert(copies =~= old_copies);
                assert(list_of(f.members, n) == list_of(g.members, n));
            }
        }
        assert forall|a: Seq<char>| #[trigger] list_of(f.attachments, a) == list_of(
            e.attachments,
            a,
        ) + (if a == x.0 {
            names
        } else {
            Seq::empty()
        }) by {
            assert(list_of(g.attachments, a) == list_of(e.attachments, a) + (if a == x.0 {
                less
            } else {
                Seq::empty()
            }));
            if a == x.0 {
                assert(list_of(f.attachments, a) == list_of(g.attachments, a).push(name));
                assert((list_of(e.attachments, a) + less).push(name) =~= list_of(e.attachments, a)
                    + names);
            }
        }
    }
}

/// What one more service adds.
proof fn entering_one_more_service(s: Networks, services: Services, x: (Seq<char>, ServiceSpecView))
    ensures
        ({
            let d = default_network(s.project);
            let e = entered(s, joins(services, d));
            let f = entered(s, joins(services.push(x), d));
            let names = if x.1.networks.len() == 0 {
                seq![d]
            } else {
                x.1.networks
            };
            &&& f.project == e.project && f.interfaces == e.interfaces && f.is_default
                == e.is_default
            &&& forall|n: Seq<char>| #[trigger]
                f.members.contains_key(n) <==> e.members.contains_key(n) || names.to_multiset().count(n) > 0
            &&& forall|n: Seq<char>| #[trigger]
                list_of(f.members, n) == list_of(e.members, n) + Seq::new(
                    names.to_multiset().count(n),
                    |k: int| x,
                )
            &&& forall|a: Seq<char>| #[trigger]
                f.attachments.contains_key(a) <==> e.attachments.contains_key(a) || a == x.0
                    && x.1.networks.len() > 0
            &&& forall|a: Seq<char>| #[trigger]
                list_of(f.attachments, a) == list_of(e.attachments, a) + (if a == x.0 {
                    x.1.networks
                } else {
                    Seq::empty()
                })
        }),
{
    let d = default_network(s.project);
    let js = joins(services, d);
    let own = joins_of(x, d);
    let e = entered(s, js);
    let f = entered(s, joins(services.push(x), d));
    assert(services.push(x).drop_last() =~= services);
    assert(joins(services.push(x), d) == js + own);
    if x.1.networks.len() == 0 {
        let names = seq![d];
        entered_push(s, js, own[0]);
        assert(js + own =~= js.push(own[0]));
        assert forall|n: Seq<char>| #[trigger] f.members.contains_key(n) <==> (
        e.members.contains_key(n) || names.to_multiset().count(n) > 0) by {
            count_of_a_single(d, n);
        }
        assert forall|n: Seq<char>| #[trigger] list_of(f.members, n) == list_of(e.members, n)
            + Seq::new(names.to_multiset().count(n), |k: int| x) by {
            count_of_a_single(d, n);
            let copies = Seq::new(names.to_multiset().count(n), |k: int| x);
            if n == d {
                assert(list_of(f.members, n) =~= list_of(e.members, n) + copies);
            } else {
                assert(list_of(e.members, n) + copies =~= list_of(e.members, n));
            }
        }
        assert forall|a: Seq<char>| #[trigger] list_of(f.attachments, a) == list_of(
            e.attachments,
            a,
        ) + (if a == x.0 {
            x.1.networks
        } else {
            Seq::empty()
        }) by {
            assert(x.1.networks =~= Seq::empty());
            assert(list_of(e.attachments, a) + Seq::<Seq<char>>::empty() =~= list_of(
                e.attachments,
                a,
            ));
        }
    } else {
        entering_named_networks(s, js, x, d, x.1.networks.len() as int);
        assert(own.take(x.1.networks.len() as int) =~= own);
        assert(x.1.networks.take(x.1.networks.len() as int) =~= x.1.networks);
    }
}

/// One more service at the end of a file changes this and nothing else: each network lists the
/// service once more for each time that the service names it, behind those it listed; a service
/// that names none is listed by the default network; and the service is attached to the
/// networks that it names, in its order. The default network of a project without networks of
/// its own lists every service instead.
pub proof fn one_more_service(
    s: Networks,
    services: Services,
    x: (Seq<char>, ServiceSpecView),
    n: Seq<char>,
    a: Seq<char>,
)
    ensures
        ({
            let d = s.project + "_default"@;
            let v = validated(s, services);
            let w = validated(s, services.push(x));
            let times = if x.1.networks.len() > 0 {
                x.1.networks.to_multiset().count(n)
            } else if n == d {
                1
            } else {
                0
            };
            let listed = if v.members.contains_key(n) {
                v.members[n]
            } else {
                Seq::empty()
            };
            let attached = if v.attachments.contains_key(a) {
                v.attachments[a]
            } else {
                Seq::empty()
            };
            &&& s.is_default && n == d ==> w.members.contains_key(n) && w.members[n]
                == services.push(x)
            &&& !(s.is_default && n == d) ==> (w.members.contains_key(n)
                <==> v.members.contains_key(n) || times > 0)
            &&& !(s.is_default && n == d) && w.members.contains_key(n) ==> w.members[n] == listed
                + Seq::new(times, |k: int| x)
            &&& w.attachments.contains_key(a) <==> v.attachments.contains_key(a) || a == x.0
                && x.1.networks.len() > 0
            &&& w.attachments.contains_key(a) ==> w.attachments[a] == attached + (if a == x.0 {
                x.1.networks
            } else {
                Seq::empty()
            })
        }),
{
    let d = default_network(s.project);
    let e = entered(s, joins(services, d));
    let f = entered(s, joins(services.push(x), d));
    entering_one_more_service(s, services, x);
    let names = if x.1.networks.len() == 0 {
        seq![d]
    } else {
        x.1.networks
    };
    if x.1.networks.len() == 0 {
        count_of_a_single(d, n);
    }
    assert(list_of(f.members, n) == list_of(e.members, n) + Seq::new(
        names.to_multiset().count(n),
        |k: int| x,
    ));
    assert(list_of(f.attachments, a) == list_of(e.attachments, a) + (if a == x.0 {
        x.1.networks
    } else {
        Seq::empty()
    }));
}

/// A file without services enters none, and makes the default network only for a project
/// without networks of its own.
pub proof fn no_services(s: Networks)
    ensures
        ({
            let d = s.project + "_default"@;
            let v = validated(s, Seq::empty());
            &&& v.attachments == s.attachments
            &&& v.members == (if s.is_default {
                s.members.insert(d, Seq::empty())
            } else {
                s.members
            })
        }),
{
    entered_nothing(s);
}

proof fn some_join_is_by_default(services: Services, d: Seq<char>)
    ensures
        any_by_default(joins(services, d)) <==> exists|i: int|
            0 <= i < services.len() && (#[trigger] services[i]).1.networks.len() == 0,
    decreases services.len(),
{
    let js = joins(services, d);
    if services.len() > 0 {
        let rest = services.drop_last();
        let own = joins_of(services.last(), d);
        let before = joins(rest, d);
        some_join_is_by_default(rest, d);
        if any_by_default(js) {
            let k = choose|k: int| 0 <= k < js.len() && (#[trigger] js[k]).by_default;
            if k < before.len() {
                assert(before[k].by_default);
                let i = choose|i: int|
                    0 <= i < rest.len() && (#[trigger] rest[i]).1.networks.len() == 0;
                assert(services[i] == rest[i]);
            } else {
                assert(js[k] == own[k - before.len()]);
                assert(services[services.len() - 1].1.networks.len() == 0);
            }
        }
        if exists|i: int| 0 <= i < services.len() && (#[trigger] services[i]).1.networks.len() == 0 {
            let i = choose|i: int|
                0 <= i < services.len() && (#[trigger] services[i]).1.networks.len() == 0;
            if i < rest.len() {
                assert(rest[i] == services[i]);
                let k = choose|k: int| 0 <= k < before.len() && (#[trigger] before[k]).by_default;
                assert(js[k].by_default);
            } else {
                assert(js[before.len() as int] == own[0]);
                assert(js[before.len() as int].by_default);
            }
        }
    }
}

/// The networks after a file was taken in are those that were there and, where a service names
/// none or the project has no networks of its own, the default one, which is a bridge without
/// further settings. It comes last unless it was there. The project, its interfaces and its
/// mode stay.
pub proof fn networks_of_a_file(s: Networks, services: Services, n: Seq<char>)
    ensures
        ({
            let d = s.project + "_default"@;
            let v = validated(s, services);
            let wanted = s.is_default || exists|i: int|
                0 <= i < services.len() && (#[trigger] services[i]).1.networks.len() == 0;
            &&& v.defined.contains_key(n) <==> s.defined.contains_key(n) || wanted && n == d
            &&& wanted && n == d ==> v.defined[n].driver == Some(NetworkDriver::Bridge)
                && v.defined[n].external == None::<bool>
            &&& !(wanted && n == d) && s.defined.contains_key(n) ==> v.defined[n] == s.defined[n]
            &&& v.order == (if wanted && !s.defined.contains_key(d) {
                s.order.push(d)
            } else {
                s.order
            })
            &&& v.project == s.project && v.interfaces == s.interfaces && v.is_default
                == s.is_default
        }),
{
    some_join_is_by_default(services, default_network(s.project));
}

/// Interfaces are allocated for exactly the networks that a bridge drives, whatever their other
/// settings, on top of those that were there. The interface of such a network is `rCompose`
/// and the place of the network, counted from one. Nothing else changes.
pub proof fn bridges_get_interfaces(s: Networks, n: Seq<char>, place: int)
    requires
        s.order.no_duplicates(),
        0 <= place < s.order.len(),
        s.order[place] == n,
    ensures
        ({
            let a = allocated(s);
            let bridged = s.defined.contains_key(n) && s.defined[n].driver == Some(
                NetworkDriver::Bridge,
            );
            &&& a.interfaces.contains_key(n) <==> s.interfaces.contains_key(n) || bridged
            &&& bridged ==> a.interfaces[n] == "rCompose"@ + decimal((place + 1) as nat)
            &&& !bridged && s.interfaces.contains_key(n) ==> a.interfaces[n] == s.interfaces[n]
            &&& a.defined == s.defined && a.order == s.order && a.project == s.project
            &&& a.members == s.members && a.attachments == s.attachments && a.is_default
                == s.is_default
        }),
{
    assert(s.order.contains(n));
    assert(s.order.index_of(n) == place);
}

/// Names that are no network of the project keep what they had.
pub proof fn other_names_get_no_interface(s: Networks, n: Seq<char>)
    requires
        !s.defined.contains_key(n),
    ensures
        allocated(s).interfaces.contains_key(n) <==> s.interfaces.contains_key(n),
        s.interfaces.contains_key(n) ==> allocated(s).interfaces[n] == s.interfaces[n],
{
}

/// Interfaces can be allocated unless some network is driven as an overlay or by the host.
pub proof fn overlays_and_hosts_are_not_driven(s: Networks)
    ensures
        drivable(s) <==> !exists|n: Seq<char>|
            #[trigger] s.defined.contains_key(n) && (s.defined[n].driver == Some(
                NetworkDriver::Overlay,
            ) || s.defined[n].driver == Some(NetworkDriver::Host)),
{
}

proof fn joins_before(services: Services, d: Seq<char>, i: int, j: int)
    requires
        0 <= i < services.len(),
        0 <= j < joins_of(services[i], d).len(),
    ensures
        ({
            let js = joins(services, d);
            let k = joins(services.take(i), d).len() + j;
            &&& k < js.len()
            &&& js[k] == joins_of(services[i], d)[j]
            &&& js.take(k) == joins(services.take(i), d) + joins_of(services[i], d).take(j)
        }),
{
    let js = joins(services, d);
    let before = joins(services.take(i), d);
    let own = joins_of(services[i], d);
    let k = before.len() + j;
    joins_prefix(services, d, i);
    joins_prefix(services, d, i + 1);
    assert((before + own)[k] == own[j]);
    assert(js[k] == (before + own)[k]);
    assert(js.take(k) =~= (before + own).take(k));
    assert((before + own).take(k) =~= before + own.take(j));
}

proof fn join_at(services: Services, d: Seq<char>, k: int) -> (r: (int, int))
    requires
        0 <= k < joins(services, d).len(),
    ensures
        0 <= r.0 < services.len(),
        0 <= r.1 < joins_of(services[r.0], d).len(),
        k == joins(services.take(r.0), d).len() + r.1,
    decreases services.len(),
{
    let rest = services.drop_last();
    let before = joins(rest, d);
    assert(services.take(services.len() - 1) =~= rest);
    if k < before.len() {
        let r = join_at(rest, d, k);
        assert(rest.take(r.0) =~= services.take(r.0));
        r
    } else {
        (services.len() - 1, k - before.len())
    }
}

proof fn named_join_is_accepted(s: Networks, services: Services, i: int, j: int)
    requires
        0 <= i < services.len(),
        0 <= j < services[i].1.networks.len(),
    ensures
        ({
            let d = default_network(s.project);
            let k = joins(services.take(i), d).len() + j;
            let n = services[i].1.networks[j];
            accepted(s, joins(services, d), k) <==> s.defined.contains_key(n) || n == d
                && exists|h: int| 0 <= h < i && (#[trigger] services[h]).1.networks.len() == 0
        }),
{
    let d = default_network(s.project);
    let first = services.take(i);
    let own = joins_of(services[i], d);
    let before = joins(first, d);
    let shorter = before + own.take(j);
    joins_before(services, d, i, j);
    some_join_is_by_default(first, d);
    if any_by_default(before) {
        let k = choose|k: int| 0 <= k < before.len() && (#[trigger] before[k]).by_default;
        assert(shorter[k].by_default);
        let h = choose|h: int| 0 <= h < first.len() && (#[trigger] first[h]).1.networks.len() == 0;
        assert(services[h] == first[h]);
    }
    if any_by_default(shorter) {
        let k = choose|k: int| 0 <= k < shorter.len() && (#[trigger] shorter[k]).by_default;
        if k >= before.len() {
            assert(shorter[k] == own[k - before.len()]);
        } else {
            assert(before[k].by_default);
        }
    }
    if exists|h: int| 0 <= h < i && (#[trigger] services[h]).1.networks.len() == 0 {
        let h = choose|h: int| 0 <= h < i && (#[trigger] services[h]).1.networks.len() == 0;
        assert(first[h] == services[h]);
    }
}

/// A file is accepted exactly if each network that a service names is defined, or is the
/// default one and a service before it names none.
pub proof fn acceptance(s: Networks, services: Services)
    ensures
        all_accepted(s, joins(services, default_network(s.project))) <==> forall|i: int, j: int|
            0 <= i < services.len() && 0 <= j < services[i].1.networks.len()
                ==> s.defined.contains_key(#[trigger] services[i].1.networks[j])
                || services[i].1.networks[j] == s.project + "_default"@ && exists|h: int|
                0 <= h < i && (#[trigger] services[h]).1.networks.len() == 0,
{
    let d = default_network(s.project);
    let js = joins(services, d);
    if all_accepted(s, js) {
        assert forall|i: int, j: int|
            0 <= i < services.len() && 0 <= j < services[i].1.networks.len() implies (
        s.defined.contains_key(#[trigger] services[i].1.networks[j])
            || services[i].1.networks[j] == s.project + "_default"@ && exists|h: int|
            0 <= h < i && (#[trigger] services[h]).1.networks.len() == 0) by {
            joins_before(services, d, i, j);
            named_join_is_accepted(s, services, i, j);
            assert(accepted(s, js, joins(services.take(i), d).len() + j));
        }
    } else {
        let k = choose|k: int| 0 <= k < js.len() && !#[trigger] accepted(s, js, k);
        let (i, j) = join_at(services, d, k);
        joins_before(services, d, i, j);
        assert(!js[k].by_default);
        assert(services[i].1.networks.len() > 0);
        named_join_is_accepted(s, services, i, j);
        assert(!s.defined.contains_key(services[i].1.networks[j]));
    }
}

/// A refused file is refused for the first network, by service and then by its order, that is
/// neither defined nor the default one with a service before it that names none. What was
/// entered then are the services before that one, and that one in its networks before.
pub proof fn refusal(
    s: Networks,
    services: Services,
    k: int,
    n: Seq<char>,
    a: Seq<char>,
) -> (r: (int, int))
    requires
        first_refused(s, joins(services, default_network(s.project)), k),
    ensures
        ({
            let d = s.project + "_default"@;
            let js = joins(services, default_network(s.project));
            let e = entered(s, js.take(k));
            let v = validated(Networks { is_default: false, ..s }, services.take(r.0));
            let x = services[r.0];
            let names = x.1.networks.take(r.1);
            let listed = if v.members.contains_key(n) {
                v.members[n]
            } else {
                Seq::empty()
            };
            let attached = if v.attachments.contains_key(a) {
                v.attachments[a]
            } else {
                Seq::empty()
            };
            &&& 0 <= r.0 < services.len()
            &&& 0 <= r.1 < x.1.networks.len()
            &&& js[k].network == x.1.networks[r.1]
            &&& !s.defined.contains_key(x.1.networks[r.1])
            &&& x.1.networks[r.1] == d ==> forall|h: int|
                0 <= h < r.0 ==> (#[trigger] services[h]).1.networks.len() > 0
            &&& forall|i: int, j: int|
                0 <= i <= r.0 && 0 <= j < services[i].1.networks.len() && (i < r.0 || j < r.1)
                    ==> s.defined.contains_key(#[trigger] services[i].1.networks[j])
                    || services[i].1.networks[j] == d && exists|h: int|
                    0 <= h < i && (#[trigger] services[h]).1.networks.len() == 0
            &&& e.defined == v.defined && e.order == v.order && e.project == s.project
            &&& e.interfaces == s.interfaces && e.is_default == s.is_default
            &&& e.members.contains_key(n) <==> v.members.contains_key(n) || names.contains(n)
            &&& e.members.contains_key(n) ==> e.members[n] == listed + Seq::new(
                names.to_multiset().count(n),
                |i: int| x,
            )
            &&& e.attachments.contains_key(a) <==> v.attachments.contains_key(a) || a == x.0
                && r.1 > 0
            &&& e.attachments.contains_key(a) ==> e.attachments[a] == attached + (if a == x.0 {
                names
            } else {
                Seq::empty()
            })
        }),
{
    let d = default_network(s.project);
    let js = joins(services, d);
    let (i, j) = join_at(services, d, k);
    let x = services[i];
    let names = x.1.networks.take(j);
    joins_before(services, d, i, j);
    assert(!js[k].by_default);
    assert(x.1.networks.len() > 0);
    named_join_is_accepted(s, services, i, j);
    assert forall|p: int, q: int|
        0 <= p <= i && 0 <= q < services[p].1.networks.len() && (p < i || q < j) implies (
    s.defined.contains_key(#[trigger] services[p].1.networks[q]) || services[p].1.networks[q]
        == s.project + "_default"@ && exists|h: int|
        0 <= h < p && (#[trigger] services[h]).1.networks.len() == 0) by {
        joins_before(services, d, p, q);
        named_join_is_accepted(s, services, p, q);
        let at = joins(services.take(p), d).len() + q;
        assert(at < k) by {
            if p < i {
                let part = services.take(i);
                joins_before(part, d, p, q);
                assert(part.take(p) =~= services.take(p));
                assert(part[p] == services[p]);
            }
        }
        assert(accepted(s, js, at));
    }
    let t = Networks { is_default: false, ..s };
    let before = joins(services.take(i), d);
    let e = entered(s, js.take(k));
    let b = entered(s, before);
    assert(entered(t, before).members =~= b.members);
    assert(entered(t, before).attachments =~= b.attachments);
    entering_named_networks(s, before, x, d, j);
    assert(list_of(e.members, n) == list_of(b.members, n) + Seq::new(
        names.to_multiset().count(n),
        |h: int| x,
    ));
    assert(list_of(e.attachments, a) == list_of(b.attachments, a) + (if a == x.0 {
        names
    } else {
        Seq::empty()
    }));
    names.to_multiset_ensures();
    (i, j)
}

/// What a file defines is what its `networks` hold, where it has any.
pub proof fn defined_networks_are_those_of_the_file(spec: ComposeSpec)
    ensures
        spec.defined() is Some <==> spec.networks is Some,
        spec.networks is Some ==> spec.defined()->0 == ((spec.networks->0)@, (
        spec.networks->0).order()),
{
}

/// The services of a file are those that it lists, by name and in order, each with its
/// container name and its networks.
pub proof fn services_are_those_of_the_file(spec: ComposeSpec, service: ServiceSpec, i: int)
    ensures
        spec.services.listed().len() == spec.services.order().len(),
        0 <= i < spec.services.order().len() ==> spec.services.listed()[i] == (
            spec.services.order()[i],
            spec.services@[spec.services.order()[i]],
        ),
        service.deep_view().container_name is Some <==> service.container_name is Some,
        service.container_name is Some ==> service.deep_view().container_name->0 == (
        service.container_name->0)@,
        service.deep_view().networks.len() == service.networks@.len(),
        forall|j: int|
            0 <= j < service.networks@.len() ==> #[trigger] service.deep_view().networks[j]
                == service.networks@[j]@,
{
}

/// A state is well ordered exactly if its order lists its networks, each of them once. The
/// definition of a network stands for itself.
pub proof fn ordered_networks(s: Networks, network: NetworkSpec)
    ensures
        well_ordered(s) <==> s.order.no_duplicates() && forall|n: Seq<char>|
            s.order.contains(n) <==> #[trigger] s.defined.contains_key(n),
        network.deep_view() == network,
{
}

} // verus!
