//! Routes to services behind gateways, and the gateway that a flow takes.

use vstd::prelude::*;
use vstd::multiset::Multiset;
use crate::ip_prefix::{IpAddress, IpPrefix};
use crate::packet::PeerId;
use crate::prefix_table::PrefixTable;

verus! {

/// Where a route comes from.
#[derive(Clone, Copy, Debug, Hash, PartialEq, Eq, Structural)]
pub enum RouteSource {
    Static,
    Bgp,
    Overlay,
}

/// What is done with what matches a route.
#[derive(Clone, Copy, Debug, Hash, PartialEq, Eq, Structural)]
pub enum ServiceRouteAction {
    Forward,
    ExitSnat,
    Blackhole,
}

#[derive(Clone, Copy, Debug, Hash, PartialEq, Eq, Structural)]
pub struct ServiceRoute {
    pub prefix: IpPrefix,
    pub gateway: PeerId,
    pub preference: u32,
    pub metric: u32,
    pub path_id: u64,
    pub action: ServiceRouteAction,
}

/// The route that was chosen for a flow.
#[derive(Clone, Copy, Debug, PartialEq, Eq, Structural)]
pub struct ServiceRouteSelection {
    pub prefix: IpPrefix,
    pub gateway: PeerId,
    pub path_id: u64,
    pub action: ServiceRouteAction,
}

/// Whether a route ranks at least as high as another: by preference, then by
/// metric, then by gateway, then by path.
pub open spec fn ranks(a: ServiceRoute, b: ServiceRoute) -> bool {
    if a.preference != b.preference {
        a.preference > b.preference
    } else if a.metric != b.metric {
        a.metric < b.metric
    } else if a.gateway != b.gateway {
        a.gateway < b.gateway
    } else {
        a.path_id <= b.path_id
    }
}

fn ranks_before(a: &ServiceRoute, b: &ServiceRoute) -> (before: bool)
    ensures
        before == ranks(*a, *b),
{
    if a.preference != b.preference {
        a.preference > b.preference
    } else if a.metric != b.metric {
        a.metric < b.metric
    } else if a.gateway != b.gateway {
        a.gateway < b.gateway
    } else {
        a.path_id <= b.path_id
    }
}

/// The routes with a prefix.
pub open spec fn with_prefix(routes: Seq<ServiceRoute>, prefix: IpPrefix) -> Multiset<ServiceRoute>
    decreases routes.len(),
{
    if routes.len() == 0 {
        Multiset::empty()
    } else if routes.last().prefix == prefix {
        with_prefix(routes.drop_last(), prefix).insert(routes.last())
    } else {
        with_prefix(routes.drop_last(), prefix)
    }
}

/// Whether a list holds some routes in the order of their ranks.
pub open spec fn ranked(list: Seq<ServiceRoute>, routes: Multiset<ServiceRoute>) -> bool {
    &&& list.to_multiset() == routes
    &&& forall|i: int, j: int| 0 <= i <= j < list.len() ==> ranks(#[trigger] list[i], #[trigger] list[j])
}

/// Whether some route has a prefix.
pub open spec fn has_prefix(routes: Seq<ServiceRoute>, prefix: IpPrefix) -> bool {
    exists|i: int| 0 <= i < routes.len() && (#[trigger] routes[i]).prefix == prefix
}

/// Whether every prefix is one.
pub open spec fn prefixes_valid(routes: Seq<ServiceRoute>) -> bool {
    forall|i: int| 0 <= i < routes.len() ==> (#[trigger] routes[i]).prefix.wf()
}

/// Whether a prefix is the longest of the routes that holds an address.
pub open spec fn best_prefix(routes: Seq<ServiceRoute>, address: IpAddress, prefix: IpPrefix) -> bool {
    &&& has_prefix(routes, prefix)
    &&& prefix.covers(address)
    &&& forall|i: int|
        0 <= i < routes.len() && (#[trigger] routes[i]).prefix.covers(address)
            ==> routes[i].prefix.length <= prefix.length
}

/// Whether no route leads to an address.
pub open spec fn no_route(routes: Seq<ServiceRoute>, address: IpAddress) -> bool {
    forall|i: int| 0 <= i < routes.len() ==> !(#[trigger] routes[i]).prefix.covers(address)
}

/// Whether a list is what an address has to choose from: the routes of the
/// longest prefix that holds it, by rank.
pub open spec fn candidates_of(
    routes: Seq<ServiceRoute>,
    address: IpAddress,
    list: Seq<ServiceRoute>,
) -> bool {
    exists|prefix: IpPrefix| #[trigger]
        best_prefix(routes, address, prefix) && ranked(list, with_prefix(routes, prefix))
}

proof fn lemma_with_prefix(routes: Seq<ServiceRoute>, prefix: IpPrefix, route: ServiceRoute)
    requires
        with_prefix(routes, prefix).contains(route),
    ensures
        route.prefix == prefix,
        routes.contains(route),
    decreases routes.len(),
{
    if routes.len() > 0 {
        if routes.last().prefix == prefix && routes.last() == route {
            assert(routes[routes.len() - 1] == route);
        } else {
            let shorter = routes.drop_last();
            lemma_with_prefix(shorter, prefix, route);
            let i = shorter.index_of(route);
            assert(routes[i] == route);
        }
    }
}

/// What an address has to choose from are routes of one prefix that holds it.
pub proof fn lemma_candidates_share_a_prefix(
    routes: Seq<ServiceRoute>,
    address: IpAddress,
    list: Seq<ServiceRoute>,
)
    requires
        candidates_of(routes, address, list),
    ensures
        exists|prefix: IpPrefix| #[trigger]
            best_prefix(routes, address, prefix) && forall|i: int|
                0 <= i < list.len() ==> (#[trigger] list[i]).prefix == prefix && routes.contains(
                    list[i],
                ),
{
    let prefix = choose|prefix: IpPrefix| #[trigger]
        best_prefix(routes, address, prefix) && ranked(list, with_prefix(routes, prefix));
    assert forall|i: int| 0 <= i < list.len() implies (#[trigger] list[i]).prefix == prefix
        && routes.contains(list[i]) by {
        broadcast use vstd::seq_lib::group_to_multiset_ensures;

        assert(list.contains(list[i]));
        assert(list.to_multiset().contains(list[i]));
        lemma_with_prefix(routes, prefix, list[i]);
    }
    assert(best_prefix(routes, address, prefix));
}

fn insert_ranked(list: &mut Vec<ServiceRoute>, route: ServiceRoute)
    requires
        ranked(old(list)@, old(list)@.to_multiset()),
    ensures
        ranked(final(list)@, old(list)@.to_multiset().insert(route)),
        final(list)@.len() == old(list)@.len() + 1,
        forall|i: int|
            0 <= i < final(list)@.len() ==> (#[trigger] final(list)@[i]) == route || old(
                list,
            )@.contains(final(list)@[i]),
{
    let mut at: usize = 0;
    while at < list.len() && ranks_before(&list[at], &route)
        invariant
            at <= list@.len(),
            list@ == old(list)@,
            forall|k: int| 0 <= k < at ==> ranks(#[trigger] list@[k], route),
        decreases list@.len() - at,
    {
        at = at + 1;
    }
    let ghost before = list@;
    list.insert(at, route);
    proof {
        vstd::seq_lib::to_multiset_insert(before, at as int, route);
        assert forall|i: int| 0 <= i < list@.len() implies (#[trigger] list@[i]) == route
            || before.contains(list@[i]) by {
            if i < at {
                assert(list@[i] == before[i]);
            } else if i > at {
                assert(list@[i] == before[i - 1]);
            }
        }
        assert forall|i: int, j: int| 0 <= i <= j < list@.len() implies ranks(
            #[trigger] list@[i],
            #[trigger] list@[j],
        ) by {
            let bi = if i < at {
                i
            } else {
                i - 1
            };
            let bj = if j < at {
                j
            } else {
                j - 1
            };
            if i != at {
                assert(list@[i] == before[bi]);
            }
            if j != at {
                assert(list@[j] == before[bj]);
            }
            if i != at && j != at {
                assert(ranks(before[bi], before[bj]));
            } else if i == at && j != at {
                assert(!ranks(before[at as int], route));
                assert(ranks(before[at as int], before[bj]));
            }
        }
    }
}

/// The routes at a time, prepared for looking up.
pub struct ServiceRouteSnapshot {
    pub generation: u64,
    pub routes: Vec<ServiceRoute>,
    pub groups: Vec<Vec<ServiceRoute>>,
    pub table: PrefixTable,
}

impl ServiceRouteSnapshot {
    /// The table leads every prefix of the routes, and no other, to its routes
    /// by rank.
    pub open spec fn wf(self) -> bool {
        &&& forall|prefix: IpPrefix| #[trigger]
            self.table@.contains_key(prefix) <==> has_prefix(self.routes@, prefix)
        &&& forall|prefix: IpPrefix| #[trigger]
            self.table@.contains_key(prefix) ==> self.table@[prefix] < self.groups@.len() && ranked(
                self.groups@[self.table@[prefix] as int]@,
                with_prefix(self.routes@, prefix),
            )
    }

    pub fn empty() -> (snapshot: Self)
        ensures
            snapshot.wf(),
            snapshot.generation == 0,
            snapshot.routes@ == Seq::<ServiceRoute>::empty(),
    {
        ServiceRouteSnapshot {
            generation: 0,
            routes: Vec::new(),
            groups: Vec::new(),
            table: PrefixTable::new(),
        }
    }

    pub fn from_routes(generation: u64, routes: Vec<ServiceRoute>) -> (snapshot: Self)
        requires
            prefixes_valid(routes@),
        ensures
            snapshot.wf(),
            snapshot.generation == generation,
            snapshot.routes@ == routes@,
    {
        let groups = group_routes(&routes);
        let mut table = PrefixTable::new();
        let mut g: usize = 0;
        while g < groups.len()
            invariant
                g <= groups@.len(),
                prefixes_valid(routes@),
                grouped(routes@, groups@),
                forall|prefix: IpPrefix| #[trigger]
                    table@.contains_key(prefix) <==> exists|k: int|
                        0 <= k < g && (#[trigger] groups@[k])@[0].prefix == prefix,
                forall|prefix: IpPrefix| #[trigger]
                    table@.contains_key(prefix) ==> table@[prefix] < g
                        && groups@[table@[prefix] as int]@[0].prefix == prefix,
            decreases groups@.len() - g,
        {
            let ghost before = table@;
            assert(groups@[g as int]@.len() > 0);
            let prefix = groups[g][0].prefix;
            assert(has_prefix(routes@, prefix));
            table.insert(prefix, g as u64);
            proof {
                assert forall|p: IpPrefix| #[trigger]
                    table@.contains_key(p) <==> exists|k: int|
                        0 <= k < g + 1 && (#[trigger] groups@[k])@[0].prefix == p by {
                    if table@.contains_key(p) {
                        if p == prefix {
                            assert(groups@[g as int]@[0].prefix == p);
                        } else {
                            assert(before.contains_key(p));
                            let k = choose|k: int|
                                0 <= k < g && (#[trigger] groups@[k])@[0].prefix == p;
                            assert(groups@[k]@[0].prefix == p);
                        }
                    }
                    if exists|k: int| 0 <= k < g + 1 && (#[trigger] groups@[k])@[0].prefix == p {
                        let k = choose|k: int|
                            0 <= k < g + 1 && (#[trigger] groups@[k])@[0].prefix == p;
                        if k < g {
                            assert(before.contains_key(p));
                        }
                    }
                }
            }
            g = g + 1;
        }
        let snapshot = ServiceRouteSnapshot { generation, routes, groups, table };
        proof {
            assert forall|prefix: IpPrefix| #[trigger]
                snapshot.table@.contains_key(prefix) <==> has_prefix(snapshot.routes@, prefix) by {
                if snapshot.table@.contains_key(prefix) {
                    let k = choose|k: int|
                        0 <= k < groups@.len() && (#[trigger] groups@[k])@[0].prefix == prefix;
                    assert(groups@[k]@.len() > 0);
                }
                if has_prefix(snapshot.routes@, prefix) {
                    let i = choose|i: int|
                        0 <= i < routes@.len() && (#[trigger] routes@[i]).prefix == prefix;
                    assert(has_group(groups@, routes@[i].prefix));
                }
            }
            assert forall|prefix: IpPrefix| #[trigger]
                snapshot.table@.contains_key(prefix) implies snapshot.table@[prefix]
                < snapshot.groups@.len() && ranked(
                snapshot.groups@[snapshot.table@[prefix] as int]@,
                with_prefix(snapshot.routes@, prefix),
            ) by {
                let g = snapshot.table@[prefix] as int;
                assert(groups@[g]@.len() > 0);
            }
        }
        snapshot
    }

    pub fn generation(&self) -> (generation: u64)
        ensures
            generation == self.generation,
    {
        self.generation
    }

    /// What an address has to choose from.
    pub fn candidates(&self, address: IpAddress) -> (found: Option<&Vec<ServiceRoute>>)
        requires
            self.wf(),
            address.wf(),
        ensures
            found is None <==> no_route(self.routes@, address),
            found matches Some(list) ==> candidates_of(self.routes@, address, list@),
    {
        let count: usize = self.groups.len();
        match self.table.lookup(address) {
            Some(g) => {
                proof {
                    let prefix = choose|prefix: IpPrefix|
                        crate::prefix_table::longest_match(self.table@, address, prefix)
                            && self.table@[prefix] == g;
                    assert(self.table@.contains_key(prefix));
                    assert(has_prefix(self.routes@, prefix));
                    assert forall|i: int|
                        0 <= i < self.routes@.len() && (#[trigger] self.routes@[i]).prefix.covers(
                            address,
                        ) implies self.routes@[i].prefix.length <= prefix.length by {
                        assert(has_prefix(self.routes@, self.routes@[i].prefix));
                        assert(self.table@.contains_key(self.routes@[i].prefix));
                    }
                    assert(best_prefix(self.routes@, address, prefix));
                    let i = choose|i: int|
                        0 <= i < self.routes@.len() && (#[trigger] self.routes@[i]).prefix
                            == prefix;
                    assert(self.routes@[i].prefix.covers(address));
                    assert(ranked(
                        self.groups@[g as int]@,
                        with_prefix(self.routes@, prefix),
                    ));
                    assert(candidates_of(self.routes@, address, self.groups@[g as int]@));
                }
                assert(g < count);
                Some(&self.groups[g as usize])
            },
            None => {
                proof {
                    assert forall|i: int| 0 <= i < self.routes@.len() implies !(
                    #[trigger] self.routes@[i]).prefix.covers(address) by {
                        assert(has_prefix(self.routes@, self.routes@[i].prefix));
                        assert(self.table@.contains_key(self.routes@[i].prefix));
                    }
                }
                None
            },
        }
    }

    pub fn routes(&self) -> (routes: &Vec<ServiceRoute>)
        ensures
            *routes == self.routes,
    {
        &self.routes
    }
}

/// Whether some group is the one of a prefix.
spec fn has_group(groups: Seq<Vec<ServiceRoute>>, prefix: IpPrefix) -> bool {
    exists|g: int| 0 <= g < groups.len() && (#[trigger] groups[g])@[0].prefix == prefix
}

/// Whether a group holds the routes of its prefix by rank.
spec fn group_of(routes: Seq<ServiceRoute>, group: Seq<ServiceRoute>) -> bool {
    &&& group.len() > 0
    &&& has_prefix(routes, group[0].prefix)
    &&& forall|i: int| 0 <= i < group.len() ==> (#[trigger] group[i]).prefix == group[0].prefix
    &&& ranked(group, with_prefix(routes, group[0].prefix))
}

/// Whether the groups part the routes by prefix.
spec fn grouped(routes: Seq<ServiceRoute>, groups: Seq<Vec<ServiceRoute>>) -> bool {
    &&& forall|g: int| 0 <= g < groups.len() ==> group_of(routes, (#[trigger] groups[g])@)
    &&& forall|g: int, h: int|
        0 <= g < h < groups.len() ==> (#[trigger] groups[g])@[0].prefix != (
        #[trigger] groups[h])@[0].prefix
    &&& forall|i: int| 0 <= i < routes.len() ==> has_group(groups, (#[trigger] routes[i]).prefix)
}

proof fn lemma_no_route_with_prefix(routes: Seq<ServiceRoute>, prefix: IpPrefix)
    requires
        !has_prefix(routes, prefix),
    ensures
        with_prefix(routes, prefix) == Multiset::<ServiceRoute>::empty(),
    decreases routes.len(),
{
    if routes.len() > 0 {
        assert(routes.last() == routes[routes.len() - 1]);
        assert(!has_prefix(routes.drop_last(), prefix)) by {
            if has_prefix(routes.drop_last(), prefix) {
                let i = choose|i: int|
                    0 <= i < routes.drop_last().len() && (#[trigger] routes.drop_last()[i]).prefix
                        == prefix;
                assert(routes[i].prefix == prefix);
            }
        }
        lemma_no_route_with_prefix(routes.drop_last(), prefix);
    }
}

fn group_routes(routes: &Vec<ServiceRoute>) -> (groups: Vec<Vec<ServiceRoute>>)
    ensures
        grouped(routes@, groups@),
{
    let mut groups: Vec<Vec<ServiceRoute>> = Vec::new();
    let mut i: usize = 0;
    while i < routes.len()
        invariant
            i <= routes@.len(),
            grouped(routes@.take(i as int), groups@),
        decreases routes@.len() - i,
    {
        let route = routes[i];
        let ghost seen = routes@.take(i as int);
        let ghost next = routes@.take(i + 1);
        let ghost before = groups@;
        assert(next.drop_last() =~= seen);
        assert(next.last() == route);
        let mut g: usize = 0;
        while g < groups.len() && groups[g][0].prefix != route.prefix
            invariant
                g <= groups@.len(),
                grouped(seen, groups@),
                groups@ == before,
                forall|k: int| 0 <= k < g ==> (#[trigger] groups@[k])@[0].prefix != route.prefix,
            decreases groups@.len() - g,
        {
            assert(group_of(seen, groups@[g as int]@));
            g = g + 1;
            if g < groups.len() {
                assert(group_of(seen, groups@[g as int]@));
            }
        }
        if g < groups.len() {
            let ghost old_group = groups@[g as int]@;
            assert(group_of(seen, old_group));
            let mut group: Vec<ServiceRoute> = Vec::new();
            std::mem::swap(&mut groups[g], &mut group);
            insert_ranked(&mut group, route);
            assert(group@[0].prefix == route.prefix) by {
                assert(group@[0] == route || old_group.contains(group@[0]));
            }
            assert forall|k: int| 0 <= k < group@.len() implies (#[trigger] group@[k]).prefix
                == group@[0].prefix by {
                assert(group@[k] == route || old_group.contains(group@[k]));
            }
            let ghost made = group@;
            groups.set(g, group);
            proof {
                assert(next[i as int] == route);
                assert(has_prefix(next, route.prefix));
                assert(group_of(next, made));
                lemma_groups_grow(seen, next, before, groups@, g as int);
            }
        } else {
            let mut group: Vec<ServiceRoute> = Vec::new();
            assert(ranked(group@, group@.to_multiset())) by {
                group@.to_multiset_ensures();
            }
            insert_ranked(&mut group, route);
            proof {
                assert(Seq::<ServiceRoute>::empty().to_multiset() =~= Multiset::<ServiceRoute>::empty()) by {
                    Seq::<ServiceRoute>::empty().to_multiset_ensures();
                    assert(Seq::<ServiceRoute>::empty().to_multiset().len() == 0);
                }
                assert(!has_prefix(seen, route.prefix)) by {
                    if has_prefix(seen, route.prefix) {
                        let k = choose|k: int|
                            0 <= k < seen.len() && (#[trigger] seen[k]).prefix == route.prefix;
                        assert(has_group(before, seen[k].prefix));
                    }
                }
                lemma_no_route_with_prefix(seen, route.prefix);
                assert(next[i as int] == route);
                assert(has_prefix(next, route.prefix));
                assert(group@[0] == route);
                assert(group_of(next, group@));
            }
            groups.push(group);
            proof {
                lemma_groups_grow(seen, next, before, groups@, before.len() as int);
            }
        }
        i = i + 1;
    }
    assert(routes@.take(i as int) =~= routes@);
    groups
}

/// One more route changes the group of its prefix and no other.
proof fn lemma_groups_grow(
    seen: Seq<ServiceRoute>,
    next: Seq<ServiceRoute>,
    before: Seq<Vec<ServiceRoute>>,
    after: Seq<Vec<ServiceRoute>>,
    g: int,
)
    requires
        next.len() == seen.len() + 1,
        next.drop_last() == seen,
        grouped(seen, before),
        0 <= g < after.len(),
        g <= before.len(),
        after.len() == if g < before.len() {
            before.len()
        } else {
            before.len() + 1
        },
        forall|k: int| 0 <= k < before.len() && k != g ==> after[k] == before[k],
        forall|k: int|
            0 <= k < before.len() && k != g ==> (#[trigger] before[k])@[0].prefix
                != next.last().prefix,
        g < before.len() ==> before[g]@[0].prefix == next.last().prefix,
        after[g]@.len() > 0,
        after[g]@[0].prefix == next.last().prefix,
        group_of(next, after[g]@),
    ensures
        grouped(next, after),
{
    assert forall|k: int| 0 <= k < after.len() implies group_of(next, (#[trigger] after[k])@) by {
        if k != g {
            assert(after[k] == before[k]);
            assert(group_of(seen, before[k]@));
            let prefix = before[k]@[0].prefix;
            let i = choose|i: int| 0 <= i < seen.len() && (#[trigger] seen[i]).prefix == prefix;
            assert(next[i] == seen[i]);
            assert(has_prefix(next, prefix));
            assert(with_prefix(next, prefix) == with_prefix(seen, prefix));
        }
    }
    assert forall|a: int, b: int| 0 <= a < b < after.len() implies (#[trigger] after[a])@[0].prefix
        != (#[trigger] after[b])@[0].prefix by {
        if a != g {
            assert(after[a] == before[a]);
        }
        if b != g {
            assert(after[b] == before[b]);
        }
    }
    assert forall|i: int| 0 <= i < next.len() implies has_group(after, (#[trigger] next[i]).prefix) by {
        if i < seen.len() {
            assert(next[i] == seen[i]);
            assert(has_group(before, seen[i].prefix));
            let k = choose|k: int|
                0 <= k < before.len() && (#[trigger] before[k])@[0].prefix == seen[i].prefix;
            if k != g {
                assert(after[k] == before[k]);
            }
            assert(after[k]@[0].prefix == seen[i].prefix);
        } else {
            assert(next[i] == next.last());
            assert(after[g]@[0].prefix == next[i].prefix);
        }
    }
}

proof fn lemma_prefix_routes_are_kept(routes: Seq<ServiceRoute>, prefix: IpPrefix, route: ServiceRoute)
    requires
        routes.contains(route),
        route.prefix == prefix,
    ensures
        with_prefix(routes, prefix).contains(route),
    decreases routes.len(),
{
    let i = choose|i: int| 0 <= i < routes.len() && routes[i] == route;
    if i == routes.len() - 1 {
        assert(routes.last() == route);
    } else {
        assert(routes.drop_last()[i] == route);
        lemma_prefix_routes_are_kept(routes.drop_last(), prefix, route);
    }
}

/// What an address has to choose from are all routes of the longest prefix that
/// holds it, and no others: a better preference comes first, then a smaller
/// metric, then a smaller gateway, then a smaller path.
pub proof fn lemma_candidates_are_the_most_specific(
    routes: Seq<ServiceRoute>,
    address: IpAddress,
    list: Seq<ServiceRoute>,
)
    requires
        candidates_of(routes, address, list),
        prefixes_valid(routes),
    ensures
        forall|route: ServiceRoute| #[trigger]
            list.contains(route) <==> (routes.contains(route) && route.prefix.covers(address)
                && forall|k: int|
                0 <= k < routes.len() && (#[trigger] routes[k]).prefix.covers(address)
                    ==> routes[k].prefix.length <= route.prefix.length),
        list.len() > 0,
        forall|i: int, j: int|
            0 <= i < j < list.len() ==> (#[trigger] list[i]).preference >= (
            #[trigger] list[j]).preference,
        forall|i: int, j: int|
            0 <= i < j < list.len() && (#[trigger] list[i]).preference == (
            #[trigger] list[j]).preference ==> list[i].metric <= list[j].metric,
        forall|i: int, j: int|
            0 <= i < j < list.len() && (#[trigger] list[i]).preference == (
            #[trigger] list[j]).preference && list[i].metric == list[j].metric ==> list[i].gateway
                <= list[j].gateway && (list[i].gateway == list[j].gateway ==> list[i].path_id
                <= list[j].path_id),
{
    broadcast use vstd::seq_lib::group_to_multiset_ensures;

    let prefix = choose|prefix: IpPrefix| #[trigger]
        best_prefix(routes, address, prefix) && ranked(list, with_prefix(routes, prefix));
    let holder = choose|i: int| 0 <= i < routes.len() && (#[trigger] routes[i]).prefix == prefix;
    assert(routes[holder].prefix.wf());
    assert(routes.contains(routes[holder]));
    lemma_prefix_routes_are_kept(routes, prefix, routes[holder]);
    assert(list.to_multiset().contains(routes[holder]));
    assert(list.contains(routes[holder]));
    assert forall|route: ServiceRoute| #[trigger]
        list.contains(route) <==> (routes.contains(route) && route.prefix.covers(address) && forall|
            k: int,
        |
            0 <= k < routes.len() && (#[trigger] routes[k]).prefix.covers(address)
                ==> routes[k].prefix.length <= route.prefix.length) by {
        if list.contains(route) {
            assert(list.to_multiset().contains(route));
            lemma_with_prefix(routes, prefix, route);
        }
        if routes.contains(route) && route.prefix.covers(address) && forall|k: int|
            0 <= k < routes.len() && (#[trigger] routes[k]).prefix.covers(address)
                ==> routes[k].prefix.length <= route.prefix.length {
            let k = choose|k: int| 0 <= k < routes.len() && routes[k] == route;
            assert(routes[k].prefix.wf());
            assert(routes[holder].prefix.covers(address));
            assert(routes[k].prefix.covers(address));
            crate::ip_prefix::lemma_covering_prefix_is_unique(prefix, route.prefix, address);
            lemma_prefix_routes_are_kept(routes, prefix, route);
            assert(list.to_multiset().contains(route));
        }
    }
    assert forall|i: int, j: int| 0 <= i < j < list.len() implies ranks(
        #[trigger] list[i],
        #[trigger] list[j],
    ) by {}
}

} // verus!
