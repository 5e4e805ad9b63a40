//! The routes of all sources, and the gateways that flows keep.

use vstd::prelude::*;
use std::collections::hash_map::DefaultHasher;
use std::hash::Hasher;
use vstd::std_specs::hash::DefaultHasherAdditionalSpecFns;
use crate::clock::time_since;
use crate::flow_table::{FlowKey, FlowPin, FlowTable};
use crate::ip_prefix::{IpAddress, IpPrefix};
use crate::packet::PeerId;
use crate::service_route::{
    RouteSource, ServiceRoute, ServiceRouteAction, ServiceRouteSelection, ServiceRouteSnapshot,
};

verus! {

/// Whether two routes have the same name: prefix, gateway and path.
pub open spec fn same_name(a: ServiceRoute, b: ServiceRoute) -> bool {
    a.prefix == b.prefix && a.gateway == b.gateway && a.path_id == b.path_id
}

/// The order of names.
pub open spec fn name_before(a: ServiceRoute, b: ServiceRoute) -> bool {
    if a.prefix != b.prefix {
        a.prefix.before(b.prefix)
    } else if a.gateway != b.gateway {
        a.gateway < b.gateway
    } else {
        a.path_id < b.path_id
    }
}

fn is_name_before(a: &ServiceRoute, b: &ServiceRoute) -> (before: bool)
    ensures
        before == name_before(*a, *b),
{
    if a.prefix != b.prefix {
        a.prefix.is_before(&b.prefix)
    } else if a.gateway != b.gateway {
        a.gateway < b.gateway
    } else {
        a.path_id < b.path_id
    }
}

/// Whether a list holds one route for each name of some routes, by name.
pub open spec fn named_once(list: Seq<ServiceRoute>, routes: Seq<ServiceRoute>) -> bool {
    &&& forall|i: int, j: int|
        0 <= i < j < list.len() ==> name_before(#[trigger] list[i], #[trigger] list[j])
    &&& forall|i: int| 0 <= i < list.len() ==> routes.contains(#[trigger] list[i])
    &&& forall|k: int| 0 <= k < routes.len() ==> holds_name(list, #[trigger] routes[k])
}

pub open spec fn holds_name(list: Seq<ServiceRoute>, route: ServiceRoute) -> bool {
    exists|i: int| 0 <= i < list.len() && same_name(#[trigger] list[i], route)
}

fn insert_named(list: &mut Vec<ServiceRoute>, route: ServiceRoute)
    requires
        forall|i: int, j: int|
            0 <= i < j < old(list)@.len() ==> name_before(
                #[trigger] old(list)@[i],
                #[trigger] old(list)@[j],
            ),
    ensures
        forall|i: int, j: int|
            0 <= i < j < final(list)@.len() ==> name_before(
                #[trigger] final(list)@[i],
                #[trigger] final(list)@[j],
            ),
        forall|i: int|
            0 <= i < final(list)@.len() ==> (#[trigger] final(list)@[i]) == route || old(
                list,
            )@.contains(final(list)@[i]),
        holds_name(final(list)@, route),
        forall|r: ServiceRoute| #[trigger]
            holds_name(old(list)@, r) ==> holds_name(final(list)@, r),
{
    let mut at: usize = 0;
    while at < list.len() && is_name_before(&list[at], &route)
        invariant
            at <= list@.len(),
            list@ == old(list)@,
            forall|k: int| 0 <= k < at ==> name_before(#[trigger] list@[k], route),
        decreases list@.len() - at,
    {
        at = at + 1;
    }
    if at < list.len() && !is_name_before(&route, &list[at]) {
        assert(same_name(list@[at as int], route));
        return ;
    }
    let ghost before = list@;
    list.insert(at, route);
    proof {
        assert(list@[at as int] == route);
        assert forall|i: int| 0 <= i < list@.len() implies (#[trigger] list@[i]) == route
            || before.contains(list@[i]) by {
            if i < at {
                assert(list@[i] == before[i]);
            } else if i > at {
                assert(list@[i] == before[i - 1]);
            }
        }
        assert forall|i: int, j: int| 0 <= i < j < list@.len() implies name_before(
            #[trigger] list@[i],
            #[trigger] list@[j],
        ) by {
            let bi = if i < at {
                i
            } else {
                i - 1
            };
            let bj = if j < at {
                j
            } else {
                j - 1
            };
            if i != at {
                assert(list@[i] == before[bi]);
            }
            if j != at {
                assert(list@[j] == before[bj]);
            }
            if i != at && j != at {
                assert(name_before(before[bi], before[bj]));
            } else if i == at {
                assert(name_before(route, before[at as int]));
                if bj > at {
                    assert(name_before(before[at as int], before[bj]));
                }
            }
        }
        assert forall|r: ServiceRoute| #[trigger] holds_name(before, r) implies holds_name(list@, r) by {
            let i = choose|i: int| 0 <= i < before.len() && same_name(#[trigger] before[i], r);
            if i < at {
                assert(list@[i] == before[i]);
            } else {
                assert(list@[i + 1] == before[i]);
            }
        }
    }
}

fn name_routes(routes: &Vec<ServiceRoute>) -> (list: Vec<ServiceRoute>)
    ensures
        named_once(list@, routes@),
{
    let mut list: Vec<ServiceRoute> = Vec::new();
    let mut i: usize = 0;
    while i < routes.len()
        invariant
            i <= routes@.len(),
            forall|a: int, b: int|
                0 <= a < b < list@.len() ==> name_before(#[trigger] list@[a], #[trigger] list@[b]),
            forall|k: int| 0 <= k < list@.len() ==> routes@.contains(#[trigger] list@[k]),
            forall|k: int| 0 <= k < i ==> holds_name(list@, #[trigger] routes@[k]),
        decreases routes@.len() - i,
    {
        insert_named(&mut list, routes[i]);
        i = i + 1;
    }
    list
}

/// Whether a route can be taken, where its gateway can be reached or not.
/// What is dropped needs no gateway.
pub open spec fn usable(action: ServiceRouteAction, gateway_is_live: bool) -> bool {
    action == ServiceRouteAction::Blackhole || gateway_is_live
}

/// Whether a candidate can be taken and none that can is preferred to it.
pub open spec fn eligible(list: Seq<ServiceRoute>, live: Seq<bool>, i: int) -> bool {
    &&& 0 <= i < list.len()
    &&& usable(list[i].action, live[i])
    &&& forall|j: int|
        0 <= j < list.len() && usable((#[trigger] list[j]).action, live[j]) ==> list[j].preference
            < list[i].preference || (list[j].preference == list[i].preference && list[i].metric
            <= list[j].metric)
}

/// Whether a candidate is the one that a selection stands for.
pub open spec fn selected_by(route: ServiceRoute, selection: ServiceRouteSelection) -> bool {
    &&& route.gateway == selection.gateway
    &&& route.path_id == selection.path_id
    &&& route.action == selection.action
}

pub open spec fn selection_of(route: ServiceRoute) -> ServiceRouteSelection {
    ServiceRouteSelection {
        prefix: route.prefix,
        gateway: route.gateway,
        path_id: route.path_id,
        action: route.action,
    }
}

/// Whether an earlier decision is kept: it is recent, and its route is still
/// among those that can be taken first.
pub open spec fn keeps(
    list: Seq<ServiceRoute>,
    live: Seq<bool>,
    pin: FlowPin,
    now_ns: u64,
    ttl_ns: u64,
) -> bool {
    &&& crate::clock::elapsed(pin.created_at, now_ns) <= ttl_ns
    &&& exists|i: int| #[trigger] eligible(list, live, i) && selected_by(list[i], pin.selection)
}

/// Whether a candidate has the highest score of those that can be taken first;
/// of equal scores the last one counts.
pub open spec fn top_score(
    list: Seq<ServiceRoute>,
    live: Seq<bool>,
    scores: Seq<u64>,
    i: int,
) -> bool {
    &&& eligible(list, live, i)
    &&& forall|j: int| #[trigger]
        eligible(list, live, j) ==> scores[j] < scores[i] || (scores[j] == scores[i] && j <= i)
}

/// A decision, and whether it was made before.
#[derive(Clone, Copy, Debug, PartialEq, Eq, Structural)]
pub struct RouteChoice {
    pub kept: bool,
    pub selection: ServiceRouteSelection,
}

/// Whether a decision is the right one.
pub open spec fn chosen(
    list: Seq<ServiceRoute>,
    live: Seq<bool>,
    scores: Seq<u64>,
    pin: Option<FlowPin>,
    now_ns: u64,
    ttl_ns: u64,
    choice: Option<RouteChoice>,
) -> bool {
    match choice {
        None => forall|i: int| !#[trigger] eligible(list, live, i),
        Some(choice) => {
            &&& choice.kept == (pin is Some && keeps(list, live, pin->0, now_ns, ttl_ns))
            &&& choice.kept ==> choice.selection == (pin->0).selection
            &&& !choice.kept ==> exists|i: int| #[trigger]
                top_score(list, live, scores, i) && choice.selection == selection_of(list[i])
        },
    }
}

/// The best preference and metric of the candidates that can be taken.
fn best_of(list: &Vec<ServiceRoute>, live: &Vec<bool>) -> (best: Option<(u32, u32)>)
    requires
        live@.len() == list@.len(),
    ensures
        best is None ==> forall|i: int|
            0 <= i < list@.len() ==> !usable((#[trigger] list@[i]).action, live@[i]),
        best matches Some(b) ==> forall|i: int| #[trigger]
            eligible(list@, live@, i) <==> (0 <= i < list@.len() && usable(
                list@[i].action,
                live@[i],
            ) && list@[i].preference == b.0 && list@[i].metric == b.1),
        best is Some ==> exists|i: int| eligible(list@, live@, i),
{
    let mut best: Option<(u32, u32)> = None;
    let ghost mut at: int = 0;
    let mut i: usize = 0;
    while i < list.len()
        invariant
            i <= list@.len(),
            live@.len() == list@.len(),
            best is None ==> forall|k: int|
                0 <= k < i ==> !usable((#[trigger] list@[k]).action, live@[k]),
            best matches Some(b) ==> {
                &&& 0 <= at < i
                &&& usable(list@[at].action, live@[at])
                &&& list@[at].preference == b.0
                &&& list@[at].metric == b.1
                &&& forall|k: int|
                    0 <= k < i && usable((#[trigger] list@[k]).action, live@[k])
                        ==> list@[k].preference < b.0 || (list@[k].preference == b.0 && b.1
                        <= list@[k].metric)
            },
        decreases list@.len() - i,
    {
        let route = list[i];
        if route.action == ServiceRouteAction::Blackhole || live[i] {
            let better = match best {
                None => true,
                Some((preference, metric)) => route.preference > preference || (route.preference
                    == preference && route.metric < metric),
            };
            if better {
                best = Some((route.preference, route.metric));
                proof {
                    at = i as int;
                }
            }
        }
        i = i + 1;
    }
    proof {
        if best is Some {
            assert(eligible(list@, live@, at));
            assert forall|k: int| #[trigger] eligible(list@, live@, k) implies list@[k].preference
                == (best->0).0 && list@[k].metric == (best->0).1 by {
                assert(usable(list@[at].action, live@[at]));
                assert(usable(list@[k].action, live@[k]));
            }
        }
    }
    best
}

/// The candidate that a flow takes: the one that it has, as long as it can be
/// taken first, and else the one with the highest score.
pub fn choose_route(
    list: &Vec<ServiceRoute>,
    live: &Vec<bool>,
    scores: &Vec<u64>,
    pin: Option<FlowPin>,
    now_ns: u64,
    ttl_ns: u64,
) -> (choice: Option<RouteChoice>)
    requires
        live@.len() == list@.len(),
        scores@.len() == list@.len(),
    ensures
        chosen(list@, live@, scores@, pin, now_ns, ttl_ns, choice),
{
    let (preference, metric) = match best_of(list, live) {
        Some(best) => best,
        None => {
            return None;
        },
    };
    let recent = match pin {
        Some(pin) => time_since(pin.created_at, now_ns) <= ttl_ns,
        None => false,
    };
    let mut top: Option<usize> = None;
    let mut i: usize = 0;
    while i < list.len()
        invariant
            i <= list@.len(),
            live@.len() == list@.len(),
            scores@.len() == list@.len(),
            recent == (pin is Some && crate::clock::elapsed((pin->0).created_at, now_ns) <= ttl_ns),
            forall|k: int| #[trigger]
                eligible(list@, live@, k) <==> (0 <= k < list@.len() && usable(
                    list@[k].action,
                    live@[k],
                ) && list@[k].preference == preference && list@[k].metric == metric),
            recent ==> forall|k: int|
                k < i && #[trigger] eligible(list@, live@, k) ==> !selected_by(
                    list@[k],
                    (pin->0).selection,
                ),
            top is None ==> forall|k: int| k < i ==> !#[trigger] eligible(list@, live@, k),
            top matches Some(t) ==> {
                &&& t < i
                &&& eligible(list@, live@, t as int)
                &&& forall|k: int|
                    k < i && #[trigger] eligible(list@, live@, k) ==> scores@[k] < scores@[t as int]
                        || (scores@[k] == scores@[t as int] && k <= t)
            },
        decreases list@.len() - i,
    {
        let route = list[i];
        let taken = (route.action == ServiceRouteAction::Blackhole || live[i]) && route.preference
            == preference && route.metric == metric;
        assert(taken == eligible(list@, live@, i as int));
        if taken {
            if let Some(pin) = pin {
                let selection = pin.selection;
                if recent && route.gateway == selection.gateway && route.path_id
                    == selection.path_id && route.action == selection.action {
                    assert(selected_by(list@[i as int], selection));
                    return Some(RouteChoice { kept: true, selection });
                }
            }
            let higher = match top {
                None => true,
                Some(t) => scores[i] >= scores[t],
            };
            if higher {
                top = Some(i);
            }
        }
        i = i + 1;
    }
    match top {
        Some(t) => {
            let route = list[t];
            assert(top_score(list@, live@, scores@, t as int));
            Some(
                RouteChoice {
                    kept: false,
                    selection: ServiceRouteSelection {
                        prefix: route.prefix,
                        gateway: route.gateway,
                        path_id: route.path_id,
                        action: route.action,
                    },
                },
            )
        },
        None => None,
    }
}

/// The score of a flow on the path of a route: the standard hash of the flow, the
/// gateway and the path. It spreads flows over gateways.
pub open spec fn score_of(flow: u64, route: ServiceRoute) -> u64 {
    DefaultHasher::spec_finish(
        seq![
            crate::bytes::le_bytes(flow as nat, 8),
            crate::bytes::le_bytes(route.gateway as nat, 4),
            crate::bytes::le_bytes(route.path_id as nat, 8),
        ],
    )
}

fn hash_number(hasher: &mut DefaultHasher, value: u64, len: usize)
    ensures
        final(hasher)@ == old(hasher)@.push(crate::bytes::le_bytes(value as nat, len as nat)),
{
    let mut bytes: Vec<u8> = Vec::new();
    crate::bytes::push_le(&mut bytes, value as u128, len);
    assert(bytes@ =~= crate::bytes::le_bytes(value as nat, len as nat));
    hasher.write(bytes.as_slice());
}

fn flow_score(flow: u64, route: &ServiceRoute) -> (score: u64)
    ensures
        score == score_of(flow, *route),
{
    let mut hasher = DefaultHasher::new();
    hash_number(&mut hasher, flow, 8);
    hash_number(&mut hasher, route.gateway as u64, 4);
    hash_number(&mut hasher, route.path_id, 8);
    assert(hasher@ =~= seq![
        crate::bytes::le_bytes(flow as nat, 8),
        crate::bytes::le_bytes(route.gateway as nat, 4),
        crate::bytes::le_bytes(route.path_id as nat, 8),
    ]);
    hasher.finish()
}

/// The routes of all sources, with what flows were given.
pub struct ServiceRouteStore {
    pub static_routes: Vec<ServiceRoute>,
    pub bgp_routes: Vec<ServiceRoute>,
    pub overlay_routes: Vec<ServiceRoute>,
    pub snapshot: ServiceRouteSnapshot,
    /// The route that a flow towards a prefix keeps.
    pub pins: FlowTable,
    /// The route that a flow towards an address was last given.
    pub plans: FlowTable,
    pub pin_capacity: usize,
    pub pin_ttl_ns: u64,
}

/// The key of what a flow towards an address was last given.
pub open spec fn plan_key(address: IpAddress, flow: u64) -> FlowKey {
    FlowKey { prefix: crate::ip_prefix::host_prefix(address), flow }
}

/// The generation after another one. It is never zero.
pub open spec fn next_generation(generation: u64) -> u64 {
    if generation == u64::MAX {
        1
    } else {
        (generation + 1) as u64
    }
}

/// Whether what flows keep towards prefixes names these prefixes.
pub open spec fn pins_named(pins: Map<FlowKey, FlowPin>) -> bool {
    forall|key: FlowKey| #[trigger]
        pins.contains_key(key) ==> pins[key].selection.prefix == key.prefix
}

/// Whether what flows were given towards addresses names prefixes that hold
/// them.
pub open spec fn plans_lead(plans: Map<FlowKey, FlowPin>) -> bool {
    forall|key: FlowKey| #[trigger]
        plans.contains_key(key) ==> plans[key].selection.prefix.covers(
            IpAddress { v6: key.prefix.v6, bits: key.prefix.address },
        )
}

impl ServiceRouteStore {
    /// The snapshot is the one of all sources, and no more is remembered than
    /// the capacity allows. What is remembered names the prefix that it is
    /// remembered for, or one that holds the address.
    pub open spec fn wf(self) -> bool {
        &&& self.snapshot.wf()
        &&& self.snapshot.routes@ == self.static_routes@ + self.bgp_routes@ + self.overlay_routes@
        &&& crate::service_route::prefixes_valid(self.static_routes@)
        &&& crate::service_route::prefixes_valid(self.bgp_routes@)
        &&& crate::service_route::prefixes_valid(self.overlay_routes@)
        &&& self.pins.wf()
        &&& self.plans.wf()
        &&& self.pin_capacity > 0
        &&& self.pins@.dom().finite()
        &&& self.pins@.dom().len() <= self.pin_capacity
        &&& self.plans@.dom().finite()
        &&& self.plans@.dom().len() <= self.pin_capacity
        &&& pins_named(self.pins@)
        &&& plans_lead(self.plans@)
    }

    /// The routes that a source has given.
    pub open spec fn given(self, source: RouteSource) -> Seq<ServiceRoute> {
        match source {
            RouteSource::Static => self.static_routes@,
            RouteSource::Bgp => self.bgp_routes@,
            RouteSource::Overlay => self.overlay_routes@,
        }
    }

    /// Whether two stores have the same routes and bounds.
    pub open spec fn same_routes(self, other: ServiceRouteStore) -> bool {
        &&& self.static_routes == other.static_routes
        &&& self.bgp_routes == other.bgp_routes
        &&& self.overlay_routes == other.overlay_routes
        &&& self.snapshot == other.snapshot
        &&& self.pin_capacity == other.pin_capacity
        &&& self.pin_ttl_ns == other.pin_ttl_ns
    }

    pub fn new(pin_capacity: usize, pin_ttl_ns: u64) -> (store: Self)
        requires
            pin_capacity > 0,
        ensures
            store.wf(),
            store.pin_capacity == pin_capacity,
            store.pin_ttl_ns == pin_ttl_ns,
            store.snapshot.generation == 0,
            store.static_routes@ == Seq::<ServiceRoute>::empty(),
            store.bgp_routes@ == Seq::<ServiceRoute>::empty(),
            store.overlay_routes@ == Seq::<ServiceRoute>::empty(),
            store.pins@ == Map::<FlowKey, FlowPin>::empty(),
            store.plans@ == Map::<FlowKey, FlowPin>::empty(),
    {
        let store = ServiceRouteStore {
            static_routes: Vec::new(),
            bgp_routes: Vec::new(),
            overlay_routes: Vec::new(),
            snapshot: ServiceRouteSnapshot::empty(),
            pins: FlowTable::new(),
            plans: FlowTable::new(),
            pin_capacity,
            pin_ttl_ns,
        };
        assert(store.snapshot.routes@ =~= store.static_routes@ + store.bgp_routes@
            + store.overlay_routes@);
        store
    }

    pub fn snapshot(&self) -> (snapshot: &ServiceRouteSnapshot)
        ensures
            *snapshot == self.snapshot,
    {
        &self.snapshot
    }

    /// Gives a source its routes, in place of those that it had. Of several
    /// with one name, one stays.
    pub fn replace_source(&mut self, source: RouteSource, routes: Vec<ServiceRoute>)
        requires
            old(self).wf(),
            crate::service_route::prefixes_valid(routes@),
        ensures
            final(self).wf(),
            named_once(final(self).given(source), routes@),
            forall|other: RouteSource|
                other != source ==> #[trigger] final(self).given(other) == old(self).given(other),
            final(self).snapshot.generation == next_generation(old(self).snapshot.generation),
            final(self).pins == old(self).pins,
            final(self).plans == old(self).plans,
            final(self).pin_capacity == old(self).pin_capacity,
            final(self).pin_ttl_ns == old(self).pin_ttl_ns,
    {
        let list = name_routes(&routes);
        proof {
            assert forall|i: int| 0 <= i < list@.len() implies (#[trigger] list@[i]).prefix.wf() by {
                let k = choose|k: int| 0 <= k < routes@.len() && routes@[k] == list@[i];
                assert(routes@[k].prefix.wf());
            }
        }
        match source {
            RouteSource::Static => {
                self.static_routes = list;
            },
            RouteSource::Bgp => {
                self.bgp_routes = list;
            },
            RouteSource::Overlay => {
                self.overlay_routes = list;
            },
        }
        let current: u64 = self.snapshot.generation;
        let generation: u64 = if current == u64::MAX {
            1
        } else {
            current + 1
        };
        let mut all: Vec<ServiceRoute> = Vec::new();
        push_all(&mut all, &self.static_routes);
        push_all(&mut all, &self.bgp_routes);
        push_all(&mut all, &self.overlay_routes);
        proof {
            assert(all@ =~= self.static_routes@ + self.bgp_routes@ + self.overlay_routes@);
            assert forall|i: int| 0 <= i < all@.len() implies (#[trigger] all@[i]).prefix.wf() by {
                let a = self.static_routes@.len();
                let b = a + self.bgp_routes@.len();
                if i < a {
                    assert(all@[i] == self.static_routes@[i]);
                } else if i < b {
                    assert(all@[i] == self.bgp_routes@[i - a]);
                } else {
                    assert(all@[i] == self.overlay_routes@[i - b]);
                }
            }
        }
        self.snapshot = ServiceRouteSnapshot::from_routes(generation, all);
    }

    pub fn routes_from(&self, source: RouteSource) -> (routes: Vec<ServiceRoute>)
        ensures
            routes@ == self.given(source),
    {
        let mut routes: Vec<ServiceRoute> = Vec::new();
        match source {
            RouteSource::Static => push_all(&mut routes, &self.static_routes),
            RouteSource::Bgp => push_all(&mut routes, &self.bgp_routes),
            RouteSource::Overlay => push_all(&mut routes, &self.overlay_routes),
        }
        assert(routes@ =~= self.given(source));
        routes
    }

    /// What a flow towards an address was last given.
    pub fn planned(&self, address: IpAddress, flow: u64) -> (selection: Option<ServiceRouteSelection>)
        requires
            self.wf(),
            address.wf(),
        ensures
            selection == if self.plans@.contains_key(plan_key(address, flow)) {
                Some(self.plans@[plan_key(address, flow)].selection)
            } else {
                None
            },
    {
        match self.plans.get(FlowKey { prefix: IpPrefix::host(address), flow }) {
            Some(plan) => Some(plan.selection),
            None => None,
        }
    }

    /// Whether what a flow was last given still holds: the routes are the same,
    /// it is recent, and its gateway can be reached.
    pub open spec fn plan_holds(self, plan: FlowPin, now_ns: u64, gateway_is_live: bool) -> bool {
        &&& plan.generation == self.snapshot.generation
        &&& crate::clock::elapsed(plan.created_at, now_ns) <= self.pin_ttl_ns
        &&& usable(plan.selection.action, gateway_is_live)
    }

    /// Hands out what a flow was last given, where that still holds, and forgets
    /// it where it does not.
    pub fn reuse_plan(&mut self, address: IpAddress, flow: u64, now_ns: u64, gateway_is_live: bool) -> (selection:
        Option<ServiceRouteSelection>)
        requires
            old(self).wf(),
            address.wf(),
        ensures
            final(self).wf(),
            final(self).same_routes(*old(self)),
            final(self).pins == old(self).pins,
            ({
                let key = plan_key(address, flow);
                if old(self).plans@.contains_key(key) && old(self).plan_holds(
                    old(self).plans@[key],
                    now_ns,
                    gateway_is_live,
                ) {
                    &&& selection == Some(old(self).plans@[key].selection)
                    &&& final(self).plans == old(self).plans
                } else {
                    &&& selection is None
                    &&& final(self).plans@ == old(self).plans@.remove(key)
                }
            }),
    {
        let key = FlowKey { prefix: IpPrefix::host(address), flow };
        match self.plans.get(key) {
            Some(plan) => {
                if plan.generation == self.snapshot.generation && time_since(
                    plan.created_at,
                    now_ns,
                ) <= self.pin_ttl_ns && (plan.selection.action == ServiceRouteAction::Blackhole
                    || gateway_is_live) {
                    return Some(plan.selection);
                }
                self.plans.remove(key);
                None
            },
            None => {
                assert(self.plans@.remove(key) =~= self.plans@);
                None
            },
        }
    }

    /// Whether a decision was recorded: the flow towards the address has it from
    /// now on, and a new decision is also the one that the flow keeps.
    pub open spec fn recorded(
        self,
        after: ServiceRouteStore,
        address: IpAddress,
        flow: u64,
        now_ns: u64,
        choice: RouteChoice,
    ) -> bool {
        let pin = FlowPin {
            generation: self.snapshot.generation,
            selection: choice.selection,
            created_at: now_ns,
        };
        let key = FlowKey { prefix: choice.selection.prefix, flow };
        &&& after.same_routes(self)
        &&& exists|left: Map<FlowKey, FlowPin>| #[trigger]
            crate::flow_table::room_made(
                self.plans@,
                left,
                self.pin_capacity,
                now_ns,
                self.pin_ttl_ns,
                Some(self.snapshot.generation),
            ) && after.plans@ == left.insert(plan_key(address, flow), pin)
        &&& choice.kept ==> after.pins@ == self.pins@
        &&& !choice.kept ==> exists|left: Map<FlowKey, FlowPin>| #[trigger]
            crate::flow_table::room_made(
                self.pins@.remove(key),
                left,
                self.pin_capacity,
                now_ns,
                self.pin_ttl_ns,
                None,
            ) && after.pins@ == left.insert(key, pin)
    }

    /// Records a decision for a flow. It names a prefix that holds the address.
    pub fn record(&mut self, address: IpAddress, flow: u64, now_ns: u64, choice: RouteChoice)
        requires
            old(self).wf(),
            address.wf(),
            choice.selection.prefix.covers(address),
        ensures
            final(self).wf(),
            old(self).recorded(*final(self), address, flow, now_ns, choice),
    {
        let generation: u64 = self.snapshot.generation;
        let pin = FlowPin { generation, selection: choice.selection, created_at: now_ns };
        let capacity: usize = self.pin_capacity;
        let ttl_ns: u64 = self.pin_ttl_ns;
        if !choice.kept {
            let key = FlowKey { prefix: choice.selection.prefix, flow };
            self.pins.remove(key);
            let ghost emptied = self.pins@;
            self.pins.make_room(capacity, now_ns, ttl_ns, None);
            let ghost left = self.pins@;
            self.pins.insert(key, pin);
            assert(crate::flow_table::room_made(emptied, left, capacity, now_ns, ttl_ns, None));
        }
        let ghost before = self.plans@;
        self.plans.make_room(capacity, now_ns, ttl_ns, Some(generation));
        let ghost left = self.plans@;
        self.plans.insert(FlowKey { prefix: IpPrefix::host(address), flow }, pin);
        assert(crate::flow_table::room_made(
            before,
            left,
            capacity,
            now_ns,
            ttl_ns,
            Some(generation),
        ));
    }

    /// Whether a selection is what these routes give a flow, where gateways can
    /// be reached or not, and the candidates have these scores.
    pub open spec fn selects(
        self,
        after: ServiceRouteStore,
        address: IpAddress,
        flow: u64,
        now_ns: u64,
        plan_is_live: bool,
        list: Seq<ServiceRoute>,
        live: Seq<bool>,
        scores: Seq<u64>,
        selection: Option<ServiceRouteSelection>,
    ) -> bool {
        let key = plan_key(address, flow);
        if self.plans@.contains_key(key) && self.plan_holds(
            self.plans@[key],
            now_ns,
            plan_is_live,
        ) {
            &&& selection == Some(self.plans@[key].selection)
            &&& after == self
        } else {
            exists|forgot: ServiceRouteStore, choice: Option<RouteChoice>|
                {
                    &&& #[trigger] self.forgets_plan(forgot, key)
                    &&& self.offered(address, list)
                    &&& #[trigger] chosen(
                        list,
                        live,
                        scores,
                        self.pin_for(list, flow),
                        now_ns,
                        self.pin_ttl_ns,
                        choice,
                    )
                    &&& match choice {
                        None => selection is None && after == forgot,
                        Some(choice) => selection == Some(choice.selection) && forgot.recorded(
                            after,
                            address,
                            flow,
                            now_ns,
                            choice,
                        ),
                    }
                }
        }
    }

    /// Whether a store is this one without a plan.
    pub open spec fn forgets_plan(self, after: ServiceRouteStore, key: FlowKey) -> bool {
        &&& after.same_routes(self)
        &&& after.pins == self.pins
        &&& after.plans@ == self.plans@.remove(key)
    }

    /// Whether a list is what an address has to choose from.
    pub open spec fn offered(self, address: IpAddress, list: Seq<ServiceRoute>) -> bool {
        if crate::service_route::no_route(self.snapshot.routes@, address) {
            list.len() == 0
        } else {
            crate::service_route::candidates_of(self.snapshot.routes@, address, list)
        }
    }

    /// What a flow keeps towards the prefix of some candidates.
    pub open spec fn pin_for(self, list: Seq<ServiceRoute>, flow: u64) -> Option<FlowPin> {
        let key = FlowKey { prefix: list[0].prefix, flow };
        if list.len() > 0 && self.pins@.contains_key(key) {
            Some(self.pins@[key])
        } else {
            None
        }
    }

    /// The gateway of a flow towards an address: the one that it has, as long as
    /// that one can be taken first, and else one of those that can.
    pub fn select_gateway<F: Fn(PeerId) -> bool>(
        &mut self,
        address: IpAddress,
        flow: u64,
        now_ns: u64,
        gateway_is_live: F,
    ) -> (selection: Option<ServiceRouteSelection>)
        requires
            old(self).wf(),
            address.wf(),
            forall|peer: PeerId| #[trigger] gateway_is_live.requires((peer,)),
        ensures
            final(self).wf(),
            selection matches Some(chosen) ==> chosen.prefix.covers(address),
            exists|plan_is_live: bool, list: Seq<ServiceRoute>, live: Seq<bool>, scores: Seq<u64>|
                {
                    &&& #[trigger] old(self).selects(
                        *final(self),
                        address,
                        flow,
                        now_ns,
                        plan_is_live,
                        list,
                        live,
                        scores,
                        selection,
                    )
                    &&& live.len() == list.len()
                    &&& scores.len() == list.len()
                    &&& forall|i: int|
                        0 <= i < list.len() ==> scores[i] == score_of(flow, #[trigger] list[i])
                    &&& forall|i: int|
                        0 <= i < list.len() && (#[trigger] list[i]).action
                            != ServiceRouteAction::Blackhole ==> gateway_is_live.ensures(
                            (list[i].gateway,),
                            live[i],
                        )
                    &&& old(self).plans@.contains_key(plan_key(address, flow)) && old(
                        self,
                    ).plans@[plan_key(address, flow)].selection.action
                        != ServiceRouteAction::Blackhole ==> gateway_is_live.ensures(
                        (old(self).plans@[plan_key(address, flow)].selection.gateway,),
                        plan_is_live,
                    )
                },
    {
        let plan_is_live = match self.planned(address, flow) {
            Some(plan) => if plan.action == ServiceRouteAction::Blackhole {
                true
            } else {
                gateway_is_live(plan.gateway)
            },
            None => false,
        };
        let ghost start = *self;
        let reused = self.reuse_plan(address, flow, now_ns, plan_is_live);
        let ghost forgot = *self;
        let mut list: Vec<ServiceRoute> = Vec::new();
        let mut live: Vec<bool> = Vec::new();
        let mut scores: Vec<u64> = Vec::new();
        if reused.is_some() {
            assert(start.selects(
                *self,
                address,
                flow,
                now_ns,
                plan_is_live,
                list@,
                live@,
                scores@,
                reused,
            ));
            return reused;
        }
        if let Some(candidates) = self.snapshot.candidates(address) {
            push_all(&mut list, candidates);
            assert(list@ =~= candidates@);
        }
        assert(start.offered(address, list@));
        let mut i: usize = 0;
        while i < list.len()
            invariant
                i <= list@.len(),
                live@.len() == i,
                scores@.len() == i,
                forall|peer: PeerId| #[trigger] gateway_is_live.requires((peer,)),
                forall|k: int| 0 <= k < i ==> scores@[k] == score_of(flow, #[trigger] list@[k]),
                forall|k: int|
                    0 <= k < i && (#[trigger] list@[k]).action != ServiceRouteAction::Blackhole
                        ==> gateway_is_live.ensures((list@[k].gateway,), live@[k]),
            decreases list@.len() - i,
        {
            let route = list[i];
            let is_live = if route.action == ServiceRouteAction::Blackhole {
                true
            } else {
                gateway_is_live(route.gateway)
            };
            live.push(is_live);
            scores.push(flow_score(flow, &route));
            i = i + 1;
        }
        let pin = if list.len() > 0 {
            self.pins.get(FlowKey { prefix: list[0].prefix, flow })
        } else {
            None
        };
        assert(pin == start.pin_for(list@, flow));
        let choice = choose_route(&list, &live, &scores, pin, now_ns, self.pin_ttl_ns);
        proof {
            if let Some(choice) = choice {
                lemma_selection_is_a_candidate(
                    start,
                    address,
                    flow,
                    list@,
                    live@,
                    scores@,
                    now_ns,
                    choice,
                );
            }
        }
        let selection = match choice {
            Some(choice) => {
                self.record(address, flow, now_ns, choice);
                Some(choice.selection)
            },
            None => None,
        };
        proof {
            assert(start.forgets_plan(forgot, plan_key(address, flow)));
            assert(chosen(list@, live@, scores@, pin, now_ns, start.pin_ttl_ns, choice));
            assert(start.selects(
                *self,
                address,
                flow,
                now_ns,
                plan_is_live,
                list@,
                live@,
                scores@,
                selection,
            ));
        }
        selection
    }
}

/// A flow keeps its gateway towards an address, as long as the routes are the
/// same, the decision is recent and the gateway can be reached.
pub proof fn lemma_flow_keeps_its_gateway(
    before: ServiceRouteStore,
    after: ServiceRouteStore,
    address: IpAddress,
    flow: u64,
    now_ns: u64,
    choice: RouteChoice,
    later_ns: u64,
    gateway_is_live: bool,
)
    requires
        before.recorded(after, address, flow, now_ns, choice),
        crate::clock::elapsed(now_ns, later_ns) <= before.pin_ttl_ns,
        usable(choice.selection.action, gateway_is_live),
    ensures
        after.plans@.contains_key(plan_key(address, flow)),
        after.plan_holds(after.plans@[plan_key(address, flow)], later_ns, gateway_is_live),
        after.plans@[plan_key(address, flow)].selection == choice.selection,
{
}

/// New routes end what flows were given with the routes before.
pub proof fn lemma_new_routes_end_plans(
    before: ServiceRouteStore,
    after: ServiceRouteStore,
    plan: FlowPin,
    now_ns: u64,
    gateway_is_live: bool,
)
    requires
        plan.generation == before.snapshot.generation,
        after.snapshot.generation == next_generation(before.snapshot.generation),
    ensures
        !after.plan_holds(plan, now_ns, gateway_is_live),
{
}

/// When gateways go away, only their flows move: a flow whose recent route can
/// still be taken first keeps it, whatever the scores are.
pub proof fn lemma_only_withdrawn_flows_move(
    list: Seq<ServiceRoute>,
    live: Seq<bool>,
    scores: Seq<u64>,
    pin: FlowPin,
    now_ns: u64,
    ttl_ns: u64,
    choice: Option<RouteChoice>,
)
    requires
        chosen(list, live, scores, Some(pin), now_ns, ttl_ns, choice),
        keeps(list, live, pin, now_ns, ttl_ns),
    ensures
        choice == Some(RouteChoice { kept: true, selection: pin.selection }),
{
}

/// What is selected is a candidate that can be taken, and none that can is
/// preferred to it.
pub proof fn lemma_selected_route_is_eligible(
    list: Seq<ServiceRoute>,
    live: Seq<bool>,
    scores: Seq<u64>,
    pin: Option<FlowPin>,
    now_ns: u64,
    ttl_ns: u64,
    choice: RouteChoice,
)
    requires
        chosen(list, live, scores, pin, now_ns, ttl_ns, Some(choice)),
    ensures
        exists|i: int| #[trigger] eligible(list, live, i) && selected_by(list[i], choice.selection),
{
    if !choice.kept {
        let i = choose|i: int| #[trigger]
            top_score(list, live, scores, i) && choice.selection == selection_of(list[i]);
        assert(eligible(list, live, i));
    }
}

/// What is selected for a flow is, in every field, a candidate of the address
/// that can be taken first, also where the flow keeps what it has: it names the
/// longest prefix of the routes that holds the address.
pub proof fn lemma_selection_is_a_candidate(
    store: ServiceRouteStore,
    address: IpAddress,
    flow: u64,
    list: Seq<ServiceRoute>,
    live: Seq<bool>,
    scores: Seq<u64>,
    now_ns: u64,
    choice: RouteChoice,
)
    requires
        store.wf(),
        store.offered(address, list),
        chosen(
            list,
            live,
            scores,
            store.pin_for(list, flow),
            now_ns,
            store.pin_ttl_ns,
            Some(choice),
        ),
    ensures
        exists|i: int| #[trigger]
            eligible(list, live, i) && choice.selection == selection_of(list[i]),
        crate::service_route::best_prefix(
            store.snapshot.routes@,
            address,
            choice.selection.prefix,
        ),
{
    lemma_selected_route_is_eligible(
        list,
        live,
        scores,
        store.pin_for(list, flow),
        now_ns,
        store.pin_ttl_ns,
        choice,
    );
    crate::service_route::lemma_candidates_share_a_prefix(store.snapshot.routes@, address, list);
    let prefix = choose|prefix: IpPrefix| #[trigger]
        crate::service_route::best_prefix(store.snapshot.routes@, address, prefix) && forall|i: int|
            0 <= i < list.len() ==> (#[trigger] list[i]).prefix == prefix
                && store.snapshot.routes@.contains(list[i]);
    if choice.kept {
        let i = choose|i: int| #[trigger]
            eligible(list, live, i) && selected_by(list[i], choice.selection);
        assert(list[0].prefix == prefix);
        assert(choice.selection.prefix == prefix);
        assert(choice.selection == selection_of(list[i]));
    } else {
        let i = choose|i: int| #[trigger]
            top_score(list, live, scores, i) && choice.selection == selection_of(list[i]);
        assert(eligible(list, live, i));
        assert(list[i].prefix == prefix);
    }
}

fn push_all(to: &mut Vec<ServiceRoute>, from: &Vec<ServiceRoute>)
    ensures
        final(to)@ == old(to)@ + from@,
{
    let mut i: usize = 0;
    while i < from.len()
        invariant
            i <= from@.len(),
            to@ == old(to)@ + from@.take(i as int),
        decreases from@.len() - i,
    {
        to.push(from[i]);
        assert(to@ =~= old(to)@ + from@.take(i + 1));
        i = i + 1;
    }
    assert(from@.take(i as int) =~= from@);
}

/// Whether a candidate can be taken, and no other that can has a higher
/// preference, or the same one and a smaller metric. One can be taken when its
/// gateway is live, or when it drops what it matches.
pub open spec fn ranks_first(list: Seq<ServiceRoute>, live: Seq<bool>, i: int) -> bool {
    &&& 0 <= i < list.len()
    &&& list[i].action == ServiceRouteAction::Blackhole || live[i]
    &&& forall|j: int|
        0 <= j < list.len() && ((#[trigger] list[j]).action == ServiceRouteAction::Blackhole
            || live[j]) ==> list[j].preference <= list[i].preference && (list[j].preference
            == list[i].preference ==> list[i].metric <= list[j].metric)
}

proof fn lemma_eligible_ranks_first(list: Seq<ServiceRoute>, live: Seq<bool>, i: int)
    ensures
        eligible(list, live, i) == ranks_first(list, live, i),
{
    if ranks_first(list, live, i) {
        assert forall|j: int|
            0 <= j < list.len() && usable((#[trigger] list[j]).action, live[j]) implies
            list[j].preference < list[i].preference || (list[j].preference == list[i].preference
            && list[i].metric <= list[j].metric) by {}
    }
}

/// What is selected for a flow is first among the candidates that can be taken,
/// by rank: none of those has a higher preference, and none of the same preference
/// has a smaller metric. Nothing is selected exactly where no candidate can be
/// taken.
pub proof fn lemma_selected_route_is_first(
    list: Seq<ServiceRoute>,
    live: Seq<bool>,
    scores: Seq<u64>,
    pin: Option<FlowPin>,
    now_ns: u64,
    ttl_ns: u64,
    choice: Option<RouteChoice>,
)
    requires
        chosen(list, live, scores, pin, now_ns, ttl_ns, choice),
        list.len() == live.len(),
    ensures
        choice is None <==> forall|i: int|
            0 <= i < list.len() ==> (#[trigger] list[i]).action != ServiceRouteAction::Blackhole
                && !live[i],
        choice matches Some(c) ==> exists|i: int|
            {
                &&& #[trigger] ranks_first(list, live, i)
                &&& list[i].gateway == c.selection.gateway
                &&& list[i].path_id == c.selection.path_id
                &&& list[i].action == c.selection.action
            },
{
    match choice {
        None => {
            lemma_some_candidate_is_first(list, live);
            assert forall|i: int| 0 <= i < list.len() implies (#[trigger] list[i]).action
                != ServiceRouteAction::Blackhole && !live[i] by {}
        },
        Some(c) => {
            lemma_selected_route_is_eligible(list, live, scores, pin, now_ns, ttl_ns, c);
            let i = choose|i: int| #[trigger]
                eligible(list, live, i) && selected_by(list[i], c.selection);
            lemma_eligible_ranks_first(list, live, i);
            assert(ranks_first(list, live, i));
        },
    }
}

/// Where a candidate can be taken, one of them can be taken first.
proof fn lemma_some_candidate_is_first(list: Seq<ServiceRoute>, live: Seq<bool>)
    requires
        list.len() == live.len(),
    ensures
        (exists|i: int| 0 <= i < list.len() && usable((#[trigger] list[i]).action, live[i])) ==> exists|
            i: int,
        | #[trigger] eligible(list, live, i),
    decreases list.len(),
{
    if exists|i: int| 0 <= i < list.len() && usable((#[trigger] list[i]).action, live[i]) {
        let n = list.len() - 1;
        let shorter = list.drop_last();
        let less = live.drop_last();
        lemma_some_candidate_is_first(shorter, less);
        assert(forall|i: int| 0 <= i < n ==> shorter[i] == list[i] && less[i] == live[i]);
        if exists|i: int| 0 <= i < n && usable((#[trigger] list[i]).action, live[i]) {
            let k = choose|k: int| 0 <= k < n && usable((#[trigger] list[k]).action, live[k]);
            assert(usable(shorter[k].action, less[k]));
            let i = choose|i: int| #[trigger] eligible(shorter, less, i);
            if usable(list[n].action, live[n]) && (list[n].preference > list[i].preference || (
            list[n].preference == list[i].preference && list[n].metric < list[i].metric)) {
                assert forall|j: int|
                    0 <= j < list.len() && usable((#[trigger] list[j]).action, live[j]) implies
                    list[j].preference < list[n].preference || (list[j].preference
                    == list[n].preference && list[n].metric <= list[j].metric) by {
                    if j < n {
                        assert(usable(shorter[j].action, less[j]));
                    }
                }
                assert(eligible(list, live, n));
            } else {
                assert forall|j: int|
                    0 <= j < list.len() && usable((#[trigger] list[j]).action, live[j]) implies
                    list[j].preference < list[i].preference || (list[j].preference
                    == list[i].preference && list[i].metric <= list[j].metric) by {
                    if j < n {
                        assert(usable(shorter[j].action, less[j]));
                    }
                }
                assert(eligible(list, live, i));
            }
        } else {
            assert(eligible(list, live, n));
        }
    }
}

/// The ranks of the candidates agree with what is selected: the first one of the
/// ranked list that can be taken has the preference and the metric of the selected
/// route.
pub proof fn lemma_selection_ranks_first(
    routes: Seq<ServiceRoute>,
    address: IpAddress,
    list: Seq<ServiceRoute>,
    live: Seq<bool>,
    scores: Seq<u64>,
    pin: Option<FlowPin>,
    now_ns: u64,
    ttl_ns: u64,
    choice: RouteChoice,
    first: int,
)
    requires
        crate::service_route::prefixes_valid(routes),
        crate::service_route::candidates_of(routes, address, list),
        list.len() == live.len(),
        chosen(list, live, scores, pin, now_ns, ttl_ns, Some(choice)),
        0 <= first < list.len(),
        list[first].action == ServiceRouteAction::Blackhole || live[first],
        forall|i: int|
            0 <= i < first ==> (#[trigger] list[i]).action != ServiceRouteAction::Blackhole
                && !live[i],
    ensures
        exists|i: int|
            {
                &&& first <= i < list.len()
                &&& (#[trigger] list[i]).gateway == choice.selection.gateway
                &&& list[i].path_id == choice.selection.path_id
                &&& list[i].action == choice.selection.action
                &&& list[i].preference == list[first].preference
                &&& list[i].metric == list[first].metric
            },
{
    lemma_selected_route_is_first(list, live, scores, pin, now_ns, ttl_ns, Some(choice));
    let i = choose|i: int|
        {
            &&& #[trigger] ranks_first(list, live, i)
            &&& list[i].gateway == choice.selection.gateway
            &&& list[i].path_id == choice.selection.path_id
            &&& list[i].action == choice.selection.action
        };
    assert(first <= i);
    assert(list[first].preference <= list[i].preference && (list[first].preference
        == list[i].preference ==> list[i].metric <= list[first].metric));
    if first < i {
        assert(list[first].preference >= list[i].preference && (list[first].preference
            == list[i].preference ==> list[first].metric <= list[i].metric)) by {
            crate::service_route::lemma_candidates_are_the_most_specific(routes, address, list);
        }
    }
    assert(list[i].preference == list[first].preference);
}

/// A flow keeps a recent route that still ranks first, and nothing else: a flow
/// without one takes the candidate of the highest score among those that rank
/// first.
pub proof fn lemma_flow_keeps_or_takes_the_highest_score(
    list: Seq<ServiceRoute>,
    live: Seq<bool>,
    scores: Seq<u64>,
    pin: FlowPin,
    now_ns: u64,
    ttl_ns: u64,
    choice: RouteChoice,
)
    requires
        chosen(list, live, scores, Some(pin), now_ns, ttl_ns, Some(choice)),
        list.len() == live.len(),
    ensures
        choice.kept ==> choice.selection == pin.selection && now_ns <= pin.created_at + ttl_ns,
        !choice.kept ==> {
            &&& now_ns > pin.created_at + ttl_ns || forall|i: int| #[trigger]
                ranks_first(list, live, i) ==> list[i].gateway != pin.selection.gateway
                    || list[i].path_id != pin.selection.path_id || list[i].action
                    != pin.selection.action
            &&& exists|i: int|
                {
                    &&& #[trigger] ranks_first(list, live, i)
                    &&& list[i].prefix == choice.selection.prefix
                    &&& list[i].gateway == choice.selection.gateway
                    &&& list[i].path_id == choice.selection.path_id
                    &&& list[i].action == choice.selection.action
                    &&& forall|j: int| #[trigger]
                        ranks_first(list, live, j) ==> scores[j] <= scores[i]
                }
        },
{
    if !choice.kept {
        let t = choose|t: int| #[trigger]
            top_score(list, live, scores, t) && choice.selection == selection_of(list[t]);
        lemma_eligible_ranks_first(list, live, t);
        assert forall|j: int| #[trigger] ranks_first(list, live, j) implies scores[j] <= scores[t] by {
            lemma_eligible_ranks_first(list, live, j);
        }
        assert(ranks_first(list, live, t));
        if now_ns <= pin.created_at + ttl_ns {
            assert forall|i: int| #[trigger] ranks_first(list, live, i) implies list[i].gateway
                != pin.selection.gateway || list[i].path_id != pin.selection.path_id
                || list[i].action != pin.selection.action by {
                lemma_eligible_ranks_first(list, live, i);
                if selected_by(list[i], pin.selection) {
                    assert(keeps(list, live, pin, now_ns, ttl_ns));
                }
            }
        }
    }
}

/// Whether a route can be taken while some gateways are live.
pub open spec fn takes(route: ServiceRoute, gateways: Set<PeerId>) -> bool {
    route.action == ServiceRouteAction::Blackhole || gateways.contains(route.gateway)
}

/// A fresh decision is right by the routes of the store: what is selected is one
/// of them, it holds the address with the longest prefix of all, and no route of
/// that prefix that can be taken has a higher preference, or the same one and a
/// smaller metric. Where nothing is selected, no route of the longest prefix can
/// be taken.
pub proof fn lemma_decision_is_right_by_the_routes(
    store: ServiceRouteStore,
    address: IpAddress,
    flow: u64,
    now_ns: u64,
    list: Seq<ServiceRoute>,
    live: Seq<bool>,
    scores: Seq<u64>,
    choice: Option<RouteChoice>,
    gateways: Set<PeerId>,
)
    requires
        store.wf(),
        store.offered(address, list),
        list.len() == live.len(),
        forall|i: int|
            0 <= i < list.len() && (#[trigger] list[i]).action != ServiceRouteAction::Blackhole
                ==> live[i] == gateways.contains(list[i].gateway),
        chosen(
            list,
            live,
            scores,
            store.pin_for(list, flow),
            now_ns,
            store.pin_ttl_ns,
            choice,
        ),
    ensures
        choice matches Some(c) ==> exists|r: ServiceRoute|
            {
                &&& #[trigger] store.snapshot.routes@.contains(r)
                &&& r.prefix == c.selection.prefix
                &&& r.gateway == c.selection.gateway
                &&& r.path_id == c.selection.path_id
                &&& r.action == c.selection.action
                &&& r.prefix.covers(address)
                &&& takes(r, gateways)
                &&& forall|q: ServiceRoute| #[trigger]
                    store.snapshot.routes@.contains(q) && q.prefix.covers(address)
                        ==> q.prefix.length <= r.prefix.length && (q.prefix.length
                        == r.prefix.length && takes(q, gateways) ==> q.preference <= r.preference
                        && (q.preference == r.preference ==> r.metric <= q.metric))
            },
        choice is None ==> forall|q: ServiceRoute| #[trigger]
            store.snapshot.routes@.contains(q) && q.prefix.covers(address) && takes(q, gateways)
                ==> exists|r: ServiceRoute| #[trigger]
                store.snapshot.routes@.contains(r) && r.prefix.covers(address) && r.prefix.length
                    > q.prefix.length,
{
    let routes = store.snapshot.routes@;
    assert(crate::service_route::prefixes_valid(routes)) by {
        assert forall|i: int| 0 <= i < routes.len() implies (#[trigger] routes[i]).prefix.wf() by {
            let a = store.static_routes@.len();
            let b = a + store.bgp_routes@.len();
            if i < a {
                assert(routes[i] == store.static_routes@[i]);
            } else if i < b {
                assert(routes[i] == store.bgp_routes@[i - a]);
            } else {
                assert(routes[i] == store.overlay_routes@[i - b]);
            }
        }
    }
    lemma_selected_route_is_first(
        list,
        live,
        scores,
        store.pin_for(list, flow),
        now_ns,
        store.pin_ttl_ns,
        choice,
    );
    if !crate::service_route::no_route(routes, address) {
        crate::service_route::lemma_candidates_are_the_most_specific(routes, address, list);
    }
    match choice {
        Some(c) => {
            lemma_selection_is_a_candidate(store, address, flow, list, live, scores, now_ns, c);
            let i = choose|i: int| #[trigger]
                eligible(list, live, i) && c.selection == selection_of(list[i]);
            let r = list[i];
            assert(list.contains(r));
            assert(routes.contains(r));
            assert forall|q: ServiceRoute| #[trigger]
                routes.contains(q) && q.prefix.covers(address) implies q.prefix.length
                <= r.prefix.length && (q.prefix.length == r.prefix.length && takes(q, gateways)
                ==> q.preference <= r.preference && (q.preference == r.preference ==> r.metric
                <= q.metric)) by {
                let k = choose|k: int| 0 <= k < routes.len() && routes[k] == q;
                assert(routes[k].prefix.covers(address));
                if q.prefix.length == r.prefix.length && takes(q, gateways) {
                    assert(list.contains(q));
                    let j = choose|j: int| 0 <= j < list.len() && list[j] == q;
                    assert(usable(list[j].action, live[j]));
                }
            }
        },
        None => {
            assert forall|q: ServiceRoute| #[trigger]
                routes.contains(q) && q.prefix.covers(address) && takes(q, gateways) implies exists|
                r: ServiceRoute,
            | #[trigger]
                routes.contains(r) && r.prefix.covers(address) && r.prefix.length > q.prefix.length by {
                let k = choose|k: int| 0 <= k < routes.len() && routes[k] == q;
                assert(routes[k].prefix.covers(address));
                if forall|k: int|
                    0 <= k < routes.len() && (#[trigger] routes[k]).prefix.covers(address)
                        ==> routes[k].prefix.length <= q.prefix.length {
                    assert(list.contains(q));
                    let j = choose|j: int| 0 <= j < list.len() && list[j] == q;
                    assert(list[j].action != ServiceRouteAction::Blackhole && !live[j]);
                }
                let m = choose|m: int|
                    0 <= m < routes.len() && (#[trigger] routes[m]).prefix.covers(address)
                        && routes[m].prefix.length > q.prefix.length;
                assert(routes.contains(routes[m]));
            }
        },
    }
}

/// A source has one route for each name that it gave, and no other.
pub proof fn lemma_names_stand_once(list: Seq<ServiceRoute>, routes: Seq<ServiceRoute>)
    requires
        named_once(list, routes),
    ensures
        forall|i: int, j: int|
            0 <= i < j < list.len() ==> (#[trigger] list[i]).prefix != (#[trigger] list[j]).prefix
                || list[i].gateway != list[j].gateway || list[i].path_id != list[j].path_id,
        forall|i: int| 0 <= i < list.len() ==> routes.contains(#[trigger] list[i]),
        forall|k: int|
            0 <= k < routes.len() ==> exists|i: int|
                0 <= i < list.len() && (#[trigger] list[i]).prefix == (
                #[trigger] routes[k]).prefix && list[i].gateway == routes[k].gateway
                    && list[i].path_id == routes[k].path_id,
{
    assert forall|i: int, j: int| 0 <= i < j < list.len() implies (#[trigger] list[i]).prefix != (
    #[trigger] list[j]).prefix || list[i].gateway != list[j].gateway || list[i].path_id
        != list[j].path_id by {
        assert(name_before(list[i], list[j]));
    }
    assert forall|k: int| 0 <= k < routes.len() implies exists|i: int|
        0 <= i < list.len() && (#[trigger] list[i]).prefix == (#[trigger] routes[k]).prefix
            && list[i].gateway == routes[k].gateway && list[i].path_id == routes[k].path_id by {
        assert(holds_name(list, routes[k]));
        let i = choose|i: int| 0 <= i < list.len() && same_name(#[trigger] list[i], routes[k]);
        assert(list[i].prefix == routes[k].prefix);
    }
}

/// What a flow was last given towards an address holds while the routes are the
/// same, it is not older than the time to live, and its gateway is live or is not
/// needed.
pub proof fn lemma_plan_holds_while_recent(
    store: ServiceRouteStore,
    plan: FlowPin,
    now_ns: u64,
    gateway_is_live: bool,
)
    ensures
        store.plan_holds(plan, now_ns, gateway_is_live) == (plan.generation
            == store.snapshot.generation && now_ns <= plan.created_at + store.pin_ttl_ns && (
        plan.selection.action == ServiceRouteAction::Blackhole || gateway_is_live)),
{
}

} // verus!
