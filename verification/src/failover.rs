//! The failover decisions of one health check cycle: which WAN link should carry the
//! traffic, whether the routing table has to change, what is remembered afterwards, and
//! what follows the cycle.
use vstd::prelude::*;
use crate::cli::Cli;
use crate::router::{
    EffectiveRoute,
    IpFamily,
    RouteEntry,
    is_effective_route_matched,
    route_matches,
    opt_string_text,
};

verus! {

/// Health recorded for the interface called `name` among the first `k` checks; when a name
/// was checked more than once, its last check counts, and an unchecked name is unhealthy.
pub open spec fn recorded_health(
    names: Seq<String>,
    health: Seq<bool>,
    name: Seq<char>,
    k: int,
) -> bool
    decreases k,
{
    if k <= 0 {
        false
    } else if names[k - 1]@ == name {
        health[k - 1]
    } else {
        recorded_health(names, health, name, k - 1)
    }
}

/// Whether the `i`-th interface counts as healthy once every interface was checked.
pub open spec fn is_effectively_healthy(names: Seq<String>, health: Seq<bool>, i: int) -> bool {
    recorded_health(names, health, names[i]@, names.len() as int)
}

/// The last check among the first `k` of an interface called `name` passed: some check
/// `j` of that name passed and no later check of that name follows it.
pub open spec fn last_check_passed(
    names: Seq<String>,
    health: Seq<bool>,
    name: Seq<char>,
    k: int,
) -> bool {
    exists|j: int|
        0 <= j < k && #[trigger] names[j]@ == name && health[j] && forall|l: int|
            j < l < k ==> names[l]@ != name
}

proof fn lemma_recorded_health_is_last_check(
    names: Seq<String>,
    health: Seq<bool>,
    name: Seq<char>,
    k: int,
)
    requires
        0 <= k <= names.len(),
        names.len() == health.len(),
    ensures
        recorded_health(names, health, name, k) == last_check_passed(names, health, name, k),
    decreases k,
{
    if k > 0 {
        lemma_recorded_health_is_last_check(names, health, name, k - 1);
        if names[k - 1]@ == name {
            if health[k - 1] {
                assert(names[k - 1]@ == name);
            } else {
                assert forall|j: int|
                    0 <= j < k && #[trigger] names[j]@ == name && health[j] implies !(forall|
                    l: int,
                | j < l < k ==> names[l]@ != name) by {
                    assert(j != k - 1);
                    assert(names[k - 1]@ == name);
                }
            }
        } else {
            if last_check_passed(names, health, name, k - 1) {
                let j = choose|j: int|
                    0 <= j < k - 1 && #[trigger] names[j]@ == name && health[j] && forall|l: int|
                        j < l < k - 1 ==> names[l]@ != name;
                assert(forall|l: int| j < l < k ==> names[l]@ != name);
            }
            if last_check_passed(names, health, name, k) {
                let j = choose|j: int|
                    0 <= j < k && #[trigger] names[j]@ == name && health[j] && forall|l: int|
                        j < l < k ==> names[l]@ != name;
                assert(j != k - 1);
                assert(forall|l: int| j < l < k - 1 ==> names[l]@ != name);
            }
        }
    }
}

/// An interface counts as healthy exactly when the last health check of an interface with
/// the same name (compared as text) passed. In particular a selected interface, or another
/// entry naming the very same interface, really passed its check.
pub proof fn lemma_healthy_means_own_check_passed(names: Seq<String>, health: Seq<bool>, i: int)
    requires
        names.len() == health.len(),
        0 <= i < names.len(),
    ensures
        is_effectively_healthy(names, health, i) <==> exists|j: int|
            0 <= j < names.len() && #[trigger] names[j]@ == names[i]@ && health[j] && forall|
                l: int,
            | j < l < names.len() ==> names[l]@ != names[i]@,
{
    lemma_recorded_health_is_last_check(names, health, names[i]@, names.len() as int);
}

/// When no name is repeated, each interface is judged by its own health check alone.
pub proof fn lemma_distinct_names_use_own_check(names: Seq<String>, health: Seq<bool>, i: int)
    requires
        names.len() == health.len(),
        0 <= i < names.len(),
        forall|a: int, b: int|
            0 <= a < names.len() && 0 <= b < names.len() && a != b ==> names[a]@ != names[b]@,
    ensures
        is_effectively_healthy(names, health, i) == health[i],
{
    lemma_healthy_means_own_check_passed(names, health, i);
    if health[i] {
        assert(names[i]@ == names[i]@);
        assert forall|l: int| i < l < names.len() implies names[l]@ != names[i]@ by {}
    }
}

fn health_of(interfaces: &Vec<String>, health: &Vec<bool>, name: &String) -> (h: bool)
    requires
        interfaces@.len() == health@.len(),
    ensures
        h == recorded_health(interfaces@, health@, name@, interfaces@.len() as int),
{
    let n = interfaces.len();
    let mut k: usize = n;
    while k > 0
        invariant
            k <= n,
            n == interfaces@.len(),
            n == health@.len(),
            recorded_health(interfaces@, health@, name@, n as int) == recorded_health(
                interfaces@,
                health@,
                name@,
                k as int,
            ),
        decreases k,
    {
        if interfaces[k - 1] == *name {
            return health[k - 1];
        }
        k = k - 1;
    }
    false
}

/// Picks the interface that should carry the traffic: the first one, in order of
/// preference, that is healthy. `None` means that every interface failed, and the
/// routing is then left as it is.
pub fn select_target(interfaces: &Vec<String>, health: &Vec<bool>) -> (r: Option<usize>)
    requires
        interfaces@.len() == health@.len(),
    ensures
        match r {
            Some(i) => {
                &&& i < interfaces@.len()
                &&& is_effectively_healthy(interfaces@, health@, i as int)
                &&& forall|j: int|
                    0 <= j < i ==> !is_effectively_healthy(interfaces@, health@, j)
            },
            None => forall|j: int|
                0 <= j < interfaces@.len() ==> !is_effectively_healthy(interfaces@, health@, j),
        },
        r matches Some(i) ==> exists|j: int|
            0 <= j < interfaces@.len() && #[trigger] interfaces@[j]@ == interfaces@[i as int]@
                && health@[j],
{
    let n = interfaces.len();
    let mut i: usize = 0;
    while i < n
        invariant
            n == interfaces@.len(),
            n == health@.len(),
            i <= n,
            forall|j: int| 0 <= j < i ==> !is_effectively_healthy(interfaces@, health@, j),
        decreases n - i,
    {
        if health_of(interfaces, health, &interfaces[i]) {
            proof {
                lemma_healthy_means_own_check_passed(interfaces@, health@, i as int);
            }
            return Some(i);
        }
        i = i + 1;
    }
    None
}

/// What to do about the routing once a target interface is known.
#[derive(Debug, Clone, PartialEq, Eq)]
pub enum RouteDecision {
    /// The default route of the target could not be read: nothing changes.
    DefaultRouteQueryFailed,
    /// The target has no default route: nothing changes.
    NoDefaultRoute,
    /// The routing already goes through the target and its gateway: nothing changes.
    AlreadyActive { gateway: Option<String> },
    /// The split routes must be pointed at the target and its gateway.
    Replace { gateway: Option<String> },
}

/// The effective route as far as it is known; a failed query counts as no route.
pub open spec fn known_route(current: Result<Option<EffectiveRoute>, String>) -> Option<
    EffectiveRoute,
> {
    match current {
        Ok(r) => r,
        Err(_) => None,
    }
}

/// The decision for a target `target_dev`, given the queried effective route and the
/// queried default route of the target. Routes change only when the desired device,
/// gateway or metric differs from what is in effect.
pub open spec fn route_decision_spec(
    current: Result<Option<EffectiveRoute>, String>,
    target_dev: Seq<char>,
    default_route: Result<Option<RouteEntry>, String>,
    metric: u32,
) -> RouteDecision {
    match default_route {
        Err(_) => RouteDecision::DefaultRouteQueryFailed,
        Ok(None) => RouteDecision::NoDefaultRoute,
        Ok(Some(r)) => if route_matches(
            known_route(current),
            target_dev,
            opt_string_text(r.gateway),
            metric,
        ) {
            RouteDecision::AlreadyActive { gateway: r.gateway }
        } else {
            RouteDecision::Replace { gateway: r.gateway }
        },
    }
}

/// How the decision depends on the queries: a failed default-route query or a missing
/// default route change nothing; otherwise the routing is kept exactly when the known
/// effective route goes through the target device, with the target's default gateway
/// (both absent, or both present with equal text) and the configured metric, and is
/// replaced in every other case. The gateway carried is the target's default gateway.
pub proof fn lemma_route_decision_cases(
    current: Result<Option<EffectiveRoute>, String>,
    target_dev: Seq<char>,
    default_route: Result<Option<RouteEntry>, String>,
    metric: u32,
)
    ensures
        (route_decision_spec(current, target_dev, default_route, metric)
            is DefaultRouteQueryFailed) <==> default_route is Err,
        (route_decision_spec(current, target_dev, default_route, metric) is NoDefaultRoute)
            <==> default_route == Ok::<Option<RouteEntry>, String>(None),
        (route_decision_spec(current, target_dev, default_route, metric) is AlreadyActive)
            <==> (default_route matches Ok(Some(r)) && current matches Ok(Some(c)) && c.dev@
            == target_dev && ((c.gateway is None && r.gateway is None) || (c.gateway is Some
            && r.gateway is Some && c.gateway->0@ == r.gateway->0@)) && c.metric == metric),
        (route_decision_spec(current, target_dev, default_route, metric) is Replace) <==> (
        default_route matches Ok(Some(r)) && !(current matches Ok(Some(c)) && c.dev@
            == target_dev && ((c.gateway is None && r.gateway is None) || (c.gateway is Some
            && r.gateway is Some && c.gateway->0@ == r.gateway->0@)) && c.metric == metric)),
        route_decision_spec(current, target_dev, default_route, metric) matches RouteDecision::AlreadyActive { gateway }
            ==> (default_route matches Ok(Some(r)) && gateway == r.gateway),
        route_decision_spec(current, target_dev, default_route, metric) matches RouteDecision::Replace { gateway }
            ==> (default_route matches Ok(Some(r)) && gateway == r.gateway),
{
}

fn clone_gateway(g: &Option<String>) -> (r: Option<String>)
    ensures
        r == *g,
{
    match g {
        Some(s) => Some(s.clone()),
        None => None,
    }
}

/// Decides whether the routing must change to make `target_dev` the active WAN link.
pub fn decide_route_update(
    current: &Result<Option<EffectiveRoute>, String>,
    target_dev: &str,
    default_route: &Result<Option<RouteEntry>, String>,
    metric: u32,
) -> (d: RouteDecision)
    ensures
        d == route_decision_spec(*current, target_dev@, *default_route, metric),
        d is AlreadyActive ==> (*current matches Ok(Some(c)) && c.dev@ == target_dev@
            && c.metric == metric),
        (*default_route matches Ok(Some(_)) && *current matches Ok(Some(c)) && c.dev@
            != target_dev@) ==> d is Replace,
{
    proof {
        lemma_route_decision_cases(*current, target_dev@, *default_route, metric);
    }
    match default_route {
        Err(_) => RouteDecision::DefaultRouteQueryFailed,
        Ok(None) => RouteDecision::NoDefaultRoute,
        Ok(Some(r)) => {
            let cur: Option<&EffectiveRoute> = match current {
                Ok(Some(c)) => Some(c),
                _ => None,
            };
            let gw: Option<&str> = match &r.gateway {
                Some(g) => Some(g.as_str()),
                None => None,
            };
            if is_effective_route_matched(cur, target_dev, gw, metric) {
                RouteDecision::AlreadyActive { gateway: clone_gateway(&r.gateway) }
            } else {
                RouteDecision::Replace { gateway: clone_gateway(&r.gateway) }
            }
        },
    }
}

/// Once the effective route goes through the target, its default gateway and the
/// configured metric (as a successful replacement leaves it), the next decision for that
/// target changes nothing.
pub proof fn lemma_replaced_route_is_kept(
    current: Result<Option<EffectiveRoute>, String>,
    target_dev: Seq<char>,
    default_route: Result<Option<RouteEntry>, String>,
    metric: u32,
)
    requires
        default_route matches Ok(Some(r)) && current matches Ok(Some(c)) && c.dev@ == target_dev
            && opt_string_text(c.gateway) == opt_string_text(r.gateway) && c.metric == metric,
    ensures
        route_decision_spec(current, target_dev, default_route, metric) is AlreadyActive,
{
}

/// Concludes the cycle of one family after the decision was carried out.
/// `replace_succeeded` is whether the route replacement (if one was decided) succeeded.
/// Returns whether the routing was changed; the interface last reported as active becomes
/// the target when the routing is in place through it.
pub fn settle_family(
    last_reported: &mut Option<String>,
    target_dev: &str,
    decision: &RouteDecision,
    replace_succeeded: bool,
) -> (updated: bool)
    ensures
        updated == (decision is Replace && replace_succeeded),
        (decision is AlreadyActive || updated) ==> opt_string_text(*final(last_reported))
            == Some(target_dev@),
        !(decision is AlreadyActive || updated) ==> *final(last_reported) == *old(last_reported),
{
    match decision {
        RouteDecision::AlreadyActive { .. } => {
            *last_reported = Some(target_dev.to_owned());
            false
        },
        RouteDecision::Replace { .. } => {
            if replace_succeeded {
                *last_reported = Some(target_dev.to_owned());
                true
            } else {
                false
            }
        },
        _ => false,
    }
}

/// The families a cycle checks, IPv4 first.
pub fn enabled_families(cli: &Cli) -> (fs: Vec<IpFamily>)
    ensures
        fs@ == (if !cli.ipv6 {
            seq![IpFamily::V4]
        } else {
            Seq::empty()
        }) + (if !cli.ipv4 {
            seq![IpFamily::V6]
        } else {
            Seq::empty()
        }),
{
    let mut fs: Vec<IpFamily> = Vec::new();
    if cli.is_ipv4_enabled() {
        fs.push(IpFamily::V4);
    }
    if cli.is_ipv6_enabled() {
        fs.push(IpFamily::V6);
    }
    assert(fs@ =~= (if !cli.ipv6 {
        seq![IpFamily::V4]
    } else {
        Seq::empty()
    }) + (if !cli.ipv4 {
        seq![IpFamily::V6]
    } else {
        Seq::empty()
    }));
    fs
}

/// What happens to the connection-tracking table at the end of a cycle.
#[derive(Debug, Clone, Copy, PartialEq, Eq)]
pub enum ConntrackStep {
    /// Leave it alone.
    Skip,
    /// Only report that it would be flushed (dry run).
    Simulate,
    /// Flush it.
    Execute,
}

/// What follows a cycle.
#[derive(Debug, Clone, Copy, PartialEq, Eq)]
pub struct CycleEnd {
    pub conntrack: ConntrackStep,
    /// The daemon stops instead of waiting for the next cycle.
    pub stop: bool,
}

/// Decides what follows a cycle in which the families reported `updated`: stale
/// connections are flushed after any route change unless that was disabled, and a
/// single-cycle run stops.
pub fn finish_cycle(cli: &Cli, updated: &Vec<bool>) -> (e: CycleEnd)
    ensures
        e.stop == cli.once,
        e.conntrack == (if (exists|i: int| 0 <= i < updated@.len() && #[trigger] updated@[i])
            && !cli.no_conntrack_flush {
            if cli.dry_run {
                ConntrackStep::Simulate
            } else {
                ConntrackStep::Execute
            }
        } else {
            ConntrackStep::Skip
        }),
{
    let mut routes_updated = false;
    let mut i: usize = 0;
    while i < updated.len()
        invariant
            i <= updated@.len(),
            routes_updated == (exists|j: int| 0 <= j < i && #[trigger] updated@[j]),
        decreases updated@.len() - i,
    {
        if updated[i] {
            routes_updated = true;
        }
        i = i + 1;
    }
    let conntrack = if routes_updated && !cli.no_conntrack_flush {
        if cli.dry_run {
            ConntrackStep::Simulate
        } else {
            ConntrackStep::Execute
        }
    } else {
        ConntrackStep::Skip
    };
    CycleEnd { conntrack, stop: cli.once }
}

} // verus!
