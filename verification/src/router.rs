//! Routing model: address families, route records reported by `ip -j route`, the
//! comparison of the effective route with the desired one, and the `ip` / `conntrack`
//! command lines that query and change the routing state.
use vstd::prelude::*;
use crate::text::{decimal_string, decimal_text};

verus! {

/// An IP address family.
#[derive(Debug, Clone, Copy, PartialEq, Eq)]
pub enum IpFamily {
    V4,
    V6,
}

/// The `ip` option that selects the family.
pub open spec fn flag_text(family: IpFamily) -> Seq<char> {
    match family {
        IpFamily::V4 => "-4"@,
        IpFamily::V6 => "-6"@,
    }
}

/// The first half of the address space, whose route tells which link is in effect.
pub open spec fn primary_subnet_text(family: IpFamily) -> Seq<char> {
    match family {
        IpFamily::V4 => "0.0.0.0/1"@,
        IpFamily::V6 => "::/1"@,
    }
}

/// The two halves of the address space that the failover routes cover.
pub open spec fn split_subnet_text(family: IpFamily, half: int) -> Seq<char> {
    match family {
        IpFamily::V4 => if half == 0 {
            "0.0.0.0/1"@
        } else {
            "128.0.0.0/1"@
        },
        IpFamily::V6 => if half == 0 {
            "::/1"@
        } else {
            "8000::/1"@
        },
    }
}

/// The route read back to find the effective link is the first of the two routes that a
/// replacement writes.
pub proof fn lemma_primary_subnet_is_first_split(family: IpFamily)
    ensures
        primary_subnet_text(family) == split_subnet_text(family, 0),
{
}

impl IpFamily {
    /// The `ip` command option for this family: `-4` or `-6`.
    pub fn flag(&self) -> (r: &'static str)
        ensures
            r@ == flag_text(*self),
    {
        match self {
            IpFamily::V4 => "-4",
            IpFamily::V6 => "-6",
        }
    }

    /// The subnet whose route is read back to find the effective WAN link.
    pub fn primary_effective_subnet(&self) -> (r: &'static str)
        ensures
            r@ == primary_subnet_text(*self),
    {
        match self {
            IpFamily::V4 => "0.0.0.0/1",
            IpFamily::V6 => "::/1",
        }
    }

    /// The two subnets that together cover the whole address space of the family.
    pub fn split_subnets(&self) -> (r: [&'static str; 2])
        ensures
            r[0]@ == split_subnet_text(*self, 0),
            r[1]@ == split_subnet_text(*self, 1),
    {
        match self {
            IpFamily::V4 => ["0.0.0.0/1", "128.0.0.0/1"],
            IpFamily::V6 => ["::/1", "8000::/1"],
        }
    }
}

/// One route as `ip -j route show` reports it; absent keys are `None`.
#[derive(Debug, Clone, PartialEq, Eq)]
pub struct RouteEntry {
    pub dst: Option<String>,
    pub gateway: Option<String>,
    pub dev: Option<String>,
    pub protocol: Option<String>,
    pub metric: Option<u32>,
    pub prefsrc: Option<String>,
}

/// The route currently in effect for the primary subnet.
#[derive(Debug, Clone, PartialEq, Eq)]
pub struct EffectiveRoute {
    pub dev: String,
    pub gateway: Option<String>,
    pub metric: u32,
}

/// The text of an optional borrowed string.
pub open spec fn opt_text(o: Option<&str>) -> Option<Seq<char>> {
    match o {
        Some(t) => Some(t@),
        None => None,
    }
}

/// The text of an optional owned string.
pub open spec fn opt_string_text(o: Option<String>) -> Option<Seq<char>> {
    match o {
        Some(t) => Some(t@),
        None => None,
    }
}

/// The effective route already goes through the target device, gateway and metric;
/// two gateways agree when both are absent or both are present with equal text.
pub open spec fn route_matches(
    current: Option<EffectiveRoute>,
    target_dev: Seq<char>,
    target_gateway: Option<Seq<char>>,
    target_metric: u32,
) -> bool {
    match current {
        None => false,
        Some(cur) => cur.dev@ == target_dev && opt_string_text(cur.gateway) == target_gateway
            && cur.metric == target_metric,
    }
}

/// The effective route matches exactly when it exists, goes through the target device,
/// has the target gateway (both absent, or both present with equal text) and the target
/// metric; a route through any other device never matches.
pub proof fn lemma_route_match_compares_every_field(
    current: Option<EffectiveRoute>,
    target_dev: Seq<char>,
    target_gateway: Option<Seq<char>>,
    target_metric: u32,
)
    ensures
        route_matches(current, target_dev, target_gateway, target_metric) <==> (current matches Some(
            c,
        ) && c.dev@ == target_dev && ((c.gateway is None && target_gateway is None) || (
        c.gateway is Some && target_gateway is Some && c.gateway->0@ == target_gateway->0))
            && c.metric == target_metric),
{
}

fn same_text(a: &String, b: &str) -> (r: bool)
    ensures
        r == (a@ == b@),
{
    let owned = b.to_owned();
    *a == owned
}

/// Checks whether the current effective routing already matches the desired routing.
pub fn is_effective_route_matched(
    current: Option<&EffectiveRoute>,
    target_dev: &str,
    target_gateway: Option<&str>,
    target_metric: u32,
) -> (r: bool)
    ensures
        r == route_matches(
            match current {
                Some(c) => Some(*c),
                None => None,
            },
            target_dev@,
            opt_text(target_gateway),
            target_metric,
        ),
        r ==> (current matches Some(c) && c.dev@ == target_dev@ && c.metric == target_metric),
{
    match current {
        Some(cur) => {
            let dev_matches = same_text(&cur.dev, target_dev);
            let gw_matches = match &cur.gateway {
                Some(g) => match target_gateway {
                    Some(t) => same_text(g, t),
                    None => false,
                },
                None => target_gateway.is_none(),
            };
            let metric_matches = cur.metric == target_metric;
            dev_matches && gw_matches && metric_matches
        },
        None => false,
    }
}

/// The first route of a listing; with several default routes on a device, the first is used.
pub fn first_route(routes: Vec<RouteEntry>) -> (r: Option<RouteEntry>)
    ensures
        r == (if routes@.len() > 0 {
            Some(routes@[0])
        } else {
            None::<RouteEntry>
        }),
{
    let mut routes = routes;
    if routes.len() > 0 {
        Some(routes.remove(0))
    } else {
        None
    }
}

/// The effective route described by a listing: its first route, when that names a device.
pub open spec fn effective_route_spec(routes: Seq<RouteEntry>) -> Option<EffectiveRoute> {
    if routes.len() > 0 && routes[0].dev is Some {
        Some(
            EffectiveRoute {
                dev: routes[0].dev->0,
                gateway: routes[0].gateway,
                metric: match routes[0].metric {
                    Some(m) => m,
                    None => 0,
                },
            },
        )
    } else {
        None
    }
}

/// The effective route is the first listed route, taken only when it names a device; its
/// device and gateway are that route's, and an absent metric counts as zero.
pub proof fn lemma_effective_route_is_first_listed(routes: Seq<RouteEntry>)
    ensures
        effective_route_spec(routes) is None <==> (routes.len() == 0 || routes[0].dev is None),
        effective_route_spec(routes) matches Some(e) ==> (routes[0].dev == Some(e.dev)
            && e.gateway == routes[0].gateway && (routes[0].metric matches Some(m) ==> e.metric
            == m) && (routes[0].metric is None ==> e.metric == 0)),
{
}

/// Reads the effective route from the listing of the primary subnet's routes.
pub fn effective_route(routes: Vec<RouteEntry>) -> (r: Option<EffectiveRoute>)
    ensures
        r == effective_route_spec(routes@),
{
    match first_route(routes) {
        Some(first) => match first.dev {
            Some(dev) => Some(
                EffectiveRoute {
                    dev,
                    gateway: first.gateway,
                    metric: match first.metric {
                        Some(m) => m,
                        None => 0,
                    },
                },
            ),
            None => None,
        },
        None => None,
    }
}

/// A program to run and its arguments.
#[derive(Debug, Clone, PartialEq, Eq)]
pub struct CommandLine {
    pub program: String,
    pub args: Vec<String>,
}

/// The text of each argument.
pub open spec fn texts(args: Seq<String>) -> Seq<Seq<char>> {
    args.map_values(|a: String| a@)
}

impl CommandLine {
    /// The program's name as text.
    pub open spec fn program_text(&self) -> Seq<char> {
        self.program@
    }

    /// The arguments as texts.
    pub open spec fn args_text(&self) -> Seq<Seq<char>> {
        texts(self.args@)
    }
}

fn push_arg(args: &mut Vec<String>, arg: &str)
    ensures
        texts(final(args)@) == texts(old(args)@).push(arg@),
{
    args.push(arg.to_owned());
    assert(texts(args@) =~= texts(old(args)@).push(arg@));
}

/// Arguments of `ip <family> -j route show default dev <interface>`.
pub open spec fn default_route_query_args(family: IpFamily, interface: Seq<char>) -> Seq<
    Seq<char>,
> {
    seq![flag_text(family), "-j"@, "route"@, "show"@, "default"@, "dev"@, interface]
}

/// Arguments of `ip <family> -j route show <primary subnet>`.
pub open spec fn effective_route_query_args(family: IpFamily) -> Seq<Seq<char>> {
    seq![flag_text(family), "-j"@, "route"@, "show"@, primary_subnet_text(family)]
}

/// Arguments of `ip <family> route replace <subnet> dev <dev> [via <gw>] [metric <m>]`;
/// the metric is given only when it is not zero.
pub open spec fn route_replace_args(
    family: IpFamily,
    subnet: Seq<char>,
    dev: Seq<char>,
    gateway: Option<&str>,
    metric: u32,
) -> Seq<Seq<char>> {
    let base = seq![flag_text(family), "route"@, "replace"@, subnet, "dev"@, dev];
    let with_gateway = match gateway {
        Some(g) => base + seq!["via"@, g@],
        None => base,
    };
    if metric > 0 {
        with_gateway + seq!["metric"@, decimal_text(metric as nat)]
    } else {
        with_gateway
    }
}

/// The layout of a route replacement: `<flag> route replace <subnet> dev <dev>`, then
/// `via <gateway>` whenever there is a gateway (whatever the metric), then
/// `metric <decimal metric>` when the metric is not zero, and nothing else.
pub proof fn lemma_route_replace_layout(
    family: IpFamily,
    subnet: Seq<char>,
    dev: Seq<char>,
    gateway: Option<&str>,
    metric: u32,
)
    ensures
        ({
            let a = route_replace_args(family, subnet, dev, gateway, metric);
            let g: int = if gateway is Some {
                2
            } else {
                0
            };
            let m: int = if metric > 0 {
                2
            } else {
                0
            };
            &&& a.len() == 6 + g + m
            &&& a[0] == flag_text(family)
            &&& a[1] == "route"@
            &&& a[2] == "replace"@
            &&& a[3] == subnet
            &&& a[4] == "dev"@
            &&& a[5] == dev
            &&& gateway matches Some(gw) ==> (a[6] == "via"@ && a[7] == gw@)
            &&& metric > 0 ==> (a[6 + g] == "metric"@ && a[7 + g] == decimal_text(
                metric as nat,
            ))
        }),
{
}

fn ip_command(args: Vec<String>) -> (c: CommandLine)
    ensures
        c.program@ == "ip"@,
        c.args == args,
{
    CommandLine { program: "ip".to_owned(), args }
}

/// The command that lists the default routes of `interface`.
pub fn default_route_query(interface: &str, family: IpFamily) -> (c: CommandLine)
    ensures
        c.program_text() == "ip"@,
        c.args_text() == default_route_query_args(family, interface@),
{
    let mut args: Vec<String> = Vec::new();
    push_arg(&mut args, family.flag());
    push_arg(&mut args, "-j");
    push_arg(&mut args, "route");
    push_arg(&mut args, "show");
    push_arg(&mut args, "default");
    push_arg(&mut args, "dev");
    push_arg(&mut args, interface);
    assert(texts(args@) =~= default_route_query_args(family, interface@));
    ip_command(args)
}

/// The command that lists the routes of the primary subnet.
pub fn effective_route_query(family: IpFamily) -> (c: CommandLine)
    ensures
        c.program_text() == "ip"@,
        c.args_text() == effective_route_query_args(family),
{
    let mut args: Vec<String> = Vec::new();
    push_arg(&mut args, family.flag());
    push_arg(&mut args, "-j");
    push_arg(&mut args, "route");
    push_arg(&mut args, "show");
    push_arg(&mut args, family.primary_effective_subnet());
    assert(texts(args@) =~= effective_route_query_args(family));
    ip_command(args)
}

fn route_replace_command(
    family: IpFamily,
    subnet: &str,
    target_dev: &str,
    gateway: Option<&str>,
    metric: u32,
) -> (c: CommandLine)
    ensures
        c.program_text() == "ip"@,
        c.args_text() == route_replace_args(family, subnet@, target_dev@, gateway, metric),
{
    let mut args: Vec<String> = Vec::new();
    push_arg(&mut args, family.flag());
    push_arg(&mut args, "route");
    push_arg(&mut args, "replace");
    push_arg(&mut args, subnet);
    push_arg(&mut args, "dev");
    push_arg(&mut args, target_dev);
    let ghost base = texts(args@);
    match gateway {
        Some(gw) => {
            push_arg(&mut args, "via");
            push_arg(&mut args, gw);
        },
        None => {},
    }
    let ghost with_gateway = texts(args@);
    assert(with_gateway =~= match gateway {
        Some(g) => base + seq!["via"@, g@],
        None => base,
    });
    if metric > 0 {
        let m = decimal_string(metric);
        push_arg(&mut args, "metric");
        push_arg(&mut args, m.as_str());
        assert(texts(args@) =~= with_gateway + seq!["metric"@, decimal_text(metric as nat)]);
    }
    ip_command(args)
}

/// The commands that point both halves of the address space at `target_dev`
/// (through `gateway` when there is one), in the order of `split_subnets`.
pub fn route_replace_commands(
    target_dev: &str,
    gateway: Option<&str>,
    metric: u32,
    family: IpFamily,
) -> (cs: Vec<CommandLine>)
    ensures
        cs@.len() == 2,
        forall|i: int|
            0 <= i < 2 ==> (#[trigger] cs@[i]).program_text() == "ip"@ && cs@[i].args_text()
                == route_replace_args(
                family,
                split_subnet_text(family, i),
                target_dev@,
                gateway,
                metric,
            ),
{
    let subnets = family.split_subnets();
    let mut cs: Vec<CommandLine> = Vec::new();
    cs.push(route_replace_command(family, subnets[0], target_dev, gateway, metric));
    cs.push(route_replace_command(family, subnets[1], target_dev, gateway, metric));
    cs
}

/// The command that flushes the connection-tracking table: `conntrack -F`.
pub fn conntrack_flush_command() -> (c: CommandLine)
    ensures
        c.program_text() == "conntrack"@,
        c.args_text() == seq!["-F"@],
{
    let mut args: Vec<String> = Vec::new();
    push_arg(&mut args, "-F");
    assert(texts(args@) =~= seq!["-F"@]);
    CommandLine { program: "conntrack".to_owned(), args }
}

} // verus!
