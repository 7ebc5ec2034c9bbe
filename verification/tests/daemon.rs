use mwand::cli::Cli;
use mwand::failover::{
    decide_route_update, enabled_families, finish_cycle, select_target, settle_family,
    ConntrackStep, RouteDecision,
};
use mwand::router::{effective_route, EffectiveRoute, IpFamily, RouteEntry};

fn cli(ipv4: bool, ipv6: bool) -> Cli {
    Cli {
        interfaces: vec!["wan".to_string(), "phy1-sta0".to_string()],
        ipv4,
        ipv6,
        ip4: [223, 5, 5, 5],
        ip6: [0x2400, 0x3200, 0, 0, 0, 0, 0, 1],
        metric: 0,
        interval: 15,
        timeout: 1000,
        count: 3,
        no_conntrack_flush: false,
        dry_run: false,
        once: false,
    }
}

fn names(v: &[&str]) -> Vec<String> {
    v.iter().map(|s| s.to_string()).collect()
}

fn default_route(gw: Option<&str>) -> RouteEntry {
    RouteEntry {
        dst: Some("default".to_string()),
        gateway: gw.map(|s| s.to_string()),
        dev: None,
        protocol: Some("static".to_string()),
        metric: Some(100),
        prefsrc: None,
    }
}

#[test]
fn families_by_flags() {
    assert!(cli(false, false).is_ipv4_enabled());
    assert!(cli(false, false).is_ipv6_enabled());
    assert!(cli(true, false).is_ipv4_enabled());
    assert!(!cli(true, false).is_ipv6_enabled());
    assert!(!cli(false, true).is_ipv4_enabled());
    assert!(cli(false, true).is_ipv6_enabled());
    assert_eq!(enabled_families(&cli(false, false)), vec![IpFamily::V4, IpFamily::V6]);
    assert_eq!(enabled_families(&cli(true, false)), vec![IpFamily::V4]);
    assert_eq!(enabled_families(&cli(false, true)), vec![IpFamily::V6]);
}

#[test]
fn target_is_first_healthy_interface() {
    let ifs = names(&["wan", "phy1-sta0", "wwan0"]);
    assert_eq!(select_target(&ifs, &vec![true, true, false]), Some(0));
    assert_eq!(select_target(&ifs, &vec![false, true, true]), Some(1));
    assert_eq!(select_target(&ifs, &vec![false, false, true]), Some(2));
}

#[test]
fn all_interfaces_down_keeps_status_quo() {
    let ifs = names(&["wan", "phy1-sta0"]);
    assert_eq!(select_target(&ifs, &vec![false, false]), None);
    assert_eq!(select_target(&vec![], &vec![]), None);
}

#[test]
fn repeated_interface_uses_its_last_check() {
    let ifs = names(&["wan", "lte", "wan"]);
    assert_eq!(select_target(&ifs, &vec![true, false, false]), None);
    assert_eq!(select_target(&ifs, &vec![false, false, true]), Some(0));
}

#[test]
fn decision_keeps_matching_route() {
    let current = Ok(Some(EffectiveRoute {
        dev: "wan".to_string(),
        gateway: Some("172.24.1.254".to_string()),
        metric: 0,
    }));
    let d = decide_route_update(&current, "wan", &Ok(Some(default_route(Some("172.24.1.254")))), 0);
    assert_eq!(d, RouteDecision::AlreadyActive { gateway: Some("172.24.1.254".to_string()) });
}

#[test]
fn decision_replaces_on_other_device_gateway_or_metric() {
    let current = Ok(Some(EffectiveRoute {
        dev: "wan".to_string(),
        gateway: Some("172.24.1.254".to_string()),
        metric: 0,
    }));
    let gw = Some("10.40.151.254".to_string());
    let d = decide_route_update(&current, "phy1-sta0", &Ok(Some(default_route(Some("10.40.151.254")))), 0);
    assert_eq!(d, RouteDecision::Replace { gateway: gw });
    let d = decide_route_update(&current, "wan", &Ok(Some(default_route(Some("172.24.1.1")))), 0);
    assert_eq!(d, RouteDecision::Replace { gateway: Some("172.24.1.1".to_string()) });
    let d = decide_route_update(&current, "wan", &Ok(Some(default_route(Some("172.24.1.254")))), 10);
    assert_eq!(d, RouteDecision::Replace { gateway: Some("172.24.1.254".to_string()) });
}

#[test]
fn decision_without_current_route_or_default_route() {
    let d = decide_route_update(&Ok(None), "wan", &Ok(Some(default_route(None))), 0);
    assert_eq!(d, RouteDecision::Replace { gateway: None });
    let d = decide_route_update(&Err("no ip".to_string()), "wan", &Ok(Some(default_route(None))), 0);
    assert_eq!(d, RouteDecision::Replace { gateway: None });
    let current = Ok(Some(EffectiveRoute { dev: "wan".to_string(), gateway: None, metric: 0 }));
    assert_eq!(decide_route_update(&current, "wan", &Ok(None), 0), RouteDecision::NoDefaultRoute);
    assert_eq!(
        decide_route_update(&current, "wan", &Err("failed".to_string()), 0),
        RouteDecision::DefaultRouteQueryFailed
    );
}

#[test]
fn settling_updates_last_reported() {
    let mut last = None;
    let replace = RouteDecision::Replace { gateway: None };
    assert!(settle_family(&mut last, "wan", &replace, true));
    assert_eq!(last.as_deref(), Some("wan"));
    assert!(!settle_family(&mut last, "lte", &replace, false));
    assert_eq!(last.as_deref(), Some("wan"));
    assert!(!settle_family(&mut last, "lte", &RouteDecision::AlreadyActive { gateway: None }, false));
    assert_eq!(last.as_deref(), Some("lte"));
    assert!(!settle_family(&mut last, "wan", &RouteDecision::NoDefaultRoute, true));
    assert!(!settle_family(&mut last, "wan", &RouteDecision::DefaultRouteQueryFailed, true));
    assert_eq!(last.as_deref(), Some("lte"));
}

#[test]
fn conntrack_flushed_only_after_route_change() {
    let c = cli(false, false);
    assert_eq!(finish_cycle(&c, &vec![false, false]).conntrack, ConntrackStep::Skip);
    assert_eq!(finish_cycle(&c, &vec![false, true]).conntrack, ConntrackStep::Execute);
    let mut quiet = cli(false, false);
    quiet.no_conntrack_flush = true;
    assert_eq!(finish_cycle(&quiet, &vec![true]).conntrack, ConntrackStep::Skip);
    let mut dry = cli(false, false);
    dry.dry_run = true;
    assert_eq!(finish_cycle(&dry, &vec![true]).conntrack, ConntrackStep::Simulate);
    assert!(!finish_cycle(&c, &vec![]).stop);
    let mut once = cli(false, false);
    once.once = true;
    assert!(finish_cycle(&once, &vec![]).stop);
}

#[test]
fn replaced_route_is_kept_next_cycle() {
    // After `ip route replace 0.0.0.0/1 dev phy1-sta0 via 10.40.151.254`, the primary
    // subnet reads back through the new link.
    let listing = vec![RouteEntry {
        dst: Some("0.0.0.0/1".to_string()),
        gateway: Some("10.40.151.254".to_string()),
        dev: Some("phy1-sta0".to_string()),
        protocol: None,
        metric: None,
        prefsrc: None,
    }];
    let current = Ok(effective_route(listing));
    let d = decide_route_update(
        &current,
        "phy1-sta0",
        &Ok(Some(default_route(Some("10.40.151.254")))),
        0,
    );
    assert_eq!(d, RouteDecision::AlreadyActive { gateway: Some("10.40.151.254".to_string()) });
}
