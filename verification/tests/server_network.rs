//! NAT rules, routes and the checks on their arguments.

use hpn::server::nat_rules::{
    allow_forward, command_done, disallow_forward, CommandOutcome, NatManager,
};
use hpn::server::routing::{
    add_route, add_route_v6, delete_route, delete_route_v6, is_ip_forwarding_enabled,
    is_ipv6_forwarding_enabled,
};
use hpn::server::validation::{
    validate_interface_name, validate_ipv4_address, validate_ipv4_cidr, validate_ipv6_address,
    validate_ipv6_cidr,
};

fn no_iptables() -> CommandOutcome {
    CommandOutcome::NotRun("not found".to_string())
}

#[test]
fn test_nat_manager_new() {
    let manager = NatManager::new("10.99.0.0/24", None).unwrap();
    assert!(!manager.is_active());
    assert!(!manager.is_ipv6_active());
}

#[test]
fn test_nat_manager_new_with_interface() {
    let manager = NatManager::new("10.99.0.0/24", Some("eth0".to_string())).unwrap();
    assert!(!manager.is_active());
}

#[test]
fn test_nat_manager_new_invalid_network() {
    // Invalid CIDR should fail
    assert!(NatManager::new("invalid", None).is_err());
    assert!(NatManager::new("10.0.0.1", None).is_err()); // Missing prefix
    assert!(NatManager::new("256.0.0.0/24", None).is_err());
}

#[test]
fn test_nat_manager_new_invalid_interface() {
    // Invalid interface name should fail
    assert!(NatManager::new("10.0.0.0/24", Some("eth0; rm -rf /".to_string())).is_err());
    assert!(NatManager::new("10.0.0.0/24", Some(String::new())).is_err());
}

#[test]
fn test_nat_manager_enable_disable() {
    let mut manager = NatManager::new("10.99.0.0/24", None).unwrap();

    let args = manager.enable().unwrap();
    assert_eq!(
        args,
        vec!["-t", "nat", "-A", "POSTROUTING", "-s", "10.99.0.0/24", "-j", "MASQUERADE"]
    );
    assert!(manager.enable_done(&no_iptables()).is_err());
    assert!(!manager.is_active());
    assert!(manager.enable_done(&CommandOutcome::Succeeded).is_ok());
    assert!(manager.is_active());

    // Disable should succeed once the command ran
    assert!(manager.disable().is_some());
    assert!(manager.disable_done(&CommandOutcome::Failed("no rule".to_string())).is_ok());
    assert!(!manager.is_active());
}

#[test]
fn test_nat_manager_enable_twice() {
    let mut manager = NatManager::new("10.99.0.0/24", None).unwrap();
    assert!(manager.enable().is_some());
    assert!(manager.enable_done(&CommandOutcome::Succeeded).is_ok());
    // Second enable should be idempotent
    assert!(manager.enable().is_none(), "Second enable should be idempotent");

    let mut failing = NatManager::new("10.99.0.0/24", None).unwrap();
    assert!(failing.enable_done(&no_iptables()).is_err());
    assert!(failing.enable().is_some());
    assert!(failing.enable_done(&no_iptables()).is_err(), "Both enables should fail consistently");
}

#[test]
fn test_nat_manager_disable_when_not_active() {
    let manager = NatManager::new("10.99.0.0/24", None).unwrap();

    // Disable when not active should succeed
    assert!(manager.disable().is_none());
}

#[test]
fn test_nat_manager_ipv6_enable_disable() {
    let mut manager = NatManager::new("10.99.0.0/24", Some("eth0".to_string())).unwrap();

    let args = manager.enable_ipv6("fd99::/64").unwrap().unwrap();
    assert_eq!(
        args,
        vec![
            "-t", "nat", "-A", "POSTROUTING", "-s", "fd99::/64", "-o", "eth0", "-j", "MASQUERADE"
        ]
    );
    assert!(manager.enable_ipv6_done(&CommandOutcome::Succeeded).is_ok());
    assert!(manager.is_ipv6_active());

    let args = manager.disable_ipv6().unwrap();
    assert_eq!(args[2], "-D");
    assert_eq!(args[5], "fd99::/64");
    assert!(manager.disable_ipv6_done(&CommandOutcome::Succeeded).is_ok());
    assert!(!manager.is_ipv6_active());
}

#[test]
fn test_nat_manager_ipv6_enable_invalid() {
    let mut manager = NatManager::new("10.99.0.0/24", None).unwrap();

    // Invalid IPv6 CIDR should fail validation
    assert!(manager.enable_ipv6("invalid").is_err());
    assert!(manager.enable_ipv6("::1").is_err()); // Missing prefix
}

#[test]
fn test_nat_manager_ipv6_enable_twice() {
    let mut manager = NatManager::new("10.99.0.0/24", None).unwrap();
    assert!(manager.enable_ipv6("fd99::/64").unwrap().is_some());
    assert!(manager.enable_ipv6_done(&CommandOutcome::Succeeded).is_ok());
    assert!(
        manager.enable_ipv6("fd99::/64").unwrap().is_none(),
        "Second enable_ipv6 should be idempotent"
    );
    let mut failing = NatManager::new("10.99.0.0/24", None).unwrap();
    assert!(failing.enable_ipv6("fd99::/64").unwrap().is_some());
    let first = failing.enable_ipv6_done(&CommandOutcome::Failed("x".to_string()));
    assert!(first.unwrap_err().message().contains("ip6tables failed: x"));
    assert!(failing.enable_ipv6("fd99::/64").unwrap().is_some());
}

#[test]
fn test_nat_manager_ipv6_disable_when_not_active() {
    let manager = NatManager::new("10.99.0.0/24", None).unwrap();

    // Disable when not active should succeed
    assert!(manager.disable_ipv6().is_none());
}

#[test]
fn test_allow_forward() {
    let (out, back) = allow_forward("10.99.0.0/24", "hpn0").unwrap();
    assert_eq!(out, vec!["-A", "FORWARD", "-s", "10.99.0.0/24", "-i", "hpn0", "-j", "ACCEPT"]);
    assert_eq!(
        back,
        vec![
            "-A", "FORWARD", "-d", "10.99.0.0/24", "-o", "hpn0", "-m", "state", "--state",
            "RELATED,ESTABLISHED", "-j", "ACCEPT"
        ]
    );
}

#[test]
fn test_allow_forward_invalid_input() {
    // Invalid network should fail validation
    assert!(allow_forward("invalid", "hpn0").is_err());
    // Invalid interface should fail validation
    assert!(allow_forward("10.0.0.0/24", "eth0; rm -rf /").is_err());
}

#[test]
fn test_disallow_forward() {
    let (out, back) = disallow_forward("10.99.0.0/24", "hpn0").unwrap();
    assert_eq!(out[0], "-D");
    assert_eq!(back[0], "-D");
}

#[test]
fn test_disallow_forward_invalid_input() {
    // Invalid network should fail validation
    assert!(disallow_forward("invalid", "hpn0").is_err());
    // Invalid interface should fail validation
    assert!(disallow_forward("10.0.0.0/24", "eth0`id`").is_err());
}

#[test]
fn test_nat_manager_with_different_networks() {
    let manager1 = NatManager::new("192.168.1.0/24", None).unwrap();
    let manager2 = NatManager::new("172.16.0.0/16", Some("wlan0".to_string())).unwrap();

    assert!(!manager1.is_active());
    assert!(!manager2.is_active());
}

#[test]
fn routes_become_arguments() {
    assert_eq!(
        add_route("10.0.0.0/8", "192.168.1.1", "eth0").unwrap(),
        vec!["route", "add", "10.0.0.0/8", "via", "192.168.1.1", "dev", "eth0"]
    );
    assert_eq!(delete_route("10.0.0.0/8").unwrap(), vec!["route", "del", "10.0.0.0/8"]);
    assert_eq!(
        add_route_v6("fd00::/8", "fe80::1", "eth0").unwrap(),
        vec!["-6", "route", "add", "fd00::/8", "via", "fe80::1", "dev", "eth0"]
    );
    assert_eq!(delete_route_v6("fd00::/8").unwrap(), vec!["-6", "route", "del", "fd00::/8"]);
    assert!(add_route("10.0.0.0/8", "192.168.1", "eth0").is_err());
    assert!(add_route_v6("fd00::/8", "fe80:::1", "eth0").is_err());
    assert!(delete_route("10.0.0.0").is_err());
    assert!(delete_route_v6("10.0.0.0/8").is_err());
}

#[test]
fn forwarding_is_on_only_if_the_file_says_so() {
    assert!(is_ip_forwarding_enabled(&Some("1\n".to_string())));
    assert!(!is_ip_forwarding_enabled(&Some("0\n".to_string())));
    assert!(!is_ip_forwarding_enabled(&None));
    assert!(is_ipv6_forwarding_enabled(&Some(" 1 ".to_string())));
    assert!(!is_ipv6_forwarding_enabled(&Some("11".to_string())));
}

#[test]
fn addresses_are_read_as_the_standard_library_reads_them() {
    for text in [
        "::", "::1", "1::", "fd99::1", "2001:db8::ff00:42:8329", "1:2:3:4:5:6:7:8",
        "1:2:3:4:5:6:7::", "::2:3:4:5:6:7:8", "1::3:4:5:6:7:8", "::ffff:1.2.3.4",
        "1:2:3:4:5:6:1.2.3.4", "", ":", ":::", "1:2:3", "1:2:3:4:5:6:7:8:9", "1::2::3",
        "12345::", "g::", "1:2:3:4:5:6:7:8::", "::1:2:3:4:5:6:7:8", "1.2.3.4::", "::1.2.3.04",
        "::1.2.3.256", "1:2:3:4:5:6:7:1.2.3.4", "::1.2.3.4:5", "fe80::1%1", "[::1]", "1:", ":1",
    ] {
        let expected = text.parse::<core::net::Ipv6Addr>().is_ok();
        assert_eq!(validate_ipv6_address(text).is_ok(), expected, "{}", text);
        let chars: Vec<char> = text.chars().collect();
        let value = hpn::parse::parse_v6(&chars);
        assert_eq!(value, text.parse::<core::net::Ipv6Addr>().ok().map(u128::from), "{}", text);
        if let Some(v) = value {
            assert_eq!(hpn::net::IpAddr::V6(v).to_text(), core::net::Ipv6Addr::from(v).to_string());
        }
    }
    for text in ["1.2.3.4", "0.0.0.0", "255.255.255.255", "256.1.1.1", "1.2.3", "01.2.3.4", "1.2.3.4.5", "a.b.c.d", "+1.2.3.4", ""] {
        let expected = text.parse::<core::net::Ipv4Addr>();
        assert_eq!(validate_ipv4_address(text).is_ok(), expected.is_ok(), "{}", text);
    }
}

#[test]
fn networks_and_names_are_checked() {
    assert!(validate_ipv4_cidr("10.0.0.0/32").is_ok());
    assert!(validate_ipv4_cidr("10.0.0.0/33").is_err());
    assert!(validate_ipv4_cidr("10.0.0.0/24/1").is_err());
    assert!(validate_ipv6_cidr("fd99::/128").is_ok());
    assert!(validate_ipv6_cidr("fd99::/129").is_err());
    assert!(validate_interface_name("hpn0").is_ok());
    assert!(validate_interface_name("eth0.100").is_ok());
    assert!(validate_interface_name("averyverylongname").is_err());
    let err = validate_interface_name("a b").unwrap_err();
    assert_eq!(err.message(), "configuration error: invalid interface name: a b");
}

#[test]
fn commands_that_clean_up_may_fail() {
    let failed = CommandOutcome::Failed("no rule".to_string());
    assert_eq!(command_done(true, &failed), Err("no rule".to_string()));
    assert_eq!(command_done(true, &no_iptables()), Err("not found".to_string()));
    assert_eq!(command_done(true, &CommandOutcome::Succeeded), Ok(()));
    assert_eq!(command_done(false, &failed), Ok(()));
    assert_eq!(command_done(false, &no_iptables()), Ok(()));
}
