//! Routes and IP forwarding.

use crate::parse::{v4_of, v6_of};
use crate::server::error::{ServerError, ServerResult};
use crate::server::nat_rules::arg;
use crate::server::validation::{
    is_interface_name, is_v4_cidr, is_v6_cidr, validate_interface_name, validate_ipv4_address,
    validate_ipv4_cidr, validate_ipv6_address, validate_ipv6_cidr,
};
use crate::text::{same_text, texts, trim, trimmed};
use vstd::prelude::*;

verus! {

/// Where the system keeps whether it forwards IPv4 packets.
pub const IPV4_FORWARD_PATH: &'static str = "/proc/sys/net/ipv4/ip_forward";

/// Where the system keeps whether it forwards IPv6 packets.
pub const IPV6_FORWARD_PATH: &'static str = "/proc/sys/net/ipv6/conf/all/forwarding";

/// Whether the content of a forwarding file, if it could be read, says that forwarding is on.
pub open spec fn says_on(content: Option<Seq<char>>) -> bool {
    content matches Some(c) && trim(c) == "1"@
}

fn read_switch(content: &Option<String>) -> (b: bool)
    ensures
        b == says_on(
            match *content {
                Some(c) => Some(c@),
                None => None,
            },
        ),
{
    match content {
        Some(c) => {
            let t = trimmed(c.as_str());
            same_text(t.as_str(), "1")
        },
        None => false,
    }
}

/// Check if IP forwarding is enabled, from the content of [`IPV4_FORWARD_PATH`] if it could be
/// read.
pub fn is_ip_forwarding_enabled(content: &Option<String>) -> (b: bool)
    ensures
        b == says_on(
            match *content {
                Some(c) => Some(c@),
                None => None,
            },
        ),
{
    read_switch(content)
}

/// What turns forwarding on.
pub const FORWARD_ON: &'static str = "1";

/// What turns forwarding off.
pub const FORWARD_OFF: &'static str = "0";

/// Whether turning forwarding on or off went as the writing did.
pub open spec fn switched(r: ServerResult<()>, written: Result<(), String>, what: Seq<char>) -> bool {
    match (written, r) {
        (Ok(_), Ok(_)) => true,
        (Err(e), Err(ServerError::Config(m))) => m@ == what + e@,
        _ => false,
    }
}

fn switch(written: &Result<(), String>, what: &str) -> (r: ServerResult<()>)
    ensures
        switched(r, *written, what@),
{
    match written {
        Ok(_) => Ok(()),
        Err(e) => {
            let mut m = String::from_str(what);
            m.append(e.as_str());
            Err(ServerError::Config(m))
        },
    }
}

/// Enable IPv4 forwarding: takes in how writing `1` to [`IPV4_FORWARD_PATH`] went.
pub fn enable_ip_forwarding(written: &Result<(), String>) -> (r: ServerResult<()>)
    ensures
        switched(r, *written, "failed to enable IPv4 forwarding: "@),
{
    switch(written, "failed to enable IPv4 forwarding: ")
}

/// Disable IPv4 forwarding: takes in how writing `0` to [`IPV4_FORWARD_PATH`] went.
pub fn disable_ip_forwarding(written: &Result<(), String>) -> (r: ServerResult<()>)
    ensures
        switched(r, *written, "failed to disable IPv4 forwarding: "@),
{
    switch(written, "failed to disable IPv4 forwarding: ")
}

/// Enable IPv6 forwarding: takes in how writing `1` to [`IPV6_FORWARD_PATH`] went.
pub fn enable_ipv6_forwarding(written: &Result<(), String>) -> (r: ServerResult<()>)
    ensures
        switched(r, *written, "failed to enable IPv6 forwarding: "@),
{
    switch(written, "failed to enable IPv6 forwarding: ")
}

/// Disable IPv6 forwarding: takes in how writing `0` to [`IPV6_FORWARD_PATH`] went.
pub fn disable_ipv6_forwarding(written: &Result<(), String>) -> (r: ServerResult<()>)
    ensures
        switched(r, *written, "failed to disable IPv6 forwarding: "@),
{
    switch(written, "failed to disable IPv6 forwarding: ")
}

/// Check if IPv6 forwarding is enabled, from the content of [`IPV6_FORWARD_PATH`] if it could be
/// read.
pub fn is_ipv6_forwarding_enabled(content: &Option<String>) -> (b: bool)
    ensures
        b == says_on(
            match *content {
                Some(c) => Some(c@),
                None => None,
            },
        ),
{
    read_switch(content)
}

/// Whether a result is the arguments, or the complaint.
pub open spec fn args_result(
    r: ServerResult<Vec<String>>,
    complaint: Option<Seq<char>>,
    args: Seq<Seq<char>>,
) -> bool {
    match r {
        Ok(v) => complaint is None && texts(v@) == args,
        Err(ServerError::Config(m)) => complaint == Some(m@),
        Err(_) => false,
    }
}

/// Why an IPv4 route is refused, if it is.
pub open spec fn route_complaint(network: Seq<char>, gateway: Seq<char>, device: Seq<char>) -> Option<
    Seq<char>,
> {
    if !is_v4_cidr(network) {
        Some("invalid IPv4 network: "@ + network)
    } else if v4_of(gateway) is None {
        Some("invalid IPv4 address: "@ + gateway)
    } else if !is_interface_name(device) {
        Some("invalid interface name: "@ + device)
    } else {
        None
    }
}

/// Why an IPv6 route is refused, if it is.
pub open spec fn route_complaint_v6(
    network: Seq<char>,
    gateway: Seq<char>,
    device: Seq<char>,
) -> Option<Seq<char>> {
    if !is_v6_cidr(network) {
        Some("invalid IPv6 network: "@ + network)
    } else if v6_of(gateway) is None {
        Some("invalid IPv6 address: "@ + gateway)
    } else if !is_interface_name(device) {
        Some("invalid interface name: "@ + device)
    } else {
        None
    }
}

/// The `ip` arguments that add a route to the routing table.
pub fn add_route(network: &str, gateway: &str, device: &str) -> (r: ServerResult<Vec<String>>)
    ensures
        args_result(
            r,
            route_complaint(network@, gateway@, device@),
            seq!["route"@, "add"@, network@, "via"@, gateway@, "dev"@, device@],
        ),
{
    match validate_ipv4_cidr(network) {
        Ok(_) => {},
        Err(e) => {
            return Err(e);
        },
    }
    match validate_ipv4_address(gateway) {
        Ok(_) => {},
        Err(e) => {
            return Err(e);
        },
    }
    match validate_interface_name(device) {
        Ok(_) => {},
        Err(e) => {
            return Err(e);
        },
    }
    let mut v: Vec<String> = Vec::new();
    proof {
        assert(texts(v@) =~= Seq::empty());
    }
    arg(&mut v, "route");
    arg(&mut v, "add");
    arg(&mut v, network);
    arg(&mut v, "via");
    arg(&mut v, gateway);
    arg(&mut v, "dev");
    arg(&mut v, device);
    proof {
        assert(texts(v@) =~= seq![
            "route"@,
            "add"@,
            network@,
            "via"@,
            gateway@,
            "dev"@,
            device@,
        ]);
    }
    Ok(v)
}

/// The `ip` arguments that delete a route from the routing table.
pub fn delete_route(network: &str) -> (r: ServerResult<Vec<String>>)
    ensures
        args_result(
            r,
            if is_v4_cidr(network@) {
                None
            } else {
                Some("invalid IPv4 network: "@ + network@)
            },
            seq!["route"@, "del"@, network@],
        ),
{
    match validate_ipv4_cidr(network) {
        Ok(_) => {},
        Err(e) => {
            return Err(e);
        },
    }
    let mut v: Vec<String> = Vec::new();
    proof {
        assert(texts(v@) =~= Seq::empty());
    }
    arg(&mut v, "route");
    arg(&mut v, "del");
    arg(&mut v, network);
    proof {
        assert(texts(v@) =~= seq!["route"@, "del"@, network@]);
    }
    Ok(v)
}

/// The `ip` arguments that add an IPv6 route to the routing table.
pub fn add_route_v6(network: &str, gateway: &str, device: &str) -> (r: ServerResult<Vec<String>>)
    ensures
        args_result(
            r,
            route_complaint_v6(network@, gateway@, device@),
            seq!["-6"@, "route"@, "add"@, network@, "via"@, gateway@, "dev"@, device@],
        ),
{
    match validate_ipv6_cidr(network) {
        Ok(_) => {},
        Err(e) => {
            return Err(e);
        },
    }
    match validate_ipv6_address(gateway) {
        Ok(_) => {},
        Err(e) => {
            return Err(e);
        },
    }
    match validate_interface_name(device) {
        Ok(_) => {},
        Err(e) => {
            return Err(e);
        },
    }
    let mut v: Vec<String> = Vec::new();
    proof {
        assert(texts(v@) =~= Seq::empty());
    }
    arg(&mut v, "-6");
    arg(&mut v, "route");
    arg(&mut v, "add");
    arg(&mut v, network);
    arg(&mut v, "via");
    arg(&mut v, gateway);
    arg(&mut v, "dev");
    arg(&mut v, device);
    proof {
        assert(texts(v@) =~= seq![
            "-6"@,
            "route"@,
            "add"@,
            network@,
            "via"@,
            gateway@,
            "dev"@,
            device@,
        ]);
    }
    Ok(v)
}

/// The `ip` arguments that delete an IPv6 route from the routing table.
pub fn delete_route_v6(network: &str) -> (r: ServerResult<Vec<String>>)
    ensures
        args_result(
            r,
            if is_v6_cidr(network@) {
                None
            } else {
                Some("invalid IPv6 network: "@ + network@)
            },
            seq!["-6"@, "route"@, "del"@, network@],
        ),
{
    match validate_ipv6_cidr(network) {
        Ok(_) => {},
        Err(e) => {
            return Err(e);
        },
    }
    let mut v: Vec<String> = Vec::new();
    proof {
        assert(texts(v@) =~= Seq::empty());
    }
    arg(&mut v, "-6");
    arg(&mut v, "route");
    arg(&mut v, "del");
    arg(&mut v, network);
    proof {
        assert(texts(v@) =~= seq!["-6"@, "route"@, "del"@, network@]);
    }
    Ok(v)
}

/// Forwarding is on exactly when the file could be read and holds a one, whatever white space is
/// around it.
pub proof fn law_only_a_one_means_on(content: Seq<char>)
    ensures
        says_on(Some(content)) <==> trim(content) == "1"@,
        !says_on(None),
{
}

/// A route is refused exactly when its network, its gateway or its device is not what it should be.
pub proof fn law_sound_routes_are_accepted(network: Seq<char>, gateway: Seq<char>, device: Seq<char>)
    ensures
        route_complaint(network, gateway, device) is None <==> is_v4_cidr(network) && v4_of(gateway)
            is Some && is_interface_name(device),
        route_complaint_v6(network, gateway, device) is None <==> is_v6_cidr(network) && v6_of(
            gateway,
        ) is Some && is_interface_name(device),
{
}

} // verus!
