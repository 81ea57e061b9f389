//! NAT rules for VPN traffic.
//!
//! The rules are set with `iptables` and `ip6tables`. The manager says which command to run and
//! takes in how it went.

use crate::server::error::{ServerError, ServerResult};
use crate::server::validation::{
    is_interface_name, is_v4_cidr, is_v6_cidr, validate_interface_name,
    validate_ipv4_cidr, validate_ipv6_cidr,
};
use crate::text::texts;
use vstd::prelude::*;

verus! {

/// How running a command went.
pub enum CommandOutcome {
    /// It could not be run, for this reason.
    NotRun(String),
    /// It ran and failed with this on its error output.
    Failed(String),
    /// It ran and succeeded.
    Succeeded,
}

/// What follows from how a command went: where the command was `needed`, what went wrong with it;
/// a command that only cleans up may fail.
pub fn command_done(needed: bool, outcome: &CommandOutcome) -> (r: Result<(), String>)
    ensures
        match (r, *outcome) {
            (Ok(_), CommandOutcome::Succeeded) => true,
            (Ok(_), _) => !needed,
            (Err(m), CommandOutcome::NotRun(e)) => needed && m@ == e@,
            (Err(m), CommandOutcome::Failed(e)) => needed && m@ == e@,
            (Err(_), CommandOutcome::Succeeded) => false,
        },
{
    if !needed {
        return Ok(());
    }
    match outcome {
        CommandOutcome::NotRun(e) => Err(String::from_str(e.as_str())),
        CommandOutcome::Failed(e) => Err(String::from_str(e.as_str())),
        CommandOutcome::Succeeded => Ok(()),
    }
}

/// Appends an argument.
pub fn arg(v: &mut Vec<String>, s: &str)
    ensures
        texts(final(v)@) == texts(old(v)@).push(s@),
{
    v.push(String::from_str(s));
    proof {
        assert(texts(v@) =~= texts(old(v)@).push(s@));
    }
}

/// The arguments that append (`-A`) or delete (`-D`) the masquerade rule for `network`.
pub open spec fn masquerade(
    operation: Seq<char>,
    network: Seq<char>,
    interface: Option<Seq<char>>,
) -> Seq<Seq<char>> {
    let head = seq!["-t"@, "nat"@, operation, "POSTROUTING"@, "-s"@, network];
    match interface {
        Some(i) => head.push("-o"@).push(i).push("-j"@).push("MASQUERADE"@),
        None => head.push("-j"@).push("MASQUERADE"@),
    }
}

/// The arguments of the rules that let traffic of `network` through `device`: out of the
/// network, and into it as far as it belongs to connections that exist.
pub open spec fn forward_rules(
    operation: Seq<char>,
    network: Seq<char>,
    device: Seq<char>,
) -> (Seq<Seq<char>>, Seq<Seq<char>>) {
    (
        seq![operation, "FORWARD"@, "-s"@, network, "-i"@, device, "-j"@, "ACCEPT"@],
        seq![
            operation,
            "FORWARD"@,
            "-d"@,
            network,
            "-o"@,
            device,
            "-m"@,
            "state"@,
            "--state"@,
            "RELATED,ESTABLISHED"@,
            "-j"@,
            "ACCEPT"@,
        ],
    )
}

/// The text of an option.
pub open spec fn opt_text(o: Option<String>) -> Option<Seq<char>> {
    match o {
        Some(s) => Some(s@),
        None => None,
    }
}

fn masquerade_args(operation: &str, network: &str, interface: &Option<String>) -> (v: Vec<String>)
    ensures
        texts(v@) == masquerade(operation@, network@, opt_text(*interface)),
{
    let mut v: Vec<String> = Vec::new();
    proof {
        assert(texts(v@) =~= Seq::empty());
    }
    arg(&mut v, "-t");
    arg(&mut v, "nat");
    arg(&mut v, operation);
    arg(&mut v, "POSTROUTING");
    arg(&mut v, "-s");
    arg(&mut v, network);
    if let Some(i) = interface {
        arg(&mut v, "-o");
        arg(&mut v, i.as_str());
    }
    arg(&mut v, "-j");
    arg(&mut v, "MASQUERADE");
    proof {
        assert(texts(v@) =~= masquerade(operation@, network@, opt_text(*interface)));
    }
    v
}

fn forward_args(operation: &str, network: &str, device: &str) -> (r: (Vec<String>, Vec<String>))
    ensures
        (texts(r.0@), texts(r.1@)) == forward_rules(operation@, network@, device@),
{
    let mut out: Vec<String> = Vec::new();
    proof {
        assert(texts(out@) =~= Seq::empty());
    }
    arg(&mut out, operation);
    arg(&mut out, "FORWARD");
    arg(&mut out, "-s");
    arg(&mut out, network);
    arg(&mut out, "-i");
    arg(&mut out, device);
    arg(&mut out, "-j");
    arg(&mut out, "ACCEPT");
    let mut back: Vec<String> = Vec::new();
    proof {
        assert(texts(back@) =~= Seq::empty());
    }
    arg(&mut back, operation);
    arg(&mut back, "FORWARD");
    arg(&mut back, "-d");
    arg(&mut back, network);
    arg(&mut back, "-o");
    arg(&mut back, device);
    arg(&mut back, "-m");
    arg(&mut back, "state");
    arg(&mut back, "--state");
    arg(&mut back, "RELATED,ESTABLISHED");
    arg(&mut back, "-j");
    arg(&mut back, "ACCEPT");
    proof {
        let want = forward_rules(operation@, network@, device@);
        assert(texts(out@) =~= want.0);
        assert(texts(back@) =~= want.1);
    }
    (out, back)
}

/// Why a network and a device are refused, if they are.
pub open spec fn forward_complaint(network: Seq<char>, device: Seq<char>) -> Option<Seq<char>> {
    if !is_v4_cidr(network) {
        Some("invalid IPv4 network: "@ + network)
    } else if !is_interface_name(device) {
        Some("invalid interface name: "@ + device)
    } else {
        None
    }
}

/// Whether a result is the pair of rules, or the complaint.
pub open spec fn forward_result(
    r: ServerResult<(Vec<String>, Vec<String>)>,
    operation: Seq<char>,
    network: Seq<char>,
    device: Seq<char>,
) -> bool {
    match r {
        Ok(v) => forward_complaint(network, device) is None && (texts(v.0@), texts(v.1@))
            == forward_rules(operation, network, device),
        Err(ServerError::Config(m)) => forward_complaint(network, device) == Some(m@),
        Err(_) => false,
    }
}

fn forward_commands(operation: &str, network: &str, device: &str) -> (r: ServerResult<
    (Vec<String>, Vec<String>),
>)
    ensures
        forward_result(r, operation@, network@, device@),
{
    match validate_ipv4_cidr(network) {
        Ok(_) => {},
        Err(e) => {
            return Err(e);
        },
    }
    match validate_interface_name(device) {
        Ok(_) => {},
        Err(e) => {
            return Err(e);
        },
    }
    Ok(forward_args(operation, network, device))
}

/// The `iptables` arguments that allow forwarding for a network.
pub fn allow_forward(network: &str, device: &str) -> (r: ServerResult<(Vec<String>, Vec<String>)>)
    ensures
        forward_result(r, "-A"@, network@, device@),
{
    forward_commands("-A", network, device)
}

/// The `iptables` arguments that remove the forwarding rules of a network.
pub fn disallow_forward(network: &str, device: &str) -> (r: ServerResult<
    (Vec<String>, Vec<String>),
>)
    ensures
        forward_result(r, "-D"@, network@, device@),
{
    forward_commands("-D", network, device)
}

/// NAT manager for setting up masquerade rules.
pub struct NatManager {
    source_network: String,
    out_interface: Option<String>,
    active: bool,
    ipv6_network: Option<String>,
    ipv6_active: bool,
}

/// What a manager holds, as plain values.
#[verifier::ext_equal]
pub struct NatState {
    pub source_network: Seq<char>,
    pub out_interface: Option<Seq<char>>,
    pub active: bool,
    pub ipv6_network: Option<Seq<char>>,
    pub ipv6_active: bool,
}

impl NatState {
    /// After the command that enables NAT went like this.
    pub open spec fn enabled(self, succeeded: bool) -> NatState {
        NatState { active: self.active || succeeded, ..self }
    }

    /// After the command that disables NAT was run, or could not be.
    pub open spec fn disabled(self, ran: bool) -> NatState {
        NatState { active: self.active && !ran, ..self }
    }

    /// After the command that enables IPv6 NAT went like this.
    pub open spec fn ipv6_enabled(self, succeeded: bool) -> NatState {
        NatState { ipv6_active: self.ipv6_active || succeeded, ..self }
    }

    /// After the command that disables IPv6 NAT was run, or could not be.
    pub open spec fn ipv6_disabled(self, ran: bool) -> NatState {
        NatState { ipv6_active: self.ipv6_active && !ran, ..self }
    }
}

/// Whether a step result is success or the message.
pub open spec fn nat_step(r: ServerResult<()>, failure: Option<Seq<char>>) -> bool {
    match r {
        Ok(_) => failure is None,
        Err(ServerError::Nat(m)) => failure == Some(m@),
        Err(_) => false,
    }
}

fn nat_error(prefix: &str, text: &str) -> (e: ServerError)
    ensures
        e matches ServerError::Nat(m) && m@ == prefix@ + text@,
{
    let mut m = String::from_str(prefix);
    m.append(text);
    ServerError::Nat(m)
}

impl NatManager {
    /// What the manager holds.
    pub closed spec fn state(self) -> NatState {
        NatState {
            source_network: self.source_network@,
            out_interface: opt_text(self.out_interface),
            active: self.active,
            ipv6_network: opt_text(self.ipv6_network),
            ipv6_active: self.ipv6_active,
        }
    }

    /// Everything that goes into a command is valid, and an active IPv6 rule has its network.
    pub open spec fn wf(self) -> bool {
        &&& is_v4_cidr(self.state().source_network)
        &&& self.state().out_interface matches Some(i) ==> is_interface_name(i)
        &&& self.state().ipv6_network matches Some(n) ==> is_v6_cidr(n)
        &&& self.state().ipv6_active ==> self.state().ipv6_network is Some
    }

    /// Create a new NAT manager with no rules active.
    ///
    /// # Errors
    ///
    /// Returns an error if `source_network` is not a valid IPv4 CIDR or
    /// `out_interface` contains invalid characters.
    pub fn new(source_network: &str, out_interface: Option<String>) -> (r: ServerResult<NatManager>)
        ensures
            match r {
                Ok(m) => is_v4_cidr(source_network@) && (opt_text(out_interface) matches Some(i)
                    ==> is_interface_name(i)) && m.wf() && m.state() == (NatState {
                    source_network: source_network@,
                    out_interface: opt_text(out_interface),
                    active: false,
                    ipv6_network: None,
                    ipv6_active: false,
                }),
                Err(ServerError::Config(m)) => if is_v4_cidr(source_network@) {
                    &&& opt_text(out_interface) matches Some(i)
                    &&& !is_interface_name(i)
                    &&& m@ == "invalid interface name: "@ + i
                } else {
                    m@ == "invalid IPv4 network: "@ + source_network@
                },
                Err(_) => false,
            },
    {
        match validate_ipv4_cidr(source_network) {
            Ok(_) => {},
            Err(e) => {
                return Err(e);
            },
        }
        if let Some(i) = &out_interface {
            match validate_interface_name(i.as_str()) {
                Ok(_) => {},
                Err(e) => {
                    return Err(e);
                },
            }
        }
        let source_network = String::from_str(source_network);
        Ok(
            NatManager {
                source_network,
                out_interface,
                active: false,
                ipv6_network: None,
                ipv6_active: false,
            },
        )
    }

    /// The `iptables` arguments that enable NAT; `None` if it is enabled already.
    pub fn enable(&self) -> (r: Option<Vec<String>>)
        ensures
            match r {
                Some(v) => !self.state().active && texts(v@) == masquerade(
                    "-A"@,
                    self.state().source_network,
                    self.state().out_interface,
                ),
                None => self.state().active,
            },
    {
        if self.active {
            return None;
        }
        Some(masquerade_args("-A", self.source_network.as_str(), &self.out_interface))
    }

    /// Takes in how the command went. NAT is active only if it succeeded.
    pub fn enable_done(&mut self, outcome: &CommandOutcome) -> (r: ServerResult<()>)
        ensures
            nat_step(
                r,
                match *outcome {
                    CommandOutcome::NotRun(e) => Some("failed to run iptables: "@ + e@),
                    CommandOutcome::Failed(e) => Some("iptables failed: "@ + e@),
                    CommandOutcome::Succeeded => None,
                },
            ),
            final(self).state() == old(self).state().enabled(outcome is Succeeded),
            old(self).wf() ==> final(self).wf(),
    {
        match outcome {
            CommandOutcome::NotRun(e) => Err(nat_error("failed to run iptables: ", e.as_str())),
            CommandOutcome::Failed(e) => Err(nat_error("iptables failed: ", e.as_str())),
            CommandOutcome::Succeeded => {
                self.active = true;
                Ok(())
            },
        }
    }

    /// The `iptables` arguments that disable NAT; `None` if it is not enabled.
    pub fn disable(&self) -> (r: Option<Vec<String>>)
        ensures
            match r {
                Some(v) => self.state().active && texts(v@) == masquerade(
                    "-D"@,
                    self.state().source_network,
                    self.state().out_interface,
                ),
                None => !self.state().active,
            },
    {
        if !self.active {
            return None;
        }
        Some(masquerade_args("-D", self.source_network.as_str(), &self.out_interface))
    }

    /// Takes in how the command went. Once it ran, NAT counts as disabled, whatever it said.
    pub fn disable_done(&mut self, outcome: &CommandOutcome) -> (r: ServerResult<()>)
        ensures
            nat_step(
                r,
                match *outcome {
                    CommandOutcome::NotRun(e) => Some("failed to run iptables: "@ + e@),
                    _ => None,
                },
            ),
            final(self).state() == old(self).state().disabled(!(outcome is NotRun)),
            old(self).wf() ==> final(self).wf(),
    {
        match outcome {
            CommandOutcome::NotRun(e) => Err(nat_error("failed to run iptables: ", e.as_str())),
            _ => {
                self.active = false;
                Ok(())
            },
        }
    }

    /// Check if NAT rules are active.
    pub fn is_active(&self) -> (b: bool)
        ensures
            b == self.state().active,
    {
        self.active
    }

    /// The `ip6tables` arguments that enable IPv6 NAT for a network; `None` if it is enabled
    /// already.
    pub fn enable_ipv6(&mut self, ipv6_network: &str) -> (r: ServerResult<Option<Vec<String>>>)
        ensures
            match r {
                Ok(None) => old(self).state().ipv6_active && final(self).state() == old(
                    self,
                ).state(),
                Ok(Some(v)) => !old(self).state().ipv6_active && is_v6_cidr(ipv6_network@)
                    && texts(v@) == masquerade(
                    "-A"@,
                    ipv6_network@,
                    old(self).state().out_interface,
                ) && final(self).state() == (NatState {
                    ipv6_network: Some(ipv6_network@),
                    ..old(self).state()
                }),
                Err(ServerError::Config(m)) => !old(self).state().ipv6_active && !is_v6_cidr(
                    ipv6_network@,
                ) && m@ == "invalid IPv6 network: "@ + ipv6_network@ && final(self).state() == old(
                    self,
                ).state(),
                Err(_) => false,
            },
            old(self).wf() ==> final(self).wf(),
    {
        if self.ipv6_active {
            return Ok(None);
        }
        match validate_ipv6_cidr(ipv6_network) {
            Ok(_) => {},
            Err(e) => {
                return Err(e);
            },
        }
        self.ipv6_network = Some(String::from_str(ipv6_network));
        Ok(Some(masquerade_args("-A", ipv6_network, &self.out_interface)))
    }

    /// Takes in how the command went. IPv6 NAT is active only if it succeeded.
    pub fn enable_ipv6_done(&mut self, outcome: &CommandOutcome) -> (r: ServerResult<()>)
        requires
            old(self).state().ipv6_network is Some,
        ensures
            nat_step(
                r,
                match *outcome {
                    CommandOutcome::NotRun(e) => Some("failed to run ip6tables: "@ + e@),
                    CommandOutcome::Failed(e) => Some("ip6tables failed: "@ + e@),
                    CommandOutcome::Succeeded => None,
                },
            ),
            final(self).state() == old(self).state().ipv6_enabled(outcome is Succeeded),
            old(self).wf() ==> final(self).wf(),
    {
        match outcome {
            CommandOutcome::NotRun(e) => Err(nat_error("failed to run ip6tables: ", e.as_str())),
            CommandOutcome::Failed(e) => Err(nat_error("ip6tables failed: ", e.as_str())),
            CommandOutcome::Succeeded => {
                self.ipv6_active = true;
                Ok(())
            },
        }
    }

    /// The `ip6tables` arguments that disable IPv6 NAT; `None` if it is not enabled.
    pub fn disable_ipv6(&self) -> (r: Option<Vec<String>>)
        ensures
            match r {
                Some(v) => self.state().ipv6_active && self.state().ipv6_network is Some && texts(
                    v@,
                ) == masquerade(
                    "-D"@,
                    self.state().ipv6_network->0,
                    self.state().out_interface,
                ),
                None => !self.state().ipv6_active || self.state().ipv6_network is None,
            },
    {
        if !self.ipv6_active {
            return None;
        }
        match &self.ipv6_network {
            Some(n) => Some(masquerade_args("-D", n.as_str(), &self.out_interface)),
            None => None,
        }
    }

    /// Takes in how the command went. Once it ran, IPv6 NAT counts as disabled.
    pub fn disable_ipv6_done(&mut self, outcome: &CommandOutcome) -> (r: ServerResult<()>)
        ensures
            nat_step(
                r,
                match *outcome {
                    CommandOutcome::NotRun(e) => Some("failed to run ip6tables: "@ + e@),
                    _ => None,
                },
            ),
            final(self).state() == old(self).state().ipv6_disabled(!(outcome is NotRun)),
            old(self).wf() ==> final(self).wf(),
    {
        match outcome {
            CommandOutcome::NotRun(e) => Err(nat_error("failed to run ip6tables: ", e.as_str())),
            _ => {
                self.ipv6_active = false;
                Ok(())
            },
        }
    }

    /// Check if IPv6 NAT rules are active.
    pub fn is_ipv6_active(&self) -> (b: bool)
        ensures
            b == self.state().ipv6_active,
    {
        self.ipv6_active
    }
}

/// The rule that is deleted is the rule that was appended: the arguments differ only in the
/// operation.
pub proof fn law_disable_deletes_what_enable_added(
    network: Seq<char>,
    interface: Option<Seq<char>>,
)
    ensures
        masquerade("-D"@, network, interface) == masquerade("-A"@, network, interface).update(
            2,
            "-D"@,
        ),
{
    assert(masquerade("-D"@, network, interface) =~= masquerade("-A"@, network, interface).update(
        2,
        "-D"@,
    ));
}

/// The rule rewrites what leaves the network, through the given interface where one is given and
/// through any otherwise.
pub proof fn law_the_rule_is_for_its_network(
    operation: Seq<char>,
    network: Seq<char>,
    interface: Option<Seq<char>>,
)
    ensures
        ({
            let r = masquerade(operation, network, interface);
            &&& r[0] == "-t"@ && r[1] == "nat"@ && r[2] == operation && r[3] == "POSTROUTING"@
            &&& r[4] == "-s"@ && r[5] == network
            &&& r[r.len() - 2] == "-j"@ && r[r.len() - 1] == "MASQUERADE"@
            &&& interface matches Some(i) ==> r.len() == 10 && r[6] == "-o"@ && r[7] == i
            &&& interface is None ==> r.len() == 8
        }),
{
}

/// Everything may leave the network through the device, but into it comes only what belongs to a
/// connection that exists; deleting names the same rules as appending.
pub proof fn law_only_replies_come_in(network: Seq<char>, device: Seq<char>)
    ensures
        ({
            let r = forward_rules("-A"@, network, device);
            let d = forward_rules("-D"@, network, device);
            &&& r.0[1] == "FORWARD"@ && r.0[2] == "-s"@ && r.0[3] == network
            &&& r.0[4] == "-i"@ && r.0[5] == device && r.0[7] == "ACCEPT"@
            &&& r.1[1] == "FORWARD"@ && r.1[2] == "-d"@ && r.1[3] == network
            &&& r.1[4] == "-o"@ && r.1[5] == device
            &&& r.1[8] == "--state"@ && r.1[9] == "RELATED,ESTABLISHED"@ && r.1[11] == "ACCEPT"@
            &&& d.0 == r.0.update(0, "-D"@)
            &&& d.1 == r.1.update(0, "-D"@)
        }),
{
    let r = forward_rules("-A"@, network, device);
    let d = forward_rules("-D"@, network, device);
    assert(d.0 =~= r.0.update(0, "-D"@));
    assert(d.1 =~= r.1.update(0, "-D"@));
}

/// NAT is active from the command that succeeded until one that takes the rule away was run; a
/// command that fails to enable it leaves it off, and one that could not be run leaves it on. The
/// two families do not touch each other, and neither touches what the rules are for.
pub proof fn law_nat_is_active_while_its_rule_stands(s: NatState, good: bool)
    ensures
        !s.active ==> s.enabled(good).active == good,
        s.active ==> s.disabled(good).active == !good,
        !s.ipv6_active ==> s.ipv6_enabled(good).ipv6_active == good,
        s.ipv6_active ==> s.ipv6_disabled(good).ipv6_active == !good,
        !s.enabled(true).disabled(true).active,
        !s.ipv6_enabled(true).ipv6_disabled(true).ipv6_active,
        s.enabled(good) == (NatState { active: s.enabled(good).active, ..s }),
        s.disabled(good) == (NatState { active: s.disabled(good).active, ..s }),
        s.ipv6_enabled(good) == (NatState { ipv6_active: s.ipv6_enabled(good).ipv6_active, ..s }),
        s.ipv6_disabled(good) == (NatState { ipv6_active: s.ipv6_disabled(good).ipv6_active, ..s }),
{
}

/// Forwarding is set up exactly for networks and devices that are what they should be.
pub proof fn law_sound_forwards_are_accepted(network: Seq<char>, device: Seq<char>)
    ensures
        forward_complaint(network, device) is None <==> is_v4_cidr(network) && is_interface_name(
            device,
        ),
{
}

} // verus!
