//! Access policy: an allow-list of networks and ports, and its evaluation
//! for a destination.

use crate::text::{decimal_text, push_decimal};
use vstd::arithmetic::power2::pow2;
use vstd::prelude::*;
use vstd::string::StringExecFns;

verus! {

#[verifier::external_type_specification]
#[verifier::external_body]
pub struct ExAddrParseError(ipnet::AddrParseError);

/// An IP address, held as the number that its bytes spell in network order.
#[derive(Debug, Clone, Copy, PartialEq, Eq, Structural)]
pub enum IpAddress {
    V4(u32),
    V6(u128),
}

/// A network in CIDR form: an address and the number of its leading bits
/// that every member shares.
#[derive(Debug, Clone, Copy, PartialEq, Eq, Structural)]
pub struct IpNetwork {
    pub addr: IpAddress,
    pub prefix_len: u8,
}

#[derive(Debug, Clone, PartialEq, Eq)]
pub struct PolicyConfig {
    pub allow: Vec<PolicyRuleConfig>,
}

#[derive(Debug, Clone, PartialEq, Eq)]
pub struct PolicyRuleConfig {
    pub cidr: String,
    pub ports: Vec<u16>,
}

/// One allow rule. Its port list is never empty.
#[derive(Debug, PartialEq, Eq)]
pub struct PolicyRule {
    cidr: IpNetwork,
    ports: Vec<u16>,
}

#[derive(Debug, Clone, PartialEq, Eq)]
pub struct Policy {
    pub allow: Vec<PolicyRule>,
}

/// A destination: an address and a port.
#[derive(Debug, Clone, Copy, PartialEq, Eq, Structural)]
pub struct Target {
    pub ip: IpAddress,
    pub port: u16,
}

#[derive(Debug, Clone, PartialEq, Eq)]
pub enum Decision {
    Allow,
    Deny { reason: String },
}

/// What the text of a network in CIDR notation stands for: the address and
/// the prefix length, or nothing where the text is no such notation.
pub uninterp spec fn parsed_cidr(text: Seq<char>) -> Option<(IpAddress, u8)>;

/// The text of an IPv6 address.
pub uninterp spec fn ipv6_text(addr: u128) -> Seq<char>;

/// The text of an IPv4 address: its four bytes in decimal, joined by dots.
pub open spec fn ipv4_text(addr: u32) -> Seq<char> {
    decimal_text(addr as nat / 0x100_0000) + seq!['.'] + decimal_text(addr as nat / 0x1_0000 % 256)
        + seq!['.'] + decimal_text(addr as nat / 0x100 % 256) + seq!['.'] + decimal_text(
        addr as nat % 256,
    )
}

impl IpAddress {
    /// The address as text.
    pub open spec fn text(self) -> Seq<char> {
        match self {
            IpAddress::V4(addr) => ipv4_text(addr),
            IpAddress::V6(addr) => ipv6_text(addr),
        }
    }
}

/// `str::parse::<ipnet::IpNet>`: reads a network in CIDR notation. The result
/// is named `parsed_cidr` of the text. What the contract adds is shown by the
/// parser: it builds the network with a checked constructor, so the prefix
/// length is at most 32 for IPv4 and at most 128 for IPv6.
#[verifier::external_body]
fn parse_ipnet(text: &str) -> (net: Result<IpNetwork, ipnet::AddrParseError>)
    ensures
        match net {
            Ok(network) => parsed_cidr(text@) == Some((network.addr, network.prefix_len))
                && network.wf(),
            Err(_) => parsed_cidr(text@) is None,
        },
{
    match text.parse::<ipnet::IpNet>() {
        Ok(ipnet::IpNet::V4(n)) => Ok(
            IpNetwork { addr: IpAddress::V4(u32::from(n.addr())), prefix_len: n.prefix_len() },
        ),
        Ok(ipnet::IpNet::V6(n)) => Ok(
            IpNetwork { addr: IpAddress::V6(u128::from(n.addr())), prefix_len: n.prefix_len() },
        ),
        Err(e) => Err(e),
    }
}

/// `Display` of `ipnet::AddrParseError`: it writes one fixed sentence.
#[verifier::external_body]
fn parse_error_text(error: &ipnet::AddrParseError) -> (text: String)
    ensures
        text@ == "invalid IP address syntax"@,
{
    error.to_string()
}

/// `Ipv6Net::addr` of ipnet and the `Display` of the address it hands back,
/// for the host network of `addr`. The result is named `ipv6_text` of the
/// address.
#[verifier::external_body]
fn ipv6_string(addr: u128) -> (text: String)
    ensures
        text@ == ipv6_text(addr),
{
    ipnet::Ipv6Net::new_assert(addr.into(), 128).addr().to_string()
}

/// Appends the text of an IPv4 address.
fn push_ipv4(out: &mut String, addr: u32)
    ensures
        final(out)@ == old(out)@ + ipv4_text(addr),
{
    proof {
        reveal_strlit(".");
    }
    push_decimal(out, (addr / 0x100_0000) as u64);
    out.append(".");
    push_decimal(out, (addr / 0x1_0000 % 256) as u64);
    out.append(".");
    push_decimal(out, (addr / 0x100 % 256) as u64);
    out.append(".");
    push_decimal(out, (addr % 256) as u64);
    assert(out@ =~= old(out)@ + ipv4_text(addr));
}

impl IpAddress {
    /// Appends the address as text.
    pub fn push_text(&self, out: &mut String)
        ensures
            final(out)@ == old(out)@ + self.text(),
    {
        match self {
            IpAddress::V4(addr) => push_ipv4(out, *addr),
            IpAddress::V6(addr) => {
                let text = ipv6_string(*addr);
                out.append(text.as_str());
            },
        }
    }
}

proof fn lemma_div_pow2_128(x: u128)
    ensures
        x as nat / pow2(128) == 0,
{
    vstd::arithmetic::power2::lemma2_to64();
    vstd::arithmetic::power2::lemma_pow2_adds(64, 64);
    let whole = pow2(128);
    assert(whole == 0x1_0000_0000_0000_0000 * 0x1_0000_0000_0000_0000);
    assert(x as nat / whole == 0) by (nonlinear_arith)
        requires
            0 <= x as nat,
            (x as nat) < whole,
    ;
}

impl IpNetwork {
    /// The prefix length is within the address's width.
    pub open spec fn wf(self) -> bool {
        match self.addr {
            IpAddress::V4(_) => self.prefix_len <= 32,
            IpAddress::V6(_) => self.prefix_len <= 128,
        }
    }

    /// Whether `ip` lies in the network: it is of the same family, and it
    /// agrees with the network's address in the leading `prefix_len` bits.
    pub open spec fn spec_contains(self, ip: IpAddress) -> bool {
        match (self.addr, ip) {
            (IpAddress::V4(net), IpAddress::V4(host)) => {
                if self.prefix_len >= 32 {
                    net == host
                } else {
                    net as nat / pow2((32 - self.prefix_len) as nat) == host as nat / pow2(
                        (32 - self.prefix_len) as nat,
                    )
                }
            },
            (IpAddress::V6(net), IpAddress::V6(host)) => {
                if self.prefix_len >= 128 {
                    net == host
                } else {
                    net as nat / pow2((128 - self.prefix_len) as nat) == host as nat / pow2(
                        (128 - self.prefix_len) as nat,
                    )
                }
            },
            _ => false,
        }
    }

    /// Whether `ip` lies in the network.
    pub fn contains(&self, ip: &IpAddress) -> (inside: bool)
        ensures
            inside == self.spec_contains(*ip),
    {
        match (self.addr, *ip) {
            (IpAddress::V4(net), IpAddress::V4(host)) => {
                if self.prefix_len >= 32 {
                    net == host
                } else if self.prefix_len == 0 {
                    proof {
                        vstd::arithmetic::power2::lemma2_to64();
                        assert(net as nat / 0x1_0000_0000 == 0 && host as nat / 0x1_0000_0000 == 0);
                    }
                    true
                } else {
                    let shift: u32 = 32 - self.prefix_len as u32;
                    proof {
                        vstd::bits::lemma_u32_shr_is_div(net, shift);
                        vstd::bits::lemma_u32_shr_is_div(host, shift);
                    }
                    (net >> shift) == (host >> shift)
                }
            },
            (IpAddress::V6(net), IpAddress::V6(host)) => {
                if self.prefix_len >= 128 {
                    net == host
                } else if self.prefix_len == 0 {
                    proof {
                        lemma_div_pow2_128(net);
                        lemma_div_pow2_128(host);
                    }
                    true
                } else {
                    let shift: u128 = 128 - self.prefix_len as u128;
                    proof {
                        vstd::bits::lemma_u128_shr_is_div(net, shift);
                        vstd::bits::lemma_u128_shr_is_div(host, shift);
                    }
                    (net >> shift) == (host >> shift)
                }
            },
            _ => false,
        }
    }
}

/// The reason given when a rule's network is no CIDR notation.
pub open spec fn invalid_cidr_message(cidr: Seq<char>) -> Seq<char> {
    "invalid cidr "@ + cidr + ": "@ + "invalid IP address syntax"@
}

/// What a rule definition amounts to: the rule's network and ports, or the
/// reason why it is refused. An empty port list is refused first.
pub open spec fn rule_parsed(cidr: Seq<char>, ports: Seq<u16>) -> Result<
    (IpNetwork, Seq<u16>),
    Seq<char>,
> {
    if ports.len() == 0 {
        Err("ports must not be empty"@)
    } else {
        match parsed_cidr(cidr) {
            Some((addr, prefix_len)) => Ok((IpNetwork { addr, prefix_len }, ports)),
            None => Err(invalid_cidr_message(cidr)),
        }
    }
}

impl Clone for PolicyRule {
    fn clone(&self) -> (copy: Self)
        ensures
            copy.cidr() == self.cidr(),
            copy.ports() == self.ports(),
    {
        proof {
            use_type_invariant(self);
        }
        let ports = self.ports.clone();
        assert(ports@ =~= self.ports@);
        Self { cidr: self.cidr, ports }
    }
}

impl PolicyRule {
    #[verifier::type_invariant]
    spec fn inv(self) -> bool {
        &&& self.ports@.len() > 0
        &&& self.cidr.wf()
    }

    /// The rule's network.
    pub closed spec fn cidr(self) -> IpNetwork {
        self.cidr
    }

    /// The rule's ports, in the order given.
    pub closed spec fn ports(self) -> Seq<u16> {
        self.ports@
    }

    /// A rule matches a destination whose address lies in the rule's network
    /// and whose port is one of the rule's ports.
    pub open spec fn spec_matches(self, target: Target) -> bool {
        self.cidr().spec_contains(target.ip) && self.ports().contains(target.port)
    }

    /// Builds a rule from a network in CIDR notation and a list of ports.
    /// An empty list and a text that is no network are refused.
    pub fn parse(cidr: &str, ports: Vec<u16>) -> (result: Result<Self, String>)
        ensures
            match (result, rule_parsed(cidr@, ports@)) {
                (Ok(rule), Ok((network, list))) => rule.cidr() == network && rule.ports() == list
                    && list.len() > 0 && network.wf(),
                (Err(reason), Err(expected)) => reason@ == expected,
                _ => false,
            },
    {
        if ports.len() == 0 {
            return Err("ports must not be empty".to_owned());
        }
        match parse_ipnet(cidr) {
            Ok(network) => Ok(Self { cidr: network, ports }),
            Err(error) => {
                let mut reason = "invalid cidr ".to_owned();
                reason.append(cidr);
                reason.append(": ");
                reason.append(parse_error_text(&error).as_str());
                Err(reason)
            },
        }
    }

    /// Whether the rule matches `target`.
    pub fn matches(&self, target: &Target) -> (matched: bool)
        ensures
            matched == self.spec_matches(*target),
    {
        if !self.cidr.contains(&target.ip) {
            return false;
        }
        let mut i: usize = 0;
        while i < self.ports.len()
            invariant
                i <= self.ports@.len(),
                self.cidr.spec_contains(target.ip),
                forall|j: int| 0 <= j < i ==> self.ports@[j] != target.port,
            decreases self.ports@.len() - i,
        {
            if self.ports[i] == target.port {
                assert(self.ports@[i as int] == target.port);
                return true;
            }
            i += 1;
        }
        false
    }
}

impl IpAddress {
    /// What a text stands for as a single address: the address of the
    /// network that the text names when a full-length prefix is put behind
    /// it, IPv4 first.
    pub open spec fn parsed(text: Seq<char>) -> Option<IpAddress> {
        match parsed_cidr(text + "/32"@) {
            Some((IpAddress::V4(addr), 32)) => Some(IpAddress::V4(addr)),
            _ => match parsed_cidr(text + "/128"@) {
                Some((IpAddress::V6(addr), 128)) => Some(IpAddress::V6(addr)),
                _ => None,
            },
        }
    }

    /// Reads a single address, IPv4 or IPv6.
    pub fn parse(text: &str) -> (address: Option<IpAddress>)
        ensures
            address == IpAddress::parsed(text@),
    {
        let mut host4 = text.to_owned();
        host4.append("/32");
        match parse_ipnet(host4.as_str()) {
            Ok(IpNetwork { addr: IpAddress::V4(addr), prefix_len: 32 }) => {
                return Some(IpAddress::V4(addr));
            },
            _ => {},
        }
        let mut host6 = text.to_owned();
        host6.append("/128");
        match parse_ipnet(host6.as_str()) {
            Ok(IpNetwork { addr: IpAddress::V6(addr), prefix_len: 128 }) => Some(
                IpAddress::V6(addr),
            ),
            _ => None,
        }
    }
}

impl Target {
    /// Builds a destination from the text of an address and a port. A text
    /// that is no address is refused.
    pub fn parse(ip: &str, port: u16) -> (result: Result<Self, String>)
        ensures
            match IpAddress::parsed(ip@) {
                Some(address) => result == Ok::<Target, String>(Target { ip: address, port }),
                None => result matches Err(reason) && reason@ == "invalid ip "@ + ip@
                    + ": invalid IP address syntax"@,
            },
    {
        match IpAddress::parse(ip) {
            Some(address) => Ok(Target { ip: address, port }),
            None => {
                let mut reason = "invalid ip ".to_owned();
                reason.append(ip);
                reason.append(": invalid IP address syntax");
                Err(reason)
            },
        }
    }

    /// The destination as text: the address, a colon, the port.
    pub open spec fn text(self) -> Seq<char> {
        self.ip.text() + ":"@ + decimal_text(self.port as nat)
    }

    /// The destination as text.
    pub fn to_text(&self) -> (text: String)
        ensures
            text@ == self.text(),
    {
        let mut text = String::new();
        self.ip.push_text(&mut text);
        text.append(":");
        push_decimal(&mut text, self.port as u64);
        assert(text@ =~= self.text());
        text
    }
}

/// The reason given when no rule allows a destination.
pub open spec fn deny_reason(target: Target) -> Seq<char> {
    "target "@ + target.ip.text() + ":"@ + decimal_text(target.port as nat) + " not allowed"@
}

/// What a rule definition of a configuration amounts to.
pub open spec fn rule_outcome(rule: PolicyRuleConfig) -> Result<(IpNetwork, Seq<u16>), Seq<char>> {
    rule_parsed(rule.cidr@, rule.ports@)
}

/// The reason why a list of rule definitions is refused: that of the
/// first definition that is refused; nothing where all are in order.
pub open spec fn first_refusal(rules: Seq<PolicyRuleConfig>) -> Option<Seq<char>>
    decreases rules.len(),
{
    if rules.len() == 0 {
        None
    } else {
        match first_refusal(rules.drop_last()) {
            Some(reason) => Some(reason),
            None => match rule_outcome(rules.last()) {
                Ok(_) => None,
                Err(reason) => Some(reason),
            },
        }
    }
}

/// Whether some rule definition of the list, taken by itself, matches
/// `target`.
pub open spec fn definitions_allow(rules: Seq<PolicyRuleConfig>, target: Target) -> bool {
    exists|i: int|
        0 <= i < rules.len() && (rule_outcome(#[trigger] rules[i]) matches Ok((network, ports))
            && network.spec_contains(target.ip) && ports.contains(target.port))
}

/// A refusal among the first definitions of a list is the refusal of the
/// whole list.
proof fn lemma_first_refusal_persists(rules: Seq<PolicyRuleConfig>, k: int)
    requires
        0 <= k <= rules.len(),
        first_refusal(rules.take(k)) is Some,
    ensures
        first_refusal(rules) == first_refusal(rules.take(k)),
    decreases rules.len() - k,
{
    if k < rules.len() {
        assert(rules.take(k + 1).drop_last() =~= rules.take(k));
        lemma_first_refusal_persists(rules, k + 1);
    } else {
        assert(rules.take(k) =~= rules);
    }
}

impl Policy {
    /// Whether some rule matches `target`.
    pub open spec fn allows(self, target: Target) -> bool {
        exists|i: int| 0 <= i < self.allow@.len() && (#[trigger] self.allow@[i]).spec_matches(target)
    }

    /// Builds the policy of a configuration, rule by rule in order. The
    /// first rule that is refused decides the error.
    pub fn from_config(cfg: &PolicyConfig) -> (result: Result<Self, String>)
        ensures
            match result {
                Ok(policy) => {
                    &&& first_refusal(cfg.allow@) is None
                    &&& policy.allow@.len() == cfg.allow@.len()
                    &&& forall|i: int|
                        0 <= i < cfg.allow@.len() ==> rule_outcome(#[trigger] cfg.allow@[i]) == Ok::<
                            (IpNetwork, Seq<u16>),
                            Seq<char>,
                        >((policy.allow@[i].cidr(), policy.allow@[i].ports()))
                    &&& forall|target: Target| #[trigger]
                        policy.allows(target) == definitions_allow(cfg.allow@, target)
                },
                Err(reason) => first_refusal(cfg.allow@) == Some(reason@),
            },
    {
        let mut allow: Vec<PolicyRule> = Vec::new();
        let mut i: usize = 0;
        assert(cfg.allow@.take(0) =~= Seq::<PolicyRuleConfig>::empty());
        while i < cfg.allow.len()
            invariant
                i <= cfg.allow@.len(),
                allow@.len() == i,
                first_refusal(cfg.allow@.take(i as int)) is None,
                forall|j: int|
                    0 <= j < i ==> rule_outcome(#[trigger] cfg.allow@[j]) == Ok::<
                        (IpNetwork, Seq<u16>),
                        Seq<char>,
                    >((allow@[j].cidr(), allow@[j].ports())),
            decreases cfg.allow@.len() - i,
        {
            let rule = &cfg.allow[i];
            let ports = rule.ports.clone();
            assert(ports@ =~= rule.ports@);
            proof {
                assert(cfg.allow@.take(i as int + 1).drop_last() =~= cfg.allow@.take(i as int));
                assert(cfg.allow@.take(i as int + 1).last() == cfg.allow@[i as int]);
            }
            match PolicyRule::parse(rule.cidr.as_str(), ports) {
                Ok(parsed) => {
                    allow.push(parsed);
                },
                Err(reason) => {
                    proof {
                        lemma_first_refusal_persists(cfg.allow@, i as int + 1);
                    }
                    return Err(reason);
                },
            }
            i += 1;
        }
        assert(cfg.allow@.take(i as int) =~= cfg.allow@);
        let policy = Self { allow };
        proof {
            assert forall|target: Target| #[trigger]
                policy.allows(target) == definitions_allow(cfg.allow@, target) by {
                if policy.allows(target) {
                    let k = choose|k: int|
                        0 <= k < policy.allow@.len() && (#[trigger] policy.allow@[k]).spec_matches(
                            target,
                        );
                    assert(rule_outcome(cfg.allow@[k]) is Ok);
                }
                if definitions_allow(cfg.allow@, target) {
                    let k = choose|k: int|
                        0 <= k < cfg.allow@.len() && (rule_outcome(#[trigger] cfg.allow@[k]) matches Ok(
                            (network, ports),
                        ) && network.spec_contains(target.ip) && ports.contains(target.port));
                    assert(policy.allow@[k].spec_matches(target));
                }
            }
        }
        Ok(policy)
    }

    /// Decides on a destination: allowed if and only if some rule matches
    /// it, otherwise denied with the reason that names the destination.
    pub fn evaluate(&self, target: &Target) -> (decision: Decision)
        ensures
            match decision {
                Decision::Allow => self.allows(*target),
                Decision::Deny { reason } => !self.allows(*target) && reason@ == deny_reason(
                    *target,
                ),
            },
    {
        let mut i: usize = 0;
        while i < self.allow.len()
            invariant
                i <= self.allow@.len(),
                forall|j: int| 0 <= j < i ==> !(#[trigger] self.allow@[j]).spec_matches(*target),
            decreases self.allow@.len() - i,
        {
            if self.allow[i].matches(target) {
                return Decision::Allow;
            }
            i += 1;
        }
        let mut reason = "target ".to_owned();
        target.ip.push_text(&mut reason);
        reason.append(":");
        push_decimal(&mut reason, target.port as u64);
        reason.append(" not allowed");
        assert(reason@ =~= deny_reason(*target));
        Decision::Deny { reason }
    }
}

/// Every denial names its cause in the same words: the reason ends with
/// " not allowed".
pub proof fn lemma_deny_reason_says_not_allowed(target: Target)
    ensures
        deny_reason(target).len() >= " not allowed"@.len(),
        deny_reason(target).subrange(
            deny_reason(target).len() - " not allowed"@.len(),
            deny_reason(target).len() as int,
        ) == " not allowed"@,
{
    let head = "target "@ + target.ip.text() + ":"@ + decimal_text(target.port as nat);
    let tail = " not allowed"@;
    assert(deny_reason(target) == head + tail);
    assert((head + tail).subrange((head + tail).len() - tail.len(), (head + tail).len() as int)
        =~= tail);
}

/// A policy is the union of its rules: a list of rules allows what one of
/// its parts allows, so the order of the rules does not change the outcome.
pub proof fn lemma_policy_is_union(first: Policy, second: Policy, both: Policy, target: Target)
    requires
        both.allow@ == first.allow@ + second.allow@ || both.allow@ == second.allow@ + first.allow@,
    ensures
        both.allows(target) <==> first.allows(target) || second.allows(target),
{
    let a = first.allow@;
    let b = second.allow@;
    if first.allows(target) {
        let i = choose|i: int| 0 <= i < a.len() && (#[trigger] a[i]).spec_matches(target);
        if both.allow@ == a + b {
            assert(both.allow@[i] == a[i]);
        } else {
            assert(both.allow@[b.len() + i] == a[i]);
        }
    }
    if second.allows(target) {
        let i = choose|i: int| 0 <= i < b.len() && (#[trigger] b[i]).spec_matches(target);
        if both.allow@ == a + b {
            assert(both.allow@[a.len() + i] == b[i]);
        } else {
            assert(both.allow@[i] == b[i]);
        }
    }
    if both.allows(target) {
        let k = choose|k: int|
            0 <= k < both.allow@.len() && (#[trigger] both.allow@[k]).spec_matches(target);
        if both.allow@ == a + b {
            if k < a.len() {
                assert(a[k].spec_matches(target));
            } else {
                assert(b[k - a.len()].spec_matches(target));
            }
        } else {
            if k < b.len() {
                assert(b[k].spec_matches(target));
            } else {
                assert(a[k - b.len()].spec_matches(target));
            }
        }
    }
}

/// A rule with an empty port list is always refused, whatever its network.
pub proof fn lemma_empty_ports_refused(cidr: Seq<char>)
    ensures
        rule_parsed(cidr, Seq::<u16>::empty()) == Err::<(IpNetwork, Seq<u16>), Seq<char>>(
            "ports must not be empty"@,
        ),
{
}

} // verus!
