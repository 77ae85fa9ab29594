//! Addresses and CIDR networks, modelled as plain bit values so that
//! membership and containment are verified arithmetic; the textual
//! grammar of addresses is ipnetwork's, consumed through trusted items.

use vstd::prelude::*;

use crate::text::{contains_char, split_at_char, split_on_char, trim_text, trimmed};

verus! {

/// An address: a four-byte or a sixteen-byte value.
#[derive(Clone, Copy, PartialEq, Eq, Structural, Debug)]
pub enum IpAddress {
    V4(u32),
    V6(u128),
}

/// A CIDR network: a base address and a prefix length.
#[derive(Clone, Copy, PartialEq, Eq, Structural, Debug)]
pub struct Network {
    pub addr: IpAddress,
    pub prefix: u8,
}

impl Network {
    /// The prefix length fits the address family.
    pub open spec fn wf(self) -> bool {
        match self.addr {
            IpAddress::V4(_) => self.prefix <= 32,
            IpAddress::V6(_) => self.prefix <= 128,
        }
    }
}

/// The high `prefix` bits of a four-byte address.
pub open spec fn v4_mask(prefix: u8) -> u32
    recommends
        prefix <= 32,
{
    if prefix == 0 {
        0u32
    } else {
        u32::MAX << ((32 - prefix) as u32)
    }
}

/// The high `prefix` bits of a sixteen-byte address.
pub open spec fn v6_mask(prefix: u8) -> u128
    recommends
        prefix <= 128,
{
    if prefix == 0 {
        0u128
    } else {
        u128::MAX << ((128 - prefix) as u128)
    }
}

/// Whether `ip` lies in `net`: the same family, and the same bits under
/// the network's prefix mask.
pub open spec fn spec_net_contains(net: Network, ip: IpAddress) -> bool {
    match (net.addr, ip) {
        (IpAddress::V4(a), IpAddress::V4(b)) => a & v4_mask(net.prefix) == b & v4_mask(net.prefix),
        (IpAddress::V6(a), IpAddress::V6(b)) => a & v6_mask(net.prefix) == b & v6_mask(net.prefix),
        _ => false,
    }
}

/// Decides containment of one address in one network.
pub fn net_contains(net: &Network, ip: &IpAddress) -> (r: bool)
    requires
        net.wf(),
    ensures
        r == spec_net_contains(*net, *ip),
{
    match (net.addr, *ip) {
        (IpAddress::V4(a), IpAddress::V4(b)) => {
            let mask: u32 = if net.prefix == 0 {
                0
            } else {
                u32::MAX << ((32 - net.prefix) as u32)
            };
            a & mask == b & mask
        },
        (IpAddress::V6(a), IpAddress::V6(b)) => {
            let mask: u128 = if net.prefix == 0 {
                0
            } else {
                u128::MAX << ((128 - net.prefix) as u128)
            };
            a & mask == b & mask
        },
        _ => false,
    }
}

/// Whether some network of the list contains `ip`.
pub open spec fn spec_in_cidr_list(ip: IpAddress, cidrs: Seq<Network>) -> bool {
    exists|i: int| 0 <= i < cidrs.len() && spec_net_contains(cidrs[i], ip)
}

/// All networks of a list fit their address family.
pub open spec fn all_wf(cidrs: Seq<Network>) -> bool {
    forall|i: int| 0 <= i < cidrs.len() ==> (#[trigger] cidrs[i]).wf()
}

/// Decides whether any network of the list contains `ip`.
pub fn is_ip_in_cidr_list(ip: &IpAddress, cidrs: &Vec<Network>) -> (r: bool)
    requires
        all_wf(cidrs@),
    ensures
        r == spec_in_cidr_list(*ip, cidrs@),
{
    let n = cidrs.len();
    let mut i: usize = 0;
    while i < n
        invariant
            0 <= i <= n,
            n == cidrs@.len(),
            all_wf(cidrs@),
            forall|k: int| 0 <= k < i ==> !spec_net_contains(cidrs@[k], *ip),
        decreases n - i,
    {
        if net_contains(&cidrs[i], ip) {
            return true;
        }
        i = i + 1;
    }
    false
}

/// Decides whether every network of the list fits its address family.
pub fn networks_wf(cidrs: &Vec<Network>) -> (r: bool)
    ensures
        r == all_wf(cidrs@),
{
    let n = cidrs.len();
    let mut i: usize = 0;
    while i < n
        invariant
            0 <= i <= n,
            n == cidrs@.len(),
            forall|k: int| 0 <= k < i ==> (#[trigger] cidrs@[k]).wf(),
        decreases n - i,
    {
        let net = &cidrs[i];
        let ok = match net.addr {
            IpAddress::V4(_) => net.prefix <= 32,
            IpAddress::V6(_) => net.prefix <= 128,
        };
        if !ok {
            return false;
        }
        i = i + 1;
    }
    true
}

/// Whether `ip` stands in the list.
pub open spec fn spec_in_ip_list(ip: IpAddress, ips: Seq<IpAddress>) -> bool {
    ips.contains(ip)
}

/// Decides membership of an address in a plain list of addresses.
pub fn ip_list_contains(ip: &IpAddress, ips: &Vec<IpAddress>) -> (r: bool)
    ensures
        r == spec_in_ip_list(*ip, ips@),
{
    let n = ips.len();
    let mut i: usize = 0;
    while i < n
        invariant
            0 <= i <= n,
            n == ips@.len(),
            forall|k: int| 0 <= k < i ==> ips@[k] != *ip,
        decreases n - i,
    {
        if ips[i] == *ip {
            assert(ips@[i as int] == *ip);
            return true;
        }
        i = i + 1;
    }
    false
}

/// What ipnetwork's `IpNetwork` parser returns for a given text: a
/// function of the text alone, named here.
pub uninterp spec fn parsed_network(s: Seq<char>) -> Option<Network>;

/// Relies on ipnetwork's `FromStr` for `IpNetwork`: parses either a bare
/// address or an `address/prefix` pair, and never returns a prefix wider
/// than the address family allows.
#[verifier::external_body]
fn parse_network_call(s: &str) -> (r: Option<Network>)
    ensures
        r == parsed_network(s@),
        r is Some ==> r.unwrap().wf(),
{
    match s.parse::<ipnetwork::IpNetwork>() {
        Ok(ipnetwork::IpNetwork::V4(n)) => Some(
            Network { addr: IpAddress::V4(u32::from(n.ip())), prefix: n.prefix() },
        ),
        Ok(ipnetwork::IpNetwork::V6(n)) => Some(
            Network { addr: IpAddress::V6(u128::from(n.ip())), prefix: n.prefix() },
        ),
        Err(_) => None,
    }
}

/// What a bare address text denotes: for text without a slash, the
/// network parser reads the address itself, and its base address is the
/// value denoted.
pub open spec fn spec_parse_ip(s: Seq<char>) -> Option<IpAddress> {
    if s.contains('/') {
        None
    } else {
        match parsed_network(s) {
            Some(n) => Some(n.addr),
            None => None,
        }
    }
}

/// Parses one bare address; text in CIDR notation is refused.
pub fn parse_ip_text(s: &str) -> (r: Option<IpAddress>)
    ensures
        r == spec_parse_ip(s@),
{
    if contains_char(s, '/') {
        None
    } else {
        match parse_network_call(s) {
            Some(n) => Some(n.addr),
            None => None,
        }
    }
}

/// What one abuse-list line contributes: the first comma-separated
/// field, trimmed, read as an address.
pub open spec fn spec_parse_abuse_line(line: Seq<char>) -> Option<IpAddress> {
    spec_parse_ip(trimmed(split_at_char(line, ',')[0]))
}

/// Reads the address of one `ip,country,score` abuse-list line; lines
/// whose first field is no address contribute nothing.
pub fn parse_abuse_line(line: &str) -> (r: Option<IpAddress>)
    ensures
        r == spec_parse_abuse_line(line@),
{
    let parts = split_on_char(line, ',');
    proof {
        crate::text::lemma_split_len(line@, ',');
    }
    let first = trim_text(parts[0].as_str());
    parse_ip_text(first.as_str())
}

/// What one CIDR-list line contributes: its trimmed text read as a
/// network; blank lines contribute nothing.
pub open spec fn spec_parse_cidr_line(line: Seq<char>) -> Option<Network> {
    if trimmed(line).len() == 0 {
        None
    } else {
        parsed_network(trimmed(line))
    }
}

/// Reads one line of a CIDR blocklist.
pub fn parse_cidr_line(line: &str) -> (r: Option<Network>)
    ensures
        r == spec_parse_cidr_line(line@),
        r is Some ==> r.unwrap().wf(),
{
    let t = trim_text(line);
    if t.as_str().unicode_len() == 0 {
        None
    } else {
        parse_network_call(t.as_str())
    }
}

/// The addresses that a whole abuse list yields, line by line.
pub open spec fn spec_abuse_set(lines: Seq<Seq<char>>) -> Seq<IpAddress> {
    lines.filter_map(|l: Seq<char>| spec_parse_abuse_line(l))
}

/// Loads the abuse-address list from its lines; unreadable lines are
/// dropped, so an empty or absent file simply disables the filter.
pub fn load_abuse_ips(lines: &Vec<String>) -> (r: Vec<IpAddress>)
    ensures
        r@ == spec_abuse_set(crate::text::views_of(lines@)),
{
    let n = lines.len();
    let mut out: Vec<IpAddress> = Vec::new();
    let mut i: usize = 0;
    proof {
        assert(crate::text::views_of(lines@).subrange(0, 0) =~= Seq::<Seq<char>>::empty());
        assert(out@ =~= Seq::<Seq<char>>::empty().filter_map(
            |l: Seq<char>| spec_parse_abuse_line(l),
        ));
    }
    while i < n
        invariant
            0 <= i <= n,
            n == lines@.len(),
            out@ == crate::text::views_of(lines@).subrange(0, i as int).filter_map(
                |l: Seq<char>| spec_parse_abuse_line(l),
            ),
        decreases n - i,
    {
        let ghost pre = crate::text::views_of(lines@).subrange(0, i + 1);
        proof {
            assert(pre.drop_last() =~= crate::text::views_of(lines@).subrange(0, i as int));
            assert(pre.last() == lines@[i as int]@);
        }
        if let Some(ip) = parse_abuse_line(lines[i].as_str()) {
            out.push(ip);
        }
        i = i + 1;
    }
    proof {
        assert(crate::text::views_of(lines@).subrange(0, n as int) =~= crate::text::views_of(
            lines@,
        ));
    }
    out
}

/// The networks that a whole CIDR blocklist yields, line by line.
pub open spec fn spec_cidr_list(lines: Seq<Seq<char>>) -> Seq<Network> {
    lines.filter_map(|l: Seq<char>| spec_parse_cidr_line(l))
}

/// Loads the CIDR blocklist from its lines; blank and unreadable lines
/// are dropped, so an empty or absent file simply disables the filter.
pub fn load_firehol_cidrs(lines: &Vec<String>) -> (r: Vec<Network>)
    ensures
        r@ == spec_cidr_list(crate::text::views_of(lines@)),
        all_wf(r@),
{
    let n = lines.len();
    let mut out: Vec<Network> = Vec::new();
    let mut i: usize = 0;
    proof {
        assert(crate::text::views_of(lines@).subrange(0, 0) =~= Seq::<Seq<char>>::empty());
        assert(out@ =~= Seq::<Seq<char>>::empty().filter_map(
            |l: Seq<char>| spec_parse_cidr_line(l),
        ));
    }
    while i < n
        invariant
            0 <= i <= n,
            n == lines@.len(),
            out@ == crate::text::views_of(lines@).subrange(0, i as int).filter_map(
                |l: Seq<char>| spec_parse_cidr_line(l),
            ),
            all_wf(out@),
        decreases n - i,
    {
        let ghost pre = crate::text::views_of(lines@).subrange(0, i + 1);
        proof {
            assert(pre.drop_last() =~= crate::text::views_of(lines@).subrange(0, i as int));
            assert(pre.last() == lines@[i as int]@);
        }
        if let Some(net) = parse_cidr_line(lines[i].as_str()) {
            out.push(net);
        }
        i = i + 1;
    }
    proof {
        assert(crate::text::views_of(lines@).subrange(0, n as int) =~= crate::text::views_of(
            lines@,
        ));
    }
    out
}

} // verus!
