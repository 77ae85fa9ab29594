//! The trust filter chain: anonymity verdict, abuse-address list and
//! CIDR blocklist, consulted in that fixed order, first hit rejecting.

use vstd::prelude::*;

use crate::ip::{spec_in_cidr_list, all_wf, is_ip_in_cidr_list, ip_list_contains, IpAddress,
    Network, spec_in_ip_list};

verus! {

/// What an anonymity database says of one address.
#[derive(Clone, Copy, PartialEq, Eq, Structural, Debug)]
pub struct AnonymityFlags {
    pub vpn: bool,
    pub public_proxy: bool,
    pub tor_exit: bool,
}

/// An address is anonymous when any flag is set.
pub open spec fn spec_is_anonymous(f: AnonymityFlags) -> bool {
    f.vpn || f.public_proxy || f.tor_exit
}

/// The rendered anonymity reason: the names of the flags that fired,
/// joined with `+`.
pub open spec fn spec_anon_reason(f: AnonymityFlags) -> Seq<char> {
    if f.vpn {
        if f.public_proxy {
            if f.tor_exit {
                "VPN+PublicProxy+TorExit"@
            } else {
                "VPN+PublicProxy"@
            }
        } else {
            if f.tor_exit {
                "VPN+TorExit"@
            } else {
                "VPN"@
            }
        }
    } else {
        if f.public_proxy {
            if f.tor_exit {
                "PublicProxy+TorExit"@
            } else {
                "PublicProxy"@
            }
        } else {
            if f.tor_exit {
                "TorExit"@
            } else {
                ""@
            }
        }
    }
}

/// Renders the reason naming each flag that fired.
pub fn anonymity_reason(f: &AnonymityFlags) -> (r: String)
    ensures
        r@ == spec_anon_reason(*f),
{
    if f.vpn {
        if f.public_proxy {
            if f.tor_exit {
                String::from_str("VPN+PublicProxy+TorExit")
            } else {
                String::from_str("VPN+PublicProxy")
            }
        } else {
            if f.tor_exit {
                String::from_str("VPN+TorExit")
            } else {
                String::from_str("VPN")
            }
        }
    } else {
        if f.public_proxy {
            if f.tor_exit {
                String::from_str("PublicProxy+TorExit")
            } else {
                String::from_str("PublicProxy")
            }
        } else {
            if f.tor_exit {
                String::from_str("TorExit")
            } else {
                String::from_str("")
            }
        }
    }
}

/// The verdict on one address: whether it is anonymous, and the
/// rendered reason.
pub fn anonymity_verdict(f: &AnonymityFlags) -> (r: (bool, String))
    ensures
        r.0 == spec_is_anonymous(*f),
        r.1@ == spec_anon_reason(*f),
{
    (f.vpn || f.public_proxy || f.tor_exit, anonymity_reason(f))
}

/// The outcome of the filter chain, with the mathematical reason text.
pub ghost enum SpecDecision {
    Accept,
    RejectAnonymous(Seq<char>),
    RejectAbuse,
    RejectCidr,
}

/// The outcome of the filter chain on one address.
#[derive(Debug)]
pub enum FilterDecision {
    /// No filter objected.
    Accept,
    /// The anonymity database flagged the address; the text names the
    /// flags that fired.
    RejectAnonymous(String),
    /// The address stands in the abuse list.
    RejectAbuse,
    /// A network of the CIDR blocklist contains the address.
    RejectCidr,
}

impl View for FilterDecision {
    type V = SpecDecision;

    open spec fn view(&self) -> SpecDecision {
        match self {
            FilterDecision::Accept => SpecDecision::Accept,
            FilterDecision::RejectAnonymous(s) => SpecDecision::RejectAnonymous(s@),
            FilterDecision::RejectAbuse => SpecDecision::RejectAbuse,
            FilterDecision::RejectCidr => SpecDecision::RejectCidr,
        }
    }
}

/// The filter chain's whole behaviour: anonymity first, then the abuse
/// list (skipped when empty), then the CIDR blocklist (skipped when
/// empty); the first hit rejects, and otherwise the address is accepted.
/// `anon` is `None` when no anonymity database is loaded.
pub open spec fn spec_decide(
    ip: IpAddress,
    anon: Option<AnonymityFlags>,
    abuse: Seq<IpAddress>,
    cidrs: Seq<Network>,
) -> SpecDecision {
    if anon is Some && spec_is_anonymous(anon->0) {
        SpecDecision::RejectAnonymous(spec_anon_reason(anon->0))
    } else if abuse.len() > 0 && spec_in_ip_list(ip, abuse) {
        SpecDecision::RejectAbuse
    } else if cidrs.len() > 0 && spec_in_cidr_list(ip, cidrs) {
        SpecDecision::RejectCidr
    } else {
        SpecDecision::Accept
    }
}

/// Runs the filter chain on one address.
pub fn decide(
    ip: &IpAddress,
    anon: &Option<AnonymityFlags>,
    abuse: &Vec<IpAddress>,
    cidrs: &Vec<Network>,
) -> (r: FilterDecision)
    requires
        all_wf(cidrs@),
    ensures
        r@ == spec_decide(*ip, *anon, abuse@, cidrs@),
{
    if let Some(f) = anon {
        let (is_anon, reason) = anonymity_verdict(f);
        if is_anon {
            return FilterDecision::RejectAnonymous(reason);
        }
    }
    if abuse.len() > 0 && ip_list_contains(ip, abuse) {
        return FilterDecision::RejectAbuse;
    }
    if cidrs.len() > 0 && is_ip_in_cidr_list(ip, cidrs) {
        return FilterDecision::RejectCidr;
    }
    FilterDecision::Accept
}

/// With no anonymity database, an empty abuse list and an empty CIDR
/// blocklist, the filter chain rejects no address.
pub proof fn lemma_empty_filters_accept(ip: IpAddress, abuse: Seq<IpAddress>, cidrs: Seq<Network>)
    requires
        abuse.len() == 0,
        cidrs.len() == 0,
    ensures
        spec_decide(ip, None, abuse, cidrs) == SpecDecision::Accept,
{
}

/// Adding one network to the CIDR blocklist is monotone: a rejected
/// address stays rejected with the same reason, an accepted address
/// stays accepted unless the new network contains it, and an address
/// whose acceptance is overturned is rejected for CIDR containment.
pub proof fn lemma_cidr_monotonic(
    ip: IpAddress,
    anon: Option<AnonymityFlags>,
    abuse: Seq<IpAddress>,
    cidrs: Seq<Network>,
    net: Network,
)
    ensures
        spec_decide(ip, anon, abuse, cidrs) != SpecDecision::Accept ==> spec_decide(
            ip,
            anon,
            abuse,
            cidrs.push(net),
        ) == spec_decide(ip, anon, abuse, cidrs),
        !crate::ip::spec_net_contains(net, ip) ==> spec_decide(ip, anon, abuse, cidrs.push(net))
            == spec_decide(ip, anon, abuse, cidrs),
        spec_decide(ip, anon, abuse, cidrs) == SpecDecision::Accept && spec_decide(
            ip,
            anon,
            abuse,
            cidrs.push(net),
        ) != SpecDecision::Accept ==> crate::ip::spec_net_contains(net, ip) && spec_decide(
            ip,
            anon,
            abuse,
            cidrs.push(net),
        ) == SpecDecision::RejectCidr,
{
    let grown = cidrs.push(net);
    assert(grown.len() == cidrs.len() + 1);
    assert(forall|i: int| 0 <= i < cidrs.len() ==> grown[i] == cidrs[i]);
    assert(grown[cidrs.len() as int] == net);
    if spec_in_cidr_list(ip, cidrs) {
        let i = choose|i: int| 0 <= i < cidrs.len() && crate::ip::spec_net_contains(cidrs[i], ip);
        assert(crate::ip::spec_net_contains(grown[i], ip));
        assert(spec_in_cidr_list(ip, grown));
    }
    if spec_in_cidr_list(ip, grown) && !spec_in_cidr_list(ip, cidrs) {
        let i = choose|i: int| 0 <= i < grown.len() && crate::ip::spec_net_contains(grown[i], ip);
        assert(i == cidrs.len());
        assert(crate::ip::spec_net_contains(net, ip));
    }
    if crate::ip::spec_net_contains(net, ip) {
        assert(spec_in_cidr_list(ip, grown));
    }
}

} // verus!
