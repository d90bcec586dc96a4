use crate::model::Host;
use crate::net::{IpAddr, SocketAddr};
use vstd::prelude::*;

verus! {

/// The index of the first IPv4 address of `addrs`, if there is one.
pub open spec fn first_ipv4(addrs: Seq<IpAddr>) -> Option<int> {
    if exists|i: int| 0 <= i < addrs.len() && addrs[i] is V4 {
        Some(choose|i: int| 0 <= i < addrs.len() && addrs[i] is V4 && forall|j: int| 0 <= j < i ==> !(addrs[j] is V4))
    } else {
        None
    }
}

/// The address a host name resolves to, given what the lookup returned:
/// the first IPv4 address (game servers listen on IPv4), else the first
/// address, else nothing.
pub open spec fn spec_select_address(addrs: Seq<IpAddr>) -> Option<IpAddr> {
    match first_ipv4(addrs) {
        Some(i) => Some(addrs[i]),
        None => if addrs.len() > 0 { Some(addrs[0]) } else { None },
    }
}

/// Picks the address to use out of the addresses a name lookup returned.
pub fn select_address(addrs: &[IpAddr]) -> (r: Option<IpAddr>)
    ensures
        r == spec_select_address(addrs@),
        r is None <==> addrs@.len() == 0,
        r matches Some(a) ==> addrs@.contains(a),
        r matches Some(a) ==> (a is V4 <==> exists|i: int| 0 <= i < addrs@.len() && addrs@[i] is V4),
{
    let mut i: usize = 0;
    while i < addrs.len()
        invariant
            0 <= i <= addrs.len(),
            forall|j: int| 0 <= j < i ==> !(addrs@[j] is V4),
        decreases addrs.len() - i,
    {
        if addrs[i].is_ipv4() {
            proof {
                let w = choose|k: int| 0 <= k < addrs@.len() && addrs@[k] is V4 && forall|j: int| 0 <= j < k ==> !(addrs@[j] is V4);
                assert(0 <= i < addrs@.len() && addrs@[i as int] is V4 && forall|j: int| 0 <= j < i ==> !(addrs@[j] is V4));
                if w < i {
                    assert(!(addrs@[w] is V4));
                } else if w > i {
                    assert(!(addrs@[i as int] is V4));
                }
            }
            return Some(addrs[i]);
        }
        i = i + 1;
    }
    if addrs.len() > 0 {
        Some(addrs[0])
    } else {
        None
    }
}

/// What resolving a host takes: an address is already resolved, a named
/// host needs a lookup of its name.
#[derive(Clone, Debug, PartialEq, Eq)]
pub enum Resolution {
    Resolved(SocketAddr),
    Lookup { host: String, port: u16 },
}

/// The first step of resolving `host`: an address is returned unchanged;
/// for a named host, the name to look up and the port to use.
pub fn plan_resolve(host: Host) -> (r: Resolution)
    ensures
        match host {
            Host::Addr(a) => r == Resolution::Resolved(a),
            Host::Named { host: h, port: p } => r == (Resolution::Lookup { host: h, port: p }),
        },
{
    match host {
        Host::Addr(a) => Resolution::Resolved(a),
        Host::Named { host, port } => Resolution::Lookup { host, port },
    }
}

/// The socket address a named host resolves to, given the addresses its
/// lookup returned: the address [`select_address`] picks, with `port`;
/// nothing when the lookup returned no address.
pub fn resolved_address(addrs: &[IpAddr], port: u16) -> (r: Option<SocketAddr>)
    ensures
        match spec_select_address(addrs@) {
            Some(ip) => r == Some(SocketAddr { ip, port }),
            None => r is None,
        },
{
    match select_address(addrs) {
        Some(ip) => Some(SocketAddr::new(ip, port)),
        None => None,
    }
}

} // verus!
