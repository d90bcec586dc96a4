use crate::errors::Error;
use crate::model::{Host, Query};
use crate::net::SocketAddr;
use crate::protocol::{Outcome, Parsed};
use crate::q3::{make_getservers, MasterQueryExtra, Q3Packet, Q3Request};
use vstd::prelude::*;

verus! {

/// The Quake 3 master-server protocol: asks a master for its server list,
/// and turns each listed server into a query with the server protocol.
#[derive(Clone, Debug)]
pub struct Q3m<P> {
    pub q3s_protocol: Option<P>,
    pub request_tag: Option<String>,
    pub version: u32,
}

impl<P> Default for Q3m<P> {
    /// A master protocol with no server protocol, no request tag, and
    /// protocol version 71.
    fn default() -> (r: Q3m<P>)
        ensures
            r.q3s_protocol is None,
            r.request_tag is None,
            r.version == 71,
    {
        Q3m { q3s_protocol: None, request_tag: None, version: 71 }
    }
}

/// The end-of-transmission marker `\EOT` that ends a master's list.
pub open spec fn is_eot_at(data: Seq<u8>, i: int) -> bool {
    0 <= i && i + 4 <= data.len() && data[i] == 92 && data[i + 1] == 69 && data[i + 2] == 79 && data[i + 3] == 84
}

/// Whether `data` holds `\EOT` anywhere.
pub open spec fn spec_contains_eot(data: Seq<u8>) -> bool {
    exists|i: int| is_eot_at(data, i)
}

/// Whether `data` holds the end-of-transmission marker `\EOT`.
pub fn contains_eot(data: &[u8]) -> (r: bool)
    ensures
        r == spec_contains_eot(data@),
{
    if data.len() < 4 {
        return false;
    }
    let mut i: usize = 0;
    while i <= data.len() - 4
        invariant
            data.len() >= 4,
            0 <= i <= data.len() - 3,
            forall|j: int| 0 <= j < i ==> !is_eot_at(data@, j),
        decreases data.len() - i,
    {
        if data[i] == 92 && data[i + 1] == 69 && data[i + 2] == 79 && data[i + 3] == 84 {
            assert(is_eot_at(data@, i as int));
            return true;
        }
        i = i + 1;
    }
    assert forall|j: int| !is_eot_at(data@, j) by {
        if is_eot_at(data@, j) {
            assert(j < i);
        }
    }
    false
}

/// Whether `outcomes` are one follow-up query per server of `servers`,
/// in order, each with a clone of `protocol` and the server's address.
pub open spec fn are_follow_ups<P: Clone>(outcomes: Seq<Outcome<P>>, servers: Seq<SocketAddr>, protocol: P) -> bool {
    &&& outcomes.len() == servers.len()
    &&& forall|i: int| 0 <= i < outcomes.len() ==> (#[trigger] outcomes[i] matches Outcome::FollowUp(q)
        && q.host == Host::Addr(servers[i]) && cloned(protocol, q.protocol))
}

/// Whether `r` is what the master protocol `q` makes of the datagram
/// `data`, which decoded to `packet` (`None` when it does not decode).
pub open spec fn is_master_parse<P: Clone>(q: Q3m<P>, data: Seq<u8>, packet: Option<Q3Packet>, r: Result<Parsed<P>, Error>) -> bool {
    match packet {
        None => r == Err::<Parsed<P>, Error>(Error::DataParseError),
        Some(Q3Packet::GetServersResponse(resp)) => r matches Ok(parsed)
            && parsed.expect_more == !spec_contains_eot(data)
            && match q.q3s_protocol {
                Some(p) => are_follow_ups(parsed.outcomes@, resp.data@, p),
                None => parsed.outcomes@.len() == 0,
            },
        Some(_) => r == Err::<Parsed<P>, Error>(Error::InvalidPacketError),
    }
}

/// Parsing the same datagram twice gives the same result (the sender is
/// not read at all), as long as cloning the server protocol gives it back
/// unchanged, as cloning an `Arc` does.
pub proof fn lemma_master_parse_repeatable<P: Clone>(
    q: Q3m<P>,
    data: Seq<u8>,
    packet: Option<Q3Packet>,
    r1: Result<Parsed<P>, Error>,
    r2: Result<Parsed<P>, Error>,
)
    requires
        is_master_parse(q, data, packet, r1),
        is_master_parse(q, data, packet, r2),
        q.q3s_protocol matches Some(p) ==> forall|c: P| cloned(p, c) ==> c == p,
    ensures
        match (r1, r2) {
            (Ok(a), Ok(b)) => a.expect_more == b.expect_more && a.outcomes@ == b.outcomes@,
            (Err(x), Err(y)) => x == y,
            _ => false,
        },
{
    if let (Ok(a), Ok(b)) = (r1, r2) {
        if let Some(Q3Packet::GetServersResponse(resp)) = packet {
            if let Some(p) = q.q3s_protocol {
                assert forall|i: int| 0 <= i < a.outcomes@.len() implies a.outcomes@[i] == b.outcomes@[i] by {
                    assert(a.outcomes@[i] matches Outcome::FollowUp(x) && x.host == Host::Addr(resp.data@[i]) && cloned(p, x.protocol));
                    assert(b.outcomes@[i] matches Outcome::FollowUp(y) && y.host == Host::Addr(resp.data@[i]) && cloned(p, y.protocol));
                }
            }
        }
        assert(a.outcomes@ =~= b.outcomes@);
    }
}

impl<P: Clone> Q3m<P> {
    /// The `getservers` request for this master.
    pub fn make_request(&self) -> (r: Q3Request)
        ensures
            r matches Q3Request::GetServers { request_tag, version: v, extra }
                && opt_eq(request_tag, self.request_tag) && v == self.version
                && extra@ == seq![MasterQueryExtra::Empty, MasterQueryExtra::Full],
    {
        let tag = match &self.request_tag {
            Some(t) => Some(t.clone()),
            None => None,
        };
        let mut extra = Vec::new();
        extra.push(MasterQueryExtra::Empty);
        extra.push(MasterQueryExtra::Full);
        Q3Request::GetServers { request_tag: tag, version: self.version, extra }
    }

    /// Parses one datagram `data` from a master, which decoded to `packet`
    /// (`None` when it does not decode). More datagrams are expected until
    /// one holds `\EOT`. A server list becomes one follow-up query per
    /// server with the server protocol, or nothing when there is none.
    pub fn parse_response(&self, data: &[u8], packet: Option<Q3Packet>) -> (r: Result<Parsed<P>, Error>)
        ensures
            is_master_parse(*self, data@, packet, r),
    {
        let expect_more = !contains_eot(data);
        match packet {
            None => Err(Error::DataParseError),
            Some(Q3Packet::GetServersResponse(resp)) => {
                let mut outcomes: Vec<Outcome<P>> = Vec::new();
                match &self.q3s_protocol {
                    Some(p) => {
                        let mut i: usize = 0;
                        while i < resp.data.len()
                            invariant
                                0 <= i <= resp.data@.len(),
                                outcomes@.len() == i,
                                forall|j: int| 0 <= j < i ==> (#[trigger] outcomes@[j] matches Outcome::FollowUp(q)
                                    && q.host == Host::Addr(resp.data@[j]) && cloned(*p, q.protocol)),
                            decreases resp.data.len() - i,
                        {
                            let q = Query { protocol: p.clone(), host: Host::Addr(resp.data[i]) };
                            outcomes.push(Outcome::FollowUp(q));
                            i = i + 1;
                        }
                    }
                    None => {}
                }
                Ok(Parsed { outcomes, expect_more })
            }
            Some(_) => Err(Error::InvalidPacketError),
        }
    }
}

/// Two optional texts with the same contents.
pub open spec fn opt_eq(a: Option<String>, b: Option<String>) -> bool {
    match (a, b) {
        (Some(x), Some(y)) => x@ == y@,
        (None, None) => true,
        _ => false,
    }
}

} // verus!
