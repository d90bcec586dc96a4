use crate::errors::Error;
use crate::models::{is_packet_error, packet_error, FollowUpQuery, FollowUpQueryProtocol, Host, Packet, PacketError, ParseResult};
use crate::net::SocketAddr;
use crate::protocol::q3m::opt_eq;
use crate::q3::{MasterQueryExtra, Q3Packet, Q3Request};
use crate::value::Value;
use vstd::prelude::*;

verus! {

/// The Quake 3 master-server protocol.
#[derive(Clone, Debug)]
pub struct ProtocolImpl<P> {
    pub q3s_protocol: Option<P>,
    pub request_tag: Option<String>,
    pub version: u32,
}

/// Whether `results` are one follow-up per server of `servers`, in order,
/// each for the server's address with a clone of `protocol` and no state.
pub open spec fn are_child_follow_ups<P: Clone>(results: Seq<Result<ParseResult<P>, PacketError>>, servers: Seq<SocketAddr>, protocol: P) -> bool {
    &&& results.len() == servers.len()
    &&& forall|i: int| 0 <= i < results.len() ==> (#[trigger] results[i] matches Ok(ParseResult::FollowUp(f))
        && f.host == Host::A(servers[i]) && f.state is None
        && (f.protocol matches FollowUpQueryProtocol::Child(c) && cloned(protocol, c)))
}

impl<P> Default for ProtocolImpl<P> {
    /// A master protocol with no server protocol, no request tag, and
    /// protocol version 71.
    fn default() -> (r: ProtocolImpl<P>)
        ensures
            r.q3s_protocol is None,
            r.request_tag is None,
            r.version == 71,
    {
        ProtocolImpl { q3s_protocol: None, request_tag: None, version: 71 }
    }
}

impl<P: Clone> ProtocolImpl<P> {

    /// The `getservers` request; it does not depend on `state`.
    pub fn make_request(&self, state: Option<Value>) -> (r: Q3Request)
        ensures
            r matches Q3Request::GetServers { request_tag, version: v, extra }
                && opt_eq(request_tag, self.request_tag) && v == self.version
                && extra@ == seq![MasterQueryExtra::Empty, MasterQueryExtra::Full],
    {
        let tag = match &self.request_tag {
            Some(t) => Some(t.clone()),
            None => None,
        };
        let mut extra = Vec::new();
        extra.push(MasterQueryExtra::Empty);
        extra.push(MasterQueryExtra::Full);
        Q3Request::GetServers { request_tag: tag, version: self.version, extra }
    }

    /// Parses a master's datagram `p`, which decoded to `packet` (`None`
    /// when it does not decode): a server list becomes one follow-up per
    /// server with the server protocol, or nothing when there is none; any
    /// other packet is one error.
    pub fn parse_response(&self, p: &Packet, packet: Option<Q3Packet>) -> (r: Vec<Result<ParseResult<P>, PacketError>>)
        ensures
            match packet {
                None => r@.len() == 1 && is_packet_error(r@[0], *p, Error::DataParseError),
                Some(Q3Packet::GetServersResponse(resp)) => match self.q3s_protocol {
                    Some(c) => are_child_follow_ups(r@, resp.data@, c),
                    None => r@.len() == 0,
                },
                Some(_) => r@.len() == 1 && is_packet_error(r@[0], *p, Error::DataParseError),
            },
    {
        let mut out: Vec<Result<ParseResult<P>, PacketError>> = Vec::new();
        match packet {
            Some(Q3Packet::GetServersResponse(resp)) => {
                match &self.q3s_protocol {
                    Some(c) => {
                        let mut i: usize = 0;
                        while i < resp.data.len()
                            invariant
                                0 <= i <= resp.data@.len(),
                                out@.len() == i,
                                forall|j: int| 0 <= j < i ==> (#[trigger] out@[j] matches Ok(ParseResult::FollowUp(f))
                                    && f.host == Host::A(resp.data@[j]) && f.state is None
                                    && (f.protocol matches FollowUpQueryProtocol::Child(x) && cloned(*c, x))),
                            decreases resp.data.len() - i,
                        {
                            let f = FollowUpQuery {
                                host: Host::A(resp.data[i]),
                                state: None,
                                protocol: FollowUpQueryProtocol::Child(c.clone()),
                            };
                            out.push(Ok(ParseResult::FollowUp(f)));
                            i = i + 1;
                        }
                    }
                    None => {}
                }
            }
            _ => {
                out.push(packet_error(p, Error::DataParseError));
            }
        }
        out
    }
}

} // verus!
