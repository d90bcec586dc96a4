use crate::errors::Error;
use crate::models::{is_packet_error, packet_error, FollowUpQuery, FollowUpQueryProtocol, Host, Packet, PacketError, ParseResult};
use crate::net::SocketAddr;
use crate::value::{Value, ValueView};
use vstd::prelude::*;

verus! {

/// The version of the master-server protocol that is spoken.
pub const MASTER_VERSION: u8 = 2;

/// The address family of a master's server list.
#[derive(Clone, Copy, Debug, PartialEq, Eq, Structural)]
pub enum ServerListType {
    IPv4,
    IPv6,
}

/// A request for a master's server list.
#[derive(Clone, Copy, Debug, PartialEq, Eq, Structural)]
pub struct ClientGetListData {
    pub master_server_version: u8,
    pub request_type: ServerListType,
}

/// A master's server list, decoded.
#[derive(Clone, Debug, PartialEq, Eq)]
pub enum ServerList {
    IPv4(Vec<SocketAddr>),
    IPv6(Vec<SocketAddr>),
}

/// The state of a master query: the IPv4 list has been asked for.
#[derive(Clone, Copy, Debug, PartialEq, Eq, Structural)]
pub enum State {
    IPv4Polled,
}

impl State {
    /// The state as a value, as it is serialized: the variant's name.
    pub fn to_value(&self) -> (r: Value)
        ensures
            r@ == ValueView::Str("IPv4Polled"@),
    {
        Value::Str("IPv4Polled".to_owned())
    }
}

/// The OpenTTD master-server protocol: asks a master for its IPv4 list,
/// then (as a follow-up to itself) for its IPv6 list, and queries each
/// listed server with the child protocol.
#[derive(Debug)]
pub struct ProtocolImpl<P> {
    pub child: Option<P>,
}

/// Whether `results` are one follow-up per address of `addrs`, in order,
/// each with a clone of `child` and no state.
pub open spec fn are_server_follow_ups<P: Clone>(results: Seq<Result<ParseResult<P>, PacketError>>, addrs: Seq<SocketAddr>, child: P) -> bool {
    &&& results.len() == addrs.len()
    &&& forall|i: int| 0 <= i < results.len() ==> (#[trigger] results[i] matches Ok(ParseResult::FollowUp(f))
        && f.host == Host::A(addrs[i]) && f.state is None
        && (f.protocol matches FollowUpQueryProtocol::Child(c) && cloned(child, c)))
}

/// Whether `r` is the follow-up that asks the master at `addr` again, for its IPv6 list.
pub open spec fn is_ipv6_follow_up<P>(r: Result<ParseResult<P>, PacketError>, addr: SocketAddr) -> bool {
    r matches Ok(ParseResult::FollowUp(f)) && f.host == Host::A(addr)
        && (f.protocol matches FollowUpQueryProtocol::This)
        && (f.state matches Some(v) && v@ == ValueView::Str("IPv4Polled"@))
}

/// The list a request asks for: IPv4 without a state, IPv6 with one.
pub open spec fn requested_list(state: Option<Value>) -> ServerListType {
    if state is Some { ServerListType::IPv6 } else { ServerListType::IPv4 }
}

/// A master is asked for its IPv4 list first; the follow-up that an IPv4
/// list gives back runs the master protocol again with a state, and so asks
/// for the IPv6 list.
pub proof fn lemma_ipv4_list_leads_to_ipv6_request<P>(r: Result<ParseResult<P>, PacketError>, addr: SocketAddr)
    requires
        is_ipv6_follow_up(r, addr),
    ensures
        requested_list(None) == ServerListType::IPv4,
        r matches Ok(ParseResult::FollowUp(f)) && requested_list(f.state) == ServerListType::IPv6,
{
}

impl<P: Clone> ProtocolImpl<P> {
    /// The list request: for IPv4 at first, for IPv6 once there is a state.
    pub fn make_request(&self, state: &Option<Value>) -> (r: ClientGetListData)
        ensures
            r.master_server_version == MASTER_VERSION,
            r.request_type == requested_list(*state),
    {
        ClientGetListData {
            master_server_version: MASTER_VERSION,
            request_type: if state.is_some() { ServerListType::IPv6 } else { ServerListType::IPv4 },
        }
    }

    fn follow_ups(child: &P, addrs: &Vec<SocketAddr>, out: &mut Vec<Result<ParseResult<P>, PacketError>>)
        ensures
            final(out)@.len() == old(out)@.len() + addrs@.len(),
            final(out)@.take(old(out)@.len() as int) == old(out)@,
            are_server_follow_ups(final(out)@.skip(old(out)@.len() as int), addrs@, *child),
    {
        let ghost start = out@;
        let mut i: usize = 0;
        while i < addrs.len()
            invariant
                0 <= i <= addrs@.len(),
                out@.len() == start.len() + i,
                out@.take(start.len() as int) == start,
                forall|j: int| 0 <= j < i ==> (#[trigger] out@[start.len() + j] matches Ok(ParseResult::FollowUp(f))
                    && f.host == Host::A(addrs@[j]) && f.state is None
                    && (f.protocol matches FollowUpQueryProtocol::Child(c) && cloned(*child, c))),
            decreases addrs.len() - i,
        {
            let f = FollowUpQuery {
                host: Host::A(addrs[i]),
                state: None,
                protocol: FollowUpQueryProtocol::Child(child.clone()),
            };
            out.push(Ok(ParseResult::FollowUp(f)));
            assert(out@.take(start.len() as int) =~= start);
            i = i + 1;
        }
        let ghost rest = out@.skip(start.len() as int);
        assert forall|j: int| 0 <= j < rest.len() implies (#[trigger] rest[j] matches Ok(ParseResult::FollowUp(f))
            && f.host == Host::A(addrs@[j]) && f.state is None
            && (f.protocol matches FollowUpQueryProtocol::Child(c) && cloned(*child, c))) by {
            assert(rest[j] == out@[start.len() + j]);
        }
    }

    /// Parses a master's datagram `p`, which decoded to `list`. Without a
    /// child protocol nothing comes of it. Otherwise a decoding error is
    /// passed on; an IPv4 list first asks the master again for its IPv6
    /// list; and each listed server becomes a follow-up with the child.
    pub fn parse_response(&self, p: &Packet, list: Result<ServerList, Error>) -> (r: Vec<Result<ParseResult<P>, PacketError>>)
        ensures
            match self.child {
                None => r@.len() == 0,
                Some(child) => match list {
                    Err(e) => r@.len() == 1 && is_packet_error(r@[0], *p, e),
                    Ok(ServerList::IPv4(addrs)) => r@.len() == addrs@.len() + 1
                        && is_ipv6_follow_up(r@[0], p.addr)
                        && are_server_follow_ups(r@.skip(1), addrs@, child),
                    Ok(ServerList::IPv6(addrs)) => are_server_follow_ups(r@, addrs@, child),
                },
            },
    {
        let mut out: Vec<Result<ParseResult<P>, PacketError>> = Vec::new();
        match &self.child {
            None => {
                assert(out@.len() == 0);
            }
            Some(child) => match list {
                Err(e) => out.push(packet_error(p, e)),
                Ok(ServerList::IPv4(addrs)) => {
                    let again = FollowUpQuery {
                        host: Host::A(p.addr),
                        protocol: FollowUpQueryProtocol::This,
                        state: Some(State::IPv4Polled.to_value()),
                    };
                    out.push(Ok(ParseResult::FollowUp(again)));
                    let ghost first = out@;
                    Self::follow_ups(child, &addrs, &mut out);
                    assert(out@[0] == out@.take(1)[0]);
                    assert(out@.take(1)[0] == first[0]);
                }
                Ok(ServerList::IPv6(addrs)) => {
                    Self::follow_ups(child, &addrs, &mut out);
                    assert(out@.skip(0) =~= out@);
                }
            },
        }
        out
    }
}

} // verus!
