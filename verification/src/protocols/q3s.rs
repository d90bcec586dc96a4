use crate::errors::Error;
use crate::model::Server;
use crate::models::{is_packet_error, packet_error, Packet, PacketError, ParseResult};
use crate::protocol::q3s::{is_q3s_server, parse_q3a_server, RuleMapping, ServerFilter};
use crate::q3::{make_getstatus, Q3Packet, Q3Request};
use crate::value::Value;
use vstd::prelude::*;

verus! {

/// The Quake 3 server protocol.
pub struct ProtocolImpl<F> {
    /// Version of the protocol.
    pub version: u32,
    /// Mapping between rule names and server fields.
    pub rule_names: RuleMapping,
    /// Filter for sorting out servers if the master is shared.
    pub server_filter: ServerFilter<F>,
}

impl<F: Fn(Server) -> Option<Server>> ProtocolImpl<F> {
    /// Protocol version 71 with the standard rule names and `filter`.
    pub fn with_filter(filter: F) -> (r: ProtocolImpl<F>)
        ensures
            r.version == 71,
            r.rule_names.is_default(),
            r.server_filter.0 == filter,
    {
        ProtocolImpl { version: 71, rule_names: RuleMapping::default_names(), server_filter: ServerFilter(filter) }
    }

    /// The `getstatus` request; it does not depend on `state`.
    pub fn make_request(&self, state: Option<Value>) -> (r: Q3Request)
        ensures
            r matches Q3Request::GetStatus { challenge } && challenge@ == "RGS"@,
    {
        make_getstatus()
    }

    /// Parses a server's datagram `p`, which decoded to `packet` (`None`
    /// when it does not decode): a status response becomes the server the
    /// filter lets through, if it does; any other packet is one error.
    pub fn parse_response<P>(&self, p: &Packet, packet: Option<Q3Packet>) -> (r: Vec<Result<ParseResult<P>, PacketError>>)
        requires
            forall|s: Server| call_requires(self.server_filter.0, (s,)),
        ensures
            match packet {
                Some(Q3Packet::StatusResponse(pkt)) => exists|s: Server, o: Option<Server>|
                    #![trigger is_q3s_server(s, p.addr, pkt, self.rule_names), call_ensures(self.server_filter.0, (s,), o)]
                    is_q3s_server(s, p.addr, pkt, self.rule_names)
                    && call_ensures(self.server_filter.0, (s,), o)
                    && match o {
                        Some(t) => r@.len() == 1 && r@[0] == Ok::<ParseResult<P>, PacketError>(ParseResult::Output(t)),
                        None => r@.len() == 0,
                    },
                _ => r@.len() == 1 && is_packet_error(r@[0], *p, Error::DataParseError),
            },
    {
        let mut out: Vec<Result<ParseResult<P>, PacketError>> = Vec::new();
        match packet {
            Some(Q3Packet::StatusResponse(pkt)) => {
                let ghost pk = pkt;
                let mut server = Server::new(p.addr);
                let ghost blank = server;
                let _ = parse_q3a_server(&mut server, pkt, &self.rule_names);
                let ghost s = server;
                let o = (self.server_filter.0)(server);
                let ghost go = o;
                match o {
                    Some(t) => out.push(Ok(ParseResult::Output(t))),
                    None => {}
                }
                assert(is_q3s_server(s, p.addr, pk, self.rule_names));
                assert(call_ensures(self.server_filter.0, (s,), go));
            }
            _ => {
                out.push(packet_error(p, Error::DataParseError));
            }
        }
        out
    }
}

} // verus!
