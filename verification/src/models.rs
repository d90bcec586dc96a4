pub use crate::model::{Country, Player, Server, Status};
use crate::errors::Error;
use crate::net::SocketAddr;
use crate::value::{StrMap, Value};
use vstd::prelude::*;

verus! {

/// Parameters a request template is filled in with.
pub type Config = StrMap<String>;

/// A datagram received from `addr`.
#[derive(Debug, PartialEq, Eq)]
pub struct Packet {
    pub addr: SocketAddr,
    pub data: Vec<u8>,
}

impl Clone for Packet {
    fn clone(&self) -> (r: Packet)
        ensures
            r.addr == self.addr,
            r.data@ == self.data@,
    {
        let data = self.data.clone();
        assert(data@ =~= self.data@);
        Packet { addr: self.addr, data }
    }
}

/// What a protocol reports when it cannot parse a datagram: a copy of the
/// datagram, and the error.
pub type PacketError = (Option<Packet>, Error);

/// Whether `item` is the error `e` reported for the datagram `p`.
pub open spec fn is_packet_error<T>(item: Result<T, PacketError>, p: Packet, e: Error) -> bool {
    item matches Err((Some(q), f)) && q.addr == p.addr && q.data@ == p.data@ && f == e
}

/// The error item for the datagram `p`.
pub(crate) fn packet_error<T>(p: &Packet, e: Error) -> (r: Result<T, PacketError>)
    ensures
        is_packet_error(r, *p, e),
{
    Err((Some(p.clone()), e))
}

/// A host name and a port, not yet resolved.
#[derive(Clone, Debug, Eq)]
pub struct StringAddr {
    pub host: String,
    pub port: u16,
}

impl PartialEq for StringAddr {
    fn eq(&self, other: &StringAddr) -> (r: bool) {
        self.host == other.host && self.port == other.port
    }
}

impl vstd::std_specs::cmp::PartialEqSpecImpl for StringAddr {
    open spec fn obeys_eq_spec() -> bool {
        true
    }

    open spec fn eq_spec(&self, other: &StringAddr) -> bool {
        self.host@ == other.host@ && self.port == other.port
    }
}

/// Where to send a query: a socket address (`A`) or a name to resolve (`S`).
#[derive(Clone, Debug, Eq)]
pub enum Host {
    A(SocketAddr),
    S(StringAddr),
}

/// Whether two hosts are the same address, or the same name and port.
pub open spec fn same_host(a: Host, b: Host) -> bool {
    match (a, b) {
        (Host::A(x), Host::A(y)) => x == y,
        (Host::S(x), Host::S(y)) => x.host@ == y.host@ && x.port == y.port,
        _ => false,
    }
}

impl PartialEq for Host {
    fn eq(&self, other: &Host) -> (r: bool) {
        match (self, other) {
            (Host::A(a), Host::A(b)) => *a == *b,
            (Host::S(a), Host::S(b)) => *a == *b,
            _ => false,
        }
    }
}

impl vstd::std_specs::cmp::PartialEqSpecImpl for Host {
    open spec fn obeys_eq_spec() -> bool {
        true
    }

    open spec fn eq_spec(&self, other: &Host) -> bool {
        same_host(*self, *other)
    }
}

impl From<SocketAddr> for Host {
    fn from(addr: SocketAddr) -> (r: Host) {
        Host::A(addr)
    }
}

impl vstd::std_specs::convert::FromSpecImpl<SocketAddr> for Host {
    open spec fn obeys_from_spec() -> bool {
        true
    }

    open spec fn from_spec(addr: SocketAddr) -> Host {
        Host::A(addr)
    }
}

impl From<(String, u16)> for Host {
    fn from(v: (String, u16)) -> (r: Host) {
        Host::S(StringAddr { host: v.0, port: v.1 })
    }
}

impl vstd::std_specs::convert::FromSpecImpl<(String, u16)> for Host {
    open spec fn obeys_from_spec() -> bool {
        true
    }

    open spec fn from_spec(v: (String, u16)) -> Host {
        Host::S(StringAddr { host: v.0, port: v.1 })
    }
}

impl<'a> From<(&'a str, u16)> for Host {
    fn from(v: (&'a str, u16)) -> (r: Host)
        ensures
            r matches Host::S(s) && s.host@ == v.0@ && s.port == v.1,
    {
        Host::S(StringAddr { host: v.0.to_owned(), port: v.1 })
    }
}

impl<'a> vstd::std_specs::convert::FromSpecImpl<(&'a str, u16)> for Host {
    /// A borrowed name is copied into a new `String`, which no spec
    /// function can build; what `from` returns is stated on `from` itself.
    open spec fn obeys_from_spec() -> bool {
        false
    }

    open spec fn from_spec(v: (&'a str, u16)) -> Host {
        Host::S(StringAddr { host: arbitrary(), port: v.1 })
    }
}

/// A query as a user states it: a protocol and a host.
#[derive(Clone, Debug)]
pub struct UserQuery<P> {
    pub protocol: P,
    pub host: Host,
}

/// Two user queries are equal when their hosts are equal and their
/// protocols compare equal (for shared protocols: are the same instance).
impl<P: vstd::std_specs::cmp::PartialEqSpec> PartialEq for UserQuery<P> {
    fn eq(&self, other: &UserQuery<P>) -> (r: bool) {
        self.host == other.host && self.protocol == other.protocol
    }
}

impl<P: vstd::std_specs::cmp::PartialEqSpec> vstd::std_specs::cmp::PartialEqSpecImpl for UserQuery<P> {
    open spec fn obeys_eq_spec() -> bool {
        P::obeys_eq_spec()
    }

    open spec fn eq_spec(&self, other: &UserQuery<P>) -> bool {
        same_host(self.host, other.host) && self.protocol.eq_spec(&other.protocol)
    }
}

/// A query as it is run: a protocol, a host, and the state of the protocol
/// for this host (for protocols that query in several rounds).
#[derive(Clone, Debug)]
pub struct Query<P> {
    pub protocol: P,
    pub host: Host,
    pub state: Option<Value>,
}

/// A query that starts with no state.
pub open spec fn spec_query_from_user<P>(v: UserQuery<P>) -> Query<P> {
    Query { protocol: v.protocol, host: v.host, state: None }
}

/// A query without its state.
pub open spec fn spec_user_query_from<P>(v: Query<P>) -> UserQuery<P> {
    UserQuery { protocol: v.protocol, host: v.host }
}

impl<P> From<UserQuery<P>> for Query<P> {
    fn from(v: UserQuery<P>) -> (r: Query<P>) {
        Query { protocol: v.protocol, host: v.host, state: None }
    }
}

impl<P> vstd::std_specs::convert::FromSpecImpl<UserQuery<P>> for Query<P> {
    open spec fn obeys_from_spec() -> bool {
        true
    }

    open spec fn from_spec(v: UserQuery<P>) -> Query<P> {
        spec_query_from_user(v)
    }
}

impl<P> From<Query<P>> for UserQuery<P> {
    fn from(v: Query<P>) -> (r: UserQuery<P>) {
        UserQuery { protocol: v.protocol, host: v.host }
    }
}

impl<P> vstd::std_specs::convert::FromSpecImpl<Query<P>> for UserQuery<P> {
    open spec fn obeys_from_spec() -> bool {
        true
    }

    open spec fn from_spec(v: Query<P>) -> UserQuery<P> {
        spec_user_query_from(v)
    }
}

/// A user's query, run and turned back into a user's query, is the same query.
pub proof fn lemma_user_query_roundtrip<P>(u: UserQuery<P>)
    ensures
        spec_user_query_from(spec_query_from_user(u)) == u,
        spec_query_from_user(u).state is None,
{
}

/// A data packet sent back by a server.
#[derive(Clone, Debug, PartialEq)]
pub struct ServerResponse<P> {
    pub host: Host,
    pub protocol: P,
    pub data: Vec<u8>,
}

/// The protocol a follow-up query runs with: the protocol that asked for
/// it, or another one.
#[derive(Clone, Debug, PartialEq)]
pub enum FollowUpQueryProtocol<P> {
    This,
    Child(P),
}

/// A query that a protocol asks for while parsing a response.
#[derive(Clone, Debug, PartialEq)]
pub struct FollowUpQuery<P> {
    pub host: Host,
    pub state: Option<Value>,
    pub protocol: FollowUpQueryProtocol<P>,
}

/// The query a follow-up stands for, given the protocol that asked for it.
pub open spec fn spec_query_from_follow_up<P>(v: (FollowUpQuery<P>, P)) -> Query<P> {
    Query {
        host: v.0.host,
        protocol: match v.0.protocol {
            FollowUpQueryProtocol::This => v.1,
            FollowUpQueryProtocol::Child(p) => p,
        },
        state: v.0.state,
    }
}

impl<P> From<(FollowUpQuery<P>, P)> for Query<P> {
    fn from(v: (FollowUpQuery<P>, P)) -> (r: Query<P>) {
        Query {
            host: v.0.host,
            protocol: match v.0.protocol {
                FollowUpQueryProtocol::This => v.1,
                FollowUpQueryProtocol::Child(p) => p,
            },
            state: v.0.state,
        }
    }
}

impl<P> vstd::std_specs::convert::FromSpecImpl<(FollowUpQuery<P>, P)> for Query<P> {
    open spec fn obeys_from_spec() -> bool {
        true
    }

    open spec fn from_spec(v: (FollowUpQuery<P>, P)) -> Query<P> {
        spec_query_from_follow_up(v)
    }
}

/// One result of parsing a response: a follow-up query, or a server.
#[derive(Clone, Debug, PartialEq)]
pub enum ParseResult<P> {
    FollowUp(FollowUpQuery<P>),
    Output(Server),
}

/// A queried server with the protocol that produced it. Two entries are
/// the same entry when they are for the same address.
#[derive(Clone, Debug)]
pub struct ServerEntry<P> {
    pub protocol: P,
    pub data: Server,
}

impl<P> ServerEntry<P> {
    pub fn new(protocol: P, data: Server) -> (r: ServerEntry<P>)
        ensures
            r.protocol == protocol,
            r.data == data,
    {
        ServerEntry { protocol, data }
    }

    pub fn into_inner(self) -> (r: (P, Server))
        ensures
            r.0 == self.protocol,
            r.1 == self.data,
    {
        (self.protocol, self.data)
    }
}

impl<P> PartialEq for ServerEntry<P> {
    fn eq(&self, other: &ServerEntry<P>) -> (r: bool) {
        self.data.addr == other.data.addr
    }
}

impl<P> vstd::std_specs::cmp::PartialEqSpecImpl for ServerEntry<P> {
    open spec fn obeys_eq_spec() -> bool {
        true
    }

    open spec fn eq_spec(&self, other: &ServerEntry<P>) -> bool {
        self.data.addr == other.data.addr
    }
}

impl<P> Eq for ServerEntry<P> {
}

} // verus!
