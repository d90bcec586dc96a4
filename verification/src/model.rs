use crate::net::SocketAddr;
use crate::value::{StrMap, Value};
use std::time::Duration;
use vstd::prelude::*;

verus! {

/// Where to send a query: a resolved socket address, or a name and a port to resolve.
#[derive(Clone, Debug, PartialEq, Eq)]
pub enum Host {
    Addr(SocketAddr),
    Named { host: String, port: u16 },
}

impl From<SocketAddr> for Host {
    fn from(addr: SocketAddr) -> (r: Host) {
        Host::Addr(addr)
    }
}

impl vstd::std_specs::convert::FromSpecImpl<SocketAddr> for Host {
    open spec fn obeys_from_spec() -> bool {
        true
    }

    open spec fn from_spec(addr: SocketAddr) -> Host {
        Host::Addr(addr)
    }
}

impl From<(String, u16)> for Host {
    fn from(v: (String, u16)) -> (r: Host) {
        Host::Named { host: v.0, port: v.1 }
    }
}

impl vstd::std_specs::convert::FromSpecImpl<(String, u16)> for Host {
    open spec fn obeys_from_spec() -> bool {
        true
    }

    open spec fn from_spec(v: (String, u16)) -> Host {
        Host::Named { host: v.0, port: v.1 }
    }
}

impl<'a> From<(&'a str, u16)> for Host {
    fn from(v: (&'a str, u16)) -> (r: Host)
        ensures
            r matches Host::Named { host: h, port: p } && h@ == v.0@ && p == v.1,
    {
        Host::Named { host: v.0.to_owned(), port: v.1 }
    }
}

impl<'a> vstd::std_specs::convert::FromSpecImpl<(&'a str, u16)> for Host {
    /// A borrowed name is copied into a new `String`, which no spec
    /// function can build; what `from` returns is stated on `from` itself.
    open spec fn obeys_from_spec() -> bool {
        false
    }

    open spec fn from_spec(v: (&'a str, u16)) -> Host {
        Host::Named { host: arbitrary(), port: v.1 }
    }
}

/// A request to query one host with one protocol.
#[derive(Clone, Debug)]
pub struct Query<P> {
    pub protocol: P,
    pub host: Host,
}

/// A queried server together with the protocol that produced it.
#[derive(Clone, Debug)]
pub struct ServerEntry<P> {
    pub protocol: P,
    pub server: Server,
}

/// Whether a server answers.
#[derive(Clone, Copy, Debug, Default, PartialEq, Eq, Structural)]
pub enum Status {
    #[default]
    Unspecified,
    Up,
    Down,
}

/// Whether `iso_country` knows `code` as an ISO 3166-1 alpha-2 code.
pub uninterp spec fn iso_country_known(code: Seq<char>) -> bool;

/// Parses `code` with `iso_country::Country::from_str` and reports whether
/// it succeeded. The crate's table of codes holds the empty string (for
/// `Country::Unspecified`), so that one always parses.
#[verifier::external_body]
fn iso_country_parses(code: &str) -> (r: bool)
    ensures
        r == iso_country_known(code@),
        code@.len() == 0 ==> r,
{
    <iso_country::Country as std::str::FromStr>::from_str(code).is_ok()
}

/// The country a server is located in, by its ISO 3166-1 alpha-2 code; the
/// empty code stands for an unspecified country.
#[derive(Debug, PartialEq, Eq)]
pub struct Country {
    code: String,
}

impl Country {
    #[verifier::type_invariant]
    closed spec fn known(&self) -> bool {
        iso_country_known(self.code@)
    }

    pub closed spec fn spec_code(&self) -> Seq<char> {
        self.code@
    }

    /// The ISO code; empty for an unspecified country.
    pub fn code(&self) -> (r: &str)
        ensures
            r@ == self.spec_code(),
            iso_country_known(r@),
    {
        proof { use_type_invariant(self); }
        self.code.as_str()
    }

    /// The unspecified country.
    pub fn unspecified() -> (r: Country)
        ensures
            r.spec_code() == Seq::<char>::empty(),
    {
        let code = String::new();
        let _known = iso_country_parses(code.as_str());
        Country { code }
    }

    /// The country with ISO code `code`, or the unspecified country when
    /// `code` is no ISO code.
    pub fn from_code(code: &str) -> (r: Country)
        ensures
            r.spec_code() == spec_country_code(code@),
    {
        if iso_country_parses(code) {
            Country { code: code.to_owned() }
        } else {
            Country::unspecified()
        }
    }
}

impl Clone for Country {
    fn clone(&self) -> (r: Self)
        ensures
            r.spec_code() == self.spec_code(),
    {
        proof { use_type_invariant(self); }
        Country { code: self.code.clone() }
    }
}

impl Default for Country {
    fn default() -> (r: Self)
        ensures
            r.spec_code() == Seq::<char>::empty(),
    {
        Country::unspecified()
    }
}

/// The code of the country that `code` is read as: `code` itself when
/// `iso_country` knows it, else the empty code of the unspecified country.
pub open spec fn spec_country_code(code: Seq<char>) -> Seq<char> {
    if iso_country_known(code) { code } else { Seq::empty() }
}

/// A country written as its code (which [`Country::code`] shows to be a
/// known code) and read back is the same country.
pub proof fn lemma_country_code_roundtrip(c: Country)
    requires
        iso_country_known(c.spec_code()),
    ensures
        spec_country_code(c.spec_code()) == c.spec_code(),
{
}

/// A player on a server.
#[derive(Clone, Debug, PartialEq)]
pub struct Player {
    pub name: String,
    pub ping: Option<i64>,
    pub info: StrMap<Value>,
}

impl Default for Player {
    /// A player with no name, no ping and no extra information.
    fn default() -> (r: Player)
        ensures
            r.name@ == Seq::<char>::empty(),
            r.ping is None,
            r.info@ == Map::<Seq<char>, crate::value::ValueView>::empty(),
    {
        let info = StrMap::new();
        assert(info@ =~= Map::<Seq<char>, crate::value::ValueView>::empty());
        Player { name: String::new(), ping: None, info }
    }
}

/// A queried game server.
#[derive(Clone, Debug, PartialEq)]
pub struct Server {
    pub addr: SocketAddr,
    pub status: Status,
    pub country: Country,
    pub rules: StrMap<Value>,
    pub name: Option<String>,
    pub need_pass: Option<bool>,
    pub mod_name: Option<String>,
    pub game_type: Option<String>,
    pub map: Option<String>,
    pub num_clients: Option<u64>,
    pub max_clients: Option<u64>,
    pub num_bots: Option<u64>,
    pub secure: Option<bool>,
    pub ping: Option<Duration>,
    pub players: Option<Vec<Player>>,
}

impl Server {
    /// Whether `self` is what [`Server::new`] makes for `addr`: no status,
    /// no country, no rules, and no optional field set.
    pub open spec fn is_blank(&self, addr: SocketAddr) -> bool {
        &&& self.addr == addr
        &&& self.status == Status::Unspecified
        &&& self.country.spec_code() == Seq::<char>::empty()
        &&& self.rules@ == Map::<Seq<char>, crate::value::ValueView>::empty()
        &&& self.name is None
        &&& self.need_pass is None
        &&& self.mod_name is None
        &&& self.game_type is None
        &&& self.map is None
        &&& self.num_clients is None
        &&& self.max_clients is None
        &&& self.num_bots is None
        &&& self.secure is None
        &&& self.ping is None
        &&& self.players is None
    }

    /// A server at `addr` of which nothing else is known yet.
    pub fn new(addr: SocketAddr) -> (r: Server)
        ensures
            r.is_blank(addr),
            r.rules.spec_len() == 0,
    {
        let rules = StrMap::new();
        assert(rules@ =~= Map::<Seq<char>, crate::value::ValueView>::empty());
        Server {
            addr,
            status: Status::Unspecified,
            country: Country::unspecified(),
            rules,
            name: None,
            need_pass: None,
            mod_name: None,
            game_type: None,
            map: None,
            num_clients: None,
            max_clients: None,
            num_bots: None,
            secure: None,
            ping: None,
            players: None,
        }
    }
}

} // verus!
