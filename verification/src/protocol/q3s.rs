use crate::errors::Error;
use crate::model::Server;
use crate::net::SocketAddr;
use crate::protocol::{Outcome, Parsed};
use crate::q3::{is_player_from, make_getstatus, opt_view, players_from, Q3Packet, Q3Request, Rule, StatusResponseData};
use crate::text::{parse_u64, spec_parse_u64};
use crate::value::{string_rules, StrMap, ValueView};
use vstd::prelude::*;

verus! {

/// Which rule names the server fields are read from; a rule with no name
/// is not read.
#[derive(Clone, Debug, PartialEq, Eq)]
pub struct RuleMapping {
    pub secure: Option<String>,
    pub max_clients: Option<String>,
    pub game_type: Option<String>,
    pub mod_name: Option<String>,
    pub map: Option<String>,
    pub need_pass: Option<String>,
    pub server_name: Option<String>,
}

impl RuleMapping {
    pub open spec fn spec_get(&self, rule: Rule) -> Option<String> {
        match rule {
            Rule::Secure => self.secure,
            Rule::MaxClients => self.max_clients,
            Rule::GameType => self.game_type,
            Rule::Mod => self.mod_name,
            Rule::MapName => self.map,
            Rule::NeedPass => self.need_pass,
            Rule::ServerName => self.server_name,
        }
    }

    /// The name of `rule`.
    pub fn get(&self, rule: Rule) -> (r: Option<&String>)
        ensures
            match (r, self.spec_get(rule)) {
                (Some(a), Some(b)) => a@ == b@,
                (None, None) => true,
                _ => false,
            },
    {
        match rule {
            Rule::Secure => self.secure.as_ref(),
            Rule::MaxClients => self.max_clients.as_ref(),
            Rule::GameType => self.game_type.as_ref(),
            Rule::Mod => self.mod_name.as_ref(),
            Rule::MapName => self.map.as_ref(),
            Rule::NeedPass => self.need_pass.as_ref(),
            Rule::ServerName => self.server_name.as_ref(),
        }
    }

    /// Whether these are the standard Quake 3 rule names.
    pub open spec fn is_default(&self) -> bool {
        &&& opt_view(self.secure) == Some("sv_punkbuster"@)
        &&& opt_view(self.max_clients) == Some("sv_maxclients"@)
        &&& opt_view(self.mod_name) == Some("game"@)
        &&& opt_view(self.game_type) == Some("g_gametype"@)
        &&& opt_view(self.map) == Some("mapname"@)
        &&& opt_view(self.need_pass) == Some("g_needpass"@)
        &&& opt_view(self.server_name) == Some("sv_hostname"@)
    }

    /// The standard Quake 3 rule names.
    pub fn default_names() -> (r: RuleMapping)
        ensures
            r.is_default(),
    {
        RuleMapping {
            secure: Some("sv_punkbuster".to_owned()),
            max_clients: Some("sv_maxclients".to_owned()),
            mod_name: Some("game".to_owned()),
            game_type: Some("g_gametype".to_owned()),
            map: Some("mapname".to_owned()),
            need_pass: Some("g_needpass".to_owned()),
            server_name: Some("sv_hostname".to_owned()),
        }
    }
}

/// Removing the rule that `rule` names: `None` when `rule` has no name;
/// else the value removed (if the rules held the name), and the rules
/// without the name.
pub open spec fn spec_remove(mapping: RuleMapping, rules: Map<Seq<char>, Seq<char>>, rule: Rule) -> (Option<Option<Seq<char>>>, Map<Seq<char>, Seq<char>>) {
    match mapping.spec_get(rule) {
        Some(n) => (
            Some(if rules.contains_key(n@) { Some(rules[n@]) } else { None }),
            rules.remove(n@),
        ),
        None => (None, rules),
    }
}

/// A field after its rule was removed: untouched when the rule has no
/// name, else what the removed value makes of it.
pub open spec fn set_from<T>(before: Option<T>, removed: Option<Option<T>>) -> Option<T> {
    match removed {
        Some(v) => v,
        None => before,
    }
}

pub open spec fn opt_flag(v: Option<Seq<char>>) -> Option<bool> {
    match v {
        Some(s) => Some(s == "1"@),
        None => None,
    }
}

pub open spec fn opt_number(v: Option<Seq<char>>) -> Option<u64> {
    match v {
        Some(s) => spec_parse_u64(s),
        None => None,
    }
}

pub open spec fn map_opt<A, B>(o: Option<Option<A>>, f: spec_fn(Option<A>) -> Option<B>) -> Option<Option<B>> {
    match o {
        Some(v) => Some(f(v)),
        None => None,
    }
}

/// Whether `new` is `old` with the status response `pkt` read through
/// `mapping`: each named rule is removed from the rules and sets its field
/// (server name, mod, game type and map as text; the secure and password
/// flags as whether the value is `"1"`; the client limit as a number); the
/// players are listed, and the rules that are left become the rules.
pub open spec fn is_read(old: Server, new: Server, pkt: StatusResponseData, mapping: RuleMapping) -> bool {
    let (name, r1) = spec_remove(mapping, pkt.info@, Rule::ServerName);
    let (mod_name, r2) = spec_remove(mapping, r1, Rule::Mod);
    let (game_type, r3) = spec_remove(mapping, r2, Rule::GameType);
    let (map, r4) = spec_remove(mapping, r3, Rule::MapName);
    let (secure, r5) = spec_remove(mapping, r4, Rule::Secure);
    let (need_pass, r6) = spec_remove(mapping, r5, Rule::NeedPass);
    let (max_clients, r7) = spec_remove(mapping, r6, Rule::MaxClients);
    &&& opt_view(new.name) == set_from(opt_view(old.name), name)
    &&& opt_view(new.mod_name) == set_from(opt_view(old.mod_name), mod_name)
    &&& opt_view(new.game_type) == set_from(opt_view(old.game_type), game_type)
    &&& opt_view(new.map) == set_from(opt_view(old.map), map)
    &&& new.secure == set_from(old.secure, map_opt(secure, |v: Option<Seq<char>>| opt_flag(v)))
    &&& new.need_pass == set_from(old.need_pass, map_opt(need_pass, |v: Option<Seq<char>>| opt_flag(v)))
    &&& new.max_clients == set_from(old.max_clients, map_opt(max_clients, |v: Option<Seq<char>>| opt_number(v)))
    &&& new.num_clients == Some(pkt.players@.len() as u64)
    &&& new.players matches Some(ps) && ps@.len() == pkt.players@.len()
        && forall|i: int| 0 <= i < ps@.len() ==> is_player_from(#[trigger] ps@[i], pkt.players@[i])
    &&& new.rules@ == r7.map_values(|v: Seq<char>| ValueView::Str(v))
    &&& new.addr == old.addr
    &&& new.status == old.status
    &&& new.country == old.country
    &&& new.num_bots == old.num_bots
    &&& new.ping == old.ping
}

/// Whether `k` is the name that `mapping` gives some rule.
pub open spec fn is_rule_name(mapping: RuleMapping, k: Seq<char>) -> bool {
    exists|r: Rule| #[trigger] mapping.spec_get(r) matches Some(n) && n@ == k
}

/// Reading a status response consumes the named rules: no rule that the
/// mapping names is left among the server's rules, and every other rule of
/// the response is kept, as text, with its value.
pub proof fn lemma_read_consumes_named_rules(old: Server, new: Server, pkt: StatusResponseData, mapping: RuleMapping, k: Seq<char>)
    requires
        is_read(old, new, pkt, mapping),
    ensures
        is_rule_name(mapping, k) ==> !new.rules@.contains_key(k),
        !is_rule_name(mapping, k) ==> new.rules@.contains_key(k) == pkt.info@.contains_key(k),
        !is_rule_name(mapping, k) && pkt.info@.contains_key(k) ==> new.rules@[k] == ValueView::Str(pkt.info@[k]),
{
    let (_, r1) = spec_remove(mapping, pkt.info@, Rule::ServerName);
    let (_, r2) = spec_remove(mapping, r1, Rule::Mod);
    let (_, r3) = spec_remove(mapping, r2, Rule::GameType);
    let (_, r4) = spec_remove(mapping, r3, Rule::MapName);
    let (_, r5) = spec_remove(mapping, r4, Rule::Secure);
    let (_, r6) = spec_remove(mapping, r5, Rule::NeedPass);
    let (_, r7) = spec_remove(mapping, r6, Rule::MaxClients);
    if is_rule_name(mapping, k) {
        let r = choose|r: Rule| #[trigger] mapping.spec_get(r) matches Some(n) && n@ == k;
        assert(!r7.contains_key(k));
    } else {
        assert(mapping.spec_get(Rule::ServerName) matches Some(n) ==> n@ != k);
        assert(mapping.spec_get(Rule::Mod) matches Some(n) ==> n@ != k);
        assert(mapping.spec_get(Rule::GameType) matches Some(n) ==> n@ != k);
        assert(mapping.spec_get(Rule::MapName) matches Some(n) ==> n@ != k);
        assert(mapping.spec_get(Rule::Secure) matches Some(n) ==> n@ != k);
        assert(mapping.spec_get(Rule::NeedPass) matches Some(n) ==> n@ != k);
        assert(mapping.spec_get(Rule::MaxClients) matches Some(n) ==> n@ != k);
        assert(r7.contains_key(k) == pkt.info@.contains_key(k));
        assert(pkt.info@.contains_key(k) ==> r7[k] == pkt.info@[k]);
    }
}

/// After a status response is read, the client count is the number of
/// players listed.
pub proof fn lemma_read_counts_players(old: Server, new: Server, pkt: StatusResponseData, mapping: RuleMapping)
    requires
        is_read(old, new, pkt, mapping),
    ensures
        new.players matches Some(ps) && new.num_clients == Some(ps@.len() as u64),
{
}

/// Whether `mapping` gives different rules different names.
pub open spec fn mapping_distinct(m: RuleMapping) -> bool {
    forall|a: Rule, b: Rule|
        #![trigger m.spec_get(a), m.spec_get(b)]
        a != b && m.spec_get(a) is Some && m.spec_get(b) is Some ==> m.spec_get(a).unwrap()@ != m.spec_get(b).unwrap()@
}

/// The secure and password flags are read from the response's text: when
/// the flag's rule is named and present, the flag is on exactly when the
/// value is `"1"` (so `"0"` turns it off), and it is unset when the rule
/// is missing; an unnamed flag keeps its value.
pub proof fn lemma_read_flags(old: Server, new: Server, pkt: StatusResponseData, mapping: RuleMapping)
    requires
        is_read(old, new, pkt, mapping),
        mapping_distinct(mapping),
    ensures
        mapping.secure matches Some(n) ==> new.secure == (if pkt.info@.contains_key(n@) { Some(pkt.info@[n@] == "1"@) } else { None }),
        mapping.need_pass matches Some(n) ==> new.need_pass == (if pkt.info@.contains_key(n@) { Some(pkt.info@[n@] == "1"@) } else { None }),
        mapping.secure matches Some(n) ==> (pkt.info@.contains_key(n@) && pkt.info@[n@] == "0"@ ==> new.secure == Some(false)),
        mapping.need_pass matches Some(n) ==> (pkt.info@.contains_key(n@) && pkt.info@[n@] == "0"@ ==> new.need_pass == Some(false)),
        mapping.secure matches Some(n) ==> (new.secure == Some(true) ==> pkt.info@.contains_key(n@) && pkt.info@[n@] == "1"@),
        mapping.need_pass matches Some(n) ==> (new.need_pass == Some(true) ==> pkt.info@.contains_key(n@) && pkt.info@[n@] == "1"@),
        mapping.secure is None ==> new.secure == old.secure,
        mapping.need_pass is None ==> new.need_pass == old.need_pass,
{
    reveal_strlit("0");
    reveal_strlit("1");
    assert("0"@[0] != "1"@[0]);
    assert("0"@ != "1"@);
    let info = pkt.info@;
    let (_, r1) = spec_remove(mapping, info, Rule::ServerName);
    let (_, r2) = spec_remove(mapping, r1, Rule::Mod);
    let (_, r3) = spec_remove(mapping, r2, Rule::GameType);
    let (_, r4) = spec_remove(mapping, r3, Rule::MapName);
    let (_, r5) = spec_remove(mapping, r4, Rule::Secure);
    assert(mapping.spec_get(Rule::Secure) == mapping.secure);
    assert(mapping.spec_get(Rule::NeedPass) == mapping.need_pass);
    if let Some(n) = mapping.secure {
        assert(mapping.spec_get(Rule::ServerName) matches Some(m) ==> m@ != n@);
        assert(mapping.spec_get(Rule::Mod) matches Some(m) ==> m@ != n@);
        assert(mapping.spec_get(Rule::GameType) matches Some(m) ==> m@ != n@);
        assert(mapping.spec_get(Rule::MapName) matches Some(m) ==> m@ != n@);
        assert(r4.contains_key(n@) == info.contains_key(n@));
        assert(info.contains_key(n@) ==> r4[n@] == info[n@]);
    }
    if let Some(n) = mapping.need_pass {
        assert(mapping.spec_get(Rule::ServerName) matches Some(m) ==> m@ != n@);
        assert(mapping.spec_get(Rule::Mod) matches Some(m) ==> m@ != n@);
        assert(mapping.spec_get(Rule::GameType) matches Some(m) ==> m@ != n@);
        assert(mapping.spec_get(Rule::MapName) matches Some(m) ==> m@ != n@);
        assert(mapping.spec_get(Rule::Secure) matches Some(m) ==> m@ != n@);
        assert(r5.contains_key(n@) == info.contains_key(n@));
        assert(info.contains_key(n@) ==> r5[n@] == info[n@]);
    }
}

/// The text fields and the client limit are read from the response: when
/// a field's rule is named, the field is the rule's text (for the client
/// limit, the text read as a `u64`), or unset when the response lacks the
/// rule; an unnamed field keeps its value.
pub proof fn lemma_read_fields(old: Server, new: Server, pkt: StatusResponseData, mapping: RuleMapping)
    requires
        is_read(old, new, pkt, mapping),
        mapping_distinct(mapping),
    ensures
        mapping.server_name matches Some(n) ==> opt_view(new.name) == (if pkt.info@.contains_key(n@) { Some(pkt.info@[n@]) } else { None }),
        mapping.server_name is None ==> opt_view(new.name) == opt_view(old.name),
        mapping.mod_name matches Some(n) ==> opt_view(new.mod_name) == (if pkt.info@.contains_key(n@) { Some(pkt.info@[n@]) } else { None }),
        mapping.mod_name is None ==> opt_view(new.mod_name) == opt_view(old.mod_name),
        mapping.game_type matches Some(n) ==> opt_view(new.game_type) == (if pkt.info@.contains_key(n@) { Some(pkt.info@[n@]) } else { None }),
        mapping.game_type is None ==> opt_view(new.game_type) == opt_view(old.game_type),
        mapping.map matches Some(n) ==> opt_view(new.map) == (if pkt.info@.contains_key(n@) { Some(pkt.info@[n@]) } else { None }),
        mapping.map is None ==> opt_view(new.map) == opt_view(old.map),
        mapping.max_clients matches Some(n) ==> new.max_clients == (if pkt.info@.contains_key(n@) { spec_parse_u64(pkt.info@[n@]) } else { None }),
        mapping.max_clients is None ==> new.max_clients == old.max_clients,
{
    let info = pkt.info@;
    let (_, r1) = spec_remove(mapping, info, Rule::ServerName);
    let (_, r2) = spec_remove(mapping, r1, Rule::Mod);
    let (_, r3) = spec_remove(mapping, r2, Rule::GameType);
    let (_, r4) = spec_remove(mapping, r3, Rule::MapName);
    let (_, r5) = spec_remove(mapping, r4, Rule::Secure);
    let (_, r6) = spec_remove(mapping, r5, Rule::NeedPass);
    if let Some(n) = mapping.server_name {
        assert(mapping.spec_get(Rule::ServerName) == mapping.server_name);
        assert(info.contains_key(n@) == info.contains_key(n@));
        assert(info.contains_key(n@) ==> info[n@] == info[n@]);
    }
    if let Some(n) = mapping.mod_name {
        assert(mapping.spec_get(Rule::Mod) == mapping.mod_name);
        assert(mapping.spec_get(Rule::ServerName) matches Some(m) ==> m@ != n@);
        assert(r1.contains_key(n@) == info.contains_key(n@));
        assert(info.contains_key(n@) ==> r1[n@] == info[n@]);
    }
    if let Some(n) = mapping.game_type {
        assert(mapping.spec_get(Rule::GameType) == mapping.game_type);
        assert(mapping.spec_get(Rule::ServerName) matches Some(m) ==> m@ != n@);
        assert(mapping.spec_get(Rule::Mod) matches Some(m) ==> m@ != n@);
        assert(r2.contains_key(n@) == info.contains_key(n@));
        assert(info.contains_key(n@) ==> r2[n@] == info[n@]);
    }
    if let Some(n) = mapping.map {
        assert(mapping.spec_get(Rule::MapName) == mapping.map);
        assert(mapping.spec_get(Rule::ServerName) matches Some(m) ==> m@ != n@);
        assert(mapping.spec_get(Rule::Mod) matches Some(m) ==> m@ != n@);
        assert(mapping.spec_get(Rule::GameType) matches Some(m) ==> m@ != n@);
        assert(r3.contains_key(n@) == info.contains_key(n@));
        assert(info.contains_key(n@) ==> r3[n@] == info[n@]);
    }
    if let Some(n) = mapping.max_clients {
        assert(mapping.spec_get(Rule::MaxClients) == mapping.max_clients);
        assert(mapping.spec_get(Rule::ServerName) matches Some(m) ==> m@ != n@);
        assert(mapping.spec_get(Rule::Mod) matches Some(m) ==> m@ != n@);
        assert(mapping.spec_get(Rule::GameType) matches Some(m) ==> m@ != n@);
        assert(mapping.spec_get(Rule::MapName) matches Some(m) ==> m@ != n@);
        assert(mapping.spec_get(Rule::Secure) matches Some(m) ==> m@ != n@);
        assert(mapping.spec_get(Rule::NeedPass) matches Some(m) ==> m@ != n@);
        assert(r6.contains_key(n@) == info.contains_key(n@));
        assert(info.contains_key(n@) ==> r6[n@] == info[n@]);
    }
}

fn remove_rule(rules: &mut StrMap<String>, mapping: &RuleMapping, rule: Rule) -> (r: Option<Option<String>>)
    ensures
        (match r {
            Some(v) => Some(opt_view(v)),
            None => None,
        }, final(rules)@) == spec_remove(*mapping, old(rules)@, rule),
{
    match mapping.get(rule) {
        Some(name) => {
            let ghost before = rules@;
            let v = rules.remove(name.as_str());
            assert(rules@ =~= before.remove(name@));
            Some(v)
        }
        None => None,
    }
}

fn is_one(v: &Option<String>) -> (r: Option<bool>)
    ensures
        r == opt_flag(opt_view(*v)),
{
    match v {
        Some(s) => {
            let one = "1".to_owned();
            Some(*s == one)
        }
        None => None,
    }
}

/// Reads a status response into `srv` through the rule names `rule_mapping`.
pub fn parse_q3a_server(srv: &mut Server, pkt: StatusResponseData, rule_mapping: &RuleMapping) -> (r: Result<(), Error>)
    ensures
        r is Ok,
        is_read(*old(srv), *final(srv), pkt, *rule_mapping),
{
    let StatusResponseData { info, players } = pkt;
    let mut rules = info;
    if let Some(v) = remove_rule(&mut rules, rule_mapping, Rule::ServerName) {
        srv.name = v;
    }
    if let Some(v) = remove_rule(&mut rules, rule_mapping, Rule::Mod) {
        srv.mod_name = v;
    }
    if let Some(v) = remove_rule(&mut rules, rule_mapping, Rule::GameType) {
        srv.game_type = v;
    }
    if let Some(v) = remove_rule(&mut rules, rule_mapping, Rule::MapName) {
        srv.map = v;
    }
    if let Some(v) = remove_rule(&mut rules, rule_mapping, Rule::Secure) {
        srv.secure = is_one(&v);
    }
    if let Some(v) = remove_rule(&mut rules, rule_mapping, Rule::NeedPass) {
        srv.need_pass = is_one(&v);
    }
    if let Some(v) = remove_rule(&mut rules, rule_mapping, Rule::MaxClients) {
        srv.max_clients = match v {
            Some(s) => parse_u64(s.as_str()),
            None => None,
        };
    }
    srv.num_clients = Some(players.len() as u64);
    srv.players = Some(players_from(players));
    srv.rules = string_rules(&rules);
    Ok(())
}

/// A filter servers pass through before they are reported; it may drop
/// them (useful when a master is shared by several games).
#[derive(Clone)]
pub struct ServerFilter<F>(pub F);

/// Keeps every server.
pub fn keep_all(s: Server) -> (r: Option<Server>)
    ensures
        r == Some(s),
{
    Some(s)
}

/// The Quake 3 server protocol.
pub struct Q3s<F> {
    /// Mapping between rule names and server fields.
    pub rule_names: RuleMapping,
    /// Filter for sorting out servers if the master is shared.
    pub server_filter: ServerFilter<F>,
}

/// Whether `s` is the server at `addr` that the status response `pkt`
/// describes through `mapping`.
pub open spec fn is_q3s_server(s: Server, addr: SocketAddr, pkt: StatusResponseData, mapping: RuleMapping) -> bool {
    exists|b: Server| b.is_blank(addr) && is_read(b, s, pkt, mapping)
}

impl<F: Fn(Server) -> Option<Server>> Q3s<F> {
    /// The server protocol with the standard rule names and `filter`.
    pub fn with_filter(filter: F) -> (r: Q3s<F>)
        ensures
            r.rule_names.is_default(),
            r.server_filter.0 == filter,
    {
        Q3s { rule_names: RuleMapping::default_names(), server_filter: ServerFilter(filter) }
    }

    /// The `getstatus` request.
    pub fn make_request(&self) -> (r: Q3Request)
        ensures
            r matches Q3Request::GetStatus { challenge } && challenge@ == "RGS"@,
    {
        make_getstatus()
    }

    /// Parses one datagram from `addr`, which decoded to `packet` (`None`
    /// when it does not decode): a status response becomes the server the
    /// filter lets through, if it lets it through. No more datagrams follow.
    pub fn parse_response<P>(&self, addr: SocketAddr, packet: Option<Q3Packet>) -> (r: Result<Parsed<P>, Error>)
        requires
            forall|s: Server| call_requires(self.server_filter.0, (s,)),
        ensures
            match packet {
                None => r == Err::<Parsed<P>, Error>(Error::DataParseError),
                Some(Q3Packet::StatusResponse(pkt)) => r matches Ok(parsed) && !parsed.expect_more
                    && exists|s: Server, o: Option<Server>| #![trigger is_q3s_server(s, addr, pkt, self.rule_names), call_ensures(self.server_filter.0, (s,), o)]
                        is_q3s_server(s, addr, pkt, self.rule_names)
                        && call_ensures(self.server_filter.0, (s,), o)
                        && match o {
                            Some(t) => parsed.outcomes@.len() == 1 && parsed.outcomes@[0] == Outcome::<P>::Server(t),
                            None => parsed.outcomes@.len() == 0,
                        },
                Some(_) => r == Err::<Parsed<P>, Error>(Error::InvalidPacketError),
            },
    {
        match packet {
            None => Err(Error::DataParseError),
            Some(Q3Packet::StatusResponse(pkt)) => {
                let ghost p = pkt;
                let mut server = Server::new(addr);
                let ghost blank = server;
                let _ = parse_q3a_server(&mut server, pkt, &self.rule_names);
                let ghost s = server;
                let o = (self.server_filter.0)(server);
                let ghost go = o;
                let mut outcomes: Vec<Outcome<P>> = Vec::new();
                match o {
                    Some(t) => outcomes.push(Outcome::Server(t)),
                    None => {}
                }
                assert(is_q3s_server(s, addr, p, self.rule_names));
                assert(call_ensures(self.server_filter.0, (s,), go));
                Ok(Parsed { outcomes, expect_more: false })
            }
            Some(_) => Err(Error::InvalidPacketError),
        }
    }
}

} // verus!
