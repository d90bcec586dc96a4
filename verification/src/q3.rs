use crate::errors::Error;
use crate::model::{Player, Server};
use crate::net::SocketAddr;
use crate::text::{parse_u64, spec_parse_u64};
use crate::value::{StrMap, Value, ValueView};
use bimap::BiMap;
use vstd::prelude::*;

verus! {

/// Server metadata fields that map to Quake 3 rule names.
#[derive(Clone, Copy, Debug, PartialEq, Eq, Hash, Structural)]
pub enum Rule {
    Secure,
    MaxClients,
    GameType,
    Mod,
    MapName,
    NeedPass,
    ServerName,
}

#[verifier::external_type_specification]
#[verifier::external_body]
#[verifier::reject_recursive_types(L)]
#[verifier::reject_recursive_types(R)]
#[verifier::reject_recursive_types(LS)]
#[verifier::reject_recursive_types(RS)]
pub struct ExBiHashMap<L, R, LS, RS>(bimap::BiHashMap<L, R, LS, RS>);

/// The pairs a rule-name bimap holds, as a map from rule to name.
pub uninterp spec fn rule_name_pairs(m: BiMap<Rule, String>) -> Map<Rule, Seq<char>>;

/// Whether no two rules share a name.
pub open spec fn names_distinct(m: Map<Rule, Seq<char>>) -> bool {
    forall|a: Rule, b: Rule|
        #![trigger m[a], m[b]]
        m.contains_key(a) && m.contains_key(b) && m[a] == m[b] ==> a == b
}

/// Whether the name of `rule` (if it has one) is the name of no other rule.
pub open spec fn name_is_unique(m: Map<Rule, Seq<char>>, rule: Rule) -> bool {
    m.contains_key(rule) ==> forall|k: Rule| #[trigger] m.contains_key(k) && m[k] == m[rule] ==> k == rule
}

/// The pairs after `BiMap::insert(left, right)`: any pair with the same
/// left or the same right value is dropped, then the new pair is added.
pub open spec fn spec_bimap_insert(m: Map<Rule, Seq<char>>, left: Rule, right: Seq<char>) -> Map<Rule, Seq<char>> {
    Map::new(
        |k: Rule| k == left || (m.contains_key(k) && m[k] != right),
        |k: Rule| if k == left { right } else { m[k] },
    )
}

/// `BiMap::new`: an empty bimap.
#[verifier::external_body]
fn bimap_new() -> (r: BiMap<Rule, String>)
    ensures
        rule_name_pairs(r).dom().is_empty(),
        names_distinct(rule_name_pairs(r)),
{
    BiMap::new()
}

/// `BiMap::insert` on `m`, which is handed back: adds the pair `(left, right)`, first dropping any pair
/// that has `left` or `right` in it (what the call returns about the
/// dropped pairs is not kept). `Rule`'s `Eq` and `Hash` are derived. A
/// bimap pairs each right value with one left value only, so no two rules
/// share a name.
#[verifier::external_body]
fn bimap_insert(m: BiMap<Rule, String>, left: Rule, right: String) -> (r: BiMap<Rule, String>)
    ensures
        rule_name_pairs(r) == spec_bimap_insert(rule_name_pairs(m), left, right@),
        names_distinct(rule_name_pairs(r)),
{
    let mut m = m;
    m.insert(left, right);
    m
}

/// `BiMap::get_by_left`: the name paired with `left`; a bimap pairs that
/// name with `left` alone.
#[verifier::external_body]
fn bimap_get_by_left(m: &BiMap<Rule, String>, left: Rule) -> (r: Option<&String>)
    ensures
        r is Some <==> rule_name_pairs(*m).contains_key(left),
        r matches Some(s) ==> s@ == rule_name_pairs(*m)[left],
        r matches Some(s) ==> forall|k: Rule| #[trigger] rule_name_pairs(*m).contains_key(k) && rule_name_pairs(*m)[k] == s@ ==> k == left,
{
    m.get_by_left(&left)
}

/// The standard Quake 3 rule names.
pub open spec fn spec_default_rule_names() -> Map<Rule, Seq<char>> {
    Map::<Rule, Seq<char>>::empty()
        .insert(Rule::Secure, "sv_punkbuster"@)
        .insert(Rule::MaxClients, "sv_maxclients"@)
        .insert(Rule::Mod, "game"@)
        .insert(Rule::GameType, "g_gametype"@)
        .insert(Rule::MapName, "mapname"@)
        .insert(Rule::NeedPass, "g_needpass"@)
        .insert(Rule::ServerName, "sv_hostname"@)
}

/// The standard Quake 3 rule-name mapping.
pub fn default_rule_names() -> (r: BiMap<Rule, String>)
    ensures
        rule_name_pairs(r) == spec_default_rule_names(),
{
    proof {
        reveal_strlit("sv_punkbuster");
        reveal_strlit("sv_maxclients");
        reveal_strlit("game");
        reveal_strlit("g_gametype");
        reveal_strlit("mapname");
        reveal_strlit("g_needpass");
        reveal_strlit("sv_hostname");
    }
    let m = bimap_new();
    let ghost names = seq!["sv_punkbuster"@, "sv_maxclients"@, "game"@, "g_gametype"@, "mapname"@, "g_needpass"@, "sv_hostname"@];
    proof {
        assert(names[0][3] != names[1][3]);
        assert(names[3][2] != names[5][2]);
        assert(forall|i: int, j: int| 0 <= i < j < 7 ==> names[i] != names[j]) by {
            assert forall|i: int, j: int| 0 <= i < j < 7 implies names[i] != names[j] by {
                if names[i].len() == names[j].len() {
                    assert((i == 0 && j == 1) || (i == 3 && j == 5));
                }
            }
        }
        assert(rule_name_pairs(m) =~= Map::<Rule, Seq<char>>::empty());
    }
    let ghost m0 = rule_name_pairs(m);
    let m = bimap_insert(m, Rule::Secure, "sv_punkbuster".to_owned());
    let ghost m1 = m0.insert(Rule::Secure, names[0]);
    assert(rule_name_pairs(m) =~= m1);
    let m = bimap_insert(m, Rule::MaxClients, "sv_maxclients".to_owned());
    let ghost m2 = m1.insert(Rule::MaxClients, names[1]);
    assert(rule_name_pairs(m) =~= m2);
    let m = bimap_insert(m, Rule::Mod, "game".to_owned());
    let ghost m3 = m2.insert(Rule::Mod, names[2]);
    assert(rule_name_pairs(m) =~= m3);
    let m = bimap_insert(m, Rule::GameType, "g_gametype".to_owned());
    let ghost m4 = m3.insert(Rule::GameType, names[3]);
    assert(rule_name_pairs(m) =~= m4);
    let m = bimap_insert(m, Rule::MapName, "mapname".to_owned());
    let ghost m5 = m4.insert(Rule::MapName, names[4]);
    assert(rule_name_pairs(m) =~= m5);
    let m = bimap_insert(m, Rule::NeedPass, "g_needpass".to_owned());
    let ghost m6 = m5.insert(Rule::NeedPass, names[5]);
    assert(rule_name_pairs(m) =~= m6);
    let m = bimap_insert(m, Rule::ServerName, "sv_hostname".to_owned());
    let ghost m7 = m6.insert(Rule::ServerName, names[6]);
    assert(rule_name_pairs(m) =~= m7);
    assert(m7 =~= spec_default_rule_names());
    m
}

/// A player as a Quake 3 status response lists it.
#[derive(Debug, PartialEq, Eq)]
pub struct Q3Player {
    pub score: i32,
    pub ping: u32,
    pub name: String,
}

impl Clone for Q3Player {
    fn clone(&self) -> (r: Self)
        ensures
            r == *self,
    {
        Q3Player { score: self.score, ping: self.ping, name: self.name.clone() }
    }
}

/// A decoded `statusResponse`: the server's rules and its players.
#[derive(Clone, Debug, PartialEq, Eq)]
pub struct StatusResponseData {
    pub info: StrMap<String>,
    pub players: Vec<Q3Player>,
}

/// A decoded `getserversResponse`: the servers a master lists, and whether
/// this datagram ends the list.
#[derive(Clone, Debug, PartialEq, Eq)]
pub struct GetServersResponseData {
    pub data: Vec<SocketAddr>,
    pub eot: bool,
}

/// A decoded Quake 3 packet, as far as this library reads it.
#[derive(Clone, Debug, PartialEq, Eq)]
pub enum Q3Packet {
    StatusResponse(StatusResponseData),
    GetServersResponse(GetServersResponseData),
    /// Any other packet type (a request, an info response, ...).
    Other,
}

/// The extra information kept for a player: the score.
pub open spec fn spec_score_info(score: i32) -> Map<Seq<char>, ValueView> {
    Map::<Seq<char>, ValueView>::empty().insert("score"@, ValueView::Int(score as int))
}

/// Whether `p` is the player `v` of a status response.
pub open spec fn is_player_from(p: Player, v: Q3Player) -> bool {
    &&& p.name == v.name
    &&& p.ping == Some(v.ping as i64)
    &&& p.info@ == spec_score_info(v.score)
}

impl From<Q3Player> for Player {
    fn from(v: Q3Player) -> (r: Player)
        ensures
            is_player_from(r, v),
    {
        let mut info = StrMap::new();
        info.insert("score".to_owned(), Value::Int(v.score as i64));
        assert(info@ =~= spec_score_info(v.score));
        Player { name: v.name, ping: Some(v.ping as i64), info }
    }
}

impl vstd::std_specs::convert::FromSpecImpl<Q3Player> for Player {
    /// The extra information is a new map, which no spec function can
    /// build; what `from` returns is stated on `from` itself.
    open spec fn obeys_from_spec() -> bool {
        false
    }

    open spec fn from_spec(v: Q3Player) -> Player {
        Player { name: v.name, ping: Some(v.ping as i64), info: arbitrary() }
    }
}

/// The players of a status response, converted one by one.
pub fn players_from(players: Vec<Q3Player>) -> (r: Vec<Player>)
    ensures
        r@.len() == players@.len(),
        forall|i: int| 0 <= i < r@.len() ==> is_player_from(#[trigger] r@[i], players@[i]),
{
    let mut out: Vec<Player> = Vec::new();
    let mut i: usize = 0;
    while i < players.len()
        invariant
            0 <= i <= players@.len(),
            out@.len() == i,
            forall|j: int| 0 <= j < i ==> is_player_from(#[trigger] out@[j], players@[j]),
        decreases players.len() - i,
    {
        let p = Player::from(players[i].clone());
        out.push(p);
        i = i + 1;
    }
    out
}

/// The value of the rule that `rule` names, if the names pair `rule` with
/// a name and the rules hold that name.
pub open spec fn spec_found(names: Map<Rule, Seq<char>>, rules: Map<Seq<char>, Seq<char>>, rule: Rule) -> Option<Seq<char>> {
    if names.contains_key(rule) && rules.contains_key(names[rule]) {
        Some(rules[names[rule]])
    } else {
        None
    }
}

/// A rule's value read as a flag: `"0"` is off, `"1"` is on, anything else
/// is no flag.
pub open spec fn spec_flag(v: Seq<char>) -> Option<bool> {
    if v == "0"@ {
        Some(false)
    } else if v == "1"@ {
        Some(true)
    } else {
        None
    }
}

/// Taking a rule as text: the value found (if any), and the rules without it.
pub open spec fn spec_take_text(names: Map<Rule, Seq<char>>, rules: Map<Seq<char>, Seq<char>>, rule: Rule) -> (Option<Seq<char>>, Map<Seq<char>, Seq<char>>) {
    match spec_found(names, rules, rule) {
        Some(v) => (Some(v), rules.remove(names[rule])),
        None => (None, rules),
    }
}

/// Taking a rule as a flag: only a value that is a flag is taken.
pub open spec fn spec_take_flag(names: Map<Rule, Seq<char>>, rules: Map<Seq<char>, Seq<char>>, rule: Rule) -> (Option<bool>, Map<Seq<char>, Seq<char>>) {
    match spec_found(names, rules, rule) {
        Some(v) => match spec_flag(v) {
            Some(b) => (Some(b), rules.remove(names[rule])),
            None => (None, rules),
        },
        None => (None, rules),
    }
}

/// Taking a rule as a number: only a value that parses as a `u64` is taken.
pub open spec fn spec_take_number(names: Map<Rule, Seq<char>>, rules: Map<Seq<char>, Seq<char>>, rule: Rule) -> (Option<u64>, Map<Seq<char>, Seq<char>>) {
    match spec_found(names, rules, rule) {
        Some(v) => match spec_parse_u64(v) {
            Some(n) => (Some(n), rules.remove(names[rule])),
            None => (None, rules),
        },
        None => (None, rules),
    }
}

/// What the rule mapping takes out of a status response's rules.
pub struct SpecApplied {
    pub name: Option<Seq<char>>,
    pub mod_name: Option<Seq<char>>,
    pub game_type: Option<Seq<char>>,
    pub map: Option<Seq<char>>,
    pub secure: Option<bool>,
    pub need_pass: Option<bool>,
    pub max_clients: Option<u64>,
    pub rest: Map<Seq<char>, Seq<char>>,
}

/// The rules are taken in turn: server name, mod, game type and map as
/// text, the secure and password flags, and the client limit as a number.
/// What no field takes stays a rule.
pub open spec fn spec_apply_rules(names: Map<Rule, Seq<char>>, info: Map<Seq<char>, Seq<char>>) -> SpecApplied {
    let (name, r1) = spec_take_text(names, info, Rule::ServerName);
    let (mod_name, r2) = spec_take_text(names, r1, Rule::Mod);
    let (game_type, r3) = spec_take_text(names, r2, Rule::GameType);
    let (map, r4) = spec_take_text(names, r3, Rule::MapName);
    let (secure, r5) = spec_take_flag(names, r4, Rule::Secure);
    let (need_pass, r6) = spec_take_flag(names, r5, Rule::NeedPass);
    let (max_clients, r7) = spec_take_number(names, r6, Rule::MaxClients);
    SpecApplied { name, mod_name, game_type, map, secure, need_pass, max_clients, rest: r7 }
}

/// The view of an optional text.
pub open spec fn opt_view(o: Option<String>) -> Option<Seq<char>> {
    match o {
        Some(s) => Some(s@),
        None => None,
    }
}

/// An optional field after a rule was taken: the value taken, else as before.
pub open spec fn updated<T>(before: Option<T>, taken: Option<T>) -> Option<T> {
    match taken {
        Some(v) => Some(v),
        None => before,
    }
}

/// Whether `new` is `old` with the status response `pkt` applied under the
/// rule names `names`.
pub open spec fn is_applied(old: Server, new: Server, pkt: StatusResponseData, names: Map<Rule, Seq<char>>) -> bool {
    let a = spec_apply_rules(names, pkt.info@);
    &&& opt_view(new.name) == updated(opt_view(old.name), a.name)
    &&& opt_view(new.mod_name) == updated(opt_view(old.mod_name), a.mod_name)
    &&& opt_view(new.game_type) == updated(opt_view(old.game_type), a.game_type)
    &&& opt_view(new.map) == updated(opt_view(old.map), a.map)
    &&& new.secure == updated(old.secure, a.secure)
    &&& new.need_pass == updated(old.need_pass, a.need_pass)
    &&& new.max_clients == updated(old.max_clients, a.max_clients)
    &&& new.num_clients == Some(pkt.players@.len() as u64)
    &&& new.players matches Some(ps) && ps@.len() == pkt.players@.len()
        && forall|i: int| 0 <= i < ps@.len() ==> is_player_from(#[trigger] ps@[i], pkt.players@[i])
    &&& new.rules@ == a.rest.map_values(|v: Seq<char>| ValueView::Str(v))
    &&& new.addr == old.addr
    &&& new.status == old.status
    &&& new.country == old.country
    &&& new.num_bots == old.num_bots
    &&& new.ping == old.ping
}

/// Whether `k` is the name that `names` gives some rule.
pub open spec fn is_named(names: Map<Rule, Seq<char>>, k: Seq<char>) -> bool {
    exists|r: Rule| #[trigger] names.contains_key(r) && names[r] == k
}

/// Applying a status response only takes rules out: each rule the server
/// is left with is a rule of the response, with its value as text, and each
/// rule of the response that no rule name names is left to the server.
pub proof fn lemma_applied_rules(old: Server, new: Server, pkt: StatusResponseData, names: Map<Rule, Seq<char>>, k: Seq<char>)
    requires
        is_applied(old, new, pkt, names),
    ensures
        new.rules@.contains_key(k) ==> pkt.info@.contains_key(k) && new.rules@[k] == ValueView::Str(pkt.info@[k]),
        !is_named(names, k) ==> new.rules@.contains_key(k) == pkt.info@.contains_key(k),
{
    let (_, r1) = spec_take_text(names, pkt.info@, Rule::ServerName);
    let (_, r2) = spec_take_text(names, r1, Rule::Mod);
    let (_, r3) = spec_take_text(names, r2, Rule::GameType);
    let (_, r4) = spec_take_text(names, r3, Rule::MapName);
    let (_, r5) = spec_take_flag(names, r4, Rule::Secure);
    let (_, r6) = spec_take_flag(names, r5, Rule::NeedPass);
    let (_, r7) = spec_take_number(names, r6, Rule::MaxClients);
    assert(r7.contains_key(k) ==> pkt.info@.contains_key(k) && r7[k] == pkt.info@[k]);
    if !is_named(names, k) {
        assert(names.contains_key(Rule::ServerName) ==> names[Rule::ServerName] != k);
        assert(names.contains_key(Rule::Mod) ==> names[Rule::Mod] != k);
        assert(names.contains_key(Rule::GameType) ==> names[Rule::GameType] != k);
        assert(names.contains_key(Rule::MapName) ==> names[Rule::MapName] != k);
        assert(names.contains_key(Rule::Secure) ==> names[Rule::Secure] != k);
        assert(names.contains_key(Rule::NeedPass) ==> names[Rule::NeedPass] != k);
        assert(names.contains_key(Rule::MaxClients) ==> names[Rule::MaxClients] != k);
        assert(r7.contains_key(k) == pkt.info@.contains_key(k));
    }
}

/// After a status response is applied, the client count is the number of
/// players listed.
pub proof fn lemma_applied_counts_players(old: Server, new: Server, pkt: StatusResponseData, names: Map<Rule, Seq<char>>)
    requires
        is_applied(old, new, pkt, names),
    ensures
        new.players matches Some(ps) && new.num_clients == Some(ps@.len() as u64),
{
}

/// A rule's value read as a flag, if the rule was found.
pub open spec fn found_flag(v: Option<Seq<char>>) -> Option<bool> {
    match v {
        Some(s) => spec_flag(s),
        None => None,
    }
}

/// A rule's value read as a number, if the rule was found.
pub open spec fn found_number(v: Option<Seq<char>>) -> Option<u64> {
    match v {
        Some(s) => spec_parse_u64(s),
        None => None,
    }
}

/// Removing the name of one rule leaves every other rule found as before,
/// when no two rules share a name.
proof fn lemma_found_unchanged(names: Map<Rule, Seq<char>>, rules: Map<Seq<char>, Seq<char>>, after: Map<Seq<char>, Seq<char>>, taken: Rule, other: Rule)
    requires
        names_distinct(names),
        taken != other,
        after == rules || (names.contains_key(taken) && after == rules.remove(names[taken])),
    ensures
        spec_found(names, after, other) == spec_found(names, rules, other),
{
    if names.contains_key(taken) && names.contains_key(other) {
        assert(names[taken] != names[other]);
    }
}

/// When no two rules share a name, each field is read from its own rule of
/// the response: a rule that is named, present and accepted sets its field
/// (the text as it is, `"0"`/`"1"` as a flag, a number as a `u64`); else
/// the field keeps its value.
pub proof fn lemma_applied_fields(old: Server, new: Server, pkt: StatusResponseData, names: Map<Rule, Seq<char>>)
    requires
        is_applied(old, new, pkt, names),
        names_distinct(names),
    ensures
        opt_view(new.name) == (if names.contains_key(Rule::ServerName) && pkt.info@.contains_key(names[Rule::ServerName]) { Some(pkt.info@[names[Rule::ServerName]]) } else { opt_view(old.name) }),
        opt_view(new.mod_name) == (if names.contains_key(Rule::Mod) && pkt.info@.contains_key(names[Rule::Mod]) { Some(pkt.info@[names[Rule::Mod]]) } else { opt_view(old.mod_name) }),
        opt_view(new.game_type) == (if names.contains_key(Rule::GameType) && pkt.info@.contains_key(names[Rule::GameType]) { Some(pkt.info@[names[Rule::GameType]]) } else { opt_view(old.game_type) }),
        opt_view(new.map) == (if names.contains_key(Rule::MapName) && pkt.info@.contains_key(names[Rule::MapName]) { Some(pkt.info@[names[Rule::MapName]]) } else { opt_view(old.map) }),
        new.secure == updated(old.secure, found_flag((if names.contains_key(Rule::Secure) && pkt.info@.contains_key(names[Rule::Secure]) { Some(pkt.info@[names[Rule::Secure]]) } else { None }))),
        new.need_pass == updated(old.need_pass, found_flag((if names.contains_key(Rule::NeedPass) && pkt.info@.contains_key(names[Rule::NeedPass]) { Some(pkt.info@[names[Rule::NeedPass]]) } else { None }))),
        new.max_clients == updated(old.max_clients, found_number((if names.contains_key(Rule::MaxClients) && pkt.info@.contains_key(names[Rule::MaxClients]) { Some(pkt.info@[names[Rule::MaxClients]]) } else { None }))),
{
    let info = pkt.info@;
    let r0 = info;
    let r1 = spec_take_text(names, r0, Rule::ServerName).1;
    let r2 = spec_take_text(names, r1, Rule::Mod).1;
    let r3 = spec_take_text(names, r2, Rule::GameType).1;
    let r4 = spec_take_text(names, r3, Rule::MapName).1;
    let r5 = spec_take_flag(names, r4, Rule::Secure).1;
    let r6 = spec_take_flag(names, r5, Rule::NeedPass).1;
    // Taking a rule removes its name alone, so each later rule is found in
    // what is left just as in the response.
    lemma_found_unchanged(names, r0, r1, Rule::ServerName, Rule::Mod);
    lemma_found_unchanged(names, r0, r1, Rule::ServerName, Rule::GameType);
    lemma_found_unchanged(names, r0, r1, Rule::ServerName, Rule::MapName);
    lemma_found_unchanged(names, r0, r1, Rule::ServerName, Rule::Secure);
    lemma_found_unchanged(names, r0, r1, Rule::ServerName, Rule::NeedPass);
    lemma_found_unchanged(names, r0, r1, Rule::ServerName, Rule::MaxClients);
    lemma_found_unchanged(names, r1, r2, Rule::Mod, Rule::GameType);
    lemma_found_unchanged(names, r1, r2, Rule::Mod, Rule::MapName);
    lemma_found_unchanged(names, r1, r2, Rule::Mod, Rule::Secure);
    lemma_found_unchanged(names, r1, r2, Rule::Mod, Rule::NeedPass);
    lemma_found_unchanged(names, r1, r2, Rule::Mod, Rule::MaxClients);
    lemma_found_unchanged(names, r2, r3, Rule::GameType, Rule::MapName);
    lemma_found_unchanged(names, r2, r3, Rule::GameType, Rule::Secure);
    lemma_found_unchanged(names, r2, r3, Rule::GameType, Rule::NeedPass);
    lemma_found_unchanged(names, r2, r3, Rule::GameType, Rule::MaxClients);
    lemma_found_unchanged(names, r3, r4, Rule::MapName, Rule::Secure);
    lemma_found_unchanged(names, r3, r4, Rule::MapName, Rule::NeedPass);
    lemma_found_unchanged(names, r3, r4, Rule::MapName, Rule::MaxClients);
    lemma_found_unchanged(names, r4, r5, Rule::Secure, Rule::NeedPass);
    lemma_found_unchanged(names, r4, r5, Rule::Secure, Rule::MaxClients);
    lemma_found_unchanged(names, r5, r6, Rule::NeedPass, Rule::MaxClients);
}

/// The secure and password flags read the texts `"0"` and `"1"` alone: a
/// named rule present in the response with value `"0"` turns its flag off,
/// with `"1"` turns it on, and with any other value (or when the rule is
/// missing or has no name) leaves the flag as it was.
pub proof fn lemma_applied_flags(old: Server, new: Server, pkt: StatusResponseData, names: Map<Rule, Seq<char>>)
    requires
        is_applied(old, new, pkt, names),
        names_distinct(names),
    ensures
        new.secure == (if names.contains_key(Rule::Secure) && pkt.info@.contains_key(names[Rule::Secure]) {
            if pkt.info@[names[Rule::Secure]] == "0"@ {
                Some(false)
            } else if pkt.info@[names[Rule::Secure]] == "1"@ {
                Some(true)
            } else {
                old.secure
            }
        } else {
            old.secure
        }),
        new.need_pass == (if names.contains_key(Rule::NeedPass) && pkt.info@.contains_key(names[Rule::NeedPass]) {
            if pkt.info@[names[Rule::NeedPass]] == "0"@ {
                Some(false)
            } else if pkt.info@[names[Rule::NeedPass]] == "1"@ {
                Some(true)
            } else {
                old.need_pass
            }
        } else {
            old.need_pass
        }),
{
    lemma_applied_fields(old, new, pkt, names);
}

fn take_text(rules: &mut StrMap<String>, names: &BiMap<Rule, String>, rule: Rule) -> (r: Option<String>)
    ensures
        name_is_unique(rule_name_pairs(*names), rule),
        (opt_view(r), final(rules)@) == spec_take_text(rule_name_pairs(*names), old(rules)@, rule),
{
    match bimap_get_by_left(names, rule) {
        Some(name) => {
            let ghost before = rules@;
            let r = rules.remove(name.as_str());
            assert(rules@ =~= before.remove(name@));
            r
        }
        None => None,
    }
}

fn take_flag(rules: &mut StrMap<String>, names: &BiMap<Rule, String>, rule: Rule) -> (r: Option<bool>)
    ensures
        name_is_unique(rule_name_pairs(*names), rule),
        (r, final(rules)@) == spec_take_flag(rule_name_pairs(*names), old(rules)@, rule),
{
    match bimap_get_by_left(names, rule) {
        Some(name) => {
            let flag = match rules.get(name.as_str()) {
                Some(v) => {
                    let zero = "0".to_owned();
                    let one = "1".to_owned();
                    if *v == zero {
                        Some(false)
                    } else if *v == one {
                        Some(true)
                    } else {
                        None
                    }
                }
                None => None,
            };
            if flag.is_some() {
                let ghost before = rules@;
                rules.remove(name.as_str());
                assert(rules@ =~= before.remove(name@));
            }
            flag
        }
        None => None,
    }
}

fn take_number(rules: &mut StrMap<String>, names: &BiMap<Rule, String>, rule: Rule) -> (r: Option<u64>)
    ensures
        name_is_unique(rule_name_pairs(*names), rule),
        (r, final(rules)@) == spec_take_number(rule_name_pairs(*names), old(rules)@, rule),
{
    match bimap_get_by_left(names, rule) {
        Some(name) => {
            let n = match rules.get(name.as_str()) {
                Some(v) => parse_u64(v.as_str()),
                None => None,
            };
            if n.is_some() {
                let ghost before = rules@;
                rules.remove(name.as_str());
                assert(rules@ =~= before.remove(name@));
            }
            n
        }
        None => None,
    }
}

/// Applies a status response to `srv`: the rules that the rule names map
/// onto fields are taken into those fields, the players are listed, and
/// the rules that are left become the server's rules. No two rules share
/// a name (the names are a bimap's), so each field is read from its own
/// rule (see [`lemma_applied_fields`]).
pub fn apply_rules(srv: &mut Server, pkt: StatusResponseData, rule_names: &BiMap<Rule, String>)
    ensures
        is_applied(*old(srv), *final(srv), pkt, rule_name_pairs(*rule_names)),
        names_distinct(rule_name_pairs(*rule_names)),
{
    let StatusResponseData { info, players } = pkt;
    let mut rules = info;
    if let Some(v) = take_text(&mut rules, rule_names, Rule::ServerName) {
        srv.name = Some(v);
    }
    if let Some(v) = take_text(&mut rules, rule_names, Rule::Mod) {
        srv.mod_name = Some(v);
    }
    if let Some(v) = take_text(&mut rules, rule_names, Rule::GameType) {
        srv.game_type = Some(v);
    }
    if let Some(v) = take_text(&mut rules, rule_names, Rule::MapName) {
        srv.map = Some(v);
    }
    if let Some(v) = take_flag(&mut rules, rule_names, Rule::Secure) {
        srv.secure = Some(v);
    }
    if let Some(v) = take_flag(&mut rules, rule_names, Rule::NeedPass) {
        srv.need_pass = Some(v);
    }
    if let Some(v) = take_number(&mut rules, rule_names, Rule::MaxClients) {
        srv.max_clients = Some(v);
    }
    srv.num_clients = Some(players.len() as u64);
    srv.players = Some(players_from(players));
    srv.rules = crate::value::string_rules(&rules);
    proof {
        let m = rule_name_pairs(*rule_names);
        assert forall|a: Rule, b: Rule|
            #![trigger m[a], m[b]]
            m.contains_key(a) && m.contains_key(b) && m[a] == m[b] implies a == b by {
            assert(name_is_unique(m, a));
        }
    }
}

/// Whether `s` is the server at `addr` that the status response `pkt`
/// describes under the rule names `names`.
pub open spec fn is_status_server(s: Server, addr: SocketAddr, pkt: StatusResponseData, names: Map<Rule, Seq<char>>) -> bool {
    exists|b: Server| b.is_blank(addr) && is_applied(b, s, pkt, names)
}

/// Parses a decoded `statusResponse` into a server, applying the rule
/// mapping, then hands the server to the filter. `Ok(None)` means that the
/// filter dropped the server.
pub fn parse_status_response<F: Fn(Server) -> Option<Server>>(
    addr: SocketAddr,
    packet: Q3Packet,
    rule_names: &BiMap<Rule, String>,
    filter: &F,
) -> (r: Result<Option<Server>, Error>)
    requires
        forall|s: Server| call_requires(*filter, (s,)),
    ensures
        match packet {
            Q3Packet::StatusResponse(pkt) => r matches Ok(o) && names_distinct(rule_name_pairs(*rule_names)) && exists|s: Server|
                is_status_server(s, addr, pkt, rule_name_pairs(*rule_names)) && call_ensures(*filter, (s,), o),
            _ => r == Err::<Option<Server>, Error>(Error::InvalidPacketError),
        },
{
    match packet {
        Q3Packet::StatusResponse(pkt) => {
            let ghost p = pkt;
            let mut server = Server::new(addr);
            let ghost blank = server;
            apply_rules(&mut server, pkt, rule_names);
            let ghost s = server;
            let o = filter(server);
            assert(blank.is_blank(addr) && is_applied(blank, s, p, rule_name_pairs(*rule_names)));
            assert(is_status_server(s, addr, p, rule_name_pairs(*rule_names)));
            assert(call_ensures(*filter, (s,), o));
            Ok(o)
        }
        _ => Err(Error::InvalidPacketError),
    }
}

/// The server addresses of a decoded `getserversResponse`, and whether it
/// is the master's last datagram.
pub fn parse_getservers_response(packet: Q3Packet) -> (r: Result<(Vec<SocketAddr>, bool), Error>)
    ensures
        match packet {
            Q3Packet::GetServersResponse(resp) => r matches Ok((addrs, eot)) && addrs == resp.data && eot == resp.eot,
            _ => r == Err::<(Vec<SocketAddr>, bool), Error>(Error::InvalidPacketError),
        },
{
    match packet {
        Q3Packet::GetServersResponse(resp) => Ok((resp.data, resp.eot)),
        _ => Err(Error::InvalidPacketError),
    }
}

/// The flags of a `getservers` request.
#[derive(Clone, Copy, Debug, PartialEq, Eq, Hash, Structural)]
pub enum MasterQueryExtra {
    Empty,
    Full,
}

/// A Quake 3 request, as far as this library decides it.
#[derive(Clone, Debug, PartialEq, Eq)]
pub enum Q3Request {
    GetStatus { challenge: String },
    GetServers { request_tag: Option<String>, version: u32, extra: Vec<MasterQueryExtra> },
}

/// The `getstatus` request sent to a single server.
pub fn make_getstatus() -> (r: Q3Request)
    ensures
        r matches Q3Request::GetStatus { challenge } && challenge@ == "RGS"@,
{
    Q3Request::GetStatus { challenge: "RGS".to_owned() }
}

/// The `getservers` request sent to a master server: protocol `version`,
/// asking for empty and full servers too.
pub fn make_getservers(version: u32) -> (r: Q3Request)
    ensures
        r matches Q3Request::GetServers { request_tag, version: v, extra }
            && request_tag is None && v == version
            && extra@ == seq![MasterQueryExtra::Empty, MasterQueryExtra::Full],
{
    let mut extra = Vec::new();
    extra.push(MasterQueryExtra::Empty);
    extra.push(MasterQueryExtra::Full);
    Q3Request::GetServers { request_tag: None, version, extra }
}

} // verus!
