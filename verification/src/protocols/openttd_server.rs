use crate::errors::Error;
use crate::model::{Server, Status};
use crate::models::{is_packet_error, packet_error, Packet, PacketError, ParseResult};
use crate::net::SocketAddr;
use crate::protocols::openttds::{insert_rule, spec_v2_rules, write_v2_data, V2Data};
use crate::text::{string_from_utf8, string_from_utf8_lossy, utf8_lossy};
use crate::value::{StrMap, Value, ValueView};
use vstd::prelude::*;
use vstd::utf8::*;

verus! {

/// An active NewGRF: its id and the MD5 hash of its contents, as the
/// `openttd` crate writes them out.
#[derive(Clone, Debug, PartialEq, Eq)]
pub struct NewGrf {
    pub id: String,
    pub hash: String,
}

/// The game's dates, as the values their `timestamp()` gives.
#[derive(Clone, Copy, Debug, PartialEq, Eq, Structural)]
pub struct GameDates {
    pub game_date: i64,
    pub start_date: i64,
}

/// The version of a decoded server response, with the data each version adds.
#[derive(Clone, Debug, PartialEq, Eq)]
pub enum ServerProtocolVer {
    V1,
    V2(V2Data),
    V3(V2Data, GameDates),
    V4(V2Data, GameDates, Vec<NewGrf>),
}

/// A decoded OpenTTD server response; the texts are raw bytes as sent.
#[derive(Clone, Debug, PartialEq, Eq)]
pub struct ServerResponse {
    pub protocol_ver: ServerProtocolVer,
    pub server_name: Vec<u8>,
    pub server_revision: Vec<u8>,
    pub server_lang: u8,
    pub use_password: bool,
    pub clients_max: u8,
    pub clients_on: u8,
    pub spectators_on: u8,
    pub map_name: Vec<u8>,
    pub map_set: u8,
    pub dedicated: bool,
}

/// The NewGRFs as a map from id to hash, each inserted in turn.
pub open spec fn spec_newgrf_map(grfs: Seq<NewGrf>) -> Map<Seq<char>, Seq<char>>
    decreases grfs.len(),
{
    if grfs.len() == 0 {
        Map::empty()
    } else {
        spec_newgrf_map(grfs.drop_last()).insert(
            grfs.last().id@,
            grfs.last().hash@,
        )
    }
}

pub open spec fn spec_version_number(v: ServerProtocolVer) -> u8 {
    match v {
        ServerProtocolVer::V1 => 1,
        ServerProtocolVer::V2(..) => 2,
        ServerProtocolVer::V3(..) => 3,
        ServerProtocolVer::V4(..) => 4,
    }
}

pub open spec fn spec_dates_rules(m: Map<Seq<char>, ValueView>, d: GameDates) -> Map<Seq<char>, ValueView> {
    m.insert("current-time"@, ValueView::Int(d.game_date as int)).insert("start-time"@, ValueView::Int(d.start_date as int))
}

/// The rules a server gets from its response, given its revision as text.
pub open spec fn spec_response_rules(info: ServerResponse, revision: Seq<char>) -> Map<Seq<char>, ValueView> {
    let m0 = Map::<Seq<char>, ValueView>::empty().insert(
        "protocol-version"@,
        ValueView::Int(spec_version_number(info.protocol_ver) as int),
    );
    let m1 = match info.protocol_ver {
        ServerProtocolVer::V1 => m0,
        ServerProtocolVer::V2(v2) => spec_v2_rules(m0, v2),
        ServerProtocolVer::V3(v2, d) => spec_dates_rules(spec_v2_rules(m0, v2), d),
        ServerProtocolVer::V4(v2, d, g) => spec_dates_rules(spec_v2_rules(m0, v2), d).insert(
            "active-newgrf"@,
            ValueView::Object(spec_newgrf_map(g@)),
        ),
    };
    m1.insert("server-version"@, ValueView::Str(revision))
        .insert("language-id"@, ValueView::Int(info.server_lang as int))
        .insert("current-spectators"@, ValueView::Int(info.spectators_on as int))
        .insert("map-set"@, ValueView::Int(info.map_set as int))
        .insert("dedicated"@, ValueView::Bool(info.dedicated))
}

/// Whether `srv` is the server at `addr` that the response `info` describes.
pub open spec fn is_server_from_response(srv: Server, addr: SocketAddr, info: ServerResponse) -> bool {
    &&& srv.addr == addr
    &&& srv.status == Status::Up
    &&& srv.country.spec_code() == Seq::<char>::empty()
    &&& srv.rules@ == spec_response_rules(info, decode_utf8(info.server_revision@))
    &&& srv.name matches Some(n) && n@ == utf8_lossy(info.server_name@)
    &&& srv.need_pass == Some(info.use_password)
    &&& srv.map matches Some(m) && m@ == utf8_lossy(info.map_name@)
    &&& srv.num_clients == Some(info.clients_on as u64)
    &&& srv.max_clients == Some(info.clients_max as u64)
    &&& srv.mod_name is None
    &&& srv.game_type is None
    &&& srv.num_bots is None
    &&& srv.secure is None
    &&& srv.ping is None
    &&& srv.players is None
}

/// The NewGRF map holds exactly the ids of the NewGRFs, each with the hash
/// of the last NewGRF that has that id.
pub proof fn lemma_newgrf_map(grfs: Seq<NewGrf>)
    ensures
        forall|k: Seq<char>| #[trigger] spec_newgrf_map(grfs).contains_key(k) <==> exists|i: int| 0 <= i < grfs.len() && grfs[i].id@ == k,
        forall|i: int| 0 <= i < grfs.len() && (forall|j: int| i < j < grfs.len() ==> grfs[j].id@ != grfs[i].id@)
            ==> #[trigger] spec_newgrf_map(grfs)[grfs[i].id@] == grfs[i].hash@,
    decreases grfs.len(),
{
    if grfs.len() > 0 {
        let init = grfs.drop_last();
        lemma_newgrf_map(init);
        assert forall|k: Seq<char>| #[trigger] spec_newgrf_map(grfs).contains_key(k) <==> exists|i: int| 0 <= i < grfs.len() && grfs[i].id@ == k by {
            assert(spec_newgrf_map(grfs) == spec_newgrf_map(init).insert(grfs.last().id@, grfs.last().hash@));
            if spec_newgrf_map(grfs).contains_key(k) {
                if k == grfs.last().id@ {
                    assert(grfs[grfs.len() - 1].id@ == k);
                } else {
                    assert(spec_newgrf_map(init).contains_key(k));
                    let i = choose|i: int| 0 <= i < init.len() && init[i].id@ == k;
                    assert(grfs[i] == init[i]);
                }
            }
            if exists|i: int| 0 <= i < grfs.len() && grfs[i].id@ == k {
                let i = choose|i: int| 0 <= i < grfs.len() && grfs[i].id@ == k;
                if i < init.len() {
                    assert(init[i] == grfs[i]);
                }
            }
        }
        assert forall|i: int| 0 <= i < grfs.len() && (forall|j: int| i < j < grfs.len() ==> grfs[j].id@ != grfs[i].id@)
            implies #[trigger] spec_newgrf_map(grfs)[grfs[i].id@] == grfs[i].hash@ by {
            assert(spec_newgrf_map(grfs) == spec_newgrf_map(init).insert(grfs.last().id@, grfs.last().hash@));
            if i < init.len() {
                assert(init[i] == grfs[i]);
                assert(grfs[grfs.len() - 1].id@ != grfs[i].id@);
                assert forall|j: int| i < j < init.len() implies init[j].id@ != init[i].id@ by {
                    assert(init[j] == grfs[j]);
                }
            }
        }
    }
}

/// The game dates of a version-3 or version-4 response become the server's
/// "current-time" rule (the game date) and "start-time" rule (the start
/// date); a version-1 or version-2 response gives neither rule.
pub proof fn lemma_response_dates(srv: Server, addr: SocketAddr, info: ServerResponse)
    requires
        is_server_from_response(srv, addr, info),
    ensures
        match info.protocol_ver {
            ServerProtocolVer::V3(_, d) => srv.rules@.contains_key("current-time"@)
                && srv.rules@["current-time"@] == ValueView::Int(d.game_date as int)
                && srv.rules@.contains_key("start-time"@)
                && srv.rules@["start-time"@] == ValueView::Int(d.start_date as int),
            ServerProtocolVer::V4(_, d, _) => srv.rules@.contains_key("current-time"@)
                && srv.rules@["current-time"@] == ValueView::Int(d.game_date as int)
                && srv.rules@.contains_key("start-time"@)
                && srv.rules@["start-time"@] == ValueView::Int(d.start_date as int),
            _ => !srv.rules@.contains_key("current-time"@) && !srv.rules@.contains_key("start-time"@),
        },
{
    reveal_strlit("protocol-version");
    reveal_strlit("max-companies");
    reveal_strlit("current-companies");
    reveal_strlit("max-spectators");
    reveal_strlit("current-time");
    reveal_strlit("start-time");
    reveal_strlit("active-newgrf");
    reveal_strlit("server-version");
    reveal_strlit("language-id");
    reveal_strlit("current-spectators");
    reveal_strlit("map-set");
    reveal_strlit("dedicated");
    lemma_response_keys_distinct();
}

/// Each field of the response becomes its own rule: the version number, the
/// revision as text, the language, the spectator count, the map set and the
/// dedicated flag, from version 2 on the company and spectator limits, and
/// for version 4 the NewGRFs by id.
pub proof fn lemma_response_rules(srv: Server, addr: SocketAddr, info: ServerResponse)
    requires
        is_server_from_response(srv, addr, info),
    ensures
        srv.rules@.contains_key("protocol-version"@),
        srv.rules@["protocol-version"@] == ValueView::Int(match info.protocol_ver {
            ServerProtocolVer::V1 => 1int,
            ServerProtocolVer::V2(..) => 2int,
            ServerProtocolVer::V3(..) => 3int,
            ServerProtocolVer::V4(..) => 4int,
        }),
        srv.rules@.contains_key("server-version"@) && srv.rules@["server-version"@] == ValueView::Str(decode_utf8(info.server_revision@)),
        srv.rules@.contains_key("language-id"@) && srv.rules@["language-id"@] == ValueView::Int(info.server_lang as int),
        srv.rules@.contains_key("current-spectators"@) && srv.rules@["current-spectators"@] == ValueView::Int(info.spectators_on as int),
        srv.rules@.contains_key("map-set"@) && srv.rules@["map-set"@] == ValueView::Int(info.map_set as int),
        srv.rules@.contains_key("dedicated"@) && srv.rules@["dedicated"@] == ValueView::Bool(info.dedicated),
        match info.protocol_ver {
            ServerProtocolVer::V1 => !srv.rules@.contains_key("max-companies"@) && !srv.rules@.contains_key("active-newgrf"@),
            ServerProtocolVer::V2(v2) | ServerProtocolVer::V3(v2, _) | ServerProtocolVer::V4(v2, _, _) =>
                srv.rules@.contains_key("max-companies"@) && srv.rules@["max-companies"@] == ValueView::Int(v2.max_companies as int)
                && srv.rules@.contains_key("current-companies"@) && srv.rules@["current-companies"@] == ValueView::Int(v2.current_companies as int)
                && srv.rules@.contains_key("max-spectators"@) && srv.rules@["max-spectators"@] == ValueView::Int(v2.max_spectators as int),
        },
        !(info.protocol_ver is V4) ==> !srv.rules@.contains_key("active-newgrf"@),
        (info.protocol_ver matches ServerProtocolVer::V4(_, _, g) ==> srv.rules@.contains_key("active-newgrf"@)),
{
    lemma_response_keys_distinct();
}

/// A version-3 response gives the rules that the same response as version 4
/// (with the same limits and dates) gives, without the "active-newgrf" rule
/// and with protocol version 3 in place of 4.
pub proof fn lemma_v3_is_v4_without_newgrfs(s3: Server, s4: Server, addr: SocketAddr, info3: ServerResponse, info4: ServerResponse)
    requires
        is_server_from_response(s3, addr, info3),
        is_server_from_response(s4, addr, info4),
        info3.protocol_ver matches ServerProtocolVer::V3(v2, d)
            && info4 == (ServerResponse { protocol_ver: ServerProtocolVer::V4(v2, d, info4.protocol_ver->V4_2), ..info3 }),
    ensures
        s3.rules@ == s4.rules@.remove("active-newgrf"@).insert("protocol-version"@, ValueView::Int(3)),
        s4.rules@.contains_key("active-newgrf"@),
        s4.rules@["protocol-version"@] == ValueView::Int(4),
{
    reveal_strlit("protocol-version");
    reveal_strlit("max-companies");
    reveal_strlit("current-companies");
    reveal_strlit("max-spectators");
    reveal_strlit("current-time");
    reveal_strlit("start-time");
    reveal_strlit("active-newgrf");
    reveal_strlit("server-version");
    reveal_strlit("language-id");
    reveal_strlit("current-spectators");
    reveal_strlit("map-set");
    reveal_strlit("dedicated");
    lemma_response_keys_distinct();
    assert(s3.rules@ =~= s4.rules@.remove("active-newgrf"@).insert("protocol-version"@, ValueView::Int(3)));
}

/// The rule names of a server are different texts.
pub(crate) proof fn lemma_response_keys_distinct()
    ensures
        "protocol-version"@ != "max-companies"@,
        "protocol-version"@ != "current-companies"@,
        "protocol-version"@ != "max-spectators"@,
        "protocol-version"@ != "current-time"@,
        "protocol-version"@ != "start-time"@,
        "protocol-version"@ != "active-newgrf"@,
        "protocol-version"@ != "server-version"@,
        "protocol-version"@ != "language-id"@,
        "protocol-version"@ != "current-spectators"@,
        "protocol-version"@ != "map-set"@,
        "protocol-version"@ != "dedicated"@,
        "max-companies"@ != "current-companies"@,
        "max-companies"@ != "max-spectators"@,
        "max-companies"@ != "current-time"@,
        "max-companies"@ != "start-time"@,
        "max-companies"@ != "active-newgrf"@,
        "max-companies"@ != "server-version"@,
        "max-companies"@ != "language-id"@,
        "max-companies"@ != "current-spectators"@,
        "max-companies"@ != "map-set"@,
        "max-companies"@ != "dedicated"@,
        "current-companies"@ != "max-spectators"@,
        "current-companies"@ != "current-time"@,
        "current-companies"@ != "start-time"@,
        "current-companies"@ != "active-newgrf"@,
        "current-companies"@ != "server-version"@,
        "current-companies"@ != "language-id"@,
        "current-companies"@ != "current-spectators"@,
        "current-companies"@ != "map-set"@,
        "current-companies"@ != "dedicated"@,
        "max-spectators"@ != "current-time"@,
        "max-spectators"@ != "start-time"@,
        "max-spectators"@ != "active-newgrf"@,
        "max-spectators"@ != "server-version"@,
        "max-spectators"@ != "language-id"@,
        "max-spectators"@ != "current-spectators"@,
        "max-spectators"@ != "map-set"@,
        "max-spectators"@ != "dedicated"@,
        "current-time"@ != "start-time"@,
        "current-time"@ != "active-newgrf"@,
        "current-time"@ != "server-version"@,
        "current-time"@ != "language-id"@,
        "current-time"@ != "current-spectators"@,
        "current-time"@ != "map-set"@,
        "current-time"@ != "dedicated"@,
        "start-time"@ != "active-newgrf"@,
        "start-time"@ != "server-version"@,
        "start-time"@ != "language-id"@,
        "start-time"@ != "current-spectators"@,
        "start-time"@ != "map-set"@,
        "start-time"@ != "dedicated"@,
        "active-newgrf"@ != "server-version"@,
        "active-newgrf"@ != "language-id"@,
        "active-newgrf"@ != "current-spectators"@,
        "active-newgrf"@ != "map-set"@,
        "active-newgrf"@ != "dedicated"@,
        "server-version"@ != "language-id"@,
        "server-version"@ != "current-spectators"@,
        "server-version"@ != "map-set"@,
        "server-version"@ != "dedicated"@,
        "language-id"@ != "current-spectators"@,
        "language-id"@ != "map-set"@,
        "language-id"@ != "dedicated"@,
        "current-spectators"@ != "map-set"@,
        "current-spectators"@ != "dedicated"@,
        "map-set"@ != "dedicated"@,
{
    reveal_strlit("protocol-version");
    reveal_strlit("max-companies");
    reveal_strlit("current-companies");
    reveal_strlit("max-spectators");
    reveal_strlit("current-time");
    reveal_strlit("start-time");
    reveal_strlit("active-newgrf");
    reveal_strlit("server-version");
    reveal_strlit("language-id");
    reveal_strlit("current-spectators");
    reveal_strlit("map-set");
    reveal_strlit("dedicated");
    assert("protocol-version"@[0] != "max-companies"@[0]);
    assert("protocol-version"@[0] != "current-companies"@[0]);
    assert("protocol-version"@[0] != "max-spectators"@[0]);
    assert("protocol-version"@[0] != "current-time"@[0]);
    assert("protocol-version"@[0] != "start-time"@[0]);
    assert("protocol-version"@[0] != "active-newgrf"@[0]);
    assert("protocol-version"@[0] != "server-version"@[0]);
    assert("protocol-version"@[0] != "language-id"@[0]);
    assert("protocol-version"@[0] != "current-spectators"@[0]);
    assert("protocol-version"@[0] != "map-set"@[0]);
    assert("protocol-version"@[0] != "dedicated"@[0]);
    assert("max-companies"@[0] != "current-companies"@[0]);
    assert("max-companies"@[4] != "max-spectators"@[4]);
    assert("max-companies"@[0] != "current-time"@[0]);
    assert("max-companies"@[0] != "start-time"@[0]);
    assert("max-companies"@[0] != "active-newgrf"@[0]);
    assert("max-companies"@[0] != "server-version"@[0]);
    assert("max-companies"@[0] != "language-id"@[0]);
    assert("max-companies"@[0] != "current-spectators"@[0]);
    assert("max-companies"@[2] != "map-set"@[2]);
    assert("max-companies"@[0] != "dedicated"@[0]);
    assert("current-companies"@[0] != "max-spectators"@[0]);
    assert("current-companies"@[8] != "current-time"@[8]);
    assert("current-companies"@[0] != "start-time"@[0]);
    assert("current-companies"@[0] != "active-newgrf"@[0]);
    assert("current-companies"@[0] != "server-version"@[0]);
    assert("current-companies"@[0] != "language-id"@[0]);
    assert("current-companies"@[8] != "current-spectators"@[8]);
    assert("current-companies"@[0] != "map-set"@[0]);
    assert("current-companies"@[0] != "dedicated"@[0]);
    assert("max-spectators"@[0] != "current-time"@[0]);
    assert("max-spectators"@[0] != "start-time"@[0]);
    assert("max-spectators"@[0] != "active-newgrf"@[0]);
    assert("max-spectators"@[0] != "server-version"@[0]);
    assert("max-spectators"@[0] != "language-id"@[0]);
    assert("max-spectators"@[0] != "current-spectators"@[0]);
    assert("max-spectators"@[2] != "map-set"@[2]);
    assert("max-spectators"@[0] != "dedicated"@[0]);
    assert("current-time"@[0] != "start-time"@[0]);
    assert("current-time"@[0] != "active-newgrf"@[0]);
    assert("current-time"@[0] != "server-version"@[0]);
    assert("current-time"@[0] != "language-id"@[0]);
    assert("current-time"@[8] != "current-spectators"@[8]);
    assert("current-time"@[0] != "map-set"@[0]);
    assert("current-time"@[0] != "dedicated"@[0]);
    assert("start-time"@[0] != "active-newgrf"@[0]);
    assert("start-time"@[1] != "server-version"@[1]);
    assert("start-time"@[0] != "language-id"@[0]);
    assert("start-time"@[0] != "current-spectators"@[0]);
    assert("start-time"@[0] != "map-set"@[0]);
    assert("start-time"@[0] != "dedicated"@[0]);
    assert("active-newgrf"@[0] != "server-version"@[0]);
    assert("active-newgrf"@[0] != "language-id"@[0]);
    assert("active-newgrf"@[0] != "current-spectators"@[0]);
    assert("active-newgrf"@[0] != "map-set"@[0]);
    assert("active-newgrf"@[0] != "dedicated"@[0]);
    assert("server-version"@[0] != "language-id"@[0]);
    assert("server-version"@[0] != "current-spectators"@[0]);
    assert("server-version"@[0] != "map-set"@[0]);
    assert("server-version"@[0] != "dedicated"@[0]);
    assert("language-id"@[0] != "current-spectators"@[0]);
    assert("language-id"@[0] != "map-set"@[0]);
    assert("language-id"@[0] != "dedicated"@[0]);
    assert("current-spectators"@[0] != "map-set"@[0]);
    assert("current-spectators"@[0] != "dedicated"@[0]);
    assert("map-set"@[0] != "dedicated"@[0]);
}

fn newgrf_map(grfs: &Vec<NewGrf>) -> (r: StrMap<String>)
    ensures
        r@ == spec_newgrf_map(grfs@),
{
    let mut m: StrMap<String> = StrMap::new();
    assert(m@ =~= Map::<Seq<char>, Seq<char>>::empty());
    let mut i: usize = 0;
    while i < grfs.len()
        invariant
            0 <= i <= grfs@.len(),
            m@ == spec_newgrf_map(grfs@.take(i as int)),
        decreases grfs.len() - i,
    {
        let id = grfs[i].id.clone();
        let hash = grfs[i].hash.clone();
        let ghost before = m@;
        let ghost idv = id@;
        let ghost hv = hash@;
        m.insert(id, hash);
        assert(m@ =~= before.insert(idv, hv));
        assert(grfs@.take(i + 1).drop_last() =~= grfs@.take(i as int));
        i = i + 1;
    }
    assert(grfs@.take(grfs@.len() as int) =~= grfs@);
    m
}

fn write_dates(srv: &mut Server, d: GameDates)
    ensures
        final(srv).rules@ == spec_dates_rules(old(srv).rules@, d),
        final(srv).addr == old(srv).addr,
        final(srv).status == old(srv).status,
        final(srv).country == old(srv).country,
        final(srv).name == old(srv).name,
        final(srv).need_pass == old(srv).need_pass,
        final(srv).mod_name == old(srv).mod_name,
        final(srv).game_type == old(srv).game_type,
        final(srv).map == old(srv).map,
        final(srv).num_clients == old(srv).num_clients,
        final(srv).max_clients == old(srv).max_clients,
        final(srv).num_bots == old(srv).num_bots,
        final(srv).secure == old(srv).secure,
        final(srv).ping == old(srv).ping,
        final(srv).players == old(srv).players,
{
    insert_rule(srv, "current-time", Value::Int(d.game_date));
    insert_rule(srv, "start-time", Value::Int(d.start_date));
}

/// The server at `addr` that the decoded response `info` describes: up,
/// with its name, map, password flag and client counts, and the rest of
/// the response as rules. The name and map are read leniently; a revision
/// that is no valid UTF-8 is an error.
pub fn parse_server(addr: SocketAddr, info: ServerResponse) -> (r: Result<Server, Error>)
    ensures
        r is Ok <==> valid_utf8(info.server_revision@),
        r matches Ok(s) ==> is_server_from_response(s, addr, info),
        r matches Err(e) ==> e == Error::DataParseError,
{
    let ghost iv = info;
    let mut srv = Server::new(addr);
    srv.status = Status::Up;
    srv.name = Some(string_from_utf8_lossy(info.server_name.as_slice()));
    srv.need_pass = Some(info.use_password);
    srv.map = Some(string_from_utf8_lossy(info.map_name.as_slice()));
    srv.num_clients = Some(info.clients_on as u64);
    srv.max_clients = Some(info.clients_max as u64);
    let number: u8 = match &info.protocol_ver {
        ServerProtocolVer::V1 => 1,
        ServerProtocolVer::V2(_) => 2,
        ServerProtocolVer::V3(_, _) => 3,
        ServerProtocolVer::V4(_, _, _) => 4,
    };
    insert_rule(&mut srv, "protocol-version", Value::Int(number as i64));
    match &info.protocol_ver {
        ServerProtocolVer::V1 => {}
        ServerProtocolVer::V2(v2) => {
            write_v2_data(&mut srv, *v2);
        }
        ServerProtocolVer::V3(v2, d) => {
            write_v2_data(&mut srv, *v2);
            write_dates(&mut srv, *d);
        }
        ServerProtocolVer::V4(v2, d, g) => {
            write_v2_data(&mut srv, *v2);
            write_dates(&mut srv, *d);
            let grfs = newgrf_map(g);
            insert_rule(&mut srv, "active-newgrf", Value::Object(grfs));
        }
    }
    let revision = match string_from_utf8(info.server_revision) {
        Some(s) => s,
        None => return Err(Error::DataParseError),
    };
    let ghost rv = revision@;
    insert_rule(&mut srv, "server-version", Value::Str(revision));
    insert_rule(&mut srv, "language-id", Value::Int(info.server_lang as i64));
    insert_rule(&mut srv, "current-spectators", Value::Int(info.spectators_on as i64));
    insert_rule(&mut srv, "map-set", Value::Int(info.map_set as i64));
    insert_rule(&mut srv, "dedicated", Value::Bool(info.dedicated));
    assert(srv.rules@ =~= spec_response_rules(iv, rv));
    Ok(srv)
}

/// The OpenTTD server protocol, on responses that the `openttd` crate decodes.
#[derive(Debug)]
pub struct ProtocolImpl;

impl ProtocolImpl {
    /// Parses a server's datagram `p`, which decoded to the server response
    /// `decoded` (`None` when it does not decode or is another packet): the
    /// one server it describes, or one error.
    pub fn parse_response<P>(&self, p: &Packet, decoded: Option<ServerResponse>) -> (r: Vec<Result<ParseResult<P>, PacketError>>)
        ensures
            r@.len() == 1,
            match decoded {
                Some(info) => if valid_utf8(info.server_revision@) {
                    r@[0] matches Ok(ParseResult::Output(s)) && is_server_from_response(s, p.addr, info)
                } else {
                    is_packet_error(r@[0], *p, Error::DataParseError)
                },
                None => is_packet_error(r@[0], *p, Error::DataParseError),
            },
    {
        let mut out: Vec<Result<ParseResult<P>, PacketError>> = Vec::new();
        match decoded {
            Some(info) => match parse_server(p.addr, info) {
                Ok(s) => out.push(Ok(ParseResult::Output(s))),
                Err(e) => out.push(packet_error(p, e)),
            },
            None => out.push(packet_error(p, Error::DataParseError)),
        }
        out
    }
}

} // verus!
