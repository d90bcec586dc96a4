use rgs::errors::Error;
use rgs::model::{Host, Server};
use rgs::net::SocketAddr;
use rgs::protocol::q3m::{contains_eot, Q3m};
use rgs::protocol::q3s::{keep_all, parse_q3a_server, Q3s, RuleMapping};
use rgs::protocol::{Outcome, Parsed};
use rgs::q3::{
    default_rule_names, make_getservers, make_getstatus, parse_getservers_response,
    parse_status_response, GetServersResponseData, MasterQueryExtra, Q3Packet, Q3Player,
    Q3Request, Rule, StatusResponseData,
};
use rgs::models::{self, FollowUpQueryProtocol, Packet, PacketError, ParseResult};
use rgs::protocols::q3m as master;
use rgs::protocols::q3s as server;
use rgs::value::{StrMap, Value};
use std::collections::HashSet;
use std::sync::Arc;

fn addr() -> SocketAddr {
    SocketAddr::v4(1, 2, 3, 4, 27960)
}

fn status_response(info: &[(&str, &str)], players: Vec<Q3Player>) -> Q3Packet {
    let mut m = StrMap::new();
    for (k, v) in info {
        m.insert(k.to_string(), v.to_string());
    }
    Q3Packet::StatusResponse(StatusResponseData { info: m, players })
}

fn full_status_response() -> Q3Packet {
    status_response(
        &[
            ("sv_hostname", "My Server"),
            ("mapname", "q3dm6"),
            ("sv_maxclients", "16"),
            ("g_gametype", "0"),
            ("game", "osp"),
            ("g_needpass", "1"),
            ("sv_punkbuster", "1"),
            ("custom_rule", "42"),
        ],
        vec![Q3Player {
            score: 10,
            ping: 25,
            name: "alice".to_string(),
        }],
    )
}

fn check_mapped_server(server: &Server) {
    assert_eq!(server.name.as_deref(), Some("My Server"));
    assert_eq!(server.map.as_deref(), Some("q3dm6"));
    assert_eq!(server.max_clients, Some(16));
    assert_eq!(server.game_type.as_deref(), Some("0"));
    assert_eq!(server.mod_name.as_deref(), Some("osp"));
    assert_eq!(server.need_pass, Some(true));
    assert_eq!(server.secure, Some(true));
    assert_eq!(server.num_clients, Some(1));

    let players = server.players.as_ref().unwrap();
    assert_eq!(players.len(), 1);
    assert_eq!(players[0].name, "alice");
    assert_eq!(players[0].ping, Some(25));
    assert_eq!(players[0].info.get("score").unwrap(), &Value::Int(10));

    assert_eq!(
        server.rules.get("custom_rule"),
        Some(&Value::Str("42".to_string()))
    );
}

/// The datagram a master sends: `\xff\xff\xff\xffgetserversResponse`, then
/// `\` and six bytes per server, then the `\EOT` terminator when asked.
fn getservers_response_bytes(addrs: &[(u8, u8, u8, u8, u16)], eot: bool) -> Vec<u8> {
    let mut out = vec![0xff, 0xff, 0xff, 0xff];
    out.extend_from_slice(b"getserversResponse");
    for (a, b, c, d, port) in addrs {
        out.push(b'\\');
        out.extend_from_slice(&[*a, *b, *c, *d]);
        out.extend_from_slice(&port.to_be_bytes());
    }
    if eot {
        out.extend_from_slice(b"\\EOT\0\0\0");
    }
    out
}

fn getservers_response(addrs: &[(u8, u8, u8, u8, u16)], eot: bool) -> Q3Packet {
    Q3Packet::GetServersResponse(GetServersResponseData {
        data: addrs
            .iter()
            .map(|(a, b, c, d, port)| SocketAddr::v4(*a, *b, *c, *d, *port))
            .collect(),
        eot,
    })
}

// The decoding round trip of the module functions.

#[test]
fn make_getstatus_builds_getstatus_with_challenge() {
    match make_getstatus() {
        Q3Request::GetStatus { challenge } => assert_eq!(challenge.trim(), "RGS"),
        other => panic!("expected GetStatus, got {:?}", other),
    }
}

#[test]
fn make_getservers_includes_version_and_flags() {
    match make_getservers(68) {
        Q3Request::GetServers {
            request_tag,
            version,
            extra,
        } => {
            assert!(request_tag.is_none());
            assert_eq!(version, 68);
            assert!(extra.contains(&MasterQueryExtra::Empty));
            assert!(extra.contains(&MasterQueryExtra::Full));
        }
        other => panic!("expected GetServers, got {:?}", other),
    }
}

#[test]
fn default_rule_names_are_the_quake3_ones() {
    let names = default_rule_names();
    assert_eq!(names.get_by_left(&Rule::Secure).map(String::as_str), Some("sv_punkbuster"));
    assert_eq!(names.get_by_left(&Rule::MaxClients).map(String::as_str), Some("sv_maxclients"));
    assert_eq!(names.get_by_left(&Rule::Mod).map(String::as_str), Some("game"));
    assert_eq!(names.get_by_left(&Rule::GameType).map(String::as_str), Some("g_gametype"));
    assert_eq!(names.get_by_left(&Rule::MapName).map(String::as_str), Some("mapname"));
    assert_eq!(names.get_by_left(&Rule::NeedPass).map(String::as_str), Some("g_needpass"));
    assert_eq!(names.get_by_left(&Rule::ServerName).map(String::as_str), Some("sv_hostname"));
    assert_eq!(names.len(), 7);
}

#[test]
fn parse_status_response_maps_rules_and_players() {
    let server = parse_status_response(addr(), full_status_response(), &default_rule_names(), &keep_all)
        .unwrap()
        .expect("filter kept the server");
    check_mapped_server(&server);
    assert_eq!(server.addr, addr());
    assert_eq!(server.rules.len(), 1);
}

#[test]
fn parse_status_response_keeps_values_that_are_not_flags_or_numbers() {
    let packet = status_response(
        &[("sv_punkbuster", "maybe"), ("sv_maxclients", "lots"), ("g_needpass", "0")],
        vec![],
    );
    let server = parse_status_response(addr(), packet, &default_rule_names(), &keep_all)
        .unwrap()
        .unwrap();
    assert_eq!(server.secure, None);
    assert_eq!(server.max_clients, None);
    assert_eq!(server.need_pass, Some(false));
    assert_eq!(server.num_clients, Some(0));
    assert_eq!(
        server.rules.get("sv_punkbuster"),
        Some(&Value::Str("maybe".to_string()))
    );
    assert_eq!(
        server.rules.get("sv_maxclients"),
        Some(&Value::Str("lots".to_string()))
    );
    assert!(!server.rules.contains_key("g_needpass"));
}

#[test]
fn parse_status_response_rejects_wrong_packet_type() {
    assert!(parse_status_response(addr(), Q3Packet::Other, &default_rule_names(), &keep_all).is_err());
    assert_eq!(
        parse_status_response(addr(), getservers_response(&[], true), &default_rule_names(), &keep_all),
        Err(Error::InvalidPacketError)
    );
}

#[test]
fn parse_status_response_filter_can_drop_servers() {
    let drop_all = |_: Server| -> Option<Server> { None };
    let packet = status_response(&[("sv_hostname", "Filtered")], vec![]);
    let kept = parse_status_response(addr(), packet, &default_rule_names(), &drop_all).unwrap();
    assert!(kept.is_none());
}

#[test]
fn parse_getservers_response_returns_addrs_and_eot() {
    let addrs = [(10, 0, 0, 1, 27960), (10, 0, 0, 2, 27961)];
    let (parsed, eot) = parse_getservers_response(getservers_response(&addrs, true)).unwrap();
    assert!(eot);
    let got: HashSet<SocketAddr> = parsed.into_iter().collect();
    let want: HashSet<SocketAddr> = [
        SocketAddr::v4(10, 0, 0, 1, 27960),
        SocketAddr::v4(10, 0, 0, 2, 27961),
    ]
    .into_iter()
    .collect();
    assert_eq!(got, want);
}

#[test]
fn parse_getservers_response_partial_clears_eot() {
    let addrs = [(10, 0, 0, 1, 27960)];
    let (_, eot) = parse_getservers_response(getservers_response(&addrs, false)).unwrap();
    assert!(!eot);
}

#[test]
fn parse_getservers_response_rejects_wrong_packet_type() {
    assert!(parse_getservers_response(Q3Packet::Other).is_err());
    assert_eq!(
        parse_getservers_response(full_status_response()),
        Err(Error::InvalidPacketError)
    );
}

// The master protocol.

#[derive(Debug)]
struct DummyProtocol;

#[test]
fn q3m_make_request_builds_getservers() {
    let proto: Q3m<Arc<DummyProtocol>> = Q3m::default();
    match proto.make_request() {
        Q3Request::GetServers {
            request_tag,
            version,
            extra,
        } => {
            assert!(request_tag.is_none());
            assert_eq!(version, 71);
            assert!(extra.contains(&MasterQueryExtra::Empty));
            assert!(extra.contains(&MasterQueryExtra::Full));
        }
        other => panic!("request: {other:?}"),
    }
}

#[test]
fn q3m_parse_response_emits_followups_for_each_server() {
    let child = Arc::new(DummyProtocol);
    let proto = Q3m {
        q3s_protocol: Some(child.clone()),
        ..Q3m::default()
    };
    let addrs = [(10, 0, 0, 1, 27960), (10, 0, 0, 2, 27961)];
    let data = getservers_response_bytes(&addrs, true);

    let parsed: Parsed<Arc<DummyProtocol>> = proto
        .parse_response(&data, Some(getservers_response(&addrs, true)))
        .unwrap();
    assert!(!parsed.expect_more);
    assert_eq!(parsed.outcomes.len(), addrs.len());

    let mut seen = HashSet::new();
    for outcome in parsed.outcomes {
        match outcome {
            Outcome::FollowUp(q) => {
                assert!(Arc::ptr_eq(&q.protocol, &child));
                match q.host {
                    Host::Addr(addr) => seen.insert(addr),
                    other => panic!("expected resolved address, got {other:?}"),
                };
            }
            other => panic!("expected FollowUp, got {other:?}"),
        }
    }
    let expected: HashSet<SocketAddr> = [
        SocketAddr::v4(10, 0, 0, 1, 27960),
        SocketAddr::v4(10, 0, 0, 2, 27961),
    ]
    .into_iter()
    .collect();
    assert_eq!(seen, expected);
}

#[test]
fn q3m_parse_response_is_repeatable() {
    let child = Arc::new(DummyProtocol);
    let proto = Q3m {
        q3s_protocol: Some(child.clone()),
        ..Q3m::default()
    };
    let addrs = [(10, 0, 0, 1, 27960), (10, 0, 0, 2, 27961)];
    let data = getservers_response_bytes(&addrs, true);
    let a = proto.parse_response(&data, Some(getservers_response(&addrs, true))).unwrap();
    let b = proto.parse_response(&data, Some(getservers_response(&addrs, true))).unwrap();
    assert_eq!(a.expect_more, b.expect_more);
    assert_eq!(a.outcomes.len(), b.outcomes.len());
    for (x, y) in a.outcomes.iter().zip(b.outcomes.iter()) {
        match (x, y) {
            (Outcome::FollowUp(p), Outcome::FollowUp(q)) => {
                assert_eq!(p.host, q.host);
                assert!(Arc::ptr_eq(&p.protocol, &q.protocol));
            }
            other => panic!("expected follow-ups, got {other:?}"),
        }
    }
}

#[test]
fn q3m_parse_response_without_child_protocol_yields_nothing() {
    let proto: Q3m<Arc<DummyProtocol>> = Q3m::default();
    let addrs = [(10, 0, 0, 1, 27960)];
    let data = getservers_response_bytes(&addrs, true);
    let parsed = proto
        .parse_response(&data, Some(getservers_response(&addrs, true)))
        .unwrap();
    assert!(parsed.outcomes.is_empty());
}

#[test]
fn q3m_parse_response_expects_more_without_eot() {
    let proto = Q3m {
        q3s_protocol: Some(Arc::new(DummyProtocol)),
        ..Q3m::default()
    };
    let addrs = [(10, 0, 0, 1, 27960)];
    let data = getservers_response_bytes(&addrs, false);
    let parsed = proto
        .parse_response(&data, Some(getservers_response(&addrs, false)))
        .unwrap();
    assert!(parsed.expect_more);
    assert_eq!(parsed.outcomes.len(), 1);
}

#[test]
fn q3m_parse_response_rejects_wrong_packet_type() {
    let proto: Q3m<Arc<DummyProtocol>> = Q3m::default();
    let data = b"\xff\xff\xff\xffgetservers 71 empty full".to_vec();
    assert!(proto.parse_response(&data, Some(Q3Packet::Other)).is_err());
}

#[test]
fn parse_response_requires_eot_terminator() {
    let proto: Q3m<Arc<DummyProtocol>> = Q3m::default();
    let data = getservers_response_bytes(&[(10, 0, 0, 1, 27960)], false);
    assert!(proto.parse_response(&data, None).is_err());
}

#[test]
fn eot_marker_is_found_anywhere() {
    assert!(contains_eot(b"\\EOT"));
    assert!(contains_eot(b"abc\\EOT\0\0\0"));
    assert!(!contains_eot(b"\\EO"));
    assert!(!contains_eot(b""));
    assert!(!contains_eot(b"\\eot"));
}

// The server protocol.

fn default_q3s() -> Q3s<fn(Server) -> Option<Server>> {
    Q3s::with_filter(keep_all as fn(Server) -> Option<Server>)
}

#[test]
fn q3s_make_request_builds_getstatus_with_challenge() {
    match default_q3s().make_request() {
        Q3Request::GetStatus { challenge } => assert_eq!(challenge.trim(), "RGS"),
        other => panic!("expected GetStatus, got {:?}", other),
    }
}

#[test]
fn q3s_parse_response_maps_rules_and_players() {
    let parsed: Parsed<u8> = default_q3s()
        .parse_response(addr(), Some(full_status_response()))
        .unwrap();
    assert!(!parsed.expect_more);
    assert_eq!(parsed.outcomes.len(), 1);

    let server = match &parsed.outcomes[0] {
        Outcome::Server(s) => s,
        other => panic!("expected Server, got {other:?}"),
    };
    check_mapped_server(server);
    assert!(!server.rules.contains_key("sv_hostname"));
    assert!(!server.rules.contains_key("mapname"));
}

#[test]
fn q3s_parse_response_rejects_wrong_packet_type() {
    let r: Result<Parsed<u8>, Error> = default_q3s().parse_response(addr(), Some(Q3Packet::Other));
    assert!(r.is_err());
    let r: Result<Parsed<u8>, Error> = default_q3s().parse_response(addr(), None);
    assert!(r.is_err());
}

#[test]
fn q3s_server_filter_can_drop_servers() {
    let proto = Q3s::with_filter(|_: Server| -> Option<Server> { None });
    let packet = status_response(&[("sv_hostname", "Filtered")], vec![]);
    let parsed: Parsed<u8> = proto.parse_response(addr(), Some(packet)).unwrap();
    assert!(parsed.outcomes.is_empty());
}

#[test]
fn q3s_reading_sets_fields_even_when_rule_is_missing() {
    let mut srv = Server::new(addr());
    srv.name = Some("old".to_string());
    let data = StatusResponseData {
        info: StrMap::new(),
        players: vec![],
    };
    assert!(parse_q3a_server(&mut srv, data, &RuleMapping::default_names()).is_ok());
    assert_eq!(srv.name, None);
    assert_eq!(srv.num_clients, Some(0));

    let mut srv = Server::new(addr());
    srv.name = Some("old".to_string());
    let mapping = RuleMapping {
        server_name: None,
        ..RuleMapping::default_names()
    };
    let data = StatusResponseData {
        info: StrMap::new(),
        players: vec![],
    };
    assert!(parse_q3a_server(&mut srv, data, &mapping).is_ok());
    assert_eq!(srv.name.as_deref(), Some("old"));
}

#[test]
fn q3s_flags_are_read_as_one() {
    let packet = status_response(&[("sv_punkbuster", "yes"), ("g_needpass", "1")], vec![]);
    let parsed: Parsed<u8> = default_q3s().parse_response(addr(), Some(packet)).unwrap();
    let server = match &parsed.outcomes[0] {
        Outcome::Server(s) => s,
        other => panic!("expected Server, got {other:?}"),
    };
    assert_eq!(server.secure, Some(false));
    assert_eq!(server.need_pass, Some(true));
    assert_eq!(server.rules.len(), 0);
}

// The stream-style protocols.

#[test]
fn mod_make_request_builds_getservers() {
    let proto: master::ProtocolImpl<Arc<DummyProtocol>> = Default::default();
    match proto.make_request(None) {
        Q3Request::GetServers {
            request_tag,
            version,
            extra,
        } => {
            assert!(request_tag.is_none());
            assert_eq!(version, 71);
            assert!(extra.contains(&MasterQueryExtra::Empty));
            assert!(extra.contains(&MasterQueryExtra::Full));
        }
        other => panic!("request: {other:?}"),
    }
}

fn master_packet(data: Vec<u8>) -> Packet {
    Packet {
        addr: SocketAddr::v4(5, 6, 7, 8, 27950),
        data,
    }
}

#[test]
fn mod_parse_response_emits_followups_for_each_server() {
    let child = Arc::new(DummyProtocol);
    let proto = master::ProtocolImpl {
        q3s_protocol: Some(child.clone()),
        ..Default::default()
    };
    let addrs = [(10, 0, 0, 1, 27960), (10, 0, 0, 2, 27961)];
    let results = proto.parse_response(
        &master_packet(getservers_response_bytes(&addrs, true)),
        Some(getservers_response(&addrs, true)),
    );
    assert_eq!(results.len(), addrs.len());

    let mut seen = HashSet::new();
    for result in results {
        let follow_up = match result.expect("expected a successful parse result") {
            ParseResult::FollowUp(f) => f,
            other => panic!("expected FollowUp, got {other:?}"),
        };
        match &follow_up.protocol {
            FollowUpQueryProtocol::Child(c) => assert!(Arc::ptr_eq(c, &child)),
            other => panic!("expected Child, got {other:?}"),
        }
        assert!(follow_up.state.is_none());
        match follow_up.host {
            models::Host::A(addr) => seen.insert(addr),
            other => panic!("expected resolved address, got {other:?}"),
        };
    }
    let expected: HashSet<SocketAddr> = [
        SocketAddr::v4(10, 0, 0, 1, 27960),
        SocketAddr::v4(10, 0, 0, 2, 27961),
    ]
    .into_iter()
    .collect();
    assert_eq!(seen, expected);
}

#[test]
fn mod_parse_response_without_child_protocol_yields_nothing() {
    let proto: master::ProtocolImpl<Arc<DummyProtocol>> = Default::default();
    let addrs = [(10, 0, 0, 1, 27960)];
    assert!(proto
        .parse_response(
            &master_packet(getservers_response_bytes(&addrs, true)),
            Some(getservers_response(&addrs, true)),
        )
        .is_empty());
}

#[test]
fn mod_parse_response_rejects_wrong_packet_type() {
    let proto: master::ProtocolImpl<Arc<DummyProtocol>> = Default::default();
    let data = b"\xff\xff\xff\xffgetservers 71 empty full".to_vec();
    let packet = master_packet(data);
    let results = proto.parse_response(&packet, Some(Q3Packet::Other));
    assert_eq!(results.len(), 1);
    assert!(results[0].is_err());
    assert!(matches!(&results[0], Err((Some(q), Error::DataParseError)) if *q == packet));

    let proto = server::ProtocolImpl::with_filter(keep_all);
    let data = b"\xff\xff\xff\xffgetstatus RGS".to_vec();
    let packet = Packet { addr: addr(), data };
    let results: Vec<Result<ParseResult<u8>, PacketError>> =
        proto.parse_response(&packet, Some(Q3Packet::Other));
    assert_eq!(results.len(), 1);
    assert!(results[0].is_err());
    assert_eq!(results[0], Err((Some(packet), Error::DataParseError)));
}

#[test]
fn mod_make_request_builds_getstatus_with_challenge() {
    let proto = server::ProtocolImpl::with_filter(keep_all);
    assert_eq!(proto.version, 71);
    match proto.make_request(None) {
        Q3Request::GetStatus { challenge } => assert_eq!(challenge.trim(), "RGS"),
        other => panic!("expected GetStatus, got {:?}", other),
    }
}

#[test]
fn mod_parse_response_maps_rules_and_players() {
    let proto = server::ProtocolImpl::with_filter(keep_all);
    let results: Vec<Result<ParseResult<u8>, PacketError>> = proto.parse_response(
        &Packet {
            addr: addr(),
            data: vec![],
        },
        Some(full_status_response()),
    );
    assert_eq!(results.len(), 1);
    let server = match &results[0] {
        Ok(ParseResult::Output(s)) => s,
        other => panic!("expected Output, got {other:?}"),
    };
    check_mapped_server(server);
    assert!(!server.rules.contains_key("sv_hostname"));
    assert!(!server.rules.contains_key("mapname"));
}

#[test]
fn mod_server_filter_can_drop_servers() {
    let proto = server::ProtocolImpl::with_filter(|_: Server| -> Option<Server> { None });
    let packet = status_response(&[("sv_hostname", "Filtered")], vec![]);
    let results: Vec<Result<ParseResult<u8>, PacketError>> = proto.parse_response(
        &Packet {
            addr: addr(),
            data: vec![],
        },
        Some(packet),
    );
    assert!(results.is_empty());
}
