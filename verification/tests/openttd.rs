use rgs::errors::Error;
use rgs::model::{Server, Status};
use rgs::models::{Config, FollowUpQueryProtocol, Host, Packet, PacketError, ParseResult};
use rgs::net::SocketAddr;
use rgs::protocols::a2s::A2SProtocol;
use rgs::protocols::helpers::make_request_packet;
use rgs::protocols::openttd_server::{self, parse_server, GameDates, NewGrf, ServerProtocolVer, ServerResponse};
use rgs::protocols::openttdm::{self, ServerList, ServerListType, State, MASTER_VERSION};
use rgs::protocols::openttds::{parse_data, ProtocolImpl, ProtocolVer, V2Data};
use rgs::value::{StrMap, Value};

fn fixture_data() -> Vec<u8> {
    vec![
        0x86, 0x00, 0x01, 0x04, 0x03, 0x4D, 0x47, 0x03, 0x05, 0x2E, 0x96, 0xB9, 0xAB, 0x2B,
        0xEA, 0x68, 0x6B, 0xFF, 0x94, 0x96, 0x1A, 0xD4, 0x33, 0xA7, 0x01, 0x32, 0x32, 0x33,
        0x22, 0x31, 0x61, 0x80, 0xDA, 0x1B, 0xA6, 0x44, 0x4A, 0x06, 0xCD, 0x17, 0xF8, 0xFA,
        0x79, 0xD6, 0x0A, 0x44, 0x4E, 0x07, 0x00, 0x48, 0xB3, 0xF9, 0xE4, 0xFD, 0x0D, 0xF2,
        0xA7, 0x2B, 0x5F, 0x44, 0xD3, 0xC8, 0xA2, 0xF4, 0xA0, 0x63, 0xEC, 0x0A, 0x00, 0x63,
        0xEC, 0x0A, 0x00, 0x0F, 0x00, 0x0A, 0x4F, 0x6E, 0x6C, 0x79, 0x46, 0x72, 0x69, 0x65,
        0x6E, 0x64, 0x73, 0x20, 0x4F, 0x70, 0x65, 0x6E, 0x54, 0x54, 0x44, 0x20, 0x53, 0x65,
        0x72, 0x76, 0x65, 0x72, 0x20, 0x23, 0x31, 0x00, 0x31, 0x2E, 0x35, 0x2E, 0x33, 0x00,
        0x16, 0x00, 0x19, 0x00, 0x00, 0x52, 0x61, 0x6E, 0x64, 0x6F, 0x6D, 0x20, 0x4D, 0x61,
        0x70, 0x00, 0x00, 0x04, 0x00, 0x04, 0x01, 0x01,
    ]
}

fn object(pairs: &[(&str, &str)]) -> Value {
    let mut m = StrMap::new();
    for (k, v) in pairs {
        m.insert(k.to_string(), v.to_string());
    }
    Value::Object(m)
}

fn rule(srv: &mut Server, key: &str, value: Value) {
    srv.rules.insert(key.to_string(), value);
}

fn fixtures() -> (SocketAddr, Vec<u8>, Server) {
    let addr = SocketAddr::v4(127, 0, 0, 1, 9000);
    let mut srv = Server::new(addr);
    srv.status = Status::Up;
    srv.name = Some("OnlyFriends OpenTTD Server #1".into());
    srv.map = Some("Random Map".into());
    srv.num_clients = Some(0);
    srv.max_clients = Some(25);
    srv.need_pass = Some(false);
    rule(&mut srv, "protocol-version", Value::Int(4));
    rule(
        &mut srv,
        "active-newgrf",
        object(&[
            ("4d470305", "2e96b9ab2bea686bff94961ad433a701"),
            ("32323322", "316180da1ba6444a06cd17f8fa79d60a"),
            ("444e0700", "48b3f9e4fd0df2a72b5f44d3c8a2f4a0"),
        ]),
    );
    rule(&mut srv, "current-time", Value::Int(1676413440));
    rule(&mut srv, "start-time", Value::Int(1676413440));
    rule(&mut srv, "max-companies", Value::Int(15));
    rule(&mut srv, "current-companies", Value::Int(0));
    rule(&mut srv, "server-version", Value::Str("1.5.3".into()));
    rule(&mut srv, "language-id", Value::Int(22));
    rule(&mut srv, "current-spectators", Value::Int(0));
    rule(&mut srv, "max-spectators", Value::Int(10));
    rule(&mut srv, "map-set", Value::Int(1));
    rule(&mut srv, "dedicated", Value::Bool(true));
    (addr, fixture_data(), srv)
}

#[test]
fn openttds_test_p_make_request() {
    let expectation = vec![3, 0, 0];
    let result = ProtocolImpl.make_request(None);
    assert_eq!(expectation, result);
}

#[test]
fn openttds_test_p_parse_response() {
    let p = ProtocolImpl;
    let (addr, data, server) = fixtures();

    let expectation: Vec<ParseResult<u8>> = vec![ParseResult::Output(server)];

    let result = p
        .parse_response(Packet { addr, data })
        .into_iter()
        .map(|res| res.unwrap())
        .collect::<Vec<ParseResult<u8>>>();

    assert_eq!(result, expectation);
}

#[test]
fn openttds_parse_data_reads_fixture() {
    let info = parse_data(&fixture_data()).unwrap();
    assert_eq!(info.protocol_ver.number(), 4);
    assert_eq!(info.name, "OnlyFriends OpenTTD Server #1");
    assert_eq!(info.server_version, "1.5.3");
    assert_eq!(info.language_id, 22);
    assert!(!info.need_pass);
    assert_eq!(info.max_clients, 25);
    assert_eq!(info.num_clients, 0);
    assert_eq!(info.map, "Random Map");
    assert_eq!(info.map_set, 1);
    assert!(info.dedicated);
    match info.protocol_ver {
        ProtocolVer::V4(v2, v3, v4) => {
            assert_eq!(
                v2,
                V2Data {
                    max_companies: 15,
                    current_companies: 0,
                    max_spectators: 10
                }
            );
            assert_eq!(v3.current_time, 1676413440);
            assert_eq!(v3.start_time, 1676413440);
            assert_eq!(v4.active_newgrf.len(), 3);
            assert_eq!(
                v4.active_newgrf.get("444e0700").map(String::as_str),
                Some("48b3f9e4fd0df2a72b5f44d3c8a2f4a0")
            );
        }
        other => panic!("expected version 4, got {other:?}"),
    }
}

#[test]
fn openttds_short_packets_are_errors() {
    let data = fixture_data();
    for len in [0, 3, 4, 20, 70, 100, data.len() - 1] {
        assert_eq!(parse_data(&data[..len]).map(|_| ()), Err(Error::DataParseError));
    }
    let results: Vec<Result<ParseResult<u8>, Error>> = ProtocolImpl.parse_response(Packet {
        addr: SocketAddr::v4(127, 0, 0, 1, 9000),
        data: data[..50].to_vec(),
    });
    assert_eq!(results, vec![Err(Error::DataParseError)]);
}

#[test]
fn openttds_unsupported_version_is_an_error() {
    let mut data = fixture_data();
    data[3] = 5;
    assert_eq!(parse_data(&data).map(|_| ()), Err(Error::DataParseError));
}

#[test]
fn openttds_version_one_has_no_extra_rules() {
    // Header, version 1, name "A", revision "r", language 1, no password,
    // 8 max clients, 2 clients, 0 spectators, 4 skipped bytes, map "M",
    // 4 skipped bytes, map set 0, not dedicated.
    let data = vec![
        0, 0, 0, 1, b'A', 0, b'r', 0, 1, 0, 8, 2, 0, 0, 0, 0, 0, b'M', 0, 0, 0, 0, 0, 0, 0,
    ];
    let results: Vec<Result<ParseResult<u8>, Error>> = ProtocolImpl.parse_response(Packet {
        addr: SocketAddr::v4(10, 0, 0, 1, 3979),
        data,
    });
    let mut srv = Server::new(SocketAddr::v4(10, 0, 0, 1, 3979));
    srv.status = Status::Up;
    srv.name = Some("A".into());
    srv.map = Some("M".into());
    srv.need_pass = Some(false);
    srv.num_clients = Some(2);
    srv.max_clients = Some(8);
    rule(&mut srv, "protocol-version", Value::Int(1));
    rule(&mut srv, "server-version", Value::Str("r".into()));
    rule(&mut srv, "language-id", Value::Int(1));
    rule(&mut srv, "current-spectators", Value::Int(0));
    rule(&mut srv, "map-set", Value::Int(0));
    rule(&mut srv, "dedicated", Value::Bool(false));
    assert_eq!(results, vec![Ok(ParseResult::Output(srv))]);
}

#[test]
fn openttds_version_three_has_dates_and_limits() {
    let mut data = vec![0, 0, 0, 3];
    data.extend_from_slice(&100u32.to_be_bytes());
    data.extend_from_slice(&50u32.to_be_bytes());
    data.extend_from_slice(&[8, 1, 4]);
    data.extend_from_slice(b"N\0r\0");
    data.extend_from_slice(&[3, 1, 16, 5, 2]);
    data.extend_from_slice(b"Map\0");
    data.extend_from_slice(&[0, 0, 0, 0, 2, 0]);
    let results: Vec<Result<ParseResult<u8>, Error>> = ProtocolImpl.parse_response(Packet {
        addr: SocketAddr::v4(10, 0, 0, 1, 3979),
        data,
    });
    let mut srv = Server::new(SocketAddr::v4(10, 0, 0, 1, 3979));
    srv.status = Status::Up;
    srv.name = Some("N".into());
    srv.map = Some("Map".into());
    srv.need_pass = Some(true);
    srv.num_clients = Some(5);
    srv.max_clients = Some(16);
    rule(&mut srv, "protocol-version", Value::Int(3));
    rule(&mut srv, "current-time", Value::Int(100));
    rule(&mut srv, "start-time", Value::Int(50));
    rule(&mut srv, "max-companies", Value::Int(8));
    rule(&mut srv, "current-companies", Value::Int(1));
    rule(&mut srv, "max-spectators", Value::Int(4));
    rule(&mut srv, "server-version", Value::Str("r".into()));
    rule(&mut srv, "language-id", Value::Int(3));
    rule(&mut srv, "current-spectators", Value::Int(2));
    rule(&mut srv, "map-set", Value::Int(2));
    rule(&mut srv, "dedicated", Value::Bool(false));
    assert_eq!(results, vec![Ok(ParseResult::Output(srv))]);
}

#[test]
fn openttds_invalid_utf8_name_is_an_error() {
    let mut data = fixture_data();
    // The first byte of the server name.
    data[76] = 0xff;
    assert_eq!(parse_data(&data).map(|_| ()), Err(Error::DataParseError));
}

fn version_one_packet() -> Vec<u8> {
    vec![
        0, 0, 0, 1, b'A', 0, b'r', 0, 1, 0, 8, 2, 0, 0, 0, 0, 0, b'M', 0, 0, 0, 0, 0, 0, 0,
    ]
}

#[test]
fn openttds_trailing_bytes_are_ignored() {
    let mut data = fixture_data();
    let info = parse_data(&data).unwrap();
    data.extend_from_slice(&[1, 2, 3, 0]);
    assert_eq!(parse_data(&data), Ok(info));

    let v1 = version_one_packet();
    assert_eq!(v1.len(), 25);
    assert!(parse_data(&v1).is_ok());
    assert_eq!(parse_data(&v1[..24]).map(|_| ()), Err(Error::DataParseError));
}

#[test]
fn openttds_version_zero_reads_as_version_one() {
    let v1 = version_one_packet();
    let mut v0 = v1.clone();
    v0[3] = 0;
    let info = parse_data(&v0).unwrap();
    assert_eq!(info.protocol_ver, ProtocolVer::V1);
    assert_eq!(parse_data(&v0), parse_data(&v1));
}

/// The response the `openttd` crate decodes out of the fixture packet.
fn decoded_response() -> ServerResponse {
    fn grf(id: &str, hash: &str) -> NewGrf {
        NewGrf {
            id: id.to_string(),
            hash: hash.to_string(),
        }
    }
    ServerResponse {
        protocol_ver: ServerProtocolVer::V4(
            V2Data {
                max_companies: 15,
                current_companies: 0,
                max_spectators: 10,
            },
            GameDates {
                game_date: 715875,
                start_date: 715875,
            },
            vec![
                grf("84100941", "2e96b9ab2bea686bff94961ad433a701"),
                grf("573780530", "316180da1ba6444a06cd17f8fa79d60a"),
                grf("478788", "48b3f9e4fd0df2a72b5f44d3c8a2f4a0"),
            ],
        ),
        server_name: b"OnlyFriends OpenTTD Server #1".to_vec(),
        server_revision: b"1.5.3".to_vec(),
        server_lang: 22,
        use_password: false,
        clients_max: 25,
        clients_on: 0,
        spectators_on: 0,
        map_name: b"Random Map".to_vec(),
        map_set: 1,
        dedicated: true,
    }
}

#[test]
fn mod_test_p_parse_response() {
    let addr = SocketAddr::v4(127, 0, 0, 1, 9000);
    let mut srv = Server::new(addr);
    srv.status = Status::Up;
    srv.name = Some("OnlyFriends OpenTTD Server #1".into());
    srv.map = Some("Random Map".into());
    srv.num_clients = Some(0);
    srv.max_clients = Some(25);
    srv.need_pass = Some(false);
    rule(&mut srv, "protocol-version", Value::Int(4));
    rule(
        &mut srv,
        "active-newgrf",
        object(&[
            ("478788", "48b3f9e4fd0df2a72b5f44d3c8a2f4a0"),
            ("84100941", "2e96b9ab2bea686bff94961ad433a701"),
            ("573780530", "316180da1ba6444a06cd17f8fa79d60a"),
        ]),
    );
    rule(&mut srv, "current-time", Value::Int(715875));
    rule(&mut srv, "start-time", Value::Int(715875));
    rule(&mut srv, "max-companies", Value::Int(15));
    rule(&mut srv, "current-companies", Value::Int(0));
    rule(&mut srv, "server-version", Value::Str("1.5.3".into()));
    rule(&mut srv, "language-id", Value::Int(22));
    rule(&mut srv, "current-spectators", Value::Int(0));
    rule(&mut srv, "max-spectators", Value::Int(10));
    rule(&mut srv, "map-set", Value::Int(1));
    rule(&mut srv, "dedicated", Value::Bool(true));

    let expectation: Vec<Result<ParseResult<u8>, PacketError>> = vec![Ok(ParseResult::Output(srv.clone()))];
    let result = openttd_server::ProtocolImpl.parse_response(
        &Packet {
            addr,
            data: fixture_data(),
        },
        Some(decoded_response()),
    );
    assert_eq!(expectation, result);
    assert_eq!(parse_server(addr, decoded_response()), Ok(srv));
}

#[test]
fn openttd_server_undecodable_packet_is_an_error() {
    let packet = Packet {
        addr: SocketAddr::v4(127, 0, 0, 1, 9000),
        data: vec![1, 2, 3],
    };
    let result: Vec<Result<ParseResult<u8>, PacketError>> =
        openttd_server::ProtocolImpl.parse_response(&packet, None);
    assert_eq!(result, vec![Err((Some(packet), Error::DataParseError))]);
}

#[test]
fn openttd_server_reads_names_leniently_and_revision_strictly() {
    let addr = SocketAddr::v4(127, 0, 0, 1, 9000);
    let mut info = decoded_response();
    info.server_name = vec![b'A', 0xff, b'B'];
    let srv = parse_server(addr, info).unwrap();
    assert_eq!(srv.name.as_deref(), Some("A\u{FFFD}B"));

    let mut info = decoded_response();
    info.server_revision = vec![0xff];
    assert_eq!(parse_server(addr, info), Err(Error::DataParseError));
}

// The master protocol.

#[derive(Clone, Debug, PartialEq)]
struct Child(u8);

#[test]
fn openttdm_requests_ipv4_then_ipv6() {
    let proto = openttdm::ProtocolImpl { child: Some(Child(1)) };
    let first = proto.make_request(&None);
    assert_eq!(first.master_server_version, MASTER_VERSION);
    assert_eq!(first.request_type, ServerListType::IPv4);
    let second = proto.make_request(&Some(State::IPv4Polled.to_value()));
    assert_eq!(second.master_server_version, 2);
    assert_eq!(second.request_type, ServerListType::IPv6);
}

#[test]
fn openttdm_ipv4_list_asks_again_and_follows_each_server() {
    let proto = openttdm::ProtocolImpl { child: Some(Child(1)) };
    let master = SocketAddr::v4(5, 6, 7, 8, 3978);
    let servers = vec![
        SocketAddr::v4(10, 0, 0, 1, 3979),
        SocketAddr::v4(10, 0, 0, 2, 3979),
    ];
    let results = proto.parse_response(
        &Packet {
            addr: master,
            data: vec![],
        },
        Ok(ServerList::IPv4(servers.clone())),
    );
    assert_eq!(results.len(), 3);
    match &results[0] {
        Ok(ParseResult::FollowUp(f)) => {
            assert_eq!(f.host, Host::A(master));
            assert_eq!(f.protocol, FollowUpQueryProtocol::This);
            assert_eq!(f.state, Some(Value::Str("IPv4Polled".into())));
        }
        other => panic!("expected FollowUp, got {other:?}"),
    }
    if let Ok(ParseResult::FollowUp(f)) = &results[0] {
        assert_eq!(proto.make_request(&f.state).request_type, ServerListType::IPv6);
    }
    for (i, s) in servers.iter().enumerate() {
        match &results[i + 1] {
            Ok(ParseResult::FollowUp(f)) => {
                assert_eq!(f.host, Host::A(*s));
                assert_eq!(f.protocol, FollowUpQueryProtocol::Child(Child(1)));
                assert!(f.state.is_none());
            }
            other => panic!("expected FollowUp, got {other:?}"),
        }
    }
}

#[test]
fn openttdm_ipv6_list_follows_each_server_only() {
    let proto = openttdm::ProtocolImpl { child: Some(Child(1)) };
    let servers = vec![SocketAddr::new(rgs::net::IpAddr::V6(1), 3979)];
    let results = proto.parse_response(
        &Packet {
            addr: SocketAddr::v4(5, 6, 7, 8, 3978),
            data: vec![],
        },
        Ok(ServerList::IPv6(servers)),
    );
    assert_eq!(results.len(), 1);
    assert!(matches!(&results[0], Ok(ParseResult::FollowUp(f)) if f.protocol == FollowUpQueryProtocol::Child(Child(1))));
}

#[test]
fn openttdm_without_child_yields_nothing_and_passes_errors_on() {
    let none: openttdm::ProtocolImpl<Child> = openttdm::ProtocolImpl { child: None };
    let packet = Packet {
        addr: SocketAddr::v4(5, 6, 7, 8, 3978),
        data: vec![],
    };
    assert!(none
        .parse_response(&packet, Ok(ServerList::IPv4(vec![SocketAddr::v4(10, 0, 0, 1, 3979)])))
        .is_empty());
    let some = openttdm::ProtocolImpl { child: Some(Child(1)) };
    assert_eq!(
        some.parse_response(&packet, Err(Error::DataParseError)),
        vec![Err((Some(packet.clone()), Error::DataParseError))]
    );
}

// Other request builders.

#[test]
fn a2s_request_bytes() {
    let mut expected = vec![4, 4, 4, 4];
    expected.extend_from_slice(b"TSource Engine Query");
    expected.push(0);
    assert_eq!(A2SProtocol {}.make_request(None), expected);
}

#[test]
fn request_packet_from_template() {
    let mut config: Config = StrMap::new();
    config.insert("name".to_string(), "world".to_string());
    assert_eq!(
        make_request_packet("hello {{name}}", &config),
        Ok(b"hello world".to_vec())
    );
    assert_eq!(
        make_request_packet("hello {{#if}}", &config),
        Err(Error::DataParseError)
    );
}
