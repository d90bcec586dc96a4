use rgs::dns::{plan_resolve, resolved_address, select_address, Resolution};
use rgs::errors::Error;
use rgs::model::{Country, Host, Player, Server, Status};
use rgs::models;
use rgs::models::{FollowUpQuery, FollowUpQueryProtocol, Query, StringAddr, UserQuery};
use rgs::net::{IpAddr, SocketAddr};
use rgs::value::{StrMap, Value};
use std::sync::Arc;

fn addr() -> SocketAddr {
    SocketAddr::v4(127, 0, 0, 1, 27960)
}

#[derive(Clone, Debug, PartialEq)]
struct DummyProtocol;

/// A shared protocol instance; two are equal when they are the same instance.
#[derive(Clone, Debug)]
struct SharedProtocol(Arc<DummyProtocol>);

impl PartialEq for SharedProtocol {
    fn eq(&self, other: &Self) -> bool {
        Arc::ptr_eq(&self.0, &other.0)
    }
}

#[test]
fn model_host_from_conversions() {
    assert_eq!(Host::from(addr()), Host::Addr(addr()));
    assert_eq!(
        Host::from(("example.com", 27960)),
        Host::Named {
            host: "example.com".to_string(),
            port: 27960,
        }
    );
}

#[test]
fn mod_host_from_conversions() {
    assert_eq!(models::Host::from(addr()), models::Host::A(addr()));
    assert_eq!(
        models::Host::from(("example.com", 27960)),
        models::Host::S(StringAddr {
            host: "example.com".to_string(),
            port: 27960,
        })
    );
}

#[test]
fn host_from_owned_name() {
    assert_eq!(
        models::Host::from(("example.com".to_string(), 27960)),
        models::Host::S(StringAddr {
            host: "example.com".to_string(),
            port: 27960,
        })
    );
}

#[test]
fn query_userquery_roundtrip() {
    let protocol = DummyProtocol;
    let user = UserQuery {
        protocol: protocol.clone(),
        host: models::Host::A(addr()),
    };

    let query = Query::from(user.clone());
    assert_eq!(query.host, models::Host::A(addr()));
    assert!(query.state.is_none());

    assert_eq!(UserQuery::from(query), user);
}

#[test]
fn userquery_equality_uses_host_and_protocol_identity() {
    let protocol = SharedProtocol(Arc::new(DummyProtocol));
    let other_protocol = SharedProtocol(Arc::new(DummyProtocol));

    let base = UserQuery {
        protocol: protocol.clone(),
        host: models::Host::A(addr()),
    };

    assert_eq!(
        base,
        UserQuery {
            protocol: protocol.clone(),
            host: models::Host::A(addr()),
        }
    );

    assert_ne!(
        base,
        UserQuery {
            protocol: other_protocol,
            host: models::Host::A(addr()),
        }
    );

    assert_ne!(
        base,
        UserQuery {
            protocol,
            host: models::Host::from(("example.com", 27960)),
        }
    );
}

#[test]
fn follow_up_query_takes_asking_or_child_protocol() {
    let this = FollowUpQuery {
        host: models::Host::A(addr()),
        state: Some(Value::Str("IPv4Polled".to_string())),
        protocol: FollowUpQueryProtocol::This,
    };
    let q = Query::from((this, 1u32));
    assert_eq!(q.protocol, 1);
    assert_eq!(q.state, Some(Value::Str("IPv4Polled".to_string())));

    let child = FollowUpQuery {
        host: models::Host::A(addr()),
        state: None,
        protocol: FollowUpQueryProtocol::Child(2u32),
    };
    let q = Query::from((child, 1u32));
    assert_eq!(q.protocol, 2);
    assert!(q.state.is_none());
}

#[test]
fn server_entries_are_equal_by_address() {
    let mut a = Server::new(addr());
    a.name = Some("one".to_string());
    let b = Server::new(addr());
    let c = Server::new(SocketAddr::v4(127, 0, 0, 1, 27961));
    assert!(models::ServerEntry::new(1u8, a.clone()) == models::ServerEntry::new(2u8, b));
    assert!(models::ServerEntry::new(1u8, a.clone()) != models::ServerEntry::new(1u8, c));
    let (p, s) = models::ServerEntry::new(7u8, a.clone()).into_inner();
    assert_eq!(p, 7);
    assert_eq!(s, a);
}

#[test]
fn country_serializes_to_iso_code() {
    assert_eq!(Country::from_code("RU").code(), "RU");
    assert_eq!(Country::default().code(), "");
}

#[test]
fn country_deserializes_known_and_unknown_codes() {
    let known = Country::from_code("RU");
    assert_eq!(known, Country::from_code("RU"));
    assert_eq!(known.code(), "RU");

    let unknown = Country::from_code("not-a-code");
    assert_eq!(unknown, Country::default());
}

#[test]
fn country_code_reads_back_as_the_same_country() {
    for code in ["RU", "DE", ""] {
        let c = Country::from_code(code);
        assert_eq!(Country::from_code(c.code()), c);
    }
}

#[test]
fn default_player_is_empty() {
    let p = Player::default();
    assert_eq!(p.name, "");
    assert_eq!(p.ping, None);
    assert_eq!(p.info.len(), 0);
}

#[test]
fn new_server_is_blank() {
    let srv = Server::new(addr());
    assert_eq!(srv.addr, addr());
    assert_eq!(srv.status, Status::Unspecified);
    assert_eq!(srv.country, Country::unspecified());
    assert_eq!(srv.rules.len(), 0);
    assert!(srv.name.is_none());
    assert!(srv.players.is_none());
    assert!(srv.ping.is_none());
}

#[test]
fn player_info_holds_values() {
    let mut info = StrMap::new();
    info.insert("score".to_string(), Value::Int(10));
    let p = Player {
        name: "alice".to_string(),
        ping: Some(20),
        info,
    };
    assert_eq!(p.info.get("score"), Some(&Value::Int(10)));
}

#[test]
fn resolve_returns_literal_address_unchanged() {
    let addr = SocketAddr::v4(9, 9, 9, 9, 27960);
    assert_eq!(plan_resolve(Host::Addr(addr)), Resolution::Resolved(addr));
}

#[test]
fn resolve_named_host_asks_for_lookup() {
    assert_eq!(
        plan_resolve(Host::Named {
            host: "example.com".to_string(),
            port: 27960
        }),
        Resolution::Lookup {
            host: "example.com".to_string(),
            port: 27960
        }
    );
}

#[test]
fn resolve_prefers_ipv4() {
    let v6 = IpAddr::V6(1);
    let v4 = IpAddr::V4(10, 0, 0, 1);
    let v4b = IpAddr::V4(10, 0, 0, 2);
    assert_eq!(select_address(&[v6, v4, v4b]), Some(v4));
    assert_eq!(select_address(&[v6]), Some(v6));
    assert_eq!(select_address(&[]), None);
    assert_eq!(
        resolved_address(&[v6, v4], 27960),
        Some(SocketAddr::new(v4, 27960))
    );
    assert_eq!(resolved_address(&[], 27960), None);
}

#[test]
fn error_messages() {
    assert_eq!(Error::NullError.message(), "Null error");
    assert_eq!(Error::DataParseError.message(), "Data parse error");
    assert_eq!(Error::NetworkError.message(), "Network error");
    assert_eq!(Error::InvalidPacketError.message(), "Invalid packet");
    assert_eq!(Error::PipeError.message(), "Pipe error");
    assert_eq!(Error::TimeoutError.message(), "Operation timed out");
}
