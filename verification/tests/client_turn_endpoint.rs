use csqtt::client::turn_endpoint::{
    is_supported_turn_uri, resolve_turn_endpoints, EndpointError, TurnEndpoint,
    TurnTransportMode, TurnWireTransport,
};

#[test]
fn tcp_mode_accepts_current_and_legacy_cli_values() {
    assert_eq!(
        TurnTransportMode::parse("tcp").unwrap(),
        TurnTransportMode::TcpTls
    );
    assert_eq!(
        TurnTransportMode::parse("tcp_tls").unwrap(),
        TurnTransportMode::TcpTls
    );
    assert_eq!(TurnTransportMode::TcpTls.as_str(), "TCP");
}

#[test]
fn udp_mode_accepts_bare_and_explicit_udp_uris() {
    let bare = resolve_turn_endpoints(
        "turn:relay.example:3478",
        None,
        None,
        TurnTransportMode::Udp,
    )
    .unwrap();
    assert_eq!(bare[0].transport, TurnWireTransport::Udp);
    let explicit = resolve_turn_endpoints(
        "turn:relay.example:3478?transport=udp",
        None,
        None,
        TurnTransportMode::Udp,
    )
    .unwrap();
    assert_eq!(explicit[0].socket_authority(), "relay.example:3478");
}

#[test]
fn tcp_mode_uses_raw_tcp_for_turn_uris() {
    let candidates = resolve_turn_endpoints(
        "turn:relay.example:3478",
        None,
        None,
        TurnTransportMode::TcpTls,
    )
    .unwrap();
    assert_eq!(candidates.len(), 1);
    assert_eq!(candidates[0].transport, TurnWireTransport::Tcp);
    assert!(resolve_turn_endpoints(
        "turn:relay.example:3478?transport=udp",
        None,
        None,
        TurnTransportMode::TcpTls,
    )
    .is_err());
}

#[test]
fn turns_uri_requires_tls_with_hostname() {
    let candidates = resolve_turn_endpoints(
        "turns:relay.example:5349?transport=tcp",
        None,
        None,
        TurnTransportMode::TcpTls,
    )
    .unwrap();
    assert_eq!(candidates[0].transport, TurnWireTransport::Tls);
    assert_eq!(candidates[0].tls_server_name().unwrap(), "relay.example");
    assert!(resolve_turn_endpoints(
        "turns:192.0.2.1:5349",
        None,
        None,
        TurnTransportMode::TcpTls,
    )
    .unwrap()[0]
        .tls_server_name()
        .is_err());
}

#[test]
fn tcp_uri_is_preserved_for_tcp_mode() {
    let candidates = resolve_turn_endpoints(
        "turn:relay.example:3478?transport=tcp",
        Some("override.example"),
        Some("19302"),
        TurnTransportMode::TcpTls,
    )
    .unwrap();
    assert_eq!(candidates[0].transport, TurnWireTransport::Tcp);
    assert_eq!(candidates[0].socket_authority(), "override.example:19302");
}

fn refused(uri: &str, mode: TurnTransportMode) -> EndpointError {
    match resolve_turn_endpoints(uri, None, None, mode) {
        Ok(_) => panic!("{uri} was accepted"),
        Err(error) => error,
    }
}

#[test]
fn each_defect_of_a_uri_has_its_error() {
    let udp = TurnTransportMode::Udp;
    let tcp = TurnTransportMode::TcpTls;
    assert_eq!(refused("", udp), EndpointError::Empty);
    assert_eq!(refused("turn:", udp), EndpointError::EmptyAuthority);
    assert_eq!(
        refused("turn:relay.example?transport=sctp", udp),
        EndpointError::UnsupportedTransport
    );
    assert_eq!(
        refused("turn:relay.example?transport=udp&transport=udp", udp),
        EndpointError::DuplicateTransport
    );
    assert_eq!(
        refused("turns:relay.example?transport=udp", tcp),
        EndpointError::TurnsOverUdp
    );
    assert_eq!(refused("turn:[::1", udp), EndpointError::MalformedIpv6);
    assert_eq!(refused("turn:::1", udp), EndpointError::BareIpv6);
    assert_eq!(refused("turn::3478", udp), EndpointError::EmptyHost);
    assert_eq!(refused("turn:relay.example:port", udp), EndpointError::InvalidPort);
    assert_eq!(refused("turns:relay.example", udp), EndpointError::TlsInUdpMode);
    assert_eq!(
        refused("turn:relay.example?transport=tcp", udp),
        EndpointError::TcpInUdpMode
    );
    assert_eq!(
        refused("turn:relay.example?transport=udp", tcp),
        EndpointError::UdpInTcpMode
    );
    assert_eq!(
        TurnTransportMode::parse(" Carrier Pigeon "),
        Err(EndpointError::UnsupportedMode("carrier pigeon".to_owned()))
    );
    assert_eq!(
        TurnTransportMode::parse(" Carrier \"Pigeon\" ").unwrap_err().text(),
        "unsupported TURN transport mode \"carrier \\\"pigeon\\\"\""
    );
}

#[test]
fn default_ports_follow_the_scheme() {
    let plain =
        resolve_turn_endpoints("relay.example", None, None, TurnTransportMode::Udp).unwrap();
    assert_eq!(plain[0].port, 3478);
    let tls =
        resolve_turn_endpoints("turns:relay.example", None, None, TurnTransportMode::TcpTls)
            .unwrap();
    assert_eq!(tls[0].port, 5349);
    assert_eq!(plain[0].tls_server_name(), Err(EndpointError::NotTls));
}

#[test]
fn supported_uris_are_known_before_they_are_resolved() {
    assert!(is_supported_turn_uri("turn:relay.example:3478"));
    assert!(is_supported_turn_uri("turns:relay.example:5349?transport=tcp"));
    assert!(!is_supported_turn_uri("turn:relay.example?transport=sctp"));
    assert!(!is_supported_turn_uri("  "));
}

#[test]
fn ipv6_authority_keeps_its_brackets() {
    let endpoints =
        resolve_turn_endpoints("turn:[2001:db8::1]:3479", None, None, TurnTransportMode::Udp)
            .unwrap();
    assert_eq!(endpoints[0].host, "2001:db8::1");
    assert_eq!(endpoints[0].socket_authority(), "[2001:db8::1]:3479");
}

#[test]
fn printed_authorities_read_back() {
    for (host, authority) in [
        ("::1", "[::1]:5000"),
        ("relay.example", "relay.example:5000"),
        ("turnip", "turnip:5000"),
    ] {
        let endpoint = TurnEndpoint {
            host: host.to_owned(),
            port: 5000,
            transport: TurnWireTransport::Udp,
        };
        assert_eq!(endpoint.socket_authority(), authority);
        let read = resolve_turn_endpoints(authority, None, None, TurnTransportMode::Udp).unwrap();
        assert_eq!(read, vec![endpoint]);
    }
}
