use csqtt::client::dns::{
    build_query, distinct_addresses, parse_response, second_query, socket_target, AskStep,
    Asked, Asking, DnsError, DnsResolver, LookupStep, ServerReply, SocketTarget, DNS_AAAA_RECORD, DNS_A_RECORD,
};
use csqtt::net::{IpAddress, SocketAddress};

#[test]
fn parses_compressed_ipv4_answer() {
    let response = [
        0x12, 0x34, 0x81, 0x80, 0x00, 0x01, 0x00, 0x01, 0x00, 0x00, 0x00, 0x00, 0x02, b'v', b'k',
        0x02, b'r', b'u', 0x00, 0x00, 0x01, 0x00, 0x01, 0xc0, 0x0c, 0x00, 0x01, 0x00, 0x01, 0x00,
        0x00, 0x00, 0x3c, 0x00, 0x04, 77, 88, 8, 8,
    ];
    assert_eq!(
        parse_response(&response, 0x1234).unwrap(),
        vec![IpAddress::V4(u32::from_be_bytes([77, 88, 8, 8]))]
    );
    assert_eq!(parse_response(&response, 1), Err(DnsError::ForeignId));
    assert_eq!(parse_response(&response[..11], 0x1234), Err(DnsError::TooShort));
    assert_eq!(
        parse_response(&response[..30], 0x1234),
        Err(DnsError::Header)
    );
    assert_eq!(
        parse_response(&response[..37], 0x1234),
        Err(DnsError::Record)
    );
}

#[test]
fn refused_answers_say_why() {
    let mut response = build_query("vk.ru", 7, DNS_A_RECORD).unwrap();
    assert_eq!(parse_response(&response, 7), Err(DnsError::NoResponse));
    response[2] = 0x82;
    assert_eq!(parse_response(&response, 7), Err(DnsError::NeedsTcp));
    response[2] = 0x80;
    response[3] = 3;
    assert_eq!(parse_response(&response, 7), Err(DnsError::Status(3)));
    response[3] = 0;
    assert_eq!(parse_response(&response, 7), Ok(Vec::new()));
}

#[test]
fn query_rejects_invalid_dns_name() {
    assert!(build_query("", 1, DNS_A_RECORD).is_err());
    assert!(build_query("a..vk.ru", 1, DNS_A_RECORD).is_err());
}

#[test]
fn query_has_its_bytes() {
    assert_eq!(
        build_query("vk.ru", 0x1234, DNS_AAAA_RECORD).unwrap(),
        vec![
            0x12, 0x34, 1, 0, 0, 1, 0, 0, 0, 0, 0, 0, 2, b'v', b'k', 2, b'r', b'u', 0, 0, 28, 0, 1
        ]
    );
}

#[test]
fn literal_socket_does_not_require_dns() {
    assert!(matches!(
        socket_target("127.0.0.1:46000"),
        SocketTarget::Literal(address)
            if address == SocketAddress::new(IpAddress::V4(0x7f00_0001), 46000)
    ));
    assert!(matches!(
        socket_target("[::1]:46000"),
        SocketTarget::Literal(address)
            if address == SocketAddress::new(IpAddress::V6(1), 46000)
    ));
}

#[test]
fn named_socket_is_looked_up() {
    match socket_target("vk.ru:3478") {
        SocketTarget::Host { host, port } => {
            assert_eq!(host, "vk.ru");
            assert_eq!(port, 3478);
        }
        _ => panic!("a host was expected"),
    }
    assert!(matches!(socket_target("vk.ru"), SocketTarget::NoPort));
    assert!(matches!(socket_target("vk ru:1"), SocketTarget::Unreadable));
}

#[test]
fn system_is_asked_only_outside_the_tunnel() {
    let mut resolver = DnsResolver::new();
    assert_eq!(resolver.literal("8.8.8.8"), Some(IpAddress::V4(0x0808_0808)));
    assert_eq!(resolver.literal("vk.ru"), None);
    assert!(matches!(
        resolver.after_asking(Asked::TimedOut),
        LookupStep::AskSystem
    ));
    resolver.mark_tunnel_active();
    assert!(matches!(
        resolver.after_asking(Asked::TimedOut),
        LookupStep::TimedOut
    ));
    assert!(matches!(
        resolver.after_asking(Asked::Failed("why".to_owned())),
        LookupStep::Failed(error) if error == "why"
    ));
    assert!(matches!(
        resolver.after_asking(Asked::Addresses(Vec::new())),
        LookupStep::Empty
    ));
}

#[test]
fn second_question_has_the_next_number() {
    assert_eq!(second_query(&Vec::new(), u16::MAX), Some(0));
    assert_eq!(second_query(&vec![IpAddress::V4(1)], 5), None);
}

#[test]
fn addresses_are_kept_once_in_their_order() {
    let list = vec![IpAddress::V4(2), IpAddress::V4(1), IpAddress::V4(2)];
    assert_eq!(
        distinct_addresses(&list),
        vec![IpAddress::V4(2), IpAddress::V4(1)]
    );
}

#[test]
fn errors_of_questions_name_what_is_wrong() {
    let error = build_query("...", 1, DNS_A_RECORD).unwrap_err();
    assert_eq!(error.text("..."), "некорректное DNS-имя \"\"");
    let host = "vk.мир.ru.";
    let error = build_query(host, 1, DNS_A_RECORD).unwrap_err();
    assert_eq!(error, DnsError::InvalidLabel(1));
    assert_eq!(error.text(host), "некорректная DNS-метка \"мир\"");
    assert_eq!(DnsError::Status(3).text("vk.ru"), "DNS-ответ с кодом 3");
    assert_eq!(DnsError::CutName.text("vk.ru"), "обрезанный DNS name");
}

#[test]
fn one_server_that_knows_is_enough() {
    let mut asking = Asking::start(u16::MAX);
    let refused = |text: &str| ServerReply::Failed(text.to_owned());
    assert!(matches!(asking.step(refused("a")), AskStep::AwaitOther));
    assert!(matches!(
        asking.step(ServerReply::Addresses(Vec::new())),
        AskStep::AskIpv6 { query_id: 0 }
    ));
    assert!(matches!(asking.step(refused("b")), AskStep::AwaitOther));
    match asking.step(refused("c")) {
        AskStep::Done(Asked::Failed(text)) => {
            assert_eq!(text, "оба сервера Yandex DNS отклонили запрос: b; c")
        }
        _ => panic!("both refused"),
    }
    let mut asking = Asking::start(1);
    assert!(matches!(
        asking.step(ServerReply::Addresses(vec![IpAddress::V4(1)])),
        AskStep::Done(Asked::Addresses(list)) if list == vec![IpAddress::V4(1)]
    ));
    assert!(matches!(
        asking.step(ServerReply::TimedOut),
        AskStep::Done(Asked::TimedOut)
    ));
    asking.ipv6 = true;
    assert!(matches!(
        asking.step(ServerReply::Addresses(Vec::new())),
        AskStep::Done(Asked::Addresses(list)) if list.is_empty()
    ));
}
