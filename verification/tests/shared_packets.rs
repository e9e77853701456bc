use csqtt::net::{parse_ip, parse_socket, IpAddress, SocketAddress};
use csqtt::shared::flow_frame::{payload, FrameHeader, FRAME_LEN};
use csqtt::shared::selective_fec::{should_duplicate, Budget, DUPLICATE_BURST, REFILL_INTERVAL};
use csqtt::shared::striped_scheduler::{packet_class, PacketClass};
use csqtt::text::chars_of;
use csqtt::wire::{push_le32, push_u32, read_le32, read_u32};

fn ipv4(protocol: u8, payload: &[u8]) -> Vec<u8> {
    let mut packet = vec![0u8; 20];
    packet[0] = 0x45;
    packet[9] = protocol;
    packet.extend_from_slice(payload);
    packet
}

fn ipv6(protocol: u8, payload: &[u8]) -> Vec<u8> {
    let mut packet = vec![0u8; 40];
    packet[0] = 0x60;
    packet[6] = protocol;
    packet.extend_from_slice(payload);
    packet
}

fn udp(source: u16, destination: u16, payload_len: usize) -> Vec<u8> {
    let mut packet = vec![0u8; 8 + payload_len];
    packet[0..2].copy_from_slice(&source.to_be_bytes());
    packet[2..4].copy_from_slice(&destination.to_be_bytes());
    packet
}

fn tcp(source: u16, destination: u16, flags: u8) -> Vec<u8> {
    let mut packet = vec![0u8; 20];
    packet[0..2].copy_from_slice(&source.to_be_bytes());
    packet[2..4].copy_from_slice(&destination.to_be_bytes());
    packet[12] = 0x50;
    packet[13] = flags;
    packet
}

#[test]
fn duplicates_control() {
    assert!(should_duplicate(b"READY"));
    assert!(should_duplicate(b"GETCONF:value"));
}

#[test]
fn duplicates_dns_syn_and_small_udp() {
    assert!(should_duplicate(&ipv4(17, &udp(40000, 53, 900))));
    assert!(should_duplicate(&ipv4(6, &tcp(40000, 443, 0x02))));
    assert!(should_duplicate(&ipv4(17, &udp(40000, 443, 256))));
    assert!(!should_duplicate(&ipv4(17, &udp(40000, 443, 257))));
    assert!(!should_duplicate(&ipv4(6, &tcp(40000, 443, 0x10))));
}

#[test]
fn supports_ipv6_and_rejects_non_initial_fragments() {
    assert!(should_duplicate(&ipv6(17, &udp(53, 40000, 900))));
    let mut fragmented = ipv4(17, &udp(40000, 53, 20));
    fragmented[6..8].copy_from_slice(&1u16.to_be_bytes());
    assert!(!should_duplicate(&fragmented));
}

#[test]
fn budget_limits_burst() {
    let mut budget = Budget::new(0);
    for _ in 0..DUPLICATE_BURST {
        assert!(budget.allow(0));
    }
    assert!(!budget.allow(0));
    assert!(budget.allow(REFILL_INTERVAL));
    assert!(!budget.allow(REFILL_INTERVAL));
}

fn sized_ipv4(protocol: u8, length: usize) -> Vec<u8> {
    let mut packet = vec![0; length.max(20)];
    packet[0] = 0x45;
    packet[9] = protocol;
    packet
}

fn sized_tcp(flags: u8, payload_len: usize) -> Vec<u8> {
    let mut packet = sized_ipv4(6, 40 + payload_len);
    packet[32] = 0x50;
    packet[33] = flags;
    packet
}

fn dns(protocol: u8, length: usize) -> Vec<u8> {
    let mut packet = sized_ipv4(protocol, length.max(28));
    packet[20..22].copy_from_slice(&53u16.to_be_bytes());
    packet[22..24].copy_from_slice(&44444u16.to_be_bytes());
    packet
}

fn sized_ipv6(protocol: u8, length: usize) -> Vec<u8> {
    let mut packet = vec![0; length.max(40)];
    packet[0] = 0x60;
    packet[6] = protocol;
    packet
}

#[test]
fn classifies_size_boundaries() {
    assert_eq!(packet_class(&sized_ipv4(17, 164)), PacketClass::Small);
    assert_eq!(packet_class(&sized_ipv4(17, 165)), PacketClass::Medium);
    assert_eq!(packet_class(&sized_ipv4(17, 999)), PacketClass::Medium);
    assert_eq!(packet_class(&sized_ipv4(17, 1_000)), PacketClass::Bulk);
}

#[test]
fn classifies_icmp_and_dns_as_small() {
    assert_eq!(packet_class(&sized_ipv4(1, 1_400)), PacketClass::Small);
    assert_eq!(packet_class(&sized_ipv6(58, 1_400)), PacketClass::Small);
    assert_eq!(packet_class(&dns(17, 1_400)), PacketClass::Small);
    assert_eq!(packet_class(&dns(6, 1_400)), PacketClass::Small);
}

#[test]
fn classifies_tcp_control_without_demoting_tcp_payload() {
    assert_eq!(packet_class(&sized_tcp(0x02, 1_200)), PacketClass::Small);
    assert_eq!(packet_class(&sized_tcp(0x01, 1_200)), PacketClass::Small);
    assert_eq!(packet_class(&sized_tcp(0x10, 0)), PacketClass::Small);
    assert_eq!(packet_class(&sized_tcp(0x18, 1_200)), PacketClass::Bulk);
}

#[test]
fn classes_expose_requested_chunks_and_batches() {
    assert_eq!(PacketClass::Small.stream_chunk(), 4);
    assert_eq!(PacketClass::Medium.stream_chunk(), 16);
    assert_eq!(PacketClass::Bulk.stream_chunk(), 32);
    assert_eq!(PacketClass::Small.datagram_batch(), 16);
    assert_eq!(PacketClass::Medium.datagram_batch(), 64);
    assert_eq!(PacketClass::Bulk.datagram_batch(), 128);
}

#[test]
fn frames_read_back() {
    let header = FrameHeader {
        sender_id: 7,
        flow_id: 0x0102_0304,
        sequence: 9,
    };
    let mut packet = vec![0u8; FRAME_LEN + 3];
    assert!(header.encode(&mut packet[..FRAME_LEN]));
    packet[FRAME_LEN..].copy_from_slice(b"end");
    let (decoded, inner) = FrameHeader::decode(&packet).unwrap();
    assert_eq!(decoded, header);
    assert_eq!(inner, b"end");
    assert!(!header.encode(&mut [0u8; FRAME_LEN - 1]));
    assert!(FrameHeader::decode(b"short").is_none());
    assert_eq!(payload(b"short"), b"short");
}

#[test]
fn numbers_read_back_in_both_orders() {
    let mut bytes = Vec::new();
    push_u32(&mut bytes, 0x0102_0304);
    push_le32(&mut bytes, 0x0102_0304);
    assert_eq!(bytes, vec![1, 2, 3, 4, 4, 3, 2, 1]);
    assert_eq!(read_u32(&bytes, 0), 0x0102_0304);
    assert_eq!(read_le32(&bytes, 4), 0x0102_0304);
}

#[test]
fn addresses_are_read() {
    let ip = |text: &str| parse_ip(&chars_of(text));
    assert_eq!(ip("127.0.0.1"), Some(IpAddress::V4(0x7f00_0001)));
    assert_eq!(ip("256.0.0.1"), None);
    assert_eq!(ip("1.2.3"), None);
    assert_eq!(ip("01.2.3.4"), None);
    assert_eq!(ip("::1"), Some(IpAddress::V6(1)));
    assert_eq!(ip("2001:db8::5"), Some(IpAddress::V6(0x2001_0db8 << 96 | 5)));
    assert_eq!(
        ip("::ffff:1.2.3.4"),
        Some(IpAddress::V6(0xffff_0102_0304))
    );
    assert_eq!(ip("1::2::3"), None);
    let socket = |text: &str| parse_socket(&chars_of(text));
    assert_eq!(
        socket("1.2.3.4:5"),
        Some(SocketAddress::new(IpAddress::V4(0x0102_0304), 5))
    );
    assert_eq!(
        socket("[::1]:65535"),
        Some(SocketAddress::new(IpAddress::V6(1), 65535))
    );
    assert_eq!(socket("[::1]:65536"), None);
    assert_eq!(socket("::1"), None);
    let scoped = socket("[fe80::1%7]:80").unwrap();
    assert_eq!(scoped.scope_id, 7);
    assert_eq!(scoped.port, 80);
}

#[test]
fn idle_budget_gives_no_more_than_its_burst() {
    let mut budget = Budget::new(0);
    for _ in 0..DUPLICATE_BURST {
        assert!(budget.allow(REFILL_INTERVAL - 1));
    }
    assert!(!budget.allow(REFILL_INTERVAL - 1));
    assert!(budget.allow(REFILL_INTERVAL));
    assert!(!budget.allow(REFILL_INTERVAL));
    let later = 1_000 * REFILL_INTERVAL;
    let given = (0..100).filter(|_| budget.allow(later)).count();
    assert_eq!(given, DUPLICATE_BURST as usize);
}
