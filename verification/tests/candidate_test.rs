use ice::candidate_base::{
    foundation_from_checksum, new_peer_reflexive, CandidateBase, CandidateBaseConfig,
    CandidateRelatedAddress, CloseEffect, DEFAULT_LOCAL_PREFERENCE, RECEIVE_MTU,
};
use ice::candidate_type::CandidateType;
use ice::error::Error;
use ice::network_type::{
    create_addr, determine_network_type, IpAddress, NetworkType, SocketAddress,
};
use ice::tcp_type::TcpType;
use ice::unmarshal::unmarshal_candidate;

const LOOPBACK: u32 = 0x7F00_0001;

fn candidate(
    network: &str,
    address: &str,
    port: u16,
    component: u16,
    candidate_type: CandidateType,
    tcp_type: TcpType,
    ip: IpAddress,
) -> CandidateBase {
    let config = CandidateBaseConfig {
        network: network.to_owned(),
        address: address.to_owned(),
        port,
        component,
        ..CandidateBaseConfig::default()
    };
    CandidateBase::new(config, candidate_type, tcp_type, None, Some(ip)).unwrap()
}

fn udp_host() -> CandidateBase {
    candidate(
        "udp",
        "127.0.0.1",
        5000,
        1,
        CandidateType::Host,
        TcpType::Unspecified,
        IpAddress::V4(LOOPBACK),
    )
}

#[test]
fn priority_follows_the_formula_for_each_type() {
    let types = vec![
        (CandidateType::Host, 2130706431u32),
        (CandidateType::PeerReflexive, 1862270975),
        (CandidateType::ServerReflexive, 1694498815),
        (CandidateType::Relay, 16777215),
    ];
    for (candidate_type, expected) in types {
        let mut c = udp_host();
        c.candidate_type = candidate_type;
        assert_eq!(c.local_preference(), DEFAULT_LOCAL_PREFERENCE);
        assert_eq!(c.priority(), expected);
    }
}

#[test]
fn priority_counts_down_with_the_component() {
    let mut c = udp_host();
    c.set_component(2);
    assert_eq!(c.component(), 2);
    assert_eq!(c.priority(), 2130706430);
    c.set_component(256);
    assert_eq!(c.priority(), 2130706176);
    c.set_component(65535);
    assert_eq!(c.priority(), 126 * 16777216 + 256 * 65535 + 256 - 65535);
}

#[test]
fn priority_override_wins() {
    let mut c = udp_host();
    c.priority_override = 4321;
    assert_eq!(c.priority(), 4321);
    assert_eq!(c.peer_reflexive_priority(), 1862270975);
    c.set_component(2);
    assert_eq!(c.peer_reflexive_priority(), 1862270974);
}

#[test]
fn local_preference_of_tcp_candidates_follows_the_direction() {
    let cases = vec![
        (CandidateType::Host, TcpType::Active, 6u16),
        (CandidateType::Host, TcpType::Passive, 4),
        (CandidateType::Host, TcpType::SimultaneousOpen, 2),
        (CandidateType::Relay, TcpType::Active, 6),
        (CandidateType::ServerReflexive, TcpType::SimultaneousOpen, 6),
        (CandidateType::ServerReflexive, TcpType::Active, 4),
        (CandidateType::PeerReflexive, TcpType::Passive, 2),
        (CandidateType::Host, TcpType::Unspecified, 0),
    ];
    for (candidate_type, tcp_type, direction) in cases {
        let c = candidate(
            "tcp",
            "192.168.0.196",
            0,
            1,
            candidate_type,
            tcp_type,
            IpAddress::V4(0xC0A8_00C4),
        );
        assert_eq!(c.network_type(), NetworkType::Tcp4);
        assert_eq!(c.local_preference(), 8192 * direction + 8191);
    }
    let active = candidate(
        "tcp",
        "192.168.0.196",
        0,
        1,
        CandidateType::Host,
        TcpType::Active,
        IpAddress::V4(0xC0A8_00C4),
    );
    assert_eq!(active.priority(), 2128609279);
}

#[test]
fn foundation_is_the_checksum_in_decimal() {
    assert_eq!(udp_host().foundation(), "2693830880");
    let srflx = candidate(
        "udp",
        "10.0.0.1",
        1,
        1,
        CandidateType::ServerReflexive,
        TcpType::Unspecified,
        IpAddress::V4(0x0A00_0001),
    );
    assert_eq!(srflx.foundation(), "2492318370");
    assert_eq!(foundation_from_checksum(0), "0");
    assert_eq!(foundation_from_checksum(4294967295), "4294967295");
}

#[test]
fn foundation_depends_on_type_address_and_network_only() {
    let a = udp_host();
    let mut b = udp_host();
    b.port = 9;
    b.component = 2;
    b.id = "another".to_owned();
    assert_eq!(a.foundation(), b.foundation());
    let mut other_address = udp_host();
    other_address.address = "127.0.0.2".to_owned();
    assert_ne!(a.foundation(), other_address.foundation());
    let mut other_type = udp_host();
    other_type.candidate_type = CandidateType::PeerReflexive;
    assert_eq!(other_type.foundation(), "1043103623");
    let mut overridden = udp_host();
    overridden.foundation_override = "custom".to_owned();
    assert_eq!(overridden.foundation(), "custom");
}

#[test]
fn marshal_of_a_udp_host_candidate() {
    let c = udp_host();
    assert_eq!(c.marshal(), "2693830880 1 udp 2130706431 127.0.0.1 5000 typ host");
    let line = c.marshal();
    let words: Vec<&str> = line.split(' ').collect();
    assert_eq!(words.len(), 8);
    assert!(words[0].chars().all(|d| d.is_ascii_digit()));
    assert_eq!(words[1], "1");
    assert_eq!(words[2], "udp");
    assert!(words[3].chars().all(|d| d.is_ascii_digit()));
    assert_eq!(words[4], "127.0.0.1");
    assert!(words[5].chars().all(|d| d.is_ascii_digit()));
    assert_eq!(words[6], "typ");
    assert_eq!(words[7], "host");
}

#[test]
fn marshal_writes_tcp_type_and_related_address() {
    let mut tcp = candidate(
        "tcp",
        "192.168.0.196",
        0,
        1,
        CandidateType::Host,
        TcpType::Active,
        IpAddress::V4(0xC0A8_00C4),
    );
    tcp.foundation_override = "1052353102".to_owned();
    assert_eq!(
        tcp.marshal(),
        "1052353102 1 tcp 2128609279 192.168.0.196 0 typ host tcptype active"
    );

    let mut relay = candidate(
        "udp",
        "50.0.0.1",
        5000,
        1,
        CandidateType::Relay,
        TcpType::Unspecified,
        IpAddress::V4(0x3200_0001),
    );
    relay.foundation_override = "647372371".to_owned();
    relay.priority_override = 1694498815;
    relay.related_address =
        Some(CandidateRelatedAddress { address: "192.168.0.1".to_owned(), port: 5001 });
    assert_eq!(
        relay.marshal(),
        "647372371 1 udp 1694498815 50.0.0.1 5000 typ relay raddr 192.168.0.1 rport 5001"
    );

    tcp.related_address = Some(CandidateRelatedAddress { address: "10.1.1.1".to_owned(), port: 7 });
    assert_eq!(
        tcp.marshal(),
        "1052353102 1 tcp 2128609279 192.168.0.196 0 typ host tcptype active raddr 10.1.1.1 rport 7"
    );
}

#[test]
fn unmarshal_reads_what_marshal_writes() {
    let mut candidates = vec![udp_host()];
    let mut tcp = candidate(
        "tcp",
        "192.168.0.196",
        0,
        1,
        CandidateType::Host,
        TcpType::Active,
        IpAddress::V4(0xC0A8_00C4),
    );
    tcp.related_address = Some(CandidateRelatedAddress { address: "10.1.1.1".to_owned(), port: 7 });
    candidates.push(tcp);
    let v6 = candidate(
        "udp",
        "fe80::a3:6ff:fec4:5454",
        53991,
        2,
        CandidateType::ServerReflexive,
        TcpType::Unspecified,
        IpAddress::V6(0xfe80_0000_0000_0000_00a3_06ff_fec4_5454),
    );
    candidates.push(v6);
    for c in candidates {
        let line = unmarshal_candidate(&c.marshal()).unwrap();
        assert_eq!(line.foundation, c.foundation());
        assert_eq!(line.priority, c.priority());
        let back = line.into_candidate(c.addr().ip).unwrap();
        assert!(back.equal(&c));
        assert!(c.equal(&back));
        assert_eq!(back.marshal(), c.marshal());
    }
}

#[test]
fn unmarshal_reads_known_lines() {
    let line = unmarshal_candidate(
        "647372371 1 udp 1694498815 191.228.238.68 53991 typ srflx raddr 192.168.0.274 rport 53991",
    )
    .unwrap();
    assert_eq!(line.foundation, "647372371");
    assert_eq!(line.component, 1);
    assert_eq!(line.network, "udp");
    assert_eq!(line.priority, 1694498815);
    assert_eq!(line.address, "191.228.238.68");
    assert_eq!(line.port, 53991);
    assert_eq!(line.candidate_type, CandidateType::ServerReflexive);
    assert_eq!(line.tcp_type, TcpType::Unspecified);
    let related = line.related_address.unwrap();
    assert_eq!(related.address, "192.168.0.274");
    assert_eq!(related.port, 53991);

    let tcp =
        unmarshal_candidate("1052353102 1 tcp 2128609279 192.168.0.196 0 typ host tcptype active")
            .unwrap();
    assert_eq!(tcp.tcp_type, TcpType::Active);
    assert!(tcp.related_address.is_none());

    let spaced =
        unmarshal_candidate("  1 \t+2 udp 3 host.local  4\ntyp\u{3000}prflx generation 0 ufrag x ")
            .unwrap();
    assert_eq!(spaced.foundation, "1");
    assert_eq!(spaced.component, 2);
    assert_eq!(spaced.address, "host.local");
    assert_eq!(spaced.candidate_type, CandidateType::PeerReflexive);
    assert!(spaced.related_address.is_none());
}

#[test]
fn unmarshal_rejects_bad_lines() {
    let invalid = vec![
        "",
        "1938809241",
        "1 1 udp 1 127.0.0.1 5000 typ",
        "1 x udp 1 127.0.0.1 5000 typ host",
        "1 65536 udp 1 127.0.0.1 5000 typ host",
        "1 1 udp 4294967296 127.0.0.1 5000 typ host",
        "1 1 udp 1 127.0.0.1 -1 typ host",
        "1 1 udp 1 127.0.0.1 5000 typ host raddr",
        "1 1 udp 1 127.0.0.1 5000 typ host raddr 1.2.3.4 rport x",
        "1 1 udp 1 127.0.0.1 5000 typ host tcptype",
    ];
    for raw in invalid {
        assert_eq!(unmarshal_candidate(raw).err(), Some(Error::InvalidCandidate), "{}", raw);
    }
    assert_eq!(
        unmarshal_candidate("1 1 udp 1 127.0.0.1 5000 typ bogus").err(),
        Some(Error::UnknownCandidateType)
    );
    let line = unmarshal_candidate("1 1 sctp 1 127.0.0.1 5000 typ host").unwrap();
    assert_eq!(line.into_candidate(IpAddress::V4(LOOPBACK)).err(), Some(Error::AddressParse));
}

#[test]
fn equal_compares_six_fields() {
    let a = udp_host();
    let mut b = udp_host();
    b.id = "b".to_owned();
    b.component = 7;
    b.priority_override = 5;
    b.foundation_override = "f".to_owned();
    b.last_sent = 9;
    assert!(a.equal(&b));
    let mut c = udp_host();
    c.port = 5001;
    assert!(!a.equal(&c));
    let mut d = udp_host();
    d.address = "127.0.0.2".to_owned();
    assert!(!a.equal(&d));
    let mut e = udp_host();
    e.network_type = NetworkType::Udp6;
    assert!(!a.equal(&e));
    let mut f = udp_host();
    f.candidate_type = CandidateType::Relay;
    assert!(!a.equal(&f));
    let mut g = udp_host();
    g.tcp_type = TcpType::Passive;
    assert!(!a.equal(&g));
    let mut h = udp_host();
    h.related_address = Some(CandidateRelatedAddress { address: "1.1.1.1".to_owned(), port: 1 });
    assert!(!a.equal(&h));
    let mut i = udp_host();
    i.related_address = Some(CandidateRelatedAddress { address: "1.1.1.1".to_owned(), port: 1 });
    assert!(h.equal(&i));
    i.related_address = Some(CandidateRelatedAddress { address: "1.1.1.1".to_owned(), port: 2 });
    assert!(!h.equal(&i));
}

#[test]
fn close_succeeds_once() {
    let mut fresh = udp_host();
    assert!(!fresh.is_closed());
    assert_eq!(fresh.close(), Ok(CloseEffect::Nothing));
    assert!(fresh.is_closed());
    assert_eq!(fresh.close(), Err(Error::Closed));

    let mut plain = CandidateBase::default();
    assert_eq!(plain.close(), Ok(CloseEffect::Nothing));
    assert_eq!(plain.close(), Err(Error::Closed));
    assert_eq!(plain.close(), Err(Error::Closed));

    let mut c = udp_host();
    c.start();
    assert!(c.is_running());
    assert_eq!(c.close(), Ok(CloseEffect::Nothing));
    assert!(!c.is_running());
    assert!(c.is_closed());
    assert_eq!(c.close(), Err(Error::Closed));
    c.start();
    assert!(!c.is_running());
    assert_eq!(c.close(), Err(Error::Closed));

    let mut relay = udp_host();
    relay.candidate_type = CandidateType::Relay;
    relay.has_relay_client = true;
    relay.start();
    assert_eq!(relay.close(), Ok(CloseEffect::CloseRelayClient));
    assert_eq!(relay.close(), Err(Error::Closed));
    let mut idle_relay = udp_host();
    idle_relay.has_relay_client = true;
    assert_eq!(idle_relay.close(), Ok(CloseEffect::CloseRelayClient));
    assert_eq!(idle_relay.close(), Err(Error::Closed));
}

#[test]
fn seen_stamps_one_side() {
    let mut c = udp_host();
    c.seen_at(true, 17);
    assert_eq!(c.last_sent(), 17);
    assert_eq!(c.last_received(), 0);
    c.seen_at(false, 23);
    assert_eq!(c.last_sent(), 17);
    assert_eq!(c.last_received(), 23);
    c.set_last_sent((1u128 << 64) + 5);
    assert_eq!(c.last_sent(), 5);
    c.set_last_received(u64::MAX as u128);
    assert_eq!(c.last_received(), u64::MAX);

    let mut d = udp_host();
    d.seen(true);
    assert!(d.last_sent() > 1_600_000_000_000_000_000);
    assert_eq!(d.last_received(), 0);
    d.seen(false);
    assert!(d.last_received() >= d.last_sent());
}

#[test]
fn finish_write_counts_and_stamps() {
    let mut c = udp_host();
    assert_eq!(c.finish_write(None), Ok(0));
    assert!(c.last_sent() > 1_600_000_000_000_000_000);
    assert_eq!(c.last_received(), 0);
    c.set_last_sent(0);
    assert_eq!(c.finish_write(Some(Ok(42))), Ok(42));
    assert!(c.last_sent() > 0);
}

#[test]
fn a_failed_send_leaves_the_candidate_as_it_was() {
    let mut c = udp_host();
    c.set_last_sent(5);
    assert_eq!(c.finish_write(Some(Err(Error::Io))), Err(Error::Io));
    assert_eq!(c.last_sent(), 5);
    assert_eq!(c.last_received(), 0);
    assert_eq!(c.finish_write(Some(Err(Error::Closed))), Err(Error::Closed));
    assert_eq!(c.last_sent(), 5);
}

#[test]
fn reflexive_candidates_of_one_base_share_a_foundation() {
    let reflexive = |address: &str, ip: u32, base: &str| {
        let mut c = candidate(
            "udp",
            address,
            9,
            1,
            CandidateType::ServerReflexive,
            TcpType::Unspecified,
            IpAddress::V4(ip),
        );
        c.related_address =
            Some(CandidateRelatedAddress { address: base.to_owned(), port: 4000 });
        c
    };
    let a = reflexive("1.1.1.1", 0x0101_0101, "10.0.0.1");
    let b = reflexive("1.1.1.2", 0x0101_0102, "10.0.0.1");
    assert_eq!(a.foundation(), b.foundation());
    assert_eq!(a.foundation(), "2492318370");
    let other_base = reflexive("1.1.1.1", 0x0101_0101, "10.0.0.2");
    assert_ne!(a.foundation(), other_base.foundation());
    let mut relayed = reflexive("1.1.1.1", 0x0101_0101, "10.0.0.1");
    relayed.candidate_type = CandidateType::Relay;
    assert_ne!(a.foundation(), relayed.foundation());
}

#[test]
fn set_ip_determines_the_network_type() {
    let mut c = udp_host();
    assert_eq!(c.network_type(), NetworkType::Udp4);
    assert_eq!(c.addr(), SocketAddress { ip: IpAddress::V4(LOOPBACK), port: 5000 });
    c.set_ip(&IpAddress::V6(1)).unwrap();
    assert_eq!(c.network_type(), NetworkType::Udp6);
    assert_eq!(c.addr(), SocketAddress { ip: IpAddress::V6(1), port: 5000 });
    c.network = "TCP4".to_owned();
    c.set_ip(&IpAddress::V4(9)).unwrap();
    assert_eq!(c.network_type(), NetworkType::Tcp4);
    c.network = "sctp".to_owned();
    assert_eq!(c.set_ip(&IpAddress::V4(10)), Err(Error::AddressParse));
    assert_eq!(c.addr(), SocketAddress { ip: IpAddress::V4(9), port: 5000 });

    assert_eq!(determine_network_type("udp", &IpAddress::V4(0)), Ok(NetworkType::Udp4));
    assert_eq!(determine_network_type("UDP6", &IpAddress::V6(0)), Ok(NetworkType::Udp6));
    assert_eq!(determine_network_type("Tcp", &IpAddress::V6(0)), Ok(NetworkType::Tcp6));
    assert_eq!(determine_network_type("ud", &IpAddress::V4(0)), Err(Error::AddressParse));
    assert_eq!(
        create_addr(NetworkType::Udp4, IpAddress::V4(3), 4),
        SocketAddress { ip: IpAddress::V4(3), port: 4 }
    );
}

#[test]
fn new_needs_an_address_unless_host() {
    let config = CandidateBaseConfig {
        network: "udp".to_owned(),
        address: "printer.local".to_owned(),
        port: 1,
        component: 1,
        ..CandidateBaseConfig::default()
    };
    let host =
        CandidateBase::new(config.clone(), CandidateType::Host, TcpType::Unspecified, None, None)
            .unwrap();
    assert_eq!(host.network_type(), NetworkType::Udp4);
    assert_eq!(host.address(), "printer.local");
    assert!(!host.get_conn());
    let relay = CandidateBase::new(config, CandidateType::Relay, TcpType::Unspecified, None, None);
    assert_eq!(relay.err(), Some(Error::AddressParse));
}

#[test]
fn to_string_shows_network_type_address_and_relation() {
    let mut c = udp_host();
    assert_eq!(c.to_string(), "udp4 host 127.0.0.1:5000");
    c.related_address = Some(CandidateRelatedAddress { address: "10.0.0.2".to_owned(), port: 9 });
    assert_eq!(c.to_string(), "udp4 host 127.0.0.1:5000 related 10.0.0.2:9");
    assert_eq!(c.related_address().unwrap().to_string(), " related 10.0.0.2:9");
    assert_eq!(CandidateType::Unspecified.to_string(), "Unknown candidate type");
    assert_eq!(CandidateType::ServerReflexive.to_string(), "srflx");
    assert_eq!(NetworkType::Tcp6.to_string(), "tcp6");
    assert_eq!(NetworkType::Tcp6.network_short(), "tcp");
    assert_eq!(NetworkType::Unspecified.network_short(), "Unspecified");
    assert_eq!(TcpType::SimultaneousOpen.to_string(), "so");
    assert_eq!(Error::QueueFull.to_string(), "QueueFull");
}

#[test]
fn default_candidate_is_empty() {
    let c = CandidateBase::default();
    assert_eq!(c.id(), "");
    assert_eq!(c.network_type(), NetworkType::Unspecified);
    assert_eq!(c.candidate_type(), CandidateType::Unspecified);
    assert_eq!(c.tcp_type(), TcpType::Unspecified);
    assert_eq!(c.component(), 0);
    assert_eq!(c.port(), 0);
    assert!(c.related_address().is_none());
    assert!(!c.is_running());
    assert!(!c.is_closed());
    assert_eq!(c.priority(), 256 * 65535 + 256);
    assert_eq!(RECEIVE_MTU, 8192);
}

#[test]
fn network_type_numbers_round_trip() {
    for t in [
        NetworkType::Unspecified,
        NetworkType::Udp4,
        NetworkType::Udp6,
        NetworkType::Tcp4,
        NetworkType::Tcp6,
    ] {
        assert_eq!(NetworkType::from_u8(t.to_u8()), t);
    }
    assert_eq!(NetworkType::from_u8(9), NetworkType::Unspecified);
    assert!(NetworkType::Udp6.is_udp() && NetworkType::Udp6.is_ipv6());
    assert!(NetworkType::Tcp4.is_tcp() && NetworkType::Tcp4.is_ipv4());
    assert!(NetworkType::Tcp4.is_reliable() && !NetworkType::Udp4.is_reliable());
}

#[test]
fn peer_reflexive_candidate_takes_after_the_local_one() {
    let local = udp_host();
    let source = SocketAddress { ip: IpAddress::V4(0xC0A8_0102), port: 4242 };
    let learned = new_peer_reflexive(&local, source, false);
    assert_eq!(learned.candidate_type(), CandidateType::PeerReflexive);
    assert_eq!(learned.address(), "192.168.1.2");
    assert_eq!(learned.port(), 4242);
    assert_eq!(learned.addr(), source);
    assert_eq!(learned.component(), 1);
    assert_eq!(learned.priority(), (1 << 24) * 110 + 65535 * 256 + (256 - 1));
    assert!(learned.related_address().is_none());
    let own = new_peer_reflexive(&local, source, true);
    assert_eq!(own.related_address().unwrap().address, "127.0.0.1");
    assert_eq!(own.related_address().unwrap().port, 5000);
}
