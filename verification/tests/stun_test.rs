use ice::agent::{Agent, AgentConfig};
use ice::candidate_base::{CandidateBase, CandidateBaseConfig};
use ice::candidate_type::CandidateType;
use ice::error::Error;
use ice::inbound::{InboundOutcome, InboundReply};
use ice::network_type::{IpAddress, SocketAddress};
use ice::pair::CandidatePairState;
use ice::role::Role;
use ice::state::ConnectionState;
use ice::stun_wire::{
    be_number, copy_bytes, is_stun, same_bytes, xor_bytes, StunClass, StunMessage,
};
use ice::tcp_type::TcpType;
use stun::agent::TransactionId;
use stun::attributes::{
    AttrType, ATTR_ERROR_CODE, ATTR_ICE_CONTROLLED, ATTR_ICE_CONTROLLING, ATTR_PRIORITY,
    ATTR_USERNAME, ATTR_USE_CANDIDATE, ATTR_XORMAPPED_ADDRESS,
};
use stun::fingerprint::FINGERPRINT;
use stun::integrity::MessageIntegrity;
use stun::message::{
    Message, MessageType, Setter, BINDING_ERROR, BINDING_REQUEST, BINDING_SUCCESS,
    CLASS_INDICATION, METHOD_ALLOCATE, METHOD_BINDING,
};
use stun::textattrs::TextAttribute;

const ID: [u8; 12] = [0, 0, 0, 0, 0, 0, 0, 0, 0, 0, 0x12, 0x34];

struct Wire {
    typ: MessageType,
    id: [u8; 12],
    username: Option<&'static str>,
    raw: Vec<(AttrType, Vec<u8>)>,
    password: Option<&'static str>,
    fingerprint: bool,
}

fn encode(wire: Wire) -> Vec<u8> {
    let mut m = Message::new();
    m.build(&[Box::new(wire.typ), Box::new(TransactionId(wire.id))]).unwrap();
    if let Some(name) = wire.username {
        TextAttribute::new(ATTR_USERNAME, name.to_owned()).add_to(&mut m).unwrap();
    }
    for (typ, value) in &wire.raw {
        m.add(*typ, value);
    }
    if let Some(password) = wire.password {
        MessageIntegrity::new_short_term_integrity(password.to_owned()).add_to(&mut m).unwrap();
    }
    if wire.fingerprint {
        FINGERPRINT.add_to(&mut m).unwrap();
    }
    m.raw.clone()
}

fn request(controlling_tie: u64, use_candidate: bool, password: &'static str) -> Vec<u8> {
    let mut raw = vec![
        (ATTR_PRIORITY, 1862270975u32.to_be_bytes().to_vec()),
        (ATTR_ICE_CONTROLLING, controlling_tie.to_be_bytes().to_vec()),
    ];
    if use_candidate {
        raw.push((ATTR_USE_CANDIDATE, vec![]));
    }
    encode(Wire {
        typ: BINDING_REQUEST,
        id: ID,
        username: Some("ufragB:ufragA"),
        raw,
        password: Some(password),
        fingerprint: true,
    })
}

fn xor_mapped_v4(ip: u32, port: u16) -> Vec<u8> {
    let mut value = vec![0, 1];
    value.extend_from_slice(&(port ^ 0x2112).to_be_bytes());
    value.extend_from_slice(&(ip ^ 0x2112_A442).to_be_bytes());
    value
}

fn endpoint(port: u16) -> SocketAddress {
    SocketAddress { ip: IpAddress::V4(0x7F00_0001), port }
}

fn host_at(port: u16) -> CandidateBase {
    let config = CandidateBaseConfig {
        network: "udp".to_owned(),
        address: "127.0.0.1".to_owned(),
        port,
        component: 1,
        ..CandidateBaseConfig::default()
    };
    CandidateBase::new(
        config,
        CandidateType::Host,
        TcpType::Unspecified,
        None,
        Some(IpAddress::V4(0x7F00_0001)),
    )
    .unwrap()
}

/// The controlled agent B, on port 6000, which knows A on port 5000.
fn agent_b() -> Agent {
    let mut b =
        Agent::new(AgentConfig::new(false, 1, "ufragB".to_owned(), "pwdB".to_owned()));
    b.add_local_candidate(host_at(6000)).unwrap();
    b.add_remote_candidate(host_at(5000)).unwrap();
    b.start_connectivity_checks("ufragA".to_owned(), "pwdA".to_owned()).unwrap();
    b
}

#[test]
fn stun_datagrams_are_told_from_data() {
    let datagram = request(2, true, "pwdB");
    assert!(is_stun(&datagram));
    assert!(stun::message::is_message(&datagram));
    assert!(!is_stun(b""));
    assert!(!is_stun(b"hello world, this is not stun at all"));
    assert!(!is_stun(&datagram[..19]));
    let mut cookie = datagram.clone();
    cookie[5] ^= 1;
    assert!(!is_stun(&cookie));
    let mut first_bits = datagram.clone();
    first_bits[0] |= 0x80;
    assert!(stun::message::is_message(&first_bits));
    assert!(!is_stun(&first_bits));
    first_bits[0] = 0x40;
    assert!(!is_stun(&first_bits));
    let mut cut = datagram.clone();
    cut.pop();
    assert!(stun::message::is_message(&cut));
    assert!(!is_stun(&cut));
    let mut longer = datagram.clone();
    longer.push(0);
    assert!(is_stun(&longer));
}

#[test]
fn decoding_finds_header_and_attributes() {
    let datagram = request(0x0102_0304_0506_0708, true, "pwdB");
    let m = StunMessage::decode(&datagram).unwrap();
    assert_eq!(m.raw, datagram);
    assert_eq!(m.binding_class(), Some(StunClass::Request));
    assert_eq!(m.transaction_id(), 0x1234);
    assert_eq!(m.priority(), Some(1862270975));
    assert_eq!(m.tie_breaker(true), Some(0x0102_0304_0506_0708));
    assert_eq!(m.tie_breaker(false), None);
    assert!(m.use_candidate());
    assert_eq!(m.error_code(), None);
    assert_eq!(m.xor_mapped_address(), None);
    assert!(m.username_is(b"ufragB:ufragA"));
    assert!(!m.username_is(b"ufragB:ufragX"));
    assert_eq!(m.attributes.len(), 6);
    assert_eq!(m.attributes[0].typ, 0x0006);
    assert_eq!(m.attributes[0].value, b"ufragB:ufragA".to_vec());
    assert_eq!(m.find(0x0024), Some(1));
    assert_eq!(m.find(0x7777), None);

    assert!(StunMessage::decode(b"not stun").is_none());
    let mut broken = encode(Wire {
        typ: BINDING_REQUEST,
        id: ID,
        username: None,
        raw: vec![(ATTR_PRIORITY, vec![0, 0, 0, 1])],
        password: None,
        fingerprint: false,
    });
    assert!(StunMessage::decode(&broken).is_some());
    broken[23] = 200;
    assert!(is_stun(&broken));
    assert!(StunMessage::decode(&broken).is_none());
}

#[test]
fn message_classes_are_read_from_the_header() {
    let of = |typ: MessageType| {
        let datagram = encode(Wire {
            typ,
            id: ID,
            username: None,
            raw: vec![],
            password: None,
            fingerprint: false,
        });
        StunMessage::decode(&datagram).unwrap().binding_class()
    };
    assert_eq!(of(BINDING_REQUEST), Some(StunClass::Request));
    assert_eq!(of(BINDING_SUCCESS), Some(StunClass::SuccessResponse));
    assert_eq!(of(BINDING_ERROR), Some(StunClass::ErrorResponse));
    assert_eq!(
        of(MessageType::new(METHOD_BINDING, CLASS_INDICATION)),
        Some(StunClass::Indication)
    );
    assert_eq!(of(MessageType::new(METHOD_ALLOCATE, stun::message::CLASS_REQUEST)), None);
}

#[test]
fn integrity_and_fingerprint_are_checked() {
    let datagram = request(2, false, "pwdB");
    let m = StunMessage::decode(&datagram).unwrap();
    assert!(m.integrity_ok(b"pwdB"));
    assert!(!m.integrity_ok(b"pwdA"));
    assert!(!m.integrity_ok(b""));
    assert!(m.fingerprint_ok());

    let mut tampered = datagram.clone();
    tampered[28] ^= 0xFF;
    let m = StunMessage::decode(&tampered).unwrap();
    assert!(!m.integrity_ok(b"pwdB"));
    assert!(!m.fingerprint_ok());

    let bare = encode(Wire {
        typ: BINDING_REQUEST,
        id: ID,
        username: Some("ufragB:ufragA"),
        raw: vec![],
        password: None,
        fingerprint: false,
    });
    let m = StunMessage::decode(&bare).unwrap();
    assert!(!m.integrity_ok(b"pwdB"));
    assert!(!m.fingerprint_ok());
}

#[test]
fn mapped_addresses_and_error_codes_are_read() {
    let answer = encode(Wire {
        typ: BINDING_SUCCESS,
        id: ID,
        username: None,
        raw: vec![(ATTR_XORMAPPED_ADDRESS, xor_mapped_v4(0xC0A8_0102, 40000))],
        password: Some("pwdA"),
        fingerprint: true,
    });
    let m = StunMessage::decode(&answer).unwrap();
    assert_eq!(
        m.xor_mapped_address(),
        Some(SocketAddress { ip: IpAddress::V4(0xC0A8_0102), port: 40000 })
    );

    let ip: u128 = 0x2001_0db8_0000_0000_0000_0000_0000_0001;
    let mut key = 0x2112_A442u32.to_be_bytes().to_vec();
    key.extend_from_slice(&ID);
    let mut value = vec![0, 2];
    value.extend_from_slice(&(443u16 ^ 0x2112).to_be_bytes());
    value.extend(ip.to_be_bytes().iter().zip(key.iter()).map(|(a, b)| a ^ b));
    let answer = encode(Wire {
        typ: BINDING_SUCCESS,
        id: ID,
        username: None,
        raw: vec![(ATTR_XORMAPPED_ADDRESS, value)],
        password: None,
        fingerprint: false,
    });
    let m = StunMessage::decode(&answer).unwrap();
    assert_eq!(m.xor_mapped_address(), Some(SocketAddress { ip: IpAddress::V6(ip), port: 443 }));

    for bad in [vec![0, 3, 0, 0, 1, 2, 3, 4], vec![0, 1, 0, 0, 1, 2, 3], vec![1, 1, 0, 0, 1, 2, 3, 4]]
    {
        let answer = encode(Wire {
            typ: BINDING_SUCCESS,
            id: ID,
            username: None,
            raw: vec![(ATTR_XORMAPPED_ADDRESS, bad)],
            password: None,
            fingerprint: false,
        });
        assert_eq!(StunMessage::decode(&answer).unwrap().xor_mapped_address(), None);
    }

    let error = encode(Wire {
        typ: BINDING_ERROR,
        id: ID,
        username: None,
        raw: vec![(ATTR_ERROR_CODE, vec![0, 0, 4, 87, b'R', b'C'])],
        password: None,
        fingerprint: false,
    });
    assert_eq!(StunMessage::decode(&error).unwrap().error_code(), Some(487));
    let controlled = encode(Wire {
        typ: BINDING_REQUEST,
        id: ID,
        username: None,
        raw: vec![(ATTR_ICE_CONTROLLED, 9u64.to_be_bytes().to_vec()), (ATTR_PRIORITY, vec![1])],
        password: None,
        fingerprint: false,
    });
    let m = StunMessage::decode(&controlled).unwrap();
    assert_eq!(m.tie_breaker(false), Some(9));
    assert_eq!(m.tie_breaker(true), None);
    assert_eq!(m.priority(), None);
    assert!(!m.use_candidate());
}

#[test]
fn bytes_are_read_copied_and_combined() {
    assert_eq!(be_number(&[]), 0);
    assert_eq!(be_number(&[1, 2]), 258);
    assert_eq!(be_number(&[0xFF; 16]), u128::MAX);
    assert_eq!(copy_bytes(&[1, 2, 3]), vec![1, 2, 3]);
    assert!(same_bytes(&[1, 2], &[1, 2]));
    assert!(!same_bytes(&[1, 2], &[1, 3]));
    assert!(!same_bytes(&[1, 2], &[1]));
    assert_eq!(xor_bytes(&[0xF0, 0x0F, 1], &[0xFF, 0xFF]), vec![0x0F, 0xF0]);
}

#[test]
fn an_authentic_request_is_answered() {
    let mut b = agent_b();
    let outcome = b.handle_inbound_candidate_msg(0, &request(2, true, "pwdB"), endpoint(5000), 7);
    assert_eq!(
        outcome,
        InboundOutcome::Stun {
            reply: InboundReply::Success { transaction_id: 0x1234, mapped: endpoint(5000) }
        }
    );
    assert_eq!(b.role(), Role::Controlled);
    assert_eq!(b.get_remote_candidates()[0].last_received(), 7);
    let check = b.tick(8, 1).unwrap();
    assert_eq!(check.pair, 0);
    assert_eq!(check.role, Role::Controlled);

    let answer = encode(Wire {
        typ: BINDING_SUCCESS,
        id: [0, 0, 0, 0, 0, 0, 0, 0, 0, 0, 0, 1],
        username: None,
        raw: vec![(ATTR_XORMAPPED_ADDRESS, xor_mapped_v4(0x7F00_0001, 6000))],
        password: Some("pwdA"),
        fingerprint: true,
    });
    assert_eq!(
        b.handle_inbound_candidate_msg(0, &answer, endpoint(5000), 9),
        InboundOutcome::Stun { reply: InboundReply::Nothing }
    );
    assert_eq!(b.pair(0).unwrap().state, CandidatePairState::Succeeded);
    assert_eq!(b.connection_state(), ConnectionState::Checking);
    b.handle_inbound_candidate_msg(0, &request(2, true, "pwdB"), endpoint(5000), 10);
    assert_eq!(b.connection_state(), ConnectionState::Connected);
}

#[test]
fn a_request_that_is_not_authentic_is_dropped() {
    let dropped = InboundOutcome::Stun { reply: InboundReply::Dropped { reason: Error::StunAuth } };
    let mut b = agent_b();
    assert_eq!(
        b.handle_inbound_candidate_msg(0, &request(2, true, "wrong"), endpoint(5000), 7),
        dropped
    );
    let other_name = encode(Wire {
        typ: BINDING_REQUEST,
        id: ID,
        username: Some("ufragB:someone"),
        raw: vec![],
        password: Some("pwdB"),
        fingerprint: true,
    });
    assert_eq!(b.handle_inbound_candidate_msg(0, &other_name, endpoint(5000), 7), dropped);
    let no_fingerprint = encode(Wire {
        typ: BINDING_REQUEST,
        id: ID,
        username: Some("ufragB:ufragA"),
        raw: vec![],
        password: Some("pwdB"),
        fingerprint: false,
    });
    assert_eq!(b.handle_inbound_candidate_msg(0, &no_fingerprint, endpoint(5000), 7), dropped);
    assert_eq!(b.get_remote_candidates()[0].last_received(), 0);
    assert!(b.tick(8, 1).is_some());
    assert!(b.tick(9, 2).is_none());

    let wrong_answer = encode(Wire {
        typ: BINDING_SUCCESS,
        id: [0, 0, 0, 0, 0, 0, 0, 0, 0, 0, 0, 1],
        username: None,
        raw: vec![(ATTR_XORMAPPED_ADDRESS, xor_mapped_v4(0x7F00_0001, 6000))],
        password: Some("pwdB"),
        fingerprint: true,
    });
    assert_eq!(b.handle_inbound_candidate_msg(0, &wrong_answer, endpoint(5000), 9), dropped);
    assert_eq!(b.pair(0).unwrap().state, CandidatePairState::InProgress);
}

#[test]
fn answers_without_their_attribute_are_dropped() {
    let mut b = agent_b();
    b.tick(1, 1).unwrap();
    let undecodable =
        InboundOutcome::Stun { reply: InboundReply::Dropped { reason: Error::StunDecode } };
    let no_address = encode(Wire {
        typ: BINDING_SUCCESS,
        id: [0, 0, 0, 0, 0, 0, 0, 0, 0, 0, 0, 1],
        username: None,
        raw: vec![],
        password: Some("pwdA"),
        fingerprint: true,
    });
    assert_eq!(b.handle_inbound_candidate_msg(0, &no_address, endpoint(5000), 2), undecodable);
    let no_code = encode(Wire {
        typ: BINDING_ERROR,
        id: [0, 0, 0, 0, 0, 0, 0, 0, 0, 0, 0, 1],
        username: None,
        raw: vec![],
        password: Some("pwdA"),
        fingerprint: true,
    });
    assert_eq!(b.handle_inbound_candidate_msg(0, &no_code, endpoint(5000), 2), undecodable);
    assert_eq!(b.pending_count(), 1);

    let conflict = encode(Wire {
        typ: BINDING_ERROR,
        id: [0, 0, 0, 0, 0, 0, 0, 0, 0, 0, 0, 1],
        username: None,
        raw: vec![(ATTR_ERROR_CODE, vec![0, 0, 4, 87])],
        password: Some("pwdA"),
        fingerprint: true,
    });
    assert_eq!(
        b.handle_inbound_candidate_msg(0, &conflict, endpoint(5000), 3),
        InboundOutcome::Stun { reply: InboundReply::Nothing }
    );
    assert_eq!(b.role(), Role::Controlling);
    assert_eq!(b.pending_count(), 0);
    assert_eq!(b.pair(0).unwrap().state, CandidatePairState::Waiting);
}

#[test]
fn other_messages_are_passed_over() {
    let mut b = agent_b();
    let indication = encode(Wire {
        typ: MessageType::new(METHOD_BINDING, CLASS_INDICATION),
        id: ID,
        username: None,
        raw: vec![],
        password: None,
        fingerprint: true,
    });
    assert_eq!(
        b.handle_inbound_candidate_msg(0, &indication, endpoint(5000), 1),
        InboundOutcome::Stun { reply: InboundReply::Nothing }
    );
    let mut broken = encode(Wire {
        typ: BINDING_REQUEST,
        id: ID,
        username: None,
        raw: vec![(ATTR_PRIORITY, vec![0, 0, 0, 1])],
        password: None,
        fingerprint: false,
    });
    broken[23] = 200;
    assert_eq!(
        b.handle_inbound_candidate_msg(0, &broken, endpoint(5000), 1),
        InboundOutcome::Undecodable
    );
    assert_eq!(
        b.handle_inbound_candidate_msg(5, &request(2, true, "pwdB"), endpoint(5000), 1),
        InboundOutcome::Stun { reply: InboundReply::Dropped { reason: Error::InvalidCandidate } }
    );
    let conflicting = encode(Wire {
        typ: BINDING_REQUEST,
        id: ID,
        username: Some("ufragB:ufragA"),
        raw: vec![(ATTR_ICE_CONTROLLED, 0u64.to_be_bytes().to_vec())],
        password: Some("pwdB"),
        fingerprint: true,
    });
    assert_eq!(
        b.handle_inbound_candidate_msg(0, &conflicting, endpoint(5000), 1),
        InboundOutcome::Stun { reply: InboundReply::RoleConflict { transaction_id: 0x1234 } }
    );
    assert_eq!(b.role(), Role::Controlled);
}
