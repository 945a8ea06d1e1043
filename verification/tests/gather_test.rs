use ice::agent::{Agent, AgentConfig, SECOND};
use ice::candidate_base::{new_peer_reflexive, CandidateBase, CandidateBaseConfig, CloseEffect};
use ice::candidate_type::CandidateType;
use ice::error::Error;
use ice::gather::{is_eligible, is_loopback, GatherPolicy, Gatherer, DEFAULT_GATHER_TIMEOUT};
use ice::inbound::InboundReply;
use ice::network_type::{IpAddress, SocketAddress};
use ice::pair::CandidatePairState;
use ice::role::Role;
use ice::state::{ConnectionState, GatheringState};
use ice::tcp_type::TcpType;

fn local_host(port: u16) -> CandidateBase {
    let config = CandidateBaseConfig {
        network: "udp".to_owned(),
        address: "127.0.0.1".to_owned(),
        port,
        component: 1,
        ..CandidateBaseConfig::default()
    };
    CandidateBase::new(
        config,
        CandidateType::Host,
        TcpType::Unspecified,
        None,
        Some(IpAddress::V4(0x7F00_0001)),
    )
    .unwrap()
}

fn at(port: u16) -> SocketAddress {
    SocketAddress { ip: IpAddress::V4(0x7F00_0001), port }
}

fn connected_agent() -> Agent {
    let mut a = Agent::new(AgentConfig::new(true, 2, "ufragA".to_owned(), "pwdA".to_owned()));
    a.add_local_candidate(local_host(5000)).unwrap();
    a.add_remote_candidate(local_host(6000)).unwrap();
    a.dial("ufragB".to_owned(), "pwdB".to_owned()).unwrap();
    let request = a.tick(SECOND, 1).unwrap();
    let learned = new_peer_reflexive(&a.get_local_candidates()[0], at(5000), true);
    a.on_success_response(0, at(6000), request.transaction_id, at(5000), learned, SECOND);
    assert_eq!(a.connection_state(), ConnectionState::Connected);
    a
}

#[test]
fn loopback_addresses_are_recognised() {
    assert!(is_loopback(&IpAddress::V4(0x7F00_0001)));
    assert!(is_loopback(&IpAddress::V4(0x7FFF_FFFF)));
    assert!(!is_loopback(&IpAddress::V4(0x7EFF_FFFF)));
    assert!(!is_loopback(&IpAddress::V4(0x8000_0000)));
    assert!(is_loopback(&IpAddress::V6(1)));
    assert!(!is_loopback(&IpAddress::V6(2)));
    assert!(!is_loopback(&IpAddress::V6(0)));
}

#[test]
fn addresses_are_filtered_by_policy() {
    let strict = GatherPolicy { include_loopback: false, allow_ipv4: true, allow_ipv6: false };
    assert!(is_eligible(&strict, &IpAddress::V4(0xC0A8_0001), true));
    assert!(!is_eligible(&strict, &IpAddress::V4(0xC0A8_0001), false));
    assert!(!is_eligible(&strict, &IpAddress::V4(0x7F00_0001), true));
    assert!(!is_eligible(&strict, &IpAddress::V6(0xfe80 << 112), true));
    let open = GatherPolicy { include_loopback: true, allow_ipv4: true, allow_ipv6: true };
    assert!(is_eligible(&open, &IpAddress::V4(0x7F00_0001), true));
    assert!(is_eligible(&open, &IpAddress::V6(1), true));
    assert!(!is_eligible(&open, &IpAddress::V6(1), false));
}

#[test]
fn gathering_completes_when_every_source_has_finished() {
    let mut g = Gatherer::new();
    assert_eq!(g.state, GatheringState::New);
    assert_eq!(g.source_finished(), GatheringState::New);
    g.begin(3, 100, DEFAULT_GATHER_TIMEOUT);
    assert_eq!(g.state, GatheringState::Gathering);
    assert_eq!(g.deadline, 10_000_000_100);
    assert_eq!(g.source_finished(), GatheringState::Gathering);
    assert_eq!(g.check_deadline(10_000_000_099), Ok(GatheringState::Gathering));
    assert_eq!(g.source_finished(), GatheringState::Gathering);
    assert_eq!(g.source_finished(), GatheringState::Complete);
    assert_eq!(g.outstanding, 0);
    assert_eq!(g.source_finished(), GatheringState::Complete);
    assert_eq!(g.check_deadline(u64::MAX), Ok(GatheringState::Complete));

    let mut none = Gatherer::new();
    none.begin(0, 0, 5);
    assert_eq!(none.state, GatheringState::Complete);
}

#[test]
fn gathering_ends_at_the_deadline() {
    let mut g = Gatherer::new();
    g.begin(2, 50, 10);
    g.source_finished();
    assert_eq!(g.check_deadline(59), Ok(GatheringState::Gathering));
    assert_eq!(g.check_deadline(60), Err(Error::GatherTimeout));
    assert_eq!(g.state, GatheringState::Complete);
    assert_eq!(g.outstanding, 1);
    assert_eq!(g.check_deadline(61), Ok(GatheringState::Complete));
    let mut late = Gatherer::new();
    late.begin(1, u64::MAX - 1, 10);
    assert_eq!(late.deadline, u64::MAX);
}

#[test]
fn dial_controls_and_accept_is_controlled() {
    let mut a = Agent::new(AgentConfig::new(false, 2, "a".to_owned(), "b".to_owned()));
    a.dial("x".to_owned(), "y".to_owned()).unwrap();
    assert_eq!(a.role(), Role::Controlling);
    assert_eq!(a.connection_state(), ConnectionState::Checking);
    assert_eq!(a.request_username(), b"a:x".to_vec());
    let mut b = Agent::new(AgentConfig::new(true, 2, "a".to_owned(), "b".to_owned()));
    b.accept("x".to_owned(), "y".to_owned()).unwrap();
    assert_eq!(b.role(), Role::Controlled);
    assert_eq!(b.connection_state(), ConnectionState::Checking);
    b.close().unwrap();
    assert_eq!(b.dial("x".to_owned(), "y".to_owned()), Err(Error::Closed));
    assert_eq!(b.accept("x".to_owned(), "y".to_owned()), Err(Error::Closed));
    assert_eq!(b.role(), Role::Controlled);
}

#[test]
fn consent_is_asked_for_at_intervals() {
    let mut a = connected_agent();
    assert!(a.consent_check(2 * SECOND, 10).is_none());
    let request = a.consent_check(5 * SECOND, 10).unwrap();
    assert_eq!(request.pair, 0);
    assert_eq!(request.transaction_id, 10);
    assert!(!request.use_candidate);
    assert_eq!(a.pending_count(), 1);
    assert_eq!(a.pair(0).unwrap().state, CandidatePairState::Succeeded);
    assert!(a.consent_check(9 * SECOND, 11).is_none());
    assert!(a.consent_check(10 * SECOND, 10).is_none());
    assert!(a.consent_check(10 * SECOND, 11).is_some());
    let learned = new_peer_reflexive(&a.get_local_candidates()[0], at(5000), true);
    assert_eq!(
        a.on_success_response(0, at(6000), 10, at(5000), learned, 10 * SECOND),
        InboundReply::Nothing
    );
    assert_eq!(a.get_remote_candidates()[0].last_received(), 10 * SECOND);
    assert_eq!(a.connection_state(), ConnectionState::Connected);
    assert!(a.selected_pair().is_some());

    let mut idle = Agent::new(AgentConfig::new(true, 2, "a".to_owned(), "b".to_owned()));
    assert!(idle.consent_check(100 * SECOND, 1).is_none());
    a.close().unwrap();
    assert!(a.consent_check(100 * SECOND, 12).is_none());
}

#[test]
fn transaction_identifiers_have_96_bits() {
    let mut a = Agent::new(AgentConfig::new(true, 2, "a".to_owned(), "b".to_owned()));
    a.add_local_candidate(local_host(5000)).unwrap();
    let mut other = local_host(6000);
    other.foundation_override = "other".to_owned();
    a.add_remote_candidate(other).unwrap();
    let mut third = local_host(6001);
    third.foundation_override = "third".to_owned();
    a.add_remote_candidate(third).unwrap();
    a.dial("x".to_owned(), "y".to_owned()).unwrap();
    let request = a.tick(0, (1u128 << 96) + 7).unwrap();
    assert_eq!(request.transaction_id, 7);
    assert!(a.tick(0, 7).is_none());
    assert!(a.tick(0, (5u128 << 96) + 7).is_none());
    assert_eq!(a.tick(0, u128::MAX).unwrap().transaction_id, (1u128 << 96) - 1);
}

#[test]
fn an_unreachable_peer_fails_the_pair() {
    let mut a = Agent::new(AgentConfig::new(true, 2, "a".to_owned(), "b".to_owned()));
    a.add_local_candidate(local_host(5000)).unwrap();
    a.add_remote_candidate(local_host(6000)).unwrap();
    a.dial("x".to_owned(), "y".to_owned()).unwrap();
    a.tick(0, 3).unwrap();
    a.on_unreachable(4);
    assert_eq!(a.pair(0).unwrap().state, CandidatePairState::InProgress);
    a.on_unreachable(3);
    assert_eq!(a.pair(0).unwrap().state, CandidatePairState::Failed);
    assert_eq!(a.pending_count(), 0);
    assert_eq!(a.role(), Role::Controlling);
}

#[test]
fn the_agent_starts_writes_and_closes_its_candidates() {
    let mut a = Agent::new(AgentConfig::new(true, 2, "a".to_owned(), "b".to_owned()));
    let mut relay = local_host(5001);
    relay.candidate_type = CandidateType::Relay;
    relay.has_relay_client = true;
    a.add_local_candidate(local_host(5000)).unwrap();
    a.add_local_candidate(relay).unwrap();

    a.start_candidate(0);
    a.start_candidate(9);
    assert!(a.get_local_candidates()[0].is_running());
    assert!(!a.get_local_candidates()[1].is_running());

    assert_eq!(a.finish_write(0, Some(Ok(12))), Ok(12));
    let stamp = a.get_local_candidates()[0].last_sent();
    assert!(stamp > 1_600_000_000_000_000_000);
    assert_eq!(a.finish_write(0, Some(Err(Error::Io))), Err(Error::Io));
    assert_eq!(a.get_local_candidates()[0].last_sent(), stamp);
    assert_eq!(a.finish_write(1, None), Ok(0));
    assert!(a.get_local_candidates()[1].last_sent() > 0);
    assert_eq!(a.finish_write(2, Some(Ok(1))), Err(Error::InvalidCandidate));

    assert_eq!(a.close_candidate(0), Ok(CloseEffect::Nothing));
    assert!(a.get_local_candidates()[0].is_closed());
    assert!(!a.get_local_candidates()[0].is_running());
    assert_eq!(a.close_candidate(0), Err(Error::Closed));
    assert_eq!(a.close_candidate(1), Ok(CloseEffect::CloseRelayClient));
    assert_eq!(a.close_candidate(1), Err(Error::Closed));
    assert_eq!(a.close_candidate(2), Err(Error::InvalidCandidate));
    a.start_candidate(0);
    assert!(!a.get_local_candidates()[0].is_running());

    let mut b = Agent::new(AgentConfig::new(true, 2, "a".to_owned(), "b".to_owned()));
    b.add_local_candidate(local_host(5000)).unwrap();
    b.close().unwrap();
    assert_eq!(b.close_candidate(0), Err(Error::Closed));
    b.start_candidate(0);
    assert!(!b.get_local_candidates()[0].is_running());
}
