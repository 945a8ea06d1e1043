//! The candidate: an address on which an agent can be reached, with the
//! priority, the foundation and the text form that the peer is told.

use crate::candidate_type::CandidateType;
use crate::checksum::{checksum_iscsi, crc32_iscsi};
use crate::clock::{since_epoch, wall_clock, whole_nanos};
use crate::error::Error;
use crate::network_type::{
    create_addr, determine_network_type, network_type_for, IpAddress, NetworkType, SocketAddress,
};
use crate::tcp_type::TcpType;
use crate::text::{append_utf8, decimal, join_words, lemma_join_push, render_decimal};
use vstd::prelude::*;
use vstd::string::*;
use vstd::utf8::encode_utf8;

verus! {

/// The size of the buffer that a candidate's receive pump reads into.
pub const RECEIVE_MTU: usize = 8192;

/// The local preference of a candidate that is the only one of its kind on
/// its host.
pub const DEFAULT_LOCAL_PREFERENCE: u16 = 65535;

/// The local preference left to tell apart the addresses of a multi-homed
/// host, in a TCP candidate.
pub const TCP_OTHER_PREFERENCE: u16 = 8191;

/// The address that a reflexive or relayed candidate was derived from.
#[derive(Clone, Debug)]
pub struct CandidateRelatedAddress {
    pub address: String,
    pub port: u16,
}

impl CandidateRelatedAddress {
    /// How the related address is shown after a candidate's own address.
    pub open spec fn describe(&self) -> Seq<char> {
        " related "@ + self.address@ + ":"@ + decimal(self.port as nat)
    }

    /// True when two related addresses have the same text and port.
    pub open spec fn same(&self, other: &CandidateRelatedAddress) -> bool {
        self.address@ == other.address@ && self.port == other.port
    }

    /// Renders the related address as it is shown after a candidate's own.
    pub fn to_string(&self) -> (s: String)
        ensures
            s@ == self.describe(),
    {
        let mut s = " related ".to_owned();
        s.append(self.address.as_str());
        s.append(":");
        s.append(render_decimal(self.port as u64).as_str());
        s
    }

    /// Compares two related addresses by text and port.
    pub fn equal(&self, other: &CandidateRelatedAddress) -> (b: bool)
        ensures
            b == self.same(other),
    {
        self.address == other.address && self.port == other.port
    }
}

/// True when two optional related addresses are both absent, or both present
/// with the same text and port.
pub open spec fn same_related(
    a: Option<CandidateRelatedAddress>,
    b: Option<CandidateRelatedAddress>,
) -> bool {
    match (a, b) {
        (None, None) => true,
        (Some(x), Some(y)) => x.same(&y),
        _ => false,
    }
}

/// What a candidate is made from.
#[derive(Clone, Debug)]
pub struct CandidateBaseConfig {
    /// The candidate's identifier, unique within its agent.
    pub candidate_id: String,
    /// The transport's name, such as `udp` or `tcp`.
    pub network: String,
    /// The address, as text.
    pub address: String,
    pub port: u16,
    pub component: u16,
    /// A priority that replaces the computed one, unless it is 0.
    pub priority: u32,
    /// A foundation that replaces the computed one, unless it is empty.
    pub foundation: String,
    /// Whether the candidate has a packet connection of its own.
    pub has_conn: bool,
}

impl Default for CandidateBaseConfig {
    fn default() -> (c: CandidateBaseConfig)
        ensures
            c.candidate_id@.len() == 0,
            c.network@.len() == 0,
            c.address@.len() == 0,
            c.port == 0,
            c.component == 0,
            c.priority == 0,
            c.foundation@.len() == 0,
            !c.has_conn,
    {
        CandidateBaseConfig {
            candidate_id: String::new(),
            network: String::new(),
            address: String::new(),
            port: 0,
            component: 0,
            priority: 0,
            foundation: String::new(),
            has_conn: false,
        }
    }
}

/// What remains to be done outside the candidate once it has been closed.
#[derive(Clone, Copy, Debug, PartialEq, Eq, Structural)]
pub enum CloseEffect {
    /// Nothing: the candidate owns no TURN allocation.
    Nothing,
    /// The candidate's TURN client must be closed.
    CloseRelayClient,
}

/// A candidate of any of the four types.
#[derive(Clone, Debug)]
pub struct CandidateBase {
    pub id: String,
    pub network_type: NetworkType,
    pub candidate_type: CandidateType,
    pub component: u16,
    pub address: String,
    pub port: u16,
    pub related_address: Option<CandidateRelatedAddress>,
    pub tcp_type: TcpType,
    /// The socket address that `address` and `port` resolve to.
    pub resolved_addr: SocketAddress,
    /// When the candidate last sent, in nanoseconds since the Unix epoch.
    pub last_sent: u64,
    /// When the candidate last received, in nanoseconds since the Unix epoch.
    pub last_received: u64,
    /// Whether the candidate has a packet connection of its own.
    pub has_conn: bool,
    /// Whether the candidate's receive pump has been started and not yet
    /// told to stop.
    pub running: bool,
    /// Whether the candidate has been closed.
    pub closed: bool,
    /// A foundation that replaces the computed one, unless it is empty.
    pub foundation_override: String,
    /// A priority that replaces the computed one, unless it is 0.
    pub priority_override: u32,
    /// The transport's name, as the candidate was configured.
    pub network: String,
    /// Whether the candidate owns a TURN client, as a relay candidate does.
    pub has_relay_client: bool,
}

/// The direction preference of a TCP candidate: the part of its local
/// preference that tells active, passive and simultaneous-open candidates
/// apart.
pub open spec fn direction_preference(candidate_type: CandidateType, tcp_type: TcpType) -> nat {
    match candidate_type {
        CandidateType::Host | CandidateType::Relay => match tcp_type {
            TcpType::Active => 6,
            TcpType::Passive => 4,
            TcpType::SimultaneousOpen => 2,
            TcpType::Unspecified => 0,
        },
        CandidateType::PeerReflexive | CandidateType::ServerReflexive => match tcp_type {
            TcpType::SimultaneousOpen => 6,
            TcpType::Active => 4,
            TcpType::Passive => 2,
            TcpType::Unspecified => 0,
        },
        CandidateType::Unspecified => 0,
    }
}

/// The local preference: 65535 over UDP; over TCP, 2^13 times the direction
/// preference plus 8191.
pub open spec fn local_preference_of(
    network_type: NetworkType,
    candidate_type: CandidateType,
    tcp_type: TcpType,
) -> nat {
    if network_type.tcp() {
        8192 * direction_preference(candidate_type, tcp_type) + 8191
    } else {
        65535
    }
}

/// The priority formula: 2^24 times the type preference, plus 2^8 times the
/// local preference, plus 256 less the component.
pub open spec fn priority_of(type_preference: nat, local_preference: nat, component: nat) -> int {
    16777216 * type_preference + 256 * local_preference + (256 - component)
}

/// The bytes that a computed foundation is the checksum of: the type's name,
/// the base address and the network type's name, each in UTF-8.
pub open spec fn foundation_input(
    candidate_type: CandidateType,
    base_address: Seq<char>,
    network_type: NetworkType,
) -> Seq<u8> {
    encode_utf8(candidate_type.name()) + encode_utf8(base_address) + encode_utf8(
        network_type.name(),
    )
}

impl CandidateBase {
    /// The candidate's local preference.
    pub open spec fn local_preference_value(&self) -> nat {
        local_preference_of(self.network_type, self.candidate_type, self.tcp_type)
    }

    /// The candidate's priority: the override where there is one, else the
    /// priority formula on type preference, local preference and component.
    pub open spec fn priority_value(&self) -> int {
        if self.priority_override != 0 {
            self.priority_override as int
        } else {
            priority_of(
                self.candidate_type.preference_of(),
                self.local_preference_value(),
                self.component as nat,
            )
        }
    }

    /// The priority of a peer-reflexive candidate that a check sent from this
    /// candidate reveals: the priority formula on the type preference of
    /// peer-reflexive candidates and this candidate's local preference and
    /// component.
    pub open spec fn peer_reflexive_priority_value(&self) -> int {
        priority_of(
            CandidateType::PeerReflexive.preference_of(),
            self.local_preference_value(),
            self.component as nat,
        )
    }

    /// The candidate's base address: the address that it is related to, where
    /// it was derived from one, and its own address else.
    pub open spec fn base_address(&self) -> Seq<char> {
        match self.related_address {
            Some(related) => related.address@,
            None => self.address@,
        }
    }

    /// The candidate's foundation: the override where there is one, else the
    /// checksum of type, base address and network type, in decimal.
    pub open spec fn foundation_text(&self) -> Seq<char> {
        if self.foundation_override@.len() > 0 {
            self.foundation_override@
        } else {
            decimal(
                crc32_iscsi(
                    foundation_input(self.candidate_type, self.base_address(), self.network_type),
                ) as nat,
            )
        }
    }

    /// The words of the candidate's line, in order.
    pub open spec fn marshal_words(&self) -> Seq<Seq<char>> {
        seq![
            self.foundation_text(),
            decimal(self.component as nat),
            self.network_type.short_name(),
            decimal(self.priority_value() as nat),
            self.address@,
            decimal(self.port as nat),
            "typ"@,
            self.candidate_type.name(),
        ] + (if self.tcp_type != TcpType::Unspecified {
            seq!["tcptype"@, self.tcp_type.name()]
        } else {
            Seq::empty()
        }) + (match self.related_address {
            Some(related) => seq![
                "raddr"@,
                related.address@,
                "rport"@,
                decimal(related.port as nat),
            ],
            None => Seq::empty(),
        })
    }

    /// The candidate's line: its words with one space between neighbours.
    pub open spec fn marshal_text(&self) -> Seq<char> {
        join_words(self.marshal_words())
    }

    /// How the candidate is shown to a reader.
    pub open spec fn describe(&self) -> Seq<char> {
        self.network_type.name() + " "@ + self.candidate_type.name() + " "@ + self.address@ + ":"@
            + decimal(self.port as nat) + (match self.related_address {
            Some(related) => related.describe(),
            None => Seq::empty(),
        })
    }

    /// Equality of candidates: by network type, type, address, port, TCP type
    /// and related address, and by nothing else.
    pub open spec fn same(&self, other: &CandidateBase) -> bool {
        &&& self.network_type == other.network_type
        &&& self.candidate_type == other.candidate_type
        &&& self.address@ == other.address@
        &&& self.port == other.port
        &&& self.tcp_type == other.tcp_type
        &&& same_related(self.related_address, other.related_address)
    }

    /// The candidate with a time stamp set: `last_sent` where `outbound`,
    /// else `last_received`.
    pub open spec fn stamped(self, outbound: bool, nanos: u64) -> CandidateBase {
        if outbound {
            CandidateBase { last_sent: nanos, ..self }
        } else {
            CandidateBase { last_received: nanos, ..self }
        }
    }

    /// Makes a candidate from its configuration and the IP address that its
    /// address resolves to.
    ///
    /// With an IP address, the network type follows from the configured
    /// transport and the address family; an unknown transport fails with
    /// `AddressParse`. Without one, a host candidate is made for UDP over
    /// IPv4 and awaits `set_ip`; a candidate of another type fails with
    /// `AddressParse`.
    pub fn new(
        config: CandidateBaseConfig,
        candidate_type: CandidateType,
        tcp_type: TcpType,
        related_address: Option<CandidateRelatedAddress>,
        ip: Option<IpAddress>,
    ) -> (r: Result<CandidateBase, Error>)
        ensures
            r is Ok <==> match ip {
                Some(a) => network_type_for(config.network@, a.is_v4()) is Some,
                None => candidate_type == CandidateType::Host,
            },
            r matches Err(e) ==> e == Error::AddressParse,
            r matches Ok(c) ==> {
                &&& c.id == config.candidate_id
                &&& c.candidate_type == candidate_type
                &&& c.component == config.component
                &&& c.address == config.address
                &&& c.port == config.port
                &&& c.related_address == related_address
                &&& c.tcp_type == tcp_type
                &&& c.last_sent == 0
                &&& c.last_received == 0
                &&& c.has_conn == config.has_conn
                &&& !c.running
    &&& !c.closed
                &&& !c.closed
                &&& c.foundation_override == config.foundation
                &&& c.priority_override == config.priority
                &&& c.network == config.network
                &&& !c.has_relay_client
                &&& match ip {
                    Some(a) => {
                        &&& Some(c.network_type) == network_type_for(config.network@, a.is_v4())
                        &&& c.resolved_addr == (SocketAddress { ip: a, port: config.port })
                    },
                    None => {
                        &&& c.network_type == NetworkType::Udp4
                        &&& c.resolved_addr == (SocketAddress { ip: IpAddress::V4(0), port: 0 })
                    },
                }
            },
    {
        if ip.is_none() && candidate_type != CandidateType::Host {
            return Err(Error::AddressParse);
        }
        let mut c = CandidateBase {
            id: config.candidate_id,
            network_type: NetworkType::Udp4,
            candidate_type,
            component: config.component,
            address: config.address,
            port: config.port,
            related_address,
            tcp_type,
            resolved_addr: SocketAddress { ip: IpAddress::V4(0), port: 0 },
            last_sent: 0,
            last_received: 0,
            has_conn: config.has_conn,
            running: false,
            closed: false,
            foundation_override: config.foundation,
            priority_override: config.priority,
            network: config.network,
            has_relay_client: false,
        };
        match ip {
            Some(a) => match c.set_ip(&a) {
                Ok(()) => Ok(c),
                Err(e) => Err(e),
            },
            None => Ok(c),
        }
    }

    /// Returns the candidate's foundation.
    pub fn foundation(&self) -> (f: String)
        ensures
            f@ == self.foundation_text(),
    {
        if !self.foundation_override.as_str().is_empty() {
            return self.foundation_override.clone();
        }
        let mut buf: Vec<u8> = Vec::new();
        append_utf8(&mut buf, self.candidate_type.as_str());
        match &self.related_address {
            Some(related) => append_utf8(&mut buf, related.address.as_str()),
            None => append_utf8(&mut buf, self.address.as_str()),
        }
        append_utf8(&mut buf, self.network_type.as_str());
        assert(buf@ =~= foundation_input(
            self.candidate_type,
            self.base_address(),
            self.network_type,
        ));
        let checksum = checksum_iscsi(buf.as_slice());
        foundation_from_checksum(checksum)
    }

    /// Returns the candidate's identifier.
    pub fn id(&self) -> (s: String)
        ensures
            s@ == self.id@,
    {
        self.id.clone()
    }

    /// Returns the candidate's component.
    pub fn component(&self) -> (c: u16)
        ensures
            c == self.component,
    {
        self.component
    }

    /// Sets the candidate's component.
    pub fn set_component(&mut self, component: u16)
        ensures
            *final(self) == (CandidateBase { component, ..*old(self) }),
    {
        self.component = component;
    }

    /// When the candidate last received, in nanoseconds since the Unix epoch.
    pub fn last_received(&self) -> (t: u64)
        ensures
            t == self.last_received,
    {
        self.last_received
    }

    /// When the candidate last sent, in nanoseconds since the Unix epoch.
    pub fn last_sent(&self) -> (t: u64)
        ensures
            t == self.last_sent,
    {
        self.last_sent
    }

    /// Returns the candidate's network type.
    pub fn network_type(&self) -> (t: NetworkType)
        ensures
            t == self.network_type,
    {
        self.network_type
    }

    /// Returns the candidate's address, as text.
    pub fn address(&self) -> (s: String)
        ensures
            s@ == self.address@,
    {
        self.address.clone()
    }

    /// Returns the candidate's port.
    pub fn port(&self) -> (p: u16)
        ensures
            p == self.port,
    {
        self.port
    }

    /// Computes the candidate's priority.
    pub fn priority(&self) -> (p: u32)
        ensures
            p == self.priority_value(),
    {
        if self.priority_override != 0 {
            return self.priority_override;
        }
        let type_preference: u32 = self.candidate_type.preference() as u32;
        let local_preference: u32 = self.local_preference() as u32;
        let high: u32 = 16777216 * type_preference + 256 * local_preference + 256;
        high - self.component as u32
    }

    /// Computes the priority that a connectivity check from this candidate
    /// states: that of the peer-reflexive candidate it may reveal.
    pub fn peer_reflexive_priority(&self) -> (p: u32)
        ensures
            p == self.peer_reflexive_priority_value(),
    {
        let type_preference: u32 = CandidateType::PeerReflexive.preference() as u32;
        let local_preference: u32 = self.local_preference() as u32;
        let high: u32 = 16777216 * type_preference + 256 * local_preference + 256;
        high - self.component as u32
    }

    /// Returns the address that the candidate was derived from, if any.
    pub fn related_address(&self) -> (r: Option<CandidateRelatedAddress>)
        ensures
            same_related(r, self.related_address),
    {
        match &self.related_address {
            Some(related) => Some(
                CandidateRelatedAddress { address: related.address.clone(), port: related.port },
            ),
            None => None,
        }
    }

    /// Returns the candidate's type.
    pub fn candidate_type(&self) -> (t: CandidateType)
        ensures
            t == self.candidate_type,
    {
        self.candidate_type
    }

    /// Returns the candidate's TCP type.
    pub fn tcp_type(&self) -> (t: TcpType)
        ensures
            t == self.tcp_type,
    {
        self.tcp_type
    }

    /// Writes the candidate's line, as it is given to the peer.
    pub fn marshal(&self) -> (line: String)
        ensures
            line@ == self.marshal_text(),
    {
        let mut line = self.foundation();
        let ghost mut words: Seq<Seq<char>> = seq![self.foundation_text()];
        add_word(&mut line, render_decimal(self.component as u64).as_str(), Ghost(words));
        proof {
            words = words.push(decimal(self.component as nat));
        }
        add_word(&mut line, self.network_type.network_short_str(), Ghost(words));
        proof {
            words = words.push(self.network_type.short_name());
        }
        add_word(&mut line, render_decimal(self.priority() as u64).as_str(), Ghost(words));
        proof {
            words = words.push(decimal(self.priority_value() as nat));
        }
        add_word(&mut line, self.address.as_str(), Ghost(words));
        proof {
            words = words.push(self.address@);
        }
        add_word(&mut line, render_decimal(self.port as u64).as_str(), Ghost(words));
        proof {
            words = words.push(decimal(self.port as nat));
        }
        add_word(&mut line, "typ", Ghost(words));
        proof {
            words = words.push("typ"@);
        }
        add_word(&mut line, self.candidate_type.as_str(), Ghost(words));
        proof {
            words = words.push(self.candidate_type.name());
        }
        if self.tcp_type != TcpType::Unspecified {
            add_word(&mut line, "tcptype", Ghost(words));
            proof {
                words = words.push("tcptype"@);
            }
            add_word(&mut line, self.tcp_type.as_str(), Ghost(words));
            proof {
                words = words.push(self.tcp_type.name());
            }
        }
        match &self.related_address {
            Some(related) => {
                add_word(&mut line, "raddr", Ghost(words));
                proof {
                    words = words.push("raddr"@);
                }
                add_word(&mut line, related.address.as_str(), Ghost(words));
                proof {
                    words = words.push(related.address@);
                }
                add_word(&mut line, "rport", Ghost(words));
                proof {
                    words = words.push("rport"@);
                }
                add_word(&mut line, render_decimal(related.port as u64).as_str(), Ghost(words));
                proof {
                    words = words.push(decimal(related.port as nat));
                }
            },
            None => {},
        }
        assert(words =~= self.marshal_words());
        line
    }

    /// Returns the socket address that the candidate resolves to.
    pub fn addr(&self) -> (a: SocketAddress)
        ensures
            a == self.resolved_addr,
    {
        self.resolved_addr
    }

    /// Closes the candidate: its receive pump is told to stop.
    ///
    /// The first call succeeds, whether or not the pump was ever started, and
    /// says whether a TURN client remains to be closed: it does exactly when
    /// the candidate owns one. Every later call fails with `Closed` and
    /// leaves the candidate as it was.
    pub fn close(&mut self) -> (r: Result<CloseEffect, Error>)
        ensures
            old(self).closed ==> r == Err::<CloseEffect, Error>(Error::Closed) && *final(self)
                == *old(self),
            !old(self).closed ==> *final(self) == (CandidateBase {
                running: false,
                closed: true,
                ..*old(self)
            }) && r == Ok::<CloseEffect, Error>(
                if old(self).has_relay_client {
                    CloseEffect::CloseRelayClient
                } else {
                    CloseEffect::Nothing
                },
            ),
    {
        if self.closed {
            return Err(Error::Closed);
        }
        self.running = false;
        self.closed = true;
        if self.has_relay_client {
            Ok(CloseEffect::CloseRelayClient)
        } else {
            Ok(CloseEffect::Nothing)
        }
    }

    /// Notes that the candidate has just sent (`outbound`) or received: the
    /// matching time stamp is set to the wall clock's reading, and to 0 where
    /// the clock reads a time before the Unix epoch. Nothing else changes.
    pub fn seen(&mut self, outbound: bool)
        ensures
            exists|nanos: u64| *final(self) == old(self).stamped(outbound, nanos),
    {
        let now = wall_clock();
        let nanos: u128 = match since_epoch(&now) {
            Some(d) => whole_nanos(&d),
            None => 0,
        };
        self.seen_at(outbound, nanos);
    }

    /// Ends a write: `sent` is what the candidate's connection made of the
    /// datagram, and `None` where the candidate has no connection.
    ///
    /// A send that failed fails the write with its error and leaves the
    /// candidate as it was. Else the number of bytes written is returned, 0
    /// where there is no connection, and the candidate is noted to have sent,
    /// at the wall clock's reading.
    pub fn finish_write(&mut self, sent: Option<Result<usize, Error>>) -> (r: Result<usize, Error>)
        ensures
            match sent {
                Some(Err(e)) => r == Err::<usize, Error>(e) && *final(self) == *old(self),
                Some(Ok(count)) => r == Ok::<usize, Error>(count) && exists|nanos: u64|
                    *final(self) == old(self).stamped(true, nanos),
                None => r == Ok::<usize, Error>(0) && exists|nanos: u64|
                    *final(self) == old(self).stamped(true, nanos),
            },
    {
        let count = match sent {
            Some(Err(e)) => {
                return Err(e);
            },
            Some(Ok(count)) => count,
            None => 0,
        };
        self.seen(true);
        Ok(count)
    }

    /// Notes that the candidate sent (`outbound`) or received at the given
    /// time, in nanoseconds since the Unix epoch.
    pub fn seen_at(&mut self, outbound: bool, nanos: u128)
        ensures
            *final(self) == old(self).stamped(outbound, (nanos % 0x1_0000_0000_0000_0000) as u64),
    {
        if outbound {
            self.set_last_sent(nanos);
        } else {
            self.set_last_received(nanos);
        }
    }

    /// Compares two candidates.
    pub fn equal(&self, other: &CandidateBase) -> (b: bool)
        ensures
            b == self.same(other),
    {
        self.network_type == other.network_type && self.candidate_type == other.candidate_type
            && self.address == other.address && self.port == other.port && self.tcp_type
            == other.tcp_type && match (&self.related_address, &other.related_address) {
            (None, None) => true,
            (Some(x), Some(y)) => x.equal(y),
            _ => false,
        }
    }

    /// Gives the candidate the IP address that its address resolves to.
    ///
    /// The network type becomes that of the configured transport with the
    /// family of `ip`, and the resolved address becomes `ip` with the
    /// candidate's port. A transport that is neither UDP nor TCP fails with
    /// `AddressParse` and leaves the candidate as it was.
    pub fn set_ip(&mut self, ip: &IpAddress) -> (r: Result<(), Error>)
        ensures
            match network_type_for(old(self).network@, ip.is_v4()) {
                Some(t) => r is Ok && *final(self) == (CandidateBase {
                    network_type: t,
                    resolved_addr: SocketAddress { ip: *ip, port: old(self).port },
                    ..*old(self)
                }),
                None => r == Err::<(), Error>(Error::AddressParse) && *final(self) == *old(self),
            },
    {
        let network_type = match determine_network_type(self.network.as_str(), ip) {
            Ok(t) => t,
            Err(e) => {
                return Err(e);
            },
        };
        self.network_type = network_type;
        self.resolved_addr = create_addr(network_type, *ip, self.port);
        Ok(())
    }

    /// Tells whether the candidate has a packet connection of its own.
    pub fn get_conn(&self) -> (b: bool)
        ensures
            b == self.has_conn,
    {
        self.has_conn
    }

    /// Tells whether the candidate's receive pump is running.
    pub fn is_running(&self) -> (b: bool)
        ensures
            b == self.running,
    {
        self.running
    }

    /// Tells whether the candidate has been closed.
    pub fn is_closed(&self) -> (b: bool)
        ensures
            b == self.closed,
    {
        self.closed
    }

    /// Starts the candidate: its receive pump may run until `close`. A
    /// candidate that has been closed stays as it is.
    pub fn start(&mut self)
        ensures
            *final(self) == if old(self).closed {
                *old(self)
            } else {
                CandidateBase { running: true, ..*old(self) }
            },
    {
        if !self.closed {
            self.running = true;
        }
    }

    /// Sets the time of the last receipt, in nanoseconds since the Unix
    /// epoch; the low 64 bits are kept.
    pub fn set_last_received(&mut self, nanos: u128)
        ensures
            *final(self) == (CandidateBase {
                last_received: (nanos % 0x1_0000_0000_0000_0000) as u64,
                ..*old(self)
            }),
    {
        self.last_received = low_64_bits(nanos);
    }

    /// Sets the time of the last sending, in nanoseconds since the Unix epoch;
    /// the low 64 bits are kept.
    pub fn set_last_sent(&mut self, nanos: u128)
        ensures
            *final(self) == (CandidateBase {
                last_sent: (nanos % 0x1_0000_0000_0000_0000) as u64,
                ..*old(self)
            }),
    {
        self.last_sent = low_64_bits(nanos);
    }

    /// Returns the candidate's local preference.
    pub fn local_preference(&self) -> (p: u16)
        ensures
            p == self.local_preference_value(),
    {
        if self.network_type.is_tcp() {
            let other_pref: u16 = TCP_OTHER_PREFERENCE;
            let direction_pref: u16 = match self.candidate_type {
                CandidateType::Host | CandidateType::Relay => match self.tcp_type {
                    TcpType::Active => 6,
                    TcpType::Passive => 4,
                    TcpType::SimultaneousOpen => 2,
                    TcpType::Unspecified => 0,
                },
                CandidateType::PeerReflexive | CandidateType::ServerReflexive => match self.tcp_type {
                    TcpType::SimultaneousOpen => 6,
                    TcpType::Active => 4,
                    TcpType::Passive => 2,
                    TcpType::Unspecified => 0,
                },
                CandidateType::Unspecified => 0,
            };
            8192 * direction_pref + other_pref
        } else {
            DEFAULT_LOCAL_PREFERENCE
        }
    }

    /// Renders the candidate for a reader: network type, type, address and
    /// port, then the related address where there is one.
    pub fn to_string(&self) -> (s: String)
        ensures
            s@ == self.describe(),
    {
        let mut s = self.network_type.to_string();
        s.append(" ");
        s.append(self.candidate_type.as_str());
        s.append(" ");
        s.append(self.address.as_str());
        s.append(":");
        s.append(render_decimal(self.port as u64).as_str());
        match &self.related_address {
            Some(related) => {
                s.append(related.to_string().as_str());
            },
            None => {
                assert(s@ + Seq::<char>::empty() =~= s@);
            },
        }
        s
    }
}

impl Default for CandidateBase {
    fn default() -> (c: CandidateBase)
        ensures
            c.id@.len() == 0,
            c.network_type == NetworkType::Unspecified,
            c.candidate_type == CandidateType::Unspecified,
            c.component == 0,
            c.address@.len() == 0,
            c.port == 0,
            c.related_address is None,
            c.tcp_type == TcpType::Unspecified,
            c.resolved_addr == (SocketAddress { ip: IpAddress::V4(0), port: 0 }),
            c.last_sent == 0,
            c.last_received == 0,
            !c.has_conn,
            !c.running,
            !c.closed,
            c.foundation_override@.len() == 0,
            c.priority_override == 0,
            c.network@.len() == 0,
            !c.has_relay_client,
    {
        CandidateBase {
            id: String::new(),
            network_type: NetworkType::Unspecified,
            candidate_type: CandidateType::Unspecified,
            component: 0,
            address: String::new(),
            port: 0,
            related_address: None,
            tcp_type: TcpType::Unspecified,
            resolved_addr: SocketAddress { ip: IpAddress::V4(0), port: 0 },
            last_sent: 0,
            last_received: 0,
            has_conn: false,
            running: false,
            closed: false,
            foundation_override: String::new(),
            priority_override: 0,
            network: String::new(),
            has_relay_client: false,
        }
    }
}

/// True when a candidate is the peer-reflexive candidate learned at an
/// address through a local candidate: of the local candidate's component and
/// network, with the address as its text and its resolved address, without
/// identifier or overrides, and neither running nor closed nor connected. A candidate
/// learned for the agent itself (`own`) is related to the local candidate.
pub open spec fn is_peer_reflexive_of(
    c: CandidateBase,
    local: CandidateBase,
    address: SocketAddress,
    own: bool,
) -> bool {
    &&& c.id@.len() == 0
    &&& c.network_type == local.network_type
    &&& c.candidate_type == CandidateType::PeerReflexive
    &&& c.component == local.component
    &&& c.address@ == address.ip.text()
    &&& c.port == address.port
    &&& match c.related_address {
        Some(related) => own && related.address@ == local.address@ && related.port == local.port,
        None => !own,
    }
    &&& c.tcp_type == local.tcp_type
    &&& c.resolved_addr == address
    &&& c.last_sent == 0
    &&& c.last_received == 0
    &&& !c.has_conn
    &&& !c.running
    &&& !c.closed
    &&& c.foundation_override@.len() == 0
    &&& c.priority_override == 0
    &&& c.network@ == local.network@
    &&& !c.has_relay_client
}

/// Makes the peer-reflexive candidate learned at an address through a local
/// candidate.
pub fn new_peer_reflexive(local: &CandidateBase, address: SocketAddress, own: bool) -> (c:
    CandidateBase)
    ensures
        is_peer_reflexive_of(c, *local, address, own),
{
    CandidateBase {
        id: String::new(),
        network_type: local.network_type,
        candidate_type: CandidateType::PeerReflexive,
        component: local.component,
        address: address.ip.to_string(),
        port: address.port,
        related_address: if own {
            Some(CandidateRelatedAddress { address: local.address.clone(), port: local.port })
        } else {
            None
        },
        tcp_type: local.tcp_type,
        resolved_addr: address,
        last_sent: 0,
        last_received: 0,
        has_conn: false,
        running: false,
        closed: false,
        foundation_override: String::new(),
        priority_override: 0,
        network: local.network.clone(),
        has_relay_client: false,
    }
}

/// Renders a foundation from the checksum of type, base address and network
/// type.
pub fn foundation_from_checksum(checksum: u32) -> (f: String)
    ensures
        f@ == decimal(checksum as nat),
{
    render_decimal(checksum as u64)
}

/// The low 64 bits of a count of nanoseconds.
fn low_64_bits(nanos: u128) -> (low: u64)
    ensures
        low == nanos % 0x1_0000_0000_0000_0000,
{
    (nanos % 0x1_0000_0000_0000_0000) as u64
}

/// Appends a space and a word to a line that holds a row of words already.
fn add_word(line: &mut String, word: &str, Ghost(words): Ghost<Seq<Seq<char>>>)
    requires
        words.len() > 0,
        old(line)@ == join_words(words),
    ensures
        final(line)@ == join_words(words.push(word@)),
{
    line.append(" ");
    line.append(word);
    proof {
        reveal_strlit(" ");
        lemma_join_push(words, word@);
        assert(" "@ =~= seq![' ']);
    }
}

/// The priority is a function of type, transport, TCP type, component and
/// override alone: two candidates that agree on these have the same priority.
pub proof fn lemma_priority_is_determined(a: CandidateBase, b: CandidateBase)
    requires
        a.candidate_type == b.candidate_type,
        a.network_type.tcp() == b.network_type.tcp(),
        a.tcp_type == b.tcp_type,
        a.component == b.component,
        a.priority_override == b.priority_override,
    ensures
        a.priority_value() == b.priority_value(),
        0 <= a.priority_value() <= u32::MAX,
{
}

/// Two candidates of the same type, with the same base address and network
/// type and without an override, have the same foundation, whatever their
/// own addresses are.
pub proof fn lemma_foundation_is_determined(a: CandidateBase, b: CandidateBase)
    requires
        a.candidate_type == b.candidate_type,
        a.base_address() == b.base_address(),
        a.network_type == b.network_type,
        a.foundation_override@.len() == 0,
        b.foundation_override@.len() == 0,
    ensures
        a.foundation_text() == b.foundation_text(),
{
}

} // verus!
