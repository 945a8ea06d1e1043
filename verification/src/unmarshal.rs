//! Reading a candidate line, the inverse of writing one.

use crate::candidate_base::{
    is_peer_reflexive_of, same_related, CandidateBase, CandidateBaseConfig, CandidateRelatedAddress,
};
use crate::candidate_type::{same_text, CandidateType};
use crate::error::Error;
use crate::network_type::{network_type_for, IpAddress, NetworkType, SocketAddress};
use crate::tcp_type::TcpType;
use crate::text::{
    chars_of, decimal, is_word, join_words, lemma_decimal_reads_back, lemma_read_number_of_decimal,
    lemma_tokens_are_words, lemma_tokens_of_join, parse_decimal, read_number, split_words, string_of, tokens, words_view,
};
use vstd::prelude::*;

verus! {

/// What a candidate line says.
#[derive(Clone, Debug)]
pub struct CandidateLine {
    pub foundation: String,
    pub component: u16,
    /// The transport's name, such as `udp`.
    pub network: String,
    pub priority: u32,
    pub address: String,
    pub port: u16,
    pub candidate_type: CandidateType,
    pub tcp_type: TcpType,
    pub related_address: Option<CandidateRelatedAddress>,
}

/// What a candidate line says, as text and numbers.
pub struct LineText {
    pub foundation: Seq<char>,
    pub component: u16,
    pub network: Seq<char>,
    pub priority: u32,
    pub address: Seq<char>,
    pub port: u16,
    pub candidate_type: CandidateType,
    pub tcp_type: TcpType,
    /// The related address and port, where the line has `raddr`.
    pub related: Option<(Seq<char>, u16)>,
}

impl View for CandidateLine {
    type V = LineText;

    open spec fn view(&self) -> LineText {
        LineText {
            foundation: self.foundation@,
            component: self.component,
            network: self.network@,
            priority: self.priority,
            address: self.address@,
            port: self.port,
            candidate_type: self.candidate_type,
            tcp_type: self.tcp_type,
            related: match self.related_address {
                Some(related) => Some((related.address@, related.port)),
                None => None,
            },
        }
    }
}

/// What the words after a candidate's type say.
pub struct Extensions {
    pub tcp_type: TcpType,
    pub related_address: Option<Seq<char>>,
    pub related_port: u16,
}

/// What a line without words after the type says of them: no TCP type and
/// no related address.
pub open spec fn no_extensions() -> Extensions {
    Extensions { tcp_type: TcpType::Unspecified, related_address: None, related_port: 0 }
}

/// Reads the words after the type, from place `from` on, two at a time: a
/// name and a value. `tcptype`, `raddr` and `rport` are understood, and a
/// later one replaces an earlier one; any other name is passed over with its
/// value. A name without a value, and a port that is no number up to 65535,
/// make the line invalid.
pub open spec fn read_extensions(words: Seq<Seq<char>>, from: int, so_far: Extensions) -> Result<
    Extensions,
    Error,
>
    decreases words.len() - from,
{
    if from < 0 || from >= words.len() {
        Ok(so_far)
    } else if from + 1 >= words.len() {
        Err(Error::InvalidCandidate)
    } else if words[from] == "tcptype"@ {
        read_extensions(
            words,
            from + 2,
            Extensions { tcp_type: TcpType::of_name(words[from + 1]), ..so_far },
        )
    } else if words[from] == "raddr"@ {
        read_extensions(
            words,
            from + 2,
            Extensions { related_address: Some(words[from + 1]), ..so_far },
        )
    } else if words[from] == "rport"@ {
        match read_number(words[from + 1], 65535) {
            Some(port) => read_extensions(
                words,
                from + 2,
                Extensions { related_port: port as u16, ..so_far },
            ),
            None => Err(Error::InvalidCandidate),
        }
    } else {
        read_extensions(words, from + 2, so_far)
    }
}

/// What a candidate line says, or why it says nothing.
///
/// A line has at least eight words: foundation, component, transport,
/// priority, address, port, a seventh word that is not looked at (every line
/// that is written has `typ` there), and the type. Component and port are
/// numbers up to 65535, the priority a number up to 2^32 - 1; a line that
/// is too short or has another thing in a number's place is an
/// `InvalidCandidate`, and so is one whose words after the type cannot be
/// read. A type that is none of `host`, `srflx`, `prflx` and `relay` is an
/// `UnknownCandidateType`.
pub open spec fn parsed_line(text: Seq<char>) -> Result<LineText, Error> {
    let words = tokens(text);
    if words.len() < 8 {
        Err(Error::InvalidCandidate)
    } else {
        match (
            read_number(words[1], 65535),
            read_number(words[3], 0xFFFF_FFFF),
            read_number(words[5], 65535),
        ) {
            (Some(component), Some(priority), Some(port)) => match read_extensions(
                words,
                8,
                no_extensions(),
            ) {
                Err(e) => Err(e),
                Ok(extensions) => match CandidateType::of_name(words[7]) {
                    None => Err(Error::UnknownCandidateType),
                    Some(candidate_type) => Ok(
                        LineText {
                            foundation: words[0],
                            component: component as u16,
                            network: words[2],
                            priority: priority as u32,
                            address: words[4],
                            port: port as u16,
                            candidate_type,
                            tcp_type: extensions.tcp_type,
                            related: match extensions.related_address {
                                Some(address) => Some((address, extensions.related_port)),
                                None => None,
                            },
                        },
                    ),
                },
            },
            _ => Err(Error::InvalidCandidate),
        }
    }
}

/// Reads a candidate line.
#[verifier::loop_isolation(false)]
pub fn unmarshal_candidate(raw: &str) -> (r: Result<CandidateLine, Error>)
    ensures
        match (r, parsed_line(raw@)) {
            (Ok(line), Ok(text)) => line@ == text,
            (Err(a), Err(b)) => a == b,
            _ => false,
        },
{
    let chars = chars_of(raw);
    let words = split_words(&chars);
    let ghost all = tokens(raw@);
    assert(words@.len() == all.len());
    assert forall|k: int| 0 <= k < words@.len() implies (#[trigger] words@[k])@ == all[k] by {
        assert(words_view(words@)[k] == words@[k]@);
    }
    if words.len() < 8 {
        return Err(Error::InvalidCandidate);
    }
    let component = match parse_decimal(&words[1], 65535) {
        Some(n) => n as u16,
        None => {
            return Err(Error::InvalidCandidate);
        },
    };
    let priority = match parse_decimal(&words[3], 0xFFFF_FFFF) {
        Some(n) => n as u32,
        None => {
            return Err(Error::InvalidCandidate);
        },
    };
    let port = match parse_decimal(&words[5], 65535) {
        Some(n) => n as u16,
        None => {
            return Err(Error::InvalidCandidate);
        },
    };
    let mut tcp_type = TcpType::Unspecified;
    let mut related_address: Option<String> = None;
    let mut related_port: u16 = 0;
    let mut from: usize = 8;
    while from < words.len()
        invariant
            8 <= from,
            words@.len() == all.len(),
            forall|k: int| 0 <= k < words@.len() ==> (#[trigger] words@[k])@ == all[k],
            read_extensions(all, 8, no_extensions()) == read_extensions(
                all,
                from as int,
                Extensions {
                    tcp_type,
                    related_address: match related_address {
                        Some(a) => Some(a@),
                        None => None,
                    },
                    related_port,
                },
            ),
        decreases words.len() - from,
    {
        if from + 1 >= words.len() {
            return Err(Error::InvalidCandidate);
        }
        let name = &words[from];
        let value = &words[from + 1];
        if same_text(name, "tcptype") {
            tcp_type = TcpType::from_name(value);
        } else if same_text(name, "raddr") {
            related_address = Some(string_of(value));
        } else if same_text(name, "rport") {
            match parse_decimal(value, 65535) {
                Some(n) => {
                    related_port = n as u16;
                },
                None => {
                    return Err(Error::InvalidCandidate);
                },
            }
        }
        from = from + 2;
    }
    let candidate_type = match CandidateType::from_name(&words[7]) {
        Some(t) => t,
        None => {
            return Err(Error::UnknownCandidateType);
        },
    };
    Ok(
        CandidateLine {
            foundation: string_of(&words[0]),
            component,
            network: string_of(&words[2]),
            priority,
            address: string_of(&words[4]),
            port,
            candidate_type,
            tcp_type,
            related_address: match related_address {
                Some(address) => Some(CandidateRelatedAddress { address, port: related_port }),
                None => None,
            },
        },
    )
}

/// True when a candidate is the one that a line describes, with the IP
/// address that the line's address resolves to: it has the line's type,
/// address, port, component, TCP type and related address, the line's
/// foundation and priority in place of computed ones, and the network type of
/// the line's transport and the address's family.
pub open spec fn describes(line: LineText, ip: IpAddress, c: CandidateBase) -> bool {
    &&& Some(c.network_type) == network_type_for(line.network, ip.is_v4())
    &&& c.candidate_type == line.candidate_type
    &&& c.component == line.component
    &&& c.address@ == line.address
    &&& c.port == line.port
    &&& c.tcp_type == line.tcp_type
    &&& match (c.related_address, line.related) {
        (Some(r), Some((address, port))) => r.address@ == address && r.port == port,
        (None, None) => true,
        _ => false,
    }
    &&& c.resolved_addr == (SocketAddress { ip, port: line.port })
    &&& c.foundation_override@ == line.foundation
    &&& c.priority_override == line.priority
    &&& c.network@ == line.network
}

impl CandidateLine {
    /// Makes the candidate that the line describes, given the IP address that
    /// the line's address resolves to. A transport that is neither UDP nor
    /// TCP fails with `AddressParse`.
    pub fn into_candidate(self, ip: IpAddress) -> (r: Result<CandidateBase, Error>)
        ensures
            r is Ok <==> network_type_for(self@.network, ip.is_v4()) is Some,
            r matches Err(e) ==> e == Error::AddressParse,
            r matches Ok(c) ==> describes(self@, ip, c) && c.id@.len() == 0 && !c.running && !c.closed
                && !c.has_conn && !c.has_relay_client,
    {
        let config = CandidateBaseConfig {
            candidate_id: String::new(),
            network: self.network,
            address: self.address,
            port: self.port,
            component: self.component,
            priority: self.priority,
            foundation: self.foundation,
            has_conn: false,
        };
        CandidateBase::new(
            config,
            self.candidate_type,
            self.tcp_type,
            self.related_address,
            Some(ip),
        )
    }
}

/// A candidate whose line can be read back: its type is known, its address
/// and the address it is related to are words, and so is the foundation that
/// it was given, if it was given one.
pub open spec fn can_be_told(c: CandidateBase) -> bool {
    &&& c.candidate_type != CandidateType::Unspecified
    &&& is_word(c.address@)
    &&& c.foundation_override@.len() > 0 ==> is_word(c.foundation_override@)
    &&& c.related_address matches Some(related) ==> is_word(related.address@)
}

/// What the line of a candidate says when it is read back.
pub open spec fn told(c: CandidateBase) -> LineText {
    LineText {
        foundation: c.foundation_text(),
        component: c.component,
        network: c.network_type.short_name(),
        priority: c.priority_value() as u32,
        address: c.address@,
        port: c.port,
        candidate_type: c.candidate_type,
        tcp_type: c.tcp_type,
        related: match c.related_address {
            Some(related) => Some((related.address@, related.port)),
            None => None,
        },
    }
}

/// The fixed words of a candidate line are words, and no two of them that
/// stand for different things are the same.
proof fn lemma_fixed_words()
    ensures
        is_word("typ"@),
        is_word("host"@),
        is_word("srflx"@),
        is_word("prflx"@),
        is_word("relay"@),
        is_word("udp"@),
        is_word("tcp"@),
        is_word("Unspecified"@),
        is_word("tcptype"@),
        is_word("raddr"@),
        is_word("rport"@),
        is_word("active"@),
        is_word("passive"@),
        is_word("so"@),
        forall|t: CandidateType|
            t != CandidateType::Unspecified ==> CandidateType::of_name(#[trigger] t.name())
                == Some(t),
        forall|t: TcpType| TcpType::of_name(#[trigger] t.name()) == t,
        "tcptype"@ != "raddr"@,
        "tcptype"@ != "rport"@,
        "raddr"@ != "rport"@,
{
    reveal_strlit("typ");
    reveal_strlit("host");
    reveal_strlit("srflx");
    reveal_strlit("prflx");
    reveal_strlit("relay");
    reveal_strlit("udp");
    reveal_strlit("tcp");
    reveal_strlit("Unspecified");
    reveal_strlit("tcptype");
    reveal_strlit("raddr");
    reveal_strlit("rport");
    reveal_strlit("active");
    reveal_strlit("passive");
    reveal_strlit("so");
    reveal_strlit("unspecified");
    assert("srflx"@[0] != "prflx"@[0]);
    assert("srflx"@[0] != "relay"@[0]);
    assert("prflx"@[0] != "relay"@[0]);
    assert("raddr"@[1] != "rport"@[1]);
    assert forall|t: CandidateType| t != CandidateType::Unspecified implies CandidateType::of_name(
        #[trigger] t.name(),
    ) == Some(t) by {
        match t {
            CandidateType::Host => {},
            CandidateType::ServerReflexive => {},
            CandidateType::PeerReflexive => {},
            CandidateType::Relay => {},
            CandidateType::Unspecified => {},
        }
    }
    assert forall|t: TcpType| TcpType::of_name(#[trigger] t.name()) == t by {
        assert("active"@[0] != "unspecified"@[0]);
        match t {
            TcpType::Active => {},
            TcpType::Passive => {},
            TcpType::SimultaneousOpen => {},
            TcpType::Unspecified => {},
        }
    }
}

/// Every word of a candidate's line is a word, where the candidate can be
/// told.
proof fn lemma_marshal_words_are_words(c: CandidateBase)
    requires
        can_be_told(c),
    ensures
        forall|i: int|
            0 <= i < c.marshal_words().len() ==> is_word(#[trigger] c.marshal_words()[i]),
        c.marshal_words().len() == 8 + (if c.tcp_type != TcpType::Unspecified {
            2int
        } else {
            0int
        }) + (if c.related_address is Some {
            4int
        } else {
            0int
        }),
{
    lemma_fixed_words();
    lemma_decimal_reads_back(c.component as nat);
    lemma_decimal_reads_back(c.priority_value() as nat);
    lemma_decimal_reads_back(c.port as nat);
    if c.foundation_override@.len() == 0 {
        lemma_decimal_reads_back(
            crate::checksum::crc32_iscsi(
                crate::candidate_base::foundation_input(
                    c.candidate_type,
                    c.base_address(),
                    c.network_type,
                ),
            ) as nat,
        );
    }
    match c.related_address {
        Some(related) => {
            lemma_decimal_reads_back(related.port as nat);
        },
        None => {},
    }
    let words = c.marshal_words();
    assert forall|i: int| 0 <= i < words.len() implies is_word(#[trigger] words[i]) by {
        match c.candidate_type {
            CandidateType::Host => {},
            CandidateType::ServerReflexive => {},
            CandidateType::PeerReflexive => {},
            CandidateType::Relay => {},
            CandidateType::Unspecified => {},
        }
        match c.network_type {
            NetworkType::Udp4 => {},
            NetworkType::Udp6 => {},
            NetworkType::Tcp4 => {},
            NetworkType::Tcp6 => {},
            NetworkType::Unspecified => {},
        }
        match c.tcp_type {
            TcpType::Active => {},
            TcpType::Passive => {},
            TcpType::SimultaneousOpen => {},
            TcpType::Unspecified => {},
        }
    }
}

/// Reading the line of a candidate gives back what the candidate is:
/// foundation, component, transport, priority, address, port, type, TCP type
/// and related address.
pub proof fn lemma_marshal_then_parse(c: CandidateBase)
    requires
        can_be_told(c),
    ensures
        parsed_line(c.marshal_text()) == Ok::<LineText, Error>(told(c)),
{
    lemma_marshal_words_are_words(c);
    lemma_fixed_words();
    let words = c.marshal_words();
    lemma_tokens_of_join(words);
    assert(tokens(c.marshal_text()) == words);
    lemma_read_number_of_decimal(c.component as nat, 65535);
    lemma_read_number_of_decimal(c.priority_value() as nat, 0xFFFF_FFFF);
    lemma_read_number_of_decimal(c.port as nat, 65535);
    assert(words[1] == decimal(c.component as nat));
    assert(words[3] == decimal(c.priority_value() as nat));
    assert(words[5] == decimal(c.port as nat));
    assert(words[7] == c.candidate_type.name());
    reveal_with_fuel(read_extensions, 4);
    let has_tcp = c.tcp_type != TcpType::Unspecified;
    match c.related_address {
        Some(related) => {
            lemma_read_number_of_decimal(related.port as nat, 65535);
            if has_tcp {
                assert(words[8] == "tcptype"@);
                assert(words[9] == c.tcp_type.name());
                assert(words[10] == "raddr"@);
                assert(words[11] == related.address@);
                assert(words[12] == "rport"@);
                assert(words[13] == decimal(related.port as nat));
            } else {
                assert(words[8] == "raddr"@);
                assert(words[9] == related.address@);
                assert(words[10] == "rport"@);
                assert(words[11] == decimal(related.port as nat));
            }
        },
        None => {
            if has_tcp {
                assert(words[8] == "tcptype"@);
                assert(words[9] == c.tcp_type.name());
            }
        },
    }
    assert(read_extensions(words, 8, no_extensions()) == Ok::<Extensions, Error>(
        Extensions {
            tcp_type: c.tcp_type,
            related_address: match c.related_address {
                Some(related) => Some(related.address@),
                None => None,
            },
            related_port: match c.related_address {
                Some(related) => related.port,
                None => 0,
            },
        },
    ));
}

/// Marshal and unmarshal are a round trip: the candidate that the line of a
/// candidate describes equals the candidate, where the candidate can be told,
/// its network type is known, and the line's address resolves to an IP
/// address of the candidate's family.
pub proof fn lemma_unmarshal_inverts_marshal(c: CandidateBase, ip: IpAddress, d: CandidateBase)
    requires
        can_be_told(c),
        c.network_type != NetworkType::Unspecified,
        ip.is_v4() == c.network_type.ipv4(),
        parsed_line(c.marshal_text()) matches Ok(line) && describes(line, ip, d),
    ensures
        d.same(&c),
        c.same(&d),
{
    lemma_marshal_then_parse(c);
    reveal_strlit("udp");
    reveal_strlit("tcp");
    let line = told(c);
    assert(describes(line, ip, d));
    match c.network_type {
        NetworkType::Udp4 | NetworkType::Udp6 => {
            assert(crate::network_type::starts_with_ignoring_case("udp"@, "udp"@));
        },
        NetworkType::Tcp4 | NetworkType::Tcp6 => {
            assert(!crate::network_type::starts_with_ignoring_case("tcp"@, "udp"@)) by {
                assert(crate::network_type::ascii_lower("tcp"@[0]) != "udp"@[0]);
            }
            assert(crate::network_type::starts_with_ignoring_case("tcp"@, "tcp"@));
        },
        NetworkType::Unspecified => {},
    }
}

/// The related address that the words after the type give is one of the
/// words, where it was a word before.
proof fn lemma_extensions_keep_words(words: Seq<Seq<char>>, from: int, so_far: Extensions)
    requires
        forall|k: int| 0 <= k < words.len() ==> is_word(#[trigger] words[k]),
        so_far.related_address matches Some(address) ==> is_word(address),
    ensures
        read_extensions(words, from, so_far) matches Ok(x) ==> (x.related_address matches Some(
            address,
        ) ==> is_word(address)),
    decreases words.len() - from,
{
    if 0 <= from && from + 1 < words.len() {
        if words[from] == "tcptype"@ {
            lemma_extensions_keep_words(
                words,
                from + 2,
                Extensions { tcp_type: TcpType::of_name(words[from + 1]), ..so_far },
            );
        } else if words[from] == "raddr"@ {
            lemma_extensions_keep_words(
                words,
                from + 2,
                Extensions { related_address: Some(words[from + 1]), ..so_far },
            );
        } else if words[from] == "rport"@ {
            match read_number(words[from + 1], 65535) {
                Some(port) => {
                    lemma_extensions_keep_words(
                        words,
                        from + 2,
                        Extensions { related_port: port as u16, ..so_far },
                    );
                },
                None => {},
            }
        } else {
            lemma_extensions_keep_words(words, from + 2, so_far);
        }
    }
}

/// A candidate that a line describes can be told again: whatever line is
/// read, the line that is written of its candidate reads back as an equal
/// candidate.
pub proof fn lemma_read_candidates_can_be_told(text: Seq<char>, ip: IpAddress, c: CandidateBase)
    requires
        parsed_line(text) matches Ok(line) && describes(line, ip, c),
    ensures
        can_be_told(c),
{
    let words = tokens(text);
    lemma_tokens_are_words(text);
    lemma_extensions_keep_words(words, 8, no_extensions());
    assert(is_word(words[0]));
    assert(is_word(words[4]));
}


/// A peer-reflexive candidate that was learned through a local candidate can
/// be told, where the local candidate's address is a word.
pub proof fn lemma_learned_candidates_can_be_told(
    c: CandidateBase,
    local: CandidateBase,
    address: SocketAddress,
    own: bool,
)
    requires
        is_peer_reflexive_of(c, local, address, own),
        is_word(local.address@),
    ensures
        can_be_told(c),
{
    address.ip.lemma_text_is_word();
}


} // verus!
