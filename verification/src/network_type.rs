//! Transports and address families, and the addresses candidates resolve to.

use crate::error::Error;
use crate::text::{
    chars_of, decimal, hexadecimal, is_word, lemma_decimal_reads_back, lemma_hexadecimal_is_word,
    lemma_words_concat, render_decimal, render_hex,
};
use vstd::string::*;
use vstd::prelude::*;

verus! {

/// An IP address as the number it writes: 32 bits for version 4, 128 bits for
/// version 6.
#[derive(Clone, Copy, Debug, PartialEq, Eq, Structural)]
pub enum IpAddress {
    V4(u32),
    V6(u128),
}

impl IpAddress {
    /// True for a version 4 address.
    pub open spec fn is_v4(self) -> bool {
        self is V4
    }

    /// The address as text: the four bytes of a version 4 address in decimal
    /// with dots between them; the eight groups of a version 6 address in
    /// hexadecimal with colons between them, every group written out.
    pub open spec fn text(self) -> Seq<char> {
        match self {
            IpAddress::V4(a) => decimal(a as nat / 16777216) + "."@ + decimal(
                (a as nat / 65536) % 256,
            ) + "."@ + decimal((a as nat / 256) % 256) + "."@ + decimal(a as nat % 256),
            IpAddress::V6(a) => Self::groups_text(a, 8),
        }
    }

    /// The group of 16 bits at place `k` of a version 6 address, place 0
    /// being the first.
    pub open spec fn group(a: u128, k: nat) -> nat {
        (a as nat / Self::group_weight((7 - k) as nat)) % 65536
    }

    /// 65536 to the power of `k`.
    pub open spec fn group_weight(k: nat) -> nat
        decreases k,
    {
        if k == 0 {
            1
        } else {
            65536 * Self::group_weight((k - 1) as nat)
        }
    }

    /// The first `n` groups of a version 6 address as text.
    pub open spec fn groups_text(a: u128, n: nat) -> Seq<char>
        decreases n,
    {
        if n == 0 {
            Seq::empty()
        } else if n == 1 {
            hexadecimal(Self::group(a, 0))
        } else {
            Self::groups_text(a, (n - 1) as nat) + ":"@ + hexadecimal(Self::group(a, (n - 1) as nat))
        }
    }

    /// Renders the address as text.
    pub fn to_string(&self) -> (s: String)
        ensures
            s@ == self.text(),
    {
        match self {
            IpAddress::V4(a) => {
                let mut s = render_decimal((*a / 16777216) as u64);
                s.append(".");
                s.append(render_decimal(((*a / 65536) % 256) as u64).as_str());
                s.append(".");
                s.append(render_decimal(((*a / 256) % 256) as u64).as_str());
                s.append(".");
                s.append(render_decimal((*a % 256) as u64).as_str());
                s
            },
            IpAddress::V6(a) => {
                let mut s = String::new();
                let mut rest: u128 = *a;
                let mut groups: Vec<u16> = Vec::new();
                let mut k: usize = 0;
                assert(Self::group_weight(0) == 1);
                while k < 8
                    invariant
                        k <= 8,
                        groups@.len() == k,
                        rest == *a as nat / Self::group_weight(k as nat),
                        forall|j: int|
                            0 <= j < k ==> groups@[j] as nat == Self::group(*a, (7 - j) as nat),
                    decreases 8 - k,
                {
                    proof {
                        assert(Self::group_weight(k as nat + 1) == 65536 * Self::group_weight(
                            k as nat,
                        ));
                        Self::lemma_group_weight_positive(k as nat);
                        vstd::arithmetic::div_mod::lemma_div_denominator(
                            *a as int,
                            Self::group_weight(k as nat) as int,
                            65536,
                        );
                        vstd::arithmetic::mul::lemma_mul_is_commutative(
                            Self::group_weight(k as nat) as int,
                            65536,
                        );
                    }
                    groups.push((rest % 65536) as u16);
                    rest = rest / 65536;
                    k = k + 1;
                }
                let mut n: usize = 0;
                while n < 8
                    invariant
                        n <= 8,
                        groups@.len() == 8,
                        forall|j: int|
                            0 <= j < 8 ==> groups@[j] as nat == Self::group(*a, (7 - j) as nat),
                        s@ == Self::groups_text(*a, n as nat),
                    decreases 8 - n,
                {
                    if n > 0 {
                        s.append(":");
                    }
                    s.append(render_hex(groups[7 - n]).as_str());
                    proof {
                        assert(s@ =~= Self::groups_text(*a, n as nat + 1));
                    }
                    n = n + 1;
                }
                s
            },
        }
    }

    /// The first groups of a version 6 address, as text, are a word.
    pub proof fn lemma_groups_text_is_word(a: u128, n: nat)
        requires
            n >= 1,
        ensures
            is_word(Self::groups_text(a, n)),
        decreases n,
    {
        if n == 1 {
            lemma_hexadecimal_is_word(Self::group(a, 0));
        } else {
            Self::lemma_groups_text_is_word(a, (n - 1) as nat);
            lemma_hexadecimal_is_word(Self::group(a, (n - 1) as nat));
            reveal_strlit(":");
            assert(is_word(":"@));
            lemma_words_concat(Self::groups_text(a, (n - 1) as nat), ":"@);
            lemma_words_concat(
                Self::groups_text(a, (n - 1) as nat) + ":"@,
                hexadecimal(Self::group(a, (n - 1) as nat)),
            );
        }
    }

    /// An address as text is a word: it can stand in a candidate line.
    pub proof fn lemma_text_is_word(self)
        ensures
            is_word(self.text()),
    {
        match self {
            IpAddress::V4(a) => {
                let first = decimal(a as nat / 16777216);
                let second = decimal((a as nat / 65536) % 256);
                let third = decimal((a as nat / 256) % 256);
                let fourth = decimal(a as nat % 256);
                lemma_decimal_reads_back(a as nat / 16777216);
                lemma_decimal_reads_back((a as nat / 65536) % 256);
                lemma_decimal_reads_back((a as nat / 256) % 256);
                lemma_decimal_reads_back(a as nat % 256);
                reveal_strlit(".");
                assert(is_word("."@));
                lemma_words_concat(first, "."@);
                lemma_words_concat(first + "."@, second);
                lemma_words_concat(first + "."@ + second, "."@);
                lemma_words_concat(first + "."@ + second + "."@, third);
                lemma_words_concat(first + "."@ + second + "."@ + third, "."@);
                lemma_words_concat(first + "."@ + second + "."@ + third + "."@, fourth);
            },
            IpAddress::V6(a) => {
                Self::lemma_groups_text_is_word(a, 8);
            },
        }
    }

    proof fn lemma_group_weight_positive(k: nat)
        ensures
            Self::group_weight(k) > 0,
        decreases k,
    {
        if k > 0 {
            Self::lemma_group_weight_positive((k - 1) as nat);
        }
    }

    /// Tells whether the address is of version 4.
    pub fn is_ipv4(&self) -> (b: bool)
        ensures
            b == self.is_v4(),
    {
        match self {
            IpAddress::V4(_) => true,
            IpAddress::V6(_) => false,
        }
    }
}

/// An IP address and a port.
#[derive(Clone, Copy, Debug, PartialEq, Eq, Structural)]
pub struct SocketAddress {
    pub ip: IpAddress,
    pub port: u16,
}

impl SocketAddress {
    /// Tells whether two socket addresses are the same.
    pub fn same_as(&self, other: &SocketAddress) -> (b: bool)
        ensures
            b == (*self == *other),
    {
        self.port == other.port && match (self.ip, other.ip) {
            (IpAddress::V4(a), IpAddress::V4(b)) => a == b,
            (IpAddress::V6(a), IpAddress::V6(b)) => a == b,
            _ => false,
        }
    }
}

/// The transport and address family that a candidate uses.
#[derive(Clone, Copy, Debug, PartialEq, Eq, Structural)]
pub enum NetworkType {
    Unspecified,
    /// UDP over IPv4.
    Udp4,
    /// UDP over IPv6.
    Udp6,
    /// TCP over IPv4.
    Tcp4,
    /// TCP over IPv6.
    Tcp6,
}

impl NetworkType {
    /// The full name, transport and family.
    pub open spec fn name(self) -> Seq<char> {
        match self {
            NetworkType::Udp4 => "udp4"@,
            NetworkType::Udp6 => "udp6"@,
            NetworkType::Tcp4 => "tcp4"@,
            NetworkType::Tcp6 => "tcp6"@,
            NetworkType::Unspecified => "unspecified"@,
        }
    }

    /// The transport's name alone, as a candidate line has it.
    pub open spec fn short_name(self) -> Seq<char> {
        match self {
            NetworkType::Udp4 | NetworkType::Udp6 => "udp"@,
            NetworkType::Tcp4 | NetworkType::Tcp6 => "tcp"@,
            NetworkType::Unspecified => "Unspecified"@,
        }
    }

    /// True for the two TCP network types.
    pub open spec fn tcp(self) -> bool {
        self == NetworkType::Tcp4 || self == NetworkType::Tcp6
    }

    /// True for the two UDP network types.
    pub open spec fn udp(self) -> bool {
        self == NetworkType::Udp4 || self == NetworkType::Udp6
    }

    /// True for the two IPv4 network types.
    pub open spec fn ipv4(self) -> bool {
        self == NetworkType::Udp4 || self == NetworkType::Tcp4
    }

    /// True for the two IPv6 network types.
    pub open spec fn ipv6(self) -> bool {
        self == NetworkType::Udp6 || self == NetworkType::Tcp6
    }

    /// The network type that a stored number stands for; numbers outside 1..=4
    /// stand for `Unspecified`.
    pub open spec fn of_number(v: u8) -> NetworkType {
        if v == 1 {
            NetworkType::Udp4
        } else if v == 2 {
            NetworkType::Udp6
        } else if v == 3 {
            NetworkType::Tcp4
        } else if v == 4 {
            NetworkType::Tcp6
        } else {
            NetworkType::Unspecified
        }
    }

    /// The number that a network type is stored as.
    pub open spec fn number(self) -> u8 {
        match self {
            NetworkType::Unspecified => 0,
            NetworkType::Udp4 => 1,
            NetworkType::Udp6 => 2,
            NetworkType::Tcp4 => 3,
            NetworkType::Tcp6 => 4,
        }
    }

    /// The full name as a string slice.
    pub fn as_str(&self) -> (s: &'static str)
        ensures
            s@ == self.name(),
    {
        match self {
            NetworkType::Udp4 => "udp4",
            NetworkType::Udp6 => "udp6",
            NetworkType::Tcp4 => "tcp4",
            NetworkType::Tcp6 => "tcp6",
            NetworkType::Unspecified => "unspecified",
        }
    }

    /// Renders the full name.
    pub fn to_string(&self) -> (s: String)
        ensures
            s@ == self.name(),
    {
        self.as_str().to_owned()
    }

    /// The transport's name alone, as a string slice.
    pub fn network_short_str(&self) -> (s: &'static str)
        ensures
            s@ == self.short_name(),
    {
        match self {
            NetworkType::Udp4 | NetworkType::Udp6 => "udp",
            NetworkType::Tcp4 | NetworkType::Tcp6 => "tcp",
            NetworkType::Unspecified => "Unspecified",
        }
    }

    /// Renders the transport's name alone.
    pub fn network_short(&self) -> (s: String)
        ensures
            s@ == self.short_name(),
    {
        self.network_short_str().to_owned()
    }

    /// Tells whether the transport is UDP.
    pub fn is_udp(&self) -> (b: bool)
        ensures
            b == self.udp(),
    {
        matches!(self, NetworkType::Udp4 | NetworkType::Udp6)
    }

    /// Tells whether the transport is TCP.
    pub fn is_tcp(&self) -> (b: bool)
        ensures
            b == self.tcp(),
    {
        matches!(self, NetworkType::Tcp4 | NetworkType::Tcp6)
    }

    /// Tells whether the transport delivers reliably: TCP does, UDP does not.
    pub fn is_reliable(&self) -> (b: bool)
        ensures
            b == self.tcp(),
    {
        self.is_tcp()
    }

    /// Tells whether the family is IPv4.
    pub fn is_ipv4(&self) -> (b: bool)
        ensures
            b == self.ipv4(),
    {
        matches!(self, NetworkType::Udp4 | NetworkType::Tcp4)
    }

    /// Tells whether the family is IPv6.
    pub fn is_ipv6(&self) -> (b: bool)
        ensures
            b == self.ipv6(),
    {
        matches!(self, NetworkType::Udp6 | NetworkType::Tcp6)
    }

    /// Reads a network type back from the number it is stored as.
    pub fn from_u8(v: u8) -> (t: NetworkType)
        ensures
            t == NetworkType::of_number(v),
    {
        match v {
            1 => NetworkType::Udp4,
            2 => NetworkType::Udp6,
            3 => NetworkType::Tcp4,
            4 => NetworkType::Tcp6,
            _ => NetworkType::Unspecified,
        }
    }

    /// The number that the network type is stored as.
    pub fn to_u8(&self) -> (v: u8)
        ensures
            v == self.number(),
            NetworkType::of_number(v) == *self,
    {
        match self {
            NetworkType::Unspecified => 0,
            NetworkType::Udp4 => 1,
            NetworkType::Udp6 => 2,
            NetworkType::Tcp4 => 3,
            NetworkType::Tcp6 => 4,
        }
    }
}

impl Default for NetworkType {
    fn default() -> (t: NetworkType)
        ensures
            t == NetworkType::Unspecified,
    {
        NetworkType::Unspecified
    }
}

/// A letter of the basic Latin alphabet in lower case; any other character is
/// left as it is.
pub open spec fn ascii_lower(c: char) -> char {
    if 65 <= c as u32 <= 90 {
        ((c as u32 + 32) as u8) as char
    } else {
        c
    }
}

/// True when a text begins with `prefix`, capital and small letters of the
/// basic Latin alphabet taken as equal. `prefix` is in lower case.
pub open spec fn starts_with_ignoring_case(s: Seq<char>, prefix: Seq<char>) -> bool {
    s.len() >= prefix.len() && forall|i: int|
        0 <= i < prefix.len() ==> ascii_lower(#[trigger] s[i]) == prefix[i]
}

/// The network type for a transport name and an address family: a name that
/// begins with `udp` or `tcp`, in any case, with the family of the address.
pub open spec fn network_type_for(network: Seq<char>, v4: bool) -> Option<NetworkType> {
    if starts_with_ignoring_case(network, "udp"@) {
        Some(
            if v4 {
                NetworkType::Udp4
            } else {
                NetworkType::Udp6
            },
        )
    } else if starts_with_ignoring_case(network, "tcp"@) {
        Some(
            if v4 {
                NetworkType::Tcp4
            } else {
                NetworkType::Tcp6
            },
        )
    } else {
        None
    }
}

fn lower(c: char) -> (l: char)
    ensures
        l == ascii_lower(c),
{
    let n: u32 = c as u32;
    if 65 <= n && n <= 90 {
        ((n + 32) as u8) as char
    } else {
        c
    }
}

fn has_prefix_ignoring_case(s: &Vec<char>, prefix: &str) -> (b: bool)
    ensures
        b == starts_with_ignoring_case(s@, prefix@),
{
    let p = chars_of(prefix);
    if s.len() < p.len() {
        return false;
    }
    let mut i: usize = 0;
    while i < p.len()
        invariant
            i <= p.len() <= s.len(),
            p@ == prefix@,
            forall|j: int| 0 <= j < i ==> ascii_lower(#[trigger] s@[j]) == p@[j],
        decreases p.len() - i,
    {
        if lower(s[i]) != p[i] {
            return false;
        }
        i = i + 1;
    }
    true
}

/// Determines the network type from a transport name and an address.
///
/// Fails with `AddressParse` when the name begins with neither `udp` nor
/// `tcp`.
pub fn determine_network_type(network: &str, ip: &IpAddress) -> (r: Result<NetworkType, Error>)
    ensures
        r == match network_type_for(network@, ip.is_v4()) {
            Some(t) => Ok::<NetworkType, Error>(t),
            None => Err::<NetworkType, Error>(Error::AddressParse),
        },
{
    let chars = chars_of(network);
    let v4 = ip.is_ipv4();
    if has_prefix_ignoring_case(&chars, "udp") {
        if v4 {
            Ok(NetworkType::Udp4)
        } else {
            Ok(NetworkType::Udp6)
        }
    } else if has_prefix_ignoring_case(&chars, "tcp") {
        if v4 {
            Ok(NetworkType::Tcp4)
        } else {
            Ok(NetworkType::Tcp6)
        }
    } else {
        Err(Error::AddressParse)
    }
}

/// The socket address of a candidate: the IP address with the port.
pub fn create_addr(_network: NetworkType, ip: IpAddress, port: u16) -> (a: SocketAddress)
    ensures
        a == (SocketAddress { ip, port }),
{
    SocketAddress { ip, port }
}

} // verus!
