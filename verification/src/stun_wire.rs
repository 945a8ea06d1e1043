//! STUN on the wire: telling STUN datagrams from application data, decoding
//! them, checking their integrity, and reading the attributes that
//! connectivity checks carry.

use crate::network_type::{IpAddress, SocketAddress};
use stun::fingerprint::FINGERPRINT;
use stun::integrity::MessageIntegrity;
use stun::message::Message;
use vstd::prelude::*;
use vstd::slice::slice_subrange;

verus! {

/// The length of a STUN header.
pub const MESSAGE_HEADER_SIZE: usize = 20;

pub const ATTR_USERNAME: u16 = 0x0006;

pub const ATTR_ERROR_CODE: u16 = 0x0009;

pub const ATTR_XORMAPPED_ADDRESS: u16 = 0x0020;

pub const ATTR_PRIORITY: u16 = 0x0024;

pub const ATTR_USE_CANDIDATE: u16 = 0x0025;

pub const ATTR_ICE_CONTROLLED: u16 = 0x8029;

pub const ATTR_ICE_CONTROLLING: u16 = 0x802A;

/// The error code of a role conflict.
pub const CODE_ROLE_CONFLICT: u16 = 487;

// ---------------------------------------------------------------------------
// Numbers in network byte order
// ---------------------------------------------------------------------------

/// The number that a row of bytes writes, most significant byte first.
pub open spec fn be_value(s: Seq<u8>) -> nat
    decreases s.len(),
{
    if s.len() == 0 {
        0
    } else {
        be_value(s.drop_last()) * 256 + s.last() as nat
    }
}

/// 256 to the power of `n`.
pub open spec fn pow256(n: nat) -> nat
    decreases n,
{
    if n == 0 {
        1
    } else {
        256 * pow256((n - 1) as nat)
    }
}

/// A row of `n` bytes writes a number below 256 to the power of `n`.
pub proof fn lemma_be_value_bound(s: Seq<u8>)
    ensures
        be_value(s) < pow256(s.len()),
    decreases s.len(),
{
    if s.len() > 0 {
        lemma_be_value_bound(s.drop_last());
    }
}

proof fn lemma_pow256_grows(a: nat, b: nat)
    requires
        a <= b,
    ensures
        pow256(a) <= pow256(b),
        pow256(a) > 0,
    decreases b,
{
    if a < b {
        lemma_pow256_grows(a, (b - 1) as nat);
    } else if a > 0 {
        lemma_pow256_grows((a - 1) as nat, (a - 1) as nat);
    }
}

proof fn lemma_pow256_16()
    ensures
        pow256(16) == 0x1_0000_0000_0000_0000_0000_0000_0000_0000,
{
    reveal_with_fuel(pow256, 17);
}

/// Reads the number that at most 16 bytes write, most significant first.
pub fn be_number(bytes: &[u8]) -> (n: u128)
    requires
        bytes@.len() <= 16,
    ensures
        n == be_value(bytes@),
{
    let mut acc: u128 = 0;
    let mut i: usize = 0;
    while i < bytes.len()
        invariant
            i <= bytes@.len() <= 16,
            acc == be_value(bytes@.take(i as int)),
        decreases bytes.len() - i,
    {
        proof {
            lemma_be_value_bound(bytes@.take(i as int));
            lemma_pow256_grows(i as nat + 1, 16);
            lemma_pow256_16();
            assert(bytes@.take(i + 1).drop_last() =~= bytes@.take(i as int));
        }
        acc = acc * 256 + bytes[i] as u128;
        i = i + 1;
    }
    assert(bytes@.take(i as int) =~= bytes@);
    acc
}

// ---------------------------------------------------------------------------
// Telling STUN from application data
// ---------------------------------------------------------------------------

/// True when the bytes are long enough for a STUN header and hold the magic
/// cookie, 0x2112A442, where a header has it.
pub open spec fn has_magic_cookie(b: Seq<u8>) -> bool {
    &&& b.len() >= 20
    &&& b[4] == 0x21
    &&& b[5] == 0x12
    &&& b[6] == 0xA4
    &&& b[7] == 0x42
}

/// `stun::message::is_message`: true exactly when the bytes are at least a
/// header long and bytes 4 to 7 are the magic cookie in network byte order.
pub assume_specification[ stun::message::is_message ](b: &[u8]) -> (r: bool)
    ensures
        r == has_magic_cookie(b@),
;

/// The length that a STUN header declares for what follows it.
pub open spec fn declared_length(b: Seq<u8>) -> nat {
    b[2] as nat * 256 + b[3] as nat
}

/// A STUN datagram: the first two bits are zero, the magic cookie is in its
/// place, and the datagram holds at least the header and the length that the
/// header declares.
pub open spec fn is_stun_datagram(b: Seq<u8>) -> bool {
    &&& has_magic_cookie(b)
    &&& b[0] < 0x40
    &&& 20 + declared_length(b) <= b.len()
}

/// Tells whether a datagram is a STUN message rather than application data.
pub fn is_stun(b: &[u8]) -> (r: bool)
    ensures
        r == is_stun_datagram(b@),
{
    if !stun::message::is_message(b) {
        return false;
    }
    let declared: usize = b[2] as usize * 256 + b[3] as usize;
    b[0] < 0x40 && MESSAGE_HEADER_SIZE + declared <= b.len()
}

// ---------------------------------------------------------------------------
// Decoding
// ---------------------------------------------------------------------------

/// One attribute of a STUN message: its type and its value, without padding.
#[derive(Clone, Debug)]
pub struct StunAttribute {
    pub typ: u16,
    pub value: Vec<u8>,
}

/// The attributes as plain values: each a type and a row of bytes.
pub open spec fn attributes_view(attributes: Seq<StunAttribute>) -> Seq<(u16, Seq<u8>)> {
    attributes.map_values(|a: StunAttribute| (a.typ, a.value@))
}

/// The attributes that `Message::decode` of the crate `stun` finds in a
/// datagram, in order, or `None` where it fails.
pub uninterp spec fn stun_attributes(raw: Seq<u8>) -> Option<Seq<(u16, Seq<u8>)>>;

/// Whether `MessageIntegrity::check` of the crate `stun`, with the given key,
/// accepts a datagram that decodes.
pub uninterp spec fn stun_integrity_holds(raw: Seq<u8>, key: Seq<u8>) -> bool;

/// Whether `FingerprintAttr::check` of the crate `stun` accepts a datagram
/// that decodes.
pub uninterp spec fn stun_fingerprint_holds(raw: Seq<u8>) -> bool;

/// `Message::decode` of the crate `stun`, on a message that holds a copy of
/// the datagram: the attributes that it finds, each with its type and value,
/// or `None` where it returns an error. What it finds depends on the bytes
/// alone; it is named here, not stated.
#[verifier::external_body]
pub(crate) fn decode_attributes(raw: &[u8]) -> (r: Option<Vec<StunAttribute>>)
    ensures
        r is Some == stun_attributes(raw@) is Some,
        r matches Some(found) ==> stun_attributes(raw@) == Some(attributes_view(found@)),
{
    let mut m = Message { raw: raw.to_vec(), ..Message::default() };
    match m.decode() {
        Ok(()) => Some(
            m.attributes.0.iter().map(
                |a| StunAttribute { typ: a.typ.0, value: a.value.clone() },
            ).collect(),
        ),
        Err(_) => None,
    }
}

/// `MessageIntegrity::check` of the crate `stun`, with the key as its
/// short-term credential, on the decoded datagram: true where it returns
/// `Ok`. It compares the MESSAGE-INTEGRITY attribute with the HMAC-SHA1 of
/// the message before it; the verdict depends on datagram and key alone.
#[verifier::external_body]
pub(crate) fn integrity_holds(raw: &[u8], key: &[u8]) -> (ok: bool)
    requires
        stun_attributes(raw@) is Some,
    ensures
        ok == stun_integrity_holds(raw@, key@),
{
    let mut m = Message { raw: raw.to_vec(), ..Message::default() };
    m.decode().is_ok() && MessageIntegrity(key.to_vec()).check(&mut m).is_ok()
}

/// `FingerprintAttr::check` of the crate `stun` on the decoded datagram: true
/// where it returns `Ok`. It compares the FINGERPRINT attribute with the
/// checksum of the message before it; the verdict depends on the datagram
/// alone.
#[verifier::external_body]
pub(crate) fn fingerprint_holds(raw: &[u8]) -> (ok: bool)
    requires
        stun_attributes(raw@) is Some,
    ensures
        ok == stun_fingerprint_holds(raw@),
{
    let mut m = Message { raw: raw.to_vec(), ..Message::default() };
    m.decode().is_ok() && FINGERPRINT.check(&m).is_ok()
}

/// The class of a STUN message.
#[derive(Clone, Copy, Debug, PartialEq, Eq, Structural)]
pub enum StunClass {
    Request,
    Indication,
    SuccessResponse,
    ErrorResponse,
}

/// The class of a Binding message, read from the first two bytes of its
/// header; `None` for a message of another method.
pub open spec fn binding_class_of(raw: Seq<u8>) -> Option<StunClass> {
    if raw[0] == 0x00 && raw[1] == 0x01 {
        Some(StunClass::Request)
    } else if raw[0] == 0x00 && raw[1] == 0x11 {
        Some(StunClass::Indication)
    } else if raw[0] == 0x01 && raw[1] == 0x01 {
        Some(StunClass::SuccessResponse)
    } else if raw[0] == 0x01 && raw[1] == 0x11 {
        Some(StunClass::ErrorResponse)
    } else {
        None
    }
}

/// The transaction identifier of a STUN message: bytes 8 to 19 of its header,
/// as one number.
pub open spec fn transaction_id_of(raw: Seq<u8>) -> nat {
    be_value(raw.subrange(8, 20))
}

/// A decoded STUN message: the datagram and the attributes found in it.
#[derive(Clone, Debug)]
pub struct StunMessage {
    pub raw: Vec<u8>,
    pub attributes: Vec<StunAttribute>,
}

impl StunMessage {
    /// A message is well formed when its datagram is a STUN datagram and its
    /// attributes are those that decoding finds in the datagram.
    pub open spec fn wf(&self) -> bool {
        &&& is_stun_datagram(self.raw@)
        &&& stun_attributes(self.raw@) == Some(attributes_view(self.attributes@))
    }

    /// The attributes as plain values.
    pub open spec fn attrs(&self) -> Seq<(u16, Seq<u8>)> {
        attributes_view(self.attributes@)
    }

    /// Decodes a datagram. The result is a message exactly when the datagram
    /// is a STUN datagram and decoding finds its attributes.
    pub fn decode(raw: &[u8]) -> (r: Option<StunMessage>)
        ensures
            r is Some == (is_stun_datagram(raw@) && stun_attributes(raw@) is Some),
            r matches Some(m) ==> m.wf() && m.raw@ == raw@,
    {
        if !is_stun(raw) {
            return None;
        }
        match decode_attributes(raw) {
            Some(attributes) => {
                let copy = copy_bytes(raw);
                Some(StunMessage { raw: copy, attributes })
            },
            None => None,
        }
    }

    /// Returns the class of a Binding message, `None` for another method.
    pub fn binding_class(&self) -> (c: Option<StunClass>)
        requires
            self.wf(),
        ensures
            c == binding_class_of(self.raw@),
    {
        let a = self.raw[0];
        let b = self.raw[1];
        if a == 0x00 && b == 0x01 {
            Some(StunClass::Request)
        } else if a == 0x00 && b == 0x11 {
            Some(StunClass::Indication)
        } else if a == 0x01 && b == 0x01 {
            Some(StunClass::SuccessResponse)
        } else if a == 0x01 && b == 0x11 {
            Some(StunClass::ErrorResponse)
        } else {
            None
        }
    }

    /// Returns the transaction identifier.
    pub fn transaction_id(&self) -> (id: u128)
        requires
            self.wf(),
        ensures
            id == transaction_id_of(self.raw@),
    {
        let id_bytes = slice_subrange(self.raw.as_slice(), 8, 20);
        be_number(id_bytes)
    }

    /// Tells whether the MESSAGE-INTEGRITY attribute matches the key.
    pub fn integrity_ok(&self, key: &[u8]) -> (ok: bool)
        requires
            self.wf(),
        ensures
            ok == stun_integrity_holds(self.raw@, key@),
    {
        integrity_holds(self.raw.as_slice(), key)
    }

    /// Tells whether the FINGERPRINT attribute matches the message.
    pub fn fingerprint_ok(&self) -> (ok: bool)
        requires
            self.wf(),
        ensures
            ok == stun_fingerprint_holds(self.raw@),
    {
        fingerprint_holds(self.raw.as_slice())
    }

    /// Finds the first attribute of a type.
    pub fn find(&self, typ: u16) -> (r: Option<usize>)
        ensures
            match r {
                Some(i) => i < self.attributes@.len() && first_value(self.attrs(), typ) == Some(
                    self.attributes@[i as int].value@,
                ),
                None => first_value(self.attrs(), typ) is None,
            },
    {
        let mut i: usize = 0;
        assert(self.attrs().skip(0) =~= self.attrs());
        while i < self.attributes.len()
            invariant
                i <= self.attributes@.len(),
                first_value(self.attrs(), typ) == first_value(self.attrs().skip(i as int), typ),
            decreases self.attributes.len() - i,
        {
            if self.attributes[i].typ == typ {
                return Some(i);
            }
            assert(self.attrs().skip(i as int).drop_first() =~= self.attrs().skip(i + 1));
            i = i + 1;
        }
        None
    }

    /// Reads the PRIORITY attribute: four bytes, as one number.
    pub fn priority(&self) -> (p: Option<u32>)
        ensures
            p == priority_in(self.attrs()),
    {
        match self.find(ATTR_PRIORITY) {
            Some(i) => {
                let v = &self.attributes[i].value;
                if v.len() == 4 {
                    proof {
                        lemma_be_value_bound(v@);
                        reveal_with_fuel(pow256, 5);
                    }
                    Some(be_number(v.as_slice()) as u32)
                } else {
                    None
                }
            },
            None => None,
        }
    }

    /// Reads the tie-breaker of an ICE-CONTROLLING (`controlling`) or
    /// ICE-CONTROLLED attribute: eight bytes, as one number.
    pub fn tie_breaker(&self, controlling: bool) -> (t: Option<u64>)
        ensures
            t == tie_breaker_in(self.attrs(), controlling),
    {
        let typ = if controlling {
            ATTR_ICE_CONTROLLING
        } else {
            ATTR_ICE_CONTROLLED
        };
        match self.find(typ) {
            Some(i) => {
                let v = &self.attributes[i].value;
                if v.len() == 8 {
                    proof {
                        lemma_be_value_bound(v@);
                        reveal_with_fuel(pow256, 9);
                    }
                    Some(be_number(v.as_slice()) as u64)
                } else {
                    None
                }
            },
            None => None,
        }
    }

    /// Tells whether the message carries USE-CANDIDATE.
    pub fn use_candidate(&self) -> (b: bool)
        ensures
            b == first_value(self.attrs(), ATTR_USE_CANDIDATE) is Some,
    {
        self.find(ATTR_USE_CANDIDATE).is_some()
    }

    /// Reads the code of the ERROR-CODE attribute: 100 times its class byte
    /// plus its number byte.
    pub fn error_code(&self) -> (c: Option<u16>)
        ensures
            c == error_code_in(self.attrs()),
    {
        match self.find(ATTR_ERROR_CODE) {
            Some(i) => {
                let v = &self.attributes[i].value;
                if v.len() >= 4 {
                    Some(v[2] as u16 * 100 + v[3] as u16)
                } else {
                    None
                }
            },
            None => None,
        }
    }

    /// Tells whether the USERNAME attribute holds exactly the expected bytes.
    pub fn username_is(&self, expected: &[u8]) -> (b: bool)
        ensures
            b == (first_value(self.attrs(), ATTR_USERNAME) == Some(expected@)),
    {
        match self.find(ATTR_USERNAME) {
            Some(i) => same_bytes(self.attributes[i].value.as_slice(), expected),
            None => false,
        }
    }

    /// Reads the XOR-MAPPED-ADDRESS attribute.
    pub fn xor_mapped_address(&self) -> (a: Option<SocketAddress>)
        requires
            self.wf(),
        ensures
            a == mapped_address_in(self.attrs(), self.raw@),
    {
        match self.find(ATTR_XORMAPPED_ADDRESS) {
            Some(i) => {
                let v = &self.attributes[i].value;
                if v.len() < 4 || v[0] != 0 {
                    return None;
                }
                let port: u16 = (v[2] ^ 0x21) as u16 * 256 + (v[3] ^ 0x12) as u16;
                if v[1] == 1 && v.len() == 8 {
                    let key = slice_subrange(self.raw.as_slice(), 4, 8);
                    let plain = xor_bytes(slice_subrange(v.as_slice(), 4, 8), key);
                    proof {
                        lemma_be_value_bound(plain@);
                        reveal_with_fuel(pow256, 5);
                    }
                    let ip = be_number(plain.as_slice()) as u32;
                    Some(SocketAddress { ip: IpAddress::V4(ip), port })
                } else if v[1] == 2 && v.len() == 20 {
                    let key = slice_subrange(self.raw.as_slice(), 4, 20);
                    let plain = xor_bytes(slice_subrange(v.as_slice(), 4, 20), key);
                    proof {
                        lemma_be_value_bound(plain@);
                        lemma_pow256_16();
                    }
                    let ip = be_number(plain.as_slice());
                    Some(SocketAddress { ip: IpAddress::V6(ip), port })
                } else {
                    None
                }
            },
            None => None,
        }
    }
}

// ---------------------------------------------------------------------------
// What the attributes say
// ---------------------------------------------------------------------------

/// The value of the first attribute of a type, if there is one.
pub open spec fn first_value(attrs: Seq<(u16, Seq<u8>)>, typ: u16) -> Option<Seq<u8>>
    decreases attrs.len(),
{
    if attrs.len() == 0 {
        None
    } else if attrs[0].0 == typ {
        Some(attrs[0].1)
    } else {
        first_value(attrs.drop_first(), typ)
    }
}

/// The priority that the attributes state: the PRIORITY attribute's four
/// bytes as one number.
pub open spec fn priority_in(attrs: Seq<(u16, Seq<u8>)>) -> Option<u32> {
    match first_value(attrs, ATTR_PRIORITY) {
        Some(v) => if v.len() == 4 {
            Some(be_value(v) as u32)
        } else {
            None
        },
        None => None,
    }
}

/// The tie-breaker that the attributes state for the role that the sender
/// claims: the eight bytes of ICE-CONTROLLING (`controlling`) or
/// ICE-CONTROLLED as one number.
pub open spec fn tie_breaker_in(attrs: Seq<(u16, Seq<u8>)>, controlling: bool) -> Option<u64> {
    match first_value(
        attrs,
        if controlling {
            ATTR_ICE_CONTROLLING
        } else {
            ATTR_ICE_CONTROLLED
        },
    ) {
        Some(v) => if v.len() == 8 {
            Some(be_value(v) as u64)
        } else {
            None
        },
        None => None,
    }
}

/// The error code that the attributes state.
pub open spec fn error_code_in(attrs: Seq<(u16, Seq<u8>)>) -> Option<u16> {
    match first_value(attrs, ATTR_ERROR_CODE) {
        Some(v) => if v.len() >= 4 {
            Some((v[2] as nat * 100 + v[3] as nat) as u16)
        } else {
            None
        },
        None => None,
    }
}

/// Two rows of bytes combined byte by byte with exclusive or, as far as the
/// shorter one goes.
pub open spec fn xor_seq(a: Seq<u8>, b: Seq<u8>) -> Seq<u8> {
    Seq::new(
        if a.len() <= b.len() {
            a.len()
        } else {
            b.len()
        },
        |i: int| a[i] ^ b[i],
    )
}

/// The address that the XOR-MAPPED-ADDRESS attribute states: the port
/// combined with the first half of the magic cookie, and the address with
/// the cookie (IPv4, family 1, four bytes) or with the cookie and the
/// transaction identifier (IPv6, family 2, sixteen bytes). Any other shape of
/// the attribute states no address.
pub open spec fn mapped_address_in(attrs: Seq<(u16, Seq<u8>)>, raw: Seq<u8>) -> Option<
    SocketAddress,
> {
    match first_value(attrs, ATTR_XORMAPPED_ADDRESS) {
        Some(v) => {
            if v.len() < 4 || v[0] != 0 {
                None
            } else {
                let port = ((v[2] ^ 0x21) as nat * 256 + (v[3] ^ 0x12) as nat) as u16;
                if v[1] == 1 && v.len() == 8 {
                    Some(
                        SocketAddress {
                            ip: IpAddress::V4(
                                be_value(xor_seq(v.subrange(4, 8), raw.subrange(4, 8))) as u32,
                            ),
                            port,
                        },
                    )
                } else if v[1] == 2 && v.len() == 20 {
                    Some(
                        SocketAddress {
                            ip: IpAddress::V6(
                                be_value(xor_seq(v.subrange(4, 20), raw.subrange(4, 20))) as u128,
                            ),
                            port,
                        },
                    )
                } else {
                    None
                }
            }
        },
        None => None,
    }
}

// ---------------------------------------------------------------------------
// Bytes
// ---------------------------------------------------------------------------

/// A copy of a row of bytes.
pub fn copy_bytes(b: &[u8]) -> (v: Vec<u8>)
    ensures
        v@ == b@,
{
    let mut v: Vec<u8> = Vec::new();
    let mut i: usize = 0;
    while i < b.len()
        invariant
            i <= b@.len(),
            v@ == b@.take(i as int),
        decreases b.len() - i,
    {
        v.push(b[i]);
        i = i + 1;
    }
    assert(b@.take(i as int) =~= b@);
    v
}

/// Tells whether two rows of bytes are the same.
pub fn same_bytes(a: &[u8], b: &[u8]) -> (same: bool)
    ensures
        same == (a@ == b@),
{
    if a.len() != b.len() {
        return false;
    }
    let mut i: usize = 0;
    while i < a.len()
        invariant
            i <= a@.len(),
            a@.len() == b@.len(),
            a@.take(i as int) == b@.take(i as int),
        decreases a.len() - i,
    {
        if a[i] != b[i] {
            return false;
        }
        assert(a@.take(i + 1) =~= a@.take(i as int).push(a@[i as int]));
        assert(b@.take(i + 1) =~= b@.take(i as int).push(b@[i as int]));
        i = i + 1;
    }
    assert(a@.take(i as int) =~= a@);
    assert(b@.take(i as int) =~= b@);
    true
}

/// Combines two rows of bytes with exclusive or.
pub fn xor_bytes(a: &[u8], b: &[u8]) -> (v: Vec<u8>)
    ensures
        v@ == xor_seq(a@, b@),
{
    let n = if a.len() <= b.len() {
        a.len()
    } else {
        b.len()
    };
    let mut v: Vec<u8> = Vec::new();
    let mut i: usize = 0;
    while i < n
        invariant
            i <= n,
            n <= a@.len(),
            n <= b@.len(),
            v@.len() == i,
            forall|j: int| 0 <= j < i ==> v@[j] == a@[j] ^ b@[j],
        decreases n - i,
    {
        v.push(a[i] ^ b[i]);
        i = i + 1;
    }
    assert(v@ =~= xor_seq(a@, b@));
    v
}

} // verus!
