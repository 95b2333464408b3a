//! Heuristic identification of packets by their first bytes.

use vstd::prelude::*;
use vstd::slice::slice_subrange;

verus! {

/// Heuristic identification of a packet.
#[derive(Debug, Copy, Clone, PartialEq, Eq, Structural)]
pub struct PacketIdent {
    /// The type of the packet.
    pub ty: PacketType,
    /// Whether the packet is encapsulated.
    pub encapsulation: Encapsulation,
}

/// Heuristically-determined packet type.
#[derive(Debug, Copy, Clone, PartialEq, Eq, Structural)]
pub enum PacketType {
    /// This is a Tailscale disco packet.
    Disco,
    /// This is a WireGuard packet.
    Wireguard,
    /// This is a STUN binding packet.
    StunBinding,
    /// The type of this packet is unknown.
    Unknown,
}

impl Default for PacketType {
    fn default() -> (ty: Self)
        ensures
            ty == PacketType::Wireguard,
    {
        PacketType::Wireguard
    }
}

/// The encapsulation format of a packet.
#[derive(Debug, Copy, Clone, PartialEq, Eq, Structural)]
pub enum Encapsulation {
    /// Packet is not encapsulated.
    Unencapsulated,
    /// Packet is encapsulated in a valid Geneve header.
    Geneve,
}

impl Default for Encapsulation {
    fn default() -> (encapsulation: Self)
        ensures
            encapsulation == Encapsulation::Unencapsulated,
    {
        Encapsulation::Unencapsulated
    }
}

/// The number that two bytes make up, the more significant one first.
pub open spec fn big_endian(hi: u8, lo: u8) -> u16 {
    (hi * 256 + lo) as u16
}

/// Whether `pkt` begins with a Geneve header that this side might have sent: it is long enough,
/// the bits that are always transmitted as zero are zero, and so is the last byte.
pub open spec fn has_geneve_header(pkt: Seq<u8>) -> bool {
    &&& pkt.len() >= PacketIdent::GENEVE_HEADER_LEN
    &&& big_endian(pkt[0], pkt[1]) & PacketIdent::GENEVE_MASK == 0
    &&& pkt[7] == 0
}

/// What a packet in a Geneve header is encapsulated as.
pub open spec fn geneve_proto(pkt: Seq<u8>) -> u16 {
    big_endian(pkt[2], pkt[3])
}

/// What follows the Geneve header.
pub open spec fn geneve_payload(pkt: Seq<u8>) -> Seq<u8> {
    pkt.skip(PacketIdent::GENEVE_HEADER_LEN as int)
}

/// Whether the type of the packet rests on whether what follows its Geneve header is a disco
/// message.
pub open spec fn asks_about_payload(pkt: Seq<u8>) -> bool {
    has_geneve_header(pkt) && geneve_proto(pkt) == PacketIdent::GENEVE_PROTO_DISCO
}

/// The type of a packet that is encapsulated in a Geneve header, `None` if it is not one.
pub open spec fn geneve_type(pkt: Seq<u8>, payload_is_disco: bool) -> Option<PacketType> {
    if !has_geneve_header(pkt) {
        None
    } else if geneve_proto(pkt) == PacketIdent::GENEVE_PROTO_DISCO {
        if payload_is_disco {
            Some(PacketType::Disco)
        } else {
            Some(PacketType::Unknown)
        }
    } else if geneve_proto(pkt) == PacketIdent::GENEVE_PROTO_WIREGUARD {
        Some(PacketType::Wireguard)
    } else {
        None
    }
}

/// What a packet is identified as, given whether it is a disco message and whether what follows
/// its Geneve header is one.
pub open spec fn identity(pkt: Seq<u8>, is_disco: bool, payload_is_disco: bool) -> PacketIdent {
    match geneve_type(pkt, payload_is_disco) {
        Some(ty) => PacketIdent { encapsulation: Encapsulation::Geneve, ty },
        None => PacketIdent {
            encapsulation: Encapsulation::Unencapsulated,
            ty: if is_disco {
                PacketType::Disco
            } else {
                PacketType::Unknown
            },
        },
    }
}

/// Whether `test` decides `property`: it answers no packet otherwise than `property` does.
pub open spec fn decides<F: Fn(&[u8]) -> bool>(
    test: F,
    property: spec_fn(Seq<u8>) -> bool,
) -> bool {
    forall|pkt: &[u8], answer: bool| #[trigger]
        call_ensures(test, (pkt,), answer) ==> answer == property(pkt@)
}

impl PacketIdent {
    /// The length of a geneve header.
    pub const GENEVE_HEADER_LEN: usize = 8;

    /// Geneve ethertype field indicating this is a Tailscale disco message.
    pub const GENEVE_PROTO_DISCO: u16 = 0x7a11;

    /// Geneve ethertype field indicating this is a WireGuard message.
    pub const GENEVE_PROTO_WIREGUARD: u16 = 0x7a12;

    /// A mask on the first two bytes of the Geneve header that we always transmit as zero.
    pub const GENEVE_MASK: u16 = 0xc03f;

    /// Determine the type and encapsulation of `pkt`, where `is_disco_message` tells disco
    /// messages from others.
    ///
    /// `PacketType::Unknown` is returned if the data makes no positive indication of what it is.
    /// Where every packet must have a type, these cases should be treated as unencapsulated
    /// WireGuard.
    pub fn identify<F: Fn(&[u8]) -> bool>(pkt: &[u8], is_disco_message: &F) -> (ident: PacketIdent)
        requires
            forall|p: &[u8]| #[trigger] call_requires(*is_disco_message, (p,)),
        ensures
            exists|is_disco: bool, payload_is_disco: bool|
                ident == #[trigger] identity(pkt@, is_disco, payload_is_disco),
            forall|disco: spec_fn(Seq<u8>) -> bool| #[trigger]
                decides(*is_disco_message, disco) ==> ident == identity(
                    pkt@,
                    disco(pkt@),
                    disco(geneve_payload(pkt@)),
                ),
            asks_about_payload(pkt@) ==> exists|p: &[u8], answer: bool|
                p@ == geneve_payload(pkt@) && #[trigger] call_ensures(
                    *is_disco_message,
                    (p,),
                    answer,
                ) && ident == identity(pkt@, true, answer),
            geneve_type(pkt@, true) is None ==> exists|p: &[u8], answer: bool|
                p@ == pkt@ && #[trigger] call_ensures(*is_disco_message, (p,), answer) && ident
                    == identity(pkt@, answer, true),
    {
        if let Some(ty) = Self::parse_geneve(pkt, is_disco_message) {
            let ident = PacketIdent { encapsulation: Encapsulation::Geneve, ty };
            proof {
                let payload_is_disco = choose|b: bool| Some(ty) == #[trigger] geneve_type(pkt@, b);
                assert(ident == identity(pkt@, true, payload_is_disco));
            }
            return ident;
        }
        let is_disco = is_disco_message(pkt);
        let ident = PacketIdent {
            encapsulation: Encapsulation::Unencapsulated,
            ty: if is_disco {
                PacketType::Disco
            } else {
                PacketType::Unknown
            },
        };
        proof {
            let payload_is_disco = choose|b: bool| (#[trigger] geneve_type(pkt@, b)) is None;
            assert(ident == identity(pkt@, is_disco, payload_is_disco));
        }
        ident
    }

    /// Attempt to parse `pkt` as a Geneve-encapsulated packet, where `is_disco_message` tells
    /// disco messages from others.
    pub fn parse_geneve<F: Fn(&[u8]) -> bool>(pkt: &[u8], is_disco_message: &F) -> (ty: Option<
        PacketType,
    >)
        requires
            forall|p: &[u8]| #[trigger] call_requires(*is_disco_message, (p,)),
        ensures
            exists|payload_is_disco: bool| ty == #[trigger] geneve_type(pkt@, payload_is_disco),
            forall|disco: spec_fn(Seq<u8>) -> bool| #[trigger]
                decides(*is_disco_message, disco) ==> ty == geneve_type(
                    pkt@,
                    disco(geneve_payload(pkt@)),
                ),
            asks_about_payload(pkt@) ==> exists|p: &[u8], answer: bool|
                p@ == geneve_payload(pkt@) && #[trigger] call_ensures(
                    *is_disco_message,
                    (p,),
                    answer,
                ) && ty == geneve_type(pkt@, answer),
    {
        if pkt.len() < Self::GENEVE_HEADER_LEN || pkt[7] != 0 {
            assert(geneve_type(pkt@, true) is None);
            return None;
        }

        let (version_reserved, rest) = get_u16(pkt);
        if version_reserved & Self::GENEVE_MASK != 0 {
            assert(geneve_type(pkt@, true) is None);
            return None;
        }

        let (ethertype, rest) = get_u16(rest);
        let payload = slice_subrange(rest, 4, rest.len());
        assert(payload@ =~= geneve_payload(pkt@));

        if ethertype == Self::GENEVE_PROTO_DISCO {
            if is_disco_message(payload) {
                assert(Some(PacketType::Disco) == geneve_type(pkt@, true));
                Some(PacketType::Disco)
            } else {
                assert(Some(PacketType::Unknown) == geneve_type(pkt@, false));
                Some(PacketType::Unknown)
            }
        } else if ethertype == Self::GENEVE_PROTO_WIREGUARD {
            assert(Some(PacketType::Wireguard) == geneve_type(pkt@, true));
            Some(PacketType::Wireguard)
        } else {
            assert(geneve_type(pkt@, true) is None);
            None
        }
    }

    /// The offset of the payload in a packet with this identification. `unknown_as_wireguard`
    /// says whether packets of unknown type are taken for unencapsulated WireGuard.
    pub open spec fn offset(self, unknown_as_wireguard: bool) -> nat {
        if self.encapsulation == Encapsulation::Geneve && !(unknown_as_wireguard && self.ty
            == PacketType::Unknown) {
            PacketIdent::GENEVE_HEADER_LEN as nat
        } else {
            0
        }
    }

    /// Return the offset to the payload.
    pub fn payload_offset(&self, unknown_as_wireguard: bool) -> (offset: usize)
        ensures
            offset == self.offset(unknown_as_wireguard),
    {
        if unknown_as_wireguard && matches!(self.ty, PacketType::Unknown) {
            return 0;
        }
        match self.encapsulation {
            Encapsulation::Unencapsulated => 0,
            Encapsulation::Geneve => Self::GENEVE_HEADER_LEN,
        }
    }
}

/// Reads the first two bytes of `pkt` with `bytes::Buf::get_u16`.
///
/// The call returns the number that they make up, the more significant byte first, and moves the
/// slice past them. It panics on fewer than two bytes, so there must be two.
#[verifier::external_body]
fn get_u16(pkt: &[u8]) -> (r: (u16, &[u8]))
    requires
        pkt@.len() >= 2,
    ensures
        r.0 == big_endian(pkt@[0], pkt@[1]),
        r.1@ == pkt@.skip(2),
{
    let mut rest = pkt;
    let value = bytes::Buf::get_u16(&mut rest);
    (value, rest)
}

/// The payload of a packet begins within the packet, whatever it was identified as.
pub proof fn law_payload_is_in_packet(
    pkt: Seq<u8>,
    is_disco: bool,
    payload_is_disco: bool,
    unknown_as_wireguard: bool,
)
    ensures
        identity(pkt, is_disco, payload_is_disco).offset(unknown_as_wireguard) <= pkt.len(),
{
}

/// A packet of unknown type that is taken for WireGuard is taken for unencapsulated WireGuard.
pub proof fn law_unknown_is_unencapsulated_wireguard(ident: PacketIdent)
    requires
        ident.ty == PacketType::Unknown,
    ensures
        ident.offset(true) == 0,
{
}

/// A type other than unknown is returned only on a positive indication of it: for a disco packet,
/// that the packet or what follows its Geneve header is a disco message; for a WireGuard packet,
/// a Geneve header that says so. No packet is identified as a STUN binding packet. A packet is
/// said to be encapsulated exactly if it has a valid Geneve header with a known protocol.
pub proof fn law_types_are_positively_indicated(
    pkt: Seq<u8>,
    is_disco: bool,
    payload_is_disco: bool,
)
    ensures
        ({
            let ident = identity(pkt, is_disco, payload_is_disco);
            &&& ident.ty == PacketType::Disco ==> is_disco || (has_geneve_header(pkt)
                && payload_is_disco)
            &&& ident.ty == PacketType::Wireguard <==> has_geneve_header(pkt) && geneve_proto(pkt)
                == PacketIdent::GENEVE_PROTO_WIREGUARD
            &&& ident.ty != PacketType::StunBinding
            &&& ident.encapsulation == Encapsulation::Geneve <==> has_geneve_header(pkt) && (
            geneve_proto(pkt) == PacketIdent::GENEVE_PROTO_DISCO || geneve_proto(pkt)
                == PacketIdent::GENEVE_PROTO_WIREGUARD)
        }),
{
}

/// Which of the two bytes' bits the mask covers: the two highest of the first and the six lowest of
/// the second.
proof fn lemma_masked(hi: u8, lo: u8)
    ensures
        (big_endian(hi, lo) & PacketIdent::GENEVE_MASK == 0) <==> hi < 64 && lo % 64 == 0,
{
    let value: u16 = big_endian(hi, lo);
    assert(value == hi * 256 + lo);
    assert((value & 0xc03f == 0) <==> hi < 64 && lo % 64 == 0) by (bit_vector)
        requires
            value == hi * 256 + lo,
    ;
}

/// Which bytes make up the two known protocols.
proof fn lemma_protocols(hi: u8, lo: u8)
    ensures
        big_endian(hi, lo) == 0x7a11 <==> hi == 0x7a && lo == 0x11,
        big_endian(hi, lo) == 0x7a12 <==> hi == 0x7a && lo == 0x12,
{
}

/// A packet parses as encapsulated exactly if it has at least eight bytes, the two highest bits of
/// the first, the six lowest of the second and all of the eighth are zero, and the third and fourth
/// give one of the two known protocols. Under the WireGuard protocol it is a WireGuard packet.
/// Under the disco protocol it is a disco packet if the disco test says so of what follows the
/// eight bytes, and else of unknown type.
pub proof fn law_geneve_packets_are_told_by_their_header<F: Fn(&[u8]) -> bool>(
    pkt: &[u8],
    is_disco_message: F,
    ty: Option<PacketType>,
)
    requires
        call_ensures(PacketIdent::parse_geneve::<F>, (pkt, &is_disco_message), ty),
    ensures
        ty is Some <==> {
            &&& pkt@.len() >= 8
            &&& pkt@[0] < 64 && pkt@[1] % 64 == 0
            &&& pkt@[2] == 0x7a && (pkt@[3] == 0x11 || pkt@[3] == 0x12)
            &&& pkt@[7] == 0
        },
        ty matches Some(ty) ==> (pkt@[3] == 0x12 ==> ty == PacketType::Wireguard),
        ty matches Some(ty) ==> (pkt@[3] == 0x11 ==> exists|p: &[u8], answer: bool|
            p@ == pkt@.skip(8) && #[trigger] call_ensures(is_disco_message, (p,), answer) && ty
                == if answer {
                PacketType::Disco
            } else {
                PacketType::Unknown
            }),
{
    if pkt@.len() >= 8 {
        lemma_masked(pkt@[0], pkt@[1]);
        lemma_protocols(pkt@[2], pkt@[3]);
    }
}

/// A packet is identified as encapsulated exactly if it has at least eight bytes, the two highest
/// bits of the first, the six lowest of the second and all of the eighth are zero, and the third
/// and fourth give one of the two known protocols. Under the WireGuard protocol it is a WireGuard
/// packet. Otherwise its type is disco or unknown, as the disco test says: of what follows the
/// eight bytes if the packet is encapsulated, of the whole packet if it is not.
pub proof fn law_packets_are_told_by_header_and_disco_test<F: Fn(&[u8]) -> bool>(
    pkt: &[u8],
    is_disco_message: F,
    ident: PacketIdent,
)
    requires
        call_ensures(PacketIdent::identify::<F>, (pkt, &is_disco_message), ident),
    ensures
        ident.encapsulation == Encapsulation::Geneve <==> {
            &&& pkt@.len() >= 8
            &&& pkt@[0] < 64 && pkt@[1] % 64 == 0
            &&& pkt@[2] == 0x7a && (pkt@[3] == 0x11 || pkt@[3] == 0x12)
            &&& pkt@[7] == 0
        },
        ident.encapsulation == Encapsulation::Geneve && pkt@[3] == 0x12 ==> ident.ty
            == PacketType::Wireguard,
        ident.encapsulation == Encapsulation::Geneve && pkt@[3] == 0x11 ==> exists|
            p: &[u8],
            answer: bool,
        |
            p@ == pkt@.skip(8) && #[trigger] call_ensures(is_disco_message, (p,), answer)
                && ident.ty == if answer {
                PacketType::Disco
            } else {
                PacketType::Unknown
            },
        ident.encapsulation == Encapsulation::Unencapsulated ==> exists|p: &[u8], answer: bool|
            p@ == pkt@ && #[trigger] call_ensures(is_disco_message, (p,), answer) && ident.ty
                == if answer {
                PacketType::Disco
            } else {
                PacketType::Unknown
            },
{
    if pkt@.len() >= 8 {
        lemma_masked(pkt@[0], pkt@[1]);
        lemma_protocols(pkt@[2], pkt@[3]);
    }
}

/// Every packet can be identified with any disco test that takes every packet.
pub proof fn law_every_packet_is_accepted<F: Fn(&[u8]) -> bool>(pkt: &[u8], is_disco_message: F)
    requires
        forall|p: &[u8]| #[trigger] call_requires(is_disco_message, (p,)),
    ensures
        call_requires(PacketIdent::parse_geneve::<F>, (pkt, &is_disco_message)),
        call_requires(PacketIdent::identify::<F>, (pkt, &is_disco_message)),
{
}

/// The payload of an encapsulated packet begins behind eight bytes of header, that of any other
/// packet at its start. Whether packets of unknown type are taken for WireGuard matters for these
/// alone: they are then taken for unencapsulated ones.
pub proof fn law_payload_begins_behind_the_header(
    ident: PacketIdent,
    unknown_as_wireguard: bool,
    offset: usize,
)
    requires
        call_ensures(PacketIdent::payload_offset, (&ident, unknown_as_wireguard), offset),
    ensures
        call_requires(PacketIdent::payload_offset, (&ident, unknown_as_wireguard)),
        ident.encapsulation == Encapsulation::Unencapsulated ==> offset == 0,
        ident.encapsulation == Encapsulation::Geneve && !unknown_as_wireguard ==> offset == 8,
        ident.encapsulation == Encapsulation::Geneve && ident.ty != PacketType::Unknown ==> offset
            == 8,
        unknown_as_wireguard && ident.ty == PacketType::Unknown ==> offset == 0,
{
}

/// Whether packets of unknown type are taken for WireGuard makes no difference to the payload of a
/// packet whose type is known.
pub proof fn law_flag_matters_for_unknown_types_only(
    ident: PacketIdent,
    with: usize,
    without: usize,
)
    requires
        ident.ty != PacketType::Unknown,
        call_ensures(PacketIdent::payload_offset, (&ident, true), with),
        call_ensures(PacketIdent::payload_offset, (&ident, false), without),
    ensures
        with == without,
        ident.offset(true) == ident.offset(false),
{
}

/// A WireGuard payload that is put behind eight bytes of Geneve header is found again at the offset
/// of its packet, whether or not packets of unknown type are taken for WireGuard.
pub proof fn law_wireguard_payload_is_found<F: Fn(&[u8]) -> bool>(
    header: Seq<u8>,
    payload: Seq<u8>,
    pkt: &[u8],
    is_disco_message: F,
    ident: PacketIdent,
    unknown_as_wireguard: bool,
    offset: usize,
)
    requires
        header.len() == 8,
        header[0] < 64 && header[1] % 64 == 0,
        header[2] == 0x7a && header[3] == 0x12,
        header[7] == 0,
        pkt@ == header + payload,
        call_ensures(PacketIdent::identify::<F>, (pkt, &is_disco_message), ident),
        call_ensures(PacketIdent::payload_offset, (&ident, unknown_as_wireguard), offset),
    ensures
        ident.ty == PacketType::Wireguard,
        pkt@.skip(offset as int) == payload,
{
    assert(pkt@[0] == header[0] && pkt@[1] == header[1] && pkt@[2] == header[2]);
    assert(pkt@[3] == header[3] && pkt@[7] == header[7]);
    law_packets_are_told_by_header_and_disco_test(pkt, is_disco_message, ident);
    law_payload_begins_behind_the_header(ident, unknown_as_wireguard, offset);
    assert(pkt@.skip(8) =~= payload);
}

/// The default type is WireGuard and the default is not to be encapsulated.
pub proof fn law_defaults(ty: PacketType, encapsulation: Encapsulation)
    requires
        call_ensures(<PacketType as Default>::default, (), ty),
        call_ensures(<Encapsulation as Default>::default, (), encapsulation),
    ensures
        ty == PacketType::Wireguard,
        encapsulation == Encapsulation::Unencapsulated,
{
}

/// A payload that is put behind a Geneve header with a known protocol, the zero bits zero, is
/// identified as encapsulated, and found again at the offset of its payload.
pub proof fn law_encapsulated_payload_is_found(
    header: Seq<u8>,
    payload: Seq<u8>,
    is_disco: bool,
    payload_is_disco: bool,
)
    requires
        header.len() == PacketIdent::GENEVE_HEADER_LEN,
        has_geneve_header(header),
        geneve_proto(header) == PacketIdent::GENEVE_PROTO_DISCO || geneve_proto(header)
            == PacketIdent::GENEVE_PROTO_WIREGUARD,
    ensures
        ({
            let pkt = header + payload;
            let ident = identity(pkt, is_disco, payload_is_disco);
            &&& ident.encapsulation == Encapsulation::Geneve
            &&& ident.offset(false) == header.len()
            &&& pkt.skip(ident.offset(false) as int) == payload
            &&& geneve_proto(header) == PacketIdent::GENEVE_PROTO_WIREGUARD <==> ident.ty
                == PacketType::Wireguard
            &&& geneve_proto(header) == PacketIdent::GENEVE_PROTO_DISCO ==> (payload_is_disco
                <==> ident.ty == PacketType::Disco)
        }),
{
    let pkt = header + payload;
    assert(pkt.skip(header.len() as int) =~= payload);
}

} // verus!
