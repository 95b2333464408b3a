use ts_runtime::packet_ident::{Encapsulation, PacketIdent, PacketType};

/// Disco messages, for these tests, begin with this byte.
fn is_disco(pkt: &[u8]) -> bool {
    pkt.first() == Some(&0xd5)
}

fn geneve(proto: u16, payload: &[u8]) -> Vec<u8> {
    let mut pkt = vec![0, 0, (proto >> 8) as u8, proto as u8, 1, 2, 3, 0];
    pkt.extend_from_slice(payload);
    pkt
}

#[test]
fn constants() {
    assert_eq!(PacketIdent::GENEVE_HEADER_LEN, 8);
    assert_eq!(PacketIdent::GENEVE_PROTO_DISCO, 0x7a11);
    assert_eq!(PacketIdent::GENEVE_PROTO_WIREGUARD, 0x7a12);
    assert_eq!(PacketIdent::GENEVE_MASK, 0xc03f);
}

#[test]
fn defaults() {
    assert_eq!(PacketType::default(), PacketType::Wireguard);
    assert_eq!(Encapsulation::default(), Encapsulation::Unencapsulated);
}

#[test]
fn geneve_disco() {
    let pkt = geneve(0x7a11, &[0xd5, 9]);
    assert_eq!(PacketIdent::parse_geneve(&pkt, &is_disco), Some(PacketType::Disco));
    let ident = PacketIdent::identify(&pkt, &is_disco);
    assert_eq!(ident, PacketIdent { ty: PacketType::Disco, encapsulation: Encapsulation::Geneve });
    assert_eq!(ident.payload_offset(false), 8);
    assert_eq!(ident.payload_offset(true), 8);
}

#[test]
fn geneve_disco_protocol_with_other_payload_is_unknown() {
    let pkt = geneve(0x7a11, &[1]);
    let ident = PacketIdent::identify(&pkt, &is_disco);
    assert_eq!(
        ident,
        PacketIdent { ty: PacketType::Unknown, encapsulation: Encapsulation::Geneve }
    );
    assert_eq!(ident.payload_offset(false), 8);
    assert_eq!(ident.payload_offset(true), 0);
}

#[test]
fn geneve_wireguard() {
    let pkt = geneve(0x7a12, &[]);
    assert_eq!(PacketIdent::parse_geneve(&pkt, &is_disco), Some(PacketType::Wireguard));
    // the disco test does not matter
    assert_eq!(PacketIdent::parse_geneve(&pkt, &|_: &[u8]| true), Some(PacketType::Wireguard));
}

#[test]
fn protocol_is_read_most_significant_byte_first() {
    assert_eq!(PacketIdent::parse_geneve(&geneve(0x117a, &[0xd5]), &is_disco), None);
    assert_eq!(PacketIdent::parse_geneve(&geneve(0x127a, &[]), &is_disco), None);
}

#[test]
fn unknown_geneve_protocol_is_not_encapsulated() {
    let pkt = geneve(0x7a13, &[0xd5]);
    assert_eq!(PacketIdent::parse_geneve(&pkt, &is_disco), None);
    let ident = PacketIdent::identify(&pkt, &is_disco);
    assert_eq!(ident.ty, PacketType::Unknown);
    assert_eq!(ident.encapsulation, Encapsulation::Unencapsulated);
    assert_eq!(ident.payload_offset(false), 0);
}

#[test]
fn zero_bits_must_be_zero() {
    for (byte, bit) in [(0, 0x80), (0, 0x40), (1, 0x20), (1, 0x10), (1, 0x08), (1, 0x01)] {
        let mut pkt = geneve(0x7a12, &[]);
        pkt[byte] = bit;
        assert_eq!(PacketIdent::parse_geneve(&pkt, &is_disco), None);
    }
    for (byte, bit) in [(0, 0x20), (0, 0x01), (1, 0x80), (1, 0x40)] {
        let mut pkt = geneve(0x7a12, &[]);
        pkt[byte] = bit;
        assert_eq!(PacketIdent::parse_geneve(&pkt, &is_disco), Some(PacketType::Wireguard));
    }
}

#[test]
fn last_header_byte_must_be_zero() {
    let mut pkt = geneve(0x7a12, &[]);
    pkt[7] = 1;
    assert_eq!(PacketIdent::parse_geneve(&pkt, &is_disco), None);
}

#[test]
fn short_packets() {
    assert_eq!(PacketIdent::parse_geneve(&[], &is_disco), None);
    assert_eq!(PacketIdent::parse_geneve(&[0, 0, 0x7a, 0x12, 0, 0, 0], &is_disco), None);
    let ident = PacketIdent::identify(&[], &is_disco);
    assert_eq!(
        ident,
        PacketIdent { ty: PacketType::Unknown, encapsulation: Encapsulation::Unencapsulated }
    );
}

#[test]
fn plain_disco() {
    let ident = PacketIdent::identify(&[0xd5, 1, 2, 3, 4, 5, 6, 7, 8], &is_disco);
    assert_eq!(
        ident,
        PacketIdent { ty: PacketType::Disco, encapsulation: Encapsulation::Unencapsulated }
    );
    assert_eq!(ident.payload_offset(true), 0);
}

#[test]
fn payload_offset_stays_in_packet() {
    for len in 0..12 {
        let mut pkt = geneve(0x7a11, &[0xd5, 1, 2, 3]);
        pkt.truncate(len);
        let ident = PacketIdent::identify(&pkt, &is_disco);
        assert!(ident.payload_offset(false) <= pkt.len());
    }
}

#[test]
fn encapsulated_payload_is_found() {
    let payload = [0xd5, 7, 7];
    for proto in [0x7a11, 0x7a12] {
        let pkt = geneve(proto, &payload);
        let ident = PacketIdent::identify(&pkt, &is_disco);
        assert_eq!(ident.encapsulation, Encapsulation::Geneve);
        assert_eq!(&pkt[ident.payload_offset(false)..], &payload);
    }
}

/// The disco test may answer differently each time: what counts is its answer on what was asked.
#[test]
fn answer_on_the_payload_decides() {
    for answer in [false, true] {
        let asked = std::cell::RefCell::new(Vec::new());
        let test = |p: &[u8]| {
            asked.borrow_mut().push(p.to_vec());
            answer
        };
        let ident = PacketIdent::identify(&geneve(0x7a11, &[4, 2]), &test);
        assert_eq!(ident.encapsulation, Encapsulation::Geneve);
        assert_eq!(ident.ty, if answer { PacketType::Disco } else { PacketType::Unknown });
        assert_eq!(*asked.borrow(), vec![vec![4, 2]]);

        asked.borrow_mut().clear();
        let pkt = geneve(0x7a13, &[4, 2]);
        let ident = PacketIdent::identify(&pkt, &test);
        assert_eq!(ident.encapsulation, Encapsulation::Unencapsulated);
        assert_eq!(ident.ty, if answer { PacketType::Disco } else { PacketType::Unknown });
        assert_eq!(*asked.borrow(), vec![pkt]);
    }
}
