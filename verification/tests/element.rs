use bgpstream::element::{
    parse_addr, parse_as_path, parse_communities, peer_state_from_code, str_from_buf, Element,
    ElementData, ElementError, IpAddr, PeerState, RawAddr, RawElement, RawPath, RawPrefix,
    RawRecord,
};
use bgpstream::aspath::PathEntry;

fn v4_addr(octets: [u8; 4]) -> RawAddr {
    let mut bytes = [0u8; 16];
    bytes[0] = octets[0];
    bytes[1] = octets[1];
    bytes[2] = octets[2];
    bytes[3] = octets[3];
    RawAddr { version: 4, bytes }
}

fn raw_path(text: &str) -> RawPath {
    RawPath {
        written: text.len(),
        bytes: text.as_bytes().to_vec(),
    }
}

fn raw_element(elem_type: u32) -> RawElement {
    RawElement {
        elem_type,
        timestamp: 1567756800,
        peer_address: v4_addr([192, 0, 2, 1]),
        peer_asnumber: 64512,
        prefix: RawPrefix {
            address: v4_addr([203, 0, 113, 0]),
            mask_len: 24,
        },
        nexthop: v4_addr([192, 0, 2, 254]),
        aspath: raw_path("100 200 {300,400} 500"),
        communities: vec![Some((65000, 100)), Some((65000, 200))],
        old_state: 1,
        new_state: 6,
    }
}

fn raw_record() -> RawRecord {
    RawRecord {
        dump_collector: b"rrc00\0\0\0\0\0".to_vec(),
        dump_project: b"ris\0\0\0\0\0\0\0".to_vec(),
    }
}

#[test]
fn addr_v4_zero_decodes_to_zero_address() {
    let r = parse_addr(RawAddr { version: 4, bytes: [0u8; 16] });
    assert_eq!(r, Ok(IpAddr::V4(0)));
}

#[test]
fn addr_v4_reads_first_four_octets() {
    assert_eq!(parse_addr(v4_addr([192, 0, 2, 1])), Ok(IpAddr::V4(0xC0000201)));
}

#[test]
fn addr_v6_reads_all_sixteen_octets() {
    let mut bytes = [0u8; 16];
    bytes[15] = 1;
    let r = parse_addr(RawAddr { version: 6, bytes });
    assert_eq!(r, Ok(IpAddr::V6(1)));
}

#[test]
fn addr_bad_version_fails() {
    for version in [0u32, 1, 2, 3, 5, 7, 255, 4089, u32::MAX] {
        match parse_addr(RawAddr { version, bytes: [0u8; 16] }) {
            Err(ElementError::IpParseError(m)) => {
                assert_eq!(m, format!("Incorrect address version {}", version));
            }
            other => panic!("version {} gave {:?}", version, other),
        }
    }
}

#[test]
fn addr_error_message_names_each_digit() {
    for version in [8u32, 9, 10, 80, 90, 108, 1234567890] {
        match parse_addr(RawAddr { version, bytes: [0u8; 16] }) {
            Err(ElementError::IpParseError(m)) => {
                assert_eq!(m, format!("Incorrect address version {}", version));
            }
            other => panic!("version {} gave {:?}", version, other),
        }
    }
}

#[test]
fn communities_decode_in_order() {
    let items = vec![Some((65000u16, 100u16)), Some((1, 2)), Some((65000, 100))];
    let r = parse_communities(&items).unwrap();
    assert_eq!(r, vec![(65000u32, 100u16), (1, 2), (65000, 100)]);
}

#[test]
fn communities_missing_item_fails() {
    let items = vec![Some((65000u16, 100u16)), None, Some((1, 2))];
    assert_eq!(parse_communities(&items), Err(ElementError::AsnParseError));
}

#[test]
fn str_from_buf_reads_to_terminator() {
    assert_eq!(str_from_buf(b"rrc00\0junk"), Ok("rrc00".to_string()));
    assert_eq!(str_from_buf(b"\0"), Ok("".to_string()));
}

#[test]
fn str_from_buf_without_terminator_fails() {
    assert_eq!(str_from_buf(b"abc"), Err(ElementError::StringParseError));
    assert_eq!(str_from_buf(b""), Err(ElementError::StringParseError));
}

#[test]
fn str_from_buf_bad_encoding_fails() {
    match str_from_buf(b"\xff\xfe\0") {
        Err(ElementError::Utf8Error(_)) => {}
        other => panic!("expected encoding error, got {:?}", other),
    }
}

#[test]
fn as_path_truncation_rejected() {
    let p = RawPath { written: 4096, bytes: b"100".to_vec() };
    assert_eq!(parse_as_path(&p), Err(ElementError::AsnParseError));
    let q = RawPath { written: 5000, bytes: b"100".to_vec() };
    assert_eq!(parse_as_path(&q), Err(ElementError::AsnParseError));
}

#[test]
fn as_path_raw_decodes() {
    let p = raw_path("100 {200,300}");
    assert_eq!(
        parse_as_path(&p),
        Ok(vec![PathEntry::As(100), PathEntry::Collection(vec![200, 300])])
    );
}

#[test]
fn peer_state_codes_map_exhaustively() {
    assert_eq!(peer_state_from_code(0), Some(PeerState::Unknown));
    assert_eq!(peer_state_from_code(1), Some(PeerState::Idle));
    assert_eq!(peer_state_from_code(2), Some(PeerState::Connect));
    assert_eq!(peer_state_from_code(3), Some(PeerState::Active));
    assert_eq!(peer_state_from_code(4), Some(PeerState::OpenSent));
    assert_eq!(peer_state_from_code(5), Some(PeerState::OpenConfirm));
    assert_eq!(peer_state_from_code(6), Some(PeerState::Established));
    assert_eq!(peer_state_from_code(7), Some(PeerState::Clearing));
    assert_eq!(peer_state_from_code(8), Some(PeerState::Deleted));
    assert_eq!(peer_state_from_code(9), None);
    assert_eq!(peer_state_from_code(u32::MAX), None);
}

#[test]
fn create_announcement_matches_tag() {
    let e = Element::create(&raw_element(2), &raw_record()).unwrap();
    assert_eq!(e.timestamp, 1567756800);
    assert_eq!(e.peer_addr, IpAddr::V4(0xC0000201));
    assert_eq!(e.peer_asn, 64512);
    assert_eq!(e.collector, "rrc00");
    assert_eq!(e.project, "ris");
    match e.data {
        ElementData::Announcement(a) => {
            assert_eq!(a.prefix.addr, IpAddr::V4(0xCB007100));
            assert_eq!(a.prefix.length, 24);
            assert_eq!(a.next_hop, IpAddr::V4(0xC00002FE));
            assert_eq!(
                a.as_path,
                vec![
                    PathEntry::As(100),
                    PathEntry::As(200),
                    PathEntry::Collection(vec![300, 400]),
                    PathEntry::As(500),
                ]
            );
            assert_eq!(a.communities, vec![(65000u32, 100u16), (65000, 200)]);
        }
        other => panic!("expected announcement payload, got {:?}", other),
    }
}

#[test]
fn create_rib_matches_tag() {
    let e = Element::create(&raw_element(1), &raw_record()).unwrap();
    assert!(matches!(e.data, ElementData::Rib(_)));
}

#[test]
fn create_withdrawal_matches_tag() {
    let e = Element::create(&raw_element(3), &raw_record()).unwrap();
    match e.data {
        ElementData::Withdrawl(w) => {
            assert_eq!(w.prefix.addr, IpAddr::V4(0xCB007100));
            assert_eq!(w.prefix.length, 24);
        }
        other => panic!("expected withdrawal payload, got {:?}", other),
    }
}

#[test]
fn create_peer_state_matches_tag() {
    let e = Element::create(&raw_element(4), &raw_record()).unwrap();
    match e.data {
        ElementData::PeerState(p) => {
            assert_eq!(p.old_peer_state, PeerState::Idle);
            assert_eq!(p.new_peer_state, PeerState::Established);
        }
        other => panic!("expected peer-state payload, got {:?}", other),
    }
}

#[test]
fn create_unknown_tag_fails() {
    assert_eq!(
        Element::create(&raw_element(0), &raw_record()).unwrap_err(),
        ElementError::UnexpectedType
    );
    assert_eq!(
        Element::create(&raw_element(9), &raw_record()).unwrap_err(),
        ElementError::UnexpectedType
    );
}

#[test]
fn create_unmapped_peer_state_code_is_recoverable() {
    let mut raw = raw_element(4);
    raw.new_state = 99;
    assert_eq!(
        Element::create(&raw, &raw_record()).unwrap_err(),
        ElementError::UnexpectedType
    );
}

#[test]
fn create_propagates_first_sub_decoder_error() {
    let mut raw = raw_element(2);
    raw.nexthop = RawAddr { version: 0, bytes: [0u8; 16] };
    match Element::create(&raw, &raw_record()) {
        Err(ElementError::IpParseError(_)) => {}
        other => panic!("expected address error, got {:?}", other),
    }

    let mut raw = raw_element(2);
    raw.aspath = raw_path("100 bad");
    assert_eq!(
        Element::create(&raw, &raw_record()).unwrap_err(),
        ElementError::AsnParseError
    );

    let mut raw = raw_element(2);
    raw.communities = vec![None];
    assert_eq!(
        Element::create(&raw, &raw_record()).unwrap_err(),
        ElementError::AsnParseError
    );
}

#[test]
fn create_bad_record_text_fails() {
    let rec = RawRecord {
        dump_collector: b"rrc00".to_vec(),
        dump_project: b"ris\0".to_vec(),
    };
    assert_eq!(
        Element::create(&raw_element(2), &rec).unwrap_err(),
        ElementError::StringParseError
    );
}
