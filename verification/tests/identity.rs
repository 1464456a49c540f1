use iroh::EndpointId;
use peer_echo::identity::{PeerIdentity, IDENTITY_LEN};

const KEY_HEX: &str = "ae58ff8833241ac82d6ff7611046ed67b5072d142c588d0063e942d9a75502b6";
const KEY_BASE32: &str = "vzmp7cbteqnmqllp65qrarxnm62qoliufrmi2add5fbntj2vak3a";
const KEY_BYTES: [u8; 32] = [
    174, 88, 255, 136, 51, 36, 26, 200, 45, 111, 247, 97, 16, 70, 237, 103, 181, 7, 45, 20, 44,
    88, 141, 0, 99, 233, 66, 217, 167, 85, 2, 182,
];

#[test]
fn parse_decodes_hex() {
    let id = PeerIdentity::parse(KEY_HEX).unwrap();
    assert_eq!(id.to_bytes(), KEY_BYTES);
}

#[test]
fn parse_decodes_base32_in_either_case() {
    let lower = PeerIdentity::parse(KEY_BASE32).unwrap();
    let upper = PeerIdentity::parse(&KEY_BASE32.to_uppercase()).unwrap();
    assert_eq!(lower.to_bytes(), KEY_BYTES);
    assert_eq!(upper.to_bytes(), KEY_BYTES);
}

#[test]
fn parse_accepts_the_all_zero_key() {
    let text = "00".repeat(32);
    let id = PeerIdentity::parse(&text).unwrap();
    assert_eq!(id.to_bytes(), [0u8; 32]);
}

#[test]
fn parse_refuses_what_is_no_address() {
    assert_eq!(PeerIdentity::parse(""), None);
    assert_eq!(PeerIdentity::parse("foobarbaz"), None);
    assert_eq!(PeerIdentity::parse(&KEY_HEX[..63]), None);
    assert_eq!(PeerIdentity::parse(&format!("{}0", KEY_HEX)), None);
    assert_eq!(PeerIdentity::parse(&KEY_HEX.replace('a', "g")), None);
}

#[test]
fn parse_refuses_upper_case_hex() {
    assert_eq!(PeerIdentity::parse(&KEY_HEX.to_uppercase()), None);
}

#[test]
fn parse_refuses_bytes_that_are_no_key() {
    let text = format!("02{}", "00".repeat(31));
    assert_eq!(PeerIdentity::parse(&text), None);
}

#[test]
fn from_bytes_keeps_the_bytes() {
    let id = PeerIdentity::from_bytes(KEY_BYTES);
    assert_eq!(id.to_bytes(), KEY_BYTES);
    assert_eq!(id.to_bytes().len(), IDENTITY_LEN);
    assert_eq!(id, PeerIdentity::parse(KEY_HEX).unwrap());
}

#[test]
fn same_as_compares_the_bytes() {
    let a = PeerIdentity::from_bytes(KEY_BYTES);
    let b = PeerIdentity::from_bytes(KEY_BYTES);
    let mut other = KEY_BYTES;
    other[31] ^= 1;
    let c = PeerIdentity::from_bytes(other);
    assert!(a.same_as(&b));
    assert!(!a.same_as(&c));
}

#[test]
fn parsed_identity_is_the_key_that_the_transport_dials() {
    let id = PeerIdentity::parse(KEY_BASE32).unwrap();
    let key = EndpointId::from_bytes(&id.to_bytes()).unwrap();
    assert_eq!(key.to_string(), KEY_HEX);
    assert_eq!(PeerIdentity::parse(&key.to_string()), Some(id));
}

#[test]
fn printed_identity_of_a_fresh_key_parses_back() {
    for _ in 0..16 {
        let key = iroh::SecretKey::generate().public();
        let id = PeerIdentity::parse(&key.to_string()).unwrap();
        assert_eq!(&id.to_bytes(), key.as_bytes());
    }
}
