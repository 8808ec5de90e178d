use porcelain::oid::Oid;

#[test]
fn from_hex_reads_full_id() {
    let id = Oid::from_hex("6b6829f3547a8c3c30b120e5c7cc26ea51ee745e").unwrap();
    assert_eq!(id.bytes[0], 0x6b);
    assert_eq!(id.bytes[1], 0x68);
    assert_eq!(id.bytes[19], 0x5e);
    assert_eq!(id.to_hex(), "6b6829f3547a8c3c30b120e5c7cc26ea51ee745e");
}

#[test]
fn from_hex_pads_abbreviation() {
    let id = Oid::from_hex("abc").unwrap();
    assert_eq!(id.bytes[0], 0xab);
    assert_eq!(id.bytes[1], 0xc0);
    assert_eq!(id.bytes[2], 0);
    assert!(!id.is_zero());
}

#[test]
fn from_hex_takes_upper_case() {
    let id = Oid::from_hex("ABCDEF").unwrap();
    assert_eq!(id.to_hex(), "abcdef0000000000000000000000000000000000");
}

#[test]
fn from_hex_refuses_bad_input() {
    assert!(Oid::from_hex("").is_none());
    assert!(Oid::from_hex("xyz").is_none());
    assert!(Oid::from_hex("make").is_none());
    assert!(Oid::from_hex("6b6829f3547a8c3c30b120e5c7cc26ea51ee745e0").is_none());
    assert!(Oid::from_hex("\u{e9}").is_none());
}

#[test]
fn zero_is_zero() {
    assert!(Oid::zero().is_zero());
    assert!(Oid::from_hex("0").unwrap().is_zero());
    assert!(Oid::zero().same(&Oid::from_hex("00000").unwrap()));
    assert!(!Oid::zero().same(&Oid::from_hex("00001").unwrap()));
    assert_eq!(Oid::zero().to_hex(), "0000000000000000000000000000000000000000");
}
