use tftp::netascii::{from_netascii, to_netascii};

#[test]
fn to_netascii_translates_line_endings() {
    let local = b"one\ntwo\rthree".to_vec();
    assert_eq!(to_netascii(&local), b"one\r\ntwo\r\0three".to_vec());
}

#[test]
fn from_netascii_translates_back() {
    let wire = b"one\r\ntwo\r\0three".to_vec();
    assert_eq!(from_netascii(&wire), b"one\ntwo\rthree".to_vec());
}

#[test]
fn netascii_round_trip_concrete() {
    let local = b"\n\r\naxc\r\r\n".to_vec();
    assert_eq!(from_netascii(&to_netascii(&local)), local);
}

#[test]
fn from_netascii_keeps_bare_carriage_return() {
    assert_eq!(from_netascii(&b"\r".to_vec()), b"\r".to_vec());
    assert_eq!(from_netascii(&b"\rx".to_vec()), b"\rx".to_vec());
}

#[test]
fn netascii_empty_input() {
    assert!(to_netascii(&Vec::new()).is_empty());
    assert!(from_netascii(&Vec::new()).is_empty());
}
