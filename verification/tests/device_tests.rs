use wolauth::device::parse_mac;

#[test]
fn colon_separated_mac_parses() {
    let bytes = parse_mac("aa:bb:cc:dd:ee:ff").unwrap();
    assert_eq!(bytes, vec![0xaa, 0xbb, 0xcc, 0xdd, 0xee, 0xff]);
}

#[test]
fn dash_and_uppercase_mac_parses() {
    let bytes = parse_mac("AA-BB-CC-DD-EE-0F").unwrap();
    assert_eq!(bytes, vec![0xaa, 0xbb, 0xcc, 0xdd, 0xee, 0x0f]);
}

#[test]
fn short_or_empty_mac_is_rejected() {
    assert!(parse_mac("aa:bb:cc:dd:ee").is_none());
    assert!(parse_mac("").is_none());
    assert!(parse_mac("aa").is_none());
}

#[test]
fn seven_groups_are_rejected() {
    assert!(parse_mac("aa:bb:cc:dd:ee:ff:11").is_none());
}

#[test]
fn invalid_groups_are_skipped_not_fatal() {
    let bytes = parse_mac("aa:xx:bb:cc:dd:ee:ff").unwrap();
    assert_eq!(bytes, vec![0xaa, 0xbb, 0xcc, 0xdd, 0xee, 0xff]);
    assert!(parse_mac("aa:xx:bb:cc:dd:ee").is_none());
}

#[test]
fn oversized_groups_are_skipped() {
    assert!(parse_mac("1ff:bb:cc:dd:ee:ff").is_none());
    let padded = parse_mac("0ff:bb:cc:dd:ee:ff").unwrap();
    assert_eq!(padded, vec![0xff, 0xbb, 0xcc, 0xdd, 0xee, 0xff]);
    let seven = parse_mac("1ff:aa:bb:cc:dd:ee:ff").unwrap();
    assert_eq!(seven, vec![0xaa, 0xbb, 0xcc, 0xdd, 0xee, 0xff]);
}

#[test]
fn single_digit_and_signed_groups_parse() {
    let bytes = parse_mac("1:2:3:4:5:6").unwrap();
    assert_eq!(bytes, vec![1, 2, 3, 4, 5, 6]);
    let plus = parse_mac("+1:2:3:4:5:6").unwrap();
    assert_eq!(plus, vec![1, 2, 3, 4, 5, 6]);
}
