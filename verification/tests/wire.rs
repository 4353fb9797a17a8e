use ipdis::answers::Answer;
use ipdis::datagram::{
    address_text, decimal_text, ipv4, octets, receive_into_buffer, Endpoint, RECV_BUFFER_LENGTH,
};
use ipdis::signature::{same_bytes, Signature, MAX_SIGNATURE_LENGTH};

#[test]
fn signature_bytes_round_trip() {
    let bytes: Vec<u8> = vec![0, 1, 2, 0xff, b'a', b'\n'];
    let signature = Signature::from_bytes(&bytes);
    assert_eq!(signature.as_bytes(), bytes.as_slice());
    assert_eq!(signature.0, bytes);
}

#[test]
fn answer_bytes_round_trip() {
    let bytes: Vec<u8> = vec![b'{', b'}', 0x80, 0];
    let answer = Answer::from_bytes(&bytes);
    assert_eq!(answer.as_bytes(), bytes.as_slice());
    assert_eq!(answer.0, bytes);
}

#[test]
fn empty_round_trip() {
    assert_eq!(Signature::from_bytes(&[]).as_bytes().len(), 0);
    assert_eq!(Answer::from_bytes(&[]).as_bytes().len(), 0);
    assert_eq!(Answer::default().as_bytes().len(), 0);
}

#[test]
fn signature_from_text_is_utf8() {
    let signature = Signature::from("ipdisbeacon");
    assert_eq!(signature.as_bytes(), b"ipdisbeacon");
    let accented = Signature::from_text("h\u{e9}");
    assert_eq!(accented.as_bytes(), &[b'h', 0xc3, 0xa9]);
    assert_eq!(Answer::from("{}").as_bytes(), b"{}");
    assert_eq!(Answer::from_text("\u{20ac}").as_bytes(), &[0xe2, 0x82, 0xac]);
}

#[test]
fn text_round_trip() {
    assert_eq!(Signature::from_text("sign line 2").to_text(), "sign line 2");
    assert_eq!(Signature::from_text("h\u{e9}llo \u{20ac}").to_text(), "h\u{e9}llo \u{20ac}");
    assert_eq!(Answer::from_text("{\"hostname\":\"a\"}").to_text(), "{\"hostname\":\"a\"}");
    assert_eq!(Answer::default().to_text(), "");
}

#[test]
fn invalid_bytes_show_with_replacement() {
    let signature = Signature::from_bytes(&[b'a', 0xff, b'b']);
    assert_eq!(signature.to_text(), "a\u{fffd}b");
    let answer = Answer::from_bytes(&[0xc3]);
    assert_eq!(answer.to_text(), "\u{fffd}");
}

#[test]
fn signatures_compare_byte_for_byte() {
    assert_eq!(Signature::from("abc"), Signature::from_bytes(b"abc"));
    assert_ne!(Signature::from("abc"), Signature::from("abd"));
    assert_ne!(Signature::from("abc"), Signature::from("ab"));
    assert_ne!(Signature::from("abc"), Signature::from("ABC"));
    assert_eq!(Signature::from(""), Signature::from_bytes(&[]));
    assert_eq!(Answer::from("x"), Answer::from_bytes(b"x"));
    assert_ne!(Answer::from("x"), Answer::default());
}

#[test]
fn same_bytes_cases() {
    assert!(same_bytes(&[], &[]));
    assert!(same_bytes(&[1, 2, 3], &[1, 2, 3]));
    assert!(!same_bytes(&[1, 2, 3], &[1, 2]));
    assert!(!same_bytes(&[1, 2], &[1, 2, 3]));
    assert!(!same_bytes(&[1, 2, 3], &[1, 2, 4]));
    assert!(!same_bytes(&[9, 2, 3], &[1, 2, 3]));
}

#[test]
fn clones_are_equal() {
    let signature = Signature::from("test-signature");
    assert_eq!(signature.clone(), signature);
    let answer = Answer::from("{}");
    assert_eq!(answer.clone(), answer);
}

#[test]
fn signature_length_limit() {
    assert_eq!(MAX_SIGNATURE_LENGTH, 128);
    assert!(Signature::from_bytes(&[7u8; 128]).is_admissible());
    assert!(!Signature::from_bytes(&[7u8; 129]).is_admissible());
    assert!(Signature::from_bytes(&[]).is_admissible());
}

#[test]
fn buffer_keeps_short_payloads() {
    assert_eq!(RECV_BUFFER_LENGTH, 64);
    assert_eq!(receive_into_buffer(&[]), Vec::<u8>::new());
    assert_eq!(receive_into_buffer(b"nope"), b"nope".to_vec());
    let exact: Vec<u8> = (0u8..64).collect();
    assert_eq!(receive_into_buffer(&exact), exact);
}

#[test]
fn buffer_cuts_long_payloads() {
    let long: Vec<u8> = (0u8..200).collect();
    let kept: Vec<u8> = receive_into_buffer(&long);
    assert_eq!(kept.len(), 64);
    assert_eq!(kept, long[..64].to_vec());
    let one_more: Vec<u8> = (0u8..65).collect();
    assert_eq!(receive_into_buffer(&one_more), one_more[..64].to_vec());
}

#[test]
fn buffer_twice_is_once() {
    let long: Vec<u8> = (0u8..150).collect();
    let once: Vec<u8> = receive_into_buffer(&long);
    assert_eq!(receive_into_buffer(&once), once);
}

#[test]
fn candidate_signature_is_cut_to_buffer() {
    let long: Vec<u8> = vec![b'x'; 100];
    assert_eq!(Signature::from_datagram(&long).as_bytes(), &long[..64]);
    assert_eq!(Signature::from_datagram(b"ipdisbeacon"), Signature::from("ipdisbeacon"));
}

#[test]
fn address_from_octets() {
    assert_eq!(ipv4(0, 0, 0, 0), 0);
    assert_eq!(ipv4(255, 255, 255, 255), 0xffff_ffff);
    assert_eq!(ipv4(127, 0, 0, 1), 0x7f00_0001);
    assert_eq!(ipv4(192, 168, 0, 1), 3_232_235_521);
    assert_eq!(ipv4(1, 2, 3, 4), 0x0102_0304);
}

#[test]
fn octets_of_address() {
    assert_eq!(octets(0), [0, 0, 0, 0]);
    assert_eq!(octets(0xffff_ffff), [255, 255, 255, 255]);
    assert_eq!(octets(0x7f00_0001), [127, 0, 0, 1]);
    assert_eq!(octets(3_232_235_521), [192, 168, 0, 1]);
    let parts: [u8; 4] = octets(0x0a14_1e28);
    assert_eq!(ipv4(parts[0], parts[1], parts[2], parts[3]), 0x0a14_1e28);
}

#[test]
fn endpoints_compare_by_fields() {
    let a = Endpoint { addr: ipv4(10, 0, 0, 1), port: 1901 };
    assert_eq!(a, Endpoint { addr: 0x0a00_0001, port: 1901 });
    assert_ne!(a, Endpoint { addr: 0x0a00_0001, port: 1902 });
    assert_ne!(a, Endpoint { addr: 0x0a00_0002, port: 1901 });
}

#[test]
fn octets_in_decimal() {
    assert_eq!(decimal_text(0), "0");
    assert_eq!(decimal_text(7), "7");
    assert_eq!(decimal_text(9), "9");
    assert_eq!(decimal_text(10), "10");
    assert_eq!(decimal_text(42), "42");
    assert_eq!(decimal_text(99), "99");
    assert_eq!(decimal_text(100), "100");
    assert_eq!(decimal_text(101), "101");
    assert_eq!(decimal_text(110), "110");
    assert_eq!(decimal_text(255), "255");
    for octet in 0u8..=255 {
        assert_eq!(decimal_text(octet), format!("{}", octet));
    }
}

#[test]
fn addresses_in_dotted_decimal() {
    assert_eq!(address_text(0), "0.0.0.0");
    assert_eq!(address_text(0xffff_ffff), "255.255.255.255");
    assert_eq!(address_text(ipv4(127, 0, 0, 1)), "127.0.0.1");
    assert_eq!(address_text(ipv4(192, 168, 0, 1)), "192.168.0.1");
    assert_eq!(address_text(ipv4(10, 200, 30, 4)), "10.200.30.4");
    assert_eq!(address_text(ipv4(1, 20, 103, 99)), "1.20.103.99");
}
