use ipdis::answers::Answer;
use ipdis::conf::ServerConfig;
use ipdis::datagram::{ipv4, Datagram, Endpoint};
use ipdis::server::{
    answer_for_host, get_answer, is_signature_vaid, reply_to, serve_single, Reaction,
    HOSTNAME_KEY, REFRACTORY_PERIOD_MILLIS,
};
use ipdis::signature::Signature;

fn request(payload: &[u8]) -> Datagram {
    Datagram { peer: Endpoint { addr: ipv4(127, 0, 0, 1), port: 1902 }, payload: payload.to_vec() }
}

fn whole_answer_of_this_host() -> Vec<u8> {
    let name = gethostname::gethostname().to_string_lossy().into_owned();
    let mut object = serde_json::Map::new();
    object.insert("hostname".to_string(), serde_json::Value::String(name));
    serde_json::to_vec(&serde_json::Value::Object(object)).unwrap()
}

fn host_of(payload: &[u8]) -> String {
    let parsed: serde_json::Value = serde_json::from_slice(payload).unwrap();
    let object = parsed.as_object().unwrap();
    assert_eq!(object.len(), 1);
    object.get("hostname").unwrap().as_str().unwrap().to_string()
}

#[test]
fn test_serve_localhost() {
    let conf = ServerConfig::default();
    let scanner = Endpoint { addr: ipv4(127, 0, 0, 1), port: 40_123 };
    let probe = Datagram { peer: scanner, payload: conf.signatures.first().unwrap().0.clone() };
    let conf_clone = conf.clone();
    match serve_single(&probe, &conf_clone.signatures).unwrap() {
        Reaction::Reply { datagram, rest_millis } => {
            assert_eq!(datagram.peer, scanner);
            assert_eq!(rest_millis, 3000);
            println!("[{}] -> {}", datagram.peer.port, Answer(datagram.payload).to_text());
        }
        Reaction::Ignore => panic!("a default signature was ignored"),
    }
}

#[test]
fn server_test_serve_localhost() {
    let old_signature = Signature::from("pang-supremacy-maritime-revoke-afterglow");
    let scanner = Endpoint { addr: ipv4(127, 0, 0, 1), port: 1902 };
    let probe = Datagram { peer: scanner, payload: old_signature.0.clone() };
    match serve_single(&probe, &[old_signature]).unwrap() {
        Reaction::Reply { datagram, .. } => assert_eq!(datagram.peer, scanner),
        Reaction::Ignore => panic!("the signature was ignored"),
    }
}

#[test]
fn happy_loopback() {
    let conf = ServerConfig::dummy();
    let reaction = serve_single(&request(b"ipdisbeacon"), &conf.signatures).unwrap();
    match reaction {
        Reaction::Reply { datagram, rest_millis } => {
            assert_eq!(datagram.peer, Endpoint { addr: 0x7f00_0001, port: 1902 });
            assert_eq!(rest_millis, REFRACTORY_PERIOD_MILLIS);
            let whole: Vec<u8> = whole_answer_of_this_host();
            if whole.len() <= 64 {
                let host: String = host_of(&datagram.payload);
                assert_eq!(host, gethostname::gethostname().to_string_lossy());
            } else {
                assert_eq!(datagram.payload, whole[..64].to_vec());
            }
        }
        Reaction::Ignore => panic!("the default signature was ignored"),
    }
}

#[test]
fn wrong_signature() {
    let conf = ServerConfig::dummy();
    assert!(matches!(serve_single(&request(b"nope"), &conf.signatures), Ok(Reaction::Ignore)));
    assert!(matches!(
        serve_single(&request(b"ipdisbeacon"), &conf.signatures),
        Ok(Reaction::Reply { .. })
    ));
}

#[test]
fn every_configured_signature_is_answered() {
    let expected = vec![
        Signature::from("ipdisbeacon"),
        Signature::from("pang-supremacy-maritime-revoke-afterglow"),
        Signature::from_bytes(&[0, 0xff, 10]),
        Signature::from_bytes(&[b's'; 64]),
    ];
    for signature in expected.iter() {
        let reaction = serve_single(&request(signature.as_bytes()), &expected).unwrap();
        assert!(matches!(reaction, Reaction::Reply { .. }));
    }
}

#[test]
fn near_misses_are_ignored() {
    let expected = vec![Signature::from("ipdisbeacon")];
    let misses: Vec<&[u8]> =
        vec![b"", b"ipdisbeaco", b"ipdisbeacon ", b"Ipdisbeacon", b"ipdisbeacon\n", b"\0"];
    for miss in misses {
        assert!(matches!(serve_single(&request(miss), &expected), Ok(Reaction::Ignore)));
    }
}

#[test]
fn nothing_expected_nothing_answered() {
    assert!(matches!(serve_single(&request(b"ipdisbeacon"), &[]), Ok(Reaction::Ignore)));
    assert!(matches!(serve_single(&request(b""), &[]), Ok(Reaction::Ignore)));
}

#[test]
fn the_empty_signature_can_be_expected() {
    let expected = vec![Signature::from("")];
    assert!(matches!(serve_single(&request(b""), &expected), Ok(Reaction::Reply { .. })));
    assert!(matches!(serve_single(&request(b"x"), &expected), Ok(Reaction::Ignore)));
}

#[test]
fn a_signature_longer_than_the_buffer_is_never_matched() {
    let long = Signature::from_bytes(&[b'q'; 65]);
    let expected = vec![long.clone()];
    assert!(matches!(serve_single(&request(long.as_bytes()), &expected), Ok(Reaction::Ignore)));
}

#[test]
fn the_request_is_judged_by_what_the_buffer_holds() {
    let expected = vec![Signature::from_bytes(&[b'q'; 64])];
    let longer: Vec<u8> = vec![b'q'; 100];
    assert!(matches!(serve_single(&request(&longer), &expected), Ok(Reaction::Reply { .. })));
}

#[test]
fn signature_validity() {
    let expected = vec![Signature::from("one"), Signature::from("two")];
    assert!(is_signature_vaid(&Signature::from("one"), &expected));
    assert!(is_signature_vaid(&Signature::from("two"), &expected));
    assert!(!is_signature_vaid(&Signature::from("three"), &expected));
    assert!(!is_signature_vaid(&Signature::from("on"), &expected));
    assert!(!is_signature_vaid(&Signature::from("one"), &[]));
}

#[test]
fn answer_for_a_plain_host() {
    assert_eq!(HOSTNAME_KEY, "hostname");
    let answer = answer_for_host("myhost").unwrap();
    assert_eq!(answer.to_text(), "{\"hostname\":\"myhost\"}");
    assert_eq!(answer.as_bytes(), b"{\"hostname\":\"myhost\"}");
}

#[test]
fn answer_escapes_what_json_must_escape() {
    let answer = answer_for_host("a\"b\\c\n").unwrap();
    assert_eq!(answer.to_text(), "{\"hostname\":\"a\\\"b\\\\c\\n\"}");
    assert_eq!(host_of(answer.as_bytes()), "a\"b\\c\n");
}

#[test]
fn answer_for_odd_hosts() {
    assert_eq!(answer_for_host("").unwrap().to_text(), "{\"hostname\":\"\"}");
    let accented = answer_for_host("h\u{f4}te").unwrap();
    assert_eq!(host_of(accented.as_bytes()), "h\u{f4}te");
    assert_eq!(accented.as_bytes(), "{\"hostname\":\"h\u{f4}te\"}".as_bytes());
}

#[test]
fn answer_names_this_host() {
    let answer = get_answer().unwrap();
    let whole: Vec<u8> = whole_answer_of_this_host();
    if whole.len() <= 64 {
        assert_eq!(answer.as_bytes(), whole.as_slice());
        assert_eq!(host_of(answer.as_bytes()), gethostname::gethostname().to_string_lossy());
    } else {
        assert_eq!(answer.as_bytes(), &whole[..64]);
    }
    assert_eq!(
        answer.as_bytes(),
        answer_for_host(&gethostname::gethostname().to_string_lossy()).unwrap().as_bytes()
    );
}

#[test]
fn reply_goes_back_to_the_source() {
    let source = Endpoint { addr: ipv4(10, 9, 8, 7), port: 6543 };
    match reply_to(source, Answer::from("{}")) {
        Reaction::Reply { datagram, rest_millis } => {
            assert_eq!(datagram.peer, source);
            assert_eq!(datagram.payload, b"{}".to_vec());
            assert_eq!(rest_millis, 3000);
        }
        Reaction::Ignore => panic!("no reply"),
    }
}

#[test]
fn both_default_signatures_are_answered() {
    let conf = ServerConfig::dummy();
    for probe in [&b"ipdisbeacon"[..], &b"pang-supremacy-maritime-revoke-afterglow"[..]] {
        assert!(matches!(serve_single(&request(probe), &conf.signatures), Ok(Reaction::Reply { .. })));
    }
}

#[test]
fn a_short_answer_is_whole() {
    let name = "a".repeat(49);
    let answer = answer_for_host(&name).unwrap();
    assert_eq!(answer.as_bytes().len(), 64);
    assert_eq!(answer.to_text(), format!("{{\"hostname\":\"{}\"}}", name));
    assert_eq!(host_of(answer.as_bytes()), name);
}

#[test]
fn a_long_answer_is_cut_to_the_ceiling() {
    let name = "b".repeat(50);
    let whole = format!("{{\"hostname\":\"{}\"}}", name);
    assert_eq!(whole.len(), 65);
    let answer = answer_for_host(&name).unwrap();
    assert_eq!(answer.as_bytes().len(), 64);
    assert_eq!(answer.as_bytes(), &whole.as_bytes()[..64]);
    let longer = answer_for_host(&"c".repeat(300)).unwrap();
    assert_eq!(longer.as_bytes().len(), 64);
    assert_eq!(&longer.as_bytes()[..13], b"{\"hostname\":\"");
}

#[test]
fn no_reply_is_longer_than_the_ceiling() {
    let conf = ServerConfig::dummy();
    match serve_single(&request(b"ipdisbeacon"), &conf.signatures).unwrap() {
        Reaction::Reply { datagram, .. } => assert!(datagram.payload.len() <= 64),
        Reaction::Ignore => panic!("the default signature was ignored"),
    }
    assert!(get_answer().unwrap().as_bytes().len() <= 64);
}
