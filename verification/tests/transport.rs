use ethernet_ip::scanner::within_ceiling;
use ethernet_ip::text::{parse_byte, split_uri};
use ethernet_ip::transport::arrived_at;
use ethernet_ip::{Adapter, Arrived, Error, EtherNetIpTransport, Packet, Scanner, CEILING};
use std::time::Duration;

const FALLBACK: Duration = Duration::from_secs(9);
const PEER: &str = "127.0.0.1:50123";

/// One round with both ends in memory: the near end sends as far as the
/// answers so far let it, the far end answers, until the near end is done.
fn round(loopback: &EtherNetIpTransport, payload: &[u8]) -> Result<Arrived, Error> {
    let mut answers: Vec<u8> = Vec::new();
    loop {
        let mut sent = Vec::new();
        let done = loopback.send_to("127.0.0.1:0", payload, FALLBACK, &mut answers.as_slice(), &mut sent);
        match done {
            Err(Error::ClosedBeforeAnswering) | Ok(()) => {}
            Err(error) => return Err(error),
        }
        answers.clear();
        let arrived = loopback
            .clone()
            .take_one(PEER, &mut sent.as_slice(), &mut answers);
        if done.is_ok() {
            return arrived;
        }
    }
}

/// One message to the adapter and the packet it answers with.
fn exchange(adapter: &mut Adapter, request: &[u8]) -> Packet {
    let mut answers = Vec::new();
    adapter
        .serve(&mut &request[..], &mut answers)
        .expect("served");
    Scanner::answered(Packet::read(&mut answers.as_slice()).expect("read")).expect("answered")
}

/// The shapes a protocol breaks on.
fn payloads() -> Vec<(&'static str, Vec<u8>)> {
    vec![
        ("nothing", vec![]),
        ("one byte", vec![0]),
        ("a line end", b"one\r\ntwo\n".to_vec()),
        ("every byte", (0..=255).collect()),
        ("high bytes", vec![0xff; 300]),
        (
            "the brim",
            (0..CEILING)
                .map(|n| u8::try_from(n % 251).unwrap_or(0))
                .collect(),
        ),
    ]
}

#[test]
fn a_loopback_round_sets_an_assembly_on_a_registered_session() {
    let loopback = EtherNetIpTransport::loopback(Duration::from_secs(2));
    let arrived = round(&loopback, b"set attribute single").expect("round");
    assert_eq!(arrived.bytes, b"set attribute single");
    assert!(arrived.origin_uri.starts_with("enip://127.0.0.1:"));
    assert!(arrived.origin_uri.ends_with("/assembly/100"));
    assert_eq!(loopback.ceiling(), Some(CEILING));
    assert_eq!(CEILING, 65_511);
    assert_eq!(loopback.name(), "ethernet-ip");
    assert_eq!(loopback.address(), "127.0.0.1:0");
    assert_eq!(loopback.timeout(), Some(Duration::from_secs(2)));
}

#[test]
fn the_loopback_returns_the_edges_whole_and_refuses_over_the_brim() {
    let loopback = EtherNetIpTransport::loopback(Duration::from_secs(2));
    for (name, bytes) in payloads() {
        let arrived = match round(&loopback, &bytes) {
            Ok(arrived) => arrived,
            Err(error) => panic!("{name}: {}", error.message()),
        };
        assert_eq!(arrived.bytes, bytes, "{name}");
    }
    let error = round(&loopback, &vec![0; CEILING + 1]).expect_err("over the brim");
    assert_eq!(error, Error::OverCeiling);
}

#[test]
fn a_scanner_gets_and_sets_and_is_refused_what_the_adapter_lacks() {
    let address = "127.0.0.1:44818";
    let near = EtherNetIpTransport::new(address).timing_out_after(Duration::from_secs(2));
    // A Location's get: the answers of an adapter to what the near end sends.
    let mut answers: Vec<u8> = Vec::new();
    let arrived = loop {
        let mut sent = Vec::new();
        let arrived = near.receive(&mut answers.as_slice(), &mut sent);
        if let Ok(arrived) = arrived {
            break arrived;
        }
        assert_eq!(arrived, Err(Error::ClosedBeforeAnswering));
        answers.clear();
        Adapter::accept(PEER)
            .with_assembly(100, vec![1, 2, 3])
            .serve(&mut sent.as_slice(), &mut answers)
            .expect("serve");
    };
    assert_eq!(arrived.len(), 1);
    assert_eq!(arrived[0].bytes, [1, 2, 3]);
    assert_eq!(
        arrived[0].origin_uri,
        format!("enip://{address}/assembly/100")
    );
    // A scanner's set on another adapter.
    let mut second = Adapter::accept(PEER).with_assembly(150, vec![0]);
    let answer = exchange(&mut second, &Scanner::registration());
    let scanner = match Scanner::registered(&answer) {
        Ok(scanner) => scanner,
        Err(error) => panic!("{}", error.message()),
    };
    assert_ne!(scanner.session(), 0);
    let answer = exchange(&mut second, &scanner.get_request(7).expect("get"));
    let error = Scanner::got(&answer).expect_err("no assembly 7");
    assert!(error.message().contains("0x05"), "{}", error.message());
    let request = scanner.set_request(150, &[9, 9]).expect("set");
    let answer = exchange(&mut second, &request);
    assert_eq!(Scanner::was_set(&answer), Ok(()));
    let mut farewell = Vec::new();
    scanner.unregister(&mut farewell);
    let mut silence = Vec::new();
    assert_eq!(
        second.serve(&mut farewell.as_slice(), &mut silence),
        Ok(())
    );
    assert!(silence.is_empty());
    assert_eq!(
        second.assembly(150).map(<[u8]>::to_vec),
        Some(vec![9, 9])
    );
}

#[test]
fn a_target_names_the_instance_and_what_is_not_enip_is_refused() {
    let near = EtherNetIpTransport::new("127.0.0.1:1");
    assert_eq!(
        near.resolve("enip://plc:44818/150").expect("resolved"),
        ("plc:44818".to_string(), 150)
    );
    assert_eq!(near.resolve("plc:44818").expect("bare").1, 100);
    assert!(near.resolve("enip://plc/many").is_err());
    let mut written = Vec::new();
    let error = EtherNetIpTransport::new("127.0.0.1:0")
        .timing_out_after(Duration::from_secs(2))
        .send(
            "127.0.0.1:4000",
            b"x",
            &mut &b"220 mail.example ESMTP\r\n"[..],
            &mut written,
        )
        .expect_err("refused");
    assert_eq!(error, Error::OptionsNotZero);
    assert!(error.is_protocol(), "{}", error.message());
}

#[test]
fn the_near_end_of_a_loopback_is_like_the_far_end() {
    let near = EtherNetIpTransport::loopback(Duration::from_secs(2))
        .about(7)
        .near_end(FALLBACK);
    assert_eq!(near.address(), "127.0.0.1:0");
    assert_eq!(near.instance(), 7);
    assert_eq!(near.timeout(), Some(Duration::from_secs(2)));
    assert_eq!(near.resolve("plc:1"), Ok(("plc:1".to_string(), 7)));
    let near = EtherNetIpTransport::new("elsewhere:1").near_end(FALLBACK);
    assert_eq!(near.address(), "127.0.0.1:0");
    assert_eq!(near.instance(), 100);
    assert_eq!(near.timeout(), Some(FALLBACK));
}

#[test]
fn a_target_without_an_instance_names_the_configured() {
    let near = EtherNetIpTransport::new("here").about(9);
    assert_eq!(near.instance(), 9);
    for target in ["enip://plc:44818", "enip://plc:44818/"] {
        assert_eq!(
            near.resolve(target).expect("resolved"),
            ("plc:44818".to_string(), 9)
        );
    }
    assert_eq!(
        near.resolve("http://plc/150").expect("an address"),
        ("http://plc/150".to_string(), 9)
    );
    assert_eq!(
        near.resolve_parts("whatever", Some(("plc", "255"))),
        Ok(("plc".to_string(), 255))
    );
    assert_eq!(
        near.resolve_parts("whatever", None),
        Ok(("whatever".to_string(), 9))
    );
    assert_eq!(
        near.resolve_parts("whatever", Some(("plc", "256"))),
        Err(Error::NotAnInstance("256".to_string()))
    );
}

#[test]
fn every_instance_can_be_named() {
    let near = EtherNetIpTransport::new("here");
    for instance in 0..=255u8 {
        assert_eq!(
            near.resolve(&format!("enip://h/{instance}")),
            Ok(("h".to_string(), instance))
        );
    }
}

#[test]
fn an_instance_is_spelled_in_decimal() {
    assert_eq!(parse_byte("0"), Some(0));
    assert_eq!(parse_byte("+7"), Some(7));
    assert_eq!(parse_byte("0000000255"), Some(255));
    for number in ["", "+", "-1", "256", "99999999999999999999", "1 ", "0x1", "++1", "\u{661}"] {
        assert_eq!(parse_byte(number), None, "{number:?}");
        assert!(number.parse::<u8>().is_err());
    }
}

#[test]
fn a_uri_is_split_at_its_first_slash() {
    assert_eq!(split_uri("enip://", "enip://a/b/c"), Some(("a", "b/c")));
    assert_eq!(split_uri("enip://", "enip://"), Some(("", "")));
    assert_eq!(split_uri("enip://", "enip:/"), None);
    assert_eq!(split_uri("enip://", "ENIP://a"), None);
    assert_eq!(split_uri("enip://", "enip://\u{e9}/\u{e8}"), Some(("\u{e9}", "\u{e8}")));
}

#[test]
fn a_target_that_names_no_assembly_sends_nothing() {
    let near = EtherNetIpTransport::new("here");
    let mut reader: &[u8] = &[1, 2, 3];
    let mut written = vec![7];
    assert_eq!(
        near.send("enip://plc/many", b"x", &mut reader, &mut written),
        Err(Error::NotAnInstance("many".to_string()))
    );
    assert_eq!(reader, [1, 2, 3]);
    assert_eq!(written, [7]);
}

#[test]
fn over_the_ceiling_the_loopback_sends_nothing_and_a_send_only_registers() {
    let near = EtherNetIpTransport::new("here");
    let big = vec![0; CEILING + 1];
    let mut written = Vec::new();
    assert_eq!(
        near.send_to("plc", &big, FALLBACK, &mut &[][..], &mut written),
        Err(Error::OverCeiling)
    );
    assert!(written.is_empty());
    let mut answers = Vec::new();
    Adapter::accept(PEER)
        .serve(&mut Scanner::registration().as_slice(), &mut answers)
        .expect("registered");
    assert_eq!(
        near.send("plc", &big, &mut answers.as_slice(), &mut written),
        Err(Error::OverCeiling)
    );
    assert_eq!(written, Scanner::registration());
    assert_eq!(within_ceiling(CEILING), Ok(()));
    assert_eq!(within_ceiling(CEILING + 1), Err(Error::OverCeiling));
}

#[test]
fn an_adapter_without_the_assembly_has_nothing_to_hand_on() {
    let adapter = Adapter::accept(PEER).with_assembly(5, vec![1]);
    assert_eq!(arrived_at(&adapter, 6), Err(Error::AssemblyMissing));
    assert_eq!(
        arrived_at(&adapter, 5),
        Ok(Arrived {
            origin_uri: "enip://127.0.0.1:50123/assembly/5".to_string(),
            bytes: vec![1],
        })
    );
}

#[test]
fn a_stream_cut_off_is_an_error_to_the_one_who_takes_it() {
    let taking = EtherNetIpTransport::new("here");
    let registration = Scanner::registration();
    let mut answers = Vec::new();
    assert_eq!(
        taking.take_one(PEER, &mut &registration[..20], &mut answers),
        Err(Error::HeaderCut)
    );
    assert!(answers.is_empty());
}

#[test]
fn an_error_says_what_is_wrong() {
    assert_eq!(
        Error::NotAnInstance("many".to_string()).message(),
        "\"many\" is not an assembly instance"
    );
    assert_eq!(
        Error::NotAnInstance("a\"\n".to_string()).message(),
        "\"a\\\"\\n\" is not an assembly instance"
    );
    assert_eq!(
        Error::NotLogical(0x28).message(),
        "segment 0x28 is not a logical class, instance or attribute"
    );
    assert_eq!(
        Error::GeneralStatus(0xfe).message(),
        "the adapter answered general status 0xfe"
    );
    assert_eq!(
        Error::PacketTooLong.message(),
        "over what one encapsulation packet carries"
    );
    assert_eq!(
        Error::TooFewItems.message(),
        "fewer than two items in SendRRData"
    );
    assert!(!Error::HeaderCut.is_protocol());
    assert!(!Error::DataCut.is_protocol());
    assert!(Error::ClosedBeforeAnswering.is_protocol());
}
