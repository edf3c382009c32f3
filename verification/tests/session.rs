use ethernet_ip::adapter::{origin_uri, COMMAND_REFUSED, SESSION};
use ethernet_ip::cip::{
    ASSEMBLY, DATA_ATTRIBUTE, GET_ATTRIBUTE_SINGLE, PATH_DESTINATION_UNKNOWN,
    SERVICE_NOT_SUPPORTED, SET_ATTRIBUTE_SINGLE, SUCCESS,
};
use ethernet_ip::encapsulation::{
    register_data, rr_data, REGISTER_SESSION, SEND_RR_DATA, UNREGISTER_SESSION,
};
use ethernet_ip::{Adapter, Error, Packet, Path, Reply, Request, Scanner, CEILING};

const PEER: &str = "10.0.0.7:2222";

fn answer_to(adapter: &mut Adapter, packet: Packet) -> Packet {
    let bytes = adapter.answer(packet).expect("dealt with").expect("answer");
    Packet::read(&mut bytes.as_slice())
        .expect("read")
        .expect("packet")
}

fn scanner_on(adapter: &mut Adapter) -> Scanner {
    let registration = Packet::new(REGISTER_SESSION, 0, register_data());
    match Scanner::registered(&answer_to(adapter, registration)) {
        Ok(scanner) => scanner,
        Err(error) => panic!("{}", error.message()),
    }
}

fn ask(adapter: &mut Adapter, request: &[u8]) -> Packet {
    let packet = Packet::read(&mut &request[..])
        .expect("read")
        .expect("packet");
    answer_to(adapter, packet)
}

fn request(service: u8, class: u16, instance: u16, attribute: u16, data: &[u8]) -> Request {
    Request {
        service,
        path: Path {
            class,
            instance,
            attribute,
        },
        data: data.to_vec(),
    }
}

#[test]
fn a_get_gives_back_what_a_set_wrote() {
    for length in [0, 1, 250, CEILING] {
        let bytes: Vec<u8> = (0..length).map(|n| (n % 253) as u8).collect();
        let mut adapter = Adapter::accept(PEER)
            .with_assembly(3, vec![1])
            .with_assembly(4, vec![2]);
        let scanner = scanner_on(&mut adapter);
        let set = scanner.set_request(3, &bytes).expect("set");
        let answer = ask(&mut adapter, &set);
        assert!(Scanner::accept(SET_ATTRIBUTE_SINGLE, &answer).is_ok());
        let answer = ask(&mut adapter, &scanner.get_request(3).expect("get"));
        let reply = Scanner::accept(GET_ATTRIBUTE_SINGLE, &answer).expect("reply");
        assert_eq!(reply.data, bytes);
        assert_eq!(adapter.assembly(4), Some(&[2][..]));
    }
}

#[test]
fn what_is_not_there_is_refused_and_nothing_changes() {
    let mut adapter = Adapter::accept(PEER).with_assembly(3, vec![1]);
    let refused = |service: u8| Reply::to(service, PATH_DESTINATION_UNKNOWN, vec![]);
    for service in [GET_ATTRIBUTE_SINGLE, SET_ATTRIBUTE_SINGLE, 0x01] {
        for (class, instance, attribute) in [
            (5, 3, DATA_ATTRIBUTE),
            (ASSEMBLY, 3, 4),
            (ASSEMBLY, 4, DATA_ATTRIBUTE),
            (ASSEMBLY, 0x0103, DATA_ATTRIBUTE),
        ] {
            assert_eq!(
                adapter.explicit(&request(service, class, instance, attribute, &[9])),
                refused(service)
            );
        }
    }
    assert_eq!(adapter.assembly(3), Some(&[1][..]));
    assert_eq!(adapter.assembly(4), None);
}

#[test]
fn an_instance_past_a_byte_is_not_there() {
    let mut adapter = Adapter::accept(PEER)
        .with_assembly(255, vec![8])
        .with_assembly(44, vec![7]);
    for service in [GET_ATTRIBUTE_SINGLE, SET_ATTRIBUTE_SINGLE] {
        for instance in [256, 300, 0xffff] {
            assert_eq!(
                adapter.explicit(&request(service, ASSEMBLY, instance, DATA_ATTRIBUTE, &[9])),
                Reply::to(service, PATH_DESTINATION_UNKNOWN, vec![])
            );
        }
    }
    assert_eq!(adapter.assembly(255), Some(&[8][..]));
    assert_eq!(adapter.assembly(44), Some(&[7][..]));
    let get = request(GET_ATTRIBUTE_SINGLE, ASSEMBLY, 255, DATA_ATTRIBUTE, &[]);
    assert_eq!(
        adapter.explicit(&get),
        Reply::to(GET_ATTRIBUTE_SINGLE, SUCCESS, vec![8])
    );
}

#[test]
fn a_get_gives_what_was_last_set() {
    let mut adapter = Adapter::accept(PEER)
        .with_assembly(3, vec![1])
        .with_assembly(4, vec![2]);
    for (service, instance, data) in [
        (SET_ATTRIBUTE_SINGLE, 3, vec![5]),
        (SET_ATTRIBUTE_SINGLE, 3, vec![6, 6]),
        (SET_ATTRIBUTE_SINGLE, 4, vec![7]),
        (SET_ATTRIBUTE_SINGLE, 0x0103, vec![8]),
        (GET_ATTRIBUTE_SINGLE, 3, vec![9]),
        (0x01, 3, vec![9]),
    ] {
        adapter.explicit(&request(service, ASSEMBLY, instance, DATA_ATTRIBUTE, &data));
    }
    let get = request(GET_ATTRIBUTE_SINGLE, ASSEMBLY, 3, DATA_ATTRIBUTE, &[]);
    assert_eq!(
        adapter.explicit(&get),
        Reply::to(GET_ATTRIBUTE_SINGLE, SUCCESS, vec![6, 6])
    );
}

#[test]
fn another_service_is_not_supported() {
    let mut adapter = Adapter::accept(PEER).with_assembly(3, vec![1]);
    assert_eq!(
        adapter.explicit(&request(0x01, ASSEMBLY, 3, DATA_ATTRIBUTE, &[9])),
        Reply::to(0x01, SERVICE_NOT_SUPPORTED, vec![])
    );
    assert_eq!(adapter.assembly(3), Some(&[1][..]));
}

#[test]
fn without_the_session_nothing_is_done() {
    let mut adapter = Adapter::accept(PEER).with_assembly(3, vec![1]);
    let mut other = Adapter::accept(PEER);
    let scanner = scanner_on(&mut other);
    let set = scanner.set_request(3, &[9]).expect("set");
    let answer = ask(&mut adapter, &set);
    assert_eq!(answer.command, SEND_RR_DATA);
    assert_eq!(answer.status, COMMAND_REFUSED);
    assert!(answer.data.is_empty());
    assert_eq!(
        Scanner::accept(SET_ATTRIBUTE_SINGLE, &answer),
        Err(Error::RrDataRefused)
    );
    scanner_on(&mut adapter);
    let elsewhere = Packet::new(SEND_RR_DATA, SESSION + 1, vec![]);
    assert_eq!(answer_to(&mut adapter, elsewhere).status, COMMAND_REFUSED);
    assert_eq!(adapter.assembly(3), Some(&[1][..]));
}

#[test]
fn an_answer_keeps_command_and_context() {
    let mut adapter = Adapter::accept(PEER);
    for command in [REGISTER_SESSION, SEND_RR_DATA, 0x0004, 0xffff] {
        let packet = Packet {
            command,
            session: 9,
            status: 0,
            context: [8, 7, 6, 5, 4, 3, 2, 1],
            data: vec![1, 2],
        };
        let answer = answer_to(&mut adapter, packet);
        assert_eq!(answer.command, command);
        assert_eq!(answer.context, [8, 7, 6, 5, 4, 3, 2, 1]);
        if command == REGISTER_SESSION {
            assert_eq!(answer.session, SESSION);
            assert_eq!(answer.data, [1, 2]);
        } else {
            assert_eq!(answer.status, COMMAND_REFUSED);
            assert!(answer.data.is_empty());
        }
    }
}

#[test]
fn unregistering_ends_serving_and_leaves_the_rest() {
    let mut adapter = Adapter::accept(PEER);
    let mut wire = Packet::new(UNREGISTER_SESSION, 0, vec![])
        .encode()
        .expect("encode");
    wire.extend_from_slice(&[1, 2, 3]);
    let mut reader = wire.as_slice();
    let mut written = vec![5];
    assert_eq!(adapter.serve(&mut reader, &mut written), Ok(()));
    assert_eq!(reader, [1, 2, 3]);
    assert_eq!(written, [5]);
}

#[test]
fn serving_ends_where_the_scanner_does_not_speak() {
    let mut adapter = Adapter::accept(PEER);
    let scanner = scanner_on(&mut adapter);
    let mut wire = scanner.get_request(3).expect("get");
    let none = Packet::new(SEND_RR_DATA, scanner.session(), vec![0; 3]);
    wire.extend_from_slice(&none.encode().expect("encode"));
    let mut written = Vec::new();
    assert_eq!(
        adapter.serve(&mut wire.as_slice(), &mut written),
        Err(Error::ItemsCut)
    );
    let mut answers = written.as_slice();
    let answer = Packet::read(&mut answers).expect("read").expect("packet");
    assert!(answers.is_empty());
    assert_eq!(
        Scanner::accept(GET_ATTRIBUTE_SINGLE, &answer),
        Err(Error::GeneralStatus(PATH_DESTINATION_UNKNOWN))
    );
    let reply = Packet::new(
        SEND_RR_DATA,
        scanner.session(),
        rr_data(&[0x8e, 0]).expect("rr"),
    );
    assert_eq!(adapter.answer(reply), Err(Error::ReplyNotRequest));
}

#[test]
fn an_assembly_over_what_comes_back_in_a_packet_fails() {
    let mut adapter = Adapter::accept(PEER)
        .with_assembly(1, vec![0; 65_515])
        .with_assembly(2, vec![0; 65_516])
        .with_assembly(3, vec![0; 65_532]);
    let scanner = scanner_on(&mut adapter);
    let answer = ask(&mut adapter, &scanner.get_request(1).expect("get"));
    let reply = Scanner::accept(GET_ATTRIBUTE_SINGLE, &answer).expect("reply");
    assert_eq!(reply.data.len(), 65_515);
    for (instance, error) in [(2, Error::PacketTooLong), (3, Error::ItemTooLong)] {
        let get = scanner.get_request(instance).expect("get");
        let mut answers = Vec::new();
        assert_eq!(
            adapter.serve(&mut get.as_slice(), &mut answers),
            Err(error)
        );
        assert!(answers.is_empty());
    }
}

#[test]
fn an_answer_that_registers_nothing_is_refused() {
    let good = Packet::new(REGISTER_SESSION, 5, register_data());
    assert!(matches!(Scanner::registered(&good), Ok(scanner) if scanner.session() == 5));
    let mut other = good.clone();
    other.command = SEND_RR_DATA;
    let mut failed = good.clone();
    failed.status = 1;
    let mut without = good;
    without.session = 0;
    for answer in [other, failed, without] {
        assert!(matches!(
            Scanner::registered(&answer),
            Err(Error::NotRegistered)
        ));
    }
}

#[test]
fn an_answer_to_something_else_is_refused() {
    let carrying = |reply: Reply| {
        Packet::new(SEND_RR_DATA, 1, rr_data(&reply.encode()).expect("rr"))
    };
    let get = carrying(Reply::to(GET_ATTRIBUTE_SINGLE, SUCCESS, vec![4]));
    assert_eq!(
        Scanner::accept(GET_ATTRIBUTE_SINGLE, &get).expect("reply").data,
        [4]
    );
    assert_eq!(
        Scanner::accept(SET_ATTRIBUTE_SINGLE, &get),
        Err(Error::OtherService)
    );
    assert_eq!(Scanner::got(&get), Ok(vec![4]));
    assert_eq!(Scanner::was_set(&get), Err(Error::OtherService));
    let set = carrying(Reply::to(SET_ATTRIBUTE_SINGLE, SUCCESS, vec![]));
    assert_eq!(Scanner::was_set(&set), Ok(()));
    assert_eq!(Scanner::got(&set), Err(Error::OtherService));
    let failed = carrying(Reply::to(GET_ATTRIBUTE_SINGLE, 0x1f, vec![]));
    assert_eq!(
        Scanner::accept(GET_ATTRIBUTE_SINGLE, &failed),
        Err(Error::GeneralStatus(0x1f))
    );
    assert_eq!(Scanner::got(&failed), Err(Error::GeneralStatus(0x1f)));
    let full = carrying(Reply::to(SET_ATTRIBUTE_SINGLE, 0x0e, vec![]));
    assert_eq!(Scanner::was_set(&full), Err(Error::GeneralStatus(0x0e)));
    let mut refused = get.clone();
    refused.status = 2;
    assert_eq!(Scanner::got(&refused), Err(Error::RrDataRefused));
    assert_eq!(Scanner::was_set(&refused), Err(Error::RrDataRefused));
    assert_eq!(
        Scanner::accept(GET_ATTRIBUTE_SINGLE, &refused),
        Err(Error::RrDataRefused)
    );
    let mut empty = get;
    empty.data = vec![];
    assert_eq!(
        Scanner::accept(GET_ATTRIBUTE_SINGLE, &empty),
        Err(Error::ItemsCut)
    );
}

#[test]
fn a_scanner_talks_over_two_ends_held_as_bytes() {
    let mut answers = Packet::new(REGISTER_SESSION, 0x0a0b, register_data())
        .encode()
        .expect("encode");
    let reply = Reply::to(GET_ATTRIBUTE_SINGLE, SUCCESS, vec![6, 7]);
    let carried = rr_data(&reply.encode()).expect("rr");
    answers.extend(
        Packet::new(SEND_RR_DATA, 0x0a0b, carried)
            .encode()
            .expect("encode"),
    );
    let mut reader = answers.as_slice();
    let mut written = Vec::new();
    let scanner = match Scanner::connect(&mut reader, &mut written) {
        Ok(scanner) => scanner,
        Err(error) => panic!("{}", error.message()),
    };
    assert_eq!(scanner.session(), 0x0a0b);
    assert_eq!(
        scanner.get(12, &mut reader, &mut written),
        Ok(vec![6, 7])
    );
    assert!(reader.is_empty());
    assert_eq!(
        scanner.set(12, &[1], &mut reader, &mut written),
        Err(Error::ClosedBeforeAnswering)
    );
    let expected: Vec<u8> = [
        Scanner::registration(),
        scanner.get_request(12).expect("get"),
        scanner.set_request(12, &[1]).expect("set"),
        scanner.farewell(),
    ]
    .concat();
    scanner.unregister(&mut written);
    assert_eq!(written, expected);
}

#[test]
fn the_ceiling_is_what_one_message_carries() {
    let mut adapter = Adapter::accept(PEER);
    let scanner = scanner_on(&mut adapter);
    assert!(scanner.ask(SET_ATTRIBUTE_SINGLE, 255, &vec![0; CEILING]).is_ok());
    assert_eq!(
        scanner.ask(SET_ATTRIBUTE_SINGLE, 255, &vec![0; CEILING + 1]),
        Err(Error::PacketTooLong)
    );
    assert_eq!(
        scanner.ask(SET_ATTRIBUTE_SINGLE, 255, &vec![0; 65_528]),
        Err(Error::ItemTooLong)
    );
    assert_eq!(
        scanner.set_request(255, &vec![0; CEILING + 1]),
        Err(Error::OverCeiling)
    );
}

#[test]
fn the_origin_names_the_peer_and_the_assembly() {
    let adapter = Adapter::accept(PEER);
    assert_eq!(adapter.origin(0), "enip://10.0.0.7:2222/assembly/0");
    assert_eq!(adapter.origin(42), "enip://10.0.0.7:2222/assembly/42");
    assert_eq!(origin_uri("host", 255), "enip://host/assembly/255");
    assert_eq!(origin_uri("host", 100), "enip://host/assembly/100");
}
