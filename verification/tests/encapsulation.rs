use ethernet_ip::encapsulation::{
    register_data, rr_cip, rr_data, Head, HEADER, PORT, REGISTER_SESSION, RR_OVERHEAD, SEND_RR_DATA,
};
use ethernet_ip::{Error, Packet};

#[test]
fn a_packet_round_trips_with_its_header() {
    let packet = Packet::new(REGISTER_SESSION, 0, register_data());
    let wire = packet.encode().expect("encode");
    assert_eq!(wire.len(), 28);
    assert_eq!(&wire[..4], &[0x65, 0x00, 0x04, 0x00]);
    assert_eq!(
        Packet::read(&mut wire.as_slice()).expect("read"),
        Some(packet)
    );
    assert!(Packet::read(&mut &[][..]).expect("closed").is_none());
    assert!(Packet::read(&mut &wire[..10]).is_err(), "closed mid-header");
    let mut options = wire.clone();
    options[20] = 1;
    assert!(Packet::read(&mut options.as_slice()).is_err(), "options");
    assert!(Packet::new(SEND_RR_DATA, 1, vec![0; 65_536])
        .encode()
        .is_err());
}

#[test]
fn send_rr_data_wraps_cip_in_two_items_and_unwraps_it() {
    let data = rr_data(&[0x0e, 3, 0x20, 4, 0x24, 100, 0x30, 3]).expect("rr");
    assert_eq!(data.len(), RR_OVERHEAD + 8);
    assert_eq!(&data[6..8], &[2, 0], "two items");
    assert_eq!(&data[12..16], &[0xb2, 0x00, 8, 0]);
    assert_eq!(
        rr_cip(&data).expect("cip"),
        [0x0e, 3, 0x20, 4, 0x24, 100, 0x30, 3]
    );
    assert!(rr_cip(&data[..10]).is_err(), "short");
    let mut one = data.clone();
    one[6] = 1;
    assert!(rr_cip(&one).is_err(), "one item");
    let mut connected = data.clone();
    connected[8] = 0xa1;
    assert!(rr_cip(&connected).is_err(), "a connected address");
    let mut wrong = data.clone();
    wrong[12] = 0xb1;
    assert!(rr_cip(&wrong).is_err(), "connected data");
    let mut past = data;
    past[14] = 9;
    assert!(rr_cip(&past).is_err(), "past the end");
}

#[test]
fn a_packet_is_its_fields_little_endian() {
    let packet = Packet {
        command: 0x1234,
        session: 0x0102_0304,
        status: 0xa0b0_c0d0,
        context: [1, 2, 3, 4, 5, 6, 7, 8],
        data: vec![0xff],
    };
    let wire = packet.encode().expect("encode");
    assert_eq!(
        wire,
        [
            0x34, 0x12, 1, 0, 4, 3, 2, 1, 0xd0, 0xc0, 0xb0, 0xa0, 1, 2, 3, 4, 5, 6, 7, 8, 0, 0, 0,
            0, 0xff
        ]
    );
    let mut reader = wire.as_slice();
    let back = Packet::read(&mut reader).expect("read").expect("packet");
    assert_eq!(back, packet);
    assert_eq!(back.encode().expect("again"), wire);
}

#[test]
fn what_comes_behind_a_packet_is_left() {
    let mut wire = Packet::new(SEND_RR_DATA, 7, vec![1, 2])
        .encode()
        .expect("encode");
    wire.extend_from_slice(&[9, 8, 7]);
    let mut reader = wire.as_slice();
    let packet = Packet::read(&mut reader).expect("read").expect("packet");
    assert_eq!(packet.data, [1, 2]);
    assert_eq!(reader, [9, 8, 7]);
}

#[test]
fn each_refusal_of_a_packet_has_its_reason_and_its_place() {
    let wire = Packet::new(SEND_RR_DATA, 7, vec![1, 2])
        .encode()
        .expect("encode");
    let mut reader = &wire[..23];
    assert_eq!(Packet::read(&mut reader), Err(Error::HeaderCut));
    assert!(reader.is_empty());
    let mut reader = &wire[..25];
    assert_eq!(Packet::read(&mut reader), Err(Error::DataCut));
    assert!(reader.is_empty());
    for at in 20..24 {
        let mut options = wire.clone();
        options[at] = 1;
        let mut reader = options.as_slice();
        assert_eq!(Packet::read(&mut reader), Err(Error::OptionsNotZero));
        assert_eq!(reader, [1, 2]);
    }
    assert_eq!(
        Packet::new(SEND_RR_DATA, 1, vec![0; 65_536]).encode(),
        Err(Error::PacketTooLong)
    );
    let brim = Packet::new(SEND_RR_DATA, 1, vec![5; 65_535]);
    let wire = brim.encode().expect("the brim");
    assert_eq!(wire.len(), HEADER + 65_535);
    assert_eq!(Packet::read(&mut wire.as_slice()), Ok(Some(brim)));
}

#[test]
fn a_head_and_its_data_are_the_packet() {
    let packet = Packet::new(REGISTER_SESSION, 3, register_data());
    let wire = packet.encode().expect("encode");
    let head = Head::decode(&wire[..HEADER]).expect("head");
    assert_eq!(head.length, 4);
    assert_eq!(head.carrying(wire[HEADER..].to_vec()), packet);
    assert_eq!(Head::decode(&wire[..HEADER - 1]), Err(Error::HeaderCut));
}

#[test]
fn each_refusal_of_send_rr_data_has_its_reason() {
    let data = rr_data(&[1, 2, 3]).expect("rr");
    assert_eq!(rr_cip(&data[..15]), Err(Error::ItemsCut));
    let mut one = data.clone();
    one[6] = 1;
    assert_eq!(rr_cip(&one), Err(Error::TooFewItems));
    let mut three = data.clone();
    three[6] = 3;
    three.push(0xee);
    assert_eq!(rr_cip(&three), Ok(vec![1, 2, 3]));
    let mut connected = data.clone();
    connected[8] = 0xa1;
    assert_eq!(rr_cip(&connected), Err(Error::AddressNotNull));
    let mut wrong = data.clone();
    wrong[12] = 0xb1;
    assert_eq!(rr_cip(&wrong), Err(Error::DataNotUnconnected));
    assert_eq!(rr_cip(&data[..18]), Err(Error::ItemPastEnd));
    assert_eq!(rr_data(&vec![0; 65_536]), Err(Error::ItemTooLong));
    assert_eq!(rr_cip(&rr_data(&[]).expect("empty")), Ok(vec![]));
}

#[test]
fn an_adapter_listens_on_its_port() {
    assert_eq!(PORT, 44_818);
}
