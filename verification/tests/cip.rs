use ethernet_ip::cip::{
    ASSEMBLY, DATA_ATTRIBUTE, GET_ATTRIBUTE_SINGLE, PATH_DESTINATION_UNKNOWN, REQUEST_OVERHEAD,
    SET_ATTRIBUTE_SINGLE, SUCCESS,
};
use ethernet_ip::{Error, Path, Reply, Request};

#[test]
fn a_set_of_an_assembly_attribute_round_trips() {
    let request = Request {
        service: SET_ATTRIBUTE_SINGLE,
        path: Path {
            class: ASSEMBLY,
            instance: 100,
            attribute: DATA_ATTRIBUTE,
        },
        data: vec![1, 2, 3],
    };
    let wire = request.encode();
    assert_eq!(wire, [0x10, 3, 0x20, 4, 0x24, 100, 0x30, 3, 1, 2, 3]);
    assert_eq!(wire.len(), REQUEST_OVERHEAD + 3);
    assert_eq!(Request::decode(&wire).expect("decode"), request);
    let long_path = Path {
        class: 0x1234,
        instance: 300,
        attribute: 1,
    };
    assert_eq!(
        long_path.encode(),
        [0x21, 0, 0x34, 0x12, 0x25, 0, 0x2c, 0x01, 0x30, 1]
    );
    assert_eq!(Path::decode(&long_path.encode()).expect("long"), long_path);
}

#[test]
fn a_reply_carries_its_status_and_skips_additional_status() {
    let reply = Reply::to(GET_ATTRIBUTE_SINGLE, SUCCESS, vec![9, 9]);
    assert_eq!(reply.encode(), [0x8e, 0, 0, 0, 9, 9]);
    assert_eq!(Reply::decode(&reply.encode()).expect("decode"), reply);
    let extended = [0x90, 0, PATH_DESTINATION_UNKNOWN, 1, 0x34, 0x12, 7];
    let back = Reply::decode(&extended).expect("decode");
    assert_eq!(back.status, PATH_DESTINATION_UNKNOWN);
    assert_eq!(back.data, [7]);
}

#[test]
fn what_is_not_cip_is_refused() {
    assert!(Request::decode(&[]).is_err(), "empty");
    assert!(Request::decode(&[0x8e, 0]).is_err(), "a reply");
    assert!(Request::decode(&[0x0e]).is_err(), "no path size");
    assert!(
        Request::decode(&[0x0e, 3, 0x20, 4]).is_err(),
        "path past the end"
    );
    assert!(
        Request::decode(&[0x0e, 1, 0x28, 4]).is_err(),
        "not a logical segment"
    );
    assert!(Path::decode(&[0x21, 0, 0x34]).is_err(), "cut short");
    assert!(Path::decode(&[0x20]).is_err(), "cut short");
    assert!(Reply::decode(&[0x8e, 0, 0]).is_err(), "short");
    assert!(Reply::decode(&[0x0e, 0, 0, 0]).is_err(), "a request");
    assert!(
        Reply::decode(&[0x8e, 0, 0, 4]).is_err(),
        "additional past the end"
    );
}

#[test]
fn each_refusal_of_a_request_has_its_reason() {
    assert_eq!(Request::decode(&[]), Err(Error::EmptyRequest));
    assert_eq!(Request::decode(&[0x8e, 0]), Err(Error::ReplyNotRequest));
    assert_eq!(Request::decode(&[0x8e]), Err(Error::ReplyNotRequest));
    assert_eq!(Request::decode(&[0x0e]), Err(Error::NoPathSize));
    assert_eq!(
        Request::decode(&[0x0e, 3, 0x20, 4]),
        Err(Error::PathPastEnd)
    );
    assert_eq!(
        Request::decode(&[0x0e, 1, 0x28, 4]),
        Err(Error::NotLogical(0x28))
    );
}

#[test]
fn each_refusal_of_a_reply_has_its_reason() {
    assert_eq!(Reply::decode(&[0x8e, 0, 0]), Err(Error::ReplyCut));
    assert_eq!(Reply::decode(&[0x0e, 0, 0, 0]), Err(Error::RequestNotReply));
    assert_eq!(
        Reply::decode(&[0x8e, 0, 0, 4, 1, 2]),
        Err(Error::AdditionalPastEnd)
    );
}

#[test]
fn a_path_may_name_less_and_name_it_twice() {
    assert_eq!(
        Path::decode(&[]),
        Ok(Path {
            class: 0,
            instance: 0,
            attribute: 0
        })
    );
    assert_eq!(
        Path::decode(&[0x24, 7, 0x25, 0xff, 0x34, 0x12]),
        Ok(Path {
            class: 0,
            instance: 0x1234,
            attribute: 0
        })
    );
}

#[test]
fn a_segment_cut_short_is_told_before_its_kind() {
    assert_eq!(Path::decode(&[0x28]), Err(Error::SegmentCut));
    assert_eq!(Path::decode(&[0x29, 0, 1]), Err(Error::SegmentCut));
    assert_eq!(Path::decode(&[0x29, 0, 1, 2]), Err(Error::NotLogical(0x28)));
    assert_eq!(Path::decode(&[0x20, 4, 0x24]), Err(Error::SegmentCut));
}

#[test]
fn a_path_is_whole_words() {
    for (class, instance, attribute, length) in
        [(4, 100, 3, 6), (255, 256, 3, 8), (256, 256, 3, 10), (300, 300, 300, 12)]
    {
        let path = Path {
            class,
            instance,
            attribute,
        };
        assert_eq!(path.encode().len(), length);
        assert_eq!(Path::decode(&path.encode()), Ok(path));
    }
}

#[test]
fn a_reply_is_no_request_and_a_request_no_reply() {
    let reply = Reply::to(SET_ATTRIBUTE_SINGLE, SUCCESS, vec![1, 2, 3, 4]);
    assert_eq!(reply.service, 0x90);
    assert_eq!(Reply::to(0x90, SUCCESS, vec![]).service, 0x90);
    assert_eq!(
        Request::decode(&reply.encode()),
        Err(Error::ReplyNotRequest)
    );
    let request = Request {
        service: GET_ATTRIBUTE_SINGLE,
        path: Path {
            class: ASSEMBLY,
            instance: 1,
            attribute: DATA_ATTRIBUTE,
        },
        data: vec![],
    };
    assert_eq!(
        Reply::decode(&request.encode()),
        Err(Error::RequestNotReply)
    );
}
