//! What each operation gives its callers, told in what goes in and what
//! comes out: the bytes of a message, the fields that are read from one, the
//! address and the instance of a target, and what becomes of an assembly.
use std::time::Duration;
use vstd::prelude::*;

use crate::adapter;
use crate::adapter::Adapter;
use crate::cip;
use crate::cip::Path;
use crate::cip::Reply;
use crate::cip::ReplyView;
use crate::cip::Request;
use crate::cip::RequestView;
use crate::encapsulation;
use crate::encapsulation::Head;
use crate::encapsulation::Packet;
use crate::error::Error;
use crate::scanner;
use crate::scanner::Scanner;
use crate::session;
use crate::text;
use crate::transport;
use crate::transport::Arrived;
use crate::transport::EtherNetIpTransport;
use crate::wire;

verus! {

/// An integer is written behind what is there, its low byte first.
pub proof fn law_integers_are_written_low_byte_first(
    short: &mut Vec<u8>,
    word: u16,
    long: &mut Vec<u8>,
    value: u32,
)
    requires
        call_ensures(wire::push_word, (short, word), ()),
        call_ensures(wire::push_long, (long, value), ()),
    ensures
        ({
            let at = old(short)@.len() as int;
            let out = final(short)@;
            &&& out.len() == at + 2
            &&& out.take(at) == old(short)@
            &&& out[at] + 0x100 * out[at + 1] == word
        }),
        ({
            let at = old(long)@.len() as int;
            let out = final(long)@;
            &&& out.len() == at + 4
            &&& out.take(at) == old(long)@
            &&& out[at] + 0x100 * out[at + 1] + 0x1_0000 * out[at + 2] + 0x100_0000 * out[at + 3]
                == value
        }),
{
    wire::law_a_word_is_low_byte_first(word);
    wire::law_a_long_is_low_byte_first(value);
    assert(final(short)@.take(old(short)@.len() as int) =~= old(short)@);
    assert(final(long)@.take(old(long)@.len() as int) =~= old(long)@);
}

/// An integer is read where it is asked for, its low byte first.
pub proof fn law_integers_are_read_low_byte_first(bytes: &[u8], at: usize, word: u16, long: u32)
    requires
        at + 4 <= bytes@.len(),
        call_ensures(wire::word, (bytes, at), word),
        call_ensures(wire::long, (bytes, at), long),
    ensures
        word == bytes@[at as int] + 0x100 * bytes@[at + 1],
        long == bytes@[at as int] + 0x100 * bytes@[at + 1] + 0x1_0000 * bytes@[at + 2]
            + 0x100_0000 * bytes@[at + 3],
{
    wire::law_what_is_read_is_low_byte_first(bytes@, at as int);
}

/// A new packet has what it was given, no status and a context of zeros.
pub proof fn law_a_packet_is_made_of_what_is_given(
    command: u16,
    session: u32,
    data: Vec<u8>,
    packet: Packet,
)
    requires
        call_ensures(Packet::new, (command, session, data), packet),
    ensures
        packet.command == command,
        packet.session == session,
        packet.status == 0,
        forall|i: int| 0 <= i < 8 ==> #[trigger] packet.context@[i] == 0,
        packet.data@ == data@,
{
    encapsulation::law_a_new_packet_has_no_status_and_no_context(command, session, data@);
    assert(packet@.context == packet.context@);
}

/// A packet is written as its command, the length of its data, its session,
/// its status, its context, zeros and its data, and not at all where sixteen
/// bits do not count its data.
pub proof fn law_a_packet_is_written_with_its_header(
    packet: Packet,
    written: Result<Vec<u8>, Error>,
)
    requires
        call_ensures(Packet::encode, (&packet,), written),
    ensures
        packet.data@.len() > 65_535 ==> written == Err::<Vec<u8>, _>(Error::PacketTooLong),
        packet.data@.len() <= 65_535 ==> (written matches Ok(wire) && {
            &&& wire@.len() == 24 + packet.data@.len()
            &&& wire@[0] + 0x100 * wire@[1] == packet.command
            &&& wire@[2] + 0x100 * wire@[3] == packet.data@.len()
            &&& wire@[4] + 0x100 * wire@[5] + 0x1_0000 * wire@[6] + 0x100_0000 * wire@[7]
                == packet.session
            &&& wire@[8] + 0x100 * wire@[9] + 0x1_0000 * wire@[10] + 0x100_0000 * wire@[11]
                == packet.status
            &&& wire@.subrange(12, 20) == packet.context@
            &&& wire@.subrange(20, 24) == seq![0u8, 0, 0, 0]
            &&& wire@.skip(24) == packet.data@
        }),
{
    encapsulation::law_sixteen_bits_bound_a_packet(packet@);
    if packet.data@.len() <= 65_535 {
        encapsulation::law_a_packet_is_a_header_and_data(packet@);
    }
}

/// A packet is read from where its header and its length say, and what is
/// behind it is left: the first of any bytes, as far as they go.
pub proof fn law_a_packet_is_read_by_its_header(
    reader: &mut &[u8],
    read: Result<Option<Packet>, Error>,
)
    requires
        call_ensures(Packet::read, (reader,), read),
    ensures
        ({
            let wire = old(reader)@;
            &&& wire.len() == 0 ==> read == Ok::<Option<Packet>, Error>(None)
            &&& 0 < wire.len() < 24 ==> read == Err::<Option<Packet>, _>(Error::HeaderCut)
            &&& wire.len() < 24 ==> final(reader)@.len() == 0
            &&& wire.len() >= 24 ==> {
                let length = wire[2] + 0x100 * wire[3];
                if wire.subrange(20, 24) != seq![0u8, 0, 0, 0] {
                    &&& read == Err::<Option<Packet>, _>(Error::OptionsNotZero)
                    &&& final(reader)@ == wire.skip(24)
                } else if wire.len() < 24 + length {
                    &&& read == Err::<Option<Packet>, _>(Error::DataCut)
                    &&& final(reader)@.len() == 0
                } else {
                    &&& read matches Ok(Some(packet)) && {
                        &&& packet.command == wire[0] + 0x100 * wire[1]
                        &&& packet.session == wire[4] + 0x100 * wire[5] + 0x1_0000 * wire[6]
                            + 0x100_0000 * wire[7]
                        &&& packet.status == wire[8] + 0x100 * wire[9] + 0x1_0000 * wire[10]
                            + 0x100_0000 * wire[11]
                        &&& packet.context@ == wire.subrange(12, 20)
                        &&& packet.data@ == wire.subrange(24, 24 + length)
                    }
                    &&& final(reader)@ == wire.skip(24 + length)
                }
            }
        }),
{
    let wire = old(reader)@;
    encapsulation::law_what_bytes_begin_with(wire);
    if wire.len() >= 24 {
        let options = wire.subrange(20, 24);
        assert(options[0] == wire[20] && options[1] == wire[21]);
        assert(options[2] == wire[22] && options[3] == wire[23]);
        if wire[20] == 0 && wire[21] == 0 && wire[22] == 0 && wire[23] == 0 {
            assert(options =~= seq![0u8, 0, 0, 0]);
        }
        if let Ok(Some(packet)) = read {
            assert(packet@.context == packet.context@ && packet@.data == packet.data@);
        }
    }
}

/// A header is read field by field, its low bytes first, and becomes the
/// packet of these fields and of the data it is given.
pub proof fn law_a_header_becomes_its_packet(
    bytes: &[u8],
    head: Head,
    data: Vec<u8>,
    packet: Packet,
)
    requires
        call_ensures(Head::decode, (bytes,), Ok(head)),
        call_ensures(Head::carrying, (head, data), packet),
    ensures
        bytes@.len() >= 24,
        bytes@.subrange(20, 24) == seq![0u8, 0, 0, 0],
        head.length == bytes@[2] + 0x100 * bytes@[3],
        packet.command == bytes@[0] + 0x100 * bytes@[1],
        packet.session == bytes@[4] + 0x100 * bytes@[5] + 0x1_0000 * bytes@[6] + 0x100_0000
            * bytes@[7],
        packet.status == bytes@[8] + 0x100 * bytes@[9] + 0x1_0000 * bytes@[10] + 0x100_0000
            * bytes@[11],
        packet.context@ == bytes@.subrange(12, 20),
        packet.data@ == data@,
{
    wire::law_what_is_read_is_low_byte_first(bytes@, 0);
    wire::law_what_is_read_is_low_byte_first(bytes@, 2);
    wire::law_what_is_read_is_low_byte_first(bytes@, 4);
    wire::law_what_is_read_is_low_byte_first(bytes@, 8);
    assert(packet@.context == packet.context@ && packet@.data == packet.data@);
}

/// What was written is read back, field for field, and what was behind it is
/// left.
pub proof fn law_what_was_written_is_read_back(
    packet: Packet,
    written: Vec<u8>,
    rest: Seq<u8>,
    reader: &mut &[u8],
    read: Result<Option<Packet>, Error>,
)
    requires
        call_ensures(Packet::encode, (&packet,), Ok(written)),
        old(reader)@ == written@ + rest,
        call_ensures(Packet::read, (reader,), read),
    ensures
        read matches Ok(Some(back)) && {
            &&& back.command == packet.command
            &&& back.session == packet.session
            &&& back.status == packet.status
            &&& back.context@ == packet.context@
            &&& back.data@ == packet.data@
        },
        final(reader)@ == rest,
{
    law_a_packet_is_written_with_its_header(packet, Ok(written));
    encapsulation::law_packet_round_trip(packet@, rest);
}

/// A registration carries protocol version 1 and no options.
pub proof fn law_a_registration_is_for_version_one(data: Vec<u8>)
    requires
        call_ensures(encapsulation::register_data, (), data),
    ensures
        data@.len() == 4,
        data@[0] + 0x100 * data@[1] == 1,
        data@[2] + 0x100 * data@[3] == 0,
{
}

/// CIP is put behind a null address of no length and taken from there again,
/// and what sixteen bits do not count is not put anywhere.
pub proof fn law_cip_is_put_into_items(cip: &[u8], data: Result<Vec<u8>, Error>)
    requires
        call_ensures(encapsulation::rr_data, (cip,), data),
    ensures
        cip@.len() > 65_535 ==> data == Err::<Vec<u8>, _>(Error::ItemTooLong),
        cip@.len() <= 65_535 ==> (data matches Ok(data) && {
            &&& data@.len() == 16 + cip@.len()
            &&& data@.take(14) == seq![0u8, 0, 0, 0, 0, 0, 2, 0, 0, 0, 0, 0, 0xb2, 0]
            &&& data@[14] + 0x100 * data@[15] == cip@.len()
            &&& data@.skip(16) == cip@
        }),
{
    if cip@.len() <= 65_535 {
        encapsulation::law_cip_comes_behind_a_null_address(cip@);
    } else {
        encapsulation::law_sixteen_bits_bound_an_item(cip@);
    }
}

/// CIP is taken out of any items as their header says, or the items are
/// refused by what is wrong with them first.
pub proof fn law_cip_is_taken_out_of_items(data: &[u8], cip: Result<Vec<u8>, Error>)
    requires
        call_ensures(encapsulation::rr_cip, (data,), cip),
    ensures
        ({
            let items = data@;
            let length = items[14] + 0x100 * items[15];
            if items.len() < 16 {
                cip == Err::<Vec<u8>, _>(Error::ItemsCut)
            } else if items[6] + 0x100 * items[7] < 2 {
                cip == Err::<Vec<u8>, _>(Error::TooFewItems)
            } else if items[8] + 0x100 * items[9] != 0 {
                cip == Err::<Vec<u8>, _>(Error::AddressNotNull)
            } else if items[12] + 0x100 * items[13] != 0xb2 {
                cip == Err::<Vec<u8>, _>(Error::DataNotUnconnected)
            } else if items.len() < 16 + length {
                cip == Err::<Vec<u8>, _>(Error::ItemPastEnd)
            } else {
                cip matches Ok(cip) && cip@ == items.subrange(16, 16 + length)
            }
        }),
{
    encapsulation::law_what_items_carry(data@);
}

/// A path to parts that a byte counts is six bytes; in full generality it is
/// three segments, and it is read back.
pub proof fn law_a_path_is_written_and_read_back(
    path: Path,
    written: Vec<u8>,
    wire: &[u8],
    read: Result<Path, Error>,
)
    requires
        call_ensures(Path::encode, (path,), written),
        wire@ == written@,
        call_ensures(Path::decode, (wire,), read),
    ensures
        path.class < 256 && path.instance < 256 && path.attribute < 256 ==> written@ == seq![
            0x20u8,
            path.class as u8,
            0x24,
            path.instance as u8,
            0x30,
            path.attribute as u8,
        ],
        written@ == path.bytes(),
        read == Ok::<Path, Error>(path),
{
    cip::law_a_path_is_three_segments(path);
    cip::law_path_round_trip(path);
    if path.class < 256 && path.instance < 256 && path.attribute < 256 {
        assert(written@ =~= seq![
            0x20u8,
            path.class as u8,
            0x24,
            path.instance as u8,
            0x30,
            path.attribute as u8,
        ]);
    }
}

/// Any bytes are read as the path that their segments set, one behind the
/// other.
pub proof fn law_any_path_is_read_segment_by_segment(bytes: &[u8], read: Result<Path, Error>)
    requires
        call_ensures(Path::decode, (bytes,), read),
    ensures
        read == Path::decoded(bytes@),
{
}

/// A request is written as its service, the words of its path, the path and
/// its data.
pub proof fn law_a_request_is_written_service_first(request: Request, written: Vec<u8>)
    requires
        call_ensures(Request::encode, (&request,), written),
    ensures
        ({
            let path = request.path.bytes();
            &&& written@.len() == 2 + path.len() + request.data@.len()
            &&& written@[0] == request.service
            &&& 2 * written@[1] == path.len()
            &&& written@.subrange(2, 2 + path.len() as int) == path
            &&& written@.skip(2 + path.len() as int) == request.data@
        }),
{
    cip::law_a_request_is_service_path_and_data(request@);
}

/// Any bytes are read as the request whose service is the first of them, or
/// refused by what is wrong with them first.
pub proof fn law_a_request_is_read_service_first(bytes: &[u8], read: Result<Request, Error>)
    requires
        call_ensures(Request::decode, (bytes,), read),
    ensures
        ({
            let end = 2 + 2 * bytes@[1];
            if bytes@.len() == 0 {
                read == Err::<Request, _>(Error::EmptyRequest)
            } else if bytes@[0] >= 0x80 {
                read == Err::<Request, _>(Error::ReplyNotRequest)
            } else if bytes@.len() == 1 {
                read == Err::<Request, _>(Error::NoPathSize)
            } else if bytes@.len() < end {
                read == Err::<Request, _>(Error::PathPastEnd)
            } else {
                match Path::decoded(bytes@.subrange(2, end)) {
                    Ok(path) => read matches Ok(request) && {
                        &&& request.service == bytes@[0]
                        &&& request.path == path
                        &&& request.data@ == bytes@.skip(end)
                    },
                    Err(error) => read == Err::<Request, Error>(error),
                }
            }
        }),
{
    cip::law_what_request_bytes_are(bytes@);
    if let Ok(request) = read {
        assert(request@.data == request.data@);
    }
}

/// A reply is made of what it is given, the service with the reply bit, and
/// written with its status as the third byte, between zeros.
pub proof fn law_a_reply_is_made_and_written(
    service: u8,
    status: u8,
    data: Vec<u8>,
    reply: Reply,
    other: Reply,
    written: Vec<u8>,
)
    requires
        call_ensures(Reply::to, (service, status, data), reply),
        call_ensures(Reply::encode, (&other,), written),
    ensures
        reply.service == service | 0x80,
        reply.status == status,
        reply.data@ == data@,
        written@.len() == 4 + other.data@.len(),
        written@.take(4) == seq![other.service, 0, other.status, 0],
        written@.skip(4) == other.data@,
{
    cip::law_a_reply_has_what_it_was_given(service, status, data@);
    assert(reply@.data == reply.data@);
    cip::law_a_reply_is_service_status_and_data(other@);
    assert(written@.take(4) =~= seq![other.service, 0, other.status, 0]);
}

/// Any bytes are read as the reply whose status is the third of them, or
/// refused by what is wrong with them first.
pub proof fn law_a_reply_is_read_status_third(bytes: &[u8], read: Result<Reply, Error>)
    requires
        call_ensures(Reply::decode, (bytes,), read),
    ensures
        ({
            let end = 4 + 2 * bytes@[3];
            if bytes@.len() < 4 {
                read == Err::<Reply, _>(Error::ReplyCut)
            } else if bytes@[0] < 0x80 {
                read == Err::<Reply, _>(Error::RequestNotReply)
            } else if bytes@.len() < end {
                read == Err::<Reply, _>(Error::AdditionalPastEnd)
            } else {
                read matches Ok(reply) && {
                    &&& reply.service == bytes@[0]
                    &&& reply.status == bytes@[2]
                    &&& reply.data@ == bytes@.skip(end)
                }
            }
        }),
{
    cip::law_what_reply_bytes_are(bytes@);
    if let Ok(reply) = read {
        assert(reply@.data == reply.data@);
    }
}

/// The reply bit is set and no other bit changes.
pub proof fn law_the_reply_bit_is_set(service: u8, reply: u8)
    requires
        call_ensures(cip::with_reply_bit, (service,), reply),
    ensures
        reply == service | 0x80,
{
    cip::law_the_reply_bit_is_the_highest(service);
}

/// An adapter that has just accepted a scanner has given no session and
/// holds nothing.
pub proof fn law_an_adapter_begins_with_nothing(peer: &str, adapter: Adapter, instance: u8)
    requires
        call_ensures(Adapter::accept, (peer,), adapter),
    ensures
        adapter@.peer == peer@,
        adapter@.session == 0,
        !adapter@.assemblies.contains_key(instance),
{
}

/// What an adapter is given to hold it holds, whatever it held before, and
/// gives back when asked; what else it holds is as it was.
pub proof fn law_an_adapter_holds_what_it_is_given(
    adapter: Adapter,
    instance: u8,
    bytes: Vec<u8>,
    now: Adapter,
    asked: u8,
    before: Option<&[u8]>,
    data: Option<&[u8]>,
)
    requires
        call_ensures(Adapter::with_assembly, (adapter, instance, bytes), now),
        call_ensures(Adapter::assembly, (&adapter, asked), before),
        call_ensures(Adapter::assembly, (&now, asked), data),
    ensures
        now@.peer == adapter@.peer,
        now@.session == adapter@.session,
        asked == instance ==> (data matches Some(data) && data@ == bytes@),
        asked != instance ==> match before {
            Some(before) => data matches Some(data) && data@ == before@,
            None => data is None,
        },
{
}

/// An origin is `enip://`, who is there, `/assembly/` and the number of the
/// instance, be it asked of the adapter or made.
pub proof fn law_an_origin_is_made(
    authority: &str,
    adapter: Adapter,
    instance: u8,
    made: String,
    told: String,
)
    requires
        call_ensures(adapter::origin_uri, (authority, instance), made),
        call_ensures(Adapter::origin, (&adapter, instance), told),
    ensures
        made@ == "enip://"@ + authority@ + "/assembly/"@ + text::decimal(instance as nat),
        told@ == "enip://"@ + adapter@.peer + "/assembly/"@ + text::decimal(instance as nat),
{
}

/// A request is replied to out of the assemblies held: a get of one has its
/// data, a set of one replaces it, another service is not supported, and
/// what is not held is unknown.
pub proof fn law_a_request_is_replied_to(adapter: &mut Adapter, request: Request, reply: Reply)
    requires
        call_ensures(Adapter::explicit, (adapter, &request), reply),
    ensures
        ({
            let held = old(adapter)@.assemblies;
            let now = final(adapter)@.assemblies;
            let instance = request.path.instance as u8;
            let there = {
                &&& request.path.class == 4
                &&& request.path.attribute == 3
                &&& request.path.instance < 256
                &&& held.contains_key(instance)
            };
            &&& final(adapter)@.peer == old(adapter)@.peer
            &&& final(adapter)@.session == old(adapter)@.session
            &&& reply.service == request.service | 0x80
            &&& if !there {
                reply.status == 5 && reply.data@.len() == 0 && now == held
            } else if request.service == 0x0e {
                reply.status == 0 && reply.data@ == held[instance] && now == held
            } else if request.service == 0x10 {
                &&& reply.status == 0 && reply.data@.len() == 0
                &&& now == held.insert(instance, request.data@)
            } else {
                reply.status == 8 && reply.data@.len() == 0 && now == held
            }
        }),
{
    adapter::law_what_is_replied(old(adapter)@, request@);
    assert(reply@.data == reply.data@);
}

/// A registration is answered by the same packet under the handle that an
/// adapter gives, an unregistering by nothing, and what is outside the
/// session by a refusal under the handle it came with; only the registration
/// changes anything, and only the handle.
pub proof fn law_what_is_no_request_is_answered(
    adapter: &mut Adapter,
    packet: Packet,
    written: Result<Option<Vec<u8>>, Error>,
)
    requires
        call_ensures(Adapter::answer, (adapter, packet), written),
        packet.command != 0x6f || old(adapter)@.session == 0 || packet.session != old(
            adapter,
        )@.session,
        packet.data@.len() <= 65_535,
    ensures
        packet.command == 0x66 ==> written == Ok::<Option<Vec<u8>>, Error>(None),
        packet.command != 0x65 ==> final(adapter)@ == old(adapter)@,
        packet.command == 0x65 ==> {
            &&& final(adapter)@.session == 0x0001_0001
            &&& final(adapter)@.peer == old(adapter)@.peer
            &&& final(adapter)@.assemblies == old(adapter)@.assemblies
        },
        packet.command != 0x66 ==> (written matches Ok(Some(wire)) && {
            &&& wire@.len() >= 24
            &&& wire@[0] + 0x100 * wire@[1] == packet.command
            &&& wire@.subrange(12, 20) == packet.context@
            &&& wire@.subrange(20, 24) == seq![0u8, 0, 0, 0]
            &&& packet.command == 0x65 ==> {
                &&& wire@.subrange(4, 8) == seq![1u8, 0, 1, 0]
                &&& wire@[8] + 0x100 * wire@[9] + 0x1_0000 * wire@[10] + 0x100_0000 * wire@[11]
                    == packet.status
                &&& wire@[2] + 0x100 * wire@[3] == packet.data@.len()
                &&& wire@.skip(24) == packet.data@
            }
            &&& packet.command != 0x65 ==> {
                &&& wire@.len() == 24
                &&& wire@[4] + 0x100 * wire@[5] + 0x1_0000 * wire@[6] + 0x100_0000 * wire@[7]
                    == packet.session
                &&& wire@.subrange(8, 12) == seq![1u8, 0, 0, 0]
                &&& wire@[2] == 0 && wire@[3] == 0
            }
        }),
{
    let before = old(adapter)@;
    adapter::law_what_is_answered_outside_a_request(before, packet@);
    adapter::law_what_is_written_is_the_answer(before, packet@, seq![]);
    if packet.command != 0x66 {
        let answer = before.answer(packet@)->Ok_0->Some_0;
        encapsulation::law_a_packet_is_a_header_and_data(answer);
        let wire = written->Ok_0->Some_0@;
        if packet.command == 0x65 {
            assert(wire.subrange(4, 8) =~= seq![1u8, 0, 1, 0]);
        } else {
            assert(wire.subrange(8, 12) =~= seq![1u8, 0, 0, 0]);
        }
    }
}

/// A request on the session is answered under the handle, the status and the
/// context it came with: behind the header and the items, the request's
/// service with the reply bit, the status and the data of the reply. What
/// carries no request, and what one packet does not carry back, is an error.
pub proof fn law_a_request_on_the_session_is_answered(
    adapter: &mut Adapter,
    packet: Packet,
    written: Result<Option<Vec<u8>>, Error>,
)
    requires
        call_ensures(Adapter::answer, (adapter, packet), written),
        packet.command == 0x6f,
        packet.session == old(adapter)@.session,
        old(adapter)@.session != 0,
    ensures
        match encapsulation::rr_decoded(packet.data@) {
            Err(error) => {
                &&& written == Err::<Option<Vec<u8>>, Error>(error)
                &&& final(adapter)@ == old(adapter)@
            },
            Ok(cip) => match RequestView::decoded(cip) {
                Err(error) => {
                    &&& written == Err::<Option<Vec<u8>>, Error>(error)
                    &&& final(adapter)@ == old(adapter)@
                },
                Ok(request) => {
                    let reply = old(adapter)@.reply(request);
                    &&& final(adapter)@ == old(adapter)@.replied(request)
                    &&& reply.data.len() > 65_531 ==> written == Err::<Option<Vec<u8>>, _>(
                        Error::ItemTooLong,
                    )
                    &&& 65_515 < reply.data.len() <= 65_531 ==> written == Err::<
                        Option<Vec<u8>>,
                        _,
                    >(Error::PacketTooLong)
                    &&& reply.data.len() <= 65_515 ==> (written matches Ok(Some(wire)) && {
                        &&& wire@.len() == 44 + reply.data.len()
                        &&& wire@.take(2) == seq![0x6fu8, 0]
                        &&& wire@[2] + 0x100 * wire@[3] == 20 + reply.data.len()
                        &&& wire@[4] + 0x100 * wire@[5] + 0x1_0000 * wire@[6] + 0x100_0000
                            * wire@[7] == packet.session
                        &&& wire@[8] + 0x100 * wire@[9] + 0x1_0000 * wire@[10] + 0x100_0000
                            * wire@[11] == packet.status
                        &&& wire@.subrange(12, 20) == packet.context@
                        &&& wire@.subrange(20, 24) == seq![0u8, 0, 0, 0]
                        &&& wire@.subrange(24, 38) == seq![
                            0u8, 0, 0, 0, 0, 0, 2, 0, 0, 0, 0, 0, 0xb2, 0,
                        ]
                        &&& wire@[38] + 0x100 * wire@[39] == 4 + reply.data.len()
                        &&& wire@.subrange(40, 44) == seq![
                            request.service | 0x80,
                            0,
                            reply.status,
                            0,
                        ]
                        &&& wire@.skip(44) == reply.data
                    })
                },
            },
        },
{
    let before = old(adapter)@;
    adapter::law_a_request_is_answered_on_its_session(before, packet@);
    adapter::law_what_is_written_is_the_answer(before, packet@, seq![]);
    if let Ok(Some(answer)) = before.answer(packet@) {
        if answer.data.len() <= 65_535 {
            encapsulation::law_a_packet_is_a_header_and_data(answer);
            let wire = answer.bytes();
            assert(wire.take(2) =~= seq![0x6fu8, 0]);
            assert(wire.subrange(24, 38) =~= answer.data.take(14));
            assert(wire[38] == wire.skip(24)[14] && wire[39] == wire.skip(24)[15]);
            assert(wire[40] == wire.skip(24)[16] && wire[41] == wire.skip(24)[17]);
            assert(wire[42] == wire.skip(24)[18] && wire[43] == wire.skip(24)[19]);
            assert(wire.subrange(40, 44) =~= seq![
                answer.data[16],
                answer.data[17],
                answer.data[18],
                answer.data[19],
            ]);
            assert(wire.skip(44) =~= wire.skip(24).skip(20));
        }
    }
}

/// Serving a packet and what comes behind it is answering the packet, and,
/// where there is an answer, serving what comes behind: the same is written,
/// in this order, the adapter is left the same, and it ends the same. Where
/// there is none, or an error, it ends there.
pub proof fn law_serving_is_answering_in_turn(
    packet: Packet,
    rest: Seq<u8>,
    all: &mut Adapter,
    all_in: &mut &[u8],
    all_out: &mut Vec<u8>,
    all_end: Result<(), Error>,
    one: &mut Adapter,
    answer: Result<Option<Vec<u8>>, Error>,
    then: &mut Adapter,
    then_in: &mut &[u8],
    then_out: &mut Vec<u8>,
    then_end: Result<(), Error>,
)
    requires
        packet.data@.len() <= 65_535,
        old(all_in)@ == packet@.bytes() + rest,
        call_ensures(Adapter::serve, (all, all_in, all_out), all_end),
        old(one)@ == old(all)@,
        call_ensures(Adapter::answer, (one, packet), answer),
        old(then)@ == final(one)@,
        old(then_in)@ == rest,
        call_ensures(Adapter::serve, (then, then_in, then_out), then_end),
        old(then_out)@ == old(all_out)@ + match answer {
            Ok(Some(bytes)) => bytes@,
            _ => seq![],
        },
    ensures
        answer matches Ok(Some(_)) ==> {
            &&& final(all)@ == final(then)@
            &&& final(all_in)@ == final(then_in)@
            &&& final(all_out)@ == final(then_out)@
            &&& all_end == then_end
        },
        answer matches Ok(None) ==> {
            &&& final(all)@ == final(one)@
            &&& final(all_in)@ == rest
            &&& final(all_out)@ == old(all_out)@
            &&& all_end == Ok::<(), Error>(())
        },
        answer matches Err(error) ==> {
            &&& final(all)@ == final(one)@
            &&& final(all_in)@ == rest
            &&& final(all_out)@ == old(all_out)@
            &&& all_end == Err::<(), Error>(error)
        },
{
    session::law_serving_goes_packet_by_packet(old(all)@, packet@, rest);
    assert(final(all_out)@ =~= old(all_out)@ + old(all)@.served(old(all_in)@).written);
    assert(final(then_out)@ =~= old(then_out)@ + old(then)@.served(rest).written);
    if let Ok(Some(bytes)) = answer {
        assert(old(all_out)@ + (bytes@ + old(then)@.served(rest).written) =~= (old(all_out)@
            + bytes@) + old(then)@.served(rest).written);
    } else {
        assert(final(all_out)@ =~= old(all_out)@);
    }
}

/// Serving ends where nothing comes, and with an error where what comes is
/// no packet; either way the adapter is as it was, and nothing is written.
pub proof fn law_serving_ends(
    adapter: &mut Adapter,
    reader: &mut &[u8],
    writer: &mut Vec<u8>,
    outcome: Result<(), Error>,
)
    requires
        call_ensures(Adapter::serve, (adapter, reader, writer), outcome),
        !(encapsulation::next_packet(old(reader)@) matches Ok(Some(_))),
    ensures
        final(adapter)@ == old(adapter)@,
        final(reader)@ == encapsulation::behind_packet(old(reader)@),
        final(writer)@ == old(writer)@,
        match encapsulation::next_packet(old(reader)@) {
            Err(error) => outcome == Err::<(), Error>(error),
            Ok(_) => old(reader)@.len() == 0 && outcome == Ok::<(), Error>(()),
        },
{
    encapsulation::law_what_bytes_begin_with(old(reader)@);
    adapter::law_serving_ends_where_no_packet_comes(old(adapter)@, old(reader)@);
    assert(final(reader)@ =~= encapsulation::behind_packet(old(reader)@));
    assert(final(writer)@ =~= old(writer)@);
}

/// A payload is within what one set carries up to 65511 bytes.
pub proof fn law_the_ceiling_is_a_full_packet(length: usize, within: Result<(), Error>)
    requires
        call_ensures(scanner::within_ceiling, (length,), within),
    ensures
        within == if 24 + length <= 65_535 {
            Ok::<(), Error>(())
        } else {
            Err(Error::OverCeiling)
        },
{
}

/// Registering writes 28 bytes behind what is there, takes one packet, and
/// has the handle in it where it is a registration, without a status, under
/// a handle; nothing else registers.
pub proof fn law_a_scanner_registers(
    reader: &mut &[u8],
    writer: &mut Vec<u8>,
    scanner: Result<Scanner, Error>,
)
    requires
        call_ensures(Scanner::connect, (reader, writer), scanner),
    ensures
        final(writer)@ == old(writer)@ + seq![
            0x65u8, 0, 4, 0, 0, 0, 0, 0, 0, 0, 0, 0, 0, 0, 0, 0, 0, 0, 0, 0, 0, 0, 0, 0, 1, 0, 0, 0,
        ],
        final(reader)@ == encapsulation::behind_packet(old(reader)@),
        match encapsulation::next_packet(old(reader)@) {
            Ok(None) => scanner == Err::<Scanner, _>(Error::ClosedBeforeAnswering),
            Err(error) => scanner == Err::<Scanner, Error>(error),
            Ok(Some(answer)) => if answer.command == 0x65 && answer.status == 0 && answer.session
                != 0 {
                scanner matches Ok(scanner) && scanner@ == answer.session
            } else {
                scanner == Err::<Scanner, _>(Error::NotRegistered)
            },
        },
{
    scanner::law_a_registration_on_the_wire();
    scanner::law_registering_is_one_exchange(old(reader)@);
    scanner::law_the_answer_comes_first(old(reader)@);
    if let Ok(Some(answer)) = encapsulation::next_packet(old(reader)@) {
        scanner::law_a_session_is_what_a_registration_gives(answer);
    }
}

/// In steps: what asks for a session is the 28 bytes, and an answer gives
/// the handle it is under where it is a registration without a status.
pub proof fn law_a_scanner_registers_in_steps(
    bytes: Vec<u8>,
    answer: Packet,
    scanner: Result<Scanner, Error>,
)
    requires
        call_ensures(Scanner::registration, (), bytes),
        call_ensures(Scanner::registered, (&answer,), scanner),
    ensures
        bytes@ == seq![
            0x65u8, 0, 4, 0, 0, 0, 0, 0, 0, 0, 0, 0, 0, 0, 0, 0, 0, 0, 0, 0, 0, 0, 0, 0, 1, 0, 0, 0,
        ],
        if answer.command == 0x65 && answer.status == 0 && answer.session != 0 {
            scanner matches Ok(scanner) && scanner@ == answer.session
        } else {
            scanner == Err::<Scanner, _>(Error::NotRegistered)
        },
{
    scanner::law_a_registration_on_the_wire();
    scanner::law_a_session_is_what_a_registration_gives(answer@);
}

/// A scanner's handle is the one it was given.
pub proof fn law_a_scanner_tells_its_handle(scanner: Scanner, session: u32)
    requires
        call_ensures(Scanner::session, (&scanner,), session),
    ensures
        session == scanner@,
        session != 0,
{
}

/// Whether `wire` is a `SendRRData` under `session` that asks for `service`
/// on attribute 3 of instance `instance` of class 4 with `data`.
pub open spec fn asks(
    wire: Seq<u8>,
    session: u32,
    service: u8,
    instance: u8,
    data: Seq<u8>,
) -> bool {
    &&& wire.len() == 48 + data.len()
    &&& wire.take(2) == seq![0x6fu8, 0]
    &&& wire[2] + 0x100 * wire[3] == 24 + data.len()
    &&& wire[4] + 0x100 * wire[5] + 0x1_0000 * wire[6] + 0x100_0000 * wire[7] == session
    &&& forall|i: int| 8 <= i < 24 ==> #[trigger] wire[i] == 0
    &&& wire.subrange(24, 38) == seq![0u8, 0, 0, 0, 0, 0, 2, 0, 0, 0, 0, 0, 0xb2, 0]
    &&& wire[38] + 0x100 * wire[39] == 8 + data.len()
    &&& wire.subrange(40, 48) == seq![service, 3, 0x20, 4, 0x24, instance, 0x30, 3]
    &&& wire.skip(48) == data
}

/// What goes out to get is a request for service 0x0e with no data under the
/// scanner's handle, and what goes out to set one for service 0x10 with the
/// payload, up to 65511 bytes of it.
pub proof fn law_a_scanner_asks_under_its_handle(
    scanner: Scanner,
    instance: u8,
    bytes: &[u8],
    get: Result<Vec<u8>, Error>,
    set: Result<Vec<u8>, Error>,
    service: u8,
    other: Result<Vec<u8>, Error>,
)
    requires
        call_ensures(Scanner::get_request, (&scanner, instance), get),
        call_ensures(Scanner::set_request, (&scanner, instance, bytes), set),
        call_ensures(Scanner::ask, (&scanner, service, instance, bytes), other),
    ensures
        get matches Ok(wire) && asks(wire@, scanner@, 0x0e, instance, seq![]),
        bytes@.len() <= 65_511 ==> {
            &&& set matches Ok(wire) && asks(wire@, scanner@, 0x10, instance, bytes@)
            &&& other matches Ok(wire) && asks(wire@, scanner@, service, instance, bytes@)
        },
        bytes@.len() > 65_511 ==> {
            &&& set == Err::<Vec<u8>, _>(Error::OverCeiling)
            &&& other == Err::<Vec<u8>, _>(
                if bytes@.len() <= 65_527 {
                    Error::PacketTooLong
                } else {
                    Error::ItemTooLong
                },
            )
        },
{
    scanner::law_a_request_on_the_wire(scanner@, 0x0e, instance, seq![]);
    scanner::law_a_request_on_the_wire(scanner@, 0x10, instance, bytes@);
    scanner::law_a_request_on_the_wire(scanner@, service, instance, bytes@);
    scanner::law_a_set_asks_for_its_payload(scanner@, instance, bytes@);
}

/// What is made of an answer: a `SendRRData` without a status whose items
/// hold a reply to the service, of general status 0, is accepted with its
/// data, which is all that a get has of it, and that it is accepted all that
/// a set has. What fails first says what is wrong.
pub proof fn law_an_answer_is_accepted(
    service: u8,
    answer: Packet,
    reply: Result<Reply, Error>,
    got: Result<Vec<u8>, Error>,
    set: Result<(), Error>,
)
    requires
        call_ensures(Scanner::accept, (service, &answer), reply),
        call_ensures(Scanner::got, (&answer,), got),
        call_ensures(Scanner::was_set, (&answer,), set),
    ensures
        answer.command != 0x6f || answer.status != 0 ==> {
            &&& reply == Err::<Reply, _>(Error::RrDataRefused)
            &&& got == Err::<Vec<u8>, _>(Error::RrDataRefused)
            &&& set == Err::<(), _>(Error::RrDataRefused)
        },
        answer.command == 0x6f && answer.status == 0 ==> match encapsulation::rr_decoded(
            answer.data@,
        ) {
            Err(error) => {
                &&& reply == Err::<Reply, Error>(error)
                &&& got == Err::<Vec<u8>, Error>(error)
                &&& set == Err::<(), Error>(error)
            },
            Ok(cip) => match ReplyView::decoded(cip) {
                Err(error) => {
                    &&& reply == Err::<Reply, Error>(error)
                    &&& got == Err::<Vec<u8>, Error>(error)
                    &&& set == Err::<(), Error>(error)
                },
                Ok(read) => {
                    &&& if read.service != service | 0x80 {
                        reply == Err::<Reply, _>(Error::OtherService)
                    } else if read.status != 0 {
                        reply == Err::<Reply, _>(Error::GeneralStatus(read.status))
                    } else {
                        reply matches Ok(reply) && {
                            &&& reply.service == read.service
                            &&& reply.status == 0
                            &&& reply.data@ == read.data
                        }
                    }
                    &&& if read.service != 0x8e {
                        got == Err::<Vec<u8>, _>(Error::OtherService)
                    } else if read.status != 0 {
                        got == Err::<Vec<u8>, _>(Error::GeneralStatus(read.status))
                    } else {
                        got matches Ok(data) && data@ == read.data
                    }
                    &&& set == if read.service != 0x90 {
                        Err::<(), _>(Error::OtherService)
                    } else if read.status != 0 {
                        Err(Error::GeneralStatus(read.status))
                    } else {
                        Ok(())
                    }
                },
            },
        },
{
    assert(0x0eu8 | 0x80 == 0x8eu8) by (bit_vector);
    assert(0x10u8 | 0x80 == 0x90u8) by (bit_vector);
    scanner::law_what_is_accepted(service, answer@);
    scanner::law_what_is_accepted(0x0e, answer@);
    scanner::law_what_is_accepted(0x10, answer@);
    scanner::law_a_get_has_the_data_and_a_set_the_success(answer@);
    if let Ok(reply) = reply {
        assert(reply@.data == reply.data@);
    }
}

/// An exchange writes what it is given behind what is there, and has the
/// packet that comes first; none is an error.
pub proof fn law_an_exchange_is_one_packet_each_way(
    bytes: &[u8],
    reader: &mut &[u8],
    writer: &mut Vec<u8>,
    answer: Result<Packet, Error>,
)
    requires
        call_ensures(Scanner::exchange, (bytes, reader, writer), answer),
    ensures
        final(writer)@ == old(writer)@ + bytes@,
        final(reader)@ == encapsulation::behind_packet(old(reader)@),
        match encapsulation::next_packet(old(reader)@) {
            Ok(Some(packet)) => answer matches Ok(answer) && answer@ == packet,
            Ok(None) => answer == Err::<Packet, _>(Error::ClosedBeforeAnswering),
            Err(error) => answer == Err::<Packet, Error>(error),
        },
{
    scanner::law_the_answer_comes_first(old(reader)@);
}

/// An answer that was due is had where it came, and is an error where it did
/// not.
pub proof fn law_an_answer_is_due(answer: Option<Packet>, packet: Result<Packet, Error>)
    requires
        call_ensures(Scanner::answered, (answer,), packet),
    ensures
        answer matches Some(answer) ==> packet == Ok::<Packet, Error>(answer),
        answer is None ==> packet == Err::<Packet, _>(Error::ClosedBeforeAnswering),
{
}

/// A get writes one request for service 0x0e behind what is there, takes one
/// packet, and has what [`Scanner::got`] has of it.
pub proof fn law_a_scanner_gets(
    scanner: Scanner,
    instance: u8,
    reader: &mut &[u8],
    writer: &mut Vec<u8>,
    data: Result<Vec<u8>, Error>,
    answer: Packet,
    got: Result<Vec<u8>, Error>,
)
    requires
        call_ensures(Scanner::get, (&scanner, instance, reader, writer), data),
        call_ensures(Scanner::got, (&answer,), got),
    ensures
        final(writer)@.len() == old(writer)@.len() + 48,
        final(writer)@.take(old(writer)@.len() as int) == old(writer)@,
        asks(final(writer)@.skip(old(writer)@.len() as int), scanner@, 0x0e, instance, seq![]),
        final(reader)@ == encapsulation::behind_packet(old(reader)@),
        match encapsulation::next_packet(old(reader)@) {
            Ok(Some(packet)) => packet == answer@ ==> match got {
                Ok(got) => data matches Ok(data) && data@ == got@,
                Err(error) => data == Err::<Vec<u8>, Error>(error),
            },
            Ok(None) => data == Err::<Vec<u8>, _>(Error::ClosedBeforeAnswering),
            Err(error) => data == Err::<Vec<u8>, Error>(error),
        },
{
    let talk = scanner::get_talk(scanner@, instance, old(reader)@);
    scanner::law_a_get_and_a_set_are_one_exchange(scanner@, instance, seq![], old(reader)@);
    scanner::law_a_request_on_the_wire(scanner@, 0x0e, instance, seq![]);
    scanner::law_the_answer_comes_first(old(reader)@);
    assert(final(writer)@.take(old(writer)@.len() as int) =~= old(writer)@);
    assert(final(writer)@.skip(old(writer)@.len() as int) =~= talk.written);
}

/// A set writes one request for service 0x10 with the payload behind what is
/// there, takes one packet, and ends as [`Scanner::was_set`] does with it.
/// Over 65511 bytes it writes and takes nothing.
pub proof fn law_a_scanner_sets(
    scanner: Scanner,
    instance: u8,
    bytes: &[u8],
    reader: &mut &[u8],
    writer: &mut Vec<u8>,
    outcome: Result<(), Error>,
    answer: Packet,
    set: Result<(), Error>,
)
    requires
        call_ensures(Scanner::set, (&scanner, instance, bytes, reader, writer), outcome),
        call_ensures(Scanner::was_set, (&answer,), set),
    ensures
        bytes@.len() > 65_511 ==> {
            &&& final(writer)@ == old(writer)@
            &&& final(reader)@ == old(reader)@
            &&& outcome == Err::<(), _>(Error::OverCeiling)
        },
        bytes@.len() <= 65_511 ==> {
            &&& final(writer)@.len() == old(writer)@.len() + 48 + bytes@.len()
            &&& final(writer)@.take(old(writer)@.len() as int) == old(writer)@
            &&& asks(
                final(writer)@.skip(old(writer)@.len() as int),
                scanner@,
                0x10,
                instance,
                bytes@,
            )
            &&& final(reader)@ == encapsulation::behind_packet(old(reader)@)
            &&& match encapsulation::next_packet(old(reader)@) {
                Ok(Some(packet)) => packet == answer@ ==> outcome == set,
                Ok(None) => outcome == Err::<(), _>(Error::ClosedBeforeAnswering),
                Err(error) => outcome == Err::<(), Error>(error),
            }
        },
{
    let talk = scanner::set_talk(scanner@, instance, bytes@, old(reader)@);
    scanner::law_a_get_and_a_set_are_one_exchange(scanner@, instance, bytes@, old(reader)@);
    scanner::law_a_request_on_the_wire(scanner@, 0x10, instance, bytes@);
    scanner::law_the_answer_comes_first(old(reader)@);
    assert(final(writer)@.take(old(writer)@.len() as int) =~= old(writer)@);
    assert(final(writer)@.skip(old(writer)@.len() as int) =~= talk.written);
    assert(bytes@.len() > 65_511 ==> final(writer)@ =~= old(writer)@);
}

/// Asking for any service writes one request for it behind what is there,
/// takes one packet, and has what [`Scanner::accept`] has of it for the same
/// service. What one message does not carry writes and takes nothing.
pub proof fn law_a_scanner_asks(
    scanner: Scanner,
    service: u8,
    instance: u8,
    data: &[u8],
    reader: &mut &[u8],
    writer: &mut Vec<u8>,
    reply: Result<Reply, Error>,
    answer: Packet,
    accepted: Result<Reply, Error>,
)
    requires
        call_ensures(
            Scanner::explicit,
            (&scanner, service, instance, data, reader, writer),
            reply,
        ),
        call_ensures(Scanner::accept, (service, &answer), accepted),
    ensures
        data@.len() > 65_511 ==> {
            &&& final(writer)@ == old(writer)@
            &&& final(reader)@ == old(reader)@
            &&& reply == Err::<Reply, _>(
                if data@.len() <= 65_527 {
                    Error::PacketTooLong
                } else {
                    Error::ItemTooLong
                },
            )
        },
        data@.len() <= 65_511 ==> {
            &&& final(writer)@.take(old(writer)@.len() as int) == old(writer)@
            &&& asks(
                final(writer)@.skip(old(writer)@.len() as int),
                scanner@,
                service,
                instance,
                data@,
            )
            &&& final(reader)@ == encapsulation::behind_packet(old(reader)@)
            &&& match encapsulation::next_packet(old(reader)@) {
                Ok(Some(packet)) => packet == answer@ ==> match accepted {
                    Ok(accepted) => reply matches Ok(reply) && reply@ == accepted@,
                    Err(error) => reply == Err::<Reply, Error>(error),
                },
                Ok(None) => reply == Err::<Reply, _>(Error::ClosedBeforeAnswering),
                Err(error) => reply == Err::<Reply, Error>(error),
            }
        },
{
    let request = scanner::assembly_request(service, instance, data@);
    let talk = scanner::explicit_talk(scanner@, request, old(reader)@);
    scanner::law_asking_is_one_exchange(scanner@, request, old(reader)@);
    scanner::law_a_request_on_the_wire(scanner@, service, instance, data@);
    scanner::law_the_answer_comes_first(old(reader)@);
    assert(final(writer)@.take(old(writer)@.len() as int) =~= old(writer)@);
    assert(final(writer)@.skip(old(writer)@.len() as int) =~= talk.written);
    assert(data@.len() > 65_511 ==> final(writer)@ =~= old(writer)@);
}

/// Unregistering writes 24 bytes that end the scanner's own session behind
/// what is there, and the farewell is these bytes.
pub proof fn law_a_scanner_unregisters(scanner: Scanner, writer: &mut Vec<u8>, farewell: Vec<u8>)
    requires
        call_ensures(Scanner::unregister, (scanner, writer), ()),
        call_ensures(Scanner::farewell, (&scanner,), farewell),
    ensures
        final(writer)@ == old(writer)@ + farewell@,
        transport::ends(farewell@, scanner@),
{
    scanner::law_an_unregistering_on_the_wire(scanner@);
}

/// A transport is about what it is made for: instance 100 and no timeout at
/// first, and then what it is told, one thing at a time.
pub proof fn law_a_transport_is_what_it_is_told(
    bind: &str,
    new: EtherNetIpTransport,
    transport: EtherNetIpTransport,
    instance: u8,
    about: EtherNetIpTransport,
    timeout: Duration,
    timing: EtherNetIpTransport,
)
    requires
        call_ensures(EtherNetIpTransport::new, (bind,), new),
        call_ensures(EtherNetIpTransport::about, (transport, instance), about),
        call_ensures(EtherNetIpTransport::timing_out_after, (transport, timeout), timing),
    ensures
        new@.bind == bind@ && new@.instance == 100 && new@.timeout is None,
        about@.bind == transport@.bind && about@.instance == instance && about@.timeout
            == transport@.timeout,
        timing@.bind == transport@.bind && timing@.instance == transport@.instance
            && timing@.timeout == Some(timeout),
{
}

/// A transport tells what it is about, by the name of its kind, and that one
/// round carries 65511 bytes.
pub proof fn law_a_transport_tells_what_it_is(
    transport: EtherNetIpTransport,
    address: &str,
    instance: u8,
    timeout: Option<Duration>,
    name: &'static str,
    ceiling: Option<usize>,
)
    requires
        call_ensures(EtherNetIpTransport::address, (&transport,), address),
        call_ensures(EtherNetIpTransport::instance, (&transport,), instance),
        call_ensures(EtherNetIpTransport::timeout, (&transport,), timeout),
        call_ensures(EtherNetIpTransport::name, (&transport,), name),
        call_ensures(EtherNetIpTransport::ceiling, (&transport,), ceiling),
    ensures
        address@ == transport@.bind,
        instance == transport@.instance,
        timeout == transport@.timeout,
        name@ == "ethernet-ip"@,
        ceiling == Some(65_511usize),
{
}

/// A loopback is at any free port of this machine, about instance 100 with
/// the timeout it is given; its near end is there too, about the same
/// assembly, with the same timeout or, where there is none, the fallback.
pub proof fn law_a_loopback_is_on_this_machine(
    timeout: Duration,
    loopback: EtherNetIpTransport,
    transport: EtherNetIpTransport,
    fallback: Duration,
    near: EtherNetIpTransport,
)
    requires
        call_ensures(EtherNetIpTransport::loopback, (timeout,), loopback),
        call_ensures(EtherNetIpTransport::near_end, (&transport, fallback), near),
    ensures
        loopback@.bind == "127.0.0.1:0"@,
        loopback@.instance == 100,
        loopback@.timeout == Some(timeout),
        near@.bind == "127.0.0.1:0"@,
        near@.instance == transport@.instance,
        transport@.timeout matches Some(set) ==> near@.timeout == Some(set),
        transport@.timeout is None ==> near@.timeout == Some(fallback),
{
    transport::law_the_near_end_is_on_this_machine(transport@, fallback);
}

/// A target that is `enip://`, a host and a path names the host and the
/// instance the path spells, and where it spells none, the path is refused.
/// Without a path, and without `enip://`, it is the configured instance.
pub proof fn law_a_target_is_resolved(
    transport: EtherNetIpTransport,
    target: &str,
    named: Result<(String, u8), Error>,
    host: Seq<char>,
    path: Seq<char>,
)
    requires
        call_ensures(EtherNetIpTransport::resolve, (&transport, target), named),
        !host.contains('/'),
    ensures
        target@ == "enip://"@ + host + seq!['/'] + path && path.len() > 0 ==> match text::byte_of(
            path,
        ) {
            Some(spelt) => named matches Ok((address, instance)) && address@ == host && instance
                == spelt,
            None => named matches Err(Error::NotAnInstance(given)) && given@ == path,
        },
        target@ == "enip://"@ + host || target@ == "enip://"@ + host + seq!['/'] ==> (
        named matches Ok((address, instance)) && address@ == host && instance
            == transport@.instance),
        !"enip://"@.is_prefix_of(target@) ==> (named matches Ok((address, instance)) && address@
            == target@ && instance == transport@.instance),
{
    transport::law_what_is_named_is_the_outcome(named, transport@.resolved(target@));
    transport::law_target_without_a_path_names_the_configured(transport@, host);
    if path.len() > 0 {
        transport::law_a_path_is_an_instance_or_refused(transport@, host, path);
    }
    if !"enip://"@.is_prefix_of(target@) {
        transport::law_bare_target_is_the_address(transport@, target@);
    }
}

/// The parts of a target name the authority and the instance the path
/// spells, and a path that spells none is refused as it stands; no path is
/// the configured instance, and no parts the target itself.
pub proof fn law_parts_are_resolved(
    transport: EtherNetIpTransport,
    target: &str,
    parts: Option<(&str, &str)>,
    named: Result<(String, u8), Error>,
)
    requires
        call_ensures(EtherNetIpTransport::resolve_parts, (&transport, target, parts), named),
    ensures
        match parts {
            None => named matches Ok((address, instance)) && address@ == target@ && instance
                == transport@.instance,
            Some((authority, path)) => if path@.len() == 0 {
                named matches Ok((address, instance)) && address@ == authority@ && instance
                    == transport@.instance
            } else {
                match text::byte_of(path@) {
                    Some(spelt) => named matches Ok((address, instance)) && address@ == authority@
                        && instance == spelt,
                    None => named matches Err(Error::NotAnInstance(given)) && given@ == path@,
                }
            },
        },
{
    let (authority, path) = match parts {
        Some((authority, path)) => (authority@, path@),
        None => (seq![], seq![]),
    };
    transport::law_parts_name_an_address_and_an_instance(transport@, target@, authority, path);
}

/// A receive has one Stream, from the assembly that the transport is about
/// at the address that it is at, with what the session gives; and it writes
/// and takes what the session does.
pub proof fn law_a_receive_is_one_stream(
    transport: EtherNetIpTransport,
    reader: &mut &[u8],
    writer: &mut Vec<u8>,
    arrived: Result<Vec<Arrived>, Error>,
)
    requires
        call_ensures(EtherNetIpTransport::receive, (&transport, reader, writer), arrived),
    ensures
        ({
            let talk = transport::receive_talk(transport@.instance, old(reader)@);
            &&& final(reader)@ == talk.unread
            &&& final(writer)@ == old(writer)@ + talk.written
            &&& match talk.outcome {
                Ok(bytes) => arrived matches Ok(arrived) && {
                    &&& arrived@.len() == 1
                    &&& arrived@[0].bytes@ == bytes
                    &&& arrived@[0].origin_uri@ == "enip://"@ + transport@.bind + "/assembly/"@
                        + text::decimal(transport@.instance as nat)
                },
                Err(error) => arrived == Err::<Vec<Arrived>, Error>(error),
            }
        }),
{
    if let Ok(arrived) = arrived {
        assert(arrived@[0]@.bytes == arrived@[0].bytes@);
        assert(arrived@[0]@.origin_uri == arrived@[0].origin_uri@);
    }
}

/// A send is a session that sets the assembly that the target names, whatever
/// the transport is about, to what is sent; where the target names none,
/// nothing is sent or taken, and the path is told.
pub proof fn law_a_send_sets_what_the_target_names(
    transport: EtherNetIpTransport,
    target: &str,
    named: Result<(String, u8), Error>,
    bytes: &[u8],
    reader: &mut &[u8],
    writer: &mut Vec<u8>,
    outcome: Result<(), Error>,
)
    requires
        call_ensures(EtherNetIpTransport::resolve, (&transport, target), named),
        call_ensures(
            EtherNetIpTransport::send,
            (&transport, target, bytes, reader, writer),
            outcome,
        ),
    ensures
        match named {
            Ok((_, instance)) => {
                let talk = transport::send_talk(instance, bytes@, old(reader)@);
                &&& final(reader)@ == talk.unread
                &&& final(writer)@ == old(writer)@ + talk.written
                &&& outcome == talk.outcome
            },
            Err(error) => {
                &&& final(reader)@ == old(reader)@
                &&& final(writer)@ == old(writer)@
                &&& error matches Error::NotAnInstance(path) && (
                outcome matches Err(Error::NotAnInstance(given)) && given@ == path@)
            },
        },
{
    transport::law_what_is_named_is_the_outcome(named, transport@.resolved(target@));
}

/// What is sent to a loopback's far end is sent as its near end sends it, up
/// to 65511 bytes; over that, nothing is sent or taken.
pub proof fn law_a_loopback_sends_as_its_near_end(
    transport: EtherNetIpTransport,
    address: &str,
    payload: &[u8],
    fallback: Duration,
    reader: &mut &[u8],
    writer: &mut Vec<u8>,
    outcome: Result<(), Error>,
    near: EtherNetIpTransport,
    named: Result<(String, u8), Error>,
)
    requires
        call_ensures(
            EtherNetIpTransport::send_to,
            (&transport, address, payload, fallback, reader, writer),
            outcome,
        ),
        call_ensures(EtherNetIpTransport::near_end, (&transport, fallback), near),
        call_ensures(EtherNetIpTransport::resolve, (&near, address), named),
    ensures
        payload@.len() > 65_511 ==> {
            &&& final(reader)@ == old(reader)@
            &&& final(writer)@ == old(writer)@
            &&& outcome == Err::<(), _>(Error::OverCeiling)
        },
        payload@.len() <= 65_511 ==> match named {
            Ok((_, instance)) => {
                let talk = transport::send_talk(instance, payload@, old(reader)@);
                &&& final(reader)@ == talk.unread
                &&& final(writer)@ == old(writer)@ + talk.written
                &&& outcome == talk.outcome
            },
            Err(error) => {
                &&& final(reader)@ == old(reader)@
                &&& final(writer)@ == old(writer)@
                &&& error matches Error::NotAnInstance(path) && (
                outcome matches Err(Error::NotAnInstance(given)) && given@ == path@)
            },
        },
{
    transport::law_what_is_named_is_the_outcome(named, near@.resolved(address@));
}

/// Taking one Stream is accepting a scanner, holding the assembly that the
/// transport is about, empty, serving the scanner to its end, and having what
/// the assembly then holds, from the scanner's address; where serving ends
/// in an error, it is that error.
pub proof fn law_taking_one_is_serving_one(
    transport: EtherNetIpTransport,
    peer: &str,
    reader: &mut &[u8],
    writer: &mut Vec<u8>,
    arrived: Result<Arrived, Error>,
    fresh: Adapter,
    empty: Vec<u8>,
    holding: Adapter,
    serving: &mut Adapter,
    serving_in: &mut &[u8],
    serving_out: &mut Vec<u8>,
    end: Result<(), Error>,
    data: Option<&[u8]>,
)
    requires
        call_ensures(EtherNetIpTransport::take_one, (transport, peer, reader, writer), arrived),
        call_ensures(Adapter::accept, (peer,), fresh),
        empty@.len() == 0,
        call_ensures(
            Adapter::with_assembly,
            (fresh, transport@.instance, empty),
            holding,
        ),
        old(serving)@ == holding@,
        old(serving_in)@ == old(reader)@,
        old(serving_out)@ == old(writer)@,
        call_ensures(Adapter::serve, (serving, serving_in, serving_out), end),
        call_ensures(Adapter::assembly, (final(serving), transport@.instance), data),
    ensures
        final(reader)@ == final(serving_in)@,
        final(writer)@ == final(serving_out)@,
        match end {
            Ok(_) => arrived matches Ok(arrived) && {
                &&& data matches Some(data) && arrived.bytes@ == data@
                &&& arrived.origin_uri@ == "enip://"@ + peer@ + "/assembly/"@ + text::decimal(
                    transport@.instance as nat,
                )
            },
            Err(error) => arrived == Err::<Arrived, Error>(error),
        },
{
    assert(empty@ =~= seq![]);
    adapter::law_serving_keeps_what_is_held(holding@, old(reader)@);
    if let Ok(arrived) = arrived {
        assert(arrived@.bytes == arrived.bytes@);
        assert(arrived@.origin_uri == arrived.origin_uri@);
    }
}

/// What arrived at an adapter is what it holds of the assembly, from the
/// scanner that it serves; where it holds no such assembly, that is missing.
pub proof fn law_what_arrived_is_what_is_held(
    adapter: Adapter,
    instance: u8,
    data: Option<&[u8]>,
    origin: String,
    arrived: Result<Arrived, Error>,
)
    requires
        call_ensures(transport::arrived_at, (&adapter, instance), arrived),
        call_ensures(Adapter::assembly, (&adapter, instance), data),
        call_ensures(Adapter::origin, (&adapter, instance), origin),
    ensures
        match data {
            Some(data) => arrived matches Ok(arrived) && arrived.bytes@ == data@
                && arrived.origin_uri@ == origin@,
            None => arrived == Err::<Arrived, _>(Error::AssemblyMissing),
        },
{
    if let Ok(arrived) = arrived {
        assert(arrived@.bytes == arrived.bytes@);
        assert(arrived@.origin_uri == arrived.origin_uri@);
    }
}

/// The words for an error are its text, and only an error of the connection
/// is none of the protocol.
pub proof fn law_an_error_tells_what_it_is(error: Error, message: String, protocol: bool)
    requires
        call_ensures(Error::message, (&error,), message),
        call_ensures(Error::is_protocol, (&error,), protocol),
    ensures
        message@ == error.text(),
        !protocol <==> error is HeaderCut || error is DataCut,
{
}

/// Numbers are written behind what is there, in decimal and in hexadecimal,
/// and a byte is read back from the decimal.
pub proof fn law_numbers_are_written_and_read(
    decimal: &mut String,
    hexadecimal: &mut String,
    byte: u8,
    number: &str,
    parsed: Option<u8>,
)
    requires
        call_ensures(text::push_decimal, (decimal, byte), ()),
        call_ensures(text::push_hexadecimal, (hexadecimal, byte), ()),
        call_ensures(text::parse_byte, (number,), parsed),
    ensures
        final(decimal)@ == old(decimal)@ + text::decimal(byte as nat),
        final(hexadecimal)@ == old(hexadecimal)@ + text::hexadecimal(byte),
        parsed == text::byte_of(number@),
        number@ == text::decimal(byte as nat) ==> parsed == Some(byte),
{
    text::law_decimal_reads_back(byte);
}

/// A URI is split at the first slash behind its prefix, and what has another
/// prefix is not split.
pub proof fn law_a_uri_is_split(
    prefix: &str,
    target: &str,
    parts: Option<(&str, &str)>,
    host: Seq<char>,
    rest: Seq<char>,
)
    requires
        call_ensures(text::split_uri, (prefix, target), parts),
        !host.contains('/'),
    ensures
        target@ == prefix@ + host + seq!['/'] + rest ==> (parts matches Some((authority, path))
            && authority@ == host && path@ == rest),
        target@ == prefix@ + host ==> (parts matches Some((authority, path)) && authority@ == host
            && path@.len() == 0),
        !prefix@.is_prefix_of(target@) ==> parts is None,
{
    text::law_a_uri_is_split_at_the_first_slash(prefix@, host, rest);
}

/// Bytes are written as they are behind what is there.
pub proof fn law_bytes_are_written_as_they_are(out: &mut Vec<u8>, bytes: &[u8])
    requires
        call_ensures(wire::push_bytes, (out, bytes), ()),
    ensures
        final(out)@.len() == old(out)@.len() + bytes@.len(),
        final(out)@.take(old(out)@.len() as int) == old(out)@,
        final(out)@.skip(old(out)@.len() as int) == bytes@,
{
    assert(final(out)@.take(old(out)@.len() as int) =~= old(out)@);
    assert(final(out)@.skip(old(out)@.len() as int) =~= bytes@);
}

/// A header is refused where it is shorter than 24 bytes, and where its
/// options are not zero, and nowhere else.
pub proof fn law_a_header_is_refused(bytes: &[u8], head: Result<Head, Error>)
    requires
        call_ensures(Head::decode, (bytes,), head),
    ensures
        bytes@.len() < 24 <==> head == Err::<Head, _>(Error::HeaderCut),
        bytes@.len() >= 24 && bytes@.subrange(20, 24) != seq![0u8, 0, 0, 0] <==> head == Err::<
            Head,
            _,
        >(Error::OptionsNotZero),
        bytes@.len() >= 24 && bytes@.subrange(20, 24) == seq![0u8, 0, 0, 0] <==> head is Ok,
{
}

/// The numbers that the protocol and its peers go by.
pub proof fn law_the_numbers_of_the_protocol()
    ensures
        encapsulation::PORT == 44_818,
        encapsulation::REGISTER_SESSION == 0x65,
        encapsulation::UNREGISTER_SESSION == 0x66,
        encapsulation::SEND_RR_DATA == 0x6f,
        encapsulation::HEADER == 24,
        encapsulation::RR_OVERHEAD == 16,
        encapsulation::LENGTH_MAX == 65_535,
        cip::GET_ATTRIBUTE_SINGLE == 0x0e,
        cip::SET_ATTRIBUTE_SINGLE == 0x10,
        cip::ASSEMBLY == 4,
        cip::DATA_ATTRIBUTE == 3,
        cip::SUCCESS == 0,
        cip::PATH_DESTINATION_UNKNOWN == 5,
        cip::SERVICE_NOT_SUPPORTED == 8,
        cip::ATTRIBUTE_NOT_SETTABLE == 0x0e,
        cip::REQUEST_OVERHEAD == 8,
        adapter::SESSION == 0x0001_0001,
        adapter::COMMAND_REFUSED == 1,
        crate::CEILING == 65_511,
{
}

} // verus!
