//! What holds between a scanner and an adapter that talk to each other: what
//! a get gives back of a set, what is refused and how, and that a payload
//! sent to an assembly arrives whole.
use vstd::prelude::*;

use crate::adapter::request_in;
use crate::adapter::AdapterView;
use crate::adapter::COMMAND_REFUSED;
use crate::adapter::SESSION;
use crate::cip;
use crate::cip::is_reply;
use crate::cip::ReplyView;
use crate::cip::RequestView;
use crate::cip::ASSEMBLY;
use crate::cip::DATA_ATTRIBUTE;
use crate::cip::GET_ATTRIBUTE_SINGLE;
use crate::cip::PATH_DESTINATION_UNKNOWN;
use crate::cip::SERVICE_NOT_SUPPORTED;
use crate::cip::SET_ATTRIBUTE_SINGLE;
use crate::cip::SUCCESS;
use crate::encapsulation;
use crate::encapsulation::PacketView;
use crate::encapsulation::LENGTH_MAX;
use crate::encapsulation::REGISTER_SESSION;
use crate::encapsulation::RR_OVERHEAD;
use crate::encapsulation::SEND_RR_DATA;
use crate::error::Error;
use crate::scanner;
use crate::scanner::assembly_request;
use crate::scanner::request_packet;
use crate::scanner::Talk;
use crate::transport;
use crate::transport::TransportView;
use crate::CEILING;

verus! {

/// Serving goes packet by packet: a packet in front is answered first, and
/// what comes behind it is served from where that left the adapter.
pub proof fn law_serving_goes_packet_by_packet(
    adapter: AdapterView,
    packet: PacketView,
    rest: Seq<u8>,
)
    requires
        packet.fits(),
    ensures
        adapter.written(packet) matches Ok(Some(answer)) ==> {
            let now = adapter.served(packet.bytes() + rest);
            let then = adapter.after(packet).served(rest);
            &&& now.adapter == then.adapter
            &&& now.unread == then.unread
            &&& now.written == answer + then.written
            &&& now.outcome == then.outcome
        },
        adapter.written(packet) matches Ok(None) ==> {
            let now = adapter.served(packet.bytes() + rest);
            &&& now.adapter == adapter.after(packet)
            &&& now.unread == rest
            &&& now.written == Seq::<u8>::empty()
            &&& now.outcome == Ok::<(), Error>(())
        },
        adapter.written(packet) matches Err(error) ==> {
            let now = adapter.served(packet.bytes() + rest);
            &&& now.adapter == adapter.after(packet)
            &&& now.unread == rest
            &&& now.written == Seq::<u8>::empty()
            &&& now.outcome == Err::<(), Error>(error)
        },
{
    encapsulation::law_packet_round_trip(packet, rest);
}

/// Whatever an adapter answers, it answers the command that was asked, under
/// the context it was asked with.
pub proof fn law_an_answer_keeps_command_and_context(adapter: AdapterView, packet: PacketView)
    ensures
        adapter.answer(packet) matches Ok(Some(answer)) ==> {
            &&& answer.command == packet.command
            &&& answer.context == packet.context
        },
{
}

/// A scanner that asks for a session gets one, whatever state the adapter
/// is in, and no assembly changes.
pub proof fn law_a_session_is_given(adapter: AdapterView, rest: Seq<u8>)
    ensures
        adapter.written(scanner::registration_packet()) matches Ok(Some(answer)) && {
            let talk = scanner::connect_talk(answer + rest);
            &&& talk.outcome == Ok::<u32, Error>(SESSION)
            &&& talk.unread == rest
        },
        adapter.after(scanner::registration_packet()) == (AdapterView {
            session: SESSION,
            ..adapter
        }),
{
    let answer = PacketView { session: SESSION, ..scanner::registration_packet() };
    encapsulation::law_packet_round_trip(answer, rest);
}

/// A `SendRRData` outside the session the adapter gave is refused, changes
/// nothing, and is no reply to the scanner.
pub proof fn law_without_the_session_nothing_is_done(
    adapter: AdapterView,
    packet: PacketView,
    service: u8,
)
    requires
        packet.command == SEND_RR_DATA,
        adapter.session == 0 || packet.session != adapter.session,
    ensures
        adapter.after(packet) == adapter,
        adapter.answer(packet) matches Ok(Some(answer)) && {
            &&& answer.status == COMMAND_REFUSED
            &&& answer.data == Seq::<u8>::empty()
            &&& scanner::reply_accepted(service, answer) == Err::<ReplyView, Error>(
                Error::RrDataRefused,
            )
        },
{
}

/// A command that is none of the three is refused and changes nothing.
pub proof fn law_another_command_is_refused(adapter: AdapterView, packet: PacketView)
    requires
        packet.command != REGISTER_SESSION,
        packet.command != encapsulation::UNREGISTER_SESSION,
        packet.command != SEND_RR_DATA,
    ensures
        adapter.after(packet) == adapter,
        adapter.answer(packet) == Ok::<_, Error>(
            Some(PacketView { status: COMMAND_REFUSED, data: seq![], ..packet }),
        ),
{
}

/// The request that a scanner put into a packet is the one that an adapter
/// takes out of it.
pub proof fn law_a_request_arrives(session: u32, request: RequestView)
    requires
        !is_reply(request.service),
        request.bytes().len() <= LENGTH_MAX,
    ensures
        request_in(request_packet(session, request)) == Ok::<_, Error>(request),
{
    encapsulation::law_rr_round_trip(request.bytes(), seq![]);
    assert(encapsulation::rr_bytes(request.bytes()) + Seq::<u8>::empty()
        =~= encapsulation::rr_bytes(request.bytes()));
    cip::law_request_round_trip(request);
}

/// On a session, a request that fits in a packet and whose reply does is
/// answered by that reply: the scanner has it where its status is success,
/// and the status where it is not.
#[verifier::rlimit(40)]
pub proof fn law_a_request_is_answered(adapter: AdapterView, request: RequestView, rest: Seq<u8>)
    requires
        adapter.session != 0,
        !is_reply(request.service),
        RR_OVERHEAD + request.bytes().len() <= LENGTH_MAX,
        RR_OVERHEAD + adapter.reply(request).bytes().len() <= LENGTH_MAX,
    ensures
        adapter.written(request_packet(adapter.session, request)) matches Ok(Some(answer)) && {
            let talk = scanner::explicit_talk(adapter.session, request, answer + rest);
            let reply = adapter.reply(request);
            &&& talk.unread == rest
            &&& talk.written == request_packet(adapter.session, request).bytes()
            &&& talk.outcome == if reply.status == SUCCESS {
                Ok::<ReplyView, Error>(reply)
            } else {
                Err(Error::GeneralStatus(reply.status))
            }
        },
        adapter.after(request_packet(adapter.session, request)) == adapter.replied(request),
{
    let packet = request_packet(adapter.session, request);
    let reply = adapter.reply(request);
    law_a_request_arrives(adapter.session, request);
    let answer = PacketView { data: encapsulation::rr_bytes(reply.bytes()), ..packet };
    assert(adapter.answer(packet) == Ok::<_, Error>(Some(answer)));
    encapsulation::law_packet_round_trip(answer, rest);
    encapsulation::law_rr_round_trip(reply.bytes(), seq![]);
    assert(encapsulation::rr_bytes(reply.bytes()) + Seq::<u8>::empty() =~= encapsulation::rr_bytes(
        reply.bytes(),
    ));
    cip::law_reply_round_trip(reply);
}

/// A request about an assembly is its data and a fixed number of bytes.
proof fn lemma_request_length(service: u8, instance: u8, data: Seq<u8>)
    ensures
        assembly_request(service, instance, data).bytes().len() == cip::REQUEST_OVERHEAD
            + data.len(),
{
    cip::law_path_is_whole_words(assembly_request(service, instance, data).path);
}

/// A get gives the scanner what the assembly holds, as far as one packet
/// carries it back, and changes nothing.
#[verifier::rlimit(40)]
pub proof fn law_a_get_gives_what_is_held(adapter: AdapterView, instance: u8, rest: Seq<u8>)
    requires
        adapter.session != 0,
        adapter.assemblies.contains_key(instance),
        RR_OVERHEAD + 4 + adapter.assemblies[instance].len() <= LENGTH_MAX,
    ensures
        ({
            let request = assembly_request(GET_ATTRIBUTE_SINGLE, instance, seq![]);
            let packet = request_packet(adapter.session, request);
            &&& adapter.after(packet) == adapter
            &&& adapter.written(packet) matches Ok(Some(answer)) && {
                let talk = scanner::get_talk(adapter.session, instance, answer + rest);
                &&& talk.outcome == Ok::<_, Error>(adapter.assemblies[instance])
                &&& talk.unread == rest
                &&& talk.written == packet.bytes()
            }
        }),
{
    let request = assembly_request(GET_ATTRIBUTE_SINGLE, instance, seq![]);
    let reply = adapter.reply(request);
    lemma_request_length(GET_ATTRIBUTE_SINGLE, instance, seq![]);
    assert(reply.bytes().len() == 4 + adapter.assemblies[instance].len());
    law_a_request_is_answered(adapter, request, rest);
    assert(reply.data == adapter.assemblies[instance]);
    assert(reply.status == SUCCESS);
}

/// A get of an assembly that holds more than one packet carries back is
/// not answered: it is an error to the adapter.
pub proof fn law_a_get_of_too_much_fails(adapter: AdapterView, instance: u8)
    requires
        adapter.session != 0,
        adapter.assemblies.contains_key(instance),
        RR_OVERHEAD + 4 + adapter.assemblies[instance].len() > LENGTH_MAX,
    ensures
        adapter.written(
            request_packet(
                adapter.session,
                assembly_request(GET_ATTRIBUTE_SINGLE, instance, seq![]),
            ),
        ) is Err,
{
    let request = assembly_request(GET_ATTRIBUTE_SINGLE, instance, seq![]);
    cip::law_path_is_whole_words(request.path);
    law_a_request_arrives(adapter.session, request);
}

/// A set of an assembly that is there succeeds with every payload up to the
/// [`CEILING`], and the assembly then holds that payload; no other assembly
/// changes.
#[verifier::rlimit(40)]
pub proof fn law_a_set_is_held(
    adapter: AdapterView,
    instance: u8,
    bytes: Seq<u8>,
    rest: Seq<u8>,
)
    requires
        adapter.session != 0,
        adapter.assemblies.contains_key(instance),
        bytes.len() <= CEILING,
    ensures
        ({
            let request = assembly_request(SET_ATTRIBUTE_SINGLE, instance, bytes);
            let packet = request_packet(adapter.session, request);
            &&& adapter.after(packet) == (AdapterView {
                assemblies: adapter.assemblies.insert(instance, bytes),
                ..adapter
            })
            &&& adapter.written(packet) matches Ok(Some(answer)) && {
                let talk = scanner::set_talk(adapter.session, instance, bytes, answer + rest);
                &&& talk.outcome == Ok::<(), Error>(())
                &&& talk.unread == rest
                &&& talk.written == packet.bytes()
            }
        }),
{
    let request = assembly_request(SET_ATTRIBUTE_SINGLE, instance, bytes);
    let reply = adapter.reply(request);
    lemma_request_length(SET_ATTRIBUTE_SINGLE, instance, bytes);
    assert(reply.bytes().len() == 4);
    law_a_request_is_answered(adapter, request, rest);
    assert(reply.status == SUCCESS);
}

/// What a set wrote, the next get of the same assembly gives back, for
/// every payload up to the [`CEILING`].
pub proof fn law_a_get_gives_back_what_was_set(
    adapter: AdapterView,
    instance: u8,
    bytes: Seq<u8>,
    rest: Seq<u8>,
)
    requires
        adapter.session != 0,
        adapter.assemblies.contains_key(instance),
        bytes.len() <= CEILING,
    ensures
        ({
            let set = assembly_request(SET_ATTRIBUTE_SINGLE, instance, bytes);
            let get = assembly_request(GET_ATTRIBUTE_SINGLE, instance, seq![]);
            let then = adapter.after(request_packet(adapter.session, set));
            then.written(request_packet(adapter.session, get)) matches Ok(Some(answer)) && {
                let talk = scanner::get_talk(adapter.session, instance, answer + rest);
                &&& talk.outcome == Ok::<_, Error>(bytes)
                &&& talk.unread == rest
            }
        }),
{
    let set = assembly_request(SET_ATTRIBUTE_SINGLE, instance, bytes);
    law_a_set_is_held(adapter, instance, bytes, rest);
    law_a_get_gives_what_is_held(
        adapter.after(request_packet(adapter.session, set)),
        instance,
        rest,
    );
}

/// Whether `request` is a set of the data of assembly `instance`.
pub open spec fn sets(request: RequestView, instance: u8) -> bool {
    &&& request.service == SET_ATTRIBUTE_SINGLE
    &&& request.path.class == ASSEMBLY
    &&& request.path.attribute == DATA_ATTRIBUTE
    &&& request.path.instance == instance as u16
}

/// What is asked of other assemblies, or asked without setting, leaves an
/// assembly as it is.
pub proof fn law_only_its_own_set_changes_an_assembly(
    adapter: AdapterView,
    request: RequestView,
    instance: u8,
)
    requires
        adapter.assemblies.contains_key(instance),
        !sets(request, instance),
    ensures
        adapter.replied(request).assemblies.contains_key(instance),
        adapter.replied(request).assemblies[instance] == adapter.assemblies[instance],
{
}

/// A get gives what was last set: after a set, and whatever else was asked
/// since that did not set the same assembly, the reply to a get carries what
/// that set wrote, and the get changes nothing.
pub proof fn law_a_get_gives_what_was_last_set(
    adapter: AdapterView,
    set: RequestView,
    since: Seq<RequestView>,
    get: RequestView,
    instance: u8,
)
    requires
        adapter.assemblies.contains_key(instance),
        sets(set, instance),
        forall|i: int| 0 <= i < since.len() ==> !sets(#[trigger] since[i], instance),
        get.service == GET_ATTRIBUTE_SINGLE,
        get.path == set.path,
    ensures
        adapter.reply(set) == ReplyView::to(SET_ATTRIBUTE_SINGLE, SUCCESS, seq![]),
        ({
            let now = adapter.replied(set).replied_to_all(since);
            &&& now.reply(get) == ReplyView::to(GET_ATTRIBUTE_SINGLE, SUCCESS, set.data)
            &&& now.replied(get) == now
        }),
{
    lemma_left_as_it_is(adapter.replied(set), since, instance);
}

/// Requests that do not set an assembly leave it as it is.
proof fn lemma_left_as_it_is(adapter: AdapterView, requests: Seq<RequestView>, instance: u8)
    requires
        adapter.assemblies.contains_key(instance),
        forall|i: int| 0 <= i < requests.len() ==> !sets(#[trigger] requests[i], instance),
    ensures
        adapter.replied_to_all(requests).assemblies.contains_key(instance),
        adapter.replied_to_all(requests).assemblies[instance] == adapter.assemblies[instance],
    decreases requests.len(),
{
    if requests.len() > 0 {
        let before = requests.drop_last();
        assert forall|i: int| 0 <= i < before.len() implies !sets(#[trigger] before[i], instance) by {
            assert(before[i] == requests[i]);
        }
        lemma_left_as_it_is(adapter, before, instance);
        law_only_its_own_set_changes_an_assembly(
            adapter.replied_to_all(before),
            requests.last(),
            instance,
        );
    }
}

/// What is not there is refused with the general status for an unknown
/// path, whatever the service, and nothing changes: another class, another
/// attribute, an assembly that is not held, or an instance past what a byte
/// holds.
pub proof fn law_what_is_not_there_is_refused(adapter: AdapterView, request: RequestView)
    requires
        ({
            ||| request.path.class != ASSEMBLY
            ||| request.path.attribute != DATA_ATTRIBUTE
            ||| request.path.instance < 256 && !adapter.assemblies.contains_key(
                request.path.instance as u8,
            )
            ||| request.path.instance >= 256
        }),
    ensures
        adapter.reply(request) == ReplyView::to(request.service, PATH_DESTINATION_UNKNOWN, seq![]),
        adapter.replied(request) == adapter,
{
}

/// A scanner that asks for an assembly the adapter lacks is told so by the
/// general status, for a get as for a set, and the session goes on.
#[verifier::rlimit(40)]
pub proof fn law_the_scanner_is_told_what_is_lacking(
    adapter: AdapterView,
    service: u8,
    instance: u8,
    bytes: Seq<u8>,
    rest: Seq<u8>,
)
    requires
        adapter.session != 0,
        !is_reply(service),
        !adapter.assemblies.contains_key(instance),
        bytes.len() <= CEILING,
    ensures
        ({
            let request = assembly_request(service, instance, bytes);
            let packet = request_packet(adapter.session, request);
            &&& adapter.after(packet) == adapter
            &&& adapter.written(packet) matches Ok(Some(answer)) && {
                let talk = scanner::explicit_talk(adapter.session, request, answer + rest);
                &&& talk.outcome == Err::<ReplyView, Error>(
                    Error::GeneralStatus(PATH_DESTINATION_UNKNOWN),
                )
                &&& talk.unread == rest
            }
        }),
{
    let request = assembly_request(service, instance, bytes);
    let reply = adapter.reply(request);
    lemma_request_length(service, instance, bytes);
    assert(reply.bytes().len() == 4);
    law_a_request_is_answered(adapter, request, rest);
    assert(reply.status == PATH_DESTINATION_UNKNOWN);
}

/// A service that is neither a get nor a set, on an assembly that is there,
/// is answered as not supported and changes nothing.
pub proof fn law_another_service_is_not_supported(adapter: AdapterView, request: RequestView)
    requires
        adapter.holds(request),
        request.service != GET_ATTRIBUTE_SINGLE,
        request.service != SET_ATTRIBUTE_SINGLE,
    ensures
        adapter.reply(request) == ReplyView::to(request.service, SERVICE_NOT_SUPPORTED, seq![]),
        adapter.replied(request) == adapter,
{
}

/// What a scanner sends in a session of one request: it registers, asks and
/// unregisters.
pub open spec fn one_request(request: RequestView) -> Seq<u8> {
    scanner::registration_packet().bytes() + (request_packet(SESSION, request).bytes()
        + scanner::unregister_packet(SESSION).bytes())
}

/// What an adapter that answers the request makes of a session of one: two
/// answers, and what registering and the request leave of it.
#[verifier::rlimit(40)]
proof fn lemma_one_request_served(adapter: AdapterView, request: RequestView) -> (answers: (
    Seq<u8>,
    Seq<u8>,
))
    requires
        request_packet(SESSION, request).fits(),
        adapter.after(scanner::registration_packet()).written(
            request_packet(SESSION, request),
        ) matches Ok(Some(_)),
    ensures
        ({
            let registered = adapter.after(scanner::registration_packet());
            let packet = request_packet(SESSION, request);
            let served = adapter.served(one_request(request));
            &&& adapter.written(scanner::registration_packet()) == Ok::<_, Error>(Some(answers.0))
            &&& registered.written(packet) == Ok::<_, Error>(Some(answers.1))
            &&& served.written == answers.0 + answers.1
            &&& served.outcome == Ok::<(), Error>(())
            &&& served.unread == Seq::<u8>::empty()
            &&& served.adapter == registered.after(packet)
        }),
{
    let none = Seq::<u8>::empty();
    let registration = scanner::registration_packet();
    let packet = request_packet(SESSION, request);
    let bye = scanner::unregister_packet(SESSION);
    let registered = adapter.after(registration);
    let then = registered.after(packet);
    law_a_session_is_given(adapter, none);
    law_serving_goes_packet_by_packet(adapter, registration, packet.bytes() + bye.bytes());
    let first = adapter.written(registration)->Ok_0->Some_0;
    law_serving_goes_packet_by_packet(registered, packet, bye.bytes());
    let second = registered.written(packet)->Ok_0->Some_0;
    assert(bye.bytes() + none =~= bye.bytes());
    assert(then.written(bye) == Ok::<Option<Seq<u8>>, Error>(None));
    law_serving_goes_packet_by_packet(then, bye, none);
    assert(first + (second + none) =~= first + second);
    (first, second)
}

proof fn lemma_in_a_row(first: Seq<u8>, second: Seq<u8>, third: Seq<u8>)
    ensures
        first + second + third == first + (second + third),
{
    assert(first + second + third =~= first + (second + third));
}

/// A near end that is registered and whose set succeeds sends both and
/// unregisters.
proof fn lemma_near_end(instance: u8, bytes: Seq<u8>, inbound: Seq<u8>, session: u32)
    requires
        scanner::connect_talk(inbound).outcome == Ok::<u32, Error>(session),
        scanner::set_talk(
            session,
            instance,
            bytes,
            scanner::connect_talk(inbound).unread,
        ).outcome == Ok::<(), Error>(()),
    ensures
        ({
            let first = scanner::connect_talk(inbound);
            let second = scanner::set_talk(session, instance, bytes, first.unread);
            let talk = transport::send_talk(instance, bytes, inbound);
            &&& talk.outcome == Ok::<(), Error>(())
            &&& talk.unread == second.unread
            &&& talk.written == first.written + second.written + scanner::unregister_packet(
                session,
            ).bytes()
        }),
{
}

/// A loopback round returns the payload whole, for every payload up to the
/// [`CEILING`]: the far end, served what the near end sends, ends without
/// error with the payload as its assembly; and the near end, given what the
/// far end answers, sends exactly that and succeeds.
#[verifier::rlimit(40)]
pub proof fn law_a_loopback_round_returns_the_payload(
    transport: TransportView,
    peer: Seq<char>,
    bytes: Seq<u8>,
)
    requires
        bytes.len() <= CEILING,
    ensures
        ({
            let sent = one_request(
                assembly_request(SET_ATTRIBUTE_SINGLE, transport.instance, bytes),
            );
            let served = transport.waiting(peer).served(sent);
            let talk = transport::send_talk(transport.instance, bytes, served.written);
            &&& served.outcome == Ok::<(), Error>(())
            &&& served.unread == Seq::<u8>::empty()
            &&& served.adapter.assemblies[transport.instance] == bytes
            &&& talk.outcome == Ok::<(), Error>(())
            &&& talk.written == sent
            &&& talk.unread == Seq::<u8>::empty()
        }),
{
    let instance = transport.instance;
    let none = Seq::<u8>::empty();
    let waiting = transport.waiting(peer);
    let registered = waiting.after(scanner::registration_packet());
    let set = assembly_request(SET_ATTRIBUTE_SINGLE, instance, bytes);
    assert(request_packet(SESSION, set).fits()) by {
        scanner::law_ceiling_is_what_one_message_carries(
            SESSION,
            SET_ATTRIBUTE_SINGLE,
            instance,
            bytes,
        );
    }
    law_a_set_is_held(registered, instance, bytes, none);
    let (first, second) = lemma_one_request_served(waiting, set);
    law_a_session_is_given(waiting, second);
    assert(second + none =~= second);
    lemma_near_end(instance, bytes, first + second, SESSION);
    lemma_in_a_row(
        scanner::registration_packet().bytes(),
        request_packet(SESSION, set).bytes(),
        scanner::unregister_packet(SESSION).bytes(),
    );
}

/// A scanner that is registered and whose get succeeds sends both and
/// unregisters.
proof fn lemma_scanner_read(instance: u8, inbound: Seq<u8>, session: u32)
    requires
        scanner::connect_talk(inbound).outcome == Ok::<u32, Error>(session),
        scanner::get_talk(session, instance, scanner::connect_talk(inbound).unread).outcome is Ok,
    ensures
        ({
            let first = scanner::connect_talk(inbound);
            let second = scanner::get_talk(session, instance, first.unread);
            let talk = transport::receive_talk(instance, inbound);
            &&& talk.outcome == second.outcome
            &&& talk.unread == second.unread
            &&& talk.written == first.written + second.written + scanner::unregister_packet(
                session,
            ).bytes()
        }),
{
}

/// A receive returns what the assembly holds, as far as one packet carries
/// it back, and leaves every assembly as it was: the adapter, served what
/// the receiving end sends, ends without error and changed in nothing but
/// the session it gave; and the receiving end, given what the adapter
/// answers, sends exactly that and has the assembly's data.
#[verifier::rlimit(40)]
pub proof fn law_a_receive_returns_the_assembly(adapter: AdapterView, instance: u8)
    requires
        adapter.assemblies.contains_key(instance),
        RR_OVERHEAD + 4 + adapter.assemblies[instance].len() <= LENGTH_MAX,
    ensures
        ({
            let sent = one_request(assembly_request(GET_ATTRIBUTE_SINGLE, instance, seq![]));
            let served = adapter.served(sent);
            let talk = transport::receive_talk(instance, served.written);
            &&& served.outcome == Ok::<(), Error>(())
            &&& served.unread == Seq::<u8>::empty()
            &&& served.adapter == (AdapterView { session: SESSION, ..adapter })
            &&& talk.outcome == Ok::<_, Error>(adapter.assemblies[instance])
            &&& talk.written == sent
            &&& talk.unread == Seq::<u8>::empty()
        }),
{
    let none = Seq::<u8>::empty();
    let registered = adapter.after(scanner::registration_packet());
    let get = assembly_request(GET_ATTRIBUTE_SINGLE, instance, none);
    assert(request_packet(SESSION, get).fits()) by {
        scanner::law_ceiling_is_what_one_message_carries(
            SESSION,
            GET_ATTRIBUTE_SINGLE,
            instance,
            none,
        );
    }
    law_a_get_gives_what_is_held(registered, instance, none);
    let (first, second) = lemma_one_request_served(adapter, get);
    law_a_session_is_given(adapter, second);
    assert(second + none =~= second);
    lemma_scanner_read(instance, first + second, SESSION);
    lemma_in_a_row(
        scanner::registration_packet().bytes(),
        request_packet(SESSION, get).bytes(),
        scanner::unregister_packet(SESSION).bytes(),
    );
}

/// A payload over the [`CEILING`] is refused before anything is sent for it.
pub proof fn law_over_the_ceiling_nothing_is_set(
    session: u32,
    instance: u8,
    bytes: Seq<u8>,
    inbound: Seq<u8>,
)
    requires
        bytes.len() > CEILING,
    ensures
        scanner::set_talk(session, instance, bytes, inbound) == (Talk {
            unread: inbound,
            written: seq![],
            outcome: Err::<(), Error>(Error::OverCeiling),
        }),
{
}

} // verus!
