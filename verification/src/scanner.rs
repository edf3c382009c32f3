//! The scanner's side of one session: register, get and set an assembly's
//! data attribute by explicit message, unregister. What a Location does on
//! every receive and every send.
//!
//! Each message is one exchange: bytes to the adapter, then one packet
//! back. The steps are functions of their own ([`Scanner::registration`]
//! and [`Scanner::registered`], [`Scanner::get_request`] and
//! [`Scanner::got`], ...), for a carrier that sends and waits between
//! them; [`Scanner::connect`], [`Scanner::get`], [`Scanner::set`] and
//! [`Scanner::unregister`] run them on two ends held as bytes.
use vstd::prelude::*;
use vstd::slice::slice_to_vec;

use crate::cip;
use crate::cip::Path;
use crate::cip::Reply;
use crate::cip::ReplyView;
use crate::cip::Request;
use crate::cip::RequestView;
use crate::cip::ASSEMBLY;
use crate::cip::DATA_ATTRIBUTE;
use crate::cip::GET_ATTRIBUTE_SINGLE;
use crate::cip::SET_ATTRIBUTE_SINGLE;
use crate::cip::SUCCESS;
use crate::encapsulation;
use crate::encapsulation::Packet;
use crate::encapsulation::PacketView;
use crate::encapsulation::REGISTER_SESSION;
use crate::encapsulation::SEND_RR_DATA;
use crate::encapsulation::UNREGISTER_SESSION;
use crate::error::agrees;
use crate::error::Error;
use crate::wire;
use crate::CEILING;

verus! {

/// The scanner's side of one session.
pub struct Scanner {
    session: u32,
}

impl View for Scanner {
    type V = u32;

    /// The session handle the adapter gave.
    closed spec fn view(&self) -> u32 {
        self.session
    }
}

/// What talking to an adapter comes to: what it had sent behind the last
/// packet read, what was written to it, and how it ended.
#[verifier::ext_equal]
pub struct Talk<T> {
    pub unread: Seq<u8>,
    pub written: Seq<u8>,
    pub outcome: Result<T, Error>,
}

/// The packet that asks for a session.
pub open spec fn registration_packet() -> PacketView {
    PacketView::of(REGISTER_SESSION, 0, seq![1, 0, 0, 0])
}

/// The packet that ends `session`.
pub open spec fn unregister_packet(session: u32) -> PacketView {
    PacketView::of(UNREGISTER_SESSION, session, seq![])
}

/// The session handle that `answer` gives.
pub open spec fn session_given(answer: PacketView) -> Result<u32, Error> {
    if answer.command == REGISTER_SESSION && answer.status == 0 && answer.session != 0 {
        Ok(answer.session)
    } else {
        Err(Error::NotRegistered)
    }
}

/// The request for `service` on the data of assembly `instance`.
pub open spec fn assembly_request(service: u8, instance: u8, data: Seq<u8>) -> RequestView {
    RequestView {
        service,
        path: Path { class: ASSEMBLY, instance: instance as u16, attribute: DATA_ATTRIBUTE },
        data,
    }
}

/// The packet under `session` that carries `request`.
pub open spec fn request_packet(session: u32, request: RequestView) -> PacketView {
    PacketView::of(SEND_RR_DATA, session, encapsulation::rr_bytes(request.bytes()))
}

/// What goes to the adapter to ask `request` under `session`.
pub open spec fn asked(session: u32, request: RequestView) -> Result<Seq<u8>, Error> {
    match encapsulation::rr_encoded(request.bytes()) {
        Ok(data) => PacketView::of(SEND_RR_DATA, session, data).encoded(),
        Err(error) => Err(error),
    }
}

/// What goes to the adapter to set assembly `instance` to `bytes`.
pub open spec fn set_asked(session: u32, instance: u8, bytes: Seq<u8>) -> Result<Seq<u8>, Error> {
    if bytes.len() > CEILING {
        Err(Error::OverCeiling)
    } else {
        asked(session, assembly_request(SET_ATTRIBUTE_SINGLE, instance, bytes))
    }
}

/// The reply to `service` that `answer` carries, where it is one of success.
pub open spec fn reply_accepted(service: u8, answer: PacketView) -> Result<ReplyView, Error> {
    if answer.command != SEND_RR_DATA || answer.status != 0 {
        Err(Error::RrDataRefused)
    } else {
        match encapsulation::rr_decoded(answer.data) {
            Ok(cip) => match ReplyView::decoded(cip) {
                Ok(reply) => if reply.service != cip::reply_service(service) {
                    Err(Error::OtherService)
                } else if reply.status != SUCCESS {
                    Err(Error::GeneralStatus(reply.status))
                } else {
                    Ok(reply)
                },
                Err(error) => Err(error),
            },
            Err(error) => Err(error),
        }
    }
}

/// The assembly's data that `answer` brings to a get.
pub open spec fn data_got(answer: PacketView) -> Result<Seq<u8>, Error> {
    match reply_accepted(GET_ATTRIBUTE_SINGLE, answer) {
        Ok(reply) => Ok(reply.data),
        Err(error) => Err(error),
    }
}

/// What `answer` says of a set.
pub open spec fn set_done(answer: PacketView) -> Result<(), Error> {
    match reply_accepted(SET_ATTRIBUTE_SINGLE, answer) {
        Ok(_) => Ok(()),
        Err(error) => Err(error),
    }
}

/// The answer that `inbound` begins with.
pub open spec fn answer_in(inbound: Seq<u8>) -> Result<PacketView, Error> {
    match encapsulation::next_packet(inbound) {
        Ok(Some(answer)) => Ok(answer),
        Ok(None) => Err(Error::ClosedBeforeAnswering),
        Err(error) => Err(error),
    }
}

/// What registering comes to where the adapter sends `inbound`: the session
/// handle it gives.
pub open spec fn connect_talk(inbound: Seq<u8>) -> Talk<u32> {
    Talk {
        unread: encapsulation::behind_packet(inbound),
        written: registration_packet().bytes(),
        outcome: match answer_in(inbound) {
            Ok(answer) => session_given(answer),
            Err(error) => Err(error),
        },
    }
}

/// What asking `request` under `session` comes to where the adapter sends
/// `inbound`: its reply. A request that fits in no packet sends and reads
/// nothing.
pub open spec fn explicit_talk(session: u32, request: RequestView, inbound: Seq<u8>) -> Talk<
    ReplyView,
> {
    match asked(session, request) {
        Ok(written) => Talk {
            unread: encapsulation::behind_packet(inbound),
            written,
            outcome: match answer_in(inbound) {
                Ok(answer) => reply_accepted(request.service, answer),
                Err(error) => Err(error),
            },
        },
        Err(error) => Talk { unread: inbound, written: seq![], outcome: Err(error) },
    }
}

/// What a get of assembly `instance` comes to where the adapter sends
/// `inbound`: the assembly's data.
pub open spec fn get_talk(session: u32, instance: u8, inbound: Seq<u8>) -> Talk<Seq<u8>> {
    let talk = explicit_talk(
        session,
        assembly_request(GET_ATTRIBUTE_SINGLE, instance, seq![]),
        inbound,
    );
    Talk {
        unread: talk.unread,
        written: talk.written,
        outcome: match talk.outcome {
            Ok(reply) => Ok(reply.data),
            Err(error) => Err(error),
        },
    }
}

/// What a set of assembly `instance` to `bytes` comes to where the adapter
/// sends `inbound`. One over the [`CEILING`] sends and reads nothing.
pub open spec fn set_talk(session: u32, instance: u8, bytes: Seq<u8>, inbound: Seq<u8>) -> Talk<
    (),
> {
    if bytes.len() > CEILING {
        Talk { unread: inbound, written: seq![], outcome: Err(Error::OverCeiling) }
    } else {
        let talk = explicit_talk(
            session,
            assembly_request(SET_ATTRIBUTE_SINGLE, instance, bytes),
            inbound,
        );
        Talk {
            unread: talk.unread,
            written: talk.written,
            outcome: match talk.outcome {
                Ok(_) => Ok(()),
                Err(error) => Err(error),
            },
        }
    }
}

/// Refuse a payload over the [`CEILING`].
pub fn within_ceiling(length: usize) -> (within: Result<(), Error>)
    ensures
        within == if length <= CEILING {
            Ok::<(), Error>(())
        } else {
            Err(Error::OverCeiling)
        },
{
    if length <= CEILING {
        Ok(())
    } else {
        Err(Error::OverCeiling)
    }
}

impl Scanner {
    /// A session handle is never 0.
    #[verifier::type_invariant]
    spec fn registered_once(self) -> bool {
        self.session != 0
    }

    /// What goes to the adapter to ask for a session.
    pub fn registration() -> (bytes: Vec<u8>)
        ensures
            bytes@ == registration_packet().bytes(),
    {
        Packet::new(REGISTER_SESSION, 0, encapsulation::register_data()).put()
    }

    /// The session that `answer` registers.
    ///
    /// # Errors
    /// Where the adapter did not register.
    pub fn registered(answer: &Packet) -> (scanner: Result<Self, Error>)
        ensures
            agrees(scanner, session_given(answer@)),
    {
        if answer.command != REGISTER_SESSION || answer.status != 0 || answer.session == 0 {
            return Err(Error::NotRegistered);
        }
        Ok(Scanner { session: answer.session })
    }

    /// Register a session: what goes to the adapter goes behind `writer`,
    /// what it sends is on `reader`.
    ///
    /// # Errors
    /// Where the adapter went away or did not register.
    pub fn connect(reader: &mut &[u8], writer: &mut Vec<u8>) -> (scanner: Result<Self, Error>)
        ensures
            ({
                let talk = connect_talk(old(reader)@);
                &&& final(reader)@ == talk.unread
                &&& final(writer)@ == old(writer)@ + talk.written
                &&& agrees(scanner, talk.outcome)
            }),
    {
        let bytes: Vec<u8> = Scanner::registration();
        match Scanner::exchange(bytes.as_slice(), reader, writer) {
            Ok(answer) => Scanner::registered(&answer),
            Err(error) => Err(error),
        }
    }

    /// The session handle the adapter gave.
    pub fn session(&self) -> (session: u32)
        ensures
            session == self@,
            session != 0,
    {
        proof {
            use_type_invariant(self);
        }
        self.session
    }

    /// What goes to the adapter to get the data of assembly `instance`.
    ///
    /// # Errors
    /// None: a get always fits in a packet.
    pub fn get_request(&self, instance: u8) -> (bytes: Result<Vec<u8>, Error>)
        ensures
            agrees(
                bytes,
                asked(self@, assembly_request(GET_ATTRIBUTE_SINGLE, instance, seq![])),
            ),
            bytes is Ok,
    {
        let none: Vec<u8> = Vec::new();
        assert(none@ =~= seq![]);
        self.ask(GET_ATTRIBUTE_SINGLE, instance, none.as_slice())
    }

    /// What goes to the adapter to set the data of assembly `instance` to
    /// `bytes`.
    ///
    /// # Errors
    /// Over the [`CEILING`].
    pub fn set_request(&self, instance: u8, bytes: &[u8]) -> (request: Result<Vec<u8>, Error>)
        ensures
            agrees(request, set_asked(self@, instance, bytes@)),
            request is Ok <==> bytes@.len() <= CEILING,
    {
        match within_ceiling(bytes.len()) {
            Ok(_) => self.ask(SET_ATTRIBUTE_SINGLE, instance, bytes),
            Err(error) => Err(error),
        }
    }

    /// The data attribute of assembly `instance`.
    ///
    /// # Errors
    /// An adapter that has no such assembly or went away.
    pub fn get(&self, instance: u8, reader: &mut &[u8], writer: &mut Vec<u8>) -> (data: Result<
        Vec<u8>,
        Error,
    >)
        ensures
            ({
                let talk = get_talk(self@, instance, old(reader)@);
                &&& final(reader)@ == talk.unread
                &&& final(writer)@ == old(writer)@ + talk.written
                &&& agrees(data, talk.outcome)
            }),
    {
        let none: Vec<u8> = Vec::new();
        assert(none@ =~= seq![]);
        match self.explicit(GET_ATTRIBUTE_SINGLE, instance, none.as_slice(), reader, writer) {
            Ok(reply) => Ok(reply.data),
            Err(error) => Err(error),
        }
    }

    /// Set the data attribute of assembly `instance` to `bytes`.
    ///
    /// # Errors
    /// Over the [`CEILING`], or an adapter that refused or went away.
    pub fn set(
        &self,
        instance: u8,
        bytes: &[u8],
        reader: &mut &[u8],
        writer: &mut Vec<u8>,
    ) -> (outcome: Result<(), Error>)
        ensures
            ({
                let talk = set_talk(self@, instance, bytes@, old(reader)@);
                &&& final(reader)@ == talk.unread
                &&& final(writer)@ == old(writer)@ + talk.written
                &&& outcome == talk.outcome
            }),
    {
        match within_ceiling(bytes.len()) {
            Ok(_) => {},
            Err(error) => {
                assert(writer@ =~= old(writer)@ + seq![]);
                return Err(error);
            },
        }
        match self.explicit(SET_ATTRIBUTE_SINGLE, instance, bytes, reader, writer) {
            Ok(_) => Ok(()),
            Err(error) => Err(error),
        }
    }

    /// What goes to the adapter to end the session.
    pub fn farewell(&self) -> (bytes: Vec<u8>)
        ensures
            bytes@ == unregister_packet(self@).bytes(),
    {
        let none: Vec<u8> = Vec::new();
        assert(none@ =~= seq![]);
        Packet::new(UNREGISTER_SESSION, self.session, none).put()
    }

    /// Unregister and close. No answer is due.
    pub fn unregister(self, writer: &mut Vec<u8>)
        ensures
            final(writer)@ == old(writer)@ + unregister_packet(self@).bytes(),
    {
        wire::push_bytes(writer, self.farewell().as_slice());
    }

    /// What goes to the adapter to ask for `service` on the data of
    /// assembly `instance`.
    ///
    /// # Errors
    /// Data over what one item or one packet carries.
    pub fn ask(&self, service: u8, instance: u8, data: &[u8]) -> (bytes: Result<Vec<u8>, Error>)
        ensures
            agrees(bytes, asked(self@, assembly_request(service, instance, data@))),
            bytes is Ok <==> data@.len() <= CEILING,
    {
        let request: Request = Request {
            service,
            path: Path { class: ASSEMBLY, instance: instance as u16, attribute: DATA_ATTRIBUTE },
            data: slice_to_vec(data),
        };
        assert(request@ == assembly_request(service, instance, data@));
        proof {
            cip::law_path_is_whole_words(request.path);
        }
        match encapsulation::rr_data(request.encode().as_slice()) {
            Ok(data) => Packet::new(SEND_RR_DATA, self.session, data).encode(),
            Err(error) => Err(error),
        }
    }

    /// The reply to `service` that `answer` carries.
    ///
    /// # Errors
    /// An adapter that refused the packet, an answer that carries no reply,
    /// a reply to another service, or one with a status of its own.
    pub fn accept(service: u8, answer: &Packet) -> (reply: Result<Reply, Error>)
        ensures
            agrees(reply, reply_accepted(service, answer@)),
    {
        if answer.command != SEND_RR_DATA || answer.status != 0 {
            return Err(Error::RrDataRefused);
        }
        let cip: Vec<u8> = match encapsulation::rr_cip(answer.data.as_slice()) {
            Ok(cip) => cip,
            Err(error) => return Err(error),
        };
        let reply: Reply = match Reply::decode(cip.as_slice()) {
            Ok(reply) => reply,
            Err(error) => return Err(error),
        };
        if reply.service != cip::with_reply_bit(service) {
            return Err(Error::OtherService);
        }
        if reply.status != SUCCESS {
            return Err(Error::GeneralStatus(reply.status));
        }
        Ok(reply)
    }

    /// The assembly's data that `answer` brings to a get.
    ///
    /// # Errors
    /// An answer that [`Scanner::accept`] does not take for a get's.
    pub fn got(answer: &Packet) -> (data: Result<Vec<u8>, Error>)
        ensures
            agrees(data, data_got(answer@)),
    {
        match Scanner::accept(GET_ATTRIBUTE_SINGLE, answer) {
            Ok(reply) => Ok(reply.data),
            Err(error) => Err(error),
        }
    }

    /// Whether `answer` says that a set was done.
    ///
    /// # Errors
    /// An answer that [`Scanner::accept`] does not take for a set's.
    pub fn was_set(answer: &Packet) -> (outcome: Result<(), Error>)
        ensures
            outcome == set_done(answer@),
    {
        match Scanner::accept(SET_ATTRIBUTE_SINGLE, answer) {
            Ok(_) => Ok(()),
            Err(error) => Err(error),
        }
    }

    /// Ask for `service` on the data of assembly `instance` and accept the
    /// reply.
    ///
    /// # Errors
    /// Data over what one packet carries, an adapter that went away, or an
    /// answer that is not accepted.
    pub fn explicit(
        &self,
        service: u8,
        instance: u8,
        data: &[u8],
        reader: &mut &[u8],
        writer: &mut Vec<u8>,
    ) -> (reply: Result<Reply, Error>)
        ensures
            ({
                let request = assembly_request(service, instance, data@);
                let talk = explicit_talk(self@, request, old(reader)@);
                &&& final(reader)@ == talk.unread
                &&& final(writer)@ == old(writer)@ + talk.written
                &&& agrees(reply, talk.outcome)
            }),
    {
        let bytes: Vec<u8> = match self.ask(service, instance, data) {
            Ok(bytes) => bytes,
            Err(error) => {
                assert(writer@ =~= old(writer)@ + seq![]);
                return Err(error);
            },
        };
        match Scanner::exchange(bytes.as_slice(), reader, writer) {
            Ok(answer) => Scanner::accept(service, &answer),
            Err(error) => Err(error),
        }
    }

    /// Send `bytes` and read the packet that answers them.
    ///
    /// # Errors
    /// An adapter that closed before answering, or an answer that is no
    /// packet.
    pub fn exchange(bytes: &[u8], reader: &mut &[u8], writer: &mut Vec<u8>) -> (answer: Result<
        Packet,
        Error,
    >)
        ensures
            final(reader)@ == encapsulation::behind_packet(old(reader)@),
            final(writer)@ == old(writer)@ + bytes@,
            agrees(answer, answer_in(old(reader)@)),
    {
        wire::push_bytes(writer, bytes);
        match Packet::read(reader) {
            Ok(answer) => Scanner::answered(answer),
            Err(error) => Err(error),
        }
    }

    /// The answer that was due, where one came.
    ///
    /// # Errors
    /// An adapter that closed before answering.
    pub fn answered(answer: Option<Packet>) -> (packet: Result<Packet, Error>)
        ensures
            packet == match answer {
                Some(answer) => Ok(answer),
                None => Err(Error::ClosedBeforeAnswering),
            },
    {
        match answer {
            Some(answer) => Ok(answer),
            None => Err(Error::ClosedBeforeAnswering),
        }
    }
}

/// One message carries what is to be set exactly where it is no longer than
/// the [`CEILING`].
pub proof fn law_ceiling_is_what_one_message_carries(
    session: u32,
    service: u8,
    instance: u8,
    data: Seq<u8>,
)
    ensures
        asked(session, assembly_request(service, instance, data)) is Ok <==> data.len() <= CEILING,
        data.len() <= CEILING ==> asked(session, assembly_request(service, instance, data))
            == Ok::<_, Error>(
            request_packet(session, assembly_request(service, instance, data)).bytes(),
        ),
        data.len() <= CEILING ==> request_packet(
            session,
            assembly_request(service, instance, data),
        ).fits(),
{
    cip::law_path_is_whole_words(assembly_request(service, instance, data).path);
}

/// A get in steps is a whole get: sending what [`Scanner::get_request`] makes
/// and holding the answer to [`Scanner::got`] writes and gives what
/// [`Scanner::get`] does.
pub proof fn law_a_get_is_its_steps(session: u32, instance: u8, inbound: Seq<u8>)
    ensures
        ({
            let talk = get_talk(session, instance, inbound);
            &&& asked(session, assembly_request(GET_ATTRIBUTE_SINGLE, instance, seq![]))
                == Ok::<_, Error>(talk.written)
            &&& talk.outcome == match answer_in(inbound) {
                Ok(answer) => data_got(answer),
                Err(error) => Err(error),
            }
        }),
{
    law_ceiling_is_what_one_message_carries(session, GET_ATTRIBUTE_SINGLE, instance, seq![]);
}

/// A set in steps is a whole set: sending what [`Scanner::set_request`] makes
/// and holding the answer to [`Scanner::was_set`] writes and gives what
/// [`Scanner::set`] does, and what makes no request is the set's own error.
pub proof fn law_a_set_is_its_steps(session: u32, instance: u8, bytes: Seq<u8>, inbound: Seq<u8>)
    ensures
        ({
            let talk = set_talk(session, instance, bytes, inbound);
            match set_asked(session, instance, bytes) {
                Ok(request) => {
                    &&& talk.written == request
                    &&& talk.outcome == match answer_in(inbound) {
                        Ok(answer) => set_done(answer),
                        Err(error) => Err(error),
                    }
                },
                Err(error) => {
                    &&& talk.written == Seq::<u8>::empty()
                    &&& talk.outcome == Err::<(), Error>(error)
                },
            }
        }),
{
}

/// What asks for a session: a `RegisterSession`, 0x65, of four bytes under
/// no session, with no status, context or options, that carries protocol
/// version 1 and no options.
pub proof fn law_a_registration_on_the_wire()
    ensures
        registration_packet().bytes() == seq![
            0x65u8, 0, 4, 0, 0, 0, 0, 0, 0, 0, 0, 0, 0, 0, 0, 0, 0, 0, 0, 0, 0, 0, 0, 0, 1, 0, 0, 0,
        ],
{
    assert(registration_packet().bytes() =~= seq![
        0x65u8, 0, 4, 0, 0, 0, 0, 0, 0, 0, 0, 0, 0, 0, 0, 0, 0, 0, 0, 0, 0, 0, 0, 0, 1, 0, 0, 0,
    ]);
}

/// What ends a session: an `UnregisterSession`, 0x66, of no bytes under that
/// session's handle, with no status, context or options.
pub proof fn law_an_unregistering_on_the_wire(session: u32)
    ensures
        ({
            let wire = unregister_packet(session).bytes();
            &&& wire.len() == 24
            &&& wire.take(4) == seq![0x66u8, 0, 0, 0]
            &&& wire[4] + 0x100 * wire[5] + 0x1_0000 * wire[6] + 0x100_0000 * wire[7] == session
            &&& forall|i: int| 8 <= i < 24 ==> #[trigger] wire[i] == 0
        }),
{
    let wire = unregister_packet(session).bytes();
    encapsulation::law_a_packet_is_a_header_and_data(unregister_packet(session));
    assert(wire.take(4) =~= seq![0x66u8, 0, 0, 0]);
}

/// What asks about an assembly, byte by byte, up to the [`CEILING`]: a
/// `SendRRData`, 0x6f, under the session, with the length of all behind the
/// header; the items; the service; three words of path to class 4, the
/// instance and attribute 3; and the data. Over the ceiling no packet
/// carries it, and then no item.
pub proof fn law_a_request_on_the_wire(session: u32, service: u8, instance: u8, data: Seq<u8>)
    ensures
        data.len() <= 65_511 ==> {
            &&& asked(session, assembly_request(service, instance, data)) matches Ok(wire) && {
                &&& wire.len() == 48 + data.len()
                &&& wire.take(2) == seq![0x6fu8, 0]
                &&& wire[2] + 0x100 * wire[3] == 24 + data.len()
                &&& wire[4] + 0x100 * wire[5] + 0x1_0000 * wire[6] + 0x100_0000 * wire[7]
                    == session
                &&& forall|i: int| 8 <= i < 24 ==> #[trigger] wire[i] == 0
                &&& wire.subrange(24, 38) == seq![0u8, 0, 0, 0, 0, 0, 2, 0, 0, 0, 0, 0, 0xb2, 0]
                &&& wire[38] + 0x100 * wire[39] == 8 + data.len()
                &&& wire.subrange(40, 48) == seq![service, 3, 0x20, 4, 0x24, instance, 0x30, 3]
                &&& wire.skip(48) == data
            }
        },
        65_511 < data.len() <= 65_527 ==> asked(session, assembly_request(service, instance, data))
            == Err::<Seq<u8>, _>(Error::PacketTooLong),
        data.len() > 65_527 ==> asked(session, assembly_request(service, instance, data)) == Err::<
            Seq<u8>,
            _,
        >(Error::ItemTooLong),
{
    let request = assembly_request(service, instance, data);
    let cip = request.bytes();
    law_ceiling_is_what_one_message_carries(session, service, instance, data);
    cip::law_path_is_whole_words(request.path);
    if data.len() <= 65_511 {
        let packet = request_packet(session, request);
        let wire = packet.bytes();
        let items = packet.data;
        cip::law_a_request_is_service_path_and_data(request);
        cip::law_a_path_is_three_segments(request.path);
        encapsulation::law_cip_comes_behind_a_null_address(cip);
        encapsulation::law_a_packet_is_a_header_and_data(packet);
        assert(wire.take(2) =~= seq![0x6fu8, 0]);
        assert(wire.subrange(24, 38) =~= items.take(14));
        assert(wire[38] == wire.skip(24)[14] && wire[39] == wire.skip(24)[15]);
        assert(cip =~= items.skip(16));
        assert(wire.skip(40) =~= wire.skip(24).skip(16));
        assert(cip.take(8) =~= seq![service, 3, 0x20, 4, 0x24, instance, 0x30, 3]);
        assert(wire.subrange(40, 48) =~= wire.skip(40).take(8));
        assert(wire.skip(48) =~= wire.skip(40).skip(8));
        assert(cip.skip(8) =~= data);
        assert forall|i: int| 8 <= i < 24 implies #[trigger] wire[i] == 0 by {
            if 12 <= i < 20 {
                assert(wire[i] == wire.subrange(12, 20)[i - 12]);
            } else if 20 <= i {
                assert(wire[i] == wire.subrange(20, 24)[i - 20]);
            }
        }
    }
}

/// What asks for a set asks for service 0x10 with the payload as its data,
/// up to the [`CEILING`]; over it, there is nothing to ask.
pub proof fn law_a_set_asks_for_its_payload(session: u32, instance: u8, bytes: Seq<u8>)
    ensures
        bytes.len() <= 65_511 ==> set_asked(session, instance, bytes) == asked(
            session,
            assembly_request(0x10, instance, bytes),
        ),
        bytes.len() > 65_511 ==> set_asked(session, instance, bytes) == Err::<Seq<u8>, _>(
            Error::OverCeiling,
        ),
{
}

/// A session is given by an answer to the registration, 0x65, that has no
/// status and a handle, and it is that handle; any other answer gives none.
pub proof fn law_a_session_is_what_a_registration_gives(answer: PacketView)
    ensures
        session_given(answer) == if answer.command == 0x65 && answer.status == 0 && answer.session
            != 0 {
            Ok::<u32, Error>(answer.session)
        } else {
            Err(Error::NotRegistered)
        },
{
}

/// What is accepted of any answer as the reply to a service: what it carries
/// behind its items, where it is a `SendRRData`, 0x6f, of no status, the
/// service is the one asked with the reply bit, and the general status is
/// 0. Another general status is told; what fails first says what is wrong.
pub proof fn law_what_is_accepted(service: u8, answer: PacketView)
    ensures
        answer.command != 0x6f || answer.status != 0 ==> reply_accepted(service, answer) == Err::<
            ReplyView,
            _,
        >(Error::RrDataRefused),
        answer.command == 0x6f && answer.status == 0 ==> match encapsulation::rr_decoded(
            answer.data,
        ) {
            Err(error) => reply_accepted(service, answer) == Err::<ReplyView, Error>(error),
            Ok(cip) => match ReplyView::decoded(cip) {
                Err(error) => reply_accepted(service, answer) == Err::<ReplyView, Error>(error),
                Ok(reply) => reply_accepted(service, answer) == if reply.service != service | 0x80 {
                    Err::<ReplyView, Error>(Error::OtherService)
                } else if reply.status != 0 {
                    Err(Error::GeneralStatus(reply.status))
                } else {
                    Ok(reply)
                },
            },
        },
{
    cip::law_the_reply_bit_is_the_highest(service);
}

/// A get has the data, and a set nothing but its success, of what is
/// accepted as the reply to its own service, 0x0e and 0x10; either has the
/// error where none is.
pub proof fn law_a_get_has_the_data_and_a_set_the_success(answer: PacketView)
    ensures
        match reply_accepted(0x0e, answer) {
            Ok(reply) => data_got(answer) == Ok::<_, Error>(reply.data),
            Err(error) => data_got(answer) == Err::<Seq<u8>, Error>(error),
        },
        match reply_accepted(0x10, answer) {
            Ok(_) => set_done(answer) == Ok::<(), Error>(()),
            Err(error) => set_done(answer) == Err::<(), Error>(error),
        },
{
}

/// The answer is the packet that comes first; none where the adapter closed,
/// and where what comes is no packet, that error.
pub proof fn law_the_answer_comes_first(inbound: Seq<u8>)
    ensures
        match encapsulation::next_packet(inbound) {
            Ok(Some(packet)) => answer_in(inbound) == Ok::<_, Error>(packet),
            Ok(None) => answer_in(inbound) == Err::<PacketView, _>(Error::ClosedBeforeAnswering),
            Err(error) => answer_in(inbound) == Err::<PacketView, Error>(error),
        },
{
}

/// Registering writes the registration, whatever comes back, takes one
/// answer and leaves what is behind it.
pub proof fn law_registering_is_one_exchange(inbound: Seq<u8>)
    ensures
        ({
            let talk = connect_talk(inbound);
            &&& talk.written == registration_packet().bytes()
            &&& talk.unread == encapsulation::behind_packet(inbound)
            &&& talk.outcome == match answer_in(inbound) {
                Ok(answer) => session_given(answer),
                Err(error) => Err(error),
            }
        }),
{
}

/// Asking writes one request, whatever comes back, takes one answer, accepts
/// it as the reply to what was asked, and leaves what is behind it; what
/// cannot be asked writes and takes nothing.
pub proof fn law_asking_is_one_exchange(session: u32, request: RequestView, inbound: Seq<u8>)
    ensures
        ({
            let talk = explicit_talk(session, request, inbound);
            match asked(session, request) {
                Ok(wire) => {
                    &&& talk.written == wire
                    &&& talk.unread == encapsulation::behind_packet(inbound)
                    &&& talk.outcome == match answer_in(inbound) {
                        Ok(answer) => reply_accepted(request.service, answer),
                        Err(error) => Err(error),
                    }
                },
                Err(error) => {
                    &&& talk.written.len() == 0
                    &&& talk.unread == inbound
                    &&& talk.outcome == Err::<ReplyView, Error>(error)
                },
            }
        }),
{
}

/// A get writes one request for service 0x0e without data, takes one answer
/// and has its data; a set writes one for service 0x10 with the payload,
/// takes one answer and has its success, and over the [`CEILING`] it writes
/// and takes nothing.
pub proof fn law_a_get_and_a_set_are_one_exchange(
    session: u32,
    instance: u8,
    bytes: Seq<u8>,
    inbound: Seq<u8>,
)
    ensures
        ({
            let talk = get_talk(session, instance, inbound);
            &&& asked(session, assembly_request(0x0e, instance, seq![])) == Ok::<_, Error>(
                talk.written,
            )
            &&& talk.unread == encapsulation::behind_packet(inbound)
            &&& talk.outcome == match answer_in(inbound) {
                Ok(answer) => data_got(answer),
                Err(error) => Err(error),
            }
        }),
        bytes.len() <= 65_511 ==> {
            let talk = set_talk(session, instance, bytes, inbound);
            &&& asked(session, assembly_request(0x10, instance, bytes)) == Ok::<_, Error>(
                talk.written,
            )
            &&& talk.unread == encapsulation::behind_packet(inbound)
            &&& talk.outcome == match answer_in(inbound) {
                Ok(answer) => set_done(answer),
                Err(error) => Err(error),
            }
        },
        bytes.len() > 65_511 ==> {
            let talk = set_talk(session, instance, bytes, inbound);
            &&& talk.written.len() == 0
            &&& talk.unread == inbound
            &&& talk.outcome == Err::<(), Error>(Error::OverCeiling)
        },
{
    law_ceiling_is_what_one_message_carries(session, GET_ATTRIBUTE_SINGLE, instance, seq![]);
    law_ceiling_is_what_one_message_carries(session, SET_ATTRIBUTE_SINGLE, instance, bytes);
}

} // verus!
