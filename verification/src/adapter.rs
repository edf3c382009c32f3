//! The adapter's side of one session: what a test or the loopback puts at
//! the far end so a scanner can be driven without a drive in the room.
//!
//! Not a device. One adapter serves one scanner and holds assemblies as
//! byte vectors by instance: it registers the session, answers a get from
//! an assembly and a set into one, and refuses what is not there with the
//! general status a device would use.
use std::collections::HashMap;
use vstd::prelude::*;
use vstd::slice::slice_to_vec;

use crate::cip;
use crate::cip::ASSEMBLY;
use crate::cip::DATA_ATTRIBUTE;
use crate::cip::GET_ATTRIBUTE_SINGLE;
use crate::cip::PATH_DESTINATION_UNKNOWN;
use crate::cip::Reply;
use crate::cip::ReplyView;
use crate::cip::Request;
use crate::cip::RequestView;
use crate::cip::SERVICE_NOT_SUPPORTED;
use crate::cip::SET_ATTRIBUTE_SINGLE;
use crate::cip::SUCCESS;
use crate::encapsulation;
use crate::encapsulation::Packet;
use crate::encapsulation::PacketView;
use crate::encapsulation::REGISTER_SESSION;
use crate::encapsulation::SEND_RR_DATA;
use crate::encapsulation::UNREGISTER_SESSION;
use crate::error::Error;
use crate::text;
use crate::wire;

verus! {

broadcast use vstd::std_specs::hash::group_hash_axioms;

/// The session handle an adapter gives.
pub const SESSION: u32 = 0x0001_0001;

/// The encapsulation status of a command that an adapter does not take.
pub const COMMAND_REFUSED: u32 = 0x0001;

/// The adapter's side of one session: assemblies as byte vectors by
/// instance, served until the scanner unregisters or closes.
pub struct Adapter {
    peer: String,
    session: u32,
    assemblies: HashMap<u8, Vec<u8>>,
}

/// Where an adapter stands: who it serves, the session handle it gave (0
/// before it gave one) and what each assembly holds.
pub struct AdapterView {
    pub peer: Seq<char>,
    pub session: u32,
    pub assemblies: Map<u8, Seq<u8>>,
}

impl View for Adapter {
    type V = AdapterView;

    closed spec fn view(&self) -> AdapterView {
        AdapterView {
            peer: self.peer@,
            session: self.session,
            assemblies: self.assemblies@.map_values(|bytes: Vec<u8>| bytes@),
        }
    }
}

/// What serving a scanner comes to: where the adapter then stands, what the
/// scanner had sent behind the last packet read, what was written to the
/// scanner, and how it ended.
pub struct Served {
    pub adapter: AdapterView,
    pub unread: Seq<u8>,
    pub written: Seq<u8>,
    pub outcome: Result<(), Error>,
}

/// The request that a `SendRRData` packet carries.
pub open spec fn request_in(packet: PacketView) -> Result<RequestView, Error> {
    match encapsulation::rr_decoded(packet.data) {
        Ok(cip) => RequestView::decoded(cip),
        Err(error) => Err(error),
    }
}

impl AdapterView {
    /// Whether `request` is about the data of an assembly held here.
    pub open spec fn holds(self, request: RequestView) -> bool {
        &&& request.path.class == ASSEMBLY
        &&& request.path.attribute == DATA_ATTRIBUTE
        &&& request.path.instance < 256
        &&& self.assemblies.contains_key(request.path.instance as u8)
    }

    /// The reply to `request`.
    pub open spec fn reply(self, request: RequestView) -> ReplyView {
        if !self.holds(request) {
            ReplyView::to(request.service, PATH_DESTINATION_UNKNOWN, seq![])
        } else if request.service == GET_ATTRIBUTE_SINGLE {
            ReplyView::to(
                request.service,
                SUCCESS,
                self.assemblies[request.path.instance as u8],
            )
        } else if request.service == SET_ATTRIBUTE_SINGLE {
            ReplyView::to(request.service, SUCCESS, seq![])
        } else {
            ReplyView::to(request.service, SERVICE_NOT_SUPPORTED, seq![])
        }
    }

    /// Where the adapter stands when it has replied to `request`.
    pub open spec fn replied(self, request: RequestView) -> AdapterView {
        if self.holds(request) && request.service == SET_ATTRIBUTE_SINGLE {
            AdapterView {
                assemblies: self.assemblies.insert(request.path.instance as u8, request.data),
                ..self
            }
        } else {
            self
        }
    }

    /// Where the adapter stands when it has replied to `requests`, one
    /// behind the other.
    pub open spec fn replied_to_all(self, requests: Seq<RequestView>) -> AdapterView
        decreases requests.len(),
    {
        if requests.len() == 0 {
            self
        } else {
            self.replied_to_all(requests.drop_last()).replied(requests.last())
        }
    }

    /// Whether `packet` is a `SendRRData` on the session given here.
    pub open spec fn on_session(self, packet: PacketView) -> bool {
        &&& packet.command == SEND_RR_DATA
        &&& packet.session == self.session
        &&& self.session != 0
    }

    /// The packet that answers `packet`, `None` where it ends the session.
    pub open spec fn answer(self, packet: PacketView) -> Result<Option<PacketView>, Error> {
        if packet.command == REGISTER_SESSION {
            Ok(Some(PacketView { session: SESSION, ..packet }))
        } else if packet.command == UNREGISTER_SESSION {
            Ok(None)
        } else if self.on_session(packet) {
            match request_in(packet) {
                Ok(request) => match encapsulation::rr_encoded(self.reply(request).bytes()) {
                    Ok(data) => Ok(Some(PacketView { data, ..packet })),
                    Err(error) => Err(error),
                },
                Err(error) => Err(error),
            }
        } else {
            Ok(Some(PacketView { status: COMMAND_REFUSED, data: seq![], ..packet }))
        }
    }

    /// What is written to the scanner when `packet` came, `None` where it
    /// ends the session.
    pub open spec fn written(self, packet: PacketView) -> Result<Option<Seq<u8>>, Error> {
        match self.answer(packet) {
            Ok(Some(answer)) => match answer.encoded() {
                Ok(bytes) => Ok(Some(bytes)),
                Err(error) => Err(error),
            },
            Ok(None) => Ok(None),
            Err(error) => Err(error),
        }
    }

    /// Where the adapter stands when `packet` has been dealt with.
    pub open spec fn after(self, packet: PacketView) -> AdapterView {
        if packet.command == REGISTER_SESSION {
            AdapterView { session: SESSION, ..self }
        } else if self.on_session(packet) {
            match request_in(packet) {
                Ok(request) => self.replied(request),
                Err(_) => self,
            }
        } else {
            self
        }
    }

    /// What serving a scanner that sends `inbound` and closes comes to.
    pub open spec fn served(self, inbound: Seq<u8>) -> Served
        decreases inbound.len(),
    {
        let unread = encapsulation::behind_packet(inbound);
        match encapsulation::next_packet(inbound) {
            Ok(Some(packet)) => match self.written(packet) {
                Ok(Some(bytes)) => {
                    let then = self.after(packet).served(unread);
                    Served { written: bytes + then.written, ..then }
                },
                Ok(None) => Served {
                    adapter: self.after(packet),
                    unread,
                    written: seq![],
                    outcome: Ok(()),
                },
                Err(error) => Served {
                    adapter: self.after(packet),
                    unread,
                    written: seq![],
                    outcome: Err(error),
                },
            },
            Ok(None) => Served { adapter: self, unread, written: seq![], outcome: Ok(()) },
            Err(error) => Served { adapter: self, unread, written: seq![], outcome: Err(error) },
        }
    }
}

/// The origin URI of assembly `instance` at `authority`.
pub open spec fn origin_of(authority: Seq<char>, instance: u8) -> Seq<char> {
    "enip://"@ + authority + "/assembly/"@ + text::decimal(instance as nat)
}

/// The origin URI of assembly `instance` at `authority`:
/// `enip://authority/assembly/<n>`.
pub fn origin_uri(authority: &str, instance: u8) -> (uri: String)
    ensures
        uri@ == origin_of(authority@, instance),
{
    let mut uri: String = "enip://".to_owned();
    uri.append(authority);
    uri.append("/assembly/");
    text::push_decimal(&mut uri, instance);
    uri
}

impl Adapter {
    /// The adapter's side of a session with the scanner at `peer`, before
    /// anything has been said: no session given, no assembly held.
    pub fn accept(peer: &str) -> (adapter: Self)
        ensures
            adapter@ == (AdapterView { peer: peer@, session: 0, assemblies: Map::empty() }),
    {
        let adapter: Adapter = Adapter {
            peer: peer.to_owned(),
            session: 0,
            assemblies: HashMap::new(),
        };
        assert(adapter@.assemblies =~= Map::empty());
        adapter
    }

    /// Hold `bytes` as assembly `instance`.
    pub fn with_assembly(self, instance: u8, bytes: Vec<u8>) -> (adapter: Self)
        ensures
            adapter@ == (AdapterView {
                assemblies: self@.assemblies.insert(instance, bytes@),
                ..self@
            }),
    {
        let mut adapter: Adapter = self;
        adapter.hold(instance, bytes);
        adapter
    }

    /// Hold `bytes` as assembly `instance`.
    fn hold(&mut self, instance: u8, bytes: Vec<u8>)
        ensures
            final(self)@ == (AdapterView {
                assemblies: old(self)@.assemblies.insert(instance, bytes@),
                ..old(self)@
            }),
    {
        self.assemblies.insert(instance, bytes);
        assert(self@.assemblies =~= old(self)@.assemblies.insert(instance, bytes@));
    }

    /// The data of assembly `instance`, as it is now.
    pub fn assembly(&self, instance: u8) -> (data: Option<&[u8]>)
        ensures
            match data {
                Some(bytes) => {
                    &&& self@.assemblies.contains_key(instance)
                    &&& bytes@ == self@.assemblies[instance]
                },
                None => !self@.assemblies.contains_key(instance),
            },
    {
        match self.assemblies.get(&instance) {
            Some(bytes) => Some(bytes.as_slice()),
            None => None,
        }
    }

    /// Where the scanner's messages come from: `enip://peer/assembly/<n>`.
    pub fn origin(&self, instance: u8) -> (uri: String)
        ensures
            uri@ == origin_of(self@.peer, instance),
    {
        origin_uri(self.peer.as_str(), instance)
    }

    /// Serve the scanner until it unregisters or closes: what it sends is
    /// on `reader`, what it is sent goes behind `writer`.
    ///
    /// # Errors
    /// Where the connection broke or the scanner did not speak `EtherNet/IP`.
    pub fn serve(&mut self, reader: &mut &[u8], writer: &mut Vec<u8>) -> (outcome: Result<
        (),
        Error,
    >)
        ensures
            ({
                let served = old(self)@.served(old(reader)@);
                &&& final(self)@ == served.adapter
                &&& final(reader)@ == served.unread
                &&& final(writer)@ == old(writer)@ + served.written
                &&& outcome == served.outcome
            }),
    {
        let ghost served = self@.served(reader@);
        let ghost before = writer@;
        loop
            invariant
                served == old(self)@.served(old(reader)@),
                before == old(writer)@,
                self@.served(reader@).adapter == served.adapter,
                self@.served(reader@).unread == served.unread,
                self@.served(reader@).outcome == served.outcome,
                before + served.written == writer@ + self@.served(reader@).written,
            decreases reader@.len(),
        {
            let packet: Packet = match Packet::read(reader) {
                Ok(Some(packet)) => packet,
                Ok(None) => {
                    assert(writer@ =~= before + served.written);
                    return Ok(());
                },
                Err(error) => {
                    assert(writer@ =~= before + served.written);
                    return Err(error);
                },
            };
            match self.answer(packet) {
                Ok(Some(bytes)) => {
                    let ghost then = self@.served(reader@);
                    let ghost sent = writer@;
                    wire::push_bytes(writer, bytes.as_slice());
                    assert(writer@ + then.written =~= sent + (bytes@ + then.written));
                },
                Ok(None) => {
                    assert(writer@ =~= before + served.written);
                    return Ok(());
                },
                Err(error) => {
                    assert(writer@ =~= before + served.written);
                    return Err(error);
                },
            }
        }
    }

    /// Deal with one packet from the scanner: what to write back, `None`
    /// where the scanner unregisters.
    ///
    /// # Errors
    /// A `SendRRData` on the session that carries no explicit request, or
    /// an answer over what one packet carries.
    pub fn answer(&mut self, packet: Packet) -> (written: Result<Option<Vec<u8>>, Error>)
        ensures
            final(self)@ == old(self)@.after(packet@),
            match (written, old(self)@.written(packet@)) {
                (Ok(Some(bytes)), Ok(Some(model))) => bytes@ == model,
                (Ok(None), Ok(None)) => true,
                (Err(error), Err(model)) => error == model,
                _ => false,
            },
    {
        let answer: Packet = if packet.command == REGISTER_SESSION {
            self.session = SESSION;
            assert(self@.assemblies =~= old(self)@.assemblies);
            Packet { session: SESSION, ..packet }
        } else if packet.command == UNREGISTER_SESSION {
            return Ok(None);
        } else if packet.command == SEND_RR_DATA && packet.session == self.session && self.session
            != 0 {
            let cip: Vec<u8> = match encapsulation::rr_cip(packet.data.as_slice()) {
                Ok(cip) => cip,
                Err(error) => return Err(error),
            };
            let request: Request = match Request::decode(cip.as_slice()) {
                Ok(request) => request,
                Err(error) => return Err(error),
            };
            let reply: Reply = self.explicit(&request);
            match encapsulation::rr_data(reply.encode().as_slice()) {
                Ok(data) => Packet { data, ..packet },
                Err(error) => return Err(error),
            }
        } else {
            Packet { status: COMMAND_REFUSED, data: Vec::new(), ..packet }
        };
        match answer.encode() {
            Ok(bytes) => Ok(Some(bytes)),
            Err(error) => Err(error),
        }
    }

    /// The reply to `request`. A set of an assembly held here changes that
    /// assembly; what is not there is refused, an instance past what a byte
    /// holds among it.
    pub fn explicit(&mut self, request: &Request) -> (reply: Reply)
        ensures
            reply@ == old(self)@.reply(request@),
            final(self)@ == old(self)@.replied(request@),
    {
        if request.path.class != ASSEMBLY || request.path.attribute != DATA_ATTRIBUTE
            || request.path.instance >= 256 {
            return Reply::to(request.service, PATH_DESTINATION_UNKNOWN, Vec::new());
        }
        let instance: u8 = request.path.instance as u8;
        let held: Vec<u8> = match self.assembly(instance) {
            Some(bytes) => slice_to_vec(bytes),
            None => return Reply::to(request.service, PATH_DESTINATION_UNKNOWN, Vec::new()),
        };
        match request.service {
            GET_ATTRIBUTE_SINGLE => Reply::to(request.service, SUCCESS, held),
            SET_ATTRIBUTE_SINGLE => {
                self.hold(instance, slice_to_vec(request.data.as_slice()));
                Reply::to(request.service, SUCCESS, Vec::new())
            },
            _ => Reply::to(request.service, SERVICE_NOT_SUPPORTED, Vec::new()),
        }
    }
}

/// A packet takes no assembly away, moves the adapter to no other scanner,
/// and unregisters nothing: the session handle is what it was or the one an
/// adapter gives.
pub proof fn law_a_packet_keeps_what_is_held(adapter: AdapterView, packet: PacketView)
    ensures
        adapter.after(packet).assemblies.dom() == adapter.assemblies.dom(),
        adapter.after(packet).peer == adapter.peer,
        adapter.after(packet).session == adapter.session || adapter.after(packet).session
            == SESSION,
{
    assert(adapter.after(packet).assemblies.dom() =~= adapter.assemblies.dom());
}

/// Whatever a scanner sends, the adapter holds the same assemblies when it
/// has been served as before, and still serves the same scanner.
pub proof fn law_serving_keeps_what_is_held(adapter: AdapterView, inbound: Seq<u8>)
    ensures
        adapter.served(inbound).adapter.assemblies.dom() == adapter.assemblies.dom(),
        adapter.served(inbound).adapter.peer == adapter.peer,
    decreases inbound.len(),
{
    if let Ok(Some(packet)) = encapsulation::next_packet(inbound) {
        law_a_packet_keeps_what_is_held(adapter, packet);
        law_serving_keeps_what_is_held(
            adapter.after(packet),
            encapsulation::behind_packet(inbound),
        );
    }
}

/// What is replied to a request, and what it changes, for every adapter and
/// every request: the data attribute, 3, of an assembly, class 4, that is
/// held by the instance's number is given by a get, 0x0e, and replaced by a
/// set, 0x10; another service is not supported, 8; and the rest is unknown,
/// 5. Only the set changes anything, and only that assembly.
pub proof fn law_what_is_replied(adapter: AdapterView, request: RequestView)
    ensures
        ({
            let reply = adapter.reply(request);
            let then = adapter.replied(request);
            let there = {
                &&& request.path.class == 4
                &&& request.path.attribute == 3
                &&& request.path.instance < 256
                &&& adapter.assemblies.contains_key(request.path.instance as u8)
            };
            &&& reply.service == request.service | 0x80
            &&& there && request.service == 0x0e ==> {
                &&& reply.status == 0
                &&& reply.data == adapter.assemblies[request.path.instance as u8]
                &&& then == adapter
            }
            &&& there && request.service == 0x10 ==> {
                &&& reply.status == 0
                &&& reply.data.len() == 0
                &&& then.peer == adapter.peer
                &&& then.session == adapter.session
                &&& then.assemblies == adapter.assemblies.insert(
                    request.path.instance as u8,
                    request.data,
                )
            }
            &&& there && request.service != 0x0e && request.service != 0x10 ==> {
                &&& reply.status == 8
                &&& reply.data.len() == 0
                &&& then == adapter
            }
            &&& !there ==> {
                &&& reply.status == 5
                &&& reply.data.len() == 0
                &&& then == adapter
            }
        }),
{
    cip::law_the_reply_bit_is_the_highest(request.service);
}

/// What is answered to a packet outside a request on the session, for every
/// adapter and every packet. A registration, 0x65, is answered as it came
/// but under the one handle that an adapter gives, which the adapter keeps.
/// An unregistering, 0x66, is not answered and changes nothing. All else,
/// without a session or under another, is answered under the handle it came
/// with, refused and empty, and changes nothing.
pub proof fn law_what_is_answered_outside_a_request(adapter: AdapterView, packet: PacketView)
    ensures
        packet.command == 0x65 ==> {
            &&& adapter.answer(packet) matches Ok(Some(answer)) && {
                &&& answer.command == 0x65
                &&& answer.session == 0x0001_0001
                &&& answer.status == packet.status
                &&& answer.context == packet.context
                &&& answer.data == packet.data
            }
            &&& adapter.after(packet).session == 0x0001_0001
            &&& adapter.after(packet).peer == adapter.peer
            &&& adapter.after(packet).assemblies == adapter.assemblies
        },
        packet.command == 0x66 ==> {
            &&& adapter.answer(packet) == Ok::<Option<PacketView>, Error>(None)
            &&& adapter.after(packet) == adapter
        },
        packet.command != 0x65 && packet.command != 0x66 && (packet.command != 0x6f
            || adapter.session == 0 || packet.session != adapter.session) ==> {
            &&& adapter.answer(packet) matches Ok(Some(answer)) && {
                &&& answer.command == packet.command
                &&& answer.session == packet.session
                &&& answer.status == 1
                &&& answer.context == packet.context
                &&& answer.data.len() == 0
            }
            &&& adapter.after(packet) == adapter
        },
{
}

/// What is answered to a `SendRRData`, 0x6f, on the session. One that carries
/// no request is an error and changes nothing. A request is answered under
/// the handle, the status and the context that it came with, so under the
/// adapter's own handle: sixteen bytes of items, the request's service with
/// the reply bit, a zero, the status replied, a zero and the data replied.
pub proof fn law_a_request_is_answered_on_its_session(adapter: AdapterView, packet: PacketView)
    requires
        packet.command == 0x6f,
        packet.session == adapter.session,
        adapter.session != 0,
    ensures
        match encapsulation::rr_decoded(packet.data) {
            Err(error) => {
                &&& adapter.answer(packet) == Err::<Option<PacketView>, Error>(error)
                &&& adapter.after(packet) == adapter
            },
            Ok(cip) => match RequestView::decoded(cip) {
                Err(error) => {
                    &&& adapter.answer(packet) == Err::<Option<PacketView>, Error>(error)
                    &&& adapter.after(packet) == adapter
                },
                Ok(request) => {
                    let reply = adapter.reply(request);
                    &&& adapter.after(packet) == adapter.replied(request)
                    &&& if reply.data.len() > 65_531 {
                        adapter.answer(packet) == Err::<Option<PacketView>, Error>(
                            Error::ItemTooLong,
                        )
                    } else {
                        adapter.answer(packet) matches Ok(Some(answer)) && {
                            &&& answer.command == 0x6f
                            &&& answer.session == packet.session
                            &&& answer.session == adapter.session
                            &&& answer.status == packet.status
                            &&& answer.context == packet.context
                            &&& answer.data.len() == 20 + reply.data.len()
                            &&& answer.data.take(14) == seq![
                                0u8,
                                0,
                                0,
                                0,
                                0,
                                0,
                                2,
                                0,
                                0,
                                0,
                                0,
                                0,
                                0xb2,
                                0,
                            ]
                            &&& answer.data[14] + 0x100 * answer.data[15] == 4 + reply.data.len()
                            &&& answer.data[16] == request.service | 0x80
                            &&& answer.data[17] == 0
                            &&& answer.data[18] == reply.status
                            &&& answer.data[19] == 0
                            &&& answer.data.skip(20) == reply.data
                        }
                    }
                },
            },
        },
{
    if let Ok(cip) = encapsulation::rr_decoded(packet.data) {
        if let Ok(request) = RequestView::decoded(cip) {
            let reply = adapter.reply(request);
            let bytes = reply.bytes();
            law_what_is_replied(adapter, request);
            cip::law_a_reply_is_service_status_and_data(reply);
            if bytes.len() <= 65_535 {
                encapsulation::law_cip_comes_behind_a_null_address(bytes);
                let data = encapsulation::rr_encoded(bytes)->Ok_0;
                assert(data[16] == data.skip(16)[0] && data[17] == data.skip(16)[1]);
                assert(data[18] == data.skip(16)[2] && data[19] == data.skip(16)[3]);
                assert(data.skip(20) =~= data.skip(16).skip(4));
            } else {
                encapsulation::law_sixteen_bits_bound_an_item(bytes);
            }
        }
    }
}

/// What is written is the answer on the wire, for the scanner to read back
/// as it is with whatever comes behind it; an answer that sixteen bits do
/// not count is an error, and where nothing is answered, nothing is written.
pub proof fn law_what_is_written_is_the_answer(
    adapter: AdapterView,
    packet: PacketView,
    rest: Seq<u8>,
)
    requires
        packet.context.len() == 8,
    ensures
        match adapter.answer(packet) {
            Ok(Some(answer)) => if answer.data.len() <= 65_535 {
                &&& adapter.written(packet) == Ok::<_, Error>(Some(answer.bytes()))
                &&& encapsulation::next_packet(answer.bytes() + rest) == Ok::<_, Error>(
                    Some(answer),
                )
                &&& encapsulation::behind_packet(answer.bytes() + rest) == rest
            } else {
                adapter.written(packet) == Err::<Option<Seq<u8>>, _>(Error::PacketTooLong)
            },
            Ok(None) => adapter.written(packet) == Ok::<Option<Seq<u8>>, Error>(None),
            Err(error) => adapter.written(packet) == Err::<Option<Seq<u8>>, Error>(error),
        },
{
    if let Ok(Some(answer)) = adapter.answer(packet) {
        assert(answer.context == packet.context);
        if answer.data.len() <= 65_535 {
            encapsulation::law_packet_round_trip(answer, rest);
        }
    }
}

/// Serving ends where nothing more comes, without an error, and where what
/// comes is no packet, with that error. Either way nothing more is written,
/// and no assembly and no session changes.
pub proof fn law_serving_ends_where_no_packet_comes(adapter: AdapterView, inbound: Seq<u8>)
    ensures
        ({
            let served = adapter.served(inbound);
            match encapsulation::next_packet(inbound) {
                Ok(Some(_)) => true,
                Ok(None) => {
                    &&& served.adapter == adapter
                    &&& served.written.len() == 0
                    &&& served.unread.len() == 0
                    &&& served.outcome == Ok::<(), Error>(())
                },
                Err(error) => {
                    &&& served.adapter == adapter
                    &&& served.written.len() == 0
                    &&& served.unread == encapsulation::behind_packet(inbound)
                    &&& served.outcome == Err::<(), Error>(error)
                },
            }
        }),
{
}

/// The origin of an assembly is `enip://`, where it is, `/assembly/` and its
/// instance's number: told apart by where it is and by the number, since the
/// number reads back as the instance.
pub proof fn law_an_origin_names_the_peer_and_the_instance(authority: Seq<char>, instance: u8)
    ensures
        ({
            let origin = origin_of(authority, instance);
            let number = origin.skip(17 + authority.len() as int);
            &&& origin.len() > 17 + authority.len()
            &&& origin.take(7) == seq!['e', 'n', 'i', 'p', ':', '/', '/']
            &&& origin.subrange(7, 7 + authority.len() as int) == authority
            &&& origin.subrange(7 + authority.len() as int, 17 + authority.len() as int) == seq![
                '/',
                'a',
                's',
                's',
                'e',
                'm',
                'b',
                'l',
                'y',
                '/',
            ]
            &&& number == text::decimal(instance as nat)
            &&& text::byte_of(number) == Some(instance)
        }),
{
    reveal_strlit("enip://");
    reveal_strlit("/assembly/");
    let origin = origin_of(authority, instance);
    let at = 7 + authority.len() as int;
    text::law_decimal_is_hundreds_tens_and_ones(instance);
    text::law_decimal_reads_back(instance);
    assert(origin.take(7) =~= "enip://"@);
    assert(origin.take(7) =~= seq!['e', 'n', 'i', 'p', ':', '/', '/']);
    assert(origin.subrange(7, at) =~= authority);
    assert(origin.subrange(at, at + 10) =~= "/assembly/"@);
    assert(origin.subrange(at, at + 10) =~= seq!['/', 'a', 's', 's', 'e', 'm', 'b', 'l', 'y', '/']);
    assert(origin.skip(at + 10) =~= text::decimal(instance as nat));
}

} // verus!
