//! The `EtherNet/IP` encapsulation: a twenty-four byte header on every
//! packet (command, length, session handle, status, sender context,
//! options) and the common packet format that carries CIP in a
//! `SendRRData`.
//!
//! Three commands are what an explicit message needs: `RegisterSession`
//! opens a session and hands back the handle every later packet carries,
//! `SendRRData` carries one request and one reply as an address item and a
//! data item, and `UnregisterSession` closes.
use vstd::prelude::*;
use vstd::slice::slice_subrange;
use vstd::slice::slice_to_vec;

use crate::error::Error;
use crate::wire;

verus! {

/// The TCP port an adapter listens on.
pub const PORT: u16 = 44818;

pub const REGISTER_SESSION: u16 = 0x0065;

pub const UNREGISTER_SESSION: u16 = 0x0066;

pub const SEND_RR_DATA: u16 = 0x006f;

/// The header on every packet.
pub const HEADER: usize = 24;

/// What a `SendRRData` carries before its CIP: interface handle, timeout,
/// item count, the null address item, the unconnected data item's header.
pub const RR_OVERHEAD: usize = 4 + 2 + 2 + 4 + 4;

/// The most that a sixteen-bit length names.
pub const LENGTH_MAX: usize = 0xffff;

const NULL_ADDRESS: u16 = 0x0000;

const UNCONNECTED_DATA: u16 = 0x00b2;

/// One encapsulation packet.
#[derive(Clone, Debug, PartialEq, Eq)]
pub struct Packet {
    pub command: u16,
    pub session: u32,
    pub status: u32,
    pub context: [u8; 8],
    pub data: Vec<u8>,
}

/// One encapsulation packet as its fields' values.
pub struct PacketView {
    pub command: u16,
    pub session: u32,
    pub status: u32,
    pub context: Seq<u8>,
    pub data: Seq<u8>,
}

impl View for Packet {
    type V = PacketView;

    open spec fn view(&self) -> PacketView {
        PacketView {
            command: self.command,
            session: self.session,
            status: self.status,
            context: self.context@,
            data: self.data@,
        }
    }
}

impl PacketView {
    /// A packet that has a form on the wire: eight bytes of context, and
    /// data that the length names.
    pub open spec fn fits(self) -> bool {
        &&& self.context.len() == 8
        &&& self.data.len() <= LENGTH_MAX
    }

    /// `command` under `session` carrying `data`, status 0, no context.
    pub open spec fn of(command: u16, session: u32, data: Seq<u8>) -> PacketView {
        PacketView { command, session, status: 0, context: seq![0, 0, 0, 0, 0, 0, 0, 0], data }
    }

    /// The packet on the wire.
    pub open spec fn bytes(self) -> Seq<u8> {
        wire::le16(self.command) + wire::le16(self.data.len() as u16) + wire::le32(self.session)
            + wire::le32(self.status) + self.context + wire::le32(0) + self.data
    }

    /// What [`Packet::encode`] gives.
    pub open spec fn encoded(self) -> Result<Seq<u8>, Error> {
        if self.data.len() <= LENGTH_MAX {
            Ok(self.bytes())
        } else {
            Err(Error::PacketTooLong)
        }
    }
}

/// The packet that `wire` begins with, `None` where nothing comes any more.
pub open spec fn next_packet(wire: Seq<u8>) -> Result<Option<PacketView>, Error> {
    if wire.len() == 0 {
        Ok(None)
    } else if wire.len() < HEADER {
        Err(Error::HeaderCut)
    } else if wire.subrange(20, 24) != seq![0u8, 0, 0, 0] {
        Err(Error::OptionsNotZero)
    } else if wire.len() < HEADER + wire::word_at(wire, 2) {
        Err(Error::DataCut)
    } else {
        Ok(
            Some(
                PacketView {
                    command: wire::word_at(wire, 0),
                    session: wire::long_at(wire, 4),
                    status: wire::long_at(wire, 8),
                    context: wire.subrange(12, 20),
                    data: wire.subrange(HEADER as int, HEADER + wire::word_at(wire, 2)),
                },
            ),
        )
    }
}

/// What of `wire` is left when its first packet has been read: what is
/// behind the packet, what is behind a header that is refused, nothing
/// where it ends too soon.
pub open spec fn behind_packet(wire: Seq<u8>) -> Seq<u8> {
    match next_packet(wire) {
        Ok(Some(packet)) => wire.skip(HEADER + packet.data.len()),
        Err(Error::OptionsNotZero) => wire.skip(HEADER as int),
        _ => seq![],
    }
}

/// The header of one packet.
#[derive(Clone, Debug, PartialEq, Eq)]
pub struct Head {
    pub command: u16,
    /// How many bytes of data come behind the header.
    pub length: u16,
    pub session: u32,
    pub status: u32,
    pub context: [u8; 8],
}

impl Head {
    /// The header that `bytes` begin with.
    ///
    /// # Errors
    /// Fewer bytes than a header has, or options that are not zero.
    pub fn decode(bytes: &[u8]) -> (head: Result<Head, Error>)
        ensures
            match head {
                Ok(head) => {
                    &&& bytes@.len() >= HEADER
                    &&& bytes@.subrange(20, 24) == seq![0u8, 0, 0, 0]
                    &&& head.command == wire::word_at(bytes@, 0)
                    &&& head.length == wire::word_at(bytes@, 2)
                    &&& head.session == wire::long_at(bytes@, 4)
                    &&& head.status == wire::long_at(bytes@, 8)
                    &&& head.context@ == bytes@.subrange(12, 20)
                },
                Err(Error::HeaderCut) => bytes@.len() < HEADER,
                Err(Error::OptionsNotZero) => {
                    &&& bytes@.len() >= HEADER
                    &&& bytes@.subrange(20, 24) != seq![0u8, 0, 0, 0]
                },
                Err(_) => false,
            },
    {
        if bytes.len() < HEADER {
            return Err(Error::HeaderCut);
        }
        let ghost options = bytes@.subrange(20, 24);
        if bytes[20] != 0 || bytes[21] != 0 || bytes[22] != 0 || bytes[23] != 0 {
            assert(options[0] != 0 || options[1] != 0 || options[2] != 0 || options[3] != 0);
            return Err(Error::OptionsNotZero);
        }
        assert(options =~= seq![0u8, 0, 0, 0]);
        let context: [u8; 8] = [
            bytes[12],
            bytes[13],
            bytes[14],
            bytes[15],
            bytes[16],
            bytes[17],
            bytes[18],
            bytes[19],
        ];
        assert(context@ =~= bytes@.subrange(12, 20));
        Ok(
            Head {
                command: wire::word(bytes, 0),
                length: wire::word(bytes, 2),
                session: wire::long(bytes, 4),
                status: wire::long(bytes, 8),
                context,
            },
        )
    }

    /// The packet of this header that carries `data`.
    pub fn carrying(self, data: Vec<u8>) -> (packet: Packet)
        ensures
            packet@ == (PacketView {
                command: self.command,
                session: self.session,
                status: self.status,
                context: self.context@,
                data: data@,
            }),
    {
        Packet {
            command: self.command,
            session: self.session,
            status: self.status,
            context: self.context,
            data,
        }
    }
}

impl Packet {
    /// `command` under `session` carrying `data`, status 0, no context.
    pub fn new(command: u16, session: u32, data: Vec<u8>) -> (packet: Self)
        ensures
            packet@ == PacketView::of(command, session, data@),
    {
        let context: [u8; 8] = [0, 0, 0, 0, 0, 0, 0, 0];
        assert(context@ =~= seq![0u8, 0, 0, 0, 0, 0, 0, 0]);
        Packet { command, session, status: 0, context, data }
    }

    /// The packet as bytes on the wire.
    ///
    /// # Errors
    /// Data over what the sixteen-bit length names.
    pub fn encode(&self) -> (bytes: Result<Vec<u8>, Error>)
        ensures
            crate::error::agrees(bytes, self@.encoded()),
    {
        if self.data.len() > LENGTH_MAX {
            return Err(Error::PacketTooLong);
        }
        Ok(self.put())
    }

    /// The packet as bytes on the wire, where it is known to fit.
    pub(crate) fn put(&self) -> (bytes: Vec<u8>)
        requires
            self.data@.len() <= LENGTH_MAX,
        ensures
            bytes@ == self@.bytes(),
    {
        let mut out: Vec<u8> = Vec::with_capacity(HEADER + self.data.len());
        wire::push_word(&mut out, self.command);
        wire::push_word(&mut out, self.data.len() as u16);
        wire::push_long(&mut out, self.session);
        wire::push_long(&mut out, self.status);
        wire::push_bytes(&mut out, &self.context);
        wire::push_long(&mut out, 0);
        wire::push_bytes(&mut out, self.data.as_slice());
        assert(out@ =~= self@.bytes());
        out
    }

    /// The next packet on `reader`, or `None` when the peer closed between
    /// packets. What is behind the packet stays on `reader`.
    ///
    /// # Errors
    /// A connection that closes mid-packet, or options that are not zero.
    pub fn read(reader: &mut &[u8]) -> (packet: Result<Option<Self>, Error>)
        ensures
            match (packet, next_packet(old(reader)@)) {
                (Ok(Some(packet)), Ok(Some(model))) => packet@ == model,
                (Ok(None), Ok(None)) => true,
                (Err(error), Err(model)) => error == model,
                _ => false,
            },
            final(reader)@ == behind_packet(old(reader)@),
    {
        let wire: &[u8] = *reader;
        let end: usize = wire.len();
        if end == 0 {
            assert(wire@ =~= seq![]);
            return Ok(None);
        }
        let head: Head = match Head::decode(wire) {
            Ok(head) => head,
            Err(error) => {
                let read: usize = if end < HEADER {
                    end
                } else {
                    HEADER
                };
                *reader = slice_subrange(wire, read, end);
                assert(reader@ =~= behind_packet(wire@));
                return Err(error);
            },
        };
        let length: usize = head.length as usize;
        if end - HEADER < length {
            *reader = slice_subrange(wire, end, end);
            assert(reader@ =~= behind_packet(wire@));
            return Err(Error::DataCut);
        }
        let data: Vec<u8> = slice_to_vec(slice_subrange(wire, HEADER, HEADER + length));
        *reader = slice_subrange(wire, HEADER + length, end);
        assert(reader@ =~= behind_packet(wire@));
        Ok(Some(head.carrying(data)))
    }
}

/// What a `RegisterSession` carries: protocol version 1, no options.
pub fn register_data() -> (data: Vec<u8>)
    ensures
        data@ == seq![1u8, 0, 0, 0],
{
    let data: Vec<u8> = vec![1, 0, 0, 0];
    assert(data@ =~= seq![1u8, 0, 0, 0]);
    data
}

/// `cip` in the items of a `SendRRData`.
pub open spec fn rr_bytes(cip: Seq<u8>) -> Seq<u8> {
    wire::le32(0) + wire::le16(0) + wire::le16(2) + wire::le16(0) + wire::le16(0) + wire::le16(
        0x00b2,
    ) + wire::le16(cip.len() as u16) + cip
}

/// What [`rr_data`] gives.
pub open spec fn rr_encoded(cip: Seq<u8>) -> Result<Seq<u8>, Error> {
    if cip.len() <= LENGTH_MAX {
        Ok(rr_bytes(cip))
    } else {
        Err(Error::ItemTooLong)
    }
}

/// What [`rr_cip`] gives.
pub open spec fn rr_decoded(data: Seq<u8>) -> Result<Seq<u8>, Error> {
    if data.len() < RR_OVERHEAD {
        Err(Error::ItemsCut)
    } else if wire::word_at(data, 6) < 2 {
        Err(Error::TooFewItems)
    } else if wire::word_at(data, 8) != 0 {
        Err(Error::AddressNotNull)
    } else if wire::word_at(data, 12) != 0x00b2 {
        Err(Error::DataNotUnconnected)
    } else if data.len() < RR_OVERHEAD + wire::word_at(data, 14) {
        Err(Error::ItemPastEnd)
    } else {
        Ok(data.subrange(RR_OVERHEAD as int, RR_OVERHEAD + wire::word_at(data, 14)))
    }
}

/// `cip` as the data of a `SendRRData`: interface handle 0, no timeout, a
/// null address item and an unconnected data item.
///
/// # Errors
/// CIP longer than an item's sixteen-bit length names.
pub fn rr_data(cip: &[u8]) -> (data: Result<Vec<u8>, Error>)
    ensures
        crate::error::agrees(data, rr_encoded(cip@)),
{
    if cip.len() > LENGTH_MAX {
        return Err(Error::ItemTooLong);
    }
    let mut out: Vec<u8> = Vec::with_capacity(RR_OVERHEAD + cip.len());
    wire::push_long(&mut out, 0);
    wire::push_word(&mut out, 0);
    wire::push_word(&mut out, 2);
    wire::push_word(&mut out, NULL_ADDRESS);
    wire::push_word(&mut out, 0);
    wire::push_word(&mut out, UNCONNECTED_DATA);
    wire::push_word(&mut out, cip.len() as u16);
    wire::push_bytes(&mut out, cip);
    assert(out@ =~= rr_bytes(cip@));
    Ok(out)
}

/// The CIP a `SendRRData`'s data carries.
///
/// # Errors
/// Fewer than two items, an address item that is not null, a data item
/// that is not unconnected, or a length past the end.
pub fn rr_cip(data: &[u8]) -> (cip: Result<Vec<u8>, Error>)
    ensures
        crate::error::agrees(cip, rr_decoded(data@)),
{
    if data.len() < RR_OVERHEAD {
        return Err(Error::ItemsCut);
    }
    if wire::word(data, 6) < 2 {
        return Err(Error::TooFewItems);
    }
    if wire::word(data, 8) != NULL_ADDRESS {
        return Err(Error::AddressNotNull);
    }
    if wire::word(data, 12) != UNCONNECTED_DATA {
        return Err(Error::DataNotUnconnected);
    }
    let length: usize = wire::word(data, 14) as usize;
    if data.len() - RR_OVERHEAD < length {
        return Err(Error::ItemPastEnd);
    }
    Ok(slice_to_vec(slice_subrange(data, RR_OVERHEAD, RR_OVERHEAD + length)))
}

/// A packet on the wire reads back as itself, and what comes behind it is
/// left where it is.
pub proof fn law_packet_round_trip(packet: PacketView, rest: Seq<u8>)
    requires
        packet.fits(),
    ensures
        next_packet(packet.bytes() + rest) == Ok::<_, Error>(Some(packet)),
        behind_packet(packet.bytes() + rest) == rest,
{
    let wire = packet.bytes() + rest;
    assert(wire.subrange(0, 2) =~= wire::le16(packet.command));
    assert(wire.subrange(2, 4) =~= wire::le16(packet.data.len() as u16));
    assert(wire.subrange(4, 8) =~= wire::le32(packet.session));
    assert(wire.subrange(8, 12) =~= wire::le32(packet.status));
    assert(wire.subrange(12, 20) =~= packet.context);
    assert(wire.subrange(20, 24) =~= seq![0u8, 0, 0, 0]);
    wire::law_word_round_trip(packet.command, wire, 0);
    wire::law_word_round_trip(packet.data.len() as u16, wire, 2);
    wire::law_long_round_trip(packet.session, wire, 4);
    wire::law_long_round_trip(packet.status, wire, 8);
    assert(wire.subrange(HEADER as int, HEADER + packet.data.len()) =~= packet.data);
    assert(wire.skip(HEADER + packet.data.len()) =~= rest);
}

/// A packet read off a wire, written again, is the very bytes it was read
/// from: nothing of them is lost.
pub proof fn law_packet_is_its_bytes(wire: Seq<u8>)
    requires
        next_packet(wire) matches Ok(Some(_)),
    ensures
        next_packet(wire) matches Ok(Some(packet)) && {
            &&& packet.fits()
            &&& packet.bytes() + behind_packet(wire) == wire
        },
{
    let packet = next_packet(wire)->Ok_0->Some_0;
    wire::law_word_is_its_bytes(wire, 0);
    wire::law_word_is_its_bytes(wire, 2);
    wire::law_long_is_its_bytes(wire, 4);
    wire::law_long_is_its_bytes(wire, 8);
    assert(packet.bytes() =~= wire.subrange(0, 2) + wire.subrange(2, 4) + wire.subrange(4, 8)
        + wire.subrange(8, 12) + wire.subrange(12, 20) + wire.subrange(20, 24) + packet.data);
    assert(packet.bytes() + behind_packet(wire) =~= wire);
}

/// CIP put into a `SendRRData` comes out of it again, whatever items come
/// behind its two.
pub proof fn law_rr_round_trip(cip: Seq<u8>, rest: Seq<u8>)
    requires
        cip.len() <= LENGTH_MAX,
    ensures
        rr_decoded(rr_bytes(cip) + rest) == Ok::<_, Error>(cip),
{
    let data = rr_bytes(cip) + rest;
    assert(data.subrange(6, 8) =~= wire::le16(2));
    assert(data.subrange(8, 10) =~= wire::le16(0));
    assert(data.subrange(12, 14) =~= wire::le16(0x00b2));
    assert(data.subrange(14, 16) =~= wire::le16(cip.len() as u16));
    wire::law_word_round_trip(2, data, 6);
    wire::law_word_round_trip(0, data, 8);
    wire::law_word_round_trip(0x00b2, data, 12);
    wire::law_word_round_trip(cip.len() as u16, data, 14);
    assert(data.subrange(RR_OVERHEAD as int, RR_OVERHEAD + cip.len()) =~= cip);
}

/// A packet on the wire, byte by byte: the command, the length of the data,
/// the session handle and the status, each with its low byte first, eight
/// bytes of context, four of options that are zero, and the data.
pub proof fn law_a_packet_is_a_header_and_data(packet: PacketView)
    requires
        packet.context.len() == 8,
        packet.data.len() <= 65_535,
    ensures
        ({
            let wire = packet.bytes();
            &&& wire.len() == 24 + packet.data.len()
            &&& wire[0] + 0x100 * wire[1] == packet.command
            &&& wire[2] + 0x100 * wire[3] == packet.data.len()
            &&& wire[4] + 0x100 * wire[5] + 0x1_0000 * wire[6] + 0x100_0000 * wire[7]
                == packet.session
            &&& wire[8] + 0x100 * wire[9] + 0x1_0000 * wire[10] + 0x100_0000 * wire[11]
                == packet.status
            &&& wire.subrange(12, 20) == packet.context
            &&& wire.subrange(20, 24) == seq![0u8, 0, 0, 0]
            &&& wire.skip(24) == packet.data
        }),
{
    let wire = packet.bytes();
    let length = packet.data.len() as u16;
    wire::law_a_word_is_low_byte_first(packet.command);
    wire::law_a_word_is_low_byte_first(length);
    wire::law_a_long_is_low_byte_first(packet.session);
    wire::law_a_long_is_low_byte_first(packet.status);
    assert(wire.subrange(0, 2) =~= wire::le16(packet.command));
    assert(wire.subrange(2, 4) =~= wire::le16(length));
    assert(wire.subrange(4, 8) =~= wire::le32(packet.session));
    assert(wire.subrange(8, 12) =~= wire::le32(packet.status));
    assert(wire.subrange(12, 20) =~= packet.context);
    assert(wire.subrange(20, 24) =~= seq![0u8, 0, 0, 0]);
    assert(wire.skip(24) =~= packet.data);
    assert(wire[0] == wire.subrange(0, 2)[0] && wire[1] == wire.subrange(0, 2)[1]);
    assert(wire[2] == wire.subrange(2, 4)[0] && wire[3] == wire.subrange(2, 4)[1]);
    assert(wire[4] == wire.subrange(4, 8)[0] && wire[5] == wire.subrange(4, 8)[1]);
    assert(wire[6] == wire.subrange(4, 8)[2] && wire[7] == wire.subrange(4, 8)[3]);
    assert(wire[8] == wire.subrange(8, 12)[0] && wire[9] == wire.subrange(8, 12)[1]);
    assert(wire[10] == wire.subrange(8, 12)[2] && wire[11] == wire.subrange(8, 12)[3]);
}

/// A packet has a form on the wire exactly where its data is no longer than
/// sixteen bits count.
pub proof fn law_sixteen_bits_bound_a_packet(packet: PacketView)
    ensures
        packet.data.len() <= 65_535 ==> packet.encoded() == Ok::<_, Error>(packet.bytes()),
        packet.data.len() > 65_535 ==> packet.encoded() == Err::<Seq<u8>, _>(Error::PacketTooLong),
{
}

/// A new packet has the command, the session and the data it was given, no
/// status, and a context of zeros.
pub proof fn law_a_new_packet_has_no_status_and_no_context(
    command: u16,
    session: u32,
    data: Seq<u8>,
)
    ensures
        ({
            let packet = PacketView::of(command, session, data);
            &&& packet.command == command
            &&& packet.session == session
            &&& packet.status == 0
            &&& packet.context.len() == 8
            &&& forall|i: int| 0 <= i < 8 ==> #[trigger] packet.context[i] == 0
            &&& packet.data == data
        }),
{
}

/// What any bytes begin with: nothing where there are none; an error where
/// the header is cut, where its options are not zero, and, behind a header
/// that is in order, where the data is cut; and else the packet whose
/// fields stand in the header and whose data comes behind it. What is left
/// is what comes behind the packet, or behind the header that is refused.
pub proof fn law_what_bytes_begin_with(wire: Seq<u8>)
    ensures
        wire.len() == 0 ==> next_packet(wire) == Ok::<Option<PacketView>, Error>(None),
        0 < wire.len() < 24 ==> next_packet(wire) == Err::<Option<PacketView>, _>(
            Error::HeaderCut,
        ),
        wire.len() < 24 ==> behind_packet(wire).len() == 0,
        wire.len() >= 24 ==> {
            let length = wire[2] + 0x100 * wire[3];
            if wire[20] != 0 || wire[21] != 0 || wire[22] != 0 || wire[23] != 0 {
                &&& next_packet(wire) == Err::<Option<PacketView>, _>(Error::OptionsNotZero)
                &&& behind_packet(wire) == wire.skip(24)
            } else if wire.len() < 24 + length {
                &&& next_packet(wire) == Err::<Option<PacketView>, _>(Error::DataCut)
                &&& behind_packet(wire).len() == 0
            } else {
                &&& next_packet(wire) matches Ok(Some(packet)) && {
                    &&& packet.command == wire[0] + 0x100 * wire[1]
                    &&& packet.session == wire[4] + 0x100 * wire[5] + 0x1_0000 * wire[6]
                        + 0x100_0000 * wire[7]
                    &&& packet.status == wire[8] + 0x100 * wire[9] + 0x1_0000 * wire[10]
                        + 0x100_0000 * wire[11]
                    &&& packet.context == wire.subrange(12, 20)
                    &&& packet.data == wire.subrange(24, 24 + length)
                }
                &&& behind_packet(wire) == wire.skip(24 + length)
            }
        },
{
    if wire.len() >= 24 {
        wire::law_what_is_read_is_low_byte_first(wire, 0);
        wire::law_what_is_read_is_low_byte_first(wire, 2);
        wire::law_what_is_read_is_low_byte_first(wire, 4);
        wire::law_what_is_read_is_low_byte_first(wire, 8);
        let options = wire.subrange(20, 24);
        assert(options[0] == wire[20] && options[1] == wire[21]);
        assert(options[2] == wire[22] && options[3] == wire[23]);
        if wire[20] == 0 && wire[21] == 0 && wire[22] == 0 && wire[23] == 0 {
            assert(options =~= seq![0u8, 0, 0, 0]);
        }
    }
}

/// CIP in its items, byte by byte: an interface handle and a timeout of
/// zero, two items, a null address of no length, and unconnected data with
/// the length of the CIP, its low byte first, in front of the CIP itself.
pub proof fn law_cip_comes_behind_a_null_address(cip: Seq<u8>)
    requires
        cip.len() <= 65_535,
    ensures
        rr_encoded(cip) matches Ok(data) && {
            &&& data.len() == 16 + cip.len()
            &&& data.take(14) == seq![0u8, 0, 0, 0, 0, 0, 2, 0, 0, 0, 0, 0, 0xb2, 0]
            &&& data[14] + 0x100 * data[15] == cip.len()
            &&& data.skip(16) == cip
        },
        rr_encoded(cip) == Ok::<_, Error>(rr_bytes(cip)),
{
    let data = rr_bytes(cip);
    wire::law_a_word_is_low_byte_first(cip.len() as u16);
    assert(data.take(14) =~= seq![0u8, 0, 0, 0, 0, 0, 2, 0, 0, 0, 0, 0, 0xb2, 0]);
    assert(data.subrange(14, 16) =~= wire::le16(cip.len() as u16));
    assert(data[14] == data.subrange(14, 16)[0] && data[15] == data.subrange(14, 16)[1]);
    assert(data.skip(16) =~= cip);
}

/// CIP that sixteen bits do not count fits in no item.
pub proof fn law_sixteen_bits_bound_an_item(cip: Seq<u8>)
    requires
        cip.len() > 65_535,
    ensures
        rr_encoded(cip) == Err::<Seq<u8>, _>(Error::ItemTooLong),
{
}

/// What any data of a `SendRRData` carries: the bytes behind the sixteenth,
/// as many as the fifteenth and sixteenth count, where there are sixteen,
/// two items or more, a null address, unconnected data and as many bytes.
/// What fails first says what is wrong.
pub proof fn law_what_items_carry(data: Seq<u8>)
    ensures
        data.len() < 16 ==> rr_decoded(data) == Err::<Seq<u8>, _>(Error::ItemsCut),
        data.len() >= 16 ==> {
            let length = data[14] + 0x100 * data[15];
            rr_decoded(data) == if data[7] == 0 && data[6] < 2 {
                Err::<Seq<u8>, _>(Error::TooFewItems)
            } else if data[8] != 0 || data[9] != 0 {
                Err(Error::AddressNotNull)
            } else if data[12] != 0xb2 || data[13] != 0 {
                Err(Error::DataNotUnconnected)
            } else if data.len() < 16 + length {
                Err(Error::ItemPastEnd)
            } else {
                Ok(data.subrange(16, 16 + length))
            }
        },
{
    if data.len() >= 16 {
        wire::law_what_is_read_is_low_byte_first(data, 6);
        wire::law_what_is_read_is_low_byte_first(data, 8);
        wire::law_what_is_read_is_low_byte_first(data, 12);
        wire::law_what_is_read_is_low_byte_first(data, 14);
    }
}

} // verus!
