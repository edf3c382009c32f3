//! The common industrial protocol's explicit message: a service, a path to
//! a class, an instance and an attribute, and the data; and the reply with
//! its general status.
//!
//! Two services move one attribute: `Get_Attribute_Single` reads it and
//! `Set_Attribute_Single` writes it. The assembly object, class 4, is where
//! a device presents its IO as bytes; its data attribute, 3, is the Stream.
use vstd::prelude::*;
use vstd::slice::slice_subrange;
use vstd::slice::slice_to_vec;

use crate::error::Error;
use crate::wire;

verus! {

pub const GET_ATTRIBUTE_SINGLE: u8 = 0x0e;

pub const SET_ATTRIBUTE_SINGLE: u8 = 0x10;

/// The assembly object's class, and its data attribute.
pub const ASSEMBLY: u16 = 0x04;

pub const DATA_ATTRIBUTE: u16 = 3;

/// The general statuses an adapter answers with.
pub const SUCCESS: u8 = 0x00;

pub const PATH_DESTINATION_UNKNOWN: u8 = 0x05;

pub const SERVICE_NOT_SUPPORTED: u8 = 0x08;

pub const ATTRIBUTE_NOT_SETTABLE: u8 = 0x0e;

/// The service byte, the path size byte, and a path of three eight-bit
/// logical segments.
pub const REQUEST_OVERHEAD: usize = 2 + 6;

/// The kinds of logical segment that a path is made of.
const CLASS: u8 = 0x20;

const INSTANCE: u8 = 0x24;

const ATTRIBUTE: u8 = 0x30;

/// A logical path: class, instance, attribute.
#[derive(Clone, Copy, Debug, PartialEq, Eq)]
pub struct Path {
    pub class: u16,
    pub instance: u16,
    pub attribute: u16,
}

/// One logical segment: the kind and the value in a byte, or, where it
/// needs more, the kind with the width bit, a pad and the value in a word.
pub open spec fn segment(kind: u8, value: u16) -> Seq<u8> {
    if value < 256 {
        seq![kind, value as u8]
    } else {
        seq![(kind + 1) as u8, 0] + wire::le16(value)
    }
}

/// How many bytes the segment that begins with `first` takes: the lowest
/// bit of a kind is its width.
pub open spec fn segment_len(first: u8) -> nat {
    if first % 2 == 0 {
        2
    } else {
        4
    }
}

/// The kind that `first` names, without its width.
pub open spec fn segment_kind(first: u8) -> u8 {
    (first - first % 2) as u8
}

/// The value of the segment that `bytes` begin with.
pub open spec fn segment_value(bytes: Seq<u8>) -> u16 {
    if bytes[0] % 2 == 0 {
        bytes[1] as u16
    } else {
        wire::word_at(bytes, 2)
    }
}

impl Path {
    /// The path of no segments.
    pub open spec fn empty() -> Path {
        Path { class: 0, instance: 0, attribute: 0 }
    }

    /// The path on the wire.
    pub open spec fn bytes(self) -> Seq<u8> {
        segment(0x20, self.class) + segment(0x24, self.instance) + segment(0x30, self.attribute)
    }

    /// This path with what a segment of `kind` names set to `value`.
    pub open spec fn with(self, kind: u8, value: u16) -> Result<Path, Error> {
        if kind == 0x20 {
            Ok(Path { class: value, ..self })
        } else if kind == 0x24 {
            Ok(Path { instance: value, ..self })
        } else if kind == 0x30 {
            Ok(Path { attribute: value, ..self })
        } else {
            Err(Error::NotLogical(kind))
        }
    }

    /// This path with the segments in `bytes` set, one behind the other.
    pub open spec fn extended(self, bytes: Seq<u8>) -> Result<Path, Error>
        decreases bytes.len(),
    {
        if bytes.len() == 0 {
            Ok(self)
        } else if bytes.len() < segment_len(bytes[0]) {
            Err(Error::SegmentCut)
        } else {
            match self.with(segment_kind(bytes[0]), segment_value(bytes)) {
                Ok(path) => path.extended(bytes.skip(segment_len(bytes[0]) as int)),
                Err(error) => Err(error),
            }
        }
    }

    /// What [`Path::decode`] gives.
    pub open spec fn decoded(bytes: Seq<u8>) -> Result<Path, Error> {
        Path::empty().extended(bytes)
    }

    /// The path as logical segments, padded to whole words.
    pub fn encode(self) -> (bytes: Vec<u8>)
        ensures
            bytes@ == self.bytes(),
    {
        let mut out: Vec<u8> = Vec::with_capacity(12);
        push_segment(&mut out, CLASS, self.class);
        push_segment(&mut out, INSTANCE, self.instance);
        push_segment(&mut out, ATTRIBUTE, self.attribute);
        assert(out@ =~= self.bytes());
        out
    }

    /// The path `bytes` carry. What no segment names is 0, and of two
    /// segments of one kind the later counts.
    ///
    /// # Errors
    /// A segment that is not a logical class, instance or attribute, or one
    /// cut short.
    pub fn decode(bytes: &[u8]) -> (path: Result<Self, Error>)
        ensures
            path == Path::decoded(bytes@),
    {
        let mut path: Path = Path { class: 0, instance: 0, attribute: 0 };
        let mut at: usize = 0;
        assert(bytes@.skip(0) =~= bytes@);
        while at < bytes.len()
            invariant
                at <= bytes@.len(),
                Path::decoded(bytes@) == path.extended(bytes@.skip(at as int)),
            decreases bytes@.len() - at,
        {
            let kind: u8 = bytes[at];
            let left: usize = bytes.len() - at;
            let ghost rest = bytes@.skip(at as int);
            assert(kind & 0x01 == kind % 2) by (bit_vector);
            assert(kind & 0xfe == kind - kind % 2) by (bit_vector);
            let value: u16;
            let taken: usize;
            if kind & 0x01 == 0 {
                if left < 2 {
                    return Err(Error::SegmentCut);
                }
                value = bytes[at + 1] as u16;
                taken = 2;
            } else {
                if left < 4 {
                    return Err(Error::SegmentCut);
                }
                value = wire::word(bytes, at + 2);
                taken = 4;
            }
            assert(value == segment_value(rest));
            match kind & 0xfe {
                CLASS => path.class = value,
                INSTANCE => path.instance = value,
                ATTRIBUTE => path.attribute = value,
                other => return Err(Error::NotLogical(other)),
            }
            at = at + taken;
            assert(bytes@.skip(at as int) =~= rest.skip(taken as int));
        }
        Ok(path)
    }
}

/// Write one segment behind `out`.
fn push_segment(out: &mut Vec<u8>, kind: u8, value: u16)
    requires
        kind % 2 == 0,
    ensures
        final(out)@ == old(out)@ + segment(kind, value),
{
    if value < 256 {
        out.push(kind);
        out.push(value as u8);
    } else {
        assert(kind % 2 == 0 ==> kind | 0x01 == kind + 1) by (bit_vector);
        out.push(kind | 0x01);
        out.push(0);
        wire::push_word(out, value);
    }
    assert(out@ =~= old(out)@ + segment(kind, value));
}

/// One explicit request.
#[derive(Clone, Debug, PartialEq, Eq)]
pub struct Request {
    pub service: u8,
    pub path: Path,
    pub data: Vec<u8>,
}

/// One explicit request as its fields' values.
pub struct RequestView {
    pub service: u8,
    pub path: Path,
    pub data: Seq<u8>,
}

impl View for Request {
    type V = RequestView;

    open spec fn view(&self) -> RequestView {
        RequestView { service: self.service, path: self.path, data: self.data@ }
    }
}

impl RequestView {
    /// The request on the wire: the service, how many words the path is
    /// long, the path, the data.
    pub open spec fn bytes(self) -> Seq<u8> {
        seq![self.service, (self.path.bytes().len() / 2) as u8] + self.path.bytes() + self.data
    }

    /// What [`Request::decode`] gives.
    pub open spec fn decoded(bytes: Seq<u8>) -> Result<RequestView, Error> {
        if bytes.len() == 0 {
            Err(Error::EmptyRequest)
        } else if is_reply(bytes[0]) {
            Err(Error::ReplyNotRequest)
        } else if bytes.len() == 1 {
            Err(Error::NoPathSize)
        } else if bytes.len() < 2 + 2 * bytes[1] {
            Err(Error::PathPastEnd)
        } else {
            match Path::decoded(bytes.subrange(2, 2 + 2 * bytes[1])) {
                Ok(path) => Ok(
                    RequestView { service: bytes[0], path, data: bytes.skip(2 + 2 * bytes[1]) },
                ),
                Err(error) => Err(error),
            }
        }
    }
}

/// Whether `service` has the reply bit.
pub open spec fn is_reply(service: u8) -> bool {
    service >= 0x80
}

/// `service` with the reply bit.
pub open spec fn reply_service(service: u8) -> u8 {
    if is_reply(service) {
        service
    } else {
        (service + 0x80) as u8
    }
}

/// Whether `service` has the reply bit.
fn has_reply_bit(service: u8) -> (reply: bool)
    ensures
        reply == is_reply(service),
{
    assert((service & 0x80 != 0) == (service >= 0x80)) by (bit_vector);
    service & 0x80 != 0
}

/// `service` with the reply bit.
pub fn with_reply_bit(service: u8) -> (reply: u8)
    ensures
        reply == reply_service(service),
{
    assert(service | 0x80 == if service >= 0x80 {
        service as int
    } else {
        service + 0x80
    }) by (bit_vector);
    service | 0x80
}

impl Request {
    /// The request as bytes.
    pub fn encode(&self) -> (bytes: Vec<u8>)
        ensures
            bytes@ == self@.bytes(),
    {
        let path: Vec<u8> = self.path.encode();
        let mut out: Vec<u8> = Vec::new();
        out.push(self.service);
        out.push((path.len() / 2) as u8);
        wire::push_bytes(&mut out, path.as_slice());
        wire::push_bytes(&mut out, self.data.as_slice());
        assert(out@ =~= self@.bytes());
        out
    }

    /// The request `bytes` carry.
    ///
    /// # Errors
    /// Shorter than a service and a path size, a reply where a request was
    /// due, a path past the end, or a path that does not decode.
    pub fn decode(bytes: &[u8]) -> (request: Result<Self, Error>)
        ensures
            crate::error::agrees(request, RequestView::decoded(bytes@)),
    {
        let end: usize = bytes.len();
        if end == 0 {
            return Err(Error::EmptyRequest);
        }
        let service: u8 = bytes[0];
        if has_reply_bit(service) {
            return Err(Error::ReplyNotRequest);
        }
        if end == 1 {
            return Err(Error::NoPathSize);
        }
        let length: usize = bytes[1] as usize * 2;
        if end - 2 < length {
            return Err(Error::PathPastEnd);
        }
        match Path::decode(slice_subrange(bytes, 2, 2 + length)) {
            Ok(path) => {
                let data: Vec<u8> = slice_to_vec(slice_subrange(bytes, 2 + length, end));
                assert(data@ =~= bytes@.skip(2 + 2 * bytes@[1]));
                Ok(Request { service, path, data })
            },
            Err(error) => Err(error),
        }
    }
}

/// One reply.
#[derive(Clone, Debug, PartialEq, Eq)]
pub struct Reply {
    /// The request's service with the reply bit set.
    pub service: u8,
    pub status: u8,
    pub data: Vec<u8>,
}

/// One reply as its fields' values.
pub struct ReplyView {
    pub service: u8,
    pub status: u8,
    pub data: Seq<u8>,
}

impl View for Reply {
    type V = ReplyView;

    open spec fn view(&self) -> ReplyView {
        ReplyView { service: self.service, status: self.status, data: self.data@ }
    }
}

impl ReplyView {
    /// The reply to `service` with `status` carrying `data`.
    pub open spec fn to(service: u8, status: u8, data: Seq<u8>) -> ReplyView {
        ReplyView { service: reply_service(service), status, data }
    }

    /// The reply on the wire: service, reserved, status, no additional
    /// status, the data.
    pub open spec fn bytes(self) -> Seq<u8> {
        seq![self.service, 0, self.status, 0] + self.data
    }

    /// What [`Reply::decode`] gives.
    pub open spec fn decoded(bytes: Seq<u8>) -> Result<ReplyView, Error> {
        if bytes.len() < 4 {
            Err(Error::ReplyCut)
        } else if !is_reply(bytes[0]) {
            Err(Error::RequestNotReply)
        } else if bytes.len() < 4 + 2 * bytes[3] {
            Err(Error::AdditionalPastEnd)
        } else {
            Ok(
                ReplyView {
                    service: bytes[0],
                    status: bytes[2],
                    data: bytes.skip(4 + 2 * bytes[3]),
                },
            )
        }
    }
}

impl Reply {
    /// The reply to `service` with `status` carrying `data`.
    pub fn to(service: u8, status: u8, data: Vec<u8>) -> (reply: Self)
        ensures
            reply@ == ReplyView::to(service, status, data@),
    {
        Reply { service: with_reply_bit(service), status, data }
    }

    /// The reply as bytes: service, reserved, status, no additional status.
    pub fn encode(&self) -> (bytes: Vec<u8>)
        ensures
            bytes@ == self@.bytes(),
    {
        let mut out: Vec<u8> = Vec::new();
        out.push(self.service);
        out.push(0);
        out.push(self.status);
        out.push(0);
        wire::push_bytes(&mut out, self.data.as_slice());
        assert(out@ =~= self@.bytes());
        out
    }

    /// The reply `bytes` carry.
    ///
    /// # Errors
    /// Shorter than its four bytes, a request where a reply was due, or
    /// additional status past the end.
    pub fn decode(bytes: &[u8]) -> (reply: Result<Self, Error>)
        ensures
            crate::error::agrees(reply, ReplyView::decoded(bytes@)),
    {
        let end: usize = bytes.len();
        if end < 4 {
            return Err(Error::ReplyCut);
        }
        if !has_reply_bit(bytes[0]) {
            return Err(Error::RequestNotReply);
        }
        let additional: usize = bytes[3] as usize * 2;
        if end - 4 < additional {
            return Err(Error::AdditionalPastEnd);
        }
        let data: Vec<u8> = slice_to_vec(slice_subrange(bytes, 4 + additional, end));
        assert(data@ =~= bytes@.skip(4 + 2 * bytes@[3]));
        Ok(Reply { service: bytes[0], status: bytes[2], data })
    }
}

/// One segment in front of others sets what it names and leaves the others.
proof fn lemma_segment(path: Path, kind: u8, value: u16, rest: Seq<u8>)
    requires
        kind % 2 == 0,
    ensures
        path.extended(segment(kind, value) + rest) == match path.with(kind, value) {
            Ok(path) => path.extended(rest),
            Err(error) => Err(error),
        },
{
    let bytes = segment(kind, value) + rest;
    assert(bytes.skip(segment_len(bytes[0]) as int) =~= rest);
    if value >= 256 {
        assert(bytes.subrange(2, 4) =~= wire::le16(value));
        wire::law_word_round_trip(value, bytes, 2);
    }
    assert(segment_value(bytes) == value);
}

/// A path on the wire reads back as itself.
pub proof fn law_path_round_trip(path: Path)
    ensures
        Path::decoded(path.bytes()) == Ok::<_, Error>(path),
{
    let none = Seq::<u8>::empty();
    let attribute = segment(0x30, path.attribute);
    let instance = segment(0x24, path.instance);
    let class = segment(0x20, path.class);
    let first = Path { class: path.class, instance: 0, attribute: 0 };
    let second = Path { class: path.class, instance: path.instance, attribute: 0 };
    assert(path.bytes() =~= class + (instance + (attribute + none)));
    lemma_segment(Path::empty(), 0x20, path.class, instance + (attribute + none));
    lemma_segment(first, 0x24, path.instance, attribute + none);
    lemma_segment(second, 0x30, path.attribute, none);
}

/// A path on the wire is whole words, at least three and at most six of
/// them, and three where class, instance and attribute each fit in a byte.
pub proof fn law_path_is_whole_words(path: Path)
    ensures
        path.bytes().len() % 2 == 0,
        6 <= path.bytes().len() <= 12,
        path.bytes().len() == 6 <==> path.class < 256 && path.instance < 256 && path.attribute
            < 256,
{
}

/// A request on the wire reads back as itself.
pub proof fn law_request_round_trip(request: RequestView)
    requires
        !is_reply(request.service),
    ensures
        RequestView::decoded(request.bytes()) == Ok::<_, Error>(request),
{
    let bytes = request.bytes();
    let path = request.path.bytes();
    law_path_is_whole_words(request.path);
    law_path_round_trip(request.path);
    assert(bytes.subrange(2, 2 + 2 * bytes[1]) =~= path);
    assert(bytes.skip(2 + 2 * bytes[1]) =~= request.data);
}

/// A service with the reply bit is no request: whatever else the bytes
/// say, they are refused.
pub proof fn law_reply_is_no_request(reply: ReplyView)
    requires
        is_reply(reply.service),
    ensures
        RequestView::decoded(reply.bytes()) == Err::<RequestView, _>(Error::ReplyNotRequest),
{
}

/// A request is no reply: what a requester wrote is refused as an answer.
pub proof fn law_request_is_no_reply(request: RequestView)
    requires
        !is_reply(request.service),
    ensures
        ReplyView::decoded(request.bytes()) == Err::<ReplyView, _>(Error::RequestNotReply),
{
    law_path_is_whole_words(request.path);
}

/// No bytes are both a request and a reply.
pub proof fn law_no_bytes_are_both(bytes: Seq<u8>)
    ensures
        RequestView::decoded(bytes) is Err || ReplyView::decoded(bytes) is Err,
{
}

/// A reply on the wire reads back as itself.
pub proof fn law_reply_round_trip(reply: ReplyView)
    requires
        is_reply(reply.service),
    ensures
        ReplyView::decoded(reply.bytes()) == Ok::<_, Error>(reply),
{
    let bytes = reply.bytes();
    assert(bytes.skip(4 + 2 * bytes[3]) =~= reply.data);
}

/// Additional status of any length is skipped: the reply reads as if it had
/// none.
pub proof fn law_additional_status_is_skipped(reply: ReplyView, additional: Seq<u8>)
    requires
        is_reply(reply.service),
        additional.len() % 2 == 0,
        additional.len() / 2 <= 255,
    ensures
        ReplyView::decoded(
            seq![reply.service, 0, reply.status, (additional.len() / 2) as u8] + additional
                + reply.data,
        ) == Ok::<_, Error>(reply),
{
    let bytes = seq![reply.service, 0, reply.status, (additional.len() / 2) as u8] + additional
        + reply.data;
    assert(bytes.skip(4 + 2 * bytes[3]) =~= reply.data);
}

/// A path on the wire is the class, the instance and the attribute in this
/// order, each behind a byte that says which of them it is: 0x20, 0x24 and
/// 0x30. What a byte counts is one; what it does not is two, the low one
/// first, behind a pad, and the byte that says so is one more.
pub proof fn law_a_path_is_three_segments(path: Path)
    ensures
        ({
            let bytes = path.bytes();
            let second = if path.class < 256 {
                2int
            } else {
                4
            };
            let third = second + if path.instance < 256 {
                2int
            } else {
                4
            };
            let end = third + if path.attribute < 256 {
                2int
            } else {
                4
            };
            &&& bytes.len() == end
            &&& if path.class < 256 {
                bytes[0] == 0x20 && bytes[1] == path.class
            } else {
                &&& bytes[0] == 0x21 && bytes[1] == 0
                &&& bytes[2] + 0x100 * bytes[3] == path.class
            }
            &&& if path.instance < 256 {
                bytes[second] == 0x24 && bytes[second + 1] == path.instance
            } else {
                &&& bytes[second] == 0x25 && bytes[second + 1] == 0
                &&& bytes[second + 2] + 0x100 * bytes[second + 3] == path.instance
            }
            &&& if path.attribute < 256 {
                bytes[third] == 0x30 && bytes[third + 1] == path.attribute
            } else {
                &&& bytes[third] == 0x31 && bytes[third + 1] == 0
                &&& bytes[third + 2] + 0x100 * bytes[third + 3] == path.attribute
            }
        }),
{
    wire::law_a_word_is_low_byte_first(path.class);
    wire::law_a_word_is_low_byte_first(path.instance);
    wire::law_a_word_is_low_byte_first(path.attribute);
}

/// Segments that are in order leave what comes behind them to be read from
/// where they led.
proof fn lemma_in_front(path: Path, front: Seq<u8>, rest: Seq<u8>)
    requires
        path.extended(front) is Ok,
    ensures
        path.extended(front + rest) == path.extended(front)->Ok_0.extended(rest),
    decreases front.len(),
{
    if front.len() == 0 {
        assert(front + rest =~= rest);
    } else {
        let taken = segment_len(front[0]) as int;
        let whole = front + rest;
        assert(segment_value(whole) == segment_value(front));
        assert(whole.skip(taken) =~= front.skip(taken) + rest);
        let next = path.with(segment_kind(front[0]), segment_value(front))->Ok_0;
        lemma_in_front(next, front.skip(taken), rest);
    }
}

/// Bytes that hold no segment are the path of zeros.
pub proof fn law_no_segments_are_zeros()
    ensures
        Path::decoded(seq![]) == Ok::<_, Error>(Path { class: 0, instance: 0, attribute: 0 }),
{
}

/// A segment of one byte behind a path that is in order sets the class, the
/// instance or the attribute, as its kind says, and leaves the two others;
/// one of another kind is refused by that kind, whatever comes behind it.
pub proof fn law_a_short_segment_sets_its_part(front: Seq<u8>, kind: u8, byte: u8, rest: Seq<u8>)
    requires
        Path::decoded(front) is Ok,
        kind % 2 == 0,
    ensures
        ({
            let path = Path::decoded(front)->Ok_0;
            let longer = Path::decoded(front + seq![kind, byte]);
            &&& kind == 0x20 ==> longer == Ok::<_, Error>(Path { class: byte as u16, ..path })
            &&& kind == 0x24 ==> longer == Ok::<_, Error>(Path { instance: byte as u16, ..path })
            &&& kind == 0x30 ==> longer == Ok::<_, Error>(Path { attribute: byte as u16, ..path })
            &&& kind != 0x20 && kind != 0x24 && kind != 0x30 ==> Path::decoded(
                front + (seq![kind, byte] + rest),
            ) == Err::<Path, _>(Error::NotLogical(kind))
        }),
{
    let bytes = seq![kind, byte];
    lemma_in_front(Path::empty(), front, bytes);
    lemma_in_front(Path::empty(), front, bytes + rest);
    assert(bytes.skip(2) =~= seq![]);
    reveal_with_fuel(Path::extended, 2);
}

/// A segment of two bytes behind a path that is in order sets what its kind,
/// which is one more than that of a segment of one byte, says, to what the
/// bytes behind the pad count, the low one first, whatever the pad; one of
/// another kind is refused, by the kind that a segment of one byte has.
pub proof fn law_a_long_segment_sets_its_part(
    front: Seq<u8>,
    kind: u8,
    pad: u8,
    low: u8,
    high: u8,
    rest: Seq<u8>,
)
    requires
        Path::decoded(front) is Ok,
        kind % 2 == 1,
    ensures
        ({
            let path = Path::decoded(front)->Ok_0;
            let value = (low + 0x100 * high) as u16;
            let longer = Path::decoded(front + seq![kind, pad, low, high]);
            &&& kind == 0x21 ==> longer == Ok::<_, Error>(Path { class: value, ..path })
            &&& kind == 0x25 ==> longer == Ok::<_, Error>(Path { instance: value, ..path })
            &&& kind == 0x31 ==> longer == Ok::<_, Error>(Path { attribute: value, ..path })
            &&& kind != 0x21 && kind != 0x25 && kind != 0x31 ==> Path::decoded(
                front + (seq![kind, pad, low, high] + rest),
            ) == Err::<Path, _>(Error::NotLogical((kind - 1) as u8))
        }),
{
    let bytes = seq![kind, pad, low, high];
    lemma_in_front(Path::empty(), front, bytes);
    lemma_in_front(Path::empty(), front, bytes + rest);
    wire::law_what_is_read_is_low_byte_first(bytes, 2);
    assert(bytes.skip(4) =~= seq![]);
    reveal_with_fuel(Path::extended, 2);
}

/// A path that ends inside a segment is cut, whatever the kind: behind what
/// is in order, one byte, or three and fewer where the kind is of two bytes.
pub proof fn law_a_cut_segment_is_refused(front: Seq<u8>, tail: Seq<u8>)
    requires
        Path::decoded(front) is Ok,
        tail.len() == 1 || 1 < tail.len() < 4 && tail[0] % 2 == 1,
    ensures
        Path::decoded(front + tail) == Err::<Path, _>(Error::SegmentCut),
{
    lemma_in_front(Path::empty(), front, tail);
}

/// A request on the wire: its service, how many words the path takes, the
/// path, and the data to the end.
pub proof fn law_a_request_is_service_path_and_data(request: RequestView)
    ensures
        ({
            let bytes = request.bytes();
            let path = request.path.bytes();
            &&& bytes.len() == 2 + path.len() + request.data.len()
            &&& bytes[0] == request.service
            &&& 2 * bytes[1] == path.len()
            &&& bytes.subrange(2, 2 + path.len() as int) == path
            &&& bytes.skip(2 + path.len() as int) == request.data
        }),
{
    let bytes = request.bytes();
    let path = request.path.bytes();
    law_path_is_whole_words(request.path);
    assert(bytes.subrange(2, 2 + path.len() as int) =~= path);
    assert(bytes.skip(2 + path.len() as int) =~= request.data);
}

/// What request any bytes are: the first is the service, the second counts
/// the words of the path, and the data is all that is behind the path. What
/// has the reply bit, is too short or holds no path is refused, and what
/// fails first says what is wrong.
pub proof fn law_what_request_bytes_are(bytes: Seq<u8>)
    ensures
        bytes.len() == 0 ==> RequestView::decoded(bytes) == Err::<RequestView, _>(
            Error::EmptyRequest,
        ),
        bytes.len() >= 1 && bytes[0] >= 0x80 ==> RequestView::decoded(bytes) == Err::<
            RequestView,
            _,
        >(Error::ReplyNotRequest),
        bytes.len() == 1 && bytes[0] < 0x80 ==> RequestView::decoded(bytes) == Err::<
            RequestView,
            _,
        >(Error::NoPathSize),
        bytes.len() >= 2 && bytes[0] < 0x80 ==> {
            let end = 2 + 2 * bytes[1];
            if bytes.len() < end {
                RequestView::decoded(bytes) == Err::<RequestView, _>(Error::PathPastEnd)
            } else {
                match Path::decoded(bytes.subrange(2, end)) {
                    Ok(path) => RequestView::decoded(bytes) matches Ok(request) && {
                        &&& request.service == bytes[0]
                        &&& request.path == path
                        &&& request.data == bytes.skip(end)
                    },
                    Err(error) => RequestView::decoded(bytes) == Err::<RequestView, _>(error),
                }
            }
        },
{
}

/// The reply bit is the highest of a service: a service has it or it is set,
/// and no other bit changes.
pub proof fn law_the_reply_bit_is_the_highest(service: u8)
    ensures
        is_reply(service) <==> service & 0x80 != 0,
        reply_service(service) == service | 0x80,
        reply_service(service) >= 0x80,
        reply_service(service) % 0x80 == service % 0x80,
{
    assert((service & 0x80 != 0) == (service >= 0x80)) by (bit_vector);
    assert(service | 0x80 == if service >= 0x80 {
        service as int
    } else {
        service + 0x80
    }) by (bit_vector);
}

/// The reply to a service has the status and the data it was given, and the
/// service with the reply bit.
pub proof fn law_a_reply_has_what_it_was_given(service: u8, status: u8, data: Seq<u8>)
    ensures
        ({
            let reply = ReplyView::to(service, status, data);
            &&& reply.service == service | 0x80
            &&& reply.status == status
            &&& reply.data == data
        }),
{
    law_the_reply_bit_is_the_highest(service);
}

/// A reply on the wire: its service, a zero, its status, a zero, and the
/// data to the end.
pub proof fn law_a_reply_is_service_status_and_data(reply: ReplyView)
    ensures
        ({
            let bytes = reply.bytes();
            &&& bytes.len() == 4 + reply.data.len()
            &&& bytes[0] == reply.service
            &&& bytes[1] == 0
            &&& bytes[2] == reply.status
            &&& bytes[3] == 0
            &&& bytes.skip(4) == reply.data
        }),
{
    assert(reply.bytes().skip(4) =~= reply.data);
}

/// What reply any bytes are: the first is the service, the third the status,
/// whatever the second, the fourth counts the words of additional status,
/// and the data is all that is behind those. What is too short or has no
/// reply bit is refused, and what fails first says what is wrong.
pub proof fn law_what_reply_bytes_are(bytes: Seq<u8>)
    ensures
        bytes.len() < 4 ==> ReplyView::decoded(bytes) == Err::<ReplyView, _>(Error::ReplyCut),
        bytes.len() >= 4 && bytes[0] < 0x80 ==> ReplyView::decoded(bytes) == Err::<ReplyView, _>(
            Error::RequestNotReply,
        ),
        bytes.len() >= 4 && bytes[0] >= 0x80 ==> {
            let end = 4 + 2 * bytes[3];
            if bytes.len() < end {
                ReplyView::decoded(bytes) == Err::<ReplyView, _>(Error::AdditionalPastEnd)
            } else {
                ReplyView::decoded(bytes) matches Ok(reply) && {
                    &&& reply.service == bytes[0]
                    &&& reply.status == bytes[2]
                    &&& reply.data == bytes.skip(end)
                }
            }
        },
{
}

} // verus!
