//! What can be wrong with a message, a target or a payload.
use vstd::prelude::*;

use crate::text;

verus! {

/// Why a message was not made, not read or not accepted.
#[derive(Clone, Debug, PartialEq, Eq)]
pub enum Error {
    /// Data over what an encapsulation packet's sixteen-bit length names.
    PacketTooLong,
    /// The connection closed inside an encapsulation header.
    HeaderCut,
    /// The connection closed inside the data of an encapsulation packet.
    DataCut,
    /// An encapsulation header with options set.
    OptionsNotZero,
    /// CIP over what a data item's sixteen-bit length names.
    ItemTooLong,
    /// `SendRRData` data that ends before its items.
    ItemsCut,
    /// `SendRRData` data with fewer than two items.
    TooFewItems,
    /// An address item that is not the null address.
    AddressNotNull,
    /// A data item that is not unconnected data.
    DataNotUnconnected,
    /// A data item longer than the data that holds it.
    ItemPastEnd,
    /// A path that ends inside a segment.
    SegmentCut,
    /// A path segment of another kind, given without its width bit.
    NotLogical(u8),
    /// A request of no bytes.
    EmptyRequest,
    /// A service with the reply bit set where a request was due.
    ReplyNotRequest,
    /// A request that ends behind its service.
    NoPathSize,
    /// A path longer than the request that holds it.
    PathPastEnd,
    /// A reply shorter than its four bytes.
    ReplyCut,
    /// A service without the reply bit where a reply was due.
    RequestNotReply,
    /// Additional status longer than the reply that holds it.
    AdditionalPastEnd,
    /// The connection closed where an answer was due.
    ClosedBeforeAnswering,
    /// An answer that does not register the session.
    NotRegistered,
    /// An answer that refuses the `SendRRData`.
    RrDataRefused,
    /// A reply to another service than the one asked.
    OtherService,
    /// A reply with a general status other than success.
    GeneralStatus(u8),
    /// A payload over what one set carries.
    OverCeiling,
    /// A target whose path is not an assembly instance.
    NotAnInstance(String),
    /// An adapter that no longer holds the assembly it was given.
    AssemblyMissing,
}

/// How `core::fmt::Debug` writes `text`: in double quotes, with what is not
/// printable escaped.
pub uninterp spec fn debug_text(text: Seq<char>) -> Seq<char>;

/// `text` as the `Debug` of `str` writes it. What it writes depends on
/// `text` alone; nothing further is claimed of it.
#[verifier::external_body]
fn quoted(text: &str) -> (quoted: String)
    ensures
        quoted@ == debug_text(text@),
{
    format!("{text:?}")
}

impl Error {
    /// The words for this error.
    pub open spec fn text(self) -> Seq<char> {
        match self {
            Error::PacketTooLong => "over what one encapsulation packet carries"@,
            Error::HeaderCut => "reading the encapsulation header: closed inside it"@,
            Error::DataCut => "reading the encapsulation data: closed inside it"@,
            Error::OptionsNotZero => "encapsulation options that are not zero"@,
            Error::ItemTooLong => "over what one data item carries"@,
            Error::ItemsCut => "SendRRData shorter than its items"@,
            Error::TooFewItems => "fewer than two items in SendRRData"@,
            Error::AddressNotNull => "an address item that is not null"@,
            Error::DataNotUnconnected => "a data item that is not unconnected data"@,
            Error::ItemPastEnd => "a data item length past the end"@,
            Error::SegmentCut => "a segment cut short"@,
            Error::NotLogical(kind) => "segment "@ + text::hexadecimal(kind)
                + " is not a logical class, instance or attribute"@,
            Error::EmptyRequest => "an empty CIP request"@,
            Error::ReplyNotRequest => "a reply where a request was due"@,
            Error::NoPathSize => "a request without its path size"@,
            Error::PathPastEnd => "a path past the end"@,
            Error::ReplyCut => "a CIP reply shorter than its header"@,
            Error::RequestNotReply => "a request where a reply was due"@,
            Error::AdditionalPastEnd => "additional status past the end"@,
            Error::ClosedBeforeAnswering => "the adapter closed before answering"@,
            Error::NotRegistered => "the adapter did not register the session"@,
            Error::RrDataRefused => "the adapter refused the SendRRData"@,
            Error::OtherService => "a reply to another service"@,
            Error::GeneralStatus(status) => "the adapter answered general status "@
                + text::hexadecimal(status),
            Error::OverCeiling => "over what one set carries"@,
            Error::NotAnInstance(path) => debug_text(path@) + " is not an assembly instance"@,
            Error::AssemblyMissing => "the assembly went missing"@,
        }
    }

    /// The words for this error.
    pub fn message(&self) -> (message: String)
        ensures
            message@ == self.text(),
    {
        let fixed: &str = match self {
            Error::PacketTooLong => "over what one encapsulation packet carries",
            Error::HeaderCut => "reading the encapsulation header: closed inside it",
            Error::DataCut => "reading the encapsulation data: closed inside it",
            Error::OptionsNotZero => "encapsulation options that are not zero",
            Error::ItemTooLong => "over what one data item carries",
            Error::ItemsCut => "SendRRData shorter than its items",
            Error::TooFewItems => "fewer than two items in SendRRData",
            Error::AddressNotNull => "an address item that is not null",
            Error::DataNotUnconnected => "a data item that is not unconnected data",
            Error::ItemPastEnd => "a data item length past the end",
            Error::SegmentCut => "a segment cut short",
            Error::NotLogical(kind) => {
                let mut message: String = "segment ".to_owned();
                text::push_hexadecimal(&mut message, *kind);
                message.append(" is not a logical class, instance or attribute");
                return message;
            },
            Error::EmptyRequest => "an empty CIP request",
            Error::ReplyNotRequest => "a reply where a request was due",
            Error::NoPathSize => "a request without its path size",
            Error::PathPastEnd => "a path past the end",
            Error::ReplyCut => "a CIP reply shorter than its header",
            Error::RequestNotReply => "a request where a reply was due",
            Error::AdditionalPastEnd => "additional status past the end",
            Error::ClosedBeforeAnswering => "the adapter closed before answering",
            Error::NotRegistered => "the adapter did not register the session",
            Error::RrDataRefused => "the adapter refused the SendRRData",
            Error::OtherService => "a reply to another service",
            Error::GeneralStatus(status) => {
                let mut message: String = "the adapter answered general status ".to_owned();
                text::push_hexadecimal(&mut message, *status);
                return message;
            },
            Error::OverCeiling => "over what one set carries",
            Error::NotAnInstance(path) => {
                let mut message: String = quoted(path.as_str());
                message.append(" is not an assembly instance");
                return message;
            },
            Error::AssemblyMissing => "the assembly went missing",
        };
        fixed.to_owned()
    }

    /// Whether this is a fault in what was said, and not in the connection
    /// it was said on: trying again says the same.
    pub fn is_protocol(&self) -> (protocol: bool)
        ensures
            protocol == !(self is HeaderCut || self is DataCut),
    {
        match self {
            Error::HeaderCut | Error::DataCut => false,
            _ => true,
        }
    }
}

/// `outcome` is `model`, its value taken by its view.
pub open spec fn agrees<T: View>(outcome: Result<T, Error>, model: Result<T::V, Error>) -> bool {
    match (outcome, model) {
        (Ok(value), Ok(value_model)) => value@ == value_model,
        (Err(error), Err(error_model)) => error == error_model,
        _ => false,
    }
}

/// What agrees is the same: a value and its model, or two errors that are
/// one; never a value and an error.
pub proof fn law_what_agrees_is_the_same<T: View>(
    outcome: Result<T, Error>,
    model: Result<T::V, Error>,
)
    requires
        agrees(outcome, model),
    ensures
        outcome is Ok <==> model is Ok,
        outcome matches Ok(value) ==> model == Ok::<T::V, Error>(value@),
        outcome matches Err(error) ==> model == Err::<T::V, Error>(error),
{
}

/// The words for an error that has a byte of its own name that byte, in
/// hexadecimal; those for a path that is no instance begin with the path.
pub proof fn law_words_name_what_was_given(byte: u8, path: String)
    ensures
        Error::GeneralStatus(byte).text() == "the adapter answered general status "@
            + text::hexadecimal(byte),
        Error::NotLogical(byte).text() == "segment "@ + text::hexadecimal(byte)
            + " is not a logical class, instance or attribute"@,
        Error::NotAnInstance(path).text() == debug_text(path@) + " is not an assembly instance"@,
{
}

/// The words for each error that has nothing else to name.
pub proof fn law_words_say_what_is_wrong(error: Error)
    ensures
        error is PacketTooLong ==> error.text() == "over what one encapsulation packet carries"@,
        error is OptionsNotZero ==> error.text() == "encapsulation options that are not zero"@,
        error is ItemTooLong ==> error.text() == "over what one data item carries"@,
        error is ItemsCut ==> error.text() == "SendRRData shorter than its items"@,
        error is TooFewItems ==> error.text() == "fewer than two items in SendRRData"@,
        error is AddressNotNull ==> error.text() == "an address item that is not null"@,
        error is DataNotUnconnected ==> error.text()
            == "a data item that is not unconnected data"@,
        error is ItemPastEnd ==> error.text() == "a data item length past the end"@,
        error is SegmentCut ==> error.text() == "a segment cut short"@,
        error is EmptyRequest ==> error.text() == "an empty CIP request"@,
        error is ReplyNotRequest ==> error.text() == "a reply where a request was due"@,
        error is NoPathSize ==> error.text() == "a request without its path size"@,
        error is PathPastEnd ==> error.text() == "a path past the end"@,
        error is ReplyCut ==> error.text() == "a CIP reply shorter than its header"@,
        error is RequestNotReply ==> error.text() == "a request where a reply was due"@,
        error is AdditionalPastEnd ==> error.text() == "additional status past the end"@,
        error is ClosedBeforeAnswering ==> error.text() == "the adapter closed before answering"@,
        error is NotRegistered ==> error.text() == "the adapter did not register the session"@,
        error is RrDataRefused ==> error.text() == "the adapter refused the SendRRData"@,
        error is OtherService ==> error.text() == "a reply to another service"@,
        error is OverCeiling ==> error.text() == "over what one set carries"@,
        error is AssemblyMissing ==> error.text() == "the assembly went missing"@,
        error is HeaderCut ==> error.text() == "reading the encapsulation header: closed inside it"@,
        error is DataCut ==> error.text() == "reading the encapsulation data: closed inside it"@,
{
}

} // verus!
