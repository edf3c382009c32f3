//! One assembly's data as a Stream: what a transport is about, what a
//! target names, and a whole receive, send or loopback round on two ends
//! held as bytes.
use std::time::Duration;
use vstd::prelude::*;

use crate::adapter;
use crate::adapter::Adapter;
use crate::adapter::AdapterView;
use crate::encapsulation;
use crate::error::agrees;
use crate::error::Error;
use crate::scanner;
use crate::scanner::Scanner;
use crate::scanner::Talk;
use crate::text;
use crate::CEILING;

verus! {

/// Listens or connects at an address, about one assembly instance.
#[derive(Clone)]
pub struct EtherNetIpTransport {
    bind: String,
    instance: u8,
    timeout: Option<Duration>,
}

/// What a transport is about, as its fields' values.
pub struct TransportView {
    pub bind: Seq<char>,
    pub instance: u8,
    pub timeout: Option<Duration>,
}

impl View for EtherNetIpTransport {
    type V = TransportView;

    closed spec fn view(&self) -> TransportView {
        TransportView { bind: self.bind@, instance: self.instance, timeout: self.timeout }
    }
}

/// One Stream and where it came from.
#[derive(Clone, Debug, PartialEq, Eq)]
pub struct Arrived {
    pub origin_uri: String,
    pub bytes: Vec<u8>,
}

/// One Stream and where it came from, as its fields' values.
pub struct ArrivedView {
    pub origin_uri: Seq<char>,
    pub bytes: Seq<u8>,
}

impl View for Arrived {
    type V = ArrivedView;

    open spec fn view(&self) -> ArrivedView {
        ArrivedView { origin_uri: self.origin_uri@, bytes: self.bytes@ }
    }
}

/// What a target names.
pub enum Named {
    /// The address, and the instance to speak about.
    Instance(Seq<char>, u8),
    /// A path that is no instance.
    Refused(Seq<char>),
}

/// The authority and the path of a target that is an `enip` URI.
pub open spec fn target_parts(target: Seq<char>) -> Option<(Seq<char>, Seq<char>)> {
    text::uri_parts("enip://"@, target)
}

impl TransportView {
    /// What `target` names where `parts` are its authority and path: without
    /// parts the target is itself the address, and without a path the
    /// instance is the configured one.
    pub open spec fn named(
        self,
        target: Seq<char>,
        parts: Option<(Seq<char>, Seq<char>)>,
    ) -> Named {
        match parts {
            None => Named::Instance(target, self.instance),
            Some((authority, path)) => if path.len() == 0 {
                Named::Instance(authority, self.instance)
            } else {
                match text::byte_of(path) {
                    Some(instance) => Named::Instance(authority, instance),
                    None => Named::Refused(path),
                }
            },
        }
    }

    /// What `target` names.
    pub open spec fn resolved(self, target: Seq<char>) -> Named {
        self.named(target, target_parts(target))
    }

    /// The near end of a loopback: an ephemeral local port, the same
    /// assembly, and the same timeout, or `fallback` where there is none.
    pub open spec fn near_end(self, fallback: Duration) -> TransportView {
        TransportView {
            bind: "127.0.0.1:0"@,
            instance: self.instance,
            timeout: Some(
                match self.timeout {
                    Some(timeout) => timeout,
                    None => fallback,
                },
            ),
        }
    }

    /// The adapter that waits for one scanner, at `peer`, to set the
    /// assembly.
    pub open spec fn waiting(self, peer: Seq<char>) -> AdapterView {
        AdapterView { peer, session: 0, assemblies: Map::empty().insert(self.instance, seq![]) }
    }
}

/// `outcome` is what `named` says.
pub open spec fn names(outcome: Result<(String, u8), Error>, named: Named) -> bool {
    match (outcome, named) {
        (Ok((address, instance)), Named::Instance(address_model, instance_model)) => {
            &&& address@ == address_model
            &&& instance == instance_model
        },
        (Err(Error::NotAnInstance(path)), Named::Refused(path_model)) => path@ == path_model,
        _ => false,
    }
}

/// What a whole get of assembly `instance` comes to where the adapter sends
/// `inbound`: register, get, unregister.
pub open spec fn receive_talk(instance: u8, inbound: Seq<u8>) -> Talk<Seq<u8>> {
    let first = scanner::connect_talk(inbound);
    match first.outcome {
        Err(error) => Talk {
            unread: first.unread,
            written: first.written,
            outcome: Err(error),
        },
        Ok(session) => {
            let second = scanner::get_talk(session, instance, first.unread);
            Talk {
                unread: second.unread,
                written: match second.outcome {
                    Err(_) => first.written + second.written,
                    Ok(_) => first.written + second.written + scanner::unregister_packet(
                        session,
                    ).bytes(),
                },
                outcome: second.outcome,
            }
        },
    }
}

/// What a whole set of assembly `instance` to `bytes` comes to where the
/// adapter sends `inbound`: register, set, unregister.
pub open spec fn send_talk(instance: u8, bytes: Seq<u8>, inbound: Seq<u8>) -> Talk<()> {
    let first = scanner::connect_talk(inbound);
    match first.outcome {
        Err(error) => Talk {
            unread: first.unread,
            written: first.written,
            outcome: Err(error),
        },
        Ok(session) => {
            let second = scanner::set_talk(session, instance, bytes, first.unread);
            Talk {
                unread: second.unread,
                written: match second.outcome {
                    Err(_) => first.written + second.written,
                    Ok(_) => first.written + second.written + scanner::unregister_packet(
                        session,
                    ).bytes(),
                },
                outcome: second.outcome,
            }
        },
    }
}

impl EtherNetIpTransport {
    /// Listen or connect at `bind`, about assembly instance 100.
    pub fn new(bind: &str) -> (transport: Self)
        ensures
            transport@ == (TransportView { bind: bind@, instance: 100, timeout: None }),
    {
        EtherNetIpTransport { bind: bind.to_owned(), instance: 100, timeout: None }
    }

    /// Speak about assembly `instance` instead.
    pub fn about(self, instance: u8) -> (transport: Self)
        ensures
            transport@ == (TransportView { instance, ..self@ }),
    {
        EtherNetIpTransport { bind: self.bind, instance, timeout: self.timeout }
    }

    /// Give up on a peer that stops mid-message.
    pub fn timing_out_after(self, timeout: Duration) -> (transport: Self)
        ensures
            transport@ == (TransportView { timeout: Some(timeout), ..self@ }),
    {
        EtherNetIpTransport { bind: self.bind, instance: self.instance, timeout: Some(timeout) }
    }

    /// Both ends on this machine: an ephemeral local port, `timeout` on
    /// either side of the session.
    pub fn loopback(timeout: Duration) -> (transport: Self)
        ensures
            transport@ == (TransportView {
                bind: "127.0.0.1:0"@,
                instance: 100,
                timeout: Some(timeout),
            }),
    {
        EtherNetIpTransport::new("127.0.0.1:0").timing_out_after(timeout)
    }

    /// The near end of a loopback to this transport: an ephemeral local
    /// port, the same assembly, and the same timeout, or `fallback` where
    /// there is none.
    pub fn near_end(&self, fallback: Duration) -> (near: Self)
        ensures
            near@ == self@.near_end(fallback),
    {
        let timeout: Duration = match self.timeout {
            Some(timeout) => timeout,
            None => fallback,
        };
        EtherNetIpTransport::new("127.0.0.1:0").about(self.instance).timing_out_after(timeout)
    }

    /// Where to listen or connect.
    pub fn address(&self) -> (address: &str)
        ensures
            address@ == self@.bind,
    {
        self.bind.as_str()
    }

    /// The assembly to speak about.
    pub fn instance(&self) -> (instance: u8)
        ensures
            instance == self@.instance,
    {
        self.instance
    }

    /// When to give up on a peer, where ever.
    pub fn timeout(&self) -> (timeout: Option<Duration>)
        ensures
            timeout == self@.timeout,
    {
        self.timeout
    }

    /// What this kind of transport is called.
    pub fn name(&self) -> (name: &'static str)
        ensures
            name@ == "ethernet-ip"@,
    {
        "ethernet-ip"
    }

    /// One attribute is set in one encapsulation packet, and the packet's
    /// length is sixteen bits.
    pub fn ceiling(&self) -> (ceiling: Option<usize>)
        ensures
            ceiling == Some(CEILING),
    {
        Some(CEILING)
    }

    /// `enip://host:44818/<instance>` or `host:port` as the address and the
    /// instance to speak about.
    ///
    /// # Errors
    /// A path that is not an assembly instance.
    pub fn resolve(&self, target: &str) -> (named: Result<(String, u8), Error>)
        ensures
            names(named, self@.resolved(target@)),
    {
        let parts: Option<(&str, &str)> = text::split_uri("enip://", target);
        self.resolve_parts(target, parts)
    }

    /// The address and the instance that `target` names, where `parts` are
    /// the authority and the path it was split into.
    ///
    /// # Errors
    /// A path that is not an assembly instance.
    pub fn resolve_parts(&self, target: &str, parts: Option<(&str, &str)>) -> (named: Result<
        (String, u8),
        Error,
    >)
        ensures
            names(
                named,
                self@.named(
                    target@,
                    match parts {
                        Some((authority, path)) => Some((authority@, path@)),
                        None => None,
                    },
                ),
            ),
    {
        match parts {
            None => Ok((target.to_owned(), self.instance)),
            Some((authority, path)) => {
                if path.is_empty() {
                    return Ok((authority.to_owned(), self.instance));
                }
                match text::parse_byte(path) {
                    Some(instance) => Ok((authority.to_owned(), instance)),
                    None => Err(Error::NotAnInstance(path.to_owned())),
                }
            },
        }
    }

    /// One get of the assembly: its data as one Stream. What the adapter at
    /// [`EtherNetIpTransport::address`] sends is on `reader`, what it is
    /// sent goes behind `writer`.
    ///
    /// # Errors
    /// An adapter that did not register, has no such assembly or went away.
    pub fn receive(&self, reader: &mut &[u8], writer: &mut Vec<u8>) -> (arrived: Result<
        Vec<Arrived>,
        Error,
    >)
        ensures
            ({
                let talk = receive_talk(self@.instance, old(reader)@);
                &&& final(reader)@ == talk.unread
                &&& final(writer)@ == old(writer)@ + talk.written
                &&& match (arrived, talk.outcome) {
                    (Ok(arrived), Ok(bytes)) => {
                        &&& arrived@.len() == 1
                        &&& arrived@[0]@ == (ArrivedView {
                            origin_uri: adapter::origin_of(self@.bind, self@.instance),
                            bytes,
                        })
                    },
                    (Err(error), Err(model)) => error == model,
                    _ => false,
                }
            }),
    {
        let ghost before = writer@;
        let scanner: Scanner = match Scanner::connect(reader, writer) {
            Ok(scanner) => scanner,
            Err(error) => return Err(error),
        };
        match scanner.get(self.instance, reader, writer) {
            Ok(bytes) => {
                scanner.unregister(writer);
                assert(writer@ =~= before + receive_talk(self@.instance, old(reader)@).written);
                let origin_uri: String = adapter::origin_uri(self.bind.as_str(), self.instance);
                let mut arrived: Vec<Arrived> = Vec::new();
                arrived.push(Arrived { origin_uri, bytes });
                Ok(arrived)
            },
            Err(error) => {
                assert(writer@ =~= before + receive_talk(self@.instance, old(reader)@).written);
                Err(error)
            },
        }
    }

    /// One set of the assembly `target` names. What the adapter at the
    /// address that [`EtherNetIpTransport::resolve`] gives sends is on
    /// `reader`, what it is sent goes behind `writer`.
    ///
    /// # Errors
    /// A target that names no assembly, with nothing sent; a payload over
    /// the [`CEILING`]; an adapter that did not register, refused or went
    /// away.
    pub fn send(
        &self,
        target: &str,
        bytes: &[u8],
        reader: &mut &[u8],
        writer: &mut Vec<u8>,
    ) -> (outcome: Result<(), Error>)
        ensures
            match self@.resolved(target@) {
                Named::Instance(_, instance) => {
                    let talk = send_talk(instance, bytes@, old(reader)@);
                    &&& final(reader)@ == talk.unread
                    &&& final(writer)@ == old(writer)@ + talk.written
                    &&& outcome == talk.outcome
                },
                Named::Refused(path) => {
                    &&& final(reader)@ == old(reader)@
                    &&& final(writer)@ == old(writer)@
                    &&& outcome matches Err(Error::NotAnInstance(given)) && given@ == path
                },
            },
    {
        let ghost before = writer@;
        let instance: u8 = match self.resolve(target) {
            Ok((_, instance)) => instance,
            Err(error) => return Err(error),
        };
        let ghost talk = send_talk(instance, bytes@, reader@);
        let scanner: Scanner = match Scanner::connect(reader, writer) {
            Ok(scanner) => scanner,
            Err(error) => return Err(error),
        };
        match scanner.set(instance, bytes, reader, writer) {
            Ok(_) => {
                scanner.unregister(writer);
                assert(writer@ =~= before + talk.written);
                Ok(())
            },
            Err(error) => {
                assert(writer@ =~= before + talk.written);
                Err(error)
            },
        }
    }

    /// One set of the assembly `address` names, by the near end of a
    /// loopback, where the payload fits in one message at all.
    ///
    /// # Errors
    /// Over the [`CEILING`], with nothing sent; otherwise as
    /// [`EtherNetIpTransport::send`].
    pub fn send_to(
        &self,
        address: &str,
        payload: &[u8],
        fallback: Duration,
        reader: &mut &[u8],
        writer: &mut Vec<u8>,
    ) -> (outcome: Result<(), Error>)
        ensures
            if payload@.len() > CEILING {
                &&& final(reader)@ == old(reader)@
                &&& final(writer)@ == old(writer)@
                &&& outcome == Err::<(), Error>(Error::OverCeiling)
            } else {
                match self@.near_end(fallback).resolved(address@) {
                    Named::Instance(_, instance) => {
                        let talk = send_talk(instance, payload@, old(reader)@);
                        &&& final(reader)@ == talk.unread
                        &&& final(writer)@ == old(writer)@ + talk.written
                        &&& outcome == talk.outcome
                    },
                    Named::Refused(path) => {
                        &&& final(reader)@ == old(reader)@
                        &&& final(writer)@ == old(writer)@
                        &&& outcome matches Err(Error::NotAnInstance(given)) && given@ == path
                    },
                }
            },
    {
        match scanner::within_ceiling(payload.len()) {
            Ok(_) => self.near_end(fallback).send(address, payload, reader, writer),
            Err(error) => Err(error),
        }
    }

    /// Take one Stream: serve the scanner at `peer`, which finds the
    /// assembly empty, to its end, and hand on what the assembly then holds.
    ///
    /// # Errors
    /// Where the connection broke or the scanner did not speak `EtherNet/IP`.
    pub fn take_one(self, peer: &str, reader: &mut &[u8], writer: &mut Vec<u8>) -> (arrived: Result<
        Arrived,
        Error,
    >)
        ensures
            ({
                let served = self@.waiting(peer@).served(old(reader)@);
                &&& final(reader)@ == served.unread
                &&& final(writer)@ == old(writer)@ + served.written
                &&& agrees(
                    arrived,
                    match served.outcome {
                        Ok(_) => Ok(
                            ArrivedView {
                                origin_uri: adapter::origin_of(peer@, self@.instance),
                                bytes: served.adapter.assemblies[self@.instance],
                            },
                        ),
                        Err(error) => Err(error),
                    },
                )
            }),
    {
        let instance: u8 = self.instance;
        let mut adapter: Adapter = Adapter::accept(peer).with_assembly(instance, Vec::new());
        proof {
            assert(adapter@.assemblies[instance] =~= seq![]);
            adapter::law_serving_keeps_what_is_held(adapter@, reader@);
        }
        match adapter.serve(reader, writer) {
            Ok(_) => {},
            Err(error) => return Err(error),
        }
        arrived_at(&adapter, instance)
    }
}

/// What `adapter` holds of assembly `instance`, as one Stream.
///
/// # Errors
/// An adapter that does not hold the assembly.
pub fn arrived_at(adapter: &Adapter, instance: u8) -> (arrived: Result<Arrived, Error>)
    ensures
        agrees(
            arrived,
            if adapter@.assemblies.contains_key(instance) {
                Ok(
                    ArrivedView {
                        origin_uri: adapter::origin_of(adapter@.peer, instance),
                        bytes: adapter@.assemblies[instance],
                    },
                )
            } else {
                Err(Error::AssemblyMissing)
            },
        ),
{
    match adapter.assembly(instance) {
        Some(bytes) => Ok(
            Arrived {
                origin_uri: adapter.origin(instance),
                bytes: vstd::slice::slice_to_vec(bytes),
            },
        ),
        None => Err(Error::AssemblyMissing),
    }
}

/// `enip://host/<n>` names the host and assembly `n`, whatever the
/// configured instance, for every host that holds no slash.
pub proof fn law_target_names_the_instance(
    transport: TransportView,
    host: Seq<char>,
    instance: u8,
)
    requires
        !host.contains('/'),
    ensures
        transport.resolved("enip://"@ + host + seq!['/'] + text::decimal(instance as nat))
            == Named::Instance(host, instance),
{
    let prefix = "enip://"@;
    let number = text::decimal(instance as nat);
    let target = prefix + host + seq!['/'] + number;
    let rest = target.skip(prefix.len() as int);
    text::law_decimal_reads_back(instance);
    assert(prefix =~= target.subrange(0, prefix.len() as int));
    assert(rest =~= host + seq!['/'] + number);
    rest.index_of_first_ensures('/');
    assert(rest[host.len() as int] == '/');
    assert(rest.contains('/'));
    let slash = rest.index_of_first('/')->Some_0;
    if slash < host.len() {
        assert(host[slash] == '/');
    }
    assert(slash == host.len());
    assert(rest.take(slash) =~= host);
    assert(rest.skip(slash + 1) =~= number);
}

/// `enip://host`, with or without a slash behind it, names the host and the
/// configured assembly.
pub proof fn law_target_without_a_path_names_the_configured(
    transport: TransportView,
    host: Seq<char>,
)
    requires
        !host.contains('/'),
    ensures
        transport.resolved("enip://"@ + host) == Named::Instance(host, transport.instance),
        transport.resolved("enip://"@ + host + seq!['/']) == Named::Instance(
            host,
            transport.instance,
        ),
{
    let prefix = "enip://"@;
    let bare = prefix + host;
    assert(prefix =~= bare.subrange(0, prefix.len() as int));
    assert(bare.skip(prefix.len() as int) =~= host);
    host.index_of_first_ensures('/');
    let target = prefix + host + seq!['/'];
    let rest = target.skip(prefix.len() as int);
    assert(prefix =~= target.subrange(0, prefix.len() as int));
    assert(rest =~= host + seq!['/']);
    rest.index_of_first_ensures('/');
    assert(rest[host.len() as int] == '/');
    assert(rest.contains('/'));
    let slash = rest.index_of_first('/')->Some_0;
    if slash < host.len() {
        assert(host[slash] == '/');
    }
    assert(slash == host.len());
    assert(rest.take(slash) =~= host);
    assert(rest.skip(slash + 1) =~= seq![]);
}

/// A timeout that was set holds on either side of a loopback session, the
/// near end never waits without one, and it takes every target for what the
/// far end does.
pub proof fn law_both_ends_of_a_loopback_agree(
    transport: TransportView,
    fallback: Duration,
    target: Seq<char>,
)
    ensures
        transport.timeout is Some ==> transport.near_end(fallback).timeout == transport.timeout,
        transport.near_end(fallback).timeout is Some,
        transport.near_end(fallback).instance == transport.instance,
        transport.near_end(fallback).resolved(target) == transport.resolved(target),
{
}

/// A target that is no `enip` URI is an address as it stands, for the
/// configured assembly.
pub proof fn law_bare_target_is_the_address(transport: TransportView, target: Seq<char>)
    requires
        !"enip://"@.is_prefix_of(target),
    ensures
        transport.resolved(target) == Named::Instance(target, transport.instance),
{
}

/// What any target names, for every transport. `enip://` and what holds no
/// slash names that address; a path behind it, whatever it holds, is the
/// instance that it spells as a byte, or it is refused as it stands. The
/// configured instance is named only where there is no path.
pub proof fn law_a_path_is_an_instance_or_refused(
    transport: TransportView,
    host: Seq<char>,
    path: Seq<char>,
)
    requires
        !host.contains('/'),
        path.len() > 0,
    ensures
        transport.resolved("enip://"@ + host + seq!['/'] + path) == match text::byte_of(path) {
            Some(instance) => Named::Instance(host, instance),
            None => Named::Refused(path),
        },
{
    text::law_a_uri_is_split_at_the_first_slash("enip://"@, host, path);
}

/// A path that holds anything but digits behind an optional plus sign is
/// refused as it stands: whatever the configured instance, no instance is
/// named in its place.
pub proof fn law_a_path_that_is_no_number_is_refused(
    transport: TransportView,
    host: Seq<char>,
    path: Seq<char>,
    at: int,
)
    requires
        !host.contains('/'),
        0 <= at < path.len(),
        !(48 <= path[at] as int <= 57),
        !(at == 0 && path[0] == '+'),
    ensures
        transport.resolved("enip://"@ + host + seq!['/'] + path) == Named::Refused(path),
{
    let digits = text::without_plus(path);
    let i = if path[0] == '+' {
        at - 1
    } else {
        at
    };
    assert(digits[i] == path[at]);
    assert(!text::is_decimal_digit(digits[i]));
    law_a_path_is_an_instance_or_refused(transport, host, path);
}

/// What a target names by its parts: itself and the configured instance
/// where it has none; its authority and the configured instance where it has
/// no path; and else its authority and the instance that the path spells, or
/// nothing, and the path is refused.
pub proof fn law_parts_name_an_address_and_an_instance(
    transport: TransportView,
    target: Seq<char>,
    authority: Seq<char>,
    path: Seq<char>,
)
    ensures
        transport.named(target, None) == Named::Instance(target, transport.instance),
        path.len() == 0 ==> transport.named(target, Some((authority, path))) == Named::Instance(
            authority,
            transport.instance,
        ),
        path.len() > 0 ==> match text::byte_of(path) {
            Some(instance) => transport.named(target, Some((authority, path))) == Named::Instance(
                authority,
                instance,
            ),
            None => transport.named(target, Some((authority, path))) == Named::Refused(path),
        },
{
}

/// A whole receive registers and, where that gives a session, gets under it,
/// and, where that has the data, ends with 24 bytes that unregister that
/// same session. It has what the get has; where anything fails, it has that
/// error and writes nothing more.
pub proof fn law_a_receive_registers_gets_and_unregisters(instance: u8, inbound: Seq<u8>)
    ensures
        ({
            let talk = receive_talk(instance, inbound);
            let first = scanner::connect_talk(inbound);
            match first.outcome {
                Err(error) => {
                    &&& talk.written == first.written
                    &&& talk.unread == first.unread
                    &&& talk.outcome == Err::<Seq<u8>, Error>(error)
                },
                Ok(session) => {
                    let second = scanner::get_talk(session, instance, first.unread);
                    let both = first.written + second.written;
                    &&& talk.unread == second.unread
                    &&& talk.outcome == second.outcome
                    &&& talk.outcome is Err ==> talk.written == both
                    &&& talk.outcome is Ok ==> {
                        &&& talk.written.len() == both.len() + 24
                        &&& talk.written.take(both.len() as int) == both
                        &&& ends(talk.written.skip(both.len() as int), session)
                    }
                },
            }
        }),
{
    let first = scanner::connect_talk(inbound);
    if let Ok(session) = first.outcome {
        let both = first.written + scanner::get_talk(session, instance, first.unread).written;
        lemma_ends(both, session);
    }
}

/// A whole send registers and, where that gives a session, sets under it,
/// and, where that is done, ends with 24 bytes that unregister that same
/// session. It succeeds where the set does; where anything fails, it has
/// that error and writes nothing more.
pub proof fn law_a_send_registers_sets_and_unregisters(
    instance: u8,
    bytes: Seq<u8>,
    inbound: Seq<u8>,
)
    ensures
        ({
            let talk = send_talk(instance, bytes, inbound);
            let first = scanner::connect_talk(inbound);
            match first.outcome {
                Err(error) => {
                    &&& talk.written == first.written
                    &&& talk.unread == first.unread
                    &&& talk.outcome == Err::<(), Error>(error)
                },
                Ok(session) => {
                    let second = scanner::set_talk(session, instance, bytes, first.unread);
                    let both = first.written + second.written;
                    &&& talk.unread == second.unread
                    &&& talk.outcome == second.outcome
                    &&& talk.outcome is Err ==> talk.written == both
                    &&& talk.outcome is Ok ==> {
                        &&& talk.written.len() == both.len() + 24
                        &&& talk.written.take(both.len() as int) == both
                        &&& ends(talk.written.skip(both.len() as int), session)
                    }
                },
            }
        }),
{
    let first = scanner::connect_talk(inbound);
    if let Ok(session) = first.outcome {
        let both = first.written + scanner::set_talk(
            session,
            instance,
            bytes,
            first.unread,
        ).written;
        lemma_ends(both, session);
    }
}

/// Whether `wire` unregisters `session`: command 0x66, no data, the handle
/// with its low byte first, and zeros.
pub open spec fn ends(wire: Seq<u8>, session: u32) -> bool {
    &&& wire.len() == 24
    &&& wire.take(4) == seq![0x66u8, 0, 0, 0]
    &&& wire[4] + 0x100 * wire[5] + 0x1_0000 * wire[6] + 0x100_0000 * wire[7] == session
    &&& forall|i: int| 8 <= i < 24 ==> #[trigger] wire[i] == 0
}

/// What unregisters a session ends it, behind whatever was written.
proof fn lemma_ends(before: Seq<u8>, session: u32)
    ensures
        ({
            let farewell = scanner::unregister_packet(session).bytes();
            let all = before + farewell;
            &&& all.len() == before.len() + 24
            &&& all.take(before.len() as int) == before
            &&& ends(all.skip(before.len() as int), session)
        }),
{
    let farewell = scanner::unregister_packet(session).bytes();
    let all = before + farewell;
    scanner::law_an_unregistering_on_the_wire(session);
    assert(all.take(before.len() as int) =~= before);
    assert(all.skip(before.len() as int) =~= farewell);
}

/// What waits for one Stream holds the configured assembly, empty, and no
/// other, and has given no session.
pub proof fn law_what_waits_holds_one_empty_assembly(
    transport: TransportView,
    peer: Seq<char>,
    instance: u8,
)
    ensures
        ({
            let waiting = transport.waiting(peer);
            &&& waiting.peer == peer
            &&& waiting.session == 0
            &&& waiting.assemblies.contains_key(instance) <==> instance == transport.instance
            &&& waiting.assemblies[transport.instance].len() == 0
        }),
{
}

/// The near end of a loopback is at any free port of this machine, about the
/// same assembly, and waits as long as the far end, or as long as `fallback`
/// where that waits for ever.
pub proof fn law_the_near_end_is_on_this_machine(transport: TransportView, fallback: Duration)
    ensures
        ({
            let near = transport.near_end(fallback);
            &&& near.bind == "127.0.0.1:0"@
            &&& near.instance == transport.instance
            &&& transport.timeout matches Some(timeout) ==> near.timeout == Some(timeout)
            &&& transport.timeout is None ==> near.timeout == Some(fallback)
        }),
{
}

/// What names an outcome is the same: the address and the instance, or the
/// path that is refused; never the one for the other.
pub proof fn law_what_is_named_is_the_outcome(outcome: Result<(String, u8), Error>, named: Named)
    requires
        names(outcome, named),
    ensures
        outcome matches Ok((address, instance)) ==> named == Named::Instance(address@, instance),
        outcome matches Err(error) ==> error matches Error::NotAnInstance(path) && named
            == Named::Refused(path@),
{
}

} // verus!
