//! Streams that are the data of an `EtherNet/IP` assembly. One assembly
//! instance's data attribute is one Stream: reading it is a
//! `Get_Attribute_Single`, writing it a `Set_Attribute_Single`, each one
//! explicit message in a `SendRRData` on a registered session.
//!
//! `EtherNet/IP` is CIP, the objects that `DeviceNet` and `ControlNet` carry
//! too, encapsulated on TCP port 44818 for explicit messages. Here are the
//! encapsulation and its common packet format ([`encapsulation`]), the
//! explicit message and reply ([`cip`]), a [`Scanner`] that speaks them, and
//! [`Adapter`], one session's worth of adapter holding assemblies as byte
//! vectors. Nothing here touches a socket: both sides work on bytes, one
//! packet at a time or on a whole stream of them.
//!
//! The origin URI names the adapter and the assembly:
//! `enip://host:44818/assembly/100`. A target is `enip://host:44818/100`
//! for another instance, or `host:port` for the configured one.
use vstd::prelude::*;

pub mod adapter;
pub mod cip;
pub mod encapsulation;
pub mod error;
pub mod promises;
pub mod scanner;
pub mod session;
pub mod text;
pub mod transport;
pub mod wire;

pub use crate::adapter::Adapter;
pub use crate::cip::Path;
pub use crate::cip::Reply;
pub use crate::cip::Request;
pub use crate::encapsulation::Packet;
pub use crate::error::Error;
pub use crate::scanner::Scanner;
pub use crate::transport::Arrived;
pub use crate::transport::EtherNetIpTransport;

use crate::cip::REQUEST_OVERHEAD;
use crate::encapsulation::RR_OVERHEAD;

verus! {

/// The largest Stream one set carries: what the sixteen-bit encapsulation
/// length names, less the `SendRRData` items and the request's service and
/// path. One attribute is set in one message; the protocol has no segments.
pub const CEILING: usize = 65_535 - RR_OVERHEAD - REQUEST_OVERHEAD;

} // verus!
