//! Internet Control Message Protocol version 4 packets.

use vstd::prelude::*;
use crate::buf::{be16, put_be16, splice, Bytes, BytesMut, BytesSliceMut, Ref, read_u16_at};
use crate::checksum::{complement, ones_sum, sums_to_ones, lemma_fill_then_verify};
use crate::error::{Error, Result};
use crate::ipv4::{Packet as Ipv4Packet, Repr as Ipv4Repr, Address as Ipv4Address};
use crate::ipv4::{header_len_of, len_ok as ipv4_len_ok};
use crate::ip::IpProtocol;
use crate::phy::ChecksumCapabilities;

verus! {

/// Internet protocol control message type.
#[derive(Debug, Clone, Copy, PartialEq, Eq, PartialOrd, Ord, Hash, Structural)]
pub enum Message {
    /// Echo reply.
    EchoReply,
    /// Destination unreachable.
    DstUnreachable,
    /// Message redirect.
    Redirect,
    /// Echo request.
    EchoRequest,
    /// Router advertisement.
    RouterAdvert,
    /// Router solicitation.
    RouterSolicit,
    /// Time exceeded.
    TimeExceeded,
    /// Parameter problem.
    ParamProblem,
    /// Timestamp.
    Timestamp,
    /// Timestamp reply.
    TimestampReply,
    /// A value with no name of its own.
    Unknown(u8),
}

impl Message {
    /// The Message that a raw value denotes.
    pub open spec fn from_raw(v: u8) -> Message {
        if v == 0 {
            Message::EchoReply
        } else if v == 3 {
            Message::DstUnreachable
        } else if v == 5 {
            Message::Redirect
        } else if v == 8 {
            Message::EchoRequest
        } else if v == 9 {
            Message::RouterAdvert
        } else if v == 10 {
            Message::RouterSolicit
        } else if v == 11 {
            Message::TimeExceeded
        } else if v == 12 {
            Message::ParamProblem
        } else if v == 13 {
            Message::Timestamp
        } else if v == 14 {
            Message::TimestampReply
        } else {
            Message::Unknown(v)
        }
    }

    /// The raw value of a Message.
    pub open spec fn raw(self) -> u8 {
        match self {
            Message::EchoReply => 0,
            Message::DstUnreachable => 3,
            Message::Redirect => 5,
            Message::EchoRequest => 8,
            Message::RouterAdvert => 9,
            Message::RouterSolicit => 10,
            Message::TimeExceeded => 11,
            Message::ParamProblem => 12,
            Message::Timestamp => 13,
            Message::TimestampReply => 14,
            Message::Unknown(v) => v,
        }
    }

    /// The code table of the wire format, over every code `v`: each named
    /// value is written as the code assigned to it, that code and no other
    /// reads as it, and a code with no name reads as `Unknown` of itself.
    pub proof fn lemma_codes(v: u8)
        ensures
            Message::EchoReply.raw() == 0,
            Message::DstUnreachable.raw() == 3,
            Message::Redirect.raw() == 5,
            Message::EchoRequest.raw() == 8,
            Message::RouterAdvert.raw() == 9,
            Message::RouterSolicit.raw() == 10,
            Message::TimeExceeded.raw() == 11,
            Message::ParamProblem.raw() == 12,
            Message::Timestamp.raw() == 13,
            Message::TimestampReply.raw() == 14,
            (Message::from_raw(v) == Message::EchoReply) <==> v == 0,
            (Message::from_raw(v) == Message::DstUnreachable) <==> v == 3,
            (Message::from_raw(v) == Message::Redirect) <==> v == 5,
            (Message::from_raw(v) == Message::EchoRequest) <==> v == 8,
            (Message::from_raw(v) == Message::RouterAdvert) <==> v == 9,
            (Message::from_raw(v) == Message::RouterSolicit) <==> v == 10,
            (Message::from_raw(v) == Message::TimeExceeded) <==> v == 11,
            (Message::from_raw(v) == Message::ParamProblem) <==> v == 12,
            (Message::from_raw(v) == Message::Timestamp) <==> v == 13,
            (Message::from_raw(v) == Message::TimestampReply) <==> v == 14,
            v != 0 && v != 3 && v != 5 && v != 8 && v != 9 && v != 10 && v != 11 && v != 12 && v != 13 && v != 14 ==> Message::from_raw(v) == Message::Unknown(v),
    {
    }

    /// A value is canonical when it is what its own raw value denotes; only an
    /// `Unknown` that carries a named value is not.
    pub open spec fn is_canonical(self) -> bool {
        Message::from_raw(self.raw()) == self
    }

    /// Reading back the raw value of what a raw value denotes gives that value.
    pub proof fn lemma_raw_from_raw(v: u8)
        ensures
            Message::from_raw(v).raw() == v,
            Message::from_raw(v).is_canonical(),
    {
    }
}

impl From<u8> for Message {
    fn from(v: u8) -> (r: Message) {
        match v {
            0 => Message::EchoReply,
            3 => Message::DstUnreachable,
            5 => Message::Redirect,
            8 => Message::EchoRequest,
            9 => Message::RouterAdvert,
            10 => Message::RouterSolicit,
            11 => Message::TimeExceeded,
            12 => Message::ParamProblem,
            13 => Message::Timestamp,
            14 => Message::TimestampReply,
            _ => Message::Unknown(v),
        }
    }
}

impl vstd::std_specs::convert::FromSpecImpl<u8> for Message {
    open spec fn obeys_from_spec() -> bool {
        true
    }

    open spec fn from_spec(v: u8) -> Message {
        Message::from_raw(v)
    }
}

impl From<Message> for u8 {
    fn from(v: Message) -> (r: u8) {
        match v {
            Message::EchoReply => 0,
            Message::DstUnreachable => 3,
            Message::Redirect => 5,
            Message::EchoRequest => 8,
            Message::RouterAdvert => 9,
            Message::RouterSolicit => 10,
            Message::TimeExceeded => 11,
            Message::ParamProblem => 12,
            Message::Timestamp => 13,
            Message::TimestampReply => 14,
            Message::Unknown(x) => x,
        }
    }
}

impl vstd::std_specs::convert::FromSpecImpl<Message> for u8 {
    open spec fn obeys_from_spec() -> bool {
        true
    }

    open spec fn from_spec(v: Message) -> u8 {
        v.raw()
    }
}

/// Internet protocol control message subtype for type "Destination Unreachable".
#[derive(Debug, Clone, Copy, PartialEq, Eq, PartialOrd, Ord, Hash, Structural)]
pub enum DstUnreachable {
    /// Destination network unreachable.
    NetUnreachable,
    /// Destination host unreachable.
    HostUnreachable,
    /// Destination protocol unreachable.
    ProtoUnreachable,
    /// Destination port unreachable.
    PortUnreachable,
    /// Fragmentation required, and DF flag set.
    FragRequired,
    /// Source route failed.
    SrcRouteFailed,
    /// Destination network unknown.
    DstNetUnknown,
    /// Destination host unknown.
    DstHostUnknown,
    /// Source host isolated.
    SrcHostIsolated,
    /// Network administratively prohibited.
    NetProhibited,
    /// Host administratively prohibited.
    HostProhibited,
    /// Network unreachable for ToS.
    NetUnreachToS,
    /// Host unreachable for ToS.
    HostUnreachToS,
    /// Communication administratively prohibited.
    CommProhibited,
    /// Host precedence violation.
    HostPrecedViol,
    /// Precedence cutoff in effect.
    PrecedCutoff,
    /// A value with no name of its own.
    Unknown(u8),
}

impl DstUnreachable {
    /// The DstUnreachable that a raw value denotes.
    pub open spec fn from_raw(v: u8) -> DstUnreachable {
        if v == 0 {
            DstUnreachable::NetUnreachable
        } else if v == 1 {
            DstUnreachable::HostUnreachable
        } else if v == 2 {
            DstUnreachable::ProtoUnreachable
        } else if v == 3 {
            DstUnreachable::PortUnreachable
        } else if v == 4 {
            DstUnreachable::FragRequired
        } else if v == 5 {
            DstUnreachable::SrcRouteFailed
        } else if v == 6 {
            DstUnreachable::DstNetUnknown
        } else if v == 7 {
            DstUnreachable::DstHostUnknown
        } else if v == 8 {
            DstUnreachable::SrcHostIsolated
        } else if v == 9 {
            DstUnreachable::NetProhibited
        } else if v == 10 {
            DstUnreachable::HostProhibited
        } else if v == 11 {
            DstUnreachable::NetUnreachToS
        } else if v == 12 {
            DstUnreachable::HostUnreachToS
        } else if v == 13 {
            DstUnreachable::CommProhibited
        } else if v == 14 {
            DstUnreachable::HostPrecedViol
        } else if v == 15 {
            DstUnreachable::PrecedCutoff
        } else {
            DstUnreachable::Unknown(v)
        }
    }

    /// The raw value of a DstUnreachable.
    pub open spec fn raw(self) -> u8 {
        match self {
            DstUnreachable::NetUnreachable => 0,
            DstUnreachable::HostUnreachable => 1,
            DstUnreachable::ProtoUnreachable => 2,
            DstUnreachable::PortUnreachable => 3,
            DstUnreachable::FragRequired => 4,
            DstUnreachable::SrcRouteFailed => 5,
            DstUnreachable::DstNetUnknown => 6,
            DstUnreachable::DstHostUnknown => 7,
            DstUnreachable::SrcHostIsolated => 8,
            DstUnreachable::NetProhibited => 9,
            DstUnreachable::HostProhibited => 10,
            DstUnreachable::NetUnreachToS => 11,
            DstUnreachable::HostUnreachToS => 12,
            DstUnreachable::CommProhibited => 13,
            DstUnreachable::HostPrecedViol => 14,
            DstUnreachable::PrecedCutoff => 15,
            DstUnreachable::Unknown(v) => v,
        }
    }

    /// The code table of the wire format, over every code `v`: each named
    /// value is written as the code assigned to it, that code and no other
    /// reads as it, and a code with no name reads as `Unknown` of itself.
    pub proof fn lemma_codes(v: u8)
        ensures
            DstUnreachable::NetUnreachable.raw() == 0,
            DstUnreachable::HostUnreachable.raw() == 1,
            DstUnreachable::ProtoUnreachable.raw() == 2,
            DstUnreachable::PortUnreachable.raw() == 3,
            DstUnreachable::FragRequired.raw() == 4,
            DstUnreachable::SrcRouteFailed.raw() == 5,
            DstUnreachable::DstNetUnknown.raw() == 6,
            DstUnreachable::DstHostUnknown.raw() == 7,
            DstUnreachable::SrcHostIsolated.raw() == 8,
            DstUnreachable::NetProhibited.raw() == 9,
            DstUnreachable::HostProhibited.raw() == 10,
            DstUnreachable::NetUnreachToS.raw() == 11,
            DstUnreachable::HostUnreachToS.raw() == 12,
            DstUnreachable::CommProhibited.raw() == 13,
            DstUnreachable::HostPrecedViol.raw() == 14,
            DstUnreachable::PrecedCutoff.raw() == 15,
            (DstUnreachable::from_raw(v) == DstUnreachable::NetUnreachable) <==> v == 0,
            (DstUnreachable::from_raw(v) == DstUnreachable::HostUnreachable) <==> v == 1,
            (DstUnreachable::from_raw(v) == DstUnreachable::ProtoUnreachable) <==> v == 2,
            (DstUnreachable::from_raw(v) == DstUnreachable::PortUnreachable) <==> v == 3,
            (DstUnreachable::from_raw(v) == DstUnreachable::FragRequired) <==> v == 4,
            (DstUnreachable::from_raw(v) == DstUnreachable::SrcRouteFailed) <==> v == 5,
            (DstUnreachable::from_raw(v) == DstUnreachable::DstNetUnknown) <==> v == 6,
            (DstUnreachable::from_raw(v) == DstUnreachable::DstHostUnknown) <==> v == 7,
            (DstUnreachable::from_raw(v) == DstUnreachable::SrcHostIsolated) <==> v == 8,
            (DstUnreachable::from_raw(v) == DstUnreachable::NetProhibited) <==> v == 9,
            (DstUnreachable::from_raw(v) == DstUnreachable::HostProhibited) <==> v == 10,
            (DstUnreachable::from_raw(v) == DstUnreachable::NetUnreachToS) <==> v == 11,
            (DstUnreachable::from_raw(v) == DstUnreachable::HostUnreachToS) <==> v == 12,
            (DstUnreachable::from_raw(v) == DstUnreachable::CommProhibited) <==> v == 13,
            (DstUnreachable::from_raw(v) == DstUnreachable::HostPrecedViol) <==> v == 14,
            (DstUnreachable::from_raw(v) == DstUnreachable::PrecedCutoff) <==> v == 15,
            v != 0 && v != 1 && v != 2 && v != 3 && v != 4 && v != 5 && v != 6 && v != 7 && v != 8 && v != 9 && v != 10 && v != 11 && v != 12 && v != 13 && v != 14 && v != 15 ==> DstUnreachable::from_raw(v) == DstUnreachable::Unknown(v),
    {
    }

    /// A value is canonical when it is what its own raw value denotes; only an
    /// `Unknown` that carries a named value is not.
    pub open spec fn is_canonical(self) -> bool {
        DstUnreachable::from_raw(self.raw()) == self
    }

    /// Reading back the raw value of what a raw value denotes gives that value.
    pub proof fn lemma_raw_from_raw(v: u8)
        ensures
            DstUnreachable::from_raw(v).raw() == v,
            DstUnreachable::from_raw(v).is_canonical(),
    {
    }
}

impl From<u8> for DstUnreachable {
    fn from(v: u8) -> (r: DstUnreachable) {
        match v {
            0 => DstUnreachable::NetUnreachable,
            1 => DstUnreachable::HostUnreachable,
            2 => DstUnreachable::ProtoUnreachable,
            3 => DstUnreachable::PortUnreachable,
            4 => DstUnreachable::FragRequired,
            5 => DstUnreachable::SrcRouteFailed,
            6 => DstUnreachable::DstNetUnknown,
            7 => DstUnreachable::DstHostUnknown,
            8 => DstUnreachable::SrcHostIsolated,
            9 => DstUnreachable::NetProhibited,
            10 => DstUnreachable::HostProhibited,
            11 => DstUnreachable::NetUnreachToS,
            12 => DstUnreachable::HostUnreachToS,
            13 => DstUnreachable::CommProhibited,
            14 => DstUnreachable::HostPrecedViol,
            15 => DstUnreachable::PrecedCutoff,
            _ => DstUnreachable::Unknown(v),
        }
    }
}

impl vstd::std_specs::convert::FromSpecImpl<u8> for DstUnreachable {
    open spec fn obeys_from_spec() -> bool {
        true
    }

    open spec fn from_spec(v: u8) -> DstUnreachable {
        DstUnreachable::from_raw(v)
    }
}

impl From<DstUnreachable> for u8 {
    fn from(v: DstUnreachable) -> (r: u8) {
        match v {
            DstUnreachable::NetUnreachable => 0,
            DstUnreachable::HostUnreachable => 1,
            DstUnreachable::ProtoUnreachable => 2,
            DstUnreachable::PortUnreachable => 3,
            DstUnreachable::FragRequired => 4,
            DstUnreachable::SrcRouteFailed => 5,
            DstUnreachable::DstNetUnknown => 6,
            DstUnreachable::DstHostUnknown => 7,
            DstUnreachable::SrcHostIsolated => 8,
            DstUnreachable::NetProhibited => 9,
            DstUnreachable::HostProhibited => 10,
            DstUnreachable::NetUnreachToS => 11,
            DstUnreachable::HostUnreachToS => 12,
            DstUnreachable::CommProhibited => 13,
            DstUnreachable::HostPrecedViol => 14,
            DstUnreachable::PrecedCutoff => 15,
            DstUnreachable::Unknown(x) => x,
        }
    }
}

impl vstd::std_specs::convert::FromSpecImpl<DstUnreachable> for u8 {
    open spec fn obeys_from_spec() -> bool {
        true
    }

    open spec fn from_spec(v: DstUnreachable) -> u8 {
        v.raw()
    }
}

/// Internet protocol control message subtype for type "Redirect Message".
#[derive(Debug, Clone, Copy, PartialEq, Eq, PartialOrd, Ord, Hash, Structural)]
pub enum Redirect {
    /// Redirect Datagram for the Network.
    Net,
    /// Redirect Datagram for the Host.
    Host,
    /// Redirect Datagram for the ToS & network.
    NetToS,
    /// Redirect Datagram for the ToS & host.
    HostToS,
    /// A value with no name of its own.
    Unknown(u8),
}

impl Redirect {
    /// The Redirect that a raw value denotes.
    pub open spec fn from_raw(v: u8) -> Redirect {
        if v == 0 {
            Redirect::Net
        } else if v == 1 {
            Redirect::Host
        } else if v == 2 {
            Redirect::NetToS
        } else if v == 3 {
            Redirect::HostToS
        } else {
            Redirect::Unknown(v)
        }
    }

    /// The raw value of a Redirect.
    pub open spec fn raw(self) -> u8 {
        match self {
            Redirect::Net => 0,
            Redirect::Host => 1,
            Redirect::NetToS => 2,
            Redirect::HostToS => 3,
            Redirect::Unknown(v) => v,
        }
    }

    /// The code table of the wire format, over every code `v`: each named
    /// value is written as the code assigned to it, that code and no other
    /// reads as it, and a code with no name reads as `Unknown` of itself.
    pub proof fn lemma_codes(v: u8)
        ensures
            Redirect::Net.raw() == 0,
            Redirect::Host.raw() == 1,
            Redirect::NetToS.raw() == 2,
            Redirect::HostToS.raw() == 3,
            (Redirect::from_raw(v) == Redirect::Net) <==> v == 0,
            (Redirect::from_raw(v) == Redirect::Host) <==> v == 1,
            (Redirect::from_raw(v) == Redirect::NetToS) <==> v == 2,
            (Redirect::from_raw(v) == Redirect::HostToS) <==> v == 3,
            v != 0 && v != 1 && v != 2 && v != 3 ==> Redirect::from_raw(v) == Redirect::Unknown(v),
    {
    }

    /// A value is canonical when it is what its own raw value denotes; only an
    /// `Unknown` that carries a named value is not.
    pub open spec fn is_canonical(self) -> bool {
        Redirect::from_raw(self.raw()) == self
    }

    /// Reading back the raw value of what a raw value denotes gives that value.
    pub proof fn lemma_raw_from_raw(v: u8)
        ensures
            Redirect::from_raw(v).raw() == v,
            Redirect::from_raw(v).is_canonical(),
    {
    }
}

impl From<u8> for Redirect {
    fn from(v: u8) -> (r: Redirect) {
        match v {
            0 => Redirect::Net,
            1 => Redirect::Host,
            2 => Redirect::NetToS,
            3 => Redirect::HostToS,
            _ => Redirect::Unknown(v),
        }
    }
}

impl vstd::std_specs::convert::FromSpecImpl<u8> for Redirect {
    open spec fn obeys_from_spec() -> bool {
        true
    }

    open spec fn from_spec(v: u8) -> Redirect {
        Redirect::from_raw(v)
    }
}

impl From<Redirect> for u8 {
    fn from(v: Redirect) -> (r: u8) {
        match v {
            Redirect::Net => 0,
            Redirect::Host => 1,
            Redirect::NetToS => 2,
            Redirect::HostToS => 3,
            Redirect::Unknown(x) => x,
        }
    }
}

impl vstd::std_specs::convert::FromSpecImpl<Redirect> for u8 {
    open spec fn obeys_from_spec() -> bool {
        true
    }

    open spec fn from_spec(v: Redirect) -> u8 {
        v.raw()
    }
}

/// Internet protocol control message subtype for type "Time Exceeded".
#[derive(Debug, Clone, Copy, PartialEq, Eq, PartialOrd, Ord, Hash, Structural)]
pub enum TimeExceeded {
    /// TTL expired in transit.
    TtlExpired,
    /// Fragment reassembly time exceeded.
    FragExpired,
    /// A value with no name of its own.
    Unknown(u8),
}

impl TimeExceeded {
    /// The TimeExceeded that a raw value denotes.
    pub open spec fn from_raw(v: u8) -> TimeExceeded {
        if v == 0 {
            TimeExceeded::TtlExpired
        } else if v == 1 {
            TimeExceeded::FragExpired
        } else {
            TimeExceeded::Unknown(v)
        }
    }

    /// The raw value of a TimeExceeded.
    pub open spec fn raw(self) -> u8 {
        match self {
            TimeExceeded::TtlExpired => 0,
            TimeExceeded::FragExpired => 1,
            TimeExceeded::Unknown(v) => v,
        }
    }

    /// The code table of the wire format, over every code `v`: each named
    /// value is written as the code assigned to it, that code and no other
    /// reads as it, and a code with no name reads as `Unknown` of itself.
    pub proof fn lemma_codes(v: u8)
        ensures
            TimeExceeded::TtlExpired.raw() == 0,
            TimeExceeded::FragExpired.raw() == 1,
            (TimeExceeded::from_raw(v) == TimeExceeded::TtlExpired) <==> v == 0,
            (TimeExceeded::from_raw(v) == TimeExceeded::FragExpired) <==> v == 1,
            v != 0 && v != 1 ==> TimeExceeded::from_raw(v) == TimeExceeded::Unknown(v),
    {
    }

    /// A value is canonical when it is what its own raw value denotes; only an
    /// `Unknown` that carries a named value is not.
    pub open spec fn is_canonical(self) -> bool {
        TimeExceeded::from_raw(self.raw()) == self
    }

    /// Reading back the raw value of what a raw value denotes gives that value.
    pub proof fn lemma_raw_from_raw(v: u8)
        ensures
            TimeExceeded::from_raw(v).raw() == v,
            TimeExceeded::from_raw(v).is_canonical(),
    {
    }
}

impl From<u8> for TimeExceeded {
    fn from(v: u8) -> (r: TimeExceeded) {
        match v {
            0 => TimeExceeded::TtlExpired,
            1 => TimeExceeded::FragExpired,
            _ => TimeExceeded::Unknown(v),
        }
    }
}

impl vstd::std_specs::convert::FromSpecImpl<u8> for TimeExceeded {
    open spec fn obeys_from_spec() -> bool {
        true
    }

    open spec fn from_spec(v: u8) -> TimeExceeded {
        TimeExceeded::from_raw(v)
    }
}

impl From<TimeExceeded> for u8 {
    fn from(v: TimeExceeded) -> (r: u8) {
        match v {
            TimeExceeded::TtlExpired => 0,
            TimeExceeded::FragExpired => 1,
            TimeExceeded::Unknown(x) => x,
        }
    }
}

impl vstd::std_specs::convert::FromSpecImpl<TimeExceeded> for u8 {
    open spec fn obeys_from_spec() -> bool {
        true
    }

    open spec fn from_spec(v: TimeExceeded) -> u8 {
        v.raw()
    }
}

/// Internet protocol control message subtype for type "Parameter Problem".
#[derive(Debug, Clone, Copy, PartialEq, Eq, PartialOrd, Ord, Hash, Structural)]
pub enum ParamProblem {
    /// Pointer indicates the error.
    AtPointer,
    /// Missing a required option.
    MissingOption,
    /// Bad length.
    BadLength,
    /// A value with no name of its own.
    Unknown(u8),
}

impl ParamProblem {
    /// The ParamProblem that a raw value denotes.
    pub open spec fn from_raw(v: u8) -> ParamProblem {
        if v == 0 {
            ParamProblem::AtPointer
        } else if v == 1 {
            ParamProblem::MissingOption
        } else if v == 2 {
            ParamProblem::BadLength
        } else {
            ParamProblem::Unknown(v)
        }
    }

    /// The raw value of a ParamProblem.
    pub open spec fn raw(self) -> u8 {
        match self {
            ParamProblem::AtPointer => 0,
            ParamProblem::MissingOption => 1,
            ParamProblem::BadLength => 2,
            ParamProblem::Unknown(v) => v,
        }
    }

    /// The code table of the wire format, over every code `v`: each named
    /// value is written as the code assigned to it, that code and no other
    /// reads as it, and a code with no name reads as `Unknown` of itself.
    pub proof fn lemma_codes(v: u8)
        ensures
            ParamProblem::AtPointer.raw() == 0,
            ParamProblem::MissingOption.raw() == 1,
            ParamProblem::BadLength.raw() == 2,
            (ParamProblem::from_raw(v) == ParamProblem::AtPointer) <==> v == 0,
            (ParamProblem::from_raw(v) == ParamProblem::MissingOption) <==> v == 1,
            (ParamProblem::from_raw(v) == ParamProblem::BadLength) <==> v == 2,
            v != 0 && v != 1 && v != 2 ==> ParamProblem::from_raw(v) == ParamProblem::Unknown(v),
    {
    }

    /// A value is canonical when it is what its own raw value denotes; only an
    /// `Unknown` that carries a named value is not.
    pub open spec fn is_canonical(self) -> bool {
        ParamProblem::from_raw(self.raw()) == self
    }

    /// Reading back the raw value of what a raw value denotes gives that value.
    pub proof fn lemma_raw_from_raw(v: u8)
        ensures
            ParamProblem::from_raw(v).raw() == v,
            ParamProblem::from_raw(v).is_canonical(),
    {
    }
}

impl From<u8> for ParamProblem {
    fn from(v: u8) -> (r: ParamProblem) {
        match v {
            0 => ParamProblem::AtPointer,
            1 => ParamProblem::MissingOption,
            2 => ParamProblem::BadLength,
            _ => ParamProblem::Unknown(v),
        }
    }
}

impl vstd::std_specs::convert::FromSpecImpl<u8> for ParamProblem {
    open spec fn obeys_from_spec() -> bool {
        true
    }

    open spec fn from_spec(v: u8) -> ParamProblem {
        ParamProblem::from_raw(v)
    }
}

impl From<ParamProblem> for u8 {
    fn from(v: ParamProblem) -> (r: u8) {
        match v {
            ParamProblem::AtPointer => 0,
            ParamProblem::MissingOption => 1,
            ParamProblem::BadLength => 2,
            ParamProblem::Unknown(x) => x,
        }
    }
}

impl vstd::std_specs::convert::FromSpecImpl<ParamProblem> for u8 {
    open spec fn obeys_from_spec() -> bool {
        true
    }

    open spec fn from_spec(v: ParamProblem) -> u8 {
        v.raw()
    }
}

/// The length of the fixed ICMPv4 header.
pub const HEADER_LEN: usize = 8;

/// A read/write wrapper around an Internet Control Message Protocol version 4
/// packet buffer.
#[derive(Debug, PartialEq, Eq, Clone)]
pub struct Packet<T> {
    buffer: T,
}

impl<T> Packet<T> {
    /// The buffer underneath.
    pub closed spec fn inner(&self) -> T {
        self.buffer
    }

    /// Imbue a raw octet buffer with ICMPv4 packet structure.
    pub fn new_unchecked(buffer: T) -> (r: Packet<T>)
        ensures
            r.inner() == buffer,
    {
        Packet { buffer }
    }

    /// Consume the packet, returning the underlying buffer.
    pub fn into_inner(self) -> (r: T)
        ensures
            r == self.inner(),
    {
        self.buffer
    }
}

impl<T: Bytes> AsRef<[u8]> for Packet<T> {
    /// The octets of the packet.
    fn as_ref(&self) -> (r: &[u8])
        ensures
            r@ == self.data_spec(),
    {
        self.buffer.as_bytes()
    }
}

impl<T: Bytes> Packet<T> {
    /// The octets of the packet.
    pub open spec fn data_spec(&self) -> Seq<u8> {
        self.inner().bytes()
    }

    /// Shorthand for a combination of [`Packet::new_unchecked`] and [`Packet::check_len`].
    pub fn new_checked(buffer: T) -> (r: Result<Packet<T>>)
        ensures
            r is Ok <==> buffer.bytes().len() >= HEADER_LEN,
            r matches Ok(p) ==> p.inner() == buffer,
    {
        let packet = Self::new_unchecked(buffer);
        match packet.check_len() {
            Ok(()) => Ok(packet),
            Err(e) => Err(e),
        }
    }

    /// Ensure that no accessor method will panic if called.
    /// Returns `Err(Error)` if the buffer is too short.
    pub fn check_len(&self) -> (r: Result<()>)
        ensures
            r is Ok <==> self.data_spec().len() >= HEADER_LEN,
    {
        match self.checked_len() {
            Ok(_) => Ok(()),
            Err(e) => Err(e),
        }
    }

    /// The buffer's length, when it passes [`Packet::check_len`].
    fn checked_len(&self) -> (r: Result<usize>)
        ensures
            r is Ok <==> self.data_spec().len() >= HEADER_LEN,
            r matches Ok(n) ==> n == self.data_spec().len(),
    {
        let len = self.buffer.byte_len();
        if len < HEADER_LEN {
            Err(Error)
        } else {
            Ok(len)
        }
    }

    /// Return the message type field.
    pub fn msg_type(&self) -> (r: Message)
        requires
            self.data_spec().len() >= 1,
        ensures
            r == Message::from_raw(self.data_spec()[0]),
    {
        Message::from(self.buffer.as_bytes()[0])
    }

    /// Return the message code field.
    pub fn msg_code(&self) -> (r: u8)
        requires
            self.data_spec().len() >= 2,
        ensures
            r == self.data_spec()[1],
    {
        self.buffer.as_bytes()[1]
    }

    /// Return the checksum field.
    pub fn checksum(&self) -> (r: u16)
        requires
            self.data_spec().len() >= 4,
        ensures
            r == be16(self.data_spec(), 2),
    {
        read_u16_at(self.buffer.as_bytes(), 2)
    }

    /// Return the identifier field (for echo request and reply packets).
    pub fn echo_ident(&self) -> (r: u16)
        requires
            self.data_spec().len() >= 6,
        ensures
            r == be16(self.data_spec(), 4),
    {
        read_u16_at(self.buffer.as_bytes(), 4)
    }

    /// Return the sequence number field (for echo request and reply packets).
    pub fn echo_seq_no(&self) -> (r: u16)
        requires
            self.data_spec().len() >= 8,
        ensures
            r == be16(self.data_spec(), 6),
    {
        read_u16_at(self.buffer.as_bytes(), 6)
    }

    /// Return the header length: eight octets for every message type.
    pub fn header_len(&self) -> (r: usize)
        requires
            self.data_spec().len() >= 1,
        ensures
            r == HEADER_LEN,
    {
        match self.msg_type() {
            Message::EchoRequest => 8,
            Message::EchoReply => 8,
            Message::DstUnreachable => 8,
            _ => 8,
        }
    }

    /// Validate the packet checksum.
    pub fn verify_checksum(&self) -> (r: bool)
        ensures
            r == sums_to_ones(self.data_spec()),
    {
        crate::checksum::data(self.buffer.as_bytes()) == 0xffff
    }
}

impl<T: BytesMut> Packet<T> {
    /// Set the message type field.
    pub fn set_msg_type(&mut self, value: Message)
        requires
            old(self).data_spec().len() >= 1,
        ensures
            final(self).data_spec() == old(self).data_spec().update(0, value.raw()),
    {
        self.buffer.set_byte(0, value.into());
    }

    /// Set the message code field.
    pub fn set_msg_code(&mut self, value: u8)
        requires
            old(self).data_spec().len() >= 2,
        ensures
            final(self).data_spec() == old(self).data_spec().update(1, value),
    {
        self.buffer.set_byte(1, value);
    }

    /// Set the checksum field.
    pub fn set_checksum(&mut self, value: u16)
        requires
            old(self).data_spec().len() >= 4,
        ensures
            final(self).data_spec() == put_be16(old(self).data_spec(), 2, value),
    {
        self.buffer.set_u16(2, value);
    }

    /// Set the identifier field (for echo request and reply packets).
    pub fn set_echo_ident(&mut self, value: u16)
        requires
            old(self).data_spec().len() >= 6,
        ensures
            final(self).data_spec() == put_be16(old(self).data_spec(), 4, value),
    {
        self.buffer.set_u16(4, value);
    }

    /// Set the sequence number field (for echo request and reply packets).
    pub fn set_echo_seq_no(&mut self, value: u16)
        requires
            old(self).data_spec().len() >= 8,
        ensures
            final(self).data_spec() == put_be16(old(self).data_spec(), 6, value),
    {
        self.buffer.set_u16(6, value);
    }

    /// Compute and fill in the checksum over the whole packet.
    pub fn fill_checksum(&mut self)
        requires
            old(self).data_spec().len() >= 4,
        ensures
            final(self).data_spec() == put_be16(
                put_be16(old(self).data_spec(), 2, 0),
                2,
                complement(ones_sum(put_be16(old(self).data_spec(), 2, 0))),
            ),
            sums_to_ones(final(self).data_spec()),
    {
        self.set_checksum(0);
        let checksum = 0xffff - crate::checksum::data(self.buffer.as_bytes());
        self.set_checksum(checksum);
        proof {
            lemma_fill_then_verify(old(self).data_spec(), 2);
        }
    }
}

impl<T: BytesSliceMut> Packet<T> {
    /// Return a mutable pointer to the type-specific data.
    pub fn data_mut(&mut self) -> (r: &mut [u8])
        requires
            old(self).data_spec().len() >= HEADER_LEN,
        ensures
            r@ == old(self).data_spec().subrange(8, old(self).data_spec().len() as int),
            final(self).data_spec() == old(self).data_spec().subrange(0, 8) + final(r)@,
    {
        let data = self.buffer.as_bytes_mut();
        let (_header, payload) = data.split_at_mut(HEADER_LEN);
        payload
    }
}

impl<'a> Packet<Ref<'a>> {
    /// [`Packet::new_checked`] over a [`Ref`].
    pub fn new_checked_ref(buffer: Ref<'a>) -> (r: Result<Packet<Ref<'a>>>)
        ensures
            r is Ok <==> buffer.view_bytes().len() >= HEADER_LEN,
            r matches Ok(p) ==> p.inner() == buffer,
    {
        let packet = Packet::new_unchecked(buffer);
        match packet.checked_len() {
            Ok(_) => Ok(packet),
            Err(e) => Err(e),
        }
    }

    /// Return the type-specific data, with the buffer's lifetime.
    pub fn data(&self) -> (r: &'a [u8])
        requires
            self.data_spec().len() >= HEADER_LEN,
        ensures
            r@ == self.data_spec().subrange(8, self.data_spec().len() as int),
    {
        let len = self.buffer.as_bytes().len();
        self.buffer.window(self.header_len(), len)
    }
}

/// The octets after the fixed header.
pub open spec fn after_header(s: Seq<u8>) -> Seq<u8> {
    s.subrange(8, s.len() as int)
}

/// The datagram carried back by an error message is well formed: an IPv4
/// header that checks out, followed by at least eight octets.
pub open spec fn returned_ok(d: Seq<u8>) -> bool {
    d.len() >= 20 && ipv4_len_ok(d) && d.len() - header_len_of(d) >= 8
}

/// The header of the datagram carried back by an error message; its payload
/// length counts every octet after the header.
pub open spec fn returned_header(d: Seq<u8>) -> Ipv4Repr {
    Ipv4Repr {
        src_addr: Ipv4Address::from_seq(d.subrange(12, 16)),
        dst_addr: Ipv4Address::from_seq(d.subrange(16, 20)),
        next_header: IpProtocol::from_raw(d[9]),
        payload_len: (d.len() - header_len_of(d)) as usize,
        hop_limit: d[8],
    }
}

/// The octets of the datagram carried back by an error message that follow
/// its header.
pub open spec fn returned_data(d: Seq<u8>) -> Seq<u8> {
    d.subrange(header_len_of(d) as int, d.len() as int)
}

/// Split the datagram carried back by an error message into its header and
/// what follows the header.
fn returned_datagram<'a>(data: Ref<'a>) -> (r: Result<(Ipv4Repr, &'a [u8])>)
    ensures
        r is Ok <==> returned_ok(data.view_bytes()),
        r matches Ok((h, p)) ==> h == returned_header(data.view_bytes()) && p@ == returned_data(
            data.view_bytes(),
        ),
{
    let len = data.as_bytes().len();
    if len < 20 {
        return Err(Error);
    }
    let ip_packet = match Ipv4Packet::new_checked(data) {
        Ok(p) => p,
        Err(e) => return Err(e),
    };
    let header_len = ip_packet.header_len() as usize;
    if header_len > len {
        return Err(Error);
    }
    let payload = data.window(header_len, len);
    if payload.len() < 8 {
        return Err(Error);
    }
    Ok(
        (
            Ipv4Repr {
                src_addr: ip_packet.src_addr(),
                dst_addr: ip_packet.dst_addr(),
                next_header: ip_packet.next_header(),
                payload_len: payload.len(),
                hop_limit: ip_packet.hop_limit(),
            },
            payload,
        ),
    )
}

/// A high-level representation of an Internet Control Message Protocol
/// version 4 packet.
#[derive(Debug, PartialEq, Eq, Clone, Copy)]
#[non_exhaustive]
pub enum Repr<'a> {
    EchoRequest { ident: u16, seq_no: u16, data: &'a [u8] },
    EchoReply { ident: u16, seq_no: u16, data: &'a [u8] },
    DstUnreachable { reason: DstUnreachable, header: Ipv4Repr, data: &'a [u8] },
    TimeExceeded { reason: TimeExceeded, header: Ipv4Repr, data: &'a [u8] },
}

/// Parsing `s` succeeds: the header fits, the checksum verifies when asked
/// to, and the type and code name a message this representation knows.
pub open spec fn parse_ok(s: Seq<u8>, verify: bool) -> bool {
    &&& s.len() >= HEADER_LEN
    &&& verify ==> sums_to_ones(s)
    &&& {
        let d = s.subrange(8, s.len() as int);
        ||| (s[0] == 8 || s[0] == 0) && s[1] == 0
        ||| (s[0] == 3 || s[0] == 11) && returned_ok(d)
    }
}

impl<'a> Repr<'a> {
    /// This representation is what parsing `s` gives, when parsing succeeds.
    pub open spec fn parsed_from(self, s: Seq<u8>) -> bool {
        let d = s.subrange(8, s.len() as int);
        match self {
            Repr::EchoRequest { ident, seq_no, data } => s[0] == 8 && ident == be16(s, 4)
                && seq_no == be16(s, 6) && data@ == d,
            Repr::EchoReply { ident, seq_no, data } => s[0] == 0 && ident == be16(s, 4) && seq_no
                == be16(s, 6) && data@ == d,
            Repr::DstUnreachable { reason, header, data } => s[0] == 3 && reason
                == DstUnreachable::from_raw(s[1]) && header == returned_header(d) && data@
                == returned_data(d),
            Repr::TimeExceeded { reason, header, data } => s[0] == 11 && reason
                == TimeExceeded::from_raw(s[1]) && header == returned_header(d) && data@
                == returned_data(d),
        }
    }

    /// Parse an Internet Control Message Protocol version 4 packet over a
    /// byte slice and return a high-level representation.
    pub fn parse<T: Bytes + ?Sized>(
        packet: &Packet<&'a T>,
        checksum_caps: &ChecksumCapabilities,
    ) -> (r: Result<Repr<'a>>)
        ensures
            r is Ok <==> parse_ok(packet.data_spec(), checksum_caps.icmpv4.spec_rx()),
            r matches Ok(x) ==> x.parsed_from(packet.data_spec()),
    {
        let packet = Packet::new_unchecked(Ref::new(T::as_bytes(packet.buffer)));
        Repr::parse_ref(&packet, checksum_caps)
    }

    /// Parse an Internet Control Message Protocol version 4 packet over a
    /// [`Ref`] and return a high-level representation.
    pub fn parse_ref(packet: &Packet<Ref<'a>>, checksum_caps: &ChecksumCapabilities) -> (r: Result<
        Repr<'a>,
    >)
        ensures
            r is Ok <==> parse_ok(packet.data_spec(), checksum_caps.icmpv4.spec_rx()),
            r matches Ok(x) ==> x.parsed_from(packet.data_spec()),
    {
        match packet.checked_len() {
            Ok(_) => {},
            Err(e) => return Err(e),
        }
        if checksum_caps.icmpv4.rx() && !packet.verify_checksum() {
            return Err(Error);
        }
        match (packet.msg_type(), packet.msg_code()) {
            (Message::EchoRequest, 0) => Ok(
                Repr::EchoRequest {
                    ident: packet.echo_ident(),
                    seq_no: packet.echo_seq_no(),
                    data: packet.data(),
                },
            ),
            (Message::EchoReply, 0) => Ok(
                Repr::EchoReply {
                    ident: packet.echo_ident(),
                    seq_no: packet.echo_seq_no(),
                    data: packet.data(),
                },
            ),
            (Message::DstUnreachable, code) => {
                let (header, data) = match returned_datagram(Ref::new(packet.data())) {
                    Ok(x) => x,
                    Err(e) => return Err(e),
                };
                Ok(Repr::DstUnreachable { reason: DstUnreachable::from(code), header, data })
            },
            (Message::TimeExceeded, code) => {
                let (header, data) = match returned_datagram(Ref::new(packet.data())) {
                    Ok(x) => x,
                    Err(e) => return Err(e),
                };
                Ok(Repr::TimeExceeded { reason: TimeExceeded::from(code), header, data })
            },
            _ => Err(Error),
        }
    }

    /// The length of the packet this representation is emitted as.
    pub open spec fn buffer_len_spec(self) -> int {
        match self {
            Repr::EchoRequest { data, .. } => 8 + data@.len() as int,
            Repr::EchoReply { data, .. } => 8 + data@.len() as int,
            Repr::DstUnreachable { data, .. } => 8 + 20 + data@.len() as int,
            Repr::TimeExceeded { data, .. } => 8 + 20 + data@.len() as int,
        }
    }

    /// Return the length of a packet that will be emitted from this
    /// high-level representation.
    pub fn buffer_len(&self) -> (r: usize)
        requires
            self.buffer_len_spec() <= usize::MAX,
        ensures
            r == self.buffer_len_spec(),
    {
        match *self {
            Repr::EchoRequest { data, .. } => 8 + data.len(),
            Repr::EchoReply { data, .. } => 8 + data.len(),
            Repr::DstUnreachable { header, data, .. } => 8 + header.buffer_len() + data.len(),
            Repr::TimeExceeded { header, data, .. } => 8 + header.buffer_len() + data.len(),
        }
    }

    /// `s` with the message written over it, the checksum field still zero.
    pub open spec fn body_spec(self, s: Seq<u8>, ipv4_tx: bool) -> Seq<u8> {
        let w = s.subrange(8, s.len() as int);
        match self {
            Repr::EchoRequest { ident, seq_no, data } => put_be16(
                splice(put_be16(put_be16(s.update(0, 8u8).update(1, 0u8), 4, ident), 6, seq_no), 8, data@),
                2,
                0,
            ),
            Repr::EchoReply { ident, seq_no, data } => put_be16(
                splice(put_be16(put_be16(s.update(0, 0u8).update(1, 0u8), 4, ident), 6, seq_no), 8, data@),
                2,
                0,
            ),
            Repr::DstUnreachable { reason, header, data } => put_be16(
                splice(
                    s.update(0, 3u8).update(1, reason.raw()),
                    8,
                    splice(header.emit_spec(w, ipv4_tx), 20, data@),
                ),
                2,
                0,
            ),
            Repr::TimeExceeded { reason, header, data } => put_be16(
                splice(
                    s.update(0, 11u8).update(1, reason.raw()),
                    8,
                    splice(header.emit_spec(w, ipv4_tx), 20, data@),
                ),
                2,
                0,
            ),
        }
    }

    /// `s` with the message emitted over it, the checksum filled in or zero.
    pub open spec fn emit_spec(self, s: Seq<u8>, caps: ChecksumCapabilities) -> Seq<u8> {
        let z = self.body_spec(s, caps.ipv4.spec_tx());
        if caps.icmpv4.spec_tx() {
            put_be16(z, 2, complement(ones_sum(z)))
        } else {
            z
        }
    }

    /// Emit a high-level representation into an Internet Control Message
    /// Protocol version 4 packet whose length is [`Repr::buffer_len`].
    pub fn emit<T: BytesSliceMut>(&self, packet: &mut Packet<T>, checksum_caps: &ChecksumCapabilities)
        requires
            old(packet).data_spec().len() == self.buffer_len_spec(),
            self matches Repr::DstUnreachable { header, .. } ==> header.payload_len <= 65515,
            self matches Repr::TimeExceeded { header, .. } ==> header.payload_len <= 65515,
        ensures
            final(packet).data_spec() == self.emit_spec(old(packet).data_spec(), *checksum_caps),
            checksum_caps.icmpv4.spec_tx() ==> sums_to_ones(final(packet).data_spec()),
    {
        let ghost s0 = packet.data_spec();
        packet.set_msg_code(0);
        match *self {
            Repr::EchoRequest { ident, seq_no, data } => {
                packet.set_msg_type(Message::EchoRequest);
                packet.set_msg_code(0);
                packet.set_echo_ident(ident);
                packet.set_echo_seq_no(seq_no);
                Self::emit_echo_data(packet, data);
            },
            Repr::EchoReply { ident, seq_no, data } => {
                packet.set_msg_type(Message::EchoReply);
                packet.set_msg_code(0);
                packet.set_echo_ident(ident);
                packet.set_echo_seq_no(seq_no);
                Self::emit_echo_data(packet, data);
            },
            Repr::DstUnreachable { reason, header, data } => {
                packet.set_msg_type(Message::DstUnreachable);
                packet.set_msg_code(reason.into());
                assert(after_header(packet.data_spec()) =~= after_header(s0));
                Self::emit_returned(packet, &header, data, checksum_caps);
            },
            Repr::TimeExceeded { reason, header, data } => {
                packet.set_msg_type(Message::TimeExceeded);
                packet.set_msg_code(reason.into());
                assert(after_header(packet.data_spec()) =~= after_header(s0));
                Self::emit_returned(packet, &header, data, checksum_caps);
            },
        }
        proof {
            let w = after_header(s0);
            match *self {
                Repr::EchoRequest { ident, seq_no, data } => {
                    assert(packet.data_spec() =~= splice(put_be16(put_be16(s0.update(0, 8u8).update(1, 0u8), 4, ident), 6, seq_no), 8, data@));
                },
                Repr::EchoReply { ident, seq_no, data } => {
                    assert(packet.data_spec() =~= splice(put_be16(put_be16(s0.update(0, 0u8).update(1, 0u8), 4, ident), 6, seq_no), 8, data@));
                },
                Repr::DstUnreachable { reason, header, data } => {
                    assert(packet.data_spec() =~= splice(s0.update(0, 3u8).update(1, reason.raw()), 8, splice(header.emit_spec(w, checksum_caps.ipv4.spec_tx()), 20, data@)));
                },
                Repr::TimeExceeded { reason, header, data } => {
                    assert(packet.data_spec() =~= splice(s0.update(0, 11u8).update(1, reason.raw()), 8, splice(header.emit_spec(w, checksum_caps.ipv4.spec_tx()), 20, data@)));
                },
            }
        }
        if checksum_caps.icmpv4.tx() {
            packet.fill_checksum();
            proof {
                let z = self.body_spec(s0, checksum_caps.ipv4.spec_tx());
                assert(put_be16(z, 2, 0) =~= z);
            }
        } else {
            packet.set_checksum(0);
        }
    }

    /// Copy echo data into the packet after its header.
    fn emit_echo_data<T: BytesSliceMut>(packet: &mut Packet<T>, data: &[u8])
        requires
            old(packet).data_spec().len() == 8 + data@.len(),
        ensures
            final(packet).data_spec() == splice(old(packet).data_spec(), 8, data@),
    {
        let ghost s0 = packet.data_spec();
        let window = packet.data_mut();
        let data_len = if window.len() < data.len() {
            window.len()
        } else {
            data.len()
        };
        crate::buf::copy_window_at(window, 0, data_len, crate::buf::prefix(data, data_len));
        proof {
            assert(data@.subrange(0, data_len as int) =~= data@);
        }
        assert(packet.data_spec() =~= splice(s0, 8, data@));
    }

    /// Emit the returned datagram's header and octets after the packet's header.
    fn emit_returned<T: BytesSliceMut>(
        packet: &mut Packet<T>,
        header: &Ipv4Repr,
        data: &[u8],
        checksum_caps: &ChecksumCapabilities,
    )
        requires
            old(packet).data_spec().len() == 8 + 20 + data@.len(),
            header.payload_len <= 65515,
        ensures
            final(packet).data_spec() == splice(
                old(packet).data_spec(),
                8,
                splice(
                    header.emit_spec(
                        old(packet).data_spec().subrange(8, old(packet).data_spec().len() as int),
                        checksum_caps.ipv4.spec_tx(),
                    ),
                    20,
                    data@,
                ),
            ),
    {
        let ghost s0 = packet.data_spec();
        let window = packet.data_mut();
        let mut ip_packet = Ipv4Packet::new_unchecked(
            vstd::slice::slice_to_vec(crate::buf::prefix(window, 20)),
        );
        header.emit(&mut ip_packet, checksum_caps);
        let emitted = ip_packet.into_inner();
        crate::buf::copy_window_at(window, 0, 20, emitted.as_slice());
        crate::buf::copy_suffix_at(window, 20, data);
        proof {
            crate::ipv4::lemma_emit_prefix(*header, after_header(s0), checksum_caps.ipv4.spec_tx());
        }
        assert(packet.data_spec() =~= splice(
            s0,
            8,
            splice(
                header.emit_spec(s0.subrange(8, s0.len() as int), checksum_caps.ipv4.spec_tx()),
                20,
                data@,
            ),
        ));
    }
}

/// The representation's emitted header and octets are well formed for
/// parsing them back.
pub open spec fn emit_parses_back(r: Repr) -> bool {
    match r {
        Repr::EchoRequest { .. } => true,
        Repr::EchoReply { .. } => true,
        Repr::DstUnreachable { reason, header, data } => reason.is_canonical()
            && header.next_header.is_canonical() && header.payload_len == data@.len()
            && 8 <= data@.len() <= 65515,
        Repr::TimeExceeded { reason, header, data } => reason.is_canonical()
            && header.next_header.is_canonical() && header.payload_len == data@.len()
            && 8 <= data@.len() <= 65515,
    }
}

/// Parsing the message that was emitted gives back the representation: when
/// an error message carries a datagram whose header counts the octets after
/// it, its codes are canonical, and the checksum is filled in whenever it is
/// verified.
pub proof fn lemma_emit_then_parse(r: Repr, s: Seq<u8>, caps: ChecksumCapabilities)
    requires
        s.len() == r.buffer_len_spec(),
        emit_parses_back(r),
        caps.icmpv4.spec_rx() ==> caps.icmpv4.spec_tx(),
    ensures
        parse_ok(r.emit_spec(s, caps), caps.icmpv4.spec_rx()),
        r.parsed_from(r.emit_spec(s, caps)),
{
    let itx = caps.ipv4.spec_tx();
    let z = r.body_spec(s, itx);
    let t = r.emit_spec(s, caps);
    assert(put_be16(z, 2, 0) =~= z);
    if caps.icmpv4.spec_tx() {
        lemma_fill_then_verify(z, 2);
    }
    assert(after_header(t) =~= after_header(z));
    match r {
        Repr::EchoRequest { ident, seq_no, data } => {
            assert(after_header(z) =~= data@);
        },
        Repr::EchoReply { ident, seq_no, data } => {
            assert(after_header(z) =~= data@);
        },
        Repr::DstUnreachable { reason, header, data } => {
            lemma_returned_back(header, after_header(s), data@, itx);
            assert(after_header(z) =~= splice(header.emit_spec(after_header(s), itx), 20, data@));
        },
        Repr::TimeExceeded { reason, header, data } => {
            lemma_returned_back(header, after_header(s), data@, itx);
            assert(after_header(z) =~= splice(header.emit_spec(after_header(s), itx), 20, data@));
        },
    }
}

/// A datagram emitted from a header whose payload length counts the octets
/// after it reads back as that header and those octets.
proof fn lemma_returned_back(header: Ipv4Repr, w: Seq<u8>, data: Seq<u8>, itx: bool)
    requires
        w.len() == 20 + data.len(),
        header.next_header.is_canonical(),
        header.payload_len == data.len(),
        8 <= data.len() <= 65515,
    ensures
        ({
            let d = splice(header.emit_spec(w, itx), 20, data);
            returned_ok(d) && returned_header(d) == header && returned_data(d) == data
        }),
{
    let d = splice(header.emit_spec(w, itx), 20, data);
    let w2 = splice(w, 20, data);
    let h = header.header_spec();
    crate::ipv4::Address::lemma_view(header.src_addr);
    crate::ipv4::Address::lemma_view(header.dst_addr);
    let z = splice(w, 0, h);
    let z2 = splice(w2, 0, h);
    assert(z2 =~= splice(z, 20, data));
    assert(z2.subrange(0, 20) =~= z.subrange(0, 20));
    if itx {
        let c = complement(ones_sum(z.subrange(0, 20)));
        assert(put_be16(z2, 10, c) =~= splice(put_be16(z, 10, c), 20, data));
    }
    assert(d =~= header.emit_spec(w2, itx));
    crate::ipv4::lemma_emit_then_parse(header, w2, itx, false);
    assert(header_len_of(d) == 20);
    assert(returned_data(d) =~= data);
}

} // verus!
