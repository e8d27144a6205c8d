//! Internet Control Message Protocol version 6 packets.

use vstd::prelude::*;
use crate::buf::{be16, be32, put_be16, put_be32, splice, Buf, Bytes, BytesMut, BytesSliceMut, Ref, read_u16_at, read_u32_at};
use crate::checksum::{complement, fold16, ones_sum, pseudo_header_v6, pseudo_header_v6_spec, seq_sum16};
use crate::checksum::lemma_fill_with_extra;
use crate::error::{Error, Result};
use crate::ip::IpProtocol;
use crate::ipv6::{Address as Ipv6Address, Packet as Ipv6Packet, Repr as Ipv6Repr, HEADER_LEN as IPV6_HEADER_LEN};
use crate::mld::Repr as MldRepr;
use crate::ndisc::Repr as NdiscRepr;
use crate::phy::ChecksumCapabilities;

verus! {

/// Internet protocol control message type.
#[derive(Debug, Clone, Copy, PartialEq, Eq, PartialOrd, Ord, Hash, Structural)]
pub enum Message {
    /// Destination Unreachable.
    DstUnreachable,
    /// Packet Too Big.
    PktTooBig,
    /// Time Exceeded.
    TimeExceeded,
    /// Parameter Problem.
    ParamProblem,
    /// Echo Request.
    EchoRequest,
    /// Echo Reply.
    EchoReply,
    /// Multicast Listener Query.
    MldQuery,
    /// Router Solicitation.
    RouterSolicit,
    /// Router Advertisement.
    RouterAdvert,
    /// Neighbor Solicitation.
    NeighborSolicit,
    /// Neighbor Advertisement.
    NeighborAdvert,
    /// Redirect.
    Redirect,
    /// Multicast Listener Report.
    MldReport,
    /// RPL Control Message.
    RplControl,
    /// A value with no name of its own.
    Unknown(u8),
}

impl Message {
    /// The Message that a raw value denotes.
    pub open spec fn from_raw(v: u8) -> Message {
        if v == 0x01 {
            Message::DstUnreachable
        } else if v == 0x02 {
            Message::PktTooBig
        } else if v == 0x03 {
            Message::TimeExceeded
        } else if v == 0x04 {
            Message::ParamProblem
        } else if v == 0x80 {
            Message::EchoRequest
        } else if v == 0x81 {
            Message::EchoReply
        } else if v == 0x82 {
            Message::MldQuery
        } else if v == 0x85 {
            Message::RouterSolicit
        } else if v == 0x86 {
            Message::RouterAdvert
        } else if v == 0x87 {
            Message::NeighborSolicit
        } else if v == 0x88 {
            Message::NeighborAdvert
        } else if v == 0x89 {
            Message::Redirect
        } else if v == 0x8f {
            Message::MldReport
        } else if v == 0x9b {
            Message::RplControl
        } else {
            Message::Unknown(v)
        }
    }

    /// The raw value of a Message.
    pub open spec fn raw(self) -> u8 {
        match self {
            Message::DstUnreachable => 0x01,
            Message::PktTooBig => 0x02,
            Message::TimeExceeded => 0x03,
            Message::ParamProblem => 0x04,
            Message::EchoRequest => 0x80,
            Message::EchoReply => 0x81,
            Message::MldQuery => 0x82,
            Message::RouterSolicit => 0x85,
            Message::RouterAdvert => 0x86,
            Message::NeighborSolicit => 0x87,
            Message::NeighborAdvert => 0x88,
            Message::Redirect => 0x89,
            Message::MldReport => 0x8f,
            Message::RplControl => 0x9b,
            Message::Unknown(v) => v,
        }
    }

    /// The code table of the wire format, over every code `v`: each named
    /// value is written as the code assigned to it, that code and no other
    /// reads as it, and a code with no name reads as `Unknown` of itself.
    pub proof fn lemma_codes(v: u8)
        ensures
            Message::DstUnreachable.raw() == 0x01,
            Message::PktTooBig.raw() == 0x02,
            Message::TimeExceeded.raw() == 0x03,
            Message::ParamProblem.raw() == 0x04,
            Message::EchoRequest.raw() == 0x80,
            Message::EchoReply.raw() == 0x81,
            Message::MldQuery.raw() == 0x82,
            Message::RouterSolicit.raw() == 0x85,
            Message::RouterAdvert.raw() == 0x86,
            Message::NeighborSolicit.raw() == 0x87,
            Message::NeighborAdvert.raw() == 0x88,
            Message::Redirect.raw() == 0x89,
            Message::MldReport.raw() == 0x8f,
            Message::RplControl.raw() == 0x9b,
            (Message::from_raw(v) == Message::DstUnreachable) <==> v == 0x01,
            (Message::from_raw(v) == Message::PktTooBig) <==> v == 0x02,
            (Message::from_raw(v) == Message::TimeExceeded) <==> v == 0x03,
            (Message::from_raw(v) == Message::ParamProblem) <==> v == 0x04,
            (Message::from_raw(v) == Message::EchoRequest) <==> v == 0x80,
            (Message::from_raw(v) == Message::EchoReply) <==> v == 0x81,
            (Message::from_raw(v) == Message::MldQuery) <==> v == 0x82,
            (Message::from_raw(v) == Message::RouterSolicit) <==> v == 0x85,
            (Message::from_raw(v) == Message::RouterAdvert) <==> v == 0x86,
            (Message::from_raw(v) == Message::NeighborSolicit) <==> v == 0x87,
            (Message::from_raw(v) == Message::NeighborAdvert) <==> v == 0x88,
            (Message::from_raw(v) == Message::Redirect) <==> v == 0x89,
            (Message::from_raw(v) == Message::MldReport) <==> v == 0x8f,
            (Message::from_raw(v) == Message::RplControl) <==> v == 0x9b,
            v != 0x01 && v != 0x02 && v != 0x03 && v != 0x04 && v != 0x80 && v != 0x81 && v != 0x82 && v != 0x85 && v != 0x86 && v != 0x87 && v != 0x88 && v != 0x89 && v != 0x8f && v != 0x9b ==> Message::from_raw(v) == Message::Unknown(v),
    {
    }

    /// A value is canonical when it is what its own raw value denotes; only an
    /// `Unknown` that carries a named value is not.
    pub open spec fn is_canonical(self) -> bool {
        Message::from_raw(self.raw()) == self
    }

    /// Reading back the raw value of what a raw value denotes gives that value.
    pub proof fn lemma_raw_from_raw(v: u8)
        ensures
            Message::from_raw(v).raw() == v,
            Message::from_raw(v).is_canonical(),
    {
    }
}

impl From<u8> for Message {
    fn from(v: u8) -> (r: Message) {
        match v {
            0x01 => Message::DstUnreachable,
            0x02 => Message::PktTooBig,
            0x03 => Message::TimeExceeded,
            0x04 => Message::ParamProblem,
            0x80 => Message::EchoRequest,
            0x81 => Message::EchoReply,
            0x82 => Message::MldQuery,
            0x85 => Message::RouterSolicit,
            0x86 => Message::RouterAdvert,
            0x87 => Message::NeighborSolicit,
            0x88 => Message::NeighborAdvert,
            0x89 => Message::Redirect,
            0x8f => Message::MldReport,
            0x9b => Message::RplControl,
            _ => Message::Unknown(v),
        }
    }
}

impl vstd::std_specs::convert::FromSpecImpl<u8> for Message {
    open spec fn obeys_from_spec() -> bool {
        true
    }

    open spec fn from_spec(v: u8) -> Message {
        Message::from_raw(v)
    }
}

impl From<Message> for u8 {
    fn from(v: Message) -> (r: u8) {
        match v {
            Message::DstUnreachable => 0x01,
            Message::PktTooBig => 0x02,
            Message::TimeExceeded => 0x03,
            Message::ParamProblem => 0x04,
            Message::EchoRequest => 0x80,
            Message::EchoReply => 0x81,
            Message::MldQuery => 0x82,
            Message::RouterSolicit => 0x85,
            Message::RouterAdvert => 0x86,
            Message::NeighborSolicit => 0x87,
            Message::NeighborAdvert => 0x88,
            Message::Redirect => 0x89,
            Message::MldReport => 0x8f,
            Message::RplControl => 0x9b,
            Message::Unknown(x) => x,
        }
    }
}

impl vstd::std_specs::convert::FromSpecImpl<Message> for u8 {
    open spec fn obeys_from_spec() -> bool {
        true
    }

    open spec fn from_spec(v: Message) -> u8 {
        v.raw()
    }
}

/// Internet protocol control message subtype for type "Destination Unreachable".
#[derive(Debug, Clone, Copy, PartialEq, Eq, PartialOrd, Ord, Hash, Structural)]
pub enum DstUnreachable {
    /// No Route to destination.
    NoRoute,
    /// Communication with destination administratively prohibited.
    AdminProhibit,
    /// Beyond scope of source address.
    BeyondScope,
    /// Address unreachable.
    AddrUnreachable,
    /// Port unreachable.
    PortUnreachable,
    /// Source address failed ingress/egress policy.
    FailedPolicy,
    /// Reject route to destination.
    RejectRoute,
    /// A value with no name of its own.
    Unknown(u8),
}

impl DstUnreachable {
    /// The DstUnreachable that a raw value denotes.
    pub open spec fn from_raw(v: u8) -> DstUnreachable {
        if v == 0 {
            DstUnreachable::NoRoute
        } else if v == 1 {
            DstUnreachable::AdminProhibit
        } else if v == 2 {
            DstUnreachable::BeyondScope
        } else if v == 3 {
            DstUnreachable::AddrUnreachable
        } else if v == 4 {
            DstUnreachable::PortUnreachable
        } else if v == 5 {
            DstUnreachable::FailedPolicy
        } else if v == 6 {
            DstUnreachable::RejectRoute
        } else {
            DstUnreachable::Unknown(v)
        }
    }

    /// The raw value of a DstUnreachable.
    pub open spec fn raw(self) -> u8 {
        match self {
            DstUnreachable::NoRoute => 0,
            DstUnreachable::AdminProhibit => 1,
            DstUnreachable::BeyondScope => 2,
            DstUnreachable::AddrUnreachable => 3,
            DstUnreachable::PortUnreachable => 4,
            DstUnreachable::FailedPolicy => 5,
            DstUnreachable::RejectRoute => 6,
            DstUnreachable::Unknown(v) => v,
        }
    }

    /// The code table of the wire format, over every code `v`: each named
    /// value is written as the code assigned to it, that code and no other
    /// reads as it, and a code with no name reads as `Unknown` of itself.
    pub proof fn lemma_codes(v: u8)
        ensures
            DstUnreachable::NoRoute.raw() == 0,
            DstUnreachable::AdminProhibit.raw() == 1,
            DstUnreachable::BeyondScope.raw() == 2,
            DstUnreachable::AddrUnreachable.raw() == 3,
            DstUnreachable::PortUnreachable.raw() == 4,
            DstUnreachable::FailedPolicy.raw() == 5,
            DstUnreachable::RejectRoute.raw() == 6,
            (DstUnreachable::from_raw(v) == DstUnreachable::NoRoute) <==> v == 0,
            (DstUnreachable::from_raw(v) == DstUnreachable::AdminProhibit) <==> v == 1,
            (DstUnreachable::from_raw(v) == DstUnreachable::BeyondScope) <==> v == 2,
            (DstUnreachable::from_raw(v) == DstUnreachable::AddrUnreachable) <==> v == 3,
            (DstUnreachable::from_raw(v) == DstUnreachable::PortUnreachable) <==> v == 4,
            (DstUnreachable::from_raw(v) == DstUnreachable::FailedPolicy) <==> v == 5,
            (DstUnreachable::from_raw(v) == DstUnreachable::RejectRoute) <==> v == 6,
            v != 0 && v != 1 && v != 2 && v != 3 && v != 4 && v != 5 && v != 6 ==> DstUnreachable::from_raw(v) == DstUnreachable::Unknown(v),
    {
    }

    /// A value is canonical when it is what its own raw value denotes; only an
    /// `Unknown` that carries a named value is not.
    pub open spec fn is_canonical(self) -> bool {
        DstUnreachable::from_raw(self.raw()) == self
    }

    /// Reading back the raw value of what a raw value denotes gives that value.
    pub proof fn lemma_raw_from_raw(v: u8)
        ensures
            DstUnreachable::from_raw(v).raw() == v,
            DstUnreachable::from_raw(v).is_canonical(),
    {
    }
}

impl From<u8> for DstUnreachable {
    fn from(v: u8) -> (r: DstUnreachable) {
        match v {
            0 => DstUnreachable::NoRoute,
            1 => DstUnreachable::AdminProhibit,
            2 => DstUnreachable::BeyondScope,
            3 => DstUnreachable::AddrUnreachable,
            4 => DstUnreachable::PortUnreachable,
            5 => DstUnreachable::FailedPolicy,
            6 => DstUnreachable::RejectRoute,
            _ => DstUnreachable::Unknown(v),
        }
    }
}

impl vstd::std_specs::convert::FromSpecImpl<u8> for DstUnreachable {
    open spec fn obeys_from_spec() -> bool {
        true
    }

    open spec fn from_spec(v: u8) -> DstUnreachable {
        DstUnreachable::from_raw(v)
    }
}

impl From<DstUnreachable> for u8 {
    fn from(v: DstUnreachable) -> (r: u8) {
        match v {
            DstUnreachable::NoRoute => 0,
            DstUnreachable::AdminProhibit => 1,
            DstUnreachable::BeyondScope => 2,
            DstUnreachable::AddrUnreachable => 3,
            DstUnreachable::PortUnreachable => 4,
            DstUnreachable::FailedPolicy => 5,
            DstUnreachable::RejectRoute => 6,
            DstUnreachable::Unknown(x) => x,
        }
    }
}

impl vstd::std_specs::convert::FromSpecImpl<DstUnreachable> for u8 {
    open spec fn obeys_from_spec() -> bool {
        true
    }

    open spec fn from_spec(v: DstUnreachable) -> u8 {
        v.raw()
    }
}

/// Internet protocol control message subtype for the type "Parameter Problem".
#[derive(Debug, Clone, Copy, PartialEq, Eq, PartialOrd, Ord, Hash, Structural)]
pub enum ParamProblem {
    /// Erroneous header field encountered.
    ErroneousHdrField,
    /// Unrecognized Next Header type encountered.
    UnrecognizedNxtHdr,
    /// Unrecognized IPv6 option encountered.
    UnrecognizedOption,
    /// A value with no name of its own.
    Unknown(u8),
}

impl ParamProblem {
    /// The ParamProblem that a raw value denotes.
    pub open spec fn from_raw(v: u8) -> ParamProblem {
        if v == 0 {
            ParamProblem::ErroneousHdrField
        } else if v == 1 {
            ParamProblem::UnrecognizedNxtHdr
        } else if v == 2 {
            ParamProblem::UnrecognizedOption
        } else {
            ParamProblem::Unknown(v)
        }
    }

    /// The raw value of a ParamProblem.
    pub open spec fn raw(self) -> u8 {
        match self {
            ParamProblem::ErroneousHdrField => 0,
            ParamProblem::UnrecognizedNxtHdr => 1,
            ParamProblem::UnrecognizedOption => 2,
            ParamProblem::Unknown(v) => v,
        }
    }

    /// The code table of the wire format, over every code `v`: each named
    /// value is written as the code assigned to it, that code and no other
    /// reads as it, and a code with no name reads as `Unknown` of itself.
    pub proof fn lemma_codes(v: u8)
        ensures
            ParamProblem::ErroneousHdrField.raw() == 0,
            ParamProblem::UnrecognizedNxtHdr.raw() == 1,
            ParamProblem::UnrecognizedOption.raw() == 2,
            (ParamProblem::from_raw(v) == ParamProblem::ErroneousHdrField) <==> v == 0,
            (ParamProblem::from_raw(v) == ParamProblem::UnrecognizedNxtHdr) <==> v == 1,
            (ParamProblem::from_raw(v) == ParamProblem::UnrecognizedOption) <==> v == 2,
            v != 0 && v != 1 && v != 2 ==> ParamProblem::from_raw(v) == ParamProblem::Unknown(v),
    {
    }

    /// A value is canonical when it is what its own raw value denotes; only an
    /// `Unknown` that carries a named value is not.
    pub open spec fn is_canonical(self) -> bool {
        ParamProblem::from_raw(self.raw()) == self
    }

    /// Reading back the raw value of what a raw value denotes gives that value.
    pub proof fn lemma_raw_from_raw(v: u8)
        ensures
            ParamProblem::from_raw(v).raw() == v,
            ParamProblem::from_raw(v).is_canonical(),
    {
    }
}

impl From<u8> for ParamProblem {
    fn from(v: u8) -> (r: ParamProblem) {
        match v {
            0 => ParamProblem::ErroneousHdrField,
            1 => ParamProblem::UnrecognizedNxtHdr,
            2 => ParamProblem::UnrecognizedOption,
            _ => ParamProblem::Unknown(v),
        }
    }
}

impl vstd::std_specs::convert::FromSpecImpl<u8> for ParamProblem {
    open spec fn obeys_from_spec() -> bool {
        true
    }

    open spec fn from_spec(v: u8) -> ParamProblem {
        ParamProblem::from_raw(v)
    }
}

impl From<ParamProblem> for u8 {
    fn from(v: ParamProblem) -> (r: u8) {
        match v {
            ParamProblem::ErroneousHdrField => 0,
            ParamProblem::UnrecognizedNxtHdr => 1,
            ParamProblem::UnrecognizedOption => 2,
            ParamProblem::Unknown(x) => x,
        }
    }
}

impl vstd::std_specs::convert::FromSpecImpl<ParamProblem> for u8 {
    open spec fn obeys_from_spec() -> bool {
        true
    }

    open spec fn from_spec(v: ParamProblem) -> u8 {
        v.raw()
    }
}

/// Internet protocol control message subtype for the type "Time Exceeded".
#[derive(Debug, Clone, Copy, PartialEq, Eq, PartialOrd, Ord, Hash, Structural)]
pub enum TimeExceeded {
    /// Hop limit exceeded in transit.
    HopLimitExceeded,
    /// Fragment reassembly time exceeded.
    FragReassemExceeded,
    /// A value with no name of its own.
    Unknown(u8),
}

impl TimeExceeded {
    /// The TimeExceeded that a raw value denotes.
    pub open spec fn from_raw(v: u8) -> TimeExceeded {
        if v == 0 {
            TimeExceeded::HopLimitExceeded
        } else if v == 1 {
            TimeExceeded::FragReassemExceeded
        } else {
            TimeExceeded::Unknown(v)
        }
    }

    /// The raw value of a TimeExceeded.
    pub open spec fn raw(self) -> u8 {
        match self {
            TimeExceeded::HopLimitExceeded => 0,
            TimeExceeded::FragReassemExceeded => 1,
            TimeExceeded::Unknown(v) => v,
        }
    }

    /// The code table of the wire format, over every code `v`: each named
    /// value is written as the code assigned to it, that code and no other
    /// reads as it, and a code with no name reads as `Unknown` of itself.
    pub proof fn lemma_codes(v: u8)
        ensures
            TimeExceeded::HopLimitExceeded.raw() == 0,
            TimeExceeded::FragReassemExceeded.raw() == 1,
            (TimeExceeded::from_raw(v) == TimeExceeded::HopLimitExceeded) <==> v == 0,
            (TimeExceeded::from_raw(v) == TimeExceeded::FragReassemExceeded) <==> v == 1,
            v != 0 && v != 1 ==> TimeExceeded::from_raw(v) == TimeExceeded::Unknown(v),
    {
    }

    /// A value is canonical when it is what its own raw value denotes; only an
    /// `Unknown` that carries a named value is not.
    pub open spec fn is_canonical(self) -> bool {
        TimeExceeded::from_raw(self.raw()) == self
    }

    /// Reading back the raw value of what a raw value denotes gives that value.
    pub proof fn lemma_raw_from_raw(v: u8)
        ensures
            TimeExceeded::from_raw(v).raw() == v,
            TimeExceeded::from_raw(v).is_canonical(),
    {
    }
}

impl From<u8> for TimeExceeded {
    fn from(v: u8) -> (r: TimeExceeded) {
        match v {
            0 => TimeExceeded::HopLimitExceeded,
            1 => TimeExceeded::FragReassemExceeded,
            _ => TimeExceeded::Unknown(v),
        }
    }
}

impl vstd::std_specs::convert::FromSpecImpl<u8> for TimeExceeded {
    open spec fn obeys_from_spec() -> bool {
        true
    }

    open spec fn from_spec(v: u8) -> TimeExceeded {
        TimeExceeded::from_raw(v)
    }
}

impl From<TimeExceeded> for u8 {
    fn from(v: TimeExceeded) -> (r: u8) {
        match v {
            TimeExceeded::HopLimitExceeded => 0,
            TimeExceeded::FragReassemExceeded => 1,
            TimeExceeded::Unknown(x) => x,
        }
    }
}

impl vstd::std_specs::convert::FromSpecImpl<TimeExceeded> for u8 {
    open spec fn obeys_from_spec() -> bool {
        true
    }

    open spec fn from_spec(v: TimeExceeded) -> u8 {
        v.raw()
    }
}

impl Message {
    /// Whether the message is an error message: its type has the high bit
    /// clear.
    pub fn is_error(&self) -> (r: bool)
        ensures
            r == (self.raw() < 0x80),
    {
        let raw: u8 = (*self).into();
        proof {
            assert((raw & 0x80 != 0x80) == (raw < 0x80)) by (bit_vector);
        }
        (raw & 0x80) != 0x80
    }

    /// Whether the message is a Neighbor Discovery message.
    pub fn is_ndisc(&self) -> (r: bool)
        ensures
            r == (self is RouterSolicit || self is RouterAdvert || self is NeighborSolicit
                || self is NeighborAdvert || self is Redirect),
    {
        match *self {
            Message::RouterSolicit
            | Message::RouterAdvert
            | Message::NeighborSolicit
            | Message::NeighborAdvert
            | Message::Redirect => true,
            _ => false,
        }
    }

    /// Whether the message is a Multicast Listener Discovery message.
    pub fn is_mld(&self) -> (r: bool)
        ensures
            r == (self is MldQuery || self is MldReport),
    {
        match *self {
            Message::MldQuery | Message::MldReport => true,
            _ => false,
        }
    }

    /// The length of the fixed header of a message of this type.
    pub open spec fn header_len_spec(self) -> int {
        match self {
            Message::RouterAdvert => 16,
            Message::NeighborSolicit => 24,
            Message::NeighborAdvert => 24,
            Message::Redirect => 40,
            Message::MldQuery => 28,
            Message::RplControl => 4,
            Message::Unknown(_) => 4,
            _ => 8,
        }
    }

    /// Whether a message of this type is one a packet can carry: any named
    /// type but the RPL control message.
    pub open spec fn is_supported(self) -> bool {
        !(self is RplControl) && !(self is Unknown)
    }
}

/// The buffer holds the fixed header of a message of type `ty`, of a type
/// that is supported.
pub open spec fn len_ok(ty: Message, s: Seq<u8>) -> bool {
    s.len() >= 4 && ty.is_supported() && s.len() >= 8 && s.len() >= ty.header_len_spec()
}

/// The message type that a buffer starts with, or that of the value zero
/// when it is empty.
pub open spec fn first_type(s: Seq<u8>) -> Message {
    if s.len() > 0 {
        Message::from_raw(s[0])
    } else {
        Message::from_raw(0)
    }
}

/// The sum, before complementing, over the IPv6 pseudo-header of a message
/// between `src` and `dst` and over the message `s` itself.
pub open spec fn message_sum(src: Seq<u8>, dst: Seq<u8>, s: Seq<u8>) -> nat {
    fold16((pseudo_header_v6_spec(src, dst, 0x3a, crate::buf::len32(s)) + ones_sum(s)) as nat)
}

/// The message's checksum verifies for the given addresses.
pub open spec fn checksum_ok(src: Seq<u8>, dst: Seq<u8>, s: Seq<u8>) -> bool {
    message_sum(src, dst, s) == 65535
}

/// The pseudo-header checksum of a message between the given addresses.
fn pseudo_header(src_addr: &Ipv6Address, dst_addr: &Ipv6Address, data: &[u8]) -> (r: u16)
    ensures
        r == pseudo_header_v6_spec(src_addr@, dst_addr@, 0x3a, crate::buf::len32(data@)),
{
    pseudo_header_v6(src_addr, dst_addr, IpProtocol::Icmpv6, crate::buf::upper_len(data))
}

/// A read/write wrapper around an Internet Control Message Protocol version 6
/// packet buffer.
#[derive(Debug, PartialEq, Eq, Clone)]
pub struct Packet<T> {
    ty: Message,
    buffer: T,
}

impl<T> Packet<T> {
    /// The buffer underneath.
    pub closed spec fn inner(&self) -> T {
        self.buffer
    }

    /// The message type the packet was built with or last given.
    pub closed spec fn ty(&self) -> Message {
        self.ty
    }

    /// Consume the packet, returning the underlying buffer.
    pub fn into_inner(self) -> (r: T)
        ensures
            r == self.inner(),
    {
        self.buffer
    }

    /// Return the message type field.
    pub fn msg_type(&self) -> (r: Message)
        ensures
            r == self.ty(),
    {
        self.ty
    }

    /// Borrow the buffer, for the message kinds that read their own fields.
    pub(crate) fn buffer_ref(&self) -> (r: &T)
        ensures
            *r == self.inner(),
    {
        &self.buffer
    }

    /// Borrow the buffer mutably, for the message kinds that write their own
    /// fields; the message type stays as it was.
    pub(crate) fn buffer_mut(&mut self) -> (r: &mut T)
        ensures
            *r == old(self).inner(),
            final(self).inner() == *final(r),
            final(self).ty() == old(self).ty(),
    {
        &mut self.buffer
    }
}

impl<T: Bytes> AsRef<[u8]> for Packet<T> {
    /// The octets of the packet.
    fn as_ref(&self) -> (r: &[u8])
        ensures
            r@ == self.data(),
    {
        self.buffer.as_bytes()
    }
}

impl<T: Bytes> Packet<T> {
    /// The octets of the packet.
    pub open spec fn data(&self) -> Seq<u8> {
        self.inner().bytes()
    }

    /// Imbue a raw octet buffer with ICMPv6 packet structure; the message
    /// type is read from the first octet.
    pub fn new_unchecked(buffer: T) -> (r: Packet<T>)
        ensures
            r.inner() == buffer,
            r.ty() == first_type(buffer.bytes()),
    {
        let ty = if buffer.byte_len() > 0 {
            Message::from(buffer.as_bytes()[0])
        } else {
            Message::from(0)
        };
        Packet { ty, buffer }
    }

    /// Shorthand for a combination of [`Packet::new_unchecked`] and [`Packet::check_len`].
    pub fn new_checked(buffer: T) -> (r: Result<Packet<T>>)
        ensures
            r is Ok <==> len_ok(first_type(buffer.bytes()), buffer.bytes()),
            r matches Ok(p) ==> p.inner() == buffer && p.ty() == first_type(buffer.bytes()),
    {
        let packet = Self::new_unchecked(buffer);
        match packet.check_len() {
            Ok(()) => Ok(packet),
            Err(e) => Err(e),
        }
    }

    /// Ensure that no accessor method will panic if called.
    /// Returns `Err(Error)` if the buffer is too short for the fixed header of
    /// its message type, or if that type is not one a packet carries.
    pub fn check_len(&self) -> (r: Result<()>)
        ensures
            r is Ok <==> len_ok(self.ty(), self.data()),
    {
        match self.checked_len() {
            Ok(_) => Ok(()),
            Err(e) => Err(e),
        }
    }

    /// The buffer's length, when it passes [`Packet::check_len`].
    pub(crate) fn checked_len(&self) -> (r: Result<usize>)
        ensures
            r is Ok <==> len_ok(self.ty(), self.data()),
            r matches Ok(n) ==> n == self.data().len(),
    {
        let len = self.buffer.byte_len();
        if len < 4 {
            return Err(Error);
        }
        match self.msg_type() {
            Message::DstUnreachable
            | Message::PktTooBig
            | Message::TimeExceeded
            | Message::ParamProblem
            | Message::EchoRequest
            | Message::EchoReply
            | Message::MldQuery
            | Message::RouterSolicit
            | Message::RouterAdvert
            | Message::NeighborSolicit
            | Message::NeighborAdvert
            | Message::Redirect
            | Message::MldReport => {
                if len < 8 || len < self.header_len() {
                    return Err(Error);
                }
            },
            Message::RplControl => return Err(Error),
            Message::Unknown(_) => return Err(Error),
        }
        Ok(len)
    }

    /// Return the message code field.
    pub fn msg_code(&self) -> (r: u8)
        requires
            self.data().len() >= 2,
        ensures
            r == self.data()[1],
    {
        self.buffer.as_bytes()[1]
    }

    /// Return the checksum field.
    pub fn checksum(&self) -> (r: u16)
        requires
            self.data().len() >= 4,
        ensures
            r == be16(self.data(), 2),
    {
        read_u16_at(self.buffer.as_bytes(), 2)
    }

    /// Return the identifier field (for echo request and reply packets).
    pub fn echo_ident(&self) -> (r: u16)
        requires
            self.data().len() >= 6,
        ensures
            r == be16(self.data(), 4),
    {
        read_u16_at(self.buffer.as_bytes(), 4)
    }

    /// Return the sequence number field (for echo request and reply packets).
    pub fn echo_seq_no(&self) -> (r: u16)
        requires
            self.data().len() >= 8,
        ensures
            r == be16(self.data(), 6),
    {
        read_u16_at(self.buffer.as_bytes(), 6)
    }

    /// Return the MTU field (for packet too big messages).
    pub fn pkt_too_big_mtu(&self) -> (r: u32)
        requires
            self.data().len() >= 8,
        ensures
            r == be32(self.data(), 4),
    {
        read_u32_at(self.buffer.as_bytes(), 4)
    }

    /// Return the pointer field (for parameter problem messages).
    pub fn param_problem_ptr(&self) -> (r: u32)
        requires
            self.data().len() >= 8,
        ensures
            r == be32(self.data(), 4),
    {
        read_u32_at(self.buffer.as_bytes(), 4)
    }

    /// Return the length of the fixed header of the packet's message type.
    pub fn header_len(&self) -> (r: usize)
        ensures
            r == self.ty().header_len_spec(),
    {
        match self.msg_type() {
            Message::DstUnreachable => 8,
            Message::PktTooBig => 8,
            Message::TimeExceeded => 8,
            Message::ParamProblem => 8,
            Message::EchoRequest => 8,
            Message::EchoReply => 8,
            Message::RouterSolicit => 8,
            Message::RouterAdvert => 16,
            Message::NeighborSolicit => 24,
            Message::NeighborAdvert => 24,
            Message::Redirect => 40,
            Message::MldQuery => 28,
            Message::MldReport => 8,
            Message::RplControl => 4,
            Message::Unknown(_) => 4,
        }
    }

    /// Validate the checksum over the message and the IPv6 pseudo-header of
    /// the given addresses.
    pub fn verify_checksum(&self, src_addr: &Ipv6Address, dst_addr: &Ipv6Address) -> (r: bool)
        ensures
            r == checksum_ok(src_addr@, dst_addr@, self.data()),
    {
        let data = self.buffer.as_bytes();
        let words = [pseudo_header(src_addr, dst_addr, data), crate::checksum::data(data)];
        proof {
            reveal_with_fuel(seq_sum16, 3);
            assert(words@.drop_last().drop_last() =~= Seq::<u16>::empty());
        }
        crate::checksum::combine(words.as_slice()) == 0xffff
    }
}

impl<T: BytesMut> Packet<T> {
    /// Set the message type field.
    pub fn set_msg_type(&mut self, value: Message)
        requires
            old(self).data().len() >= 1,
        ensures
            final(self).data() == old(self).data().update(0, value.raw()),
            final(self).ty() == value,
    {
        self.ty = value;
        self.buffer.set_byte(0, value.into());
    }

    /// Set the message code field.
    pub fn set_msg_code(&mut self, value: u8)
        requires
            old(self).data().len() >= 2,
        ensures
            final(self).data() == old(self).data().update(1, value),
            final(self).ty() == old(self).ty(),
    {
        self.buffer.set_byte(1, value);
    }

    /// Clear the reserved fields of the message types that have them.
    pub fn clear_reserved(&mut self)
        requires
            old(self).ty() is RouterSolicit || old(self).ty() is NeighborSolicit || old(self).ty() is NeighborAdvert
                || old(self).ty() is Redirect || old(self).ty() is MldQuery || old(self).ty() is MldReport,
            old(self).ty() is MldQuery ==> old(self).data().len() >= 25,
            old(self).ty() is MldReport ==> old(self).data().len() >= 6,
            old(self).data().len() >= 8 || old(self).ty() is MldReport,
        ensures
            final(self).ty() == old(self).ty(),
            old(self).ty() is MldQuery ==> final(self).data() == put_be16(old(self).data(), 6, 0).update(
                24,
                old(self).data()[24] % 16,
            ),
            old(self).ty() is MldReport ==> final(self).data() == put_be16(old(self).data(), 4, 0),
            !(old(self).ty() is MldQuery) && !(old(self).ty() is MldReport) ==> final(self).data()
                == put_be16(put_be16(old(self).data(), 4, 0), 6, 0),
    {
        match self.msg_type() {
            Message::MldQuery => {
                self.buffer.set_u16(6, 0);
                let b = self.buffer.as_bytes()[24];
                proof {
                    assert(b & 0xf == b % 16) by (bit_vector);
                }
                self.buffer.set_byte(24, b & 0xf);
            },
            Message::MldReport => {
                self.buffer.set_u16(4, 0);
            },
            _ => {
                self.buffer.set_u16(4, 0);
                self.buffer.set_u16(6, 0);
            },
        }
    }

    /// Set the checksum field.
    pub fn set_checksum(&mut self, value: u16)
        requires
            old(self).data().len() >= 4,
        ensures
            final(self).data() == put_be16(old(self).data(), 2, value),
            final(self).ty() == old(self).ty(),
    {
        self.buffer.set_u16(2, value);
    }

    /// Set the identifier field (for echo request and reply packets).
    pub fn set_echo_ident(&mut self, value: u16)
        requires
            old(self).data().len() >= 6,
        ensures
            final(self).data() == put_be16(old(self).data(), 4, value),
            final(self).ty() == old(self).ty(),
    {
        self.buffer.set_u16(4, value);
    }

    /// Set the sequence number field (for echo request and reply packets).
    pub fn set_echo_seq_no(&mut self, value: u16)
        requires
            old(self).data().len() >= 8,
        ensures
            final(self).data() == put_be16(old(self).data(), 6, value),
            final(self).ty() == old(self).ty(),
    {
        self.buffer.set_u16(6, value);
    }

    /// Set the MTU field (for packet too big messages).
    pub fn set_pkt_too_big_mtu(&mut self, value: u32)
        requires
            old(self).data().len() >= 8,
        ensures
            final(self).data() == put_be16(
                put_be16(old(self).data(), 4, (value / 65536) as u16),
                6,
                (value % 65536) as u16,
            ),
            final(self).ty() == old(self).ty(),
    {
        proof {
            assert(value >> 16 == value / 65536 && value / 65536 < 65536) by (bit_vector);
        }
        self.buffer.set_u16(4, (value >> 16) as u16);
        self.buffer.set_u16(6, (value % 65536) as u16);
    }

    /// Set the pointer field (for parameter problem messages).
    pub fn set_param_problem_ptr(&mut self, value: u32)
        requires
            old(self).data().len() >= 8,
        ensures
            final(self).data() == put_be16(
                put_be16(old(self).data(), 4, (value / 65536) as u16),
                6,
                (value % 65536) as u16,
            ),
            final(self).ty() == old(self).ty(),
    {
        proof {
            assert(value >> 16 == value / 65536 && value / 65536 < 65536) by (bit_vector);
        }
        self.buffer.set_u16(4, (value >> 16) as u16);
        self.buffer.set_u16(6, (value % 65536) as u16);
    }

    /// Compute and fill in the checksum over the message and the IPv6
    /// pseudo-header of the given addresses.
    pub fn fill_checksum(&mut self, src_addr: &Ipv6Address, dst_addr: &Ipv6Address)
        requires
            old(self).data().len() >= 4,
        ensures
            final(self).ty() == old(self).ty(),
            final(self).data() == put_be16(
                put_be16(old(self).data(), 2, 0),
                2,
                complement(
                    fold16(
                        (pseudo_header_v6_spec(
                            src_addr@,
                            dst_addr@,
                            0x3a,
                            crate::buf::len32(old(self).data()),
                        ) + ones_sum(put_be16(old(self).data(), 2, 0))) as nat,
                    ) as u16,
                ),
            ),
            checksum_ok(src_addr@, dst_addr@, final(self).data()),
    {
        self.set_checksum(0);
        let sum = {
            let data = self.buffer.as_bytes();
            let words = [pseudo_header(src_addr, dst_addr, data), crate::checksum::data(data)];
            proof {
                reveal_with_fuel(seq_sum16, 3);
                assert(words@.drop_last().drop_last() =~= Seq::<u16>::empty());
            }
            crate::checksum::combine(words.as_slice())
        };
        self.set_checksum(0xffff - sum);
        proof {
            lemma_fill_with_extra(
                old(self).data(),
                2,
                pseudo_header_v6_spec(src_addr@, dst_addr@, 0x3a, crate::buf::len32(old(self).data())),
            );
        }
    }
}

impl<T: BytesSliceMut> Packet<T> {
    /// Return a mutable pointer to the type-specific data.
    pub fn payload_mut(&mut self) -> (r: &mut [u8])
        requires
            old(self).data().len() >= old(self).ty().header_len_spec(),
        ensures
            final(self).ty() == old(self).ty(),
            r@ == old(self).data().subrange(old(self).ty().header_len_spec(), old(self).data().len() as int),
            final(self).data() == old(self).data().subrange(0, old(self).ty().header_len_spec()) + final(r)@,
    {
        let offset = self.header_len();
        let data = self.buffer.as_bytes_mut();
        let (_header, payload) = data.split_at_mut(offset);
        payload
    }

    /// The type-specific data as a [`Buf`].
    pub fn payload_buf(&mut self) -> (r: Buf<'_>)
        requires
            old(self).data().len() >= old(self).ty().header_len_spec(),
        ensures
            r.view_bytes() == old(self).data().subrange(old(self).ty().header_len_spec(), old(self).data().len() as int),
    {
        let offset = self.header_len();
        let data = self.buffer.as_bytes_mut();
        let (_header, payload) = data.split_at_mut(offset);
        Buf::new(payload)
    }
}

impl<'a> Packet<Ref<'a>> {
    /// [`Packet::new_checked`] over a [`Ref`].
    pub fn new_checked_ref(buffer: Ref<'a>) -> (r: Result<Packet<Ref<'a>>>)
        ensures
            r is Ok <==> len_ok(first_type(buffer.view_bytes()), buffer.view_bytes()),
            r matches Ok(p) ==> p.inner() == buffer && p.ty() == first_type(buffer.view_bytes()),
    {
        let packet = Packet::new_unchecked(buffer);
        match packet.checked_len() {
            Ok(_) => Ok(packet),
            Err(e) => Err(e),
        }
    }

    /// Return the type-specific data, with the buffer's lifetime.
    pub fn payload(&self) -> (r: &'a [u8])
        requires
            self.data().len() >= self.ty().header_len_spec(),
        ensures
            r@ == self.data().subrange(self.ty().header_len_spec(), self.data().len() as int),
    {
        let len = self.buffer.as_bytes().len();
        self.buffer.window(self.header_len(), len)
    }
}

/// The longest error message: one that fits, in an IPv6 packet, the
/// smallest MTU every link carries.
const MAX_ERROR_PACKET_LEN: usize = crate::ipv6::MIN_MTU - IPV6_HEADER_LEN;

/// The octets of the packet an error message carries after its own header
/// and the IPv6 header it quotes.
pub open spec fn quoted_len(data: Seq<u8>) -> int {
    if data.len() < 1192 {
        data.len() as int
    } else {
        1192
    }
}

/// The octets after the eight-octet header of a message.
pub open spec fn after_header(s: Seq<u8>) -> Seq<u8> {
    s.subrange(8, s.len() as int)
}

/// The IPv6 header at the start of the packet an error message carries,
/// read field by field; its version is not checked.
pub open spec fn contained_header(d: Seq<u8>) -> Ipv6Repr {
    Ipv6Repr {
        src_addr: Ipv6Address::from_seq(d.subrange(8, 24)),
        dst_addr: Ipv6Address::from_seq(d.subrange(24, 40)),
        next_header: IpProtocol::from_raw(d[6]),
        payload_len: be16(d, 4) as usize,
        hop_limit: d[7],
    }
}

/// `t` with the quoted packet of an error message written after its
/// eight-octet header: the IPv6 header, then as much of the data as fits
/// the smallest MTU.
pub open spec fn contained(t: Seq<u8>, header: Ipv6Repr, data: Seq<u8>) -> Seq<u8> {
    splice(splice(t, 8, header.header_spec()), 48, data.subrange(0, quoted_len(data)))
}

/// `s` with an echo message of type `ty` written over it: as much of the
/// data as the buffer holds after the header.
pub open spec fn echo_body(s: Seq<u8>, ty: u8, ident: u16, seq_no: u16, data: Seq<u8>) -> Seq<u8> {
    let room = s.len() - 8;
    splice(
        put_be16(put_be16(s.update(0, ty).update(1, 0u8), 4, ident), 6, seq_no),
        8,
        data.subrange(0, if room < data.len() { room } else { data.len() as int }),
    )
}

/// `z` with the checksum over the message and the IPv6 pseudo-header of the
/// given addresses written into its zeroed checksum field.
pub open spec fn with_checksum(z: Seq<u8>, src: Seq<u8>, dst: Seq<u8>) -> Seq<u8> {
    put_be16(
        z,
        2,
        complement(
            fold16((pseudo_header_v6_spec(src, dst, 0x3a, crate::buf::len32(z)) + ones_sum(z)) as nat) as u16,
        ),
    )
}

/// Read the packet an error message carries: its IPv6 header, which must be
/// there whole, and the octets after it.
fn create_packet_from_payload<'a>(payload: Ref<'a>) -> (r: Result<(&'a [u8], Ipv6Repr)>)
    ensures
        r is Ok <==> payload.view_bytes().len() >= 40,
        r matches Ok((d, h)) ==> d@ == payload.view_bytes().subrange(40, payload.view_bytes().len() as int)
            && h == contained_header(payload.view_bytes()),
{
    let len = payload.as_slice().len();
    if len < 40 {
        return Err(Error);
    }
    let ip_packet = Ipv6Packet::new_unchecked(payload);
    let repr = Ipv6Repr {
        src_addr: ip_packet.src_addr(),
        dst_addr: ip_packet.dst_addr(),
        next_header: ip_packet.next_header(),
        payload_len: ip_packet.payload_len() as usize,
        hop_limit: ip_packet.hop_limit(),
    };
    Ok((payload.window(40, len), repr))
}

/// A high-level representation of an Internet Control Message Protocol
/// version 6 packet header.
#[derive(Debug, PartialEq, Eq, Clone, Copy)]
#[non_exhaustive]
pub enum Repr<'a> {
    DstUnreachable { reason: DstUnreachable, header: Ipv6Repr, data: &'a [u8] },
    PktTooBig { mtu: u32, header: Ipv6Repr, data: &'a [u8] },
    TimeExceeded { reason: TimeExceeded, header: Ipv6Repr, data: &'a [u8] },
    ParamProblem { reason: ParamProblem, pointer: u32, header: Ipv6Repr, data: &'a [u8] },
    EchoRequest { ident: u16, seq_no: u16, data: &'a [u8] },
    EchoReply { ident: u16, seq_no: u16, data: &'a [u8] },
    Ndisc(NdiscRepr<'a>),
    Mld(MldRepr<'a>),
}

/// Parsing the message of type `ty` in `s`, between the addresses `src` and
/// `dst`, succeeds: the fixed header fits, the checksum verifies when asked
/// to, and the type and code name a message this representation knows,
/// whose own parse succeeds.
pub open spec fn parse_ok(ty: Message, s: Seq<u8>, src: Seq<u8>, dst: Seq<u8>, verify: bool) -> bool {
    &&& len_ok(ty, s)
    &&& verify ==> checksum_ok(src, dst, s)
    &&& match ty {
        Message::DstUnreachable => s.len() >= 48,
        Message::TimeExceeded => s.len() >= 48,
        Message::ParamProblem => s.len() >= 48,
        Message::PktTooBig => s[1] == 0 && s.len() >= 48,
        Message::EchoRequest => s[1] == 0,
        Message::EchoReply => s[1] == 0,
        Message::MldQuery => s[1] == 0,
        Message::MldReport => s[1] == 0,
        Message::RouterSolicit => s[1] == 0 && crate::ndisc::parse_ok(ty, s),
        Message::RouterAdvert => s[1] == 0 && crate::ndisc::parse_ok(ty, s),
        Message::NeighborSolicit => s[1] == 0 && crate::ndisc::parse_ok(ty, s),
        Message::NeighborAdvert => s[1] == 0 && crate::ndisc::parse_ok(ty, s),
        Message::Redirect => s[1] == 0 && crate::ndisc::parse_ok(ty, s),
        _ => false,
    }
}

impl<'a> Repr<'a> {
    /// This representation is what parsing the message `s` gives, when
    /// parsing succeeds.
    pub open spec fn parsed_from(self, s: Seq<u8>) -> bool {
        let d = after_header(s);
        match self {
            Repr::DstUnreachable { reason, header, data } => s[0] == 1 && reason
                == DstUnreachable::from_raw(s[1]) && header == contained_header(d) && data@ == d.subrange(
                40,
                d.len() as int,
            ),
            Repr::PktTooBig { mtu, header, data } => s[0] == 2 && mtu == be32(s, 4) && header
                == contained_header(d) && data@ == d.subrange(40, d.len() as int),
            Repr::TimeExceeded { reason, header, data } => s[0] == 3 && reason
                == TimeExceeded::from_raw(s[1]) && header == contained_header(d) && data@ == d.subrange(
                40,
                d.len() as int,
            ),
            Repr::ParamProblem { reason, pointer, header, data } => s[0] == 4 && reason
                == ParamProblem::from_raw(s[1]) && pointer == be32(s, 4) && header == contained_header(d)
                && data@ == d.subrange(40, d.len() as int),
            Repr::EchoRequest { ident, seq_no, data } => s[0] == 0x80 && ident == be16(s, 4) && seq_no
                == be16(s, 6) && data@ == d,
            Repr::EchoReply { ident, seq_no, data } => s[0] == 0x81 && ident == be16(s, 4) && seq_no
                == be16(s, 6) && data@ == d,
            Repr::Ndisc(n) => n.parsed_from(s),
            Repr::Mld(m) => m.parsed_from(s),
        }
    }

    /// Parse an Internet Control Message Protocol version 6 packet between
    /// the given addresses and return a high-level representation.
    pub fn parse_ref(
        src_addr: &Ipv6Address,
        dst_addr: &Ipv6Address,
        packet: &Packet<Ref<'a>>,
        checksum_caps: &ChecksumCapabilities,
    ) -> (r: Result<Repr<'a>>)
        ensures
            r is Ok <==> parse_ok(
                packet.ty(),
                packet.data(),
                src_addr@,
                dst_addr@,
                checksum_caps.icmpv6.spec_rx(),
            ),
            r matches Ok(x) ==> x.parsed_from(packet.data().update(0, packet.ty().raw())),
    {
        match packet.checked_len() {
            Ok(_) => {},
            Err(e) => return Err(e),
        }
        if checksum_caps.icmpv6.rx() && !packet.verify_checksum(src_addr, dst_addr) {
            return Err(Error);
        }
        let ghost s = packet.data().update(0, packet.ty().raw());
        proof {
            assert(after_header(s) =~= after_header(packet.data()));
        }
        match (packet.msg_type(), packet.msg_code()) {
            (Message::DstUnreachable, code) => {
                let (payload, repr) = match create_packet_from_payload(Ref::new(packet.payload())) {
                    Ok(x) => x,
                    Err(e) => return Err(e),
                };
                Ok(Repr::DstUnreachable { reason: DstUnreachable::from(code), header: repr, data: payload })
            },
            (Message::PktTooBig, 0) => {
                let (payload, repr) = match create_packet_from_payload(Ref::new(packet.payload())) {
                    Ok(x) => x,
                    Err(e) => return Err(e),
                };
                Ok(Repr::PktTooBig { mtu: packet.pkt_too_big_mtu(), header: repr, data: payload })
            },
            (Message::TimeExceeded, code) => {
                let (payload, repr) = match create_packet_from_payload(Ref::new(packet.payload())) {
                    Ok(x) => x,
                    Err(e) => return Err(e),
                };
                Ok(Repr::TimeExceeded { reason: TimeExceeded::from(code), header: repr, data: payload })
            },
            (Message::ParamProblem, code) => {
                let (payload, repr) = match create_packet_from_payload(Ref::new(packet.payload())) {
                    Ok(x) => x,
                    Err(e) => return Err(e),
                };
                Ok(
                    Repr::ParamProblem {
                        reason: ParamProblem::from(code),
                        pointer: packet.param_problem_ptr(),
                        header: repr,
                        data: payload,
                    },
                )
            },
            (Message::EchoRequest, 0) => Ok(
                Repr::EchoRequest {
                    ident: packet.echo_ident(),
                    seq_no: packet.echo_seq_no(),
                    data: packet.payload(),
                },
            ),
            (Message::EchoReply, 0) => Ok(
                Repr::EchoReply {
                    ident: packet.echo_ident(),
                    seq_no: packet.echo_seq_no(),
                    data: packet.payload(),
                },
            ),
            (msg_type, 0) if msg_type.is_ndisc() => match NdiscRepr::parse(packet) {
                Ok(n) => Ok(Repr::Ndisc(n)),
                Err(e) => Err(e),
            },
            (msg_type, 0) if msg_type.is_mld() => match MldRepr::parse(packet) {
                Ok(m) => Ok(Repr::Mld(m)),
                Err(e) => Err(e),
            },
            _ => Err(Error),
        }
    }
}

/// Write the packet an error message carries after its header: the IPv6
/// header, then as much of the data as fits the smallest MTU.
fn emit_contained_packet<T: BytesMut>(packet: &mut Packet<T>, header: Ipv6Repr, data: &[u8])
    requires
        old(packet).ty().header_len_spec() == 8,
        48 + quoted_len(data@) <= old(packet).data().len(),
    ensures
        final(packet).data() == contained(old(packet).data(), header, data@),
        final(packet).ty() == old(packet).ty(),
{
    let ghost s0 = packet.data();
    let icmp_header_len = packet.header_len();
    let window = vstd::slice::slice_to_vec(
        crate::buf::sub(packet.buffer_ref().as_bytes(), icmp_header_len, IPV6_HEADER_LEN),
    );
    let mut ip_packet = Ipv6Packet::new_unchecked(window);
    header.emit(&mut ip_packet);
    let emitted = ip_packet.into_inner();
    proof {
        Ipv6Address::lemma_view(header.src_addr);
        Ipv6Address::lemma_view(header.dst_addr);
        assert(emitted@ =~= header.header_spec());
    }
    packet.buffer_mut().copy_in(icmp_header_len, emitted.as_slice());
    let room = MAX_ERROR_PACKET_LEN - icmp_header_len - IPV6_HEADER_LEN;
    let payload_len = if data.len() < room {
        data.len()
    } else {
        room
    };
    packet.buffer_mut().copy_in(icmp_header_len + IPV6_HEADER_LEN, crate::buf::prefix(data, payload_len));
}

/// Write as much of an echo message's data as the buffer holds after the
/// header.
fn emit_echo_data<T: BytesMut>(packet: &mut Packet<T>, data: &[u8])
    requires
        old(packet).data().len() >= 8,
    ensures
        final(packet).data() == splice(
            old(packet).data(),
            8,
            data@.subrange(
                0,
                if old(packet).data().len() - 8 < data@.len() {
                    old(packet).data().len() - 8
                } else {
                    data@.len() as int
                },
            ),
        ),
        final(packet).ty() == old(packet).ty(),
{
    let len = packet.buffer_ref().byte_len();
    let room = len - 8;
    let data_len = if room < data.len() {
        room
    } else {
        data.len()
    };
    packet.buffer_mut().copy_in(8, crate::buf::prefix(data, data_len));
}

/// The checksum field is filled in on transmit.
pub open spec fn caps_tx(caps: ChecksumCapabilities) -> bool {
    caps.icmpv6.spec_tx()
}

/// Fill in the checksum when the capabilities ask for it on transmit, and
/// zero it otherwise.
fn finish_checksum<T: BytesMut>(
    packet: &mut Packet<T>,
    src_addr: &Ipv6Address,
    dst_addr: &Ipv6Address,
    checksum_caps: &ChecksumCapabilities,
)
    requires
        old(packet).data().len() >= 4,
    ensures
        final(packet).data() == (if caps_tx(*checksum_caps) {
            with_checksum(put_be16(old(packet).data(), 2, 0), src_addr@, dst_addr@)
        } else {
            put_be16(old(packet).data(), 2, 0)
        }),
        final(packet).ty() == old(packet).ty(),
        caps_tx(*checksum_caps) ==> checksum_ok(src_addr@, dst_addr@, final(packet).data()),
{
    if checksum_caps.icmpv6.tx() {
        packet.fill_checksum(src_addr, dst_addr);
    } else {
        packet.set_checksum(0);
    }
}

impl<'a> Repr<'a> {
    /// The length of the packet this representation is emitted as.
    pub open spec fn buffer_len_spec(self) -> int {
        match self {
            Repr::DstUnreachable { data, .. } => 48 + quoted_len(data@),
            Repr::PktTooBig { data, .. } => 48 + quoted_len(data@),
            Repr::TimeExceeded { data, .. } => 48 + quoted_len(data@),
            Repr::ParamProblem { data, .. } => 48 + quoted_len(data@),
            Repr::EchoRequest { data, .. } => 8 + data@.len() as int,
            Repr::EchoReply { data, .. } => 8 + data@.len() as int,
            Repr::Ndisc(n) => n.buffer_len_spec(),
            Repr::Mld(m) => m.buffer_len_spec(),
        }
    }

    /// Return the length of a packet that will be emitted from this
    /// high-level representation; an error message is cut to fit the
    /// smallest MTU.
    pub fn buffer_len(&self) -> (r: usize)
        requires
            self.buffer_len_spec() <= usize::MAX,
        ensures
            r == self.buffer_len_spec(),
    {
        match *self {
            Repr::DstUnreachable { header, data, .. }
            | Repr::PktTooBig { header, data, .. }
            | Repr::TimeExceeded { header, data, .. }
            | Repr::ParamProblem { header, data, .. } => {
                let fixed = 8 + header.buffer_len();
                if data.len() < MAX_ERROR_PACKET_LEN - fixed {
                    fixed + data.len()
                } else {
                    MAX_ERROR_PACKET_LEN
                }
            },
            Repr::EchoRequest { data, .. } | Repr::EchoReply { data, .. } => 8 + data.len(),
            Repr::Ndisc(ndisc) => ndisc.buffer_len(),
            Repr::Mld(mld) => mld.buffer_len(),
        }
    }

    /// The message type of this representation.
    pub open spec fn msg_type_spec(self) -> Message {
        match self {
            Repr::DstUnreachable { .. } => Message::DstUnreachable,
            Repr::PktTooBig { .. } => Message::PktTooBig,
            Repr::TimeExceeded { .. } => Message::TimeExceeded,
            Repr::ParamProblem { .. } => Message::ParamProblem,
            Repr::EchoRequest { .. } => Message::EchoRequest,
            Repr::EchoReply { .. } => Message::EchoReply,
            Repr::Ndisc(n) => n.msg_type_spec(),
            Repr::Mld(m) => if m is Query {
                Message::MldQuery
            } else {
                Message::MldReport
            },
        }
    }

    /// The representation can be emitted into a buffer of `len` octets: an
    /// error message's header and quoted packet fit, an echo message's
    /// header fits, and a Neighbor Discovery or Multicast Listener Discovery
    /// message can be emitted there.
    pub open spec fn emittable(self, len: int) -> bool {
        match self {
            Repr::DstUnreachable { .. } => self.buffer_len_spec() <= len,
            Repr::PktTooBig { .. } => self.buffer_len_spec() <= len,
            Repr::TimeExceeded { .. } => self.buffer_len_spec() <= len,
            Repr::ParamProblem { .. } => self.buffer_len_spec() <= len,
            Repr::EchoRequest { .. } => 8 <= len,
            Repr::EchoReply { .. } => 8 <= len,
            Repr::Ndisc(n) => n.emittable(len),
            Repr::Mld(m) => m.emittable(len),
        }
    }

    /// `s` with the message written over it, the checksum field as it was.
    pub open spec fn inner_spec(self, s: Seq<u8>) -> Seq<u8> {
        match self {
            Repr::DstUnreachable { reason, header, data } => contained(
                s.update(0, 1u8).update(1, reason.raw()),
                header,
                data@,
            ),
            Repr::PktTooBig { mtu, header, data } => contained(
                put_be32(s.update(0, 2u8).update(1, 0u8), 4, mtu),
                header,
                data@,
            ),
            Repr::TimeExceeded { reason, header, data } => contained(
                s.update(0, 3u8).update(1, reason.raw()),
                header,
                data@,
            ),
            Repr::ParamProblem { reason, pointer, header, data } => contained(
                put_be32(s.update(0, 4u8).update(1, reason.raw()), 4, pointer),
                header,
                data@,
            ),
            Repr::EchoRequest { ident, seq_no, data } => echo_body(s, 0x80, ident, seq_no, data@),
            Repr::EchoReply { ident, seq_no, data } => echo_body(s, 0x81, ident, seq_no, data@),
            Repr::Ndisc(n) => n.emit_spec(s),
            Repr::Mld(m) => m.emit_spec(s),
        }
    }

    /// `s` with the message written over it, the checksum field zero.
    pub open spec fn body_spec(self, s: Seq<u8>) -> Seq<u8> {
        put_be16(self.inner_spec(s), 2, 0)
    }

    /// `s` with the message emitted over it between the given addresses, the
    /// checksum filled in or zero.
    pub open spec fn emit_spec(self, s: Seq<u8>, src: Seq<u8>, dst: Seq<u8>, caps: ChecksumCapabilities) -> Seq<u8> {
        if caps_tx(caps) {
            with_checksum(self.body_spec(s), src, dst)
        } else {
            self.body_spec(s)
        }
    }

    /// Emit a high-level representation into an Internet Control Message
    /// Protocol version 6 packet between the given addresses.
    pub fn emit<T: BytesSliceMut>(
        &self,
        src_addr: &Ipv6Address,
        dst_addr: &Ipv6Address,
        packet: &mut Packet<T>,
        checksum_caps: &ChecksumCapabilities,
    )
        requires
            self.emittable(old(packet).data().len() as int),
        ensures
            final(packet).data() == self.emit_spec(old(packet).data(), src_addr@, dst_addr@, *checksum_caps),
            final(packet).ty() == self.msg_type_spec(),
            caps_tx(*checksum_caps) ==> checksum_ok(src_addr@, dst_addr@, final(packet).data()),
    {
        let ghost s0 = packet.data();
        match *self {
            Repr::DstUnreachable { reason, header, data } => {
                packet.set_msg_type(Message::DstUnreachable);
                packet.set_msg_code(reason.into());
                emit_contained_packet(packet, header, data);
            },
            Repr::PktTooBig { mtu, header, data } => {
                packet.set_msg_type(Message::PktTooBig);
                packet.set_msg_code(0);
                packet.set_pkt_too_big_mtu(mtu);
                proof {
                    crate::buf::lemma_put_halves(s0.update(0, 2u8).update(1, 0u8), 4, mtu);
                }
                emit_contained_packet(packet, header, data);
            },
            Repr::TimeExceeded { reason, header, data } => {
                packet.set_msg_type(Message::TimeExceeded);
                packet.set_msg_code(reason.into());
                emit_contained_packet(packet, header, data);
            },
            Repr::ParamProblem { reason, pointer, header, data } => {
                packet.set_msg_type(Message::ParamProblem);
                packet.set_msg_code(reason.into());
                packet.set_param_problem_ptr(pointer);
                proof {
                    crate::buf::lemma_put_halves(s0.update(0, 4u8).update(1, reason.raw()), 4, pointer);
                }
                emit_contained_packet(packet, header, data);
            },
            Repr::EchoRequest { ident, seq_no, data } => {
                packet.set_msg_type(Message::EchoRequest);
                packet.set_msg_code(0);
                packet.set_echo_ident(ident);
                packet.set_echo_seq_no(seq_no);
                emit_echo_data(packet, data);
            },
            Repr::EchoReply { ident, seq_no, data } => {
                packet.set_msg_type(Message::EchoReply);
                packet.set_msg_code(0);
                packet.set_echo_ident(ident);
                packet.set_echo_seq_no(seq_no);
                emit_echo_data(packet, data);
            },
            Repr::Ndisc(ndisc) => ndisc.emit(packet),
            Repr::Mld(mld) => mld.emit(packet),
        }
        let ghost b = packet.data();
        proof {
            assert(put_be16(b, 2, 0) =~= self.body_spec(s0));
            assert(put_be16(put_be16(b, 2, 0), 2, 0) =~= put_be16(b, 2, 0));
        }
        finish_checksum(packet, src_addr, dst_addr, checksum_caps);
    }
}

/// The checksum is verified on receive.
pub open spec fn caps_rx(caps: ChecksumCapabilities) -> bool {
    caps.icmpv6.spec_rx()
}

/// `t` and `u` differ at most in the checksum field.
pub open spec fn same_but_checksum(t: Seq<u8>, u: Seq<u8>) -> bool {
    &&& t.len() == u.len()
    &&& forall|i: int| 0 <= i < t.len() && i != 2 && i != 3 ==> #[trigger] t[i] == u[i]
}

/// A message whose checksum field is zero, with the checksum written in,
/// verifies, and differs from it only there.
proof fn lemma_with_checksum(z: Seq<u8>, src: Seq<u8>, dst: Seq<u8>)
    requires
        z.len() >= 4,
        z[2] == 0,
        z[3] == 0,
    ensures
        checksum_ok(src, dst, with_checksum(z, src, dst)),
        same_but_checksum(with_checksum(z, src, dst), z),
{
    let p = pseudo_header_v6_spec(src, dst, 0x3a, crate::buf::len32(z));
    assert(put_be16(z, 2, 0) =~= z);
    lemma_fill_with_extra(z, 2, p);
    assert(crate::buf::len32(with_checksum(z, src, dst)) == crate::buf::len32(z));
}

/// What a message parses to does not depend on its checksum field.
proof fn lemma_parsed_ignores_checksum(x: Repr, t: Seq<u8>, u: Seq<u8>)
    requires
        same_but_checksum(t, u),
        len_ok(x.msg_type_spec(), u),
    ensures
        x.parsed_from(t) == x.parsed_from(u),
{
    let n = t.len() as int;
    let h = x.msg_type_spec().header_len_spec();
    assert(after_header(t) =~= after_header(u));
    assert forall|i: int| 0 <= i < h implies t[i] == u[i] || i == 2 || i == 3 by {}
    assert(t.subrange(4, h) =~= u.subrange(4, h));
    match x {
        Repr::Ndisc(nd) => {
            assert(crate::ndisc::options_area(t, h) =~= crate::ndisc::options_area(u, h));
            if h >= 24 {
                assert(t.subrange(8, 24) =~= u.subrange(8, 24));
            }
            if h >= 40 {
                assert(t.subrange(24, 40) =~= u.subrange(24, 40));
            }
        },
        Repr::Mld(m) => {
            if h >= 28 {
                assert(t.subrange(8, 24) =~= u.subrange(8, 24));
                assert(t.subrange(28, n) =~= u.subrange(28, n));
            }
            assert(t.subrange(8, n) =~= u.subrange(8, n));
        },
        _ => {},
    }
}

/// A Neighbor Discovery message parses the same whatever its checksum
/// field holds.
proof fn lemma_ndisc_ok_ignores_checksum(ty: Message, t: Seq<u8>, u: Seq<u8>)
    requires
        same_but_checksum(t, u),
        len_ok(ty, u),
    ensures
        crate::ndisc::parse_ok(ty, t) == crate::ndisc::parse_ok(ty, u),
{
    let h = ty.header_len_spec();
    assert(crate::ndisc::options_area(t, h) =~= crate::ndisc::options_area(u, h));
}

/// An error message emitted into a buffer of just its length quotes back
/// the header and data it was given.
proof fn lemma_contained_back(t1: Seq<u8>, header: Ipv6Repr, data: Seq<u8>)
    requires
        t1.len() == 48 + data.len(),
        data.len() <= 1192,
        header.payload_len < 65536,
        header.next_header.is_canonical(),
    ensures
        contained_header(after_header(contained(t1, header, data))) == header,
        after_header(contained(t1, header, data)).subrange(40, 40 + data.len() as int) == data,
        after_header(contained(t1, header, data)).len() == 40 + data.len(),
        contained(t1, header, data).len() == t1.len(),
        forall|i: int| 0 <= i < 8 ==> #[trigger] contained(t1, header, data)[i] == t1[i],
{
    let t = contained(t1, header, data);
    let d = after_header(t);
    Ipv6Address::lemma_view(header.src_addr);
    Ipv6Address::lemma_view(header.dst_addr);
    assert(d.subrange(8, 24) =~= header.src_addr@);
    assert(d.subrange(24, 40) =~= header.dst_addr@);
    assert(d.subrange(40, 40 + data.len() as int) =~= data);
    assert(be16(d, 4) == header.payload_len);
}

/// A message parses back from what it emits when what it carries is what
/// parsing reads back: an error message's reason and quoted header are
/// canonical, with a payload length its field holds, and its data is not
/// cut; a Neighbor Discovery message parses back; and a Multicast Listener
/// Discovery message is a query or a report of raw records.
pub open spec fn emit_parses_back(r: Repr) -> bool {
    match r {
        Repr::DstUnreachable { reason, header, data } => reason.is_canonical()
            && header.next_header.is_canonical() && header.payload_len < 65536 && data@.len() <= 1192,
        Repr::PktTooBig { header, data, .. } => header.next_header.is_canonical()
            && header.payload_len < 65536 && data@.len() <= 1192,
        Repr::TimeExceeded { reason, header, data } => reason.is_canonical()
            && header.next_header.is_canonical() && header.payload_len < 65536 && data@.len() <= 1192,
        Repr::ParamProblem { reason, header, data, .. } => reason.is_canonical()
            && header.next_header.is_canonical() && header.payload_len < 65536 && data@.len() <= 1192,
        Repr::EchoRequest { .. } => true,
        Repr::EchoReply { .. } => true,
        Repr::Ndisc(n) => crate::ndisc::emit_parses_back(n),
        Repr::Mld(m) => !(m is ReportRecordReprs),
    }
}

/// The octets of a message describe at most one representation: two
/// representations that both are what parsing `s` gives are the same.
pub proof fn lemma_parsed_from_unique(x: Repr, y: Repr, s: Seq<u8>)
    requires
        x.parsed_from(s),
        y.parsed_from(s),
    ensures
        x == y,
{
    match (x, y) {
        (Repr::DstUnreachable { data: a, .. }, Repr::DstUnreachable { data: b, .. }) => {
            assert(a =~= b);
        },
        (Repr::PktTooBig { data: a, .. }, Repr::PktTooBig { data: b, .. }) => {
            assert(a =~= b);
        },
        (Repr::TimeExceeded { data: a, .. }, Repr::TimeExceeded { data: b, .. }) => {
            assert(a =~= b);
        },
        (Repr::ParamProblem { data: a, .. }, Repr::ParamProblem { data: b, .. }) => {
            assert(a =~= b);
        },
        (Repr::EchoRequest { data: a, .. }, Repr::EchoRequest { data: b, .. }) => {
            assert(a =~= b);
        },
        (Repr::EchoReply { data: a, .. }, Repr::EchoReply { data: b, .. }) => {
            assert(a =~= b);
        },
        (Repr::Ndisc(a), Repr::Ndisc(b)) => {
            crate::ndisc::lemma_parsed_from_unique(a, b, s);
        },
        (Repr::Mld(a), Repr::Mld(b)) => {
            crate::mld::lemma_parsed_from_unique(a, b, s);
        },
        _ => {},
    }
}

/// Parsing the message that was emitted, into a buffer of just its length
/// and between the same addresses, gives back the representation, when what
/// it carries parses back and a checksum that is verified on receive was
/// filled in on transmit.
pub proof fn lemma_emit_then_parse(
    r: Repr,
    s: Seq<u8>,
    src: Seq<u8>,
    dst: Seq<u8>,
    caps: ChecksumCapabilities,
)
    requires
        r.emittable(s.len() as int),
        s.len() == r.buffer_len_spec(),
        emit_parses_back(r),
        caps_rx(caps) ==> caps_tx(caps),
    ensures
        r.emit_spec(s, src, dst, caps)[0] == r.msg_type_spec().raw(),
        parse_ok(r.msg_type_spec(), r.emit_spec(s, src, dst, caps), src, dst, caps_rx(caps)),
        r.parsed_from(r.emit_spec(s, src, dst, caps)),
        forall|x: Repr| #[trigger] x.parsed_from(r.emit_spec(s, src, dst, caps)) ==> x == r,
{
    let z = r.body_spec(s);
    let t = r.emit_spec(s, src, dst, caps);
    let u = r.inner_spec(s);
    lemma_emit_inner(r, s);
    assert(z == put_be16(u, 2, 0));
    assert(same_but_checksum(z, u));
    if caps_tx(caps) {
        lemma_with_checksum(z, src, dst);
    }
    assert(same_but_checksum(t, u));
    lemma_parsed_ignores_checksum(r, t, u);
    if r is Ndisc {
        lemma_ndisc_ok_ignores_checksum(r.msg_type_spec(), t, u);
    }
    assert forall|x: Repr| #[trigger] x.parsed_from(t) implies x == r by {
        lemma_parsed_from_unique(x, r, t);
    }
}

/// An echo message written over a buffer of just its length reads back
/// as it was written.
proof fn lemma_echo_body(s: Seq<u8>, ty: u8, ident: u16, seq_no: u16, data: Seq<u8>)
    requires
        s.len() == 8 + data.len(),
    ensures
        echo_body(s, ty, ident, seq_no, data).len() == s.len(),
        echo_body(s, ty, ident, seq_no, data)[0] == ty,
        echo_body(s, ty, ident, seq_no, data)[1] == 0,
        be16(echo_body(s, ty, ident, seq_no, data), 4) == ident,
        be16(echo_body(s, ty, ident, seq_no, data), 6) == seq_no,
        after_header(echo_body(s, ty, ident, seq_no, data)) == data,
{
    let v = put_be16(put_be16(s.update(0, ty).update(1, 0u8), 4, ident), 6, seq_no);
    crate::buf::lemma_be16_put(s.update(0, ty).update(1, 0u8), 4, ident);
    crate::buf::lemma_be16_put(put_be16(s.update(0, ty).update(1, 0u8), 4, ident), 6, seq_no);
    assert(be16(v, 4) == ident);
    let u = echo_body(s, ty, ident, seq_no, data);
    assert(after_header(u) =~= data);
}

/// An error message written over a buffer of just its length, before its
/// checksum field is touched, parses back as the representation.
proof fn lemma_emit_error(r: Repr, s: Seq<u8>)
    requires
        r is DstUnreachable || r is PktTooBig || r is TimeExceeded || r is ParamProblem,
        r.emittable(s.len() as int),
        s.len() == r.buffer_len_spec(),
        emit_parses_back(r),
    ensures
        r.inner_spec(s).len() == s.len(),
        r.inner_spec(s)[0] == r.msg_type_spec().raw(),
        r.parsed_from(r.inner_spec(s)),
        parse_ok(r.msg_type_spec(), r.inner_spec(s), Seq::empty(), Seq::empty(), false),
{
    let u = r.inner_spec(s);
    match r {
        Repr::DstUnreachable { reason, header, data } => {
            lemma_contained_back(s.update(0, 1u8).update(1, reason.raw()), header, data@);
        },
        Repr::PktTooBig { mtu, header, data } => {
            let t1 = put_be32(s.update(0, 2u8).update(1, 0u8), 4, mtu);
            crate::buf::lemma_be32_put(s.update(0, 2u8).update(1, 0u8), 4, mtu);
            lemma_contained_back(t1, header, data@);
            assert(be32(u, 4) == be32(t1, 4));
        },
        Repr::TimeExceeded { reason, header, data } => {
            lemma_contained_back(s.update(0, 3u8).update(1, reason.raw()), header, data@);
        },
        Repr::ParamProblem { reason, pointer, header, data } => {
            let t1 = put_be32(s.update(0, 4u8).update(1, reason.raw()), 4, pointer);
            crate::buf::lemma_be32_put(s.update(0, 4u8).update(1, reason.raw()), 4, pointer);
            lemma_contained_back(t1, header, data@);
            assert(be32(u, 4) == be32(t1, 4));
        },
        _ => {},
    }
}

/// An echo message written over a buffer of just its length parses back
/// as the representation.
proof fn lemma_emit_echo(r: Repr, s: Seq<u8>)
    requires
        r.emittable(s.len() as int),
        s.len() == r.buffer_len_spec(),
        emit_parses_back(r),
        r is EchoRequest || r is EchoReply,
    ensures
        r.inner_spec(s).len() == s.len(),
        r.inner_spec(s)[0] == r.msg_type_spec().raw(),
        r.parsed_from(r.inner_spec(s)),
        parse_ok(r.msg_type_spec(), r.inner_spec(s), Seq::empty(), Seq::empty(), false),
{
    match r {
        Repr::EchoRequest { ident, seq_no, data } => {
            lemma_echo_body(s, 0x80, ident, seq_no, data@);
        },
        Repr::EchoReply { ident, seq_no, data } => {
            lemma_echo_body(s, 0x81, ident, seq_no, data@);
        },
        _ => {},
    }
}

/// A Neighbor Discovery message written over a buffer of just its length
/// parses back as the representation.
proof fn lemma_emit_ndisc(r: Repr, s: Seq<u8>)
    requires
        r.emittable(s.len() as int),
        s.len() == r.buffer_len_spec(),
        emit_parses_back(r),
        r is Ndisc,
    ensures
        r.inner_spec(s).len() == s.len(),
        r.inner_spec(s)[0] == r.msg_type_spec().raw(),
        r.parsed_from(r.inner_spec(s)),
        parse_ok(r.msg_type_spec(), r.inner_spec(s), Seq::empty(), Seq::empty(), false),
{
    crate::ndisc::lemma_emit_then_parse(r->Ndisc_0, s);
}

/// A Multicast Listener Discovery message written over a buffer of just
/// its length parses back as the representation.
proof fn lemma_emit_mld(r: Repr, s: Seq<u8>)
    requires
        r.emittable(s.len() as int),
        s.len() == r.buffer_len_spec(),
        emit_parses_back(r),
        r is Mld,
    ensures
        r.inner_spec(s).len() == s.len(),
        r.inner_spec(s)[0] == r.msg_type_spec().raw(),
        r.parsed_from(r.inner_spec(s)),
        parse_ok(r.msg_type_spec(), r.inner_spec(s), Seq::empty(), Seq::empty(), false),
{
    let m = r->Mld_0;
    crate::mld::lemma_emit_then_parse(m, s);
    if let MldRepr::Query { mcast_addr, .. } = m {
        Ipv6Address::lemma_view(mcast_addr);
    }
    let u = r.inner_spec(s);
    assert(u.len() == s.len());
    assert(u[1] == 0);
}

/// The message written over a buffer of just its length, before its
/// checksum field is touched, parses back as the representation.
proof fn lemma_emit_inner(r: Repr, s: Seq<u8>)
    requires
        r.emittable(s.len() as int),
        s.len() == r.buffer_len_spec(),
        emit_parses_back(r),
    ensures
        r.inner_spec(s).len() == s.len(),
        r.inner_spec(s)[0] == r.msg_type_spec().raw(),
        r.parsed_from(r.inner_spec(s)),
        parse_ok(r.msg_type_spec(), r.inner_spec(s), Seq::empty(), Seq::empty(), false),
{
    if r is EchoRequest || r is EchoReply {
        lemma_emit_echo(r, s);
    } else if r is Ndisc {
        lemma_emit_ndisc(r, s);
    } else if r is Mld {
        lemma_emit_mld(r, s);
    } else {
        lemma_emit_error(r, s);
    }
}

} // verus!
