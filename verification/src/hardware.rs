//! Link-layer addresses of any supported medium, as raw octets.

use vstd::prelude::*;
use crate::ethernet::Address as EthernetAddress;

verus! {

broadcast use vstd::array::group_array_axioms;

/// The longest link-layer address of a supported medium.
pub const MAX_HARDWARE_ADDRESS_LEN: usize = 6;

/// A link-layer address of up to [`MAX_HARDWARE_ADDRESS_LEN`] octets, kept as
/// raw octets.
#[derive(Debug, PartialEq, Eq, PartialOrd, Ord, Clone, Copy, Hash)]
pub struct RawHardwareAddress {
    len: u8,
    data: [u8; 6],
}

impl View for RawHardwareAddress {
    type V = Seq<u8>;

    closed spec fn view(&self) -> Seq<u8> {
        self.data@.subrange(0, self.len as int)
    }
}

impl RawHardwareAddress {
    /// The address holds no more octets than it has room for.
    #[verifier::type_invariant]
    pub closed spec fn wf(self) -> bool {
        self.len <= 6
    }

    /// The address whose octets are `s`, for an `s` of at most
    /// [`MAX_HARDWARE_ADDRESS_LEN`] octets; the room after them is zero.
    pub closed spec fn from_seq(s: Seq<u8>) -> RawHardwareAddress {
        RawHardwareAddress {
            len: s.len() as u8,
            data: [
                if s.len() > 0 { s[0] } else { 0 },
                if s.len() > 1 { s[1] } else { 0 },
                if s.len() > 2 { s[2] } else { 0 },
                if s.len() > 3 { s[3] } else { 0 },
                if s.len() > 4 { s[4] } else { 0 },
                if s.len() > 5 { s[5] } else { 0 },
            ],
        }
    }

    /// The address built from at most six octets has those octets.
    pub proof fn lemma_from_seq(s: Seq<u8>)
        requires
            s.len() <= MAX_HARDWARE_ADDRESS_LEN,
        ensures
            RawHardwareAddress::from_seq(s)@ == s,
    {
        assert(RawHardwareAddress::from_seq(s)@ =~= s);
    }

    /// An address that fills its room is the address built from its octets.
    pub proof fn lemma_full(a: RawHardwareAddress)
        requires
            a.wf(),
            a@.len() == MAX_HARDWARE_ADDRESS_LEN,
        ensures
            RawHardwareAddress::from_seq(a@) == a,
    {
        let b = RawHardwareAddress::from_seq(a@);
        assert forall|i: int| 0 <= i < 6 implies b.data[i] == a.data[i] by {
            assert(a@[i] == a.data@[i]);
        }
        assert(b.data =~= a.data);
    }

    /// Create an address from its octets, of which there are at most
    /// [`MAX_HARDWARE_ADDRESS_LEN`].
    pub fn from_bytes(addr: &[u8]) -> (r: RawHardwareAddress)
        requires
            addr@.len() <= MAX_HARDWARE_ADDRESS_LEN,
        ensures
            r@ == addr@,
            r == RawHardwareAddress::from_seq(addr@),
    {
        let mut data = [0u8; 6];
        let n = addr.len();
        let mut i: usize = 0;
        while i < n
            invariant
                n == addr@.len(),
                n <= 6,
                i <= n,
                forall|j: int| 0 <= j < i ==> data@[j] == addr@[j],
                forall|j: int| i <= j < 6 ==> data@[j] == 0,
            decreases n - i,
        {
            data[i] = addr[i];
            i = i + 1;
        }
        let r = RawHardwareAddress { len: n as u8, data };
        assert(r@ =~= addr@);
        assert(r.data@ =~= RawHardwareAddress::from_seq(addr@).data@);
        assert(r.data =~= RawHardwareAddress::from_seq(addr@).data);
        r
    }

    /// The octets of the address.
    pub fn as_bytes(&self) -> (r: &[u8])
        ensures
            r@ == self@,
    {
        proof {
            use_type_invariant(self);
        }
        crate::buf::prefix(self.data.as_slice(), self.len as usize)
    }

    /// The number of octets of the address.
    pub fn len(&self) -> (r: usize)
        ensures
            r == self@.len(),
            r <= MAX_HARDWARE_ADDRESS_LEN,
    {
        proof {
            use_type_invariant(self);
        }
        self.len as usize
    }

    /// Whether the address has no octets.
    pub fn is_empty(&self) -> (r: bool)
        ensures
            r == (self@.len() == 0),
    {
        proof {
            use_type_invariant(self);
        }
        self.len == 0
    }
}

impl From<EthernetAddress> for RawHardwareAddress {
    fn from(addr: EthernetAddress) -> (r: RawHardwareAddress) {
        proof {
            EthernetAddress::lemma_view(addr);
        }
        RawHardwareAddress::from_bytes(addr.as_bytes())
    }
}

impl vstd::std_specs::convert::FromSpecImpl<EthernetAddress> for RawHardwareAddress {
    open spec fn obeys_from_spec() -> bool {
        true
    }

    open spec fn from_spec(addr: EthernetAddress) -> RawHardwareAddress {
        RawHardwareAddress::from_seq(addr@)
    }
}

} // verus!
