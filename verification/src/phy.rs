//! Which checksums to compute and verify.

use vstd::prelude::*;

verus! {

/// Whether a checksum is verified on receive, computed on transmit, both, or neither.
#[derive(Debug, Clone, Copy, PartialEq, Eq, Structural)]
pub enum Checksum {
    /// Verify on receive and compute on transmit.
    Both,
    /// Verify on receive only.
    Rx,
    /// Compute on transmit only.
    Tx,
    /// Neither verify nor compute.
    Neither,
}

impl Checksum {
    /// Whether the checksum is verified on receive.
    pub open spec fn spec_rx(self) -> bool {
        self is Both || self is Rx
    }

    /// Whether the checksum is computed on transmit.
    pub open spec fn spec_tx(self) -> bool {
        self is Both || self is Tx
    }

    /// Whether the checksum is verified on receive.
    pub fn rx(&self) -> (r: bool)
        ensures
            r == self.spec_rx(),
    {
        match self {
            Checksum::Both | Checksum::Rx => true,
            _ => false,
        }
    }

    /// Whether the checksum is computed on transmit.
    pub fn tx(&self) -> (r: bool)
        ensures
            r == self.spec_tx(),
    {
        match self {
            Checksum::Both | Checksum::Tx => true,
            _ => false,
        }
    }
}

/// Which checksums the device leaves to software, per protocol.
#[derive(Debug, Clone, Copy, PartialEq, Eq, Structural)]
pub struct ChecksumCapabilities {
    pub ipv4: Checksum,
    pub udp: Checksum,
    pub tcp: Checksum,
    pub icmpv4: Checksum,
    pub icmpv6: Checksum,
}

impl ChecksumCapabilities {
    /// Every checksum is verified and computed in software.
    pub fn default() -> (r: ChecksumCapabilities)
        ensures
            r.ipv4 is Both && r.udp is Both && r.tcp is Both && r.icmpv4 is Both
                && r.icmpv6 is Both,
    {
        ChecksumCapabilities {
            ipv4: Checksum::Both,
            udp: Checksum::Both,
            tcp: Checksum::Both,
            icmpv4: Checksum::Both,
            icmpv6: Checksum::Both,
        }
    }

    /// No checksum is verified or computed.
    pub fn ignored() -> (r: ChecksumCapabilities)
        ensures
            r.ipv4 is Neither && r.udp is Neither && r.tcp is Neither && r.icmpv4 is Neither
                && r.icmpv6 is Neither,
    {
        ChecksumCapabilities {
            ipv4: Checksum::Neither,
            udp: Checksum::Neither,
            tcp: Checksum::Neither,
            icmpv4: Checksum::Neither,
            icmpv6: Checksum::Neither,
        }
    }
}

} // verus!
