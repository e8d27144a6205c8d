//! Verified readers and writers for the link-, network- and control-layer
//! wire formats of a small TCP/IP stack: Ethernet II, ARP, IPv4, ICMPv4, IGMP,
//! the IPv6 extension headers and options, MLDv2, NDISC and ICMPv6.
//!
//! Every packet wrapper reads and writes its fields straight from a byte
//! buffer, and every contract is stated over the buffer's contents as a
//! `Seq<u8>`.

pub mod error;
pub mod buf;
pub mod checksum;
pub mod phy;
pub mod ip;
pub mod ethernet;
pub mod hardware;
pub mod ipv4;
pub mod ipv6;
pub mod arp;
pub mod icmpv4;
pub mod time;
pub mod igmp;
pub mod ipv6ext_header;
pub mod ipv6option;
pub mod ipv6routing;
pub mod ipv6hbh;
pub mod icmpv6;
pub mod mld;
pub mod ndiscoption;
pub mod ndisc;
