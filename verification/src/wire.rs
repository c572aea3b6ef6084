//! Reading the semantic boundary of a frame: which IPv4 address an Ethernet
//! frame is addressed to. The header parsing itself is smoltcp's; the
//! functions here hand it the frame's bytes and state what it gives back.

use smoltcp::wire::{ArpPacket, ArpRepr, EthernetFrame, EthernetProtocol, Ipv4Packet};
use vstd::prelude::*;

use crate::ip::{be16, be32_at};

verus! {

/// The EtherType of a frame, as smoltcp classifies it.
#[derive(Debug, Clone, Copy, PartialEq, Eq)]
pub enum EtherKind {
    Ipv4,
    Arp,
    Ipv6,
    Unknown(u16),
}

/// The classification of a raw EtherType value.
pub open spec fn ether_kind(raw: u16) -> EtherKind {
    if raw == 0x0800 {
        EtherKind::Ipv4
    } else if raw == 0x0806 {
        EtherKind::Arp
    } else if raw == 0x86DD {
        EtherKind::Ipv6
    } else {
        EtherKind::Unknown(raw)
    }
}

/// Whether an ARP packet is long enough for the addresses its own length
/// fields announce.
pub open spec fn arp_len_ok(p: Seq<u8>) -> bool {
    p.len() >= 8 && p.len() >= 8 + 2 * p[4] + 2 * p[5]
}

/// The target protocol address of an Ethernet/IPv4 ARP packet, or `None`
/// when the packet is not one.
pub open spec fn arp_target_spec(p: Seq<u8>) -> Option<u32> {
    if arp_len_ok(p) && be16(p[0], p[1]) == 1 && be16(p[2], p[3]) == 0x0800 && p[4] == 6 && p[5]
        == 4 {
        Some(be32_at(p, 24))
    } else {
        None
    }
}

/// The header length that an IPv4 packet announces.
pub open spec fn ipv4_header_len(p: Seq<u8>) -> int {
    (p[0] % 16) * 4
}

/// Whether an IPv4 packet's length fields are consistent with its buffer.
pub open spec fn ipv4_len_ok(p: Seq<u8>) -> bool {
    &&& p.len() >= 20
    &&& p.len() >= ipv4_header_len(p)
    &&& ipv4_header_len(p) <= be16(p[2], p[3])
    &&& p.len() >= be16(p[2], p[3])
}

/// The IPv4 address a frame is addressed to: the target of an ARP request or
/// the destination of an IPv4 packet; `None` for anything else or anything
/// malformed.
pub open spec fn frame_target(frame: Seq<u8>) -> Option<u32> {
    if frame.len() < 14 {
        None
    } else {
        let payload = frame.skip(14);
        match ether_kind(be16(frame[12], frame[13])) {
            EtherKind::Arp => if arp_len_ok(payload) {
                arp_target_spec(payload)
            } else {
                None
            },
            EtherKind::Ipv4 => if ipv4_len_ok(payload) {
                Some(be32_at(payload, 16))
            } else {
                None
            },
            _ => None,
        }
    }
}

/// `smoltcp::wire::EthernetFrame::new_checked`: it accepts exactly the
/// buffers that hold a full 14-byte header.
#[verifier::external_body]
fn ethernet_check(frame: &[u8]) -> (ok: bool)
    ensures
        ok == (frame@.len() >= 14),
{
    EthernetFrame::new_checked(frame).is_ok()
}

/// `smoltcp::wire::EthernetFrame::ethertype`: it reads bytes 12 and 13 as a
/// big-endian number and classifies it.
#[verifier::external_body]
fn ethernet_ethertype(frame: &[u8]) -> (kind: EtherKind)
    requires
        frame@.len() >= 14,
    ensures
        kind == ether_kind(be16(frame@[12], frame@[13])),
{
    match EthernetFrame::new_unchecked(frame).ethertype() {
        EthernetProtocol::Ipv4 => EtherKind::Ipv4,
        EthernetProtocol::Arp => EtherKind::Arp,
        EthernetProtocol::Ipv6 => EtherKind::Ipv6,
        EthernetProtocol::Unknown(raw) => EtherKind::Unknown(raw),
    }
}

/// `smoltcp::wire::EthernetFrame::payload`: everything after the header.
#[verifier::external_body]
fn ethernet_payload(frame: &[u8]) -> (payload: &[u8])
    requires
        frame@.len() >= 14,
    ensures
        payload@ == frame@.skip(14),
{
    EthernetFrame::new_unchecked(frame).payload()
}

/// `smoltcp::wire::ArpPacket::new_checked`: it accepts the buffers that hold
/// the fixed fields and the addresses whose lengths those fields announce.
#[verifier::external_body]
fn arp_check(packet: &[u8]) -> (ok: bool)
    ensures
        ok == arp_len_ok(packet@),
{
    ArpPacket::new_checked(packet).is_ok()
}

/// `smoltcp::wire::ArpRepr::parse`: it recognizes Ethernet/IPv4 ARP (hardware
/// type 1, protocol type 0x0800, address lengths 6 and 4) and reads the target
/// protocol address from bytes 24 to 27; only that address is handed back.
#[verifier::external_body]
fn arp_target(packet: &[u8]) -> (target: Option<u32>)
    ensures
        target == arp_target_spec(packet@),
{
    match ArpRepr::parse(&ArpPacket::new_unchecked(packet)) {
        Ok(ArpRepr::EthernetIpv4 { target_protocol_addr, .. }) => Some(
            u32::from(target_protocol_addr),
        ),
        _ => None,
    }
}

/// `smoltcp::wire::Ipv4Packet::new_checked`: it accepts the buffers that hold
/// a 20-byte header and are consistent with the header and total lengths.
#[verifier::external_body]
fn ipv4_check(packet: &[u8]) -> (ok: bool)
    ensures
        ok == ipv4_len_ok(packet@),
{
    Ipv4Packet::new_checked(packet).is_ok()
}

/// `smoltcp::wire::Ipv4Packet::dst_addr`: bytes 16 to 19, big-endian.
#[verifier::external_body]
fn ipv4_destination(packet: &[u8]) -> (dst: u32)
    requires
        packet@.len() >= 20,
    ensures
        dst == be32_at(packet@, 16),
{
    u32::from(Ipv4Packet::new_unchecked(packet).dst_addr())
}

/// The IPv4 address a frame is addressed to, as [`frame_target`] states it.
pub fn frame_destination(frame: &[u8]) -> (dst: Option<u32>)
    ensures
        dst == frame_target(frame@),
{
    if !ethernet_check(frame) {
        return None;
    }
    match ethernet_ethertype(frame) {
        EtherKind::Arp => {
            let payload = ethernet_payload(frame);
            if !arp_check(payload) {
                return None;
            }
            arp_target(payload)
        },
        EtherKind::Ipv4 => {
            let payload = ethernet_payload(frame);
            if !ipv4_check(payload) {
                return None;
            }
            Some(ipv4_destination(payload))
        },
        _ => None,
    }
}

} // verus!
