//! Frames as the guest sends them: the client machine at the centre of the
//! simulated world. They are written out byte by byte.

use vstd::prelude::*;

use crate::ip::octets_spec;

verus! {

/// The guest's MAC address, 52:54:00:12:34:56.
pub const GUEST_MAC: [u8; 6] = [0x52, 0x54, 0x00, 0x12, 0x34, 0x56];

/// The guest's address, 10.23.0.5.
pub const GUEST_IP: u32 = 0x0a17_0005;

const ETHERTYPE_ARP: [u8; 2] = [0x08, 0x06];

const ETHERTYPE_IPV4: [u8; 2] = [0x08, 0x00];

/// The guest's MAC address as a sequence.
pub open spec fn guest_mac() -> Seq<u8> {
    seq![0x52u8, 0x54, 0x00, 0x12, 0x34, 0x56]
}

/// An Ethernet II frame from the guest: destination, the guest as source,
/// EtherType, payload.
pub open spec fn eth_frame(dst: Seq<u8>, ethertype: Seq<u8>, payload: Seq<u8>) -> Seq<u8> {
    dst + guest_mac() + ethertype + payload
}

/// The ARP payload of a request from the guest asking who has `target`.
pub open spec fn arp_request_payload(target: u32) -> Seq<u8> {
    seq![0x00u8, 0x01, 0x08, 0x00, 6, 4, 0x00, 0x01] + guest_mac() + octets_spec(GUEST_IP) + seq![
        0u8,
        0,
        0,
        0,
        0,
        0,
    ] + octets_spec(target)
}

/// The broadcast ARP request frame from the guest asking who has `target`.
pub open spec fn arp_request_frame(target: u32) -> Seq<u8> {
    eth_frame(seq![0xffu8, 0xff, 0xff, 0xff, 0xff, 0xff], seq![0x08u8, 0x06], arp_request_payload(target))
}

/// The text the guest's echo requests carry: `ping-from-truman`.
pub open spec fn ping_text() -> Seq<u8> {
    seq![0x70u8, 0x69, 0x6e, 0x67, 0x2d, 0x66, 0x72, 0x6f, 0x6d, 0x2d, 0x74, 0x72, 0x75, 0x6d, 0x61, 0x6e]
}

/// The ICMP echo request the guest sends: identifier 0x1234, sequence 1, a
/// zero checksum.
pub open spec fn icmp_echo_message() -> Seq<u8> {
    seq![8u8, 0, 0x00, 0x00, 0x12, 0x34, 0x00, 0x01] + ping_text()
}

/// The IPv4 packet carrying the guest's echo request to `dst_ip`: header
/// length 20, total length 44, don't-fragment, TTL 64, protocol ICMP, a zero
/// checksum.
pub open spec fn icmp_echo_packet(dst_ip: u32) -> Seq<u8> {
    seq![0x45u8, 0x00, 0, 44, 0x00, 0x00, 0x40, 0x00, 64, 1, 0x00, 0x00] + octets_spec(GUEST_IP)
        + octets_spec(dst_ip) + icmp_echo_message()
}

/// The frame carrying the guest's echo request to `dst_mac`/`dst_ip`.
pub open spec fn icmp_echo_frame(dst_mac: Seq<u8>, dst_ip: u32) -> Seq<u8> {
    eth_frame(dst_mac, seq![0x08u8, 0x00], icmp_echo_packet(dst_ip))
}

fn append_bytes(v: &mut Vec<u8>, s: &[u8])
    ensures
        final(v)@ == old(v)@ + s@,
{
    let mut i: usize = 0;
    while i < s.len()
        invariant
            i <= s@.len(),
            v@ == old(v)@ + s@.subrange(0, i as int),
        decreases s@.len() - i,
    {
        v.push(s[i]);
        i = i + 1;
        assert(v@ =~= old(v)@ + s@.subrange(0, i as int));
    }
    assert(s@.subrange(0, i as int) =~= s@);
}

fn be16_bytes(n: usize) -> (b: [u8; 2])
    requires
        n < 0x1_0000,
    ensures
        b@ == seq![(n / 256) as u8, (n % 256) as u8],
{
    let b = [(n / 256) as u8, (n % 256) as u8];
    assert(b@ =~= seq![(n / 256) as u8, (n % 256) as u8]);
    b
}

/// An Ethernet II frame from the guest to `dst`.
pub fn eth(dst: [u8; 6], ethertype: [u8; 2], payload: &[u8]) -> (frame: Vec<u8>)
    ensures
        frame@ == eth_frame(dst@, ethertype@, payload@),
{
    let mut v = Vec::new();
    append_bytes(&mut v, &dst);
    append_bytes(&mut v, &GUEST_MAC);
    append_bytes(&mut v, &ethertype);
    append_bytes(&mut v, payload);
    assert(GUEST_MAC@ =~= guest_mac());
    assert(v@ =~= eth_frame(dst@, ethertype@, payload@));
    v
}

/// The broadcast ARP request "who has `target`?" from the guest; 42 bytes.
pub fn arp_request(target: u32) -> (frame: Vec<u8>)
    ensures
        frame@ == arp_request_frame(target),
        frame@.len() == 42,
{
    let mut arp = Vec::new();
    append_bytes(&mut arp, &[0x00, 0x01]);
    append_bytes(&mut arp, &[0x08, 0x00]);
    arp.push(6);
    arp.push(4);
    append_bytes(&mut arp, &[0x00, 0x01]);
    append_bytes(&mut arp, &GUEST_MAC);
    append_bytes(&mut arp, &crate::ip::octets(GUEST_IP));
    append_bytes(&mut arp, &[0u8; 6]);
    append_bytes(&mut arp, &crate::ip::octets(target));
    assert(GUEST_MAC@ =~= guest_mac());
    assert(arp@ =~= arp_request_payload(target));
    let frame = eth([0xff; 6], ETHERTYPE_ARP, arp.as_slice());
    assert(frame@ =~= arp_request_frame(target));
    frame
}

/// An ICMP echo request (ping) from the guest to `dst_mac`/`dst_ip`. The
/// checksums are left zero: the receiving device does not check them.
pub fn icmp_echo(dst_mac: [u8; 6], dst_ip: u32) -> (frame: Vec<u8>)
    ensures
        frame@ == icmp_echo_frame(dst_mac@, dst_ip),
{
    let mut echo = Vec::new();
    echo.push(8);
    echo.push(0);
    append_bytes(&mut echo, &[0x00, 0x00]);
    append_bytes(&mut echo, &[0x12, 0x34]);
    append_bytes(&mut echo, &[0x00, 0x01]);
    append_bytes(
        &mut echo,
        &[0x70, 0x69, 0x6e, 0x67, 0x2d, 0x66, 0x72, 0x6f, 0x6d, 0x2d, 0x74, 0x72, 0x75, 0x6d, 0x61, 0x6e],
    );
    assert(echo@ =~= icmp_echo_message());
    let total: usize = 20 + echo.len();
    let mut ip = Vec::new();
    ip.push(0x45);
    ip.push(0x00);
    append_bytes(&mut ip, &be16_bytes(total));
    append_bytes(&mut ip, &[0x00, 0x00]);
    append_bytes(&mut ip, &[0x40, 0x00]);
    ip.push(64);
    ip.push(1);
    append_bytes(&mut ip, &[0x00, 0x00]);
    append_bytes(&mut ip, &crate::ip::octets(GUEST_IP));
    append_bytes(&mut ip, &crate::ip::octets(dst_ip));
    append_bytes(&mut ip, echo.as_slice());
    assert(ip@ =~= icmp_echo_packet(dst_ip));
    let frame = eth(dst_mac, ETHERTYPE_IPV4, ip.as_slice());
    frame
}

} // verus!
