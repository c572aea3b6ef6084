use mirage_engine::device::{VirtualWireDevice, WireTxToken};
use mirage_engine::guest::{self, arp_request, eth, icmp_echo, GUEST_IP, GUEST_MAC};
use mirage_engine::ip::ipv4;
use mirage_engine::wire::frame_destination;

#[test]
fn arp_request_is_42_bytes_and_addressed_to_target() {
    let f = arp_request(ipv4(10, 23, 7, 7));
    assert_eq!(f.len(), 42);
    assert_eq!(&f[0..6], &[0xff; 6]);
    assert_eq!(&f[6..12], &GUEST_MAC);
    assert_eq!(&f[12..14], &[0x08, 0x06]);
    assert_eq!(&f[14..22], &[0x00, 0x01, 0x08, 0x00, 6, 4, 0x00, 0x01]);
    assert_eq!(&f[28..32], &[10, 23, 0, 5]);
    assert_eq!(&f[32..38], &[0; 6]);
    assert_eq!(&f[38..42], &[10, 23, 7, 7]);
    assert_eq!(frame_destination(&f), Some(ipv4(10, 23, 7, 7)));
}

#[test]
fn echo_request_layout_and_destination() {
    let f = icmp_echo([2, 0x4d, 10, 23, 7, 7], ipv4(10, 23, 7, 7));
    assert_eq!(f.len(), 14 + 44);
    assert_eq!(&f[0..6], &[2, 0x4d, 10, 23, 7, 7]);
    assert_eq!(&f[12..14], &[0x08, 0x00]);
    assert_eq!(&f[14..18], &[0x45, 0x00, 0, 44]);
    assert_eq!(&f[26..30], &[10, 23, 0, 5]);
    assert_eq!(&f[30..34], &[10, 23, 7, 7]);
    assert_eq!(&f[34..42], &[8, 0, 0, 0, 0x12, 0x34, 0, 1]);
    assert_eq!(&f[42..], b"ping-from-truman");
    assert_eq!(frame_destination(&f), Some(ipv4(10, 23, 7, 7)));
}

#[test]
fn eth_frames_from_guest() {
    let f = eth([1, 2, 3, 4, 5, 6], [0x12, 0x34], &[9, 8, 7]);
    assert_eq!(f, vec![1, 2, 3, 4, 5, 6, 0x52, 0x54, 0x00, 0x12, 0x34, 0x56, 0x12, 0x34, 9, 8, 7]);
    assert_eq!(GUEST_IP, ipv4(10, 23, 0, 5));
    assert_eq!(guest::GUEST_MAC, [0x52, 0x54, 0x00, 0x12, 0x34, 0x56]);
}

#[test]
fn frame_destination_rejects_what_smoltcp_rejects() {
    assert_eq!(frame_destination(&[]), None);
    assert_eq!(frame_destination(&[0u8; 13]), None);
    let arp = arp_request(ipv4(10, 23, 1, 1));
    // truncated ARP
    assert_eq!(frame_destination(&arp[..41]), None);
    // hardware type not Ethernet
    let mut bad = arp.clone();
    bad[15] = 2;
    assert_eq!(frame_destination(&bad), None);
    // unknown EtherType
    let mut other = arp.clone();
    other[13] = 0x07;
    assert_eq!(frame_destination(&other), None);
    // IPv4 total length larger than the buffer
    let mut ping = icmp_echo([0; 6], ipv4(10, 23, 1, 1));
    ping[17] = 60;
    assert_eq!(frame_destination(&ping), None);
    // IPv4 header length below 20 bytes is still read by the check on total length
    let mut tiny = icmp_echo([0; 6], ipv4(10, 23, 1, 1));
    tiny[14] = 0x46;
    assert_eq!(frame_destination(&tiny), Some(ipv4(10, 23, 1, 1)));
    tiny[17] = 20;
    assert_eq!(frame_destination(&tiny), None);
}

#[test]
fn wire_is_first_in_first_out() {
    let mut d = VirtualWireDevice::new(1500);
    assert_eq!(d.mtu(), 1500);
    assert!(d.receive().is_none());
    d.inject(vec![1]);
    d.inject(vec![2, 2]);
    {
        let (rx, tx) = d.receive().unwrap();
        assert_eq!(rx.frame(), &[1]);
        tx.send(vec![9]);
    }
    d.transmit().unwrap().send(vec![8, 8]);
    assert_eq!(d.incoming.len(), 1);
    assert_eq!(d.drain(), vec![vec![9], vec![8, 8]]);
    assert!(d.drain().is_empty());
    assert_eq!(d.receive().unwrap().0.frame(), &[2, 2]);
    assert!(d.receive().is_none());
}

#[test]
fn frame_buffer_is_zeroed() {
    assert_eq!(WireTxToken::frame_buffer(4), vec![0u8; 4]);
    assert!(WireTxToken::frame_buffer(0).is_empty());
}
