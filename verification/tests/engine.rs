use std::collections::HashMap;

use mirage_engine::device::{VirtualWireDevice, WireRxToken, WireTxToken};
use mirage_engine::engine::{Engine, FrameAction};
use mirage_engine::facts::HostFacts;
use mirage_engine::guest;
use mirage_engine::ip::ipv4;
use mirage_engine::materialize::{Materializer, RuleMaterializer};
use mirage_engine::world::WorldState;
use smoltcp::iface::{Config, Interface, SocketSet};
use smoltcp::phy::{ChecksumCapabilities, Device, DeviceCapabilities, Medium, RxToken, TxToken};
use smoltcp::time::Instant;
use smoltcp::wire::{
    ArpOperation, ArpPacket, ArpRepr, EthernetAddress, EthernetFrame, HardwareAddress, Icmpv4Packet,
    Icmpv4Repr, IpAddress, IpCidr, Ipv4Address, Ipv4Packet,
};

struct TestDevice(VirtualWireDevice);

struct TestRx(WireRxToken);

struct TestTx<'a>(WireTxToken<'a>);

impl RxToken for TestRx {
    fn consume<R, F>(self, f: F) -> R
    where
        F: FnOnce(&[u8]) -> R,
    {
        f(self.0.frame())
    }
}

impl<'a> TxToken for TestTx<'a> {
    fn consume<R, F>(self, len: usize, f: F) -> R
    where
        F: FnOnce(&mut [u8]) -> R,
    {
        let mut buf = WireTxToken::frame_buffer(len);
        let r = f(&mut buf);
        self.0.send(buf);
        r
    }
}

impl Device for TestDevice {
    type RxToken<'a> = TestRx;
    type TxToken<'a> = TestTx<'a>;

    fn capabilities(&self) -> DeviceCapabilities {
        let mut caps = DeviceCapabilities::default();
        caps.max_transmission_unit = self.0.mtu();
        caps.medium = Medium::Ethernet;
        caps.checksum = ChecksumCapabilities::ignored();
        caps
    }

    fn receive(&mut self, _t: Instant) -> Option<(Self::RxToken<'_>, Self::TxToken<'_>)> {
        self.0.receive().map(|(rx, tx)| (TestRx(rx), TestTx(tx)))
    }

    fn transmit(&mut self, _t: Instant) -> Option<Self::TxToken<'_>> {
        self.0.transmit().map(TestTx)
    }
}

struct TestHost {
    iface: Interface,
    device: TestDevice,
    sockets: SocketSet<'static>,
}

impl TestHost {
    fn new(facts: &HostFacts, prefix: u8) -> Self {
        let config = Config::new(HardwareAddress::Ethernet(EthernetAddress(facts.mac)));
        let mut device = TestDevice(VirtualWireDevice::new(1500));
        let mut iface = Interface::new(config, &mut device, Instant::now());
        iface.update_ip_addrs(|addrs| {
            addrs
                .push(IpCidr::new(IpAddress::Ipv4(Ipv4Address::from(facts.ip)), prefix))
                .unwrap();
        });
        TestHost { iface, device, sockets: SocketSet::new(vec![]) }
    }

    fn run(&mut self, frame: &[u8]) -> Vec<Vec<u8>> {
        self.device.0.inject(frame.to_vec());
        self.iface.poll(Instant::now(), &mut self.device, &mut self.sockets);
        self.device.0.drain()
    }
}

struct Harness {
    engine: Engine<RuleMaterializer>,
    hosts: HashMap<u32, TestHost>,
}

impl Harness {
    fn handle_frame(&mut self, frame: &[u8]) -> Vec<Vec<u8>> {
        match self.engine.handle_frame(frame) {
            FrameAction::Deliver(ip) => {
                let prefix = self.engine.world.prefix;
                let facts = &self.engine.hosts[&ip];
                let host = self.hosts.entry(ip).or_insert_with(|| TestHost::new(facts, prefix));
                host.run(frame)
            }
            _ => vec![],
        }
    }
}

fn engine() -> Harness {
    let world = WorldState::new(ipv4(10, 23, 0, 0), 16, ipv4(10, 23, 0, 1));
    Harness { engine: Engine::new(world, RuleMaterializer), hosts: HashMap::new() }
}

#[test]
fn arp_for_unknown_ip_materializes_and_replies() {
    let mut e = engine();
    let target = ipv4(10, 23, 7, 7);
    assert!(!e.engine.world.hosts.contains_key(&target));

    let out = e.handle_frame(&guest::arp_request(target));

    assert!(e.engine.world.hosts.contains_key(&target), "host materialized");
    assert!(!out.is_empty(), "ARP reply emitted");
    let eth = EthernetFrame::new_checked(&out[0]).unwrap();
    let arp = ArpPacket::new_checked(eth.payload()).unwrap();
    if let ArpRepr::EthernetIpv4 {
        operation,
        source_protocol_addr,
        target_protocol_addr,
        ..
    } = ArpRepr::parse(&arp).unwrap()
    {
        assert_eq!(operation, ArpOperation::Reply);
        assert_eq!(u32::from(source_protocol_addr), target);
        assert_eq!(u32::from(target_protocol_addr), guest::GUEST_IP);
    } else {
        panic!("expected ARP reply");
    }
}

#[test]
fn ping_replies_from_materialized_source() {
    let mut e = engine();
    let target = ipv4(10, 23, 7, 7);
    e.handle_frame(&guest::arp_request(target));
    let mac = e.engine.world.hosts[&target].mac;

    let out = e.handle_frame(&guest::icmp_echo(mac, target));

    assert!(!out.is_empty(), "echo reply emitted");
    let eth = EthernetFrame::new_checked(&out[0]).unwrap();
    let ip = Ipv4Packet::new_checked(eth.payload()).unwrap();
    assert_eq!(u32::from(ip.src_addr()), target, "reply source = host IP");
    assert_eq!(u32::from(ip.dst_addr()), guest::GUEST_IP);
    let echo = Icmpv4Packet::new_checked(ip.payload()).unwrap();
    let repr = Icmpv4Repr::parse(&echo, &ChecksumCapabilities::ignored()).unwrap();
    assert!(matches!(repr, Icmpv4Repr::EchoReply { .. }));
}

struct Refusing;

impl Materializer for Refusing {
    fn materialize_host(&self, _ip: u32, _world: &WorldState) -> Result<HostFacts, String> {
        Err("no model available".to_string())
    }

    fn materialize_dns(&self, _name: &str, _world: &WorldState) -> Result<u32, String> {
        Err("no model available".to_string())
    }
}

/// Answers every address with the rules' persona of one fixed address.
struct Fixed(u32);

impl Materializer for Fixed {
    fn materialize_host(&self, _ip: u32, world: &WorldState) -> Result<HostFacts, String> {
        RuleMaterializer.materialize_host(self.0, world)
    }

    fn materialize_dns(&self, _name: &str, _world: &WorldState) -> Result<u32, String> {
        Ok(self.0)
    }
}

fn world() -> WorldState {
    WorldState::new(ipv4(10, 23, 0, 0), 16, ipv4(10, 23, 0, 1))
}

#[test]
fn engine_starts_seed_hosts() {
    let e = Engine::new(world(), RuleMaterializer);
    assert_eq!(e.hosts.len(), 1);
    assert!(e.hosts[&ipv4(10, 23, 0, 1)] == e.world.hosts[&ipv4(10, 23, 0, 1)]);
}

#[test]
fn handle_frame_delivers_arp_and_ipv4_to_their_targets() {
    let mut e = Engine::new(world(), RuleMaterializer);
    let target = ipv4(10, 23, 9, 1);
    assert!(matches!(e.handle_frame(&guest::arp_request(target)), FrameAction::Deliver(ip) if ip == target));
    assert!(e.hosts.contains_key(&target));
    assert!(e.world.hosts[&target] == e.hosts[&target]);
    let other = ipv4(10, 23, 9, 2);
    assert!(matches!(e.handle_frame(&guest::icmp_echo([2, 0, 0, 0, 0, 9], other)), FrameAction::Deliver(ip) if ip == other));
    assert_eq!(e.world.hosts.len(), 3);
    assert_eq!(e.hosts.len(), 3);
}

#[test]
fn handle_frame_drops_out_of_subnet_and_malformed_frames() {
    let mut e = Engine::new(world(), RuleMaterializer);
    assert!(matches!(e.handle_frame(&guest::arp_request(ipv4(10, 24, 0, 1))), FrameAction::Drop));
    assert!(matches!(e.handle_frame(&[0u8; 10]), FrameAction::Drop));
    let mut ipv6 = guest::arp_request(ipv4(10, 23, 0, 9));
    ipv6[12] = 0x86;
    ipv6[13] = 0xdd;
    assert!(matches!(e.handle_frame(&ipv6), FrameAction::Drop));
    let short = &guest::arp_request(ipv4(10, 23, 0, 9))[..40];
    assert!(matches!(e.handle_frame(short), FrameAction::Drop));
    assert_eq!(e.world.hosts.len(), 1);
    assert_eq!(e.hosts.len(), 1);
}

#[test]
fn refused_materialization_is_reported_and_changes_nothing() {
    let mut e = Engine::new(world(), Refusing);
    let target = ipv4(10, 23, 7, 7);
    match e.handle_frame(&guest::arp_request(target)) {
        FrameAction::Unavailable { ip, reason } => {
            assert_eq!(ip, target);
            assert_eq!(reason, "no model available");
        }
        _ => panic!("expected the host to be unavailable"),
    }
    assert_eq!(e.world.hosts.len(), 1);
    assert_eq!(e.hosts.len(), 1);
    assert!(e.ensure_host(ipv4(10, 23, 0, 1)).is_ok());
}

#[test]
fn conflicting_materialization_is_refused() {
    let mut e = Engine::new(world(), Fixed(ipv4(10, 23, 0, 1)));
    let err = e.ensure_host(ipv4(10, 23, 5, 5)).unwrap_err();
    assert_eq!(err, "conflict materializing host 10.23.0.1");
    assert!(!e.hosts.contains_key(&ipv4(10, 23, 5, 5)));
    assert_eq!(e.world.hosts.len(), 1);
}

#[test]
fn adopt_host_passes_on_errors_and_admits_facts() {
    let mut e = Engine::new(world(), RuleMaterializer);
    assert_eq!(e.adopt_host(ipv4(10, 23, 4, 4), Err("boom".to_string())), Err("boom".to_string()));
    assert!(!e.hosts.contains_key(&ipv4(10, 23, 4, 4)));
    let f = RuleMaterializer.materialize_host(ipv4(10, 23, 4, 4), &e.world).unwrap();
    assert_eq!(e.adopt_host(ipv4(10, 23, 4, 4), Ok(f.clone())), Ok(()));
    assert!(e.hosts[&ipv4(10, 23, 4, 4)] == f);
    assert!(e.world.hosts[&ipv4(10, 23, 4, 4)] == f);
}

#[test]
fn ensure_host_starts_known_host_without_materializing() {
    let mut w = world();
    let f = RuleMaterializer.materialize_host(ipv4(10, 23, 3, 3), &w).unwrap();
    w.materialize_host(f.clone()).unwrap();
    let mut e = Engine::new(w, Refusing);
    e.hosts.clear();
    assert!(e.ensure_host(ipv4(10, 23, 3, 3)).is_ok());
    assert!(e.hosts[&ipv4(10, 23, 3, 3)] == f);
}

#[test]
fn engines_fed_the_same_frames_agree() {
    let mut a = Engine::new(world(), RuleMaterializer);
    let mut b = Engine::new(world(), RuleMaterializer);
    let frames = vec![
        guest::arp_request(ipv4(10, 23, 7, 7)),
        guest::icmp_echo([0; 6], ipv4(10, 23, 8, 8)),
        guest::arp_request(ipv4(10, 99, 0, 1)),
        guest::arp_request(ipv4(10, 23, 7, 7)),
    ];
    for f in &frames {
        let x = a.handle_frame(f);
        let y = b.handle_frame(f);
        match (x, y) {
            (FrameAction::Drop, FrameAction::Drop) => {}
            (FrameAction::Deliver(p), FrameAction::Deliver(q)) => assert_eq!(p, q),
            _ => panic!("the engines took different actions"),
        }
    }
    assert_eq!(a.world.hosts.len(), 3);
    assert_eq!(b.world.hosts.len(), 3);
    for (ip, f) in a.world.hosts.iter() {
        assert!(b.world.hosts[ip] == *f);
        assert!(b.hosts[ip] == a.hosts[ip]);
    }
    let t = ipv4(10, 23, 7, 7);
    assert_eq!(a.world.hosts[&t].mac, [0x02, 0x4d, 10, 23, 7, 7]);
    assert!(!a.world.hosts.contains_key(&guest::GUEST_IP));
}
