use mirage_engine::facts::{HostFacts, ServiceFacts};
use mirage_engine::ip::{ipv4, octets};
use mirage_engine::materialize::{Materializer, RuleMaterializer};
use mirage_engine::world::WorldState;

fn world() -> WorldState {
    WorldState::new(ipv4(10, 23, 0, 0), 16, ipv4(10, 23, 0, 1))
}

#[test]
fn world_materialize_is_monotonic() {
    let mut w = WorldState::new(ipv4(10, 23, 0, 0), 16, ipv4(10, 23, 0, 1));
    let ip = ipv4(10, 23, 7, 7);
    let f = RuleMaterializer.materialize_host(ip, &w).unwrap();
    assert!(w.materialize_host(f.clone()).is_ok());
    assert!(w.materialize_host(f.clone()).is_ok(), "幂等");
    let mut g = f.clone();
    g.os = "windows".into();
    assert!(w.materialize_host(g).is_err(), "冲突应被拒绝");
}

#[test]
fn new_world_holds_only_the_gateway() {
    let w = world();
    assert_eq!(w.net, 0x0a17_0000);
    assert_eq!(w.prefix, 16);
    assert_eq!(w.gateway, Some(0x0a17_0001));
    assert_eq!(w.hosts.len(), 1);
    let gw = &w.hosts[&0x0a17_0001];
    assert_eq!(gw.ip, 0x0a17_0001);
    assert_eq!(gw.mac, [0x02, 0x00, 0x00, 0x00, 0x00, 0x01]);
    assert_eq!(gw.hostname.as_deref(), Some("gw"));
    assert_eq!(gw.os, "linux");
    assert_eq!(gw.services.len(), 1);
    assert_eq!(gw.services[0].port, 53);
    assert_eq!(gw.services[0].proto, "udp");
    assert_eq!(gw.services[0].service, "dns");
    assert_eq!(gw.services[0].version, None);
    assert!(w.dns.is_empty());
}

#[test]
fn materialize_host_conflict_keeps_first_facts_and_reports_address() {
    let mut w = world();
    let ip = ipv4(10, 23, 7, 7);
    let f = RuleMaterializer.materialize_host(ip, &w).unwrap();
    w.materialize_host(f.clone()).unwrap();
    let mut g = f.clone();
    g.hostname = None;
    let e = w.materialize_host(g).unwrap_err();
    assert_eq!(e, "conflict materializing host 10.23.7.7");
    assert!(w.hosts[&ip] == f);
    assert_eq!(w.hosts.len(), 2);
}

#[test]
fn materialize_host_conflict_on_gateway_is_refused() {
    let mut w = world();
    let f = RuleMaterializer.materialize_host(ipv4(10, 23, 0, 1), &w).unwrap();
    let e = w.materialize_host(f).unwrap_err();
    assert_eq!(e, "conflict materializing host 10.23.0.1");
    assert_eq!(w.hosts[&ipv4(10, 23, 0, 1)].hostname.as_deref(), Some("gw"));
}

#[test]
fn materialize_dns_is_monotonic() {
    let mut w = world();
    assert!(w.materialize_dns("example.com", ipv4(10, 23, 0, 9)).is_ok());
    assert!(w.materialize_dns("example.com", ipv4(10, 23, 0, 9)).is_ok());
    let e = w.materialize_dns("example.com", ipv4(10, 23, 0, 10)).unwrap_err();
    assert_eq!(e, "conflict materializing dns example.com");
    assert_eq!(w.dns.get("example.com"), Some(&ipv4(10, 23, 0, 9)));
    assert!(w.materialize_dns("other.org", ipv4(10, 23, 0, 10)).is_ok());
    assert_eq!(w.dns.len(), 2);
}

#[test]
fn in_subnet_follows_prefix() {
    let w = world();
    assert!(w.in_subnet(ipv4(10, 23, 0, 0)));
    assert!(w.in_subnet(ipv4(10, 23, 255, 255)));
    assert!(w.in_subnet(ipv4(10, 23, 7, 7)));
    assert!(!w.in_subnet(ipv4(10, 24, 0, 1)));
    assert!(!w.in_subnet(ipv4(192, 168, 1, 1)));

    let all = WorldState::new(0, 0, 1);
    assert!(all.in_subnet(ipv4(255, 255, 255, 255)));
    assert!(all.in_subnet(0));

    let one = WorldState::new(ipv4(10, 0, 0, 7), 32, ipv4(10, 0, 0, 7));
    assert!(one.in_subnet(ipv4(10, 0, 0, 7)));
    assert!(!one.in_subnet(ipv4(10, 0, 0, 6)));

    let odd = WorldState::new(ipv4(192, 168, 4, 0), 22, ipv4(192, 168, 4, 1));
    assert!(odd.in_subnet(ipv4(192, 168, 7, 200)));
    assert!(!odd.in_subnet(ipv4(192, 168, 8, 0)));
}

#[test]
fn rule_materializer_persona() {
    let w = world();
    let ip = ipv4(10, 23, 7, 7);
    let f = RuleMaterializer.materialize_host(ip, &w).unwrap();
    assert_eq!(f.ip, ip);
    assert_eq!(f.mac, [0x02, 0x4d, 10, 23, 7, 7]);
    assert_eq!(f.hostname.as_deref(), Some("host-10.23.7.7"));
    assert_eq!(f.os, "linux");
    assert_eq!(f.services.len(), 2);
    assert_eq!(f.services[0].port, 22);
    assert_eq!(f.services[0].proto, "tcp");
    assert_eq!(f.services[0].service, "ssh");
    assert_eq!(f.services[0].version.as_deref(), Some("OpenSSH_9.6"));
    assert_eq!(f.services[1].port, 80);
    assert_eq!(f.services[1].proto, "tcp");
    assert_eq!(f.services[1].service, "http");
    assert_eq!(f.services[1].version.as_deref(), Some("nginx/1.24"));
    assert_eq!(RuleMaterializer::mac_for(ipv4(192, 168, 100, 254)), [0x02, 0x4d, 192, 168, 100, 254]);
    assert_eq!(RuleMaterializer::hostname_for(ipv4(0, 8, 100, 254)), "host-0.8.100.254");
}

#[test]
fn rule_materializer_is_deterministic() {
    let w = world();
    let a = RuleMaterializer.materialize_host(ipv4(10, 23, 1, 2), &w).unwrap();
    let b = RuleMaterializer.materialize_host(ipv4(10, 23, 1, 2), &w).unwrap();
    let c = RuleMaterializer.materialize_host(ipv4(10, 23, 1, 3), &w).unwrap();
    assert!(a == b);
    assert!(a != c);
    assert_ne!(a.mac, c.mac);
}

#[test]
fn rule_dns_picks_first_free_address() {
    let mut w = world();
    assert_eq!(RuleMaterializer.materialize_dns("a.example", &w), Ok(ipv4(10, 23, 0, 2)));
    let f = RuleMaterializer.materialize_host(ipv4(10, 23, 0, 2), &w).unwrap();
    w.materialize_host(f).unwrap();
    assert_eq!(RuleMaterializer.materialize_dns("a.example", &w), Ok(ipv4(10, 23, 0, 3)));
}

#[test]
fn rule_dns_reports_exhausted_subnet() {
    let mut w = WorldState::new(ipv4(10, 23, 9, 0), 24, ipv4(10, 23, 9, 1));
    for i in 2u8..255 {
        let f = RuleMaterializer.materialize_host(ipv4(10, 23, 9, i), &w).unwrap();
        w.materialize_host(f).unwrap();
    }
    assert_eq!(
        RuleMaterializer.materialize_dns("full.example", &w),
        Err("subnet exhausted".to_string())
    );
}

#[test]
fn rule_dns_stays_inside_the_subnet() {
    // A /31 has no address besides its network and broadcast addresses.
    let w = WorldState::new(ipv4(10, 23, 9, 0), 31, ipv4(10, 23, 9, 1));
    assert_eq!(
        RuleMaterializer.materialize_dns("a.example", &w),
        Err("subnet exhausted".to_string())
    );
    // A /30 offers two past its base: 10.23.9.2 is the one before broadcast.
    let w = WorldState::new(ipv4(10, 23, 9, 0), 30, ipv4(10, 23, 9, 1));
    assert_eq!(RuleMaterializer.materialize_dns("a.example", &w), Ok(ipv4(10, 23, 9, 2)));
    // Counting starts two past the base address as given.
    let w = WorldState::new(ipv4(10, 23, 5, 9), 16, ipv4(10, 23, 0, 1));
    assert_eq!(RuleMaterializer.materialize_dns("a.example", &w), Ok(ipv4(10, 23, 5, 11)));
    let w = WorldState::new(ipv4(192, 168, 1, 0), 24, ipv4(192, 168, 1, 254));
    assert_eq!(RuleMaterializer.materialize_dns("a.example", &w), Ok(ipv4(192, 168, 1, 2)));
    // A prefix longer than 32 bits leaves nothing to hand out.
    let w = WorldState::new(ipv4(10, 23, 9, 0), 40, ipv4(10, 23, 9, 1));
    assert_eq!(
        RuleMaterializer.materialize_dns("a.example", &w),
        Err("subnet exhausted".to_string())
    );
}

#[test]
fn rule_dns_uses_the_whole_range() {
    let mut w = world();
    for i in 2u8..254 {
        let f = RuleMaterializer.materialize_host(ipv4(10, 23, 0, i), &w).unwrap();
        w.materialize_host(f).unwrap();
    }
    assert_eq!(RuleMaterializer.materialize_dns("a.example", &w), Ok(ipv4(10, 23, 0, 254)));
    let f = RuleMaterializer.materialize_host(ipv4(10, 23, 0, 254), &w).unwrap();
    w.materialize_host(f).unwrap();
    assert_eq!(RuleMaterializer.materialize_dns("a.example", &w), Ok(ipv4(10, 23, 0, 255)));
}

#[test]
fn facts_equality_compares_every_field() {
    let w = world();
    let f = RuleMaterializer.materialize_host(ipv4(10, 23, 7, 7), &w).unwrap();
    let mut g = f.clone();
    assert!(f == g);
    g.services[1].version = Some("nginx/1.25".to_string());
    assert!(f != g);
    let mut h = f.clone();
    h.services.push(ServiceFacts {
        port: 443,
        proto: "tcp".to_string(),
        service: "https".to_string(),
        version: None,
    });
    assert!(f != h);
    let mut m = f.clone();
    m.mac[5] = 8;
    assert!(f != m);
    let copy: HostFacts = f.clone();
    assert!(copy.same_as(&f));
}

#[test]
fn octets_and_ipv4_roundtrip() {
    assert_eq!(ipv4(10, 23, 7, 7), 0x0a17_0707);
    assert_eq!(octets(0x0a17_0707), [10, 23, 7, 7]);
    assert_eq!(octets(ipv4(255, 0, 128, 1)), [255, 0, 128, 1]);
}

#[test]
fn subnet_membership_widens_with_shorter_prefix() {
    let ip = ipv4(10, 23, 200, 3);
    let long = WorldState::new(ipv4(10, 23, 200, 0), 24, ipv4(10, 23, 200, 1));
    let short = WorldState::new(ipv4(10, 23, 200, 0), 16, ipv4(10, 23, 200, 1));
    assert!(long.in_subnet(ip));
    assert!(short.in_subnet(ip));
    let outside = ipv4(10, 23, 9, 3);
    assert!(!long.in_subnet(outside));
    assert!(short.in_subnet(outside));
    assert!(long.in_subnet(long.net));
}
