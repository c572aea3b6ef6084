//! Materializers decide what the world should be at a point where it is not
//! yet determined: who answers at an address never seen before, and which
//! address a name never asked for resolves to.
//!
//! They are consulted only on a miss in the world's facts; protocol bytes are
//! never produced by them, always derived from the facts.

use vstd::prelude::*;

use crate::facts::{HostFacts, HostView, ServiceFacts, ServiceView};
use crate::ip::octets_spec;
use crate::text::{dotted, push_dotted};
use crate::world::{
    in_subnet_spec, host_span, lemma_subnet_range, subnet_first, subnet_last, WorldState, WorldView,
};

verus! {

broadcast use vstd::std_specs::hash::group_hash_axioms;

/// A source of new facts for a world.
pub trait Materializer: Send {
    /// Which answers [`Materializer::materialize_host`] may give for `ip` in
    /// `world`. An implementation that does not define it may give any.
    open spec fn host_answer(&self, ip: u32, world: WorldView, r: Result<HostFacts, String>) -> bool {
        true
    }

    /// Produces a persona for an address never seen before.
    fn materialize_host(&self, ip: u32, world: &WorldState) -> (r: Result<HostFacts, String>)
        ensures
            self.host_answer(ip, world@, r),
    ;

    /// Produces the address that a name never seen before resolves to.
    fn materialize_dns(&self, name: &str, world: &WorldState) -> Result<u32, String>;
}

/// A deterministic materializer driven by fixed rules, usable without any
/// model behind it: every address becomes a Linux host with ssh on 22 and
/// http on 80, whose MAC address and name are derived from the address.
pub struct RuleMaterializer;

/// The MAC address derived from an address: `02:4d` followed by its octets.
pub open spec fn rule_mac(ip: u32) -> Seq<u8> {
    seq![0x02u8, 0x4du8] + octets_spec(ip)
}

/// The host name derived from an address: `host-a.b.c.d`.
pub open spec fn rule_hostname(ip: u32) -> Seq<char> {
    seq!['h', 'o', 's', 't', '-'] + dotted(ip)
}

/// The persona the rules give to an address.
pub open spec fn rule_host_facts(ip: u32) -> HostView {
    HostView {
        ip,
        mac: rule_mac(ip),
        hostname: Some(rule_hostname(ip)),
        os: seq!['l', 'i', 'n', 'u', 'x'],
        services: seq![
            ServiceView {
                port: 22,
                proto: seq!['t', 'c', 'p'],
                service: seq!['s', 's', 'h'],
                version: Some(seq!['O', 'p', 'e', 'n', 'S', 'S', 'H', '_', '9', '.', '6']),
            },
            ServiceView {
                port: 80,
                proto: seq!['t', 'c', 'p'],
                service: seq!['h', 't', 't', 'p'],
                version: Some(seq!['n', 'g', 'i', 'n', 'x', '/', '1', '.', '2', '4']),
            },
        ],
    }
}

/// The error text when a subnet has no free address left.
pub open spec fn subnet_exhausted_message() -> Seq<char> {
    seq!['s', 'u', 'b', 'n', 'e', 't', ' ', 'e', 'x', 'h', 'a', 'u', 's', 't', 'e', 'd']
}

impl RuleMaterializer {
    /// The MAC address derived from `ip`.
    pub fn mac_for(ip: u32) -> (mac: [u8; 6])
        ensures
            mac@ == rule_mac(ip),
    {
        let o = crate::ip::octets(ip);
        let mac = [0x02, 0x4d, o[0], o[1], o[2], o[3]];
        assert(mac@ =~= rule_mac(ip));
        mac
    }

    /// The host name derived from `ip`.
    pub fn hostname_for(ip: u32) -> (name: String)
        ensures
            name@ == rule_hostname(ip),
    {
        let mut name = String::from_str("host-");
        proof {
            reveal_strlit("host-");
            assert(name@ =~= seq!['h', 'o', 's', 't', '-']);
        }
        push_dotted(&mut name, ip);
        name
    }
}

/// The network and broadcast addresses of the world's subnet.
fn subnet_bounds(world: &WorldState) -> (r: (u32, u32))
    requires
        world.prefix <= 32,
    ensures
        r.0 == subnet_first(world.net, world.prefix),
        r.1 == subnet_last(world.net, world.prefix),
{
    proof {
        lemma_subnet_range(world.net, world.prefix, 0);
    }
    let s: u64 = (32 - world.prefix) as u64;
    proof {
        vstd::arithmetic::power2::lemma2_to64();
        if s < 32 {
            vstd::arithmetic::power2::lemma_pow2_strictly_increases(s as nat, 32);
        }
        vstd::bits::lemma_u64_shl_is_mul(1, s);
    }
    let d: u64 = 1u64 << s;
    assert(d == host_span(world.prefix));
    let n: u64 = world.net as u64;
    let q: u64 = n / d;
    assert(q * d == subnet_first(world.net, world.prefix));
    let first: u64 = q * d;
    let last: u64 = first + (d - 1);
    (first as u32, last as u32)
}

impl Materializer for RuleMaterializer {
    open spec fn host_answer(&self, ip: u32, world: WorldView, r: Result<HostFacts, String>) -> bool {
        r matches Ok(f) && f@ == rule_host_facts(ip)
    }

    fn materialize_host(&self, ip: u32, world: &WorldState) -> (r: Result<HostFacts, String>)
        ensures
            r matches Ok(f) && f@ == rule_host_facts(ip),
    {
        let tcp1 = String::from_str("tcp");
        let ssh = String::from_str("ssh");
        let openssh = String::from_str("OpenSSH_9.6");
        let tcp2 = String::from_str("tcp");
        let http = String::from_str("http");
        let nginx = String::from_str("nginx/1.24");
        let linux = String::from_str("linux");
        proof {
            reveal_strlit("tcp");
            reveal_strlit("ssh");
            reveal_strlit("OpenSSH_9.6");
            reveal_strlit("http");
            reveal_strlit("nginx/1.24");
            reveal_strlit("linux");
            assert(tcp1@ =~= seq!['t', 'c', 'p']);
            assert(tcp2@ =~= seq!['t', 'c', 'p']);
            assert(ssh@ =~= seq!['s', 's', 'h']);
            assert(http@ =~= seq!['h', 't', 't', 'p']);
            assert(openssh@ =~= seq!['O', 'p', 'e', 'n', 'S', 'S', 'H', '_', '9', '.', '6']);
            assert(nginx@ =~= seq!['n', 'g', 'i', 'n', 'x', '/', '1', '.', '2', '4']);
            assert(linux@ =~= seq!['l', 'i', 'n', 'u', 'x']);
        }
        let mut services: Vec<ServiceFacts> = Vec::new();
        services.push(ServiceFacts { port: 22, proto: tcp1, service: ssh, version: Some(openssh) });
        services.push(ServiceFacts { port: 80, proto: tcp2, service: http, version: Some(nginx) });
        let f = HostFacts {
            ip,
            mac: Self::mac_for(ip),
            hostname: Some(Self::hostname_for(ip)),
            os: linux,
            services,
        };
        assert(f@.services =~= rule_host_facts(ip).services);
        Ok(f)
    }

    /// Hands out the next free address of the subnet, counting up from two
    /// past the world's base address and stopping before the broadcast
    /// address. A prefix longer than 32 bits leaves no address to hand out.
    fn materialize_dns(&self, name: &str, world: &WorldState) -> (r: Result<u32, String>)
        ensures
            r matches Ok(ip) ==> {
                &&& world.prefix <= 32
                &&& world.net + 2 <= ip < subnet_last(world.net, world.prefix)
                &&& in_subnet_spec(world.net, world.prefix, ip)
                &&& !world@.hosts.contains_key(ip)
                &&& forall|j: int|
                    world.net + 2 <= j < ip ==> #[trigger] world@.hosts.contains_key(j as u32)
            },
            r matches Err(e) ==> {
                &&& e@ == subnet_exhausted_message()
                &&& world.prefix <= 32 ==> forall|j: int|
                    world.net + 2 <= j < subnet_last(world.net, world.prefix)
                        ==> #[trigger] world@.hosts.contains_key(j as u32)
            },
    {
        proof {
            reveal_strlit("subnet exhausted");
        }
        if world.prefix > 32 {
            let e = String::from_str("subnet exhausted");
            assert(e@ =~= subnet_exhausted_message());
            return Err(e);
        }
        let (_first, last) = subnet_bounds(world);
        proof {
            lemma_subnet_range(world.net, world.prefix, 0);
        }
        let mut c: u64 = world.net as u64 + 2;
        while c < last as u64
            invariant
                world.net + 2 <= c,
                world.prefix <= 32,
                last == subnet_last(world.net, world.prefix),
                subnet_first(world.net, world.prefix) <= world.net,
                last < 0x1_0000_0000,
                forall|j: int|
                    world.net + 2 <= j < c ==> #[trigger] world@.hosts.contains_key(j as u32),
            decreases last - c,
        {
            let ip = c as u32;
            if !world.hosts.contains_key(&ip) {
                proof {
                    lemma_subnet_range(world.net, world.prefix, ip);
                }
                return Ok(ip);
            }
            c = c + 1;
        }
        let e = String::from_str("subnet exhausted");
        assert(e@ =~= subnet_exhausted_message());
        Err(e)
    }
}

} // verus!
