//! The world: an append-only store of semantic facts.
//!
//! Only semantic facts are kept here, never protocol bytes. Once a fact is
//! materialized it is immutable; materializing a different fact for the same
//! key is refused. That monotonicity is what keeps every protocol's view of
//! the world consistent with every other's.

use std::collections::HashMap;

use vstd::arithmetic::power2::pow2;
use vstd::hash_map::StringHashMap;
use vstd::prelude::*;

use crate::facts::{HostFacts, HostView, ServiceFacts, ServiceView};
use crate::text::{dotted, push_dotted};

verus! {

broadcast use vstd::std_specs::hash::group_hash_axioms;

/// The mathematical content of a [`WorldState`].
pub struct WorldView {
    pub net: u32,
    pub prefix: u8,
    pub gateway: Option<u32>,
    pub hosts: Map<u32, HostView>,
    pub dns: Map<Seq<char>, u32>,
}

/// The views of a map of host facts.
pub open spec fn hosts_view(m: Map<u32, HostFacts>) -> Map<u32, HostView> {
    m.map_values(|f: HostFacts| f@)
}

/// The subnet's state: its address range, its gateway, the hosts that exist
/// in it and the names that resolve in it.
pub struct WorldState {
    /// The subnet's base address, such as 10.23.0.0.
    pub net: u32,
    /// The prefix length, such as 16.
    pub prefix: u8,
    pub gateway: Option<u32>,
    pub hosts: HashMap<u32, HostFacts>,
    pub dns: StringHashMap<u32>,
}

impl View for WorldState {
    type V = WorldView;

    open spec fn view(&self) -> WorldView {
        WorldView {
            net: self.net,
            prefix: self.prefix,
            gateway: self.gateway,
            hosts: hosts_view(self.hosts@),
            dns: self.dns@,
        }
    }
}

/// The store after materializing `f`: unchanged when the same facts are
/// already there, grown by `f` when its address is new, and `None` when the
/// address already holds different facts.
pub open spec fn admit_host(hosts: Map<u32, HostView>, f: HostView) -> Option<Map<u32, HostView>> {
    if hosts.contains_key(f.ip) {
        if hosts[f.ip] == f {
            Some(hosts)
        } else {
            None
        }
    } else {
        Some(hosts.insert(f.ip, f))
    }
}

/// The name table after binding `name` to `ip`: unchanged when that binding
/// is already there, grown when the name is new, `None` when the name is
/// already bound to another address.
pub open spec fn admit_dns(dns: Map<Seq<char>, u32>, name: Seq<char>, ip: u32) -> Option<
    Map<Seq<char>, u32>,
> {
    if dns.contains_key(name) {
        if dns[name] == ip {
            Some(dns)
        } else {
            None
        }
    } else {
        Some(dns.insert(name, ip))
    }
}

/// The error text for a host conflict.
pub open spec fn host_conflict_message(ip: u32) -> Seq<char> {
    seq!['c', 'o', 'n', 'f', 'l', 'i', 'c', 't', ' ', 'm', 'a', 't', 'e', 'r', 'i', 'a', 'l', 'i', 'z', 'i', 'n', 'g', ' ', 'h', 'o', 's', 't', ' ']
        + dotted(ip)
}

/// The error text for a name conflict.
pub open spec fn dns_conflict_message(name: Seq<char>) -> Seq<char> {
    seq!['c', 'o', 'n', 'f', 'l', 'i', 'c', 't', ' ', 'm', 'a', 't', 'e', 'r', 'i', 'a', 'l', 'i', 'z', 'i', 'n', 'g', ' ', 'd', 'n', 's', ' ']
        + name
}

/// Whether `ip` lies in the subnet `net/prefix`: the two addresses agree on
/// their top `prefix` bits.
pub open spec fn in_subnet_spec(net: u32, prefix: u8, ip: u32) -> bool
    recommends
        prefix <= 32,
{
    net as nat / pow2((32 - prefix) as nat) == ip as nat / pow2((32 - prefix) as nat)
}

/// The number of addresses in a subnet of the given prefix length.
pub open spec fn host_span(prefix: u8) -> nat {
    pow2((32 - prefix) as nat)
}

/// The first address of the subnet `net/prefix`: its network address.
pub open spec fn subnet_first(net: u32, prefix: u8) -> int {
    (net as nat / host_span(prefix)) as int * host_span(prefix) as int
}

/// The last address of the subnet `net/prefix`: its broadcast address.
pub open spec fn subnet_last(net: u32, prefix: u8) -> int {
    subnet_first(net, prefix) + host_span(prefix) - 1
}

/// The subnet `net/prefix` is the range from its network address to its
/// broadcast address, and that range lies within the 32-bit address space.
pub proof fn lemma_subnet_range(net: u32, prefix: u8, ip: u32)
    requires
        prefix <= 32,
    ensures
        0 <= subnet_first(net, prefix) <= net <= subnet_last(net, prefix) < 0x1_0000_0000,
        in_subnet_spec(net, prefix, ip) <==> subnet_first(net, prefix) <= ip <= subnet_last(
            net,
            prefix,
        ),
{
    let s = (32 - prefix) as nat;
    let d = pow2(s) as int;
    let p = pow2(prefix as nat) as int;
    vstd::arithmetic::power2::lemma_pow2_pos(s);
    vstd::arithmetic::power2::lemma_pow2_pos(prefix as nat);
    vstd::arithmetic::power2::lemma_pow2_adds(prefix as nat, s);
    vstd::arithmetic::power2::lemma2_to64();
    assert(prefix as nat + s == 32);
    assert(p * d == 0x1_0000_0000);
    let n = net as int;
    let q = n / d;
    vstd::arithmetic::div_mod::lemma_fundamental_div_mod(n, d);
    vstd::arithmetic::div_mod::lemma_mod_pos_bound(n, d);
    vstd::arithmetic::div_mod::lemma_div_pos_is_pos(n, d);
    assert(q * d == d * q) by (nonlinear_arith);
    assert(subnet_first(net, prefix) == q * d);
    if q >= p {
        vstd::arithmetic::mul::lemma_mul_inequality(p, q, d);
        assert(false);
    }
    vstd::arithmetic::mul::lemma_mul_inequality(q + 1, p, d);
    vstd::arithmetic::mul::lemma_mul_is_distributive_add_other_way(d, q, 1);
    let x = ip as int;
    vstd::arithmetic::div_mod::lemma_fundamental_div_mod(x, d);
    vstd::arithmetic::div_mod::lemma_mod_pos_bound(x, d);
    assert(x / d * d == d * (x / d)) by (nonlinear_arith);
    if q * d <= x <= q * d + d - 1 {
        vstd::arithmetic::div_mod::lemma_fundamental_div_mod_converse(x, d, q, x - q * d);
    }
    if x / d == q {
        assert(q * d <= x <= q * d + d - 1);
    }
}

/// The persona of a subnet's gateway: a Linux host named `gw` that serves
/// DNS on udp/53.
pub open spec fn gateway_facts(ip: u32) -> HostView {
    HostView {
        ip,
        mac: seq![0x02u8, 0x00, 0x00, 0x00, 0x00, 0x01],
        hostname: Some(seq!['g', 'w']),
        os: seq!['l', 'i', 'n', 'u', 'x'],
        services: seq![
            ServiceView {
                port: 53,
                proto: seq!['u', 'd', 'p'],
                service: seq!['d', 'n', 's'],
                version: None,
            },
        ],
    }
}

fn gateway_host(ip: u32) -> (f: HostFacts)
    ensures
        f@ == gateway_facts(ip),
{
    proof {
        reveal_strlit("gw");
        reveal_strlit("linux");
        reveal_strlit("udp");
        reveal_strlit("dns");
    }
    let udp = String::from_str("udp");
    let dns = String::from_str("dns");
    let gw = String::from_str("gw");
    let linux = String::from_str("linux");
    assert(udp@ =~= seq!['u', 'd', 'p']);
    assert(dns@ =~= seq!['d', 'n', 's']);
    assert(gw@ =~= seq!['g', 'w']);
    assert(linux@ =~= seq!['l', 'i', 'n', 'u', 'x']);
    let mut services: Vec<ServiceFacts> = Vec::new();
    services.push(ServiceFacts { port: 53, proto: udp, service: dns, version: None });
    let f = HostFacts {
        ip,
        mac: [0x02, 0x00, 0x00, 0x00, 0x00, 0x01],
        hostname: Some(gw),
        os: linux,
        services,
    };
    assert(f@.mac =~= gateway_facts(ip).mac);
    assert(f@.services =~= gateway_facts(ip).services);
    f
}

fn prefix_mask_agrees(net: u32, prefix: u8, ip: u32) -> (r: bool)
    requires
        prefix <= 32,
    ensures
        r == in_subnet_spec(net, prefix, ip),
{
    let mask: u32 = if prefix == 0 {
        0
    } else {
        u32::MAX << (32 - prefix)
    };
    let r = (net & mask) == (ip & mask);
    proof {
        let s = (32 - prefix) as u32;
        if prefix == 0 {
            vstd::arithmetic::power2::lemma2_to64();
            assert(net as nat / pow2(32) == 0) by (nonlinear_arith)
                requires
                    pow2(32) == 0x1_0000_0000,
            ;
            assert(ip as nat / pow2(32) == 0) by (nonlinear_arith)
                requires
                    pow2(32) == 0x1_0000_0000,
            ;
            assert(net & 0 == 0 && ip & 0 == 0) by (bit_vector);
        } else {
            assert(s < 32);
            assert(mask == u32::MAX << s);
            assert(((net & (u32::MAX << s)) == (ip & (u32::MAX << s))) == ((net >> s) == (ip
                >> s))) by (bit_vector)
                requires
                    s < 32,
            ;
            vstd::bits::lemma_u32_shr_is_div(net, s);
            vstd::bits::lemma_u32_shr_is_div(ip, s);
        }
    }
    r
}

impl WorldState {
    /// A new subnet `net/prefix` whose only host is its gateway.
    pub fn new(net: u32, prefix: u8, gateway: u32) -> (ws: Self)
        ensures
            ws@.net == net,
            ws@.prefix == prefix,
            ws@.gateway == Some(gateway),
            ws@.hosts == Map::<u32, HostView>::empty().insert(gateway, gateway_facts(gateway)),
            ws@.dns == Map::<Seq<char>, u32>::empty(),
    {
        let mut ws = WorldState {
            net,
            prefix,
            gateway: Some(gateway),
            hosts: HashMap::new(),
            dns: StringHashMap::new(),
        };
        let gw = gateway_host(gateway);
        ws.hosts.insert(gateway, gw);
        proof {
            assert(hosts_view(ws.hosts@) =~= Map::<u32, HostView>::empty().insert(
                gateway,
                gateway_facts(gateway),
            ));
        }
        ws
    }

    /// Whether `ip` belongs to this subnet.
    pub fn in_subnet(&self, ip: u32) -> (r: bool)
        requires
            self.prefix <= 32,
        ensures
            r == in_subnet_spec(self.net, self.prefix, ip),
    {
        prefix_mask_agrees(self.net, self.prefix, ip)
    }

    /// Materializes a host. The same facts again are accepted and change
    /// nothing; different facts for an address that already has a host are
    /// refused and change nothing.
    pub fn materialize_host(&mut self, facts: HostFacts) -> (r: Result<(), String>)
        ensures
            admit_host(old(self)@.hosts, facts@) is Some <==> r is Ok,
            r is Ok ==> final(self)@ == (WorldView {
                hosts: admit_host(old(self)@.hosts, facts@).unwrap(),
                ..old(self)@
            }),
            r is Ok ==> final(self).hosts@ == (if old(self).hosts@.contains_key(facts.ip) {
                old(self).hosts@
            } else {
                old(self).hosts@.insert(facts.ip, facts)
            }),
            !old(self)@.hosts.contains_key(facts.ip) ==> r is Ok && final(self)@.hosts
                == old(self)@.hosts.insert(facts.ip, facts@),
            old(self)@.hosts.contains_key(facts.ip) && old(self)@.hosts[facts.ip] == facts@ ==> r is Ok
                && *final(self) == *old(self),
            old(self)@.hosts.contains_key(facts.ip) && old(self)@.hosts[facts.ip] != facts@ ==> r is Err,
            r is Err ==> *final(self) == *old(self),
            r matches Err(e) ==> e@ == host_conflict_message(facts.ip),
    {
        let ip = facts.ip;
        match self.hosts.get(&ip) {
            Some(existing) => {
                if !existing.same_as(&facts) {
                    proof {
                        reveal_strlit("conflict materializing host ");
                    }
                    let mut e = String::from_str("conflict materializing host ");
                    push_dotted(&mut e, ip);
                    return Err(e);
                }
                Ok(())
            },
            None => {
                self.hosts.insert(ip, facts);
                proof {
                    assert(hosts_view(self.hosts@) =~= hosts_view(old(self).hosts@).insert(ip, facts@));
                }
                Ok(())
            },
        }
    }

    /// Materializes a name. The same binding again is accepted and changes
    /// nothing; a different address for a bound name is refused and changes
    /// nothing.
    pub fn materialize_dns(&mut self, name: &str, ip: u32) -> (r: Result<(), String>)
        ensures
            admit_dns(old(self)@.dns, name@, ip) is Some <==> r is Ok,
            r is Ok ==> final(self)@ == (WorldView {
                dns: admit_dns(old(self)@.dns, name@, ip).unwrap(),
                ..old(self)@
            }),
            !old(self)@.dns.contains_key(name@) ==> r is Ok && final(self)@.dns == old(
                self,
            )@.dns.insert(name@, ip),
            old(self)@.dns.contains_key(name@) && old(self)@.dns[name@] == ip ==> r is Ok
                && *final(self) == *old(self),
            old(self)@.dns.contains_key(name@) && old(self)@.dns[name@] != ip ==> r is Err,
            r is Err ==> *final(self) == *old(self),
            r matches Err(e) ==> e@ == dns_conflict_message(name@),
    {
        match self.dns.get(name) {
            Some(existing) => {
                if *existing != ip {
                    proof {
                        reveal_strlit("conflict materializing dns ");
                    }
                    let mut e = String::from_str("conflict materializing dns ");
                    e.append(name);
                    return Err(e);
                }
                Ok(())
            },
            None => {
                self.dns.insert(String::from_str(name), ip);
                Ok(())
            },
        }
    }
}

} // verus!
