//! Properties of the world and the engine that hold across calls.

use vstd::prelude::*;

use crate::device::WireView;
use crate::engine::{
    action_result, adopt_host_post, ensure_host_post, ensure_host_spec, handle_frame_spec, started,
    Engine, FrameAction,
};
use crate::facts::{HostFacts, HostView};
use crate::guest::{arp_request_frame, arp_request_payload, icmp_echo_frame, icmp_echo_packet};
use crate::ip::{lemma_octets_injective, lemma_octets_roundtrip, octets_spec};
use crate::materialize::{rule_host_facts, rule_hostname, rule_mac, Materializer, RuleMaterializer};
use crate::wire::{frame_target, ipv4_header_len};
use crate::world::{admit_dns, admit_host, in_subnet_spec};
use crate::text::{decimal, digit_char, dotted};
use vstd::arithmetic::power2::pow2;
use crate::world::WorldView;

verus! {

/// Materializing a host never changes or removes a fact already in the
/// store, and afterwards the store holds exactly the given facts at their
/// address.
pub proof fn lemma_host_facts_are_permanent(hosts: Map<u32, HostView>, f: HostView)
    requires
        admit_host(hosts, f) is Some,
    ensures
        forall|ip: u32| #[trigger]
            hosts.contains_key(ip) ==> admit_host(hosts, f).unwrap().contains_key(ip) && admit_host(
                hosts,
                f,
            ).unwrap()[ip] == hosts[ip],
        admit_host(hosts, f).unwrap().contains_key(f.ip),
        admit_host(hosts, f).unwrap()[f.ip] == f,
        admit_host(hosts, f).unwrap().dom() == hosts.dom().insert(f.ip),
{
    assert(admit_host(hosts, f).unwrap().dom() =~= hosts.dom().insert(f.ip));
}

/// Materializing the same host facts twice is the same as doing it once.
pub proof fn lemma_host_materialize_idempotent(hosts: Map<u32, HostView>, f: HostView)
    requires
        admit_host(hosts, f) is Some,
    ensures
        admit_host(admit_host(hosts, f).unwrap(), f) == admit_host(hosts, f),
{
}

/// Once facts are materialized for an address, any different facts for that
/// address are refused.
pub proof fn lemma_host_conflict_refused(hosts: Map<u32, HostView>, f: HostView, g: HostView)
    requires
        admit_host(hosts, f) is Some,
        g.ip == f.ip,
        g != f,
    ensures
        admit_host(admit_host(hosts, f).unwrap(), g) is None,
{
}

/// Binding a name never changes or removes an existing binding, and
/// afterwards the name resolves to the given address.
pub proof fn lemma_dns_facts_are_permanent(dns: Map<Seq<char>, u32>, name: Seq<char>, ip: u32)
    requires
        admit_dns(dns, name, ip) is Some,
    ensures
        forall|n: Seq<char>| #[trigger]
            dns.contains_key(n) ==> admit_dns(dns, name, ip).unwrap().contains_key(n) && admit_dns(
                dns,
                name,
                ip,
            ).unwrap()[n] == dns[n],
        admit_dns(dns, name, ip).unwrap().contains_key(name),
        admit_dns(dns, name, ip).unwrap()[name] == ip,
{
}

/// Binding the same name to the same address twice is the same as doing it
/// once.
pub proof fn lemma_dns_materialize_idempotent(dns: Map<Seq<char>, u32>, name: Seq<char>, ip: u32)
    requires
        admit_dns(dns, name, ip) is Some,
    ensures
        admit_dns(admit_dns(dns, name, ip).unwrap(), name, ip) == admit_dns(dns, name, ip),
{
}

/// Once a name is bound, binding it to another address is refused.
pub proof fn lemma_dns_conflict_refused(
    dns: Map<Seq<char>, u32>,
    name: Seq<char>,
    ip: u32,
    other: u32,
)
    requires
        admit_dns(dns, name, ip) is Some,
        other != ip,
    ensures
        admit_dns(admit_dns(dns, name, ip).unwrap(), name, other) is None,
{
}

/// Making sure a host exists never forgets a world fact nor stops a started
/// host, and on success a host runs at the requested address.
pub proof fn lemma_ensure_host_monotonic<M: Materializer>(pre: Engine<M>, post: Engine<M>, ip: u32, ok: bool)
    requires
        ensure_host_post(pre, post, ip, ok),
    ensures
        forall|a: u32| #[trigger]
            pre.world@.hosts.contains_key(a) ==> post.world@.hosts.contains_key(a)
                && post.world@.hosts[a] == pre.world@.hosts[a],
        forall|a: u32| #[trigger]
            started(pre).contains_key(a) && a != ip ==> started(post).contains_key(a)
                && started(post)[a] == started(pre)[a],
        started(pre).contains_key(ip) ==> started(post)[ip] == started(pre)[ip],
        ok ==> started(post).contains_key(ip),
        post.world@.net == pre.world@.net,
        post.world@.prefix == pre.world@.prefix,
        post.world@.gateway == pre.world@.gateway,
        post.world@.dns == pre.world@.dns,
{
    if !started(pre).contains_key(ip) && !pre.world@.hosts.contains_key(ip) && ok {
        lemma_host_facts_are_permanent(pre.world@.hosts, started(post)[ip]);
    }
}

/// The guest's ARP request for `target` is addressed to `target`.
pub proof fn lemma_arp_request_addressed_to_target(target: u32)
    ensures
        frame_target(arp_request_frame(target)) == Some(target),
{
    let f = arp_request_frame(target);
    let p = f.skip(14);
    assert(p =~= arp_request_payload(target));
    lemma_octets_roundtrip(target, 0, 0, 0, 0);
    let o = octets_spec(target);
    assert(p[24] == o[0] && p[25] == o[1] && p[26] == o[2] && p[27] == o[3]);
    assert(f[12] == 0x08 && f[13] == 0x06);
}

/// The guest's echo request to `dst_mac`/`dst_ip` is addressed to `dst_ip`.
pub proof fn lemma_echo_request_addressed_to_destination(dst_mac: Seq<u8>, dst_ip: u32)
    requires
        dst_mac.len() == 6,
    ensures
        frame_target(icmp_echo_frame(dst_mac, dst_ip)) == Some(dst_ip),
{
    let f = icmp_echo_frame(dst_mac, dst_ip);
    let p = f.skip(14);
    assert(p =~= icmp_echo_packet(dst_ip));
    lemma_octets_roundtrip(dst_ip, 0, 0, 0, 0);
    let o = octets_spec(dst_ip);
    assert(p[16] == o[0] && p[17] == o[1] && p[18] == o[2] && p[19] == o[3]);
    assert(f[12] == 0x08 && f[13] == 0x00);
    assert(p.len() == 44);
    assert(ipv4_header_len(p) == 20);
}

/// Distinct addresses get distinct MAC addresses from the rules.
pub proof fn lemma_rule_macs_distinct(a: u32, b: u32)
    requires
        a != b,
    ensures
        rule_mac(a) != rule_mac(b),
{
    if rule_mac(a) == rule_mac(b) {
        assert(octets_spec(a) =~= rule_mac(a).skip(2));
        assert(octets_spec(b) =~= rule_mac(b).skip(2));
        lemma_octets_injective(a, b);
    }
}

/// Every host of the store is filed under its own address.
pub open spec fn keyed_by_address(hosts: Map<u32, HostView>) -> bool {
    forall|a: u32| #[trigger] hosts.contains_key(a) ==> hosts[a].ip == a
}

/// The world files every host under its own address, and every started
/// host runs at its own address with exactly the facts the world holds there.
pub open spec fn engine_consistent<M: Materializer>(e: Engine<M>) -> bool {
    &&& keyed_by_address(e.world@.hosts)
    &&& forall|a: u32| #[trigger]
        started(e).contains_key(a) ==> started(e)[a].ip == a && e.world@.hosts.contains_key(a)
            && e.world@.hosts[a] == started(e)[a]
}

/// Every persona the materializer may give for `ip` in `world` is for `ip`.
pub open spec fn answers_carry_address<M: Materializer>(m: M, ip: u32, world: WorldView) -> bool {
    forall|c: Result<HostFacts, String>| #[trigger]
        m.host_answer(ip, world, c) ==> (c matches Ok(f) ==> f.ip == ip)
}

/// Materializing a host keeps every host filed under its own address.
pub proof fn lemma_admit_host_keeps_keying(hosts: Map<u32, HostView>, f: HostView)
    requires
        keyed_by_address(hosts),
        admit_host(hosts, f) is Some,
    ensures
        keyed_by_address(admit_host(hosts, f).unwrap()),
{
}

/// A new world files its gateway under the gateway's address.
pub proof fn lemma_new_world_keyed(w: WorldView, gateway: u32)
    requires
        w.hosts == Map::<u32, HostView>::empty().insert(gateway, crate::world::gateway_facts(gateway)),
    ensures
        keyed_by_address(w.hosts),
{
}

/// An engine made from a world that files its hosts under their addresses is
/// consistent.
pub proof fn lemma_new_engine_consistent<M: Materializer>(e: Engine<M>, w: WorldView)
    requires
        keyed_by_address(w.hosts),
        e.world@ == w,
        started(e) == w.hosts,
    ensures
        engine_consistent(e),
{
}

/// The rules' personas are for the address asked about.
pub proof fn lemma_rule_answers_carry_address(m: RuleMaterializer, ip: u32, world: WorldView)
    ensures
        answers_carry_address(m, ip, world),
{
}

/// Making sure a host exists keeps the engine consistent when the
/// materializer's personas are for the address asked about; on success the
/// world then holds a host at that address.
pub proof fn lemma_ensure_host_keeps_consistency<M: Materializer>(
    pre: Engine<M>,
    post: Engine<M>,
    ip: u32,
    r: Result<(), String>,
)
    requires
        engine_consistent(pre),
        answers_carry_address(pre.materializer, ip, pre.world@),
        ensure_host_spec(pre, post, ip, r),
    ensures
        engine_consistent(post),
        r is Ok ==> started(post).contains_key(ip) && post.world@.hosts.contains_key(ip),
{
    lemma_ensure_host_monotonic(pre, post, ip, r is Ok);
    if !started(pre).contains_key(ip) && !pre.world@.hosts.contains_key(ip) {
        let c = choose|c: Result<HostFacts, String>|
            #[trigger] pre.materializer.host_answer(ip, pre.world@, c) && adopt_host_post(
                pre,
                post,
                ip,
                c,
                r,
            );
        if let Ok(f) = c {
            assert(f.ip == ip);
            if r is Ok {
                lemma_admit_host_keeps_keying(pre.world@.hosts, f@);
                lemma_host_facts_are_permanent(pre.world@.hosts, f@);
            }
        }
    }
    assert forall|a: u32| #[trigger] started(post).contains_key(a) implies started(post)[a].ip == a
        && post.world@.hosts.contains_key(a) && post.world@.hosts[a] == started(post)[a] by {
        if a != ip {
            assert(started(pre).contains_key(a));
        } else if started(pre).contains_key(ip) {
        } else if pre.world@.hosts.contains_key(ip) {
            assert(pre.world@.hosts[ip].ip == ip);
        }
    }
}

/// With the rules as materializer, making sure of a host at an address that
/// neither runs a host nor is known to the world always succeeds, and adds
/// exactly the rules' persona for that address to the world and to the
/// started hosts.
pub proof fn lemma_rule_engine_materializes_rule_persona(
    pre: Engine<RuleMaterializer>,
    post: Engine<RuleMaterializer>,
    ip: u32,
    r: Result<(), String>,
)
    requires
        ensure_host_spec(pre, post, ip, r),
        !started(pre).contains_key(ip),
        !pre.world@.hosts.contains_key(ip),
    ensures
        r is Ok,
        post.world@ == (WorldView {
            hosts: pre.world@.hosts.insert(ip, rule_host_facts(ip)),
            ..pre.world@
        }),
        started(post) == started(pre).insert(ip, rule_host_facts(ip)),
{
    let c = choose|c: Result<HostFacts, String>|
        #[trigger] pre.materializer.host_answer(ip, pre.world@, c) && adopt_host_post(
            pre,
            post,
            ip,
            c,
            r,
        );
    assert(c is Ok);
}

/// With the rules as materializer, making sure of a host depends only on the
/// world and the started hosts: two engines that agree on them agree after
/// it, and it succeeds in both.
pub proof fn lemma_rule_ensure_host_deterministic(
    pre1: Engine<RuleMaterializer>,
    post1: Engine<RuleMaterializer>,
    r1: Result<(), String>,
    pre2: Engine<RuleMaterializer>,
    post2: Engine<RuleMaterializer>,
    r2: Result<(), String>,
    ip: u32,
)
    requires
        ensure_host_spec(pre1, post1, ip, r1),
        ensure_host_spec(pre2, post2, ip, r2),
        pre1.world@ == pre2.world@,
        started(pre1) == started(pre2),
    ensures
        r1 is Ok,
        r2 is Ok,
        post1.world@ == post2.world@,
        started(post1) == started(post2),
{
    if !started(pre1).contains_key(ip) && !pre1.world@.hosts.contains_key(ip) {
        lemma_rule_engine_materializes_rule_persona(pre1, post1, ip, r1);
        lemma_rule_engine_materializes_rule_persona(pre2, post2, ip, r2);
    }
}

/// With the rules as materializer, handling a frame depends only on the
/// frame, the world and the started hosts: two engines that agree on the
/// world and the started hosts, fed the same frame, agree afterwards and
/// take the same action.
pub proof fn lemma_rule_frames_deterministic(
    pre1: Engine<RuleMaterializer>,
    post1: Engine<RuleMaterializer>,
    a1: FrameAction,
    pre2: Engine<RuleMaterializer>,
    post2: Engine<RuleMaterializer>,
    a2: FrameAction,
    frame: Seq<u8>,
)
    requires
        handle_frame_spec(pre1, post1, frame, a1),
        handle_frame_spec(pre2, post2, frame, a2),
        pre1.world@ == pre2.world@,
        pre1.world.net == pre2.world.net,
        pre1.world.prefix == pre2.world.prefix,
        started(pre1) == started(pre2),
    ensures
        post1.world@ == post2.world@,
        started(post1) == started(post2),
        a1 == a2,
{
    if let Some(ip) = frame_target(frame) {
        if in_subnet_spec(pre1.world.net, pre1.world.prefix, ip) {
            lemma_rule_ensure_host_deterministic(
                pre1,
                post1,
                action_result(a1),
                pre2,
                post2,
                action_result(a2),
                ip,
            );
        }
    }
}

/// Subnet membership only widens as the prefix shortens: an address in
/// `net/long` is in `net/short` for every `short <= long`; the network's own
/// address is always a member, and with prefix 0 every address is.
pub proof fn lemma_in_subnet_prefix_monotone(net: u32, long: u8, short: u8, ip: u32)
    requires
        short <= long <= 32,
    ensures
        in_subnet_spec(net, long, ip) ==> in_subnet_spec(net, short, ip),
        in_subnet_spec(net, long, net),
        in_subnet_spec(net, 0, ip),
{
    let s1 = (32 - long) as nat;
    let s2 = (32 - short) as nat;
    let e = (s2 - s1) as nat;
    vstd::arithmetic::power2::lemma_pow2_adds(s1, e);
    vstd::arithmetic::power2::lemma_pow2_pos(s1);
    vstd::arithmetic::power2::lemma_pow2_pos(e);
    assert(s1 + e == s2);
    let d1 = pow2(s1) as int;
    let de = pow2(e) as int;
    vstd::arithmetic::div_mod::lemma_div_denominator(net as int, d1, de);
    vstd::arithmetic::div_mod::lemma_div_denominator(ip as int, d1, de);
    vstd::arithmetic::power2::lemma2_to64();
    assert(net as nat / pow2(32) == 0);
    assert(ip as nat / pow2(32) == 0);
}

/// `trace` is a run of the engine over `frames`: each state follows from the
/// one before by handling the next frame, with the given action.
pub open spec fn is_frame_run<M: Materializer>(
    trace: Seq<Engine<M>>,
    frames: Seq<Seq<u8>>,
    actions: Seq<FrameAction>,
) -> bool {
    &&& trace.len() == frames.len() + 1
    &&& actions.len() == frames.len()
    &&& forall|i: int|
        0 <= i < frames.len() ==> handle_frame_spec(trace[i], trace[i + 1], #[trigger] frames[i], actions[i])
}

proof fn lemma_rule_runs_agree_upto(
    t1: Seq<Engine<RuleMaterializer>>,
    a1: Seq<FrameAction>,
    t2: Seq<Engine<RuleMaterializer>>,
    a2: Seq<FrameAction>,
    frames: Seq<Seq<u8>>,
    k: int,
)
    requires
        is_frame_run(t1, frames, a1),
        is_frame_run(t2, frames, a2),
        t1[0].world@ == t2[0].world@,
        started(t1[0]) == started(t2[0]),
        0 <= k <= frames.len(),
    ensures
        t1[k].world@ == t2[k].world@,
        started(t1[k]) == started(t2[k]),
        forall|i: int| 0 <= i < k ==> a1[i] == a2[i],
    decreases k,
{
    if k > 0 {
        lemma_rule_runs_agree_upto(t1, a1, t2, a2, frames, k - 1);
        let f = frames[k - 1];
        assert(handle_frame_spec(t1[k - 1], t1[k], f, a1[k - 1]));
        assert(handle_frame_spec(t2[k - 1], t2[k], f, a2[k - 1]));
        lemma_rule_frames_deterministic(t1[k - 1], t1[k], a1[k - 1], t2[k - 1], t2[k], a2[k - 1], f);
    }
}

/// With the rules as materializer, two engines that start agreeing on the
/// world and the started hosts and are fed the same frames take the same
/// actions and end agreeing: the world depends only on the frames.
pub proof fn lemma_rule_runs_deterministic(
    t1: Seq<Engine<RuleMaterializer>>,
    a1: Seq<FrameAction>,
    t2: Seq<Engine<RuleMaterializer>>,
    a2: Seq<FrameAction>,
    frames: Seq<Seq<u8>>,
)
    requires
        is_frame_run(t1, frames, a1),
        is_frame_run(t2, frames, a2),
        t1[0].world@ == t2[0].world@,
        started(t1[0]) == started(t2[0]),
    ensures
        t1.last().world@ == t2.last().world@,
        started(t1.last()) == started(t2.last()),
        a1 == a2,
{
    lemma_rule_runs_agree_upto(t1, a1, t2, a2, frames, frames.len() as int);
    assert(a1 =~= a2);
}

proof fn lemma_wire_sends_upto(trace: Seq<WireView>, frames: Seq<Vec<u8>>, k: int)
    requires
        trace.len() == frames.len() + 1,
        trace[0].outgoing.len() == 0,
        forall|i: int|
            0 <= i < frames.len() ==> trace[i + 1].outgoing == trace[i].outgoing.push(
                #[trigger] frames[i],
            ),
        0 <= k <= frames.len(),
    ensures
        trace[k].outgoing == frames.take(k),
    decreases k,
{
    if k == 0 {
        assert(trace[0].outgoing =~= frames.take(0));
    } else {
        lemma_wire_sends_upto(trace, frames, k - 1);
        let f = frames[k - 1];
        assert(trace[k].outgoing == trace[k - 1].outgoing.push(f));
        assert(frames.take(k) =~= frames.take(k - 1).push(f));
    }
}

/// Frames sent one after another onto a wire whose outgoing queue was empty
/// (each a `transmit` and a `send`, which push the frame onto the outgoing
/// queue) make up the outgoing queue in order, so a `drain` then gives back
/// exactly those frames.
pub proof fn lemma_wire_sends_then_drain(trace: Seq<WireView>, frames: Seq<Vec<u8>>)
    requires
        trace.len() == frames.len() + 1,
        trace[0].outgoing.len() == 0,
        forall|i: int|
            0 <= i < frames.len() ==> trace[i + 1].outgoing == trace[i].outgoing.push(
                #[trigger] frames[i],
            ),
    ensures
        trace.last().outgoing == frames,
{
    lemma_wire_sends_upto(trace, frames, frames.len() as int);
    assert(frames.take(frames.len() as int) =~= frames);
}

/// Admitting facts for an address the store does not hold yet always
/// succeeds and files them there; facts equal to the ones held are accepted
/// without change; different facts for a held address are refused. No other
/// property of the facts plays a part.
pub proof fn lemma_admit_host_outcomes(hosts: Map<u32, HostView>, f: HostView)
    ensures
        !hosts.contains_key(f.ip) ==> admit_host(hosts, f) == Some(hosts.insert(f.ip, f)),
        hosts.contains_key(f.ip) && hosts[f.ip] == f ==> admit_host(hosts, f) == Some(hosts),
        hosts.contains_key(f.ip) && hosts[f.ip] != f ==> admit_host(hosts, f) is None,
{
}

/// Binding a name that is not bound yet always succeeds and binds it; the
/// same binding again is accepted without change; another address for a
/// bound name is refused. The spelling of the name plays no part.
pub proof fn lemma_admit_dns_outcomes(dns: Map<Seq<char>, u32>, name: Seq<char>, ip: u32)
    ensures
        !dns.contains_key(name) ==> admit_dns(dns, name, ip) == Some(dns.insert(name, ip)),
        dns.contains_key(name) && dns[name] == ip ==> admit_dns(dns, name, ip) == Some(dns),
        dns.contains_key(name) && dns[name] != ip ==> admit_dns(dns, name, ip) is None,
{
}

/// Every IPv4 frame whose packet passes the length checks is addressed to the
/// big-endian address in bytes 16 to 19 of the packet, whatever transport
/// protocol (byte 9) it carries.
pub proof fn lemma_ipv4_frames_addressed_to_destination(frame: Seq<u8>)
    requires
        frame.len() >= 14,
        frame[12] == 0x08,
        frame[13] == 0x00,
        frame.len() >= 14 + 20,
        frame.len() - 14 >= (frame[14] % 16) * 4,
        (frame[14] % 16) * 4 <= frame[16] * 256 + frame[17],
        frame.len() - 14 >= frame[16] * 256 + frame[17],
    ensures
        frame_target(frame) == Some(
            (frame[30] * 0x100_0000 + frame[31] * 0x1_0000 + frame[32] * 0x100 + frame[33]) as u32,
        ),
{
    let p = frame.skip(14);
    assert(p[0] == frame[14] && p[2] == frame[16] && p[3] == frame[17]);
    assert(p[16] == frame[30] && p[17] == frame[31] && p[18] == frame[32] && p[19] == frame[33]);
}

/// Every Ethernet/IPv4 ARP frame (hardware type 1, protocol type 0x0800,
/// address lengths 6 and 4, long enough for its addresses) is addressed to
/// its target protocol address, bytes 24 to 27 of the packet, whatever its
/// operation (request, reply or other).
pub proof fn lemma_arp_frames_addressed_to_target(frame: Seq<u8>)
    requires
        frame.len() >= 14 + 28,
        frame[12] == 0x08,
        frame[13] == 0x06,
        frame[14] == 0x00,
        frame[15] == 0x01,
        frame[16] == 0x08,
        frame[17] == 0x00,
        frame[18] == 6,
        frame[19] == 4,
    ensures
        frame_target(frame) == Some(
            (frame[38] * 0x100_0000 + frame[39] * 0x1_0000 + frame[40] * 0x100 + frame[41]) as u32,
        ),
{
    let p = frame.skip(14);
    assert(p[0] == frame[14] && p[1] == frame[15] && p[2] == frame[16] && p[3] == frame[17]);
    assert(p[4] == frame[18] && p[5] == frame[19]);
    assert(p[24] == frame[38] && p[25] == frame[39] && p[26] == frame[40] && p[27] == frame[41]);
}

/// The number a string of decimal digits denotes, most significant first.
pub open spec fn decimal_value(s: Seq<char>) -> int
    decreases s.len(),
{
    if s.len() == 0 {
        0
    } else {
        decimal_value(s.drop_last()) * 10 + (s.last() as int - '0' as int)
    }
}

/// Whether every character is one of `0` to `9`.
pub open spec fn all_digits(s: Seq<char>) -> bool {
    forall|i: int| 0 <= i < s.len() ==> '0' <= #[trigger] s[i] <= '9'
}

/// Each decimal digit is rendered as its own character: `'0' + d`.
pub proof fn lemma_digit_char_standard(d: nat)
    requires
        d < 10,
    ensures
        digit_char(d) as int == '0' as int + d,
{
}

/// The decimal numeral of `n` consists of digits only and reads back as `n`.
pub proof fn lemma_decimal_reads_back(n: nat)
    ensures
        all_digits(decimal(n)),
        decimal_value(decimal(n)) == n,
        decimal(n).len() > 0,
    decreases n,
{
    if n < 10 {
        lemma_digit_char_standard(n);
        let s = decimal(n);
        assert(s.drop_last() =~= Seq::<char>::empty());
        assert(decimal_value(s) == decimal_value(s.drop_last()) * 10 + (s.last() as int - '0' as int));
    } else {
        lemma_decimal_reads_back(n / 10);
        lemma_digit_char_standard(n % 10);
        let s = decimal(n);
        assert(s.drop_last() =~= decimal(n / 10));
        assert(s.last() == digit_char(n % 10));
        assert(decimal_value(s) == decimal_value(s.drop_last()) * 10 + (s.last() as int - '0' as int));
        assert(n == (n / 10) * 10 + n % 10);
        assert(all_digits(s)) by {
            assert forall|i: int| 0 <= i < s.len() implies '0' <= #[trigger] s[i] <= '9' by {
                if i < s.len() - 1 {
                    assert(s[i] == decimal(n / 10)[i]);
                }
            }
        }
    }
}

proof fn lemma_split_at_first_dot(x: Seq<char>, r: Seq<char>, y: Seq<char>, t: Seq<char>)
    requires
        all_digits(x),
        all_digits(y),
        x + seq!['.'] + r == y + seq!['.'] + t,
    ensures
        x == y,
        r == t,
{
    let a = x + seq!['.'] + r;
    let b = y + seq!['.'] + t;
    if x.len() < y.len() {
        assert(a[x.len() as int] == '.');
        assert(b[x.len() as int] == y[x.len() as int]);
    } else if y.len() < x.len() {
        assert(b[y.len() as int] == '.');
        assert(a[y.len() as int] == x[y.len() as int]);
    }
    assert(x =~= a.subrange(0, x.len() as int));
    assert(y =~= b.subrange(0, y.len() as int));
    assert(r =~= a.subrange(x.len() as int + 1, a.len() as int));
    assert(t =~= b.subrange(y.len() as int + 1, b.len() as int));
}

proof fn lemma_split_four(
    x0: Seq<char>,
    x1: Seq<char>,
    x2: Seq<char>,
    x3: Seq<char>,
    y0: Seq<char>,
    y1: Seq<char>,
    y2: Seq<char>,
    y3: Seq<char>,
)
    requires
        all_digits(x0),
        all_digits(x1),
        all_digits(x2),
        all_digits(y0),
        all_digits(y1),
        all_digits(y2),
        x0 + seq!['.'] + x1 + seq!['.'] + x2 + seq!['.'] + x3 == y0 + seq!['.'] + y1 + seq!['.'] + y2
            + seq!['.'] + y3,
    ensures
        x0 == y0,
        x1 == y1,
        x2 == y2,
        x3 == y3,
{
    let rx = x1 + seq!['.'] + x2 + seq!['.'] + x3;
    let ry = y1 + seq!['.'] + y2 + seq!['.'] + y3;
    assert(x0 + seq!['.'] + x1 + seq!['.'] + x2 + seq!['.'] + x3 =~= x0 + seq!['.'] + rx);
    assert(y0 + seq!['.'] + y1 + seq!['.'] + y2 + seq!['.'] + y3 =~= y0 + seq!['.'] + ry);
    lemma_split_at_first_dot(x0, rx, y0, ry);
    let sx = x2 + seq!['.'] + x3;
    let sy = y2 + seq!['.'] + y3;
    assert(rx =~= x1 + seq!['.'] + sx);
    assert(ry =~= y1 + seq!['.'] + sy);
    lemma_split_at_first_dot(x1, sx, y1, sy);
    lemma_split_at_first_dot(x2, x3, y2, y3);
}

proof fn lemma_decimal_injective(m: nat, n: nat)
    requires
        decimal(m) == decimal(n),
    ensures
        m == n,
{
    lemma_decimal_reads_back(m);
    lemma_decimal_reads_back(n);
}

/// Distinct addresses have distinct dotted-quad texts.
pub proof fn lemma_dotted_injective(a: u32, b: u32)
    requires
        dotted(a) == dotted(b),
    ensures
        a == b,
{
    let oa = octets_spec(a);
    let ob = octets_spec(b);
    lemma_decimal_reads_back(oa[0] as nat);
    lemma_decimal_reads_back(oa[1] as nat);
    lemma_decimal_reads_back(oa[2] as nat);
    lemma_decimal_reads_back(ob[0] as nat);
    lemma_decimal_reads_back(ob[1] as nat);
    lemma_decimal_reads_back(ob[2] as nat);
    lemma_split_four(
        decimal(oa[0] as nat),
        decimal(oa[1] as nat),
        decimal(oa[2] as nat),
        decimal(oa[3] as nat),
        decimal(ob[0] as nat),
        decimal(ob[1] as nat),
        decimal(ob[2] as nat),
        decimal(ob[3] as nat),
    );
    lemma_decimal_injective(oa[0] as nat, ob[0] as nat);
    lemma_decimal_injective(oa[1] as nat, ob[1] as nat);
    lemma_decimal_injective(oa[2] as nat, ob[2] as nat);
    lemma_decimal_injective(oa[3] as nat, ob[3] as nat);
    assert(oa =~= ob);
    lemma_octets_injective(a, b);
}

/// Two addresses get the same host name from the rules only when they are
/// the same address.
pub proof fn lemma_rule_hostnames_distinct(a: u32, b: u32)
    requires
        a != b,
    ensures
        rule_hostname(a) != rule_hostname(b),
{
    if rule_hostname(a) == rule_hostname(b) {
        assert(dotted(a) =~= rule_hostname(a).skip(5));
        assert(dotted(b) =~= rule_hostname(b).skip(5));
        lemma_dotted_injective(a, b);
    }
}

} // verus!
