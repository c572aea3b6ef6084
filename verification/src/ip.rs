//! IPv4 addresses as plain 32-bit numbers in network (big-endian) order.

use vstd::prelude::*;

verus! {

/// The address `a.b.c.d`.
pub open spec fn ipv4_spec(a: u8, b: u8, c: u8, d: u8) -> u32 {
    (a * 0x100_0000 + b * 0x1_0000 + c * 0x100 + d) as u32
}

/// The four octets of an address, most significant first.
pub open spec fn octets_spec(ip: u32) -> Seq<u8> {
    seq![
        (ip / 0x100_0000) as u8,
        ((ip / 0x1_0000) % 0x100) as u8,
        ((ip / 0x100) % 0x100) as u8,
        (ip % 0x100) as u8,
    ]
}

/// The 16-bit big-endian number held in two bytes.
pub open spec fn be16(hi: u8, lo: u8) -> u16 {
    (hi * 0x100 + lo) as u16
}

/// The 32-bit big-endian number held in `s[at..at + 4]`.
pub open spec fn be32_at(s: Seq<u8>, at: int) -> u32 {
    ipv4_spec(s[at], s[at + 1], s[at + 2], s[at + 3])
}

/// Splitting an address into octets and joining them again gives it back,
/// and joining octets then splitting gives the octets back.
pub proof fn lemma_octets_roundtrip(ip: u32, a: u8, b: u8, c: u8, d: u8)
    ensures
        ipv4_spec(octets_spec(ip)[0], octets_spec(ip)[1], octets_spec(ip)[2], octets_spec(ip)[3])
            == ip,
        octets_spec(ipv4_spec(a, b, c, d)) == seq![a, b, c, d],
{
    let x = ip as int;
    assert(x == (x / 0x100_0000) * 0x100_0000 + ((x / 0x1_0000) % 0x100) * 0x1_0000 + ((x
        / 0x100) % 0x100) * 0x100 + x % 0x100) by (nonlinear_arith)
        requires
            0 <= x < 0x1_0000_0000,
    ;
    assert(0 <= x / 0x100_0000 < 0x100) by (nonlinear_arith)
        requires
            0 <= x < 0x1_0000_0000,
    ;
    let y = a * 0x100_0000 + b * 0x1_0000 + c * 0x100 + d;
    assert(y / 0x100_0000 == a && (y / 0x1_0000) % 0x100 == b && (y / 0x100) % 0x100 == c && y
        % 0x100 == d && 0 <= y < 0x1_0000_0000) by (nonlinear_arith)
        requires
            y == a * 0x100_0000 + b * 0x1_0000 + c * 0x100 + d,
            0 <= a < 0x100,
            0 <= b < 0x100,
            0 <= c < 0x100,
            0 <= d < 0x100,
    ;
    assert(octets_spec(ipv4_spec(a, b, c, d)) =~= seq![a, b, c, d]);
}

/// Two addresses with the same octets are the same address.
pub proof fn lemma_octets_injective(x: u32, y: u32)
    requires
        octets_spec(x) == octets_spec(y),
    ensures
        x == y,
{
    lemma_octets_roundtrip(x, 0, 0, 0, 0);
    lemma_octets_roundtrip(y, 0, 0, 0, 0);
}

/// Builds the address `a.b.c.d`.
pub fn ipv4(a: u8, b: u8, c: u8, d: u8) -> (ip: u32)
    ensures
        ip == ipv4_spec(a, b, c, d),
        octets_spec(ip) == seq![a, b, c, d],
{
    proof {
        lemma_octets_roundtrip(0, a, b, c, d);
    }
    (a as u32) * 0x100_0000 + (b as u32) * 0x1_0000 + (c as u32) * 0x100 + (d as u32)
}

/// The four octets of an address, most significant first.
pub fn octets(ip: u32) -> (o: [u8; 4])
    ensures
        o@ == octets_spec(ip),
        ipv4_spec(o@[0], o@[1], o@[2], o@[3]) == ip,
{
    proof {
        lemma_octets_roundtrip(ip, 0, 0, 0, 0);
    }
    let o = [
        (ip / 0x100_0000) as u8,
        ((ip / 0x1_0000) % 0x100) as u8,
        ((ip / 0x100) % 0x100) as u8,
        (ip % 0x100) as u8,
    ];
    assert(o@ =~= octets_spec(ip));
    o
}

} // verus!
