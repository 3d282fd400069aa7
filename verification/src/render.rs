//! Rendering of traffic-class keys as strings. A snapshot maps each class to
//! its count, and the wire form of that map needs string keys, so the whole
//! structured key is rendered into one JSON-shaped string token per class:
//! `{"protocol":2048,"source":"aa:bb:cc:dd:ee:ff","destination":...,
//! "ip_header":{...}}`, with hardware addresses as colon-separated lowercase
//! hex pairs, IPv4 addresses dotted decimal, and IPv6 addresses as eight
//! colon-separated groups of four hex digits.

use vstd::prelude::*;
use vstd::string::StringExecFns;

use crate::codec::{HeaderKey, IpAddress, NetworkHeader};

verus! {

/// The character for one decimal digit.
pub open spec fn dec_digit(d: nat) -> char {
    if d == 0 {
        '0'
    } else if d == 1 {
        '1'
    } else if d == 2 {
        '2'
    } else if d == 3 {
        '3'
    } else if d == 4 {
        '4'
    } else if d == 5 {
        '5'
    } else if d == 6 {
        '6'
    } else if d == 7 {
        '7'
    } else if d == 8 {
        '8'
    } else {
        '9'
    }
}

/// The character for one hex digit, lowercase.
pub open spec fn hex_digit(d: nat) -> char {
    if d < 10 {
        dec_digit(d)
    } else if d == 10 {
        'a'
    } else if d == 11 {
        'b'
    } else if d == 12 {
        'c'
    } else if d == 13 {
        'd'
    } else if d == 14 {
        'e'
    } else {
        'f'
    }
}

/// The decimal rendering of `n`, without leading zeroes.
pub open spec fn dec_str(n: nat) -> Seq<char>
    decreases n,
{
    if n < 10 {
        seq![dec_digit(n)]
    } else {
        dec_str(n / 10) + seq![dec_digit(n % 10)]
    }
}

/// One byte as two lowercase hex digits.
pub open spec fn hex_byte_str(b: nat) -> Seq<char> {
    seq![hex_digit(b / 16 % 16), hex_digit(b % 16)]
}

/// A 16-bit group as four lowercase hex digits.
pub open spec fn hex_group_str(g: nat) -> Seq<char> {
    seq![
        hex_digit(g / 4096 % 16),
        hex_digit(g / 256 % 16),
        hex_digit(g / 16 % 16),
        hex_digit(g % 16),
    ]
}

/// A hardware address (low 48 bits of `m`) as six colon-separated hex pairs.
pub open spec fn mac_str(m: u64) -> Seq<char> {
    hex_byte_str((m / 0x10000000000) as nat % 256) + ":"@ + hex_byte_str(
        (m / 0x100000000) as nat % 256,
    ) + ":"@ + hex_byte_str((m / 0x1000000) as nat % 256) + ":"@ + hex_byte_str(
        (m / 0x10000) as nat % 256,
    ) + ":"@ + hex_byte_str((m / 0x100) as nat % 256) + ":"@ + hex_byte_str(m as nat % 256)
}

/// An IPv4 address as dotted decimal.
pub open spec fn ipv4_str(a: u32) -> Seq<char> {
    dec_str((a / 0x1000000) as nat % 256) + "."@ + dec_str((a / 0x10000) as nat % 256) + "."@
        + dec_str((a / 0x100) as nat % 256) + "."@ + dec_str(a as nat % 256)
}

/// An IPv6 address as eight colon-separated groups of four hex digits.
pub open spec fn ipv6_str(a: u128) -> Seq<char> {
    hex_group_str((a / 0x10000000000000000000000000000) as nat % 65536) + ":"@ + hex_group_str(
        (a / 0x1000000000000000000000000) as nat % 65536,
    ) + ":"@ + hex_group_str((a / 0x100000000000000000000) as nat % 65536) + ":"@ + hex_group_str(
        (a / 0x10000000000000000) as nat % 65536,
    ) + ":"@ + hex_group_str((a / 0x1000000000000) as nat % 65536) + ":"@ + hex_group_str(
        (a / 0x100000000) as nat % 65536,
    ) + ":"@ + hex_group_str((a / 0x10000) as nat % 65536) + ":"@ + hex_group_str(a as nat % 65536)
}

/// A network-layer address in its textual form.
pub open spec fn ip_str(a: IpAddress) -> Seq<char> {
    match a {
        IpAddress::V4(v) => ipv4_str(v),
        IpAddress::V6(v) => ipv6_str(v),
    }
}

/// The network-layer part of a key token.
pub open spec fn network_str(n: Option<NetworkHeader>) -> Seq<char> {
    match n {
        None => "null"@,
        Some(h) => "{\"source\":\""@ + ip_str(h.source) + "\",\"destination\":\""@ + ip_str(
            h.destination,
        ) + "\",\"protocol\":"@ + dec_str(h.next_protocol as nat) + "}"@,
    }
}

/// The whole key as one string token.
pub open spec fn key_str(k: HeaderKey) -> Seq<char> {
    "{\"protocol\":"@ + dec_str(k.ether_type as nat) + ",\"source\":\""@ + mac_str(k.source_mac)
        + "\",\"destination\":\""@ + mac_str(k.destination_mac) + "\",\"ip_header\":"@
        + network_str(k.network) + "}"@
}

/// The one-character string for a decimal digit.
fn digit_str(d: u64) -> (r: &'static str)
    requires
        d < 10,
    ensures
        r@ == seq![dec_digit(d as nat)],
{
    proof {
        reveal_strlit("0");
        reveal_strlit("1");
        reveal_strlit("2");
        reveal_strlit("3");
        reveal_strlit("4");
        reveal_strlit("5");
        reveal_strlit("6");
        reveal_strlit("7");
        reveal_strlit("8");
        reveal_strlit("9");
    }
    let r = match d {
        0 => "0",
        1 => "1",
        2 => "2",
        3 => "3",
        4 => "4",
        5 => "5",
        6 => "6",
        7 => "7",
        8 => "8",
        _ => "9",
    };
    proof {
        assert(r@ =~= seq![dec_digit(d as nat)]);
    }
    r
}

/// The one-character string for a hex digit.
fn hex_digit_str(d: u64) -> (r: &'static str)
    requires
        d < 16,
    ensures
        r@ == seq![hex_digit(d as nat)],
{
    if d < 10 {
        digit_str(d)
    } else {
        proof {
            reveal_strlit("a");
            reveal_strlit("b");
            reveal_strlit("c");
            reveal_strlit("d");
            reveal_strlit("e");
            reveal_strlit("f");
        }
        let r = match d {
            10 => "a",
            11 => "b",
            12 => "c",
            13 => "d",
            14 => "e",
            _ => "f",
        };
        proof {
            assert(r@ =~= seq![hex_digit(d as nat)]);
        }
        r
    }
}

/// Appends the decimal rendering of `n`.
fn push_dec(out: &mut String, n: u64)
    ensures
        final(out)@ == old(out)@ + dec_str(n as nat),
    decreases n,
{
    if n < 10 {
        out.append(digit_str(n));
    } else {
        push_dec(out, n / 10);
        out.append(digit_str(n % 10));
        proof {
            assert(final(out)@ =~= old(out)@ + dec_str(n as nat));
        }
    }
}

/// Appends one byte as two hex digits.
fn push_hex_byte(out: &mut String, b: u64)
    requires
        b < 256,
    ensures
        final(out)@ == old(out)@ + hex_byte_str(b as nat),
{
    out.append(hex_digit_str(b / 16));
    out.append(hex_digit_str(b % 16));
    proof {
        assert(final(out)@ =~= old(out)@ + hex_byte_str(b as nat));
    }
}

/// Appends a 16-bit group as four hex digits.
fn push_hex_group(out: &mut String, g: u64)
    requires
        g < 65536,
    ensures
        final(out)@ == old(out)@ + hex_group_str(g as nat),
{
    out.append(hex_digit_str(g / 4096));
    out.append(hex_digit_str(g / 256 % 16));
    out.append(hex_digit_str(g / 16 % 16));
    out.append(hex_digit_str(g % 16));
    proof {
        assert(final(out)@ =~= old(out)@ + hex_group_str(g as nat));
    }
}

/// Appends the hardware-address form of the low 48 bits of `m`.
fn push_mac(out: &mut String, m: u64)
    ensures
        final(out)@ == old(out)@ + mac_str(m),
{
    push_hex_byte(out, m / 0x10000000000 % 256);
    out.append(":");
    push_hex_byte(out, m / 0x100000000 % 256);
    out.append(":");
    push_hex_byte(out, m / 0x1000000 % 256);
    out.append(":");
    push_hex_byte(out, m / 0x10000 % 256);
    out.append(":");
    push_hex_byte(out, m / 0x100 % 256);
    out.append(":");
    push_hex_byte(out, m % 256);
    proof {
        assert(final(out)@ =~= old(out)@ + mac_str(m));
    }
}

/// The hardware address of an interface as text.
pub fn mac_string(m: u64) -> (r: String)
    ensures
        r@ == mac_str(m),
{
    let mut out = String::new();
    push_mac(&mut out, m);
    proof {
        assert(out@ =~= mac_str(m));
    }
    out
}

/// Appends the dotted-decimal form of an IPv4 address.
fn push_ipv4(out: &mut String, a: u32)
    ensures
        final(out)@ == old(out)@ + ipv4_str(a),
{
    push_dec(out, (a / 0x1000000 % 256) as u64);
    out.append(".");
    push_dec(out, (a / 0x10000 % 256) as u64);
    out.append(".");
    push_dec(out, (a / 0x100 % 256) as u64);
    out.append(".");
    push_dec(out, (a % 256) as u64);
    proof {
        assert(final(out)@ =~= old(out)@ + ipv4_str(a));
    }
}

/// Appends the grouped-hex form of an IPv6 address.
#[verifier::rlimit(50)]
fn push_ipv6(out: &mut String, a: u128)
    ensures
        final(out)@ == old(out)@ + ipv6_str(a),
{
    push_hex_group(out, (a / 0x10000000000000000000000000000 % 65536) as u64);
    out.append(":");
    push_hex_group(out, (a / 0x1000000000000000000000000 % 65536) as u64);
    out.append(":");
    push_hex_group(out, (a / 0x100000000000000000000 % 65536) as u64);
    out.append(":");
    push_hex_group(out, (a / 0x10000000000000000 % 65536) as u64);
    out.append(":");
    push_hex_group(out, (a / 0x1000000000000 % 65536) as u64);
    out.append(":");
    push_hex_group(out, (a / 0x100000000 % 65536) as u64);
    out.append(":");
    push_hex_group(out, (a / 0x10000 % 65536) as u64);
    out.append(":");
    push_hex_group(out, (a % 65536) as u64);
    proof {
        assert(final(out)@ =~= old(out)@ + ipv6_str(a));
    }
}

/// Appends the textual form of a network-layer address.
fn push_ip(out: &mut String, a: &IpAddress)
    ensures
        final(out)@ == old(out)@ + ip_str(*a),
{
    match a {
        IpAddress::V4(v) => push_ipv4(out, *v),
        IpAddress::V6(v) => push_ipv6(out, *v),
    }
}

/// Renders the network-layer part of a key token.
fn network_string(n: &Option<NetworkHeader>) -> (r: String)
    ensures
        r@ == network_str(*n),
{
    let mut out = String::new();
    match n {
        None => {
            out.append("null");
            proof {
                assert(out@ =~= "null"@);
            }
        },
        Some(h) => {
            out.append("{\"source\":\"");
            proof {
                assert(out@ =~= "{\"source\":\""@);
            }
            push_ip(&mut out, &h.source);
            out.append("\",\"destination\":\"");
            push_ip(&mut out, &h.destination);
            out.append("\",\"protocol\":");
            push_dec(&mut out, h.next_protocol as u64);
            out.append("}");
        },
    }
    out
}

/// Renders a traffic-class key as its string token, one per traffic class,
/// for use as the key of a snapshot map.
pub fn key_string(k: &HeaderKey) -> (r: String)
    ensures
        r@ == key_str(*k),
{
    let mut out = String::new();
    out.append("{\"protocol\":");
    proof {
        assert(out@ =~= "{\"protocol\":"@);
    }
    push_dec(&mut out, k.ether_type as u64);
    out.append(",\"source\":\"");
    push_mac(&mut out, k.source_mac);
    out.append("\",\"destination\":\"");
    push_mac(&mut out, k.destination_mac);
    out.append("\",\"ip_header\":");
    let network = network_string(&k.network);
    out.append(network.as_str());
    out.append("}");
    out
}

} // verus!
