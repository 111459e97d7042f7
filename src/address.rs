//! Server addresses: a domain name or a literal IP address, with an
//! optional port, and their display text.
use vstd::prelude::*;
use crate::text::{decimal_string, decimal_text};

verus! {

/// A literal IP address, as its octets or its 16-bit segments.
#[derive(Clone, Copy, Debug)]
pub enum IpAddr {
    V4([u8; 4]),
    V6([u16; 8]),
}

/// The server's host: a domain name, taken as it is, or a literal IP address.
#[derive(Debug)]
pub enum DomainOrIp {
    Domain(String),
    Ip(IpAddr),
}

/// The character of a lower-case hexadecimal digit `d < 16`.
pub open spec fn hex_digit_char(d: nat) -> char {
    if d < 10 {
        crate::text::digit_char(d)
    } else if d == 10 { 'a' }
    else if d == 11 { 'b' }
    else if d == 12 { 'c' }
    else if d == 13 { 'd' }
    else if d == 14 { 'e' }
    else { 'f' }
}

/// Lower-case hexadecimal digits of `n`, without leading zeros.
pub open spec fn hex_text(n: nat) -> Seq<char>
    decreases n,
{
    if n < 16 {
        seq![hex_digit_char(n)]
    } else {
        hex_text(n / 16).push(hex_digit_char(n % 16))
    }
}

/// Dotted-decimal text of four octets.
pub open spec fn v4_text(a: nat, b: nat, c: nat, d: nat) -> Seq<char> {
    decimal_text(a) + seq!['.'] + decimal_text(b) + seq!['.'] + decimal_text(c) + seq!['.']
        + decimal_text(d)
}

/// Hexadecimal segments joined by `:`.
pub open spec fn hex_list(s: Seq<u16>) -> Seq<char>
    decreases s.len(),
{
    if s.len() == 0 {
        Seq::empty()
    } else if s.len() == 1 {
        hex_text(s[0] as nat)
    } else {
        hex_list(s.drop_last()) + seq![':'] + hex_text(s.last() as nat)
    }
}

/// Number of consecutive zero segments starting at `i`.
pub open spec fn zero_run(s: Seq<u16>, i: int) -> nat
    decreases s.len() - i,
{
    if i < 0 || i >= s.len() || s[i] != 0 {
        0
    } else {
        1 + zero_run(s, i + 1)
    }
}

/// Start and length of the first longest run of zero segments at or after `i`.
pub open spec fn longest_zero_run(s: Seq<u16>, i: int) -> (int, nat)
    decreases s.len() - i,
{
    if i < 0 || i >= s.len() {
        (s.len() as int, 0)
    } else {
        let rest = longest_zero_run(s, i + 1);
        if zero_run(s, i) >= rest.1 {
            (i, zero_run(s, i))
        } else {
            rest
        }
    }
}

/// Text of an IPv6 address: an IPv4-mapped address as `::ffff:` and dotted
/// decimal; otherwise lower-case hexadecimal segments joined by `:`, the
/// first longest run of two or more zero segments written as `::`.
pub open spec fn v6_text(s: Seq<u16>) -> Seq<char> {
    if s[0] == 0 && s[1] == 0 && s[2] == 0 && s[3] == 0 && s[4] == 0 && s[5] == 0xffff {
        seq![':', ':', 'f', 'f', 'f', 'f', ':'] + v4_text(
            (s[6] / 256) as nat,
            (s[6] % 256) as nat,
            (s[7] / 256) as nat,
            (s[7] % 256) as nat,
        )
    } else {
        let (start, len) = longest_zero_run(s, 0);
        if len > 1 {
            hex_list(s.subrange(0, start)) + seq![':', ':'] + hex_list(
                s.subrange(start + len, 8),
            )
        } else {
            hex_list(s)
        }
    }
}

/// Text of an IP address.
pub open spec fn ip_text(ip: IpAddr) -> Seq<char> {
    match ip {
        IpAddr::V4(o) => v4_text(o[0] as nat, o[1] as nat, o[2] as nat, o[3] as nat),
        IpAddr::V6(s) => v6_text(s@),
    }
}

/// Text of a host: the domain as it is, or the address's text.
pub open spec fn host_text(h: DomainOrIp) -> Seq<char> {
    match h {
        DomainOrIp::Domain(d) => d@,
        DomainOrIp::Ip(ip) => ip_text(ip),
    }
}

/// `host` alone when no port is set, else `host:port`.
pub open spec fn address_text(host: Seq<char>, port: Option<u16>) -> Seq<char> {
    match port {
        None => host,
        Some(p) => host + seq![':'] + decimal_text(p as nat),
    }
}

fn hex_digit_str(d: u16) -> (r: &'static str)
    requires
        d < 16,
    ensures
        r@ == seq![hex_digit_char(d as nat)],
{
    proof {
        reveal_strlit("0");
        reveal_strlit("1");
        reveal_strlit("2");
        reveal_strlit("3");
        reveal_strlit("4");
        reveal_strlit("5");
        reveal_strlit("6");
        reveal_strlit("7");
        reveal_strlit("8");
        reveal_strlit("9");
        reveal_strlit("a");
        reveal_strlit("b");
        reveal_strlit("c");
        reveal_strlit("d");
        reveal_strlit("e");
        reveal_strlit("f");
    }
    if d == 0 { "0" }
    else if d == 1 { "1" }
    else if d == 2 { "2" }
    else if d == 3 { "3" }
    else if d == 4 { "4" }
    else if d == 5 { "5" }
    else if d == 6 { "6" }
    else if d == 7 { "7" }
    else if d == 8 { "8" }
    else if d == 9 { "9" }
    else if d == 10 { "a" }
    else if d == 11 { "b" }
    else if d == 12 { "c" }
    else if d == 13 { "d" }
    else if d == 14 { "e" }
    else {
        assert(d == 15);
        "f"
    }
}

fn hex_string(n: u16) -> (r: String)
    ensures
        r@ == hex_text(n as nat),
    decreases n,
{
    if n < 16 {
        String::from_str(hex_digit_str(n))
    } else {
        let mut s = hex_string(n / 16);
        s.append(hex_digit_str(n % 16));
        s
    }
}

fn v4_string(a: u8, b: u8, c: u8, d: u8) -> (r: String)
    ensures
        r@ == v4_text(a as nat, b as nat, c as nat, d as nat),
{
    proof {
        reveal_strlit(".");
    }
    let mut r = decimal_string(a as u64);
    r.append(".");
    r.append(decimal_string(b as u64).as_str());
    r.append(".");
    r.append(decimal_string(c as u64).as_str());
    r.append(".");
    r.append(decimal_string(d as u64).as_str());
    r
}

/// Appends the segments `s[from..to]` in hexadecimal, joined by `:`.
fn hex_list_string(s: &[u16; 8], from: usize, to: usize) -> (r: String)
    requires
        from <= to <= 8,
    ensures
        r@ == hex_list(s@.subrange(from as int, to as int)),
{
    let mut r = String::new();
    let mut i: usize = from;
    while i < to
        invariant
            from <= i <= to <= 8,
            r@ == hex_list(s@.subrange(from as int, i as int)),
        decreases to - i,
    {
        proof {
            reveal_strlit(":");
            let next = s@.subrange(from as int, i as int + 1);
            assert(next.drop_last() =~= s@.subrange(from as int, i as int));
        }
        if i > from {
            r.append(":");
        }
        r.append(hex_string(s[i]).as_str());
        i = i + 1;
    }
    r
}

fn zero_run_at(s: &[u16; 8], i: usize) -> (r: usize)
    requires
        i <= 8,
    ensures
        r as nat == zero_run(s@, i as int),
        r <= 8 - i,
    decreases 8 - i,
{
    if i >= 8 || s[i] != 0 {
        0
    } else {
        1 + zero_run_at(s, i + 1)
    }
}

fn longest_zero_run_from(s: &[u16; 8], i: usize) -> (r: (usize, usize))
    requires
        i <= 8,
    ensures
        (r.0 as int, r.1 as nat) == longest_zero_run(s@, i as int),
        i <= r.0 <= 8,
        r.0 + r.1 <= 8,
    decreases 8 - i,
{
    if i >= 8 {
        (8, 0)
    } else {
        let rest = longest_zero_run_from(s, i + 1);
        let here = zero_run_at(s, i);
        if here >= rest.1 {
            (i, here)
        } else {
            rest
        }
    }
}

fn v6_string(s: &[u16; 8]) -> (r: String)
    ensures
        r@ == v6_text(s@),
{
    if s[0] == 0 && s[1] == 0 && s[2] == 0 && s[3] == 0 && s[4] == 0 && s[5] == 0xffff {
        proof {
            reveal_strlit("::ffff:");
        }
        let mut r = String::from_str("::ffff:");
        let v = v4_string((s[6] / 256) as u8, (s[6] % 256) as u8, (s[7] / 256) as u8, (s[7] % 256) as u8);
        r.append(v.as_str());
        r
    } else {
        let (start, len) = longest_zero_run_from(s, 0);
        if len > 1 {
            proof {
                reveal_strlit("::");
            }
            let mut r = hex_list_string(s, 0, start);
            r.append("::");
            r.append(hex_list_string(s, start + len, 8).as_str());
            r
        } else {
            let r = hex_list_string(s, 0, 8);
            assert(s@.subrange(0, 8) =~= s@);
            r
        }
    }
}

impl IpAddr {
    /// The address's text: dotted decimal for IPv4; for IPv6 the compressed
    /// lower-case hexadecimal form.
    pub fn to_text(&self) -> (r: String)
        ensures
            r@ == ip_text(*self),
    {
        match self {
            IpAddr::V4(o) => v4_string(o[0], o[1], o[2], o[3]),
            IpAddr::V6(s) => v6_string(s),
        }
    }
}

impl DomainOrIp {
    /// The host's text: the domain as it is, or the IP address's text.
    pub fn host_string(&self) -> (r: String)
        ensures
            r@ == host_text(*self),
    {
        match self {
            DomainOrIp::Domain(domain) => domain.clone(),
            DomainOrIp::Ip(ip) => ip.to_text(),
        }
    }
}

impl Clone for DomainOrIp {
    fn clone(&self) -> (r: DomainOrIp)
        ensures
            r == *self,
    {
        match self {
            DomainOrIp::Domain(domain) => DomainOrIp::Domain(domain.clone()),
            DomainOrIp::Ip(ip) => DomainOrIp::Ip(*ip),
        }
    }
}

impl From<DomainOrIp> for String {
    /// The host's text, as `DomainOrIp::host_string` gives it.
    fn from(value: DomainOrIp) -> (r: String)
        ensures
            r@ == host_text(value),
    {
        value.host_string()
    }
}

impl vstd::std_specs::convert::FromSpecImpl<DomainOrIp> for String {
    open spec fn obeys_from_spec() -> bool {
        false
    }

    open spec fn from_spec(v: DomainOrIp) -> String {
        arbitrary()
    }
}

} // verus!
