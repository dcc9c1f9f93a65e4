//! Parsing of IPv4 and IPv6 addresses in their text notations.
use vstd::prelude::*;
use vstd::string::*;

use crate::text::{
    all_digits, digits_value, first_dot, find_dot, is_digit, is_digit_run, parse_u64,
};

verus! {

/// An IPv4 address, as its four octets.
#[derive(Clone, Copy, Debug, PartialEq, Eq, Structural)]
pub struct Ipv4Address {
    pub a: u8,
    pub b: u8,
    pub c: u8,
    pub d: u8,
}

/// One octet of dotted-quad notation: one to three digits, no leading zero
/// unless the octet is `0` itself, at most 255.
pub open spec fn octet_text(t: Seq<char>) -> Option<u8> {
    if all_digits(t) && t.len() <= 3 && (t.len() == 1 || t[0] != '0') && digits_value(t) <= 255 {
        Some(digits_value(t) as u8)
    } else {
        None
    }
}

/// Dotted-quad notation: exactly four octets separated by three dots.
pub open spec fn ipv4_text(s: Seq<char>) -> Option<Ipv4Address> {
    let p = first_dot(s, 0);
    let q = first_dot(s, p + 1);
    let r = first_dot(s, q + 1);
    if r < s.len() && first_dot(s, r + 1) == s.len() {
        match (
            octet_text(s.subrange(0, p)),
            octet_text(s.subrange(p + 1, q)),
            octet_text(s.subrange(q + 1, r)),
            octet_text(s.subrange(r + 1, s.len() as int)),
        ) {
            (Some(a), Some(b), Some(c), Some(d)) => Some(Ipv4Address { a, b, c, d }),
            _ => None,
        }
    } else {
        None
    }
}

fn parse_octet(s: &str, from: usize, to: usize) -> (r: Option<u8>)
    requires
        from <= to <= s@.len(),
    ensures
        r == octet_text(s@.subrange(from as int, to as int)),
{
    let ghost t = s@.subrange(from as int, to as int);
    let n = to - from;
    if n > 3 || !is_digit_run(s, from, to) {
        return None;
    }
    if n > 1 && s.get_char(from) == '0' {
        assert(t[0] == '0');
        return None;
    }
    let sub = s.substring_char(from, to);
    assert(sub@ == t);
    assert(is_digit(t[0]));
    match parse_u64(sub) {
        Some(v) => {
            if v <= 255 {
                Some(v as u8)
            } else {
                None
            }
        },
        None => None,
    }
}

/// Parses an IPv4 address written in dotted-quad notation.
pub fn parse_ipv4(s: &str) -> (r: Option<Ipv4Address>)
    ensures
        r == ipv4_text(s@),
{
    let len = s.unicode_len();
    let p = find_dot(s, len, 0);
    if p >= len {
        return None;
    }
    let q = find_dot(s, len, p + 1);
    if q >= len {
        return None;
    }
    let r = find_dot(s, len, q + 1);
    if r >= len {
        return None;
    }
    let e = find_dot(s, len, r + 1);
    if e < len {
        return None;
    }
    let a = parse_octet(s, 0, p);
    let b = parse_octet(s, p + 1, q);
    let c = parse_octet(s, q + 1, r);
    let d = parse_octet(s, r + 1, len);
    match (a, b, c, d) {
        (Some(a), Some(b), Some(c), Some(d)) => Some(Ipv4Address { a, b, c, d }),
        _ => None,
    }
}


pub open spec fn is_hex(c: char) -> bool {
    ('0' <= c && c <= '9') || ('a' <= c && c <= 'f') || ('A' <= c && c <= 'F')
}

pub open spec fn hex_value(c: char) -> nat {
    if '0' <= c && c <= '9' {
        (c as u32 - '0' as u32) as nat
    } else if 'a' <= c && c <= 'f' {
        (c as u32 - 'a' as u32 + 10) as nat
    } else {
        (c as u32 - 'A' as u32 + 10) as nat
    }
}

/// The number written in hexadecimal by `s[from..to]`.
pub open spec fn hex_run_value(s: Seq<char>, from: int, to: int) -> nat
    decreases to - from,
{
    if to <= from {
        0
    } else {
        hex_run_value(s, from, to - 1) * 16 + hex_value(s[to - 1])
    }
}

/// One group of an IPv6 address: one to four hexadecimal digits.
pub open spec fn hex_group(s: Seq<char>, from: int, to: int) -> Option<u16> {
    if 0 < to - from <= 4 && (forall|i: int| from <= i < to ==> is_hex(#[trigger] s[i])) {
        Some(hex_run_value(s, from, to) as u16)
    } else {
        None
    }
}

/// Index of the first `:` in `s[from..to]`, or `to` when there is none.
pub open spec fn first_colon(s: Seq<char>, from: int, to: int) -> int
    decreases to - from,
{
    if from >= to {
        to
    } else if s[from] == ':' {
        from
    } else {
        first_colon(s, from + 1, to)
    }
}

/// The last group of a run: a hexadecimal group or, where `v4_tail` allows,
/// an IPv4 address in dotted-quad notation that stands for two groups.
pub open spec fn last_group(s: Seq<char>, from: int, to: int, v4_tail: bool) -> Option<Seq<u16>> {
    match hex_group(s, from, to) {
        Some(g) => Some(seq![g]),
        None => if v4_tail {
            match ipv4_text(s.subrange(from, to)) {
                Some(a) => Some(
                    seq![(a.a as int * 256 + a.b as int) as u16, (a.c as int * 256 + a.d as int) as u16],
                ),
                None => None,
            }
        } else {
            None
        },
    }
}

/// The groups of `s[from..to]`, one or more groups separated by single `:`;
/// the last may be an IPv4 tail where `v4_tail` allows it.
pub open spec fn groups_text(s: Seq<char>, from: int, to: int, v4_tail: bool) -> Option<
    Seq<u16>,
>
    decreases to - from,
{
    let p = first_colon(s, from, to);
    if from > to || p < from {
        None
    } else if p >= to {
        last_group(s, from, to, v4_tail)
    } else {
        match (hex_group(s, from, p), groups_text(s, p + 1, to, v4_tail)) {
            (Some(g), Some(rest)) => Some(seq![g] + rest),
            _ => None,
        }
    }
}

/// Index of the first `::` in `s`, or the length when there is none.
pub open spec fn first_double_colon(s: Seq<char>, from: int) -> int
    decreases s.len() - from,
{
    if from + 1 >= s.len() {
        s.len() as int
    } else if s[from] == ':' && s[from + 1] == ':' {
        from
    } else {
        first_double_colon(s, from + 1)
    }
}

/// The groups on one side of a `::`: none when that side is empty.
pub open spec fn side_groups(s: Seq<char>, from: int, to: int, v4_tail: bool) -> Option<
    Seq<u16>,
> {
    if from == to {
        Some(Seq::empty())
    } else {
        groups_text(s, from, to, v4_tail)
    }
}

/// IPv6 text notation: eight groups separated by `:`, or fewer groups with a
/// single `::` that stands for one or more zero groups. The last two groups may
/// be written as an IPv4 address, though not before the `::`.
pub open spec fn ipv6_text(s: Seq<char>) -> Option<Seq<u16>> {
    let d = first_double_colon(s, 0);
    if d >= s.len() {
        match groups_text(s, 0, s.len() as int, true) {
            Some(g) => if g.len() == 8 {
                Some(g)
            } else {
                None
            },
            None => None,
        }
    } else {
        match (side_groups(s, 0, d, false), side_groups(s, d + 2, s.len() as int, true)) {
            (Some(h), Some(t)) => if h.len() + t.len() <= 7 {
                Some(h + Seq::new((8 - h.len() - t.len()) as nat, |i: int| 0u16) + t)
            } else {
                None
            },
            _ => None,
        }
    }
}

fn hex_char_value(c: char) -> (r: Option<u16>)
    ensures
        is_hex(c) ==> r == Some(hex_value(c) as u16),
        !is_hex(c) ==> r is None,
{
    if '0' <= c && c <= '9' {
        Some((c as u32 - '0' as u32) as u16)
    } else if 'a' <= c && c <= 'f' {
        Some((c as u32 - 'a' as u32 + 10) as u16)
    } else if 'A' <= c && c <= 'F' {
        Some((c as u32 - 'A' as u32 + 10) as u16)
    } else {
        None
    }
}

fn parse_hex_group(s: &str, from: usize, to: usize) -> (r: Option<u16>)
    requires
        from <= to <= s@.len(),
    ensures
        r == hex_group(s@, from as int, to as int),
{
    if to == from || to - from > 4 {
        return None;
    }
    let mut acc: u16 = 0;
    let mut i: usize = from;
    while i < to
        invariant
            from <= i <= to,
            to - from <= 4,
            to <= s@.len(),
            forall|j: int| from <= j < i ==> is_hex(#[trigger] s@[j]),
            acc == hex_run_value(s@, from as int, i as int),
            hex_run_value(s@, from as int, i as int) < pow16((i - from) as nat),
        decreases to - i,
    {
        let c = s.get_char(i);
        match hex_char_value(c) {
            Some(v) => {
                assert(pow16((i + 1 - from) as nat) == pow16((i - from) as nat) * 16);
                assert(pow16((i - from) as nat) <= 4096) by {
                    assert(pow16(0) == 1);
                    assert(pow16(1) == 16);
                    assert(pow16(2) == 256);
                    assert(pow16(3) == 4096);
                }
                acc = acc * 16 + v;
            },
            None => {
                return None;
            },
        }
        i = i + 1;
    }
    Some(acc)
}

pub open spec fn pow16(n: nat) -> nat
    decreases n,
{
    if n == 0 {
        1
    } else {
        16 * pow16((n - 1) as nat)
    }
}

fn find_colon(s: &str, from: usize, to: usize) -> (r: usize)
    requires
        from <= to <= s@.len(),
    ensures
        r == first_colon(s@, from as int, to as int),
        from <= r <= to,
    decreases to - from,
{
    if from >= to {
        to
    } else if s.get_char(from) == ':' {
        from
    } else {
        find_colon(s, from + 1, to)
    }
}

fn parse_last_group(s: &str, from: usize, to: usize, v4_tail: bool) -> (r: Option<Vec<u16>>)
    requires
        from <= to <= s@.len(),
    ensures
        match last_group(s@, from as int, to as int, v4_tail) {
            Some(g) => r is Some && r->Some_0@ == g,
            None => r is None,
        },
{
    match parse_hex_group(s, from, to) {
        Some(g) => {
            let v = vec![g];
            assert(v@ =~= seq![g]);
            Some(v)
        },
        None => {
            if !v4_tail {
                return None;
            }
            let sub = s.substring_char(from, to);
            match parse_ipv4(sub) {
                Some(a) => {
                    let v = vec![a.a as u16 * 256 + a.b as u16, a.c as u16 * 256 + a.d as u16];
                    assert(v@ =~= seq![
                        (a.a as int * 256 + a.b as int) as u16,
                        (a.c as int * 256 + a.d as int) as u16,
                    ]);
                    Some(v)
                },
                None => None,
            }
        },
    }
}

fn parse_groups(s: &str, from: usize, to: usize, v4_tail: bool) -> (r: Option<Vec<u16>>)
    requires
        from <= to <= s@.len(),
    ensures
        match groups_text(s@, from as int, to as int, v4_tail) {
            Some(g) => r is Some && r->Some_0@ == g,
            None => r is None,
        },
    decreases to - from,
{
    let p = find_colon(s, from, to);
    if p >= to {
        parse_last_group(s, from, to, v4_tail)
    } else {
        match parse_hex_group(s, from, p) {
            None => None,
            Some(g) => match parse_groups(s, p + 1, to, v4_tail) {
                None => None,
                Some(rest) => {
                    let mut v = rest;
                    v.insert(0, g);
                    assert(v@ =~= seq![g] + rest@);
                    Some(v)
                },
            },
        }
    }
}

fn find_double_colon(s: &str, len: usize, from: usize) -> (r: usize)
    requires
        len == s@.len(),
        from <= len,
    ensures
        r == first_double_colon(s@, from as int),
        r == len || (from <= r && r + 1 < len),
    decreases len - from,
{
    if len - from <= 1 {
        len
    } else if s.get_char(from) == ':' && s.get_char(from + 1) == ':' {
        from
    } else {
        find_double_colon(s, len, from + 1)
    }
}

/// An IPv6 address, as its eight 16-bit groups, most significant first.
#[derive(Clone, Copy, Debug, PartialEq, Eq, Structural)]
pub struct Ipv6Address {
    pub g0: u16,
    pub g1: u16,
    pub g2: u16,
    pub g3: u16,
    pub g4: u16,
    pub g5: u16,
    pub g6: u16,
    pub g7: u16,
}

impl Ipv6Address {
    pub open spec fn groups(self) -> Seq<u16> {
        seq![self.g0, self.g1, self.g2, self.g3, self.g4, self.g5, self.g6, self.g7]
    }
}

fn side(s: &str, from: usize, to: usize, v4_tail: bool) -> (r: Option<Vec<u16>>)
    requires
        from <= to <= s@.len(),
    ensures
        match side_groups(s@, from as int, to as int, v4_tail) {
            Some(g) => r is Some && r->Some_0@ == g,
            None => r is None,
        },
{
    if from == to {
        let v: Vec<u16> = Vec::new();
        assert(v@ =~= Seq::<u16>::empty());
        Some(v)
    } else {
        parse_groups(s, from, to, v4_tail)
    }
}

/// Parses an IPv6 address in its text notation, such as `fe80::1` or
/// `::ffff:192.168.0.1`.
pub fn parse_ipv6(s: &str) -> (r: Option<Ipv6Address>)
    ensures
        match ipv6_text(s@) {
            Some(g) => r is Some && r->Some_0.groups() == g,
            None => r is None,
        },
{
    let len = s.unicode_len();
    let d = find_double_colon(s, len, 0);
    let v: Vec<u16>;
    if d >= len {
        match parse_groups(s, 0, len, true) {
            Some(g) => {
                if g.len() != 8 {
                    return None;
                }
                v = g;
            },
            None => {
                return None;
            },
        }
    } else {
        let head = side(s, 0, d, false);
        let tail = side(s, d + 2, len, true);
        match (head, tail) {
            (Some(h), Some(t)) => {
                if h.len() > 7 || t.len() > 7 - h.len() {
                    return None;
                }
                let zeros: usize = 8 - h.len() - t.len();
                let ghost hv = h@;
                let mut w = h;
                let mut i: usize = 0;
                while i < zeros
                    invariant
                        i <= zeros,
                        w@ =~= hv + Seq::new(i as nat, |k: int| 0u16),
                    decreases zeros - i,
                {
                    w.push(0);
                    i = i + 1;
                }
                let mut j: usize = 0;
                while j < t.len()
                    invariant
                        j <= t@.len(),
                        w@ =~= hv + Seq::new(zeros as nat, |k: int| 0u16) + t@.subrange(0, j as int),
                    decreases t.len() - j,
                {
                    w.push(t[j]);
                    j = j + 1;
                }
                assert(t@.subrange(0, t@.len() as int) =~= t@);
                v = w;
            },
            _ => {
                return None;
            },
        }
    }
    assert(v@.len() == 8);
    let a = Ipv6Address {
        g0: v[0],
        g1: v[1],
        g2: v[2],
        g3: v[3],
        g4: v[4],
        g5: v[5],
        g6: v[6],
        g7: v[7],
    };
    assert(a.groups() =~= v@);
    Some(a)
}

/// An IP address of either version.
#[derive(Clone, Copy, Debug, PartialEq, Eq, Structural)]
pub enum IpAddress {
    V4(Ipv4Address),
    V6(Ipv6Address),
}

pub open spec fn ipv6_of(g: Seq<u16>) -> Ipv6Address {
    Ipv6Address { g0: g[0], g1: g[1], g2: g[2], g3: g[3], g4: g[4], g5: g[5], g6: g[6], g7: g[7] }
}

/// IPv4 dotted-quad notation, or else IPv6 notation.
pub open spec fn ip_text(s: Seq<char>) -> Option<IpAddress> {
    match ipv4_text(s) {
        Some(a) => Some(IpAddress::V4(a)),
        None => match ipv6_text(s) {
            Some(g) => Some(IpAddress::V6(ipv6_of(g))),
            None => None,
        },
    }
}

/// Parses an IPv4 or an IPv6 address.
pub fn parse_ip(s: &str) -> (r: Option<IpAddress>)
    ensures
        r == ip_text(s@),
{
    match parse_ipv4(s) {
        Some(a) => Some(IpAddress::V4(a)),
        None => match parse_ipv6(s) {
            Some(a) => {
                assert(a == ipv6_of(a.groups()));
                Some(IpAddress::V6(a))
            },
            None => None,
        },
    }
}

impl IpAddress {
    pub fn is_ipv4(&self) -> (r: bool)
        ensures
            r == (*self is V4),
    {
        match self {
            IpAddress::V4(_) => true,
            IpAddress::V6(_) => false,
        }
    }
}

} // verus!
