//! Parsing of the numbers, temperatures and boolean words found in a
//! configuration source.
use vstd::prelude::*;
use vstd::string::*;

verus! {

/// Whether `c` is an ASCII decimal digit.
pub open spec fn is_digit(c: char) -> bool {
    '0' <= c && c <= '9'
}

/// Whether `s` is a non-empty run of ASCII decimal digits.
pub open spec fn all_digits(s: Seq<char>) -> bool {
    s.len() > 0 && forall|i: int| 0 <= i < s.len() ==> is_digit(#[trigger] s[i])
}

pub open spec fn digit_value(c: char) -> nat {
    (c as u32 - '0' as u32) as nat
}

/// The number written in decimal by the digits of `s` (most significant first).
pub open spec fn digits_value(s: Seq<char>) -> nat
    decreases s.len(),
{
    if s.len() == 0 {
        0
    } else {
        digits_value(s.drop_last()) * 10 + digit_value(s.last())
    }
}

/// What `u64`'s `FromStr` accepts: an optional `+`, then one or more digits
/// whose value fits in a `u64`.
pub open spec fn u64_text(s: Seq<char>) -> Option<u64> {
    let body = if s.len() > 0 && s[0] == '+' { s.drop_first() } else { s };
    if all_digits(body) && digits_value(body) <= u64::MAX {
        Some(digits_value(body) as u64)
    } else {
        None
    }
}

/// Relies on `<u64 as FromStr>::from_str`: an optional `+` followed by decimal
/// digits, rejected when empty, when any other character occurs or when the
/// value overflows.
#[verifier::external_body]
pub(crate) fn parse_u64(s: &str) -> (r: Option<u64>)
    ensures
        r == u64_text(s@),
{
    s.parse::<u64>().ok()
}

/// Whether every character of `s[from..to]` is a digit, the run being non-empty.
pub(crate) fn is_digit_run(s: &str, from: usize, to: usize) -> (r: bool)
    requires
        from <= to <= s@.len(),
    ensures
        r == all_digits(s@.subrange(from as int, to as int)),
{
    if from == to {
        return false;
    }
    let mut i: usize = from;
    while i < to
        invariant
            from <= i <= to,
            to <= s@.len(),
            forall|j: int| from <= j < i ==> is_digit(#[trigger] s@[j]),
        decreases to - i,
    {
        let c = s.get_char(i);
        if !('0' <= c && c <= '9') {
            assert(s@.subrange(from as int, to as int)[i - from] == c);
            return false;
        }
        i = i + 1;
    }
    assert forall|j: int| 0 <= j < to - from implies is_digit(
        #[trigger] s@.subrange(from as int, to as int)[j],
    ) by {
        assert(s@.subrange(from as int, to as int)[j] == s@[from + j]);
    }
    true
}

/// A temperature in hundredths of a degree Celsius.
#[derive(Clone, Copy, Debug, PartialEq, Eq, Structural)]
pub struct Temperature {
    pub hundredths: i64,
}

/// Whether `s[from..to]` holds only decimal digits (it may be empty).
pub open spec fn digits_in(s: Seq<char>, from: int, to: int) -> bool {
    from <= to && forall|i: int| from <= i < to ==> is_digit(#[trigger] s[i])
}

fn digits_between(s: &str, from: usize, to: usize) -> (r: bool)
    requires
        from <= to <= s@.len(),
    ensures
        r == digits_in(s@, from as int, to as int),
{
    let mut i: usize = from;
    while i < to
        invariant
            from <= i <= to,
            to <= s@.len(),
            forall|j: int| from <= j < i ==> is_digit(#[trigger] s@[j]),
        decreases to - i,
    {
        let c = s.get_char(i);
        if !('0' <= c && c <= '9') {
            return false;
        }
        i = i + 1;
    }
    true
}

/// Index of the first `e` or `E` at or after `from`, or the length when there is none.
pub open spec fn first_exp(s: Seq<char>, from: int) -> int
    decreases s.len() - from,
{
    if from >= s.len() {
        s.len() as int
    } else if s[from] == 'e' || s[from] == 'E' {
        from
    } else {
        first_exp(s, from + 1)
    }
}

fn find_exp(s: &str, len: usize, from: usize) -> (r: usize)
    requires
        len == s@.len(),
        from <= len,
    ensures
        r == first_exp(s@, from as int),
        from <= r <= len,
    decreases len - from,
{
    if from >= len {
        len
    } else if s.get_char(from) == 'e' || s.get_char(from) == 'E' {
        from
    } else {
        find_exp(s, len, from + 1)
    }
}

/// Digit `i` of a mantissa whose integer digits are `s[a..a + il]` and whose
/// fraction digits are `s[b..b + fl]`; zero outside them.
pub open spec fn mant_digit(s: Seq<char>, a: int, il: int, b: int, fl: int, i: int) -> nat {
    if 0 <= i < il {
        digit_value(s[a + i])
    } else if il <= i < il + fl {
        digit_value(s[b + i - il])
    } else {
        0
    }
}

/// The number written by the first `c` digits of the mantissa.
pub open spec fn scaled(s: Seq<char>, a: int, il: int, b: int, fl: int, c: int) -> nat
    decreases c,
{
    if c <= 0 {
        0
    } else {
        scaled(s, a, il, b, fl, c - 1) * 10 + mant_digit(s, a, il, b, fl, c - 1)
    }
}

/// The mantissa cut after `c` digits, rounded on the next digit, halves up.
pub open spec fn rounded(s: Seq<char>, a: int, il: int, b: int, fl: int, c: int) -> nat {
    scaled(s, a, il, b, fl, c) + if mant_digit(s, a, il, b, fl, c) >= 5 {
        1nat
    } else {
        0nat
    }
}

pub open spec fn saturate(m: nat, bound: nat) -> nat {
    if m > bound {
        bound
    } else {
        m
    }
}

/// Decimal notation of a finite number: an optional sign; integer digits, a
/// `.` and fraction digits, where either side of the `.` may be empty but not
/// both, and the `.` may be left out; then optionally `e` or `E`, an optional
/// sign and one or more exponent digits. Words such as `inf` or `nan` are
/// refused. The value is rounded to the nearest hundredth, halves away from
/// zero, and a magnitude above `i64::MAX` hundredths is held at `i64::MAX`.
pub open spec fn temperature_text(s: Seq<char>) -> Option<Temperature> {
    let a: int = if s.len() > 0 && (s[0] == '-' || s[0] == '+') {
        1
    } else {
        0
    };
    let e = first_exp(s, a);
    let dot = if first_dot(s, a) < e {
        first_dot(s, a)
    } else {
        e
    };
    let il = dot - a;
    let b = if dot < e {
        dot + 1
    } else {
        e
    };
    let fl = e - b;
    if digits_in(s, a, dot) && digits_in(s, b, e) && il + fl >= 1 {
        match exponent_cut(s, e, il) {
            Some(cut) => Some(
                Temperature {
                    hundredths: signed_value(
                        s.len() > 0 && s[0] == '-',
                        saturate(rounded(s, a, il, b, fl, cut), i64::MAX as nat),
                    ) as i64,
                },
            ),
            None => None,
        }
    } else {
        None
    }
}

pub open spec fn signed_value(negative: bool, h: nat) -> int {
    if negative {
        -h
    } else {
        h as int
    }
}

/// Where the mantissa is cut to reach hundredths: after the `il` integer
/// digits, moved by the exponent that starts at `e` (if `e` is not the end),
/// plus two. `None` when the exponent is malformed.
pub open spec fn exponent_cut(s: Seq<char>, e: int, il: int) -> Option<int> {
    let es = e + 1;
    let ds = if es < s.len() && (s[es] == '-' || s[es] == '+') {
        es + 1
    } else {
        es
    };
    if e == s.len() {
        Some(il + 2)
    } else if ds < s.len() && digits_in(s, ds, s.len() as int) {
        let dv = digits_value(s.subrange(ds, s.len() as int));
        if s[es] == '-' {
            Some(il + 2 - dv)
        } else {
            Some(il + 2 + dv)
        }
    } else {
        None
    }
}

proof fn lemma_scaled_monotone(s: Seq<char>, a: int, il: int, b: int, fl: int, i: int, c: int)
    requires
        i <= c,
    ensures
        scaled(s, a, il, b, fl, i) <= scaled(s, a, il, b, fl, c),
    decreases c - i,
{
    if i < c {
        lemma_scaled_monotone(s, a, il, b, fl, i, c - 1);
    }
}

proof fn lemma_zero_beyond(s: Seq<char>, a: int, il: int, b: int, fl: int, i: int, c: int)
    requires
        il >= 0,
        fl >= 0,
        il + fl <= i <= c,
        scaled(s, a, il, b, fl, i) == 0,
    ensures
        scaled(s, a, il, b, fl, c) == 0,
    decreases c - i,
{
    if i < c {
        lemma_zero_beyond(s, a, il, b, fl, i, c - 1);
    }
}

pub open spec fn pow10(n: nat) -> nat
    decreases n,
{
    if n == 0 {
        1
    } else {
        10 * pow10((n - 1) as nat)
    }
}

proof fn lemma_grow(s: Seq<char>, a: int, il: int, b: int, fl: int, j: nat)
    requires
        il >= 0,
        fl >= 0,
        scaled(s, a, il, b, fl, il + fl) >= 1,
    ensures
        scaled(s, a, il, b, fl, il + fl + j) >= pow10(j),
    decreases j,
{
    if j > 0 {
        lemma_grow(s, a, il, b, fl, (j - 1) as nat);
    }
}

/// Far enough past the last digit, the capped rounded value no longer depends
/// on where the mantissa is cut.
proof fn lemma_far_cut(s: Seq<char>, a: int, il: int, b: int, fl: int, c1: int, c2: int)
    requires
        il >= 0,
        fl >= 0,
        c1 >= il + fl + 19,
        c2 >= il + fl + 19,
    ensures
        saturate(rounded(s, a, il, b, fl, c1), i64::MAX as nat) == saturate(
            rounded(s, a, il, b, fl, c2),
            i64::MAX as nat,
        ),
{
    let l = il + fl;
    if scaled(s, a, il, b, fl, l) == 0 {
        lemma_zero_beyond(s, a, il, b, fl, l, c1);
        lemma_zero_beyond(s, a, il, b, fl, l, c2);
    } else {
        lemma_grow(s, a, il, b, fl, 19);
        assert(pow10(19) == 10000000000000000000nat) by {
            reveal_with_fuel(pow10, 20);
        }
        lemma_scaled_monotone(s, a, il, b, fl, l + 19, c1);
        lemma_scaled_monotone(s, a, il, b, fl, l + 19, c2);
    }
}

fn mant_digit_at(s: &str, a: usize, il: usize, b: usize, fl: usize, i: i128) -> (r: u128)
    requires
        s@.len() <= usize::MAX,
        a + il <= s@.len(),
        b + fl <= s@.len(),
        digits_in(s@, a as int, a + il),
        digits_in(s@, b as int, b + fl),
    ensures
        r == mant_digit(s@, a as int, il as int, b as int, fl as int, i as int),
        r <= 9,
{
    if 0 <= i && i < il as i128 {
        let k: usize = i as usize;
        assert(k == i);
        let c = s.get_char(a + k);
        assert(is_digit(s@[a + i]));
        (c as u32 - '0' as u32) as u128
    } else if il as i128 <= i && i < il as i128 + fl as i128 {
        let k: usize = (i - il as i128) as usize;
        assert(k == i - il);
        let c = s.get_char(b + k);
        assert(is_digit(s@[b + i - il]));
        (c as u32 - '0' as u32) as u128
    } else {
        0
    }
}

/// The mantissa cut after `cut` digits and rounded, held at `i64::MAX + 1`.
fn rounded_capped(s: &str, a: usize, il: usize, b: usize, fl: usize, cut: i128) -> (r: u128)
    requires
        s@.len() <= usize::MAX,
        a + il <= s@.len(),
        b + fl <= s@.len(),
        digits_in(s@, a as int, a + il),
        digits_in(s@, b as int, b + fl),
        -0x1_0000_0000_0000_0000_0000 <= cut <= 0x1_0000_0000_0000_0000_0000,
    ensures
        r == saturate(
            rounded(s@, a as int, il as int, b as int, fl as int, cut as int),
            0x8000_0000_0000_0000nat,
        ),
{
    let ghost (sv, ai, ili, bi, fli) = (s@, a as int, il as int, b as int, fl as int);
    let big: u128 = 0x8000_0000_0000_0000;
    let l: i128 = il as i128 + fl as i128;
    let mut acc: u128 = 0;
    let mut i: i128 = 0;
    while i < cut && acc < big && !(i >= l && acc == 0)
        invariant
            0 <= i,
            cut >= 0 ==> i <= cut,
            cut < 0 ==> i == 0,
            l == il + fl,
            s@.len() <= usize::MAX,
            a + il <= s@.len(),
            b + fl <= s@.len(),
            digits_in(s@, a as int, a + il),
            digits_in(s@, b as int, b + fl),
            big == 0x8000_0000_0000_0000u128,
            sv == s@,
            ai == a,
            ili == il,
            bi == b,
            fli == fl,
            acc == saturate(scaled(sv, ai, ili, bi, fli, i as int), big as nat),
            cut <= 0x1_0000_0000_0000_0000_0000,
        decreases cut - i,
    {
        let d = mant_digit_at(s, a, il, b, fl, i);
        let x = acc * 10 + d;
        acc = if x > big {
            big
        } else {
            x
        };
        i = i + 1;
    }
    if acc == big {
        if i < cut {
            proof {
                lemma_scaled_monotone(sv, ai, ili, bi, fli, i as int, cut as int);
            }
        }
        return big;
    }
    if i < cut {
        proof {
            lemma_zero_beyond(sv, ai, ili, bi, fli, i as int, cut as int);
        }
        return 0;
    }
    let d = mant_digit_at(s, a, il, b, fl, cut);
    if d >= 5 {
        acc + 1
    } else {
        acc
    }
}

/// The value of the digits `s[from..to]`, held at `cap`.
fn digits_capped(s: &str, from: usize, to: usize, cap: u128) -> (r: u128)
    requires
        from <= to <= s@.len(),
        digits_in(s@, from as int, to as int),
        cap <= 0x1_0000_0000_0000_0000_0000,
    ensures
        r == saturate(digits_value(s@.subrange(from as int, to as int)), cap as nat),
{
    let mut acc: u128 = 0;
    let mut k: usize = from;
    assert(s@.subrange(from as int, from as int) =~= Seq::<char>::empty());
    while k < to
        invariant
            from <= k <= to,
            to <= s@.len(),
            digits_in(s@, from as int, to as int),
            cap <= 0x1_0000_0000_0000_0000_0000,
            acc == saturate(digits_value(s@.subrange(from as int, k as int)), cap as nat),
        decreases to - k,
    {
        let ghost prev = s@.subrange(from as int, k as int);
        let ghost next = s@.subrange(from as int, k + 1);
        assert(next.drop_last() =~= prev);
        assert(next.last() == s@[k as int]);
        assert(is_digit(s@[k as int]));
        let c = s.get_char(k);
        let d = (c as u32 - '0' as u32) as u128;
        if acc < cap {
            let x = acc * 10 + d;
            acc = if x > cap {
                cap
            } else {
                x
            };
        }
        k = k + 1;
    }
    acc
}

fn parse_exponent_cut(
    s: &str,
    len: usize,
    e: usize,
    a: usize,
    il: usize,
    b: usize,
    fl: usize,
) -> (r: Option<i128>)
    requires
        len == s@.len(),
        e <= len,
        a + il <= len,
        b + fl <= len,
    ensures
        match exponent_cut(s@, e as int, il as int) {
            None => r is None,
            Some(c) => r is Some && saturate(
                rounded(s@, a as int, il as int, b as int, fl as int, r->Some_0 as int),
                i64::MAX as nat,
            ) == saturate(rounded(s@, a as int, il as int, b as int, fl as int, c), i64::MAX as nat)
                && -0x1_0000_0000_0000_0000_0000 <= r->Some_0 <= 0x1_0000_0000_0000_0000_0000,
        },
{
    if e >= len {
        return Some(il as i128 + 2);
    }
    let es = e + 1;
    if es >= len {
        return None;
    }
    let c = s.get_char(es);
    let ds = if c == '-' || c == '+' {
        es + 1
    } else {
        es
    };
    if ds >= len || !digits_between(s, ds, len) {
        return None;
    }
    let cap: u128 = len as u128 + 64;
    let v = digits_capped(s, ds, len, cap);
    let ghost dv = digits_value(s@.subrange(ds as int, len as int));
    let cut: i128 = if c == '-' {
        il as i128 + 2 - v as i128
    } else {
        il as i128 + 2 + v as i128
    };
    proof {
        if v == cap && c != '-' {
            lemma_far_cut(s@, a as int, il as int, b as int, fl as int, cut as int, il + 2 + dv);
        }
    }
    Some(cut)
}

/// Parses a temperature in decimal notation, such as `18`, `-2.5`, `.5` or
/// `1.8e1` (see `temperature_text`).
pub fn parse_temperature(s: &str) -> (r: Option<Temperature>)
    ensures
        r == temperature_text(s@),
{
    let len = s.unicode_len();
    let signed = len > 0 && (s.get_char(0) == '-' || s.get_char(0) == '+');
    let a: usize = if signed {
        1
    } else {
        0
    };
    let e = find_exp(s, len, a);
    let p = find_dot(s, len, a);
    let dot = if p < e {
        p
    } else {
        e
    };
    let il = dot - a;
    let b = if dot < e {
        dot + 1
    } else {
        e
    };
    let fl = e - b;
    if !digits_between(s, a, dot) || !digits_between(s, b, e) || (il == 0 && fl == 0) {
        return None;
    }
    let cut = match parse_exponent_cut(s, len, e, a, il, b, fl) {
        Some(c) => c,
        None => {
            return None;
        },
    };
    let m = rounded_capped(s, a, il, b, fl, cut);
    let h: i64 = if m > i64::MAX as u128 {
        i64::MAX
    } else {
        m as i64
    };
    if len > 0 && s.get_char(0) == '-' {
        Some(Temperature { hundredths: -h })
    } else {
        Some(Temperature { hundredths: h })
    }
}

pub open spec fn ascii_lower(c: char) -> char {
    if 'A' <= c && c <= 'Z' {
        (((c as u32) + 32) as u8) as char
    } else {
        c
    }
}

/// The boolean words, compared without regard to ASCII case: `true`, `1`,
/// `yes`, `y` mean true; `false`, `0`, `no`, `n` mean false.
pub open spec fn bool_text(s: Seq<char>) -> Option<bool> {
    let w = s.map_values(|c: char| ascii_lower(c));
    if w == seq!['t', 'r', 'u', 'e'] || w == seq!['1'] || w == seq!['y', 'e', 's'] || w == seq![
        'y',
    ] {
        Some(true)
    } else if w == seq!['f', 'a', 'l', 's', 'e'] || w == seq!['0'] || w == seq!['n', 'o'] || w
        == seq!['n'] {
        Some(false)
    } else {
        None
    }
}

fn lower_char(c: char) -> (r: char)
    ensures
        r == ascii_lower(c),
{
    if 'A' <= c && c <= 'Z' {
        (((c as u32) + 32) as u8) as char
    } else {
        c
    }
}

/// Parses a boolean word (see `bool_text`).
pub fn parse_bool(s: &str) -> (r: Option<bool>)
    ensures
        r == bool_text(s@),
{
    let len = s.unicode_len();
    let ghost w = s@.map_values(|c: char| ascii_lower(c));
    if len > 5 {
        assert(w.len() > 5);
        return None;
    }
    let mut low: Vec<char> = Vec::new();
    let mut i: usize = 0;
    while i < len
        invariant
            i <= len,
            len == s@.len(),
            w == s@.map_values(|c: char| ascii_lower(c)),
            low@ == w.subrange(0, i as int),
        decreases len - i,
    {
        low.push(lower_char(s.get_char(i)));
        assert(low@ =~= w.subrange(0, i + 1));
        i = i + 1;
    }
    assert(low@ =~= w);
    let t = low.len() == 4 && low[0] == 't' && low[1] == 'r' && low[2] == 'u' && low[3] == 'e';
    let one = low.len() == 1 && (low[0] == '1' || low[0] == 'y');
    let yes = low.len() == 3 && low[0] == 'y' && low[1] == 'e' && low[2] == 's';
    let f = low.len() == 5 && low[0] == 'f' && low[1] == 'a' && low[2] == 'l' && low[3] == 's'
        && low[4] == 'e';
    let zero = low.len() == 1 && (low[0] == '0' || low[0] == 'n');
    let no = low.len() == 2 && low[0] == 'n' && low[1] == 'o';
    if t || one || yes {
        proof {
            if t {
                assert(w =~= seq!['t', 'r', 'u', 'e']);
            } else if yes {
                assert(w =~= seq!['y', 'e', 's']);
            } else if w[0] == '1' {
                assert(w =~= seq!['1']);
            } else {
                assert(w =~= seq!['y']);
            }
        }
        Some(true)
    } else if f || zero || no {
        proof {
            if f {
                assert(w =~= seq!['f', 'a', 'l', 's', 'e']);
            } else if no {
                assert(w =~= seq!['n', 'o']);
            } else if w[0] == '0' {
                assert(w =~= seq!['0']);
            } else {
                assert(w =~= seq!['n']);
            }
        }
        Some(false)
    } else {
        None
    }
}

/// Index of the first `.` at or after `from`, or the length when there is none.
pub open spec fn first_dot(s: Seq<char>, from: int) -> int
    decreases s.len() - from,
{
    if from >= s.len() {
        s.len() as int
    } else if s[from] == '.' {
        from
    } else {
        first_dot(s, from + 1)
    }
}

pub(crate) fn find_dot(s: &str, len: usize, from: usize) -> (r: usize)
    requires
        len == s@.len(),
        from <= len,
    ensures
        r == first_dot(s@, from as int),
        from <= r <= len,
    decreases len - from,
{
    if from >= len {
        len
    } else if s.get_char(from) == '.' {
        from
    } else {
        find_dot(s, len, from + 1)
    }
}

} // verus!
