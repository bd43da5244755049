//! Network addresses as plain values, and parsing of literal address text.
//!
//! The accepted literal grammar is stated by `spec_parse_ip`:
//! - IPv4: four decimal octets separated by `.`, each 1 to 3 digits with no
//!   leading zero (except `0` itself) and value at most 255;
//! - IPv6: hexadecimal groups of 1 to 4 digits separated by `:`, either
//!   exactly eight groups or at most seven groups with a single `::` standing
//!   for the missing zero groups; the final element may be a dotted-quad
//!   IPv4 suffix, which stands for the last two groups.

use vstd::prelude::*;

verus! {

/// An IP address held as plain integers: four octets for IPv4, eight 16-bit
/// groups for IPv6.
#[derive(Clone, Copy, PartialEq, Eq, Structural, Debug)]
pub enum IpAddress {
    V4(u8, u8, u8, u8),
    V6(u16, u16, u16, u16, u16, u16, u16, u16),
}

impl IpAddress {
    /// The all-zero (unspecified) address of either family.
    pub open spec fn spec_is_unspecified(self) -> bool {
        match self {
            IpAddress::V4(a, b, c, d) => a == 0 && b == 0 && c == 0 && d == 0,
            IpAddress::V6(a, b, c, d, e, f, g, h) => a == 0 && b == 0 && c == 0 && d == 0
                && e == 0 && f == 0 && g == 0 && h == 0,
        }
    }

    pub fn is_unspecified(&self) -> (r: bool)
        ensures
            r == self.spec_is_unspecified(),
    {
        match self {
            IpAddress::V4(a, b, c, d) => *a == 0 && *b == 0 && *c == 0 && *d == 0,
            IpAddress::V6(a, b, c, d, e, f, g, h) => *a == 0 && *b == 0 && *c == 0 && *d == 0
                && *e == 0 && *f == 0 && *g == 0 && *h == 0,
        }
    }
}

pub open spec fn dec_digit(c: char) -> bool {
    '0' as u32 <= c as u32 <= '9' as u32
}

pub open spec fn dec_digit_val(c: char) -> int {
    c as u32 - '0' as u32
}

pub open spec fn hex_digit(c: char) -> bool {
    dec_digit(c) || 'a' as u32 <= c as u32 <= 'f' as u32 || 'A' as u32 <= c as u32 <= 'F' as u32
}

pub open spec fn hex_digit_val(c: char) -> int {
    if dec_digit(c) {
        c as u32 - '0' as u32
    } else if 'a' as u32 <= c as u32 {
        c as u32 - 'a' as u32 + 10
    } else {
        c as u32 - 'A' as u32 + 10
    }
}

/// First index at or after `i` (up to `end`) holding no decimal digit.
pub open spec fn dec_run_end(s: Seq<char>, i: int, end: int) -> int
    decreases end - i,
{
    if 0 <= i < end <= s.len() && dec_digit(s[i]) {
        dec_run_end(s, i + 1, end)
    } else {
        i
    }
}

/// First index at or after `i` (up to `end`) holding no hexadecimal digit.
pub open spec fn hex_run_end(s: Seq<char>, i: int, end: int) -> int
    decreases end - i,
{
    if 0 <= i < end <= s.len() && hex_digit(s[i]) {
        hex_run_end(s, i + 1, end)
    } else {
        i
    }
}

/// Value of the decimal digits `s[i..j]`, most significant first.
pub open spec fn dec_value(s: Seq<char>, i: int, j: int) -> int
    decreases j - i,
{
    if j <= i {
        0
    } else {
        dec_value(s, i, j - 1) * 10 + dec_digit_val(s[j - 1])
    }
}

/// Value of the hexadecimal digits `s[i..j]`, most significant first.
pub open spec fn hex_value(s: Seq<char>, i: int, j: int) -> int
    decreases j - i,
{
    if j <= i {
        0
    } else {
        hex_value(s, i, j - 1) * 16 + hex_digit_val(s[j - 1])
    }
}

/// `s[i..j]` is a well-formed decimal octet: 1 to 3 digits, no leading zero
/// unless it is `0` itself, value at most 255.
pub open spec fn octet_ok(s: Seq<char>, i: int, j: int) -> bool {
    i < j <= i + 3 && (j - i > 1 ==> s[i] != '0') && dec_value(s, i, j) <= 255
}

/// Deterministic parse of `s[i0..end]` as four decimal octets separated by
/// `.`, filling the whole span.
pub open spec fn spec_parse_ipv4_span(s: Seq<char>, i0: int, end: int) -> Option<(u8, u8, u8, u8)> {
    let j1 = dec_run_end(s, i0, end);
    let j2 = dec_run_end(s, j1 + 1, end);
    let j3 = dec_run_end(s, j2 + 1, end);
    let j4 = dec_run_end(s, j3 + 1, end);
    if octet_ok(s, i0, j1) && j1 < end && s[j1] == '.'
        && octet_ok(s, j1 + 1, j2) && j2 < end && s[j2] == '.'
        && octet_ok(s, j2 + 1, j3) && j3 < end && s[j3] == '.'
        && octet_ok(s, j3 + 1, j4) && j4 == end
    {
        Some((
            dec_value(s, i0, j1) as u8,
            dec_value(s, j1 + 1, j2) as u8,
            dec_value(s, j2 + 1, j3) as u8,
            dec_value(s, j3 + 1, j4) as u8,
        ))
    } else {
        None
    }
}

/// Deterministic parse of IPv4 literal text: the whole of `s` must be four
/// octets separated by `.`.
pub open spec fn spec_parse_ipv4(s: Seq<char>) -> Option<IpAddress> {
    match spec_parse_ipv4_span(s, 0, s.len() as int) {
        Some((a, b, c, d)) => Some(IpAddress::V4(a, b, c, d)),
        None => None,
    }
}

/// `s[i..j]` is a well-formed octet made of decimal digits whose value is
/// `v`.
pub open spec fn octet_is(s: Seq<char>, i: int, j: int, v: u8) -> bool {
    &&& octet_ok(s, i, j)
    &&& (forall|k: int| i <= k < j ==> dec_digit(s[k]))
    &&& dec_value(s, i, j) == v
}

/// `s` is the dotted-quad text of the IPv4 address `(a, b, c, d)` with dots
/// at `p1`, `p2` and `p3`.
pub open spec fn ipv4_text_at(
    s: Seq<char>,
    p1: int,
    p2: int,
    p3: int,
    a: u8,
    b: u8,
    c: u8,
    d: u8,
) -> bool {
    &&& 0 < p1 < p2 < p3 < s.len()
    &&& s[p1] == '.' && s[p2] == '.' && s[p3] == '.'
    &&& octet_is(s, 0, p1, a)
    &&& octet_is(s, p1 + 1, p2, b)
    &&& octet_is(s, p2 + 1, p3, c)
    &&& octet_is(s, p3 + 1, s.len() as int, d)
}

/// `s` is a dotted-quad text of the IPv4 address `(a, b, c, d)`.
pub open spec fn ipv4_text_for(s: Seq<char>, a: u8, b: u8, c: u8, d: u8) -> bool {
    exists|p1: int, p2: int, p3: int| ipv4_text_at(s, p1, p2, p3, a, b, c, d)
}

/// Scanning stops exactly at the end of a known digit run.
proof fn lemma_dec_run_end_is(s: Seq<char>, i: int, end: int, j: int)
    requires
        0 <= i <= j <= end <= s.len(),
        forall|k: int| i <= k < j ==> dec_digit(s[k]),
        j < end ==> !dec_digit(s[j]),
    ensures
        dec_run_end(s, i, end) == j,
    decreases j - i,
{
    if i < j {
        lemma_dec_run_end_is(s, i + 1, end, j);
    }
}

/// The deterministic parse accepts exactly the dotted-quad texts: it yields
/// the address `(a, b, c, d)` if and only if the text is a dotted quad with
/// those octet values.
pub proof fn lemma_parse_ipv4_characterized(s: Seq<char>, a: u8, b: u8, c: u8, d: u8)
    ensures
        spec_parse_ipv4(s) == Some(IpAddress::V4(a, b, c, d)) <==> ipv4_text_for(s, a, b, c, d),
{
    let end = s.len() as int;
    if spec_parse_ipv4(s) == Some(IpAddress::V4(a, b, c, d)) {
        let j1 = dec_run_end(s, 0, end);
        let j2 = dec_run_end(s, j1 + 1, end);
        let j3 = dec_run_end(s, j2 + 1, end);
        lemma_dec_run_chars(s, 0, end);
        lemma_dec_run_chars(s, j1 + 1, end);
        lemma_dec_run_chars(s, j2 + 1, end);
        lemma_dec_run_chars(s, j3 + 1, end);
        lemma_dec_value_nonneg(s, 0, j1);
        lemma_dec_value_nonneg(s, j1 + 1, j2);
        lemma_dec_value_nonneg(s, j2 + 1, j3);
        lemma_dec_value_nonneg(s, j3 + 1, end);
        assert(ipv4_text_at(s, j1, j2, j3, a, b, c, d));
    }
    if ipv4_text_for(s, a, b, c, d) {
        let (p1, p2, p3) = choose|p1: int, p2: int, p3: int| ipv4_text_at(s, p1, p2, p3, a, b, c, d);
        assert(!dec_digit('.')) by {
            assert('.' as u32 == 46);
        }
        lemma_dec_run_end_is(s, 0, end, p1);
        lemma_dec_run_end_is(s, p1 + 1, end, p2);
        lemma_dec_run_end_is(s, p2 + 1, end, p3);
        lemma_dec_run_end_is(s, p3 + 1, end, end);
        lemma_dec_value_nonneg(s, 0, p1);
        lemma_dec_value_nonneg(s, p1 + 1, p2);
        lemma_dec_value_nonneg(s, p2 + 1, p3);
        lemma_dec_value_nonneg(s, p3 + 1, end);
    }
}

proof fn lemma_dec_value_nonneg(s: Seq<char>, i: int, j: int)
    requires
        forall|k: int| i <= k < j ==> dec_digit(s[k]),
    ensures
        0 <= dec_value(s, i, j),
    decreases j - i,
{
    if j > i {
        lemma_dec_value_nonneg(s, i, j - 1);
    }
}

proof fn lemma_hex_value_nonneg(s: Seq<char>, i: int, j: int)
    requires
        forall|k: int| i <= k < j ==> hex_digit(s[k]),
    ensures
        0 <= hex_value(s, i, j),
    decreases j - i,
{
    if j > i {
        lemma_hex_value_nonneg(s, i, j - 1);
    }
}

/// A hex group of at most 4 digits has a value below 2^16.
proof fn lemma_hex_value_bound(s: Seq<char>, i: int, j: int)
    requires
        forall|k: int| i <= k < j ==> hex_digit(s[k]),
        j <= i + 4,
    ensures
        hex_value(s, i, j) < 0x10000,
    decreases j - i,
{
    if j <= i {
    } else {
        lemma_hex_value_bound_step(s, i, j);
    }
}

proof fn lemma_hex_value_bound_step(s: Seq<char>, i: int, j: int)
    requires
        forall|k: int| i <= k < j ==> hex_digit(s[k]),
        i < j <= i + 4,
    ensures
        hex_value(s, i, j) < if j == i + 1 { 16int } else if j == i + 2 { 256int }
            else if j == i + 3 { 4096int } else { 65536int },
    decreases j - i,
{
    assert(hex_value(s, i, i) == 0);
    assert(hex_digit_val(s[j - 1]) < 16);
    if j == i + 1 {
    } else {
        lemma_hex_value_bound_step(s, i, j - 1);
    }
}

/// The digits of a run are decimal digits, and the run ends where scanning
/// stops.
proof fn lemma_dec_run_chars(s: Seq<char>, i: int, end: int)
    requires
        0 <= i <= end <= s.len(),
    ensures
        i <= dec_run_end(s, i, end) <= end,
        forall|k: int| i <= k < dec_run_end(s, i, end) ==> dec_digit(s[k]),
    decreases end - i,
{
    if i < end && dec_digit(s[i]) {
        lemma_dec_run_chars(s, i + 1, end);
    }
}

proof fn lemma_hex_run_chars(s: Seq<char>, i: int, end: int)
    requires
        0 <= i <= end <= s.len(),
    ensures
        i <= hex_run_end(s, i, end) <= end,
        forall|k: int| i <= k < hex_run_end(s, i, end) ==> hex_digit(s[k]),
    decreases end - i,
{
    if i < end && hex_digit(s[i]) {
        lemma_hex_run_chars(s, i + 1, end);
    }
}

fn exec_dec_digit(c: char) -> (r: bool)
    ensures
        r == dec_digit(c),
{
    let u: u32 = c as u32;
    u >= 48 && u <= 57
}

fn exec_hex_digit(c: char) -> (r: bool)
    ensures
        r == hex_digit(c),
{
    let u: u32 = c as u32;
    (u >= 48 && u <= 57) || (u >= 97 && u <= 102) || (u >= 65 && u <= 70)
}

fn exec_hex_digit_val(c: char) -> (r: u32)
    requires
        hex_digit(c),
    ensures
        r == hex_digit_val(c),
{
    let u: u32 = c as u32;
    if u >= 48 && u <= 57 {
        u - 48
    } else if u >= 97 {
        u - 97 + 10
    } else {
        u - 65 + 10
    }
}

/// Scans the decimal digit run starting at `i`, stopping at `end`.
fn scan_dec_run(s: &Vec<char>, i: usize, end: usize) -> (j: usize)
    requires
        i <= end <= s@.len(),
    ensures
        j == dec_run_end(s@, i as int, end as int),
        i <= j <= end,
    decreases end - i,
{
    if i < end && exec_dec_digit(s[i]) {
        scan_dec_run(s, i + 1, end)
    } else {
        i
    }
}

/// Scans the hexadecimal digit run starting at `i`, stopping at `end`.
fn scan_hex_run(s: &Vec<char>, i: usize, end: usize) -> (j: usize)
    requires
        i <= end <= s@.len(),
    ensures
        j == hex_run_end(s@, i as int, end as int),
        i <= j <= end,
    decreases end - i,
{
    if i < end && exec_hex_digit(s[i]) {
        scan_hex_run(s, i + 1, end)
    } else {
        i
    }
}

/// Reads the decimal value of `s[i..j]`, at most three digits.
fn read_dec_value(s: &Vec<char>, i: usize, j: usize) -> (v: u32)
    requires
        i <= j <= s@.len(),
        j <= i + 3,
        forall|k: int| i <= k < j ==> dec_digit(s@[k]),
    ensures
        v == dec_value(s@, i as int, j as int),
{
    proof {
        lemma_dec_value_nonneg(s@, i as int, j as int);
    }
    let mut v: u32 = 0;
    let mut k: usize = i;
    while k < j
        invariant
            i <= k <= j <= s@.len(),
            j <= i + 3,
            forall|m: int| i <= m < j ==> dec_digit(s@[m]),
            v == dec_value(s@, i as int, k as int),
            v <= 999,
        decreases j - k,
    {
        proof {
            lemma_dec_value_nonneg(s@, i as int, k as int);
            lemma_dec_value_bound_3(s@, i as int, k as int);
        }
        v = v * 10 + (s[k] as u32 - 48);
        k = k + 1;
    }
    v
}

/// A run of at most `n` decimal digits is below 10^n (for n up to 3).
proof fn lemma_dec_value_bound_3(s: Seq<char>, i: int, j: int)
    requires
        forall|k: int| i <= k < j ==> dec_digit(s[k]),
        j <= i + 3,
    ensures
        j <= i ==> dec_value(s, i, j) == 0,
        j == i + 1 ==> dec_value(s, i, j) < 10,
        j == i + 2 ==> dec_value(s, i, j) < 100,
        j == i + 3 ==> dec_value(s, i, j) < 1000,
    decreases j - i,
{
    if j > i {
        lemma_dec_value_bound_3(s, i, j - 1);
    }
}

/// Checks that `s[i..j]` is a well-formed octet and returns its value.
fn read_octet(s: &Vec<char>, i: usize, j: usize, end: usize) -> (r: Option<u8>)
    requires
        i <= end <= s@.len(),
        j == dec_run_end(s@, i as int, end as int),
    ensures
        match r {
            Some(v) => octet_ok(s@, i as int, j as int) && v == dec_value(s@, i as int, j as int),
            None => !octet_ok(s@, i as int, j as int),
        },
{
    proof {
        lemma_dec_run_chars(s@, i as int, end as int);
    }
    if j <= i || j - i > 3 {
        return None;
    }
    if j - i > 1 && s[i] == '0' {
        return None;
    }
    let v: u32 = read_dec_value(s, i, j);
    if v <= 255 {
        Some(v as u8)
    } else {
        None
    }
}

/// Parses `s[i0..end]` as four decimal octets separated by `.`.
fn parse_ipv4_span(s: &Vec<char>, i0: usize, end: usize) -> (r: Option<(u8, u8, u8, u8)>)
    requires
        i0 <= end <= s@.len(),
    ensures
        r == spec_parse_ipv4_span(s@, i0 as int, end as int),
{
    let j1: usize = scan_dec_run(s, i0, end);
    let o1 = read_octet(s, i0, j1, end);
    if o1.is_none() || j1 >= end || s[j1] != '.' {
        return None;
    }
    let j2: usize = scan_dec_run(s, j1 + 1, end);
    let o2 = read_octet(s, j1 + 1, j2, end);
    if o2.is_none() || j2 >= end || s[j2] != '.' {
        return None;
    }
    let j3: usize = scan_dec_run(s, j2 + 1, end);
    let o3 = read_octet(s, j2 + 1, j3, end);
    if o3.is_none() || j3 >= end || s[j3] != '.' {
        return None;
    }
    let j4: usize = scan_dec_run(s, j3 + 1, end);
    let o4 = read_octet(s, j3 + 1, j4, end);
    if o4.is_none() || j4 != end {
        return None;
    }
    Some((o1.unwrap(), o2.unwrap(), o3.unwrap(), o4.unwrap()))
}

/// Parses the whole of `s` as an IPv4 literal.
fn parse_ipv4_chars(s: &Vec<char>) -> (r: Option<IpAddress>)
    ensures
        r == spec_parse_ipv4(s@),
{
    match parse_ipv4_span(s, 0, s.len()) {
        Some((a, b, c, d)) => Some(IpAddress::V4(a, b, c, d)),
        None => None,
    }
}

/// Position of the first `::` at or after `i`, if any.
pub open spec fn dcolon_pos(s: Seq<char>, i: int) -> Option<int>
    decreases s.len() - i,
{
    if i + 1 < s.len() {
        if s[i] == ':' && s[i + 1] == ':' {
            Some(i)
        } else {
            dcolon_pos(s, i + 1)
        }
    } else {
        None
    }
}

/// Parses `s[i..end]` as hexadecimal groups of 1 to 4 digits separated by
/// single colons; `None` when malformed.
pub open spec fn spec_groups(s: Seq<char>, i: int, end: int) -> Option<Seq<u16>>
    decreases end - i,
{
    let j = hex_run_end(s, i, end);
    if !(i < j <= i + 4) {
        None
    } else if j == end {
        Some(seq![hex_value(s, i, j) as u16])
    } else if j < end && s[j] == ':' {
        match spec_groups(s, j + 1, end) {
            Some(rest) => Some(seq![hex_value(s, i, j) as u16] + rest),
            None => None,
        }
    } else {
        None
    }
}

/// Parses `s[i..end]` as colon-separated hexadecimal groups whose final
/// element may be a dotted-quad IPv4 suffix, standing for the last two
/// groups.
pub open spec fn spec_groups_tail(s: Seq<char>, i: int, end: int) -> Option<Seq<u16>>
    decreases end - i,
{
    let j = hex_run_end(s, i, end);
    if j < end && s[j] == '.' {
        match spec_parse_ipv4_span(s, i, end) {
            Some((a, b, c, d)) => Some(seq![(a * 256 + b) as u16, (c * 256 + d) as u16]),
            None => None,
        }
    } else if !(i < j <= i + 4) {
        None
    } else if j == end {
        Some(seq![hex_value(s, i, j) as u16])
    } else if j < end && s[j] == ':' {
        match spec_groups_tail(s, j + 1, end) {
            Some(rest) => Some(seq![hex_value(s, i, j) as u16] + rest),
            None => None,
        }
    } else {
        None
    }
}

/// The eight groups of an IPv6 address assembled into an address value.
pub open spec fn groups_to_ip(g: Seq<u16>) -> IpAddress
    recommends
        g.len() == 8,
{
    IpAddress::V6(g[0], g[1], g[2], g[3], g[4], g[5], g[6], g[7])
}

/// Deterministic parse of IPv6 literal text: either eight plain groups, or a
/// single `::` standing for the missing zero groups, with at most seven
/// explicit groups around it.
pub open spec fn spec_parse_ipv6(s: Seq<char>) -> Option<IpAddress> {
    match dcolon_pos(s, 0) {
        Some(p) => {
            let lg = if p == 0 {
                Some(Seq::<u16>::empty())
            } else {
                spec_groups(s, 0, p)
            };
            let rg = if p + 2 == s.len() {
                Some(Seq::<u16>::empty())
            } else {
                spec_groups_tail(s, p + 2, s.len() as int)
            };
            match lg {
                Some(l) => match rg {
                    Some(r) => if l.len() + r.len() <= 7 {
                        Some(groups_to_ip(l + Seq::new((8 - l.len() - r.len()) as nat, |k: int| 0u16) + r))
                    } else {
                        None
                    },
                    None => None,
                },
                None => None,
            }
        }
        None => match spec_groups_tail(s, 0, s.len() as int) {
            Some(g) => if g.len() == 8 {
                Some(groups_to_ip(g))
            } else {
                None
            },
            None => None,
        },
    }
}

/// Where `::` is found, it lies within the text and both its characters are
/// colons.
proof fn lemma_dcolon_props(s: Seq<char>, i: int)
    requires
        0 <= i,
    ensures
        (match dcolon_pos(s, i) {
            Some(p) => i <= p && p + 1 < s.len() && s[p] == ':' && s[p + 1] == ':',
            None => true,
        }),
    decreases s.len() - i,
{
    if i + 1 < s.len() && !(s[i] == ':' && s[i + 1] == ':') {
        lemma_dcolon_props(s, i + 1);
    }
}

/// Scans for the first `::` at or after `i`.
fn find_dcolon(s: &Vec<char>, i: usize) -> (r: Option<usize>)
    requires
        i <= s@.len(),
    ensures
        (match dcolon_pos(s@, i as int) {
            Some(p) => r matches Some(u) && u as int == p,
            None => r is None,
        }),
    decreases s@.len() - i,
{
    if i < s.len() && i + 1 < s.len() {
        if s[i] == ':' && s[i + 1] == ':' {
            Some(i)
        } else {
            find_dcolon(s, i + 1)
        }
    } else {
        None
    }
}

/// Reads the hexadecimal value of `s[i..j]`, at most four digits.
fn read_hex_value(s: &Vec<char>, i: usize, j: usize) -> (v: u16)
    requires
        i <= j <= s@.len(),
        j <= i + 4,
        forall|k: int| i <= k < j ==> hex_digit(s@[k]),
    ensures
        v as int == hex_value(s@, i as int, j as int),
{
    let mut v: u32 = 0;
    let mut k: usize = i;
    while k < j
        invariant
            i <= k <= j <= s@.len(),
            j <= i + 4,
            forall|m: int| i <= m < j ==> hex_digit(s@[m]),
            v == hex_value(s@, i as int, k as int),
            v < 0x10000,
        decreases j - k,
    {
        proof {
            if k > i {
                lemma_hex_value_bound_step(s@, i as int, k as int);
            }
        }
        let d: u32 = exec_hex_digit_val(s[k]);
        v = v * 16 + d;
        k = k + 1;
    }
    proof {
        lemma_hex_value_nonneg(s@, i as int, j as int);
        lemma_hex_value_bound(s@, i as int, j as int);
    }
    v as u16
}

/// Parses `s[i..end]` as colon-separated hexadecimal groups.
fn parse_groups(s: &Vec<char>, i: usize, end: usize) -> (r: Option<Vec<u16>>)
    requires
        i <= end <= s@.len(),
    ensures
        (match spec_groups(s@, i as int, end as int) {
            Some(g) => r matches Some(v) && v@ == g,
            None => r is None,
        }),
    decreases end - i,
{
    let j: usize = scan_hex_run(s, i, end);
    proof {
        lemma_hex_run_chars(s@, i as int, end as int);
    }
    if j <= i || j - i > 4 {
        return None;
    }
    if j == end {
        let v: u16 = read_hex_value(s, i, j);
        let mut out: Vec<u16> = Vec::new();
        out.push(v);
        proof {
            assert(out@ =~= seq![hex_value(s@, i as int, j as int) as u16]);
        }
        return Some(out);
    }
    if s[j] != ':' {
        return None;
    }
    let v: u16 = read_hex_value(s, i, j);
    match parse_groups(s, j + 1, end) {
        Some(mut rest) => {
            let mut out: Vec<u16> = Vec::new();
            out.push(v);
            out.append(&mut rest);
            proof {
                assert(out@ =~= seq![hex_value(s@, i as int, j as int) as u16]
                    + spec_groups(s@, j + 1 as int, end as int).unwrap());
            }
            Some(out)
        }
        None => None,
    }
}

/// Parses `s[i..end]` as colon-separated hexadecimal groups with an
/// optional dotted-quad IPv4 suffix.
fn parse_groups_tail(s: &Vec<char>, i: usize, end: usize) -> (r: Option<Vec<u16>>)
    requires
        i <= end <= s@.len(),
    ensures
        (match spec_groups_tail(s@, i as int, end as int) {
            Some(g) => r matches Some(v) && v@ == g,
            None => r is None,
        }),
    decreases end - i,
{
    let j: usize = scan_hex_run(s, i, end);
    proof {
        lemma_hex_run_chars(s@, i as int, end as int);
    }
    if j < end && s[j] == '.' {
        return match parse_ipv4_span(s, i, end) {
            Some((a, b, c, d)) => {
                let hi: u16 = (a as u16) * 256 + (b as u16);
                let lo: u16 = (c as u16) * 256 + (d as u16);
                let mut out: Vec<u16> = Vec::new();
                out.push(hi);
                out.push(lo);
                proof {
                    assert(out@ =~= seq![hi, lo]);
                }
                Some(out)
            }
            None => None,
        };
    }
    if j <= i || j - i > 4 {
        return None;
    }
    if j == end {
        let v: u16 = read_hex_value(s, i, j);
        let mut out: Vec<u16> = Vec::new();
        out.push(v);
        proof {
            assert(out@ =~= seq![hex_value(s@, i as int, j as int) as u16]);
        }
        return Some(out);
    }
    if s[j] != ':' {
        return None;
    }
    let v: u16 = read_hex_value(s, i, j);
    match parse_groups_tail(s, j + 1, end) {
        Some(mut rest) => {
            let mut out: Vec<u16> = Vec::new();
            out.push(v);
            out.append(&mut rest);
            proof {
                assert(out@ =~= seq![hex_value(s@, i as int, j as int) as u16]
                    + spec_groups_tail(s@, j + 1 as int, end as int).unwrap());
            }
            Some(out)
        }
        None => None,
    }
}

/// Parses the whole of `s` as an IPv6 literal.
fn parse_ipv6_chars(s: &Vec<char>) -> (r: Option<IpAddress>)
    ensures
        r == spec_parse_ipv6(s@),
{
    let n: usize = s.len();
    proof {
        lemma_dcolon_props(s@, 0);
    }
    match find_dcolon(s, 0) {
        Some(p) => {
            let lg: Option<Vec<u16>> = if p == 0 {
                Some(Vec::new())
            } else {
                parse_groups(s, 0, p)
            };
            let rg: Option<Vec<u16>> = if p + 2 == n {
                Some(Vec::new())
            } else {
                parse_groups_tail(s, p + 2, n)
            };
            match lg {
                Some(l) => match rg {
                    Some(rv) => {
                        if l.len() <= 7 && rv.len() <= 7 - l.len() {
                            build_v6(l, rv)
                        } else {
                            None
                        }
                    }
                    None => None,
                },
                None => None,
            }
        }
        None => {
            match parse_groups_tail(s, 0, n) {
                Some(g) => {
                    if g.len() == 8 {
                        Some(IpAddress::V6(g[0], g[1], g[2], g[3], g[4], g[5], g[6], g[7]))
                    } else {
                        None
                    }
                }
                None => None,
            }
        }
    }
}

/// Pads the explicit groups around `::` with zero groups and assembles the
/// address.
fn build_v6(l: Vec<u16>, r: Vec<u16>) -> (out: Option<IpAddress>)
    requires
        l@.len() + r@.len() <= 7,
    ensures
        out == Some(groups_to_ip(l@ + Seq::new((8 - l@.len() - r@.len()) as nat, |k: int| 0u16) + r@)),
{
    let zeros: usize = 8 - l.len() - r.len();
    let mut g: Vec<u16> = l;
    let ghost l0 = g@;
    let mut z: usize = 0;
    while z < zeros
        invariant
            z <= zeros,
            g@ =~= l0 + Seq::new(z as nat, |k: int| 0u16),
        decreases zeros - z,
    {
        g.push(0);
        z = z + 1;
        proof {
            assert(g@ =~= l0 + Seq::new(z as nat, |k: int| 0u16));
        }
    }
    let mut rv: Vec<u16> = r;
    g.append(&mut rv);
    proof {
        assert(g@ =~= l0 + Seq::new(zeros as nat, |k: int| 0u16) + r@);
        assert(g@.len() == 8);
    }
    Some(IpAddress::V6(g[0], g[1], g[2], g[3], g[4], g[5], g[6], g[7]))
}

/// Deterministic parse of literal address text, IPv4 first.
pub open spec fn spec_parse_ip(s: Seq<char>) -> Option<IpAddress> {
    match spec_parse_ipv4(s) {
        Some(a) => Some(a),
        None => spec_parse_ipv6(s),
    }
}

/// Parses literal address text into an address; `None` when the text is no
/// literal of the accepted grammar.
pub fn parse_ip_literal(s: &str) -> (r: Option<IpAddress>)
    ensures
        r == spec_parse_ip(s@),
{
    let n: usize = s.unicode_len();
    let mut v: Vec<char> = Vec::new();
    let mut i: usize = 0;
    while i < n
        invariant
            i <= n,
            n == s@.len(),
            v@ =~= s@.subrange(0, i as int),
        decreases n - i,
    {
        let c: char = s.get_char(i);
        v.push(c);
        i = i + 1;
        proof {
            assert(v@ =~= s@.subrange(0, i as int));
        }
    }
    proof {
        assert(v@ =~= s@);
    }
    match parse_ipv4_chars(&v) {
        Some(a) => Some(a),
        None => parse_ipv6_chars(&v),
    }
}

} // verus!
