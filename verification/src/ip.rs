//! IP addresses and their textual forms.
use crate::text::{self, chars_of, decimal, push_str};
use vstd::prelude::*;

verus! {

/// An IP address, by the number that its bits are.
#[derive(Clone, Copy, PartialEq, Eq, Structural, Debug, Hash)]
pub enum IpAddr {
    V4(u32),
    V6(u128),
}

/// An IP address and a port. One of IPv6 has its flow information and the scope in which it holds
/// besides; zero is no scope in particular.
#[allow(inconsistent_fields)]
#[derive(Clone, Copy, PartialEq, Eq, Structural, Debug, Hash)]
pub enum SocketAddr {
    V4 { ip: u32, port: u16 },
    V6 { ip: u128, port: u16, flowinfo: u32, scope_id: u32 },
}

impl SocketAddr {
    /// The address `ip` with the port `port`, without flow information and scope.
    pub fn new(ip: IpAddr, port: u16) -> (r: SocketAddr)
        ensures
            r == SocketAddr::at(ip, port),
    {
        match ip {
            IpAddr::V4(v) => SocketAddr::V4 { ip: v, port },
            IpAddr::V6(v) => SocketAddr::V6 { ip: v, port, flowinfo: 0, scope_id: 0 },
        }
    }

    /// The address `ip` with the port `port`, without flow information and scope.
    pub open spec fn at(ip: IpAddr, port: u16) -> SocketAddr {
        match ip {
            IpAddr::V4(v) => SocketAddr::V4 { ip: v, port },
            IpAddr::V6(v) => SocketAddr::V6 { ip: v, port, flowinfo: 0, scope_id: 0 },
        }
    }

    /// The IP address.
    #[verifier::allow_in_spec]
    pub fn ip(&self) -> (r: IpAddr)
        returns
            (match *self {
                SocketAddr::V4 { ip, .. } => IpAddr::V4(ip),
                SocketAddr::V6 { ip, .. } => IpAddr::V6(ip),
            }),
    {
        match *self {
            SocketAddr::V4 { ip, .. } => IpAddr::V4(ip),
            SocketAddr::V6 { ip, .. } => IpAddr::V6(ip),
        }
    }

    /// The port.
    #[verifier::allow_in_spec]
    pub fn port(&self) -> (r: u16)
        returns
            (match *self {
                SocketAddr::V4 { port, .. } => port,
                SocketAddr::V6 { port, .. } => port,
            }),
    {
        match *self {
            SocketAddr::V4 { port, .. } => port,
            SocketAddr::V6 { port, .. } => port,
        }
    }
}

/// The value of a decimal digit.
pub open spec fn dec_digit(c: char) -> Option<nat> {
    if '0' <= c <= '9' {
        Some((c as u32 - '0' as u32) as nat)
    } else {
        None
    }
}

/// The value of a hexadecimal digit, in either case.
pub open spec fn hex_digit(c: char) -> Option<nat> {
    if '0' <= c <= '9' {
        Some((c as u32 - '0' as u32) as nat)
    } else if 'a' <= c <= 'f' {
        Some((c as u32 - 'a' as u32 + 10) as nat)
    } else if 'A' <= c <= 'F' {
        Some((c as u32 - 'A' as u32 + 10) as nat)
    } else {
        None
    }
}

/// The number that a sequence of decimal digits stands for.
pub open spec fn dec_value(s: Seq<char>) -> Option<nat>
    decreases s.len(),
{
    if s.len() == 0 {
        Some(0)
    } else {
        match (dec_value(s.drop_last()), dec_digit(s.last())) {
            (Some(v), Some(d)) => Some(v * 10 + d),
            _ => None,
        }
    }
}

/// The number that a sequence of hexadecimal digits stands for.
pub open spec fn hex_value(s: Seq<char>) -> Option<nat>
    decreases s.len(),
{
    if s.len() == 0 {
        Some(0)
    } else {
        match (hex_value(s.drop_last()), hex_digit(s.last())) {
            (Some(v), Some(d)) => Some(v * 16 + d),
            _ => None,
        }
    }
}

/// One of the four numbers of an IPv4 address: one to three digits, no leading zero, at most
/// 255.
pub open spec fn octet(s: Seq<char>) -> Option<nat> {
    if 1 <= s.len() <= 3 && (s.len() == 1 || s[0] != '0') && dec_value(s) is Some && dec_value(
        s,
    )->0 <= 255 {
        dec_value(s)
    } else {
        None
    }
}

/// The IPv4 address that `s` writes in dotted form.
pub open spec fn ipv4_of(s: Seq<char>) -> Option<nat> {
    let p = text::split_spec(s, '.');
    if p.len() == 4 && octet(p[0]) is Some && octet(p[1]) is Some && octet(p[2]) is Some && octet(
        p[3],
    ) is Some {
        Some(
            octet(p[0])->0 * 0x100_0000 + octet(p[1])->0 * 0x1_0000 + octet(p[2])->0 * 0x100
                + octet(p[3])->0,
        )
    } else {
        None
    }
}

/// One of the groups of an IPv6 address: one to four hexadecimal digits.
pub open spec fn group_of(s: Seq<char>) -> Option<nat> {
    if 1 <= s.len() <= 4 {
        hex_value(s)
    } else {
        None
    }
}

/// The groups that the parts `p` write. Where `dotted`, the last part may be an IPv4 address,
/// which stands for two groups.
pub open spec fn groups_of(p: Seq<Seq<char>>, dotted: bool) -> Option<Seq<nat>>
    decreases p.len(),
{
    if p.len() == 0 {
        Some(Seq::empty())
    } else {
        match groups_of(p.drop_last(), false) {
            None => None,
            Some(g) => match group_of(p.last()) {
                Some(v) => Some(g.push(v)),
                None => match ipv4_of(p.last()) {
                    Some(v) => if dotted {
                        Some(g.push(v / 0x1_0000).push(v % 0x1_0000))
                    } else {
                        None
                    },
                    None => None,
                },
            },
        }
    }
}

/// The groups that the text `s` between colons writes; none for the empty text.
pub open spec fn side_groups(s: Seq<char>, dotted: bool) -> Option<Seq<nat>> {
    if s.len() == 0 {
        Some(Seq::empty())
    } else {
        groups_of(text::split_spec(s, ':'), dotted)
    }
}

/// `::` stands at `i` of `s`, and nowhere before.
pub open spec fn first_gap(s: Seq<char>, i: int) -> bool {
    &&& 0 <= i < s.len() - 1
    &&& s[i] == ':' && s[i + 1] == ':'
    &&& forall|j: int| 0 <= j < i ==> !(#[trigger] s[j] == ':' && s[j + 1] == ':')
}

/// The number that groups of 16 bits make.
pub open spec fn groups_value(g: Seq<nat>) -> nat
    decreases g.len(),
{
    if g.len() == 0 {
        0
    } else {
        groups_value(g.drop_last()) * 0x1_0000 + g.last()
    }
}

/// The eight groups of an IPv6 address with its gap at `i`: at least one group of zeros stands
/// for the gap.
pub open spec fn gapped_groups(s: Seq<char>, i: int) -> Option<Seq<nat>> {
    match (
        side_groups(s.subrange(0, i), false),
        side_groups(s.subrange(i + 2, s.len() as int), true),
    ) {
        (Some(a), Some(b)) => if a.len() + b.len() <= 7 {
            Some(a + Seq::new((8 - a.len() - b.len()) as nat, |k: int| 0nat) + b)
        } else {
            None
        },
        _ => None,
    }
}

/// The eight groups of the IPv6 address that `s` writes.
pub open spec fn ipv6_groups(s: Seq<char>) -> Option<Seq<nat>> {
    if exists|i: int| first_gap(s, i) {
        gapped_groups(s, choose|i: int| first_gap(s, i))
    } else {
        match side_groups(s, true) {
            Some(g) => if g.len() == 8 {
                Some(g)
            } else {
                None
            },
            None => None,
        }
    }
}

/// The address that `s` writes, as an IPv4 address in dotted form or as an IPv6 address in
/// groups.
#[verifier::opaque]
pub open spec fn ip_of(s: Seq<char>) -> Option<IpAddr> {
    match ipv4_of(s) {
        Some(v) => Some(IpAddr::V4(v as u32)),
        None => match ipv6_groups(s) {
            Some(g) => Some(IpAddr::V6(groups_value(g) as u128)),
            None => None,
        },
    }
}

fn octet_value(s: &Vec<char>) -> (r: Option<u32>)
    ensures
        match r {
            Some(v) => octet(s@) == Some(v as nat) && v <= 255,
            None => octet(s@) is None,
        },
{
    if s.len() < 1 || s.len() > 3 || (s.len() > 1 && s[0] == '0') {
        return None;
    }
    let mut v: u32 = 0;
    let mut i: usize = 0;
    assert(s@.subrange(0, 0) =~= Seq::<char>::empty());
    while i < s.len()
        invariant
            i <= s@.len() <= 3,
            dec_value(s@.subrange(0, i as int)) == Some(v as nat),
            i == 0 ==> v == 0,
            i == 1 ==> v <= 9,
            i == 2 ==> v <= 99,
            i == 3 ==> v <= 999,
        decreases s@.len() - i,
    {
        let c = s[i];
        assert(s@.subrange(0, i + 1).drop_last() =~= s@.subrange(0, i as int));
        if !('0' <= c && c <= '9') {
            proof {
                dec_value_fails(s@, i as int);
            }
            return None;
        }
        v = v * 10 + (c as u32 - '0' as u32);
        i += 1;
    }
    assert(s@.subrange(0, i as int) =~= s@);
    if v <= 255 {
        Some(v)
    } else {
        None
    }
}

proof fn dec_value_fails(s: Seq<char>, i: int)
    requires
        0 <= i < s.len(),
        dec_digit(s[i]) is None,
    ensures
        dec_value(s) is None,
    decreases s.len(),
{
    if i < s.len() - 1 {
        dec_value_fails(s.drop_last(), i);
    }
}

proof fn hex_value_fails(s: Seq<char>, i: int)
    requires
        0 <= i < s.len(),
        hex_digit(s[i]) is None,
    ensures
        hex_value(s) is None,
    decreases s.len(),
{
    if i < s.len() - 1 {
        hex_value_fails(s.drop_last(), i);
    }
}

/// The IPv4 address that `s` writes in dotted form.
fn parse_ipv4(s: &[char]) -> (r: Option<u32>)
    ensures
        match r {
            Some(v) => ipv4_of(s@) == Some(v as nat),
            None => ipv4_of(s@) is None,
        },
{
    let p = text::split(s, '.');
    let ghost parts = text::split_spec(s@, '.');
    if p.len() != 4 {
        return None;
    }
    assert(parts[0] == p@[0]@ && parts[1] == p@[1]@ && parts[2] == p@[2]@ && parts[3] == p@[3]@);
    match (octet_value(&p[0]), octet_value(&p[1]), octet_value(&p[2]), octet_value(&p[3])) {
        (Some(a), Some(b), Some(c), Some(d)) => Some(
            a * 0x100_0000 + b * 0x1_0000 + c * 0x100 + d,
        ),
        _ => None,
    }
}

fn hex_digit_value(c: char) -> (r: Option<u32>)
    ensures
        match r {
            Some(v) => hex_digit(c) == Some(v as nat) && v <= 15,
            None => hex_digit(c) is None,
        },
{
    if '0' <= c && c <= '9' {
        Some(c as u32 - '0' as u32)
    } else if 'a' <= c && c <= 'f' {
        Some(c as u32 - 'a' as u32 + 10)
    } else if 'A' <= c && c <= 'F' {
        Some(c as u32 - 'A' as u32 + 10)
    } else {
        None
    }
}

fn group_value(s: &Vec<char>) -> (r: Option<u16>)
    ensures
        match r {
            Some(v) => group_of(s@) == Some(v as nat),
            None => group_of(s@) is None,
        },
{
    if s.len() < 1 || s.len() > 4 {
        return None;
    }
    let mut v: u32 = 0;
    let mut i: usize = 0;
    assert(s@.subrange(0, 0) =~= Seq::<char>::empty());
    while i < s.len()
        invariant
            i <= s@.len() <= 4,
            hex_value(s@.subrange(0, i as int)) == Some(v as nat),
            i == 0 ==> v == 0,
            i == 1 ==> v <= 0xf,
            i == 2 ==> v <= 0xff,
            i == 3 ==> v <= 0xfff,
            i == 4 ==> v <= 0xffff,
        decreases s@.len() - i,
    {
        assert(s@.subrange(0, i + 1).drop_last() =~= s@.subrange(0, i as int));
        match hex_digit_value(s[i]) {
            None => {
                proof {
                    hex_value_fails(s@, i as int);
                }
                return None;
            },
            Some(d) => {
                v = v * 16 + d;
            },
        }
        i += 1;
    }
    assert(s@.subrange(0, i as int) =~= s@);
    Some(v as u16)
}

/// The groups `g` as numbers.
pub open spec fn nats(g: Seq<u16>) -> Seq<nat> {
    g.map_values(|v: u16| v as nat)
}

proof fn groups_of_fails(p: Seq<Seq<char>>, i: int, dotted: bool)
    requires
        0 <= i < p.len(),
        group_of(p[i]) is None,
        i < p.len() - 1 || !dotted || ipv4_of(p[i]) is None,
    ensures
        groups_of(p, dotted) is None,
    decreases p.len(),
{
    if i < p.len() - 1 {
        groups_of_fails(p.drop_last(), i, false);
    }
}

/// The groups that the text `s` between colons writes.
fn parse_side(s: &[char], dotted: bool) -> (r: Option<Vec<u16>>)
    ensures
        match r {
            Some(g) => side_groups(s@, dotted) == Some(nats(g@)),
            None => side_groups(s@, dotted) is None,
        },
{
    let mut g: Vec<u16> = Vec::new();
    if s.len() == 0 {
        assert(nats(g@) =~= Seq::<nat>::empty());
        return Some(g);
    }
    let p = text::split(s, ':');
    let ghost parts = text::split_spec(s@, ':');
    assert(parts.len() == p@.len());
    let last: usize = p.len() - 1;
    let mut i: usize = 0;
    assert(parts.subrange(0, 0) =~= Seq::<Seq<char>>::empty());
    assert(nats(g@) =~= Seq::<nat>::empty());
    while i < last
        invariant
            i <= last < p@.len(),
            last == p@.len() - 1,
            parts == text::views(p@),
            parts == text::split_spec(s@, ':'),
            s@.len() > 0,
            groups_of(parts.subrange(0, i as int), false) == Some(nats(g@)),
        decreases last - i,
    {
        assert(parts[i as int] == p@[i as int]@);
        assert(parts.subrange(0, i + 1).drop_last() =~= parts.subrange(0, i as int));
        match group_value(&p[i]) {
            None => {
                proof {
                    groups_of_fails(parts, i as int, dotted);
                }
                return None;
            },
            Some(v) => {
                let ghost was = nats(g@);
                g.push(v);
                assert(nats(g@) =~= was.push(v as nat));
            },
        }
        i += 1;
    }
    assert(parts.drop_last() =~= parts.subrange(0, i as int));
    assert(parts.last() == p@[last as int]@);
    let ghost was = nats(g@);
    match group_value(&p[last]) {
        Some(v) => {
            g.push(v);
            assert(nats(g@) =~= was.push(v as nat));
            Some(g)
        },
        None => {
            if !dotted {
                return None;
            }
            match parse_ipv4(p[last].as_slice()) {
                None => None,
                Some(v) => {
                    let hi: u32 = v / 0x1_0000;
                    let lo: u32 = v % 0x1_0000;
                    g.push(hi as u16);
                    g.push(lo as u16);
                    assert(nats(g@) =~= was.push((v / 0x1_0000) as nat).push(
                        (v % 0x1_0000) as nat,
                    ));
                    Some(g)
                },
            }
        },
    }
}

/// The place of the first `::` in `s`.
fn find_gap(s: &[char]) -> (r: Option<usize>)
    ensures
        match r {
            Some(i) => first_gap(s@, i as int),
            None => !exists|i: int| first_gap(s@, i),
        },
{
    let mut i: usize = 0;
    while i < s.len() && i + 1 < s.len()
        invariant
            i <= s@.len(),
            forall|j: int| 0 <= j < i ==> !(#[trigger] s@[j] == ':' && s@[j + 1] == ':'),
        decreases s@.len() - i,
    {
        if s[i] == ':' && s[i + 1] == ':' {
            return Some(i);
        }
        i += 1;
    }
    None
}

proof fn one_first_gap(s: Seq<char>, i: int, j: int)
    requires
        first_gap(s, i),
        first_gap(s, j),
    ensures
        i == j,
{
    if i < j {
        assert(s[i] == ':');
    } else if j < i {
        assert(s[j] == ':');
    }
}

fn value_of(g: &Vec<u16>) -> (v: u128)
    requires
        g@.len() == 8,
    ensures
        v == groups_value(nats(g@)),
{
    let ghost n = nats(g@);
    reveal_with_fuel(groups_value, 9);
    assert(n.drop_last().drop_last().drop_last().drop_last().drop_last().drop_last().drop_last().drop_last()
        =~= Seq::<nat>::empty());
    let a: u128 = g[0] as u128 * 0x1_0000 + g[1] as u128;
    let b: u128 = a * 0x1_0000 + g[2] as u128;
    let c: u128 = b * 0x1_0000 + g[3] as u128;
    let d: u128 = c * 0x1_0000 + g[4] as u128;
    let e: u128 = d * 0x1_0000 + g[5] as u128;
    let f: u128 = e * 0x1_0000 + g[6] as u128;
    f * 0x1_0000 + g[7] as u128
}

/// The eight groups of the IPv6 address that `s` writes.
fn parse_ipv6(s: &[char]) -> (r: Option<Vec<u16>>)
    ensures
        match r {
            Some(g) => ipv6_groups(s@) == Some(nats(g@)) && g@.len() == 8,
            None => ipv6_groups(s@) is None,
        },
{
    match find_gap(s) {
        None => match parse_side(s, true) {
            Some(g) => if g.len() == 8 {
                Some(g)
            } else {
                None
            },
            None => None,
        },
        Some(i) => {
            let ghost chosen = choose|i: int| first_gap(s@, i);
            proof {
                one_first_gap(s@, i as int, chosen);
            }
            let n: usize = s.len();
            assert(i + 1 < n);
            let head = parse_side(&s[0..i], false);
            let tail = parse_side(&s[i + 2..n], true);
            match (head, tail) {
                (Some(a), Some(b)) => {
                    if a.len() > 7 || b.len() > 7 - a.len() {
                        return None;
                    }
                    let mut g: Vec<u16> = Vec::new();
                    let zeros: usize = 8 - a.len() - b.len();
                    let mut k: usize = 0;
                    while k < a.len()
                        invariant
                            k <= a@.len(),
                            g@ == a@.subrange(0, k as int),
                        decreases a@.len() - k,
                    {
                        g.push(a[k]);
                        k += 1;
                        assert(g@ =~= a@.subrange(0, k as int));
                    }
                    let mut k: usize = 0;
                    while k < zeros
                        invariant
                            k <= zeros,
                            g@ == a@ + Seq::new(k as nat, |k: int| 0u16),
                        decreases zeros - k,
                    {
                        g.push(0);
                        k += 1;
                        assert(g@ =~= a@ + Seq::new(k as nat, |k: int| 0u16));
                    }
                    let mut k: usize = 0;
                    while k < b.len()
                        invariant
                            k <= b@.len(),
                            g@ == a@ + Seq::new(zeros as nat, |k: int| 0u16) + b@.subrange(
                                0,
                                k as int,
                            ),
                        decreases b@.len() - k,
                    {
                        g.push(b[k]);
                        k += 1;
                        assert(g@ =~= a@ + Seq::new(zeros as nat, |k: int| 0u16) + b@.subrange(
                            0,
                            k as int,
                        ));
                    }
                    assert(nats(g@) =~= nats(a@) + Seq::new(zeros as nat, |k: int| 0nat) + nats(
                        b@,
                    ));
                    Some(g)
                },
                _ => None,
            }
        },
    }
}

/// Reads an IP address out of its text.
pub fn parse_ip(s: &str) -> (r: Option<IpAddr>)
    ensures
        r == ip_of(s@),
{
    reveal(ip_of);
    let v = chars_of(s);
    match parse_ipv4(v.as_slice()) {
        Some(a) => Some(IpAddr::V4(a)),
        None => match parse_ipv6(v.as_slice()) {
            Some(g) => Some(IpAddr::V6(value_of(&g))),
            None => None,
        },
    }
}

/// The character of one hexadecimal digit, in lower case.
pub open spec fn hex_char(d: nat) -> char {
    if d < 10 {
        ('0' as u8 + d) as char
    } else {
        ('a' as u8 + (d - 10)) as char
    }
}

/// The hexadecimal numeral of `n` in lower case, without leading zeros.
pub open spec fn hex_numeral(n: nat) -> Seq<char>
    decreases n,
{
    if n < 16 {
        seq![hex_char(n)]
    } else {
        hex_numeral(n / 16).push(hex_char(n % 16))
    }
}

/// The text of an IPv4 address: its four octets in decimal, with dots between them.
pub open spec fn ipv4_text(v: nat) -> Seq<char> {
    text::decimal_spec(v / 0x100_0000) + "."@ + text::decimal_spec(v / 0x1_0000 % 0x100) + "."@
        + text::decimal_spec(v / 0x100 % 0x100) + "."@ + text::decimal_spec(v % 0x100)
}

/// The last `n` groups of 16 bits of `v`.
pub open spec fn segments(v: nat, n: nat) -> Seq<nat>
    decreases n,
{
    if n == 0 {
        Seq::empty()
    } else {
        segments(v / 0x1_0000, (n - 1) as nat).push(v % 0x1_0000)
    }
}

/// The groups `g` in hexadecimal, with colons between them.
pub open spec fn groups_text(g: Seq<nat>) -> Seq<char> {
    text::joined_by(g.map_values(|v: nat| hex_numeral(v)), ":"@)
}

/// The `n` groups from `a` on are zero.
pub open spec fn zeros_at(g: Seq<nat>, a: int, n: int) -> bool {
    &&& 0 <= a
    &&& 0 <= n
    &&& a + n <= g.len()
    &&& forall|i: int| a <= i < a + n ==> g[i] == 0
}

/// The `n` groups from `a` on are the first of the longest runs of zeros.
pub open spec fn longest_zeros(g: Seq<nat>, a: int, n: int) -> bool {
    &&& zeros_at(g, a, n)
    &&& forall|b: int, m: int| #[trigger] zeros_at(g, b, m) ==> m <= n
    &&& forall|b: int, m: int| #[trigger] zeros_at(g, b, m) && b < a ==> m < n
}

/// `t` is the text of an IPv6 address: an IPv4-mapped one ends in dotted form; else the first
/// of the longest runs of two or more zero groups is left out behind `::`.
pub open spec fn is_ipv6_text(v: nat, t: Seq<char>) -> bool {
    let g = segments(v, 8);
    if v / 0x1_0000_0000 == 0xffff {
        t == "::ffff:"@ + ipv4_text(v % 0x1_0000_0000)
    } else {
        exists|a: int, n: int|
            #[trigger] longest_zeros(g, a, n) && (if n > 1 {
                t == groups_text(g.subrange(0, a)) + "::"@ + groups_text(
                    g.subrange(a + n, g.len() as int),
                )
            } else {
                t == groups_text(g)
            })
    }
}

/// `t` is the text of the address `ip`.
pub open spec fn is_ip_text(ip: IpAddr, t: Seq<char>) -> bool {
    match ip {
        IpAddr::V4(v) => t == ipv4_text(v as nat),
        IpAddr::V6(v) => is_ipv6_text(v as nat, t),
    }
}

/// How the scope of an address stands in its text: not at all where it has none.
pub open spec fn scope_text(scope_id: u32) -> Seq<char> {
    if scope_id == 0 {
        ""@
    } else {
        "%"@ + text::decimal_spec(scope_id as nat)
    }
}

/// `t` is the text of the address and port `addr`; an IPv6 address stands in brackets.
pub open spec fn is_socket_text(addr: SocketAddr, t: Seq<char>) -> bool {
    match addr {
        SocketAddr::V4 { ip, port } => t == ipv4_text(ip as nat) + ":"@ + text::decimal_spec(
            port as nat,
        ),
        SocketAddr::V6 { ip, port, scope_id, .. } => exists|i: Seq<char>| #[trigger]
            is_ipv6_text(ip as nat, i) && t == "["@ + i + scope_text(scope_id) + "]:"@
                + text::decimal_spec(port as nat),
    }
}

fn hex_text(n: u16) -> (s: String)
    ensures
        s@ == hex_numeral(n as nat),
    decreases n,
{
    let d: u8 = (n % 16) as u8;
    let c: char = if d < 10 {
        (48 + d) as char
    } else {
        (97 + (d - 10)) as char
    };
    if n < 16 {
        let mut s = String::new();
        s.push(c);
        assert(s@ =~= seq![hex_char(n as nat)]);
        s
    } else {
        let mut s = hex_text(n / 16);
        s.push(c);
        s
    }
}

fn ipv4_string(v: u32) -> (s: String)
    ensures
        s@ == ipv4_text(v as nat),
{
    let mut s = decimal((v / 0x100_0000) as u64);
    push_str(&mut s, ".");
    push_str(&mut s, decimal((v / 0x1_0000 % 0x100) as u64).as_str());
    push_str(&mut s, ".");
    push_str(&mut s, decimal((v / 0x100 % 0x100) as u64).as_str());
    push_str(&mut s, ".");
    push_str(&mut s, decimal((v % 0x100) as u64).as_str());
    s
}

fn segments_of(v: u128, n: usize) -> (g: Vec<u16>)
    ensures
        nats(g@) == segments(v as nat, n as nat),
        g@.len() == n,
    decreases n,
{
    if n == 0 {
        let g: Vec<u16> = Vec::new();
        assert(nats(g@) =~= Seq::<nat>::empty());
        g
    } else {
        let mut g = segments_of(v / 0x1_0000, n - 1);
        let ghost was = g@;
        let low: u16 = (v % 0x1_0000) as u16;
        g.push(low);
        assert(nats(g@) =~= nats(was).push((v % 0x1_0000) as nat));
        g
    }
}

fn groups_string(g: &Vec<u16>, from: usize, to: usize) -> (s: String)
    requires
        from <= to <= g@.len(),
    ensures
        s@ == groups_text(nats(g@).subrange(from as int, to as int)),
{
    let mut s = String::new();
    let mut i: usize = from;
    let ghost all = nats(g@);
    let ghost hex = |v: nat| hex_numeral(v);
    while i < to
        invariant
            from <= i <= to <= g@.len(),
            all == nats(g@),
            s@ == groups_text(all.subrange(from as int, i as int)),
        decreases to - i,
    {
        if i > from {
            push_str(&mut s, ":");
        }
        push_str(&mut s, hex_text(g[i]).as_str());
        let ghost next = all.subrange(from as int, i + 1).map_values(|v: nat| hex_numeral(v));
        assert(next.drop_last() =~= all.subrange(from as int, i as int).map_values(
            |v: nat| hex_numeral(v),
        ));
        assert(next.last() == hex_numeral(g@[i as int] as nat));
        assert(s@ =~= groups_text(all.subrange(from as int, i + 1)));
        i += 1;
    }
    s
}

/// The first of the longest runs of zeros in `g`.
fn longest_run(g: &Vec<u16>) -> (r: (usize, usize))
    ensures
        longest_zeros(nats(g@), r.0 as int, r.1 as int),
        r.0 + r.1 <= g@.len(),
{
    let ghost n = nats(g@);
    let mut best: (usize, usize) = (0, 0);
    let mut start: usize = 0;
    let mut len: usize = 0;
    let mut i: usize = 0;
    while i < g.len()
        invariant
            i <= g@.len(),
            n == nats(g@),
            start + len == i,
            zeros_at(n, start as int, len as int),
            start > 0 ==> n[start - 1] != 0,
            longest_zeros(n.subrange(0, i as int), best.0 as int, best.1 as int),
        decreases g@.len() - i,
    {
        let ghost before = n.subrange(0, i as int);
        let ghost after = n.subrange(0, i + 1);
        assert(after[i as int] == n[i as int]);
        assert forall|b: int, m: int| zeros_at(after, b, m) && b + m <= i implies zeros_at(
            before,
            b,
            m,
        ) by {
            assert forall|k: int| b <= k < b + m implies before[k] == 0 by {
                assert(after[k] == 0);
            }
        }
        assert forall|k: int| best.0 <= k < best.0 + best.1 implies after[k] == 0 by {
            assert(before[k] == 0);
        }
        if g[i] == 0 {
            len += 1;
            assert forall|k: int| start <= k < start + len implies after[k] == 0 by {
                assert(n[k] == 0);
            }
            assert forall|b: int, m: int| zeros_at(after, b, m) && b + m == i + 1 implies b
                >= start by {
                if b < start {
                    assert(after[start - 1] == n[start - 1]);
                }
            }
            if len > best.1 {
                best = (start, len);
            }
            assert forall|b: int, m: int| #[trigger] zeros_at(after, b, m) implies m <= best.1 && (
            b < best.0 ==> m < best.1) by {
                if b + m <= i {
                    assert(zeros_at(before, b, m));
                }
            }
        } else {
            assert forall|b: int, m: int| #[trigger] zeros_at(after, b, m) implies m <= best.1 && (
            b < best.0 ==> m < best.1) by {
                if b + m == i + 1 && m > 0 {
                    assert(after[i as int] == 0);
                }
                if b + m <= i {
                    assert(zeros_at(before, b, m));
                }
            }
            start = i + 1;
            len = 0;
        }
        i += 1;
    }
    assert(n.subrange(0, n.len() as int) =~= n);
    best
}

fn ipv6_string(v: u128) -> (s: String)
    ensures
        is_ipv6_text(v as nat, s@),
{
    if v / 0x1_0000_0000 == 0xffff {
        let mut s = "::ffff:".to_owned();
        push_str(&mut s, ipv4_string((v % 0x1_0000_0000) as u32).as_str());
        return s;
    }
    let g = segments_of(v, 8);
    let (a, n) = longest_run(&g);
    if n > 1 {
        let mut s = groups_string(&g, 0, a);
        push_str(&mut s, "::");
        push_str(&mut s, groups_string(&g, a + n, g.len()).as_str());
        s
    } else {
        let s = groups_string(&g, 0, g.len());
        assert(nats(g@).subrange(0, g@.len() as int) =~= nats(g@));
        s
    }
}

impl IpAddr {
    /// The text of the address.
    pub fn to_text(&self) -> (s: String)
        ensures
            is_ip_text(*self, s@),
    {
        match *self {
            IpAddr::V4(v) => ipv4_string(v),
            IpAddr::V6(v) => ipv6_string(v),
        }
    }
}

impl SocketAddr {
    /// The text of the address and the port.
    pub fn to_text(&self) -> (s: String)
        ensures
            is_socket_text(*self, s@),
    {
        match *self {
            SocketAddr::V4 { ip, port } => {
                let mut s = ipv4_string(ip);
                push_str(&mut s, ":");
                push_str(&mut s, decimal(port as u64).as_str());
                s
            },
            SocketAddr::V6 { ip, port, scope_id, .. } => {
                let i = ipv6_string(ip);
                let mut s = "[".to_owned();
                push_str(&mut s, i.as_str());
                if scope_id != 0 {
                    push_str(&mut s, "%");
                    push_str(&mut s, decimal(scope_id as u64).as_str());
                }
                push_str(&mut s, "]:");
                push_str(&mut s, decimal(port as u64).as_str());
                proof {
                    reveal_strlit("");
                    assert(s@ =~= "["@ + i@ + scope_text(scope_id) + "]:"@ + text::decimal_spec(
                        port as nat,
                    ));
                }
                s
            },
        }
    }
}

// ---- addresses are read as they are written ----

proof fn decimal_digits_read_back(n: nat)
    ensures
        dec_value(text::decimal_spec(n)) == Some(n),
    decreases n,
{
    let s = text::decimal_spec(n);
    if n >= 10 {
        decimal_digits_read_back(n / 10);
        assert(s.drop_last() =~= text::decimal_spec(n / 10));
        assert(dec_digit(s.last()) == Some(n % 10));
    } else {
        assert(s.drop_last() =~= Seq::<char>::empty());
        assert(dec_value(s.drop_last()) == Some(0nat));
        assert(dec_digit(s.last()) == Some(n));
    }
}

proof fn numeral_without_leading_zero(s: Seq<char>)
    requires
        s.len() >= 1,
        s.len() == 1 || s[0] != '0',
        dec_value(s) is Some,
    ensures
        text::decimal_spec(dec_value(s)->0) == s,
        s[0] != '0' ==> dec_value(s)->0 >= 1,
    decreases s.len(),
{
    let p = s.drop_last();
    let d = dec_digit(s.last())->0;
    if s.len() == 1 {
        assert(p =~= Seq::<char>::empty());
        assert(dec_value(p) == Some(0nat));
        assert(s =~= seq![text::digit_char(d)]);
    } else {
        numeral_without_leading_zero(p);
        let v = dec_value(p)->0;
        assert(p[0] == s[0]);
        assert((v * 10 + d) / 10 == v && (v * 10 + d) % 10 == d);
        assert(text::digit_char(d) == s.last());
        assert(text::decimal_spec(v * 10 + d) =~= p.push(s.last()));
        assert(p.push(s.last()) =~= s);
    }
}

proof fn octets_read_back(n: nat)
    requires
        n <= 255,
    ensures
        octet(text::decimal_spec(n)) == Some(n),
        !text::decimal_spec(n).contains('.'),
        !text::decimal_spec(n).contains(':'),
        1 <= text::decimal_spec(n).len() <= 3,
{
    let s = text::decimal_spec(n);
    decimal_digits_read_back(n);
    text::numeral_reads_back(n);
    reveal_with_fuel(text::decimal_spec, 4);
    assert(1 <= s.len() <= 3);
    if s.len() > 1 {
        assert(n >= 10);
    }
    assert forall|i: int| 0 <= i < s.len() implies s[i] != '.' && s[i] != ':' by {
        assert(48 <= s[i] as int <= 57);
    }
}

/// The four numbers of an IPv4 address, in decimal with dots between them, write that address.
pub proof fn dotted_numbers_write_an_address(a: nat, b: nat, c: nat, d: nat)
    requires
        a <= 255,
        b <= 255,
        c <= 255,
        d <= 255,
    ensures
        ipv4_of(
            text::decimal_spec(a) + seq!['.'] + text::decimal_spec(b) + seq!['.']
                + text::decimal_spec(c) + seq!['.'] + text::decimal_spec(d),
        ) == Some(a * 0x100_0000 + b * 0x1_0000 + c * 0x100 + d),
{
    octets_read_back(a);
    octets_read_back(b);
    octets_read_back(c);
    octets_read_back(d);
    let ta = text::decimal_spec(a);
    let tb = text::decimal_spec(b);
    let tc = text::decimal_spec(c);
    let td = text::decimal_spec(d);
    text::text_without_separator_is_one_part(ta, '.');
    text::last_part_is_split_off(ta, tb, '.');
    text::last_part_is_split_off(ta + seq!['.'] + tb, tc, '.');
    text::last_part_is_split_off(ta + seq!['.'] + tb + seq!['.'] + tc, td, '.');
    let s = ta + seq!['.'] + tb + seq!['.'] + tc + seq!['.'] + td;
    assert(text::split_spec(s, '.') =~= seq![ta, tb, tc, td]);
}

/// An IPv4 address is read back from its text.
pub proof fn ipv4_text_reads_back(v: u32)
    ensures
        ip_of(ipv4_text(v as nat)) == Some(IpAddr::V4(v)),
        ipv4_of(ipv4_text(v as nat)) == Some(v as nat),
{
    reveal(ip_of);
    let n = v as nat;
    dotted_numbers_write_an_address(
        n / 0x100_0000,
        n / 0x1_0000 % 0x100,
        n / 0x100 % 0x100,
        n % 0x100,
    );
    reveal_strlit(".");
    assert("."@ =~= seq!['.']);
    octets_of_a_number(n);
}

proof fn octets_of_a_number(n: nat)
    requires
        n < 0x1_0000_0000,
    ensures
        n / 0x100_0000 <= 255,
        n / 0x100_0000 * 0x100_0000 + n / 0x1_0000 % 0x100 * 0x1_0000 + n / 0x100 % 0x100 * 0x100 + n
            % 0x100 == n,
{
    let h = n / 0x100;
    let m = n / 0x1_0000;
    assert(m == h / 0x100);
    assert(n / 0x100_0000 == m / 0x100);
    assert(n == h * 0x100 + n % 0x100);
    assert(h == m * 0x100 + h % 0x100);
    assert(m == m / 0x100 * 0x100 + m % 0x100);
}

proof fn number_of_octets(a: nat, b: nat, c: nat, d: nat)
    requires
        a <= 255,
        b <= 255,
        c <= 255,
        d <= 255,
    ensures
        ({
            let v = a * 0x100_0000 + b * 0x1_0000 + c * 0x100 + d;
            &&& v < 0x1_0000_0000
            &&& v / 0x100_0000 == a
            &&& v / 0x1_0000 % 0x100 == b
            &&& v / 0x100 % 0x100 == c
            &&& v % 0x100 == d
        }),
{
    let v = a * 0x100_0000 + b * 0x1_0000 + c * 0x100 + d;
    assert(v == (a * 0x1_0000 + b * 0x100 + c) * 0x100 + d);
    assert(v / 0x100 == a * 0x1_0000 + b * 0x100 + c);
    assert(v / 0x1_0000 == a * 0x100 + b);
    assert(v / 0x100_0000 == a);
}

/// A text is an IPv4 address only if it is the text of one: no number has leading zeros or is
/// above 255, and there are four.
pub proof fn only_its_text_is_an_ipv4_address(s: Seq<char>)
    requires
        ipv4_of(s) is Some,
    ensures
        ipv4_of(s)->0 < 0x1_0000_0000,
        s == ipv4_text(ipv4_of(s)->0),
{
    let p = text::split_spec(s, '.');
    text::splitting_loses_nothing(s, '.');
    numeral_without_leading_zero(p[0]);
    numeral_without_leading_zero(p[1]);
    numeral_without_leading_zero(p[2]);
    numeral_without_leading_zero(p[3]);
    let a = octet(p[0])->0;
    let b = octet(p[1])->0;
    let c = octet(p[2])->0;
    let d = octet(p[3])->0;
    number_of_octets(a, b, c, d);
    four_joined(p, seq!['.']);
    reveal_strlit(".");
    assert("."@ =~= seq!['.']);
}

proof fn four_joined(p: Seq<Seq<char>>, sep: Seq<char>)
    requires
        p.len() == 4,
    ensures
        text::joined_by(p, sep) == p[0] + sep + p[1] + sep + p[2] + sep + p[3],
{
    let three = p.drop_last();
    let two = three.drop_last();
    let one = two.drop_last();
    assert(text::joined_by(one, sep) == p[0]);
    assert(text::joined_by(two, sep) == p[0] + sep + p[1]);
    assert(text::joined_by(three, sep) == p[0] + sep + p[1] + sep + p[2]);
}

/// Every address at once, `0.0.0.0`, is an address: the one whose bits are all zero.
pub proof fn every_address_is_an_address()
    ensures
        ip_of("0.0.0.0"@) == Some(IpAddr::V4(0)),
{
    reveal_strlit("0.0.0.0");
    reveal_strlit(".");
    ipv4_text_reads_back(0);
    assert(text::decimal_spec(0) =~= seq!['0']);
    assert(ipv4_text(0) =~= "0.0.0.0"@);
}

// ---- IPv6 addresses are read as they are written ----

proof fn hexadecimal_digits_read_back(n: nat)
    requires
        n < 0x1_0000,
    ensures
        hex_value(hex_numeral(n)) == Some(n),
        1 <= hex_numeral(n).len() <= 4,
        n < 0x1000 ==> hex_numeral(n).len() <= 3,
        n < 0x100 ==> hex_numeral(n).len() <= 2,
        n < 0x10 ==> hex_numeral(n).len() == 1,
        forall|i: int|
            0 <= i < hex_numeral(n).len() ==> #[trigger] hex_numeral(n)[i] != ':' && hex_numeral(n)[i]
                != '.',
    decreases n,
{
    let s = hex_numeral(n);
    if n >= 16 {
        hexadecimal_digits_read_back(n / 16);
        let p = hex_numeral(n / 16);
        assert(s.drop_last() =~= p);
        assert(hex_digit(s.last()) == Some(n % 16));
        assert forall|i: int| 0 <= i < s.len() implies #[trigger] s[i] != ':' && s[i] != '.' by {
            if i < p.len() {
                assert(s[i] == p[i]);
            } else {
                assert(s[i] == s.last());
            }
        }
    } else {
        assert(s.drop_last() =~= Seq::<char>::empty());
        assert(hex_value(s.drop_last()) == Some(0nat));
        assert(hex_digit(s.last()) == Some(n));
        assert(s[0] == s.last());
    }
}

spec fn numerals(g: Seq<nat>) -> Seq<Seq<char>> {
    g.map_values(|v: nat| hex_numeral(v))
}

spec fn without_gap(s: Seq<char>) -> bool {
    &&& forall|j: int| 0 <= j < s.len() - 1 ==> !(#[trigger] s[j] == ':' && s[j + 1] == ':')
    &&& s.len() > 0 ==> s[0] != ':' && s.last() != ':'
    &&& !s.contains('.')
}

proof fn groups_are_split(g: Seq<nat>, dotted: bool)
    requires
        forall|i: int| 0 <= i < g.len() ==> #[trigger] g[i] < 0x1_0000,
    ensures
        g.len() > 0 ==> text::split_spec(groups_text(g), ':') == numerals(g),
        groups_of(numerals(g), dotted) == Some(g),
        g.len() > 0 <==> groups_text(g).len() > 0,
        without_gap(groups_text(g)),
    decreases g.len(),
{
    reveal_strlit(":");
    assert(":"@ =~= seq![':']);
    let t = groups_text(g);
    let p = numerals(g);
    if g.len() == 0 {
        assert(t =~= Seq::<char>::empty());
        assert(g =~= Seq::<nat>::empty());
    } else {
        let h = g.drop_last();
        let q = numerals(h);
        let n = hex_numeral(g.last());
        assert(g[g.len() - 1] < 0x1_0000);
        assert forall|i: int| 0 <= i < h.len() implies #[trigger] h[i] < 0x1_0000 by {
            assert(g[i] == h[i]);
        }
        hexadecimal_digits_read_back(g.last());
        groups_are_split(h, false);
        assert(p.drop_last() =~= q);
        assert(p.last() == n);
        assert(!n.contains(':') && !n.contains('.'));
        assert(h.push(g.last()) =~= g);
        assert(group_of(n) == Some(g.last()));
        assert(groups_of(p, dotted) == Some(g));
        if g.len() == 1 {
            assert(t == n);
            text::text_without_separator_is_one_part(n, ':');
            assert(p =~= seq![n]);
        } else {
            let r = groups_text(h);
            assert(t == r + ":"@ + n);
            text::last_part_is_split_off(r, n, ':');
            assert(q.push(n) =~= p);
            assert forall|j: int| 0 <= j < t.len() - 1 implies !(#[trigger] t[j] == ':' && t[j + 1]
                == ':') by {
                if j < r.len() - 1 {
                    assert(t[j] == r[j] && t[j + 1] == r[j + 1]);
                } else if j == r.len() - 1 {
                    assert(t[j] == r.last());
                } else if j == r.len() {
                    assert(t[j + 1] == n[0]);
                } else {
                    assert(t[j] == n[j - r.len() - 1]);
                }
            }
            assert(t[0] == r[0]);
            assert(t.last() == n.last());
            assert(n.last() == n[n.len() - 1]);
            assert forall|j: int| 0 <= j < t.len() implies t[j] != '.' by {
                if j < r.len() {
                    assert(t[j] == r[j]);
                    assert(r.contains(r[j]));
                } else if j > r.len() {
                    assert(t[j] == n[j - r.len() - 1]);
                }
            }
        }
    }
}

proof fn sides_read_back(g: Seq<nat>, dotted: bool)
    requires
        forall|i: int| 0 <= i < g.len() ==> #[trigger] g[i] < 0x1_0000,
    ensures
        side_groups(groups_text(g), dotted) == Some(g),
{
    groups_are_split(g, dotted);
    if g.len() == 0 {
        assert(g =~= Seq::<nat>::empty());
    }
}

spec fn pow_groups(n: nat) -> nat
    decreases n,
{
    if n == 0 {
        1
    } else {
        0x1_0000 * pow_groups((n - 1) as nat)
    }
}

proof fn segments_make_the_number(v: nat, n: nat)
    requires
        v < pow_groups(n),
    ensures
        segments(v, n).len() == n,
        groups_value(segments(v, n)) == v,
        forall|i: int| 0 <= i < n ==> #[trigger] segments(v, n)[i] < 0x1_0000,
    decreases n,
{
    let g = segments(v, n);
    if n > 0 {
        let h = v / 0x1_0000;
        assert(h < pow_groups((n - 1) as nat));
        segments_make_the_number(h, (n - 1) as nat);
        let p = segments(h, (n - 1) as nat);
        assert(g.drop_last() =~= p);
        assert(v == h * 0x1_0000 + v % 0x1_0000);
        assert forall|i: int| 0 <= i < n implies #[trigger] g[i] < 0x1_0000 by {
            if i < n - 1 {
                assert(g[i] == p[i]);
            }
        }
    }
}

proof fn first_gap_is_one(s: Seq<char>, i: int)
    requires
        first_gap(s, i),
    ensures
        ipv6_groups(s) == gapped_groups(s, i),
{
    let k = choose|k: int| first_gap(s, k);
    assert(first_gap(s, k));
    if k < i {
        assert(s[k] == ':' && s[k + 1] == ':');
    }
    if i < k {
        assert(s[i] == ':' && s[i + 1] == ':');
    }
}

proof fn no_ipv4_without_dots(s: Seq<char>)
    requires
        !s.contains('.'),
    ensures
        ipv4_of(s) is None,
{
    text::text_without_separator_is_one_part(s, '.');
}

proof fn gapped_text_reads_back(g: Seq<nat>, a: int, n: int)
    requires
        g.len() == 8,
        forall|i: int| 0 <= i < g.len() ==> #[trigger] g[i] < 0x1_0000,
        zeros_at(g, a, n),
        n > 1,
    ensures
        ({
            let t = groups_text(g.subrange(0, a)) + "::"@ + groups_text(g.subrange(a + n, 8));
            &&& ipv6_groups(t) == Some(g)
            &&& ipv4_of(t) is None
        }),
{
    reveal_strlit("::");
    let ga = g.subrange(0, a);
    let gb = g.subrange(a + n, 8);
    let ta = groups_text(ga);
    let tb = groups_text(gb);
    let t = ta + "::"@ + tb;
    assert forall|i: int| 0 <= i < ga.len() implies #[trigger] ga[i] < 0x1_0000 by {
        assert(ga[i] == g[i]);
    }
    assert forall|i: int| 0 <= i < gb.len() implies #[trigger] gb[i] < 0x1_0000 by {
        assert(gb[i] == g[a + n + i]);
    }
    groups_are_split(ga, false);
    groups_are_split(gb, true);
    sides_read_back(ga, false);
    sides_read_back(gb, true);
    let i = ta.len() as int;
    assert(t[i] == ':' && t[i + 1] == ':');
    assert forall|j: int| 0 <= j < i implies !(#[trigger] t[j] == ':' && t[j + 1] == ':') by {
        assert(t[j] == ta[j]);
        if j < i - 1 {
            assert(t[j + 1] == ta[j + 1]);
        } else {
            assert(t[j] == ta.last());
        }
    }
    assert(first_gap(t, i));
    first_gap_is_one(t, i);
    assert(t.subrange(0, i) =~= ta);
    assert(t.subrange(i + 2, t.len() as int) =~= tb);
    assert(ga + Seq::new((8 - ga.len() - gb.len()) as nat, |k: int| 0nat) + gb =~= g);
    assert forall|j: int| 0 <= j < t.len() implies t[j] != '.' by {
        if j < i {
            assert(t[j] == ta[j]);
            assert(ta.contains(ta[j]));
        } else if j >= i + 2 {
            assert(t[j] == tb[j - i - 2]);
            assert(tb.contains(tb[j - i - 2]));
        }
    }
    no_ipv4_without_dots(t);
}

proof fn plain_text_reads_back(g: Seq<nat>)
    requires
        g.len() == 8,
        forall|i: int| 0 <= i < g.len() ==> #[trigger] g[i] < 0x1_0000,
    ensures
        ipv6_groups(groups_text(g)) == Some(g),
        ipv4_of(groups_text(g)) is None,
{
    let t = groups_text(g);
    groups_are_split(g, true);
    sides_read_back(g, true);
    assert forall|i: int| !first_gap(t, i) by {
        if first_gap(t, i) {
            assert(t[i] == ':' && t[i + 1] == ':');
        }
    }
    no_ipv4_without_dots(t);
}

proof fn ipv4_text_is_long(w: u32)
    ensures
        ipv4_text(w as nat).len() >= 7,
        !ipv4_text(w as nat).contains(':'),
{
    let n = w as nat;
    reveal_strlit(".");
    octets_of_a_number(n);
    octets_read_back(n / 0x100_0000);
    octets_read_back(n / 0x1_0000 % 0x100);
    octets_read_back(n / 0x100 % 0x100);
    octets_read_back(n % 0x100);
    let a = text::decimal_spec(n / 0x100_0000);
    let b = text::decimal_spec(n / 0x1_0000 % 0x100);
    let c = text::decimal_spec(n / 0x100 % 0x100);
    let d = text::decimal_spec(n % 0x100);
    let t = ipv4_text(n);
    assert(t =~= a + "."@ + b + "."@ + c + "."@ + d);
    let l = a.len() as int;
    let m = l + 1 + b.len();
    let k = m + 1 + c.len();
    assert forall|i: int| 0 <= i < t.len() implies t[i] != ':' by {
        if i < l {
            assert(t[i] == a[i]);
            assert(a.contains(a[i]));
        } else if i == l || i == m || i == k {
        } else if i < m {
            assert(t[i] == b[i - l - 1]);
            assert(b.contains(b[i - l - 1]));
        } else if i < k {
            assert(t[i] == c[i - m - 1]);
            assert(c.contains(c[i - m - 1]));
        } else {
            assert(t[i] == d[i - k - 1]);
            assert(d.contains(d[i - k - 1]));
        }
    }
}

proof fn four_f_read_back()
    ensures
        group_of(seq!['f', 'f', 'f', 'f']) == Some(0xffffnat),
{
    let s = seq!['f', 'f', 'f', 'f'];
    let s3 = s.drop_last();
    let s2 = s3.drop_last();
    let s1 = s2.drop_last();
    assert(s1.drop_last() =~= Seq::<char>::empty());
    assert(hex_value(s1.drop_last()) == Some(0nat));
    assert(hex_value(s1) == Some(0xfnat));
    assert(hex_value(s2) == Some(0xffnat));
    assert(hex_value(s3) == Some(0xfffnat));
    assert(hex_value(s) == Some(0xffffnat));
}

proof fn mapped_groups_make_the_number(hi: nat, lo: nat)
    ensures
        groups_value(seq![0nat, 0, 0, 0, 0, 0xffff, hi, lo]) == 0xffff * 0x1_0000_0000 + hi * 0x1_0000
            + lo,
{
    let g = seq![0nat, 0, 0, 0, 0, 0xffff, hi, lo];
    let g7 = g.drop_last();
    let g6 = g7.drop_last();
    let g5 = g6.drop_last();
    let g4 = g5.drop_last();
    let g3 = g4.drop_last();
    let g2 = g3.drop_last();
    let g1 = g2.drop_last();
    assert(groups_value(g1.drop_last()) == 0);
    assert(groups_value(g1) == 0);
    assert(groups_value(g2) == 0);
    assert(groups_value(g3) == 0);
    assert(groups_value(g4) == 0);
    assert(groups_value(g5) == 0);
    assert(groups_value(g6) == 0xffff);
    assert(groups_value(g7) == 0xffff * 0x1_0000 + hi);
}

proof fn colon_in_front_is_no_ipv4(t: Seq<char>)
    requires
        t.len() > 0,
        t[0] == ':',
    ensures
        ipv4_of(t) is None,
{
    if ipv4_of(t) is Some {
        only_its_text_is_an_ipv4_address(t);
        let v = ipv4_of(t)->0;
        let d = text::decimal_spec(v / 0x100_0000);
        text::numeral_reads_back(v / 0x100_0000);
        assert(t[0] == d[0]);
        assert(48 <= d[0] as int <= 57);
    }
}

proof fn mapped_side_reads_back(d: Seq<char>, n: nat)
    requires
        ipv4_of(d) == Some(n),
        d.len() >= 7,
        !d.contains(':'),
    ensures
        side_groups(seq!['f', 'f', 'f', 'f'] + seq![':'] + d, true) == Some(
            seq![0xffffnat, n / 0x1_0000, n % 0x1_0000],
        ),
{
    let f = seq!['f', 'f', 'f', 'f'];
    let r = f + seq![':'] + d;
    assert(!f.contains(':'));
    text::text_without_separator_is_one_part(f, ':');
    text::last_part_is_split_off(f, d, ':');
    let p = seq![f].push(d);
    assert(text::split_spec(r, ':') == p);
    four_f_read_back();
    let one = p.drop_last();
    assert(one =~= seq![f]);
    assert(one.drop_last() =~= Seq::<Seq<char>>::empty());
    assert(groups_of(one.drop_last(), false) == Some(Seq::<nat>::empty()));
    assert(one.last() == f);
    assert(groups_of(one, false) == Some(Seq::<nat>::empty().push(0xffff)));
    assert(p.last() == d);
    assert(group_of(d) is None);
    let b = Seq::<nat>::empty().push(0xffff).push(n / 0x1_0000).push(n % 0x1_0000);
    assert(groups_of(p, true) == Some(b));
    assert(b =~= seq![0xffffnat, n / 0x1_0000, n % 0x1_0000]);
}

proof fn gap_in_front(r: Seq<char>, hi: nat, lo: nat)
    requires
        side_groups(r, true) == Some(seq![0xffffnat, hi, lo]),
    ensures
        ipv6_groups(seq![':', ':'] + r) == Some(seq![0nat, 0, 0, 0, 0, 0xffff, hi, lo]),
{
    let t = seq![':', ':'] + r;
    let b = seq![0xffffnat, hi, lo];
    let none = Seq::<nat>::empty();
    assert(t[0] == ':' && t[1] == ':');
    assert(first_gap(t, 0));
    first_gap_is_one(t, 0);
    assert(t.subrange(0, 0) =~= Seq::<char>::empty());
    assert(t.subrange(2, t.len() as int) =~= r);
    assert(side_groups(t.subrange(0, 0), false) == Some(none));
    assert(none.len() + b.len() == 3);
    let g = none + Seq::new((8 - none.len() - b.len()) as nat, |k: int| 0nat) + b;
    assert(gapped_groups(t, 0) == Some(g));
    assert(g =~= seq![0nat, 0, 0, 0, 0, 0xffff, hi, lo]);
}

proof fn mapped_text_reads_back(w: u32)
    ensures
        ({
            let t = "::ffff:"@ + ipv4_text(w as nat);
            &&& ipv4_of(t) is None
            &&& ipv6_groups(t) is Some
            &&& groups_value(ipv6_groups(t)->0) == 0xffff * 0x1_0000_0000 + w
        }),
{
    let n = w as nat;
    let d = ipv4_text(n);
    let t = "::ffff:"@ + d;
    let r = seq!['f', 'f', 'f', 'f'] + seq![':'] + d;
    let hi = n / 0x1_0000;
    let lo = n % 0x1_0000;
    assert(t =~= seq![':', ':'] + r) by {
        reveal_strlit("::ffff:");
    }
    ipv4_text_is_long(w);
    assert(ipv4_of(d) == Some(n)) by {
        ipv4_text_reads_back(w);
    }
    assert(ipv4_of(t) is None) by {
        assert(t[0] == ':');
        colon_in_front_is_no_ipv4(t);
    }
    assert(ipv6_groups(t) == Some(seq![0nat, 0, 0, 0, 0, 0xffff, hi, lo])) by {
        mapped_side_reads_back(d, n);
        gap_in_front(r, hi, lo);
    }
    mapped_groups_make_the_number(hi, lo);
    assert(n == hi * 0x1_0000 + lo);
}

/// An IPv6 address is read back from its text, whichever run of zeros is left out of it and
/// whether or not it ends in dotted form.
pub proof fn ipv6_text_reads_back(v: u128, t: Seq<char>)
    requires
        is_ipv6_text(v as nat, t),
    ensures
        ip_of(t) == Some(IpAddr::V6(v)),
{
    reveal(ip_of);
    let n = v as nat;
    let g = segments(n, 8);
    assert(n < pow_groups(8)) by {
        reveal_with_fuel(pow_groups, 9);
    }
    segments_make_the_number(n, 8);
    if n / 0x1_0000_0000 == 0xffff {
        let w = (n % 0x1_0000_0000) as u32;
        mapped_text_reads_back(w);
        assert(n == 0xffff * 0x1_0000_0000 + n % 0x1_0000_0000);
    } else {
        let (a, k) = choose|a: int, k: int|
            #[trigger] longest_zeros(g, a, k) && (if k > 1 {
                t == groups_text(g.subrange(0, a)) + "::"@ + groups_text(
                    g.subrange(a + k, g.len() as int),
                )
            } else {
                t == groups_text(g)
            });
        if k > 1 {
            gapped_text_reads_back(g, a, k);
        } else {
            plain_text_reads_back(g);
        }
    }
}

/// An address is read back from its text.
pub proof fn ip_text_reads_back(ip: IpAddr, t: Seq<char>)
    requires
        is_ip_text(ip, t),
    ensures
        ip_of(t) == Some(ip),
{
    match ip {
        IpAddr::V4(v) => ipv4_text_reads_back(v),
        IpAddr::V6(v) => ipv6_text_reads_back(v, t),
    }
}

/// The text of an address and port holds the two: an IPv4 address stands before the one colon
/// and the port behind it; an IPv6 address stands in brackets, with its scope behind `%` where it
/// has one, and the port behind the bracket and a colon.
pub proof fn socket_text_holds_its_parts(addr: SocketAddr, t: Seq<char>) -> (i: Seq<char>)
    requires
        is_socket_text(addr, t),
    ensures
        match addr {
            SocketAddr::V4 { ip, port } => {
                &&& ip_of(i) == Some(IpAddr::V4(ip))
                &&& text::split_spec(t, ':') == seq![i, text::decimal_spec(port as nat)]
            },
            SocketAddr::V6 { ip, port, scope_id, .. } => {
                &&& ip_of(i) == Some(IpAddr::V6(ip))
                &&& scope_id == 0 ==> t == seq!['['] + i + seq![']', ':'] + text::decimal_spec(
                    port as nat,
                )
                &&& scope_id != 0 ==> t == seq!['['] + i + seq!['%'] + text::decimal_spec(
                    scope_id as nat,
                ) + seq![']', ':'] + text::decimal_spec(port as nat)
            },
        },
{
    match addr {
        SocketAddr::V4 { ip, port } => {
            let i = ipv4_text(ip as nat);
            let p = text::decimal_spec(port as nat);
            reveal_strlit(":");
            ipv4_text_reads_back(ip);
            ipv4_text_is_long(ip);
            text::numeral_reads_back(port as nat);
            assert forall|k: int| 0 <= k < p.len() implies p[k] != ':' by {
                assert(48 <= p[k] as int <= 57);
            }
            assert(":"@ =~= seq![':']);
            text::text_without_separator_is_one_part(i, ':');
            text::last_part_is_split_off(i, p, ':');
            assert(text::split_spec(t, ':') =~= seq![i, p]);
            i
        },
        SocketAddr::V6 { ip, port, scope_id, .. } => {
            let i = choose|i: Seq<char>| #[trigger]
                is_ipv6_text(ip as nat, i) && t == "["@ + i + scope_text(scope_id) + "]:"@
                    + text::decimal_spec(port as nat);
            ipv6_text_reads_back(ip, i);
            reveal_strlit("[");
            reveal_strlit("]:");
            reveal_strlit("%");
            reveal_strlit("");
            let p = text::decimal_spec(port as nat);
            if scope_id == 0 {
                assert(t =~= seq!['['] + i + seq![']', ':'] + p);
            } else {
                assert(t =~= seq!['['] + i + seq!['%'] + text::decimal_spec(scope_id as nat)
                    + seq![']', ':'] + p);
            }
            i
        },
    }
}

/// The text of an IPv6 address that is not an IPv4-mapped one leaves out a run of zero groups
/// exactly where there is one of two or more; no run is longer, and none before it is as long.
pub proof fn longest_run_is_left_out(v: u128, t: Seq<char>) -> (r: (int, int))
    requires
        is_ipv6_text(v as nat, t),
        v as int / 0x1_0000_0000 != 0xffff,
    ensures
        ({
            let g = segments(v as nat, 8);
            &&& 0 <= r.0 && 0 <= r.1 && r.0 + r.1 <= 8
            &&& forall|i: int| r.0 <= i < r.0 + r.1 ==> g[i] == 0
            &&& r.1 <= 1 ==> t == groups_text(g)
            &&& r.1 > 1 ==> t == groups_text(g.subrange(0, r.0)) + seq![':', ':'] + groups_text(
                g.subrange(r.0 + r.1, 8),
            )
            &&& forall|b: int, e: int|
                0 <= b <= e <= 8 && #[trigger] g.subrange(b, e) == Seq::new(
                    (e - b) as nat,
                    |i: int| 0nat,
                ) ==> e - b <= r.1 && (b < r.0 ==> e - b < r.1)
        }),
{
    let n = v as nat;
    let g = segments(n, 8);
    assert(n < pow_groups(8)) by {
        reveal_with_fuel(pow_groups, 9);
    }
    segments_make_the_number(n, 8);
    reveal_strlit("::");
    assert("::"@ =~= seq![':', ':']);
    let (a, k) = choose|a: int, k: int|
        #[trigger] longest_zeros(g, a, k) && (if k > 1 {
            t == groups_text(g.subrange(0, a)) + "::"@ + groups_text(
                g.subrange(a + k, g.len() as int),
            )
        } else {
            t == groups_text(g)
        });
    assert forall|b: int, e: int|
        0 <= b <= e <= 8 && #[trigger] g.subrange(b, e) == Seq::new((e - b) as nat, |i: int| 0nat)
        implies e - b <= k && (b < a ==> e - b < k) by {
        assert forall|i: int| b <= i < b + (e - b) implies g[i] == 0 by {
            assert(g.subrange(b, e)[i - b] == g[i]);
        }
        assert(zeros_at(g, b, e - b));
    }
    (a, k)
}

proof fn hexadecimal_digits_are_no_dots(s: Seq<char>)
    requires
        hex_value(s) is Some,
    ensures
        !s.contains('.'),
{
    if s.contains('.') {
        let i = choose|i: int| 0 <= i < s.len() && s[i] == '.';
        hex_value_fails(s, i);
    }
}

proof fn dots_of_groups(p: Seq<Seq<char>>, dotted: bool, i: int)
    requires
        groups_of(p, dotted) is Some,
        0 <= i < p.len(),
        p[i].contains('.'),
    ensures
        dotted,
        i == p.len() - 1,
        ipv4_of(p[i]) is Some,
    decreases p.len(),
{
    if i < p.len() - 1 {
        assert(p.drop_last()[i] == p[i]);
        dots_of_groups(p.drop_last(), false, i);
    } else if group_of(p.last()) is Some {
        hexadecimal_digits_are_no_dots(p.last());
    }
}

/// The parts of an IPv6 address are hexadecimal; only the last one may be in dotted form, and is
/// then an IPv4 address. Where a run of zeros is left out, that part stands behind it.
pub proof fn only_the_last_part_is_dotted(s: Seq<char>, dotted: bool, i: int)
    requires
        s.len() > 0,
        side_groups(s, dotted) is Some,
        0 <= i < text::split_spec(s, ':').len(),
        text::split_spec(s, ':')[i].contains('.'),
    ensures
        dotted,
        i == text::split_spec(s, ':').len() - 1,
        ipv4_of(text::split_spec(s, ':')[i]) is Some,
{
    dots_of_groups(text::split_spec(s, ':'), dotted, i);
}

/// A text with a gap is an IPv6 address only if the part before the gap holds no dot, and the two
/// parts have seven groups at most; one without a gap only if it has eight.
pub proof fn groups_of_an_address(s: Seq<char>)
    requires
        ipv6_groups(s) is Some,
    ensures
        ipv6_groups(s)->0.len() == 8,
        forall|i: int| first_gap(s, i) ==> {
            let a = side_groups(s.subrange(0, i), false);
            let b = #[trigger] side_groups(s.subrange(i + 2, s.len() as int), true);
            &&& a is Some && b is Some
            &&& a->0.len() + b->0.len() <= 7
            &&& forall|k: int| 0 <= k < a->0.len() ==> ipv6_groups(s)->0[k] == a->0[k]
            &&& forall|k: int|
                0 <= k < b->0.len() ==> ipv6_groups(s)->0[8 - b->0.len() + k] == b->0[k]
            &&& forall|k: int|
                a->0.len() <= k < 8 - b->0.len() ==> ipv6_groups(s)->0[k] == 0
        },
        (forall|i: int| !first_gap(s, i)) ==> side_groups(s, true) == ipv6_groups(s),
{
    assert forall|i: int| first_gap(s, i) implies ({
        let a = side_groups(s.subrange(0, i), false);
        let b = #[trigger] side_groups(s.subrange(i + 2, s.len() as int), true);
        &&& a is Some && b is Some
        &&& a->0.len() + b->0.len() <= 7
        &&& forall|k: int| 0 <= k < a->0.len() ==> ipv6_groups(s)->0[k] == a->0[k]
        &&& forall|k: int|
            0 <= k < b->0.len() ==> ipv6_groups(s)->0[8 - b->0.len() + k] == b->0[k]
        &&& forall|k: int| a->0.len() <= k < 8 - b->0.len() ==> ipv6_groups(s)->0[k] == 0
    }) by {
        first_gap_is_one(s, i);
    }
    if exists|i: int| first_gap(s, i) {
        let i = choose|i: int| first_gap(s, i);
        first_gap_is_one(s, i);
    }
}

proof fn groups_behind(g: Seq<nat>, hi: nat, lo: nat)
    ensures
        groups_value(g.push(hi).push(lo)) == groups_value(g) * 0x1_0000_0000 + hi * 0x1_0000 + lo,
{
    let h = g.push(hi);
    assert(h.push(lo).drop_last() =~= h);
    assert(h.drop_last() =~= g);
    assert(groups_value(h) == groups_value(g) * 0x1_0000 + hi);
    assert(groups_value(h.push(lo)) == groups_value(h) * 0x1_0000 + lo);
}

/// An IPv6 address may end in dotted form: six groups, a colon and an IPv4 address write the
/// address that has the groups in front and the IPv4 address behind.
pub proof fn dotted_end_stands_for_two_groups(g: Seq<nat>, w: u32)
    requires
        g.len() == 6,
        forall|i: int| 0 <= i < g.len() ==> #[trigger] g[i] < 0x1_0000,
    ensures
        ipv6_groups(groups_text(g) + seq![':'] + ipv4_text(w as nat)) is Some,
        groups_value(ipv6_groups(groups_text(g) + seq![':'] + ipv4_text(w as nat))->0)
            == groups_value(g) * 0x1_0000_0000 + w,
{
    let n = w as nat;
    let r = groups_text(g);
    let d = ipv4_text(n);
    let t = r + seq![':'] + d;
    let p = numerals(g).push(d);
    let hi = n / 0x1_0000;
    let lo = n % 0x1_0000;
    groups_are_split(g, false);
    ipv4_text_is_long(w);
    assert(ipv4_of(d) == Some(n)) by {
        ipv4_text_reads_back(w);
    }
    text::last_part_is_split_off(r, d, ':');
    assert(text::split_spec(t, ':') == p);
    assert(p.drop_last() =~= numerals(g));
    assert(p.last() == d);
    assert(group_of(d) is None);
    assert(groups_of(p, true) == Some(g.push(hi).push(lo)));
    assert forall|i: int| !first_gap(t, i) by {
        if first_gap(t, i) {
            if i < r.len() - 1 {
                assert(t[i] == r[i] && t[i + 1] == r[i + 1]);
                assert(r[i] == ':' && r[i + 1] == ':');
            } else if i == r.len() - 1 {
                assert(t[i] == r.last());
            } else if i == r.len() {
                assert(t[i + 1] == d[0]);
                assert(d.contains(d[0]));
            } else {
                assert(t[i] == d[i - r.len() - 1]);
                assert(d.contains(d[i - r.len() - 1]));
            }
        }
    }
    assert(ipv6_groups(t) == Some(g.push(hi).push(lo)));
    groups_behind(g, hi, lo);
    assert(n == hi * 0x1_0000 + lo);
}

} // verus!
