//! IP addresses and address prefixes.
use vstd::prelude::*;

use crate::text;

verus! {

/// An IP address, as the number that its bits spell.
#[derive(Clone, Copy, PartialEq, Eq, Structural, Debug)]
pub enum IpAddr {
    V4(u32),
    V6(u128),
}

// ---------------------------------------------------------------- text

/// An IPv4 address in dotted decimal.
pub open spec fn ipv4_text(n: u32) -> Seq<char> {
    text::decimal((n / 0x100_0000) as nat) + seq!['.'] + text::decimal(
        ((n / 0x1_0000) % 0x100) as nat,
    ) + seq!['.'] + text::decimal(((n / 0x100) % 0x100) as nat) + seq!['.'] + text::decimal(
        (n % 0x100) as nat,
    )
}

/// The text that an IPv6 address is written as.
pub uninterp spec fn ipv6_text(n: u128) -> Seq<char>;

/// The IPv6 address that a text stands for, if it stands for one.
pub uninterp spec fn ipv6_of(s: Seq<char>) -> Option<u128>;

/// The text that an IP address is written as.
pub open spec fn ip_text(ip: IpAddr) -> Seq<char> {
    match ip {
        IpAddr::V4(n) => ipv4_text(n),
        IpAddr::V6(n) => ipv6_text(n),
    }
}

/// The address that a text stands for, if it stands for one. Dotted decimal is
/// IPv4; anything else is tried as IPv6.
pub open spec fn ip_of(s: Seq<char>) -> Option<IpAddr> {
    if exists|n: u32| s == #[trigger] ipv4_text(n) {
        Some(IpAddr::V4(choose|n: u32| s == #[trigger] ipv4_text(n)))
    } else {
        match ipv6_of(s) {
            Some(n) => Some(IpAddr::V6(n)),
            None => None,
        }
    }
}

/// `A::from_str` of `hickory_proto`, which is the parser of the standard
/// library for IPv4 addresses: accepts four decimal numbers between dots, each
/// at most 255 and without leading zeros, and nothing else.
#[verifier::external_body]
fn parse_ipv4(s: &str) -> (out: Option<u32>)
    ensures
        out matches Some(n) ==> s@ == ipv4_text(n),
        out is None ==> forall|n: u32| s@ != #[trigger] ipv4_text(n),
{
    s.parse::<hickory_resolver::proto::rr::rdata::A>().ok().map(|a| a.0.to_bits())
}

/// `AAAA::from_str` of `hickory_proto`, which is the parser of the standard
/// library for IPv6 addresses. The result depends on the text alone.
#[verifier::external_body]
fn parse_ipv6(s: &str) -> (out: Option<u128>)
    ensures
        out == ipv6_of(s@),
{
    s.parse::<hickory_resolver::proto::rr::rdata::AAAA>().ok().map(|a| a.0.to_bits())
}

/// The `Display` form of `AAAA` of `hickory_proto`, which is that of the
/// standard library for IPv6 addresses. It reads back as the same address, has
/// a colon in it, and no slash.
#[verifier::external_body]
fn ipv6_string(n: u128) -> (out: String)
    ensures
        out@ == ipv6_text(n),
        ipv6_of(out@) == Some(n),
        out@.contains(':'),
        !out@.contains('/'),
{
    hickory_resolver::proto::rr::rdata::AAAA(n.into()).to_string()
}

/// The text of an IP address.
pub fn ip_string(ip: IpAddr) -> (out: String)
    ensures
        out@ == ip_text(ip),
        ip_of(out@) == Some(ip),
        !out@.contains('/'),
{
    match ip {
        IpAddr::V4(n) => {
            let mut out = text::decimal_string((n / 0x100_0000) as u64);
            out.push('.');
            out = out.concat(text::decimal_string(((n / 0x1_0000) % 0x100) as u64).as_str());
            out.push('.');
            out = out.concat(text::decimal_string(((n / 0x100) % 0x100) as u64).as_str());
            out.push('.');
            out = out.concat(text::decimal_string((n % 0x100) as u64).as_str());
            proof {
                assert(out@ =~= ipv4_text(n));
                ipv4_text_chars(n);
                ipv4_text_reads_back(n);
            }
            out
        },
        IpAddr::V6(n) => {
            let out = ipv6_string(n);
            proof {
                assert forall|m: u32| out@ != #[trigger] ipv4_text(m) by {
                    ipv4_text_chars(m);
                    if out@ == ipv4_text(m) {
                        let i = choose|i: int| 0 <= i < out@.len() && out@[i] == ':';
                        assert(ipv4_text(m)[i] == ':');
                    }
                }
            }
            out
        },
    }
}

/// The IP address that a text stands for.
pub fn parse_ip(s: &str) -> (out: Option<IpAddr>)
    ensures
        out == ip_of(s@),
{
    match parse_ipv4(s) {
        Some(n) => {
            proof {
                ipv4_text_reads_back(n);
            }
            Some(IpAddr::V4(n))
        },
        None => match parse_ipv6(s) {
            Some(n) => Some(IpAddr::V6(n)),
            None => None,
        },
    }
}

/// Dotted decimal is made of digits and dots.
proof fn ipv4_text_chars(n: u32)
    ensures
        forall|i: int|
            0 <= i < ipv4_text(n).len() ==> #[trigger] ipv4_text(n)[i] == '.' || text::is_digit(
                ipv4_text(n)[i],
            ),
        !ipv4_text(n).contains('/'),
{
    text::decimal_digits((n / 0x100_0000) as nat);
    text::decimal_digits(((n / 0x1_0000) % 0x100) as nat);
    text::decimal_digits(((n / 0x100) % 0x100) as nat);
    text::decimal_digits((n % 0x100) as nat);
}

/// Dotted decimal reads back as the address that it was made from.
pub proof fn ipv4_text_reads_back(n: u32)
    ensures
        ip_of(ipv4_text(n)) == Some(IpAddr::V4(n)),
{
    let m = choose|m: u32| ipv4_text(n) == #[trigger] ipv4_text(m);
    ipv4_text_injective(m, n);
}

/// Different IPv4 addresses are written differently.
proof fn ipv4_text_injective(m: u32, n: u32)
    requires
        ipv4_text(m) == ipv4_text(n),
    ensures
        m == n,
{
    let (m1, n1) = ((m / 0x100_0000) as nat, (n / 0x100_0000) as nat);
    let (m2, n2) = (((m / 0x1_0000) % 0x100) as nat, ((n / 0x1_0000) % 0x100) as nat);
    let (m3, n3) = (((m / 0x100) % 0x100) as nat, ((n / 0x100) % 0x100) as nat);
    let (m4, n4) = ((m % 0x100) as nat, (n % 0x100) as nat);
    quads_equal(m1, m2, m3, m4, n1, n2, n3, n4);
    assert(m1 == n1 && m2 == n2 && m3 == n3 && m4 == n4 ==> m == n) by (nonlinear_arith)
        requires
            m1 == m / 0x100_0000,
            n1 == n / 0x100_0000,
            m2 == (m / 0x1_0000) % 0x100,
            n2 == (n / 0x1_0000) % 0x100,
            m3 == (m / 0x100) % 0x100,
            n3 == (n / 0x100) % 0x100,
            m4 == m % 0x100,
            n4 == n % 0x100,
    ;
}

/// Four numbers between dots can be told apart.
proof fn quads_equal(m1: nat, m2: nat, m3: nat, m4: nat, n1: nat, n2: nat, n3: nat, n4: nat)
    requires
        text::decimal(m1) + seq!['.'] + text::decimal(m2) + seq!['.'] + text::decimal(m3) + seq![
            '.',
        ] + text::decimal(m4) == text::decimal(n1) + seq!['.'] + text::decimal(n2) + seq!['.']
            + text::decimal(n3) + seq!['.'] + text::decimal(n4),
    ensures
        m1 == n1,
        m2 == n2,
        m3 == n3,
        m4 == n4,
{
    let dot = seq!['.'];
    let (a1, a2, a3, a4) = (text::decimal(m1), text::decimal(m2), text::decimal(m3), text::decimal(m4));
    let (b1, b2, b3, b4) = (text::decimal(n1), text::decimal(n2), text::decimal(n3), text::decimal(n4));
    dotted_regroup(a1, a2, a3, a4);
    dotted_regroup(b1, b2, b3, b4);
    let tail_m = a3 + dot + a4;
    let tail_n = b3 + dot + b4;
    text::decimal_then(m1, n1, '.', a2 + dot + tail_m, b2 + dot + tail_n);
    text::decimal_then(m2, n2, '.', tail_m, tail_n);
    text::decimal_then(m3, n3, '.', a4, b4);
    text::decimal_injective(m4, n4);
}

proof fn dotted_regroup(a: Seq<char>, b: Seq<char>, c: Seq<char>, d: Seq<char>)
    ensures
        a + seq!['.'] + b + seq!['.'] + c + seq!['.'] + d == a + seq!['.'] + (b + seq!['.'] + (c
            + seq!['.'] + d)),
{
    assert(a + seq!['.'] + b + seq!['.'] + c + seq!['.'] + d =~= a + seq!['.'] + (b + seq!['.'] + (c
        + seq!['.'] + d)));
}

// ---------------------------------------------------------------- prefixes

/// The number of bits in an address of the family of `ip`.
pub open spec fn width(ip: IpAddr) -> u8 {
    match ip {
        IpAddr::V4(_) => 32,
        IpAddr::V6(_) => 128,
    }
}

/// `n` with its lowest `low` bits cleared.
pub open spec fn cleared(n: int, low: nat) -> int {
    n / (vstd::arithmetic::power2::pow2(low) as int) * vstd::arithmetic::power2::pow2(low)
}

/// The first address of the network that `ip` lies in: all bits behind the
/// first `prefix` are zero.
pub open spec fn network(ip: IpAddr, prefix: u8) -> IpAddr {
    match ip {
        IpAddr::V4(n) => IpAddr::V4(cleared(n as int, (32 - prefix) as nat) as u32),
        IpAddr::V6(n) => IpAddr::V6(cleared(n as int, (128 - prefix) as nat) as u128),
    }
}

/// Clearing low bits is rounding down to a multiple of a power of two.
proof fn shifts_clear(n: u128, low: u128)
    requires
        low < 128,
    ensures
        (n >> low) << low == cleared(n as int, low as nat),
        cleared(n as int, low as nat) <= n,
{
    let p = vstd::arithmetic::power2::pow2(low as nat) as int;
    vstd::arithmetic::power2::lemma_pow2_pos(low as nat);
    let m = (n >> low) << low;
    let y = cleared(n as int, low as nat);
    assert(0 <= y <= n && y / p == n as int / p) by (nonlinear_arith)
        requires
            p > 0,
            n >= 0,
            y == n as int / p * p,
    ;
    vstd::bits::lemma_u128_shr_is_div(n, low);
    vstd::bits::lemma_u128_shr_is_div(m, low);
    vstd::bits::lemma_u128_shr_is_div(y as u128, low);
    assert(m >> low == n >> low) by (bit_vector)
        requires
            low < 128,
            m == (n >> low) << low,
    ;
    let z = y as u128;
    assert(m <= z) by (bit_vector)
        requires
            low < 128,
            z >> low == n >> low,
            m == (n >> low) << low,
    ;
    assert(m >= y) by (nonlinear_arith)
        requires
            p > 0,
            m >= 0,
            m as int / p == n as int / p,
            y == n as int / p * p,
    ;
}

/// An address has no more than 128 bits.
proof fn no_high_bits(n: u128)
    ensures
        cleared(n as int, 128) == 0,
{
    vstd::arithmetic::power2::lemma2_to64();
    vstd::arithmetic::power2::lemma_pow2_adds(64, 64);
    assert(vstd::arithmetic::power2::pow2(128) == 0x1_0000_0000_0000_0000 * 0x1_0000_0000_0000_0000);
    assert(n as int / (vstd::arithmetic::power2::pow2(128) as int) == 0) by (nonlinear_arith)
        requires
            0 <= n < vstd::arithmetic::power2::pow2(128),
    ;
}

/// `n` with its lowest `low` bits cleared.
fn clear_low(n: u128, low: u8) -> (out: u128)
    requires
        low <= 128,
    ensures
        out == cleared(n as int, low as nat),
        out <= n,
{
    if low == 128 {
        proof {
            no_high_bits(n);
        }
        0
    } else {
        proof {
            shifts_clear(n, low as u128);
        }
        (n >> (low as u128)) << (low as u128)
    }
}

/// The number of bits in an address of the family of `ip`.
pub fn width_of(ip: IpAddr) -> (out: u8)
    ensures
        out == width(ip),
{
    match ip {
        IpAddr::V4(_) => 32,
        IpAddr::V6(_) => 128,
    }
}

/// The first address of the network that `ip` lies in.
pub fn network_of(ip: IpAddr, prefix: u8) -> (out: IpAddr)
    requires
        prefix <= width(ip),
    ensures
        out == network(ip, prefix),
{
    match ip {
        IpAddr::V4(n) => IpAddr::V4(clear_low(n as u128, 32 - prefix) as u32),
        IpAddr::V6(n) => IpAddr::V6(clear_low(n, 128 - prefix)),
    }
}

/// Clearing the same bits again changes nothing: the first address of a
/// network lies in that network, and is its first address.
pub proof fn network_idempotent(ip: IpAddr, prefix: u8)
    requires
        prefix <= width(ip),
    ensures
        network(network(ip, prefix), prefix) == network(ip, prefix),
        width(network(ip, prefix)) == width(ip),
{
    let (n, low) = match ip {
        IpAddr::V4(n) => (n as int, (32 - prefix) as nat),
        IpAddr::V6(n) => (n as int, (128 - prefix) as nat),
    };
    let p = vstd::arithmetic::power2::pow2(low) as int;
    vstd::arithmetic::power2::lemma_pow2_pos(low);
    assert(0 <= n / p * p <= n && (n / p * p) / p * p == n / p * p) by (nonlinear_arith)
        requires
            p > 0,
            n >= 0,
    ;
}

/// A full-length prefix keeps the whole address.
pub proof fn network_of_full_prefix(ip: IpAddr)
    ensures
        network(ip, width(ip)) == ip,
{
    let n = match ip {
        IpAddr::V4(n) => n as int,
        IpAddr::V6(n) => n as int,
    };
    vstd::arithmetic::power2::lemma2_to64();
    let p = vstd::arithmetic::power2::pow2(0) as int;
    assert(n / p * p == n) by (nonlinear_arith)
        requires
            p == 1,
    ;
}

/// An address as a number in the IPv6 space, where IPv4 has a range of its own.
pub open spec fn mapped(ip: IpAddr) -> u128 {
    match ip {
        IpAddr::V4(n) => (0xffff_0000_0000u128 + n) as u128,
        IpAddr::V6(n) => n,
    }
}

/// An address as a number in the IPv6 space, and the number of bits in an
/// address of its family.
pub fn ip_bits(ip: IpAddr) -> (out: (u128, u8))
    ensures
        out == (mapped(ip), width(ip)),
{
    match ip {
        IpAddr::V4(n) => (0xffff_0000_0000u128 + n as u128, 32),
        IpAddr::V6(n) => (n, 128),
    }
}

/// Do `a` and `b` agree in their first `len` bits of 128?
pub open spec fn same_prefix(a: u128, b: u128, len: u8) -> bool {
    cleared(a as int, (128 - len) as nat) == cleared(b as int, (128 - len) as nat)
}

/// Do `a` and `b` agree in their first `len` bits of 128?
pub fn shares_prefix(a: u128, b: u128, len: u8) -> (out: bool)
    requires
        len <= 128,
    ensures
        out == same_prefix(a, b, len),
{
    clear_low(a, 128 - len) == clear_low(b, 128 - len)
}

// ---------------------------------------------------------------- laws

/// An IPv4 address is written as its four bytes, the highest first, with dots
/// between them.
pub proof fn ipv4_is_written_byte_by_byte(a: u8, b: u8, c: u8, d: u8)
    ensures
        ipv4_text(
            (a as int * 0x100_0000 + b as int * 0x1_0000 + c as int * 0x100 + d as int) as u32,
        ) == text::decimal(a as nat) + seq!['.'] + text::decimal(b as nat) + seq!['.']
            + text::decimal(c as nat) + seq!['.'] + text::decimal(d as nat),
{
    let n = (a as int * 0x100_0000 + b as int * 0x1_0000 + c as int * 0x100 + d as int) as u32;
    assert(n / 0x100_0000 == a && (n / 0x1_0000) % 0x100 == b && (n / 0x100) % 0x100 == c && n
        % 0x100 == d) by (nonlinear_arith)
        requires
            n == a as int * 0x100_0000 + b as int * 0x1_0000 + c as int * 0x100 + d as int,
            0 <= a < 256,
            0 <= b < 256,
            0 <= c < 256,
            0 <= d < 256,
    ;
}

/// The number that an address is.
pub open spec fn bits_of(ip: IpAddr) -> int {
    match ip {
        IpAddr::V4(n) => n as int,
        IpAddr::V6(n) => n as int,
    }
}

/// The network of an address is of the same family, no larger than the address,
/// less than one network size away from it, and a multiple of that size, which
/// is two to the number of bits behind the prefix.
pub proof fn networks_clear_the_host_bits(ip: IpAddr, prefix: u8)
    requires
        prefix <= (if ip is V4 {
            32int
        } else {
            128int
        }),
    ensures
        network(ip, prefix) is V4 <==> ip is V4,
        ({
            let host = (if ip is V4 {
                32int
            } else {
                128int
            }) - prefix;
            let size = vstd::arithmetic::power2::pow2(host as nat) as int;
            let (whole, net) = (bits_of(ip), bits_of(network(ip, prefix)));
            &&& size > 0
            &&& net <= whole < net + size
            &&& net % size == 0
        }),
        width(ip) == if ip is V4 {
            32int
        } else {
            128int
        },
{
    let host = (width(ip) - prefix) as nat;
    let size = vstd::arithmetic::power2::pow2(host) as int;
    vstd::arithmetic::power2::lemma_pow2_pos(host);
    let n = bits_of(ip);
    assert(0 <= n / size * size <= n && n < n / size * size + size && (n / size * size) % size == 0)
        by (nonlinear_arith)
        requires
            size > 0,
            n >= 0,
    ;
}

/// In the IPv6 space, IPv4 addresses have the numbers behind `::ffff:0:0`, and
/// IPv6 addresses their own.
pub proof fn families_share_one_space(ip: IpAddr)
    ensures
        ip is V4 ==> mapped(ip) == 0xffff_0000_0000 + bits_of(ip),
        ip is V6 ==> mapped(ip) == bits_of(ip),
{
}

/// Two numbers agree in their first bits exactly when they are the same once the
/// other bits are divided off.
pub proof fn prefixes_are_what_division_leaves(a: u128, b: u128, len: u8)
    requires
        len <= 128,
    ensures
        ({
            let size = vstd::arithmetic::power2::pow2((128 - len) as nat) as int;
            same_prefix(a, b, len) <==> a as int / size == b as int / size
        }),
{
    let size = vstd::arithmetic::power2::pow2((128 - len) as nat) as int;
    vstd::arithmetic::power2::lemma_pow2_pos((128 - len) as nat);
    let (x, y) = (a as int / size, b as int / size);
    assert(x * size == y * size <==> x == y) by (nonlinear_arith)
        requires
            size > 0,
    ;
}

/// A text that is the dotted form of an address stands for it; any other text
/// stands for what it spells as IPv6.
pub proof fn dotted_texts_are_ipv4(s: Seq<char>, n: u32)
    ensures
        s == ipv4_text(n) ==> ip_of(s) == Some(IpAddr::V4(n)),
        (forall|m: u32| s != #[trigger] ipv4_text(m)) ==> match ipv6_of(s) {
            Some(m) => ip_of(s) == Some(IpAddr::V6(m)),
            None => ip_of(s) is None,
        },
{
    ipv4_text_reads_back(n);
}

/// An address is written in the form of its family.
pub proof fn addresses_are_written_by_family(n: u32, m: u128)
    ensures
        ip_text(IpAddr::V4(n)) == ipv4_text(n),
        ip_text(IpAddr::V6(m)) == ipv6_text(m),
{
}

} // verus!
