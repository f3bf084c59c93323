//! Peer addresses as plain values, and the text that stands for them on
//! the wire.

use vstd::prelude::*;

verus! {

/// The address of a peer: four octets, or eight sixteen-bit segments.
#[derive(Debug, Clone, Copy, PartialEq, Eq)]
pub enum IpAddress {
    V4([u8; 4]),
    V6([u16; 8]),
}

/// The ASCII digit of a value below sixteen, lower case.
pub open spec fn digit_byte(d: int) -> u8 {
    if d < 10 {
        (48 + d) as u8
    } else {
        (87 + d) as u8
    }
}

/// The decimal digits of a number, without leading zeros; zero is one
/// digit.
pub open spec fn decimal(n: nat) -> Seq<u8>
    decreases n,
{
    if n < 10 {
        seq![digit_byte(n as int)]
    } else {
        decimal(n / 10).push(digit_byte((n % 10) as int))
    }
}

/// The hexadecimal digits of a number, lower case, without leading zeros;
/// zero is one digit.
pub open spec fn hexadecimal(n: nat) -> Seq<u8>
    decreases n,
{
    if n < 16 {
        seq![digit_byte(n as int)]
    } else {
        hexadecimal(n / 16).push(digit_byte((n % 16) as int))
    }
}

/// Dotted decimal text of four octets.
pub open spec fn v4_text(o: Seq<u8>) -> Seq<u8> {
    decimal(o[0] as nat) + seq![46u8] + decimal(o[1] as nat) + seq![46u8] + decimal(o[2] as nat)
        + seq![46u8] + decimal(o[3] as nat)
}

/// Hexadecimal segments joined with `:`.
pub open spec fn groups(s: Seq<u16>) -> Seq<u8>
    decreases s.len(),
{
    if s.len() == 0 {
        Seq::empty()
    } else if s.len() == 1 {
        hexadecimal(s[0] as nat)
    } else {
        groups(s.drop_last()) + seq![58u8] + hexadecimal(s.last() as nat)
    }
}

/// The first longest run of zero segments among `s[i..]`, as start and
/// length, given the run that ends just before `i` and the longest so far.
pub open spec fn zero_run(s: Seq<u16>, i: int, cur: (int, int), best: (int, int)) -> (int, int)
    decreases s.len() - i,
{
    if i < 0 || i >= s.len() {
        best
    } else if s[i] == 0 {
        let cur2 = (if cur.1 == 0 { i } else { cur.0 }, cur.1 + 1);
        zero_run(s, i + 1, cur2, if cur2.1 > best.1 { cur2 } else { best })
    } else {
        zero_run(s, i + 1, (0, 0), best)
    }
}

/// Whether eight segments hold an IPv4 address mapped into IPv6.
pub open spec fn is_mapped(s: Seq<u16>) -> bool {
    s[0] == 0 && s[1] == 0 && s[2] == 0 && s[3] == 0 && s[4] == 0 && s[5] == 0xffff
}

/// The text of eight segments: a mapped IPv4 address in dotted form behind
/// `::ffff:`; else hexadecimal segments, the first longest run of two or
/// more zero segments shortened to `::`.
pub open spec fn v6_text(s: Seq<u16>) -> Seq<u8> {
    if is_mapped(s) {
        seq![58u8, 58, 102, 102, 102, 102, 58] + v4_text(
            seq![(s[6] / 256) as u8, (s[6] % 256) as u8, (s[7] / 256) as u8, (s[7] % 256) as u8],
        )
    } else {
        let run = zero_run(s, 0, (0, 0), (0, 0));
        if run.1 > 1 {
            groups(s.take(run.0)) + seq![58u8, 58] + groups(s.skip(run.0 + run.1))
        } else {
            groups(s)
        }
    }
}

/// The number that eight segments write, the first the most significant.
fn segments_number(s: &[u16; 8]) -> (r: u128)
    ensures
        r == ((((((s[0] * 65536 + s[1]) * 65536 + s[2]) * 65536 + s[3]) * 65536 + s[4]) * 65536
            + s[5]) * 65536 + s[6]) * 65536 + s[7],
{
    let a: u128 = s[0] as u128 * 65536 + s[1] as u128;
    let b: u128 = a * 65536 + s[2] as u128;
    let c: u128 = b * 65536 + s[3] as u128;
    let d: u128 = c * 65536 + s[4] as u128;
    let e: u128 = d * 65536 + s[5] as u128;
    let f: u128 = e * 65536 + s[6] as u128;
    f * 65536 + s[7] as u128
}

impl IpAddress {
    /// Whether this is an IPv4 address.
    pub open spec fn spec_is_ipv4(self) -> bool {
        self is V4
    }

    /// The text of the address.
    pub open spec fn text(self) -> Seq<u8> {
        match self {
            IpAddress::V4(o) => v4_text(o@),
            IpAddress::V6(s) => v6_text(s@),
        }
    }

    /// The place of the address among all addresses: the four-octet
    /// addresses come first, and within each family the addresses stand by
    /// the number that their octets or segments write, the first the most
    /// significant.
    pub open spec fn rank(self) -> int {
        match self {
            IpAddress::V4(o) => ((o[0] * 256 + o[1]) * 256 + o[2]) * 256 + o[3],
            IpAddress::V6(s) => 0x1_0000_0000 + ((((((s[0] * 65536 + s[1]) * 65536 + s[2]) * 65536
                + s[3]) * 65536 + s[4]) * 65536 + s[5]) * 65536 + s[6]) * 65536 + s[7],
        }
    }

    /// Whether the address stands at or before another: see [`Self::rank`].
    pub fn not_after(&self, other: &IpAddress) -> (r: bool)
        ensures
            r == (self.rank() <= other.rank()),
    {
        match (self, other) {
            (IpAddress::V4(a), IpAddress::V4(b)) => {
                let x: u64 = ((a[0] as u64 * 256 + a[1] as u64) * 256 + a[2] as u64) * 256
                    + a[3] as u64;
                let y: u64 = ((b[0] as u64 * 256 + b[1] as u64) * 256 + b[2] as u64) * 256
                    + b[3] as u64;
                x <= y
            },
            (IpAddress::V4(_), IpAddress::V6(_)) => true,
            (IpAddress::V6(_), IpAddress::V4(_)) => false,
            (IpAddress::V6(a), IpAddress::V6(b)) => {
                let x = segments_number(a);
                let y = segments_number(b);
                x <= y
            },
        }
    }

    /// Whether this is an IPv4 address.
    pub fn is_ipv4(&self) -> (r: bool)
        ensures
            r == self.spec_is_ipv4(),
    {
        match self {
            IpAddress::V4(_) => true,
            IpAddress::V6(_) => false,
        }
    }

    /// Whether this is an IPv6 address.
    pub fn is_ipv6(&self) -> (r: bool)
        ensures
            r == !self.spec_is_ipv4(),
    {
        !self.is_ipv4()
    }

    /// Writes the address as text.
    pub fn to_text(&self) -> (r: Vec<u8>)
        ensures
            r@ == self.text(),
    {
        let mut out: Vec<u8> = Vec::new();
        match self {
            IpAddress::V4(o) => {
                push_v4(&mut out, o[0], o[1], o[2], o[3]);
                assert(seq![o[0], o[1], o[2], o[3]] =~= o@);
            },
            IpAddress::V6(s) => {
                if s[0] == 0 && s[1] == 0 && s[2] == 0 && s[3] == 0 && s[4] == 0 && s[5] == 0xffff {
                    out.push(58);
                    out.push(58);
                    out.push(102);
                    out.push(102);
                    out.push(102);
                    out.push(102);
                    out.push(58);
                    assert(out@ =~= seq![58u8, 58, 102, 102, 102, 102, 58]);
                    push_v4(
                        &mut out,
                        (s[6] / 256) as u8,
                        (s[6] % 256) as u8,
                        (s[7] / 256) as u8,
                        (s[7] % 256) as u8,
                    );
                } else {
                    let (start, len) = find_zero_run(s);
                    if len > 1 {
                        push_groups(&mut out, s, 0, start);
                        out.push(58);
                        out.push(58);
                        push_groups(&mut out, s, start + len, 8);
                        assert(s@.subrange(0, start as int) =~= s@.take(start as int));
                        assert(s@.subrange(start + len, 8) =~= s@.skip(start + len));
                        assert(out@ =~= groups(s@.take(start as int)) + seq![58u8, 58] + groups(
                            s@.skip(start + len),
                        ));
                    } else {
                        push_groups(&mut out, s, 0, 8);
                        assert(s@.subrange(0, 8) =~= s@);
                    }
                }
            },
        }
        out
    }
}

fn digit(d: u16) -> (r: u8)
    requires
        d < 16,
    ensures
        r == digit_byte(d as int),
{
    if d < 10 {
        (48 + d) as u8
    } else {
        (87 + d) as u8
    }
}

fn push_decimal(out: &mut Vec<u8>, n: u16)
    ensures
        final(out)@ == old(out)@ + decimal(n as nat),
    decreases n,
{
    if n >= 10 {
        push_decimal(out, n / 10);
        out.push(digit(n % 10));
        assert(out@ =~= old(out)@ + decimal(n as nat));
    } else {
        out.push(digit(n));
        assert(out@ =~= old(out)@ + decimal(n as nat));
    }
}

fn push_hexadecimal(out: &mut Vec<u8>, n: u16)
    ensures
        final(out)@ == old(out)@ + hexadecimal(n as nat),
    decreases n,
{
    if n >= 16 {
        push_hexadecimal(out, n / 16);
        out.push(digit(n % 16));
        assert(out@ =~= old(out)@ + hexadecimal(n as nat));
    } else {
        out.push(digit(n));
        assert(out@ =~= old(out)@ + hexadecimal(n as nat));
    }
}

fn push_v4(out: &mut Vec<u8>, a: u8, b: u8, c: u8, d: u8)
    ensures
        final(out)@ == old(out)@ + v4_text(seq![a, b, c, d]),
{
    push_decimal(out, a as u16);
    out.push(46);
    push_decimal(out, b as u16);
    out.push(46);
    push_decimal(out, c as u16);
    out.push(46);
    push_decimal(out, d as u16);
    assert(out@ =~= old(out)@ + v4_text(seq![a, b, c, d]));
}

fn push_groups(out: &mut Vec<u8>, s: &[u16; 8], from: usize, to: usize)
    requires
        from <= to <= 8,
    ensures
        final(out)@ == old(out)@ + groups(s@.subrange(from as int, to as int)),
{
    let mut i = from;
    assert(s@.subrange(from as int, from as int) =~= Seq::empty());
    assert(out@ =~= old(out)@ + groups(s@.subrange(from as int, i as int)));
    while i < to
        invariant
            from <= i <= to <= 8,
            out@ == old(out)@ + groups(s@.subrange(from as int, i as int)),
        decreases to - i,
    {
        let ghost before = out@;
        let ghost done = s@.subrange(from as int, i as int);
        let ghost next = s@.subrange(from as int, i + 1);
        assert(next.drop_last() =~= done);
        assert(next.last() == s@[i as int]);
        if i > from {
            out.push(58);
        }
        push_hexadecimal(out, s[i]);
        assert(out@ =~= old(out)@ + groups(next));
        i += 1;
    }
}

fn find_zero_run(s: &[u16; 8]) -> (r: (usize, usize))
    ensures
        (r.0 as int, r.1 as int) == zero_run(s@, 0, (0, 0), (0, 0)),
        r.0 + r.1 <= 8,
{
    let mut cur: (usize, usize) = (0, 0);
    let mut best: (usize, usize) = (0, 0);
    let mut i: usize = 0;
    while i < 8
        invariant
            i <= 8,
            cur.0 + cur.1 <= i,
            best.0 + best.1 <= i,
            zero_run(s@, 0, (0, 0), (0, 0)) == zero_run(
                s@,
                i as int,
                (cur.0 as int, cur.1 as int),
                (best.0 as int, best.1 as int),
            ),
        decreases 8 - i,
    {
        if s[i] == 0 {
            if cur.1 == 0 {
                cur = (i, 1);
            } else {
                cur = (cur.0, cur.1 + 1);
            }
            if cur.1 > best.1 {
                best = cur;
            }
        } else {
            cur = (0, 0);
        }
        i += 1;
    }
    best
}

} // verus!
