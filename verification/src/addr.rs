use vstd::prelude::*;
use crate::procstat::{
    all_digits, dec_value, digit_value, is_digit, lemma_split_on_join, lemma_split_on_no_sep, nth_field_on, split_on,
};

verus! {

/// The character of a decimal digit.
pub open spec fn digit_char(d: nat) -> char {
    if d == 0 {
        '0'
    } else if d == 1 {
        '1'
    } else if d == 2 {
        '2'
    } else if d == 3 {
        '3'
    } else if d == 4 {
        '4'
    } else if d == 5 {
        '5'
    } else if d == 6 {
        '6'
    } else if d == 7 {
        '7'
    } else if d == 8 {
        '8'
    } else {
        '9'
    }
}

/// The decimal text of a number, without leading zeros.
pub open spec fn dec_text(n: nat) -> Seq<char>
    decreases n,
{
    if n < 10 {
        seq![digit_char(n)]
    } else {
        dec_text(n / 10).push(digit_char(n % 10))
    }
}

/// The text form `a.b.c.d:port` of an IPv4 socket address, the first octet
/// being the most significant byte of the address.
pub open spec fn addr_v4_text(ip: u32, port: u16) -> Seq<char> {
    dec_text((ip / 0x100_0000) as nat) + seq!['.'] + dec_text(((ip / 0x1_0000) % 0x100) as nat)
        + seq!['.'] + dec_text(((ip / 0x100) % 0x100) as nat) + seq!['.'] + dec_text(
        (ip % 0x100) as nat,
    ) + seq![':'] + dec_text(port as nat)
}

fn digit_str(d: u32) -> (r: &'static str)
    requires
        d < 10,
    ensures
        r@ == seq![digit_char(d as nat)],
{
    proof {
        reveal_strlit("0");
        reveal_strlit("1");
        reveal_strlit("2");
        reveal_strlit("3");
        reveal_strlit("4");
        reveal_strlit("5");
        reveal_strlit("6");
        reveal_strlit("7");
        reveal_strlit("8");
        reveal_strlit("9");
    }
    if d == 0 {
        "0"
    } else if d == 1 {
        "1"
    } else if d == 2 {
        "2"
    } else if d == 3 {
        "3"
    } else if d == 4 {
        "4"
    } else if d == 5 {
        "5"
    } else if d == 6 {
        "6"
    } else if d == 7 {
        "7"
    } else if d == 8 {
        "8"
    } else {
        "9"
    }
}

/// Appends the decimal text of `n`.
pub fn push_dec(s: &mut String, n: u32)
    ensures
        final(s)@ == old(s)@ + dec_text(n as nat),
    decreases n,
{
    if n >= 10 {
        push_dec(s, n / 10);
    }
    s.append(digit_str(n % 10));
    proof {
        assert(dec_text(n as nat) == if n < 10 {
            seq![digit_char(n as nat)]
        } else {
            dec_text((n / 10) as nat).push(digit_char((n % 10) as nat))
        });
        if n < 10 {
            assert((n % 10) == n);
        }
    }
}

fn push_str(s: &mut String, t: &str)
    ensures
        final(s)@ == old(s)@ + t@,
{
    s.append(t);
}

/// An IPv4 socket address: the address as a 32-bit number and the port.
#[derive(Debug, Clone, Copy, PartialEq, Eq, Structural)]
pub struct AddrV4 {
    pub ip: u32,
    pub port: u16,
}

impl AddrV4 {
    pub fn new(ip: u32, port: u16) -> (r: Self)
        ensures
            r.ip == ip,
            r.port == port,
    {
        AddrV4 { ip, port }
    }

    /// The address from its four octets, most significant first.
    pub fn from_octets(a: u8, b: u8, c: u8, d: u8, port: u16) -> (r: Self)
        ensures
            r.ip == a * 0x100_0000 + b * 0x1_0000 + c * 0x100 + d,
            r.port == port,
    {
        let ip: u32 = (a as u32) * 0x100_0000 + (b as u32) * 0x1_0000 + (c as u32) * 0x100 + (d as u32);
        AddrV4 { ip, port }
    }

    pub open spec fn text(self) -> Seq<char> {
        addr_v4_text(self.ip, self.port)
    }

    /// The text form `a.b.c.d:port`.
    pub fn to_text(&self) -> (r: String)
        ensures
            r@ == self.text(),
    {
        let mut s = String::new();
        proof {
            reveal_strlit(".");
            reveal_strlit(":");
        }
        push_dec(&mut s, self.ip / 0x100_0000);
        push_str(&mut s, ".");
        push_dec(&mut s, (self.ip / 0x1_0000) % 0x100);
        push_str(&mut s, ".");
        push_dec(&mut s, (self.ip / 0x100) % 0x100);
        push_str(&mut s, ".");
        push_dec(&mut s, self.ip % 0x100);
        push_str(&mut s, ":");
        push_dec(&mut s, self.port as u32);
        s
    }
}


/// The dotted-decimal text `a.b.c.d` of an IPv4 address, the first octet
/// being the most significant byte.
pub open spec fn ip_v4_text(ip: u32) -> Seq<char> {
    dec_text((ip / 0x100_0000) as nat) + seq!['.'] + dec_text(((ip / 0x1_0000) % 0x100) as nat)
        + seq!['.'] + dec_text(((ip / 0x100) % 0x100) as nat) + seq!['.'] + dec_text((ip % 0x100) as nat)
}

/// The dotted-decimal text of an IPv4 address.
pub fn ip_to_text(ip: u32) -> (r: String)
    ensures
        r@ == ip_v4_text(ip),
{
    let mut s = String::new();
    proof {
        reveal_strlit(".");
    }
    push_dec(&mut s, ip / 0x100_0000);
    push_str(&mut s, ".");
    push_dec(&mut s, (ip / 0x1_0000) % 0x100);
    push_str(&mut s, ".");
    push_dec(&mut s, (ip / 0x100) % 0x100);
    push_str(&mut s, ".");
    push_dec(&mut s, ip % 0x100);
    s
}

/// The value of one octet of a dotted-decimal address: one to three decimal
/// digits, no leading zero but for `0` itself, at most 255.
pub open spec fn octet_spec(t: Seq<char>) -> Option<u8> {
    if 1 <= t.len() <= 3 && all_digits(t) && !(t.len() > 1 && t[0] == '0') && dec_value(t) <= 255 {
        Some(dec_value(t) as u8)
    } else {
        None
    }
}

/// The address that a dotted-decimal text denotes: exactly four octets
/// separated by dots, as `Ipv4Addr`'s parser reads it.
pub open spec fn ipv4_parse_spec(s: Seq<char>) -> Option<u32> {
    let f = split_on(s, '.');
    if f.len() == 4 {
        match (octet_spec(f[0]), octet_spec(f[1]), octet_spec(f[2]), octet_spec(f[3])) {
            (Some(a), Some(b), Some(c), Some(d)) => Some(
                (a * 0x100_0000 + b * 0x1_0000 + c * 0x100 + d) as u32,
            ),
            _ => None,
        }
    } else {
        None
    }
}

/// Reads one octet of a dotted-decimal address.
pub fn parse_octet(t: &str) -> (r: Option<u8>)
    ensures
        r == octet_spec(t@),
{
    let n = t.unicode_len();
    if n < 1 || n > 3 {
        return None;
    }
    let c0 = t.get_char(0);
    if n > 1 && c0 == '0' {
        return None;
    }
    let mut acc: u32 = 0;
    let mut i: usize = 0;
    while i < n
        invariant
            0 <= i <= n,
            n == t@.len(),
            1 <= n <= 3,
            all_digits(t@.subrange(0, i as int)),
            acc == dec_value(t@.subrange(0, i as int)),
            acc < (if i == 0 {
                1
            } else if i == 1 {
                10
            } else if i == 2 {
                100int
            } else {
                1000
            }),
        decreases n - i,
    {
        let c = t.get_char(i);
        if !('0' <= c && c <= '9') {
            proof {
                assert(t@[i as int] == c);
                assert(!is_digit(t@[i as int]));
            }
            return None;
        }
        let ghost p = t@.subrange(0, i + 1);
        proof {
            assert(p.drop_last() =~= t@.subrange(0, i as int));
            assert(p.last() == c);
            assert forall|j: int| 0 <= j < p.len() implies is_digit(#[trigger] p[j]) by {
                if j < i {
                    assert(p[j] == t@.subrange(0, i as int)[j]);
                }
            }
            assert(i < 3);
        }
        acc = acc * 10 + (c as u32 - '0' as u32);
        proof {
            assert(acc == dec_value(p));
        }
        i = i + 1;
    }
    proof {
        assert(t@.subrange(0, n as int) =~= t@);
    }
    if acc <= 255 {
        Some(acc as u8)
    } else {
        None
    }
}

/// Reads a dotted-decimal IPv4 address.
pub fn parse_ipv4(s: &str) -> (r: Option<u32>)
    ensures
        r == ipv4_parse_spec(s@),
{
    if nth_field_on(s, '.', 4).is_some() {
        return None;
    }
    let f0 = nth_field_on(s, '.', 0);
    let f1 = nth_field_on(s, '.', 1);
    let f2 = nth_field_on(s, '.', 2);
    let f3 = nth_field_on(s, '.', 3);
    match (f0, f1, f2, f3) {
        (Some(f0), Some(f1), Some(f2), Some(f3)) => {
            match (parse_octet(f0.as_str()), parse_octet(f1.as_str()), parse_octet(f2.as_str()), parse_octet(f3.as_str())) {
                (Some(a), Some(b), Some(c), Some(d)) => {
                    let v: u32 = (a as u32) * 0x100_0000 + (b as u32) * 0x1_0000 + (c as u32) * 0x100 + (d as u32);
                    Some(v)
                },
                _ => None,
            }
        },
        _ => None,
    }
}


proof fn lemma_digit_char(d: nat)
    requires
        d < 10,
    ensures
        is_digit(digit_char(d)),
        digit_value(digit_char(d)) == d,
        digit_char(d) == '0' <==> d == 0,
{
}

proof fn lemma_dec_value_one(c: char)
    ensures
        dec_value(seq![c]) == digit_value(c),
{
    let e = Seq::<char>::empty();
    assert(seq![c].drop_last() =~= e);
    assert(dec_value(e) == 0);
    assert(seq![c].last() == c);
    assert(dec_value(seq![c]) == dec_value(seq![c].drop_last()) * 10 + digit_value(seq![c].last()));
}

/// The decimal text of an octet reads back as the octet.
proof fn lemma_dec_text_octet(n: nat)
    requires
        n <= 255,
    ensures
        octet_spec(dec_text(n)) == Some(n as u8),
        forall|i: int| 0 <= i < dec_text(n).len() ==> is_digit(#[trigger] dec_text(n)[i]),
        forall|i: int| 0 <= i < dec_text(n).len() ==> #[trigger] dec_text(n)[i] != '.',
{
    let t = dec_text(n);
    if n < 10 {
        lemma_digit_char(n);
        assert(t =~= seq![digit_char(n)]);
        lemma_dec_value_one(digit_char(n));
        assert(dec_value(t) == n);
    } else if n < 100 {
        let d1 = n / 10;
        let d0 = n % 10;
        lemma_digit_char(d1);
        lemma_digit_char(d0);
        assert(dec_text(d1) =~= seq![digit_char(d1)]);
        assert(t =~= seq![digit_char(d1), digit_char(d0)]);
        assert(t.drop_last() =~= seq![digit_char(d1)]);
        lemma_dec_value_one(digit_char(d1));
        assert(dec_value(t) == d1 * 10 + d0);
        assert(d1 * 10 + d0 == n);
    } else {
        let d2 = n / 100;
        let d1 = (n / 10) % 10;
        let d0 = n % 10;
        lemma_digit_char(d2);
        lemma_digit_char(d1);
        lemma_digit_char(d0);
        assert((n / 10) / 10 == d2);
        assert(dec_text(d2) =~= seq![digit_char(d2)]);
        assert(dec_text(n / 10) =~= seq![digit_char(d2), digit_char(d1)]);
        assert(t =~= seq![digit_char(d2), digit_char(d1), digit_char(d0)]);
        assert(t.drop_last() =~= seq![digit_char(d2), digit_char(d1)]);
        assert(t.drop_last().drop_last() =~= seq![digit_char(d2)]);
        lemma_dec_value_one(digit_char(d2));
        assert(dec_value(t.drop_last()) == d2 * 10 + d1);
        assert(dec_value(t) == (d2 * 10 + d1) * 10 + d0);
        assert((d2 * 10 + d1) * 10 + d0 == n);
    }
}

proof fn lemma_ip_octets(ip: u32)
    ensures
        (ip / 0x100_0000) * 0x100_0000 + ((ip / 0x1_0000) % 0x100) * 0x1_0000 + ((ip / 0x100) % 0x100) * 0x100
            + ip % 0x100 == ip,
{
    assert((ip / 0x100_0000) * 0x100_0000 + ((ip / 0x1_0000) % 0x100) * 0x1_0000 + ((ip / 0x100) % 0x100) * 0x100
        + ip % 0x100 == ip) by (bit_vector);
}

proof fn lemma_split_four(ta: Seq<char>, tb: Seq<char>, tc: Seq<char>, td: Seq<char>)
    requires
        forall|i: int| 0 <= i < ta.len() ==> #[trigger] ta[i] != '.',
        forall|i: int| 0 <= i < tb.len() ==> #[trigger] tb[i] != '.',
        forall|i: int| 0 <= i < tc.len() ==> #[trigger] tc[i] != '.',
        forall|i: int| 0 <= i < td.len() ==> #[trigger] td[i] != '.',
    ensures
        split_on(ta + seq!['.'] + tb + seq!['.'] + tc + seq!['.'] + td, '.') == seq![ta, tb, tc, td],
{
    lemma_split_on_no_sep(ta, '.');
    lemma_split_on_no_sep(tb, '.');
    lemma_split_on_no_sep(tc, '.');
    lemma_split_on_no_sep(td, '.');
    let r3 = tc + seq!['.'] + td;
    let r2 = tb + seq!['.'] + r3;
    let r1 = ta + seq!['.'] + r2;
    lemma_split_on_join(tc, td, '.');
    lemma_split_on_join(tb, r3, '.');
    lemma_split_on_join(ta, r2, '.');
    assert(ta + seq!['.'] + tb + seq!['.'] + tc + seq!['.'] + td =~= r1);
    assert(split_on(r1, '.') =~= seq![ta, tb, tc, td]);
}

/// The dotted-decimal text of an address reads back as the address.
#[verifier::spinoff_prover]
pub proof fn lemma_ipv4_text_roundtrip(ip: u32)
    ensures
        ipv4_parse_spec(ip_v4_text(ip)) == Some(ip),
{
    let a = (ip / 0x100_0000) as nat;
    let b = ((ip / 0x1_0000) % 0x100) as nat;
    let c = ((ip / 0x100) % 0x100) as nat;
    let d = (ip % 0x100) as nat;
    lemma_dec_text_octet(a);
    lemma_dec_text_octet(b);
    lemma_dec_text_octet(c);
    lemma_dec_text_octet(d);
    lemma_split_four(dec_text(a), dec_text(b), dec_text(c), dec_text(d));
    lemma_ip_octets(ip);
}

} // verus!
