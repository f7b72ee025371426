//! Numbers as text: decimal, hexadecimal, and dotted IPv4 addresses.

use vstd::prelude::*;
use crate::text;

verus! {

/// The character of a digit below ten.
pub open spec fn digit(d: int) -> char {
    (48 + d) as char
}

/// The decimal form of `n`, without leading zeros.
pub open spec fn dec(n: int) -> Seq<char>
    decreases n,
{
    if n < 10 {
        seq![digit(n)]
    } else {
        dec(n / 10).push(digit(n % 10))
    }
}

/// The text of one decimal digit.
fn digit_text(d: u32) -> (r: &'static str)
    requires
        d < 10,
    ensures
        r@ == seq![digit(d as int)],
{
    proof {
        reveal_strlit("0");
        reveal_strlit("1");
        reveal_strlit("2");
        reveal_strlit("3");
        reveal_strlit("4");
        reveal_strlit("5");
        reveal_strlit("6");
        reveal_strlit("7");
        reveal_strlit("8");
        reveal_strlit("9");
    }
    let r = match d {
        0 => "0",
        1 => "1",
        2 => "2",
        3 => "3",
        4 => "4",
        5 => "5",
        6 => "6",
        7 => "7",
        8 => "8",
        _ => "9",
    };
    assert(r@ =~= seq![digit(d as int)]);
    r
}

/// The decimal form of `n`.
pub fn fmt_u32(n: u32) -> (r: String)
    ensures
        r@ == dec(n as int),
    decreases n,
{
    if n < 10 {
        digit_text(n).to_owned()
    } else {
        let mut r = fmt_u32(n / 10);
        r.append(digit_text(n % 10));
        assert(r@ =~= dec(n as int));
        r
    }
}

/// The lower-case hexadecimal digit of a value below sixteen.
pub open spec fn hex_digit(d: int) -> char {
    if d < 10 {
        digit(d)
    } else {
        (87 + d) as char
    }
}

/// The last `k` hexadecimal digits of `n`.
pub open spec fn hex(n: int, k: nat) -> Seq<char>
    decreases k,
{
    if k == 0 {
        Seq::empty()
    } else {
        hex(n / 16, (k - 1) as nat).push(hex_digit(n % 16))
    }
}

/// The text of one hexadecimal digit.
fn hex_digit_text(d: u32) -> (r: &'static str)
    requires
        d < 16,
    ensures
        r@ == seq![hex_digit(d as int)],
{
    if d < 10 {
        return digit_text(d);
    }
    proof {
        reveal_strlit("a");
        reveal_strlit("b");
        reveal_strlit("c");
        reveal_strlit("d");
        reveal_strlit("e");
        reveal_strlit("f");
    }
    let r = match d {
        10 => "a",
        11 => "b",
        12 => "c",
        13 => "d",
        14 => "e",
        _ => "f",
    };
    assert(r@ =~= seq![hex_digit(d as int)]);
    r
}

/// The last `k` hexadecimal digits of `n`.
pub fn fmt_hex(n: u64, k: u32) -> (r: String)
    ensures
        r@ == hex(n as int, k as nat),
    decreases k,
{
    if k == 0 {
        String::new()
    } else {
        let mut r = fmt_hex(n / 16, k - 1);
        r.append(hex_digit_text((n % 16) as u32));
        assert(r@ =~= hex(n as int, k as nat));
        r
    }
}

pub proof fn hex_len(n: int, k: nat)
    ensures
        hex(n, k).len() == k,
    decreases k,
{
    if k > 0 {
        hex_len(n / 16, (k - 1) as nat);
    }
}

/// Whether `c` is a decimal digit.
pub open spec fn is_digit(c: char) -> bool {
    48 <= c as int <= 57
}

/// The value of a decimal digit.
fn digit_value(c: char) -> (r: Option<u32>)
    ensures
        match r {
            Some(d) => is_digit(c) && d == c as int - 48,
            None => !is_digit(c),
        },
{
    match c {
        '0' => Some(0),
        '1' => Some(1),
        '2' => Some(2),
        '3' => Some(3),
        '4' => Some(4),
        '5' => Some(5),
        '6' => Some(6),
        '7' => Some(7),
        '8' => Some(8),
        '9' => Some(9),
        _ => None,
    }
}

/// The number a row of decimal digits stands for.
pub open spec fn number(s: Seq<char>) -> int
    decreases s.len(),
{
    if s.len() == 0 {
        0
    } else {
        number(s.drop_last()) * 10 + (s.last() as int - 48)
    }
}

/// Whether every character is a decimal digit.
pub open spec fn all_digits(s: Seq<char>) -> bool {
    forall|i: int| 0 <= i < s.len() ==> is_digit(s[i])
}

/// The number a text spells: digits behind an optional plus sign, with a value
/// of at most `max`.
pub open spec fn spelled(s: Seq<char>, max: int) -> Option<int> {
    let d = if s.len() > 0 && s[0] == '+' {
        s.skip(1)
    } else {
        s
    };
    if d.len() > 0 && all_digits(d) && number(d) <= max {
        Some(number(d))
    } else {
        None
    }
}

/// More digits never make the number smaller.
proof fn number_grows(s: Seq<char>, k: int)
    requires
        0 <= k <= s.len(),
        forall|i: int| 0 <= i < s.len() ==> is_digit(s[i]),
    ensures
        0 <= number(s.take(k)) <= number(s),
    decreases s.len(),
{
    if s.len() == 0 {
        assert(s.take(k) =~= s);
    } else if k == s.len() {
        assert(s.take(k) =~= s);
        number_grows(s.drop_last(), k - 1);
        assert(is_digit(s.last()));
    } else {
        assert(s.drop_last().take(k) =~= s.take(k));
        number_grows(s.drop_last(), k);
        assert(is_digit(s.last()));
    }
}

/// The number a text spells, up to `max`.
pub fn parse_number(s: &str, max: u32) -> (r: Option<u32>)
    ensures
        match r {
            Some(n) => spelled(s@, max as int) == Some(n as int),
            None => spelled(s@, max as int) is None,
        },
{
    let v = text::chars_of(s);
    let start: usize = if v.len() > 0 && v[0] == '+' {
        1
    } else {
        0
    };
    let ghost d = if s@.len() > 0 && s@[0] == '+' {
        s@.skip(1)
    } else {
        s@
    };
    assert(d =~= s@.skip(start as int));
    if start == v.len() {
        return None;
    }
    let mut n: u32 = 0;
    let mut i: usize = start;
    assert(d.take(0).len() == 0);
    while i < v.len()
        invariant
            v@ == s@,
            start <= i <= v@.len(),
            d == s@.skip(start as int),
            n == number(d.take(i - start)),
            n <= max,
            forall|j: int| 0 <= j < i - start ==> is_digit(d[j]),
            spelled(s@, max as int) == (if d.len() > 0 && all_digits(d) && number(d) <= max {
                Some(number(d))
            } else {
                None::<int>
            }),
        decreases v@.len() - i,
    {
        assert(d[i - start] == v@[i as int]);
        let c: u32 = match digit_value(v[i]) {
            Some(c) => c,
            None => {
                return None;
            },
        };
        let next: u64 = (n as u64) * 10 + (c as u64);
        proof {
            let k = i - start;
            assert(d.take(k + 1).drop_last() =~= d.take(k));
            assert(next == number(d.take(k + 1)));
            assert(forall|j: int| 0 <= j < k + 1 ==> is_digit(d[j]));
        }
        if next > max as u64 {
            proof {
                if all_digits(d) {
                    number_grows(d, i - start + 1);
                }
            }
            return None;
        }
        n = next as u32;
        i += 1;
    }
    assert(d.take(i - start) =~= d);
    Some(n)
}

/// A number is read back from its decimal form.
pub proof fn number_of_dec(n: int, max: int)
    requires
        0 <= n <= max,
    ensures
        all_digits(dec(n)),
        number(dec(n)) == n,
        spelled(dec(n), max) == Some(n),
    decreases n,
{
    reveal_with_fuel(number, 2);
    if n < 10 {
        assert(dec(n).drop_last() =~= Seq::empty());
    } else {
        number_of_dec(n / 10, max);
        let t = dec(n / 10);
        assert(dec(n).drop_last() =~= t);
        assert(dec(n).last() == digit(n % 10));
        assert forall|i: int| 0 <= i < dec(n).len() implies is_digit(dec(n)[i]) by {
            if i < t.len() {
                assert(dec(n)[i] == t[i]);
            }
        }
    }
    assert(is_digit(dec(n)[0]));
}

/// The four octets of an address, first to last, in dotted decimal form.
pub open spec fn dotted(a: int, b: int, c: int, d: int) -> Seq<char> {
    dec(a) + seq!['.'] + dec(b) + seq!['.'] + dec(c) + seq!['.'] + dec(d)
}

/// An IPv4 address as text; the first octet is the most significant byte.
pub open spec fn ip4_text(ip: u32) -> Seq<char> {
    dotted(
        ip as int / 0x100_0000,
        (ip as int / 0x1_0000) % 256,
        (ip as int / 0x100) % 256,
        ip as int % 256,
    )
}

/// An IPv4 address as text.
pub fn fmt_ip4(ip: u32) -> (r: String)
    ensures
        r@ == ip4_text(ip),
{
    proof {
        reveal_strlit(".");
    }
    let mut r = fmt_u32(ip / 0x100_0000);
    r.append(".");
    r.append(fmt_u32((ip / 0x1_0000) % 256).as_str());
    r.append(".");
    r.append(fmt_u32((ip / 0x100) % 256).as_str());
    r.append(".");
    r.append(fmt_u32(ip % 256).as_str());
    assert("."@ =~= seq!['.']);
    assert(r@ =~= ip4_text(ip));
    r
}

/// Number of digits below a thousand, spelled out.
proof fn dec_small(n: int)
    requires
        0 <= n < 1000,
    ensures
        n < 10 ==> dec(n) == seq![digit(n)],
        10 <= n < 100 ==> dec(n) == seq![digit(n / 10), digit(n % 10)],
        100 <= n ==> dec(n) == seq![digit(n / 100), digit((n / 10) % 10), digit(n % 10)],
{
    reveal_with_fuel(dec, 3);
    if n < 10 {
    } else if n < 100 {
        assert(dec(n) =~= seq![digit(n / 10), digit(n % 10)]);
    } else {
        assert(n / 10 / 10 == n / 100);
        assert(dec(n) =~= seq![digit(n / 100), digit((n / 10) % 10), digit(n % 10)]);
    }
}

/// The octet whose decimal form is `s`, if there is one.
fn parse_octet(s: &str) -> (r: Option<u32>)
    ensures
        match r {
            Some(n) => n < 256 && s@ == dec(n as int),
            None => forall|n: int| 0 <= n < 256 ==> s@ != #[trigger] dec(n),
        },
{
    let v = text::chars_of(s);
    proof {
        assert forall|n: int| 0 <= n < 256 implies {
            let t = #[trigger] dec(n);
            &&& 1 <= t.len() <= 3
            &&& t.len() > 1 ==> t[0] != '0'
            &&& forall|i: int| 0 <= i < t.len() ==> is_digit(t[i])
            &&& t.len() == 1 ==> n == t[0] as int - 48
            &&& t.len() == 2 ==> n == (t[0] as int - 48) * 10 + (t[1] as int - 48)
            &&& t.len() == 3 ==> n == (t[0] as int - 48) * 100 + (t[1] as int - 48) * 10 + (
            t[2] as int - 48)
        } by {
            dec_small(n);
        }
    }
    if v.len() == 0 || v.len() > 3 || (v.len() > 1 && v[0] == '0') {
        return None;
    }
    let mut n: u32 = 0;
    let mut i: usize = 0;
    while i < v.len()
        invariant
            v@ == s@,
            i <= v@.len() <= 3,
            forall|j: int| 0 <= j < i ==> is_digit(s@[j]),
            i == 0 ==> n == 0,
            i == 1 ==> n == s@[0] as int - 48,
            i == 2 ==> n == (s@[0] as int - 48) * 10 + (s@[1] as int - 48),
            i == 3 ==> n == (s@[0] as int - 48) * 100 + (s@[1] as int - 48) * 10 + (s@[2] as int
                - 48),
            forall|n: int|
                0 <= n < 256 ==> {
                    let t = #[trigger] dec(n);
                    forall|i: int| 0 <= i < t.len() ==> is_digit(t[i])
                },
        decreases v@.len() - i,
    {
        let c: u32 = match digit_value(v[i]) {
            Some(c) => c,
            None => {
                return None;
            },
        };
        n = n * 10 + c;
        i += 1;
    }
    if n > 255 {
        return None;
    }
    proof {
        dec_small(n as int);
        assert(s@ =~= dec(n as int));
    }
    Some(n)
}

/// A decimal form holds no dot.
proof fn dec_no_dot(n: int)
    requires
        0 <= n < 256,
    ensures
        !dec(n).contains('.'),
{
    dec_small(n);
}

proof fn dotted_pieces(a: int, b: int, c: int, d: int)
    requires
        0 <= a < 256,
        0 <= b < 256,
        0 <= c < 256,
        0 <= d < 256,
    ensures
        text::split(dotted(a, b, c, d), '.') == seq![dec(a), dec(b), dec(c), dec(d)],
{
    dec_no_dot(a);
    dec_no_dot(b);
    dec_no_dot(c);
    dec_no_dot(d);
    let s = dotted(a, b, c, d);
    let cd = dec(c).push('.') + dec(d);
    let bcd = dec(b).push('.') + cd;
    assert(s =~= dec(a).push('.') + bcd);
    text::split_concat(dec(a), bcd, '.');
    text::split_concat(dec(b), cd, '.');
    text::split_concat(dec(c), dec(d), '.');
    text::split_single(dec(a), '.');
    text::split_single(dec(b), '.');
    text::split_single(dec(c), '.');
    text::split_single(dec(d), '.');
    assert(text::split(s, '.') =~= seq![dec(a), dec(b), dec(c), dec(d)]);
}

/// The four pieces of a dotted text.
proof fn ip4_pieces(s: Seq<char>, ip: u32)
    requires
        s == ip4_text(ip),
    ensures
        text::split(s, '.') == seq![
            dec(ip as int / 0x100_0000),
            dec((ip as int / 0x1_0000) % 256),
            dec((ip as int / 0x100) % 256),
            dec(ip as int % 256),
        ],
{
    dotted_pieces(
        ip as int / 0x100_0000,
        (ip as int / 0x1_0000) % 256,
        (ip as int / 0x100) % 256,
        ip as int % 256,
    );
}

/// Every piece of an address's text is the decimal form of an octet.
proof fn ip4_octets(s: Seq<char>)
    ensures
        (exists|ip: u32| s == #[trigger] ip4_text(ip)) ==> {
            let p = text::split(s, '.');
            &&& p.len() == 4
            &&& forall|i: int|
                0 <= i < 4 ==> exists|n: int| 0 <= n < 256 && #[trigger] p[i] == #[trigger] dec(n)
        },
{
    if exists|ip: u32| s == #[trigger] ip4_text(ip) {
        let ip = choose|ip: u32| s == #[trigger] ip4_text(ip);
        ip4_pieces(s, ip);
    }
}

/// Four texts joined by dots.
proof fn join_four(a: Seq<char>, b: Seq<char>, c: Seq<char>, d: Seq<char>)
    ensures
        text::joined(seq![a, b, c, d], seq!['.']) == a + seq!['.'] + b + seq!['.'] + c + seq!['.']
            + d,
{
    let dot = seq!['.'];
    assert(seq![a, b, c, d].drop_last() =~= seq![a, b, c]);
    assert(seq![a, b, c].drop_last() =~= seq![a, b]);
    assert(seq![a, b].drop_last() =~= seq![a]);
    assert(text::joined(seq![a], dot) == a);
    assert(text::joined(seq![a, b], dot) == a + dot + b);
    assert(text::joined(seq![a, b, c], dot) == a + dot + b + dot + c);
}

/// The octets of the address four octets make.
proof fn octets_of(a: int, b: int, c: int, d: int)
    requires
        0 <= a < 256,
        0 <= b < 256,
        0 <= c < 256,
        0 <= d < 256,
    ensures
        ({
            let ip = a * 0x100_0000 + b * 0x1_0000 + c * 0x100 + d;
            &&& 0 <= ip < 0x1_0000_0000
            &&& ip / 0x100_0000 == a
            &&& (ip / 0x1_0000) % 256 == b
            &&& (ip / 0x100) % 256 == c
            &&& ip % 256 == d
        }),
{
    let ip = a * 0x100_0000 + b * 0x1_0000 + c * 0x100 + d;
    assert(ip / 0x100_0000 == a);
    assert(ip / 0x1_0000 == a * 256 + b);
    assert(ip / 0x100 == (a * 256 + b) * 256 + c);
}

/// Four octets' decimal forms between dots are the text of their address.
proof fn octets_make_ip4(s: Seq<char>, a: u32, b: u32, c: u32, d: u32)
    requires
        a < 256,
        b < 256,
        c < 256,
        d < 256,
        text::split(s, '.') == seq![dec(a as int), dec(b as int), dec(c as int), dec(d as int)],
    ensures
        s == ip4_text((a * 0x100_0000 + b * 0x1_0000 + c * 0x100 + d) as u32),
{
    text::split_then_join(s, '.');
    join_four(dec(a as int), dec(b as int), dec(c as int), dec(d as int));
    octets_of(a as int, b as int, c as int, d as int);
}

/// The IPv4 address that `s` is the text of, if it is one.
pub open spec fn ip4_value(s: Seq<char>) -> Option<u32> {
    if exists|ip: u32| s == #[trigger] ip4_text(ip) {
        Some(choose|ip: u32| s == #[trigger] ip4_text(ip))
    } else {
        None
    }
}

/// An address is read back from its text.
pub proof fn ip4_read_back(ip: u32)
    ensures
        ip4_value(ip4_text(ip)) == Some(ip),
{
    let got = choose|x: u32| ip4_text(ip) == #[trigger] ip4_text(x);
    ip4_text_is_unique(ip, got);
}

/// The IPv4 address that `s` is the text of, if it is one.
pub fn parse_ip4(s: &str) -> (r: Option<u32>)
    ensures
        r == ip4_value(s@),
        match r {
            Some(ip) => s@ == ip4_text(ip),
            None => forall|ip: u32| s@ != #[trigger] ip4_text(ip),
        },
{
    let parts = text::split_on(s, '.');
    let ghost ps = text::split(s@, '.');
    proof {
        ip4_octets(s@);
    }
    if parts.len() != 4 {
        return None;
    }
    assert(ps[0] == parts@[0]@ && ps[1] == parts@[1]@ && ps[2] == parts@[2]@ && ps[3]
        == parts@[3]@);
    let a: u32 = match parse_octet(parts[0].as_str()) {
        Some(n) => n,
        None => {
            return None;
        },
    };
    let b: u32 = match parse_octet(parts[1].as_str()) {
        Some(n) => n,
        None => {
            return None;
        },
    };
    let c: u32 = match parse_octet(parts[2].as_str()) {
        Some(n) => n,
        None => {
            return None;
        },
    };
    let d: u32 = match parse_octet(parts[3].as_str()) {
        Some(n) => n,
        None => {
            return None;
        },
    };
    proof {
        assert(ps =~= seq![dec(a as int), dec(b as int), dec(c as int), dec(d as int)]);
        octets_make_ip4(s@, a, b, c, d);
        octets_of(a as int, b as int, c as int, d as int);
    }
    let ip: u32 = a * 0x100_0000 + b * 0x1_0000 + c * 0x100 + d;
    proof {
        ip4_read_back(ip);
    }
    Some(ip)
}

/// An address is the sum of its octets at their places.
proof fn octets_sum(x: int)
    requires
        0 <= x < 0x1_0000_0000,
    ensures
        x == (x / 0x100_0000) * 0x100_0000 + ((x / 0x1_0000) % 256) * 0x1_0000 + ((x / 0x100) % 256)
            * 0x100 + x % 256,
        0 <= x / 0x100_0000 < 256,
{
    assert(x == (x / 0x100) * 0x100 + x % 256);
    assert(x / 0x100 == (x / 0x1_0000) * 256 + (x / 0x100) % 256);
    assert(x / 0x1_0000 == (x / 0x100_0000) * 256 + (x / 0x1_0000) % 256);
}

/// No two addresses share a text.
pub proof fn ip4_text_is_unique(x: u32, y: u32)
    requires
        ip4_text(x) == ip4_text(y),
    ensures
        x == y,
{
    let p = text::split(ip4_text(x), '.');
    ip4_pieces(ip4_text(x), x);
    ip4_pieces(ip4_text(x), y);
    same_pieces(p, x as int, y as int);
    octets_sum(x as int);
    octets_sum(y as int);
}

/// Two addresses with the same four pieces have the same octets.
proof fn same_pieces(p: Seq<Seq<char>>, x: int, y: int)
    requires
        0 <= x < 0x1_0000_0000,
        0 <= y < 0x1_0000_0000,
        p == seq![
            dec(x / 0x100_0000),
            dec((x / 0x1_0000) % 256),
            dec((x / 0x100) % 256),
            dec(x % 256),
        ],
        p == seq![
            dec(y / 0x100_0000),
            dec((y / 0x1_0000) % 256),
            dec((y / 0x100) % 256),
            dec(y % 256),
        ],
    ensures
        x / 0x100_0000 == y / 0x100_0000,
        (x / 0x1_0000) % 256 == (y / 0x1_0000) % 256,
        (x / 0x100) % 256 == (y / 0x100) % 256,
        x % 256 == y % 256,
{
    octets_sum(x);
    octets_sum(y);
    assert(p[0] == dec(x / 0x100_0000) && p[0] == dec(y / 0x100_0000));
    assert(p[1] == dec((x / 0x1_0000) % 256) && p[1] == dec((y / 0x1_0000) % 256));
    assert(p[2] == dec((x / 0x100) % 256) && p[2] == dec((y / 0x100) % 256));
    assert(p[3] == dec(x % 256) && p[3] == dec(y % 256));
    dec_is_unique(x / 0x100_0000, y / 0x100_0000);
    dec_is_unique((x / 0x1_0000) % 256, (y / 0x1_0000) % 256);
    dec_is_unique((x / 0x100) % 256, (y / 0x100) % 256);
    dec_is_unique(x % 256, y % 256);
}

/// The text of an address holds dots, and more than four characters.
pub proof fn ip4_text_has_dots(ip: u32)
    ensures
        ip4_text(ip).contains('.'),
        ip4_text(ip).len() >= 7,
{
    let a = dec(ip as int / 0x100_0000);
    dec_small(ip as int / 0x100_0000);
    dec_small((ip as int / 0x1_0000) % 256);
    dec_small((ip as int / 0x100) % 256);
    dec_small(ip as int % 256);
    assert(ip4_text(ip)[a.len() as int] == '.');
}

/// No two octets share a decimal form.
proof fn dec_is_unique(m: int, n: int)
    requires
        0 <= m < 256,
        0 <= n < 256,
        dec(m) == dec(n),
    ensures
        m == n,
{
    dec_small(m);
    dec_small(n);
    let t = dec(m);
    assert(t[0] == dec(n)[0]);
    if t.len() > 1 {
        assert(t[1] == dec(n)[1]);
    }
    if t.len() > 2 {
        assert(t[2] == dec(n)[2]);
    }
}

} // verus!
