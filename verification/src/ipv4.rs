//! IPv4 addresses and their dotted-decimal text.
//!
//! The text of an address is the one text that stands for it: four octets in
//! decimal, most significant first, divided by `.`, each written without
//! leading zeros. [`Ipv4::parse`] accepts exactly these texts, so a text with
//! a sign, a blank, an octet over 255 or an octet such as `01` is no address.

use crate::text::chars_of;
use vstd::prelude::*;
use vstd::string::*;

verus! {

/// `c` is one of `0` to `9`.
pub open spec fn is_digit(c: char) -> bool {
    '0' <= c <= '9'
}

/// The character that writes the digit `d`, for `d` from 0 to 9.
pub open spec fn digit(d: u8) -> char {
    ((48 + d) as u8) as char
}

/// An octet in decimal, without leading zeros.
pub open spec fn octet_text(n: u8) -> Seq<char> {
    if n < 10 {
        seq![digit(n)]
    } else if n < 100 {
        seq![digit(n / 10), digit(n % 10)]
    } else {
        seq![digit(n / 100), digit(n / 10 % 10), digit(n % 10)]
    }
}

/// In `s`, the characters from `start` up to `end` write the octet `n`, and
/// the run of digits stops at `end`.
pub open spec fn octet_at(s: Seq<char>, start: int, n: u8, end: int) -> bool {
    &&& 0 <= start < end <= s.len()
    &&& s.subrange(start, end) == octet_text(n)
    &&& (end == s.len() || !is_digit(s[end]))
}

/// In `s`, no octet can be read at `start`.
pub open spec fn no_octet_at(s: Seq<char>, start: int) -> bool {
    forall|n: u8, end: int| !octet_at(s, start, n, end)
}

/// An IPv4 address, as its four octets from the most significant down.
#[derive(Clone, Copy, Debug, PartialEq, Eq, Structural)]
pub struct Ipv4 {
    pub a: u8,
    pub b: u8,
    pub c: u8,
    pub d: u8,
}

impl Ipv4 {
    /// The dotted-decimal text of the address.
    pub open spec fn text(self) -> Seq<char> {
        octet_text(self.a) + seq!['.'] + octet_text(self.b) + seq!['.'] + octet_text(self.c)
            + seq!['.'] + octet_text(self.d)
    }

    /// The address that `t` is the text of, if it is the text of one.
    pub open spec fn from_text(t: Seq<char>) -> Option<Ipv4> {
        if exists|ip: Ipv4| ip.text() == t {
            Some(choose|ip: Ipv4| ip.text() == t)
        } else {
            None
        }
    }

    /// The address `a.b.c.d`.
    pub fn new(a: u8, b: u8, c: u8, d: u8) -> (ip: Ipv4)
        ensures
            ip == (Ipv4 { a, b, c, d }),
    {
        Ipv4 { a, b, c, d }
    }

    /// The four octets, most significant first.
    pub fn octets(&self) -> (o: [u8; 4])
        ensures
            o@ == seq![self.a, self.b, self.c, self.d],
    {
        let o: [u8; 4] = [self.a, self.b, self.c, self.d];
        assert(o@ =~= seq![self.a, self.b, self.c, self.d]);
        o
    }

    /// The dotted-decimal text of the address.
    pub fn to_string(&self) -> (s: String)
        ensures
            s@ == self.text(),
    {
        let mut s = String::new();
        push_octet(&mut s, self.a);
        s.append(dot());
        push_octet(&mut s, self.b);
        s.append(dot());
        push_octet(&mut s, self.c);
        s.append(dot());
        push_octet(&mut s, self.d);
        s
    }

    /// Reads an address from its dotted-decimal text: `Some` exactly when `s`
    /// is the text of an address, and then that address.
    pub fn parse(s: &str) -> (r: Option<Ipv4>)
        ensures
            r == Ipv4::from_text(s@),
            match r {
                Some(ip) => s@ == ip.text(),
                None => forall|ip: Ipv4| s@ != ip.text(),
            },
    {
        let chars = chars_of(s);
        let n: usize = chars.len();
        let (a, end_a) = match read_octet(&chars, 0) {
            Some(found) => found,
            None => {
                proof {
                    lemma_unreadable(s@, 0, 0, 0, 0, 0, 0, 0, 0, 0);
                }
                return None;
            },
        };
        if end_a >= n || chars[end_a] != '.' {
            proof {
                lemma_unreadable(s@, 1, a, 0, 0, 0, end_a as int, 0, 0, 0);
            }
            return None;
        }
        let (b, end_b) = match read_octet(&chars, end_a + 1) {
            Some(found) => found,
            None => {
                proof {
                    lemma_unreadable(s@, 2, a, 0, 0, 0, end_a as int, 0, 0, 0);
                }
                return None;
            },
        };
        if end_b >= n || chars[end_b] != '.' {
            proof {
                lemma_unreadable(s@, 3, a, b, 0, 0, end_a as int, end_b as int, 0, 0);
            }
            return None;
        }
        let (c, end_c) = match read_octet(&chars, end_b + 1) {
            Some(found) => found,
            None => {
                proof {
                    lemma_unreadable(s@, 4, a, b, 0, 0, end_a as int, end_b as int, 0, 0);
                }
                return None;
            },
        };
        if end_c >= n || chars[end_c] != '.' {
            proof {
                lemma_unreadable(s@, 5, a, b, c, 0, end_a as int, end_b as int, end_c as int, 0);
            }
            return None;
        }
        let (d, end_d) = match read_octet(&chars, end_c + 1) {
            Some(found) => found,
            None => {
                proof {
                    lemma_unreadable(
                        s@,
                        6,
                        a,
                        b,
                        c,
                        0,
                        end_a as int,
                        end_b as int,
                        end_c as int,
                        0,
                    );
                }
                return None;
            },
        };
        if end_d != n {
            proof {
                lemma_unreadable(
                    s@,
                    7,
                    a,
                    b,
                    c,
                    d,
                    end_a as int,
                    end_b as int,
                    end_c as int,
                    end_d as int,
                );
            }
            return None;
        }
        let ip = Ipv4 { a, b, c, d };
        assert(s@ =~= ip.text());
        proof {
            lemma_text_round_trip(ip);
        }
        Some(ip)
    }
}

/// Two addresses with the same text are the same address.
pub proof fn lemma_text_injective(x: Ipv4, y: Ipv4)
    requires
        x.text() == y.text(),
    ensures
        x == y,
{
    lemma_reading(x, 0, 0, 0, 0, 0, 0, 0, 0, 0);
    let end_a = octet_text(x.a).len() as int;
    let end_b = end_a + 1 + octet_text(x.b).len();
    let end_c = end_b + 1 + octet_text(x.c).len();
    let end_d = end_c + 1 + octet_text(x.d).len();
    lemma_reading(y, 7, x.a, x.b, x.c, x.d, end_a, end_b, end_c, end_d);
}

/// Reading the text of an address gives the address back.
pub proof fn lemma_text_round_trip(ip: Ipv4)
    ensures
        Ipv4::from_text(ip.text()) == Some(ip),
{
    let found = choose|other: Ipv4| other.text() == ip.text();
    lemma_text_injective(found, ip);
}

/// The text of a single character, for the digit `d`.
fn digit_str(d: u8) -> (s: &'static str)
    requires
        d < 10,
    ensures
        s@ == seq![digit(d)],
{
    proof {
        reveal_strlit("0");
        reveal_strlit("1");
        reveal_strlit("2");
        reveal_strlit("3");
        reveal_strlit("4");
        reveal_strlit("5");
        reveal_strlit("6");
        reveal_strlit("7");
        reveal_strlit("8");
        reveal_strlit("9");
    }
    let s = match d {
        0 => "0",
        1 => "1",
        2 => "2",
        3 => "3",
        4 => "4",
        5 => "5",
        6 => "6",
        7 => "7",
        8 => "8",
        _ => "9",
    };
    assert(s@ =~= seq![digit(d)]);
    s
}

/// The text of the dot that divides two octets.
fn dot() -> (s: &'static str)
    ensures
        s@ == seq!['.'],
{
    proof {
        reveal_strlit(".");
    }
    let s = ".";
    assert(s@ =~= seq!['.']);
    s
}

/// Writes the octet `n` in decimal at the end of `s`.
fn push_octet(s: &mut String, n: u8)
    ensures
        final(s)@ == old(s)@ + octet_text(n),
{
    if n >= 100 {
        s.append(digit_str(n / 100));
    }
    if n >= 10 {
        s.append(digit_str(n / 10 % 10));
    }
    s.append(digit_str(n % 10));
    assert(s@ =~= old(s)@ + octet_text(n));
}

/// Whether `c` is one of `0` to `9`.
fn is_decimal(c: char) -> (b: bool)
    ensures
        b == is_digit(c),
{
    c >= '0' && c <= '9'
}

/// The digit that `c` writes.
fn digit_value(c: char) -> (d: u8)
    requires
        is_digit(c),
    ensures
        d < 10,
        digit(d) == c,
{
    let code: u32 = c as u32;
    (code - 48) as u8
}

/// Reads the octet that starts at `start`: the whole run of digits there has
/// to write it.
fn read_octet(chars: &Vec<char>, start: usize) -> (r: Option<(u8, usize)>)
    requires
        start <= chars.len(),
    ensures
        match r {
            Some((n, end)) => octet_at(chars@, start as int, n, end as int),
            None => no_octet_at(chars@, start as int),
        },
{
    let len: usize = chars.len();
    proof {
        lemma_octet_shapes(chars@, start as int);
    }
    if start >= len || !is_decimal(chars[start]) {
        return None;
    }
    let d0: u8 = digit_value(chars[start]);
    if len - start < 2 || !is_decimal(chars[start + 1]) {
        assert(chars@.subrange(start as int, start + 1) =~= octet_text(d0));
        return Some((d0, start + 1));
    }
    let d1: u8 = digit_value(chars[start + 1]);
    if d0 == 0 {
        return None;
    }
    if len - start < 3 || !is_decimal(chars[start + 2]) {
        let n: u8 = d0 * 10 + d1;
        assert(chars@.subrange(start as int, start + 2) =~= octet_text(n));
        return Some((n, start + 2));
    }
    let d2: u8 = digit_value(chars[start + 2]);
    if len - start >= 4 && is_decimal(chars[start + 3]) {
        return None;
    }
    let wide: u16 = d0 as u16 * 100 + d1 as u16 * 10 + d2 as u16;
    if wide > 255 {
        return None;
    }
    let n: u8 = wide as u8;
    assert(chars@.subrange(start as int, start + 3) =~= octet_text(n));
    Some((n, start + 3))
}

/// The characters of `s` from `start` up to `end` are the one to three
/// digits of `n`, the first of them no zero unless it stands alone.
spec fn digits_at(s: Seq<char>, start: int, n: u8, end: int) -> bool {
    &&& is_digit(s[start])
    &&& end - start == octet_text(n).len()
    &&& n < 10 ==> end == start + 1 && s[start] == digit(n)
    &&& 10 <= n < 100 ==> {
        &&& end == start + 2
        &&& s[start] == digit(n / 10)
        &&& s[start + 1] == digit(n % 10)
    }
    &&& 100 <= n ==> {
        &&& end == start + 3
        &&& s[start] == digit(n / 100)
        &&& s[start + 1] == digit(n / 10 % 10)
        &&& s[start + 2] == digit(n % 10)
    }
}

/// Where an octet can be read in `s`, its digits stand in `s`.
proof fn lemma_octet_shapes(s: Seq<char>, start: int)
    ensures
        forall|n: u8, end: int| #[trigger]
            octet_at(s, start, n, end) ==> digits_at(s, start, n, end),
{
    assert forall|n: u8, end: int| #[trigger] octet_at(s, start, n, end) implies digits_at(
        s,
        start,
        n,
        end,
    ) by {
        let t = s.subrange(start, end);
        assert(t.len() == end - start);
        assert(t[0] == s[start]);
        if n >= 10 {
            assert(t[1] == s[start + 1]);
        }
        if n >= 100 {
            assert(t[2] == s[start + 2]);
        }
    }
}

/// At one place in a text at most one octet can be read.
proof fn lemma_octet_unique(s: Seq<char>, start: int, n1: u8, end1: int, n2: u8, end2: int)
    requires
        octet_at(s, start, n1, end1),
        octet_at(s, start, n2, end2),
    ensures
        n1 == n2,
        end1 == end2,
{
    lemma_octet_shapes(s, start);
    let t1 = s.subrange(start, end1);
    let t2 = s.subrange(start, end2);
    if end1 < end2 {
        assert(t2[end1 - start] == s[end1]);
    }
    if end2 < end1 {
        assert(t1[end2 - start] == s[end2]);
    }
}

/// The text of `ip` reads as its four octets with a dot after each of the
/// first three, and whoever has read some of it, `steps` parts from the left,
/// has read just that.
proof fn lemma_reading(
    ip: Ipv4,
    steps: int,
    a: u8,
    b: u8,
    c: u8,
    d: u8,
    end_a: int,
    end_b: int,
    end_c: int,
    end_d: int,
)
    requires
        steps >= 1 ==> octet_at(ip.text(), 0, a, end_a),
        steps >= 3 ==> octet_at(ip.text(), end_a + 1, b, end_b),
        steps >= 5 ==> octet_at(ip.text(), end_b + 1, c, end_c),
        steps >= 7 ==> octet_at(ip.text(), end_c + 1, d, end_d),
    ensures
        ({
            let t = ip.text();
            let to_a = octet_text(ip.a).len() as int;
            let to_b = to_a + 1 + octet_text(ip.b).len();
            let to_c = to_b + 1 + octet_text(ip.c).len();
            let to_d = to_c + 1 + octet_text(ip.d).len();
            &&& octet_at(t, 0, ip.a, to_a)
            &&& t[to_a] == '.'
            &&& octet_at(t, to_a + 1, ip.b, to_b)
            &&& t[to_b] == '.'
            &&& octet_at(t, to_b + 1, ip.c, to_c)
            &&& t[to_c] == '.'
            &&& octet_at(t, to_c + 1, ip.d, to_d)
            &&& to_d == t.len()
            &&& steps >= 1 ==> a == ip.a && end_a == to_a
            &&& steps >= 3 ==> b == ip.b && end_b == to_b
            &&& steps >= 5 ==> c == ip.c && end_c == to_c
            &&& steps >= 7 ==> d == ip.d && end_d == to_d
        }),
{
    let t = ip.text();
    let to_a = octet_text(ip.a).len() as int;
    let to_b = to_a + 1 + octet_text(ip.b).len();
    let to_c = to_b + 1 + octet_text(ip.c).len();
    let to_d = to_c + 1 + octet_text(ip.d).len();
    assert(t.subrange(0, to_a) =~= octet_text(ip.a));
    assert(t.subrange(to_a + 1, to_b) =~= octet_text(ip.b));
    assert(t.subrange(to_b + 1, to_c) =~= octet_text(ip.c));
    assert(t.subrange(to_c + 1, to_d) =~= octet_text(ip.d));
    if steps >= 1 {
        lemma_octet_unique(t, 0, a, end_a, ip.a, to_a);
    }
    if steps >= 3 {
        lemma_octet_unique(t, to_a + 1, b, end_b, ip.b, to_b);
    }
    if steps >= 5 {
        lemma_octet_unique(t, to_b + 1, c, end_c, ip.c, to_c);
    }
    if steps >= 7 {
        lemma_octet_unique(t, to_c + 1, d, end_d, ip.d, to_d);
    }
}

/// A text whose reading from the left fails is the text of no address.
/// `steps` counts the octets and dots read before the failure, in turn; the
/// part that should come next, an octet after an even count and a dot after
/// an odd one, is not there, or, after the fourth octet, the text goes on.
proof fn lemma_unreadable(
    s: Seq<char>,
    steps: int,
    a: u8,
    b: u8,
    c: u8,
    d: u8,
    end_a: int,
    end_b: int,
    end_c: int,
    end_d: int,
)
    requires
        0 <= steps <= 7,
        steps >= 1 ==> octet_at(s, 0, a, end_a),
        steps >= 2 ==> end_a < s.len() && s[end_a] == '.',
        steps >= 3 ==> octet_at(s, end_a + 1, b, end_b),
        steps >= 4 ==> end_b < s.len() && s[end_b] == '.',
        steps >= 5 ==> octet_at(s, end_b + 1, c, end_c),
        steps >= 6 ==> end_c < s.len() && s[end_c] == '.',
        steps >= 7 ==> octet_at(s, end_c + 1, d, end_d),
        steps == 0 ==> no_octet_at(s, 0),
        steps == 1 ==> !(end_a < s.len() && s[end_a] == '.'),
        steps == 2 ==> no_octet_at(s, end_a + 1),
        steps == 3 ==> !(end_b < s.len() && s[end_b] == '.'),
        steps == 4 ==> no_octet_at(s, end_b + 1),
        steps == 5 ==> !(end_c < s.len() && s[end_c] == '.'),
        steps == 6 ==> no_octet_at(s, end_c + 1),
        steps == 7 ==> end_d != s.len(),
    ensures
        forall|ip: Ipv4| s != ip.text(),
{
    assert forall|ip: Ipv4| s != ip.text() by {
        if s == ip.text() {
            lemma_reading(ip, steps, a, b, c, d, end_a, end_b, end_c, end_d);
        }
    }
}

} // verus!
