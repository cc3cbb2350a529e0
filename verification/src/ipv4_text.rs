//! IPv4 addresses as dotted decimal text: writing, and reading back.
//!
//! The text of an address is its four octets in decimal, without leading
//! zeros, separated by dots. Reading accepts exactly the texts that writing
//! produces.

use crate::address::Ipv4Addr;
use crate::text::{append_char, digit, digit_char};
use vstd::prelude::*;

verus! {

/// The decimal text of an octet, without leading zeros.
pub open spec fn octet_text(n: int) -> Seq<char> {
    if n < 10 {
        seq![digit(n)]
    } else if n < 100 {
        seq![digit(n / 10), digit(n % 10)]
    } else {
        seq![digit(n / 100), digit((n / 10) % 10), digit(n % 10)]
    }
}

/// The dotted decimal text of an address.
pub open spec fn ipv4_text(ip: Ipv4Addr) -> Seq<char> {
    octet_text(ip.0 as int) + seq!['.'] + octet_text(ip.1 as int) + seq!['.'] + octet_text(
        ip.2 as int,
    ) + seq!['.'] + octet_text(ip.3 as int)
}

/// The value of a decimal digit, and -1 for any other character.
pub open spec fn digit_value(c: char) -> int {
    if c == '0' {
        0
    } else if c == '1' {
        1
    } else if c == '2' {
        2
    } else if c == '3' {
        3
    } else if c == '4' {
        4
    } else if c == '5' {
        5
    } else if c == '6' {
        6
    } else if c == '7' {
        7
    } else if c == '8' {
        8
    } else if c == '9' {
        9
    } else {
        -1
    }
}

/// Whether `s` has a decimal digit at `at`.
pub open spec fn digit_at(s: Seq<char>, at: int) -> bool {
    0 <= at < s.len() && digit_value(s[at]) >= 0
}

/// How many decimal digits stand at `at`, counting no more than three.
pub open spec fn number_len(s: Seq<char>, at: int) -> int {
    if !digit_at(s, at) {
        0
    } else if !digit_at(s, at + 1) {
        1
    } else if !digit_at(s, at + 2) {
        2
    } else {
        3
    }
}

/// The number that the digits at `at` spell, up to three of them.
pub open spec fn number_value(s: Seq<char>, at: int) -> int {
    if number_len(s, at) == 1 {
        digit_value(s[at])
    } else if number_len(s, at) == 2 {
        digit_value(s[at]) * 10 + digit_value(s[at + 1])
    } else if number_len(s, at) == 3 {
        digit_value(s[at]) * 100 + digit_value(s[at + 1]) * 10 + digit_value(s[at + 2])
    } else {
        0
    }
}

/// Whitespace of ASCII.
pub open spec fn is_space(c: char) -> bool {
    c == ' ' || c == '\t' || c == '\n' || c == '\r' || c == '\x0b' || c == '\x0c'
}

/// `s` without the whitespace at its start.
pub open spec fn trim_start(s: Seq<char>) -> Seq<char>
    decreases s.len(),
{
    if s.len() > 0 && is_space(s[0]) {
        trim_start(s.drop_first())
    } else {
        s
    }
}

/// `s` without the whitespace at its end.
pub open spec fn trim_end(s: Seq<char>) -> Seq<char>
    decreases s.len(),
{
    if s.len() > 0 && is_space(s.last()) {
        trim_end(s.drop_last())
    } else {
        s
    }
}

/// `s` without the whitespace at its start and at its end.
pub open spec fn trimmed(s: Seq<char>) -> Seq<char> {
    trim_end(trim_start(s))
}

/// The digits of an octet, read where they stand in a text, give the octet:
/// where the text of `n` stands at `at` and no digit follows it, the number
/// read at `at` is `n`, and it is as long as the text of `n`.
pub proof fn lemma_number_at(s: Seq<char>, at: int, n: int)
    requires
        0 <= n <= 255,
        0 <= at,
        at + octet_text(n).len() <= s.len(),
        s.subrange(at, at + octet_text(n).len()) == octet_text(n),
        !digit_at(s, at + octet_text(n).len()),
    ensures
        number_len(s, at) == octet_text(n).len(),
        number_value(s, at) == n,
        1 <= octet_text(n).len() <= 3,
{
    let t = octet_text(n);
    let part = s.subrange(at, at + t.len());
    assert(part[0] == s[at]);
    if n >= 10 {
        assert(part[1] == s[at + 1]);
    }
    if n >= 100 {
        assert(part[2] == s[at + 2]);
    }
}

/// The text of an address reads back as the address: the four numbers stand
/// one after another with a dot between them, and nothing follows.
pub proof fn lemma_text_reads_back(ip: Ipv4Addr)
    ensures
        ({
            let s = ipv4_text(ip);
            let p1 = number_len(s, 0) + 1;
            let p2 = p1 + number_len(s, p1) + 1;
            let p3 = p2 + number_len(s, p2) + 1;
            &&& number_len(s, 0) >= 1
            &&& number_value(s, 0) == ip.0
            &&& s[p1 - 1] == '.'
            &&& number_len(s, p1) >= 1
            &&& number_value(s, p1) == ip.1
            &&& s[p2 - 1] == '.'
            &&& number_len(s, p2) >= 1
            &&& number_value(s, p2) == ip.2
            &&& s[p3 - 1] == '.'
            &&& number_len(s, p3) >= 1
            &&& number_value(s, p3) == ip.3
            &&& p3 + number_len(s, p3) == s.len()
        }),
{
    let s = ipv4_text(ip);
    let t0 = octet_text(ip.0 as int);
    let t1 = octet_text(ip.1 as int);
    let t2 = octet_text(ip.2 as int);
    let t3 = octet_text(ip.3 as int);
    let a1: int = t0.len() as int + 1;
    let a2: int = a1 + t1.len() + 1;
    let a3: int = a2 + t2.len() + 1;
    assert(s.len() == a3 + t3.len());
    assert(s.subrange(0, t0.len() as int) =~= t0);
    assert(s[a1 - 1] == '.');
    assert(s.subrange(a1, a1 + t1.len()) =~= t1);
    assert(s[a2 - 1] == '.');
    assert(s.subrange(a2, a2 + t2.len()) =~= t2);
    assert(s[a3 - 1] == '.');
    assert(s.subrange(a3, a3 + t3.len()) =~= t3);
    lemma_number_at(s, 0, ip.0 as int);
    lemma_number_at(s, a1, ip.1 as int);
    lemma_number_at(s, a2, ip.2 as int);
    lemma_number_at(s, a3, ip.3 as int);
}

/// Two addresses with the same text are the same address.
pub proof fn lemma_text_names_one_address(a: Ipv4Addr, b: Ipv4Addr)
    requires
        ipv4_text(a) == ipv4_text(b),
    ensures
        a == b,
{
    lemma_text_reads_back(a);
    lemma_text_reads_back(b);
}

/// Appends the decimal text of `n` to `out`.
fn push_octet(out: &mut Vec<char>, n: u8)
    ensures
        final(out)@ == old(out)@ + octet_text(n as int),
{
    let n: u32 = n as u32;
    if n >= 100 {
        out.push(digit_char(n / 100));
    }
    if n >= 10 {
        out.push(digit_char((n / 10) % 10));
    }
    out.push(digit_char(n % 10));
    assert(out@ =~= old(out)@ + octet_text(n as int));
}

/// The characters of the dotted decimal text of `ip`.
pub fn ipv4_chars(ip: Ipv4Addr) -> (r: Vec<char>)
    ensures
        r@ == ipv4_text(ip),
{
    let mut out: Vec<char> = Vec::new();
    push_octet(&mut out, ip.0);
    out.push('.');
    push_octet(&mut out, ip.1);
    out.push('.');
    push_octet(&mut out, ip.2);
    out.push('.');
    push_octet(&mut out, ip.3);
    assert(out@ =~= ipv4_text(ip));
    out
}

/// The dotted decimal text of `ip`.
pub fn ipv4_to_text(ip: Ipv4Addr) -> (r: String)
    ensures
        r@ == ipv4_text(ip),
{
    let chars = ipv4_chars(ip);
    let mut text = String::new();
    let mut i: usize = 0;
    while i < chars.len()
        invariant
            i <= chars@.len(),
            text@ == chars@.subrange(0, i as int),
        decreases chars@.len() - i,
    {
        append_char(&mut text, chars[i]);
        assert(text@ =~= chars@.subrange(0, i + 1));
        i += 1;
    }
    assert(chars@.subrange(0, chars@.len() as int) =~= chars@);
    text
}

/// The characters of `text`.
pub fn chars_of(text: &str) -> (r: Vec<char>)
    ensures
        r@ == text@,
{
    let n = text.unicode_len();
    let mut out: Vec<char> = Vec::new();
    let mut i: usize = 0;
    while i < n
        invariant
            n == text@.len(),
            i <= n,
            out@ == text@.subrange(0, i as int),
        decreases n - i,
    {
        out.push(text.get_char(i));
        assert(out@ =~= text@.subrange(0, i + 1));
        i += 1;
    }
    assert(text@.subrange(0, n as int) =~= text@);
    out
}

/// The value of the decimal digit `c`, or `None` for any other character.
fn digit_of(c: char) -> (r: Option<u32>)
    ensures
        r is Some <==> digit_value(c) >= 0,
        r matches Some(d) ==> d == digit_value(c) && d <= 9,
{
    if c == '0' {
        Some(0)
    } else if c == '1' {
        Some(1)
    } else if c == '2' {
        Some(2)
    } else if c == '3' {
        Some(3)
    } else if c == '4' {
        Some(4)
    } else if c == '5' {
        Some(5)
    } else if c == '6' {
        Some(6)
    } else if c == '7' {
        Some(7)
    } else if c == '8' {
        Some(8)
    } else if c == '9' {
        Some(9)
    } else {
        None
    }
}

/// The digit at `at` in `s`, if there is one.
fn digit_in(s: &[char], at: usize) -> (r: Option<u32>)
    ensures
        r is Some <==> digit_at(s@, at as int),
        r matches Some(d) ==> d == digit_value(s@[at as int]) && d <= 9,
{
    if at < s.len() {
        digit_of(s[at])
    } else {
        None
    }
}

/// Reads up to three digits at `at`: the number they spell, and how many
/// there are.
fn read_number(s: &[char], at: usize) -> (r: (u32, usize))
    requires
        at <= s@.len(),
    ensures
        r.1 == number_len(s@, at as int),
        r.0 == number_value(s@, at as int),
        at + r.1 <= s@.len(),
        r.0 <= 999,
{
    if at >= s.len() {
        return (0, 0);
    }
    match digit_in(s, at) {
        None => (0, 0),
        Some(a) => match digit_in(s, at + 1) {
            None => (a, 1),
            Some(b) => match digit_in(s, at + 2) {
                None => (a * 10 + b, 2),
                Some(c) => (a * 100 + b * 10 + c, 3),
            },
        },
    }
}

/// Whether `a` and `b` hold the same characters.
fn same_chars(a: &[char], b: &[char]) -> (r: bool)
    ensures
        r == (a@ == b@),
{
    if a.len() != b.len() {
        return false;
    }
    let mut i: usize = 0;
    while i < a.len()
        invariant
            a@.len() == b@.len(),
            i <= a@.len(),
            forall|j: int| 0 <= j < i ==> a@[j] == b@[j],
        decreases a@.len() - i,
    {
        if a[i] != b[i] {
            return false;
        }
        i += 1;
    }
    assert(a@ =~= b@);
    true
}

/// The address whose text the characters `s` are; `None` when they are the
/// text of no address.
pub fn parse_ipv4_chars(s: &[char]) -> (r: Option<Ipv4Addr>)
    ensures
        r matches Some(ip) ==> s@ == ipv4_text(ip),
        r is None ==> forall|ip: Ipv4Addr| s@ != #[trigger] ipv4_text(ip),
{
    proof {
        assert forall|ip: Ipv4Addr| s@ == #[trigger] ipv4_text(ip) implies ({
            let p1 = number_len(s@, 0) + 1;
            let p2 = p1 + number_len(s@, p1) + 1;
            let p3 = p2 + number_len(s@, p2) + 1;
            &&& number_len(s@, 0) >= 1
            &&& number_value(s@, 0) == ip.0
            &&& s@[p1 - 1] == '.'
            &&& number_len(s@, p1) >= 1
            &&& number_value(s@, p1) == ip.1
            &&& s@[p2 - 1] == '.'
            &&& number_len(s@, p2) >= 1
            &&& number_value(s@, p2) == ip.2
            &&& s@[p3 - 1] == '.'
            &&& number_len(s@, p3) >= 1
            &&& number_value(s@, p3) == ip.3
            &&& p3 + number_len(s@, p3) == s@.len()
        }) by {
            lemma_text_reads_back(ip);
        }
    }
    let len: usize = s.len();
    let (a, la) = read_number(s, 0);
    if la == 0 || la >= len || s[la] != '.' || a > 255 {
        return None;
    }
    let p1: usize = la + 1;
    let (b, lb) = read_number(s, p1);
    if lb == 0 || p1 + lb >= len || s[p1 + lb] != '.' || b > 255 {
        return None;
    }
    let p2: usize = p1 + lb + 1;
    let (c, lc) = read_number(s, p2);
    if lc == 0 || p2 + lc >= len || s[p2 + lc] != '.' || c > 255 {
        return None;
    }
    let p3: usize = p2 + lc + 1;
    let (d, ld) = read_number(s, p3);
    if ld == 0 || p3 + ld != len || d > 255 {
        return None;
    }
    let ip = Ipv4Addr::new(a as u8, b as u8, c as u8, d as u8);
    let written = ipv4_chars(ip);
    if same_chars(written.as_slice(), s) {
        Some(ip)
    } else {
        proof {
            assert forall|other: Ipv4Addr| s@ != #[trigger] ipv4_text(other) by {
                if s@ == ipv4_text(other) {
                    assert(other == ip);
                }
            }
        }
        None
    }
}

/// The address whose dotted decimal text `text` is; `None` when it is the
/// text of no address.
pub fn parse_ipv4(text: &str) -> (r: Option<Ipv4Addr>)
    ensures
        r matches Some(ip) ==> text@ == ipv4_text(ip),
        r is None ==> forall|ip: Ipv4Addr| text@ != #[trigger] ipv4_text(ip),
{
    let chars = chars_of(text);
    parse_ipv4_chars(chars.as_slice())
}

/// Whether `c` is whitespace of ASCII.
fn is_space_char(c: char) -> (r: bool)
    ensures
        r == is_space(c),
{
    c == ' ' || c == '\t' || c == '\n' || c == '\r' || c == '\x0b' || c == '\x0c'
}

/// The bounds of `s` without the whitespace at its two ends.
fn trim_bounds(s: &[char]) -> (r: (usize, usize))
    ensures
        r.0 <= r.1 <= s@.len(),
        s@.subrange(r.0 as int, r.1 as int) == trimmed(s@),
{
    let len: usize = s.len();
    let mut from: usize = 0;
    proof {
        assert(s@.subrange(0, len as int) =~= s@);
    }
    while from < len && is_space_char(s[from])
        invariant
            len == s@.len(),
            from <= len,
            trim_start(s@) == trim_start(s@.subrange(from as int, len as int)),
        decreases len - from,
    {
        proof {
            let rest = s@.subrange(from as int, len as int);
            assert(rest[0] == s@[from as int]);
            assert(rest.drop_first() =~= s@.subrange(from + 1, len as int));
        }
        from += 1;
    }
    proof {
        let rest = s@.subrange(from as int, len as int);
        if from < len {
            assert(rest[0] == s@[from as int]);
        }
        assert(trim_start(s@) == rest);
    }
    let mut to: usize = len;
    while to > from && is_space_char(s[to - 1])
        invariant
            len == s@.len(),
            from <= to <= len,
            trim_end(s@.subrange(from as int, len as int)) == trim_end(
                s@.subrange(from as int, to as int),
            ),
        decreases to - from,
    {
        proof {
            let part = s@.subrange(from as int, to as int);
            assert(part.last() == s@[to - 1]);
            assert(part.drop_last() =~= s@.subrange(from as int, to - 1));
        }
        to -= 1;
    }
    proof {
        let part = s@.subrange(from as int, to as int);
        if to > from {
            assert(part.last() == s@[to - 1]);
        }
        assert(trim_end(part) == part);
    }
    (from, to)
}

/// The address that `output` names once the whitespace round it is taken
/// away; `None` when what is left is the text of no address.
pub fn parse_trimmed_ipv4(output: &str) -> (r: Option<Ipv4Addr>)
    ensures
        r matches Some(ip) ==> trimmed(output@) == ipv4_text(ip),
        r is None ==> forall|ip: Ipv4Addr| trimmed(output@) != #[trigger] ipv4_text(ip),
{
    let chars = chars_of(output);
    let (from, to) = trim_bounds(chars.as_slice());
    parse_ipv4_chars(vstd::slice::slice_subrange(chars.as_slice(), from, to))
}

} // verus!
