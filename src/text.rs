//! Source text handling: lines, whitespace-separated words, decimal numbers,
//! and the decimal and hexadecimal renderings used in diagnostics.
use vstd::prelude::*;

use crate::config::{Value, VALUE_MAX};

verus! {

/// The characters with the Unicode `White_Space` property.
pub open spec fn is_space(c: char) -> bool {
    let u = c as u32;
    (9 <= u <= 13) || u == 32 || u == 0x85 || u == 0xa0 || u == 0x1680 || (0x2000 <= u
        <= 0x200a) || u == 0x2028 || u == 0x2029 || u == 0x202f || u == 0x205f || u == 0x3000
}

pub fn is_space_char(c: char) -> (r: bool)
    ensures
        r == is_space(c),
{
    let u = c as u32;
    (9 <= u && u <= 13) || u == 32 || u == 0x85 || u == 0xa0 || u == 0x1680 || (0x2000 <= u && u
        <= 0x200a) || u == 0x2028 || u == 0x2029 || u == 0x202f || u == 0x205f || u == 0x3000
}

/// Reads `s` from the left: the words completed so far, and the word in progress.
pub open spec fn scan_words(s: Seq<char>) -> (Seq<Seq<char>>, Seq<char>)
    decreases s.len(),
{
    if s.len() == 0 {
        (seq![], seq![])
    } else {
        let (done, cur) = scan_words(s.drop_last());
        let c = s.last();
        if !is_space(c) {
            (done, cur.push(c))
        } else if cur.len() == 0 {
            (done, cur)
        } else {
            (done.push(cur), seq![])
        }
    }
}

/// The maximal runs of non-whitespace characters of `s`, in order.
pub open spec fn words(s: Seq<char>) -> Seq<Seq<char>> {
    let (done, cur) = scan_words(s);
    if cur.len() == 0 {
        done
    } else {
        done.push(cur)
    }
}

/// Reads `s` from the left: the lines completed so far, and the line in progress.
pub open spec fn scan_lines(s: Seq<char>) -> (Seq<Seq<char>>, Seq<char>)
    decreases s.len(),
{
    if s.len() == 0 {
        (seq![], seq![])
    } else {
        let (done, cur) = scan_lines(s.drop_last());
        let c = s.last();
        if c == '\n' {
            (done.push(cur), seq![])
        } else {
            (done, cur.push(c))
        }
    }
}

/// The lines of `s`: the pieces between line feeds, without a last empty piece.
pub open spec fn lines(s: Seq<char>) -> Seq<Seq<char>> {
    let (done, cur) = scan_lines(s);
    if cur.len() == 0 {
        done
    } else {
        done.push(cur)
    }
}

pub open spec fn views(v: Seq<String>) -> Seq<Seq<char>> {
    v.map_values(|s: String| s@)
}

pub proof fn lemma_views_push(v: Seq<String>, s: String)
    ensures
        views(v.push(s)) == views(v).push(s@),
{
    assert(views(v.push(s)) =~= views(v).push(s@));
}

/// Splits `s` into its whitespace-separated words.
pub fn split_words(s: &str) -> (r: Vec<String>)
    ensures
        views(r@) == words(s@),
{
    let n = s.unicode_len();
    let mut out: Vec<String> = Vec::new();
    let mut start: usize = 0;
    let mut i: usize = 0;
    while i < n
        invariant
            n == s@.len(),
            start <= i <= n,
            scan_words(s@.take(i as int)) == (views(out@), s@.subrange(start as int, i as int)),
        decreases n - i,
    {
        let c = s.get_char(i);
        assert(s@.take(i + 1).drop_last() =~= s@.take(i as int));
        assert(s@.subrange(start as int, i + 1) =~= s@.subrange(start as int, i as int).push(c));
        if is_space_char(c) {
            if start < i {
                let w = s.substring_char(start, i).to_owned();
                proof {
                    lemma_views_push(out@, w);
                }
                out.push(w);
            }
            start = i + 1;
        }
        i = i + 1;
        assert(s@.subrange(i as int, i as int) =~= Seq::<char>::empty());
    }
    assert(s@.take(n as int) =~= s@);
    if start < n {
        let w = s.substring_char(start, n).to_owned();
        proof {
            lemma_views_push(out@, w);
        }
        out.push(w);
    }
    out
}

/// Splits `s` into its lines.
pub fn split_lines(s: &str) -> (r: Vec<String>)
    ensures
        views(r@) == lines(s@),
{
    let mut chars: Vec<char> = Vec::new();
    for c in it: s.chars()
        invariant
            chars@ == it.seq().take(it.index() as int),
    {
        chars.push(c);
    }
    let n = chars.len();
    assert(chars@ =~= s@);
    let mut out: Vec<String> = Vec::new();
    let mut start: usize = 0;
    let mut i: usize = 0;
    while i < n
        invariant
            n == s@.len(),
            chars@ == s@,
            start <= i <= n,
            scan_lines(s@.take(i as int)) == (views(out@), s@.subrange(start as int, i as int)),
        decreases n - i,
    {
        let c = chars[i];
        assert(s@.take(i + 1).drop_last() =~= s@.take(i as int));
        assert(s@.subrange(start as int, i + 1) =~= s@.subrange(start as int, i as int).push(c));
        if c == '\n' {
            let line = s.substring_char(start, i).to_owned();
            proof {
                lemma_views_push(out@, line);
            }
            out.push(line);
            start = i + 1;
        }
        i = i + 1;
        assert(s@.subrange(i as int, i as int) =~= Seq::<char>::empty());
    }
    assert(s@.take(n as int) =~= s@);
    if start < n {
        let line = s.substring_char(start, n).to_owned();
        proof {
            lemma_views_push(out@, line);
        }
        out.push(line);
    }
    out
}

/// Why a decimal literal was refused.
#[derive(Debug, PartialEq, Eq, Clone, Copy, Structural)]
pub enum IntErrorKind {
    Empty,
    InvalidDigit,
    PosOverflow,
}

impl IntErrorKind {
    pub open spec fn spec_message(self) -> Seq<char> {
        match self {
            IntErrorKind::Empty => "cannot parse integer from empty string"@,
            IntErrorKind::InvalidDigit => "invalid digit found in string"@,
            IntErrorKind::PosOverflow => "number too large to fit in target type"@,
        }
    }

    /// The text that describes this error.
    pub fn message(&self) -> (r: String)
        ensures
            r@ == self.spec_message(),
    {
        match self {
            IntErrorKind::Empty => "cannot parse integer from empty string".to_owned(),
            IntErrorKind::InvalidDigit => "invalid digit found in string".to_owned(),
            IntErrorKind::PosOverflow => "number too large to fit in target type".to_owned(),
        }
    }
}

pub open spec fn is_digit(c: char) -> bool {
    48 <= (c as u32) <= 57
}

pub open spec fn digit_value(c: char) -> nat {
    ((c as u32) - 48) as nat
}

/// Reads the digits of `s` from the left; each character fails on not being a
/// digit before the running value fails on exceeding the value range.
pub open spec fn parse_digits(s: Seq<char>) -> Result<nat, IntErrorKind>
    decreases s.len(),
{
    if s.len() == 0 {
        Ok(0)
    } else {
        match parse_digits(s.drop_last()) {
            Err(e) => Err(e),
            Ok(v) => if !is_digit(s.last()) {
                Err(IntErrorKind::InvalidDigit)
            } else if 10 * v + digit_value(s.last()) > VALUE_MAX {
                Err(IntErrorKind::PosOverflow)
            } else {
                Ok(10 * v + digit_value(s.last()))
            },
        }
    }
}

/// A decimal literal of the value type: digits, optionally after one `+`.
pub open spec fn parse_value(s: Seq<char>) -> Result<Value, IntErrorKind> {
    if s.len() == 0 {
        Err(IntErrorKind::Empty)
    } else if s.len() == 1 && (s[0] == '+' || s[0] == '-') {
        Err(IntErrorKind::InvalidDigit)
    } else {
        let digits = if s[0] == '+' {
            s.drop_first()
        } else {
            s
        };
        match parse_digits(digits) {
            Ok(v) => Ok(v as Value),
            Err(e) => Err(e),
        }
    }
}

fn parse_digits_from(s: &str, from: usize) -> (r: Result<Value, IntErrorKind>)
    requires
        from <= s@.len(),
    ensures
        r == (match parse_digits(s@.subrange(from as int, s@.len() as int)) {
            Ok(v) => Ok::<Value, IntErrorKind>(v as Value),
            Err(e) => Err(e),
        }),
{
    let n = s.unicode_len();
    let mut v: u32 = 0;
    let mut i: usize = from;
    while i < n
        invariant
            n == s@.len(),
            from <= i <= n,
            v <= VALUE_MAX,
            parse_digits(s@.subrange(from as int, i as int)) == Ok::<nat, IntErrorKind>(v as nat),
        decreases n - i,
    {
        let c = s.get_char(i);
        assert(s@.subrange(from as int, i + 1).drop_last() =~= s@.subrange(from as int, i as int));
        let u = c as u32;
        if u < 48 || u > 57 {
            proof {
                lemma_digits_stop(s@, from as int, i as int);
            }
            return Err(IntErrorKind::InvalidDigit);
        }
        let next = v * 10 + (u - 48);
        if next > VALUE_MAX as u32 {
            proof {
                lemma_digits_stop(s@, from as int, i as int);
            }
            return Err(IntErrorKind::PosOverflow);
        }
        v = next;
        i = i + 1;
    }
    assert(s@.subrange(from as int, n as int) =~= s@.subrange(from as int, s@.len() as int));
    Ok(v as Value)
}

/// Once reading the digits fails, it fails the same way on any longer input.
proof fn lemma_digits_stop(s: Seq<char>, from: int, i: int)
    requires
        0 <= from <= i < s.len(),
        parse_digits(s.subrange(from, i + 1)) is Err,
    ensures
        parse_digits(s.subrange(from, s.len() as int)) == parse_digits(s.subrange(from, i + 1)),
    decreases s.len() - i,
{
    if i + 1 < s.len() {
        assert(s.subrange(from, i + 2).drop_last() =~= s.subrange(from, i + 1));
        lemma_digits_stop(s, from, i + 1);
    }
}

/// Reads `s` as a decimal literal of the value type.
pub fn parse_value_str(s: &str) -> (r: Result<Value, IntErrorKind>)
    ensures
        r == parse_value(s@),
{
    let n = s.unicode_len();
    if n == 0 {
        return Err(IntErrorKind::Empty);
    }
    let first = s.get_char(0);
    if n == 1 && (first == '+' || first == '-') {
        return Err(IntErrorKind::InvalidDigit);
    }
    let from: usize = if first == '+' {
        1
    } else {
        0
    };
    assert(s@.drop_first() =~= s@.subrange(1, s@.len() as int));
    assert(s@ =~= s@.subrange(0, s@.len() as int));
    parse_digits_from(s, from)
}

/// The digit characters of bases up to sixteen.
pub open spec fn digit_char(d: nat) -> char {
    "0123456789abcdef"@[d as int]
}

pub open spec fn decimal(n: nat) -> Seq<char>
    decreases n,
{
    if n < 10 {
        seq![digit_char(n)]
    } else {
        decimal(n / 10).push(digit_char(n % 10))
    }
}

pub open spec fn hexadecimal(n: nat) -> Seq<char>
    decreases n,
{
    if n < 16 {
        seq![digit_char(n)]
    } else {
        hexadecimal(n / 16).push(digit_char(n % 16))
    }
}

/// Lower-case hexadecimal, padded with zeros to two digits at least.
pub open spec fn hex2(n: nat) -> Seq<char> {
    if n < 16 {
        seq!['0', digit_char(n)]
    } else {
        hexadecimal(n)
    }
}

fn digit_str(d: usize) -> (r: &'static str)
    requires
        d < 16,
    ensures
        r@ == seq![digit_char(d as nat)],
{
    let digits = "0123456789abcdef";
    proof {
        reveal_strlit("0123456789abcdef");
    }
    let r = digits.substring_char(d, d + 1);
    assert(r@ =~= seq![digit_char(d as nat)]);
    r
}

/// `n` written in decimal.
pub fn decimal_string(n: usize) -> (r: String)
    ensures
        r@ == decimal(n as nat),
    decreases n,
{
    if n < 10 {
        digit_str(n).to_owned()
    } else {
        let mut s = decimal_string(n / 10);
        s.append(digit_str(n % 10));
        s
    }
}

fn hexadecimal_string(n: usize) -> (r: String)
    ensures
        r@ == hexadecimal(n as nat),
    decreases n,
{
    if n < 16 {
        digit_str(n).to_owned()
    } else {
        let mut s = hexadecimal_string(n / 16);
        s.append(digit_str(n % 16));
        s
    }
}

/// `n` in lower-case hexadecimal, padded with zeros to two digits at least.
pub fn hex2_string(n: usize) -> (r: String)
    ensures
        r@ == hex2(n as nat),
{
    if n < 16 {
        let mut s = "0".to_owned();
        proof {
            reveal_strlit("0");
        }
        s.append(digit_str(n));
        assert(s@ =~= seq!['0', digit_char(n as nat)]);
        s
    } else {
        hexadecimal_string(n)
    }
}

} // verus!
