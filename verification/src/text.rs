//! Text and byte-string helpers shared by the wire formats.
//!
//! Decimal rendering follows `format!("{}")` / `format!("{:02}")` for unsigned
//! integers, and number parsing follows `str::parse::<usize>()`: an optional
//! `+`, then one or more ASCII digits, rejected when the value does not fit.

use vstd::prelude::*;
use vstd::string::StringSliceAdditionalSpecFns;
use vstd::utf8::{encode_utf8, is_ascii_chars, is_ascii_chars_encode_utf8};

verus! {

/// Bytes of a character sequence whose characters are all ASCII.
pub open spec fn ascii(s: Seq<char>) -> Seq<u8> {
    Seq::new(s.len(), |i: int| s[i] as u8)
}

/// An ASCII string literal is stored as its characters' byte values.
pub proof fn lemma_ascii_literal(s: &str)
    requires
        vstd::string::is_ascii(s),
    ensures
        s.spec_bytes() == ascii(s@),
{
    vstd::string::is_ascii_spec_bytes(s);
}

/// Character-wise conversion distributes over concatenation.
pub proof fn lemma_ascii_concat(a: Seq<char>, b: Seq<char>)
    ensures
        ascii(a + b) == ascii(a) + ascii(b),
{
    assert(ascii(a + b) =~= ascii(a) + ascii(b));
}

/// The character of a decimal digit `0..=9`.
pub open spec fn digit_char(d: int) -> char {
    (d + 48) as char
}

/// Decimal rendering of `n`, most significant digit first, without leading zeros.
pub open spec fn decimal(n: nat) -> Seq<char>
    decreases n,
{
    if n < 10 {
        seq![digit_char(n as int)]
    } else {
        decimal(n / 10).push(digit_char((n % 10) as int))
    }
}

/// Decimal rendering padded with a leading zero to at least two digits (`{:02}`).
pub open spec fn pad2(n: nat) -> Seq<char> {
    if n < 10 {
        seq!['0', digit_char(n as int)]
    } else {
        decimal(n)
    }
}

/// The one-character string of a decimal digit.
pub fn digit_str(d: u64) -> (s: &'static str)
    requires
        d < 10,
    ensures
        s@ == seq![digit_char(d as int)],
{
    match d {
        0 => {
            proof {
                reveal_strlit("0");
            }
            "0"
        },
        1 => {
            proof {
                reveal_strlit("1");
            }
            "1"
        },
        2 => {
            proof {
                reveal_strlit("2");
            }
            "2"
        },
        3 => {
            proof {
                reveal_strlit("3");
            }
            "3"
        },
        4 => {
            proof {
                reveal_strlit("4");
            }
            "4"
        },
        5 => {
            proof {
                reveal_strlit("5");
            }
            "5"
        },
        6 => {
            proof {
                reveal_strlit("6");
            }
            "6"
        },
        7 => {
            proof {
                reveal_strlit("7");
            }
            "7"
        },
        8 => {
            proof {
                reveal_strlit("8");
            }
            "8"
        },
        _ => {
            proof {
                reveal_strlit("9");
            }
            "9"
        },
    }
}

/// Appends the decimal rendering of `n` (as `format!("{}", n)` writes it).
pub fn push_decimal(s: &mut String, n: u64)
    ensures
        final(s)@ == old(s)@ + decimal(n as nat),
    decreases n,
{
    if n >= 10 {
        push_decimal(s, n / 10);
    }
    s.append(digit_str(n % 10));
}

/// Appends `n` padded to at least two digits (as `format!("{:02}", n)` writes it).
pub fn push_pad2(s: &mut String, n: u64)
    ensures
        final(s)@ == old(s)@ + pad2(n as nat),
{
    if n < 10 {
        proof {
            reveal_strlit("0");
        }
        s.append("0");
    }
    push_decimal(s, n);
}

/// `HH:MM:SS` rendering of a seconds count, each field at least two digits
/// (hours are not wrapped, so large counts print more hour digits).
pub open spec fn hms(secs: nat) -> Seq<char> {
    pad2(secs / 3600) + seq![':'] + pad2((secs % 3600) / 60) + seq![':'] + pad2(secs % 60)
}

/// Renders a seconds count as `HH:MM:SS` (`format!("{:02}:{:02}:{:02}", ..)`).
pub fn hms_string(secs: u32) -> (s: String)
    ensures
        s@ == hms(secs as nat),
{
    let mut s = String::new();
    push_pad2(&mut s, (secs / 3600) as u64);
    proof {
        reveal_strlit(":");
    }
    s.append(":");
    push_pad2(&mut s, ((secs % 3600) / 60) as u64);
    s.append(":");
    push_pad2(&mut s, (secs % 60) as u64);
    s
}

/// The decimal rendering of `n` as a new string.
pub fn decimal_string(n: u64) -> (s: String)
    ensures
        s@ == decimal(n as nat),
{
    let mut s = String::new();
    push_decimal(&mut s, n);
    s
}

/// Whether `a` and `b` hold the same bytes.
pub fn bytes_eq(a: &[u8], b: &[u8]) -> (r: bool)
    ensures
        r == (a@ == b@),
{
    if a.len() != b.len() {
        return false;
    }
    let mut i: usize = 0;
    while i < a.len()
        invariant
            a@.len() == b@.len(),
            i <= a@.len(),
            forall|j: int| 0 <= j < i ==> a@[j] == b@[j],
        decreases a@.len() - i,
    {
        if a[i] != b[i] {
            return false;
        }
        i = i + 1;
    }
    assert(a@ =~= b@);
    true
}

/// Whether the bytes of `a` from `start` on begin with `p`.
pub fn has_at(a: &[u8], start: usize, p: &[u8]) -> (r: bool)
    requires
        start <= a@.len(),
    ensures
        r == (start + p@.len() <= a@.len() && a@.subrange(start as int, start + p@.len()) == p@),
{
    if p.len() > a.len() - start {
        return false;
    }
    let alen = a.len();
    let mut i: usize = 0;
    while i < p.len()
        invariant
            alen == a@.len(),
            start + p@.len() <= a@.len(),
            i <= p@.len(),
            forall|j: int| 0 <= j < i ==> a@[start + j] == p@[j],
        decreases p@.len() - i,
    {
        if a[start + i] != p[i] {
            assert(a@.subrange(start as int, start + p@.len())[i as int] != p@[i as int]);
            return false;
        }
        i = i + 1;
    }
    assert(a@.subrange(start as int, start + p@.len()) =~= p@);
    true
}

/// ASCII lower-casing of one byte (other bytes are unchanged).
pub open spec fn ascii_lower(c: u8) -> u8 {
    if 65 <= c <= 90 {
        (c + 32) as u8
    } else {
        c
    }
}

/// Equality of two byte strings ignoring ASCII case (`eq_ignore_ascii_case`).
pub open spec fn eq_ignore_case(a: Seq<u8>, b: Seq<u8>) -> bool {
    a.len() == b.len() && forall|i: int| 0 <= i < a.len() ==> ascii_lower(a[i]) == ascii_lower(b[i])
}

fn lower(c: u8) -> (r: u8)
    ensures
        r == ascii_lower(c),
{
    if 65 <= c && c <= 90 {
        c + 32
    } else {
        c
    }
}

/// Compares two byte strings ignoring ASCII case.
pub fn bytes_eq_ignore_case(a: &[u8], b: &[u8]) -> (r: bool)
    ensures
        r == eq_ignore_case(a@, b@),
{
    if a.len() != b.len() {
        return false;
    }
    let mut i: usize = 0;
    while i < a.len()
        invariant
            a@.len() == b@.len(),
            i <= a@.len(),
            forall|j: int| 0 <= j < i ==> ascii_lower(a@[j]) == ascii_lower(b@[j]),
        decreases a@.len() - i,
    {
        if lower(a[i]) != lower(b[i]) {
            return false;
        }
        i = i + 1;
    }
    true
}

/// Whether a byte is an ASCII decimal digit.
pub open spec fn is_digit(c: u8) -> bool {
    48 <= c <= 57
}

/// The value of a run of ASCII digits.
pub open spec fn digits_value(s: Seq<u8>) -> nat
    decreases s.len(),
{
    if s.len() == 0 {
        0
    } else {
        digits_value(s.drop_last()) * 10 + (s.last() - 48) as nat
    }
}

/// Whether every byte of `s` is an ASCII digit.
pub open spec fn all_digits(s: Seq<u8>) -> bool {
    forall|i: int| 0 <= i < s.len() ==> is_digit(#[trigger] s[i])
}

/// `s` without its leading `+`, if it has one.
pub open spec fn unsigned_part(s: Seq<u8>) -> Seq<u8> {
    if s.len() > 0 && s[0] == 43 {
        s.drop_first()
    } else {
        s
    }
}

/// The number `str::parse` reads from `s` for an unsigned type whose
/// largest value is `max`: an optional `+` followed by at least one digit
/// and nothing else, no larger than `max`.
pub open spec fn parse_unsigned_spec(s: Seq<u8>, max: nat) -> Option<nat> {
    let d = unsigned_part(s);
    if d.len() > 0 && all_digits(d) && digits_value(d) <= max {
        Some(digits_value(d))
    } else {
        None
    }
}

/// The number `str::parse::<usize>()` reads from `s`.
pub open spec fn parse_usize_spec(s: Seq<u8>) -> Option<usize> {
    match parse_unsigned_spec(s, usize::MAX as nat) {
        Some(v) => Some(v as usize),
        None => None,
    }
}

proof fn lemma_digits_value_push(s: Seq<u8>, c: u8)
    ensures
        digits_value(s.push(c)) == digits_value(s) * 10 + (c - 48) as nat,
{
    assert(s.push(c).drop_last() =~= s);
}

proof fn lemma_digits_value_grows(s: Seq<u8>, k: int)
    requires
        0 <= k <= s.len(),
        all_digits(s),
    ensures
        digits_value(s.take(k)) <= digits_value(s),
    decreases s.len() - k,
{
    if k < s.len() {
        lemma_digits_value_grows(s, k + 1);
        assert(s.take(k + 1) =~= s.take(k).push(s[k]));
        lemma_digits_value_push(s.take(k), s[k]);
    } else {
        assert(s.take(k) =~= s);
    }
}

/// Parses bytes as `str::parse` does for an unsigned type whose largest
/// value is `max`.
pub fn parse_unsigned(s: &[u8], max: usize) -> (r: Option<usize>)
    ensures
        match r {
            Some(v) => parse_unsigned_spec(s@, max as nat) == Some(v as nat),
            None => parse_unsigned_spec(s@, max as nat) is None,
        },
{
    let ghost d = unsigned_part(s@);
    let start: usize = if s.len() > 0 && s[0] == 43 {
        1
    } else {
        0
    };
    assert(d =~= s@.subrange(start as int, s@.len() as int));
    if start >= s.len() {
        return None;
    }
    let mut i: usize = start;
    let mut v: usize = 0;
    while i < s.len()
        invariant
            start <= i <= s@.len(),
            d == unsigned_part(s@),
            d =~= s@.subrange(start as int, s@.len() as int),
            forall|j: int| start <= j < i ==> is_digit(s@[j]),
            v as nat == digits_value(d.take(i - start)),
            v <= max,
        decreases s@.len() - i,
    {
        let c = s[i];
        if c < 48 || c > 57 {
            assert(!is_digit(d[i - start]));
            assert(!all_digits(d));
            return None;
        }
        assert(d.take(i + 1 - start) =~= d.take(i - start).push(c));
        proof {
            lemma_digits_value_push(d.take(i - start), c);
        }
        let next = match v.checked_mul(10) {
            None => None,
            Some(t) => t.checked_add((c - 48) as usize),
        };
        match next {
            Some(u) if u <= max => {
                v = u;
            },
            _ => {
                proof {
                    assert(digits_value(d.take(i + 1 - start)) > max);
                    if all_digits(d) {
                        lemma_digits_value_grows(d, i + 1 - start);
                    }
                }
                return None;
            },
        }
        i = i + 1;
    }
    assert(d.take(i - start) =~= d);
    Some(v)
}

/// Parses bytes as `str::parse::<usize>()` does.
pub fn parse_usize(s: &[u8]) -> (r: Option<usize>)
    ensures
        r == parse_usize_spec(s@),
{
    parse_unsigned(s, usize::MAX)
}

/// Bytes of a decimal rendering are digits.
pub open spec fn digit_bytes(n: nat) -> Seq<u8> {
    ascii(decimal(n))
}

proof fn lemma_digit_char(d: int)
    requires
        0 <= d < 10,
    ensures
        digit_char(d) as u8 == d + 48,
{
}

/// Reading back a rendered number gives the number: the digits of
/// `decimal(n)` have value `n`.
pub proof fn lemma_decimal_digits_value(n: nat)
    ensures
        digits_value(digit_bytes(n)) == n,
        all_digits(digit_bytes(n)),
        digit_bytes(n).len() >= 1,
        digit_bytes(n)[0] != 43,
    decreases n,
{
    if n >= 10 {
        lemma_decimal_digits_value(n / 10);
        lemma_digit_char((n % 10) as int);
        let db = digit_bytes(n);
        assert(db.drop_last() =~= digit_bytes(n / 10));
        assert(db.last() == (n % 10) + 48);
        assert(digits_value(db) == digits_value(db.drop_last()) * 10 + (db.last() - 48) as nat);
        assert forall|i: int| 0 <= i < db.len() implies is_digit(#[trigger] db[i]) by {
            if i < db.len() - 1 {
                assert(db[i] == digit_bytes(n / 10)[i]);
            }
        }
        assert(db[0] == digit_bytes(n / 10)[0]);
    } else {
        lemma_digit_char(n as int);
        let db = digit_bytes(n);
        assert(db =~= seq![(n + 48) as u8]);
        assert(db.drop_last() =~= Seq::<u8>::empty());
        assert(digits_value(db) == digits_value(db.drop_last()) * 10 + (db.last() - 48) as nat);
    }
}

/// Parsing the decimal rendering of a number gives the number back.
pub proof fn lemma_parse_decimal(n: nat, max: nat)
    requires
        n <= max,
    ensures
        parse_unsigned_spec(digit_bytes(n), max) == Some(n),
{
    lemma_decimal_digits_value(n);
}

proof fn lemma_decimal_chars(n: nat)
    ensures
        forall|i: int| 0 <= i < decimal(n).len() ==> '0' <= #[trigger] decimal(n)[i] <= '9',
    decreases n,
{
    if n >= 10 {
        lemma_decimal_chars(n / 10);
        let d = decimal(n);
        assert forall|i: int| 0 <= i < d.len() implies '0' <= #[trigger] d[i] <= '9' by {
            if i < d.len() - 1 {
                assert(d[i] == decimal(n / 10)[i]);
            }
        }
    }
}

/// A decimal rendering is ASCII, so its UTF-8 bytes are its digit bytes.
pub proof fn lemma_decimal_ascii(n: nat)
    ensures
        encode_utf8(decimal(n)) == digit_bytes(n),
{
    lemma_decimal_chars(n);
    assert(is_ascii_chars(decimal(n)));
    is_ascii_chars_encode_utf8(decimal(n));
    assert(encode_utf8(decimal(n)) =~= digit_bytes(n));
}

} // verus!
