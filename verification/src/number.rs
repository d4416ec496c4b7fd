//! Decimal and hexadecimal numerals as the S-expression values of the CCC
//! protocol write them, with the exact acceptance rules of the standard
//! library's unsigned integer parsing.

use vstd::prelude::*;

verus! {

/// The value of digit `c` in base `radix` (10 or 16), if it is one.
pub open spec fn digit_val(c: char, radix: nat) -> Option<nat> {
    let u = c as u32;
    if '0' <= c && c <= '9' && (u - 0x30) < radix {
        Some((u - 0x30) as nat)
    } else if 'a' <= c && c <= 'z' && (u - 0x61 + 10) < radix {
        Some((u - 0x61 + 10) as nat)
    } else if 'A' <= c && c <= 'Z' && (u - 0x41 + 10) < radix {
        Some((u - 0x41 + 10) as nat)
    } else {
        None
    }
}

/// The value of the digit string `s` in base `radix`, if every character is a digit.
pub open spec fn digits_value(s: Seq<char>, radix: nat) -> Option<nat>
    decreases s.len(),
{
    if s.len() == 0 {
        Some(0)
    } else {
        match (digits_value(s.drop_last(), radix), digit_val(s.last(), radix)) {
            (Some(p), Some(d)) => Some(p * radix + d),
            _ => None,
        }
    }
}

/// What `u64::from_str_radix(s, radix)` returns: an optional `+`, then at
/// least one digit, all valid in `radix`, with a value that fits in `u64`.
pub open spec fn spec_parse_radix(s: Seq<char>, radix: nat) -> Option<u64> {
    let d = if s.len() > 0 && s[0] == '+' {
        s.drop_first()
    } else {
        s
    };
    if d.len() == 0 {
        None
    } else {
        match digits_value(d, radix) {
            Some(v) => if v <= u64::MAX {
                Some(v as u64)
            } else {
                None
            },
            None => None,
        }
    }
}

/// How a protocol value is read as a number: decimal first, then
/// hexadecimal after a `0x` prefix.
pub open spec fn spec_parse_number(s: Seq<char>) -> Option<u64> {
    match spec_parse_radix(s, 10) {
        Some(n) => Some(n),
        None => if s.len() >= 2 && s[0] == '0' && s[1] == 'x' {
            spec_parse_radix(s.skip(2), 16)
        } else {
            None
        },
    }
}

fn digit_of(c: char, radix: u32) -> (r: Option<u32>)
    requires
        radix == 10 || radix == 16,
    ensures
        r matches Some(d) ==> digit_val(c, radix as nat) == Some(d as nat) && d < radix,
        r is None ==> digit_val(c, radix as nat) is None,
{
    let u = c as u32;
    if '0' <= c && c <= '9' && (u - 0x30) < radix {
        Some(u - 0x30)
    } else if 'a' <= c && c <= 'z' && (u - 0x61 + 10) < radix {
        Some(u - 0x61 + 10)
    } else if 'A' <= c && c <= 'Z' && (u - 0x41 + 10) < radix {
        Some(u - 0x41 + 10)
    } else {
        None
    }
}

proof fn lemma_digits_prefix(s: Seq<char>, radix: nat, i: int)
    requires
        0 <= i <= s.len(),
        radix >= 1,
        digits_value(s, radix) is Some,
    ensures
        digits_value(s.take(i), radix) is Some,
        digits_value(s.take(i), radix)->0 <= digits_value(s, radix)->0,
    decreases s.len(),
{
    if i < s.len() {
        assert(s.drop_last().take(i) == s.take(i));
        lemma_digits_prefix(s.drop_last(), radix, i);
        let p = digits_value(s.drop_last(), radix)->0;
        let d = digit_val(s.last(), radix)->0;
        assert(p <= p * radix + d) by (nonlinear_arith)
            requires
                radix >= 1,
        ;
    } else {
        assert(s.take(i) == s);
    }
}

/// Reads `s` as an unsigned integer in base `radix` (`u64::from_str_radix`).
pub fn parse_radix(s: &[char], radix: u32) -> (r: Option<u64>)
    requires
        radix == 10 || radix == 16,
    ensures
        r == spec_parse_radix(s@, radix as nat),
{
    let mut start: usize = 0;
    if s.len() > 0 && s[0] == '+' {
        start = 1;
    }
    let ghost d = if s@.len() > 0 && s@[0] == '+' {
        s@.drop_first()
    } else {
        s@
    };
    assert(d == s@.skip(start as int));
    if start >= s.len() {
        return None;
    }
    let mut v: u64 = 0;
    let mut i: usize = start;
    while i < s.len()
        invariant
            start <= i <= s@.len(),
            d == s@.skip(start as int),
            d == (if s@.len() > 0 && s@[0] == '+' {
                s@.drop_first()
            } else {
                s@
            }),
            d.len() > 0,
            radix == 10 || radix == 16,
            digits_value(d.take(i - start), radix as nat) == Some(v as nat),
        decreases s@.len() - i,
    {
        let ghost pre = d.take(i - start);
        let ghost next = d.take(i - start + 1);
        assert(next.drop_last() == pre);
        assert(next.last() == s@[i as int]);
        match digit_of(s[i], radix) {
            None => {
                proof {
                    assert(digits_value(next, radix as nat) is None);
                    if digits_value(d, radix as nat) is Some {
                        lemma_digits_prefix(d, radix as nat, i - start + 1);
                    }
                }
                return None;
            },
            Some(dv) => {
                assert(digits_value(next, radix as nat) == Some((v * radix + dv) as nat));
                let m = v.checked_mul(radix as u64);
                match m {
                    None => {
                        proof {
                            assert(v * radix + dv > u64::MAX) by (nonlinear_arith)
                                requires
                                    v * radix > u64::MAX,
                                    dv >= 0,
                            ;
                            if digits_value(d, radix as nat) is Some {
                                lemma_digits_prefix(d, radix as nat, i - start + 1);
                            }
                        }
                        return None;
                    },
                    Some(m) => {
                        match m.checked_add(dv as u64) {
                            None => {
                                proof {
                                    if digits_value(d, radix as nat) is Some {
                                        lemma_digits_prefix(d, radix as nat, i - start + 1);
                                    }
                                }
                                return None;
                            },
                            Some(nv) => {
                                v = nv;
                            },
                        }
                    },
                }
            },
        }
        i = i + 1;
    }
    assert(d.take(i - start) == d);
    Some(v)
}

/// Reads a protocol value as a number: decimal, or hexadecimal after `0x`.
pub fn parse_number_chars(s: &[char]) -> (r: Option<u64>)
    ensures
        r == spec_parse_number(s@),
{
    match parse_radix(s, 10) {
        Some(n) => Some(n),
        None => {
            if s.len() >= 2 && s[0] == '0' && s[1] == 'x' {
                let mut rest: Vec<char> = Vec::new();
                let mut i: usize = 2;
                while i < s.len()
                    invariant
                        2 <= i <= s@.len(),
                        rest@ == s@.subrange(2, i as int),
                    decreases s@.len() - i,
                {
                    rest.push(s[i]);
                    i = i + 1;
                }
                assert(rest@ == s@.skip(2));
                parse_radix(rest.as_slice(), 16)
            } else {
                None
            }
        },
    }
}

/// The character of decimal digit `d`.
pub open spec fn digit_char(d: nat) -> char {
    (0x30 + d) as char
}

/// The decimal numeral of `n`, without sign or leading zeros.
pub open spec fn decimal(n: nat) -> Seq<char>
    decreases n,
{
    if n < 10 {
        seq![digit_char(n)]
    } else {
        decimal(n / 10).push(digit_char(n % 10))
    }
}

/// The numeral `i64` values render to: `-` before the magnitude of negatives.
pub open spec fn signed_decimal(v: int) -> Seq<char> {
    if v < 0 {
        seq!['-'] + decimal((-v) as nat)
    } else {
        decimal(v as nat)
    }
}

fn digit_char_exec(d: u64) -> (r: char)
    requires
        d < 10,
    ensures
        r == digit_char(d as nat),
{
    ((0x30u8 + d as u8) as char)
}

/// The decimal numeral of `n` (`u64::to_string`).
pub fn decimal_chars(n: u64) -> (r: Vec<char>)
    ensures
        r@ == decimal(n as nat),
{
    let mut rev: Vec<char> = Vec::new();
    let mut v: u64 = n;
    let ghost mut acc: Seq<char> = Seq::empty();
    loop
        invariant_except_break
            decimal(n as nat) == decimal(v as nat) + acc,
            rev@ == acc.reverse(),
        ensures
            decimal(n as nat) == acc,
            rev@ == acc.reverse(),
        decreases v,
    {
        let c = digit_char_exec(v % 10);
        proof {
            if v >= 10 {
                assert(decimal(v as nat) == decimal((v / 10) as nat).push(c));
                assert(decimal(v as nat) + acc == decimal((v / 10) as nat) + (seq![c] + acc));
            } else {
                assert(decimal(v as nat) == seq![c]);
                assert(decimal(v as nat) + acc == Seq::<char>::empty() + (seq![c] + acc));
            }
            assert((seq![c] + acc).reverse() == acc.reverse().push(c));
            acc = seq![c] + acc;
        }
        rev.push(c);
        if v < 10 {
            break;
        }
        v = v / 10;
    }
    let mut r: Vec<char> = Vec::new();
    let mut i: usize = rev.len();
    while i > 0
        invariant
            i <= rev@.len(),
            rev@ == acc.reverse(),
            r@ == acc.take(rev@.len() - i),
        decreases i,
    {
        i = i - 1;
        r.push(rev[i]);
        assert(acc.take(rev@.len() - i) == acc.take(rev@.len() - i - 1).push(acc[rev@.len() - i - 1]));
    }
    assert(acc.take(acc.len() as int) == acc);
    r
}

/// The numeral of `v` (`i64::to_string`).
pub fn signed_decimal_chars(v: i64) -> (r: Vec<char>)
    ensures
        r@ == signed_decimal(v as int),
{
    if v < 0 {
        let mag: u64 = if v == i64::MIN {
            0x8000_0000_0000_0000u64
        } else {
            (-v) as u64
        };
        let digits = decimal_chars(mag);
        let mut r: Vec<char> = vec!['-'];
        let mut i: usize = 0;
        while i < digits.len()
            invariant
                i <= digits@.len(),
                r@ == seq!['-'] + digits@.take(i as int),
            decreases digits@.len() - i,
        {
            r.push(digits[i]);
            assert(digits@.take(i + 1) == digits@.take(i as int).push(digits@[i as int]));
            i = i + 1;
        }
        assert(digits@.take(digits@.len() as int) == digits@);
        r
    } else {
        decimal_chars(v as u64)
    }
}

proof fn lemma_digit_char(d: nat)
    requires
        d < 10,
    ensures
        digit_val(digit_char(d), 10) == Some(d),
        digit_char(d) != '+',
{
    let c = digit_char(d);
    assert(c as u32 == 0x30 + d);
}

proof fn lemma_decimal_digits(n: nat)
    ensures
        digits_value(decimal(n), 10) == Some(n),
        decimal(n).len() > 0,
        decimal(n)[0] != '+',
    decreases n,
{
    lemma_digit_char(n % 10);
    if n >= 10 {
        lemma_decimal_digits(n / 10);
        let s = decimal(n);
        assert(s.drop_last() == decimal(n / 10));
        assert(s[0] == decimal(n / 10)[0]);
        assert(digits_value(s, 10) == Some((n / 10) * 10 + n % 10));
    } else {
        let s = decimal(n);
        assert(s.drop_last() =~= Seq::<char>::empty());
        assert(digits_value(s.drop_last(), 10) == Some(0nat));
        assert(s.last() == digit_char(n));
        assert(digits_value(s, 10) == Some(n));
    }
}

/// Every `u64` written in decimal reads back as itself.
pub proof fn law_decimal_parse_roundtrip(n: u64)
    ensures
        spec_parse_number(decimal(n as nat)) == Some(n),
{
    lemma_decimal_digits(n as nat);
}

} // verus!
