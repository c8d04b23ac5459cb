//! Decimal and hexadecimal numerals: printing numbers and reading them back
//! the way `usize::from_str_radix` does.
use vstd::prelude::*;

verus! {

/// The character of digit `d` (below 16), upper case for 10 and above.
pub open spec fn digit_char(d: nat) -> char {
    if d < 10 {
        ((d + 48) as u8) as char
    } else {
        ((d + 55) as u8) as char
    }
}

/// The numeral of `n` in base `radix`, most significant digit first, with
/// no leading zeros (a lone `0` for zero).
pub open spec fn numeral(n: nat, radix: nat) -> Seq<char>
    recommends
        2 <= radix <= 16,
    decreases n,
{
    if radix < 2 || n < radix {
        seq![digit_char(n)]
    } else {
        proof {
            assert(n / radix < n) by (nonlinear_arith)
                requires
                    radix >= 2,
                    n >= radix,
            ;
        }
        numeral(n / radix, radix).push(digit_char(n % radix))
    }
}

fn digit_of(d: u8) -> (c: char)
    requires
        d < 16,
    ensures
        c == digit_char(d as nat),
{
    if d < 10 {
        (d + 48) as char
    } else {
        (d + 55) as char
    }
}

/// The numeral of `n` in base `radix` (10 for decimal, 16 for upper-case
/// hexadecimal).
pub fn numeral_chars(n: usize, radix: usize) -> (r: Vec<char>)
    requires
        2 <= radix <= 16,
    ensures
        r@ == numeral(n as nat, radix as nat),
    decreases n,
{
    if n < radix {
        vec![digit_of(n as u8)]
    } else {
        assert(n / radix < n) by (nonlinear_arith)
            requires
                radix >= 2,
                n >= radix,
        ;
        let mut r = numeral_chars(n / radix, radix);
        r.push(digit_of((n % radix) as u8));
        r
    }
}

/// The value of ASCII digit `c` in base `radix`, if it is one.
pub open spec fn digit_value(c: char, radix: nat) -> Option<nat> {
    let v: int = if '0' <= c && c <= '9' {
        c as int - 48
    } else if 'a' <= c && c <= 'z' {
        c as int - 87
    } else if 'A' <= c && c <= 'Z' {
        c as int - 55
    } else {
        99
    };
    if 0 <= v < radix {
        Some(v as nat)
    } else {
        None
    }
}

/// Every character of `s` is a digit in base `radix`.
pub open spec fn all_digits(s: Seq<char>, radix: nat) -> bool {
    forall|i: int| 0 <= i < s.len() ==> (#[trigger] digit_value(s[i], radix)) is Some
}

/// The value of the digit string `s` in base `radix`.
pub open spec fn numeral_value(s: Seq<char>, radix: nat) -> nat
    decreases s.len(),
{
    if s.len() == 0 {
        0
    } else {
        numeral_value(s.drop_last(), radix) * radix + match digit_value(s.last(), radix) {
            Some(d) => d,
            None => 0,
        }
    }
}

/// What `usize::from_str_radix(s, radix)` accepts: an optional `+`, then
/// one or more digits, denoting a value that fits in a `usize`.
pub open spec fn parse_unsigned(s: Seq<char>, radix: nat) -> Option<usize> {
    let digits = if s.len() > 0 && s[0] == '+' {
        s.drop_first()
    } else {
        s
    };
    if digits.len() == 0 || !all_digits(digits, radix) {
        None
    } else if numeral_value(digits, radix) > usize::MAX {
        None
    } else {
        Some(numeral_value(digits, radix) as usize)
    }
}

fn char_digit(c: char, radix: u32) -> (r: Option<u32>)
    requires
        2 <= radix <= 16,
    ensures
        match digit_value(c, radix as nat) {
            Some(d) => r == Some(d as u32),
            None => r is None,
        },
{
    let v: u32 = if '0' <= c && c <= '9' {
        (c as u32) - 48
    } else if 'a' <= c && c <= 'z' {
        (c as u32) - 87
    } else if 'A' <= c && c <= 'Z' {
        (c as u32) - 55
    } else {
        99
    };
    if v < radix {
        Some(v)
    } else {
        None
    }
}

proof fn lemma_numeral_value_monotone(s: Seq<char>, radix: nat, k: int)
    requires
        0 <= k <= s.len(),
        radix >= 2,
    ensures
        numeral_value(s.take(k), radix) <= numeral_value(s, radix),
    decreases s.len() - k,
{
    if k < s.len() {
        lemma_numeral_value_monotone(s, radix, k + 1);
        assert(s.take(k + 1).drop_last() =~= s.take(k));
        let v = numeral_value(s.take(k), radix);
        assert(v * radix >= v) by (nonlinear_arith)
            requires
                radix >= 2,
        ;
    } else {
        assert(s.take(k) =~= s);
    }
}

/// Reads an unsigned number in base `radix` as `usize::from_str_radix` does.
pub fn parse_unsigned_chars(s: &Vec<char>, radix: u32) -> (r: Option<usize>)
    requires
        2 <= radix <= 16,
    ensures
        r == parse_unsigned(s@, radix as nat),
{
    let n = s.len();
    let start: usize = if n > 0 && s[0] == '+' {
        1
    } else {
        0
    };
    let ghost digits = if s@.len() > 0 && s@[0] == '+' {
        s@.drop_first()
    } else {
        s@
    };
    assert(digits =~= s@.skip(start as int));
    if start == n {
        return None;
    }
    let mut value: usize = 0;
    let mut i = start;
    while i < n
        invariant
            start <= i <= n,
            n == s@.len(),
            2 <= radix <= 16,
            digits == s@.skip(start as int),
            digits == (if s@.len() > 0 && s@[0] == '+' {
                s@.drop_first()
            } else {
                s@
            }),
            all_digits(s@.subrange(start as int, i as int), radix as nat),
            value == numeral_value(s@.subrange(start as int, i as int), radix as nat),
        decreases n - i,
    {
        let ghost prefix = s@.subrange(start as int, i as int);
        let ghost next = s@.subrange(start as int, i + 1);
        assert(next.drop_last() =~= prefix);
        assert(next.take(prefix.len() as int) =~= prefix);
        match char_digit(s[i], radix) {
            None => {
                assert(digits[i - start] == s@[i as int]);
                assert(digit_value(digits[i - start], radix as nat) is None);
                assert(!all_digits(digits, radix as nat));
                assert(parse_unsigned(s@, radix as nat) is None);
                return None;
            },
            Some(d) => {
                assert(next.last() == s@[i as int]);
                assert(numeral_value(next, radix as nat) == value * radix + d);
                match value.checked_mul(radix as usize) {
                    None => {
                        proof {
                            lemma_numeral_value_monotone(digits, radix as nat, next.len() as int);
                            assert(digits.take(next.len() as int) =~= next);
                        }
                        return None;
                    },
                    Some(m) => {
                        match m.checked_add(d as usize) {
                            None => {
                                proof {
                                    lemma_numeral_value_monotone(
                                        digits,
                                        radix as nat,
                                        next.len() as int,
                                    );
                                    assert(digits.take(next.len() as int) =~= next);
                                }
                                return None;
                            },
                            Some(v) => {
                                value = v;
                            },
                        }
                    },
                }
            },
        }
        i = i + 1;
    }
    assert(s@.subrange(start as int, n as int) =~= digits);
    Some(value)
}

proof fn lemma_digit_char_value(d: nat, radix: nat)
    requires
        d < radix <= 16,
    ensures
        digit_value(digit_char(d), radix) == Some(d),
        digit_char(d) != '+',
{
    if d < 10 {
        assert(((d + 48) as u8) as char as int == d + 48);
    } else {
        assert(((d + 55) as u8) as char as int == d + 55);
    }
}

/// A numeral is a non-empty string of digits of its base, not starting
/// with `+`, whose value is the number it was made from.
pub proof fn lemma_numeral_digits(n: nat, radix: nat)
    requires
        2 <= radix <= 16,
    ensures
        numeral(n, radix).len() > 0,
        numeral(n, radix)[0] != '+',
        all_digits(numeral(n, radix), radix),
        numeral_value(numeral(n, radix), radix) == n,
    decreases n,
{
    let s = numeral(n, radix);
    if n < radix {
        lemma_digit_char_value(n, radix);
        assert(s.drop_last() =~= Seq::<char>::empty());
        assert(numeral_value(s.drop_last(), radix) == 0);
        assert(s.last() == digit_char(n));
    } else {
        assert(n / radix < n) by (nonlinear_arith)
            requires
                radix >= 2,
                n >= radix,
        ;
        lemma_numeral_digits(n / radix, radix);
        lemma_digit_char_value(n % radix, radix);
        let prefix = numeral(n / radix, radix);
        assert(s.drop_last() =~= prefix);
        assert(s[0] == prefix[0]);
        assert forall|i: int| 0 <= i < s.len() implies (#[trigger] digit_value(s[i], radix)) is Some by {
            if i < prefix.len() {
                assert(s[i] == prefix[i]);
            }
        }
        assert((n / radix) * radix + n % radix == n) by (nonlinear_arith)
            requires
                radix >= 2,
        ;
        assert(s.last() == digit_char(n % radix));
        assert(numeral_value(s, radix) == numeral_value(prefix, radix) * radix + n % radix);
    }
}

/// Reading back a numeral gives the number printed: what the server writes
/// as a length (decimal) or a chunk size (hexadecimal), its reader reads as
/// the same number.
pub proof fn law_numeral_reads_back(n: usize, radix: nat)
    requires
        2 <= radix <= 16,
    ensures
        parse_unsigned(numeral(n as nat, radix), radix) == Some(n),
{
    lemma_numeral_digits(n as nat, radix);
}

} // verus!
