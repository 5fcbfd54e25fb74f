//! Whole numbers as decimal text.
use vstd::prelude::*;

use crate::text::chars_of;

verus! {

/// The character of a digit.
pub open spec fn digit(d: int) -> char {
    (48 + d) as u8 as char
}

/// A number in decimal notation.
pub open spec fn dec(n: nat) -> Seq<char>
    decreases n,
{
    if n < 10 {
        seq![digit(n as int)]
    } else {
        dec(n / 10).push(digit((n % 10) as int))
    }
}

/// A signed number in decimal notation.
pub open spec fn signed_dec(n: int) -> Seq<char> {
    if n < 0 {
        seq!['-'] + dec((-n) as nat)
    } else {
        dec(n as nat)
    }
}

/// The character of a digit.
fn digit_char(d: u64) -> (c: char)
    requires
        d < 10,
    ensures
        c == digit(d as int),
{
    (48u8 + d as u8) as char
}

/// A number in decimal notation.
pub fn decimal(n: u64) -> (r: String)
    ensures
        r@ == dec(n as nat),
    decreases n,
{
    if n < 10 {
        let mut s = String::new();
        s.push(digit_char(n));
        proof {
            assert(s@ =~= dec(n as nat));
        }
        s
    } else {
        let mut s = decimal(n / 10);
        s.push(digit_char(n % 10));
        s
    }
}

/// A signed number in decimal notation.
pub fn signed_decimal(n: i64) -> (r: String)
    ensures
        r@ == signed_dec(n as int),
{
    if n < 0 {
        let mut s = String::new();
        s.push('-');
        let m: u64 = if n == i64::MIN {
            9223372036854775808
        } else {
            (-n) as u64
        };
        let d = decimal(m);
        s.append(d.as_str());
        proof {
            assert(s@ =~= signed_dec(n as int));
        }
        s
    } else {
        decimal(n as u64)
    }
}

/// Whether a character is a decimal digit.
pub open spec fn is_digit(c: char) -> bool {
    48 <= c as u32 <= 57
}

/// The number that digits stand for.
pub open spec fn digits_value(s: Seq<char>) -> nat
    decreases s.len(),
{
    if s.len() == 0 {
        0
    } else {
        digits_value(s.drop_last()) * 10 + (s.last() as u32 - 48) as nat
    }
}

/// Whether a text is one or more decimal digits.
pub open spec fn all_digits(s: Seq<char>) -> bool {
    s.len() > 0 && forall|i: int| 0 <= i < s.len() ==> is_digit(#[trigger] s[i])
}

/// The number that a text without a sign, or with a leading plus sign, stands
/// for, where it does not exceed `max`.
pub open spec fn unsigned_value(s: Seq<char>, max: nat) -> Option<nat> {
    let t = if s.len() > 0 && s[0] == '+' {
        s.drop_first()
    } else {
        s
    };
    if all_digits(t) && digits_value(t) <= max {
        Some(digits_value(t))
    } else {
        None
    }
}

/// The number that a text with an optional sign stands for, where an `i64`
/// holds it.
pub open spec fn signed_value(s: Seq<char>) -> Option<int> {
    if s.len() > 0 && s[0] == '-' {
        let t = s.drop_first();
        if all_digits(t) && digits_value(t) <= 9223372036854775808 {
            Some(-(digits_value(t) as int))
        } else {
            None
        }
    } else {
        match unsigned_value(s, i64::MAX as nat) {
            Some(n) => Some(n as int),
            None => None,
        }
    }
}

/// More digits stand for no smaller number.
pub proof fn lemma_digits_grow(s: Seq<char>, k: int)
    requires
        0 <= k <= s.len(),
    ensures
        digits_value(s.take(k)) <= digits_value(s),
    decreases s.len() - k,
{
    if k == s.len() {
        assert(s.take(k) =~= s);
    } else {
        lemma_digits_grow(s, k + 1);
        assert(s.take(k + 1).drop_last() =~= s.take(k));
    }
}

/// The value of the digits from `from` on, where there is one and it does not
/// exceed `max`.
fn read_digits(v: &Vec<char>, from: usize, max: u64) -> (r: Option<u64>)
    requires
        from <= v@.len(),
    ensures
        ({
            let t = v@.skip(from as int);
            r == if all_digits(t) && digits_value(t) <= max {
                Some(digits_value(t) as u64)
            } else {
                None
            }
        }),
{
    let ghost t = v@.skip(from as int);
    if from == v.len() {
        return None;
    }
    let mut i: usize = from;
    let mut n: u64 = 0;
    while i < v.len()
        invariant
            from <= i <= v@.len(),
            t == v@.skip(from as int),
            n == digits_value(t.take(i - from)),
            n <= max,
            forall|j: int| 0 <= j < i - from ==> is_digit(#[trigger] t[j]),
        decreases v@.len() - i,
    {
        let c: u32 = v[i] as u32;
        proof {
            assert(t[i - from] == v@[i as int]);
            assert(t.take(i - from + 1).drop_last() =~= t.take(i - from));
        }
        if c < 48 || c > 57 {
            proof {
                assert(!is_digit(t[i - from]));
            }
            return None;
        }
        let d: u64 = (c - 48) as u64;
        proof {
            lemma_digits_grow(t, i - from + 1);
        }
        if n > (u64::MAX - d) / 10 || n * 10 + d > max {
            proof {
                assert(n * 10 + d > max || n * 10 + d > u64::MAX);
            }
            return None;
        }
        n = n * 10 + d;
        i = i + 1;
    }
    proof {
        assert(t.take(i - from) =~= t);
    }
    Some(n)
}

/// The number that a text stands for, where a `u64` holds it.
pub fn parse_u64(s: &str) -> (r: Option<u64>)
    ensures
        match unsigned_value(s@, u64::MAX as nat) {
            Some(n) => r == Some(n as u64),
            None => r is None,
        },
{
    let v = chars_of(s);
    let from: usize = if v.len() > 0 && v[0] == '+' {
        1
    } else {
        0
    };
    proof {
        assert(s@.skip(0) =~= s@);
        if s@.len() > 0 {
            assert(s@.skip(1) =~= s@.drop_first());
        }
    }
    read_digits(&v, from, u64::MAX)
}

/// The number that a text stands for, where an `i64` holds it.
pub fn parse_i64(s: &str) -> (r: Option<i64>)
    ensures
        match signed_value(s@) {
            Some(n) => r == Some(n as i64),
            None => r is None,
        },
{
    let v = chars_of(s);
    proof {
        assert(s@.skip(0) =~= s@);
        if s@.len() > 0 {
            assert(s@.skip(1) =~= s@.drop_first());
        }
    }
    if v.len() > 0 && v[0] == '-' {
        match read_digits(&v, 1, 9223372036854775808) {
            Some(n) => if n == 9223372036854775808 {
                Some(i64::MIN)
            } else {
                Some(-(n as i64))
            },
            None => None,
        }
    } else {
        let from: usize = if v.len() > 0 && v[0] == '+' {
            1
        } else {
            0
        };
        match read_digits(&v, from, 9223372036854775807) {
            Some(n) => Some(n as i64),
            None => None,
        }
    }
}

/// Reading back a number that was written out in decimal gives the number.
pub proof fn decimal_reads_back(n: nat)
    ensures
        all_digits(dec(n)),
        digits_value(dec(n)) == n,
        dec(n)[0] != '+',
        dec(n)[0] != '-',
        forall|max: nat| n <= max ==> unsigned_value(dec(n), max) == Some(n),
    decreases n,
{
    if n < 10 {
        let s = dec(n);
        assert(s.drop_last() =~= Seq::<char>::empty());
        assert(digits_value(s) == n) by {
            assert(digits_value(s.drop_last()) == 0);
        }
    } else {
        decimal_reads_back(n / 10);
        let s = dec(n);
        assert(s.drop_last() =~= dec(n / 10));
        assert(s.last() as u32 - 48 == n % 10);
        assert forall|i: int| 0 <= i < s.len() implies is_digit(#[trigger] s[i]) by {
            if i < s.len() - 1 {
                assert(s[i] == dec(n / 10)[i]);
            }
        }
        assert(s[0] == dec(n / 10)[0]);
    }
}

/// A hexadecimal digit, in lower case.
pub open spec fn hex_digit(d: int) -> char {
    if d < 10 {
        (48 + d) as u8 as char
    } else {
        (87 + d) as u8 as char
    }
}

/// A number in hexadecimal notation, in lower case.
pub open spec fn hex(n: nat) -> Seq<char>
    decreases n,
{
    if n < 16 {
        seq![hex_digit(n as int)]
    } else {
        hex(n / 16).push(hex_digit((n % 16) as int))
    }
}

/// A number in hexadecimal notation, in lower case.
pub fn hexadecimal(n: u64) -> (r: String)
    ensures
        r@ == hex(n as nat),
    decreases n,
{
    let d: u8 = (n % 16) as u8;
    let c: char = if d < 10 {
        (48u8 + d) as char
    } else {
        (87u8 + d) as char
    };
    let mut s = if n < 16 {
        String::new()
    } else {
        hexadecimal(n / 16)
    };
    s.push(c);
    proof {
        if n < 16 {
            assert(s@ =~= hex(n as nat));
        }
    }
    s
}

/// A number is written digit by digit: one below ten by its digit, and ten times a number
/// and a digit by the number with the digit behind it.
pub proof fn numbers_are_written_digit_by_digit(n: nat, d: nat)
    requires
        d < 10,
    ensures
        dec(d) == seq!["0123456789"@[d as int]],
        n > 0 ==> dec((n * 10 + d) as nat) == dec(n).push("0123456789"@[d as int]),
{
    reveal_strlit("0123456789");
    assert(digit(d as int) == "0123456789"@[d as int]);
    if n > 0 {
        let m = (n * 10 + d) as nat;
        assert(m >= 10 && m / 10 == n && m % 10 == d);
    }
}

/// A number is written in hexadecimal in the same way, with sixteen digits.
pub proof fn hexadecimal_has_sixteen_digits(n: nat, d: nat)
    requires
        d < 16,
    ensures
        hex(d) == seq!["0123456789abcdef"@[d as int]],
        n > 0 ==> hex((n * 16 + d) as nat) == hex(n).push("0123456789abcdef"@[d as int]),
{
    reveal_strlit("0123456789abcdef");
    assert(hex_digit(d as int) == "0123456789abcdef"@[d as int]);
    if n > 0 {
        let m = (n * 16 + d) as nat;
        assert(m >= 16 && m / 16 == n && m % 16 == d);
    }
}

/// A number is read with its sign, and one that is too large is not read. A signed number
/// that was written out reads back.
pub proof fn signs_are_read(n: nat, max: nat, k: i64)
    ensures
        n <= 9223372036854775807 ==> signed_value(dec(n)) == Some(n as int) && signed_value(
            seq!['+'] + dec(n),
        ) == Some(n as int),
        n > 9223372036854775807 ==> signed_value(dec(n)) is None,
        n <= 9223372036854775808 ==> signed_value(seq!['-'] + dec(n)) == Some(-(n as int)),
        n > 9223372036854775808 ==> signed_value(seq!['-'] + dec(n)) is None,
        n <= max ==> unsigned_value(seq!['+'] + dec(n), max) == Some(n),
        n > max ==> unsigned_value(dec(n), max) is None,
        signed_value(signed_dec(k as int)) == Some(k as int),
{
    decimal_reads_back(n);
    assert((seq!['-'] + dec(n)).drop_first() =~= dec(n));
    assert((seq!['+'] + dec(n)).drop_first() =~= dec(n));
    let size = (if k < 0 {
        -(k as int)
    } else {
        k as int
    }) as nat;
    decimal_reads_back(size);
    assert((seq!['-'] + dec(size)).drop_first() =~= dec(size));
}

/// A digit is one of the ten.
proof fn lemma_digits_are_listed(c: char)
    ensures
        is_digit(c) ==> "0123456789"@.contains(c),
{
    reveal_strlit("0123456789");
    if is_digit(c) {
        assert("0123456789"@[c as u32 - 48] == c);
    }
}

/// Only digits, behind a sign or not, are read as a number: the empty text, and a text
/// with any other character in it, is none.
pub proof fn only_digits_are_numbers(s: Seq<char>, i: int, max: nat)
    requires
        0 <= i < s.len(),
        !"0123456789"@.contains(s[i]),
        i > 0 || (s[0] != '+' && s[0] != '-'),
    ensures
        unsigned_value(s, max) is None,
        signed_value(s) is None,
        unsigned_value(seq![], max) is None,
        signed_value(seq![]) is None,
{
    let c = s[i];
    lemma_digits_are_listed(c);
    if i > 0 {
        assert(s.drop_first()[i - 1] == c);
    }
}

} // verus!
