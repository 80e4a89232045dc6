//! Decimal numbers as text: how a position is written and how it is read.

use vstd::prelude::*;

verus! {

/// Why a text is not the decimal form of a position.
#[derive(Clone, Copy, Debug, PartialEq, Eq, Structural)]
pub enum NumberError {
    /// The text is empty.
    Empty,
    /// The text holds a character that is no decimal digit, or only a sign.
    InvalidDigit,
    /// The digits denote a number above `usize::MAX`.
    Overflow,
}

/// The decimal digits `0` to `9`.
pub open spec fn is_digit(c: char) -> bool {
    48 <= c as u32 <= 57
}

/// The value of a decimal digit.
pub open spec fn digit_value(c: char) -> nat {
    (c as u32 - 48) as nat
}

/// The digit that stands for `d`, for `d` below ten.
pub open spec fn digit_char(d: nat) -> char {
    (48 + d) as char
}

/// The decimal form of `n`, without sign or leading zeros.
pub open spec fn decimal(n: nat) -> Seq<char>
    decreases n,
{
    if n < 10 {
        seq![digit_char(n)]
    } else {
        decimal(n / 10).push(digit_char(n % 10))
    }
}

/// The value of a run of digits read from the left, as far as it stays within
/// `usize`. The first character that is no digit gives `InvalidDigit`; the
/// first digit that takes the value above `usize::MAX` gives `Overflow`.
pub open spec fn scan_digits(s: Seq<char>) -> Result<nat, NumberError>
    decreases s.len(),
{
    if s.len() == 0 {
        Ok(0)
    } else {
        match scan_digits(s.drop_last()) {
            Err(e) => Err(e),
            Ok(v) => if !is_digit(s.last()) {
                Err(NumberError::InvalidDigit)
            } else if v * 10 + digit_value(s.last()) > usize::MAX {
                Err(NumberError::Overflow)
            } else {
                Ok(v * 10 + digit_value(s.last()))
            },
        }
    }
}

/// The position that `s` denotes: an optional `+`, then one or more decimal
/// digits whose value fits `usize`.
pub open spec fn number_of(s: Seq<char>) -> Result<usize, NumberError> {
    if s.len() == 0 {
        Err(NumberError::Empty)
    } else {
        let digits = if s[0] == '+' {
            s.drop_first()
        } else {
            s
        };
        if digits.len() == 0 {
            Err(NumberError::InvalidDigit)
        } else {
            match scan_digits(digits) {
                Ok(v) => Ok(v as usize),
                Err(e) => Err(e),
            }
        }
    }
}

/// What a user is told about a number that could not be read.
pub open spec fn number_error_text(e: NumberError) -> Seq<char> {
    match e {
        NumberError::Empty => "cannot parse integer from empty string"@,
        NumberError::InvalidDigit => "invalid digit found in string"@,
        NumberError::Overflow => "number too large to fit in target type"@,
    }
}

/// An error met in a prefix is the error of the whole text.
pub proof fn lemma_scan_error_stays(s: Seq<char>, k: int)
    requires
        0 <= k <= s.len(),
        scan_digits(s.take(k)) is Err,
    ensures
        scan_digits(s) == scan_digits(s.take(k)),
    decreases s.len() - k,
{
    if k == s.len() {
        assert(s.take(k) =~= s);
    } else {
        assert(s.take(k + 1).drop_last() =~= s.take(k));
        lemma_scan_error_stays(s, k + 1);
    }
}

/// The decimal form is made of digits alone and is never empty.
pub proof fn lemma_decimal_digits(n: nat)
    ensures
        decimal(n).len() >= 1,
        forall|i: int| 0 <= i < decimal(n).len() ==> is_digit(#[trigger] decimal(n)[i]),
    decreases n,
{
    if n >= 10 {
        lemma_decimal_digits(n / 10);
    }
}

/// Reading the decimal form of a position gives the position back.
pub proof fn lemma_decimal_round_trip(n: nat)
    requires
        n <= usize::MAX,
    ensures
        scan_digits(decimal(n)) == Ok::<nat, NumberError>(n),
        number_of(decimal(n)) == Ok::<usize, NumberError>(n as usize),
    decreases n,
{
    lemma_decimal_digits(n);
    let s = decimal(n);
    if n >= 10 {
        lemma_decimal_round_trip(n / 10);
        assert(s.drop_last() =~= decimal(n / 10));
        assert(s.last() == digit_char(n % 10));
        assert(digit_value(digit_char(n % 10)) == n % 10);
        assert(scan_digits(s.drop_last()) == Ok::<nat, NumberError>(n / 10));
    } else {
        assert(s.drop_last() =~= Seq::<char>::empty());
        assert(s.last() == digit_char(n));
        assert(digit_value(digit_char(n)) == n);
        assert(scan_digits(s.drop_last()) == Ok::<nat, NumberError>(0));
    }
    assert(is_digit(s.last()));
    assert(scan_digits(s) == Ok::<nat, NumberError>(n));
    assert(is_digit(s[0]));
    assert(s[0] != '+');
}

impl NumberError {
    /// What a user is told about this error.
    pub fn message(&self) -> (s: String)
        ensures
            s@ == number_error_text(*self),
    {
        match self {
            NumberError::Empty => "cannot parse integer from empty string".to_owned(),
            NumberError::InvalidDigit => "invalid digit found in string".to_owned(),
            NumberError::Overflow => "number too large to fit in target type".to_owned(),
        }
    }
}

/// Two numbers with one decimal form are one number.
pub proof fn lemma_decimal_injective(a: nat, b: nat)
    requires
        decimal(a) == decimal(b),
    ensures
        a == b,
    decreases a,
{
    lemma_decimal_digits(a);
    lemma_decimal_digits(b);
    if a < 10 {
        if b >= 10 {
            lemma_decimal_digits(b / 10);
            assert(decimal(b).len() >= 2);
        }
        assert(decimal(a)[0] == digit_char(a));
        assert(decimal(b)[0] == digit_char(b));
    } else {
        lemma_decimal_digits(a / 10);
        assert(decimal(a).len() >= 2);
        assert(b >= 10);
        assert(decimal(a).drop_last() =~= decimal(a / 10));
        assert(decimal(b).drop_last() =~= decimal(b / 10));
        lemma_decimal_injective(a / 10, b / 10);
        assert(decimal(a).last() == digit_char(a % 10));
        assert(decimal(b).last() == digit_char(b % 10));
    }
}

/// The decimal form of a counter.
pub fn counter_chars(n: u128) -> (v: Vec<char>)
    ensures
        v@ == decimal(n as nat),
    decreases n,
{
    if n < 10 {
        let d: u8 = n as u8;
        let c: char = (48u8 + d) as char;
        let mut v: Vec<char> = Vec::new();
        v.push(c);
        assert(v@ =~= seq![digit_char(n as nat)]);
        v
    } else {
        let mut v = counter_chars(n / 10);
        let d: u8 = (n % 10) as u8;
        let c: char = (48u8 + d) as char;
        v.push(c);
        v
    }
}

/// The decimal form of `n`.
pub fn decimal_chars(n: usize) -> (v: Vec<char>)
    ensures
        v@ == decimal(n as nat),
    decreases n,
{
    if n < 10 {
        let d: u8 = n as u8;
        let c: char = (48u8 + d) as char;
        let mut v: Vec<char> = Vec::new();
        v.push(c);
        assert(v@ =~= seq![digit_char(n as nat)]);
        v
    } else {
        let mut v = decimal_chars(n / 10);
        let d: u8 = (n % 10) as u8;
        let c: char = (48u8 + d) as char;
        v.push(c);
        v
    }
}

/// Reads a position from `v`.
pub fn parse_number(v: &Vec<char>) -> (r: Result<usize, NumberError>)
    ensures
        r == number_of(v@),
{
    if v.len() == 0 {
        return Err(NumberError::Empty);
    }
    let start: usize = if v[0] == '+' {
        1
    } else {
        0
    };
    if start == v.len() {
        return Err(NumberError::InvalidDigit);
    }
    let ghost digits = v@.subrange(start as int, v.len() as int);
    assert(digits =~= if v@[0] == '+' {
        v@.drop_first()
    } else {
        v@
    });
    let mut acc: usize = 0;
    let mut i: usize = start;
    assert(digits.take(0) =~= Seq::<char>::empty());
    while i < v.len()
        invariant
            start <= i <= v.len(),
            digits == v@.subrange(start as int, v.len() as int),
            v.len() > 0,
            digits.len() > 0,
            digits == if v@[0] == '+' {
                v@.drop_first()
            } else {
                v@
            },
            scan_digits(digits.take(i - start)) == Ok::<nat, NumberError>(acc as nat),
        decreases v.len() - i,
    {
        let c = v[i];
        let n: u32 = c as u32;
        proof {
            assert(digits.take(i - start + 1).drop_last() =~= digits.take(i - start));
            assert(digits.take(i - start + 1).last() == c);
        }
        if n < 48 || n > 57 {
            proof {
                assert(!is_digit(c));
                assert(scan_digits(digits.take(i - start + 1)) == Err::<nat, NumberError>(
                    NumberError::InvalidDigit,
                ));
                lemma_scan_error_stays(digits, i - start + 1);
            }
            return Err(NumberError::InvalidDigit);
        }
        let d: usize = (n - 48) as usize;
        assert(is_digit(c) && digit_value(c) == d);
        if acc > (usize::MAX - d) / 10 {
            proof {
                assert(acc * 10 + d > usize::MAX);
                assert(scan_digits(digits.take(i - start + 1)) == Err::<nat, NumberError>(
                    NumberError::Overflow,
                ));
                lemma_scan_error_stays(digits, i - start + 1);
            }
            return Err(NumberError::Overflow);
        }
        acc = acc * 10 + d;
        i += 1;
    }
    assert(digits.take(i - start) =~= digits);
    Ok(acc)
}

} // verus!
