//! Decimal numbers in text.

use vstd::prelude::*;
use vstd::string::*;

use crate::text::chars_of;

verus! {

/// The decimal digit for a value below ten.
pub open spec fn digit(d: nat) -> char {
    (48 + d) as char
}

/// `n` written in decimal, without leading zeros.
pub open spec fn decimal(n: nat) -> Seq<char>
    decreases n,
{
    if n < 10 {
        seq![digit(n)]
    } else {
        decimal(n / 10).push(digit(n % 10))
    }
}

fn digit_text(d: u64) -> (r: &'static str)
    requires
        d < 10,
    ensures
        r@ == seq![digit(d as nat)],
{
    proof {
        reveal_strlit("0");
        reveal_strlit("1");
        reveal_strlit("2");
        reveal_strlit("3");
        reveal_strlit("4");
        reveal_strlit("5");
        reveal_strlit("6");
        reveal_strlit("7");
        reveal_strlit("8");
        reveal_strlit("9");
    }
    let r = if d == 0 {
        "0"
    } else if d == 1 {
        "1"
    } else if d == 2 {
        "2"
    } else if d == 3 {
        "3"
    } else if d == 4 {
        "4"
    } else if d == 5 {
        "5"
    } else if d == 6 {
        "6"
    } else if d == 7 {
        "7"
    } else if d == 8 {
        "8"
    } else {
        "9"
    };
    assert(r@ =~= seq![digit(d as nat)]);
    r
}

/// Writes `n` in decimal.
pub fn decimal_text(n: u64) -> (r: String)
    ensures
        r@ == decimal(n as nat),
    decreases n,
{
    if n < 10 {
        digit_text(n).to_owned()
    } else {
        let mut out = decimal_text(n / 10);
        out.append(digit_text(n % 10));
        assert(out@ =~= decimal((n / 10) as nat).push(digit((n % 10) as nat)));
        out
    }
}

/// `c` is a decimal digit.
pub open spec fn is_digit(c: char) -> bool {
    48 <= c as int <= 57
}

/// Every character of `s` is a decimal digit.
pub open spec fn all_digits(s: Seq<char>) -> bool {
    forall|i: int| 0 <= i < s.len() ==> is_digit(#[trigger] s[i])
}

/// The number that a sequence of decimal digits denotes.
pub open spec fn digits_value(s: Seq<char>) -> int
    decreases s.len(),
{
    if s.len() == 0 {
        0
    } else {
        digits_value(s.drop_last()) * 10 + (s.last() as int - 48)
    }
}

/// `s` without the plus sign that it may begin with.
pub open spec fn unsigned_part(s: Seq<char>) -> Seq<char> {
    if s.len() > 0 && s[0] == '+' {
        s.drop_first()
    } else {
        s
    }
}

/// The number that `s` denotes: one or more decimal digits, with or without a plus
/// sign before them, whose value an unsigned integer of 32 bits can hold.
pub open spec fn number(s: Seq<char>) -> Option<u32> {
    let t = unsigned_part(s);
    if t.len() > 0 && all_digits(t) && digits_value(t) <= u32::MAX {
        Some(digits_value(t) as u32)
    } else {
        None
    }
}

proof fn digits_value_grows(s: Seq<char>, k: int)
    requires
        all_digits(s),
        0 <= k <= s.len(),
    ensures
        0 <= digits_value(s.take(k)) <= digits_value(s),
    decreases s.len(),
{
    if s.len() == 0 {
        assert(s.take(k) =~= s);
    } else {
        let t = s.drop_last();
        assert(is_digit(s[s.len() - 1]));
        assert forall|i: int| 0 <= i < t.len() implies is_digit(#[trigger] t[i]) by {
            assert(is_digit(s[i]));
        }
        if k < s.len() {
            digits_value_grows(t, k);
            assert(t.take(k) =~= s.take(k));
        } else {
            digits_value_grows(t, t.len() as int);
            assert(t.take(t.len() as int) =~= t);
            assert(s.take(k) =~= s);
        }
    }
}

/// Writing a number in decimal and reading it back gives the number.
pub proof fn decimal_reads_back(n: nat)
    ensures
        decimal(n).len() > 0,
        all_digits(decimal(n)),
        digits_value(decimal(n)) == n,
        n <= u32::MAX ==> number(decimal(n)) == Some(n as u32),
    decreases n,
{
    if n >= 10 {
        decimal_reads_back(n / 10);
        let head = decimal(n / 10);
        assert(decimal(n).drop_last() =~= head);
    } else {
        assert(decimal(n).drop_last() =~= seq![]);
        assert(digits_value(seq![]) == 0);
    }
    assert(is_digit(decimal(n)[0]));
    assert(decimal(n)[0] != '+');
}

fn digit_of(c: char) -> (r: Option<u32>)
    ensures
        match r {
            Some(d) => is_digit(c) && d == c as int - 48,
            None => !is_digit(c),
        },
{
    let n: u32 = c as u32;
    if 48 <= n && n <= 57 {
        Some(n - 48)
    } else {
        None
    }
}

/// Reads a decimal number.
pub fn parse_u32(s: &str) -> (r: Option<u32>)
    ensures
        r == number(s@),
{
    let cs = chars_of(s);
    let start: usize = if cs.len() > 0 && cs[0] == '+' {
        1
    } else {
        0
    };
    let ghost t = unsigned_part(s@);
    assert(t =~= s@.skip(start as int));
    if start == cs.len() {
        return None;
    }
    let mut k: usize = start;
    let mut acc: u64 = 0;
    assert(t.take(0) =~= seq![]);
    while k < cs.len()
        invariant
            cs@ == s@,
            start <= k <= cs.len(),
            t == s@.skip(start as int),
            t == unsigned_part(s@),
            acc <= u32::MAX,
            acc == digits_value(t.take(k - start)),
            forall|i: int| 0 <= i < k - start ==> is_digit(#[trigger] t[i]),
        decreases cs.len() - k,
    {
        assert(t[k - start] == cs@[k as int]);
        match digit_of(cs[k]) {
            Some(d) => {
                acc = acc * 10 + d as u64;
                proof {
                    assert(t.take(k - start + 1).drop_last() =~= t.take(k - start));
                    assert(t.take(k - start + 1).last() == cs@[k as int]);
                }
                if acc > u32::MAX as u64 {
                    proof {
                        if all_digits(t) {
                            digits_value_grows(t, k - start + 1);
                        }
                    }
                    return None;
                }
            },
            None => {
                return None;
            },
        }
        k = k + 1;
    }
    assert(t.take(t.len() as int) =~= t);
    Some(acc as u32)
}

/// Zeros before a number.
pub open spec fn zeros(n: nat) -> Seq<char> {
    Seq::new(n, |i: int| '0')
}

proof fn zeros_count_for_nothing(k: nat, n: nat)
    ensures
        all_digits(zeros(k) + decimal(n)),
        digits_value(zeros(k) + decimal(n)) == n,
    decreases n,
{
    let s = zeros(k) + decimal(n);
    decimal_reads_back(n);
    assert forall|i: int| 0 <= i < s.len() implies is_digit(#[trigger] s[i]) by {
        if i >= k {
            assert(s[i] == decimal(n)[i - k]);
        }
    }
    if n >= 10 {
        zeros_count_for_nothing(k, n / 10);
        assert(s.drop_last() =~= zeros(k) + decimal(n / 10));
    } else {
        assert(s.drop_last() =~= zeros(k));
        only_zeros(k);
    }
}

proof fn only_zeros(k: nat)
    ensures
        digits_value(zeros(k)) == 0,
    decreases k,
{
    if k > 0 {
        assert(zeros(k).drop_last() =~= zeros((k - 1) as nat));
        only_zeros((k - 1) as nat);
    }
}

proof fn digits_are_decimal(t: Seq<char>) -> (k: nat)
    requires
        t.len() > 0,
        all_digits(t),
    ensures
        digits_value(t) >= 0,
        t == zeros(k) + decimal(digits_value(t) as nat),
    decreases t.len(),
{
    let u = t.drop_last();
    let d = t.last() as int - 48;
    assert(is_digit(t[t.len() - 1]));
    assert(digit(d as nat) == t.last());
    if u.len() == 0 {
        assert(digits_value(u) == 0);
        assert(t =~= zeros(0) + decimal(d as nat));
        0
    } else {
        assert forall|i: int| 0 <= i < u.len() implies is_digit(#[trigger] u[i]) by {
            assert(is_digit(t[i]));
        }
        let k = digits_are_decimal(u);
        let v = digits_value(u) as nat;
        let n = (v * 10 + d) as nat;
        assert(t =~= u.push(t.last()));
        if v == 0 {
            assert(decimal(0) =~= seq!['0']);
            assert(decimal(d as nat) =~= seq![t.last()]);
            assert(t =~= zeros(k + 1) + decimal(d as nat));
            k + 1
        } else {
            assert(n / 10 == v && n % 10 == d);
            assert(decimal(n) =~= decimal(v).push(t.last()));
            assert(t =~= zeros(k) + decimal(n));
            k
        }
    }
}

/// A number is read from its decimal digits, with or without zeros and a plus sign before
/// them, if 32 bits can hold it.
pub proof fn decimals_are_read(k: nat, n: nat)
    ensures
        number(zeros(k) + decimal(n)) == if n <= u32::MAX {
            Some(n as u32)
        } else {
            None
        },
        number(seq!['+'] + (zeros(k) + decimal(n))) == number(zeros(k) + decimal(n)),
{
    let s = zeros(k) + decimal(n);
    let t = seq!['+'] + s;
    decimal_reads_back(n);
    zeros_count_for_nothing(k, n);
    assert(is_digit(s[0]));
    assert(t.drop_first() =~= s);
}

/// Nothing else is read as a number.
pub proof fn only_decimals_are_read(s: Seq<char>)
    ensures
        number(s) matches Some(n) ==> exists|k: nat|
            s == #[trigger] zeros(k) + decimal(n as nat) || s == seq!['+'] + (zeros(k) + decimal(
                n as nat,
            )),
{
    if number(s) is Some {
        let t = unsigned_part(s);
        let k = digits_are_decimal(t);
        let n = number(s)->0;
        assert(t == zeros(k) + decimal(n as nat));
        if s.len() > 0 && s[0] == '+' {
            assert(s =~= seq!['+'] + t);
        }
    }
}

/// A number that is not zero is written without a leading zero, and numbers that differ are
/// written differently.
pub proof fn decimal_is_shortest(a: nat, b: nat)
    ensures
        decimal(a)[0] == '0' <==> a == 0,
        decimal(a) == decimal(b) ==> a == b,
    decreases a,
{
    decimal_reads_back(a);
    decimal_reads_back(b);
    if a >= 10 {
        decimal_reads_back(a / 10);
        decimal_is_shortest(a / 10, b);
        assert(decimal(a)[0] == decimal(a / 10)[0]);
    }
}

} // verus!
