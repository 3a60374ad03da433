//! Decimal numerals.
use vstd::prelude::*;

use crate::split::{cut, split_once};
use crate::text::{chars_of, digit, is_digit, lowered, owned, same, to_lower};

verus! {

/// The decimal digit for a number below ten.
pub open spec fn digit_char(d: int) -> char {
    ('0' as u8 + d) as char
}

/// The decimal numeral of `n`, without leading zeros.
pub open spec fn decimal(n: nat) -> Seq<char>
    decreases n,
{
    if n < 10 {
        seq![digit_char(n as int)]
    } else {
        decimal(n / 10).push(digit_char((n % 10) as int))
    }
}

/// The decimal numeral of `n`, with a sign where it is negative.
pub open spec fn signed_decimal(n: int) -> Seq<char> {
    if n < 0 {
        seq!['-'] + decimal((-n) as nat)
    } else {
        decimal(n as nat)
    }
}

fn digit_of(d: u64) -> (c: char)
    requires
        d < 10,
    ensures
        c == digit_char(d as int),
{
    let b: u8 = d as u8;
    (48 + b) as char
}

pub fn to_decimal(n: u64) -> (r: String)
    ensures
        r@ == decimal(n as nat),
    decreases n,
{
    if n < 10 {
        let mut s = String::new();
        s.push(digit_of(n));
        assert(s@ =~= seq![digit_char(n as int)]);
        s
    } else {
        let mut s = to_decimal(n / 10);
        s.push(digit_of(n % 10));
        s
    }
}

/// The decimal numeral of `n`, with a sign where it is negative.
pub fn to_signed_decimal(n: i32) -> (r: String)
    ensures
        r@ == signed_decimal(n as int),
{
    if n < 0 {
        let mut s = String::new();
        s.push('-');
        assert(s@ =~= seq!['-']);
        let m: i64 = -(n as i64);
        s.append(to_decimal(m as u64).as_str());
        s
    } else {
        to_decimal(n as u64)
    }
}

/// The decimal numeral of `n`, with leading zeros to at least `width` characters.
pub open spec fn padded(n: nat, width: nat) -> Seq<char> {
    let d = decimal(n);
    if d.len() >= width {
        d
    } else {
        Seq::new((width - d.len()) as nat, |i: int| '0') + d
    }
}

pub fn to_padded(n: u64, width: usize) -> (r: String)
    ensures
        r@ == padded(n as nat, width as nat),
{
    let d = to_decimal(n);
    let len: usize = chars_of(d.as_str()).len();
    let mut s = String::new();
    if len >= width {
        return d;
    }
    let mut i: usize = 0;
    while i < width - len
        invariant
            len < width,
            i <= width - len,
            s@ == Seq::new(i as nat, |i: int| '0'),
        decreases width - len - i,
    {
        s.push('0');
        i = i + 1;
        assert(s@ =~= Seq::new(i as nat, |i: int| '0'));
    }
    s.append(d.as_str());
    s
}

/// Every character is a decimal digit.
pub open spec fn all_digits(s: Seq<char>) -> bool {
    forall|i: int| 0 <= i < s.len() ==> is_digit(#[trigger] s[i])
}

/// The number that a sequence of decimal digits denotes.
pub open spec fn value_of(s: Seq<char>) -> nat
    decreases s.len(),
{
    if s.len() == 0 {
        0
    } else {
        value_of(s.drop_last()) * 10 + (s.last() as nat - '0' as nat) as nat
    }
}

/// `s` without one leading plus sign.
pub open spec fn unsigned_part(s: Seq<char>) -> Seq<char> {
    if s.len() > 0 && s[0] == '+' {
        s.skip(1)
    } else {
        s
    }
}

/// The number that the text `s` stands for, where it is a numeral of a number
/// that fits in 64 bits: digits, at least one, after at most one plus sign.
pub open spec fn parsed(s: Seq<char>) -> Option<nat> {
    let d = unsigned_part(s);
    if d.len() > 0 && all_digits(d) && value_of(d) <= u64::MAX {
        Some(value_of(d))
    } else {
        None
    }
}

proof fn lemma_value_monotone(s: Seq<char>, i: int)
    requires
        all_digits(s),
        0 <= i <= s.len(),
    ensures
        value_of(s.take(i)) <= value_of(s),
    decreases s.len() - i,
{
    if i < s.len() {
        assert(s.take(i + 1).drop_last() =~= s.take(i));
        assert(is_digit(s[i]));
        assert(s.take(i + 1).last() == s[i]);
        lemma_value_monotone(s, i + 1);
    } else {
        assert(s.take(i) =~= s);
    }
}

/// The number that a numeral stands for.
pub fn parse_u64(s: &str) -> (r: Option<u64>)
    ensures
        match r {
            Some(n) => parsed(s@) == Some(n as nat),
            None => parsed(s@) is None,
        },
{
    let v = chars_of(s);
    let mut i: usize = 0;
    if v.len() > 0 && v[0] == '+' {
        i = 1;
    }
    let ghost base = i as int;
    let ghost d = unsigned_part(s@);
    assert(d =~= s@.skip(base));
    if i == v.len() {
        return None;
    }
    let mut n: u64 = 0;
    assert(d.take(0) =~= Seq::<char>::empty());
    while i < v.len()
        invariant
            v@ == s@,
            0 <= base <= i <= v@.len(),
            d == s@.skip(base),
            d == unsigned_part(s@),
            d.len() > 0,
            n == value_of(d.take(i - base)),
            forall|k: int| 0 <= k < i - base ==> is_digit(#[trigger] d[k]),
        decreases v.len() - i,
    {
        let c = v[i];
        assert(d[i - base] == c);
        if !digit(c) {
            assert(!all_digits(d));
            return None;
        }
        let x: u64 = (c as u8 - 48) as u64;
        proof {
            assert(d.take(i - base + 1).drop_last() =~= d.take(i - base));
            assert(d.take(i - base + 1).last() == c);
            assert(value_of(d.take(i - base + 1)) == n * 10 + x);
        }
        if n > (u64::MAX - x) / 10 {
            proof {
                if all_digits(d) {
                    lemma_value_monotone(d, i - base + 1);
                }
            }
            return None;
        }
        n = n * 10 + x;
        i = i + 1;
    }
    assert(d.take(i - base) =~= d);
    Some(n)
}

/// The numeral of a number is made of digits and stands for the number.
pub proof fn law_decimal_round_trip(n: nat)
    ensures
        decimal(n).len() > 0,
        all_digits(decimal(n)),
        value_of(decimal(n)) == n,
        n <= u64::MAX ==> parsed(decimal(n)) == Some(n),
    decreases n,
{
    if n < 10 {
        let s = decimal(n);
        assert(s.drop_last() =~= Seq::<char>::empty());
        assert(value_of(s.drop_last()) == 0);
        assert(is_digit(s[0]));
        assert(s.last() == digit_char(n as int));
    } else {
        law_decimal_round_trip(n / 10);
        let s = decimal(n);
        assert(s.drop_last() =~= decimal(n / 10));
        assert forall|i: int| 0 <= i < s.len() implies is_digit(#[trigger] s[i]) by {
            if i < s.len() - 1 {
                assert(s[i] == decimal(n / 10)[i]);
            }
        }
    }
    assert(is_digit(decimal(n)[0]));
}

// ----- decimal numbers -----
/// The text without one leading sign.
pub open spec fn unsigned_text(s: Seq<char>) -> Seq<char> {
    if s.len() > 0 && (s[0] == '+' || s[0] == '-') {
        s.skip(1)
    } else {
        s
    }
}

/// Digits with at most one point among them.
pub open spec fn is_mantissa(s: Seq<char>) -> bool {
    match cut(s, "."@) {
        None => s.len() > 0 && all_digits(s),
        Some((whole, part)) => whole.len() + part.len() > 0 && all_digits(whole) && all_digits(
            part,
        ),
    }
}

/// A number without its sign: in words, or in digits with an optional exponent.
pub open spec fn is_magnitude(s: Seq<char>) -> bool {
    s == "inf"@ || s == "infinity"@ || s == "nan"@ || match cut(s, "e"@) {
        None => is_mantissa(s),
        Some((m, x)) => is_mantissa(m) && unsigned_text(x).len() > 0 && all_digits(
            unsigned_text(x),
        ),
    }
}

/// The text is a decimal number: an optional sign, and a number in words or in
/// digits; letters count in either case.
pub open spec fn is_number(s: Seq<char>) -> bool {
    is_magnitude(lowered(unsigned_text(s)))
}

fn only_digits(s: &str) -> (r: bool)
    ensures
        r == all_digits(s@),
{
    let v = chars_of(s);
    let mut i: usize = 0;
    while i < v.len()
        invariant
            i <= v@.len(),
            v@ == s@,
            forall|k: int| 0 <= k < i ==> is_digit(#[trigger] s@[k]),
        decreases v.len() - i,
    {
        if !digit(v[i]) {
            return false;
        }
        i = i + 1;
    }
    true
}

fn without_sign(s: &str) -> (r: String)
    ensures
        r@ == unsigned_text(s@),
{
    let v = chars_of(s);
    if v.len() > 0 && (v[0] == '+' || v[0] == '-') {
        assert(v@.subrange(1, v@.len() as int) =~= s@.skip(1));
        crate::text::text_range(&v, 1, v.len())
    } else {
        owned(s)
    }
}

fn mantissa(s: &str) -> (r: bool)
    ensures
        r == is_mantissa(s@),
{
    match split_once(s, ".") {
        None => !s.is_empty() && only_digits(s),
        Some((whole, part)) => {
            let some = !whole.as_str().is_empty() || !part.as_str().is_empty();
            some && only_digits(whole.as_str()) && only_digits(part.as_str())
        },
    }
}

/// Tells whether the text is a decimal number.
pub fn number_text(s: &str) -> (r: bool)
    ensures
        r == is_number(s@),
{
    let t = to_lower(without_sign(s).as_str());
    let t = t.as_str();
    if same(t, "inf") || same(t, "infinity") || same(t, "nan") {
        return true;
    }
    match split_once(t, "e") {
        None => mantissa(t),
        Some((m, x)) => {
            let digits = without_sign(x.as_str());
            mantissa(m.as_str()) && !digits.as_str().is_empty() && only_digits(digits.as_str())
        },
    }
}

/// A padded numeral ends in the numeral, has nothing but zeros before it, and is as
/// wide as it has to be and no wider.
pub proof fn law_padding_is_zeros(n: nat, width: nat)
    ensures
        ({
            let s = padded(n, width);
            let d = decimal(n);
            &&& s.len() == (if d.len() < width {
                width
            } else {
                d.len()
            })
            &&& s.skip(s.len() - d.len()) == d
            &&& forall|i: int| 0 <= i < s.len() - d.len() ==> s[i] == '0'
        }),
{
    let d = decimal(n);
    let s = padded(n, width);
    assert(s.skip(s.len() - d.len()) =~= d);
}

/// The numeral of a negative number is that of its size behind a minus, and the sign
/// is all that tells it apart.
pub proof fn law_signs_stand_in_front(n: int)
    ensures
        n >= 0 ==> signed_decimal(n) == decimal(n as nat),
        n < 0 ==> signed_decimal(n).len() > 0 && signed_decimal(n)[0] == '-' && signed_decimal(
            n,
        ).skip(1) == decimal((-n) as nat),
{
    reveal_strlit("-");
    if n < 0 {
        assert(signed_decimal(n).skip(1) =~= decimal((-n) as nat));
    }
}

} // verus!
