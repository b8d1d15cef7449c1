//! Numbers in text: decimal and hexadecimal digits written out, and decimal numbers read back.
use vstd::prelude::*;

use crate::text::{chars_of, digit, is_digit, Text};

verus! {

/// The number that a run of decimal digits stands for.
pub open spec fn digits_value(s: Text) -> nat
    decreases s.len(),
{
    if s.len() == 0 {
        0
    } else {
        digits_value(s.drop_last()) * 10 + (s.last() as nat - '0' as nat) as nat
    }
}

/// Whether a text is one or more decimal digits and nothing else.
pub open spec fn all_digits(s: Text) -> bool {
    s.len() > 0 && forall|i: int| 0 <= i < s.len() ==> is_digit(#[trigger] s[i])
}

/// The digits of an unsigned number: what is left after an optional plus sign.
pub open spec fn unsigned_digits(s: Text) -> Text {
    if s.len() > 0 && s[0] == '+' {
        s.skip(1)
    } else {
        s
    }
}

/// The unsigned number that a text writes, where it writes one of at most `max`.
pub open spec fn unsigned_value(s: Text, max: nat) -> Option<nat> {
    let d = unsigned_digits(s);
    if all_digits(d) && digits_value(d) <= max {
        Some(digits_value(d))
    } else {
        None
    }
}

/// The signed number that a text writes, where it writes one between `min` and `max`.
pub open spec fn signed_value(s: Text, min: int, max: int) -> Option<int> {
    let negative = s.len() > 0 && s[0] == '-';
    let d = if negative {
        s.skip(1)
    } else {
        unsigned_digits(s)
    };
    let n = if negative {
        -(digits_value(d) as int)
    } else {
        digits_value(d) as int
    };
    if all_digits(d) && min <= n <= max {
        Some(n)
    } else {
        None
    }
}

proof fn lemma_digits_grow(s: Text, k: int)
    requires
        0 <= k <= s.len(),
        forall|i: int| 0 <= i < s.len() ==> is_digit(#[trigger] s[i]),
    ensures
        digits_value(s.take(k)) <= digits_value(s),
    decreases s.len() - k,
{
    if k < s.len() {
        lemma_digits_grow(s, k + 1);
        assert(s.take(k + 1).drop_last() =~= s.take(k));
        assert(is_digit(s[k]));
    } else {
        assert(s.take(k) =~= s);
    }
}

/// Reads the digits from `from` on as a number of at most `max`.
fn read_digits(v: &Vec<char>, from: usize, max: u64) -> (r: Option<u64>)
    requires
        from <= v@.len(),
    ensures
        r == if all_digits(v@.skip(from as int)) && digits_value(v@.skip(from as int)) <= max {
            Some(digits_value(v@.skip(from as int)) as u64)
        } else {
            None
        },
{
    let n: usize = v.len();
    let ghost d = v@.skip(from as int);
    if from == n {
        return None;
    }
    let mut value: u128 = 0;
    let mut i: usize = from;
    while i < n
        invariant
            from <= i <= n == v@.len(),
            d == v@.skip(from as int),
            value == digits_value(d.take(i - from)),
            value <= max,
            forall|k: int| 0 <= k < i - from ==> is_digit(#[trigger] d[k]),
        decreases n - i,
    {
        let c: char = v[i];
        if !digit(c) {
            assert(!is_digit(d[i - from]));
            return None;
        }
        assert(d.take(i + 1 - from).drop_last() =~= d.take(i - from));
        assert(d[i - from] == c);
        value = value * 10 + (c as u32 - '0' as u32) as u128;
        if value > max as u128 {
            proof {
                if all_digits(d) {
                    lemma_digits_grow(d, i + 1 - from);
                }
            }
            return None;
        }
        i += 1;
    }
    assert(d.take(n - from) =~= d);
    Some(value as u64)
}

/// Reads an unsigned number of at most `max`.
pub fn parse_unsigned(s: &str, max: u64) -> (r: Option<u64>)
    ensures
        r == match unsigned_value(s@, max as nat) {
            Some(n) => Some(n as u64),
            None => None,
        },
{
    let v = chars_of(s);
    if v.len() > 0 && v[0] == '+' {
        read_digits(&v, 1, max)
    } else {
        assert(v@.skip(0) =~= v@);
        read_digits(&v, 0, max)
    }
}

/// The number of decimal digits that a text begins with.
pub open spec fn digit_run(s: Text) -> nat
    decreases s.len(),
{
    if s.len() == 0 || !is_digit(s[0]) {
        0
    } else {
        1 + digit_run(s.skip(1))
    }
}

/// Why a text does not write an unsigned number of at most `max`: it is empty, the number that its
/// leading digits make is too large, or a character is no digit.
pub open spec fn unsigned_fault(s: Text, max: nat) -> Text {
    let d = unsigned_digits(s);
    if s.len() == 0 {
        "cannot parse integer from empty string"@
    } else if digits_value(d.take(digit_run(d) as int)) > max {
        "number too large to fit in target type"@
    } else {
        "invalid digit found in string"@
    }
}

proof fn lemma_digit_run(s: Text)
    ensures
        digit_run(s) <= s.len(),
        forall|i: int| 0 <= i < digit_run(s) ==> is_digit(#[trigger] s[i]),
        digit_run(s) < s.len() ==> !is_digit(s[digit_run(s) as int]),
    decreases s.len(),
{
    if s.len() > 0 && is_digit(s[0]) {
        lemma_digit_run(s.skip(1));
        assert forall|i: int| 0 <= i < digit_run(s) implies is_digit(#[trigger] s[i]) by {
            if i > 0 {
                assert(s[i] == s.skip(1)[i - 1]);
            }
        }
    }
}

/// Tells why a text does not write an unsigned number of at most `max`.
pub fn explain_unsigned(s: &str, max: u64) -> (r: &'static str)
    ensures
        r@ == unsigned_fault(s@, max as nat),
{
    let v = chars_of(s);
    let n: usize = v.len();
    if n == 0 {
        return "cannot parse integer from empty string";
    }
    let from: usize = if v[0] == '+' {
        1
    } else {
        0
    };
    assert(v@.skip(0) =~= v@);
    let ghost d = v@.skip(from as int);
    let mut value: u128 = 0;
    let mut i: usize = from;
    proof {
        lemma_digit_run(d);
    }
    assert(d.take(0) =~= seq![]);
    while i < n && digit(v[i])
        invariant
            from <= i <= n == v@.len(),
            d == unsigned_digits(s@),
            d == v@.skip(from as int),
            s@.len() > 0,
            i - from <= digit_run(d) <= d.len(),
            digit_run(d) < d.len() ==> !is_digit(d[digit_run(d) as int]),
            forall|k: int| 0 <= k < digit_run(d) ==> is_digit(#[trigger] d[k]),
            value == digits_value(d.take(i - from)),
            value <= max,
        decreases n - i,
    {
        let c: char = v[i];
        assert(d[i - from] == c);
        assert(d.take(i + 1 - from).drop_last() =~= d.take(i - from));
        value = value * 10 + (c as u32 - '0' as u32) as u128;
        if value > max as u128 {
            proof {
                let run = d.take(digit_run(d) as int);
                lemma_digits_grow(run, i + 1 - from);
                assert(run.take(i + 1 - from) =~= d.take(i + 1 - from));
            }
            return "number too large to fit in target type";
        }
        i += 1;
    }
    assert(i - from == digit_run(d)) by {
        if i < n {
            assert(!is_digit(d[i - from]));
        }
    }
    "invalid digit found in string"
}

/// Reads a signed number of 64 bits.
pub fn parse_signed(s: &str) -> (r: Option<i64>)
    ensures
        r == match signed_value(s@, i64::MIN as int, i64::MAX as int) {
            Some(n) => Some(n as i64),
            None => None,
        },
{
    let v = chars_of(s);
    if v.len() > 0 && v[0] == '-' {
        match read_digits(&v, 1, 0x8000_0000_0000_0000) {
            None => None,
            Some(n) => if n == 0x8000_0000_0000_0000 {
                Some(i64::MIN)
            } else {
                Some(-(n as i64))
            },
        }
    } else if v.len() > 0 && v[0] == '+' {
        match read_digits(&v, 1, 0x7fff_ffff_ffff_ffff) {
            None => None,
            Some(n) => Some(n as i64),
        }
    } else {
        assert(v@.skip(0) =~= v@);
        match read_digits(&v, 0, 0x7fff_ffff_ffff_ffff) {
            None => None,
            Some(n) => Some(n as i64),
        }
    }
}

/// The decimal digit of `d`.
pub open spec fn digit_char(d: nat) -> char {
    ('0' as nat + d) as char
}

/// A number in decimal digits, without leading zeros.
pub open spec fn decimal(n: nat) -> Text
    decreases n,
{
    if n < 10 {
        seq![digit_char(n)]
    } else {
        decimal(n / 10).push(digit_char(n % 10))
    }
}

/// Writes a number in decimal digits.
pub fn dec(n: u64) -> (s: String)
    ensures
        s@ == decimal(n as nat),
    decreases n,
{
    let last: char = (48u8 + (n % 10) as u8) as char;
    if n < 10 {
        let mut s = String::new();
        s.push(last);
        assert(s@ =~= decimal(n as nat));
        s
    } else {
        let mut s = dec(n / 10);
        s.push(last);
        s
    }
}

/// The lower-case hexadecimal digit of `d`.
pub open spec fn hex_char(d: nat) -> char {
    if d < 10 {
        ('0' as nat + d) as char
    } else {
        ('a' as nat + d - 10) as char
    }
}

/// A byte in two lower-case hexadecimal digits.
pub open spec fn hex_pair(b: u8) -> Text {
    seq![hex_char(b as nat / 16), hex_char(b as nat % 16)]
}

/// Bytes in hexadecimal, two digits each.
pub open spec fn hex_text(bytes: Seq<u8>) -> Text
    decreases bytes.len(),
{
    if bytes.len() == 0 {
        seq![]
    } else {
        hex_text(bytes.drop_last()) + hex_pair(bytes.last())
    }
}

fn hex_digit_of(d: u8) -> (c: char)
    requires
        d < 16,
    ensures
        c == hex_char(d as nat),
{
    if d < 10 {
        (48u8 + d) as char
    } else {
        (87u8 + d) as char
    }
}

/// Writes bytes in hexadecimal.
pub fn hex(bytes: &[u8]) -> (s: String)
    ensures
        s@ == hex_text(bytes@),
{
    let mut s = String::new();
    let mut i: usize = 0;
    while i < bytes.len()
        invariant
            i <= bytes@.len(),
            s@ == hex_text(bytes@.take(i as int)),
        decreases bytes@.len() - i,
    {
        let b: u8 = bytes[i];
        let ghost before = s@;
        s.push(hex_digit_of(b / 16));
        s.push(hex_digit_of(b % 16));
        assert(bytes@.take(i + 1).drop_last() =~= bytes@.take(i as int));
        assert(s@ =~= before + hex_pair(b));
        i += 1;
    }
    assert(bytes@.take(bytes@.len() as int) =~= bytes@);
    s
}

/// What a number is written as reads back as that number.
pub proof fn law_decimal_reads_back(n: nat, max: nat)
    requires
        n <= max,
    ensures
        all_digits(decimal(n)),
        digits_value(decimal(n)) == n,
        unsigned_value(decimal(n), max) == Some(n),
{
    lemma_decimal(n);
    assert(is_digit(decimal(n)[0]));
    assert(unsigned_digits(decimal(n)) == decimal(n));
}

pub proof fn lemma_decimal(n: nat)
    ensures
        all_digits(decimal(n)),
        digits_value(decimal(n)) == n,
    decreases n,
{
    if n < 10 {
        assert(decimal(n).drop_last() =~= seq![]);
        assert(digits_value(seq![]) == 0);
    } else {
        lemma_decimal(n / 10);
        assert(decimal(n).drop_last() =~= decimal(n / 10));
        assert forall|i: int| 0 <= i < decimal(n).len() implies is_digit(
            #[trigger] decimal(n)[i],
        ) by {
            if i < decimal(n).len() - 1 {
                assert(is_digit(decimal(n / 10)[i]));
            }
        }
    }
}

/// Whether a text is one or more of the digits `0` to `9`.
pub open spec fn numeral(d: Text) -> bool {
    d.len() > 0 && forall|i: int| 0 <= i < d.len() ==> '0' <= #[trigger] d[i] <= '9'
}

/// The value of digits goes by their places: one more digit makes ten times the number and the
/// digit.
pub proof fn law_places(d: Text, c: char)
    requires
        '0' <= c <= '9',
    ensures
        digits_value(Seq::<char>::empty()) == 0,
        digits_value(d.push(c)) == 10 * digits_value(d) + (c as int - '0' as int),
{
    assert(d.push(c).drop_last() =~= d);
}

/// An unsigned number is written in digits, with or without a plus sign before them, and is read
/// wherever it is not too large.
pub proof fn law_unsigned_numbers(d: Text, max: nat)
    requires
        numeral(d),
    ensures
        unsigned_value(d, max) == if digits_value(d) <= max {
            Some(digits_value(d))
        } else {
            None
        },
        unsigned_value(seq!['+'] + d, max) == unsigned_value(d, max),
{
    assert((seq!['+'] + d).skip(1) =~= d);
    assert('0' <= d[0]);
    assert forall|i: int| 0 <= i < d.len() implies is_digit(#[trigger] d[i]) by {}
}

/// Nothing else is an unsigned number.
pub proof fn law_no_other_unsigned_numbers(s: Text, max: nat)
    ensures
        unsigned_value(s, max) matches Some(n) ==> n <= max && (numeral(s) || s.len() > 0 && s[0]
            == '+' && numeral(s.skip(1))),
{
    if unsigned_value(s, max) is Some {
        let d = unsigned_digits(s);
        assert forall|i: int| 0 <= i < d.len() implies '0' <= #[trigger] d[i] <= '9' by {
            assert(is_digit(d[i]));
        }
    }
}

/// A signed number is written in digits, with or without a sign before them, and is read wherever
/// it lies within the bounds.
pub proof fn law_signed_numbers(d: Text, min: int, max: int)
    requires
        numeral(d),
    ensures
        signed_value(d, min, max) == if min <= digits_value(d) <= max {
            Some(digits_value(d) as int)
        } else {
            None
        },
        signed_value(seq!['+'] + d, min, max) == signed_value(d, min, max),
        signed_value(seq!['-'] + d, min, max) == if min <= -digits_value(d) <= max {
            Some(-digits_value(d))
        } else {
            None
        },
{
    assert((seq!['+'] + d).skip(1) =~= d);
    assert((seq!['-'] + d).skip(1) =~= d);
    assert('0' <= d[0]);
    assert forall|i: int| 0 <= i < d.len() implies is_digit(#[trigger] d[i]) by {}
}

/// Nothing else is a signed number.
pub proof fn law_no_other_signed_numbers(s: Text, min: int, max: int)
    ensures
        signed_value(s, min, max) matches Some(n) ==> min <= n <= max && (numeral(s) || s.len() > 0
            && (s[0] == '+' || s[0] == '-') && numeral(s.skip(1))),
{
    if signed_value(s, min, max) is Some {
        let d = if s.len() > 0 && s[0] == '-' {
            s.skip(1)
        } else {
            unsigned_digits(s)
        };
        assert forall|i: int| 0 <= i < d.len() implies '0' <= #[trigger] d[i] <= '9' by {
            assert(is_digit(d[i]));
        }
    }
}

/// The fault of a text that is no number: it is empty; or its digits make too large a number
/// before anything else is met; or something else is met.
pub proof fn law_unsigned_fault(a: Text, c: char, b: Text, max: nat)
    requires
        forall|i: int| 0 <= i < a.len() ==> '0' <= #[trigger] a[i] <= '9',
        !('0' <= c <= '9'),
        a.len() == 0 ==> c != '+',
    ensures
        unsigned_fault(Seq::<char>::empty(), max) == "cannot parse integer from empty string"@,
        a.len() > 0 && digits_value(a) > max ==> unsigned_fault(a, max)
            == "number too large to fit in target type"@,
        unsigned_fault(a + seq![c] + b, max) == if digits_value(a) > max {
            "number too large to fit in target type"@
        } else {
            "invalid digit found in string"@
        },
{
    let s = a + seq![c] + b;
    lemma_digit_run(a);
    lemma_digit_run(s);
    if a.len() > 0 {
        assert('0' <= a[0]);
        assert(s[0] == a[0]);
    } else {
        assert(s[0] == c);
    }
    if digit_run(a) < a.len() {
        assert(is_digit(a[digit_run(a) as int]));
    }
    assert(a.take(a.len() as int) =~= a);
    assert(s[a.len() as int] == c);
    let k = digit_run(s) as int;
    if k < a.len() {
        assert(s[k] == a[k]);
    }
    if k > a.len() {
        assert(is_digit(s[a.len() as int]));
    }
    assert(s.take(k) =~= a);
}

/// Decimal digits have no zero before them, but for zero itself.
pub proof fn law_decimal_has_no_leading_zero(n: nat)
    ensures
        decimal(n).len() > 0,
        n > 0 ==> decimal(n)[0] != '0',
        n == 0 ==> decimal(n) == "0"@,
    decreases n,
{
    if n >= 10 {
        law_decimal_has_no_leading_zero(n / 10);
    } else if n == 0 {
        reveal_strlit("0");
        assert(decimal(n) =~= "0"@);
    }
}

/// Each byte is written in two digits of sixteen, the higher one first.
pub proof fn law_hex(bytes: Seq<u8>, i: int)
    requires
        0 <= i < bytes.len(),
    ensures
        hex_text(bytes).len() == 2 * bytes.len(),
        hex_text(bytes)[2 * i] == "0123456789abcdef"@[bytes[i] as int / 16],
        hex_text(bytes)[2 * i + 1] == "0123456789abcdef"@[bytes[i] as int % 16],
    decreases bytes.len(),
{
    let front = bytes.drop_last();
    if front.len() > 0 {
        law_hex(front, if i < front.len() {
            i
        } else {
            0
        });
    } else {
        assert(hex_text(front).len() == 0);
    }
    if i == bytes.len() - 1 {
        lemma_hex_digit(bytes[i] as nat / 16);
        lemma_hex_digit(bytes[i] as nat % 16);
    } else {
        assert(front[i] == bytes[i]);
    }
}

proof fn lemma_hex_digit(d: nat)
    requires
        d < 16,
    ensures
        hex_char(d) == "0123456789abcdef"@[d as int],
{
    reveal_strlit("0123456789abcdef");
}

/// A plus sign changes nothing of the fault of what follows it; a plus sign alone is something else
/// than a digit.
pub proof fn law_a_sign_is_no_fault(t: Text, max: nat)
    requires
        t.len() > 0,
        t[0] != '+',
    ensures
        unsigned_fault(seq!['+'], max) == "invalid digit found in string"@,
        unsigned_fault(seq!['+'] + t, max) == unsigned_fault(t, max),
{
    let none = seq!['+'].skip(1);
    assert(none.len() == 0);
    assert(none.take(digit_run(none) as int).len() == 0);
    assert((seq!['+'] + t).skip(1) =~= t);
}

} // verus!
