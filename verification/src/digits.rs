//! Decimal numerals: whole numbers written as text and read from it.

use vstd::prelude::*;
use vstd::string::*;

verus! {

/// Whether `c` is one of the digits `0` to `9`.
pub open spec fn is_digit(c: char) -> bool {
    '0' <= c && c <= '9'
}

/// The number that the digit `c` stands for.
pub open spec fn digit_value(c: char) -> int {
    (c as u32) - 48
}

/// The digit that stands for `d`, a number from 0 to 9.
pub open spec fn digit_char(d: int) -> char {
    if d == 0 {
        '0'
    } else if d == 1 {
        '1'
    } else if d == 2 {
        '2'
    } else if d == 3 {
        '3'
    } else if d == 4 {
        '4'
    } else if d == 5 {
        '5'
    } else if d == 6 {
        '6'
    } else if d == 7 {
        '7'
    } else if d == 8 {
        '8'
    } else {
        '9'
    }
}

/// `n` in decimal, without leading zeros.
pub open spec fn decimal(n: nat) -> Seq<char>
    decreases n,
{
    if n < 10 {
        seq![digit_char(n as int)]
    } else {
        decimal(n / 10).push(digit_char((n % 10) as int))
    }
}

/// `v` in decimal, with a minus sign where it is negative.
pub open spec fn signed_decimal(v: int) -> Seq<char> {
    if v < 0 {
        seq!['-'] + decimal((-v) as nat)
    } else {
        decimal(v as nat)
    }
}

/// `n` in decimal, with zeros in front up to two digits.
pub open spec fn two_digits(n: nat) -> Seq<char> {
    if n < 10 {
        seq!['0'] + decimal(n)
    } else {
        decimal(n)
    }
}

/// `n` in decimal, with zeros in front up to three digits.
pub open spec fn three_digits(n: nat) -> Seq<char> {
    if n < 10 {
        seq!['0', '0'] + decimal(n)
    } else if n < 100 {
        seq!['0'] + decimal(n)
    } else {
        decimal(n)
    }
}

/// `v` in decimal at a width of two: zeros in front where it is shorter, and
/// a minus sign, which counts for the width, where it is negative.
pub open spec fn two_wide(v: int) -> Seq<char> {
    if v < 0 {
        seq!['-'] + decimal((-v) as nat)
    } else {
        two_digits(v as nat)
    }
}

/// `v` in decimal at a width of three: zeros in front where it is shorter,
/// and a minus sign, which counts for the width, where it is negative.
pub open spec fn three_wide(v: int) -> Seq<char> {
    if v < 0 {
        seq!['-'] + two_digits((-v) as nat)
    } else {
        three_digits(v as nat)
    }
}

/// The number that a sequence of digits stands for; 0 for none.
pub open spec fn digits_value(s: Seq<char>) -> nat
    decreases s.len(),
{
    if s.len() == 0 {
        0
    } else {
        (digits_value(s.drop_last()) * 10 + digit_value(s.last())) as nat
    }
}

/// Whether every character of `s` is a digit.
pub open spec fn all_digits(s: Seq<char>) -> bool {
    forall|i: int| 0 <= i < s.len() ==> is_digit(#[trigger] s[i])
}

/// Whether `s` starts with the character `sign`.
pub open spec fn has_sign(s: Seq<char>, sign: char) -> bool {
    s.len() > 0 && s[0] == sign
}

/// The number that `s` stands for as a signed 32-bit numeral: an optional
/// `+` or `-`, then one digit or more, and nothing else. `None` where `s` is
/// not of that form or the number does not fit.
pub open spec fn parsed_i32(s: Seq<char>) -> Option<int> {
    let negative = has_sign(s, '-');
    let body = if has_sign(s, '-') || has_sign(s, '+') {
        s.drop_first()
    } else {
        s
    };
    let size = digits_value(body);
    if body.len() == 0 || !all_digits(body) {
        None
    } else if negative {
        if size <= 0x8000_0000 {
            Some(-size)
        } else {
            None
        }
    } else {
        if size <= 0x7FFF_FFFF {
            Some(size as int)
        } else {
            None
        }
    }
}

/// The number that `s` stands for as an unsigned 32-bit numeral: an
/// optional `+`, then one digit or more, and nothing else. `None` where `s`
/// is not of that form or the number does not fit.
pub open spec fn parsed_u32(s: Seq<char>) -> Option<int> {
    let body = if has_sign(s, '+') {
        s.drop_first()
    } else {
        s
    };
    if body.len() == 0 || !all_digits(body) || digits_value(body) > 0xFFFF_FFFF {
        None
    } else {
        Some(digits_value(body) as int)
    }
}

/// The digit for `d` as a string.
pub fn digit_str(d: u8) -> (s: &'static str)
    requires
        d <= 9,
    ensures
        s@ == seq![digit_char(d as int)],
{
    proof {
        reveal_strlit("0");
        reveal_strlit("1");
        reveal_strlit("2");
        reveal_strlit("3");
        reveal_strlit("4");
        reveal_strlit("5");
        reveal_strlit("6");
        reveal_strlit("7");
        reveal_strlit("8");
        reveal_strlit("9");
    }
    let s: &'static str = if d == 0 {
        "0"
    } else if d == 1 {
        "1"
    } else if d == 2 {
        "2"
    } else if d == 3 {
        "3"
    } else if d == 4 {
        "4"
    } else if d == 5 {
        "5"
    } else if d == 6 {
        "6"
    } else if d == 7 {
        "7"
    } else if d == 8 {
        "8"
    } else {
        "9"
    };
    assert(s@ =~= seq![digit_char(d as int)]);
    s
}

/// Appends `n` in decimal.
pub fn append_decimal(out: &mut String, n: u64)
    ensures
        final(out)@ == old(out)@ + decimal(n as nat),
    decreases n,
{
    if n >= 10 {
        append_decimal(out, n / 10);
    }
    out.append(digit_str((n % 10) as u8));
    proof {
        if n >= 10 {
            assert(out@ =~= old(out)@ + decimal(n as nat));
        } else {
            assert(out@ =~= old(out)@ + decimal(n as nat));
        }
    }
}

/// The size of `v` without its sign.
pub fn magnitude(v: i64) -> (m: u64)
    ensures
        m == if v < 0 {
            -v
        } else {
            v as int
        },
{
    if v >= 0 {
        v as u64
    } else if v == i64::MIN {
        0x8000_0000_0000_0000
    } else {
        (-v) as u64
    }
}

/// Appends `v` in decimal, with a minus sign where it is negative.
pub fn append_signed(out: &mut String, v: i64)
    ensures
        final(out)@ == old(out)@ + signed_decimal(v as int),
{
    if v < 0 {
        proof {
            reveal_strlit("-");
        }
        out.append("-");
    }
    append_decimal(out, magnitude(v));
    proof {
        assert(out@ =~= old(out)@ + signed_decimal(v as int));
    }
}

/// Appends `v` in decimal at a width of two.
pub fn append_two_wide(out: &mut String, v: i32)
    ensures
        final(out)@ == old(out)@ + two_wide(v as int),
{
    proof {
        reveal_strlit("-");
        reveal_strlit("0");
    }
    if v < 0 {
        out.append("-");
    } else if v < 10 {
        out.append("0");
    }
    append_decimal(out, magnitude(v as i64));
    proof {
        assert(out@ =~= old(out)@ + two_wide(v as int));
    }
}

/// Appends `v` in decimal at a width of three.
pub fn append_three_wide(out: &mut String, v: i32)
    ensures
        final(out)@ == old(out)@ + three_wide(v as int),
{
    proof {
        reveal_strlit("-");
        reveal_strlit("0");
        reveal_strlit("00");
    }
    if v < 0 {
        out.append("-");
        if v > -10 {
            out.append("0");
        }
    } else if v < 10 {
        out.append("00");
    } else if v < 100 {
        out.append("0");
    }
    append_decimal(out, magnitude(v as i64));
    proof {
        assert(out@ =~= old(out)@ + three_wide(v as int));
    }
}

/// The number that the digits `text[from ..]` stand for, where there is at
/// least one, all are digits, and the number is at most `limit`.
fn parse_digits(text: &str, from: usize, limit: u64) -> (r: Option<u64>)
    requires
        text.is_ascii(),
        from <= text@.len(),
        limit <= 0xFFFF_FFFF,
    ensures
        r is Some <==> {
            let body = text@.subrange(from as int, text@.len() as int);
            body.len() > 0 && all_digits(body) && digits_value(body) <= limit
        },
        r is Some ==> r->0 == digits_value(text@.subrange(from as int, text@.len() as int)),
{
    let n: usize = text.as_bytes().len();
    let ghost body = text@.subrange(from as int, text@.len() as int);
    proof {
        is_ascii_spec_bytes(text);
        assert(n == text@.len());
    }
    if from >= n {
        return None;
    }
    let mut value: u64 = 0;
    let mut i: usize = from;
    while i < n
        invariant
            text.is_ascii(),
            n == text@.len(),
            from <= i <= n,
            limit <= 0xFFFF_FFFF,
            body == text@.subrange(from as int, text@.len() as int),
            all_digits(body.subrange(0, i - from)),
            value == digits_value(body.subrange(0, i - from)),
            value <= limit,
        decreases n - i,
    {
        let b: u8 = text.get_ascii(i);
        let ghost c = text@[i as int];
        assert(body[i - from] == c);
        if b < 48 || b > 57 {
            assert(!is_digit(c));
            return None;
        }
        let next: u64 = value * 10 + ((b - 48) as u64);
        proof {
            let longer = body.subrange(0, i - from + 1);
            assert(longer.drop_last() =~= body.subrange(0, i - from));
            assert(longer.last() == c);
            assert(digit_value(c) == b - 48);
            assert(all_digits(longer)) by {
                assert forall|j: int| 0 <= j < longer.len() implies is_digit(#[trigger] longer[j]) by {
                    if j < i - from {
                        assert(body.subrange(0, i - from)[j] == longer[j]);
                    }
                }
            }
        }
        if next > limit {
            proof {
                if all_digits(body) {
                    lemma_digits_value_grows(body, i - from + 1);
                }
            }
            return None;
        }
        value = next;
        i = i + 1;
    }
    proof {
        assert(body.subrange(0, n - from) =~= body);
    }
    Some(value)
}

/// The number of a sequence of digits is at least that of each of its
/// beginnings.
pub proof fn lemma_digits_value_grows(s: Seq<char>, upto: int)
    requires
        0 <= upto <= s.len(),
        all_digits(s),
    ensures
        digits_value(s.subrange(0, upto)) <= digits_value(s),
    decreases s.len() - upto,
{
    if upto < s.len() {
        let longer = s.subrange(0, upto + 1);
        assert(longer.drop_last() =~= s.subrange(0, upto));
        assert(is_digit(s[upto]));
        assert(longer.last() == s[upto]);
        lemma_digits_value_grows(s, upto + 1);
    } else {
        assert(s.subrange(0, upto) =~= s);
    }
}

/// Reads `text` as a signed 32-bit numeral: an optional `+` or `-`, then
/// one digit or more.
pub fn parse_i32(text: &str) -> (r: Option<i32>)
    ensures
        r is Some <==> parsed_i32(text@) is Some,
        r is Some ==> r->0 == parsed_i32(text@)->0,
{
    if !text.is_ascii() {
        proof {
            lemma_digits_are_ascii(text@);
        }
        return None;
    }
    let n: usize = text.as_bytes().len();
    proof {
        is_ascii_spec_bytes(text);
        assert(n == text@.len());
    }
    if n == 0 {
        return None;
    }
    let first: u8 = text.get_ascii(0);
    proof {
        assert(text@.drop_first() =~= text@.subrange(1, text@.len() as int));
        assert(text@ =~= text@.subrange(0, text@.len() as int));
    }
    if first == 45 {
        match parse_digits(text, 1, 0x8000_0000) {
            Some(size) => Some((-(size as i64)) as i32),
            None => None,
        }
    } else if first == 43 {
        match parse_digits(text, 1, 0x7FFF_FFFF) {
            Some(size) => Some(size as i32),
            None => None,
        }
    } else {
        match parse_digits(text, 0, 0x7FFF_FFFF) {
            Some(size) => Some(size as i32),
            None => None,
        }
    }
}

/// Reads `text` as an unsigned 32-bit numeral: an optional `+`, then one
/// digit or more.
pub fn parse_u32(text: &str) -> (r: Option<u32>)
    ensures
        r is Some <==> parsed_u32(text@) is Some,
        r is Some ==> r->0 == parsed_u32(text@)->0,
{
    if !text.is_ascii() {
        proof {
            lemma_digits_are_ascii(text@);
        }
        return None;
    }
    let n: usize = text.as_bytes().len();
    proof {
        is_ascii_spec_bytes(text);
        assert(n == text@.len());
    }
    if n == 0 {
        return None;
    }
    let first: u8 = text.get_ascii(0);
    proof {
        assert(text@.drop_first() =~= text@.subrange(1, text@.len() as int));
        assert(text@ =~= text@.subrange(0, text@.len() as int));
    }
    let from: usize = if first == 43 {
        1
    } else {
        0
    };
    match parse_digits(text, from, 0xFFFF_FFFF) {
        Some(size) => Some(size as u32),
        None => None,
    }
}

/// A text with a character beyond ASCII is no numeral: that character is
/// neither a sign nor a digit.
pub proof fn lemma_digits_are_ascii(s: Seq<char>)
    requires
        !vstd::utf8::is_ascii_chars(s),
    ensures
        parsed_i32(s) is None,
        parsed_u32(s) is None,
{
    let i = choose|i: int| 0 <= i < s.len() && !('\0' <= #[trigger] s[i] <= '\u{7f}');
    assert(!is_digit(s[i]));
    assert(s[i] != '-' && s[i] != '+');
    if i > 0 {
        assert(s.drop_first()[i - 1] == s[i]);
    }
}

/// A number written in decimal is digits only, and they stand for it.
pub proof fn decimal_reads_back(n: nat)
    ensures
        decimal(n).len() >= 1,
        all_digits(decimal(n)),
        digits_value(decimal(n)) == n,
    decreases n,
{
    if n < 10 {
        assert(decimal(n).drop_last() =~= Seq::<char>::empty());
        assert(digits_value(decimal(n).drop_last()) == 0);
    } else {
        decimal_reads_back(n / 10);
        let d = digit_char((n % 10) as int);
        assert(decimal(n).drop_last() =~= decimal(n / 10));
        assert(decimal(n).last() == d);
        assert(digit_value(d) == n % 10);
        assert forall|i: int| 0 <= i < decimal(n).len() implies is_digit(
            #[trigger] decimal(n)[i],
        ) by {
            if i < decimal(n / 10).len() {
                assert(decimal(n)[i] == decimal(n / 10)[i]);
            }
        }
    }
}

/// Zeros in front of digits change neither that they are digits nor the
/// number they stand for.
pub proof fn leading_zero_reads_back(s: Seq<char>)
    requires
        all_digits(s),
    ensures
        all_digits(seq!['0'] + s),
        digits_value(seq!['0'] + s) == digits_value(s),
    decreases s.len(),
{
    let longer = seq!['0'] + s;
    assert forall|i: int| 0 <= i < longer.len() implies is_digit(#[trigger] longer[i]) by {
        if i > 0 {
            assert(longer[i] == s[i - 1]);
        }
    }
    if s.len() == 0 {
        assert(longer.drop_last() =~= Seq::<char>::empty());
        assert(digits_value(longer.drop_last()) == 0);
    } else {
        assert(all_digits(s.drop_last())) by {
            assert forall|i: int| 0 <= i < s.drop_last().len() implies is_digit(
                #[trigger] s.drop_last()[i],
            ) by {
                assert(s.drop_last()[i] == s[i]);
            }
        }
        leading_zero_reads_back(s.drop_last());
        assert(longer.drop_last() =~= seq!['0'] + s.drop_last());
        assert(longer.last() == s.last());
    }
}

/// A number that fits in 32 bits, written with zeros in front up to two or
/// three digits, reads back as itself, as a signed and as an unsigned
/// numeral.
pub proof fn padded_reads_back(n: nat)
    requires
        n <= 0x7FFF_FFFF,
    ensures
        parsed_i32(decimal(n)) == Some(n as int),
        parsed_u32(decimal(n)) == Some(n as int),
        parsed_i32(two_digits(n)) == Some(n as int),
        parsed_i32(three_digits(n)) == Some(n as int),
        n < 100 ==> two_digits(n).len() == 2,
        n < 1000 ==> three_digits(n).len() == 3,
{
    decimal_reads_back(n);
    let d = decimal(n);
    assert(is_digit(d[0]));
    leading_zero_reads_back(d);
    let one = seq!['0'] + d;
    assert(is_digit(one[0]));
    leading_zero_reads_back(one);
    let two = seq!['0'] + one;
    assert(is_digit(two[0]));
    assert(two =~= seq!['0', '0'] + d);
    if n >= 10 {
        decimal_reads_back(n / 10);
        if n >= 100 {
            decimal_reads_back(n / 100);
            assert(n / 10 / 10 == n / 100);
        }
    }
}

} // verus!
