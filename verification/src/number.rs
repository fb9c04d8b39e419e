//! Decimal numbers as text: parsing and writing of integers and of
//! fixed-point values with four decimals.

use crate::strings::chars_of;
use vstd::prelude::*;

verus! {

/// Whether `c` is a decimal digit.
pub open spec fn is_digit(c: char) -> bool {
    '0' <= c <= '9'
}

/// The value of a decimal digit.
pub open spec fn digit_value(c: char) -> nat {
    (c as u32 - '0' as u32) as nat
}

/// Whether every character is a decimal digit.
pub open spec fn all_digits(s: Seq<char>) -> bool {
    forall|i: int| 0 <= i < s.len() ==> is_digit(#[trigger] s[i])
}

/// The number that a sequence of digits writes; 0 for the empty sequence.
pub open spec fn digits_value(s: Seq<char>) -> nat
    decreases s.len(),
{
    if s.len() == 0 {
        0
    } else {
        digits_value(s.drop_last()) * 10 + digit_value(s.last())
    }
}

/// The number that `s` writes in decimal, with an optional leading `+`, if
/// it is at most `max`.
pub open spec fn parse_unsigned_spec(s: Seq<char>, max: nat) -> Option<nat> {
    let t = if s.len() > 0 && s[0] == '+' {
        s.drop_first()
    } else {
        s
    };
    if t.len() > 0 && all_digits(t) && digits_value(t) <= max {
        Some(digits_value(t))
    } else {
        None
    }
}

/// A longer sequence of digits writes a number that is at least as large.
pub proof fn lemma_digits_value_monotone(s: Seq<char>, n: int)
    requires
        0 <= n <= s.len(),
    ensures
        digits_value(s.take(n)) <= digits_value(s),
    decreases s.len() - n,
{
    if n < s.len() {
        lemma_digits_value_monotone(s, n + 1);
        assert(s.take(n + 1).drop_last() =~= s.take(n));
    } else {
        assert(s.take(n) =~= s);
    }
}

/// The value of the digits `v[from..to]` if they are all digits and the value
/// is at most `max`.
pub fn parse_digits(v: &Vec<char>, from: usize, to: usize, max: u64) -> (r: Option<u64>)
    requires
        from <= to <= v.len(),
        max <= 0x0fff_ffff_ffff_ffff,
    ensures
        r == (if all_digits(v@.subrange(from as int, to as int)) && digits_value(
            v@.subrange(from as int, to as int),
        ) <= max {
            Some(digits_value(v@.subrange(from as int, to as int)) as u64)
        } else {
            None
        }),
{
    let ghost s = v@.subrange(from as int, to as int);
    let mut acc: u64 = 0;
    let mut i: usize = from;
    while i < to
        invariant
            from <= i <= to <= v.len(),
            s == v@.subrange(from as int, to as int),
            max <= 0x0fff_ffff_ffff_ffff,
            all_digits(s.take(i - from)),
            acc == digits_value(s.take(i - from)),
            acc <= max,
        decreases to - i,
    {
        let c = v[i];
        assert(s[i - from] == c);
        if c < '0' || c > '9' {
            assert(!is_digit(s[i - from]));
            return None;
        }
        let d: u64 = (c as u32 - '0' as u32) as u64;
        let next: u64 = acc * 10 + d;
        let ghost k: int = i - from;
        assert(s.take(k + 1).drop_last() =~= s.take(k));
        assert(s.take(k + 1).last() == c);
        assert(next == digits_value(s.take(k + 1)));
        if next > max {
            proof {
                lemma_digits_value_monotone(s, k + 1);
            }
            return None;
        }
        assert forall|j: int| 0 <= j < k + 1 implies is_digit(#[trigger] s.take(k + 1)[j]) by {
            if j < k {
                assert(s.take(k)[j] == s[j]);
            }
        }
        acc = next;
        i += 1;
    }
    assert(s.take(to - from) =~= s);
    Some(acc)
}

/// The number that the characters write, with an optional leading `+`, if it
/// is at most `max`.
pub fn parse_unsigned(s: &str, max: u64) -> (r: Option<u64>)
    requires
        max <= 0x0fff_ffff_ffff_ffff,
    ensures
        r == (match parse_unsigned_spec(s@, max as nat) {
            Some(n) => Some(n as u64),
            None => None,
        }),
{
    let v = chars_of(s);
    let from: usize = if v.len() > 0 && v[0] == '+' {
        1
    } else {
        0
    };
    assert(v@.subrange(from as int, v.len() as int) =~= (if from == 1 {
        s@.drop_first()
    } else {
        s@
    }));
    if from == v.len() {
        return None;
    }
    parse_digits(&v, from, v.len(), max)
}

/// The number below 256 that the characters write.
pub open spec fn parse_u8_spec(s: Seq<char>) -> Option<u8> {
    match parse_unsigned_spec(s, 255) {
        Some(n) => Some(n as u8),
        None => None,
    }
}

/// Reads a number below 256.
pub fn parse_u8(s: &str) -> (r: Option<u8>)
    ensures
        r == parse_u8_spec(s@),
{
    match parse_unsigned(s, 255) {
        Some(n) => Some(n as u8),
        None => None,
    }
}

/// The 32-bit number that the characters write.
pub open spec fn parse_u32_spec(s: Seq<char>) -> Option<u32> {
    match parse_unsigned_spec(s, 0xffff_ffff) {
        Some(n) => Some(n as u32),
        None => None,
    }
}

/// Reads a 32-bit number.
pub fn parse_u32(s: &str) -> (r: Option<u32>)
    ensures
        r == parse_u32_spec(s@),
{
    match parse_unsigned(s, 0xffff_ffff) {
        Some(n) => Some(n as u32),
        None => None,
    }
}

/// The character of a decimal digit.
pub open spec fn digit_char(d: nat) -> char
    recommends
        d < 10,
{
    if d == 0 {
        '0'
    } else if d == 1 {
        '1'
    } else if d == 2 {
        '2'
    } else if d == 3 {
        '3'
    } else if d == 4 {
        '4'
    } else if d == 5 {
        '5'
    } else if d == 6 {
        '6'
    } else if d == 7 {
        '7'
    } else if d == 8 {
        '8'
    } else {
        '9'
    }
}

/// The decimal digits of a number, without leading zeros.
pub open spec fn digits_of(n: nat) -> Seq<char>
    decreases n,
{
    if n < 10 {
        seq![digit_char(n)]
    } else {
        digits_of(n / 10).push(digit_char(n % 10))
    }
}

/// The character of a decimal digit.
fn digit_of(d: u64) -> (c: char)
    requires
        d < 10,
    ensures
        c == digit_char(d as nat),
{
    if d == 0 {
        '0'
    } else if d == 1 {
        '1'
    } else if d == 2 {
        '2'
    } else if d == 3 {
        '3'
    } else if d == 4 {
        '4'
    } else if d == 5 {
        '5'
    } else if d == 6 {
        '6'
    } else if d == 7 {
        '7'
    } else if d == 8 {
        '8'
    } else {
        '9'
    }
}

/// Appends the decimal digits of a number.
pub fn write_digits(n: u64, out: &mut String)
    ensures
        final(out)@ == old(out)@ + digits_of(n as nat),
    decreases n,
{
    if n >= 10 {
        write_digits(n / 10, out);
    }
    out.push(digit_of(n % 10));
    assert(out@ =~= old(out)@ + digits_of(n as nat));
}

/// Appends the decimal digits of a number of up to 128 bits.
pub fn write_digits_wide(n: u128, out: &mut String)
    ensures
        final(out)@ == old(out)@ + digits_of(n as nat),
    decreases n,
{
    if n >= 10 {
        write_digits_wide(n / 10, out);
    }
    out.push(digit_of((n % 10) as u64));
    assert(out@ =~= old(out)@ + digits_of(n as nat));
}

/// The decimal digits of a number.
pub fn decimal_string(n: u64) -> (r: String)
    ensures
        r@ == digits_of(n as nat),
{
    let mut out = String::new();
    write_digits(n, &mut out);
    assert(out@ =~= digits_of(n as nat));
    out
}

/// The digits behind the decimal point of a fixed-point value with the
/// fraction `f`, of four digits at most: without zeros at the end.
pub open spec fn fraction_text(f: nat) -> Seq<char>
    recommends
        0 < f < 10000,
{
    let a = digit_char(f / 1000);
    let b = digit_char(f / 100 % 10);
    let c = digit_char(f / 10 % 10);
    let d = digit_char(f % 10);
    if f % 1000 == 0 {
        seq![a]
    } else if f % 100 == 0 {
        seq![a, b]
    } else if f % 10 == 0 {
        seq![a, b, c]
    } else {
        seq![a, b, c, d]
    }
}

/// A fixed-point value as decimal text: a minus sign if it is negative, the
/// whole part, and, unless the fraction is zero, a point and the fraction
/// without zeros at the end.
pub open spec fn fixed_text(v: int) -> Seq<char> {
    let a = if v < 0 {
        -v
    } else {
        v
    };
    (if v < 0 {
        seq!['-']
    } else {
        Seq::empty()
    }) + digits_of((a / 10000) as nat) + (if a % 10000 == 0 {
        Seq::empty()
    } else {
        seq!['.'] + fraction_text((a % 10000) as nat)
    })
}

/// Writes a fixed-point value as decimal text.
pub fn fixed_string(v: i32) -> (r: String)
    ensures
        r@ == fixed_text(v as int),
{
    fixed_string_wide(v as i64)
}

/// Writes a wide fixed-point value as decimal text.
pub fn fixed_string_wide(v: i64) -> (r: String)
    ensures
        r@ == fixed_text(v as int),
{
    let mut out = String::new();
    let a: u64 = if v < 0 {
        out.push('-');
        (-(v as i128)) as u64
    } else {
        v as u64
    };
    let ghost sign = out@;
    write_digits(a / 10000, &mut out);
    let f: u64 = a % 10000;
    if f != 0 {
        let ghost whole = out@;
        out.push('.');
        out.push(digit_of(f / 1000));
        if f % 1000 != 0 {
            out.push(digit_of(f / 100 % 10));
            if f % 100 != 0 {
                out.push(digit_of(f / 10 % 10));
                if f % 10 != 0 {
                    out.push(digit_of(f % 10));
                }
            }
        }
        assert(out@ =~= whole + (seq!['.'] + fraction_text(f as nat)));
    }
    assert(out@ =~= fixed_text(v as int));
    out
}

/// A number of hundredths as decimal text with two digits behind the point.
pub open spec fn two_places_text(h: int) -> Seq<char> {
    let a = if h < 0 {
        -h
    } else {
        h
    };
    (if h < 0 {
        seq!['-']
    } else {
        Seq::empty()
    }) + digits_of((a / 100) as nat) + seq!['.', digit_char((a / 10 % 10) as nat), digit_char(
        (a % 10) as nat,
    )]
}

/// Writes a number of hundredths with two digits behind the point.
pub fn two_places(h: i32) -> (r: String)
    ensures
        r@ == two_places_text(h as int),
{
    let mut out = String::new();
    let a: u64 = if h < 0 {
        out.push('-');
        (-(h as i64)) as u64
    } else {
        h as u64
    };
    write_digits(a / 100, &mut out);
    out.push('.');
    out.push(digit_of(a / 10 % 10));
    out.push(digit_of(a % 10));
    assert(out@ =~= two_places_text(h as int));
    out
}

/// The value of the first `n` digits behind the point, with zeros for the
/// digits that are not there.
pub open spec fn fraction_value(f: Seq<char>, n: nat) -> nat
    decreases n,
{
    if n == 0 {
        0
    } else {
        fraction_value(f, (n - 1) as nat) * 10 + (if n - 1 < f.len() {
            digit_value(f[n - 1])
        } else {
            0
        })
    }
}

/// The place of the first point in the characters, or their number if there
/// is none.
pub open spec fn point_place(s: Seq<char>) -> int
    decreases s.len(),
{
    if s.len() == 0 {
        0
    } else if s[0] == '.' {
        0
    } else {
        1 + point_place(s.drop_first())
    }
}

/// The fixed-point value that decimal text writes: an optional sign, the
/// digits of the whole part, and optionally a point and the digits of the
/// fraction, with one digit at least. The value is rounded to four digits
/// behind the point, a fifth digit of 5 or more rounding away from zero.
/// `None` for any other text and for a value beyond 32 bits.
pub open spec fn parse_fixed_spec(s: Seq<char>) -> Option<i32> {
    let negative = s.len() > 0 && s[0] == '-';
    let body = if s.len() > 0 && (s[0] == '-' || s[0] == '+') {
        s.drop_first()
    } else {
        s
    };
    let p = point_place(body);
    let whole = body.take(p);
    let fraction = if p < body.len() {
        body.skip(p + 1)
    } else {
        Seq::empty()
    };
    let rounded = fraction_value(fraction, 4) + (if fraction.len() > 4 && digit_value(fraction[4])
        >= 5 {
        1nat
    } else {
        0nat
    });
    let value = digits_value(whole) * 10000 + rounded;
    let signed = if negative {
        -(value as int)
    } else {
        value as int
    };
    if whole.len() + fraction.len() > 0 && all_digits(whole) && all_digits(fraction) && digits_value(
        whole,
    ) <= 214748 && i32::MIN <= signed <= i32::MAX {
        Some(signed as i32)
    } else {
        None
    }
}

/// `point_place` lies within the characters, finds a point if it lies
/// before their end, and no point lies before it.
pub proof fn lemma_point_place(s: Seq<char>)
    ensures
        0 <= point_place(s) <= s.len(),
        point_place(s) < s.len() ==> s[point_place(s)] == '.',
        forall|i: int| 0 <= i < point_place(s) ==> s[i] != '.',
    decreases s.len(),
{
    if s.len() > 0 && s[0] != '.' {
        lemma_point_place(s.drop_first());
        assert forall|i: int| 0 <= i < point_place(s) implies s[i] != '.' by {
            if i > 0 {
                assert(s.drop_first()[i - 1] == s[i]);
            }
        }
    }
}

/// The place of the first point in `v[from..]`.
fn find_point(v: &Vec<char>, from: usize) -> (p: usize)
    requires
        from <= v.len(),
    ensures
        from <= p <= v.len(),
        p - from == point_place(v@.skip(from as int)),
{
    let mut i: usize = from;
    while i < v.len()
        invariant
            from <= i <= v.len(),
            point_place(v@.skip(from as int)) == (i - from) + point_place(v@.skip(i as int)),
        decreases v.len() - i,
    {
        assert(v@.skip(i as int)[0] == v@[i as int]);
        assert(v@.skip(i as int).drop_first() =~= v@.skip(i + 1));
        if v[i] == '.' {
            return i;
        }
        i += 1;
    }
    assert(v@.skip(i as int).len() == 0);
    i
}

/// Whether all of `v[from..to]` are digits.
fn digits_only(v: &Vec<char>, from: usize, to: usize) -> (r: bool)
    requires
        from <= to <= v.len(),
    ensures
        r == all_digits(v@.subrange(from as int, to as int)),
{
    let mut i: usize = from;
    while i < to
        invariant
            from <= i <= to <= v.len(),
            forall|j: int| from <= j < i ==> is_digit(v@[j]),
        decreases to - i,
    {
        if v[i] < '0' || v[i] > '9' {
            assert(!is_digit(v@.subrange(from as int, to as int)[i - from]));
            return false;
        }
        i += 1;
    }
    assert forall|j: int| 0 <= j < to - from implies is_digit(
        #[trigger] v@.subrange(from as int, to as int)[j],
    ) by {
        assert(is_digit(v@[from + j]));
    }
    true
}

/// Reads a fixed-point value from decimal text.
#[verifier::rlimit(50)]
pub fn parse_fixed(s: &str) -> (r: Option<i32>)
    ensures
        r == parse_fixed_spec(s@),
{
    let v = chars_of(s);
    let negative = v.len() > 0 && v[0] == '-';
    let from: usize = if v.len() > 0 && (v[0] == '-' || v[0] == '+') {
        1
    } else {
        0
    };
    let ghost body = v@.skip(from as int);
    assert(body =~= (if s@.len() > 0 && (s@[0] == '-' || s@[0] == '+') {
        s@.drop_first()
    } else {
        s@
    }));
    proof {
        lemma_point_place(body);
    }
    let p = find_point(&v, from);
    let ghost whole = body.take(p - from);
    assert(whole =~= v@.subrange(from as int, p as int));
    let frac_from: usize = if p < v.len() {
        p + 1
    } else {
        p
    };
    let ghost fraction = if p - from < body.len() {
        body.skip(p - from + 1)
    } else {
        Seq::empty()
    };
    assert(fraction =~= v@.subrange(frac_from as int, v.len() as int));
    if (p - from) + (v.len() - frac_from) == 0 {
        return None;
    }
    if !digits_only(&v, frac_from, v.len()) {
        return None;
    }
    let Some(w) = parse_digits(&v, from, p, 214748) else {
        return None;
    };
    let mut acc: u64 = 0;
    let mut k: usize = 0;
    while k < 4
        invariant
            k <= 4,
            frac_from <= v.len(),
            fraction == v@.subrange(frac_from as int, v.len() as int),
            all_digits(fraction),
            acc == fraction_value(fraction, k as nat),
            acc < 10000,
            k == 0 ==> acc == 0,
            k == 1 ==> acc < 10,
            k == 2 ==> acc < 100,
            k == 3 ==> acc < 1000,
        decreases 4 - k,
    {
        let d: u64 = if k < v.len() - frac_from {
            assert(fraction[k as int] == v@[frac_from + k]);
            assert(is_digit(fraction[k as int]));
            (v[frac_from + k] as u32 - '0' as u32) as u64
        } else {
            0
        };
        acc = acc * 10 + d;
        k += 1;
    }
    let round: u64 = if v.len() - frac_from > 4 {
        assert(fraction[4] == v@[frac_from + 4]);
        assert(is_digit(fraction[4]));
        if v[frac_from + 4] >= '5' {
            1
        } else {
            0
        }
    } else {
        0
    };
    let value: i64 = (w * 10000 + acc + round) as i64;
    let signed: i64 = if negative {
        -value
    } else {
        value
    };
    if signed < (i32::MIN as i64) || signed > (i32::MAX as i64) {
        None
    } else {
        Some(signed as i32)
    }
}

} // verus!
