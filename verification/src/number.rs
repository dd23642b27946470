//! Decimal numerals: their value as exact integers, never as floating point.

use crate::text::{first_index, lemma_first_index, lemma_first_index_is};
use vstd::prelude::*;

verus! {

/// Whether `c` is one of the digits `0` to `9`.
pub open spec fn is_digit(c: char) -> bool {
    '0' <= c <= '9'
}

/// The value of a digit; 0 for any other character.
pub open spec fn digit_value(c: char) -> nat {
    if is_digit(c) {
        (c as int - '0' as int) as nat
    } else {
        0
    }
}

/// Whether every character of `s` is a digit.
pub open spec fn all_digits(s: Seq<char>) -> bool {
    forall|i: int| 0 <= i < s.len() ==> is_digit(#[trigger] s[i])
}

/// The number that the digits of `s` write in base ten; 0 for the empty
/// sequence.
pub open spec fn digits_value(s: Seq<char>) -> nat
    decreases s.len(),
{
    if s.len() == 0 {
        0
    } else {
        digits_value(s.drop_last()) * 10 + digit_value(s.last())
    }
}

/// Ten to the power `n`.
pub open spec fn pow10(n: nat) -> nat
    decreases n,
{
    if n == 0 {
        1
    } else {
        10 * pow10((n - 1) as nat)
    }
}

/// Powers of ten are positive and grow with the exponent.
pub proof fn lemma_pow10_positive(n: nat)
    ensures
        pow10(n) >= 1,
        pow10(n + 1) == 10 * pow10(n),
    decreases n,
{
    if n > 0 {
        lemma_pow10_positive((n - 1) as nat);
    }
}

/// A longer prefix never writes a smaller number.
pub proof fn lemma_digits_value_prefix(s: Seq<char>, k: int)
    requires
        0 <= k <= s.len(),
    ensures
        digits_value(s.take(k)) <= digits_value(s),
    decreases s.len() - k,
{
    if k == s.len() {
        assert(s.take(k) == s);
    } else {
        lemma_digits_value_prefix(s, k + 1);
        assert(s.take(k + 1).drop_last() == s.take(k));
    }
}

/// The value of a digit character.
pub fn digit_of(c: char) -> (r: Option<u8>)
    ensures
        r is Some == is_digit(c),
        r is Some ==> r->0 as nat == digit_value(c) && r->0 <= 9,
{
    if '0' <= c && c <= '9' {
        Some((c as u8) - ('0' as u8))
    } else {
        None
    }
}

/// Reads the characters of `v` from `from` up to `to` as a number in base
/// ten. `None` if one of them is no digit or the number does not fit.
pub fn parse_digits(v: &Vec<char>, from: usize, to: usize) -> (r: Option<u64>)
    requires
        from <= to <= v.len(),
    ensures
        r is Some <==> all_digits(v@.subrange(from as int, to as int)) && digits_value(
            v@.subrange(from as int, to as int),
        ) <= u64::MAX,
        r is Some ==> r->0 as nat == digits_value(v@.subrange(from as int, to as int)),
{
    let ghost s = v@.subrange(from as int, to as int);
    let mut acc: u64 = 0;
    let mut i: usize = from;
    while i < to
        invariant
            from <= i <= to <= v.len(),
            s == v@.subrange(from as int, to as int),
            all_digits(s.take(i - from)),
            acc as nat == digits_value(s.take(i - from)),
        decreases to - i,
    {
        let ghost k = i - from;
        proof {
            assert(s.take(k + 1).drop_last() == s.take(k));
            assert(s.take(k + 1).last() == s[k]);
            assert(s[k] == v@[i as int]);
        }
        match digit_of(v[i]) {
            None => {
                proof {
                    assert(!is_digit(s[k]));
                }
                return None;
            },
            Some(d) => {
                if acc > (u64::MAX - d as u64) / 10 {
                    proof {
                        lemma_digits_value_prefix(s, k + 1);
                    }
                    return None;
                }
                acc = acc * 10 + d as u64;
                proof {
                    assert forall|j: int| 0 <= j < k + 1 implies is_digit(
                        #[trigger] s.take(k + 1)[j],
                    ) by {
                        if j < k {
                            assert(s.take(k + 1)[j] == s.take(k)[j]);
                        }
                    }
                }
            },
        }
        i += 1;
    }
    proof {
        assert(s.take(to - from) == s);
    }
    Some(acc)
}

/// The digits before the decimal point of a numeral.
pub open spec fn whole_part(s: Seq<char>) -> Seq<char> {
    s.take(first_index(s, '.'))
}

/// The digits after the decimal point of a numeral; empty if it has no point.
pub open spec fn fraction_part(s: Seq<char>) -> Seq<char> {
    let k = first_index(s, '.');
    if k < s.len() {
        s.skip(k + 1)
    } else {
        Seq::empty()
    }
}

/// A decimal numeral: digits with at most one decimal point among them, and
/// at least one digit.
pub open spec fn is_decimal(s: Seq<char>) -> bool {
    &&& all_digits(whole_part(s))
    &&& all_digits(fraction_part(s))
    &&& whole_part(s).len() + fraction_part(s).len() >= 1
}

/// A decimal numeral as an exact number: `mantissa / 10^places`.
#[derive(Clone, Copy, Debug, PartialEq, Eq)]
pub struct Decimal {
    /// The digits of the numeral read as one integer, the point left out.
    pub mantissa: u64,
    /// How many digits stood after the point.
    pub places: u64,
}

/// The mantissa that `s` writes.
pub open spec fn decimal_mantissa(s: Seq<char>) -> nat {
    digits_value(whole_part(s) + fraction_part(s))
}

/// Reads `v` as a decimal numeral. `None` if it is none, or if its mantissa
/// does not fit.
pub fn parse_decimal(v: &Vec<char>) -> (r: Option<Decimal>)
    ensures
        r is Some <==> is_decimal(v@) && decimal_mantissa(v@) <= u64::MAX,
        r is Some ==> r->0.mantissa as nat == decimal_mantissa(v@) && r->0.places as nat
            == fraction_part(v@).len(),
{
    let n = v.len();
    let mut k: usize = 0;
    while k < n && v[k] != '.'
        invariant
            k <= n,
            n == v.len(),
            forall|i: int| 0 <= i < k ==> v@[i] != '.',
        decreases n - k,
    {
        k += 1;
    }
    proof {
        lemma_first_index_is(v@, '.', k as int);
        lemma_first_index(v@, '.');
    }
    let ghost whole = whole_part(v@);
    let ghost frac = fraction_part(v@);
    let first = if k < n {
        k + 1
    } else {
        n
    };
    proof {
        assert(whole == v@.subrange(0, k as int));
        assert(frac == v@.subrange(first as int, n as int));
    }
    if k + (n - first) == 0 {
        return None;
    }
    // One pass over the digits on both sides of the point, which is skipped.
    let mut i: usize = 0;
    let mut acc: u64 = 0;
    while i < n
        invariant
            i <= n,
            n == v.len(),
            k <= n,
            first as int == (if k < n {
                k + 1
            } else {
                n as int
            }),
            whole == v@.subrange(0, k as int),
            frac == v@.subrange(first as int, n as int),
            whole == whole_part(v@),
            frac == fraction_part(v@),
            i <= k ==> all_digits(whole.take(i as int)) && acc as nat == digits_value(
                whole.take(i as int),
            ),
            i > k ==> all_digits(whole) && all_digits(frac.take(i - first)) && acc as nat
                == digits_value(whole + frac.take(i - first)),
        decreases n - i,
    {
        if i == k {
            proof {
                assert(whole.take(i as int) == whole);
                assert(frac.take(0) == Seq::<char>::empty());
                assert(whole + frac.take(0) == whole);
            }
            i += 1;
        } else {
            let ghost cur = if i < k {
                whole.take(i as int)
            } else {
                whole + frac.take(i - first)
            };
            let ghost next = if i < k {
                whole.take(i as int + 1)
            } else {
                whole + frac.take(i - first + 1)
            };
            proof {
                assert(next.drop_last() == cur);
                assert(next.last() == v@[i as int]);
            }
            match digit_of(v[i]) {
                None => {
                    proof {
                        if i < k {
                            assert(!is_digit(whole[i as int]));
                        } else {
                            assert(!is_digit(frac[i - first]));
                        }
                    }
                    return None;
                },
                Some(d) => {
                    if acc > (u64::MAX - d as u64) / 10 {
                        proof {
                            let all = whole + frac;
                            lemma_digits_value_prefix(all, next.len() as int);
                            assert(all.take(next.len() as int) == next);
                        }
                        return None;
                    }
                    acc = acc * 10 + d as u64;
                    proof {
                        if i < k {
                            assert forall|j: int| 0 <= j < i + 1 implies is_digit(
                                #[trigger] whole.take(i as int + 1)[j],
                            ) by {
                                if j < i {
                                    assert(whole.take(i as int + 1)[j] == whole.take(i as int)[j]);
                                }
                            }
                        } else {
                            assert forall|j: int| 0 <= j < i - first + 1 implies is_digit(
                                #[trigger] frac.take(i - first + 1)[j],
                            ) by {
                                if j < i - first {
                                    assert(frac.take(i - first + 1)[j] == frac.take(i - first)[j]);
                                }
                            }
                        }
                    }
                },
            }
            i += 1;
        }
    }
    proof {
        if n <= k {
            assert(whole.take(n as int) == whole);
            assert(frac == Seq::<char>::empty());
            assert(whole + frac == whole);
        } else {
            assert(frac.take(n - first) == frac);
        }
    }
    Some(Decimal { mantissa: acc, places: (n - first) as u64 })
}

/// Ten to the power `places`, if it fits.
pub fn power_of_ten(places: u64) -> (r: Option<u64>)
    ensures
        r is Some <==> pow10(places as nat) <= u64::MAX,
        r is Some ==> r->0 as nat == pow10(places as nat),
{
    let mut acc: u64 = 1;
    let mut i: u64 = 0;
    while i < places
        invariant
            i <= places,
            acc as nat == pow10(i as nat),
        decreases places - i,
    {
        proof {
            lemma_pow10_positive(i as nat);
        }
        if acc > u64::MAX / 10 {
            proof {
                lemma_pow10_grows((i + 1) as nat, places as nat);
            }
            return None;
        }
        acc = acc * 10;
        i += 1;
    }
    Some(acc)
}

/// A larger exponent never gives a smaller power of ten.
pub proof fn lemma_pow10_grows(a: nat, b: nat)
    requires
        a <= b,
    ensures
        pow10(a) <= pow10(b),
    decreases b - a,
{
    if a < b {
        lemma_pow10_grows(a, (b - 1) as nat);
        lemma_pow10_positive((b - 1) as nat);
    }
}

/// `x` divided by ten to the power `places`, rounded down.
pub fn scale_down(x: u128, places: u64) -> (r: u128)
    ensures
        r as nat == x as nat / pow10(places as nat),
{
    let mut acc: u128 = x;
    let mut i: u64 = 0;
    proof {
        assert(pow10(0) == 1);
    }
    while i < places
        invariant
            i <= places,
            acc as nat == x as nat / pow10(i as nat),
        decreases places - i,
    {
        proof {
            lemma_pow10_positive(i as nat);
            vstd::arithmetic::div_mod::lemma_div_denominator(
                x as int,
                pow10(i as nat) as int,
                10,
            );
            assert(pow10(i as nat) * 10 == pow10((i + 1) as nat));
        }
        acc = acc / 10;
        i += 1;
    }
    acc
}

/// The character that writes the digit `d`.
pub open spec fn digit_char(d: nat) -> char {
    if d < 10 {
        ('0' as u8 + d as u8) as char
    } else {
        '0'
    }
}

/// The digits that write `n` in base ten, without leading zeros.
pub open spec fn decimal_digits(n: nat) -> Seq<char>
    decreases n,
{
    if n < 10 {
        seq![digit_char(n)]
    } else {
        decimal_digits(n / 10).push(digit_char(n % 10))
    }
}

/// `count` zeros.
pub open spec fn zeros(count: nat) -> Seq<char> {
    Seq::new(count, |i: int| '0')
}

/// The digits of `n`, with zeros in front up to `width` characters.
pub open spec fn zero_padded(n: nat, width: nat) -> Seq<char> {
    let digits = decimal_digits(n);
    if digits.len() < width {
        zeros((width - digits.len()) as nat) + digits
    } else {
        digits
    }
}

/// The digits of `n` with zeros in front up to `width` characters, a minus
/// sign counting as one of them.
pub open spec fn signed_padded(n: int, width: nat) -> Seq<char> {
    if n < 0 {
        seq!['-'] + zero_padded((-n) as nat, if width > 0 {
            (width - 1) as nat
        } else {
            0
        })
    } else {
        zero_padded(n as nat, width)
    }
}

/// Reading the digits that write `n` gives `n` back.
pub proof fn lemma_decimal_digits_value(n: nat)
    ensures
        all_digits(decimal_digits(n)),
        digits_value(decimal_digits(n)) == n,
        decimal_digits(n).len() >= 1,
    decreases n,
{
    if n >= 10 {
        lemma_decimal_digits_value(n / 10);
        let s = decimal_digits(n);
        let before = decimal_digits(n / 10);
        assert(s.drop_last() == before);
        assert(s.last() == digit_char(n % 10));
        assert forall|i: int| 0 <= i < s.len() implies is_digit(#[trigger] s[i]) by {
            if i < before.len() {
                assert(s[i] == before[i]);
            }
        }
    } else {
        let s = decimal_digits(n);
        assert(s.drop_last() == Seq::<char>::empty());
        assert(digits_value(s.drop_last()) == 0);
    }
}

/// Appends the digits that write `n` to `out`.
pub fn push_decimal(out: &mut Vec<char>, n: u64)
    ensures
        final(out)@ == old(out)@ + decimal_digits(n as nat),
    decreases n,
{
    if n >= 10 {
        push_decimal(out, n / 10);
    }
    let d: u8 = (n % 10) as u8;
    out.push((('0' as u8) + d) as char);
    proof {
        if n >= 10 {
            assert(final(out)@ == old(out)@ + decimal_digits(n as nat));
        } else {
            assert(old(out)@.push(digit_char(n as nat)) == old(out)@ + decimal_digits(n as nat));
        }
    }
}

/// Appends the digits that write `n` to `out`, with zeros in front up to
/// `width` characters, a minus sign counting as one of them.
pub fn push_padded(out: &mut Vec<char>, n: i64, width: usize)
    requires
        n > i64::MIN,
    ensures
        final(out)@ == old(out)@ + signed_padded(n as int, width as nat),
{
    let mut digits: Vec<char> = Vec::new();
    let mut room: usize = width;
    if n < 0 {
        out.push('-');
        push_decimal(&mut digits, (-n) as u64);
        if room > 0 {
            room -= 1;
        }
    } else {
        push_decimal(&mut digits, n as u64);
    }
    let ghost start = out@;
    let ghost magnitude: nat = if n < 0 {
        (-n) as nat
    } else {
        n as nat
    };
    proof {
        assert(digits@ == decimal_digits(magnitude));
    }
    let mut k: usize = digits.len();
    while k < room
        invariant
            digits.len() <= k || room <= digits.len(),
            k <= room || room <= digits.len(),
            room <= digits.len() ==> k == digits.len(),
            out@ == start + zeros((k - digits.len()) as nat),
        decreases room - k,
    {
        out.push('0');
        proof {
            assert(zeros((k + 1 - digits.len()) as nat) == zeros((k - digits.len()) as nat).push(
                '0',
            ));
        }
        k += 1;
    }
    out.append(&mut digits);
    proof {
        if n < 0 {
            assert(start == old(out)@ + seq!['-']);
        }
    }
}

} // verus!
