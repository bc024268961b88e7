//! Decimal text for the calculator display: digit strings and the
//! formatting of an exact rational result.
//!
//! A result that is an integer renders without a decimal point. Any other
//! result is rounded to nine decimal places (ties away from zero), then
//! trailing zeros and a trailing point are stripped.

use vstd::prelude::*;
use vstd::arithmetic::div_mod::{
    lemma_fundamental_div_mod, lemma_mod_multiples_basic, lemma_div_multiples_vanish,
    lemma_small_mod, lemma_mod_division_less_than_divisor,
};
use vstd::math::abs;
use crate::number::{Rat, RatModel, rm, mag_max};

verus! {

/// ASCII decimal digit.
pub open spec fn is_digit(b: u8) -> bool {
    48 <= b <= 57
}

/// Every byte a decimal digit.
pub open spec fn all_digits(s: Seq<u8>) -> bool {
    forall|i: int| 0 <= i < s.len() ==> is_digit(#[trigger] s[i])
}

/// Numeric value of a digit string, most significant digit first.
pub open spec fn digits_val(s: Seq<u8>) -> int
    decreases s.len(),
{
    if s.len() == 0 {
        0
    } else {
        digits_val(s.drop_last()) * 10 + s.last() - 48
    }
}

/// Decimal digit text of a natural number, no sign, no leading zeros.
pub open spec fn dec_digits(n: nat) -> Seq<u8>
    decreases n,
{
    if n < 10 {
        seq![(48 + n) as u8]
    } else {
        dec_digits(n / 10).push((48 + n % 10) as u8)
    }
}

/// Ten to the given power.
pub open spec fn pow10(e: nat) -> nat
    decreases e,
{
    if e == 0 {
        1
    } else {
        10 * pow10((e - 1) as nat)
    }
}

/// The digit text of a number holds only digits, at least one.
pub proof fn lemma_dec_digits_wf(n: nat)
    ensures
        dec_digits(n).len() >= 1,
        all_digits(dec_digits(n)),
    decreases n,
{
    if n >= 10 {
        lemma_dec_digits_wf(n / 10);
    }
}

/// The digit text of a number reads back as that number.
pub proof fn lemma_dec_digits_val(n: nat)
    ensures
        digits_val(dec_digits(n)) == n,
    decreases n,
{
    if n < 10 {
        let s = seq![(48 + n) as u8];
        assert(s.drop_last() =~= Seq::<u8>::empty());
        assert(digits_val(s.drop_last()) == 0);
        assert(s.last() == 48 + n);
    } else {
        lemma_dec_digits_val(n / 10);
        let s = dec_digits(n / 10).push((48 + n % 10) as u8);
        assert(s.drop_last() == dec_digits(n / 10));
        assert(digits_val(s) == (n / 10) * 10 + (n % 10));
        lemma_fundamental_div_mod(n as int, 10);
    }
}

/// Appends the decimal digits of `n` to `out`.
pub fn push_dec_digits(n: u128, out: &mut Vec<u8>)
    ensures
        final(out)@ == old(out)@ + dec_digits(n as nat),
    decreases n,
{
    if n >= 10 {
        push_dec_digits(n / 10, out);
        let d = (n % 10) as u8;
        out.push(48 + d);
        proof {
            assert(final(out)@ =~= old(out)@ + dec_digits(n as nat));
        }
    } else {
        let d = n as u8;
        out.push(48 + d);
        proof {
            assert(final(out)@ =~= old(out)@ + dec_digits(n as nat));
        }
    }
}

/// Powers of ten are positive.
pub proof fn lemma_pow10_pos(e: nat)
    ensures
        pow10(e) >= 1,
    decreases e,
{
    if e > 0 {
        lemma_pow10_pos((e - 1) as nat);
    }
}

/// Larger exponents give at least as large powers.
pub proof fn lemma_pow10_monotone(a: nat, b: nat)
    requires
        a <= b,
    ensures
        pow10(a) <= pow10(b),
        pow10(a) >= 1,
    decreases b,
{
    lemma_pow10_pos(a);
    if a < b {
        lemma_pow10_monotone(a, (b - 1) as nat);
        assert(pow10(b) == 10 * pow10((b - 1) as nat));
    }
}

/// Ten to the power `e`, or `None` when it does not fit the machine word.
pub fn pow10_u128(e: usize) -> (r: Option<u128>)
    ensures
        (r is Some) == (pow10(e as nat) <= mag_max()),
        r matches Some(p) ==> p as int == pow10(e as nat),
{
    let mut acc: u128 = 1;
    let mut i: usize = 0;
    while i < e
        invariant
            i <= e,
            acc as nat == pow10(i as nat),
        decreases e - i,
    {
        acc = match acc.checked_mul(10) {
            Some(v) => v,
            None => {
                proof {
                    assert(pow10((i + 1) as nat) == 10 * pow10(i as nat));
                    lemma_pow10_monotone((i + 1) as nat, e as nat);
                }
                return None;
            },
        };
        i = i + 1;
    }
    proof {
        lemma_pow10_monotone(0, e as nat);
    }
    Some(acc)
}

/// The nine decimal places of a fraction numerator `f < 10^9`.
pub open spec fn frac9(f: nat) -> Seq<u8> {
    Seq::new(9, |i: int| (48 + (f / pow10((8 - i) as nat)) % 10) as u8)
}

/// Drops trailing zero digits.
pub open spec fn strip_zeros(s: Seq<u8>) -> Seq<u8>
    decreases s.len(),
{
    if s.len() > 0 && s.last() == 48 {
        strip_zeros(s.drop_last())
    } else {
        s
    }
}

/// Stripping keeps only bytes that were already there.
pub proof fn lemma_strip_zeros_digits(s: Seq<u8>)
    requires
        all_digits(s),
    ensures
        all_digits(strip_zeros(s)),
        strip_zeros(s).len() <= s.len(),
    decreases s.len(),
{
    if s.len() > 0 && s.last() == 48 {
        assert(all_digits(s.drop_last()));
        lemma_strip_zeros_digits(s.drop_last());
    }
}

/// Index of the first decimal point in a numeral body, or the length when
/// there is none.
pub open spec fn dot_pos(b: Seq<u8>) -> int
    decreases b.len(),
{
    if b.len() == 0 {
        0
    } else if b[0] == 46 {
        0
    } else {
        1 + dot_pos(b.skip(1))
    }
}

/// Where the first decimal point stands: nothing before it is a point, and
/// the byte there (if any) is one.
pub proof fn lemma_dot_pos(b: Seq<u8>)
    ensures
        0 <= dot_pos(b) <= b.len(),
        forall|i: int| 0 <= i < dot_pos(b) ==> b[i] != 46,
        dot_pos(b) < b.len() ==> b[dot_pos(b)] == 46,
    decreases b.len(),
{
    if b.len() > 0 && b[0] != 46 {
        lemma_dot_pos(b.skip(1));
        assert(forall|i: int| 0 <= i < dot_pos(b) ==> b[i] != 46) by {
            assert(forall|i: int| 1 <= i < dot_pos(b) ==> b[i] == b.skip(1)[i - 1]);
        }
    }
}

/// A position with a point, preceded only by non-points, is the first one.
pub proof fn lemma_dot_pos_at(b: Seq<u8>, k: int)
    requires
        0 <= k <= b.len(),
        forall|i: int| 0 <= i < k ==> b[i] != 46,
        k < b.len() ==> b[k] == 46,
    ensures
        dot_pos(b) == k,
    decreases b.len(),
{
    if b.len() > 0 && b[0] != 46 {
        assert(forall|i: int| 0 <= i < k - 1 ==> b.skip(1)[i] != 46);
        lemma_dot_pos_at(b.skip(1), k - 1);
    }
}

/// The body of a numeral: the text after an optional leading minus.
pub open spec fn num_body(s: Seq<u8>) -> Seq<u8> {
    if s.len() > 0 && s[0] == 45 {
        s.skip(1)
    } else {
        s
    }
}

/// Whether the numeral carries a leading minus.
pub open spec fn num_neg(s: Seq<u8>) -> bool {
    s.len() > 0 && s[0] == 45
}

/// The digits before the decimal point.
pub open spec fn int_part(s: Seq<u8>) -> Seq<u8> {
    num_body(s).take(dot_pos(num_body(s)))
}

/// The digits after the decimal point, empty when there is none.
pub open spec fn frac_part(s: Seq<u8>) -> Seq<u8> {
    let b = num_body(s);
    let d = dot_pos(b);
    if d < b.len() {
        b.skip(d + 1)
    } else {
        Seq::<u8>::empty()
    }
}

/// A well-formed display numeral: an optional minus, at least one integer
/// digit, an optional point followed by digits only.
pub open spec fn valid_numeral(s: Seq<u8>) -> bool {
    &&& int_part(s).len() >= 1
    &&& all_digits(int_part(s))
    &&& all_digits(frac_part(s))
}

/// The magnitude scaled by ten to the number of fraction digits.
pub open spec fn numeral_mag(s: Seq<u8>) -> int {
    digits_val(int_part(s) + frac_part(s))
}

/// The exact value a display reads back as. Text that is not a well-formed
/// numeral, or whose scaled magnitude cannot be represented, reads as zero
/// (as the original display text "Error" does).
pub open spec fn parse_display(s: Seq<u8>) -> RatModel {
    if valid_numeral(s) && numeral_mag(s) <= mag_max() && pow10(frac_part(s).len() as nat)
        <= mag_max() {
        rm(
            if num_neg(s) {
                -numeral_mag(s)
            } else {
                numeral_mag(s)
            },
            pow10(frac_part(s).len() as nat) as int,
        )
    } else {
        rm(0, 1)
    }
}

/// A digit string reads as a value at least zero.
pub proof fn lemma_digits_val_nonneg(s: Seq<u8>)
    requires
        all_digits(s),
    ensures
        digits_val(s) >= 0,
    decreases s.len(),
{
    if s.len() > 0 {
        assert(all_digits(s.drop_last()));
        lemma_digits_val_nonneg(s.drop_last());
        assert(digits_val(s.drop_last()) * 10 >= 0) by (nonlinear_arith)
            requires
                digits_val(s.drop_last()) >= 0,
        ;
    }
}

/// Reading a concatenation: the left part is scaled by ten to the length of
/// the right part.
pub proof fn lemma_digits_val_append(s: Seq<u8>, t: Seq<u8>)
    ensures
        digits_val(s + t) == digits_val(s) * pow10(t.len()) + digits_val(t),
    decreases t.len(),
{
    if t.len() == 0 {
        assert(s + t =~= s);
        assert(pow10(t.len()) == 1);
        assert(digits_val(t) == 0);
        assert(digits_val(s) * pow10(t.len()) == digits_val(s)) by (nonlinear_arith)
            requires
                pow10(t.len()) == 1,
        ;
    } else {
        let t0 = t.drop_last();
        lemma_digits_val_append(s, t0);
        assert((s + t).drop_last() =~= s + t0);
        assert((s + t).last() == t.last());
        assert(digits_val(s + t) == digits_val(s + t0) * 10 + t.last() - 48);
        assert(digits_val(t) == digits_val(t0) * 10 + t.last() - 48);
        assert((digits_val(s) * pow10(t0.len()) + digits_val(t0)) * 10 == digits_val(s) * (10
            * pow10(t0.len())) + digits_val(t0) * 10) by (nonlinear_arith);
        assert(pow10(t.len()) == 10 * pow10(t0.len()));
        assert(digits_val(s + t) == digits_val(s) * pow10(t.len()) + digits_val(t));
    }
}

/// A digit string never reads back as less than any of its prefixes.
pub proof fn lemma_digits_val_prefix(s: Seq<u8>, t: Seq<u8>)
    requires
        all_digits(s),
        all_digits(t),
    ensures
        digits_val(s + t) >= digits_val(s),
{
    lemma_digits_val_append(s, t);
    lemma_digits_val_nonneg(s);
    lemma_digits_val_nonneg(t);
    lemma_pow10_monotone(0, t.len());
    assert(digits_val(s) * pow10(t.len()) >= digits_val(s)) by (nonlinear_arith)
        requires
            pow10(t.len()) >= 1,
            digits_val(s) >= 0,
    ;
}

/// Splitting a valid numeral's digit text at a point inside the integer
/// part: what stands before is a digit prefix of the whole digit text.
proof fn lemma_valid_split_int(s: Seq<u8>, j: int)
    requires
        valid_numeral(s),
        0 <= j <= dot_pos(num_body(s)),
    ensures
        int_part(s) + frac_part(s) =~= num_body(s).take(j) + (num_body(s).subrange(
            j,
            dot_pos(num_body(s)),
        ) + frac_part(s)),
        all_digits(num_body(s).subrange(j, dot_pos(num_body(s)))),
        all_digits(num_body(s).take(j)),
{
    let b = num_body(s);
    let d = dot_pos(b);
    lemma_dot_pos(b);
    assert(forall|i: int| 0 <= i < d - j ==> b.subrange(j, d)[i] == int_part(s)[j + i]);
    assert(forall|i: int| 0 <= i < j ==> b.take(j)[i] == int_part(s)[i]);
}

/// Splitting a valid numeral's digit text inside the fraction part.
proof fn lemma_valid_split_frac(s: Seq<u8>, j: int)
    requires
        valid_numeral(s),
        dot_pos(num_body(s)) < num_body(s).len(),
        dot_pos(num_body(s)) + 1 <= j <= num_body(s).len(),
    ensures
        int_part(s) + frac_part(s) =~= (int_part(s) + num_body(s).subrange(
            dot_pos(num_body(s)) + 1,
            j,
        )) + num_body(s).subrange(j, num_body(s).len() as int),
        all_digits(num_body(s).subrange(j, num_body(s).len() as int)),
        all_digits(int_part(s) + num_body(s).subrange(dot_pos(num_body(s)) + 1, j)),
{
    let b = num_body(s);
    let d = dot_pos(b);
    lemma_dot_pos(b);
    assert(forall|i: int| 0 <= i < b.len() - j ==> b.subrange(j, b.len() as int)[i] == frac_part(
        s,
    )[j - d - 1 + i]);
    assert(forall|i: int| 0 <= i < j - d - 1 ==> b.subrange(d + 1, j)[i] == frac_part(s)[i]);
}

/// The display text of an exact rational result.
///
/// An integer renders as its plain digit text with an optional leading
/// minus. Any other value is rounded to nine decimal places, ties away from
/// zero, and the trailing zeros (and a bare trailing point) are stripped.
pub open spec fn spec_format(m: RatModel) -> Seq<u8>
    recommends
        m.den >= 1,
{
    if m.num % m.den == 0 {
        if m.num < 0 {
            seq![45u8] + dec_digits((-(m.num / m.den)) as nat)
        } else {
            dec_digits((m.num / m.den) as nat)
        }
    } else {
        let q = (2 * abs(m.num) * 1000000000 + m.den) / (2 * m.den);
        let ip = q / 1000000000;
        let fr = q % 1000000000;
        let frac = strip_zeros(frac9(fr as nat));
        let body = if frac.len() == 0 {
            dec_digits(ip as nat)
        } else {
            dec_digits(ip as nat) + seq![46u8] + frac
        };
        if m.num < 0 {
            seq![45u8] + body
        } else {
            body
        }
    }
}

/// The rounded magnitude of a non-integral value fits the machine word.
pub open spec fn format_fits(m: RatModel) -> bool
    recommends
        m.den >= 1,
{
    ||| m.num % m.den == 0
    ||| (2 * abs(m.num) * 1000000000 + m.den <= mag_max() && 2 * m.den <= mag_max())
}

/// Negating a value keeps divisibility and negates the exact quotient.
proof fn lemma_exact_div_neg(x: int, d: int)
    requires
        d >= 1,
        x % d == 0,
    ensures
        (-x) % d == 0,
        (-x) / d == -(x / d),
{
    lemma_fundamental_div_mod(x, d);
    assert(x == d * (x / d));
    vstd::arithmetic::mul::lemma_mul_unary_negation(d, x / d);
    assert(-x == d * (-(x / d)));
    lemma_mod_multiples_basic(-(x / d), d);
    lemma_div_multiples_vanish(-(x / d), d);
}

/// Formats a well-formed rational; `None` exactly when the rounded
/// magnitude cannot be represented.
pub fn format_rat(r: &Rat) -> (out: Option<Vec<u8>>)
    requires
        r.wf(),
    ensures
        (out is Some) == format_fits(r@),
        out matches Some(v) ==> v@ == spec_format(r@),
{
    let ghost m = r@;
    if r.mag % r.den == 0 {
        proof {
            if r.neg {
                lemma_exact_div_neg(r.mag as int, r.den as int);
                assert(m.num % m.den == 0);
                assert(-(m.num / m.den) == r.mag as int / r.den as int);
            }
        }
        let mut v: Vec<u8> = Vec::new();
        if r.neg {
            v.push(45);
        }
        let q = r.mag / r.den;
        push_dec_digits(q, &mut v);
        proof {
            assert(v@ =~= spec_format(m));
        }
        return Some(v);
    }
    proof {
        if r.neg {
            if (-(r.mag as int)) % (r.den as int) == 0 {
                lemma_exact_div_neg(-(r.mag as int), r.den as int);
            }
        }
        assert(m.num % m.den != 0);
        assert(abs(m.num) == r.mag as int);
    }
    let t1 = match r.mag.checked_mul(2000000000) {
        Some(v) => v,
        None => {
            proof {
                assert(2 * abs(m.num) * 1000000000 == r.mag as int * 2000000000) by (nonlinear_arith)
                    requires
                        abs(m.num) == r.mag as int,
                ;
            }
            return None;
        },
    };
    proof {
        assert(2 * abs(m.num) * 1000000000 == r.mag as int * 2000000000) by (nonlinear_arith)
            requires
                abs(m.num) == r.mag as int,
        ;
    }
    let aa = match t1.checked_add(r.den) {
        Some(v) => v,
        None => {
            return None;
        },
    };
    let bb = match r.den.checked_mul(2) {
        Some(v) => v,
        None => {
            return None;
        },
    };
    proof {
        assert(r.den as int * 2 == 2 * m.den);
    }
    let q = aa / bb;
    let ip = q / 1000000000;
    let fr = q % 1000000000;
    proof {
        assert(q as int == (2 * abs(m.num) * 1000000000 + m.den) / (2 * m.den));
        lemma_mod_division_less_than_divisor(q as int, 1000000000);
    }
    let mut v: Vec<u8> = Vec::new();
    if r.neg {
        v.push(45);
    }
    push_dec_digits(ip, &mut v);
    let mut fd: Vec<u8> = Vec::new();
    let mut p: u128 = 100000000;
    proof {
        assert(pow10(8) == 100000000) by {
            reveal_with_fuel(pow10, 9);
        }
    }
    let mut k: usize = 0;
    while k < 9
        invariant
            k <= 9,
            k < 9 ==> p as nat == pow10((8 - k) as nat),
            fd@ =~= frac9(fr as nat).take(k as int),
            fr < 1000000000,
        decreases 9 - k,
    {
        proof {
            lemma_pow10_monotone(0, (8 - k) as nat);
            lemma_mod_division_less_than_divisor((fr as int / p as int), 10);
        }
        let d = ((fr / p) % 10) as u8;
        fd.push(48 + d);
        proof {
            assert(fd@ =~= frac9(fr as nat).take(k + 1 as int));
        }
        if k < 8 {
            proof {
                assert(pow10((8 - k) as nat) == 10 * pow10((8 - (k + 1)) as nat));
            }
            p = p / 10;
            proof {
                lemma_div_multiples_vanish(pow10((8 - (k + 1)) as nat) as int, 10);
            }
        }
        k = k + 1;
    }
    proof {
        assert(fd@ =~= frac9(fr as nat));
    }
    while fd.len() > 0 && fd[fd.len() - 1] == 48
        invariant
            strip_zeros(fd@) == strip_zeros(frac9(fr as nat)),
        decreases fd.len(),
    {
        let ghost before = fd@;
        fd.pop();
        proof {
            assert(fd@ == before.drop_last());
        }
    }
    proof {
        assert(strip_zeros(fd@) == fd@);
    }
    if fd.len() > 0 {
        v.push(46);
        v.append(&mut fd);
        proof {
            assert(v@ =~= spec_format(m));
        }
        Some(v)
    } else {
        proof {
            assert(v@ =~= spec_format(m));
        }
        Some(v)
    }
}

/// Plain ASCII text, safe to hand to the renderer.
pub open spec fn printable(s: Seq<u8>) -> bool {
    forall|i: int| 0 <= i < s.len() ==> #[trigger] s[i] < 128
}

/// The nine fraction places are digits.
pub proof fn lemma_frac9_digits(f: nat)
    ensures
        all_digits(frac9(f)),
{
    assert forall|i: int| 0 <= i < 9 implies is_digit(#[trigger] frac9(f)[i]) by {
        lemma_pow10_pos((8 - i) as nat);
        lemma_mod_division_less_than_divisor(f as int / pow10((8 - i) as nat) as int, 10);
        vstd::arithmetic::div_mod::lemma_mod_bound(
            f as int / pow10((8 - i) as nat) as int,
            10,
        );
    }
}

/// Whatever the formatter produces is plain ASCII.
pub proof fn lemma_format_printable(m: RatModel)
    requires
        m.den >= 1,
    ensures
        printable(spec_format(m)),
{
    if m.num % m.den == 0 {
        if m.num < 0 {
            lemma_dec_digits_wf((-(m.num / m.den)) as nat);
        } else {
            lemma_dec_digits_wf((m.num / m.den) as nat);
        }
    } else {
        let q = (2 * abs(m.num) * 1000000000 + m.den) / (2 * m.den);
        let ip = q / 1000000000;
        let fr = q % 1000000000;
        lemma_dec_digits_wf(ip as nat);
        lemma_frac9_digits(fr as nat);
        lemma_strip_zeros_digits(frac9(fr as nat));
    }
}

/// A value equal to its truncated integer renders without a decimal point:
/// whenever the denominator divides the numerator, no byte of the display
/// text is a point.
pub proof fn lemma_integral_formats_without_point(m: RatModel)
    requires
        m.den >= 1,
        m.num % m.den == 0,
    ensures
        forall|i: int| 0 <= i < spec_format(m).len() ==> #[trigger] spec_format(m)[i] != 46,
{
    if m.num < 0 {
        lemma_dec_digits_wf((-(m.num / m.den)) as nat);
    } else {
        lemma_dec_digits_wf((m.num / m.den) as nat);
    }
}

/// Builds a rational from a sign and magnitudes, normalising the sign of
/// zero.
fn make_rat(neg: bool, mag: u128, den: u128) -> (r: Rat)
    requires
        den >= 1,
    ensures
        r.wf(),
        r@ == rm(
            if neg {
                -(mag as int)
            } else {
                mag as int
            },
            den as int,
        ),
{
    Rat { neg: neg && mag > 0, mag, den }
}

/// Pushing one byte moves the first decimal point only when the byte is
/// the first point.
proof fn lemma_dot_pos_push(b: Seq<u8>, x: u8)
    ensures
        dot_pos(b.push(x)) == if dot_pos(b) < b.len() {
            dot_pos(b)
        } else if x == 46 {
            b.len() as int
        } else {
            b.len() as int + 1
        },
{
    lemma_dot_pos(b);
    let p = b.push(x);
    assert(forall|i: int| 0 <= i < b.len() ==> p[i] == b[i]);
    if dot_pos(b) < b.len() {
        lemma_dot_pos_at(p, dot_pos(b));
    } else if x == 46 {
        lemma_dot_pos_at(p, b.len() as int);
    } else {
        lemma_dot_pos_at(p, b.len() as int + 1);
    }
}

/// A single digit is a well-formed numeral.
pub proof fn lemma_single_digit_numeral(x: u8)
    requires
        is_digit(x),
    ensures
        valid_numeral(seq![x]),
{
    let s = seq![x];
    assert(num_body(s) == s);
    lemma_dot_pos_at(s, 1);
    assert(int_part(s) =~= s);
    assert(frac_part(s) =~= Seq::<u8>::empty());
}

/// The fresh-point display `0.` is a well-formed numeral.
pub proof fn lemma_zero_dot_numeral()
    ensures
        valid_numeral(seq![48u8, 46u8]),
{
    let s = seq![48u8, 46u8];
    assert(num_body(s) == s);
    lemma_dot_pos_at(s, 1);
    assert(int_part(s) =~= seq![48u8]);
    assert(frac_part(s) =~= Seq::<u8>::empty());
}

/// Appending a digit keeps a numeral well formed.
pub proof fn lemma_push_digit_keeps_numeral(d: Seq<u8>, x: u8)
    requires
        valid_numeral(d),
        is_digit(x),
    ensures
        valid_numeral(d.push(x)),
{
    let b = num_body(d);
    let p = d.push(x);
    assert(num_body(p) =~= b.push(x));
    let bp = num_body(p);
    lemma_dot_pos(b);
    lemma_dot_pos_push(b, x);
    assert(x != 46);
    if dot_pos(b) < b.len() {
        assert(dot_pos(bp) == dot_pos(b));
        assert(int_part(p) =~= int_part(d));
        assert(frac_part(p) =~= frac_part(d).push(x)) by {
            assert(bp =~= b.push(x));
        }
    } else {
        assert(dot_pos(bp) == b.len() as int + 1);
        assert(int_part(p) =~= int_part(d).push(x));
        assert(frac_part(p) =~= Seq::<u8>::empty());
    }
}

/// Appending the first decimal point keeps a numeral well formed.
pub proof fn lemma_push_dot_keeps_numeral(d: Seq<u8>)
    requires
        valid_numeral(d),
        !d.contains(46u8),
    ensures
        valid_numeral(d.push(46u8)),
{
    let b = num_body(d);
    let p = d.push(46u8);
    assert(num_body(p) =~= b.push(46u8));
    let bp = num_body(p);
    lemma_dot_pos(b);
    assert(dot_pos(b) == b.len()) by {
        if dot_pos(b) < b.len() {
            assert(b[dot_pos(b)] == 46);
            if num_neg(d) {
                assert(d[dot_pos(b) + 1] == 46);
            } else {
                assert(d[dot_pos(b)] == 46);
            }
            assert(d.contains(46u8));
        }
    }
    lemma_dot_pos_push(b, 46u8);
    assert(dot_pos(bp) == b.len() as int);
    assert(int_part(p) =~= int_part(d));
    assert(frac_part(p) =~= Seq::<u8>::empty());
}

/// Whatever the formatter produces is a well-formed numeral.
pub proof fn lemma_format_valid_numeral(m: RatModel)
    requires
        m.den >= 1,
    ensures
        valid_numeral(spec_format(m)),
{
    if m.num % m.den == 0 {
        let q = if m.num < 0 {
            (-(m.num / m.den)) as nat
        } else {
            (m.num / m.den) as nat
        };
        lemma_dec_digits_wf(q);
        let s = spec_format(m);
        assert(num_body(s) =~= dec_digits(q));
        let b = num_body(s);
        assert(forall|i: int| 0 <= i < b.len() ==> b[i] != 46) by {
            assert(forall|i: int| 0 <= i < b.len() ==> is_digit(#[trigger] b[i]));
        }
        lemma_dot_pos_at(b, b.len() as int);
        assert(int_part(s) =~= b);
        assert(frac_part(s) =~= Seq::<u8>::empty());
    } else {
        let q = (2 * abs(m.num) * 1000000000 + m.den) / (2 * m.den);
        let ip = q / 1000000000;
        let fr = q % 1000000000;
        let frac = strip_zeros(frac9(fr as nat));
        lemma_dec_digits_wf(ip as nat);
        lemma_frac9_digits(fr as nat);
        lemma_strip_zeros_digits(frac9(fr as nat));
        let s = spec_format(m);
        let head = dec_digits(ip as nat);
        if frac.len() == 0 {
            assert(num_body(s) =~= head);
            let b = num_body(s);
            assert(forall|i: int| 0 <= i < b.len() ==> b[i] != 46) by {
                assert(forall|i: int| 0 <= i < b.len() ==> is_digit(#[trigger] b[i]));
            }
            lemma_dot_pos_at(b, b.len() as int);
            assert(int_part(s) =~= b);
            assert(frac_part(s) =~= Seq::<u8>::empty());
        } else {
            assert(num_body(s) =~= head + seq![46u8] + frac);
            let b = num_body(s);
            assert(forall|i: int| 0 <= i < head.len() ==> b[i] == head[i]);
            assert(forall|i: int| 0 <= i < head.len() ==> b[i] != 46) by {
                assert(forall|i: int| 0 <= i < head.len() ==> is_digit(#[trigger] head[i]));
            }
            assert(b[head.len() as int] == 46);
            lemma_dot_pos_at(b, head.len() as int);
            assert(int_part(s) =~= head);
            assert(frac_part(s) =~= frac);
        }
    }
}

/// An integer result shown on the display reads back as exactly that
/// integer: parsing the digit text of `n` gives the value `n` over one.
pub proof fn lemma_integer_display_round_trip(n: nat)
    requires
        n <= mag_max(),
    ensures
        parse_display(dec_digits(n)) == rm(n as int, 1),
{
    lemma_dec_digits_wf(n);
    lemma_dec_digits_val(n);
    let s = dec_digits(n);
    assert(is_digit(s[0]));
    assert(num_body(s) == s);
    assert(!num_neg(s));
    assert(forall|i: int| 0 <= i < s.len() ==> s[i] != 46) by {
        assert(forall|i: int| 0 <= i < s.len() ==> is_digit(#[trigger] s[i]));
    }
    lemma_dot_pos_at(s, s.len() as int);
    assert(int_part(s) =~= s);
    assert(frac_part(s) =~= Seq::<u8>::empty());
    assert(int_part(s) + frac_part(s) =~= s);
    assert(numeral_mag(s) == n);
    assert(pow10(0) == 1);
}

/// Reads a display text back as the exact rational it shows. Text that is
/// not a well-formed numeral, or whose value cannot be represented, reads
/// as zero.
pub fn parse_display_bytes(s: &Vec<u8>) -> (r: Rat)
    ensures
        r.wf(),
        r@ == parse_display(s@),
{
    let n = s.len();
    let neg = n > 0 && s[0] == 45;
    let start: usize = if neg { 1 } else { 0 };
    let ghost b = num_body(s@);
    proof {
        assert(b =~= s@.skip(start as int));
        lemma_dot_pos(b);
    }
    let mut i: usize = start;
    let mut acc: u128 = 0;
    while i < n && 48 <= s[i] && s[i] <= 57
        invariant
            start <= i <= n,
            n == s@.len(),
            start == if num_neg(s@) { 1int } else { 0int },
            b == num_body(s@),
            b =~= s@.skip(start as int),
            all_digits(b.take(i - start)),
            acc as int == digits_val(b.take(i - start)),
        decreases n - i,
    {
        let ghost pre = b.take(i - start);
        let d8 = s[i] - 48;
        let overflowed: bool;
        match acc.checked_mul(10) {
            Some(a10) => {
                match a10.checked_add(d8 as u128) {
                    Some(a2) => {
                        acc = a2;
                        overflowed = false;
                    },
                    None => {
                        overflowed = true;
                    },
                }
            },
            None => {
                overflowed = true;
            },
        }
        proof {
            assert(b.take(i + 1 - start) =~= pre.push(s@[i as int]));
            assert(pre.push(s@[i as int]).drop_last() =~= pre);
            lemma_digits_val_nonneg(pre);
        }
        if overflowed {
            proof {
                let p1 = b.take(i + 1 - start);
                assert(digits_val(p1) == digits_val(pre) * 10 + s@[i as int] - 48);
                assert(digits_val(p1) > mag_max());
                if valid_numeral(s@) {
                    lemma_dot_pos(b);
                    let dp = dot_pos(b);
                    assert(all_digits(p1)) by {
                        assert(forall|x: int| 0 <= x < pre.len() ==> p1[x] == pre[x]);
                        assert(p1[p1.len() - 1] == s@[i as int]);
                    }
                    assert(dp >= i + 1 - start) by {
                        if dp < i + 1 - start {
                            assert(b[dp] == 46);
                            assert(p1[dp] == b[dp]);
                            assert(is_digit(p1[dp]));
                        }
                    }
                    lemma_valid_split_int(s@, i + 1 - start);
                    lemma_digits_val_prefix(
                        p1,
                        b.subrange(i + 1 - start, dot_pos(b)) + frac_part(s@),
                    );
                    assert(all_digits(
                        b.subrange(i + 1 - start, dot_pos(b)) + frac_part(s@),
                    )) by {
                        assert(forall|x: int|
                            0 <= x < frac_part(s@).len() ==> is_digit(#[trigger] frac_part(s@)[x]));
                    }
                    assert(numeral_mag(s@) > mag_max());
                }
            }
            return Rat::zero();
        }
        i = i + 1;
    }
    if i == start {
        proof {
            if valid_numeral(s@) {
                lemma_dot_pos(b);
                if start >= n {
                    assert(b.len() == 0);
                    assert(int_part(s@).len() == 0);
                } else {
                    assert(b[0] == s@[start as int]);
                    if b[0] == 46 {
                        assert(dot_pos(b) == 0);
                        assert(int_part(s@).len() == 0);
                    } else {
                        lemma_dot_pos(b.skip(1));
                        assert(dot_pos(b) >= 1);
                        assert(int_part(s@)[0] == b[0]);
                        assert(!is_digit(b[0]));
                    }
                }
            }
        }
        return Rat::zero();
    }
    if i == n {
        proof {
            assert(b.take(b.len() as int) =~= b);
            assert(all_digits(b));
            assert(forall|x: int| 0 <= x < b.len() ==> b[x] != 46) by {
                assert(forall|x: int| 0 <= x < b.len() ==> is_digit(#[trigger] b[x]));
            }
            lemma_dot_pos_at(b, b.len() as int);
            assert(int_part(s@) =~= b);
            assert(frac_part(s@) =~= Seq::<u8>::empty());
            assert(int_part(s@) + frac_part(s@) =~= b);
            assert(valid_numeral(s@));
            assert(numeral_mag(s@) == acc as int);
            assert(pow10(0) == 1);
        }
        return make_rat(neg, acc, 1);
    }
    if s[i] != 46 {
        proof {
            let k = i - start;
            if valid_numeral(s@) {
                lemma_dot_pos(b);
                let dp = dot_pos(b);
                assert(dp > k) by {
                    if dp <= k {
                        assert(dp < b.len());
                        assert(b[dp] == 46);
                        if dp < k {
                            assert(is_digit(b.take(k as int)[dp]));
                        }
                    }
                }
                assert(int_part(s@)[k as int] == b[k as int]);
                assert(!is_digit(b[k as int]));
            }
        }
        return Rat::zero();
    }
    let dotidx = i;
    let ghost d = (dotidx - start) as int;
    proof {
        assert(b[d] == s@[dotidx as int]);
        assert(forall|x: int| 0 <= x < d ==> b[x] != 46) by {
            assert(forall|x: int| 0 <= x < d ==> is_digit(#[trigger] b.take(d)[x]));
            assert(forall|x: int| 0 <= x < d ==> b.take(d)[x] == b[x]);
        }
        lemma_dot_pos_at(b, d);
        assert(int_part(s@) =~= b.take(d));
    }
    let mut j: usize = dotidx + 1;
    while j < n && 48 <= s[j] && s[j] <= 57
        invariant
            dotidx + 1 <= j <= n,
            n == s@.len(),
            start == if num_neg(s@) { 1int } else { 0int },
            start <= dotidx < n,
            b == num_body(s@),
            b =~= s@.skip(start as int),
            d == dotidx - start,
            dot_pos(b) == d,
            b[d] == 46,
            1 <= d,
            all_digits(b.take(d)),
            int_part(s@) =~= b.take(d),
            all_digits(b.subrange(d + 1, j - start)),
            acc as int == digits_val(b.take(d) + b.subrange(d + 1, j - start)),
        decreases n - j,
    {
        let ghost pre = b.take(d) + b.subrange(d + 1, j - start);
        let d8 = s[j] - 48;
        let overflowed: bool;
        match acc.checked_mul(10) {
            Some(a10) => {
                match a10.checked_add(d8 as u128) {
                    Some(a2) => {
                        acc = a2;
                        overflowed = false;
                    },
                    None => {
                        overflowed = true;
                    },
                }
            },
            None => {
                overflowed = true;
            },
        }
        proof {
            assert(b.subrange(d + 1, j + 1 - start) =~= b.subrange(d + 1, j - start).push(
                s@[j as int],
            ));
            assert(b.take(d) + b.subrange(d + 1, j + 1 - start) =~= pre.push(s@[j as int]));
            assert(pre.push(s@[j as int]).drop_last() =~= pre);
            lemma_digits_val_nonneg(pre);
        }
        if overflowed {
            proof {
                let p1 = pre.push(s@[j as int]);
                assert(digits_val(p1) == digits_val(pre) * 10 + s@[j as int] - 48);
                assert(digits_val(p1) > mag_max());
                if valid_numeral(s@) {
                    lemma_valid_split_frac(s@, j + 1 - start);
                    assert(p1 =~= int_part(s@) + b.subrange(d + 1, j + 1 - start));
                    lemma_digits_val_prefix(p1, b.subrange(j + 1 - start, b.len() as int));
                    assert(numeral_mag(s@) > mag_max());
                }
            }
            return Rat::zero();
        }
        j = j + 1;
    }
    if j < n {
        proof {
            if valid_numeral(s@) {
                let k = j - start;
                assert(frac_part(s@) =~= b.skip(d + 1));
                assert(frac_part(s@)[k - d - 1] == b[k as int]);
                assert(!is_digit(b[k as int]));
            }
        }
        return Rat::zero();
    }
    proof {
        assert(frac_part(s@) =~= b.subrange(d + 1, j - start));
        assert(valid_numeral(s@));
        assert(int_part(s@) + frac_part(s@) =~= b.take(d) + b.subrange(d + 1, j - start));
        assert(numeral_mag(s@) == acc as int);
    }
    let f = n - dotidx - 1;
    proof {
        assert(f as int == frac_part(s@).len());
    }
    let den = match pow10_u128(f) {
        Some(v) => v,
        None => {
            return Rat::zero();
        },
    };
    proof {
        lemma_pow10_pos(f as nat);
    }
    make_rat(neg, acc, den)
}

} // verus!
