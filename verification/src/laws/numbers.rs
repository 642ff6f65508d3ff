//! Numbers: their order, their rounding, and what their text stands for.
use crate::binary64;
use crate::binary64::Float64;
use crate::decimal;
use crate::recorder;
use crate::text;
use vstd::arithmetic::div_mod::*;
use vstd::arithmetic::mul::*;
use vstd::arithmetic::power2::*;
use vstd::prelude::*;

verus! {

/// Of two numbers that are not NaN exactly one is less or they are equal; a NaN is neither less than
/// anything nor equal to it.
pub proof fn lemma_numbers_ordered(a: Float64, b: Float64, c: Float64)
    ensures
        !a.is_nan_spec() && !b.is_nan_spec() ==> a.less(b) || a.equals(b) || b.less(a),
        a.less(b) ==> !b.less(a) && !a.equals(b) && !a.is_nan_spec() && !b.is_nan_spec(),
        a.equals(b) ==> b.equals(a) && !a.is_nan_spec(),
        a.less(b) && b.less(c) ==> a.less(c),
        a.less(b) && b.equals(c) ==> a.less(c),
        a.equals(b) && b.less(c) ==> a.less(c),
        a.less_or_equal(b) <==> a.less(b) || a.equals(b),
        !a.is_nan_spec() ==> a.equals(a),
{
}

/// Changing the sign twice changes nothing, changing both signs turns the order round, and a number
/// is negative exactly where it has its sign bit and is not a zero.
pub proof fn lemma_signs(a: Float64, b: Float64)
    ensures
        a.negated().negated() == a,
        a.less(b) <==> b.negated().less(a.negated()),
        a.is_finite_spec() <==> a.negated().is_finite_spec(),
        a.is_nan_spec() <==> a.negated().is_nan_spec(),
        a.less(Float64::zero_spec()) <==> !a.is_nan_spec() && 0x8000_0000_0000_0000 < a.bits,
        Float64::zero_spec().negated().equals(Float64::zero_spec()),
{
}

/// A quantity can have been measured exactly where it is neither NaN nor infinite nor below zero.
pub proof fn lemma_quantities(a: Float64)
    ensures
        a.invalid_quantity_spec() <==> a.is_nan_spec() || a.bits == 0x7FF0_0000_0000_0000 || a.bits
            == 0xFFF0_0000_0000_0000 || a.less(Float64::zero_spec()),
        a.is_finite_spec() <==> !a.is_nan_spec() && a.bits != 0x7FF0_0000_0000_0000 && a.bits
            != 0xFFF0_0000_0000_0000,
{
}

proof fn lemma_units_rise(a: Float64, b: Float64)
    requires
        a.bits < b.bits < binary64::INFINITE,
    ensures
        binary64::units(a) < binary64::units(b),
{
    let k: int = 0x10_0000_0000_0000;
    let ea = a.bits as int / k;
    let ma = a.bits as int % k;
    let eb = b.bits as int / k;
    let mb = b.bits as int % k;
    lemma_fundamental_div_mod(a.bits as int, k);
    lemma_fundamental_div_mod(b.bits as int, k);
    if ea == eb {
        if ea > 0 {
            lemma_pow2_pos((ea - 1) as nat);
            lemma_mul_strict_inequality(k + ma, k + mb, pow2((ea - 1) as nat) as int);
        }
    } else {
        assert(ea < eb) by {
            if eb < ea {
                lemma_mul_inequality(eb + 1, ea, k);
            }
        }
        lemma_pow2_pos((eb - 1) as nat);
        lemma_mul_inequality(k, k + mb, pow2((eb - 1) as nat) as int);
        if ea == 0 {
            lemma_mul_inequality(1, pow2((eb - 1) as nat) as int, k);
            lemma_mul_is_commutative(k, pow2((eb - 1) as nat) as int);
        } else {
            let p = pow2((ea - 1) as nat) as int;
            lemma_pow2_pos((ea - 1) as nat);
            lemma_mul_strict_inequality(k + ma, 2 * k, p);
            lemma_pow2_unfold(ea as nat);
            if ea < eb - 1 {
                lemma_pow2_strictly_increases(ea as nat, (eb - 1) as nat);
            }
            lemma_mul_inequality(2 * p, pow2((eb - 1) as nat) as int, k);
            assert(2 * k * p == (2 * p) * k) by (nonlinear_arith);
            lemma_mul_is_commutative(k, pow2((eb - 1) as nat) as int);
        }
    }
}

/// The order of finite numbers that are not negative is the order of their values.
pub proof fn lemma_order_by_value(a: Float64, b: Float64)
    requires
        a.bits < binary64::INFINITE,
        b.bits < binary64::INFINITE,
    ensures
        a.less(b) <==> binary64::units(a) < binary64::units(b),
        a.equals(b) <==> binary64::units(a) == binary64::units(b),
{
    if a.bits < b.bits {
        lemma_units_rise(a, b);
    } else if b.bits < a.bits {
        lemma_units_rise(b, a);
    }
}

/// Rounding a quotient gives a nearest integer, and the even one where two are as near.
pub proof fn lemma_nearest(x: nat, d: nat)
    requires
        d > 0,
    ensures
        ({
            let n = binary64::nearest_even(x, d);
            &&& 2 * (x - n * d) <= d
            &&& 2 * (n * d - x) <= d
            &&& 2 * (x - n * d) == d || 2 * (n * d - x) == d ==> n % 2 == 0
        }),
{
    lemma_fundamental_div_mod(x as int, d as int);
    lemma_mod_bound(x as int, d as int);
    let q = x as int / d as int;
    let r = x as int % d as int;
    lemma_mul_is_commutative(q, d as int);
    lemma_mul_is_distributive_add_other_way(d as int, q, 1);
    assert((q + 1) * d == q * d + d);
}

/// The slots of a share are its number times the period, and whole; a share that comes to no whole
/// slots has none.
pub proof fn lemma_slots_exact(d: nat, e: int, period: nat, n: nat)
    ensures
        e >= 0 ==> decimal::whole_product(d, e, period) == Some(
            d * decimal::pow10(e as nat) * period,
        ),
        e < 0 ==> (decimal::whole_product(d, e, period) == Some(n) <==> n * decimal::pow10(
            (-e) as nat,
        ) == d * period),
{
    if e < 0 {
        let p = decimal::pow10((-e) as nat) as int;
        let x = (d * period) as int;
        lemma_power_positive((-e) as nat);
        lemma_fundamental_div_mod(x, p);
        if x % p == 0 {
            lemma_mul_is_commutative(p, x / p);
            if n * p == x {
                lemma_div_multiples_vanish(n as int, p);
                lemma_mul_is_commutative(n as int, p);
            }
        } else if n * p == x {
            lemma_mod_multiples_basic(n as int, p);
        }
    }
}

proof fn lemma_power_positive(n: nat)
    ensures
        decimal::pow10(n) > 0,
    decreases n,
{
    if n > 0 {
        lemma_power_positive((n - 1) as nat);
    }
}

proof fn lemma_free(s: Seq<char>, c: char)
    requires
        text::free_of(s, c),
    ensures
        text::first_index(s, c) == s.len(),
{
    text::lemma_first_index_unique(s, c, s.len() as int);
}

proof fn lemma_digits_free(s: Seq<char>, c: char)
    requires
        decimal::all_digits(s),
        !decimal::is_digit(c),
    ensures
        text::free_of(s, c),
{
}

/// A row of digits stands for its number, and one with a point for its digits with as many of them
/// behind the point.
pub proof fn lemma_plain_numbers(whole: Seq<char>, fraction: Seq<char>)
    requires
        decimal::all_digits(whole),
        decimal::all_digits(fraction),
        whole.len() > 0,
    ensures
        decimal::decimal_of(whole) == Some((decimal::number(whole), 0int)),
        decimal::decimal_of(whole + seq!['.'] + fraction) == Some(
            (decimal::number(whole + fraction), -(fraction.len() as int)),
        ),
{
    assert(!decimal::is_digit('e') && !decimal::is_digit('E') && !decimal::is_digit('.')
        && !decimal::is_digit('+'));
    lemma_digits_free(whole, 'e');
    lemma_digits_free(whole, 'E');
    lemma_digits_free(whole, '.');
    lemma_free(whole, 'e');
    lemma_free(whole, 'E');
    lemma_free(whole, '.');
    assert(decimal::is_digit(whole[0]));
    assert(decimal::unsigned(whole) == whole);
    assert(whole.take(whole.len() as int) =~= whole);
    assert(whole + Seq::<char>::empty() =~= whole);
    assert(decimal::mantissa_of(whole) == Some((decimal::number(whole), 0nat)));
    let s = whole + seq!['.'] + fraction;
    assert forall|c: char| (c == 'e' || c == 'E') implies text::free_of(s, c) by {
        assert forall|i: int| 0 <= i < s.len() implies #[trigger] s[i] != c by {
            if i < whole.len() {
                assert(decimal::is_digit(whole[i]));
            } else if i > whole.len() {
                assert(decimal::is_digit(fraction[i - whole.len() - 1]));
            }
        }
    }
    lemma_free(s, 'e');
    lemma_free(s, 'E');
    text::lemma_first_index_unique(s, '.', whole.len() as int);
    assert(s[0] == whole[0]);
    assert(decimal::unsigned(s) == s);
    assert(s.take(s.len() as int) =~= s);
    assert(s.take(whole.len() as int) =~= whole);
    assert(s.skip(whole.len() as int + 1) =~= fraction);
    assert(decimal::mantissa_of(s) == Some((decimal::number(whole + fraction), fraction.len())));
}

/// A plus sign changes nothing; a number with a minus sign is none.
pub proof fn lemma_signed_numbers(s: Seq<char>)
    ensures
        s.len() == 0 || s[0] != '+' ==> decimal::decimal_of(seq!['+'] + s) == decimal::decimal_of(s),
        decimal::decimal_of(seq!['-'] + s) is None,
{
    let plus = seq!['+'] + s;
    assert(plus.skip(1) =~= s);
    let minus = seq!['-'] + s;
    let k = decimal::exponent_mark(minus);
    text::lemma_first_index(minus, 'e');
    text::lemma_first_index(minus, 'E');
    assert(minus[0] == '-');
    assert(k > 0) by {
        if k == 0 {
            assert(minus[0] == 'e' || minus[0] == 'E');
        }
    }
    let t = minus.take(k as int);
    assert(t[0] == '-');
    assert(!decimal::is_digit('-'));
    text::lemma_first_index(t, '.');
    let point = text::first_index(t, '.') as int;
    assert(point > 0) by {
        if point == 0 {
            assert(t[0] == '.');
        }
    }
    let whole = t.take(point);
    assert(whole[0] == '-');
    assert(!decimal::all_digits(whole));
}

/// An exponent moves the point: behind an `e` of either case, with its sign.
#[verifier::spinoff_prover]
pub proof fn lemma_exponents(s: Seq<char>, mark: char, digits: Seq<char>)
    requires
        mark == 'e' || mark == 'E',
        text::free_of(s, 'e'),
        text::free_of(s, 'E'),
        decimal::decimal_of(s) is Some,
        digits.len() > 0,
        decimal::all_digits(digits),
    ensures
        ({
            let (d, e) = decimal::decimal_of(s)->0;
            let n = decimal::number(digits);
            &&& decimal::decimal_of(s + seq![mark] + digits) == Some((d, e + n))
            &&& decimal::decimal_of(s + seq![mark] + (seq!['+'] + digits)) == Some((d, e + n))
            &&& decimal::decimal_of(s + seq![mark] + (seq!['-'] + digits)) == Some((d, e - n))
        }),
{
    lemma_exponent_texts(digits);
    let n = decimal::number(digits) as int;
    lemma_exponent(s, mark, digits, n);
    lemma_exponent(s, mark, seq!['+'] + digits, n);
    lemma_exponent(s, mark, seq!['-'] + digits, -n);
}

proof fn lemma_exponent_texts(digits: Seq<char>)
    requires
        digits.len() > 0,
        decimal::all_digits(digits),
    ensures
        decimal::exponent_of(digits) == Some(decimal::number(digits) as int),
        decimal::exponent_of(seq!['+'] + digits) == Some(decimal::number(digits) as int),
        decimal::exponent_of(seq!['-'] + digits) == Some(-(decimal::number(digits) as int)),
{
    assert(!decimal::is_digit('+') && !decimal::is_digit('-'));
    assert(decimal::is_digit(digits[0]));
    let plus = seq!['+'] + digits;
    let minus = seq!['-'] + digits;
    assert(plus[0] == '+' && minus[0] == '-');
    assert(plus.skip(1) =~= digits);
    assert(minus.skip(1) =~= digits);
}

proof fn lemma_marked(t: Seq<char>, mark: char, behind: Seq<char>)
    requires
        mark == 'e' || mark == 'E',
        text::free_of(t, 'e'),
        text::free_of(t, 'E'),
    ensures
        decimal::exponent_mark(t + seq![mark] + behind) == t.len(),
        decimal::exponent_mark(t) == t.len(),
{
    lemma_free(t, 'e');
    lemma_free(t, 'E');
    let u = t + seq![mark] + behind;
    let k = t.len() as int;
    text::lemma_first_index(u, 'e');
    text::lemma_first_index(u, 'E');
    assert forall|i: int| 0 <= i < k implies u[i] != 'e' && u[i] != 'E' by {
        assert(u[i] == t[i]);
    }
    assert(u[k] == mark);
    text::lemma_first_index_unique(u, mark, k);
}

#[verifier::spinoff_prover]
proof fn lemma_exponent(s: Seq<char>, mark: char, behind: Seq<char>, x: int)
    requires
        mark == 'e' || mark == 'E',
        text::free_of(s, 'e'),
        text::free_of(s, 'E'),
        decimal::decimal_of(s) is Some,
        decimal::exponent_of(behind) == Some(x),
    ensures
        ({
            let (d, e) = decimal::decimal_of(s)->0;
            decimal::decimal_of(s + seq![mark] + behind) == Some((d, e + x))
        }),
{
    let all = s + seq![mark] + behind;
    let t = decimal::unsigned(s);
    lemma_unsigned_front(s, mark, behind);
    lemma_marked(t, mark, behind);
    let u = t + seq![mark] + behind;
    let k = t.len() as int;
    assert(decimal::unsigned(all) == u);
    assert(u.take(k) =~= t);
    assert(t.take(k) =~= t);
    assert(u.skip(k + 1) =~= behind);
}

proof fn lemma_unsigned_front(s: Seq<char>, mark: char, behind: Seq<char>)
    requires
        mark != '+',
        text::free_of(s, 'e'),
        text::free_of(s, 'E'),
    ensures
        decimal::unsigned(s + seq![mark] + behind) == decimal::unsigned(s) + seq![mark] + behind,
        text::free_of(decimal::unsigned(s), 'e'),
        text::free_of(decimal::unsigned(s), 'E'),
{
    let all = s + seq![mark] + behind;
    if s.len() > 0 {
        assert(all[0] == s[0]);
        if s[0] == '+' {
            assert(all.skip(1) =~= s.skip(1) + seq![mark] + behind);
            assert forall|i: int| 0 <= i < s.skip(1).len() implies #[trigger] s.skip(1)[i] != 'e'
                && s.skip(1)[i] != 'E' by {
                assert(s.skip(1)[i] == s[i + 1]);
            }
        }
    } else {
        assert(all[0] == mark);
    }
}

/// A latency falls into the bin that starts at or below it: the start of a bin is in that bin, and a
/// longer latency is never in an earlier one.
pub proof fn lemma_bins_in_order(a: nat, b: nat)
    requires
        a <= b,
    ensures
        recorder::bin_floor(a) <= recorder::bin_floor(b),
        recorder::bin_floor(recorder::bin_floor(a)) == recorder::bin_floor(a),
    decreases b,
{
    if b >= 2048 {
        lemma_bins_in_order(a / 2, b / 2);
        if a >= 2048 {
            let f = recorder::bin_floor(a / 2);
            assert(2 * f / 2 == f);
            lemma_bin_large(a / 2);
        } else {
            lemma_bin_large(b / 2);
        }
    }
}

proof fn lemma_bin_large(v: nat)
    requires
        v >= 1024,
    ensures
        recorder::bin_floor(v) >= 1024,
    decreases v,
{
    if v >= 2048 {
        lemma_bin_large(v / 2);
    }
}

} // verus!
