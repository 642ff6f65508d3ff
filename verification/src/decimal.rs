//! Decimal numbers, read from their text without rounding, and the whole slots that they come to.
use crate::text;
use crate::text::{chars_of, index_from};
use vstd::arithmetic::div_mod::*;
use vstd::arithmetic::mul::*;
use vstd::prelude::*;

verus! {

/// Ten to the power `n`.
pub open spec fn pow10(n: nat) -> nat {
    power(10, n)
}

/// `base` to the power `n`.
pub open spec fn power(base: nat, n: nat) -> nat
    decreases n,
{
    if n == 0 {
        1
    } else {
        base * power(base, (n - 1) as nat)
    }
}

/// Whether `c` is one of the ten decimal digits.
pub open spec fn is_digit(c: char) -> bool {
    48 <= c as u32 <= 57
}

pub open spec fn all_digits(s: Seq<char>) -> bool {
    forall|i: int| 0 <= i < s.len() ==> is_digit(#[trigger] s[i])
}

/// The number that a row of digits stands for; no digit stands for 0.
pub open spec fn number(s: Seq<char>) -> nat
    decreases s.len(),
{
    if s.len() == 0 {
        0
    } else {
        10 * number(s.drop_last()) + (s.last() as u32 - 48) as nat
    }
}

/// The decimal text of a number stands for that number.
pub proof fn lemma_number_of_decimal(n: nat)
    ensures
        all_digits(text::decimal(n)),
        text::decimal(n).len() > 0,
        number(text::decimal(n)) == n,
    decreases n,
{
    let s = text::decimal(n);
    if n < 10 {
        assert(s.drop_last() =~= Seq::empty());
        assert(number(s.drop_last()) == 0);
    } else {
        lemma_number_of_decimal(n / 10);
        let front = text::decimal(n / 10);
        assert(s.drop_last() =~= front);
        assert forall|i: int| 0 <= i < s.len() implies is_digit(#[trigger] s[i]) by {
            if i < front.len() {
                assert(is_digit(front[i]));
            }
        }
    }
}

/// The exponent that a text stands for: digits with a sign before them or none.
pub open spec fn exponent_of(s: Seq<char>) -> Option<int> {
    let signed = s.len() > 0 && (s[0] == '+' || s[0] == '-');
    let digits = if signed {
        s.skip(1)
    } else {
        s
    };
    if digits.len() > 0 && all_digits(digits) {
        Some(
            if signed && s[0] == '-' {
                -(number(digits) as int)
            } else {
                number(digits) as int
            },
        )
    } else {
        None
    }
}

/// Where the exponent of a number begins: at the first `e` of either case, or at the end.
pub open spec fn exponent_mark(s: Seq<char>) -> nat {
    let small = text::first_index(s, 'e');
    let large = text::first_index(s, 'E');
    if small < large {
        small
    } else {
        large
    }
}

/// The text without a plus sign before it.
pub open spec fn unsigned(s: Seq<char>) -> Seq<char> {
    if s.len() > 0 && s[0] == '+' {
        s.skip(1)
    } else {
        s
    }
}

/// The text behind the position `mark`; empty where that is the end.
pub open spec fn behind(s: Seq<char>, mark: nat) -> Seq<char> {
    if mark < s.len() {
        s.skip((mark + 1) as int)
    } else {
        Seq::empty()
    }
}

/// The digits of a number without an exponent, as one number, and how many of them are decimals.
pub open spec fn mantissa_of(s: Seq<char>) -> Option<(nat, nat)> {
    let point = text::first_index(s, '.');
    let whole = s.take(point as int);
    let fraction = behind(s, point);
    if all_digits(whole) && all_digits(fraction) && whole.len() + fraction.len() > 0 {
        Some((number(whole + fraction), fraction.len()))
    } else {
        None
    }
}

/// The decimal number that a text stands for: `(d, e)` is `d` times ten to the power `e`. A number
/// with a minus sign is none of these.
pub open spec fn decimal_of(s: Seq<char>) -> Option<(nat, int)> {
    let t = unsigned(s);
    let k = exponent_mark(t);
    let exponent = if k < t.len() {
        exponent_of(t.skip((k + 1) as int))
    } else {
        Some(0int)
    };
    match (mantissa_of(t.take(k as int)), exponent) {
        (Some((d, decimals)), Some(e)) => Some((d, e - decimals)),
        _ => None,
    }
}

spec fn exponent_part(s: Seq<char>) -> int {
    match decimal_of(s) {
        Some((d, e)) => e,
        None => 0,
    }
}

/// A number of one digit, a point and further digits.
pub proof fn lemma_plain_decimal(s: Seq<char>)
    requires
        s.len() >= 2,
        is_digit(s[0]),
        s[1] == '.',
        all_digits(s.skip(2)),
    ensures
        decimal_of(s) == Some((number(s.take(1) + s.skip(2)), 2 - s.len())),
{
    assert forall|i: int| 0 <= i < s.len() implies s[i] != 'e' && s[i] != 'E' && s[i] != '+' by {
        if i >= 2 {
            assert(is_digit(s.skip(2)[i - 2]));
        }
    }
    text::lemma_first_index_unique(s, 'e', s.len() as int);
    text::lemma_first_index_unique(s, 'E', s.len() as int);
    assert(s.take(s.len() as int) =~= s);
    text::lemma_first_index_unique(s, '.', 1);
}

/// `d` times ten to the power `e`, times `period`, where that is a whole number.
pub open spec fn whole_product(d: nat, e: int, period: nat) -> Option<nat> {
    if e >= 0 {
        Some(d * pow10(e as nat) * period)
    } else if (d * period) % pow10((-e) as nat) == 0 {
        Some(d * period / pow10((-e) as nat))
    } else {
        None
    }
}

/// The slots of a period that a share takes, where these are whole slots.
pub open spec fn exact_slots(share: Seq<char>, period: u32) -> Option<nat> {
    match decimal_of(share) {
        None => None,
        Some((d, e)) => whole_product(d, e, period as nat),
    }
}

/// At most one more than the period.
pub open spec fn capped(n: Option<nat>, period: u32) -> Option<nat> {
    match n {
        Some(n) => Some(
            if n > period {
                period as nat + 1
            } else {
                n
            },
        ),
        None => None,
    }
}

/// An exponent of this size is beyond any text length.
spec fn far() -> int {
    1_000_000_000_000_000_000_000_000
}

/// Whether `x` stands for the exponent `e`: it is the exponent, or both are far out on one side.
spec fn stands_for(x: int, e: int) -> bool {
    x == e || (x >= far() && e >= far()) || (x <= -far() && e <= -far())
}

/// The number of a row of digit values.
spec fn value_of(ds: Seq<u8>) -> nat
    decreases ds.len(),
{
    if ds.len() == 0 {
        0
    } else {
        10 * value_of(ds.drop_last()) + ds.last() as nat
    }
}

spec fn are_digits(ds: Seq<u8>) -> bool {
    forall|i: int| 0 <= i < ds.len() ==> (#[trigger] ds[i]) < 10
}

fn digit_of(c: char) -> (r: Option<u8>)
    ensures
        match r {
            Some(d) => is_digit(c) && d == c as u32 - 48,
            None => !is_digit(c),
        },
{
    let u: u32 = c as u32;
    if 48 <= u && u <= 57 {
        Some((u - 48) as u8)
    } else {
        None
    }
}

/// The digit values of the characters from `from` up to `to`; none where one is no digit.
fn digits_of(chars: &Vec<char>, from: usize, to: usize, ds: &mut Vec<u8>) -> (r: bool)
    requires
        from <= to <= chars@.len(),
        are_digits(old(ds)@),
    ensures
        r == all_digits(chars@.subrange(from as int, to as int)),
        are_digits(final(ds)@),
        r ==> final(ds)@.len() == old(ds)@.len() + (to - from),
        r ==> final(ds)@ == old(ds)@ + Seq::new(
            (to - from) as nat,
            |i: int| (chars@[from + i] as u32 - 48) as u8,
        ),
{
    let ghost piece = chars@.subrange(from as int, to as int);
    let mut i: usize = from;
    while i < to
        invariant
            from <= i <= to <= chars@.len(),
            piece == chars@.subrange(from as int, to as int),
            are_digits(ds@),
            forall|j: int| 0 <= j < i - from ==> is_digit(#[trigger] piece[j]),
            ds@ == old(ds)@ + Seq::new(
                (i - from) as nat,
                |j: int| (chars@[from + j] as u32 - 48) as u8,
            ),
        decreases to - i,
    {
        match digit_of(chars[i]) {
            None => {
                assert(piece[i - from] == chars@[i as int]);
                return false;
            },
            Some(d) => {
                assert(piece[i - from] == chars@[i as int]);
                ds.push(d);
                assert(ds@ =~= old(ds)@ + Seq::new(
                    (i + 1 - from) as nat,
                    |j: int| (chars@[from + j] as u32 - 48) as u8,
                ));
            },
        }
        i = i + 1;
    }
    true
}

proof fn lemma_values(s: Seq<char>, ds: Seq<u8>)
    requires
        all_digits(s),
        ds.len() == s.len(),
        forall|i: int| 0 <= i < s.len() ==> #[trigger] ds[i] == s[i] as u32 - 48,
    ensures
        value_of(ds) == number(s),
    decreases s.len(),
{
    if s.len() > 0 {
        lemma_values(s.drop_last(), ds.drop_last());
    }
}

/// The number of a row of digits, or something far out where it is far out.
fn far_number(ds: &Vec<u8>) -> (r: u128)
    requires
        are_digits(ds@),
    ensures
        stands_for(r as int, value_of(ds@) as int),
        r <= 10 * far() + 9,
{
    let mut acc: u128 = 0;
    let mut i: usize = 0;
    assert(value_of(ds@.take(0)) == 0);
    while i < ds.len()
        invariant
            i <= ds@.len(),
            are_digits(ds@),
            acc <= 10 * far() + 9,
            stands_for(acc as int, value_of(ds@.take(i as int)) as int),
        decreases ds@.len() - i,
    {
        let d: u8 = ds[i];
        assert(ds@.take(i + 1).drop_last() =~= ds@.take(i as int));
        if acc < 1_000_000_000_000_000_000_000_000 {
            acc = acc * 10 + d as u128;
        }
        i = i + 1;
    }
    assert(ds@.take(i as int) =~= ds@);
    acc
}

/// Reads an exponent.
fn read_exponent(chars: &Vec<char>, from: usize) -> (r: Option<i128>)
    requires
        from <= chars@.len(),
    ensures
        match (r, exponent_of(chars@.skip(from as int))) {
            (Some(x), Some(e)) => stands_for(x as int, e) && -(10 * far() + 9) <= x <= 10 * far()
                + 9,
            (None, None) => true,
            _ => false,
        },
{
    let ghost s = chars@.skip(from as int);
    let n: usize = chars.len();
    let signed: bool = from < n && (chars[from] == '+' || chars[from] == '-');
    let start: usize = if signed {
        from + 1
    } else {
        from
    };
    let ghost digits = chars@.subrange(start as int, n as int);
    assert(signed ==> s.skip(1) =~= digits);
    assert(!signed ==> s =~= digits);
    if start >= n {
        return None;
    }
    let mut ds: Vec<u8> = Vec::new();
    if !digits_of(chars, start, n, &mut ds) {
        return None;
    }
    proof {
        lemma_values(digits, ds@);
    }
    let x: u128 = far_number(&ds);
    if signed && chars[from] == '-' {
        Some(-(x as i128))
    } else {
        Some(x as i128)
    }
}

proof fn lemma_power_add(base: nat, a: nat, b: nat)
    ensures
        power(base, a + b) == power(base, a) * power(base, b),
    decreases a,
{
    if a > 0 {
        lemma_power_add(base, (a - 1) as nat, b);
        assert(power(base, a + b) == base * power(base, (a + b - 1) as nat));
        assert((a + b - 1) as nat == (a - 1) as nat + b);
        lemma_mul_is_associative(
            base as int,
            power(base, (a - 1) as nat) as int,
            power(base, b) as int,
        );
    } else {
        let x = power(base, a) as int;
        let y = power(base, b) as int;
        assert(x * y == y) by (nonlinear_arith)
            requires
                x == 1,
        ;
    }
}

proof fn lemma_power_positive(base: nat, n: nat)
    requires
        base > 0,
    ensures
        power(base, n) > 0,
    decreases n,
{
    if n > 0 {
        lemma_power_positive(base, (n - 1) as nat);
        lemma_mul_strictly_positive(base as int, power(base, (n - 1) as nat) as int);
    }
}

/// Ten is two times five, to any power.
proof fn lemma_power_factors(n: nat)
    ensures
        pow10(n) == power(2, n) * power(5, n),
    decreases n,
{
    if n > 0 {
        lemma_power_factors((n - 1) as nat);
        let a = power(2, (n - 1) as nat) as int;
        let b = power(5, (n - 1) as nat) as int;
        assert(pow10(n) == 10 * pow10((n - 1) as nat));
        assert(10 * (a * b) == (2 * a) * (5 * b)) by (nonlinear_arith);
    } else {
        let a = power(2, n) as int;
        let b = power(5, n) as int;
        assert(a * b == 1) by (nonlinear_arith)
            requires
                a == 1,
                b == 1,
        ;
    }
}

proof fn lemma_power_grows(base: nat, a: nat, b: nat)
    requires
        base > 0,
        a <= b,
    ensures
        power(base, a) <= power(base, b),
{
    lemma_power_add(base, a, (b - a) as nat);
    lemma_power_positive(base, (b - a) as nat);
    let x = power(base, a) as int;
    let y = power(base, (b - a) as nat) as int;
    assert(x <= x * y) by (nonlinear_arith)
        requires
            x >= 0,
            y >= 1,
    ;
}

proof fn lemma_prime_divides(base: nat, d: nat, p: nat)
    requires
        base == 2 || base == 5,
        d % base != 0,
        (d * p) % base == 0,
    ensures
        p % base == 0,
{
    lemma_mul_mod_noop(d as int, p as int, base as int);
    let r = d % base;
    let t = p % base;
    if base == 2 {
        assert(r == 1);
        assert(r * t == t);
    } else {
        assert(r == 1 || r == 2 || r == 3 || r == 4);
        assert(t == 0 || t == 1 || t == 2 || t == 3 || t == 4);
        assert(r == 1 ==> r * t == t);
        assert(r == 2 ==> r * t == 2 * t);
        assert(r == 3 ==> r * t == 3 * t);
        assert(r == 4 ==> r * t == 4 * t);
    }
}

/// A power of two or five that divides a product is at most the one factor, where the other is no
/// multiple of two or five.
proof fn lemma_power_divides(base: nat, d: nat, p: nat, k: nat, n: nat)
    requires
        base == 2 || base == 5,
        d % base != 0,
        d * p == k * power(base, n),
    ensures
        p == 0 || p >= power(base, n),
    decreases n,
{
    if n > 0 {
        let rest = power(base, (n - 1) as nat);
        assert(k * (base * rest) == base * (k * rest)) by (nonlinear_arith);
        lemma_mod_multiples_basic((k * rest) as int, base as int);
        assert((base * (k * rest)) == (k * rest) * base) by (nonlinear_arith);
        lemma_prime_divides(base, d, p);
        let q = p / base;
        lemma_fundamental_div_mod(p as int, base as int);
        assert(p == base * q);
        assert(d * q == k * rest) by (nonlinear_arith)
            requires
                d * p == base * (k * rest),
                p == base * q,
                base > 0,
        ;
        lemma_power_divides(base, d, q, k, (n - 1) as nat);
        assert(base * rest <= base * q || q == 0) by (nonlinear_arith)
            requires
                q == 0 || q >= rest,
        ;
    }
}

/// A share with more than sixteen decimals takes whole slots of no period that a mix may have.
proof fn lemma_long_share(d: nat, p: nat, n: nat)
    requires
        d % 10 != 0,
        0 < p <= 100_000,
        n > 16,
    ensures
        (d * p) % pow10(n) != 0,
{
    if (d * p) % pow10(n) == 0 {
        lemma_power_positive(10, n);
        lemma_fundamental_div_mod((d * p) as int, pow10(n) as int);
        let k = (d * p) / pow10(n);
        lemma_power_factors(n);
        let a = power(2, n);
        let b = power(5, n);
        assert(d * p == (k * b) * a && d * p == (k * a) * b) by (nonlinear_arith)
            requires
                d * p == (a * b) * k,
        ;
        assert(power(2, 17) == 131072) by {
            reveal_with_fuel(power, 18);
        }
        assert(power(5, 17) > 100_000) by {
            reveal_with_fuel(power, 18);
        }
        lemma_power_grows(2, 17, n);
        lemma_power_grows(5, 17, n);
        if d % 2 != 0 {
            lemma_power_divides(2, d, p, k * b, n);
        } else {
            assert(d % 5 != 0);
            lemma_power_divides(5, d, p, k * a, n);
        }
    }
}

/// A zero at the end of the digits may go to the exponent.
proof fn lemma_shift(d: nat, e: int, p: nat)
    ensures
        whole_product(10 * d, e, p) == whole_product(d, e + 1, p),
{
    if e >= 0 {
        let t = pow10(e as nat) as int;
        assert(pow10((e + 1) as nat) == 10 * t);
        assert((10 * d) * t == d * (10 * t)) by (nonlinear_arith);
    } else if e == -1 {
        reveal_with_fuel(power, 2);
        assert((10 * d) * p == (d * p) * 10) by (nonlinear_arith);
        lemma_mod_multiples_basic((d * p) as int, 10);
        lemma_div_multiples_vanish((d * p) as int, 10);
        assert(d * 1 * p == d * p) by (nonlinear_arith);
    } else {
        let m = (-e - 1) as nat;
        let t = pow10(m) as int;
        lemma_power_positive(10, m);
        assert(pow10((-e) as nat) == 10 * t);
        let x = (d * p) as int;
        assert((10 * d) * p == 10 * x) by (nonlinear_arith)
            requires
                x == d * p,
        ;
        lemma_truncate_middle(x, 10, t);
        lemma_div_denominator(10 * x, 10, t);
        lemma_div_multiples_vanish(x, 10);
        assert(10 * x / 10 == x);
        assert((10 * x) % (10 * t) == 10 * (x % t));
    }
}

proof fn lemma_far_out(d: nat, e: int, p: u32)
    requires
        d % 10 != 0,
        0 < p <= 100_000,
    ensures
        e >= 6 ==> capped(whole_product(d, e, p as nat), p) == Some(p as nat + 1),
        e < -16 ==> whole_product(d, e, p as nat) is None,
{
    if e >= 6 {
        lemma_power_grows(10, 6, e as nat);
        assert(power(10, 6) == 1_000_000) by {
            reveal_with_fuel(power, 7);
        }
        let t = pow10(e as nat) as int;
        assert(d * t * p >= t) by (nonlinear_arith)
            requires
                d >= 1,
                t >= 0,
                p >= 1,
        ;
    }
    if e < -16 {
        lemma_long_share(d, p as nat, (-e) as nat);
    }
}

/// Ten to a small power.
fn small_power(n: u32) -> (r: u128)
    requires
        n <= 16,
    ensures
        r == pow10(n as nat),
        1 <= r <= 10_000_000_000_000_000,
{
    let mut r: u128 = 1;
    let mut i: u32 = 0;
    while i < n
        invariant
            i <= n <= 16,
            r == pow10(i as nat),
            r >= 1,
        decreases n - i,
    {
        proof {
            lemma_power_grows(10, (i + 1) as nat, 16);
            assert(power(10, 16) == 10_000_000_000_000_000) by {
                reveal_with_fuel(power, 17);
            }
        }
        r = 10 * r;
        i = i + 1;
    }
    proof {
        lemma_power_grows(10, n as nat, 16);
        assert(power(10, 16) == 10_000_000_000_000_000) by {
            reveal_with_fuel(power, 17);
        }
    }
    r
}

/// The number of a row of digits, at most `limit`, and its remainder by `q`.
fn limited_number(ds: &Vec<u8>, limit: u128, q: u128) -> (r: (u128, u128))
    requires
        are_digits(ds@),
        1 <= q <= 10_000_000_000_000_000,
        1 <= limit <= 10_000_000_000_000_000_000_000,
    ensures
        r.0 == if value_of(ds@) < limit {
            value_of(ds@) as int
        } else {
            limit as int
        },
        r.1 as int == value_of(ds@) as int % q as int,
{
    let mut acc: u128 = 0;
    let mut rest: u128 = 0;
    let mut i: usize = 0;
    assert(value_of(ds@.take(0)) == 0);
    proof {
        lemma_small_mod(0, q as nat);
    }
    while i < ds.len()
        invariant
            i <= ds@.len(),
            are_digits(ds@),
            1 <= q <= 10_000_000_000_000_000,
            1 <= limit <= 10_000_000_000_000_000_000_000,
            acc == if value_of(ds@.take(i as int)) < limit {
                value_of(ds@.take(i as int)) as int
            } else {
                limit as int
            },
            rest as int == value_of(ds@.take(i as int)) as int % q as int,
            rest < q,
        decreases ds@.len() - i,
    {
        let d: u8 = ds[i];
        let ghost v = value_of(ds@.take(i as int)) as int;
        assert(ds@.take(i + 1).drop_last() =~= ds@.take(i as int));
        assert(value_of(ds@.take(i + 1)) == 10 * v + d);
        let next: u128 = acc * 10 + d as u128;
        acc = if next < limit {
            next
        } else {
            limit
        };
        proof {
            lemma_mul_mod_noop_right(10, v, q as int);
            lemma_add_mod_noop(10 * v, d as int, q as int);
            lemma_add_mod_noop(10 * rest as int, d as int, q as int);
            lemma_mod_bound((10 * rest + d) as int, q as int);
        }
        rest = (rest * 10 + d as u128) % q;
        i = i + 1;
    }
    assert(ds@.take(i as int) =~= ds@);
    (acc, rest)
}

/// The whole slots of a number without a zero at its end, at most one more than the period.
fn capped_slots(ds: &Vec<u8>, e: i128, period: u32) -> (r: Option<u32>)
    requires
        are_digits(ds@),
        ds@.len() > 0,
        ds@.last() != 0,
        0 < period <= 100_000,
    ensures
        match (r, capped(whole_product(value_of(ds@), e as int, period as nat), period)) {
            (Some(n), Some(m)) => n == m,
            (None, None) => true,
            _ => false,
        },
{
    let ghost d = value_of(ds@);
    let ghost p = period as nat;
    proof {
        assert(d % 10 != 0);
        lemma_far_out(d, e as int, period);
    }
    if e >= 6 {
        return Some(period + 1);
    }
    if e < -16 {
        return None;
    }
    let cap: u128 = period as u128 + 1;
    if e >= 0 {
        let scale: u128 = small_power(e as u32);
        let (acc, _rest): (u128, u128) = limited_number(ds, cap, 1);
        proof {
            lemma_power_grows(10, e as nat, 5);
            assert(power(10, 5) == 100_000) by {
                reveal_with_fuel(power, 6);
            }
            assert(acc * scale <= 100_001 * 100_000) by (nonlinear_arith)
                requires
                    acc <= 100_001,
                    scale <= 100_000,
            ;
            assert(acc * scale * period <= 100_001 * 100_000 * 100_000) by (nonlinear_arith)
                requires
                    acc * scale <= 100_001 * 100_000,
                    period <= 100_000,
            ;
            assert(acc * scale * period >= acc) by (nonlinear_arith)
                requires
                    scale >= 1,
                    period >= 1,
                    acc >= 0,
            ;
            assert(d * scale * p >= d) by (nonlinear_arith)
                requires
                    scale >= 1,
                    p >= 1,
            ;
        }
        let n: u128 = acc * scale * period as u128;
        if n > period as u128 {
            Some(period + 1)
        } else {
            Some(n as u32)
        }
    } else {
        let q: u128 = small_power((-e) as u32);
        assert(q * cap <= 10_000_000_000_000_000 * 100_001) by (nonlinear_arith)
            requires
                q <= 10_000_000_000_000_000,
                cap <= 100_001,
        ;
        assert(1 <= q * cap) by (nonlinear_arith)
            requires
                q >= 1,
                cap >= 1,
        ;
        let limit: u128 = q * cap;
        let (acc, rest): (u128, u128) = limited_number(ds, limit, q);
        proof {
            lemma_mul_mod_noop_left(d as int, p as int, q as int);
            lemma_mod_bound(d as int, q as int);
            assert(rest * period <= 10_000_000_000_000_000 * 100_000) by (nonlinear_arith)
                requires
                    rest <= 10_000_000_000_000_000,
                    period <= 100_000,
            ;
        }
        if (rest * period as u128) % q != 0 {
            return None;
        }
        proof {
            lemma_fundamental_div_mod((d * p) as int, q as int);
            assert(d * p >= 1) by (nonlinear_arith)
                requires
                    d >= 1,
                    p >= 1,
            ;
            let k = (d * p) as int / q as int;
            assert(k >= 1) by (nonlinear_arith)
                requires
                    q * k >= 1,
                    q >= 1,
            ;
        }
        if acc < limit {
            assert(acc * period <= 10_000_000_000_000_000 * 100_001 * 100_000) by (nonlinear_arith)
                requires
                    acc <= 10_000_000_000_000_000 * 100_001,
                    period <= 100_000,
            ;
            let n: u128 = acc * period as u128 / q;
            if n > period as u128 {
                Some(period + 1)
            } else {
                Some(n as u32)
            }
        } else {
            proof {
                let k = (d * p) as int / q as int;
                assert(k >= cap) by (nonlinear_arith)
                    requires
                        d * p == q * k,
                        d >= q * cap,
                        p >= 1,
                        q >= 1,
                ;
            }
            Some(period + 1)
        }
    }
}

proof fn lemma_zeros_shift(d: nat, e: int, z: nat, p: nat)
    ensures
        whole_product(d * pow10(z), e, p) == whole_product(d, e + z, p),
    decreases z,
{
    if z == 0 {
        assert(d * 1 == d);
    } else {
        let t = pow10((z - 1) as nat) as int;
        assert(d * (10 * t) == 10 * (d * t)) by (nonlinear_arith);
        lemma_shift((d * t) as nat, e, p);
        lemma_zeros_shift(d, e + 1, (z - 1) as nat, p);
    }
}

/// Reads the digits from `start` up to `mark`, and says how many of them are decimals.
fn read_mantissa(all: &Vec<char>, start: usize, mark: usize) -> (r: Option<(Vec<u8>, usize)>)
    requires
        start <= mark <= all@.len(),
    ensures
        match (r, mantissa_of(all@.subrange(start as int, mark as int))) {
            (Some((ds, decimals)), Some((d, n))) => {
                &&& are_digits(ds@)
                &&& ds@.len() > 0
                &&& value_of(ds@) == d
                &&& decimals == n
            },
            (None, None) => true,
            _ => false,
        },
{
    let ghost mantissa = all@.subrange(start as int, mark as int);
    let point: usize = point_in(all, start, mark);
    let ghost whole = mantissa.take(point - start);
    let ghost fraction = behind(mantissa, (point - start) as nat);
    assert(whole =~= all@.subrange(start as int, point as int));
    let mut ds: Vec<u8> = Vec::new();
    if !digits_of(all, start, point, &mut ds) {
        return None;
    }
    let after: usize = if point < mark {
        point + 1
    } else {
        point
    };
    assert(fraction =~= all@.subrange(after as int, mark as int));
    if !digits_of(all, after, mark, &mut ds) {
        return None;
    }
    if ds.len() == 0 {
        return None;
    }
    proof {
        assert(all_digits(whole + fraction));
        lemma_values(whole + fraction, ds@);
    }
    Some((ds, mark - after))
}

/// Reads a decimal number: its digits, its exponent, and how many of the digits are decimals.
fn read_decimal(share: &str) -> (r: Option<(Vec<u8>, i128, usize)>)
    ensures
        match (r, decimal_of(share@)) {
            (Some((ds, x, decimals)), Some((d, e))) => {
                &&& are_digits(ds@)
                &&& ds@.len() > 0
                &&& value_of(ds@) == d
                &&& stands_for(x as int, e + decimals)
                &&& -(10 * far() + 9) <= x <= 10 * far() + 9
            },
            (None, None) => true,
            _ => false,
        },
{
    let all: Vec<char> = chars_of(share);
    let n: usize = all.len();
    let start: usize = if n > 0 && all[0] == '+' {
        1
    } else {
        0
    };
    let ghost t = unsigned(share@);
    assert(t =~= all@.skip(start as int));
    let small: usize = index_from(&all, 'e', start);
    let large: usize = index_from(&all, 'E', start);
    let mark: usize = if small < large {
        small
    } else {
        large
    };
    let ghost k = exponent_mark(t);
    assert(k == mark - start);
    let exponent: i128 = if mark < n {
        assert(t.skip((k + 1) as int) =~= all@.skip(mark + 1));
        match read_exponent(&all, mark + 1) {
            Some(x) => x,
            None => {
                return None;
            },
        }
    } else {
        0
    };
    assert(t.take(k as int) =~= all@.subrange(start as int, mark as int));
    match read_mantissa(&all, start, mark) {
        None => None,
        Some((ds, decimals)) => Some((ds, exponent, decimals)),
    }
}

/// The slots of a period that a share takes, where these are whole slots; more than the whole period
/// counts as one more than it.
pub(crate) fn share_slots(share: &str, period: u32) -> (r: Option<u32>)
    requires
        period <= 100_000,
    ensures
        match (r, capped(exact_slots(share@, period), period)) {
            (Some(n), Some(m)) => n == m,
            (None, None) => true,
            _ => false,
        },
{
    let (digits, exponent, decimals): (Vec<u8>, i128, usize) = match read_decimal(share) {
        None => {
            return None;
        },
        Some(number) => number,
    };
    if period == 0 {
        proof {
            lemma_empty_period(share@);
        }
        return Some(0);
    }
    let mut ds: Vec<u8> = digits;
    let ghost d = value_of(ds@);
    let ghost e = exponent_part(share@);
    let mut zeros: usize = 0;
    let total: usize = ds.len();
    assert(d * pow10(0) == d) by (nonlinear_arith)
        requires
            pow10(0) == 1,
    ;
    while ds.len() > 0 && ds[ds.len() - 1] == 0
        invariant
            are_digits(ds@),
            zeros + ds@.len() == total,
            d == value_of(ds@) * pow10(zeros as nat),
        decreases ds@.len(),
    {
        let ghost before = ds@;
        let _zero: Option<u8> = ds.pop();
        assert(ds@ =~= before.drop_last());
        proof {
            let v = value_of(ds@) as int;
            let x = pow10(zeros as nat) as int;
            assert(pow10((zeros + 1) as nat) == 10 * x);
            assert((10 * v) * x == v * (10 * x)) by (nonlinear_arith);
        }
        zeros = zeros + 1;
    }
    if ds.len() == 0 {
        proof {
            let x = pow10(zeros as nat) as int;
            assert(0 * x == 0) by (nonlinear_arith);
            lemma_zero_product(e, period as nat);
        }
        return Some(0);
    }
    let power: i128 = exponent - decimals as i128 + zeros as i128;
    proof {
        let v = value_of(ds@);
        lemma_zeros_shift(v, e, zeros as nat, period as nat);
        assert(v % 10 != 0);
        lemma_far_out(v, power as int, period);
        lemma_far_out(v, e + zeros, period);
    }
    capped_slots(&ds, power, period)
}

proof fn lemma_zero_product(e: int, p: nat)
    ensures
        whole_product(0, e, p) == Some(0nat),
{
    if e < 0 {
        lemma_power_positive(10, (-e) as nat);
        assert(0 * p == 0);
        lemma_div_basics_1(pow10((-e) as nat) as int);
    } else {
        assert(0 * pow10(e as nat) * p == 0) by (nonlinear_arith);
    }
}

/// Every share takes no slot of an empty period.
pub proof fn lemma_empty_period(share: Seq<char>)
    ensures
        decimal_of(share) is Some ==> exact_slots(share, 0) == Some(0nat),
{
    match decimal_of(share) {
        Some((d, e)) => {
            if e >= 0 {
                assert(d * pow10(e as nat) * 0 == 0) by (nonlinear_arith);
            } else {
                lemma_power_positive(10, (-e) as nat);
                assert(d * 0 == 0);
                lemma_small_mod(0, pow10((-e) as nat));
                lemma_div_basics_1(pow10((-e) as nat) as int);
            }
        },
        None => {},
    }
}

/// The position of the first point from `from` up to `to`, or `to`.
fn point_in(chars: &Vec<char>, from: usize, to: usize) -> (r: usize)
    requires
        from <= to <= chars@.len(),
    ensures
        from <= r <= to,
        r - from == text::first_index(chars@.subrange(from as int, to as int), '.'),
{
    let ghost s = chars@.subrange(from as int, to as int);
    let mut i: usize = from;
    while i < to && chars[i] != '.'
        invariant
            from <= i <= to <= chars@.len(),
            s == chars@.subrange(from as int, to as int),
            forall|j: int| 0 <= j < i - from ==> s[j] != '.',
        decreases to - i,
    {
        assert(s[i - from] == chars@[i as int]);
        i = i + 1;
    }
    proof {
        if i < to {
            assert(s[i - from] == chars@[i as int]);
        }
        text::lemma_first_index_unique(s, '.', i - from);
    }
    i
}

} // verus!
