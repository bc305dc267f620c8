//! What holds of the arithmetic on numbers.
use vstd::prelude::*;
use vstd::arithmetic::div_mod::*;
use vstd::arithmetic::mul::*;
use vstd::arithmetic::power2::*;
use crate::figures;
use crate::num;
use crate::num::Num;
use crate::rounding;
use crate::rounding::{BINADE, INFINITY};

verus! {

/// A sum does not depend on the order of its terms.
pub proof fn lemma_plus_commutes(a: Num, b: Num)
    ensures
        a.plus(b) == b.plus(a),
{
    reveal(Num::spec_plus);
}

/// A product does not depend on the order of its factors.
pub proof fn lemma_times_commutes(a: Num, b: Num)
    ensures
        a.times(b) == b.times(a),
{
    reveal(Num::spec_times);
    lemma_mul_is_commutative(a.size() as int, b.size() as int);
}

/// A number whose sign is turned twice is itself, and its rank is turned with its sign.
pub proof fn lemma_negated(a: Num)
    ensures
        a.negated().negated() == a,
        a.negated().rank() == -a.rank(),
        a.negated().nan() == a.nan(),
        a.negated().value() == -a.value(),
{
}

/// The order of numbers that are no NaN is strict, transitive and total.
pub proof fn lemma_order(a: Num, b: Num, c: Num)
    ensures
        !a.below(a),
        a.below(b) && b.below(c) ==> a.below(c),
        a.at_most(b) && b.at_most(c) ==> a.at_most(c),
        !a.nan() && !b.nan() ==> (a.below(b) <==> !b.at_most(a)),
{
}

/// A larger number of digits is that of a larger number.
proof fn lemma_bit_length_monotone(x: nat, y: nat)
    requires
        x <= y,
    ensures
        rounding::bit_length(x) <= rounding::bit_length(y),
    decreases y,
{
    if x > 0 {
        lemma_bit_length_monotone(x / 2, y / 2);
    }
}

/// A smaller ratio has no larger quotient.
proof fn lemma_quotient_monotone(n1: nat, d1: nat, n2: nat, d2: nat)
    requires
        d1 > 0,
        d2 > 0,
        n1 * d2 <= n2 * d1,
    ensures
        n1 / d1 <= n2 / d2,
{
    let q1 = n1 / d1;
    let q2 = n2 / d2;
    let r2 = n2 % d2;
    lemma_fundamental_div_mod(n1 as int, d1 as int);
    lemma_fundamental_div_mod(n2 as int, d2 as int);
    if q1 > q2 {
        assert(n1 * d2 > n2 * d1) by (nonlinear_arith)
            requires
                n1 >= d1 * q1,
                n2 == d2 * q2 + r2,
                r2 < d2,
                q1 >= q2 + 1,
                d1 > 0,
                d2 > 0,
        ;
    }
}

/// A smaller ratio is rounded to no larger integer.
pub proof fn lemma_nearest_monotone(n1: nat, d1: nat, n2: nat, d2: nat)
    requires
        d1 > 0,
        d2 > 0,
        n1 * d2 <= n2 * d1,
    ensures
        rounding::nearest(n1, d1) <= rounding::nearest(n2, d2),
{
    let q1 = n1 / d1;
    let q2 = n2 / d2;
    let r1 = n1 % d1;
    let r2 = n2 % d2;
    lemma_quotient_monotone(n1, d1, n2, d2);
    lemma_fundamental_div_mod(n1 as int, d1 as int);
    lemma_fundamental_div_mod(n2 as int, d2 as int);
    if q1 == q2 {
        assert(r1 * d2 <= r2 * d1) by (nonlinear_arith)
            requires
                n1 == d1 * q1 + r1,
                n2 == d2 * q1 + r2,
                n1 * d2 <= n2 * d1,
        ;
        if 2 * r1 >= d1 {
            assert(2 * r2 >= d2) by (nonlinear_arith)
                requires
                    2 * r1 >= d1,
                    r1 * d2 <= r2 * d1,
                    d1 > 0,
                    d2 > 0,
            ;
            if 2 * r2 == d2 {
                assert(2 * r1 == d1) by (nonlinear_arith)
                    requires
                        2 * r1 >= d1,
                        2 * r2 == d2,
                        r1 * d2 <= r2 * d1,
                        d1 > 0,
                        d2 > 0,
                ;
            }
        }
    }
}

/// What is left of a ratio when all but 53 digits are removed lies between the least and
/// the greatest significand.
pub proof fn lemma_significand(n: nat, d: nat)
    requires
        d > 0,
    ensures
        ({
            let k = rounding::excess(n / d);
            &&& d * pow2(k) > 0
            &&& rounding::nearest(n, d * pow2(k)) <= 2 * BINADE
            &&& k > 0 ==> rounding::nearest(n, d * pow2(k)) >= BINADE
        }),
{
    let q = n / d;
    let k = rounding::excess(q);
    let p = pow2(k);
    lemma_pow2_pos(k);
    assert(d * p > 0) by (nonlinear_arith)
        requires
            d > 0,
            p > 0,
    ;
    rounding::lemma_bit_length_bounds(q);
    let len = rounding::bit_length(q);
    lemma2_to64();
    lemma2_to64_rest();
    lemma_fundamental_div_mod(n as int, d as int);
    lemma_div_denominator(n as int, d as int, p as int);
    let t = n / (d * p);
    assert(t == q / p);
    if len <= 53 {
        if len < 53 {
            lemma_pow2_strictly_increases(len, 53);
        }
        assert(p == 1);
        assert(q / 1 == q);
        assert(t < 0x20_0000_0000_0000);
    } else {
        lemma_pow2_adds(53, k);
        lemma_pow2_adds(52, k);
        assert(q < pow2(53) * p && q >= pow2(52) * p);
        lemma_fundamental_div_mod(q as int, p as int);
        let r = q % p;
        assert(t < pow2(53) && t >= pow2(52)) by (nonlinear_arith)
            requires
                q == p * t + r,
                0 <= r < p,
                q < pow2(53) * p,
                q >= pow2(52) * p,
                p > 0,
        ;
    }
}

/// A smaller ratio has no larger encoding.
pub proof fn lemma_encode_monotone(n1: nat, d1: nat, n2: nat, d2: nat)
    requires
        d1 > 0,
        d2 > 0,
        n1 * d2 <= n2 * d1,
    ensures
        rounding::encode(n1, d1) <= rounding::encode(n2, d2),
{
    lemma_quotient_monotone(n1, d1, n2, d2);
    let q1 = n1 / d1;
    let q2 = n2 / d2;
    lemma_bit_length_monotone(q1, q2);
    let k1 = rounding::excess(q1);
    let k2 = rounding::excess(q2);
    lemma_significand(n1, d1);
    lemma_significand(n2, d2);
    if k1 == k2 {
        let p = pow2(k1);
        assert(n1 * (d2 * p) <= n2 * (d1 * p)) by (nonlinear_arith)
            requires
                n1 * d2 <= n2 * d1,
                p >= 0,
        ;
        lemma_nearest_monotone(n1, d1 * p, n2, d2 * p);
    } else {
        assert(k1 < k2);
        assert((k1 + 1) * BINADE <= k2 * BINADE);
    }
}

/// An encoding is a magnitude, and that of the size of a number is its magnitude.
pub proof fn lemma_encode_of(a: Num)
    requires
        a.finite(),
    ensures
        rounding::encode(a.size(), 1) == a.magnitude(),
{
    num::lemma_encode_units(a.magnitude() as nat);
}

/// The rank of a rounded integer number of units.
pub open spec fn rounded_rank(s: int) -> int {
    if s >= 0 {
        rounding::encode(s as nat, 1) as int
    } else {
        -(rounding::encode((-s) as nat, 1) as int)
    }
}

/// A larger number of units has no smaller rank.
pub proof fn lemma_rounded_rank_monotone(s: int, t: int)
    requires
        s <= t,
    ensures
        rounded_rank(s) <= rounded_rank(t),
        -(INFINITY as int) <= rounded_rank(s) <= INFINITY,
{
    if s >= 0 {
        lemma_encode_monotone(s as nat, 1, t as nat, 1);
    } else if t < 0 {
        lemma_encode_monotone((-t) as nat, 1, (-s) as nat, 1);
    }
}

/// The rank of a sum of finite numbers.
pub proof fn lemma_plus_rank(a: Num, b: Num)
    requires
        a.finite(),
        b.finite(),
    ensures
        a.plus(b).rank() == rounded_rank(a.value() + b.value()),
        !a.plus(b).nan(),
{
    reveal(Num::spec_plus);
    rounding::lemma_encode_zero(1);
}

/// The order of finite numbers is that of their values.
pub proof fn lemma_value_order(a: Num, b: Num)
    requires
        a.finite(),
        b.finite(),
        a.rank() <= b.rank(),
    ensures
        a.value() <= b.value(),
{
    if !a.negative() {
        if !b.negative() {
            num::lemma_units_monotone(a.magnitude() as nat, b.magnitude() as nat);
        } else {
            assert(a.magnitude() == 0 && b.magnitude() == 0);
        }
    } else if b.negative() {
        num::lemma_units_monotone(b.magnitude() as nat, a.magnitude() as nat);
    }
}

/// Adding a finite number keeps the order.
pub proof fn lemma_plus_monotone(a: Num, b: Num, c: Num)
    requires
        a.at_most(b),
        c.finite(),
    ensures
        a.plus(c).at_most(b.plus(c)),
{
    reveal(Num::spec_plus);
    if a.finite() && b.finite() {
        lemma_value_order(a, b);
        lemma_plus_rank(a, c);
        lemma_plus_rank(b, c);
        lemma_rounded_rank_monotone(a.value() + c.value(), b.value() + c.value());
    } else if a.finite() {
        lemma_plus_rank(a, c);
        lemma_rounded_rank_monotone(a.value() + c.value(), a.value() + c.value());
    } else if b.finite() {
        lemma_plus_rank(b, c);
        lemma_rounded_rank_monotone(b.value() + c.value(), b.value() + c.value());
    }
}

/// Whether a number is above zero and finite.
pub open spec fn positive(a: Num) -> bool {
    a.finite() && !a.negative() && a.magnitude() > 0
}

/// The size of a positive number is positive.
pub proof fn lemma_positive_size(a: Num)
    requires
        positive(a),
    ensures
        a.size() > 0,
{
    let m = a.magnitude() as nat;
    let h = BINADE as nat;
    if m >= h {
        lemma_pow2_pos((m / h - 1) as nat);
        assert((h + m % h) * pow2((m / h - 1) as nat) > 0) by (nonlinear_arith)
            requires
                h > 0,
                pow2((m / h - 1) as nat) > 0,
        ;
    }
}

/// Dividing by a positive number keeps the order.
pub proof fn lemma_over_monotone(a: Num, b: Num, c: Num)
    requires
        a.at_most(b),
        positive(c),
    ensures
        a.over(c).at_most(b.over(c)),
{
    reveal(Num::spec_over);
    lemma_positive_size(c);
    let one = pow2(1074);
    lemma_pow2_pos(1074);
    if a.finite() && b.finite() {
        lemma_value_order(a, b);
        let (x, y) = if a.negative() {
            (b.size(), a.size())
        } else {
            (a.size(), b.size())
        };
        if a.negative() == b.negative() {
            assert((x * one) * c.size() <= (y * one) * c.size()) by (nonlinear_arith)
                requires
                    x <= y,
                    one > 0,
                    c.size() > 0,
            ;
            lemma_encode_monotone(x * one, c.size(), y * one, c.size());
        } else if !a.negative() {
            assert(a.magnitude() == 0 && b.magnitude() == 0);
            assert(0 * one == 0);
            rounding::lemma_encode_zero(c.size());
        }
    }
}

/// Multiplying by a positive number keeps the order.
pub proof fn lemma_times_monotone(a: Num, b: Num, c: Num)
    requires
        a.at_most(b),
        positive(c),
    ensures
        a.times(c).at_most(b.times(c)),
{
    reveal(Num::spec_times);
    let one = pow2(1074);
    lemma_pow2_pos(1074);
    if a.finite() && b.finite() {
        lemma_value_order(a, b);
        let (x, y) = if a.negative() {
            (b.size(), a.size())
        } else {
            (a.size(), b.size())
        };
        if a.negative() == b.negative() {
            assert((x * c.size()) * one <= (y * c.size()) * one) by (nonlinear_arith)
                requires
                    x <= y,
                    one > 0,
            ;
            lemma_encode_monotone(x * c.size(), one, y * c.size(), one);
        } else if !a.negative() {
            assert(a.magnitude() == 0 && b.magnitude() == 0);
            assert(0 * c.size() == 0);
            rounding::lemma_encode_zero(one);
        }
    }
}

/// Rounding to an integer keeps the order.
pub proof fn lemma_rounded_monotone(a: Num, b: Num)
    requires
        a.at_most(b),
    ensures
        a.rounded().at_most(b.rounded()),
{
    reveal(Num::spec_rounded);
    let one = pow2(1074);
    lemma_pow2_pos(1074);
    if a.finite() && b.finite() {
        lemma_value_order(a, b);
        let (x, y) = if a.negative() {
            (b.size(), a.size())
        } else {
            (a.size(), b.size())
        };
        let qx = (2 * x + one) / (2 * one);
        let qy = (2 * y + one) / (2 * one);
        if a.negative() == b.negative() {
            lemma_div_is_ordered((2 * x + one) as int, (2 * y + one) as int, (2 * one) as int);
            assert((qx * one) * 1 <= (qy * one) * 1) by (nonlinear_arith)
                requires
                    qx <= qy,
                    one > 0,
            ;
            lemma_encode_monotone(qx * one, 1, qy * one, 1);
        } else if !a.negative() {
            assert(x == 0 && y == 0);
            rounding::lemma_division(one, 2 * one, 0, one);
            assert(0 * one == 0);
            rounding::lemma_encode_zero(1);
        }
    }
}

/// Taking the integer part keeps the order.
pub proof fn lemma_to_i32_monotone(a: Num, b: Num)
    requires
        a.at_most(b),
    ensures
        a.to_i32() <= b.to_i32(),
{
    reveal(Num::spec_to_i32);
    let one = pow2(1074);
    lemma_pow2_pos(1074);
    if a.finite() && b.finite() {
        lemma_value_order(a, b);
        if a.negative() && b.negative() {
            lemma_div_is_ordered(b.size() as int, a.size() as int, one as int);
        } else if !a.negative() && !b.negative() {
            lemma_div_is_ordered(a.size() as int, b.size() as int, one as int);
        }
        lemma_div_pos_is_pos(a.size() as int, one as int);
        lemma_div_pos_is_pos(b.size() as int, one as int);
        if !a.negative() && b.negative() {
            assert(a.size() == 0 && b.size() == 0);
            rounding::lemma_division(0, one, 0, 0);
        }
    } else {
        lemma_div_pos_is_pos(a.size() as int, one as int);
        lemma_div_pos_is_pos(b.size() as int, one as int);
    }
}

/// The size of one is a whole unit.
pub proof fn lemma_one()
    ensures
        num::num(figures::ONE).size() == pow2(1074),
        num::num(figures::ONE).value() == pow2(1074),
        positive(num::num(figures::ONE)),
        num::num(figures::ZERO).size() == 0,
        num::num(figures::ZERO).value() == 0,
{
    lemma2_to64_rest();
    lemma_pow2_adds(52, 1022);
    assert(0x3FF0_0000_0000_0000nat / 0x10_0000_0000_0000nat == 1023) by (nonlinear_arith);
    assert(0x3FF0_0000_0000_0000nat % 0x10_0000_0000_0000nat == 0) by (nonlinear_arith);
}

/// One times a number is the number, and so is the number times one.
pub proof fn lemma_times_one(a: Num)
    requires
        !a.nan(),
    ensures
        a.times(num::num(figures::ONE)) == a,
        num::num(figures::ONE).times(a) == a,
{
    reveal(Num::spec_times);
    lemma_one();
    lemma_times_commutes(a, num::num(figures::ONE));
    let one = pow2(1074);
    lemma_pow2_pos(1074);
    if a.finite() {
        assert(1 * one == one);
        rounding::lemma_encode_scale(a.size(), 1, one);
        lemma_encode_of(a);
    }
}

/// A positive number divided by itself is one.
pub proof fn lemma_over_itself(a: Num)
    requires
        positive(a),
    ensures
        a.over(a) == num::num(figures::ONE),
{
    reveal(Num::spec_over);
    lemma_one();
    lemma_positive_size(a);
    let one = pow2(1074);
    assert(a.size() * one == one * a.size()) by (nonlinear_arith);
    assert(1 * a.size() == a.size());
    rounding::lemma_encode_scale(one, 1, a.size());
    lemma_encode_of(num::num(figures::ONE));
}

/// A finite number less itself is zero.
pub proof fn lemma_minus_itself(a: Num)
    requires
        a.finite(),
    ensures
        a.minus(a) == num::num(figures::ZERO),
{
    reveal(Num::spec_plus);
}

/// Zero stays zero when it is divided by or multiplied with a positive number.
pub proof fn lemma_zero_parts(c: Num)
    requires
        positive(c),
    ensures
        num::num(figures::ZERO).over(c) == num::num(figures::ZERO),
        num::num(figures::ZERO).times(c) == num::num(figures::ZERO),
{
    reveal(Num::spec_over);
    reveal(Num::spec_times);
    lemma_one();
    lemma_positive_size(c);
    lemma_pow2_pos(1074);
    assert(0 * pow2(1074) == 0);
    assert(0 * c.size() == 0);
    rounding::lemma_encode_zero(c.size());
    rounding::lemma_encode_zero(pow2(1074));
}

/// One more than nothing is one.
pub proof fn lemma_zero_plus_one()
    ensures
        num::num(figures::ZERO).plus(num::num(figures::ONE)) == num::num(figures::ONE),
        num::num(figures::ONE).plus(num::num(figures::ZERO)) == num::num(figures::ONE),
{
    reveal(Num::spec_plus);
    lemma_one();
    lemma_pow2_pos(1074);
    lemma_encode_of(num::num(figures::ONE));
    lemma_plus_commutes(num::num(figures::ZERO), num::num(figures::ONE));
}

/// Zero is whole: it rounds to itself, its integer part is zero, and it is the number of
/// nothing.
pub proof fn lemma_zero_whole()
    ensures
        num::num(figures::ZERO).rounded() == num::num(figures::ZERO),
        num::num(figures::ZERO).to_i32() == 0,
        Num::from_i32(0) == num::num(figures::ZERO),
{
    reveal(Num::spec_rounded);
    reveal(Num::spec_to_i32);
    reveal(Num::spec_from_i32);
    lemma_one();
    let one = pow2(1074);
    lemma_pow2_pos(1074);
    rounding::lemma_division(one, 2 * one, 0, one);
    rounding::lemma_division(0, one, 0, 0);
    assert(0 * one == 0);
    rounding::lemma_encode_zero(1);
}

/// A difference taken the other way round has the opposite rank.
pub proof fn lemma_minus_mirrored(a: Num, b: Num)
    requires
        a.finite(),
        b.finite(),
    ensures
        a.minus(b).rank() == -b.minus(a).rank(),
        !a.minus(b).nan(),
        !b.minus(a).nan(),
{
    lemma_plus_rank(a, b.negated());
    lemma_plus_rank(b, a.negated());
    lemma_negated(a);
    lemma_negated(b);
    rounding::lemma_encode_zero(1);
}

/// Turning the rank of a number turns that of its quotient by and product with a
/// positive one.
pub proof fn lemma_mirrored_parts(a: Num, b: Num, c: Num)
    requires
        a.rank() == -b.rank(),
        !a.nan(),
        !b.nan(),
        positive(c),
    ensures
        a.over(c).rank() == -b.over(c).rank(),
        a.times(c).rank() == -b.times(c).rank(),
        !a.over(c).nan(),
        !b.over(c).nan(),
        !a.times(c).nan(),
        !b.times(c).nan(),
{
    reveal(Num::spec_over);
    reveal(Num::spec_times);
    assert(a.magnitude() == b.magnitude());
    lemma_positive_size(c);
    if a.magnitude() == 0 {
        lemma_pow2_pos(1074);
        assert(0 * pow2(1074) == 0);
        assert(0 * c.size() == 0);
        rounding::lemma_encode_zero(c.size());
        rounding::lemma_encode_zero(pow2(1074));
    }
}

} // verus!
