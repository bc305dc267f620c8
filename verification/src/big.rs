//! Natural numbers of any size.
use vstd::prelude::*;
use vstd::arithmetic::power2::*;
use vstd::arithmetic::mul::*;
use vstd::arithmetic::div_mod::*;
use crate::rounding;
use crate::rounding::{BINADE, INFINITY};

verus! {

/// A natural number, in base 2^32, lowest digit first.
pub struct Big {
    pub limbs: Vec<u32>,
}

/// A digit, zero behind the last one.
pub open spec fn limb(s: Seq<u32>, i: int) -> nat {
    if 0 <= i < s.len() {
        s[i] as nat
    } else {
        0
    }
}

/// The number that the lowest `n` digits write.
pub open spec fn low(s: Seq<u32>, n: nat) -> nat
    decreases n,
{
    if n == 0 {
        0
    } else {
        low(s, (n - 1) as nat) + limb(s, n - 1) * pow2(32 * (n - 1) as nat)
    }
}

/// `n` digits write less than 2^(32 n).
proof fn lemma_low_bound(s: Seq<u32>, n: nat)
    ensures
        low(s, n) < pow2(32 * n),
    decreases n,
{
    lemma2_to64();
    if n > 0 {
        let m = (n - 1) as nat;
        lemma_low_bound(s, m);
        lemma_pow2_adds(32, 32 * m);
        let b = pow2(32 * m);
        let d = limb(s, m as int);
        assert(d * b + b <= 0x1_0000_0000 * b) by (nonlinear_arith)
            requires
                d + 1 <= 0x1_0000_0000,
                b >= 0,
        ;
    }
}

/// Digits behind the last one add nothing.
proof fn lemma_low_past(s: Seq<u32>, n: nat)
    requires
        n >= s.len(),
    ensures
        low(s, n) == low(s, s.len()),
    decreases n,
{
    if n > s.len() {
        lemma_low_past(s, (n - 1) as nat);
        assert(0 * pow2(32 * (n - 1) as nat) == 0);
    }
}

/// The lowest digits do not depend on the others.
proof fn lemma_low_agrees(a: Seq<u32>, b: Seq<u32>, n: nat)
    requires
        forall|i: int| 0 <= i < n ==> limb(a, i) == limb(b, i),
    ensures
        low(a, n) == low(b, n),
    decreases n,
{
    if n > 0 {
        lemma_low_agrees(a, b, (n - 1) as nat);
    }
}

impl View for Big {
    type V = nat;

    open spec fn view(&self) -> nat {
        low(self.limbs@, self.limbs@.len())
    }
}

impl Big {
    /// A small number.
    pub fn small(n: u32) -> (r: Big)
        ensures
            r@ == n,
    {
        let mut limbs: Vec<u32> = Vec::new();
        limbs.push(n);
        proof {
            lemma2_to64();
            assert(low(limbs@, 0) == 0);
            assert(low(limbs@, 1) == low(limbs@, 0) + limb(limbs@, 0) * pow2(0));
        }
        Big { limbs }
    }

    /// `self * m + c`.
    pub fn mul_add(&self, m: u32, c: u32) -> (r: Big)
        ensures
            r@ == self@ * m + c,
    {
        let mut out: Vec<u32> = Vec::new();
        let mut carry: u64 = c as u64;
        let mut i: usize = 0;
        proof {
            lemma2_to64();
            assert(c * pow2(0) == c);
            assert(0 * m == 0);
        }
        while i < self.limbs.len()
            invariant
                i <= self.limbs@.len(),
                out@.len() == i,
                carry <= 0xFFFF_FFFF,
                low(out@, i as nat) + carry * pow2(32 * i as nat) == low(self.limbs@, i as nat) * m + c,
            decreases self.limbs@.len() - i,
        {
            let d: u32 = self.limbs[i];
            assert(d * m <= 0xFFFF_FFFF * 0xFFFF_FFFF) by (nonlinear_arith)
                requires
                    d <= 0xFFFF_FFFF,
                    m <= 0xFFFF_FFFF,
            ;
            let cur: u64 = d as u64 * m as u64 + carry;
            let lo: u32 = (cur % 0x1_0000_0000) as u32;
            let hi: u64 = cur / 0x1_0000_0000;
            let ghost before = out@;
            out.push(lo);
            proof {
                lemma2_to64();
                lemma_low_agrees(before, out@, i as nat);
                lemma_pow2_adds(32, 32 * i as nat);
                let b = pow2(32 * i as nat);
                let x = low(self.limbs@, i as nat);
                let y = low(before, i as nat);
                assert(32 * (i + 1) as nat == 32 + 32 * i as nat);
                assert((y + lo * b) + hi * (0x1_0000_0000 * b) == (x + d * b) * m + c)
                    by (nonlinear_arith)
                    requires
                        y + carry * b == x * m + c,
                        lo + hi * 0x1_0000_0000 == d * m + carry,
                ;
            }
            carry = hi;
            i = i + 1;
        }
        if carry != 0 {
            let ghost before = out@;
            out.push(carry as u32);
            proof {
                lemma_low_agrees(before, out@, i as nat);
            }
        } else {
            assert(0 * pow2(32 * i as nat) == 0);
        }
        Big { limbs: out }
    }

    /// `2 * self`.
    pub fn double(&self) -> (r: Big)
        ensures
            r@ == 2 * self@,
    {
        self.mul_add(2, 0)
    }

    /// A digit, zero behind the last one.
    fn digit(&self, i: usize) -> (d: u32)
        ensures
            d == limb(self.limbs@, i as int),
    {
        if i < self.limbs.len() {
            self.limbs[i]
        } else {
            0
        }
    }

    /// The larger number of digits of two numbers.
    fn longer(&self, other: &Big) -> (n: usize)
        ensures
            n >= self.limbs@.len(),
            n >= other.limbs@.len(),
    {
        if self.limbs.len() < other.limbs.len() {
            other.limbs.len()
        } else {
            self.limbs.len()
        }
    }

    /// `self < other`.
    pub fn less(&self, other: &Big) -> (b: bool)
        ensures
            b == (self@ < other@),
    {
        let mut i: usize = self.longer(other);
        let ghost a = self.limbs@;
        let ghost o = other.limbs@;
        proof {
            lemma_low_past(a, i as nat);
            lemma_low_past(o, i as nat);
        }
        while i > 0
            invariant
                a == self.limbs@,
                o == other.limbs@,
                self@ - low(a, i as nat) == other@ - low(o, i as nat),
            decreases i,
        {
            i = i - 1;
            let x: u32 = self.digit(i);
            let y: u32 = other.digit(i);
            proof {
                let b = pow2(32 * i as nat);
                lemma_low_bound(a, i as nat);
                lemma_low_bound(o, i as nat);
                if x < y {
                    assert(x * b + b <= y * b) by (nonlinear_arith)
                        requires
                            x + 1 <= y,
                            b >= 0,
                    ;
                }
                if y < x {
                    assert(y * b + b <= x * b) by (nonlinear_arith)
                        requires
                            y + 1 <= x,
                            b >= 0,
                    ;
                }
            }
            if x != y {
                return x < y;
            }
        }
        false
    }

    /// `self - other`.
    pub fn minus(&self, other: &Big) -> (r: Big)
        requires
            other@ <= self@,
        ensures
            r@ == self@ - other@,
    {
        let n: usize = self.longer(other);
        let mut out: Vec<u32> = Vec::new();
        let mut borrow: u64 = 0;
        let mut i: usize = 0;
        let ghost a = self.limbs@;
        let ghost o = other.limbs@;
        proof {
            assert(0 * pow2(0) == 0);
        }
        while i < n
            invariant
                i <= n,
                a == self.limbs@,
                o == other.limbs@,
                out@.len() == i,
                borrow <= 1,
                low(out@, i as nat) - borrow * pow2(32 * i as nat) == low(a, i as nat) - low(o, i as nat),
            decreases n - i,
        {
            let x: u64 = self.digit(i) as u64;
            let y: u64 = other.digit(i) as u64 + borrow;
            let (d, next): (u64, u64) = if x >= y {
                (x - y, 0)
            } else {
                (x + 0x1_0000_0000 - y, 1)
            };
            let ghost before = out@;
            out.push(d as u32);
            proof {
                lemma2_to64();
                lemma_low_agrees(before, out@, i as nat);
                lemma_pow2_adds(32, 32 * i as nat);
                let b = pow2(32 * i as nat);
                let p = low(before, i as nat);
                let s = low(a, i as nat);
                let t = low(o, i as nat);
                let yo = limb(o, i as int);
                assert(32 * (i + 1) as nat == 32 + 32 * i as nat);
                assert((p + d * b) - next * (0x1_0000_0000 * b) == (s + x * b) - (t + yo * b))
                    by (nonlinear_arith)
                    requires
                        p - borrow * b == s - t,
                        d - next * 0x1_0000_0000 == x - (yo + borrow),
                ;
            }
            borrow = next;
            i = i + 1;
        }
        proof {
            lemma_low_past(a, n as nat);
            lemma_low_past(o, n as nat);
            lemma_low_bound(out@, n as nat);
            if borrow == 1 {
                assert(1 * pow2(32 * n as nat) == pow2(32 * n as nat));
            }
            assert(0 * pow2(32 * n as nat) == 0);
        }
        Big { limbs: out }
    }

    /// `self * 2^e`.
    pub fn shifted(&self, e: u32) -> (r: Big)
        ensures
            r@ == self@ * pow2(e as nat),
    {
        proof {
            lemma2_to64();
            assert(self@ * 1 == self@);
        }
        let mut r: Big = self.mul_add(1, 0);
        let mut i: u32 = 0;
        while i < e
            invariant
                i <= e,
                r@ == self@ * pow2(i as nat),
            decreases e - i,
        {
            proof {
                lemma_pow2_unfold((i + 1) as nat);
                let x = self@;
                let p = pow2(i as nat);
                assert(2 * (x * p) == x * (2 * p)) by (nonlinear_arith);
            }
            r = r.double();
            i = i + 1;
        }
        r
    }
}

/// The excess digits of a quotient, from bounds on the dividend.
proof fn lemma_excess(n: nat, d: nat, k: nat)
    requires
        d > 0,
        n < d * pow2(53 + k),
        k > 0 ==> n >= d * pow2((52 + k) as nat),
    ensures
        rounding::excess(n / d) == k,
{
    let q = n / d;
    lemma_fundamental_div_mod(n as int, d as int);
    let r = n % d;
    assert(q < pow2(53 + k)) by (nonlinear_arith)
        requires
            n == d * q + r,
            r >= 0,
            d > 0,
            n < d * pow2(53 + k),
    ;
    rounding::lemma_bit_length_bounds(q);
    if k > 0 {
        assert(q >= pow2((52 + k) as nat)) by (nonlinear_arith)
            requires
                n == d * q + r,
                r < d,
                d > 0,
                n >= d * pow2((52 + k) as nat),
        ;
        rounding::lemma_bit_length_unique(q, 53 + k);
    } else {
        let l = rounding::bit_length(q);
        if l > 53 && l > 54 {
            lemma_pow2_strictly_increases(53, (l - 1) as nat);
        }
    }
}

/// A quotient with very many digits is out of range.
pub proof fn lemma_overflows(n: nat, d: nat)
    requires
        d > 0,
        n >= d * pow2(2100),
    ensures
        rounding::encode(n, d) == INFINITY,
{
    let q = n / d;
    lemma_fundamental_div_mod(n as int, d as int);
    let r = n % d;
    assert(q >= pow2(2100)) by (nonlinear_arith)
        requires
            n == d * q + r,
            r < d,
            d > 0,
            n >= d * pow2(2100),
    ;
    rounding::lemma_bit_length_bounds(q);
    let l = rounding::bit_length(q);
    if l <= 2100 {
        if l < 2100 {
            lemma_pow2_strictly_increases(l, 2100);
        }
    }
    let k = rounding::excess(q);
    assert(k * BINADE as nat >= INFINITY) by (nonlinear_arith)
        requires
            k >= 2047,
            BINADE == 0x10_0000_0000_0000,
            INFINITY == 0x7FF0_0000_0000_0000,
    ;
}

/// The magnitude of the binary64 number nearest to `n / d` units.
pub fn encode_ratio(n: &Big, d: &Big) -> (m: u64)
    requires
        d@ > 0,
    ensures
        m == rounding::encode(n@, d@),
        m <= INFINITY,
{
    let mut top: Big = d.shifted(53);
    let mut k: u64 = 0;
    while !n.less(&top)
        invariant
            d@ > 0,
            k <= 2047,
            top@ == d@ * pow2((53 + k) as nat),
            k > 0 ==> n@ >= d@ * pow2((52 + k) as nat),
        decreases 2047 - k,
    {
        if k >= 2047 {
            proof {
                lemma_overflows(n@, d@);
            }
            return INFINITY;
        }
        proof {
            lemma_pow2_unfold((54 + k) as nat);
            let x = d@;
            let p = pow2((53 + k) as nat);
            assert(2 * (x * p) == x * (2 * p)) by (nonlinear_arith);
        }
        top = top.double();
        k = k + 1;
    }
    proof {
        lemma_excess(n@, d@, k as nat);
    }
    let ghost e = d@ * pow2(k as nat);
    proof {
        lemma_pow2_pos(k as nat);
        lemma_pow2_pos(53);
        lemma_pow2_adds(53, k as nat);
        let x = d@;
        let p = pow2(k as nat);
        let h = pow2(53);
        assert(x * (h * p) == (x * p) * h) by (nonlinear_arith);
        assert(x * p > 0) by (nonlinear_arith)
            requires
                x > 0,
                p > 0,
        ;
        lemma2_to64();
    }
    let mut rest: Big = n.mul_add(1, 0);
    let mut q: u64 = 0;
    let mut i: u32 = 0;
    assert(n@ * 1 == n@);
    while i < 53
        invariant
            i <= 53,
            rest@ < top@,
            n@ * pow2(i as nat) == q * top@ + rest@,
            q < pow2(i as nat),
        decreases 53 - i,
    {
        let twice: Big = rest.double();
        proof {
            lemma_pow2_unfold((i + 1) as nat);
            lemma2_to64_rest();
            lemma2_to64();
            if i < 53 {
                lemma_pow2_strictly_increases(i as nat, 53);
            }
            let x = n@;
            let p = pow2(i as nat);
            let t = top@;
            let r = rest@;
            assert(x * (2 * p) == (2 * q) * t + 2 * r) by (nonlinear_arith)
                requires
                    x * p == q * t + r,
            ;
            assert((2 * q + 1) * t == (2 * q) * t + t) by (nonlinear_arith);
        }
        if twice.less(&top) {
            rest = twice;
            q = q * 2;
        } else {
            rest = twice.minus(&top);
            q = q * 2 + 1;
        }
        i = i + 1;
    }
    let last: Big = rest.double();
    let below: bool = last.less(&top);
    let above: bool = top.less(&last);
    proof {
        lemma2_to64_rest();
        lemma_halves(n@, e, q as nat, rest@, pow2(53));
        assert(d@ * pow2(k as nat) == e);
    }
    let mantissa: u64 = if below || (!above && q % 2 == 0) {
        q
    } else {
        q + 1
    };
    assert(mantissa == rounding::nearest(n@, e));
    let b: u64 = k * BINADE + mantissa;
    if b >= INFINITY {
        INFINITY
    } else {
        b
    }
}

/// Undoes the doubling of a long division.
proof fn lemma_halves(n: nat, e: nat, q: nat, rest: nat, h: nat)
    requires
        e > 0,
        h > 0,
        n * h == q * (e * h) + rest,
        rest < e * h,
    ensures
        n / e == q,
        (2 * (n % e) < e) == (2 * rest < e * h),
        (2 * (n % e) == e) == (2 * rest == e * h),
{
    assert(rest == (n - q * e) * h) by (nonlinear_arith)
        requires
            n * h == q * (e * h) + rest,
    ;
    let r = n - q * e;
    assert(0 <= r < e) by (nonlinear_arith)
        requires
            rest == r * h,
            0 <= rest < e * h,
            h > 0,
    ;
    rounding::lemma_division(n, e, q, r as nat);
    assert((2 * r < e) == (2 * (r * h) < e * h)) by (nonlinear_arith)
        requires
            h > 0,
    ;
    assert((2 * r == e) == (2 * (r * h) == e * h)) by (nonlinear_arith)
        requires
            h > 0,
    ;
}

} // verus!
