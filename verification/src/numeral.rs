//! Reading binary64 numbers from decimal text.
//!
//! The accepted texts are those of `f64::from_str`: an optional sign, then `inf`,
//! `infinity` or `nan` in any case, or digits with an optional point and an optional
//! exponent. A number is rounded to the nearest binary64 number, ties to even.
use vstd::prelude::*;
use vstd::arithmetic::power::*;
use vstd::arithmetic::power2::*;
use vstd::arithmetic::mul::*;
use crate::big;
use crate::big::Big;
use crate::num::{Num, QUIET_NAN};
use crate::rounding;
use crate::rounding::INFINITY;
use crate::text;

verus! {

/// Ten to the power `e`.
pub open spec fn ten(e: nat) -> nat
    decreases e,
{
    if e == 0 {
        1
    } else {
        10 * ten((e - 1) as nat)
    }
}

/// The magnitude of the binary64 number nearest to `d * 10^e`.
pub open spec fn scaled_magnitude(d: nat, e: int) -> nat {
    if e >= 0 {
        rounding::encode(d * ten(e as nat) * pow2(1074), 1)
    } else {
        rounding::encode(d * pow2(1074), ten((-e) as nat))
    }
}

/// The end of the digits that start at place `i`.
pub open spec fn digits_end(s: Seq<char>, i: int) -> int
    decreases s.len() - i,
{
    if i >= s.len() || !text::is_digit(s[i]) {
        i
    } else {
        digits_end(s, i + 1)
    }
}

/// The value of the exponent that starts behind an `e` at place `i`: an optional
/// sign and one or more digits up to the end.
pub open spec fn exponent_at(s: Seq<char>, i: int) -> Option<int> {
    let signed = i < s.len() && (s[i] == '-' || s[i] == '+');
    let from = if signed {
        i + 1
    } else {
        i
    };
    if from < s.len() && digits_end(s, from) == s.len() {
        let n = text::digits_value(s.subrange(from, s.len() as int));
        Some(
            if signed && s[i] == '-' {
                -(n as int)
            } else {
                n as int
            },
        )
    } else {
        None
    }
}

/// A text of digits, a point and an exponent: the digits without the point, and
/// the power of ten that they are to be multiplied by.
pub open spec fn scientific(s: Seq<char>) -> Option<(Seq<char>, int)> {
    let i = digits_end(s, 0);
    let pointed = i < s.len() && s[i] == '.';
    let j = if pointed {
        digits_end(s, i + 1)
    } else {
        i
    };
    let digits = if pointed {
        s.subrange(0, i) + s.subrange(i + 1, j)
    } else {
        s.subrange(0, i)
    };
    let fraction = if pointed {
        j - i - 1
    } else {
        0
    };
    if digits.len() == 0 {
        None
    } else if j == s.len() {
        Some((digits, -fraction))
    } else if s[j] == 'e' || s[j] == 'E' {
        match exponent_at(s, j + 1) {
            Some(x) => Some((digits, x - fraction)),
            None => None,
        }
    } else {
        None
    }
}

/// Whether a character is a given lower-case letter or its capital.
pub open spec fn is_letter(c: char, lower: char, upper: char) -> bool {
    c == lower || c == upper
}

/// Whether a text is `nan`, in any case.
pub open spec fn says_nan(s: Seq<char>) -> bool {
    s.len() == 3 && is_letter(s[0], 'n', 'N') && is_letter(s[1], 'a', 'A') && is_letter(
        s[2],
        'n',
        'N',
    )
}

/// Whether a text starts with `inf`, in any case.
pub open spec fn starts_inf(s: Seq<char>) -> bool {
    s.len() >= 3 && is_letter(s[0], 'i', 'I') && is_letter(s[1], 'n', 'N') && is_letter(
        s[2],
        'f',
        'F',
    )
}

/// Whether a text is `inf` or `infinity`, in any case.
pub open spec fn says_infinity(s: Seq<char>) -> bool {
    starts_inf(s) && (s.len() == 3 || (s.len() == 8 && is_letter(s[3], 'i', 'I') && is_letter(
        s[4],
        'n',
        'N',
    ) && is_letter(s[5], 'i', 'I') && is_letter(s[6], 't', 'T') && is_letter(s[7], 'y', 'Y')))
}

/// The number without a sign that a text writes, as a magnitude.
pub open spec fn magnitude_of(s: Seq<char>) -> Option<nat> {
    if says_nan(s) {
        Some(QUIET_NAN as nat)
    } else if says_infinity(s) {
        Some(INFINITY as nat)
    } else {
        match scientific(s) {
            Some((digits, e)) => Some(scaled_magnitude(text::digits_value(digits), e)),
            None => None,
        }
    }
}

/// The number that a text writes.
pub open spec fn number_of(s: Seq<char>) -> Option<Num> {
    let signed = s.len() > 0 && (s[0] == '-' || s[0] == '+');
    let body = if signed {
        s.skip(1)
    } else {
        s
    };
    match magnitude_of(body) {
        Some(m) => Some(Num::signed(signed && s[0] == '-', m as u64)),
        None => None,
    }
}

/// Ten to a power is at least eight to it.
proof fn lemma_ten_large(e: nat)
    ensures
        ten(e) >= pow2(3 * e),
        ten(e) > 0,
    decreases e,
{
    lemma2_to64();
    if e > 0 {
        lemma_ten_large((e - 1) as nat);
        lemma_pow2_adds(3, 3 * (e - 1) as nat);
        assert(3 + 3 * (e - 1) as nat == 3 * e);
    }
}

/// Powers of ten multiply.
proof fn lemma_ten_adds(a: nat, b: nat)
    ensures
        ten(a + b) == ten(a) * ten(b),
    decreases a,
{
    if a == 0 {
        assert(1 * ten(b) == ten(b));
    } else {
        lemma_ten_adds((a - 1) as nat, b);
        let x = ten((a - 1) as nat);
        let y = ten(b);
        assert(10 * (x * y) == (10 * x) * y) by (nonlinear_arith);
        assert((a + b - 1) as nat == (a - 1) as nat + b);
    }
}

/// So many digits write less than ten to their number.
proof fn lemma_digits_bound(s: Seq<char>)
    requires
        forall|i: int| 0 <= i < s.len() ==> text::is_digit(#[trigger] s[i]),
    ensures
        text::digits_value(s) < ten(s.len()),
    decreases s.len(),
{
    if s.len() > 0 {
        assert forall|i: int| 0 <= i < s.drop_last().len() implies text::is_digit(
            #[trigger] s.drop_last()[i],
        ) by {
            assert(s.drop_last()[i] == s[i]);
        }
        lemma_digits_bound(s.drop_last());
        assert(text::is_digit(s[s.len() - 1]));
    }
}

/// A number with a large power of ten is out of range.
proof fn lemma_too_large(d: nat, e: int)
    requires
        d > 0,
        e >= 700,
    ensures
        scaled_magnitude(d, e) == INFINITY,
{
    lemma_ten_large(e as nat);
    if 3 * e > 2100 {
        lemma_pow2_strictly_increases(2100, 3 * e as nat);
    }
    lemma_pow2_pos(1074);
    let n = d * ten(e as nat) * pow2(1074);
    assert(n >= 1 * pow2(2100)) by (nonlinear_arith)
        requires
            n == d * ten(e as nat) * pow2(1074),
            d >= 1,
            ten(e as nat) >= pow2(2100),
            pow2(1074) >= 1,
    ;
    big::lemma_overflows(n, 1);
}

/// A number with a small power of ten vanishes.
proof fn lemma_too_small(d: nat, len: nat, e: int)
    requires
        d < ten(len),
        e <= -(len + 400),
    ensures
        scaled_magnitude(d, e) == 0,
{
    let x = (-e) as nat;
    let more = (x - len) as nat;
    lemma_ten_adds(len, more);
    lemma_ten_large(more);
    if 3 * more > 1075 {
        lemma_pow2_strictly_increases(1075, 3 * more);
    }
    lemma_pow2_unfold(1075);
    lemma_ten_large(len);
    let n = d * pow2(1074);
    let t = ten(more);
    let l = ten(len);
    let p = pow2(1074);
    lemma_pow2_pos(1074);
    assert(2 * (d * p) == d * (2 * p)) by (nonlinear_arith);
    assert(d * (2 * p) <= d * t) by (nonlinear_arith)
        requires
            2 * p <= t,
    ;
    assert(d * t < l * t) by (nonlinear_arith)
        requires
            d < l,
            t > 0,
    ;
    rounding::lemma_division(n, ten(x), 0, n);
    lemma2_to64();
    assert(ten(x) * pow2(0) == ten(x));
}

/// The number that digits write.
fn big_of(v: &Vec<char>) -> (r: Big)
    requires
        forall|i: int| 0 <= i < v@.len() ==> text::is_digit(#[trigger] v@[i]),
    ensures
        r@ == text::digits_value(v@),
{
    let mut r: Big = Big::small(0);
    let mut i: usize = 0;
    assert(v@.take(0) =~= Seq::<char>::empty());
    while i < v.len()
        invariant
            i <= v@.len(),
            r@ == text::digits_value(v@.take(i as int)),
            forall|j: int| 0 <= j < v@.len() ==> text::is_digit(#[trigger] v@[j]),
        decreases v@.len() - i,
    {
        let c: char = v[i];
        assert(text::is_digit(v@[i as int]));
        assert(v@.take(i + 1).drop_last() =~= v@.take(i as int));
        r = r.mul_add(10, c as u32 - '0' as u32);
        i = i + 1;
    }
    assert(v@.take(i as int) =~= v@);
    r
}

/// Whether the digits write zero.
fn is_zero(v: &Vec<char>) -> (b: bool)
    requires
        forall|i: int| 0 <= i < v@.len() ==> text::is_digit(#[trigger] v@[i]),
    ensures
        b == (text::digits_value(v@) == 0),
{
    !Big::small(0).less(&big_of(v))
}

/// See [`scaled_magnitude`].
fn scale(v: &Vec<char>, e: i128) -> (m: u64)
    requires
        i128::MIN < e,
        forall|i: int| 0 <= i < v@.len() ==> text::is_digit(#[trigger] v@[i]),
    ensures
        m == scaled_magnitude(text::digits_value(v@), e as int),
        m <= INFINITY,
{
    let ghost d = text::digits_value(v@);
    if is_zero(v) {
        proof {
            lemma_scaled_zero(e as int);
        }
        return 0;
    }
    if e >= 700 {
        proof {
            lemma_too_large(d, e as int);
        }
        return INFINITY;
    }
    if v.len() as i128 + 400 <= -e {
        proof {
            lemma_digits_bound(v@);
            lemma_too_small(d, v@.len(), e as int);
        }
        return 0;
    }
    let n: Big = big_of(v);
    if e >= 0 {
        let p: Big = scaled_up(n, e as u32);
        let all: Big = p.shifted(1074);
        big::encode_ratio(&all, &Big::small(1))
    } else {
        let all: Big = n.shifted(1074);
        let p: Big = divisor(-e);
        big::encode_ratio(&all, &p)
    }
}

/// `n * 10^e`.
fn scaled_up(n: Big, e: u32) -> (r: Big)
    ensures
        r@ == n@ * ten(e as nat),
{
    let ghost start = n@;
    let mut r: Big = n;
    let mut i: u32 = 0;
    assert(start * 1 == start);
    while i < e
        invariant
            i <= e,
            r@ == start * ten(i as nat),
        decreases e - i,
    {
        proof {
            let t = ten(i as nat);
            assert((start * t) * 10 == start * (10 * t)) by (nonlinear_arith);
        }
        r = r.mul_add(10, 0);
        i = i + 1;
    }
    r
}

/// Ten to a power that may be large.
fn divisor(e: i128) -> (r: Big)
    requires
        e > 0,
    ensures
        r@ == ten(e as nat),
        r@ > 0,
{
    let mut r: Big = Big::small(1);
    let mut i: i128 = 0;
    while i < e
        invariant
            0 <= i <= e,
            r@ == ten(i as nat),
        decreases e - i,
    {
        r = r.mul_add(10, 0);
        i = i + 1;
    }
    proof {
        lemma_ten_large(e as nat);
    }
    r
}


/// The end of a run of digits lies behind its start, and digits stand between.
proof fn lemma_digits_end(s: Seq<char>, i: int)
    requires
        0 <= i <= s.len(),
    ensures
        i <= digits_end(s, i) <= s.len(),
        forall|j: int| i <= j < digits_end(s, i) ==> text::is_digit(#[trigger] s[j]),
    decreases s.len() - i,
{
    if i < s.len() && text::is_digit(s[i]) {
        lemma_digits_end(s, i + 1);
    }
}

/// See [`digits_end`].
fn find_digits_end(v: &Vec<char>, i: usize) -> (r: usize)
    requires
        i <= v@.len(),
    ensures
        r == digits_end(v@, i as int),
        i <= r <= v@.len(),
        forall|j: int| i <= j < r ==> text::is_digit(#[trigger] v@[j]),
{
    let mut r: usize = i;
    while r < v.len() && '0' <= v[r] && v[r] <= '9'
        invariant
            i <= r <= v@.len(),
            digits_end(v@, r as int) == digits_end(v@, i as int),
            forall|j: int| i <= j < r ==> text::is_digit(#[trigger] v@[j]),
        decreases v@.len() - r,
    {
        r = r + 1;
    }
    r
}

/// The characters from `from` up to `to`.
fn slice_of(v: &Vec<char>, from: usize, to: usize) -> (r: Vec<char>)
    requires
        from <= to <= v@.len(),
    ensures
        r@ == v@.subrange(from as int, to as int),
{
    let mut r: Vec<char> = Vec::new();
    let mut i: usize = from;
    while i < to
        invariant
            from <= i <= to <= v@.len(),
            r@ == v@.subrange(from as int, i as int),
        decreases to - i,
    {
        r.push(v[i]);
        assert(v@.subrange(from as int, i as int).push(v@[i as int]) =~= v@.subrange(
            from as int,
            i + 1,
        ));
        i = i + 1;
    }
    r
}

/// A bound that no exponent of interest reaches.
pub const FAR: i128 = 0x1_0000_0000_0000_0000_0000_0000;

/// The number that digits write, or [`FAR`] if it is at least that.
fn small_value(v: &Vec<char>) -> (r: i128)
    requires
        forall|i: int| 0 <= i < v@.len() ==> text::is_digit(#[trigger] v@[i]),
    ensures
        0 <= r <= FAR,
        r < FAR ==> r == text::digits_value(v@),
        r == FAR ==> text::digits_value(v@) >= FAR,
{
    let mut r: i128 = 0;
    let mut i: usize = 0;
    assert(v@.take(0) =~= Seq::<char>::empty());
    while i < v.len()
        invariant
            i <= v@.len(),
            0 <= r <= FAR,
            r < FAR ==> r == text::digits_value(v@.take(i as int)),
            r == FAR ==> text::digits_value(v@.take(i as int)) >= FAR,
            forall|j: int| 0 <= j < v@.len() ==> text::is_digit(#[trigger] v@[j]),
        decreases v@.len() - i,
    {
        let c: char = v[i];
        assert(text::is_digit(v@[i as int]));
        assert(v@.take(i + 1).drop_last() =~= v@.take(i as int));
        let next: i128 = r * 10 + (c as u32 - '0' as u32) as i128;
        r = if next < FAR {
            next
        } else {
            FAR
        };
        i = i + 1;
    }
    assert(v@.take(i as int) =~= v@);
    r
}

/// The digits, and the power of ten for them, of a text without a sign. An exponent
/// beyond [`FAR`] is given as `FAR`, with its sign.
fn read_scientific(v: &Vec<char>) -> (r: Option<(Vec<char>, i128)>)
    ensures
        r is Some <==> scientific(v@) is Some,
        r is Some ==> {
            let (digits, e) = scientific(v@)->0;
            &&& (r->0).0@ == digits
            &&& forall|i: int| 0 <= i < digits.len() ==> text::is_digit(#[trigger] digits[i])
            &&& (r->0).1 == e || ((r->0).1 >= 700 && e >= 700) || ((r->0).1 <= -(digits.len() + 400) && e
                <= -(digits.len() + 400))
            &&& i128::MIN < (r->0).1
        },
{
    let n: usize = v.len();
    let i: usize = find_digits_end(v, 0);
    let pointed: bool = i < n && v[i] == '.';
    let j: usize = if pointed {
        find_digits_end(v, i + 1)
    } else {
        i
    };
    let mut digits: Vec<char> = slice_of(v, 0, i);
    let mut fraction: i128 = 0;
    if pointed {
        let mut more: Vec<char> = slice_of(v, i + 1, j);
        digits.append(&mut more);
        fraction = (j - i - 1) as i128;
        assert(digits@ =~= v@.subrange(0, i as int) + v@.subrange(i + 1, j as int));
    }
    assert forall|x: int| 0 <= x < digits@.len() implies text::is_digit(#[trigger] digits@[x]) by {
        if x < i {
            assert(digits@[x] == v@[x]);
        } else {
            assert(digits@[x] == v@[x + 1]);
        }
    }
    if digits.len() == 0 {
        return None;
    }
    if j == n {
        return Some((digits, -fraction));
    }
    if v[j] != 'e' && v[j] != 'E' {
        return None;
    }
    let k: usize = j + 1;
    let signed: bool = k < n && (v[k] == '-' || v[k] == '+');
    let from: usize = if signed {
        k + 1
    } else {
        k
    };
    if from >= n {
        return None;
    }
    let end: usize = find_digits_end(v, from);
    if end != n {
        return None;
    }
    let places: Vec<char> = slice_of(v, from, n);
    assert forall|x: int| 0 <= x < places@.len() implies text::is_digit(#[trigger] places@[x]) by {
        assert(places@[x] == v@[from + x]);
    }
    let size: i128 = small_value(&places);
    let e: i128 = if signed && v[k] == '-' {
        -size
    } else {
        size
    };
    Some((digits, e - fraction))
}

/// Whether a character is a given lower-case letter or its capital.
fn letter(c: char, lower: char, upper: char) -> (b: bool)
    ensures
        b == is_letter(c, lower, upper),
{
    c == lower || c == upper
}

/// See [`magnitude_of`].
fn read_magnitude(v: &Vec<char>) -> (r: Option<u64>)
    ensures
        r is Some <==> magnitude_of(v@) is Some,
        r is Some ==> Some(r->0 as nat) == magnitude_of(v@),
        r is Some ==> r->0 <= QUIET_NAN,
{
    let n: usize = v.len();
    if n == 3 && letter(v[0], 'n', 'N') && letter(v[1], 'a', 'A') && letter(v[2], 'n', 'N') {
        return Some(QUIET_NAN);
    }
    if n >= 3 && letter(v[0], 'i', 'I') && letter(v[1], 'n', 'N') && letter(v[2], 'f', 'F') {
        if n == 3 || (n == 8 && letter(v[3], 'i', 'I') && letter(v[4], 'n', 'N') && letter(
            v[5],
            'i',
            'I',
        ) && letter(v[6], 't', 'T') && letter(v[7], 'y', 'Y')) {
            return Some(INFINITY);
        }
    }
    match read_scientific(v) {
        Some((digits, e)) => {
            let m: u64 = scale(&digits, e);
            proof {
                let x = (scientific(v@)->0).1;
                let d = text::digits_value(digits@);
                if x != e {
                    lemma_digits_bound(digits@);
                    if d == 0 {
                        lemma_scaled_zero(x);
                        lemma_scaled_zero(e as int);
                    } else if x >= 700 {
                        lemma_too_large(d, x);
                        lemma_too_large(d, e as int);
                    } else {
                        lemma_too_small(d, digits@.len(), x);
                        lemma_too_small(d, digits@.len(), e as int);
                    }
                }
            }
            Some(m)
        },
        None => None,
    }
}

/// Zero stays zero at any scale.
proof fn lemma_scaled_zero(e: int)
    ensures
        scaled_magnitude(0, e) == 0,
{
    assert(0 * pow2(1074) == 0);
    if e >= 0 {
        assert(0 * ten(e as nat) == 0);
        rounding::lemma_encode_zero(1);
    } else {
        lemma_ten_large((-e) as nat);
        rounding::lemma_encode_zero(ten((-e) as nat));
    }
}

/// See [`number_of`].
pub fn parse_number(s: &str) -> (r: Option<Num>)
    ensures
        r == number_of(s@),
{
    let v: Vec<char> = text::chars_of(s);
    let signed: bool = v.len() > 0 && (v[0] == '-' || v[0] == '+');
    let body: Vec<char> = slice_of(
        &v,
        if signed {
            1
        } else {
            0
        },
        v.len(),
    );
    proof {
        if signed {
            assert(body@ =~= s@.skip(1));
        } else {
            assert(body@ =~= s@);
        }
    }
    match read_magnitude(&body) {
        Some(m) => Some(Num::signed(signed && v[0] == '-', m)),
        None => None,
    }
}

/// Digits end with the text where there is nothing else.
proof fn lemma_all_digits_end(s: Seq<char>, i: int)
    requires
        text::all_digits(s),
        0 <= i <= s.len(),
    ensures
        digits_end(s, i) == s.len(),
    decreases s.len() - i,
{
    if i < s.len() {
        assert(text::is_digit(s[i]));
        lemma_all_digits_end(s, i + 1);
    }
}

/// The digits of a whole number are read as the number nearest to it.
pub proof fn lemma_whole_number_read(n: u64)
    ensures
        number_of(text::digits(n as nat)) == Some(Num::from_u64(n)),
{
    reveal(Num::spec_from_u64);
    let s = text::digits(n as nat);
    text::lemma_digits(n as nat);
    lemma_all_digits_end(s, 0);
    assert(text::is_digit(s[0]));
    assert(s.subrange(0, s.len() as int) =~= s);
    assert(ten(0) == 1);
    assert(n as nat * 1 == n);
}

} // verus!
