//! Smoothed moving averages, and how three of them stand to each other.
use std::collections::VecDeque;
use vstd::prelude::*;
use crate::figures;
use crate::num::{num, Num};

verus! {

/// The number of closes that the slowest average starts from.
pub const JAW_PERIOD: usize = 13;

/// The number of closes that the middle average starts from.
pub const TEETH_PERIOD: usize = 8;

/// The number of closes that the fastest average starts from.
pub const LIPS_PERIOD: usize = 5;

/// How far back the slowest average is read.
pub const JAW_DISPLACEMENT: usize = 8;

/// How far back the middle average is read.
pub const TEETH_DISPLACEMENT: usize = 5;

/// How far back the fastest average is read.
pub const LIPS_DISPLACEMENT: usize = 3;

/// How many closes are kept.
pub const MAX_CLOSE_POOL: usize = 500;

/// How the three averages stand to each other.
#[derive(Clone, Copy, Debug, PartialEq, Eq, Structural)]
pub enum AlligatorAlignment {
    Bullish,
    Bearish,
    Mixed,
}

impl AlligatorAlignment {
    /// The name in capitals.
    pub open spec fn name(self) -> Seq<char> {
        match self {
            AlligatorAlignment::Bullish => "BULLISH"@,
            AlligatorAlignment::Bearish => "BEARISH"@,
            AlligatorAlignment::Mixed => "MIXED"@,
        }
    }

    pub fn as_str(&self) -> (r: &'static str)
        ensures
            r@ == self.name(),
    {
        match self {
            AlligatorAlignment::Bullish => "BULLISH",
            AlligatorAlignment::Bearish => "BEARISH",
            AlligatorAlignment::Mixed => "MIXED",
        }
    }
}

/// The sum of the first `n` values, added from the left; that of none is -0.
pub open spec fn total(values: Seq<Num>, n: nat) -> Num
    decreases n,
{
    if n == 0 {
        num(figures::MINUS_ZERO)
    } else {
        total(values, (n - 1) as nat).plus(values[n - 1])
    }
}

/// The smoothed average up to value `i`: the mean of the first `period` values, and
/// from there on one part of the new value to the rest of the old average.
pub open spec fn smoothed(values: Seq<Num>, period: usize, i: int) -> Num
    decreases i + 1,
{
    let p = Num::from_u64(period as u64);
    if i < period || i < 0 {
        total(values, period as nat).over(p)
    } else {
        smoothed(values, period, i - 1).times(p.minus(num(figures::ONE))).plus(values[i]).over(p)
    }
}

/// The smoothed averages of a list, from the first that there is.
pub open spec fn smma(values: Seq<Num>, period: usize) -> Seq<Num> {
    if values.len() < period {
        Seq::empty()
    } else {
        Seq::new(
            (values.len() - period + 1) as nat,
            |j: int| smoothed(values, period, j + period - 1),
        )
    }
}

/// See [`smma`].
pub fn calc_smma(values: &VecDeque<Num>, period: usize) -> (r: VecDeque<Num>)
    ensures
        r@ == smma(values@, period),
{
    let n: usize = values.len();
    let mut r: VecDeque<Num> = VecDeque::new();
    if n < period {
        assert(r@ =~= smma(values@, period));
        return r;
    }
    let p: Num = Num::from_u64(period as u64);
    let rest: Num = p.minus(num(figures::ONE));
    let mut sum: Num = num(figures::MINUS_ZERO);
    let mut i: usize = 0;
    while i < period
        invariant
            i <= period <= n,
            n == values@.len(),
            sum == total(values@, i as nat),
        decreases period - i,
    {
        sum = sum.plus(values[i]);
        i = i + 1;
    }
    let mut last: Num = sum.over(p);
    r.push_back(last);
    assert(r@ =~= smma(values@, period).take(1));
    while i < n
        invariant
            period <= i <= n,
            n == values@.len(),
            p == Num::from_u64(period as u64),
            rest == p.minus(num(figures::ONE)),
            last == smoothed(values@, period, i - 1),
            r@ == smma(values@, period).take(i - period + 1),
        decreases n - i,
    {
        last = last.times(rest).plus(values[i]).over(p);
        r.push_back(last);
        assert(r@ =~= smma(values@, period).take(i + 1 - period + 1));
        i = i + 1;
    }
    assert(smma(values@, period).take(n - period + 1) =~= smma(values@, period));
    r
}

/// The average that stands `displacement` before the last.
pub open spec fn displaced(averages: Seq<Num>, displacement: usize) -> Option<Num> {
    if averages.len() <= displacement {
        None
    } else {
        Some(averages[averages.len() - 1 - displacement])
    }
}

/// See [`displaced`].
pub fn get_displaced(averages: &VecDeque<Num>, displacement: usize) -> (r: Option<Num>)
    ensures
        r == displaced(averages@, displacement),
{
    if averages.len() <= displacement {
        return None;
    }
    Some(averages[averages.len() - 1 - displacement])
}

/// The alignment of three averages: in ascending or in descending order, or neither.
pub open spec fn spec_determine_alignment(lips: Num, teeth: Num, jaw: Num) -> AlligatorAlignment {
    if teeth.below(lips) && jaw.below(teeth) {
        AlligatorAlignment::Bullish
    } else if lips.below(teeth) && teeth.below(jaw) {
        AlligatorAlignment::Bearish
    } else {
        AlligatorAlignment::Mixed
    }
}

/// See [`spec_determine_alignment`].
#[verifier::when_used_as_spec(spec_determine_alignment)]
pub fn determine_alignment(lips: Num, teeth: Num, jaw: Num) -> (r: AlligatorAlignment)
    ensures
        r == spec_determine_alignment(lips, teeth, jaw),
{
    if teeth.below(lips) && jaw.below(teeth) {
        AlligatorAlignment::Bullish
    } else if lips.below(teeth) && teeth.below(jaw) {
        AlligatorAlignment::Bearish
    } else {
        AlligatorAlignment::Mixed
    }
}

/// The closes after one more, of which the oldest goes when there are too many.
pub open spec fn with_close(closes: Seq<Num>, close: Num) -> Seq<Num> {
    let s = closes.push(close);
    if s.len() > MAX_CLOSE_POOL {
        s.skip(1)
    } else {
        s
    }
}

/// See [`with_close`].
pub fn push_close(closes: &mut VecDeque<Num>, close: Num)
    ensures
        final(closes)@ == with_close(old(closes)@, close),
{
    closes.push_back(close);
    if closes.len() > MAX_CLOSE_POOL {
        let ghost all = closes@;
        closes.pop_front();
        assert(closes@ =~= all.skip(1));
    }
}

} // verus!
