//! Sorted random numbers in constant space.
//!
//! A threshold between zero and one starts at one. For each number it is
//! scaled down by the k-th root of a uniform draw, where k counts the numbers
//! still to come; what the threshold has lost of one, laid over the range,
//! gives the number. The threshold never grows, so the numbers never fall.
//! The threshold and the draws are fractions of thirty-two bits.

use crate::chance::random_u32;
use std::ops::{Range, RangeInclusive};
use vstd::prelude::*;

verus! {

/// One, as a fraction of thirty-two bits.
pub const SCALE: u64 = 0x1_0000_0000;

/// `RangeInclusive::into_inner`: the lower bound and the upper bound, which
/// belongs to the range.
pub assume_specification<Idx>[ RangeInclusive::<Idx>::into_inner ](
    range: RangeInclusive<Idx>,
) -> (bounds: (Idx, Idx))
    ensures
        bounds.0 == range@.start,
        bounds.1 == range@.end,
;

/// A range of indices given by its first and its last member.
pub trait StartEndRange: Sized {
    /// The first and the last member.
    spec fn spec_bounds(&self) -> (usize, usize);

    /// The bounds can be computed.
    spec fn has_bounds(&self) -> bool;

    fn get_bounds(self) -> (bounds: (usize, usize))
        requires
            self.has_bounds(),
        ensures
            bounds == self.spec_bounds(),
    ;
}

impl StartEndRange for Range<usize> {
    open spec fn spec_bounds(&self) -> (usize, usize) {
        (self.start, (self.end - 1) as usize)
    }

    open spec fn has_bounds(&self) -> bool {
        self.end >= 1
    }

    fn get_bounds(self) -> (bounds: (usize, usize)) {
        (self.start, self.end - 1)
    }
}

impl StartEndRange for RangeInclusive<usize> {
    open spec fn spec_bounds(&self) -> (usize, usize) {
        (self@.start, self@.end)
    }

    open spec fn has_bounds(&self) -> bool {
        true
    }

    fn get_bounds(self) -> (bounds: (usize, usize)) {
        self.into_inner()
    }
}

/// A fraction raised to a power, each product rounded down.
pub open spec fn pow_spec(r: int, k: nat) -> int
    decreases k,
{
    if k == 0 {
        SCALE as int
    } else if k % 2 == 0 {
        pow_spec(r, k / 2) * pow_spec(r, k / 2) / (SCALE as int)
    } else {
        pow_spec(r, (k - 1) as nat) * r / (SCALE as int)
    }
}

/// A power of a fraction is a fraction, and a larger fraction has no smaller
/// power.
pub proof fn lemma_pow(r1: int, r2: int, k: nat)
    requires
        0 <= r1 <= r2 <= SCALE,
    ensures
        0 <= pow_spec(r1, k) <= pow_spec(r2, k) <= SCALE,
        k > 0 ==> pow_spec(0, k) == 0,
        pow_spec(SCALE as int, k) == SCALE,
    decreases k,
{
    let s = SCALE as int;
    if k == 0 {
    } else if k % 2 == 0 {
        lemma_pow(r1, r2, k / 2);
        lemma_pow(0, s, k / 2);
        let a = pow_spec(r1, k / 2);
        let b = pow_spec(r2, k / 2);
        assert(0 <= a * a / s <= b * b / s <= s) by (nonlinear_arith)
            requires
                0 <= a <= b <= s,
                s > 0,
        ;
        let z = pow_spec(0, k / 2);
        assert(z * z / s == 0) by (nonlinear_arith)
            requires
                z == 0,
                s > 0,
        ;
        assert(s * s / s == s) by (nonlinear_arith)
            requires
                s > 0,
        ;
    } else {
        lemma_pow(r1, r2, (k - 1) as nat);
        lemma_pow(0, s, (k - 1) as nat);
        let a = pow_spec(r1, (k - 1) as nat);
        let b = pow_spec(r2, (k - 1) as nat);
        assert(0 <= a * r1 / s <= b * r2 / s <= s) by (nonlinear_arith)
            requires
                0 <= a <= b <= s,
                0 <= r1 <= r2 <= s,
                s > 0,
        ;
        let z = pow_spec(0, (k - 1) as nat);
        assert(z * 0 / s == 0) by (nonlinear_arith)
            requires
                s > 0,
        ;
        assert(s * s / s == s) by (nonlinear_arith)
            requires
                s > 0,
        ;
    }
}

/// A fraction raised to a power.
pub fn pow_fraction(r: u64, k: usize) -> (power: u64)
    requires
        r <= SCALE,
    ensures
        power == pow_spec(r as int, k as nat),
        power <= SCALE,
    decreases k,
{
    proof {
        lemma_pow(r as int, r as int, k as nat);
    }
    if k == 0 {
        SCALE
    } else if k % 2 == 0 {
        let half = pow_fraction(r, k / 2);
        assert(half * half <= SCALE * SCALE) by (nonlinear_arith)
            requires
                half <= SCALE,
        ;
        ((half as u128 * half as u128) / (SCALE as u128)) as u64
    } else {
        let rest = pow_fraction(r, k - 1);
        assert(rest * r <= SCALE * SCALE) by (nonlinear_arith)
            requires
                rest <= SCALE,
                r <= SCALE,
        ;
        ((rest as u128 * r as u128) / (SCALE as u128)) as u64
    }
}

/// The k-th root of a draw: the largest fraction whose k-th power does not
/// exceed the draw.
pub open spec fn is_root(root: int, draw: int, k: nat) -> bool {
    &&& 0 <= root < SCALE
    &&& pow_spec(root, k) <= draw
    &&& pow_spec(root + 1, k) > draw
}

/// The k-th root of a draw.
pub fn root_fraction(draw: u32, k: usize) -> (root: u64)
    requires
        k > 0,
    ensures
        is_root(root as int, draw as int, k as nat),
{
    let mut low: u64 = 0;
    let mut high: u64 = SCALE;
    proof {
        lemma_pow(0, SCALE as int, k as nat);
    }
    while high - low > 1
        invariant
            0 <= low < high <= SCALE,
            k > 0,
            pow_spec(low as int, k as nat) <= draw,
            pow_spec(high as int, k as nat) > draw,
        decreases high - low,
    {
        let mid = low + (high - low) / 2;
        if pow_fraction(mid, k) <= draw as u64 {
            low = mid;
        } else {
            high = mid;
        }
    }
    low
}

/// The k-th root of a draw is the only fraction that `is_root` admits.
pub proof fn lemma_root_unique(a: int, b: int, draw: int, k: nat)
    requires
        is_root(a, draw, k),
        is_root(b, draw, k),
    ensures
        a == b,
{
    if a < b {
        lemma_pow(a + 1, b, k);
    } else if b < a {
        lemma_pow(b + 1, a, k);
    }
}

/// A threshold scaled down by a root.
pub open spec fn shrink_spec(curmax: int, root: int) -> int {
    curmax * root / (SCALE as int)
}

/// The index that a threshold gives in the range from `min` to `last`.
pub open spec fn index_spec(min: int, last: int, curmax: int) -> int {
    let extent = last - min + 1;
    let offset = (SCALE - curmax) * extent / (SCALE as int);
    if offset >= extent {
        last
    } else {
        min + offset
    }
}

/// An index lies in its range, and a smaller threshold gives no smaller index.
pub proof fn lemma_index(min: int, last: int, smaller: int, larger: int)
    requires
        0 <= min <= last,
        0 <= smaller <= larger <= SCALE,
    ensures
        min <= index_spec(min, last, larger) <= index_spec(min, last, smaller) <= last,
{
    let s = SCALE as int;
    let extent = last - min + 1;
    assert(0 <= (s - larger) * extent / s <= (s - smaller) * extent / s) by (nonlinear_arith)
        requires
            0 <= smaller <= larger <= s,
            extent > 0,
            s > 0,
    ;
}

/// The value of a generator.
pub struct RandorstView {
    /// How many numbers are still to come.
    pub remaining: nat,
    /// The first index of the range.
    pub min: int,
    /// The last index of the range.
    pub last: int,
    /// The threshold.
    pub curmax: int,
}

/// A generator of sorted random numbers.
pub struct Randorst {
    n: usize,
    min: usize,
    last: usize,
    curmax: u64,
    rng: fastrand::Rng,
}

impl View for Randorst {
    type V = RandorstView;

    closed spec fn view(&self) -> RandorstView {
        RandorstView {
            remaining: self.n as nat,
            min: self.min as int,
            last: self.last as int,
            curmax: self.curmax as int,
        }
    }
}

/// The range is not empty, and the threshold is a fraction.
pub open spec fn randorst_wf(v: RandorstView) -> bool {
    0 <= v.min <= v.last <= usize::MAX && 0 <= v.curmax <= SCALE && v.remaining <= usize::MAX
}

/// The index that a generator stands at: no number to come is smaller.
pub open spec fn floor_of(v: RandorstView) -> int {
    index_spec(v.min, v.last, v.curmax)
}

impl Randorst {
    /// A generator of `n` sorted random numbers from a range that is not
    /// empty.
    pub fn gen<R>(n: usize, range: R) -> (generator: Self) where R: StartEndRange
        requires
            range.has_bounds(),
            range.spec_bounds().0 <= range.spec_bounds().1,
        ensures
            generator@ == (RandorstView {
                remaining: n as nat,
                min: range.spec_bounds().0 as int,
                last: range.spec_bounds().1 as int,
                curmax: SCALE as int,
            }),
            randorst_wf(generator@),
            floor_of(generator@) == generator@.min,
    {
        let (start, end) = range.get_bounds();
        proof {
            let extent = end - start + 1;
            assert(0 * extent / (SCALE as int) == 0) by (nonlinear_arith);
        }
        Self { min: start, n, last: end, rng: fastrand::Rng::new(), curmax: SCALE }
    }

    /// The index that a threshold gives.
    fn index_at(&self) -> (index: usize)
        requires
            randorst_wf(self@),
        ensures
            index == floor_of(self@),
            self.min <= index <= self.last,
    {
        proof {
            lemma_index(self.min as int, self.last as int, self.curmax as int, self.curmax as int);
        }
        let extent: u128 = (self.last - self.min) as u128 + 1;
        let lost: u128 = (SCALE - self.curmax) as u128;
        assert(lost * extent <= SCALE * extent) by (nonlinear_arith)
            requires
                lost <= SCALE,
                extent >= 0,
        ;
        assert(SCALE * extent <= 0x1_0000_0000 * 0x1_0000_0000_0000_0000) by (nonlinear_arith)
            requires
                SCALE == 0x1_0000_0000,
                extent <= 0x1_0000_0000_0000_0000,
        ;
        let offset: u128 = lost * extent / (SCALE as u128);
        if offset >= extent {
            self.last
        } else {
            self.min + offset as usize
        }
    }

    /// The next number, if one is still to come. It lies in the range and is
    /// no smaller than the one before it.
    pub fn next(&mut self) -> (number: Option<usize>)
        requires
            randorst_wf(old(self)@),
        ensures
            randorst_wf(final(self)@),
            final(self)@.min == old(self)@.min,
            final(self)@.last == old(self)@.last,
            old(self)@.remaining == 0 ==> number is None && final(self)@ == old(self)@,
            old(self)@.remaining > 0 ==> {
                &&& number is Some
                &&& final(self)@.remaining == old(self)@.remaining - 1
                &&& number->Some_0 == floor_of(final(self)@)
                &&& old(self)@.min <= floor_of(old(self)@) <= number->Some_0 <= old(self)@.last
                &&& exists|draw: u32, root: int|
                    is_root(root, draw as int, old(self)@.remaining) && final(self)@.curmax
                        == shrink_spec(old(self)@.curmax, root)
            },
    {
        if self.n == 0 {
            return None;
        }
        let draw = random_u32(&self.rng);
        let root = root_fraction(draw, self.n);
        self.n -= 1;
        let ghost before = self.curmax;
        assert(self.curmax * root <= SCALE * SCALE) by (nonlinear_arith)
            requires
                self.curmax <= SCALE,
                root <= SCALE,
        ;
        assert(0 <= (self.curmax * root) / (SCALE as int) <= self.curmax) by (nonlinear_arith)
            requires
                0 <= self.curmax,
                0 <= root <= SCALE,
                SCALE > 0,
        ;
        self.curmax = ((self.curmax as u128 * root as u128) / (SCALE as u128)) as u64;
        proof {
            lemma_index(self.min as int, self.last as int, self.curmax as int, before as int);
            assert(is_root(root as int, draw as int, old(self)@.remaining) && self@.curmax
                == shrink_spec(old(self)@.curmax, root as int));
        }
        Some(self.index_at())
    }

    /// All the numbers that are still to come.
    pub fn collect(self) -> (numbers: Vec<usize>)
        requires
            randorst_wf(self@),
        ensures
            numbers.len() == self@.remaining,
            forall|i: int|
                0 <= i < numbers.len() ==> self@.min <= #[trigger] numbers[i] <= self@.last,
            forall|i: int, j: int| 0 <= i <= j < numbers.len() ==> numbers[i] <= numbers[j],
    {
        let mut generator = self;
        let mut numbers: Vec<usize> = Vec::new();
        loop
            invariant
                randorst_wf(generator@),
                generator@.min == self@.min,
                generator@.last == self@.last,
                numbers.len() + generator@.remaining == self@.remaining,
                forall|i: int|
                    0 <= i < numbers.len() ==> self@.min <= #[trigger] numbers[i] <= floor_of(
                        generator@,
                    ),
                self@.min <= floor_of(generator@) <= self@.last,
                forall|i: int, j: int| 0 <= i <= j < numbers.len() ==> numbers[i] <= numbers[j],
            ensures
                numbers.len() == self@.remaining,
                forall|i: int|
                    0 <= i < numbers.len() ==> self@.min <= #[trigger] numbers[i] <= self@.last,
                forall|i: int, j: int| 0 <= i <= j < numbers.len() ==> numbers[i] <= numbers[j],
            decreases generator@.remaining,
        {
            match generator.next() {
                Some(number) => {
                    numbers.push(number);
                },
                None => {
                    break ;
                },
            }
        }
        numbers
    }
}

} // verus!
