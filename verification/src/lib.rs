//! An inclusive integer range type, `Extent`, that avoids the usual
//! shortcomings of half-open ranges: it can represent a span that touches the
//! domain's maximum value, it can represent the empty range without an extra
//! flag, and it is a plain copyable pair of numbers.
//!
//! The empty range is stored in the one canonical form `lo = 1, hi = 0`; every
//! non-empty range keeps `lo <= hi`.  Construction, the set-style operations
//! (`union`, `intersect`, `contains`), iteration in both directions, and the
//! conversions to and from the standard library's range types all carry
//! contracts stated over a mathematical model of the pair, and the laws the
//! type obeys (normalisation, round trips, union and intersection algebra)
//! are proved below as public proof functions.

use core::cmp::Ordering;
use core::ops::Range;
use core::ops::RangeInclusive;
use vstd::prelude::*;
use vstd::std_specs::cmp::PartialOrdSpec;
use vstd::std_specs::range::RangeInclusiveView;

verus! {

/// Folds `n` back into `[min, max]` the way the domain's wrapping arithmetic
/// does, for an `n` that lies at most one full domain width above `max`.
pub open spec fn wrap_len(n: int, min: int, max: int) -> int {
    if n > max {
        n - (max - min + 1)
    } else {
        n
    }
}

/// The bounded integer domains an `Extent` can range over: each is a plain
/// fixed-width integer type, viewed in specifications as the mathematical
/// integer `as_int`.
pub trait Domain: Copy + PartialOrd + Sized {
    /// The mathematical value of this number.
    spec fn as_int(self) -> int;

    /// The smallest value of the domain.
    spec fn min_spec() -> int;

    /// The largest value of the domain.
    spec fn max_spec() -> int;

    /// The domain's zero element.
    spec fn zero_spec() -> Self;

    /// The domain's one element.
    spec fn one_spec() -> Self;

    /// The value one above `self`, meaningful below `max_spec`.
    spec fn succ_spec(self) -> Self;

    /// The value one below `self`, meaningful above `min_spec`.
    spec fn pred_spec(self) -> Self;

    /// What every implementation guarantees: values sit between the bounds,
    /// zero and one are representable, `as_int` is injective, successor and
    /// predecessor move by exactly one, and the standard comparison operators
    /// agree with the order of `as_int`.
    proof fn properties(self, other: Self)
        ensures
            Self::min_spec() <= self.as_int() <= Self::max_spec(),
            Self::min_spec() <= 0 < 1 <= Self::max_spec(),
            Self::zero_spec().as_int() == 0,
            Self::one_spec().as_int() == 1,
            self.as_int() == other.as_int() ==> self == other,
            self.as_int() < Self::max_spec() ==> self.succ_spec().as_int() == self.as_int() + 1,
            self.as_int() > Self::min_spec() ==> self.pred_spec().as_int() == self.as_int() - 1,
            Self::obeys_partial_cmp_spec(),
            self.partial_cmp_spec(&other) == Some(
                if self.as_int() < other.as_int() {
                    Ordering::Less
                } else if self.as_int() == other.as_int() {
                    Ordering::Equal
                } else {
                    Ordering::Greater
                },
            ),
    ;

    /// The zero element, at run time.
    fn zero() -> (r: Self)
        ensures
            r == Self::zero_spec(),
    ;

    /// The one element, at run time.
    fn one() -> (r: Self)
        ensures
            r == Self::one_spec(),
    ;

    /// The largest value of the domain, at run time.
    fn max_value() -> (r: Self)
        ensures
            r.as_int() == Self::max_spec(),
    ;

    /// `self <= other` in the domain's order.
    fn at_most(self, other: Self) -> (r: bool)
        ensures
            r == (self.as_int() <= other.as_int()),
    ;

    /// `self < other` in the domain's order.
    fn less_than(self, other: Self) -> (r: bool)
        ensures
            r == (self.as_int() < other.as_int()),
    ;

    /// The next value up; the caller keeps it away from the maximum.
    fn succ(self) -> (r: Self)
        requires
            self.as_int() < Self::max_spec(),
        ensures
            r == self.succ_spec(),
            r.as_int() == self.as_int() + 1,
    ;

    /// The next value down; the caller keeps it away from the minimum.
    fn pred(self) -> (r: Self)
        requires
            self.as_int() > Self::min_spec(),
        ensures
            r == self.pred_spec(),
            r.as_int() == self.as_int() - 1,
    ;

    /// The count `hi - lo + 1` of an ordered pair, computed with the domain's
    /// wrapping arithmetic: exact whenever the count is representable, and
    /// wrapped by exactly one domain width when it is not.
    fn span_len(lo: Self, hi: Self) -> (r: Self)
        requires
            lo.as_int() <= hi.as_int(),
        ensures
            r.as_int() == wrap_len(hi.as_int() - lo.as_int() + 1, Self::min_spec(), Self::max_spec()),
    ;
}

impl Domain for i32 {
    open spec fn as_int(self) -> int {
        self as int
    }

    open spec fn min_spec() -> int {
        i32::MIN as int
    }

    open spec fn max_spec() -> int {
        i32::MAX as int
    }

    open spec fn zero_spec() -> i32 {
        0
    }

    open spec fn one_spec() -> i32 {
        1
    }

    open spec fn succ_spec(self) -> i32 {
        (self as int + 1) as i32
    }

    open spec fn pred_spec(self) -> i32 {
        (self as int - 1) as i32
    }

    proof fn properties(self, other: i32) {
    }

    fn zero() -> i32 {
        0
    }

    fn one() -> i32 {
        1
    }

    fn max_value() -> i32 {
        i32::MAX
    }

    fn at_most(self, other: i32) -> bool {
        self <= other
    }

    fn less_than(self, other: i32) -> bool {
        self < other
    }

    fn succ(self) -> i32 {
        self + 1
    }

    fn pred(self) -> i32 {
        self - 1
    }

    fn span_len(lo: i32, hi: i32) -> i32 {
        hi.wrapping_sub(lo).wrapping_add(1)
    }
}

impl Domain for u8 {
    open spec fn as_int(self) -> int {
        self as int
    }

    open spec fn min_spec() -> int {
        u8::MIN as int
    }

    open spec fn max_spec() -> int {
        u8::MAX as int
    }

    open spec fn zero_spec() -> u8 {
        0
    }

    open spec fn one_spec() -> u8 {
        1
    }

    open spec fn succ_spec(self) -> u8 {
        (self as int + 1) as u8
    }

    open spec fn pred_spec(self) -> u8 {
        (self as int - 1) as u8
    }

    proof fn properties(self, other: u8) {
    }

    fn zero() -> u8 {
        0
    }

    fn one() -> u8 {
        1
    }

    fn max_value() -> u8 {
        u8::MAX
    }

    fn at_most(self, other: u8) -> bool {
        self <= other
    }

    fn less_than(self, other: u8) -> bool {
        self < other
    }

    fn succ(self) -> u8 {
        self + 1
    }

    fn pred(self) -> u8 {
        self - 1
    }

    fn span_len(lo: u8, hi: u8) -> u8 {
        hi.wrapping_sub(lo).wrapping_add(1)
    }
}

impl Domain for u16 {
    open spec fn as_int(self) -> int {
        self as int
    }

    open spec fn min_spec() -> int {
        u16::MIN as int
    }

    open spec fn max_spec() -> int {
        u16::MAX as int
    }

    open spec fn zero_spec() -> u16 {
        0
    }

    open spec fn one_spec() -> u16 {
        1
    }

    open spec fn succ_spec(self) -> u16 {
        (self as int + 1) as u16
    }

    open spec fn pred_spec(self) -> u16 {
        (self as int - 1) as u16
    }

    proof fn properties(self, other: u16) {
    }

    fn zero() -> u16 {
        0
    }

    fn one() -> u16 {
        1
    }

    fn max_value() -> u16 {
        u16::MAX
    }

    fn at_most(self, other: u16) -> bool {
        self <= other
    }

    fn less_than(self, other: u16) -> bool {
        self < other
    }

    fn succ(self) -> u16 {
        self + 1
    }

    fn pred(self) -> u16 {
        self - 1
    }

    fn span_len(lo: u16, hi: u16) -> u16 {
        hi.wrapping_sub(lo).wrapping_add(1)
    }
}

impl Domain for u32 {
    open spec fn as_int(self) -> int {
        self as int
    }

    open spec fn min_spec() -> int {
        u32::MIN as int
    }

    open spec fn max_spec() -> int {
        u32::MAX as int
    }

    open spec fn zero_spec() -> u32 {
        0
    }

    open spec fn one_spec() -> u32 {
        1
    }

    open spec fn succ_spec(self) -> u32 {
        (self as int + 1) as u32
    }

    open spec fn pred_spec(self) -> u32 {
        (self as int - 1) as u32
    }

    proof fn properties(self, other: u32) {
    }

    fn zero() -> u32 {
        0
    }

    fn one() -> u32 {
        1
    }

    fn max_value() -> u32 {
        u32::MAX
    }

    fn at_most(self, other: u32) -> bool {
        self <= other
    }

    fn less_than(self, other: u32) -> bool {
        self < other
    }

    fn succ(self) -> u32 {
        self + 1
    }

    fn pred(self) -> u32 {
        self - 1
    }

    fn span_len(lo: u32, hi: u32) -> u32 {
        hi.wrapping_sub(lo).wrapping_add(1)
    }
}

impl Domain for u64 {
    open spec fn as_int(self) -> int {
        self as int
    }

    open spec fn min_spec() -> int {
        u64::MIN as int
    }

    open spec fn max_spec() -> int {
        u64::MAX as int
    }

    open spec fn zero_spec() -> u64 {
        0
    }

    open spec fn one_spec() -> u64 {
        1
    }

    open spec fn succ_spec(self) -> u64 {
        (self as int + 1) as u64
    }

    open spec fn pred_spec(self) -> u64 {
        (self as int - 1) as u64
    }

    proof fn properties(self, other: u64) {
    }

    fn zero() -> u64 {
        0
    }

    fn one() -> u64 {
        1
    }

    fn max_value() -> u64 {
        u64::MAX
    }

    fn at_most(self, other: u64) -> bool {
        self <= other
    }

    fn less_than(self, other: u64) -> bool {
        self < other
    }

    fn succ(self) -> u64 {
        self + 1
    }

    fn pred(self) -> u64 {
        self - 1
    }

    fn span_len(lo: u64, hi: u64) -> u64 {
        hi.wrapping_sub(lo).wrapping_add(1)
    }
}

impl Domain for usize {
    open spec fn as_int(self) -> int {
        self as int
    }

    open spec fn min_spec() -> int {
        usize::MIN as int
    }

    open spec fn max_spec() -> int {
        usize::MAX as int
    }

    open spec fn zero_spec() -> usize {
        0
    }

    open spec fn one_spec() -> usize {
        1
    }

    open spec fn succ_spec(self) -> usize {
        (self as int + 1) as usize
    }

    open spec fn pred_spec(self) -> usize {
        (self as int - 1) as usize
    }

    proof fn properties(self, other: usize) {
    }

    fn zero() -> usize {
        0
    }

    fn one() -> usize {
        1
    }

    fn max_value() -> usize {
        usize::MAX
    }

    fn at_most(self, other: usize) -> bool {
        self <= other
    }

    fn less_than(self, other: usize) -> bool {
        self < other
    }

    fn succ(self) -> usize {
        self + 1
    }

    fn pred(self) -> usize {
        self - 1
    }

    fn span_len(lo: usize, hi: usize) -> usize {
        hi.wrapping_sub(lo).wrapping_add(1)
    }
}

impl Domain for i8 {
    open spec fn as_int(self) -> int {
        self as int
    }

    open spec fn min_spec() -> int {
        i8::MIN as int
    }

    open spec fn max_spec() -> int {
        i8::MAX as int
    }

    open spec fn zero_spec() -> i8 {
        0
    }

    open spec fn one_spec() -> i8 {
        1
    }

    open spec fn succ_spec(self) -> i8 {
        (self as int + 1) as i8
    }

    open spec fn pred_spec(self) -> i8 {
        (self as int - 1) as i8
    }

    proof fn properties(self, other: i8) {
    }

    fn zero() -> i8 {
        0
    }

    fn one() -> i8 {
        1
    }

    fn max_value() -> i8 {
        i8::MAX
    }

    fn at_most(self, other: i8) -> bool {
        self <= other
    }

    fn less_than(self, other: i8) -> bool {
        self < other
    }

    fn succ(self) -> i8 {
        self + 1
    }

    fn pred(self) -> i8 {
        self - 1
    }

    fn span_len(lo: i8, hi: i8) -> i8 {
        hi.wrapping_sub(lo).wrapping_add(1)
    }
}

impl Domain for i16 {
    open spec fn as_int(self) -> int {
        self as int
    }

    open spec fn min_spec() -> int {
        i16::MIN as int
    }

    open spec fn max_spec() -> int {
        i16::MAX as int
    }

    open spec fn zero_spec() -> i16 {
        0
    }

    open spec fn one_spec() -> i16 {
        1
    }

    open spec fn succ_spec(self) -> i16 {
        (self as int + 1) as i16
    }

    open spec fn pred_spec(self) -> i16 {
        (self as int - 1) as i16
    }

    proof fn properties(self, other: i16) {
    }

    fn zero() -> i16 {
        0
    }

    fn one() -> i16 {
        1
    }

    fn max_value() -> i16 {
        i16::MAX
    }

    fn at_most(self, other: i16) -> bool {
        self <= other
    }

    fn less_than(self, other: i16) -> bool {
        self < other
    }

    fn succ(self) -> i16 {
        self + 1
    }

    fn pred(self) -> i16 {
        self - 1
    }

    fn span_len(lo: i16, hi: i16) -> i16 {
        hi.wrapping_sub(lo).wrapping_add(1)
    }
}

impl Domain for i64 {
    open spec fn as_int(self) -> int {
        self as int
    }

    open spec fn min_spec() -> int {
        i64::MIN as int
    }

    open spec fn max_spec() -> int {
        i64::MAX as int
    }

    open spec fn zero_spec() -> i64 {
        0
    }

    open spec fn one_spec() -> i64 {
        1
    }

    open spec fn succ_spec(self) -> i64 {
        (self as int + 1) as i64
    }

    open spec fn pred_spec(self) -> i64 {
        (self as int - 1) as i64
    }

    proof fn properties(self, other: i64) {
    }

    fn zero() -> i64 {
        0
    }

    fn one() -> i64 {
        1
    }

    fn max_value() -> i64 {
        i64::MAX
    }

    fn at_most(self, other: i64) -> bool {
        self <= other
    }

    fn less_than(self, other: i64) -> bool {
        self < other
    }

    fn succ(self) -> i64 {
        self + 1
    }

    fn pred(self) -> i64 {
        self - 1
    }

    fn span_len(lo: i64, hi: i64) -> i64 {
        hi.wrapping_sub(lo).wrapping_add(1)
    }
}

impl Domain for isize {
    open spec fn as_int(self) -> int {
        self as int
    }

    open spec fn min_spec() -> int {
        isize::MIN as int
    }

    open spec fn max_spec() -> int {
        isize::MAX as int
    }

    open spec fn zero_spec() -> isize {
        0
    }

    open spec fn one_spec() -> isize {
        1
    }

    open spec fn succ_spec(self) -> isize {
        (self as int + 1) as isize
    }

    open spec fn pred_spec(self) -> isize {
        (self as int - 1) as isize
    }

    proof fn properties(self, other: isize) {
    }

    fn zero() -> isize {
        0
    }

    fn one() -> isize {
        1
    }

    fn max_value() -> isize {
        isize::MAX
    }

    fn at_most(self, other: isize) -> bool {
        self <= other
    }

    fn less_than(self, other: isize) -> bool {
        self < other
    }

    fn succ(self) -> isize {
        self + 1
    }

    fn pred(self) -> isize {
        self - 1
    }

    fn span_len(lo: isize, hi: isize) -> isize {
        hi.wrapping_sub(lo).wrapping_add(1)
    }
}

/// An inclusive range `{lo, lo+1, ..., hi}` over the integer domain `N`.
///
/// Either `lo <= hi` (a non-empty range), or the value is the canonical empty
/// range `lo = 1, hi = 0`: no other `lo > hi` pair can be produced by the
/// constructors, so equality of extents is plain field equality.
#[derive(Copy, Clone, Debug, Hash, PartialOrd, Ord, PartialEq, Eq)]
pub struct Extent<N: Domain> {
    lo: N,
    hi: N,
}

impl<N: Domain> Extent<N> {
    /// The stored low bound, as a domain value.
    pub closed spec fn lo_raw(self) -> N {
        self.lo
    }

    /// The stored high bound, as a domain value.
    pub closed spec fn hi_raw(self) -> N {
        self.hi
    }

    /// The stored low bound, as a mathematical integer.
    pub open spec fn lo_int(self) -> int {
        self.lo_raw().as_int()
    }

    /// The stored high bound, as a mathematical integer.
    pub open spec fn hi_int(self) -> int {
        self.hi_raw().as_int()
    }

    /// Whether the range holds no values.
    pub open spec fn spec_is_empty(self) -> bool {
        self.hi_int() < self.lo_int()
    }

    /// The representation invariant: ordered bounds, or the canonical empty
    /// sentinel.
    pub open spec fn wf(self) -> bool {
        self.lo_int() <= self.hi_int() || (self.lo_int() == 1 && self.hi_int() == 0)
    }

    /// The number of values covered, as a mathematical integer.
    pub open spec fn spec_len(self) -> int {
        if self.spec_is_empty() {
            0
        } else {
            self.hi_int() - self.lo_int() + 1
        }
    }

    /// The set of integers the range covers.
    pub open spec fn to_set(self) -> Set<int> {
        Set::new(|i: int| self.lo_int() <= i && i <= self.hi_int())
    }

    /// The covered integers in ascending order.
    pub open spec fn to_seq(self) -> Seq<int> {
        Seq::new(self.spec_len() as nat, |i: int| self.lo_int() + i)
    }

    /// The canonical empty range, as a specification value.
    pub closed spec fn spec_empty() -> Self {
        Extent { lo: N::one_spec(), hi: N::zero_spec() }
    }

    /// What `new` returns: the bounds in order, whichever way they were given.
    pub closed spec fn spec_new(a: N, b: N) -> Self {
        if a.as_int() <= b.as_int() {
            Extent { lo: a, hi: b }
        } else {
            Extent { lo: b, hi: a }
        }
    }

    /// What `new_unchecked` returns: ordered bounds kept as they are, any
    /// other pair normalised to the canonical empty range.
    pub closed spec fn spec_new_unchecked(lo: N, hi: N) -> Self {
        if lo.as_int() <= hi.as_int() {
            Extent { lo, hi }
        } else {
            Self::spec_empty()
        }
    }

    /// What `union` returns: the convex hull of the operands, with the empty
    /// range as identity.
    pub closed spec fn spec_union(self, other: Self) -> Self {
        if self.spec_is_empty() {
            other
        } else if other.spec_is_empty() {
            self
        } else {
            Extent {
                lo: if self.lo.as_int() <= other.lo.as_int() {
                    self.lo
                } else {
                    other.lo
                },
                hi: if other.hi.as_int() <= self.hi.as_int() {
                    self.hi
                } else {
                    other.hi
                },
            }
        }
    }

    /// What `intersect` returns: the overlap of the operands, the canonical
    /// empty range when they are disjoint or one of them is empty.
    pub closed spec fn spec_intersect(self, other: Self) -> Self {
        if self.spec_is_empty() || other.spec_is_empty() {
            Self::spec_empty()
        } else {
            let lo = if other.lo.as_int() <= self.lo.as_int() {
                self.lo
            } else {
                other.lo
            };
            let hi = if self.hi.as_int() <= other.hi.as_int() {
                self.hi
            } else {
                other.hi
            };
            if lo.as_int() <= hi.as_int() {
                Extent { lo, hi }
            } else {
                Self::spec_empty()
            }
        }
    }

    /// The canonical empty range.
    pub fn empty() -> (r: Self)
        ensures
            r == Self::spec_empty(),
            r.wf(),
            r.spec_is_empty(),
            r.spec_len() == 0,
    {
        proof {
            N::zero_spec().properties(N::one_spec());
        }
        Extent { lo: N::one(), hi: N::zero() }
    }

    /// Whether the range holds no values.
    pub fn is_empty(&self) -> (r: bool)
        ensures
            r == self.spec_is_empty(),
    {
        !self.lo.at_most(self.hi)
    }

    /// The non-empty range between `a` and `b`, given in either order: the
    /// smaller argument becomes the low bound and the larger the high bound,
    /// so the result contains both arguments.
    pub fn new(a: N, b: N) -> (r: Self)
        ensures
            r == Self::spec_new(a, b),
            r.wf(),
            !r.spec_is_empty(),
            r.lo_int() == if a.as_int() <= b.as_int() { a.as_int() } else { b.as_int() },
            r.hi_int() == if a.as_int() <= b.as_int() { b.as_int() } else { a.as_int() },
            r.to_set().contains(a.as_int()),
            r.to_set().contains(b.as_int()),
    {
        if a.at_most(b) {
            Extent { lo: a, hi: b }
        } else {
            Extent { lo: b, hi: a }
        }
    }

    /// The raw constructor for bounds that are already ordered, meant for
    /// rebuilding an extent from stored or transmitted fields: an ordered
    /// pair is kept exactly as given, and any `lo > hi` pair — in particular
    /// the stored form of the empty range — is normalised to the canonical
    /// empty range rather than reordered.  A caller who swaps the bounds of a
    /// non-empty range by mistake therefore gets the empty range back, not
    /// the range between them.
    pub fn new_unchecked(lo: N, hi: N) -> (r: Self)
        ensures
            r == Self::spec_new_unchecked(lo, hi),
            r.wf(),
            lo.as_int() <= hi.as_int() ==> r.lo_int() == lo.as_int() && r.hi_int() == hi.as_int(),
            lo.as_int() > hi.as_int() ==> r.spec_is_empty(),
    {
        if lo.at_most(hi) {
            Extent { lo, hi }
        } else {
            Self::empty()
        }
    }

    /// The low bound, or nothing when the range is empty.
    pub fn lo(&self) -> (r: Option<N>)
        ensures
            r == if self.spec_is_empty() {
                Option::<N>::None
            } else {
                Option::Some(self.lo_raw())
            },
    {
        if self.is_empty() {
            None
        } else {
            Some(self.lo)
        }
    }

    /// The high bound, or nothing when the range is empty.
    pub fn hi(&self) -> (r: Option<N>)
        ensures
            r == if self.spec_is_empty() {
                Option::<N>::None
            } else {
                Option::Some(self.hi_raw())
            },
    {
        if self.is_empty() {
            None
        } else {
            Some(self.hi)
        }
    }

    /// The stored low bound, sentinel included: `1` on the empty range.  For
    /// code that serialises the raw pair; ordinary callers want `lo`.
    pub fn lo_unchecked(&self) -> (r: N)
        ensures
            r == self.lo_raw(),
    {
        self.lo
    }

    /// The stored high bound, sentinel included: `0` on the empty range.  For
    /// code that serialises the raw pair; ordinary callers want `hi`.
    pub fn hi_unchecked(&self) -> (r: N)
        ensures
            r == self.hi_raw(),
    {
        self.hi
    }

    /// How many values the range covers: zero when empty, `hi - lo + 1`
    /// otherwise.  When that count overflows the domain itself — a range
    /// spanning the whole domain — the result wraps by one domain width, the
    /// way the domain's wrapping arithmetic does; for every narrower range
    /// the count is exact.
    pub fn len(&self) -> (r: N)
        ensures
            self.spec_is_empty() ==> r.as_int() == 0,
            !self.spec_is_empty() ==> r.as_int() == wrap_len(
                self.spec_len(),
                N::min_spec(),
                N::max_spec(),
            ),
            self.spec_len() <= N::max_spec() ==> r.as_int() == self.spec_len(),
    {
        if self.is_empty() {
            proof {
                N::zero_spec().properties(N::zero_spec());
            }
            N::zero()
        } else {
            N::span_len(self.lo, self.hi)
        }
    }

    /// Whether `n` lies between the bounds; always false on the empty range.
    pub fn contains(&self, n: N) -> (r: bool)
        ensures
            r == (self.lo_int() <= n.as_int() && n.as_int() <= self.hi_int()),
            r == self.to_set().contains(n.as_int()),
    {
        self.lo.at_most(n) && n.at_most(self.hi)
    }

    /// The smallest extent covering both operands: their convex hull, so two
    /// disjoint ranges yield the span from the least low bound to the
    /// greatest high bound.  The empty range is the identity.
    pub fn union(&self, other: Self) -> (r: Self)
        requires
            self.wf(),
            other.wf(),
        ensures
            r == self.spec_union(other),
            r.wf(),
            self.spec_is_empty() ==> r == other,
            other.spec_is_empty() && !self.spec_is_empty() ==> r == *self,
            !self.spec_is_empty() && !other.spec_is_empty() ==> {
                &&& !r.spec_is_empty()
                &&& r.lo_int() == if self.lo_int() <= other.lo_int() {
                    self.lo_int()
                } else {
                    other.lo_int()
                }
                &&& r.hi_int() == if self.hi_int() <= other.hi_int() {
                    other.hi_int()
                } else {
                    self.hi_int()
                }
            },
    {
        if self.is_empty() {
            other
        } else if other.is_empty() {
            *self
        } else {
            let lo = if self.lo.at_most(other.lo) {
                self.lo
            } else {
                other.lo
            };
            let hi = if other.hi.at_most(self.hi) {
                self.hi
            } else {
                other.hi
            };
            Extent { lo, hi }
        }
    }

    /// The overlap of the operands: empty when either operand is empty or
    /// the two do not meet, otherwise the range from the greater low bound
    /// to the lesser high bound.  Disjointness is detected before any bound
    /// is stored, so a gap never turns into a spurious non-empty range.
    pub fn intersect(&self, other: Self) -> (r: Self)
        requires
            self.wf(),
            other.wf(),
        ensures
            r == self.spec_intersect(other),
            r.wf(),
            self.spec_is_empty() || other.spec_is_empty() ==> r == Self::spec_empty(),
            !self.spec_is_empty() && !other.spec_is_empty() ==> {
                let lo = if self.lo_int() <= other.lo_int() {
                    other.lo_int()
                } else {
                    self.lo_int()
                };
                let hi = if self.hi_int() <= other.hi_int() {
                    self.hi_int()
                } else {
                    other.hi_int()
                };
                if lo <= hi {
                    r.lo_int() == lo && r.hi_int() == hi
                } else {
                    r == Self::spec_empty()
                }
            },
    {
        if self.is_empty() || other.is_empty() {
            Self::empty()
        } else {
            let lo = if other.lo.at_most(self.lo) {
                self.lo
            } else {
                other.lo
            };
            let hi = if self.hi.at_most(other.hi) {
                self.hi
            } else {
                other.hi
            };
            if lo.at_most(hi) {
                Extent { lo, hi }
            } else {
                Self::empty()
            }
        }
    }
}

/// `new` normalises its argument order: both orders build the same extent.
pub proof fn lemma_new_symmetric<N: Domain>(a: N, b: N)
    ensures
        Extent::spec_new(a, b) == Extent::spec_new(b, a),
{
    a.properties(b);
}

/// Adjacent spans chain: for `a <= b <= c`, the union of `a..=b` and `b..=c`
/// is exactly `a..=c`.
pub proof fn lemma_union_chain<N: Domain>(a: N, b: N, c: N)
    requires
        a.as_int() <= b.as_int(),
        b.as_int() <= c.as_int(),
    ensures
        Extent::spec_new(a, b).spec_union(Extent::spec_new(b, c)) == Extent::spec_new(a, c),
{
    a.properties(b);
    b.properties(c);
    a.properties(c);
}

/// Union does not depend on the order of its operands.
pub proof fn lemma_union_commutes<N: Domain>(x: Extent<N>, y: Extent<N>)
    requires
        x.wf(),
        y.wf(),
    ensures
        x.spec_union(y) == y.spec_union(x),
{
    x.lo_raw().properties(y.lo_raw());
    x.hi_raw().properties(y.hi_raw());
}

/// The empty range is the identity of union.
pub proof fn lemma_union_empty_identity<N: Domain>(x: Extent<N>)
    requires
        x.wf(),
    ensures
        x.spec_union(Extent::spec_empty()) == x,
        Extent::spec_empty().spec_union(x) == x,
{
    N::zero_spec().properties(N::one_spec());
    x.lo_raw().properties(N::one_spec());
    x.hi_raw().properties(N::zero_spec());
}

/// Spans that meet in a single point intersect in exactly that point: for
/// `a <= b <= c`, the intersection of `a..=b` and `b..=c` is `b..=b`.
pub proof fn lemma_intersect_chain<N: Domain>(a: N, b: N, c: N)
    requires
        a.as_int() <= b.as_int(),
        b.as_int() <= c.as_int(),
    ensures
        Extent::spec_new(a, b).spec_intersect(Extent::spec_new(b, c)) == Extent::spec_new(b, b),
{
    a.properties(b);
    b.properties(c);
    a.properties(c);
}

/// Intersection does not depend on the order of its operands.
pub proof fn lemma_intersect_commutes<N: Domain>(x: Extent<N>, y: Extent<N>)
    requires
        x.wf(),
        y.wf(),
    ensures
        x.spec_intersect(y) == y.spec_intersect(x),
{
    x.lo_raw().properties(y.lo_raw());
    x.hi_raw().properties(y.hi_raw());
}

/// Intersecting with the empty range yields the empty range.
pub proof fn lemma_intersect_empty<N: Domain>(x: Extent<N>)
    requires
        x.wf(),
    ensures
        x.spec_intersect(Extent::spec_empty()) == Extent::<N>::spec_empty(),
        Extent::spec_empty().spec_intersect(x) == Extent::<N>::spec_empty(),
{
    N::zero_spec().properties(N::one_spec());
}

impl<N: Domain> Default for Extent<N> {
    /// The empty range.
    fn default() -> (r: Self)
        ensures
            r == Self::spec_empty(),
    {
        Self::empty()
    }
}

impl<N: Domain> Extent<N> {
    /// A cursor over a copy of this range, yielding its values from low to
    /// high; the range itself is left untouched.
    pub fn iter(&self) -> (r: ExtentIter<N>)
        requires
            self.wf(),
        ensures
            r.wf(),
            r.remaining() == self.to_seq(),
    {
        ExtentIter(*self)
    }
}

/// A cursor that yields the values of an `Extent` in ascending order.  It
/// works on its own copy of the range: the low bound moves up after each
/// value, and the copy is collapsed to the canonical empty range once the
/// high bound has been yielded, so the step after the domain's maximum value
/// is never computed.
#[derive(Clone, Debug, Default)]
pub struct ExtentIter<N: Domain>(Extent<N>);

impl<N: Domain> ExtentIter<N> {
    /// The cursor's invariant: its working copy is a well-formed extent.
    pub closed spec fn wf(self) -> bool {
        self.0.wf()
    }

    /// The values not yet yielded, in the order they will come.
    pub closed spec fn remaining(self) -> Seq<int> {
        self.0.to_seq()
    }

    /// The next value, or nothing once the range is exhausted.
    pub fn next(&mut self) -> (r: Option<N>)
        requires
            old(self).wf(),
        ensures
            final(self).wf(),
            old(self).remaining().len() == 0 ==> r is None && final(self).remaining()
                == old(self).remaining(),
            old(self).remaining().len() > 0 ==> {
                &&& r matches Some(v) && v.as_int() == old(self).remaining()[0]
                &&& final(self).remaining() == old(self).remaining().drop_first()
            },
    {
        if self.0.is_empty() {
            None
        } else {
            let v = self.0.lo;
            proof {
                self.0.lo.properties(self.0.hi);
                self.0.hi.properties(self.0.lo);
            }
            if self.0.lo.less_than(self.0.hi) {
                self.0.lo = self.0.lo.succ();
            } else {
                self.0 = Extent::empty();
            }
            proof {
                assert(self.remaining() =~= old(self).remaining().drop_first());
            }
            Some(v)
        }
    }

    /// Turns the cursor around: the values it had left to yield come back
    /// from the other end, from high to low.
    pub fn rev(self) -> (r: ExtentRevIter<N>)
        requires
            self.wf(),
        ensures
            r.wf(),
            r.remaining() == self.remaining().reverse(),
    {
        let r = ExtentRevIter(self.0);
        proof {
            assert(r.remaining() =~= self.remaining().reverse());
        }
        r
    }
}

/// A cursor that yields the values of an `Extent` in descending order, from
/// the high bound down; obtained from a forward cursor through `rev`.  The
/// high bound of its working copy moves down after each value, and the copy
/// is collapsed to the canonical empty range once the low bound has been
/// yielded, so no step below the domain's minimum value is ever computed.
pub struct ExtentRevIter<N: Domain>(Extent<N>);

impl<N: Domain> ExtentRevIter<N> {
    /// The cursor's invariant: its working copy is a well-formed extent.
    pub closed spec fn wf(self) -> bool {
        self.0.wf()
    }

    /// The values not yet yielded, in the order they will come: descending.
    pub closed spec fn remaining(self) -> Seq<int> {
        self.0.to_seq().reverse()
    }

    /// The next value counting down, or nothing once the range is exhausted.
    pub fn next(&mut self) -> (r: Option<N>)
        requires
            old(self).wf(),
        ensures
            final(self).wf(),
            old(self).remaining().len() == 0 ==> r is None && final(self).remaining()
                == old(self).remaining(),
            old(self).remaining().len() > 0 ==> {
                &&& r matches Some(v) && v.as_int() == old(self).remaining()[0]
                &&& final(self).remaining() == old(self).remaining().drop_first()
            },
    {
        if self.0.is_empty() {
            proof {
                assert(self.remaining() =~= old(self).remaining());
            }
            None
        } else {
            let v = self.0.hi;
            proof {
                self.0.lo.properties(self.0.hi);
                self.0.hi.properties(self.0.lo);
            }
            if self.0.lo.less_than(self.0.hi) {
                self.0.hi = self.0.hi.pred();
            } else {
                self.0 = Extent::empty();
            }
            proof {
                assert(self.remaining() =~= old(self).remaining().drop_first());
            }
            Some(v)
        }
    }
}

/// Relies on `core::ops::RangeInclusive::into_inner`: it destructures the
/// range into its `(lower bound, upper bound)` pair.
pub assume_specification<Idx>[ RangeInclusive::<Idx>::into_inner ](
    r: RangeInclusive<Idx>,
) -> (ret: (Idx, Idx))
    ensures
        ret.0 == r@.start,
        ret.1 == r@.end,
;

/// Relies on `core::ops::RangeInclusive::is_empty`: the range contains no
/// items exactly when its bounds are out of order or iteration has already
/// exhausted it.
pub assume_specification<Idx: PartialOrd<Idx>>[ RangeInclusive::<Idx>::is_empty ](
    r: &RangeInclusive<Idx>,
) -> (ret: bool) where Idx: PartialOrd<Idx>
    ensures
        Idx::obeys_partial_cmp_spec() ==> ret == (!(r@.start.partial_cmp_spec(&r@.end) matches Some(
            Ordering::Less
            | Ordering::Equal,
        )) || r@.exhausted),
;

impl<N: Domain> Extent<N> {
    /// What building an extent from a half-open range `[start, end)` yields:
    /// the empty extent when the range denotes no values, else the bounds
    /// with the exclusive end pulled in by one.
    pub closed spec fn spec_from_exclusive(start: N, end: N) -> Self {
        if end.as_int() <= start.as_int() {
            Self::spec_empty()
        } else {
            Extent { lo: start, hi: end.pred_spec() }
        }
    }

    /// What converting an extent to a half-open range `[start, end)` yields:
    /// a degenerate `[0, 0)` for the empty extent, nothing when the high
    /// bound is the domain's maximum (the exclusive end would overflow), and
    /// otherwise the bounds with the end pushed out by one.
    pub closed spec fn spec_to_exclusive(self) -> Option<(N, N)> {
        if self.spec_is_empty() {
            Some((N::zero_spec(), N::zero_spec()))
        } else if self.hi_int() == N::max_spec() {
            None
        } else {
            Some((self.lo, self.hi.succ_spec()))
        }
    }

    /// What building an extent from a closed range `[start, end]` yields:
    /// the bounds as they are when ordered and not already exhausted, the
    /// canonical empty extent otherwise.
    pub closed spec fn spec_from_closed(v: RangeInclusiveView<N>) -> Self {
        if v.exhausted || v.end.as_int() < v.start.as_int() {
            Self::spec_empty()
        } else {
            Extent { lo: v.start, hi: v.end }
        }
    }

    /// What converting an extent to a closed range yields: the raw bound
    /// pair, sentinel included, so the empty extent maps to the degenerate
    /// back-to-front range `1..=0` in the domain's numbering.
    pub closed spec fn spec_to_closed(self) -> RangeInclusiveView<N> {
        RangeInclusiveView { start: self.lo, end: self.hi, exhausted: false }
    }

    /// The extent covering the same values as the half-open range
    /// `[r.start, r.end)`: empty when the range is, otherwise
    /// `{r.start, ..., r.end - 1}`.
    pub fn from_range(r: Range<N>) -> (e: Self)
        ensures
            e == Self::spec_from_exclusive(r.start, r.end),
            e.wf(),
            r.end.as_int() <= r.start.as_int() ==> e.spec_is_empty(),
            r.start.as_int() < r.end.as_int() ==> e.lo_int() == r.start.as_int() && e.hi_int()
                == r.end.as_int() - 1,
    {
        if r.end.at_most(r.start) {
            Self::empty()
        } else {
            proof {
                r.start.properties(r.end);
                r.end.properties(r.start);
            }
            Extent { lo: r.start, hi: r.end.pred() }
        }
    }

    /// The half-open range covering the same values: the empty extent maps
    /// to the degenerate `0..0`, and a non-empty extent to `lo..hi + 1` —
    /// unless the high bound is the domain's maximum value, which no
    /// exclusive end can stand above; that one case fails.
    pub fn to_range(&self) -> (r: Result<Range<N>, &'static str>)
        requires
            self.wf(),
        ensures
            r matches Ok(rg) ==> Some((rg.start, rg.end)) == self.spec_to_exclusive(),
            r is Err <==> self.spec_to_exclusive() is None,
            r is Err <==> !self.spec_is_empty() && self.hi_int() == N::max_spec(),
            self.spec_is_empty() ==> (r matches Ok(rg) && rg.start.as_int() == 0
                && rg.end.as_int() == 0),
            !self.spec_is_empty() && self.hi_int() < N::max_spec() ==> (r matches Ok(rg)
                && rg.start == self.lo_raw() && rg.end.as_int() == self.hi_int() + 1),
    {
        if self.is_empty() {
            proof {
                N::zero_spec().properties(N::zero_spec());
            }
            Ok(Range { start: N::zero(), end: N::zero() })
        } else {
            proof {
                self.hi.properties(self.lo);
            }
            if self.hi.at_most(N::max_value()) && N::max_value().at_most(self.hi) {
                Err("Extent.hi is the domain's maximum, can't represent as an exclusive range")
            } else {
                Ok(Range { start: self.lo, end: self.hi.succ() })
            }
        }
    }

    /// The extent covering the same values as the closed range
    /// `[start, end]`: the bounds are taken as they stand, and a range that
    /// holds no values — bounds out of order, or a range already iterated to
    /// exhaustion — becomes the canonical empty extent.
    pub fn from_range_inclusive(r: RangeInclusive<N>) -> (e: Self)
        ensures
            e == Self::spec_from_closed(r@),
            e.wf(),
            r@.exhausted || r@.end.as_int() < r@.start.as_int() ==> e.spec_is_empty(),
            !r@.exhausted && r@.start.as_int() <= r@.end.as_int() ==> e.lo_int()
                == r@.start.as_int() && e.hi_int() == r@.end.as_int(),
    {
        let no_items = r.is_empty();
        let (start, end) = r.into_inner();
        proof {
            start.properties(end);
            end.properties(start);
        }
        if no_items {
            Self::empty()
        } else {
            Self::new(start, end)
        }
    }

    /// The closed range `lo..=hi` over the raw bound pair: for the empty
    /// extent this is the degenerate back-to-front range `1..=0` in the
    /// domain's numbering, which covers no values but is not a range to
    /// iterate.
    pub fn to_range_inclusive(&self) -> (r: RangeInclusive<N>)
        requires
            self.wf(),
        ensures
            r@ == self.spec_to_closed(),
            r@.start == self.lo_raw(),
            r@.end == self.hi_raw(),
            !r@.exhausted,
    {
        RangeInclusive::new(self.lo, self.hi)
    }
}

/// Round trip through the closed-range representation: converting any extent
/// to a closed range and building an extent back from it reproduces the
/// original exactly, the empty extent included.
pub proof fn lemma_closed_round_trip<N: Domain>(e: Extent<N>)
    requires
        e.wf(),
    ensures
        Extent::spec_from_closed(e.spec_to_closed()) == e,
{
    e.lo_raw().properties(N::one_spec());
    e.hi_raw().properties(N::zero_spec());
}

/// Round trip through the half-open representation: whenever the conversion
/// to an exclusive range succeeds — on the empty extent and on every extent
/// whose high bound is below the domain's maximum — building an extent back
/// from that range reproduces the original exactly; it fails precisely when
/// the high bound is the domain's maximum.
pub proof fn lemma_exclusive_round_trip<N: Domain>(e: Extent<N>)
    requires
        e.wf(),
    ensures
        e.spec_to_exclusive() matches Some(p) ==> Extent::spec_from_exclusive(p.0, p.1) == e,
        e.spec_to_exclusive() is None <==> !e.spec_is_empty() && e.hi_int() == N::max_spec(),
{
    e.lo_raw().properties(e.hi_raw());
    e.hi_raw().properties(e.lo_raw());
    N::zero_spec().properties(N::one_spec());
    e.lo_raw().properties(N::one_spec());
    e.hi_raw().properties(N::zero_spec());
    if !e.spec_is_empty() && e.hi_int() < N::max_spec() {
        e.hi_raw().succ_spec().properties(e.hi_raw());
        e.hi_raw().succ_spec().pred_spec().properties(e.hi_raw());
    }
}

} // verus!
