//! Bit-field extraction on unsigned integers, and a cursor-style helper on
//! slices.

use core::ops::{Range, RangeFrom, RangeFull, RangeInclusive, RangeTo, RangeToInclusive};
use vstd::arithmetic::div_mod::lemma_small_mod;
use vstd::arithmetic::power2::{lemma2_to64, lemma2_to64_rest, pow2};
use vstd::bits::{
    lemma_u64_low_bits_mask_is_mod, lemma_u64_pow2_no_overflow, lemma_u64_shl_is_mul,
    lemma_u64_shr_is_div, low_bits_mask,
};
use vstd::prelude::*;
use vstd::slice::slice_subrange;

verus! {

/// Makes `core::ops::RangeTo`, the range form `..b`, known to the verifier,
/// which reads the type as the standard library defines it: a struct with
/// the one public field `end`. Nothing more is assumed of it.
#[verifier::external_type_specification]
#[verifier::reject_recursive_types(Idx)]
pub struct ExRangeTo<Idx>(RangeTo<Idx>);

/// Makes `core::ops::RangeToInclusive`, the range form `..=b`, known to the
/// verifier, which reads the type as the standard library defines it: a
/// struct with the one public field `end`. Nothing more is assumed of it.
#[verifier::external_type_specification]
#[verifier::reject_recursive_types(Idx)]
pub struct ExRangeToInclusive<Idx>(RangeToInclusive<Idx>);

/// Makes `core::ops::RangeFrom`, the range form `a..`, known to the verifier,
/// which reads the type as the standard library defines it: a struct with
/// the one public field `start`. Nothing more is assumed of it.
#[verifier::external_type_specification]
#[verifier::reject_recursive_types(Idx)]
pub struct ExRangeFrom<Idx>(RangeFrom<Idx>);

/// Makes `core::ops::RangeFull`, the range form `..`, known to the verifier.
/// The type has no fields, and nothing is assumed of it.
#[verifier::external_type_specification]
pub struct ExRangeFull(RangeFull);

/// Taken on trust from the standard library's documentation, not proved:
/// `RangeInclusive::start` returns the lower bound that the range was made
/// with. Of a range that has been iterated to exhaustion the documentation
/// leaves the result open, and so does this contract.
pub assume_specification<Idx>[ RangeInclusive::<Idx>::start ](r: &RangeInclusive<Idx>) -> (ret:
    &Idx)
    ensures
        !r@.exhausted ==> *ret == r@.start,
;

/// Taken on trust from the standard library's documentation, not proved:
/// `RangeInclusive::end` returns the upper bound that the range was made
/// with. Of a range that has been iterated to exhaustion the documentation
/// leaves the result open, and so does this contract.
pub assume_specification<Idx>[ RangeInclusive::<Idx>::end ](r: &RangeInclusive<Idx>) -> (ret: &Idx)
    ensures
        !r@.exhausted ==> *ret == r@.end,
;

/// The `n` lowest bits set, for `n` up to 64.
pub open spec fn low_mask(n: nat) -> u64 {
    if n >= 64 {
        u64::MAX
    } else {
        ((1u64 << n) - 1) as u64
    }
}

/// The bits of `value` at positions `low <= p < high`, moved down to
/// position 0; position 0 is the least significant bit.
pub open spec fn bit_field(value: u64, low: nat, high: nat) -> u64 {
    (value >> low) & low_mask((high - low) as nat)
}

/// Shifting the top `t` bits out and back in keeps exactly the bits below
/// position `64 - t`.
proof fn lemma_clear_top(b: u64, t: u64)
    by (bit_vector)
    requires
        t < 64,
    ensures
        (b << t) >> t == b & (u64::MAX >> t),
{
}

/// Shifting the lowest `l` bits out and back in, then moving down by `l`,
/// is the same as moving down by `l` at once.
proof fn lemma_clear_bottom(v: u64, l: u64)
    by (bit_vector)
    requires
        l < 64,
    ensures
        ((v >> l) << l) >> l == v >> l,
{
}

/// A mask applied before a right shift is the shifted mask applied after it.
proof fn lemma_shift_mask(b: u64, m: u64, l: u64)
    by (bit_vector)
    requires
        l < 64,
    ensures
        (b & m) >> l == (b >> l) & (m >> l),
{
}

/// Two right shifts of the all-ones word add up.
proof fn lemma_ones_shift(t: u64, l: u64)
    by (bit_vector)
    requires
        t + l < 64,
    ensures
        (u64::MAX >> t) >> l == u64::MAX >> ((t + l) as u64),
{
}

/// The all-ones word moved down by `64 - n` has exactly the `n` lowest bits set.
proof fn lemma_ones_is_mask(n: u64)
    by (bit_vector)
    requires
        0 < n < 64,
    ensures
        u64::MAX >> ((64 - n) as u64) == ((1u64 << n) - 1) as u64,
{
}

/// Clears the bits of `value` outside `[low, high)` and moves the rest down
/// by `low`: first the bits below `low` are shifted out and back, then the
/// bits from `high` up are shifted out at the top and back, then the field
/// is moved down.
pub fn extract_bits(value: u64, low: usize, high: usize) -> (r: u64)
    requires
        low <= high <= 64,
    ensures
        r == bit_field(value, low as nat, high as nat),
        r <= value,
{
    if low == high {
        assert(bit_field(value, low as nat, high as nat) == 0) by {
            let shifted = value >> low;
            assert(shifted & ((1u64 << 0u64) - 1) as u64 == 0) by (bit_vector);
        }
        return 0;
    }
    let top: usize = 64 - high;
    let kept = (value >> low) << low;
    let r = ((kept << top) >> top) >> low;
    proof {
        let l = low as u64;
        let t = top as u64;
        let n = (high - low) as u64;
        let a = value >> l;
        lemma_clear_top(kept, t);
        lemma_shift_mask(kept, u64::MAX >> t, l);
        lemma_clear_bottom(value, l);
        lemma_ones_shift(t, l);
        assert(r == a & (u64::MAX >> ((t + l) as u64)));
        if n < 64 {
            lemma_ones_is_mask(n);
        } else {
            assert(u64::MAX >> 0u64 == u64::MAX) by (bit_vector);
        }
        assert(a & low_mask(n as nat) <= value) by (bit_vector)
            requires
                a == value >> l,
        ;
    }
    r
}

/// In numbers, the field is the value divided by two to the power of
/// `low`, taken modulo two to the power of the field's width.
pub proof fn lemma_bit_field_is_div_mod(value: u64, low: nat, high: nat)
    requires
        low <= high <= 64,
    ensures
        bit_field(value, low, high) == (value as nat / pow2(low)) % pow2((high - low) as nat),
{
    let n = (high - low) as nat;
    let moved = value >> low;
    lemma2_to64();
    lemma2_to64_rest();
    if low == 64 {
        assert(moved & (((1u64 << 0u64) - 1) as u64) == 0) by (bit_vector);
    } else {
        lemma_u64_shr_is_div(value, low as u64);
        if n == 64 {
            assert(moved & u64::MAX == moved) by (bit_vector);
            lemma_small_mod(moved as nat, pow2(64));
        } else {
            lemma_u64_pow2_no_overflow(n);
            lemma_u64_shl_is_mul(1, n as u64);
            assert(low_mask(n) == low_bits_mask(n) as u64);
            lemma_u64_low_bits_mask_is_mod(moved, n);
        }
    }
}

/// An unsigned machine integer of at most 64 bits, seen as a 64-bit value.
pub trait UnsignedInteger: Copy + Sized {
    /// The number of bits of the type.
    spec fn width() -> nat;

    /// The number that `self` holds.
    spec fn value(self) -> u64;

    /// The largest number that the type holds.
    spec fn largest() -> u64;

    /// The width is between 1 and 64, and no value exceeds the largest one.
    proof fn lemma_in_range(self)
        ensures
            0 < Self::width() <= 64,
            self.value() <= Self::largest(),
    ;

    /// The number of bits of the type.
    fn bit_width() -> (w: usize)
        ensures
            w == Self::width(),
    ;

    /// `self`, zero-extended to 64 bits.
    fn to_u64(self) -> (v: u64)
        ensures
            v == self.value(),
    ;

    /// The value of the type that holds `v`.
    fn from_u64(v: u64) -> (r: Self)
        requires
            v <= Self::largest(),
        ensures
            r.value() == v,
    ;
}

impl UnsignedInteger for u8 {
    open spec fn width() -> nat {
        8
    }

    open spec fn value(self) -> u64 {
        self as u64
    }

    open spec fn largest() -> u64 {
        u8::MAX as u64
    }

    proof fn lemma_in_range(self) {
    }

    fn bit_width() -> (w: usize) {
        8
    }

    fn to_u64(self) -> (v: u64) {
        self as u64
    }

    fn from_u64(v: u64) -> (r: Self) {
        v as u8
    }
}

impl UnsignedInteger for u16 {
    open spec fn width() -> nat {
        16
    }

    open spec fn value(self) -> u64 {
        self as u64
    }

    open spec fn largest() -> u64 {
        u16::MAX as u64
    }

    proof fn lemma_in_range(self) {
    }

    fn bit_width() -> (w: usize) {
        16
    }

    fn to_u64(self) -> (v: u64) {
        self as u64
    }

    fn from_u64(v: u64) -> (r: Self) {
        v as u16
    }
}

impl UnsignedInteger for u32 {
    open spec fn width() -> nat {
        32
    }

    open spec fn value(self) -> u64 {
        self as u64
    }

    open spec fn largest() -> u64 {
        u32::MAX as u64
    }

    proof fn lemma_in_range(self) {
    }

    fn bit_width() -> (w: usize) {
        32
    }

    fn to_u64(self) -> (v: u64) {
        self as u64
    }

    fn from_u64(v: u64) -> (r: Self) {
        v as u32
    }
}

impl UnsignedInteger for u64 {
    open spec fn width() -> nat {
        64
    }

    open spec fn value(self) -> u64 {
        self
    }

    open spec fn largest() -> u64 {
        u64::MAX
    }

    proof fn lemma_in_range(self) {
    }

    fn bit_width() -> (w: usize) {
        64
    }

    fn to_u64(self) -> (v: u64) {
        self
    }

    fn from_u64(v: u64) -> (r: Self) {
        v
    }
}

impl UnsignedInteger for usize {
    open spec fn width() -> nat {
        usize::BITS as nat
    }

    open spec fn value(self) -> u64 {
        self as u64
    }

    open spec fn largest() -> u64 {
        usize::MAX as u64
    }

    proof fn lemma_in_range(self) {
    }

    fn bit_width() -> (w: usize) {
        usize::BITS as usize
    }

    fn to_u64(self) -> (v: u64) {
        self as u64
    }

    fn from_u64(v: u64) -> (r: Self) {
        v as usize
    }
}

/// A span of bit positions, written as one of the range forms: `a..b`,
/// `a..=b`, `..b`, `..=b`, `a..` or `..`.
///
/// Inside an integer of `width` bits the span resolves to the half-open
/// interval `[low, high)`.
pub trait BitSpan {
    /// The first position of the span; an open start is position 0.
    spec fn low(&self, width: nat) -> nat;

    /// The position after the last one of the span; an open end is `width`,
    /// an inclusive end `h` is `h + 1`.
    spec fn high(&self, width: nat) -> nat;

    /// Whether the span is in order and lies inside an integer of `width`
    /// bits.
    spec fn fits(&self, width: nat) -> bool;

    /// A span that fits is in order and ends at or below `width`.
    proof fn lemma_fits(&self, width: nat)
        requires
            self.fits(width),
        ensures
            self.low(width) <= self.high(width) <= width,
    ;

    /// The two ends of the span as a half-open interval.
    fn resolve(&self, width: usize) -> (r: (usize, usize))
        requires
            self.fits(width as nat),
        ensures
            r.0 == self.low(width as nat),
            r.1 == self.high(width as nat),
    ;
}

impl BitSpan for Range<usize> {
    open spec fn low(&self, width: nat) -> nat {
        self.start as nat
    }

    open spec fn high(&self, width: nat) -> nat {
        self.end as nat
    }

    open spec fn fits(&self, width: nat) -> bool {
        self.start <= self.end <= width
    }

    proof fn lemma_fits(&self, width: nat) {
    }

    fn resolve(&self, width: usize) -> (r: (usize, usize)) {
        (self.start, self.end)
    }
}

impl BitSpan for RangeInclusive<usize> {
    open spec fn low(&self, width: nat) -> nat {
        self@.start as nat
    }

    open spec fn high(&self, width: nat) -> nat {
        (self@.end + 1) as nat
    }

    open spec fn fits(&self, width: nat) -> bool {
        !self@.exhausted && self@.start <= self@.end < width
    }

    proof fn lemma_fits(&self, width: nat) {
    }

    fn resolve(&self, width: usize) -> (r: (usize, usize)) {
        (*self.start(), *self.end() + 1)
    }
}

impl BitSpan for RangeTo<usize> {
    open spec fn low(&self, width: nat) -> nat {
        0
    }

    open spec fn high(&self, width: nat) -> nat {
        self.end as nat
    }

    open spec fn fits(&self, width: nat) -> bool {
        self.end <= width
    }

    proof fn lemma_fits(&self, width: nat) {
    }

    fn resolve(&self, width: usize) -> (r: (usize, usize)) {
        (0, self.end)
    }
}

impl BitSpan for RangeToInclusive<usize> {
    open spec fn low(&self, width: nat) -> nat {
        0
    }

    open spec fn high(&self, width: nat) -> nat {
        (self.end + 1) as nat
    }

    open spec fn fits(&self, width: nat) -> bool {
        self.end < width
    }

    proof fn lemma_fits(&self, width: nat) {
    }

    fn resolve(&self, width: usize) -> (r: (usize, usize)) {
        (0, self.end + 1)
    }
}

impl BitSpan for RangeFrom<usize> {
    open spec fn low(&self, width: nat) -> nat {
        self.start as nat
    }

    open spec fn high(&self, width: nat) -> nat {
        width
    }

    open spec fn fits(&self, width: nat) -> bool {
        self.start <= width
    }

    proof fn lemma_fits(&self, width: nat) {
    }

    fn resolve(&self, width: usize) -> (r: (usize, usize)) {
        (self.start, width)
    }
}

impl BitSpan for RangeFull {
    open spec fn low(&self, width: nat) -> nat {
        0
    }

    open spec fn high(&self, width: nat) -> nat {
        width
    }

    open spec fn fits(&self, width: nat) -> bool {
        true
    }

    proof fn lemma_fits(&self, width: nat) {
    }

    fn resolve(&self, width: usize) -> (r: (usize, usize)) {
        (0, width)
    }
}

/// Gives every unsigned integer type the method `bit_range`.
pub trait UIntBitsRng: UnsignedInteger {
    /// The bits of `self` inside `range`, moved down to position 0, with all
    /// other bits cleared.
    fn bit_range<R: BitSpan>(self, range: R) -> (r: Self)
        requires
            range.fits(Self::width()),
        ensures
            r.value() == bit_field(
                self.value(),
                range.low(Self::width()),
                range.high(Self::width()),
            ),
    {
        let width = Self::bit_width();
        proof {
            self.lemma_in_range();
            range.lemma_fits(width as nat);
        }
        let (low, high) = range.resolve(width);
        Self::from_u64(extract_bits(self.to_u64(), low, high))
    }
}

impl UIntBitsRng for u8 {
}

impl UIntBitsRng for u16 {
}

impl UIntBitsRng for u32 {
}

impl UIntBitsRng for u64 {
}

impl UIntBitsRng for usize {
}

/// Moves the front of a borrowed slice forward.
pub trait SliceExt {
    /// The type of the slice's elements.
    type Item;

    /// The elements that the slice holds.
    spec fn items(&self) -> Seq<Self::Item>;

    /// Drops the first `n` elements from the view; the elements themselves
    /// are neither copied nor changed.
    fn advance(&mut self, n: usize)
        requires
            n <= old(self).items().len(),
        ensures
            final(self).items() == old(self).items().skip(n as int),
    ;
}

impl<'a, T> SliceExt for &'a [T] {
    type Item = T;

    open spec fn items(&self) -> Seq<T> {
        self@
    }

    fn advance(&mut self, n: usize) {
        let whole: &'a [T] = *self;
        *self = slice_subrange(whole, n, whole.len());
    }
}

impl<'a, T> SliceExt for &'a mut [T] {
    type Item = T;

    open spec fn items(&self) -> Seq<T> {
        self@
    }

    fn advance(&mut self, n: usize) {
        let mut whole: &'a mut [T] = &mut [];
        core::mem::swap(self, &mut whole);
        let (_, rest) = whole.split_at_mut(n);
        *self = rest;
    }
}

} // verus!
