//! Lengths, coordinates and colours in image space.
use vstd::prelude::*;

verus! {

/// A length or coordinate in image pixels: an IEEE 754 single-precision
/// number, held by its bit pattern. The library stores, copies and compares
/// such numbers; it does not calculate with them.
#[derive(Debug, Clone, Copy, PartialEq, Eq, Structural)]
pub struct Px {
    pub bits: u32,
}

impl Px {
    /// Not a number: the exponent is all ones and the fraction is not zero.
    pub open spec fn is_nan(self) -> bool {
        self.magnitude() > 0x7f80_0000
    }

    /// The pattern without its sign.
    pub open spec fn magnitude(self) -> int {
        if self.bits >= 0x8000_0000 {
            self.bits - 0x8000_0000
        } else {
            self.bits as int
        }
    }

    /// An integer that orders numbers as their values do; the two zeros have
    /// the same rank.
    pub open spec fn rank(self) -> int {
        if self.bits >= 0x8000_0000 {
            -self.magnitude()
        } else {
            self.magnitude()
        }
    }

    /// `self <= other` as numbers: false when either is not a number.
    pub open spec fn at_most(self, other: Px) -> bool {
        !self.is_nan() && !other.is_nan() && self.rank() <= other.rank()
    }

    /// The smaller of two numbers; the other one if one is not a number.
    pub open spec fn smaller(self, other: Px) -> Px {
        if self.is_nan() || other.at_most(self) {
            other
        } else {
            self
        }
    }

    /// The larger of two numbers; the other one if one is not a number.
    pub open spec fn larger(self, other: Px) -> Px {
        if self.is_nan() || self.at_most(other) {
            other
        } else {
            self
        }
    }

    /// The number kept within two bounds; not a number stays as it is.
    pub open spec fn within(self, low: Px, high: Px) -> Px {
        if self.is_nan() {
            self
        } else if self.rank() < low.rank() {
            low
        } else if self.rank() > high.rank() {
            high
        } else {
            self
        }
    }

    fn ranked(self) -> (r: i64)
        ensures
            r == self.rank(),
            -0x7fff_ffff <= r <= 0x7fff_ffff,
    {
        if self.bits >= 0x8000_0000 {
            -((self.bits - 0x8000_0000) as i64)
        } else {
            self.bits as i64
        }
    }

    fn nan(self) -> (r: bool)
        ensures
            r == self.is_nan(),
    {
        let m: u32 = if self.bits >= 0x8000_0000 {
            self.bits - 0x8000_0000
        } else {
            self.bits
        };
        m > 0x7f80_0000
    }

    /// Whether `self <= other` as numbers.
    pub fn le(self, other: Px) -> (r: bool)
        ensures
            r == self.at_most(other),
    {
        !self.nan() && !other.nan() && self.ranked() <= other.ranked()
    }

    /// The smaller of two numbers.
    pub fn min(self, other: Px) -> (r: Px)
        ensures
            r == self.smaller(other),
    {
        if self.nan() || other.le(self) {
            other
        } else {
            self
        }
    }

    /// The larger of two numbers.
    pub fn max(self, other: Px) -> (r: Px)
        ensures
            r == self.larger(other),
    {
        if self.nan() || self.le(other) {
            other
        } else {
            self
        }
    }

    /// The number kept within `low` and `high`.
    pub fn clamp(self, low: Px, high: Px) -> (r: Px)
        requires
            low.at_most(high),
        ensures
            r == self.within(low, high),
    {
        if self.nan() {
            self
        } else if self.ranked() < low.ranked() {
            low
        } else if self.ranked() > high.ranked() {
            high
        } else {
            self
        }
    }
}

// The patterns of the numbers that occur as limits and defaults.

/// The single-precision pattern of 0.
pub const BITS_0: u32 = 0x0000_0000;

/// The single-precision pattern of one half.
pub const BITS_HALF: u32 = 0x3f00_0000;

/// The single-precision pattern of 1.
pub const BITS_1: u32 = 0x3f80_0000;

/// The single-precision pattern of 1.5.
pub const BITS_1_5: u32 = 0x3fc0_0000;

/// The single-precision pattern of 2.
pub const BITS_2: u32 = 0x4000_0000;

/// The single-precision pattern of 3.
pub const BITS_3: u32 = 0x4040_0000;

/// The single-precision pattern of 4.
pub const BITS_4: u32 = 0x4080_0000;

/// The single-precision pattern of 6.
pub const BITS_6: u32 = 0x40c0_0000;

/// The single-precision pattern of 8.
pub const BITS_8: u32 = 0x4100_0000;

/// The single-precision pattern of 10.
pub const BITS_10: u32 = 0x4120_0000;

/// The single-precision pattern of 12.
pub const BITS_12: u32 = 0x4140_0000;

/// The single-precision pattern of 14.
pub const BITS_14: u32 = 0x4160_0000;

/// The single-precision pattern of 16.
pub const BITS_16: u32 = 0x4180_0000;

/// The single-precision pattern of 18.
pub const BITS_18: u32 = 0x4190_0000;

/// The single-precision pattern of 20.
pub const BITS_20: u32 = 0x41a0_0000;

/// The single-precision pattern of 22.
pub const BITS_22: u32 = 0x41b0_0000;

/// The single-precision pattern of 24.
pub const BITS_24: u32 = 0x41c0_0000;

/// The single-precision pattern of 28.
pub const BITS_28: u32 = 0x41e0_0000;

/// The single-precision pattern of 32.
pub const BITS_32: u32 = 0x4200_0000;

/// The single-precision pattern of 40.
pub const BITS_40: u32 = 0x4220_0000;

/// The single-precision pattern of 60.
pub const BITS_60: u32 = 0x4270_0000;

/// The single-precision pattern of 64.
pub const BITS_64: u32 = 0x4280_0000;

/// The single-precision pattern of 80.
pub const BITS_80: u32 = 0x42a0_0000;

/// The single-precision pattern of 120.
pub const BITS_120: u32 = 0x42f0_0000;

/// The single-precision pattern of 128.
pub const BITS_128: u32 = 0x4300_0000;

/// The single-precision pattern of 200.
pub const BITS_200: u32 = 0x4348_0000;

/// The single-precision pattern of -20.
pub const BITS_MINUS_20: u32 = 0xc1a0_0000;

/// A point in image space.
#[derive(Debug, Clone, Copy, PartialEq, Eq, Structural)]
pub struct Point {
    pub x: Px,
    pub y: Px,
}

/// An axis-aligned box in image space.
#[derive(Debug, Clone, Copy, PartialEq, Eq, Structural)]
pub struct Bounds {
    pub min_x: Px,
    pub min_y: Px,
    pub max_x: Px,
    pub max_y: Px,
}

impl Bounds {
    /// The box with its corners put in order.
    pub open spec fn ordered(self) -> Bounds {
        Bounds {
            min_x: self.min_x.smaller(self.max_x),
            min_y: self.min_y.smaller(self.max_y),
            max_x: self.min_x.larger(self.max_x),
            max_y: self.min_y.larger(self.max_y),
        }
    }

    /// Whether a point lies inside the box or on its edge.
    pub open spec fn holds(self, p: Point) -> bool {
        &&& self.min_x.at_most(p.x)
        &&& p.x.at_most(self.max_x)
        &&& self.min_y.at_most(p.y)
        &&& p.y.at_most(self.max_y)
    }

    /// The box between two points.
    pub open spec fn spanned(a: Point, b: Point) -> Bounds {
        (Bounds { min_x: a.x, min_y: a.y, max_x: b.x, max_y: b.y }).ordered()
    }

    /// Puts the corners in order.
    pub fn normalise(self) -> (r: Bounds)
        ensures
            r == self.ordered(),
    {
        Bounds {
            min_x: self.min_x.min(self.max_x),
            min_y: self.min_y.min(self.max_y),
            max_x: self.min_x.max(self.max_x),
            max_y: self.min_y.max(self.max_y),
        }
    }

    /// Whether a point lies inside the box or on its edge.
    pub fn contains(self, p: Point) -> (r: bool)
        ensures
            r == self.holds(p),
    {
        self.min_x.le(p.x) && p.x.le(self.max_x) && self.min_y.le(p.y) && p.y.le(self.max_y)
    }

    /// The box between two points.
    pub fn between(a: Point, b: Point) -> (r: Bounds)
        ensures
            r == Bounds::spanned(a, b),
    {
        (Bounds { min_x: a.x, min_y: a.y, max_x: b.x, max_y: b.y }).normalise()
    }
}

/// An sRGB colour with alpha.
#[derive(Debug, Clone, Copy, PartialEq, Eq, Structural)]
pub struct Rgba {
    pub r: u8,
    pub g: u8,
    pub b: u8,
    pub a: u8,
}

impl Rgba {
    pub fn new(r: u8, g: u8, b: u8, a: u8) -> (c: Self)
        ensures
            c == (Rgba { r, g, b, a }),
    {
        Rgba { r, g, b, a }
    }
}

// ---------------------------------------------------------------------------
// Laws
// ---------------------------------------------------------------------------

/// A box of numbers put in order has its minimum corner at most its maximum
/// corner, and putting it in order again changes nothing.
pub proof fn law_normalise(b: Bounds)
    requires
        !b.min_x.is_nan(),
        !b.min_y.is_nan(),
        !b.max_x.is_nan(),
        !b.max_y.is_nan(),
    ensures
        b.ordered().min_x.at_most(b.ordered().max_x),
        b.ordered().min_y.at_most(b.ordered().max_y),
        b.ordered().min_x.rank() == b.ordered().ordered().min_x.rank(),
        b.ordered().min_y.rank() == b.ordered().ordered().min_y.rank(),
        b.ordered().max_x.rank() == b.ordered().ordered().max_x.rank(),
        b.ordered().max_y.rank() == b.ordered().ordered().max_y.rank(),
{
}

/// Both ends of a drag lie in the box between them.
pub proof fn law_drag_box_holds_its_ends(a: Point, b: Point)
    requires
        !a.x.is_nan(),
        !a.y.is_nan(),
        !b.x.is_nan(),
        !b.y.is_nan(),
    ensures
        Bounds::spanned(a, b).holds(a),
        Bounds::spanned(a, b).holds(b),
{
}

/// A number kept within bounds lies between them, and a number between them is
/// kept.
pub proof fn law_clamp(v: Px, low: Px, high: Px)
    requires
        low.at_most(high),
        !v.is_nan(),
    ensures
        low.at_most(v.within(low, high)),
        v.within(low, high).at_most(high),
        low.at_most(v) && v.at_most(high) ==> v.within(low, high) == v,
{
}

/// The value of a number that is not infinite, times two to the power 149:
/// the fraction, with the leading one that all but the smallest numbers leave
/// out, moved up by the exponent.
pub open spec fn scaled_value(p: Px) -> int {
    let exponent = p.magnitude() / 0x80_0000;
    let fraction = p.magnitude() % 0x80_0000;
    let size = if exponent == 0 {
        fraction
    } else {
        (0x80_0000 + fraction) * vstd::arithmetic::power2::pow2((exponent - 1) as nat)
    };
    if p.bits / 0x8000_0000 == 1 {
        -size
    } else {
        size
    }
}

proof fn lemma_scaled_grows(a: int, b: int)
    requires
        0 <= a < b <= 0x7f80_0000,
    ensures
        scaled_value(Px { bits: a as u32 }) < scaled_value(Px { bits: b as u32 }),
        0 <= scaled_value(Px { bits: a as u32 }),
{
    let ea = a / 0x80_0000;
    let eb = b / 0x80_0000;
    let fa = a % 0x80_0000;
    let fb = b % 0x80_0000;
    let pa = vstd::arithmetic::power2::pow2((ea - 1) as nat) as int;
    let pb = vstd::arithmetic::power2::pow2((eb - 1) as nat) as int;
    if ea > 0 {
        vstd::arithmetic::power2::lemma_pow2_pos((ea - 1) as nat);
        assert(0 <= (0x80_0000 + fa) * pa) by (nonlinear_arith)
            requires
                pa > 0,
                fa >= 0,
        ;
    }
    if eb > 0 {
        vstd::arithmetic::power2::lemma_pow2_pos((eb - 1) as nat);
        assert((0x80_0000 + fb) * pb >= 0x80_0000) by (nonlinear_arith)
            requires
                pb > 0,
                fb >= 0,
        ;
    }
    if ea == eb {
        if ea > 0 {
            assert((0x80_0000 + fa) * pa < (0x80_0000 + fb) * pa) by (nonlinear_arith)
                requires
                    pa > 0,
                    fa < fb,
            ;
        }
    } else if ea > 0 {
        if ea + 1 < eb {
            vstd::arithmetic::power2::lemma_pow2_strictly_increases(ea as nat, (eb - 1) as nat);
        }
        vstd::arithmetic::power2::lemma_pow2_unfold(ea as nat);
        assert(pb >= 2 * pa);
        assert((0x80_0000 + fa) * pa < (0x80_0000 + fb) * pb) by (nonlinear_arith)
            requires
                pa > 0,
                0 <= fa < 0x80_0000,
                fb >= 0,
                pb >= 2 * pa,
        ;
    }
}

/// Numbers are compared by their values: of two that are not infinite one is
/// at most the other exactly if its value is, and every number lies between
/// the two infinities. The two zeros count as equal.
pub proof fn law_numbers_are_compared_by_value(a: Px, b: Px)
    requires
        !a.is_nan(),
        !b.is_nan(),
    ensures
        a.magnitude() < 0x7f80_0000 && b.magnitude() < 0x7f80_0000 ==> (a.at_most(b)
            <==> scaled_value(a) <= scaled_value(b)),
        a.at_most(Px { bits: 0x7f80_0000 }),
        (Px { bits: 0xff80_0000 }).at_most(a),
{
    if a.magnitude() < b.magnitude() {
        lemma_scaled_grows(a.magnitude(), b.magnitude());
    }
    if b.magnitude() < a.magnitude() {
        lemma_scaled_grows(b.magnitude(), a.magnitude());
    }
    if a.magnitude() > 0 {
        lemma_scaled_grows(0, a.magnitude());
    }
    if b.magnitude() > 0 {
        lemma_scaled_grows(0, b.magnitude());
    }
    let ma = Px { bits: a.magnitude() as u32 };
    let mb = Px { bits: b.magnitude() as u32 };
    assert(scaled_value(a) == scaled_value(ma) || scaled_value(a) == -scaled_value(ma));
    assert(scaled_value(b) == scaled_value(mb) || scaled_value(b) == -scaled_value(mb));
    assert(a.bits >= 0x8000_0000 ==> a.bits / 0x8000_0000 == 1);
    assert(b.bits >= 0x8000_0000 ==> b.bits / 0x8000_0000 == 1);
    assert(scaled_value(Px { bits: 0 }) == 0);
}

/// The smaller and the larger of two numbers are the two numbers, the smaller
/// one at most the larger one. Where one is not a number, the other is both.
pub proof fn law_smaller_and_larger(a: Px, b: Px)
    ensures
        !a.is_nan() && !b.is_nan() ==> (a.smaller(b) == a && a.larger(b) == b) || (a.smaller(b) == b
            && a.larger(b) == a) || (a.rank() == b.rank() && a.smaller(b).rank() == a.rank()
            && a.larger(b).rank() == a.rank()),
        !a.is_nan() && !b.is_nan() ==> a.smaller(b).at_most(a) && a.smaller(b).at_most(b),
        !a.is_nan() && !b.is_nan() ==> a.at_most(a.larger(b)) && b.at_most(a.larger(b)),
        a.is_nan() ==> a.smaller(b) == b && a.larger(b) == b,
        !a.is_nan() && b.is_nan() ==> a.smaller(b) == a && a.larger(b) == a,
{
}

/// A number outside two bounds becomes the bound that it passed, and what is
/// not a number stays as it is.
pub proof fn law_clamped_to_the_nearer_bound(v: Px, low: Px, high: Px)
    requires
        low.at_most(high),
    ensures
        !v.is_nan() && !low.at_most(v) ==> v.within(low, high) == low,
        !v.is_nan() && !v.at_most(high) ==> v.within(low, high) == high,
        v.is_nan() ==> v.within(low, high) == v,
{
}

/// A box holds its four corners. It holds no point beyond one of its sides,
/// and with two points it holds every point between them.
pub proof fn law_box_holds_what_lies_between(b: Bounds, p: Point, q: Point, between: Point)
    requires
        b.min_x.at_most(b.max_x),
        b.min_y.at_most(b.max_y),
    ensures
        b.holds(Point { x: b.min_x, y: b.min_y }),
        b.holds(Point { x: b.max_x, y: b.min_y }),
        b.holds(Point { x: b.min_x, y: b.max_y }),
        b.holds(Point { x: b.max_x, y: b.max_y }),
        !b.min_x.at_most(p.x) || !p.x.at_most(b.max_x) ==> !b.holds(p),
        !b.min_y.at_most(p.y) || !p.y.at_most(b.max_y) ==> !b.holds(p),
        b.holds(p) && b.holds(q) && p.x.at_most(between.x) && between.x.at_most(q.x) && p.y.at_most(
            between.y,
        ) && between.y.at_most(q.y) ==> b.holds(between),
{
}

/// The box between two points has one of the two coordinates at each side, and
/// does not depend on which of the two comes first.
pub proof fn law_drag_box_is_tight(a: Point, b: Point)
    requires
        !a.x.is_nan(),
        !a.y.is_nan(),
        !b.x.is_nan(),
        !b.y.is_nan(),
    ensures
        ({
            let s = Bounds::spanned(a, b);
            let t = Bounds::spanned(b, a);
            &&& s.min_x == a.x || s.min_x == b.x
            &&& s.max_x == a.x || s.max_x == b.x
            &&& s.min_y == a.y || s.min_y == b.y
            &&& s.max_y == a.y || s.max_y == b.y
            &&& s.min_x.rank() == t.min_x.rank() && s.max_x.rank() == t.max_x.rank()
            &&& s.min_y.rank() == t.min_y.rank() && s.max_y.rank() == t.max_y.rank()
            &&& s.min_x.at_most(s.max_x) && s.min_y.at_most(s.max_y)
        }),
{
}

/// Whether a pattern is that of `halves / 2`, a number from `2^top` up to twice
/// that: the exponent counts from 127, and the fraction is what the number
/// exceeds `2^top` by.
pub open spec fn is_pattern_of(bits: u32, halves: int, top: int, unit: int) -> bool {
    &&& unit <= halves < 2 * unit
    &&& bits / 0x80_0000 == 127 + top
    &&& (bits % 0x80_0000) * unit == (halves - unit) * 0x80_0000
}

/// Each named pattern is that of the number in its name.
pub proof fn law_named_patterns()
    ensures
        BITS_0 == 0,
        is_pattern_of(BITS_HALF, 1, -1, 1),
        is_pattern_of(BITS_1, 2, 0, 2),
        is_pattern_of(BITS_1_5, 3, 0, 2),
        is_pattern_of(BITS_2, 4, 1, 4),
        is_pattern_of(BITS_3, 6, 1, 4),
        is_pattern_of(BITS_4, 8, 2, 8),
        is_pattern_of(BITS_6, 12, 2, 8),
        is_pattern_of(BITS_8, 16, 3, 16),
        is_pattern_of(BITS_10, 20, 3, 16),
        is_pattern_of(BITS_12, 24, 3, 16),
        is_pattern_of(BITS_14, 28, 3, 16),
        is_pattern_of(BITS_16, 32, 4, 32),
        is_pattern_of(BITS_18, 36, 4, 32),
        is_pattern_of(BITS_20, 40, 4, 32),
        is_pattern_of(BITS_22, 44, 4, 32),
        is_pattern_of(BITS_24, 48, 4, 32),
        is_pattern_of(BITS_28, 56, 4, 32),
        is_pattern_of(BITS_32, 64, 5, 64),
        is_pattern_of(BITS_40, 80, 5, 64),
        is_pattern_of(BITS_60, 120, 5, 64),
        is_pattern_of(BITS_64, 128, 6, 128),
        is_pattern_of(BITS_80, 160, 6, 128),
        is_pattern_of(BITS_120, 240, 6, 128),
        is_pattern_of(BITS_128, 256, 7, 256),
        is_pattern_of(BITS_200, 400, 7, 256),
        BITS_MINUS_20 == 0x8000_0000 + BITS_20,
{
}

} // verus!
