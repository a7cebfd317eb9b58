//! Screen coordinates.
//!
//! A coordinate is a double-precision binary floating-point number (IEEE 754
//! binary64), held as its bit pattern. The patterns can be compared, bounded and
//! made from integers here; adding and scaling is done where the numbers are
//! available as such.

use vstd::arithmetic::power2::{
    lemma2_to64, lemma2_to64_rest, lemma_pow2_pos, lemma_pow2_unfold, pow2,
};
use vstd::prelude::*;

verus! {

/// The sign bit of a pattern.
pub const SIGN_BIT: u64 = 0x8000_0000_0000_0000;

/// The pattern of positive infinity. Larger magnitudes are not numbers.
pub const INFINITY_BITS: u64 = 0x7FF0_0000_0000_0000;

/// The weight of the lowest exponent bit, and of the implicit leading bit of a
/// significand.
pub const LEADING_BIT: u64 = 0x0010_0000_0000_0000;

/// A coordinate, as the bit pattern of a double-precision number.
#[derive(Debug, Clone, Copy)]
pub struct Coord {
    /// The bit pattern.
    pub bits: u64,
}

impl Coord {
    /// The pattern read as sign and magnitude. Among numbers, a larger
    /// coordinate has a larger rank, and both zeros have rank 0.
    pub open spec fn rank(self) -> int {
        if self.bits < SIGN_BIT {
            self.bits as int
        } else {
            SIGN_BIT - self.bits
        }
    }

    /// Whether the pattern stands for no number.
    pub open spec fn nan(self) -> bool {
        self.rank() > INFINITY_BITS || self.rank() < -INFINITY_BITS
    }

    /// Whether this is a number below another number.
    pub open spec fn below(self, other: Coord) -> bool {
        !self.nan() && !other.nan() && self.rank() < other.rank()
    }

    /// Whether this is a number below or equal to another number.
    pub open spec fn at_most(self, other: Coord) -> bool {
        !self.nan() && !other.nan() && self.rank() <= other.rank()
    }

    /// The smaller of two coordinates; the other one, where one is no number.
    pub open spec fn smaller(self, other: Coord) -> Coord {
        if self.nan() || other.below(self) {
            other
        } else {
            self
        }
    }

    /// The larger of two coordinates; the other one, where one is no number.
    pub open spec fn larger(self, other: Coord) -> Coord {
        if self.nan() || self.below(other) {
            other
        } else {
            self
        }
    }

    /// The coordinate, moved into the range from `low` to `high`.
    pub open spec fn within(self, low: Coord, high: Coord) -> Coord {
        if self.below(low) {
            low
        } else if high.below(self) {
            high
        } else {
            self
        }
    }

    /// Whether the coordinate is the positive integer `n`: with `shift` places,
    /// `n` fills the significand, and the exponent undoes the shift.
    pub open spec fn positive_integer(self, n: int, shift: nat) -> bool {
        &&& shift <= 52
        &&& LEADING_BIT <= n * pow2(shift) < 2 * LEADING_BIT
        &&& self.bits == (1074 - shift) * LEADING_BIT + n * pow2(shift)
    }

    /// Whether the coordinate is the integer `n`.
    pub open spec fn integer(self, n: int) -> bool {
        if n == 0 {
            self.bits == 0
        } else if n > 0 {
            exists|shift: nat| #[trigger] self.positive_integer(n, shift)
        } else {
            self.bits >= SIGN_BIT && exists|shift: nat| #[trigger]
                (Coord { bits: (self.bits - SIGN_BIT) as u64 }).positive_integer(-n, shift)
        }
    }

    /// The coordinate of an integer.
    pub open spec fn of_int(n: int) -> Coord {
        choose|c: Coord| #[trigger] c.integer(n)
    }

    /// The rank of the coordinate.
    fn rank_value(self) -> (rank: i64)
        ensures
            rank == self.rank(),
    {
        if self.bits < SIGN_BIT {
            self.bits as i64
        } else {
            -((self.bits - SIGN_BIT) as i64)
        }
    }

    /// Whether the pattern stands for no number.
    pub fn is_nan(self) -> (nan: bool)
        ensures
            nan == self.nan(),
    {
        let rank: i64 = self.rank_value();
        rank > INFINITY_BITS as i64 || rank < -(INFINITY_BITS as i64)
    }

    /// Whether this is a number below another number.
    pub fn is_below(self, other: Coord) -> (below: bool)
        ensures
            below == self.below(other),
    {
        !self.is_nan() && !other.is_nan() && self.rank_value() < other.rank_value()
    }

    /// Whether this is a number below or equal to another number.
    pub fn is_at_most(self, other: Coord) -> (at_most: bool)
        ensures
            at_most == self.at_most(other),
    {
        !self.is_nan() && !other.is_nan() && self.rank_value() <= other.rank_value()
    }

    /// The smaller of two coordinates; the other one, where one is no number.
    pub fn min(self, other: Coord) -> (smaller: Coord)
        ensures
            smaller == self.smaller(other),
    {
        if self.is_nan() || other.is_below(self) {
            other
        } else {
            self
        }
    }

    /// The larger of two coordinates; the other one, where one is no number.
    pub fn max(self, other: Coord) -> (larger: Coord)
        ensures
            larger == self.larger(other),
    {
        if self.is_nan() || self.is_below(other) {
            other
        } else {
            self
        }
    }

    /// Restrict the coordinate to the range from `low` to `high`.
    pub fn clamp(self, low: Coord, high: Coord) -> (clamped: Coord)
        requires
            low.at_most(high),
        ensures
            clamped == self.within(low, high),
    {
        if self.is_below(low) {
            low
        } else if high.is_below(self) {
            high
        } else {
            self
        }
    }

    /// The magnitude of the coordinate: the pattern without the sign.
    pub open spec fn magnitude(self) -> int {
        if self.bits < SIGN_BIT {
            self.bits as int
        } else {
            self.bits - SIGN_BIT
        }
    }

    /// The integer part of a magnitude: the significand, with the leading bit put
    /// back, scaled by the exponent. The exponent of 1 is 1023.
    pub open spec fn whole_magnitude(self) -> int {
        let exponent = self.magnitude() / LEADING_BIT as int;
        let significand = LEADING_BIT + self.magnitude() % LEADING_BIT as int;
        if exponent < 1023 {
            0
        } else if exponent <= 1075 {
            significand / pow2((1075 - exponent) as nat) as int
        } else {
            significand * pow2((exponent - 1075) as nat)
        }
    }

    /// The integer part of a coordinate, which is rounded towards 0.
    pub open spec fn whole(self) -> int {
        if self.bits < SIGN_BIT {
            self.whole_magnitude()
        } else {
            -self.whole_magnitude()
        }
    }

    /// The coordinate as an integer of 16 bits: rounded towards 0, at most as
    /// large and as small as such an integer can be, and 0 where it is no number.
    pub open spec fn whole_i16(self) -> int {
        if self.nan() {
            0
        } else if self.whole() > i16::MAX {
            i16::MAX as int
        } else if self.whole() < i16::MIN {
            i16::MIN as int
        } else {
            self.whole()
        }
    }

    /// The coordinate as an integer of 16 bits.
    pub fn to_i16(self) -> (n: i16)
        ensures
            n == self.whole_i16(),
    {
        if self.is_nan() {
            return 0;
        }
        let magnitude: u64 = if self.bits < SIGN_BIT {
            self.bits
        } else {
            self.bits - SIGN_BIT
        };
        let exponent: u64 = magnitude / LEADING_BIT;
        let significand: u64 = LEADING_BIT + magnitude % LEADING_BIT;
        if exponent < 1023 {
            return 0;
        }
        if exponent >= 1039 {
            proof {
                lemma_large_exponent(significand as int, exponent as int);
            }
            return if self.bits < SIGN_BIT {
                i16::MAX
            } else {
                i16::MIN
            };
        }
        let places: u64 = 1075 - exponent;
        let whole: u64 = significand >> places;
        proof {
            vstd::bits::lemma_u64_shr_is_div(significand, places);
            lemma_small_exponent(significand as int, exponent as int);
        }
        if self.bits < SIGN_BIT {
            if whole > 0x7FFF {
                i16::MAX
            } else {
                whole as i16
            }
        } else {
            if whole > 0x8000 {
                i16::MIN
            } else {
                (-(whole as i32)) as i16
            }
        }
    }

    /// The coordinate of an integer.
    pub fn from_i32(n: i32) -> (coord: Coord)
        ensures
            coord.integer(n as int),
            coord == Coord::of_int(n as int),
    {
        if n == 0 {
            let zero = Coord { bits: 0 };
            proof {
                assert(zero.integer(n as int));
                law_integers_keep_their_order(zero, 0, Coord::of_int(0), 0);
            }
            return zero;
        }
        let size: u64 = if n > 0 {
            n as u64
        } else {
            (-(n as i64)) as u64
        };
        let mut significand: u64 = size;
        let mut shift: u64 = 0;
        proof {
            lemma2_to64();
        }
        while significand < LEADING_BIT
            invariant
                1 <= size <= 0x8000_0000,
                significand == size * pow2(shift as nat),
                pow2(shift as nat) <= significand < 2 * LEADING_BIT,
                shift <= 52,
            decreases 2 * LEADING_BIT - significand,
        {
            proof {
                lemma_pow2_unfold((shift + 1) as nat);
                lemma_pow2_pos(shift as nat);
                assert(shift < 52) by {
                    lemma2_to64_rest();
                }
                assert(size * (2 * pow2(shift as nat)) == 2 * (size * pow2(shift as nat)))
                    by (nonlinear_arith);
            }
            significand = significand * 2;
            shift = shift + 1;
        }
        let magnitude: u64 = (1074 - shift) * LEADING_BIT + significand;
        let positive = Coord { bits: magnitude };
        assert(positive.positive_integer(size as int, shift as nat));
        let coord = if n > 0 {
            positive
        } else {
            let negative = Coord { bits: SIGN_BIT + magnitude };
            assert((Coord { bits: (negative.bits - SIGN_BIT) as u64 }) == positive);
            negative
        };
        proof {
            assert(coord.integer(n as int));
            law_integers_keep_their_order(
                coord,
                n as int,
                Coord::of_int(n as int),
                n as int,
            );
        }
        coord
    }
}

impl PartialEq for Coord {
    fn eq(&self, other: &Coord) -> (same: bool) {
        self.is_at_most(*other) && other.is_at_most(*self)
    }
}

impl vstd::std_specs::cmp::PartialEqSpecImpl for Coord {
    open spec fn obeys_eq_spec() -> bool {
        true
    }

    open spec fn eq_spec(&self, other: &Coord) -> bool {
        self.at_most(*other) && other.at_most(*self)
    }
}

/// From an exponent of 16 up, the integer part has more than 16 bits.
proof fn lemma_large_exponent(significand: int, exponent: int)
    requires
        LEADING_BIT <= significand < 2 * LEADING_BIT,
        1039 <= exponent,
    ensures
        exponent <= 1075 ==> significand / pow2((1075 - exponent) as nat) as int >= 0x1_0000,
        exponent > 1075 ==> significand * pow2((exponent - 1075) as nat) >= 0x1_0000,
{
    lemma2_to64();
    lemma2_to64_rest();
    if exponent <= 1075 {
        let unit = pow2((1075 - exponent) as nat) as int;
        lemma_pow2_pos((1075 - exponent) as nat);
        if exponent > 1039 {
            lemma_pow2_step((1075 - exponent) as nat, 36);
        }
        assert(unit <= pow2(36));
        assert(significand / unit >= 0x1_0000) by (nonlinear_arith)
            requires
                0 < unit <= 0x10_0000_0000,
                significand >= 0x0010_0000_0000_0000,
        ;
    } else {
        let unit = pow2((exponent - 1075) as nat) as int;
        lemma_pow2_pos((exponent - 1075) as nat);
        assert(significand * unit >= 0x1_0000) by (nonlinear_arith)
            requires
                unit >= 1,
                significand >= 0x0010_0000_0000_0000,
        ;
    }
}

/// Up to an exponent of 15, the integer part has at most 16 bits.
proof fn lemma_small_exponent(significand: int, exponent: int)
    requires
        LEADING_BIT <= significand < 2 * LEADING_BIT,
        1023 <= exponent < 1039,
    ensures
        0 <= significand / pow2((1075 - exponent) as nat) as int <= 0xFFFF,
{
    lemma2_to64();
    lemma2_to64_rest();
    let unit = pow2((1075 - exponent) as nat) as int;
    lemma_pow2_pos((1075 - exponent) as nat);
    if exponent < 1038 {
        lemma_pow2_step(37, (1075 - exponent) as nat);
    }
    assert(unit >= pow2(37));
    assert(0 <= significand / unit <= 0xFFFF) by (nonlinear_arith)
        requires
            unit >= 0x20_0000_0000,
            0 <= significand < 0x0020_0000_0000_0000,
    ;
}

/// A larger positive integer has a larger pattern.
proof fn lemma_positive_order(a: Coord, m: int, j: nat, b: Coord, n: int, k: nat)
    requires
        a.positive_integer(m, j),
        b.positive_integer(n, k),
        m > 0,
        n > 0,
    ensures
        m < n ==> a.bits < b.bits,
        m == n ==> a.bits == b.bits,
        0 < a.bits < INFINITY_BITS,
{
    lemma_pow2_pos(j);
    lemma_pow2_pos(k);
    if j < k {
        lemma_pow2_step(j, k);
        if m <= n {
            assert(n * pow2(k) >= 2 * LEADING_BIT) by (nonlinear_arith)
                requires
                    0 < m <= n,
                    pow2(k) >= 2 * pow2(j),
                    m * pow2(j) >= LEADING_BIT,
            ;
        }
    } else if j > k {
        lemma_pow2_step(k, j);
        if m == n {
            assert(m * pow2(j) >= 2 * LEADING_BIT) by (nonlinear_arith)
                requires
                    0 < n == m,
                    pow2(j) >= 2 * pow2(k),
                    n * pow2(k) >= LEADING_BIT,
            ;
        }
    } else {
        assert(m < n ==> m * pow2(j) < n * pow2(j)) by (nonlinear_arith)
            requires
                pow2(j) > 0,
        ;
    }
}

/// A power of two is at least twice any smaller one.
proof fn lemma_pow2_step(j: nat, k: nat)
    requires
        j < k,
    ensures
        pow2(k) >= 2 * pow2(j),
    decreases k,
{
    lemma_pow2_unfold(k);
    if j < k - 1 {
        lemma_pow2_step(j, (k - 1) as nat);
        lemma_pow2_pos((k - 1) as nat);
    }
}

/// Coordinates that are integers compare as the integers do.
pub proof fn law_integers_keep_their_order(a: Coord, m: int, b: Coord, n: int)
    requires
        a.integer(m),
        b.integer(n),
    ensures
        a.below(b) <==> m < n,
        a.at_most(b) <==> m <= n,
        m == n ==> a == b,
{
    let p = if m < 0 {
        Coord { bits: (a.bits - SIGN_BIT) as u64 }
    } else {
        a
    };
    let q = if n < 0 {
        Coord { bits: (b.bits - SIGN_BIT) as u64 }
    } else {
        b
    };
    let m_size = if m < 0 {
        -m
    } else {
        m
    };
    let n_size = if n < 0 {
        -n
    } else {
        n
    };
    if m != 0 {
        let j = choose|j: nat| #[trigger] p.positive_integer(m_size, j);
        lemma_positive_order(p, m_size, j, p, m_size, j);
        if n != 0 {
            let k = choose|k: nat| #[trigger] q.positive_integer(n_size, k);
            lemma_positive_order(p, m_size, j, q, n_size, k);
            lemma_positive_order(q, n_size, k, p, m_size, j);
        }
    }
    if n != 0 {
        let k = choose|k: nat| #[trigger] q.positive_integer(n_size, k);
        lemma_positive_order(q, n_size, k, q, n_size, k);
    }
}

/// A clamped coordinate lies in the range, and a coordinate of the range stays
/// as it is.
pub proof fn law_clamp_stays_in_range(c: Coord, low: Coord, high: Coord)
    requires
        low.at_most(high),
        !c.nan(),
    ensures
        low.at_most(c.within(low, high)),
        c.within(low, high).at_most(high),
        low.at_most(c) && c.at_most(high) ==> c.within(low, high) == c,
{
}

/// The integer part of a coordinate that is an integer is that integer.
pub proof fn law_integers_are_whole(c: Coord, n: int)
    requires
        c.integer(n),
    ensures
        c.whole() == n,
        !c.nan(),
{
    law_integers_keep_their_order(c, n, c, n);
    if n != 0 {
        let p = if n < 0 {
            Coord { bits: (c.bits - SIGN_BIT) as u64 }
        } else {
            c
        };
        let size = if n < 0 {
            -n
        } else {
            n
        };
        let shift = choose|shift: nat| #[trigger] p.positive_integer(size, shift);
        lemma_positive_order(p, size, shift, p, size, shift);
        let significand = size * pow2(shift);
        assert(p.bits as int == (1075 - shift) * LEADING_BIT + (significand - LEADING_BIT)) by (
        nonlinear_arith)
            requires
                p.bits == (1074 - shift) * LEADING_BIT + significand,
        ;
        vstd::arithmetic::div_mod::lemma_fundamental_div_mod_converse(
            p.bits as int,
            LEADING_BIT as int,
            1075 - shift,
            significand - LEADING_BIT,
        );
        lemma_pow2_pos(shift);
        vstd::arithmetic::div_mod::lemma_div_multiples_vanish(size, pow2(shift) as int);
        assert(size * pow2(shift) == pow2(shift) * size) by (nonlinear_arith);
        assert(significand / pow2(shift) as int == size);
    }
}

/// A positive integer below the largest exact one fills the significand after
/// some shift.
proof fn lemma_shift_exists(n: int, shift: nat)
    requires
        0 < n,
        shift <= 52,
        n * pow2(shift) < 2 * LEADING_BIT,
    ensures
        exists|k: nat| k <= 52 && LEADING_BIT <= #[trigger] (n * pow2(k)) < 2 * LEADING_BIT,
    decreases 52 - shift,
{
    lemma2_to64_rest();
    lemma_pow2_pos(shift);
    if n * pow2(shift) < LEADING_BIT {
        lemma_pow2_unfold((shift + 1) as nat);
        assert(n * pow2(52) >= pow2(52)) by (nonlinear_arith)
            requires
                n >= 1,
        ;
        assert(n * (2 * pow2(shift)) == 2 * (n * pow2(shift))) by (nonlinear_arith);
        lemma_shift_exists(n, shift + 1);
    }
}

/// Every integer of up to 53 bits is a coordinate.
pub proof fn law_integers_have_coordinates(n: int)
    requires
        -2 * LEADING_BIT < n < 2 * LEADING_BIT,
    ensures
        Coord::of_int(n).integer(n),
{
    if n == 0 {
        assert((Coord { bits: 0 }).integer(n));
    } else {
        let size = if n < 0 {
            -n
        } else {
            n
        };
        lemma2_to64();
        lemma_shift_exists(size, 0);
        let shift = choose|k: nat|
            k <= 52 && LEADING_BIT <= #[trigger] (size * pow2(k)) < 2 * LEADING_BIT;
        let positive = Coord {
            bits: ((1074 - shift) * LEADING_BIT + size * pow2(shift)) as u64,
        };
        assert(positive.positive_integer(size, shift));
        if n > 0 {
            assert(positive.integer(n));
        } else {
            let negative = Coord { bits: (SIGN_BIT + positive.bits) as u64 };
            assert(Coord { bits: (negative.bits - SIGN_BIT) as u64 } == positive);
            assert(negative.integer(n));
        }
    }
}

/// A larger magnitude has an integer part that is at least as large.
proof fn lemma_whole_magnitude_grows(a: Coord, b: Coord)
    requires
        a.magnitude() <= b.magnitude(),
        b.magnitude() < 1076 * LEADING_BIT,
    ensures
        0 <= a.whole_magnitude() <= b.whole_magnitude(),
{
    let unit = LEADING_BIT as int;
    let m = a.magnitude() / unit;
    let n = b.magnitude() / unit;
    let s = unit + a.magnitude() % unit;
    let t = unit + b.magnitude() % unit;
    vstd::arithmetic::div_mod::lemma_div_is_ordered(a.magnitude(), b.magnitude(), unit);
    vstd::arithmetic::div_mod::lemma_div_is_ordered(b.magnitude(), 1076 * unit - 1, unit);
    assert((1076 * unit - 1) / unit == 1075);
    vstd::arithmetic::div_mod::lemma_fundamental_div_mod(a.magnitude(), unit);
    vstd::arithmetic::div_mod::lemma_fundamental_div_mod(b.magnitude(), unit);
    if m >= 1023 {
        let p = pow2((1075 - m) as nat) as int;
        let q = pow2((1075 - n) as nat) as int;
        lemma_pow2_pos((1075 - m) as nat);
        lemma_pow2_pos((1075 - n) as nat);
        vstd::arithmetic::div_mod::lemma_div_pos_is_pos(s, p);
        if m == n {
            vstd::arithmetic::div_mod::lemma_div_is_ordered(s, t, p);
        } else {
            lemma_pow2_step((1075 - n) as nat, (1075 - m) as nat);
            vstd::arithmetic::div_mod::lemma_div_is_ordered(s, 2 * t, p);
            vstd::arithmetic::div_mod::lemma_div_is_ordered_by_denominator(2 * t, 2 * q, p);
            assert((2 * t) / (2 * q) == t / q) by {
                vstd::arithmetic::div_mod::lemma_div_denominator(2 * t, 2, q);
                vstd::arithmetic::div_mod::lemma_div_multiples_vanish(t, 2);
            }
        }
    } else {
        if n >= 1023 {
            lemma_pow2_pos((1075 - n) as nat);
            vstd::arithmetic::div_mod::lemma_div_pos_is_pos(
                t,
                pow2((1075 - n) as nat) as int,
            );
        }
    }
}

/// A coordinate between 0 and an integer has an integer part between them.
pub proof fn law_whole_stays_in_range(c: Coord, n: int)
    requires
        0 <= n < LEADING_BIT,
        Coord::of_int(0).at_most(c),
        c.at_most(Coord::of_int(n)),
    ensures
        0 <= c.whole() <= n,
{
    law_integers_have_coordinates(0);
    law_integers_have_coordinates(n);
    let bound = Coord::of_int(n);
    law_integers_are_whole(bound, n);
    assert(c.magnitude() <= bound.magnitude());
    if n > 0 {
        let shift = choose|shift: nat| #[trigger] bound.positive_integer(n, shift);
        assert(bound.magnitude() < 1076 * LEADING_BIT);
    }
    lemma_whole_magnitude_grows(c, bound);
}

/// Patterns without a sign compare as the integers that they are, patterns with a
/// sign the other way round, and a pattern with a sign comes before one without,
/// unless both are zeros. A pattern beyond infinity compares with nothing.
pub proof fn law_patterns_are_ordered(a: Coord, b: Coord, below: bool, at_most: bool)
    requires
        call_ensures(Coord::is_below, (a, b), below),
        call_ensures(Coord::is_at_most, (a, b), at_most),
    ensures
        below == a.below(b),
        at_most == a.at_most(b),
        ({
            let sign = 0x8000_0000_0000_0000u64;
            let infinity = 0x7FF0_0000_0000_0000u64;
            let a_size = if a.bits < sign {
                a.bits as int
            } else {
                a.bits - sign
            };
            let b_size = if b.bits < sign {
                b.bits as int
            } else {
                b.bits - sign
            };
            if a_size > infinity || b_size > infinity {
                !below && !at_most
            } else if a.bits < sign && b.bits < sign {
                (below <==> a_size < b_size) && (at_most <==> a_size <= b_size)
            } else if a.bits >= sign && b.bits >= sign {
                (below <==> a_size > b_size) && (at_most <==> a_size >= b_size)
            } else if a.bits >= sign {
                (below <==> a_size > 0 || b_size > 0) && at_most
            } else {
                !below && (at_most <==> a_size == 0 && b_size == 0)
            }
        }),
{
}

/// The smaller of two numbers is one of them and not above either, and the larger
/// one is not below either. Where one is no number, it is the other one.
pub proof fn law_smaller_and_larger(a: Coord, b: Coord, smaller: Coord, larger: Coord)
    requires
        call_ensures(Coord::min, (a, b), smaller),
        call_ensures(Coord::max, (a, b), larger),
    ensures
        smaller == a || smaller == b,
        larger == a || larger == b,
        a.nan() ==> smaller == b && larger == b,
        b.nan() && !a.nan() ==> smaller == a && larger == a,
        !a.nan() && !b.nan() ==> {
            &&& smaller.at_most(a)
            &&& smaller.at_most(b)
            &&& a.at_most(larger)
            &&& b.at_most(larger)
        },
        a.below(b) ==> smaller == a && larger == b,
        b.below(a) ==> smaller == b && larger == a,
{
}

/// A number below a range is moved to its lower end, one above it to its upper end,
/// and anything else stays as it is.
pub proof fn law_clamp_moves_to_the_ends(c: Coord, low: Coord, high: Coord, clamped: Coord)
    requires
        call_ensures(Coord::clamp, (c, low, high), clamped),
        low.at_most(high),
    ensures
        c.below(low) ==> clamped == low,
        high.below(c) ==> clamped == high,
        low.at_most(c) && c.at_most(high) ==> clamped == c,
        c.nan() ==> clamped == c,
{
}

/// Two patterns of the same integer with different shifts are the same.
proof fn lemma_positive_unique(a: Coord, b: Coord, n: int, j: nat, k: nat)
    requires
        a.positive_integer(n, j),
        b.positive_integer(n, k),
        n > 0,
    ensures
        a == b,
{
    lemma_positive_order(a, n, j, b, n, k);
}

/// Twice an integer has the same significand and an exponent that is larger by one;
/// the opposite of an integer differs in the sign alone; 1 has the exponent 1023,
/// and 0 the pattern of zeros.
pub proof fn law_integers_double(n: i32, double: i32, opposite: i32, a: Coord, b: Coord, c: Coord)
    requires
        call_ensures(Coord::from_i32, (n,), a),
        call_ensures(Coord::from_i32, (double,), b),
        call_ensures(Coord::from_i32, (opposite,), c),
        double == 2 * n,
        opposite == -n,
    ensures
        n == 0 ==> a.bits == 0,
        n == 1 ==> a.bits == 0x3FF0_0000_0000_0000u64,
        n != 0 ==> b.bits == a.bits + 0x0010_0000_0000_0000u64,
        n > 0 ==> c.bits == a.bits + 0x8000_0000_0000_0000u64,
        n < 0 ==> a.bits == c.bits + 0x8000_0000_0000_0000u64,
{
    lemma2_to64();
    lemma2_to64_rest();
    if n != 0 {
        let size: int = if n < 0 {
            -n
        } else {
            n as int
        };
        let p = if n < 0 {
            Coord { bits: (a.bits - SIGN_BIT) as u64 }
        } else {
            a
        };
        let q = if n < 0 {
            Coord { bits: (b.bits - SIGN_BIT) as u64 }
        } else {
            b
        };
        let r = if n < 0 {
            c
        } else {
            Coord { bits: (c.bits - SIGN_BIT) as u64 }
        };
        let j = choose|j: nat| #[trigger] p.positive_integer(size, j);
        let k = choose|k: nat| #[trigger] q.positive_integer(2 * size, k);
        let l = choose|l: nat| #[trigger] r.positive_integer(size, l);
        lemma_positive_unique(p, r, size, j, l);
        lemma_pow2_pos(j);
        if j == 0 {
            assert(size * pow2(0) == size);
            assert(size >= LEADING_BIT);
        }
        lemma_pow2_unfold(j);
        let less = (j - 1) as nat;
        assert(2 * size * pow2(less) == size * (2 * pow2(less))) by (nonlinear_arith);
        let next = Coord { bits: (p.bits + LEADING_BIT) as u64 };
        assert((1074 - less) * LEADING_BIT == (1074 - j) * LEADING_BIT + LEADING_BIT);
        assert(next.positive_integer(2 * size, less));
        lemma_positive_unique(q, next, 2 * size, k, less);
        if n == 1 {
            let one = Coord { bits: 0x3FF0_0000_0000_0000u64 };
            assert(1 * pow2(52) == LEADING_BIT);
            assert(one.positive_integer(1, 52));
            lemma_positive_unique(p, one, 1, j, 52);
        }
    }
}

/// A magnitude whose integer part reaches an integer reaches that integer.
proof fn lemma_whole_reaches(c: Coord, bound: Coord, n: int, j: nat)
    requires
        0 < n,
        bound.positive_integer(n, j),
        c.magnitude() < 1076 * LEADING_BIT,
        n <= c.whole_magnitude(),
    ensures
        bound.bits <= c.magnitude(),
{
    let unit = LEADING_BIT as int;
    let e = c.magnitude() / unit;
    let s = unit + c.magnitude() % unit;
    vstd::arithmetic::div_mod::lemma_fundamental_div_mod(c.magnitude(), unit);
    vstd::arithmetic::div_mod::lemma_div_is_ordered(c.magnitude(), 1076 * unit - 1, unit);
    assert((1076 * unit - 1) / unit == 1075);
    assert(e >= 1023);
    let k = (1075 - e) as nat;
    let p = pow2(k) as int;
    lemma_pow2_pos(k);
    lemma_pow2_pos(j);
    vstd::arithmetic::div_mod::lemma_fundamental_div_mod(s, p);
    vstd::arithmetic::div_mod::lemma_mod_bound(s, p);
    assert(n * p <= s) by (nonlinear_arith)
        requires
            n <= s / p,
            s == p * (s / p) + s % p,
            s % p >= 0,
            p > 0,
    ;
    if k > j {
        lemma_pow2_step(j, k);
        assert(n * p >= 2 * (n * pow2(j))) by (nonlinear_arith)
            requires
                p >= 2 * pow2(j),
                n > 0,
        ;
    } else if k < j {
        assert((1074 - j) * unit + n * pow2(j) < (1075 - j) * unit + unit) by (nonlinear_arith)
            requires
                n * pow2(j) < 2 * unit,
        ;
        assert(c.magnitude() == e * unit + (s - unit));
        assert((1076 - j) * unit <= e * unit) by (nonlinear_arith)
            requires
                1076 - j <= e,
                unit > 0,
        ;
    } else {
        assert(c.magnitude() == e * unit + (s - unit));
        assert(e * unit - unit == (1074 - j) * unit) by (nonlinear_arith)
            requires
                e == 1075 - j,
        ;
    }
}

/// What the integer of 16 bits for a coordinate is: see
/// [`law_numbers_are_rounded_towards_zero`].
pub proof fn lemma_rounded_towards_zero(c: Coord, n: int)
    requires
        0 <= n <= 0xFFFF,
    ensures
        c.nan() ==> c.whole_i16() == 0,
        Coord::of_int(n).at_most(c) && c.below(Coord::of_int(n + 1)) ==> c.whole_i16() == if n
            > 32767 {
            32767
        } else {
            n
        },
        c.at_most(Coord::of_int(-n)) && Coord::of_int(-n - 1).below(c) ==> c.whole_i16() == if n
            > 32768 {
            -32768
        } else {
            -n
        },
        Coord::of_int(0x8000).at_most(c) ==> c.whole_i16() == 32767,
        c.at_most(Coord::of_int(-0x8000)) ==> c.whole_i16() == -32768,
{
    law_integers_have_coordinates(n);
    law_integers_have_coordinates(n + 1);
    law_integers_have_coordinates(-n);
    law_integers_have_coordinates(-n - 1);
    law_integers_have_coordinates(0x8000);
    law_integers_have_coordinates(-0x8000);
    let low = Coord::of_int(n);
    let high = Coord::of_int(n + 1);
    let minus_low = Coord::of_int(-n);
    let minus_high = Coord::of_int(-n - 1);
    law_integers_are_whole(low, n);
    law_integers_are_whole(high, n + 1);
    let j = choose|j: nat| #[trigger] high.positive_integer(n + 1, j);
    let minus_size = Coord { bits: (minus_high.bits - SIGN_BIT) as u64 };
    let k = choose|k: nat| #[trigger] minus_size.positive_integer(n + 1, k);
    lemma_positive_unique(high, minus_size, n + 1, j, k);
    if n > 0 {
        let i = choose|i: nat| #[trigger] low.positive_integer(n, i);
        let minus_low_size = Coord { bits: (minus_low.bits - SIGN_BIT) as u64 };
        let m = choose|m: nat| #[trigger] minus_low_size.positive_integer(n, m);
        lemma_positive_unique(low, minus_low_size, n, i, m);
    }
    assert(high.bits < 1076 * LEADING_BIT);
    if low.magnitude() <= c.magnitude() < high.magnitude() {
        lemma_whole_magnitude_grows(low, c);
        if c.whole_magnitude() >= n + 1 {
            lemma_whole_reaches(c, high, n + 1, j);
        }
        assert(c.whole_magnitude() == n);
    }
    let edge = Coord::of_int(0x8000);
    law_integers_are_whole(edge, 0x8000);
    let e = choose|e: nat| #[trigger] edge.positive_integer(0x8000, e);
    let minus_edge = Coord::of_int(-0x8000);
    let minus_edge_size = Coord { bits: (minus_edge.bits - SIGN_BIT) as u64 };
    let f = choose|f: nat| #[trigger] minus_edge_size.positive_integer(0x8000, f);
    lemma_positive_unique(edge, minus_edge_size, 0x8000, e, f);
    if edge.magnitude() <= c.magnitude() {
        if c.magnitude() < 1076 * LEADING_BIT {
            lemma_whole_magnitude_grows(edge, c);
        } else {
            let unit = LEADING_BIT as int;
            vstd::arithmetic::div_mod::lemma_div_is_ordered(1076 * unit, c.magnitude(), unit);
            assert((1076 * unit) / unit == 1076);
            lemma_large_exponent(unit + c.magnitude() % unit, c.magnitude() / unit);
        }
        assert(c.whole_magnitude() >= 0x8000);
    }
}

/// The integer of 16 bits for a number between an integer and the next one, away
/// from 0, is the integer: it is rounded towards 0. Beyond the integers of 16 bits
/// it is the last of them, and it is 0 where there is no number.
pub proof fn law_numbers_are_rounded_towards_zero(c: Coord, n: int, rounded: i16)
    requires
        call_ensures(Coord::to_i16, (c,), rounded),
        0 <= n <= 0xFFFF,
    ensures
        c.nan() ==> rounded == 0,
        Coord::of_int(n).at_most(c) && c.below(Coord::of_int(n + 1)) ==> rounded == if n > 32767 {
            32767
        } else {
            n
        },
        c.at_most(Coord::of_int(-n)) && Coord::of_int(-n - 1).below(c) ==> rounded == if n
            > 32768 {
            -32768
        } else {
            -n
        },
        Coord::of_int(0x8000).at_most(c) ==> rounded == 32767,
        c.at_most(Coord::of_int(-0x8000)) ==> rounded == -32768,
{
    lemma_rounded_towards_zero(c, n);
}

/// A pattern stands for no number exactly when it is beyond infinity, whatever its
/// sign.
pub proof fn law_patterns_beyond_infinity_are_no_numbers(c: Coord, nan: bool)
    requires
        call_ensures(Coord::is_nan, (c,), nan),
    ensures
        nan == c.nan(),
        nan <==> {
            ||| 0x7FF0_0000_0000_0000 < c.bits < 0x8000_0000_0000_0000
            ||| c.bits > 0xFFF0_0000_0000_0000
        },
{
}

/// Coordinates are equal exactly when neither is below the other and both are
/// numbers: when their patterns are the same, or both are zeros.
pub proof fn law_equal_patterns_are_equal(a: Coord, b: Coord, same: bool)
    requires
        call_ensures(Coord::eq, (&a, &b), same),
    ensures
        same <==> {
            &&& !a.nan()
            &&& !b.nan()
            &&& a.bits == b.bits || (a.bits % 0x8000_0000_0000_0000 == 0 && b.bits
                % 0x8000_0000_0000_0000 == 0)
        },
{
}

/// The pattern of an odd integer is in the middle between those of its neighbours.
/// With those of 1 and of doubled integers, this gives the patterns of all integers.
pub proof fn law_odd_integers_are_in_the_middle(
    k: int,
    even: i32,
    odd: i32,
    next: i32,
    a: Coord,
    b: Coord,
    c: Coord,
)
    requires
        k >= 1,
        even == 2 * k,
        odd == 2 * k + 1,
        next == 2 * k + 2,
        call_ensures(Coord::from_i32, (even,), a),
        call_ensures(Coord::from_i32, (odd,), b),
        call_ensures(Coord::from_i32, (next,), c),
    ensures
        b.bits - a.bits == c.bits - b.bits,
{
    lemma2_to64();
    lemma2_to64_rest();
    let j = choose|j: nat| #[trigger] a.positive_integer(2 * k, j);
    let p = pow2(j) as int;
    lemma_pow2_pos(j);
    lemma_pow2_unfold((j + 1) as nat);
    vstd::arithmetic::power2::lemma_pow2_adds((j + 1) as nat, (52 - j) as nat);
    let places = pow2((52 - j) as nat) as int;
    assert(pow2(53) == 2 * LEADING_BIT);
    assert(k < places) by (nonlinear_arith)
        requires
            2 * k * p < (2 * p) * places,
            p > 0,
    ;
    assert((2 * k + 2) * p <= 2 * LEADING_BIT) by (nonlinear_arith)
        requires
            k + 1 <= places,
            (2 * p) * places == 2 * LEADING_BIT,
            p > 0,
    ;
    assert((2 * k + 1) * p == 2 * k * p + p && (2 * k + 2) * p == 2 * k * p + 2 * p)
        by (nonlinear_arith);
    let middle = Coord { bits: (a.bits + p) as u64 };
    let after = Coord { bits: (a.bits + 2 * p) as u64 };
    assert(middle.positive_integer(2 * k + 1, j));
    let m = choose|m: nat| #[trigger] b.positive_integer(2 * k + 1, m);
    lemma_positive_unique(b, middle, 2 * k + 1, m, j);
    let l = choose|l: nat| #[trigger] c.positive_integer(2 * k + 2, l);
    if (2 * k + 2) * p < 2 * LEADING_BIT {
        assert(after.positive_integer(2 * k + 2, j));
        lemma_positive_unique(c, after, 2 * k + 2, l, j);
    } else {
        if j == 0 {
            assert((2 * k + 2) * p == 2 * k + 2) by (nonlinear_arith)
                requires
                    p == 1,
            ;
        }
        let less = (j - 1) as nat;
        lemma_pow2_unfold(j);
        assert((2 * k + 2) * pow2(less) == LEADING_BIT) by (nonlinear_arith)
            requires
                (2 * k + 2) * p == 2 * LEADING_BIT,
                p == 2 * pow2(less),
        ;
        assert((1074 - less) * LEADING_BIT == (1074 - j) * LEADING_BIT + LEADING_BIT);
        assert(after.positive_integer(2 * k + 2, less));
        lemma_positive_unique(c, after, 2 * k + 2, l, less);
    }
}

} // verus!
