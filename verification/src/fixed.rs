//! Pointer coordinates: signed fixed-point numbers with eight binary places,
//! the form in which a compositor sends them.

use vstd::prelude::*;
use vstd::string::*;

use crate::text::append_decimal;

verus! {

/// The coordinate `raw / 256`.
#[derive(Clone, Copy, Debug, PartialEq, Eq, Structural)]
pub struct Fixed {
    pub raw: i32,
}

/// A rectangle on the screen.
#[derive(Clone, Copy, Debug, PartialEq, Eq, Structural)]
pub struct Geometry {
    pub x: i32,
    pub y: i32,
    pub width: i32,
    pub height: i32,
}

/// `magnitude / 256`, rounded to the nearest whole number; what lies halfway
/// between two goes to the even one.
pub open spec fn rounded(magnitude: nat) -> nat {
    let whole = magnitude / 256;
    let rest = magnitude % 256;
    if rest < 128 || (rest == 128 && whole % 2 == 0) {
        whole
    } else {
        whole + 1
    }
}

impl Fixed {
    /// Whether the coordinate is `n` or beyond it.
    pub open spec fn is_at_least(self, n: int) -> bool {
        self.raw >= 256 * n
    }

    /// The coordinate without its fraction.
    pub open spec fn whole(self) -> int {
        if self.raw >= 0 {
            self.raw as int / 256
        } else {
            -(-self.raw / 256)
        }
    }

    /// The coordinate as a whole number in decimal. A negative coordinate keeps
    /// its sign even if it is rounded to zero.
    pub open spec fn text(self) -> Seq<char> {
        if self.raw < 0 {
            "-"@ + crate::text::decimal(rounded((-self.raw) as nat))
        } else {
            crate::text::decimal(rounded(self.raw as nat))
        }
    }

    /// Whether the coordinate is `n` or beyond it.
    pub fn at_least(self, n: i64) -> (b: bool)
        ensures
            b == self.is_at_least(n as int),
    {
        self.raw as i128 >= 256 * (n as i128)
    }

    /// The coordinate without its fraction.
    pub fn truncated(self) -> (n: i32)
        ensures
            n == self.whole(),
    {
        if self.raw >= 0 {
            self.raw / 256
        } else {
            let magnitude: i64 = -(self.raw as i64);
            (-(magnitude / 256)) as i32
        }
    }

    /// Writes the coordinate as a whole number behind `out`.
    pub fn append_rounded(self, out: &mut String)
        ensures
            final(out)@ == old(out)@ + self.text(),
    {
        let ghost before = out@;
        let magnitude: u64 = if self.raw < 0 {
            out.append("-");
            (-(self.raw as i64)) as u64
        } else {
            self.raw as u64
        };
        let whole: u64 = magnitude / 256;
        let rest: u64 = magnitude % 256;
        let nearest: u64 = if rest < 128 || (rest == 128 && whole % 2 == 0) {
            whole
        } else {
            whole + 1
        };
        append_decimal(out, nearest as u128);
        assert(out@ =~= before + self.text());
    }
}

impl Geometry {
    /// Whether a point lies in the rectangle. The left and the upper edge
    /// belong to it, the right and the lower one do not.
    pub open spec fn covers(self, px: Fixed, py: Fixed) -> bool {
        &&& px.is_at_least(self.x as int)
        &&& py.is_at_least(self.y as int)
        &&& !px.is_at_least(self.x + self.width)
        &&& !py.is_at_least(self.y + self.height)
    }

    /// The area of the rectangle.
    pub open spec fn size(self) -> int {
        self.width * self.height
    }

    /// Whether a point lies in the rectangle.
    pub fn contains(&self, px: Fixed, py: Fixed) -> (b: bool)
        ensures
            b == self.covers(px, py),
    {
        px.at_least(self.x as i64) && py.at_least(self.y as i64) && !px.at_least(
            self.x as i64 + self.width as i64,
        ) && !py.at_least(self.y as i64 + self.height as i64)
    }

    /// The area of the rectangle.
    pub fn area(&self) -> (a: i64)
        ensures
            a == self.size(),
    {
        let w: i64 = self.width as i64;
        let h: i64 = self.height as i64;
        assert(-0x4000_0000_0000_0000 <= w * h <= 0x4000_0000_0000_0000) by (nonlinear_arith)
            requires
                -0x8000_0000 <= w <= 0x7fff_ffff,
                -0x8000_0000 <= h <= 0x7fff_ffff,
        ;
        w * h
    }
}

/// Rounding goes to a nearest whole number, and to the even one of two that are
/// equally near.
pub proof fn law_rounding_goes_to_the_nearest(magnitude: nat)
    ensures
        -128 <= 256 * rounded(magnitude) - magnitude <= 128,
        256 * rounded(magnitude) - magnitude == 128 || 256 * rounded(magnitude) - magnitude == -128
            ==> rounded(magnitude) % 2 == 0,
{
}

/// Truncating drops the fraction: what is left is no farther from zero than the
/// coordinate, on the same side of it, and less than one away.
pub proof fn law_truncation_drops_the_fraction(coordinate: Fixed)
    ensures
        coordinate.raw >= 0 ==> 0 <= 256 * coordinate.whole() <= coordinate.raw < 256
            * coordinate.whole() + 256,
        coordinate.raw <= 0 ==> 256 * coordinate.whole() - 256 < coordinate.raw <= 256
            * coordinate.whole() <= 0,
{
}

/// A point lies in a rectangle exactly if it is neither left of it nor above it,
/// and left of its right edge and above its lower one.
pub proof fn law_rectangle_holds_its_points(g: Geometry, px: Fixed, py: Fixed)
    ensures
        g.covers(px, py) <==> 256 * g.x <= px.raw < 256 * (g.x + g.width) && 256 * g.y <= py.raw
            < 256 * (g.y + g.height),
        g.size() == g.width * g.height,
{
}

/// A coordinate is written as a whole number that is at most half a unit away from
/// it, with a minus in front if it is negative.
pub proof fn law_coordinate_is_written_to_the_nearest(coordinate: Fixed)
    ensures
        ({
            let written = if coordinate.raw < 0 {
                -crate::text::number_of(coordinate.text().drop_first())
            } else {
                crate::text::number_of(coordinate.text())
            };
            -128 <= 256 * written - coordinate.raw <= 128
        }),
        coordinate.text().len() > 0,
        coordinate.raw < 0 <==> coordinate.text()[0] == '-',
{
    reveal_strlit("-");
    let magnitude = if coordinate.raw < 0 {
        (-coordinate.raw) as nat
    } else {
        coordinate.raw as nat
    };
    let digits = crate::text::decimal(rounded(magnitude));
    crate::text::law_decimal_stands_for_number(rounded(magnitude));
    law_rounding_goes_to_the_nearest(magnitude);
    assert('0' <= digits[0] <= '9');
    if coordinate.raw < 0 {
        assert("-"@ =~= seq!['-']);
        assert(coordinate.text().drop_first() =~= digits);
    }
}

} // verus!
