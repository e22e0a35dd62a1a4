//! Discrete 2D [Rect] with common operations like splitting and intersection
//! tests.
use crate::point::{column_major, column_major_at, fits_i32, pt, Point};
use rand::Rng;
use vstd::prelude::*;

verus! {

/// Integer half of `v`, rounded toward zero.
pub open spec fn half_toward_zero(v: int) -> int {
    if v >= 0 {
        v / 2
    } else {
        -((-v) / 2)
    }
}

/// 2D rectangle. It is represented by two corners, `(x1, y1)` and `(x2, y2)`,
/// but constructed from its least corner, width and height. Its points are
/// those of the closed box `[x1, x2] x [y1, y2]`.
#[derive(Clone, Copy, Debug, PartialEq, Eq, Structural)]
pub struct Rect {
    pub x1: i32,
    pub x2: i32,
    pub y1: i32,
    pub y2: i32,
}

/// Relies on rand's `thread_rng` and `Rng::gen_range` over an inclusive range:
/// the value drawn lies in `lo..=hi` (it panics on an empty range).
#[verifier::external_body]
fn random_in_range(lo: i32, hi: i32) -> (r: i32)
    requires
        lo <= hi,
    ensures
        lo <= r <= hi,
{
    rand::thread_rng().gen_range(lo..=hi)
}

impl Rect {
    /// The rectangle with least corner `(x, y)`, width `w` and height `h`.
    pub open spec fn spec_new(x: int, y: int, w: int, h: int) -> Rect {
        Rect { x1: x as i32, x2: (x + w) as i32, y1: y as i32, y2: (y + h) as i32 }
    }

    pub open spec fn spec_width(self) -> int {
        self.x2 - self.x1
    }

    pub open spec fn spec_height(self) -> int {
        self.y2 - self.y1
    }

    /// Whether `p` lies in the closed box.
    pub open spec fn spec_contains(self, p: Point) -> bool {
        self.x1 <= p.x <= self.x2 && self.y1 <= p.y <= self.y2
    }

    /// The points of the closed box, column by column.
    pub open spec fn spec_points_in(self) -> Seq<Point> {
        column_major(self.x1 as int, self.y1 as int, self.spec_width() + 1, self.spec_height() + 1)
    }

    pub fn new(x: i32, y: i32, w: i32, h: i32) -> (r: Rect)
        requires
            fits_i32(x + w),
            fits_i32(y + h),
        ensures
            r == Rect::spec_new(x as int, y as int, w as int, h as int),
    {
        Rect { x1: x, y1: y, x2: x + w, y2: y + h }
    }

    pub fn width(&self) -> (r: i32)
        requires
            fits_i32(self.spec_width()),
        ensures
            r == self.spec_width(),
    {
        self.x2 - self.x1
    }

    pub fn area(&self) -> (r: i32)
        requires
            fits_i32(self.spec_width()),
            fits_i32(self.spec_height()),
            fits_i32(self.spec_width() * self.spec_height()),
        ensures
            r == self.spec_width() * self.spec_height(),
    {
        self.width() * self.height()
    }

    pub fn height(&self) -> (r: i32)
        requires
            fits_i32(self.spec_height()),
        ensures
            r == self.spec_height(),
    {
        self.y2 - self.y1
    }

    /// Retrieves a column-wise list of the integer points enclosed by the
    /// rectangle, bounds included.
    pub fn points_in(&self) -> (r: Vec<Point>)
        ensures
            r@ == self.spec_points_in(),
    {
        let mut v: Vec<Point> = Vec::new();
        let nx: i64 = self.x2 as i64 - self.x1 as i64 + 1;
        let ny: i64 = self.y2 as i64 - self.y1 as i64 + 1;
        if nx <= 0 || ny <= 0 {
            return v;
        }
        let ghost all = self.spec_points_in();
        let mut i: i64 = 0;
        while i < nx
            invariant
                0 <= i <= nx,
                nx == self.spec_width() + 1,
                ny == self.spec_height() + 1,
                nx > 0,
                ny > 0,
                all == self.spec_points_in(),
                v@.len() == i * ny,
                forall|m: int|
                    0 <= m < v@.len() ==> v@[m] == column_major_at(
                        self.x1 as int,
                        self.y1 as int,
                        ny as int,
                        m,
                    ),
            decreases nx - i,
        {
            let mut j: i64 = 0;
            while j < ny
                invariant
                    0 <= i < nx,
                    0 <= j <= ny,
                    nx == self.spec_width() + 1,
                    ny == self.spec_height() + 1,
                    ny > 0,
                    v@.len() == i * ny + j,
                    forall|m: int|
                        0 <= m < v@.len() ==> v@[m] == column_major_at(
                            self.x1 as int,
                            self.y1 as int,
                            ny as int,
                            m,
                        ),
                decreases ny - j,
            {
                let px = (self.x1 as i64 + i) as i32;
                let py = (self.y1 as i64 + j) as i32;
                proof {
                    crate::point::lemma_column_major_index(i as int, j as int, ny as int);
                }
                v.push(Point::new(px, py));
                j += 1;
            }
            proof {
                assert(i * ny + ny == (i + 1) * ny) by (nonlinear_arith);
            }
            i += 1;
        }
        proof {
            assert(v@ =~= all);
        }
        v
    }

    /// Splits the rectangle at an x-coordinate relative to its origin. The
    /// column at that coordinate belongs to neither half.
    pub fn split_x(&self, x: i32) -> (r: (Rect, Rect))
        requires
            fits_i32(self.x1 + x),
            fits_i32(self.x1 + x + 1),
        ensures
            r.0 == (Rect { x1: self.x1, x2: (self.x1 + x) as i32, y1: self.y1, y2: self.y2 }),
            r.1 == (Rect { x1: (self.x1 + x + 1) as i32, x2: self.x2, y1: self.y1, y2: self.y2 }),
    {
        let at = self.x1 as i64 + x as i64;
        (
            Rect { x1: self.x1, x2: at as i32, y1: self.y1, y2: self.y2 },
            Rect { x1: (at + 1) as i32, x2: self.x2, y1: self.y1, y2: self.y2 },
        )
    }

    /// Splits the rectangle at a y-coordinate relative to its origin. The row
    /// at that coordinate belongs to neither half.
    pub fn split_y(&self, y: i32) -> (r: (Rect, Rect))
        requires
            fits_i32(self.y1 + y),
            fits_i32(self.y1 + y + 1),
        ensures
            r.0 == (Rect { x1: self.x1, x2: self.x2, y1: self.y1, y2: (self.y1 + y) as i32 }),
            r.1 == (Rect { x1: self.x1, x2: self.x2, y1: (self.y1 + y + 1) as i32, y2: self.y2 }),
    {
        let at = self.y1 as i64 + y as i64;
        (
            Rect { x1: self.x1, x2: self.x2, y1: self.y1, y2: at as i32 },
            Rect { x1: self.x1, x2: self.x2, y1: (at + 1) as i32, y2: self.y2 },
        )
    }

    /// Gives the rectangle enclosed by this rectangle: one unit smaller on
    /// every side.
    pub fn inner_rect(&self) -> (r: Rect)
        requires
            fits_i32(self.x1 + 1),
            fits_i32(self.y1 + 1),
            fits_i32(self.x2 - 1),
            fits_i32(self.y2 - 1),
        ensures
            r == (Rect {
                x1: (self.x1 + 1) as i32,
                x2: (self.x2 - 1) as i32,
                y1: (self.y1 + 1) as i32,
                y2: (self.y2 - 1) as i32,
            }),
    {
        Rect { x1: self.x1 + 1, x2: self.x2 - 1, y1: self.y1 + 1, y2: self.y2 - 1 }
    }

    /// Tests for intersection with another rectangle, bounds included.
    pub fn intersect(&self, other: &Rect) -> (r: bool)
        ensures
            r == (self.x1 <= other.x2 && self.x2 >= other.x1 && self.y1 <= other.y2 && self.y2
                >= other.y1),
    {
        self.x1 <= other.x2 && self.x2 >= other.x1 && self.y1 <= other.y2 && self.y2 >= other.y1
    }

    /// Samples a random point within the rectangle.
    pub fn sample_point(&self) -> (r: Point)
        requires
            self.x1 <= self.x2,
            self.y1 <= self.y2,
        ensures
            self.spec_contains(r),
    {
        Point::new(random_in_range(self.x1, self.x2), random_in_range(self.y1, self.y2))
    }

    /// Tests whether the rectangle contains the point, bounds included.
    pub fn contains(&self, point: &Point) -> (r: bool)
        ensures
            r == self.spec_contains(*point),
    {
        self.x1 <= point.x && point.x <= self.x2 && self.y1 <= point.y && point.y <= self.y2
    }

    /// Computes the center of the rectangle, each coordinate halved toward
    /// zero.
    pub fn center(&self) -> (r: Point)
        ensures
            r == pt(
                half_toward_zero(self.x1 + self.x2),
                half_toward_zero(self.y1 + self.y2),
            ),
    {
        Point::new(half(self.x1 as i64 + self.x2 as i64), half(self.y1 as i64 + self.y2 as i64))
    }
}

/// Half of the sum of two `i32`s, rounded toward zero.
fn half(v: i64) -> (r: i32)
    requires
        2 * i32::MIN <= v <= 2 * i32::MAX,
    ensures
        r == half_toward_zero(v as int),
{
    if v >= 0 {
        (v / 2) as i32
    } else {
        -((-v) / 2) as i32
    }
}

/// A rectangle built from a non-negative width and height holds
/// `(w + 1) * (h + 1)` points, as its bounds are included, and each of them
/// lies in it.
pub proof fn lemma_points_in_count(x: int, y: int, w: int, h: int)
    requires
        w >= 0,
        h >= 0,
        fits_i32(x),
        fits_i32(y),
        fits_i32(x + w),
        fits_i32(y + h),
    ensures
        Rect::spec_new(x, y, w, h).spec_points_in().len() == (w + 1) * (h + 1),
        forall|k: int|
            0 <= k < (w + 1) * (h + 1) ==> Rect::spec_new(x, y, w, h).spec_contains(
                #[trigger] Rect::spec_new(x, y, w, h).spec_points_in()[k],
            ),
{
    let r = Rect::spec_new(x, y, w, h);
    assert((w + 1) * (h + 1) >= 0) by (nonlinear_arith)
        requires
            w >= 0,
            h >= 0,
    ;
    assert forall|k: int| 0 <= k < (w + 1) * (h + 1) implies r.spec_contains(
        #[trigger] r.spec_points_in()[k],
    ) by {
        vstd::arithmetic::div_mod::lemma_div_pos_is_pos(k, h + 1);
        vstd::arithmetic::div_mod::lemma_mod_bound(k, h + 1);
        vstd::arithmetic::div_mod::lemma_div_is_ordered(k, (w + 1) * (h + 1) - 1, h + 1);
        assert(((w + 1) * (h + 1) - 1) / (h + 1) == w) by {
            lemma_last_column(w, h);
        }
    }
}

proof fn lemma_last_column(w: int, h: int)
    requires
        w >= 0,
        h >= 0,
    ensures
        ((w + 1) * (h + 1) - 1) / (h + 1) == w,
{
    assert((w + 1) * (h + 1) - 1 == w * (h + 1) + h) by (nonlinear_arith);
    crate::point::lemma_column_major_index(w, h, h + 1);
}

} // verus!
