//! The eight compass directions and a direction-less sentinel.
use vstd::prelude::*;

verus! {

/// Represents 8 possible directions as well as a [NONE](Self::NONE) direction.
///
/// The compass points are numbered 0 to 7 clockwise starting at north; `NONE`
/// carries the code 8.
#[derive(Clone, Copy, Debug, PartialEq, Eq, Structural, Hash, PartialOrd, Ord)]
pub enum Direction {
    NORTH,
    NORTHEAST,
    EAST,
    SOUTHEAST,
    SOUTH,
    SOUTHWEST,
    WEST,
    NORTHWEST,
    NONE,
}

impl Direction {
    /// Numeric code: 0..=7 clockwise from north, 8 for `NONE`.
    pub open spec fn code(self) -> int {
        match self {
            Direction::NORTH => 0,
            Direction::NORTHEAST => 1,
            Direction::EAST => 2,
            Direction::SOUTHEAST => 3,
            Direction::SOUTH => 4,
            Direction::SOUTHWEST => 5,
            Direction::WEST => 6,
            Direction::NORTHWEST => 7,
            Direction::NONE => 8,
        }
    }

    /// The compass direction with code `c` (0..=7); any other code gives `NONE`.
    pub open spec fn from_code(c: int) -> Direction {
        if c == 0 {
            Direction::NORTH
        } else if c == 1 {
            Direction::NORTHEAST
        } else if c == 2 {
            Direction::EAST
        } else if c == 3 {
            Direction::SOUTHEAST
        } else if c == 4 {
            Direction::SOUTH
        } else if c == 5 {
            Direction::SOUTHWEST
        } else if c == 6 {
            Direction::WEST
        } else if c == 7 {
            Direction::NORTHWEST
        } else {
            Direction::NONE
        }
    }

    /// Unit step along x: east is +1, west is -1.
    pub open spec fn dx(self) -> int {
        match self {
            Direction::NORTHEAST | Direction::EAST | Direction::SOUTHEAST => 1,
            Direction::SOUTHWEST | Direction::WEST | Direction::NORTHWEST => -1,
            _ => 0,
        }
    }

    /// Unit step along y: north is +1, south is -1.
    pub open spec fn dy(self) -> int {
        match self {
            Direction::NORTHWEST | Direction::NORTH | Direction::NORTHEAST => 1,
            Direction::SOUTHEAST | Direction::SOUTH | Direction::SOUTHWEST => -1,
            _ => 0,
        }
    }

    /// Rotation clockwise by `n` eighths of a turn; `NONE` stays fixed.
    pub open spec fn spec_rotate_cw(self, n: int) -> Direction {
        if self == Direction::NONE {
            Direction::NONE
        } else {
            Direction::from_code((self.code() + n) % 8)
        }
    }

    /// Rotation counter-clockwise by `n` eighths of a turn; `NONE` stays fixed.
    pub open spec fn spec_rotate_ccw(self, n: int) -> Direction {
        if self == Direction::NONE {
            Direction::NONE
        } else {
            Direction::from_code((self.code() - n) % 8)
        }
    }

    /// Clockwise distance from `self` to `other` in eighths of a turn.
    pub open spec fn spec_discrete_angle(self, other: Direction) -> int {
        (other.code() - self.code()) % 8
    }

    /// The direction whose steps along x and y have the signs of `sx` and `sy`.
    pub open spec fn of_signs(sx: int, sy: int) -> Direction {
        if sx > 0 {
            if sy > 0 {
                Direction::NORTHEAST
            } else if sy == 0 {
                Direction::EAST
            } else {
                Direction::SOUTHEAST
            }
        } else if sx == 0 {
            if sy > 0 {
                Direction::NORTH
            } else if sy == 0 {
                Direction::NONE
            } else {
                Direction::SOUTH
            }
        } else {
            if sy > 0 {
                Direction::NORTHWEST
            } else if sy == 0 {
                Direction::WEST
            } else {
                Direction::SOUTHWEST
            }
        }
    }

    /// True for the four diagonal directions, whose codes are odd.
    pub fn diagonal(&self) -> (r: bool)
        ensures
            r == (self.code() % 2 == 1),
    {
        self.num() % 2 == 1
    }

    /// Clockwise rotational distance from `self` to `other`, in eighths of a
    /// turn, always in `0..8`.
    pub fn discrete_angle(&self, other: Direction) -> (r: i32)
        ensures
            r == self.spec_discrete_angle(other),
            0 <= r < 8,
    {
        euclid_rem8(other.num() as i64 - self.num() as i64)
    }

    /// The numeric code of the direction.
    pub fn num(&self) -> (r: i32)
        ensures
            r == self.code(),
    {
        match self {
            Direction::NORTH => 0,
            Direction::NORTHEAST => 1,
            Direction::EAST => 2,
            Direction::SOUTHEAST => 3,
            Direction::SOUTH => 4,
            Direction::SOUTHWEST => 5,
            Direction::WEST => 6,
            Direction::NORTHWEST => 7,
            Direction::NONE => 8,
        }
    }

    /// The compass direction with a given code in `0..8`.
    pub fn from_num(c: i32) -> (r: Direction)
        requires
            0 <= c < 8,
        ensures
            r == Direction::from_code(c as int),
            r.code() == c,
    {
        match c {
            0 => Direction::NORTH,
            1 => Direction::NORTHEAST,
            2 => Direction::EAST,
            3 => Direction::SOUTHEAST,
            4 => Direction::SOUTH,
            5 => Direction::SOUTHWEST,
            6 => Direction::WEST,
            _ => Direction::NORTHWEST,
        }
    }

    /// Rotates clockwise by `eights` eighths of a turn. `NONE` is left as is.
    pub fn rotate_cw(&self, eights: i32) -> (r: Direction)
        ensures
            r == self.spec_rotate_cw(eights as int),
    {
        match self {
            Direction::NONE => Direction::NONE,
            _ => Direction::from_num(euclid_rem8(self.num() as i64 + eights as i64)),
        }
    }

    /// Rotates counter-clockwise by `eights` eighths of a turn. `NONE` is left
    /// as is.
    pub fn rotate_ccw(&self, eights: i32) -> (r: Direction)
        ensures
            r == self.spec_rotate_ccw(eights as int),
    {
        match self {
            Direction::NONE => Direction::NONE,
            _ => Direction::from_num(euclid_rem8(self.num() as i64 - eights as i64)),
        }
    }

    /// The purely horizontal component of this direction (`NONE` if it has
    /// none).
    pub fn x_dir(&self) -> (r: Direction)
        ensures
            r == Direction::of_signs(self.dx(), 0),
    {
        let x = self.x();
        if x > 0 {
            Direction::EAST
        } else if x < 0 {
            Direction::WEST
        } else {
            Direction::NONE
        }
    }

    /// The purely vertical component of this direction (`NONE` if it has
    /// none).
    pub fn y_dir(&self) -> (r: Direction)
        ensures
            r == Direction::of_signs(0, self.dy()),
    {
        let y = self.y();
        if y > 0 {
            Direction::NORTH
        } else if y < 0 {
            Direction::SOUTH
        } else {
            Direction::NONE
        }
    }

    /// Step along x of this direction, in `{-1, 0, 1}`.
    pub fn x(&self) -> (r: i32)
        ensures
            r == self.dx(),
    {
        match self {
            Direction::NORTHEAST | Direction::EAST | Direction::SOUTHEAST => 1,
            Direction::SOUTHWEST | Direction::WEST | Direction::NORTHWEST => -1,
            _ => 0,
        }
    }

    /// Step along y of this direction, in `{-1, 0, 1}`.
    pub fn y(&self) -> (r: i32)
        ensures
            r == self.dy(),
    {
        match self {
            Direction::NORTHWEST | Direction::NORTH | Direction::NORTHEAST => 1,
            Direction::SOUTHEAST | Direction::SOUTH | Direction::SOUTHWEST => -1,
            _ => 0,
        }
    }
}

/// A full turn clockwise brings every direction back to itself.
pub proof fn lemma_full_turn(d: Direction)
    ensures
        d.spec_rotate_cw(8) == d,
        d.spec_rotate_ccw(8) == d,
{
}

/// Rotating clockwise by `n` and then counter-clockwise by `n` gives back the
/// starting direction, and so does the reverse order.
pub proof fn lemma_rotate_cw_ccw(d: Direction, n: int)
    ensures
        d.spec_rotate_cw(n).spec_rotate_ccw(n) == d,
        d.spec_rotate_ccw(n).spec_rotate_cw(n) == d,
{
    if d != Direction::NONE {
        let c = (d.code() + n) % 8;
        assert(Direction::from_code(c).code() == c);
        assert((c - n) % 8 == d.code()) by (nonlinear_arith)
            requires
                c == (d.code() + n) % 8,
                0 <= d.code() < 8,
        ;
        let e = (d.code() - n) % 8;
        assert(Direction::from_code(e).code() == e);
        assert((e + n) % 8 == d.code()) by (nonlinear_arith)
            requires
                e == (d.code() - n) % 8,
                0 <= d.code() < 8,
        ;
    }
}

/// The angle between two directions measured the other way round completes a
/// full turn: the angle from `a` to `b` is `(8 - angle from b to a) % 8`, and
/// the angle from a direction to itself is 0.
pub proof fn lemma_discrete_angle_antisymmetric(a: Direction, b: Direction)
    ensures
        a.spec_discrete_angle(b) == (8 - b.spec_discrete_angle(a)) % 8,
        a.spec_discrete_angle(a) == 0,
{
    let x = b.code() - a.code();
    assert(x % 8 == (8 - (-x) % 8) % 8) by (nonlinear_arith)
        requires
            -8 <= x <= 8,
    ;
}

/// Euclidean remainder of `v` by 8.
pub(crate) fn euclid_rem8(v: i64) -> (r: i32)
    ensures
        r == v % 8,
        0 <= r < 8,
{
    if v >= 0 {
        (v % 8) as i32
    } else {
        let m = (-(v + 1)) % 8;
        (7 - m) as i32
    }
}

} // verus!
