//! 2D grid points with integer coordinates.
use crate::direction::{euclid_rem8, Direction};
use vstd::arithmetic::div_mod::lemma_fundamental_div_mod_converse;
use vstd::prelude::*;

verus! {

/// Sign of an integer: -1, 0 or 1.
pub open spec fn sign(v: int) -> int {
    if v > 0 {
        1
    } else if v < 0 {
        -1
    } else {
        0
    }
}

/// Absolute value of an integer.
pub open spec fn abs(v: int) -> int {
    if v < 0 {
        -v
    } else {
        v
    }
}

/// Whether an integer fits in an `i32`.
pub open spec fn fits_i32(v: int) -> bool {
    i32::MIN <= v <= i32::MAX
}

/// 2D (grid) point with integer coordinates [x](Self::x) and [y](Self::y).
/// Points are ordered by `x`, then by `y`.
#[derive(Clone, Copy, Debug, PartialEq, Eq, Structural, Hash, PartialOrd, Ord)]
pub struct Point {
    pub x: i32,
    pub y: i32,
}

/// The unit step of a direction as a point: north is `(0, 1)`, east `(1, 0)`,
/// `NONE` is `(0, 0)`.
pub open spec fn delta(d: Direction) -> Point {
    Point { x: d.dx() as i32, y: d.dy() as i32 }
}

/// Point with coordinates `(x, y)` given as integers.
pub open spec fn pt(x: int, y: int) -> Point {
    Point { x: x as i32, y: y as i32 }
}

/// The `k`-th point, in column-major order, of a box with lower corner
/// `(x0, y0)` and `ny` points per column.
pub open spec fn column_major_at(x0: int, y0: int, ny: int, k: int) -> Point {
    pt(x0 + k / ny, y0 + k % ny)
}

/// All points of a box with lower corner `(x0, y0)`, `nx` columns and `ny`
/// points per column, column by column (x outer, y inner). Empty when either
/// count is not positive.
pub open spec fn column_major(x0: int, y0: int, nx: int, ny: int) -> Seq<Point> {
    if nx <= 0 || ny <= 0 {
        Seq::empty()
    } else {
        Seq::new((nx * ny) as nat, |k: int| column_major_at(x0, y0, ny, k))
    }
}

/// Position `i * n + j` of a column-major walk is column `i`, row `j`.
pub proof fn lemma_column_major_index(i: int, j: int, n: int)
    requires
        0 <= j < n,
    ensures
        (i * n + j) / n == i,
        (i * n + j) % n == j,
{
    lemma_fundamental_div_mod_converse(i * n + j, n, i, j);
}

impl Point {
    /// Whether the point displaced by `(dx, dy)` is representable.
    pub open spec fn can_shift(self, dx: int, dy: int) -> bool {
        fits_i32(self.x + dx) && fits_i32(self.y + dy)
    }

    /// The point displaced by `(dx, dy)`.
    pub open spec fn shifted(self, dx: int, dy: int) -> Point {
        pt(self.x + dx, self.y + dy)
    }

    /// The direction from `self` toward `other`.
    pub open spec fn spec_dir_obj(self, other: Point) -> Direction {
        Direction::of_signs(sign(other.x - self.x), sign(other.y - self.y))
    }

    /// L-1 distance.
    pub open spec fn spec_manhattan(self, other: Point) -> int {
        abs(other.x - self.x) + abs(other.y - self.y)
    }

    /// L-inf distance.
    pub open spec fn spec_move_distance(self, other: Point) -> int {
        let a = abs(other.x - self.x);
        let b = abs(other.y - self.y);
        if a >= b {
            a
        } else {
            b
        }
    }

    /// The `i`-th of the eight surrounding points, numbered clockwise from north
    /// as [Direction] numbers its compass points.
    pub open spec fn moore_point(self, i: int) -> Point {
        let d = Direction::from_code(i % 8);
        self.shifted(d.dx(), d.dy())
    }

    /// Whether all eight surrounding points are representable.
    pub open spec fn has_neighbors(self) -> bool {
        self.can_shift(-1, -1) && self.can_shift(1, 1)
    }

    pub fn new(x: i32, y: i32) -> (r: Point)
        ensures
            r.x == x,
            r.y == y,
    {
        Point { x, y }
    }

    /// Compares this to another point and gives a direction from this to the other.
    pub fn dir_obj(&self, other: &Point) -> (r: Direction)
        ensures
            r == self.spec_dir_obj(*other),
    {
        if self.x > other.x {
            if self.y < other.y {
                Direction::NORTHWEST
            } else if self.y == other.y {
                Direction::WEST
            } else {
                Direction::SOUTHWEST
            }
        } else if self.x == other.x {
            if self.y < other.y {
                Direction::NORTH
            } else if self.y == other.y {
                Direction::NONE
            } else {
                Direction::SOUTH
            }
        } else {
            if self.y < other.y {
                Direction::NORTHEAST
            } else if self.y == other.y {
                Direction::EAST
            } else {
                Direction::SOUTHEAST
            }
        }
    }

    /// Like [dir_obj](Self::dir_obj) but translates the [Direction] to a point
    /// which can be used like a delta.
    pub fn dir(&self, other: &Point) -> (r: Point)
        ensures
            r == delta(self.spec_dir_obj(*other)),
    {
        Point::from(self.dir_obj(other))
    }

    /// Gives the direction in which the given point is as seen from the origin.
    pub fn abs_dir(&self) -> (r: Direction)
        ensures
            r == Direction::of_signs(sign(self.x as int), sign(self.y as int)),
    {
        Point::new(0, 0).dir_obj(self)
    }

    /// L-1 norm. As a grid-pathfinding heuristic it represents number of moves
    /// on a uniform cost 4-connected grid.
    pub fn manhattan_distance(&self, other: &Point) -> (r: i32)
        requires
            self.spec_manhattan(*other) <= i32::MAX,
        ensures
            r == self.spec_manhattan(*other),
    {
        let dx = other.x as i64 - self.x as i64;
        let dy = other.y as i64 - self.y as i64;
        let ax = if dx < 0 { -dx } else { dx };
        let ay = if dy < 0 { -dy } else { dy };
        (ax + ay) as i32
    }

    /// L-inf norm. As a grid-pathfinding heuristic it represents number of
    /// moves on a uniform cost 8-connected grid.
    pub fn move_distance(&self, other: &Point) -> (r: i32)
        requires
            self.spec_move_distance(*other) <= i32::MAX,
        ensures
            r == self.spec_move_distance(*other),
    {
        let dx = other.x as i64 - self.x as i64;
        let dy = other.y as i64 - self.y as i64;
        let ax = if dx < 0 { -dx } else { dx };
        let ay = if dy < 0 { -dy } else { dy };
        if ax >= ay {
            ax as i32
        } else {
            ay as i32
        }
    }

    /// Neighbours on a 4-connected grid: east, north, west, south.
    pub fn neumann_neighborhood(&self) -> (r: Vec<Point>)
        requires
            self.has_neighbors(),
        ensures
            r@ == seq![
                self.shifted(1, 0),
                self.shifted(0, 1),
                self.shifted(-1, 0),
                self.shifted(0, -1),
            ],
    {
        vec![
            Point::new(self.x + 1, self.y),
            Point::new(self.x, self.y + 1),
            Point::new(self.x - 1, self.y),
            Point::new(self.x, self.y - 1),
        ]
    }

    /// Retrieves a single neighbour on an 8-connected grid, numbered as in
    /// [Direction]; any index is taken modulo 8.
    pub fn moore_neighbor(&self, dir_num: i32) -> (r: Point)
        requires
            self.has_neighbors(),
        ensures
            r == self.moore_point(dir_num as int),
    {
        *self + Direction::from_num(euclid_rem8(dir_num as i64))
    }

    /// Neighbours on an 8-connected grid, clockwise starting at north.
    pub fn moore_neighborhood(&self) -> (r: Vec<Point>)
        requires
            self.has_neighbors(),
        ensures
            r@.len() == 8,
            forall|i: int| 0 <= i < 8 ==> r@[i] == #[trigger] self.moore_point(i),
    {
        let r = vec![
            Point::new(self.x, self.y + 1),
            Point::new(self.x + 1, self.y + 1),
            Point::new(self.x + 1, self.y),
            Point::new(self.x + 1, self.y - 1),
            Point::new(self.x, self.y - 1),
            Point::new(self.x - 1, self.y - 1),
            Point::new(self.x - 1, self.y),
            Point::new(self.x - 1, self.y + 1),
        ];
        proof {
            assert forall|i: int| 0 <= i < 8 implies r@[i] == #[trigger] self.moore_point(i) by {
                assert(i % 8 == i);
            }
        }
        r
    }

    /// All points of the `(2 * size + 1)`-wide square centred on `self`, except
    /// `self`, column by column. Empty for a negative `size`.
    pub fn general_moore_neighborhood(&self, size: i32) -> (r: Vec<Point>)
        requires
            size >= 0 ==> self.can_shift(-size, -size) && self.can_shift(size as int, size as int),
        ensures
            size < 0 ==> r@.len() == 0,
            size >= 0 ==> r@ == column_major(
                self.x - size,
                self.y - size,
                2 * size + 1,
                2 * size + 1,
            ).remove(size * (2 * size + 1) + size),
    {
        let mut neigh: Vec<Point> = Vec::new();
        if size < 0 {
            return neigh;
        }
        let n: i64 = 2 * size as i64 + 1;
        let x0: i64 = self.x as i64 - size as i64;
        let y0: i64 = self.y as i64 - size as i64;
        let ghost c: int = size * n + size;
        let ghost sq = column_major(x0 as int, y0 as int, n as int, n as int);
        proof {
            lemma_column_major_index(size as int, size as int, n as int);
            assert(0 <= c < n * n) by (nonlinear_arith)
                requires
                    c == size * n + size,
                    n == 2 * size + 1,
                    size >= 0,
            ;
        }
        let mut i: i64 = 0;
        while i < n
            invariant
                0 <= i <= n,
                n == 2 * size + 1,
                size >= 0,
                x0 == self.x - size,
                y0 == self.y - size,
                self.can_shift(-size, -size),
                self.can_shift(size as int, size as int),
                c == size * n + size,
                0 <= c < n * n,
                sq == column_major(x0 as int, y0 as int, n as int, n as int),
                neigh@.len() == if i * n <= c { i * n } else { i * n - 1 },
                forall|m: int|
                    0 <= m < neigh@.len() ==> neigh@[m] == sq[if m < c { m } else { m + 1 }],
            decreases n - i,
        {
            let mut j: i64 = 0;
            while j < n
                invariant
                    0 <= i < n,
                    0 <= j <= n,
                    n == 2 * size + 1,
                    size >= 0,
                    x0 == self.x - size,
                    y0 == self.y - size,
                    self.can_shift(-size, -size),
                    self.can_shift(size as int, size as int),
                    c == size * n + size,
                    0 <= c < n * n,
                    sq == column_major(x0 as int, y0 as int, n as int, n as int),
                    neigh@.len() == if i * n + j <= c { i * n + j } else { i * n + j - 1 },
                    forall|m: int|
                        0 <= m < neigh@.len() ==> neigh@[m] == sq[if m < c { m } else { m + 1 }],
                decreases n - j,
            {
                let px = (x0 + i) as i32;
                let py = (y0 + j) as i32;
                let ghost k: int = i * n + j;
                proof {
                    lemma_column_major_index(i as int, j as int, n as int);
                    lemma_column_major_index(size as int, size as int, n as int);
                    assert(k < n * n) by (nonlinear_arith)
                        requires
                            k == i * n + j,
                            0 <= i < n,
                            0 <= j < n,
                    ;
                    assert(sq[k] == pt(px as int, py as int));
                }
                if px != self.x || py != self.y {
                    proof {
                        assert(k != c);
                    }
                    neigh.push(Point::new(px, py));
                } else {
                    proof {
                        assert(i == size && j == size);
                    }
                }
                j += 1;
            }
            proof {
                assert(i * n + n == (i + 1) * n) by (nonlinear_arith);
            }
            i += 1;
        }
        proof {
            assert(i * n == n * n);
            let rm = sq.remove(c);
            assert(sq.len() == n * n);
            assert(neigh@ =~= rm);
        }
        neigh
    }
}

impl From<Direction> for Point {
    fn from(val: Direction) -> (r: Point) {
        match val {
            Direction::NORTH => Point::new(0, 1),
            Direction::NORTHEAST => Point::new(1, 1),
            Direction::EAST => Point::new(1, 0),
            Direction::SOUTHEAST => Point::new(1, -1),
            Direction::SOUTH => Point::new(0, -1),
            Direction::SOUTHWEST => Point::new(-1, -1),
            Direction::WEST => Point::new(-1, 0),
            Direction::NORTHWEST => Point::new(-1, 1),
            Direction::NONE => Point::new(0, 0),
        }
    }
}

impl vstd::std_specs::convert::FromSpecImpl<Direction> for Point {
    open spec fn obeys_from_spec() -> bool {
        true
    }

    open spec fn from_spec(v: Direction) -> Point {
        delta(v)
    }
}

impl std::ops::Add<Point> for Point {
    type Output = Point;

    fn add(self, rhs: Point) -> (r: Point) {
        Point { x: self.x + rhs.x, y: self.y + rhs.y }
    }
}

impl vstd::std_specs::ops::AddSpecImpl<Point> for Point {
    open spec fn obeys_add_spec() -> bool {
        true
    }

    open spec fn add_req(self, rhs: Point) -> bool {
        self.can_shift(rhs.x as int, rhs.y as int)
    }

    open spec fn add_spec(self, rhs: Point) -> Point {
        self.shifted(rhs.x as int, rhs.y as int)
    }
}

impl std::ops::Add<Direction> for Point {
    type Output = Point;

    fn add(self, rhs: Direction) -> (r: Point) {
        self + Point::from(rhs)
    }
}

impl vstd::std_specs::ops::AddSpecImpl<Direction> for Point {
    open spec fn obeys_add_spec() -> bool {
        true
    }

    open spec fn add_req(self, rhs: Direction) -> bool {
        self.can_shift(rhs.dx(), rhs.dy())
    }

    open spec fn add_spec(self, rhs: Direction) -> Point {
        self.shifted(rhs.dx(), rhs.dy())
    }
}

impl std::ops::Sub<Point> for Point {
    type Output = Point;

    fn sub(self, rhs: Point) -> (r: Point) {
        Point { x: self.x - rhs.x, y: self.y - rhs.y }
    }
}

impl vstd::std_specs::ops::SubSpecImpl<Point> for Point {
    open spec fn obeys_sub_spec() -> bool {
        true
    }

    open spec fn sub_req(self, rhs: Point) -> bool {
        self.can_shift(-rhs.x, -rhs.y)
    }

    open spec fn sub_spec(self, rhs: Point) -> Point {
        self.shifted(-rhs.x, -rhs.y)
    }
}

impl std::ops::Neg for Point {
    type Output = Point;

    fn neg(self) -> (r: Point) {
        Point { x: -self.x, y: -self.y }
    }
}

impl vstd::std_specs::ops::NegSpecImpl for Point {
    open spec fn obeys_neg_spec() -> bool {
        true
    }

    open spec fn neg_req(self) -> bool {
        fits_i32(-self.x) && fits_i32(-self.y)
    }

    open spec fn neg_spec(self) -> Point {
        pt(-self.x, -self.y)
    }
}

impl std::ops::Mul<i32> for Point {
    type Output = Point;

    fn mul(self, rhs: i32) -> (r: Point) {
        Point { x: self.x * rhs, y: self.y * rhs }
    }
}

impl vstd::std_specs::ops::MulSpecImpl<i32> for Point {
    open spec fn obeys_mul_spec() -> bool {
        true
    }

    open spec fn mul_req(self, rhs: i32) -> bool {
        fits_i32(self.x * rhs) && fits_i32(self.y * rhs)
    }

    open spec fn mul_spec(self, rhs: i32) -> Point {
        pt(self.x * rhs, self.y * rhs)
    }
}

} // verus!
