//! Rectangular containers addressed by integer coordinates, laid out row by
//! row: the [ValueGrid] and [Grid] traits, and the [BoolGrid],
//! [SimpleValueGrid] and [SimpleGrid] containers.
use crate::point::Point;
use crate::rect::Rect;
use vstd::prelude::*;

verus! {

/// A sequence of `n` copies of `v`.
pub open spec fn filled<T>(n: int, v: T) -> Seq<T> {
    Seq::new(n as nat, |i: int| v)
}

/// Whether `(x, y)` is a cell of a `w` by `h` grid.
pub open spec fn in_bounds(x: int, y: int, w: int, h: int) -> bool {
    0 <= x < w && 0 <= y < h
}

/// Row-major position of `(x, y)` in a grid of width `w`.
pub open spec fn row_major(x: int, y: int, w: int) -> int {
    x + y * w
}

/// Dimensions that a grid can have: each coordinate fits in an `i32` and the
/// number of cells in a `usize`.
pub open spec fn dims_ok(w: int, h: int) -> bool {
    0 <= w <= i32::MAX && 0 <= h <= i32::MAX && w * h <= usize::MAX
}

/// Whether every point of the closed box of `rect` is a cell of a `w` by `h`
/// grid (vacuously true for a box with no points).
pub open spec fn rect_in_bounds(rect: Rect, w: int, h: int) -> bool {
    forall|k: int|
        0 <= k < rect.spec_points_in().len() ==> in_bounds(
            (#[trigger] rect.spec_points_in()[k]).x as int,
            rect.spec_points_in()[k].y as int,
            w,
            h,
        )
}

/// Whether `(x, y)` lies in the half-open box `[x1, x2) x [y1, y2)` of `rect`.
pub open spec fn in_half_open(rect: Rect, x: int, y: int) -> bool {
    rect.x1 <= x < rect.x2 && rect.y1 <= y < rect.y2
}

/// Whether every cell of the half-open box of `rect` is a cell of a `w` by `h`
/// grid (vacuously true for an empty box).
pub open spec fn half_open_in_bounds(rect: Rect, w: int, h: int) -> bool {
    rect.x1 >= rect.x2 || rect.y1 >= rect.y2 || (0 <= rect.x1 && rect.x2 <= w && 0 <= rect.y1
        && rect.y2 <= h)
}

/// The [ValueGrid] trait abstracts over containers of [Copy] items laid out in
/// a rectangle with a certain [width](Self::width) and [height](Self::height).
/// Items are read and written by value; every access must be in bounds.
pub trait ValueGrid<T: Copy>: Sized {
    spec fn spec_width(&self) -> nat;

    spec fn spec_height(&self) -> nat;

    /// The cells, row by row: cell `(x, y)` is at `row_major(x, y, width)`.
    spec fn cells(&self) -> Seq<T>;

    /// Well-formedness of the container.
    spec fn wf(&self) -> bool;

    proof fn lemma_wf(&self)
        requires
            self.wf(),
        ensures
            dims_ok(self.spec_width() as int, self.spec_height() as int),
            self.cells().len() == self.spec_width() * self.spec_height(),
    ;

    /// A `width` by `height` grid with every cell set to `default_value`.
    fn new(width: usize, height: usize, default_value: T) -> (r: Self)
        requires
            dims_ok(width as int, height as int),
        ensures
            r.wf(),
            r.spec_width() == width,
            r.spec_height() == height,
            r.cells() == filled(width * height, default_value),
    ;

    /// The value at `(x, y)`.
    fn get(&self, x: i32, y: i32) -> (r: T)
        requires
            self.wf(),
            in_bounds(x as int, y as int, self.spec_width() as int, self.spec_height() as int),
        ensures
            r == self.cells()[row_major(x as int, y as int, self.spec_width() as int)],
    ;

    /// Overwrites the value at `(x, y)`.
    fn set(&mut self, x: i32, y: i32, value: T)
        requires
            old(self).wf(),
            in_bounds(
                x as int,
                y as int,
                old(self).spec_width() as int,
                old(self).spec_height() as int,
            ),
        ensures
            final(self).wf(),
            final(self).spec_width() == old(self).spec_width(),
            final(self).spec_height() == old(self).spec_height(),
            final(self).cells() == old(self).cells().update(
                row_major(x as int, y as int, old(self).spec_width() as int),
                value,
            ),
    ;

    fn width(&self) -> (r: usize)
        ensures
            r == self.spec_width(),
    ;

    fn height(&self) -> (r: usize)
        ensures
            r == self.spec_height(),
    ;

    fn get_point(&self, point: Point) -> (r: T)
        requires
            self.wf(),
            in_bounds(
                point.x as int,
                point.y as int,
                self.spec_width() as int,
                self.spec_height() as int,
            ),
        ensures
            r == self.cells()[row_major(point.x as int, point.y as int, self.spec_width() as int)],
    {
        self.get(point.x, point.y)
    }

    fn set_point(&mut self, point: Point, value: T)
        requires
            old(self).wf(),
            in_bounds(
                point.x as int,
                point.y as int,
                old(self).spec_width() as int,
                old(self).spec_height() as int,
            ),
        ensures
            final(self).wf(),
            final(self).spec_width() == old(self).spec_width(),
            final(self).spec_height() == old(self).spec_height(),
            final(self).cells() == old(self).cells().update(
                row_major(point.x as int, point.y as int, old(self).spec_width() as int),
                value,
            ),
    {
        self.set(point.x, point.y, value);
    }

    /// Gets the index corresponding to a coordinate, which is row-wise.
    fn get_ix(&self, x: i32, y: i32) -> (r: usize)
        requires
            self.wf(),
            in_bounds(x as int, y as int, self.spec_width() as int, self.spec_height() as int),
        ensures
            r == row_major(x as int, y as int, self.spec_width() as int),
    {
        proof {
            self.lemma_wf();
            lemma_row_major_in_range(
                x as int,
                y as int,
                self.spec_width() as int,
                self.spec_height() as int,
            );
        }
        x as usize + (y as usize) * self.width()
    }

    fn get_ix_point(&self, point: &Point) -> (r: usize)
        requires
            self.wf(),
            in_bounds(
                point.x as int,
                point.y as int,
                self.spec_width() as int,
                self.spec_height() as int,
            ),
        ensures
            r == row_major(point.x as int, point.y as int, self.spec_width() as int),
    {
        self.get_ix(point.x, point.y)
    }

    /// Tests whether a point is in bounds.
    fn point_in_bounds(&self, point: Point) -> (r: bool)
        requires
            self.wf(),
        ensures
            r == in_bounds(
                point.x as int,
                point.y as int,
                self.spec_width() as int,
                self.spec_height() as int,
            ),
    {
        self.index_in_bounds(point.x, point.y)
    }

    /// Tests whether a coordinate is in bounds.
    fn index_in_bounds(&self, x: i32, y: i32) -> (r: bool)
        requires
            self.wf(),
        ensures
            r == in_bounds(x as int, y as int, self.spec_width() as int, self.spec_height() as int),
    {
        proof {
            self.lemma_wf();
        }
        x >= 0 && y >= 0 && x < self.width() as i32 && y < self.height() as i32
    }

    /// Sets every cell of the half-open box `[x1, x2) x [y1, y2)` of `rect` to
    /// `value`.
    fn set_rect(&mut self, rect: Rect, value: T)
        requires
            old(self).wf(),
            half_open_in_bounds(rect, old(self).spec_width() as int, old(self).spec_height() as int),
        ensures
            final(self).wf(),
            final(self).spec_width() == old(self).spec_width(),
            final(self).spec_height() == old(self).spec_height(),
            final(self).cells().len() == old(self).cells().len(),
            forall|x: int, y: int|
                in_bounds(x, y, old(self).spec_width() as int, old(self).spec_height() as int)
                    ==> #[trigger] final(self).cells()[row_major(x, y, old(self).spec_width() as int)]
                    == if in_half_open(rect, x, y) {
                    value
                } else {
                    old(self).cells()[row_major(x, y, old(self).spec_width() as int)]
                },
    {
        let ghost w = self.spec_width() as int;
        let ghost h = self.spec_height() as int;
        proof {
            self.lemma_wf();
        }
        if rect.x1 >= rect.x2 || rect.y1 >= rect.y2 {
            return;
        }
        let mut x = rect.x1;
        while x < rect.x2
            invariant
                rect.x1 <= x <= rect.x2,
                rect.y1 < rect.y2,
                0 <= rect.x1,
                rect.x2 <= w,
                0 <= rect.y1,
                rect.y2 <= h,
                self.wf(),
                self.spec_width() == w,
                self.spec_height() == h,
                self.cells().len() == old(self).cells().len(),
                forall|px: int, py: int|
                    in_bounds(px, py, w, h) ==> #[trigger] self.cells()[row_major(px, py, w)] == if rect.x1
                        <= px < x && rect.y1 <= py < rect.y2 {
                        value
                    } else {
                        old(self).cells()[row_major(px, py, w)]
                    },
            decreases rect.x2 - x,
        {
            let mut y = rect.y1;
            while y < rect.y2
                invariant
                    rect.x1 <= x < rect.x2,
                    rect.y1 <= y <= rect.y2,
                    0 <= rect.x1,
                    rect.x2 <= w,
                    0 <= rect.y1,
                    rect.y2 <= h,
                    self.wf(),
                    self.spec_width() == w,
                    self.spec_height() == h,
                    self.cells().len() == old(self).cells().len(),
                    forall|px: int, py: int|
                        in_bounds(px, py, w, h) ==> #[trigger] self.cells()[row_major(px, py, w)]
                            == if (rect.x1 <= px < x && rect.y1 <= py < rect.y2) || (px == x
                            && rect.y1 <= py < y) {
                            value
                        } else {
                            old(self).cells()[row_major(px, py, w)]
                        },
                decreases rect.y2 - y,
            {
                let ghost before = self.cells();
                proof {
                    self.lemma_wf();
                    lemma_row_major_in_range(x as int, y as int, w, h);
                }
                self.set(x, y, value);
                proof {
                    self.lemma_wf();
                    assert forall|px: int, py: int| in_bounds(px, py, w, h) implies #[trigger] self.cells()[row_major(px, py, w)]
                        == if (rect.x1 <= px < x && rect.y1 <= py < rect.y2) || (px == x
                        && rect.y1 <= py < y + 1) {
                        value
                    } else {
                        old(self).cells()[row_major(px, py, w)]
                    } by {
                        lemma_row_major_injective(px, py, x as int, y as int, w, h);
                        lemma_row_major_in_range(px, py, w, h);
                        assert(before[row_major(px, py, w)] == before[row_major(px, py, w)]);
                    }
                }
                y += 1;
            }
            x += 1;
        }
    }

    /// Retrieves the rectangle corresponding to the grid dimensions at the
    /// origin.
    fn rect(&self) -> (r: Rect)
        requires
            self.wf(),
        ensures
            r == Rect::spec_new(0, 0, self.spec_width() as int, self.spec_height() as int),
    {
        proof {
            self.lemma_wf();
        }
        Rect::new(0, 0, self.width() as i32, self.height() as i32)
    }

    /// Retrieves a column-wise vector of the grid values in the closed box of
    /// `rect`, in the order of [Rect::points_in].
    fn get_rect(&self, rect: Rect) -> (r: Vec<T>)
        requires
            self.wf(),
            rect_in_bounds(rect, self.spec_width() as int, self.spec_height() as int),
        ensures
            r@.len() == rect.spec_points_in().len(),
            forall|k: int|
                0 <= k < r@.len() ==> #[trigger] r@[k] == self.cells()[row_major(
                    rect.spec_points_in()[k].x as int,
                    rect.spec_points_in()[k].y as int,
                    self.spec_width() as int,
                )],
    {
        let points = rect.points_in();
        let mut out: Vec<T> = Vec::new();
        let mut k: usize = 0;
        while k < points.len()
            invariant
                self.wf(),
                points@ == rect.spec_points_in(),
                rect_in_bounds(rect, self.spec_width() as int, self.spec_height() as int),
                0 <= k <= points@.len(),
                out@.len() == k,
                forall|m: int|
                    0 <= m < k ==> #[trigger] out@[m] == self.cells()[row_major(
                        points@[m].x as int,
                        points@[m].y as int,
                        self.spec_width() as int,
                    )],
            decreases points@.len() - k,
        {
            out.push(self.get_point(points[k]));
            k += 1;
        }
        out
    }
}

/// The [Grid] trait abstracts over containers of items laid out in a
/// rectangle with a certain [width](Self::width) and [height](Self::height).
/// Items are accessed by reference using [get](Self::get),
/// [get_mut](Self::get_mut) and related functions, which yield `None` for a
/// coordinate out of bounds.
pub trait Grid<T>: Sized {
    spec fn spec_width(&self) -> nat;

    spec fn spec_height(&self) -> nat;

    /// The cells, row by row: cell `(x, y)` is at `row_major(x, y, width)`.
    spec fn cells(&self) -> Seq<T>;

    /// Well-formedness of the container.
    spec fn wf(&self) -> bool;

    proof fn lemma_wf(&self)
        requires
            self.wf(),
        ensures
            dims_ok(self.spec_width() as int, self.spec_height() as int),
            self.cells().len() == self.spec_width() * self.spec_height(),
    ;

    /// A `width` by `height` grid with every cell a clone of `default_value`.
    fn new(width: usize, height: usize, default_value: T) -> (r: Self) where T: Clone
        requires
            dims_ok(width as int, height as int),
        ensures
            r.wf(),
            r.spec_width() == width,
            r.spec_height() == height,
            forall|i: int|
                0 <= i < width * height ==> cloned(default_value, #[trigger] r.cells()[i]),
    ;

    /// The item at `(x, y)`, or `None` out of bounds.
    fn get(&self, x: i32, y: i32) -> (r: Option<&T>)
        requires
            self.wf(),
        ensures
            in_bounds(x as int, y as int, self.spec_width() as int, self.spec_height() as int)
                ==> r.is_some() && *r.unwrap() == self.cells()[row_major(
                x as int,
                y as int,
                self.spec_width() as int,
            )],
            !in_bounds(x as int, y as int, self.spec_width() as int, self.spec_height() as int)
                ==> r.is_none(),
    ;

    fn get_point(&self, point: Point) -> (r: Option<&T>)
        requires
            self.wf(),
        ensures
            in_bounds(
                point.x as int,
                point.y as int,
                self.spec_width() as int,
                self.spec_height() as int,
            ) ==> r.is_some() && *r.unwrap() == self.cells()[row_major(
                point.x as int,
                point.y as int,
                self.spec_width() as int,
            )],
            !in_bounds(
                point.x as int,
                point.y as int,
                self.spec_width() as int,
                self.spec_height() as int,
            ) ==> r.is_none(),
    {
        self.get(point.x, point.y)
    }

    /// The item at row-major position `ix`, or `None` past the last cell.
    fn get_ix(&self, ix: usize) -> (r: Option<&T>)
        requires
            self.wf(),
        ensures
            ix < self.cells().len() ==> r.is_some() && *r.unwrap() == self.cells()[ix as int],
            ix >= self.cells().len() ==> r.is_none(),
    {
        proof {
            self.lemma_wf();
        }
        let w = self.width();
        if w == 0 {
            return None;
        }
        let i = ix % w;
        let j = ix / w;
        if j >= self.height() {
            proof {
                lemma_past_last_row(ix as int, w as int, self.spec_height() as int);
            }
            return None;
        }
        proof {
            lemma_row_major_of_index(ix as int, w as int, self.spec_height() as int);
        }
        self.get(i as i32, j as i32)
    }

    /// Mutable access to the item at `(x, y)`, or `None` out of bounds.
    fn get_mut(&mut self, x: i32, y: i32) -> (r: Option<&mut T>)
        requires
            old(self).wf(),
        ensures
            in_bounds(
                x as int,
                y as int,
                old(self).spec_width() as int,
                old(self).spec_height() as int,
            ) ==> {
                &&& r.is_some()
                &&& *r.unwrap() == old(self).cells()[row_major(
                    x as int,
                    y as int,
                    old(self).spec_width() as int,
                )]
                &&& final(self).wf()
                &&& final(self).spec_width() == old(self).spec_width()
                &&& final(self).spec_height() == old(self).spec_height()
                &&& final(self).cells() == old(self).cells().update(
                    row_major(x as int, y as int, old(self).spec_width() as int),
                    *final(r.unwrap()),
                )
            },
            !in_bounds(
                x as int,
                y as int,
                old(self).spec_width() as int,
                old(self).spec_height() as int,
            ) ==> r.is_none() && *final(self) == *old(self),
    ;

    fn get_point_mut(&mut self, point: Point) -> (r: Option<&mut T>)
        requires
            old(self).wf(),
        ensures
            in_bounds(
                point.x as int,
                point.y as int,
                old(self).spec_width() as int,
                old(self).spec_height() as int,
            ) ==> {
                &&& r.is_some()
                &&& *r.unwrap() == old(self).cells()[row_major(
                    point.x as int,
                    point.y as int,
                    old(self).spec_width() as int,
                )]
                &&& final(self).wf()
                &&& final(self).spec_width() == old(self).spec_width()
                &&& final(self).spec_height() == old(self).spec_height()
                &&& final(self).cells() == old(self).cells().update(
                    row_major(point.x as int, point.y as int, old(self).spec_width() as int),
                    *final(r.unwrap()),
                )
            },
            !in_bounds(
                point.x as int,
                point.y as int,
                old(self).spec_width() as int,
                old(self).spec_height() as int,
            ) ==> r.is_none() && *final(self) == *old(self),
    {
        self.get_mut(point.x, point.y)
    }

    /// Mutable access to the item at row-major position `ix`, or `None` past
    /// the last cell.
    fn get_ix_mut(&mut self, ix: usize) -> (r: Option<&mut T>)
        requires
            old(self).wf(),
        ensures
            ix < old(self).cells().len() ==> {
                &&& r.is_some()
                &&& *r.unwrap() == old(self).cells()[ix as int]
                &&& final(self).wf()
                &&& final(self).spec_width() == old(self).spec_width()
                &&& final(self).spec_height() == old(self).spec_height()
                &&& final(self).cells() == old(self).cells().update(ix as int, *final(r.unwrap()))
            },
            ix >= old(self).cells().len() ==> r.is_none() && *final(self) == *old(self),
    {
        proof {
            self.lemma_wf();
        }
        let w = self.width();
        if w == 0 {
            return None;
        }
        let i = ix % w;
        let j = ix / w;
        if j >= self.height() {
            proof {
                lemma_past_last_row(ix as int, w as int, self.spec_height() as int);
            }
            return None;
        }
        proof {
            lemma_row_major_of_index(ix as int, w as int, self.spec_height() as int);
        }
        self.get_mut(i as i32, j as i32)
    }

    /// Overwrites the item at `(x, y)`; does nothing out of bounds.
    fn set(&mut self, x: i32, y: i32, value: T)
        requires
            old(self).wf(),
        ensures
            final(self).wf(),
            final(self).spec_width() == old(self).spec_width(),
            final(self).spec_height() == old(self).spec_height(),
            in_bounds(
                x as int,
                y as int,
                old(self).spec_width() as int,
                old(self).spec_height() as int,
            ) ==> final(self).cells() == old(self).cells().update(
                row_major(x as int, y as int, old(self).spec_width() as int),
                value,
            ),
            !in_bounds(
                x as int,
                y as int,
                old(self).spec_width() as int,
                old(self).spec_height() as int,
            ) ==> *final(self) == *old(self),
    {
        match self.get_mut(x, y) {
            Some(r) => {
                *r = value;
            },
            None => {},
        }
    }

    fn set_point(&mut self, point: Point, value: T)
        requires
            old(self).wf(),
        ensures
            final(self).wf(),
            final(self).spec_width() == old(self).spec_width(),
            final(self).spec_height() == old(self).spec_height(),
            in_bounds(
                point.x as int,
                point.y as int,
                old(self).spec_width() as int,
                old(self).spec_height() as int,
            ) ==> final(self).cells() == old(self).cells().update(
                row_major(point.x as int, point.y as int, old(self).spec_width() as int),
                value,
            ),
            !in_bounds(
                point.x as int,
                point.y as int,
                old(self).spec_width() as int,
                old(self).spec_height() as int,
            ) ==> *final(self) == *old(self),
    {
        self.set(point.x, point.y, value);
    }

    /// Overwrites the item at row-major position `ix`; does nothing past the
    /// last cell.
    fn set_ix(&mut self, ix: usize, value: T)
        requires
            old(self).wf(),
        ensures
            final(self).wf(),
            final(self).spec_width() == old(self).spec_width(),
            final(self).spec_height() == old(self).spec_height(),
            ix < old(self).cells().len() ==> final(self).cells() == old(self).cells().update(
                ix as int,
                value,
            ),
            ix >= old(self).cells().len() ==> *final(self) == *old(self),
    {
        match self.get_ix_mut(ix) {
            Some(r) => {
                *r = value;
            },
            None => {},
        }
    }

    fn width(&self) -> (r: usize)
        ensures
            r == self.spec_width(),
    ;

    fn height(&self) -> (r: usize)
        ensures
            r == self.spec_height(),
    ;

    /// Gets the index corresponding to a coordinate, which is row-wise.
    fn compute_ix(&self, x: i32, y: i32) -> (r: usize)
        requires
            self.wf(),
            in_bounds(x as int, y as int, self.spec_width() as int, self.spec_height() as int),
        ensures
            r == row_major(x as int, y as int, self.spec_width() as int),
    {
        proof {
            self.lemma_wf();
            lemma_row_major_in_range(
                x as int,
                y as int,
                self.spec_width() as int,
                self.spec_height() as int,
            );
        }
        x as usize + y as usize * self.width()
    }

    fn get_ix_point(&self, point: &Point) -> (r: usize)
        requires
            self.wf(),
            in_bounds(
                point.x as int,
                point.y as int,
                self.spec_width() as int,
                self.spec_height() as int,
            ),
        ensures
            r == row_major(point.x as int, point.y as int, self.spec_width() as int),
    {
        self.compute_ix(point.x, point.y)
    }

    /// Tests whether a point is in bounds.
    fn point_in_bounds(&self, point: Point) -> (r: bool)
        requires
            self.wf(),
        ensures
            r == in_bounds(
                point.x as int,
                point.y as int,
                self.spec_width() as int,
                self.spec_height() as int,
            ),
    {
        self.index_in_bounds(point.x, point.y)
    }

    /// Tests whether a coordinate is in bounds.
    fn index_in_bounds(&self, x: i32, y: i32) -> (r: bool)
        requires
            self.wf(),
        ensures
            r == in_bounds(x as int, y as int, self.spec_width() as int, self.spec_height() as int),
    {
        proof {
            self.lemma_wf();
        }
        x >= 0 && y >= 0 && x < self.width() as i32 && y < self.height() as i32
    }

    /// Sets every cell of the closed box of `rect` that is in bounds to a
    /// clone of `value`; cells of the box out of bounds are skipped.
    fn set_rect(&mut self, rect: Rect, value: T) where T: Clone
        requires
            old(self).wf(),
        ensures
            final(self).wf(),
            final(self).spec_width() == old(self).spec_width(),
            final(self).spec_height() == old(self).spec_height(),
            final(self).cells().len() == old(self).cells().len(),
            forall|x: int, y: int|
                in_bounds(x, y, old(self).spec_width() as int, old(self).spec_height() as int)
                    ==> if rect.x1 <= x <= rect.x2 && rect.y1 <= y <= rect.y2 {
                    cloned(
                        value,
                        #[trigger] final(self).cells()[row_major(
                            x,
                            y,
                            old(self).spec_width() as int,
                        )],
                    )
                } else {
                    final(self).cells()[row_major(x, y, old(self).spec_width() as int)] == old(
                        self,
                    ).cells()[row_major(x, y, old(self).spec_width() as int)]
                },
    {
        let ghost w = self.spec_width() as int;
        let ghost h = self.spec_height() as int;
        proof {
            self.lemma_wf();
        }
        let nx: i64 = rect.x2 as i64 - rect.x1 as i64 + 1;
        let ny: i64 = rect.y2 as i64 - rect.y1 as i64 + 1;
        if nx <= 0 || ny <= 0 {
            return;
        }
        let mut i: i64 = 0;
        while i < nx
            invariant
                nx == rect.x2 - rect.x1 + 1,
                ny == rect.y2 - rect.y1 + 1,
                ny > 0,
                0 <= i <= nx,
                self.wf(),
                self.spec_width() == w,
                self.spec_height() == h,
                self.cells().len() == old(self).cells().len(),
                forall|px: int, py: int|
                    in_bounds(px, py, w, h) ==> if rect.x1 <= px < rect.x1 + i && rect.y1 <= py
                        <= rect.y2 {
                        cloned(value, #[trigger] self.cells()[row_major(px, py, w)])
                    } else {
                        self.cells()[row_major(px, py, w)] == old(self).cells()[row_major(
                            px,
                            py,
                            w,
                        )]
                    },
            decreases nx - i,
        {
            let mut j: i64 = 0;
            while j < ny
                invariant
                    nx == rect.x2 - rect.x1 + 1,
                    ny == rect.y2 - rect.y1 + 1,
                    0 <= i < nx,
                    0 <= j <= ny,
                    self.wf(),
                    self.spec_width() == w,
                    self.spec_height() == h,
                    self.cells().len() == old(self).cells().len(),
                    forall|px: int, py: int|
                        in_bounds(px, py, w, h) ==> if (rect.x1 <= px < rect.x1 + i && rect.y1
                            <= py <= rect.y2) || (px == rect.x1 + i && rect.y1 <= py < rect.y1
                            + j) {
                            cloned(value, #[trigger] self.cells()[row_major(px, py, w)])
                        } else {
                            self.cells()[row_major(px, py, w)] == old(self).cells()[row_major(
                                px,
                                py,
                                w,
                            )]
                        },
                decreases ny - j,
            {
                let px = (rect.x1 as i64 + i) as i32;
                let py = (rect.y1 as i64 + j) as i32;
                let ghost before = self.cells();
                let c = value.clone();
                proof {
                    self.lemma_wf();
                    assert(cloned(value, c));
                }
                self.set(px, py, c);
                proof {
                    self.lemma_wf();
                    assert forall|qx: int, qy: int| in_bounds(qx, qy, w, h) implies if (rect.x1
                        <= qx < rect.x1 + i && rect.y1 <= qy <= rect.y2) || (qx == rect.x1 + i
                        && rect.y1 <= qy < rect.y1 + j + 1) {
                        cloned(value, #[trigger] self.cells()[row_major(qx, qy, w)])
                    } else {
                        self.cells()[row_major(qx, qy, w)] == old(self).cells()[row_major(
                            qx,
                            qy,
                            w,
                        )]
                    } by {
                        lemma_row_major_in_range(qx, qy, w, h);
                        assert(before[row_major(qx, qy, w)] == before[row_major(qx, qy, w)]);
                        if in_bounds(px as int, py as int, w, h) {
                            lemma_row_major_injective(qx, qy, px as int, py as int, w, h);
                            lemma_row_major_in_range(px as int, py as int, w, h);
                            if qx == px && qy == py {
                                assert(self.cells()[row_major(qx, qy, w)] == c);
                            } else {
                                assert(self.cells()[row_major(qx, qy, w)] == before[row_major(
                                    qx,
                                    qy,
                                    w,
                                )]);
                            }
                        } else {
                            assert(self.cells() == before);
                        }
                    }
                }
                j += 1;
            }
            i += 1;
        }
    }

    /// Retrieves the rectangle corresponding to the grid dimensions at the
    /// origin.
    fn rect(&self) -> (r: Rect)
        requires
            self.wf(),
        ensures
            r == Rect::spec_new(0, 0, self.spec_width() as int, self.spec_height() as int),
    {
        proof {
            self.lemma_wf();
        }
        Rect::new(0, 0, self.width() as i32, self.height() as i32)
    }

    /// Retrieves a column-wise vector of clones of the grid values in the
    /// closed box of `rect`, in the order of [Rect::points_in]; points of the
    /// box out of bounds are skipped.
    fn get_rect(&self, rect: Rect) -> (r: Vec<T>) where T: Clone
        requires
            self.wf(),
        ensures
            r@.len() == points_in_bounds(
                rect.spec_points_in(),
                self.spec_width() as int,
                self.spec_height() as int,
            ).len(),
            forall|k: int|
                0 <= k < r@.len() ==> {
                    let p = points_in_bounds(
                        rect.spec_points_in(),
                        self.spec_width() as int,
                        self.spec_height() as int,
                    )[k];
                    cloned(
                        self.cells()[row_major(p.x as int, p.y as int, self.spec_width() as int)],
                        #[trigger] r@[k],
                    )
                },
    {
        let ghost w = self.spec_width() as int;
        let ghost h = self.spec_height() as int;
        let points = rect.points_in();
        let mut out: Vec<T> = Vec::new();
        let mut k: usize = 0;
        while k < points.len()
            invariant
                self.wf(),
                w == self.spec_width(),
                h == self.spec_height(),
                points@ == rect.spec_points_in(),
                0 <= k <= points@.len(),
                out@.len() == points_in_bounds(points@.take(k as int), w, h).len(),
                forall|m: int|
                    0 <= m < out@.len() ==> {
                        let p = points_in_bounds(points@.take(k as int), w, h)[m];
                        cloned(self.cells()[row_major(p.x as int, p.y as int, w)], #[trigger] out@[m])
                    },
            decreases points@.len() - k,
        {
            proof {
                lemma_points_in_bounds_step(points@, k as int, w, h);
            }
            match self.get_point(points[k]) {
                Some(v) => {
                    out.push(v.clone());
                },
                None => {},
            }
            k += 1;
        }
        proof {
            assert(points@.take(k as int) =~= points@);
        }
        out
    }
}

/// Generic [Grid], one vector slot per cell.
#[derive(Clone, Default, Debug)]
pub struct SimpleGrid<T> {
    pub width: usize,
    pub height: usize,
    pub values: Vec<T>,
}

impl<T> Grid<T> for SimpleGrid<T> {
    open spec fn spec_width(&self) -> nat {
        self.width as nat
    }

    open spec fn spec_height(&self) -> nat {
        self.height as nat
    }

    open spec fn cells(&self) -> Seq<T> {
        self.values@
    }

    open spec fn wf(&self) -> bool {
        &&& dims_ok(self.width as int, self.height as int)
        &&& self.values@.len() == self.width * self.height
    }

    proof fn lemma_wf(&self) {
    }

    fn new(width: usize, height: usize, default_value: T) -> (r: Self) where T: Clone {
        let symbols = vec![default_value; width * height];
        SimpleGrid { width, height, values: symbols }
    }

    fn get(&self, x: i32, y: i32) -> (r: Option<&T>) {
        if self.index_in_bounds(x, y) {
            let ix = self.compute_ix(x, y);
            proof {
                lemma_row_major_in_range(x as int, y as int, self.width as int, self.height as int);
            }
            Some(&self.values[ix])
        } else {
            None
        }
    }

    fn get_mut(&mut self, x: i32, y: i32) -> (r: Option<&mut T>) {
        if self.index_in_bounds(x, y) {
            let ix = self.compute_ix(x, y);
            proof {
                lemma_row_major_in_range(x as int, y as int, self.width as int, self.height as int);
            }
            Some(&mut self.values[ix])
        } else {
            None
        }
    }

    fn width(&self) -> (r: usize) {
        self.width
    }

    fn height(&self) -> (r: usize) {
        self.height
    }
}

/// Position `ix` of a grid of width `w` and height `h` lies in row `ix / w`,
/// column `ix % w`.
proof fn lemma_row_major_of_index(ix: int, w: int, h: int)
    requires
        w > 0,
        0 <= ix,
        ix / w < h,
    ensures
        in_bounds(ix % w, ix / w, w, h),
        row_major(ix % w, ix / w, w) == ix,
        ix < w * h,
{
    vstd::arithmetic::div_mod::lemma_fundamental_div_mod(ix, w);
    vstd::arithmetic::div_mod::lemma_mod_bound(ix, w);
    vstd::arithmetic::div_mod::lemma_div_pos_is_pos(ix, w);
    vstd::arithmetic::mul::lemma_mul_is_commutative(w, ix / w);
    assert(ix < w * h) by (nonlinear_arith)
        requires
            ix == w * (ix / w) + ix % w,
            ix % w < w,
            ix / w < h,
            ix / w >= 0,
    ;
}

/// A position whose row is past the last one is past the last cell.
proof fn lemma_past_last_row(ix: int, w: int, h: int)
    requires
        w > 0,
        0 <= ix,
        ix / w >= h,
    ensures
        ix >= w * h,
{
    vstd::arithmetic::div_mod::lemma_fundamental_div_mod(ix, w);
    vstd::arithmetic::div_mod::lemma_mod_bound(ix, w);
    assert(ix >= w * h) by (nonlinear_arith)
        requires
            ix == w * (ix / w) + ix % w,
            ix % w >= 0,
            ix / w >= h,
            w > 0,
    ;
}

/// The points of `points` that are cells of a `w` by `h` grid, in order.
pub open spec fn points_in_bounds(points: Seq<Point>, w: int, h: int) -> Seq<Point> {
    points.filter(|p: Point| in_bounds(p.x as int, p.y as int, w, h))
}

/// Filtering one more element of a sequence appends it if it passes.
proof fn lemma_points_in_bounds_step(points: Seq<Point>, k: int, w: int, h: int)
    requires
        0 <= k < points.len(),
    ensures
        points_in_bounds(points.take(k + 1), w, h) == if in_bounds(
            points[k].x as int,
            points[k].y as int,
            w,
            h,
        ) {
            points_in_bounds(points.take(k), w, h).push(points[k])
        } else {
            points_in_bounds(points.take(k), w, h)
        },
{
    reveal(Seq::filter);
    assert(points.take(k + 1).drop_last() =~= points.take(k));
    assert(points.take(k + 1).last() == points[k]);
}

/// Whether bit `b` of `word` is set.
pub open spec fn bit_of(word: u64, b: u64) -> bool {
    (word >> b) & 1u64 == 1u64
}

/// Number of 64-bit words that hold `n` bits.
pub open spec fn words_for(n: int) -> int {
    (n + 63) / 64
}

/// Compact bitwise [ValueGrid] of booleans. Cell number `i`, in row-major
/// order, is bit `i % 64` of word `i / 64`.
#[derive(Clone, Default, Debug)]
pub struct BoolGrid {
    pub width: usize,
    pub height: usize,
    pub values: Vec<u64>,
}

impl BoolGrid {
    /// A `width` by `height` grid with every cell set to `default_value`, held
    /// in exactly as many words as its cells need.
    pub fn new(width: usize, height: usize, default_value: bool) -> (r: BoolGrid)
        requires
            dims_ok(width as int, height as int),
        ensures
            r.wf(),
            r.width == width,
            r.height == height,
            r.cells() == filled(width * height, default_value),
    {
        let word: u64 = if default_value {
            u64::MAX
        } else {
            u64::MIN
        };
        let n: usize = width * height;
        let count: usize = if n % 64 == 0 {
            n / 64
        } else {
            n / 64 + 1
        };
        let mut values: Vec<u64> = Vec::new();
        let mut k: usize = 0;
        while k < count
            invariant
                0 <= k <= count,
                values@.len() == k,
                forall|m: int| 0 <= m < k ==> #[trigger] values@[m] == word,
            decreases count - k,
        {
            values.push(word);
            k += 1;
        }
        let r = BoolGrid { width, height, values };
        proof {
            assert(count == words_for(n as int));
            assert forall|i: int| 0 <= i < n implies #[trigger] r.cells()[i] == default_value by {
                let b = (i % 64) as u64;
                assert(i / 64 < count);
                lemma_bit_of_full_or_empty(b);
            }
            assert(r.cells() =~= filled(width * height, default_value));
        }
        r
    }
}

impl ValueGrid<bool> for BoolGrid {
    open spec fn spec_width(&self) -> nat {
        self.width as nat
    }

    open spec fn spec_height(&self) -> nat {
        self.height as nat
    }

    open spec fn cells(&self) -> Seq<bool> {
        Seq::new(
            (self.width * self.height) as nat,
            |i: int| bit_of(self.values@[i / 64], (i % 64) as u64),
        )
    }

    open spec fn wf(&self) -> bool {
        &&& dims_ok(self.width as int, self.height as int)
        &&& self.values@.len() == words_for(self.width * self.height)
    }

    proof fn lemma_wf(&self) {
    }

    fn new(width: usize, height: usize, default_value: bool) -> (r: Self) {
        BoolGrid::new(width, height, default_value)
    }

    fn get(&self, x: i32, y: i32) -> (r: bool) {
        let ix = self.get_ix(x, y);
        proof {
            lemma_row_major_in_range(x as int, y as int, self.width as int, self.height as int);
            lemma_bit_test(self.values@[(ix / 64) as int], (ix % 64) as u64);
        }
        (self.values[ix / 64] & (1u64 << (ix % 64) as u64)) != 0
    }

    fn set(&mut self, x: i32, y: i32, value: bool) {
        let ix = self.get_ix(x, y);
        let ghost w = self.width as int;
        let ghost before = self.cells();
        proof {
            lemma_row_major_in_range(x as int, y as int, self.width as int, self.height as int);
        }
        let wi = ix / 64;
        let b = (ix % 64) as u64;
        let old_word = self.values[wi];
        let new_word = if value {
            old_word | (1u64 << b)
        } else {
            old_word & !(1u64 << b)
        };
        self.values.set(wi, new_word);
        proof {
            let target = row_major(x as int, y as int, w);
            assert forall|i: int| 0 <= i < before.len() implies #[trigger] self.cells()[i] == before.update(
                target,
                value,
            )[i] by {
                lemma_bit_update(old_word, b, (i % 64) as u64);
                if i / 64 == wi as int && i % 64 == b as int {
                    assert(i == target);
                }
            }
            assert(self.cells() =~= before.update(target, value));
        }
    }

    fn width(&self) -> (r: usize) {
        self.width
    }

    fn height(&self) -> (r: usize) {
        self.height
    }
}

/// Generic [ValueGrid] of [Copy] items, one vector slot per cell.
#[derive(Clone, Default, Debug)]
pub struct SimpleValueGrid<T: Copy> {
    pub width: usize,
    pub height: usize,
    pub values: Vec<T>,
}

impl<T: Copy> ValueGrid<T> for SimpleValueGrid<T> {
    open spec fn spec_width(&self) -> nat {
        self.width as nat
    }

    open spec fn spec_height(&self) -> nat {
        self.height as nat
    }

    open spec fn cells(&self) -> Seq<T> {
        self.values@
    }

    open spec fn wf(&self) -> bool {
        &&& dims_ok(self.width as int, self.height as int)
        &&& self.values@.len() == self.width * self.height
    }

    proof fn lemma_wf(&self) {
    }

    fn new(width: usize, height: usize, default_value: T) -> (r: Self) {
        let n: usize = width * height;
        let mut values: Vec<T> = Vec::new();
        let mut k: usize = 0;
        while k < n
            invariant
                0 <= k <= n,
                values@.len() == k,
                forall|m: int| 0 <= m < k ==> #[trigger] values@[m] == default_value,
            decreases n - k,
        {
            values.push(default_value);
            k += 1;
        }
        let r = SimpleValueGrid { width, height, values };
        proof {
            assert(r.values@ =~= filled(width * height, default_value));
        }
        r
    }

    fn get(&self, x: i32, y: i32) -> (r: T) {
        let ix = self.get_ix(x, y);
        proof {
            lemma_row_major_in_range(x as int, y as int, self.width as int, self.height as int);
        }
        self.values[ix]
    }

    fn set(&mut self, x: i32, y: i32, value: T) {
        let ix = self.get_ix(x, y);
        proof {
            lemma_row_major_in_range(x as int, y as int, self.width as int, self.height as int);
        }
        self.values.set(ix, value);
    }

    fn width(&self) -> (r: usize) {
        self.width
    }

    fn height(&self) -> (r: usize) {
        self.height
    }
}

proof fn lemma_bit_of_full_or_empty(b: u64)
    requires
        b < 64,
    ensures
        bit_of(u64::MAX, b),
        !bit_of(0u64, b),
{
    assert((u64::MAX >> b) & 1u64 == 1u64) by (bit_vector)
        requires
            b < 64,
    ;
    assert((0u64 >> b) & 1u64 == 0u64) by (bit_vector);
}

proof fn lemma_bit_test(word: u64, b: u64)
    requires
        b < 64,
    ensures
        ((word & (1u64 << b)) != 0) == bit_of(word, b),
{
    assert(((word & (1u64 << b)) != 0) == ((word >> b) & 1u64 == 1u64)) by (bit_vector)
        requires
            b < 64,
    ;
}

proof fn lemma_bit_update(word: u64, b: u64, c: u64)
    requires
        b < 64,
        c < 64,
    ensures
        bit_of(word | (1u64 << b), c) == (c == b || bit_of(word, c)),
        bit_of(word & !(1u64 << b), c) == (c != b && bit_of(word, c)),
{
    assert((((word | (1u64 << b)) >> c) & 1u64 == 1u64) == (c == b || (word >> c) & 1u64 == 1u64))
        by (bit_vector)
        requires
            b < 64,
            c < 64,
    ;
    assert((((word & !(1u64 << b)) >> c) & 1u64 == 1u64) == (c != b && (word >> c) & 1u64
        == 1u64)) by (bit_vector)
        requires
            b < 64,
            c < 64,
    ;
}

/// An in-bounds coordinate has a row-major position within the cells.
pub proof fn lemma_row_major_in_range(x: int, y: int, w: int, h: int)
    requires
        in_bounds(x, y, w, h),
    ensures
        0 <= row_major(x, y, w) < w * h,
{
    assert(0 <= x + y * w < w * h) by (nonlinear_arith)
        requires
            0 <= x < w,
            0 <= y < h,
    ;
}

/// Two in-bounds coordinates with the same row-major position are equal.
pub proof fn lemma_row_major_injective(x1: int, y1: int, x2: int, y2: int, w: int, h: int)
    requires
        in_bounds(x1, y1, w, h),
        in_bounds(x2, y2, w, h),
    ensures
        row_major(x1, y1, w) == row_major(x2, y2, w) <==> (x1 == x2 && y1 == y2),
{
    if row_major(x1, y1, w) == row_major(x2, y2, w) {
        crate::point::lemma_column_major_index(y1, x1, w);
        crate::point::lemma_column_major_index(y2, x2, w);
    }
}

} // verus!

verus! {

/// Writing one cell and reading any in-bounds cell: the written cell reads the
/// new value, every other cell reads what it held. Both grid traits state
/// their writes as this update of `cells()` and their reads as an index into
/// it.
pub proof fn lemma_write_then_read<T>(
    cells: Seq<T>,
    w: int,
    h: int,
    x: int,
    y: int,
    v: T,
    qx: int,
    qy: int,
)
    requires
        cells.len() == w * h,
        in_bounds(x, y, w, h),
        in_bounds(qx, qy, w, h),
    ensures
        cells.update(row_major(x, y, w), v)[row_major(qx, qy, w)] == if qx == x && qy == y {
            v
        } else {
            cells[row_major(qx, qy, w)]
        },
{
    lemma_row_major_injective(qx, qy, x, y, w, h);
    lemma_row_major_in_range(x, y, w, h);
    lemma_row_major_in_range(qx, qy, w, h);
}

/// The cells after a sequence of writes `(x, y, value)`, applied in order.
pub open spec fn after_writes<T>(cells: Seq<T>, w: int, writes: Seq<(int, int, T)>) -> Seq<T>
    decreases writes.len(),
{
    if writes.len() == 0 {
        cells
    } else {
        let (x, y, v) = writes.last();
        after_writes(cells, w, writes.drop_last()).update(row_major(x, y, w), v)
    }
}

/// The value of the last write to `(qx, qy)` in `writes`, or `default` if
/// there is none.
pub open spec fn last_written<T>(writes: Seq<(int, int, T)>, qx: int, qy: int, default: T) -> T
    decreases writes.len(),
{
    if writes.len() == 0 {
        default
    } else {
        let (x, y, v) = writes.last();
        if x == qx && y == qy {
            v
        } else {
            last_written(writes.drop_last(), qx, qy, default)
        }
    }
}

/// Starting from a grid whose cells all hold `default` (as `new` makes it),
/// after any sequence of in-bounds writes each cell holds the value of the
/// last write to it, or `default` if it was never written. For a [BoolGrid]
/// this is bit-level non-interference: `new` gives `filled(w * h, default)`
/// and each `set` is one step of `after_writes`, whichever words and bits the
/// cells share.
pub proof fn lemma_last_write_wins<T>(
    w: int,
    h: int,
    default: T,
    writes: Seq<(int, int, T)>,
    qx: int,
    qy: int,
)
    requires
        dims_ok(w, h),
        forall|k: int|
            0 <= k < writes.len() ==> in_bounds(
                (#[trigger] writes[k]).0,
                writes[k].1,
                w,
                h,
            ),
        in_bounds(qx, qy, w, h),
    ensures
        after_writes(filled(w * h, default), w, writes).len() == w * h,
        after_writes(filled(w * h, default), w, writes)[row_major(
            qx,
            qy,
            w,
        )] == last_written(writes, qx, qy, default),
    decreases writes.len(),
{
    let init = filled(w * h, default);
    assert(w * h >= 0) by (nonlinear_arith)
        requires
            w >= 0,
            h >= 0,
    ;
    assert(init.len() == w * h);
    lemma_row_major_in_range(qx, qy, w, h);
    if writes.len() > 0 {
        let rest = writes.drop_last();
        assert forall|k: int| 0 <= k < rest.len() implies in_bounds(
            (#[trigger] rest[k]).0,
            rest[k].1,
            w,
            h,
        ) by {
            assert(rest[k] == writes[k]);
        }
        lemma_last_write_wins(w, h, default, rest, qx, qy);
        let (x, y, v) = writes.last();
        assert(in_bounds(writes[writes.len() - 1].0, writes[writes.len() - 1].1, w, h));
        lemma_row_major_in_range(x, y, w, h);
        assert(after_writes(init, w, writes) == after_writes(init, w, rest).update(
            row_major(x, y, w),
            v,
        ));
        lemma_write_then_read(after_writes(init, w, rest), w, h, x, y, v, qx, qy);
    }
}

/// Every position `i` below `w * h` is the number of the cell
/// `(i % w, i / w)`.
proof fn lemma_row_major_covers(i: int, w: int, h: int)
    requires
        dims_ok(w, h),
        0 <= i < w * h,
    ensures
        in_bounds(i % w, i / w, w, h),
        row_major(i % w, i / w, w) == i,
{
    assert(w > 0) by (nonlinear_arith)
        requires
            0 <= i < w * h,
            w >= 0,
            h >= 0,
    ;
    vstd::arithmetic::div_mod::lemma_div_is_ordered(i, w * h - 1, w);
    assert(w * h - 1 == (h - 1) * w + (w - 1)) by (nonlinear_arith);
    vstd::arithmetic::div_mod::lemma_fundamental_div_mod_converse(w * h - 1, w, h - 1, w - 1);
    lemma_row_major_of_index(i, w, h);
}

/// Whether `i` is the row-major number of some cell of a `w` by `h` grid.
pub open spec fn is_cell_number(i: int, w: int, h: int) -> bool {
    exists|x: int, y: int| in_bounds(x, y, w, h) && #[trigger] row_major(x, y, w) == i
}

/// Row-major numbering is a bijection from the in-bounds coordinates of a
/// `w` by `h` grid onto `0..w * h`: it stays in range, sends distinct cells to
/// distinct positions, and every position is the number of some cell.
pub proof fn lemma_row_major_bijection(w: int, h: int)
    requires
        dims_ok(w, h),
    ensures
        forall|x: int, y: int|
            in_bounds(x, y, w, h) ==> 0 <= #[trigger] row_major(x, y, w) < w * h,
        forall|x1: int, y1: int, x2: int, y2: int|
            in_bounds(x1, y1, w, h) && in_bounds(x2, y2, w, h) && #[trigger] row_major(x1, y1, w)
                == #[trigger] row_major(x2, y2, w) ==> x1 == x2 && y1 == y2,
        forall|i: int| 0 <= i < w * h ==> #[trigger] is_cell_number(i, w, h),
{
    assert forall|x: int, y: int| in_bounds(x, y, w, h) implies 0 <= #[trigger] row_major(
        x,
        y,
        w,
    ) < w * h by {
        lemma_row_major_in_range(x, y, w, h);
    }
    assert forall|x1: int, y1: int, x2: int, y2: int|
        in_bounds(x1, y1, w, h) && in_bounds(x2, y2, w, h) && #[trigger] row_major(x1, y1, w)
            == #[trigger] row_major(x2, y2, w) implies x1 == x2 && y1 == y2 by {
        lemma_row_major_injective(x1, y1, x2, y2, w, h);
    }
    assert forall|i: int| 0 <= i < w * h implies #[trigger] is_cell_number(i, w, h) by {
        lemma_row_major_covers(i, w, h);
        assert(in_bounds(i % w, i / w, w, h) && row_major(i % w, i / w, w) == i);
    }
}

} // verus!
