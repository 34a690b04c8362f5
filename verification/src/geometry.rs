//! Points and regions in frame-pixel space, the choice of the largest face
//! and the region that bounds a set of points.

use crate::scalar::Scalar;
use vstd::prelude::*;

verus! {

/// A position in a frame, in pixels, with single-precision coordinates.
#[derive(Clone, Copy, Debug, PartialEq, Eq, Structural)]
pub struct Point {
    pub x: Scalar,
    pub y: Scalar,
}

/// An axis-aligned rectangle: the pixel columns `x .. x + width` and the
/// pixel rows `y .. y + height`.
#[derive(Clone, Copy, Debug, PartialEq, Eq, Structural)]
pub struct Region {
    pub x: i32,
    pub y: i32,
    pub width: i32,
    pub height: i32,
}

impl Point {
    /// Both coordinates are finite numbers.
    pub open spec fn is_finite(self) -> bool {
        self.x.is_finite() && self.y.is_finite()
    }

    /// The pixel column that holds the point.
    pub open spec fn column(self) -> int {
        self.x.spec_floor()
    }

    /// The pixel row that holds the point.
    pub open spec fn row(self) -> int {
        self.y.spec_floor()
    }
}

impl Region {
    /// The area as a mathematical integer: width times height.
    pub open spec fn spec_area(self) -> int {
        self.width * self.height
    }

    /// The area of the region. It is computed in 64 bits, where the product
    /// of two 32-bit sides always fits.
    pub fn area(&self) -> (a: i64)
        ensures
            a == self.spec_area(),
    {
        let w: i64 = self.width as i64;
        let h: i64 = self.height as i64;
        assert(-0x4000_0000_0000_0000 <= w * h <= 0x4000_0000_0000_0000) by (nonlinear_arith)
            requires
                -0x8000_0000 <= w <= 0x7fff_ffff,
                -0x8000_0000 <= h <= 0x7fff_ffff,
        ;
        w * h
    }

    /// The region holds the pixel of the point.
    pub open spec fn holds(self, p: Point) -> bool {
        &&& p.is_finite()
        &&& self.x <= p.column() < self.x + self.width
        &&& self.y <= p.row() < self.y + self.height
    }

    /// The region holds the pixel of every point.
    pub open spec fn encloses(self, points: Seq<Point>) -> bool {
        forall|i: int| 0 <= i < points.len() ==> self.holds(#[trigger] points[i])
    }

    /// Each side of the region passes through the pixel of some point.
    pub open spec fn touches(self, points: Seq<Point>) -> bool {
        &&& exists|i: int| 0 <= i < points.len() && #[trigger] points[i].column() == self.x
        &&& exists|i: int|
            0 <= i < points.len() && #[trigger] points[i].column() == self.x + self.width - 1
        &&& exists|i: int| 0 <= i < points.len() && #[trigger] points[i].row() == self.y
        &&& exists|i: int|
            0 <= i < points.len() && #[trigger] points[i].row() == self.y + self.height - 1
    }

    /// The region is the smallest that holds the pixel of every point.
    pub open spec fn bounds(self, points: Seq<Point>) -> bool {
        self.encloses(points) && self.touches(points)
    }
}

/// `i` is the place of the face that is chosen among `faces`: none has a
/// larger area, and every later one has a smaller area.
pub open spec fn is_largest_face(faces: Seq<Region>, i: int) -> bool {
    &&& 0 <= i < faces.len()
    &&& forall|j: int| 0 <= j < faces.len() ==> (#[trigger] faces[j]).spec_area() <= faces[i].spec_area()
    &&& forall|j: int| i < j < faces.len() ==> (#[trigger] faces[j]).spec_area() < faces[i].spec_area()
}

/// The face with the largest area; of several with that area, the last.
pub open spec fn spec_largest_face(faces: Seq<Region>) -> Option<Region> {
    if faces.len() == 0 {
        None
    } else {
        Some(faces[choose|i: int| is_largest_face(faces, i)])
    }
}

/// Among faces that are not empty there is a largest one, and it is the one
/// that [`spec_largest_face`] names.
pub proof fn lemma_largest_face_exists(faces: Seq<Region>)
    requires
        faces.len() > 0,
    ensures
        exists|i: int| is_largest_face(faces, i),
        spec_largest_face(faces) matches Some(face) && faces.contains(face),
    decreases faces.len(),
{
    let last = faces.len() - 1;
    if faces.len() == 1 {
        assert(is_largest_face(faces, 0));
    } else {
        let shorter = faces.drop_last();
        lemma_largest_face_exists(shorter);
        let k = choose|k: int| is_largest_face(shorter, k);
        assert forall|j: int| 0 <= j < last implies #[trigger] faces[j] == shorter[j] by {}
        if faces[last].spec_area() >= shorter[k].spec_area() {
            assert forall|j: int| 0 <= j < faces.len() implies (#[trigger] faces[j]).spec_area()
                <= faces[last].spec_area() by {
                if j < last {
                    assert(shorter[j].spec_area() <= shorter[k].spec_area());
                }
            }
            assert(is_largest_face(faces, last));
        } else {
            assert forall|j: int| 0 <= j < faces.len() implies (#[trigger] faces[j]).spec_area()
                <= faces[k].spec_area() by {
                if j < last {
                    assert(shorter[j].spec_area() <= shorter[k].spec_area());
                }
            }
            assert forall|j: int| k < j < faces.len() implies (#[trigger] faces[j]).spec_area()
                < faces[k].spec_area() by {
                if j < last {
                    assert(shorter[j].spec_area() < shorter[k].spec_area());
                }
            }
            assert(is_largest_face(faces, k));
        }
    }
    let i = choose|i: int| is_largest_face(faces, i);
    assert(faces[i] == faces[i]);
}

/// Only one place is that of the largest face.
pub proof fn lemma_largest_face_is_unique(faces: Seq<Region>, i: int, j: int)
    requires
        is_largest_face(faces, i),
        is_largest_face(faces, j),
    ensures
        i == j,
{
    if i < j {
        assert(faces[j].spec_area() < faces[i].spec_area());
        assert(faces[i].spec_area() <= faces[j].spec_area());
    } else if j < i {
        assert(faces[i].spec_area() < faces[j].spec_area());
        assert(faces[j].spec_area() <= faces[i].spec_area());
    }
}

/// Picks the face with the largest area. Where several have that area, the
/// last of them is picked. There is none exactly if `faces` is empty.
pub fn find_largest_face(faces: &Vec<Region>) -> (largest: Option<Region>)
    ensures
        largest == spec_largest_face(faces@),
        largest is None <==> faces@.len() == 0,
        largest matches Some(face) ==> exists|i: int|
            is_largest_face(faces@, i) && faces@[i] == face,
{
    if faces.len() == 0 {
        return None;
    }
    let mut best: usize = 0;
    let mut best_area: i64 = faces[0].area();
    let mut i: usize = 1;
    while i < faces.len()
        invariant
            1 <= i <= faces.len(),
            best < i,
            best_area == faces@[best as int].spec_area(),
            is_largest_face(faces@.take(i as int), best as int),
        decreases faces.len() - i,
    {
        let area = faces[i].area();
        proof {
            let before = faces@.take(i as int);
            let after = faces@.take(i + 1);
            assert forall|j: int| 0 <= j < i implies #[trigger] after[j] == before[j] by {}
            if area >= best_area {
                assert forall|j: int| 0 <= j < after.len() implies (#[trigger] after[j]).spec_area()
                    <= after[i as int].spec_area() by {
                    if j < i {
                        assert(before[j].spec_area() <= before[best as int].spec_area());
                    }
                }
            } else {
                assert forall|j: int| 0 <= j < after.len() implies (#[trigger] after[j]).spec_area()
                    <= after[best as int].spec_area() by {
                    if j < i {
                        assert(before[j].spec_area() <= before[best as int].spec_area());
                    }
                }
                assert forall|j: int| best < j < after.len() implies (#[trigger] after[j]).spec_area()
                    < after[best as int].spec_area() by {
                    if j < i {
                        assert(before[j].spec_area() < before[best as int].spec_area());
                    }
                }
            }
        }
        if area >= best_area {
            best = i;
            best_area = area;
        }
        i += 1;
    }
    proof {
        assert(faces@.take(i as int) =~= faces@);
        let chosen = choose|k: int| is_largest_face(faces@, k);
        lemma_largest_face_is_unique(faces@, best as int, chosen);
    }
    Some(faces[best])
}

/// The smallest region that holds the pixel of every point, where there is
/// one: the points are not empty, their coordinates are finite, and the
/// sides of the region fit in 32 bits.
pub open spec fn spec_face_rectangle(points: Seq<Point>) -> Option<Region> {
    if exists|region: Region| region.bounds(points) {
        Some(choose|region: Region| region.bounds(points))
    } else {
        None
    }
}

/// Only one region bounds a set of points.
pub proof fn lemma_bounding_region_is_unique(points: Seq<Point>, a: Region, b: Region)
    requires
        a.bounds(points),
        b.bounds(points),
    ensures
        a == b,
{
    let a_left = choose|i: int| 0 <= i < points.len() && #[trigger] points[i].column() == a.x;
    let b_left = choose|i: int| 0 <= i < points.len() && #[trigger] points[i].column() == b.x;
    let a_right = choose|i: int|
        0 <= i < points.len() && #[trigger] points[i].column() == a.x + a.width - 1;
    let b_right = choose|i: int|
        0 <= i < points.len() && #[trigger] points[i].column() == b.x + b.width - 1;
    let a_top = choose|i: int| 0 <= i < points.len() && #[trigger] points[i].row() == a.y;
    let b_top = choose|i: int| 0 <= i < points.len() && #[trigger] points[i].row() == b.y;
    let a_bottom = choose|i: int|
        0 <= i < points.len() && #[trigger] points[i].row() == a.y + a.height - 1;
    let b_bottom = choose|i: int|
        0 <= i < points.len() && #[trigger] points[i].row() == b.y + b.height - 1;
    assert(b.holds(points[a_left]) && a.holds(points[b_left]));
    assert(b.holds(points[a_right]) && a.holds(points[b_right]));
    assert(b.holds(points[a_top]) && a.holds(points[b_top]));
    assert(b.holds(points[a_bottom]) && a.holds(points[b_bottom]));
}

/// The pixel of a point can be named in 64 bits: the point is finite and
/// its column and row are 64-bit integers.
pub open spec fn has_pixel(p: Point) -> bool {
    &&& p.is_finite()
    &&& i64::MIN <= p.column() <= i64::MAX
    &&& i64::MIN <= p.row() <= i64::MAX
}

/// The column and the row of the pixel that holds the point, where they can
/// be named in 64 bits.
fn pixel(p: &Point) -> (cell: Option<(i64, i64)>)
    ensures
        cell is Some <==> has_pixel(*p),
        cell matches Some(at) ==> at.0 == p.column() && at.1 == p.row(),
{
    match (p.x.floor(), p.y.floor()) {
        (Some(column), Some(row)) => Some((column, row)),
        _ => None,
    }
}

/// No region holds a point whose pixel cannot be named in 64 bits.
proof fn lemma_no_region_for(points: Seq<Point>, i: int)
    requires
        0 <= i < points.len(),
        !has_pixel(points[i]),
    ensures
        forall|region: Region| !region.bounds(points),
        spec_face_rectangle(points) is None,
{
    assert forall|region: Region| !region.bounds(points) by {
        if region.bounds(points) {
            assert(region.holds(points[i]));
        }
    }
}

/// The columns of all points lie between those of two of them.
spec fn columns_span(points: Seq<Point>, low: int, high: int) -> bool {
    &&& 0 <= low < points.len()
    &&& 0 <= high < points.len()
    &&& forall|j: int|
        0 <= j < points.len() ==> points[low].column() <= (#[trigger] points[j]).column()
            <= points[high].column()
}

/// The rows of all points lie between those of two of them.
spec fn rows_span(points: Seq<Point>, low: int, high: int) -> bool {
    &&& 0 <= low < points.len()
    &&& 0 <= high < points.len()
    &&& forall|j: int|
        0 <= j < points.len() ==> points[low].row() <= (#[trigger] points[j]).row()
            <= points[high].row()
}

/// No region bounds points whose columns span more than 32 bits can say.
proof fn lemma_no_region_spans_columns(points: Seq<Point>, low: int, high: int)
    requires
        columns_span(points, low, high),
        points[low].column() < i32::MIN || points[low].column() > i32::MAX
            || points[high].column() - points[low].column() + 1 > i32::MAX,
    ensures
        forall|region: Region| !region.bounds(points),
        spec_face_rectangle(points) is None,
{
    assert forall|region: Region| !region.bounds(points) by {
        if region.bounds(points) {
            assert(region.holds(points[low]));
            assert(region.holds(points[high]));
            let left = choose|i: int|
                0 <= i < points.len() && #[trigger] points[i].column() == region.x;
            assert(points[low].column() <= points[left].column());
        }
    }
}

/// No region bounds points whose rows span more than 32 bits can say.
proof fn lemma_no_region_spans_rows(points: Seq<Point>, low: int, high: int)
    requires
        rows_span(points, low, high),
        points[low].row() < i32::MIN || points[low].row() > i32::MAX || points[high].row()
            - points[low].row() + 1 > i32::MAX,
    ensures
        forall|region: Region| !region.bounds(points),
        spec_face_rectangle(points) is None,
{
    assert forall|region: Region| !region.bounds(points) by {
        if region.bounds(points) {
            assert(region.holds(points[low]));
            assert(region.holds(points[high]));
            let top = choose|i: int| 0 <= i < points.len() && #[trigger] points[i].row() == region.y;
            assert(points[low].row() <= points[top].row());
        }
    }
}

/// The region from the least to the greatest column and row bounds the
/// points.
proof fn lemma_region_bounds(
    points: Seq<Point>,
    region: Region,
    left: int,
    right: int,
    top: int,
    bottom: int,
)
    requires
        forall|j: int| 0 <= j < points.len() ==> (#[trigger] points[j]).is_finite(),
        columns_span(points, left, right),
        rows_span(points, top, bottom),
        region.x == points[left].column(),
        region.x + region.width - 1 == points[right].column(),
        region.y == points[top].row(),
        region.y + region.height - 1 == points[bottom].row(),
    ensures
        region.bounds(points),
        spec_face_rectangle(points) == Some(region),
{
    assert forall|j: int| 0 <= j < points.len() implies region.holds(#[trigger] points[j]) by {
        assert(points[left].column() <= points[j].column() <= points[right].column());
        assert(points[top].row() <= points[j].row() <= points[bottom].row());
    }
    assert(points[left].column() == region.x);
    assert(points[right].column() == region.x + region.width - 1);
    assert(points[top].row() == region.y);
    assert(points[bottom].row() == region.y + region.height - 1);
    assert(region.touches(points));
    assert(region.encloses(points));
    assert(region.bounds(points));
    lemma_bounding_region_is_unique(points, region, choose|other: Region| other.bounds(points));
}

/// Derives the region around a set of points: the smallest region that
/// holds the pixel of every point. There is none where `points` is empty,
/// where a coordinate is an infinity or a not-a-number, or where a side of
/// the region would not fit in 32 bits.
pub fn find_face_rectangle(points: &Vec<Point>) -> (rectangle: Option<Region>)
    ensures
        rectangle == spec_face_rectangle(points@),
        match rectangle {
            Some(region) => region.bounds(points@),
            None => forall|region: Region| !region.bounds(points@),
        },
{
    if points.len() == 0 {
        return None;
    }
    let mut min_x: i64 = 0;
    let mut max_x: i64 = 0;
    let mut min_y: i64 = 0;
    let mut max_y: i64 = 0;
    let ghost mut left: int = 0;
    let ghost mut right: int = 0;
    let ghost mut top: int = 0;
    let ghost mut bottom: int = 0;
    let mut i: usize = 0;
    while i < points.len()
        invariant
            0 <= i <= points.len(),
            forall|j: int| 0 <= j < i ==> (#[trigger] points@[j]).is_finite(),
            i > 0 ==> columns_span(points@.take(i as int), left, right),
            i > 0 ==> rows_span(points@.take(i as int), top, bottom),
            i > 0 ==> min_x == points@[left].column() && max_x == points@[right].column(),
            i > 0 ==> min_y == points@[top].row() && max_y == points@[bottom].row(),
        decreases points.len() - i,
    {
        let ghost before = points@.take(i as int);
        let ghost after = points@.take(i + 1);
        match pixel(&points[i]) {
            Some((column, row)) => {
                if i == 0 || column < min_x {
                    min_x = column;
                    proof {
                        left = i as int;
                    }
                }
                if i == 0 || column > max_x {
                    max_x = column;
                    proof {
                        right = i as int;
                    }
                }
                if i == 0 || row < min_y {
                    min_y = row;
                    proof {
                        top = i as int;
                    }
                }
                if i == 0 || row > max_y {
                    max_y = row;
                    proof {
                        bottom = i as int;
                    }
                }
            },
            None => {
                proof {
                    lemma_no_region_for(points@, i as int);
                }
                return None;
            },
        }
        proof {
            assert forall|j: int| 0 <= j < after.len() implies after[left].column() <= (
            #[trigger] after[j]).column() <= after[right].column() by {
                if j < i {
                    assert(before[j] == after[j]);
                }
            }
            assert forall|j: int| 0 <= j < after.len() implies after[top].row() <= (
            #[trigger] after[j]).row() <= after[bottom].row() by {
                if j < i {
                    assert(before[j] == after[j]);
                }
            }
        }
        i += 1;
    }
    proof {
        assert(points@.take(i as int) =~= points@);
    }
    let low: i64 = i32::MIN as i64;
    let high: i64 = i32::MAX as i64;
    if min_x < low || min_x > high || max_x > min_x + (high - 1) {
        proof {
            lemma_no_region_spans_columns(points@, left, right);
        }
        return None;
    }
    if min_y < low || min_y > high || max_y > min_y + (high - 1) {
        proof {
            lemma_no_region_spans_rows(points@, top, bottom);
        }
        return None;
    }
    let region = Region {
        x: min_x as i32,
        y: min_y as i32,
        width: (max_x - min_x + 1) as i32,
        height: (max_y - min_y + 1) as i32,
    };
    proof {
        lemma_region_bounds(points@, region, left, right, top, bottom);
    }
    Some(region)
}

} // verus!
