use vstd::prelude::*;

verus! {

/// Which half of the sphere the Lambert equal-area mapping projects onto.
#[derive(Clone, Copy, PartialEq, Eq, Structural, Debug)]
pub enum Hemisphere {
    Upper,
    Lower,
}

/// Create a meshgrid: two square matrices over the same coordinate axes,
/// the first constant along columns (`r.0[i][j] == x_plane[j]`), the second
/// constant along rows (`r.1[i][j] == y_plane[i]`).
pub fn create_meshgrid<T: Copy>(x_plane: &Vec<T>, y_plane: &Vec<T>) -> (r: (
    Vec<Vec<T>>,
    Vec<Vec<T>>,
))
    requires
        x_plane@.len() == y_plane@.len(),
    ensures
        r.0@.len() == x_plane@.len(),
        r.1@.len() == x_plane@.len(),
        forall|i: int| 0 <= i < r.0@.len() ==> (#[trigger] r.0@[i])@.len() == x_plane@.len(),
        forall|i: int| 0 <= i < r.1@.len() ==> (#[trigger] r.1@[i])@.len() == x_plane@.len(),
        forall|i: int, j: int|
            0 <= i < r.0@.len() && 0 <= j < x_plane@.len() ==> r.0@[i]@[j] == x_plane@[j],
        forall|i: int, j: int|
            0 <= i < r.1@.len() && 0 <= j < x_plane@.len() ==> r.1@[i]@[j] == y_plane@[i],
{
    let n = x_plane.len();
    let mut new_x: Vec<Vec<T>> = Vec::new();
    let mut new_y: Vec<Vec<T>> = Vec::new();
    let mut i: usize = 0;
    while i < n
        invariant
            i <= n,
            n == x_plane@.len(),
            n == y_plane@.len(),
            new_x@.len() == i,
            new_y@.len() == i,
            forall|a: int| 0 <= a < i ==> (#[trigger] new_x@[a])@.len() == n,
            forall|a: int| 0 <= a < i ==> (#[trigger] new_y@[a])@.len() == n,
            forall|a: int, b: int| 0 <= a < i && 0 <= b < n ==> new_x@[a]@[b] == x_plane@[b],
            forall|a: int, b: int| 0 <= a < i && 0 <= b < n ==> new_y@[a]@[b] == y_plane@[a],
        decreases n - i,
    {
        let mut row_x: Vec<T> = Vec::new();
        let mut row_y: Vec<T> = Vec::new();
        let mut j: usize = 0;
        while j < n
            invariant
                j <= n,
                i < n,
                n == x_plane@.len(),
                n == y_plane@.len(),
                row_x@.len() == j,
                row_y@.len() == j,
                forall|b: int| 0 <= b < j ==> row_x@[b] == x_plane@[b],
                forall|b: int| 0 <= b < j ==> row_y@[b] == y_plane@[i as int],
            decreases n - j,
        {
            row_x.push(x_plane[j]);
            row_y.push(y_plane[i]);
            j = j + 1;
        }
        new_x.push(row_x);
        new_y.push(row_y);
        i = i + 1;
    }
    (new_x, new_y)
}

/// The rows of a matrix in reverse order: inverting the vertical axis of a
/// meshgrid flips the planar coordinate that increases downward into one
/// that increases upward.
pub fn reversed_rows<T>(m: Vec<Vec<T>>) -> (r: Vec<Vec<T>>)
    ensures
        r@.len() == m@.len(),
        forall|i: int| 0 <= i < m@.len() ==> r@[i] == m@[m@.len() - 1 - i],
{
    let mut m = m;
    let mut r: Vec<Vec<T>> = Vec::new();
    let ghost orig = m@;
    while m.len() > 0
        invariant
            r@.len() + m@.len() == orig.len(),
            m@ == orig.take(m@.len() as int),
            forall|i: int| 0 <= i < r@.len() ==> r@[i] == orig[orig.len() - 1 - i],
        decreases m@.len(),
    {
        let last = m.pop().unwrap();
        r.push(last);
    }
    r
}

/// Whether the planar (pre-projection) radius of grid cell `(i, j)` of an
/// `n` by `n` Lambert grid stays within the valid projected disk, that is,
/// strictly below `sqrt(2) + 0.001`.
///
/// The planar coordinates of the cell are `X = -sqrt(2) + j * d` and
/// `Z = -sqrt(2) + (n - 1 - i) * d` with spacing `d = 2 * sqrt(2) / (n - 1)`
/// (the vertical axis of the grid is inverted). With `a = 2 * j - (n - 1)`,
/// `b = (n - 1) - 2 * i` and `m = n - 1` this gives
/// `X^2 + Z^2 = 2 * (a^2 + b^2) / m^2`, and the condition
/// `X^2 + Z^2 >= (sqrt(2) + 0.001)^2` is equivalent, by clearing
/// denominators and squaring once more to remove `sqrt(2)`, to
/// `x >= 0 && x^2 >= 8000000 * m^4` where
/// `x = 2000000 * (a^2 + b^2) - 2000001 * m^2`. The comparison below is
/// that exact integer form.
pub open spec fn planar_radius_exceeds_disk(n: int, i: int, j: int) -> bool {
    let m = n - 1;
    let a = 2 * j - m;
    let b = m - 2 * i;
    let s = a * a + b * b;
    let x = 2000000 * s - 2000001 * (m * m);
    x >= 0 && x * x >= 8000000 * (m * m) * (m * m)
}

/// The validity mask of the sampling grid: cell `(i, j)` takes part in the
/// statistics exactly when its planar radius does not reach
/// `sqrt(2) + 0.001`. Cells outside that disk are masked out, not removed,
/// so the grid keeps its fixed dimensions.
pub fn grid_point_is_valid(n: usize, i: usize, j: usize) -> (r: bool)
    requires
        2 <= n <= 100000,
        i < n,
        j < n,
    ensures
        r == !planar_radius_exceeds_disk(n as int, i as int, j as int),
{
    let m: i128 = n as i128 - 1;
    let a: i128 = 2 * j as i128 - m;
    let b: i128 = m - 2 * i as i128;
    proof {
        assert(0 <= a * a <= 100000 * 100000) by (nonlinear_arith)
            requires
                -100000 <= a <= 100000,
        ;
        assert(0 <= b * b <= 100000 * 100000) by (nonlinear_arith)
            requires
                -100000 <= b <= 100000,
        ;
        assert(0 <= m * m <= 100000 * 100000) by (nonlinear_arith)
            requires
                0 <= m <= 100000,
        ;
    }
    let s: i128 = a * a + b * b;
    let mm: i128 = m * m;
    let x: i128 = 2000000 * s - 2000001 * mm;
    proof {
        assert(0 <= x * x <= 0x10000000000000000000000000000) by (nonlinear_arith)
            requires
                -41000000000000000 <= x <= 41000000000000000,
        ;
        assert(0 <= 8000000 * mm * mm <= 0x10000000000000000000000000000) by (nonlinear_arith)
            requires
                0 <= mm <= 10000000000,
        ;
    }
    let exceeds = x >= 0 && x * x >= 8000000 * mm * mm;
    !exceeds
}

} // verus!
