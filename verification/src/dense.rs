//! Dense vectors and matrices of scalars, stored in `ndarray` arrays.
//!
//! Verus cannot look into an `ndarray` array. What an array holds is given a
//! name here, and each call into `ndarray` is a small trusted function whose
//! contract says, over those names, what the call does. Everything public is
//! verified against those contracts.
use ndarray::{stack, Array1, Array2, Axis, ShapeBuilder, ShapeError};
use vstd::prelude::*;

verus! {

/// A one-dimensional array of scalars.
///
/// Trusted: the field is an `ndarray::Array1<u64>`, which Verus does not
/// read. `vector_cells` names what it holds.
#[verifier::external_body]
pub struct Vector {
    cells: Array1<u64>,
}

/// A two-dimensional array of scalars.
///
/// Trusted: the field is an `ndarray::Array2<u64>`, which Verus does not
/// read. `matrix_rows`, `matrix_cols` and `matrix_cells` name its shape and
/// what it holds.
#[verifier::external_body]
pub struct Matrix {
    cells: Array2<u64>,
}

/// Trusted: `ndarray::ShapeError`, the error of `ndarray::stack`, carried
/// through unread.
#[verifier::external_type_specification]
#[verifier::external_body]
pub struct ExShapeError(ShapeError);

/// The elements of a vector, in index order.
pub uninterp spec fn vector_cells(v: Vector) -> Seq<u64>;

/// The length of a matrix along its first axis.
pub uninterp spec fn matrix_rows(a: Matrix) -> nat;

/// The length of a matrix along its second axis.
pub uninterp spec fn matrix_cols(a: Matrix) -> nat;

/// The elements of a matrix, keyed by (row, column). Only keys within the
/// shape matter.
pub uninterp spec fn matrix_cells(a: Matrix) -> Map<(int, int), u64>;

/// Whether `ndarray` can allocate a `rows` by `cols` array of scalars: each
/// axis and the byte size of the whole must fit in `isize`.
pub open spec fn storable(rows: nat, cols: nat) -> bool {
    &&& rows <= isize::MAX
    &&& cols <= isize::MAX
    &&& 8 * rows * cols <= isize::MAX
}

/// A shape within a storable shape is storable.
pub proof fn lemma_storable_within(rows: nat, cols: nat, fewer_rows: nat, fewer_cols: nat)
    requires
        storable(rows, cols),
        fewer_rows <= rows,
        fewer_cols <= cols,
    ensures
        storable(fewer_rows, fewer_cols),
{
    assert(8 * fewer_rows * fewer_cols <= 8 * rows * cols) by (nonlinear_arith)
        requires
            fewer_rows <= rows,
            fewer_cols <= cols,
    ;
}

/// Whether a `rows` by `cols` matrix can be stored.
pub fn can_store(rows: usize, cols: usize) -> (b: bool)
    ensures
        b == storable(rows as nat, cols as nat),
{
    let limit: usize = isize::MAX as usize;
    if rows > limit || cols > limit {
        return false;
    }
    assert(8 * rows * cols == 8 * (rows * cols)) by (nonlinear_arith);
    match rows.checked_mul(cols) {
        Some(cells) => match cells.checked_mul(8) {
            Some(bytes) => bytes <= limit,
            None => false,
        },
        None => false,
    }
}

impl View for Vector {
    type V = Seq<u64>;

    open spec fn view(&self) -> Seq<u64> {
        vector_cells(*self)
    }
}

/// Calls `From<Vec<A>>::from` of `ndarray::Array1`.
///
/// Trusted: the array holds the elements of `v` in their order. (The call
/// panics only for elements of size zero.)
#[verifier::external_body]
fn array_from_vec(v: Vec<u64>) -> (r: Vector)
    ensures
        vector_cells(r) == v@,
{
    Vector { cells: Array1::from(v) }
}

/// Calls `ndarray::ArrayBase::to_vec`.
///
/// Trusted: the result holds the elements of the array in index order.
#[verifier::external_body]
fn array_to_vec(v: &Vector) -> (r: Vec<u64>)
    ensures
        r@ == vector_cells(*v),
{
    v.cells.to_vec()
}

/// Calls `ndarray::ArrayBase::len`.
///
/// Trusted: for a one-dimensional array it is the number of elements.
#[verifier::external_body]
fn array_len(v: &Vector) -> (n: usize)
    ensures
        n == vector_cells(*v).len(),
{
    v.cells.len()
}

/// Calls `Index::index` of `ndarray::ArrayBase` with a `usize`.
///
/// Trusted: it returns the element at that index. It panics on an index out
/// of bounds, which the precondition excludes.
#[verifier::external_body]
fn array_get(v: &Vector, i: usize) -> (x: u64)
    requires
        i < vector_cells(*v).len(),
    ensures
        x == vector_cells(*v)[i as int],
{
    v.cells[i]
}

/// Calls `ndarray::ArrayBase::zeros` with a column-major shape.
///
/// Trusted: the array has that shape and every element is 0. It panics when
/// the shape is too large, which `storable` excludes.
#[verifier::external_body]
fn array_zeros(rows: usize, cols: usize) -> (r: Matrix)
    requires
        storable(rows as nat, cols as nat),
    ensures
        matrix_rows(r) == rows,
        matrix_cols(r) == cols,
        forall|i: int, j: int|
            0 <= i < rows && 0 <= j < cols ==> #[trigger] matrix_cells(r)[(i, j)] == 0,
{
    Matrix { cells: Array2::zeros((rows, cols).f()) }
}

/// Calls `ndarray::ArrayBase::len_of`.
///
/// Trusted: for a two-dimensional array it is the number of rows for axis 0
/// and the number of columns for axis 1. It panics on any other axis, which
/// the precondition excludes.
#[verifier::external_body]
fn array_len_of(a: &Matrix, axis: usize) -> (n: usize)
    requires
        axis < 2,
    ensures
        n == if axis == 0 { matrix_rows(*a) } else { matrix_cols(*a) },
{
    a.cells.len_of(Axis(axis))
}

/// Calls `Index::index` of `ndarray::ArrayBase` with a (row, column) pair.
///
/// Trusted: it returns the element of that row and column. It panics on an
/// index out of bounds, which the precondition excludes.
#[verifier::external_body]
fn array_get2(a: &Matrix, i: usize, j: usize) -> (x: u64)
    requires
        i < matrix_rows(*a),
        j < matrix_cols(*a),
    ensures
        x == matrix_cells(*a)[(i as int, j as int)],
{
    a.cells[(i, j)]
}

/// Assigns through `IndexMut::index_mut` of `ndarray::ArrayBase` with a
/// (row, column) pair.
///
/// Trusted: the element of that row and column is replaced and nothing else
/// changes. It panics on an index out of bounds, which the precondition
/// excludes.
#[verifier::external_body]
fn array_put2(a: &mut Matrix, i: usize, j: usize, x: u64)
    requires
        i < matrix_rows(*old(a)),
        j < matrix_cols(*old(a)),
    ensures
        matrix_rows(*final(a)) == matrix_rows(*old(a)),
        matrix_cols(*final(a)) == matrix_cols(*old(a)),
        matrix_cells(*final(a)) == matrix_cells(*old(a)).insert((i as int, j as int), x),
{
    a.cells[(i, j)] = x;
}

/// Calls `ndarray::stack` along axis 1 on views of the two arrays.
///
/// Trusted: it fails exactly when the two differ in their number of rows
/// (`storable` excludes a result too large to allocate, its other cause of
/// failure); otherwise the result has the rows of both and holds the columns
/// of `a` followed by those of `b`.
#[verifier::external_body]
fn array_stack(a: &Matrix, b: &Matrix) -> (r: Result<Matrix, ShapeError>)
    requires
        storable(matrix_rows(*a), matrix_cols(*a) + matrix_cols(*b)),
    ensures
        (r is Ok) <==> matrix_rows(*a) == matrix_rows(*b),
        r matches Ok(s) ==> ({
            &&& matrix_rows(s) == matrix_rows(*a)
            &&& matrix_cols(s) == matrix_cols(*a) + matrix_cols(*b)
            &&& forall|i: int, j: int|
                0 <= i < matrix_rows(*a) && 0 <= j < matrix_cols(*a) ==> #[trigger] matrix_cells(
                    s,
                )[(i, j)] == matrix_cells(*a)[(i, j)]
            &&& forall|i: int, j: int|
                0 <= i < matrix_rows(*a) && matrix_cols(*a) <= j < matrix_cols(*a) + matrix_cols(*b)
                    ==> #[trigger] matrix_cells(s)[(i, j)] == matrix_cells(*b)[(
                    i,
                    j - matrix_cols(*a),
                )]
        }),
{
    stack(Axis(1), &[a.cells.view(), b.cells.view()]).map(|cells| Matrix { cells })
}

/// Calls `Clone::clone` of `ndarray::ArrayBase`.
///
/// Trusted: the copy has the same shape and the same elements.
#[verifier::external_body]
fn array_clone(a: &Matrix) -> (r: Matrix)
    ensures
        matrix_rows(r) == matrix_rows(*a),
        matrix_cols(r) == matrix_cols(*a),
        matrix_cells(r) == matrix_cells(*a),
{
    Matrix { cells: a.cells.clone() }
}

impl Vector {
    /// Takes over the elements of `v`.
    pub fn from_vec(v: Vec<u64>) -> (r: Vector)
        ensures
            r@ == v@,
    {
        array_from_vec(v)
    }

    /// Copies the elements out.
    pub fn to_vec(&self) -> (r: Vec<u64>)
        ensures
            r@ == self@,
    {
        array_to_vec(self)
    }

    /// The number of elements.
    pub fn len(&self) -> (n: usize)
        ensures
            n == self@.len(),
    {
        array_len(self)
    }

    /// The element at `i`.
    pub fn get(&self, i: usize) -> (x: u64)
        requires
            i < self@.len(),
        ensures
            x == self@[i as int],
    {
        array_get(self, i)
    }
}

impl Matrix {
    /// The number of rows.
    pub open spec fn nrows(&self) -> nat {
        matrix_rows(*self)
    }

    /// The number of columns.
    pub open spec fn ncols(&self) -> nat {
        matrix_cols(*self)
    }

    /// The element in row `i` of column `j`.
    pub open spec fn at(&self, i: int, j: int) -> u64 {
        matrix_cells(*self)[(i, j)]
    }

    /// Column `j`, top to bottom.
    pub open spec fn column(&self, j: int) -> Seq<u64> {
        Seq::new(self.nrows(), |i: int| self.at(i, j))
    }

    /// The columns, left to right.
    pub open spec fn columns(&self) -> Seq<Seq<u64>> {
        Seq::new(self.ncols(), |j: int| self.column(j))
    }

    /// A `rows` by `cols` matrix of zeros.
    pub fn zeros(rows: usize, cols: usize) -> (r: Matrix)
        requires
            storable(rows as nat, cols as nat),
        ensures
            r.nrows() == rows,
            r.ncols() == cols,
            forall|i: int, j: int| 0 <= i < rows && 0 <= j < cols ==> r.at(i, j) == 0,
    {
        array_zeros(rows, cols)
    }

    /// The number of rows.
    pub fn rows(&self) -> (n: usize)
        ensures
            n == self.nrows(),
    {
        array_len_of(self, 0)
    }

    /// The number of columns.
    pub fn cols(&self) -> (n: usize)
        ensures
            n == self.ncols(),
    {
        array_len_of(self, 1)
    }

    /// The element in row `i` of column `j`.
    pub fn get(&self, i: usize, j: usize) -> (x: u64)
        requires
            i < self.nrows(),
            j < self.ncols(),
        ensures
            x == self.at(i as int, j as int),
    {
        array_get2(self, i, j)
    }

    /// Replaces the element in row `i` of column `j`.
    pub fn set(&mut self, i: usize, j: usize, x: u64)
        requires
            i < old(self).nrows(),
            j < old(self).ncols(),
        ensures
            final(self).nrows() == old(self).nrows(),
            final(self).ncols() == old(self).ncols(),
            final(self).at(i as int, j as int) == x,
            forall|k: int, l: int|
                (k, l) != (i as int, j as int) ==> final(self).at(k, l) == old(self).at(k, l),
    {
        array_put2(self, i, j, x);
    }

    /// The columns of `self` followed by those of `other`, or nothing when
    /// the two differ in their number of rows.
    pub fn hstack(&self, other: &Matrix) -> (r: Option<Matrix>)
        requires
            storable(self.nrows(), self.ncols() + other.ncols()),
        ensures
            (r is Some) <==> self.nrows() == other.nrows(),
            r matches Some(s) ==> s.nrows() == self.nrows() && s.columns() == self.columns()
                + other.columns(),
    {
        match array_stack(self, other) {
            Ok(s) => {
                assert(s.columns() =~~= self.columns() + other.columns());
                Some(s)
            },
            Err(_) => None,
        }
    }
}

impl Clone for Matrix {
    /// A matrix of the same shape and elements.
    fn clone(&self) -> (r: Self)
        ensures
            r.nrows() == self.nrows(),
            r.ncols() == self.ncols(),
            r.columns() == self.columns(),
    {
        let r = array_clone(self);
        assert(r.columns() =~~= self.columns());
        r
    }
}

} // verus!
