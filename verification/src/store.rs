use vstd::prelude::*;

verus! {

/// A two-dimensional array of integers, kept in an `ndarray::Array2<i64>`.
///
/// Nothing inside the array is visible to the verifier: what it holds is named by
/// [`array_rows`], and the three functions below it are the only way in.
#[verifier::external_body]
pub struct IntArray {
    cells: ndarray::Array2<i64>,
}

/// The rows of an array, outermost index first.
pub uninterp spec fn array_rows(a: IntArray) -> Seq<Seq<i64>>;

/// `ndarray::Array2::from_elem`: a `rows` by `cols` array, every cell a copy of `value`.
///
/// `from_elem` panics where the product of the axis lengths that are not zero exceeds
/// `isize::MAX`, so each length alone is asked to fit: with one axis of length zero
/// the other is still checked. `Vec` panics where the bytes of the cells exceed
/// `isize::MAX`, so their number times eight is asked to fit as well.
#[verifier::external_body]
pub(crate) fn array_filled(rows: usize, cols: usize, value: i64) -> (a: IntArray)
    requires
        rows <= isize::MAX,
        cols <= isize::MAX,
        rows * cols * 8 <= isize::MAX,
    ensures
        array_rows(a) == Seq::new(rows as nat, |i: int| Seq::new(cols as nat, |j: int| value)),
{
    IntArray { cells: ndarray::Array2::from_elem((rows, cols), value) }
}

/// Indexing of `ndarray::Array2` by `[[row, col]]`: the cell at that place. Indexing
/// panics outside the array, so both indices are asked to lie inside.
#[verifier::external_body]
pub(crate) fn array_get(a: &IntArray, row: usize, col: usize) -> (value: i64)
    requires
        row < array_rows(*a).len(),
        col < array_rows(*a)[row as int].len(),
    ensures
        value == array_rows(*a)[row as int][col as int],
{
    a.cells[[row, col]]
}

/// Assignment through `[[row, col]]` on `ndarray::Array2`: that cell takes `value`, and
/// every other cell keeps what it held. Indexing panics outside the array, so both
/// indices are asked to lie inside.
#[verifier::external_body]
pub(crate) fn array_set(a: &mut IntArray, row: usize, col: usize, value: i64)
    requires
        row < array_rows(*old(a)).len(),
        col < array_rows(*old(a))[row as int].len(),
    ensures
        array_rows(*final(a)) == array_rows(*old(a)).update(
            row as int,
            array_rows(*old(a))[row as int].update(col as int, value),
        ),
{
    a.cells[[row, col]] = value;
}

/// Whether `rows` is a square table of side `n`.
pub open spec fn is_square(rows: Seq<Seq<i64>>, n: int) -> bool {
    &&& rows.len() == n
    &&& forall|i: int| 0 <= i < n ==> (#[trigger] rows[i]).len() == n
}

} // verus!
