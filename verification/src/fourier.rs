use vstd::prelude::*;
use crate::raster::{DielectricGrid, EngineError, MAX_GRID_SIZE};
use crate::store::{array_filled, array_get, array_rows, array_set, is_square, IntArray};

verus! {

/// One complex number with whole parts.
#[derive(Debug, Clone, Copy, PartialEq, Eq, Structural)]
pub struct Coefficient {
    pub re: i64,
    pub im: i64,
}

/// The sum of one row of samples.
pub open spec fn row_sum(row: Seq<int>) -> int
    decreases row.len(),
{
    if row.len() == 0 {
        0
    } else {
        row_sum(row.drop_last()) + row.last()
    }
}

/// The sum of all samples of a grid.
pub open spec fn grid_sum(rows: Seq<Seq<int>>) -> int
    decreases rows.len(),
{
    if rows.len() == 0 {
        0
    } else {
        grid_sum(rows.drop_last()) + row_sum(rows.last())
    }
}

/// The zero-mean field of a grid of side `n`, times `n * n`: each sample less the
/// mean of all, with the division left out so that the value is whole.
pub open spec fn zero_mean(rows: Seq<Seq<int>>, n: int) -> Seq<Seq<int>> {
    Seq::new(
        n as nat,
        |i: int| Seq::new(n as nat, |j: int| n * n * rows[i][j] - grid_sum(rows)),
    )
}

/// The rows of a field that is held as a vector of vectors.
pub open spec fn field_rows(field: Vec<Vec<i64>>) -> Seq<Seq<int>> {
    Seq::new(
        field@.len(),
        |i: int| Seq::new(field@[i]@.len(), |j: int| field@[i]@[j] as int),
    )
}

/// Where the raw transform holds what the centred table shows at `index`: the table
/// is the raw transform moved cyclically by `n / 2` along the axis.
pub open spec fn source_index(index: int, n: int) -> int {
    (index + n - n / 2) % n
}

/// The centred table of side `n`: the raw transform `raw`, whose order (0, 0) stands
/// at index (0, 0), moved cyclically so that this order stands at `(n / 2, n / 2)`, and
/// that entry replaced by `(total, 0)`.
pub open spec fn centered(raw: Seq<Seq<Coefficient>>, total: int, n: int) -> Seq<
    Seq<Coefficient>,
> {
    Seq::new(
        n as nat,
        |r: int|
            Seq::new(
                n as nat,
                |c: int|
                    if r == n / 2 && c == n / 2 {
                        Coefficient { re: total as i64, im: 0 }
                    } else {
                        raw[source_index(r, n)][source_index(c, n)]
                    },
            ),
    )
}

/// The rows of a table that is held as a vector of vectors.
pub open spec fn rows_of(table: Vec<Vec<Coefficient>>) -> Seq<Seq<Coefficient>> {
    Seq::new(table@.len(), |i: int| table@[i]@)
}

/// Whether every row of `rows` has `n` entries, and there are `n` rows.
pub open spec fn is_square_table(rows: Seq<Seq<Coefficient>>, n: int) -> bool {
    &&& rows.len() == n
    &&& forall|i: int| 0 <= i < n ==> (#[trigger] rows[i]).len() == n
}

proof fn lemma_row_sum_step(row: Seq<int>, j: int)
    requires
        0 <= j < row.len(),
    ensures
        row_sum(row.take(j + 1)) == row_sum(row.take(j)) + row[j],
{
    let next = row.take(j + 1);
    assert(next.last() == row[j]);
    assert(next.drop_last() =~= row.take(j));
}

proof fn lemma_grid_sum_step(rows: Seq<Seq<int>>, i: int)
    requires
        0 <= i < rows.len(),
    ensures
        grid_sum(rows.take(i + 1)) == grid_sum(rows.take(i)) + row_sum(rows[i]),
{
    let next = rows.take(i + 1);
    assert(next.last() == rows[i]);
    assert(next.drop_last() =~= rows.take(i));
}

proof fn lemma_row_sum_affine(row: Seq<int>, out: Seq<int>, c: int, s: int)
    requires
        out.len() == row.len(),
        forall|j: int| 0 <= j < row.len() ==> #[trigger] out[j] == c * row[j] - s,
    ensures
        row_sum(out) == c * row_sum(row) - row.len() * s,
    decreases row.len(),
{
    if row.len() > 0 {
        lemma_row_sum_affine(row.drop_last(), out.drop_last(), c, s);
        let len = row.len() as int;
        let head = row_sum(row.drop_last());
        let last = row.last();
        assert(out.last() == c * last - s);
        assert(row.drop_last().len() == len - 1);
        assert(row_sum(out) == (c * head - (len - 1) * s) + (c * last - s));
        assert(c * head - (len - 1) * s + (c * last - s) == c * (head + last) - len * s)
            by (nonlinear_arith);
    } else {
        assert(c * 0 - 0 * s == 0) by (nonlinear_arith);
    }
}

proof fn lemma_grid_sum_affine(rows: Seq<Seq<int>>, out: Seq<Seq<int>>, c: int, s: int, n: int)
    requires
        out.len() == rows.len(),
        forall|i: int| 0 <= i < rows.len() ==> (#[trigger] rows[i]).len() == n,
        forall|i: int| 0 <= i < rows.len() ==> (#[trigger] out[i]).len() == n,
        forall|i: int, j: int|
            0 <= i < rows.len() && 0 <= j < n ==> #[trigger] out[i][j] == c * rows[i][j] - s,
    ensures
        grid_sum(out) == c * grid_sum(rows) - rows.len() * n * s,
    decreases rows.len(),
{
    if rows.len() > 0 {
        lemma_grid_sum_affine(rows.drop_last(), out.drop_last(), c, s, n);
        lemma_row_sum_affine(rows.last(), out.last(), c, s);
        let len = rows.len() as int;
        let head = grid_sum(rows.drop_last());
        let last = row_sum(rows.last());
        assert(rows.drop_last().len() == len - 1);
        assert(rows.last().len() == n);
        assert(grid_sum(out) == (c * head - (len - 1) * n * s) + (c * last - n * s));
        assert(c * head - (len - 1) * n * s + (c * last - n * s) == c * (head + last) - len * n * s)
            by (nonlinear_arith);
    } else {
        assert(c * 0 - 0 * n * s == 0) by (nonlinear_arith);
    }
}

/// The zero-mean field of a square grid sums to zero: its coefficient of order (0, 0)
/// vanishes, which is why the table holds the mean of the grid there instead.
pub proof fn lemma_zero_mean_sums_to_zero(rows: Seq<Seq<int>>, n: int)
    requires
        rows.len() == n,
        forall|i: int| 0 <= i < n ==> (#[trigger] rows[i]).len() == n,
    ensures
        grid_sum(zero_mean(rows, n)) == 0,
{
    lemma_grid_sum_affine(rows, zero_mean(rows, n), n * n, grid_sum(rows), n);
    assert((n * n) * grid_sum(rows) - n * n * grid_sum(rows) == 0) by (nonlinear_arith);
}

impl DielectricGrid {
    /// The sum of all samples: the mean of the grid times the number of its pixels.
    pub fn sum(&self) -> (total: i64)
        requires
            self.wf(),
        ensures
            total == grid_sum(self@),
            0 <= total <= self.side() * 0xffff_ffff_0000,
    {
        let n = self.size();
        let mut total: i64 = 0;
        let mut i: usize = 0;
        while i < n
            invariant
                self.wf(),
                n == self.side(),
                i <= n,
                total == grid_sum(self@.take(i as int)),
                0 <= total <= i * 0xffff_ffff_0000,
            decreases n - i,
        {
            let mut line: i64 = 0;
            let mut j: usize = 0;
            while j < n
                invariant
                    self.wf(),
                    n == self.side(),
                    i < n,
                    j <= n,
                    line == row_sum(self@[i as int].take(j as int)),
                    0 <= line <= j * 0xffff_ffff,
                decreases n - j,
            {
                let value = self.sample(i, j);
                proof {
                    lemma_row_sum_step(self@[i as int], j as int);
                }
                line = line + value;
                j += 1;
            }
            proof {
                assert(self@[i as int].take(n as int) =~= self@[i as int]);
                lemma_grid_sum_step(self@, i as int);
            }
            total = total + line;
            i += 1;
        }
        proof {
            assert(self@.take(n as int) =~= self@);
        }
        total
    }
}

/// What [`calculate_all_xi`] returns for a grid of side `side` and sum `total`, asked
/// for size `grid_size` and handed the raw transform `raw`.
pub open spec fn table_for(
    side: int,
    total: int,
    grid_size: int,
    raw: Seq<Seq<Coefficient>>,
) -> Result<Seq<Seq<Coefficient>>, EngineError> {
    if grid_size != side || !is_square_table(raw, grid_size) {
        Err(EngineError::InvalidGeometry)
    } else {
        Ok(centered(raw, total, grid_size))
    }
}

/// An `n` by `n` table of Fourier coefficients, order (0, 0) at `(n / 2, n / 2)`.
///
/// Every entry is a numerator over `n * n`, in the unit of the grid's samples: the
/// coefficient of order `(m, k)` is the entry at `(m + n / 2, k + n / 2)` divided by
/// `n * n`.
pub struct FourierTable {
    re: IntArray,
    im: IntArray,
    size: usize,
}

impl FourierTable {
    /// The entries, row by row.
    pub closed spec fn view(&self) -> Seq<Seq<Coefficient>> {
        Seq::new(
            self.size as nat,
            |r: int|
                Seq::new(
                    self.size as nat,
                    |c: int|
                        Coefficient { re: array_rows(self.re)[r][c], im: array_rows(self.im)[r][c] },
                ),
        )
    }

    /// The side of the table.
    pub closed spec fn side(&self) -> int {
        self.size as int
    }

    /// What every entry is a numerator over: the number of pixels.
    pub open spec fn denominator(&self) -> int {
        self.side() * self.side()
    }

    /// Both parts are held as squares of the table's side.
    pub closed spec fn wf(&self) -> bool {
        &&& 1 <= self.size <= MAX_GRID_SIZE
        &&& is_square(array_rows(self.re), self.size as int)
        &&& is_square(array_rows(self.im), self.size as int)
    }

    /// The side of the table.
    pub fn size(&self) -> (n: usize)
        ensures
            n == self.side(),
    {
        self.size
    }

    /// The entry at `row`, `col`.
    pub fn get(&self, row: usize, col: usize) -> (entry: Coefficient)
        requires
            self.wf(),
            row < self.side(),
            col < self.side(),
        ensures
            entry == self@[row as int][col as int],
    {
        Coefficient { re: array_get(&self.re, row, col), im: array_get(&self.im, row, col) }
    }

    /// The entry of diffraction order `(m, k)`, for orders from `-(n / 2)` up to, not
    /// including, `n - n / 2`; `None` for any other.
    pub fn order(&self, m: i64, k: i64) -> (entry: Option<Coefficient>)
        requires
            self.wf(),
        ensures
            entry is Some <==> (-(self.side() / 2) <= m < self.side() - self.side() / 2 && -(
            self.side() / 2) <= k < self.side() - self.side() / 2),
            entry is Some ==> entry.unwrap() == self@[m + self.side() / 2][k + self.side() / 2],
    {
        let half: i64 = (self.size / 2) as i64;
        let n: i64 = self.size as i64;
        if m < -half || m >= n - half || k < -half || k >= n - half {
            None
        } else {
            Some(self.get((m + half) as usize, (k + half) as usize))
        }
    }
}

impl DielectricGrid {
    /// The zero-mean field, times the number of pixels: at `(i, j)` the sample times
    /// `n * n`, less the sum of all samples. This is what the transform is applied to.
    pub fn zero_mean_field(&self) -> (field: Vec<Vec<i64>>)
        requires
            self.wf(),
        ensures
            field_rows(field) == zero_mean(self@, self.side()),
            field@.len() == self.side(),
            forall|i: int| 0 <= i < self.side() ==> (#[trigger] field@[i])@.len() == self.side(),
            forall|i: int, j: int|
                0 <= i < self.side() && 0 <= j < self.side() ==> (#[trigger] field@[i]@[j])
                    == self.side() * self.side() * self@[i][j] - grid_sum(self@),
    {
        let n = self.size();
        let total = self.sum();
        assert(n * n <= 0x1000_0000) by (nonlinear_arith)
            requires
                n <= 16383,
        ;
        let cells: i64 = (n * n) as i64;
        let mut field: Vec<Vec<i64>> = Vec::new();
        let mut i: usize = 0;
        while i < n
            invariant
                self.wf(),
                n == self.side(),
                i <= n,
                cells == n * n,
                0 <= cells <= 0x1000_0000,
                total == grid_sum(self@),
                0 <= total <= n * 0xffff_ffff_0000,
                field@.len() == i,
                forall|r: int| 0 <= r < i ==> (#[trigger] field@[r])@.len() == n,
                forall|r: int, c: int|
                    0 <= r < i && 0 <= c < n ==> (#[trigger] field@[r]@[c]) == zero_mean(
                        self@,
                        n as int,
                    )[r][c],
            decreases n - i,
        {
            let mut line: Vec<i64> = Vec::new();
            let mut j: usize = 0;
            while j < n
                invariant
                    self.wf(),
                    n == self.side(),
                    i < n,
                    j <= n,
                    cells == n * n,
                    0 <= cells <= 0x1000_0000,
                    total == grid_sum(self@),
                    0 <= total <= n * 0xffff_ffff_0000,
                    line@.len() == j,
                    forall|c: int|
                        0 <= c < j ==> (#[trigger] line@[c]) == zero_mean(self@, n as int)[i as int][c],
                decreases n - j,
            {
                let value = self.sample(i, j);
                assert(0 <= cells * value <= 0x1000_0000 * 0xffff_ffff) by (nonlinear_arith)
                    requires
                        0 <= cells <= 0x1000_0000,
                        0 <= value <= 0xffff_ffff,
                ;
                line.push(cells * value - total);
                j += 1;
            }
            field.push(line);
            i += 1;
        }
        proof {
            assert(field_rows(field) =~~= zero_mean(self@, n as int));
        }
        field
    }
}

/// Whether `table` has `n` rows of `n` entries each.
pub fn has_side(table: &Vec<Vec<Coefficient>>, n: usize) -> (b: bool)
    ensures
        b == is_square_table(rows_of(*table), n as int),
{
    if table.len() != n {
        return false;
    }
    let mut i: usize = 0;
    while i < n
        invariant
            table@.len() == n,
            i <= n,
            forall|r: int| 0 <= r < i ==> (#[trigger] rows_of(*table)[r]).len() == n,
        decreases n - i,
    {
        if table[i].len() != n {
            assert(rows_of(*table)[i as int].len() != n);
            return false;
        }
        i += 1;
    }
    true
}

/// The coefficient table of `grid`, from the raw transform of its zero-mean field.
///
/// `spectrum` is the two-dimensional discrete transform with the positive exponent,
/// `sum over (i, j) of field[i][j] * exp(+2 pi i (m i + k j) / n)`, of
/// `grid.zero_mean_field()`, divided by `n * n` and rounded to whole parts, with order
/// `(m, k)` at index `(m mod n, k mod n)`. The table is that transform moved
/// cyclically so that order (0, 0) stands at `(n / 2, n / 2)`, and there it holds
/// exactly the sum of the grid's samples and no imaginary part, whatever `spectrum`
/// holds for that order. A `grid_size` other than the grid's side, or a `spectrum` of
/// another shape, is `InvalidGeometry`.
pub fn calculate_all_xi(
    grid: &DielectricGrid,
    grid_size: usize,
    spectrum: &Vec<Vec<Coefficient>>,
) -> (res: Result<FourierTable, EngineError>)
    requires
        grid.wf(),
    ensures
        res is Ok <==> table_for(grid.side(), grid_sum(grid@), grid_size as int, rows_of(*spectrum))
            is Ok,
        res is Ok ==> res.unwrap().wf() && res.unwrap().side() == grid_size && Ok::<
            Seq<Seq<Coefficient>>,
            EngineError,
        >(res.unwrap()@) == table_for(
            grid.side(),
            grid_sum(grid@),
            grid_size as int,
            rows_of(*spectrum),
        ),
        res is Err ==> Err::<Seq<Seq<Coefficient>>, EngineError>(res->Err_0) == table_for(
            grid.side(),
            grid_sum(grid@),
            grid_size as int,
            rows_of(*spectrum),
        ),
        res is Ok ==> res.unwrap()@[grid_size as int / 2][grid_size as int / 2].re == grid_sum(
            grid@,
        ) && res.unwrap()@[grid_size as int / 2][grid_size as int / 2].im == 0
            && res.unwrap().denominator() == grid_size * grid_size,
{
    let n = grid.size();
    if grid_size != n || !has_side(spectrum, n) {
        return Err(EngineError::InvalidGeometry);
    }
    let total = grid.sum();
    let half = n / 2;
    assert(n * n * 8 <= isize::MAX) by (nonlinear_arith)
        requires
            n <= 16383,
            isize::MAX >= 0x7fff_ffff,
    ;
    let mut re = array_filled(n, n, 0);
    let mut im = array_filled(n, n, 0);
    let ghost raw = rows_of(*spectrum);
    let ghost target = centered(raw, total as int, n as int);
    let mut r: usize = 0;
    while r < n
        invariant
            1 <= n <= MAX_GRID_SIZE,
            half == n / 2,
            r <= n,
            raw == rows_of(*spectrum),
            is_square_table(raw, n as int),
            target == centered(raw, total as int, n as int),
            is_square(array_rows(re), n as int),
            is_square(array_rows(im), n as int),
            forall|p: int, q: int|
                0 <= p < r && 0 <= q < n ==> (#[trigger] array_rows(re)[p][q]) == target[p][q].re,
            forall|p: int, q: int|
                0 <= p < r && 0 <= q < n ==> (#[trigger] array_rows(im)[p][q]) == target[p][q].im,
        decreases n - r,
    {
        let from_row = (r + n - half) % n;
        let mut c: usize = 0;
        while c < n
            invariant
                1 <= n <= MAX_GRID_SIZE,
                half == n / 2,
                r < n,
                c <= n,
                from_row == source_index(r as int, n as int),
                raw == rows_of(*spectrum),
                is_square_table(raw, n as int),
                target == centered(raw, total as int, n as int),
                is_square(array_rows(re), n as int),
                is_square(array_rows(im), n as int),
                forall|p: int, q: int|
                    0 <= p < r && 0 <= q < n ==> (#[trigger] array_rows(re)[p][q])
                        == target[p][q].re,
                forall|p: int, q: int|
                    0 <= p < r && 0 <= q < n ==> (#[trigger] array_rows(im)[p][q])
                        == target[p][q].im,
                forall|q: int|
                    0 <= q < c ==> (#[trigger] array_rows(re)[r as int][q]) == target[r as int][q].re,
                forall|q: int|
                    0 <= q < c ==> (#[trigger] array_rows(im)[r as int][q]) == target[r as int][q].im,
            decreases n - c,
        {
            let from_col = (c + n - half) % n;
            let entry = if r == half && c == half {
                Coefficient { re: total, im: 0 }
            } else {
                assert(raw[from_row as int] == spectrum@[from_row as int]@);
                spectrum[from_row][from_col]
            };
            assert(entry == target[r as int][c as int]);
            array_set(&mut re, r, c, entry.re);
            array_set(&mut im, r, c, entry.im);
            c += 1;
        }
        r += 1;
    }
    let table = FourierTable { re, im, size: n };
    proof {
        assert(table@ =~~= target);
    }
    Ok(table)
}

} // verus!
