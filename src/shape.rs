//! Shape checks made before any numeric work.

use vstd::prelude::*;

verus! {

/// Why a batch of rows, or a training set, was refused.
#[derive(Debug, Clone, Copy, PartialEq, Eq)]
pub enum ShapeError {
    /// There is not a single row.
    Empty,
    /// The number of outputs differs from the number of input rows.
    LengthMismatch { inputs: usize, outputs: usize },
    /// Row `row` has `found` columns where the first row has `expected`.
    RowWidth { row: usize, expected: usize, found: usize },
}

/// Every row of `rows` has `w` columns.
pub open spec fn uniform_width<V>(rows: Seq<Vec<V>>, w: nat) -> bool {
    forall|i: int| 0 <= i < rows.len() ==> #[trigger] rows[i]@.len() == w
}

/// `k` is the first row of `rows` whose width is not `w`.
pub open spec fn first_bad_row<V>(rows: Seq<Vec<V>>, w: nat, k: int) -> bool {
    &&& 0 <= k < rows.len()
    &&& rows[k]@.len() != w
    &&& forall|i: int| 0 <= i < k ==> #[trigger] rows[i]@.len() == w
}

/// What checking the widths of a non-empty batch of rows gives: the common
/// width, or the first row that departs from the width of row 0.
pub open spec fn width_check<V>(rows: Seq<Vec<V>>, r: Result<usize, ShapeError>) -> bool {
    let w = rows[0]@.len();
    match r {
        Ok(n) => n == w && uniform_width(rows, w),
        Err(ShapeError::RowWidth { row, expected, found }) => {
            &&& first_bad_row(rows, w, row as int)
            &&& expected == w
            &&& found == rows[row as int]@.len()
        },
        Err(_) => false,
    }
}

/// Checks that a batch of query rows is non-empty and that all its rows have
/// the same width; returns that width.
pub fn validate_rows<V>(rows: &Vec<Vec<V>>) -> (r: Result<usize, ShapeError>)
    ensures
        rows@.len() == 0 <==> r == Err::<usize, ShapeError>(ShapeError::Empty),
        rows@.len() > 0 ==> width_check(rows@, r),
{
    if rows.len() == 0 {
        return Err(ShapeError::Empty);
    }
    let w = rows[0].len();
    let mut i: usize = 1;
    while i < rows.len()
        invariant
            1 <= i <= rows@.len(),
            w == rows@[0]@.len(),
            forall|k: int| 0 <= k < i ==> #[trigger] rows@[k]@.len() == w,
        decreases rows@.len() - i,
    {
        let found = rows[i].len();
        if found != w {
            return Err(ShapeError::RowWidth { row: i, expected: w, found });
        }
        i = i + 1;
    }
    Ok(w)
}

/// Checks a training set: at least one row, one output per row, and rows of
/// one width; returns that width.
pub fn validate_training_set<V>(inputs: &Vec<Vec<V>>, outputs: &Vec<V>) -> (r: Result<
    usize,
    ShapeError,
>)
    ensures
        inputs@.len() == 0 <==> r == Err::<usize, ShapeError>(ShapeError::Empty),
        inputs@.len() > 0 && outputs@.len() != inputs@.len() <==> r == Err::<usize, ShapeError>(
            ShapeError::LengthMismatch { inputs: inputs@.len() as usize, outputs: outputs@.len() as usize },
        ),
        inputs@.len() > 0 && outputs@.len() == inputs@.len() ==> width_check(inputs@, r),
{
    if inputs.len() == 0 {
        return Err(ShapeError::Empty);
    }
    if outputs.len() != inputs.len() {
        return Err(ShapeError::LengthMismatch { inputs: inputs.len(), outputs: outputs.len() });
    }
    validate_rows(inputs)
}

} // verus!
