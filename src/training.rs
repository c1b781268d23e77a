//! The training set of a Gaussian process: rows of one width, one output each.

use vstd::prelude::*;

use crate::covariance::matrix_view;
use crate::shape::{uniform_width, validate_rows, validate_training_set, width_check, ShapeError};

verus! {

/// Input rows of a common width, paired one to one with outputs; never empty.
pub struct TrainingSet<V> {
    inputs: Vec<Vec<V>>,
    outputs: Vec<V>,
    width: usize,
}

impl<V> TrainingSet<V> {
    /// At least one row, one output per row, and every row of the set's width.
    pub closed spec fn well_formed(&self) -> bool {
        &&& self.inputs@.len() >= 1
        &&& self.outputs@.len() == self.inputs@.len()
        &&& uniform_width(self.inputs@, self.width as nat)
    }

    /// The input rows.
    pub closed spec fn input_rows(&self) -> Seq<Seq<V>> {
        matrix_view(self.inputs@)
    }

    /// The outputs, one per input row.
    pub closed spec fn output_values(&self) -> Seq<V> {
        self.outputs@
    }

    /// The common width of the input rows.
    pub closed spec fn row_width(&self) -> nat {
        self.width as nat
    }

    /// What holds of every training set.
    pub proof fn lemma_well_formed(&self)
        requires
            self.well_formed(),
        ensures
            self.input_rows().len() >= 1,
            self.output_values().len() == self.input_rows().len(),
            forall|i: int|
                0 <= i < self.input_rows().len() ==> (#[trigger] self.input_rows()[i]).len()
                    == self.row_width(),
    {
    }

    /// Builds a training set, refusing an empty one, one with a number of
    /// outputs other than the number of rows, or rows of differing widths.
    pub fn new(inputs: Vec<Vec<V>>, outputs: Vec<V>) -> (r: Result<Self, ShapeError>)
        ensures
            training_check(
                inputs@,
                outputs@,
                match r {
                    Ok(t) => Ok(t.row_width() as usize),
                    Err(e) => Err(e),
                },
            ),
            r matches Ok(t) ==> t.well_formed() && t.input_rows() == matrix_view(inputs@)
                && t.output_values() == outputs@,
    {
        match validate_training_set(&inputs, &outputs) {
            Ok(width) => Ok(TrainingSet { inputs, outputs, width }),
            Err(e) => Err(e),
        }
    }

    /// Appends rows and their outputs. The new rows must have the width of the
    /// set and come with one output each; otherwise nothing changes. Appending
    /// nothing leaves the set as it was.
    pub fn extend(&mut self, new_inputs: Vec<Vec<V>>, new_outputs: Vec<V>) -> (r: Result<(), ShapeError>)
        requires
            old(self).well_formed(),
        ensures
            final(self).well_formed(),
            extension_check(old(self).row_width(), new_inputs@, new_outputs@, r),
            r is Ok ==> final(self).input_rows() == old(self).input_rows() + matrix_view(new_inputs@)
                && final(self).output_values() == old(self).output_values() + new_outputs@,
            r is Err ==> *final(self) == *old(self),
            new_inputs@.len() == 0 && new_outputs@.len() == 0 ==> r is Ok && *final(self) == *old(self),
            final(self).row_width() == old(self).row_width(),
    {
        if new_outputs.len() != new_inputs.len() {
            return Err(
                ShapeError::LengthMismatch { inputs: new_inputs.len(), outputs: new_outputs.len() },
            );
        }
        if new_inputs.len() == 0 {
            return Ok(());
        }
        match self.validate_queries(&new_inputs) {
            Ok(()) => {},
            Err(e) => {
                return Err(e);
            },
        }
        let ghost old_inputs = self.inputs@;
        let mut new_inputs = new_inputs;
        let mut new_outputs = new_outputs;
        let ghost added = new_inputs@;
        self.inputs.append(&mut new_inputs);
        self.outputs.append(&mut new_outputs);
        proof {
            assert(matrix_view(self.inputs@) =~= matrix_view(old_inputs) + matrix_view(added));
            assert forall|i: int| 0 <= i < self.inputs@.len() implies #[trigger] self.inputs@[i]@.len()
                == self.width by {
                if i >= old_inputs.len() {
                    assert(self.inputs@[i] == added[i - old_inputs.len()]);
                }
            }
        }
        Ok(())
    }

    /// Checks rows on which the process is to be queried: at least one row,
    /// and every row of the set's width.
    pub fn validate_queries(&self, rows: &Vec<Vec<V>>) -> (r: Result<(), ShapeError>)
        ensures
            query_check(self.row_width(), rows@, r),
            r is Ok <==> rows@.len() > 0 && uniform_width(rows@, self.row_width()),
    {
        match validate_rows(rows) {
            Ok(w) => {
                if w != self.width {
                    Err(ShapeError::RowWidth { row: 0, expected: self.width, found: w })
                } else {
                    Ok(())
                }
            },
            Err(e) => Err(e),
        }
    }

    /// The input rows.
    pub fn inputs(&self) -> (r: &Vec<Vec<V>>)
        ensures
            matrix_view(r@) == self.input_rows(),
    {
        &self.inputs
    }

    /// The outputs, one per input row.
    pub fn outputs(&self) -> (r: &Vec<V>)
        ensures
            r@ == self.output_values(),
    {
        &self.outputs
    }

    /// The common width of the input rows.
    pub fn width(&self) -> (r: usize)
        ensures
            r == self.row_width(),
    {
        self.width
    }

    /// The number of rows.
    pub fn len(&self) -> (r: usize)
        ensures
            r == self.input_rows().len(),
    {
        self.inputs.len()
    }
}

/// `r` is what checking a training set gives: the first error met (no row,
/// then a count mismatch, then a row of another width), or the common width.
pub open spec fn training_check<V>(inputs: Seq<Vec<V>>, outputs: Seq<V>, r: Result<usize, ShapeError>) -> bool {
    if inputs.len() == 0 {
        r == Err::<usize, ShapeError>(ShapeError::Empty)
    } else if outputs.len() != inputs.len() {
        r == Err::<usize, ShapeError>(
            ShapeError::LengthMismatch { inputs: inputs.len() as usize, outputs: outputs.len() as usize },
        )
    } else {
        width_check(inputs, r)
    }
}

/// `r` is what checking query rows against a set of width `w` gives: no row,
/// then a row of another width than the first, then a first row of another
/// width than the set's; or success.
pub open spec fn query_check<V>(w: nat, rows: Seq<Vec<V>>, r: Result<(), ShapeError>) -> bool {
    if rows.len() == 0 {
        r == Err::<(), ShapeError>(ShapeError::Empty)
    } else if !uniform_width(rows, rows[0]@.len()) {
        width_check(rows, match r { Ok(_) => Ok(0usize), Err(e) => Err(e) })
    } else if rows[0]@.len() != w {
        r == Err::<(), ShapeError>(
            ShapeError::RowWidth { row: 0, expected: w as usize, found: rows[0]@.len() as usize },
        )
    } else {
        r is Ok
    }
}

/// `r` is what checking rows to be appended to a set of width `w` gives: a
/// count mismatch, then success for no rows, then what `query_check` gives.
pub open spec fn extension_check<V>(w: nat, inputs: Seq<Vec<V>>, outputs: Seq<V>, r: Result<(), ShapeError>) -> bool {
    if outputs.len() != inputs.len() {
        r == Err::<(), ShapeError>(
            ShapeError::LengthMismatch { inputs: inputs.len() as usize, outputs: outputs.len() as usize },
        )
    } else if inputs.len() == 0 {
        r is Ok
    } else {
        query_check(w, inputs, r)
    }
}

} // verus!
