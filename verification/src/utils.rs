//! Small shared pieces: the outer product, the checkpoint policy, and the
//! in-memory dataset the trainer draws samples from.

use vstd::prelude::*;
use crate::fx::{fx_mul, fx_ok, sp_mul};
use crate::tensor::Tensor3;

verus! {

/// Computes the outer product of two vectors: row `i` holds
/// `x[i] * y[j]` for every `j`.
pub fn outer(x: Vec<i64>, y: Vec<i64>) -> (r: Vec<Vec<i64>>)
    requires
        forall|i: int| 0 <= i < x@.len() ==> fx_ok(#[trigger] x@[i] as int),
        forall|j: int| 0 <= j < y@.len() ==> fx_ok(#[trigger] y@[j] as int),
    ensures
        r@.len() == x@.len(),
        forall|i: int| 0 <= i < r@.len() ==> #[trigger] r@[i]@.len() == y@.len(),
        forall|i: int, j: int|
            0 <= i < r@.len() && 0 <= j < y@.len() ==> #[trigger] r@[i]@[j] as int == sp_mul(
                x@[i] as int,
                y@[j] as int,
            ),
{
    let mut r: Vec<Vec<i64>> = Vec::new();
    let mut i: usize = 0;
    while i < x.len()
        invariant
            i <= x@.len(),
            forall|k: int| 0 <= k < x@.len() ==> fx_ok(#[trigger] x@[k] as int),
            forall|k: int| 0 <= k < y@.len() ==> fx_ok(#[trigger] y@[k] as int),
            r@.len() == i,
            forall|k: int| 0 <= k < i ==> #[trigger] r@[k]@.len() == y@.len(),
            forall|k: int, j: int|
                0 <= k < i && 0 <= j < y@.len() ==> #[trigger] r@[k]@[j] as int == sp_mul(
                    x@[k] as int,
                    y@[j] as int,
                ),
        decreases x@.len() - i,
    {
        let mut row: Vec<i64> = Vec::new();
        let mut j: usize = 0;
        while j < y.len()
            invariant
                j <= y@.len(),
                i < x@.len(),
                forall|k: int| 0 <= k < x@.len() ==> fx_ok(#[trigger] x@[k] as int),
                forall|k: int| 0 <= k < y@.len() ==> fx_ok(#[trigger] y@[k] as int),
                row@.len() == j,
                forall|k: int| 0 <= k < j ==> #[trigger] row@[k] as int == sp_mul(
                    x@[i as int] as int,
                    y@[k] as int,
                ),
            decreases y@.len() - j,
        {
            row.push(fx_mul(x[i], y[j]));
            j += 1;
        }
        r.push(row);
        i += 1;
    }
    r
}

/// Provides mappings between state names and their indices.
pub struct StateMapper;

/// Defines when the model should be saved. The fraction carried by
/// `EveryNthEpoch` is a fixed-point scalar.
#[derive(Clone, Copy, Debug)]
pub enum SavingStrategy {
    EveryEpoch(bool),
    EveryNthEpoch(bool, i64),
    BestTrainingAccuracy(bool),
    BestTestingAccuracy(bool),
    Never,
}

/// One labelled sample: an input tensor and its raw label.
pub struct Sample {
    pub image: Tensor3,
    pub label: usize,
}

/// Training and testing samples along with the label to class-index map.
pub struct Dataset {
    pub trn: Vec<Sample>,
    pub tst: Vec<Sample>,
    pub classes: Vec<usize>,
}

impl Dataset {
    /// Every sample is a well-formed tensor of the given shape and every
    /// label has a class index.
    pub open spec fn wf(&self, shape: (usize, usize, usize)) -> bool {
        &&& forall|i: int|
            0 <= i < self.trn@.len() ==> (#[trigger] self.trn@[i].image).wf()
                && self.trn@[i].image.shape == shape && self.trn@[i].label < self.classes@.len()
        &&& forall|i: int|
            0 <= i < self.tst@.len() ==> (#[trigger] self.tst@[i].image).wf()
                && self.tst@[i].image.shape == shape && self.tst@[i].label < self.classes@.len()
    }
}

} // verus!
