//! Structural core of the feed-forward network: layer allocation, the chain
//! invariant between consecutive weight matrices, the training target vector,
//! and the learning-rate scalar.

use vstd::prelude::*;

use crate::math::Matrix;
use crate::math::MathError;
use crate::math::Scalar;

verus! {

/// One labelled dataset sample: raw pixel intensities and the class index.
pub struct NNData {
    pub data: Vec<u8>,
    pub label: usize,
}

/// The network was given a malformed structure.
#[derive(Clone, Copy, Debug, PartialEq, Eq, Structural)]
pub enum NetError {
    MalformedStructure,
}

/// The scalar code of the learning rate a fresh network starts with.
pub const DEFAULT_LEARNING_RATE: Scalar = 0x3D75_C28F;

/// The scalar code a target vector holds at the labelled position.
pub const TARGET_ON: Scalar = 0x3F7D_70A4;

/// The scalar code a target vector holds everywhere else.
pub const TARGET_OFF: Scalar = 0x3C23_D70A;

/// A multilayer perceptron: one weight matrix per layer transition and a
/// learning-rate scalar. Matrix `k` maps activations of layer `k` (its column
/// count) to activations of layer `k + 1` (its row count).
#[derive(Debug)]
pub struct NeuralNet {
    weights: Vec<Matrix>,
    learning_rate: Scalar,
}

impl NeuralNet {
    /// The weight matrices, ordered from the input layer up.
    pub closed spec fn layers(&self) -> Seq<Matrix> {
        self.weights@
    }

    /// The scalar code of the learning rate.
    pub closed spec fn rate(&self) -> Scalar {
        self.learning_rate
    }

    /// Every weight matrix is well formed and consecutive matrices chain:
    /// each one consumes exactly what the previous one produced.
    pub open spec fn wf(&self) -> bool {
        forall|k: int|
            0 <= k < self.layers().len() ==> (#[trigger] self.layers()[k]).wf() && (k > 0
                ==> self.layers()[k].cols() == self.layers()[k - 1].rows())
    }

    /// A new network for the given layer-size sequence: one zero matrix of
    /// shape `(structure[k + 1], structure[k])` per consecutive pair. Refused
    /// when fewer than two layer sizes are given.
    pub fn new(structure: &Vec<usize>) -> (r: Result<NeuralNet, NetError>)
        requires
            forall|k: int|
                0 <= k && k + 1 < structure@.len() ==> #[trigger] (structure@[k + 1] * structure@[k])
                    <= usize::MAX,
        ensures
            r is Ok <==> structure@.len() >= 2,
            r is Err ==> r == Err::<NeuralNet, NetError>(NetError::MalformedStructure),
            r is Ok ==> {
                let net = r->Ok_0;
                &&& net.wf()
                &&& net.layers().len() == structure@.len() - 1
                &&& net.rate() == DEFAULT_LEARNING_RATE
                &&& forall|k: int|
                    0 <= k < net.layers().len() ==> (#[trigger] net.layers()[k]).rows()
                        == structure@[k + 1] && net.layers()[k].cols() == structure@[k]
                &&& forall|k: int, i: int, j: int|
                    0 <= k < net.layers().len() && 0 <= i < structure@[k + 1] && 0 <= j
                        < structure@[k] ==> #[trigger] net.layers()[k].entry(i, j)
                        == crate::math::SCALAR_ZERO
            },
    {
        if structure.len() < 2 {
            return Err(NetError::MalformedStructure);
        }
        let count = structure.len() - 1;
        let mut weights: Vec<Matrix> = Vec::new();
        let mut k: usize = 0;
        while k < count
            invariant
                k <= count,
                count == structure@.len() - 1,
                forall|t: int|
                    0 <= t && t + 1 < structure@.len() ==> #[trigger] (structure@[t + 1] * structure@[t])
                        <= usize::MAX,
                weights@.len() == k,
                forall|t: int|
                    0 <= t < k ==> (#[trigger] weights@[t]).wf() && weights@[t].rows()
                        == structure@[t + 1] && weights@[t].cols() == structure@[t],
                forall|t: int, i: int, j: int|
                    0 <= t < k && 0 <= i < structure@[t + 1] && 0 <= j < structure@[t]
                        ==> #[trigger] weights@[t].entry(i, j) == crate::math::SCALAR_ZERO,
            decreases count - k,
        {
            let mat = Matrix::new(structure[k + 1], structure[k]);
            weights.push(mat);
            k = k + 1;
        }
        Ok(NeuralNet { weights, learning_rate: DEFAULT_LEARNING_RATE })
    }

    /// Overwrites the learning rate used by subsequent training steps; the
    /// weights stay untouched.
    pub fn set_learning_rate(&mut self, rate: Scalar)
        ensures
            final(self).rate() == rate,
            final(self).layers() == old(self).layers(),
    {
        self.learning_rate = rate;
    }

    /// The scalar code of the current learning rate.
    pub fn learning_rate(&self) -> (r: Scalar)
        ensures
            r == self.rate(),
    {
        self.learning_rate
    }

    /// The number of layer transitions.
    pub fn layer_count(&self) -> (r: usize)
        ensures
            r == self.layers().len(),
    {
        self.weights.len()
    }

    /// The weight matrix of layer transition `k`.
    pub fn layer(&self, k: usize) -> (r: &Matrix)
        requires
            k < self.layers().len(),
        ensures
            *r == self.layers()[k as int],
    {
        &self.weights[k]
    }

    /// Replaces the weight matrix of layer transition `k`; refused when the
    /// new matrix's shape differs from the old one's, so that the chain
    /// invariant survives every accepted replacement.
    pub fn set_layer(&mut self, k: usize, mat: Matrix) -> (r: Result<(), MathError>)
        requires
            old(self).wf(),
            k < old(self).layers().len(),
            mat.wf(),
        ensures
            final(self).wf(),
            final(self).rate() == old(self).rate(),
            r is Ok <==> mat.rows() == old(self).layers()[k as int].rows() && mat.cols() == old(
                self,
            ).layers()[k as int].cols(),
            r is Ok ==> final(self).layers() == old(self).layers().update(k as int, mat),
            r is Err ==> *final(self) == *old(self) && r == Err::<(), MathError>(
                MathError::DimensionMismatch,
            ),
    {
        let current = &self.weights[k];
        if mat.m() != current.m() || mat.n() != current.n() {
            return Err(MathError::DimensionMismatch);
        }
        self.weights.set(k, mat);
        Ok(())
    }
}

/// The training target vector for a sample labelled `label`: the on code at
/// position `label`, the off code everywhere else.
pub fn make_target(label: usize, len: usize) -> (r: Vec<Scalar>)
    requires
        label < len,
    ensures
        r@.len() == len,
        forall|i: int|
            0 <= i < len ==> r@[i] == (if i == label {
                TARGET_ON
            } else {
                TARGET_OFF
            }),
{
    let mut target: Vec<Scalar> = Vec::new();
    let mut i: usize = 0;
    while i < len
        invariant
            i <= len,
            label < len,
            target@.len() == i,
            forall|t: int|
                0 <= t < i ==> target@[t] == (if t == label {
                    TARGET_ON
                } else {
                    TARGET_OFF
                }),
        decreases len - i,
    {
        if i == label {
            target.push(TARGET_ON);
        } else {
            target.push(TARGET_OFF);
        }
        i = i + 1;
    }
    target
}

} // verus!
