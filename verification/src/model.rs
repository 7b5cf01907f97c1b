use vstd::prelude::*;
use crate::config::ModelConfig;
use crate::data::Batch;
use crate::error::TrainError;
use crate::shape;
use crate::snapshot::{spec_snapshot_matches, param_id_at, param_dims, param_len64, ParamTensor,
    Snapshot, PARAM_COUNT};

verus! {

/// The classifier as this crate sees it: the architecture description and
/// the current parameter snapshot. The numerical runtime holds the live
/// tensors; this pair is what is persisted, validated and rebuilt.
#[derive(Clone, Debug)]
pub struct Model {
    pub config: ModelConfig,
    pub params: Snapshot,
}

impl Model {
    /// A model is well formed when its snapshot structurally matches the
    /// architecture its configuration implies.
    pub open spec fn wf(self) -> bool {
        &&& self.config.wf()
        &&& spec_snapshot_matches(self.params, self.config)
    }

    /// Loads a persisted snapshot into a freshly built model. The snapshot
    /// must match the architecture name by name and shape by shape;
    /// anything else is a fatal artifact error, never silently ignored.
    pub fn load_record(self, params: Snapshot) -> (r: Result<Model, TrainError>)
        requires
            self.config.wf(),
        ensures
            match r {
                Ok(m) => {
                    &&& spec_snapshot_matches(params, self.config)
                    &&& m.config == self.config
                    &&& m.params == params
                    &&& m.wf()
                },
                Err(e) => {
                    &&& e == TrainError::ArtifactCorrupt
                    &&& !spec_snapshot_matches(params, self.config)
                },
            },
    {
        if params.matches(&self.config) {
            Ok(Model { config: self.config, params })
        } else {
            Err(TrainError::ArtifactCorrupt)
        }
    }

    /// The shape of the scores the forward pass yields on `batch`: one row
    /// per item, one column per class.
    pub fn forward_shape(&self, batch: &Batch) -> (r: Result<(usize, u32), TrainError>)
        requires
            self.config.wf(),
        ensures
            match r {
                Ok(s) => {
                    &&& batch.height >= shape::MIN_SIDE && batch.width >= shape::MIN_SIDE
                    &&& s.0 == batch.count
                    &&& s.1 == self.config.num_classes
                },
                Err(e) => {
                    &&& e == TrainError::ShapeMismatch
                    &&& (batch.height < shape::MIN_SIDE || batch.width < shape::MIN_SIDE)
                },
            },
    {
        shape::forward_shape(&self.config, batch.count, batch.height, batch.width)
    }
}

/// A vector of `n` zero words.
fn zero_values(n: usize) -> (v: Vec<u32>)
    ensures
        v@.len() == n,
        forall|j: int| 0 <= j < n ==> v@[j] == 0,
{
    let mut v: Vec<u32> = Vec::new();
    let mut i: usize = 0;
    while i < n
        invariant
            0 <= i <= n,
            v@.len() == i,
            forall|j: int| 0 <= j < i ==> v@[j] == 0,
        decreases n - i,
    {
        v.push(0);
        i = i + 1;
    }
    v
}

impl ModelConfig {
    /// Builds the model this configuration describes, every parameter
    /// tensor present with its schema shape and zero-filled values. The
    /// numerical runtime overwrites the values with its randomized
    /// initialization before any training step.
    pub fn init(&self) -> (m: Model)
        requires
            self.wf(),
            1024 * self.hidden_size <= usize::MAX,
            self.hidden_size * self.num_classes <= usize::MAX,
        ensures
            m.config == *self,
            m.wf(),
            forall|i: int|
                0 <= i < PARAM_COUNT ==> forall|j: int|
                    0 <= j < (#[trigger] m.params.tensors@[i]).values@.len()
                        ==> m.params.tensors@[i].values@[j] == 0,
    {
        let mut tensors: Vec<ParamTensor> = Vec::new();
        let mut i: usize = 0;
        while i < PARAM_COUNT
            invariant
                0 <= i <= PARAM_COUNT,
                self.wf(),
                1024 * self.hidden_size <= usize::MAX,
                self.hidden_size * self.num_classes <= usize::MAX,
                tensors@.len() == i,
                forall|k: int|
                    0 <= k < i ==> crate::snapshot::spec_tensor_matches(
                        #[trigger] tensors@[k],
                        *self,
                        k,
                    ),
                forall|k: int|
                    0 <= k < i ==> forall|j: int|
                        0 <= j < (#[trigger] tensors@[k]).values@.len() ==> tensors@[k].values@[j]
                            == 0,
            decreases PARAM_COUNT - i,
        {
            let id = param_id_at(i);
            let dims = param_dims(self, id);
            let len64 = param_len64(self, id);
            let values = zero_values(len64 as usize);
            tensors.push(ParamTensor { id, dims, values });
            i = i + 1;
        }
        Model { config: *self, params: Snapshot { tensors } }
    }
}

} // verus!
