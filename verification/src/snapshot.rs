use vstd::prelude::*;
use crate::config::ModelConfig;

verus! {

/// The learned tensors of the architecture, in their fixed snapshot order.
/// Pooling, dropout and activation layers own no parameters.
#[derive(Clone, Copy, Debug, PartialEq, Eq, Structural)]
pub enum ParamId {
    Conv1Weight,
    Conv1Bias,
    Conv2Weight,
    Conv2Bias,
    Linear1Weight,
    Linear1Bias,
    Linear2Weight,
    Linear2Bias,
}

/// How many parameter tensors a snapshot holds.
pub const PARAM_COUNT: usize = 8;

/// The snapshot order of the parameter tensors.
pub open spec fn spec_param_id_at(i: int) -> ParamId {
    if i == 0 {
        ParamId::Conv1Weight
    } else if i == 1 {
        ParamId::Conv1Bias
    } else if i == 2 {
        ParamId::Conv2Weight
    } else if i == 3 {
        ParamId::Conv2Bias
    } else if i == 4 {
        ParamId::Linear1Weight
    } else if i == 5 {
        ParamId::Linear1Bias
    } else if i == 6 {
        ParamId::Linear2Weight
    } else {
        ParamId::Linear2Bias
    }
}

/// The tensor shape the architecture gives each parameter. Convolution
/// weights are `[out_channels, in_channels, kernel, kernel]`; linear
/// weights are `[in_features, out_features]`; biases are one-dimensional.
pub open spec fn spec_param_dims(cfg: ModelConfig, id: ParamId) -> Seq<u32> {
    match id {
        ParamId::Conv1Weight => seq![8u32, 1u32, 3u32, 3u32],
        ParamId::Conv1Bias => seq![8u32],
        ParamId::Conv2Weight => seq![16u32, 8u32, 3u32, 3u32],
        ParamId::Conv2Bias => seq![16u32],
        ParamId::Linear1Weight => seq![1024u32, cfg.hidden_size],
        ParamId::Linear1Bias => seq![cfg.hidden_size],
        ParamId::Linear2Weight => seq![cfg.hidden_size, cfg.num_classes],
        ParamId::Linear2Bias => seq![cfg.num_classes],
    }
}

/// How many scalar values each parameter tensor holds: the product of its
/// dimensions.
pub open spec fn spec_param_len(cfg: ModelConfig, id: ParamId) -> int {
    match id {
        ParamId::Conv1Weight => 72,
        ParamId::Conv1Bias => 8,
        ParamId::Conv2Weight => 1152,
        ParamId::Conv2Bias => 16,
        ParamId::Linear1Weight => 1024 * cfg.hidden_size,
        ParamId::Linear1Bias => cfg.hidden_size as int,
        ParamId::Linear2Weight => cfg.hidden_size * cfg.num_classes,
        ParamId::Linear2Bias => cfg.num_classes as int,
    }
}

/// The parameter tensor at position `i` of the snapshot order.
pub fn param_id_at(i: usize) -> (id: ParamId)
    requires
        i < PARAM_COUNT,
    ensures
        id == spec_param_id_at(i as int),
{
    if i == 0 {
        ParamId::Conv1Weight
    } else if i == 1 {
        ParamId::Conv1Bias
    } else if i == 2 {
        ParamId::Conv2Weight
    } else if i == 3 {
        ParamId::Conv2Bias
    } else if i == 4 {
        ParamId::Linear1Weight
    } else if i == 5 {
        ParamId::Linear1Bias
    } else if i == 6 {
        ParamId::Linear2Weight
    } else {
        ParamId::Linear2Bias
    }
}

/// The shape the architecture implies for a parameter.
pub fn param_dims(cfg: &ModelConfig, id: ParamId) -> (dims: Vec<u32>)
    ensures
        dims@ == spec_param_dims(*cfg, id),
{
    let mut dims: Vec<u32> = Vec::new();
    match id {
        ParamId::Conv1Weight => {
            dims.push(8);
            dims.push(1);
            dims.push(3);
            dims.push(3);
        },
        ParamId::Conv1Bias => {
            dims.push(8);
        },
        ParamId::Conv2Weight => {
            dims.push(16);
            dims.push(8);
            dims.push(3);
            dims.push(3);
        },
        ParamId::Conv2Bias => {
            dims.push(16);
        },
        ParamId::Linear1Weight => {
            dims.push(1024);
            dims.push(cfg.hidden_size);
        },
        ParamId::Linear1Bias => {
            dims.push(cfg.hidden_size);
        },
        ParamId::Linear2Weight => {
            dims.push(cfg.hidden_size);
            dims.push(cfg.num_classes);
        },
        ParamId::Linear2Bias => {
            dims.push(cfg.num_classes);
        },
    }
    proof {
        assert(dims@ =~= spec_param_dims(*cfg, id));
    }
    dims
}

/// The value count the architecture implies for a parameter. Every case
/// fits a `u64`: each factor is at most `u32::MAX`.
pub fn param_len64(cfg: &ModelConfig, id: ParamId) -> (n: u64)
    ensures
        n == spec_param_len(*cfg, id),
{
    proof {
        assert(1024 * (cfg.hidden_size as int) <= 1024 * 0xffffffff) by (nonlinear_arith)
            requires
                cfg.hidden_size <= 0xffffffffu32,
        ;
        assert((cfg.hidden_size as int) * (cfg.num_classes as int) <= 0xffffffff * 0xffffffff)
            by (nonlinear_arith)
            requires
                cfg.hidden_size <= 0xffffffffu32,
                cfg.num_classes <= 0xffffffffu32,
        ;
    }
    match id {
        ParamId::Conv1Weight => 72,
        ParamId::Conv1Bias => 8,
        ParamId::Conv2Weight => 1152,
        ParamId::Conv2Bias => 16,
        ParamId::Linear1Weight => 1024u64 * cfg.hidden_size as u64,
        ParamId::Linear1Bias => cfg.hidden_size as u64,
        ParamId::Linear2Weight => cfg.hidden_size as u64 * cfg.num_classes as u64,
        ParamId::Linear2Bias => cfg.num_classes as u64,
    }
}

/// One named parameter tensor of a snapshot: its place in the schema, its
/// shape, and its values as opaque 32-bit machine words of the numerical
/// runtime.
#[derive(Clone, Debug)]
pub struct ParamTensor {
    pub id: ParamId,
    pub dims: Vec<u32>,
    pub values: Vec<u32>,
}

/// A serialized copy of all model parameters at one point in time.
#[derive(Clone, Debug)]
pub struct Snapshot {
    pub tensors: Vec<ParamTensor>,
}

/// Whether tensor `t` is exactly what the architecture of `cfg` expects at
/// snapshot position `i`: same name, same shape, a value per cell.
pub open spec fn spec_tensor_matches(t: ParamTensor, cfg: ModelConfig, i: int) -> bool {
    &&& t.id == spec_param_id_at(i)
    &&& t.dims@ == spec_param_dims(cfg, t.id)
    &&& t.values@.len() == spec_param_len(cfg, t.id)
}

/// Whether a snapshot structurally matches the architecture `cfg` implies:
/// all eight tensors, in order, each with its name, shape and value count.
pub open spec fn spec_snapshot_matches(s: Snapshot, cfg: ModelConfig) -> bool {
    &&& s.tensors@.len() == PARAM_COUNT
    &&& forall|i: int|
        0 <= i < PARAM_COUNT ==> spec_tensor_matches(#[trigger] s.tensors@[i], cfg, i)
}

/// Whether two dimension lists are the same shape.
fn eq_dims(a: &Vec<u32>, b: &Vec<u32>) -> (r: bool)
    ensures
        r == (a@ == b@),
{
    if a.len() != b.len() {
        return false;
    }
    let mut i: usize = 0;
    while i < a.len()
        invariant
            0 <= i <= a@.len(),
            a@.len() == b@.len(),
            forall|k: int| 0 <= k < i ==> a@[k] == b@[k],
        decreases a@.len() - i,
    {
        if a[i] != b[i] {
            return false;
        }
        i = i + 1;
    }
    proof {
        assert(a@ =~= b@);
    }
    true
}

impl Snapshot {
    /// Schema validation: the check a snapshot must pass before its values
    /// may be copied into a freshly built model.
    pub fn matches(&self, cfg: &ModelConfig) -> (r: bool)
        ensures
            r == spec_snapshot_matches(*self, *cfg),
    {
        if self.tensors.len() != PARAM_COUNT {
            return false;
        }
        let mut i: usize = 0;
        while i < PARAM_COUNT
            invariant
                0 <= i <= PARAM_COUNT,
                self.tensors@.len() == PARAM_COUNT,
                forall|k: int| 0 <= k < i ==> spec_tensor_matches(#[trigger] self.tensors@[k], *cfg, k),
            decreases PARAM_COUNT - i,
        {
            let t = &self.tensors[i];
            let want = param_id_at(i);
            if t.id != want {
                return false;
            }
            let dims = param_dims(cfg, t.id);
            if !eq_dims(&t.dims, &dims) {
                return false;
            }
            let need = param_len64(cfg, t.id);
            if t.values.len() as u64 != need {
                return false;
            }
            i = i + 1;
        }
        true
    }
}

} // verus!
