use vstd::prelude::*;
use crate::config::ModelConfig;
use crate::error::TrainError;

verus! {

/// Input channels of the first convolution: intensity grids are single-channel.
pub const IN_CHANNELS: u32 = 1;

/// Output channels of the first convolution.
pub const CONV1_CHANNELS: u32 = 8;

/// Output channels of the second convolution.
pub const CONV2_CHANNELS: u32 = 16;

/// Side of the square convolution kernels.
pub const KERNEL: u32 = 3;

/// Side of the square output of the adaptive average pool.
pub const POOL_SIDE: u32 = 8;

/// Width of the flattened pooled activation: channels times pooled area.
/// This is the input width the first linear layer is built with.
pub const FEATURES: u32 = 16 * 8 * 8;

/// The smallest spatial side the two 3x3 valid convolutions can accept:
/// each one shrinks a side by two, and a side must stay at least one.
pub const MIN_SIDE: usize = 5;

/// What one valid (unpadded, stride-one) 3x3 convolution leaves of a side.
pub open spec fn spec_conv_out(d: int) -> int {
    d - 2
}

/// The spatial side left by one 3x3 convolution.
pub fn conv_out(d: usize) -> (r: usize)
    requires
        d >= 3,
    ensures
        r == spec_conv_out(d as int),
{
    d - 2
}

/// The score shape the forward pass produces from a batch of `count`
/// grids of `height x width`: it steps through every layer of the fixed
/// architecture and ends at `[count, num_classes]`. Grids too small for
/// the two convolutions are a shape mismatch.
pub fn forward_shape(cfg: &ModelConfig, count: usize, height: usize, width: usize) -> (r: Result<
    (usize, u32),
    TrainError,
>)
    requires
        cfg.wf(),
    ensures
        match r {
            Ok(s) => {
                &&& height >= MIN_SIDE && width >= MIN_SIDE
                &&& s.0 == count
                &&& s.1 == cfg.num_classes
            },
            Err(e) => {
                &&& e == TrainError::ShapeMismatch
                &&& (height < MIN_SIDE || width < MIN_SIDE)
            },
        },
{
    if height < MIN_SIDE || width < MIN_SIDE {
        return Err(TrainError::ShapeMismatch);
    }
    // reshape: [count, height, width] -> [count, 1, height, width]
    // conv1: [count, 8, height - 2, width - 2]; dropout keeps the shape
    let h1 = conv_out(height);
    let w1 = conv_out(width);
    // conv2: [count, 16, height - 4, width - 4]; dropout and relu keep it
    let h2 = conv_out(h1);
    let w2 = conv_out(w1);
    assert(h2 >= 1 && w2 >= 1);
    // adaptive average pool: [count, 16, 8, 8], whatever h2 and w2 were
    // flatten: [count, 16 * 8 * 8]
    let feats: u32 = CONV2_CHANNELS * POOL_SIDE * POOL_SIDE;
    // linear1 takes FEATURES columns: the flattened width must agree
    assert(feats == FEATURES);
    // linear1 -> [count, hidden_size]; dropout and relu keep the shape
    // linear2 -> [count, num_classes], returned as raw logits
    Ok((count, cfg.num_classes))
}

} // verus!
