use vstd::prelude::*;
use crate::codec::{decode_config, spec_decode_config};
use crate::config::TrainingConfig;
use crate::error::TrainError;
use crate::metrics::{evaluate, predict, spec_argmax, spec_correct, EvalReport};
use crate::model::Model;
use crate::record::{decode_snapshot, spec_denotes, spec_encode_snapshot};
use crate::snapshot::spec_snapshot_matches;

verus! {

/// Rebuilds the trained model from the two persisted artifacts, handed in
/// as the raw bytes the store returned — `None` where the store had no
/// such entry. A missing artifact means training has not run: that is a
/// precondition failure, and exactly that. Present artifacts that do not
/// decode, or whose snapshot does not match the architecture the
/// configuration implies, are corrupt.
pub fn load_trained_model(config_bytes: Option<&Vec<u8>>, snapshot_bytes: Option<&Vec<u8>>) -> (r:
    Result<(TrainingConfig, Model), TrainError>)
    ensures
        match r {
            Ok(p) => {
                &&& config_bytes is Some && snapshot_bytes is Some
                &&& spec_decode_config(config_bytes->0@) == Some(p.0)
                &&& p.0.wf()
                &&& p.1.config == p.0.model
                &&& spec_snapshot_matches(p.1.params, p.0.model)
                &&& snapshot_bytes->0@ == spec_encode_snapshot(p.1.params)
                &&& p.1.wf()
            },
            Err(e) => {
                &&& (e == TrainError::PreconditionMissing || e == TrainError::ArtifactCorrupt)
                &&& (e == TrainError::PreconditionMissing <==> (config_bytes is None
                    || snapshot_bytes is None))
                &&& (e == TrainError::ArtifactCorrupt ==> (spec_decode_config(
                    config_bytes->0@,
                ) is None || forall|s: crate::snapshot::Snapshot|
                    !#[trigger] spec_denotes(
                        snapshot_bytes->0@,
                        s,
                        spec_decode_config(config_bytes->0@)->0.model,
                    )))
            },
        },
{
    let cfg_bytes = match config_bytes {
        Some(b) => b,
        None => {
            return Err(TrainError::PreconditionMissing);
        },
    };
    let snap_bytes = match snapshot_bytes {
        Some(b) => b,
        None => {
            return Err(TrainError::PreconditionMissing);
        },
    };
    let cfg = match decode_config(cfg_bytes) {
        Ok(c) => c,
        Err(e) => {
            return Err(e);
        },
    };
    let params = match decode_snapshot(snap_bytes, &cfg.model) {
        Ok(s) => s,
        Err(e) => {
            return Err(e);
        },
    };
    Ok((cfg, Model { config: cfg.model, params }))
}

/// Turns the runtime scores into the inference outcome: one predicted
/// class per item by first-index arg-max, and the exact accuracy fraction
/// against the true labels. An empty sample is an artifact-class error; a
/// score row of the wrong width is a shape mismatch.
pub fn finish_inference(scores: &Vec<Vec<u32>>, targets: &Vec<u8>, num_classes: u32) -> (r: Result<
    (Vec<usize>, EvalReport),
    TrainError,
>)
    requires
        scores@.len() == targets@.len(),
        num_classes >= 1,
    ensures
        match r {
            Ok(p) => {
                &&& targets@.len() >= 1
                &&& forall|k: int|
                    0 <= k < scores@.len() ==> #[trigger] scores@[k]@.len() == num_classes
                &&& p.0@.len() == targets@.len()
                &&& forall|k: int|
                    0 <= k < p.0@.len() ==> #[trigger] p.0@[k] == spec_argmax(scores@[k]@)
                &&& forall|k: int| 0 <= k < p.0@.len() ==> #[trigger] p.0@[k] < num_classes
                &&& p.1.total == targets@.len()
                &&& p.1.correct == spec_correct(p.0@, targets@)
                &&& p.1.wf()
            },
            Err(e) => {
                &&& (e == TrainError::ArtifactCorrupt <==> targets@.len() == 0)
                &&& (e == TrainError::ShapeMismatch ==> exists|k: int|
                    0 <= k < scores@.len() && #[trigger] scores@[k]@.len() != num_classes)
                &&& (e == TrainError::ArtifactCorrupt || e == TrainError::ShapeMismatch)
            },
        },
{
    if targets.len() == 0 {
        return Err(TrainError::ArtifactCorrupt);
    }
    let preds = match predict(scores, num_classes) {
        Ok(p) => p,
        Err(e) => {
            return Err(e);
        },
    };
    let rep = match evaluate(&preds, targets) {
        Ok(rep) => rep,
        Err(e) => {
            return Err(e);
        },
    };
    Ok((preds, rep))
}

} // verus!
