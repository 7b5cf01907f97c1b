use convtrain::codec::{decode_config, encode_config, CONFIG_LEN};
use convtrain::config::{ModelConfig, OptimizerConfig, TrainingConfig};
use convtrain::data::{batch, Item};
use convtrain::error::TrainError;
use convtrain::inference::{finish_inference, load_trained_model};
use convtrain::model::Model;
use convtrain::record::{decode_snapshot, encode_snapshot};
use convtrain::schedule::{make_batches, shuffled_indices};
use convtrain::snapshot::{ParamId, ParamTensor, Snapshot};
use convtrain::trainer::{next_phase, persist_outcome, EpochMetrics, Phase};

fn small_cfg() -> TrainingConfig {
    TrainingConfig::new(ModelConfig::new(3, 2), OptimizerConfig::new(), 1, 10, 0, 7, 100_000)
}

fn zero_snapshot(m: &ModelConfig) -> Snapshot {
    m.init().params
}

#[test]
fn config_round_trips_through_bytes() {
    let cfg = small_cfg();
    let bytes = encode_config(&cfg);
    assert_eq!(bytes.len(), CONFIG_LEN);
    assert_eq!(decode_config(&bytes).unwrap(), cfg);
}

#[test]
fn config_decode_rejects_corruption() {
    let cfg = small_cfg();
    let mut bytes = encode_config(&cfg);
    // a wrong magic word
    bytes[0] ^= 0xff;
    assert_eq!(decode_config(&bytes), Err(TrainError::ArtifactCorrupt));
    // a wrong length
    let bytes = encode_config(&cfg);
    let short = bytes[..CONFIG_LEN - 1].to_vec();
    assert_eq!(decode_config(&short), Err(TrainError::ArtifactCorrupt));
    // a field outside its invariant: num_classes of zero at offset 4
    let mut bytes = encode_config(&cfg);
    bytes[4] = 0;
    bytes[5] = 0;
    bytes[6] = 0;
    bytes[7] = 0;
    assert_eq!(decode_config(&bytes), Err(TrainError::ArtifactCorrupt));
}

#[test]
fn fresh_model_matches_its_own_schema() {
    let m = ModelConfig::new(3, 2);
    let model = m.init();
    assert!(model.params.matches(&m));
    assert!(!model.params.matches(&ModelConfig::new(4, 2)));
    // shapes of the two learned linear layers
    assert_eq!(model.params.tensors[4].dims, vec![1024, 2]);
    assert_eq!(model.params.tensors[6].dims, vec![2, 3]);
    assert_eq!(model.params.tensors[0].dims, vec![8, 1, 3, 3]);
    assert_eq!(model.params.tensors[0].values.len(), 72);
}

#[test]
fn snapshot_round_trips_through_bytes() {
    let m = ModelConfig::new(3, 2);
    let mut snap = zero_snapshot(&m);
    // give the values a recognizable pattern
    for t in snap.tensors.iter_mut() {
        for (i, v) in t.values.iter_mut().enumerate() {
            *v = i as u32 + 1;
        }
    }
    let bytes = encode_snapshot(&snap);
    let back = decode_snapshot(&bytes, &m).unwrap();
    assert_eq!(back.tensors.len(), snap.tensors.len());
    for (a, b) in back.tensors.iter().zip(snap.tensors.iter()) {
        assert_eq!(a.id, b.id);
        assert_eq!(a.dims, b.dims);
        assert_eq!(a.values, b.values);
    }
}

#[test]
fn snapshot_decode_rejects_corruption() {
    let m = ModelConfig::new(3, 2);
    let snap = zero_snapshot(&m);
    let bytes = encode_snapshot(&snap);
    // truncated
    let short = bytes[..bytes.len() - 1].to_vec();
    assert!(matches!(decode_snapshot(&short, &m), Err(TrainError::ArtifactCorrupt)));
    // a flipped byte in the header
    let mut bad = bytes.clone();
    bad[0] ^= 0x01;
    assert!(matches!(decode_snapshot(&bad, &m), Err(TrainError::ArtifactCorrupt)));
    // the right bytes against the wrong architecture
    assert!(matches!(
        decode_snapshot(&bytes, &ModelConfig::new(3, 5)),
        Err(TrainError::ArtifactCorrupt)
    ));
}

#[test]
fn load_record_validates_schema() {
    let m = ModelConfig::new(3, 2);
    let model = m.init();
    let good = zero_snapshot(&m);
    assert!(model.clone().load_record(good).is_ok());
    let mut bad = zero_snapshot(&m);
    bad.tensors[4].values.pop();
    match model.load_record(bad) {
        Err(TrainError::ArtifactCorrupt) => {}
        other => panic!("expected artifact corrupt, got {:?}", other.map(|_| ())),
    }
}

#[test]
fn shuffle_is_a_deterministic_permutation() {
    let a = shuffled_indices(42, 100);
    let b = shuffled_indices(42, 100);
    assert_eq!(a, b);
    let mut sorted = a.clone();
    sorted.sort();
    let identity: Vec<usize> = (0..100).collect();
    assert_eq!(sorted, identity);
    assert_ne!(a, identity);
}

#[test]
fn batches_cover_the_order_in_size() {
    let order: Vec<usize> = (0..10).collect();
    let chunks = make_batches(&order, 3);
    assert_eq!(chunks.len(), 4);
    assert_eq!(chunks[0], vec![0, 1, 2]);
    assert_eq!(chunks[3], vec![9]);
    let flat: Vec<usize> = chunks.into_iter().flatten().collect();
    assert_eq!(flat, order);
}

#[test]
fn phases_walk_the_run_in_order() {
    let n = 2;
    let mut p = Phase::Initializing;
    p = next_phase(p, n);
    assert_eq!(p, Phase::TrainEpoch { epoch: 0 });
    p = next_phase(p, n);
    assert_eq!(p, Phase::ValidateEpoch { epoch: 0 });
    p = next_phase(p, n);
    assert_eq!(p, Phase::TrainEpoch { epoch: 1 });
    p = next_phase(p, n);
    assert_eq!(p, Phase::ValidateEpoch { epoch: 1 });
    p = next_phase(p, n);
    assert_eq!(p, Phase::Finalizing);
    p = next_phase(p, n);
    assert_eq!(p, Phase::Done);
    assert_eq!(next_phase(p, n), Phase::Done);
}

#[test]
fn epoch_metrics_accumulate_and_report() {
    let mut m = EpochMetrics::new();
    m.record_batch(7, 10);
    m.record_batch(9, 10);
    assert_eq!(m.seen, 20);
    assert_eq!(m.correct, 16);
    let rep = m.report().unwrap();
    assert_eq!(rep.accuracy_basis_points(), 8_000);
    let empty = EpochMetrics::new();
    assert_eq!(empty.report(), Err(TrainError::ArtifactCorrupt));
}

#[test]
fn unsaved_training_is_reported_failed() {
    assert!(persist_outcome(true, true).is_ok());
    assert_eq!(persist_outcome(false, true), Err(TrainError::PersistenceFailure));
    assert_eq!(persist_outcome(true, false), Err(TrainError::PersistenceFailure));
}

#[test]
fn missing_artifacts_are_a_precondition_error() {
    let cfg = small_cfg();
    let cfg_bytes = encode_config(&cfg);
    let snap_bytes = encode_snapshot(&zero_snapshot(&cfg.model));
    match load_trained_model(None, None) {
        Err(TrainError::PreconditionMissing) => {}
        other => panic!("expected precondition missing, got {:?}", other.map(|_| ())),
    }
    match load_trained_model(Some(&cfg_bytes), None) {
        Err(TrainError::PreconditionMissing) => {}
        other => panic!("expected precondition missing, got {:?}", other.map(|_| ())),
    }
    match load_trained_model(None, Some(&snap_bytes)) {
        Err(TrainError::PreconditionMissing) => {}
        other => panic!("expected precondition missing, got {:?}", other.map(|_| ())),
    }
}

#[test]
fn loading_rebuilds_the_persisted_model() {
    let cfg = small_cfg();
    let cfg_bytes = encode_config(&cfg);
    let snap_bytes = encode_snapshot(&zero_snapshot(&cfg.model));
    let (loaded_cfg, model) = load_trained_model(Some(&cfg_bytes), Some(&snap_bytes)).unwrap();
    assert_eq!(loaded_cfg, cfg);
    assert_eq!(model.config, cfg.model);
    assert!(model.params.matches(&cfg.model));
    // garbage in place of the snapshot is corrupt, not missing
    let garbage = vec![0u8; 5];
    match load_trained_model(Some(&cfg_bytes), Some(&garbage)) {
        Err(TrainError::ArtifactCorrupt) => {}
        other => panic!("expected artifact corrupt, got {:?}", other.map(|_| ())),
    }
}

#[test]
fn inference_verdict_on_synthetic_scores() {
    // ten held-out items, ten classes: class of item k is k, scores favor it
    let num_classes = 10u32;
    let mut scores: Vec<Vec<u32>> = Vec::new();
    let mut targets: Vec<u8> = Vec::new();
    for k in 0..10usize {
        let mut row = vec![100u32; 10];
        row[k] += 1;
        scores.push(row);
        targets.push(k as u8);
    }
    let (preds, rep) = finish_inference(&scores, &targets, num_classes).unwrap();
    assert_eq!(preds.len(), 10);
    for (k, p) in preds.iter().enumerate() {
        assert!(*p < num_classes as usize);
        assert_eq!(*p, k);
    }
    let bp = rep.accuracy_basis_points();
    assert!(bp <= 10_000);
    assert_eq!(bp, 10_000);
    // an empty held-out sample is an error, not a division by zero
    assert_eq!(
        finish_inference(&Vec::new(), &Vec::new(), num_classes),
        Err(TrainError::ArtifactCorrupt)
    );
}

#[test]
fn one_epoch_run_produces_both_artifacts() {
    // a 100-item synthetic dataset of 28 x 28 grids over 10 classes,
    // trained for one epoch with batches of 10, metric-tracked, then
    // persisted: both artifacts exist and decode back
    let cfg = TrainingConfig::new(
        ModelConfig::new(10, 16),
        OptimizerConfig::new(),
        1,
        10,
        0,
        42,
        100_000,
    );
    let mut items: Vec<Item> = Vec::new();
    for k in 0..100usize {
        let pixels = vec![(k % 251) as u8; 28 * 28];
        items.push(Item::new(28, 28, pixels, (k % 10) as u8).unwrap());
    }
    let model = cfg.model.init();
    let mut metrics = EpochMetrics::new();
    let mut phase = Phase::Initializing;
    phase = next_phase(phase, cfg.num_epochs);
    assert_eq!(phase, Phase::TrainEpoch { epoch: 0 });
    let plan = convtrain::trainer::train_schedule(&cfg, items.len(), 0);
    assert_eq!(plan.len(), 10);
    for chunk in plan.iter() {
        let picked: Vec<Item> = chunk.iter().map(|&i| items[i].clone()).collect();
        let b = batch(&picked).unwrap();
        assert_eq!(b.count, chunk.len());
        let shape = model.forward_shape(&b).unwrap();
        assert_eq!(shape, (chunk.len(), 10));
        // stand in for the runtime's loss/score step: count one hit per batch
        metrics.record_batch(1, b.count);
    }
    assert_eq!(metrics.seen, 100);
    phase = next_phase(phase, cfg.num_epochs);
    assert_eq!(phase, Phase::ValidateEpoch { epoch: 0 });
    phase = next_phase(phase, cfg.num_epochs);
    assert_eq!(phase, Phase::Finalizing);
    let cfg_bytes = encode_config(&cfg);
    let snap_bytes = encode_snapshot(&model.params);
    assert!(!cfg_bytes.is_empty() && !snap_bytes.is_empty());
    assert!(persist_outcome(true, true).is_ok());
    assert_eq!(decode_config(&cfg_bytes).unwrap(), cfg);
    assert!(decode_snapshot(&snap_bytes, &cfg.model).is_ok());
    assert_eq!(next_phase(phase, cfg.num_epochs), Phase::Done);
}

#[test]
fn tensor_schema_mismatch_is_detected() {
    let m = ModelConfig::new(3, 2);
    let mut snap = zero_snapshot(&m);
    snap.tensors[0] = ParamTensor {
        id: ParamId::Conv1Bias,
        dims: vec![8],
        values: vec![0; 8],
    };
    assert!(!snap.matches(&m));
    let model = Model { config: m, params: zero_snapshot(&m) };
    assert!(model.params.matches(&m));
}
