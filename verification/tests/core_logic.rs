use convtrain::config::{ModelConfig, OptimizerConfig, TrainingConfig};
use convtrain::data::{batch, Item};
use convtrain::error::TrainError;
use convtrain::metrics::{argmax, evaluate, predict, EvalReport};
use convtrain::shape::forward_shape;

fn model_cfg() -> ModelConfig {
    ModelConfig::new(10, 512)
}

fn train_cfg() -> TrainingConfig {
    TrainingConfig::new(model_cfg(), OptimizerConfig::new(), 4, 64, 4, 42, 100_000)
}

#[test]
fn config_defaults() {
    let m = model_cfg();
    assert_eq!(m.num_classes, 10);
    assert_eq!(m.hidden_size, 512);
    assert_eq!(m.dropout_micros, 500_000);
    let m2 = m.with_dropout(250_000);
    assert_eq!(m2.dropout_micros, 250_000);
    assert_eq!(m2.num_classes, 10);
    let o = OptimizerConfig::new();
    assert_eq!(o.beta_1_micros, 900_000);
    assert_eq!(o.beta_2_micros, 999_000);
    let t = train_cfg();
    assert_eq!(t.num_epochs, 4);
    assert_eq!(t.seed, 42);
}

#[test]
fn forward_shape_is_batch_by_classes() {
    let cfg = model_cfg();
    assert_eq!(forward_shape(&cfg, 4, 28, 28).unwrap(), (4, 10));
    assert_eq!(forward_shape(&cfg, 100, 28, 28).unwrap(), (100, 10));
    let narrow = ModelConfig::new(3, 7);
    assert_eq!(forward_shape(&narrow, 1, 5, 5).unwrap(), (1, 3));
}

#[test]
fn forward_shape_rejects_tiny_grids() {
    let cfg = model_cfg();
    assert_eq!(forward_shape(&cfg, 4, 4, 28), Err(TrainError::ShapeMismatch));
    assert_eq!(forward_shape(&cfg, 4, 28, 3), Err(TrainError::ShapeMismatch));
}

#[test]
fn item_rejects_wrong_pixel_count() {
    assert!(Item::new(2, 3, vec![0u8; 6], 1).is_ok());
    match Item::new(2, 3, vec![0u8; 5], 1) {
        Err(TrainError::ShapeMismatch) => {}
        other => panic!("expected shape mismatch, got {:?}", other),
    }
    match Item::new(0, 3, vec![], 1) {
        Err(TrainError::ShapeMismatch) => {}
        other => panic!("expected shape mismatch, got {:?}", other),
    }
}

#[test]
fn batch_stacks_in_order() {
    let a = Item::new(2, 2, vec![1, 2, 3, 4], 7).unwrap();
    let b = Item::new(2, 2, vec![5, 6, 7, 8], 3).unwrap();
    let batched = batch(&vec![a, b]).unwrap();
    assert_eq!(batched.count, 2);
    assert_eq!(batched.height, 2);
    assert_eq!(batched.width, 2);
    assert_eq!(batched.images, vec![1, 2, 3, 4, 5, 6, 7, 8]);
    assert_eq!(batched.targets, vec![7, 3]);
}

#[test]
fn batch_rejects_mixed_shapes() {
    let a = Item::new(2, 2, vec![1, 2, 3, 4], 0).unwrap();
    let b = Item::new(1, 4, vec![5, 6, 7, 8], 1).unwrap();
    match batch(&vec![a, b]) {
        Err(TrainError::ShapeMismatch) => {}
        other => panic!("expected shape mismatch, got {:?}", other),
    }
}

#[test]
fn batch_rejects_empty_list() {
    match batch(&Vec::new()) {
        Err(TrainError::ArtifactCorrupt) => {}
        other => panic!("expected artifact-class error, got {:?}", other),
    }
}

#[test]
fn argmax_breaks_ties_toward_lowest_index() {
    // the maximum is tied at indices 1 and 2: the prediction is 1
    assert_eq!(argmax(&vec![3, 7, 7, 2]), 1);
    // tied everywhere: the first index wins
    assert_eq!(argmax(&vec![5, 5, 5]), 0);
    assert_eq!(argmax(&vec![1, 2, 9]), 2);
    assert_eq!(argmax(&vec![4]), 0);
}

#[test]
fn predict_takes_rowwise_argmax() {
    let scores = vec![vec![1, 9, 3], vec![8, 2, 8], vec![0, 0, 1]];
    assert_eq!(predict(&scores, 3).unwrap(), vec![1, 0, 2]);
}

#[test]
fn predict_rejects_wrong_row_width() {
    let scores = vec![vec![1, 9, 3], vec![8, 2]];
    match predict(&scores, 3) {
        Err(TrainError::ShapeMismatch) => {}
        other => panic!("expected shape mismatch, got {:?}", other),
    }
}

#[test]
fn accuracy_all_correct_is_one() {
    let preds: Vec<usize> = vec![1, 0, 2, 3];
    let targets: Vec<u8> = vec![1, 0, 2, 3];
    let rep = evaluate(&preds, &targets).unwrap();
    assert_eq!(rep.correct, 4);
    assert_eq!(rep.total, 4);
    assert_eq!(rep.accuracy_basis_points(), 10_000);
}

#[test]
fn accuracy_all_incorrect_is_zero() {
    let preds: Vec<usize> = vec![0, 1, 0];
    let targets: Vec<u8> = vec![1, 0, 1];
    let rep = evaluate(&preds, &targets).unwrap();
    assert_eq!(rep.correct, 0);
    assert_eq!(rep.total, 3);
    assert_eq!(rep.accuracy_basis_points(), 0);
}

#[test]
fn accuracy_empty_is_an_error_not_a_crash() {
    match evaluate(&Vec::new(), &Vec::new()) {
        Err(TrainError::ArtifactCorrupt) => {}
        other => panic!("expected artifact-class error, got {:?}", other),
    }
}

#[test]
fn accuracy_fraction_is_exact() {
    let preds: Vec<usize> = vec![1, 1, 0, 2];
    let targets: Vec<u8> = vec![1, 0, 0, 2];
    let rep = evaluate(&preds, &targets).unwrap();
    assert_eq!(rep.correct, 3);
    assert_eq!(rep.total, 4);
    assert_eq!(rep.accuracy_basis_points(), 7_500);
    let half = EvalReport { correct: 1, total: 2 };
    assert_eq!(half.accuracy_basis_points(), 5_000);
}
