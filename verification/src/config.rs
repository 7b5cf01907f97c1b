use vstd::prelude::*;

verus! {

/// One whole, in millionths: fixed-point scale for rates that live in [0, 1].
pub const MICROS_ONE: u32 = 1000000;

/// Architecture sizes of the classifier. Rates are held in millionths so
/// that the configuration is made of exact integers; the numerical runtime
/// divides by `MICROS_ONE` when it instantiates the layers.
#[derive(Clone, Copy, Debug, PartialEq, Eq, Structural)]
pub struct ModelConfig {
    pub num_classes: u32,
    pub hidden_size: u32,
    pub dropout_micros: u32,
}

impl ModelConfig {
    /// The construction-time invariant: positive sizes, dropout in [0, 1].
    pub open spec fn wf(self) -> bool {
        &&& self.num_classes >= 1
        &&& self.hidden_size >= 1
        &&& self.dropout_micros <= MICROS_ONE
    }

    /// A configuration with the default dropout rate of one half.
    pub fn new(num_classes: u32, hidden_size: u32) -> (c: Self)
        requires
            num_classes >= 1,
            hidden_size >= 1,
        ensures
            c == (ModelConfig { num_classes, hidden_size, dropout_micros: 500000u32 }),
            c.wf(),
    {
        ModelConfig { num_classes, hidden_size, dropout_micros: 500000 }
    }

    /// The same architecture with another dropout rate.
    pub fn with_dropout(self, dropout_micros: u32) -> (c: Self)
        requires
            dropout_micros <= MICROS_ONE,
        ensures
            c == (ModelConfig { dropout_micros, ..self }),
            self.wf() ==> c.wf(),
    {
        ModelConfig { dropout_micros, ..self }
    }
}

/// Adam optimizer settings, in millionths (betas) and billionths (epsilon).
#[derive(Clone, Copy, Debug, PartialEq, Eq, Structural)]
pub struct OptimizerConfig {
    pub beta_1_micros: u32,
    pub beta_2_micros: u32,
    pub epsilon_nanos: u64,
}

impl OptimizerConfig {
    /// Both moment decays are rates strictly below one.
    pub open spec fn wf(self) -> bool {
        &&& self.beta_1_micros < MICROS_ONE
        &&& self.beta_2_micros < MICROS_ONE
    }

    /// The stock Adam settings: beta_1 = 0.9, beta_2 = 0.999, eps = 1e-5.
    pub fn new() -> (c: Self)
        ensures
            c == (OptimizerConfig {
                beta_1_micros: 900000u32,
                beta_2_micros: 999000u32,
                epsilon_nanos: 10000u64,
            }),
            c.wf(),
    {
        OptimizerConfig { beta_1_micros: 900000, beta_2_micros: 999000, epsilon_nanos: 10000 }
    }
}

/// Everything a training run needs, and everything inference must reload
/// to rebuild the same model: architecture, optimizer settings, schedule
/// sizes and the seed. The learning rate is held in billionths.
#[derive(Clone, Copy, Debug, PartialEq, Eq, Structural)]
pub struct TrainingConfig {
    pub model: ModelConfig,
    pub optimizer: OptimizerConfig,
    pub num_epochs: u32,
    pub batch_size: u32,
    pub num_workers: u32,
    pub seed: u64,
    pub learning_rate_nanos: u64,
}

impl TrainingConfig {
    pub open spec fn wf(self) -> bool {
        &&& self.model.wf()
        &&& self.optimizer.wf()
        &&& self.num_epochs >= 1
        &&& self.batch_size >= 1
    }

    pub fn new(
        model: ModelConfig,
        optimizer: OptimizerConfig,
        num_epochs: u32,
        batch_size: u32,
        num_workers: u32,
        seed: u64,
        learning_rate_nanos: u64,
    ) -> (c: Self)
        requires
            model.wf(),
            optimizer.wf(),
            num_epochs >= 1,
            batch_size >= 1,
        ensures
            c == (TrainingConfig {
                model,
                optimizer,
                num_epochs,
                batch_size,
                num_workers,
                seed,
                learning_rate_nanos,
            }),
            c.wf(),
    {
        TrainingConfig {
            model,
            optimizer,
            num_epochs,
            batch_size,
            num_workers,
            seed,
            learning_rate_nanos,
        }
    }
}

} // verus!
