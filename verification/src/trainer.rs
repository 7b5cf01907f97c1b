use vstd::prelude::*;
use crate::config::TrainingConfig;
use crate::error::TrainError;
use crate::metrics::EvalReport;
use crate::schedule::{epoch_schedule, make_batches, spec_concat, spec_identity, spec_next_state,
    spec_shuffle};

verus! {

/// The phases of one training run, in the order the loop passes them:
/// build everything, then one train and one validate pass per epoch, then
/// persist the artifacts.
#[derive(Clone, Copy, Debug, PartialEq, Eq, Structural)]
pub enum Phase {
    Initializing,
    TrainEpoch { epoch: u32 },
    ValidateEpoch { epoch: u32 },
    Finalizing,
    Done,
}

/// The successor of each phase under a run of `num_epochs` epochs.
pub open spec fn spec_next_phase(p: Phase, num_epochs: u32) -> Phase {
    match p {
        Phase::Initializing => Phase::TrainEpoch { epoch: 0 },
        Phase::TrainEpoch { epoch } => Phase::ValidateEpoch { epoch },
        Phase::ValidateEpoch { epoch } => if epoch + 1 < num_epochs {
            Phase::TrainEpoch { epoch: (epoch + 1) as u32 }
        } else {
            Phase::Finalizing
        },
        Phase::Finalizing => Phase::Done,
        Phase::Done => Phase::Done,
    }
}

/// An epoch counter inside a phase never reaches `num_epochs`.
pub open spec fn spec_phase_wf(p: Phase, num_epochs: u32) -> bool {
    match p {
        Phase::TrainEpoch { epoch } => epoch < num_epochs,
        Phase::ValidateEpoch { epoch } => epoch < num_epochs,
        _ => true,
    }
}

/// Steps the run to its next phase. The caller performs the work of the
/// phase it was in; the decision what comes next is made here, and only
/// here.
pub fn next_phase(p: Phase, num_epochs: u32) -> (q: Phase)
    requires
        num_epochs >= 1,
        spec_phase_wf(p, num_epochs),
    ensures
        q == spec_next_phase(p, num_epochs),
        spec_phase_wf(q, num_epochs),
{
    match p {
        Phase::Initializing => Phase::TrainEpoch { epoch: 0 },
        Phase::TrainEpoch { epoch } => Phase::ValidateEpoch { epoch },
        Phase::ValidateEpoch { epoch } => {
            if epoch < num_epochs - 1 {
                Phase::TrainEpoch { epoch: epoch + 1 }
            } else {
                Phase::Finalizing
            }
        },
        Phase::Finalizing => Phase::Done,
        Phase::Done => Phase::Done,
    }
}

/// Running totals of one epoch: how many predictions were scored and how
/// many of them were right. A failed batch aborts the run before it is
/// recorded, so a partial batch never corrupts these aggregates.
#[derive(Clone, Copy, Debug, PartialEq, Eq, Structural)]
pub struct EpochMetrics {
    pub seen: usize,
    pub correct: usize,
}

impl EpochMetrics {
    pub open spec fn wf(self) -> bool {
        self.correct <= self.seen
    }

    pub fn new() -> (m: Self)
        ensures
            m.seen == 0,
            m.correct == 0,
            m.wf(),
    {
        EpochMetrics { seen: 0, correct: 0 }
    }

    /// Folds one completed batch into the epoch totals.
    pub fn record_batch(&mut self, batch_correct: usize, batch_total: usize)
        requires
            batch_correct <= batch_total,
            old(self).wf(),
            old(self).seen + batch_total <= usize::MAX,
        ensures
            final(self).seen == old(self).seen + batch_total,
            final(self).correct == old(self).correct + batch_correct,
            final(self).wf(),
    {
        self.seen = self.seen + batch_total;
        self.correct = self.correct + batch_correct;
    }

    /// The epoch's accuracy report. An epoch that scored nothing (an empty
    /// split) has no accuracy and is an artifact-class error.
    pub fn report(&self) -> (r: Result<EvalReport, TrainError>)
        requires
            self.wf(),
        ensures
            match r {
                Ok(rep) => {
                    &&& self.seen >= 1
                    &&& rep.total == self.seen
                    &&& rep.correct == self.correct
                    &&& rep.wf()
                },
                Err(e) => e == TrainError::ArtifactCorrupt && self.seen == 0,
            },
    {
        if self.seen == 0 {
            return Err(TrainError::ArtifactCorrupt);
        }
        Ok(EvalReport { correct: self.correct, total: self.seen })
    }
}

/// The shuffle seed of one training epoch: the run seed advanced by the
/// epoch number, so each epoch visits items in its own reproducible order.
pub open spec fn spec_epoch_seed(seed: u64, epoch: u32) -> u64 {
    spec_next_state((((seed as int) + epoch) % 0x10000000000000000) as u64)
}

/// The visiting plan of one training epoch: the epoch's seeded shuffle of
/// the `n` training items, cut into batches. A pure function of the run
/// configuration, the item count and the epoch number.
pub fn train_schedule(cfg: &TrainingConfig, n: usize, epoch: u32) -> (r: Vec<Vec<usize>>)
    requires
        cfg.wf(),
    ensures
        spec_concat(r@.map_values(|b: Vec<usize>| b@)) == spec_shuffle(
            spec_epoch_seed(cfg.seed, epoch),
            n as int,
        ),
        forall|b: int| 0 <= b < r@.len() ==> 1 <= (#[trigger] r@[b])@.len() <= cfg.batch_size,
        forall|b: int| 0 <= b < r@.len() - 1 ==> (#[trigger] r@[b])@.len() == cfg.batch_size,
        forall|b: int, k: int|
            0 <= b < r@.len() && 0 <= k < r@[b]@.len() ==> (#[trigger] r@[b]@[k]) < n,
{
    let wide: u128 = cfg.seed as u128 + epoch as u128;
    let mixed: u64 = (wide % 0x10000000000000000u128) as u64;
    let seed = crate::schedule::next_state(mixed);
    epoch_schedule(seed, n, cfg.batch_size as usize)
}

/// The visiting plan of a validation pass: the `n` validation items in
/// their stored order — validation never shuffles — cut into batches.
pub fn validation_schedule(cfg: &TrainingConfig, n: usize) -> (r: Vec<Vec<usize>>)
    requires
        cfg.wf(),
    ensures
        spec_concat(r@.map_values(|b: Vec<usize>| b@)) == spec_identity(n as int),
        forall|b: int| 0 <= b < r@.len() ==> 1 <= (#[trigger] r@[b])@.len() <= cfg.batch_size,
        forall|b: int| 0 <= b < r@.len() - 1 ==> (#[trigger] r@[b])@.len() == cfg.batch_size,
{
    let mut order: Vec<usize> = Vec::new();
    let mut i: usize = 0;
    while i < n
        invariant
            0 <= i <= n,
            order@.len() == i,
            forall|k: int| 0 <= k < i ==> (#[trigger] order@[k]) == k,
        decreases n - i,
    {
        order.push(i);
        i = i + 1;
    }
    proof {
        assert(order@ =~= spec_identity(n as int));
    }
    make_batches(&order, cfg.batch_size as usize)
}

/// The outcome of persisting the two artifacts. What is persisted is
/// always the final epoch's parameter snapshot, never a best-by-validation
/// selection. Training only counts as successful when both the
/// configuration and the snapshot were written durably; a run that
/// trained but could not save is reported failed.
pub fn persist_outcome(config_written: bool, snapshot_written: bool) -> (r: Result<
    (),
    TrainError,
>)
    ensures
        match r {
            Ok(u) => config_written && snapshot_written,
            Err(e) => e == TrainError::PersistenceFailure && !(config_written
                && snapshot_written),
        },
{
    if config_written && snapshot_written {
        Ok(())
    } else {
        Err(TrainError::PersistenceFailure)
    }
}

} // verus!
