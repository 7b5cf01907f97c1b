use vstd::prelude::*;
use crate::error::TrainError;

verus! {

/// The index of the maximum of `s`, ties broken toward the lowest index:
/// a later entry displaces the running best only when strictly greater.
pub open spec fn spec_argmax(s: Seq<u32>) -> int
    recommends
        s.len() >= 1,
    decreases s.len(),
{
    if s.len() <= 1 {
        0
    } else {
        let rest = spec_argmax(s.drop_last());
        if s.last() > s[rest] {
            s.len() - 1
        } else {
            rest
        }
    }
}

/// `spec_argmax` lands on a maximum, and on the first position holding it.
pub proof fn lemma_argmax_props(s: Seq<u32>)
    requires
        s.len() >= 1,
    ensures
        0 <= spec_argmax(s) < s.len(),
        forall|k: int| 0 <= k < s.len() ==> (#[trigger] s[k]) <= s[spec_argmax(s)],
        forall|k: int| 0 <= k < spec_argmax(s) ==> (#[trigger] s[k]) < s[spec_argmax(s)],
    decreases s.len(),
{
    if s.len() > 1 {
        lemma_argmax_props(s.drop_last());
        assert(forall|k: int| 0 <= k < s.len() - 1 ==> (#[trigger] s[k]) == s.drop_last()[k]);
    }
}

/// The tie-break law: when the maximum is tied between positions `i < j`
/// and `i` is the first position reaching it, the arg-max is `i` — never `j`.
pub proof fn lemma_argmax_tie_break(s: Seq<u32>, i: int, j: int)
    requires
        0 <= i < j < s.len(),
        s[i] == s[j],
        forall|k: int| 0 <= k < s.len() ==> (#[trigger] s[k]) <= s[i],
        forall|k: int| 0 <= k < i ==> (#[trigger] s[k]) < s[i],
    ensures
        spec_argmax(s) == i,
{
    lemma_argmax_props(s);
    let b = spec_argmax(s);
    if b < i {
        assert(s[b] < s[i]);
        assert(s[i] <= s[b]);
    }
    if b > i {
        assert(s[i] < s[b]);
        assert(s[b] <= s[i]);
    }
}

/// The arg-max of one score row. Scores are compared as order-preserving
/// integer keys supplied by the caller.
pub fn argmax(scores: &Vec<u32>) -> (best: usize)
    requires
        scores@.len() >= 1,
    ensures
        best == spec_argmax(scores@),
        best < scores@.len(),
        forall|k: int| 0 <= k < scores@.len() ==> (#[trigger] scores@[k]) <= scores@[best as int],
        forall|k: int| 0 <= k < best ==> (#[trigger] scores@[k]) < scores@[best as int],
{
    let mut best: usize = 0;
    let mut i: usize = 1;
    while i < scores.len()
        invariant
            1 <= i <= scores@.len(),
            scores@.len() >= 1,
            best < i,
            best == spec_argmax(scores@.take(i as int)),
        decreases scores@.len() - i,
    {
        proof {
            assert(scores@.take(i + 1).drop_last() =~= scores@.take(i as int));
            assert(scores@.take(i + 1).last() == scores@[i as int]);
        }
        if scores[i] > scores[best] {
            best = i;
        }
        i = i + 1;
    }
    proof {
        assert(scores@.take(scores@.len() as int) =~= scores@);
        lemma_argmax_props(scores@);
    }
    best
}

/// The predicted class of each row: its arg-max. Every row must carry one
/// score per class; a row of another width is a shape mismatch.
pub fn predict(scores: &Vec<Vec<u32>>, num_classes: u32) -> (r: Result<Vec<usize>, TrainError>)
    requires
        num_classes >= 1,
    ensures
        match r {
            Ok(p) => {
                &&& forall|k: int|
                    0 <= k < scores@.len() ==> #[trigger] scores@[k]@.len() == num_classes
                &&& p@.len() == scores@.len()
                &&& forall|k: int|
                    0 <= k < p@.len() ==> #[trigger] p@[k] == spec_argmax(scores@[k]@)
                &&& forall|k: int| 0 <= k < p@.len() ==> #[trigger] p@[k] < num_classes
            },
            Err(e) => {
                &&& e == TrainError::ShapeMismatch
                &&& exists|k: int|
                    0 <= k < scores@.len() && #[trigger] scores@[k]@.len() != num_classes
            },
        },
{
    let mut preds: Vec<usize> = Vec::new();
    let mut i: usize = 0;
    while i < scores.len()
        invariant
            0 <= i <= scores@.len(),
            num_classes >= 1,
            preds@.len() == i,
            forall|k: int| 0 <= k < i ==> #[trigger] scores@[k]@.len() == num_classes,
            forall|k: int| 0 <= k < i ==> #[trigger] preds@[k] == spec_argmax(scores@[k]@),
            forall|k: int| 0 <= k < i ==> #[trigger] preds@[k] < num_classes,
        decreases scores@.len() - i,
    {
        let row = &scores[i];
        if row.len() != num_classes as usize {
            return Err(TrainError::ShapeMismatch);
        }
        let best = argmax(row);
        preds.push(best);
        i = i + 1;
    }
    Ok(preds)
}

/// How many predictions agree with their targets, position by position.
pub open spec fn spec_correct(p: Seq<usize>, t: Seq<u8>) -> nat
    recommends
        p.len() == t.len(),
    decreases p.len(),
{
    if p.len() == 0 {
        0
    } else {
        spec_correct(p.drop_last(), t.drop_last()) + if p.last() == t.last() as usize {
            1nat
        } else {
            0nat
        }
    }
}

/// Agreement never exceeds the number of positions.
pub proof fn lemma_correct_le_len(p: Seq<usize>, t: Seq<u8>)
    requires
        p.len() == t.len(),
    ensures
        spec_correct(p, t) <= p.len(),
    decreases p.len(),
{
    if p.len() > 0 {
        lemma_correct_le_len(p.drop_last(), t.drop_last());
    }
}

/// All-correct predictions agree everywhere: the count is the full length.
pub proof fn lemma_correct_all(p: Seq<usize>, t: Seq<u8>)
    requires
        p.len() == t.len(),
        forall|k: int| 0 <= k < p.len() ==> p[k] == t[k] as usize,
    ensures
        spec_correct(p, t) == p.len(),
    decreases p.len(),
{
    if p.len() > 0 {
        assert(forall|k: int|
            0 <= k < p.len() - 1 ==> p.drop_last()[k] == p[k] && t.drop_last()[k] == t[k]);
        lemma_correct_all(p.drop_last(), t.drop_last());
    }
}

/// All-incorrect predictions agree nowhere: the count is zero.
pub proof fn lemma_correct_none(p: Seq<usize>, t: Seq<u8>)
    requires
        p.len() == t.len(),
        forall|k: int| 0 <= k < p.len() ==> p[k] != t[k] as usize,
    ensures
        spec_correct(p, t) == 0,
    decreases p.len(),
{
    if p.len() > 0 {
        assert(forall|k: int|
            0 <= k < p.len() - 1 ==> p.drop_last()[k] == p[k] && t.drop_last()[k] == t[k]);
        lemma_correct_none(p.drop_last(), t.drop_last());
    }
}

/// The outcome of comparing predictions against ground truth: accuracy is
/// the exact fraction `correct / total`.
#[derive(Clone, Copy, Debug, PartialEq, Eq, Structural)]
pub struct EvalReport {
    pub correct: usize,
    pub total: usize,
}

impl EvalReport {
    pub open spec fn wf(self) -> bool {
        &&& self.total >= 1
        &&& self.correct <= self.total
    }

    /// Accuracy in basis points (hundredths of a percent), rounded down.
    pub fn accuracy_basis_points(&self) -> (bp: u32)
        requires
            self.wf(),
        ensures
            bp == self.correct * 10000 / (self.total as int),
            bp <= 10000,
    {
        let wide: u128 = self.correct as u128 * 10000 / self.total as u128;
        proof {
            assert(self.correct * 10000 <= self.total * 10000) by (nonlinear_arith)
                requires
                    self.correct <= self.total,
            ;
            assert(self.total * 10000 / self.total as int == 10000) by (nonlinear_arith)
                requires
                    self.total >= 1,
            ;
            vstd::arithmetic::div_mod::lemma_div_is_ordered(
                self.correct * 10000,
                self.total * 10000,
                self.total as int,
            );
        }
        wide as u32
    }
}

/// Compares predictions to targets. An empty sample has no accuracy: it is
/// an artifact-class error, never a division by zero.
pub fn evaluate(preds: &Vec<usize>, targets: &Vec<u8>) -> (r: Result<EvalReport, TrainError>)
    requires
        preds@.len() == targets@.len(),
    ensures
        match r {
            Ok(rep) => {
                &&& targets@.len() >= 1
                &&& rep.total == targets@.len()
                &&& rep.correct == spec_correct(preds@, targets@)
                &&& rep.wf()
            },
            Err(e) => e == TrainError::ArtifactCorrupt && targets@.len() == 0,
        },
{
    if targets.len() == 0 {
        return Err(TrainError::ArtifactCorrupt);
    }
    let mut correct: usize = 0;
    let mut i: usize = 0;
    while i < preds.len()
        invariant
            0 <= i <= preds@.len(),
            preds@.len() == targets@.len(),
            correct == spec_correct(preds@.take(i as int), targets@.take(i as int)),
            correct <= i,
        decreases preds@.len() - i,
    {
        proof {
            assert(preds@.take(i + 1).drop_last() =~= preds@.take(i as int));
            assert(targets@.take(i + 1).drop_last() =~= targets@.take(i as int));
            assert(preds@.take(i + 1).last() == preds@[i as int]);
            assert(targets@.take(i + 1).last() == targets@[i as int]);
        }
        if preds[i] == targets[i] as usize {
            correct = correct + 1;
        }
        i = i + 1;
    }
    proof {
        assert(preds@.take(preds@.len() as int) =~= preds@);
        assert(targets@.take(targets@.len() as int) =~= targets@);
    }
    Ok(EvalReport { correct, total: targets.len() })
}

} // verus!
