use vstd::prelude::*;

verus! {

/// One step of the linear-congruential generator that drives shuffling.
/// The whole schedule of a run is a pure function of the seed.
pub open spec fn spec_next_state(s: u64) -> u64 {
    (((s as int) * 6364136223846793005 + 1442695040888963407) % 0x10000000000000000) as u64
}

/// Advances the generator.
pub fn next_state(s: u64) -> (r: u64)
    ensures
        r == spec_next_state(s),
{
    proof {
        assert((s as int) * 6364136223846793005 <= 0xffffffffffffffff * 6364136223846793005)
            by (nonlinear_arith)
            requires
                s <= 0xffffffffffffffffu64,
        ;
    }
    let wide: u128 = s as u128 * 6364136223846793005u128 + 1442695040888963407u128;
    (wide % 0x10000000000000000u128) as u64
}

/// The identity order of `n` items.
pub open spec fn spec_identity(n: int) -> Seq<usize> {
    Seq::new(n as nat, |i: int| i as usize)
}

/// The tail of the Fisher-Yates walk: positions `i` down to `1`, each
/// swapped with a drawn position at or below it.
pub open spec fn spec_shuffle_from(v: Seq<usize>, state: u64, i: int) -> Seq<usize>
    decreases i,
{
    if i <= 0 {
        v
    } else {
        let st = spec_next_state(state);
        let j = (st as int) % (i + 1);
        spec_shuffle_from(v.update(i, v[j]).update(j, v[i]), st, i - 1)
    }
}

/// The order in which an epoch visits `n` items under `seed`: a pure
/// function of the two, which is what makes a run reproducible.
pub open spec fn spec_shuffle(seed: u64, n: int) -> Seq<usize> {
    spec_shuffle_from(spec_identity(n), seed, n - 1)
}

/// The seeded shuffle of `0 .. n`. The result is the spec order exactly
/// — equal seeds give equal orders — and is a permutation: it holds the
/// same indices as the identity order, each once.
pub fn shuffled_indices(seed: u64, n: usize) -> (v: Vec<usize>)
    ensures
        v@.len() == n,
        v@ == spec_shuffle(seed, n as int),
        v@.to_multiset() == spec_identity(n as int).to_multiset(),
        forall|k: int| 0 <= k < n ==> (#[trigger] v@[k]) < n,
{
    broadcast use vstd::seq_lib::group_to_multiset_ensures;

    let mut v: Vec<usize> = Vec::new();
    let mut idx: usize = 0;
    while idx < n
        invariant
            0 <= idx <= n,
            v@.len() == idx,
            forall|k: int| 0 <= k < idx ==> (#[trigger] v@[k]) == k,
        decreases n - idx,
    {
        v.push(idx);
        idx = idx + 1;
    }
    proof {
        assert(v@ =~= spec_identity(n as int));
    }
    if n == 0 {
        return v;
    }
    let mut state: u64 = seed;
    let mut i: usize = n - 1;
    let ghost init = spec_identity(n as int);
    while i >= 1
        invariant
            0 <= i <= n - 1,
            n >= 1,
            v@.len() == n,
            spec_shuffle_from(v@, state, i as int) == spec_shuffle(seed, n as int),
            v@.to_multiset() == init.to_multiset(),
        decreases i,
    {
        state = next_state(state);
        let j: usize = (state % (i as u64 + 1)) as usize;
        assert(j <= i);
        let ghost pre = v@;
        let vi = v[i];
        let vj = v[j];
        v.set(i, vj);
        v.set(j, vi);
        proof {
            broadcast use vstd::multiset::group_multiset_axioms;

            assert(v@ == pre.update(i as int, pre[j as int]).update(j as int, pre[i as int]));
            let mid = pre.update(i as int, pre[j as int]);
            vstd::seq_lib::to_multiset_update(pre, i as int, pre[j as int]);
            vstd::seq_lib::to_multiset_update(mid, j as int, pre[i as int]);
            vstd::seq_lib::to_multiset_contains(pre, pre[i as int]);
            vstd::seq_lib::to_multiset_contains(pre, pre[j as int]);
            assert(pre.contains(pre[i as int]));
            assert(pre.contains(pre[j as int]));
            assert(pre.to_multiset().count(pre[i as int]) > 0);
            assert(pre.to_multiset().count(pre[j as int]) > 0);
            assert(v@.to_multiset() =~= pre.to_multiset());
        }
        i = i - 1;
    }
    proof {
        assert(spec_shuffle_from(v@, state, 0) == v@);
        assert forall|k: int| 0 <= k < n implies (#[trigger] v@[k]) < n by {
            vstd::seq_lib::to_multiset_contains(v@, v@[k]);
            vstd::seq_lib::to_multiset_contains(init, v@[k]);
            assert(v@.contains(v@[k]));
            assert(init.contains(v@[k]));
            let w = choose|w: int| 0 <= w < init.len() && init[w] == v@[k];
            assert(init[w] < n);
        }
    }
    v
}

/// Equal seeds and sizes give equal epoch orders: the shuffle is a pure
/// function of both, so a rerun of a run revisits items identically.
pub proof fn lemma_shuffle_deterministic(a: Seq<usize>, b: Seq<usize>, seed: u64, n: int)
    requires
        a == spec_shuffle(seed, n),
        b == spec_shuffle(seed, n),
    ensures
        a == b,
{
}

/// The flattening of a batch list back into one order.
pub open spec fn spec_concat(bs: Seq<Seq<usize>>) -> Seq<usize>
    decreases bs.len(),
{
    if bs.len() == 0 {
        Seq::empty()
    } else {
        spec_concat(bs.drop_last()) + bs.last()
    }
}

/// Cuts an epoch order into consecutive batches of `batch_size`, the last
/// one possibly shorter, none empty. The batches concatenate back to the
/// order exactly, which pins the cut completely.
pub fn make_batches(order: &Vec<usize>, batch_size: usize) -> (r: Vec<Vec<usize>>)
    requires
        batch_size >= 1,
    ensures
        spec_concat(r@.map_values(|b: Vec<usize>| b@)) == order@,
        forall|b: int| 0 <= b < r@.len() ==> 1 <= (#[trigger] r@[b])@.len() <= batch_size,
        forall|b: int| 0 <= b < r@.len() - 1 ==> (#[trigger] r@[b])@.len() == batch_size,
{
    let mut r: Vec<Vec<usize>> = Vec::new();
    let mut pos: usize = 0;
    while pos < order.len()
        invariant
            0 <= pos <= order@.len(),
            batch_size >= 1,
            spec_concat(r@.map_values(|b: Vec<usize>| b@)) == order@.take(pos as int),
            forall|b: int| 0 <= b < r@.len() ==> 1 <= (#[trigger] r@[b])@.len() <= batch_size,
            forall|b: int| 0 <= b < r@.len() - 1 ==> (#[trigger] r@[b])@.len() == batch_size,
            r@.len() >= 1 ==> ((#[trigger] r@[r@.len() - 1])@.len() == batch_size || pos
                == order@.len()),
        decreases order@.len() - pos,
    {
        let mut chunk: Vec<usize> = Vec::new();
        let start = pos;
        while pos < order.len() && chunk.len() < batch_size
            invariant
                start <= pos <= order@.len(),
                batch_size >= 1,
                chunk@.len() == pos - start,
                chunk@.len() <= batch_size,
                chunk@ == order@.subrange(start as int, pos as int),
            decreases order@.len() - pos,
        {
            proof {
                assert(order@.subrange(start as int, pos + 1) =~= order@.subrange(
                    start as int,
                    pos as int,
                ).push(order@[pos as int]));
            }
            chunk.push(order[pos]);
            pos = pos + 1;
        }
        proof {
            let ghost mapped = r@.map_values(|b: Vec<usize>| b@);
            assert(r@.push(chunk).map_values(|b: Vec<usize>| b@) =~= mapped.push(chunk@));
            assert(mapped.push(chunk@).drop_last() =~= mapped);
            assert(order@.take(start as int) + order@.subrange(start as int, pos as int)
                =~= order@.take(pos as int));
        }
        r.push(chunk);
    }
    proof {
        assert(order@.take(order@.len() as int) =~= order@);
    }
    r
}

/// One epoch's visiting plan: the seeded shuffle cut into batches. The
/// whole plan is a function of seed, item count and batch size alone.
pub fn epoch_schedule(seed: u64, n: usize, batch_size: usize) -> (r: Vec<Vec<usize>>)
    requires
        batch_size >= 1,
    ensures
        spec_concat(r@.map_values(|b: Vec<usize>| b@)) == spec_shuffle(seed, n as int),
        forall|b: int| 0 <= b < r@.len() ==> 1 <= (#[trigger] r@[b])@.len() <= batch_size,
        forall|b: int| 0 <= b < r@.len() - 1 ==> (#[trigger] r@[b])@.len() == batch_size,
        forall|b: int, k: int|
            0 <= b < r@.len() && 0 <= k < r@[b]@.len() ==> (#[trigger] r@[b]@[k]) < n,
{
    let order = shuffled_indices(seed, n);
    let r = make_batches(&order, batch_size);
    proof {
        lemma_concat_elements(r@.map_values(|b: Vec<usize>| b@), order@);
        assert forall|b: int, k: int|
            0 <= b < r@.len() && 0 <= k < r@[b]@.len() implies (#[trigger] r@[b]@[k]) < n by {
            let mapped = r@.map_values(|x: Vec<usize>| x@);
            assert(mapped[b] == r@[b]@);
            assert(order@.contains(mapped[b][k]));
            let w = choose|w: int| 0 <= w < order@.len() && order@[w] == mapped[b][k];
            assert(order@[w] < n);
        }
    }
    r
}

/// Every element of a batch list is an element of its concatenation.
proof fn lemma_concat_elements(bs: Seq<Seq<usize>>, whole: Seq<usize>)
    requires
        spec_concat(bs) == whole,
    ensures
        forall|b: int, k: int|
            0 <= b < bs.len() && 0 <= k < bs[b].len() ==> whole.contains(#[trigger] bs[b][k]),
    decreases bs.len(),
{
    if bs.len() > 0 {
        lemma_concat_elements(bs.drop_last(), spec_concat(bs.drop_last()));
        assert forall|b: int, k: int|
            0 <= b < bs.len() && 0 <= k < bs[b].len() implies whole.contains(
            #[trigger] bs[b][k],
        ) by {
            if b < bs.len() - 1 {
                assert(bs.drop_last()[b] == bs[b]);
                assert(spec_concat(bs.drop_last()).contains(bs[b][k]));
                let w = choose|w: int|
                    0 <= w < spec_concat(bs.drop_last()).len() && spec_concat(bs.drop_last())[w]
                        == bs[b][k];
                assert(whole[w] == bs[b][k]);
            } else {
                assert(whole[spec_concat(bs.drop_last()).len() + k] == bs[b][k]);
            }
        }
    }
}


/// The serialized length of a batch list whose chunks before the last are
/// all full.
proof fn lemma_concat_len_full(bs: Seq<Seq<usize>>, size: int)
    requires
        bs.len() >= 1,
        size >= 1,
        forall|b: int| 0 <= b < bs.len() ==> 1 <= (#[trigger] bs[b]).len() <= size,
        forall|b: int| 0 <= b < bs.len() - 1 ==> (#[trigger] bs[b]).len() == size,
    ensures
        spec_concat(bs).len() == (bs.len() - 1) * size + bs.last().len(),
    decreases bs.len(),
{
    if bs.len() == 1 {
        assert(spec_concat(bs.drop_last()).len() == 0);
    } else {
        assert(forall|b: int|
            0 <= b < bs.len() - 1 ==> #[trigger] bs.drop_last()[b] == bs[b]);
        lemma_concat_len_full(bs.drop_last(), size);
        assert(bs.drop_last().last().len() == size);
        assert((bs.len() - 2) * size + size == (bs.len() - 1) * size) by (nonlinear_arith);
    }
}

/// The cut of an order into batches is unique: two batch lists over the
/// same order, both with every chunk nonempty, at most the batch size,
/// and all but the last exactly the batch size, are the same list. With
/// the schedule contracts this makes the whole visiting plan of a run a
/// function of seed, item count and batch size — the scheduling half of
/// run-for-run reproducibility.
pub proof fn lemma_batches_unique(
    a: Seq<Seq<usize>>,
    b: Seq<Seq<usize>>,
    whole: Seq<usize>,
    size: int,
)
    requires
        size >= 1,
        spec_concat(a) == whole,
        spec_concat(b) == whole,
        forall|i: int| 0 <= i < a.len() ==> 1 <= (#[trigger] a[i]).len() <= size,
        forall|i: int| 0 <= i < a.len() - 1 ==> (#[trigger] a[i]).len() == size,
        forall|i: int| 0 <= i < b.len() ==> 1 <= (#[trigger] b[i]).len() <= size,
        forall|i: int| 0 <= i < b.len() - 1 ==> (#[trigger] b[i]).len() == size,
    ensures
        a == b,
    decreases a.len(),
{
    if a.len() == 0 || b.len() == 0 {
        if a.len() == 0 && b.len() > 0 {
            lemma_concat_len_full(b, size);
        }
        if b.len() == 0 && a.len() > 0 {
            lemma_concat_len_full(a, size);
        }
        assert(a =~= b);
    } else {
        lemma_concat_len_full(a, size);
        lemma_concat_len_full(b, size);
        let n = whole.len() as int;
        assert(a.len() == b.len()) by {
            if a.len() < b.len() {
                assert((a.len() - 1) * size + size == a.len() * size) by (nonlinear_arith);
                assert(n <= a.len() * size);
                assert(a.len() * size <= (b.len() - 1) * size) by (nonlinear_arith)
                    requires
                        size >= 1,
                        a.len() <= b.len() - 1,
                ;
                assert((b.len() - 1) * size < n);
            }
            if b.len() < a.len() {
                assert((b.len() - 1) * size + size == b.len() * size) by (nonlinear_arith);
                assert(n <= b.len() * size);
                assert(b.len() * size <= (a.len() - 1) * size) by (nonlinear_arith)
                    requires
                        size >= 1,
                        b.len() <= a.len() - 1,
                ;
                assert((a.len() - 1) * size < n);
            }
        }
        assert(a.last().len() == b.last().len());
        let cut = n - a.last().len();
        assert(a.last() =~= whole.subrange(cut, n)) by {
            assert(forall|k: int|
                0 <= k < a.last().len() ==> whole[cut + k] == #[trigger] a.last()[k]);
        }
        assert(b.last() =~= whole.subrange(cut, n)) by {
            assert(forall|k: int|
                0 <= k < b.last().len() ==> whole[cut + k] == #[trigger] b.last()[k]);
        }
        assert(spec_concat(a.drop_last()) =~= whole.take(cut)) by {
            assert(forall|k: int|
                0 <= k < cut ==> whole[k] == #[trigger] spec_concat(a.drop_last())[k]);
        }
        assert(spec_concat(b.drop_last()) =~= whole.take(cut)) by {
            assert(forall|k: int|
                0 <= k < cut ==> whole[k] == #[trigger] spec_concat(b.drop_last())[k]);
        }
        assert(forall|i: int| 0 <= i < a.len() - 1 ==> #[trigger] a.drop_last()[i] == a[i]);
        assert(forall|i: int| 0 <= i < b.len() - 1 ==> #[trigger] b.drop_last()[i] == b[i]);
        lemma_batches_unique(a.drop_last(), b.drop_last(), whole.take(cut), size);
        assert forall|i: int| 0 <= i < a.len() implies #[trigger] a[i] == b[i] by {
            if i < a.len() - 1 {
                assert(a[i] == a.drop_last()[i]);
                assert(b[i] == b.drop_last()[i]);
                assert(a.drop_last()[i] == b.drop_last()[i]);
            } else {
                assert(a[i] == a.last() && b[i] == b.last());
            }
        }
        assert(a =~= b);
    }
}

} // verus!
