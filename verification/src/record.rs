use vstd::prelude::*;
use crate::codec::{push_u32, push_u64, read_u32, spec_u32_le, spec_u64_le};
use crate::config::ModelConfig;
use crate::error::TrainError;
use crate::snapshot::{param_dims, param_id_at, param_len64, spec_param_dims, spec_param_id_at,
    spec_param_len, spec_snapshot_matches, spec_tensor_matches, ParamId, ParamTensor, Snapshot,
    PARAM_COUNT};

verus! {

/// The four bytes that open every serialized parameter snapshot.
pub const SNAPSHOT_MAGIC: u32 = 0x31504e53;

/// The numeric name under which each parameter tensor is keyed on disk.
pub open spec fn spec_tag(id: ParamId) -> u32 {
    match id {
        ParamId::Conv1Weight => 0,
        ParamId::Conv1Bias => 1,
        ParamId::Conv2Weight => 2,
        ParamId::Conv2Bias => 3,
        ParamId::Linear1Weight => 4,
        ParamId::Linear1Bias => 5,
        ParamId::Linear2Weight => 6,
        ParamId::Linear2Bias => 7,
    }
}

/// The on-disk key of a parameter tensor.
pub fn tag_of(id: ParamId) -> (t: u32)
    ensures
        t == spec_tag(id),
{
    match id {
        ParamId::Conv1Weight => 0,
        ParamId::Conv1Bias => 1,
        ParamId::Conv2Weight => 2,
        ParamId::Conv2Bias => 3,
        ParamId::Linear1Weight => 4,
        ParamId::Linear1Bias => 5,
        ParamId::Linear2Weight => 6,
        ParamId::Linear2Bias => 7,
    }
}

/// A run of 32-bit words, each in little-endian bytes.
pub open spec fn spec_words_le(ws: Seq<u32>) -> Seq<u8>
    decreases ws.len(),
{
    if ws.len() == 0 {
        Seq::empty()
    } else {
        spec_words_le(ws.drop_last()) + spec_u32_le(ws.last())
    }
}

/// A word run serializes to four bytes per word.
pub proof fn lemma_words_le_len(ws: Seq<u32>)
    ensures
        spec_words_le(ws).len() == 4 * ws.len(),
    decreases ws.len(),
{
    if ws.len() > 0 {
        lemma_words_le_len(ws.drop_last());
    }
}

/// The on-disk form of one parameter tensor: its key, its rank, its
/// dimensions, its value count, then its values.
pub open spec fn spec_encode_tensor(t: ParamTensor) -> Seq<u8> {
    spec_u32_le(spec_tag(t.id)) + spec_u32_le(t.dims@.len() as u32) + spec_words_le(t.dims@)
        + spec_u64_le(t.values@.len() as u64) + spec_words_le(t.values@)
}

/// The concatenated forms of a run of tensors.
pub open spec fn spec_encode_tensors(ts: Seq<ParamTensor>) -> Seq<u8>
    decreases ts.len(),
{
    if ts.len() == 0 {
        Seq::empty()
    } else {
        spec_encode_tensors(ts.drop_last()) + spec_encode_tensor(ts.last())
    }
}

/// The on-disk form of a whole snapshot: the magic word, the tensor
/// count, then every tensor in snapshot order.
pub open spec fn spec_encode_snapshot(s: Snapshot) -> Seq<u8> {
    spec_u32_le(SNAPSHOT_MAGIC) + spec_u32_le(s.tensors@.len() as u32) + spec_encode_tensors(
        s.tensors@,
    )
}

/// A snapshot whose counts fit the on-disk width fields.
pub open spec fn spec_encodable(s: Snapshot) -> bool {
    &&& s.tensors@.len() <= 0xffffffff
    &&& forall|i: int|
        0 <= i < s.tensors@.len() ==> (#[trigger] s.tensors@[i]).dims@.len() <= 0xffffffff
}

/// Appends the words of `ws`.
fn push_words(out: &mut Vec<u8>, ws: &Vec<u32>)
    ensures
        final(out)@ == old(out)@ + spec_words_le(ws@),
{
    let mut j: usize = 0;
    while j < ws.len()
        invariant
            0 <= j <= ws@.len(),
            out@ == old(out)@ + spec_words_le(ws@.take(j as int)),
        decreases ws@.len() - j,
    {
        proof {
            assert(ws@.take(j + 1).drop_last() =~= ws@.take(j as int));
            assert(ws@.take(j + 1).last() == ws@[j as int]);
        }
        push_u32(out, ws[j]);
        j = j + 1;
    }
    proof {
        assert(ws@.take(ws@.len() as int) =~= ws@);
    }
}

/// Serializes one tensor.
fn encode_tensor(out: &mut Vec<u8>, t: &ParamTensor)
    requires
        t.dims@.len() <= 0xffffffff,
    ensures
        final(out)@ == old(out)@ + spec_encode_tensor(*t),
{
    push_u32(out, tag_of(t.id));
    push_u32(out, t.dims.len() as u32);
    push_words(out, &t.dims);
    push_u64(out, t.values.len() as u64);
    push_words(out, &t.values);
    proof {
        assert(out@ =~= old(out)@ + spec_encode_tensor(*t));
    }
}

/// Serializes a snapshot.
pub fn encode_snapshot(s: &Snapshot) -> (r: Vec<u8>)
    requires
        spec_encodable(*s),
    ensures
        r@ == spec_encode_snapshot(*s),
{
    let mut out: Vec<u8> = Vec::new();
    push_u32(&mut out, SNAPSHOT_MAGIC);
    push_u32(&mut out, s.tensors.len() as u32);
    let ghost header = out@;
    let mut i: usize = 0;
    while i < s.tensors.len()
        invariant
            0 <= i <= s.tensors@.len(),
            spec_encodable(*s),
            out@ == header + spec_encode_tensors(s.tensors@.take(i as int)),
        decreases s.tensors@.len() - i,
    {
        proof {
            assert(s.tensors@.take(i + 1).drop_last() =~= s.tensors@.take(i as int));
            assert(s.tensors@.take(i + 1).last() == s.tensors@[i as int]);
        }
        encode_tensor(&mut out, &s.tensors[i]);
        i = i + 1;
    }
    proof {
        assert(s.tensors@.take(s.tensors@.len() as int) =~= s.tensors@);
    }
    out
}


/// The serialized size of the schema's tensor at position `i`.
pub open spec fn spec_tensor_size(cfg: ModelConfig, i: int) -> int {
    16 + 4 * spec_param_dims(cfg, spec_param_id_at(i)).len() + 4 * spec_param_len(
        cfg,
        spec_param_id_at(i),
    )
}

/// The byte offset at which the schema's tensor `i` stands in a
/// serialized snapshot, after the eight header bytes.
pub open spec fn spec_tensor_offset(cfg: ModelConfig, i: int) -> int
    decreases i,
{
    if i <= 0 {
        8
    } else {
        spec_tensor_offset(cfg, i - 1) + spec_tensor_size(cfg, i - 1)
    }
}

/// Offsets grow with the position.
proof fn lemma_offset_monotone(cfg: ModelConfig, a: int, b: int)
    requires
        0 <= a <= b,
    ensures
        spec_tensor_offset(cfg, a) + spec_tensor_size(cfg, a) <= spec_tensor_offset(cfg, b)
            + spec_tensor_size(cfg, b),
        spec_tensor_offset(cfg, a) <= spec_tensor_offset(cfg, b),
    decreases b - a,
{
    if a < b {
        lemma_offset_monotone(cfg, a + 1, b);
    }
}

/// A tensor that matches schema position `i` serializes to that
/// position's size.
proof fn lemma_enc_tensor_size(t: ParamTensor, cfg: ModelConfig, i: int)
    requires
        spec_tensor_matches(t, cfg, i),
    ensures
        spec_encode_tensor(t).len() == spec_tensor_size(cfg, i),
{
    lemma_words_le_len(t.dims@);
    lemma_words_le_len(t.values@);
}

/// A tensor run matching the schema prefix serializes to the prefix's
/// total size.
proof fn lemma_enc_tensors_len(ts: Seq<ParamTensor>, cfg: ModelConfig, m: int)
    requires
        ts.len() == m,
        0 <= m,
        forall|i: int| 0 <= i < m ==> spec_tensor_matches(#[trigger] ts[i], cfg, i),
    ensures
        spec_encode_tensors(ts).len() == spec_tensor_offset(cfg, m) - 8,
    decreases m,
{
    if m > 0 {
        assert(forall|i: int| 0 <= i < m - 1 ==> #[trigger] ts.drop_last()[i] == ts[i]);
        lemma_enc_tensors_len(ts.drop_last(), cfg, m - 1);
        lemma_enc_tensor_size(ts.last(), cfg, m - 1);
    }
}

/// The four bytes of word `k` inside a serialized word run.
proof fn lemma_words_le_at(ws: Seq<u32>, k: int)
    requires
        0 <= k < ws.len(),
    ensures
        spec_words_le(ws).subrange(4 * k, 4 * k + 4) == spec_u32_le(ws[k]),
    decreases ws.len(),
{
    lemma_words_le_len(ws);
    lemma_words_le_len(ws.drop_last());
    if k == ws.len() - 1 {
        assert(spec_words_le(ws).subrange(4 * k, 4 * k + 4) =~= spec_u32_le(ws[k]));
    } else {
        lemma_words_le_at(ws.drop_last(), k);
        assert(spec_words_le(ws).subrange(4 * k, 4 * k + 4) =~= spec_words_le(
            ws.drop_last(),
        ).subrange(4 * k, 4 * k + 4));
    }
}

/// Value counts implied by the schema are never negative.
proof fn lemma_param_len_nonneg(cfg: ModelConfig, id: ParamId)
    ensures
        spec_param_len(cfg, id) >= 0,
{
    assert(1024 * (cfg.hidden_size as int) >= 0) by (nonlinear_arith);
    assert((cfg.hidden_size as int) * (cfg.num_classes as int) >= 0) by (nonlinear_arith);
}

/// Where the values of tensor `i` stand inside a serialized tensor run.
#[verifier::rlimit(100)]
proof fn lemma_enc_values_region(ts: Seq<ParamTensor>, cfg: ModelConfig, m: int, i: int)
    requires
        ts.len() == m,
        0 <= i < m,
        forall|j: int| 0 <= j < m ==> spec_tensor_matches(#[trigger] ts[j], cfg, j),
    ensures
        spec_encode_tensors(ts).subrange(
            spec_tensor_offset(cfg, i) - 8 + 16 + 4 * spec_param_dims(
                cfg,
                spec_param_id_at(i),
            ).len(),
            spec_tensor_offset(cfg, i + 1) - 8,
        ) == spec_words_le(ts[i].values@),
    decreases m,
{
    let t = ts[i];
    let head_len = 16 + 4 * spec_param_dims(cfg, spec_param_id_at(i)).len();
    let lo = spec_tensor_offset(cfg, i) - 8 + head_len;
    let hi = spec_tensor_offset(cfg, i + 1) - 8;
    lemma_words_le_len(t.dims@);
    lemma_words_le_len(t.values@);
    lemma_param_len_nonneg(cfg, spec_param_id_at(i));
    lemma_offset_monotone(cfg, 0, i);
    assert(lo >= 0);
    if i == m - 1 {
        assert(forall|j: int| 0 <= j < m - 1 ==> #[trigger] ts.drop_last()[j] == ts[j]);
        lemma_enc_tensors_len(ts.drop_last(), cfg, m - 1);
        let head = spec_u32_le(spec_tag(t.id)) + spec_u32_le(t.dims@.len() as u32)
            + spec_words_le(t.dims@) + spec_u64_le(t.values@.len() as u64);
        assert(spec_encode_tensor(t) == head + spec_words_le(t.values@));
        assert(head.len() == head_len);
        assert(spec_encode_tensors(ts).subrange(lo, hi) =~= spec_words_le(t.values@));
    } else {
        assert(forall|j: int| 0 <= j < m - 1 ==> #[trigger] ts.drop_last()[j] == ts[j]);
        lemma_enc_values_region(ts.drop_last(), cfg, m - 1, i);
        lemma_enc_tensors_len(ts.drop_last(), cfg, m - 1);
        lemma_offset_monotone(cfg, i + 1, m - 1);
        assert(spec_tensor_offset(cfg, i + 1) == spec_tensor_offset(cfg, i) + spec_tensor_size(
            cfg,
            i,
        ));
        assert(hi <= spec_tensor_offset(cfg, m - 1) - 8);
        let rest = spec_encode_tensors(ts.drop_last());
        assert(rest.len() == spec_tensor_offset(cfg, m - 1) - 8);
        assert(spec_encode_tensors(ts) == rest + spec_encode_tensor(ts.last()));
        assert(forall|x: int|
            0 <= x < rest.len() ==> (rest + spec_encode_tensor(ts.last()))[x]
                == (#[trigger] rest[x]));
        assert(spec_encode_tensors(ts).subrange(lo, hi) =~= rest.subrange(lo, hi));
    }
}

/// Serialization reads only the name, shape and values of each tensor.
proof fn lemma_enc_congruent(ts1: Seq<ParamTensor>, ts2: Seq<ParamTensor>)
    requires
        ts1.len() == ts2.len(),
        forall|i: int|
            0 <= i < ts1.len() ==> {
                &&& (#[trigger] ts1[i]).id == ts2[i].id
                &&& ts1[i].dims@ == ts2[i].dims@
                &&& ts1[i].values@ == ts2[i].values@
            },
    ensures
        spec_encode_tensors(ts1) == spec_encode_tensors(ts2),
    decreases ts1.len(),
{
    if ts1.len() > 0 {
        assert(forall|i: int| 0 <= i < ts1.len() - 1 ==> #[trigger] ts1.drop_last()[i] == ts1[i]);
        assert(forall|i: int| 0 <= i < ts2.len() - 1 ==> #[trigger] ts2.drop_last()[i] == ts2[i]);
        lemma_enc_congruent(ts1.drop_last(), ts2.drop_last());
        assert(spec_encode_tensor(ts1.last()) == spec_encode_tensor(ts2.last()));
    }
}

/// Whether two byte strings are equal.
fn eq_bytes(a: &Vec<u8>, b: &Vec<u8>) -> (r: bool)
    ensures
        r == (a@ == b@),
{
    if a.len() != b.len() {
        return false;
    }
    let mut i: usize = 0;
    while i < a.len()
        invariant
            0 <= i <= a@.len(),
            a@.len() == b@.len(),
            forall|k: int| 0 <= k < i ==> a@[k] == b@[k],
        decreases a@.len() - i,
    {
        if a[i] != b[i] {
            return false;
        }
        i = i + 1;
    }
    proof {
        assert(a@ =~= b@);
    }
    true
}


/// Where the values of the schema's tensor `i` begin in a serialized
/// snapshot.
pub open spec fn spec_value_pos(cfg: ModelConfig, i: int) -> int {
    spec_tensor_offset(cfg, i) + 16 + 4 * spec_param_dims(cfg, spec_param_id_at(i)).len()
}

/// What it means for a byte string to be an artifact: the serialized form
/// of some snapshot that matches the architecture `cfg`.
pub open spec fn spec_denotes(bytes: Seq<u8>, s: Snapshot, cfg: ModelConfig) -> bool {
    &&& spec_snapshot_matches(s, cfg)
    &&& bytes == spec_encode_snapshot(s)
}

/// One stored value of a denoted artifact, at its computed position.
#[verifier::rlimit(100)]
proof fn lemma_denoted_value(bytes: Seq<u8>, s: Snapshot, cfg: ModelConfig, i: int, k: int)
    requires
        spec_denotes(bytes, s, cfg),
        0 <= i < PARAM_COUNT,
        0 <= k < s.tensors@[i].values@.len(),
    ensures
        crate::codec::spec_u32_at(bytes, spec_value_pos(cfg, i) + 4 * k)
            == s.tensors@[i].values@[k],
{
    lemma_enc_tensors_len(s.tensors@, cfg, PARAM_COUNT as int);
    let header = spec_u32_le(SNAPSHOT_MAGIC) + spec_u32_le(s.tensors@.len() as u32);
    let et = spec_encode_tensors(s.tensors@);
    assert(bytes == header + et);
    assert(header.len() == 8);
    let vals = s.tensors@[i].values@;
    let vp = spec_value_pos(cfg, i);
    lemma_enc_values_region(s.tensors@, cfg, PARAM_COUNT as int, i);
    lemma_words_le_at(vals, k);
    lemma_words_le_len(vals);
    lemma_offset_monotone(cfg, i + 1, PARAM_COUNT as int);
    assert(spec_tensor_offset(cfg, i + 1) == vp + 4 * vals.len());
    let region = et.subrange(vp - 8, spec_tensor_offset(cfg, i + 1) - 8);
    assert(region == spec_words_le(vals));
    assert(region.subrange(4 * k, 4 * k + 4) == spec_u32_le(vals[k]));
    assert(forall|y: int| 0 <= y < et.len() ==> bytes[8 + y] == (#[trigger] et[y]));
    lemma_offset_monotone(cfg, 0, i);
    assert(vp >= 24);
    assert(bytes.len() == spec_tensor_offset(cfg, PARAM_COUNT as int));
    assert(vp + 4 * k + 4 <= spec_tensor_offset(cfg, i + 1));
    assert(spec_tensor_offset(cfg, i + 1) <= bytes.len());
    assert(region.len() == 4 * vals.len());
    assert(bytes.subrange(vp + 4 * k, vp + 4 * k + 4) =~= region.subrange(4 * k, 4 * k + 4));
    crate::codec::lemma_u32_at_le(vals[k], bytes, vp + 4 * k);
}

/// The layout of a denoted artifact: its exact length, and each stored
/// value at its computed position.
proof fn lemma_denotation_layout(bytes: Seq<u8>, s: Snapshot, cfg: ModelConfig)
    requires
        spec_denotes(bytes, s, cfg),
    ensures
        bytes.len() == spec_tensor_offset(cfg, PARAM_COUNT as int),
        forall|i: int, k: int|
            0 <= i < PARAM_COUNT && 0 <= k < s.tensors@[i].values@.len()
                ==> crate::codec::spec_u32_at(bytes, spec_value_pos(cfg, i) + 4 * k) == (
            #[trigger] s.tensors@[i].values@[k]),
{
    lemma_enc_tensors_len(s.tensors@, cfg, PARAM_COUNT as int);
    assert(bytes.len() == spec_tensor_offset(cfg, PARAM_COUNT as int));
    assert forall|i: int, k: int|
        0 <= i < PARAM_COUNT && 0 <= k < s.tensors@[i].values@.len()
            implies crate::codec::spec_u32_at(bytes, spec_value_pos(cfg, i) + 4 * k) == (
        #[trigger] s.tensors@[i].values@[k]) by {
        lemma_denoted_value(bytes, s, cfg, i, k);
    }
}

/// Deserializes a snapshot against the architecture of `cfg`: the layout
/// is walked with the schema's shapes, the values are taken from the
/// bytes, and the result is accepted only if its serialized form is
/// byte-for-byte the input. So a success is exactly a snapshot that
/// matches the architecture and denotes those bytes, and a failure means
/// no matching snapshot denotes them: the artifact is corrupt.
pub fn decode_snapshot(bytes: &Vec<u8>, cfg: &ModelConfig) -> (r: Result<Snapshot, TrainError>)
    requires
        cfg.wf(),
    ensures
        match r {
            Ok(s) => spec_denotes(bytes@, s, *cfg),
            Err(e) => {
                &&& e == TrainError::ArtifactCorrupt
                &&& forall|s: Snapshot| !#[trigger] spec_denotes(bytes@, s, *cfg)
            },
        },
{
    let n = bytes.len();
    if n < 8 {
        proof {
            assert forall|s: Snapshot| !#[trigger] spec_denotes(bytes@, s, *cfg) by {
                if spec_denotes(bytes@, s, *cfg) {
                    lemma_denotation_layout(bytes@, s, *cfg);
                    lemma_offset_monotone(*cfg, 0, PARAM_COUNT as int);
                }
            }
        }
        return Err(TrainError::ArtifactCorrupt);
    }
    let mut pos: usize = 8;
    let mut tensors: Vec<ParamTensor> = Vec::new();
    let mut i: usize = 0;
    while i < PARAM_COUNT
        invariant
            0 <= i <= PARAM_COUNT,
            cfg.wf(),
            n == bytes@.len(),
            8 <= pos <= n,
            pos == spec_tensor_offset(*cfg, i as int),
            tensors@.len() == i,
            forall|k: int| 0 <= k < i ==> spec_tensor_matches(#[trigger] tensors@[k], *cfg, k),
            forall|t: int, j: int|
                0 <= t < i && 0 <= j < tensors@[t].values@.len()
                    ==> (#[trigger] tensors@[t].values@[j]) == crate::codec::spec_u32_at(
                    bytes@,
                    spec_value_pos(*cfg, t) + 4 * j,
                ),
        decreases PARAM_COUNT - i,
    {
        let id = param_id_at(i);
        let dims = param_dims(cfg, id);
        let nvals = param_len64(cfg, id);
        let head: usize = 16 + 4 * dims.len();
        proof {
            lemma_param_len_nonneg(*cfg, spec_param_id_at(i as int));
            assert(spec_tensor_offset(*cfg, i + 1) == spec_tensor_offset(*cfg, i as int)
                + spec_tensor_size(*cfg, i as int));
        }
        if n - pos < head {
            proof {
                assert forall|s: Snapshot| !#[trigger] spec_denotes(bytes@, s, *cfg) by {
                    if spec_denotes(bytes@, s, *cfg) {
                        lemma_denotation_layout(bytes@, s, *cfg);
                        lemma_offset_monotone(*cfg, i + 1, PARAM_COUNT as int);
                    }
                }
            }
            return Err(TrainError::ArtifactCorrupt);
        }
        let body = pos + head;
        let room: u64 = ((n - body) / 4) as u64;
        if nvals > room {
            proof {
                assert forall|s: Snapshot| !#[trigger] spec_denotes(bytes@, s, *cfg) by {
                    if spec_denotes(bytes@, s, *cfg) {
                        lemma_denotation_layout(bytes@, s, *cfg);
                        lemma_offset_monotone(*cfg, i + 1, PARAM_COUNT as int);
                        assert(4 * (nvals as int) <= n - body);
                        assert(nvals as int <= (n - body) as int / 4);
                    }
                }
            }
            return Err(TrainError::ArtifactCorrupt);
        }
        let count = nvals as usize;
        proof {
            assert(body == spec_value_pos(*cfg, i as int));
        }
        let mut values: Vec<u32> = Vec::new();
        let mut k: usize = 0;
        while k < count
            invariant
                0 <= k <= count,
                n == bytes@.len(),
                body + 4 * count <= n,
                values@.len() == k,
                forall|j: int|
                    0 <= j < k ==> #[trigger] values@[j] == crate::codec::spec_u32_at(
                        bytes@,
                        body + 4 * j,
                    ),
            decreases count - k,
        {
            values.push(read_u32(bytes, body + 4 * k));
            k = k + 1;
        }
        pos = body + 4 * count;
        proof {
            assert(spec_tensor_matches(ParamTensor { id, dims, values }, *cfg, i as int));
        }
        tensors.push(ParamTensor { id, dims, values });
        i = i + 1;
    }
    if pos != n {
        proof {
            assert forall|s: Snapshot| !#[trigger] spec_denotes(bytes@, s, *cfg) by {
                if spec_denotes(bytes@, s, *cfg) {
                    lemma_denotation_layout(bytes@, s, *cfg);
                }
            }
        }
        return Err(TrainError::ArtifactCorrupt);
    }
    let snap = Snapshot { tensors };
    proof {
        assert(spec_snapshot_matches(snap, *cfg));
        assert forall|j: int|
            0 <= j < snap.tensors@.len() implies (#[trigger] snap.tensors@[j]).dims@.len()
            <= 0xffffffff by {
            assert(spec_tensor_matches(snap.tensors@[j], *cfg, j));
        }
    }
    let again = encode_snapshot(&snap);
    if eq_bytes(bytes, &again) {
        Ok(snap)
    } else {
        proof {
            assert forall|s: Snapshot| !#[trigger] spec_denotes(bytes@, s, *cfg) by {
                if spec_denotes(bytes@, s, *cfg) {
                    lemma_denotation_layout(bytes@, s, *cfg);
                    assert forall|t: int|
                        0 <= t < PARAM_COUNT implies {
                        &&& (#[trigger] snap.tensors@[t]).id == s.tensors@[t].id
                        &&& snap.tensors@[t].dims@ == s.tensors@[t].dims@
                        &&& snap.tensors@[t].values@ == s.tensors@[t].values@
                    } by {
                        assert(spec_tensor_matches(snap.tensors@[t], *cfg, t));
                        assert(spec_tensor_matches(s.tensors@[t], *cfg, t));
                        assert(snap.tensors@[t].values@ =~= s.tensors@[t].values@) by {
                            assert(forall|j: int|
                                0 <= j < s.tensors@[t].values@.len()
                                    ==> (#[trigger] s.tensors@[t].values@[j])
                                    == crate::codec::spec_u32_at(
                                    bytes@,
                                    spec_value_pos(*cfg, t) + 4 * j,
                                ));
                        }
                    }
                    lemma_enc_congruent(snap.tensors@, s.tensors@);
                    assert(spec_encode_snapshot(snap) == spec_encode_snapshot(s));
                    assert(again@ == bytes@);
                }
            }
        }
        Err(TrainError::ArtifactCorrupt)
    }
}

/// Splitting a concatenation whose suffix lengths agree recovers the parts.
proof fn lemma_concat_split(a1: Seq<u8>, b1: Seq<u8>, a2: Seq<u8>, b2: Seq<u8>)
    requires
        a1 + b1 == a2 + b2,
        b1.len() == b2.len(),
    ensures
        a1 == a2,
        b1 == b2,
{
    assert((a1 + b1).len() == a1.len() + b1.len());
    assert((a2 + b2).len() == a2.len() + b2.len());
    assert(a1.len() == a2.len());
    assert(a1 =~= a2) by {
        assert(forall|i: int| 0 <= i < a1.len() ==> (a1 + b1)[i] == #[trigger] a1[i]);
        assert(forall|i: int| 0 <= i < a2.len() ==> (a2 + b2)[i] == #[trigger] a2[i]);
    }
    assert(b1 =~= b2) by {
        assert(forall|i: int|
            0 <= i < b1.len() ==> (a1 + b1)[a1.len() + i] == #[trigger] b1[i]);
        assert(forall|i: int|
            0 <= i < b2.len() ==> (a2 + b2)[a2.len() + i] == #[trigger] b2[i]);
    }
}

/// Words with the same serialized form are the same words.
proof fn lemma_words_le_inj(a: Seq<u32>, b: Seq<u32>)
    requires
        a.len() == b.len(),
        spec_words_le(a) == spec_words_le(b),
    ensures
        a == b,
    decreases a.len(),
{
    if a.len() > 0 {
        lemma_concat_split(
            spec_words_le(a.drop_last()),
            spec_u32_le(a.last()),
            spec_words_le(b.drop_last()),
            spec_u32_le(b.last()),
        );
        crate::codec::lemma_u32_round(a.last());
        crate::codec::lemma_u32_round(b.last());
        assert(crate::codec::spec_u32_at(spec_u32_le(a.last()), 0) == crate::codec::spec_u32_at(
            spec_u32_le(b.last()),
            0,
        ));
        lemma_words_le_inj(a.drop_last(), b.drop_last());
        assert(a =~= b) by {
            assert(forall|i: int|
                0 <= i < a.len() - 1 ==> #[trigger] a[i] == a.drop_last()[i]);
            assert(forall|i: int|
                0 <= i < b.len() - 1 ==> #[trigger] b[i] == b.drop_last()[i]);
        }
    } else {
        assert(a =~= b);
    }
}

/// Tensor runs that match the same schema prefix and share a serialized
/// form hold the same tensors, value for value.
#[verifier::rlimit(100)]
proof fn lemma_encode_tensors_inj(ts1: Seq<ParamTensor>, ts2: Seq<ParamTensor>, cfg: ModelConfig, m: int)
    requires
        ts1.len() == m,
        ts2.len() == m,
        0 <= m,
        forall|i: int| 0 <= i < m ==> spec_tensor_matches(#[trigger] ts1[i], cfg, i),
        forall|i: int| 0 <= i < m ==> spec_tensor_matches(#[trigger] ts2[i], cfg, i),
        spec_encode_tensors(ts1) == spec_encode_tensors(ts2),
    ensures
        forall|i: int|
            0 <= i < m ==> {
                &&& (#[trigger] ts1[i]).id == ts2[i].id
                &&& ts1[i].dims@ == ts2[i].dims@
                &&& ts1[i].values@ == ts2[i].values@
            },
    decreases m,
{
    if m > 0 {
        let t1 = ts1.last();
        let t2 = ts2.last();
        assert(spec_tensor_matches(ts1[m - 1], cfg, m - 1));
        assert(spec_tensor_matches(ts2[m - 1], cfg, m - 1));
        assert(t1.id == t2.id && t1.dims@ == t2.dims@ && t1.values@.len() == t2.values@.len());
        let head = spec_u32_le(spec_tag(t1.id)) + spec_u32_le(t1.dims@.len() as u32)
            + spec_words_le(t1.dims@) + spec_u64_le(t1.values@.len() as u64);
        assert(spec_encode_tensor(t1) == head + spec_words_le(t1.values@));
        assert(spec_encode_tensor(t2) == head + spec_words_le(t2.values@));
        lemma_words_le_len(t1.values@);
        lemma_words_le_len(t2.values@);
        assert(spec_encode_tensor(t1).len() == spec_encode_tensor(t2).len());
        lemma_concat_split(
            spec_encode_tensors(ts1.drop_last()),
            spec_encode_tensor(t1),
            spec_encode_tensors(ts2.drop_last()),
            spec_encode_tensor(t2),
        );
        lemma_concat_split(head, spec_words_le(t1.values@), head, spec_words_le(t2.values@));
        lemma_words_le_inj(t1.values@, t2.values@);
        assert(forall|i: int| 0 <= i < m - 1 ==> #[trigger] ts1.drop_last()[i] == ts1[i]);
        assert(forall|i: int| 0 <= i < m - 1 ==> #[trigger] ts2.drop_last()[i] == ts2[i]);
        lemma_encode_tensors_inj(ts1.drop_last(), ts2.drop_last(), cfg, m - 1);
        assert forall|i: int|
            0 <= i < m implies {
            &&& (#[trigger] ts1[i]).id == ts2[i].id
            &&& ts1[i].dims@ == ts2[i].dims@
            &&& ts1[i].values@ == ts2[i].values@
        } by {
            if i < m - 1 {
                assert(ts1.drop_last()[i] == ts1[i]);
                assert(ts2.drop_last()[i] == ts2[i]);
            } else {
                assert(ts1[i] == t1 && ts2[i] == t2);
            }
        }
    }
}

/// The snapshot half of the artifact round trip: two snapshots that both
/// match an architecture and serialize to the same bytes hold the same
/// parameters — name, shape and every value. With the decoder's contract
/// (a success is a matching snapshot whose form is the input) this pins
/// the decoded snapshot to the one that was written.
pub proof fn lemma_snapshot_encoding_injective(s1: Snapshot, s2: Snapshot, cfg: ModelConfig)
    requires
        spec_snapshot_matches(s1, cfg),
        spec_snapshot_matches(s2, cfg),
        spec_encode_snapshot(s1) == spec_encode_snapshot(s2),
    ensures
        forall|i: int|
            0 <= i < PARAM_COUNT ==> {
                &&& (#[trigger] s1.tensors@[i]).id == s2.tensors@[i].id
                &&& s1.tensors@[i].dims@ == s2.tensors@[i].dims@
                &&& s1.tensors@[i].values@ == s2.tensors@[i].values@
            },
{
    let header = spec_u32_le(SNAPSHOT_MAGIC) + spec_u32_le(8u32);
    assert(spec_encode_snapshot(s1) == header + spec_encode_tensors(s1.tensors@));
    assert(spec_encode_snapshot(s2) == header + spec_encode_tensors(s2.tensors@));
    assert((header + spec_encode_tensors(s1.tensors@)).skip(8) =~= spec_encode_tensors(
        s1.tensors@,
    ));
    assert((header + spec_encode_tensors(s2.tensors@)).skip(8) =~= spec_encode_tensors(
        s2.tensors@,
    ));
    lemma_encode_tensors_inj(s1.tensors@, s2.tensors@, cfg, PARAM_COUNT as int);
}

} // verus!
