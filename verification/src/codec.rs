use vstd::prelude::*;
use crate::config::{ModelConfig, OptimizerConfig, TrainingConfig, MICROS_ONE};
use crate::error::TrainError;

verus! {

/// The little-endian bytes of a 32-bit word.
pub open spec fn spec_u32_le(x: u32) -> Seq<u8> {
    seq![
        (x % 0x100) as u8,
        ((x / 0x100) % 0x100) as u8,
        ((x / 0x10000) % 0x100) as u8,
        ((x / 0x1000000) % 0x100) as u8,
    ]
}

/// The value of the four little-endian bytes at `pos`.
pub open spec fn spec_u32_at(b: Seq<u8>, pos: int) -> int {
    b[pos] + b[pos + 1] * 0x100 + b[pos + 2] * 0x10000 + b[pos + 3] * 0x1000000
}

/// The little-endian bytes of a 64-bit word: low half, then high half.
pub open spec fn spec_u64_le(x: u64) -> Seq<u8> {
    spec_u32_le((x % 0x100000000) as u32) + spec_u32_le((x / 0x100000000) as u32)
}

/// The value of the eight little-endian bytes at `pos`.
pub open spec fn spec_u64_at(b: Seq<u8>, pos: int) -> int {
    spec_u32_at(b, pos) + spec_u32_at(b, pos + 4) * 0x100000000
}

/// Reassembling the bytes of a 32-bit word gives the word back.
pub proof fn lemma_u32_round(x: u32)
    ensures
        spec_u32_at(spec_u32_le(x), 0) == x,
{
    assert((x % 0x100) + ((x / 0x100) % 0x100) * 0x100 + ((x / 0x10000) % 0x100) * 0x10000 + ((x
        / 0x1000000) % 0x100) * 0x1000000 == x) by (nonlinear_arith);
}

/// Four bytes that are the encoding of `x` denote `x`.
pub proof fn lemma_u32_at_le(x: u32, b: Seq<u8>, pos: int)
    requires
        0 <= pos,
        pos + 4 <= b.len(),
        b.subrange(pos, pos + 4) == spec_u32_le(x),
    ensures
        spec_u32_at(b, pos) == x,
{
    assert(b[pos] == spec_u32_le(x)[0]);
    assert(b[pos + 1] == spec_u32_le(x)[1]);
    assert(b[pos + 2] == spec_u32_le(x)[2]);
    assert(b[pos + 3] == spec_u32_le(x)[3]);
    lemma_u32_round(x);
}

/// Reassembling the bytes of a 64-bit word gives the word back.
pub proof fn lemma_u64_at_le(x: u64, b: Seq<u8>, pos: int)
    requires
        0 <= pos,
        pos + 8 <= b.len(),
        b.subrange(pos, pos + 8) == spec_u64_le(x),
    ensures
        spec_u64_at(b, pos) == x,
{
    let lo = (x % 0x100000000) as u32;
    let hi = (x / 0x100000000) as u32;
    let whole = b.subrange(pos, pos + 8);
    assert(whole == spec_u32_le(lo) + spec_u32_le(hi));
    assert(whole.subrange(0, 4) =~= spec_u32_le(lo));
    assert(whole.subrange(4, 8) =~= spec_u32_le(hi));
    assert(b.subrange(pos, pos + 4) =~= whole.subrange(0, 4));
    assert(b.subrange(pos + 4, pos + 8) =~= whole.subrange(4, 8));
    lemma_u32_at_le(lo, b, pos);
    lemma_u32_at_le(hi, b, pos + 4);
    assert(lo + hi * 0x100000000 == x) by (nonlinear_arith)
        requires
            lo == x % 0x100000000,
            hi == x / 0x100000000,
    ;
}

/// Appends the four little-endian bytes of `x`.
pub fn push_u32(out: &mut Vec<u8>, x: u32)
    ensures
        final(out)@ == old(out)@ + spec_u32_le(x),
{
    out.push((x % 0x100) as u8);
    out.push(((x / 0x100) % 0x100) as u8);
    out.push(((x / 0x10000) % 0x100) as u8);
    out.push(((x / 0x1000000) % 0x100) as u8);
    proof {
        assert(out@ =~= old(out)@ + spec_u32_le(x));
    }
}

/// Appends the eight little-endian bytes of `x`.
pub fn push_u64(out: &mut Vec<u8>, x: u64)
    ensures
        final(out)@ == old(out)@ + spec_u64_le(x),
{
    push_u32(out, (x % 0x100000000) as u32);
    push_u32(out, (x / 0x100000000) as u32);
    proof {
        assert(out@ =~= old(out)@ + spec_u64_le(x));
    }
}

/// Reads the 32-bit word at `pos`.
pub fn read_u32(b: &Vec<u8>, pos: usize) -> (r: u32)
    requires
        pos + 4 <= b@.len(),
    ensures
        r == spec_u32_at(b@, pos as int),
{
    let n = b.len();
    b[pos] as u32 + (b[pos + 1] as u32) * 0x100 + (b[pos + 2] as u32) * 0x10000 + (b[pos + 3]
        as u32) * 0x1000000
}

/// Reads the 64-bit word at `pos`.
pub fn read_u64(b: &Vec<u8>, pos: usize) -> (r: u64)
    requires
        pos + 8 <= b@.len(),
    ensures
        r == spec_u64_at(b@, pos as int),
{
    let n = b.len();
    let lo = read_u32(b, pos);
    let hi = read_u32(b, pos + 4);
    lo as u64 + (hi as u64) * 0x100000000
}

/// The four bytes that open every serialized configuration.
pub const CONFIG_MAGIC: u32 = 0x31464e43;

/// The byte length of a serialized configuration.
pub const CONFIG_LEN: usize = 60;

/// The on-disk form of a training configuration: the magic word, the
/// architecture and optimizer fields, the schedule fields, the seed and
/// the learning rate, each little-endian at a fixed offset.
pub open spec fn spec_encode_config(c: TrainingConfig) -> Seq<u8> {
    spec_u32_le(CONFIG_MAGIC) + spec_u32_le(c.model.num_classes) + spec_u32_le(c.model.hidden_size)
        + spec_u32_le(c.model.dropout_micros) + spec_u32_le(c.optimizer.beta_1_micros)
        + spec_u32_le(c.optimizer.beta_2_micros) + spec_u64_le(c.optimizer.epsilon_nanos)
        + spec_u32_le(c.num_epochs) + spec_u32_le(c.batch_size) + spec_u32_le(c.num_workers)
        + spec_u64_le(c.seed) + spec_u64_le(c.learning_rate_nanos)
}

/// What a byte string denotes as a training configuration: the fields at
/// their offsets, provided the length, the magic word and the construction
/// invariants all hold. Anything else denotes nothing.
pub open spec fn spec_decode_config(b: Seq<u8>) -> Option<TrainingConfig> {
    if b.len() == CONFIG_LEN && spec_u32_at(b, 0) == CONFIG_MAGIC {
        let c = TrainingConfig {
            model: ModelConfig {
                num_classes: spec_u32_at(b, 4) as u32,
                hidden_size: spec_u32_at(b, 8) as u32,
                dropout_micros: spec_u32_at(b, 12) as u32,
            },
            optimizer: OptimizerConfig {
                beta_1_micros: spec_u32_at(b, 16) as u32,
                beta_2_micros: spec_u32_at(b, 20) as u32,
                epsilon_nanos: spec_u64_at(b, 24) as u64,
            },
            num_epochs: spec_u32_at(b, 32) as u32,
            batch_size: spec_u32_at(b, 36) as u32,
            num_workers: spec_u32_at(b, 40) as u32,
            seed: spec_u64_at(b, 44) as u64,
            learning_rate_nanos: spec_u64_at(b, 52) as u64,
        };
        if c.wf() {
            Some(c)
        } else {
            None
        }
    } else {
        None
    }
}

/// Serializes a configuration.
#[verifier::rlimit(100)]
pub fn encode_config(c: &TrainingConfig) -> (r: Vec<u8>)
    ensures
        r@ == spec_encode_config(*c),
        r@.len() == CONFIG_LEN,
{
    let mut out: Vec<u8> = Vec::new();
    push_u32(&mut out, CONFIG_MAGIC);
    push_u32(&mut out, c.model.num_classes);
    push_u32(&mut out, c.model.hidden_size);
    push_u32(&mut out, c.model.dropout_micros);
    push_u32(&mut out, c.optimizer.beta_1_micros);
    push_u32(&mut out, c.optimizer.beta_2_micros);
    push_u64(&mut out, c.optimizer.epsilon_nanos);
    push_u32(&mut out, c.num_epochs);
    push_u32(&mut out, c.batch_size);
    push_u32(&mut out, c.num_workers);
    push_u64(&mut out, c.seed);
    push_u64(&mut out, c.learning_rate_nanos);
    proof {
        assert(out@ =~= spec_encode_config(*c));
    }
    out
}

/// Deserializes a configuration. A wrong length, a wrong magic word or a
/// field outside its construction invariant is a corrupt artifact.
pub fn decode_config(bytes: &Vec<u8>) -> (r: Result<TrainingConfig, TrainError>)
    ensures
        match r {
            Ok(c) => spec_decode_config(bytes@) == Some(c) && c.wf(),
            Err(e) => e == TrainError::ArtifactCorrupt && spec_decode_config(bytes@) is None,
        },
{
    if bytes.len() != CONFIG_LEN {
        return Err(TrainError::ArtifactCorrupt);
    }
    if read_u32(bytes, 0) != CONFIG_MAGIC {
        return Err(TrainError::ArtifactCorrupt);
    }
    let c = TrainingConfig {
        model: ModelConfig {
            num_classes: read_u32(bytes, 4),
            hidden_size: read_u32(bytes, 8),
            dropout_micros: read_u32(bytes, 12),
        },
        optimizer: OptimizerConfig {
            beta_1_micros: read_u32(bytes, 16),
            beta_2_micros: read_u32(bytes, 20),
            epsilon_nanos: read_u64(bytes, 24),
        },
        num_epochs: read_u32(bytes, 32),
        batch_size: read_u32(bytes, 36),
        num_workers: read_u32(bytes, 40),
        seed: read_u64(bytes, 44),
        learning_rate_nanos: read_u64(bytes, 52),
    };
    let ok = c.model.num_classes >= 1 && c.model.hidden_size >= 1 && c.model.dropout_micros
        <= MICROS_ONE && c.optimizer.beta_1_micros < MICROS_ONE && c.optimizer.beta_2_micros
        < MICROS_ONE && c.num_epochs >= 1 && c.batch_size >= 1;
    if !ok {
        return Err(TrainError::ArtifactCorrupt);
    }
    Ok(c)
}

/// The configuration round trip: what was serialized deserializes to the
/// very same configuration.
#[verifier::rlimit(100)]
pub proof fn lemma_config_round_trip(c: TrainingConfig)
    requires
        c.wf(),
    ensures
        spec_decode_config(spec_encode_config(c)) == Some(c),
{
    let b = spec_encode_config(c);
    assert(b.len() == CONFIG_LEN);
    assert(b.subrange(0, 4) =~= spec_u32_le(CONFIG_MAGIC));
    assert(b.subrange(4, 8) =~= spec_u32_le(c.model.num_classes));
    assert(b.subrange(8, 12) =~= spec_u32_le(c.model.hidden_size));
    assert(b.subrange(12, 16) =~= spec_u32_le(c.model.dropout_micros));
    assert(b.subrange(16, 20) =~= spec_u32_le(c.optimizer.beta_1_micros));
    assert(b.subrange(20, 24) =~= spec_u32_le(c.optimizer.beta_2_micros));
    assert(b.subrange(24, 32) =~= spec_u64_le(c.optimizer.epsilon_nanos));
    assert(b.subrange(32, 36) =~= spec_u32_le(c.num_epochs));
    assert(b.subrange(36, 40) =~= spec_u32_le(c.batch_size));
    assert(b.subrange(40, 44) =~= spec_u32_le(c.num_workers));
    assert(b.subrange(44, 52) =~= spec_u64_le(c.seed));
    assert(b.subrange(52, 60) =~= spec_u64_le(c.learning_rate_nanos));
    lemma_u32_at_le(CONFIG_MAGIC, b, 0);
    lemma_u32_at_le(c.model.num_classes, b, 4);
    lemma_u32_at_le(c.model.hidden_size, b, 8);
    lemma_u32_at_le(c.model.dropout_micros, b, 12);
    lemma_u32_at_le(c.optimizer.beta_1_micros, b, 16);
    lemma_u32_at_le(c.optimizer.beta_2_micros, b, 20);
    lemma_u64_at_le(c.optimizer.epsilon_nanos, b, 24);
    lemma_u32_at_le(c.num_epochs, b, 32);
    lemma_u32_at_le(c.batch_size, b, 36);
    lemma_u32_at_le(c.num_workers, b, 40);
    lemma_u64_at_le(c.seed, b, 44);
    lemma_u64_at_le(c.learning_rate_nanos, b, 52);
}

} // verus!
