//! Sampling by trace.
//!
//! Whether a trace is exported depends on its identifier and on the sample
//! rate, and on nothing else: not on the clock, the process or the machine.
//! Every process that sees a trace therefore decides alike, and a trace is
//! exported whole or not at all.
//!
//! The rule, in its first version: take the 64-bit FNV-1a hash of the
//! identifier's bytes, that is of its text in UTF-8, and keep the trace when
//! the hash is a multiple of the rate. About one trace in `rate` is kept.
//! Processes agree on a trace only if they follow the same version of the
//! rule: another hash would make a second version.

use crate::trace_id::TraceId;
use vstd::prelude::*;
use vstd::utf8::encode_utf8;

verus! {

/// The value that the hash starts from.
pub const FNV_OFFSET_BASIS: u64 = 0xcbf2_9ce4_8422_2325;

/// The multiplier of each step of the hash.
pub const FNV_PRIME: u64 = 0x0000_0100_0000_01b3;

/// One step of the hash: fold the byte in, then multiply, modulo 2^64.
pub open spec fn fnv1a_step(hash: u64, byte: u8) -> u64 {
    (((hash ^ (byte as u64)) as nat * FNV_PRIME as nat) % 0x1_0000_0000_0000_0000) as u64
}

/// The 64-bit FNV-1a hash of `bytes`.
pub open spec fn fnv1a(bytes: Seq<u8>) -> u64
    decreases bytes.len(),
{
    if bytes.len() == 0 {
        FNV_OFFSET_BASIS
    } else {
        fnv1a_step(fnv1a(bytes.drop_last()), bytes.last())
    }
}

/// The hash that drives the sampling of the trace with the given text.
pub open spec fn trace_hash(trace_id: Seq<char>) -> u64 {
    fnv1a(encode_utf8(trace_id))
}

/// Whether a trace is kept at the given rate.
pub open spec fn sampled(sample_rate: u32, trace_id: Seq<char>) -> bool
    recommends
        sample_rate >= 1,
{
    trace_hash(trace_id) % (sample_rate as u64) == 0
}

/// Whether a trace is kept. With no rate nothing is kept: export is opt-in.
pub open spec fn keep(trace_id: Seq<char>, sample_rate: Option<u32>) -> bool {
    match sample_rate {
        None => false,
        Some(rate) => sampled(rate, trace_id),
    }
}

/// At rate 1 every trace is kept.
pub proof fn lemma_rate_one_keeps_all(trace_id: Seq<char>)
    ensures
        sampled(1, trace_id),
        keep(trace_id, Some(1u32)),
{
}

/// With no rate no trace is kept.
pub proof fn lemma_no_rate_keeps_none(trace_id: Seq<char>)
    ensures
        !keep(trace_id, None),
{
}

/// Two decisions on one trace at one rate agree, whenever and wherever they
/// are made: a decision is a function of the identifier and the rate.
pub proof fn lemma_decisions_agree(
    trace_id: Seq<char>,
    sample_rate: Option<u32>,
    first: bool,
    second: bool,
)
    requires
        first == keep(trace_id, sample_rate),
        second == keep(trace_id, sample_rate),
    ensures
        first == second,
{
}

/// The 64-bit FNV-1a hash of `bytes`.
pub fn hash_bytes(bytes: &[u8]) -> (hash: u64)
    ensures
        hash == fnv1a(bytes@),
{
    let mut hash: u64 = FNV_OFFSET_BASIS;
    let mut i: usize = 0;
    while i < bytes.len()
        invariant
            i <= bytes.len(),
            hash == fnv1a(bytes@.take(i as int)),
        decreases bytes.len() - i,
    {
        assert(bytes@.take(i + 1).drop_last() =~= bytes@.take(i as int));
        hash = (hash ^ (bytes[i] as u64)).wrapping_mul(FNV_PRIME);
        i = i + 1;
    }
    assert(bytes@.take(i as int) =~= bytes@);
    hash
}

/// Decides whether the trace is kept at the given rate.
pub fn sample(sample_rate: u32, trace_id: &TraceId) -> (kept: bool)
    requires
        sample_rate >= 1,
    ensures
        kept == sampled(sample_rate, trace_id@),
        sample_rate == 1 ==> kept,
{
    hash_bytes(trace_id.as_bytes()) % (sample_rate as u64) == 0
}

/// Decides which traces are exported.
#[derive(Debug)]
pub struct Sampler {
    sample_rate: Option<u32>,
}

impl Sampler {
    #[verifier::type_invariant]
    closed spec fn rate_is_positive(self) -> bool {
        self.sample_rate != Some(0u32)
    }

    /// The rate that the sampler was made with.
    pub closed spec fn rate(self) -> Option<u32> {
        self.sample_rate
    }

    /// The sampler that keeps about one trace in `rate`, or none at all
    /// where there is no rate.
    pub fn new(sample_rate: Option<u32>) -> (sampler: Sampler)
        requires
            sample_rate != Some(0u32),
        ensures
            sampler.rate() == sample_rate,
    {
        Sampler { sample_rate }
    }

    /// Decides whether the trace is kept.
    pub fn keep(&self, trace_id: &TraceId) -> (kept: bool)
        ensures
            kept == keep(trace_id@, self.rate()),
            self.rate() is None ==> !kept,
            self.rate() == Some(1u32) ==> kept,
    {
        proof {
            use_type_invariant(self);
        }
        match self.sample_rate {
            Some(rate) => sample(rate, trace_id),
            None => false,
        }
    }
}

} // verus!
