//! Core chain data types: commitments, headers, blocks, tips, block sums,
//! and the pipeline's error taxonomy.
//!
//! Cryptographic primitives are out of scope and are modelled by plain
//! values: a Pedersen commitment `r*G + v*H` is a pair of scalars with
//! wrapping (mod 2^64) component-wise addition, which keeps the homomorphic
//! structure the kernel-sum identity relies on; digests are a wrapping
//! polynomial fold over the fields they commit to.

use vstd::prelude::*;

verus! {

/// Target seconds between consecutive blocks.
pub const BLOCK_TIME_SEC: u64 = 60;

/// Number of blocks that must extend the chain on top of a coinbase
/// output's inclusion before that output may be spent.
pub const COINBASE_MATURITY: u64 = 100;

/// Block subsidy credited by each block (the per-block overage).
pub const REWARD: u64 = 1_000_000_000;

/// Multiplier of the digest fold (a 64-bit FNV-style prime).
pub const HASH_PRIME: u64 = 0x100000001b3;

/// Seed of the digest fold (the FNV-style offset basis).
pub const HASH_SEED: u64 = 0xcbf29ce484222325;

/// Smallest edge-bits value accepted for a primary proof of work.
pub const MIN_EDGE_BITS: u8 = 31;

/// The edge-bits value reserved for secondary proofs of work.
pub const SECOND_POW_EDGE_BITS: u8 = 29;

/// Wrapping addition mod 2^64.
pub open spec fn wadd(a: u64, b: u64) -> u64 {
    vstd::wrapping::u64_specs::wrapping_add(a, b)
}

/// Wrapping subtraction mod 2^64.
pub open spec fn wsub(a: u64, b: u64) -> u64 {
    vstd::wrapping::u64_specs::wrapping_sub(a, b)
}

/// Wrapping multiplication mod 2^64.
pub open spec fn wmul(a: u64, b: u64) -> u64 {
    vstd::wrapping::u64_specs::wrapping_mul(a, b)
}

/// One step of the digest fold: `acc * HASH_PRIME + x`, wrapping.
#[verifier::opaque]
pub open spec fn mix(acc: u64, x: u64) -> u64 {
    wadd(wmul(acc, HASH_PRIME), x)
}

/// Executable digest-fold step, equal to the `mix` spec function.
pub fn mix_step(acc: u64, x: u64) -> (r: u64)
    ensures
        r == mix(acc, x),
{
    proof {
        reveal(mix);
    }
    acc.wrapping_mul(HASH_PRIME).wrapping_add(x)
}

/// A Pedersen commitment `r*G + v*H`, modelled as its two scalars.
#[derive(Clone, Copy, PartialEq, Eq, Structural, Debug)]
pub struct Commitment {
    /// Coefficient of the value generator `H`.
    pub v: u64,
    /// Coefficient of the blinding generator `G`.
    pub r: u64,
}

impl Commitment {
    /// The zero (identity) commitment.
    pub open spec fn spec_zero() -> Commitment {
        Commitment { v: 0, r: 0 }
    }

    /// Commitment addition, component-wise and wrapping.
    pub open spec fn spec_plus(self, o: Commitment) -> Commitment {
        Commitment { v: wadd(self.v, o.v), r: wadd(self.r, o.r) }
    }

    /// Commitment subtraction, component-wise and wrapping.
    pub open spec fn spec_minus(self, o: Commitment) -> Commitment {
        Commitment { v: wsub(self.v, o.v), r: wsub(self.r, o.r) }
    }

    /// Executable zero commitment.
    pub fn zero() -> (r: Commitment)
        ensures
            r == Self::spec_zero(),
    {
        Commitment { v: 0, r: 0 }
    }

    /// Executable commitment addition.
    pub fn plus(self, o: Commitment) -> (r: Commitment)
        ensures
            r == self.spec_plus(o),
    {
        Commitment { v: self.v.wrapping_add(o.v), r: self.r.wrapping_add(o.r) }
    }

    /// Executable commitment subtraction.
    pub fn minus(self, o: Commitment) -> (r: Commitment)
        ensures
            r == self.spec_minus(o),
    {
        Commitment { v: self.v.wrapping_sub(o.v), r: self.r.wrapping_sub(o.r) }
    }
}

/// A proof of work: cycle edge-bits, the secondary scaling factor the
/// miner claims, and the cycle nonces.
#[derive(Clone, Copy, PartialEq, Eq, Debug)]
pub struct ProofOfWork {
    /// Cuckoo-cycle edge bits.
    pub edge_bits: u8,
    /// Secondary proof-of-work scaling factor.
    pub secondary_scaling: u32,
    /// The cycle nonces; their digest stands in for the cycle hash.
    pub nonces: [u64; 8],
}

/// Wrapping sum of a sequence of nonces.
pub open spec fn nonce_sum(s: Seq<u64>) -> u64
    decreases s.len(),
{
    if s.len() == 0 {
        0u64
    } else {
        wadd(nonce_sum(s.drop_last()), s.last())
    }
}

/// Digest fold of a sequence of nonces.
pub open spec fn nonce_fold(acc: u64, s: Seq<u64>) -> u64
    decreases s.len(),
{
    if s.len() == 0 {
        acc
    } else {
        mix(nonce_fold(acc, s.drop_last()), s.last())
    }
}

impl ProofOfWork {
    /// A primary proof carries at least the minimum edge bits.
    pub open spec fn spec_is_primary(self) -> bool {
        self.edge_bits >= MIN_EDGE_BITS
    }

    /// A secondary proof carries exactly the reserved edge bits.
    pub open spec fn spec_is_secondary(self) -> bool {
        self.edge_bits == SECOND_POW_EDGE_BITS
    }

    /// The difficulty this proof achieves: the wrapping sum of its nonces
    /// (the model's stand-in for the cycle digest).
    pub open spec fn spec_to_difficulty(self) -> u64 {
        nonce_sum(self.nonces@)
    }

    /// Whether this proof is a primary proof.
    pub fn is_primary(&self) -> (r: bool)
        ensures
            r == self.spec_is_primary(),
    {
        self.edge_bits >= MIN_EDGE_BITS
    }

    /// Whether this proof is a secondary proof.
    pub fn is_secondary(&self) -> (r: bool)
        ensures
            r == self.spec_is_secondary(),
    {
        self.edge_bits == SECOND_POW_EDGE_BITS
    }

    /// The achieved difficulty of this proof.
    pub fn to_difficulty(&self) -> (r: u64)
        ensures
            r == self.spec_to_difficulty(),
    {
        let mut acc: u64 = 0;
        let mut i: usize = 0;
        while i < 8
            invariant
                0 <= i <= 8,
                acc == nonce_sum(self.nonces@.take(i as int)),
            decreases 8 - i,
        {
            assert(self.nonces@.take(i as int + 1).drop_last() =~= self.nonces@.take(i as int));
            acc = acc.wrapping_add(self.nonces[i]);
            i = i + 1;
        }
        assert(self.nonces@.take(8) =~= self.nonces@);
        acc
    }
}

/// A block header.
#[derive(Clone, Copy, PartialEq, Eq, Debug)]
pub struct BlockHeader {
    /// Header version; versions are permitted by height (hard-fork schedule).
    pub version: u16,
    /// Height of this block; the genesis block is at height 0.
    pub height: u64,
    /// Hash of the previous block's header.
    pub prev_hash: u64,
    /// Root of the header accumulator up to and including the previous header.
    pub prev_root: u64,
    /// Timestamp in seconds.
    pub timestamp: u64,
    /// Root of the output accumulator after this block.
    pub output_root: u64,
    /// Root of the range-proof accumulator after this block.
    pub range_proof_root: u64,
    /// Root of the kernel accumulator after this block.
    pub kernel_root: u64,
    /// Cumulative kernel offset over the whole chain up to this block.
    pub total_kernel_offset: u64,
    /// Size of the output accumulator after this block.
    pub output_mmr_size: u64,
    /// Size of the kernel accumulator after this block.
    pub kernel_mmr_size: u64,
    /// Cumulative difficulty of the chain up to and including this block.
    pub total_difficulty: u64,
    /// The proof of work.
    pub pow: ProofOfWork,
}

/// Canonical digest of a header: the fold over its fields in serialization
/// order, seeded with the offset basis.
#[verifier::opaque]
pub open spec fn hash_of(h: BlockHeader) -> u64 {
    nonce_fold(
        mix(
            mix(
                mix(
                    mix(
                        mix(
                            mix(
                                mix(
                                    mix(
                                        mix(
                                            mix(
                                                mix(
                                                    mix(
                                                        mix(HASH_SEED, h.version as u64),
                                                        h.height,
                                                    ),
                                                    h.prev_hash,
                                                ),
                                                h.prev_root,
                                            ),
                                            h.timestamp,
                                        ),
                                        h.output_root,
                                    ),
                                    h.range_proof_root,
                                ),
                                h.kernel_root,
                            ),
                            h.total_kernel_offset,
                        ),
                        h.output_mmr_size,
                    ),
                    h.kernel_mmr_size,
                ),
                h.total_difficulty,
            ),
            mix(h.pow.edge_bits as u64, h.pow.secondary_scaling as u64),
        ),
        h.pow.nonces@,
    )
}

impl BlockHeader {
    /// The canonical digest of this header.
    pub fn hash(&self) -> (r: u64)
        ensures
            r == hash_of(*self),
    {
        proof {
            reveal(hash_of);
        }
        let mut acc: u64 = mix_step(HASH_SEED, self.version as u64);
        acc = mix_step(acc, self.height);
        acc = mix_step(acc, self.prev_hash);
        acc = mix_step(acc, self.prev_root);
        acc = mix_step(acc, self.timestamp);
        acc = mix_step(acc, self.output_root);
        acc = mix_step(acc, self.range_proof_root);
        acc = mix_step(acc, self.kernel_root);
        acc = mix_step(acc, self.total_kernel_offset);
        acc = mix_step(acc, self.output_mmr_size);
        acc = mix_step(acc, self.kernel_mmr_size);
        acc = mix_step(acc, self.total_difficulty);
        acc = mix_step(acc, mix_step(self.pow.edge_bits as u64, self.pow.secondary_scaling as u64));
        let mut i: usize = 0;
        let ghost acc0: u64 = acc;
        while i < 8
            invariant
                0 <= i <= 8,
                acc == nonce_fold(acc0, self.pow.nonces@.take(i as int)),
            decreases 8 - i,
        {
            assert(self.pow.nonces@.take(i as int + 1).drop_last() =~= self.pow.nonces@.take(
                i as int,
            ));
            acc = mix_step(acc, self.pow.nonces[i]);
            i = i + 1;
        }
        assert(self.pow.nonces@.take(8) =~= self.pow.nonces@);
        acc
    }

    /// The cumulative difficulty recorded in this header.
    pub fn total_difficulty(&self) -> (r: u64)
        ensures
            r == self.total_difficulty,
    {
        self.total_difficulty
    }
}

/// An input spending a prior output, referenced by its commitment.
#[derive(Clone, Copy, PartialEq, Eq, Structural, Debug)]
pub struct TxInput {
    /// Commitment of the output being spent.
    pub commit: Commitment,
}

/// A new output: commitment, range proof and feature flag.
#[derive(Clone, Copy, PartialEq, Eq, Structural, Debug)]
pub struct TxOutput {
    /// The output commitment.
    pub commit: Commitment,
    /// Whether the output is a coinbase (miner reward) output.
    pub is_coinbase: bool,
    /// The range proof, modelled by its digest.
    pub proof: u64,
}

/// A transaction kernel: excess commitment, signature, fee and lock height.
#[derive(Clone, Copy, PartialEq, Eq, Structural, Debug)]
pub struct TxKernel {
    /// The kernel excess commitment.
    pub excess: Commitment,
    /// The kernel signature, modelled by its digest.
    pub sig: u64,
    /// Fee carried by the kernel.
    pub fee: u64,
    /// Earliest height at which the kernel is valid.
    pub lock_height: u64,
}

/// The expected range proof for an output: the digest of its commitment
/// and feature flag (the model's stand-in for a verifying range proof).
pub open spec fn spec_rangeproof_for(commit: Commitment, is_coinbase: bool) -> u64 {
    mix(mix(mix(HASH_SEED, commit.v), commit.r), if is_coinbase { 1u64 } else { 0u64 })
}

/// Executable form of [`spec_rangeproof_for`].
pub fn rangeproof_for(commit: Commitment, is_coinbase: bool) -> (r: u64)
    ensures
        r == spec_rangeproof_for(commit, is_coinbase),
{
    mix_step(mix_step(mix_step(HASH_SEED, commit.v), commit.r), if is_coinbase { 1 } else { 0 })
}

/// The expected signature for a kernel: the digest of its excess, fee and
/// lock height (the model's stand-in for a verifying Schnorr signature).
pub open spec fn spec_kernel_sig_for(excess: Commitment, fee: u64, lock_height: u64) -> u64 {
    mix(mix(mix(mix(HASH_SEED, excess.v), excess.r), fee), lock_height)
}

/// Executable form of [`spec_kernel_sig_for`].
pub fn kernel_sig_for(excess: Commitment, fee: u64, lock_height: u64) -> (r: u64)
    ensures
        r == spec_kernel_sig_for(excess, fee, lock_height),
{
    mix_step(mix_step(mix_step(mix_step(HASH_SEED, excess.v), excess.r), fee), lock_height)
}

/// A full block: header plus ordered inputs, outputs and kernels.
#[derive(Clone, Debug)]
pub struct Block {
    /// The block header.
    pub header: BlockHeader,
    /// Inputs, each spending a prior output.
    pub inputs: Vec<TxInput>,
    /// New outputs.
    pub outputs: Vec<TxOutput>,
    /// Kernels.
    pub kernels: Vec<TxKernel>,
}

/// Mathematical view of a block.
pub ghost struct BlockV {
    /// The block header.
    pub header: BlockHeader,
    /// Inputs.
    pub inputs: Seq<TxInput>,
    /// Outputs.
    pub outputs: Seq<TxOutput>,
    /// Kernels.
    pub kernels: Seq<TxKernel>,
}

impl View for Block {
    type V = BlockV;

    open spec fn view(&self) -> BlockV {
        BlockV {
            header: self.header,
            inputs: self.inputs@,
            outputs: self.outputs@,
            kernels: self.kernels@,
        }
    }
}

/// Running Pedersen sums over the whole chain up to a given block.
#[derive(Clone, Copy, PartialEq, Eq, Structural, Debug)]
pub struct BlockSums {
    /// Sum of all outputs ever created minus all inputs ever spent.
    pub utxo_sum: Commitment,
    /// Sum of all kernel excesses.
    pub kernel_sum: Commitment,
}

/// A chain tip: last and previous block hashes, height and cumulative
/// difficulty.
#[derive(Clone, Copy, PartialEq, Eq, Structural, Debug)]
pub struct Tip {
    /// Hash of the last block at this tip.
    pub last_block_h: u64,
    /// Hash of the block before the last one.
    pub prev_block_h: u64,
    /// Height of the last block.
    pub height: u64,
    /// Cumulative difficulty at this tip.
    pub total_difficulty: u64,
}

/// The tip that a given header defines.
pub open spec fn spec_tip_from(h: BlockHeader) -> Tip {
    Tip {
        last_block_h: hash_of(h),
        prev_block_h: h.prev_hash,
        height: h.height,
        total_difficulty: h.total_difficulty,
    }
}

impl Tip {
    /// Build the tip that a given header defines.
    pub fn from_header(h: &BlockHeader) -> (r: Tip)
        ensures
            r == spec_tip_from(*h),
    {
        Tip {
            last_block_h: h.hash(),
            prev_block_h: h.prev_hash,
            height: h.height,
            total_difficulty: h.total_difficulty,
        }
    }
}

/// Options steering one pipeline invocation.
#[derive(Clone, Copy, PartialEq, Eq, Structural, Debug)]
pub struct Options {
    /// Disable all proof-of-work related checks (testing only).
    pub skip_pow: bool,
}

/// Why a block or header is currently redundant.
#[derive(Clone, Copy, PartialEq, Eq, Structural, Debug)]
pub enum UnfitReason {
    /// Already the chain head or its parent.
    KnownInHead,
    /// Already present in the store.
    KnownInStore,
}

/// Why stateful block validation rejected a block.
#[derive(Clone, Copy, PartialEq, Eq, Structural, Debug)]
pub enum BlockProofErr {
    /// Two inputs spend the same commitment.
    DuplicateInput,
    /// Two outputs carry the same commitment.
    DuplicateOutput,
    /// An input spends no unspent output.
    MissingInput,
    /// An output commitment is already unspent in the output set.
    DuplicateUnspent,
    /// A range proof does not verify.
    InvalidRangeProof,
    /// A kernel signature does not verify.
    InvalidKernelSignature,
    /// A kernel's lock height exceeds the block height.
    KernelLockHeight,
    /// The kernel-sum identity does not hold.
    KernelSumMismatch,
    /// A coinbase output is spent before it matured.
    ImmatureCoinbase,
}

/// The pipeline's error taxonomy.
#[derive(Clone, Copy, PartialEq, Eq, Structural, Debug)]
pub enum Error {
    /// Already-known or currently redundant block or header.
    Unfit(UnfitReason),
    /// Parent unknown; proof of work valid.
    Orphan,
    /// Known block far behind the tip.
    OldBlock,
    /// Header version not permitted at its height.
    InvalidBlockVersion(u16),
    /// Timestamp not strictly beyond the previous one, or too far in the
    /// future.
    InvalidBlockTime,
    /// Height is not one more than the previous header's.
    InvalidBlockHeight,
    /// Proof of work is neither primary nor secondary.
    LowEdgebits,
    /// Proof of work does not verify.
    InvalidPow,
    /// Achieved or declared difficulty below the target.
    DifficultyTooLow,
    /// Cumulative difficulty did not increase by the expected target.
    WrongTotalDifficulty,
    /// Secondary scaling differs from the expected one.
    InvalidScaling,
    /// Stateful block validation failed.
    InvalidBlockProof(BlockProofErr),
    /// An accumulator root differs from the one the header declares.
    InvalidRoot,
    /// An accumulator size differs from the one the header declares.
    InvalidMMRSize,
    /// Persistent store failure.
    StoreErr,
    /// Requested entity absent.
    NotFound,
    /// Malformed argument.
    Argument,
    /// Unexpected invariant violation.
    Internal,
}

/// Copy a vector of plain values.
pub fn copy_vec<T: Copy>(v: &Vec<T>) -> (r: Vec<T>)
    ensures
        r@ == v@,
{
    let mut r: Vec<T> = Vec::new();
    let mut i: usize = 0;
    while i < v.len()
        invariant
            0 <= i <= v.len(),
            r@ == v@.take(i as int),
        decreases v.len() - i,
    {
        assert(v@.take(i as int + 1).drop_last() =~= v@.take(i as int));
        r.push(v[i]);
        i = i + 1;
    }
    assert(v@.take(v@.len() as int) =~= v@);
    r
}

/// Copy a block.
pub fn copy_block(b: &Block) -> (r: Block)
    ensures
        r@ == b@,
{
    Block {
        header: b.header,
        inputs: copy_vec(&b.inputs),
        outputs: copy_vec(&b.outputs),
        kernels: copy_vec(&b.kernels),
    }
}

} // verus!
