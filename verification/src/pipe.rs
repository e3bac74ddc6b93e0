//! The block acceptance pipeline: header and block validation, fork
//! resolution by rewind-and-reapply, and chain-state selection, all over
//! one transactional batch per invocation.

use vstd::prelude::*;

use crate::consensus::DIFFICULTY_ADJUST_WINDOW;
use crate::consensus::HeaderDiffInfo;
use crate::consensus::NextHeaderInfo;
use crate::consensus::next_difficulty;
use crate::consensus::spec_next_difficulty;
use crate::consensus::spec_valid_header_version;
use crate::consensus::valid_header_version;
use crate::store::Batch;
use crate::store::ChainStore;
use crate::store::StoreV;
use crate::store::batch_is_empty;
use crate::store::eff_blocks;
use crate::store::eff_head;
use crate::store::eff_header_head;
use crate::store::eff_headers;
use crate::store::eff_sums;
use crate::store::eff_sync_head;
use crate::store::find_block_in;
use crate::store::find_header_in;
use crate::store::find_sums_in;
use crate::store::lemma_find_block_concat;
use crate::store::lemma_find_header_concat;
use crate::store::lemma_find_sums_concat;
use crate::txhashset::Extension;
use crate::txhashset::HeaderExtension;
use crate::txhashset::TxHashSet;
use crate::txhashset::can_rewind;
use crate::txhashset::kernel_root_of;
use crate::txhashset::output_root_of;
use crate::txhashset::root_fold;
use crate::txhashset::spec_apply_block;
use crate::txhashset::spec_coinbase_mature;
use crate::txhashset::spec_on_chain;
use crate::txhashset::spec_rewind;
use crate::txhashset::spec_utxo_valid;
use crate::txhashset::ExtV;
use crate::types::BLOCK_TIME_SEC;
use crate::types::Block;
use crate::types::BlockHeader;
use crate::types::BlockProofErr;
use crate::types::BlockSums;
use crate::types::BlockV;
use crate::types::Commitment;
use crate::types::Error;
use crate::types::Options;
use crate::types::REWARD;
use crate::types::Tip;
use crate::types::TxInput;
use crate::types::TxKernel;
use crate::types::TxOutput;
use crate::types::UnfitReason;
use crate::types::hash_of;
use crate::types::spec_kernel_sig_for;
use crate::types::spec_rangeproof_for;
use crate::types::spec_tip_from;
use crate::types::wadd;
use crate::types::wmul;
use crate::types::wsub;

verus! {

/// Blocks already in the store this far behind the head flag an abusive
/// peer.
pub const OLD_BLOCK_DEPTH: u64 = 50;

/// Timestamps this many block intervals in the future are refused.
pub const FUTURE_TIME_INTERVALS: u64 = 12;

/// A proof-of-work verifier. The chain treats the cycle verifier as a
/// pure predicate over the header; implementations supply it.
pub trait PowVerifier {
    /// The predicate this verifier decides.
    spec fn spec_verify(&self, header: BlockHeader) -> bool;

    /// Decide the predicate.
    fn verify(&self, header: &BlockHeader) -> (r: bool)
        ensures
            r == self.spec_verify(*header),
    ;
}

/// A verifier that accepts every proof of work.
pub struct AcceptAllPow;

impl PowVerifier for AcceptAllPow {
    open spec fn spec_verify(&self, header: BlockHeader) -> bool {
        true
    }

    fn verify(&self, header: &BlockHeader) -> (r: bool) {
        true
    }
}

/// A verifier that rejects every proof of work.
pub struct RejectAllPow;

impl PowVerifier for RejectAllPow {
    open spec fn spec_verify(&self, header: BlockHeader) -> bool {
        false
    }

    fn verify(&self, header: &BlockHeader) -> (r: bool) {
        false
    }
}

/// Contextual information required to process a new block or header and
/// either reject or accept it: the options, the proof-of-work verifier,
/// the committed store, the rewindable accumulator state, the invocation's
/// batch, and the wall-clock reading the invocation uses.
pub struct BlockContext<V: PowVerifier> {
    /// The options.
    pub opts: Options,
    /// The proof-of-work verifier to use.
    pub pow_verifier: V,
    /// The committed persistent store.
    pub store: ChainStore,
    /// The rewindable accumulator state.
    pub txhashset: TxHashSet,
    /// The active batch.
    pub batch: Batch,
    /// Wall-clock seconds the invocation validates timestamps against.
    pub now_utc: u64,
}

/// A context is ready for a pipeline invocation: the chain is initialized
/// and no writes are pending.
pub open spec fn ctx_ready(store: StoreV, batch: StoreV) -> bool {
    &&& store.head is Some
    &&& store.header_head is Some
    &&& store.sync_head is Some
    &&& batch_is_empty(batch)
}

/// Why a header counts as already known, if it does: it is the head or
/// its parent, or its block is stored (far behind the head, it marks the
/// peer abusive instead).
pub open spec fn spec_known_err(h: BlockHeader, head: Tip, blocks: Seq<BlockV>) -> Option<Error> {
    if hash_of(h) == head.last_block_h || hash_of(h) == head.prev_block_h {
        Some(Error::Unfit(UnfitReason::KnownInHead))
    } else if find_block_in(blocks, hash_of(h)) is Some {
        if head.height >= OLD_BLOCK_DEPTH && h.height < head.height - OLD_BLOCK_DEPTH {
            Some(Error::OldBlock)
        } else {
            Some(Error::Unfit(UnfitReason::KnownInStore))
        }
    } else {
        None
    }
}

/// Quick check against the chain head and its parent.
fn check_known_head<V: PowVerifier>(header: &BlockHeader, ctx: &BlockContext<V>) -> (r: Result<
    (),
    Error,
>)
    requires
        eff_head(ctx.store@, ctx.batch@) is Some,
    ensures
        ({
            let head = eff_head(ctx.store@, ctx.batch@).unwrap();
            if hash_of(*header) == head.last_block_h || hash_of(*header) == head.prev_block_h {
                r == Err::<(), Error>(Error::Unfit(UnfitReason::KnownInHead))
            } else {
                r == Ok::<(), Error>(())
            }
        }),
{
    let head = match ctx.batch.head(&ctx.store) {
        Some(t) => t,
        None => {
            return Err(Error::StoreErr);
        },
    };
    let bh = header.hash();
    if bh == head.last_block_h || bh == head.prev_block_h {
        return Err(Error::Unfit(UnfitReason::KnownInHead));
    }
    Ok(())
}

/// Check whether this block is in the store already, and how far behind
/// the head.
fn check_known_store<V: PowVerifier>(header: &BlockHeader, ctx: &BlockContext<V>) -> (r: Result<
    (),
    Error,
>)
    requires
        eff_head(ctx.store@, ctx.batch@) is Some,
    ensures
        ({
            let head = eff_head(ctx.store@, ctx.batch@).unwrap();
            if find_block_in(eff_blocks(ctx.store@, ctx.batch@), hash_of(*header)) is Some {
                if head.height >= OLD_BLOCK_DEPTH && header.height < head.height - OLD_BLOCK_DEPTH {
                    r == Err::<(), Error>(Error::OldBlock)
                } else {
                    r == Err::<(), Error>(Error::Unfit(UnfitReason::KnownInStore))
                }
            } else {
                r == Ok::<(), Error>(())
            }
        }),
{
    if ctx.batch.block_exists(&ctx.store, header.hash()) {
        let head = match ctx.batch.head(&ctx.store) {
            Some(t) => t,
            None => {
                return Err(Error::StoreErr);
            },
        };
        let behind = if head.height >= OLD_BLOCK_DEPTH {
            header.height < head.height - OLD_BLOCK_DEPTH
        } else {
            false
        };
        if behind {
            Err(Error::OldBlock)
        } else {
            Err(Error::Unfit(UnfitReason::KnownInStore))
        }
    } else {
        Ok(())
    }
}

/// Check whether we already know about this block, cheapest test first.
fn check_known<V: PowVerifier>(header: &BlockHeader, ctx: &BlockContext<V>) -> (r: Result<
    (),
    Error,
>)
    requires
        eff_head(ctx.store@, ctx.batch@) is Some,
    ensures
        ({
            let head = eff_head(ctx.store@, ctx.batch@).unwrap();
            match spec_known_err(*header, head, eff_blocks(ctx.store@, ctx.batch@)) {
                Some(e) => r == Err::<(), Error>(e),
                None => r == Ok::<(), Error>(()),
            }
        }),
{
    check_known_head(header, ctx)?;
    check_known_store(header, ctx)?;
    Ok(())
}

/// Find the previous header, classifying its absence as an orphan.
fn prev_header_store(header: &BlockHeader, store: &ChainStore, batch: &Batch) -> (r: Result<
    BlockHeader,
    Error,
>)
    ensures
        match find_header_in(eff_headers(store@, batch@), header.prev_hash) {
            Some(p) => r == Ok::<BlockHeader, Error>(p),
            None => r == Err::<BlockHeader, Error>(Error::Orphan),
        },
{
    match batch.get_previous_header(store, header) {
        Some(p) => Ok(p),
        None => Err(Error::Orphan),
    }
}

/// What validating only the proof of work of a header yields.
pub open spec fn spec_validate_pow_only(h: BlockHeader, pow_ok: bool) -> Result<(), Error> {
    if !h.pow.spec_is_primary() && !h.pow.spec_is_secondary() {
        Err(Error::LowEdgebits)
    } else if !pow_ok {
        Err(Error::InvalidPow)
    } else {
        Ok(())
    }
}

/// Validate only the proof of work in a block header; used to cheaply
/// validate orphans before they are buffered.
pub fn validate_pow_only<V: PowVerifier>(header: &BlockHeader, ctx: &BlockContext<V>) -> (r: Result<
    (),
    Error,
>)
    ensures
        r == spec_validate_pow_only(*header, ctx.pow_verifier.spec_verify(*header)),
{
    if !header.pow.is_primary() && !header.pow.is_secondary() {
        return Err(Error::LowEdgebits);
    }
    if !ctx.pow_verifier.verify(header) {
        return Err(Error::InvalidPow);
    }
    Ok(())
}

/// The retarget window ending at `cur`, walking back through stored
/// headers, newest first, at most `n` entries. Each entry carries the
/// block's cumulative-difficulty increment over its parent.
pub open spec fn spec_window(headers: Seq<BlockHeader>, cur: BlockHeader, n: nat) -> Seq<
    HeaderDiffInfo,
>
    decreases n,
{
    if n == 0 {
        Seq::empty()
    } else {
        match find_header_in(headers, cur.prev_hash) {
            None => seq![
                HeaderDiffInfo {
                    timestamp: cur.timestamp,
                    difficulty: cur.total_difficulty,
                    secondary_scaling: cur.pow.secondary_scaling,
                },
            ],
            Some(p) => seq![
                HeaderDiffInfo {
                    timestamp: cur.timestamp,
                    difficulty: if cur.total_difficulty > p.total_difficulty {
                        (cur.total_difficulty - p.total_difficulty) as u64
                    } else {
                        0u64
                    },
                    secondary_scaling: cur.pow.secondary_scaling,
                },
            ] + spec_window(headers, p, (n - 1) as nat),
        }
    }
}

/// Build the retarget window ending at `cur`.
fn difficulty_window(cur: &BlockHeader, store: &ChainStore, batch: &Batch) -> (r: Vec<
    HeaderDiffInfo,
>)
    ensures
        r@ == spec_window(
            eff_headers(store@, batch@),
            *cur,
            (DIFFICULTY_ADJUST_WINDOW + 1) as nat,
        ),
        r@.len() <= DIFFICULTY_ADJUST_WINDOW + 1,
{
    let ghost eff = eff_headers(store@, batch@);
    let mut out: Vec<HeaderDiffInfo> = Vec::new();
    let mut current: BlockHeader = *cur;
    let mut remaining: u64 = DIFFICULTY_ADJUST_WINDOW + 1;
    while remaining > 0
        invariant
            0 <= remaining <= DIFFICULTY_ADJUST_WINDOW + 1,
            eff == eff_headers(store@, batch@),
            out@.len() == DIFFICULTY_ADJUST_WINDOW + 1 - remaining,
            spec_window(eff, *cur, (DIFFICULTY_ADJUST_WINDOW + 1) as nat) == out@ + spec_window(
                eff,
                current,
                remaining as nat,
            ),
        decreases remaining,
    {
        match batch.get_previous_header(store, &current) {
            None => {
                out.push(
                    HeaderDiffInfo {
                        timestamp: current.timestamp,
                        difficulty: current.total_difficulty,
                        secondary_scaling: current.pow.secondary_scaling,
                    },
                );
                assert(spec_window(eff, current, remaining as nat) =~= seq![
                    HeaderDiffInfo {
                        timestamp: current.timestamp,
                        difficulty: current.total_difficulty,
                        secondary_scaling: current.pow.secondary_scaling,
                    },
                ]);
                assert(out@ =~= spec_window(eff, *cur, (DIFFICULTY_ADJUST_WINDOW + 1) as nat));
                return out;
            },
            Some(p) => {
                let delta = if current.total_difficulty > p.total_difficulty {
                    current.total_difficulty - p.total_difficulty
                } else {
                    0
                };
                out.push(
                    HeaderDiffInfo {
                        timestamp: current.timestamp,
                        difficulty: delta,
                        secondary_scaling: current.pow.secondary_scaling,
                    },
                );
                proof {
                    assert(spec_window(eff, *cur, (DIFFICULTY_ADJUST_WINDOW + 1) as nat) =~= out@
                        + spec_window(eff, p, (remaining - 1) as nat));
                }
                current = p;
                remaining = remaining - 1;
            },
        }
    }
    assert(spec_window(eff, current, 0) =~= Seq::<HeaderDiffInfo>::empty());
    assert(out@ =~= spec_window(eff, *cur, (DIFFICULTY_ADJUST_WINDOW + 1) as nat));
    out
}

/// What header validation yields: the checks in order, cheapest first.
pub open spec fn spec_validate_header(
    h: BlockHeader,
    headers: Seq<BlockHeader>,
    opts: Options,
    pow_ok: bool,
    now: u64,
) -> Result<(), Error> {
    if !spec_valid_header_version(h.height, h.version) {
        Err(Error::InvalidBlockVersion(h.version))
    } else if h.timestamp > now + FUTURE_TIME_INTERVALS * BLOCK_TIME_SEC {
        Err(Error::InvalidBlockTime)
    } else if !opts.skip_pow && !h.pow.spec_is_primary() && !h.pow.spec_is_secondary() {
        Err(Error::LowEdgebits)
    } else if !opts.skip_pow && !pow_ok {
        Err(Error::InvalidPow)
    } else {
        match find_header_in(headers, h.prev_hash) {
            None => Err(Error::Orphan),
            Some(prev) => {
                if h.height != prev.height + 1 {
                    Err(Error::InvalidBlockHeight)
                } else if h.timestamp <= prev.timestamp {
                    Err(Error::InvalidBlockTime)
                } else if opts.skip_pow {
                    Ok(())
                } else if h.total_difficulty <= prev.total_difficulty {
                    Err(Error::DifficultyTooLow)
                } else {
                    let target = (h.total_difficulty - prev.total_difficulty) as u64;
                    let expected = spec_next_difficulty(
                        spec_window(headers, prev, (DIFFICULTY_ADJUST_WINDOW + 1) as nat),
                    );
                    if h.pow.spec_to_difficulty() < target {
                        Err(Error::DifficultyTooLow)
                    } else if target != expected.difficulty {
                        Err(Error::WrongTotalDifficulty)
                    } else if h.pow.secondary_scaling != expected.secondary_scaling {
                        Err(Error::InvalidScaling)
                    } else {
                        Ok(())
                    }
                }
            },
        }
    }
}

/// First level of block validation, acting on the header alone: version
/// schedule, timestamp sanity, proof of work, linkage to the previous
/// header, and the retarget.
pub fn validate_header<V: PowVerifier>(header: &BlockHeader, ctx: &BlockContext<V>) -> (r: Result<
    (),
    Error,
>)
    ensures
        r == spec_validate_header(
            *header,
            eff_headers(ctx.store@, ctx.batch@),
            ctx.opts,
            ctx.pow_verifier.spec_verify(*header),
            ctx.now_utc,
        ),
{
    if !valid_header_version(header.height, header.version) {
        return Err(Error::InvalidBlockVersion(header.version));
    }
    let horizon = if ctx.now_utc > u64::MAX - FUTURE_TIME_INTERVALS * BLOCK_TIME_SEC {
        u64::MAX
    } else {
        ctx.now_utc + FUTURE_TIME_INTERVALS * BLOCK_TIME_SEC
    };
    if header.timestamp > horizon {
        return Err(Error::InvalidBlockTime);
    }
    assert(!(header.timestamp > ctx.now_utc + FUTURE_TIME_INTERVALS * BLOCK_TIME_SEC));
    if !ctx.opts.skip_pow {
        if !header.pow.is_primary() && !header.pow.is_secondary() {
            return Err(Error::LowEdgebits);
        }
        if !ctx.pow_verifier.verify(header) {
            return Err(Error::InvalidPow);
        }
    }
    let prev = match ctx.batch.get_previous_header(&ctx.store, header) {
        None => {
            return Err(Error::Orphan);
        },
        Some(p) => p,
    };
    if prev.height == u64::MAX || header.height != prev.height + 1 {
        return Err(Error::InvalidBlockHeight);
    }
    if header.timestamp <= prev.timestamp {
        return Err(Error::InvalidBlockTime);
    }
    if ctx.opts.skip_pow {
        return Ok(());
    }
    if header.total_difficulty <= prev.total_difficulty {
        return Err(Error::DifficultyTooLow);
    }
    let target = header.total_difficulty - prev.total_difficulty;
    let window = difficulty_window(&prev, &ctx.store, &ctx.batch);
    let expected: NextHeaderInfo = next_difficulty(&window);
    if header.pow.to_difficulty() < target {
        return Err(Error::DifficultyTooLow);
    }
    if target != expected.difficulty {
        return Err(Error::WrongTotalDifficulty);
    }
    if header.pow.secondary_scaling != expected.secondary_scaling {
        return Err(Error::InvalidScaling);
    }
    Ok(())
}

/// Whether the provided header totals more work than the given tip.
pub fn has_more_work(header: &BlockHeader, head: &Tip) -> (r: bool)
    ensures
        r == (header.total_difficulty > head.total_difficulty),
{
    header.total_difficulty() > head.total_difficulty
}

/// Sum of output commitments.
pub open spec fn sum_output_commits(s: Seq<TxOutput>) -> Commitment
    decreases s.len(),
{
    if s.len() == 0 {
        Commitment::spec_zero()
    } else {
        sum_output_commits(s.drop_last()).spec_plus(s.last().commit)
    }
}

/// Sum of input commitments.
pub open spec fn sum_input_commits(s: Seq<TxInput>) -> Commitment
    decreases s.len(),
{
    if s.len() == 0 {
        Commitment::spec_zero()
    } else {
        sum_input_commits(s.drop_last()).spec_plus(s.last().commit)
    }
}

/// Sum of kernel excess commitments.
pub open spec fn sum_kernel_excess(s: Seq<TxKernel>) -> Commitment
    decreases s.len(),
{
    if s.len() == 0 {
        Commitment::spec_zero()
    } else {
        sum_kernel_excess(s.drop_last()).spec_plus(s.last().excess)
    }
}

/// Fold the output commitments of a block.
fn fold_output_commits(v: &Vec<TxOutput>) -> (r: Commitment)
    ensures
        r == sum_output_commits(v@),
{
    let mut acc = Commitment::zero();
    let mut i: usize = 0;
    while i < v.len()
        invariant
            0 <= i <= v.len(),
            acc == sum_output_commits(v@.take(i as int)),
        decreases v.len() - i,
    {
        assert(v@.take(i as int + 1).drop_last() =~= v@.take(i as int));
        acc = acc.plus(v[i].commit);
        i = i + 1;
    }
    assert(v@.take(v@.len() as int) =~= v@);
    acc
}

/// Fold the input commitments of a block.
fn fold_input_commits(v: &Vec<TxInput>) -> (r: Commitment)
    ensures
        r == sum_input_commits(v@),
{
    let mut acc = Commitment::zero();
    let mut i: usize = 0;
    while i < v.len()
        invariant
            0 <= i <= v.len(),
            acc == sum_input_commits(v@.take(i as int)),
        decreases v.len() - i,
    {
        assert(v@.take(i as int + 1).drop_last() =~= v@.take(i as int));
        acc = acc.plus(v[i].commit);
        i = i + 1;
    }
    assert(v@.take(v@.len() as int) =~= v@);
    acc
}

/// Fold the kernel excesses of a block.
fn fold_kernel_excess(v: &Vec<TxKernel>) -> (r: Commitment)
    ensures
        r == sum_kernel_excess(v@),
{
    let mut acc = Commitment::zero();
    let mut i: usize = 0;
    while i < v.len()
        invariant
            0 <= i <= v.len(),
            acc == sum_kernel_excess(v@.take(i as int)),
        decreases v.len() - i,
    {
        assert(v@.take(i as int + 1).drop_last() =~= v@.take(i as int));
        acc = acc.plus(v[i].excess);
        i = i + 1;
    }
    assert(v@.take(v@.len() as int) =~= v@);
    acc
}

/// The chain-level kernel-sum identity with the new block applied: the
/// updated running sums must balance the cumulative subsidy on the value
/// side and the cumulative kernel offset on the blinding side. Yields the
/// new sums on success.
pub open spec fn spec_block_sums_ok(b: BlockV, prev: BlockSums) -> Option<BlockSums> {
    let utxo = prev.utxo_sum.spec_plus(sum_output_commits(b.outputs)).spec_minus(
        sum_input_commits(b.inputs),
    );
    let kern = prev.kernel_sum.spec_plus(sum_kernel_excess(b.kernels));
    if utxo.v == wadd(kern.v, wmul(b.header.height, REWARD)) && utxo.r == wadd(
        kern.r,
        b.header.total_kernel_offset,
    ) {
        Some(BlockSums { utxo_sum: utxo, kernel_sum: kern })
    } else {
        None
    }
}

/// Verify kernel sums across the full running sums, accounting for the
/// inputs, outputs and kernels of the new block; yields the sums to store
/// for the block.
pub fn verify_block_sums(b: &Block, store: &ChainStore, batch: &Batch) -> (r: Result<
    BlockSums,
    Error,
>)
    ensures
        match find_sums_in(eff_sums(store@, batch@), b.header.prev_hash) {
            None => r == Err::<BlockSums, Error>(Error::StoreErr),
            Some(prev) => match spec_block_sums_ok(b@, prev) {
                None => r == Err::<BlockSums, Error>(
                    Error::InvalidBlockProof(BlockProofErr::KernelSumMismatch),
                ),
                Some(s) => r == Ok::<BlockSums, Error>(s),
            },
        },
{
    let prev = match batch.get_block_sums(store, b.header.prev_hash) {
        None => {
            return Err(Error::StoreErr);
        },
        Some(s) => s,
    };
    let utxo = prev.utxo_sum.plus(fold_output_commits(&b.outputs)).minus(
        fold_input_commits(&b.inputs),
    );
    let kern = prev.kernel_sum.plus(fold_kernel_excess(&b.kernels));
    let overage = b.header.height.wrapping_mul(REWARD);
    if utxo.v == kern.v.wrapping_add(overage) && utxo.r == kern.r.wrapping_add(
        b.header.total_kernel_offset,
    ) {
        Ok(BlockSums { utxo_sum: utxo, kernel_sum: kern })
    } else {
        Err(Error::InvalidBlockProof(BlockProofErr::KernelSumMismatch))
    }
}

/// No two inputs spend the same commitment.
pub open spec fn inputs_distinct(s: Seq<TxInput>) -> bool {
    forall|k: int, l: int| 0 <= k < l < s.len() ==> s[k].commit != s[l].commit
}

/// No two outputs carry the same commitment.
pub open spec fn outputs_distinct(s: Seq<TxOutput>) -> bool {
    forall|k: int, l: int| 0 <= k < l < s.len() ==> s[k].commit != s[l].commit
}

/// Every output's range proof verifies.
pub open spec fn all_rangeproofs_ok(s: Seq<TxOutput>) -> bool {
    forall|k: int|
        0 <= k < s.len() ==> (#[trigger] s[k]).proof == spec_rangeproof_for(
            s[k].commit,
            s[k].is_coinbase,
        )
}

/// Every kernel's signature verifies.
pub open spec fn all_kernel_sigs_ok(s: Seq<TxKernel>) -> bool {
    forall|k: int|
        0 <= k < s.len() ==> (#[trigger] s[k]).sig == spec_kernel_sig_for(
            s[k].excess,
            s[k].fee,
            s[k].lock_height,
        )
}

/// Every kernel's lock height has passed at the given height.
pub open spec fn all_lock_heights_ok(s: Seq<TxKernel>, height: u64) -> bool {
    forall|k: int| 0 <= k < s.len() ==> (#[trigger] s[k]).lock_height <= height
}

/// The block's own Pedersen balance over its parent's cumulative offset:
/// its outputs minus its inputs must equal its kernel excesses plus the
/// block subsidy on the value side and its offset increment on the
/// blinding side.
pub open spec fn block_local_sums_ok(b: BlockV, prev_offset: u64) -> bool {
    let lhs = sum_output_commits(b.outputs).spec_minus(sum_input_commits(b.inputs));
    let excess = sum_kernel_excess(b.kernels);
    &&& lhs.v == wadd(excess.v, if b.header.height == 0 { 0u64 } else { REWARD })
    &&& lhs.r == wadd(excess.r, wsub(b.header.total_kernel_offset, prev_offset))
}

/// What stateless block validation yields, given the parent's cumulative
/// kernel offset.
pub open spec fn spec_validate_block(b: BlockV, prev_offset: u64) -> Result<(), Error> {
    if !inputs_distinct(b.inputs) {
        Err(Error::InvalidBlockProof(BlockProofErr::DuplicateInput))
    } else if !outputs_distinct(b.outputs) {
        Err(Error::InvalidBlockProof(BlockProofErr::DuplicateOutput))
    } else if !all_rangeproofs_ok(b.outputs) {
        Err(Error::InvalidBlockProof(BlockProofErr::InvalidRangeProof))
    } else if !all_kernel_sigs_ok(b.kernels) {
        Err(Error::InvalidBlockProof(BlockProofErr::InvalidKernelSignature))
    } else if !all_lock_heights_ok(b.kernels, b.header.height) {
        Err(Error::InvalidBlockProof(BlockProofErr::KernelLockHeight))
    } else if !block_local_sums_ok(b, prev_offset) {
        Err(Error::InvalidBlockProof(BlockProofErr::KernelSumMismatch))
    } else {
        Ok(())
    }
}

/// Check that the inputs of a block spend pairwise distinct commitments.
fn check_inputs_distinct(v: &Vec<TxInput>) -> (r: bool)
    ensures
        r == inputs_distinct(v@),
{
    let mut k: usize = 0;
    while k < v.len()
        invariant
            0 <= k <= v@.len(),
            forall|q: int, l: int| 0 <= q < l < v@.len() && q < k as int ==> v@[q].commit != v@[l].commit,
        decreases v.len() - k,
    {
        let mut l: usize = k + 1;
        while l < v.len()
            invariant
                0 <= k < l <= v@.len(),
                forall|m: int| #![auto] ((k as int) < m && m < l as int) ==> v@[k as int].commit != v@[m].commit,
            decreases v.len() - l,
        {
            if v[k].commit == v[l].commit {
                return false;
            }
            l = l + 1;
        }
        k = k + 1;
    }
    true
}

/// Check that the outputs of a block carry pairwise distinct commitments.
fn check_outputs_distinct(v: &Vec<TxOutput>) -> (r: bool)
    ensures
        r == outputs_distinct(v@),
{
    let mut k: usize = 0;
    while k < v.len()
        invariant
            0 <= k <= v@.len(),
            forall|q: int, l: int| 0 <= q < l < v@.len() && q < k as int ==> v@[q].commit != v@[l].commit,
        decreases v.len() - k,
    {
        let mut l: usize = k + 1;
        while l < v.len()
            invariant
                0 <= k < l <= v@.len(),
                forall|m: int| #![auto] ((k as int) < m && m < l as int) ==> v@[k as int].commit != v@[m].commit,
            decreases v.len() - l,
        {
            if v[k].commit == v[l].commit {
                return false;
            }
            l = l + 1;
        }
        k = k + 1;
    }
    true
}

/// Validate the block itself: structural checks, proof and signature
/// verification, and its own Pedersen balance against the previous
/// header's cumulative offset.
#[verifier::rlimit(30)]
pub fn validate_block<V: PowVerifier>(b: &Block, ctx: &BlockContext<V>) -> (r: Result<(), Error>)
    ensures
        match find_header_in(eff_headers(ctx.store@, ctx.batch@), b.header.prev_hash) {
            None => r == Err::<(), Error>(Error::StoreErr),
            Some(prev) => r == spec_validate_block(b@, prev.total_kernel_offset),
        },
{
    let prev = match ctx.batch.get_previous_header(&ctx.store, &b.header) {
        None => {
            return Err(Error::StoreErr);
        },
        Some(p) => p,
    };
    if !check_inputs_distinct(&b.inputs) {
        return Err(Error::InvalidBlockProof(BlockProofErr::DuplicateInput));
    }
    if !check_outputs_distinct(&b.outputs) {
        return Err(Error::InvalidBlockProof(BlockProofErr::DuplicateOutput));
    }
    let mut i: usize = 0;
    while i < b.outputs.len()
        invariant
            0 <= i <= b.outputs@.len(),
            find_header_in(eff_headers(ctx.store@, ctx.batch@), b.header.prev_hash) == Some(prev),
            inputs_distinct(b@.inputs),
            outputs_distinct(b@.outputs),
            forall|k: int|
                0 <= k < i as int ==> (#[trigger] b.outputs@[k]).proof == spec_rangeproof_for(
                    b.outputs@[k].commit,
                    b.outputs@[k].is_coinbase,
                ),
        decreases b.outputs.len() - i,
    {
        let o = b.outputs[i];
        if o.proof != crate::types::rangeproof_for(o.commit, o.is_coinbase) {
            assert(!all_rangeproofs_ok(b@.outputs)) by {
                assert(b.outputs@[i as int].proof != spec_rangeproof_for(
                    b.outputs@[i as int].commit,
                    b.outputs@[i as int].is_coinbase,
                ));
            };
            return Err(Error::InvalidBlockProof(BlockProofErr::InvalidRangeProof));
        }
        i = i + 1;
    }
    let mut j: usize = 0;
    while j < b.kernels.len()
        invariant
            0 <= j <= b.kernels@.len(),
            find_header_in(eff_headers(ctx.store@, ctx.batch@), b.header.prev_hash) == Some(prev),
            inputs_distinct(b@.inputs),
            outputs_distinct(b@.outputs),
            all_rangeproofs_ok(b@.outputs),
            forall|k: int|
                0 <= k < j as int ==> (#[trigger] b.kernels@[k]).sig == spec_kernel_sig_for(
                    b.kernels@[k].excess,
                    b.kernels@[k].fee,
                    b.kernels@[k].lock_height,
                ),
        decreases b.kernels.len() - j,
    {
        let k = b.kernels[j];
        if k.sig != crate::types::kernel_sig_for(k.excess, k.fee, k.lock_height) {
            assert(!all_kernel_sigs_ok(b@.kernels)) by {
                assert(b.kernels@[j as int].sig != spec_kernel_sig_for(
                    b.kernels@[j as int].excess,
                    b.kernels@[j as int].fee,
                    b.kernels@[j as int].lock_height,
                ));
            };
            return Err(Error::InvalidBlockProof(BlockProofErr::InvalidKernelSignature));
        }
        j = j + 1;
    }
    let mut t: usize = 0;
    while t < b.kernels.len()
        invariant
            0 <= t <= b.kernels@.len(),
            find_header_in(eff_headers(ctx.store@, ctx.batch@), b.header.prev_hash) == Some(prev),
            inputs_distinct(b@.inputs),
            outputs_distinct(b@.outputs),
            all_rangeproofs_ok(b@.outputs),
            all_kernel_sigs_ok(b@.kernels),
            forall|k: int| 0 <= k < t as int ==> (#[trigger] b.kernels@[k]).lock_height <= b.header.height,
        decreases b.kernels.len() - t,
    {
        if b.kernels[t].lock_height > b.header.height {
            assert(!all_lock_heights_ok(b@.kernels, b.header.height)) by {
                assert(b.kernels@[t as int].lock_height > b.header.height);
            };
            return Err(Error::InvalidBlockProof(BlockProofErr::KernelLockHeight));
        }
        t = t + 1;
    }
    let lhs = fold_output_commits(&b.outputs).minus(fold_input_commits(&b.inputs));
    let excess = fold_kernel_excess(&b.kernels);
    let overage: u64 = if b.header.height == 0 {
        0
    } else {
        REWARD
    };
    let delta = b.header.total_kernel_offset.wrapping_sub(prev.total_kernel_offset);
    if lhs.v == excess.v.wrapping_add(overage) && lhs.r == excess.r.wrapping_add(delta) {
        Ok(())
    } else {
        Err(Error::InvalidBlockProof(BlockProofErr::KernelSumMismatch))
    }
}

/// Verify that no coinbase output the block spends is still maturing, in
/// the context of the (possibly rewound) extension.
pub fn verify_coinbase_maturity(block: &Block, ext: &Extension) -> (r: Result<(), Error>)
    ensures
        r is Ok <==> spec_coinbase_mature(ext@.outputs, block@.inputs, block.header.height),
        r is Err ==> r == Err::<(), Error>(
            Error::InvalidBlockProof(BlockProofErr::ImmatureCoinbase),
        ),
{
    ext.verify_coinbase_maturity(&block.inputs, block.header.height)
}

/// Validate the block against the unspent output set of the extension.
pub fn validate_utxo(block: &Block, ext: &Extension) -> (r: Result<(), Error>)
    ensures
        r is Ok <==> spec_utxo_valid(ext@.outputs, block@),
        r is Err ==> (r == Err::<(), Error>(Error::InvalidBlockProof(BlockProofErr::MissingInput))
            || r == Err::<(), Error>(Error::InvalidBlockProof(BlockProofErr::DuplicateUnspent))),
{
    ext.validate_utxo(block)
}

/// The state transition of fully applying a block to an extension: the
/// header-chain root must match the declared prev-root, the block must
/// apply, and the resulting roots and sizes must match the header.
pub open spec fn spec_apply_block_with_roots(v: ExtV, b: BlockV) -> Option<ExtV> {
    if !(b.header.height == 0 || root_fold(v.headers) == b.header.prev_root) {
        None
    } else {
        match spec_apply_block(v, b) {
            None => None,
            Some(w) => if output_root_of(w.outputs) == b.header.output_root && root_fold(w.rproofs)
                == b.header.range_proof_root && kernel_root_of(w.kernels) == b.header.kernel_root
                && w.outputs.len() == b.header.output_mmr_size && w.rproofs.len()
                == b.header.output_mmr_size && w.kernels.len() == b.header.kernel_mmr_size {
                Some(w)
            } else {
                None
            },
        }
    }
}

/// Fully validate the block by applying it to the extension, checking the
/// accumulator roots and sizes against the header afterwards.
pub fn apply_block_to_txhashset(block: &Block, ext: &mut Extension) -> (r: Result<(), Error>)
    ensures
        r is Ok <==> spec_apply_block_with_roots(old(ext)@, block@) is Some,
        r is Ok ==> final(ext)@ == spec_apply_block_with_roots(old(ext)@, block@).unwrap(),
        final(ext)@.rollback == old(ext)@.rollback,
        r is Err ==> (r == Err::<(), Error>(Error::InvalidRoot) || r == Err::<(), Error>(
            Error::InvalidBlockProof(BlockProofErr::MissingInput),
        ) || r == Err::<(), Error>(Error::InvalidMMRSize)),
{
    ext.validate_header_root(&block.header)?;
    ext.apply_block(block)?;
    ext.validate_roots(&block.header)?;
    ext.validate_sizes(&block.header)?;
    Ok(())
}

/// Officially add the block to the chain: body and block sums. The header
/// is added separately.
pub fn add_block(b: &Block, block_sums: &BlockSums, batch: &mut Batch)
    ensures
        final(batch)@ == (StoreV {
            blocks: old(batch)@.blocks.push(b@),
            sums: old(batch)@.sums.push((hash_of(b.header), *block_sums)),
            ..old(batch)@
        }),
{
    batch.save_block(b);
    let h = b.header.hash();
    batch.save_block_sums(h, block_sums);
}

/// Set the body tail so the node knows its earliest retained full block.
pub fn update_body_tail(bh: &BlockHeader, batch: &mut Batch)
    ensures
        final(batch)@ == (StoreV { tail: Some(spec_tip_from(*bh)), ..old(batch)@ }),
{
    let tip = Tip::from_header(bh);
    batch.save_body_tail(&tip);
}

/// Officially add the block header to the header chain.
pub fn add_block_header(bh: &BlockHeader, batch: &mut Batch)
    ensures
        final(batch)@ == (StoreV { headers: old(batch)@.headers.push(*bh), ..old(batch)@ }),
{
    batch.save_block_header(bh);
}

/// Update the best full-block tip.
pub fn update_head(head: &Tip, batch: &mut Batch)
    ensures
        final(batch)@ == (StoreV { head: Some(*head), ..old(batch)@ }),
{
    batch.save_body_head(head);
}

/// Update the sync tip so header sync can resume where it left off.
pub fn update_sync_head(head: &Tip, batch: &mut Batch)
    ensures
        final(batch)@ == (StoreV { sync_head: Some(*head), ..old(batch)@ }),
{
    batch.save_sync_head(head);
}

/// Update the best header tip.
pub fn update_header_head(head: &Tip, batch: &mut Batch)
    ensures
        final(batch)@ == (StoreV { header_head: Some(*head), ..old(batch)@ }),
{
    batch.save_header_head(head);
}

/// Walk back from a header, through stored headers, until one is on the
/// given chain with height at most `stop_h` (or height zero is reached):
/// the fork point, together with the hashes of the headers walked over,
/// earliest first. Fails where a parent is missing or heights do not
/// decrease.
pub open spec fn fork_walk(
    eff: Seq<BlockHeader>,
    chain: Seq<u64>,
    cur: BlockHeader,
    stop_h: u64,
) -> Option<(BlockHeader, Seq<u64>)>
    decreases cur.height,
{
    if cur.height == 0 || (spec_on_chain(chain, cur) && cur.height <= stop_h) {
        Some((cur, Seq::empty()))
    } else {
        match find_header_in(eff, cur.prev_hash) {
            None => None,
            Some(p) => if p.height < cur.height {
                match fork_walk(eff, chain, p, stop_h) {
                    None => None,
                    Some(pr) => Some((pr.0, pr.1.push(hash_of(cur)))),
                }
            } else {
                None
            },
        }
    }
}

/// Hashes of a newest-first header sequence, oldest first.
pub open spec fn rev_hashes(s: Seq<BlockHeader>) -> Seq<u64>
    decreases s.len(),
{
    if s.len() == 0 {
        Seq::empty()
    } else {
        seq![hash_of(s.last())] + rev_hashes(s.drop_last())
    }
}

/// Length and contents of [`rev_hashes`].
pub proof fn lemma_rev_hashes_index(s: Seq<BlockHeader>, q: int)
    requires
        0 <= q < s.len(),
    ensures
        rev_hashes(s).len() == s.len(),
        rev_hashes(s)[q] == hash_of(s[s.len() - 1 - q]),
    decreases s.len(),
{
    lemma_rev_hashes_len(s);
    if q > 0 {
        lemma_rev_hashes_index(s.drop_last(), q - 1);
    }
}

/// [`rev_hashes`] keeps the length.
pub proof fn lemma_rev_hashes_len(s: Seq<BlockHeader>)
    ensures
        rev_hashes(s).len() == s.len(),
    decreases s.len(),
{
    if s.len() > 0 {
        lemma_rev_hashes_len(s.drop_last());
    }
}

/// Whether the walk would stop at this header.
fn at_fork_point(chain: &Vec<u64>, h: &BlockHeader, stop_h: u64) -> (r: bool)
    ensures
        r == (h.height == 0 || (spec_on_chain(chain@, *h) && h.height <= stop_h)),
{
    if h.height == 0 {
        return true;
    }
    if h.height < chain.len() as u64 {
        let i = h.height as usize;
        chain[i] == h.hash() && h.height <= stop_h
    } else {
        false
    }
}

/// Collect the fork headers from `from` back to the fork point, newest
/// first, and return the fork point.
fn collect_fork(
    store: &ChainStore,
    batch: &Batch,
    chain: &Vec<u64>,
    from: &BlockHeader,
    stop_h: u64,
) -> (r: Result<(BlockHeader, Vec<BlockHeader>), Error>)
    ensures
        match fork_walk(eff_headers(store@, batch@), chain@, *from, stop_h) {
            None => r is Err,
            Some(pr) => r is Ok && r.unwrap().0 == pr.0 && rev_hashes(r.unwrap().1@) == pr.1,
        },
{
    let ghost eff = eff_headers(store@, batch@);
    let mut collected: Vec<BlockHeader> = Vec::new();
    let mut current: BlockHeader = *from;
    let mut done: bool = at_fork_point(chain, &current, stop_h);
    assert(rev_hashes(collected@) =~= Seq::<u64>::empty());
    assert(fork_walk(eff, chain@, *from, stop_h) == (match fork_walk(eff, chain@, current, stop_h) {
        None => None::<(BlockHeader, Seq<u64>)>,
        Some(pr) => Some((pr.0, pr.1 + rev_hashes(collected@))),
    })) by {
        match fork_walk(eff, chain@, current, stop_h) {
            None => {},
            Some(pr) => {
                assert(pr.1 + rev_hashes(collected@) =~= pr.1);
            },
        }
    };
    while !done
        invariant
            eff == eff_headers(store@, batch@),
            done == (current.height == 0 || (spec_on_chain(chain@, current) && current.height
                <= stop_h)),
            fork_walk(eff, chain@, *from, stop_h) == (match fork_walk(
                eff,
                chain@,
                current,
                stop_h,
            ) {
                None => None::<(BlockHeader, Seq<u64>)>,
                Some(pr) => Some((pr.0, pr.1 + rev_hashes(collected@))),
            }),
        decreases current.height,
    {
        let p = match batch.get_previous_header(store, &current) {
            None => {
                return Err(Error::StoreErr);
            },
            Some(p) => p,
        };
        if p.height >= current.height {
            return Err(Error::Internal);
        }
        let ghost pre = collected@;
        collected.push(current);
        assert(collected@.drop_last() =~= pre);
        assert(rev_hashes(collected@) =~= seq![hash_of(current)] + rev_hashes(
            collected@.drop_last(),
        ));
        proof {
            assert(!(current.height == 0 || (spec_on_chain(chain@, current) && current.height
                <= stop_h)));
            assert(find_header_in(eff, current.prev_hash) == Some(p));
            assert(fork_walk(eff, chain@, current, stop_h) == (match fork_walk(
                eff,
                chain@,
                p,
                stop_h,
            ) {
                None => None::<(BlockHeader, Seq<u64>)>,
                Some(pr) => Some((pr.0, pr.1.push(hash_of(current)))),
            }));
            match fork_walk(eff, chain@, p, stop_h) {
                None => {},
                Some(pr) => {
                    assert(pr.1.push(hash_of(current)) + rev_hashes(collected@.drop_last()) =~= pr.1
                        + rev_hashes(collected@));
                },
            }
        }
        current = p;
        done = at_fork_point(chain, &current, stop_h);
    }
    assert(fork_walk(eff, chain@, current, stop_h) == Some((current, Seq::<u64>::empty())));
    proof {
        let pr = fork_walk(eff, chain@, current, stop_h).unwrap();
        assert(pr.1 + rev_hashes(collected@) =~= rev_hashes(collected@));
    }
    Ok((current, collected))
}

/// Rewind the header chain and reapply the headers on a fork ending at
/// the given header.
pub fn rewind_and_apply_header_fork(
    header: &BlockHeader,
    ext: &mut HeaderExtension,
    store: &ChainStore,
    batch: &Batch,
) -> (r: Result<(), Error>)
    ensures
        final(ext)@.rollback == old(ext)@.rollback,
        (old(ext)@.headers.len() > 0 && old(ext)@.headers.last() == hash_of(*header)) ==> (r
            == Ok::<(), Error>(()) && final(ext)@ == old(ext)@),
        !(old(ext)@.headers.len() > 0 && old(ext)@.headers.last() == hash_of(*header)) ==> (match
            fork_walk(eff_headers(store@, batch@), old(ext)@.headers, *header, u64::MAX) {
            None => r is Err && final(ext)@ == old(ext)@,
            Some(pr) => {
                if pr.0.height + 1 <= old(ext)@.headers.len() {
                    r == Ok::<(), Error>(()) && final(ext)@.headers == old(ext)@.headers.take(
                        pr.0.height as int + 1,
                    ) + pr.1
                } else {
                    r is Err && final(ext)@ == old(ext)@
                }
            },
        }),
{
    match ext.last_hash() {
        Some(lh) => {
            if lh == header.hash() {
                return Ok(());
            }
        },
        None => {},
    }
    let (forked, collected) = collect_fork(store, batch, &ext.headers, header, u64::MAX)?;
    ext.rewind(&forked)?;
    let ghost base = ext@.headers;
    let ghost hs = rev_hashes(collected@);
    proof {
        lemma_rev_hashes_len(collected@);
    }
    let mut idx: usize = collected.len();
    while idx > 0
        invariant
            0 <= idx <= collected@.len(),
            hs == rev_hashes(collected@),
            hs.len() == collected@.len(),
            ext@.headers == base + hs.take(collected@.len() - idx as int),
            ext@.rollback == old(ext)@.rollback,
        decreases idx,
    {
        idx = idx - 1;
        let ghost j = collected@.len() - idx as int - 1;
        proof {
            lemma_rev_hashes_index(collected@, j);
        }
        ext.apply_header(&collected[idx]);
        assert(ext@.headers =~= base + hs.take(collected@.len() - idx as int));
    }
    assert(hs.take(collected@.len() as int) =~= hs);
    Ok(())
}

/// One step of the fork replay: re-verify coinbase maturity, the unspent
/// set, the running sums, and apply the block checking roots and sizes.
pub open spec fn spec_apply_block_checked(
    v: ExtV,
    fb: BlockV,
    sums: Seq<(u64, BlockSums)>,
) -> Option<ExtV> {
    if !spec_coinbase_mature(v.outputs, fb.inputs, fb.header.height) {
        None
    } else if !spec_utxo_valid(v.outputs, fb) {
        None
    } else {
        match find_sums_in(sums, fb.header.prev_hash) {
            None => None,
            Some(ps) => if spec_block_sums_ok(fb, ps) is None {
                None
            } else {
                spec_apply_block_with_roots(v, fb)
            },
        }
    }
}

/// The fork replay: fetch each block by hash, earliest first, and apply
/// it checked.
pub open spec fn spec_replay(
    v: ExtV,
    blocks: Seq<BlockV>,
    sums: Seq<(u64, BlockSums)>,
    hs: Seq<u64>,
) -> Option<ExtV>
    decreases hs.len(),
{
    if hs.len() == 0 {
        Some(v)
    } else {
        match find_block_in(blocks, hs[0]) {
            None => None,
            Some(fb) => match spec_apply_block_checked(v, fb, sums) {
                None => None,
                Some(w) => spec_replay(w, blocks, sums, hs.skip(1)),
            },
        }
    }
}

/// From the forked block, find the fork point — the earlier of the
/// header-chain fork point and the block's own — rewind the accumulator
/// state there, and reapply the fork's blocks, re-running every check.
pub fn rewind_and_apply_fork(
    header: &BlockHeader,
    header_head: &Tip,
    ext: &mut Extension,
    store: &ChainStore,
    batch: &Batch,
) -> (r: Result<(), Error>)
    ensures
        final(ext)@.rollback == old(ext)@.rollback,
        match find_header_in(eff_headers(store@, batch@), header_head.last_block_h) {
            None => r == Err::<(), Error>(Error::StoreErr) && final(ext)@ == old(ext)@,
            Some(hh) => match fork_walk(
                eff_headers(store@, batch@),
                old(ext)@.headers,
                hh,
                u64::MAX,
            ) {
                None => r is Err && final(ext)@ == old(ext)@,
                Some(w1) => match fork_walk(
                    eff_headers(store@, batch@),
                    old(ext)@.headers,
                    *header,
                    w1.0.height,
                ) {
                    None => r is Err && final(ext)@ == old(ext)@,
                    Some(w2) => {
                        if can_rewind(old(ext)@, w2.0) {
                            match spec_replay(
                                spec_rewind(old(ext)@, w2.0),
                                eff_blocks(store@, batch@),
                                eff_sums(store@, batch@),
                                w2.1,
                            ) {
                                Some(w) => r == Ok::<(), Error>(()) && final(ext)@ == w,
                                None => r is Err,
                            }
                        } else {
                            r is Err && final(ext)@ == old(ext)@
                        }
                    },
                },
            },
        },
{
    let hh = match batch.get_block_header(store, header_head.last_block_h) {
        None => {
            return Err(Error::StoreErr);
        },
        Some(x) => x,
    };
    let (header_forked_header, _discard) = collect_fork(store, batch, &ext.headers, &hh, u64::MAX)?;
    let (forked, collected) = collect_fork(
        store,
        batch,
        &ext.headers,
        header,
        header_forked_header.height,
    )?;
    ext.rewind(&forked)?;
    replay_fork(&collected, ext, store, batch)
}

/// Reapply the collected fork headers' blocks, earliest first, re-running
/// every check on each.
fn replay_fork(
    collected: &Vec<BlockHeader>,
    ext: &mut Extension,
    store: &ChainStore,
    batch: &Batch,
) -> (r: Result<(), Error>)
    ensures
        final(ext)@.rollback == old(ext)@.rollback,
        match spec_replay(
            old(ext)@,
            eff_blocks(store@, batch@),
            eff_sums(store@, batch@),
            rev_hashes(collected@),
        ) {
            Some(w) => r == Ok::<(), Error>(()) && final(ext)@ == w,
            None => r is Err,
        },
{
    let ghost eff_b = eff_blocks(store@, batch@);
    let ghost eff_s = eff_sums(store@, batch@);
    let ghost hs = rev_hashes(collected@);
    proof {
        lemma_rev_hashes_len(collected@);
    }
    assert(hs.skip(0) =~= hs);
    let mut idx: usize = collected.len();
    while idx > 0
        invariant
            0 <= idx <= collected@.len(),
            hs == rev_hashes(collected@),
            hs.len() == collected@.len(),
            eff_b == eff_blocks(store@, batch@),
            eff_s == eff_sums(store@, batch@),
            ext@.rollback == old(ext)@.rollback,
            spec_replay(old(ext)@, eff_b, eff_s, hs) == spec_replay(
                ext@,
                eff_b,
                eff_s,
                hs.skip(collected@.len() - idx as int),
            ),
        decreases idx,
    {
        let ghost j = collected@.len() - idx as int;
        proof {
            lemma_rev_hashes_index(collected@, j);
        }
        assert(hs.skip(j)[0] == hs[j]);
        assert(hs.skip(j).skip(1) =~= hs.skip(j + 1));
        idx = idx - 1;
        let h = collected[idx].hash();
        assert(h == hs[j]);
        let fb = match batch.get_block(store, h) {
            None => {
                return Err(Error::StoreErr);
            },
            Some(x) => x,
        };
        verify_coinbase_maturity(&fb, ext)?;
        validate_utxo(&fb, ext)?;
        let _sums = verify_block_sums(&fb, store, batch)?;
        apply_block_to_txhashset(&fb, ext)?;
    }
    assert(hs.skip(collected@.len() as int) =~= Seq::<u64>::empty());
    Ok(())
}

/// Relies on `std::time::SystemTime::now` for the wall clock, converted
/// to whole seconds since the epoch; a clock set before the epoch reads
/// as zero. Nothing is promised of the value. (The chrono clock is not
/// used here: every `chrono` now-path unwraps internally and so can
/// panic on a pre-epoch or out-of-range host clock.)
#[verifier::external_body]
fn clock_now_utc() -> u64 {
    match std::time::SystemTime::now().duration_since(std::time::UNIX_EPOCH) {
        Ok(d) => d.as_secs(),
        Err(_) => 0,
    }
}

impl<V: PowVerifier> BlockContext<V> {
    /// Build a context over the given state with a fresh batch, reading
    /// the wall clock for timestamp validation.
    pub fn new(opts: Options, pow_verifier: V, store: ChainStore, txhashset: TxHashSet) -> (r:
        BlockContext<V>)
        ensures
            r.opts == opts,
            r.store@ == store@,
            r.txhashset@ == txhashset@,
            batch_is_empty(r.batch@),
    {
        let now = clock_now_utc();
        BlockContext { opts, pow_verifier, store, txhashset, batch: Batch::new(), now_utc: now }
    }
}

/// Alignment of an extension with the next block: the header chain's tip
/// header and the block's parent both sit on the extension's chain, the
/// rewind to the parent is a no-op, and the block passes every stateful
/// check and applies with matching roots and sizes.
pub open spec fn spec_aligned_block_apply(
    ext0: ExtV,
    b: BlockV,
    effh: Seq<BlockHeader>,
    effs: Seq<(u64, BlockSums)>,
    header_head: Tip,
) -> bool {
    let hh = find_header_in(effh, header_head.last_block_h);
    let prev = find_header_in(effh, b.header.prev_hash);
    &&& hh is Some
    &&& spec_on_chain(ext0.headers, hh.unwrap())
    &&& prev is Some
    &&& spec_on_chain(ext0.headers, prev.unwrap())
    &&& prev.unwrap().height <= hh.unwrap().height
    &&& can_rewind(ext0, prev.unwrap())
    &&& spec_rewind(ext0, prev.unwrap()) == ext0
    &&& spec_coinbase_mature(ext0.outputs, b.inputs, b.header.height)
    &&& spec_utxo_valid(ext0.outputs, b)
    &&& find_sums_in(effs, b.header.prev_hash) is Some
    &&& spec_block_sums_ok(b, find_sums_in(effs, b.header.prev_hash).unwrap()) is Some
    &&& spec_apply_block_with_roots(ext0, b) is Some
}

/// The chain extension unit of work for one block: rewind and reapply the
/// fork, re-check coinbase maturity, the unspent set and the running
/// sums, apply the block, and ask for a rollback where it does not
/// increase the work on the chain.
fn block_ext_phase(
    b: &Block,
    prev: &BlockHeader,
    header_head: &Tip,
    ext: &mut Extension,
    ctx_store: &ChainStore,
    ctx_batch: &Batch,
) -> (r: Result<BlockSums, Error>)
    requires
        old(ext)@.rollback == false,
    ensures
        r is Ok ==> ({
            &&& output_root_of(final(ext)@.outputs) == b.header.output_root
            &&& root_fold(final(ext)@.rproofs) == b.header.range_proof_root
            &&& kernel_root_of(final(ext)@.kernels) == b.header.kernel_root
            &&& final(ext)@.outputs.len() == b.header.output_mmr_size
            &&& final(ext)@.rproofs.len() == b.header.output_mmr_size
            &&& final(ext)@.kernels.len() == b.header.kernel_mmr_size
            &&& (match find_sums_in(eff_sums(ctx_store@, ctx_batch@), b.header.prev_hash) {
                Some(ps) => spec_block_sums_ok(b@, ps) == Some(r.unwrap()),
                None => false,
            })
            &&& (eff_head(ctx_store@, ctx_batch@) is Some ==> final(ext)@.rollback == !(
            b.header.total_difficulty > eff_head(ctx_store@, ctx_batch@).unwrap().total_difficulty))
        }),
        (spec_aligned_block_apply(
            old(ext)@,
            b@,
            eff_headers(ctx_store@, ctx_batch@),
            eff_sums(ctx_store@, ctx_batch@),
            *header_head,
        ) && eff_head(ctx_store@, ctx_batch@) is Some && find_header_in(
            eff_headers(ctx_store@, ctx_batch@),
            b.header.prev_hash,
        ) == Some(*prev)) ==> r is Ok,
{
    rewind_and_apply_fork(prev, header_head, ext, ctx_store, ctx_batch)?;
    verify_coinbase_maturity(b, ext)?;
    validate_utxo(b, ext)?;
    let sums = verify_block_sums(b, ctx_store, ctx_batch)?;
    apply_block_to_txhashset(b, ext)?;
    let head2 = match ctx_batch.head(ctx_store) {
        None => {
            return Err(Error::StoreErr);
        },
        Some(t) => t,
    };
    if !has_more_work(&b.header, &head2) {
        ext.force_rollback();
    }
    Ok(sums)
}

/// Every condition under which the pipeline owes acceptance of a block
/// that directly extends the current head: it is unknown, its header is
/// unknown and valid, the accumulator state is aligned with the head, and
/// the block passes every stateful check with more work than both tips.
pub open spec fn spec_next_block_acceptable(
    b: BlockV,
    sv: StoreV,
    ths: crate::txhashset::TxHashSetV,
    opts: Options,
    pow_ok: bool,
    now: u64,
) -> bool {
    let head = sv.head.unwrap();
    let hh_tip = sv.header_head.unwrap();
    let prev = find_header_in(sv.headers, b.header.prev_hash);
    let ext0 = ExtV {
        outputs: ths.outputs,
        rproofs: ths.rproofs,
        kernels: ths.kernels,
        headers: ths.block_header_mmr,
        rollback: false,
    };
    &&& sv.head is Some
    &&& sv.header_head is Some
    &&& b.header.prev_hash == head.last_block_h
    &&& spec_known_err(b.header, head, sv.blocks) is None
    &&& find_header_in(sv.headers, hash_of(b.header)) is None
    &&& hash_of(b.header) != b.header.prev_hash
    &&& hash_of(b.header) != hh_tip.last_block_h
    &&& prev is Some
    &&& find_block_in(sv.blocks, hash_of(prev.unwrap())) is Some || b.header.prev_hash
        == head.last_block_h
    &&& ths.header_mmr == ths.block_header_mmr
    &&& ths.header_mmr.len() > 0
    &&& ths.header_mmr.last() == hash_of(prev.unwrap())
    &&& root_fold(ths.header_mmr) == b.header.prev_root
    &&& spec_validate_header(b.header, sv.headers, opts, pow_ok, now) is Ok
    &&& spec_validate_block(b, prev.unwrap().total_kernel_offset) is Ok
    &&& b.header.total_difficulty > hh_tip.total_difficulty
    &&& b.header.total_difficulty > head.total_difficulty
    &&& spec_aligned_block_apply(ext0, b, sv.headers, sv.sums, hh_tip)
}

/// A header is currently redundant: its block is known, or the header
/// itself is stored without increasing work beyond `header_head`.
pub open spec fn spec_header_early_ok(h: BlockHeader, sv: StoreV, bv: StoreV) -> bool {
    let head = eff_head(sv, bv).unwrap();
    let hh = eff_header_head(sv, bv).unwrap();
    ||| spec_known_err(h, head, eff_blocks(sv, bv)) is Some
    ||| (match find_header_in(eff_headers(sv, bv), hash_of(h)) {
        Some(ex) => !(ex.total_difficulty > hh.total_difficulty),
        None => false,
    })
}

/// Process a block header, updating the header accumulator and, if it
/// increases total work, `header_head`. An already-known header counts as
/// success so that processing of its full block can continue.
fn process_block_header_inner<V: PowVerifier>(
    header: &BlockHeader,
    ctx: &mut BlockContext<V>,
) -> (r: Result<(), Error>)
    requires
        eff_head(old(ctx).store@, old(ctx).batch@) is Some,
        eff_header_head(old(ctx).store@, old(ctx).batch@) is Some,
    ensures
        final(ctx).store@ == old(ctx).store@,
        final(ctx).opts == old(ctx).opts,
        final(ctx).now_utc == old(ctx).now_utc,
        final(ctx).txhashset@.outputs == old(ctx).txhashset@.outputs,
        final(ctx).txhashset@.rproofs == old(ctx).txhashset@.rproofs,
        final(ctx).txhashset@.kernels == old(ctx).txhashset@.kernels,
        final(ctx).txhashset@.block_header_mmr == old(ctx).txhashset@.block_header_mmr,
        r is Err ==> final(ctx).batch@ == old(ctx).batch@,
        find_header_in(eff_headers(old(ctx).store@, old(ctx).batch@), header.prev_hash) is None
            ==> r == Err::<(), Error>(Error::Orphan),
        (find_header_in(eff_headers(old(ctx).store@, old(ctx).batch@), header.prev_hash) is Some
            && spec_header_early_ok(*header, old(ctx).store@, old(ctx).batch@)) ==> (r == Ok::<
            (),
            Error,
        >(()) && final(ctx).batch@ == old(ctx).batch@ && final(ctx).txhashset@ == old(
            ctx,
        ).txhashset@),
        (r is Ok && !spec_header_early_ok(*header, old(ctx).store@, old(ctx).batch@)
            && find_header_in(eff_headers(old(ctx).store@, old(ctx).batch@), header.prev_hash)
            is Some) ==> ({
            let hh = eff_header_head(old(ctx).store@, old(ctx).batch@).unwrap();
            &&& spec_validate_header(
                *header,
                eff_headers(old(ctx).store@, old(ctx).batch@),
                old(ctx).opts,
                old(ctx).pow_verifier.spec_verify(*header),
                old(ctx).now_utc,
            ) is Ok
            &&& final(ctx).batch@.headers == old(ctx).batch@.headers.push(*header)
            &&& final(ctx).batch@.blocks == old(ctx).batch@.blocks
            &&& final(ctx).batch@.sums == old(ctx).batch@.sums
            &&& final(ctx).batch@.head == old(ctx).batch@.head
            &&& final(ctx).batch@.tail == old(ctx).batch@.tail
            &&& final(ctx).batch@.sync_head == old(ctx).batch@.sync_head
            &&& (if header.total_difficulty > hh.total_difficulty {
                final(ctx).batch@.header_head == Some(spec_tip_from(*header))
            } else {
                final(ctx).batch@.header_head == old(ctx).batch@.header_head
                    && final(ctx).txhashset@.header_mmr == old(ctx).txhashset@.header_mmr
            })
        }),
        ({
            let eff = eff_headers(old(ctx).store@, old(ctx).batch@);
            let mmr = old(ctx).txhashset@.header_mmr;
            &&& !spec_header_early_ok(*header, old(ctx).store@, old(ctx).batch@)
            &&& spec_validate_header(
                *header,
                eff,
                old(ctx).opts,
                old(ctx).pow_verifier.spec_verify(*header),
                old(ctx).now_utc,
            ) is Ok
            &&& mmr.len() > 0
            &&& mmr.last() == hash_of(find_header_in(eff, header.prev_hash).unwrap())
            &&& root_fold(mmr) == header.prev_root
        }) ==> r == Ok::<(), Error>(()),
        (r is Ok && !spec_header_early_ok(*header, old(ctx).store@, old(ctx).batch@)
            && find_header_in(eff_headers(old(ctx).store@, old(ctx).batch@), header.prev_hash)
            is Some && header.total_difficulty > eff_header_head(
            old(ctx).store@,
            old(ctx).batch@,
        ).unwrap().total_difficulty) ==> (final(ctx).txhashset@.header_mmr.len() > 0 && final(ctx).txhashset@.header_mmr.last() == hash_of(*header)),
        ({
            let eff = eff_headers(old(ctx).store@, old(ctx).batch@);
            let mmr = old(ctx).txhashset@.header_mmr;
            &&& r is Ok
            &&& !spec_header_early_ok(*header, old(ctx).store@, old(ctx).batch@)
            &&& find_header_in(eff, header.prev_hash) is Some
            &&& mmr.len() > 0
            &&& mmr.last() == hash_of(find_header_in(eff, header.prev_hash).unwrap())
            &&& header.total_difficulty > eff_header_head(
                old(ctx).store@,
                old(ctx).batch@,
            ).unwrap().total_difficulty
        }) ==> final(ctx).txhashset@.header_mmr == old(ctx).txhashset@.header_mmr.push(
            hash_of(*header),
        ),
        ({
            let eff = eff_headers(old(ctx).store@, old(ctx).batch@);
            let mmr = old(ctx).txhashset@.header_mmr;
            &&& !spec_header_early_ok(*header, old(ctx).store@, old(ctx).batch@)
            &&& find_header_in(eff, header.prev_hash) is Some
            &&& mmr.len() > 0
            &&& mmr.last() == hash_of(find_header_in(eff, header.prev_hash).unwrap())
            &&& header.height > 0
            &&& root_fold(mmr) != header.prev_root
        }) ==> r == Err::<(), Error>(Error::InvalidRoot),
        ({
            let eff = eff_headers(old(ctx).store@, old(ctx).batch@);
            let mmr = old(ctx).txhashset@.header_mmr;
            &&& !spec_header_early_ok(*header, old(ctx).store@, old(ctx).batch@)
            &&& find_header_in(eff, header.prev_hash) is Some
            &&& mmr.len() > 0
            &&& mmr.last() == hash_of(find_header_in(eff, header.prev_hash).unwrap())
            &&& (header.height == 0 || root_fold(mmr) == header.prev_root)
        }) ==> (spec_validate_header(
            *header,
            eff_headers(old(ctx).store@, old(ctx).batch@),
            old(ctx).opts,
            old(ctx).pow_verifier.spec_verify(*header),
            old(ctx).now_utc,
        ) matches Err(e) ==> r == Err::<(), Error>(e)),
{
    let prev_header = match ctx.batch.get_previous_header(&ctx.store, header) {
        None => {
            return Err(Error::Orphan);
        },
        Some(p) => p,
    };
    match check_known(header, ctx) {
        Err(_) => {
            return Ok(());
        },
        Ok(()) => {},
    }
    let header_head = match ctx.batch.header_head(&ctx.store) {
        None => {
            return Err(Error::StoreErr);
        },
        Some(t) => t,
    };
    match ctx.batch.get_block_header(&ctx.store, header.hash()) {
        Some(existing) => {
            if !has_more_work(&existing, &header_head) {
                return Ok(());
            }
        },
        None => {},
    }
    let mark = ctx.batch.snapshot();
    let mut ext = HeaderExtension::open(&ctx.txhashset);
    let mut phase_err: Option<Error> = None;
    match rewind_and_apply_header_fork(&prev_header, &mut ext, &ctx.store, &ctx.batch) {
        Err(e) => {
            phase_err = Some(e);
        },
        Ok(()) => {
            match ext.validate_root(header) {
                Err(e) => {
                    phase_err = Some(e);
                },
                Ok(()) => {
                    ext.apply_header(header);
                    if !has_more_work(header, &header_head) {
                        ext.force_rollback();
                    }
                },
            }
        },
    }
    match phase_err {
        Some(e) => {
            ctx.batch.rollback_to(mark);
            proof {
                assert(ctx.batch@.headers =~= old(ctx).batch@.headers);
                assert(ctx.batch@.blocks =~= old(ctx).batch@.blocks);
                assert(ctx.batch@.sums =~= old(ctx).batch@.sums);
            }
            return Err(e);
        },
        None => {},
    }
    if !ext.rollback {
        ctx.txhashset.commit_header_extension(ext);
    }
    match validate_header(header, ctx) {
        Err(e) => {
            return Err(e);
        },
        Ok(()) => {},
    }
    add_block_header(header, &mut ctx.batch);
    if has_more_work(header, &header_head) {
        let tip = Tip::from_header(header);
        update_header_head(&tip, &mut ctx.batch);
    }
    Ok(())
}

/// Process a block header on its own: validate it, extend the header
/// accumulator, and commit the batch on success. Already-known headers
/// count as success.
pub fn process_block_header<V: PowVerifier>(header: &BlockHeader, ctx: &mut BlockContext<V>) -> (r:
    Result<(), Error>)
    requires
        ctx_ready(old(ctx).store@, old(ctx).batch@),
    ensures
        batch_is_empty(final(ctx).batch@),
        final(ctx).opts == old(ctx).opts,
        final(ctx).now_utc == old(ctx).now_utc,
        final(ctx).txhashset@.outputs == old(ctx).txhashset@.outputs,
        final(ctx).txhashset@.rproofs == old(ctx).txhashset@.rproofs,
        final(ctx).txhashset@.kernels == old(ctx).txhashset@.kernels,
        final(ctx).txhashset@.block_header_mmr == old(ctx).txhashset@.block_header_mmr,
        r is Err ==> (final(ctx).store@ == old(ctx).store@ && final(ctx).txhashset@ == old(ctx).txhashset@),
        find_header_in(old(ctx).store@.headers, header.prev_hash) is None ==> r == Err::<
            (),
            Error,
        >(Error::Orphan),
        (find_header_in(old(ctx).store@.headers, header.prev_hash) is Some
            && spec_header_early_ok(*header, old(ctx).store@, old(ctx).batch@)) ==> (r == Ok::<
            (),
            Error,
        >(()) && final(ctx).store@ == old(ctx).store@ && final(ctx).txhashset@ == old(
            ctx,
        ).txhashset@),
        (r is Ok && !spec_header_early_ok(*header, old(ctx).store@, old(ctx).batch@)
            && find_header_in(old(ctx).store@.headers, header.prev_hash) is Some) ==> ({
            let hh = old(ctx).store@.header_head.unwrap();
            &&& spec_validate_header(
                *header,
                old(ctx).store@.headers,
                old(ctx).opts,
                old(ctx).pow_verifier.spec_verify(*header),
                old(ctx).now_utc,
            ) is Ok
            &&& final(ctx).store@.headers == old(ctx).store@.headers.push(*header)
            &&& final(ctx).store@.blocks == old(ctx).store@.blocks
            &&& final(ctx).store@.sums == old(ctx).store@.sums
            &&& final(ctx).store@.head == old(ctx).store@.head
            &&& final(ctx).store@.tail == old(ctx).store@.tail
            &&& (if header.total_difficulty > hh.total_difficulty {
                final(ctx).txhashset@.header_mmr.len() > 0 && final(ctx).txhashset@.header_mmr.last() == hash_of(*header) && final(ctx).store@.header_head == Some(spec_tip_from(*header))
            } else {
                final(ctx).store@.header_head == old(ctx).store@.header_head && final(ctx).txhashset@.header_mmr == old(ctx).txhashset@.header_mmr
            })
        }),
        ({
            let eff = old(ctx).store@.headers;
            let mmr = old(ctx).txhashset@.header_mmr;
            &&& !spec_header_early_ok(*header, old(ctx).store@, old(ctx).batch@)
            &&& spec_validate_header(
                *header,
                eff,
                old(ctx).opts,
                old(ctx).pow_verifier.spec_verify(*header),
                old(ctx).now_utc,
            ) is Ok
            &&& mmr.len() > 0
            &&& mmr.last() == hash_of(find_header_in(eff, header.prev_hash).unwrap())
            &&& root_fold(mmr) == header.prev_root
        }) ==> r == Ok::<(), Error>(()),
        ({
            let eff = old(ctx).store@.headers;
            let mmr = old(ctx).txhashset@.header_mmr;
            &&& r is Ok
            &&& !spec_header_early_ok(*header, old(ctx).store@, old(ctx).batch@)
            &&& find_header_in(eff, header.prev_hash) is Some
            &&& mmr.len() > 0
            &&& mmr.last() == hash_of(find_header_in(eff, header.prev_hash).unwrap())
            &&& header.total_difficulty > old(ctx).store@.header_head.unwrap().total_difficulty
        }) ==> final(ctx).txhashset@.header_mmr == old(ctx).txhashset@.header_mmr.push(
            hash_of(*header),
        ),
        ({
            let eff = old(ctx).store@.headers;
            let mmr = old(ctx).txhashset@.header_mmr;
            &&& !spec_header_early_ok(*header, old(ctx).store@, old(ctx).batch@)
            &&& find_header_in(eff, header.prev_hash) is Some
            &&& mmr.len() > 0
            &&& mmr.last() == hash_of(find_header_in(eff, header.prev_hash).unwrap())
            &&& header.height > 0
            &&& root_fold(mmr) != header.prev_root
        }) ==> r == Err::<(), Error>(Error::InvalidRoot),
        ({
            let eff = old(ctx).store@.headers;
            let mmr = old(ctx).txhashset@.header_mmr;
            &&& !spec_header_early_ok(*header, old(ctx).store@, old(ctx).batch@)
            &&& find_header_in(eff, header.prev_hash) is Some
            &&& mmr.len() > 0
            &&& mmr.last() == hash_of(find_header_in(eff, header.prev_hash).unwrap())
            &&& (header.height == 0 || root_fold(mmr) == header.prev_root)
        }) ==> (spec_validate_header(
            *header,
            old(ctx).store@.headers,
            old(ctx).opts,
            old(ctx).pow_verifier.spec_verify(*header),
            old(ctx).now_utc,
        ) matches Err(e) ==> r == Err::<(), Error>(e)),
{
    proof {
        assert(eff_headers(old(ctx).store@, old(ctx).batch@) =~= old(ctx).store@.headers);
    }
    let saved_header_mmr = crate::types::copy_vec(&ctx.txhashset.header_mmr);
    let res = process_block_header_inner(header, ctx);
    match res {
        Ok(()) => {
            let ghost bh = ctx.batch@.headers;
            let ghost bb = ctx.batch@.blocks;
            let ghost bs = ctx.batch@.sums;
            ctx.batch.commit(&mut ctx.store);
            proof {
                if bh.len() == 0 {
                    assert(old(ctx).store@.headers + bh =~= old(ctx).store@.headers);
                }
                if bh.len() == 1 {
                    assert(old(ctx).store@.headers + bh =~= old(ctx).store@.headers.push(bh[0]));
                }
                if bb.len() == 0 {
                    assert(old(ctx).store@.blocks + bb =~= old(ctx).store@.blocks);
                }
                if bs.len() == 0 {
                    assert(old(ctx).store@.sums + bs =~= old(ctx).store@.sums);
                }
            }
            Ok(())
        },
        Err(e) => {
            // A rejected header leaves no partial state: the batch is
            // discarded and the header accumulator reverts, also where
            // the root check had accepted the header before a rule
            // failed.
            ctx.batch.clear();
            ctx.txhashset.header_mmr = saved_header_mmr;
            Err(e)
        },
    }
}

/// Run the block processing pipeline over an empty batch: known-checks,
/// orphan detection, header processing, stateless and stateful block
/// validation, the chain extension, and storage.
fn process_block_inner<V: PowVerifier>(b: &Block, ctx: &mut BlockContext<V>) -> (r: Result<
    Option<Tip>,
    Error,
>)
    requires
        ctx_ready(old(ctx).store@, old(ctx).batch@),
    ensures
        final(ctx).store@ == old(ctx).store@,
        final(ctx).opts == old(ctx).opts,
        final(ctx).now_utc == old(ctx).now_utc,
        r is Err ==> ({
            &&& final(ctx).txhashset@.outputs == old(ctx).txhashset@.outputs
            &&& final(ctx).txhashset@.rproofs == old(ctx).txhashset@.rproofs
            &&& final(ctx).txhashset@.kernels == old(ctx).txhashset@.kernels
            &&& final(ctx).txhashset@.block_header_mmr == old(ctx).txhashset@.block_header_mmr
        }),
        spec_known_err(b.header, old(ctx).store@.head.unwrap(), old(ctx).store@.blocks) matches
            Some(e) ==> r == Err::<Option<Tip>, Error>(e),
        (spec_known_err(b.header, old(ctx).store@.head.unwrap(), old(ctx).store@.blocks) is None
            && find_header_in(old(ctx).store@.headers, b.header.prev_hash) is None) ==> r == Err::<
            Option<Tip>,
            Error,
        >(Error::Orphan),
        r is Ok ==> ({
            &&& final(ctx).batch@.blocks == seq![b@]
            &&& (match find_sums_in(old(ctx).store@.sums, b.header.prev_hash) {
                Some(ps) => spec_block_sums_ok(b@, ps) is Some && final(ctx).batch@.sums == seq![
                    (hash_of(b.header), spec_block_sums_ok(b@, ps).unwrap()),
                ],
                None => false,
            })
            &&& final(ctx).batch@.tail == (if old(ctx).store@.tail is Some {
                None::<Tip>
            } else {
                Some(spec_tip_from(b.header))
            })
        }),
        r matches Ok(Some(t)) ==> ({
            &&& t == spec_tip_from(b.header)
            &&& final(ctx).batch@.head == Some(t)
            &&& b.header.total_difficulty > old(ctx).store@.head.unwrap().total_difficulty
            &&& output_root_of(final(ctx).txhashset@.outputs) == b.header.output_root
            &&& root_fold(final(ctx).txhashset@.rproofs) == b.header.range_proof_root
            &&& kernel_root_of(final(ctx).txhashset@.kernels) == b.header.kernel_root
            &&& final(ctx).txhashset@.outputs.len() == b.header.output_mmr_size
            &&& final(ctx).txhashset@.kernels.len() == b.header.kernel_mmr_size
        }),
        r matches Ok(None) ==> ({
            &&& final(ctx).batch@.head is None
            &&& !(b.header.total_difficulty > old(ctx).store@.head.unwrap().total_difficulty)
            &&& final(ctx).txhashset@.outputs == old(ctx).txhashset@.outputs
            &&& final(ctx).txhashset@.rproofs == old(ctx).txhashset@.rproofs
            &&& final(ctx).txhashset@.kernels == old(ctx).txhashset@.kernels
            &&& final(ctx).txhashset@.block_header_mmr == old(ctx).txhashset@.block_header_mmr
        }),
        spec_next_block_acceptable(
            b@,
            old(ctx).store@,
            old(ctx).txhashset@,
            old(ctx).opts,
            old(ctx).pow_verifier.spec_verify(b.header),
            old(ctx).now_utc,
        ) ==> r == Ok::<Option<Tip>, Error>(Some(spec_tip_from(b.header))),
{
    proof {
        assert(eff_headers(old(ctx).store@, old(ctx).batch@) =~= old(ctx).store@.headers);
        assert(eff_blocks(old(ctx).store@, old(ctx).batch@) =~= old(ctx).store@.blocks);
        assert(eff_sums(old(ctx).store@, old(ctx).batch@) =~= old(ctx).store@.sums);
    }
    match check_known(&b.header, ctx) {
        Err(e) => {
            return Err(e);
        },
        Ok(()) => {},
    }
    let head = match ctx.batch.head(&ctx.store) {
        None => {
            return Err(Error::StoreErr);
        },
        Some(t) => t,
    };
    let header_head = match ctx.batch.header_head(&ctx.store) {
        None => {
            return Err(Error::StoreErr);
        },
        Some(t) => t,
    };
    let is_next = b.header.prev_hash == head.last_block_h;
    let prev = match prev_header_store(&b.header, &ctx.store, &ctx.batch) {
        Err(e) => {
            return Err(e);
        },
        Ok(p) => p,
    };
    if !is_next && !ctx.batch.block_exists(&ctx.store, prev.hash()) {
        match validate_pow_only(&b.header, ctx) {
            Err(e) => {
                return Err(e);
            },
            Ok(()) => {},
        }
        return Err(Error::Orphan);
    }
    match process_block_header_inner(&b.header, ctx) {
        Err(e) => {
            return Err(e);
        },
        Ok(()) => {},
    }
    proof {
        lemma_find_header_concat(ctx.store@.headers, ctx.batch@.headers, b.header.prev_hash);
        lemma_find_header_concat(ctx.store@.headers, ctx.batch@.headers, header_head.last_block_h);
        lemma_find_sums_concat(ctx.store@.sums, ctx.batch@.sums, b.header.prev_hash);
        lemma_find_block_concat(ctx.store@.blocks, ctx.batch@.blocks, hash_of(b.header));
        if spec_next_block_acceptable(
            b@,
            old(ctx).store@,
            old(ctx).txhashset@,
            old(ctx).opts,
            old(ctx).pow_verifier.spec_verify(b.header),
            old(ctx).now_utc,
        ) {
            reveal_with_fuel(find_header_in, 3);
            assert(ctx.batch@.headers =~= Seq::<BlockHeader>::empty().push(b.header));
            assert(ctx.batch@.headers.drop_last() =~= Seq::<BlockHeader>::empty());
            assert(ctx.batch@.headers.len() == 1);
            assert(ctx.batch@.headers.last() == b.header);
            assert(hash_of(ctx.batch@.headers.last()) != b.header.prev_hash);
            assert(find_header_in(ctx.batch@.headers, b.header.prev_hash) is None);
            assert(find_header_in(ctx.batch@.headers, header_head.last_block_h) is None);
            assert(eff_sums(ctx.store@, ctx.batch@) =~= old(ctx).store@.sums);
            assert(eff_blocks(ctx.store@, ctx.batch@) =~= old(ctx).store@.blocks);
            assert(find_header_in(eff_headers(ctx.store@, ctx.batch@), b.header.prev_hash)
                == Some(prev));
        }
    }
    match validate_block(b, ctx) {
        Err(e) => {
            return Err(e);
        },
        Ok(()) => {},
    }
    let mark = ctx.batch.snapshot();
    let mut ext = Extension::open(&ctx.txhashset);
    let phase = block_ext_phase(b, &prev, &header_head, &mut ext, &ctx.store, &ctx.batch);
    let block_sums = match phase {
        Err(e) => {
            ctx.batch.rollback_to(mark);
            return Err(e);
        },
        Ok(s) => s,
    };
    if !ext.rollback {
        ctx.txhashset.commit_extension(ext);
    }
    add_block(b, &block_sums, &mut ctx.batch);
    let tail = ctx.batch.tail(&ctx.store);
    if tail.is_none() {
        update_body_tail(&b.header, &mut ctx.batch);
    }
    if has_more_work(&b.header, &head) {
        let tip = Tip::from_header(&b.header);
        update_head(&tip, &mut ctx.batch);
        Ok(Some(tip))
    } else {
        Ok(None)
    }
}

/// Run the block processing pipeline, including validation and finding a
/// place for the new block in the chain; the batch commits on success and
/// is discarded on failure. Returns the new head if the chain head was
/// updated.
pub fn process_block<V: PowVerifier>(b: &Block, ctx: &mut BlockContext<V>) -> (r: Result<
    Option<Tip>,
    Error,
>)
    requires
        ctx_ready(old(ctx).store@, old(ctx).batch@),
    ensures
        batch_is_empty(final(ctx).batch@),
        final(ctx).opts == old(ctx).opts,
        final(ctx).now_utc == old(ctx).now_utc,
        r is Err ==> (final(ctx).store@ == old(ctx).store@ && final(ctx).txhashset@ == old(
            ctx,
        ).txhashset@),
        spec_known_err(b.header, old(ctx).store@.head.unwrap(), old(ctx).store@.blocks) matches
            Some(e) ==> r == Err::<Option<Tip>, Error>(e),
        (spec_known_err(b.header, old(ctx).store@.head.unwrap(), old(ctx).store@.blocks) is None
            && find_header_in(old(ctx).store@.headers, b.header.prev_hash) is None) ==> r == Err::<
            Option<Tip>,
            Error,
        >(Error::Orphan),
        r is Ok ==> ({
            &&& find_block_in(final(ctx).store@.blocks, hash_of(b.header)) == Some(b@)
            &&& (match find_sums_in(old(ctx).store@.sums, b.header.prev_hash) {
                Some(ps) => spec_block_sums_ok(b@, ps) is Some && find_sums_in(
                    final(ctx).store@.sums,
                    hash_of(b.header),
                ) == Some(spec_block_sums_ok(b@, ps).unwrap()),
                None => false,
            })
            &&& final(ctx).store@.tail == (if old(ctx).store@.tail is Some {
                old(ctx).store@.tail
            } else {
                Some(spec_tip_from(b.header))
            })
        }),
        r matches Ok(Some(t)) ==> ({
            &&& t == spec_tip_from(b.header)
            &&& final(ctx).store@.head == Some(t)
            &&& b.header.total_difficulty > old(ctx).store@.head.unwrap().total_difficulty
            &&& output_root_of(final(ctx).txhashset@.outputs) == b.header.output_root
            &&& root_fold(final(ctx).txhashset@.rproofs) == b.header.range_proof_root
            &&& kernel_root_of(final(ctx).txhashset@.kernels) == b.header.kernel_root
            &&& final(ctx).txhashset@.outputs.len() == b.header.output_mmr_size
            &&& final(ctx).txhashset@.kernels.len() == b.header.kernel_mmr_size
        }),
        r matches Ok(None) ==> ({
            &&& final(ctx).store@.head == old(ctx).store@.head
            &&& !(b.header.total_difficulty > old(ctx).store@.head.unwrap().total_difficulty)
            &&& final(ctx).txhashset@.outputs == old(ctx).txhashset@.outputs
            &&& final(ctx).txhashset@.rproofs == old(ctx).txhashset@.rproofs
            &&& final(ctx).txhashset@.kernels == old(ctx).txhashset@.kernels
            &&& final(ctx).txhashset@.block_header_mmr == old(ctx).txhashset@.block_header_mmr
        }),
        spec_next_block_acceptable(
            b@,
            old(ctx).store@,
            old(ctx).txhashset@,
            old(ctx).opts,
            old(ctx).pow_verifier.spec_verify(b.header),
            old(ctx).now_utc,
        ) ==> r == Ok::<Option<Tip>, Error>(Some(spec_tip_from(b.header))),
{
    let saved_header_mmr = crate::types::copy_vec(&ctx.txhashset.header_mmr);
    let res = process_block_inner(b, ctx);
    match res {
        Ok(t) => {
            let ghost bb = ctx.batch@.blocks;
            let ghost bs = ctx.batch@.sums;
            ctx.batch.commit(&mut ctx.store);
            proof {
                lemma_find_block_concat(old(ctx).store@.blocks, bb, hash_of(b.header));
                lemma_find_sums_concat(old(ctx).store@.sums, bs, hash_of(b.header));
            }
            Ok(t)
        },
        Err(e) => {
            // A rejected block leaves no partial state: the batch is
            // discarded and the header accumulator reverts, even where
            // the header part had been accepted before the block part
            // failed.
            ctx.batch.clear();
            ctx.txhashset.header_mmr = saved_header_mmr;
            Err(e)
        },
    }
}

/// A header chunk can be accepted without work: its last header is stored
/// and does not increase work beyond `sync_head`.
pub open spec fn spec_sync_skip(headers: Seq<BlockHeader>, sv: StoreV, bv: StoreV) -> bool {
    match find_header_in(eff_headers(sv, bv), hash_of(headers.last())) {
        Some(ex) => !(ex.total_difficulty > eff_sync_head(sv, bv).unwrap().total_difficulty),
        None => false,
    }
}

/// The header accumulator is aligned with a chunk: it ends at the shared
/// parent, and each header's declared prev-root matches the accumulator
/// with its predecessors appended.
pub open spec fn spec_sync_aligned(
    mmr: Seq<u64>,
    prev: BlockHeader,
    headers: Seq<BlockHeader>,
) -> bool {
    &&& mmr.len() > 0
    &&& mmr.last() == hash_of(prev)
    &&& forall|k: int|
        0 <= k < headers.len() ==> ((#[trigger] headers[k]).height == 0 || root_fold(
            mmr + headers.take(k).map_values(|h: BlockHeader| hash_of(h)),
        ) == headers[k].prev_root)
}

/// Rewind the header chain to the chunk's shared parent and append every
/// header, saving each to the batch; the chunk is validated afterwards.
fn sync_ext_phase(
    headers: &Vec<BlockHeader>,
    prev_header: &BlockHeader,
    ext: &mut HeaderExtension,
    store: &ChainStore,
    batch: &mut Batch,
) -> (r: Result<(), Error>)
    ensures
        final(batch)@.blocks == old(batch)@.blocks,
        final(batch)@.sums == old(batch)@.sums,
        final(batch)@.head == old(batch)@.head,
        final(batch)@.header_head == old(batch)@.header_head,
        final(batch)@.sync_head == old(batch)@.sync_head,
        final(batch)@.tail == old(batch)@.tail,
        r is Ok ==> final(batch)@.headers == old(batch)@.headers + headers@,
        spec_sync_aligned(old(ext)@.headers, *prev_header, headers@) ==> (r == Ok::<(), Error>(())
            && final(ext)@.headers == old(ext)@.headers + headers@.map_values(
            |h: BlockHeader| hash_of(h),
        )),
{
    let ghost aligned = spec_sync_aligned(old(ext)@.headers, *prev_header, headers@);
    match rewind_and_apply_header_fork(prev_header, ext, store, batch) {
        Err(e) => {
            return Err(e);
        },
        Ok(()) => {},
    }
    assert(old(batch)@.headers + headers@.take(0) =~= old(batch)@.headers);
    proof {
        if aligned {
            assert(ext@.headers =~= old(ext)@.headers + headers@.take(0).map_values(
                |h: BlockHeader| hash_of(h),
            ));
        }
    }
    let mut i: usize = 0;
    while i < headers.len()
        invariant
            0 <= i <= headers@.len(),
            batch@.headers == old(batch)@.headers + headers@.take(i as int),
            batch@.blocks == old(batch)@.blocks,
            batch@.sums == old(batch)@.sums,
            batch@.head == old(batch)@.head,
            batch@.header_head == old(batch)@.header_head,
            batch@.sync_head == old(batch)@.sync_head,
            batch@.tail == old(batch)@.tail,
            aligned == spec_sync_aligned(old(ext)@.headers, *prev_header, headers@),
            aligned ==> ext@.headers == old(ext)@.headers + headers@.take(i as int).map_values(
                |h: BlockHeader| hash_of(h),
            ),
        decreases headers.len() - i,
    {
        match ext.validate_root(&headers[i]) {
            Err(e) => {
                proof {
                    if aligned {
                        assert(headers@[i as int].height == 0 || root_fold(
                            old(ext)@.headers + headers@.take(i as int).map_values(
                                |h: BlockHeader| hash_of(h),
                            ),
                        ) == headers@[i as int].prev_root);
                        assert(false);
                    }
                }
                return Err(e);
            },
            Ok(()) => {},
        }
        ext.apply_header(&headers[i]);
        add_block_header(&headers[i], batch);
        assert(batch@.headers =~= old(batch)@.headers + headers@.take(i as int + 1));
        proof {
            if aligned {
                assert(ext@.headers =~= old(ext)@.headers + headers@.take(i as int + 1).map_values(
                    |h: BlockHeader| hash_of(h),
                ));
            }
        }
        i = i + 1;
    }
    assert(headers@.take(headers@.len() as int) =~= headers@);
    proof {
        if aligned {
            assert(ext@.headers =~= old(ext)@.headers + headers@.map_values(
                |h: BlockHeader| hash_of(h),
            ));
        }
    }
    Ok(())
}

/// Sync a chunk of contiguous block headers sharing one stored parent:
/// append them all to the header accumulator, save them, then validate
/// each, and move `sync_head` if the chunk increases its work. Note that
/// the accumulator keeps the appended headers even when a later header
/// fails its rule checks; promotion is refused instead.
pub fn sync_block_headers<V: PowVerifier>(
    headers: &Vec<BlockHeader>,
    ctx: &mut BlockContext<V>,
) -> (r: Result<(), Error>)
    requires
        ctx_ready(old(ctx).store@, old(ctx).batch@),
    ensures
        batch_is_empty(final(ctx).batch@),
        final(ctx).opts == old(ctx).opts,
        final(ctx).now_utc == old(ctx).now_utc,
        final(ctx).txhashset@.outputs == old(ctx).txhashset@.outputs,
        final(ctx).txhashset@.rproofs == old(ctx).txhashset@.rproofs,
        final(ctx).txhashset@.kernels == old(ctx).txhashset@.kernels,
        final(ctx).txhashset@.block_header_mmr == old(ctx).txhashset@.block_header_mmr,
        final(ctx).store@.blocks == old(ctx).store@.blocks,
        final(ctx).store@.sums == old(ctx).store@.sums,
        final(ctx).store@.head == old(ctx).store@.head,
        final(ctx).store@.tail == old(ctx).store@.tail,
        final(ctx).store@.header_head == old(ctx).store@.header_head,
        r is Err ==> final(ctx).store@ == old(ctx).store@,
        headers@.len() == 0 ==> (r is Ok && final(ctx).store@ == old(ctx).store@ && final(ctx).txhashset@ == old(ctx).txhashset@),
        (headers@.len() > 0 && find_header_in(
            old(ctx).store@.headers,
            headers@[0].prev_hash,
        ) is None) ==> (r == Err::<(), Error>(Error::Orphan) && final(ctx).txhashset@ == old(
            ctx,
        ).txhashset@),
        (headers@.len() > 0 && find_header_in(old(ctx).store@.headers, headers@[0].prev_hash)
            is Some && spec_sync_skip(headers@, old(ctx).store@, old(ctx).batch@)) ==> (r is Ok
            && final(ctx).store@ == old(ctx).store@ && final(ctx).txhashset@ == old(
            ctx,
        ).txhashset@),
        ({
            let eff0 = old(ctx).store@.headers;
            &&& headers@.len() > 0
            &&& find_header_in(eff0, headers@[0].prev_hash) is Some
            &&& spec_sync_aligned(
                old(ctx).txhashset@.header_mmr,
                find_header_in(eff0, headers@[0].prev_hash).unwrap(),
                headers@,
            )
            &&& (forall|k: int|
                0 <= k < headers@.len() ==> spec_validate_header(
                    #[trigger] headers@[k],
                    eff0 + headers@,
                    old(ctx).opts,
                    old(ctx).pow_verifier.spec_verify(headers@[k]),
                    old(ctx).now_utc,
                ) is Ok)
        }) ==> r == Ok::<(), Error>(()),
        (r is Ok && headers@.len() > 0 && !spec_sync_skip(headers@, old(ctx).store@, old(ctx).batch@)
            && find_header_in(old(ctx).store@.headers, headers@[0].prev_hash) is Some) ==> ({
            let sync_head = old(ctx).store@.sync_head.unwrap();
            &&& final(ctx).store@.headers == old(ctx).store@.headers + headers@
            &&& (forall|k: int|
                0 <= k < headers@.len() ==> spec_validate_header(
                    #[trigger] headers@[k],
                    old(ctx).store@.headers + headers@,
                    old(ctx).opts,
                    old(ctx).pow_verifier.spec_verify(headers@[k]),
                    old(ctx).now_utc,
                ) is Ok)
            &&& (if headers@.last().total_difficulty > sync_head.total_difficulty {
                final(ctx).store@.sync_head == Some(spec_tip_from(headers@.last()))
            } else {
                final(ctx).store@.sync_head == old(ctx).store@.sync_head
            })
        }),
{
    proof {
        assert(eff_headers(old(ctx).store@, old(ctx).batch@) =~= old(ctx).store@.headers);
    }
    if headers.len() == 0 {
        return Ok(());
    }
    let first_header = headers[0];
    let last_header = headers[headers.len() - 1];
    let prev_header = match ctx.batch.get_previous_header(&ctx.store, &first_header) {
        None => {
            return Err(Error::Orphan);
        },
        Some(p) => p,
    };
    let sync_head = match ctx.batch.get_sync_head(&ctx.store) {
        None => {
            return Err(Error::StoreErr);
        },
        Some(t) => t,
    };
    match ctx.batch.get_block_header(&ctx.store, last_header.hash()) {
        Some(existing) => {
            if !has_more_work(&existing, &sync_head) {
                return Ok(());
            }
        },
        None => {},
    }
    let mut ext = HeaderExtension::open(&ctx.txhashset);
    match sync_ext_phase(headers, &prev_header, &mut ext, &ctx.store, &mut ctx.batch) {
        Err(e) => {
            ctx.batch.clear();
            return Err(e);
        },
        Ok(()) => {},
    }
    ctx.txhashset.commit_header_extension(ext);
    let ghost mid_batch = ctx.batch@;
    let ghost all_valid = (forall|k: int|
        0 <= k < headers@.len() ==> spec_validate_header(
            #[trigger] headers@[k],
            old(ctx).store@.headers + headers@,
            old(ctx).opts,
            old(ctx).pow_verifier.spec_verify(headers@[k]),
            old(ctx).now_utc,
        ) is Ok);
    proof {
        assert(old(ctx).batch@.headers + headers@ =~= headers@);
    }
    let mut i: usize = 0;
    while i < headers.len()
        invariant
            0 <= i <= headers@.len(),
            headers@.len() > 0,
            find_header_in(old(ctx).store@.headers, headers@[0].prev_hash) is Some,
            !spec_sync_skip(headers@, old(ctx).store@, old(ctx).batch@),
            ctx.store@ == old(ctx).store@,
            ctx.batch@ == mid_batch,
            mid_batch.headers == headers@,
            ctx.pow_verifier == old(ctx).pow_verifier,
            all_valid == (forall|k: int|
                0 <= k < headers@.len() ==> spec_validate_header(
                    #[trigger] headers@[k],
                    old(ctx).store@.headers + headers@,
                    old(ctx).opts,
                    old(ctx).pow_verifier.spec_verify(headers@[k]),
                    old(ctx).now_utc,
                ) is Ok),
            ctx.opts == old(ctx).opts,
            ctx.now_utc == old(ctx).now_utc,
            ctx.txhashset@.outputs == old(ctx).txhashset@.outputs,
            ctx.txhashset@.rproofs == old(ctx).txhashset@.rproofs,
            ctx.txhashset@.kernels == old(ctx).txhashset@.kernels,
            ctx.txhashset@.block_header_mmr == old(ctx).txhashset@.block_header_mmr,
            forall|k: int|
                0 <= k < i as int ==> spec_validate_header(
                    #[trigger] headers@[k],
                    eff_headers(ctx.store@, ctx.batch@),
                    ctx.opts,
                    ctx.pow_verifier.spec_verify(headers@[k]),
                    ctx.now_utc,
                ) is Ok,
        decreases headers.len() - i,
    {
        assert(eff_headers(ctx.store@, ctx.batch@) =~= old(ctx).store@.headers + headers@);
        match validate_header(&headers[i], ctx) {
            Err(e) => {
                proof {
                    if all_valid {
                        assert(spec_validate_header(
                            headers@[i as int],
                            old(ctx).store@.headers + headers@,
                            old(ctx).opts,
                            old(ctx).pow_verifier.spec_verify(headers@[i as int]),
                            old(ctx).now_utc,
                        ) is Ok);
                        assert(false);
                    }
                }
                ctx.batch.clear();
                return Err(e);
            },
            Ok(()) => {},
        }
        i = i + 1;
    }
    proof {
        assert(eff_headers(ctx.store@, ctx.batch@) =~= old(ctx).store@.headers + headers@);
        assert forall|k: int| 0 <= k < headers@.len() implies spec_validate_header(
            #[trigger] headers@[k],
            old(ctx).store@.headers + headers@,
            old(ctx).opts,
            old(ctx).pow_verifier.spec_verify(headers@[k]),
            old(ctx).now_utc,
        ) is Ok by {
            assert(spec_validate_header(
                headers@[k],
                eff_headers(ctx.store@, ctx.batch@),
                ctx.opts,
                ctx.pow_verifier.spec_verify(headers@[k]),
                ctx.now_utc,
            ) is Ok);
        };
    }
    if has_more_work(&last_header, &sync_head) {
        let tip = Tip::from_header(&last_header);
        update_sync_head(&tip, &mut ctx.batch);
    }
    let ghost bh = ctx.batch@.headers;
    let ghost bb = ctx.batch@.blocks;
    let ghost bs = ctx.batch@.sums;
    ctx.batch.commit(&mut ctx.store);
    proof {
        if bb.len() == 0 {
            assert(old(ctx).store@.blocks + bb =~= old(ctx).store@.blocks);
        }
        if bs.len() == 0 {
            assert(old(ctx).store@.sums + bs =~= old(ctx).store@.sums);
        }
        assert(eff_headers(old(ctx).store@, mid_batch) =~= old(ctx).store@.headers + headers@);
    }
    Ok(())
}

/// The all-zero running sums before any block.
pub open spec fn zero_sums() -> BlockSums {
    BlockSums { utxo_sum: Commitment::spec_zero(), kernel_sum: Commitment::spec_zero() }
}

/// The kernel-sum identity holds of every sums record the pipeline
/// accepts: the updated unspent sum balances the updated kernel sum plus
/// the cumulative subsidy on the value side and the cumulative kernel
/// offset on the blinding side.
pub proof fn lemma_kernel_sum_identity(b: BlockV, prev: BlockSums)
    requires
        spec_block_sums_ok(b, prev) is Some,
    ensures
        ({
            let s = spec_block_sums_ok(b, prev).unwrap();
            &&& s.utxo_sum.v == wadd(s.kernel_sum.v, wmul(b.header.height, REWARD))
            &&& s.utxo_sum.r == wadd(s.kernel_sum.r, b.header.total_kernel_offset)
        }),
{
}

/// Initialize an empty chain with its genesis block: apply it to the
/// accumulators, store it with its sums, and point all four tips at it.
pub fn init_genesis<V: PowVerifier>(genesis: &Block, ctx: &mut BlockContext<V>) -> (r: Result<
    (),
    Error,
>)
    requires
        batch_is_empty(old(ctx).batch@),
    ensures
        batch_is_empty(final(ctx).batch@),
        final(ctx).opts == old(ctx).opts,
        final(ctx).now_utc == old(ctx).now_utc,
        r is Err ==> final(ctx).store@ == old(ctx).store@ && final(ctx).txhashset@ == old(
            ctx,
        ).txhashset@,
        r is Ok <==> (genesis.header.height == 0 && spec_block_sums_ok(genesis@, zero_sums())
            is Some && spec_apply_block_with_roots(
            ExtV {
                outputs: old(ctx).txhashset@.outputs,
                rproofs: old(ctx).txhashset@.rproofs,
                kernels: old(ctx).txhashset@.kernels,
                headers: old(ctx).txhashset@.block_header_mmr,
                rollback: false,
            },
            genesis@,
        ) is Some),
        r is Ok ==> ({
            let tip = spec_tip_from(genesis.header);
            &&& final(ctx).store@.headers == old(ctx).store@.headers.push(genesis.header)
            &&& final(ctx).store@.blocks == old(ctx).store@.blocks.push(genesis@)
            &&& final(ctx).store@.sums == old(ctx).store@.sums.push(
                (hash_of(genesis.header), spec_block_sums_ok(genesis@, zero_sums()).unwrap()),
            )
            &&& final(ctx).store@.head == Some(tip)
            &&& final(ctx).store@.header_head == Some(tip)
            &&& final(ctx).store@.sync_head == Some(tip)
            &&& final(ctx).store@.tail == Some(tip)
            &&& final(ctx).txhashset@.header_mmr == old(ctx).txhashset@.header_mmr.push(
                hash_of(genesis.header),
            )
            &&& output_root_of(final(ctx).txhashset@.outputs) == genesis.header.output_root
            &&& final(ctx).txhashset@.outputs.len() == genesis.header.output_mmr_size
            &&& final(ctx).txhashset@.kernels.len() == genesis.header.kernel_mmr_size
        }),
{
    if genesis.header.height != 0 {
        return Err(Error::InvalidBlockHeight);
    }
    let mut ext = Extension::open(&ctx.txhashset);
    match apply_block_to_txhashset(genesis, &mut ext) {
        Err(e) => {
            return Err(e);
        },
        Ok(()) => {},
    }
    let utxo = Commitment::zero().plus(fold_output_commits(&genesis.outputs)).minus(
        fold_input_commits(&genesis.inputs),
    );
    let kern = Commitment::zero().plus(fold_kernel_excess(&genesis.kernels));
    let overage = genesis.header.height.wrapping_mul(REWARD);
    if !(utxo.v == kern.v.wrapping_add(overage) && utxo.r == kern.r.wrapping_add(
        genesis.header.total_kernel_offset,
    )) {
        return Err(Error::InvalidBlockProof(BlockProofErr::KernelSumMismatch));
    }
    let sums = BlockSums { utxo_sum: utxo, kernel_sum: kern };
    let mut hext = HeaderExtension::open(&ctx.txhashset);
    hext.apply_header(&genesis.header);
    ctx.txhashset.commit_extension(ext);
    ctx.txhashset.commit_header_extension(hext);
    add_block_header(&genesis.header, &mut ctx.batch);
    add_block(genesis, &sums, &mut ctx.batch);
    let tip = Tip::from_header(&genesis.header);
    update_head(&tip, &mut ctx.batch);
    update_header_head(&tip, &mut ctx.batch);
    update_sync_head(&tip, &mut ctx.batch);
    update_body_tail(&genesis.header, &mut ctx.batch);
    let ghost bh = ctx.batch@.headers;
    let ghost bb = ctx.batch@.blocks;
    let ghost bs = ctx.batch@.sums;
    ctx.batch.commit(&mut ctx.store);
    proof {
        if bh.len() == 1 {
            assert(old(ctx).store@.headers + bh =~= old(ctx).store@.headers.push(bh[0]));
        }
        if bb.len() == 1 {
            assert(old(ctx).store@.blocks + bb =~= old(ctx).store@.blocks.push(bb[0]));
        }
        if bs.len() == 1 {
            assert(old(ctx).store@.sums + bs =~= old(ctx).store@.sums.push(bs[0]));
        }
    }
    Ok(())
}

} // verus!
