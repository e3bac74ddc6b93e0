//! The rewindable accumulator state: three append-only accumulators
//! (outputs, range proofs, kernels) plus header accumulators, with scoped
//! extensions that buffer mutations and either commit or roll back.
//!
//! Each accumulator is modelled as the sequence of its leaves; its root is
//! the digest fold over the leaf digests and its size is its leaf count.
//! Output entries carry the height at which they were spent, which lets a
//! rewind restore the spent set exactly.

use vstd::prelude::*;

use crate::types::Block;
use crate::types::BlockHeader;
use crate::types::BlockV;
use crate::types::BlockProofErr;
use crate::types::COINBASE_MATURITY;
use crate::types::Commitment;
use crate::types::Error;
use crate::types::HASH_SEED;
use crate::types::TxInput;
use crate::types::TxKernel;
use crate::types::TxOutput;
use crate::types::copy_vec;
use crate::types::hash_of;
use crate::types::mix;
use crate::types::mix_step;

verus! {

/// A leaf of the output accumulator.
#[derive(Clone, Copy, PartialEq, Eq, Debug)]
pub struct OutputEntry {
    /// The output commitment.
    pub commit: Commitment,
    /// Whether the output is a coinbase output.
    pub is_coinbase: bool,
    /// Height of the block that created the output.
    pub height: u64,
    /// Height of the block that spent the output, if any.
    pub spent_at: Option<u64>,
}

/// Digest fold over a sequence of leaf digests.
pub open spec fn root_fold(s: Seq<u64>) -> u64
    decreases s.len(),
{
    if s.len() == 0 {
        HASH_SEED
    } else {
        mix(root_fold(s.drop_last()), s.last())
    }
}

/// Leaf digest of an output entry: its commitment and feature flag. The
/// spent mark is not part of the root.
pub open spec fn output_leaf(e: OutputEntry) -> u64 {
    mix(mix(mix(HASH_SEED, e.commit.v), e.commit.r), if e.is_coinbase { 1u64 } else { 0u64 })
}

/// Leaf digest of a kernel.
pub open spec fn kernel_leaf(k: TxKernel) -> u64 {
    mix(mix(mix(mix(mix(HASH_SEED, k.excess.v), k.excess.r), k.sig), k.fee), k.lock_height)
}

/// Root of the output accumulator.
pub open spec fn output_root_of(s: Seq<OutputEntry>) -> u64 {
    root_fold(s.map_values(|e: OutputEntry| output_leaf(e)))
}

/// Root of the kernel accumulator.
pub open spec fn kernel_root_of(s: Seq<TxKernel>) -> u64 {
    root_fold(s.map_values(|k: TxKernel| kernel_leaf(k)))
}

/// Whether a header occupies its height's position of a header chain.
pub open spec fn spec_on_chain(chain: Seq<u64>, h: BlockHeader) -> bool {
    h.height < chain.len() && chain[h.height as int] == hash_of(h)
}

/// First unspent entry carrying the given commitment, scanning from `i`.
pub open spec fn first_unspent_from(s: Seq<OutputEntry>, c: Commitment, i: int) -> Option<int>
    decreases s.len() - i,
{
    if i < 0 || i >= s.len() {
        None
    } else if s[i].commit == c && s[i].spent_at is None {
        Some(i)
    } else {
        first_unspent_from(s, c, i + 1)
    }
}

/// First unspent entry carrying the given commitment.
pub open spec fn first_unspent(s: Seq<OutputEntry>, c: Commitment) -> Option<int> {
    first_unspent_from(s, c, 0)
}

/// Mark, input by input, the first unspent entry of each input's
/// commitment as spent at the given height; fails if some input finds no
/// unspent entry.
pub open spec fn mark_spent(s: Seq<OutputEntry>, inputs: Seq<TxInput>, h: u64) -> Option<
    Seq<OutputEntry>,
>
    decreases inputs.len(),
{
    if inputs.len() == 0 {
        Some(s)
    } else {
        match first_unspent(s, inputs[0].commit) {
            None => None,
            Some(i) => mark_spent(
                s.update(i, OutputEntry { spent_at: Some(h), ..s[i] }),
                inputs.skip(1),
                h,
            ),
        }
    }
}

/// The output entries a block's outputs add, at the given height.
pub open spec fn entries_of(outs: Seq<TxOutput>, h: u64) -> Seq<OutputEntry> {
    outs.map_values(
        |o: TxOutput|
            OutputEntry { commit: o.commit, is_coinbase: o.is_coinbase, height: h, spent_at: None },
    )
}

/// The range-proof leaves a block's outputs add.
pub open spec fn proofs_of(outs: Seq<TxOutput>) -> Seq<u64> {
    outs.map_values(|o: TxOutput| o.proof)
}

/// View of a full extension's buffered state.
pub ghost struct ExtV {
    /// Output accumulator leaves.
    pub outputs: Seq<OutputEntry>,
    /// Range-proof accumulator leaves.
    pub rproofs: Seq<u64>,
    /// Kernel accumulator leaves.
    pub kernels: Seq<TxKernel>,
    /// Header digests along the chain this extension tracks.
    pub headers: Seq<u64>,
    /// Whether a rollback was forced.
    pub rollback: bool,
}

/// State transition of applying a block to an extension.
pub open spec fn spec_apply_block(v: ExtV, b: BlockV) -> Option<ExtV> {
    match mark_spent(v.outputs, b.inputs, b.header.height) {
        None => None,
        Some(marked) => Some(
            ExtV {
                outputs: marked + entries_of(b.outputs, b.header.height),
                rproofs: v.rproofs + proofs_of(b.outputs),
                kernels: v.kernels + b.kernels,
                headers: v.headers.push(hash_of(b.header)),
                rollback: v.rollback,
            },
        ),
    }
}

/// Whether an extension can rewind to the given header's state.
pub open spec fn can_rewind(v: ExtV, to: BlockHeader) -> bool {
    &&& to.output_mmr_size <= v.outputs.len()
    &&& to.output_mmr_size <= v.rproofs.len()
    &&& to.kernel_mmr_size <= v.kernels.len()
    &&& to.height + 1 <= v.headers.len()
}

/// Reverting a spent mark set by a block beyond the rewind height.
pub open spec fn unspend_after(e: OutputEntry, h: u64) -> OutputEntry {
    match e.spent_at {
        Some(x) => if x > h {
            OutputEntry { spent_at: None, ..e }
        } else {
            e
        },
        None => e,
    }
}

/// State transition of rewinding an extension to a header: truncate every
/// accumulator to the sizes that header declares and revert spent marks
/// set beyond its height.
pub open spec fn spec_rewind(v: ExtV, to: BlockHeader) -> ExtV {
    ExtV {
        outputs: v.outputs.take(to.output_mmr_size as int).map_values(
            |e: OutputEntry| unspend_after(e, to.height),
        ),
        rproofs: v.rproofs.take(to.output_mmr_size as int),
        kernels: v.kernels.take(to.kernel_mmr_size as int),
        headers: v.headers.take(to.height as int + 1),
        rollback: v.rollback,
    }
}

/// Every coinbase output spent by the inputs matured by the given height.
pub open spec fn spec_coinbase_mature(s: Seq<OutputEntry>, inputs: Seq<TxInput>, height: u64) -> bool {
    forall|k: int|
        0 <= k < inputs.len() ==> match first_unspent(s, (#[trigger] inputs[k]).commit) {
            Some(i) => !(s[i].is_coinbase && s[i].height + COINBASE_MATURITY > height),
            None => true,
        }
}

/// A block spends only unspent outputs and creates no commitment that is
/// already unspent in the output set.
pub open spec fn spec_utxo_valid(s: Seq<OutputEntry>, b: BlockV) -> bool {
    &&& forall|k: int| 0 <= k < b.inputs.len() ==> first_unspent(s, b.inputs[k].commit) is Some
    &&& forall|k: int| 0 <= k < b.outputs.len() ==> first_unspent(s, b.outputs[k].commit) is None
}

/// The rewindable accumulator state between pipeline invocations: the
/// three block accumulators and the block-chain header accumulator follow
/// `head`; the header accumulator follows `header_head`.
pub struct TxHashSet {
    /// Output accumulator leaves, following `head`.
    pub outputs: Vec<OutputEntry>,
    /// Range-proof accumulator leaves, following `head`.
    pub rproofs: Vec<u64>,
    /// Kernel accumulator leaves, following `head`.
    pub kernels: Vec<TxKernel>,
    /// Header digests along the header chain, following `header_head`.
    pub header_mmr: Vec<u64>,
    /// Header digests along the block chain, following `head`.
    pub block_header_mmr: Vec<u64>,
}

/// View of the accumulator state.
pub ghost struct TxHashSetV {
    /// Output accumulator leaves.
    pub outputs: Seq<OutputEntry>,
    /// Range-proof accumulator leaves.
    pub rproofs: Seq<u64>,
    /// Kernel accumulator leaves.
    pub kernels: Seq<TxKernel>,
    /// Header digests along the header chain.
    pub header_mmr: Seq<u64>,
    /// Header digests along the block chain.
    pub block_header_mmr: Seq<u64>,
}

impl View for TxHashSet {
    type V = TxHashSetV;

    open spec fn view(&self) -> TxHashSetV {
        TxHashSetV {
            outputs: self.outputs@,
            rproofs: self.rproofs@,
            kernels: self.kernels@,
            header_mmr: self.header_mmr@,
            block_header_mmr: self.block_header_mmr@,
        }
    }
}

/// Fold a vector of leaf digests into a root.
pub fn fold_hashes(v: &Vec<u64>) -> (r: u64)
    ensures
        r == root_fold(v@),
{
    let mut acc: u64 = HASH_SEED;
    let mut i: usize = 0;
    while i < v.len()
        invariant
            0 <= i <= v.len(),
            acc == root_fold(v@.take(i as int)),
        decreases v.len() - i,
    {
        assert(v@.take(i as int + 1).drop_last() =~= v@.take(i as int));
        acc = mix_step(acc, v[i]);
        i = i + 1;
    }
    assert(v@.take(v@.len() as int) =~= v@);
    acc
}

/// Leaf digest of an output entry.
pub fn output_leaf_digest(e: &OutputEntry) -> (r: u64)
    ensures
        r == output_leaf(*e),
{
    mix_step(
        mix_step(mix_step(HASH_SEED, e.commit.v), e.commit.r),
        if e.is_coinbase { 1 } else { 0 },
    )
}

/// Leaf digest of a kernel.
pub fn kernel_leaf_digest(k: &TxKernel) -> (r: u64)
    ensures
        r == kernel_leaf(*k),
{
    mix_step(
        mix_step(mix_step(mix_step(mix_step(HASH_SEED, k.excess.v), k.excess.r), k.sig), k.fee),
        k.lock_height,
    )
}

/// Root of a vector of output entries.
pub fn fold_outputs(v: &Vec<OutputEntry>) -> (r: u64)
    ensures
        r == output_root_of(v@),
{
    let ghost m = v@.map_values(|e: OutputEntry| output_leaf(e));
    let mut acc: u64 = HASH_SEED;
    let mut i: usize = 0;
    while i < v.len()
        invariant
            0 <= i <= v.len(),
            m == v@.map_values(|e: OutputEntry| output_leaf(e)),
            acc == root_fold(m.take(i as int)),
        decreases v.len() - i,
    {
        assert(m.take(i as int + 1).drop_last() =~= m.take(i as int));
        assert(m.take(i as int + 1).last() == output_leaf(v@[i as int]));
        acc = mix_step(acc, output_leaf_digest(&v[i]));
        i = i + 1;
    }
    assert(m.take(m.len() as int) =~= m);
    acc
}

/// Root of a vector of kernels.
pub fn fold_kernels(v: &Vec<TxKernel>) -> (r: u64)
    ensures
        r == kernel_root_of(v@),
{
    let ghost m = v@.map_values(|k: TxKernel| kernel_leaf(k));
    let mut acc: u64 = HASH_SEED;
    let mut i: usize = 0;
    while i < v.len()
        invariant
            0 <= i <= v.len(),
            m == v@.map_values(|k: TxKernel| kernel_leaf(k)),
            acc == root_fold(m.take(i as int)),
        decreases v.len() - i,
    {
        assert(m.take(i as int + 1).drop_last() =~= m.take(i as int));
        assert(m.take(i as int + 1).last() == kernel_leaf(v@[i as int]));
        acc = mix_step(acc, kernel_leaf_digest(&v[i]));
        i = i + 1;
    }
    assert(m.take(m.len() as int) =~= m);
    acc
}

/// First unspent entry with the given commitment, if any.
pub fn find_first_unspent(v: &Vec<OutputEntry>, c: Commitment) -> (r: Option<usize>)
    ensures
        r is Some <==> first_unspent(v@, c) is Some,
        r is Some ==> first_unspent(v@, c) == Some(r.unwrap() as int),
{
    let mut i: usize = 0;
    while i < v.len()
        invariant
            0 <= i <= v.len(),
            first_unspent(v@, c) == first_unspent_from(v@, c, i as int),
        decreases v.len() - i,
    {
        if v[i].commit == c && v[i].spent_at.is_none() {
            return Some(i);
        }
        i = i + 1;
    }
    None
}

/// Replace one entry of an output vector.
fn set_entry(v: &mut Vec<OutputEntry>, i: usize, e: OutputEntry)
    requires
        i < old(v).len(),
    ensures
        final(v)@ == old(v)@.update(i as int, e),
{
    v.remove(i);
    v.insert(i, e);
    assert(v@ =~= old(v)@.update(i as int, e));
}

impl TxHashSet {
    /// The empty accumulator state.
    pub fn new() -> (r: TxHashSet)
        ensures
            r@.outputs.len() == 0,
            r@.rproofs.len() == 0,
            r@.kernels.len() == 0,
            r@.header_mmr.len() == 0,
            r@.block_header_mmr.len() == 0,
    {
        TxHashSet {
            outputs: Vec::new(),
            rproofs: Vec::new(),
            kernels: Vec::new(),
            header_mmr: Vec::new(),
            block_header_mmr: Vec::new(),
        }
    }
}

/// A scoped, transactional view over the full accumulator state. It
/// buffers every mutation; the pipeline writes it back only on success
/// without a forced rollback.
pub struct Extension {
    /// Buffered output accumulator.
    pub outputs: Vec<OutputEntry>,
    /// Buffered range-proof accumulator.
    pub rproofs: Vec<u64>,
    /// Buffered kernel accumulator.
    pub kernels: Vec<TxKernel>,
    /// Buffered block-chain header accumulator.
    pub headers: Vec<u64>,
    /// Whether a rollback was forced.
    pub rollback: bool,
}

impl View for Extension {
    type V = ExtV;

    open spec fn view(&self) -> ExtV {
        ExtV {
            outputs: self.outputs@,
            rproofs: self.rproofs@,
            kernels: self.kernels@,
            headers: self.headers@,
            rollback: self.rollback,
        }
    }
}

impl Extension {
    /// Open an extension over the current accumulator state.
    pub fn open(ths: &TxHashSet) -> (r: Extension)
        ensures
            r@.outputs == ths@.outputs,
            r@.rproofs == ths@.rproofs,
            r@.kernels == ths@.kernels,
            r@.headers == ths@.block_header_mmr,
            r@.rollback == false,
    {
        Extension {
            outputs: copy_vec(&ths.outputs),
            rproofs: copy_vec(&ths.rproofs),
            kernels: copy_vec(&ths.kernels),
            headers: copy_vec(&ths.block_header_mmr),
            rollback: false,
        }
    }

    /// Whether a header occupies its height's position of the chain this
    /// extension currently represents.
    pub fn is_on_current_chain(&self, h: &BlockHeader) -> (r: bool)
        ensures
            r == spec_on_chain(self@.headers, *h),
    {
        if h.height < self.headers.len() as u64 {
            let i = h.height as usize;
            self.headers[i] == h.hash()
        } else {
            false
        }
    }

    /// Ask that the extension be discarded even on success.
    pub fn force_rollback(&mut self)
        ensures
            final(self)@ == (ExtV { rollback: true, ..old(self)@ }),
    {
        self.rollback = true;
    }

    /// Rewind the buffered state to the given header's declared sizes and
    /// revert spent marks set beyond its height.
    pub fn rewind(&mut self, to: &BlockHeader) -> (r: Result<(), Error>)
        ensures
            r is Ok <==> can_rewind(old(self)@, *to),
            r is Ok ==> final(self)@ == spec_rewind(old(self)@, *to),
            r is Err ==> final(self)@ == old(self)@ && r == Err::<(), Error>(Error::Internal),
    {
        if to.output_mmr_size > self.outputs.len() as u64 || to.output_mmr_size
            > self.rproofs.len() as u64 || to.kernel_mmr_size > self.kernels.len() as u64
            || to.height >= self.headers.len() as u64 {
            return Err(Error::Internal);
        }
        let n_out = to.output_mmr_size as usize;
        self.outputs.truncate(n_out);
        self.rproofs.truncate(n_out);
        self.kernels.truncate(to.kernel_mmr_size as usize);
        self.headers.truncate(to.height as usize + 1);
        let ghost trunc = self.outputs@;
        let mut i: usize = 0;
        while i < self.outputs.len()
            invariant
                0 <= i <= self.outputs@.len(),
                self.outputs@.len() == trunc.len(),
                self.outputs@ == trunc.map_values(|e: OutputEntry| unspend_after(e, to.height)).take(
                    i as int,
                ) + trunc.skip(i as int),
                self@.rproofs == old(self)@.rproofs.take(to.output_mmr_size as int),
                self@.kernels == old(self)@.kernels.take(to.kernel_mmr_size as int),
                self@.headers == old(self)@.headers.take(to.height as int + 1),
                self@.rollback == old(self)@.rollback,
            decreases self.outputs.len() - i,
        {
            assert(self.outputs@[i as int] == trunc[i as int]);
            let e = self.outputs[i];
            match e.spent_at {
                Some(x) => {
                    if x > to.height {
                        set_entry(&mut self.outputs, i, OutputEntry { spent_at: None, ..e });
                    }
                },
                None => {},
            }
            assert(self.outputs@ =~= trunc.map_values(
                |e: OutputEntry| unspend_after(e, to.height),
            ).take(i as int + 1) + trunc.skip(i as int + 1));
            i = i + 1;
        }
        assert(self.outputs@ =~= trunc.map_values(|e: OutputEntry| unspend_after(e, to.height)));
        proof {
            assert(trunc =~= old(self)@.outputs.take(to.output_mmr_size as int));
            assert(self@.outputs =~= spec_rewind(old(self)@, *to).outputs);
            assert(self@.rproofs =~= spec_rewind(old(self)@, *to).rproofs);
            assert(self@.kernels =~= spec_rewind(old(self)@, *to).kernels);
            assert(self@.headers =~= spec_rewind(old(self)@, *to).headers);
        }
        Ok(())
    }

    /// Apply a block: mark its inputs' outputs spent, append its outputs,
    /// range proofs and kernels, and append its header digest. On an error
    /// the buffered state is left partially applied; the pipeline then
    /// discards the extension.
    pub fn apply_block(&mut self, b: &Block) -> (r: Result<(), Error>)
        ensures
            r is Ok <==> spec_apply_block(old(self)@, b@) is Some,
            r is Ok ==> final(self)@ == spec_apply_block(old(self)@, b@).unwrap(),
            r is Err ==> r == Err::<(), Error>(
                Error::InvalidBlockProof(BlockProofErr::MissingInput),
            ),
            final(self)@.rollback == old(self)@.rollback,
    {
        let h = b.header.height;
        let ghost all_inputs = b.inputs@;
        assert(all_inputs.skip(0) =~= all_inputs);
        let mut k: usize = 0;
        while k < b.inputs.len()
            invariant
                0 <= k <= b.inputs@.len(),
                all_inputs == b.inputs@,
                h == b.header.height,
                self@.rollback == old(self)@.rollback,
                self@.rproofs == old(self)@.rproofs,
                self@.kernels == old(self)@.kernels,
                self@.headers == old(self)@.headers,
                mark_spent(old(self)@.outputs, all_inputs, h) == mark_spent(
                    self@.outputs,
                    all_inputs.skip(k as int),
                    h,
                ),
            decreases b.inputs.len() - k,
        {
            assert(all_inputs.skip(k as int)[0] == all_inputs[k as int]);
            assert(all_inputs.skip(k as int).skip(1) =~= all_inputs.skip(k as int + 1));
            match find_first_unspent(&self.outputs, b.inputs[k].commit) {
                None => {
                    assert(mark_spent(self@.outputs, all_inputs.skip(k as int), h) is None);
                    assert(mark_spent(old(self)@.outputs, all_inputs, h) is None);
                    assert(b@.inputs == all_inputs && b@.header.height == h);
                    assert(spec_apply_block(old(self)@, b@) is None);
                    return Err(Error::InvalidBlockProof(BlockProofErr::MissingInput));
                },
                Some(i) => {
                    proof {
                        lemma_first_unspent_in_range(self@.outputs, b.inputs@[k as int].commit, 0);
                    }
                    let e = self.outputs[i];
                    set_entry(&mut self.outputs, i, OutputEntry { spent_at: Some(h), ..e });
                },
            }
            k = k + 1;
        }
        assert(all_inputs.skip(all_inputs.len() as int) =~= Seq::<TxInput>::empty());
        let ghost marked = self.outputs@;
        let mut j: usize = 0;
        while j < b.outputs.len()
            invariant
                0 <= j <= b.outputs@.len(),
                self@.rollback == old(self)@.rollback,
                self@.kernels == old(self)@.kernels,
                self@.headers == old(self)@.headers,
                self@.outputs == marked + entries_of(b.outputs@.take(j as int), h),
                self@.rproofs == old(self)@.rproofs + proofs_of(b.outputs@.take(j as int)),
            decreases b.outputs.len() - j,
        {
            let o = b.outputs[j];
            self.outputs.push(
                OutputEntry { commit: o.commit, is_coinbase: o.is_coinbase, height: h, spent_at: None },
            );
            self.rproofs.push(o.proof);
            assert(self@.outputs =~= marked + entries_of(b.outputs@.take(j as int + 1), h));
            assert(self@.rproofs =~= old(self)@.rproofs + proofs_of(b.outputs@.take(j as int + 1)));
            j = j + 1;
        }
        assert(b.outputs@.take(b.outputs@.len() as int) =~= b.outputs@);
        let mut t: usize = 0;
        while t < b.kernels.len()
            invariant
                0 <= t <= b.kernels@.len(),
                self@.rollback == old(self)@.rollback,
                self@.headers == old(self)@.headers,
                self@.outputs == marked + entries_of(b.outputs@, h),
                self@.rproofs == old(self)@.rproofs + proofs_of(b.outputs@),
                self@.kernels == old(self)@.kernels + b.kernels@.take(t as int),
            decreases b.kernels.len() - t,
        {
            self.kernels.push(b.kernels[t]);
            assert(self@.kernels =~= old(self)@.kernels + b.kernels@.take(t as int + 1));
            t = t + 1;
        }
        assert(b.kernels@.take(b.kernels@.len() as int) =~= b.kernels@);
        self.headers.push(b.header.hash());
        Ok(())
    }

    /// The buffered output accumulator root.
    pub fn output_root(&self) -> (r: u64)
        ensures
            r == output_root_of(self@.outputs),
    {
        fold_outputs(&self.outputs)
    }

    /// The buffered range-proof accumulator root.
    pub fn rproof_root(&self) -> (r: u64)
        ensures
            r == root_fold(self@.rproofs),
    {
        fold_hashes(&self.rproofs)
    }

    /// The buffered kernel accumulator root.
    pub fn kernel_root(&self) -> (r: u64)
        ensures
            r == kernel_root_of(self@.kernels),
    {
        fold_kernels(&self.kernels)
    }

    /// Check the buffered header-chain root against the prev-root the
    /// given header declares; the genesis header declares none.
    pub fn validate_header_root(&self, header: &BlockHeader) -> (r: Result<(), Error>)
        ensures
            r is Ok <==> (header.height == 0 || root_fold(self@.headers) == header.prev_root),
            r is Err ==> r == Err::<(), Error>(Error::InvalidRoot),
    {
        if header.height == 0 {
            return Ok(());
        }
        if fold_hashes(&self.headers) == header.prev_root {
            Ok(())
        } else {
            Err(Error::InvalidRoot)
        }
    }

    /// Check the three buffered accumulator roots against the ones the
    /// given header declares.
    pub fn validate_roots(&self, header: &BlockHeader) -> (r: Result<(), Error>)
        ensures
            r is Ok <==> (output_root_of(self@.outputs) == header.output_root && root_fold(
                self@.rproofs,
            ) == header.range_proof_root && kernel_root_of(self@.kernels) == header.kernel_root),
            r is Err ==> r == Err::<(), Error>(Error::InvalidRoot),
    {
        if self.output_root() == header.output_root && self.rproof_root()
            == header.range_proof_root && self.kernel_root() == header.kernel_root {
            Ok(())
        } else {
            Err(Error::InvalidRoot)
        }
    }

    /// Check the buffered accumulator sizes against the ones the given
    /// header declares.
    pub fn validate_sizes(&self, header: &BlockHeader) -> (r: Result<(), Error>)
        ensures
            r is Ok <==> (self@.outputs.len() == header.output_mmr_size && self@.rproofs.len()
                == header.output_mmr_size && self@.kernels.len() == header.kernel_mmr_size),
            r is Err ==> r == Err::<(), Error>(Error::InvalidMMRSize),
    {
        if self.outputs.len() as u64 == header.output_mmr_size && self.rproofs.len() as u64
            == header.output_mmr_size && self.kernels.len() as u64 == header.kernel_mmr_size {
            Ok(())
        } else {
            Err(Error::InvalidMMRSize)
        }
    }

    /// Check that every coinbase output the given inputs spend has matured
    /// at the given height.
    pub fn verify_coinbase_maturity(&self, inputs: &Vec<TxInput>, height: u64) -> (r: Result<
        (),
        Error,
    >)
        ensures
            r is Ok <==> spec_coinbase_mature(self@.outputs, inputs@, height),
            r is Err ==> r == Err::<(), Error>(
                Error::InvalidBlockProof(BlockProofErr::ImmatureCoinbase),
            ),
    {
        let mut k: usize = 0;
        while k < inputs.len()
            invariant
                0 <= k <= inputs@.len(),
                spec_coinbase_mature(self@.outputs, inputs@.take(k as int), height),
            decreases inputs.len() - k,
        {
            match find_first_unspent(&self.outputs, inputs[k].commit) {
                Some(i) => {
                    proof {
                        lemma_first_unspent_in_range(self@.outputs, inputs@[k as int].commit, 0);
                    }
                    let e = self.outputs[i];
                    if e.is_coinbase {
                        let immature = if height < COINBASE_MATURITY {
                            true
                        } else {
                            e.height > height - COINBASE_MATURITY
                        };
                        if immature {
                            return Err(Error::InvalidBlockProof(BlockProofErr::ImmatureCoinbase));
                        }
                    }
                },
                None => {},
            }
            assert forall|q: int| 0 <= q < k as int + 1 implies match first_unspent(
                self@.outputs,
                (#[trigger] inputs@.take(k as int + 1)[q]).commit,
            ) {
                Some(i) => !(self@.outputs[i].is_coinbase && self@.outputs[i].height
                    + COINBASE_MATURITY > height),
                None => true,
            } by {
                if q < k as int {
                    assert(inputs@.take(k as int)[q] == inputs@.take(k as int + 1)[q]);
                    assert(spec_coinbase_mature(self@.outputs, inputs@.take(k as int), height));
                }
            };
            k = k + 1;
        }
        assert(inputs@.take(inputs@.len() as int) =~= inputs@);
        Ok(())
    }

    /// Check a block against the unspent output set: inputs spend unspent
    /// outputs, outputs do not duplicate unspent commitments.
    pub fn validate_utxo(&self, b: &Block) -> (r: Result<(), Error>)
        ensures
            r is Ok <==> spec_utxo_valid(self@.outputs, b@),
            r is Err ==> (r == Err::<(), Error>(Error::InvalidBlockProof(BlockProofErr::MissingInput))
                || r == Err::<(), Error>(
                Error::InvalidBlockProof(BlockProofErr::DuplicateUnspent),
            )),
    {
        let mut k: usize = 0;
        while k < b.inputs.len()
            invariant
                0 <= k <= b.inputs@.len(),
                forall|q: int|
                    0 <= q < k as int ==> first_unspent(self@.outputs, b.inputs@[q].commit) is Some,
            decreases b.inputs.len() - k,
        {
            if find_first_unspent(&self.outputs, b.inputs[k].commit).is_none() {
                return Err(Error::InvalidBlockProof(BlockProofErr::MissingInput));
            }
            k = k + 1;
        }
        let mut j: usize = 0;
        while j < b.outputs.len()
            invariant
                0 <= j <= b.outputs@.len(),
                forall|q: int|
                    0 <= q < j as int ==> first_unspent(self@.outputs, b.outputs@[q].commit) is None,
            decreases b.outputs.len() - j,
        {
            if find_first_unspent(&self.outputs, b.outputs[j].commit).is_some() {
                return Err(Error::InvalidBlockProof(BlockProofErr::DuplicateUnspent));
            }
            j = j + 1;
        }
        Ok(())
    }
}

/// A scoped, transactional view over a header accumulator alone.
pub struct HeaderExtension {
    /// Buffered header digests.
    pub headers: Vec<u64>,
    /// Whether a rollback was forced.
    pub rollback: bool,
}

/// View of a header extension.
pub ghost struct HeaderExtV {
    /// Buffered header digests.
    pub headers: Seq<u64>,
    /// Whether a rollback was forced.
    pub rollback: bool,
}

impl View for HeaderExtension {
    type V = HeaderExtV;

    open spec fn view(&self) -> HeaderExtV {
        HeaderExtV { headers: self.headers@, rollback: self.rollback }
    }
}

impl HeaderExtension {
    /// Open a header extension over the header chain accumulator.
    pub fn open(ths: &TxHashSet) -> (r: HeaderExtension)
        ensures
            r@.headers == ths@.header_mmr,
            r@.rollback == false,
    {
        HeaderExtension { headers: copy_vec(&ths.header_mmr), rollback: false }
    }

    /// Whether a header occupies its height's position of the buffered
    /// chain.
    pub fn is_on_current_chain(&self, h: &BlockHeader) -> (r: bool)
        ensures
            r == spec_on_chain(self@.headers, *h),
    {
        if h.height < self.headers.len() as u64 {
            let i = h.height as usize;
            self.headers[i] == h.hash()
        } else {
            false
        }
    }

    /// Digest of the last buffered header, if any.
    pub fn last_hash(&self) -> (r: Option<u64>)
        ensures
            self@.headers.len() == 0 ==> r is None,
            self@.headers.len() > 0 ==> r == Some(self@.headers.last()),
    {
        if self.headers.len() == 0 {
            None
        } else {
            Some(self.headers[self.headers.len() - 1])
        }
    }

    /// Ask that the extension be discarded even on success.
    pub fn force_rollback(&mut self)
        ensures
            final(self)@.headers == old(self)@.headers,
            final(self)@.rollback == true,
    {
        self.rollback = true;
    }

    /// Rewind the buffered chain to end at the given header's height.
    pub fn rewind(&mut self, to: &BlockHeader) -> (r: Result<(), Error>)
        ensures
            r is Ok <==> to.height + 1 <= old(self)@.headers.len(),
            r is Ok ==> final(self)@.headers == old(self)@.headers.take(to.height as int + 1),
            r is Err ==> final(self)@ == old(self)@ && r == Err::<(), Error>(Error::Internal),
            final(self)@.rollback == old(self)@.rollback,
    {
        if to.height >= self.headers.len() as u64 {
            return Err(Error::Internal);
        }
        self.headers.truncate(to.height as usize + 1);
        Ok(())
    }

    /// Append a header's digest to the buffered chain.
    pub fn apply_header(&mut self, h: &BlockHeader)
        ensures
            final(self)@.headers == old(self)@.headers.push(hash_of(*h)),
            final(self)@.rollback == old(self)@.rollback,
    {
        let d = h.hash();
        self.headers.push(d);
    }

    /// Check the buffered chain root against the prev-root the given
    /// header declares; the genesis header declares none.
    pub fn validate_root(&self, header: &BlockHeader) -> (r: Result<(), Error>)
        ensures
            r is Ok <==> (header.height == 0 || root_fold(self@.headers) == header.prev_root),
            r is Err ==> r == Err::<(), Error>(Error::InvalidRoot),
    {
        if header.height == 0 {
            return Ok(());
        }
        if fold_hashes(&self.headers) == header.prev_root {
            Ok(())
        } else {
            Err(Error::InvalidRoot)
        }
    }
}

impl TxHashSet {
    /// Write a committed full extension's buffered state back.
    pub fn commit_extension(&mut self, ext: Extension)
        ensures
            final(self)@.outputs == ext@.outputs,
            final(self)@.rproofs == ext@.rproofs,
            final(self)@.kernels == ext@.kernels,
            final(self)@.block_header_mmr == ext@.headers,
            final(self)@.header_mmr == old(self)@.header_mmr,
    {
        self.outputs = ext.outputs;
        self.rproofs = ext.rproofs;
        self.kernels = ext.kernels;
        self.block_header_mmr = ext.headers;
    }

    /// Write a committed header extension's buffered chain back.
    pub fn commit_header_extension(&mut self, ext: HeaderExtension)
        ensures
            final(self)@.header_mmr == ext@.headers,
            final(self)@.outputs == old(self)@.outputs,
            final(self)@.rproofs == old(self)@.rproofs,
            final(self)@.kernels == old(self)@.kernels,
            final(self)@.block_header_mmr == old(self)@.block_header_mmr,
    {
        self.header_mmr = ext.headers;
    }
}

/// Shape of a successful spent-marking: entry count is kept, and each
/// entry is either untouched or was unspent and is now marked spent at
/// the marking height.
pub proof fn lemma_mark_spent_shape(s: Seq<OutputEntry>, inputs: Seq<TxInput>, h: u64)
    requires
        mark_spent(s, inputs, h) is Some,
    ensures
        mark_spent(s, inputs, h).unwrap().len() == s.len(),
        forall|i: int|
            0 <= i < s.len() ==> (#[trigger] mark_spent(s, inputs, h).unwrap()[i] == s[i] || (
            s[i].spent_at is None && mark_spent(s, inputs, h).unwrap()[i] == OutputEntry {
                spent_at: Some(h),
                ..s[i]
            })),
    decreases inputs.len(),
{
    if inputs.len() == 0 {
    } else {
        let j = first_unspent(s, inputs[0].commit).unwrap();
        lemma_first_unspent_in_range(s, inputs[0].commit, 0);
        let s1 = s.update(j, OutputEntry { spent_at: Some(h), ..s[j] });
        lemma_mark_spent_shape(s1, inputs.skip(1), h);
    }
}

/// A found first-unspent index is in range and names an unspent entry
/// with the sought commitment.
pub proof fn lemma_first_unspent_in_range(s: Seq<OutputEntry>, c: Commitment, i: int)
    requires
        first_unspent_from(s, c, i) is Some,
        0 <= i,
    ensures
        i <= first_unspent_from(s, c, i).unwrap() < s.len(),
        s[first_unspent_from(s, c, i).unwrap()].commit == c,
        s[first_unspent_from(s, c, i).unwrap()].spent_at is None,
    decreases s.len() - i,
{
    if i >= s.len() {
    } else if s[i].commit == c && s[i].spent_at is None {
    } else {
        lemma_first_unspent_in_range(s, c, i + 1);
    }
}

/// A coinbase output cannot be spent before it has matured: where some
/// input spends an unspent coinbase output created fewer than
/// [`COINBASE_MATURITY`] blocks below the spending height, the maturity
/// check refuses the whole input set.
pub proof fn lemma_coinbase_maturity(
    s: Seq<OutputEntry>,
    inputs: Seq<TxInput>,
    height: u64,
    k: int,
)
    requires
        0 <= k < inputs.len(),
        first_unspent(s, inputs[k].commit) is Some,
        s[first_unspent(s, inputs[k].commit).unwrap()].is_coinbase,
        s[first_unspent(s, inputs[k].commit).unwrap()].height + COINBASE_MATURITY > height,
    ensures
        !spec_coinbase_mature(s, inputs, height),
{
    let i = first_unspent(s, inputs[k].commit).unwrap();
    assert(!(match first_unspent(s, inputs[k].commit) {
        Some(i2) => !(s[i2].is_coinbase && s[i2].height + COINBASE_MATURITY > height),
        None => true,
    }));
}

/// Applying a block and then rewinding to its parent restores the prior
/// accumulator state exactly: sizes, roots and the spent set.
pub proof fn lemma_apply_then_rewind(v: ExtV, b: BlockV, prev: BlockHeader)
    requires
        spec_apply_block(v, b) is Some,
        prev.output_mmr_size == v.outputs.len(),
        prev.kernel_mmr_size == v.kernels.len(),
        v.rproofs.len() == v.outputs.len(),
        v.headers.len() == prev.height + 1,
        b.header.height > prev.height,
        forall|i: int|
            0 <= i < v.outputs.len() ==> (#[trigger] v.outputs[i].spent_at matches Some(x) ==> x
                <= prev.height),
    ensures
        can_rewind(spec_apply_block(v, b).unwrap(), prev),
        spec_rewind(spec_apply_block(v, b).unwrap(), prev) == v,
{
    let w = spec_apply_block(v, b).unwrap();
    let marked = mark_spent(v.outputs, b.inputs, b.header.height).unwrap();
    lemma_mark_spent_shape(v.outputs, b.inputs, b.header.height);
    assert(w.outputs.take(prev.output_mmr_size as int) =~= marked);
    assert(marked.map_values(|e: OutputEntry| unspend_after(e, prev.height)) =~= v.outputs);
    assert(w.rproofs.take(prev.output_mmr_size as int) =~= v.rproofs);
    assert(w.kernels.take(prev.kernel_mmr_size as int) =~= v.kernels);
    assert(w.headers.take(prev.height as int + 1) =~= v.headers);
    assert(spec_rewind(w, prev) == v);
}

} // verus!
