//! Scenario tests for the block acceptance pipeline: genesis, extension,
//! orphans, forks, reorgs, duplicate submission, timestamp rules, proof
//! of work and coinbase maturity.

use chain_pipe::pipe::{
    init_genesis, process_block, process_block_header, sync_block_headers, AcceptAllPow,
    BlockContext, RejectAllPow,
};
use chain_pipe::store::{Batch, ChainStore};
use chain_pipe::txhashset::{fold_hashes, fold_kernels, fold_outputs, Extension, TxHashSet};
use chain_pipe::types::{
    kernel_sig_for, rangeproof_for, Block, BlockHeader, BlockProofErr, Commitment, Error, Options,
    ProofOfWork, TxInput, TxKernel, TxOutput, UnfitReason, COINBASE_MATURITY, HASH_SEED, REWARD,
};

fn zero_pow() -> ProofOfWork {
    ProofOfWork { edge_bits: 31, secondary_scaling: 0, nonces: [0; 8] }
}

fn new_ctx() -> BlockContext<AcceptAllPow> {
    BlockContext {
        opts: Options { skip_pow: true },
        pow_verifier: AcceptAllPow,
        store: ChainStore::new(),
        txhashset: TxHashSet::new(),
        batch: Batch::new(),
        now_utc: 1_000_000_000,
    }
}

fn genesis_block() -> Block {
    let header = BlockHeader {
        version: 1,
        height: 0,
        prev_hash: 0,
        prev_root: 0,
        timestamp: 1000,
        output_root: HASH_SEED,
        range_proof_root: HASH_SEED,
        kernel_root: HASH_SEED,
        total_kernel_offset: 0,
        output_mmr_size: 0,
        kernel_mmr_size: 0,
        total_difficulty: 1,
        pow: zero_pow(),
    };
    Block { header, inputs: vec![], outputs: vec![], kernels: vec![] }
}

fn coinbase_output(r: u64) -> TxOutput {
    let c = Commitment { v: REWARD, r };
    TxOutput { commit: c, is_coinbase: true, proof: rangeproof_for(c, true) }
}

/// Build the next valid block on the context's current head: one
/// coinbase output, an optional spend of an earlier output (replaced by
/// a fresh non-coinbase output of the same value), and the declared
/// roots and sizes computed over a scratch extension.
fn build_next(
    ctx: &BlockContext<AcceptAllPow>,
    diff: u64,
    spend: Option<Commitment>,
    r_seed: u64,
) -> Block {
    let head = ctx.store.head.expect("initialized chain");
    let prev = ctx.store.get_block_header(head.last_block_h).expect("head header");
    let height = prev.height + 1;
    let cb = coinbase_output(r_seed);
    let mut inputs: Vec<TxInput> = vec![];
    let mut outputs: Vec<TxOutput> = vec![cb];
    let mut out_r_sum: u64 = r_seed;
    let mut in_r_sum: u64 = 0;
    if let Some(c) = spend {
        inputs.push(TxInput { commit: c });
        let repl = Commitment { v: c.v, r: r_seed.wrapping_add(500_000) };
        outputs.push(TxOutput { commit: repl, is_coinbase: false, proof: rangeproof_for(repl, false) });
        out_r_sum = out_r_sum.wrapping_add(repl.r);
        in_r_sum = in_r_sum.wrapping_add(c.r);
    }
    let delta = out_r_sum.wrapping_sub(in_r_sum);
    let header = BlockHeader {
        version: 1,
        height,
        prev_hash: prev.hash(),
        prev_root: fold_hashes(&ctx.txhashset.block_header_mmr),
        timestamp: prev.timestamp + 60,
        output_root: 0,
        range_proof_root: 0,
        kernel_root: 0,
        total_kernel_offset: prev.total_kernel_offset.wrapping_add(delta),
        output_mmr_size: 0,
        kernel_mmr_size: 0,
        total_difficulty: prev.total_difficulty + diff,
        pow: zero_pow(),
    };
    let draft = Block { header, inputs: inputs.clone(), outputs: outputs.clone(), kernels: vec![] };
    let mut ext = Extension::open(&ctx.txhashset);
    ext.apply_block(&draft).expect("draft applies");
    let mut final_header = header;
    final_header.output_root = ext.output_root();
    final_header.range_proof_root = ext.rproof_root();
    final_header.kernel_root = ext.kernel_root();
    final_header.output_mmr_size = ext.outputs.len() as u64;
    final_header.kernel_mmr_size = ext.kernels.len() as u64;
    Block { header: final_header, inputs, outputs, kernels: vec![] }
}

fn extend(ctx: &mut BlockContext<AcceptAllPow>, diff: u64, r_seed: u64) -> Block {
    let b = build_next(ctx, diff, None, r_seed);
    let tip = process_block(&b, ctx).expect("valid block accepted");
    assert!(tip.is_some(), "next block promotes the head");
    b
}

#[test]
fn genesis_plus_one_block() {
    let mut ctx = new_ctx();
    let g = genesis_block();
    init_genesis(&g, &mut ctx).expect("genesis applies");
    assert_eq!(ctx.store.head.unwrap().height, 0);
    let b1 = extend(&mut ctx, 1, 1001);
    let head = ctx.store.head.unwrap();
    assert_eq!(head.height, 1);
    assert_eq!(head.total_difficulty, g.header.total_difficulty + 1);
    assert_eq!(head.last_block_h, b1.header.hash());
}

#[test]
fn accepted_block_matches_declared_roots_and_sizes() {
    let mut ctx = new_ctx();
    init_genesis(&genesis_block(), &mut ctx).expect("genesis applies");
    let mut last = None;
    for i in 0..5u64 {
        last = Some(extend(&mut ctx, 1, 2000 + i));
    }
    let b = last.unwrap();
    assert_eq!(fold_outputs(&ctx.txhashset.outputs), b.header.output_root);
    assert_eq!(fold_hashes(&ctx.txhashset.rproofs), b.header.range_proof_root);
    assert_eq!(fold_kernels(&ctx.txhashset.kernels), b.header.kernel_root);
    assert_eq!(ctx.txhashset.outputs.len() as u64, b.header.output_mmr_size);
    assert_eq!(ctx.txhashset.kernels.len() as u64, b.header.kernel_mmr_size);
}

#[test]
fn orphan_then_parent() {
    // Build blocks 1..=5 in a scratch context to capture them as data.
    let mut scratch = new_ctx();
    init_genesis(&genesis_block(), &mut scratch).expect("genesis applies");
    let mut blocks = vec![];
    for i in 0..5u64 {
        blocks.push(extend(&mut scratch, 1, 3000 + i));
    }
    // Replay: apply 1..=3, then 5 before 4.
    let mut ctx = new_ctx();
    init_genesis(&genesis_block(), &mut ctx).expect("genesis applies");
    for b in &blocks[0..3] {
        process_block(b, &mut ctx).expect("prefix accepted");
    }
    let r5 = process_block(&blocks[4], &mut ctx);
    assert_eq!(r5, Err(Error::Orphan));
    assert_eq!(ctx.store.head.unwrap().height, 3);
    process_block(&blocks[3], &mut ctx).expect("parent accepted");
    let tip = process_block(&blocks[4], &mut ctx).expect("buffered child accepted").unwrap();
    assert_eq!(tip.height, 5);
    assert_eq!(ctx.store.head.unwrap().height, 5);
}

#[test]
fn reorg_to_heavier_fork() {
    // Chain A: 10 blocks of difficulty 1 each.
    let mut ctx_a = new_ctx();
    init_genesis(&genesis_block(), &mut ctx_a).expect("genesis applies");
    let mut a_blocks = vec![];
    for i in 0..10u64 {
        a_blocks.push(extend(&mut ctx_a, 1, 4000 + i));
    }
    // Chain B: shares the first 7, then 3 blocks of difficulty 2 each.
    let mut ctx_b = new_ctx();
    init_genesis(&genesis_block(), &mut ctx_b).expect("genesis applies");
    for b in &a_blocks[0..7] {
        process_block(b, &mut ctx_b).expect("shared prefix accepted");
    }
    let mut b_blocks = vec![];
    for i in 0..3u64 {
        b_blocks.push(extend(&mut ctx_b, 2, 5000 + i));
    }
    // Main run: all of A, then B's fork blocks in order.
    let mut ctx = new_ctx();
    init_genesis(&genesis_block(), &mut ctx).expect("genesis applies");
    for b in &a_blocks {
        process_block(b, &mut ctx).expect("chain A accepted");
    }
    assert_eq!(ctx.store.head.unwrap().last_block_h, a_blocks[9].header.hash());
    // B8 carries less work than A10: stored on the side fork only.
    let r8 = process_block(&b_blocks[0], &mut ctx).expect("fork block stored");
    assert!(r8.is_none());
    assert_eq!(ctx.store.head.unwrap().last_block_h, a_blocks[9].header.hash());
    // B9 exceeds A10: the head reorganizes onto the fork.
    let r9 = process_block(&b_blocks[1], &mut ctx).expect("fork block accepted");
    assert_eq!(r9.unwrap().last_block_h, b_blocks[1].header.hash());
    let r10 = process_block(&b_blocks[2], &mut ctx).expect("fork tip accepted");
    assert_eq!(r10.unwrap().last_block_h, b_blocks[2].header.hash());
    let head = ctx.store.head.unwrap();
    assert_eq!(head.height, 10);
    assert_eq!(head.total_difficulty, 1 + 7 + 3 * 2);
    // Every block of both forks stays in the store.
    for b in a_blocks.iter().chain(b_blocks.iter()) {
        assert!(ctx.store.get_block(b.header.hash()).is_some());
    }
    // The accumulators match the new tip's declared roots and sizes.
    let tip_header = &b_blocks[2].header;
    assert_eq!(fold_outputs(&ctx.txhashset.outputs), tip_header.output_root);
    assert_eq!(ctx.txhashset.outputs.len() as u64, tip_header.output_mmr_size);
    assert_eq!(fold_kernels(&ctx.txhashset.kernels), tip_header.kernel_root);
}

#[test]
fn timestamp_not_beyond_parent_is_rejected() {
    let mut ctx = new_ctx();
    init_genesis(&genesis_block(), &mut ctx).expect("genesis applies");
    let good = build_next(&ctx, 1, None, 6000);
    let mut bad = good.clone();
    bad.header.timestamp = genesis_block().header.timestamp;
    let r = process_block_header(&bad.header, &mut ctx);
    assert_eq!(r, Err(Error::InvalidBlockTime));
    let r2 = process_block(&bad, &mut ctx);
    assert_eq!(r2, Err(Error::InvalidBlockTime));
}

#[test]
fn duplicate_submission_is_unfit_without_state_change() {
    let mut ctx = new_ctx();
    init_genesis(&genesis_block(), &mut ctx).expect("genesis applies");
    let b1 = extend(&mut ctx, 1, 7000);
    let b2 = extend(&mut ctx, 1, 7001);
    let n_headers = ctx.store.headers.len();
    let n_outputs = ctx.txhashset.outputs.len();
    let head = ctx.store.head.unwrap();
    // The tip block again: known in the head.
    let r = process_block(&b2, &mut ctx);
    assert_eq!(r, Err(Error::Unfit(UnfitReason::KnownInHead)));
    // An older block again: known in the store.
    let r1 = process_block(&b1, &mut ctx);
    assert_eq!(r1, Err(Error::Unfit(UnfitReason::KnownInHead)));
    assert_eq!(ctx.store.headers.len(), n_headers);
    assert_eq!(ctx.txhashset.outputs.len(), n_outputs);
    assert_eq!(ctx.store.head.unwrap(), head);
}

#[test]
fn rejected_block_leaves_state_unchanged() {
    let mut ctx = new_ctx();
    init_genesis(&genesis_block(), &mut ctx).expect("genesis applies");
    extend(&mut ctx, 1, 7100);
    let before_headers = ctx.store.headers.len();
    let before_blocks = ctx.store.blocks.len();
    let before_outputs = ctx.txhashset.outputs.len();
    let before_root = fold_outputs(&ctx.txhashset.outputs);
    let before_head = ctx.store.head.unwrap();
    let before_header_mmr = ctx.txhashset.header_mmr.clone();
    let mut bad = build_next(&ctx, 1, None, 7101);
    bad.header.kernel_root = bad.header.kernel_root.wrapping_add(1);
    let r = process_block(&bad, &mut ctx);
    assert!(r.is_err());
    assert_eq!(ctx.store.headers.len(), before_headers);
    assert_eq!(ctx.store.blocks.len(), before_blocks);
    assert_eq!(ctx.txhashset.outputs.len(), before_outputs);
    assert_eq!(fold_outputs(&ctx.txhashset.outputs), before_root);
    assert_eq!(ctx.store.head.unwrap(), before_head);
    // The header accumulator reverts too, although the header itself was
    // root-valid and carried more work.
    assert_eq!(ctx.txhashset.header_mmr, before_header_mmr);
}

#[test]
fn body_tail_is_initialized_once() {
    let mut ctx = new_ctx();
    let g = genesis_block();
    init_genesis(&g, &mut ctx).expect("genesis applies");
    assert_eq!(ctx.store.tail.unwrap().height, 0);
    extend(&mut ctx, 1, 7300);
    extend(&mut ctx, 1, 7301);
    // The tail still names the earliest retained block.
    assert_eq!(ctx.store.tail.unwrap().height, 0);
    assert_eq!(ctx.store.tail.unwrap().last_block_h, g.header.hash());
}

#[test]
fn head_difficulty_never_decreases() {
    let mut ctx = new_ctx();
    init_genesis(&genesis_block(), &mut ctx).expect("genesis applies");
    let mut last_diff = ctx.store.head.unwrap().total_difficulty;
    for i in 0..6u64 {
        let b = build_next(&ctx, 1 + (i % 2), None, 7200 + i);
        let _ = process_block(&b, &mut ctx);
        let now_diff = ctx.store.head.unwrap().total_difficulty;
        assert!(now_diff >= last_diff);
        last_diff = now_diff;
    }
}

#[test]
fn coinbase_maturity_is_enforced() {
    let mut ctx = new_ctx();
    init_genesis(&genesis_block(), &mut ctx).expect("genesis applies");
    // Height 1 includes the coinbase we later spend.
    let b1 = extend(&mut ctx, 1, 8000);
    let cb = b1.outputs[0].commit;
    // Extend so the next block sits at height COINBASE_MATURITY exactly.
    for i in 2..COINBASE_MATURITY {
        extend(&mut ctx, 1, 8000 + i);
    }
    assert_eq!(ctx.store.head.unwrap().height, COINBASE_MATURITY - 1);
    // Spending at height H + COINBASE_MATURITY - 1 is refused.
    let early = build_next(&ctx, 1, Some(cb), 9000);
    let r = process_block(&early, &mut ctx);
    assert_eq!(r, Err(Error::InvalidBlockProof(BlockProofErr::ImmatureCoinbase)));
    // One more empty block, then the spend at H + COINBASE_MATURITY lands.
    extend(&mut ctx, 1, 9001);
    let spend = build_next(&ctx, 1, Some(cb), 9002);
    let tip = process_block(&spend, &mut ctx).expect("mature spend accepted");
    assert_eq!(tip.unwrap().height, COINBASE_MATURITY + 1);
}

#[test]
fn spent_output_cannot_be_spent_again() {
    let mut ctx = new_ctx();
    init_genesis(&genesis_block(), &mut ctx).expect("genesis applies");
    let b1 = extend(&mut ctx, 1, 8100);
    let cb = b1.outputs[0].commit;
    for i in 2..=COINBASE_MATURITY {
        extend(&mut ctx, 1, 8100 + i);
    }
    let spend = build_next(&ctx, 1, Some(cb), 9100);
    process_block(&spend, &mut ctx).expect("first spend accepted");
    // A second spend of the same commitment cannot even be simulated; the
    // pipeline refuses it at the unspent-set check.
    let head = ctx.store.head.unwrap();
    let prev = ctx.store.get_block_header(head.last_block_h).unwrap();
    let cb2 = coinbase_output(9101);
    let repl = Commitment { v: cb.v, r: 9101u64.wrapping_add(500_000) };
    let double = Block {
        header: BlockHeader {
            version: 1,
            height: prev.height + 1,
            prev_hash: prev.hash(),
            prev_root: fold_hashes(&ctx.txhashset.block_header_mmr),
            timestamp: prev.timestamp + 60,
            output_root: 0,
            range_proof_root: 0,
            kernel_root: 0,
            total_kernel_offset: prev
                .total_kernel_offset
                .wrapping_add(9101u64.wrapping_add(repl.r).wrapping_sub(cb.r)),
            output_mmr_size: 0,
            kernel_mmr_size: 0,
            total_difficulty: prev.total_difficulty + 1,
            pow: zero_pow(),
        },
        inputs: vec![TxInput { commit: cb }],
        outputs: vec![
            cb2,
            TxOutput { commit: repl, is_coinbase: false, proof: rangeproof_for(repl, false) },
        ],
        kernels: vec![],
    };
    let r = process_block(&double, &mut ctx);
    assert_eq!(r, Err(Error::InvalidBlockProof(BlockProofErr::MissingInput)));
}

#[test]
fn header_only_then_full_block() {
    let mut scratch = new_ctx();
    init_genesis(&genesis_block(), &mut scratch).expect("genesis applies");
    let b1 = extend(&mut scratch, 1, 8200);
    let b2 = extend(&mut scratch, 1, 8201);

    let mut ctx = new_ctx();
    init_genesis(&genesis_block(), &mut ctx).expect("genesis applies");
    process_block_header(&b1.header, &mut ctx).expect("header accepted");
    assert_eq!(ctx.store.header_head.unwrap().height, 1);
    assert_eq!(ctx.store.head.unwrap().height, 0);
    // The full block at height 2 is an orphan: block 1's body is missing.
    let r = process_block(&b2, &mut ctx);
    assert_eq!(r, Err(Error::Orphan));
    // The full block at height 1 still goes through after its header.
    let tip = process_block(&b1, &mut ctx).expect("block accepted after header");
    assert_eq!(tip.unwrap().height, 1);
}

#[test]
fn sync_with_unknown_parent_is_an_orphan() {
    let mut scratch = new_ctx();
    init_genesis(&genesis_block(), &mut scratch).expect("genesis applies");
    let b1 = extend(&mut scratch, 1, 8250);
    let b2 = extend(&mut scratch, 1, 8251);
    let mut ctx = new_ctx();
    init_genesis(&genesis_block(), &mut ctx).expect("genesis applies");
    // A chunk whose shared parent is unknown is refused untouched.
    let chunk = vec![b2.header];
    let before_mmr = ctx.txhashset.header_mmr.clone();
    assert_eq!(sync_block_headers(&chunk, &mut ctx), Err(Error::Orphan));
    assert_eq!(ctx.txhashset.header_mmr, before_mmr);
    assert!(ctx.store.get_block_header(b1.header.hash()).is_none());
}

#[test]
fn sync_block_headers_extends_sync_head() {
    let mut scratch = new_ctx();
    init_genesis(&genesis_block(), &mut scratch).expect("genesis applies");
    let mut headers = vec![];
    for i in 0..5u64 {
        headers.push(extend(&mut scratch, 1, 8300 + i).header);
    }
    let mut ctx = new_ctx();
    init_genesis(&genesis_block(), &mut ctx).expect("genesis applies");
    sync_block_headers(&headers, &mut ctx).expect("headers synced");
    assert_eq!(ctx.store.sync_head.unwrap().height, 5);
    assert_eq!(ctx.store.sync_head.unwrap().last_block_h, headers[4].hash());
    for h in &headers {
        assert!(ctx.store.get_block_header(h.hash()).is_some());
    }
    // Full blocks are still absent.
    assert_eq!(ctx.store.head.unwrap().height, 0);
    // Syncing the same chunk again is a quiet no-op.
    sync_block_headers(&headers, &mut ctx).expect("repeat sync accepted");
    assert_eq!(ctx.store.sync_head.unwrap().height, 5);
}

#[test]
fn wrong_version_is_rejected() {
    let mut ctx = new_ctx();
    init_genesis(&genesis_block(), &mut ctx).expect("genesis applies");
    let mut bad = build_next(&ctx, 1, None, 8400);
    bad.header.version = 2;
    let r = process_block(&bad, &mut ctx);
    assert_eq!(r, Err(Error::InvalidBlockVersion(2)));
}

#[test]
fn wrong_height_is_rejected() {
    let mut ctx = new_ctx();
    init_genesis(&genesis_block(), &mut ctx).expect("genesis applies");
    let mut bad = build_next(&ctx, 1, None, 8500);
    bad.header.height = 5;
    let r = process_block(&bad, &mut ctx);
    assert_eq!(r, Err(Error::InvalidBlockHeight));
}

fn pow_ctx() -> (BlockContext<AcceptAllPow>, BlockContext<RejectAllPow>) {
    let accept = BlockContext {
        opts: Options { skip_pow: false },
        pow_verifier: AcceptAllPow,
        store: ChainStore::new(),
        txhashset: TxHashSet::new(),
        batch: Batch::new(),
        now_utc: 1_000_000_000,
    };
    let rej = BlockContext {
        opts: Options { skip_pow: false },
        pow_verifier: RejectAllPow,
        store: ChainStore::new(),
        txhashset: TxHashSet::new(),
        batch: Batch::new(),
        now_utc: 1_000_000_000,
    };
    (accept, rej)
}

#[test]
fn proof_of_work_rules_are_enforced() {
    let (mut ctx, mut rej_ctx) = pow_ctx();
    init_genesis(&genesis_block(), &mut ctx).expect("genesis applies");
    init_genesis(&genesis_block(), &mut rej_ctx).expect("genesis applies");

    // A correct first block: target difficulty 1, initial scaling.
    let mut b1 = build_next_pow(&ctx, 1, 1856, [1, 0, 0, 0, 0, 0, 0, 0], 31);
    let tip = process_block(&b1, &mut ctx).expect("valid proof accepted");
    assert_eq!(tip.unwrap().height, 1);

    // Low edge bits are refused outright.
    let mut ctx2 = pow_ctx().0;
    init_genesis(&genesis_block(), &mut ctx2).expect("genesis applies");
    b1 = build_next_pow(&ctx2, 1, 1856, [1, 0, 0, 0, 0, 0, 0, 0], 15);
    assert_eq!(process_block(&b1, &mut ctx2), Err(Error::LowEdgebits));

    // A verifier veto yields an invalid-proof verdict.
    let b1r = build_next_pow_r(&rej_ctx, 1, 1856, [1, 0, 0, 0, 0, 0, 0, 0], 31);
    assert_eq!(process_block(&b1r, &mut rej_ctx), Err(Error::InvalidPow));

    // A cumulative-difficulty increment off the retarget is refused.
    let mut ctx3 = pow_ctx().0;
    init_genesis(&genesis_block(), &mut ctx3).expect("genesis applies");
    let b_bad = build_next_pow(&ctx3, 2, 1856, [2, 0, 0, 0, 0, 0, 0, 0], 31);
    assert_eq!(process_block(&b_bad, &mut ctx3), Err(Error::WrongTotalDifficulty));

    // A wrong secondary scaling factor is refused.
    let mut ctx4 = pow_ctx().0;
    init_genesis(&genesis_block(), &mut ctx4).expect("genesis applies");
    let b_scale = build_next_pow(&ctx4, 1, 5, [1, 0, 0, 0, 0, 0, 0, 0], 31);
    assert_eq!(process_block(&b_scale, &mut ctx4), Err(Error::InvalidScaling));

    // No difficulty increase at all is too low.
    let mut ctx5 = pow_ctx().0;
    init_genesis(&genesis_block(), &mut ctx5).expect("genesis applies");
    let b_flat = build_next_pow(&ctx5, 0, 1856, [1, 0, 0, 0, 0, 0, 0, 0], 31);
    assert_eq!(process_block(&b_flat, &mut ctx5), Err(Error::DifficultyTooLow));
}

fn build_next_pow(
    ctx: &BlockContext<AcceptAllPow>,
    diff: u64,
    scaling: u32,
    nonces: [u64; 8],
    edge_bits: u8,
) -> Block {
    let mut b = build_next_any(&ctx.store, &ctx.txhashset, diff, 9500);
    b.header.pow = ProofOfWork { edge_bits, secondary_scaling: scaling, nonces };
    b
}

fn build_next_pow_r(
    ctx: &BlockContext<RejectAllPow>,
    diff: u64,
    scaling: u32,
    nonces: [u64; 8],
    edge_bits: u8,
) -> Block {
    let mut b = build_next_any(&ctx.store, &ctx.txhashset, diff, 9600);
    b.header.pow = ProofOfWork { edge_bits, secondary_scaling: scaling, nonces };
    b
}

/// Like `build_next`, but over bare store and accumulator state so the
/// proof-of-work verifier's type does not matter.
fn build_next_any(store: &ChainStore, txhashset: &TxHashSet, diff: u64, r_seed: u64) -> Block {
    let head = store.head.expect("initialized chain");
    let prev = store.get_block_header(head.last_block_h).expect("head header");
    let height = prev.height + 1;
    let cb = coinbase_output(r_seed);
    let outputs = vec![cb];
    let header = BlockHeader {
        version: 1,
        height,
        prev_hash: prev.hash(),
        prev_root: fold_hashes(&txhashset.block_header_mmr),
        timestamp: prev.timestamp + 60,
        output_root: 0,
        range_proof_root: 0,
        kernel_root: 0,
        total_kernel_offset: prev.total_kernel_offset.wrapping_add(r_seed),
        output_mmr_size: 0,
        kernel_mmr_size: 0,
        total_difficulty: prev.total_difficulty + diff,
        pow: zero_pow(),
    };
    let draft = Block { header, inputs: vec![], outputs: outputs.clone(), kernels: vec![] };
    let mut ext = Extension::open(txhashset);
    ext.apply_block(&draft).expect("draft applies");
    let mut final_header = header;
    final_header.output_root = ext.output_root();
    final_header.range_proof_root = ext.rproof_root();
    final_header.kernel_root = ext.kernel_root();
    final_header.output_mmr_size = ext.outputs.len() as u64;
    final_header.kernel_mmr_size = ext.kernels.len() as u64;
    Block { header: final_header, inputs: vec![], outputs, kernels: vec![] }
}

#[test]
fn invalid_range_proof_is_rejected() {
    let mut ctx = new_ctx();
    init_genesis(&genesis_block(), &mut ctx).expect("genesis applies");
    let mut bad = build_next(&ctx, 1, None, 8600);
    bad.outputs[0].proof = bad.outputs[0].proof.wrapping_add(1);
    let r = process_block(&bad, &mut ctx);
    assert_eq!(r, Err(Error::InvalidBlockProof(BlockProofErr::InvalidRangeProof)));
}

#[test]
fn unbalanced_sums_are_rejected() {
    let mut ctx = new_ctx();
    init_genesis(&genesis_block(), &mut ctx).expect("genesis applies");
    let mut bad = build_next(&ctx, 1, None, 8700);
    bad.header.total_kernel_offset = bad.header.total_kernel_offset.wrapping_add(1);
    let r = process_block(&bad, &mut ctx);
    assert_eq!(r, Err(Error::InvalidBlockProof(BlockProofErr::KernelSumMismatch)));
}

#[test]
fn old_and_known_blocks_are_classified() {
    let mut ctx = new_ctx();
    init_genesis(&genesis_block(), &mut ctx).expect("genesis applies");
    let mut blocks = vec![];
    for i in 0..55u64 {
        blocks.push(extend(&mut ctx, 1, 9700 + i));
    }
    // A stored block near the tip (not head, not its parent) is unfit.
    let r = process_block(&blocks[52], &mut ctx);
    assert_eq!(r, Err(Error::Unfit(UnfitReason::KnownInStore)));
    // A stored block far behind the tip flags the peer.
    let r_old = process_block(&blocks[0], &mut ctx);
    assert_eq!(r_old, Err(Error::OldBlock));
}

#[test]
fn structural_block_faults_are_classified() {
    let mut ctx = new_ctx();
    init_genesis(&genesis_block(), &mut ctx).expect("genesis applies");
    let b1 = extend(&mut ctx, 1, 9800);
    let cb1 = b1.outputs[0].commit;

    // Two inputs spending one commitment.
    let mut dup_in = build_next(&ctx, 1, None, 9801);
    dup_in.inputs = vec![TxInput { commit: cb1 }, TxInput { commit: cb1 }];
    assert_eq!(
        process_block(&dup_in, &mut ctx),
        Err(Error::InvalidBlockProof(BlockProofErr::DuplicateInput)),
    );

    // Two outputs carrying one commitment.
    let mut dup_out = build_next(&ctx, 1, None, 9802);
    let o = dup_out.outputs[0];
    dup_out.outputs.push(o);
    assert_eq!(
        process_block(&dup_out, &mut ctx),
        Err(Error::InvalidBlockProof(BlockProofErr::DuplicateOutput)),
    );

    // A kernel whose signature does not verify.
    let mut bad_sig = build_next(&ctx, 1, None, 9803);
    bad_sig.kernels.push(TxKernel { excess: Commitment { v: 0, r: 0 }, sig: 1, fee: 0, lock_height: 0 });
    assert_eq!(
        process_block(&bad_sig, &mut ctx),
        Err(Error::InvalidBlockProof(BlockProofErr::InvalidKernelSignature)),
    );

    // A kernel locked beyond the block height.
    let mut locked = build_next(&ctx, 1, None, 9804);
    let excess = Commitment { v: 0, r: 0 };
    let lh = locked.header.height + 1;
    locked.kernels.push(TxKernel { excess, sig: kernel_sig_for(excess, 0, lh), fee: 0, lock_height: lh });
    assert_eq!(
        process_block(&locked, &mut ctx),
        Err(Error::InvalidBlockProof(BlockProofErr::KernelLockHeight)),
    );

    // An output re-creating a commitment that is still unspent.
    let mut dup_unspent = build_next(&ctx, 1, None, 9805);
    dup_unspent.outputs.push(TxOutput {
        commit: cb1,
        is_coinbase: false,
        proof: rangeproof_for(cb1, false),
    });
    dup_unspent.header.total_kernel_offset =
        dup_unspent.header.total_kernel_offset.wrapping_add(cb1.r);
    // The extra value breaks the balance too; fix the value side by
    // dropping the block's own coinbase value onto the replacement.
    dup_unspent.outputs[1].commit = cb1;
    let r = process_block(&dup_unspent, &mut ctx);
    assert!(
        r == Err(Error::InvalidBlockProof(BlockProofErr::DuplicateUnspent))
            || r == Err(Error::InvalidBlockProof(BlockProofErr::KernelSumMismatch)),
    );

    // Declared roots and sizes that do not match the applied state.
    let mut bad_root = build_next(&ctx, 1, None, 9806);
    bad_root.header.output_root = bad_root.header.output_root.wrapping_add(1);
    assert_eq!(process_block(&bad_root, &mut ctx), Err(Error::InvalidRoot));
    let mut bad_prev_root = build_next(&ctx, 1, None, 9807);
    bad_prev_root.header.prev_root = bad_prev_root.header.prev_root.wrapping_add(1);
    assert_eq!(process_block(&bad_prev_root, &mut ctx), Err(Error::InvalidRoot));
    let mut bad_size = build_next(&ctx, 1, None, 9808);
    bad_size.header.output_mmr_size += 1;
    assert_eq!(process_block(&bad_size, &mut ctx), Err(Error::InvalidMMRSize));
}

#[test]
fn orphan_with_bad_proof_is_rejected_not_buffered() {
    // An orphan whose proof of work fails is refused outright, so it is
    // never handed to an orphan pool.
    let mut scratch = new_ctx();
    init_genesis(&genesis_block(), &mut scratch).expect("genesis applies");
    let b1 = extend(&mut scratch, 1, 9900);
    let b2 = extend(&mut scratch, 1, 9901);

    let (_, mut rej_ctx) = pow_ctx();
    init_genesis(&genesis_block(), &mut rej_ctx).expect("genesis applies");
    chain_pipe::pipe::process_block_header(&b1.header, &mut rej_ctx).err();
    // Feed the header chain first so block 2's parent header is known.
    let mut ok_ctx = new_ctx();
    init_genesis(&genesis_block(), &mut ok_ctx).expect("genesis applies");
    chain_pipe::pipe::process_block_header(&b1.header, &mut ok_ctx).expect("header accepted");
    let mut bad = b2.clone();
    bad.header.pow.edge_bits = 15;
    let r = process_block(&bad, &mut ok_ctx);
    assert_eq!(r, Err(Error::LowEdgebits));
}

#[test]
fn fresh_context_reads_the_clock() {
    let ctx = BlockContext::new(
        Options { skip_pow: true },
        AcceptAllPow,
        ChainStore::new(),
        TxHashSet::new(),
    );
    assert!(ctx.batch.headers.is_empty());
    assert!(ctx.store.head.is_none());
}
