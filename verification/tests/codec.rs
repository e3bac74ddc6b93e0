//! Tests for the canonical header codec, hex decoding, decimal parsing,
//! and the read-only API handlers.

use chain_pipe::consensus::{valid_header_version, HARD_FORK_INTERVAL};
use chain_pipe::handlers::{
    check_block_param, parse_dec, BlockHandler, Chain, ChainApi, HeaderHandler, OutputApi, PoolApi,
};
use chain_pipe::pipe::{init_genesis, process_block, AcceptAllPow, BlockContext};
use chain_pipe::ser::{deser_header, from_hex, ser_header};
use chain_pipe::store::{Batch, ChainStore};
use chain_pipe::txhashset::TxHashSet;
use chain_pipe::types::{
    rangeproof_for, Block, BlockHeader, Commitment, Error, Options, ProofOfWork, TxInput,
    TxOutput, HASH_SEED, REWARD,
};

fn sample_header() -> BlockHeader {
    BlockHeader {
        version: 1,
        height: 42,
        prev_hash: 0x1122334455667788,
        prev_root: 99,
        timestamp: 123_456,
        output_root: 7,
        range_proof_root: 8,
        kernel_root: 9,
        total_kernel_offset: 10,
        output_mmr_size: 11,
        kernel_mmr_size: 12,
        total_difficulty: 1000,
        pow: ProofOfWork {
            edge_bits: 31,
            secondary_scaling: 1856,
            nonces: [1, 2, 3, 4, 5, 6, 7, u64::MAX],
        },
    }
}

#[test]
fn header_serialization_round_trips() {
    let h = sample_header();
    let bytes = ser_header(&h);
    assert_eq!(bytes.len(), 184);
    let back = deser_header(&bytes).expect("canonical bytes deserialize");
    assert_eq!(back, h);
}

#[test]
fn header_deserialization_rejects_bad_shapes() {
    let h = sample_header();
    let mut bytes = ser_header(&h);
    bytes.pop();
    assert_eq!(deser_header(&bytes), Err(Error::Argument));
    let mut long = ser_header(&h);
    long.push(0);
    assert_eq!(deser_header(&long), Err(Error::Argument));
    // A version beyond sixteen bits is refused.
    let mut bad_version = ser_header(&h);
    bad_version[3] = 0xff;
    assert_eq!(deser_header(&bad_version), Err(Error::Argument));
}

#[test]
fn hex_decoding_is_exact() {
    let ok = from_hex(&b"00ff10Ab".to_vec()).expect("valid hex decodes");
    assert_eq!(ok, vec![0x00, 0xff, 0x10, 0xab]);
    assert!(from_hex(&b"0".to_vec()).is_none());
    assert!(from_hex(&b"zz".to_vec()).is_none());
    assert_eq!(from_hex(&b"".to_vec()), Some(vec![]));
}

#[test]
fn decimal_parsing_is_exact() {
    assert_eq!(parse_dec(&b"0".to_vec()), Some(0));
    assert_eq!(parse_dec(&b"1234567890".to_vec()), Some(1_234_567_890));
    assert_eq!(parse_dec(&b"18446744073709551615".to_vec()), Some(u64::MAX));
    assert_eq!(parse_dec(&b"18446744073709551616".to_vec()), None);
    assert_eq!(parse_dec(&b"".to_vec()), None);
    assert_eq!(parse_dec(&b"12a".to_vec()), None);
}

#[test]
fn block_param_requires_a_hash_sized_hex_run() {
    assert_eq!(check_block_param(&b"00112233445566778899aabbccddeeff".to_vec()), Ok(()));
    assert_eq!(check_block_param(&b"1122334455667788".to_vec()), Ok(()));
    assert_eq!(check_block_param(&b"hello".to_vec()), Err(Error::Argument));
    assert_eq!(check_block_param(&b"112233445566778".to_vec()), Err(Error::Argument));
}

fn zero_pow() -> ProofOfWork {
    ProofOfWork { edge_bits: 31, secondary_scaling: 0, nonces: [0; 8] }
}

fn genesis_block() -> Block {
    let header = BlockHeader {
        version: 1,
        height: 0,
        prev_hash: 0,
        prev_root: 0,
        timestamp: 1000,
        output_root: HASH_SEED,
        range_proof_root: HASH_SEED,
        kernel_root: HASH_SEED,
        total_kernel_offset: 0,
        output_mmr_size: 0,
        kernel_mmr_size: 0,
        total_difficulty: 1,
        pow: zero_pow(),
    };
    Block { header, inputs: vec![], outputs: vec![], kernels: vec![] }
}

/// A two-block chain for the handler tests.
fn small_chain() -> (Chain, Vec<Block>) {
    let mut ctx = BlockContext {
        opts: Options { skip_pow: true },
        pow_verifier: AcceptAllPow,
        store: ChainStore::new(),
        txhashset: TxHashSet::new(),
        batch: Batch::new(),
        now_utc: 1_000_000_000,
    };
    init_genesis(&genesis_block(), &mut ctx).expect("genesis applies");
    let mut blocks = vec![genesis_block()];
    for i in 0..2u64 {
        let head = ctx.store.head.unwrap();
        let prev = ctx.store.get_block_header(head.last_block_h).unwrap();
        let c = Commitment { v: REWARD, r: 100 + i };
        let outputs = vec![TxOutput { commit: c, is_coinbase: true, proof: rangeproof_for(c, true) }];
        let header = BlockHeader {
            version: 1,
            height: prev.height + 1,
            prev_hash: prev.hash(),
            prev_root: chain_pipe::txhashset::fold_hashes(&ctx.txhashset.block_header_mmr),
            timestamp: prev.timestamp + 60,
            output_root: 0,
            range_proof_root: 0,
            kernel_root: 0,
            total_kernel_offset: prev.total_kernel_offset.wrapping_add(100 + i),
            output_mmr_size: 0,
            kernel_mmr_size: 0,
            total_difficulty: prev.total_difficulty + 1,
            pow: zero_pow(),
        };
        let draft = Block { header, inputs: vec![], outputs: outputs.clone(), kernels: vec![] };
        let mut ext = chain_pipe::txhashset::Extension::open(&ctx.txhashset);
        ext.apply_block(&draft).expect("draft applies");
        let mut fh = header;
        fh.output_root = ext.output_root();
        fh.range_proof_root = ext.rproof_root();
        fh.kernel_root = ext.kernel_root();
        fh.output_mmr_size = ext.outputs.len() as u64;
        fh.kernel_mmr_size = ext.kernels.len() as u64;
        let b = Block { header: fh, inputs: vec![], outputs, kernels: vec![] };
        process_block(&b, &mut ctx).expect("block accepted");
        blocks.push(b);
    }
    (Chain { store: ctx.store, txhashset: ctx.txhashset }, blocks)
}

fn hex_of_commitment(c: Commitment) -> Vec<u8> {
    let mut bytes = vec![];
    bytes.extend_from_slice(&c.v.to_le_bytes());
    bytes.extend_from_slice(&c.r.to_le_bytes());
    let mut out = vec![];
    for b in bytes {
        out.extend_from_slice(format!("{:02x}", b).as_bytes());
    }
    out
}

#[test]
fn header_handler_resolves_heights_hashes_and_commitments() {
    let (chain, blocks) = small_chain();
    let b1 = &blocks[1];
    let hh = HeaderHandler { chain };
    // By hash.
    let got = hh.get_header_v2(&b1.header.hash()).expect("stored header found");
    assert_eq!(got, b1.header);
    assert_eq!(hh.get_header_v2(&0xdead), Err(Error::NotFound));
    // By height.
    assert_eq!(hh.parse_inputs(Some(1), None, None), Ok(b1.header.hash()));
    assert_eq!(hh.parse_inputs(Some(9), None, None), Err(Error::NotFound));
    // By explicit hash.
    assert_eq!(hh.parse_inputs(None, Some(77), None), Ok(77));
    // By commitment of block 1's coinbase.
    let commit_hex = hex_of_commitment(b1.outputs[0].commit);
    assert_eq!(hh.parse_inputs(None, None, Some(commit_hex)), Ok(b1.header.hash()));
    // Nothing given.
    assert_eq!(hh.parse_inputs(None, None, None), Err(Error::Argument));
}

#[test]
fn block_handler_finds_blocks_and_parses_inputs() {
    let (chain, blocks) = small_chain();
    let b2 = &blocks[2];
    let bh = BlockHandler { chain };
    let got = bh.get_block(&b2.header.hash(), false, true).expect("stored block found");
    assert_eq!(got.header, b2.header);
    assert_eq!(got.outputs, b2.outputs);
    assert_eq!(
        bh.get_block(&0xdead, false, true).map(|b| b.header),
        Err(Error::NotFound),
    );
    let cb = bh.get_compact_block(&b2.header.hash()).expect("compact form");
    assert_eq!(cb.header, b2.header);
    assert_eq!(cb.kernel_ids.len(), 0);
    // Decimal heights resolve through the current chain.
    assert_eq!(bh.parse_input(&b"2".to_vec()), Ok(b2.header.hash()));
    // A hash in hex resolves to itself; the wire form is little-endian.
    let hex_le: Vec<u8> = {
        let mut v = vec![];
        for b in b2.header.hash().to_le_bytes() {
            v.extend_from_slice(format!("{:02x}", b).as_bytes());
        }
        v
    };
    assert_eq!(bh.parse_input(&hex_le), Ok(b2.header.hash()));
    // Garbage is an argument error.
    assert_eq!(bh.parse_input(&b"not-a-thing".to_vec()), Err(Error::Argument));
    // Hex that merely contains a hash-sized run is not a hash.
    assert_eq!(bh.parse_input(&b"a12233445566778899".to_vec()), Err(Error::Argument));
}

#[test]
fn version_schedule_follows_the_hard_fork_eras() {
    assert!(valid_header_version(0, 1));
    assert!(valid_header_version(HARD_FORK_INTERVAL - 1, 1));
    assert!(!valid_header_version(HARD_FORK_INTERVAL, 1));
    assert!(valid_header_version(HARD_FORK_INTERVAL, 2));
    assert!(!valid_header_version(5, 2));
    assert!(valid_header_version(3 * HARD_FORK_INTERVAL + 7, 4));
}

#[test]
fn chain_and_output_endpoints_answer() {
    let (chain, blocks) = small_chain();
    let tip = chain.store.head.unwrap();
    let api = ChainApi { chain_store: chain.store };
    assert_eq!(api.get(&b"".to_vec()), Ok(tip));
    assert_eq!(api.operations().len(), 1);

    let (chain2, _) = small_chain();
    let out_api = OutputApi { chain_store: chain2.store, txhashset: chain2.txhashset };
    let commit = blocks[1].outputs[0].commit;
    let entry = out_api.get(&hex_of_commitment(commit)).expect("unspent output found");
    assert_eq!(entry.commit, commit);
    assert!(entry.is_coinbase);
    assert_eq!(entry.height, 1);
    assert_eq!(out_api.get(&b"00".to_vec()), Err(Error::Argument));
    let absent = Commitment { v: 1, r: 2 };
    assert_eq!(out_api.get(&hex_of_commitment(absent)), Err(Error::NotFound));
    assert_eq!(out_api.operations().len(), 1);
}

#[test]
fn get_header_resolves_commitment_height_and_hash() {
    let (chain, blocks) = small_chain();
    let b1 = &blocks[1];
    let b2 = &blocks[2];
    let hh = HeaderHandler { chain };
    // As a commitment.
    let by_commit = hh.get_header(&hex_of_commitment(b1.outputs[0].commit)).unwrap();
    assert_eq!(by_commit, b1.header);
    // As a height.
    assert_eq!(hh.get_header(&b"2".to_vec()).unwrap(), b2.header);
    // As a hash, little-endian hex.
    let mut hex = vec![];
    for b in b1.header.hash().to_le_bytes() {
        hex.extend_from_slice(format!("{:02x}", b).as_bytes());
    }
    assert_eq!(hh.get_header(&hex).unwrap(), b1.header);
    // Garbage.
    assert_eq!(hh.get_header(&b"???".to_vec()), Err(Error::Argument));
    assert_eq!(hh.get_header(&b"99".to_vec()), Err(Error::NotFound));
    // Hex longer than a hash fits no disambiguation.
    assert_eq!(hh.get_header(&b"a12233445566778899".to_vec()), Err(Error::Argument));
}

#[test]
fn apply_then_rewind_restores_accumulator_state() {
    let (chain, _blocks) = small_chain();
    let mut ext = chain_pipe::txhashset::Extension::open(&chain.txhashset);
    let before_out = ext.output_root();
    let before_rp = ext.rproof_root();
    let before_k = ext.kernel_root();
    let before_len = ext.outputs.len();
    // Apply a fresh block, then rewind to the old tip: state is restored.
    let c = Commitment { v: REWARD, r: 777 };
    let outputs = vec![TxOutput { commit: c, is_coinbase: true, proof: rangeproof_for(c, true) }];
    let head_header = chain.store.get_block_header(chain.store.head.unwrap().last_block_h).unwrap();
    let next = Block {
        header: BlockHeader {
            version: 1,
            height: head_header.height + 1,
            prev_hash: head_header.hash(),
            prev_root: 0,
            timestamp: head_header.timestamp + 60,
            output_root: 0,
            range_proof_root: 0,
            kernel_root: 0,
            total_kernel_offset: 0,
            output_mmr_size: 0,
            kernel_mmr_size: 0,
            total_difficulty: head_header.total_difficulty + 1,
            pow: zero_pow(),
        },
        inputs: vec![],
        outputs,
        kernels: vec![],
    };
    ext.apply_block(&next).expect("block applies");
    assert_ne!(ext.output_root(), before_out);
    ext.rewind(&head_header).expect("rewind to old tip");
    assert_eq!(ext.output_root(), before_out);
    assert_eq!(ext.rproof_root(), before_rp);
    assert_eq!(ext.kernel_root(), before_k);
    assert_eq!(ext.outputs.len(), before_len);
}

#[test]
fn pool_push_decodes_the_transaction() {
    let pool = PoolApi {};
    // One kernel: excess (5, 6), signature 7, fee 8, lock height 9.
    let mut bytes = vec![];
    bytes.extend_from_slice(&1u64.to_le_bytes());
    for w in [5u64, 6, 7, 8, 9] {
        bytes.extend_from_slice(&w.to_le_bytes());
    }
    let mut hex = vec![];
    for b in &bytes {
        hex.extend_from_slice(format!("{:02x}", b).as_bytes());
    }
    let tx = pool.operation(&b"push".to_vec(), &hex).expect("valid transaction decodes");
    assert_eq!(tx.kernels.len(), 1);
    assert_eq!(tx.kernels[0].excess, Commitment { v: 5, r: 6 });
    assert_eq!(tx.kernels[0].sig, 7);
    assert_eq!(tx.kernels[0].fee, 8);
    assert_eq!(tx.kernels[0].lock_height, 9);
    // Bad hex and truncated payloads are argument errors.
    assert!(pool.operation(&b"push".to_vec(), &b"zz".to_vec()).is_err());
    let short_hex: Vec<u8> = hex[0..hex.len() - 2].to_vec();
    assert!(pool.operation(&b"push".to_vec(), &short_hex).is_err());
    assert_eq!(pool.operations().len(), 1);
}
