//! The read-only API surface over the chain: header, block, tip and
//! output lookups, input parsing (height, hash or output commitment), and
//! the transaction push endpoint's decoding. The HTTP transport itself
//! lives outside the library; these handlers do the deciding.

use vstd::prelude::*;

use crate::ser::from_hex;
use crate::ser::get_u64;
use crate::ser::is_hex_digit;
use crate::ser::spec_from_hex;
use crate::store::ChainStore;
use crate::store::find_header_in;
use crate::txhashset::OutputEntry;
use crate::txhashset::TxHashSet;
use crate::txhashset::find_first_unspent;
use crate::txhashset::first_unspent;
use crate::types::Block;
use crate::types::BlockHeader;
use crate::types::BlockV;
use crate::types::Commitment;
use crate::types::Error;
use crate::types::Tip;
use crate::types::TxKernel;
use crate::types::copy_vec;
use crate::types::hash_of;

verus! {

/// Length in hex digits of a rendered hash.
pub const HASH_HEX_LEN: usize = 16;

/// Every byte is seven-bit ASCII.
pub open spec fn all_ascii(s: Seq<u8>) -> bool {
    forall|i: int| 0 <= i < s.len() ==> (#[trigger] s[i]) < 128
}

/// A run of `n` hexadecimal digits starts at position `i`.
pub open spec fn hex_run_at(s: Seq<u8>, i: int, n: int) -> bool {
    0 <= i && i + n <= s.len() && (forall|j: int| i <= j < i + n ==> is_hex_digit(#[trigger] s[j]))
}

/// The byte sequence contains a run of `n` hexadecimal digits.
pub open spec fn spec_contains_hex_run(s: Seq<u8>, n: int) -> bool {
    exists|i: int| #[trigger] hex_run_at(s, i, n)
}

/// Relies on `regex::Regex::is_match` with the pattern of sixteen
/// hexadecimal digits (`Regex::new` on this literal pattern cannot
/// fail): on ASCII input it is true exactly when the input contains such
/// a run.
#[verifier::external_body]
fn contains_hex16(b: &Vec<u8>) -> (r: bool)
    ensures
        all_ascii(b@) ==> r == spec_contains_hex_run(b@, HASH_HEX_LEN as int),
{
    match std::str::from_utf8(b.as_slice()) {
        Ok(s) => regex::Regex::new("[0-9a-fA-F]{16}").unwrap().is_match(s),
        Err(_) => false,
    }
}

/// Reject inputs that hold no hash-sized hexadecimal run.
pub fn check_block_param(input: &Vec<u8>) -> (r: Result<(), Error>)
    ensures
        all_ascii(input@) ==> (r == (if spec_contains_hex_run(input@, HASH_HEX_LEN as int) {
            Ok::<(), Error>(())
        } else {
            Err::<(), Error>(Error::Argument)
        })),
{
    if contains_hex16(input) {
        Ok(())
    } else {
        Err(Error::Argument)
    }
}

/// Whether a byte is an ASCII decimal digit.
pub open spec fn is_dec_digit(c: u8) -> bool {
    48 <= c <= 57
}

/// Every byte is a decimal digit.
pub open spec fn all_dec_digits(s: Seq<u8>) -> bool {
    forall|i: int| 0 <= i < s.len() ==> is_dec_digit(#[trigger] s[i])
}

/// The value of a decimal digit string, unbounded.
pub open spec fn dec_fold(s: Seq<u8>) -> int
    decreases s.len(),
{
    if s.len() == 0 {
        0
    } else {
        dec_fold(s.drop_last()) * 10 + (s.last() - 48)
    }
}

/// What parsing a decimal unsigned integer yields: every byte must be a
/// digit, the string non-empty, and the value must fit.
pub open spec fn spec_parse_dec(s: Seq<u8>) -> Option<u64> {
    if s.len() == 0 || !all_dec_digits(s) {
        None
    } else if dec_fold(s) > u64::MAX {
        None
    } else {
        Some(dec_fold(s) as u64)
    }
}

/// The value of a digit string is never negative.
proof fn lemma_dec_fold_nonneg(s: Seq<u8>)
    requires
        all_dec_digits(s),
    ensures
        dec_fold(s) >= 0,
    decreases s.len(),
{
    if s.len() > 0 {
        assert(all_dec_digits(s.drop_last())) by {
            assert(forall|i: int|
                0 <= i < s.drop_last().len() ==> s.drop_last()[i] == (#[trigger] s[i]));
        };
        lemma_dec_fold_nonneg(s.drop_last());
    }
}

/// Parse a decimal unsigned integer.
pub fn parse_dec(s: &Vec<u8>) -> (r: Option<u64>)
    ensures
        r == spec_parse_dec(s@),
{
    if s.len() == 0 {
        return None;
    }
    let mut acc: u128 = 0;
    let mut over: bool = false;
    let mut i: usize = 0;
    assert(s@.take(0) =~= Seq::<u8>::empty());
    while i < s.len()
        invariant
            0 <= i <= s@.len(),
            all_dec_digits(s@.take(i as int)),
            over == (dec_fold(s@.take(i as int)) > u64::MAX),
            !over ==> acc == dec_fold(s@.take(i as int)),
            acc <= u64::MAX,
        decreases s.len() - i,
    {
        let c = s[i];
        if !(48 <= c && c <= 57) {
            return None;
        }
        proof {
            assert(s@.take(i as int + 1).drop_last() =~= s@.take(i as int));
            assert(s@.take(i as int + 1).last() == s@[i as int]);
            lemma_dec_fold_nonneg(s@.take(i as int));
        }
        if over {
            proof {
                assert(dec_fold(s@.take(i as int + 1)) > u64::MAX);
            }
        } else {
            let next: u128 = acc * 10 + ((c - 48) as u128);
            if next > u64::MAX as u128 {
                over = true;
                acc = 0;
            } else {
                acc = next;
            }
        }
        i = i + 1;
    }
    assert(s@.take(s@.len() as int) =~= s@);
    if over {
        None
    } else {
        Some(acc as u64)
    }
}

/// A compact rendering of a block: its header and kernel digests alone.
pub struct CompactBlock {
    /// The block header.
    pub header: BlockHeader,
    /// The kernel signatures, standing in for kernel short identifiers.
    pub kernel_ids: Vec<u64>,
}

/// The chain state the handlers read: the committed store and the
/// accumulator state.
pub struct Chain {
    /// The committed store.
    pub store: ChainStore,
    /// The accumulator state.
    pub txhashset: TxHashSet,
}

/// The header on the current block chain at a height.
pub open spec fn spec_header_by_height(chain_mmr: Seq<u64>, headers: Seq<BlockHeader>, height: u64) -> Option<
    BlockHeader,
> {
    if height < chain_mmr.len() {
        find_header_in(headers, chain_mmr[height as int])
    } else {
        None
    }
}

impl Chain {
    /// Look up the header at a height of the current chain.
    pub fn get_header_by_height(&self, height: u64) -> (r: Option<BlockHeader>)
        ensures
            r == spec_header_by_height(
                self.txhashset@.block_header_mmr,
                self.store@.headers,
                height,
            ),
    {
        if height < self.txhashset.block_header_mmr.len() as u64 {
            let i = height as usize;
            self.store.get_block_header(self.txhashset.block_header_mmr[i])
        } else {
            None
        }
    }
}

/// Gets block headers given either a hash, a height or an output
/// commitment.
pub struct HeaderHandler {
    /// The chain state read by this handler.
    pub chain: Chain,
}

/// What resolving an input to a header through an output commitment
/// yields: the commitment's hex must decode to sixteen bytes, an unspent
/// output must carry it, and its inclusion height must name a header.
pub open spec fn spec_header_for_output(c: Chain, commit_hex: Seq<u8>) -> Result<
    BlockHeader,
    Error,
> {
    match spec_from_hex(commit_hex) {
        None => Err(Error::Argument),
        Some(bytes) => {
            if bytes.len() != 16 {
                Err(Error::Argument)
            } else {
                let commit = Commitment { v: get_u64(bytes, 0), r: get_u64(bytes, 8) };
                match first_unspent(c.txhashset@.outputs, commit) {
                    None => Err(Error::NotFound),
                    Some(i) => match spec_header_by_height(
                        c.txhashset@.block_header_mmr,
                        c.store@.headers,
                        c.txhashset@.outputs[i].height,
                    ) {
                        None => Err(Error::NotFound),
                        Some(h) => Ok(h),
                    },
                }
            }
        },
    }
}

/// What resolving a free-form input to a header yields: first as an
/// output commitment, then as a decimal height, and last as a header
/// hash, which must be exactly hash-length hex.
pub open spec fn spec_get_header(c: Chain, input: Seq<u8>) -> Result<BlockHeader, Error> {
    if spec_header_for_output(c, input) is Ok {
        spec_header_for_output(c, input)
    } else {
        match spec_parse_dec(input) {
            Some(height) => match spec_header_by_height(
                c.txhashset@.block_header_mmr,
                c.store@.headers,
                height,
            ) {
                Some(h) => Ok(h),
                None => Err(Error::NotFound),
            },
            None => {
                if !spec_contains_hex_run(input, HASH_HEX_LEN as int) {
                    Err(Error::Argument)
                } else {
                    match spec_from_hex(input) {
                        None => Err(Error::Argument),
                        Some(bytes) => if bytes.len() == 8 {
                            match find_header_in(c.store@.headers, get_u64(bytes, 0)) {
                                Some(h) => Ok(h),
                                None => Err(Error::NotFound),
                            }
                        } else {
                            Err(Error::Argument)
                        },
                    }
                }
            },
        }
    }
}

impl HeaderHandler {
    /// Resolve a free-form input — an output commitment, a decimal
    /// height or a header hash — to the header it names.
    pub fn get_header(&self, input: &Vec<u8>) -> (r: Result<BlockHeader, Error>)
        ensures
            all_ascii(input@) ==> r == spec_get_header(self.chain, input@),
    {
        match self.get_header_for_output(input) {
            Ok(h) => {
                return Ok(h);
            },
            Err(_) => {},
        }
        match parse_dec(input) {
            Some(height) => {
                return match self.chain.get_header_by_height(height) {
                    Some(h) => Ok(h),
                    None => Err(Error::NotFound),
                };
            },
            None => {},
        }
        match check_block_param(input) {
            Err(e) => {
                return Err(e);
            },
            Ok(()) => {},
        }
        let bytes = match from_hex(input) {
            None => {
                return Err(Error::Argument);
            },
            Some(b) => b,
        };
        if bytes.len() != 8 {
            return Err(Error::Argument);
        }
        let h = crate::ser::read_u64(&bytes, 0);
        match self.chain.store.get_block_header(h) {
            Some(hd) => Ok(hd),
            None => Err(Error::NotFound),
        }
    }

    /// Resolve a hex-encoded output commitment to the header of the
    /// block that created the output.
    pub fn get_header_for_output(&self, commit_hex: &Vec<u8>) -> (r: Result<BlockHeader, Error>)
        ensures
            r == spec_header_for_output(self.chain, commit_hex@),
    {
        let bytes = match from_hex(commit_hex) {
            None => {
                return Err(Error::Argument);
            },
            Some(b) => b,
        };
        if bytes.len() != 16 {
            return Err(Error::Argument);
        }
        let commit = match crate::ser::commitment_from_bytes(&bytes) {
            None => {
                return Err(Error::Argument);
            },
            Some(c) => c,
        };
        let idx = match find_first_unspent(&self.chain.txhashset.outputs, commit) {
            None => {
                return Err(Error::NotFound);
            },
            Some(i) => i,
        };
        proof {
            crate::txhashset::lemma_first_unspent_in_range(
                self.chain.txhashset@.outputs,
                commit,
                0,
            );
        }
        let height = self.chain.txhashset.outputs[idx].height;
        match self.chain.get_header_by_height(height) {
            None => Err(Error::NotFound),
            Some(h) => Ok(h),
        }
    }

    /// Look up a header by its hash.
    pub fn get_header_v2(&self, h: &u64) -> (r: Result<BlockHeader, Error>)
        ensures
            r == (match find_header_in(self.chain.store@.headers, *h) {
                Some(hd) => Ok::<BlockHeader, Error>(hd),
                None => Err::<BlockHeader, Error>(Error::NotFound),
            }),
    {
        match self.chain.store.get_block_header(*h) {
            Some(hd) => Ok(hd),
            None => Err(Error::NotFound),
        }
    }

    /// Resolve an input given as a height, a hash or a hex commitment to
    /// a header hash, in that order of preference.
    pub fn parse_inputs(&self, height: Option<u64>, hash: Option<u64>, commit: Option<Vec<u8>>) -> (r:
        Result<u64, Error>)
        ensures
            height matches Some(ht) ==> r == (match spec_header_by_height(
                self.chain.txhashset@.block_header_mmr,
                self.chain.store@.headers,
                ht,
            ) {
                Some(hd) => Ok::<u64, Error>(hash_of(hd)),
                None => Err::<u64, Error>(Error::NotFound),
            }),
            height is None ==> (hash matches Some(hs) ==> r == Ok::<u64, Error>(hs)),
            (height is None && hash is None) ==> (commit matches Some(c) ==> r == (match
                spec_header_for_output(self.chain, c@) {
                Ok(hd) => Ok::<u64, Error>(hash_of(hd)),
                Err(e) => Err::<u64, Error>(e),
            })),
            (height is None && hash is None && commit is None) ==> r == Err::<u64, Error>(
                Error::Argument,
            ),
    {
        match height {
            Some(ht) => {
                return match self.chain.get_header_by_height(ht) {
                    Some(hd) => Ok(hd.hash()),
                    None => Err(Error::NotFound),
                };
            },
            None => {},
        }
        match hash {
            Some(hs) => {
                return Ok(hs);
            },
            None => {},
        }
        match commit {
            Some(c) => {
                match self.get_header_for_output(&c) {
                    Ok(hd) => Ok(hd.hash()),
                    Err(e) => Err(e),
                }
            },
            None => Err(Error::Argument),
        }
    }
}

/// Gets block details given either a hash, a height or an unspent
/// commitment.
pub struct BlockHandler {
    /// The chain state read by this handler.
    pub chain: Chain,
}

impl BlockHandler {
    /// Look up a full block by its header hash. The proof and Merkle
    /// flags steer the rendering only, which lives outside the library.
    pub fn get_block(&self, h: &u64, include_proof: bool, include_merkle_proof: bool) -> (r: Result<
        Block,
        Error,
    >)
        ensures
            r matches Ok(b) ==> crate::store::find_block_in(self.chain.store@.blocks, *h) == Some(
                b@,
            ),
            r matches Err(e) ==> e == Error::NotFound && crate::store::find_block_in(
                self.chain.store@.blocks,
                *h,
            ) is None,
    {
        match self.chain.store.get_block(*h) {
            Some(b) => Ok(b),
            None => Err(Error::NotFound),
        }
    }

    /// Look up a block and render it compactly: header and kernel
    /// digests.
    pub fn get_compact_block(&self, h: &u64) -> (r: Result<CompactBlock, Error>)
        ensures
            r matches Ok(cb) ==> (crate::store::find_block_in(self.chain.store@.blocks, *h) matches
                Some(b) && cb.header == b.header && cb.kernel_ids@ == b.kernels.map_values(
                |k: TxKernel| k.sig,
            )),
            r matches Err(e) ==> e == Error::NotFound && crate::store::find_block_in(
                self.chain.store@.blocks,
                *h,
            ) is None,
    {
        let b = match self.chain.store.get_block(*h) {
            None => {
                return Err(Error::NotFound);
            },
            Some(b) => b,
        };
        let mut ids: Vec<u64> = Vec::new();
        let mut i: usize = 0;
        while i < b.kernels.len()
            invariant
                0 <= i <= b.kernels@.len(),
                ids@ == b.kernels@.take(i as int).map_values(|k: TxKernel| k.sig),
            decreases b.kernels.len() - i,
        {
            ids.push(b.kernels[i].sig);
            assert(ids@ =~= b.kernels@.take(i as int + 1).map_values(|k: TxKernel| k.sig));
            i = i + 1;
        }
        assert(b.kernels@.take(b.kernels@.len() as int) =~= b.kernels@);
        Ok(CompactBlock { header: b.header, kernel_ids: ids })
    }

    /// Decode an input string as a height or a hash.
    pub fn parse_input(&self, input: &Vec<u8>) -> (r: Result<u64, Error>)
        ensures
            spec_parse_dec(input@) matches Some(ht) ==> r == (match spec_header_by_height(
                self.chain.txhashset@.block_header_mmr,
                self.chain.store@.headers,
                ht,
            ) {
                Some(hd) => Ok::<u64, Error>(hash_of(hd)),
                None => Err::<u64, Error>(Error::NotFound),
            }),
            (spec_parse_dec(input@) is None && all_ascii(input@) && !spec_contains_hex_run(
                input@,
                HASH_HEX_LEN as int,
            )) ==> r == Err::<u64, Error>(Error::Argument),
            (spec_parse_dec(input@) is None && all_ascii(input@) && spec_contains_hex_run(
                input@,
                HASH_HEX_LEN as int,
            )) ==> r == (match spec_from_hex(input@) {
                None => Err::<u64, Error>(Error::Argument),
                Some(bytes) => if bytes.len() == 8 {
                    Ok::<u64, Error>(get_u64(bytes, 0))
                } else {
                    Err::<u64, Error>(Error::Argument)
                },
            }),
    {
        match parse_dec(input) {
            Some(ht) => {
                return match self.chain.get_header_by_height(ht) {
                    Some(hd) => Ok(hd.hash()),
                    None => Err(Error::NotFound),
                };
            },
            None => {},
        }
        match check_block_param(input) {
            Err(e) => {
                return Err(e);
            },
            Ok(()) => {},
        }
        let bytes = match from_hex(input) {
            None => {
                return Err(Error::Argument);
            },
            Some(b) => b,
        };
        if bytes.len() != 8 {
            return Err(Error::Argument);
        }
        Ok(crate::ser::read_u64(&bytes, 0))
    }

    /// Resolve an input given as a height, a hash or a hex commitment to
    /// a header hash, in that order of preference.
    pub fn parse_inputs(&self, height: Option<u64>, hash: Option<u64>, commit: Option<Vec<u8>>) -> (r:
        Result<u64, Error>)
        ensures
            height matches Some(ht) ==> r == (match spec_header_by_height(
                self.chain.txhashset@.block_header_mmr,
                self.chain.store@.headers,
                ht,
            ) {
                Some(hd) => Ok::<u64, Error>(hash_of(hd)),
                None => Err::<u64, Error>(Error::NotFound),
            }),
            height is None ==> (hash matches Some(hs) ==> r == Ok::<u64, Error>(hs)),
            (height is None && hash is None) ==> (commit matches Some(c) ==> r == (match
                spec_header_for_output(self.chain, c@) {
                Ok(hd) => Ok::<u64, Error>(hash_of(hd)),
                Err(e) => Err::<u64, Error>(e),
            })),
            (height is None && hash is None && commit is None) ==> r == Err::<u64, Error>(
                Error::Argument,
            ),
    {
        match height {
            Some(ht) => {
                return match self.chain.get_header_by_height(ht) {
                    Some(hd) => Ok(hd.hash()),
                    None => Err(Error::NotFound),
                };
            },
            None => {},
        }
        match hash {
            Some(hs) => {
                return Ok(hs);
            },
            None => {},
        }
        match commit {
            Some(c) => {
                let hh = HeaderHandler {
                    chain: Chain {
                        store: ChainStore {
                            headers: copy_vec(&self.chain.store.headers),
                            blocks: Vec::new(),
                            sums: Vec::new(),
                            head: self.chain.store.head,
                            header_head: self.chain.store.header_head,
                            sync_head: self.chain.store.sync_head,
                            tail: self.chain.store.tail,
                        },
                        txhashset: TxHashSet {
                            outputs: copy_vec(&self.chain.txhashset.outputs),
                            rproofs: Vec::new(),
                            kernels: Vec::new(),
                            header_mmr: Vec::new(),
                            block_header_mmr: copy_vec(&self.chain.txhashset.block_header_mmr),
                        },
                    },
                };
                match hh.get_header_for_output(&c) {
                    Ok(hd) => Ok(hd.hash()),
                    Err(e) => Err(e),
                }
            },
            None => Err(Error::Argument),
        }
    }
}

/// Exposes the current chain tip.
pub struct ChainApi {
    /// Committed store access.
    pub chain_store: ChainStore,
}

/// What an API endpoint supports.
pub enum Operation {
    /// A plain read.
    Get,
    /// A named custom operation.
    Custom,
}

impl ChainApi {
    /// The operations this endpoint supports.
    pub fn operations(&self) -> (r: Vec<Operation>)
        ensures
            r@ == seq![Operation::Get],
    {
        let mut v: Vec<Operation> = Vec::new();
        v.push(Operation::Get);
        assert(v@ =~= seq![Operation::Get]);
        v
    }

    /// The current best full-block tip.
    pub fn get(&self, id: &Vec<u8>) -> (r: Result<Tip, Error>)
        ensures
            r == (match self.chain_store@.head {
                Some(t) => Ok::<Tip, Error>(t),
                None => Err::<Tip, Error>(Error::Internal),
            }),
    {
        match self.chain_store.head() {
            Some(t) => Ok(t),
            None => Err(Error::Internal),
        }
    }
}

/// Exposes outputs included in the chain, by commitment.
pub struct OutputApi {
    /// Committed store access.
    pub chain_store: ChainStore,
    /// The accumulator state holding the output set.
    pub txhashset: TxHashSet,
}

impl OutputApi {
    /// The operations this endpoint supports.
    pub fn operations(&self) -> (r: Vec<Operation>)
        ensures
            r@ == seq![Operation::Get],
    {
        let mut v: Vec<Operation> = Vec::new();
        v.push(Operation::Get);
        assert(v@ =~= seq![Operation::Get]);
        v
    }

    /// Look up the unspent output carrying a hex-encoded commitment.
    pub fn get(&self, id: &Vec<u8>) -> (r: Result<OutputEntry, Error>)
        ensures
            r == (match spec_from_hex(id@) {
                None => Err::<OutputEntry, Error>(Error::Argument),
                Some(bytes) => if bytes.len() != 16 {
                    Err::<OutputEntry, Error>(Error::Argument)
                } else {
                    match first_unspent(
                        self.txhashset@.outputs,
                        Commitment { v: get_u64(bytes, 0), r: get_u64(bytes, 8) },
                    ) {
                        None => Err::<OutputEntry, Error>(Error::NotFound),
                        Some(i) => Ok::<OutputEntry, Error>(self.txhashset@.outputs[i]),
                    }
                },
            }),
    {
        let bytes = match from_hex(id) {
            None => {
                return Err(Error::Argument);
            },
            Some(b) => b,
        };
        if bytes.len() != 16 {
            return Err(Error::Argument);
        }
        let commit = match crate::ser::commitment_from_bytes(&bytes) {
            None => {
                return Err(Error::Argument);
            },
            Some(c) => c,
        };
        match find_first_unspent(&self.txhashset.outputs, commit) {
            None => Err(Error::NotFound),
            Some(i) => {
                proof {
                    crate::txhashset::lemma_first_unspent_in_range(
                        self.txhashset@.outputs,
                        commit,
                        0,
                    );
                }
                Ok(self.txhashset.outputs[i])
            },
        }
    }
}

/// A transaction pushed through the pool endpoint: its kernels, decoded
/// from the canonical wire form.
pub struct Transaction {
    /// The transaction kernels.
    pub kernels: Vec<TxKernel>,
}

/// What decoding a pushed transaction yields: a kernel count followed by
/// five words per kernel, with nothing trailing.
pub open spec fn spec_deser_tx(s: Seq<u8>) -> Option<Seq<TxKernel>> {
    if s.len() < 8 {
        None
    } else {
        let n = get_u64(s, 0);
        if s.len() != 8 + 40 * n {
            None
        } else {
            Some(
                Seq::new(
                    n as nat,
                    |k: int|
                        TxKernel {
                            excess: Commitment {
                                v: get_u64(s, 8 + 40 * k),
                                r: get_u64(s, 16 + 40 * k),
                            },
                            sig: get_u64(s, 24 + 40 * k),
                            fee: get_u64(s, 32 + 40 * k),
                            lock_height: get_u64(s, 40 + 40 * k),
                        },
                ),
            )
        }
    }
}

/// Accepts hex-encoded serialized transactions for the pool.
pub struct PoolApi {}

impl PoolApi {
    /// The operations this endpoint supports.
    pub fn operations(&self) -> (r: Vec<Operation>)
        ensures
            r@ == seq![Operation::Custom],
    {
        let mut v: Vec<Operation> = Vec::new();
        v.push(Operation::Custom);
        assert(v@ =~= seq![Operation::Custom]);
        v
    }

    /// Decode a hex-encoded serialized transaction; the decoded
    /// transaction is handed on to the mempool, which lives outside this
    /// library.
    pub fn operation(&self, op: &Vec<u8>, input: &Vec<u8>) -> (r: Result<Transaction, Error>)
        ensures
            r matches Ok(tx) ==> (match spec_from_hex(input@) {
                None => false,
                Some(bytes) => spec_deser_tx(bytes) == Some(tx.kernels@),
            }),
            r matches Err(e) ==> e == Error::Argument && (match spec_from_hex(input@) {
                None => true,
                Some(bytes) => spec_deser_tx(bytes) is None,
            }),
    {
        let bytes = match from_hex(input) {
            None => {
                return Err(Error::Argument);
            },
            Some(b) => b,
        };
        if bytes.len() < 8 {
            return Err(Error::Argument);
        }
        let n = crate::ser::read_u64(&bytes, 0);
        if n > ((usize::MAX - 8) / 40) as u64 || bytes.len() as u64 != 8 + 40 * n {
            return Err(Error::Argument);
        }
        assert(40 * (n as int) + 8 <= usize::MAX) by (nonlinear_arith)
            requires
                n as int <= ((usize::MAX - 8) as int) / 40,
        ;
        let count = n as usize;
        let mut kernels: Vec<TxKernel> = Vec::new();
        let mut k: usize = 0;
        while k < count
            invariant
                0 <= k <= count,
                count == n,
                40 * (count as int) + 8 <= usize::MAX,
                bytes@.len() == 8 + 40 * n,
                kernels@.len() == k,
                forall|q: int|
                    0 <= q < k as int ==> kernels@[q] == (TxKernel {
                        excess: Commitment {
                            v: get_u64(bytes@, 8 + 40 * q),
                            r: get_u64(bytes@, 16 + 40 * q),
                        },
                        sig: get_u64(bytes@, 24 + 40 * q),
                        fee: get_u64(bytes@, 32 + 40 * q),
                        lock_height: get_u64(bytes@, 40 + 40 * q),
                    }),
            decreases count - k,
        {
            let base = 8 + 40 * k;
            kernels.push(
                TxKernel {
                    excess: Commitment {
                        v: crate::ser::read_u64(&bytes, base),
                        r: crate::ser::read_u64(&bytes, base + 8),
                    },
                    sig: crate::ser::read_u64(&bytes, base + 16),
                    fee: crate::ser::read_u64(&bytes, base + 24),
                    lock_height: crate::ser::read_u64(&bytes, base + 32),
                },
            );
            k = k + 1;
        }
        proof {
            assert(kernels@ =~= spec_deser_tx(bytes@).unwrap());
        }
        Ok(Transaction { kernels })
    }
}

} // verus!
