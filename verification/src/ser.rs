//! Canonical serialization: headers as fixed-width little-endian words
//! with an explicit nonce-count prefix, plus hex decoding for the API
//! surface.

use vstd::prelude::*;

use crate::types::BlockHeader;
use crate::types::Commitment;
use crate::types::Error;
use crate::types::ProofOfWork;

verus! {

/// Serialized size of a header in bytes.
pub const HEADER_SER_LEN: usize = 184;

/// The little-endian bytes of one 64-bit word.
pub open spec fn u64_bytes(x: u64) -> Seq<u8> {
    seq![
        (x & 0xff) as u8,
        ((x >> 8) & 0xff) as u8,
        ((x >> 16) & 0xff) as u8,
        ((x >> 24) & 0xff) as u8,
        ((x >> 32) & 0xff) as u8,
        ((x >> 40) & 0xff) as u8,
        ((x >> 48) & 0xff) as u8,
        ((x >> 56) & 0xff) as u8,
    ]
}

/// The word read from eight little-endian bytes at an offset.
pub open spec fn get_u64(s: Seq<u8>, off: int) -> u64 {
    (s[off] as u64) | ((s[off + 1] as u64) << 8) | ((s[off + 2] as u64) << 16) | ((s[off + 3]
        as u64) << 24) | ((s[off + 4] as u64) << 32) | ((s[off + 5] as u64) << 40) | ((s[off + 6]
        as u64) << 48) | ((s[off + 7] as u64) << 56)
}

/// Reading back the written bytes of a word yields the word.
pub proof fn lemma_u64_bytes_roundtrip(x: u64)
    ensures
        get_u64(u64_bytes(x), 0) == x,
{
    assert(((x & 0xff) as u8 as u64) | ((((x >> 8) & 0xff) as u8 as u64) << 8) | ((((x >> 16)
        & 0xff) as u8 as u64) << 16) | ((((x >> 24) & 0xff) as u8 as u64) << 24) | ((((x >> 32)
        & 0xff) as u8 as u64) << 32) | ((((x >> 40) & 0xff) as u8 as u64) << 40) | ((((x >> 48)
        & 0xff) as u8 as u64) << 48) | ((((x >> 56) & 0xff) as u8 as u64) << 56) == x)
        by (bit_vector);
}

/// The flattened little-endian bytes of a word sequence.
pub open spec fn words_bytes(ws: Seq<u64>) -> Seq<u8>
    decreases ws.len(),
{
    if ws.len() == 0 {
        Seq::empty()
    } else {
        words_bytes(ws.drop_last()) + u64_bytes(ws.last())
    }
}

/// Length and byte-level contents of [`words_bytes`].
pub proof fn lemma_words_bytes_index(ws: Seq<u64>, k: int, j: int)
    requires
        0 <= k < ws.len(),
        0 <= j < 8,
    ensures
        words_bytes(ws).len() == 8 * ws.len(),
        words_bytes(ws)[8 * k + j] == u64_bytes(ws[k])[j],
    decreases ws.len(),
{
    lemma_words_bytes_len(ws);
    if k == ws.len() - 1 {
        lemma_words_bytes_len(ws.drop_last());
    } else {
        lemma_words_bytes_index(ws.drop_last(), k, j);
    }
}

/// [`words_bytes`] yields eight bytes per word.
pub proof fn lemma_words_bytes_len(ws: Seq<u64>)
    ensures
        words_bytes(ws).len() == 8 * ws.len(),
    decreases ws.len(),
{
    if ws.len() > 0 {
        lemma_words_bytes_len(ws.drop_last());
    }
}

/// Reading word `k` of a flattened word sequence yields that word.
pub proof fn lemma_words_bytes_word(ws: Seq<u64>, k: int)
    requires
        0 <= k < ws.len(),
    ensures
        get_u64(words_bytes(ws), 8 * k) == ws[k],
{
    lemma_words_bytes_index(ws, k, 0);
    lemma_words_bytes_index(ws, k, 1);
    lemma_words_bytes_index(ws, k, 2);
    lemma_words_bytes_index(ws, k, 3);
    lemma_words_bytes_index(ws, k, 4);
    lemma_words_bytes_index(ws, k, 5);
    lemma_words_bytes_index(ws, k, 6);
    lemma_words_bytes_index(ws, k, 7);
    lemma_u64_bytes_roundtrip(ws[k]);
    assert(get_u64(words_bytes(ws), 8 * k) == get_u64(u64_bytes(ws[k]), 0));
}

/// The canonical word sequence of a header: twelve scalar fields, the
/// proof-of-work parameters, the nonce count, and the nonces.
pub open spec fn header_words(h: BlockHeader) -> Seq<u64> {
    seq![
        h.version as u64,
        h.height,
        h.prev_hash,
        h.prev_root,
        h.timestamp,
        h.output_root,
        h.range_proof_root,
        h.kernel_root,
        h.total_kernel_offset,
        h.output_mmr_size,
        h.kernel_mmr_size,
        h.total_difficulty,
        h.pow.edge_bits as u64,
        h.pow.secondary_scaling as u64,
        8u64,
        h.pow.nonces[0],
        h.pow.nonces[1],
        h.pow.nonces[2],
        h.pow.nonces[3],
        h.pow.nonces[4],
        h.pow.nonces[5],
        h.pow.nonces[6],
        h.pow.nonces[7],
    ]
}

/// The canonical serialization of a header.
pub open spec fn spec_ser_header(h: BlockHeader) -> Seq<u8> {
    words_bytes(header_words(h))
}

/// What deserializing a byte sequence as a header yields: the exact
/// length and the field ranges are checked, and every other byte
/// sequence is rejected.
pub open spec fn spec_deser_header(s: Seq<u8>) -> Result<BlockHeader, Error> {
    if s.len() != HEADER_SER_LEN {
        Err(Error::Argument)
    } else if get_u64(s, 0) > u16::MAX || get_u64(s, 96) > u8::MAX || get_u64(s, 104) > u32::MAX
        || get_u64(s, 112) != 8 {
        Err(Error::Argument)
    } else {
        Ok(
            BlockHeader {
                version: get_u64(s, 0) as u16,
                height: get_u64(s, 8),
                prev_hash: get_u64(s, 16),
                prev_root: get_u64(s, 24),
                timestamp: get_u64(s, 32),
                output_root: get_u64(s, 40),
                range_proof_root: get_u64(s, 48),
                kernel_root: get_u64(s, 56),
                total_kernel_offset: get_u64(s, 64),
                output_mmr_size: get_u64(s, 72),
                kernel_mmr_size: get_u64(s, 80),
                total_difficulty: get_u64(s, 88),
                pow: ProofOfWork {
                    edge_bits: get_u64(s, 96) as u8,
                    secondary_scaling: get_u64(s, 104) as u32,
                    nonces: [
                        get_u64(s, 120),
                        get_u64(s, 128),
                        get_u64(s, 136),
                        get_u64(s, 144),
                        get_u64(s, 152),
                        get_u64(s, 160),
                        get_u64(s, 168),
                        get_u64(s, 176),
                    ],
                },
            },
        )
    }
}

/// Serializing a header and deserializing the bytes yields the header
/// back, exactly.
pub proof fn lemma_header_roundtrip(h: BlockHeader)
    ensures
        spec_deser_header(spec_ser_header(h)) == Ok::<BlockHeader, Error>(h),
{
    broadcast use vstd::array::axiom_array_ext_equal;

    let ws = header_words(h);
    let s = spec_ser_header(h);
    lemma_words_bytes_len(ws);
    assert(s.len() == HEADER_SER_LEN);
    lemma_words_bytes_word(ws, 0);
    lemma_words_bytes_word(ws, 1);
    lemma_words_bytes_word(ws, 2);
    lemma_words_bytes_word(ws, 3);
    lemma_words_bytes_word(ws, 4);
    lemma_words_bytes_word(ws, 5);
    lemma_words_bytes_word(ws, 6);
    lemma_words_bytes_word(ws, 7);
    lemma_words_bytes_word(ws, 8);
    lemma_words_bytes_word(ws, 9);
    lemma_words_bytes_word(ws, 10);
    lemma_words_bytes_word(ws, 11);
    lemma_words_bytes_word(ws, 12);
    lemma_words_bytes_word(ws, 13);
    lemma_words_bytes_word(ws, 14);
    lemma_words_bytes_word(ws, 15);
    lemma_words_bytes_word(ws, 16);
    lemma_words_bytes_word(ws, 17);
    lemma_words_bytes_word(ws, 18);
    lemma_words_bytes_word(ws, 19);
    lemma_words_bytes_word(ws, 20);
    lemma_words_bytes_word(ws, 21);
    lemma_words_bytes_word(ws, 22);
    let hd = spec_deser_header(s).unwrap();
    assert(hd.pow.nonces =~= h.pow.nonces);
    assert(hd == h);
}

/// Append one word's little-endian bytes.
fn put_u64(v: &mut Vec<u8>, x: u64)
    ensures
        final(v)@ == old(v)@ + u64_bytes(x),
{
    v.push((x & 0xff) as u8);
    v.push(((x >> 8) & 0xff) as u8);
    v.push(((x >> 16) & 0xff) as u8);
    v.push(((x >> 24) & 0xff) as u8);
    v.push(((x >> 32) & 0xff) as u8);
    v.push(((x >> 40) & 0xff) as u8);
    v.push(((x >> 48) & 0xff) as u8);
    v.push(((x >> 56) & 0xff) as u8);
    assert(v@ =~= old(v)@ + u64_bytes(x));
}

/// Read the word at a byte offset.
pub fn read_u64(v: &Vec<u8>, off: usize) -> (r: u64)
    requires
        off + 8 <= v@.len(),
    ensures
        r == get_u64(v@, off as int),
{
    let n = v.len();
    assert(off + 8 <= n);
    (v[off] as u64) | ((v[off + 1] as u64) << 8) | ((v[off + 2] as u64) << 16) | ((v[off + 3]
        as u64) << 24) | ((v[off + 4] as u64) << 32) | ((v[off + 5] as u64) << 40) | ((v[off + 6]
        as u64) << 48) | ((v[off + 7] as u64) << 56)
}

/// Serialize a header canonically.
#[verifier::rlimit(60)]
pub fn ser_header(h: &BlockHeader) -> (r: Vec<u8>)
    ensures
        r@ == spec_ser_header(*h),
{
    let ghost ws = header_words(*h);
    proof {
        assert(ws.len() == 23);
        assert(ws[0] == h.version as u64);
        assert(ws[1] == h.height);
        assert(ws[2] == h.prev_hash);
        assert(ws[3] == h.prev_root);
        assert(ws[4] == h.timestamp);
        assert(ws[5] == h.output_root);
        assert(ws[6] == h.range_proof_root);
        assert(ws[7] == h.kernel_root);
        assert(ws[8] == h.total_kernel_offset);
        assert(ws[9] == h.output_mmr_size);
        assert(ws[10] == h.kernel_mmr_size);
        assert(ws[11] == h.total_difficulty);
        assert(ws[12] == h.pow.edge_bits as u64);
        assert(ws[13] == h.pow.secondary_scaling as u64);
        assert(ws[14] == 8u64);
        assert(forall|k: int| 0 <= k < 8 ==> ws[15 + k] == h.pow.nonces[k]);
    }
    let mut v: Vec<u8> = Vec::new();
    put_u64(&mut v, h.version as u64);
    assert(v@ =~= words_bytes(ws.take(1))) by {
        assert(ws.take(1).drop_last() =~= Seq::<u64>::empty());
        assert(words_bytes(Seq::<u64>::empty()) =~= Seq::<u8>::empty());
        assert(ws.take(1).last() == ws[0]);
    };
    put_u64(&mut v, h.height);
    assert(v@ =~= words_bytes(ws.take(2))) by {
        assert(ws.take(2).drop_last() =~= ws.take(1));
    };
    put_u64(&mut v, h.prev_hash);
    assert(v@ =~= words_bytes(ws.take(3))) by {
        assert(ws.take(3).drop_last() =~= ws.take(2));
    };
    put_u64(&mut v, h.prev_root);
    assert(v@ =~= words_bytes(ws.take(4))) by {
        assert(ws.take(4).drop_last() =~= ws.take(3));
    };
    put_u64(&mut v, h.timestamp);
    assert(v@ =~= words_bytes(ws.take(5))) by {
        assert(ws.take(5).drop_last() =~= ws.take(4));
    };
    put_u64(&mut v, h.output_root);
    assert(v@ =~= words_bytes(ws.take(6))) by {
        assert(ws.take(6).drop_last() =~= ws.take(5));
    };
    put_u64(&mut v, h.range_proof_root);
    assert(v@ =~= words_bytes(ws.take(7))) by {
        assert(ws.take(7).drop_last() =~= ws.take(6));
    };
    put_u64(&mut v, h.kernel_root);
    assert(v@ =~= words_bytes(ws.take(8))) by {
        assert(ws.take(8).drop_last() =~= ws.take(7));
    };
    put_u64(&mut v, h.total_kernel_offset);
    assert(v@ =~= words_bytes(ws.take(9))) by {
        assert(ws.take(9).drop_last() =~= ws.take(8));
    };
    put_u64(&mut v, h.output_mmr_size);
    assert(v@ =~= words_bytes(ws.take(10))) by {
        assert(ws.take(10).drop_last() =~= ws.take(9));
    };
    put_u64(&mut v, h.kernel_mmr_size);
    assert(v@ =~= words_bytes(ws.take(11))) by {
        assert(ws.take(11).drop_last() =~= ws.take(10));
    };
    put_u64(&mut v, h.total_difficulty);
    assert(v@ =~= words_bytes(ws.take(12))) by {
        assert(ws.take(12).drop_last() =~= ws.take(11));
    };
    put_u64(&mut v, h.pow.edge_bits as u64);
    assert(v@ =~= words_bytes(ws.take(13))) by {
        assert(ws.take(13).drop_last() =~= ws.take(12));
    };
    put_u64(&mut v, h.pow.secondary_scaling as u64);
    assert(v@ =~= words_bytes(ws.take(14))) by {
        assert(ws.take(14).drop_last() =~= ws.take(13));
    };
    put_u64(&mut v, 8);
    assert(v@ =~= words_bytes(ws.take(15))) by {
        assert(ws.take(15).drop_last() =~= ws.take(14));
    };
    let mut i: usize = 0;
    while i < 8
        invariant
            0 <= i <= 8,
            ws == header_words(*h),
            v@ == words_bytes(ws.take(15 + i as int)),
        decreases 8 - i,
    {
        put_u64(&mut v, h.pow.nonces[i]);
        assert(v@ =~= words_bytes(ws.take(15 + i as int + 1))) by {
            assert(ws.take(15 + i as int + 1).drop_last() =~= ws.take(15 + i as int));
            assert(ws.take(15 + i as int + 1).last() == ws[15 + i as int]);
        };
        i = i + 1;
    }
    assert(ws.take(23) =~= ws);
    v
}

/// Deserialize a header from its canonical bytes, rejecting any other
/// shape.
pub fn deser_header(v: &Vec<u8>) -> (r: Result<BlockHeader, Error>)
    ensures
        r == spec_deser_header(v@),
{
    if v.len() != HEADER_SER_LEN {
        return Err(Error::Argument);
    }
    let w_version = read_u64(v, 0);
    let w_edge = read_u64(v, 96);
    let w_scaling = read_u64(v, 104);
    let w_count = read_u64(v, 112);
    if w_version > u16::MAX as u64 || w_edge > u8::MAX as u64 || w_scaling > u32::MAX as u64
        || w_count != 8 {
        return Err(Error::Argument);
    }
    Ok(
        BlockHeader {
            version: w_version as u16,
            height: read_u64(v, 8),
            prev_hash: read_u64(v, 16),
            prev_root: read_u64(v, 24),
            timestamp: read_u64(v, 32),
            output_root: read_u64(v, 40),
            range_proof_root: read_u64(v, 48),
            kernel_root: read_u64(v, 56),
            total_kernel_offset: read_u64(v, 64),
            output_mmr_size: read_u64(v, 72),
            kernel_mmr_size: read_u64(v, 80),
            total_difficulty: read_u64(v, 88),
            pow: ProofOfWork {
                edge_bits: w_edge as u8,
                secondary_scaling: w_scaling as u32,
                nonces: [
                    read_u64(v, 120),
                    read_u64(v, 128),
                    read_u64(v, 136),
                    read_u64(v, 144),
                    read_u64(v, 152),
                    read_u64(v, 160),
                    read_u64(v, 168),
                    read_u64(v, 176),
                ],
            },
        },
    )
}

/// Whether a byte is an ASCII hexadecimal digit.
pub open spec fn is_hex_digit(c: u8) -> bool {
    (48 <= c <= 57) || (97 <= c <= 102) || (65 <= c <= 70)
}

/// The value of an ASCII hexadecimal digit.
pub open spec fn hex_val(c: u8) -> u8 {
    if 48 <= c <= 57 {
        (c - 48) as u8
    } else if 97 <= c <= 102 {
        (c - 87) as u8
    } else if 65 <= c <= 70 {
        (c - 55) as u8
    } else {
        0
    }
}

/// Decoding of an even-length hex string into bytes, front first; any
/// non-digit or odd length rejects the whole string.
pub open spec fn spec_from_hex(s: Seq<u8>) -> Option<Seq<u8>>
    decreases s.len(),
{
    if s.len() % 2 != 0 {
        None
    } else if s.len() == 0 {
        Some(Seq::empty())
    } else if !is_hex_digit(s[0]) || !is_hex_digit(s[1]) {
        None
    } else {
        match spec_from_hex(s.skip(2)) {
            None => None,
            Some(r) => Some(seq![(hex_val(s[0]) * 16 + hex_val(s[1])) as u8] + r),
        }
    }
}

/// Executable hex digit test.
fn hex_digit(c: u8) -> (r: bool)
    ensures
        r == is_hex_digit(c),
{
    (48 <= c && c <= 57) || (97 <= c && c <= 102) || (65 <= c && c <= 70)
}

/// Executable hex digit value.
fn hex_digit_val(c: u8) -> (r: u8)
    ensures
        r == hex_val(c),
{
    if 48 <= c && c <= 57 {
        c - 48
    } else if 97 <= c && c <= 102 {
        c - 87
    } else if 65 <= c && c <= 70 {
        c - 55
    } else {
        0
    }
}

/// Decode a hex string into bytes.
pub fn from_hex(s: &Vec<u8>) -> (r: Option<Vec<u8>>)
    ensures
        r is Some <==> spec_from_hex(s@) is Some,
        r is Some ==> r.unwrap()@ == spec_from_hex(s@).unwrap(),
{
    if s.len() % 2 != 0 {
        return None;
    }
    let mut out: Vec<u8> = Vec::new();
    let mut i: usize = 0;
    assert(s@.skip(0) =~= s@);
    while i < s.len()
        invariant
            0 <= i <= s@.len(),
            i % 2 == 0,
            s@.len() % 2 == 0,
            spec_from_hex(s@) == (match spec_from_hex(s@.skip(i as int)) {
                None => None::<Seq<u8>>,
                Some(r) => Some(out@ + r),
            }),
        decreases s.len() - i,
    {
        assert(s@.skip(i as int)[0] == s@[i as int]);
        assert(s@.skip(i as int)[1] == s@[i as int + 1]);
        assert(s@.skip(i as int).skip(2) =~= s@.skip(i as int + 2));
        if !hex_digit(s[i]) || !hex_digit(s[i + 1]) {
            return None;
        }
        let b = hex_digit_val(s[i]) * 16 + hex_digit_val(s[i + 1]);
        out.push(b);
        proof {
            match spec_from_hex(s@.skip(i as int + 2)) {
                None => {},
                Some(r) => {
                    assert(out@ + r =~= out@.drop_last() + (seq![
                        (hex_val(s@[i as int]) * 16 + hex_val(s@[i as int + 1])) as u8,
                    ] + r));
                },
            }
        }
        i = i + 2;
    }
    assert(s@.skip(s@.len() as int) =~= Seq::<u8>::empty());
    proof {
        match spec_from_hex(s@) {
            None => {},
            Some(r) => {
                assert(out@ + Seq::<u8>::empty() =~= out@);
            },
        }
    }
    Some(out)
}

/// Build a commitment from its sixteen little-endian bytes.
pub fn commitment_from_bytes(b: &Vec<u8>) -> (r: Option<Commitment>)
    ensures
        r is Some <==> b@.len() == 16,
        r is Some ==> r.unwrap() == (Commitment { v: get_u64(b@, 0), r: get_u64(b@, 8) }),
{
    if b.len() != 16 {
        return None;
    }
    Some(Commitment { v: read_u64(b, 0), r: read_u64(b, 8) })
}

} // verus!
