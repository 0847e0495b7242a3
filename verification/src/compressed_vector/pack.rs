//! Bit-packing: unpacked u8 indices -> compact LSB-first byte stream.
//!
//! For `bit_width = 2`: indices 0,1,2,3 share byte 0; index 0 in bits 0-1, index 1 in bits 2-3, etc.
//! For `bit_width = 4`: indices 0,1 share byte 0; index 0 in bits 0-3, index 1 in bits 4-7.
//! For `bit_width = 8`: plain byte copy.
use vstd::prelude::*;
use crate::bits::{
    bit8, bit_of, index_stream_bit, lemma_block_below, lemma_byte_eq_from_bits, lemma_in_block,
    lemma_in_byte, lemma_packed_byte_bit, lemma_packed_len_bound, packed_len, spec_pack, stream_bit,
};

verus! {

/// The mask of the `w` low bits of a byte.
pub open spec fn low_mask(w: u8) -> u8 {
    ((1u8 << w) - 1u8) as u8
}

/// The pack invariant after `i` indices: exactly the stream bits of the
/// first `i` indices are set as the packing prescribes.
pub open spec fn pack_prefix(packed: Seq<u8>, indices: Seq<u8>, bw: nat, i: int) -> bool {
    forall|k: int|
        0 <= k < 8 * packed.len() ==> #[trigger] stream_bit(packed, k) == (k < i * bw
            && index_stream_bit(indices, bw, k))
}

proof fn lemma_or_low(b: u8, v: u8, off: u8, w: u8, t: u8)
    by (bit_vector)
    requires
        off < 8,
        1 <= w <= 7,
        off + w <= 8,
        t < 8,
    ensures
        bit8(b | ((v & low_mask(w)) << off), t) == if off <= t && t < off + w {
            bit8(b, t) || bit8(v, (t - off) as u8)
        } else {
            bit8(b, t)
        },
{
}

proof fn lemma_or_high(b: u8, v: u8, f: u8, h: u8, t: u8)
    by (bit_vector)
    requires
        1 <= f < 8,
        1 <= h <= 7,
        f + h <= 8,
        t < 8,
    ensures
        bit8(b | ((v >> f) & low_mask(h)), t) == if t < h {
            bit8(b, t) || bit8(v, (t + f) as u8)
        } else {
            bit8(b, t)
        },
{
}

proof fn lemma_zero_byte_bits(t: u8)
    by (bit_vector)
    ensures
        !bit8(0u8, t),
{
}

proof fn lemma_mask_positive(w: u8)
    by (bit_vector)
    requires
        w < 8,
    ensures
        (1u8 << w) >= 1,
        low_mask(w) == (1u8 << w) - 1,
{
}

/// One index added to the stream: bytes `lo` (and `lo + 1` when the index
/// straddles a byte boundary) gain its bits.
proof fn lemma_pack_step(
    old: Seq<u8>,
    new: Seq<u8>,
    indices: Seq<u8>,
    bw: u8,
    i: int,
    lo: int,
    off: u8,
)
    requires
        1 <= bw <= 7,
        0 <= i < indices.len(),
        new.len() == old.len(),
        indices.len() * bw <= 8 * old.len(),
        0 <= lo,
        off < 8,
        i * bw == 8 * lo + off,
        pack_prefix(old, indices, bw as nat, i),
        lo < old.len(),
        new[lo] == (old[lo] | ((indices[i] & low_mask(
            if bw <= 8 - off {
                bw
            } else {
                (8 - off) as u8
            },
        )) << off)),
        bw > 8 - off ==> lo + 1 < old.len() && new[lo + 1] == (old[lo + 1] | ((indices[i] >> ((8
            - off) as u8)) & low_mask((bw - (8 - off)) as u8))),
        forall|j: int|
            0 <= j < old.len() && j != lo && !(bw > 8 - off && j == lo + 1) ==> new[j] == old[j],
    ensures
        pack_prefix(new, indices, bw as nat, i + 1),
{
    let idx = indices[i];
    let fits: u8 = (8 - off) as u8;
    let straddle = bw > fits;
    let w: u8 = if bw <= fits {
        bw
    } else {
        fits
    };
    let bwn = bw as nat;
    assert((i + 1) * bw == i * bw + bw) by (nonlinear_arith);
    assert forall|k: int| 0 <= k < 8 * new.len() implies #[trigger] stream_bit(new, k) == (k < (
    i + 1) * bwn && index_stream_bit(indices, bwn, k)) by {
        let j = k / 8;
        let t = k % 8;
        assert(0 <= j < new.len() && 0 <= t < 8 && k == 8 * j + t);
        assert(stream_bit(old, k) == (k < i * bw && index_stream_bit(indices, bwn, k)));
        if j == lo {
            lemma_or_low(old[lo], idx, off, w, t as u8);
            if off <= t && t < off + w {
                lemma_in_block(k, i, bw as int);
                assert(k / (bw as int) == i);
                assert(k % (bw as int) == t - off);
                assert(k < i * bw + bw);
                lemma_block_below(i, indices.len() as int, bw as int);
            } else if t < off {
                assert(k < i * bw);
            } else {
                assert(!straddle);
                assert(k >= i * bw + bw);
            }
        } else if straddle && j == lo + 1 {
            let h: u8 = (bw - fits) as u8;
            lemma_or_high(old[lo + 1], idx, fits, h, t as u8);
            if t < h {
                lemma_in_block(k, i, bw as int);
                assert(k % (bw as int) == t + fits);
                lemma_block_below(i, indices.len() as int, bw as int);
            } else {
                assert(k >= i * bw + bw);
            }
        } else {
            assert(new[j] == old[j]);
            if j < lo {
                assert(k < i * bw);
            } else {
                assert(k >= i * bw + bw);
            }
        }
    }
}

/// Bits of a byte-for-byte copy at `bw = 8`.
proof fn lemma_copy_is_pack(indices: Seq<u8>)
    requires
    ensures
        indices == spec_pack(indices, 8),
{
    let p = spec_pack(indices, 8);
    lemma_packed_len_bound(indices.len(), 8);
    assert(p.len() == indices.len());
    assert forall|j: int| 0 <= j < indices.len() implies p[j] == indices[j] by {
        assert forall|t: int| 0 <= t < 8 implies bit_of(p[j], t) == bit_of(indices[j], t) by {
            lemma_packed_byte_bit(indices, 8, j, t);
            lemma_in_block(8 * j + t, j, 8);
        }
        lemma_byte_eq_from_bits(p[j], indices[j]);
    }
    assert(indices =~= p);
}

/// Bytes that agree bit for bit with the packing are the packing.
proof fn lemma_prefix_is_pack(packed: Seq<u8>, indices: Seq<u8>, bw: nat)
    requires
        packed.len() == packed_len(indices.len(), bw),
        pack_prefix(packed, indices, bw, indices.len() as int),
    ensures
        packed == spec_pack(indices, bw),
{
    let p = spec_pack(indices, bw);
    lemma_packed_len_bound(indices.len(), bw);
    assert forall|j: int| 0 <= j < packed.len() implies packed[j] == p[j] by {
        assert forall|t: int| 0 <= t < 8 implies bit_of(packed[j], t) == bit_of(p[j], t) by {
            lemma_packed_byte_bit(indices, bw, j, t);
            lemma_in_byte(8 * j + t, j);
            assert(stream_bit(packed, 8 * j + t) == (8 * j + t < indices.len() * bw
                && index_stream_bit(indices, bw, 8 * j + t)));
        }
        lemma_byte_eq_from_bits(packed[j], p[j]);
    }
    assert(packed =~= p);
}

/// Pack `indices` (one u8 per element, values in `[0, 2^bit_width)`) into
/// the LSB-first packed representation. `packed.len()` must equal
/// `(indices.len() * bit_width as usize + 7) / 8`.
///
/// Only the low `bit_width` bits of each index are stored.
pub fn pack_indices(indices: &[u8], bit_width: u8, packed: &mut [u8])
    requires
        bit_width <= 8,
        bit_width >= 1 || indices@.len() == 0,
        indices@.len() * bit_width <= u64::MAX,
        old(packed)@.len() == packed_len(indices@.len(), bit_width as nat),
    ensures
        final(packed)@ == spec_pack(indices@, bit_width as nat),
{
    let n = indices.len();
    let len = packed.len();
    proof {
        lemma_packed_len_bound(n as nat, bit_width as nat);
    }
    if bit_width == 8 {
        let mut j: usize = 0;
        while j < len
            invariant
                len == packed@.len(),
                len == n,
                n == indices@.len(),
                0 <= j <= len,
                forall|q: int| 0 <= q < j ==> packed@[q] == indices@[q],
            decreases len - j,
        {
            packed[j] = indices[j];
            j = j + 1;
        }
        proof {
            assert(packed@ =~= indices@);
            lemma_copy_is_pack(indices@);
        }
        return ;
    }
    // Clear output.

    let mut j: usize = 0;
    while j < len
        invariant
            len == packed@.len(),
            0 <= j <= len,
            forall|q: int| 0 <= q < j ==> packed@[q] == 0,
        decreases len - j,
    {
        packed[j] = 0;
        j = j + 1;
    }
    if n == 0 {
        proof {
            assert(len == 0);
            assert(packed@ =~= spec_pack(indices@, bit_width as nat));
        }
        return ;
    }
    proof {
        assert forall|k: int| 0 <= k < 8 * packed@.len() implies #[trigger] stream_bit(
            packed@,
            k,
        ) == (k < 0 * bit_width && index_stream_bit(indices@, bit_width as nat, k)) by {
            lemma_in_byte(k, k / 8);
            assert(packed@[k / 8] == 0);
            lemma_zero_byte_bits((k % 8) as u8);
        }
    }
    let bw = bit_width as u64;
    let mut i: usize = 0;
    while i < n
        invariant
            bw == bit_width as u64,
            1 <= bw <= 7,
            n == indices@.len(),
            len == packed@.len(),
            len == packed_len(n as nat, bw as nat),
            n * bw <= u64::MAX,
            n * bw <= 8 * len,
            0 <= i <= n,
            pack_prefix(packed@, indices@, bw as nat, i as int),
        decreases n - i,
    {
        let idx = indices[i];
        proof {
            lemma_block_below(i as int, n as int, bw as int);
        }
        let bit_start: u64 = (i as u64) * bw;
        let byte_lo = (bit_start / 8) as usize;
        let bit_off = (bit_start % 8) as u8;
        // Low bits of idx that fit in byte_lo
        let fits: u8 = 8 - bit_off;
        let bwb = bit_width;
        let w: u8 = if bwb < fits {
            bwb
        } else {
            fits
        };
        proof {
            lemma_mask_positive(w);
        }
        let mask_lo: u8 = (1u8 << w) - 1;
        let ghost old_packed = packed@;
        let lo_byte = packed[byte_lo] | ((idx & mask_lo) << bit_off);
        packed[byte_lo] = lo_byte;
        if bwb > fits {
            // Overflow into the next byte
            let byte_hi = byte_lo + 1;
            let shift = fits;
            proof {
                lemma_mask_positive((bwb - fits) as u8);
            }
            let mask_hi: u8 = (1u8 << (bwb - fits)) - 1;
            let hi_byte = packed[byte_hi] | ((idx >> shift) & mask_hi);
            packed[byte_hi] = hi_byte;
        }
        proof {
            lemma_pack_step(
                old_packed,
                packed@,
                indices@,
                bit_width,
                i as int,
                byte_lo as int,
                bit_off,
            );
        }
        i = i + 1;
    }
    proof {
        lemma_prefix_is_pack(packed@, indices@, bw as nat);
    }
}

} // verus!
