//! Bit-unpacking: compact LSB-first byte stream -> unpacked u8 indices.
use vstd::prelude::*;
use crate::bits::{
    bit8, bit_of, lemma_block_below, lemma_byte_eq_from_bits, lemma_in_byte, lemma_packed_len_bound,
    lemma_unpacked_index_bit, packed_len, spec_unpack, stream_bit, unpacked_bit, unpacked_index,
};
use crate::compressed_vector::pack::low_mask;

verus! {

proof fn lemma_take_low(p: u8, off: u8, bw: u8, t: u8)
    by (bit_vector)
    requires
        off < 8,
        1 <= bw <= 7,
        off + bw <= 8,
        t < 8,
    ensures
        bit8((p >> off) & low_mask(bw), t) == if t < bw {
            bit8(p, (t + off) as u8)
        } else {
            false
        },
{
}

proof fn lemma_take_straddle(p: u8, q: u8, off: u8, fits: u8, bw: u8, t: u8)
    by (bit_vector)
    requires
        1 <= off < 8,
        off + fits == 8,
        1 <= fits < bw,
        bw <= 7,
        t < 8,
    ensures
        bit8(((p >> off) & low_mask(bw)) | ((q & low_mask((bw - fits) as u8)) << fits), t) == if t
            < fits {
            bit8(p, (t + off) as u8)
        } else if t < bw {
            bit8(q, (t - fits) as u8)
        } else {
            false
        },
{
}

proof fn lemma_mask_below(w: u8)
    by (bit_vector)
    requires
        w < 8,
    ensures
        (1u8 << w) >= 1,
        low_mask(w) == (1u8 << w) - 1,
{
}

/// The value assembled for index `i` is the index the stream holds.
proof fn lemma_unpack_elem(packed: Seq<u8>, bw: u8, i: int, lo: int, off: u8, val: u8)
    requires
        1 <= bw <= 7,
        0 <= i,
        0 <= lo,
        off < 8,
        i * bw == 8 * lo + off,
        i * bw + bw <= 8 * packed.len(),
        lo < packed.len(),
        off + bw <= 8 ==> val == ((packed[lo] >> off) & low_mask(bw)),
        off + bw > 8 ==> lo + 1 < packed.len() && val == (((packed[lo] >> off) & low_mask(bw)) | ((
        packed[lo + 1] & low_mask((bw - (8 - off)) as u8)) << ((8 - off) as u8))),
    ensures
        val == unpacked_index(packed, bw as nat, i),
{
    let target = unpacked_index(packed, bw as nat, i);
    assert forall|t: int| 0 <= t < 8 implies bit_of(val, t) == bit_of(target, t) by {
        lemma_unpacked_index_bit(packed, bw as nat, i, t);
        let k = i * bw + t;
        if off + bw <= 8 {
            lemma_take_low(packed[lo], off, bw, t as u8);
            if t < bw {
                lemma_in_byte(k, lo);
            }
        } else {
            let fits: u8 = (8 - off) as u8;
            lemma_take_straddle(packed[lo], packed[lo + 1], off, fits, bw, t as u8);
            if t < fits {
                lemma_in_byte(k, lo);
            } else if t < bw {
                lemma_in_byte(k, lo + 1);
            }
        }
        assert(unpacked_bit(packed, bw as nat, i, t) == (t < bw && stream_bit(packed, k)));
    }
    lemma_byte_eq_from_bits(val, target);
}

/// Unpack `packed` bytes into `out` (one u8 per element). The caller must
/// ensure `out.len() == dim` and `packed.len() == (dim * bit_width as usize + 7) / 8`.
pub fn unpack_indices(packed: &[u8], dim: usize, bit_width: u8, out: &mut [u8])
    requires
        old(out)@.len() == dim,
        bit_width <= 8,
        bit_width >= 1 || dim == 0,
        dim * bit_width <= u64::MAX,
        packed@.len() == packed_len(dim as nat, bit_width as nat),
    ensures
        final(out)@ == spec_unpack(packed@, dim as nat, bit_width as nat),
{
    proof {
        lemma_packed_len_bound(dim as nat, bit_width as nat);
    }
    if bit_width == 8 {
        let mut j: usize = 0;
        while j < dim
            invariant
                out@.len() == dim,
                packed@.len() == dim,
                0 <= j <= dim,
                forall|q: int| 0 <= q < j ==> out@[q] == packed@[q],
            decreases dim - j,
        {
            out[j] = packed[j];
            j = j + 1;
        }
        proof {
            assert forall|q: int| 0 <= q < dim implies out@[q] == unpacked_index(
                packed@,
                8,
                q,
            ) by {
                let target = unpacked_index(packed@, 8, q);
                assert forall|t: int| 0 <= t < 8 implies bit_of(out@[q], t) == bit_of(
                    target,
                    t,
                ) by {
                    lemma_unpacked_index_bit(packed@, 8, q, t);
                    lemma_in_byte(q * 8 + t, q);
                }
                lemma_byte_eq_from_bits(out@[q], target);
            }
            assert(out@ =~= spec_unpack(packed@, dim as nat, 8));
        }
        return ;
    }
    let bw = bit_width as u64;
    proof {
        lemma_mask_below(bit_width);
    }
    let mask: u8 = (1u8 << bit_width) - 1;
    let mut i: usize = 0;
    while i < dim
        invariant
            bw == bit_width as u64,
            1 <= bw <= 7 || dim == 0,
            mask == low_mask(bit_width),
            out@.len() == dim,
            packed@.len() == packed_len(dim as nat, bw as nat),
            dim * bw <= u64::MAX,
            dim * bw <= 8 * packed@.len(),
            0 <= i <= dim,
            forall|q: int| 0 <= q < i ==> out@[q] == unpacked_index(packed@, bw as nat, q),
        decreases dim - i,
    {
        proof {
            lemma_block_below(i as int, dim as int, bw as int);
        }
        let bit_start: u64 = (i as u64) * bw;
        let byte_lo = (bit_start / 8) as usize;
        let bit_off = (bit_start % 8) as u8;
        let fits: u8 = 8 - bit_off;
        let lo_bits = (packed[byte_lo] >> bit_off) & mask;
        let val = if bit_width > fits {
            let byte_hi = byte_lo + 1;
            proof {
                lemma_mask_below((bit_width - fits) as u8);
            }
            let hi_bits = packed[byte_hi] & ((1u8 << (bit_width - fits)) - 1);
            lo_bits | (hi_bits << fits)
        } else {
            lo_bits
        };
        proof {
            lemma_unpack_elem(packed@, bit_width, i as int, byte_lo as int, bit_off, val);
        }
        out[i] = val;
        i = i + 1;
    }
    proof {
        assert(out@ =~= spec_unpack(packed@, dim as nat, bw as nat));
    }
}

} // verus!
