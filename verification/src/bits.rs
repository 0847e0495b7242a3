//! Bit-level model of the LSB-first index packing.
//!
//! A packed stream is read bit by bit: bit `k` of the stream is bit `k % 8`
//! of byte `k / 8`. Index `i` of a vector packed at `bw` bits per index owns
//! the stream bits `[i * bw, i * bw + bw)`, least significant bit first.
use vstd::prelude::*;
use vstd::arithmetic::div_mod::lemma_fundamental_div_mod_converse;
use vstd::arithmetic::mul::lemma_mul_inequality;

verus! {

/// Bit `t` (0 = least significant) of the byte `b`.
pub open spec fn bit8(b: u8, t: u8) -> bool {
    (b >> t) & 1u8 == 1u8
}

/// Bit `t` of the byte `b`, false outside `0..8`.
pub open spec fn bit_of(b: u8, t: int) -> bool {
    0 <= t < 8 && bit8(b, t as u8)
}

/// Bit `k` of the LSB-first bit stream formed by `bytes`.
pub open spec fn stream_bit(bytes: Seq<u8>, k: int) -> bool {
    0 <= k < 8 * bytes.len() && bit_of(bytes[k / 8], k % 8)
}

/// Bit `k` of the stream that packs `indices` at `bw` bits per index.
pub open spec fn index_stream_bit(indices: Seq<u8>, bw: nat, k: int) -> bool {
    bw > 0 && 0 <= k < indices.len() * bw && bit_of(indices[k / bw as int], k % bw as int)
}

/// The byte whose bits, from the least significant, are `b0 .. b7`.
pub open spec fn byte_of_bits(
    b0: bool,
    b1: bool,
    b2: bool,
    b3: bool,
    b4: bool,
    b5: bool,
    b6: bool,
    b7: bool,
) -> u8 {
    (if b0 { 1u8 } else { 0u8 }) | (if b1 { 2u8 } else { 0u8 }) | (if b2 { 4u8 } else { 0u8 }) | (
    if b3 { 8u8 } else { 0u8 }) | (if b4 { 16u8 } else { 0u8 }) | (if b5 { 32u8 } else { 0u8 }) | (
    if b6 { 64u8 } else { 0u8 }) | (if b7 { 128u8 } else { 0u8 })
}

/// Number of bytes that hold `dim` indices at `bw` bits each.
pub open spec fn packed_len(dim: nat, bw: nat) -> nat {
    (dim * bw + 7) / 8
}

/// Byte `j` of the packing of `indices` at `bw` bits per index.
pub open spec fn packed_byte(indices: Seq<u8>, bw: nat, j: int) -> u8 {
    byte_of_bits(
        index_stream_bit(indices, bw, 8 * j),
        index_stream_bit(indices, bw, 8 * j + 1),
        index_stream_bit(indices, bw, 8 * j + 2),
        index_stream_bit(indices, bw, 8 * j + 3),
        index_stream_bit(indices, bw, 8 * j + 4),
        index_stream_bit(indices, bw, 8 * j + 5),
        index_stream_bit(indices, bw, 8 * j + 6),
        index_stream_bit(indices, bw, 8 * j + 7),
    )
}

/// The LSB-first packing of `indices` at `bw` bits per index: stream bit
/// `k` is bit `k % bw` of index `k / bw`, and the padding bits are zero.
pub open spec fn spec_pack(indices: Seq<u8>, bw: nat) -> Seq<u8> {
    Seq::new(packed_len(indices.len(), bw), |j: int| packed_byte(indices, bw, j))
}

/// Bit `t` of unpacked index `i`: the stream bit `i * bw + t` for `t < bw`,
/// zero above.
pub open spec fn unpacked_bit(packed: Seq<u8>, bw: nat, i: int, t: int) -> bool {
    t < bw && stream_bit(packed, i * bw + t)
}

/// Index `i` read back from a packed stream at `bw` bits per index.
pub open spec fn unpacked_index(packed: Seq<u8>, bw: nat, i: int) -> u8 {
    byte_of_bits(
        unpacked_bit(packed, bw, i, 0),
        unpacked_bit(packed, bw, i, 1),
        unpacked_bit(packed, bw, i, 2),
        unpacked_bit(packed, bw, i, 3),
        unpacked_bit(packed, bw, i, 4),
        unpacked_bit(packed, bw, i, 5),
        unpacked_bit(packed, bw, i, 6),
        unpacked_bit(packed, bw, i, 7),
    )
}

/// The first `dim` indices of the LSB-first stream `packed`, `bw` bits each.
pub open spec fn spec_unpack(packed: Seq<u8>, dim: nat, bw: nat) -> Seq<u8> {
    Seq::new(dim, |i: int| unpacked_index(packed, bw, i))
}

/// Every index fits in `bw` bits.
pub open spec fn indices_fit(indices: Seq<u8>, bw: nat) -> bool {
    forall|i: int| 0 <= i < indices.len() ==> (indices[i] as int) < pow2_small(bw)
}

/// `2^bw` for the bit widths of a byte.
pub open spec fn pow2_small(bw: nat) -> int {
    if bw == 0 {
        1
    } else if bw == 1 {
        2
    } else if bw == 2 {
        4
    } else if bw == 3 {
        8
    } else if bw == 4 {
        16
    } else if bw == 5 {
        32
    } else if bw == 6 {
        64
    } else if bw == 7 {
        128
    } else {
        256
    }
}

/// Bit `t` of the byte built from `b0 .. b7` is `bt`.
pub proof fn lemma_byte_of_bits_bits(
    b0: bool,
    b1: bool,
    b2: bool,
    b3: bool,
    b4: bool,
    b5: bool,
    b6: bool,
    b7: bool,
)
    by (bit_vector)
    ensures
        bit8(byte_of_bits(b0, b1, b2, b3, b4, b5, b6, b7), 0) == b0,
        bit8(byte_of_bits(b0, b1, b2, b3, b4, b5, b6, b7), 1) == b1,
        bit8(byte_of_bits(b0, b1, b2, b3, b4, b5, b6, b7), 2) == b2,
        bit8(byte_of_bits(b0, b1, b2, b3, b4, b5, b6, b7), 3) == b3,
        bit8(byte_of_bits(b0, b1, b2, b3, b4, b5, b6, b7), 4) == b4,
        bit8(byte_of_bits(b0, b1, b2, b3, b4, b5, b6, b7), 5) == b5,
        bit8(byte_of_bits(b0, b1, b2, b3, b4, b5, b6, b7), 6) == b6,
        bit8(byte_of_bits(b0, b1, b2, b3, b4, b5, b6, b7), 7) == b7,
{
}

/// Two bytes with the same eight bits are equal.
pub proof fn lemma_byte_eq_from_bits(a: u8, b: u8)
    requires
        forall|t: int| 0 <= t < 8 ==> bit_of(a, t) == bit_of(b, t),
    ensures
        a == b,
{
    assert(bit_of(a, 0) == bit_of(b, 0));
    assert(bit_of(a, 1) == bit_of(b, 1));
    assert(bit_of(a, 2) == bit_of(b, 2));
    assert(bit_of(a, 3) == bit_of(b, 3));
    assert(bit_of(a, 4) == bit_of(b, 4));
    assert(bit_of(a, 5) == bit_of(b, 5));
    assert(bit_of(a, 6) == bit_of(b, 6));
    assert(bit_of(a, 7) == bit_of(b, 7));
    assert(a == b) by (bit_vector)
        requires
            bit8(a, 0) == bit8(b, 0),
            bit8(a, 1) == bit8(b, 1),
            bit8(a, 2) == bit8(b, 2),
            bit8(a, 3) == bit8(b, 3),
            bit8(a, 4) == bit8(b, 4),
            bit8(a, 5) == bit8(b, 5),
            bit8(a, 6) == bit8(b, 6),
            bit8(a, 7) == bit8(b, 7),
    ;
}

/// Bit `t` of `byte_of_bits(..)` is the `t`-th argument.
pub proof fn lemma_bit_of_byte_of_bits(f: spec_fn(int) -> bool, t: int)
    requires
        0 <= t < 8,
    ensures
        bit_of(byte_of_bits(f(0), f(1), f(2), f(3), f(4), f(5), f(6), f(7)), t) == f(t),
{
    lemma_byte_of_bits_bits(f(0), f(1), f(2), f(3), f(4), f(5), f(6), f(7));
}

/// Bits of `packed_byte`.
pub proof fn lemma_packed_byte_bit(indices: Seq<u8>, bw: nat, j: int, t: int)
    requires
        0 <= t < 8,
    ensures
        bit_of(packed_byte(indices, bw, j), t) == index_stream_bit(indices, bw, 8 * j + t),
{
    let f = |s: int| index_stream_bit(indices, bw, 8 * j + s);
    lemma_bit_of_byte_of_bits(f, t);
}

/// Bits of `unpacked_index`.
pub proof fn lemma_unpacked_index_bit(packed: Seq<u8>, bw: nat, i: int, t: int)
    requires
        0 <= t < 8,
    ensures
        bit_of(unpacked_index(packed, bw, i), t) == unpacked_bit(packed, bw, i, t),
{
    let f = |s: int| unpacked_bit(packed, bw, i, s);
    lemma_bit_of_byte_of_bits(f, t);
}

/// A value below `2^bw` has no bit at or above `bw`.
pub proof fn lemma_high_bits_zero(v: u8, bw: u8, t: u8)
    requires
        bw <= 8,
        t < 8,
        bw <= t,
        (v as int) < pow2_small(bw as nat),
    ensures
        !bit8(v, t),
{
    if bw == 0 {
        assert(v == 0);
        assert(!bit8(0u8, t)) by (bit_vector);
    } else if bw == 1 {
        assert(v < 2 && 1 <= t && t < 8 ==> !bit8(v, t)) by (bit_vector);
    } else if bw == 2 {
        assert(v < 4 && 2 <= t && t < 8 ==> !bit8(v, t)) by (bit_vector);
    } else if bw == 3 {
        assert(v < 8 && 3 <= t && t < 8 ==> !bit8(v, t)) by (bit_vector);
    } else if bw == 4 {
        assert(v < 16 && 4 <= t && t < 8 ==> !bit8(v, t)) by (bit_vector);
    } else if bw == 5 {
        assert(v < 32 && 5 <= t && t < 8 ==> !bit8(v, t)) by (bit_vector);
    } else if bw == 6 {
        assert(v < 64 && 6 <= t && t < 8 ==> !bit8(v, t)) by (bit_vector);
    } else if bw == 7 {
        assert(v < 128 && 7 <= t && t < 8 ==> !bit8(v, t)) by (bit_vector);
    }
}

/// A byte with no bit at or above `bw` is below `2^bw`.
pub proof fn lemma_no_high_bits_fits(v: u8, bw: u8)
    requires
        bw <= 8,
        forall|t: int| bw <= t < 8 ==> !bit_of(v, t),
    ensures
        (v as int) < pow2_small(bw as nat),
{
    assert(!bit_of(v, 7) || bw > 7);
    assert(!bit_of(v, 6) || bw > 6);
    assert(!bit_of(v, 5) || bw > 5);
    assert(!bit_of(v, 4) || bw > 4);
    assert(!bit_of(v, 3) || bw > 3);
    assert(!bit_of(v, 2) || bw > 2);
    assert(!bit_of(v, 1) || bw > 1);
    assert(!bit_of(v, 0) || bw > 0);
    if bw == 0 {
        assert(!bit8(v, 0) && !bit8(v, 1) && !bit8(v, 2) && !bit8(v, 3) && !bit8(v, 4) && !bit8(
            v,
            5,
        ) && !bit8(v, 6) && !bit8(v, 7) ==> v == 0) by (bit_vector);
    } else if bw == 1 {
        assert(!bit8(v, 1) && !bit8(v, 2) && !bit8(v, 3) && !bit8(v, 4) && !bit8(v, 5) && !bit8(
            v,
            6,
        ) && !bit8(v, 7) ==> v < 2) by (bit_vector);
    } else if bw == 2 {
        assert(!bit8(v, 2) && !bit8(v, 3) && !bit8(v, 4) && !bit8(v, 5) && !bit8(v, 6) && !bit8(
            v,
            7,
        ) ==> v < 4) by (bit_vector);
    } else if bw == 3 {
        assert(!bit8(v, 3) && !bit8(v, 4) && !bit8(v, 5) && !bit8(v, 6) && !bit8(v, 7) ==> v < 8)
            by (bit_vector);
    } else if bw == 4 {
        assert(!bit8(v, 4) && !bit8(v, 5) && !bit8(v, 6) && !bit8(v, 7) ==> v < 16)
            by (bit_vector);
    } else if bw == 5 {
        assert(!bit8(v, 5) && !bit8(v, 6) && !bit8(v, 7) ==> v < 32) by (bit_vector);
    } else if bw == 6 {
        assert(!bit8(v, 6) && !bit8(v, 7) ==> v < 64) by (bit_vector);
    } else if bw == 7 {
        assert(!bit8(v, 7) ==> v < 128) by (bit_vector);
    }
}

/// Within the block of index `i`, `k / bw == i` and `k % bw` is the offset.
pub proof fn lemma_in_block(k: int, i: int, bw: int)
    requires
        0 <= i,
        1 <= bw,
        i * bw <= k < i * bw + bw,
    ensures
        k / bw == i,
        k % bw == k - i * bw,
{
    lemma_fundamental_div_mod_converse(k, bw, i, k - i * bw);
}

/// Stream bit `k` belongs to byte `k / 8` at bit `k % 8`.
pub proof fn lemma_in_byte(k: int, j: int)
    requires
        0 <= j,
        8 * j <= k < 8 * j + 8,
    ensures
        k / 8 == j,
        k % 8 == k - 8 * j,
{
    lemma_fundamental_div_mod_converse(k, 8, j, k - 8 * j);
}

/// `i * bw + bw <= n * bw` for `i < n`.
pub proof fn lemma_block_below(i: int, n: int, bw: int)
    requires
        0 <= i < n,
        0 <= bw,
    ensures
        i * bw + bw <= n * bw,
{
    lemma_mul_inequality(i + 1, n, bw);
    assert((i + 1) * bw == i * bw + bw) by (nonlinear_arith);
}

/// The stream of `indices.len() * bw` bits fits in `packed_len` bytes.
pub proof fn lemma_packed_len_bound(n: nat, bw: nat)
    ensures
        n * bw <= 8 * packed_len(n, bw),
        8 * packed_len(n, bw) < n * bw + 8,
{
    let x = (n * bw) as int;
    assert(((x + 7) / 8) * 8 >= x && ((x + 7) / 8) * 8 < x + 8) by (nonlinear_arith)
        requires
            x >= 0,
    ;
}

/// Every unpacked index fits in the bit width.
pub proof fn lemma_unpack_fits(packed: Seq<u8>, dim: nat, bw: nat)
    requires
        bw <= 8,
    ensures
        indices_fit(spec_unpack(packed, dim, bw), bw),
{
    let u = spec_unpack(packed, dim, bw);
    assert forall|i: int| 0 <= i < dim implies (u[i] as int) < pow2_small(bw) by {
        assert forall|t: int| bw <= t < 8 implies !bit_of(u[i], t) by {
            lemma_unpacked_index_bit(packed, bw, i, t);
        }
        lemma_no_high_bits_fits(u[i], bw as u8);
    }
}

proof fn lemma_roundtrip_bit(indices: Seq<u8>, bw: nat, i: int, t: int)
    requires
        1 <= bw <= 8,
        indices_fit(indices, bw),
        0 <= i < indices.len(),
        0 <= t < 8,
    ensures
        bit_of(unpacked_index(spec_pack(indices, bw), bw, i), t) == bit_of(indices[i], t),
{
    let n = indices.len();
    let p = spec_pack(indices, bw);
    lemma_packed_len_bound(n, bw);
    lemma_unpacked_index_bit(p, bw, i, t);
    if t < bw {
        let k = i * bw + t;
        lemma_block_below(i, n as int, bw as int);
        lemma_in_block(k, i, bw as int);
        let j = k / 8;
        lemma_in_byte(k, j);
        assert(p[j] == packed_byte(indices, bw, j));
        lemma_packed_byte_bit(indices, bw, j, k % 8);
        assert(8 * j + k % 8 == k);
    } else {
        assert((indices[i] as int) < pow2_small(bw));
        lemma_high_bits_zero(indices[i], bw as u8, t as u8);
    }
}

/// Unpacking a packing gives back the indices: for `1 <= bw <= 8` and every
/// index below `2^bw`, `spec_unpack(spec_pack(indices, bw), n, bw) == indices`.
pub proof fn lemma_unpack_pack_roundtrip(indices: Seq<u8>, bw: nat)
    requires
        1 <= bw <= 8,
        indices_fit(indices, bw),
    ensures
        spec_unpack(spec_pack(indices, bw), indices.len(), bw) == indices,
{
    let n = indices.len();
    let p = spec_pack(indices, bw);
    let u = spec_unpack(p, n, bw);
    assert forall|i: int| 0 <= i < n implies u[i] == indices[i] by {
        assert forall|t: int| 0 <= t < 8 implies bit_of(u[i], t) == bit_of(indices[i], t) by {
            lemma_roundtrip_bit(indices, bw, i, t);
        }
        lemma_byte_eq_from_bits(u[i], indices[i]);
    }
    assert(u =~= indices);
}

} // verus!
