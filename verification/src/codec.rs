//! The compressed vector value object of the codec.
use vstd::prelude::*;
use crate::bits::{indices_fit, pow2_small};
use crate::errors::CodecError;

verus! {

/// The bit widths the codec supports.
pub open spec fn supported_bit_width(bw: u8) -> bool {
    bw == 2 || bw == 4 || bw == 8
}

/// Returns true for the bit widths the codec supports: `{2, 4, 8}`.
pub fn is_supported_bit_width(bit_width: u8) -> (r: bool)
    ensures
        r == supported_bit_width(bit_width),
{
    bit_width == 2 || bit_width == 4 || bit_width == 8
}

/// The bytes of an optional byte vector.
pub open spec fn opt_bytes(o: Option<Vec<u8>>) -> Option<Seq<u8>> {
    match o {
        Some(v) => Some(v@),
        None => None,
    }
}

/// The mathematical content of a compressed vector.
pub struct CompressedVectorModel {
    /// One quantization index per dimension.
    pub indices: Seq<u8>,
    /// Optional residual bytes.
    pub residual: Option<Seq<u8>>,
    /// The config hash the vector was compressed under.
    pub config_hash: Seq<char>,
    /// Number of dimensions.
    pub dimension: u32,
    /// Bits per index.
    pub bit_width: u8,
}

/// A model is well formed when its bit width is supported, it has one index
/// per dimension and every index fits in the bit width.
pub open spec fn model_wf(m: CompressedVectorModel) -> bool {
    &&& supported_bit_width(m.bit_width)
    &&& m.indices.len() == m.dimension
    &&& indices_fit(m.indices, m.bit_width as nat)
}

/// Position of the first index at or after `from` that does not fit in
/// `bw` bits, or `None`.
pub open spec fn first_unfit_from(indices: Seq<u8>, bw: nat, from: int) -> Option<int>
    decreases indices.len() - from,
{
    if from < 0 || from >= indices.len() {
        None
    } else if (indices[from] as int) >= pow2_small(bw) {
        Some(from)
    } else {
        first_unfit_from(indices, bw, from + 1)
    }
}

/// What `CompressedVector::new` returns for the given parts.
pub open spec fn spec_new(
    indices: Seq<u8>,
    residual: Option<Seq<u8>>,
    config_hash: Seq<char>,
    dimension: u32,
    bit_width: u8,
) -> Result<CompressedVectorModel, CodecError> {
    if !supported_bit_width(bit_width) {
        Err(CodecError::UnsupportedBitWidth { got: bit_width })
    } else if indices.len() != dimension {
        Err(CodecError::DimensionMismatch { expected: dimension as usize, got: indices.len() as usize })
    } else {
        match first_unfit_from(indices, bit_width as nat, 0) {
            Some(i) => Err(CodecError::IndexOutOfRange { index: i as usize, value: indices[i] }),
            None => Ok(
                CompressedVectorModel {
                    indices,
                    residual,
                    config_hash,
                    dimension,
                    bit_width,
                },
            ),
        }
    }
}

proof fn lemma_first_unfit_none(indices: Seq<u8>, bw: nat, from: int)
    requires
        0 <= from <= indices.len(),
        first_unfit_from(indices, bw, from) is None,
    ensures
        forall|i: int| from <= i < indices.len() ==> (indices[i] as int) < pow2_small(bw),
    decreases indices.len() - from,
{
    if from < indices.len() {
        lemma_first_unfit_none(indices, bw, from + 1);
    }
}

proof fn lemma_first_unfit_skip(indices: Seq<u8>, bw: nat, from: int, to: int)
    requires
        0 <= from <= to <= indices.len(),
        forall|i: int| from <= i < to ==> (indices[i] as int) < pow2_small(bw),
    ensures
        first_unfit_from(indices, bw, from) == first_unfit_from(indices, bw, to),
    decreases to - from,
{
    if from < to {
        lemma_first_unfit_skip(indices, bw, from + 1, to);
    }
}

/// A well-formed model is accepted by `CompressedVector::new` unchanged.
pub proof fn lemma_new_accepts_wf(m: CompressedVectorModel)
    requires
        model_wf(m),
    ensures
        spec_new(m.indices, m.residual, m.config_hash, m.dimension, m.bit_width) == Ok::<
            CompressedVectorModel,
            CodecError,
        >(m),
{
    lemma_first_unfit_skip(m.indices, m.bit_width as nat, 0, m.indices.len() as int);
    assert(first_unfit_from(m.indices, m.bit_width as nat, m.indices.len() as int) is None);
}

/// What `CompressedVector::new` decides, check by check: a bit width other
/// than 2, 4 or 8 is refused first; then an index count that differs from
/// the dimension; then the first index that does not fit in the bit width
/// (4, 16 or 256 values), reported with its position and value, every index
/// before it fitting. Otherwise the parts are kept as given.
pub proof fn lemma_new_outcome(
    indices: Seq<u8>,
    residual: Option<Seq<u8>>,
    config_hash: Seq<char>,
    dimension: u32,
    bit_width: u8,
)
    ensures
        !(bit_width == 2 || bit_width == 4 || bit_width == 8) ==> spec_new(
            indices,
            residual,
            config_hash,
            dimension,
            bit_width,
        ) == Err::<CompressedVectorModel, CodecError>(
            CodecError::UnsupportedBitWidth { got: bit_width },
        ),
        (bit_width == 2 || bit_width == 4 || bit_width == 8) && indices.len() != dimension
            ==> spec_new(indices, residual, config_hash, dimension, bit_width) == Err::<
            CompressedVectorModel,
            CodecError,
        >(
            CodecError::DimensionMismatch {
                expected: dimension as usize,
                got: indices.len() as usize,
            },
        ),
        (bit_width == 2 || bit_width == 4 || bit_width == 8) && indices.len() == dimension ==> (
        match spec_new(indices, residual, config_hash, dimension, bit_width) {
            Ok(m) => m == CompressedVectorModel {
                indices,
                residual,
                config_hash,
                dimension,
                bit_width,
            } && forall|i: int|
                0 <= i < indices.len() ==> (#[trigger] indices[i] as int) < (if bit_width == 2 {
                    4int
                } else if bit_width == 4 {
                    16int
                } else {
                    256int
                }),
            Err(e) => e matches CodecError::IndexOutOfRange { index, value } && index < indices.len()
                && value == indices[index as int] && (value as int) >= (if bit_width == 2 {
                4int
            } else if bit_width == 4 {
                16int
            } else {
                256int
            }) && forall|i: int|
                0 <= i < index ==> (#[trigger] indices[i] as int) < (if bit_width == 2 {
                    4int
                } else if bit_width == 4 {
                    16int
                } else {
                    256int
                }),
        }),
{
    if (bit_width == 2 || bit_width == 4 || bit_width == 8) && indices.len() == dimension {
        let bw = bit_width as nat;
        match first_unfit_from(indices, bw, 0) {
            None => {
                lemma_first_unfit_none(indices, bw, 0);
            },
            Some(i) => {
                lemma_first_unfit_some(indices, bw, 0);
            },
        }
    }
}

proof fn lemma_first_unfit_some(indices: Seq<u8>, bw: nat, from: int)
    requires
        0 <= from,
        first_unfit_from(indices, bw, from) is Some,
    ensures
        ({
            let i = first_unfit_from(indices, bw, from)->0;
            &&& from <= i < indices.len()
            &&& (indices[i] as int) >= pow2_small(bw)
            &&& forall|q: int| from <= q < i ==> (indices[q] as int) < pow2_small(bw)
        }),
    decreases indices.len() - from,
{
    if (indices[from] as int) < pow2_small(bw) {
        lemma_first_unfit_some(indices, bw, from + 1);
    }
}

/// Immutable output of a codec compression pass: one quantization index per
/// dimension, an optional residual, and the hash of the config used.
#[derive(Debug)]
pub struct CompressedVector {
    indices: Vec<u8>,
    residual: Option<Vec<u8>>,
    config_hash: String,
    dimension: u32,
    bit_width: u8,
}

impl View for CompressedVector {
    type V = CompressedVectorModel;

    closed spec fn view(&self) -> CompressedVectorModel {
        CompressedVectorModel {
            indices: self.indices@,
            residual: opt_bytes(self.residual),
            config_hash: self.config_hash@,
            dimension: self.dimension,
            bit_width: self.bit_width,
        }
    }
}

impl CompressedVector {
    #[verifier::type_invariant]
    closed spec fn well_formed(self) -> bool {
        model_wf(self@)
    }

    /// Build a compressed vector, checking that the bit width is supported,
    /// that there is one index per dimension and that every index fits in
    /// the bit width.
    pub fn new(
        indices: Vec<u8>,
        residual: Option<Vec<u8>>,
        config_hash: String,
        dimension: u32,
        bit_width: u8,
    ) -> (r: Result<Self, CodecError>)
        ensures
            match r {
                Ok(cv) => spec_new(
                    indices@,
                    opt_bytes(residual),
                    config_hash@,
                    dimension,
                    bit_width,
                ) == Ok::<CompressedVectorModel, CodecError>(cv@),
                Err(e) => spec_new(
                    indices@,
                    opt_bytes(residual),
                    config_hash@,
                    dimension,
                    bit_width,
                ) == Err::<CompressedVectorModel, CodecError>(e),
            },
    {
        if !is_supported_bit_width(bit_width) {
            return Err(CodecError::UnsupportedBitWidth { got: bit_width });
        }
        if indices.len() != dimension as usize {
            return Err(CodecError::DimensionMismatch { expected: dimension as usize, got: indices.len() });
        }
        let limit: u16 = if bit_width == 2 {
            4
        } else if bit_width == 4 {
            16
        } else {
            256
        };
        let n = indices.len();
        let mut i: usize = 0;
        while i < n
            invariant
                n == indices@.len(),
                n == dimension,
                supported_bit_width(bit_width),
                0 <= i <= n,
                limit as int == pow2_small(bit_width as nat),
                forall|q: int| 0 <= q < i ==> (indices@[q] as int) < pow2_small(bit_width as nat),
            decreases n - i,
        {
            if (indices[i] as u16) >= limit {
                proof {
                    lemma_first_unfit_skip(indices@, bit_width as nat, 0, i as int);
                    assert(first_unfit_from(indices@, bit_width as nat, i as int) == Some(i as int));
                }
                return Err(CodecError::IndexOutOfRange { index: i, value: indices[i] });
            }
            i = i + 1;
        }
        proof {
            lemma_first_unfit_skip(indices@, bit_width as nat, 0, n as int);
            assert(first_unfit_from(indices@, bit_width as nat, n as int) is None);
        }
        Ok(CompressedVector { indices, residual, config_hash, dimension, bit_width })
    }

    /// The quantization indices, one per dimension.
    pub fn indices(&self) -> (r: &[u8])
        ensures
            r@ == self@.indices,
            model_wf(self@),
    {
        proof {
            use_type_invariant(self);
        }
        self.indices.as_slice()
    }

    /// The residual bytes, if any.
    pub fn residual(&self) -> (r: Option<&[u8]>)
        ensures
            match r {
                Some(s) => self@.residual == Some(s@),
                None => self@.residual is None,
            },
            model_wf(self@),
    {
        proof {
            use_type_invariant(self);
        }
        match &self.residual {
            Some(v) => Some(v.as_slice()),
            None => None,
        }
    }

    /// The config hash the vector was compressed under.
    pub fn config_hash(&self) -> (r: &str)
        ensures
            r@ == self@.config_hash,
            model_wf(self@),
    {
        proof {
            use_type_invariant(self);
        }
        self.config_hash.as_str()
    }

    /// Number of dimensions.
    pub fn dimension(&self) -> (r: u32)
        ensures
            r == self@.dimension,
            model_wf(self@),
    {
        proof {
            use_type_invariant(self);
        }
        self.dimension
    }

    /// Bits per index.
    pub fn bit_width(&self) -> (r: u8)
        ensures
            r == self@.bit_width,
            model_wf(self@),
    {
        proof {
            use_type_invariant(self);
        }
        self.bit_width
    }

    /// Whether a residual is attached.
    pub fn has_residual(&self) -> (r: bool)
        ensures
            r == self@.residual is Some,
    {
        self.residual.is_some()
    }
}

} // verus!
