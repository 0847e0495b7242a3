//! Opaque metadata blob view.
use vstd::prelude::*;

verus! {

/// Opaque metadata bytes from a Level-2 TQCV header.
pub struct MetadataBlob<'a> {
    bytes: &'a [u8],
}

impl<'a> MetadataBlob<'a> {
    /// Wrap a slice as a metadata blob.
    pub fn new(bytes: &'a [u8]) -> (r: Self)
        ensures
            r.as_bytes_spec() == bytes@,
    {
        MetadataBlob { bytes }
    }

    /// The wrapped bytes.
    pub closed spec fn as_bytes_spec(&self) -> Seq<u8> {
        self.bytes@
    }

    /// Return the raw bytes.
    pub fn as_bytes(&self) -> (r: &[u8])
        ensures
            r@ == self.as_bytes_spec(),
    {
        self.bytes
    }
}

} // verus!
