//! Small byte-buffer helpers shared by the formats.
use vstd::prelude::*;
use vstd::utf8::valid_utf8;
use vstd::string::StringSliceAdditionalSpecFns;

verus! {

/// `core::str::from_utf8`: trusted to return a string exactly when the bytes
/// are valid UTF-8 (as `vstd::utf8::valid_utf8` defines it), and then a
/// string whose UTF-8 encoding is those bytes.
#[verifier::external_body]
pub(crate) fn str_from_utf8(bytes: &[u8]) -> (r: Option<&str>)
    ensures
        match r {
            Some(s) => valid_utf8(bytes@) && s.spec_bytes() == bytes@,
            None => !valid_utf8(bytes@),
        },
{
    core::str::from_utf8(bytes).ok()
}

/// Append every byte of `bytes` to `out`.
pub fn append_bytes(out: &mut Vec<u8>, bytes: &[u8])
    ensures
        final(out)@ == old(out)@ + bytes@,
{
    let n = bytes.len();
    let mut i: usize = 0;
    while i < n
        invariant
            n == bytes@.len(),
            0 <= i <= n,
            out@ == old(out)@ + bytes@.subrange(0, i as int),
        decreases n - i,
    {
        out.push(bytes[i]);
        i = i + 1;
        proof {
            assert(bytes@.subrange(0, i as int) =~= bytes@.subrange(0, i - 1).push(bytes@[i - 1]));
        }
    }
    proof {
        assert(bytes@.subrange(0, n as int) =~= bytes@);
    }
}

/// Append `count` zero bytes to `out`.
pub fn append_zeros(out: &mut Vec<u8>, count: usize)
    ensures
        final(out)@ == old(out)@ + Seq::new(count as nat, |i: int| 0u8),
{
    let mut i: usize = 0;
    while i < count
        invariant
            0 <= i <= count,
            out@ == old(out)@ + Seq::new(i as nat, |q: int| 0u8),
        decreases count - i,
    {
        out.push(0u8);
        i = i + 1;
        proof {
            assert(Seq::new(i as nat, |q: int| 0u8) =~= Seq::new((i - 1) as nat, |q: int| 0u8).push(0u8));
        }
    }
}

} // verus!
