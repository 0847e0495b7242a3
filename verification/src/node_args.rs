//! Argument conversions of the Node.js binding.
use vstd::prelude::*;
use vstd::string::StringExecFns;
use crate::text::{decimal, push_decimal};

verus! {

/// The message of a bit width that does not fit in a byte.
pub open spec fn bit_width_range_message(v: u32) -> Seq<char> {
    "bitWidth "@ + decimal(v as nat) + " is out of range for u8"@
}

/// Convert a JavaScript bit width to `u8`: values up to 255 convert
/// unchanged, larger ones are refused with their value in the message.
pub fn u32_to_u8_bit_width(v: u32) -> (r: Result<u8, String>)
    ensures
        v <= 255 ==> r == Ok::<u8, String>(v as u8),
        v > 255 ==> (r matches Err(m) && m@ == bit_width_range_message(v)),
{
    if v <= 255 {
        Ok(v as u8)
    } else {
        let mut msg = "bitWidth ".to_owned();
        push_decimal(&mut msg, v as usize);
        msg.append(" is out of range for u8");
        Err(msg)
    }
}

} // verus!
