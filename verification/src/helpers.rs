//! Big-endian byte packing for 16-bit instruction operands.

use vstd::prelude::*;

verus! {

/// The high byte of a 16-bit value.
pub fn get_upper_byte(num: u16) -> (r: u8)
    ensures
        r as int == num as int / 256,
{
    proof {
        assert((num >> 8) as int == num as int / 256) by (bit_vector);
    }
    (num >> 8) as u8
}

/// The low byte of a 16-bit value.
pub fn get_lower_byte(num: u16) -> (r: u8)
    ensures
        r as int == num as int % 256,
{
    proof {
        assert((num & 0x00ff) as int == num as int % 256) by (bit_vector);
    }
    (num & 0x00ff) as u8
}

/// Splits a 16-bit value into (upper, lower) bytes, big-endian order.
pub fn split_u16(num: u16) -> (r: (u8, u8))
    ensures
        r.0 as int == num as int / 256,
        r.1 as int == num as int % 256,
{
    (get_upper_byte(num), get_lower_byte(num))
}

/// Reassembles the 16-bit value whose high byte is `h` and low byte is `l`.
pub fn combine_bytes(h: u8, l: u8) -> (r: u16)
    ensures
        r as int == h as int * 256 + l as int,
{
    proof {
        let h16 = h as u16;
        let l16 = l as u16;
        assert((((h as u16) << 8) | (l as u16)) as int == h as int * 256 + l as int)
            by (bit_vector);
    }
    ((h as u16) << 8) | (l as u16)
}

} // verus!
