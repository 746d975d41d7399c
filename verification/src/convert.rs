//! Conversions between characters and the small integers they stand for.
use vstd::prelude::*;

verus! {

/// The value of a hexadecimal digit, in either case.
pub open spec fn hex_value(c: char) -> Option<u8> {
    let v = c as u32;
    if '0' as u32 <= v <= '9' as u32 {
        Some((v - '0' as u32) as u8)
    } else if 'a' as u32 <= v <= 'f' as u32 {
        Some((v - 'a' as u32 + 10) as u8)
    } else if 'A' as u32 <= v <= 'F' as u32 {
        Some((v - 'A' as u32 + 10) as u8)
    } else {
        None
    }
}

/// The value of a hexadecimal digit, in either case.
pub fn hex_char_to_u8(c: char) -> (r: Option<u8>)
    ensures
        r == hex_value(c),
        r is Some ==> r->0 < 16,
{
    let v = c as u32;
    if v >= '0' as u32 && v <= '9' as u32 {
        return Some((v - '0' as u32) as u8);
    }
    if v >= 'a' as u32 && v <= 'f' as u32 {
        return Some((v - 'a' as u32) as u8 + 10);
    }
    if v >= 'A' as u32 && v <= 'F' as u32 {
        return Some((v - 'A' as u32) as u8 + 10);
    }
    None
}

} // verus!
