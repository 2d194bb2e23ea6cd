//! ASCII case mapping on bytes, as the text form of a GUID is read.

use vstd::prelude::*;

verus! {

/// The byte `b` with an ASCII capital letter replaced by its small letter.
/// Every other byte, a non-ASCII one included, is left as it is.
pub open spec fn ascii_lower(b: u8) -> u8 {
    if 0x41 <= b <= 0x5a {
        (b + 0x20) as u8
    } else {
        b
    }
}

/// The byte `b` with an ASCII small letter replaced by its capital letter.
/// Every other byte, a non-ASCII one included, is left as it is.
pub open spec fn ascii_upper(b: u8) -> u8 {
    if 0x61 <= b <= 0x7a {
        (b - 0x20) as u8
    } else {
        b
    }
}

/// The text `s` with every byte mapped by [`ascii_lower`].
pub open spec fn to_ascii_lowercase(s: Seq<u8>) -> Seq<u8> {
    Seq::new(s.len(), |i: int| ascii_lower(s[i]))
}

/// The text `s` with every byte mapped by [`ascii_upper`].
pub open spec fn to_ascii_uppercase(s: Seq<u8>) -> Seq<u8> {
    Seq::new(s.len(), |i: int| ascii_upper(s[i]))
}

} // verus!
