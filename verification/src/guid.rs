//! The binary form of a GUID.

use vstd::prelude::*;
use crate::hex::hex_pair_text;

verus! {

/// A 128-bit globally unique identifier in its mixed-endian binary layout.
///
/// The first three fields hold the bytes of the corresponding text groups
/// in reverse order; the remaining fields hold them in the order of the
/// text.
#[derive(Clone, Copy, Debug, Default, Eq, PartialEq, Hash, Ord, PartialOrd)]
pub struct Guid {
    /// The low field of the timestamp.
    pub time_low: [u8; 4],
    /// The middle field of the timestamp.
    pub time_mid: [u8; 2],
    /// The high field of the timestamp multiplexed with the version number.
    pub time_high_and_version: [u8; 2],
    /// The high field of the clock sequence multiplexed with the variant.
    pub clock_seq_high_and_reserved: u8,
    /// The low field of the clock sequence.
    pub clock_seq_low: u8,
    /// The spatially unique node identifier.
    pub node: [u8; 6],
}

impl View for Guid {
    type V = Seq<u8>;

    /// The sixteen bytes of the GUID, field after field.
    open spec fn view(&self) -> Seq<u8> {
        self.time_low@ + self.time_mid@ + self.time_high_and_version@ + seq![
            self.clock_seq_high_and_reserved,
            self.clock_seq_low,
        ] + self.node@
    }
}

impl Guid {
    /// The canonical text form of the GUID: 32 small-letter hexadecimal
    /// digits in groups of 8, 4, 4, 4 and 12, with a hyphen between
    /// groups. The first three groups spell their field last byte first.
    pub open spec fn canonical_text(self) -> Seq<u8> {
        hex_pair_text(self.time_low[3]) + hex_pair_text(self.time_low[2]) + hex_pair_text(
            self.time_low[1],
        ) + hex_pair_text(self.time_low[0]) + seq![0x2du8] + hex_pair_text(self.time_mid[1])
            + hex_pair_text(self.time_mid[0]) + seq![0x2du8] + hex_pair_text(
            self.time_high_and_version[1],
        ) + hex_pair_text(self.time_high_and_version[0]) + seq![0x2du8] + hex_pair_text(
            self.clock_seq_high_and_reserved,
        ) + hex_pair_text(self.clock_seq_low) + seq![0x2du8] + hex_pair_text(self.node[0])
            + hex_pair_text(self.node[1]) + hex_pair_text(self.node[2]) + hex_pair_text(
            self.node[3],
        ) + hex_pair_text(self.node[4]) + hex_pair_text(self.node[5])
    }
}

} // verus!
