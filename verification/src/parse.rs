//! The layout parser: from the 36-character text form to a [`Guid`].

use vstd::prelude::*;
use vstd::string::StringSliceAdditionalSpecFns;
use crate::error::GuidFromStrError;
use crate::guid::Guid;
use crate::ascii::{ascii_lower, ascii_upper, to_ascii_lowercase, to_ascii_uppercase};
use crate::hex::{
    hex_digit_value, hex_pair_text, hex_pair_value, is_hex_digit, lemma_case_keeps_hex_digit,
    lemma_hex_pair_round_trip, parse_byte_from_ascii_str_at,
};

verus! {

/// True for the four positions of the text form that hold a hyphen.
pub open spec fn is_separator_index(i: int) -> bool {
    i == 8 || i == 13 || i == 18 || i == 23
}

/// True when `s` has the canonical text form of a GUID: 36 bytes, a hyphen
/// at each separator position and a hexadecimal digit at every other one.
pub open spec fn is_guid_text(s: Seq<u8>) -> bool {
    &&& s.len() == 36
    &&& forall|i: int|
        0 <= i < 36 ==> if is_separator_index(i) {
            #[trigger] s[i] == 0x2d
        } else {
            is_hex_digit(s[i])
        }
}

/// The byte spelled by the two digits of `s` at `k` and `k + 1`.
pub open spec fn text_byte(s: Seq<u8>, k: int) -> u8 {
    hex_pair_value(s[k], s[k + 1]) as u8
}

/// The GUID that a text of canonical form denotes.
///
/// Each byte of a field is spelled by one pair of digits. The first three
/// groups of the text are stored last pair first, the last two groups in
/// the order of the text.
pub open spec fn guid_of_text(s: Seq<u8>) -> Guid {
    Guid {
        time_low: [text_byte(s, 6), text_byte(s, 4), text_byte(s, 2), text_byte(s, 0)],
        time_mid: [text_byte(s, 11), text_byte(s, 9)],
        time_high_and_version: [text_byte(s, 16), text_byte(s, 14)],
        clock_seq_high_and_reserved: text_byte(s, 19),
        clock_seq_low: text_byte(s, 21),
        node: [
            text_byte(s, 24),
            text_byte(s, 26),
            text_byte(s, 28),
            text_byte(s, 30),
            text_byte(s, 32),
            text_byte(s, 34),
        ],
    }
}

/// What parsing returns for the bytes `s`: the GUID they denote when they
/// have the canonical form, and the error otherwise.
pub open spec fn parse_guid_text(s: Seq<u8>) -> Result<Guid, GuidFromStrError> {
    if is_guid_text(s) {
        Ok(guid_of_text(s))
    } else {
        Err(GuidFromStrError)
    }
}

/// Parses the canonical text form `xxxxxxxx-xxxx-xxxx-xxxx-xxxxxxxxxxxx`
/// of a GUID. The text is read as bytes; digits may be of either case.
pub fn try_parse_guid(s: &str) -> (r: Result<Guid, GuidFromStrError>)
    ensures
        r == parse_guid_text(s.spec_bytes()),
        s.spec_bytes().len() != 36 ==> r is Err,
        (exists|i: int| is_separator_index(i) && s.spec_bytes()[i] != 0x2d) ==> r is Err,
        (exists|i: int|
            0 <= i < 36 && !is_separator_index(i) && !is_hex_digit(#[trigger] s.spec_bytes()[i]))
            ==> r is Err,
{
    // Treat input as ASCII.
    let s = s.as_bytes();

    if s.len() != 36 {
        return Err(GuidFromStrError);
    }
    let sep: u8 = 0x2d;
    if s[8] != sep || s[13] != sep || s[18] != sep || s[23] != sep {
        return Err(GuidFromStrError);
    }
    let time_low_0: u8 = match parse_byte_from_ascii_str_at(s, 6) {
        Ok(v) => v,
        Err(e) => {
            return Err(e);
        },
    };
    let time_low_1: u8 = match parse_byte_from_ascii_str_at(s, 4) {
        Ok(v) => v,
        Err(e) => {
            return Err(e);
        },
    };
    let time_low_2: u8 = match parse_byte_from_ascii_str_at(s, 2) {
        Ok(v) => v,
        Err(e) => {
            return Err(e);
        },
    };
    let time_low_3: u8 = match parse_byte_from_ascii_str_at(s, 0) {
        Ok(v) => v,
        Err(e) => {
            return Err(e);
        },
    };
    let time_mid_0: u8 = match parse_byte_from_ascii_str_at(s, 11) {
        Ok(v) => v,
        Err(e) => {
            return Err(e);
        },
    };
    let time_mid_1: u8 = match parse_byte_from_ascii_str_at(s, 9) {
        Ok(v) => v,
        Err(e) => {
            return Err(e);
        },
    };
    let time_high_0: u8 = match parse_byte_from_ascii_str_at(s, 16) {
        Ok(v) => v,
        Err(e) => {
            return Err(e);
        },
    };
    let time_high_1: u8 = match parse_byte_from_ascii_str_at(s, 14) {
        Ok(v) => v,
        Err(e) => {
            return Err(e);
        },
    };
    let clock_seq_high: u8 = match parse_byte_from_ascii_str_at(s, 19) {
        Ok(v) => v,
        Err(e) => {
            return Err(e);
        },
    };
    let clock_seq_low: u8 = match parse_byte_from_ascii_str_at(s, 21) {
        Ok(v) => v,
        Err(e) => {
            return Err(e);
        },
    };
    let node_0: u8 = match parse_byte_from_ascii_str_at(s, 24) {
        Ok(v) => v,
        Err(e) => {
            return Err(e);
        },
    };
    let node_1: u8 = match parse_byte_from_ascii_str_at(s, 26) {
        Ok(v) => v,
        Err(e) => {
            return Err(e);
        },
    };
    let node_2: u8 = match parse_byte_from_ascii_str_at(s, 28) {
        Ok(v) => v,
        Err(e) => {
            return Err(e);
        },
    };
    let node_3: u8 = match parse_byte_from_ascii_str_at(s, 30) {
        Ok(v) => v,
        Err(e) => {
            return Err(e);
        },
    };
    let node_4: u8 = match parse_byte_from_ascii_str_at(s, 32) {
        Ok(v) => v,
        Err(e) => {
            return Err(e);
        },
    };
    let node_5: u8 = match parse_byte_from_ascii_str_at(s, 34) {
        Ok(v) => v,
        Err(e) => {
            return Err(e);
        },
    };
    let guid = Guid {
        time_low: [time_low_0, time_low_1, time_low_2, time_low_3],
        time_mid: [time_mid_0, time_mid_1],
        time_high_and_version: [time_high_0, time_high_1],
        clock_seq_high_and_reserved: clock_seq_high,
        clock_seq_low,
        node: [node_0, node_1, node_2, node_3, node_4, node_5],
    };
    Ok(guid)
}

/// The offset in the text of the digit pair that spells byte `i` of the
/// sixteen bytes of a GUID.
pub open spec fn pair_offset(i: int) -> int {
    if i < 4 {
        6 - 2 * i
    } else if i < 6 {
        19 - 2 * i
    } else if i < 8 {
        28 - 2 * i
    } else if i < 10 {
        3 + 2 * i
    } else {
        4 + 2 * i
    }
}

/// Parsing does not depend on the case of the digits: a text, its
/// upper-case form and its lower-case form all parse to the same result.
pub proof fn lemma_parse_ignores_case(s: Seq<u8>)
    ensures
        parse_guid_text(to_ascii_uppercase(s)) == parse_guid_text(s),
        parse_guid_text(to_ascii_lowercase(s)) == parse_guid_text(s),
{
    let up = to_ascii_uppercase(s);
    let low = to_ascii_lowercase(s);
    assert forall|i: int| 0 <= i < s.len() implies {
        &&& is_hex_digit(#[trigger] up[i]) == is_hex_digit(s[i])
        &&& is_hex_digit(#[trigger] low[i]) == is_hex_digit(s[i])
        &&& hex_digit_value(up[i]) == hex_digit_value(s[i])
        &&& hex_digit_value(low[i]) == hex_digit_value(s[i])
        &&& (up[i] == 0x2d) == (s[i] == 0x2d)
        &&& (low[i] == 0x2d) == (s[i] == 0x2d)
    } by {
        lemma_case_keeps_hex_digit(s[i]);
    }
    if is_guid_text(s) {
        assert(is_guid_text(up));
        assert(is_guid_text(low));
        assert(guid_of_text(up) == guid_of_text(s));
        assert(guid_of_text(low) == guid_of_text(s));
    } else if s.len() == 36 {
        let i = choose|i: int|
            0 <= i < 36 && !(if is_separator_index(i) {
                #[trigger] s[i] == 0x2d
            } else {
                is_hex_digit(s[i])
            });
        assert(up[i] == ascii_upper(s[i]));
        assert(low[i] == ascii_lower(s[i]));
    }
}

/// A text of 36 bytes is its digit pairs and separators, joined in order.
proof fn lemma_text_is_joined_pieces(t: Seq<u8>)
    requires
        t.len() == 36,
    ensures
        t == t.subrange(0, 2)
            + t.subrange(2, 4)
            + t.subrange(4, 6)
            + t.subrange(6, 8)
            + t.subrange(8, 9)
            + t.subrange(9, 11)
            + t.subrange(11, 13)
            + t.subrange(13, 14)
            + t.subrange(14, 16)
            + t.subrange(16, 18)
            + t.subrange(18, 19)
            + t.subrange(19, 21)
            + t.subrange(21, 23)
            + t.subrange(23, 24)
            + t.subrange(24, 26)
            + t.subrange(26, 28)
            + t.subrange(28, 30)
            + t.subrange(30, 32)
            + t.subrange(32, 34)
            + t.subrange(34, 36),
{
    assert(t.subrange(0, 2) + t.subrange(2, 4) =~= t.subrange(0, 4));
    assert(t.subrange(0, 4) + t.subrange(4, 6) =~= t.subrange(0, 6));
    assert(t.subrange(0, 6) + t.subrange(6, 8) =~= t.subrange(0, 8));
    assert(t.subrange(0, 8) + t.subrange(8, 9) =~= t.subrange(0, 9));
    assert(t.subrange(0, 9) + t.subrange(9, 11) =~= t.subrange(0, 11));
    assert(t.subrange(0, 11) + t.subrange(11, 13) =~= t.subrange(0, 13));
    assert(t.subrange(0, 13) + t.subrange(13, 14) =~= t.subrange(0, 14));
    assert(t.subrange(0, 14) + t.subrange(14, 16) =~= t.subrange(0, 16));
    assert(t.subrange(0, 16) + t.subrange(16, 18) =~= t.subrange(0, 18));
    assert(t.subrange(0, 18) + t.subrange(18, 19) =~= t.subrange(0, 19));
    assert(t.subrange(0, 19) + t.subrange(19, 21) =~= t.subrange(0, 21));
    assert(t.subrange(0, 21) + t.subrange(21, 23) =~= t.subrange(0, 23));
    assert(t.subrange(0, 23) + t.subrange(23, 24) =~= t.subrange(0, 24));
    assert(t.subrange(0, 24) + t.subrange(24, 26) =~= t.subrange(0, 26));
    assert(t.subrange(0, 26) + t.subrange(26, 28) =~= t.subrange(0, 28));
    assert(t.subrange(0, 28) + t.subrange(28, 30) =~= t.subrange(0, 30));
    assert(t.subrange(0, 30) + t.subrange(30, 32) =~= t.subrange(0, 32));
    assert(t.subrange(0, 32) + t.subrange(32, 34) =~= t.subrange(0, 34));
    assert(t.subrange(0, 34) + t.subrange(34, 36) =~= t.subrange(0, 36));
    assert(t.subrange(0, 36) =~= t);
}

/// In a text of canonical form, the digit pair at an offset `k` spells a
/// byte whose own spelling is the pair in lower case, and each separator
/// stays a hyphen in lower case.
proof fn lemma_pieces_in_lower_case(s: Seq<u8>)
    requires
        is_guid_text(s),
    ensures
        forall|k: int|
            0 <= k < 35 && !is_separator_index(k) && !is_separator_index(k + 1)
                ==> #[trigger] hex_pair_text(text_byte(s, k)) == to_ascii_lowercase(s).subrange(
                k,
                k + 2,
            ),
        forall|k: int|
            is_separator_index(k) ==> seq![0x2du8] == #[trigger] to_ascii_lowercase(s).subrange(
                k,
                k + 1,
            ),
{
    let low = to_ascii_lowercase(s);
    assert forall|k: int| 0 <= k < 35 && !is_separator_index(k) && !is_separator_index(k + 1)
        implies #[trigger] hex_pair_text(text_byte(s, k)) == low.subrange(k, k + 2) by {
        lemma_hex_pair_round_trip(s[k], s[k + 1]);
        assert(low.subrange(k, k + 2) =~= seq![ascii_lower(s[k]), ascii_lower(s[k + 1])]);
    }
    assert forall|k: int| is_separator_index(k) implies seq![0x2du8] == #[trigger] low.subrange(
        k,
        k + 1,
    ) by {
        assert(s[k] == 0x2d);
        assert(low.subrange(k, k + 1) =~= seq![0x2du8]);
    }
}

/// Writing the parsed GUID back in canonical form gives the text that was
/// parsed, in lower case.
pub proof fn lemma_canonical_text_round_trip(s: Seq<u8>)
    requires
        is_guid_text(s),
    ensures
        guid_of_text(s).canonical_text() == to_ascii_lowercase(s),
{
    let g = guid_of_text(s);
    let t = to_ascii_lowercase(s);
    lemma_pieces_in_lower_case(s);
    lemma_text_is_joined_pieces(t);
    assert(hex_pair_text(g.time_low[3]) == t.subrange(0, 2));
    assert(hex_pair_text(g.time_low[2]) == t.subrange(2, 4));
    assert(hex_pair_text(g.time_low[1]) == t.subrange(4, 6));
    assert(hex_pair_text(g.time_low[0]) == t.subrange(6, 8));
    assert(seq![0x2du8] == t.subrange(8, 9));
    assert(hex_pair_text(g.time_mid[1]) == t.subrange(9, 11));
    assert(hex_pair_text(g.time_mid[0]) == t.subrange(11, 13));
    assert(seq![0x2du8] == t.subrange(13, 14));
    assert(hex_pair_text(g.time_high_and_version[1]) == t.subrange(14, 16));
    assert(hex_pair_text(g.time_high_and_version[0]) == t.subrange(16, 18));
    assert(seq![0x2du8] == t.subrange(18, 19));
    assert(hex_pair_text(g.clock_seq_high_and_reserved) == t.subrange(19, 21));
    assert(hex_pair_text(g.clock_seq_low) == t.subrange(21, 23));
    assert(seq![0x2du8] == t.subrange(23, 24));
    assert(hex_pair_text(g.node[0]) == t.subrange(24, 26));
    assert(hex_pair_text(g.node[1]) == t.subrange(26, 28));
    assert(hex_pair_text(g.node[2]) == t.subrange(28, 30));
    assert(hex_pair_text(g.node[3]) == t.subrange(30, 32));
    assert(hex_pair_text(g.node[4]) == t.subrange(32, 34));
    assert(hex_pair_text(g.node[5]) == t.subrange(34, 36));
}

/// Byte `i` of the sixteen bytes of a parsed GUID is spelled by the digit
/// pair at `pair_offset(i)` in the text.
pub proof fn lemma_view_follows_layout(s: Seq<u8>)
    ensures
        guid_of_text(s)@.len() == 16,
        forall|i: int| 0 <= i < 16 ==> #[trigger] guid_of_text(s)@[i] == text_byte(s, pair_offset(i)),
{
    let g = guid_of_text(s);
    let a = g.time_low@;
    let b = a + g.time_mid@;
    let c = b + g.time_high_and_version@;
    let d = c + seq![g.clock_seq_high_and_reserved, g.clock_seq_low];
    let e = d + g.node@;
    assert(a =~= seq![text_byte(s, 6), text_byte(s, 4), text_byte(s, 2), text_byte(s, 0)]);
    assert(b =~= a + seq![text_byte(s, 11), text_byte(s, 9)]);
    assert(c =~= b + seq![text_byte(s, 16), text_byte(s, 14)]);
    assert(d =~= c + seq![text_byte(s, 19), text_byte(s, 21)]);
    assert(e =~= d + seq![
        text_byte(s, 24),
        text_byte(s, 26),
        text_byte(s, 28),
        text_byte(s, 30),
        text_byte(s, 32),
        text_byte(s, 34),
    ]);
    assert(g@ == e);
    assert forall|i: int| 0 <= i < 16 implies #[trigger] e[i] == text_byte(s, pair_offset(i)) by {
        if i < 4 {
            assert(e[i] == a[i]);
        } else if i < 6 {
            assert(e[i] == b[i]);
        } else if i < 8 {
            assert(e[i] == c[i]);
        } else if i < 10 {
            assert(e[i] == d[i]);
        }
    }
}

} // verus!
