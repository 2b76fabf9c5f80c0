//! The name sub-structure:
//! `0x02 0x27 [len] (6 reserved bytes) [real name] [separator] [display name] 0x02 0x27 .. 0x03`.

use vstd::prelude::*;
use vstd::slice::{slice_index_get, slice_subrange, slice_to_vec};
use vstd::utf8::{decode_utf8, valid_utf8};
use crate::auto_translate::MARKER_START;
use crate::part::{option_part_view, DeterminesLength, HasMarkerBytes, Part, PartView, Parses,
    VerifiesData};
use crate::scan::{find_byte, find_pair, position_of_byte, position_of_pair};
use crate::text::decode_strict;

verus! {

/// Second marker byte of a name sub-structure.
pub const NAME_MARKER: u8 = 0x27;

/// Byte that closes a name sub-structure, after its second marker.
pub const NAME_TERMINATOR: u8 = 0x03;

/// Fewest bytes a buffer must hold to be taken for a name sub-structure.
pub const NAME_MIN_LENGTH: usize = 22;

/// Offset of the length-derived byte, where the search for the closing
/// marker starts as well.
pub const NAME_LENGTH_OFFSET: usize = 2;

/// What is added to the length-derived byte to get the offset at which the
/// real name ends.
pub const NAME_LENGTH_BIAS: usize = 2;

/// Offset of the real name: the marker, the length-derived byte and six
/// reserved bytes, which are not interpreted, come before it.
pub const NAME_TEXT_OFFSET: usize = 9;

/// Decoder of name sub-structures.
#[derive(Debug)]
pub struct NamePart;

/// Long enough, and introduced by the name marker.
pub open spec fn name_valid(bytes: Seq<u8>) -> bool {
    bytes.len() >= NAME_MIN_LENGTH && bytes[0] == MARKER_START && bytes[1] == NAME_MARKER
}

/// The offset of the first terminator at or after the first name marker
/// found from offset 2 on; 0 where either is missing.
pub open spec fn name_length(bytes: Seq<u8>) -> nat {
    match find_pair(bytes, NAME_LENGTH_OFFSET as int, MARKER_START, NAME_MARKER) {
        Some(closing) => match find_byte(bytes, closing, NAME_TERMINATOR) {
            Some(terminator) => terminator as nat,
            None => 0,
        },
        None => 0,
    }
}

/// The offset at which the real name ends, as the length-derived byte gives
/// it.
pub open spec fn real_name_end(bytes: Seq<u8>) -> int
    recommends
        bytes.len() > NAME_LENGTH_OFFSET,
{
    bytes[NAME_LENGTH_OFFSET as int] as int + NAME_LENGTH_BIAS as int
}

/// The segment that the payload of `bytes` holds. The real name runs from
/// offset 9 to `real_name_end`; one separator byte follows; the display name
/// runs up to the next marker start byte. There is none where an offset
/// falls outside the buffer or before the one it follows, where no marker
/// start byte follows the real name, or where either name is not UTF-8.
pub open spec fn name_payload(bytes: Seq<u8>) -> Option<PartView> {
    if bytes.len() <= NAME_LENGTH_OFFSET {
        None
    } else {
        let real_end = real_name_end(bytes);
        if real_end < NAME_TEXT_OFFSET || real_end > bytes.len() {
            None
        } else {
            match find_byte(bytes, real_end, MARKER_START) {
                None => None,
                Some(display_end) => {
                    let real_bytes = bytes.subrange(NAME_TEXT_OFFSET as int, real_end);
                    let display_bytes = bytes.subrange(real_end + 1, display_end);
                    if display_end <= real_end || !valid_utf8(real_bytes) || !valid_utf8(display_bytes) {
                        None
                    } else {
                        Some(
                            PartView::Name {
                                real_name: decode_utf8(real_bytes),
                                display_name: decode_utf8(display_bytes),
                            },
                        )
                    }
                },
            }
        }
    }
}

impl NamePart {
    pub fn from_names(real_name: String, display_name: String) -> (r: Part)
        ensures
            r@ == (PartView::Name { real_name: real_name@, display_name: display_name@ }),
    {
        Part::Name { real_name, display_name }
    }

    /// Decodes the payload of a buffer that ends where the sub-structure
    /// ends.
    pub fn decode_payload(bytes: &[u8]) -> (r: Option<Part>)
        ensures
            option_part_view(r) == name_payload(bytes@),
    {
        if bytes.len() <= NAME_LENGTH_OFFSET {
            return None;
        }
        let real_end: usize = *slice_index_get(bytes, NAME_LENGTH_OFFSET) as usize
            + NAME_LENGTH_BIAS;
        if real_end < NAME_TEXT_OFFSET || real_end > bytes.len() {
            return None;
        }
        let display_end: usize = match position_of_byte(bytes, real_end, MARKER_START) {
            Some(i) => i,
            None => return None,
        };
        if display_end <= real_end {
            return None;
        }
        let real_name = match decode_strict(
            slice_to_vec(slice_subrange(bytes, NAME_TEXT_OFFSET, real_end)),
        ) {
            Some(text) => text,
            None => return None,
        };
        let display_name = match decode_strict(
            slice_to_vec(slice_subrange(bytes, real_end + 1, display_end)),
        ) {
            Some(text) => text,
            None => return None,
        };
        Some(Self::from_names(real_name, display_name))
    }
}

impl HasMarkerBytes for NamePart {
    open spec fn marker() -> (u8, u8) {
        (MARKER_START, NAME_MARKER)
    }

    fn marker_bytes() -> (r: (u8, u8)) {
        (MARKER_START, NAME_MARKER)
    }
}

impl VerifiesData for NamePart {
    open spec fn is_valid(bytes: Seq<u8>) -> bool {
        name_valid(bytes)
    }

    fn verify_data(bytes: &[u8]) -> (r: bool) {
        if bytes.len() < NAME_MIN_LENGTH {
            return false;
        }
        let (two, marker) = Self::marker_bytes();
        *slice_index_get(bytes, 0) == two && *slice_index_get(bytes, 1) == marker
    }
}

impl DeterminesLength for NamePart {
    open spec fn length_in(bytes: Seq<u8>) -> nat {
        name_length(bytes)
    }

    fn determine_length(bytes: &[u8]) -> (r: usize) {
        let closing: usize = match position_of_pair(
            bytes,
            NAME_LENGTH_OFFSET,
            MARKER_START,
            NAME_MARKER,
        ) {
            Some(i) => i,
            None => return 0,
        };
        match position_of_byte(bytes, closing, NAME_TERMINATOR) {
            Some(i) => i,
            None => 0,
        }
    }
}

impl Parses for NamePart {
    /// A valid buffer decodes to what its payload holds; any other to
    /// nothing.
    open spec fn parsed(bytes: Seq<u8>) -> Option<PartView> {
        if name_valid(bytes) {
            name_payload(bytes)
        } else {
            None
        }
    }

    fn parse(bytes: &[u8]) -> (r: Option<Part>) {
        if !Self::verify_data(bytes) {
            return None;
        }
        Self::decode_payload(bytes)
    }
}

} // verus!
