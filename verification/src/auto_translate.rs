//! The auto-translate sub-structure: `0x02 0x2E [len] [category] [id bytes]`.

use vstd::prelude::*;
use vstd::slice::{slice_index_get, slice_subrange};
use crate::part::{option_part_view, DeterminesLength, HasMarkerBytes, Part, PartView, Parses,
    VerifiesData};

verus! {

/// First byte of every sub-structure marker.
pub const MARKER_START: u8 = 0x02;

/// Second marker byte of an auto-translate sub-structure.
pub const AUTO_TRANSLATE_MARKER: u8 = 0x2e;

/// Fewest bytes a buffer must hold to be taken for an auto-translate
/// sub-structure.
pub const AUTO_TRANSLATE_MIN_LENGTH: usize = 6;

/// Offset of the payload-length byte.
pub const AUTO_TRANSLATE_LENGTH_OFFSET: usize = 2;

/// Bytes that the length byte does not count: the two marker bytes and the
/// length byte itself.
pub const AUTO_TRANSLATE_OVERHEAD: usize = 3;

/// Offset of the category byte.
pub const AUTO_TRANSLATE_CATEGORY_OFFSET: usize = 3;

/// Offset of the first id byte.
pub const AUTO_TRANSLATE_ID_OFFSET: usize = 4;

/// Decoder of auto-translate sub-structures.
pub struct AutoTranslatePart;

/// The number that `bytes` spell in base 256, most significant byte first.
pub open spec fn be_value(bytes: Seq<u8>) -> nat
    decreases bytes.len(),
{
    if bytes.len() == 0 {
        0
    } else {
        be_value(bytes.drop_last()) * 256 + bytes.last() as nat
    }
}

/// Long enough, and introduced by the auto-translate marker.
pub open spec fn auto_translate_valid(bytes: Seq<u8>) -> bool {
    bytes.len() >= AUTO_TRANSLATE_MIN_LENGTH && bytes[0] == MARKER_START && bytes[1]
        == AUTO_TRANSLATE_MARKER
}

/// The length byte plus the three bytes it does not count; 0 where the buffer
/// ends before the length byte.
pub open spec fn auto_translate_length(bytes: Seq<u8>) -> nat {
    if bytes.len() <= AUTO_TRANSLATE_LENGTH_OFFSET {
        0
    } else {
        bytes[AUTO_TRANSLATE_LENGTH_OFFSET as int] as nat + AUTO_TRANSLATE_OVERHEAD as nat
    }
}

/// The segment that the payload of `bytes` holds: the category at offset 3,
/// the id in the bytes from offset 4 up to the announced end. There is none
/// where the id bytes are missing, run past the buffer, or spell a number
/// that no `usize` holds.
pub open spec fn auto_translate_payload(bytes: Seq<u8>) -> Option<PartView> {
    let end = auto_translate_length(bytes) as int;
    if end <= AUTO_TRANSLATE_ID_OFFSET || end > bytes.len() {
        None
    } else {
        let id = be_value(bytes.subrange(AUTO_TRANSLATE_ID_OFFSET as int, end));
        if id > usize::MAX {
            None
        } else {
            Some(
                PartView::AutoTranslate {
                    category: bytes[AUTO_TRANSLATE_CATEGORY_OFFSET as int],
                    id,
                },
            )
        }
    }
}

/// A prefix spells no larger a number than the whole.
pub proof fn lemma_be_value_prefix(bytes: Seq<u8>, k: int)
    requires
        0 <= k <= bytes.len(),
    ensures
        be_value(bytes.take(k)) <= be_value(bytes),
    decreases bytes.len(),
{
    if k == bytes.len() {
        assert(bytes.take(k) =~= bytes);
    } else {
        lemma_be_value_prefix(bytes.drop_last(), k);
        assert(bytes.drop_last().take(k) =~= bytes.take(k));
    }
}

impl AutoTranslatePart {
    pub fn from_parts(category: u8, id: usize) -> (r: Part)
        ensures
            r@ == (PartView::AutoTranslate { category, id: id as nat }),
    {
        Part::AutoTranslate { category, id }
    }

    /// Big-endian value of `bytes`; none for an empty slice, nor where the
    /// value does not fit a `usize`.
    pub fn byte_array_to_be(bytes: &[u8]) -> (r: Option<usize>)
        ensures
            match r {
                Some(v) => bytes@.len() >= 1 && v as nat == be_value(bytes@),
                None => bytes@.len() == 0 || be_value(bytes@) > usize::MAX,
            },
    {
        if bytes.len() < 1 {
            return None;
        }
        let mut value: usize = 0;
        let mut i: usize = 0;
        while i < bytes.len()
            invariant
                i <= bytes.len(),
                value as nat == be_value(bytes@.take(i as int)),
            decreases bytes.len() - i,
        {
            let b: u8 = *slice_index_get(bytes, i);
            proof {
                assert(bytes@.take(i + 1).drop_last() =~= bytes@.take(i as int));
                assert(bytes@.take(i + 1).last() == b);
            }
            if value > (usize::MAX - b as usize) / 256 {
                proof {
                    assert(value * 256 + b > usize::MAX) by (nonlinear_arith)
                        requires
                            value > (usize::MAX - b) / 256,
                    ;
                    lemma_be_value_prefix(bytes@, i + 1);
                }
                return None;
            }
            assert(value * 256 + b <= usize::MAX) by (nonlinear_arith)
                requires
                    value <= (usize::MAX - b) / 256,
            ;
            value = value * 256 + b as usize;
            i = i + 1;
        }
        assert(bytes@.take(i as int) =~= bytes@);
        Some(value)
    }

    /// Decodes the payload of a buffer that ends where the sub-structure
    /// ends.
    pub fn decode_payload(bytes: &[u8]) -> (r: Option<Part>)
        ensures
            option_part_view(r) == auto_translate_payload(bytes@),
    {
        let end = Self::determine_length(bytes);
        if end <= AUTO_TRANSLATE_ID_OFFSET || end > bytes.len() {
            return None;
        }
        let category = *slice_index_get(bytes, AUTO_TRANSLATE_CATEGORY_OFFSET);
        match Self::byte_array_to_be(slice_subrange(bytes, AUTO_TRANSLATE_ID_OFFSET, end)) {
            Some(id) => Some(Self::from_parts(category, id)),
            None => None,
        }
    }
}

impl HasMarkerBytes for AutoTranslatePart {
    open spec fn marker() -> (u8, u8) {
        (MARKER_START, AUTO_TRANSLATE_MARKER)
    }

    fn marker_bytes() -> (r: (u8, u8)) {
        (MARKER_START, AUTO_TRANSLATE_MARKER)
    }
}

impl VerifiesData for AutoTranslatePart {
    open spec fn is_valid(bytes: Seq<u8>) -> bool {
        auto_translate_valid(bytes)
    }

    fn verify_data(bytes: &[u8]) -> (r: bool) {
        if bytes.len() < AUTO_TRANSLATE_MIN_LENGTH {
            return false;
        }
        let (two, marker) = Self::marker_bytes();
        *slice_index_get(bytes, 0) == two && *slice_index_get(bytes, 1) == marker
    }
}

impl DeterminesLength for AutoTranslatePart {
    open spec fn length_in(bytes: Seq<u8>) -> nat {
        auto_translate_length(bytes)
    }

    fn determine_length(bytes: &[u8]) -> (r: usize) {
        if bytes.len() <= AUTO_TRANSLATE_LENGTH_OFFSET {
            return 0;
        }
        *slice_index_get(bytes, AUTO_TRANSLATE_LENGTH_OFFSET) as usize + AUTO_TRANSLATE_OVERHEAD
    }
}

impl Parses for AutoTranslatePart {
    /// A valid buffer decodes to what its payload holds; any other to
    /// nothing.
    open spec fn parsed(bytes: Seq<u8>) -> Option<PartView> {
        if auto_translate_valid(bytes) {
            auto_translate_payload(bytes)
        } else {
            None
        }
    }

    fn parse(bytes: &[u8]) -> (r: Option<Part>) {
        if !Self::verify_data(bytes) {
            return None;
        }
        Self::decode_payload(bytes)
    }
}

} // verus!
