//! Records: framing a raw record into header, sender and message, and
//! assembling the decoded entry.

use vstd::prelude::*;
use vstd::slice::{slice_index_get, slice_subrange, slice_to_vec};
use vstd::utf8::{decode_utf8, valid_utf8};
use byteorder::{ByteOrder, LittleEndian};
use crate::message::{message_parts, Message, MessageParser};
use crate::name::{name_payload, name_valid, NamePart};
use crate::part::{option_part_view, Part, PartView, Parses};
use crate::scan::{find_byte, lemma_find_byte, position_of_byte};
use crate::text::{decode_lossy, decode_strict, lossy_text, replace_char, replaced};

verus! {

/// Length of the header that starts every record.
pub const HEADER_LENGTH: usize = 8;

/// Offset of the sender field. The byte before it, at offset 8, is taken
/// for a delimiter and not looked at.
pub const SENDER_OFFSET: usize = 9;

/// The colon that ends the sender field.
pub const FIELD_DELIMITER: u8 = 0x3a;

/// Number of header bytes that hold the timestamp, from offset 0.
pub const TIMESTAMP_LENGTH: usize = 4;

/// Offset of the entry-type code in the header.
pub const ENTRY_TYPE_OFFSET: usize = 4;

/// One raw log record.
#[derive(Debug, Clone, PartialEq, Eq)]
pub struct RawEntry {
    pub bytes: Vec<u8>,
}

/// A record split into its three fields.
#[derive(Debug, Clone, PartialEq, Eq)]
pub struct RawEntryParts {
    pub header: Vec<u8>,
    pub sender: Vec<u8>,
    pub message: Vec<u8>,
}

/// A decoded record.
#[derive(Debug, Clone, PartialEq, Eq)]
pub struct Entry {
    pub entry_type: u8,
    pub timestamp: u32,
    pub sender: Option<Part>,
    pub message: Message,
}

/// The mathematical value of a `RawEntryParts`.
pub struct RawEntryPartsView {
    pub header: Seq<u8>,
    pub sender: Seq<u8>,
    pub message: Seq<u8>,
}

/// The mathematical value of an `Entry`.
pub struct EntryView {
    pub entry_type: u8,
    pub timestamp: u32,
    pub sender: Option<PartView>,
    pub message: Seq<PartView>,
}

impl View for RawEntry {
    type V = Seq<u8>;

    open spec fn view(&self) -> Seq<u8> {
        self.bytes@
    }
}

impl View for RawEntryParts {
    type V = RawEntryPartsView;

    open spec fn view(&self) -> RawEntryPartsView {
        RawEntryPartsView { header: self.header@, sender: self.sender@, message: self.message@ }
    }
}

impl View for Entry {
    type V = EntryView;

    open spec fn view(&self) -> EntryView {
        EntryView {
            entry_type: self.entry_type,
            timestamp: self.timestamp,
            sender: option_part_view(self.sender),
            message: self.message@,
        }
    }
}

/// The fields of a record: the first eight bytes, the bytes from offset 9 up
/// to the first colon found from there, and the bytes behind that colon.
/// There are none where no colon stands at or after offset 9, and so none in
/// a record of nine bytes or fewer.
pub open spec fn record_parts(bytes: Seq<u8>) -> Option<RawEntryPartsView> {
    match find_byte(bytes, SENDER_OFFSET as int, FIELD_DELIMITER) {
        Some(colon) => Some(
            RawEntryPartsView {
                header: bytes.take(HEADER_LENGTH as int),
                sender: bytes.subrange(SENDER_OFFSET as int, colon),
                message: bytes.skip(colon + 1),
            },
        ),
        None => None,
    }
}

/// The text of a record's message field, for reading: decoded lossily, every
/// carriage return turned into a line feed.
pub open spec fn record_text(bytes: Seq<u8>) -> Option<Seq<char>> {
    match find_byte(bytes, SENDER_OFFSET as int, FIELD_DELIMITER) {
        Some(colon) => Some(replaced(lossy_text(bytes.skip(colon + 1)), '\r', seq!['\n'])),
        None => None,
    }
}

/// The number that the first four bytes spell, least significant byte first.
pub open spec fn le_u32(bytes: Seq<u8>) -> nat
    recommends
        bytes.len() >= TIMESTAMP_LENGTH,
{
    bytes[0] as nat + bytes[1] as nat * 0x100 + bytes[2] as nat * 0x1_0000 + bytes[3] as nat
        * 0x100_0000
}

/// The identity that a sender field gives: none for an empty field; else
/// what the field decodes to as a name sub-structure; else, where the field
/// is UTF-8, that text as both names; else none.
pub open spec fn sender_of(sender: Seq<u8>) -> Option<PartView> {
    if sender.len() == 0 {
        None
    } else if name_valid(sender) && name_payload(sender).is_some() {
        name_payload(sender)
    } else if valid_utf8(sender) {
        Some(PartView::Name { real_name: decode_utf8(sender), display_name: decode_utf8(sender) })
    } else {
        None
    }
}

/// The entry that the fields of a record give.
pub open spec fn entry_of(parts: RawEntryPartsView) -> EntryView
    recommends
        parts.header.len() == HEADER_LENGTH,
{
    EntryView {
        entry_type: parts.header[ENTRY_TYPE_OFFSET as int],
        timestamp: le_u32(parts.header) as u32,
        sender: sender_of(parts.sender),
        message: message_parts(parts.message),
    }
}

/// Calls `byteorder::LittleEndian::read_u32`, which reads the first four
/// bytes of the slice and panics on a shorter one. Assumed: the result is
/// those bytes' little-endian value.
#[verifier::external_body]
pub(crate) fn read_le_u32(bytes: &[u8]) -> (r: u32)
    requires
        bytes@.len() >= 4,
    ensures
        r as nat == le_u32(bytes@),
{
    LittleEndian::read_u32(bytes)
}

impl RawEntry {
    pub fn new(bytes: Vec<u8>) -> (r: RawEntry)
        ensures
            r.bytes == bytes,
    {
        RawEntry { bytes }
    }

    /// Splits the record into header, sender and message.
    pub fn as_parts(&self) -> (r: Option<RawEntryParts>)
        ensures
            match r {
                Some(parts) => record_parts(self@) == Some(parts@) && parts.well_formed(),
                None => record_parts(self@).is_none(),
            },
            self@.len() < HEADER_LENGTH ==> r.is_none(),
    {
        let header = match self.get_header() {
            Some(h) => h,
            None => return None,
        };
        let bytes = self.bytes.as_slice();
        let colon: usize = match position_of_byte(bytes, SENDER_OFFSET, FIELD_DELIMITER) {
            Some(i) => i,
            None => return None,
        };
        let sender = slice_to_vec(slice_subrange(bytes, SENDER_OFFSET, colon));
        let end: usize = bytes.len();
        let message = slice_to_vec(slice_subrange(bytes, colon + 1, end));
        assert(self@.skip(colon + 1) =~= self@.subrange(colon + 1, self@.len() as int));
        Some(RawEntryParts { header, sender, message })
    }

    /// The first eight bytes of the record, where it has that many.
    pub fn get_header(&self) -> (r: Option<Vec<u8>>)
        ensures
            match r {
                Some(header) => self@.len() >= HEADER_LENGTH && header@ == self@.take(
                    HEADER_LENGTH as int,
                ),
                None => self@.len() < HEADER_LENGTH,
            },
    {
        if self.bytes.len() < HEADER_LENGTH {
            return None;
        }
        let header = slice_to_vec(slice_subrange(self.bytes.as_slice(), 0, HEADER_LENGTH));
        assert(self@.take(HEADER_LENGTH as int) =~= self@.subrange(0, HEADER_LENGTH as int));
        Some(header)
    }

    /// The message field as text with line feeds for carriage returns,
    /// where the record frames.
    pub fn get_text(&self) -> (r: Option<String>)
        ensures
            match r {
                Some(text) => record_text(self@) == Some(text@),
                None => record_text(self@).is_none(),
            },
    {
        let bytes = self.bytes.as_slice();
        let end: usize = bytes.len();
        let colon: usize = match position_of_byte(bytes, SENDER_OFFSET, FIELD_DELIMITER) {
            Some(i) => i,
            None => return None,
        };
        assert(self@.skip(colon + 1) =~= self@.subrange(colon + 1, self@.len() as int));
        let text = decode_lossy(slice_subrange(bytes, colon + 1, end));
        proof {
            reveal_strlit("\n");
            assert("\n"@ =~= seq!['\n']);
        }
        Some(replace_char(text.as_str(), '\r', "\n"))
    }
}

impl RawEntryParts {
    /// The header has the length that framing gives it.
    pub open spec fn well_formed(&self) -> bool {
        self.header@.len() == HEADER_LENGTH
    }

    /// Decodes the fields into an entry.
    pub fn as_entry(&self) -> (r: Entry)
        requires
            self.well_formed(),
        ensures
            r@ == entry_of(self@),
    {
        let entry_type: u8 = *slice_index_get(self.header.as_slice(), ENTRY_TYPE_OFFSET);
        let timestamp: u32 = read_le_u32(
            slice_subrange(self.header.as_slice(), 0, TIMESTAMP_LENGTH),
        );
        let sender = if self.sender.is_empty() {
            None
        } else {
            match NamePart::parse(self.sender.as_slice()) {
                Some(part) => Some(part),
                None => match decode_strict(self.sender.clone()) {
                    Some(name) => Some(NamePart::from_names(name.clone(), name)),
                    None => None,
                },
            }
        };
        let message = Message::new(MessageParser::parse(self.message.as_slice()));
        Entry { entry_type, timestamp, sender, message }
    }
}

/// The timestamp and the entry type of a framed record are read off the
/// record's own first bytes.
pub proof fn lemma_entry_header(record: Seq<u8>)
    requires
        record_parts(record).is_some(),
    ensures
        record.len() > SENDER_OFFSET,
        entry_of(record_parts(record).unwrap()).timestamp as nat == le_u32(record),
        entry_of(record_parts(record).unwrap()).entry_type == record[ENTRY_TYPE_OFFSET as int],
{
    lemma_find_byte(record, SENDER_OFFSET as int, FIELD_DELIMITER);
    lemma_le_u32_bound(record.take(HEADER_LENGTH as int));
}

/// Four bytes spell a number that a `u32` holds.
pub proof fn lemma_le_u32_bound(bytes: Seq<u8>)
    ensures
        le_u32(bytes) <= u32::MAX,
{
}

/// A record shorter than the header has no fields.
pub proof fn lemma_short_record(record: Seq<u8>)
    requires
        record.len() < HEADER_LENGTH,
    ensures
        record_parts(record).is_none(),
{
}

/// An empty sender field gives no sender.
pub proof fn lemma_empty_sender(parts: RawEntryPartsView)
    requires
        parts.sender.len() == 0,
    ensures
        entry_of(parts).sender.is_none(),
{
}

/// A sender field that is UTF-8 text and no name sub-structure gives that
/// text as both the real and the display name.
pub proof fn lemma_text_sender(parts: RawEntryPartsView)
    requires
        parts.sender.len() > 0,
        !name_valid(parts.sender),
        valid_utf8(parts.sender),
    ensures
        entry_of(parts).sender == Some(
            PartView::Name {
                real_name: decode_utf8(parts.sender),
                display_name: decode_utf8(parts.sender),
            },
        ),
{
}

/// Decoding has no hidden state: framing the same record twice and
/// assembling each result gives entries of the same value.
pub proof fn lemma_decoding_repeats(
    record: RawEntry,
    first_parts: RawEntryParts,
    second_parts: RawEntryParts,
    first: Entry,
    second: Entry,
)
    requires
        record_parts(record@) == Some(first_parts@),
        record_parts(record@) == Some(second_parts@),
        first@ == entry_of(first_parts@),
        second@ == entry_of(second_parts@),
    ensures
        first_parts@ == second_parts@,
        first@ == second@,
{
}

} // verus!
