//! The message scanner: plain text with embedded sub-structures, split into
//! segments.

use vstd::prelude::*;
use vstd::slice::{slice_index_get, slice_subrange};
use vstd::string::StringExecFns;
use crate::auto_translate::{auto_translate_length, auto_translate_payload, auto_translate_valid,
    AutoTranslatePart, AUTO_TRANSLATE_MARKER, MARKER_START};
use crate::name::{name_length, name_payload, name_valid, NamePart, NAME_LENGTH_OFFSET, NAME_MARKER,
    NAME_TERMINATOR};
use crate::part::{joined_display, parts_view, DeterminesLength, HasDisplayText, Part, PartView,
    VerifiesData};
use crate::scan::{find_pair, lemma_find_byte, lemma_find_pair};
use crate::text::{decode_lossy, lossy_text};

verus! {

/// The decoded body of a message: its segments in the order of the bytes.
#[derive(Debug, Clone, PartialEq, Eq)]
pub struct Message {
    pub parts: Vec<Part>,
}

impl View for Message {
    type V = Seq<PartView>;

    open spec fn view(&self) -> Seq<PartView> {
        parts_view(self.parts@)
    }
}

impl Message {
    pub fn new(parts: Vec<Part>) -> (r: Message)
        ensures
            r.parts == parts,
            r@ == parts_view(parts@),
    {
        Message { parts }
    }
}

impl HasDisplayText for Message {
    open spec fn display_model(&self) -> Seq<char> {
        joined_display(self@)
    }

    fn display_text(&self) -> (r: String) {
        let mut out = String::new();
        let mut i: usize = 0;
        while i < self.parts.len()
            invariant
                i <= self.parts@.len(),
                out@ == joined_display(self@.take(i as int)),
            decreases self.parts.len() - i,
        {
            let text = self.parts[i].display_text();
            out.append(text.as_str());
            proof {
                assert(self@.take(i + 1).drop_last() =~= self@.take(i as int));
                assert(self@.take(i + 1).last() == self.parts@[i as int]@);
            }
            i = i + 1;
        }
        assert(self@.take(i as int) =~= self@);
        out
    }
}

/// Maker of plain-text segments.
pub struct PlainTextPart;

impl PlainTextPart {
    pub fn new(text: String) -> (r: Part)
        ensures
            r@ == PartView::PlainText(text@),
    {
        Part::PlainText(text)
    }
}

/// The name sub-structure that starts `message`, with its length: the
/// buffer is valid, a length is found, and the bytes up to that length
/// decode.
pub open spec fn name_structure(message: Seq<u8>) -> Option<(nat, PartView)> {
    let length = name_length(message);
    if !name_valid(message) || length == 0 || length > message.len() {
        None
    } else {
        match name_payload(message.take(length as int)) {
            Some(part) => Some((length, part)),
            None => None,
        }
    }
}

/// The auto-translate sub-structure that starts `message`, with its length:
/// the buffer is valid, the announced length fits, and the bytes up to that
/// length decode.
pub open spec fn auto_translate_structure(message: Seq<u8>) -> Option<(nat, PartView)> {
    let length = auto_translate_length(message);
    if !auto_translate_valid(message) || length == 0 || length > message.len() {
        None
    } else {
        match auto_translate_payload(message.take(length as int)) {
            Some(part) => Some((length, part)),
            None => None,
        }
    }
}

/// The sub-structure that starts `message`, chosen by its second byte.
pub open spec fn structure_at(message: Seq<u8>) -> Option<(nat, PartView)> {
    if message.len() < 2 {
        None
    } else if message[1] == NAME_MARKER {
        name_structure(message)
    } else if message[1] == AUTO_TRANSLATE_MARKER {
        auto_translate_structure(message)
    } else {
        None
    }
}

/// The sub-structure that the scanner takes at index `i`: there is one only
/// at a marker start byte.
pub open spec fn structure_here(message: Seq<u8>, i: int) -> Option<(nat, PartView)> {
    if message[i] == MARKER_START {
        structure_at(message.skip(i))
    } else {
        None
    }
}

/// The segment that a run of literal bytes becomes: none for an empty run.
pub open spec fn flushed(run: Seq<u8>) -> Seq<PartView> {
    if run.len() == 0 {
        Seq::empty()
    } else {
        seq![PartView::PlainText(lossy_text(run))]
    }
}

/// The segments of `message` from index `i` on, `run` being the literal
/// bytes gathered before `i`. A sub-structure ends the run, contributes its
/// segment, and is skipped together with the one byte that follows it; any
/// other byte joins the run.
pub open spec fn scan_from(message: Seq<u8>, i: int, run: Seq<u8>) -> Seq<PartView>
    decreases message.len() + 1 - i,
{
    if i < 0 || i >= message.len() {
        flushed(run)
    } else {
        match structure_here(message, i) {
            Some(found) => flushed(run) + seq![found.1] + scan_from(
                message,
                i + found.0 + 1,
                Seq::empty(),
            ),
            None => scan_from(message, i + 1, run.push(message[i])),
        }
    }
}

/// The segments of a whole message.
pub open spec fn message_parts(message: Seq<u8>) -> Seq<PartView> {
    scan_from(message, 0, Seq::empty())
}

/// Scanner of message bodies.
pub struct MessageParser;

impl MessageParser {
    /// Splits `message` into its segments. Never fails: what does not decode
    /// as a sub-structure is plain text.
    pub fn parse(message: &[u8]) -> (r: Vec<Part>)
        ensures
            parts_view(r@) == message_parts(message@),
    {
        let mut parts: Vec<Part> = Vec::new();
        let mut run: Vec<u8> = Vec::new();
        let mut i: usize = 0;
        assert(parts_view(parts@) + message_parts(message@) =~= message_parts(message@));
        while i < message.len()
            invariant
                i <= message.len(),
                parts_view(parts@) + scan_from(message@, i as int, run@) == message_parts(
                    message@,
                ),
            decreases message.len() - i,
        {
            let byte: u8 = *slice_index_get(message, i);
            let found = if byte == MARKER_START {
                Self::parse_structure(slice_subrange(message, i, message.len()))
            } else {
                None
            };
            assert(message@.skip(i as int) =~= message@.subrange(i as int, message@.len() as int));
            let ghost before = parts_view(parts@);
            let ghost old_run = run@;
            match found {
                Some((length, part)) => {
                    if !run.is_empty() {
                        parts.push(PlainTextPart::new(decode_lossy(run.as_slice())));
                        run.clear();
                    }
                    assert(parts_view(parts@) =~= before + flushed(old_run));
                    let ghost part_view = part@;
                    let ghost flushed_parts = parts@;
                    parts.push(part);
                    assert(parts_view(parts@) =~= parts_view(flushed_parts) + seq![part_view]);
                    assert(run@ =~= Seq::<u8>::empty());
                    let ghost next = i + length + 1;
                    if length >= message.len() - i {
                        i = message.len();
                    } else {
                        i = i + length + 1;
                    }
                    assert(scan_from(message@, next, Seq::empty()) == scan_from(
                        message@,
                        i as int,
                        Seq::empty(),
                    ));
                    assert(before + flushed(old_run) + seq![part_view] + scan_from(
                        message@,
                        next,
                        Seq::empty(),
                    ) =~= before + (flushed(old_run) + seq![part_view] + scan_from(
                        message@,
                        next,
                        Seq::empty(),
                    )));
                },
                None => {
                    run.push(byte);
                    i = i + 1;
                },
            }
        }
        if !run.is_empty() {
            let ghost before = parts_view(parts@);
            parts.push(PlainTextPart::new(decode_lossy(run.as_slice())));
            assert(parts_view(parts@) =~= before + flushed(run@));
        } else {
            assert(parts_view(parts@) + flushed(run@) =~= parts_view(parts@));
        }
        parts
    }

    /// Decodes the sub-structure that starts `message`, and says how many
    /// bytes it occupies.
    pub fn parse_structure(message: &[u8]) -> (r: Option<(usize, Part)>)
        ensures
            match r {
                Some((length, part)) => structure_at(message@) == Some((length as nat, part@)),
                None => structure_at(message@).is_none(),
            },
    {
        if message.len() < 2 {
            return None;
        }
        let structure_id: u8 = *slice_index_get(message, 1);
        if structure_id == NAME_MARKER {
            if !NamePart::verify_data(message) {
                return None;
            }
            let length = NamePart::determine_length(message);
            proof {
                lemma_name_length_bound(message@);
            }
            if length == 0 {
                return None;
            }
            match NamePart::decode_payload(slice_subrange(message, 0, length)) {
                Some(part) => Some((length, part)),
                None => None,
            }
        } else if structure_id == AUTO_TRANSLATE_MARKER {
            if !AutoTranslatePart::verify_data(message) {
                return None;
            }
            let length = AutoTranslatePart::determine_length(message);
            if length == 0 || length > message.len() {
                return None;
            }
            match AutoTranslatePart::decode_payload(slice_subrange(message, 0, length)) {
                Some(part) => Some((length, part)),
                None => None,
            }
        } else {
            None
        }
    }
}

/// The length of a name sub-structure is the offset of a byte of the
/// buffer, so it stays below the buffer's length.
pub proof fn lemma_name_length_bound(bytes: Seq<u8>)
    ensures
        name_length(bytes) == 0 || name_length(bytes) < bytes.len(),
{
    lemma_find_pair(bytes, NAME_LENGTH_OFFSET as int, MARKER_START, NAME_MARKER);
    match find_pair(bytes, NAME_LENGTH_OFFSET as int, MARKER_START, NAME_MARKER) {
        Some(closing) => {
            lemma_find_byte(bytes, closing, NAME_TERMINATOR);
        },
        None => {},
    }
}

/// A non-empty message without a marker start byte is one plain-text
/// segment: the lossy decoding of the whole message.
pub proof fn lemma_plain_message(message: Seq<u8>)
    requires
        message.len() > 0,
        forall|i: int| 0 <= i < message.len() ==> message[i] != MARKER_START,
    ensures
        message_parts(message) == seq![PartView::PlainText(lossy_text(message))],
{
    lemma_plain_tail(message, 0, Seq::empty());
    assert(Seq::<u8>::empty() + message.skip(0) =~= message);
}

/// From an index after which no marker start byte stands, the rest of the
/// message joins the run, which is flushed at the end.
pub proof fn lemma_plain_tail(message: Seq<u8>, i: int, run: Seq<u8>)
    requires
        0 <= i <= message.len(),
        forall|j: int| i <= j < message.len() ==> message[j] != MARKER_START,
    ensures
        scan_from(message, i, run) == flushed(run + message.skip(i)),
    decreases message.len() - i,
{
    if i < message.len() {
        lemma_plain_tail(message, i + 1, run.push(message[i]));
        assert(run.push(message[i]) + message.skip(i + 1) =~= run + message.skip(i));
    } else {
        assert(run + message.skip(i) =~= run);
    }
}

/// A marker start byte at which no sub-structure decodes is a literal byte:
/// it joins the run and the scan goes on behind it.
pub proof fn lemma_undecodable_marker_is_literal(message: Seq<u8>, i: int, run: Seq<u8>)
    requires
        0 <= i < message.len(),
        structure_at(message.skip(i)).is_none(),
    ensures
        scan_from(message, i, run) == scan_from(message, i + 1, run.push(message[i])),
{
}

/// A name marker after which the closing marker or the terminator is
/// missing does not stop the scan: its first byte joins the literal run.
pub proof fn lemma_unterminated_name_is_literal(message: Seq<u8>, i: int, run: Seq<u8>)
    requires
        0 <= i,
        i + 1 < message.len(),
        message[i] == MARKER_START,
        message[i + 1] == NAME_MARKER,
        name_length(message.skip(i)) == 0,
    ensures
        scan_from(message, i, run) == scan_from(message, i + 1, run.push(MARKER_START)),
{
    assert(message.skip(i)[1] == message[i + 1]);
}

} // verus!
