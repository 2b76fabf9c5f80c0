//! The segments of a decoded message, and the traits that the decoders share.

use vstd::prelude::*;
use vstd::string::StringExecFns;
use crate::text::{decimal, decimal_text};

verus! {

/// One typed unit of a decoded message body.
#[derive(Debug, Clone, PartialEq, Eq)]
pub enum Part {
    Name { real_name: String, display_name: String },
    AutoTranslate { category: u8, id: usize },
    PlainText(String),
}

/// The mathematical value of a `Part`.
pub enum PartView {
    Name { real_name: Seq<char>, display_name: Seq<char> },
    AutoTranslate { category: u8, id: nat },
    PlainText(Seq<char>),
}

impl View for Part {
    type V = PartView;

    open spec fn view(&self) -> PartView {
        match *self {
            Part::Name { real_name, display_name } => PartView::Name {
                real_name: real_name@,
                display_name: display_name@,
            },
            Part::AutoTranslate { category, id } => PartView::AutoTranslate {
                category,
                id: id as nat,
            },
            Part::PlainText(text) => PartView::PlainText(text@),
        }
    }
}

/// The views of a sequence of parts, in order.
pub open spec fn parts_view(parts: Seq<Part>) -> Seq<PartView> {
    parts.map_values(|p: Part| p@)
}

/// The view of an optional part.
pub open spec fn option_part_view(part: Option<Part>) -> Option<PartView> {
    match part {
        Some(p) => Some(p@),
        None => None,
    }
}

/// Display text of an auto-translate reference: `<AT: category, id>`, both
/// numbers in decimal.
pub open spec fn auto_translate_text(category: u8, id: nat) -> Seq<char> {
    seq!['<', 'A', 'T', ':', ' '] + decimal_text(category as nat) + seq![',', ' ']
        + decimal_text(id) + seq!['>']
}

impl PartView {
    /// What a segment shows: plain text as it is, a name by its display
    /// name, an auto-translate reference by its two codes.
    pub open spec fn display(self) -> Seq<char> {
        match self {
            PartView::PlainText(text) => text,
            PartView::Name { real_name, display_name } => display_name,
            PartView::AutoTranslate { category, id } => auto_translate_text(category, id),
        }
    }
}

/// The display texts of `parts`, joined without separators.
pub open spec fn joined_display(parts: Seq<PartView>) -> Seq<char>
    decreases parts.len(),
{
    if parts.len() == 0 {
        Seq::empty()
    } else {
        joined_display(parts.drop_last()) + parts.last().display()
    }
}

/// A value that can be shown as text.
pub trait HasDisplayText {
    /// The text that `display_text` returns.
    spec fn display_model(&self) -> Seq<char>;

    fn display_text(&self) -> (r: String)
        ensures
            r@ == self.display_model(),
    ;
}

/// A sub-structure whose byte length can be read off the bytes that start it.
pub trait DeterminesLength {
    /// The length that `determine_length` returns; 0 where there is none.
    spec fn length_in(bytes: Seq<u8>) -> nat;

    fn determine_length(bytes: &[u8]) -> (r: usize)
        ensures
            r == Self::length_in(bytes@),
    ;
}

/// A sub-structure with a structural validity check.
pub trait VerifiesData {
    /// What `verify_data` decides.
    spec fn is_valid(bytes: Seq<u8>) -> bool;

    fn verify_data(bytes: &[u8]) -> (r: bool)
        ensures
            r == Self::is_valid(bytes@),
    ;
}

/// A sub-structure that decodes into a `Part`.
pub trait Parses {
    /// What `parse` returns, as a mathematical value.
    spec fn parsed(bytes: Seq<u8>) -> Option<PartView>;

    fn parse(bytes: &[u8]) -> (r: Option<Part>)
        ensures
            option_part_view(r) == Self::parsed(bytes@),
    ;
}

/// A sub-structure that two marker bytes introduce.
pub trait HasMarkerBytes {
    /// The two bytes that `marker_bytes` returns.
    spec fn marker() -> (u8, u8);

    fn marker_bytes() -> (r: (u8, u8))
        ensures
            r == Self::marker(),
    ;
}

/// A segment of a message: anything with a display text.
pub trait MessagePart: HasDisplayText {

}

impl HasDisplayText for Part {
    open spec fn display_model(&self) -> Seq<char> {
        self@.display()
    }

    fn display_text(&self) -> (r: String) {
        match self {
            Part::PlainText(text) => text.clone(),
            Part::Name { real_name: _, display_name } => display_name.clone(),
            Part::AutoTranslate { category, id } => {
                let category_text = decimal(*category as usize);
                let id_text = decimal(*id);
                let mut out = String::from_str("<AT: ");
                out.append(category_text.as_str());
                out.append(", ");
                out.append(id_text.as_str());
                out.append(">");
                proof {
                    reveal_strlit("<AT: ");
                    reveal_strlit(", ");
                    reveal_strlit(">");
                    assert("<AT: "@ =~= seq!['<', 'A', 'T', ':', ' ']);
                    assert(", "@ =~= seq![',', ' ']);
                    assert(">"@ =~= seq!['>']);
                }
                out
            },
        }
    }
}

impl MessagePart for Part {

}

} // verus!
