//! Decoder for binary chat-log records.
//!
//! A record is `[8-byte header][delimiter][sender bytes][0x3A][message bytes]`.
//! Framing splits it, the header gives a timestamp and an entry type, and the
//! message body is scanned for two kinds of embedded binary sub-structures
//! (names and auto-translate references) between runs of plain text.

pub mod auto_translate;
pub mod message;
pub mod name;
pub mod part;
pub mod record;
pub mod scan;
pub mod text;

pub use auto_translate::AutoTranslatePart;
pub use message::{Message, MessageParser, PlainTextPart};
pub use name::NamePart;
pub use part::{DeterminesLength, HasDisplayText, HasMarkerBytes, MessagePart, Part, Parses,
    VerifiesData};
pub use record::{Entry, RawEntry, RawEntryParts};
