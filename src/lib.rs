//! Reader for Metal shader-library (`.metallib`) containers: signature check,
//! fixed header, tagged entry index and on-demand shader bodies.
//!
//! A container is decoded from its bytes, held by a [`ByteSource`]. A
//! [`Parser`] reads the header and the entry index at most once each and keeps
//! them; entry bodies are read on demand.

pub mod entries;
pub mod parser;
pub mod source;
pub mod tags;

pub use entries::{read_entries, read_entry, MetalLibraryEntry};
pub use parser::{HeaderInformation, MetalLibrary, Parser, ParsingState};
pub use source::{ByteSource, DecodeError};
pub use tags::{read_tag, EntryHeaderTag, Tag};
