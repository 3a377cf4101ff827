//! Decoder for version 5 of the Note Block Studio song format.
//!
//! A song file is a little-endian byte stream: a fixed header, a table of
//! notes stored as jumps between ticks and between layers, a list of layers
//! and a list of custom instruments. [`parse`] turns such a stream into a
//! [`Data`] value; every function states, over the bytes it is given, which
//! value or which [`ReadError`] it returns.

pub mod cursor;
pub mod decode;
pub mod error;
pub mod header;
pub mod layers;
pub mod notes;
pub mod song;
pub mod text;
pub mod timing;
pub mod truncation;

pub use cursor::ByteCursor;
pub use decode::{handle_version_5, parse, read_file};
pub use error::ReadError;
pub use header::read_header;
pub use layers::{read_custom_instrument, read_custom_instruments, read_layer, read_layers};
pub use notes::{read_notes, read_tick_notes};
pub use song::{assemble, CustomInstrument, Data, Header, Layer, Note};
pub use text::read_utf8_string;
pub use timing::normalize_tick;
