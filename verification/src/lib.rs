//! Decoder for a Bitcoin-style block: a compact binary wire format read by a
//! recursive-descent byte reader, and the data model of the verbose JSON
//! representation of the same entities.

pub mod block_hex;
pub mod block_json;
pub mod cursor;
pub mod decode_props;
pub mod hash256;
pub mod hexcode;

pub use cursor::Reader;
