//! Decoder for a byte-oriented dialog text encoding.
//!
//! Raw dialog buffers store their bytes in four-byte groups whose bytes must
//! be read back to front.  Over that reordered stream two independent
//! grammars operate: the full-text grammar (`primary`, rendered by `render`)
//! and the simpler on-screen immediate-buffer grammar (`imm`, assembled into
//! lines and paginated by `lines`).  Decoding is one-directional and total:
//! apart from one hard failure on an unrecognized style byte, malformed or
//! unknown input is surfaced as inline markers in the output rather than an
//! error.

use vstd::prelude::*;

pub mod charsets;
pub mod cursor;
pub mod extcmd;
pub mod imm;
pub mod lines;
pub mod primary;
pub mod render;
pub mod text;

pub use lines::decode_imm_buf;
pub use lines::DecodeImmBufOut;
pub use primary::translate;
pub use primary::Event;
pub use primary::Style;
pub use render::to_string;
pub use render::to_string_nth_bubble;

verus! {

/// The size of a dialog buffer.
pub const BUFFER_SIZE: usize = 1024;

} // verus!
