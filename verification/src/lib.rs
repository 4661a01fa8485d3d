//! Terminal graphics: protocol negotiation and stateful image encoding.
//!
//! A [`picker::Picker`] probes the terminal for its graphics capabilities,
//! resolves one of four protocol kinds, and constructs fixed or stateful
//! protocol instances that encode a bitmap into the chosen wire format and
//! render it into a cell grid.

use vstd::prelude::*;

pub mod bitmap;
pub mod buffer;
pub mod codec;
pub mod digits;
pub mod geometry;
pub mod picker;
pub mod protocol;
pub mod resize;

verus! {

/// Terminal font size in pixels: (cell width, cell height).
pub type FontSize = (u16, u16);

/// What can go wrong in this library: the probe timed out, its stream
/// failed, the terminal gave no recognizable reply, or a bitmap could not
/// be encoded.
#[derive(Clone, Copy, Debug, PartialEq, Eq, Structural)]
pub enum Error {
    ProbeTimeout,
    ProbeIo,
    ProbeNoReply,
    Encode,
}

} // verus!
