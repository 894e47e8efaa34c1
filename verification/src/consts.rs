//! The four-byte type tags of the chunk kinds.

use vstd::prelude::*;

verus! {

/// Suggested background colour (bKGD).
pub const BACKGROUND: [u8; 4] = [0x62, 0x4B, 0x47, 0x44];

/// International text (iTXt).
pub const ITEXT: [u8; 4] = [0x69, 0x54, 0x58, 0x74];

/// Physical pixel dimensions (pHYs).
pub const PHYSICAL: [u8; 4] = [0x70, 0x48, 0x59, 0x73];

/// Colour palette (PLTE).
pub const PALETTE: [u8; 4] = [0x50, 0x4C, 0x54, 0x45];

/// Time of last modification (tIME).
pub const TIME: [u8; 4] = [0x74, 0x49, 0x4D, 0x45];

/// Transparency (tRNS).
pub const TRANSPARENCY: [u8; 4] = [0x74, 0x52, 0x4E, 0x53];

/// Compressed text (zTXt).
pub const ZTEXT: [u8; 4] = [0x7A, 0x54, 0x58, 0x74];

} // verus!
