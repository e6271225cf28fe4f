//! Storage and lazy lookup of bitmap font glyphs.
//!
//! Every glyph of a bitmap font (narrow 8x16 or wide 16x16, one bit per
//! pixel) is stored in one compact artifact: a compressed page directory
//! followed by one compressed stream per non-empty page of 256 codepoints.
//! `encoder` builds the artifact from a set of glyphs; `cache` reads it back,
//! decompressing each page the first time it is needed.
use vstd::prelude::*;

pub mod format;
pub mod zlib;
pub mod page;
pub mod bitmap;
pub mod cache;
pub mod encoder;
pub mod laws;
pub mod hexline;

verus! {

/// The largest codepoint value that is, or ever will be, legal in Unicode.
pub const MAX_UNICODE_CODEPOINT: u32 = 0x10FFFF;

/// The number of legal codepoint values that exist in Unicode.
pub const NUM_UNICODE_CODEPOINTS: u32 = 0x110000;

/// The number of 256-codepoint pages that exist in Unicode.
pub const NUM_UNICODE_PAGES: u32 = 0x1100;

/// The largest number of a 256-codepoint page that exists in Unicode.
pub const MAX_UNICODE_PAGE: u32 = 0x10FF;

/// The codepoint whose glyph stands in for every codepoint without one
/// (U+FFFD REPLACEMENT CHARACTER).
pub const FALLBACK_CODEPOINT: u32 = 0xFFFD;

} // verus!
