//! A single glyph bitmap.
use vstd::prelude::*;
use vstd::std_specs::convert::FromSpec;
use crate::format::{NARROW_LEN, WIDE_LEN};

verus! {

/// A single 8x16 or 16x16 bitmap, one displayed glyph. Each byte holds 8
/// pixels, the highest-order bit leftmost; a wide glyph has two bytes per
/// row, a narrow one has one.
#[derive(Debug, PartialEq, Eq)]
pub struct Bitmap {
    bytes: Vec<u8>,
}

impl View for Bitmap {
    type V = Seq<u8>;

    closed spec fn view(&self) -> Seq<u8> {
        self.bytes@
    }
}

/// Byte strings that make a glyph: 16 bytes (narrow) or 32 bytes (wide).
pub open spec fn is_glyph_bytes(bytes: Seq<u8>) -> bool {
    bytes.len() == NARROW_LEN || bytes.len() == WIDE_LEN
}

impl Bitmap {
    #[verifier::type_invariant]
    spec fn inv(self) -> bool {
        is_glyph_bytes(self.bytes@)
    }

    /// Makes a bitmap of 16 (narrow) or 32 (wide) bytes; any other length
    /// gives `None`.
    pub fn new(bytes: Vec<u8>) -> (r: Option<Bitmap>)
        ensures
            r is Some <==> is_glyph_bytes(bytes@),
            r matches Some(b) ==> b@ == bytes@,
    {
        if bytes.len() == NARROW_LEN || bytes.len() == WIDE_LEN {
            Some(Bitmap { bytes })
        } else {
            None
        }
    }

    /// Copies a glyph out of a larger buffer.
    pub(crate) fn from_slice(bytes: &[u8]) -> (r: Bitmap)
        requires
            is_glyph_bytes(bytes@),
        ensures
            r@ == bytes@,
    {
        Bitmap { bytes: vstd::slice::slice_to_vec(bytes) }
    }

    /// The bytes that make up the bitmap, row by row.
    pub fn get_bytes(&self) -> (r: &[u8])
        ensures
            r@ == self@,
            is_glyph_bytes(r@),
    {
        proof {
            use_type_invariant(self);
        }
        self.bytes.as_slice()
    }

    /// `true` if the bitmap is wide (16x16), `false` if it is narrow (8x16).
    pub fn is_wide(&self) -> (r: bool)
        ensures
            r == (self@.len() == WIDE_LEN),
            !r ==> self@.len() == NARROW_LEN,
    {
        proof {
            use_type_invariant(self);
        }
        self.bytes.len() == WIDE_LEN
    }

    /// The dimensions of the bitmap in pixels, width then height: (8, 16)
    /// or (16, 16).
    pub fn get_dimensions<T: From<u8>>(&self) -> (r: (T, T))
        ensures
            T::obeys_from_spec() ==> r == (if self@.len() == WIDE_LEN {
                (T::from_spec(16u8), T::from_spec(16u8))
            } else {
                (T::from_spec(8u8), T::from_spec(16u8))
            }),
    {
        if self.is_wide() {
            (T::from(16u8), T::from(16u8))
        } else {
            (T::from(8u8), T::from(16u8))
        }
    }
}

} // verus!
